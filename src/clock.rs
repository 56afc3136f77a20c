use vstd::prelude::*;
use vstd::arithmetic::div_mod::{
    lemma_fundamental_div_mod, lemma_fundamental_div_mod_converse,
    lemma_mod_pos_bound,
};

verus! {

/// Simulated seconds that pass for each real second.
pub const ACCEL: u64 = 2592000;

/// Nanoseconds in one second.
pub const NANOS_PER_SECOND: u64 = 1000000000;

/// Whole simulated seconds for `elapsed_nanos` of real time: the scaled
/// duration truncated toward zero.  Real deltas shorter than 1/ACCEL of a
/// second therefore move the date by nothing.
pub open spec fn scaled_seconds(elapsed_nanos: nat) -> int {
    (elapsed_nanos * ACCEL) as int / NANOS_PER_SECOND as int
}

/// The simulated calendar instant: seconds since 1970-01-01T00:00:00Z
/// and the nanoseconds within that second.
#[derive(Clone, Copy, Debug, PartialEq, Eq)]
pub struct ShownDate {
    pub secs: i64,
    pub nanos: u32,
}

/// The date after `elapsed_nanos` of real time.
pub open spec fn advanced(date: ShownDate, elapsed_nanos: nat) -> ShownDate {
    ShownDate { secs: (date.secs + scaled_seconds(elapsed_nanos)) as i64, nanos: date.nanos }
}

impl ShownDate {
    pub open spec fn wf(&self) -> bool {
        self.nanos < NANOS_PER_SECOND
    }

    /// The instant `secs` seconds after the Unix epoch, on a whole second.
    pub fn from_timestamp(secs: i64) -> (r: ShownDate)
        ensures
            r.wf(),
            r.secs == secs,
            r.nanos == 0,
    {
        ShownDate { secs, nanos: 0 }
    }

    /// Moves the date forward by `elapsed_nanos` of real time, scaled by ACCEL
    /// and truncated to whole simulated seconds.
    pub fn advance(&mut self, elapsed_nanos: u64)
        requires
            old(self).secs + scaled_seconds(elapsed_nanos as nat) <= i64::MAX,
        ensures
            final(self).secs == old(self).secs + scaled_seconds(elapsed_nanos as nat),
            final(self).nanos == old(self).nanos,
            *final(self) == advanced(*old(self), elapsed_nanos as nat),
    {
        let step = simulated_seconds(elapsed_nanos);
        self.secs = self.secs + step;
    }
}

/// Whole simulated seconds that `elapsed_nanos` of real time stand for.
pub fn simulated_seconds(elapsed_nanos: u64) -> (r: i64)
    ensures
        r == scaled_seconds(elapsed_nanos as nat),
        r >= 0,
{
    proof {
        assert(elapsed_nanos * 2592000 <= 18446744073709551615 * 2592000) by (nonlinear_arith)
            requires
                elapsed_nanos <= 18446744073709551615,
        ;
    }
    let scaled: u128 = (elapsed_nanos as u128) * (ACCEL as u128);
    let q: u128 = scaled / (NANOS_PER_SECOND as u128);
    proof {
        let x = scaled as int;
        let qi = q as int;
        lemma_fundamental_div_mod(x, 1000000000);
        lemma_mod_pos_bound(x, 1000000000);
        assert(x <= 18446744073709551615 * 2592000) by (nonlinear_arith)
            requires
                x == elapsed_nanos * 2592000,
                elapsed_nanos <= 18446744073709551615,
        ;
        assert(qi <= 9223372036854775807) by (nonlinear_arith)
            requires
                x == 1000000000 * qi + x % 1000000000,
                x % 1000000000 >= 0,
                x <= 18446744073709551615 * 2592000,
        ;
    }
    q as i64
}

/// Advancing by `d1` and then by `d2` lands within one simulated second of
/// advancing once by `d1 + d2`, and never past it; when `d1` scales to a
/// whole number of simulated seconds the two agree exactly.
pub proof fn lemma_advance_additive(start: ShownDate, d1: nat, d2: nat)
    ensures
        start.secs + scaled_seconds(d1) + scaled_seconds(d2) <= start.secs + scaled_seconds(d1 + d2),
        start.secs + scaled_seconds(d1 + d2) <= start.secs + scaled_seconds(d1) + scaled_seconds(d2) + 1,
        (d1 * ACCEL) % (NANOS_PER_SECOND as int) == 0 ==>
            start.secs + scaled_seconds(d1) + scaled_seconds(d2) == start.secs + scaled_seconds(d1 + d2),
{
    let n = NANOS_PER_SECOND as int;
    let a = (d1 * ACCEL) as int;
    let b = (d2 * ACCEL) as int;
    assert((d1 + d2) * ACCEL == a + b) by (nonlinear_arith)
        requires
            a == d1 * 2592000,
            b == d2 * 2592000,
            ACCEL == 2592000,
    ;
    lemma_fundamental_div_mod(a, n);
    lemma_fundamental_div_mod(b, n);
    lemma_mod_pos_bound(a, n);
    lemma_mod_pos_bound(b, n);
    let q = a / n + b / n;
    let r = a % n + b % n;
    if r < n {
        lemma_fundamental_div_mod_converse(a + b, n, q, r);
    } else {
        lemma_fundamental_div_mod_converse(a + b, n, q + 1, r - n);
    }
}

/// Advancing a date by `d1` and then by `d2` gives the date of advancing it
/// once by `d1 + d2`, up to the whole-second truncation: the two-step date
/// is never later and at most one second earlier, and the two agree exactly
/// when `d1` scales to a whole number of simulated seconds.
pub proof fn lemma_advanced_additive(start: ShownDate, d1: nat, d2: nat)
    requires
        start.secs + scaled_seconds(d1 + d2) <= i64::MAX,
    ensures
        advanced(advanced(start, d1), d2).secs <= advanced(start, d1 + d2).secs,
        advanced(start, d1 + d2).secs <= advanced(advanced(start, d1), d2).secs + 1,
        advanced(advanced(start, d1), d2).nanos == advanced(start, d1 + d2).nanos,
        (d1 * ACCEL) % (NANOS_PER_SECOND as int) == 0 ==>
            advanced(advanced(start, d1), d2) == advanced(start, d1 + d2),
{
    lemma_advance_additive(start, d1, d2);
    assert(scaled_seconds(d1) >= 0 && scaled_seconds(d2) >= 0) by {
        lemma_scaled_nonnegative(d1);
        lemma_scaled_nonnegative(d2);
    }
}

proof fn lemma_scaled_nonnegative(d: nat)
    ensures
        scaled_seconds(d) >= 0,
{
    assert(d * ACCEL >= 0) by (nonlinear_arith)
        requires
            ACCEL == 2592000,
    ;
    lemma_fundamental_div_mod((d * ACCEL) as int, NANOS_PER_SECOND as int);
    lemma_mod_pos_bound((d * ACCEL) as int, NANOS_PER_SECOND as int);
    assert(((d * ACCEL) as int) / (NANOS_PER_SECOND as int) >= 0) by (nonlinear_arith)
        requires
            (d * ACCEL) as int == 1000000000 * (((d * ACCEL) as int) / 1000000000)
                + ((d * ACCEL) as int) % 1000000000,
            ((d * ACCEL) as int) % 1000000000 < 1000000000,
            (d * ACCEL) as int >= 0,
            NANOS_PER_SECOND == 1000000000,
    ;
}

} // verus!
