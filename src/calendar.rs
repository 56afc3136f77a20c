use vstd::prelude::*;
use vstd::arithmetic::div_mod::{
    lemma_fundamental_div_mod, lemma_fundamental_div_mod_converse, lemma_mod_bound,
};
use chrono::{Datelike, Timelike};
use crate::clock::ShownDate;

verus! {

/// Seconds in one day.
pub const SECONDS_PER_DAY: i64 = 86400;

/// Earliest instant, in seconds from the Unix epoch, for which calendar
/// fields are produced: -262143-01-01T00:00:00Z, the first instant that the
/// calendar library represents.
pub const CALENDAR_MIN: i64 = -8334601228800;

/// Latest instant, in seconds from the Unix epoch, for which calendar fields
/// are produced: 262142-12-31T23:59:59Z, the last whole second that the
/// calendar library represents.
pub const CALENDAR_MAX: i64 = 8210266876799;

/// Julian Day Number of the day that starts the Unix epoch (1970-01-01),
/// counted at that day's noon.
pub const UNIX_EPOCH_JDN: i64 = 2440588;

/// A UTC calendar instant, broken into Gregorian fields.
#[derive(Clone, Copy, Debug, PartialEq, Eq, Structural)]
pub struct CivilTime {
    pub year: i32,
    pub month: u32,
    pub day: u32,
    pub hour: u32,
    pub minute: u32,
    pub second: u32,
}

pub open spec fn is_leap_year(y: int) -> bool {
    (y % 4 == 0 && y % 100 != 0) || y % 400 == 0
}

pub open spec fn days_in_month(y: int, m: int) -> int {
    if m == 2 {
        if is_leap_year(y) { 29 } else { 28 }
    } else if m == 4 || m == 6 || m == 9 || m == 11 {
        30
    } else {
        31
    }
}

/// The Julian Day Number (the day counted at noon) of a proleptic
/// Gregorian date, by Meeus's rule with January and February counted as
/// months 13 and 14 of the year before.
pub open spec fn julian_day_number(y: int, m: int, d: int) -> int {
    let yy = if m <= 2 { y - 1 } else { y };
    let mm = if m <= 2 { m + 12 } else { m };
    let a = yy / 100;
    (1461 * (yy + 4716)) / 4 + (306001 * (mm + 1)) / 10000 + d + 2 - a + a / 4 - 1524
}

impl CivilTime {
    pub open spec fn wf(&self) -> bool {
        &&& 1 <= self.month <= 12
        &&& 1 <= self.day <= days_in_month(self.year as int, self.month as int)
        &&& self.hour < 24
        &&& self.minute < 60
        &&& self.second < 60
    }

    pub open spec fn seconds_of_day(&self) -> int {
        self.hour * 3600 + self.minute * 60 + self.second
    }

    /// Seconds since 1970-01-01T00:00:00Z.
    pub open spec fn unix_seconds(&self) -> int {
        (julian_day_number(self.year as int, self.month as int, self.day as int)
            - UNIX_EPOCH_JDN) * SECONDS_PER_DAY + self.seconds_of_day()
    }

    /// The Julian Date of the instant, in seconds: the Julian Day Number
    /// starts at noon, so midnight lies half a day before it.
    pub open spec fn julian_date_seconds(&self) -> int {
        julian_day_number(self.year as int, self.month as int, self.day as int) * SECONDS_PER_DAY
            - SECONDS_PER_DAY / 2 + self.seconds_of_day()
    }
}

/// Relies on chrono's `DateTime::<Utc>::from_timestamp` and the `Datelike` /
/// `Timelike` field getters: for an in-range timestamp they give the proleptic
/// Gregorian UTC fields of that instant.
#[verifier::external_body]
fn civil_from_timestamp(secs: i64) -> (r: CivilTime)
    requires
        CALENDAR_MIN <= secs <= CALENDAR_MAX,
    ensures
        r.wf(),
        r.unix_seconds() == secs,
{
    let dt = chrono::DateTime::from_timestamp(secs, 0).unwrap();
    CivilTime {
        year: dt.year(),
        month: dt.month(),
        day: dt.day(),
        hour: dt.hour(),
        minute: dt.minute(),
        second: dt.second(),
    }
}

/// The calendar fields of the shown date (its whole second), or `None` when
/// it lies outside CALENDAR_MIN..=CALENDAR_MAX.
pub fn calendar_of(date: &ShownDate) -> (r: Option<CivilTime>)
    ensures
        r.is_some() <==> CALENDAR_MIN <= date.secs <= CALENDAR_MAX,
        r matches Some(c) ==> c.wf() && c.unix_seconds() == date.secs,
{
    if CALENDAR_MIN <= date.secs && date.secs <= CALENDAR_MAX {
        Some(civil_from_timestamp(date.secs))
    } else {
        None
    }
}

/// Earliest year that the calendar library represents.
pub const YEAR_MIN: i32 = -262143;

/// Latest year that the calendar library represents.
pub const YEAR_MAX: i32 = 262142;

pub open spec fn digit_char(d: nat) -> char {
    "0123456789"@[d as int]
}

/// The decimal digits of `n`, without leading zeros.
pub open spec fn decimal(n: nat) -> Seq<char>
    decreases n,
{
    if n < 10 {
        seq![digit_char(n)]
    } else {
        decimal(n / 10).push(digit_char(n % 10))
    }
}

/// `s` preceded by as many zeros as bring it to `width` characters.
pub open spec fn zero_pad(s: Seq<char>, width: nat) -> Seq<char> {
    if s.len() >= width {
        s
    } else {
        Seq::new((width - s.len()) as nat, |_i: int| '0') + s
    }
}

/// The year in at least four digits; years outside 0..=9999 carry a sign.
pub open spec fn year_text(y: int) -> Seq<char> {
    if 0 <= y <= 9999 {
        zero_pad(decimal(y as nat), 4)
    } else if y < 0 {
        seq!['-'] + zero_pad(decimal((-y) as nat), 4)
    } else {
        seq!['+'] + zero_pad(decimal(y as nat), 4)
    }
}

/// The date of `c` written as `YYYY-MM-DD`.
pub open spec fn date_text(c: CivilTime) -> Seq<char> {
    year_text(c.year as int) + seq!['-'] + zero_pad(decimal(c.month as nat), 2) + seq!['-']
        + zero_pad(decimal(c.day as nat), 2)
}

/// Relies on chrono's `NaiveDate::from_ymd_opt`, which accepts every valid
/// Gregorian date of a year within its range, and on `%Y-%m-%d` formatting,
/// which writes the year zero-padded to four digits (with a sign outside
/// 0..=9999) and the month and day zero-padded to two.
#[verifier::external_body]
fn format_date(c: &CivilTime) -> (r: String)
    requires
        c.wf(),
        YEAR_MIN <= c.year <= YEAR_MAX,
    ensures
        r@ == date_text(*c),
{
    let d = chrono::NaiveDate::from_ymd_opt(c.year, c.month, c.day).unwrap();
    d.format("%Y-%m-%d").to_string()
}

/// The text of the date label for `c`, or `None` when its year lies outside
/// YEAR_MIN..=YEAR_MAX.
pub fn date_label_text(c: &CivilTime) -> (r: Option<String>)
    requires
        c.wf(),
    ensures
        r.is_some() <==> YEAR_MIN <= c.year <= YEAR_MAX,
        r matches Some(t) ==> t@ == date_text(*c),
{
    if YEAR_MIN <= c.year && c.year <= YEAR_MAX {
        Some(format_date(c))
    } else {
        None
    }
}

proof fn lemma_div_shift(x: int, d: int, k: int)
    requires
        d > 0,
    ensures
        (x + d * k) / d == x / d + k,
{
    lemma_fundamental_div_mod(x, d);
    lemma_mod_bound(x, d);
    assert(x + d * k == (x / d + k) * d + x % d) by (nonlinear_arith)
        requires
            x == d * (x / d) + x % d,
    ;
    lemma_fundamental_div_mod_converse(x + d * k, d, x / d + k, x % d);
}

/// The Julian Date of `c` in seconds, exact: the instant's Julian Date
/// times 86,400.
pub fn julian_seconds(c: &CivilTime) -> (r: i64)
    requires
        c.wf(),
    ensures
        r == c.julian_date_seconds(),
{
    let yy: i64 = if c.month <= 2 { c.year as i64 - 1 } else { c.year as i64 };
    let mm: u64 = if c.month <= 2 { c.month as u64 + 12 } else { c.month as u64 };
    // shift by whole 400-year cycles so that every quotient below is of a
    // non-negative number
    let ys: u64 = (yy + 2147484000) as u64;
    let g: u64 = 1461 * (ys + 4716) / 4;
    let f: u64 = 306001 * (mm + 1) / 10000;
    let a: u64 = ys / 100;
    let a4: u64 = a / 4;
    proof {
        let y = yy as int;
        lemma_div_shift(1461 * (y + 4716), 4, 784368531000);
        assert(1461 * (ys + 4716) == 1461 * (y + 4716) + 4 * 784368531000);
        lemma_div_shift(y, 100, 21474840);
        lemma_div_shift(y / 100, 4, 5368710);
        assert(a == y / 100 + 21474840);
    }
    let jdn: i64 = g as i64 + f as i64 + c.day as i64 + 2 - a as i64 + a4 as i64 - 1524
        - 784352424870;
    let sod: i64 = c.hour as i64 * 3600 + c.minute as i64 * 60 + c.second as i64;
    jdn * SECONDS_PER_DAY - SECONDS_PER_DAY / 2 + sod
}

/// `c1` comes strictly before `c2` in the order of their fields, from the
/// year down to the second.
pub open spec fn civil_before(c1: CivilTime, c2: CivilTime) -> bool {
    if c1.year != c2.year {
        c1.year < c2.year
    } else if c1.month != c2.month {
        c1.month < c2.month
    } else if c1.day != c2.day {
        c1.day < c2.day
    } else if c1.hour != c2.hour {
        c1.hour < c2.hour
    } else if c1.minute != c2.minute {
        c1.minute < c2.minute
    } else {
        c1.second < c2.second
    }
}

/// The day before the first of month `m`, as a Julian Day Number.
spec fn month_origin(y: int, m: int) -> int {
    julian_day_number(y, m, 0)
}

proof fn lemma_div_step(x: int, d: int)
    requires
        d > 0,
    ensures
        (x + 1) / d == x / d + (if (x + 1) % d == 0 { 1int } else { 0int }),
{
    lemma_fundamental_div_mod(x, d);
    lemma_mod_bound(x, d);
    if x % d + 1 == d {
        assert(x + 1 == (x / d + 1) * d) by (nonlinear_arith)
            requires
                x == d * (x / d) + x % d,
                x % d + 1 == d,
        ;
        lemma_fundamental_div_mod_converse(x + 1, d, x / d + 1, 0);
    } else {
        assert(x + 1 == (x / d) * d + (x % d + 1)) by (nonlinear_arith)
            requires
                x == d * (x / d) + x % d,
        ;
        lemma_fundamental_div_mod_converse(x + 1, d, x / d, x % d + 1);
    }
}

proof fn lemma_mod_shift(x: int, d: int, k: int)
    requires
        d > 0,
    ensures
        (x + d * k) % d == x % d,
{
    lemma_fundamental_div_mod(x, d);
    lemma_mod_bound(x, d);
    assert(x + d * k == (x / d + k) * d + x % d) by (nonlinear_arith)
        requires
            x == d * (x / d) + x % d,
    ;
    lemma_fundamental_div_mod_converse(x + d * k, d, x / d + k, x % d);
}

/// Meeus's year term and century correction together grow by the length of
/// the Gregorian year that ends with February of year `y`.
proof fn lemma_year_length(y: int)
    ensures
        (1461 * (y + 4716)) / 4 - (1461 * (y + 4715)) / 4 + (2 - y / 100 + (y / 100) / 4)
            - (2 - (y - 1) / 100 + ((y - 1) / 100) / 4)
            == 365 + (if is_leap_year(y) { 1int } else { 0int }),
{
    let t = y + 4715;
    lemma_div_shift(t, 4, 365 * t);
    lemma_div_shift(t + 1, 4, 365 * (t + 1));
    assert(1461 * (y + 4715) == t + 4 * (365 * t));
    assert(1461 * (y + 4716) == (t + 1) + 4 * (365 * (t + 1)));
    lemma_div_step(t, 4);
    lemma_mod_shift(y, 4, 1179);
    lemma_div_step(y - 1, 100);
    let a = y / 100;
    let a0 = (y - 1) / 100;
    if y % 100 == 0 {
        lemma_div_step(a0, 4);
        lemma_fundamental_div_mod(y, 100);
        lemma_fundamental_div_mod(a, 4);
        lemma_mod_bound(a, 4);
        assert(y == 400 * (a / 4) + 100 * (a % 4));
        lemma_fundamental_div_mod_converse(y, 400, a / 4, 100 * (a % 4));
        lemma_fundamental_div_mod(y, 4);
        lemma_fundamental_div_mod_converse(y, 4, 25 * a, 0);
    } else {
        assert(y % 400 != 0) by {
            if y % 400 == 0 {
                lemma_fundamental_div_mod(y, 400);
                lemma_fundamental_div_mod_converse(y, 100, 4 * (y / 400), 0);
            }
        }
    }
}

proof fn lemma_month_step(y: int, m: int)
    requires
        1 <= m <= 11,
    ensures
        month_origin(y, m) + days_in_month(y, m) == month_origin(y, m + 1),
{
    if m == 2 {
        lemma_year_length(y);
    }
}

proof fn lemma_year_step(y: int)
    ensures
        month_origin(y, 12) + 31 == month_origin(y + 1, 1),
{
}

proof fn lemma_months_ordered(y: int, m1: int, m2: int)
    requires
        1 <= m1 < m2 <= 12,
    ensures
        month_origin(y, m1) + days_in_month(y, m1) <= month_origin(y, m2),
    decreases m2 - m1,
{
    lemma_month_step(y, m1);
    if m1 + 1 < m2 {
        lemma_months_ordered(y, m1 + 1, m2);
    }
}

proof fn lemma_year_end(y: int, m: int)
    requires
        1 <= m <= 12,
    ensures
        month_origin(y, m) + days_in_month(y, m) <= month_origin(y + 1, 1),
{
    lemma_year_step(y);
    if m < 12 {
        lemma_months_ordered(y, m, 12);
    }
}

proof fn lemma_years_ordered(y1: int, m1: int, y2: int, m2: int)
    requires
        y1 < y2,
        1 <= m1 <= 12,
        1 <= m2 <= 12,
    ensures
        month_origin(y1, m1) + days_in_month(y1, m1) <= month_origin(y2, m2),
    decreases y2 - y1,
{
    lemma_year_end(y1, m1);
    if y1 + 1 == y2 {
        if m2 > 1 {
            lemma_months_ordered(y2, 1, m2);
        }
    } else {
        lemma_years_ordered(y1 + 1, 1, y2, m2);
    }
}

/// The Julian Date grows strictly in chronological order: of two valid
/// calendar instants, the one whose fields come first has the smaller
/// Julian Date.
pub proof fn lemma_julian_increasing(c1: CivilTime, c2: CivilTime)
    requires
        c1.wf(),
        c2.wf(),
        civil_before(c1, c2),
    ensures
        c1.julian_date_seconds() < c2.julian_date_seconds(),
{
    let (y1, m1, d1) = (c1.year as int, c1.month as int, c1.day as int);
    let (y2, m2, d2) = (c2.year as int, c2.month as int, c2.day as int);
    let j1 = julian_day_number(y1, m1, d1);
    let j2 = julian_day_number(y2, m2, d2);
    assert(j1 == month_origin(y1, m1) + d1);
    assert(j2 == month_origin(y2, m2) + d2);
    if y1 < y2 {
        lemma_years_ordered(y1, m1, y2, m2);
    } else if y1 == y2 && m1 < m2 {
        lemma_months_ordered(y1, m1, m2);
    }
    assert(j1 <= j2);
    if j1 < j2 {
        assert(j1 * SECONDS_PER_DAY + SECONDS_PER_DAY <= j2 * SECONDS_PER_DAY) by (nonlinear_arith)
            requires
                j1 < j2,
        ;
    }
}

/// The Julian Date is the Unix time moved by a fixed offset, so it grows
/// strictly with the instant: of two valid calendar instants, the later one
/// has the larger Julian Date.
pub proof fn lemma_julian_monotone(c1: CivilTime, c2: CivilTime)
    requires
        c1.wf(),
        c2.wf(),
        c1.unix_seconds() < c2.unix_seconds(),
    ensures
        c1.julian_date_seconds() < c2.julian_date_seconds(),
{
}

} // verus!
