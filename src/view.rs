use vstd::prelude::*;

verus! {

/// Distance of the camera from the origin in the near view, in scene units.
pub const NEAR_DISTANCE: u32 = 5;

/// Distance of the camera from the origin in the far view, in scene units.
pub const FAR_DISTANCE: u32 = 60;

/// Which of the two camera distances is in use.
#[derive(Clone, Copy, Debug, PartialEq, Eq, Structural)]
pub enum ViewMode {
    Near,
    Far,
}

/// An activation signal from one of the two view controls.
#[derive(Clone, Copy, Debug, PartialEq, Eq, Structural)]
pub enum ViewEvent {
    NearActivate,
    FarActivate,
}

/// What a control reports about the pointer this frame.
#[derive(Clone, Copy, Debug, PartialEq, Eq, Structural)]
pub enum Interaction {
    Pressed,
    Hovered,
    Idle,
}

pub open spec fn mode_distance(m: ViewMode) -> u32 {
    match m {
        ViewMode::Near => NEAR_DISTANCE,
        ViewMode::Far => FAR_DISTANCE,
    }
}

/// The camera's state and the two controls' indicators.  The camera stands
/// at `(0, 0, camera_distance)` and always looks at the origin.
#[derive(Clone, Copy, Debug, PartialEq, Eq, Structural)]
pub struct ViewController {
    pub mode: ViewMode,
    pub camera_distance: u32,
    pub near_active: bool,
    pub far_active: bool,
}

/// The state after one activation event.
pub open spec fn step(s: ViewController, e: ViewEvent) -> ViewController {
    match e {
        ViewEvent::NearActivate => ViewController {
            mode: ViewMode::Near,
            camera_distance: NEAR_DISTANCE,
            near_active: true,
            far_active: false,
        },
        ViewEvent::FarActivate => ViewController {
            mode: ViewMode::Far,
            camera_distance: FAR_DISTANCE,
            near_active: false,
            far_active: true,
        },
    }
}

/// The state after a sequence of activation events, applied in order.
pub open spec fn run(s: ViewController, events: Seq<ViewEvent>) -> ViewController
    decreases events.len(),
{
    if events.len() == 0 {
        s
    } else {
        step(run(s, events.drop_last()), events.last())
    }
}

pub open spec fn initial_view() -> ViewController {
    ViewController {
        mode: ViewMode::Near,
        camera_distance: NEAR_DISTANCE,
        near_active: true,
        far_active: false,
    }
}

impl ViewController {
    /// Exactly one indicator is active, it is the one of the current mode,
    /// and the camera stands at that mode's distance.
    pub open spec fn wf(&self) -> bool {
        &&& self.near_active != self.far_active
        &&& self.near_active <==> self.mode == ViewMode::Near
        &&& self.camera_distance == mode_distance(self.mode)
    }

    /// The starting state: near view, near indicator active.
    pub fn new() -> (r: ViewController)
        ensures
            r == initial_view(),
            r.wf(),
    {
        ViewController {
            mode: ViewMode::Near,
            camera_distance: NEAR_DISTANCE,
            near_active: true,
            far_active: false,
        }
    }

    /// Handles one activation event: moves the camera to the event's mode
    /// and re-asserts both indicators, also when the mode does not change.
    pub fn activate(&mut self, e: ViewEvent)
        ensures
            *final(self) == step(*old(self), e),
            final(self).wf(),
    {
        match e {
            ViewEvent::NearActivate => {
                self.mode = ViewMode::Near;
                self.camera_distance = NEAR_DISTANCE;
                self.near_active = true;
                self.far_active = false;
            },
            ViewEvent::FarActivate => {
                self.mode = ViewMode::Far;
                self.camera_distance = FAR_DISTANCE;
                self.near_active = false;
                self.far_active = true;
            },
        }
    }
}

/// Reacts to the near control: a press activates the near view, anything
/// else leaves the state as it is.
pub fn inner_button_interactions(view: &mut ViewController, interaction: Interaction)
    ensures
        interaction == Interaction::Pressed ==> *final(view) == step(*old(view), ViewEvent::NearActivate),
        interaction != Interaction::Pressed ==> *final(view) == *old(view),
{
    if interaction == Interaction::Pressed {
        view.activate(ViewEvent::NearActivate);
    }
}

/// Reacts to the far control: a press activates the far view, anything
/// else leaves the state as it is.
pub fn outer_button_interactions(view: &mut ViewController, interaction: Interaction)
    ensures
        interaction == Interaction::Pressed ==> *final(view) == step(*old(view), ViewEvent::FarActivate),
        interaction != Interaction::Pressed ==> *final(view) == *old(view),
{
    if interaction == Interaction::Pressed {
        view.activate(ViewEvent::FarActivate);
    }
}

/// After any sequence of activation events from the starting state, exactly
/// one indicator is active and the camera distance is the active mode's.
pub proof fn lemma_view_exclusive(events: Seq<ViewEvent>)
    ensures
        run(initial_view(), events).wf(),
    decreases events.len(),
{
    if events.len() > 0 {
        lemma_view_exclusive(events.drop_last());
    }
}

/// Handling the same event twice leaves the state of handling it once.
pub proof fn lemma_activate_idempotent(s: ViewController, e: ViewEvent)
    ensures
        step(step(s, e), e) == step(s, e),
{
}

} // verus!
