//! Events that the blocking loop hands to the user interface (for example
//! to show a notification when a Pomodoro phase changes).

use vstd::prelude::*;

verus! {

/// Something the user interface should react to.
#[derive(Debug, Clone)]
pub enum PomodoroEvent {
    PhaseAdvanced { to: String, cycle: u32 },
    TamperDetected,
}

/// Events waiting for the user interface, oldest first.
pub struct PomodoroEvents {
    events: Vec<PomodoroEvent>,
}

impl View for PomodoroEvents {
    type V = Seq<PomodoroEvent>;

    closed spec fn view(&self) -> Seq<PomodoroEvent> {
        self.events@
    }
}

impl PomodoroEvents {
    /// No waiting events.
    pub fn new() -> (r: PomodoroEvents)
        ensures
            r@ == Seq::<PomodoroEvent>::empty(),
    {
        PomodoroEvents { events: Vec::new() }
    }

    /// Appends an event after the waiting ones.
    pub fn push(&mut self, event: PomodoroEvent)
        ensures
            final(self)@ == old(self)@.push(event),
    {
        self.events.push(event);
    }

    /// Hands out the waiting events, oldest first, and leaves none waiting.
    pub fn drain(&mut self) -> (r: Vec<PomodoroEvent>)
        ensures
            r@ == old(self)@,
            final(self)@ == Seq::<PomodoroEvent>::empty(),
    {
        let mut taken: Vec<PomodoroEvent> = Vec::new();
        std::mem::swap(&mut taken, &mut self.events);
        taken
    }
}

} // verus!
