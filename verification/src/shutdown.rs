//! The shutdown coordinator: two sources of termination race, the first to
//! fire ends the running phase, and the process stops once the requests that
//! were already being answered have their responses.

use vstd::prelude::*;

verus! {

/// A source of termination.
#[derive(Clone, Copy, Debug, PartialEq, Eq, Structural)]
pub enum Signal {
    /// The interactive interrupt.
    Interrupt,
    /// The termination signal. Where the platform has none, it never fires.
    Terminate,
}

/// The phases of the process.
#[derive(Clone, Copy, Debug, PartialEq, Eq, Structural)]
pub enum Phase {
    /// Requests are admitted.
    Running,
    /// No request is admitted; those in flight are being answered.
    Draining,
    /// Nothing is in flight and nothing is admitted.
    Stopped,
}

/// What the coordinator is told.
#[derive(Clone, Copy, Debug, PartialEq, Eq, Structural)]
pub enum Event {
    /// A source of termination fired.
    Fired(Signal),
    /// A request arrived.
    RequestArrived,
    /// A request that had been admitted got its response.
    RequestAnswered,
}

/// What the coordinator asks for in return.
#[derive(Clone, Copy, Debug, PartialEq, Eq, Structural)]
pub enum Action {
    /// Nothing is to be done.
    Nothing,
    /// Answer the request.
    Admit,
    /// Turn the request away.
    Refuse,
    /// Stop accepting connections: this source won the race.
    StopAccepting(Signal),
    /// The last request in flight has been answered: leave.
    Exit,
}

/// The coordinator's state.
#[derive(Clone, Copy, Debug, PartialEq, Eq, Structural)]
pub struct Coordinator {
    pub phase: Phase,
    /// The requests that were admitted and are not answered yet.
    pub in_flight: u64,
    /// The source that ended the running phase.
    pub stopped_by: Option<Signal>,
}

impl Coordinator {
    /// The states that the coordinator can be in: it drains only while
    /// something is in flight, it is stopped only when nothing is, and it
    /// knows which source stopped it exactly when it no longer runs.
    pub open spec fn wf(self) -> bool {
        &&& self.phase == Phase::Draining ==> self.in_flight > 0
        &&& self.phase == Phase::Stopped ==> self.in_flight == 0
        &&& self.phase == Phase::Running <==> self.stopped_by is None
    }

    /// The state at startup.
    pub open spec fn initial() -> Coordinator {
        Coordinator { phase: Phase::Running, in_flight: 0, stopped_by: None }
    }

    /// The state that follows `self` on `event`, and the action asked for.
    pub open spec fn next(self, event: Event) -> (Coordinator, Action) {
        match event {
            Event::Fired(signal) => if self.phase == Phase::Running {
                (
                    Coordinator {
                        phase: if self.in_flight == 0 {
                            Phase::Stopped
                        } else {
                            Phase::Draining
                        },
                        in_flight: self.in_flight,
                        stopped_by: Some(signal),
                    },
                    Action::StopAccepting(signal),
                )
            } else {
                (self, Action::Nothing)
            },
            Event::RequestArrived => if self.phase == Phase::Running && self.in_flight
                < u64::MAX {
                (Coordinator { in_flight: (self.in_flight + 1) as u64, ..self }, Action::Admit)
            } else {
                (self, Action::Refuse)
            },
            Event::RequestAnswered => if self.in_flight == 0 {
                (self, Action::Nothing)
            } else if self.phase == Phase::Draining && self.in_flight == 1 {
                (Coordinator { phase: Phase::Stopped, in_flight: 0, ..self }, Action::Exit)
            } else {
                (Coordinator { in_flight: (self.in_flight - 1) as u64, ..self }, Action::Nothing)
            },
        }
    }

    /// The state after all of `events`, in their order.
    pub open spec fn after(self, events: Seq<Event>) -> Coordinator
        decreases events.len(),
    {
        if events.len() == 0 {
            self
        } else {
            self.after(events.drop_last()).next(events.last()).0
        }
    }

    /// How often the coordinator leaves the running phase while it takes
    /// `events`.
    pub open spec fn departures(self, events: Seq<Event>) -> nat
        decreases events.len(),
    {
        if events.len() == 0 {
            0
        } else {
            let before = self.after(events.drop_last());
            let once: nat = if before.phase == Phase::Running && before.next(events.last()).0.phase
                != Phase::Running {
                1
            } else {
                0
            };
            self.departures(events.drop_last()) + once
        }
    }

    /// The coordinator of a process that has just started.
    pub fn new() -> (coordinator: Coordinator)
        ensures
            coordinator == Coordinator::initial(),
            coordinator.wf(),
    {
        Coordinator { phase: Phase::Running, in_flight: 0, stopped_by: None }
    }

    /// Takes one event and says what is to be done.
    pub fn step(&mut self, event: Event) -> (action: Action)
        ensures
            (*final(self), action) == old(self).next(event),
            old(self).wf() ==> final(self).wf(),
    {
        match event {
            Event::Fired(signal) => {
                if self.phase == Phase::Running {
                    self.phase = if self.in_flight == 0 {
                        Phase::Stopped
                    } else {
                        Phase::Draining
                    };
                    self.stopped_by = Some(signal);
                    Action::StopAccepting(signal)
                } else {
                    Action::Nothing
                }
            },
            Event::RequestArrived => {
                if self.phase == Phase::Running && self.in_flight < u64::MAX {
                    self.in_flight = self.in_flight + 1;
                    Action::Admit
                } else {
                    Action::Refuse
                }
            },
            Event::RequestAnswered => {
                if self.in_flight == 0 {
                    Action::Nothing
                } else if self.phase == Phase::Draining && self.in_flight == 1 {
                    self.phase = Phase::Stopped;
                    self.in_flight = 0;
                    Action::Exit
                } else {
                    self.in_flight = self.in_flight - 1;
                    Action::Nothing
                }
            },
        }
    }
}

/// Whether a source of termination fires among `events`.
pub open spec fn some_signal_fires(events: Seq<Event>) -> bool {
    exists|i: int| 0 <= i < events.len() && (#[trigger] events[i]) is Fired
}

/// Every step keeps the coordinator in one of its states.
pub proof fn lemma_step_keeps_wf(state: Coordinator, event: Event)
    requires
        state.wf(),
    ensures
        state.next(event).0.wf(),
{
}

/// Whatever happens, the coordinator stays in one of its states.
pub proof fn lemma_always_wf(state: Coordinator, events: Seq<Event>)
    requires
        state.wf(),
    ensures
        state.after(events).wf(),
    decreases events.len(),
{
    if events.len() > 0 {
        lemma_always_wf(state, events.drop_last());
    }
}

/// The running phase is left exactly once if either source fires, however
/// often and in whatever order the sources fire after that, and never if
/// none does. The source that is recorded is the one that fired first; a
/// later firing changes nothing and asks for nothing.
pub proof fn lemma_leaves_running_once(events: Seq<Event>)
    ensures
        Coordinator::initial().departures(events) == if some_signal_fires(events) {
            1nat
        } else {
            0nat
        },
        some_signal_fires(events) <==> Coordinator::initial().after(events).phase
            != Phase::Running,
        forall|signal: Signal|
            Coordinator::initial().after(events).phase != Phase::Running ==> (
            #[trigger] Coordinator::initial().after(events).next(Event::Fired(signal))) == (
                Coordinator::initial().after(events),
                Action::Nothing,
            ),
    decreases events.len(),
{
    let start = Coordinator::initial();
    if events.len() > 0 {
        let earlier = events.drop_last();
        lemma_leaves_running_once(earlier);
        lemma_always_wf(start, earlier);
        if some_signal_fires(earlier) {
            let i = choose|i: int| 0 <= i < earlier.len() && (#[trigger] earlier[i]) is Fired;
            assert(events[i] is Fired);
        }
        if events.last() is Fired {
            assert(events[events.len() - 1] is Fired);
        }
        if some_signal_fires(events) {
            let i = choose|i: int| 0 <= i < events.len() && (#[trigger] events[i]) is Fired;
            if i < earlier.len() {
                assert(earlier[i] is Fired);
            }
        }
    }
}

/// A request that was in flight when a source fired is waited for: while
/// any admitted request is unanswered the process is not stopped, and the
/// answer to one is taken in the draining phase as in the running phase.
pub proof fn lemma_in_flight_is_answered(state: Coordinator)
    requires
        state.wf(),
        state.in_flight > 0,
    ensures
        state.phase != Phase::Stopped,
        forall|signal: Signal| (#[trigger] state.next(Event::Fired(signal))).0.phase != Phase::Stopped,
        state.next(Event::RequestAnswered).0.in_flight == state.in_flight - 1,
        state.next(Event::RequestAnswered).0.phase == Phase::Stopped ==> state.in_flight == 1
            && state.phase == Phase::Draining,
{
}

} // verus!
