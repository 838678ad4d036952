//! The shutdown sequence: `Running`, then `Draining`, then `Flushing`, then
//! `Terminated`.
//!
//! The coordinator decides; its caller acts. The caller reports what
//! happens as events and carries out the action that each step returns.
//! While `Running`, arriving commands are admitted and counted until they
//! complete. The termination signal starts `Draining`: nothing more is
//! admitted, and the ledger is flushed once nothing is in flight. The
//! process exits when the flush has ended, well or not.

use vstd::prelude::*;

verus! {

/// Where the process is in its life.
#[derive(Clone, Copy, Debug, PartialEq, Eq, Structural)]
pub enum Phase {
    /// Commands are served.
    Running,
    /// No command is admitted any more; those in flight may finish.
    Draining,
    /// The ledger is being saved.
    Flushing,
    /// The process may exit.
    Terminated,
}

/// What the caller reports.
#[derive(Clone, Copy, Debug, PartialEq, Eq, Structural)]
pub enum Event {
    /// A command has arrived and asks to be served.
    Arrival,
    /// An admitted command has finished its ledger operation.
    Completion,
    /// The process was told to terminate.
    Signal,
    /// Intake has been stopped; the caller asks whether it may save now.
    DrainCheck,
    /// The save has ended well.
    Saved,
    /// The save has failed.
    SaveFailed,
}

/// What the caller is to do.
#[derive(Clone, Copy, Debug, PartialEq, Eq, Structural)]
pub enum Action {
    /// Serve the command, then report its completion.
    Admit,
    /// Do not serve the command.
    Refuse,
    /// Nothing to do.
    Proceed,
    /// Stop the intake of commands, then ask whether to save.
    StopIntake,
    /// Commands are still in flight: ask again when one has completed.
    Wait,
    /// Save the ledger, then report how the save ended.
    Flush,
    /// Exit.
    Exit,
    /// Report that the save has failed, then exit.
    ReportFailureAndExit,
}

/// The model of a coordinator.
pub struct State {
    pub phase: Phase,
    pub in_flight: nat,
}

/// The most commands that can be in flight at once.
pub open spec fn capacity() -> nat {
    u64::MAX as nat
}

/// How far a phase is along the sequence.
pub open spec fn rank(phase: Phase) -> nat {
    match phase {
        Phase::Running => 0,
        Phase::Draining => 1,
        Phase::Flushing => 2,
        Phase::Terminated => 3,
    }
}

/// A state that the coordinator can be in: once the flush has begun,
/// nothing is in flight.
pub open spec fn reachable(s: State) -> bool {
    &&& s.in_flight <= capacity()
    &&& (s.phase is Flushing || s.phase is Terminated) ==> s.in_flight == 0
}

/// The state after an event, and the action that answers it.
pub open spec fn next(s: State, event: Event) -> (State, Action) {
    match event {
        Event::Arrival => if s.phase is Running && s.in_flight < capacity() {
            (State { phase: s.phase, in_flight: s.in_flight + 1 }, Action::Admit)
        } else {
            (s, Action::Refuse)
        },
        Event::Completion => if s.in_flight > 0 {
            (State { phase: s.phase, in_flight: (s.in_flight - 1) as nat }, Action::Proceed)
        } else {
            (s, Action::Proceed)
        },
        Event::Signal => if s.phase is Running {
            (State { phase: Phase::Draining, in_flight: s.in_flight }, Action::StopIntake)
        } else {
            (s, Action::Proceed)
        },
        Event::DrainCheck => if s.phase is Draining {
            if s.in_flight == 0 {
                (State { phase: Phase::Flushing, in_flight: 0 }, Action::Flush)
            } else {
                (s, Action::Wait)
            }
        } else {
            (s, Action::Proceed)
        },
        Event::Saved => if s.phase is Flushing {
            (State { phase: Phase::Terminated, in_flight: s.in_flight }, Action::Exit)
        } else {
            (s, Action::Proceed)
        },
        Event::SaveFailed => if s.phase is Flushing {
            (
                State { phase: Phase::Terminated, in_flight: s.in_flight },
                Action::ReportFailureAndExit,
            )
        } else {
            (s, Action::Proceed)
        },
    }
}

/// The state after a run of events.
pub open spec fn after(s: State, events: Seq<Event>) -> State
    decreases events.len(),
{
    if events.len() == 0 {
        s
    } else {
        next(after(s, events.drop_last()), events.last()).0
    }
}

/// The coordinator of the shutdown sequence.
pub struct Coordinator {
    phase: Phase,
    in_flight: u64,
}

impl View for Coordinator {
    type V = State;

    closed spec fn view(&self) -> State {
        State { phase: self.phase, in_flight: self.in_flight as nat }
    }
}

impl Coordinator {
    /// The representation is sound: the state is one the coordinator can
    /// be in.
    pub closed spec fn wf(&self) -> bool {
        reachable(self@)
    }

    /// A coordinator that is `Running` with nothing in flight.
    pub fn new() -> (coordinator: Coordinator)
        ensures
            coordinator.wf(),
            coordinator@ == (State { phase: Phase::Running, in_flight: 0 }),
    {
        Coordinator { phase: Phase::Running, in_flight: 0 }
    }

    /// The phase the process is in.
    pub fn phase(&self) -> (phase: Phase)
        ensures
            phase == self@.phase,
    {
        self.phase
    }

    /// How many admitted commands have not completed.
    pub fn in_flight(&self) -> (count: u64)
        ensures
            count == self@.in_flight,
    {
        self.in_flight
    }

    /// Takes an event and says what to do.
    pub fn step(&mut self, event: Event) -> (action: Action)
        requires
            old(self).wf(),
        ensures
            final(self).wf(),
            (final(self)@, action) == next(old(self)@, event),
    {
        match event {
            Event::Arrival => {
                if self.phase == Phase::Running && self.in_flight < u64::MAX {
                    self.in_flight = self.in_flight + 1;
                    Action::Admit
                } else {
                    Action::Refuse
                }
            },
            Event::Completion => {
                if self.in_flight > 0 {
                    self.in_flight = self.in_flight - 1;
                }
                Action::Proceed
            },
            Event::Signal => {
                if self.phase == Phase::Running {
                    self.phase = Phase::Draining;
                    Action::StopIntake
                } else {
                    Action::Proceed
                }
            },
            Event::DrainCheck => {
                if self.phase == Phase::Draining {
                    if self.in_flight == 0 {
                        self.phase = Phase::Flushing;
                        Action::Flush
                    } else {
                        Action::Wait
                    }
                } else {
                    Action::Proceed
                }
            },
            Event::Saved => {
                if self.phase == Phase::Flushing {
                    self.phase = Phase::Terminated;
                    Action::Exit
                } else {
                    Action::Proceed
                }
            },
            Event::SaveFailed => {
                if self.phase == Phase::Flushing {
                    self.phase = Phase::Terminated;
                    Action::ReportFailureAndExit
                } else {
                    Action::Proceed
                }
            },
        }
    }
}

/// Every step leads from a state the coordinator can be in to another such
/// state.
pub proof fn lemma_step_stays_reachable(s: State, event: Event)
    requires
        reachable(s),
    ensures
        reachable(next(s, event).0),
{
}

/// The phase never goes back, and moves on by one phase at most.
pub proof fn lemma_phase_moves_forward(s: State, event: Event)
    ensures
        rank(s.phase) <= rank(next(s, event).0.phase) <= rank(s.phase) + 1,
{
}

/// Once the signal has come, no command is admitted and the number in
/// flight does not grow.
pub proof fn lemma_no_admission_after_signal(s: State, event: Event)
    requires
        !(s.phase is Running),
    ensures
        next(s, event).1 != Action::Admit,
        next(s, event).0.in_flight <= s.in_flight,
{
}

/// The flush begins only from `Draining` with nothing in flight, and nothing
/// is in flight from then on.
pub proof fn lemma_flush_only_when_drained(s: State, event: Event)
    requires
        reachable(s),
        next(s, event).1 == Action::Flush,
    ensures
        s.phase is Draining,
        s.in_flight == 0,
        next(s, event).0.phase is Flushing,
        next(s, event).0.in_flight == 0,
{
}

/// The process is told to exit only when it is told how the flush ended.
pub proof fn lemma_exit_only_after_flush(s: State, event: Event)
    requires
        next(s, event).1 == Action::Exit || next(s, event).1 == Action::ReportFailureAndExit,
    ensures
        s.phase is Flushing,
        event == Event::Saved || event == Event::SaveFailed,
        next(s, event).0.phase is Terminated,
{
}

/// Whatever is reported, in whatever order, the coordinator stays in a
/// state it can be in, and never returns to an earlier phase.
pub proof fn lemma_runs_move_forward(s: State, events: Seq<Event>)
    requires
        reachable(s),
    ensures
        reachable(after(s, events)),
        rank(s.phase) <= rank(after(s, events).phase),
    decreases events.len(),
{
    if events.len() > 0 {
        lemma_runs_move_forward(s, events.drop_last());
    }
}

/// With nothing in flight, the signal, the drain check and the end of the
/// save lead from `Running` to `Terminated`, through the flush.
pub proof fn lemma_graceful_shutdown(s: State, ended: Event)
    requires
        s.phase is Running,
        s.in_flight == 0,
        ended == Event::Saved || ended == Event::SaveFailed,
    ensures
        next(s, Event::Signal).1 == Action::StopIntake,
        next(next(s, Event::Signal).0, Event::DrainCheck).1 == Action::Flush,
        next(next(next(s, Event::Signal).0, Event::DrainCheck).0, ended).0.phase is Terminated,
{
}

} // verus!
