//! The course of one execution, as far as it is decided here.
//!
//! Whoever runs the process reports what happened as events; the state that
//! they lead to, and how a finished execution is classified, is decided by
//! this module.

use vstd::prelude::*;

verus! {

/// Which streams of the process are captured together.
#[derive(Copy, Clone, Debug, PartialEq, Eq, Structural)]
pub enum Capture {
    /// Standard output and standard error each in a buffer of its own.
    Separated,
    /// Both in one buffer, through one pipe.
    Merged,
}

impl Capture {
    /// The way to capture, chosen by the flag that merges the two streams.
    pub fn select(stderr_to_stdout: bool) -> (r: Capture)
        ensures
            r == if stderr_to_stdout {
                Capture::Merged
            } else {
                Capture::Separated
            },
    {
        if stderr_to_stdout {
            Capture::Merged
        } else {
            Capture::Separated
        }
    }

    /// How many tasks move data at once: one that feeds the input, and one
    /// for each buffer that is filled.
    pub fn tasks(self) -> (n: u8)
        ensures
            n == match self {
                Capture::Separated => 3u8,
                Capture::Merged => 2u8,
            },
    {
        match self {
            Capture::Separated => 3,
            Capture::Merged => 2,
        }
    }
}

/// The state of one execution.
#[derive(Clone, Debug, PartialEq, Eq)]
pub enum State {
    /// Nothing was started yet.
    Created,
    /// The process runs.
    Spawned,
    /// The process ended by itself, with this exit code.
    Completed(i32),
    /// The process was ended from outside: by a signal, or because its time ran out.
    Killed,
    /// The process could not be started.
    SpawnFailed(String),
}

/// What is reported of an execution.
#[derive(Clone, Debug, PartialEq, Eq)]
pub enum Event {
    /// The process was started.
    Started,
    /// The process could not be started.
    StartFailed(String),
    /// The process ended: with an exit code, or without one when a signal ended it.
    Exited(Option<i32>),
    /// The time given to the process ran out, and it was ended.
    TimedOut,
}

/// How a finished execution is classified.
#[derive(Copy, Clone, Debug, PartialEq, Eq, Structural)]
pub enum ExitClass {
    /// The process ended with exit code zero.
    Success,
    /// The process ended with this exit code, which is not zero.
    Failed(i32),
    /// The process was ended from outside.
    Interrupted,
}

/// A `State` with its text as a character sequence.
pub enum StateView {
    Created,
    Spawned,
    Completed(i32),
    Killed,
    SpawnFailed(Seq<char>),
}

/// An `Event` with its text as a character sequence.
pub enum EventView {
    Started,
    StartFailed(Seq<char>),
    Exited(Option<i32>),
    TimedOut,
}

impl View for State {
    type V = StateView;

    open spec fn view(&self) -> StateView {
        match self {
            State::Created => StateView::Created,
            State::Spawned => StateView::Spawned,
            State::Completed(c) => StateView::Completed(*c),
            State::Killed => StateView::Killed,
            State::SpawnFailed(e) => StateView::SpawnFailed(e@),
        }
    }
}

impl View for Event {
    type V = EventView;

    open spec fn view(&self) -> EventView {
        match self {
            Event::Started => EventView::Started,
            Event::StartFailed(e) => EventView::StartFailed(e@),
            Event::Exited(c) => EventView::Exited(*c),
            Event::TimedOut => EventView::TimedOut,
        }
    }
}

impl StateView {
    /// Whether the execution is over.
    pub open spec fn terminal(self) -> bool {
        self is Completed || self is Killed || self is SpawnFailed
    }

    /// The state after `event`. An event that cannot follow the state leaves
    /// it as it is; a state in which the execution is over is never left.
    pub open spec fn step(self, event: EventView) -> StateView {
        match (self, event) {
            (StateView::Created, EventView::Started) => StateView::Spawned,
            (StateView::Created, EventView::StartFailed(e)) => StateView::SpawnFailed(e),
            (StateView::Spawned, EventView::Exited(Some(code))) => StateView::Completed(code),
            (StateView::Spawned, EventView::Exited(None)) => StateView::Killed,
            (StateView::Spawned, EventView::TimedOut) => StateView::Killed,
            _ => self,
        }
    }

    /// The state after all of `events`, in order.
    pub open spec fn run(self, events: Seq<EventView>) -> StateView
        decreases events.len(),
    {
        if events.len() == 0 {
            self
        } else {
            self.step(events[0]).run(events.drop_first())
        }
    }

    /// The class of a finished execution; none while it is not over, and none
    /// for a process that never started.
    pub open spec fn class(self) -> Option<ExitClass> {
        match self {
            StateView::Completed(code) => if code == 0 {
                Some(ExitClass::Success)
            } else {
                Some(ExitClass::Failed(code))
            },
            StateView::Killed => Some(ExitClass::Interrupted),
            _ => None,
        }
    }
}

impl State {
    /// Whether the execution is over.
    pub fn is_terminal(&self) -> (b: bool)
        ensures
            b == self@.terminal(),
    {
        match self {
            State::Created => false,
            State::Spawned => false,
            _ => true,
        }
    }

    /// The state after `event`.
    pub fn step(self, event: Event) -> (r: State)
        ensures
            r@ == self@.step(event@),
    {
        match self {
            State::Created => match event {
                Event::Started => State::Spawned,
                Event::StartFailed(e) => State::SpawnFailed(e),
                _ => State::Created,
            },
            State::Spawned => match event {
                Event::Exited(Some(code)) => State::Completed(code),
                Event::Exited(None) => State::Killed,
                Event::TimedOut => State::Killed,
                _ => State::Spawned,
            },
            other => other,
        }
    }

    /// The class of a finished execution.
    pub fn classify(&self) -> (r: Option<ExitClass>)
        ensures
            r == self@.class(),
    {
        match self {
            State::Completed(code) => {
                if *code == 0 {
                    Some(ExitClass::Success)
                } else {
                    Some(ExitClass::Failed(*code))
                }
            },
            State::Killed => Some(ExitClass::Interrupted),
            _ => None,
        }
    }
}

/// What one execution gave: what was captured, how the execution ended and
/// where the command ran. Whether that is what the fixture expects is not
/// decided here.
#[derive(Clone, Debug, PartialEq, Eq)]
pub struct Outcome {
    /// What the command wrote to standard output, or to both streams where
    /// they are captured as one.
    pub stdout: Vec<u8>,
    /// What the command wrote to standard error; absent where the streams
    /// are captured as one.
    pub stderr: Option<Vec<u8>>,
    /// How the execution ended.
    pub class: ExitClass,
    /// The directory in which the command ran.
    pub cwd: Option<String>,
}

/// An `Outcome` as mathematical values.
pub struct OutcomeView {
    pub stdout: Seq<u8>,
    pub stderr: Option<Seq<u8>>,
    pub class: ExitClass,
    pub cwd: Option<Seq<char>>,
}

impl View for Outcome {
    type V = OutcomeView;

    open spec fn view(&self) -> OutcomeView {
        OutcomeView {
            stdout: self.stdout@,
            stderr: match self.stderr {
                Some(e) => Some(e@),
                None => None,
            },
            class: self.class,
            cwd: crate::fs::opt_text(self.cwd),
        }
    }
}

/// The outcome of an execution in `state`, if it is over and the process had
/// started: the buffers as they were filled, the second one only where the
/// streams are captured apart.
pub open spec fn outcome_of(
    capture: Capture,
    state: StateView,
    stdout: Seq<u8>,
    stderr: Seq<u8>,
    cwd: Option<Seq<char>>,
) -> Option<OutcomeView> {
    match state.class() {
        Some(class) => Some(
            OutcomeView {
                stdout,
                stderr: match capture {
                    Capture::Separated => Some(stderr),
                    Capture::Merged => None,
                },
                class,
                cwd,
            },
        ),
        None => None,
    }
}

/// The view of an optional `Outcome`.
pub open spec fn outcome_view(o: Option<Outcome>) -> Option<OutcomeView> {
    match o {
        Some(o) => Some(o@),
        None => None,
    }
}

impl Outcome {
    /// The outcome of an execution that came to `state`, from what was
    /// captured. There is none while the execution is not over, and none for
    /// a process that never started.
    pub fn new(
        capture: Capture,
        state: &State,
        stdout: Vec<u8>,
        stderr: Vec<u8>,
        cwd: Option<String>,
    ) -> (r: Option<Outcome>)
        ensures
            outcome_view(r) == outcome_of(
                capture,
                state@,
                stdout@,
                stderr@,
                crate::fs::opt_text(cwd),
            ),
    {
        match state.classify() {
            Some(class) => {
                let stderr = match capture {
                    Capture::Separated => Some(stderr),
                    Capture::Merged => None,
                };
                Some(Outcome { stdout, stderr, class, cwd })
            },
            None => None,
        }
    }
}

/// Once an execution is over, no event changes its state.
pub proof fn terminal_state_stays(state: StateView, events: Seq<EventView>)
    requires
        state.terminal(),
    ensures
        state.run(events) == state,
    decreases events.len(),
{
    if events.len() > 0 {
        terminal_state_stays(state, events.drop_first());
    }
}

/// A process whose time ran out is classified as interrupted, whatever is
/// reported of it afterwards: no exit code that arrives later makes it a
/// success or a failure.
pub proof fn timeout_interrupts(later: Seq<EventView>)
    ensures
        StateView::Spawned.step(EventView::TimedOut).run(later).class() == Some(
            ExitClass::Interrupted,
        ),
{
    terminal_state_stays(StateView::Killed, later);
}

/// Only a process that ended by itself is classified as a success or a
/// failure, and as a success only with exit code zero.
pub proof fn class_follows_exit(state: StateView)
    ensures
        state.class() == Some(ExitClass::Success) <==> state == StateView::Completed(0),
        forall|code: i32|
            state.class() == Some(ExitClass::Failed(code)) <==> code != 0 && state
                == StateView::Completed(code),
        state.class() is Some <==> state is Completed || state is Killed,
{
}

} // verus!
