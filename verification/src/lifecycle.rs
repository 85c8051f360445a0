//! The life of the process.

use vstd::prelude::*;

verus! {

/// A process state.
#[derive(Clone, Copy, Debug, PartialEq, Eq, Structural)]
pub enum State {
    Starting,
    Serving,
    Draining,
    Stopped,
    Failed,
}

/// A step that the process asks to take.
#[derive(Clone, Copy, Debug, PartialEq, Eq, Structural)]
pub enum Step {
    Serve,
    Drain,
    Stop,
    Fail,
}

/// A step that is not legal in the present state.
#[derive(Clone, Copy, Debug, PartialEq, Eq, Structural)]
pub struct LifecycleError;

impl State {
    /// The state that a step leads to, if the step is legal.
    pub open spec fn after(self, step: Step) -> Option<State> {
        match (self, step) {
            (State::Starting, Step::Serve) => Some(State::Serving),
            (State::Serving, Step::Drain) => Some(State::Draining),
            (State::Draining, Step::Drain) => Some(State::Draining),
            (State::Draining, Step::Stop) => Some(State::Stopped),
            (State::Starting, Step::Fail) => Some(State::Failed),
            (State::Serving, Step::Fail) => Some(State::Failed),
            (State::Draining, Step::Fail) => Some(State::Failed),
            _ => None,
        }
    }

    /// The process answers requests, or finishes those that it took.
    pub open spec fn live(self) -> bool {
        self is Serving || self is Draining
    }

    /// The process has ended.
    pub open spec fn terminal(self) -> bool {
        self is Stopped || self is Failed
    }

    /// The name of the state in metrics and diagnostics.
    pub open spec fn name(self) -> Seq<char> {
        match self {
            State::Starting => "starting"@,
            State::Serving => "serving"@,
            State::Draining => "draining"@,
            State::Stopped => "stopped"@,
            State::Failed => "failed"@,
        }
    }

    pub fn label(self) -> (label: &'static str)
        ensures
            label@ == self.name(),
    {
        match self {
            State::Starting => "starting",
            State::Serving => "serving",
            State::Draining => "draining",
            State::Stopped => "stopped",
            State::Failed => "failed",
        }
    }
}

/// What a step does: a legal one is taken, and another is refused and changes nothing.
pub open spec fn stepped(
    before: State,
    step: Step,
    outcome: Result<(), LifecycleError>,
    after: State,
) -> bool {
    match before.after(step) {
        Some(next) => outcome is Ok && after == next,
        None => outcome is Err && after == before,
    }
}

/// Authoritative legal process-state transitions.
#[derive(Debug)]
pub struct Lifecycle {
    state: State,
}

impl View for Lifecycle {
    type V = State;

    closed spec fn view(&self) -> State {
        self.state
    }
}

impl Lifecycle {
    pub fn starting() -> (lifecycle: Self)
        ensures
            lifecycle@ is Starting,
    {
        Lifecycle { state: State::Starting }
    }

    pub fn enter_serving(&mut self) -> (outcome: Result<(), LifecycleError>)
        ensures
            stepped(old(self)@, Step::Serve, outcome, final(self)@),
    {
        self.transition(State::Starting, State::Serving)
    }

    pub fn enter_draining(&mut self) -> (outcome: Result<(), LifecycleError>)
        ensures
            stepped(old(self)@, Step::Drain, outcome, final(self)@),
    {
        match self.state {
            State::Serving => {
                self.state = State::Draining;
                Ok(())
            },
            State::Draining => Ok(()),
            State::Starting => Err(LifecycleError),
            State::Stopped => Err(LifecycleError),
            State::Failed => Err(LifecycleError),
        }
    }

    pub fn enter_stopped(&mut self) -> (outcome: Result<(), LifecycleError>)
        ensures
            stepped(old(self)@, Step::Stop, outcome, final(self)@),
    {
        self.transition(State::Draining, State::Stopped)
    }

    pub fn enter_failed(&mut self) -> (outcome: Result<(), LifecycleError>)
        ensures
            stepped(old(self)@, Step::Fail, outcome, final(self)@),
    {
        match self.state {
            State::Stopped => Err(LifecycleError),
            State::Failed => Err(LifecycleError),
            State::Starting | State::Serving | State::Draining => {
                self.state = State::Failed;
                Ok(())
            },
        }
    }

    pub fn is_live(&self) -> (outcome: bool)
        ensures
            outcome == self@.live(),
    {
        matches!(self.state, State::Serving | State::Draining)
    }

    pub fn is_serving(&self) -> (outcome: bool)
        ensures
            outcome == (self@ is Serving),
    {
        matches!(self.state, State::Serving)
    }

    pub fn snapshot(&self) -> (state: State)
        ensures
            state == self@,
    {
        self.state
    }

    /// Moves from one state to another; refuses in any third state.
    pub fn transition(&mut self, from: State, to: State) -> (outcome: Result<(), LifecycleError>)
        ensures
            outcome is Ok <==> old(self)@ == from,
            final(self)@ == (if outcome is Ok {
                to
            } else {
                old(self)@
            }),
    {
        if self.state != from {
            return Err(LifecycleError);
        }
        self.state = to;
        Ok(())
    }
}

/// The state after a sequence of steps, of which illegal ones change nothing.
pub open spec fn lived(start: State, steps: Seq<Step>) -> State
    decreases steps.len(),
{
    if steps.len() == 0 {
        start
    } else {
        let before = lived(start, steps.drop_last());
        match before.after(steps.last()) {
            Some(next) => next,
            None => before,
        }
    }
}

/// An ended process stays ended, in the state that it ended in.
pub proof fn law_terminal_states_are_final(start: State, steps: Seq<Step>)
    requires
        start.terminal(),
    ensures
        lived(start, steps) == start,
    decreases steps.len(),
{
    if steps.len() > 0 {
        law_terminal_states_are_final(start, steps.drop_last());
    }
}

/// A process that drains never serves again.
pub proof fn law_draining_never_serves_again(start: State, steps: Seq<Step>)
    requires
        start is Draining,
    ensures
        !(lived(start, steps) is Serving),
        !(lived(start, steps) is Starting),
    decreases steps.len(),
{
    if steps.len() > 0 {
        law_draining_never_serves_again(start, steps.drop_last());
    }
}

/// A process stops cleanly only by way of serving and draining: without a step
/// to serve and a later one to drain it never stops.
pub proof fn law_clean_stop_needs_serving_and_draining(steps: Seq<Step>)
    requires
        lived(State::Starting, steps) is Stopped,
    ensures
        exists|i: int, j: int|
            0 <= i < j < steps.len() && #[trigger] steps[i] is Serve && #[trigger] steps[j] is Drain,
{
    lemma_history(steps);
}

/// What the present state says about the past.
proof fn lemma_history(steps: Seq<Step>)
    ensures
        lived(State::Starting, steps) is Serving ==> steps.contains(Step::Serve),
        (lived(State::Starting, steps) is Draining || lived(State::Starting, steps) is Stopped)
            ==> exists|i: int, j: int|
            0 <= i < j < steps.len() && #[trigger] steps[i] is Serve && #[trigger] steps[j] is Drain,
    decreases steps.len(),
{
    if steps.len() > 0 {
        let past = steps.drop_last();
        lemma_history(past);
        let before = lived(State::Starting, past);
        let last = steps.len() - 1;
        assert(steps[last] == steps.last());
        if before is Serving {
            let i = past.index_of(Step::Serve);
            assert(past[i] == Step::Serve);
            assert(steps[i] is Serve);
            assert(steps.contains(Step::Serve));
        }
        if before is Starting && steps.last() is Serve {
            assert(steps.contains(Step::Serve));
        }
        if before is Draining || before is Stopped {
            let (i, j) = choose|i: int, j: int|
                0 <= i < j < past.len() && #[trigger] past[i] is Serve
                    && #[trigger] past[j] is Drain;
            assert(steps[i] is Serve && steps[j] is Drain);
        }
    }
}

} // verus!
