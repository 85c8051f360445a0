//! Worker health as seen by the probe loop.

use vstd::prelude::*;

verus! {

/// Health observed by the worker probe loop.
#[derive(Clone, Copy, Debug, PartialEq, Eq, Structural)]
pub enum WorkerHealth {
    Unknown,
    Healthy,
    Unhealthy,
}

impl WorkerHealth {
    /// The health that a cell value stands for.
    pub open spec fn of_code(value: u8) -> WorkerHealth {
        if value == 1 {
            WorkerHealth::Healthy
        } else if value == 2 {
            WorkerHealth::Unhealthy
        } else {
            WorkerHealth::Unknown
        }
    }

    /// The cell value that stands for a health.
    pub open spec fn code(self) -> u8 {
        match self {
            WorkerHealth::Unknown => 0,
            WorkerHealth::Healthy => 1,
            WorkerHealth::Unhealthy => 2,
        }
    }

    /// The name of a health in metrics and diagnostics.
    pub open spec fn name(self) -> Seq<char> {
        match self {
            WorkerHealth::Unknown => "unknown"@,
            WorkerHealth::Healthy => "healthy"@,
            WorkerHealth::Unhealthy => "unhealthy"@,
        }
    }

    pub fn from_atomic(value: u8) -> (health: Self)
        ensures
            health == Self::of_code(value),
    {
        match value {
            1 => WorkerHealth::Healthy,
            2 => WorkerHealth::Unhealthy,
            _ => WorkerHealth::Unknown,
        }
    }

    /// The cell value that stands for the health.
    pub fn to_atomic(self) -> (value: u8)
        ensures
            value == self.code(),
    {
        match self {
            WorkerHealth::Unknown => 0,
            WorkerHealth::Healthy => 1,
            WorkerHealth::Unhealthy => 2,
        }
    }

    pub fn label(self) -> (label: &'static str)
        ensures
            label@ == self.name(),
    {
        match self {
            WorkerHealth::Unknown => "unknown",
            WorkerHealth::Healthy => "healthy",
            WorkerHealth::Unhealthy => "unhealthy",
        }
    }
}

/// One-byte health cell; capability remains immutable and load is owned by
/// request leases.
#[derive(Debug)]
pub struct AtomicHealth(u8);

impl View for AtomicHealth {
    type V = WorkerHealth;

    closed spec fn view(&self) -> WorkerHealth {
        WorkerHealth::of_code(self.0)
    }
}

impl AtomicHealth {
    pub fn unknown() -> (cell: Self)
        ensures
            cell@ is Unknown,
    {
        AtomicHealth(WorkerHealth::Unknown.to_atomic())
    }

    pub fn load(&self) -> (health: WorkerHealth)
        ensures
            health == self@,
    {
        WorkerHealth::from_atomic(self.0)
    }

    pub fn store(&mut self, state: WorkerHealth)
        ensures
            final(self)@ == state,
    {
        self.0 = state.to_atomic();
    }
}

/// What a sequence of probe outcomes says about a worker.
pub struct ProbeView {
    pub success_threshold: nat,
    pub failure_threshold: nat,
    /// The length of the run of successes that the outcomes end in, capped.
    pub successes: nat,
    /// The length of the run of failures that the outcomes end in, capped.
    pub failures: nat,
    pub state: WorkerHealth,
}

/// One more than a count, up to the largest byte.
pub open spec fn counted(count: nat) -> nat {
    if count < u8::MAX {
        count + 1
    } else {
        u8::MAX as nat
    }
}

impl ProbeView {
    /// The tracker before any probe.
    pub open spec fn initial(success_threshold: nat, failure_threshold: nat) -> ProbeView {
        ProbeView {
            success_threshold,
            failure_threshold,
            successes: 0,
            failures: 0,
            state: WorkerHealth::Unknown,
        }
    }

    /// The tracker after one more probe: a full run of equal outcomes moves the
    /// state, and a shorter one leaves it.
    pub open spec fn observed(self, success: bool) -> ProbeView {
        if success {
            let successes = counted(self.successes);
            ProbeView {
                successes,
                failures: 0,
                state: if successes >= self.success_threshold {
                    WorkerHealth::Healthy
                } else {
                    self.state
                },
                ..self
            }
        } else {
            let failures = counted(self.failures);
            ProbeView {
                successes: 0,
                failures,
                state: if failures >= self.failure_threshold {
                    WorkerHealth::Unhealthy
                } else {
                    self.state
                },
                ..self
            }
        }
    }

    /// The tracker after a sequence of probes.
    pub open spec fn after(self, outcomes: Seq<bool>) -> ProbeView
        decreases outcomes.len(),
    {
        if outcomes.len() == 0 {
            self
        } else {
            self.after(outcomes.drop_last()).observed(outcomes.last())
        }
    }
}

/// Turns probe outcomes into a health, with separate thresholds for recovery
/// and failure.
#[derive(Debug)]
pub struct ProbeTracker {
    successes: u8,
    failures: u8,
    success_threshold: u8,
    failure_threshold: u8,
    state: WorkerHealth,
}

impl View for ProbeTracker {
    type V = ProbeView;

    closed spec fn view(&self) -> ProbeView {
        ProbeView {
            success_threshold: self.success_threshold as nat,
            failure_threshold: self.failure_threshold as nat,
            successes: self.successes as nat,
            failures: self.failures as nat,
            state: self.state,
        }
    }
}

impl ProbeTracker {
    pub fn new(success_threshold: u8, failure_threshold: u8) -> (tracker: Self)
        ensures
            tracker@ == ProbeView::initial(success_threshold as nat, failure_threshold as nat),
    {
        ProbeTracker {
            successes: 0,
            failures: 0,
            success_threshold,
            failure_threshold,
            state: WorkerHealth::Unknown,
        }
    }

    pub fn observe(&mut self, success: bool) -> (health: WorkerHealth)
        ensures
            final(self)@ == old(self)@.observed(success),
            health == final(self)@.state,
    {
        if success {
            self.failures = 0;
            self.successes = self.successes.saturating_add(1);
            if self.successes >= self.success_threshold {
                self.state = WorkerHealth::Healthy;
            }
        } else {
            self.successes = 0;
            self.failures = self.failures.saturating_add(1);
            if self.failures >= self.failure_threshold {
                self.state = WorkerHealth::Unhealthy;
            }
        }
        self.state
    }
}

/// A probe succeeded: a response came, with a status of success.
pub fn probe_succeeded(status: Option<u16>) -> (outcome: bool)
    ensures
        outcome == (status is Some && 200 <= status->Some_0 < 300),
{
    match status {
        Some(code) => 200 <= code && code < 300,
        None => false,
    }
}

/// The length of the run of `outcome` that the outcomes end in.
pub open spec fn run_length(outcomes: Seq<bool>, outcome: bool) -> nat
    decreases outcomes.len(),
{
    if outcomes.len() == 0 || outcomes.last() != outcome {
        0
    } else {
        run_length(outcomes.drop_last(), outcome) + 1
    }
}

/// The larger count is capped at the largest byte.
pub open spec fn capped(count: nat) -> nat {
    if count <= u8::MAX {
        count
    } else {
        u8::MAX as nat
    }
}

/// The counters of a fresh tracker are the lengths of the runs that its
/// observations end in.
pub proof fn lemma_counters_are_runs(
    success_threshold: nat,
    failure_threshold: nat,
    outcomes: Seq<bool>,
)
    ensures
        ({
            let tracker = ProbeView::initial(success_threshold, failure_threshold).after(outcomes);
            &&& tracker.success_threshold == success_threshold
            &&& tracker.failure_threshold == failure_threshold
            &&& tracker.successes == capped(run_length(outcomes, true))
            &&& tracker.failures == capped(run_length(outcomes, false))
        }),
    decreases outcomes.len(),
{
    if outcomes.len() > 0 {
        lemma_counters_are_runs(success_threshold, failure_threshold, outcomes.drop_last());
    }
}

/// Health changes only on a full run of consecutive equal observations: a
/// probe makes a worker healthy exactly when the successes that the
/// observations now end in reach the success threshold, unhealthy exactly when
/// the failures do, and otherwise preserves the health, the unknown one
/// included.
pub proof fn law_health_needs_consecutive_observations(
    success_threshold: u8,
    failure_threshold: u8,
    outcomes: Seq<bool>,
    success: bool,
)
    ensures
        ({
            let start = ProbeView::initial(success_threshold as nat, failure_threshold as nat);
            let before = start.after(outcomes).state;
            let after = start.after(outcomes.push(success)).state;
            let run = run_length(outcomes.push(success), success);
            &&& success && run >= success_threshold ==> after is Healthy
            &&& !success && run >= failure_threshold ==> after is Unhealthy
            &&& success && run < success_threshold ==> after == before
            &&& !success && run < failure_threshold ==> after == before
        }),
{
    let start = ProbeView::initial(success_threshold as nat, failure_threshold as nat);
    assert(outcomes.push(success).drop_last() =~= outcomes);
    lemma_counters_are_runs(success_threshold as nat, failure_threshold as nat, outcomes);
}

/// Outcomes with one outcome repeated behind them.
pub open spec fn repeated(outcomes: Seq<bool>, outcome: bool, count: nat) -> Seq<bool> {
    outcomes + Seq::new(count, |i: int| outcome)
}

/// A tracker that has seen one outcome often enough in a row.
proof fn lemma_repeated(start: ProbeView, outcomes: Seq<bool>, outcome: bool, count: nat)
    requires
        start.success_threshold <= u8::MAX,
        start.failure_threshold <= u8::MAX,
        start.successes <= u8::MAX,
        start.failures <= u8::MAX,
    ensures
        ({
            let before = start.after(outcomes);
            let after = start.after(repeated(outcomes, outcome, count));
            let others = if outcome {
                before.successes
            } else {
                before.failures
            };
            let seen = if outcome {
                after.successes
            } else {
                after.failures
            };
            let threshold = if outcome {
                start.success_threshold
            } else {
                start.failure_threshold
            };
            let decided = if outcome {
                WorkerHealth::Healthy
            } else {
                WorkerHealth::Unhealthy
            };
            &&& before.success_threshold == after.success_threshold == start.success_threshold
            &&& before.failure_threshold == after.failure_threshold == start.failure_threshold
            &&& before.successes <= u8::MAX && before.failures <= u8::MAX
            &&& seen == capped(others + count)
            &&& count > 0 && seen >= threshold ==> after.state == decided
            &&& seen < threshold ==> after.state == before.state
        }),
    decreases count, outcomes.len(),
{
    if count == 0 {
        assert(repeated(outcomes, outcome, 0) =~= outcomes);
        if outcomes.len() > 0 {
            let shorter = outcomes.drop_last();
            lemma_repeated(start, shorter, outcome, 0);
            assert(repeated(shorter, outcome, 0) =~= shorter);
        }
    } else {
        let fewer = (count - 1) as nat;
        lemma_repeated(start, outcomes, outcome, fewer);
        let all = repeated(outcomes, outcome, count);
        assert(all.drop_last() =~= repeated(outcomes, outcome, fewer));
        assert(all.last() == outcome);
    }
}

/// Enough equal probes in a row decide a worker's health, whatever was seen
/// before them: as many successes as the success threshold make it healthy, and
/// as many failures as the failure threshold unhealthy.
pub proof fn law_enough_equal_probes_decide(
    success_threshold: u8,
    failure_threshold: u8,
    outcomes: Seq<bool>,
    count: nat,
)
    requires
        count > 0,
    ensures
        ({
            let start = ProbeView::initial(success_threshold as nat, failure_threshold as nat);
            &&& count >= success_threshold ==> start.after(
                repeated(outcomes, true, count),
            ).state is Healthy
            &&& count >= failure_threshold ==> start.after(
                repeated(outcomes, false, count),
            ).state is Unhealthy
        }),
{
    let start = ProbeView::initial(success_threshold as nat, failure_threshold as nat);
    lemma_repeated(start, outcomes, true, count);
    lemma_repeated(start, outcomes, false, count);
}

/// Fewer equal probes than that decide nothing: after a failure, or before any
/// probe, a run of successes below the success threshold leaves the health, and
/// so does a run of failures below the failure threshold after a success.
pub proof fn law_too_few_equal_probes_leave_the_health(
    success_threshold: u8,
    failure_threshold: u8,
    outcomes: Seq<bool>,
    success: bool,
    count: nat,
)
    requires
        outcomes.len() == 0 || outcomes.last() != success,
        success ==> count < success_threshold,
        !success ==> count < failure_threshold,
    ensures
        ({
            let start = ProbeView::initial(success_threshold as nat, failure_threshold as nat);
            start.after(repeated(outcomes, success, count)).state == start.after(outcomes).state
        }),
{
    let start = ProbeView::initial(success_threshold as nat, failure_threshold as nat);
    lemma_repeated(start, outcomes, success, count);
}

} // verus!
