//! The metrics text: complete, exact and in a fixed order.

use vstd::prelude::*;

use crate::lifecycle::State;
use crate::operations::render::{append_decimal, bit, decimal};
use crate::worker_pool::health::WorkerHealth;
use crate::worker_pool::profile::CapacityClass;
use crate::worker_pool::snapshot::{
    AdmissionSnapshot, OperationsSnapshot, SessionCapacitySnapshot, WorkerSnapshot,
};

verus! {

/// The two lines that announce a gauge.
pub open spec fn heading(name: Seq<char>, help: Seq<char>) -> Seq<char> {
    "# HELP "@ + name + " "@ + help + "\n# TYPE "@ + name + " gauge\n"@
}

/// One sample of a gauge without labels.
pub open spec fn sample(name: Seq<char>, value: nat) -> Seq<char> {
    name + " "@ + decimal(value) + "\n"@
}

/// One sample of a gauge with one label.
pub open spec fn labelled(
    name: Seq<char>,
    label: Seq<char>,
    setting: Seq<char>,
    value: nat,
) -> Seq<char> {
    name + "{"@ + label + "=\""@ + setting + "\"} "@ + decimal(value) + "\n"@
}

/// One sample for a lifecycle state: one for the present state, zero for another.
pub open spec fn state_sample(state: State, present: State) -> Seq<char> {
    labelled("sglang_omni_router_lifecycle"@, "state"@, state.name(), bit(state == present))
}

pub open spec fn lifecycle_text(present: State) -> Seq<char> {
    heading("sglang_omni_router_lifecycle"@, "Router lifecycle state."@) + state_sample(
        State::Starting,
        present,
    ) + state_sample(State::Serving, present) + state_sample(State::Draining, present)
        + state_sample(State::Stopped, present) + state_sample(State::Failed, present)
}

pub open spec fn ready_text(ready: bool) -> Seq<char> {
    heading("sglang_omni_router_ready"@, "Router readiness state."@) + sample(
        "sglang_omni_router_ready"@,
        bit(ready),
    )
}

/// The number of the first `count` workers that have the health.
pub open spec fn workers_of_health(
    workers: Seq<WorkerSnapshot>,
    health: WorkerHealth,
    count: nat,
) -> nat
    decreases count,
{
    if count == 0 {
        0
    } else {
        workers_of_health(workers, health, (count - 1) as nat) + bit(
            workers[count - 1].health == health,
        )
    }
}

/// The number of the first `count` workers that take requests.
pub open spec fn routable_workers(workers: Seq<WorkerSnapshot>, count: nat) -> nat
    decreases count,
{
    if count == 0 {
        0
    } else {
        routable_workers(workers, (count - 1) as nat) + bit(workers[count - 1].routable)
    }
}

pub open spec fn health_sample(workers: Seq<WorkerSnapshot>, health: WorkerHealth) -> Seq<char> {
    labelled(
        "sglang_omni_router_workers_by_health"@,
        "health"@,
        health.name(),
        workers_of_health(workers, health, workers.len()),
    )
}

pub open spec fn health_text(workers: Seq<WorkerSnapshot>) -> Seq<char> {
    heading("sglang_omni_router_workers_by_health"@, "Workers by health state."@) + health_sample(
        workers,
        WorkerHealth::Unknown,
    ) + health_sample(workers, WorkerHealth::Healthy) + health_sample(
        workers,
        WorkerHealth::Unhealthy,
    )
}

pub open spec fn routable_text(workers: Seq<WorkerSnapshot>) -> Seq<char> {
    heading("sglang_omni_router_workers_routable"@, "Routable workers."@) + sample(
        "sglang_omni_router_workers_routable"@,
        routable_workers(workers, workers.len()),
    )
}

/// The limits of the first `count` entries.
pub open spec fn limit_samples(entries: Seq<AdmissionSnapshot>, count: nat) -> Seq<char>
    decreases count,
{
    if count == 0 {
        Seq::empty()
    } else {
        limit_samples(entries, (count - 1) as nat) + labelled(
            "sglang_omni_router_admission_limit"@,
            "class"@,
            entries[count - 1].class.name(),
            entries[count - 1].limit as nat,
        )
    }
}

/// What is given out of the first `count` entries.
pub open spec fn usage_samples(entries: Seq<AdmissionSnapshot>, count: nat) -> Seq<char>
    decreases count,
{
    if count == 0 {
        Seq::empty()
    } else {
        usage_samples(entries, (count - 1) as nat) + labelled(
            "sglang_omni_router_admission_in_flight"@,
            "class"@,
            entries[count - 1].class.name(),
            entries[count - 1].in_flight as nat,
        )
    }
}

pub open spec fn admission_text(entries: Seq<AdmissionSnapshot>) -> Seq<char> {
    heading(
        "sglang_omni_router_admission_limit"@,
        "Configured admission limit in class-specific units."@,
    ) + limit_samples(entries, entries.len()) + heading(
        "sglang_omni_router_admission_in_flight"@,
        "Current admission usage in class-specific units."@,
    ) + usage_samples(entries, entries.len())
}

/// The load of the first `count` workers.
pub open spec fn total_load(workers: Seq<WorkerSnapshot>, count: nat) -> nat
    decreases count,
{
    if count == 0 {
        0
    } else {
        total_load(workers, (count - 1) as nat) + workers[count - 1].active_requests as nat
    }
}

/// The limit and the use of the class over the first `count` entries.
pub open spec fn session_total(
    entries: Seq<SessionCapacitySnapshot>,
    class: CapacityClass,
    count: nat,
) -> (nat, nat)
    decreases count,
{
    if count == 0 {
        (0, 0)
    } else {
        let before = session_total(entries, class, (count - 1) as nat);
        let entry = entries[count - 1];
        if entry.class == class {
            (before.0 + entry.limit as nat, before.1 + entry.in_flight as nat)
        } else {
            before
        }
    }
}

/// The limit and the use of the class over the first `count` workers.
pub open spec fn class_total(
    workers: Seq<WorkerSnapshot>,
    class: CapacityClass,
    count: nat,
) -> (nat, nat)
    decreases count,
{
    if count == 0 {
        (0, 0)
    } else {
        let before = class_total(workers, class, (count - 1) as nat);
        let entries = workers[count - 1].session_capacity@;
        let here = session_total(entries, class, entries.len());
        (before.0 + here.0, before.1 + here.1)
    }
}

/// The sums that the metrics show fit a machine word.
pub open spec fn sums_fit(workers: Seq<WorkerSnapshot>) -> bool {
    let speech = class_total(workers, CapacityClass::SpeechWebsocket, workers.len());
    let realtime = class_total(workers, CapacityClass::RealtimeWebsocket, workers.len());
    &&& total_load(workers, workers.len()) <= usize::MAX
    &&& speech.0 <= usize::MAX
    &&& speech.1 <= usize::MAX
    &&& realtime.0 <= usize::MAX
    &&& realtime.1 <= usize::MAX
}

pub open spec fn worker_text(workers: Seq<WorkerSnapshot>) -> Seq<char> {
    let speech = class_total(workers, CapacityClass::SpeechWebsocket, workers.len());
    let realtime = class_total(workers, CapacityClass::RealtimeWebsocket, workers.len());
    let limit = "sglang_omni_router_worker_capacity_limit"@;
    let used = "sglang_omni_router_worker_capacity_in_flight"@;
    heading(
        "sglang_omni_router_worker_active_requests"@,
        "Aggregate active worker load; speech batches are item-weighted."@,
    ) + sample(
        "sglang_omni_router_worker_active_requests"@,
        total_load(workers, workers.len()),
    ) + heading(limit, "Aggregate configured worker capacity."@) + labelled(
        limit,
        "class"@,
        "speech_websocket"@,
        speech.0,
    ) + labelled(limit, "class"@, "realtime_websocket"@, realtime.0) + heading(
        used,
        "Aggregate current worker capacity use."@,
    ) + labelled(used, "class"@, "speech_websocket"@, speech.1) + labelled(
        used,
        "class"@,
        "realtime_websocket"@,
        realtime.1,
    )
}

/// The whole metrics text.
pub open spec fn metrics_text(
    lifecycle: State,
    ready: bool,
    admission: Seq<AdmissionSnapshot>,
    workers: Seq<WorkerSnapshot>,
) -> Seq<char> {
    lifecycle_text(lifecycle) + ready_text(ready) + health_text(workers) + routable_text(workers)
        + admission_text(admission) + worker_text(workers)
}

/// Appends the two lines that announce a gauge.
fn append_heading(output: &mut String, name: &str, help: &str)
    ensures
        final(output)@ == old(output)@ + heading(name@, help@),
{
    let ghost before = output@;
    output.append("# HELP ");
    output.append(name);
    output.append(" ");
    output.append(help);
    output.append("\n# TYPE ");
    output.append(name);
    output.append(" gauge\n");
    assert(output@ =~= before + heading(name@, help@));
}

/// Appends a sample without labels.
fn append_sample(output: &mut String, name: &str, value: usize)
    ensures
        final(output)@ == old(output)@ + sample(name@, value as nat),
{
    let ghost before = output@;
    output.append(name);
    output.append(" ");
    append_decimal(output, value);
    output.append("\n");
    assert(output@ =~= before + sample(name@, value as nat));
}

/// Appends a sample with one label.
fn append_labelled(output: &mut String, name: &str, label: &str, setting: &str, value: usize)
    ensures
        final(output)@ == old(output)@ + labelled(name@, label@, setting@, value as nat),
{
    let ghost before = output@;
    output.append(name);
    output.append("{");
    output.append(label);
    output.append("=\"");
    output.append(setting);
    output.append("\"} ");
    append_decimal(output, value);
    output.append("\n");
    assert(output@ =~= before + labelled(name@, label@, setting@, value as nat));
}

/// A flag as a number.
fn as_bit(value: bool) -> (number: usize)
    ensures
        number == bit(value),
{
    if value {
        1
    } else {
        0
    }
}

/// Appends the sample of one lifecycle state.
fn append_state(output: &mut String, state: State, present: State)
    ensures
        final(output)@ == old(output)@ + state_sample(state, present),
{
    append_labelled(
        output,
        "sglang_omni_router_lifecycle",
        "state",
        state.label(),
        as_bit(state == present),
    );
}

/// Appends the sample of one health.
fn append_health(output: &mut String, workers: &[WorkerSnapshot], health: WorkerHealth)
    ensures
        final(output)@ == old(output)@ + health_sample(workers@, health),
{
    let mut count: usize = 0;
    let mut i: usize = 0;
    while i < workers.len()
        invariant
            count <= i <= workers@.len(),
            count == workers_of_health(workers@, health, i as nat),
        decreases workers@.len() - i,
    {
        if workers[i].health == health {
            count += 1;
        }
        i += 1;
    }
    append_labelled(
        output,
        "sglang_omni_router_workers_by_health",
        "health",
        health.label(),
        count,
    );
}

/// The number of workers that take requests.
fn count_routable(workers: &[WorkerSnapshot]) -> (count: usize)
    ensures
        count == routable_workers(workers@, workers@.len()),
{
    let mut count: usize = 0;
    let mut i: usize = 0;
    while i < workers.len()
        invariant
            count <= i <= workers@.len(),
            count == routable_workers(workers@, i as nat),
        decreases workers@.len() - i,
    {
        if workers[i].routable {
            count += 1;
        }
        i += 1;
    }
    count
}

/// The metrics text of a snapshot.
pub fn render_metrics(lifecycle: State, ready: bool, snapshot: &OperationsSnapshot) -> (text: String)
    requires
        sums_fit(snapshot.workers@),
    ensures
        text@ == metrics_text(lifecycle, ready, snapshot.admission@, snapshot.workers@),
{
    let mut output = String::new();
    let workers: &[WorkerSnapshot] = snapshot.workers.as_slice();
    append_heading(&mut output, "sglang_omni_router_lifecycle", "Router lifecycle state.");
    append_state(&mut output, State::Starting, lifecycle);
    append_state(&mut output, State::Serving, lifecycle);
    append_state(&mut output, State::Draining, lifecycle);
    append_state(&mut output, State::Stopped, lifecycle);
    append_state(&mut output, State::Failed, lifecycle);
    assert(output@ =~= lifecycle_text(lifecycle));
    let ghost first = output@;
    append_heading(&mut output, "sglang_omni_router_ready", "Router readiness state.");
    append_sample(&mut output, "sglang_omni_router_ready", as_bit(ready));
    assert(output@ =~= first + ready_text(ready));
    let ghost second = output@;
    append_heading(&mut output, "sglang_omni_router_workers_by_health", "Workers by health state.");
    append_health(&mut output, workers, WorkerHealth::Unknown);
    append_health(&mut output, workers, WorkerHealth::Healthy);
    append_health(&mut output, workers, WorkerHealth::Unhealthy);
    assert(output@ =~= second + health_text(workers@));
    let ghost third = output@;
    append_heading(&mut output, "sglang_omni_router_workers_routable", "Routable workers.");
    append_sample(&mut output, "sglang_omni_router_workers_routable", count_routable(workers));
    assert(output@ =~= third + routable_text(workers@));
    render_admission_metrics(&mut output, snapshot);
    render_worker_metrics(&mut output, snapshot);
    output
}

/// Appends the admission limits and what is given out of them.
pub fn render_admission_metrics(output: &mut String, snapshot: &OperationsSnapshot)
    ensures
        final(output)@ == old(output)@ + admission_text(snapshot.admission@),
{
    let ghost before = output@;
    let ghost entries = snapshot.admission@;
    append_heading(
        output,
        "sglang_omni_router_admission_limit",
        "Configured admission limit in class-specific units.",
    );
    let ghost announced = output@;
    let mut i: usize = 0;
    while i < 7
        invariant
            i <= 7,
            entries == snapshot.admission@,
            entries.len() == 7,
            output@ == announced + limit_samples(entries, i as nat),
        decreases 7 - i,
    {
        let entry = &snapshot.admission[i];
        append_labelled(
            output,
            "sglang_omni_router_admission_limit",
            "class",
            entry.class.label(),
            entry.limit,
        );
        assert(output@ =~= announced + limit_samples(entries, i as nat + 1));
        i += 1;
    }
    let ghost limits = output@;
    append_heading(
        output,
        "sglang_omni_router_admission_in_flight",
        "Current admission usage in class-specific units.",
    );
    let ghost announced = output@;
    let mut i: usize = 0;
    while i < 7
        invariant
            i <= 7,
            entries == snapshot.admission@,
            entries.len() == 7,
            output@ == announced + usage_samples(entries, i as nat),
        decreases 7 - i,
    {
        let entry = &snapshot.admission[i];
        append_labelled(
            output,
            "sglang_omni_router_admission_in_flight",
            "class",
            entry.class.label(),
            entry.in_flight,
        );
        assert(output@ =~= announced + usage_samples(entries, i as nat + 1));
        i += 1;
    }
    assert(output@ =~= before + admission_text(entries));
}

/// Sums grow with the number of workers.
proof fn lemma_sums_grow(workers: Seq<WorkerSnapshot>, class: CapacityClass, part: nat, count: nat)
    requires
        part <= count,
    ensures
        total_load(workers, part) <= total_load(workers, count),
        class_total(workers, class, part).0 <= class_total(workers, class, count).0,
        class_total(workers, class, part).1 <= class_total(workers, class, count).1,
    decreases count,
{
    if part < count {
        lemma_sums_grow(workers, class, part, (count - 1) as nat);
    }
}

/// Sums grow with the number of entries.
proof fn lemma_session_sums_grow(
    entries: Seq<SessionCapacitySnapshot>,
    class: CapacityClass,
    part: nat,
    count: nat,
)
    requires
        part <= count,
    ensures
        session_total(entries, class, part).0 <= session_total(entries, class, count).0,
        session_total(entries, class, part).1 <= session_total(entries, class, count).1,
    decreases count,
{
    if part < count {
        lemma_session_sums_grow(entries, class, part, (count - 1) as nat);
    }
}

/// The load of all workers, if it fits a machine word.
fn sum_load(workers: &[WorkerSnapshot]) -> (sum: Option<usize>)
    ensures
        sum is Some <==> total_load(workers@, workers@.len()) <= usize::MAX,
        sum is Some ==> sum->Some_0 == total_load(workers@, workers@.len()),
{
    let mut sum: usize = 0;
    let mut i: usize = 0;
    while i < workers.len()
        invariant
            i <= workers@.len(),
            sum == total_load(workers@, i as nat),
        decreases workers@.len() - i,
    {
        proof {
            lemma_sums_grow(
                workers@,
                CapacityClass::SpeechWebsocket,
                i as nat + 1,
                workers@.len(),
            );
        }
        match sum.checked_add(workers[i].active_requests) {
            Some(next) => {
                sum = next;
            },
            None => {
                return None;
            },
        }
        i += 1;
    }
    Some(sum)
}

/// The limit and the use of the class on one worker, added to a running sum,
/// if the sums fit machine words.
fn add_sessions(
    entries: &[SessionCapacitySnapshot],
    class: CapacityClass,
    start: (usize, usize),
) -> (sum: Option<(usize, usize)>)
    ensures
        ({
            let total = session_total(entries@, class, entries@.len());
            &&& sum is Some <==> start.0 + total.0 <= usize::MAX && start.1 + total.1 <= usize::MAX
            &&& sum is Some ==> sum->Some_0.0 == start.0 + total.0 && sum->Some_0.1 == start.1
                + total.1
        }),
{
    let mut limit: usize = start.0;
    let mut used: usize = start.1;
    let mut i: usize = 0;
    while i < entries.len()
        invariant
            i <= entries@.len(),
            limit == start.0 + session_total(entries@, class, i as nat).0,
            used == start.1 + session_total(entries@, class, i as nat).1,
        decreases entries@.len() - i,
    {
        proof {
            lemma_session_sums_grow(entries@, class, i as nat + 1, entries@.len());
        }
        if entries[i].class == class {
            match (
                limit.checked_add(entries[i].limit),
                used.checked_add(entries[i].in_flight),
            ) {
                (Some(next_limit), Some(next_used)) => {
                    limit = next_limit;
                    used = next_used;
                },
                _ => {
                    return None;
                },
            }
        }
        i += 1;
    }
    Some((limit, used))
}

/// The limit and the use of the class on all workers, if they fit machine words.
fn sum_sessions(workers: &[WorkerSnapshot], class: CapacityClass) -> (sum: Option<(usize, usize)>)
    ensures
        ({
            let total = class_total(workers@, class, workers@.len());
            &&& sum is Some <==> total.0 <= usize::MAX && total.1 <= usize::MAX
            &&& sum is Some ==> sum->Some_0.0 == total.0 && sum->Some_0.1 == total.1
        }),
{
    let mut sum: (usize, usize) = (0, 0);
    let mut i: usize = 0;
    while i < workers.len()
        invariant
            i <= workers@.len(),
            sum.0 == class_total(workers@, class, i as nat).0,
            sum.1 == class_total(workers@, class, i as nat).1,
        decreases workers@.len() - i,
    {
        proof {
            lemma_sums_grow(workers@, class, i as nat + 1, workers@.len());
        }
        match add_sessions(workers[i].session_capacity.as_slice(), class, sum) {
            Some(next) => {
                sum = next;
            },
            None => {
                return None;
            },
        }
        i += 1;
    }
    Some(sum)
}

/// Whether the sums that the metrics show fit machine words.
pub fn can_render_metrics(snapshot: &OperationsSnapshot) -> (outcome: bool)
    ensures
        outcome == sums_fit(snapshot.workers@),
{
    let workers: &[WorkerSnapshot] = snapshot.workers.as_slice();
    sum_load(workers).is_some() && sum_sessions(workers, CapacityClass::SpeechWebsocket).is_some()
        && sum_sessions(workers, CapacityClass::RealtimeWebsocket).is_some()
}

/// Appends the load and the session use of all workers together.
pub fn render_worker_metrics(output: &mut String, snapshot: &OperationsSnapshot)
    requires
        sums_fit(snapshot.workers@),
    ensures
        final(output)@ == old(output)@ + worker_text(snapshot.workers@),
{
    let ghost before = output@;
    let workers: &[WorkerSnapshot] = snapshot.workers.as_slice();
    let active_requests: usize = match sum_load(workers) {
        Some(sum) => sum,
        None => 0,
    };
    append_heading(
        output,
        "sglang_omni_router_worker_active_requests",
        "Aggregate active worker load; speech batches are item-weighted.",
    );
    append_sample(output, "sglang_omni_router_worker_active_requests", active_requests);
    let speech: (usize, usize) = match sum_sessions(workers, CapacityClass::SpeechWebsocket) {
        Some(sum) => sum,
        None => (0, 0),
    };
    let realtime: (usize, usize) = match sum_sessions(workers, CapacityClass::RealtimeWebsocket) {
        Some(sum) => sum,
        None => (0, 0),
    };
    append_heading(
        output,
        "sglang_omni_router_worker_capacity_limit",
        "Aggregate configured worker capacity.",
    );
    append_labelled(
        output,
        "sglang_omni_router_worker_capacity_limit",
        "class",
        CapacityClass::SpeechWebsocket.label(),
        speech.0,
    );
    append_labelled(
        output,
        "sglang_omni_router_worker_capacity_limit",
        "class",
        CapacityClass::RealtimeWebsocket.label(),
        realtime.0,
    );
    append_heading(
        output,
        "sglang_omni_router_worker_capacity_in_flight",
        "Aggregate current worker capacity use.",
    );
    append_labelled(
        output,
        "sglang_omni_router_worker_capacity_in_flight",
        "class",
        CapacityClass::SpeechWebsocket.label(),
        speech.1,
    );
    append_labelled(
        output,
        "sglang_omni_router_worker_capacity_in_flight",
        "class",
        CapacityClass::RealtimeWebsocket.label(),
        realtime.1,
    );
    assert(output@ =~= before + worker_text(workers@));
}

/// What a worker is, but for which worker it is.
pub struct AnonymousWorker {
    pub health: WorkerHealth,
    pub routable: bool,
    pub active_requests: usize,
    pub session_capacity: Seq<SessionCapacitySnapshot>,
}

/// What the workers are, without their identifiers and places.
pub open spec fn anonymous(workers: Seq<WorkerSnapshot>) -> Seq<AnonymousWorker> {
    Seq::new(
        workers.len(),
        |i: int|
            AnonymousWorker {
                health: workers[i].health,
                routable: workers[i].routable,
                active_requests: workers[i].active_requests,
                session_capacity: workers[i].session_capacity@,
            },
    )
}

/// The sum of an amount over workers.
spec fn summed(workers: Seq<AnonymousWorker>, amount: spec_fn(AnonymousWorker) -> nat) -> nat
    decreases workers.len(),
{
    if workers.len() == 0 {
        0
    } else {
        summed(workers.drop_last(), amount) + amount(workers.last())
    }
}

/// The sum with one worker taken out.
proof fn lemma_summed_remove(
    workers: Seq<AnonymousWorker>,
    at: int,
    amount: spec_fn(AnonymousWorker) -> nat,
)
    requires
        0 <= at < workers.len(),
    ensures
        summed(workers, amount) == summed(workers.remove(at), amount) + amount(workers[at]),
    decreases workers.len(),
{
    let last = workers.len() - 1;
    if at == last {
        assert(workers.remove(at) =~= workers.drop_last());
    } else {
        assert(workers.remove(at).drop_last() =~= workers.drop_last().remove(at));
        assert(workers.remove(at).last() == workers.last());
        lemma_summed_remove(workers.drop_last(), at, amount);
    }
}

/// A sum does not depend on the order of the workers.
proof fn lemma_summed_in_any_order(
    left: Seq<AnonymousWorker>,
    right: Seq<AnonymousWorker>,
    amount: spec_fn(AnonymousWorker) -> nat,
)
    requires
        left.to_multiset() == right.to_multiset(),
    ensures
        summed(left, amount) == summed(right, amount),
    decreases left.len(),
{
    left.to_multiset_ensures();
    right.to_multiset_ensures();
    if left.len() > 0 {
        let last = left.len() - 1;
        let worker = left[last];
        assert(left.contains(worker));
        assert(left.to_multiset().count(worker) > 0);
        assert(right.contains(worker));
        let at = right.index_of(worker);
        assert(left.remove(last) =~= left.drop_last());
        assert(left.remove(last).to_multiset() == right.remove(at).to_multiset());
        lemma_summed_in_any_order(left.remove(last), right.remove(at), amount);
        lemma_summed_remove(left, last, amount);
        lemma_summed_remove(right, at, amount);
    }
}

/// One, for a worker of the health.
spec fn of_health(health: WorkerHealth) -> spec_fn(AnonymousWorker) -> nat {
    |worker: AnonymousWorker| bit(worker.health == health)
}

/// One, for a worker that takes requests.
spec fn if_routable() -> spec_fn(AnonymousWorker) -> nat {
    |worker: AnonymousWorker| bit(worker.routable)
}

/// The load of a worker.
spec fn its_load() -> spec_fn(AnonymousWorker) -> nat {
    |worker: AnonymousWorker| worker.active_requests as nat
}

/// The session limit of a worker.
spec fn its_limit(class: CapacityClass) -> spec_fn(AnonymousWorker) -> nat {
    |worker: AnonymousWorker|
        session_total(worker.session_capacity, class, worker.session_capacity.len()).0
}

/// The sessions on a worker.
spec fn its_use(class: CapacityClass) -> spec_fn(AnonymousWorker) -> nat {
    |worker: AnonymousWorker|
        session_total(worker.session_capacity, class, worker.session_capacity.len()).1
}

/// Every figure that the metrics show of workers is a sum over what they are.
proof fn lemma_figures_are_sums(
    workers: Seq<WorkerSnapshot>,
    health: WorkerHealth,
    class: CapacityClass,
    count: nat,
)
    requires
        count <= workers.len(),
    ensures
        ({
            let part = anonymous(workers).take(count as int);
            &&& workers_of_health(workers, health, count) == summed(part, of_health(health))
            &&& routable_workers(workers, count) == summed(part, if_routable())
            &&& total_load(workers, count) == summed(part, its_load())
            &&& class_total(workers, class, count).0 == summed(part, its_limit(class))
            &&& class_total(workers, class, count).1 == summed(part, its_use(class))
        }),
    decreases count,
{
    if count > 0 {
        let all = anonymous(workers);
        lemma_figures_are_sums(workers, health, class, (count - 1) as nat);
        assert(all.take(count as int).drop_last() =~= all.take(count - 1));
        assert(all.take(count as int).last() == all[count - 1]);
    }
}

/// Every figure that the metrics show of workers is the same for the same
/// workers in any order.
proof fn lemma_figures_agree(
    left: Seq<WorkerSnapshot>,
    right: Seq<WorkerSnapshot>,
    health: WorkerHealth,
    class: CapacityClass,
)
    requires
        anonymous(left).to_multiset() == anonymous(right).to_multiset(),
    ensures
        workers_of_health(left, health, left.len()) == workers_of_health(
            right,
            health,
            right.len(),
        ),
        routable_workers(left, left.len()) == routable_workers(right, right.len()),
        total_load(left, left.len()) == total_load(right, right.len()),
        class_total(left, class, left.len()) == class_total(right, class, right.len()),
{
    let ours = anonymous(left);
    let theirs = anonymous(right);
    lemma_figures_are_sums(left, health, class, left.len());
    lemma_figures_are_sums(right, health, class, right.len());
    assert(ours.take(left.len() as int) =~= ours);
    assert(theirs.take(right.len() as int) =~= theirs);
    lemma_summed_in_any_order(ours, theirs, of_health(health));
    lemma_summed_in_any_order(ours, theirs, if_routable());
    lemma_summed_in_any_order(ours, theirs, its_load());
    lemma_summed_in_any_order(ours, theirs, its_limit(class));
    lemma_summed_in_any_order(ours, theirs, its_use(class));
}

/// The metrics carry neither the identity nor the order of workers: the same
/// workers in any order, under any identifiers and places, have the same text.
pub proof fn law_metrics_carry_no_worker_identity(
    lifecycle: State,
    ready: bool,
    left: OperationsSnapshot,
    right: OperationsSnapshot,
)
    requires
        left.admission@ == right.admission@,
        anonymous(left.workers@).to_multiset() == anonymous(right.workers@).to_multiset(),
    ensures
        metrics_text(lifecycle, ready, left.admission@, left.workers@) == metrics_text(
            lifecycle,
            ready,
            right.admission@,
            right.workers@,
        ),
        sums_fit(left.workers@) == sums_fit(right.workers@),
{
    let ours = left.workers@;
    let theirs = right.workers@;
    lemma_figures_agree(ours, theirs, WorkerHealth::Unknown, CapacityClass::SpeechWebsocket);
    lemma_figures_agree(ours, theirs, WorkerHealth::Healthy, CapacityClass::RealtimeWebsocket);
    lemma_figures_agree(ours, theirs, WorkerHealth::Unhealthy, CapacityClass::SpeechWebsocket);
}

} // verus!
