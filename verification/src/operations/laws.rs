//! What operators read is what there is.

use vstd::prelude::*;
use vstd::utf8::encode_utf8;

use crate::lifecycle::State;
use crate::operations::diagnostics::{
    capacities_json, capacity_json, diagnostics_of, worker_json, workers_json, CapacityReading,
    WorkerReading,
};
use crate::operations::metrics::{
    class_total, limit_samples, routable_workers, session_total, total_load, usage_samples,
    workers_of_health,
};
use crate::operations::models::{
    before, differ_at, is_inventory, lists_model, model_card, model_cards, named_models,
    names_model,
};
use crate::operations::render::{decimal, json_char, json_chars, json_string};
use crate::operations::OperationResponse;
use crate::text::keys;
use crate::worker_pool::health::WorkerHealth;
use crate::worker_pool::profile::{CapacityClass, ServiceProfile, WorkerConfig};
use crate::worker_pool::routing::PoolView;
use crate::worker_pool::snapshot::{
    AdmissionClass, AdmissionSnapshot, OperationsSnapshot, SessionCapacitySnapshot, WorkerSnapshot,
};

verus! {

/// Numbers are written in decimal: one more digit stands behind the others, and
/// one digit alone is itself.
pub proof fn law_numbers_are_decimal(tens: nat, digit: nat)
    requires
        digit < 10,
    ensures
        decimal(digit).len() == 1,
        decimal(digit)[0] as int == '0' as int + digit,
        tens > 0 ==> decimal(tens * 10 + digit) == decimal(tens) + decimal(digit),
{
    assert((tens * 10 + digit) / 10 == tens);
    assert((tens * 10 + digit) % 10 == digit);
    assert((0x30 + digit) as char as int == 0x30 + digit);
}

/// JSON strings are written character by character.
pub proof fn law_json_is_written_character_by_character(text: Seq<char>, c: char)
    ensures
        json_string(Seq::empty()) == seq!['"', '"'],
        json_chars(text.push(c)) == json_chars(text) + json_char(c),
        c != '"' && c != '\\' && c >= ' ' ==> json_char(c) == seq![c],
        c == '"' || c == '\\' ==> json_char(c) == seq!['\\', c],
        json_char('\u{8}') == seq!['\\', 'b'],
        json_char('\t') == seq!['\\', 't'],
        json_char('\n') == seq!['\\', 'n'],
        json_char('\u{c}') == seq!['\\', 'f'],
        json_char('\r') == seq!['\\', 'r'],
{
    assert(text.push(c).drop_last() =~= text);
    assert(json_string(Seq::empty()) =~= seq!['"', '"']);
}

/// The value of a hexadecimal digit.
pub open spec fn hex_value(digit: char) -> int {
    if '0' <= digit <= '9' {
        digit as int - '0' as int
    } else if 'a' <= digit <= 'f' {
        digit as int - 'a' as int + 10
    } else {
        -1
    }
}

/// A control character that JSON has no letter for is written as its code, in
/// four hexadecimal digits.
pub proof fn law_control_characters_are_written_as_codes(c: char)
    requires
        c < ' ',
        c != '\u{8}',
        c != '\t',
        c != '\n',
        c != '\u{c}',
        c != '\r',
    ensures
        ({
            let written = json_char(c);
            &&& written.len() == 6
            &&& written.take(4) == seq!['\\', 'u', '0', '0']
            &&& 0 <= hex_value(written[4]) < 16
            &&& 0 <= hex_value(written[5]) < 16
            &&& hex_value(written[4]) * 16 + hex_value(written[5]) == c as int
        }),
{
    let high = c as nat / 16;
    let low = c as nat % 16;
    assert(high < 10 ==> (0x30 + high) as char as int == 0x30 + high);
    assert(low < 10 ==> (0x30 + low) as char as int == 0x30 + low);
    assert(low < 16 ==> (0x57 + low) as char as int == 0x57 + low);
    assert(json_char(c).take(4) =~= seq!['\\', 'u', '0', '0']);
}

/// A list of models is written in order, one behind the other, with commas
/// between them.
pub proof fn law_one_more_model_is_written_behind_the_others(ids: Seq<Seq<char>>, id: Seq<char>)
    ensures
        ids.len() == 0 ==> model_cards(ids.push(id), 1) == model_card(id),
        ids.len() > 0 ==> model_cards(ids.push(id), ids.len() + 1) == model_cards(ids, ids.len())
            + ","@ + model_card(id),
{
    lemma_first_models(ids, id, ids.len());
}

/// The first limits are written without regard to what follows.
proof fn lemma_first_limits(
    entries: Seq<AdmissionSnapshot>,
    entry: AdmissionSnapshot,
    count: nat,
)
    requires
        count <= entries.len(),
    ensures
        limit_samples(entries.push(entry), count) == limit_samples(entries, count),
        usage_samples(entries.push(entry), count) == usage_samples(entries, count),
    decreases count,
{
    if count > 0 {
        lemma_first_limits(entries, entry, (count - 1) as nat);
    }
}

/// The metrics have a line for the limit of each class, and one for what is
/// given out of it, in the order of the reading.
pub proof fn law_one_more_limit_is_one_more_line(
    entries: Seq<AdmissionSnapshot>,
    entry: AdmissionSnapshot,
)
    ensures
        limit_samples(entries.push(entry), entries.len() + 1) == limit_samples(
            entries,
            entries.len(),
        ) + "sglang_omni_router_admission_limit"@ + "{"@ + "class"@ + "=\""@ + entry.class.name()
            + "\"} "@ + decimal(entry.limit as nat) + "\n"@,
        usage_samples(entries.push(entry), entries.len() + 1) == usage_samples(
            entries,
            entries.len(),
        ) + "sglang_omni_router_admission_in_flight"@ + "{"@ + "class"@ + "=\""@
            + entry.class.name() + "\"} "@ + decimal(entry.in_flight as nat) + "\n"@,
{
    lemma_first_limits(entries, entry, entries.len());
    let more = entries.push(entry);
    assert(limit_samples(more, more.len()) =~= limit_samples(entries, entries.len())
        + "sglang_omni_router_admission_limit"@ + "{"@ + "class"@ + "=\""@ + entry.class.name()
        + "\"} "@ + decimal(entry.limit as nat) + "\n"@);
    assert(usage_samples(more, more.len()) =~= usage_samples(entries, entries.len())
        + "sglang_omni_router_admission_in_flight"@ + "{"@ + "class"@ + "=\""@
        + entry.class.name() + "\"} "@ + decimal(entry.in_flight as nat) + "\n"@);
}

/// The first entries are written without regard to what follows.
proof fn lemma_first_capacities(
    entries: Seq<CapacityReading>,
    entry: CapacityReading,
    count: nat,
)
    requires
        count <= entries.len(),
    ensures
        capacities_json(entries.push(entry), count) == capacities_json(entries, count),
    decreases count,
{
    if count > 0 {
        lemma_first_capacities(entries, entry, (count - 1) as nat);
    }
}

/// Limits are written in order, one behind the other, with commas between
/// them.
pub proof fn law_one_more_limit_is_written_behind_the_others(
    entries: Seq<CapacityReading>,
    entry: CapacityReading,
)
    ensures
        entries.len() == 0 ==> capacities_json(entries.push(entry), 1) == capacity_json(entry),
        entries.len() > 0 ==> capacities_json(entries.push(entry), entries.len() + 1)
            == capacities_json(entries, entries.len()) + ","@ + capacity_json(entry),
{
    lemma_first_capacities(entries, entry, entries.len());
}

/// The first workers are written without regard to what follows.
proof fn lemma_first_readings(
    workers: Seq<WorkerReading>,
    ids: Seq<Seq<char>>,
    worker: WorkerReading,
    id: Seq<char>,
    count: nat,
)
    requires
        count <= workers.len(),
        ids.len() == workers.len(),
    ensures
        workers_json(workers.push(worker), ids.push(id), count) == workers_json(
            workers,
            ids,
            count,
        ),
    decreases count,
{
    if count > 0 {
        lemma_first_readings(workers, ids, worker, id, (count - 1) as nat);
    }
}

/// Workers are written in order, one behind the other, with commas between
/// them, each under its own name.
pub proof fn law_one_more_worker_is_written_behind_the_others(
    workers: Seq<WorkerReading>,
    ids: Seq<Seq<char>>,
    worker: WorkerReading,
    id: Seq<char>,
)
    requires
        ids.len() == workers.len(),
    ensures
        workers.len() == 0 ==> workers_json(workers.push(worker), ids.push(id), 1) == worker_json(
            worker,
            id,
        ),
        workers.len() > 0 ==> workers_json(
            workers.push(worker),
            ids.push(id),
            workers.len() + 1,
        ) == workers_json(workers, ids, workers.len()) + ","@ + worker_json(worker, id),
{
    lemma_first_readings(workers, ids, worker, id, workers.len());
}

/// The first models are written without regard to what follows.
proof fn lemma_first_models(ids: Seq<Seq<char>>, id: Seq<char>, count: nat)
    requires
        count <= ids.len(),
    ensures
        model_cards(ids.push(id), count) == model_cards(ids, count),
    decreases count,
{
    if count > 0 {
        lemma_first_models(ids, id, (count - 1) as nat);
    }
}

/// The figures of the first workers rest on them alone.
proof fn lemma_first_workers(
    workers: Seq<WorkerSnapshot>,
    worker: WorkerSnapshot,
    health: WorkerHealth,
    class: CapacityClass,
    count: nat,
)
    requires
        count <= workers.len(),
    ensures
        workers_of_health(workers.push(worker), health, count) == workers_of_health(
            workers,
            health,
            count,
        ),
        routable_workers(workers.push(worker), count) == routable_workers(workers, count),
        total_load(workers.push(worker), count) == total_load(workers, count),
        class_total(workers.push(worker), class, count) == class_total(workers, class, count),
    decreases count,
{
    if count > 0 {
        lemma_first_workers(workers, worker, health, class, (count - 1) as nat);
    }
}

/// One more worker counts once under its health and under no other, counts as
/// routable if it is, and adds its load and its sessions of each class.
pub proof fn law_one_more_worker_is_counted_once(
    workers: Seq<WorkerSnapshot>,
    worker: WorkerSnapshot,
    health: WorkerHealth,
    class: CapacityClass,
)
    ensures
        ({
            let more = workers.push(worker);
            let sessions = worker.session_capacity@;
            let here = session_total(sessions, class, sessions.len());
            &&& worker.health == health ==> workers_of_health(more, health, more.len())
                == workers_of_health(workers, health, workers.len()) + 1
            &&& worker.health != health ==> workers_of_health(more, health, more.len())
                == workers_of_health(workers, health, workers.len())
            &&& worker.routable ==> routable_workers(more, more.len()) == routable_workers(
                workers,
                workers.len(),
            ) + 1
            &&& !worker.routable ==> routable_workers(more, more.len()) == routable_workers(
                workers,
                workers.len(),
            )
            &&& total_load(more, more.len()) == total_load(workers, workers.len())
                + worker.active_requests
            &&& class_total(more, class, more.len()).0 == class_total(
                workers,
                class,
                workers.len(),
            ).0 + here.0
            &&& class_total(more, class, more.len()).1 == class_total(
                workers,
                class,
                workers.len(),
            ).1 + here.1
        }),
        workers_of_health(Seq::empty(), health, 0) == 0,
        routable_workers(Seq::empty(), 0) == 0,
        total_load(Seq::empty(), 0) == 0,
        class_total(Seq::empty(), class, 0) == (0nat, 0nat),
{
    lemma_first_workers(workers, worker, health, class, workers.len());
}

/// The sessions of the first entries rest on them alone.
proof fn lemma_first_entries(
    entries: Seq<SessionCapacitySnapshot>,
    entry: SessionCapacitySnapshot,
    class: CapacityClass,
    count: nat,
)
    requires
        count <= entries.len(),
    ensures
        session_total(entries.push(entry), class, count) == session_total(entries, class, count),
    decreases count,
{
    if count > 0 {
        lemma_first_entries(entries, entry, class, (count - 1) as nat);
    }
}

/// A session limit counts for its own class, with its limit and its use.
pub proof fn law_sessions_count_for_their_own_class(
    entries: Seq<SessionCapacitySnapshot>,
    entry: SessionCapacitySnapshot,
    class: CapacityClass,
)
    ensures
        ({
            let more = entries.push(entry);
            let then = session_total(entries, class, entries.len());
            let now = session_total(more, class, more.len());
            &&& entry.class == class ==> now.0 == then.0 + entry.limit && now.1 == then.1
                + entry.in_flight
            &&& entry.class != class ==> now == then
        }),
        session_total(Seq::empty(), class, 0) == (0nat, 0nat),
{
    lemma_first_entries(entries, entry, class, entries.len());
}

/// Every worker has one health, so the counts by health add up to all workers.
pub proof fn law_health_counts_add_up(workers: Seq<WorkerSnapshot>, count: nat)
    requires
        count <= workers.len(),
    ensures
        workers_of_health(workers, WorkerHealth::Unknown, count) + workers_of_health(
            workers,
            WorkerHealth::Healthy,
            count,
        ) + workers_of_health(workers, WorkerHealth::Unhealthy, count) == count,
    decreases count,
{
    if count > 0 {
        law_health_counts_add_up(workers, (count - 1) as nat);
    }
}

/// A reading of a pool says of each worker its name, its place, its health and
/// its load, that it is routable exactly when it is healthy, and what is given
/// out of its sessions.
pub proof fn law_readings_are_true_of_workers(
    snapshot: OperationsSnapshot,
    pool: PoolView,
    i: int,
)
    requires
        pool.wf(),
        snapshot.reads(pool),
        0 <= i < pool.roster.len(),
    ensures
        ({
            let read = snapshot.workers@[i];
            let state = pool.workers[i];
            let sessions = read.session_capacity@;
            &&& snapshot.workers@.len() == pool.roster.len()
            &&& read.worker_id@ == pool.roster[i].worker_id
            &&& read.registration_ordinal == i
            &&& read.health == state.health
            &&& read.routable <==> state.health is Healthy
            &&& read.active_requests == state.load
            &&& sessions.len() == (if state.sessions[0] is Some {
                1int
            } else {
                0
            }) + (if state.sessions[1] is Some {
                1int
            } else {
                0
            })
            &&& state.sessions[0] is Some ==> {
                &&& sessions[0].class is SpeechWebsocket
                &&& sessions[0].limit == state.sessions[0]->Some_0.limit
                &&& sessions[0].in_flight + state.sessions[0]->Some_0.available
                    == state.sessions[0]->Some_0.limit
            }
            &&& state.sessions[1] is Some ==> {
                &&& sessions.last().class is RealtimeWebsocket
                &&& sessions.last().limit == state.sessions[1]->Some_0.limit
                &&& sessions.last().in_flight + state.sessions[1]->Some_0.available
                    == state.sessions[1]->Some_0.limit
            }
        }),
{
    assert(snapshot.workers@[i].reads(pool.roster[i], pool.workers[i], i));
    assert(pool.workers[i].wf());
}

/// A reading of a pool says of the envelope and of each class, in their order,
/// the limit and what is given out; zeros for a class without a limit.
pub proof fn law_readings_are_true_of_limits(snapshot: OperationsSnapshot, pool: PoolView, i: int)
    requires
        pool.wf(),
        snapshot.reads(pool),
        0 <= i < 6,
    ensures
        ({
            let envelope = snapshot.admission@[0];
            let read = snapshot.admission@[i + 1];
            let limit = pool.admission.classes[i];
            &&& envelope.class is Global
            &&& envelope.limit == pool.admission.global.limit
            &&& envelope.in_flight + pool.admission.global.available == pool.admission.global.limit
            &&& i == 0 ==> read.class == AdmissionClass::Service(CapacityClass::GenerationHttp)
            &&& i == 1 ==> read.class == AdmissionClass::Service(CapacityClass::SpeechHttp)
            &&& i == 2 ==> read.class == AdmissionClass::Service(CapacityClass::SpeechBatch)
            &&& i == 3 ==> read.class == AdmissionClass::Service(CapacityClass::TranscriptionHttp)
            &&& i == 4 ==> read.class == AdmissionClass::Service(CapacityClass::SpeechWebsocket)
            &&& i == 5 ==> read.class == AdmissionClass::Service(CapacityClass::RealtimeWebsocket)
            &&& limit is None ==> read.limit == 0 && read.in_flight == 0
            &&& limit is Some ==> read.limit == limit->Some_0.limit && read.in_flight
                + limit->Some_0.available == limit->Some_0.limit
        }),
{
    assert(snapshot.admission@[0].class == AdmissionClass::at(0));
    assert(snapshot.admission@[i + 1].class == AdmissionClass::at(i + 1));
}

/// The diagnostics say of each worker and each limit what the reading says, in
/// the same order.
pub proof fn law_diagnostics_say_what_was_read(
    lifecycle: State,
    ready: bool,
    snapshot: OperationsSnapshot,
    i: int,
    k: int,
)
    requires
        0 <= i < snapshot.workers@.len(),
        0 <= k < snapshot.admission@.len(),
    ensures
        ({
            let document = diagnostics_of(lifecycle, ready, snapshot);
            let worker = snapshot.workers@[i];
            let said = document.workers[i];
            &&& document.ready == ready
            &&& document.lifecycle == lifecycle.name()
            &&& document.workers.len() == snapshot.workers@.len()
            &&& document.admission.len() == snapshot.admission@.len()
            &&& said.worker_id == worker.worker_id@
            &&& said.registration_ordinal == worker.registration_ordinal
            &&& said.health == worker.health.name()
            &&& said.routable == worker.routable
            &&& said.active_requests == worker.active_requests
            &&& said.capacity.len() == worker.session_capacity@.len()
            &&& forall|s: int|
                0 <= s < said.capacity.len() ==> {
                    &&& (#[trigger] said.capacity[s]).class
                        == worker.session_capacity@[s].class.name()
                    &&& said.capacity[s].limit == worker.session_capacity@[s].limit
                    &&& said.capacity[s].in_flight == worker.session_capacity@[s].in_flight
                }
            &&& document.admission[k].class == snapshot.admission@[k].class.name()
            &&& document.admission[k].limit == snapshot.admission@[k].limit
            &&& document.admission[k].in_flight == snapshot.admission@[k].in_flight
        }),
{
}

/// The names of lifecycle states tell them apart.
pub proof fn law_names_tell_states_apart(left: State, right: State)
    requires
        left.name() == right.name(),
    ensures
        left == right,
{
    reveal_strlit("starting");
    reveal_strlit("serving");
    reveal_strlit("draining");
    reveal_strlit("stopped");
    reveal_strlit("failed");
    assert("starting"@.len() == 8);
    assert("draining"@.len() == 8);
    assert("serving"@.len() == 7);
    assert("stopped"@.len() == 7);
    assert("failed"@.len() == 6);
    assert("starting"@[0] == 's' && "draining"@[0] == 'd');
    assert("serving"@[1] == 'e' && "stopped"@[1] == 't');
}

/// An inventory lists each model once, and no other.
pub proof fn law_inventory_lists_each_model_once(list: Seq<Seq<char>>, texts: Set<Seq<char>>)
    requires
        is_inventory(list, texts),
    ensures
        list.no_duplicates(),
        list.to_set() == texts,
{
    assert forall|i: int, j: int| 0 <= i < j < list.len() implies list[i] != list[j] by {
        assert(before(list[i], list[j]));
        if list[i] == list[j] {
            let bytes = encode_utf8(list[i]);
            let at = choose|at: int| #[trigger] differ_at(bytes, encode_utf8(list[j]), at);
            assert(differ_at(bytes, bytes, at));
        }
    }
    assert(list.to_set() =~= texts);
}

/// An inventory is in the order of the bytes of its models.
pub proof fn law_inventory_is_in_order(
    list: Seq<Seq<char>>,
    texts: Set<Seq<char>>,
    earlier: int,
    later: int,
)
    requires
        is_inventory(list, texts),
        0 <= earlier < later < list.len(),
    ensures
        exists|at: int| #[trigger]
            differ_at(encode_utf8(list[earlier]), encode_utf8(list[later]), at),
{
    assert(before(list[earlier], list[later]));
}

/// Where one byte string comes before another, they agree up to a place at
/// which the first ends or has the smaller byte.
pub proof fn law_smaller_byte_comes_first(left: Seq<u8>, right: Seq<u8>, at: int)
    ensures
        differ_at(left, right, at) <==> {
            &&& 0 <= at <= left.len()
            &&& at < right.len()
            &&& left.take(at) == right.take(at)
            &&& at == left.len() || left[at] < right[at]
        },
{
    if differ_at(left, right, at) {
        assert(left.take(at) =~= right.take(at));
    }
    if 0 <= at <= left.len() && at < right.len() && left.take(at) == right.take(at) {
        assert forall|i: int| 0 <= i < at implies left[i] == right[i] by {
            assert(left.take(at)[i] == right.take(at)[i]);
        }
    }
}

/// The row lists the model.
pub open spec fn row_lists(row: ServiceProfile, model: Seq<char>) -> bool {
    match row {
        ServiceProfile::GenerationHttp { model_ids, .. } => keys(model_ids@).contains(model),
        ServiceProfile::SpeechHttp { model_ids, .. } => keys(model_ids@).contains(model),
        ServiceProfile::SpeechBatch { model_ids, .. } => keys(model_ids@).contains(model),
        ServiceProfile::TranscriptionHttp { model_ids, .. } => keys(model_ids@).contains(model),
        ServiceProfile::SpeechWebsocket { model_ids, .. } => keys(model_ids@).contains(model),
        ServiceProfile::RealtimeWebsocket => false,
    }
}

/// The worker has the model for its default, or lists it in a row.
pub open spec fn has_model(worker: WorkerConfig, model: Seq<char>) -> bool {
    ||| worker.default_model_id is Some && worker.default_model_id->Some_0@ == model
    ||| exists|r: int|
        0 <= r < worker.service_profiles@.len() && row_lists(
            #[trigger] worker.service_profiles@[r],
            model,
        )
}

/// The models of a configuration are the defaults of its workers and what their
/// rows list; a realtime row lists none.
pub proof fn law_models_are_defaults_and_listed_ones(
    workers: Seq<WorkerConfig>,
    model: Seq<char>,
)
    ensures
        named_models(workers).contains(model) <==> exists|w: int|
            0 <= w < workers.len() && has_model(#[trigger] workers[w], model),
{
    assert forall|w: int| 0 <= w < workers.len() implies has_model(#[trigger] workers[w], model)
        == names_model(workers[w], model) by {
        lemma_names(workers[w], model);
    }
    if named_models(workers).contains(model) {
        let w = choose|w: int| 0 <= w < workers.len() && #[trigger] names_model(workers[w], model);
        assert(has_model(workers[w], model));
    }
    if exists|w: int| 0 <= w < workers.len() && has_model(#[trigger] workers[w], model) {
        let w = choose|w: int| 0 <= w < workers.len() && has_model(#[trigger] workers[w], model);
        assert(names_model(workers[w], model));
    }
}

/// A worker names what it has for its default or lists.
proof fn lemma_names(worker: WorkerConfig, model: Seq<char>)
    ensures
        names_model(worker, model) == has_model(worker, model),
{
    let rows = worker.service_profiles@;
    if exists|r: int| 0 <= r < rows.len() && lists_model((#[trigger] rows[r]).models(), model) {
        let r = choose|r: int| 0 <= r < rows.len() && lists_model((#[trigger] rows[r]).models(), model);
        assert(row_lists(rows[r], model));
    }
    if exists|r: int| 0 <= r < rows.len() && row_lists(#[trigger] rows[r], model) {
        let r = choose|r: int| 0 <= r < rows.len() && row_lists(#[trigger] rows[r], model);
        assert(lists_model(rows[r].models(), model));
    }
}

/// An answer to an operator is as long as the bytes of its body, and is not to
/// be stored.
pub proof fn law_answers_are_measured_in_bytes(
    answer: OperationResponse,
    status: u16,
    content_type: Seq<char>,
    body: Seq<char>,
)
    requires
        answer.says(status, content_type, body),
    ensures
        answer.status == status,
        answer.content_type@ == content_type,
        answer.body@ == body,
        answer.content_length == encode_utf8(answer.body@).len(),
        answer.cache_control@ == "no-store"@,
{
}

} // verus!
