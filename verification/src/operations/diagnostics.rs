//! The diagnostics document: a reading of the pool without addresses or trust domains.

use vstd::prelude::*;

use crate::lifecycle::State;
use crate::operations::render::{
    append_decimal, append_flag, decimal, encode_strings, flag, json_strings,
};
use crate::text::keys;
use crate::worker_pool::routing::PoolView;
use crate::worker_pool::snapshot::{OperationsSnapshot, SessionCapacitySnapshot, WorkerSnapshot};

verus! {

/// One limit and what is given out of it.
#[derive(Debug)]
pub struct DiagnosticCapacity {
    class: &'static str,
    limit: usize,
    in_flight: usize,
}

/// What a [`DiagnosticCapacity`] says.
pub struct CapacityReading {
    pub class: Seq<char>,
    pub limit: nat,
    pub in_flight: nat,
}

impl View for DiagnosticCapacity {
    type V = CapacityReading;

    closed spec fn view(&self) -> CapacityReading {
        CapacityReading {
            class: self.class@,
            limit: self.limit as nat,
            in_flight: self.in_flight as nat,
        }
    }
}

/// One worker.
#[derive(Debug)]
pub struct DiagnosticWorker {
    worker_id: String,
    registration_ordinal: usize,
    health: &'static str,
    routable: bool,
    active_requests: usize,
    capacity: Vec<DiagnosticCapacity>,
}

/// What a [`DiagnosticWorker`] says.
pub struct WorkerReading {
    pub worker_id: Seq<char>,
    pub registration_ordinal: nat,
    pub health: Seq<char>,
    pub routable: bool,
    pub active_requests: nat,
    pub capacity: Seq<CapacityReading>,
}

impl View for DiagnosticWorker {
    type V = WorkerReading;

    closed spec fn view(&self) -> WorkerReading {
        WorkerReading {
            worker_id: self.worker_id@,
            registration_ordinal: self.registration_ordinal as nat,
            health: self.health@,
            routable: self.routable,
            active_requests: self.active_requests as nat,
            capacity: keys(self.capacity@),
        }
    }
}

/// The document.
#[derive(Debug)]
pub struct Diagnostics {
    lifecycle: &'static str,
    ready: bool,
    admission: Vec<DiagnosticCapacity>,
    workers: Vec<DiagnosticWorker>,
}

/// What [`Diagnostics`] say.
#[verifier::ext_equal]
pub struct DiagnosticsReading {
    pub lifecycle: Seq<char>,
    pub ready: bool,
    pub admission: Seq<CapacityReading>,
    pub workers: Seq<WorkerReading>,
}

impl View for Diagnostics {
    type V = DiagnosticsReading;

    closed spec fn view(&self) -> DiagnosticsReading {
        DiagnosticsReading {
            lifecycle: self.lifecycle@,
            ready: self.ready,
            admission: keys(self.admission@),
            workers: keys(self.workers@),
        }
    }
}

/// What a session limit says.
pub open spec fn session_readings_of(entries: Seq<SessionCapacitySnapshot>) -> Seq<CapacityReading> {
    Seq::new(
        entries.len(),
        |i: int|
            CapacityReading {
                class: entries[i].class.name(),
                limit: entries[i].limit as nat,
                in_flight: entries[i].in_flight as nat,
            },
    )
}

/// What a worker says.
pub open spec fn worker_reading_of(worker: WorkerSnapshot) -> WorkerReading {
    WorkerReading {
        worker_id: worker.worker_id@,
        registration_ordinal: worker.registration_ordinal as nat,
        health: worker.health.name(),
        routable: worker.routable,
        active_requests: worker.active_requests as nat,
        capacity: session_readings_of(worker.session_capacity@),
    }
}

/// What the document says about a snapshot.
pub open spec fn diagnostics_of(
    lifecycle: State,
    ready: bool,
    snapshot: OperationsSnapshot,
) -> DiagnosticsReading {
    DiagnosticsReading {
        lifecycle: lifecycle.name(),
        ready,
        admission: Seq::new(
            snapshot.admission@.len(),
            |i: int|
                CapacityReading {
                    class: snapshot.admission@[i].class.name(),
                    limit: snapshot.admission@[i].limit as nat,
                    in_flight: snapshot.admission@[i].in_flight as nat,
                },
        ),
        workers: Seq::new(
            snapshot.workers@.len(),
            |i: int| worker_reading_of(snapshot.workers@[i]),
        ),
    }
}

/// Reads the session limits of a worker.
fn read_capacity(entries: &[SessionCapacitySnapshot]) -> (capacity: Vec<DiagnosticCapacity>)
    ensures
        keys(capacity@) == session_readings_of(entries@),
{
    let mut capacity: Vec<DiagnosticCapacity> = Vec::new();
    let mut i: usize = 0;
    while i < entries.len()
        invariant
            i <= entries@.len(),
            capacity@.len() == i,
            forall|k: int| 0 <= k < i ==> (#[trigger] capacity@[k])@ == session_readings_of(entries@)[k],
        decreases entries@.len() - i,
    {
        capacity.push(
            DiagnosticCapacity {
                class: entries[i].class.label(),
                limit: entries[i].limit,
                in_flight: entries[i].in_flight,
            },
        );
        i += 1;
    }
    assert(keys(capacity@) =~= session_readings_of(entries@));
    capacity
}

impl Diagnostics {
    pub fn from_snapshot(lifecycle: State, ready: bool, snapshot: &OperationsSnapshot) -> (document:
        Self)
        ensures
            document@ == diagnostics_of(lifecycle, ready, *snapshot),
    {
        let ghost expected = diagnostics_of(lifecycle, ready, *snapshot);
        let mut admission: Vec<DiagnosticCapacity> = Vec::new();
        let mut i: usize = 0;
        while i < 7
            invariant
                i <= 7,
                expected == diagnostics_of(lifecycle, ready, *snapshot),
                expected.admission.len() == 7,
                admission@.len() == i,
                forall|k: int|
                    0 <= k < i ==> (#[trigger] admission@[k])@ == expected.admission[k],
            decreases 7 - i,
        {
            admission.push(
                DiagnosticCapacity {
                    class: snapshot.admission[i].class.label(),
                    limit: snapshot.admission[i].limit,
                    in_flight: snapshot.admission[i].in_flight,
                },
            );
            i += 1;
        }
        let mut workers: Vec<DiagnosticWorker> = Vec::new();
        let mut w: usize = 0;
        while w < snapshot.workers.len()
            invariant
                w <= snapshot.workers@.len(),
                expected == diagnostics_of(lifecycle, ready, *snapshot),
                workers@.len() == w,
                forall|k: int| 0 <= k < w ==> (#[trigger] workers@[k])@ == expected.workers[k],
            decreases snapshot.workers@.len() - w,
        {
            let worker = &snapshot.workers[w];
            workers.push(
                DiagnosticWorker {
                    worker_id: worker.worker_id.clone(),
                    registration_ordinal: worker.registration_ordinal,
                    health: worker.health.label(),
                    routable: worker.routable,
                    active_requests: worker.active_requests,
                    capacity: read_capacity(worker.session_capacity.as_slice()),
                },
            );
            w += 1;
        }
        assert(keys(admission@) =~= expected.admission);
        assert(keys(workers@) =~= expected.workers);
        Diagnostics { lifecycle: lifecycle.label(), ready, admission, workers }
    }

    /// The document as JSON.
    pub fn to_json(&self) -> (json: Option<String>)
        ensures
            json is Some,
            json->Some_0@ == diagnostics_json(self@, json_strings(worker_ids(self@))),
    {
        let mut texts: Vec<String> = Vec::new();
        let mut i: usize = 0;
        while i < self.workers.len()
            invariant
                i <= self.workers@.len(),
                texts@.len() == i,
                forall|k: int| 0 <= k < i ==> (#[trigger] texts@[k])@ == worker_ids(self@)[k],
            decreases self.workers@.len() - i,
        {
            texts.push(self.workers[i].worker_id.clone());
            i += 1;
        }
        assert(keys(texts@) =~= worker_ids(self@));
        match encode_strings(texts.as_slice()) {
            Some(ids) => {
                assert(keys(ids@) == json_strings(worker_ids(self@)));
                Some(self.frame(ids.as_slice()))
            },
            None => None,
        }
    }

    /// The document as JSON, from the JSON strings of its worker identifiers.
    pub fn frame(&self, ids: &[String]) -> (json: String)
        requires
            ids@.len() == self@.workers.len(),
        ensures
            json@ == diagnostics_json(self@, keys(ids@)),
    {
        let ghost reading = self@;
        let mut json = String::new();
        json.append("{\"lifecycle\":\"");
        json.append(self.lifecycle);
        json.append("\",\"ready\":");
        append_flag(&mut json, self.ready);
        json.append(",\"admission\":[");
        append_capacities(&mut json, self.admission.as_slice());
        json.append("],\"workers\":[");
        let ghost start = json@;
        let mut i: usize = 0;
        while i < self.workers.len()
            invariant
                i <= self.workers@.len(),
                ids@.len() == self.workers@.len(),
                reading == self@,
                json@ == start + workers_json(reading.workers, keys(ids@), i as nat),
            decreases self.workers@.len() - i,
        {
            if i > 0 {
                json.append(",");
            }
            let ghost so_far = json@;
            append_worker(&mut json, &self.workers[i], ids[i].as_str());
            proof {
                assert(self.workers@[i as int]@ == reading.workers[i as int]);
                assert(ids@[i as int]@ == keys(ids@)[i as int]);
                assert(json@ =~= start + workers_json(reading.workers, keys(ids@), i as nat + 1));
            }
            i += 1;
        }
        json.append("]}");
        assert(json@ =~= diagnostics_json(reading, keys(ids@)));
        json
    }
}

/// The identifiers of the workers.
pub open spec fn worker_ids(document: DiagnosticsReading) -> Seq<Seq<char>> {
    Seq::new(document.workers.len(), |i: int| document.workers[i].worker_id)
}

/// One limit as JSON.
pub open spec fn capacity_json(entry: CapacityReading) -> Seq<char> {
    "{\"class\":\""@ + entry.class + "\",\"limit\":"@ + decimal(entry.limit) + ",\"in_flight\":"@
        + decimal(entry.in_flight) + "}"@
}

/// The first `count` limits as JSON, with commas between them.
pub open spec fn capacities_json(entries: Seq<CapacityReading>, count: nat) -> Seq<char>
    decreases count,
{
    if count == 0 {
        Seq::empty()
    } else if count == 1 {
        capacity_json(entries[0])
    } else {
        capacities_json(entries, (count - 1) as nat) + ","@ + capacity_json(entries[count - 1])
    }
}

/// One worker as JSON, from the JSON string of its identifier.
pub open spec fn worker_json(worker: WorkerReading, id: Seq<char>) -> Seq<char> {
    "{\"worker_id\":"@ + id + ",\"registration_ordinal\":"@ + decimal(worker.registration_ordinal)
        + ",\"health\":\""@ + worker.health + "\",\"routable\":"@ + flag(worker.routable)
        + ",\"active_requests\":"@ + decimal(worker.active_requests) + ",\"capacity\":["@
        + capacities_json(worker.capacity, worker.capacity.len()) + "]}"@
}

/// The first `count` workers as JSON, with commas between them.
pub open spec fn workers_json(
    workers: Seq<WorkerReading>,
    ids: Seq<Seq<char>>,
    count: nat,
) -> Seq<char>
    decreases count,
{
    if count == 0 {
        Seq::empty()
    } else if count == 1 {
        worker_json(workers[0], ids[0])
    } else {
        workers_json(workers, ids, (count - 1) as nat) + ","@ + worker_json(
            workers[count - 1],
            ids[count - 1],
        )
    }
}

/// The document as JSON, from the JSON strings of the worker identifiers.
pub open spec fn diagnostics_json(document: DiagnosticsReading, ids: Seq<Seq<char>>) -> Seq<char> {
    "{\"lifecycle\":\""@ + document.lifecycle + "\",\"ready\":"@ + flag(document.ready)
        + ",\"admission\":["@ + capacities_json(document.admission, document.admission.len())
        + "],\"workers\":["@ + workers_json(document.workers, ids, document.workers.len()) + "]}"@
}

/// Appends one limit.
fn append_capacity(json: &mut String, entry: &DiagnosticCapacity)
    ensures
        final(json)@ == old(json)@ + capacity_json(entry@),
{
    let ghost start = json@;
    json.append("{\"class\":\"");
    json.append(entry.class);
    json.append("\",\"limit\":");
    append_decimal(json, entry.limit);
    json.append(",\"in_flight\":");
    append_decimal(json, entry.in_flight);
    json.append("}");
    assert(json@ =~= start + capacity_json(entry@));
}

/// Appends limits, with commas between them.
fn append_capacities(json: &mut String, entries: &[DiagnosticCapacity])
    ensures
        final(json)@ == old(json)@ + capacities_json(keys(entries@), entries@.len()),
{
    let ghost start = json@;
    let mut i: usize = 0;
    while i < entries.len()
        invariant
            i <= entries@.len(),
            json@ == start + capacities_json(keys(entries@), i as nat),
        decreases entries@.len() - i,
    {
        if i > 0 {
            json.append(",");
        }
        append_capacity(json, &entries[i]);
        proof {
            assert(keys(entries@)[i as int] == entries@[i as int]@);
            assert(json@ =~= start + capacities_json(keys(entries@), i as nat + 1));
        }
        i += 1;
    }
}

/// Appends one worker.
fn append_worker(json: &mut String, worker: &DiagnosticWorker, id: &str)
    ensures
        final(json)@ == old(json)@ + worker_json(worker@, id@),
{
    let ghost start = json@;
    json.append("{\"worker_id\":");
    json.append(id);
    json.append(",\"registration_ordinal\":");
    append_decimal(json, worker.registration_ordinal);
    json.append(",\"health\":\"");
    json.append(worker.health);
    json.append("\",\"routable\":");
    append_flag(json, worker.routable);
    json.append(",\"active_requests\":");
    append_decimal(json, worker.active_requests);
    json.append(",\"capacity\":[");
    append_capacities(json, worker.capacity.as_slice());
    json.append("]}");
    assert(json@ =~= start + worker_json(worker@, id@));
}

/// Diagnostics are redacted: a snapshot, and so the document, says nothing
/// about addresses, health paths, trust domains, models or profiles. Two pools
/// that differ in nothing else have the same snapshots.
pub proof fn law_diagnostics_are_redacted(
    snapshot: OperationsSnapshot,
    pool: PoolView,
    other: PoolView,
)
    requires
        pool.roster.len() == other.roster.len(),
        forall|i: int|
            0 <= i < pool.roster.len() ==> (#[trigger] pool.roster[i]).worker_id
                == other.roster[i].worker_id,
        pool.workers == other.workers,
        pool.admission == other.admission,
    ensures
        snapshot.reads(pool) <==> snapshot.reads(other),
{
    if snapshot.reads(pool) {
        assert forall|i: int| 0 <= i < other.roster.len() implies (
        #[trigger] snapshot.workers@[i]).reads(other.roster[i], other.workers[i], i) by {
            assert(snapshot.workers@[i].reads(pool.roster[i], pool.workers[i], i));
            assert(pool.roster[i].worker_id == other.roster[i].worker_id);
        }
    }
    if snapshot.reads(other) {
        assert forall|i: int| 0 <= i < pool.roster.len() implies (
        #[trigger] snapshot.workers@[i]).reads(pool.roster[i], pool.workers[i], i) by {
            assert(snapshot.workers@[i].reads(other.roster[i], other.workers[i], i));
            assert(pool.roster[i].worker_id == other.roster[i].worker_id);
        }
    }
}

} // verus!
