//! One reading of the pool for operators.

use vstd::prelude::*;

use crate::worker_pool::admission::occupancy;
use crate::worker_pool::health::WorkerHealth;
use crate::worker_pool::permits::PermitView;
use crate::worker_pool::pool::WorkerPool;
use crate::worker_pool::profile::{CapacityClass, CAPACITY_CLASS_COUNT};
use crate::worker_pool::record::{Registration, WorkerRecord, WorkerState};
use crate::worker_pool::routing::PoolView;

verus! {

/// The sessions of one class on one worker.
#[derive(Clone, Copy, Debug, PartialEq, Eq, Structural)]
pub struct SessionCapacitySnapshot {
    pub class: CapacityClass,
    pub limit: usize,
    pub in_flight: usize,
}

/// What an admission limit is on.
#[derive(Clone, Copy, Debug, PartialEq, Eq, Structural)]
pub enum AdmissionClass {
    Global,
    Service(CapacityClass),
}

impl AdmissionClass {
    /// The name of the limit in metrics and diagnostics.
    pub open spec fn name(self) -> Seq<char> {
        match self {
            AdmissionClass::Global => "global"@,
            AdmissionClass::Service(class) => class.name(),
        }
    }

    pub fn label(self) -> (label: &'static str)
        ensures
            label@ == self.name(),
    {
        match self {
            AdmissionClass::Global => "global",
            AdmissionClass::Service(class) => class.label(),
        }
    }

    /// The limits in order: the envelope, then each class.
    pub open spec fn at(index: int) -> AdmissionClass {
        if index == 0 {
            AdmissionClass::Global
        } else {
            AdmissionClass::Service(CapacityClass::all()[index - 1])
        }
    }
}

/// One admission limit and what is given out of it.
#[derive(Clone, Copy, Debug, PartialEq, Eq, Structural)]
pub struct AdmissionSnapshot {
    pub class: AdmissionClass,
    pub limit: usize,
    pub in_flight: usize,
}

/// One worker.
#[derive(Clone, Debug, PartialEq, Eq)]
pub struct WorkerSnapshot {
    pub worker_id: String,
    pub registration_ordinal: usize,
    pub health: WorkerHealth,
    pub routable: bool,
    pub active_requests: usize,
    pub session_capacity: Vec<SessionCapacitySnapshot>,
}

/// The whole pool.
#[derive(Clone, Debug, PartialEq, Eq)]
pub struct OperationsSnapshot {
    pub admission: [AdmissionSnapshot; 7],
    pub workers: Vec<WorkerSnapshot>,
}

/// The reading of one session limit, if there is one.
pub open spec fn session_reading(class: CapacityClass, pool: Option<PermitView>) -> Seq<
    SessionCapacitySnapshot,
> {
    match pool {
        Some(permits) => seq![
            SessionCapacitySnapshot {
                class,
                limit: permits.limit as usize,
                in_flight: permits.in_flight() as usize,
            },
        ],
        None => Seq::empty(),
    }
}

/// The reading of the session limits of a worker: speech, then realtime.
pub open spec fn session_readings(state: WorkerState) -> Seq<SessionCapacitySnapshot> {
    session_reading(
        CapacityClass::SpeechWebsocket,
        state.session_pool(CapacityClass::SpeechWebsocket),
    ) + session_reading(
        CapacityClass::RealtimeWebsocket,
        state.session_pool(CapacityClass::RealtimeWebsocket),
    )
}

impl WorkerSnapshot {
    /// The snapshot is a reading of the worker at this place.
    pub open spec fn reads(&self, worker: Registration, state: WorkerState, ordinal: int) -> bool {
        &&& self.worker_id@ == worker.worker_id
        &&& self.registration_ordinal == ordinal
        &&& self.health == state.health
        &&& self.routable == state.routable()
        &&& self.active_requests == state.load
        &&& self.session_capacity@ == session_readings(state)
    }
}

/// The limit at a place: the envelope, then each class.
pub open spec fn limit_at(pool: PoolView, index: int) -> Option<PermitView> {
    if index == 0 {
        Some(pool.admission.global)
    } else {
        pool.admission.classes[index - 1]
    }
}

impl OperationsSnapshot {
    /// The snapshot is a reading of the pool.
    pub open spec fn reads(&self, pool: PoolView) -> bool {
        &&& forall|i: int|
            0 <= i <= CAPACITY_CLASS_COUNT ==> #[trigger] self.admission@[i] == (AdmissionSnapshot {
                class: AdmissionClass::at(i),
                limit: occupancy(limit_at(pool, i)).0,
                in_flight: occupancy(limit_at(pool, i)).1,
            })
        &&& self.workers@.len() == pool.roster.len()
        &&& forall|i: int|
            0 <= i < pool.roster.len() ==> (#[trigger] self.workers@[i]).reads(
                pool.roster[i],
                pool.workers[i],
                i,
            )
    }
}

/// Reads the sessions of a class on a worker.
fn read_sessions(
    readings: &mut Vec<SessionCapacitySnapshot>,
    record: &WorkerRecord,
    class: CapacityClass,
)
    requires
        record.wf(),
    ensures
        final(readings)@ == old(readings)@ + session_reading(
            class,
            record.state().session_pool(class),
        ),
{
    match record.session_capacity(class) {
        Some(pool) => {
            readings.push(
                SessionCapacitySnapshot { class, limit: pool.limit(), in_flight: pool.in_flight() },
            );
            assert(readings@ =~= old(readings)@ + session_reading(
                class,
                record.state().session_pool(class),
            ));
        },
        None => {
            assert(readings@ =~= old(readings)@ + session_reading(
                class,
                record.state().session_pool(class),
            ));
        },
    }
}

/// Reads one worker.
fn read_worker(record: &WorkerRecord, ordinal: usize) -> (snapshot: WorkerSnapshot)
    requires
        record.wf(),
    ensures
        snapshot.reads(record.registration(), record.state(), ordinal as int),
{
    let mut session_capacity: Vec<SessionCapacitySnapshot> = Vec::new();
    read_sessions(&mut session_capacity, record, CapacityClass::SpeechWebsocket);
    read_sessions(&mut session_capacity, record, CapacityClass::RealtimeWebsocket);
    assert(session_capacity@ =~= session_readings(record.state()));
    WorkerSnapshot {
        worker_id: record.worker_id().to_owned(),
        registration_ordinal: ordinal,
        health: record.health(),
        routable: record.is_routable(),
        active_requests: record.load(),
        session_capacity,
    }
}

impl WorkerPool {
    pub fn operations_snapshot(&self) -> (snapshot: OperationsSnapshot)
        requires
            self.wf(),
        ensures
            snapshot.reads(self@),
    {
        let ghost pool = self@;
        let raw_admission = self.admission().snapshot();
        let mut admission: [AdmissionSnapshot; 7] = [AdmissionSnapshot {
            class: AdmissionClass::Global,
            limit: raw_admission[0].0,
            in_flight: raw_admission[0].1,
        };7];
        let mut i: usize = 0;
        while i < CAPACITY_CLASS_COUNT
            invariant
                i <= CAPACITY_CLASS_COUNT,
                pool == self@,
                admission@.len() == 7,
                raw_admission@.len() == 7,
                forall|k: int|
                    0 <= k < CAPACITY_CLASS_COUNT ==> #[trigger] raw_admission@[k + 1] == occupancy(
                        pool.admission.classes[k],
                    ),
                forall|k: int|
                    0 <= k <= i ==> #[trigger] admission@[k] == (AdmissionSnapshot {
                        class: AdmissionClass::at(k),
                        limit: occupancy(limit_at(pool, k)).0,
                        in_flight: occupancy(limit_at(pool, k)).1,
                    }),
            decreases CAPACITY_CLASS_COUNT - i,
        {
            let raw: (usize, usize) = raw_admission[i + 1];
            admission[i + 1] = AdmissionSnapshot {
                class: AdmissionClass::Service(CapacityClass::from_index(i)),
                limit: raw.0,
                in_flight: raw.1,
            };
            assert(raw_admission@[i as int + 1] == occupancy(pool.admission.classes[i as int]));
            i += 1;
        }
        let mut workers: Vec<WorkerSnapshot> = Vec::new();
        let mut w: usize = 0;
        while w < self.worker_count()
            invariant
                w <= pool.roster.len(),
                self.wf(),
                pool == self@,
                workers@.len() == w,
                forall|k: int|
                    0 <= k < w ==> (#[trigger] workers@[k]).reads(
                        pool.roster[k],
                        pool.workers[k],
                        k,
                    ),
            decreases pool.roster.len() - w,
        {
            workers.push(read_worker(self.record(w), w));
            w += 1;
        }
        OperationsSnapshot { admission, workers }
    }
}

} // verus!
