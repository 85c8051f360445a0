//! The worker pool of a configuration.

use vstd::prelude::*;

use crate::config::{AdmissionConfig, PoolConfig};
use crate::error::WorkerPoolInvariant;
use crate::text::{same_text, string_of};
use crate::worker_pool::admission::{
    fresh_class, is_permit_limit, AdmissionController, AdmissionView,
};
use crate::worker_pool::cohorts::roster_of;
use crate::worker_pool::health::WorkerHealth;
use crate::worker_pool::permits::{PermitPool, PermitView, MAX_PERMITS};
use crate::worker_pool::pool::{states_of, WorkerPool};
use crate::worker_pool::profile::{
    WorkerCapacityConfig, WorkerConfig, CAPACITY_CLASS_COUNT, MAX_WORKERS,
};
use crate::worker_pool::record::{session_views, Registration, WorkerRecord, WorkerState};
use crate::worker_pool::resolver::{is_canonical_origin, parsed_url, ResolvedTarget};
use crate::worker_pool::routing::PoolView;

verus! {

/// A configured limit fits a pool of permits.
pub open spec fn limit_fits(limit: Option<u32>) -> bool {
    limit is Some ==> limit->Some_0 <= MAX_PERMITS
}

/// A pool of which nothing is given out, if it is configured.
pub open spec fn fresh_pool(limit: Option<u32>) -> Option<PermitView> {
    match limit {
        Some(value) => Some(
            PermitView { limit: value as nat, available: value as nat, closed: false },
        ),
        None => None,
    }
}

/// A worker can be registered: its base URL is a canonical origin and its
/// session limits fit.
pub open spec fn registrable(worker: WorkerConfig) -> bool {
    &&& is_canonical_origin(worker.base_url@, parsed_url(worker.base_url@))
    &&& limit_fits(worker.capacity.speech_websocket)
    &&& limit_fits(worker.capacity.realtime_websocket)
}

/// What is fixed about a configured worker.
pub open spec fn registration_of(worker: WorkerConfig) -> Registration {
    Registration {
        worker_id: worker.worker_id@,
        default: string_of(worker.default_model_id),
        base: worker.base_url@,
        health_url: parsed_url(worker.base_url@)->Some_0.origin + worker.health_path@,
        trust: worker.trust_domain@,
        profiles: worker.service_profiles@,
    }
}

/// A configured worker as it starts: of unknown health, without load.
pub open spec fn initial_state(worker: WorkerConfig) -> WorkerState {
    WorkerState {
        load: 0,
        sessions: seq![
            fresh_pool(worker.capacity.speech_websocket),
            fresh_pool(worker.capacity.realtime_websocket),
        ],
        health: WorkerHealth::Unknown,
    }
}

/// The first worker with the identifier, at `from` or later; the end if there is none.
pub open spec fn worker_named(workers: Seq<WorkerConfig>, id: Seq<char>, from: int) -> int
    decreases workers.len() - from,
{
    if from >= workers.len() {
        workers.len() as int
    } else if workers[from].worker_id@ == id {
        from
    } else {
        worker_named(workers, id, from + 1)
    }
}

/// The pool can be built: every worker can be registered, the admission limits
/// fit, and the voice owner, if one is named, is a worker.
pub open spec fn buildable(config: PoolConfig) -> bool {
    &&& forall|i: int| 0 <= i < config.workers@.len() ==> registrable(#[trigger] config.workers@[i])
    &&& config.admission.global <= MAX_PERMITS
    &&& forall|i: int|
        0 <= i < CAPACITY_CLASS_COUNT ==> limit_fits(#[trigger] config.admission.classes()[i])
    &&& config.voice_owner_worker_id is Some ==> worker_named(
        config.workers@,
        config.voice_owner_worker_id->Some_0@,
        0,
    ) < config.workers@.len()
}

/// The state of a freshly built pool.
pub open spec fn initial_pool(config: PoolConfig) -> PoolView {
    let count = config.workers@.len();
    PoolView {
        roster: Seq::new(count, |i: int| registration_of(config.workers@[i])),
        strategy: config.strategy,
        voice_owner: match config.voice_owner_worker_id {
            Some(id) => Some(worker_named(config.workers@, id@, 0) as usize),
            None => None,
        },
        workers: Seq::new(count, |i: int| initial_state(config.workers@[i])),
        admission: AdmissionView {
            global: PermitView {
                limit: config.admission.global as nat,
                available: config.admission.global as nat,
                closed: false,
            },
            classes: Seq::new(
                CAPACITY_CLASS_COUNT as nat,
                |i: int| fresh_pool(config.admission.classes()[i]),
            ),
        },
        order: Seq::new(count, |i: int| i as usize),
    }
}

/// A configured limit, if it fits a pool of permits.
fn permit_limit(limit: Option<u32>) -> (outcome: Result<Option<usize>, WorkerPoolInvariant>)
    ensures
        outcome is Ok <==> limit_fits(limit),
        outcome is Ok ==> fresh_class(outcome->Ok_0) == fresh_pool(limit) && is_permit_limit(
            outcome->Ok_0,
        ),
{
    match limit {
        Some(value) => {
            let wide: usize = value as usize;
            if wide <= MAX_PERMITS {
                Ok(Some(wide))
            } else {
                Err(WorkerPoolInvariant)
            }
        },
        None => Ok(None),
    }
}

/// Admission with the configured limits.
fn build_admission(config: &AdmissionConfig) -> (outcome: Result<
    AdmissionController,
    WorkerPoolInvariant,
>)
    ensures
        outcome is Ok <==> config.global <= MAX_PERMITS && forall|i: int|
            0 <= i < CAPACITY_CLASS_COUNT ==> limit_fits(#[trigger] config.classes()[i]),
        outcome is Ok ==> {
            let admission = outcome->Ok_0;
            &&& admission.wf()
            &&& admission@ == (AdmissionView {
                global: PermitView {
                    limit: config.global as nat,
                    available: config.global as nat,
                    closed: false,
                },
                classes: Seq::new(
                    CAPACITY_CLASS_COUNT as nat,
                    |i: int| fresh_pool(config.classes()[i]),
                ),
            })
        },
{
    let global: usize = config.global as usize;
    let configured: [Option<u32>; 6] = [
        config.generation_http,
        config.speech_http,
        config.speech_batch,
        config.transcription_http,
        config.speech_websocket,
        config.realtime_websocket,
    ];
    assert(configured@ =~= config.classes());
    if global > MAX_PERMITS {
        return Err(WorkerPoolInvariant);
    }
    let mut limits: [Option<usize>; CAPACITY_CLASS_COUNT] = [None;CAPACITY_CLASS_COUNT];
    let mut i: usize = 0;
    while i < CAPACITY_CLASS_COUNT
        invariant
            i <= CAPACITY_CLASS_COUNT,
            limits@.len() == CAPACITY_CLASS_COUNT,
            configured@ == config.classes(),
            forall|k: int| 0 <= k < i ==> limit_fits(#[trigger] config.classes()[k]),
            forall|k: int|
                0 <= k < i ==> fresh_class(#[trigger] limits@[k]) == fresh_pool(
                    config.classes()[k],
                ),
            forall|k: int|
                0 <= k < CAPACITY_CLASS_COUNT ==> is_permit_limit(#[trigger] limits@[k]),
        decreases CAPACITY_CLASS_COUNT - i,
    {
        let entry: Option<usize> = match permit_limit(configured[i]) {
            Ok(limit) => limit,
            Err(error) => {
                assert(!limit_fits(config.classes()[i as int]));
                return Err(error);
            },
        };
        limits[i] = entry;
        i += 1;
    }
    let admission = AdmissionController::new(global, limits);
    assert(admission@.classes =~= Seq::new(
        CAPACITY_CLASS_COUNT as nat,
        |i: int| fresh_pool(config.classes()[i]),
    ));
    Ok(admission)
}

/// The session pools of a worker: speech, then realtime.
pub fn build_session_capacity(config: &WorkerCapacityConfig) -> (outcome: Result<
    (Option<PermitPool>, Option<PermitPool>),
    WorkerPoolInvariant,
>)
    ensures
        outcome is Ok <==> limit_fits(config.speech_websocket) && limit_fits(
            config.realtime_websocket,
        ),
        outcome is Ok ==> session_views(seq![outcome->Ok_0.0, outcome->Ok_0.1]) == seq![
            fresh_pool(config.speech_websocket),
            fresh_pool(config.realtime_websocket),
        ],
        outcome is Ok ==> (outcome->Ok_0.0 is Some ==> outcome->Ok_0.0->Some_0.wf()) && (
        outcome->Ok_0.1 is Some ==> outcome->Ok_0.1->Some_0.wf()),
{
    let speech_limit: Option<usize> = match permit_limit(config.speech_websocket) {
        Ok(limit) => limit,
        Err(error) => {
            return Err(error);
        },
    };
    let realtime_limit: Option<usize> = match permit_limit(config.realtime_websocket) {
        Ok(limit) => limit,
        Err(error) => {
            return Err(error);
        },
    };
    let speech = match speech_limit {
        Some(limit) => Some(PermitPool::new(limit)),
        None => None,
    };
    let realtime = match realtime_limit {
        Some(limit) => Some(PermitPool::new(limit)),
        None => None,
    };
    assert(session_views(seq![speech, realtime]) =~= seq![
        fresh_pool(config.speech_websocket),
        fresh_pool(config.realtime_websocket),
    ]);
    Ok((speech, realtime))
}

/// A configured worker as it starts.
fn build_record(worker: WorkerConfig, ordinal: usize) -> (outcome: Result<
    WorkerRecord,
    WorkerPoolInvariant,
>)
    ensures
        outcome is Ok <==> registrable(worker),
        outcome is Ok ==> {
            let record = outcome->Ok_0;
            &&& record.wf()
            &&& record.ordinal() == ordinal
            &&& record.registration() == registration_of(worker)
            &&& record.state() == initial_state(worker)
        },
{
    let target = match ResolvedTarget::from_worker(&worker) {
        Some(target) => target,
        None => {
            return Err(WorkerPoolInvariant);
        },
    };
    let (speech, realtime) = match build_session_capacity(&worker.capacity) {
        Ok(sessions) => sessions,
        Err(error) => {
            return Err(error);
        },
    };
    proof {
        let sessions = session_views(seq![speech, realtime]);
        assert(sessions[0] == fresh_pool(worker.capacity.speech_websocket));
        assert(sessions[1] == fresh_pool(worker.capacity.realtime_websocket));
    }
    Ok(WorkerRecord::new(worker, ordinal, target, speech, realtime))
}

/// The place of the first worker with the identifier.
fn find_worker(workers: &[WorkerConfig], id: &str) -> (place: usize)
    ensures
        place == worker_named(workers@, id@, 0),
        place <= workers@.len(),
{
    let mut i: usize = 0;
    while i < workers.len()
        invariant
            i <= workers@.len(),
            worker_named(workers@, id@, 0) == worker_named(workers@, id@, i as int),
        decreases workers@.len() - i,
    {
        if same_text(workers[i].worker_id.as_str(), id) {
            return i;
        }
        i += 1;
    }
    i
}

impl WorkerPool {
    /// The pool of a configuration.
    pub fn build(config: PoolConfig) -> (outcome: Result<Self, WorkerPoolInvariant>)
        requires
            config.workers@.len() <= MAX_WORKERS,
        ensures
            outcome is Ok <==> buildable(config),
            outcome is Ok ==> outcome->Ok_0.wf() && outcome->Ok_0@ == initial_pool(config),
    {
        let ghost given = config;
        let PoolConfig { workers, admission, voice_owner_worker_id, strategy } = config;
        let controller = match build_admission(&admission) {
            Ok(controller) => controller,
            Err(error) => {
                return Err(error);
            },
        };
        let voice_owner: Option<usize> = match &voice_owner_worker_id {
            Some(id) => {
                let place: usize = find_worker(workers.as_slice(), id.as_str());
                if place >= workers.len() {
                    return Err(WorkerPoolInvariant);
                }
                Some(place)
            },
            None => None,
        };
        let ghost all = workers@;
        let mut waiting = workers;
        let mut records: Vec<WorkerRecord> = Vec::new();
        let mut ordinal: usize = 0;
        while waiting.len() > 0
            invariant
                all.len() <= MAX_WORKERS,
                ordinal <= all.len(),
                given == config,
                all == given.workers@,
                waiting@ == all.skip(ordinal as int),
                records@.len() == ordinal,
                forall|i: int| 0 <= i < ordinal ==> registrable(#[trigger] all[i]),
                forall|i: int|
                    0 <= i < ordinal ==> {
                        &&& (#[trigger] records@[i]).wf()
                        &&& records@[i].ordinal() == i
                        &&& records@[i].registration() == registration_of(all[i])
                        &&& records@[i].state() == initial_state(all[i])
                    },
            decreases waiting@.len(),
        {
            let worker = waiting.remove(0);
            assert(worker == all[ordinal as int]);
            match build_record(worker, ordinal) {
                Ok(record) => {
                    records.push(record);
                },
                Err(error) => {
                    assert(!registrable(given.workers@[ordinal as int]));
                    return Err(error);
                },
            }
            ordinal += 1;
            assert(waiting@ =~= all.skip(ordinal as int));
        }
        assert(roster_of(records@) =~= initial_pool(given).roster);
        assert(states_of(records@) =~= initial_pool(given).workers);
        Ok(WorkerPool::from_records(records, voice_owner, controller, strategy))
    }
}

} // verus!
