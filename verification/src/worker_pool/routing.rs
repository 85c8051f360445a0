//! The state of the pool and the decisions it takes, as mathematics.

use vstd::prelude::*;

use crate::config::RoutingStrategy;
use crate::worker_pool::admission::{AdmissionHold, AdmissionView, DispatchError};
use crate::worker_pool::health::WorkerHealth;
use crate::worker_pool::permits::PermitView;
use crate::worker_pool::profile::{
    CapacityClass, RouteRequirement, ServiceClass, ServiceProfile, VoiceNamePolicy, MAX_WORKERS,
};
use crate::worker_pool::record::{session_slot, Registration, WorkerState};
use crate::worker_pool::selection::{is_turn_order, turn, turned};

verus! {

/// The state of the pool.
#[verifier::ext_equal]
pub struct PoolView {
    /// The workers, in startup order.
    pub roster: Seq<Registration>,
    pub strategy: RoutingStrategy,
    pub voice_owner: Option<usize>,
    /// The state of each worker of the roster.
    pub workers: Seq<WorkerState>,
    pub admission: AdmissionView,
    /// The order in which workers take turns.
    pub order: Seq<usize>,
}

/// What a dispatched request holds besides its place in the envelope.
pub struct RequestHold {
    pub admission: Option<AdmissionHold>,
    pub worker: usize,
    pub weight: usize,
    pub session: Option<CapacityClass>,
}

/// What becomes of an admitted request.
pub enum Decision {
    /// It is refused.
    Refuse(DispatchError),
    /// It goes to a worker, and the turn order becomes the given one.
    Assign(usize, Seq<usize>),
}

/// Some worker is marked.
pub open spec fn any(marked: Seq<bool>) -> bool {
    exists|i: int| 0 <= i < marked.len() && #[trigger] marked[i]
}

impl PoolView {
    pub open spec fn wf(self) -> bool {
        &&& self.roster.len() <= MAX_WORKERS
        &&& self.workers.len() == self.roster.len()
        &&& forall|i: int| 0 <= i < self.workers.len() ==> (#[trigger] self.workers[i]).wf()
        &&& self.voice_owner is Some ==> self.voice_owner->Some_0 < self.roster.len()
        &&& self.admission.wf()
        &&& is_turn_order(self.order, self.roster.len())
    }

    /// The workers that serve the request.
    pub open spec fn serving(self, requirement: RouteRequirement) -> Seq<bool> {
        Seq::new(
            MAX_WORKERS as nat,
            |i: int| i < self.roster.len() && self.roster[i].serves(requirement),
        )
    }

    /// Some worker in the trust domain reads the voice name of the request so.
    pub open spec fn reads_voice(self, requirement: RouteRequirement, policy: VoiceNamePolicy) -> bool {
        exists|i: int|
            0 <= i < self.roster.len() && (#[trigger] self.roster[i]).trust == requirement.domain()
                && self.roster[i].reads_voice(requirement, policy)
    }

    /// How the voice name of the request is read, if it is read at all; none
    /// where workers that serve the request read it differently.
    pub open spec fn voice_reading(self, requirement: RouteRequirement) -> Option<
        Option<VoiceNamePolicy>,
    > {
        let preset = self.reads_voice(requirement, VoiceNamePolicy::Preset);
        let uploaded = self.reads_voice(requirement, VoiceNamePolicy::Uploaded);
        if preset && uploaded {
            None
        } else if preset {
            Some(Some(VoiceNamePolicy::Preset))
        } else if uploaded {
            Some(Some(VoiceNamePolicy::Uploaded))
        } else {
            Some(None)
        }
    }

    /// The marked workers have one and the same default model.
    pub open spec fn one_default(self, marked: Seq<bool>) -> bool {
        &&& forall|i: int|
            0 <= i < self.roster.len() && marked[i] ==> (#[trigger] self.roster[i]).default is Some
        &&& forall|i: int, j: int|
            0 <= i < self.roster.len() && 0 <= j < self.roster.len() && marked[i] && marked[j]
                ==> (#[trigger] self.roster[i]).default == (#[trigger] self.roster[j]).default
    }

    /// The marked workers that take requests.
    pub open spec fn routable(self, marked: Seq<bool>) -> Seq<bool> {
        Seq::new(
            MAX_WORKERS as nat,
            |i: int| i < self.roster.len() && marked[i] && self.workers[i].routable(),
        )
    }

    /// The marked workers that have room for one more session of the class.
    pub open spec fn roomy(self, marked: Seq<bool>, class: CapacityClass) -> Seq<bool> {
        Seq::new(
            MAX_WORKERS as nat,
            |i: int| i < self.roster.len() && marked[i] && self.workers[i].has_session_room(class),
        )
    }

    /// The marked workers of least load.
    pub open spec fn least_loaded(self, marked: Seq<bool>) -> Seq<bool> {
        Seq::new(
            MAX_WORKERS as nat,
            |i: int|
                marked[i] && forall|j: int|
                    0 <= j < MAX_WORKERS && #[trigger] marked[j] ==> self.workers[i].load
                        <= self.workers[j].load,
        )
    }

    /// The marked workers among which the turn order decides.
    pub open spec fn contenders(self, marked: Seq<bool>) -> Seq<bool> {
        match self.strategy {
            RoutingStrategy::RoundRobin => marked,
            RoutingStrategy::LeastRequests => self.least_loaded(marked),
        }
    }

    /// The marked worker that the strategy picks.
    pub open spec fn pick(self, marked: Seq<bool>) -> Decision {
        match turn(self.order, self.contenders(marked)) {
            Some(worker) => Decision::Assign(worker, turned(self.order, self.contenders(marked))),
            None => Decision::Refuse(DispatchError::Internal),
        }
    }

    /// What becomes of a request that the marked workers can take.
    pub open spec fn choose_among(self, marked: Seq<bool>) -> Decision {
        if !any(self.routable(marked)) {
            Decision::Refuse(DispatchError::Unavailable)
        } else {
            self.pick(self.routable(marked))
        }
    }

    /// What becomes of a request that the marked workers can take, if a
    /// profile was found for it.
    pub open spec fn matching_decision(self, profile_found: bool, marked: Seq<bool>) -> Decision {
        if !profile_found {
            Decision::Refuse(DispatchError::NoEligibleProfile)
        } else {
            self.choose_among(marked)
        }
    }

    /// Why a request for an uploaded voice cannot go to the voice owner.
    pub open spec fn owner_refusal(self, requirement: RouteRequirement) -> Option<DispatchError> {
        match self.voice_owner {
            None => Some(DispatchError::NoEligibleProfile),
            Some(owner) => if !self.roster[owner as int].serves(requirement) {
                Some(DispatchError::NoEligibleProfile)
            } else if requirement.needs().leaves_model_open() && self.roster[owner as int].default
                is None {
                Some(DispatchError::AmbiguousModel)
            } else if !self.workers[owner as int].routable() {
                Some(DispatchError::Unavailable)
            } else {
                None
            },
        }
    }

    /// Why no worker is looked for: none serves the request, or the request leaves
    /// its model open and those that serve it have different defaults.
    pub open spec fn service_refusal(self, requirement: RouteRequirement) -> Option<DispatchError> {
        let serving = self.serving(requirement);
        if !any(serving) {
            Some(DispatchError::NoEligibleProfile)
        } else if requirement.needs().leaves_model_open() && !self.one_default(serving) {
            Some(DispatchError::AmbiguousModel)
        } else {
            None
        }
    }

    /// What becomes of a request that was admitted in the class.
    pub open spec fn dispatch_decision(
        self,
        class: CapacityClass,
        requirement: RouteRequirement,
    ) -> Decision {
        if class != requirement.needs().service().class() {
            Decision::Refuse(DispatchError::Internal)
        } else {
            match self.voice_reading(requirement) {
                None => Decision::Refuse(DispatchError::AmbiguousModel),
                Some(Some(VoiceNamePolicy::Uploaded)) => match self.owner_refusal(requirement) {
                    Some(error) => Decision::Refuse(error),
                    None => Decision::Assign(self.voice_owner->Some_0, self.order),
                },
                _ => match self.service_refusal(requirement) {
                    Some(error) => Decision::Refuse(error),
                    None => self.choose_among(self.serving(requirement)),
                },
            }
        }
    }

    /// What becomes of a session that was admitted in the class.
    pub open spec fn session_decision(
        self,
        class: CapacityClass,
        requirement: RouteRequirement,
    ) -> Decision {
        if class != requirement.needs().service().class() || session_slot(class) is None {
            Decision::Refuse(DispatchError::Internal)
        } else {
            match self.voice_reading(requirement) {
                None => Decision::Refuse(DispatchError::AmbiguousModel),
                Some(Some(VoiceNamePolicy::Uploaded)) => match self.owner_refusal(requirement) {
                    Some(error) => Decision::Refuse(error),
                    None => {
                        let owner = self.voice_owner->Some_0;
                        if self.workers[owner as int].session_pool(class) is None {
                            Decision::Refuse(DispatchError::Internal)
                        } else if !self.workers[owner as int].has_session_room(class) {
                            Decision::Refuse(DispatchError::Overloaded)
                        } else {
                            Decision::Assign(owner, self.order)
                        }
                    },
                },
                _ => match self.service_refusal(requirement) {
                    Some(error) => Decision::Refuse(error),
                    None => {
                        let healthy = self.routable(self.serving(requirement));
                        if !any(healthy) {
                            Decision::Refuse(DispatchError::Unavailable)
                        } else if !any(self.roomy(healthy, class)) {
                            Decision::Refuse(DispatchError::Overloaded)
                        } else {
                            self.pick(self.roomy(healthy, class))
                        }
                    },
                },
            }
        }
    }

    /// What becomes of a request for the voice owner.
    pub open spec fn owner_decision(self) -> Decision {
        match self.voice_owner {
            None => Decision::Refuse(DispatchError::Internal),
            Some(owner) => if !self.workers[owner as int].routable() {
                Decision::Refuse(DispatchError::Unavailable)
            } else {
                Decision::Assign(owner, self.order)
            },
        }
    }

    /// After an admitted request was refused: it gave back what it held.
    pub open spec fn admission_returned(self, hold: AdmissionHold) -> PoolView {
        PoolView { admission: self.admission.lease_returned(hold), ..self }
    }

    /// After a request with only a place in the envelope was refused.
    pub open spec fn envelope_returned(self) -> PoolView {
        PoolView { admission: self.admission.envelope_returned(), ..self }
    }

    /// After a request went to a worker.
    pub open spec fn assigned(self, hold: RequestHold, order: Seq<usize>) -> PoolView {
        let before = self.workers[hold.worker as int];
        let opened = match hold.session {
            Some(class) => before.session_taken(class),
            None => before,
        };
        PoolView {
            workers: self.workers.update(hold.worker as int, opened.loaded(hold.weight)),
            order,
            ..self
        }
    }

    /// After a request was done with: everything it held came back.
    pub open spec fn released(self, hold: RequestHold) -> PoolView {
        let before = self.workers[hold.worker as int];
        let closed = match hold.session {
            Some(class) => before.session_returned(class),
            None => before,
        };
        PoolView {
            workers: self.workers.update(hold.worker as int, closed.unloaded(hold.weight)),
            admission: match hold.admission {
                Some(admission) => self.admission.lease_returned(admission),
                None => self.admission.envelope_returned(),
            },
            ..self
        }
    }

    /// After a health was published.
    pub open spec fn with_health(
        self,
        worker: int,
        health: WorkerHealth,
    ) -> PoolView {
        PoolView {
            workers: self.workers.update(worker, WorkerState { health, ..self.workers[worker] }),
            ..self
        }
    }

    /// After the pool began to drain.
    pub open spec fn drained(self) -> PoolView {
        PoolView {
            admission: AdmissionView {
                global: PermitView { closed: true, ..self.admission.global },
                ..self.admission
            },
            ..self
        }
    }

    /// Some worker of the trust domain takes requests for the service.
    pub open spec fn ready_for(self, trust: Seq<char>, service: ServiceClass) -> bool {
        exists|i: int|
            0 <= i < self.roster.len() && (#[trigger] self.roster[i]).trust == trust
                && self.workers[i].routable() && self.roster[i].offers(service)
    }

    /// Some worker of the trust domain takes batches of the size, whatever its health.
    pub open spec fn takes_batch(self, trust: Seq<char>, size: u32) -> bool {
        exists|i: int|
            0 <= i < self.roster.len() && (#[trigger] self.roster[i]).trust == trust && takes_batch(
                self.roster[i].profiles,
                size,
            )
    }
}

/// Some row takes batches of the size.
pub open spec fn takes_batch(rows: Seq<ServiceProfile>, size: u32) -> bool {
    exists|i: int|
        0 <= i < rows.len() && (match #[trigger] rows[i] {
            ServiceProfile::SpeechBatch { max_batch_size, .. } => max_batch_size >= size,
            _ => false,
        })
}

/// Among marked workers of the roster some are contenders, and every contender is marked.
pub proof fn lemma_contenders(pool: PoolView, marked: Seq<bool>)
    requires
        any(marked),
        marked.len() == MAX_WORKERS,
    ensures
        any(pool.contenders(marked)),
        pool.contenders(marked).len() == MAX_WORKERS,
        forall|w: int|
            0 <= w < MAX_WORKERS && #[trigger] pool.contenders(marked)[w] ==> marked[w],
{
    if pool.strategy is LeastRequests {
        let w = lemma_least_marked(pool, marked, MAX_WORKERS as nat);
        assert(pool.contenders(marked)[w]);
    }
}

/// Some marked worker has the least load among those below `count`.
proof fn lemma_least_marked(pool: PoolView, marked: Seq<bool>, count: nat) -> (least: int)
    requires
        count <= marked.len(),
        exists|i: int| 0 <= i < count && #[trigger] marked[i],
    ensures
        0 <= least < count,
        marked[least],
        forall|j: int|
            0 <= j < count && #[trigger] marked[j] ==> pool.workers[least].load
                <= pool.workers[j].load,
    decreases count,
{
    let last = (count - 1) as nat;
    if exists|i: int| 0 <= i < last && #[trigger] marked[i] {
        let among = lemma_least_marked(pool, marked, last);
        if marked[last as int] && pool.workers[last as int].load < pool.workers[among].load {
            last as int
        } else {
            among
        }
    } else {
        last as int
    }
}

} // verus!
