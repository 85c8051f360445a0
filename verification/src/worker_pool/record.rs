//! One registered worker.

use vstd::prelude::*;

use crate::text::{borrow_text, string_of, text_of};
use crate::worker_pool::health::{AtomicHealth, WorkerHealth};
use crate::worker_pool::permits::{PermitPool, PermitView};
use crate::worker_pool::profile::{
    CapacityClass, RegistrationId, RouteRequirement, ServiceClass, ServiceProfile, TrustDomain,
    VoiceNamePolicy, WorkerConfig, WorkerId,
};
use crate::worker_pool::resolver::ResolvedTarget;

verus! {

/// The number of classes whose sessions are limited per worker.
pub const SESSION_CLASS_COUNT: usize = 2;

/// The classes whose sessions are limited per worker, in the order of their limits.
pub open spec fn session_classes() -> Seq<CapacityClass> {
    seq![CapacityClass::SpeechWebsocket, CapacityClass::RealtimeWebsocket]
}

/// The place of a session class among the per-worker limits.
pub open spec fn session_slot(class: CapacityClass) -> Option<usize> {
    match class {
        CapacityClass::SpeechWebsocket => Some(0),
        CapacityClass::RealtimeWebsocket => Some(1),
        _ => None,
    }
}

pub fn session_capacity_index(class: CapacityClass) -> (index: Option<usize>)
    ensures
        index == session_slot(class),
        index is Some ==> index->Some_0 < SESSION_CLASS_COUNT
            && session_classes()[index->Some_0 as int] == class,
{
    match class {
        CapacityClass::SpeechWebsocket => Some(0),
        CapacityClass::RealtimeWebsocket => Some(1),
        CapacityClass::GenerationHttp => None,
        CapacityClass::SpeechHttp => None,
        CapacityClass::SpeechBatch => None,
        CapacityClass::TranscriptionHttp => None,
    }
}

/// What is fixed about a worker at startup.
pub struct Registration {
    pub worker_id: Seq<char>,
    pub default: Option<Seq<char>>,
    pub base: Seq<char>,
    pub health_url: Seq<char>,
    pub trust: Seq<char>,
    pub profiles: Seq<ServiceProfile>,
}

impl Registration {
    /// Row `row` of the worker serves the request, all of it.
    pub open spec fn row_serves(self, requirement: RouteRequirement, row: int) -> bool {
        &&& 0 <= row < self.profiles.len()
        &&& self.profiles[row].serves(&requirement.needs(), self.default)
    }

    /// Some single row of the worker serves the request, whatever its trust domain.
    pub open spec fn fits(self, requirement: RouteRequirement) -> bool {
        exists|row: int| #[trigger] self.row_serves(requirement, row)
    }

    /// The worker is in the trust domain of the request, and serves it.
    pub open spec fn serves(self, requirement: RouteRequirement) -> bool {
        self.trust == requirement.domain() && self.fits(requirement)
    }

    /// The request names a voice, and a row that serves it reads the name so.
    pub open spec fn reads_voice(self, requirement: RouteRequirement, policy: VoiceNamePolicy) -> bool {
        &&& requirement.needs().names_voice()
        &&& exists|row: int| #[trigger]
            self.row_serves(requirement, row) && self.profiles[row].policy() == Some(policy)
    }

    /// Some row of the worker advertises the service.
    pub open spec fn offers(self, service: ServiceClass) -> bool {
        exists|row: int|
            0 <= row < self.profiles.len() && (#[trigger] self.profiles[row]).service() == service
    }
}

/// What changes about a worker while the router runs.
#[verifier::ext_equal]
pub struct WorkerState {
    pub load: usize,
    pub sessions: Seq<Option<PermitView>>,
    pub health: WorkerHealth,
}

impl WorkerState {
    /// Session pools keep their limits and never close.
    pub open spec fn wf(self) -> bool {
        &&& self.sessions.len() == SESSION_CLASS_COUNT
        &&& forall|i: int|
            0 <= i < SESSION_CLASS_COUNT && (#[trigger] self.sessions[i]) is Some ==> {
                &&& self.sessions[i]->Some_0.wf()
                &&& !self.sessions[i]->Some_0.closed
            }
    }

    /// The worker takes new requests.
    pub open spec fn routable(self) -> bool {
        self.health is Healthy
    }

    /// The sessions of a class on the worker, if they are limited.
    pub open spec fn session_pool(self, class: CapacityClass) -> Option<PermitView> {
        match session_slot(class) {
            Some(index) => self.sessions[index as int],
            None => None,
        }
    }

    /// The worker has room for one more session of the class.
    pub open spec fn has_session_room(self, class: CapacityClass) -> bool {
        self.session_pool(class) is Some && self.session_pool(class)->Some_0.available > 0
    }

    /// After a request was added to the load. The counter wraps.
    pub open spec fn loaded(self, weight: usize) -> WorkerState {
        WorkerState { load: self.load.wrapping_add(weight), ..self }
    }

    /// After a request left the load. Less than it added is never taken away.
    pub open spec fn unloaded(self, weight: usize) -> WorkerState {
        if weight <= self.load {
            WorkerState { load: (self.load - weight) as usize, ..self }
        } else {
            self
        }
    }

    /// After a session of the class was opened.
    pub open spec fn session_taken(self, class: CapacityClass) -> WorkerState {
        let index = session_slot(class)->Some_0 as int;
        WorkerState {
            sessions: self.sessions.update(index, Some(self.sessions[index]->Some_0.taken(1))),
            ..self
        }
    }

    /// After a session of the class was closed.
    pub open spec fn session_returned(self, class: CapacityClass) -> WorkerState {
        if self.session_pool(class) is Some {
            let index = session_slot(class)->Some_0 as int;
            WorkerState {
                sessions: self.sessions.update(
                    index,
                    Some(self.sessions[index]->Some_0.returned(1)),
                ),
                ..self
            }
        } else {
            self
        }
    }
}

/// The voice policies of a set, as bits.
pub open spec fn policy_bits(preset: bool, uploaded: bool) -> u8 {
    match (preset, uploaded) {
        (false, false) => 0,
        (true, false) => 1,
        (false, true) => 2,
        (true, true) => 3,
    }
}

/// The union of two sets of voice policies.
pub fn join_policies(left: u8, right: u8) -> (joined: u8)
    ensures
        forall|a: bool, b: bool, c: bool, d: bool|
            left == #[trigger] policy_bits(a, b) && right == #[trigger] policy_bits(c, d) ==> joined
                == policy_bits(a || c, b || d),
{
    assert(0u8 | 0 == 0 && 0u8 | 1 == 1 && 0u8 | 2 == 2 && 0u8 | 3 == 3 && 1u8 | 0 == 1 && 1u8 | 1
        == 1 && 1u8 | 2 == 3 && 1u8 | 3 == 3 && 2u8 | 0 == 2 && 2u8 | 1 == 3 && 2u8 | 2 == 2 && 2u8
        | 3 == 3 && 3u8 | 0 == 3 && 3u8 | 1 == 3 && 3u8 | 2 == 3 && 3u8 | 3 == 3) by (bit_vector);
    left | right
}

/// The state of each session pool.
pub open spec fn session_views(sessions: Seq<Option<PermitPool>>) -> Seq<Option<PermitView>> {
    Seq::new(
        sessions.len(),
        |i: int|
            match sessions[i] {
                Some(pool) => Some(pool@),
                None => None,
            },
    )
}

/// One static startup registration with independently updated health and load.
pub struct WorkerRecord {
    worker_id: WorkerId,
    default_model_id: Option<String>,
    registration_id: RegistrationId,
    target: ResolvedTarget,
    trust_domain: TrustDomain,
    profiles: Vec<ServiceProfile>,
    active_requests: usize,
    session_capacity: Vec<Option<PermitPool>>,
    health: AtomicHealth,
}

impl WorkerRecord {
    /// What is fixed about the worker.
    pub closed spec fn registration(&self) -> Registration {
        Registration {
            worker_id: self.worker_id@,
            default: string_of(self.default_model_id),
            base: self.target.base(),
            health_url: self.target.health(),
            trust: self.trust_domain@,
            profiles: self.profiles@,
        }
    }

    /// The worker's place in the startup configuration.
    pub closed spec fn ordinal(&self) -> int {
        self.registration_id@
    }

    /// What changes about the worker.
    pub closed spec fn state(&self) -> WorkerState {
        WorkerState {
            load: self.active_requests,
            sessions: session_views(self.session_capacity@),
            health: self.health@,
        }
    }

    pub open spec fn wf(&self) -> bool {
        self.state().wf()
    }

    /// Nothing but the state differs between the two.
    pub open spec fn same_registration(&self, other: &WorkerRecord) -> bool {
        self.registration() == other.registration() && self.ordinal() == other.ordinal()
    }

    /// A worker as it starts: of unknown health and without load.
    pub fn new(
        worker: WorkerConfig,
        ordinal: usize,
        target: ResolvedTarget,
        speech_sessions: Option<PermitPool>,
        realtime_sessions: Option<PermitPool>,
    ) -> (record: Self)
        requires
            speech_sessions is Some ==> speech_sessions->Some_0.wf()
                && !speech_sessions->Some_0@.closed,
            realtime_sessions is Some ==> realtime_sessions->Some_0.wf()
                && !realtime_sessions->Some_0@.closed,
        ensures
            record.wf(),
            record.ordinal() == ordinal,
            record.registration() == (Registration {
                worker_id: worker.worker_id@,
                default: string_of(worker.default_model_id),
                base: target.base(),
                health_url: target.health(),
                trust: worker.trust_domain@,
                profiles: worker.service_profiles@,
            }),
            record.state() == (WorkerState {
                load: 0,
                sessions: session_views(seq![speech_sessions, realtime_sessions]),
                health: WorkerHealth::Unknown,
            }),
    {
        let ghost sessions = seq![speech_sessions, realtime_sessions];
        let mut session_capacity: Vec<Option<PermitPool>> = Vec::new();
        session_capacity.push(speech_sessions);
        session_capacity.push(realtime_sessions);
        assert(session_capacity@ =~= sessions);
        WorkerRecord {
            worker_id: WorkerId::new(worker.worker_id),
            default_model_id: worker.default_model_id,
            registration_id: RegistrationId::from_startup_ordinal(ordinal),
            target,
            trust_domain: TrustDomain::new(worker.trust_domain),
            profiles: worker.service_profiles,
            active_requests: 0,
            session_capacity,
            health: AtomicHealth::unknown(),
        }
    }

    /// Whether some row serves the request, and how the rows that serve it
    /// read a voice name, if the request has one.
    pub fn profile_match(&self, requirement: &RouteRequirement) -> (found: (bool, u8))
        ensures
            found.0 == self.registration().fits(*requirement),
            found.1 == policy_bits(
                self.registration().reads_voice(*requirement, VoiceNamePolicy::Preset),
                self.registration().reads_voice(*requirement, VoiceNamePolicy::Uploaded),
            ),
    {
        let ghost registration = self.registration();
        let needs = requirement.profile();
        let default = borrow_text(&self.default_model_id);
        let named = needs.has_named_voice();
        let mut matched = false;
        let mut voice_policies: u8 = 0;
        let ghost mut preset = false;
        let ghost mut uploaded = false;
        let mut row: usize = 0;
        while row < self.profiles.len()
            invariant
                row <= self.profiles@.len(),
                registration == self.registration(),
                registration.profiles == self.profiles@,
                *needs == requirement.needs(),
                text_of(default) == registration.default,
                named == requirement.needs().names_voice(),
                matched == exists|k: int| k < row && #[trigger] registration.row_serves(*requirement, k),
                preset == (named && exists|k: int|
                    k < row && #[trigger] registration.row_serves(*requirement, k)
                        && registration.profiles[k].policy() == Some(VoiceNamePolicy::Preset)),
                uploaded == (named && exists|k: int|
                    k < row && #[trigger] registration.row_serves(*requirement, k)
                        && registration.profiles[k].policy() == Some(VoiceNamePolicy::Uploaded)),
                voice_policies == policy_bits(preset, uploaded),
            decreases self.profiles@.len() - row,
        {
            let serves = self.profiles[row].matches(needs, default);
            assert(serves == registration.row_serves(*requirement, row as int));
            if serves {
                matched = true;
                if named {
                    if let Some(policy) = self.profiles[row].voice_name_policy() {
                        let bit: u8 = policy.bit();
                        assert(bit == policy_bits(policy is Preset, policy is Uploaded));
                        voice_policies = join_policies(voice_policies, bit);
                        proof {
                            preset = preset || policy is Preset;
                            uploaded = uploaded || policy is Uploaded;
                        }
                    }
                }
            }
            row += 1;
        }
        (matched, voice_policies)
    }

    /// Whether some row advertises the service.
    pub fn offers_service(&self, service: ServiceClass) -> (outcome: bool)
        ensures
            outcome == self.registration().offers(service),
    {
        let mut row: usize = 0;
        while row < self.profiles.len()
            invariant
                row <= self.profiles@.len(),
                forall|k: int|
                    0 <= k < row ==> (#[trigger] self.registration().profiles[k]).service()
                        != service,
            decreases self.profiles@.len() - row,
        {
            if self.profiles[row].service_class() == service {
                assert(self.registration().profiles[row as int].service() == service);
                return true;
            }
            row += 1;
        }
        false
    }

    pub fn is_routable(&self) -> (outcome: bool)
        ensures
            outcome == self.state().routable(),
    {
        self.health.load() == WorkerHealth::Healthy
    }

    pub fn health(&self) -> (health: WorkerHealth)
        ensures
            health == self.state().health,
    {
        self.health.load()
    }

    /// Publishes a health.
    pub fn set_health(&mut self, health: WorkerHealth)
        requires
            old(self).wf(),
        ensures
            final(self).wf(),
            final(self).same_registration(old(self)),
            final(self).state() == (WorkerState { health, ..old(self).state() }),
    {
        self.health.store(health);
    }

    pub fn load(&self) -> (load: usize)
        ensures
            load == self.state().load,
    {
        self.active_requests
    }

    pub fn increment_load(&mut self, weight: usize)
        requires
            old(self).wf(),
        ensures
            final(self).wf(),
            final(self).same_registration(old(self)),
            final(self).state() == old(self).state().loaded(weight),
    {
        self.active_requests = self.active_requests.wrapping_add(weight);
    }

    pub fn decrement_load(&mut self, weight: usize)
        requires
            old(self).wf(),
        ensures
            final(self).wf(),
            final(self).same_registration(old(self)),
            final(self).state() == old(self).state().unloaded(weight),
    {
        if let Some(rest) = self.active_requests.checked_sub(weight) {
            self.active_requests = rest;
        }
    }

    /// The pool of sessions of a class, if they are limited.
    pub fn session_capacity(&self, class: CapacityClass) -> (pool: Option<&PermitPool>)
        requires
            self.wf(),
        ensures
            match pool {
                Some(pool) => self.state().session_pool(class) == Some(pool@) && pool.wf(),
                None => self.state().session_pool(class) is None,
            },
    {
        match session_capacity_index(class) {
            Some(index) => {
                assert(self.state().sessions[index as int] == session_views(
                    self.session_capacity@,
                )[index as int]);
                match &self.session_capacity[index] {
                    Some(pool) => Some(pool),
                    None => None,
                }
            },
            None => None,
        }
    }

    /// Opens a session of the class, if the worker has room for it.
    pub fn try_open_session(&mut self, class: CapacityClass) -> (opened: bool)
        requires
            old(self).wf(),
        ensures
            final(self).wf(),
            final(self).same_registration(old(self)),
            opened == old(self).state().has_session_room(class),
            final(self).state() == (if opened {
                old(self).state().session_taken(class)
            } else {
                old(self).state()
            }),
    {
        let ghost before = self.state();
        match session_capacity_index(class) {
            Some(index) => {
                assert(before.sessions[index as int] == session_views(
                    self.session_capacity@,
                )[index as int]);
                let mut slot: Option<PermitPool> = None;
                std::mem::swap(&mut slot, &mut self.session_capacity[index]);
                let opened = match &mut slot {
                    Some(pool) => match pool.try_acquire(1) {
                        Ok(_) => true,
                        Err(_) => false,
                    },
                    None => false,
                };
                self.session_capacity[index] = slot;
                assert(self.state().sessions =~= (if opened {
                    before.session_taken(class).sessions
                } else {
                    before.sessions
                }));
                opened
            },
            None => false,
        }
    }

    /// Closes a session of the class.
    pub fn close_session(&mut self, class: CapacityClass)
        requires
            old(self).wf(),
        ensures
            final(self).wf(),
            final(self).same_registration(old(self)),
            final(self).state() == old(self).state().session_returned(class),
    {
        let ghost before = self.state();
        if let Some(index) = session_capacity_index(class) {
            assert(before.sessions[index as int] == session_views(
                self.session_capacity@,
            )[index as int]);
            let mut slot: Option<PermitPool> = None;
            std::mem::swap(&mut slot, &mut self.session_capacity[index]);
            if let Some(pool) = &mut slot {
                pool.release(1);
            }
            self.session_capacity[index] = slot;
            assert(self.state().sessions =~= before.session_returned(class).sessions);
        }
    }

    pub fn worker_id(&self) -> (text: &str)
        ensures
            text@ == self.registration().worker_id,
    {
        self.worker_id.as_str()
    }

    pub fn registration_ordinal(&self) -> (ordinal: usize)
        ensures
            ordinal == self.ordinal(),
    {
        self.registration_id.startup_ordinal()
    }

    pub fn default_model_id(&self) -> (model: Option<&str>)
        ensures
            text_of(model) == self.registration().default,
    {
        borrow_text(&self.default_model_id)
    }

    pub fn target(&self) -> (target: &ResolvedTarget)
        ensures
            target.base() == self.registration().base,
            target.health() == self.registration().health_url,
    {
        &self.target
    }

    pub fn trust_domain(&self) -> (domain: &TrustDomain)
        ensures
            domain@ == self.registration().trust,
    {
        &self.trust_domain
    }

    pub fn profiles(&self) -> (rows: &[ServiceProfile])
        ensures
            rows@ == self.registration().profiles,
    {
        self.profiles.as_slice()
    }
}

} // verus!
