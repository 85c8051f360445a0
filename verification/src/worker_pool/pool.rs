//! The worker pool.

use vstd::prelude::*;

use crate::config::{HttpMediaRoute, RoutingStrategy};
use crate::text::{same_optional_text, text_of, Item};
use crate::worker_pool::admission::{
    AdmissionController, AdmissionError, AdmissionHold, AdmissionLease, DispatchError,
    EnvelopeLease,
};
use crate::worker_pool::cohorts::{
    belongs, build_content_blind_generation_cohorts, build_content_blind_media_cohorts,
    content_blind, generation_domains, generation_key, homogeneous, is_member, lists_domain,
    lists_media, media_keys, members, roster_of, CohortKey, HomogeneousGenerationCohort,
    HomogeneousMediaCohort,
};
use crate::worker_pool::health::{ProbeTracker, WorkerHealth};
use crate::worker_pool::profile::{
    CapacityClass, RouteRequirement, ServiceClass, SpeechToTextTask, TrustDomain, VoiceNamePolicy,
    MAX_WORKERS,
};
use crate::worker_pool::record::{
    join_policies, policy_bits, session_capacity_index, WorkerRecord, WorkerState,
};
use crate::worker_pool::routing::{any, lemma_contenders, Decision, PoolView, RequestHold};
use crate::worker_pool::selection::{lemma_candidate_has_turn, lemma_first_candidate, Selector};

verus! {

/// How a dispatched request was admitted.
#[derive(Debug)]
enum Ingress {
    Admission(AdmissionLease),
    Envelope(EnvelopeLease),
}

/// Admission and weighted worker load retained through response termination.
#[derive(Debug)]
pub struct RequestLease {
    ingress: Ingress,
    session: Option<CapacityClass>,
    worker: usize,
    weight: usize,
}

impl View for RequestLease {
    type V = RequestHold;

    closed spec fn view(&self) -> RequestHold {
        RequestHold {
            admission: match self.ingress {
                Ingress::Admission(lease) => Some(lease@),
                Ingress::Envelope(_) => None,
            },
            worker: self.worker,
            weight: self.weight,
            session: self.session,
        }
    }
}

impl RequestLease {
    /// The place of the worker in the startup configuration.
    pub fn registration_ordinal(&self) -> (ordinal: usize)
        ensures
            ordinal == self@.worker,
    {
        self.worker
    }
}

/// What is dynamic about each worker.
pub open spec fn states_of(records: Seq<WorkerRecord>) -> Seq<WorkerState> {
    Seq::new(records.len(), |i: int| records[i].state())
}

/// The workers that serve a request, and how they read its voice name.
pub struct ProfileMatches {
    pub workers: [bool; MAX_WORKERS],
    pub any: bool,
    pub voice_policy: Option<VoiceNamePolicy>,
}

/// Static-membership worker pool with bounded admission, deterministic policy
/// state, and independently owned health and weighted load.
pub struct WorkerPool {
    records: Vec<WorkerRecord>,
    voice_owner: Option<usize>,
    admission: AdmissionController,
    selector: Selector,
    homogeneous_generation_http: Vec<HomogeneousGenerationCohort>,
    homogeneous_media_http: Vec<HomogeneousMediaCohort>,
}

impl View for WorkerPool {
    type V = PoolView;

    closed spec fn view(&self) -> PoolView {
        PoolView {
            roster: roster_of(self.records@),
            strategy: self.selector.rule(),
            voice_owner: self.voice_owner,
            workers: states_of(self.records@),
            admission: self.admission@,
            order: self.selector.order(),
        }
    }
}

/// The key of an endpoint in a trust domain.
pub open spec fn media_key(trust: Seq<char>, route: HttpMediaRoute) -> CohortKey {
    CohortKey { trust, service: route.service(), task: route.task() }
}

/// Startup proof that chat body inspection cannot change the route cohort.
#[derive(Debug)]
pub struct ContentBlindGenerationHttp {
    trust: TrustDomain,
}

impl View for ContentBlindGenerationHttp {
    type V = CohortKey;

    closed spec fn view(&self) -> CohortKey {
        generation_key(self.trust@)
    }
}

impl ContentBlindGenerationHttp {
    /// Hands an admitted request to a member of the cohort.
    pub fn dispatch(self, pool: &mut WorkerPool, admission: AdmissionLease) -> (outcome: Result<
        RequestLease,
        DispatchError,
    >)
        requires
            old(pool).wf(),
        ensures
            final(pool).wf(),
            dispatched(
                old(pool)@,
                admission@,
                None,
                old(pool)@.choose_among(members(old(pool)@.roster, self@)),
                outcome,
                final(pool)@,
            ),
    {
        let marked = pool.mark_members(&self.trust, ServiceClass::GenerationHttp, None);
        pool.dispatch_matching(admission, true, &marked)
    }
}

/// Startup proof that inspection of a media request cannot change the route cohort.
#[derive(Debug)]
pub struct ContentBlindMediaHttp {
    cohort: HomogeneousMediaCohort,
}

impl View for ContentBlindMediaHttp {
    type V = CohortKey;

    closed spec fn view(&self) -> CohortKey {
        self.cohort@
    }
}

impl ContentBlindMediaHttp {
    /// Hands an admitted request to a member of the cohort.
    pub fn dispatch(self, pool: &mut WorkerPool, admission: AdmissionLease) -> (outcome: Result<
        RequestLease,
        DispatchError,
    >)
        requires
            old(pool).wf(),
        ensures
            final(pool).wf(),
            dispatched(
                old(pool)@,
                admission@,
                None,
                old(pool)@.choose_among(members(old(pool)@.roster, self@)),
                outcome,
                final(pool)@,
            ),
    {
        let marked = pool.mark_members(
            &self.cohort.trust_domain,
            self.cohort.service,
            self.cohort.task,
        );
        pool.dispatch_matching(admission, true, &marked)
    }
}

/// A table of marks, one for each of the given workers.
pub fn candidate_set(indices: &[usize]) -> (candidates: [bool; MAX_WORKERS])
    requires
        forall|i: int| 0 <= i < indices@.len() ==> (#[trigger] indices@[i]) < MAX_WORKERS,
    ensures
        forall|w: int|
            0 <= w < MAX_WORKERS ==> #[trigger] candidates@[w] == indices@.contains(w as usize),
{
    let mut candidates: [bool; MAX_WORKERS] = [false;MAX_WORKERS];
    let mut i: usize = 0;
    while i < indices.len()
        invariant
            i <= indices@.len(),
            forall|k: int| 0 <= k < indices@.len() ==> (#[trigger] indices@[k]) < MAX_WORKERS,
            candidates@.len() == MAX_WORKERS,
            forall|w: int|
                0 <= w < MAX_WORKERS ==> #[trigger] candidates@[w] == exists|k: int|
                    0 <= k < i && #[trigger] indices@[k] == w,
        decreases indices@.len() - i,
    {
        let index: usize = indices[i];
        candidates[index] = true;
        i += 1;
    }
    assert forall|w: int| 0 <= w < MAX_WORKERS implies #[trigger] candidates@[w]
        == indices@.contains(w as usize) by {
        if candidates@[w] {
            let k = choose|k: int| 0 <= k < i && #[trigger] indices@[k] == w;
            assert(indices@[k] == w as usize);
        }
    }
    candidates
}

impl WorkerPool {
    /// The records are in startup order, and the pool knows its content-blind cohorts.
    pub closed spec fn is_indexed(&self) -> bool {
        &&& forall|i: int|
            0 <= i < self.records@.len() ==> (#[trigger] self.records@[i]).ordinal() == i
        &&& self.selector.wf()
        &&& forall|trust: Seq<char>| #[trigger]
            generation_domains(self.homogeneous_generation_http@).contains(trust) <==> homogeneous(
                self@.roster,
                generation_key(trust),
            )
        &&& forall|key: CohortKey| #[trigger]
            media_keys(self.homogeneous_media_http@).contains(key) <==> content_blind(
                self@.roster,
                self@.voice_owner,
                key,
            )
    }

    /// The pool is consistent.
    pub open spec fn wf(&self) -> bool {
        self@.wf() && self.is_indexed()
    }

    /// A pool of the given workers.
    pub fn from_records(
        records: Vec<WorkerRecord>,
        voice_owner: Option<usize>,
        admission: AdmissionController,
        strategy: RoutingStrategy,
    ) -> (pool: Self)
        requires
            records@.len() <= MAX_WORKERS,
            forall|i: int|
                0 <= i < records@.len() ==> (#[trigger] records@[i]).wf() && records@[i].ordinal()
                    == i,
            voice_owner is Some ==> voice_owner->Some_0 < records@.len(),
            admission.wf(),
        ensures
            pool.wf(),
            pool@ == (PoolView {
                roster: roster_of(records@),
                strategy,
                voice_owner,
                workers: states_of(records@),
                admission: admission@,
                order: Seq::new(records@.len(), |i: int| i as usize),
            }),
    {
        let homogeneous_generation_http = build_content_blind_generation_cohorts(
            records.as_slice(),
        );
        let homogeneous_media_http = build_content_blind_media_cohorts(
            records.as_slice(),
            voice_owner,
        );
        let selector = Selector::new(strategy, records.len());
        WorkerPool {
            records,
            voice_owner,
            admission,
            selector,
            homogeneous_generation_http,
            homogeneous_media_http,
        }
    }

    pub fn try_admit(&mut self, class: CapacityClass, credits: u32) -> (outcome: Result<
        AdmissionLease,
        AdmissionError,
    >)
        requires
            old(self).wf(),
        ensures
            final(self).wf(),
            ({
                let hold = AdmissionHold { class, credits: credits as nat };
                let before = old(self)@.admission;
                match before.envelope_refusal() {
                    Some(error) => {
                        &&& outcome is Err
                        &&& outcome->Err_0 == error
                        &&& final(self)@ == old(self)@
                    },
                    None => if before.class_admits(hold) {
                        &&& outcome is Ok
                        &&& outcome->Ok_0@ == hold
                        &&& final(self)@ == (PoolView {
                            admission: before.envelope_taken().class_taken(hold),
                            ..old(self)@
                        })
                    } else {
                        &&& outcome is Err
                        &&& outcome->Err_0 is Overloaded
                        &&& final(self)@ == old(self)@
                    },
                }
            }),
    {
        self.admission.try_admit(class, credits)
    }

    pub fn try_admit_envelope(&mut self) -> (outcome: Result<EnvelopeLease, AdmissionError>)
        requires
            old(self).wf(),
        ensures
            final(self).wf(),
            match old(self)@.admission.envelope_refusal() {
                Some(error) => {
                    &&& outcome is Err
                    &&& outcome->Err_0 == error
                    &&& final(self)@ == old(self)@
                },
                None => {
                    &&& outcome is Ok
                    &&& final(self)@ == (PoolView {
                        admission: old(self)@.admission.envelope_taken(),
                        ..old(self)@
                    })
                },
            },
    {
        self.admission.try_admit_envelope()
    }

    pub fn try_admit_class(
        &mut self,
        envelope: EnvelopeLease,
        class: CapacityClass,
        credits: u32,
    ) -> (outcome: Result<AdmissionLease, AdmissionError>)
        requires
            old(self).wf(),
        ensures
            final(self).wf(),
            ({
                let hold = AdmissionHold { class, credits: credits as nat };
                if old(self)@.admission.class_admits(hold) {
                    &&& outcome is Ok
                    &&& outcome->Ok_0@ == hold
                    &&& final(self)@ == (PoolView {
                        admission: old(self)@.admission.class_taken(hold),
                        ..old(self)@
                    })
                } else {
                    &&& outcome is Err
                    &&& outcome->Err_0 is Overloaded
                    &&& final(self)@ == old(self)@.envelope_returned()
                }
            }),
    {
        self.admission.try_admit_class(envelope, class, credits)
    }

    /// Gives back what a request held that was admitted and never dispatched.
    pub fn release_admission(&mut self, lease: AdmissionLease)
        requires
            old(self).wf(),
        ensures
            final(self).wf(),
            final(self)@ == old(self)@.admission_returned(lease@),
    {
        self.admission.release(lease);
    }

    /// Gives back a place in the envelope.
    pub fn release_envelope(&mut self, envelope: EnvelopeLease)
        requires
            old(self).wf(),
        ensures
            final(self).wf(),
            final(self)@ == old(self)@.envelope_returned(),
    {
        self.admission.release_envelope(envelope);
    }

    /// Refuses every further request; admitted requests are untouched.
    pub fn drain(&mut self)
        requires
            old(self).wf(),
        ensures
            final(self).wf(),
            final(self)@ == old(self)@.drained(),
    {
        self.admission.close();
    }

    pub fn voice_state_enabled(&self) -> (outcome: bool)
        ensures
            outcome == (self@.voice_owner is Some),
    {
        self.voice_owner.is_some()
    }

    pub fn voice_owner_ready(&self) -> (outcome: bool)
        requires
            self.wf(),
        ensures
            outcome == (self@.voice_owner is Some
                ==> self@.workers[self@.voice_owner->Some_0 as int].routable()),
    {
        match self.voice_owner {
            Some(owner) => self.records[owner].is_routable(),
            None => true,
        }
    }

    /// The admission state.
    pub fn admission(&self) -> (admission: &AdmissionController)
        requires
            self.wf(),
        ensures
            admission@ == self@.admission,
            admission.wf(),
    {
        &self.admission
    }

    /// Whether chat requests of the trust domain can be routed without reading
    /// them, and the right to do so.
    pub fn content_blind_generation_http(&self, trust: &TrustDomain) -> (proof_of: Option<
        ContentBlindGenerationHttp,
    >)
        requires
            self.wf(),
        ensures
            proof_of is Some <==> homogeneous(self@.roster, generation_key(trust@)),
            proof_of is Some ==> proof_of->Some_0@ == generation_key(trust@),
    {
        if lists_domain(self.homogeneous_generation_http.as_slice(), trust) {
            Some(ContentBlindGenerationHttp { trust: trust.duplicate() })
        } else {
            None
        }
    }

    /// Whether requests of the endpoint can be routed without reading them, in
    /// the trust domain, and the right to do so.
    pub fn content_blind_media_http(&self, trust: &TrustDomain, route: HttpMediaRoute) -> (proof_of:
        Option<ContentBlindMediaHttp>)
        requires
            self.wf(),
        ensures
            proof_of is Some <==> content_blind(
                self@.roster,
                self@.voice_owner,
                media_key(trust@, route),
            ),
            proof_of is Some ==> proof_of->Some_0@ == media_key(trust@, route),
    {
        let service = route.service_class();
        let task = route.speech_to_text_task();
        if lists_media(self.homogeneous_media_http.as_slice(), trust, service, task) {
            Some(
                ContentBlindMediaHttp {
                    cohort: HomogeneousMediaCohort {
                        trust_domain: trust.duplicate(),
                        service,
                        task,
                    },
                },
            )
        } else {
            None
        }
    }

    /// The number of registered workers.
    pub fn worker_count(&self) -> (count: usize)
        ensures
            count == self@.roster.len(),
    {
        self.records.len()
    }

    /// The worker with the given place in the startup configuration.
    pub fn record(&self, ordinal: usize) -> (record: &WorkerRecord)
        requires
            self.wf(),
            ordinal < self@.roster.len(),
        ensures
            record.registration() == self@.roster[ordinal as int],
            record.state() == self@.workers[ordinal as int],
            record.wf(),
    {
        assert(self@.workers[ordinal as int].wf());
        &self.records[ordinal]
    }

    /// Publishes the health of a worker; says whether it changed.
    pub fn publish_health(&mut self, ordinal: usize, health: WorkerHealth) -> (changed: bool)
        requires
            old(self).wf(),
            ordinal < old(self)@.roster.len(),
        ensures
            final(self).wf(),
            final(self)@ == old(self)@.with_health(ordinal as int, health),
            changed == (old(self)@.workers[ordinal as int].health != health),
    {
        let ghost before = self@;
        assert(before.workers[ordinal as int].wf());
        let previous = self.records[ordinal].health();
        self.records[ordinal].set_health(health);
        assert(self@.roster =~= before.roster);
        assert(self@.workers =~= before.with_health(ordinal as int, health).workers);
        previous != health
    }

    /// Takes note of a probe of a worker and publishes the health that follows;
    /// gives it if it changed.
    pub fn observe_probe(&mut self, ordinal: usize, tracker: &mut ProbeTracker, success: bool) -> (changed:
        Option<WorkerHealth>)
        requires
            old(self).wf(),
            ordinal < old(self)@.roster.len(),
        ensures
            final(self).wf(),
            final(tracker)@ == old(tracker)@.observed(success),
            final(self)@ == old(self)@.with_health(ordinal as int, final(tracker)@.state),
            changed == (if old(self)@.workers[ordinal as int].health != final(tracker)@.state {
                Some(final(tracker)@.state)
            } else {
                None
            }),
    {
        let next = tracker.observe(success);
        if self.publish_health(ordinal, next) {
            Some(next)
        } else {
            None
        }
    }
}

impl WorkerPool {
    /// The workers that serve the request. Fails where they read its voice
    /// name differently.
    pub fn matching_profiles(&self, requirement: &RouteRequirement) -> (outcome: Result<
        ProfileMatches,
        DispatchError,
    >)
        requires
            self.wf(),
        ensures
            match outcome {
                Ok(found) => {
                    &&& found.workers@ == self@.serving(*requirement)
                    &&& found.any == any(self@.serving(*requirement))
                    &&& self@.voice_reading(*requirement) == Some(found.voice_policy)
                },
                Err(error) => error is AmbiguousModel && self@.voice_reading(*requirement) is None,
            },
    {
        let ghost pool = self@;
        let mut workers: [bool; MAX_WORKERS] = [false;MAX_WORKERS];
        let mut found = false;
        let mut voice_policies: u8 = 0;
        let ghost mut preset = false;
        let ghost mut uploaded = false;
        let mut index: usize = 0;
        while index < self.records.len()
            invariant
                index <= self.records@.len(),
                self.wf(),
                pool == self@,
                workers@.len() == MAX_WORKERS,
                forall|i: int|
                    0 <= i < MAX_WORKERS ==> #[trigger] workers@[i] == (i < index
                        && pool.roster[i].serves(*requirement)),
                found == exists|i: int| 0 <= i < index && #[trigger] pool.roster[i].serves(*requirement),
                preset == exists|i: int|
                    0 <= i < index && (#[trigger] pool.roster[i]).trust == requirement.domain()
                        && pool.roster[i].reads_voice(*requirement, VoiceNamePolicy::Preset),
                uploaded == exists|i: int|
                    0 <= i < index && (#[trigger] pool.roster[i]).trust == requirement.domain()
                        && pool.roster[i].reads_voice(*requirement, VoiceNamePolicy::Uploaded),
                voice_policies == policy_bits(preset, uploaded),
            decreases self.records@.len() - index,
        {
            let record = &self.records[index];
            assert(record.registration() == pool.roster[index as int]);
            if record.trust_domain().same(requirement.trust_domain()) {
                let (matched, policies) = record.profile_match(requirement);
                workers[index] = matched;
                assert(pool.roster[index as int].serves(*requirement) == matched);
                found = found || matched;
                voice_policies = join_policies(voice_policies, policies);
                proof {
                    let here = pool.roster[index as int];
                    preset = preset || here.reads_voice(*requirement, VoiceNamePolicy::Preset);
                    uploaded = uploaded || here.reads_voice(
                        *requirement,
                        VoiceNamePolicy::Uploaded,
                    );
                }
            }
            index += 1;
        }
        assert(workers@ =~= pool.serving(*requirement));
        proof {
            if found {
                let i = choose|i: int| 0 <= i < index && #[trigger] pool.roster[i].serves(*requirement);
                assert(pool.serving(*requirement)[i]);
            }
            if any(pool.serving(*requirement)) {
                let i = choose|i: int|
                    0 <= i < MAX_WORKERS && #[trigger] pool.serving(*requirement)[i];
                assert(pool.roster[i].serves(*requirement));
            }
        }
        let voice_policy = if voice_policies == 0 {
            None
        } else if voice_policies == VoiceNamePolicy::Preset.bit() {
            Some(VoiceNamePolicy::Preset)
        } else if voice_policies == VoiceNamePolicy::Uploaded.bit() {
            Some(VoiceNamePolicy::Uploaded)
        } else {
            return Err(DispatchError::AmbiguousModel);
        };
        Ok(ProfileMatches { workers, any: found, voice_policy })
    }

    /// The members of a cohort.
    fn mark_members(
        &self,
        trust: &TrustDomain,
        service: ServiceClass,
        task: Option<SpeechToTextTask>,
    ) -> (marked: [bool; MAX_WORKERS])
        requires
            self.wf(),
        ensures
            marked@ == members(self@.roster, CohortKey { trust: trust@, service, task }),
    {
        let ghost key = CohortKey { trust: trust@, service, task };
        let ghost roster = self@.roster;
        let mut marked: [bool; MAX_WORKERS] = [false;MAX_WORKERS];
        let mut i: usize = 0;
        while i < self.records.len()
            invariant
                i <= self.records@.len(),
                self.wf(),
                roster == self@.roster,
                key == (CohortKey { trust: trust@, service, task }),
                marked@.len() == MAX_WORKERS,
                forall|w: int|
                    0 <= w < MAX_WORKERS ==> #[trigger] marked@[w] == (w < i && is_member(
                        roster[w],
                        key,
                    )),
            decreases self.records@.len() - i,
        {
            let member = belongs(&self.records[i], trust, service, task);
            marked[i] = member;
            i += 1;
        }
        assert(marked@ =~= members(roster, key));
        marked
    }

    /// Whether the marked workers have one and the same default model.
    fn have_one_default(&self, marked: &[bool; MAX_WORKERS]) -> (outcome: bool)
        requires
            self.wf(),
        ensures
            outcome == self@.one_default(marked@),
    {
        let ghost pool = self@;
        let mut resolved: Option<&str> = None;
        let mut index: usize = 0;
        while index < self.records.len()
            invariant
                index <= self.records@.len(),
                self.wf(),
                pool == self@,
                marked@.len() == MAX_WORKERS,
                resolved is None ==> forall|i: int| 0 <= i < index ==> !#[trigger] marked@[i],
                resolved is Some ==> exists|i: int| 0 <= i < index && #[trigger] marked@[i],
                forall|i: int|
                    0 <= i < index && marked@[i] ==> (#[trigger] pool.roster[i]).default == text_of(
                        resolved,
                    ),
            decreases self.records@.len() - index,
        {
            if marked[index] {
                let model = self.records[index].default_model_id();
                assert(text_of(model) == pool.roster[index as int].default);
                if model.is_none() {
                    return false;
                }
                if resolved.is_none() {
                    resolved = model;
                } else if !same_optional_text(resolved, model) {
                    assert(!pool.one_default(marked@)) by {
                        let i = choose|i: int| 0 <= i < index && #[trigger] marked@[i];
                        assert(pool.roster[i].default != pool.roster[index as int].default);
                    }
                    return false;
                }
            }
            index += 1;
        }
        true
    }

    /// The marked workers that take requests.
    fn eligible_workers(&self, marked: &[bool; MAX_WORKERS]) -> (eligible: Vec<usize>)
        requires
            self.wf(),
        ensures
            eligible@.len() <= MAX_WORKERS,
            forall|k: int| 0 <= k < eligible@.len() ==> (#[trigger] eligible@[k]) < MAX_WORKERS,
            forall|w: int|
                0 <= w < MAX_WORKERS ==> #[trigger] self@.routable(marked@)[w]
                    == eligible@.contains(w as usize),
            eligible@.len() > 0 <==> any(self@.routable(marked@)),
    {
        let ghost pool = self@;
        let mut eligible: Vec<usize> = Vec::new();
        let mut index: usize = 0;
        while index < self.records.len()
            invariant
                index <= self.records@.len(),
                self.wf(),
                pool == self@,
                marked@.len() == MAX_WORKERS,
                eligible@.len() <= index,
                forall|k: int| 0 <= k < eligible@.len() ==> (#[trigger] eligible@[k]) < index,
                forall|k: int|
                    0 <= k < eligible@.len() ==> pool.routable(marked@)[#[trigger] eligible@[k] as int],
                forall|w: int|
                    0 <= w < index && #[trigger] pool.routable(marked@)[w] ==> eligible@.contains(
                        w as usize,
                    ),
            decreases self.records@.len() - index,
        {
            let ghost before = eligible@;
            if marked[index] && self.records[index].is_routable() {
                assert(pool.routable(marked@)[index as int]);
                eligible.push(index);
                assert(eligible@[before.len() as int] == index);
                assert forall|w: usize| before.contains(w) implies eligible@.contains(w) by {
                    let k = before.index_of(w);
                    assert(eligible@[k] == w);
                }
            }
            index += 1;
        }
        proof {
            let routable = pool.routable(marked@);
            if eligible@.len() > 0 {
                assert(routable[eligible@[0] as int]);
            }
            if any(routable) {
                let w = choose|w: int| 0 <= w < MAX_WORKERS && #[trigger] routable[w];
                assert(eligible@.contains(w as usize));
            }
        }
        eligible
    }

    /// The workers of least load among the given ones.
    fn select_least_requests(&self, eligible: &[usize]) -> (ties: Vec<usize>)
        requires
            self.wf(),
            forall|k: int|
                0 <= k < eligible@.len() ==> (#[trigger] eligible@[k]) < self@.roster.len(),
        ensures
            forall|w: usize| #[trigger]
                ties@.contains(w) <==> eligible@.contains(w) && forall|k: int|
                    0 <= k < eligible@.len() ==> self@.workers[w as int].load
                        <= self@.workers[#[trigger] eligible@[k] as int].load,
    {
        let ghost pool = self@;
        let mut minimum: usize = usize::MAX;
        let mut ties: Vec<usize> = Vec::new();
        let mut i: usize = 0;
        while i < eligible.len()
            invariant
                i <= eligible@.len(),
                self.wf(),
                pool == self@,
                forall|k: int|
                    0 <= k < eligible@.len() ==> (#[trigger] eligible@[k]) < pool.roster.len(),
                forall|k: int|
                    0 <= k < i ==> minimum <= pool.workers[#[trigger] eligible@[k] as int].load,
                forall|t: int|
                    0 <= t < ties@.len() ==> pool.workers[#[trigger] ties@[t] as int].load
                        == minimum && eligible@.contains(ties@[t]),
                forall|k: int|
                    0 <= k < i && pool.workers[#[trigger] eligible@[k] as int].load == minimum
                        ==> ties@.contains(eligible@[k]),
                i > 0 ==> ties@.len() > 0,
                i == 0 ==> minimum == usize::MAX,
            decreases eligible@.len() - i,
        {
            let index: usize = eligible[i];
            let load: usize = self.records[index].load();
            assert(load == pool.workers[index as int].load);
            let ghost before = ties@;
            if load < minimum {
                minimum = load;
                ties = Vec::new();
                ties.push(index);
                assert(ties@[0] == index);
                assert(ties@.contains(index));
            } else if load == minimum {
                ties.push(index);
                assert(ties@[before.len() as int] == index);
                assert forall|w: usize| before.contains(w) implies ties@.contains(w) by {
                    let t = before.index_of(w);
                    assert(ties@[t] == w);
                }
            }
            i += 1;
        }
        assert forall|w: usize| #[trigger]
            ties@.contains(w) implies eligible@.contains(w) && (forall|k: int|
            0 <= k < eligible@.len() ==> pool.workers[w as int].load
                <= pool.workers[#[trigger] eligible@[k] as int].load) by {
            let t = ties@.index_of(w);
            assert(ties@[t] == w);
        }
        assert forall|w: usize|
            eligible@.contains(w) && (forall|k: int|
                0 <= k < eligible@.len() ==> pool.workers[w as int].load
                    <= pool.workers[#[trigger] eligible@[k] as int].load) implies #[trigger] ties@.contains(
            w,
        ) by {
            let k = eligible@.index_of(w);
            assert(eligible@[k] == w);
            let first = ties@[0];
            assert(eligible@.contains(first));
            let f = eligible@.index_of(first);
            assert(eligible@[f] == first);
        }
        ties
    }

    /// Picks one of the given workers by the strategy.
    fn pick_worker(&mut self, eligible: &[usize], marked: Ghost<Seq<bool>>) -> (worker: usize)
        requires
            old(self).wf(),
            eligible@.len() > 0,
            forall|k: int|
                0 <= k < eligible@.len() ==> (#[trigger] eligible@[k]) < old(self)@.roster.len(),
            marked@.len() == MAX_WORKERS,
            forall|w: int|
                0 <= w < MAX_WORKERS ==> #[trigger] marked@[w] == eligible@.contains(w as usize),
        ensures
            final(self).wf(),
            worker < final(self)@.roster.len(),
            marked@[worker as int],
            old(self)@.pick(marked@) == Decision::Assign(worker, final(self)@.order),
            final(self)@ == (PoolView { order: final(self)@.order, ..old(self)@ }),
    {
        let ghost before = self@;
        let candidates = match self.selector.strategy() {
            RoutingStrategy::RoundRobin => {
                let candidates = candidate_set(eligible);
                assert(candidates@ =~= before.contenders(marked@));
                candidates
            },
            RoutingStrategy::LeastRequests => {
                let ties = self.select_least_requests(eligible);
                assert forall|t: int| 0 <= t < ties@.len() implies (#[trigger] ties@[t])
                    < MAX_WORKERS by {
                    assert(ties@.contains(ties@[t]));
                    let k = eligible@.index_of(ties@[t]);
                    assert(eligible@[k] == ties@[t]);
                }
                let candidates = candidate_set(ties.as_slice());
                proof {
                    let least = before.least_loaded(marked@);
                    assert forall|w: int| 0 <= w < MAX_WORKERS implies candidates@[w]
                        == #[trigger] least[w] by {
                        if candidates@[w] {
                            assert(ties@.contains(w as usize));
                            assert forall|j: int|
                                0 <= j < MAX_WORKERS && #[trigger] marked@[j] implies before.workers[w].load
                                <= before.workers[j].load by {
                                let k = eligible@.index_of(j as usize);
                                assert(eligible@[k] == j);
                            }
                        }
                        if least[w] {
                            assert(marked@[w]);
                            assert forall|k: int|
                                0 <= k < eligible@.len() implies before.workers[w].load
                                <= before.workers[#[trigger] eligible@[k] as int].load by {
                                assert(eligible@.contains(eligible@[k]));
                                assert(marked@[eligible@[k] as int]);
                            }
                            assert(ties@.contains(w as usize));
                        }
                    }
                    assert(candidates@ =~= least);
                }
                candidates
            },
        };
        let ghost contenders = candidates@;
        proof {
            assert(eligible@.contains(eligible@[0]));
            assert(marked@[eligible@[0] as int]);
            lemma_contenders(before, marked@);
            let w = choose|w: int| 0 <= w < MAX_WORKERS && #[trigger] contenders[w];
            assert(marked@[w]);
            let k = eligible@.index_of(w as usize);
            assert(eligible@[k] == w);
            lemma_candidate_has_turn(before.order, contenders, before.roster.len(), w as usize);
            lemma_first_candidate(before.order, contenders, 0);
        }
        let selected = self.selector.select(&candidates);
        assert(self@.roster == before.roster);
        match selected {
            Some(worker) => {
                assert(contenders[worker as int]);
                worker
            },
            None => {
                assert(false);
                0
            },
        }
    }

    /// Hands an admitted request to a worker.
    fn assign(&mut self, admission: AdmissionLease, worker: usize) -> (lease: RequestLease)
        requires
            old(self).wf(),
            worker < old(self)@.roster.len(),
        ensures
            final(self).wf(),
            lease@ == (RequestHold {
                admission: Some(admission@),
                worker,
                weight: lease@.weight,
                session: None,
            }),
            lease@.weight == admission@.credits,
            final(self)@ == old(self)@.assigned(lease@, old(self)@.order),
    {
        let ghost before = self@;
        assert(before.workers[worker as int].wf());
        let weight: usize = admission.credits();
        self.records[worker].increment_load(weight);
        let lease = RequestLease {
            ingress: Ingress::Admission(admission),
            session: None,
            worker,
            weight,
        };
        assert(self@.roster =~= before.roster);
        assert(self@.workers =~= before.assigned(lease@, before.order).workers);
        lease
    }

    /// Refuses an admitted request, which gives back what it held.
    fn refuse(&mut self, admission: AdmissionLease, error: DispatchError) -> (outcome: Result<
        RequestLease,
        DispatchError,
    >)
        requires
            old(self).wf(),
        ensures
            final(self).wf(),
            outcome is Err,
            outcome->Err_0 == error,
            final(self)@ == old(self)@.admission_returned(admission@),
    {
        self.admission.release(admission);
        Err(error)
    }
}

/// What a dispatch of an admitted request leaves behind: a refused request
/// gave back what it held, and an assigned one loads its worker with the
/// credits that it holds.
pub open spec fn dispatched(
    before: PoolView,
    admission: AdmissionHold,
    session: Option<CapacityClass>,
    decision: Decision,
    outcome: Result<RequestLease, DispatchError>,
    after: PoolView,
) -> bool {
    match decision {
        Decision::Refuse(error) => {
            &&& outcome is Err
            &&& outcome->Err_0 == error
            &&& after == before.admission_returned(admission)
        },
        Decision::Assign(worker, order) => {
            let hold = outcome->Ok_0@;
            &&& outcome is Ok
            &&& hold.admission == Some(admission)
            &&& hold.worker == worker < before.roster.len()
            &&& hold.weight == admission.credits
            &&& hold.session == session
            &&& after == before.assigned(hold, order)
        },
    }
}

impl WorkerPool {
    /// Hands an admitted request to one of the marked workers, by the strategy.
    pub fn dispatch_matching(
        &mut self,
        admission: AdmissionLease,
        profile_found: bool,
        marked: &[bool; MAX_WORKERS],
    ) -> (outcome: Result<RequestLease, DispatchError>)
        requires
            old(self).wf(),
        ensures
            final(self).wf(),
            dispatched(
                old(self)@,
                admission@,
                None,
                old(self)@.matching_decision(profile_found, marked@),
                outcome,
                final(self)@,
            ),
    {
        if !profile_found {
            return self.refuse(admission, DispatchError::NoEligibleProfile);
        }
        let ghost routable = self@.routable(marked@);
        let eligible = self.eligible_workers(marked);
        if eligible.len() == 0 {
            return self.refuse(admission, DispatchError::Unavailable);
        }
        assert forall|k: int| 0 <= k < eligible@.len() implies (#[trigger] eligible@[k])
            < self@.roster.len() by {
            assert(eligible@.contains(eligible@[k]));
            assert(routable[eligible@[k] as int]);
        }
        let worker: usize = self.pick_worker(eligible.as_slice(), Ghost(routable));
        Ok(self.assign(admission, worker))
    }

    /// Hands an admitted request to a worker that serves it.
    pub fn dispatch(&mut self, admission: AdmissionLease, requirement: &RouteRequirement) -> (outcome:
        Result<RequestLease, DispatchError>)
        requires
            old(self).wf(),
        ensures
            final(self).wf(),
            dispatched(
                old(self)@,
                admission@,
                None,
                old(self)@.dispatch_decision(admission@.class, *requirement),
                outcome,
                final(self)@,
            ),
    {
        if admission.class() != requirement.capacity_class() {
            return self.refuse(admission, DispatchError::Internal);
        }
        let matching = match self.matching_profiles(requirement) {
            Ok(matching) => matching,
            Err(error) => {
                return self.refuse(admission, error);
            },
        };
        if uploaded(matching.voice_policy) {
            return match self.owner_for(requirement, &matching) {
                Ok(owner) => Ok(self.assign(admission, owner)),
                Err(error) => self.refuse(admission, error),
            };
        }
        if matching.any && requirement.profile().requires_default_resolution()
            && !self.have_one_default(&matching.workers) {
            return self.refuse(admission, DispatchError::AmbiguousModel);
        }
        self.dispatch_matching(admission, matching.any, &matching.workers)
    }

    /// The voice owner, if it can take the request.
    fn owner_for(&self, requirement: &RouteRequirement, matching: &ProfileMatches) -> (outcome:
        Result<usize, DispatchError>)
        requires
            self.wf(),
            matching.workers@ == self@.serving(*requirement),
        ensures
            match self@.owner_refusal(*requirement) {
                Some(error) => outcome is Err && outcome->Err_0 == error,
                None => outcome is Ok && self@.voice_owner == Some(outcome->Ok_0)
                    && outcome->Ok_0 < self@.roster.len(),
            },
    {
        match self.voice_owner {
            Some(owner) => {
                let record = self.record(owner);
                if !matching.workers[owner] {
                    return Err(DispatchError::NoEligibleProfile);
                }
                if requirement.profile().requires_default_resolution()
                    && record.default_model_id().is_none() {
                    return Err(DispatchError::AmbiguousModel);
                }
                if !record.is_routable() {
                    return Err(DispatchError::Unavailable);
                }
                Ok(owner)
            },
            None => Err(DispatchError::NoEligibleProfile),
        }
    }

    /// The marked workers that take requests and have room for one more
    /// session of the class.
    fn roomy_workers(&self, marked: &[bool; MAX_WORKERS], class: CapacityClass) -> (found: (
        bool,
        Vec<usize>,
    ))
        requires
            self.wf(),
        ensures
            found.0 == any(self@.routable(marked@)),
            forall|k: int|
                0 <= k < found.1@.len() ==> (#[trigger] found.1@[k]) < self@.roster.len(),
            forall|w: int|
                0 <= w < MAX_WORKERS ==> #[trigger] self@.roomy(self@.routable(marked@), class)[w]
                    == found.1@.contains(w as usize),
            found.1@.len() > 0 <==> any(self@.roomy(self@.routable(marked@), class)),
    {
        let ghost pool = self@;
        let ghost routable = pool.routable(marked@);
        let ghost roomy = pool.roomy(routable, class);
        let healthy = self.eligible_workers(marked);
        let mut eligible: Vec<usize> = Vec::new();
        let mut i: usize = 0;
        while i < healthy.len()
            invariant
                i <= healthy@.len(),
                self.wf(),
                pool == self@,
                routable == pool.routable(marked@),
                roomy == pool.roomy(routable, class),
                forall|k: int| 0 <= k < healthy@.len() ==> (#[trigger] healthy@[k]) < MAX_WORKERS,
                forall|w: int|
                    0 <= w < MAX_WORKERS ==> #[trigger] routable[w] == healthy@.contains(
                        w as usize,
                    ),
                forall|k: int|
                    0 <= k < eligible@.len() ==> (#[trigger] eligible@[k]) < MAX_WORKERS
                        && roomy[eligible@[k] as int],
                forall|k: int|
                    0 <= k < i && roomy[#[trigger] healthy@[k] as int] ==> eligible@.contains(
                        healthy@[k],
                    ),
            decreases healthy@.len() - i,
        {
            let index: usize = healthy[i];
            assert(healthy@.contains(index));
            assert(routable[index as int]);
            let record = self.record(index);
            let room = match record.session_capacity(class) {
                Some(pool) => pool.available() != 0,
                None => false,
            };
            let ghost before = eligible@;
            if room {
                assert(roomy[index as int]);
                eligible.push(index);
                assert(eligible@[before.len() as int] == index);
                assert forall|w: usize| before.contains(w) implies eligible@.contains(w) by {
                    let k = before.index_of(w);
                    assert(eligible@[k] == w);
                }
            }
            i += 1;
        }
        proof {
            assert forall|w: int| 0 <= w < MAX_WORKERS implies #[trigger] roomy[w]
                == eligible@.contains(w as usize) by {
                if roomy[w] {
                    assert(routable[w]);
                    let k = healthy@.index_of(w as usize);
                    assert(healthy@[k] == w);
                }
                if eligible@.contains(w as usize) {
                    let k = eligible@.index_of(w as usize);
                    assert(eligible@[k] == w);
                }
            }
            if eligible@.len() > 0 {
                assert(roomy[eligible@[0] as int]);
            }
            if any(roomy) {
                let w = choose|w: int| 0 <= w < MAX_WORKERS && #[trigger] roomy[w];
                assert(eligible@.contains(w as usize));
            }
        }
        (healthy.len() > 0, eligible)
    }

    /// Hands an admitted session to a worker that serves it and has room for it.
    pub fn dispatch_session(
        &mut self,
        admission: AdmissionLease,
        requirement: &RouteRequirement,
    ) -> (outcome: Result<RequestLease, DispatchError>)
        requires
            old(self).wf(),
        ensures
            final(self).wf(),
            dispatched(
                old(self)@,
                admission@,
                Some(admission@.class),
                old(self)@.session_decision(admission@.class, *requirement),
                outcome,
                final(self)@,
            ),
    {
        let class = admission.class();
        if class != requirement.capacity_class() || session_capacity_index(class).is_none() {
            return self.refuse(admission, DispatchError::Internal);
        }
        let matching = match self.matching_profiles(requirement) {
            Ok(matching) => matching,
            Err(error) => {
                return self.refuse(admission, error);
            },
        };
        if uploaded(matching.voice_policy) {
            let owner: usize = match self.owner_for(requirement, &matching) {
                Ok(owner) => owner,
                Err(error) => {
                    return self.refuse(admission, error);
                },
            };
            let room = match self.record(owner).session_capacity(class) {
                Some(pool) => pool.available() != 0,
                None => {
                    return self.refuse(admission, DispatchError::Internal);
                },
            };
            if !room {
                return self.refuse(admission, DispatchError::Overloaded);
            }
            return Ok(self.assign_session(admission, owner));
        }
        if !matching.any {
            return self.refuse(admission, DispatchError::NoEligibleProfile);
        }
        if requirement.profile().requires_default_resolution() && !self.have_one_default(
            &matching.workers,
        ) {
            return self.refuse(admission, DispatchError::AmbiguousModel);
        }
        let ghost roomy = self@.roomy(self@.routable(matching.workers@), class);
        let (healthy_found, eligible) = self.roomy_workers(&matching.workers, class);
        if !healthy_found {
            return self.refuse(admission, DispatchError::Unavailable);
        }
        if eligible.len() == 0 {
            return self.refuse(admission, DispatchError::Overloaded);
        }
        let worker: usize = self.pick_worker(eligible.as_slice(), Ghost(roomy));
        Ok(self.assign_session(admission, worker))
    }

    /// Hands an admitted session to a worker that has room for it.
    fn assign_session(&mut self, admission: AdmissionLease, worker: usize) -> (lease: RequestLease)
        requires
            old(self).wf(),
            worker < old(self)@.roster.len(),
            old(self)@.workers[worker as int].has_session_room(admission@.class),
        ensures
            final(self).wf(),
            lease@ == (RequestHold {
                admission: Some(admission@),
                worker,
                weight: lease@.weight,
                session: Some(admission@.class),
            }),
            lease@.weight == admission@.credits,
            final(self)@ == old(self)@.assigned(lease@, old(self)@.order),
    {
        let ghost before = self@;
        assert(before.workers[worker as int].wf());
        let class = admission.class();
        let weight: usize = admission.credits();
        let opened = self.records[worker].try_open_session(class);
        assert(opened);
        self.records[worker].increment_load(weight);
        let lease = RequestLease {
            ingress: Ingress::Admission(admission),
            session: Some(class),
            worker,
            weight,
        };
        assert(self@.roster =~= before.roster);
        assert(self@.workers =~= before.assigned(lease@, before.order).workers);
        lease
    }

    /// Hands a request with only a place in the envelope to the voice owner.
    pub fn dispatch_voice_owner(&mut self, envelope: EnvelopeLease) -> (outcome: Result<
        RequestLease,
        DispatchError,
    >)
        requires
            old(self).wf(),
        ensures
            final(self).wf(),
            match old(self)@.owner_decision() {
                Decision::Refuse(error) => {
                    &&& outcome is Err
                    &&& outcome->Err_0 == error
                    &&& final(self)@ == old(self)@.envelope_returned()
                },
                Decision::Assign(owner, order) => {
                    let hold = RequestHold {
                        admission: None,
                        worker: owner,
                        weight: 1,
                        session: None,
                    };
                    &&& outcome is Ok
                    &&& outcome->Ok_0@ == hold
                    &&& final(self)@ == old(self)@.assigned(hold, order)
                },
            },
    {
        let ghost before = self@;
        let owner: usize = match self.voice_owner {
            Some(owner) => owner,
            None => {
                self.admission.release_envelope(envelope);
                return Err(DispatchError::Internal);
            },
        };
        if !self.record(owner).is_routable() {
            self.admission.release_envelope(envelope);
            return Err(DispatchError::Unavailable);
        }
        assert(before.workers[owner as int].wf());
        self.records[owner].increment_load(1);
        let lease = RequestLease {
            ingress: Ingress::Envelope(envelope),
            session: None,
            worker: owner,
            weight: 1,
        };
        assert(self@.roster =~= before.roster);
        assert(self@.workers =~= before.assigned(lease@, before.order).workers);
        Ok(lease)
    }

    /// Takes back all that a dispatched request holds.
    pub fn release(&mut self, lease: RequestLease)
        requires
            old(self).wf(),
            lease@.worker < old(self)@.roster.len(),
        ensures
            final(self).wf(),
            final(self)@ == old(self)@.released(lease@),
    {
        let ghost before = self@;
        let ghost hold = lease@;
        assert(before.workers[hold.worker as int].wf());
        let RequestLease { ingress, session, worker, weight } = lease;
        if let Some(class) = session {
            self.records[worker].close_session(class);
        }
        self.records[worker].decrement_load(weight);
        assert(self@.roster =~= before.roster);
        assert(self@.workers =~= before.released(hold).workers);
        match ingress {
            Ingress::Admission(held) => self.admission.release(held),
            Ingress::Envelope(held) => self.admission.release_envelope(held),
        }
    }
}

/// Whether a voice name is read as an uploaded voice.
fn uploaded(policy: Option<VoiceNamePolicy>) -> (outcome: bool)
    ensures
        outcome == (policy == Some(VoiceNamePolicy::Uploaded)),
{
    match policy {
        Some(value) => value == VoiceNamePolicy::Uploaded,
        None => false,
    }
}

} // verus!
