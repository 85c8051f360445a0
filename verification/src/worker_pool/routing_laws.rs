//! What holds of every routing decision.

use vstd::prelude::*;

use crate::worker_pool::admission::{AdmissionError, AdmissionHold, DispatchError};
use crate::worker_pool::cohorts::{
    content_blind, first_member, generation_key, has_equivalent, homogeneous, is_member,
    lemma_first_member, members, reads_uploaded, relevant, CohortKey,
};
use crate::worker_pool::matching_laws::{faultless, law_cohort_members_serve_alike};
use crate::worker_pool::profile::{
    CapacityClass, ModelSelection, ProfileRequirement, RouteRequirement, VoiceNamePolicy,
    WorkerConfig, MAX_WORKERS,
};
use crate::worker_pool::record::{session_slot, Registration};
use crate::worker_pool::routing::{any, lemma_contenders, Decision, PoolView, RequestHold};
use crate::worker_pool::selection::{lemma_candidate_has_turn, lemma_first_candidate, turn};
use crate::worker_pool::startup::{registrable, registration_of};
use crate::worker_pool::validation::{
    first_worker_fault, resolved_bases, worker_fault, workers_fault,
};

verus! {

/// A choice among marked workers, of which some take requests, is made, and it
/// is one of them: under least-requests routing one with the least load, and
/// under either strategy the one whose turn it is among the contenders.
pub proof fn law_choice_is_routable_and_least_loaded(pool: PoolView, marked: Seq<bool>)
    requires
        pool.wf(),
        any(pool.routable(marked)),
    ensures
        pool.choose_among(marked) is Assign,
        pool.choose_among(marked)->Assign_0 < pool.roster.len(),
        marked[pool.choose_among(marked)->Assign_0 as int],
        pool.workers[pool.choose_among(marked)->Assign_0 as int].routable(),
        pool.strategy is LeastRequests ==> forall|j: int|
            0 <= j < pool.roster.len() && marked[j] && (#[trigger] pool.workers[j]).routable()
                ==> pool.workers[pool.choose_among(marked)->Assign_0 as int].load
                <= pool.workers[j].load,
{
    lemma_pick(pool, pool.routable(marked));
    let routable = pool.routable(marked);
    let chosen = pool.choose_among(marked)->Assign_0;
    assert forall|j: int|
        pool.strategy is LeastRequests && 0 <= j < pool.roster.len() && marked[j] && (
        #[trigger] pool.workers[j]).routable() implies pool.workers[chosen as int].load
        <= pool.workers[j].load by {
        assert(routable[j]);
    }
}

/// A pick among marked workers of the roster is made, and it is a contender.
proof fn lemma_pick(pool: PoolView, marked: Seq<bool>)
    requires
        pool.wf(),
        any(marked),
        marked.len() == MAX_WORKERS,
        forall|i: int| 0 <= i < MAX_WORKERS && #[trigger] marked[i] ==> i < pool.roster.len(),
    ensures
        pool.pick(marked) is Assign,
        pool.pick(marked)->Assign_0 < pool.roster.len(),
        pool.contenders(marked)[pool.pick(marked)->Assign_0 as int],
        marked[pool.pick(marked)->Assign_0 as int],
{
    lemma_contenders(pool, marked);
    let contenders = pool.contenders(marked);
    let w = choose|w: int| 0 <= w < MAX_WORKERS && #[trigger] contenders[w];
    assert(marked[w]);
    lemma_candidate_has_turn(pool.order, contenders, pool.roster.len(), w as usize);
    lemma_first_candidate(pool.order, contenders, 0);
    let chosen = turn(pool.order, contenders)->Some_0;
    assert(contenders[chosen as int]);
}

/// A dispatched request goes to a worker of its trust domain that serves it
/// and takes requests; a session moreover to one that has room for it.
pub proof fn law_assigned_worker_serves_the_request(
    pool: PoolView,
    class: CapacityClass,
    requirement: RouteRequirement,
)
    requires
        pool.wf(),
    ensures
        pool.dispatch_decision(class, requirement) matches Decision::Assign(worker, _) ==> {
            &&& worker < pool.roster.len()
            &&& pool.roster[worker as int].serves(requirement)
            &&& pool.workers[worker as int].routable()
        },
        pool.session_decision(class, requirement) matches Decision::Assign(worker, _) ==> {
            &&& worker < pool.roster.len()
            &&& pool.roster[worker as int].serves(requirement)
            &&& pool.workers[worker as int].routable()
            &&& pool.workers[worker as int].has_session_room(class)
        },
{
    let serving = pool.serving(requirement);
    let healthy = pool.routable(serving);
    if any(healthy) {
        lemma_pick(pool, healthy);
    }
    let roomy = pool.roomy(healthy, class);
    if any(roomy) {
        lemma_pick(pool, roomy);
    }
}

/// Routing fails internally only where the request is in the wrong class, or,
/// for a session, where it is for an uploaded voice whose owner has no limit
/// on sessions of the class.
pub proof fn law_dispatch_does_not_fail_internally(
    pool: PoolView,
    requirement: RouteRequirement,
)
    requires
        pool.wf(),
    ensures
        pool.dispatch_decision(requirement.needs().service().class(), requirement)
            != Decision::Refuse(DispatchError::Internal),
        ({
            let class = requirement.needs().service().class();
            session_slot(class) is Some && pool.session_decision(class, requirement)
                == Decision::Refuse(DispatchError::Internal) ==> {
                &&& pool.voice_reading(requirement) == Some(Some(VoiceNamePolicy::Uploaded))
                &&& pool.workers[pool.voice_owner->Some_0 as int].session_pool(class) is None
            }
        }),
{
    let class = requirement.needs().service().class();
    let serving = pool.serving(requirement);
    let healthy = pool.routable(serving);
    if any(healthy) {
        lemma_pick(pool, healthy);
    }
    let roomy = pool.roomy(healthy, class);
    if any(roomy) {
        lemma_pick(pool, roomy);
    }
}

/// A request whose voice name denotes an uploaded voice goes to the voice owner or nowhere.
pub proof fn law_uploaded_voice_goes_to_its_owner(
    pool: PoolView,
    class: CapacityClass,
    requirement: RouteRequirement,
)
    requires
        pool.voice_reading(requirement) == Some(Some(VoiceNamePolicy::Uploaded)),
    ensures
        pool.dispatch_decision(class, requirement) matches Decision::Assign(worker, _) ==> Some(
            worker,
        ) == pool.voice_owner,
        pool.session_decision(class, requirement) matches Decision::Assign(worker, _) ==> Some(
            worker,
        ) == pool.voice_owner,
{
}

/// A realtime session that names a model never falls back to a worker with another
/// default, whatever the load and health of the pool.
pub proof fn law_realtime_model_never_falls_back(
    pool: PoolView,
    requirement: RouteRequirement,
    model: Seq<char>,
)
    requires
        pool.wf(),
        requirement.needs() is RealtimeWebsocket,
        requirement.needs()->RealtimeWebsocket_model is Some,
        requirement.needs()->RealtimeWebsocket_model->Some_0@ == model,
    ensures
        pool.session_decision(CapacityClass::RealtimeWebsocket, requirement)
            matches Decision::Assign(worker, _) ==> pool.roster[worker as int].default == Some(
            model,
        ),
{
    law_assigned_worker_serves_the_request(pool, CapacityClass::RealtimeWebsocket, requirement);
    if let Decision::Assign(worker, _) = pool.session_decision(
        CapacityClass::RealtimeWebsocket,
        requirement,
    ) {
        let here = pool.roster[worker as int];
        let row = choose|row: int| #[trigger] here.row_serves(requirement, row);
        assert(here.profiles[row].serves(&requirement.needs(), here.default));
    }
}

/// The model that a request with one model names explicitly.
pub open spec fn explicit_model(needs: ProfileRequirement) -> Option<Seq<char>> {
    match needs {
        ProfileRequirement::GenerationHttp { model: ModelSelection::Explicit(id), .. } => Some(id@),
        ProfileRequirement::SpeechHttp { model: ModelSelection::Explicit(id), .. } => Some(id@),
        ProfileRequirement::TranscriptionHttp { model: ModelSelection::Explicit(id), .. } => Some(
            id@,
        ),
        ProfileRequirement::SpeechWebsocket { model: ModelSelection::Explicit(id), .. } => Some(
            id@,
        ),
        _ => None,
    }
}

/// Some row of the worker serves the whole request and lists the model that it names.
pub open spec fn runs_explicit_model(worker: Registration, requirement: RouteRequirement) -> bool {
    exists|row: int| #[trigger]
        worker.row_serves(requirement, row) && worker.profiles[row].executes(
            explicit_model(requirement.needs())->Some_0,
        )
}

/// A request or session that names a model goes only to a worker with a row
/// that serves the whole request and lists that model.
pub proof fn law_explicit_model_is_served(
    pool: PoolView,
    class: CapacityClass,
    requirement: RouteRequirement,
)
    requires
        pool.wf(),
        explicit_model(requirement.needs()) is Some,
    ensures
        pool.dispatch_decision(class, requirement) matches Decision::Assign(worker, _)
            ==> runs_explicit_model(pool.roster[worker as int], requirement),
        pool.session_decision(class, requirement) matches Decision::Assign(worker, _)
            ==> runs_explicit_model(pool.roster[worker as int], requirement),
{
    law_assigned_worker_serves_the_request(pool, class, requirement);
    if let Decision::Assign(worker, _) = pool.dispatch_decision(class, requirement) {
        let here = pool.roster[worker as int];
        let row = choose|row: int| #[trigger] here.row_serves(requirement, row);
        assert(here.profiles[row].serves(&requirement.needs(), here.default));
    }
    if let Decision::Assign(worker, _) = pool.session_decision(class, requirement) {
        let here = pool.roster[worker as int];
        let row = choose|row: int| #[trigger] here.row_serves(requirement, row);
        assert(here.profiles[row].serves(&requirement.needs(), here.default));
    }
}

/// Whether a request or session is ambiguous or unserved rests on the
/// configuration alone: no change of health, load or turn order alters it.
pub proof fn law_ambiguity_is_stable_across_health_changes(
    pool: PoolView,
    other: PoolView,
    class: CapacityClass,
    requirement: RouteRequirement,
)
    requires
        pool.wf(),
        other.wf(),
        pool.roster == other.roster,
        pool.voice_owner == other.voice_owner,
    ensures
        pool.dispatch_decision(class, requirement) == Decision::Refuse(
            DispatchError::AmbiguousModel,
        ) <==> other.dispatch_decision(class, requirement) == Decision::Refuse(
            DispatchError::AmbiguousModel,
        ),
        pool.dispatch_decision(class, requirement) == Decision::Refuse(
            DispatchError::NoEligibleProfile,
        ) <==> other.dispatch_decision(class, requirement) == Decision::Refuse(
            DispatchError::NoEligibleProfile,
        ),
        pool.session_decision(class, requirement) == Decision::Refuse(
            DispatchError::AmbiguousModel,
        ) <==> other.session_decision(class, requirement) == Decision::Refuse(
            DispatchError::AmbiguousModel,
        ),
        pool.session_decision(class, requirement) == Decision::Refuse(
            DispatchError::NoEligibleProfile,
        ) <==> other.session_decision(class, requirement) == Decision::Refuse(
            DispatchError::NoEligibleProfile,
        ),
{
    assert(pool.serving(requirement) =~= other.serving(requirement));
    assert(pool.one_default(pool.serving(requirement)) == other.one_default(
        other.serving(requirement),
    ));
    assert(pool.reads_voice(requirement, VoiceNamePolicy::Preset) == other.reads_voice(
        requirement,
        VoiceNamePolicy::Preset,
    ));
    assert(pool.reads_voice(requirement, VoiceNamePolicy::Uploaded) == other.reads_voice(
        requirement,
        VoiceNamePolicy::Uploaded,
    ));
    if any(pool.routable(pool.serving(requirement))) {
        lemma_pick(pool, pool.routable(pool.serving(requirement)));
    }
    if any(other.routable(other.serving(requirement))) {
        lemma_pick(other, other.routable(other.serving(requirement)));
    }
}

/// Reading a request cannot change its cohort: if any worker serves a request
/// for the service and task of a homogeneous cohort, exactly the members do.
pub proof fn law_reading_cannot_change_the_cohort(
    pool: PoolView,
    key: CohortKey,
    requirement: RouteRequirement,
)
    requires
        pool.wf(),
        homogeneous(pool.roster, key),
        forall|i: int| 0 <= i < pool.roster.len() ==> faultless(#[trigger] pool.roster[i]),
        requirement.domain() == key.trust,
        requirement.needs().service() == key.service,
        requirement.needs().task() == key.task,
        any(pool.serving(requirement)),
    ensures
        pool.serving(requirement) == members(pool.roster, key),
{
    let serving = pool.serving(requirement);
    let cohort = members(pool.roster, key);
    assert forall|i: int| 0 <= i < MAX_WORKERS && #[trigger] serving[i] implies cohort[i] by {
        lemma_serving_is_member(pool.roster[i], key, requirement);
    }
    let served = choose|i: int| 0 <= i < serving.len() && #[trigger] serving[i];
    assert(cohort[served]);
    assert forall|i: int| 0 <= i < MAX_WORKERS && #[trigger] cohort[i] implies serving[i] by {
        law_cohort_members_serve_alike(pool.roster, key, requirement, i, served);
    }
    assert(serving =~= cohort);
}

/// A worker that serves a request is a member of the cohort of the request.
proof fn lemma_serving_is_member(worker: Registration, key: CohortKey, requirement: RouteRequirement)
    requires
        worker.serves(requirement),
        requirement.domain() == key.trust,
        requirement.needs().service() == key.service,
        requirement.needs().task() == key.task,
    ensures
        is_member(worker, key),
{
    let row = choose|row: int| #[trigger] worker.row_serves(requirement, row);
    assert(worker.profiles[row].serves(&requirement.needs(), worker.default));
    assert(relevant(worker.profiles[row], key.service, key.task));
}

/// Two decisions refuse alike, or assign to the same worker.
pub open spec fn same_worker(left: Decision, right: Decision) -> bool {
    match (left, right) {
        (Decision::Refuse(a), Decision::Refuse(b)) => a == b,
        (Decision::Assign(a, _), Decision::Assign(b, _)) => a == b,
        _ => false,
    }
}

/// Routing a served chat request without reading it is routing it: the same
/// worker takes it, or the same error answers it, and the same turns are left.
pub proof fn law_content_blind_chat_dispatch_agrees(pool: PoolView, requirement: RouteRequirement)
    requires
        pool.wf(),
        homogeneous(pool.roster, generation_key(requirement.domain())),
        forall|i: int| 0 <= i < pool.roster.len() ==> faultless(#[trigger] pool.roster[i]),
        requirement.needs() is GenerationHttp,
        any(pool.serving(requirement)),
    ensures
        pool.dispatch_decision(CapacityClass::GenerationHttp, requirement) == pool.choose_among(
            members(pool.roster, generation_key(requirement.domain())),
        ),
{
    let key = generation_key(requirement.domain());
    law_reading_cannot_change_the_cohort(pool, key, requirement);
    lemma_cohort_has_one_default(pool, key);
}

/// The members of a homogeneous cohort have one default.
proof fn lemma_cohort_has_one_default(pool: PoolView, key: CohortKey)
    requires
        pool.wf(),
        homogeneous(pool.roster, key),
    ensures
        pool.one_default(members(pool.roster, key)),
{
    let cohort = members(pool.roster, key);
    lemma_first_member(pool.roster, key, 0);
    let first = first_member(pool.roster, key, 0);
    assert forall|i: int| 0 <= i < pool.roster.len() && cohort[i] implies (
    #[trigger] pool.roster[i]).default == pool.roster[first].default by {
        assert(is_member(pool.roster[i], key));
    }
}

/// Routing a served media request without reading it is routing it: the same
/// worker takes it, or the same error answers it, unless the members read its
/// voice name in two ways.
pub proof fn law_content_blind_media_dispatch_agrees(
    pool: PoolView,
    key: CohortKey,
    requirement: RouteRequirement,
)
    requires
        pool.wf(),
        content_blind(pool.roster, pool.voice_owner, key),
        forall|i: int| 0 <= i < pool.roster.len() ==> faultless(#[trigger] pool.roster[i]),
        key.service is SpeechHttp || key.service is TranscriptionHttp,
        requirement.domain() == key.trust,
        requirement.needs().service() == key.service,
        requirement.needs().task() == key.task,
        any(pool.serving(requirement)),
        pool.voice_reading(requirement) is Some,
    ensures
        same_worker(
            pool.dispatch_decision(key.service.class(), requirement),
            pool.choose_among(members(pool.roster, key)),
        ),
{
    law_reading_cannot_change_the_cohort(pool, key, requirement);
    lemma_cohort_has_one_default(pool, key);
    if pool.voice_reading(requirement) == Some(Some(VoiceNamePolicy::Uploaded)) {
        lemma_uploaded_cohort_is_the_owner(pool, key, requirement);
        lemma_sole_choice(pool, members(pool.roster, key), pool.voice_owner->Some_0);
    }
}

/// Of a cohort of which a member reads the voice name of a request as an
/// uploaded voice, the voice owner is the only member, and it has a default.
proof fn lemma_uploaded_cohort_is_the_owner(
    pool: PoolView,
    key: CohortKey,
    requirement: RouteRequirement,
)
    requires
        pool.wf(),
        content_blind(pool.roster, pool.voice_owner, key),
        key.service is SpeechHttp || key.service is TranscriptionHttp,
        requirement.domain() == key.trust,
        requirement.needs().service() == key.service,
        requirement.needs().task() == key.task,
        pool.reads_voice(requirement, VoiceNamePolicy::Uploaded),
    ensures
        ({
            let cohort = members(pool.roster, key);
            let owner = pool.voice_owner->Some_0 as int;
            &&& pool.voice_owner is Some
            &&& cohort[owner]
            &&& forall|i: int| 0 <= i < MAX_WORKERS && #[trigger] cohort[i] ==> i == owner
            &&& pool.roster[owner].serves(requirement)
            &&& pool.roster[owner].default is Some
        }),
{
    let cohort = members(pool.roster, key);
    let reader = choose|i: int|
        0 <= i < pool.roster.len() && (#[trigger] pool.roster[i]).trust == requirement.domain()
            && pool.roster[i].reads_voice(requirement, VoiceNamePolicy::Uploaded);
    let here = pool.roster[reader];
    let row = choose|row: int| #[trigger]
        here.row_serves(requirement, row) && here.profiles[row].policy() == Some(
            VoiceNamePolicy::Uploaded,
        );
    assert(here.profiles[row].serves(&requirement.needs(), here.default));
    assert(here.serves(requirement));
    lemma_serving_is_member(here, key, requirement);
    lemma_first_reads_uploaded(pool, key, requirement, reader, row);
    lemma_first_member(pool.roster, key, 0);
    assert forall|i: int| 0 <= i < MAX_WORKERS && #[trigger] cohort[i] implies i
        == pool.voice_owner->Some_0 by {
        assert(is_member(pool.roster[i], key));
    }
}

/// A choice of which there is only one falls on it, if it takes requests.
proof fn lemma_sole_choice(pool: PoolView, marked: Seq<bool>, worker: usize)
    requires
        pool.wf(),
        marked.len() == MAX_WORKERS,
        worker < pool.roster.len(),
        marked[worker as int],
        forall|i: int| 0 <= i < MAX_WORKERS && #[trigger] marked[i] ==> i == worker,
    ensures
        pool.workers[worker as int].routable() ==> pool.choose_among(marked) is Assign
            && pool.choose_among(marked)->Assign_0 == worker,
        !pool.workers[worker as int].routable() ==> pool.choose_among(marked) == Decision::Refuse(
            DispatchError::Unavailable,
        ),
{
    let routable = pool.routable(marked);
    if pool.workers[worker as int].routable() {
        assert(routable[worker as int]);
        lemma_pick(pool, routable);
    }
}

/// If a member of a speech cohort reads a voice name as an uploaded voice, so
/// does the first member.
proof fn lemma_first_reads_uploaded(
    pool: PoolView,
    key: CohortKey,
    requirement: RouteRequirement,
    reader: int,
    row: int,
)
    requires
        pool.wf(),
        content_blind(pool.roster, pool.voice_owner, key),
        0 <= reader < pool.roster.len(),
        is_member(pool.roster[reader], key),
        0 <= row < pool.roster[reader].profiles.len(),
        relevant(pool.roster[reader].profiles[row], key.service, key.task),
        pool.roster[reader].profiles[row].policy() == Some(VoiceNamePolicy::Uploaded),
    ensures
        reads_uploaded(
            pool.roster[first_member(pool.roster, key, 0)],
            key.service,
        ),
{
    let first = first_member(pool.roster, key, 0);
    let here = pool.roster[reader].profiles[row];
    let rows = pool.roster[first].profiles;
    assert(has_equivalent(here, rows, key.service, key.task));
    let j = choose|j: int|
        0 <= j < rows.len() && relevant(rows[j], key.service, key.task) && here.equivalent(
            #[trigger] &rows[j],
        );
    assert(rows[j].policy() == Some(VoiceNamePolicy::Uploaded));
}

/// A pool that drains admits nothing, and goes on draining whatever happens.
pub proof fn law_draining_is_final(
    pool: PoolView,
    admission: AdmissionHold,
    request: RequestHold,
    order: Seq<usize>,
)
    requires
        pool.admission.global.closed,
    ensures
        pool.admission.envelope_refusal() == Some(AdmissionError::Draining),
        pool.admission_returned(admission).admission.global.closed,
        pool.envelope_returned().admission.global.closed,
        pool.admission.class_taken(admission).global.closed,
        pool.assigned(request, order).admission.global.closed,
        pool.released(request).admission.global.closed,
{
}

/// Draining leaves admitted work alone: it closes the envelope, changes no
/// routing decision and returns no permit.
pub proof fn law_draining_preserves_admitted_work(
    pool: PoolView,
    class: CapacityClass,
    requirement: RouteRequirement,
    hold: AdmissionHold,
    marked: Seq<bool>,
)
    ensures
        pool.drained().admission.global.closed,
        pool.drained().admission.class_admits(hold) == pool.admission.class_admits(hold),
        pool.drained().dispatch_decision(class, requirement) == pool.dispatch_decision(
            class,
            requirement,
        ),
        pool.drained().session_decision(class, requirement) == pool.session_decision(
            class,
            requirement,
        ),
        pool.drained().choose_among(marked) == pool.choose_among(marked),
        pool.drained().owner_decision() == pool.owner_decision(),
        pool.drained().admission.global.in_flight() == pool.admission.global.in_flight(),
        pool.drained().admission.classes == pool.admission.classes,
        pool.drained().workers == pool.workers,
{
    let after = pool.drained();
    assert(after.serving(requirement) =~= pool.serving(requirement));
    assert(after.routable(marked) =~= pool.routable(marked));
    let serving = pool.serving(requirement);
    assert(after.routable(serving) =~= pool.routable(serving));
    let healthy = pool.routable(serving);
    assert(after.roomy(healthy, class) =~= pool.roomy(healthy, class));
    assert(after.least_loaded(healthy) =~= pool.least_loaded(healthy));
    let roomy = pool.roomy(healthy, class);
    assert(after.least_loaded(roomy) =~= pool.least_loaded(roomy));
    assert(after.least_loaded(pool.routable(marked)) =~= pool.least_loaded(pool.routable(marked)));
}

/// A configuration that validation accepts can be registered, and its rows
/// break no rule: what cohorts rest on holds of it.
pub proof fn law_validated_workers_are_registrable(workers: Seq<WorkerConfig>, i: int)
    requires
        workers_fault(workers, resolved_bases(workers)) is None,
        0 <= i < workers.len(),
    ensures
        workers.len() <= MAX_WORKERS,
        registrable(workers[i]),
        faultless(registration_of(workers[i])),
{
    lemma_no_worker_fault(workers, resolved_bases(workers), workers.len(), i);
    assert(resolved_bases(workers)[i] is Some);
}

/// Where no worker breaks a rule, worker `i` breaks none.
proof fn lemma_no_worker_fault(
    workers: Seq<WorkerConfig>,
    bases: Seq<Option<Seq<char>>>,
    count: nat,
    i: int,
)
    requires
        first_worker_fault(workers, bases, count) is None,
        0 <= i < count,
    ensures
        worker_fault(workers, bases, i) is None,
    decreases count,
{
    if i < count - 1 {
        lemma_no_worker_fault(workers, bases, (count - 1) as nat, i);
    }
}

} // verus!
