//! What becomes of every request and session, on the fields of the request, of
//! the rows and of the pool.

use vstd::prelude::*;

use crate::worker_pool::admission::DispatchError;
use crate::worker_pool::health::WorkerHealth;
use crate::worker_pool::profile::{
    CapacityClass, ModelSelection, ProfileRequirement, RouteRequirement, ServiceProfile,
    VoiceNamePolicy, MAX_WORKERS,
};
use crate::worker_pool::record::WorkerState;
use crate::worker_pool::routing::{any, lemma_contenders, Decision, PoolView};
use crate::worker_pool::selection::{
    first_candidate, lemma_candidate_has_turn, lemma_first_candidate,
};

verus! {

/// Row `row` of worker `i` is in the trust domain of the request and serves it.
pub open spec fn row_takes(pool: PoolView, requirement: RouteRequirement, i: int, row: int) -> bool {
    &&& 0 <= i < pool.roster.len()
    &&& pool.roster[i].trust == requirement.domain()
    &&& 0 <= row < pool.roster[i].profiles.len()
    &&& pool.roster[i].profiles[row].serves(&requirement.needs(), pool.roster[i].default)
}

/// Some row of worker `i` is in the trust domain of the request and serves it.
pub open spec fn takes(pool: PoolView, requirement: RouteRequirement, i: int) -> bool {
    exists|row: int| #[trigger] row_takes(pool, requirement, i, row)
}

/// The request is counted in the class.
pub open spec fn counts_in(needs: ProfileRequirement, class: CapacityClass) -> bool {
    match class {
        CapacityClass::GenerationHttp => needs is GenerationHttp,
        CapacityClass::SpeechHttp => needs is SpeechHttp,
        CapacityClass::SpeechBatch => needs is SpeechBatch,
        CapacityClass::TranscriptionHttp => needs is TranscriptionHttp,
        CapacityClass::SpeechWebsocket => needs is SpeechWebsocket,
        CapacityClass::RealtimeWebsocket => needs is RealtimeWebsocket,
    }
}

/// The request names a voice, and rows read the name by the policy.
pub open spec fn voice_is_read(
    needs: ProfileRequirement,
    row: ServiceProfile,
    policy: VoiceNamePolicy,
) -> bool {
    match (needs, row) {
        (
            ProfileRequirement::SpeechHttp { named_voice, .. },
            ServiceProfile::SpeechHttp { voice_name_policy, .. },
        ) => named_voice && voice_name_policy == policy,
        (
            ProfileRequirement::SpeechBatch { named_voice, .. },
            ServiceProfile::SpeechBatch { voice_name_policy, .. },
        ) => named_voice && voice_name_policy == policy,
        (
            ProfileRequirement::SpeechWebsocket { named_voice, .. },
            ServiceProfile::SpeechWebsocket { voice_name_policy, .. },
        ) => named_voice && voice_name_policy == policy,
        _ => false,
    }
}

/// Some row that takes the request reads its voice name by the policy.
pub open spec fn some_row_reads(
    pool: PoolView,
    requirement: RouteRequirement,
    policy: VoiceNamePolicy,
) -> bool {
    exists|i: int, row: int| #[trigger]
        row_takes(pool, requirement, i, row) && voice_is_read(
            requirement.needs(),
            pool.roster[i].profiles[row],
            policy,
        )
}

/// Some model of the request is left to the default of the worker.
pub open spec fn is_open(needs: ProfileRequirement) -> bool {
    match needs {
        ProfileRequirement::GenerationHttp { model, .. } => model == ModelSelection::UnresolvedDefault,
        ProfileRequirement::SpeechHttp { model, .. } => model == ModelSelection::UnresolvedDefault,
        ProfileRequirement::SpeechBatch { models, .. } => models@.contains(
            ModelSelection::UnresolvedDefault,
        ),
        ProfileRequirement::TranscriptionHttp { model, .. } => model
            == ModelSelection::UnresolvedDefault,
        ProfileRequirement::SpeechWebsocket { model, .. } => model
            == ModelSelection::UnresolvedDefault,
        ProfileRequirement::RealtimeWebsocket { .. } => false,
    }
}

/// Of the workers that take the request, one has no default, or two have
/// different ones.
pub open spec fn defaults_differ(pool: PoolView, requirement: RouteRequirement) -> bool {
    ||| exists|i: int| #[trigger] takes(pool, requirement, i) && pool.roster[i].default is None
    ||| exists|i: int, j: int|
        #![trigger takes(pool, requirement, i), takes(pool, requirement, j)]
        takes(pool, requirement, i) && takes(pool, requirement, j) && pool.roster[i].default
            != pool.roster[j].default
}

/// Worker `w` has a session of the class left to give.
pub open spec fn session_left(state: WorkerState, class: CapacityClass) -> bool {
    match class {
        CapacityClass::SpeechWebsocket => state.sessions[0] is Some
            && state.sessions[0]->Some_0.available >= 1,
        CapacityClass::RealtimeWebsocket => state.sessions[1] is Some
            && state.sessions[1]->Some_0.available >= 1,
        _ => false,
    }
}

/// The serving workers are those that take the request.
proof fn lemma_serving(pool: PoolView, requirement: RouteRequirement)
    requires
        pool.wf(),
    ensures
        forall|i: int|
            0 <= i < MAX_WORKERS ==> #[trigger] pool.serving(requirement)[i] == takes(
                pool,
                requirement,
                i,
            ),
        forall|i: int| #[trigger] takes(pool, requirement, i) ==> 0 <= i < pool.roster.len(),
        any(pool.serving(requirement)) <==> exists|i: int| #[trigger] takes(pool, requirement, i),
{
    let serving = pool.serving(requirement);
    assert forall|i: int| 0 <= i < MAX_WORKERS implies #[trigger] serving[i] == takes(
        pool,
        requirement,
        i,
    ) by {
        if serving[i] {
            let row = choose|row: int| #[trigger] pool.roster[i].row_serves(requirement, row);
            assert(row_takes(pool, requirement, i, row));
        }
        if takes(pool, requirement, i) {
            let row = choose|row: int| #[trigger] row_takes(pool, requirement, i, row);
            assert(pool.roster[i].row_serves(requirement, row));
        }
    }
    assert forall|i: int| #[trigger] takes(pool, requirement, i) implies 0 <= i
        < pool.roster.len() by {
        let row = choose|row: int| #[trigger] row_takes(pool, requirement, i, row);
    }
    if exists|i: int| #[trigger] takes(pool, requirement, i) {
        let i = choose|i: int| #[trigger] takes(pool, requirement, i);
        assert(serving[i]);
    }
    if any(serving) {
        let i = choose|i: int| 0 <= i < serving.len() && #[trigger] serving[i];
        assert(takes(pool, requirement, i));
    }
}

/// A voice name is read by a policy exactly where a row that takes the request
/// reads it so.
proof fn lemma_reading(pool: PoolView, requirement: RouteRequirement, policy: VoiceNamePolicy)
    ensures
        pool.reads_voice(requirement, policy) <==> some_row_reads(pool, requirement, policy),
{
    if pool.reads_voice(requirement, policy) {
        let i = choose|i: int|
            0 <= i < pool.roster.len() && (#[trigger] pool.roster[i]).trust == requirement.domain()
                && pool.roster[i].reads_voice(requirement, policy);
        let here = pool.roster[i];
        let row = choose|row: int| #[trigger]
            here.row_serves(requirement, row) && here.profiles[row].policy() == Some(policy);
        assert(row_takes(pool, requirement, i, row));
        assert(voice_is_read(requirement.needs(), here.profiles[row], policy));
    }
    if some_row_reads(pool, requirement, policy) {
        let (i, row) = choose|i: int, row: int| #[trigger]
            row_takes(pool, requirement, i, row) && voice_is_read(
                requirement.needs(),
                pool.roster[i].profiles[row],
                policy,
            );
        assert(pool.roster[i].row_serves(requirement, row));
    }
}

/// The defaults of the workers that take the request.
proof fn lemma_defaults(pool: PoolView, requirement: RouteRequirement)
    requires
        pool.wf(),
    ensures
        pool.one_default(pool.serving(requirement)) <==> !defaults_differ(pool, requirement),
        requirement.needs().leaves_model_open() <==> is_open(requirement.needs()),
{
    lemma_serving(pool, requirement);
    let serving = pool.serving(requirement);
    if !defaults_differ(pool, requirement) {
        assert forall|i: int| 0 <= i < pool.roster.len() && serving[i] implies (
        #[trigger] pool.roster[i]).default is Some by {
            assert(takes(pool, requirement, i));
        }
        assert forall|i: int, j: int|
            0 <= i < pool.roster.len() && 0 <= j < pool.roster.len() && serving[i]
                && serving[j] implies (#[trigger] pool.roster[i]).default == (
        #[trigger] pool.roster[j]).default by {
            assert(takes(pool, requirement, i) && takes(pool, requirement, j));
        }
    }
    if pool.one_default(serving) {
        assert forall|i: int| #[trigger] takes(pool, requirement, i) implies !(
        pool.roster[i].default is None) by {
            assert(serving[i]);
        }
        assert forall|i: int, j: int|
            #![trigger takes(pool, requirement, i), takes(pool, requirement, j)]
            takes(pool, requirement, i) && takes(pool, requirement, j) implies !(
        pool.roster[i].default != pool.roster[j].default) by {
            assert(serving[i] && serving[j]);
        }
    }
    if let ProfileRequirement::SpeechBatch { models, .. } = requirement.needs() {
        if models@.contains(ModelSelection::UnresolvedDefault) {
            let i = models@.index_of(ModelSelection::UnresolvedDefault);
            assert(models@[i] is UnresolvedDefault);
        }
        if requirement.needs().leaves_model_open() {
            let i = choose|i: int|
                0 <= i < models@.len() && (#[trigger] models@[i]) is UnresolvedDefault;
            assert(models@.contains(models@[i]));
        }
    }
}

/// A request or session that names a voice, of whatever speech service, goes to
/// the voice owner or nowhere as soon as one row that serves it in its trust
/// domain reads voice names as uploaded voices.
pub proof fn law_named_uploaded_voice_goes_to_its_owner(
    pool: PoolView,
    class: CapacityClass,
    requirement: RouteRequirement,
    worker: int,
    row: int,
)
    requires
        0 <= worker < pool.roster.len(),
        pool.roster[worker].trust == requirement.domain(),
        0 <= row < pool.roster[worker].profiles.len(),
        pool.roster[worker].profiles[row].serves(
            &requirement.needs(),
            pool.roster[worker].default,
        ),
        match (requirement.needs(), pool.roster[worker].profiles[row]) {
            (
                ProfileRequirement::SpeechHttp { named_voice, .. },
                ServiceProfile::SpeechHttp { voice_name_policy, .. },
            ) => named_voice && voice_name_policy is Uploaded,
            (
                ProfileRequirement::SpeechBatch { named_voice, .. },
                ServiceProfile::SpeechBatch { voice_name_policy, .. },
            ) => named_voice && voice_name_policy is Uploaded,
            (
                ProfileRequirement::SpeechWebsocket { named_voice, .. },
                ServiceProfile::SpeechWebsocket { voice_name_policy, .. },
            ) => named_voice && voice_name_policy is Uploaded,
            _ => false,
        },
    ensures
        pool.dispatch_decision(class, requirement) matches Decision::Assign(chosen, _)
            ==> pool.voice_owner == Some(chosen),
        pool.session_decision(class, requirement) matches Decision::Assign(chosen, _)
            ==> pool.voice_owner == Some(chosen),
{
    assert(row_takes(pool, requirement, worker, row));
    lemma_reading(pool, requirement, VoiceNamePolicy::Uploaded);
}

/// A request or session whose voice name is a preset on one row that serves it
/// and an uploaded voice on another is refused as ambiguous.
pub proof fn law_voice_name_of_two_readings_is_refused(
    pool: PoolView,
    class: CapacityClass,
    requirement: RouteRequirement,
)
    requires
        some_row_reads(pool, requirement, VoiceNamePolicy::Preset),
        some_row_reads(pool, requirement, VoiceNamePolicy::Uploaded),
        counts_in(requirement.needs(), class),
    ensures
        pool.dispatch_decision(class, requirement) == Decision::Refuse(
            DispatchError::AmbiguousModel,
        ),
        requirement.needs() is SpeechWebsocket ==> pool.session_decision(class, requirement)
            == Decision::Refuse(DispatchError::AmbiguousModel),
{
    lemma_reading(pool, requirement, VoiceNamePolicy::Preset);
    lemma_reading(pool, requirement, VoiceNamePolicy::Uploaded);
}

/// A request for an uploaded voice goes to the voice owner exactly when there
/// is one, it takes the request, it is healthy and, where the request leaves
/// its model open, it has a default. Nobody's turn is used up. Otherwise the
/// first of these that fails names the refusal.
pub proof fn law_voice_owner_takes_what_it_can(
    pool: PoolView,
    class: CapacityClass,
    requirement: RouteRequirement,
)
    requires
        pool.wf(),
        some_row_reads(pool, requirement, VoiceNamePolicy::Uploaded),
        !some_row_reads(pool, requirement, VoiceNamePolicy::Preset),
        counts_in(requirement.needs(), class),
    ensures
        ({
            let decision = pool.dispatch_decision(class, requirement);
            match pool.voice_owner {
                None => decision == Decision::Refuse(DispatchError::NoEligibleProfile),
                Some(owner) => {
                    let mute = is_open(requirement.needs()) && pool.roster[owner as int].default
                        is None;
                    if !takes(pool, requirement, owner as int) {
                        decision == Decision::Refuse(DispatchError::NoEligibleProfile)
                    } else if mute {
                        decision == Decision::Refuse(DispatchError::AmbiguousModel)
                    } else if pool.workers[owner as int].health != WorkerHealth::Healthy {
                        decision == Decision::Refuse(DispatchError::Unavailable)
                    } else {
                        decision == Decision::Assign(owner, pool.order)
                    }
                },
            }
        }),
{
    lemma_reading(pool, requirement, VoiceNamePolicy::Preset);
    lemma_reading(pool, requirement, VoiceNamePolicy::Uploaded);
    lemma_serving(pool, requirement);
    lemma_defaults(pool, requirement);
    if let Some(owner) = pool.voice_owner {
        assert(pool.serving(requirement)[owner as int] == takes(pool, requirement, owner as int));
    }
}

/// A session with an uploaded voice goes to the voice owner exactly when a
/// request would, and the owner has a session left to give.
pub proof fn law_voice_owner_takes_sessions_while_it_has_room(
    pool: PoolView,
    requirement: RouteRequirement,
)
    requires
        pool.wf(),
        requirement.needs() is SpeechWebsocket,
        some_row_reads(pool, requirement, VoiceNamePolicy::Uploaded),
        !some_row_reads(pool, requirement, VoiceNamePolicy::Preset),
    ensures
        ({
            let class = CapacityClass::SpeechWebsocket;
            let request = pool.dispatch_decision(class, requirement);
            let session = pool.session_decision(class, requirement);
            match request {
                Decision::Refuse(_) => session == request,
                Decision::Assign(owner, _) => match pool.workers[owner as int].sessions[0] {
                    None => session == Decision::Refuse(DispatchError::Internal),
                    Some(sessions) => if sessions.available == 0 {
                        session == Decision::Refuse(DispatchError::Overloaded)
                    } else {
                        session == request
                    },
                },
            }
        }),
{
    lemma_reading(pool, requirement, VoiceNamePolicy::Preset);
    lemma_reading(pool, requirement, VoiceNamePolicy::Uploaded);
}

/// Where no row reads a voice name as an uploaded voice, it does not matter
/// who owns the voices.
pub proof fn law_voice_owner_plays_no_other_part(
    pool: PoolView,
    class: CapacityClass,
    requirement: RouteRequirement,
    owner: Option<usize>,
)
    requires
        !some_row_reads(pool, requirement, VoiceNamePolicy::Uploaded),
    ensures
        ({
            let other = PoolView { voice_owner: owner, ..pool };
            &&& other.dispatch_decision(class, requirement) == pool.dispatch_decision(
                class,
                requirement,
            )
            &&& other.session_decision(class, requirement) == pool.session_decision(
                class,
                requirement,
            )
        }),
{
    let other = PoolView { voice_owner: owner, ..pool };
    lemma_reading(pool, requirement, VoiceNamePolicy::Uploaded);
    lemma_reading(pool, requirement, VoiceNamePolicy::Preset);
    lemma_reading(other, requirement, VoiceNamePolicy::Uploaded);
    lemma_reading(other, requirement, VoiceNamePolicy::Preset);
    lemma_same_readings(pool, other, requirement);
    assert(other.serving(requirement) =~= pool.serving(requirement));
    let serving = pool.serving(requirement);
    assert(other.one_default(serving) == pool.one_default(serving));
    assert(other.routable(serving) =~= pool.routable(serving));
    let healthy = pool.routable(serving);
    assert(other.roomy(healthy, class) =~= pool.roomy(healthy, class));
    assert(other.least_loaded(healthy) =~= pool.least_loaded(healthy));
    let roomy = pool.roomy(healthy, class);
    assert(other.least_loaded(roomy) =~= pool.least_loaded(roomy));
}

/// Voice names are read by the roster alone.
proof fn lemma_same_readings(pool: PoolView, other: PoolView, requirement: RouteRequirement)
    requires
        pool.roster == other.roster,
    ensures
        pool.voice_reading(requirement) == other.voice_reading(requirement),
{
    assert(pool.reads_voice(requirement, VoiceNamePolicy::Preset) == other.reads_voice(
        requirement,
        VoiceNamePolicy::Preset,
    ));
    assert(pool.reads_voice(requirement, VoiceNamePolicy::Uploaded) == other.reads_voice(
        requirement,
        VoiceNamePolicy::Uploaded,
    ));
}

/// A request or session in a class that is not its own fails internally, and so
/// does a session in a class that has none.
pub proof fn law_wrong_class_fails_internally(
    pool: PoolView,
    class: CapacityClass,
    requirement: RouteRequirement,
)
    ensures
        !counts_in(requirement.needs(), class) ==> pool.dispatch_decision(class, requirement)
            == Decision::Refuse(DispatchError::Internal),
        !(counts_in(requirement.needs(), class) && (class is SpeechWebsocket
            || class is RealtimeWebsocket)) ==> pool.session_decision(class, requirement)
            == Decision::Refuse(DispatchError::Internal),
{
}

/// What becomes of a request whose voice name, if it has one, is no uploaded
/// voice. It is refused for want of a profile exactly where no worker takes it;
/// as ambiguous exactly where its model is open and those that take it differ
/// in their defaults; as unavailable exactly where of those that take it none
/// is healthy; and else it is assigned.
pub proof fn law_request_is_assigned_wherever_it_can_be(
    pool: PoolView,
    class: CapacityClass,
    requirement: RouteRequirement,
)
    requires
        pool.wf(),
        counts_in(requirement.needs(), class),
        !some_row_reads(pool, requirement, VoiceNamePolicy::Uploaded),
    ensures
        ({
            let decision = pool.dispatch_decision(class, requirement);
            let ambiguous = is_open(requirement.needs()) && defaults_differ(pool, requirement);
            if !(exists|i: int| #[trigger] takes(pool, requirement, i)) {
                decision == Decision::Refuse(DispatchError::NoEligibleProfile)
            } else if ambiguous {
                decision == Decision::Refuse(DispatchError::AmbiguousModel)
            } else if exists|i: int| #[trigger]
                takes(pool, requirement, i) && pool.workers[i].health is Healthy {
                decision is Assign
            } else {
                decision == Decision::Refuse(DispatchError::Unavailable)
            }
        }),
{
    lemma_reading(pool, requirement, VoiceNamePolicy::Uploaded);
    lemma_serving(pool, requirement);
    lemma_defaults(pool, requirement);
    let serving = pool.serving(requirement);
    let healthy = pool.routable(serving);
    if exists|i: int| #[trigger] takes(pool, requirement, i) && pool.workers[i].health is Healthy {
        let i = choose|i: int| #[trigger]
            takes(pool, requirement, i) && pool.workers[i].health is Healthy;
        assert(serving[i]);
        assert(healthy[i]);
    }
    if any(healthy) {
        let i = choose|i: int| 0 <= i < healthy.len() && #[trigger] healthy[i];
        assert(serving[i]);
        lemma_picked(pool, healthy);
    }
}

/// What becomes of a session whose voice name, if it has one, is no uploaded
/// voice. It is refused and assigned as a request would be, but among the
/// healthy workers that take it only those count that have a session left to
/// give: it is refused as overloaded exactly where none of them has.
pub proof fn law_session_is_assigned_wherever_there_is_room(
    pool: PoolView,
    class: CapacityClass,
    requirement: RouteRequirement,
)
    requires
        pool.wf(),
        counts_in(requirement.needs(), class),
        class is SpeechWebsocket || class is RealtimeWebsocket,
        !some_row_reads(pool, requirement, VoiceNamePolicy::Uploaded),
    ensures
        ({
            let decision = pool.session_decision(class, requirement);
            let ambiguous = is_open(requirement.needs()) && defaults_differ(pool, requirement);
            if !(exists|i: int| #[trigger] takes(pool, requirement, i)) {
                decision == Decision::Refuse(DispatchError::NoEligibleProfile)
            } else if ambiguous {
                decision == Decision::Refuse(DispatchError::AmbiguousModel)
            } else if exists|i: int| #[trigger]
                takes(pool, requirement, i) && pool.workers[i].health is Healthy && session_left(
                    pool.workers[i],
                    class,
                ) {
                decision is Assign
            } else if exists|i: int| #[trigger]
                takes(pool, requirement, i) && pool.workers[i].health is Healthy {
                decision == Decision::Refuse(DispatchError::Overloaded)
            } else {
                decision == Decision::Refuse(DispatchError::Unavailable)
            }
        }),
{
    lemma_reading(pool, requirement, VoiceNamePolicy::Uploaded);
    lemma_serving(pool, requirement);
    lemma_defaults(pool, requirement);
    let serving = pool.serving(requirement);
    let healthy = pool.routable(serving);
    let roomy = pool.roomy(healthy, class);
    if exists|i: int| #[trigger] takes(pool, requirement, i) && pool.workers[i].health is Healthy {
        let i = choose|i: int| #[trigger]
            takes(pool, requirement, i) && pool.workers[i].health is Healthy;
        assert(serving[i]);
        assert(healthy[i]);
    }
    if exists|i: int| #[trigger]
        takes(pool, requirement, i) && pool.workers[i].health is Healthy && session_left(
            pool.workers[i],
            class,
        ) {
        let i = choose|i: int| #[trigger]
            takes(pool, requirement, i) && pool.workers[i].health is Healthy && session_left(
                pool.workers[i],
                class,
            );
        assert(serving[i]);
        assert(healthy[i]);
        assert(roomy[i]);
    }
    if any(healthy) {
        let i = choose|i: int| 0 <= i < healthy.len() && #[trigger] healthy[i];
        assert(serving[i]);
    }
    if any(roomy) {
        let i = choose|i: int| 0 <= i < roomy.len() && #[trigger] roomy[i];
        assert(healthy[i] && serving[i]);
        lemma_picked(pool, roomy);
    }
}

/// Worker `w` stands at `place` in the turn order, and nobody who is marked
/// and would do as well stands ahead of it.
pub open spec fn is_next(
    pool: PoolView,
    marked: Seq<bool>,
    place: int,
    w: usize,
) -> bool {
    &&& 0 <= place < pool.order.len()
    &&& pool.order[place] == w
    &&& marked[w as int]
    &&& pool.strategy is LeastRequests ==> forall|j: int|
        0 <= j < MAX_WORKERS && #[trigger] marked[j] ==> pool.workers[w as int].load
            <= pool.workers[j].load
    &&& forall|ahead: int|
        0 <= ahead < place ==> !marked[#[trigger] pool.order[ahead] as int] || (
        pool.strategy is LeastRequests && pool.workers[pool.order[ahead] as int].load
            > pool.workers[w as int].load)
}

/// A pick among marked workers of the roster is the next one, who then goes to
/// the end of the turn order.
proof fn lemma_picked(pool: PoolView, marked: Seq<bool>)
    requires
        pool.wf(),
        any(marked),
        marked.len() == MAX_WORKERS,
        forall|i: int| 0 <= i < MAX_WORKERS && #[trigger] marked[i] ==> i < pool.roster.len(),
    ensures
        pool.pick(marked) is Assign,
        pool.pick(marked)->Assign_0 < pool.roster.len(),
        marked[pool.pick(marked)->Assign_0 as int],
        ({
            let w = pool.pick(marked)->Assign_0;
            let place = pool.order.index_of(w);
            &&& is_next(pool, marked, place, w)
            &&& pool.pick(marked)->Assign_1 == pool.order.remove(place).push(w)
        }),
{
    lemma_contenders(pool, marked);
    let contenders = pool.contenders(marked);
    let w = choose|w: int| 0 <= w < MAX_WORKERS && #[trigger] contenders[w];
    assert(marked[w]);
    lemma_candidate_has_turn(pool.order, contenders, pool.roster.len(), w as usize);
    lemma_first_candidate(pool.order, contenders, 0);
    let place = first_candidate(pool.order, contenders, 0);
    let chosen = pool.order[place];
    assert(contenders[chosen as int]);
    assert forall|ahead: int| 0 <= ahead < place implies !marked[#[trigger] pool.order[ahead] as int]
        || (pool.strategy is LeastRequests && pool.workers[pool.order[ahead] as int].load
        > pool.workers[chosen as int].load) by {
        let other = pool.order[ahead] as int;
        assert(!contenders[other]);
        if marked[other] && pool.strategy is LeastRequests {
            let j = choose|j: int|
                0 <= j < MAX_WORKERS && #[trigger] marked[j] && !(pool.workers[other].load
                    <= pool.workers[j].load);
            assert(pool.workers[chosen as int].load <= pool.workers[j].load);
        }
    }
    assert(pool.order.contains(chosen));
    assert(pool.order.index_of(chosen) == place);
    assert(is_next(pool, marked, place, chosen));
}

/// Whoever is assigned a request or a session is in its trust domain, has a row
/// that serves it, is healthy and, for a session, has one left to give.
pub proof fn law_assigned_worker_is_fit(
    pool: PoolView,
    class: CapacityClass,
    requirement: RouteRequirement,
)
    requires
        pool.wf(),
    ensures
        pool.dispatch_decision(class, requirement) matches Decision::Assign(w, _) ==> {
            &&& w < pool.roster.len()
            &&& pool.roster[w as int].trust == requirement.domain()
            &&& exists|row: int|
                0 <= row < pool.roster[w as int].profiles.len() && (
                #[trigger] pool.roster[w as int].profiles[row]).serves(
                    &requirement.needs(),
                    pool.roster[w as int].default,
                )
            &&& pool.workers[w as int].health is Healthy
        },
        pool.session_decision(class, requirement) matches Decision::Assign(w, _) ==> {
            &&& w < pool.roster.len()
            &&& pool.roster[w as int].trust == requirement.domain()
            &&& exists|row: int|
                0 <= row < pool.roster[w as int].profiles.len() && (
                #[trigger] pool.roster[w as int].profiles[row]).serves(
                    &requirement.needs(),
                    pool.roster[w as int].default,
                )
            &&& pool.workers[w as int].health is Healthy
            &&& class is SpeechWebsocket || class is RealtimeWebsocket
            &&& class is SpeechWebsocket ==> pool.workers[w as int].sessions[0] is Some
                && pool.workers[w as int].sessions[0]->Some_0.available > 0
            &&& class is RealtimeWebsocket ==> pool.workers[w as int].sessions[1] is Some
                && pool.workers[w as int].sessions[1]->Some_0.available > 0
        },
{
    lemma_serving(pool, requirement);
    let serving = pool.serving(requirement);
    let healthy = pool.routable(serving);
    let roomy = pool.roomy(healthy, class);
    if any(healthy) {
        lemma_picked(pool, healthy);
    }
    if any(roomy) {
        lemma_picked(pool, roomy);
    }
    if let Decision::Assign(w, _) = pool.dispatch_decision(class, requirement) {
        assert(pool.roster[w as int].serves(requirement));
        let row = choose|row: int| #[trigger] pool.roster[w as int].row_serves(requirement, row);
        assert(pool.roster[w as int].profiles[row].serves(
            &requirement.needs(),
            pool.roster[w as int].default,
        ));
    }
    if let Decision::Assign(w, _) = pool.session_decision(class, requirement) {
        assert(pool.roster[w as int].serves(requirement));
        let row = choose|row: int| #[trigger] pool.roster[w as int].row_serves(requirement, row);
        assert(pool.roster[w as int].profiles[row].serves(
            &requirement.needs(),
            pool.roster[w as int].default,
        ));
    }
}

/// Under round robin a choice falls on whoever stands first in the turn order
/// among the marked workers that are healthy, and moves it to the end.
pub proof fn law_round_robin_takes_the_next_in_order(pool: PoolView, marked: Seq<bool>)
    requires
        pool.wf(),
        marked.len() == MAX_WORKERS,
        pool.strategy is RoundRobin,
        exists|i: int|
            0 <= i < pool.roster.len() && #[trigger] marked[i] && pool.workers[i].health is Healthy,
    ensures
        pool.choose_among(marked) is Assign,
        ({
            let w = pool.choose_among(marked)->Assign_0;
            let place = pool.order.index_of(w);
            &&& pool.order.contains(w)
            &&& pool.choose_among(marked)->Assign_1 == pool.order.remove(place).push(w)
            &&& marked[w as int]
            &&& pool.workers[w as int].health is Healthy
            &&& forall|ahead: int|
                0 <= ahead < place ==> !(marked[#[trigger] pool.order[ahead] as int]
                    && pool.workers[pool.order[ahead] as int].health is Healthy)
        }),
{
    let routable = pool.routable(marked);
    let i = choose|i: int|
        0 <= i < pool.roster.len() && #[trigger] marked[i] && pool.workers[i].health is Healthy;
    assert(routable[i]);
    lemma_picked(pool, routable);
    let w = pool.choose_among(marked)->Assign_0;
    let place = pool.order.index_of(w);
    assert(pool.order[place] == w);
    assert forall|ahead: int| 0 <= ahead < place implies !(
    marked[#[trigger] pool.order[ahead] as int] && pool.workers[pool.order[ahead] as int].health
        is Healthy) by {
        assert(pool.order[ahead] < pool.roster.len());
        assert(!routable[pool.order[ahead] as int]);
    }
}

/// Under least-requests a choice falls on a marked worker that is healthy and
/// has the least load of all such, on the one of them that stands first in the
/// turn order, and moves it to the end.
pub proof fn law_least_requests_takes_the_least_loaded(pool: PoolView, marked: Seq<bool>)
    requires
        pool.wf(),
        marked.len() == MAX_WORKERS,
        pool.strategy is LeastRequests,
        exists|i: int|
            0 <= i < pool.roster.len() && #[trigger] marked[i] && pool.workers[i].health is Healthy,
    ensures
        pool.choose_among(marked) is Assign,
        ({
            let w = pool.choose_among(marked)->Assign_0;
            let place = pool.order.index_of(w);
            &&& pool.order.contains(w)
            &&& pool.choose_among(marked)->Assign_1 == pool.order.remove(place).push(w)
            &&& marked[w as int]
            &&& pool.workers[w as int].health is Healthy
            &&& forall|j: int|
                0 <= j < pool.roster.len() && #[trigger] marked[j] && pool.workers[j].health
                    is Healthy ==> pool.workers[w as int].load <= pool.workers[j].load
            &&& forall|ahead: int|
                0 <= ahead < place && marked[#[trigger] pool.order[ahead] as int]
                    && pool.workers[pool.order[ahead] as int].health is Healthy
                    ==> pool.workers[pool.order[ahead] as int].load > pool.workers[w as int].load
        }),
{
    let routable = pool.routable(marked);
    let i = choose|i: int|
        0 <= i < pool.roster.len() && #[trigger] marked[i] && pool.workers[i].health is Healthy;
    assert(routable[i]);
    lemma_picked(pool, routable);
    let w = pool.choose_among(marked)->Assign_0;
    let place = pool.order.index_of(w);
    assert(pool.order[place] == w);
    assert forall|j: int|
        0 <= j < pool.roster.len() && #[trigger] marked[j] && pool.workers[j].health
            is Healthy implies pool.workers[w as int].load <= pool.workers[j].load by {
        assert(routable[j]);
    }
    assert forall|ahead: int|
        0 <= ahead < place && marked[#[trigger] pool.order[ahead] as int]
            && pool.workers[pool.order[ahead] as int].health is Healthy implies
        pool.workers[pool.order[ahead] as int].load > pool.workers[w as int].load by {
        assert(pool.order[ahead] < pool.roster.len());
        assert(routable[pool.order[ahead] as int]);
    }
}

/// The two pools differ in nothing but the load of their workers.
pub open spec fn alike_but_for_load(pool: PoolView, other: PoolView) -> bool {
    &&& pool.roster == other.roster
    &&& pool.strategy == other.strategy
    &&& pool.voice_owner == other.voice_owner
    &&& pool.order == other.order
    &&& pool.workers.len() == other.workers.len()
    &&& forall|i: int|
        #![trigger pool.workers[i]]
        #![trigger other.workers[i]]
        0 <= i < pool.workers.len() ==> pool.workers[i].health == other.workers[i].health
            && pool.workers[i].sessions == other.workers[i].sessions
}

/// Under round robin load does not matter: two pools that differ only in the
/// load of their workers take every decision alike.
pub proof fn law_round_robin_ignores_load(
    pool: PoolView,
    other: PoolView,
    marked: Seq<bool>,
    class: CapacityClass,
    requirement: RouteRequirement,
)
    requires
        pool.wf(),
        other.wf(),
        pool.strategy is RoundRobin,
        alike_but_for_load(pool, other),
    ensures
        pool.choose_among(marked) == other.choose_among(marked),
        pool.dispatch_decision(class, requirement) == other.dispatch_decision(class, requirement),
        pool.session_decision(class, requirement) == other.session_decision(class, requirement),
{
    lemma_same_readings(pool, other, requirement);
    let serving = pool.serving(requirement);
    assert(other.serving(requirement) =~= serving);
    assert(other.one_default(serving) == pool.one_default(serving));
    assert(other.routable(marked) =~= pool.routable(marked));
    assert(other.routable(serving) =~= pool.routable(serving));
    let healthy = pool.routable(serving);
    assert(other.roomy(healthy, class) =~= pool.roomy(healthy, class));
    if let Some(owner) = pool.voice_owner {
        assert(pool.workers[owner as int].health == other.workers[owner as int].health);
    }
}

/// A request that is not for an uploaded voice takes its turn among all healthy
/// workers that take it: whoever stands ahead of its worker in the turn order
/// is not one of them, or, under least-requests, has more load; and under
/// least-requests none of them has less load.
pub proof fn law_requests_take_turns(
    pool: PoolView,
    class: CapacityClass,
    requirement: RouteRequirement,
)
    requires
        pool.wf(),
        !some_row_reads(pool, requirement, VoiceNamePolicy::Uploaded),
    ensures
        pool.dispatch_decision(class, requirement) matches Decision::Assign(w, order) ==> {
            &&& pool.order.contains(w)
            &&& order == pool.order.remove(pool.order.index_of(w)).push(w)
            &&& forall|ahead: int|
                #![trigger pool.order[ahead]]
                0 <= ahead < pool.order.index_of(w) && takes(
                    pool,
                    requirement,
                    pool.order[ahead] as int,
                ) && pool.workers[pool.order[ahead] as int].health is Healthy
                    ==> pool.strategy is LeastRequests
                    && pool.workers[pool.order[ahead] as int].load > pool.workers[w as int].load
            &&& pool.strategy is LeastRequests ==> forall|j: int|
                #[trigger] takes(pool, requirement, j) && pool.workers[j].health is Healthy
                    ==> pool.workers[w as int].load <= pool.workers[j].load
        },
{
    lemma_reading(pool, requirement, VoiceNamePolicy::Uploaded);
    lemma_serving(pool, requirement);
    let healthy = pool.routable(pool.serving(requirement));
    if any(healthy) {
        lemma_picked(pool, healthy);
    }
    if let Decision::Assign(w, order) = pool.dispatch_decision(class, requirement) {
        let place = pool.order.index_of(w);
        assert(pool.order[place] == w);
        assert forall|ahead: int|
            #![trigger pool.order[ahead]]
            0 <= ahead < place && takes(pool, requirement, pool.order[ahead] as int)
                && pool.workers[pool.order[ahead] as int].health is Healthy implies
            pool.strategy is LeastRequests && pool.workers[pool.order[ahead] as int].load
            > pool.workers[w as int].load by {
            assert(pool.serving(requirement)[pool.order[ahead] as int]);
            assert(healthy[pool.order[ahead] as int]);
        }
        if pool.strategy is LeastRequests {
            assert forall|j: int|
                #[trigger] takes(pool, requirement, j) && pool.workers[j].health
                    is Healthy implies pool.workers[w as int].load <= pool.workers[j].load by {
                assert(pool.serving(requirement)[j]);
                assert(healthy[j]);
            }
        }
    }
}

/// A session that is not for an uploaded voice takes its turn, as requests do,
/// among all healthy workers that take it and have a session left to give.
pub proof fn law_sessions_take_turns(
    pool: PoolView,
    class: CapacityClass,
    requirement: RouteRequirement,
)
    requires
        pool.wf(),
        !some_row_reads(pool, requirement, VoiceNamePolicy::Uploaded),
    ensures
        pool.session_decision(class, requirement) matches Decision::Assign(w, order) ==> {
            &&& pool.order.contains(w)
            &&& order == pool.order.remove(pool.order.index_of(w)).push(w)
            &&& forall|ahead: int|
                #![trigger pool.order[ahead]]
                0 <= ahead < pool.order.index_of(w) && takes(
                    pool,
                    requirement,
                    pool.order[ahead] as int,
                ) && pool.workers[pool.order[ahead] as int].health is Healthy && session_left(
                    pool.workers[pool.order[ahead] as int],
                    class,
                ) ==> pool.strategy is LeastRequests
                    && pool.workers[pool.order[ahead] as int].load > pool.workers[w as int].load
            &&& pool.strategy is LeastRequests ==> forall|j: int|
                #[trigger] takes(pool, requirement, j) && pool.workers[j].health is Healthy
                    && session_left(pool.workers[j], class) ==> pool.workers[w as int].load
                    <= pool.workers[j].load
        },
{
    lemma_reading(pool, requirement, VoiceNamePolicy::Uploaded);
    lemma_serving(pool, requirement);
    let healthy = pool.routable(pool.serving(requirement));
    let roomy = pool.roomy(healthy, class);
    if any(roomy) {
        lemma_picked(pool, roomy);
    }
    if let Decision::Assign(w, order) = pool.session_decision(class, requirement) {
        let place = pool.order.index_of(w);
        assert(pool.order[place] == w);
        assert forall|ahead: int|
            #![trigger pool.order[ahead]]
            0 <= ahead < place && takes(pool, requirement, pool.order[ahead] as int)
                && pool.workers[pool.order[ahead] as int].health is Healthy && session_left(
                pool.workers[pool.order[ahead] as int],
                class,
            ) implies pool.strategy is LeastRequests && pool.workers[pool.order[ahead] as int].load
            > pool.workers[w as int].load by {
            assert(pool.serving(requirement)[pool.order[ahead] as int]);
            assert(healthy[pool.order[ahead] as int]);
            assert(roomy[pool.order[ahead] as int]);
        }
        if pool.strategy is LeastRequests {
            assert forall|j: int|
                #[trigger] takes(pool, requirement, j) && pool.workers[j].health is Healthy
                    && session_left(pool.workers[j], class) implies pool.workers[w as int].load
                <= pool.workers[j].load by {
                assert(pool.serving(requirement)[j]);
                assert(healthy[j]);
                assert(roomy[j]);
            }
        }
    }
}

/// A request for the voice owner goes to it exactly when there is one and it is
/// healthy, and uses up nobody's turn.
pub proof fn law_owner_request_needs_a_healthy_owner(pool: PoolView)
    ensures
        pool.voice_owner is None ==> pool.owner_decision() == Decision::Refuse(
            DispatchError::Internal,
        ),
        pool.voice_owner matches Some(owner) ==> {
            if pool.workers[owner as int].health is Healthy {
                pool.owner_decision() == Decision::Assign(owner, pool.order)
            } else {
                pool.owner_decision() == Decision::Refuse(DispatchError::Unavailable)
            }
        },
{
}

} // verus!
