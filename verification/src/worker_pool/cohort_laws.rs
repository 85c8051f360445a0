//! Which workers form a cohort, which cohorts are routed unread, and what is
//! ready, on the fields of workers and rows.

use vstd::prelude::*;

use crate::config::HttpMediaRoute;
use crate::worker_pool::cohorts::{
    content_blind, first_member, generation_key, has_equivalent, homogeneous, is_member,
    lemma_first_member, members, reads_uploaded, relevant, relevant_rows, rows_agree, CohortKey,
};
use crate::worker_pool::matching_laws::law_row_equivalence_is_reflexive;
use crate::worker_pool::pool::media_key;
use crate::worker_pool::profile::{
    ServiceClass, ServiceProfile, SpeechToTextTask, VoiceNamePolicy, MAX_WORKERS,
};
use crate::worker_pool::readiness::{endpoint_ready, endpoints_ready};
use crate::worker_pool::record::Registration;
use crate::worker_pool::routing::{takes_batch, PoolView};
use crate::worker_pool::selection::{is_turn_order, lemma_turn_order_is_total};

verus! {

/// The row is of the kind of the service.
pub open spec fn is_kind(row: ServiceProfile, service: ServiceClass) -> bool {
    match service {
        ServiceClass::GenerationHttp => row is GenerationHttp,
        ServiceClass::SpeechHttp => row is SpeechHttp,
        ServiceClass::SpeechBatch => row is SpeechBatch,
        ServiceClass::TranscriptionHttp => row is TranscriptionHttp,
        ServiceClass::SpeechWebsocket => row is SpeechWebsocket,
        ServiceClass::RealtimeWebsocket => row is RealtimeWebsocket,
    }
}

/// A row counts for a service when it is of its kind, and a recognition row
/// moreover only for its own task.
pub proof fn law_rows_count_for_their_own_service(
    row: ServiceProfile,
    service: ServiceClass,
    task: Option<SpeechToTextTask>,
)
    ensures
        row is TranscriptionHttp ==> (relevant(row, service, task) <==> service is TranscriptionHttp
            && task == Some(row->TranscriptionHttp_task)),
        !(row is TranscriptionHttp) ==> (relevant(row, service, task) <==> is_kind(row, service)
            && task is None),
{
}

/// The speech endpoints ask for speech and batch rows; the two recognition
/// endpoints ask for recognition rows of their task.
pub proof fn law_endpoints_ask_for_their_own_rows(route: HttpMediaRoute, row: ServiceProfile)
    ensures
        relevant(row, route.service(), route.task()) <==> {
            ||| route is Speech && row is SpeechHttp
            ||| route is SpeechBatch && row is SpeechBatch
            ||| route is Transcription && row is TranscriptionHttp && row->TranscriptionHttp_task
                is Transcribe
            ||| route is Translation && row is TranscriptionHttp && row->TranscriptionHttp_task
                is Translate
        },
{
}

/// A worker is in a cohort when it is in its trust domain and has a row that
/// counts for its service and task.
pub proof fn law_cohorts_stay_in_their_domain(roster: Seq<Registration>, key: CohortKey, i: int)
    requires
        roster.len() <= MAX_WORKERS,
        0 <= i < MAX_WORKERS,
    ensures
        members(roster, key)[i] <==> i < roster.len() && roster[i].trust == key.trust && exists|
            row: int,
        |
            0 <= row < roster[i].profiles.len() && relevant(
                #[trigger] roster[i].profiles[row],
                key.service,
                key.task,
            ),
{
}

/// Rows in any order agree with themselves.
pub proof fn law_reordered_rows_agree(
    left: Seq<ServiceProfile>,
    right: Seq<ServiceProfile>,
    places: Seq<usize>,
    service: ServiceClass,
    task: Option<SpeechToTextTask>,
)
    requires
        left.len() == right.len() <= usize::MAX,
        is_turn_order(places, left.len()),
        forall|i: int| 0 <= i < left.len() ==> #[trigger] left[i] == right[places[i] as int],
    ensures
        rows_agree(left, right, service, task),
{
    let ours = relevant_rows(left, service, task);
    let theirs = relevant_rows(right, service, task);
    let moved = |i: int| places[i] as int;
    assert forall|i: int| 0 <= i < left.len() && relevant(left[i], service, task) implies
        has_equivalent(#[trigger] left[i], right, service, task) by {
        let row = left[i];
        let at = places[i] as int;
        assert(0 <= at < right.len());
        law_row_equivalence_is_reflexive(row);
        assert(right[at] == row);
        assert(row.equivalent(&right[at]));
    }
    assert(theirs =~= ours.map(moved)) by {
        assert forall|k: int| theirs.contains(k) implies ours.map(moved).contains(k) by {
            lemma_turn_order_is_total(places, left.len(), k as usize);
            let i = places.index_of(k as usize);
            assert(places[i] == k);
            assert(left[i] == right[k]);
            assert(ours.contains(i) && moved(i) == k);
        }
        assert forall|k: int| ours.map(moved).contains(k) implies theirs.contains(k) by {
            let i = choose|i: int| ours.contains(i) && moved(i) == k;
            assert(left[i] == right[places[i] as int]);
            assert(places[i] < left.len());
        }
    }
    let all = vstd::set_lib::set_int_range(0, left.len() as int);
    vstd::set_lib::lemma_int_range(0, left.len() as int);
    assert(ours.subset_of(all));
    assert(ours.finite());
    vstd::set_lib::lemma_map_size(ours, theirs, moved);
}

/// Two workers have one default model, and rows that agree for the service and
/// task.
pub open spec fn pair_agrees(left: Registration, right: Registration, key: CohortKey) -> bool {
    &&& left.default is Some
    &&& left.default == right.default
    &&& rows_agree(left.profiles, right.profiles, key.service, key.task)
}

/// Workers of a cohort that have one default model, and rows that agree pair by
/// pair, are interchangeable.
pub proof fn law_agreeing_workers_are_interchangeable(
    roster: Seq<Registration>,
    key: CohortKey,
    some: int,
)
    requires
        0 <= some < roster.len(),
        is_member(roster[some], key),
        forall|i: int, j: int|
            0 <= i < roster.len() && 0 <= j < roster.len() && is_member(roster[i], key)
                && is_member(roster[j], key) ==> #[trigger] pair_agrees(roster[i], roster[j], key),
    ensures
        homogeneous(roster, key),
{
    lemma_first_member(roster, key, 0);
    let first = first_member(roster, key, 0);
    assert(first < roster.len());
    assert(pair_agrees(roster[first], roster[first], key));
    assert forall|i: int| 0 <= i < roster.len() && is_member(#[trigger] roster[i], key) implies {
        &&& roster[i].default == roster[first].default
        &&& rows_agree(roster[i].profiles, roster[first].profiles, key.service, key.task)
    } by {
        assert(pair_agrees(roster[i], roster[first], key));
    }
}

/// Interchangeable workers have one default model, and none of them has a row
/// of the service and task without an equivalent on the first of them.
pub proof fn law_interchangeable_workers_agree(
    roster: Seq<Registration>,
    key: CohortKey,
    i: int,
    j: int,
)
    requires
        homogeneous(roster, key),
        0 <= i < roster.len(),
        0 <= j < roster.len(),
        is_member(roster[i], key),
        is_member(roster[j], key),
    ensures
        roster[i].default is Some,
        roster[i].default == roster[j].default,
        relevant_rows(roster[i].profiles, key.service, key.task).len() == relevant_rows(
            roster[j].profiles,
            key.service,
            key.task,
        ).len(),
        exists|first: int|
            #![trigger roster[first]]
            0 <= first < roster.len() && is_member(roster[first], key) && forall|row: int|
                0 <= row < roster[i].profiles.len() && relevant(
                    #[trigger] roster[i].profiles[row],
                    key.service,
                    key.task,
                ) ==> exists|other: int|
                    0 <= other < roster[first].profiles.len() && relevant(
                        roster[first].profiles[other],
                        key.service,
                        key.task,
                    ) && roster[i].profiles[row].equivalent(
                        #[trigger] &roster[first].profiles[other],
                    ),
{
    lemma_first_member(roster, key, 0);
    let first = first_member(roster, key, 0);
    assert(is_member(roster[first], key));
    assert forall|row: int|
        0 <= row < roster[i].profiles.len() && relevant(
            #[trigger] roster[i].profiles[row],
            key.service,
            key.task,
        ) implies exists|other: int|
        0 <= other < roster[first].profiles.len() && relevant(
            roster[first].profiles[other],
            key.service,
            key.task,
        ) && roster[i].profiles[row].equivalent(#[trigger] &roster[first].profiles[other]) by {
        assert(has_equivalent(
            roster[i].profiles[row],
            roster[first].profiles,
            key.service,
            key.task,
        ));
    }
}

/// Some worker of the cohort has a speech row that reads voice names as
/// uploaded voices.
pub open spec fn has_uploaded_speech(roster: Seq<Registration>, key: CohortKey) -> bool {
    exists|i: int, row: int|
        #![trigger roster[i].profiles[row]]
        0 <= i < roster.len() && is_member(roster[i], key) && 0 <= row < roster[i].profiles.len()
            && roster[i].profiles[row] is SpeechHttp
            && roster[i].profiles[row]->SpeechHttp_voice_name_policy is Uploaded
}

/// Interchangeable workers are routed to unread, for every service but chat,
/// which has a rule of its own, and batches, whose size must be read; where
/// speech rows read voice names as uploaded voices, only if the voice owner is
/// the only one.
pub proof fn law_interchangeable_workers_are_routed_to_unread(
    roster: Seq<Registration>,
    voice_owner: Option<usize>,
    key: CohortKey,
)
    requires
        homogeneous(roster, key),
        !(key.service is GenerationHttp),
        !(key.service is SpeechBatch),
        key.service is SpeechHttp && has_uploaded_speech(roster, key) ==> voice_owner is Some
            && forall|i: int|
            0 <= i < roster.len() && is_member(#[trigger] roster[i], key) ==> i
                == voice_owner->Some_0,
    ensures
        content_blind(roster, voice_owner, key),
{
    lemma_first_member(roster, key, 0);
    let first = first_member(roster, key, 0);
    if key.service is SpeechHttp && reads_uploaded(roster[first], key.service) {
        let row = choose|row: int|
            0 <= row < roster[first].profiles.len() && (
            #[trigger] roster[first].profiles[row]).service() == key.service
                && roster[first].profiles[row].policy() == Some(VoiceNamePolicy::Uploaded);
        let here = roster[first].profiles[row];
        assert(here is SpeechHttp && here->SpeechHttp_voice_name_policy is Uploaded);
    }
}

/// What is routed to unread is neither chat nor batches, and its workers are
/// interchangeable; and a speech cohort in which a row reads voice names as
/// uploaded voices is the voice owner alone.
pub proof fn law_unread_cohorts_are_interchangeable(
    roster: Seq<Registration>,
    voice_owner: Option<usize>,
    key: CohortKey,
    i: int,
    row: int,
)
    requires
        content_blind(roster, voice_owner, key),
    ensures
        homogeneous(roster, key),
        !(key.service is GenerationHttp),
        !(key.service is SpeechBatch),
        key.service is SpeechHttp && key.task is None && 0 <= i < roster.len() && is_member(
            roster[i],
            key,
        ) && 0 <= row < roster[i].profiles.len() && roster[i].profiles[row] is SpeechHttp
            && roster[i].profiles[row]->SpeechHttp_voice_name_policy is Uploaded ==> {
            &&& voice_owner == Some(i as usize)
            &&& forall|j: int|
                0 <= j < roster.len() && is_member(#[trigger] roster[j], key) ==> j == i
        },
{
    lemma_first_member(roster, key, 0);
    let first = first_member(roster, key, 0);
    if key.service is SpeechHttp && key.task is None && 0 <= i < roster.len() && is_member(
        roster[i],
        key,
    ) && 0 <= row < roster[i].profiles.len() && roster[i].profiles[row] is SpeechHttp
        && roster[i].profiles[row]->SpeechHttp_voice_name_policy is Uploaded {
        let here = roster[i].profiles[row];
        assert(relevant(here, key.service, key.task));
        assert(has_equivalent(here, roster[first].profiles, key.service, key.task));
        let other = choose|j: int|
            0 <= j < roster[first].profiles.len() && relevant(
                roster[first].profiles[j],
                key.service,
                key.task,
            ) && here.equivalent(#[trigger] &roster[first].profiles[j]);
        assert(roster[first].profiles[other].policy() == Some(VoiceNamePolicy::Uploaded));
        assert(reads_uploaded(roster[first], key.service));
    }
}

/// Chat cohorts are those of chat rows in the trust domain.
pub proof fn law_chat_cohorts_are_of_chat_rows(worker: Registration, trust: Seq<char>)
    ensures
        is_member(worker, generation_key(trust)) <==> worker.trust == trust && exists|row: int|
            0 <= row < worker.profiles.len() && (#[trigger] worker.profiles[row]) is GenerationHttp,
{
    if exists|row: int|
        0 <= row < worker.profiles.len() && (#[trigger] worker.profiles[row]) is GenerationHttp {
        let row = choose|row: int|
            0 <= row < worker.profiles.len() && (#[trigger] worker.profiles[row]) is GenerationHttp;
        assert(relevant(worker.profiles[row], ServiceClass::GenerationHttp, None));
    }
    if is_member(worker, generation_key(trust)) {
        let row = choose|row: int|
            0 <= row < worker.profiles.len() && relevant(
                #[trigger] worker.profiles[row],
                ServiceClass::GenerationHttp,
                None,
            );
        assert(worker.profiles[row] is GenerationHttp);
    }
}

/// A service is ready in a trust domain exactly when a healthy worker of the
/// domain has a row of its kind.
pub proof fn law_readiness_needs_a_healthy_worker(
    pool: PoolView,
    trust: Seq<char>,
    service: ServiceClass,
)
    ensures
        pool.ready_for(trust, service) <==> exists|i: int, row: int|
            #![trigger pool.roster[i].profiles[row]]
            0 <= i < pool.roster.len() && pool.roster[i].trust == trust && pool.workers[i].health
                is Healthy && 0 <= row < pool.roster[i].profiles.len() && is_kind(
                pool.roster[i].profiles[row],
                service,
            ),
{
    if pool.ready_for(trust, service) {
        let i = choose|i: int|
            0 <= i < pool.roster.len() && (#[trigger] pool.roster[i]).trust == trust
                && pool.workers[i].routable() && pool.roster[i].offers(service);
        let row = choose|row: int|
            0 <= row < pool.roster[i].profiles.len() && (
            #[trigger] pool.roster[i].profiles[row]).service() == service;
        assert(is_kind(pool.roster[i].profiles[row], service));
    }
    if exists|i: int, row: int|
        #![trigger pool.roster[i].profiles[row]]
        0 <= i < pool.roster.len() && pool.roster[i].trust == trust && pool.workers[i].health
            is Healthy && 0 <= row < pool.roster[i].profiles.len() && is_kind(
            pool.roster[i].profiles[row],
            service,
        ) {
        let (i, row) = choose|i: int, row: int|
            #![trigger pool.roster[i].profiles[row]]
            0 <= i < pool.roster.len() && pool.roster[i].trust == trust && pool.workers[i].health
                is Healthy && 0 <= row < pool.roster[i].profiles.len() && is_kind(
                pool.roster[i].profiles[row],
                service,
            );
        assert(pool.roster[i].profiles[row].service() == service);
        assert(pool.roster[i].offers(service));
    }
}

/// An endpoint is ready in a trust domain exactly when a healthy worker of the
/// domain has a row that the endpoint asks for.
pub proof fn law_endpoint_readiness_needs_a_healthy_worker(
    pool: PoolView,
    trust: Seq<char>,
    route: HttpMediaRoute,
)
    ensures
        endpoint_ready(pool, trust, route) <==> exists|i: int, row: int|
            #![trigger pool.roster[i].profiles[row]]
            0 <= i < pool.roster.len() && pool.roster[i].trust == trust && pool.workers[i].health
                is Healthy && 0 <= row < pool.roster[i].profiles.len() && relevant(
                pool.roster[i].profiles[row],
                route.service(),
                route.task(),
            ),
{
    if endpoint_ready(pool, trust, route) {
        let key = media_key(trust, route);
        let i = choose|i: int|
            0 <= i < pool.roster.len() && pool.workers[i].routable() && is_member(
                #[trigger] pool.roster[i],
                key,
            );
        let row = choose|row: int|
            0 <= row < pool.roster[i].profiles.len() && relevant(
                #[trigger] pool.roster[i].profiles[row],
                key.service,
                key.task,
            );
        assert(relevant(pool.roster[i].profiles[row], route.service(), route.task()));
    }
    if exists|i: int, row: int|
        #![trigger pool.roster[i].profiles[row]]
        0 <= i < pool.roster.len() && pool.roster[i].trust == trust && pool.workers[i].health
            is Healthy && 0 <= row < pool.roster[i].profiles.len() && relevant(
            pool.roster[i].profiles[row],
            route.service(),
            route.task(),
        ) {
        let (i, row) = choose|i: int, row: int|
            #![trigger pool.roster[i].profiles[row]]
            0 <= i < pool.roster.len() && pool.roster[i].trust == trust && pool.workers[i].health
                is Healthy && 0 <= row < pool.roster[i].profiles.len() && relevant(
                pool.roster[i].profiles[row],
                route.service(),
                route.task(),
            );
        assert(is_member(pool.roster[i], media_key(trust, route)));
    }
}

/// Endpoints are ready together exactly when each is.
pub proof fn law_endpoints_are_ready_together(
    pool: PoolView,
    trust: Seq<char>,
    routes: Seq<HttpMediaRoute>,
    route: HttpMediaRoute,
)
    ensures
        endpoints_ready(pool, trust, Seq::empty()),
        endpoints_ready(pool, trust, routes.push(route)) <==> endpoints_ready(pool, trust, routes)
            && endpoint_ready(pool, trust, route),
{
    let more = routes.push(route);
    if endpoints_ready(pool, trust, more) {
        assert(endpoint_ready(pool, trust, more[routes.len() as int]));
        assert forall|r: int| 0 <= r < routes.len() implies endpoint_ready(
            pool,
            trust,
            #[trigger] routes[r],
        ) by {
            assert(endpoint_ready(pool, trust, more[r]));
        }
    }
}

/// Batches of a size can be taken in a trust domain exactly when a worker of
/// the domain, healthy or not, has a batch row that takes at least that many.
pub proof fn law_batch_size_needs_a_row_that_takes_it(
    pool: PoolView,
    trust: Seq<char>,
    size: u32,
)
    ensures
        pool.takes_batch(trust, size) <==> exists|i: int, row: int|
            #![trigger pool.roster[i].profiles[row]]
            0 <= i < pool.roster.len() && pool.roster[i].trust == trust && 0 <= row
                < pool.roster[i].profiles.len() && pool.roster[i].profiles[row] is SpeechBatch
                && pool.roster[i].profiles[row]->SpeechBatch_max_batch_size >= size,
{
    if pool.takes_batch(trust, size) {
        let i = choose|i: int|
            0 <= i < pool.roster.len() && (#[trigger] pool.roster[i]).trust == trust
                && takes_batch(pool.roster[i].profiles, size);
        let rows = pool.roster[i].profiles;
        let row = choose|row: int|
            0 <= row < rows.len() && (match #[trigger] rows[row] {
                ServiceProfile::SpeechBatch { max_batch_size, .. } => max_batch_size >= size,
                _ => false,
            });
        assert(pool.roster[i].profiles[row] is SpeechBatch);
    }
    if exists|i: int, row: int|
        #![trigger pool.roster[i].profiles[row]]
        0 <= i < pool.roster.len() && pool.roster[i].trust == trust && 0 <= row
            < pool.roster[i].profiles.len() && pool.roster[i].profiles[row] is SpeechBatch
            && pool.roster[i].profiles[row]->SpeechBatch_max_batch_size >= size {
        let (i, row) = choose|i: int, row: int|
            #![trigger pool.roster[i].profiles[row]]
            0 <= i < pool.roster.len() && pool.roster[i].trust == trust && 0 <= row
                < pool.roster[i].profiles.len() && pool.roster[i].profiles[row] is SpeechBatch
                && pool.roster[i].profiles[row]->SpeechBatch_max_batch_size >= size;
        let rows = pool.roster[i].profiles;
        assert(rows[row] is SpeechBatch);
        assert(takes_batch(pool.roster[i].profiles, size));
    }
}

} // verus!
