//! What becomes of every media request, on the fields of the request and of
//! the pool.

use vstd::prelude::*;

use crate::config::HttpMediaRoute;
use crate::error::HttpFault;
use crate::http_media::headers::{framing_fault, RequestFraming, RequestKind};
use crate::http_media::{
    begun, classifier_of, entered, finished, head_fault, media_ready, one_credit, with_one_credit,
    BodyReaderView, MediaFault, MediaIngress, MediaRequest, MediaStep, MediaView,
};
use crate::worker_pool::admission::{AdmissionError, AdmissionHold};
use crate::worker_pool::cohorts::{content_blind, is_member, members, CohortKey};
use crate::worker_pool::dispatch_laws::law_assigned_worker_is_fit;
use crate::worker_pool::permits::PermitView;
use crate::worker_pool::pool::{media_key, RequestLease};
use crate::worker_pool::profile::{
    ProfileRequirement, RouteRequirement, ServiceClass, SpeechToTextTask, CAPACITY_CLASS_COUNT,
};
use crate::worker_pool::readiness::endpoints_ready;
use crate::worker_pool::routing::{any, PoolView};
use crate::worker_pool::routing_laws::law_choice_is_routable_and_least_loaded;

verus! {

/// A media request is judged by its method, then by its version, then by its
/// path and query.
pub proof fn law_media_requests_are_posts_to_their_path(request: MediaRequest, route: HttpMediaRoute)
    ensures
        request.method@ != "POST"@ ==> request.line_fault(route) == Some(
            HttpFault::MethodNotAllowed,
        ),
        request.method@ == "POST"@ && !request.is_http_11 ==> request.line_fault(route) == Some(
            HttpFault::HttpVersionNotSupported,
        ),
        request.method@ == "POST"@ && request.is_http_11 ==> {
            let path = match route {
                HttpMediaRoute::Speech => "/v1/audio/speech"@,
                HttpMediaRoute::SpeechBatch => "/v1/audio/speech/batch"@,
                HttpMediaRoute::Transcription => "/v1/audio/transcriptions"@,
                HttpMediaRoute::Translation => "/v1/audio/translations"@,
            };
            if request.path@ == path && !request.has_query {
                request.line_fault(route) is None
            } else {
                request.line_fault(route) == Some(HttpFault::MalformedRequest)
            }
        },
{
}

/// The request line is judged first, then whether there is a trust domain, then
/// the headers: speech has JSON bodies, and recognition has forms.
pub proof fn law_request_line_is_judged_first(
    media: MediaView,
    request: MediaRequest,
    route: HttpMediaRoute,
)
    ensures
        ({
            let line = request.line_fault(route);
            let kind = match route {
                HttpMediaRoute::Speech => RequestKind::Json,
                HttpMediaRoute::SpeechBatch => RequestKind::Json,
                HttpMediaRoute::Transcription => RequestKind::Multipart,
                HttpMediaRoute::Translation => RequestKind::Multipart,
            };
            &&& line is Some ==> head_fault(media, request, route) == line
            &&& line is None && media.ordinary_trust is None ==> head_fault(media, request, route)
                == Some(HttpFault::InternalError)
            &&& line is None && media.ordinary_trust is Some ==> head_fault(media, request, route)
                == framing_fault(request.headers@, kind, request.envelope)
        }),
{
}

/// The cohort that an endpoint asks for.
pub open spec fn cohort_of(trust: Seq<char>, route: HttpMediaRoute) -> CohortKey {
    match route {
        HttpMediaRoute::Speech => CohortKey { trust, service: ServiceClass::SpeechHttp, task: None },
        HttpMediaRoute::SpeechBatch => CohortKey {
            trust,
            service: ServiceClass::SpeechBatch,
            task: None,
        },
        HttpMediaRoute::Transcription => CohortKey {
            trust,
            service: ServiceClass::TranscriptionHttp,
            task: Some(SpeechToTextTask::Transcribe),
        },
        HttpMediaRoute::Translation => CohortKey {
            trust,
            service: ServiceClass::TranscriptionHttp,
            task: Some(SpeechToTextTask::Translate),
        },
    }
}

/// The place of the class of an endpoint among the classes.
pub open spec fn class_at(route: HttpMediaRoute) -> int {
    match route {
        HttpMediaRoute::Speech => 1,
        HttpMediaRoute::SpeechBatch => 2,
        HttpMediaRoute::Transcription => 3,
        HttpMediaRoute::Translation => 3,
    }
}

/// Nothing that could be read would matter: the request is no batch and has no
/// hints, and its cohort is routed to unread.
pub open spec fn needs_no_reading(
    media: MediaView,
    pool: PoolView,
    route: HttpMediaRoute,
    framing: RequestFraming,
) -> bool {
    &&& route != HttpMediaRoute::SpeechBatch
    &&& framing.route_model is None
    &&& framing.route_stream is None
    &&& content_blind(pool.roster, pool.voice_owner, cohort_of(media.ordinary_trust->Some_0, route))
}

/// A body is too long exactly when it is longer than what is read, and is not
/// relayed unread, which it is up to a length of its own.
pub proof fn law_long_bodies_are_refused(
    media: MediaView,
    before: PoolView,
    route: HttpMediaRoute,
    framing: RequestFraming,
    outcome: Result<MediaStep, MediaFault>,
    after: PoolView,
)
    requires
        begun(media, before, route, framing, outcome, after),
    ensures
        framing.content_length is None ==> outcome != Err::<MediaStep, MediaFault>(
            MediaFault::Fault(HttpFault::RequestBodyTooLarge),
        ),
        framing.content_length matches Some(length) ==> {
            let unread = needs_no_reading(media, before, route, framing) && length
                <= media.streamed_max;
            (outcome is Err && outcome->Err_0 == MediaFault::Fault(HttpFault::RequestBodyTooLarge))
                <==> !unread && length > media.buffered_max
        },
        outcome is Err && outcome->Err_0 == MediaFault::Fault(HttpFault::RequestBodyTooLarge)
            ==> after == before,
{
}

/// A request that is not too long is refused as draining exactly when the
/// envelope is closed, and as overloaded exactly when the envelope is full or,
/// for all but batches, its class has no credit left.
pub proof fn law_media_admission_follows_the_limits(
    media: MediaView,
    before: PoolView,
    route: HttpMediaRoute,
    framing: RequestFraming,
    outcome: Result<MediaStep, MediaFault>,
    after: PoolView,
)
    requires
        before.wf(),
        begun(media, before, route, framing, outcome, after),
        outcome != Err::<MediaStep, MediaFault>(MediaFault::Fault(HttpFault::RequestBodyTooLarge)),
    ensures
        outcome == Err::<MediaStep, MediaFault>(MediaFault::Admission(AdmissionError::Draining))
            <==> before.admission.global.closed,
        outcome == Err::<MediaStep, MediaFault>(MediaFault::Admission(AdmissionError::Overloaded))
            <==> !before.admission.global.closed && (before.admission.global.available == 0 || (
        route != HttpMediaRoute::SpeechBatch && (before.admission.classes[class_at(route)] is None
            || before.admission.classes[class_at(route)]->Some_0.available == 0))),
{
}

/// An admitted request is relayed unread exactly when nothing that could be
/// read would matter and its body is short enough to stream; else it is read. A
/// batch holds its place alone while it is read, any other request one credit
/// of its class besides.
pub proof fn law_requests_are_read_where_it_matters(
    media: MediaView,
    before: PoolView,
    route: HttpMediaRoute,
    framing: RequestFraming,
    outcome: Result<MediaStep, MediaFault>,
    after: PoolView,
)
    requires
        before.wf(),
        begun(media, before, route, framing, outcome, after),
        outcome is Ok,
    ensures
        ({
            let unread = needs_no_reading(media, before, route, framing) && (
            framing.content_length is None || framing.content_length->Some_0
                <= media.streamed_max);
            let place = class_at(route);
            &&& outcome->Ok_0 is Relay <==> unread
            &&& outcome->Ok_0 is Read <==> !unread
            &&& outcome->Ok_0 matches MediaStep::Relay(given, _) ==> given == framing
            &&& outcome->Ok_0 matches MediaStep::Read(given, ingress) ==> {
                &&& given == framing
                &&& ingress is Envelope <==> route is SpeechBatch
                &&& ingress matches MediaIngress::Admission(lease) ==> lease@.credits == 1
                    && lease@.class.ordinal() == place
                &&& after.workers == before.workers
                &&& after.order == before.order
                &&& route is SpeechBatch ==> after.admission.classes == before.admission.classes
                &&& !(route is SpeechBatch) ==> after.admission.classes[place] is Some
                    && after.admission.classes[place]->Some_0.available
                    == before.admission.classes[place]->Some_0.available - 1
            }
            &&& after.admission.global.available == before.admission.global.available - 1
        }),
{
}

/// A request that is relayed unread goes to a healthy worker of the cohort that
/// its endpoint asks for, with one credit for its weight; and it is refused as
/// unavailable where there is none.
pub proof fn law_unread_requests_go_to_their_cohort(
    media: MediaView,
    before: PoolView,
    route: HttpMediaRoute,
    framing: RequestFraming,
    outcome: Result<MediaStep, MediaFault>,
    after: PoolView,
)
    requires
        before.wf(),
        begun(media, before, route, framing, outcome, after),
    ensures
        ({
            let key = cohort_of(media.ordinary_trust->Some_0, route);
            &&& outcome is Ok && outcome->Ok_0 is Relay ==> {
                let hold = outcome->Ok_0->Relay_1@;
                &&& hold.worker < before.roster.len()
                &&& is_member(before.roster[hold.worker as int], key)
                &&& before.workers[hold.worker as int].health is Healthy
                &&& hold.weight == 1
                &&& hold.session is None
                &&& hold.admission is Some
                &&& hold.admission->Some_0.credits == 1
                &&& hold.admission->Some_0.class.ordinal() == class_at(route)
            }
            &&& outcome is Err && outcome->Err_0 is Dispatch ==> {
                &&& outcome->Err_0->Dispatch_0 is Unavailable
                &&& forall|i: int|
                    0 <= i < before.roster.len() && is_member(#[trigger] before.roster[i], key)
                        ==> !(before.workers[i].health is Healthy)
            }
        }),
{
    let key = cohort_of(media.ordinary_trust->Some_0, route);
    let admitted = with_one_credit(before, route);
    let cohort = members(admitted.roster, key);
    assert(media_key(media.ordinary_trust->Some_0, route) == key);
    if any(admitted.routable(cohort)) {
        if before.admission.envelope_refusal() is None && before.admission.class_admits(
            one_credit(route),
        ) {
            assert(admitted.wf());
            law_choice_is_routable_and_least_loaded(admitted, cohort);
        }
    } else {
        assert forall|i: int|
            0 <= i < before.roster.len() && is_member(#[trigger] before.roster[i], key) implies !(
        before.workers[i].health is Healthy) by {
            assert(cohort[i]);
            assert(!admitted.routable(cohort)[i]);
        }
    }
}

/// A request whose body was read fails internally where there is no trust
/// domain. A batch that no worker of the domain takes is refused as such; one
/// that its class has no credits for as overloaded.
pub proof fn law_read_requests_are_refused_for_cause(
    media: MediaView,
    before: PoolView,
    route: HttpMediaRoute,
    ingress: MediaIngress,
    credits: u32,
    needs: ProfileRequirement,
    outcome: Result<RequestLease, MediaFault>,
    after: PoolView,
)
    requires
        before.wf(),
        finished(media, before, route, ingress, credits, needs, outcome, after),
    ensures
        ({
            let unknown = media.ordinary_trust is None;
            let too_many = route is SpeechBatch && !before.takes_batch(
                media.ordinary_trust->Some_0,
                credits,
            );
            let place = class_at(route);
            &&& unknown <==> outcome == Err::<RequestLease, MediaFault>(
                MediaFault::Fault(HttpFault::InternalError),
            )
            &&& !unknown && too_many <==> outcome == Err::<RequestLease, MediaFault>(
                MediaFault::Fault(HttpFault::NoCompatibleWorker),
            )
            &&& !unknown && !too_many && ingress is Envelope && (
            before.admission.classes[place] is None
                || before.admission.classes[place]->Some_0.available < credits) <==> outcome
                == Err::<RequestLease, MediaFault>(
                MediaFault::Admission(AdmissionError::Overloaded),
            )
        }),
{
}

/// A request that is refused before its body is read leaves the pool as it was.
pub proof fn law_requests_refused_unread_hold_nothing(
    media: MediaView,
    before: PoolView,
    route: HttpMediaRoute,
    framing: RequestFraming,
    outcome: Result<MediaStep, MediaFault>,
    after: PoolView,
)
    requires
        before.wf(),
        begun(media, before, route, framing, outcome, after),
        outcome is Err,
    ensures
        after == before,
{
    let credit = one_credit(route);
    if after != before {
        assert(before.admission.classes[credit.class.ordinal()]->Some_0.wf());
        assert(after.admission.classes =~= before.admission.classes);
        assert(after.admission.global == before.admission.global);
    }
}

/// Whatever is refused after its body was read gives back all that it held: its
/// place in the envelope, and the credits that it was admitted with. Nothing
/// else changes.
pub proof fn law_refused_requests_give_back_what_they_held(
    media: MediaView,
    before: PoolView,
    route: HttpMediaRoute,
    ingress: MediaIngress,
    credits: u32,
    needs: ProfileRequirement,
    outcome: Result<RequestLease, MediaFault>,
    after: PoolView,
)
    requires
        before.wf(),
        finished(media, before, route, ingress, credits, needs, outcome, after),
        outcome is Err,
        before.admission.global.available < before.admission.global.limit,
        ingress is Admission ==> {
            let held = ingress->Admission_0@;
            let class = before.admission.classes[held.class.ordinal()];
            class is Some && class->Some_0.available + held.credits <= class->Some_0.limit
        },
    ensures
        after.roster == before.roster,
        after.strategy == before.strategy,
        after.voice_owner == before.voice_owner,
        after.workers == before.workers,
        after.order == before.order,
        after.admission.global.available == before.admission.global.available + 1,
        after.admission.global.limit == before.admission.global.limit,
        after.admission.global.closed == before.admission.global.closed,
        after.admission.classes.len() == before.admission.classes.len(),
        forall|i: int|
            0 <= i < CAPACITY_CLASS_COUNT ==> (#[trigger] after.admission.classes[i]) == (
            if ingress is Admission && i == ingress->Admission_0@.class.ordinal() {
                let class = before.admission.classes[i]->Some_0;
                Some(
                    PermitView {
                        limit: class.limit,
                        available: class.available + ingress->Admission_0@.credits,
                        closed: class.closed,
                    },
                )
            } else {
                before.admission.classes[i]
            }),
{
}

/// A request whose body was read goes to a healthy worker of the trust domain
/// with a row that serves what it needs. It weighs what it holds: a batch the
/// credits that it asked for, and any other request what it was admitted with.
pub proof fn law_read_requests_go_where_they_are_served(
    media: MediaView,
    before: PoolView,
    route: HttpMediaRoute,
    ingress: MediaIngress,
    credits: u32,
    needs: ProfileRequirement,
    outcome: Result<RequestLease, MediaFault>,
    after: PoolView,
)
    requires
        before.wf(),
        finished(media, before, route, ingress, credits, needs, outcome, after),
        outcome is Ok,
    ensures
        ({
            let hold = outcome->Ok_0@;
            let worker = before.roster[hold.worker as int];
            &&& hold.worker < before.roster.len()
            &&& Some(worker.trust) == media.ordinary_trust
            &&& exists|row: int|
                0 <= row < worker.profiles.len() && (#[trigger] worker.profiles[row]).serves(
                    &needs,
                    worker.default,
                )
            &&& before.workers[hold.worker as int].health is Healthy
            &&& hold.session is None
            &&& hold.admission is Some
            &&& hold.weight == hold.admission->Some_0.credits
            &&& ingress is Envelope ==> hold.weight == credits
                && hold.admission->Some_0.class.ordinal() == class_at(route)
            &&& ingress matches MediaIngress::Admission(lease) ==> hold.admission == Some(lease@)
        }),
{
    let trust = media.ordinary_trust->Some_0;
    let requirement = choose|requirement: RouteRequirement| #[trigger]
        requirement.asks(needs, trust) && entered(
            before,
            route,
            ingress,
            credits,
            requirement,
            outcome,
            after,
        );
    match ingress {
        MediaIngress::Admission(lease) => {
            law_assigned_worker_is_fit(before, lease@.class, requirement);
        },
        MediaIngress::Envelope(_) => {
            let hold = AdmissionHold {
                class: route.service().class(),
                credits: credits as nat,
            };
            let admitted = PoolView { admission: before.admission.class_taken(hold), ..before };
            assert(admitted.wf());
            law_assigned_worker_is_fit(admitted, hold.class, requirement);
        },
    }
}

/// Forms are read by their boundary, and cannot be read without one. The hints
/// and the trust domain go with the body as they are.
pub proof fn law_bodies_are_read_by_their_endpoint(
    route: HttpMediaRoute,
    boundary: Option<Seq<u8>>,
    model: Option<Seq<char>>,
    stream: Option<bool>,
    trust: Seq<char>,
)
    ensures
        ({
            let classifier = classifier_of(route, boundary, model, stream, trust);
            let form = route is Transcription || route is Translation;
            &&& classifier is None <==> form && boundary is None
            &&& classifier is Some ==> {
                let found = classifier->Some_0;
                &&& found.route_model == model
                &&& found.route_stream == stream
                &&& found.trust == trust
                &&& route is Speech <==> found.reader is Speech
                &&& route is SpeechBatch <==> found.reader is SpeechBatch
                &&& route is Transcription ==> found.reader == BodyReaderView::Transcription(
                    boundary->Some_0,
                )
                &&& route is Translation ==> found.reader == BodyReaderView::Translation(
                    boundary->Some_0,
                )
            }
        }),
{
}

/// The media gateway is ready exactly when all its endpoints are, if it has a
/// trust domain for them, and the voice owner, if there is one, is healthy.
pub proof fn law_media_readiness_counts_endpoints_and_owner(media: MediaView, pool: PoolView)
    ensures
        media_ready(media, pool) <==> {
            &&& media.ordinary_trust matches Some(trust) ==> endpoints_ready(
                pool,
                trust,
                media.enabled_routes,
            )
            &&& pool.voice_owner matches Some(owner) ==> pool.workers[owner as int].health is Healthy
        },
{
}

} // verus!
