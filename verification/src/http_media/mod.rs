//! Media over HTTP: which endpoints there are, and how their requests are admitted.

pub mod chars;
pub mod header_laws;
pub mod headers;
pub mod laws;

use vstd::prelude::*;

use crate::config::{HttpMediaConfig, HttpMediaRoute};
use crate::error::HttpFault;
use crate::http_media::headers::{
    framing_fault, validate_request, HeaderField, RequestFraming, RequestKind,
};
use crate::text::{borrow_text, same_text, string_of, text_of};
use crate::worker_pool::admission::{
    AdmissionError, AdmissionHold, AdmissionLease, AdmissionView, DispatchError, EnvelopeLease,
};
use crate::worker_pool::cohorts::{content_blind, members};
use crate::worker_pool::pool::{dispatched, media_key, RequestLease, WorkerPool};
use crate::worker_pool::profile::{CapacityClass, ProfileRequirement, RouteRequirement, TrustDomain};
use crate::worker_pool::readiness::endpoints_ready;
use crate::worker_pool::routing::{Decision, PoolView};
use crate::worker_pool::routing_laws::{
    law_assigned_worker_serves_the_request, law_choice_is_routable_and_least_loaded,
};

verus! {

pub const SPEECH_PATH: &'static str = "/v1/audio/speech";

pub const BATCH_PATH: &'static str = "/v1/audio/speech/batch";

pub const TRANSCRIPTION_PATH: &'static str = "/v1/audio/transcriptions";

pub const TRANSLATION_PATH: &'static str = "/v1/audio/translations";

impl HttpMediaRoute {
    /// The path of the endpoint.
    pub open spec fn location(self) -> Seq<char> {
        match self {
            HttpMediaRoute::Speech => SPEECH_PATH@,
            HttpMediaRoute::SpeechBatch => BATCH_PATH@,
            HttpMediaRoute::Transcription => TRANSCRIPTION_PATH@,
            HttpMediaRoute::Translation => TRANSLATION_PATH@,
        }
    }

    /// What the body of a request to the endpoint is.
    pub open spec fn kind(self) -> RequestKind {
        match self {
            HttpMediaRoute::Speech => RequestKind::Json,
            HttpMediaRoute::SpeechBatch => RequestKind::Json,
            HttpMediaRoute::Transcription => RequestKind::Multipart,
            HttpMediaRoute::Translation => RequestKind::Multipart,
        }
    }

    pub fn path(self) -> (path: &'static str)
        ensures
            path@ == self.location(),
    {
        match self {
            HttpMediaRoute::Speech => SPEECH_PATH,
            HttpMediaRoute::SpeechBatch => BATCH_PATH,
            HttpMediaRoute::Transcription => TRANSCRIPTION_PATH,
            HttpMediaRoute::Translation => TRANSLATION_PATH,
        }
    }

    pub fn capacity(self) -> (class: CapacityClass)
        ensures
            class == self.service().class(),
    {
        match self {
            HttpMediaRoute::Speech => CapacityClass::SpeechHttp,
            HttpMediaRoute::SpeechBatch => CapacityClass::SpeechBatch,
            HttpMediaRoute::Transcription => CapacityClass::TranscriptionHttp,
            HttpMediaRoute::Translation => CapacityClass::TranscriptionHttp,
        }
    }

    pub fn request_kind(self) -> (kind: RequestKind)
        ensures
            kind == self.kind(),
    {
        match self {
            HttpMediaRoute::Speech => RequestKind::Json,
            HttpMediaRoute::SpeechBatch => RequestKind::Json,
            HttpMediaRoute::Transcription => RequestKind::Multipart,
            HttpMediaRoute::Translation => RequestKind::Multipart,
        }
    }
}

/// How the body of a request is to be read: forms by their boundary.
#[derive(Clone, Debug, PartialEq, Eq)]
pub enum BodyReader {
    Speech,
    SpeechBatch,
    Transcription(Vec<u8>),
    Translation(Vec<u8>),
}

/// What a [`BodyReader`] says.
pub enum BodyReaderView {
    Speech,
    SpeechBatch,
    Transcription(Seq<u8>),
    Translation(Seq<u8>),
}

impl View for BodyReader {
    type V = BodyReaderView;

    open spec fn view(&self) -> BodyReaderView {
        match *self {
            BodyReader::Speech => BodyReaderView::Speech,
            BodyReader::SpeechBatch => BodyReaderView::SpeechBatch,
            BodyReader::Transcription(boundary) => BodyReaderView::Transcription(boundary@),
            BodyReader::Translation(boundary) => BodyReaderView::Translation(boundary@),
        }
    }
}

/// How the needs of a request are found: how its body is to be read, what its
/// hints say, and the trust domain that it stays in.
#[derive(Clone, Debug, PartialEq, Eq)]
pub struct Classifier {
    pub reader: BodyReader,
    pub route_model: Option<String>,
    pub route_stream: Option<bool>,
    pub trust: TrustDomain,
}

/// What a [`Classifier`] says.
#[verifier::ext_equal]
pub struct ClassifierView {
    pub reader: BodyReaderView,
    pub route_model: Option<Seq<char>>,
    pub route_stream: Option<bool>,
    pub trust: Seq<char>,
}

impl View for Classifier {
    type V = ClassifierView;

    open spec fn view(&self) -> ClassifierView {
        ClassifierView {
            reader: self.reader@,
            route_model: string_of(self.route_model),
            route_stream: self.route_stream,
            trust: self.trust@,
        }
    }
}

/// What optional bytes are.
pub open spec fn bytes_of(bytes: Option<&[u8]>) -> Option<Seq<u8>> {
    match bytes {
        Some(value) => Some(value@),
        None => None,
    }
}

/// How the body of a request to the endpoint is to be read: forms need their boundary.
pub open spec fn reader_of(route: HttpMediaRoute, boundary: Option<Seq<u8>>) -> Option<
    BodyReaderView,
> {
    match route {
        HttpMediaRoute::Speech => Some(BodyReaderView::Speech),
        HttpMediaRoute::SpeechBatch => Some(BodyReaderView::SpeechBatch),
        HttpMediaRoute::Transcription => match boundary {
            Some(bytes) => Some(BodyReaderView::Transcription(bytes)),
            None => None,
        },
        HttpMediaRoute::Translation => match boundary {
            Some(bytes) => Some(BodyReaderView::Translation(bytes)),
            None => None,
        },
    }
}

/// How the needs of a request to the endpoint are found.
pub open spec fn classifier_of(
    route: HttpMediaRoute,
    boundary: Option<Seq<u8>>,
    route_model: Option<Seq<char>>,
    route_stream: Option<bool>,
    trust: Seq<char>,
) -> Option<ClassifierView> {
    match reader_of(route, boundary) {
        Some(reader) => Some(ClassifierView { reader, route_model, route_stream, trust }),
        None => None,
    }
}

/// How the body of a request to the endpoint is to be read.
fn reader(route: HttpMediaRoute, boundary: Option<&[u8]>) -> (outcome: Result<
    BodyReader,
    HttpFault,
>)
    ensures
        match reader_of(route, bytes_of(boundary)) {
            Some(reader) => outcome is Ok && outcome->Ok_0@ == reader,
            None => outcome is Err && outcome->Err_0 is UnsupportedMediaType,
        },
{
    match route {
        HttpMediaRoute::Speech => Ok(BodyReader::Speech),
        HttpMediaRoute::SpeechBatch => Ok(BodyReader::SpeechBatch),
        HttpMediaRoute::Transcription => match boundary {
            Some(bytes) => Ok(BodyReader::Transcription(vstd::slice::slice_to_vec(bytes))),
            None => Err(HttpFault::UnsupportedMediaType),
        },
        HttpMediaRoute::Translation => match boundary {
            Some(bytes) => Ok(BodyReader::Translation(vstd::slice::slice_to_vec(bytes))),
            None => Err(HttpFault::UnsupportedMediaType),
        },
    }
}

/// How the needs of a request to the endpoint are found.
pub fn classify(
    route: HttpMediaRoute,
    boundary: Option<&[u8]>,
    route_model: Option<&str>,
    route_stream: Option<bool>,
    trust: &TrustDomain,
) -> (outcome: Result<Classifier, HttpFault>)
    ensures
        match classifier_of(
            route,
            bytes_of(boundary),
            text_of(route_model),
            route_stream,
            trust@,
        ) {
            Some(classifier) => outcome is Ok && outcome->Ok_0@ == classifier,
            None => outcome is Err && outcome->Err_0 is UnsupportedMediaType,
        },
{
    let reader = match reader(route, boundary) {
        Ok(reader) => reader,
        Err(fault) => {
            return Err(fault);
        },
    };
    let route_model = match route_model {
        Some(model) => Some(model.to_owned()),
        None => None,
    };
    Ok(Classifier { reader, route_model, route_stream, trust: trust.duplicate() })
}

/// What the router reads of a media request before its body.
#[derive(Debug, PartialEq, Eq)]
pub struct MediaRequest {
    pub method: String,
    pub is_http_11: bool,
    pub path: String,
    pub has_query: bool,
    pub headers: Vec<HeaderField>,
    /// The length of the body as its envelope gives it, or the fault of the envelope.
    pub envelope: Result<Option<u64>, HttpFault>,
}

impl MediaRequest {
    /// The fault of the request line.
    pub open spec fn line_fault(&self, route: HttpMediaRoute) -> Option<HttpFault> {
        if self.method@ != "POST"@ {
            Some(HttpFault::MethodNotAllowed)
        } else if !self.is_http_11 {
            Some(HttpFault::HttpVersionNotSupported)
        } else if self.path@ != route.location() || self.has_query {
            Some(HttpFault::MalformedRequest)
        } else {
            None
        }
    }

    /// Rejects a request line that does not fit the endpoint.
    pub fn validate_line(&self, route: HttpMediaRoute) -> (outcome: Result<(), HttpFault>)
        ensures
            match self.line_fault(route) {
                Some(fault) => outcome is Err && outcome->Err_0 == fault,
                None => outcome is Ok,
            },
    {
        if !same_text(self.method.as_str(), "POST") {
            return Err(HttpFault::MethodNotAllowed);
        }
        if !self.is_http_11 {
            return Err(HttpFault::HttpVersionNotSupported);
        }
        if !same_text(self.path.as_str(), route.path()) || self.has_query {
            return Err(HttpFault::MalformedRequest);
        }
        Ok(())
    }
}

/// Why a media request is answered with an error.
#[derive(Clone, Copy, Debug, PartialEq, Eq, Structural)]
pub enum MediaFault {
    Fault(HttpFault),
    Admission(AdmissionError),
    Dispatch(DispatchError),
}

/// What a request holds while its body is read.
#[derive(Debug)]
pub enum MediaIngress {
    /// Its place in the envelope; the class credits wait for the batch size.
    Envelope(EnvelopeLease),
    /// Its place in the envelope and its class credit.
    Admission(AdmissionLease),
}

/// What comes next for an admitted media request.
#[derive(Debug)]
pub enum MediaStep {
    /// The request goes to its worker unread.
    Relay(RequestFraming, RequestLease),
    /// The body is read and classified first.
    Read(RequestFraming, MediaIngress),
}

/// The media endpoints and their limits.
#[derive(Debug)]
pub struct HttpMedia {
    ordinary_trust: Option<TrustDomain>,
    enabled_routes: Vec<HttpMediaRoute>,
    buffered_max: u64,
    streamed_max: u64,
    request_timeout_ms: u64,
}

/// What [`HttpMedia`] is.
#[verifier::ext_equal]
pub struct MediaView {
    pub ordinary_trust: Option<Seq<char>>,
    pub enabled_routes: Seq<HttpMediaRoute>,
    pub buffered_max: u64,
    pub streamed_max: u64,
    pub request_timeout_ms: u64,
}

impl View for HttpMedia {
    type V = MediaView;

    closed spec fn view(&self) -> MediaView {
        MediaView {
            ordinary_trust: match self.ordinary_trust {
                Some(trust) => Some(trust@),
                None => None,
            },
            enabled_routes: self.enabled_routes@,
            buffered_max: self.buffered_max,
            streamed_max: self.streamed_max,
            request_timeout_ms: self.request_timeout_ms,
        }
    }
}

/// A request with this framing is routed unread: it is no batch, gives no
/// hints, is short enough to stream, and its cohort is content-blind.
pub open spec fn is_direct(
    media: MediaView,
    pool: PoolView,
    route: HttpMediaRoute,
    framing: RequestFraming,
) -> bool {
    &&& !(route is SpeechBatch)
    &&& framing.route_model is None
    &&& framing.route_stream is None
    &&& framing.content_length is Some ==> framing.content_length->Some_0 <= media.streamed_max
    &&& content_blind(
        pool.roster,
        pool.voice_owner,
        media_key(media.ordinary_trust->Some_0, route),
    )
}

/// The body is longer than the request may be.
pub open spec fn is_too_long(
    media: MediaView,
    pool: PoolView,
    route: HttpMediaRoute,
    framing: RequestFraming,
) -> bool {
    let maximum = if is_direct(media, pool, route, framing) {
        media.streamed_max
    } else {
        media.buffered_max
    };
    framing.content_length is Some && framing.content_length->Some_0 > maximum
}

/// The fault of the head of a request: of its line, of the configuration, or
/// of its headers.
pub open spec fn head_fault(
    media: MediaView,
    request: MediaRequest,
    route: HttpMediaRoute,
) -> Option<HttpFault> {
    if request.line_fault(route) is Some {
        request.line_fault(route)
    } else if media.ordinary_trust is None {
        Some(HttpFault::InternalError)
    } else {
        framing_fault(request.headers@, route.kind(), request.envelope)
    }
}

/// One class credit for a request to the endpoint.
pub open spec fn one_credit(route: HttpMediaRoute) -> AdmissionHold {
    AdmissionHold { class: route.service().class(), credits: 1 }
}

/// The pool with one class credit given out to a request to the endpoint.
pub open spec fn with_one_credit(pool: PoolView, route: HttpMediaRoute) -> PoolView {
    PoolView {
        admission: pool.admission.envelope_taken().class_taken(one_credit(route)),
        ..pool
    }
}

/// What the first look at a request leads to, once its framing is read.
pub open spec fn begun(
    media: MediaView,
    before: PoolView,
    route: HttpMediaRoute,
    framing: RequestFraming,
    outcome: Result<MediaStep, MediaFault>,
    after: PoolView,
) -> bool {
    if is_too_long(media, before, route, framing) {
        &&& outcome is Err
        &&& outcome->Err_0 == MediaFault::Fault(HttpFault::RequestBodyTooLarge)
        &&& after == before
    } else if before.admission.envelope_refusal() is Some {
        &&& outcome is Err
        &&& outcome->Err_0 == MediaFault::Admission(before.admission.envelope_refusal()->Some_0)
        &&& after == before
    } else if route is SpeechBatch {
        &&& outcome is Ok
        &&& outcome->Ok_0 is Read
        &&& outcome->Ok_0->Read_0 == framing
        &&& outcome->Ok_0->Read_1 is Envelope
        &&& after == (PoolView { admission: before.admission.envelope_taken(), ..before })
    } else if !before.admission.class_admits(one_credit(route)) {
        &&& outcome is Err
        &&& outcome->Err_0 == MediaFault::Admission(AdmissionError::Overloaded)
        &&& after == before
    } else if is_direct(media, before, route, framing) {
        let admitted = with_one_credit(before, route);
        let key = media_key(media.ordinary_trust->Some_0, route);
        let decision = admitted.choose_among(members(admitted.roster, key));
        match decision {
            Decision::Refuse(error) => {
                &&& outcome is Err
                &&& outcome->Err_0 == MediaFault::Dispatch(error)
                &&& after == admitted.admission_returned(one_credit(route))
            },
            Decision::Assign(worker, order) => {
                &&& outcome is Ok
                &&& outcome->Ok_0 is Relay
                &&& outcome->Ok_0->Relay_0 == framing
                &&& dispatched(
                    admitted,
                    one_credit(route),
                    None,
                    decision,
                    Ok(outcome->Ok_0->Relay_1),
                    after,
                )
            },
        }
    } else {
        &&& outcome is Ok
        &&& outcome->Ok_0 is Read
        &&& outcome->Ok_0->Read_0 == framing
        &&& outcome->Ok_0->Read_1 is Admission
        &&& outcome->Ok_0->Read_1->Admission_0@ == one_credit(route)
        &&& after == with_one_credit(before, route)
    }
}

/// Every enabled endpoint has a worker that takes its requests, and the voice
/// owner, if there is one, takes requests.
pub open spec fn media_ready(media: MediaView, pool: PoolView) -> bool {
    &&& media.ordinary_trust is Some ==> endpoints_ready(
        pool,
        media.ordinary_trust->Some_0,
        media.enabled_routes,
    )
    &&& pool.voice_owner is Some ==> pool.workers[pool.voice_owner->Some_0 as int].routable()
}

/// What a request holds while its body is read came back.
pub open spec fn abandoned(before: PoolView, ingress: MediaIngress) -> PoolView {
    match ingress {
        MediaIngress::Envelope(_) => before.envelope_returned(),
        MediaIngress::Admission(lease) => before.admission_returned(lease@),
    }
}

impl HttpMedia {
    /// The media endpoints of a configuration. Without one there are none,
    /// unless the router has voices to manage; then the fallback gives the limits.
    pub fn build(
        config: Option<HttpMediaConfig>,
        fallback: HttpMediaConfig,
        voice_state_enabled: bool,
    ) -> (media: Option<Self>)
        ensures
            media is Some <==> config is Some || voice_state_enabled,
            media is Some ==> {
                let limits = if config is Some {
                    config->Some_0
                } else {
                    fallback
                };
                media->Some_0@ == (MediaView {
                    ordinary_trust: match config {
                        Some(given) => Some(given.trust_domain@),
                        None => None,
                    },
                    enabled_routes: limits.routes@,
                    buffered_max: limits.buffered_request_max_bytes,
                    streamed_max: limits.streamed_request_max_bytes,
                    request_timeout_ms: limits.request_timeout_ms,
                })
            },
    {
        match config {
            Some(given) => Some(
                HttpMedia {
                    ordinary_trust: Some(TrustDomain::new(given.trust_domain)),
                    enabled_routes: given.routes,
                    buffered_max: given.buffered_request_max_bytes,
                    streamed_max: given.streamed_request_max_bytes,
                    request_timeout_ms: given.request_timeout_ms,
                },
            ),
            None => {
                if voice_state_enabled {
                    Some(
                        HttpMedia {
                            ordinary_trust: None,
                            enabled_routes: fallback.routes,
                            buffered_max: fallback.buffered_request_max_bytes,
                            streamed_max: fallback.streamed_request_max_bytes,
                            request_timeout_ms: fallback.request_timeout_ms,
                        },
                    )
                } else {
                    None
                }
            },
        }
    }

    pub fn enables(&self, route: HttpMediaRoute) -> (outcome: bool)
        ensures
            outcome == self@.enabled_routes.contains(route),
    {
        let mut i: usize = 0;
        while i < self.enabled_routes.len()
            invariant
                i <= self.enabled_routes@.len(),
                forall|k: int| 0 <= k < i ==> self.enabled_routes@[k] != route,
            decreases self.enabled_routes@.len() - i,
        {
            if self.enabled_routes[i] == route {
                assert(self.enabled_routes@[i as int] == route);
                return true;
            }
            i += 1;
        }
        false
    }

    /// Whether every enabled endpoint has a worker that takes its requests, and
    /// the voice owner, if there is one, takes requests.
    pub fn is_ready(&self, pool: &WorkerPool) -> (outcome: bool)
        requires
            pool.wf(),
        ensures
            outcome == media_ready(self@, pool@),
    {
        let endpoints = match &self.ordinary_trust {
            Some(trust) => pool.media_http_ready(trust, self.enabled_routes.as_slice()),
            None => true,
        };
        endpoints && pool.voice_owner_ready()
    }

    pub fn voice_routes_enabled(&self, pool: &WorkerPool) -> (outcome: bool)
        ensures
            outcome == (pool@.voice_owner is Some),
    {
        pool.voice_state_enabled()
    }

    pub fn request_timeout_ms(&self) -> (limit: u64)
        ensures
            limit == self@.request_timeout_ms,
    {
        self.request_timeout_ms
    }

    /// The longest body that is read before routing.
    pub fn buffered_max(&self) -> (limit: u64)
        ensures
            limit == self@.buffered_max,
    {
        self.buffered_max
    }

    /// The longest body that is relayed unread.
    pub fn streamed_max(&self) -> (limit: u64)
        ensures
            limit == self@.streamed_max,
    {
        self.streamed_max
    }

    /// Looks at the head of a request, admits it, and hands it to a worker
    /// unread where that cannot change its route.
    pub fn begin(&self, pool: &mut WorkerPool, request: &MediaRequest, route: HttpMediaRoute) -> (outcome:
        Result<MediaStep, MediaFault>)
        requires
            old(pool).wf(),
        ensures
            final(pool).wf(),
            match head_fault(self@, *request, route) {
                Some(fault) => {
                    &&& outcome is Err
                    &&& outcome->Err_0 == MediaFault::Fault(fault)
                    &&& final(pool)@ == old(pool)@
                },
                None => exists|framing: RequestFraming| #[trigger]
                    framing.frames(request.headers@, route.kind(), request.envelope) && begun(
                        self@,
                        old(pool)@,
                        route,
                        framing,
                        outcome,
                        final(pool)@,
                    ),
            },
    {
        if let Err(fault) = request.validate_line(route) {
            return Err(MediaFault::Fault(fault));
        }
        let trust = match &self.ordinary_trust {
            Some(trust) => trust,
            None => {
                return Err(MediaFault::Fault(HttpFault::InternalError));
            },
        };
        let framing = match validate_request(
            request.headers.as_slice(),
            route.request_kind(),
            request.envelope,
        ) {
            Ok(framing) => framing,
            Err(fault) => {
                return Err(MediaFault::Fault(fault));
            },
        };
        assert(framing.frames(request.headers@, route.kind(), request.envelope));
        let short = match framing.content_length {
            Some(length) => length <= self.streamed_max,
            None => true,
        };
        let direct_proof = if route != HttpMediaRoute::SpeechBatch && framing.route_model.is_none()
            && framing.route_stream.is_none() && short {
            pool.content_blind_media_http(trust, route)
        } else {
            None
        };
        let maximum: u64 = if direct_proof.is_some() {
            self.streamed_max
        } else {
            self.buffered_max
        };
        if let Some(length) = framing.content_length {
            if length > maximum {
                return Err(MediaFault::Fault(HttpFault::RequestBodyTooLarge));
            }
        }
        if route == HttpMediaRoute::SpeechBatch {
            return match pool.try_admit_envelope() {
                Ok(envelope) => Ok(MediaStep::Read(framing, MediaIngress::Envelope(envelope))),
                Err(error) => Err(MediaFault::Admission(error)),
            };
        }
        let admission = match pool.try_admit(route.capacity(), 1) {
            Ok(admission) => admission,
            Err(error) => {
                return Err(MediaFault::Admission(error));
            },
        };
        match direct_proof {
            Some(proof_of) => match proof_of.dispatch(pool, admission) {
                Ok(lease) => Ok(MediaStep::Relay(framing, lease)),
                Err(error) => Err(MediaFault::Dispatch(error)),
            },
            None => Ok(MediaStep::Read(framing, MediaIngress::Admission(admission))),
        }
    }

    /// How the needs of a request with this framing are found, in the trust
    /// domain of the media endpoints.
    pub fn classifier(&self, route: HttpMediaRoute, framing: &RequestFraming) -> (outcome: Result<
        Classifier,
        HttpFault,
    >)
        ensures
            match self@.ordinary_trust {
                None => outcome is Err && outcome->Err_0 is InternalError,
                Some(trust) => match classifier_of(
                    route,
                    framing.boundary_bytes(),
                    string_of(framing.route_model),
                    framing.route_stream,
                    trust,
                ) {
                    Some(classifier) => outcome is Ok && outcome->Ok_0@ == classifier,
                    None => outcome is Err && outcome->Err_0 is UnsupportedMediaType,
                },
            },
    {
        let boundary: Option<&[u8]> = match &framing.boundary {
            Some(bytes) => Some(bytes.as_slice()),
            None => None,
        };
        match &self.ordinary_trust {
            Some(trust) => classify(
                route,
                boundary,
                borrow_text(&framing.route_model),
                framing.route_stream,
                trust,
            ),
            None => Err(HttpFault::InternalError),
        }
    }

    /// Hands a request whose body was read and classified to a worker of the
    /// trust domain of the media endpoints.
    pub fn finish(
        &self,
        pool: &mut WorkerPool,
        route: HttpMediaRoute,
        ingress: MediaIngress,
        credits: u32,
        needs: ProfileRequirement,
    ) -> (outcome: Result<RequestLease, MediaFault>)
        requires
            old(pool).wf(),
        ensures
            final(pool).wf(),
            finished(self@, old(pool)@, route, ingress, credits, needs, outcome, final(pool)@),
    {
        let trust = match &self.ordinary_trust {
            Some(trust) => trust,
            None => {
                self.abandon(pool, ingress);
                return Err(MediaFault::Fault(HttpFault::InternalError));
            },
        };
        if route == HttpMediaRoute::SpeechBatch && !pool.supports_speech_batch_size(
            trust,
            credits,
        ) {
            self.abandon(pool, ingress);
            return Err(MediaFault::Fault(HttpFault::NoCompatibleWorker));
        }
        let requirement = RouteRequirement::new(needs, trust.duplicate());
        assert(requirement.asks(needs, self@.ordinary_trust->Some_0));
        let admission = match ingress {
            MediaIngress::Admission(admission) => admission,
            MediaIngress::Envelope(envelope) => match pool.try_admit_class(
                envelope,
                route.capacity(),
                credits,
            ) {
                Ok(admission) => admission,
                Err(error) => {
                    return Err(MediaFault::Admission(error));
                },
            },
        };
        match pool.dispatch(admission, &requirement) {
            Ok(lease) => Ok(lease),
            Err(error) => Err(MediaFault::Dispatch(error)),
        }
    }

    /// Gives back what a request holds whose body could not be read or classified.
    pub fn abandon(&self, pool: &mut WorkerPool, ingress: MediaIngress)
        requires
            old(pool).wf(),
        ensures
            final(pool).wf(),
            final(pool)@ == abandoned(old(pool)@, ingress),
    {
        match ingress {
            MediaIngress::Envelope(envelope) => pool.release_envelope(envelope),
            MediaIngress::Admission(lease) => pool.release_admission(lease),
        }
    }
}

/// What dispatching an admitted request leads to.
pub open spec fn routed(
    before: PoolView,
    admission: AdmissionHold,
    requirement: RouteRequirement,
    outcome: Result<RequestLease, MediaFault>,
    after: PoolView,
) -> bool {
    let decision = before.dispatch_decision(admission.class, requirement);
    match decision {
        Decision::Refuse(error) => {
            &&& outcome is Err
            &&& outcome->Err_0 == MediaFault::Dispatch(error)
            &&& after == before.admission_returned(admission)
        },
        Decision::Assign(worker, order) => {
            &&& outcome is Ok
            &&& dispatched(before, admission, None, decision, Ok(outcome->Ok_0), after)
        },
    }
}

/// What a classified request leads to that some worker may take.
pub open spec fn entered(
    before: PoolView,
    route: HttpMediaRoute,
    ingress: MediaIngress,
    credits: u32,
    requirement: RouteRequirement,
    outcome: Result<RequestLease, MediaFault>,
    after: PoolView,
) -> bool {
    match ingress {
        MediaIngress::Admission(lease) => routed(before, lease@, requirement, outcome, after),
        MediaIngress::Envelope(_) => {
            let hold = AdmissionHold { class: route.service().class(), credits: credits as nat };
            if before.admission.class_admits(hold) {
                routed(
                    PoolView { admission: before.admission.class_taken(hold), ..before },
                    hold,
                    requirement,
                    outcome,
                    after,
                )
            } else {
                &&& outcome is Err
                &&& outcome->Err_0 == MediaFault::Admission(AdmissionError::Overloaded)
                &&& after == before.envelope_returned()
            }
        },
    }
}

/// What a request whose body was classified leads to. Its requirement is what
/// it needs, in the trust domain of the media endpoints.
pub open spec fn finished(
    media: MediaView,
    before: PoolView,
    route: HttpMediaRoute,
    ingress: MediaIngress,
    credits: u32,
    needs: ProfileRequirement,
    outcome: Result<RequestLease, MediaFault>,
    after: PoolView,
) -> bool {
    if media.ordinary_trust is None {
        &&& outcome is Err
        &&& outcome->Err_0 == MediaFault::Fault(HttpFault::InternalError)
        &&& after == abandoned(before, ingress)
    } else if route is SpeechBatch && !before.takes_batch(media.ordinary_trust->Some_0, credits) {
        &&& outcome is Err
        &&& outcome->Err_0 == MediaFault::Fault(HttpFault::NoCompatibleWorker)
        &&& after == abandoned(before, ingress)
    } else {
        exists|requirement: RouteRequirement| #[trigger]
            requirement.asks(needs, media.ordinary_trust->Some_0) && entered(
                before,
                route,
                ingress,
                credits,
                requirement,
                outcome,
                after,
            )
    }
}

/// Class credits that are taken and given back leave admission as it was.
proof fn lemma_class_returned(admission: AdmissionView, hold: AdmissionHold)
    requires
        admission.wf(),
        admission.class_admits(hold),
    ensures
        admission.class_taken(hold).class_returned(hold) == admission,
{
    let again = admission.class_taken(hold).class_returned(hold);
    assert(again.classes =~= admission.classes);
}

/// A media request that is refused before its body is read leaves the pool as
/// it was.
pub proof fn law_request_refused_at_once_holds_nothing(
    media: MediaView,
    before: PoolView,
    route: HttpMediaRoute,
    framing: RequestFraming,
    outcome: Result<MediaStep, MediaFault>,
    after: PoolView,
)
    requires
        before.wf(),
        begun(media, before, route, framing, outcome, after),
        outcome is Err,
    ensures
        after == before,
{
    let hold = one_credit(route);
    if before.admission.envelope_refusal() is None && before.admission.class_admits(hold) {
        let placed = before.admission.envelope_taken();
        lemma_class_returned(placed, hold);
        assert(placed.envelope_returned() =~= before.admission);
        assert(with_one_credit(before, route).admission_returned(hold) =~= before);
    }
}

/// A media request that is refused after its body was read leaves the pool as
/// if it had been given up: all that it held came back.
pub proof fn law_request_refused_after_reading_holds_nothing(
    media: MediaView,
    before: PoolView,
    route: HttpMediaRoute,
    ingress: MediaIngress,
    credits: u32,
    needs: ProfileRequirement,
    outcome: Result<RequestLease, MediaFault>,
    after: PoolView,
)
    requires
        before.wf(),
        finished(media, before, route, ingress, credits, needs, outcome, after),
        outcome is Err,
    ensures
        after == abandoned(before, ingress),
{
    let hold = AdmissionHold { class: route.service().class(), credits: credits as nat };
    if ingress is Envelope && before.admission.class_admits(hold) {
        lemma_class_returned(before.admission, hold);
        let admitted = PoolView { admission: before.admission.class_taken(hold), ..before };
        assert(admitted.admission_returned(hold) =~= before.envelope_returned());
    }
}

/// A media request that is relayed unread goes to a worker of the trust domain
/// of the media endpoints that takes requests.
pub proof fn law_unread_request_stays_in_its_trust_domain(
    media: MediaView,
    before: PoolView,
    route: HttpMediaRoute,
    framing: RequestFraming,
    outcome: Result<MediaStep, MediaFault>,
    after: PoolView,
)
    requires
        before.wf(),
        begun(media, before, route, framing, outcome, after),
        outcome is Ok,
        outcome->Ok_0 is Relay,
    ensures
        ({
            let worker = outcome->Ok_0->Relay_1@.worker;
            &&& worker < before.roster.len()
            &&& before.roster[worker as int].trust == media.ordinary_trust->Some_0
            &&& before.workers[worker as int].routable()
        }),
{
    let admitted = with_one_credit(before, route);
    let key = media_key(media.ordinary_trust->Some_0, route);
    law_choice_is_routable_and_least_loaded(admitted, members(admitted.roster, key));
}

/// A media request whose body was read goes to a worker of the trust domain of
/// the media endpoints that takes requests.
pub proof fn law_read_request_stays_in_its_trust_domain(
    media: MediaView,
    before: PoolView,
    route: HttpMediaRoute,
    ingress: MediaIngress,
    credits: u32,
    needs: ProfileRequirement,
    outcome: Result<RequestLease, MediaFault>,
    after: PoolView,
)
    requires
        before.wf(),
        finished(media, before, route, ingress, credits, needs, outcome, after),
        outcome is Ok,
    ensures
        ({
            let worker = outcome->Ok_0@.worker;
            &&& worker < before.roster.len()
            &&& before.roster[worker as int].trust == media.ordinary_trust->Some_0
            &&& before.workers[worker as int].routable()
        }),
{
    let trust = media.ordinary_trust->Some_0;
    let requirement = choose|requirement: RouteRequirement| #[trigger]
        requirement.asks(needs, trust) && entered(
            before,
            route,
            ingress,
            credits,
            requirement,
            outcome,
            after,
        );
    match ingress {
        MediaIngress::Admission(lease) => {
            law_assigned_worker_serves_the_request(before, lease@.class, requirement);
        },
        MediaIngress::Envelope(_) => {
            let hold = AdmissionHold { class: route.service().class(), credits: credits as nat };
            let admitted = PoolView { admission: before.admission.class_taken(hold), ..before };
            law_assigned_worker_serves_the_request(admitted, hold.class, requirement);
        },
    }
}

} // verus!
