//! Plain configuration values.

use vstd::prelude::*;

use crate::worker_pool::cohorts::is_relevant;
use crate::worker_pool::profile::{ServiceClass, ServiceProfile, SpeechToTextTask, WorkerConfig};

verus! {

/// How a worker is picked among those that can take a request.
#[derive(Clone, Copy, Debug, PartialEq, Eq, Structural)]
pub enum RoutingStrategy {
    RoundRobin,
    LeastRequests,
}

/// A media endpoint.
#[derive(Clone, Copy, Debug, PartialEq, Eq, Structural)]
pub enum HttpMediaRoute {
    Speech,
    SpeechBatch,
    Transcription,
    Translation,
}

impl HttpMediaRoute {
    /// The service that the endpoint routes to.
    pub open spec fn service(self) -> ServiceClass {
        match self {
            HttpMediaRoute::Speech => ServiceClass::SpeechHttp,
            HttpMediaRoute::SpeechBatch => ServiceClass::SpeechBatch,
            HttpMediaRoute::Transcription => ServiceClass::TranscriptionHttp,
            HttpMediaRoute::Translation => ServiceClass::TranscriptionHttp,
        }
    }

    /// The speech recognition task of the endpoint.
    pub open spec fn task(self) -> Option<SpeechToTextTask> {
        match self {
            HttpMediaRoute::Speech => None,
            HttpMediaRoute::SpeechBatch => None,
            HttpMediaRoute::Transcription => Some(SpeechToTextTask::Transcribe),
            HttpMediaRoute::Translation => Some(SpeechToTextTask::Translate),
        }
    }

    pub fn service_class(self) -> (service: ServiceClass)
        ensures
            service == self.service(),
    {
        match self {
            HttpMediaRoute::Speech => ServiceClass::SpeechHttp,
            HttpMediaRoute::SpeechBatch => ServiceClass::SpeechBatch,
            HttpMediaRoute::Transcription => ServiceClass::TranscriptionHttp,
            HttpMediaRoute::Translation => ServiceClass::TranscriptionHttp,
        }
    }

    pub fn speech_to_text_task(self) -> (task: Option<SpeechToTextTask>)
        ensures
            task == self.task(),
    {
        match self {
            HttpMediaRoute::Speech => None,
            HttpMediaRoute::SpeechBatch => None,
            HttpMediaRoute::Transcription => Some(SpeechToTextTask::Transcribe),
            HttpMediaRoute::Translation => Some(SpeechToTextTask::Translate),
        }
    }

    /// Whether a row advertises the service and task of the endpoint.
    pub fn matches_profile(self, profile: &ServiceProfile) -> (outcome: bool)
        ensures
            outcome == (profile.service() == self.service() && profile.task() == self.task()),
    {
        is_relevant(profile, self.service_class(), self.speech_to_text_task())
    }
}

/// The admission limits: one for the envelope, and an optional one per class.
#[derive(Clone, Copy, Debug, PartialEq, Eq)]
pub struct AdmissionConfig {
    pub global: u32,
    pub generation_http: Option<u32>,
    pub speech_http: Option<u32>,
    pub speech_batch: Option<u32>,
    pub transcription_http: Option<u32>,
    pub speech_websocket: Option<u32>,
    pub realtime_websocket: Option<u32>,
}

impl AdmissionConfig {
    /// The class limits, in the order of the classes.
    pub open spec fn classes(&self) -> Seq<Option<u32>> {
        seq![
            self.generation_http,
            self.speech_http,
            self.speech_batch,
            self.transcription_http,
            self.speech_websocket,
            self.realtime_websocket,
        ]
    }
}

/// What the worker pool is built from.
#[derive(Clone, Debug, PartialEq, Eq)]
pub struct PoolConfig {
    pub workers: Vec<WorkerConfig>,
    pub admission: AdmissionConfig,
    pub voice_owner_worker_id: Option<String>,
    pub strategy: RoutingStrategy,
}

/// The media endpoints: the trust domain of their workers, and their limits.
#[derive(Clone, Debug, PartialEq, Eq)]
pub struct HttpMediaConfig {
    pub trust_domain: String,
    pub routes: Vec<HttpMediaRoute>,
    pub buffered_request_max_bytes: u64,
    pub streamed_request_max_bytes: u64,
    pub request_timeout_ms: u64,
}

} // verus!
