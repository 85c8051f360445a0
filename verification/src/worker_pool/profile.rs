//! What a worker advertises and what a request needs.

use vstd::prelude::*;

use crate::text::{contains_text, keys, same_optional_text, text_of, Item};

verus! {

/// The largest number of registered workers.
pub const MAX_WORKERS: usize = 256;

pub const MAX_PROFILES_PER_WORKER: usize = 64;

pub const MAX_SET_ITEMS: usize = 64;

pub const MAX_ID_BYTES: usize = 128;

pub const MAX_MODEL_ID_BYTES: usize = 256;

pub const MAX_BASE_URL_BYTES: usize = 2048;

pub const MAX_HEALTH_PATH_BYTES: usize = 128;

/// The largest per-worker limit on concurrent sessions of one class.
pub const MAX_SESSION_LIMIT: u32 = 65535;

/// The number of admission classes.
pub const CAPACITY_CLASS_COUNT: usize = 6;

/// A service that a worker can advertise.
#[derive(Clone, Copy, Debug, PartialEq, Eq, Hash, Structural)]
pub enum ServiceClass {
    GenerationHttp,
    SpeechHttp,
    SpeechBatch,
    TranscriptionHttp,
    SpeechWebsocket,
    RealtimeWebsocket,
}

/// An admission class: one for each service.
#[derive(Clone, Copy, Debug, PartialEq, Eq, Hash, Structural)]
pub enum CapacityClass {
    GenerationHttp,
    SpeechHttp,
    SpeechBatch,
    TranscriptionHttp,
    SpeechWebsocket,
    RealtimeWebsocket,
}

impl CapacityClass {
    /// Every class, in the order of [`CapacityClass::index`].
    pub open spec fn all() -> Seq<CapacityClass> {
        seq![
            CapacityClass::GenerationHttp,
            CapacityClass::SpeechHttp,
            CapacityClass::SpeechBatch,
            CapacityClass::TranscriptionHttp,
            CapacityClass::SpeechWebsocket,
            CapacityClass::RealtimeWebsocket,
        ]
    }

    /// The class with the given index.
    pub fn from_index(index: usize) -> (class: Self)
        requires
            index < CAPACITY_CLASS_COUNT,
        ensures
            class == Self::all()[index as int],
            class.ordinal() == index,
    {
        match index {
            0 => CapacityClass::GenerationHttp,
            1 => CapacityClass::SpeechHttp,
            2 => CapacityClass::SpeechBatch,
            3 => CapacityClass::TranscriptionHttp,
            4 => CapacityClass::SpeechWebsocket,
            _ => CapacityClass::RealtimeWebsocket,
        }
    }

    /// The name of the class in metrics and diagnostics.
    pub open spec fn name(self) -> Seq<char> {
        match self {
            CapacityClass::GenerationHttp => "generation_http"@,
            CapacityClass::SpeechHttp => "speech_http"@,
            CapacityClass::SpeechBatch => "speech_batch"@,
            CapacityClass::TranscriptionHttp => "transcription_http"@,
            CapacityClass::SpeechWebsocket => "speech_websocket"@,
            CapacityClass::RealtimeWebsocket => "realtime_websocket"@,
        }
    }

    pub fn label(self) -> (label: &'static str)
        ensures
            label@ == self.name(),
    {
        match self {
            CapacityClass::GenerationHttp => "generation_http",
            CapacityClass::SpeechHttp => "speech_http",
            CapacityClass::SpeechBatch => "speech_batch",
            CapacityClass::TranscriptionHttp => "transcription_http",
            CapacityClass::SpeechWebsocket => "speech_websocket",
            CapacityClass::RealtimeWebsocket => "realtime_websocket",
        }
    }

    /// The position of the class in tables that hold one entry per class.
    pub open spec fn ordinal(self) -> int {
        match self {
            CapacityClass::GenerationHttp => 0,
            CapacityClass::SpeechHttp => 1,
            CapacityClass::SpeechBatch => 2,
            CapacityClass::TranscriptionHttp => 3,
            CapacityClass::SpeechWebsocket => 4,
            CapacityClass::RealtimeWebsocket => 5,
        }
    }

    pub fn index(self) -> (index: usize)
        ensures
            index == self.ordinal(),
            index < CAPACITY_CLASS_COUNT,
            Self::all()[index as int] == self,
    {
        match self {
            CapacityClass::GenerationHttp => 0,
            CapacityClass::SpeechHttp => 1,
            CapacityClass::SpeechBatch => 2,
            CapacityClass::TranscriptionHttp => 3,
            CapacityClass::SpeechWebsocket => 4,
            CapacityClass::RealtimeWebsocket => 5,
        }
    }
}

impl ServiceClass {
    /// The admission class that requests of this service are counted in.
    pub open spec fn class(self) -> CapacityClass {
        match self {
            ServiceClass::GenerationHttp => CapacityClass::GenerationHttp,
            ServiceClass::SpeechHttp => CapacityClass::SpeechHttp,
            ServiceClass::SpeechBatch => CapacityClass::SpeechBatch,
            ServiceClass::TranscriptionHttp => CapacityClass::TranscriptionHttp,
            ServiceClass::SpeechWebsocket => CapacityClass::SpeechWebsocket,
            ServiceClass::RealtimeWebsocket => CapacityClass::RealtimeWebsocket,
        }
    }

    pub fn capacity(self) -> (class: CapacityClass)
        ensures
            class == self.class(),
    {
        match self {
            ServiceClass::GenerationHttp => CapacityClass::GenerationHttp,
            ServiceClass::SpeechHttp => CapacityClass::SpeechHttp,
            ServiceClass::SpeechBatch => CapacityClass::SpeechBatch,
            ServiceClass::TranscriptionHttp => CapacityClass::TranscriptionHttp,
            ServiceClass::SpeechWebsocket => CapacityClass::SpeechWebsocket,
            ServiceClass::RealtimeWebsocket => CapacityClass::RealtimeWebsocket,
        }
    }
}

/// The configured name of a worker.
#[derive(Clone, Debug, PartialEq, Eq, Hash)]
pub struct WorkerId(String);

impl View for WorkerId {
    type V = Seq<char>;

    closed spec fn view(&self) -> Seq<char> {
        self.0@
    }
}

impl WorkerId {
    pub fn new(value: String) -> (id: Self)
        ensures
            id@ == value@,
    {
        WorkerId(value)
    }

    pub fn as_str(&self) -> (text: &str)
        ensures
            text@ == self@,
    {
        self.0.as_str()
    }
}

/// The position of a worker in the startup configuration.
#[derive(Clone, Copy, Debug, PartialEq, Eq, PartialOrd, Ord, Hash)]
pub struct RegistrationId(usize);

impl View for RegistrationId {
    type V = int;

    closed spec fn view(&self) -> int {
        self.0 as int
    }
}

impl RegistrationId {
    pub fn from_startup_ordinal(ordinal: usize) -> (id: Self)
        ensures
            id@ == ordinal,
    {
        RegistrationId(ordinal)
    }

    pub fn startup_ordinal(self) -> (ordinal: usize)
        ensures
            ordinal == self@,
    {
        self.0
    }
}

/// A set of workers that share one level of trust. Requests never cross it.
#[derive(Clone, Debug, PartialEq, Eq, Hash)]
pub struct TrustDomain(String);

impl View for TrustDomain {
    type V = Seq<char>;

    closed spec fn view(&self) -> Seq<char> {
        self.0@
    }
}

impl TrustDomain {
    pub fn new(value: String) -> (domain: Self)
        ensures
            domain@ == value@,
    {
        TrustDomain(value)
    }

    /// A second value of the same domain.
    pub fn duplicate(&self) -> (domain: Self)
        ensures
            domain@ == self@,
    {
        TrustDomain(self.0.clone())
    }
}

impl Item for TrustDomain {
    fn same(&self, other: &Self) -> (outcome: bool) {
        self.0 == other.0
    }
}

/// One worker of the startup configuration.
#[derive(Clone, Debug, PartialEq, Eq)]
pub struct WorkerConfig {
    pub worker_id: String,
    pub base_url: String,
    pub trust_domain: String,
    pub default_model_id: Option<String>,
    pub health_path: String,
    pub capacity: WorkerCapacityConfig,
    pub service_profiles: Vec<ServiceProfile>,
}

/// Per-worker limits on concurrent WebSocket sessions.
#[derive(Clone, Copy, Debug, PartialEq, Eq)]
pub struct WorkerCapacityConfig {
    pub speech_websocket: Option<u32>,
    pub realtime_websocket: Option<u32>,
}

impl Default for WorkerCapacityConfig {
    fn default() -> (config: Self)
        ensures
            config.speech_websocket is None,
            config.realtime_websocket is None,
    {
        WorkerCapacityConfig { speech_websocket: None, realtime_websocket: None }
    }
}

/// How a chat message carries its content.
#[derive(Clone, Copy, Debug, PartialEq, Eq, Hash, Structural)]
pub enum MessageContentForm {
    String,
    TypedParts,
}

impl View for MessageContentForm {
    type V = Self;

    open spec fn view(&self) -> Self {
        *self
    }
}

impl Item for MessageContentForm {
    fn same(&self, other: &Self) -> (outcome: bool) {
        *self == *other
    }
}

/// Where a chat request carries its media.
#[derive(Clone, Copy, Debug, PartialEq, Eq, Hash, Structural)]
pub enum MediaPlacement {
    TopLevel,
    TypedParts,
}

impl View for MediaPlacement {
    type V = Self;

    open spec fn view(&self) -> Self {
        *self
    }
}

impl Item for MediaPlacement {
    fn same(&self, other: &Self) -> (outcome: bool) {
        *self == *other
    }
}

/// The encoding of audio in a chat answer.
#[derive(Clone, Copy, Debug, PartialEq, Eq, Hash, Structural)]
pub enum ChatAudioFormat {
    Wav,
    Mp3,
    Flac,
    Pcm,
    Aac,
    Opus,
}

impl View for ChatAudioFormat {
    type V = Self;

    open spec fn view(&self) -> Self {
        *self
    }
}

impl Item for ChatAudioFormat {
    fn same(&self, other: &Self) -> (outcome: bool) {
        *self == *other
    }
}

/// A kind of input.
#[derive(Clone, Copy, Debug, PartialEq, Eq, Hash, Structural)]
pub enum InputModality {
    Text,
    Image,
    Audio,
    Video,
}

impl View for InputModality {
    type V = Self;

    open spec fn view(&self) -> Self {
        *self
    }
}

impl Item for InputModality {
    fn same(&self, other: &Self) -> (outcome: bool) {
        *self == *other
    }
}

/// A kind of output.
#[derive(Clone, Copy, Debug, PartialEq, Eq, Hash, Structural)]
pub enum OutputModality {
    Text,
    Audio,
}

impl View for OutputModality {
    type V = Self;

    open spec fn view(&self) -> Self {
        *self
    }
}

impl Item for OutputModality {
    fn same(&self, other: &Self) -> (outcome: bool) {
        *self == *other
    }
}

/// Whether an answer is streamed.
#[derive(Clone, Copy, Debug, PartialEq, Eq, Hash, Structural)]
pub enum StreamMode {
    NonStreaming,
    Streaming,
}

impl View for StreamMode {
    type V = Self;

    open spec fn view(&self) -> Self {
        *self
    }
}

impl Item for StreamMode {
    fn same(&self, other: &Self) -> (outcome: bool) {
        *self == *other
    }
}

/// The encoding of synthesised speech.
#[derive(Clone, Copy, Debug, PartialEq, Eq, Hash, Structural)]
pub enum SpeechResponseFormat {
    Mp3,
    Opus,
    Aac,
    Flac,
    Wav,
    Pcm,
}

impl View for SpeechResponseFormat {
    type V = Self;

    open spec fn view(&self) -> Self {
        *self
    }
}

impl Item for SpeechResponseFormat {
    fn same(&self, other: &Self) -> (outcome: bool) {
        *self == *other
    }
}

/// A speech synthesis task.
#[derive(Clone, Copy, Debug, PartialEq, Eq, Hash, Structural)]
pub enum SpeechTask {
    TextToSpeech,
    VoiceClone,
    VoiceDesign,
}

impl View for SpeechTask {
    type V = Self;

    open spec fn view(&self) -> Self {
        *self
    }
}

impl Item for SpeechTask {
    fn same(&self, other: &Self) -> (outcome: bool) {
        *self == *other
    }
}

/// How a speech request refers to a voice sample.
#[derive(Clone, Copy, Debug, PartialEq, Eq, Hash, Structural)]
pub enum ReferenceForm {
    Absent,
    Direct,
    List,
    VqCodes,
}

impl View for ReferenceForm {
    type V = Self;

    open spec fn view(&self) -> Self {
        *self
    }
}

impl Item for ReferenceForm {
    fn same(&self, other: &Self) -> (outcome: bool) {
        *self == *other
    }
}

/// What a voice name denotes on a worker.
#[derive(Clone, Copy, Debug, PartialEq, Eq, Hash, Structural)]
pub enum VoiceNamePolicy {
    Preset,
    Uploaded,
}

impl VoiceNamePolicy {
    /// The bit that stands for the policy in a set of policies.
    pub open spec fn mask(self) -> u8 {
        match self {
            VoiceNamePolicy::Preset => 1,
            VoiceNamePolicy::Uploaded => 2,
        }
    }

    pub fn bit(self) -> (bit: u8)
        ensures
            bit == self.mask(),
    {
        match self {
            VoiceNamePolicy::Preset => 1,
            VoiceNamePolicy::Uploaded => 2,
        }
    }
}

/// A speech recognition task.
#[derive(Clone, Copy, Debug, PartialEq, Eq, Hash, Structural)]
pub enum SpeechToTextTask {
    Transcribe,
    Translate,
}

/// The form of a transcript.
#[derive(Clone, Copy, Debug, PartialEq, Eq, Hash, Structural)]
pub enum TranscriptionResponseFormat {
    Json,
    Text,
    VerboseJson,
    Srt,
    Vtt,
    Sse,
}

impl View for TranscriptionResponseFormat {
    type V = Self;

    open spec fn view(&self) -> Self {
        *self
    }
}

impl Item for TranscriptionResponseFormat {
    fn same(&self, other: &Self) -> (outcome: bool) {
        *self == *other
    }
}

/// One row of correlated capabilities: a worker supports every combination of
/// what one row lists, and no combination across rows.
#[derive(Clone, Debug, PartialEq, Eq)]
pub enum ServiceProfile {
    GenerationHttp {
        model_ids: Vec<String>,
        message_content_forms: Vec<MessageContentForm>,
        media_placements: Vec<MediaPlacement>,
        input_modalities: Vec<InputModality>,
        output_modalities: Vec<OutputModality>,
        chat_audio_formats: Vec<ChatAudioFormat>,
        stream_modes: Vec<StreamMode>,
    },
    SpeechHttp {
        model_ids: Vec<String>,
        response_formats: Vec<SpeechResponseFormat>,
        stream_modes: Vec<StreamMode>,
        tasks: Vec<SpeechTask>,
        reference_forms: Vec<ReferenceForm>,
        voice_name_policy: VoiceNamePolicy,
    },
    SpeechBatch {
        model_ids: Vec<String>,
        response_formats: Vec<SpeechResponseFormat>,
        tasks: Vec<SpeechTask>,
        reference_forms: Vec<ReferenceForm>,
        voice_name_policy: VoiceNamePolicy,
        max_batch_size: u16,
    },
    TranscriptionHttp {
        model_ids: Vec<String>,
        task: SpeechToTextTask,
        response_formats: Vec<TranscriptionResponseFormat>,
        stream_modes: Vec<StreamMode>,
    },
    SpeechWebsocket {
        model_ids: Vec<String>,
        response_formats: Vec<SpeechResponseFormat>,
        stream_modes: Vec<StreamMode>,
        tasks: Vec<SpeechTask>,
        reference_forms: Vec<ReferenceForm>,
        voice_name_policy: VoiceNamePolicy,
    },
    RealtimeWebsocket,
}

/// What a request needs, and the trust domain it must stay in.
#[derive(Clone, Debug, PartialEq, Eq)]
pub struct RouteRequirement {
    profile: ProfileRequirement,
    trust_domain: TrustDomain,
}

/// One correlated worker requirement; matching must never combine profile rows.
#[derive(Clone, Debug, PartialEq, Eq)]
pub enum ProfileRequirement {
    GenerationHttp {
        model: ModelSelection,
        message_content_forms: Vec<MessageContentForm>,
        media_placements: Vec<MediaPlacement>,
        input_modalities: Vec<InputModality>,
        output_modalities: Vec<OutputModality>,
        audio_format: Option<ChatAudioFormat>,
        stream_mode: StreamMode,
    },
    SpeechHttp {
        model: ModelSelection,
        response_format: SpeechResponseFormat,
        stream_mode: StreamMode,
        task: Option<SpeechTask>,
        reference_forms: Vec<ReferenceForm>,
        named_voice: bool,
    },
    SpeechBatch {
        models: Vec<ModelSelection>,
        response_formats: Vec<SpeechResponseFormat>,
        tasks: Vec<SpeechTask>,
        reference_forms: Vec<ReferenceForm>,
        named_voice: bool,
        batch_size: u16,
    },
    TranscriptionHttp {
        model: ModelSelection,
        task: SpeechToTextTask,
        response_format: TranscriptionResponseFormat,
        stream_mode: StreamMode,
    },
    SpeechWebsocket {
        model: ModelSelection,
        response_format: Option<SpeechResponseFormat>,
        stream_mode: StreamMode,
        task: Option<SpeechTask>,
        reference_forms: Vec<ReferenceForm>,
        named_voice: bool,
    },
    RealtimeWebsocket { model: Option<String> },
}

/// Preserves whether the caller selected a model or relied on a worker default.
#[derive(Clone, Debug, PartialEq, Eq, PartialOrd, Ord)]
pub enum ModelSelection {
    Explicit(String),
    WorkerDefault { expected_model_id: String },
    UnresolvedDefault,
}

impl ModelSelection {
    /// The model that the selection names.
    pub open spec fn expected(&self) -> Option<Seq<char>> {
        match *self {
            ModelSelection::Explicit(model_id) => Some(model_id@),
            ModelSelection::WorkerDefault { expected_model_id } => Some(expected_model_id@),
            ModelSelection::UnresolvedDefault => None,
        }
    }

    /// A row with these models on a worker with this default serves the selection.
    pub open spec fn served_by(&self, models: Seq<Seq<char>>, default: Option<Seq<char>>) -> bool {
        match *self {
            ModelSelection::Explicit(model_id) => models.contains(model_id@),
            ModelSelection::WorkerDefault { expected_model_id } => {
                default == Some(expected_model_id@) && models.contains(expected_model_id@)
            },
            ModelSelection::UnresolvedDefault => {
                default is Some ==> models.contains(default->Some_0)
            },
        }
    }

    /// As [`ModelSelection::served_by`], for translation, which runs on the
    /// worker's default model alone.
    pub open spec fn translated_by(
        &self,
        models: Seq<Seq<char>>,
        default: Option<Seq<char>>,
    ) -> bool {
        &&& default is Some
        &&& models.contains(default->Some_0)
        &&& self.expected() is Some ==> default == self.expected()
    }

    pub fn expected_model_id(&self) -> (model: Option<&str>)
        ensures
            text_of(model) == self.expected(),
    {
        match self {
            ModelSelection::Explicit(model_id) => Some(model_id.as_str()),
            ModelSelection::WorkerDefault { expected_model_id } => Some(expected_model_id.as_str()),
            ModelSelection::UnresolvedDefault => None,
        }
    }

    pub fn matches_profile_models(
        &self,
        model_ids: &[String],
        worker_default: Option<&str>,
    ) -> (outcome: bool)
        ensures
            outcome == self.served_by(keys(model_ids@), text_of(worker_default)),
    {
        match self {
            ModelSelection::Explicit(model_id) => contains_text(model_ids, model_id.as_str()),
            ModelSelection::WorkerDefault { expected_model_id } => {
                same_optional_text(worker_default, Some(expected_model_id.as_str()))
                    && contains_text(model_ids, expected_model_id.as_str())
            },
            ModelSelection::UnresolvedDefault => match worker_default {
                Some(model_id) => contains_text(model_ids, model_id),
                None => true,
            },
        }
    }

    pub fn matches_translation(
        &self,
        model_ids: &[String],
        worker_default: Option<&str>,
    ) -> (outcome: bool)
        ensures
            outcome == self.translated_by(keys(model_ids@), text_of(worker_default)),
    {
        match self {
            ModelSelection::Explicit(model_id) => {
                same_optional_text(worker_default, Some(model_id.as_str())) && contains_text(
                    model_ids,
                    model_id.as_str(),
                )
            },
            ModelSelection::WorkerDefault { expected_model_id } => {
                same_optional_text(worker_default, Some(expected_model_id.as_str()))
                    && contains_text(model_ids, expected_model_id.as_str())
            },
            ModelSelection::UnresolvedDefault => match worker_default {
                Some(model_id) => contains_text(model_ids, model_id),
                None => false,
            },
        }
    }

    pub fn requires_resolution(&self) -> (outcome: bool)
        ensures
            outcome == (*self is UnresolvedDefault),
    {
        matches!(self, ModelSelection::UnresolvedDefault)
    }
}

/// Whether some selection is left to the worker's default.
fn any_unresolved(models: &[ModelSelection]) -> (outcome: bool)
    ensures
        outcome == exists|i: int|
            0 <= i < models@.len() && (#[trigger] models@[i]) is UnresolvedDefault,
{
    let mut i: usize = 0;
    while i < models.len()
        invariant
            i <= models@.len(),
            forall|j: int| 0 <= j < i ==> !((#[trigger] models@[j]) is UnresolvedDefault),
        decreases models@.len() - i,
    {
        if models[i].requires_resolution() {
            return true;
        }
        i += 1;
    }
    false
}

impl RouteRequirement {
    /// What the request needs of a row.
    pub closed spec fn needs(&self) -> ProfileRequirement {
        self.profile
    }

    /// The trust domain that the request must stay in.
    pub closed spec fn domain(&self) -> Seq<char> {
        self.trust_domain@
    }

    /// The request has these needs, and must stay in the trust domain.
    pub open spec fn asks(&self, needs: ProfileRequirement, trust: Seq<char>) -> bool {
        self.needs() == needs && self.domain() == trust
    }

    pub fn new(profile: ProfileRequirement, trust_domain: TrustDomain) -> (requirement: Self)
        ensures
            requirement.needs() == profile,
            requirement.domain() == trust_domain@,
    {
        RouteRequirement { profile, trust_domain }
    }

    pub fn trust_domain(&self) -> (domain: &TrustDomain)
        ensures
            domain@ == self.domain(),
    {
        &self.trust_domain
    }

    pub fn profile(&self) -> (profile: &ProfileRequirement)
        ensures
            *profile == self.needs(),
    {
        &self.profile
    }

    pub fn capacity_class(&self) -> (class: CapacityClass)
        ensures
            class == self.needs().service().class(),
    {
        self.profile.service_class().capacity()
    }
}

impl ProfileRequirement {
    /// The service that the request is for.
    pub open spec fn service(&self) -> ServiceClass {
        match *self {
            ProfileRequirement::GenerationHttp { .. } => ServiceClass::GenerationHttp,
            ProfileRequirement::SpeechHttp { .. } => ServiceClass::SpeechHttp,
            ProfileRequirement::SpeechBatch { .. } => ServiceClass::SpeechBatch,
            ProfileRequirement::TranscriptionHttp { .. } => ServiceClass::TranscriptionHttp,
            ProfileRequirement::SpeechWebsocket { .. } => ServiceClass::SpeechWebsocket,
            ProfileRequirement::RealtimeWebsocket { .. } => ServiceClass::RealtimeWebsocket,
        }
    }

    /// The speech recognition task that the request is for.
    pub open spec fn task(&self) -> Option<SpeechToTextTask> {
        match *self {
            ProfileRequirement::TranscriptionHttp { task, .. } => Some(task),
            _ => None,
        }
    }

    /// Some model of the request is left to the worker's default.
    pub open spec fn leaves_model_open(&self) -> bool {
        match *self {
            ProfileRequirement::GenerationHttp { model, .. } => model is UnresolvedDefault,
            ProfileRequirement::SpeechHttp { model, .. } => model is UnresolvedDefault,
            ProfileRequirement::TranscriptionHttp { model, .. } => model is UnresolvedDefault,
            ProfileRequirement::SpeechWebsocket { model, .. } => model is UnresolvedDefault,
            ProfileRequirement::SpeechBatch { models, .. } => exists|i: int|
                0 <= i < models@.len() && (#[trigger] models@[i]) is UnresolvedDefault,
            ProfileRequirement::RealtimeWebsocket { .. } => false,
        }
    }

    /// The request names a voice.
    pub open spec fn names_voice(&self) -> bool {
        match *self {
            ProfileRequirement::SpeechHttp { named_voice, .. } => named_voice,
            ProfileRequirement::SpeechBatch { named_voice, .. } => named_voice,
            ProfileRequirement::SpeechWebsocket { named_voice, .. } => named_voice,
            _ => false,
        }
    }

    pub fn service_class(&self) -> (service: ServiceClass)
        ensures
            service == self.service(),
    {
        match self {
            ProfileRequirement::GenerationHttp { .. } => ServiceClass::GenerationHttp,
            ProfileRequirement::SpeechHttp { .. } => ServiceClass::SpeechHttp,
            ProfileRequirement::SpeechBatch { .. } => ServiceClass::SpeechBatch,
            ProfileRequirement::TranscriptionHttp { .. } => ServiceClass::TranscriptionHttp,
            ProfileRequirement::SpeechWebsocket { .. } => ServiceClass::SpeechWebsocket,
            ProfileRequirement::RealtimeWebsocket { .. } => ServiceClass::RealtimeWebsocket,
        }
    }

    pub fn requires_default_resolution(&self) -> (outcome: bool)
        ensures
            outcome == self.leaves_model_open(),
    {
        match self {
            ProfileRequirement::GenerationHttp { model, .. } => model.requires_resolution(),
            ProfileRequirement::SpeechHttp { model, .. } => model.requires_resolution(),
            ProfileRequirement::TranscriptionHttp { model, .. } => model.requires_resolution(),
            ProfileRequirement::SpeechWebsocket { model, .. } => model.requires_resolution(),
            ProfileRequirement::SpeechBatch { models, .. } => any_unresolved(models),
            ProfileRequirement::RealtimeWebsocket { .. } => false,
        }
    }

    pub fn has_named_voice(&self) -> (outcome: bool)
        ensures
            outcome == self.names_voice(),
    {
        match self {
            ProfileRequirement::SpeechHttp { named_voice, .. } => *named_voice,
            ProfileRequirement::SpeechBatch { named_voice, .. } => *named_voice,
            ProfileRequirement::SpeechWebsocket { named_voice, .. } => *named_voice,
            ProfileRequirement::GenerationHttp { .. } => false,
            ProfileRequirement::TranscriptionHttp { .. } => false,
            ProfileRequirement::RealtimeWebsocket { .. } => false,
        }
    }
}

impl ServiceProfile {
    /// The models that the row lists; a realtime row lists none.
    pub open spec fn models(&self) -> Option<Seq<Seq<char>>> {
        match *self {
            ServiceProfile::GenerationHttp { model_ids, .. } => Some(keys(model_ids@)),
            ServiceProfile::SpeechHttp { model_ids, .. } => Some(keys(model_ids@)),
            ServiceProfile::SpeechBatch { model_ids, .. } => Some(keys(model_ids@)),
            ServiceProfile::TranscriptionHttp { model_ids, .. } => Some(keys(model_ids@)),
            ServiceProfile::SpeechWebsocket { model_ids, .. } => Some(keys(model_ids@)),
            ServiceProfile::RealtimeWebsocket => None,
        }
    }

    /// The row executes the model; a realtime row executes any.
    pub open spec fn executes(&self, model: Seq<char>) -> bool {
        self.models() is Some ==> self.models()->Some_0.contains(model)
    }

    /// The service that the row advertises.
    pub open spec fn service(&self) -> ServiceClass {
        match *self {
            ServiceProfile::GenerationHttp { .. } => ServiceClass::GenerationHttp,
            ServiceProfile::SpeechHttp { .. } => ServiceClass::SpeechHttp,
            ServiceProfile::SpeechBatch { .. } => ServiceClass::SpeechBatch,
            ServiceProfile::TranscriptionHttp { .. } => ServiceClass::TranscriptionHttp,
            ServiceProfile::SpeechWebsocket { .. } => ServiceClass::SpeechWebsocket,
            ServiceProfile::RealtimeWebsocket => ServiceClass::RealtimeWebsocket,
        }
    }

    /// What a voice name denotes on the row.
    pub open spec fn policy(&self) -> Option<VoiceNamePolicy> {
        match *self {
            ServiceProfile::SpeechHttp { voice_name_policy, .. } => Some(voice_name_policy),
            ServiceProfile::SpeechBatch { voice_name_policy, .. } => Some(voice_name_policy),
            ServiceProfile::SpeechWebsocket { voice_name_policy, .. } => Some(voice_name_policy),
            _ => None,
        }
    }

    /// The speech recognition task of the row.
    pub open spec fn task(&self) -> Option<SpeechToTextTask> {
        match *self {
            ServiceProfile::TranscriptionHttp { task, .. } => Some(task),
            _ => None,
        }
    }

    pub fn contains_model(&self, model: &str) -> (outcome: bool)
        ensures
            outcome == self.executes(model@),
    {
        match self.model_ids() {
            Some(model_ids) => contains_text(model_ids, model),
            None => true,
        }
    }

    pub fn model_ids(&self) -> (models: Option<&[String]>)
        ensures
            models is Some == self.models() is Some,
            models is Some ==> keys(models->Some_0@) == self.models()->Some_0,
    {
        match self {
            ServiceProfile::GenerationHttp { model_ids, .. } => Some(model_ids.as_slice()),
            ServiceProfile::SpeechHttp { model_ids, .. } => Some(model_ids.as_slice()),
            ServiceProfile::SpeechBatch { model_ids, .. } => Some(model_ids.as_slice()),
            ServiceProfile::TranscriptionHttp { model_ids, .. } => Some(model_ids.as_slice()),
            ServiceProfile::SpeechWebsocket { model_ids, .. } => Some(model_ids.as_slice()),
            ServiceProfile::RealtimeWebsocket => None,
        }
    }

    pub fn service_class(&self) -> (service: ServiceClass)
        ensures
            service == self.service(),
    {
        match self {
            ServiceProfile::GenerationHttp { .. } => ServiceClass::GenerationHttp,
            ServiceProfile::SpeechHttp { .. } => ServiceClass::SpeechHttp,
            ServiceProfile::SpeechBatch { .. } => ServiceClass::SpeechBatch,
            ServiceProfile::TranscriptionHttp { .. } => ServiceClass::TranscriptionHttp,
            ServiceProfile::SpeechWebsocket { .. } => ServiceClass::SpeechWebsocket,
            ServiceProfile::RealtimeWebsocket => ServiceClass::RealtimeWebsocket,
        }
    }

    pub fn voice_name_policy(&self) -> (policy: Option<VoiceNamePolicy>)
        ensures
            policy == self.policy(),
    {
        match self {
            ServiceProfile::SpeechHttp { voice_name_policy, .. } => Some(*voice_name_policy),
            ServiceProfile::SpeechBatch { voice_name_policy, .. } => Some(*voice_name_policy),
            ServiceProfile::SpeechWebsocket { voice_name_policy, .. } => Some(*voice_name_policy),
            ServiceProfile::GenerationHttp { .. } => None,
            ServiceProfile::TranscriptionHttp { .. } => None,
            ServiceProfile::RealtimeWebsocket => None,
        }
    }

    /// The speech recognition task of the row.
    pub fn speech_to_text_task(&self) -> (task: Option<SpeechToTextTask>)
        ensures
            task == self.task(),
    {
        match self {
            ServiceProfile::TranscriptionHttp { task, .. } => Some(*task),
            _ => None,
        }
    }
}

} // verus!
