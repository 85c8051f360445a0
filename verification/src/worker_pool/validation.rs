//! The rules that the worker configuration must keep.

use vstd::prelude::*;
use vstd::utf8::encode_utf8;

use crate::error::{broken, earlier, reported, ConfigError, ConfigFault};
use crate::text::{
    all_distinct, contains, has_char, has_control, is_control, keys, same_text, starts_with_char,
    string_of, Item,
};
use crate::worker_pool::profile::{
    OutputModality, ReferenceForm, ServiceClass, ServiceProfile, SpeechResponseFormat, SpeechTask,
    StreamMode, TranscriptionResponseFormat, WorkerCapacityConfig, WorkerConfig, MAX_BASE_URL_BYTES,
    MAX_HEALTH_PATH_BYTES, MAX_ID_BYTES, MAX_MODEL_ID_BYTES, MAX_PROFILES_PER_WORKER,
    MAX_SESSION_LIMIT, MAX_SET_ITEMS, MAX_WORKERS,
};
use crate::worker_pool::resolver::{is_canonical_origin, parsed_url, ResolvedTarget};

verus! {

/// The rule that a list of model names breaks first.
pub open spec fn models_fault(values: Seq<Seq<char>>) -> Option<ConfigFault> {
    earlier(
        broken(
            1 <= values.len() <= MAX_SET_ITEMS && forall|i: int|
                0 <= i < values.len() ==> is_model_id(#[trigger] values[i]),
            "workers.service_profiles.model_ids"@,
            "must contain 1 to 64 unique model IDs"@,
        ),
        broken(
            values.no_duplicates(),
            "workers.service_profiles.model_ids"@,
            "must not contain duplicates"@,
        ),
    )
}

/// The rule that a list of capabilities breaks first.
pub open spec fn set_fault<V>(values: Seq<V>, field: Seq<char>, allow_empty: bool) -> Option<
    ConfigFault,
> {
    earlier(
        broken(
            values.len() <= MAX_SET_ITEMS && (allow_empty || values.len() > 0),
            field,
            "has an invalid item count"@,
        ),
        broken(values.no_duplicates(), field, "must not contain duplicates"@),
    )
}

/// A streaming speech row carries raw samples only.
pub open spec fn streams_pcm_only(
    formats: Seq<SpeechResponseFormat>,
    modes: Seq<StreamMode>,
) -> bool {
    modes.contains(StreamMode::Streaming) ==> formats == seq![SpeechResponseFormat::Pcm]
}

impl ServiceProfile {
    /// The rule that the row breaks first.
    pub open spec fn fault(&self) -> Option<ConfigFault> {
        match *self {
            ServiceProfile::GenerationHttp {
                model_ids,
                message_content_forms,
                media_placements,
                input_modalities,
                output_modalities,
                chat_audio_formats,
                stream_modes,
            } => earlier(
                models_fault(keys(model_ids@)),
                earlier(
                    set_fault(
                        keys(message_content_forms@),
                        "workers.service_profiles.message_content_forms"@,
                        false,
                    ),
                    earlier(
                        set_fault(
                            keys(media_placements@),
                            "workers.service_profiles.media_placements"@,
                            true,
                        ),
                        earlier(
                            set_fault(
                                keys(input_modalities@),
                                "workers.service_profiles.input_modalities"@,
                                false,
                            ),
                            earlier(
                                set_fault(
                                    keys(output_modalities@),
                                    "workers.service_profiles.output_modalities"@,
                                    false,
                                ),
                                earlier(
                                    set_fault(
                                        keys(chat_audio_formats@),
                                        "workers.service_profiles.chat_audio_formats"@,
                                        true,
                                    ),
                                    earlier(
                                        set_fault(
                                            keys(stream_modes@),
                                            "workers.service_profiles.stream_modes"@,
                                            false,
                                        ),
                                        broken(
                                            keys(output_modalities@).contains(OutputModality::Audio)
                                                <==> chat_audio_formats@.len() > 0,
                                            "workers.service_profiles.chat_audio_formats"@,
                                            "must be nonempty exactly when audio output is supported"@,
                                        ),
                                    ),
                                ),
                            ),
                        ),
                    ),
                ),
            ),
            ServiceProfile::SpeechHttp {
                model_ids,
                response_formats,
                stream_modes,
                tasks,
                reference_forms,
                ..
            } => speech_fault(
                keys(model_ids@),
                keys(response_formats@),
                keys(stream_modes@),
                keys(tasks@),
                keys(reference_forms@),
            ),
            ServiceProfile::SpeechBatch {
                model_ids,
                response_formats,
                tasks,
                reference_forms,
                max_batch_size,
                ..
            } => earlier(
                models_fault(keys(model_ids@)),
                earlier(
                    set_fault(
                        keys(response_formats@),
                        "workers.service_profiles.response_formats"@,
                        false,
                    ),
                    earlier(
                        set_fault(keys(tasks@), "workers.service_profiles.tasks"@, false),
                        earlier(
                            set_fault(
                                keys(reference_forms@),
                                "workers.service_profiles.reference_forms"@,
                                false,
                            ),
                            broken(
                                max_batch_size > 0,
                                "workers.service_profiles.max_batch_size"@,
                                "must be positive"@,
                            ),
                        ),
                    ),
                ),
            ),
            ServiceProfile::TranscriptionHttp { model_ids, response_formats, stream_modes, .. } =>
            earlier(
                models_fault(keys(model_ids@)),
                earlier(
                    set_fault(
                        keys(response_formats@),
                        "workers.service_profiles.response_formats"@,
                        false,
                    ),
                    earlier(
                        set_fault(
                            keys(stream_modes@),
                            "workers.service_profiles.stream_modes"@,
                            false,
                        ),
                        broken(
                            keys(response_formats@).contains(TranscriptionResponseFormat::Sse)
                                <==> keys(stream_modes@).contains(StreamMode::Streaming),
                            "workers.service_profiles.response_formats"@,
                            "sse support must match streaming support"@,
                        ),
                    ),
                ),
            ),
            ServiceProfile::SpeechWebsocket {
                model_ids,
                response_formats,
                stream_modes,
                tasks,
                reference_forms,
                ..
            } => speech_fault(
                keys(model_ids@),
                keys(response_formats@),
                keys(stream_modes@),
                keys(tasks@),
                keys(reference_forms@),
            ),
            ServiceProfile::RealtimeWebsocket => None,
        }
    }

    /// The row breaks no rule.
    pub open spec fn valid(&self) -> bool {
        self.fault() is None
    }
}

/// The rule that a speech row breaks first.
pub open spec fn speech_fault(
    models: Seq<Seq<char>>,
    formats: Seq<SpeechResponseFormat>,
    modes: Seq<StreamMode>,
    tasks: Seq<SpeechTask>,
    references: Seq<ReferenceForm>,
) -> Option<ConfigFault> {
    earlier(
        models_fault(models),
        earlier(
            set_fault(formats, "workers.service_profiles.response_formats"@, false),
            earlier(
                set_fault(modes, "workers.service_profiles.stream_modes"@, false),
                earlier(
                    set_fault(tasks, "workers.service_profiles.tasks"@, false),
                    earlier(
                        set_fault(references, "workers.service_profiles.reference_forms"@, false),
                        broken(
                            streams_pcm_only(formats, modes),
                            "workers.service_profiles.response_formats"@,
                            "a streaming speech row may contain only pcm"@,
                        ),
                    ),
                ),
            ),
        ),
    )
}

/// A model name: 1 to 256 bytes without control characters.
pub open spec fn is_model_id(value: Seq<char>) -> bool {
    &&& value.len() > 0
    &&& encode_utf8(value).len() <= MAX_MODEL_ID_BYTES
    &&& forall|i: int| 0 <= i < value.len() ==> !is_control(#[trigger] value[i])
}

/// A byte that an identifier may hold: a letter, a digit, `-`, `_` or `.`.
pub open spec fn is_identifier_byte(byte: u8) -> bool {
    ||| 0x30 <= byte <= 0x39
    ||| 0x41 <= byte <= 0x5a
    ||| 0x61 <= byte <= 0x7a
    ||| byte == 0x2d
    ||| byte == 0x5f
    ||| byte == 0x2e
}

/// An identifier: 1 to 128 identifier bytes.
pub open spec fn is_identifier(value: Seq<char>) -> bool {
    let bytes = encode_utf8(value);
    &&& value.len() > 0
    &&& bytes.len() <= MAX_ID_BYTES
    &&& forall|i: int| 0 <= i < bytes.len() ==> is_identifier_byte(#[trigger] bytes[i])
}

/// The rule that an identifier breaks.
pub open spec fn identifier_fault(value: Seq<char>, field: Seq<char>) -> Option<ConfigFault> {
    broken(is_identifier(value), field, "must be 1 to 128 ASCII identifier bytes"@)
}

/// A health path: 1 to 128 bytes, absolute, without query or fragment.
pub open spec fn is_health_path(path: Seq<char>) -> bool {
    &&& 1 <= path.len()
    &&& encode_utf8(path).len() <= MAX_HEALTH_PATH_BYTES
    &&& path[0] == '/'
    &&& !path.contains('?')
    &&& !path.contains('#')
}

/// A per-worker session limit: absent, or between 1 and 65535.
pub open spec fn is_session_limit(limit: Option<u32>) -> bool {
    limit is Some ==> 1 <= limit->Some_0 <= MAX_SESSION_LIMIT
}

/// The rule that the first `count` rows break first, with rows taken in order.
pub open spec fn rows_fault(rows: Seq<ServiceProfile>, count: nat) -> Option<ConfigFault>
    decreases count,
{
    if count == 0 {
        None
    } else {
        let last = (count - 1) as nat;
        earlier(
            rows_fault(rows, last),
            earlier(
                rows[last as int].fault(),
                broken(
                    forall|j: int|
                        0 <= j < last ==> !rows[last as int].equivalent(#[trigger] &rows[j]),
                    "workers.service_profiles"@,
                    "contains a duplicate correlated row"@,
                ),
            ),
        )
    }
}

/// The limit on sessions of a service is given wherever the service is advertised.
pub open spec fn sessions_limited(rows: Seq<ServiceProfile>, capacity: WorkerCapacityConfig) -> bool {
    forall|i: int|
        0 <= i < rows.len() ==> {
            &&& (#[trigger] rows[i]).service() is SpeechWebsocket ==> capacity.speech_websocket
                is Some
            &&& rows[i].service() is RealtimeWebsocket ==> capacity.realtime_websocket is Some
        }
}

/// Two rows advertise the same service, and the same task of it.
pub open spec fn same_offer(left: ServiceProfile, right: ServiceProfile) -> bool {
    left.service() == right.service() && left.task() == right.task()
}

/// The default model is executed for every service and task that is advertised.
pub open spec fn default_executed(rows: Seq<ServiceProfile>, default: Option<Seq<char>>) -> bool {
    default is Some ==> forall|i: int|
        0 <= i < rows.len() ==> executed_for(rows, #[trigger] rows[i], default->Some_0)
}

/// Some row with the offer of `advertised` executes the model.
pub open spec fn executed_for(
    rows: Seq<ServiceProfile>,
    advertised: ServiceProfile,
    model: Seq<char>,
) -> bool {
    exists|j: int|
        0 <= j < rows.len() && same_offer(advertised, #[trigger] rows[j]) && rows[j].executes(model)
}

/// The first broken rule on the names, models and addresses of worker `index`.
pub open spec fn identity_fault(workers: Seq<WorkerConfig>, index: int) -> Option<ConfigFault> {
    let worker = workers[index];
    earlier(
        identifier_fault(worker.worker_id@, "workers.worker_id"@),
        earlier(
            broken(
                forall|j: int|
                    0 <= j < index ==> (#[trigger] workers[j]).worker_id@ != worker.worker_id@,
                "workers.worker_id"@,
                "must be unique"@,
            ),
            earlier(
                identifier_fault(worker.trust_domain@, "workers.trust_domain"@),
                earlier(
                    broken(
                        worker.default_model_id is Some ==> is_model_id(
                            worker.default_model_id->Some_0@,
                        ),
                        "workers.default_model_id"@,
                        "must be 1 to 256 bytes"@,
                    ),
                    earlier(
                        broken(
                            worker.base_url@.len() > 0 && encode_utf8(worker.base_url@).len()
                                <= MAX_BASE_URL_BYTES,
                            "workers.base_url"@,
                            "must contain between 1 and 2048 bytes"@,
                        ),
                        broken(
                            is_health_path(worker.health_path@),
                            "workers.health_path"@,
                            "must be an absolute path without query or fragment"@,
                        ),
                    ),
                ),
            ),
        ),
    )
}

/// The first broken rule on the services of a worker.
pub open spec fn services_fault(worker: WorkerConfig) -> Option<ConfigFault> {
    earlier(
        broken(
            is_session_limit(worker.capacity.speech_websocket),
            "workers.capacity.speech_websocket"@,
            "must be between 1 and 65535"@,
        ),
        earlier(
            broken(
                is_session_limit(worker.capacity.realtime_websocket),
                "workers.capacity.realtime_websocket"@,
                "must be between 1 and 65535"@,
            ),
            earlier(
                broken(
                    1 <= worker.service_profiles@.len() <= MAX_PROFILES_PER_WORKER,
                    "workers.service_profiles"@,
                    "must contain between 1 and 64 rows"@,
                ),
                earlier(
                    rows_fault(worker.service_profiles@, worker.service_profiles@.len()),
                    earlier(
                        broken(
                            sessions_limited(worker.service_profiles@, worker.capacity),
                            "workers.capacity"@,
                            "must configure capacity for every WebSocket service profile"@,
                        ),
                        broken(
                            default_executed(
                                worker.service_profiles@,
                                string_of(worker.default_model_id),
                            ),
                            "workers.default_model_id"@,
                            "must belong to every advertised model-executing service and task"@,
                        ),
                    ),
                ),
            ),
        ),
    )
}

/// The first broken rule on the resolved base URL and the services of worker `index`.
pub open spec fn resolved_fault(
    workers: Seq<WorkerConfig>,
    bases: Seq<Option<Seq<char>>>,
    index: int,
) -> Option<ConfigFault> {
    earlier(
        broken(
            bases[index] is Some,
            "workers.base_url"@,
            "must be a canonical HTTP or HTTPS origin"@,
        ),
        earlier(
            broken(
                forall|j: int| 0 <= j < index ==> #[trigger] bases[j] != bases[index],
                "workers.base_url"@,
                "worker origins must be unique"@,
            ),
            services_fault(workers[index]),
        ),
    )
}

/// The rule that worker `index` breaks first, given the resolved base URL of every worker.
pub open spec fn worker_fault(
    workers: Seq<WorkerConfig>,
    bases: Seq<Option<Seq<char>>>,
    index: int,
) -> Option<ConfigFault> {
    earlier(identity_fault(workers, index), resolved_fault(workers, bases, index))
}

/// The rule that the first `count` workers break first, with workers taken in order.
pub open spec fn first_worker_fault(
    workers: Seq<WorkerConfig>,
    bases: Seq<Option<Seq<char>>>,
    count: nat,
) -> Option<ConfigFault>
    decreases count,
{
    if count == 0 {
        None
    } else {
        earlier(
            first_worker_fault(workers, bases, (count - 1) as nat),
            worker_fault(workers, bases, count - 1),
        )
    }
}

/// The rule that the worker configuration breaks first.
pub open spec fn workers_fault(
    workers: Seq<WorkerConfig>,
    bases: Seq<Option<Seq<char>>>,
) -> Option<ConfigFault> {
    earlier(
        broken(
            1 <= workers.len() <= MAX_WORKERS,
            "workers"@,
            "must contain between 1 and 256 workers"@,
        ),
        first_worker_fault(workers, bases, workers.len()),
    )
}

/// The base URL of each worker that resolved.
pub open spec fn bases_of(targets: Seq<Option<ResolvedTarget>>) -> Seq<Option<Seq<char>>> {
    Seq::new(
        targets.len(),
        |i: int|
            match targets[i] {
                Some(target) => Some(target.base()),
                None => None,
            },
    )
}

/// The health path of a worker that configures none.
pub fn default_health_path() -> (path: String)
    ensures
        path@ == "/health"@,
{
    "/health".to_owned()
}

/// Whether a text is a model name.
pub fn valid_model_id(value: &str) -> (outcome: bool)
    ensures
        outcome == is_model_id(value@),
{
    !value.is_empty() && value.as_bytes().len() <= MAX_MODEL_ID_BYTES && !has_control(value)
}

/// Whether an identifier may hold the byte.
fn identifier_byte(byte: u8) -> (outcome: bool)
    ensures
        outcome == is_identifier_byte(byte),
{
    (0x30 <= byte && byte <= 0x39) || (0x41 <= byte && byte <= 0x5a) || (0x61 <= byte && byte
        <= 0x7a) || byte == 0x2d || byte == 0x5f || byte == 0x2e
}

/// Rejects a text that is no identifier.
pub fn validate_identifier(value: &str, field: &'static str) -> (outcome: Result<(), ConfigError>)
    ensures
        reported(outcome) == identifier_fault(value@, field@),
{
    let bytes: &[u8] = value.as_bytes();
    let mut all_allowed = true;
    let mut i: usize = 0;
    while i < bytes.len()
        invariant
            i <= bytes@.len(),
            bytes@ == encode_utf8(value@),
            all_allowed == forall|j: int| 0 <= j < i ==> is_identifier_byte(#[trigger] bytes@[j]),
        decreases bytes@.len() - i,
    {
        let allowed = identifier_byte(bytes[i]);
        all_allowed = all_allowed && allowed;
        i += 1;
    }
    if value.is_empty() || bytes.len() > MAX_ID_BYTES || !all_allowed {
        return Err(ConfigError::invalid(field, "must be 1 to 128 ASCII identifier bytes"));
    }
    Ok(())
}

/// Rejects a list of model names that is empty, too long, malformed or repetitive.
pub fn validate_models(values: &[String]) -> (outcome: Result<(), ConfigError>)
    ensures
        reported(outcome) == models_fault(keys(values@)),
{
    let mut all_valid = true;
    let mut i: usize = 0;
    while i < values.len()
        invariant
            i <= values@.len(),
            all_valid == forall|j: int| 0 <= j < i ==> is_model_id(#[trigger] keys(values@)[j]),
        decreases values@.len() - i,
    {
        let valid = valid_model_id(values[i].as_str());
        assert(valid == is_model_id(keys(values@)[i as int]));
        all_valid = all_valid && valid;
        i += 1;
    }
    if values.len() == 0 || values.len() > MAX_SET_ITEMS || !all_valid {
        return Err(
            ConfigError::invalid(
                "workers.service_profiles.model_ids",
                "must contain 1 to 64 unique model IDs",
            ),
        );
    }
    if !all_distinct(values) {
        return Err(
            ConfigError::invalid(
                "workers.service_profiles.model_ids",
                "must not contain duplicates",
            ),
        );
    }
    Ok(())
}

/// Rejects a list of capabilities that is too long, repetitive or wrongly empty.
pub fn validate_set<T: Item>(
    values: &[T],
    field: &'static str,
    allow_empty: bool,
) -> (outcome: Result<(), ConfigError>)
    ensures
        reported(outcome) == set_fault(keys(values@), field@, allow_empty),
{
    if values.len() > MAX_SET_ITEMS || (!allow_empty && values.len() == 0) {
        return Err(ConfigError::invalid(field, "has an invalid item count"));
    }
    if !all_distinct(values) {
        return Err(ConfigError::invalid(field, "must not contain duplicates"));
    }
    Ok(())
}

/// Rejects a speech row, over HTTP or WebSocket, that breaks a rule.
fn validate_speech_row(
    model_ids: &[String],
    response_formats: &[SpeechResponseFormat],
    stream_modes: &[StreamMode],
    tasks: &[SpeechTask],
    reference_forms: &[ReferenceForm],
) -> (outcome: Result<(), ConfigError>)
    ensures
        reported(outcome) == speech_fault(
            keys(model_ids@),
            keys(response_formats@),
            keys(stream_modes@),
            keys(tasks@),
            keys(reference_forms@),
        ),
{
    if let Err(error) = validate_models(model_ids) {
        return Err(error);
    }
    if let Err(error) = validate_set(
        response_formats,
        "workers.service_profiles.response_formats",
        false,
    ) {
        return Err(error);
    }
    if let Err(error) = validate_set(
        stream_modes,
        "workers.service_profiles.stream_modes",
        false,
    ) {
        return Err(error);
    }
    if let Err(error) = validate_set(tasks, "workers.service_profiles.tasks", false) {
        return Err(error);
    }
    if let Err(error) = validate_set(
        reference_forms,
        "workers.service_profiles.reference_forms",
        false,
    ) {
        return Err(error);
    }
    let pcm_only = response_formats.len() == 1 && response_formats[0] == SpeechResponseFormat::Pcm;
    assert(pcm_only == (keys(response_formats@) == seq![SpeechResponseFormat::Pcm])) by {
        if pcm_only {
            assert(keys(response_formats@) =~= seq![SpeechResponseFormat::Pcm]);
        } else if keys(response_formats@) == seq![SpeechResponseFormat::Pcm] {
            assert(keys(response_formats@)[0] == SpeechResponseFormat::Pcm);
        }
    }
    if contains(stream_modes, &StreamMode::Streaming) && !pcm_only {
        return Err(
            ConfigError::invalid(
                "workers.service_profiles.response_formats",
                "a streaming speech row may contain only pcm",
            ),
        );
    }
    Ok(())
}

impl ServiceProfile {
    pub fn validate(&self) -> (outcome: Result<(), ConfigError>)
        ensures
            reported(outcome) == self.fault(),
    {
        match self {
            ServiceProfile::GenerationHttp {
                model_ids,
                message_content_forms,
                media_placements,
                input_modalities,
                output_modalities,
                chat_audio_formats,
                stream_modes,
            } => {
                if let Err(error) = validate_models(model_ids) {
                    return Err(error);
                }
                if let Err(error) = validate_set(
                    message_content_forms,
                    "workers.service_profiles.message_content_forms",
                    false,
                ) {
                    return Err(error);
                }
                if let Err(error) = validate_set(
                    media_placements,
                    "workers.service_profiles.media_placements",
                    true,
                ) {
                    return Err(error);
                }
                if let Err(error) = validate_set(
                    input_modalities,
                    "workers.service_profiles.input_modalities",
                    false,
                ) {
                    return Err(error);
                }
                if let Err(error) = validate_set(
                    output_modalities,
                    "workers.service_profiles.output_modalities",
                    false,
                ) {
                    return Err(error);
                }
                if let Err(error) = validate_set(
                    chat_audio_formats,
                    "workers.service_profiles.chat_audio_formats",
                    true,
                ) {
                    return Err(error);
                }
                if let Err(error) = validate_set(
                    stream_modes,
                    "workers.service_profiles.stream_modes",
                    false,
                ) {
                    return Err(error);
                }
                let supports_audio = contains(output_modalities, &OutputModality::Audio);
                let has_audio_formats = chat_audio_formats.len() > 0;
                if supports_audio != has_audio_formats {
                    return Err(
                        ConfigError::invalid(
                            "workers.service_profiles.chat_audio_formats",
                            "must be nonempty exactly when audio output is supported",
                        ),
                    );
                }
                Ok(())
            },
            ServiceProfile::SpeechHttp {
                model_ids,
                response_formats,
                stream_modes,
                tasks,
                reference_forms,
                ..
            } => validate_speech_row(
                model_ids,
                response_formats,
                stream_modes,
                tasks,
                reference_forms,
            ),
            ServiceProfile::SpeechBatch {
                model_ids,
                response_formats,
                tasks,
                reference_forms,
                max_batch_size,
                ..
            } => {
                if let Err(error) = validate_models(model_ids) {
                    return Err(error);
                }
                if let Err(error) = validate_set(
                    response_formats,
                    "workers.service_profiles.response_formats",
                    false,
                ) {
                    return Err(error);
                }
                if let Err(error) = validate_set(tasks, "workers.service_profiles.tasks", false) {
                    return Err(error);
                }
                if let Err(error) = validate_set(
                    reference_forms,
                    "workers.service_profiles.reference_forms",
                    false,
                ) {
                    return Err(error);
                }
                if *max_batch_size == 0 {
                    return Err(
                        ConfigError::invalid(
                            "workers.service_profiles.max_batch_size",
                            "must be positive",
                        ),
                    );
                }
                Ok(())
            },
            ServiceProfile::TranscriptionHttp { model_ids, response_formats, stream_modes, .. } => {
                if let Err(error) = validate_models(model_ids) {
                    return Err(error);
                }
                if let Err(error) = validate_set(
                    response_formats,
                    "workers.service_profiles.response_formats",
                    false,
                ) {
                    return Err(error);
                }
                if let Err(error) = validate_set(
                    stream_modes,
                    "workers.service_profiles.stream_modes",
                    false,
                ) {
                    return Err(error);
                }
                if contains(response_formats, &TranscriptionResponseFormat::Sse) != contains(
                    stream_modes,
                    &StreamMode::Streaming,
                ) {
                    return Err(
                        ConfigError::invalid(
                            "workers.service_profiles.response_formats",
                            "sse support must match streaming support",
                        ),
                    );
                }
                Ok(())
            },
            ServiceProfile::SpeechWebsocket {
                model_ids,
                response_formats,
                stream_modes,
                tasks,
                reference_forms,
                ..
            } => validate_speech_row(
                model_ids,
                response_formats,
                stream_modes,
                tasks,
                reference_forms,
            ),
            ServiceProfile::RealtimeWebsocket => Ok(()),
        }
    }
}

/// Rejects rows of one worker that break a rule or repeat an earlier row.
fn validate_rows(rows: &[ServiceProfile]) -> (outcome: Result<(), ConfigError>)
    ensures
        reported(outcome) == rows_fault(rows@, rows@.len()),
{
    let mut index: usize = 0;
    while index < rows.len()
        invariant
            index <= rows@.len(),
            rows_fault(rows@, index as nat) is None,
        decreases rows@.len() - index,
    {
        if let Err(error) = rows[index].validate() {
            proof {
                lemma_first_row_fault(rows@, index as nat + 1, rows@.len());
            }
            return Err(error);
        }
        let mut earlier_row: usize = 0;
        while earlier_row < index
            invariant
                earlier_row <= index < rows@.len(),
                rows_fault(rows@, index as nat) is None,
                rows@[index as int].fault() is None,
                forall|j: int|
                    0 <= j < earlier_row ==> !rows@[index as int].equivalent(#[trigger] &rows@[j]),
            decreases index - earlier_row,
        {
            if rows[index].semantically_eq(&rows[earlier_row]) {
                proof {
                    lemma_first_row_fault(rows@, index as nat + 1, rows@.len());
                }
                return Err(
                    ConfigError::invalid(
                        "workers.service_profiles",
                        "contains a duplicate correlated row",
                    ),
                );
            }
            earlier_row += 1;
        }
        index += 1;
    }
    Ok(())
}

/// A fault among the first rows is the fault of all of them.
proof fn lemma_first_row_fault(rows: Seq<ServiceProfile>, prefix: nat, count: nat)
    requires
        prefix <= count,
        rows_fault(rows, prefix) is Some,
    ensures
        rows_fault(rows, count) == rows_fault(rows, prefix),
    decreases count,
{
    if prefix < count {
        lemma_first_row_fault(rows, prefix, (count - 1) as nat);
    }
}

/// A fault among the first workers is the fault of all of them.
proof fn lemma_first_worker_fault(
    workers: Seq<WorkerConfig>,
    bases: Seq<Option<Seq<char>>>,
    prefix: nat,
    count: nat,
)
    requires
        prefix <= count,
        first_worker_fault(workers, bases, prefix) is Some,
    ensures
        first_worker_fault(workers, bases, count) == first_worker_fault(workers, bases, prefix),
    decreases count,
{
    if prefix < count {
        lemma_first_worker_fault(workers, bases, prefix, (count - 1) as nat);
    }
}

/// Only the base URLs up to a worker's own bear on its fault.
proof fn lemma_resolved_fault(
    workers: Seq<WorkerConfig>,
    left: Seq<Option<Seq<char>>>,
    right: Seq<Option<Seq<char>>>,
    index: int,
)
    requires
        0 <= index,
        forall|j: int| 0 <= j <= index ==> #[trigger] left[j] == right[j],
    ensures
        resolved_fault(workers, left, index) == resolved_fault(workers, right, index),
{
    if forall|j: int| 0 <= j < index ==> #[trigger] right[j] != right[index] {
        assert forall|j: int| 0 <= j < index implies #[trigger] left[j] != left[index] by {
            assert(left[j] == right[j]);
        }
    } else {
        let j = choose|j: int| 0 <= j < index && #[trigger] right[j] == right[index];
        assert(left[j] == right[j] && left[index] == right[index]);
    }
}

/// Whether every session service has its limit.
fn has_session_limits(rows: &[ServiceProfile], capacity: &WorkerCapacityConfig) -> (outcome: bool)
    ensures
        outcome == sessions_limited(rows@, *capacity),
{
    let mut i: usize = 0;
    while i < rows.len()
        invariant
            i <= rows@.len(),
            forall|j: int|
                0 <= j < i ==> {
                    &&& (#[trigger] rows@[j]).service() is SpeechWebsocket
                        ==> capacity.speech_websocket is Some
                    &&& rows@[j].service() is RealtimeWebsocket ==> capacity.realtime_websocket
                        is Some
                },
        decreases rows@.len() - i,
    {
        let configured = match rows[i].service_class() {
            ServiceClass::SpeechWebsocket => capacity.speech_websocket.is_some(),
            ServiceClass::RealtimeWebsocket => capacity.realtime_websocket.is_some(),
            _ => true,
        };
        if !configured {
            return false;
        }
        i += 1;
    }
    true
}

/// Whether some row with the offer of `advertised` executes the model.
fn executes_for(rows: &[ServiceProfile], advertised: &ServiceProfile, model: &str) -> (outcome: bool)
    ensures
        outcome == executed_for(rows@, *advertised, model@),
{
    let service = advertised.service_class();
    let task = advertised.speech_to_text_task();
    let mut i: usize = 0;
    while i < rows.len()
        invariant
            i <= rows@.len(),
            service == advertised.service(),
            task == advertised.task(),
            forall|j: int|
                0 <= j < i ==> !(same_offer(*advertised, #[trigger] rows@[j]) && rows@[j].executes(
                    model@,
                )),
        decreases rows@.len() - i,
    {
        let same_task = match (task, rows[i].speech_to_text_task()) {
            (Some(left), Some(right)) => left == right,
            (None, None) => true,
            _ => false,
        };
        if rows[i].service_class() == service && same_task && rows[i].contains_model(model) {
            assert(same_offer(*advertised, rows@[i as int]));
            return true;
        }
        i += 1;
    }
    false
}

/// Whether the default model is executed for everything that is advertised.
fn default_is_executed(rows: &[ServiceProfile], default: &str) -> (outcome: bool)
    ensures
        outcome == default_executed(rows@, Some(default@)),
{
    let mut i: usize = 0;
    while i < rows.len()
        invariant
            i <= rows@.len(),
            forall|j: int| 0 <= j < i ==> executed_for(rows@, #[trigger] rows@[j], default@),
        decreases rows@.len() - i,
    {
        if !executes_for(rows, &rows[i], default) {
            return false;
        }
        i += 1;
    }
    true
}

/// Whether a session limit is absent or in range.
fn valid_session_limit(limit: Option<u32>) -> (outcome: bool)
    ensures
        outcome == is_session_limit(limit),
{
    match limit {
        Some(value) => 1 <= value && value <= MAX_SESSION_LIMIT,
        None => true,
    }
}

/// Whether an earlier worker has the identifier of worker `index`.
fn repeats_worker_id(workers: &[WorkerConfig], index: usize) -> (outcome: bool)
    requires
        index < workers@.len(),
    ensures
        outcome == !(forall|j: int|
            0 <= j < index ==> (#[trigger] workers@[j]).worker_id@
                != workers@[index as int].worker_id@),
{
    let mut j: usize = 0;
    while j < index
        invariant
            j <= index < workers@.len(),
            forall|k: int|
                0 <= k < j ==> (#[trigger] workers@[k]).worker_id@
                    != workers@[index as int].worker_id@,
        decreases index - j,
    {
        if workers[j].worker_id.same(&workers[index].worker_id) {
            return true;
        }
        j += 1;
    }
    false
}

/// Whether an earlier worker resolves to the base URL of worker `index`.
fn repeats_base_url(targets: &[Option<ResolvedTarget>], index: usize) -> (outcome: bool)
    requires
        index < targets@.len(),
        targets@[index as int] is Some,
    ensures
        outcome == !(forall|j: int|
            0 <= j < index ==> #[trigger] bases_of(targets@)[j] != bases_of(
                targets@,
            )[index as int]),
{
    let ghost bases = bases_of(targets@);
    let mut j: usize = 0;
    while j < index
        invariant
            j <= index < targets@.len(),
            bases == bases_of(targets@),
            targets@[index as int] is Some,
            forall|k: int| 0 <= k < j ==> #[trigger] bases[k] != bases[index as int],
        decreases index - j,
    {
        if let (Some(left), Some(right)) = (&targets[j], &targets[index]) {
            if same_text(left.base_url(), right.base_url()) {
                assert(bases[j as int] == bases[index as int]);
                return true;
            }
        }
        j += 1;
    }
    false
}

/// Rejects worker `index` if it breaks a rule on names, models or addresses.
fn validate_identity(workers: &[WorkerConfig], index: usize) -> (outcome: Result<(), ConfigError>)
    requires
        index < workers@.len(),
    ensures
        reported(outcome) == identity_fault(workers@, index as int),
{
    let worker = &workers[index];
    if let Err(error) = validate_identifier(worker.worker_id.as_str(), "workers.worker_id") {
        return Err(error);
    }
    if repeats_worker_id(workers, index) {
        return Err(ConfigError::invalid("workers.worker_id", "must be unique"));
    }
    if let Err(error) = validate_identifier(worker.trust_domain.as_str(), "workers.trust_domain") {
        return Err(error);
    }
    if let Some(model) = &worker.default_model_id {
        if !valid_model_id(model.as_str()) {
            return Err(ConfigError::invalid("workers.default_model_id", "must be 1 to 256 bytes"));
        }
    }
    let base_url: &str = worker.base_url.as_str();
    if base_url.is_empty() || base_url.as_bytes().len() > MAX_BASE_URL_BYTES {
        return Err(
            ConfigError::invalid("workers.base_url", "must contain between 1 and 2048 bytes"),
        );
    }
    let path: &str = worker.health_path.as_str();
    if path.is_empty() || path.as_bytes().len() > MAX_HEALTH_PATH_BYTES || !starts_with_char(
        path,
        '/',
    ) || has_char(path, '?') || has_char(path, '#') {
        return Err(
            ConfigError::invalid(
                "workers.health_path",
                "must be an absolute path without query or fragment",
            ),
        );
    }
    Ok(())
}

/// Rejects a worker that breaks a rule on its services.
fn validate_services(worker: &WorkerConfig) -> (outcome: Result<(), ConfigError>)
    ensures
        reported(outcome) == services_fault(*worker),
{
    if !valid_session_limit(worker.capacity.speech_websocket) {
        return Err(
            ConfigError::invalid(
                "workers.capacity.speech_websocket",
                "must be between 1 and 65535",
            ),
        );
    }
    if !valid_session_limit(worker.capacity.realtime_websocket) {
        return Err(
            ConfigError::invalid(
                "workers.capacity.realtime_websocket",
                "must be between 1 and 65535",
            ),
        );
    }
    let rows: &[ServiceProfile] = worker.service_profiles.as_slice();
    if rows.len() == 0 || rows.len() > MAX_PROFILES_PER_WORKER {
        return Err(
            ConfigError::invalid("workers.service_profiles", "must contain between 1 and 64 rows"),
        );
    }
    if let Err(error) = validate_rows(rows) {
        return Err(error);
    }
    if !has_session_limits(rows, &worker.capacity) {
        return Err(
            ConfigError::invalid(
                "workers.capacity",
                "must configure capacity for every WebSocket service profile",
            ),
        );
    }
    if let Some(default) = &worker.default_model_id {
        if !default_is_executed(rows, default.as_str()) {
            return Err(
                ConfigError::invalid(
                    "workers.default_model_id",
                    "must belong to every advertised model-executing service and task",
                ),
            );
        }
    }
    Ok(())
}

/// Rejects worker `index`, whose base URL and those before it were resolved to
/// `targets`, if it breaks a rule on its base URL or its services.
pub fn validate_resolved_worker(
    workers: &[WorkerConfig],
    targets: &[Option<ResolvedTarget>],
    index: usize,
) -> (outcome: Result<(), ConfigError>)
    requires
        index < workers@.len(),
        index < targets@.len(),
    ensures
        reported(outcome) == resolved_fault(workers@, bases_of(targets@), index as int),
{
    if targets[index].is_none() {
        return Err(
            ConfigError::invalid("workers.base_url", "must be a canonical HTTP or HTTPS origin"),
        );
    }
    if repeats_base_url(targets, index) {
        return Err(ConfigError::invalid("workers.base_url", "worker origins must be unique"));
    }
    validate_services(&workers[index])
}

/// The base URL of each configured worker that is a canonical origin.
pub open spec fn resolved_bases(workers: Seq<WorkerConfig>) -> Seq<Option<Seq<char>>> {
    Seq::new(
        workers.len(),
        |i: int|
            if is_canonical_origin(workers[i].base_url@, parsed_url(workers[i].base_url@)) {
                Some(workers[i].base_url@)
            } else {
                None
            },
    )
}

/// Rejects a worker configuration that breaks a rule. The first broken rule is
/// reported, and no base URL after it is resolved.
pub fn validate_workers(workers: &[WorkerConfig]) -> (outcome: Result<(), ConfigError>)
    ensures
        reported(outcome) == workers_fault(workers@, resolved_bases(workers@)),
{
    if workers.len() == 0 || workers.len() > MAX_WORKERS {
        return Err(ConfigError::invalid("workers", "must contain between 1 and 256 workers"));
    }
    let ghost bases = resolved_bases(workers@);
    let mut targets: Vec<Option<ResolvedTarget>> = Vec::new();
    let mut index: usize = 0;
    while index < workers.len()
        invariant
            index <= workers@.len(),
            1 <= workers@.len() <= MAX_WORKERS,
            targets@.len() == index,
            bases == resolved_bases(workers@),
            forall|j: int| 0 <= j < index ==> #[trigger] bases_of(targets@)[j] == bases[j],
            first_worker_fault(workers@, bases, index as nat) is None,
        decreases workers@.len() - index,
    {
        proof {
            if worker_fault(workers@, bases, index as int) is Some {
                lemma_first_worker_fault(workers@, bases, index as nat + 1, workers@.len());
            }
        }
        if let Err(error) = validate_identity(workers, index) {
            return Err(error);
        }
        let ghost before = targets@;
        let target = ResolvedTarget::from_worker(&workers[index]);
        targets.push(target);
        assert forall|j: int| 0 <= j <= index implies #[trigger] bases_of(targets@)[j]
            == bases[j] by {
            if j < index {
                assert(bases_of(before)[j] == bases[j]);
            }
        }
        proof {
            lemma_resolved_fault(workers@, bases_of(targets@), bases, index as int);
        }
        if let Err(error) = validate_resolved_worker(workers, targets.as_slice(), index) {
            return Err(error);
        }
        index += 1;
    }
    Ok(())
}

} // verus!
