//! What the startup configuration must keep, and what a pool built from it is,
//! on the fields of the configuration.

use vstd::prelude::*;
use vstd::utf8::encode_utf8;

use crate::config::PoolConfig;
use crate::error::ConfigFault;
use crate::text::keys;
use crate::worker_pool::admission::AdmissionHold;
use crate::worker_pool::permits::MAX_PERMITS;
use crate::worker_pool::profile::{
    CapacityClass, OutputModality, ServiceProfile, SpeechResponseFormat, StreamMode,
    TranscriptionResponseFormat, WorkerConfig,
};
use crate::worker_pool::resolver::{is_canonical_origin, parsed_url, UrlText};
use crate::worker_pool::routing_laws::law_validated_workers_are_registrable;
use crate::worker_pool::startup::{
    buildable, initial_pool, initial_state, registrable, registration_of, worker_named,
};
use crate::worker_pool::validation::{
    executed_for, first_worker_fault, identity_fault, is_health_path, is_identifier, is_model_id,
    resolved_bases, resolved_fault, rows_fault, same_offer, services_fault, worker_fault,
    workers_fault,
};

verus! {

/// The fault of a rule.
pub open spec fn fault(field: Seq<char>, reason: Seq<char>) -> Option<ConfigFault> {
    Some(ConfigFault { field, reason })
}

/// An identifier has 1 to 128 bytes, each a letter, a digit, a hyphen, an
/// underscore or a full stop.
pub proof fn law_identifiers_are_plain(value: Seq<char>)
    ensures
        is_identifier(value) <==> {
            &&& value.len() >= 1
            &&& encode_utf8(value).len() <= 128
            &&& forall|i: int|
                0 <= i < encode_utf8(value).len() ==> {
                    let byte = #[trigger] encode_utf8(value)[i];
                    ||| 'a' as u8 <= byte <= 'z' as u8
                    ||| 'A' as u8 <= byte <= 'Z' as u8
                    ||| '0' as u8 <= byte <= '9' as u8
                    ||| byte == '-' as u8
                    ||| byte == '_' as u8
                    ||| byte == '.' as u8
                }
        },
{
}

/// A model name has 1 to 256 bytes and no control characters.
pub proof fn law_model_names_are_printable(value: Seq<char>)
    ensures
        is_model_id(value) <==> {
            &&& value.len() >= 1
            &&& encode_utf8(value).len() <= 256
            &&& forall|i: int|
                0 <= i < value.len() ==> (#[trigger] value[i]) as u32 >= 32 && !(127 <= value[i] as u32
                    <= 159)
        },
{
}

/// A health path has 1 to 128 bytes, begins with a slash, and has neither query
/// nor fragment.
pub proof fn law_health_paths_are_absolute(path: Seq<char>)
    ensures
        is_health_path(path) <==> {
            &&& path.len() >= 1
            &&& path.first() == '/'
            &&& encode_utf8(path).len() <= 128
            &&& forall|i: int| 0 <= i < path.len() ==> #[trigger] path[i] != '?' && path[i] != '#'
        },
{
    if path.contains('?') {
        let i = path.index_of('?');
        assert(path[i] == '?');
    }
    if path.contains('#') {
        let i = path.index_of('#');
        assert(path[i] == '#');
    }
}

/// A chat row is valid exactly when its lists are sets of the right size and it
/// lists audio formats exactly when it lists audio output; else its first
/// broken rule is reported.
pub proof fn law_chat_rows_keep_their_rules(row: ServiceProfile)
    requires
        row is GenerationHttp,
    ensures
        row.fault() == if !(1 <= row->GenerationHttp_model_ids@.len() <= 64 && forall|i: int| 0 <= i < row->GenerationHttp_model_ids@.len() ==> is_model_id((#[trigger] row->GenerationHttp_model_ids@[i])@)) {
                fault("workers.service_profiles.model_ids"@, "must contain 1 to 64 unique model IDs"@)
            } else if !(keys(row->GenerationHttp_model_ids@).no_duplicates()) {
                fault("workers.service_profiles.model_ids"@, "must not contain duplicates"@)
            } else if !(1 <= row->GenerationHttp_message_content_forms@.len() <= 64) {
                fault("workers.service_profiles.message_content_forms"@, "has an invalid item count"@)
            } else if !(row->GenerationHttp_message_content_forms@.no_duplicates()) {
                fault("workers.service_profiles.message_content_forms"@, "must not contain duplicates"@)
            } else if !(row->GenerationHttp_media_placements@.len() <= 64) {
                fault("workers.service_profiles.media_placements"@, "has an invalid item count"@)
            } else if !(row->GenerationHttp_media_placements@.no_duplicates()) {
                fault("workers.service_profiles.media_placements"@, "must not contain duplicates"@)
            } else if !(1 <= row->GenerationHttp_input_modalities@.len() <= 64) {
                fault("workers.service_profiles.input_modalities"@, "has an invalid item count"@)
            } else if !(row->GenerationHttp_input_modalities@.no_duplicates()) {
                fault("workers.service_profiles.input_modalities"@, "must not contain duplicates"@)
            } else if !(1 <= row->GenerationHttp_output_modalities@.len() <= 64) {
                fault("workers.service_profiles.output_modalities"@, "has an invalid item count"@)
            } else if !(row->GenerationHttp_output_modalities@.no_duplicates()) {
                fault("workers.service_profiles.output_modalities"@, "must not contain duplicates"@)
            } else if !(row->GenerationHttp_chat_audio_formats@.len() <= 64) {
                fault("workers.service_profiles.chat_audio_formats"@, "has an invalid item count"@)
            } else if !(row->GenerationHttp_chat_audio_formats@.no_duplicates()) {
                fault("workers.service_profiles.chat_audio_formats"@, "must not contain duplicates"@)
            } else if !(1 <= row->GenerationHttp_stream_modes@.len() <= 64) {
                fault("workers.service_profiles.stream_modes"@, "has an invalid item count"@)
            } else if !(row->GenerationHttp_stream_modes@.no_duplicates()) {
                fault("workers.service_profiles.stream_modes"@, "must not contain duplicates"@)
            } else if !(row->GenerationHttp_output_modalities@.contains(OutputModality::Audio) == (row->GenerationHttp_chat_audio_formats@.len() >= 1)) {
                fault("workers.service_profiles.chat_audio_formats"@, "must be nonempty exactly when audio output is supported"@)
            } else {
                None
            },
{
    let models = row->GenerationHttp_model_ids@;
    let ids = keys(models);
    assert((forall|i: int| 0 <= i < models.len() ==> is_model_id((#[trigger] models[i])@)) <==> (
    forall|i: int| 0 <= i < ids.len() ==> is_model_id(#[trigger] ids[i]))) by {
        if forall|i: int| 0 <= i < models.len() ==> is_model_id((#[trigger] models[i])@) {
            assert forall|i: int| 0 <= i < ids.len() implies is_model_id(#[trigger] ids[i]) by {
                assert(is_model_id(models[i]@));
            }
        }
        if forall|i: int| 0 <= i < ids.len() ==> is_model_id(#[trigger] ids[i]) {
            assert forall|i: int| 0 <= i < models.len() implies is_model_id(
                (#[trigger] models[i])@,
            ) by {
                assert(is_model_id(ids[i]));
            }
        }
    }
    assert(keys(row->GenerationHttp_message_content_forms@) =~= row->GenerationHttp_message_content_forms@);
    assert(keys(row->GenerationHttp_media_placements@) =~= row->GenerationHttp_media_placements@);
    assert(keys(row->GenerationHttp_input_modalities@) =~= row->GenerationHttp_input_modalities@);
    assert(keys(row->GenerationHttp_output_modalities@) =~= row->GenerationHttp_output_modalities@);
    assert(keys(row->GenerationHttp_chat_audio_formats@) =~= row->GenerationHttp_chat_audio_formats@);
    assert(keys(row->GenerationHttp_stream_modes@) =~= row->GenerationHttp_stream_modes@);
}

/// A speech row is valid exactly when its lists are sets of the right size and,
/// where it streams, pcm is its only format; else its first broken rule is
/// reported.
pub proof fn law_speech_rows_keep_their_rules(row: ServiceProfile)
    requires
        row is SpeechHttp,
    ensures
        row.fault() == if !(1 <= row->SpeechHttp_model_ids@.len() <= 64 && forall|i: int| 0 <= i < row->SpeechHttp_model_ids@.len() ==> is_model_id((#[trigger] row->SpeechHttp_model_ids@[i])@)) {
                fault("workers.service_profiles.model_ids"@, "must contain 1 to 64 unique model IDs"@)
            } else if !(keys(row->SpeechHttp_model_ids@).no_duplicates()) {
                fault("workers.service_profiles.model_ids"@, "must not contain duplicates"@)
            } else if !(1 <= row->SpeechHttp_response_formats@.len() <= 64) {
                fault("workers.service_profiles.response_formats"@, "has an invalid item count"@)
            } else if !(row->SpeechHttp_response_formats@.no_duplicates()) {
                fault("workers.service_profiles.response_formats"@, "must not contain duplicates"@)
            } else if !(1 <= row->SpeechHttp_stream_modes@.len() <= 64) {
                fault("workers.service_profiles.stream_modes"@, "has an invalid item count"@)
            } else if !(row->SpeechHttp_stream_modes@.no_duplicates()) {
                fault("workers.service_profiles.stream_modes"@, "must not contain duplicates"@)
            } else if !(1 <= row->SpeechHttp_tasks@.len() <= 64) {
                fault("workers.service_profiles.tasks"@, "has an invalid item count"@)
            } else if !(row->SpeechHttp_tasks@.no_duplicates()) {
                fault("workers.service_profiles.tasks"@, "must not contain duplicates"@)
            } else if !(1 <= row->SpeechHttp_reference_forms@.len() <= 64) {
                fault("workers.service_profiles.reference_forms"@, "has an invalid item count"@)
            } else if !(row->SpeechHttp_reference_forms@.no_duplicates()) {
                fault("workers.service_profiles.reference_forms"@, "must not contain duplicates"@)
            } else if !(row->SpeechHttp_stream_modes@.contains(StreamMode::Streaming) ==> row->SpeechHttp_response_formats@ == seq![SpeechResponseFormat::Pcm]) {
                fault("workers.service_profiles.response_formats"@, "a streaming speech row may contain only pcm"@)
            } else {
                None
            },
{
    let models = row->SpeechHttp_model_ids@;
    let ids = keys(models);
    assert((forall|i: int| 0 <= i < models.len() ==> is_model_id((#[trigger] models[i])@)) <==> (
    forall|i: int| 0 <= i < ids.len() ==> is_model_id(#[trigger] ids[i]))) by {
        if forall|i: int| 0 <= i < models.len() ==> is_model_id((#[trigger] models[i])@) {
            assert forall|i: int| 0 <= i < ids.len() implies is_model_id(#[trigger] ids[i]) by {
                assert(is_model_id(models[i]@));
            }
        }
        if forall|i: int| 0 <= i < ids.len() ==> is_model_id(#[trigger] ids[i]) {
            assert forall|i: int| 0 <= i < models.len() implies is_model_id(
                (#[trigger] models[i])@,
            ) by {
                assert(is_model_id(ids[i]));
            }
        }
    }
    assert(keys(row->SpeechHttp_response_formats@) =~= row->SpeechHttp_response_formats@);
    assert(keys(row->SpeechHttp_stream_modes@) =~= row->SpeechHttp_stream_modes@);
    assert(keys(row->SpeechHttp_tasks@) =~= row->SpeechHttp_tasks@);
    assert(keys(row->SpeechHttp_reference_forms@) =~= row->SpeechHttp_reference_forms@);
}

/// A speech session row is valid exactly when its lists are sets of the right size and,
/// where it streams, pcm is its only format; else its first broken rule is
/// reported.
pub proof fn law_speech_session_rows_keep_their_rules(row: ServiceProfile)
    requires
        row is SpeechWebsocket,
    ensures
        row.fault() == if !(1 <= row->SpeechWebsocket_model_ids@.len() <= 64 && forall|i: int| 0 <= i < row->SpeechWebsocket_model_ids@.len() ==> is_model_id((#[trigger] row->SpeechWebsocket_model_ids@[i])@)) {
                fault("workers.service_profiles.model_ids"@, "must contain 1 to 64 unique model IDs"@)
            } else if !(keys(row->SpeechWebsocket_model_ids@).no_duplicates()) {
                fault("workers.service_profiles.model_ids"@, "must not contain duplicates"@)
            } else if !(1 <= row->SpeechWebsocket_response_formats@.len() <= 64) {
                fault("workers.service_profiles.response_formats"@, "has an invalid item count"@)
            } else if !(row->SpeechWebsocket_response_formats@.no_duplicates()) {
                fault("workers.service_profiles.response_formats"@, "must not contain duplicates"@)
            } else if !(1 <= row->SpeechWebsocket_stream_modes@.len() <= 64) {
                fault("workers.service_profiles.stream_modes"@, "has an invalid item count"@)
            } else if !(row->SpeechWebsocket_stream_modes@.no_duplicates()) {
                fault("workers.service_profiles.stream_modes"@, "must not contain duplicates"@)
            } else if !(1 <= row->SpeechWebsocket_tasks@.len() <= 64) {
                fault("workers.service_profiles.tasks"@, "has an invalid item count"@)
            } else if !(row->SpeechWebsocket_tasks@.no_duplicates()) {
                fault("workers.service_profiles.tasks"@, "must not contain duplicates"@)
            } else if !(1 <= row->SpeechWebsocket_reference_forms@.len() <= 64) {
                fault("workers.service_profiles.reference_forms"@, "has an invalid item count"@)
            } else if !(row->SpeechWebsocket_reference_forms@.no_duplicates()) {
                fault("workers.service_profiles.reference_forms"@, "must not contain duplicates"@)
            } else if !(row->SpeechWebsocket_stream_modes@.contains(StreamMode::Streaming) ==> row->SpeechWebsocket_response_formats@ == seq![SpeechResponseFormat::Pcm]) {
                fault("workers.service_profiles.response_formats"@, "a streaming speech row may contain only pcm"@)
            } else {
                None
            },
{
    let models = row->SpeechWebsocket_model_ids@;
    let ids = keys(models);
    assert((forall|i: int| 0 <= i < models.len() ==> is_model_id((#[trigger] models[i])@)) <==> (
    forall|i: int| 0 <= i < ids.len() ==> is_model_id(#[trigger] ids[i]))) by {
        if forall|i: int| 0 <= i < models.len() ==> is_model_id((#[trigger] models[i])@) {
            assert forall|i: int| 0 <= i < ids.len() implies is_model_id(#[trigger] ids[i]) by {
                assert(is_model_id(models[i]@));
            }
        }
        if forall|i: int| 0 <= i < ids.len() ==> is_model_id(#[trigger] ids[i]) {
            assert forall|i: int| 0 <= i < models.len() implies is_model_id(
                (#[trigger] models[i])@,
            ) by {
                assert(is_model_id(ids[i]));
            }
        }
    }
    assert(keys(row->SpeechWebsocket_response_formats@) =~= row->SpeechWebsocket_response_formats@);
    assert(keys(row->SpeechWebsocket_stream_modes@) =~= row->SpeechWebsocket_stream_modes@);
    assert(keys(row->SpeechWebsocket_tasks@) =~= row->SpeechWebsocket_tasks@);
    assert(keys(row->SpeechWebsocket_reference_forms@) =~= row->SpeechWebsocket_reference_forms@);
}

/// A batch row is valid exactly when its lists are sets of the right size and
/// it takes batches of one; else its first broken rule is reported.
pub proof fn law_batch_rows_keep_their_rules(row: ServiceProfile)
    requires
        row is SpeechBatch,
    ensures
        row.fault() == if !(1 <= row->SpeechBatch_model_ids@.len() <= 64 && forall|i: int| 0 <= i < row->SpeechBatch_model_ids@.len() ==> is_model_id((#[trigger] row->SpeechBatch_model_ids@[i])@)) {
                fault("workers.service_profiles.model_ids"@, "must contain 1 to 64 unique model IDs"@)
            } else if !(keys(row->SpeechBatch_model_ids@).no_duplicates()) {
                fault("workers.service_profiles.model_ids"@, "must not contain duplicates"@)
            } else if !(1 <= row->SpeechBatch_response_formats@.len() <= 64) {
                fault("workers.service_profiles.response_formats"@, "has an invalid item count"@)
            } else if !(row->SpeechBatch_response_formats@.no_duplicates()) {
                fault("workers.service_profiles.response_formats"@, "must not contain duplicates"@)
            } else if !(1 <= row->SpeechBatch_tasks@.len() <= 64) {
                fault("workers.service_profiles.tasks"@, "has an invalid item count"@)
            } else if !(row->SpeechBatch_tasks@.no_duplicates()) {
                fault("workers.service_profiles.tasks"@, "must not contain duplicates"@)
            } else if !(1 <= row->SpeechBatch_reference_forms@.len() <= 64) {
                fault("workers.service_profiles.reference_forms"@, "has an invalid item count"@)
            } else if !(row->SpeechBatch_reference_forms@.no_duplicates()) {
                fault("workers.service_profiles.reference_forms"@, "must not contain duplicates"@)
            } else if !(row->SpeechBatch_max_batch_size >= 1) {
                fault("workers.service_profiles.max_batch_size"@, "must be positive"@)
            } else {
                None
            },
{
    let models = row->SpeechBatch_model_ids@;
    let ids = keys(models);
    assert((forall|i: int| 0 <= i < models.len() ==> is_model_id((#[trigger] models[i])@)) <==> (
    forall|i: int| 0 <= i < ids.len() ==> is_model_id(#[trigger] ids[i]))) by {
        if forall|i: int| 0 <= i < models.len() ==> is_model_id((#[trigger] models[i])@) {
            assert forall|i: int| 0 <= i < ids.len() implies is_model_id(#[trigger] ids[i]) by {
                assert(is_model_id(models[i]@));
            }
        }
        if forall|i: int| 0 <= i < ids.len() ==> is_model_id(#[trigger] ids[i]) {
            assert forall|i: int| 0 <= i < models.len() implies is_model_id(
                (#[trigger] models[i])@,
            ) by {
                assert(is_model_id(ids[i]));
            }
        }
    }
    assert(keys(row->SpeechBatch_response_formats@) =~= row->SpeechBatch_response_formats@);
    assert(keys(row->SpeechBatch_tasks@) =~= row->SpeechBatch_tasks@);
    assert(keys(row->SpeechBatch_reference_forms@) =~= row->SpeechBatch_reference_forms@);
}

/// A recognition row is valid exactly when its lists are sets of the right size
/// and it lists server-sent events exactly when it streams; else its first
/// broken rule is reported.
pub proof fn law_recognition_rows_keep_their_rules(row: ServiceProfile)
    requires
        row is TranscriptionHttp,
    ensures
        row.fault() == if !(1 <= row->TranscriptionHttp_model_ids@.len() <= 64 && forall|i: int| 0 <= i < row->TranscriptionHttp_model_ids@.len() ==> is_model_id((#[trigger] row->TranscriptionHttp_model_ids@[i])@)) {
                fault("workers.service_profiles.model_ids"@, "must contain 1 to 64 unique model IDs"@)
            } else if !(keys(row->TranscriptionHttp_model_ids@).no_duplicates()) {
                fault("workers.service_profiles.model_ids"@, "must not contain duplicates"@)
            } else if !(1 <= row->TranscriptionHttp_response_formats@.len() <= 64) {
                fault("workers.service_profiles.response_formats"@, "has an invalid item count"@)
            } else if !(row->TranscriptionHttp_response_formats@.no_duplicates()) {
                fault("workers.service_profiles.response_formats"@, "must not contain duplicates"@)
            } else if !(1 <= row->TranscriptionHttp_stream_modes@.len() <= 64) {
                fault("workers.service_profiles.stream_modes"@, "has an invalid item count"@)
            } else if !(row->TranscriptionHttp_stream_modes@.no_duplicates()) {
                fault("workers.service_profiles.stream_modes"@, "must not contain duplicates"@)
            } else if !(row->TranscriptionHttp_response_formats@.contains(TranscriptionResponseFormat::Sse) == row->TranscriptionHttp_stream_modes@.contains(StreamMode::Streaming)) {
                fault("workers.service_profiles.response_formats"@, "sse support must match streaming support"@)
            } else {
                None
            },
{
    let models = row->TranscriptionHttp_model_ids@;
    let ids = keys(models);
    assert((forall|i: int| 0 <= i < models.len() ==> is_model_id((#[trigger] models[i])@)) <==> (
    forall|i: int| 0 <= i < ids.len() ==> is_model_id(#[trigger] ids[i]))) by {
        if forall|i: int| 0 <= i < models.len() ==> is_model_id((#[trigger] models[i])@) {
            assert forall|i: int| 0 <= i < ids.len() implies is_model_id(#[trigger] ids[i]) by {
                assert(is_model_id(models[i]@));
            }
        }
        if forall|i: int| 0 <= i < ids.len() ==> is_model_id(#[trigger] ids[i]) {
            assert forall|i: int| 0 <= i < models.len() implies is_model_id(
                (#[trigger] models[i])@,
            ) by {
                assert(is_model_id(ids[i]));
            }
        }
    }
    assert(keys(row->TranscriptionHttp_response_formats@) =~= row->TranscriptionHttp_response_formats@);
    assert(keys(row->TranscriptionHttp_stream_modes@) =~= row->TranscriptionHttp_stream_modes@);
}

/// A realtime row breaks no rule.
pub proof fn law_realtime_rows_have_no_rules(row: ServiceProfile)
    requires
        row is RealtimeWebsocket,
    ensures
        row.fault() is None,
{
}

/// Of the names and addresses of a worker the first broken rule is reported.
pub proof fn law_worker_names_keep_their_rules(workers: Seq<WorkerConfig>, index: int)
    requires
        0 <= index < workers.len(),
    ensures
        identity_fault(workers, index) == if !(is_identifier(workers[index].worker_id@)) {
                fault("workers.worker_id"@, "must be 1 to 128 ASCII identifier bytes"@)
            } else if !(forall|j: int| 0 <= j < index ==> (#[trigger] workers[j]).worker_id@ != workers[index].worker_id@) {
                fault("workers.worker_id"@, "must be unique"@)
            } else if !(is_identifier(workers[index].trust_domain@)) {
                fault("workers.trust_domain"@, "must be 1 to 128 ASCII identifier bytes"@)
            } else if !(workers[index].default_model_id matches Some(id) ==> is_model_id(id@)) {
                fault("workers.default_model_id"@, "must be 1 to 256 bytes"@)
            } else if !(workers[index].base_url@.len() >= 1 && encode_utf8(workers[index].base_url@).len() <= 2048) {
                fault("workers.base_url"@, "must contain between 1 and 2048 bytes"@)
            } else if !(is_health_path(workers[index].health_path@)) {
                fault("workers.health_path"@, "must be an absolute path without query or fragment"@)
            } else {
                None
            },
{
}

/// Of the origin and the services of a worker the first broken rule is reported.
pub proof fn law_worker_origins_keep_their_rules(
    workers: Seq<WorkerConfig>,
    bases: Seq<Option<Seq<char>>>,
    index: int,
)
    ensures
        resolved_fault(workers, bases, index) == if !(bases[index] is Some) {
                fault("workers.base_url"@, "must be a canonical HTTP or HTTPS origin"@)
            } else if !(forall|j: int| 0 <= j < index ==> #[trigger] bases[j] != bases[index]) {
                fault("workers.base_url"@, "worker origins must be unique"@)
            } else {
                services_fault(workers[index])
            },
{
}

/// Two rows are of one kind, and of one recognition task where they have one.
pub open spec fn one_kind(left: ServiceProfile, right: ServiceProfile) -> bool {
    match (left, right) {
        (ServiceProfile::GenerationHttp { .. }, ServiceProfile::GenerationHttp { .. }) => true,
        (ServiceProfile::SpeechHttp { .. }, ServiceProfile::SpeechHttp { .. }) => true,
        (ServiceProfile::SpeechBatch { .. }, ServiceProfile::SpeechBatch { .. }) => true,
        (
            ServiceProfile::TranscriptionHttp { task: a, .. },
            ServiceProfile::TranscriptionHttp { task: b, .. },
        ) => a == b,
        (ServiceProfile::SpeechWebsocket { .. }, ServiceProfile::SpeechWebsocket { .. }) => true,
        (ServiceProfile::RealtimeWebsocket, ServiceProfile::RealtimeWebsocket) => true,
        _ => false,
    }
}

/// The row lists the model, or is a realtime row, which lists none.
pub open spec fn runs(row: ServiceProfile, model: Seq<char>) -> bool {
    match row {
        ServiceProfile::GenerationHttp { model_ids, .. } => keys(model_ids@).contains(model),
        ServiceProfile::SpeechHttp { model_ids, .. } => keys(model_ids@).contains(model),
        ServiceProfile::SpeechBatch { model_ids, .. } => keys(model_ids@).contains(model),
        ServiceProfile::TranscriptionHttp { model_ids, .. } => keys(model_ids@).contains(model),
        ServiceProfile::SpeechWebsocket { model_ids, .. } => keys(model_ids@).contains(model),
        ServiceProfile::RealtimeWebsocket => true,
    }
}

/// Some row of the kind of `row` runs the model.
pub open spec fn runs_offer(
    rows: Seq<ServiceProfile>,
    row: ServiceProfile,
    model: Seq<char>,
) -> bool {
    exists|j: int| 0 <= j < rows.len() && one_kind(row, #[trigger] rows[j]) && runs(rows[j], model)
}

/// Of the limits, rows and default model of a worker the first broken rule is
/// reported.
pub proof fn law_worker_services_keep_their_rules(worker: WorkerConfig)
    ensures
        services_fault(worker) == if !(worker.capacity.speech_websocket matches Some(limit) ==> 1 <= limit <= 65535) {
                fault("workers.capacity.speech_websocket"@, "must be between 1 and 65535"@)
            } else if !(worker.capacity.realtime_websocket matches Some(limit) ==> 1 <= limit <= 65535) {
                fault("workers.capacity.realtime_websocket"@, "must be between 1 and 65535"@)
            } else if !(1 <= worker.service_profiles@.len() <= 64) {
                fault("workers.service_profiles"@, "must contain between 1 and 64 rows"@)
            } else if rows_fault(worker.service_profiles@, worker.service_profiles@.len()) is Some {
                rows_fault(worker.service_profiles@, worker.service_profiles@.len())
            } else if !(forall|i: int| 0 <= i < worker.service_profiles@.len() ==> ((#[trigger] worker.service_profiles@[i]) is SpeechWebsocket ==> worker.capacity.speech_websocket is Some) && (worker.service_profiles@[i] is RealtimeWebsocket ==> worker.capacity.realtime_websocket is Some)) {
                fault("workers.capacity"@, "must configure capacity for every WebSocket service profile"@)
            } else if !(worker.default_model_id matches Some(id) ==> forall|i: int| 0 <= i < worker.service_profiles@.len() ==> runs_offer(worker.service_profiles@, #[trigger] worker.service_profiles@[i], id@)) {
                fault("workers.default_model_id"@, "must belong to every advertised model-executing service and task"@)
            } else {
                None
            },
{
    let rows = worker.service_profiles@;
    if let Some(id) = worker.default_model_id {
        assert forall|i: int| 0 <= i < rows.len() implies runs_offer(rows, #[trigger] rows[i], id@)
            == executed_for(rows, rows[i], id@) by {
            lemma_offer(rows, rows[i], id@);
        }
    }
}

/// Which rows run a model for an offer.
proof fn lemma_offer(rows: Seq<ServiceProfile>, row: ServiceProfile, model: Seq<char>)
    ensures
        runs_offer(rows, row, model) == executed_for(rows, row, model),
{
    assert forall|j: int| 0 <= j < rows.len() implies (one_kind(row, #[trigger] rows[j]) && runs(
        rows[j],
        model,
    )) == (same_offer(row, rows[j]) && rows[j].executes(model)) by {}
    if runs_offer(rows, row, model) {
        let j = choose|j: int|
            0 <= j < rows.len() && one_kind(row, #[trigger] rows[j]) && runs(rows[j], model);
        assert(same_offer(row, rows[j]) && rows[j].executes(model));
    }
    if executed_for(rows, row, model) {
        let j = choose|j: int|
            0 <= j < rows.len() && same_offer(row, #[trigger] rows[j]) && rows[j].executes(model);
        assert(one_kind(row, rows[j]) && runs(rows[j], model));
    }
}

/// Rows are accepted exactly when each is valid and none is equivalent to an
/// earlier one.
pub proof fn law_rows_are_valid_and_distinct(rows: Seq<ServiceProfile>, count: nat)
    requires
        count <= rows.len(),
    ensures
        rows_fault(rows, count) is None <==> {
            &&& forall|i: int| 0 <= i < count ==> (#[trigger] rows[i]).fault() is None
            &&& forall|i: int, j: int|
                0 <= j < i < count ==> !(#[trigger] rows[i]).equivalent(#[trigger] &rows[j])
        },
    decreases count,
{
    if count > 0 {
        let last = (count - 1) as nat;
        law_rows_are_valid_and_distinct(rows, last);
        let row = rows[last as int];
        if rows_fault(rows, count) is None {
            assert forall|i: int, j: int| 0 <= j < i < count implies !(#[trigger] rows[i]).equivalent(
                #[trigger] &rows[j],
            ) by {
                if i == last {
                    assert(!row.equivalent(&rows[j]));
                }
            }
        } else if forall|i: int| 0 <= i < count ==> (#[trigger] rows[i]).fault() is None {
            assert(row.fault() is None);
            if rows_fault(rows, last) is None {
                let j = choose|j: int| 0 <= j < last && row.equivalent(#[trigger] &rows[j]);
                assert(rows[last as int].equivalent(&rows[j]));
            }
        }
    }
}

/// The first faulty row is reported, whatever comes after it: its own fault, or
/// that it repeats an earlier row.
pub proof fn law_first_faulty_row_is_reported(rows: Seq<ServiceProfile>, at: nat, count: nat)
    requires
        at < count <= rows.len(),
        rows_fault(rows, at) is None,
    ensures
        rows[at as int].fault() is Some ==> rows_fault(rows, count) == rows[at as int].fault(),
        rows[at as int].fault() is None && (exists|j: int|
            0 <= j < at && rows[at as int].equivalent(#[trigger] &rows[j])) ==> rows_fault(
            rows,
            count,
        ) == fault("workers.service_profiles"@, "contains a duplicate correlated row"@),
    decreases count,
{
    if at + 1 < count {
        law_first_faulty_row_is_reported(rows, at, (count - 1) as nat);
    }
}

/// A worker is judged by its names first, then by its origin and its services.
pub proof fn law_worker_names_are_judged_first(
    workers: Seq<WorkerConfig>,
    bases: Seq<Option<Seq<char>>>,
    index: int,
)
    ensures
        identity_fault(workers, index) is Some ==> worker_fault(workers, bases, index)
            == identity_fault(workers, index),
        identity_fault(workers, index) is None ==> worker_fault(workers, bases, index)
            == resolved_fault(workers, bases, index),
{
}

/// A configuration is accepted exactly when it has 1 to 256 workers and none of
/// them breaks a rule.
pub proof fn law_configuration_is_accepted_worker_by_worker(
    workers: Seq<WorkerConfig>,
    bases: Seq<Option<Seq<char>>>,
)
    ensures
        workers_fault(workers, bases) is None <==> 1 <= workers.len() <= 256 && forall|i: int|
            0 <= i < workers.len() ==> #[trigger] worker_fault(workers, bases, i) is None,
        !(1 <= workers.len() <= 256) ==> workers_fault(workers, bases) == fault(
            "workers"@,
            "must contain between 1 and 256 workers"@,
        ),
{
    lemma_no_fault(workers, bases, workers.len());
}

/// The first workers break no rule exactly when none of them does.
proof fn lemma_no_fault(
    workers: Seq<WorkerConfig>,
    bases: Seq<Option<Seq<char>>>,
    count: nat,
)
    ensures
        first_worker_fault(workers, bases, count) is None <==> forall|i: int|
            0 <= i < count ==> #[trigger] worker_fault(workers, bases, i) is None,
    decreases count,
{
    if count > 0 {
        lemma_no_fault(workers, bases, (count - 1) as nat);
        if first_worker_fault(workers, bases, count) is None {
            assert forall|i: int| 0 <= i < count implies #[trigger] worker_fault(workers, bases, i)
                is None by {
                if i == count - 1 {
                }
            }
        }
        if forall|i: int| 0 <= i < count ==> #[trigger] worker_fault(workers, bases, i) is None {
            assert(worker_fault(workers, bases, count - 1) is None);
        }
    }
}

/// The first worker that breaks a rule is reported, whatever comes after it.
pub proof fn law_first_faulty_worker_is_reported(
    workers: Seq<WorkerConfig>,
    bases: Seq<Option<Seq<char>>>,
    at: int,
)
    requires
        1 <= workers.len() <= 256,
        0 <= at < workers.len(),
        forall|i: int| 0 <= i < at ==> #[trigger] worker_fault(workers, bases, i) is None,
        worker_fault(workers, bases, at) is Some,
    ensures
        workers_fault(workers, bases) == worker_fault(workers, bases, at),
{
    lemma_no_fault(workers, bases, at as nat);
    lemma_later_workers(workers, bases, at, workers.len());
}

/// Workers after the first fault do not change it.
proof fn lemma_later_workers(
    workers: Seq<WorkerConfig>,
    bases: Seq<Option<Seq<char>>>,
    at: int,
    count: nat,
)
    requires
        0 <= at < count,
        first_worker_fault(workers, bases, at as nat) is None,
        worker_fault(workers, bases, at) is Some,
    ensures
        first_worker_fault(workers, bases, count) == worker_fault(workers, bases, at),
    decreases count,
{
    if at + 1 < count {
        lemma_later_workers(workers, bases, at, (count - 1) as nat);
    }
}

/// A validated worker can hold a session of every session service that it
/// advertises: the worker starts with 1 to 65535 of them to give, as many as
/// are configured.
pub proof fn law_validated_session_rows_have_room(workers: Seq<WorkerConfig>, i: int, row: int)
    requires
        workers_fault(workers, resolved_bases(workers)) is None,
        0 <= i < workers.len(),
        0 <= row < workers[i].service_profiles@.len(),
    ensures
        workers[i].service_profiles@[row] is SpeechWebsocket ==> {
            let state = initial_state(workers[i]);
            &&& workers[i].capacity.speech_websocket is Some
            &&& state.sessions[0] is Some
            &&& 1 <= state.sessions[0]->Some_0.available <= 65535
            &&& state.sessions[0]->Some_0.available == workers[i].capacity.speech_websocket->Some_0
            &&& state.sessions[0]->Some_0.limit == workers[i].capacity.speech_websocket->Some_0
            &&& state.session_pool(CapacityClass::SpeechWebsocket) == state.sessions[0]
            &&& state.has_session_room(CapacityClass::SpeechWebsocket)
        },
        workers[i].service_profiles@[row] is RealtimeWebsocket ==> {
            let state = initial_state(workers[i]);
            &&& workers[i].capacity.realtime_websocket is Some
            &&& state.sessions[1] is Some
            &&& 1 <= state.sessions[1]->Some_0.available <= 65535
            &&& state.sessions[1]->Some_0.available
                == workers[i].capacity.realtime_websocket->Some_0
            &&& state.sessions[1]->Some_0.limit == workers[i].capacity.realtime_websocket->Some_0
            &&& state.session_pool(CapacityClass::RealtimeWebsocket) == state.sessions[1]
            &&& state.has_session_room(CapacityClass::RealtimeWebsocket)
        },
{
    let bases = resolved_bases(workers);
    law_configuration_is_accepted_worker_by_worker(workers, bases);
    assert(worker_fault(workers, bases, i) is None);
    law_worker_names_are_judged_first(workers, bases, i);
    law_worker_origins_keep_their_rules(workers, bases, i);
    law_worker_services_keep_their_rules(workers[i]);
    assert(services_fault(workers[i]) is None);
    let here = workers[i].service_profiles@[row];
}

/// A validated worker has a name of its own and an origin of its own.
pub proof fn law_validated_workers_are_told_apart(workers: Seq<WorkerConfig>, i: int, j: int)
    requires
        workers_fault(workers, resolved_bases(workers)) is None,
        0 <= j < i < workers.len(),
    ensures
        workers[i].worker_id@ != workers[j].worker_id@,
        workers[i].base_url@ != workers[j].base_url@,
{
    let bases = resolved_bases(workers);
    law_configuration_is_accepted_worker_by_worker(workers, bases);
    assert(worker_fault(workers, bases, i) is None);
    assert(worker_fault(workers, bases, j) is None);
    law_worker_names_are_judged_first(workers, bases, i);
    law_worker_names_keep_their_rules(workers, i);
    law_worker_origins_keep_their_rules(workers, bases, i);
    law_worker_names_are_judged_first(workers, bases, j);
    law_worker_origins_keep_their_rules(workers, bases, j);
    assert(bases[i] is Some && bases[j] is Some);
    assert(bases[j] != bases[i]);
}

/// A built pool has the configured workers in their order, each as configured,
/// of unknown health and without load. Turns begin in that order.
pub proof fn law_pool_starts_as_configured(config: PoolConfig, i: int)
    requires
        0 <= i < config.workers@.len() <= 256,
    ensures
        ({
            let pool = initial_pool(config);
            let worker = config.workers@[i];
            &&& pool.roster.len() == config.workers@.len()
            &&& pool.workers.len() == config.workers@.len()
            &&& pool.order.len() == config.workers@.len()
            &&& pool.strategy == config.strategy
            &&& pool.order[i] == i
            &&& pool.roster[i].worker_id == worker.worker_id@
            &&& pool.roster[i].trust == worker.trust_domain@
            &&& pool.roster[i].base == worker.base_url@
            &&& pool.roster[i].profiles == worker.service_profiles@
            &&& worker.default_model_id is None ==> pool.roster[i].default is None
            &&& worker.default_model_id matches Some(id) ==> pool.roster[i].default == Some(id@)
            &&& pool.workers[i].load == 0
            &&& pool.workers[i].health is Unknown
            &&& worker.capacity.speech_websocket is None ==> pool.workers[i].sessions[0] is None
            &&& worker.capacity.realtime_websocket is None ==> pool.workers[i].sessions[1] is None
        }),
{
}

/// The voice owner is the first worker with its name.
pub proof fn law_voice_owner_is_found_by_name(config: PoolConfig)
    requires
        config.workers@.len() <= 256,
    ensures
        config.voice_owner_worker_id is None ==> initial_pool(config).voice_owner is None,
        config.voice_owner_worker_id matches Some(id) ==> {
            let owner = initial_pool(config).voice_owner;
            &&& owner is Some
            &&& buildable(config) ==> owner->Some_0 < config.workers@.len()
                && config.workers@[owner->Some_0 as int].worker_id@ == id@
            &&& forall|j: int|
                0 <= j < owner->Some_0 && j < config.workers@.len() ==> (
                #[trigger] config.workers@[j]).worker_id@ != id@
            &&& (forall|j: int|
                0 <= j < config.workers@.len() ==> (#[trigger] config.workers@[j]).worker_id@ != id@)
                ==> !buildable(config)
        },
{
    if let Some(id) = config.voice_owner_worker_id {
        lemma_named(config.workers@, id@, 0);
    }
}

/// Where the first worker with a name stands.
proof fn lemma_named(workers: Seq<WorkerConfig>, id: Seq<char>, from: int)
    requires
        0 <= from <= workers.len(),
    ensures
        ({
            let place = worker_named(workers, id, from);
            &&& from <= place <= workers.len()
            &&& place < workers.len() ==> workers[place].worker_id@ == id
            &&& forall|j: int| from <= j < place ==> (#[trigger] workers[j]).worker_id@ != id
        }),
    decreases workers.len() - from,
{
    if from < workers.len() && workers[from].worker_id@ != id {
        lemma_named(workers, id, from + 1);
    }
}

/// A built pool admits to each class exactly the credits that are configured for
/// it, and none to a class for which none are configured; and it admits as many
/// requests as the envelope is configured for.
pub proof fn law_pool_admits_what_is_configured(config: PoolConfig, credits: nat)
    ensures
        ({
            let admission = initial_pool(config).admission;
            let limits = config.admission;
            &&& admission.global.available == limits.global
            &&& admission.global.limit == limits.global
            &&& !admission.global.closed
            &&& admission.class_admits(
                AdmissionHold { class: CapacityClass::GenerationHttp, credits },
            ) <==> limits.generation_http is Some && credits <= limits.generation_http->Some_0
            &&& admission.class_admits(AdmissionHold { class: CapacityClass::SpeechHttp, credits })
                <==> limits.speech_http is Some && credits <= limits.speech_http->Some_0
            &&& admission.class_admits(AdmissionHold { class: CapacityClass::SpeechBatch, credits })
                <==> limits.speech_batch is Some && credits <= limits.speech_batch->Some_0
            &&& admission.class_admits(
                AdmissionHold { class: CapacityClass::TranscriptionHttp, credits },
            ) <==> limits.transcription_http is Some && credits
                <= limits.transcription_http->Some_0
            &&& admission.class_admits(
                AdmissionHold { class: CapacityClass::SpeechWebsocket, credits },
            ) <==> limits.speech_websocket is Some && credits <= limits.speech_websocket->Some_0
            &&& admission.class_admits(
                AdmissionHold { class: CapacityClass::RealtimeWebsocket, credits },
            ) <==> limits.realtime_websocket is Some && credits
                <= limits.realtime_websocket->Some_0
        }),
{
}

/// A pool can be built from every validated configuration of workers whose
/// voice owner, if one is named, is among them.
pub proof fn law_validated_configurations_can_be_built(config: PoolConfig)
    requires
        workers_fault(config.workers@, resolved_bases(config.workers@)) is None,
        config.admission.global <= MAX_PERMITS,
        forall|i: int|
            0 <= i < 6 ==> ((#[trigger] config.admission.classes()[i]) matches Some(limit) ==> limit
                <= MAX_PERMITS),
        config.voice_owner_worker_id matches Some(id) ==> exists|i: int|
            0 <= i < config.workers@.len() && (#[trigger] config.workers@[i]).worker_id@ == id@,
    ensures
        buildable(config),
{
    assert forall|i: int| 0 <= i < config.workers@.len() implies registrable(
        #[trigger] config.workers@[i],
    ) by {
        law_validated_workers_are_registrable(config.workers@, i);
    }
    if let Some(id) = config.voice_owner_worker_id {
        lemma_named(config.workers@, id@, 0);
    }
}

/// A base URL is canonical exactly when it is an HTTP or HTTPS URL, begins as
/// one does, and is its own origin with a slash behind it.
pub proof fn law_canonical_origins_are_their_own(text: Seq<char>, url: Option<UrlText>)
    ensures
        is_canonical_origin(text, url) <==> {
            &&& "http://"@.is_prefix_of(text) || "https://"@.is_prefix_of(text)
            &&& url is Some
            &&& url->Some_0.scheme == "http"@ || url->Some_0.scheme == "https"@
            &&& text.len() == url->Some_0.origin.len() + 1
            &&& text.drop_last() == url->Some_0.origin
            &&& text.last() == '/'
        },
{
    reveal_strlit("/");
    if url is Some {
        let origin = url->Some_0.origin;
        if text == origin + "/"@ {
            assert(text.drop_last() =~= origin);
        }
        if text.len() == origin.len() + 1 && text.drop_last() == origin && text.last() == '/' {
            assert(text =~= origin + "/"@);
        }
    }
}

/// A worker is probed at its health path below its origin.
pub proof fn law_health_is_probed_below_the_origin(worker: WorkerConfig)
    ensures
        registration_of(worker).health_url == parsed_url(worker.base_url@)->Some_0.origin
            + worker.health_path@,
        registrable(worker) ==> registration_of(worker).health_url
            == worker.base_url@.drop_last() + worker.health_path@,
        registrable(worker) ==> is_canonical_origin(
            worker.base_url@,
            parsed_url(worker.base_url@),
        ),
{
    if registrable(worker) {
        law_canonical_origins_are_their_own(worker.base_url@, parsed_url(worker.base_url@));
    }
}

} // verus!
