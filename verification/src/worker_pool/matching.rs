//! When one row of a worker satisfies a request, and when two rows are equivalent.

use vstd::prelude::*;

use crate::text::{all_in, contains, keys, same_optional_text, text_of, Item};
use crate::worker_pool::profile::{
    ModelSelection, ProfileRequirement, ReferenceForm, ServiceProfile, SpeechToTextTask,
    VoiceNamePolicy,
};

verus! {

/// The two sequences list the same members in any order, when neither repeats one.
pub open spec fn same_members<V>(left: Seq<V>, right: Seq<V>) -> bool {
    left.len() == right.len() && all_in(left, right)
}

/// A named voice is usable: either names are uploaded voices, or a request
/// without a voice sample is supported.
pub open spec fn supports_references(
    available: Seq<ReferenceForm>,
    required: Seq<ReferenceForm>,
    named_voice: bool,
    policy: VoiceNamePolicy,
) -> bool {
    &&& all_in(required, available)
    &&& named_voice ==> policy is Uploaded || available.contains(ReferenceForm::Absent)
}

impl ServiceProfile {
    /// Two rows list the same capabilities, in any order.
    pub open spec fn equivalent(&self, other: &ServiceProfile) -> bool {
        match (*self, *other) {
            (
                ServiceProfile::GenerationHttp {
                    model_ids: a_models,
                    message_content_forms: a_forms,
                    media_placements: a_placements,
                    input_modalities: a_inputs,
                    output_modalities: a_outputs,
                    chat_audio_formats: a_audio,
                    stream_modes: a_streams,
                },
                ServiceProfile::GenerationHttp {
                    model_ids: b_models,
                    message_content_forms: b_forms,
                    media_placements: b_placements,
                    input_modalities: b_inputs,
                    output_modalities: b_outputs,
                    chat_audio_formats: b_audio,
                    stream_modes: b_streams,
                },
            ) => {
                &&& same_members(keys(a_models@), keys(b_models@))
                &&& same_members(keys(a_forms@), keys(b_forms@))
                &&& same_members(keys(a_placements@), keys(b_placements@))
                &&& same_members(keys(a_inputs@), keys(b_inputs@))
                &&& same_members(keys(a_outputs@), keys(b_outputs@))
                &&& same_members(keys(a_audio@), keys(b_audio@))
                &&& same_members(keys(a_streams@), keys(b_streams@))
            },
            (
                ServiceProfile::SpeechHttp {
                    model_ids: am,
                    response_formats: af,
                    stream_modes: a_modes,
                    tasks: at,
                    reference_forms: ar,
                    voice_name_policy: av,
                },
                ServiceProfile::SpeechHttp {
                    model_ids: bm,
                    response_formats: bf,
                    stream_modes: b_modes,
                    tasks: bt,
                    reference_forms: br,
                    voice_name_policy: bv,
                },
            ) => {
                &&& av == bv
                &&& same_members(keys(am@), keys(bm@))
                &&& same_members(keys(af@), keys(bf@))
                &&& same_members(keys(a_modes@), keys(b_modes@))
                &&& same_members(keys(at@), keys(bt@))
                &&& same_members(keys(ar@), keys(br@))
            },
            (
                ServiceProfile::SpeechBatch {
                    model_ids: am,
                    response_formats: af,
                    tasks: at,
                    reference_forms: ar,
                    voice_name_policy: av,
                    max_batch_size: ab,
                },
                ServiceProfile::SpeechBatch {
                    model_ids: bm,
                    response_formats: bf,
                    tasks: bt,
                    reference_forms: br,
                    voice_name_policy: bv,
                    max_batch_size: bb,
                },
            ) => {
                &&& av == bv
                &&& ab == bb
                &&& same_members(keys(am@), keys(bm@))
                &&& same_members(keys(af@), keys(bf@))
                &&& same_members(keys(at@), keys(bt@))
                &&& same_members(keys(ar@), keys(br@))
            },
            (
                ServiceProfile::TranscriptionHttp {
                    model_ids: am,
                    task: at,
                    response_formats: af,
                    stream_modes: a_modes,
                },
                ServiceProfile::TranscriptionHttp {
                    model_ids: bm,
                    task: bt,
                    response_formats: bf,
                    stream_modes: b_modes,
                },
            ) => {
                &&& at == bt
                &&& same_members(keys(am@), keys(bm@))
                &&& same_members(keys(af@), keys(bf@))
                &&& same_members(keys(a_modes@), keys(b_modes@))
            },
            (
                ServiceProfile::SpeechWebsocket {
                    model_ids: am,
                    response_formats: af,
                    stream_modes: a_modes,
                    tasks: at,
                    reference_forms: ar,
                    voice_name_policy: av,
                },
                ServiceProfile::SpeechWebsocket {
                    model_ids: bm,
                    response_formats: bf,
                    stream_modes: b_modes,
                    tasks: bt,
                    reference_forms: br,
                    voice_name_policy: bv,
                },
            ) => {
                &&& av == bv
                &&& same_members(keys(am@), keys(bm@))
                &&& same_members(keys(af@), keys(bf@))
                &&& same_members(keys(a_modes@), keys(b_modes@))
                &&& same_members(keys(at@), keys(bt@))
                &&& same_members(keys(ar@), keys(br@))
            },
            (ServiceProfile::RealtimeWebsocket, ServiceProfile::RealtimeWebsocket) => true,
            _ => false,
        }
    }

    /// The row, on a worker with this default model, serves the requirement.
    pub open spec fn serves(
        &self,
        requirement: &ProfileRequirement,
        default: Option<Seq<char>>,
    ) -> bool {
        match (*self, *requirement) {
            (
                ServiceProfile::GenerationHttp {
                    model_ids,
                    message_content_forms,
                    media_placements,
                    input_modalities,
                    output_modalities,
                    chat_audio_formats,
                    stream_modes,
                },
                ProfileRequirement::GenerationHttp {
                    model,
                    message_content_forms: required_forms,
                    media_placements: required_placements,
                    input_modalities: required_inputs,
                    output_modalities: required_outputs,
                    audio_format,
                    stream_mode,
                },
            ) => {
                &&& model.served_by(keys(model_ids@), default)
                &&& all_in(keys(required_forms@), keys(message_content_forms@))
                &&& all_in(keys(required_placements@), keys(media_placements@))
                &&& all_in(keys(required_inputs@), keys(input_modalities@))
                &&& all_in(keys(required_outputs@), keys(output_modalities@))
                &&& audio_format is Some ==> keys(chat_audio_formats@).contains(
                    audio_format->Some_0,
                )
                &&& keys(stream_modes@).contains(stream_mode)
            },
            (
                ServiceProfile::SpeechHttp {
                    model_ids,
                    response_formats,
                    stream_modes,
                    tasks,
                    reference_forms,
                    voice_name_policy,
                },
                ProfileRequirement::SpeechHttp {
                    model,
                    response_format,
                    stream_mode,
                    task,
                    reference_forms: required_references,
                    named_voice,
                },
            ) => {
                &&& model.served_by(keys(model_ids@), default)
                &&& keys(response_formats@).contains(response_format)
                &&& keys(stream_modes@).contains(stream_mode)
                &&& task is Some ==> keys(tasks@).contains(task->Some_0)
                &&& supports_references(
                    keys(reference_forms@),
                    keys(required_references@),
                    named_voice,
                    voice_name_policy,
                )
            },
            (
                ServiceProfile::SpeechBatch {
                    model_ids,
                    response_formats,
                    tasks,
                    reference_forms,
                    voice_name_policy,
                    max_batch_size,
                },
                ProfileRequirement::SpeechBatch {
                    models,
                    response_formats: required_formats,
                    tasks: required_tasks,
                    reference_forms: required_references,
                    named_voice,
                    batch_size,
                },
            ) => {
                &&& forall|i: int|
                    0 <= i < models@.len() ==> (#[trigger] models@[i]).served_by(
                        keys(model_ids@),
                        default,
                    )
                &&& batch_size <= max_batch_size
                &&& all_in(keys(required_formats@), keys(response_formats@))
                &&& all_in(keys(required_tasks@), keys(tasks@))
                &&& supports_references(
                    keys(reference_forms@),
                    keys(required_references@),
                    named_voice,
                    voice_name_policy,
                )
            },
            (
                ServiceProfile::TranscriptionHttp { model_ids, task, response_formats, stream_modes },
                ProfileRequirement::TranscriptionHttp {
                    model,
                    task: required_task,
                    response_format,
                    stream_mode,
                },
            ) => {
                &&& if required_task is Translate {
                    model.translated_by(keys(model_ids@), default)
                } else {
                    model.served_by(keys(model_ids@), default)
                }
                &&& task == required_task
                &&& keys(response_formats@).contains(response_format)
                &&& keys(stream_modes@).contains(stream_mode)
            },
            (
                ServiceProfile::SpeechWebsocket {
                    model_ids,
                    response_formats,
                    stream_modes,
                    tasks,
                    reference_forms,
                    voice_name_policy,
                },
                ProfileRequirement::SpeechWebsocket {
                    model,
                    response_format,
                    stream_mode,
                    task,
                    reference_forms: required_references,
                    named_voice,
                },
            ) => {
                &&& model.served_by(keys(model_ids@), default)
                &&& response_format is Some ==> keys(response_formats@).contains(
                    response_format->Some_0,
                )
                &&& keys(stream_modes@).contains(stream_mode)
                &&& task is Some ==> keys(tasks@).contains(task->Some_0)
                &&& supports_references(
                    keys(reference_forms@),
                    keys(required_references@),
                    named_voice,
                    voice_name_policy,
                )
            },
            (
                ServiceProfile::RealtimeWebsocket,
                ProfileRequirement::RealtimeWebsocket { model },
            ) => model is Some ==> default == Some(model->Some_0@),
            _ => false,
        }
    }
}

/// Whether `required` lists only what `available` lists.
pub fn contains_all<T: Item>(available: &[T], required: &[T]) -> (outcome: bool)
    ensures
        outcome == all_in(keys(required@), keys(available@)),
{
    let mut i: usize = 0;
    while i < required.len()
        invariant
            i <= required@.len(),
            forall|j: int|
                0 <= j < i ==> keys(available@).contains(#[trigger] keys(required@)[j]),
        decreases required@.len() - i,
    {
        if !contains(available, &required[i]) {
            assert(!keys(available@).contains(keys(required@)[i as int]));
            return false;
        }
        i += 1;
    }
    true
}

/// Whether the two lists, taken as sets, are equal.
pub fn set_eq<T: Item>(left: &[T], right: &[T]) -> (outcome: bool)
    ensures
        outcome == same_members(keys(left@), keys(right@)),
{
    left.len() == right.len() && contains_all(right, left)
}

/// Whether `value` is absent or listed.
fn admits<T: Item>(available: &[T], value: &Option<T>) -> (outcome: bool)
    ensures
        outcome == (*value is Some ==> keys(available@).contains(value->Some_0@)),
{
    match value {
        Some(item) => contains(available, item),
        None => true,
    }
}

pub fn matches_speech_references(
    available: &[ReferenceForm],
    required: &[ReferenceForm],
    named_voice: bool,
    voice_name_policy: VoiceNamePolicy,
) -> (outcome: bool)
    ensures
        outcome == supports_references(
            keys(available@),
            keys(required@),
            named_voice,
            voice_name_policy,
        ),
{
    contains_all(available, required) && (!named_voice || voice_name_policy
        == VoiceNamePolicy::Uploaded || contains(available, &ReferenceForm::Absent))
}

/// Whether every selection is served by a row with these models.
fn all_served(
    models: &[ModelSelection],
    model_ids: &[String],
    worker_default: Option<&str>,
) -> (outcome: bool)
    ensures
        outcome == forall|i: int|
            0 <= i < models@.len() ==> (#[trigger] models@[i]).served_by(
                keys(model_ids@),
                text_of(worker_default),
            ),
{
    let mut i: usize = 0;
    while i < models.len()
        invariant
            i <= models@.len(),
            forall|j: int|
                0 <= j < i ==> (#[trigger] models@[j]).served_by(
                    keys(model_ids@),
                    text_of(worker_default),
                ),
        decreases models@.len() - i,
    {
        if !models[i].matches_profile_models(model_ids, worker_default) {
            return false;
        }
        i += 1;
    }
    true
}

impl ServiceProfile {
    pub fn semantically_eq(&self, other: &Self) -> (outcome: bool)
        ensures
            outcome == self.equivalent(other),
    {
        match (self, other) {
            (
                ServiceProfile::GenerationHttp {
                    model_ids: a_models,
                    message_content_forms: a_forms,
                    media_placements: a_placements,
                    input_modalities: a_inputs,
                    output_modalities: a_outputs,
                    chat_audio_formats: a_audio,
                    stream_modes: a_streams,
                },
                ServiceProfile::GenerationHttp {
                    model_ids: b_models,
                    message_content_forms: b_forms,
                    media_placements: b_placements,
                    input_modalities: b_inputs,
                    output_modalities: b_outputs,
                    chat_audio_formats: b_audio,
                    stream_modes: b_streams,
                },
            ) => {
                set_eq(a_models, b_models) && set_eq(a_forms, b_forms) && set_eq(
                    a_placements,
                    b_placements,
                ) && set_eq(a_inputs, b_inputs) && set_eq(a_outputs, b_outputs) && set_eq(
                    a_audio,
                    b_audio,
                ) && set_eq(a_streams, b_streams)
            },
            (
                ServiceProfile::SpeechHttp {
                    model_ids: am,
                    response_formats: af,
                    stream_modes: a_modes,
                    tasks: at,
                    reference_forms: ar,
                    voice_name_policy: av,
                },
                ServiceProfile::SpeechHttp {
                    model_ids: bm,
                    response_formats: bf,
                    stream_modes: b_modes,
                    tasks: bt,
                    reference_forms: br,
                    voice_name_policy: bv,
                },
            ) => {
                *av == *bv && set_eq(am, bm) && set_eq(af, bf) && set_eq(a_modes, b_modes)
                    && set_eq(at, bt) && set_eq(ar, br)
            },
            (
                ServiceProfile::SpeechBatch {
                    model_ids: am,
                    response_formats: af,
                    tasks: at,
                    reference_forms: ar,
                    voice_name_policy: av,
                    max_batch_size: ab,
                },
                ServiceProfile::SpeechBatch {
                    model_ids: bm,
                    response_formats: bf,
                    tasks: bt,
                    reference_forms: br,
                    voice_name_policy: bv,
                    max_batch_size: bb,
                },
            ) => {
                *av == *bv && *ab == *bb && set_eq(am, bm) && set_eq(af, bf) && set_eq(at, bt)
                    && set_eq(ar, br)
            },
            (
                ServiceProfile::TranscriptionHttp {
                    model_ids: am,
                    task: at,
                    response_formats: af,
                    stream_modes: a_modes,
                },
                ServiceProfile::TranscriptionHttp {
                    model_ids: bm,
                    task: bt,
                    response_formats: bf,
                    stream_modes: b_modes,
                },
            ) => {
                *at == *bt && set_eq(am, bm) && set_eq(af, bf) && set_eq(a_modes, b_modes)
            },
            (
                ServiceProfile::SpeechWebsocket {
                    model_ids: am,
                    response_formats: af,
                    stream_modes: a_modes,
                    tasks: at,
                    reference_forms: ar,
                    voice_name_policy: av,
                },
                ServiceProfile::SpeechWebsocket {
                    model_ids: bm,
                    response_formats: bf,
                    stream_modes: b_modes,
                    tasks: bt,
                    reference_forms: br,
                    voice_name_policy: bv,
                },
            ) => {
                *av == *bv && set_eq(am, bm) && set_eq(af, bf) && set_eq(a_modes, b_modes)
                    && set_eq(at, bt) && set_eq(ar, br)
            },
            (ServiceProfile::RealtimeWebsocket, ServiceProfile::RealtimeWebsocket) => true,
            _ => false,
        }
    }

    pub fn matches(
        &self,
        requirement: &ProfileRequirement,
        worker_default: Option<&str>,
    ) -> (outcome: bool)
        ensures
            outcome == self.serves(requirement, text_of(worker_default)),
    {
        match (self, requirement) {
            (
                ServiceProfile::GenerationHttp {
                    model_ids,
                    message_content_forms,
                    media_placements,
                    input_modalities,
                    output_modalities,
                    chat_audio_formats,
                    stream_modes,
                },
                ProfileRequirement::GenerationHttp {
                    model,
                    message_content_forms: required_forms,
                    media_placements: required_placements,
                    input_modalities: required_inputs,
                    output_modalities: required_outputs,
                    audio_format,
                    stream_mode,
                },
            ) => {
                model.matches_profile_models(model_ids, worker_default) && contains_all(
                    message_content_forms,
                    required_forms,
                ) && contains_all(media_placements, required_placements) && contains_all(
                    input_modalities,
                    required_inputs,
                ) && contains_all(output_modalities, required_outputs) && admits(
                    chat_audio_formats,
                    audio_format,
                ) && contains(stream_modes, stream_mode)
            },
            (
                ServiceProfile::SpeechHttp {
                    model_ids,
                    response_formats,
                    stream_modes,
                    tasks,
                    reference_forms,
                    voice_name_policy,
                },
                ProfileRequirement::SpeechHttp {
                    model,
                    response_format,
                    stream_mode,
                    task,
                    reference_forms: required_references,
                    named_voice,
                },
            ) => {
                model.matches_profile_models(model_ids, worker_default) && contains(
                    response_formats,
                    response_format,
                ) && contains(stream_modes, stream_mode) && admits(tasks, task)
                    && matches_speech_references(
                    reference_forms,
                    required_references,
                    *named_voice,
                    *voice_name_policy,
                )
            },
            (
                ServiceProfile::SpeechBatch {
                    model_ids,
                    response_formats,
                    tasks,
                    reference_forms,
                    voice_name_policy,
                    max_batch_size,
                },
                ProfileRequirement::SpeechBatch {
                    models,
                    response_formats: required_formats,
                    tasks: required_tasks,
                    reference_forms: required_references,
                    named_voice,
                    batch_size,
                },
            ) => {
                all_served(models, model_ids, worker_default) && *batch_size <= *max_batch_size
                    && contains_all(response_formats, required_formats) && contains_all(
                    tasks,
                    required_tasks,
                ) && matches_speech_references(
                    reference_forms,
                    required_references,
                    *named_voice,
                    *voice_name_policy,
                )
            },
            (
                ServiceProfile::TranscriptionHttp { model_ids, task, response_formats, stream_modes },
                ProfileRequirement::TranscriptionHttp {
                    model,
                    task: required_task,
                    response_format,
                    stream_mode,
                },
            ) => {
                let model_served = if *required_task == SpeechToTextTask::Translate {
                    model.matches_translation(model_ids, worker_default)
                } else {
                    model.matches_profile_models(model_ids, worker_default)
                };
                model_served && *task == *required_task && contains(
                    response_formats,
                    response_format,
                ) && contains(stream_modes, stream_mode)
            },
            (
                ServiceProfile::SpeechWebsocket {
                    model_ids,
                    response_formats,
                    stream_modes,
                    tasks,
                    reference_forms,
                    voice_name_policy,
                },
                ProfileRequirement::SpeechWebsocket {
                    model,
                    response_format,
                    stream_mode,
                    task,
                    reference_forms: required_references,
                    named_voice,
                },
            ) => {
                model.matches_profile_models(model_ids, worker_default) && admits(
                    response_formats,
                    response_format,
                ) && contains(stream_modes, stream_mode) && admits(tasks, task)
                    && matches_speech_references(
                    reference_forms,
                    required_references,
                    *named_voice,
                    *voice_name_policy,
                )
            },
            (
                ServiceProfile::RealtimeWebsocket,
                ProfileRequirement::RealtimeWebsocket { model },
            ) => match model {
                Some(model) => same_optional_text(worker_default, Some(model.as_str())),
                None => true,
            },
            _ => false,
        }
    }
}

} // verus!
