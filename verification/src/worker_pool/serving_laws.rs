//! Which rows serve which requests, on the fields of both.

use vstd::prelude::*;

use crate::text::{all_in, keys};
use crate::worker_pool::profile::{
    ModelSelection, ProfileRequirement, ReferenceForm, ServiceProfile,
};

verus! {

/// A named model is run only by a row that lists it.
pub proof fn law_named_model_must_be_listed(
    id: String,
    models: Vec<String>,
    default: Option<Seq<char>>,
)
    ensures
        ModelSelection::Explicit(id).served_by(keys(models@), default) <==> exists|i: int|
            0 <= i < models@.len() && (#[trigger] models@[i])@ == id@,
{
    let listed = keys(models@);
    if listed.contains(id@) {
        let i = listed.index_of(id@);
        assert(models@[i]@ == id@);
    }
    if exists|i: int| 0 <= i < models@.len() && (#[trigger] models@[i])@ == id@ {
        let i = choose|i: int| 0 <= i < models@.len() && (#[trigger] models@[i])@ == id@;
        assert(listed[i] == id@);
    }
}

/// A model that is expected to be the default is run only where it is the
/// default and is listed.
pub proof fn law_expected_default_must_be_the_default(
    expected: String,
    models: Vec<String>,
    default: Option<Seq<char>>,
)
    ensures
        (ModelSelection::WorkerDefault { expected_model_id: expected }).served_by(
            keys(models@),
            default,
        ) <==> default == Some(expected@) && exists|i: int|
            0 <= i < models@.len() && (#[trigger] models@[i])@ == expected@,
{
    law_named_model_must_be_listed(expected, models, default);
}

/// A model that is left open is run by a row that lists the default, and by
/// any row of a worker that has none.
pub proof fn law_open_model_runs_on_the_default(models: Vec<String>, default: Option<Seq<char>>)
    ensures
        ModelSelection::UnresolvedDefault.served_by(keys(models@), default) <==> forall|id: Seq<char>|
            default == Some(id) ==> exists|i: int|
                0 <= i < models@.len() && (#[trigger] models@[i])@ == id,
{
    let listed = keys(models@);
    if let Some(id) = default {
        if listed.contains(id) {
            let i = listed.index_of(id);
            assert(models@[i]@ == id);
        }
        if exists|i: int| 0 <= i < models@.len() && (#[trigger] models@[i])@ == id {
            let i = choose|i: int| 0 <= i < models@.len() && (#[trigger] models@[i])@ == id;
            assert(listed[i] == id);
        }
    }
}

/// Translation runs on the default model alone: whatever the request says of
/// its model, the worker has a default, lists it, and is asked for no other.
pub proof fn law_translation_runs_on_the_default_alone(
    model: ModelSelection,
    models: Vec<String>,
    default: Option<Seq<char>>,
)
    ensures
        model.translated_by(keys(models@), default) <==> {
            &&& default is Some
            &&& exists|i: int| 0 <= i < models@.len() && (#[trigger] models@[i])@ == default->Some_0
            &&& model matches ModelSelection::Explicit(id) ==> default == Some(id@)
            &&& model matches ModelSelection::WorkerDefault { expected_model_id } ==> default
                == Some(expected_model_id@)
        },
{
    let listed = keys(models@);
    if let Some(id) = default {
        if listed.contains(id) {
            let i = listed.index_of(id);
            assert(models@[i]@ == id);
        }
        if exists|i: int| 0 <= i < models@.len() && (#[trigger] models@[i])@ == id {
            let i = choose|i: int| 0 <= i < models@.len() && (#[trigger] models@[i])@ == id;
            assert(listed[i] == id);
        }
    }
}

/// Listing every member of another list is holding its set.
proof fn lemma_all_in_is_subset<V>(inner: Seq<V>, outer: Seq<V>)
    ensures
        all_in(inner, outer) <==> inner.to_set().subset_of(outer.to_set()),
{
    if all_in(inner, outer) {
        assert forall|v: V| inner.to_set().contains(v) implies outer.to_set().contains(v) by {
            let i = inner.index_of(v);
            assert(inner[i] == v);
        }
    }
    if inner.to_set().subset_of(outer.to_set()) {
        assert forall|i: int| 0 <= i < inner.len() implies outer.contains(#[trigger] inner[i]) by {
            assert(inner.to_set().contains(inner[i]));
        }
    }
}

/// A chat row serves a chat request exactly when it runs its model and lists
/// every content form, placement and modality of it, its audio format, if it
/// has one, and its stream mode.
pub proof fn law_chat_row_serves_what_it_lists(
    row: ServiceProfile,
    needs: ProfileRequirement,
    default: Option<Seq<char>>,
)
    requires
        row is GenerationHttp,
        needs is GenerationHttp,
    ensures
        row.serves(&needs, default) <==> {
            &&& needs->GenerationHttp_model.served_by(keys(row->GenerationHttp_model_ids@), default)
            &&& needs->GenerationHttp_message_content_forms@.to_set().subset_of(
                row->GenerationHttp_message_content_forms@.to_set(),
            )
            &&& needs->GenerationHttp_media_placements@.to_set().subset_of(
                row->GenerationHttp_media_placements@.to_set(),
            )
            &&& needs->GenerationHttp_input_modalities@.to_set().subset_of(
                row->GenerationHttp_input_modalities@.to_set(),
            )
            &&& needs->GenerationHttp_output_modalities@.to_set().subset_of(
                row->GenerationHttp_output_modalities@.to_set(),
            )
            &&& needs->GenerationHttp_audio_format matches Some(value) ==> row->GenerationHttp_chat_audio_formats@.contains(
                value,
            )
            &&& row->GenerationHttp_stream_modes@.contains(needs->GenerationHttp_stream_mode)
        },
{
    assert(keys(row->GenerationHttp_message_content_forms@) =~= row->GenerationHttp_message_content_forms@);
    assert(keys(row->GenerationHttp_media_placements@) =~= row->GenerationHttp_media_placements@);
    assert(keys(row->GenerationHttp_input_modalities@) =~= row->GenerationHttp_input_modalities@);
    assert(keys(row->GenerationHttp_output_modalities@) =~= row->GenerationHttp_output_modalities@);
    assert(keys(row->GenerationHttp_chat_audio_formats@) =~= row->GenerationHttp_chat_audio_formats@);
    assert(keys(row->GenerationHttp_stream_modes@) =~= row->GenerationHttp_stream_modes@);
    assert(keys(needs->GenerationHttp_message_content_forms@) =~= needs->GenerationHttp_message_content_forms@);
    lemma_all_in_is_subset(needs->GenerationHttp_message_content_forms@, row->GenerationHttp_message_content_forms@);
    assert(keys(needs->GenerationHttp_media_placements@) =~= needs->GenerationHttp_media_placements@);
    lemma_all_in_is_subset(needs->GenerationHttp_media_placements@, row->GenerationHttp_media_placements@);
    assert(keys(needs->GenerationHttp_input_modalities@) =~= needs->GenerationHttp_input_modalities@);
    lemma_all_in_is_subset(needs->GenerationHttp_input_modalities@, row->GenerationHttp_input_modalities@);
    assert(keys(needs->GenerationHttp_output_modalities@) =~= needs->GenerationHttp_output_modalities@);
    lemma_all_in_is_subset(needs->GenerationHttp_output_modalities@, row->GenerationHttp_output_modalities@);
}

/// A speech row serves a speech request exactly when it runs its model, lists
/// its format, stream mode, task and reference forms, and, where voice names
/// are presets, takes a named voice without a sample.
pub proof fn law_speech_row_serves_what_it_lists(
    row: ServiceProfile,
    needs: ProfileRequirement,
    default: Option<Seq<char>>,
)
    requires
        row is SpeechHttp,
        needs is SpeechHttp,
    ensures
        row.serves(&needs, default) <==> {
            &&& needs->SpeechHttp_model.served_by(keys(row->SpeechHttp_model_ids@), default)
            &&& row->SpeechHttp_response_formats@.contains(needs->SpeechHttp_response_format)
            &&& row->SpeechHttp_stream_modes@.contains(needs->SpeechHttp_stream_mode)
            &&& needs->SpeechHttp_task matches Some(value) ==> row->SpeechHttp_tasks@.contains(
                value,
            )
            &&& needs->SpeechHttp_reference_forms@.to_set().subset_of(
                row->SpeechHttp_reference_forms@.to_set(),
            )
            &&& needs->SpeechHttp_named_voice && row->SpeechHttp_voice_name_policy is Preset
                ==> row->SpeechHttp_reference_forms@.contains(ReferenceForm::Absent)
        },
{
    assert(keys(row->SpeechHttp_response_formats@) =~= row->SpeechHttp_response_formats@);
    assert(keys(row->SpeechHttp_stream_modes@) =~= row->SpeechHttp_stream_modes@);
    assert(keys(row->SpeechHttp_tasks@) =~= row->SpeechHttp_tasks@);
    assert(keys(row->SpeechHttp_reference_forms@) =~= row->SpeechHttp_reference_forms@);
    assert(keys(needs->SpeechHttp_reference_forms@) =~= needs->SpeechHttp_reference_forms@);
    lemma_all_in_is_subset(needs->SpeechHttp_reference_forms@, row->SpeechHttp_reference_forms@);
}

/// A speech session row serves a session exactly when it runs its model, lists
/// its format, stream mode, task and reference forms, and, where voice names
/// are presets, takes a named voice without a sample.
pub proof fn law_speech_session_row_serves_what_it_lists(
    row: ServiceProfile,
    needs: ProfileRequirement,
    default: Option<Seq<char>>,
)
    requires
        row is SpeechWebsocket,
        needs is SpeechWebsocket,
    ensures
        row.serves(&needs, default) <==> {
            &&& needs->SpeechWebsocket_model.served_by(keys(row->SpeechWebsocket_model_ids@), default)
            &&& needs->SpeechWebsocket_response_format matches Some(value) ==> row->SpeechWebsocket_response_formats@.contains(
                value,
            )
            &&& row->SpeechWebsocket_stream_modes@.contains(needs->SpeechWebsocket_stream_mode)
            &&& needs->SpeechWebsocket_task matches Some(value) ==> row->SpeechWebsocket_tasks@.contains(
                value,
            )
            &&& needs->SpeechWebsocket_reference_forms@.to_set().subset_of(
                row->SpeechWebsocket_reference_forms@.to_set(),
            )
            &&& needs->SpeechWebsocket_named_voice && row->SpeechWebsocket_voice_name_policy is Preset
                ==> row->SpeechWebsocket_reference_forms@.contains(ReferenceForm::Absent)
        },
{
    assert(keys(row->SpeechWebsocket_response_formats@) =~= row->SpeechWebsocket_response_formats@);
    assert(keys(row->SpeechWebsocket_stream_modes@) =~= row->SpeechWebsocket_stream_modes@);
    assert(keys(row->SpeechWebsocket_tasks@) =~= row->SpeechWebsocket_tasks@);
    assert(keys(row->SpeechWebsocket_reference_forms@) =~= row->SpeechWebsocket_reference_forms@);
    assert(keys(needs->SpeechWebsocket_reference_forms@) =~= needs->SpeechWebsocket_reference_forms@);
    lemma_all_in_is_subset(needs->SpeechWebsocket_reference_forms@, row->SpeechWebsocket_reference_forms@);
}

/// A batch row serves a batch exactly when it runs every model of it, lists all
/// its formats, tasks and reference forms, takes batches of its size, and,
/// where voice names are presets, takes a named voice without a sample.
pub proof fn law_batch_row_serves_what_it_lists(
    row: ServiceProfile,
    needs: ProfileRequirement,
    default: Option<Seq<char>>,
)
    requires
        row is SpeechBatch,
        needs is SpeechBatch,
    ensures
        row.serves(&needs, default) <==> {
            &&& forall|i: int|
                0 <= i < needs->SpeechBatch_models@.len() ==> (
                #[trigger] needs->SpeechBatch_models@[i]).served_by(
                    keys(row->SpeechBatch_model_ids@),
                    default,
                )
            &&& needs->SpeechBatch_response_formats@.to_set().subset_of(
                row->SpeechBatch_response_formats@.to_set(),
            )
            &&& needs->SpeechBatch_tasks@.to_set().subset_of(
                row->SpeechBatch_tasks@.to_set(),
            )
            &&& needs->SpeechBatch_reference_forms@.to_set().subset_of(
                row->SpeechBatch_reference_forms@.to_set(),
            )
            &&& row->SpeechBatch_max_batch_size >= needs->SpeechBatch_batch_size
            &&& needs->SpeechBatch_named_voice && row->SpeechBatch_voice_name_policy is Preset
                ==> row->SpeechBatch_reference_forms@.contains(ReferenceForm::Absent)
        },
{
    assert(keys(row->SpeechBatch_response_formats@) =~= row->SpeechBatch_response_formats@);
    assert(keys(row->SpeechBatch_tasks@) =~= row->SpeechBatch_tasks@);
    assert(keys(row->SpeechBatch_reference_forms@) =~= row->SpeechBatch_reference_forms@);
    assert(keys(needs->SpeechBatch_response_formats@) =~= needs->SpeechBatch_response_formats@);
    lemma_all_in_is_subset(needs->SpeechBatch_response_formats@, row->SpeechBatch_response_formats@);
    assert(keys(needs->SpeechBatch_tasks@) =~= needs->SpeechBatch_tasks@);
    lemma_all_in_is_subset(needs->SpeechBatch_tasks@, row->SpeechBatch_tasks@);
    assert(keys(needs->SpeechBatch_reference_forms@) =~= needs->SpeechBatch_reference_forms@);
    lemma_all_in_is_subset(needs->SpeechBatch_reference_forms@, row->SpeechBatch_reference_forms@);
}

/// A recognition row serves a recognition request exactly when it is for its
/// task, runs its model for that task, and lists its format and stream mode.
pub proof fn law_recognition_row_serves_what_it_lists(
    row: ServiceProfile,
    needs: ProfileRequirement,
    default: Option<Seq<char>>,
)
    requires
        row is TranscriptionHttp,
        needs is TranscriptionHttp,
    ensures
        row.serves(&needs, default) <==> {
            &&& row->TranscriptionHttp_task == needs->TranscriptionHttp_task
            &&& row->TranscriptionHttp_task is Transcribe
                ==> needs->TranscriptionHttp_model.served_by(
                keys(row->TranscriptionHttp_model_ids@),
                default,
            )
            &&& row->TranscriptionHttp_task is Translate
                ==> needs->TranscriptionHttp_model.translated_by(
                keys(row->TranscriptionHttp_model_ids@),
                default,
            )
            &&& row->TranscriptionHttp_response_formats@.contains(needs->TranscriptionHttp_response_format)
            &&& row->TranscriptionHttp_stream_modes@.contains(needs->TranscriptionHttp_stream_mode)
        },
{
    assert(keys(row->TranscriptionHttp_response_formats@) =~= row->TranscriptionHttp_response_formats@);
    assert(keys(row->TranscriptionHttp_stream_modes@) =~= row->TranscriptionHttp_stream_modes@);
}

/// A realtime row serves a session that names no model, and one that names the
/// default of the worker.
pub proof fn law_realtime_row_serves_its_default(
    row: ServiceProfile,
    needs: ProfileRequirement,
    default: Option<Seq<char>>,
)
    requires
        row is RealtimeWebsocket,
        needs is RealtimeWebsocket,
    ensures
        needs->RealtimeWebsocket_model is None ==> row.serves(&needs, default),
        needs->RealtimeWebsocket_model matches Some(id) ==> (row.serves(&needs, default)
            <==> default == Some(id@)),
{
}

/// A row serves requests of its own kind only.
pub proof fn law_row_serves_its_own_kind(
    row: ServiceProfile,
    needs: ProfileRequirement,
    default: Option<Seq<char>>,
)
    requires
        row.serves(&needs, default),
    ensures
        row is GenerationHttp <==> needs is GenerationHttp,
        row is SpeechHttp <==> needs is SpeechHttp,
        row is SpeechBatch <==> needs is SpeechBatch,
        row is TranscriptionHttp <==> needs is TranscriptionHttp,
        row is SpeechWebsocket <==> needs is SpeechWebsocket,
        row is RealtimeWebsocket <==> needs is RealtimeWebsocket,
{
}

/// Two chat rows are equivalent exactly when each list of the one is as
/// long as that list of the other and holds nothing else, and all else is equal.
pub proof fn law_equivalent_chat_rows_list_the_same(left: ServiceProfile, right: ServiceProfile)
    requires
        left is GenerationHttp,
        right is GenerationHttp,
    ensures
        left.equivalent(&right) <==> {
            &&& left->GenerationHttp_model_ids@.len() == right->GenerationHttp_model_ids@.len()
            &&& keys(left->GenerationHttp_model_ids@).to_set().subset_of(
                keys(right->GenerationHttp_model_ids@).to_set(),
            )
            &&& left->GenerationHttp_message_content_forms@.len() == right->GenerationHttp_message_content_forms@.len()
            &&& left->GenerationHttp_message_content_forms@.to_set().subset_of(
                right->GenerationHttp_message_content_forms@.to_set(),
            )
            &&& left->GenerationHttp_media_placements@.len() == right->GenerationHttp_media_placements@.len()
            &&& left->GenerationHttp_media_placements@.to_set().subset_of(
                right->GenerationHttp_media_placements@.to_set(),
            )
            &&& left->GenerationHttp_input_modalities@.len() == right->GenerationHttp_input_modalities@.len()
            &&& left->GenerationHttp_input_modalities@.to_set().subset_of(
                right->GenerationHttp_input_modalities@.to_set(),
            )
            &&& left->GenerationHttp_output_modalities@.len() == right->GenerationHttp_output_modalities@.len()
            &&& left->GenerationHttp_output_modalities@.to_set().subset_of(
                right->GenerationHttp_output_modalities@.to_set(),
            )
            &&& left->GenerationHttp_chat_audio_formats@.len() == right->GenerationHttp_chat_audio_formats@.len()
            &&& left->GenerationHttp_chat_audio_formats@.to_set().subset_of(
                right->GenerationHttp_chat_audio_formats@.to_set(),
            )
            &&& left->GenerationHttp_stream_modes@.len() == right->GenerationHttp_stream_modes@.len()
            &&& left->GenerationHttp_stream_modes@.to_set().subset_of(
                right->GenerationHttp_stream_modes@.to_set(),
            )
        },
{
    lemma_all_in_is_subset(
        keys(left->GenerationHttp_model_ids@),
        keys(right->GenerationHttp_model_ids@),
    );
    assert(keys(left->GenerationHttp_message_content_forms@) =~= left->GenerationHttp_message_content_forms@);
    assert(keys(right->GenerationHttp_message_content_forms@) =~= right->GenerationHttp_message_content_forms@);
    lemma_all_in_is_subset(left->GenerationHttp_message_content_forms@, right->GenerationHttp_message_content_forms@);
    assert(keys(left->GenerationHttp_media_placements@) =~= left->GenerationHttp_media_placements@);
    assert(keys(right->GenerationHttp_media_placements@) =~= right->GenerationHttp_media_placements@);
    lemma_all_in_is_subset(left->GenerationHttp_media_placements@, right->GenerationHttp_media_placements@);
    assert(keys(left->GenerationHttp_input_modalities@) =~= left->GenerationHttp_input_modalities@);
    assert(keys(right->GenerationHttp_input_modalities@) =~= right->GenerationHttp_input_modalities@);
    lemma_all_in_is_subset(left->GenerationHttp_input_modalities@, right->GenerationHttp_input_modalities@);
    assert(keys(left->GenerationHttp_output_modalities@) =~= left->GenerationHttp_output_modalities@);
    assert(keys(right->GenerationHttp_output_modalities@) =~= right->GenerationHttp_output_modalities@);
    lemma_all_in_is_subset(left->GenerationHttp_output_modalities@, right->GenerationHttp_output_modalities@);
    assert(keys(left->GenerationHttp_chat_audio_formats@) =~= left->GenerationHttp_chat_audio_formats@);
    assert(keys(right->GenerationHttp_chat_audio_formats@) =~= right->GenerationHttp_chat_audio_formats@);
    lemma_all_in_is_subset(left->GenerationHttp_chat_audio_formats@, right->GenerationHttp_chat_audio_formats@);
    assert(keys(left->GenerationHttp_stream_modes@) =~= left->GenerationHttp_stream_modes@);
    assert(keys(right->GenerationHttp_stream_modes@) =~= right->GenerationHttp_stream_modes@);
    lemma_all_in_is_subset(left->GenerationHttp_stream_modes@, right->GenerationHttp_stream_modes@);
}

/// Two speech rows are equivalent exactly when each list of the one is as
/// long as that list of the other and holds nothing else, and all else is equal.
pub proof fn law_equivalent_speech_rows_list_the_same(left: ServiceProfile, right: ServiceProfile)
    requires
        left is SpeechHttp,
        right is SpeechHttp,
    ensures
        left.equivalent(&right) <==> {
            &&& left->SpeechHttp_voice_name_policy == right->SpeechHttp_voice_name_policy
            &&& left->SpeechHttp_model_ids@.len() == right->SpeechHttp_model_ids@.len()
            &&& keys(left->SpeechHttp_model_ids@).to_set().subset_of(
                keys(right->SpeechHttp_model_ids@).to_set(),
            )
            &&& left->SpeechHttp_response_formats@.len() == right->SpeechHttp_response_formats@.len()
            &&& left->SpeechHttp_response_formats@.to_set().subset_of(
                right->SpeechHttp_response_formats@.to_set(),
            )
            &&& left->SpeechHttp_stream_modes@.len() == right->SpeechHttp_stream_modes@.len()
            &&& left->SpeechHttp_stream_modes@.to_set().subset_of(
                right->SpeechHttp_stream_modes@.to_set(),
            )
            &&& left->SpeechHttp_tasks@.len() == right->SpeechHttp_tasks@.len()
            &&& left->SpeechHttp_tasks@.to_set().subset_of(
                right->SpeechHttp_tasks@.to_set(),
            )
            &&& left->SpeechHttp_reference_forms@.len() == right->SpeechHttp_reference_forms@.len()
            &&& left->SpeechHttp_reference_forms@.to_set().subset_of(
                right->SpeechHttp_reference_forms@.to_set(),
            )
        },
{
    lemma_all_in_is_subset(
        keys(left->SpeechHttp_model_ids@),
        keys(right->SpeechHttp_model_ids@),
    );
    assert(keys(left->SpeechHttp_response_formats@) =~= left->SpeechHttp_response_formats@);
    assert(keys(right->SpeechHttp_response_formats@) =~= right->SpeechHttp_response_formats@);
    lemma_all_in_is_subset(left->SpeechHttp_response_formats@, right->SpeechHttp_response_formats@);
    assert(keys(left->SpeechHttp_stream_modes@) =~= left->SpeechHttp_stream_modes@);
    assert(keys(right->SpeechHttp_stream_modes@) =~= right->SpeechHttp_stream_modes@);
    lemma_all_in_is_subset(left->SpeechHttp_stream_modes@, right->SpeechHttp_stream_modes@);
    assert(keys(left->SpeechHttp_tasks@) =~= left->SpeechHttp_tasks@);
    assert(keys(right->SpeechHttp_tasks@) =~= right->SpeechHttp_tasks@);
    lemma_all_in_is_subset(left->SpeechHttp_tasks@, right->SpeechHttp_tasks@);
    assert(keys(left->SpeechHttp_reference_forms@) =~= left->SpeechHttp_reference_forms@);
    assert(keys(right->SpeechHttp_reference_forms@) =~= right->SpeechHttp_reference_forms@);
    lemma_all_in_is_subset(left->SpeechHttp_reference_forms@, right->SpeechHttp_reference_forms@);
}

/// Two batch rows are equivalent exactly when each list of the one is as
/// long as that list of the other and holds nothing else, and all else is equal.
pub proof fn law_equivalent_batch_rows_list_the_same(left: ServiceProfile, right: ServiceProfile)
    requires
        left is SpeechBatch,
        right is SpeechBatch,
    ensures
        left.equivalent(&right) <==> {
            &&& left->SpeechBatch_voice_name_policy == right->SpeechBatch_voice_name_policy
            &&& left->SpeechBatch_max_batch_size == right->SpeechBatch_max_batch_size
            &&& left->SpeechBatch_model_ids@.len() == right->SpeechBatch_model_ids@.len()
            &&& keys(left->SpeechBatch_model_ids@).to_set().subset_of(
                keys(right->SpeechBatch_model_ids@).to_set(),
            )
            &&& left->SpeechBatch_response_formats@.len() == right->SpeechBatch_response_formats@.len()
            &&& left->SpeechBatch_response_formats@.to_set().subset_of(
                right->SpeechBatch_response_formats@.to_set(),
            )
            &&& left->SpeechBatch_tasks@.len() == right->SpeechBatch_tasks@.len()
            &&& left->SpeechBatch_tasks@.to_set().subset_of(
                right->SpeechBatch_tasks@.to_set(),
            )
            &&& left->SpeechBatch_reference_forms@.len() == right->SpeechBatch_reference_forms@.len()
            &&& left->SpeechBatch_reference_forms@.to_set().subset_of(
                right->SpeechBatch_reference_forms@.to_set(),
            )
        },
{
    lemma_all_in_is_subset(
        keys(left->SpeechBatch_model_ids@),
        keys(right->SpeechBatch_model_ids@),
    );
    assert(keys(left->SpeechBatch_response_formats@) =~= left->SpeechBatch_response_formats@);
    assert(keys(right->SpeechBatch_response_formats@) =~= right->SpeechBatch_response_formats@);
    lemma_all_in_is_subset(left->SpeechBatch_response_formats@, right->SpeechBatch_response_formats@);
    assert(keys(left->SpeechBatch_tasks@) =~= left->SpeechBatch_tasks@);
    assert(keys(right->SpeechBatch_tasks@) =~= right->SpeechBatch_tasks@);
    lemma_all_in_is_subset(left->SpeechBatch_tasks@, right->SpeechBatch_tasks@);
    assert(keys(left->SpeechBatch_reference_forms@) =~= left->SpeechBatch_reference_forms@);
    assert(keys(right->SpeechBatch_reference_forms@) =~= right->SpeechBatch_reference_forms@);
    lemma_all_in_is_subset(left->SpeechBatch_reference_forms@, right->SpeechBatch_reference_forms@);
}

/// Two recognition rows are equivalent exactly when each list of the one is as
/// long as that list of the other and holds nothing else, and all else is equal.
pub proof fn law_equivalent_recognition_rows_list_the_same(left: ServiceProfile, right: ServiceProfile)
    requires
        left is TranscriptionHttp,
        right is TranscriptionHttp,
    ensures
        left.equivalent(&right) <==> {
            &&& left->TranscriptionHttp_task == right->TranscriptionHttp_task
            &&& left->TranscriptionHttp_model_ids@.len() == right->TranscriptionHttp_model_ids@.len()
            &&& keys(left->TranscriptionHttp_model_ids@).to_set().subset_of(
                keys(right->TranscriptionHttp_model_ids@).to_set(),
            )
            &&& left->TranscriptionHttp_response_formats@.len() == right->TranscriptionHttp_response_formats@.len()
            &&& left->TranscriptionHttp_response_formats@.to_set().subset_of(
                right->TranscriptionHttp_response_formats@.to_set(),
            )
            &&& left->TranscriptionHttp_stream_modes@.len() == right->TranscriptionHttp_stream_modes@.len()
            &&& left->TranscriptionHttp_stream_modes@.to_set().subset_of(
                right->TranscriptionHttp_stream_modes@.to_set(),
            )
        },
{
    lemma_all_in_is_subset(
        keys(left->TranscriptionHttp_model_ids@),
        keys(right->TranscriptionHttp_model_ids@),
    );
    assert(keys(left->TranscriptionHttp_response_formats@) =~= left->TranscriptionHttp_response_formats@);
    assert(keys(right->TranscriptionHttp_response_formats@) =~= right->TranscriptionHttp_response_formats@);
    lemma_all_in_is_subset(left->TranscriptionHttp_response_formats@, right->TranscriptionHttp_response_formats@);
    assert(keys(left->TranscriptionHttp_stream_modes@) =~= left->TranscriptionHttp_stream_modes@);
    assert(keys(right->TranscriptionHttp_stream_modes@) =~= right->TranscriptionHttp_stream_modes@);
    lemma_all_in_is_subset(left->TranscriptionHttp_stream_modes@, right->TranscriptionHttp_stream_modes@);
}

/// Two speech session rows are equivalent exactly when each list of the one is as
/// long as that list of the other and holds nothing else, and all else is equal.
pub proof fn law_equivalent_speech_session_rows_list_the_same(left: ServiceProfile, right: ServiceProfile)
    requires
        left is SpeechWebsocket,
        right is SpeechWebsocket,
    ensures
        left.equivalent(&right) <==> {
            &&& left->SpeechWebsocket_voice_name_policy == right->SpeechWebsocket_voice_name_policy
            &&& left->SpeechWebsocket_model_ids@.len() == right->SpeechWebsocket_model_ids@.len()
            &&& keys(left->SpeechWebsocket_model_ids@).to_set().subset_of(
                keys(right->SpeechWebsocket_model_ids@).to_set(),
            )
            &&& left->SpeechWebsocket_response_formats@.len() == right->SpeechWebsocket_response_formats@.len()
            &&& left->SpeechWebsocket_response_formats@.to_set().subset_of(
                right->SpeechWebsocket_response_formats@.to_set(),
            )
            &&& left->SpeechWebsocket_stream_modes@.len() == right->SpeechWebsocket_stream_modes@.len()
            &&& left->SpeechWebsocket_stream_modes@.to_set().subset_of(
                right->SpeechWebsocket_stream_modes@.to_set(),
            )
            &&& left->SpeechWebsocket_tasks@.len() == right->SpeechWebsocket_tasks@.len()
            &&& left->SpeechWebsocket_tasks@.to_set().subset_of(
                right->SpeechWebsocket_tasks@.to_set(),
            )
            &&& left->SpeechWebsocket_reference_forms@.len() == right->SpeechWebsocket_reference_forms@.len()
            &&& left->SpeechWebsocket_reference_forms@.to_set().subset_of(
                right->SpeechWebsocket_reference_forms@.to_set(),
            )
        },
{
    lemma_all_in_is_subset(
        keys(left->SpeechWebsocket_model_ids@),
        keys(right->SpeechWebsocket_model_ids@),
    );
    assert(keys(left->SpeechWebsocket_response_formats@) =~= left->SpeechWebsocket_response_formats@);
    assert(keys(right->SpeechWebsocket_response_formats@) =~= right->SpeechWebsocket_response_formats@);
    lemma_all_in_is_subset(left->SpeechWebsocket_response_formats@, right->SpeechWebsocket_response_formats@);
    assert(keys(left->SpeechWebsocket_stream_modes@) =~= left->SpeechWebsocket_stream_modes@);
    assert(keys(right->SpeechWebsocket_stream_modes@) =~= right->SpeechWebsocket_stream_modes@);
    lemma_all_in_is_subset(left->SpeechWebsocket_stream_modes@, right->SpeechWebsocket_stream_modes@);
    assert(keys(left->SpeechWebsocket_tasks@) =~= left->SpeechWebsocket_tasks@);
    assert(keys(right->SpeechWebsocket_tasks@) =~= right->SpeechWebsocket_tasks@);
    lemma_all_in_is_subset(left->SpeechWebsocket_tasks@, right->SpeechWebsocket_tasks@);
    assert(keys(left->SpeechWebsocket_reference_forms@) =~= left->SpeechWebsocket_reference_forms@);
    assert(keys(right->SpeechWebsocket_reference_forms@) =~= right->SpeechWebsocket_reference_forms@);
    lemma_all_in_is_subset(left->SpeechWebsocket_reference_forms@, right->SpeechWebsocket_reference_forms@);
}

/// Realtime rows are equivalent, and rows of different kinds are not.
pub proof fn law_only_rows_of_one_kind_are_equivalent(left: ServiceProfile, right: ServiceProfile)
    ensures
        left is RealtimeWebsocket && right is RealtimeWebsocket ==> left.equivalent(&right),
        left.equivalent(&right) ==> {
            &&& left is GenerationHttp <==> right is GenerationHttp
            &&& left is SpeechHttp <==> right is SpeechHttp
            &&& left is SpeechBatch <==> right is SpeechBatch
            &&& left is TranscriptionHttp <==> right is TranscriptionHttp
            &&& left is SpeechWebsocket <==> right is SpeechWebsocket
            &&& left is RealtimeWebsocket <==> right is RealtimeWebsocket
        },
{
}

} // verus!
