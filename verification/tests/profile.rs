use sgl_omni_router::worker_pool::profile::{
    ChatAudioFormat, InputModality, MediaPlacement, MessageContentForm, ModelSelection,
    OutputModality, ProfileRequirement, ReferenceForm, ServiceProfile, SpeechResponseFormat,
    SpeechTask, SpeechToTextTask, StreamMode, TranscriptionResponseFormat, VoiceNamePolicy,
    WorkerCapacityConfig, WorkerConfig, MAX_WORKERS,
};
use sgl_omni_router::worker_pool::validation::validate_workers;

fn profile(model: &str) -> ServiceProfile {
    ServiceProfile::GenerationHttp {
        model_ids: vec![model.to_owned()],
        message_content_forms: vec![MessageContentForm::String],
        media_placements: Vec::new(),
        input_modalities: vec![InputModality::Text],
        output_modalities: vec![OutputModality::Text],
        chat_audio_formats: Vec::new(),
        stream_modes: vec![StreamMode::NonStreaming],
    }
}

fn worker() -> WorkerConfig {
    WorkerConfig {
        worker_id: String::from("worker-a"),
        base_url: String::from("http://127.0.0.1:8000/"),
        trust_domain: String::from("local"),
        default_model_id: Some(String::from("omni")),
        health_path: String::from("/health"),
        capacity: WorkerCapacityConfig::default(),
        service_profiles: vec![profile("omni")],
    }
}

#[test]
fn stable_worker_shape_and_correlated_generation_row_validate() {
    assert!(validate_workers(&[worker()]).is_ok());
    let mut maximum = Vec::new();
    for index in 0..MAX_WORKERS {
        let mut item = worker();
        item.worker_id = format!("worker-{index}");
        item.base_url = format!("http://127.0.0.1:{}/", 10_000 + index);
        maximum.push(item);
    }
    assert!(validate_workers(&maximum).is_ok());
}

#[test]
fn strict_profile_and_default_correlation_fail_closed() {
    let mut missing_default = worker();
    missing_default.default_model_id = Some(String::from("other"));
    assert!(validate_workers(&[missing_default]).is_err());

    let mut duplicate = worker();
    duplicate.service_profiles.push(profile("omni"));
    assert!(validate_workers(&[duplicate]).is_err());

    let mut invalid_audio = worker();
    invalid_audio.service_profiles = vec![ServiceProfile::GenerationHttp {
        model_ids: vec![String::from("omni")],
        message_content_forms: vec![MessageContentForm::TypedParts],
        media_placements: vec![MediaPlacement::TypedParts],
        input_modalities: vec![InputModality::Audio],
        output_modalities: vec![OutputModality::Audio],
        chat_audio_formats: Vec::new(),
        stream_modes: vec![StreamMode::Streaming],
    }];
    assert!(validate_workers(&[invalid_audio]).is_err());
}

#[test]
fn streaming_speech_rows_are_pcm_only() {
    let speech = |response_formats| ServiceProfile::SpeechHttp {
        model_ids: vec![String::from("tts")],
        response_formats,
        stream_modes: vec![StreamMode::NonStreaming, StreamMode::Streaming],
        tasks: vec![SpeechTask::TextToSpeech],
        reference_forms: vec![ReferenceForm::Absent],
        voice_name_policy: VoiceNamePolicy::Preset,
    };
    assert!(speech(vec![SpeechResponseFormat::Pcm]).validate().is_ok());
    assert!(
        speech(vec![SpeechResponseFormat::Pcm, SpeechResponseFormat::Wav])
            .validate()
            .is_err()
    );
    let websocket = |response_formats| ServiceProfile::SpeechWebsocket {
        model_ids: vec![String::from("tts")],
        response_formats,
        stream_modes: vec![StreamMode::NonStreaming, StreamMode::Streaming],
        tasks: vec![SpeechTask::TextToSpeech],
        reference_forms: vec![ReferenceForm::Absent],
        voice_name_policy: VoiceNamePolicy::Preset,
    };
    assert!(
        websocket(vec![SpeechResponseFormat::Pcm])
            .validate()
            .is_ok()
    );
    assert!(
        websocket(vec![SpeechResponseFormat::Pcm, SpeechResponseFormat::Wav])
            .validate()
            .is_err()
    );
}

#[test]
fn worker_default_is_valid_for_every_advertised_service() {
    let speech = |models| ServiceProfile::SpeechHttp {
        model_ids: models,
        response_formats: vec![SpeechResponseFormat::Wav],
        stream_modes: vec![StreamMode::NonStreaming],
        tasks: vec![SpeechTask::TextToSpeech],
        reference_forms: vec![ReferenceForm::Absent],
        voice_name_policy: VoiceNamePolicy::Preset,
    };
    let mut missing_service_default = worker();
    missing_service_default
        .service_profiles
        .push(speech(vec![String::from("other")]));
    assert!(validate_workers(&[missing_service_default]).is_err());

    let mut correlated_default = worker();
    correlated_default
        .service_profiles
        .push(speech(vec![String::from("omni"), String::from("other")]));
    assert!(validate_workers(&[correlated_default]).is_ok());

    let transcription = |task, models| ServiceProfile::TranscriptionHttp {
        model_ids: models,
        task,
        response_formats: vec![TranscriptionResponseFormat::Json],
        stream_modes: vec![StreamMode::NonStreaming],
    };
    let mut mismatched_task_default = worker();
    mismatched_task_default.service_profiles.extend([
        transcription(SpeechToTextTask::Transcribe, vec![String::from("omni")]),
        transcription(SpeechToTextTask::Translate, vec![String::from("other")]),
    ]);
    assert!(validate_workers(&[mismatched_task_default]).is_err());
}

#[test]
fn matching_never_combines_correlated_rows() {
    let text = profile("omni");
    let audio = ServiceProfile::GenerationHttp {
        model_ids: vec![String::from("audio")],
        message_content_forms: vec![MessageContentForm::TypedParts],
        media_placements: vec![MediaPlacement::TypedParts],
        input_modalities: vec![InputModality::Audio],
        output_modalities: vec![OutputModality::Audio],
        chat_audio_formats: vec![ChatAudioFormat::Wav],
        stream_modes: vec![StreamMode::Streaming],
    };
    let cross_row = ProfileRequirement::GenerationHttp {
        model: ModelSelection::Explicit(String::from("omni")),
        message_content_forms: vec![MessageContentForm::TypedParts],
        media_placements: vec![MediaPlacement::TypedParts],
        input_modalities: vec![InputModality::Audio],
        output_modalities: vec![OutputModality::Audio],
        audio_format: Some(ChatAudioFormat::Wav),
        stream_mode: StreamMode::Streaming,
    };
    assert!(!text.matches(&cross_row, Some("omni")));
    assert!(!audio.matches(&cross_row, Some("audio")));
}

#[test]
fn speech_to_text_task_is_singular_and_media_only_workers_need_no_generation_shape() {
    let profile = |task| ServiceProfile::TranscriptionHttp {
        model_ids: vec![String::from("asr")],
        task,
        response_formats: vec![TranscriptionResponseFormat::Json],
        stream_modes: vec![StreamMode::NonStreaming],
    };
    let requirement = ProfileRequirement::TranscriptionHttp {
        model: ModelSelection::WorkerDefault {
            expected_model_id: String::from("asr"),
        },
        task: SpeechToTextTask::Translate,
        response_format: TranscriptionResponseFormat::Json,
        stream_mode: StreamMode::NonStreaming,
    };
    assert!(!profile(SpeechToTextTask::Transcribe).matches(&requirement, Some("asr")));
    assert!(profile(SpeechToTextTask::Translate).matches(&requirement, Some("asr")));

    let unresolved = ProfileRequirement::TranscriptionHttp {
        model: ModelSelection::UnresolvedDefault,
        task: SpeechToTextTask::Translate,
        response_format: TranscriptionResponseFormat::Json,
        stream_mode: StreamMode::NonStreaming,
    };
    assert!(profile(SpeechToTextTask::Translate).matches(&unresolved, Some("asr")));
    assert!(!profile(SpeechToTextTask::Translate).matches(&unresolved, None));

    let alias = ProfileRequirement::TranscriptionHttp {
        model: ModelSelection::Explicit(String::from("alias")),
        task: SpeechToTextTask::Translate,
        response_format: TranscriptionResponseFormat::Json,
        stream_mode: StreamMode::NonStreaming,
    };
    let translated_alias = ServiceProfile::TranscriptionHttp {
        model_ids: vec![String::from("asr"), String::from("alias")],
        task: SpeechToTextTask::Translate,
        response_formats: vec![TranscriptionResponseFormat::Json],
        stream_modes: vec![StreamMode::NonStreaming],
    };
    assert!(
        !translated_alias.matches(&alias, Some("asr")),
        "translation accepts only the worker default model"
    );

    let worker = WorkerConfig {
        worker_id: String::from("media-only"),
        base_url: String::from("http://127.0.0.1:8001/"),
        trust_domain: String::from("local"),
        default_model_id: None,
        health_path: String::from("/health"),
        capacity: WorkerCapacityConfig::default(),
        service_profiles: vec![profile(SpeechToTextTask::Transcribe)],
    };
    assert!(validate_workers(&[worker]).is_ok());
}

#[test]
fn named_voice_policy_controls_the_implicit_reference() {
    let mut row = ServiceProfile::SpeechHttp {
        model_ids: vec![String::from("tts")],
        response_formats: vec![SpeechResponseFormat::Wav],
        stream_modes: vec![StreamMode::NonStreaming],
        tasks: vec![SpeechTask::TextToSpeech],
        reference_forms: vec![ReferenceForm::Direct],
        voice_name_policy: VoiceNamePolicy::Uploaded,
    };
    let requirement = |reference_forms, named_voice| ProfileRequirement::SpeechHttp {
        model: ModelSelection::Explicit(String::from("tts")),
        response_format: SpeechResponseFormat::Wav,
        stream_mode: StreamMode::NonStreaming,
        task: None,
        reference_forms,
        named_voice,
    };
    assert_eq!(row.voice_name_policy(), Some(VoiceNamePolicy::Uploaded));
    assert!(row.matches(&requirement(Vec::new(), true), Some("tts")));
    assert!(row.matches(
        &requirement(vec![ReferenceForm::Direct], false),
        Some("tts")
    ));
    assert!(!row.matches(&requirement(vec![ReferenceForm::Absent], false), Some("tts")));

    if let ServiceProfile::SpeechHttp {
        voice_name_policy, ..
    } = &mut row
    {
        *voice_name_policy = VoiceNamePolicy::Preset;
    }
    assert!(!row.matches(&requirement(Vec::new(), true), Some("tts")));
    if let ServiceProfile::SpeechHttp {
        reference_forms, ..
    } = &mut row
    {
        reference_forms.push(ReferenceForm::Absent);
    }
    assert!(row.matches(&requirement(Vec::new(), true), Some("tts")));
}

#[test]
fn speech_batch_combines_named_voice_and_reference_requirements() {
    let mut row = ServiceProfile::SpeechBatch {
        model_ids: vec![String::from("tts")],
        response_formats: vec![SpeechResponseFormat::Wav],
        tasks: vec![SpeechTask::TextToSpeech],
        reference_forms: vec![ReferenceForm::Absent],
        voice_name_policy: VoiceNamePolicy::Uploaded,
        max_batch_size: 2,
    };
    let requirement = ProfileRequirement::SpeechBatch {
        models: vec![ModelSelection::Explicit(String::from("tts"))],
        response_formats: vec![SpeechResponseFormat::Wav],
        tasks: vec![SpeechTask::TextToSpeech],
        reference_forms: vec![ReferenceForm::Direct],
        named_voice: true,
        batch_size: 2,
    };
    assert!(!row.matches(&requirement, Some("tts")));
    let ServiceProfile::SpeechBatch {
        reference_forms, ..
    } = &mut row
    else {
        unreachable!()
    };
    reference_forms.push(ReferenceForm::Direct);
    assert!(row.matches(&requirement, Some("tts")));

    if let ServiceProfile::SpeechBatch {
        voice_name_policy, ..
    } = &mut row
    {
        *voice_name_policy = VoiceNamePolicy::Preset;
    }
    assert!(row.matches(&requirement, Some("tts")));
    if let ServiceProfile::SpeechBatch {
        reference_forms, ..
    } = &mut row
    {
        reference_forms.retain(|form| *form != ReferenceForm::Absent);
    }
    assert!(!row.matches(&requirement, Some("tts")));
}

#[test]
fn named_voice_websocket_uses_the_profile_voice_policy() {
    let mut row = ServiceProfile::SpeechWebsocket {
        model_ids: vec![String::from("tts")],
        response_formats: vec![SpeechResponseFormat::Pcm],
        stream_modes: vec![StreamMode::Streaming],
        tasks: vec![SpeechTask::TextToSpeech],
        reference_forms: vec![ReferenceForm::Direct],
        voice_name_policy: VoiceNamePolicy::Uploaded,
    };
    let requirement = |reference_forms, named_voice| ProfileRequirement::SpeechWebsocket {
        model: ModelSelection::Explicit(String::from("tts")),
        response_format: Some(SpeechResponseFormat::Pcm),
        stream_mode: StreamMode::Streaming,
        task: None,
        reference_forms,
        named_voice,
    };
    assert_eq!(row.voice_name_policy(), Some(VoiceNamePolicy::Uploaded));
    assert!(row.matches(&requirement(Vec::new(), true), Some("tts")));
    assert!(row.matches(
        &requirement(vec![ReferenceForm::Direct], false),
        Some("tts")
    ));
    assert!(!row.matches(&requirement(vec![ReferenceForm::Absent], false), Some("tts")));

    if let ServiceProfile::SpeechWebsocket {
        voice_name_policy, ..
    } = &mut row
    {
        *voice_name_policy = VoiceNamePolicy::Preset;
    }
    assert!(!row.matches(&requirement(Vec::new(), true), Some("tts")));
    if let ServiceProfile::SpeechWebsocket {
        reference_forms, ..
    } = &mut row
    {
        reference_forms.push(ReferenceForm::Absent);
    }
    assert!(row.matches(&requirement(Vec::new(), true), Some("tts")));
    assert!(row.matches(
        &requirement(vec![ReferenceForm::Direct], false),
        Some("tts")
    ));
}
