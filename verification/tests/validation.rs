use sgl_omni_router::config::{AdmissionConfig, PoolConfig, RoutingStrategy};
use sgl_omni_router::error::{ConfigError, WorkerPoolInvariant};
use sgl_omni_router::worker_pool::health::{ProbeTracker, WorkerHealth};
use sgl_omni_router::worker_pool::pool::WorkerPool;
use sgl_omni_router::worker_pool::profile::{
    ChatAudioFormat, InputModality, MediaPlacement, MessageContentForm, OutputModality,
    ReferenceForm, ServiceProfile, SpeechResponseFormat, SpeechTask, SpeechToTextTask, StreamMode,
    TranscriptionResponseFormat, VoiceNamePolicy, WorkerCapacityConfig, WorkerConfig,
};
use sgl_omni_router::worker_pool::resolver::{ResolvedTarget, UrlParts};
use sgl_omni_router::worker_pool::validation::{
    default_health_path, valid_model_id, validate_identifier, validate_resolved_worker,
    validate_workers,
};

fn chat(model: &str) -> ServiceProfile {
    ServiceProfile::GenerationHttp {
        model_ids: vec![model.to_owned()],
        message_content_forms: vec![MessageContentForm::String],
        media_placements: Vec::new(),
        input_modalities: vec![InputModality::Text],
        output_modalities: vec![OutputModality::Text],
        chat_audio_formats: Vec::new(),
        stream_modes: vec![StreamMode::NonStreaming],
    }
}

fn named(ordinal: usize) -> WorkerConfig {
    WorkerConfig {
        worker_id: format!("worker-{ordinal}"),
        base_url: format!("http://127.0.0.1:{}/", 8_000 + ordinal),
        trust_domain: String::from("local"),
        default_model_id: Some(String::from("omni")),
        health_path: default_health_path(),
        capacity: WorkerCapacityConfig::default(),
        service_profiles: vec![chat("omni")],
    }
}

fn broken_by(change: fn(&mut WorkerConfig)) -> Option<ConfigError> {
    let mut worker = named(0);
    change(&mut worker);
    validate_workers(&[worker]).err()
}

fn rule(field: &'static str, reason: &'static str) -> Option<ConfigError> {
    Some(ConfigError { field, reason })
}

#[test]
fn worker_counts_are_bounded() {
    let reason = "must contain between 1 and 256 workers";
    assert_eq!(validate_workers(&[]).err(), rule("workers", reason));
    let many: Vec<WorkerConfig> = (0..257).map(named).collect();
    assert_eq!(validate_workers(&many).err(), rule("workers", reason));
}

#[test]
fn worker_names_and_domains_are_identifiers() {
    let reason = "must be 1 to 128 ASCII identifier bytes";
    assert_eq!(
        broken_by(|worker| worker.worker_id = String::from("a b")),
        rule("workers.worker_id", reason)
    );
    assert_eq!(
        broken_by(|worker| worker.trust_domain = String::new()),
        rule("workers.trust_domain", reason)
    );
    assert_eq!(validate_identifier("aZ09-_.", "field"), Ok(()));
    assert!(validate_identifier(&"a".repeat(128), "field").is_ok());
    assert_eq!(
        validate_identifier(&"a".repeat(129), "field").err(),
        rule("field", reason)
    );
    assert!(validate_identifier("\u{e9}", "field").is_err());
}

#[test]
fn worker_names_and_origins_are_unique() {
    let mut second = named(1);
    second.worker_id = String::from("worker-0");
    assert_eq!(
        validate_workers(&[named(0), second]).err(),
        rule("workers.worker_id", "must be unique")
    );
    let mut second = named(1);
    second.base_url = named(0).base_url;
    assert_eq!(
        validate_workers(&[named(0), second]).err(),
        rule("workers.base_url", "worker origins must be unique")
    );
}

#[test]
fn the_first_broken_rule_is_reported() {
    let mut second = named(1);
    second.worker_id = String::from("worker-0");
    let mut first = named(0);
    first.service_profiles.clear();
    assert_eq!(
        validate_workers(&[first, second]).err(),
        rule("workers.service_profiles", "must contain between 1 and 64 rows")
    );
}

#[test]
fn defaults_addresses_and_health_paths_keep_their_form() {
    assert_eq!(
        broken_by(|worker| worker.default_model_id = Some(String::new())),
        rule("workers.default_model_id", "must be 1 to 256 bytes")
    );
    for change in [
        |worker: &mut WorkerConfig| worker.base_url = String::new(),
        |worker: &mut WorkerConfig| worker.base_url = format!("http://{}/", "a".repeat(2_048)),
    ] {
        assert_eq!(
            broken_by(change),
            rule("workers.base_url", "must contain between 1 and 2048 bytes")
        );
    }
    for change in [
        |worker: &mut WorkerConfig| worker.health_path = String::from("health"),
        |worker: &mut WorkerConfig| worker.health_path = String::from("/health?x"),
        |worker: &mut WorkerConfig| worker.health_path = String::from("/health#x"),
        |worker: &mut WorkerConfig| worker.health_path = String::new(),
        |worker: &mut WorkerConfig| worker.health_path = format!("/{}", "a".repeat(128)),
    ] {
        assert_eq!(
            broken_by(change),
            rule(
                "workers.health_path",
                "must be an absolute path without query or fragment"
            )
        );
    }
    assert_eq!(default_health_path(), "/health");
}

#[test]
fn base_urls_are_canonical_origins() {
    for url in [
        "ftp://host/",
        "http://host",
        "http://HOST/",
        "http://host:80/",
        "http://host/path",
        "http://user@host/",
        "http://host/?q",
        "not a url",
    ] {
        assert_eq!(ResolvedTarget::from_parts(url, "/health"), None, "{url}");
        let mut worker = named(0);
        worker.base_url = url.to_owned();
        assert_eq!(
            validate_workers(&[worker]).err(),
            rule("workers.base_url", "must be a canonical HTTP or HTTPS origin")
        );
    }
    for url in ["http://host/", "https://host:8443/", "http://[::1]:9000/"] {
        let target = ResolvedTarget::from_parts(url, "/a/b").expect("canonical origin");
        assert_eq!(target.base_url(), url);
        assert_eq!(target.health_url(), format!("{url}a/b"));
    }
    let parts = UrlParts {
        scheme: String::from("http"),
        origin: String::from("http://host"),
    };
    assert!(ResolvedTarget::from_parsed("http://host/", "/", Some(parts.clone())).is_some());
    assert!(ResolvedTarget::from_parsed("http://host", "/", Some(parts)).is_none());
    assert!(ResolvedTarget::from_parsed("http://host/", "/", None).is_none());
}

#[test]
fn resolved_workers_have_origins_of_their_own() {
    let resolved = |origin: &str| {
        let parts = UrlParts {
            scheme: String::from("http"),
            origin: origin.to_owned(),
        };
        ResolvedTarget::from_parsed(&format!("{origin}/"), "/health", Some(parts))
    };
    let workers = [named(0), named(1), named(2)];
    let targets = [resolved("http://a"), resolved("http://b"), resolved("http://a")];
    assert_eq!(validate_resolved_worker(&workers, &targets, 1), Ok(()));
    assert_eq!(
        validate_resolved_worker(&workers, &targets, 2).err(),
        rule("workers.base_url", "worker origins must be unique")
    );
    assert_eq!(
        validate_resolved_worker(&workers, &[None], 0).err(),
        rule("workers.base_url", "must be a canonical HTTP or HTTPS origin")
    );
}

#[test]
fn long_nested_urls_are_refused_for_their_length() {
    let nested = format!("{}http://host/", "blob:".repeat(1_000_000));
    assert_eq!(ResolvedTarget::from_parts(&nested, "/health"), None);
    assert_eq!(ResolvedTarget::from_parts("blob:http://host/", "/health"), None);
    let mut worker = named(0);
    worker.base_url = nested.clone();
    assert_eq!(
        validate_workers(&[worker.clone()]).err(),
        rule("workers.base_url", "must contain between 1 and 2048 bytes")
    );
    let many: Vec<WorkerConfig> = (0..257)
        .map(|ordinal| {
            let mut other = named(ordinal);
            other.base_url = String::from("blob:http://host/");
            other
        })
        .collect();
    assert_eq!(
        validate_workers(&many).err(),
        rule("workers", "must contain between 1 and 256 workers")
    );
}

#[test]
fn session_limits_are_bounded_and_given_where_needed() {
    for (change, field) in [
        (
            (|worker| worker.capacity.speech_websocket = Some(0)) as fn(&mut WorkerConfig),
            "workers.capacity.speech_websocket",
        ),
        (
            |worker| worker.capacity.realtime_websocket = Some(65_536),
            "workers.capacity.realtime_websocket",
        ),
    ] {
        assert_eq!(broken_by(change), rule(field, "must be between 1 and 65535"));
    }
    assert_eq!(
        broken_by(|worker| worker.service_profiles.push(ServiceProfile::RealtimeWebsocket)),
        rule(
            "workers.capacity",
            "must configure capacity for every WebSocket service profile"
        )
    );
    assert_eq!(
        broken_by(|worker| {
            worker.service_profiles.push(ServiceProfile::RealtimeWebsocket);
            worker.capacity.realtime_websocket = Some(65_535);
        }),
        None
    );
}

#[test]
fn rows_are_few_distinct_and_execute_the_default() {
    assert_eq!(
        broken_by(|worker| {
            worker.service_profiles = (0..65).map(|row| chat(&format!("model-{row}"))).collect();
        }),
        rule("workers.service_profiles", "must contain between 1 and 64 rows")
    );
    assert_eq!(
        broken_by(|worker| worker.service_profiles.push(chat("omni"))),
        rule("workers.service_profiles", "contains a duplicate correlated row")
    );
    assert_eq!(
        broken_by(|worker| worker.default_model_id = Some(String::from("other"))),
        rule(
            "workers.default_model_id",
            "must belong to every advertised model-executing service and task"
        )
    );
}

#[test]
fn model_lists_hold_distinct_names() {
    let fault = |models: Vec<String>| {
        let mut row = chat("omni");
        if let ServiceProfile::GenerationHttp { model_ids, .. } = &mut row {
            *model_ids = models;
        }
        row.validate().err()
    };
    let field = "workers.service_profiles.model_ids";
    let reason = "must contain 1 to 64 unique model IDs";
    assert_eq!(fault(Vec::new()), rule(field, reason));
    assert_eq!(
        fault((0..65).map(|model| format!("m{model}")).collect()),
        rule(field, reason)
    );
    assert_eq!(fault(vec![String::from("a\u{7f}")]), rule(field, reason));
    assert_eq!(
        fault(vec![String::from("a"), String::from("a")]),
        rule(field, "must not contain duplicates")
    );
    assert!(valid_model_id("org/model \u{e9}"));
    assert!(valid_model_id(&"a".repeat(256)));
    assert!(!valid_model_id(&"a".repeat(257)));
    assert!(!valid_model_id("\u{85}"));
    assert!(!valid_model_id(""));
}

#[test]
fn generation_sets_are_distinct_and_audio_has_formats() {
    let fault = |change: fn(&mut ServiceProfile)| {
        let mut row = chat("omni");
        change(&mut row);
        row.validate().err()
    };
    assert_eq!(
        fault(|row| {
            if let ServiceProfile::GenerationHttp {
                message_content_forms,
                ..
            } = row
            {
                message_content_forms.clear();
            }
        }),
        rule(
            "workers.service_profiles.message_content_forms",
            "has an invalid item count"
        )
    );
    assert_eq!(
        fault(|row| {
            if let ServiceProfile::GenerationHttp {
                media_placements, ..
            } = row
            {
                *media_placements = vec![MediaPlacement::TypedParts, MediaPlacement::TypedParts];
            }
        }),
        rule(
            "workers.service_profiles.media_placements",
            "must not contain duplicates"
        )
    );
    for change in [
        |row: &mut ServiceProfile| {
            if let ServiceProfile::GenerationHttp {
                chat_audio_formats, ..
            } = row
            {
                chat_audio_formats.push(ChatAudioFormat::Wav);
            }
        },
        |row: &mut ServiceProfile| {
            if let ServiceProfile::GenerationHttp {
                output_modalities, ..
            } = row
            {
                output_modalities.push(OutputModality::Audio);
            }
        },
    ] {
        assert_eq!(
            fault(change),
            rule(
                "workers.service_profiles.chat_audio_formats",
                "must be nonempty exactly when audio output is supported"
            )
        );
    }
}

#[test]
fn media_rows_keep_their_rules() {
    let speech = ServiceProfile::SpeechHttp {
        model_ids: vec![String::from("tts")],
        response_formats: vec![SpeechResponseFormat::Wav],
        stream_modes: vec![StreamMode::Streaming],
        tasks: vec![SpeechTask::TextToSpeech],
        reference_forms: vec![ReferenceForm::Absent],
        voice_name_policy: VoiceNamePolicy::Preset,
    };
    assert_eq!(
        speech.validate().err(),
        rule(
            "workers.service_profiles.response_formats",
            "a streaming speech row may contain only pcm"
        )
    );
    let batch = ServiceProfile::SpeechBatch {
        model_ids: vec![String::from("tts")],
        response_formats: vec![SpeechResponseFormat::Wav],
        tasks: vec![SpeechTask::TextToSpeech],
        reference_forms: vec![ReferenceForm::Absent],
        voice_name_policy: VoiceNamePolicy::Preset,
        max_batch_size: 0,
    };
    assert_eq!(
        batch.validate().err(),
        rule("workers.service_profiles.max_batch_size", "must be positive")
    );
    let transcription = ServiceProfile::TranscriptionHttp {
        model_ids: vec![String::from("asr")],
        response_formats: vec![TranscriptionResponseFormat::Sse],
        stream_modes: vec![StreamMode::NonStreaming],
        task: SpeechToTextTask::Transcribe,
    };
    assert_eq!(
        transcription.validate().err(),
        rule(
            "workers.service_profiles.response_formats",
            "sse support must match streaming support"
        )
    );
    assert_eq!(ServiceProfile::RealtimeWebsocket.validate(), Ok(()));
}

fn limits(global: u32) -> AdmissionConfig {
    AdmissionConfig {
        global,
        generation_http: Some(2),
        speech_http: None,
        speech_batch: None,
        transcription_http: None,
        speech_websocket: Some(3),
        realtime_websocket: None,
    }
}

fn pool_of(workers: Vec<WorkerConfig>, owner: Option<&str>) -> Result<WorkerPool, WorkerPoolInvariant> {
    WorkerPool::build(PoolConfig {
        workers,
        admission: limits(5),
        voice_owner_worker_id: owner.map(String::from),
        strategy: RoutingStrategy::LeastRequests,
    })
}

#[test]
fn a_built_pool_starts_idle_and_unknown() {
    let mut second = named(1);
    second.capacity.speech_websocket = Some(7);
    let pool = pool_of(vec![named(0), second], Some("worker-1")).expect("pool");
    assert_eq!(pool.worker_count(), 2);
    assert!(pool.voice_state_enabled());
    assert!(!pool.voice_owner_ready());
    assert_eq!(
        pool.admission().available(),
        (5, [Some(2), None, None, None, Some(3), None])
    );
    let snapshot = pool.operations_snapshot();
    assert_eq!(snapshot.workers[1].worker_id, "worker-1");
    assert_eq!(snapshot.workers[1].registration_ordinal, 1);
    assert_eq!(snapshot.workers[1].health, WorkerHealth::Unknown);
    assert!(!snapshot.workers[1].routable);
    assert_eq!(snapshot.workers[1].session_capacity.len(), 1);
    assert_eq!(snapshot.workers[1].session_capacity[0].limit, 7);
    assert!(snapshot.workers[0].session_capacity.is_empty());
}

#[test]
fn a_pool_is_not_built_of_what_validation_rejects() {
    let mut unreachable_worker = named(0);
    unreachable_worker.base_url = String::from("http://host");
    assert_eq!(
        pool_of(vec![unreachable_worker], None).err(),
        Some(WorkerPoolInvariant)
    );
    assert_eq!(
        pool_of(vec![named(0)], Some("worker-1")).err(),
        Some(WorkerPoolInvariant)
    );
}

#[test]
fn probes_publish_health_after_consecutive_results() {
    let mut pool = pool_of(vec![named(0)], None).expect("pool");
    let mut tracker = ProbeTracker::new(2, 1);
    assert_eq!(pool.observe_probe(0, &mut tracker, true), None);
    assert_eq!(pool.record(0).health(), WorkerHealth::Unknown);
    assert_eq!(
        pool.observe_probe(0, &mut tracker, true),
        Some(WorkerHealth::Healthy)
    );
    assert_eq!(pool.observe_probe(0, &mut tracker, true), None);
    assert_eq!(
        pool.observe_probe(0, &mut tracker, false),
        Some(WorkerHealth::Unhealthy)
    );
    assert_eq!(pool.record(0).health(), WorkerHealth::Unhealthy);
}
