use sgl_omni_router::config::{HttpMediaRoute, RoutingStrategy};
use sgl_omni_router::worker_pool::admission::{
    AdmissionController, AdmissionError, AdmissionLease, DispatchError,
};
use sgl_omni_router::worker_pool::cohorts::generation_rows_equal;
use sgl_omni_router::worker_pool::health::WorkerHealth;
use sgl_omni_router::worker_pool::permits::PermitPool;
use sgl_omni_router::worker_pool::pool::{RequestLease, WorkerPool};
use sgl_omni_router::worker_pool::profile::{
    CapacityClass, ChatAudioFormat, InputModality, MediaPlacement, MessageContentForm,
    ModelSelection, OutputModality, ProfileRequirement, ReferenceForm, RouteRequirement,
    ServiceProfile, SpeechResponseFormat, SpeechTask, SpeechToTextTask, StreamMode,
    TranscriptionResponseFormat, TrustDomain, VoiceNamePolicy, WorkerCapacityConfig, WorkerConfig,
    MAX_WORKERS,
};
use sgl_omni_router::worker_pool::record::WorkerRecord;
use sgl_omni_router::worker_pool::resolver::ResolvedTarget;
use sgl_omni_router::worker_pool::snapshot::AdmissionClass;

fn profile(model: &str) -> ServiceProfile {
    ServiceProfile::GenerationHttp {
        model_ids: vec![model.to_owned()],
        message_content_forms: vec![MessageContentForm::String],
        media_placements: Vec::new(),
        input_modalities: vec![InputModality::Text],
        output_modalities: vec![OutputModality::Text],
        chat_audio_formats: Vec::new(),
        stream_modes: vec![StreamMode::NonStreaming],
    }
}

fn speech_http_profile(
    model: &str,
    response_format: SpeechResponseFormat,
    stream_mode: StreamMode,
) -> ServiceProfile {
    ServiceProfile::SpeechHttp {
        model_ids: vec![model.to_owned()],
        response_formats: vec![response_format],
        stream_modes: vec![stream_mode],
        tasks: vec![SpeechTask::TextToSpeech],
        reference_forms: vec![ReferenceForm::Absent],
        voice_name_policy: VoiceNamePolicy::Preset,
    }
}

fn speech_websocket_profile(
    model: &str,
    response_format: SpeechResponseFormat,
    stream_mode: StreamMode,
) -> ServiceProfile {
    speech_websocket_profile_with_policy(
        model,
        response_format,
        stream_mode,
        VoiceNamePolicy::Preset,
    )
}

fn speech_websocket_profile_with_policy(
    model: &str,
    response_format: SpeechResponseFormat,
    stream_mode: StreamMode,
    voice_name_policy: VoiceNamePolicy,
) -> ServiceProfile {
    ServiceProfile::SpeechWebsocket {
        model_ids: vec![model.to_owned()],
        response_formats: vec![response_format],
        stream_modes: vec![stream_mode],
        tasks: vec![SpeechTask::TextToSpeech],
        reference_forms: vec![ReferenceForm::Absent],
        voice_name_policy,
    }
}

fn requirement(model: &str, trust: &str) -> RouteRequirement {
    RouteRequirement::new(
        ProfileRequirement::GenerationHttp {
            model: ModelSelection::Explicit(model.to_owned()),
            message_content_forms: vec![MessageContentForm::String],
            media_placements: Vec::new(),
            input_modalities: vec![InputModality::Text],
            output_modalities: vec![OutputModality::Text],
            audio_format: None,
            stream_mode: StreamMode::NonStreaming,
        },
        TrustDomain::new(trust.to_owned()),
    )
}

/// A worker before it is registered.
struct Fixture {
    config: WorkerConfig,
    ordinal: usize,
    speech_sessions: Option<usize>,
    realtime_sessions: Option<usize>,
    health: WorkerHealth,
    load: usize,
}

impl Fixture {
    fn register(self) -> WorkerRecord {
        let target = ResolvedTarget::from_worker(&self.config).expect("test target");
        let mut record = WorkerRecord::new(
            self.config,
            self.ordinal,
            target,
            self.speech_sessions.map(PermitPool::new),
            self.realtime_sessions.map(PermitPool::new),
        );
        record.set_health(self.health);
        record.increment_load(self.load);
        record
    }
}

fn record_with_profile(
    ordinal: usize,
    trust: &str,
    model: &str,
    service_profile: ServiceProfile,
) -> Fixture {
    Fixture {
        config: WorkerConfig {
            worker_id: format!("worker-{ordinal}"),
            base_url: format!("http://127.0.0.1:{}/", 10_000 + ordinal),
            trust_domain: trust.to_owned(),
            default_model_id: Some(model.to_owned()),
            health_path: String::from("/health"),
            capacity: WorkerCapacityConfig::default(),
            service_profiles: vec![service_profile],
        },
        ordinal,
        speech_sessions: None,
        realtime_sessions: None,
        health: WorkerHealth::Healthy,
        load: 0,
    }
}

fn record(ordinal: usize, trust: &str, model: &str) -> Fixture {
    record_with_profile(ordinal, trust, model, profile(model))
}

fn assemble(
    strategy: RoutingStrategy,
    fixtures: Vec<Fixture>,
    voice_owner: Option<usize>,
    admission: AdmissionController,
) -> WorkerPool {
    let records = fixtures.into_iter().map(Fixture::register).collect();
    WorkerPool::from_records(records, voice_owner, admission, strategy)
}

fn pool(strategy: RoutingStrategy, fixtures: Vec<Fixture>, admission: usize) -> WorkerPool {
    assemble(
        strategy,
        fixtures,
        None,
        AdmissionController::new(admission, [Some(admission), None, None, None, None, None]),
    )
}

fn granted(pool: &mut WorkerPool, class: CapacityClass, credits: u32) -> AdmissionLease {
    pool.try_admit(class, credits).expect("admission")
}

fn dispatch(
    pool: &mut WorkerPool,
    class: CapacityClass,
    requirement: &RouteRequirement,
) -> Result<RequestLease, DispatchError> {
    let admission = granted(pool, class, 1);
    pool.dispatch(admission, requirement)
}

fn dispatch_session(
    pool: &mut WorkerPool,
    class: CapacityClass,
    requirement: &RouteRequirement,
) -> Result<RequestLease, DispatchError> {
    let admission = granted(pool, class, 1);
    pool.dispatch_session(admission, requirement)
}

fn dispatch_subset(pool: &mut WorkerPool, ordinals: &[usize]) -> usize {
    let admission = granted(pool, CapacityClass::GenerationHttp, 1);
    let mut marked = [false; MAX_WORKERS];
    for &ordinal in ordinals {
        marked[ordinal] = true;
    }
    let lease = pool
        .dispatch_matching(admission, true, &marked)
        .expect("dispatch subset");
    let selected = lease.registration_ordinal();
    pool.release(lease);
    selected
}

fn dispatch_blind_chat(pool: &mut WorkerPool, trust: &TrustDomain) -> RequestLease {
    let blind = pool
        .content_blind_generation_http(trust)
        .expect("homogeneous cohort");
    let admission = granted(pool, CapacityClass::GenerationHttp, 1);
    blind.dispatch(pool, admission).expect("content-blind dispatch")
}

fn dispatch_blind_speech(pool: &mut WorkerPool, trust: &TrustDomain) -> RequestLease {
    let blind = pool
        .content_blind_media_http(trust, HttpMediaRoute::Speech)
        .expect("speech cohort");
    let admission = granted(pool, CapacityClass::SpeechHttp, 1);
    blind.dispatch(pool, admission).expect("content-blind dispatch")
}

#[test]
fn direct_proof_requires_equal_defaults_profiles_and_trust_scopes() {
    let local = TrustDomain::new(String::from("local"));
    let sole = pool(
        RoutingStrategy::RoundRobin,
        vec![record(0, "local", "omni")],
        4,
    );
    assert!(sole.content_blind_generation_http(&local).is_some());

    let replicas = pool(
        RoutingStrategy::RoundRobin,
        vec![record(0, "local", "omni"), record(1, "local", "omni")],
        4,
    );
    assert!(replicas.content_blind_generation_http(&local).is_some());

    let mut missing_default = record(0, "local", "omni");
    missing_default.config.default_model_id = None;
    let no_default = pool(RoutingStrategy::RoundRobin, vec![missing_default], 4);
    assert!(no_default.content_blind_generation_http(&local).is_none());

    let defaults_differ = pool(
        RoutingStrategy::RoundRobin,
        vec![record(0, "local", "omni"), record(1, "local", "other")],
        4,
    );
    assert!(
        defaults_differ
            .content_blind_generation_http(&local)
            .is_none()
    );

    let mutations: [fn(&mut ServiceProfile); 6] = [
        |profile| {
            if let ServiceProfile::GenerationHttp { model_ids, .. } = profile {
                model_ids.push(String::from("other"));
            }
        },
        |profile| {
            if let ServiceProfile::GenerationHttp {
                message_content_forms,
                ..
            } = profile
            {
                message_content_forms.push(MessageContentForm::TypedParts);
            }
        },
        |profile| {
            if let ServiceProfile::GenerationHttp {
                media_placements, ..
            } = profile
            {
                media_placements.push(MediaPlacement::TypedParts);
            }
        },
        |profile| {
            if let ServiceProfile::GenerationHttp {
                input_modalities, ..
            } = profile
            {
                input_modalities.push(InputModality::Image);
            }
        },
        |profile| {
            if let ServiceProfile::GenerationHttp {
                output_modalities,
                chat_audio_formats,
                ..
            } = profile
            {
                output_modalities.push(OutputModality::Audio);
                chat_audio_formats.push(ChatAudioFormat::Wav);
            }
        },
        |profile| {
            if let ServiceProfile::GenerationHttp { stream_modes, .. } = profile {
                stream_modes.push(StreamMode::Streaming);
            }
        },
    ];
    for mutate in mutations {
        let mut different = profile("omni");
        mutate(&mut different);
        let heterogeneous = pool(
            RoutingStrategy::RoundRobin,
            vec![
                record(0, "local", "omni"),
                record_with_profile(1, "local", "omni", different),
            ],
            4,
        );
        assert!(
            heterogeneous
                .content_blind_generation_http(&local)
                .is_none()
        );
    }

    let mut extra_row = record(1, "local", "omni");
    extra_row.config.service_profiles.push(profile("other"));
    let row_count_differs = pool(
        RoutingStrategy::RoundRobin,
        vec![record(0, "local", "omni"), extra_row],
        4,
    );
    assert!(
        row_count_differs
            .content_blind_generation_http(&local)
            .is_none()
    );

    let separate = pool(
        RoutingStrategy::RoundRobin,
        vec![record(0, "local", "omni"), record(1, "remote", "other")],
        4,
    );
    assert!(separate.content_blind_generation_http(&local).is_some());
}

#[test]
fn round_robin_balances_and_skips_unhealthy_workers() {
    let mut pool = pool(
        RoutingStrategy::RoundRobin,
        vec![record(0, "local", "omni"), record(1, "local", "omni")],
        8,
    );
    let wanted = requirement("omni", "local");
    let first =
        dispatch(&mut pool, CapacityClass::GenerationHttp, &wanted).expect("first dispatch");
    let second =
        dispatch(&mut pool, CapacityClass::GenerationHttp, &wanted).expect("second dispatch");
    assert_ne!(first.registration_ordinal(), second.registration_ordinal());
    pool.release(first);
    pool.release(second);
    pool.publish_health(0, WorkerHealth::Unhealthy);
    pool.publish_health(1, WorkerHealth::Unhealthy);
    let unavailable = dispatch(&mut pool, CapacityClass::GenerationHttp, &wanted);
    assert!(matches!(unavailable, Err(DispatchError::Unavailable)));
}

#[test]
fn round_robin_rotates_over_sparse_eligible_workers_without_bias() {
    let mut pool = pool(
        RoutingStrategy::RoundRobin,
        vec![
            record(0, "local", "omni"),
            record(1, "remote", "other"),
            record(2, "local", "omni"),
        ],
        8,
    );
    let mut selected = Vec::new();
    for _ in 0..6 {
        let lease = dispatch(
            &mut pool,
            CapacityClass::GenerationHttp,
            &requirement("omni", "local"),
        )
        .expect("dispatch sparse round robin");
        selected.push(lease.registration_ordinal());
        pool.release(lease);
    }
    assert_eq!(selected, [0, 2, 0, 2, 0, 2]);
}

#[test]
fn round_robin_rotates_alternating_disjoint_sets() {
    let mut pool = pool(
        RoutingStrategy::RoundRobin,
        vec![
            record(0, "local", "omni"),
            record(1, "local", "omni"),
            record(2, "local", "omni"),
            record(3, "local", "omni"),
        ],
        8,
    );
    let mut selected = Vec::new();
    for _ in 0..4 {
        selected.push(dispatch_subset(&mut pool, &[0, 1]));
        selected.push(dispatch_subset(&mut pool, &[2, 3]));
    }

    assert_eq!(selected, [0, 2, 1, 3, 0, 2, 1, 3]);
}

#[test]
fn round_robin_rotates_overlapping_sets_without_starvation() {
    let mut pool = pool(
        RoutingStrategy::RoundRobin,
        vec![
            record(0, "local", "omni"),
            record(1, "local", "omni"),
            record(2, "local", "omni"),
        ],
        8,
    );
    let mut selected = Vec::new();
    for _ in 0..3 {
        selected.push(dispatch_subset(&mut pool, &[0, 1]));
        selected.push(dispatch_subset(&mut pool, &[1, 2]));
    }

    assert_eq!(selected, [0, 1, 0, 2, 1, 2]);
}

#[test]
fn least_requests_rotates_equal_load_over_sparse_eligible_workers_without_bias() {
    let mut pool = pool(
        RoutingStrategy::LeastRequests,
        vec![
            record(0, "remote", "other"),
            record(1, "local", "omni"),
            record(2, "remote", "other"),
            record(3, "local", "omni"),
        ],
        8,
    );
    let mut selected = Vec::new();
    for _ in 0..6 {
        let lease = dispatch(
            &mut pool,
            CapacityClass::GenerationHttp,
            &requirement("omni", "local"),
        )
        .expect("dispatch sparse least requests");
        selected.push(lease.registration_ordinal());
        pool.release(lease);
    }
    assert_eq!(selected, [1, 3, 1, 3, 1, 3]);
}

#[test]
fn least_requests_rotates_only_over_the_minimum_occupancy_tie() {
    let mut middle = record(1, "local", "omni");
    middle.load = 1;
    let mut pool = pool(
        RoutingStrategy::LeastRequests,
        vec![
            record(0, "local", "omni"),
            middle,
            record(2, "local", "omni"),
        ],
        8,
    );
    let trust = TrustDomain::new(String::from("local"));
    let mut selected = Vec::new();
    for _ in 0..6 {
        let lease = dispatch_blind_chat(&mut pool, &trust);
        selected.push(lease.registration_ordinal());
        pool.release(lease);
    }
    assert_eq!(selected, [0, 2, 0, 2, 0, 2]);
}

#[test]
fn least_requests_choose_and_reserve_is_linearized() {
    const REQUESTS: usize = 32;
    let mut pool = pool(
        RoutingStrategy::LeastRequests,
        vec![record(0, "local", "omni"), record(1, "local", "omni")],
        REQUESTS,
    );
    let mut admissions = Vec::new();
    for _ in 0..REQUESTS {
        admissions.push(granted(&mut pool, CapacityClass::GenerationHttp, 1));
    }
    let mut leases = Vec::new();
    for admission in admissions {
        leases.push(
            pool.dispatch(admission, &requirement("omni", "local"))
                .expect("dispatch"),
        );
    }
    let first = leases
        .iter()
        .filter(|lease| lease.registration_ordinal() == 0)
        .count();
    assert_eq!(first, REQUESTS / 2);
}

#[test]
fn unresolved_default_routes_to_the_only_compatible_worker() {
    let mut multimodal = profile("vision");
    if let ServiceProfile::GenerationHttp {
        message_content_forms,
        media_placements,
        input_modalities,
        ..
    } = &mut multimodal
    {
        message_content_forms.push(MessageContentForm::TypedParts);
        media_placements.push(MediaPlacement::TypedParts);
        input_modalities.push(InputModality::Image);
    }
    let mut pool = pool(
        RoutingStrategy::RoundRobin,
        vec![
            record(0, "local", "text"),
            record_with_profile(1, "local", "vision", multimodal),
        ],
        2,
    );
    let requirement = RouteRequirement::new(
        ProfileRequirement::GenerationHttp {
            model: ModelSelection::UnresolvedDefault,
            message_content_forms: vec![MessageContentForm::TypedParts],
            media_placements: vec![MediaPlacement::TypedParts],
            input_modalities: vec![InputModality::Text, InputModality::Image],
            output_modalities: vec![OutputModality::Text],
            audio_format: None,
            stream_mode: StreamMode::NonStreaming,
        },
        TrustDomain::new(String::from("local")),
    );
    let lease = dispatch(&mut pool, CapacityClass::GenerationHttp, &requirement)
        .expect("dispatch heterogeneous default");
    assert_eq!(lease.registration_ordinal(), 1);
}

#[test]
fn unresolved_default_agreement_is_stable_across_health_changes() {
    let mut second = record(1, "local", "second");
    second.health = WorkerHealth::Unhealthy;
    let mut pool = pool(
        RoutingStrategy::RoundRobin,
        vec![record(0, "local", "first"), second],
        2,
    );
    let requirement = RouteRequirement::new(
        ProfileRequirement::GenerationHttp {
            model: ModelSelection::UnresolvedDefault,
            message_content_forms: vec![MessageContentForm::String],
            media_placements: Vec::new(),
            input_modalities: vec![InputModality::Text],
            output_modalities: vec![OutputModality::Text],
            audio_format: None,
            stream_mode: StreamMode::NonStreaming,
        },
        TrustDomain::new(String::from("local")),
    );
    let result = dispatch(&mut pool, CapacityClass::GenerationHttp, &requirement);
    assert!(matches!(result, Err(DispatchError::AmbiguousModel)));
}

#[test]
fn media_default_resolution_uses_format_and_stream_constraints() {
    let fixtures = vec![
        record_with_profile(
            0,
            "local",
            "wav-model",
            speech_http_profile(
                "wav-model",
                SpeechResponseFormat::Wav,
                StreamMode::NonStreaming,
            ),
        ),
        record_with_profile(
            1,
            "local",
            "pcm-model",
            speech_http_profile(
                "pcm-model",
                SpeechResponseFormat::Pcm,
                StreamMode::Streaming,
            ),
        ),
    ];
    let mut pool = assemble(
        RoutingStrategy::RoundRobin,
        fixtures,
        None,
        AdmissionController::new(2, [None, Some(2), None, None, None, None]),
    );
    let requirement = RouteRequirement::new(
        ProfileRequirement::SpeechHttp {
            model: ModelSelection::UnresolvedDefault,
            response_format: SpeechResponseFormat::Pcm,
            stream_mode: StreamMode::Streaming,
            task: Some(SpeechTask::TextToSpeech),
            reference_forms: vec![ReferenceForm::Absent],
            named_voice: false,
        },
        TrustDomain::new(String::from("local")),
    );
    let lease = dispatch(&mut pool, CapacityClass::SpeechHttp, &requirement)
        .expect("dispatch compatible default");
    assert_eq!(lease.registration_ordinal(), 1);
}

#[test]
fn speech_websocket_default_resolution_uses_compatible_profiles() {
    let build_record = |ordinal, model, format, stream| {
        let mut fixture = record_with_profile(
            ordinal,
            "local",
            model,
            speech_websocket_profile(model, format, stream),
        );
        fixture.speech_sessions = Some(1);
        fixture
    };
    let pcm = build_record(
        0,
        "pcm-model",
        SpeechResponseFormat::Pcm,
        StreamMode::Streaming,
    );
    let wav = build_record(
        1,
        "wav-model",
        SpeechResponseFormat::Wav,
        StreamMode::NonStreaming,
    );
    let mut compatible = assemble(
        RoutingStrategy::RoundRobin,
        vec![pcm, wav],
        None,
        AdmissionController::new(2, [None, None, None, None, Some(2), None]),
    );
    let requirement = RouteRequirement::new(
        ProfileRequirement::SpeechWebsocket {
            model: ModelSelection::UnresolvedDefault,
            response_format: Some(SpeechResponseFormat::Pcm),
            stream_mode: StreamMode::Streaming,
            task: Some(SpeechTask::TextToSpeech),
            reference_forms: vec![ReferenceForm::Absent],
            named_voice: false,
        },
        TrustDomain::new(String::from("local")),
    );
    let lease = dispatch_session(&mut compatible, CapacityClass::SpeechWebsocket, &requirement)
        .expect("dispatch compatible default");
    assert_eq!(lease.registration_ordinal(), 0);
    compatible.release(lease);

    let mut ambiguous = assemble(
        RoutingStrategy::RoundRobin,
        vec![
            build_record(0, "pcm-a", SpeechResponseFormat::Pcm, StreamMode::Streaming),
            build_record(1, "pcm-b", SpeechResponseFormat::Pcm, StreamMode::Streaming),
        ],
        None,
        AdmissionController::new(2, [None, None, None, None, Some(2), None]),
    );
    assert!(matches!(
        dispatch_session(&mut ambiguous, CapacityClass::SpeechWebsocket, &requirement),
        Err(DispatchError::AmbiguousModel)
    ));
}

#[test]
fn speech_websocket_named_voice_policy_follows_the_selected_model() {
    let build_record = |ordinal, model, policy| {
        let mut fixture = record_with_profile(
            ordinal,
            "local",
            model,
            speech_websocket_profile_with_policy(
                model,
                SpeechResponseFormat::Pcm,
                StreamMode::Streaming,
                policy,
            ),
        );
        fixture.speech_sessions = Some(1);
        fixture
    };
    let mut pool = assemble(
        RoutingStrategy::RoundRobin,
        vec![
            build_record(0, "custom", VoiceNamePolicy::Preset),
            build_record(1, "base", VoiceNamePolicy::Uploaded),
        ],
        None,
        AdmissionController::new(2, [None, None, None, None, Some(2), None]),
    );
    let requirement = |model| {
        RouteRequirement::new(
            ProfileRequirement::SpeechWebsocket {
                model,
                response_format: Some(SpeechResponseFormat::Pcm),
                stream_mode: StreamMode::Streaming,
                task: Some(SpeechTask::TextToSpeech),
                reference_forms: Vec::new(),
                named_voice: true,
            },
            TrustDomain::new(String::from("local")),
        )
    };

    let preset = dispatch_session(
        &mut pool,
        CapacityClass::SpeechWebsocket,
        &requirement(ModelSelection::Explicit(String::from("custom"))),
    )
    .expect("preset dispatch");
    assert_eq!(preset.registration_ordinal(), 0);
    pool.release(preset);

    assert!(matches!(
        dispatch_session(
            &mut pool,
            CapacityClass::SpeechWebsocket,
            &requirement(ModelSelection::UnresolvedDefault),
        ),
        Err(DispatchError::AmbiguousModel)
    ));
}

#[test]
fn admission_and_worker_load_release_on_every_drop() {
    let mut pool = pool(
        RoutingStrategy::RoundRobin,
        vec![record(0, "local", "omni")],
        1,
    );
    let lease = dispatch(
        &mut pool,
        CapacityClass::GenerationHttp,
        &requirement("omni", "local"),
    )
    .expect("dispatch");
    assert_eq!(
        pool.admission().available(),
        (0, [Some(0), None, None, None, None, None])
    );
    assert_eq!(pool.record(0).load(), 1);
    pool.release(lease);
    assert_eq!(
        pool.admission().available(),
        (1, [Some(1), None, None, None, None, None])
    );
    assert_eq!(pool.record(0).load(), 0);
}

#[test]
fn websocket_sessions_hold_exact_worker_capacity_and_active_load() {
    let mut fixture = record_with_profile(0, "local", "omni", ServiceProfile::RealtimeWebsocket);
    fixture.realtime_sessions = Some(1);
    let mut pool = assemble(
        RoutingStrategy::LeastRequests,
        vec![fixture],
        None,
        AdmissionController::new(2, [None, None, None, None, None, Some(2)]),
    );
    let requirement = RouteRequirement::new(
        ProfileRequirement::RealtimeWebsocket { model: None },
        TrustDomain::new(String::from("local")),
    );

    let first = dispatch_session(&mut pool, CapacityClass::RealtimeWebsocket, &requirement)
        .expect("first session");
    assert_eq!(pool.record(0).load(), 1);
    let snapshot = pool.operations_snapshot();
    assert_eq!(snapshot.workers[0].active_requests, 1);
    assert_eq!(snapshot.workers[0].session_capacity.len(), 1);
    assert_eq!(
        snapshot.workers[0].session_capacity[0].class,
        CapacityClass::RealtimeWebsocket
    );
    assert_eq!(snapshot.workers[0].session_capacity[0].limit, 1);
    assert_eq!(snapshot.workers[0].session_capacity[0].in_flight, 1);
    assert!(matches!(
        dispatch_session(&mut pool, CapacityClass::RealtimeWebsocket, &requirement),
        Err(DispatchError::Overloaded)
    ));

    pool.release(first);
    let reused = dispatch_session(&mut pool, CapacityClass::RealtimeWebsocket, &requirement)
        .expect("released session capacity is reusable");
    assert_eq!(pool.record(0).load(), 1);
    pool.release(reused);
    assert_eq!(pool.record(0).load(), 0);
}

#[test]
fn realtime_explicit_model_never_falls_back_when_its_worker_is_full() {
    let build_record = |ordinal, model| {
        let mut fixture =
            record_with_profile(ordinal, "local", model, ServiceProfile::RealtimeWebsocket);
        fixture.realtime_sessions = Some(1);
        fixture
    };
    let mut pool = assemble(
        RoutingStrategy::RoundRobin,
        vec![build_record(0, "omni-alpha"), build_record(1, "omni-beta")],
        None,
        AdmissionController::new(2, [None, None, None, None, None, Some(2)]),
    );
    let requirement = RouteRequirement::new(
        ProfileRequirement::RealtimeWebsocket {
            model: Some(String::from("omni-beta")),
        },
        TrustDomain::new(String::from("local")),
    );

    let preferred = dispatch_session(&mut pool, CapacityClass::RealtimeWebsocket, &requirement)
        .expect("select explicitly requested worker");
    assert_eq!(preferred.registration_ordinal(), 1);

    assert!(matches!(
        dispatch_session(&mut pool, CapacityClass::RealtimeWebsocket, &requirement),
        Err(DispatchError::Overloaded)
    ));
    pool.release(preferred);

    pool.publish_health(1, WorkerHealth::Unhealthy);
    assert!(matches!(
        dispatch_session(&mut pool, CapacityClass::RealtimeWebsocket, &requirement),
        Err(DispatchError::Unavailable)
    ));
    assert_eq!((pool.record(0).load(), pool.record(1).load()), (0, 0));
}

#[test]
fn operations_snapshot_reads_exact_permits_and_releases_with_the_lease() {
    let mut pool = pool(
        RoutingStrategy::RoundRobin,
        vec![record(0, "local", "omni")],
        4,
    );
    let initial = pool.operations_snapshot();
    assert_eq!(initial.admission[0].class, AdmissionClass::Global);
    assert_eq!(initial.admission[0].limit, 4);
    assert_eq!(initial.admission[0].in_flight, 0);
    assert_eq!(
        initial.admission[1].class,
        AdmissionClass::Service(CapacityClass::GenerationHttp)
    );
    assert_eq!(initial.admission[1].limit, 4);
    assert_eq!(initial.admission[2].limit, 0);
    assert_eq!(initial.workers[0].worker_id, "worker-0");
    assert_eq!(initial.workers[0].registration_ordinal, 0);
    assert_eq!(initial.workers[0].health, WorkerHealth::Healthy);
    assert!(initial.workers[0].routable);
    assert_eq!(initial.workers[0].active_requests, 0);
    assert!(initial.workers[0].session_capacity.is_empty());

    let lease = dispatch(
        &mut pool,
        CapacityClass::GenerationHttp,
        &requirement("omni", "local"),
    )
    .expect("snapshot dispatch");
    let occupied = pool.operations_snapshot();
    assert_eq!(occupied.admission[0].in_flight, 1);
    assert_eq!(occupied.admission[1].in_flight, 1);
    assert_eq!(occupied.workers[0].active_requests, 1);

    pool.release(lease);
    let released = pool.operations_snapshot();
    assert_eq!(released.admission[0].in_flight, 0);
    assert_eq!(released.admission[1].in_flight, 0);
    assert_eq!(released.workers[0].active_requests, 0);

    pool.publish_health(0, WorkerHealth::Unhealthy);
    pool.drain();
    let drained = pool.operations_snapshot();
    assert_eq!(drained.workers[0].health, WorkerHealth::Unhealthy);
    assert!(!drained.workers[0].routable);
}

#[test]
fn readiness_tracks_worker_health() {
    let mut fixture = record(0, "local", "omni");
    fixture.health = WorkerHealth::Unknown;
    let mut pool = pool(RoutingStrategy::RoundRobin, vec![fixture], 1);
    let trust = TrustDomain::new(String::from("local"));
    assert!(!pool.generation_http_ready(&trust));
    pool.publish_health(0, WorkerHealth::Healthy);
    assert!(pool.generation_http_ready(&trust));
}

#[test]
fn drain_rejects_new_admission_and_preserves_admitted_work() {
    let mut pool = pool(
        RoutingStrategy::RoundRobin,
        vec![record(0, "local", "omni")],
        1,
    );
    let trust = TrustDomain::new(String::from("local"));
    let admission = pool
        .try_admit(CapacityClass::GenerationHttp, 1)
        .expect("admission before drain");

    pool.drain();

    assert!(matches!(
        pool.try_admit(CapacityClass::GenerationHttp, 1),
        Err(AdmissionError::Draining)
    ));
    let lease = pool
        .content_blind_generation_http(&trust)
        .expect("homogeneous cohort")
        .dispatch(&mut pool, admission)
        .expect("admitted request may dispatch during drain");
    pool.release(lease);
}

fn media_record(ordinal: usize, profile: ServiceProfile) -> Fixture {
    let mut fixture = record_with_profile(ordinal, "local", "tts", profile);
    fixture.config.worker_id = format!("media-{ordinal}");
    fixture.config.base_url = format!("http://127.0.0.1:{}/", 12_000 + ordinal);
    fixture
}

fn media_pool(fixtures: Vec<Fixture>, voice_owner: Option<usize>) -> WorkerPool {
    assemble(
        RoutingStrategy::RoundRobin,
        fixtures,
        voice_owner,
        AdmissionController::new(8, [Some(8), Some(8), Some(8), Some(8), None, None]),
    )
}

fn batch_profile() -> ServiceProfile {
    ServiceProfile::SpeechBatch {
        model_ids: vec![String::from("tts")],
        response_formats: vec![SpeechResponseFormat::Wav],
        tasks: vec![SpeechTask::TextToSpeech],
        reference_forms: vec![ReferenceForm::Absent],
        voice_name_policy: VoiceNamePolicy::Preset,
        max_batch_size: 8,
    }
}

fn speech_profile() -> ServiceProfile {
    ServiceProfile::SpeechHttp {
        model_ids: vec![String::from("tts")],
        response_formats: vec![SpeechResponseFormat::Wav],
        stream_modes: vec![StreamMode::NonStreaming],
        tasks: vec![SpeechTask::TextToSpeech],
        reference_forms: vec![ReferenceForm::Absent],
        voice_name_policy: VoiceNamePolicy::Preset,
    }
}

fn named_speech_profile(model: &str, policy: VoiceNamePolicy) -> ServiceProfile {
    ServiceProfile::SpeechHttp {
        model_ids: vec![model.to_owned()],
        response_formats: vec![SpeechResponseFormat::Wav],
        stream_modes: vec![StreamMode::NonStreaming],
        tasks: vec![SpeechTask::TextToSpeech],
        reference_forms: vec![ReferenceForm::Absent],
        voice_name_policy: policy,
    }
}

fn named_speech_requirement(model: ModelSelection) -> RouteRequirement {
    RouteRequirement::new(
        ProfileRequirement::SpeechHttp {
            model,
            response_format: SpeechResponseFormat::Wav,
            stream_mode: StreamMode::NonStreaming,
            task: Some(SpeechTask::TextToSpeech),
            reference_forms: Vec::new(),
            named_voice: true,
        },
        TrustDomain::new(String::from("local")),
    )
}

fn voice_speech_record(ordinal: usize) -> Fixture {
    let mut fixture = media_record(ordinal, named_speech_profile("tts", VoiceNamePolicy::Uploaded));
    fixture.config.worker_id = format!("voice-{ordinal}");
    fixture.config.base_url = format!("http://127.0.0.1:{}/", 13_000 + ordinal);
    fixture.config.service_profiles.push(ServiceProfile::SpeechBatch {
        model_ids: vec![String::from("tts")],
        response_formats: vec![SpeechResponseFormat::Wav],
        tasks: vec![SpeechTask::TextToSpeech],
        reference_forms: vec![ReferenceForm::Absent],
        voice_name_policy: VoiceNamePolicy::Uploaded,
        max_batch_size: 8,
    });
    fixture.config.service_profiles.push(ServiceProfile::SpeechWebsocket {
        model_ids: vec![String::from("tts")],
        response_formats: vec![SpeechResponseFormat::Pcm],
        stream_modes: vec![StreamMode::NonStreaming],
        tasks: vec![SpeechTask::TextToSpeech],
        reference_forms: vec![ReferenceForm::Absent],
        voice_name_policy: VoiceNamePolicy::Uploaded,
    });
    fixture.speech_sessions = Some(1);
    fixture
}

fn references(named_voice: bool) -> Vec<ReferenceForm> {
    if named_voice {
        Vec::new()
    } else {
        vec![ReferenceForm::Absent]
    }
}

fn explicit_tts() -> ModelSelection {
    ModelSelection::Explicit(String::from("tts"))
}

fn speech_requirement(model: ModelSelection, named_voice: bool) -> RouteRequirement {
    RouteRequirement::new(
        ProfileRequirement::SpeechHttp {
            model,
            response_format: SpeechResponseFormat::Wav,
            stream_mode: StreamMode::NonStreaming,
            task: Some(SpeechTask::TextToSpeech),
            reference_forms: references(named_voice),
            named_voice,
        },
        TrustDomain::new(String::from("local")),
    )
}

fn batch_requirement(named_voice: bool) -> RouteRequirement {
    RouteRequirement::new(
        ProfileRequirement::SpeechBatch {
            models: vec![explicit_tts()],
            response_formats: vec![SpeechResponseFormat::Wav],
            tasks: vec![SpeechTask::TextToSpeech],
            reference_forms: references(named_voice),
            named_voice,
            batch_size: 1,
        },
        TrustDomain::new(String::from("local")),
    )
}

fn speech_websocket_requirement(model: ModelSelection, named_voice: bool) -> RouteRequirement {
    RouteRequirement::new(
        ProfileRequirement::SpeechWebsocket {
            model,
            response_format: Some(SpeechResponseFormat::Pcm),
            stream_mode: StreamMode::NonStreaming,
            task: Some(SpeechTask::TextToSpeech),
            reference_forms: references(named_voice),
            named_voice,
        },
        TrustDomain::new(String::from("local")),
    )
}

#[test]
fn voice_owner_dispatch_is_exact_and_mixed_speech_requires_classification() {
    for strategy in [RoutingStrategy::RoundRobin, RoutingStrategy::LeastRequests] {
        let owner = voice_speech_record(0);
        let mut non_owner = voice_speech_record(1);
        non_owner.config.default_model_id = Some(String::from("other"));
        for profile in &mut non_owner.config.service_profiles {
            match profile {
                ServiceProfile::SpeechHttp { model_ids, .. }
                | ServiceProfile::SpeechBatch { model_ids, .. }
                | ServiceProfile::SpeechWebsocket { model_ids, .. } => {
                    model_ids.push(String::from("other"));
                }
                _ => panic!("voice fixture contains only speech profiles"),
            }
        }
        let mut pool = assemble(
            strategy,
            vec![owner, non_owner],
            Some(0),
            AdmissionController::new(8, [None, Some(4), Some(4), None, Some(4), None]),
        );

        assert!(pool.voice_owner_ready());
        assert!(
            pool.content_blind_media_http(
                &TrustDomain::new(String::from("local")),
                HttpMediaRoute::Speech,
            )
            .is_none()
        );

        let omitted_http = dispatch(
            &mut pool,
            CapacityClass::SpeechHttp,
            &speech_requirement(ModelSelection::UnresolvedDefault, true),
        )
        .expect("owner default is deterministic");
        assert_eq!(omitted_http.registration_ordinal(), 0);
        pool.release(omitted_http);

        for (class, named, stateless) in [
            (
                CapacityClass::SpeechHttp,
                speech_requirement(explicit_tts(), true),
                speech_requirement(explicit_tts(), false),
            ),
            (
                CapacityClass::SpeechBatch,
                batch_requirement(true),
                batch_requirement(false),
            ),
        ] {
            let named = dispatch(&mut pool, class, &named).expect("named voice dispatch");
            assert_eq!(named.registration_ordinal(), 0);
            pool.release(named);

            let mut reached_non_owner = false;
            for _ in 0..2 {
                let lease =
                    dispatch(&mut pool, class, &stateless).expect("stateless policy dispatch");
                reached_non_owner |= lease.registration_ordinal() == 1;
                pool.release(lease);
            }
            assert!(reached_non_owner);
        }

        let session = dispatch_session(
            &mut pool,
            CapacityClass::SpeechWebsocket,
            &speech_websocket_requirement(explicit_tts(), true),
        )
        .expect("named voice session dispatch");
        assert_eq!(session.registration_ordinal(), 0);
        pool.release(session);

        let session = dispatch_session(
            &mut pool,
            CapacityClass::SpeechWebsocket,
            &speech_websocket_requirement(ModelSelection::UnresolvedDefault, true),
        )
        .expect("owner session default is deterministic");
        assert_eq!(session.registration_ordinal(), 0);
        pool.release(session);

        let envelope = pool.try_admit_envelope().expect("voice admission");
        let control = pool
            .dispatch_voice_owner(envelope)
            .expect("exact owner dispatch");
        assert_eq!(control.registration_ordinal(), 0);
        assert_eq!(pool.record(0).load(), 1);
        pool.release(control);
        assert_eq!(pool.record(0).load(), 0);

        pool.publish_health(0, WorkerHealth::Unhealthy);
        assert!(!pool.voice_owner_ready());
        let envelope = pool
            .try_admit_envelope()
            .expect("unhealthy owner admission");
        assert_eq!(
            pool.dispatch_voice_owner(envelope).err(),
            Some(DispatchError::Unavailable)
        );
    }
}

#[test]
fn owner_only_speech_keeps_content_blind_proof() {
    let pool = media_pool(vec![voice_speech_record(0)], Some(0));
    assert!(
        pool.content_blind_media_http(
            &TrustDomain::new(String::from("local")),
            HttpMediaRoute::Speech,
        )
        .is_some()
    );
}

#[test]
fn uploaded_voice_speech_without_an_owner_requires_classification() {
    let pool = media_pool(vec![voice_speech_record(0)], None);

    assert!(
        pool.content_blind_media_http(
            &TrustDomain::new(String::from("local")),
            HttpMediaRoute::Speech,
        )
        .is_none()
    );
}

#[test]
fn unrelated_voice_owner_does_not_disable_preset_content_blind_proof() {
    let mut owner = voice_speech_record(0);
    owner.config.trust_domain = String::from("owner");
    let preset = record_with_profile(
        1,
        "local",
        "custom",
        named_speech_profile("custom", VoiceNamePolicy::Preset),
    );
    let pool = media_pool(vec![owner, preset], Some(0));

    assert!(
        pool.content_blind_media_http(
            &TrustDomain::new(String::from("local")),
            HttpMediaRoute::Speech,
        )
        .is_some()
    );
}

#[test]
fn preset_voice_uses_normal_selection_with_an_uploaded_voice_owner() {
    let preset = record_with_profile(
        1,
        "local",
        "custom",
        named_speech_profile("custom", VoiceNamePolicy::Preset),
    );
    let mut pool = media_pool(vec![voice_speech_record(0), preset], Some(0));

    let lease = dispatch(
        &mut pool,
        CapacityClass::SpeechHttp,
        &named_speech_requirement(ModelSelection::Explicit(String::from("custom"))),
    )
    .expect("preset dispatch");
    assert_eq!(lease.registration_ordinal(), 1);
}

#[test]
fn uploaded_voice_owner_must_declare_its_default_model() {
    let mut owner = voice_speech_record(0);
    owner.config.default_model_id = None;
    let mut pool = assemble(
        RoutingStrategy::RoundRobin,
        vec![owner],
        Some(0),
        AdmissionController::new(8, [None, Some(4), Some(4), None, Some(4), None]),
    );

    assert!(matches!(
        dispatch(
            &mut pool,
            CapacityClass::SpeechHttp,
            &speech_requirement(ModelSelection::UnresolvedDefault, true),
        ),
        Err(DispatchError::AmbiguousModel)
    ));

    assert!(matches!(
        dispatch_session(
            &mut pool,
            CapacityClass::SpeechWebsocket,
            &speech_websocket_requirement(ModelSelection::UnresolvedDefault, true),
        ),
        Err(DispatchError::AmbiguousModel)
    ));
}

#[test]
fn homogeneous_media_uses_existing_policy_and_skips_unhealthy_workers() {
    let mut pool = media_pool(
        vec![
            media_record(0, speech_profile()),
            media_record(1, speech_profile()),
        ],
        None,
    );
    let trust = TrustDomain::new(String::from("local"));
    let first_lease = dispatch_blind_speech(&mut pool, &trust);
    assert_eq!(first_lease.registration_ordinal(), 0);
    let second_lease = dispatch_blind_speech(&mut pool, &trust);
    assert_eq!(second_lease.registration_ordinal(), 1);
    pool.release(first_lease);
    pool.publish_health(0, WorkerHealth::Unhealthy);
    pool.release(second_lease);
    let healthy = dispatch_blind_speech(&mut pool, &trust);
    assert_eq!(healthy.registration_ordinal(), 1);
}

#[test]
fn unrelated_media_only_worker_does_not_change_chat_cohort_or_readiness() {
    let mut pool = media_pool(
        vec![record(0, "local", "omni"), media_record(1, speech_profile())],
        None,
    );
    let trust = TrustDomain::new(String::from("local"));
    assert!(pool.generation_http_ready(&trust));
    let lease = dispatch_blind_chat(&mut pool, &trust);
    assert_eq!(lease.registration_ordinal(), 0);
}

fn sized_batch(batch_size: u16) -> RouteRequirement {
    RouteRequirement::new(
        ProfileRequirement::SpeechBatch {
            models: vec![explicit_tts()],
            response_formats: vec![SpeechResponseFormat::Wav],
            tasks: vec![SpeechTask::TextToSpeech],
            reference_forms: vec![ReferenceForm::Absent],
            named_voice: false,
            batch_size,
        },
        TrustDomain::new(String::from("local")),
    )
}

#[test]
fn batch_counts_all_item_credits_and_releases_once() {
    let mut pool = media_pool(vec![media_record(0, batch_profile())], None);
    let admission = granted(&mut pool, CapacityClass::SpeechBatch, 3);
    let lease = pool
        .dispatch(admission, &sized_batch(3))
        .expect("batch dispatch");
    assert_eq!(pool.record(0).load(), 3);
    pool.release(lease);
    assert_eq!(pool.record(0).load(), 0);
    let admission = granted(&mut pool, CapacityClass::SpeechBatch, 5);
    let lease = pool
        .dispatch(admission, &sized_batch(5))
        .expect("five-item batch dispatch");
    assert_eq!(pool.record(0).load(), 5);
    pool.release(lease);
    assert_eq!(pool.record(0).load(), 0);
}

#[test]
fn named_voice_policy_follows_the_selected_model() {
    let preset = record_with_profile(
        0,
        "local",
        "custom",
        named_speech_profile("custom", VoiceNamePolicy::Preset),
    );
    let uploaded = record_with_profile(
        1,
        "local",
        "base",
        named_speech_profile("base", VoiceNamePolicy::Uploaded),
    );
    let mut pool = media_pool(vec![preset, uploaded], Some(1));

    let preset_lease = dispatch(
        &mut pool,
        CapacityClass::SpeechHttp,
        &named_speech_requirement(ModelSelection::Explicit(String::from("custom"))),
    )
    .expect("preset dispatch");
    assert_eq!(preset_lease.registration_ordinal(), 0);
    pool.release(preset_lease);

    let uploaded_lease = dispatch(
        &mut pool,
        CapacityClass::SpeechHttp,
        &named_speech_requirement(ModelSelection::Explicit(String::from("base"))),
    )
    .expect("uploaded dispatch");
    assert_eq!(uploaded_lease.registration_ordinal(), 1);
    pool.release(uploaded_lease);

    assert!(matches!(
        dispatch(
            &mut pool,
            CapacityClass::SpeechHttp,
            &named_speech_requirement(ModelSelection::UnresolvedDefault),
        ),
        Err(DispatchError::AmbiguousModel)
    ));
}

#[test]
fn uploaded_voice_requires_an_owner() {
    let uploaded = record_with_profile(
        0,
        "local",
        "base",
        named_speech_profile("base", VoiceNamePolicy::Uploaded),
    );
    let mut pool = media_pool(vec![uploaded], None);

    assert!(matches!(
        dispatch(
            &mut pool,
            CapacityClass::SpeechHttp,
            &named_speech_requirement(ModelSelection::Explicit(String::from("base"))),
        ),
        Err(DispatchError::NoEligibleProfile)
    ));
}

#[test]
fn class_mismatch_and_missing_session_slots_fail_internally_and_release() {
    let mut pool = media_pool(vec![record(0, "local", "omni")], None);
    let before = pool.admission().available();
    assert!(matches!(
        dispatch(&mut pool, CapacityClass::SpeechHttp, &requirement("omni", "local")),
        Err(DispatchError::Internal)
    ));
    assert!(matches!(
        dispatch_session(&mut pool, CapacityClass::GenerationHttp, &requirement("omni", "local")),
        Err(DispatchError::Internal)
    ));
    let envelope = pool.try_admit_envelope().expect("voice admission");
    assert_eq!(
        pool.dispatch_voice_owner(envelope).err(),
        Some(DispatchError::Internal)
    );
    assert_eq!(pool.admission().available(), before);
}

#[test]
fn requests_never_leave_their_trust_domain() {
    let mut pool = pool(
        RoutingStrategy::RoundRobin,
        vec![record(0, "local", "omni")],
        1,
    );
    assert!(matches!(
        dispatch(
            &mut pool,
            CapacityClass::GenerationHttp,
            &requirement("omni", "remote"),
        ),
        Err(DispatchError::NoEligibleProfile)
    ));
    assert_eq!(
        pool.admission().available(),
        (1, [Some(1), None, None, None, None, None])
    );
}

#[test]
fn full_admission_is_overloaded_and_unconfigured_classes_admit_nothing() {
    let mut pool = pool(
        RoutingStrategy::RoundRobin,
        vec![record(0, "local", "omni")],
        2,
    );
    assert_eq!(
        pool.try_admit(CapacityClass::SpeechHttp, 1).err(),
        Some(AdmissionError::Overloaded)
    );
    assert_eq!(
        pool.try_admit(CapacityClass::GenerationHttp, 3).err(),
        Some(AdmissionError::Overloaded)
    );
    let held = granted(&mut pool, CapacityClass::GenerationHttp, 2);
    assert_eq!(held.credits(), 2);
    assert_eq!(held.class(), CapacityClass::GenerationHttp);
    assert_eq!(
        pool.try_admit(CapacityClass::GenerationHttp, 1).err(),
        Some(AdmissionError::Overloaded)
    );
    let second = pool.try_admit_envelope().expect("second envelope");
    assert_eq!(
        pool.try_admit_envelope().err(),
        Some(AdmissionError::Overloaded)
    );
    pool.release_envelope(second);
    pool.release_admission(held);
    assert_eq!(
        pool.admission().available(),
        (2, [Some(2), None, None, None, None, None])
    );
}

#[test]
fn readiness_and_batch_support_follow_services_and_domains() {
    let mut pool = media_pool(
        vec![
            media_record(0, batch_profile()),
            media_record(1, speech_profile()),
        ],
        None,
    );
    let local = TrustDomain::new(String::from("local"));
    let remote = TrustDomain::new(String::from("remote"));
    assert!(pool.media_http_ready(&local, &[HttpMediaRoute::Speech, HttpMediaRoute::SpeechBatch]));
    assert!(!pool.media_http_ready(&local, &[HttpMediaRoute::Translation]));
    assert!(!pool.media_http_ready(&remote, &[HttpMediaRoute::Speech]));
    assert!(pool.media_http_ready(&remote, &[]));
    assert!(pool.supports_speech_batch_size(&local, 8));
    assert!(!pool.supports_speech_batch_size(&local, 9));
    assert!(!pool.supports_speech_batch_size(&remote, 1));
    pool.publish_health(0, WorkerHealth::Unhealthy);
    assert!(!pool.media_http_ready(&local, &[HttpMediaRoute::SpeechBatch]));
    assert!(pool.supports_speech_batch_size(&local, 8));
    assert!(!pool.voice_state_enabled());
    assert!(pool.voice_owner_ready());
}

#[test]
fn load_wraps_and_never_underflows() {
    let mut worker = record(0, "local", "omni").register();
    worker.increment_load(usize::MAX);
    worker.increment_load(2);
    assert_eq!(worker.load(), 1);
    worker.decrement_load(2);
    assert_eq!(worker.load(), 1);
    worker.decrement_load(1);
    assert_eq!(worker.load(), 0);
}

#[test]
fn rows_are_compared_as_sets_within_one_service() {
    let mut reordered = profile("omni");
    let mut listed = profile("omni");
    for row in [&mut reordered, &mut listed] {
        if let ServiceProfile::GenerationHttp { stream_modes, .. } = row {
            stream_modes.push(StreamMode::Streaming);
        }
    }
    if let ServiceProfile::GenerationHttp { stream_modes, .. } = &mut reordered {
        stream_modes.reverse();
    }
    assert!(listed.semantically_eq(&reordered));
    assert!(generation_rows_equal(
        &[listed, speech_profile()],
        &[reordered],
    ));
    assert!(!generation_rows_equal(
        &[profile("omni"), profile("other")],
        &[profile("omni")],
    ));
    assert!(!generation_rows_equal(&[profile("omni")], &[profile("other")]));
}

#[test]
fn routes_match_rows_of_their_service_and_task() {
    assert!(HttpMediaRoute::Speech.matches_profile(&speech_profile()));
    assert!(!HttpMediaRoute::SpeechBatch.matches_profile(&speech_profile()));
    assert!(HttpMediaRoute::SpeechBatch.matches_profile(&batch_profile()));
    let translation = ServiceProfile::TranscriptionHttp {
        model_ids: vec![String::from("asr")],
        task: SpeechToTextTask::Translate,
        response_formats: vec![TranscriptionResponseFormat::Json],
        stream_modes: vec![StreamMode::NonStreaming],
    };
    assert!(HttpMediaRoute::Translation.matches_profile(&translation));
    assert!(!HttpMediaRoute::Transcription.matches_profile(&translation));
}
