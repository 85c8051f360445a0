use sgl_omni_router::config::{AdmissionConfig, HttpMediaConfig, HttpMediaRoute, PoolConfig, RoutingStrategy};
use sgl_omni_router::error::HttpFault;
use sgl_omni_router::http_media::headers::{HeaderField, RequestFraming};
use sgl_omni_router::http_media::{
    classify, BodyReader, Classifier, HttpMedia, MediaFault, MediaIngress, MediaRequest, MediaStep,
};
use sgl_omni_router::worker_pool::admission::{AdmissionError, DispatchError};
use sgl_omni_router::worker_pool::health::WorkerHealth;
use sgl_omni_router::worker_pool::pool::WorkerPool;
use sgl_omni_router::worker_pool::profile::{
    CapacityClass, ModelSelection, ProfileRequirement, ReferenceForm, ServiceProfile,
    SpeechResponseFormat, SpeechTask, SpeechToTextTask, StreamMode, TranscriptionResponseFormat,
    TrustDomain, VoiceNamePolicy, WorkerCapacityConfig, WorkerConfig,
};

const JSON: &[u8] = b"application/json";

const FORM: &[u8] = b"multipart/form-data; boundary=b";

fn worker(ordinal: usize, model: &str) -> WorkerConfig {
    WorkerConfig {
        worker_id: format!("worker-{ordinal}"),
        base_url: format!("http://127.0.0.1:{}/", 9_000 + ordinal),
        trust_domain: String::from("local"),
        default_model_id: Some(model.to_owned()),
        health_path: String::from("/health"),
        capacity: WorkerCapacityConfig::default(),
        service_profiles: vec![
            ServiceProfile::SpeechHttp {
                model_ids: vec![model.to_owned()],
                response_formats: vec![SpeechResponseFormat::Wav],
                stream_modes: vec![StreamMode::NonStreaming],
                tasks: vec![SpeechTask::TextToSpeech],
                reference_forms: vec![ReferenceForm::Absent],
                voice_name_policy: VoiceNamePolicy::Preset,
            },
            ServiceProfile::SpeechBatch {
                model_ids: vec![model.to_owned()],
                response_formats: vec![SpeechResponseFormat::Wav],
                tasks: vec![SpeechTask::TextToSpeech],
                reference_forms: vec![ReferenceForm::Absent],
                voice_name_policy: VoiceNamePolicy::Preset,
                max_batch_size: 3,
            },
            ServiceProfile::TranscriptionHttp {
                model_ids: vec![model.to_owned()],
                response_formats: vec![TranscriptionResponseFormat::Json],
                stream_modes: vec![StreamMode::NonStreaming],
                task: SpeechToTextTask::Transcribe,
            },
        ],
    }
}

fn pool(models: &[&str], owner: Option<&str>) -> WorkerPool {
    let workers = models
        .iter()
        .enumerate()
        .map(|(ordinal, model)| worker(ordinal, model))
        .collect();
    pool_of(workers, owner)
}

fn pool_of(workers: Vec<WorkerConfig>, owner: Option<&str>) -> WorkerPool {
    let mut pool = WorkerPool::build(PoolConfig {
        workers,
        admission: AdmissionConfig {
            global: 3,
            generation_http: None,
            speech_http: Some(1),
            speech_batch: Some(4),
            transcription_http: Some(2),
            speech_websocket: None,
            realtime_websocket: None,
        },
        voice_owner_worker_id: owner.map(String::from),
        strategy: RoutingStrategy::RoundRobin,
    })
    .expect("pool");
    for ordinal in 0..pool.worker_count() {
        pool.publish_health(ordinal, WorkerHealth::Healthy);
    }
    pool
}

fn config() -> HttpMediaConfig {
    HttpMediaConfig {
        trust_domain: String::from("local"),
        routes: vec![HttpMediaRoute::Speech, HttpMediaRoute::SpeechBatch],
        buffered_request_max_bytes: 10,
        streamed_request_max_bytes: 20,
        request_timeout_ms: 30,
    }
}

fn gateway() -> HttpMedia {
    HttpMedia::build(Some(config()), config(), false).expect("gateway")
}

fn request(path: &str, content_type: &[u8], envelope: Result<Option<u64>, HttpFault>) -> MediaRequest {
    MediaRequest {
        method: String::from("POST"),
        is_http_11: true,
        path: path.to_owned(),
        has_query: false,
        headers: vec![HeaderField {
            name: String::from("content-type"),
            value: content_type.to_vec(),
        }],
        envelope,
    }
}

fn speech(length: u64) -> MediaRequest {
    request("/v1/audio/speech", JSON, Ok(Some(length)))
}

fn speech_needs(model: &str) -> ProfileRequirement {
    ProfileRequirement::SpeechHttp {
        model: ModelSelection::Explicit(model.to_owned()),
        response_format: SpeechResponseFormat::Wav,
        stream_mode: StreamMode::NonStreaming,
        task: Some(SpeechTask::TextToSpeech),
        reference_forms: vec![ReferenceForm::Absent],
        named_voice: false,
    }
}

fn batch_needs(batch_size: u16) -> ProfileRequirement {
    ProfileRequirement::SpeechBatch {
        models: vec![ModelSelection::UnresolvedDefault],
        response_formats: vec![SpeechResponseFormat::Wav],
        tasks: vec![SpeechTask::TextToSpeech],
        reference_forms: vec![ReferenceForm::Absent],
        named_voice: false,
        batch_size,
    }
}

#[test]
fn routes_have_fixed_paths_classes_and_kinds() {
    for (route, path, class) in [
        (HttpMediaRoute::Speech, "/v1/audio/speech", CapacityClass::SpeechHttp),
        (
            HttpMediaRoute::SpeechBatch,
            "/v1/audio/speech/batch",
            CapacityClass::SpeechBatch,
        ),
        (
            HttpMediaRoute::Transcription,
            "/v1/audio/transcriptions",
            CapacityClass::TranscriptionHttp,
        ),
        (
            HttpMediaRoute::Translation,
            "/v1/audio/translations",
            CapacityClass::TranscriptionHttp,
        ),
    ] {
        assert_eq!(route.path(), path);
        assert_eq!(route.capacity(), class);
    }
    assert_eq!(HttpMediaRoute::Speech.speech_to_text_task(), None);
    assert_eq!(
        HttpMediaRoute::Translation.speech_to_text_task(),
        Some(SpeechToTextTask::Translate)
    );
}

fn trust(domain: &str) -> TrustDomain {
    TrustDomain::new(domain.to_owned())
}

#[test]
fn forms_need_their_boundary() {
    let unhinted = |reader: BodyReader| Classifier {
        reader,
        route_model: None,
        route_stream: None,
        trust: trust("local"),
    };
    let classify_plain =
        |route, boundary: Option<&[u8]>| classify(route, boundary, None, None, &trust("local"));
    assert_eq!(
        classify_plain(HttpMediaRoute::Speech, None),
        Ok(unhinted(BodyReader::Speech))
    );
    assert_eq!(
        classify_plain(HttpMediaRoute::SpeechBatch, Some(b"b")),
        Ok(unhinted(BodyReader::SpeechBatch))
    );
    assert_eq!(
        classify_plain(HttpMediaRoute::Transcription, Some(b"b")),
        Ok(unhinted(BodyReader::Transcription(b"b".to_vec())))
    );
    assert_eq!(
        classify_plain(HttpMediaRoute::Translation, Some(b"c")),
        Ok(unhinted(BodyReader::Translation(b"c".to_vec())))
    );
    assert_eq!(
        classify_plain(HttpMediaRoute::Translation, None),
        Err(HttpFault::UnsupportedMediaType)
    );
}

#[test]
fn hints_and_the_trust_domain_go_with_the_body() {
    let framing = RequestFraming {
        content_length: Some(3),
        content_type: String::from("multipart/form-data; boundary=b"),
        boundary: Some(b"b".to_vec()),
        route_model: Some(String::from("asr")),
        route_stream: Some(true),
    };
    let expected = Classifier {
        reader: BodyReader::Translation(b"b".to_vec()),
        route_model: Some(String::from("asr")),
        route_stream: Some(true),
        trust: trust("local"),
    };
    assert_eq!(
        classify(
            HttpMediaRoute::Translation,
            Some(b"b"),
            Some("asr"),
            Some(true),
            &trust("local"),
        ),
        Ok(expected.clone())
    );
    assert_eq!(
        gateway().classifier(HttpMediaRoute::Translation, &framing),
        Ok(expected)
    );
    let voices = HttpMedia::build(None, config(), true).expect("voices");
    assert_eq!(
        voices.classifier(HttpMediaRoute::Translation, &framing),
        Err(HttpFault::InternalError)
    );
}

#[test]
fn requests_stay_in_the_trust_domain_of_the_gateway() {
    let mut foreign = worker(0, "tts");
    foreign.trust_domain = String::from("foreign");
    let mut workers = pool_of(vec![foreign, worker(1, "tts"), worker(2, "other")], None);
    let media = gateway();
    for _ in 0..3 {
        let ingress = match media.begin(&mut workers, &speech(10), HttpMediaRoute::Speech) {
            Ok(MediaStep::Read(_, ingress)) => ingress,
            _ => panic!("the body is read"),
        };
        let lease = media
            .finish(
                &mut workers,
                HttpMediaRoute::Speech,
                ingress,
                1,
                speech_needs("tts"),
            )
            .expect("dispatch");
        assert_eq!(lease.registration_ordinal(), 1);
        workers.release(lease);
    }

    let mut foreign = worker(0, "tts");
    foreign.trust_domain = String::from("foreign");
    let mut workers = pool_of(vec![foreign, worker(1, "tts")], None);
    for _ in 0..3 {
        match media.begin(&mut workers, &speech(10), HttpMediaRoute::Speech) {
            Ok(MediaStep::Relay(_, lease)) => {
                assert_eq!(lease.registration_ordinal(), 1);
                workers.release(lease);
            }
            _ => panic!("the request is relayed"),
        }
    }
}

#[test]
fn gateways_exist_for_media_or_voices() {
    assert!(HttpMedia::build(None, config(), false).is_none());
    let voices = HttpMedia::build(None, config(), true).expect("voices");
    assert!(voices.enables(HttpMediaRoute::Speech));
    assert!(!voices.enables(HttpMediaRoute::Translation));
    assert_eq!(
        (voices.buffered_max(), voices.streamed_max(), voices.request_timeout_ms()),
        (10, 20, 30)
    );
    let mut workers = pool(&["tts"], Some("worker-0"));
    assert!(voices.voice_routes_enabled(&workers));
    assert!(voices.is_ready(&workers));
    assert_eq!(
        voices.begin(&mut workers, &speech(1), HttpMediaRoute::Speech).err(),
        Some(MediaFault::Fault(HttpFault::InternalError))
    );
    workers.publish_health(0, WorkerHealth::Unhealthy);
    assert!(!voices.is_ready(&workers));
    assert!(!gateway().voice_routes_enabled(&pool(&["tts"], None)));
}

#[test]
fn request_lines_are_checked_before_anything_else() {
    let mut workers = pool(&["tts"], None);
    let media = gateway();
    let mut wrong = request("/v1/audio/other", b"text/plain", Err(HttpFault::ExpectationFailed));
    wrong.method = String::from("GET");
    wrong.is_http_11 = false;
    let mut fault = |request: &MediaRequest| {
        media
            .begin(&mut workers, request, HttpMediaRoute::Speech)
            .err()
    };
    assert_eq!(fault(&wrong), Some(MediaFault::Fault(HttpFault::MethodNotAllowed)));
    wrong.method = String::from("POST");
    assert_eq!(
        fault(&wrong),
        Some(MediaFault::Fault(HttpFault::HttpVersionNotSupported))
    );
    wrong.is_http_11 = true;
    assert_eq!(fault(&wrong), Some(MediaFault::Fault(HttpFault::MalformedRequest)));
    wrong.path = String::from("/v1/audio/speech");
    wrong.has_query = true;
    assert_eq!(fault(&wrong), Some(MediaFault::Fault(HttpFault::MalformedRequest)));
    wrong.has_query = false;
    assert_eq!(
        fault(&wrong),
        Some(MediaFault::Fault(HttpFault::UnsupportedMediaType))
    );
    wrong.headers[0].value = JSON.to_vec();
    assert_eq!(fault(&wrong), Some(MediaFault::Fault(HttpFault::ExpectationFailed)));
}

#[test]
fn a_uniform_cohort_is_relayed_unread_up_to_the_streamed_limit() {
    let mut workers = pool(&["tts", "tts"], None);
    let media = gateway();
    assert!(media.is_ready(&workers));
    for expected in [0, 1, 0] {
        match media.begin(&mut workers, &speech(20), HttpMediaRoute::Speech) {
            Ok(MediaStep::Relay(framing, lease)) => {
                assert_eq!(framing.content_length, Some(20));
                assert_eq!(lease.registration_ordinal(), expected);
                assert_eq!(workers.record(expected).load(), 1);
                workers.release(lease);
            }
            _ => panic!("the request is relayed"),
        }
    }
    assert_eq!(
        media
            .begin(&mut workers, &speech(21), HttpMediaRoute::Speech)
            .err(),
        Some(MediaFault::Fault(HttpFault::RequestBodyTooLarge))
    );
    assert_eq!(workers.admission().available().0, 3);
}

#[test]
fn hints_make_the_router_read_the_body() {
    let mut workers = pool(&["tts", "tts"], None);
    let media = gateway();
    let mut hinted = speech(10);
    hinted.headers.push(HeaderField {
        name: String::from("x-sglang-omni-route-model"),
        value: b"tts".to_vec(),
    });
    match media.begin(&mut workers, &hinted, HttpMediaRoute::Speech) {
        Ok(MediaStep::Read(framing, ingress)) => {
            assert_eq!(framing.route_model.as_deref(), Some("tts"));
            assert!(matches!(ingress, MediaIngress::Admission(_)));
            media.abandon(&mut workers, ingress);
        }
        _ => panic!("the body is read"),
    }
    assert_eq!(workers.admission().available().0, 3);
    hinted.envelope = Ok(Some(11));
    assert_eq!(
        media.begin(&mut workers, &hinted, HttpMediaRoute::Speech).err(),
        Some(MediaFault::Fault(HttpFault::RequestBodyTooLarge))
    );
}

#[test]
fn mixed_cohorts_are_read_and_then_dispatched() {
    let mut workers = pool(&["first", "second"], None);
    let media = gateway();
    let ingress = match media.begin(&mut workers, &speech(10), HttpMediaRoute::Speech) {
        Ok(MediaStep::Read(_, ingress)) => ingress,
        _ => panic!("the body is read"),
    };
    assert_eq!(
        media.begin(&mut workers, &speech(1), HttpMediaRoute::Speech).err(),
        Some(MediaFault::Admission(AdmissionError::Overloaded))
    );
    let lease = media
        .finish(
            &mut workers,
            HttpMediaRoute::Speech,
            ingress,
            1,
            speech_needs("second"),
        )
        .expect("dispatch");
    assert_eq!(lease.registration_ordinal(), 1);
    workers.release(lease);

    let ingress = match media.begin(&mut workers, &speech(10), HttpMediaRoute::Speech) {
        Ok(MediaStep::Read(_, ingress)) => ingress,
        _ => panic!("the body is read"),
    };
    assert_eq!(
        media
            .finish(
                &mut workers,
                HttpMediaRoute::Speech,
                ingress,
                1,
                speech_needs("third"),
            )
            .err(),
        Some(MediaFault::Dispatch(DispatchError::NoEligibleProfile))
    );
    assert_eq!(workers.admission().available().0, 3);
    workers.drain();
    assert_eq!(
        media.begin(&mut workers, &speech(1), HttpMediaRoute::Speech).err(),
        Some(MediaFault::Admission(AdmissionError::Draining))
    );
}

#[test]
fn batches_pay_for_their_items_after_the_body_is_read() {
    let mut workers = pool(&["tts"], None);
    let media = gateway();
    let batch = request("/v1/audio/speech/batch", JSON, Ok(None));
    for (credits, expected) in [
        (4, Some(MediaFault::Fault(HttpFault::NoCompatibleWorker))),
        (3, None),
        (2, Some(MediaFault::Admission(AdmissionError::Overloaded))),
    ] {
        let before = workers.admission().available();
        match media.begin(&mut workers, &batch, HttpMediaRoute::SpeechBatch) {
            Ok(MediaStep::Read(_, ingress)) => {
                assert!(matches!(ingress, MediaIngress::Envelope(_)));
                let outcome = media.finish(
                    &mut workers,
                    HttpMediaRoute::SpeechBatch,
                    ingress,
                    u32::from(credits),
                    batch_needs(credits),
                );
                match expected {
                    Some(fault) => {
                        assert_eq!(outcome.err(), Some(fault));
                        assert_eq!(workers.admission().available(), before);
                    }
                    None => {
                        let lease = outcome.expect("batch");
                        assert_eq!(lease.registration_ordinal(), 0);
                        assert_eq!(workers.record(0).load(), 3);
                    }
                }
            }
            _ => panic!("the batch is read"),
        }
    }
}

#[test]
fn forms_carry_their_boundary_to_the_worker() {
    let mut workers = pool(&["asr"], None);
    let media = gateway();
    let form = request("/v1/audio/transcriptions", FORM, Ok(Some(5)));
    match media.begin(&mut workers, &form, HttpMediaRoute::Transcription) {
        Ok(MediaStep::Relay(framing, lease)) => {
            assert_eq!(framing.boundary.as_deref(), Some(b"b".as_slice()));
            workers.release(lease);
        }
        _ => panic!("the form is relayed"),
    }
    workers.publish_health(0, WorkerHealth::Unhealthy);
    assert_eq!(
        media
            .begin(&mut workers, &form, HttpMediaRoute::Transcription)
            .err(),
        Some(MediaFault::Dispatch(DispatchError::Unavailable))
    );
    assert_eq!(workers.admission().available().0, 3);
}
