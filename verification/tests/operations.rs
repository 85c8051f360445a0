use std::collections::BTreeSet;

use sgl_omni_router::error::WorkerPoolInvariant;
use sgl_omni_router::lifecycle::State as LifecycleState;
use sgl_omni_router::operations::diagnostics::Diagnostics;
use sgl_omni_router::operations::metrics::{can_render_metrics, render_metrics};
use sgl_omni_router::operations::models::{inventory, render_model_sources, render_models};
use sgl_omni_router::operations::render::encode_strings;
use sgl_omni_router::operations::{response, Operations};
use sgl_omni_router::worker_pool::health::WorkerHealth;
use sgl_omni_router::worker_pool::profile::{
    CapacityClass, InputModality, MessageContentForm, OutputModality, ServiceProfile, StreamMode,
    WorkerCapacityConfig, WorkerConfig,
};
use sgl_omni_router::worker_pool::snapshot::{
    AdmissionClass, AdmissionSnapshot, OperationsSnapshot, SessionCapacitySnapshot, WorkerSnapshot,
};

fn admission(class: AdmissionClass, limit: usize, in_flight: usize) -> AdmissionSnapshot {
    AdmissionSnapshot {
        class,
        limit,
        in_flight,
    }
}

fn capacity(class: CapacityClass, limit: usize, in_flight: usize) -> SessionCapacitySnapshot {
    SessionCapacitySnapshot {
        class,
        limit,
        in_flight,
    }
}

fn representative_snapshot() -> OperationsSnapshot {
    OperationsSnapshot {
        admission: [
            admission(AdmissionClass::Global, 100, 0),
            admission(
                AdmissionClass::Service(CapacityClass::GenerationHttp),
                101,
                1,
            ),
            admission(AdmissionClass::Service(CapacityClass::SpeechHttp), 102, 2),
            admission(AdmissionClass::Service(CapacityClass::SpeechBatch), 103, 3),
            admission(
                AdmissionClass::Service(CapacityClass::TranscriptionHttp),
                104,
                4,
            ),
            admission(
                AdmissionClass::Service(CapacityClass::SpeechWebsocket),
                105,
                5,
            ),
            admission(
                AdmissionClass::Service(CapacityClass::RealtimeWebsocket),
                106,
                6,
            ),
        ],
        workers: vec![
            WorkerSnapshot {
                worker_id: String::from("worker-a"),
                registration_ordinal: 0,
                health: WorkerHealth::Unknown,
                routable: false,
                active_requests: 3,
                session_capacity: vec![
                    capacity(CapacityClass::SpeechWebsocket, 10, 0),
                    capacity(CapacityClass::RealtimeWebsocket, 11, 1),
                ],
            },
            WorkerSnapshot {
                worker_id: String::from("worker-b"),
                registration_ordinal: 1,
                health: WorkerHealth::Healthy,
                routable: true,
                active_requests: 1,
                session_capacity: vec![capacity(CapacityClass::RealtimeWebsocket, 2, 1)],
            },
        ],
    }
}

fn texts(values: &[&str]) -> Vec<String> {
    values.iter().map(|value| String::from(*value)).collect()
}

#[test]
fn model_bytes_are_exact_sorted_and_deduplicated() {
    let empty = render_models(&[]).expect("serialize empty model list");
    assert_eq!(empty.as_bytes(), br#"{"object":"list","data":[]}"#);

    let bytes = render_models(&texts(&["zeta", "alpha", "zeta"]))
        .expect("serialize fixed model schema");
    assert_eq!(
        bytes.as_bytes(),
        br#"{"object":"list","data":[{"id":"alpha","object":"model","created":0,"owned_by":"sglang-omni","permission":[{"id":"modelperm-default","object":"model_permission","allow_create_engine":false,"allow_sampling":true,"allow_logprobs":true}],"root":"alpha"},{"id":"zeta","object":"model","created":0,"owned_by":"sglang-omni","permission":[{"id":"modelperm-default","object":"model_permission","allow_create_engine":false,"allow_sampling":true,"allow_logprobs":true}],"root":"zeta"}]}"#
    );

    let first = vec![String::from("zeta"), String::from("shared")];
    let second = vec![String::from("alpha"), String::from("shared")];
    let union = render_model_sources(
        &[first.as_slice(), second.as_slice()],
        &["realtime-only", "alpha"],
    )
    .expect("serialize exact model union");
    let value: serde_json::Value =
        serde_json::from_str(&union).expect("parse canonical model JSON");
    let ids: Vec<_> = value["data"]
        .as_array()
        .expect("model data array")
        .iter()
        .map(|card| card["id"].as_str().expect("model id"))
        .collect();
    assert_eq!(ids, ["alpha", "realtime-only", "shared", "zeta"]);
}

#[test]
fn metrics_text_is_complete_exact_and_fixed_order() {
    let rendered = render_metrics(LifecycleState::Serving, true, &representative_snapshot());
    assert_eq!(
        rendered,
        "# HELP sglang_omni_router_lifecycle Router lifecycle state.\n\
        # TYPE sglang_omni_router_lifecycle gauge\n\
        sglang_omni_router_lifecycle{state=\"starting\"} 0\n\
        sglang_omni_router_lifecycle{state=\"serving\"} 1\n\
        sglang_omni_router_lifecycle{state=\"draining\"} 0\n\
        sglang_omni_router_lifecycle{state=\"stopped\"} 0\n\
        sglang_omni_router_lifecycle{state=\"failed\"} 0\n\
        # HELP sglang_omni_router_ready Router readiness state.\n\
        # TYPE sglang_omni_router_ready gauge\n\
        sglang_omni_router_ready 1\n\
        # HELP sglang_omni_router_workers_by_health Workers by health state.\n\
        # TYPE sglang_omni_router_workers_by_health gauge\n\
        sglang_omni_router_workers_by_health{health=\"unknown\"} 1\n\
        sglang_omni_router_workers_by_health{health=\"healthy\"} 1\n\
        sglang_omni_router_workers_by_health{health=\"unhealthy\"} 0\n\
        # HELP sglang_omni_router_workers_routable Routable workers.\n\
        # TYPE sglang_omni_router_workers_routable gauge\n\
        sglang_omni_router_workers_routable 1\n\
        # HELP sglang_omni_router_admission_limit Configured admission limit in class-specific units.\n\
        # TYPE sglang_omni_router_admission_limit gauge\n\
        sglang_omni_router_admission_limit{class=\"global\"} 100\n\
        sglang_omni_router_admission_limit{class=\"generation_http\"} 101\n\
        sglang_omni_router_admission_limit{class=\"speech_http\"} 102\n\
        sglang_omni_router_admission_limit{class=\"speech_batch\"} 103\n\
        sglang_omni_router_admission_limit{class=\"transcription_http\"} 104\n\
        sglang_omni_router_admission_limit{class=\"speech_websocket\"} 105\n\
        sglang_omni_router_admission_limit{class=\"realtime_websocket\"} 106\n\
        # HELP sglang_omni_router_admission_in_flight Current admission usage in class-specific units.\n\
        # TYPE sglang_omni_router_admission_in_flight gauge\n\
        sglang_omni_router_admission_in_flight{class=\"global\"} 0\n\
        sglang_omni_router_admission_in_flight{class=\"generation_http\"} 1\n\
        sglang_omni_router_admission_in_flight{class=\"speech_http\"} 2\n\
        sglang_omni_router_admission_in_flight{class=\"speech_batch\"} 3\n\
        sglang_omni_router_admission_in_flight{class=\"transcription_http\"} 4\n\
        sglang_omni_router_admission_in_flight{class=\"speech_websocket\"} 5\n\
        sglang_omni_router_admission_in_flight{class=\"realtime_websocket\"} 6\n\
        # HELP sglang_omni_router_worker_active_requests Aggregate active worker load; speech batches are item-weighted.\n\
        # TYPE sglang_omni_router_worker_active_requests gauge\n\
        sglang_omni_router_worker_active_requests 4\n\
        # HELP sglang_omni_router_worker_capacity_limit Aggregate configured worker capacity.\n\
        # TYPE sglang_omni_router_worker_capacity_limit gauge\n\
        sglang_omni_router_worker_capacity_limit{class=\"speech_websocket\"} 10\n\
        sglang_omni_router_worker_capacity_limit{class=\"realtime_websocket\"} 13\n\
        # HELP sglang_omni_router_worker_capacity_in_flight Aggregate current worker capacity use.\n\
        # TYPE sglang_omni_router_worker_capacity_in_flight gauge\n\
        sglang_omni_router_worker_capacity_in_flight{class=\"speech_websocket\"} 0\n\
        sglang_omni_router_worker_capacity_in_flight{class=\"realtime_websocket\"} 2\n",
    );
}

#[test]
fn maximum_diagnostics_are_bounded_ordered_and_redacted() {
    let admission = representative_snapshot().admission;
    let workers = (0..256)
        .map(|registration_ordinal| WorkerSnapshot {
            worker_id: format!("worker-{registration_ordinal:03}"),
            registration_ordinal,
            health: match registration_ordinal % 3 {
                0 => WorkerHealth::Unknown,
                1 => WorkerHealth::Healthy,
                _ => WorkerHealth::Unhealthy,
            },
            routable: registration_ordinal % 2 == 0,
            active_requests: registration_ordinal,
            session_capacity: vec![
                capacity(CapacityClass::SpeechWebsocket, 1, 0),
                capacity(CapacityClass::RealtimeWebsocket, 2, 1),
            ],
        })
        .collect();
    let snapshot = OperationsSnapshot { admission, workers };
    let bytes = Diagnostics::from_snapshot(LifecycleState::Draining, false, &snapshot)
        .to_json()
        .expect("serialize maximum diagnostics")
        .into_bytes();
    assert!(bytes.len() < 256 * 1_024);

    let value: serde_json::Value =
        serde_json::from_slice(&bytes).expect("parse diagnostics JSON");
    let keys: BTreeSet<_> = value
        .as_object()
        .expect("diagnostics object")
        .keys()
        .map(String::as_str)
        .collect();
    assert_eq!(
        keys,
        BTreeSet::from(["admission", "lifecycle", "ready", "workers"])
    );
    assert_eq!(value["workers"][0]["registration_ordinal"], 0);
    assert_eq!(value["workers"][255]["registration_ordinal"], 255);
    let text = String::from_utf8(bytes).expect("diagnostics are UTF-8");
    for forbidden in ["base_url", "trust_domain", "health_path", "request_id"] {
        assert!(!text.contains(forbidden));
    }
}

fn worker(models: &[&str], default: Option<&str>) -> WorkerConfig {
    WorkerConfig {
        worker_id: String::from("worker-a"),
        base_url: String::from("http://127.0.0.1:8000/"),
        trust_domain: String::from("local"),
        default_model_id: default.map(String::from),
        health_path: String::from("/health"),
        capacity: WorkerCapacityConfig::default(),
        service_profiles: vec![
            ServiceProfile::GenerationHttp {
                model_ids: texts(models),
                message_content_forms: vec![MessageContentForm::String],
                media_placements: Vec::new(),
                input_modalities: vec![InputModality::Text],
                output_modalities: vec![OutputModality::Text],
                chat_audio_formats: Vec::new(),
                stream_modes: vec![StreamMode::NonStreaming],
            },
            ServiceProfile::RealtimeWebsocket,
        ],
    }
}

#[test]
fn model_names_are_escaped_as_json_strings() {
    let rendered = render_models(&texts(&["a\"b\\c\n"])).expect("quoted model");
    assert!(rendered.contains(r#""id":"a\"b\\c\n","object":"model""#));
    assert!(rendered.contains(r#""root":"a\"b\\c\n"}"#));
    let value: serde_json::Value = serde_json::from_str(&rendered).expect("model JSON");
    assert_eq!(value["data"][0]["id"].as_str(), Some("a\"b\\c\n"));
}

#[test]
fn inventories_are_sorted_by_bytes_and_unique() {
    assert_eq!(
        inventory(&texts(&["b", "a", "\u{e9}", "B", "a", "", "ab"])),
        texts(&["", "B", "a", "ab", "b", "\u{e9}"])
    );
}

#[test]
fn operations_answer_with_the_worker_inventory() {
    let operations = Operations::build(&[
        worker(&["zeta", "alpha"], Some("beta")),
        worker(&["alpha"], None),
    ])
    .expect("inventory");
    let answer = operations.models_response();
    assert_eq!(answer.status, 200);
    assert_eq!(answer.content_type, "application/json");
    assert_eq!(answer.cache_control, "no-store");
    assert_eq!(answer.content_length, answer.body.len());
    let expected: Result<String, WorkerPoolInvariant> =
        render_models(&texts(&["alpha", "beta", "zeta"]));
    assert_eq!(Ok(answer.body), expected);
}

#[test]
fn metrics_and_diagnostics_are_answered_in_full() {
    let operations = Operations::build(&[]).expect("empty inventory");
    let snapshot = representative_snapshot();
    assert!(can_render_metrics(&snapshot));
    let metrics = operations.metrics_response(LifecycleState::Failed, false, &snapshot);
    assert_eq!(metrics.status, 200);
    assert_eq!(metrics.content_type, "text/plain; version=0.0.4; charset=utf-8");
    assert_eq!(
        metrics.body,
        render_metrics(LifecycleState::Failed, false, &snapshot)
    );
    let diagnostics = operations
        .diagnostics_response(LifecycleState::Serving, true, &snapshot)
        .expect("diagnostics");
    assert_eq!(diagnostics.content_type, "application/json");
    assert_eq!(
        diagnostics.body,
        "{\"lifecycle\":\"serving\",\"ready\":true,\"admission\":[\
{\"class\":\"global\",\"limit\":100,\"in_flight\":0},\
{\"class\":\"generation_http\",\"limit\":101,\"in_flight\":1},\
{\"class\":\"speech_http\",\"limit\":102,\"in_flight\":2},\
{\"class\":\"speech_batch\",\"limit\":103,\"in_flight\":3},\
{\"class\":\"transcription_http\",\"limit\":104,\"in_flight\":4},\
{\"class\":\"speech_websocket\",\"limit\":105,\"in_flight\":5},\
{\"class\":\"realtime_websocket\",\"limit\":106,\"in_flight\":6}],\"workers\":[\
{\"worker_id\":\"worker-a\",\"registration_ordinal\":0,\"health\":\"unknown\",\"routable\":false,\"active_requests\":3,\"capacity\":[\
{\"class\":\"speech_websocket\",\"limit\":10,\"in_flight\":0},\
{\"class\":\"realtime_websocket\",\"limit\":11,\"in_flight\":1}]},\
{\"worker_id\":\"worker-b\",\"registration_ordinal\":1,\"health\":\"healthy\",\"routable\":true,\"active_requests\":1,\"capacity\":[\
{\"class\":\"realtime_websocket\",\"limit\":2,\"in_flight\":1}]}]}"
    );
}

#[test]
fn sums_that_overflow_are_not_rendered() {
    let mut snapshot = representative_snapshot();
    snapshot.workers[0].active_requests = usize::MAX;
    assert!(!can_render_metrics(&snapshot));
    snapshot.workers[1].active_requests = 0;
    assert!(can_render_metrics(&snapshot));
}

#[test]
fn content_length_counts_bytes() {
    let answer = response(503, "text/plain", String::from("\u{e9}"));
    assert_eq!(answer.status, 503);
    assert_eq!(answer.content_length, 2);
    assert_eq!(answer.body, "\u{e9}");
}

#[test]
fn metrics_carry_no_worker_identity_or_order() {
    let snapshot = representative_snapshot();
    let mut renamed = representative_snapshot();
    renamed.workers.reverse();
    for (ordinal, worker) in renamed.workers.iter_mut().enumerate() {
        worker.worker_id = format!("other-{ordinal}");
        worker.registration_ordinal = 7 + ordinal;
    }
    assert_ne!(snapshot.workers, renamed.workers);
    assert_eq!(
        render_metrics(LifecycleState::Serving, true, &snapshot),
        render_metrics(LifecycleState::Serving, true, &renamed)
    );
    renamed.workers[0].active_requests += 1;
    assert_ne!(
        render_metrics(LifecycleState::Serving, true, &snapshot),
        render_metrics(LifecycleState::Serving, true, &renamed)
    );
}

#[test]
fn json_escapes_are_exact() {
    let text = "\u{0}\u{7}\u{8}\t\n\u{b}\u{c}\r\u{1f} \"\\/\u{7f}\u{e9}";
    let encoded = encode_strings(&texts(&[text, ""])).expect("encoded texts");
    assert_eq!(
        encoded,
        [
            "\"\\u0000\\u0007\\b\\t\\n\\u000b\\f\\r\\u001f \\\"\\\\/\u{7f}\u{e9}\"",
            "\"\"",
        ]
    );
}
