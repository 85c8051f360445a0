use std::io;

use sgl_omni_router::config::{HttpMediaConfig, HttpMediaRoute};
use sgl_omni_router::error::{HttpFault, RouterError};
use sgl_omni_router::http_media::headers::HeaderField;
use sgl_omni_router::http_media::HttpMedia;
use sgl_omni_router::lifecycle::{Lifecycle, State};
use sgl_omni_router::server::{
    abort_and_join_server, expected_health_shutdown, finalize_failure, handle_accept_error,
    is_ready, live, operation_fault, prepare_file_limit, ready, route_table,
    unexpected_health_exit, unexpected_server_exit, validate_operation, AcceptFailure, Action,
    Endpoint, Event, FileLimitAdvice, Gateways, Methods, Supervisor,
};

type Cause = RouterError<&'static str, &'static str>;

type Told = Event<&'static str, &'static str>;

fn serving() -> Lifecycle {
    let mut lifecycle = Lifecycle::starting();
    lifecycle.enter_serving().expect("enter serving state");
    lifecycle
}

fn draining(supervisor: &mut Supervisor, lifecycle: &mut Lifecycle) {
    let started = supervisor.step(lifecycle, Told::Signalled(Ok(())));
    assert!(matches!(started, Action::StartDraining));
    assert_eq!(lifecycle.snapshot(), State::Draining);
    assert!(matches!(
        supervisor.step(lifecycle, Told::Notified(true)),
        Action::Wait
    ));
}

#[test]
fn file_limits_below_the_recommended_one_are_reported() {
    assert_eq!(
        prepare_file_limit::<&str>(Ok(65_535)),
        FileLimitAdvice::Sufficient
    );
    assert_eq!(
        prepare_file_limit::<&str>(Ok(65_534)),
        FileLimitAdvice::Low(65_534)
    );
    assert_eq!(
        prepare_file_limit(Err("refused")),
        FileLimitAdvice::Failed("refused")
    );
}

#[test]
fn readiness_needs_serving_and_every_gateway() {
    let mut lifecycle = Lifecycle::starting();
    assert!(!is_ready(&lifecycle, None, None, None));
    assert_eq!(live(&lifecycle), (503, "not live\n"));
    lifecycle.enter_serving().expect("enter serving state");
    assert!(is_ready(&lifecycle, None, None, None));
    assert!(is_ready(&lifecycle, Some(true), Some(true), Some(true)));
    assert!(!is_ready(&lifecycle, Some(false), Some(true), Some(true)));
    assert!(!is_ready(&lifecycle, Some(true), Some(false), None));
    assert!(!is_ready(&lifecycle, None, None, Some(false)));
    lifecycle.enter_draining().expect("enter draining state");
    assert!(!is_ready(&lifecycle, None, None, None));
    assert_eq!(live(&lifecycle), (200, "live\n"));
    assert_eq!(ready(true), (200, "ready\n"));
    assert_eq!(ready(false), (503, "not ready\n"));
}

#[test]
fn operations_take_plain_gets_only() {
    assert_eq!(validate_operation("GET", true, false, &[]), Ok(()));
    assert_eq!(
        validate_operation("POST", false, true, &[]),
        Err(HttpFault::MethodNotAllowed)
    );
    assert_eq!(
        validate_operation("GET", false, true, &[]),
        Err(HttpFault::HttpVersionNotSupported)
    );
    assert_eq!(
        validate_operation("GET", true, true, &[]),
        Err(HttpFault::MalformedRequest)
    );
    let expecting = HeaderField {
        name: String::from("expect"),
        value: b"100-continue".to_vec(),
    };
    assert_eq!(
        validate_operation("GET", true, false, &[expecting]),
        Err(HttpFault::ExpectationFailed)
    );
    assert_eq!(operation_fault(HttpFault::MethodNotAllowed), Some("GET"));
    assert_eq!(operation_fault(HttpFault::MalformedRequest), None);
}

#[test]
fn only_failures_of_the_listener_delay_the_next_accept() {
    assert_eq!(handle_accept_error(AcceptFailure::ConnectionRefused), 0);
    assert_eq!(handle_accept_error(AcceptFailure::ConnectionAborted), 0);
    assert_eq!(handle_accept_error(AcceptFailure::ConnectionReset), 0);
    assert_eq!(handle_accept_error(AcceptFailure::Other), 1_000);
}

#[test]
fn exits_are_blamed_on_what_ended() {
    let causes: [(Cause, &str); 6] = [
        (unexpected_server_exit(Ok(Ok(()))), "Lifecycle"),
        (unexpected_server_exit(Ok(Err("io"))), "Server(\"io\")"),
        (unexpected_server_exit(Err("join")), "ServerTask(\"join\")"),
        (unexpected_health_exit(Some(Ok(()))), "HealthTaskExited"),
        (unexpected_health_exit(Some(Err("join"))), "HealthTask(\"join\")"),
        (unexpected_health_exit(None), "Lifecycle"),
    ];
    for (cause, text) in causes {
        assert_eq!(format!("{cause:?}"), text);
    }
    assert!(expected_health_shutdown(&Some(Ok::<(), &str>(()))));
    assert!(!expected_health_shutdown(&Some(Err("join"))));
    assert!(!expected_health_shutdown::<&str>(&None));
}

#[test]
fn failure_finalization_preserves_the_primary_cause() {
    let mut lifecycle = serving();
    let cleanup: Result<(), RouterError<io::Error, &str>> =
        abort_and_join_server(Ok(Err(io::Error::other("secondary failure"))), false);
    assert!(matches!(cleanup, Err(RouterError::Server(_))));
    let cause: Cause = finalize_failure(&mut lifecycle, RouterError::DrainTimeout);
    assert!(matches!(cause, RouterError::DrainTimeout));
    assert!(!lifecycle.is_live());
}

#[test]
fn health_task_failure_retains_its_join_error() {
    let runtime = tokio::runtime::Builder::new_current_thread()
        .build()
        .expect("runtime");
    let result = runtime.block_on(async {
        tokio::spawn(async { panic!("health task failure") }).await
    });
    let cause: RouterError<io::Error, tokio::task::JoinError> =
        unexpected_health_exit(Some(result));
    assert!(matches!(cause, RouterError::HealthTask(source) if source.is_panic()));
}

#[test]
fn an_aborted_server_may_be_cancelled() {
    assert!(abort_and_join_server::<&str, &str>(Ok(Ok(())), false).is_ok());
    assert!(abort_and_join_server::<&str, &str>(Err("join"), true).is_ok());
    assert!(matches!(
        abort_and_join_server::<&str, &str>(Err("join"), false),
        Err(RouterError::ServerTask("join"))
    ));
    assert!(matches!(
        abort_and_join_server::<&str, &str>(Ok(Err("io")), true),
        Err(RouterError::Server("io"))
    ));
}

#[test]
fn a_clean_end_joins_everything_in_any_order() {
    for order in [[0, 1, 2, 3], [3, 2, 1, 0], [1, 3, 0, 2]] {
        let mut lifecycle = serving();
        let mut supervisor = Supervisor::serving(2);
        draining(&mut supervisor, &mut lifecycle);
        let mut finished = false;
        for event in order {
            assert!(!finished);
            let told = match event {
                0 => Told::ServerExited(Ok(Ok(()))),
                1 => Told::SessionsEnded,
                _ => Told::HealthExited(Some(Ok(()))),
            };
            finished = matches!(supervisor.step(&mut lifecycle, told), Action::Finish);
        }
        assert!(finished);
        assert_eq!(lifecycle.snapshot(), State::Stopped);
        assert!(!supervisor.awaits_server());
        assert!(!supervisor.awaits_health());
        assert!(!supervisor.awaits_sessions());
        assert!(matches!(
            supervisor.step(&mut lifecycle, Told::DeadlineElapsed),
            Action::Wait
        ));
    }
}

#[test]
fn a_server_that_ends_while_serving_is_not_aborted() {
    let mut lifecycle = serving();
    let mut supervisor = Supervisor::serving(1);
    assert!(matches!(
        supervisor.step(&mut lifecycle, Told::SessionsEnded),
        Action::Wait
    ));
    match supervisor.step(&mut lifecycle, Told::ServerExited(Ok(Err("io")))) {
        Action::Fail(false, cause) => {
            let cause = finalize_failure(&mut lifecycle, cause);
            assert!(matches!(cause, RouterError::Server("io")));
        }
        _ => panic!("the server failed"),
    }
    assert_eq!(lifecycle.snapshot(), State::Failed);
}

#[test]
fn failures_while_serving_abort_the_server() {
    let mut lifecycle = serving();
    assert!(matches!(
        Supervisor::serving(1).step(&mut lifecycle, Told::HealthExited(Some(Ok(())))),
        Action::Fail(true, RouterError::HealthTaskExited)
    ));
    assert!(matches!(
        Supervisor::serving(1).step(&mut lifecycle, Told::Signalled(Err("io"))),
        Action::Fail(true, RouterError::Signal("io"))
    ));
    assert_eq!(lifecycle.snapshot(), State::Serving);
    let mut early = Lifecycle::starting();
    assert!(matches!(
        Supervisor::serving(1).step(&mut early, Told::Signalled(Ok(()))),
        Action::Fail(true, RouterError::Lifecycle)
    ));
}

#[test]
fn draining_ends_on_a_second_signal_the_deadline_or_a_failure() {
    for (told, expected) in [
        (Told::Signalled(Ok(())), "ForcedShutdown"),
        (Told::Signalled(Err("io")), "Signal(\"io\")"),
        (Told::DeadlineElapsed, "DrainTimeout"),
        (Told::HealthExited(None), "Lifecycle"),
        (Told::HealthExited(Some(Err("join"))), "HealthTask(\"join\")"),
    ] {
        let mut lifecycle = serving();
        let mut supervisor = Supervisor::serving(1);
        draining(&mut supervisor, &mut lifecycle);
        match supervisor.step(&mut lifecycle, told) {
            Action::Fail(abort, cause) => {
                assert!(abort);
                assert_eq!(format!("{cause:?}"), expected);
            }
            _ => panic!("draining failed"),
        }
    }
}

#[test]
fn a_server_that_has_ended_is_not_aborted_later() {
    let mut lifecycle = serving();
    let mut supervisor = Supervisor::serving(1);
    draining(&mut supervisor, &mut lifecycle);
    assert!(matches!(
        supervisor.step(&mut lifecycle, Told::ServerExited(Ok(Ok(())))),
        Action::Wait
    ));
    assert!(matches!(
        supervisor.step(&mut lifecycle, Told::DeadlineElapsed),
        Action::Fail(false, RouterError::DrainTimeout)
    ));
}

#[test]
fn a_process_that_cannot_be_stopped_is_left_as_it_is() {
    for last in [Told::SessionsEnded, Told::HealthExited(Some(Ok(())))] {
        let mut lifecycle = serving();
        let mut supervisor = Supervisor::serving(1);
        draining(&mut supervisor, &mut lifecycle);
        let earlier = match last {
            Told::SessionsEnded => Told::HealthExited(Some(Ok(()))),
            _ => Told::SessionsEnded,
        };
        for told in [Told::ServerExited(Ok(Ok(()))), earlier] {
            assert!(matches!(supervisor.step(&mut lifecycle, told), Action::Wait));
        }
        let mut other = serving();
        assert!(matches!(
            supervisor.step(&mut other, last),
            Action::Leave(RouterError::Lifecycle)
        ));
        assert_eq!(other.snapshot(), State::Serving);
        assert!(matches!(
            supervisor.step(&mut lifecycle, Told::SessionsEnded),
            Action::Wait
        ));
        assert_eq!(lifecycle.snapshot(), State::Draining);
    }
}

#[test]
fn a_server_that_cannot_be_told_to_shut_down_fails() {
    let mut lifecycle = serving();
    let mut supervisor = Supervisor::serving(1);
    assert!(matches!(
        supervisor.step(&mut lifecycle, Told::Signalled(Ok(()))),
        Action::StartDraining
    ));
    assert!(matches!(
        supervisor.step(&mut lifecycle, Told::Notified(false)),
        Action::Fail(true, RouterError::ShutdownNotify)
    ));
}

fn media(routes: Vec<HttpMediaRoute>) -> HttpMedia {
    let config = HttpMediaConfig {
        trust_domain: String::from("local"),
        routes,
        buffered_request_max_bytes: 1,
        streamed_request_max_bytes: 2,
        request_timeout_ms: 3,
    };
    HttpMedia::build(Some(config.clone()), config, false).expect("media gateway")
}

#[test]
fn the_least_router_serves_probes_and_operations() {
    let gateways = Gateways {
        chat: false,
        speech_sessions: false,
        realtime_sessions: false,
    };
    let paths: Vec<Option<&str>> = route_table(gateways, None, true)
        .into_iter()
        .map(Endpoint::path)
        .collect();
    assert_eq!(
        paths,
        [
            Some("/live"),
            Some("/ready"),
            Some("/v1/models"),
            Some("/metrics"),
            Some("/diagnostics"),
        ]
    );
}

#[test]
fn enabled_endpoints_are_served_in_order() {
    let gateways = Gateways {
        chat: true,
        speech_sessions: true,
        realtime_sessions: true,
    };
    let gateway = media(vec![
        HttpMediaRoute::Translation,
        HttpMediaRoute::Speech,
        HttpMediaRoute::SpeechBatch,
        HttpMediaRoute::Transcription,
    ]);
    let table = route_table(gateways, Some(&gateway), true);
    assert_eq!(
        table,
        [
            Endpoint::Live,
            Endpoint::Ready,
            Endpoint::Chat,
            Endpoint::Media(HttpMediaRoute::Speech),
            Endpoint::Media(HttpMediaRoute::SpeechBatch),
            Endpoint::Media(HttpMediaRoute::Transcription),
            Endpoint::Media(HttpMediaRoute::Translation),
            Endpoint::Voices,
            Endpoint::Voice,
            Endpoint::SpeechSession,
            Endpoint::RealtimeSession,
            Endpoint::Models,
            Endpoint::Metrics,
            Endpoint::Diagnostics,
        ]
    );
    assert_eq!(table[4].path(), Some("/v1/audio/speech/batch"));
    assert_eq!(table[8].path(), Some("/v1/audio/voices/{name}"));
    assert_eq!(Endpoint::Chat.path(), None);
    let one = media(vec![HttpMediaRoute::Speech]);
    assert_eq!(route_table(gateways, Some(&one), false).len(), 9);
}

#[test]
fn probes_are_asked_by_get_and_sessions_begin_with_it() {
    for endpoint in [Endpoint::Live, Endpoint::Ready] {
        assert_eq!(endpoint.methods(), Methods::GetAlone);
    }
    for endpoint in [Endpoint::SpeechSession, Endpoint::RealtimeSession] {
        assert_eq!(endpoint.methods(), Methods::GetAndHead);
    }
    for endpoint in [
        Endpoint::Chat,
        Endpoint::Media(HttpMediaRoute::Speech),
        Endpoint::Media(HttpMediaRoute::Translation),
        Endpoint::Voices,
        Endpoint::Voice,
        Endpoint::Models,
        Endpoint::Metrics,
        Endpoint::Diagnostics,
    ] {
        assert_eq!(endpoint.methods(), Methods::Every);
    }
}
