//! What becomes of the process and of its endpoints.

use vstd::prelude::*;

use crate::config::HttpMediaRoute;
use crate::error::{HttpFault, RouterError};
use crate::http_media::headers::{bodyless_fault, HeaderField};
use crate::lifecycle::{stepped, LifecycleError, State, Step};
use crate::server::{
    enabled, endpoints, gateway_endpoints, operation_fault_of, ready_now, supervised, Action,
    Endpoint, Event, Gateways, Stage, SupervisorView,
};

verus! {

/// A process serves only after it started, drains only after it served, stops
/// only after it drained, and fails until it has ended. A step that is refused
/// changes nothing.
pub proof fn law_steps_are_legal_in_their_own_state(
    before: State,
    step: Step,
    outcome: Result<(), LifecycleError>,
    after: State,
)
    requires
        stepped(before, step, outcome, after),
    ensures
        step is Serve ==> (outcome is Ok <==> before is Starting),
        step is Drain ==> (outcome is Ok <==> before is Serving || before is Draining),
        step is Stop ==> (outcome is Ok <==> before is Draining),
        step is Fail ==> (outcome is Ok <==> !(before is Stopped) && !(before is Failed)),
        outcome is Ok && step is Serve ==> after is Serving,
        outcome is Ok && step is Drain ==> after is Draining,
        outcome is Ok && step is Stop ==> after is Stopped,
        outcome is Ok && step is Fail ==> after is Failed,
        outcome is Err ==> after == before,
{
}

/// A process is live from when it serves until it has drained.
pub proof fn law_process_is_live_while_it_has_work(state: State)
    ensures
        state.live() <==> !(state is Starting) && !(state is Stopped) && !(state is Failed),
{
}

/// The router is ready exactly when it serves and no gateway that it has is
/// unready.
pub proof fn law_one_unready_gateway_makes_the_router_unready(
    state: State,
    generation: Option<bool>,
    media: Option<bool>,
    websocket: Option<bool>,
)
    ensures
        ready_now(State::Serving, None, None, None),
        ready_now(state, generation, media, websocket) ==> state is Serving,
        ready_now(state, generation, media, websocket) <==> {
            &&& ready_now(state, None, None, None)
            &&& generation is None || generation->Some_0
            &&& media is None || media->Some_0
            &&& websocket is None || websocket->Some_0
        },
{
}

/// A request for models, metrics or diagnostics is judged by its method, then
/// by its version, then by its query, then by its headers.
pub proof fn law_operations_are_plain_gets(
    method: Seq<char>,
    is_http_11: bool,
    has_query: bool,
    headers: Seq<HeaderField>,
)
    ensures
        operation_fault_of(method, is_http_11, has_query, headers) == Some(
            HttpFault::MethodNotAllowed,
        ) <==> method != "GET"@ || (is_http_11 && !has_query && bodyless_fault(headers) == Some(
            HttpFault::MethodNotAllowed,
        )),
        method == "GET"@ && !is_http_11 ==> operation_fault_of(
            method,
            is_http_11,
            has_query,
            headers,
        ) == Some(HttpFault::HttpVersionNotSupported),
        method == "GET"@ && is_http_11 && has_query ==> operation_fault_of(
            method,
            is_http_11,
            has_query,
            headers,
        ) == Some(HttpFault::MalformedRequest),
        method == "GET"@ && is_http_11 && !has_query ==> operation_fault_of(
            method,
            is_http_11,
            has_query,
            headers,
        ) == bodyless_fault(headers),
{
}

/// While it serves, the process ends with the cause of whatever ended: its
/// server, a health task, or the watch for signals.
pub proof fn law_serving_ends_with_its_cause<I, J>(
    supervisor: SupervisorView,
    state: State,
    event: Event<I, J>,
)
    requires
        supervisor.stage is Serving,
    ensures
        ({
            let (after, then, action) = supervised(supervisor, state, event);
            let abort = !supervisor.server_done;
            &&& event matches Event::ServerExited(Ok(Ok(_))) ==> action == Action::<I, J>::Fail(
                false,
                RouterError::Lifecycle,
            )
            &&& event matches Event::ServerExited(Ok(Err(error))) ==> action == Action::<
                I,
                J,
            >::Fail(false, RouterError::Server(error))
            &&& event matches Event::ServerExited(Err(error)) ==> action == Action::<I, J>::Fail(
                false,
                RouterError::ServerTask(error),
            )
            &&& event matches Event::HealthExited(Some(Ok(_))) ==> action == Action::<I, J>::Fail(
                abort,
                RouterError::HealthTaskExited,
            )
            &&& event matches Event::HealthExited(Some(Err(error))) ==> action == Action::<
                I,
                J,
            >::Fail(abort, RouterError::HealthTask(error))
            &&& event matches Event::HealthExited(None) ==> action == Action::<I, J>::Fail(
                abort,
                RouterError::Lifecycle,
            )
            &&& event matches Event::Signalled(Err(error)) ==> action == Action::<I, J>::Fail(
                abort,
                RouterError::Signal(error),
            )
            &&& action is Fail ==> after.stage is Ended && then == state
        }),
{
}

/// A process that serves drains on a signal if its state lets it, and fails
/// otherwise. Nothing else that it may be told makes a difference to it.
pub proof fn law_serving_drains_on_a_signal<I, J>(supervisor: SupervisorView, state: State, told: bool)
    requires
        supervisor.stage is Serving,
    ensures
        ({
            let (after, then, action) = supervised::<I, J>(
                supervisor,
                state,
                Event::Signalled(Ok(())),
            );
            &&& state is Serving || state is Draining ==> {
                &&& action == Action::<I, J>::StartDraining
                &&& then is Draining
                &&& after == (SupervisorView { stage: Stage::Notifying, ..supervisor })
            }
            &&& !(state is Serving) && !(state is Draining) ==> {
                &&& action == Action::<I, J>::Fail(!supervisor.server_done, RouterError::Lifecycle)
                &&& then == state
            }
        }),
        supervised::<I, J>(supervisor, state, Event::Notified(told)) == (
            supervisor,
            state,
            Action::<I, J>::Wait,
        ),
        supervised::<I, J>(supervisor, state, Event::SessionsEnded) == (
            supervisor,
            state,
            Action::<I, J>::Wait,
        ),
        supervised::<I, J>(supervisor, state, Event::DeadlineElapsed) == (
            supervisor,
            state,
            Action::<I, J>::Wait,
        ),
{
}

/// A process that is about to drain waits for the server to be told so, fails
/// if that cannot be, and looks at nothing else until then.
pub proof fn law_server_is_told_before_draining<I, J>(
    supervisor: SupervisorView,
    state: State,
    event: Event<I, J>,
)
    requires
        supervisor.stage is Notifying,
    ensures
        ({
            let (after, then, action) = supervised(supervisor, state, event);
            &&& then == state
            &&& event matches Event::Notified(told) ==> {
                &&& told ==> action is Wait && after == (SupervisorView {
                    stage: Stage::Draining,
                    ..supervisor
                })
                &&& !told ==> action == Action::<I, J>::Fail(
                    !supervisor.server_done,
                    RouterError::ShutdownNotify,
                )
            }
            &&& !(event is Notified) ==> action is Wait && after == supervisor
        }),
{
}

/// A process that drains takes note of what has ended, and of nothing else, and
/// stops when its server, all its health tasks and all sessions have ended.
pub proof fn law_draining_counts_what_has_ended<I, J>(supervisor: SupervisorView, told: bool)
    requires
        supervisor.stage is Draining,
    ensures
        ({
            let state = State::Draining;
            let server = supervised::<I, J>(supervisor, state, Event::ServerExited(Ok(Ok(()))));
            let health = supervised::<I, J>(supervisor, state, Event::HealthExited(Some(Ok(()))));
            let sessions = supervised::<I, J>(supervisor, state, Event::SessionsEnded);
            let notified = supervised::<I, J>(supervisor, state, Event::Notified(told));
            &&& !supervisor.server_done ==> {
                &&& server.0.server_done
                &&& server.0.sessions_done == supervisor.sessions_done
                &&& server.0.health_left == supervisor.health_left
                &&& server.2 is Finish <==> supervisor.sessions_done && supervisor.health_left == 0
                &&& server.2 is Finish || server.2 is Wait
                &&& server.2 is Finish <==> server.1 is Stopped
            }
            &&& supervisor.server_done ==> server.0 == supervisor && server.2 is Wait
            &&& health.0.server_done == supervisor.server_done
            &&& health.0.sessions_done == supervisor.sessions_done
            &&& supervisor.health_left > 0 ==> health.0.health_left == supervisor.health_left - 1
            &&& supervisor.health_left > 0 ==> (health.2 is Finish <==> supervisor.server_done
                && supervisor.sessions_done && supervisor.health_left == 1)
            &&& health.2 is Finish || health.2 is Wait
            &&& health.2 is Finish <==> health.1 is Stopped
            &&& sessions.0.sessions_done
            &&& sessions.0.server_done == supervisor.server_done
            &&& sessions.0.health_left == supervisor.health_left
            &&& sessions.2 is Finish <==> supervisor.server_done && supervisor.health_left == 0
            &&& sessions.2 is Finish || sessions.2 is Wait
            &&& sessions.2 is Finish <==> sessions.1 is Stopped
            &&& notified == (supervisor, state, Action::<I, J>::Wait)
        }),
{
}

/// A process that drains ends with the cause of whatever failed.
pub proof fn law_draining_ends_with_its_cause<I, J>(
    supervisor: SupervisorView,
    state: State,
    event: Event<I, J>,
)
    requires
        supervisor.stage is Draining,
    ensures
        ({
            let (after, then, action) = supervised(supervisor, state, event);
            let abort = !supervisor.server_done;
            &&& event matches Event::ServerExited(Ok(Err(error))) ==> (abort ==> action == Action::<
                I,
                J,
            >::Fail(false, RouterError::Server(error)))
            &&& event matches Event::ServerExited(Err(error)) ==> (abort ==> action == Action::<
                I,
                J,
            >::Fail(false, RouterError::ServerTask(error)))
            &&& event matches Event::HealthExited(Some(Err(error))) ==> action == Action::<
                I,
                J,
            >::Fail(abort, RouterError::HealthTask(error))
            &&& event matches Event::HealthExited(None) ==> action == Action::<I, J>::Fail(
                abort,
                RouterError::Lifecycle,
            )
            &&& event matches Event::Signalled(Err(error)) ==> action == Action::<I, J>::Fail(
                abort,
                RouterError::Signal(error),
            )
            &&& event matches Event::Signalled(Ok(_)) ==> action == Action::<I, J>::Fail(
                abort,
                RouterError::ForcedShutdown,
            )
            &&& event matches Event::DeadlineElapsed ==> action == Action::<I, J>::Fail(
                abort,
                RouterError::DrainTimeout,
            )
            &&& action is Fail ==> after.stage is Ended && then == state
        }),
{
}

/// A process that has ended does nothing more, whatever it is told.
pub proof fn law_ended_process_does_nothing<I, J>(
    supervisor: SupervisorView,
    state: State,
    event: Event<I, J>,
)
    requires
        supervisor.stage is Ended,
    ensures
        supervised(supervisor, state, event) == (supervisor, state, Action::<I, J>::Wait),
{
}

/// A list after another holds what either holds.
proof fn lemma_joined(left: Seq<Endpoint>, right: Seq<Endpoint>, endpoint: Endpoint)
    ensures
        (left + right).contains(endpoint) <==> left.contains(endpoint) || right.contains(endpoint),
{
    let both = left + right;
    if left.contains(endpoint) {
        let i = left.index_of(endpoint);
        assert(both[i] == endpoint);
    }
    if right.contains(endpoint) {
        let i = right.index_of(endpoint);
        assert(both[left.len() + i] == endpoint);
    }
    if both.contains(endpoint) {
        let i = both.index_of(endpoint);
        if i < left.len() {
            assert(left[i] == endpoint);
        } else {
            assert(right[i - left.len()] == endpoint);
        }
    }
}

/// An endpoint that may be enabled is held where it is.
proof fn lemma_enabled(which: Endpoint, is_enabled: bool, endpoint: Endpoint)
    ensures
        enabled(which, is_enabled).contains(endpoint) <==> is_enabled && which == endpoint,
{
    if is_enabled {
        assert(enabled(which, is_enabled)[0] == which);
    }
}

/// Which media endpoints are held.
proof fn lemma_media(routes: Seq<HttpMediaRoute>, voices: bool, endpoint: Endpoint)
    ensures
        gateway_endpoints(routes, voices).contains(endpoint) <==> {
            ||| endpoint matches Endpoint::Media(route) && routes.contains(route)
            ||| voices && (endpoint is Voices || endpoint is Voice)
        },
{
    let speech = enabled(
        Endpoint::Media(HttpMediaRoute::Speech),
        routes.contains(HttpMediaRoute::Speech),
    );
    let batch = enabled(
        Endpoint::Media(HttpMediaRoute::SpeechBatch),
        routes.contains(HttpMediaRoute::SpeechBatch),
    );
    let transcription = enabled(
        Endpoint::Media(HttpMediaRoute::Transcription),
        routes.contains(HttpMediaRoute::Transcription),
    );
    let translation = enabled(
        Endpoint::Media(HttpMediaRoute::Translation),
        routes.contains(HttpMediaRoute::Translation),
    );
    lemma_enabled(
        Endpoint::Media(HttpMediaRoute::Speech),
        routes.contains(HttpMediaRoute::Speech),
        endpoint,
    );
    lemma_enabled(
        Endpoint::Media(HttpMediaRoute::SpeechBatch),
        routes.contains(HttpMediaRoute::SpeechBatch),
        endpoint,
    );
    lemma_enabled(
        Endpoint::Media(HttpMediaRoute::Transcription),
        routes.contains(HttpMediaRoute::Transcription),
        endpoint,
    );
    lemma_enabled(
        Endpoint::Media(HttpMediaRoute::Translation),
        routes.contains(HttpMediaRoute::Translation),
        endpoint,
    );
    lemma_enabled(Endpoint::Voices, voices, endpoint);
    lemma_enabled(Endpoint::Voice, voices, endpoint);
    lemma_joined(speech, batch, endpoint);
    lemma_joined(speech + batch, transcription, endpoint);
    lemma_joined(speech + batch + transcription, translation, endpoint);
    let all = speech + batch + transcription + translation;
    lemma_joined(all, enabled(Endpoint::Voices, voices), endpoint);
    lemma_joined(
        all + enabled(Endpoint::Voices, voices),
        enabled(Endpoint::Voice, voices),
        endpoint,
    );
}

/// Probes and operations are always served. Every other endpoint is served
/// exactly where its gateway is there and has it.
pub proof fn law_endpoints_are_served_where_enabled(
    gateways: Gateways,
    media: Option<Seq<HttpMediaRoute>>,
    voices: bool,
    endpoint: Endpoint,
)
    ensures
        endpoints(gateways, media, voices).contains(endpoint) <==> match endpoint {
            Endpoint::Live => true,
            Endpoint::Ready => true,
            Endpoint::Models => true,
            Endpoint::Metrics => true,
            Endpoint::Diagnostics => true,
            Endpoint::Chat => gateways.chat,
            Endpoint::SpeechSession => gateways.speech_sessions,
            Endpoint::RealtimeSession => gateways.realtime_sessions,
            Endpoint::Voices => media is Some && voices,
            Endpoint::Voice => media is Some && voices,
            Endpoint::Media(route) => media is Some && media->Some_0.contains(route),
        },
{
    let probes = seq![Endpoint::Live, Endpoint::Ready];
    let chat = enabled(Endpoint::Chat, gateways.chat);
    let gateway = match media {
        Some(routes) => gateway_endpoints(routes, voices),
        None => Seq::empty(),
    };
    let speech = enabled(Endpoint::SpeechSession, gateways.speech_sessions);
    let realtime = enabled(Endpoint::RealtimeSession, gateways.realtime_sessions);
    let operations = seq![Endpoint::Models, Endpoint::Metrics, Endpoint::Diagnostics];
    assert(probes[0] is Live && probes[1] is Ready);
    assert(operations[0] is Models && operations[1] is Metrics && operations[2] is Diagnostics);
    lemma_enabled(Endpoint::Chat, gateways.chat, endpoint);
    lemma_enabled(Endpoint::SpeechSession, gateways.speech_sessions, endpoint);
    lemma_enabled(Endpoint::RealtimeSession, gateways.realtime_sessions, endpoint);
    if let Some(routes) = media {
        lemma_media(routes, voices, endpoint);
    }
    lemma_joined(probes, chat, endpoint);
    lemma_joined(probes + chat, gateway, endpoint);
    lemma_joined(probes + chat + gateway, speech, endpoint);
    lemma_joined(probes + chat + gateway + speech, realtime, endpoint);
    lemma_joined(probes + chat + gateway + speech + realtime, operations, endpoint);
}

} // verus!
