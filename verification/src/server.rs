//! Serving and shutting down: decisions of the process supervisor.

use vstd::prelude::*;

use crate::config::HttpMediaRoute;
use crate::error::{HttpFault, RouterError};
use crate::http_media::headers::{bodyless_fault, validate_bodyless_request, HeaderField};
use crate::http_media::HttpMedia;
use crate::lifecycle::{Lifecycle, State, Step};
use crate::text::{same_text, text_of};

verus! {

pub const LIVE_BODY: &'static str = "live\n";

pub const NOT_LIVE_BODY: &'static str = "not live\n";

pub const READY_BODY: &'static str = "ready\n";

pub const NOT_READY_BODY: &'static str = "not ready\n";

/// How long to wait after a failed accept that is not the client's fault, in milliseconds.
pub const ACCEPT_RETRY_MS: u64 = 1000;

/// The recommended limit on open files.
pub const TARGET_NOFILE: u64 = 65535;

/// What the router has to say about the limit on open files.
#[derive(Clone, Copy, Debug, PartialEq, Eq, Structural)]
pub enum FileLimitAdvice<E> {
    /// The limit is high enough.
    Sufficient,
    /// The limit stays below the recommended one.
    Low(u64),
    /// The limit could not be raised.
    Failed(E),
}

/// What there is to say after an attempt to raise the limit on open files to
/// the recommended one gave `raised`.
pub fn prepare_file_limit<E>(raised: Result<u64, E>) -> (advice: FileLimitAdvice<E>)
    ensures
        match raised {
            Ok(limit) => advice == (if limit < TARGET_NOFILE {
                FileLimitAdvice::<E>::Low(limit)
            } else {
                FileLimitAdvice::<E>::Sufficient
            }),
            Err(error) => advice == FileLimitAdvice::<E>::Failed(error),
        },
{
    match raised {
        Ok(limit) => {
            if limit < TARGET_NOFILE {
                FileLimitAdvice::Low(limit)
            } else {
                FileLimitAdvice::Sufficient
            }
        },
        Err(error) => FileLimitAdvice::Failed(error),
    }
}

/// The router is ready: it serves, and every gateway that it has is ready.
pub open spec fn ready_now(
    state: State,
    generation: Option<bool>,
    media: Option<bool>,
    websocket: Option<bool>,
) -> bool {
    &&& state is Serving
    &&& generation != Some(false)
    &&& media != Some(false)
    &&& websocket != Some(false)
}

/// Whether the router is ready. A gateway that there is not is given as none.
pub fn is_ready(
    lifecycle: &Lifecycle,
    generation: Option<bool>,
    media: Option<bool>,
    websocket: Option<bool>,
) -> (outcome: bool)
    ensures
        outcome == ready_now(lifecycle@, generation, media, websocket),
{
    let gateway = |state: Option<bool>| -> (fine: bool)
        ensures
            fine == (state != Some(false)),
        {
            match state {
                Some(value) => value,
                None => true,
            }
        };
    lifecycle.is_serving() && gateway(generation) && gateway(media) && gateway(websocket)
}

/// The answer to a liveness probe.
pub fn live(lifecycle: &Lifecycle) -> (answer: (u16, &'static str))
    ensures
        answer.0 == (if lifecycle@.live() {
            200u16
        } else {
            503u16
        }),
        answer.1@ == (if lifecycle@.live() {
            LIVE_BODY@
        } else {
            NOT_LIVE_BODY@
        }),
{
    if lifecycle.is_live() {
        (200, LIVE_BODY)
    } else {
        (503, NOT_LIVE_BODY)
    }
}

/// The answer to a readiness probe.
pub fn ready(is_ready: bool) -> (answer: (u16, &'static str))
    ensures
        answer.0 == (if is_ready {
            200u16
        } else {
            503u16
        }),
        answer.1@ == (if is_ready {
            READY_BODY@
        } else {
            NOT_READY_BODY@
        }),
{
    if is_ready {
        (200, READY_BODY)
    } else {
        (503, NOT_READY_BODY)
    }
}

/// The fault that a request for models, metrics or diagnostics is answered with.
pub open spec fn operation_fault_of(
    method: Seq<char>,
    is_http_11: bool,
    has_query: bool,
    headers: Seq<HeaderField>,
) -> Option<HttpFault> {
    if method != "GET"@ {
        Some(HttpFault::MethodNotAllowed)
    } else if !is_http_11 {
        Some(HttpFault::HttpVersionNotSupported)
    } else if has_query {
        Some(HttpFault::MalformedRequest)
    } else {
        bodyless_fault(headers)
    }
}

/// Rejects a request for models, metrics or diagnostics that is not a plain GET.
pub fn validate_operation(
    method: &str,
    is_http_11: bool,
    has_query: bool,
    headers: &[HeaderField],
) -> (outcome: Result<(), HttpFault>)
    ensures
        match operation_fault_of(method@, is_http_11, has_query, headers@) {
            Some(fault) => outcome is Err && outcome->Err_0 == fault,
            None => outcome is Ok,
        },
{
    if !same_text(method, "GET") {
        return Err(HttpFault::MethodNotAllowed);
    }
    if !is_http_11 {
        return Err(HttpFault::HttpVersionNotSupported);
    }
    if has_query {
        return Err(HttpFault::MalformedRequest);
    }
    validate_bodyless_request(headers)
}

/// The method that the answer to a rejected operation names as allowed.
pub fn operation_fault(fault: HttpFault) -> (allow: Option<&'static str>)
    ensures
        allow is Some <==> fault is MethodNotAllowed,
        allow is Some ==> allow->Some_0@ == "GET"@,
{
    if fault == HttpFault::MethodNotAllowed {
        Some("GET")
    } else {
        None
    }
}

/// How an accept failed.
#[derive(Clone, Copy, Debug, PartialEq, Eq, Structural)]
pub enum AcceptFailure {
    ConnectionRefused,
    ConnectionAborted,
    ConnectionReset,
    Other,
}

/// How long to wait before the next accept, in milliseconds: not at all if the
/// client failed.
pub fn handle_accept_error(failure: AcceptFailure) -> (wait_ms: u64)
    ensures
        wait_ms == (if failure is Other {
            ACCEPT_RETRY_MS
        } else {
            0
        }),
{
    match failure {
        AcceptFailure::ConnectionRefused => 0,
        AcceptFailure::ConnectionAborted => 0,
        AcceptFailure::ConnectionReset => 0,
        AcceptFailure::Other => ACCEPT_RETRY_MS,
    }
}

/// What a server that exits while it should serve means.
pub open spec fn server_exit_cause<I, J>(result: Result<Result<(), I>, J>) -> RouterError<I, J> {
    match result {
        Ok(Ok(_)) => RouterError::Lifecycle,
        Ok(Err(source)) => RouterError::Server(source),
        Err(source) => RouterError::ServerTask(source),
    }
}

pub fn unexpected_server_exit<I, J>(result: Result<Result<(), I>, J>) -> (cause: RouterError<I, J>)
    ensures
        cause == server_exit_cause(result),
{
    match result {
        Ok(Ok(_)) => RouterError::Lifecycle,
        Ok(Err(source)) => RouterError::Server(source),
        Err(source) => RouterError::ServerTask(source),
    }
}

/// What a health task that exits means, when it should not or failed to.
pub open spec fn health_exit_cause<I, J>(result: Option<Result<(), J>>) -> RouterError<I, J> {
    match result {
        Some(Ok(_)) => RouterError::HealthTaskExited,
        Some(Err(source)) => RouterError::HealthTask(source),
        None => RouterError::Lifecycle,
    }
}

pub fn unexpected_health_exit<I, J>(result: Option<Result<(), J>>) -> (cause: RouterError<I, J>)
    ensures
        cause == health_exit_cause::<I, J>(result),
{
    match result {
        Some(Ok(_)) => RouterError::HealthTaskExited,
        Some(Err(source)) => RouterError::HealthTask(source),
        None => RouterError::Lifecycle,
    }
}

pub fn expected_health_shutdown<J>(result: &Option<Result<(), J>>) -> (outcome: bool)
    ensures
        outcome == (*result is Some && result->Some_0 is Ok),
{
    matches!(result, Some(Ok(_)))
}

/// What became of an aborted server task.
pub fn abort_and_join_server<I, J>(joined: Result<Result<(), I>, J>, cancelled: bool) -> (outcome:
    Result<(), RouterError<I, J>>)
    ensures
        match joined {
            Ok(Ok(_)) => outcome is Ok,
            Ok(Err(source)) => outcome is Err && outcome->Err_0 == RouterError::<I, J>::Server(
                source,
            ),
            Err(source) => if cancelled {
                outcome is Ok
            } else {
                outcome is Err && outcome->Err_0 == RouterError::<I, J>::ServerTask(source)
            },
        },
{
    match joined {
        Ok(Ok(_)) => Ok(()),
        Ok(Err(source)) => Err(RouterError::Server(source)),
        Err(source) => {
            if cancelled {
                Ok(())
            } else {
                Err(RouterError::ServerTask(source))
            }
        },
    }
}

/// How far the process is.
#[derive(Clone, Copy, Debug, PartialEq, Eq, Structural)]
pub enum Stage {
    /// It serves.
    Serving,
    /// It drains, and is about to tell the server so.
    Notifying,
    /// It drains.
    Draining,
    /// It has ended.
    Ended,
}

/// What the supervisor is told.
pub enum Event<I, J> {
    /// The server task ended.
    ServerExited(Result<Result<(), I>, J>),
    /// A health task ended, or there was none left to wait for.
    HealthExited(Option<Result<(), J>>),
    /// A signal came, or could not be waited for.
    Signalled(Result<(), I>),
    /// The server was told to shut down, or could not be.
    Notified(bool),
    /// No session is left.
    SessionsEnded,
    /// The time to drain is over.
    DeadlineElapsed,
}

/// What the supervisor wants done.
pub enum Action<I, J> {
    /// Wait for the next event.
    Wait,
    /// Refuse new requests and sessions, end the health tasks, and tell the
    /// server to shut down.
    StartDraining,
    /// Clean up and end with this cause; the server is still to be aborted if so told.
    Fail(bool, RouterError<I, J>),
    /// End: all is done.
    Finish,
    /// End at once with this cause, with nothing left to clean up.
    Leave(RouterError<I, J>),
}

/// The state of the supervisor.
pub struct SupervisorView {
    pub stage: Stage,
    pub server_done: bool,
    pub sessions_done: bool,
    pub health_left: nat,
}

impl SupervisorView {
    /// Nothing is left to wait for.
    pub open spec fn all_done(self) -> bool {
        self.server_done && self.sessions_done && self.health_left == 0
    }

    /// The supervisor after it decided to end.
    pub open spec fn ended(self) -> SupervisorView {
        SupervisorView { stage: Stage::Ended, ..self }
    }
}

/// What the supervisor does when one more thing is done: if it was the last,
/// it stops the process, and leaves it as it is where it cannot be stopped.
pub open spec fn progressed<I, J>(supervisor: SupervisorView, state: State) -> (
    SupervisorView,
    State,
    Action<I, J>,
) {
    if !supervisor.all_done() {
        (supervisor, state, Action::Wait)
    } else {
        match state.after(Step::Stop) {
            Some(stopped) => (supervisor.ended(), stopped, Action::Finish),
            None => (supervisor.ended(), state, Action::Leave(RouterError::Lifecycle)),
        }
    }
}

/// What the supervisor does in the given stage and process state when it is
/// told an event. An event that the stage does not wait for changes nothing.
pub open spec fn supervised<I, J>(
    supervisor: SupervisorView,
    state: State,
    event: Event<I, J>,
) -> (SupervisorView, State, Action<I, J>) {
    let abort = !supervisor.server_done;
    match supervisor.stage {
        Stage::Serving => match event {
            Event::ServerExited(result) => (
                supervisor.ended(),
                state,
                Action::Fail(false, server_exit_cause(result)),
            ),
            Event::HealthExited(result) => (
                supervisor.ended(),
                state,
                Action::Fail(abort, health_exit_cause::<I, J>(result)),
            ),
            Event::Signalled(Err(source)) => (
                supervisor.ended(),
                state,
                Action::Fail(abort, RouterError::Signal(source)),
            ),
            Event::Signalled(Ok(_)) => match state.after(Step::Drain) {
                Some(draining) => (
                    SupervisorView { stage: Stage::Notifying, ..supervisor },
                    draining,
                    Action::StartDraining,
                ),
                None => (supervisor.ended(), state, Action::Fail(abort, RouterError::Lifecycle)),
            },
            _ => (supervisor, state, Action::Wait),
        },
        Stage::Notifying => match event {
            Event::Notified(true) => (
                SupervisorView { stage: Stage::Draining, ..supervisor },
                state,
                Action::Wait,
            ),
            Event::Notified(false) => (
                supervisor.ended(),
                state,
                Action::Fail(abort, RouterError::ShutdownNotify),
            ),
            _ => (supervisor, state, Action::Wait),
        },
        Stage::Draining => match event {
            Event::ServerExited(result) => if supervisor.server_done {
                (supervisor, state, Action::Wait)
            } else {
                match result {
                    Ok(Ok(_)) => progressed(
                        SupervisorView { server_done: true, ..supervisor },
                        state,
                    ),
                    Ok(Err(source)) => (
                        supervisor.ended(),
                        state,
                        Action::Fail(false, RouterError::Server(source)),
                    ),
                    Err(source) => (
                        supervisor.ended(),
                        state,
                        Action::Fail(false, RouterError::ServerTask(source)),
                    ),
                }
            },
            Event::HealthExited(result) => if result is Some && result->Some_0 is Ok {
                progressed(
                    SupervisorView {
                        health_left: if supervisor.health_left > 0 {
                            (supervisor.health_left - 1) as nat
                        } else {
                            0
                        },
                        ..supervisor
                    },
                    state,
                )
            } else {
                (
                    supervisor.ended(),
                    state,
                    Action::Fail(abort, health_exit_cause::<I, J>(result)),
                )
            },
            Event::SessionsEnded => progressed(
                SupervisorView { sessions_done: true, ..supervisor },
                state,
            ),
            Event::Signalled(Err(source)) => (
                supervisor.ended(),
                state,
                Action::Fail(abort, RouterError::Signal(source)),
            ),
            Event::Signalled(Ok(_)) => (
                supervisor.ended(),
                state,
                Action::Fail(abort, RouterError::ForcedShutdown),
            ),
            Event::DeadlineElapsed => (
                supervisor.ended(),
                state,
                Action::Fail(abort, RouterError::DrainTimeout),
            ),
            Event::Notified(_) => (supervisor, state, Action::Wait),
        },
        Stage::Ended => (supervisor, state, Action::Wait),
    }
}

/// Decides what the process does next, from serving to a clean or failed end.
#[derive(Debug)]
pub struct Supervisor {
    stage: Stage,
    server_done: bool,
    sessions_done: bool,
    health_left: usize,
}

impl View for Supervisor {
    type V = SupervisorView;

    closed spec fn view(&self) -> SupervisorView {
        SupervisorView {
            stage: self.stage,
            server_done: self.server_done,
            sessions_done: self.sessions_done,
            health_left: self.health_left as nat,
        }
    }
}

impl Supervisor {
    /// A supervisor of a process that serves, with so many health tasks.
    pub fn serving(health_tasks: usize) -> (supervisor: Self)
        ensures
            supervisor@ == (SupervisorView {
                stage: Stage::Serving,
                server_done: false,
                sessions_done: false,
                health_left: health_tasks as nat,
            }),
    {
        Supervisor {
            stage: Stage::Serving,
            server_done: false,
            sessions_done: false,
            health_left: health_tasks,
        }
    }

    /// The server has not ended, so its end is to be waited for.
    pub fn awaits_server(&self) -> (outcome: bool)
        ensures
            outcome == !self@.server_done,
    {
        !self.server_done
    }

    /// Health tasks are left to wait for.
    pub fn awaits_health(&self) -> (outcome: bool)
        ensures
            outcome == (self@.health_left > 0),
    {
        self.health_left > 0
    }

    /// Sessions are left to wait for.
    pub fn awaits_sessions(&self) -> (outcome: bool)
        ensures
            outcome == !self@.sessions_done,
    {
        !self.sessions_done
    }

    /// Takes note of an event and says what is to be done.
    pub fn step<I, J>(&mut self, lifecycle: &mut Lifecycle, event: Event<I, J>) -> (action: Action<
        I,
        J,
    >)
        ensures
            (final(self)@, final(lifecycle)@, action) == supervised(
                old(self)@,
                old(lifecycle)@,
                event,
            ),
    {
        match self.stage {
            Stage::Serving => match event {
                Event::ServerExited(result) => {
                    self.stage = Stage::Ended;
                    Action::Fail(false, unexpected_server_exit(result))
                },
                Event::HealthExited(result) => {
                    self.stage = Stage::Ended;
                    Action::Fail(!self.server_done, unexpected_health_exit(result))
                },
                Event::Signalled(Err(source)) => {
                    self.stage = Stage::Ended;
                    Action::Fail(!self.server_done, RouterError::Signal(source))
                },
                Event::Signalled(Ok(_)) => {
                    if lifecycle.enter_draining().is_err() {
                        self.stage = Stage::Ended;
                        return Action::Fail(!self.server_done, RouterError::Lifecycle);
                    }
                    self.stage = Stage::Notifying;
                    Action::StartDraining
                },
                Event::Notified(_) => Action::Wait,
                Event::SessionsEnded => Action::Wait,
                Event::DeadlineElapsed => Action::Wait,
            },
            Stage::Notifying => match event {
                Event::Notified(told) => {
                    if told {
                        self.stage = Stage::Draining;
                        Action::Wait
                    } else {
                        self.stage = Stage::Ended;
                        Action::Fail(!self.server_done, RouterError::ShutdownNotify)
                    }
                },
                _ => Action::Wait,
            },
            Stage::Draining => match event {
                Event::ServerExited(result) => {
                    if self.server_done {
                        return Action::Wait;
                    }
                    match result {
                        Ok(Ok(_)) => {
                            self.server_done = true;
                            self.progress(lifecycle)
                        },
                        Ok(Err(source)) => {
                            self.stage = Stage::Ended;
                            Action::Fail(false, RouterError::Server(source))
                        },
                        Err(source) => {
                            self.stage = Stage::Ended;
                            Action::Fail(false, RouterError::ServerTask(source))
                        },
                    }
                },
                Event::HealthExited(result) => {
                    if expected_health_shutdown(&result) {
                        if self.health_left > 0 {
                            self.health_left = self.health_left - 1;
                        }
                        self.progress(lifecycle)
                    } else {
                        self.stage = Stage::Ended;
                        Action::Fail(!self.server_done, unexpected_health_exit(result))
                    }
                },
                Event::SessionsEnded => {
                    self.sessions_done = true;
                    self.progress(lifecycle)
                },
                Event::Signalled(Err(source)) => {
                    self.stage = Stage::Ended;
                    Action::Fail(!self.server_done, RouterError::Signal(source))
                },
                Event::Signalled(Ok(_)) => {
                    self.stage = Stage::Ended;
                    Action::Fail(!self.server_done, RouterError::ForcedShutdown)
                },
                Event::DeadlineElapsed => {
                    self.stage = Stage::Ended;
                    Action::Fail(!self.server_done, RouterError::DrainTimeout)
                },
                Event::Notified(_) => Action::Wait,
            },
            Stage::Ended => Action::Wait,
        }
    }

    /// Stops the process if nothing is left to wait for.
    fn progress<I, J>(&mut self, lifecycle: &mut Lifecycle) -> (action: Action<I, J>)
        ensures
            (final(self)@, final(lifecycle)@, action) == progressed::<I, J>(
                old(self)@,
                old(lifecycle)@,
            ),
    {
        if !self.server_done || !self.sessions_done || self.health_left > 0 {
            return Action::Wait;
        }
        self.stage = Stage::Ended;
        match lifecycle.enter_stopped() {
            Ok(_) => Action::Finish,
            Err(_) => Action::Leave(RouterError::Lifecycle),
        }
    }
}

/// Ends a process that failed. The cause that made it fail is kept, whatever
/// the clean-up met.
pub fn finalize_failure<I, J>(lifecycle: &mut Lifecycle, cause: RouterError<I, J>) -> (outcome:
    RouterError<I, J>)
    ensures
        outcome == cause,
        final(lifecycle)@ == (match old(lifecycle)@.after(Step::Fail) {
            Some(failed) => failed,
            None => old(lifecycle)@,
        }),
{
    match lifecycle.enter_failed() {
        Ok(_) => cause,
        Err(_) => cause,
    }
}

/// A process stops cleanly only when the server and every health task have
/// been joined and no session is left.
pub proof fn law_clean_end_joins_everything<I, J>(
    supervisor: SupervisorView,
    state: State,
    event: Event<I, J>,
)
    requires
        supervised(supervisor, state, event).2 is Finish,
    ensures
        supervised(supervisor, state, event).0.all_done(),
        supervised(supervisor, state, event).1 is Stopped,
        supervisor.stage is Draining,
{
}

/// The supervisor leaves without clean-up only when the server and every health
/// task have been joined and no session is left. It then leaves the process
/// state as it is.
pub proof fn law_leaving_forgets_nothing<I, J>(
    supervisor: SupervisorView,
    state: State,
    event: Event<I, J>,
)
    requires
        supervised(supervisor, state, event).2 is Leave,
    ensures
        supervised(supervisor, state, event).0.all_done(),
        supervised(supervisor, state, event).1 == state,
        supervised(supervisor, state, event).2->Leave_0 is Lifecycle,
        supervisor.stage is Draining,
        !(state is Draining),
{
}

/// The process state is the one that belongs to the stage.
pub open spec fn in_step(stage: Stage, state: State) -> bool {
    match stage {
        Stage::Serving => state is Serving,
        Stage::Notifying => state is Draining,
        Stage::Draining => state is Draining,
        Stage::Ended => true,
    }
}

/// A process whose state belongs to its stage stays so, whatever it is told,
/// and can always be stopped.
pub proof fn law_process_state_follows_the_stage<I, J>(
    supervisor: SupervisorView,
    state: State,
    event: Event<I, J>,
)
    requires
        in_step(supervisor.stage, state),
    ensures
        in_step(
            supervised(supervisor, state, event).0.stage,
            supervised(supervisor, state, event).1,
        ),
        !(supervised(supervisor, state, event).2 is Leave),
{
}

/// A server that has ended is never aborted, and one that has not is never
/// left behind by a failure, unless it is the server's own end that failed.
pub proof fn law_failures_abort_a_running_server<I, J>(
    supervisor: SupervisorView,
    state: State,
    event: Event<I, J>,
)
    requires
        supervised(supervisor, state, event).2 is Fail,
    ensures
        supervisor.server_done ==> !supervised(supervisor, state, event).2->Fail_0,
        !supervisor.server_done && !(event is ServerExited) ==> supervised(
            supervisor,
            state,
            event,
        ).2->Fail_0,
        supervised(supervisor, state, event).0.stage is Ended,
{
}

/// A second signal forces the end, however far draining has come.
pub proof fn law_second_signal_forces_the_end<I, J>(supervisor: SupervisorView, state: State)
    requires
        supervisor.stage is Draining,
    ensures
        supervised::<I, J>(supervisor, state, Event::Signalled(Ok(()))).2 == Action::<I, J>::Fail(
            !supervisor.server_done,
            RouterError::ForcedShutdown,
        ),
{
}

/// A process that serves drains on the first signal and on nothing else.
pub proof fn law_only_a_signal_starts_draining<I, J>(
    supervisor: SupervisorView,
    state: State,
    event: Event<I, J>,
)
    requires
        supervised(supervisor, state, event).2 is StartDraining,
    ensures
        supervisor.stage is Serving,
        event is Signalled,
        supervised(supervisor, state, event).1 is Draining,
{
}

/// What is served at a path.
#[derive(Clone, Copy, Debug, PartialEq, Eq, Structural)]
pub enum Endpoint {
    Live,
    Ready,
    Chat,
    Media(HttpMediaRoute),
    Voices,
    Voice,
    SpeechSession,
    RealtimeSession,
    Models,
    Metrics,
    Diagnostics,
}

/// Which request methods an endpoint hands to its handler. Any other is refused
/// before a handler sees it.
#[derive(Clone, Copy, Debug, PartialEq, Eq, Structural)]
pub enum Methods {
    /// GET alone: HEAD is refused.
    GetAlone,
    /// GET, and HEAD as a GET.
    GetAndHead,
    /// Every method.
    Every,
}

impl Endpoint {
    /// The methods of the endpoint: a probe is asked by GET alone, a session
    /// begins with a GET, and the others judge the method themselves.
    pub open spec fn handles(self) -> Methods {
        match self {
            Endpoint::Live | Endpoint::Ready => Methods::GetAlone,
            Endpoint::SpeechSession | Endpoint::RealtimeSession => Methods::GetAndHead,
            _ => Methods::Every,
        }
    }

    pub fn methods(self) -> (methods: Methods)
        ensures
            methods == self.handles(),
    {
        match self {
            Endpoint::Live | Endpoint::Ready => Methods::GetAlone,
            Endpoint::SpeechSession | Endpoint::RealtimeSession => Methods::GetAndHead,
            Endpoint::Chat
            | Endpoint::Media(_)
            | Endpoint::Voices
            | Endpoint::Voice
            | Endpoint::Models
            | Endpoint::Metrics
            | Endpoint::Diagnostics => Methods::Every,
        }
    }

    /// The path of the endpoint; none where its gateway has a path of its own.
    pub open spec fn location(self) -> Option<Seq<char>> {
        match self {
            Endpoint::Live => Some("/live"@),
            Endpoint::Ready => Some("/ready"@),
            Endpoint::Media(route) => Some(route.location()),
            Endpoint::Voices => Some("/v1/audio/voices"@),
            Endpoint::Voice => Some("/v1/audio/voices/{name}"@),
            Endpoint::Models => Some("/v1/models"@),
            Endpoint::Metrics => Some("/metrics"@),
            Endpoint::Diagnostics => Some("/diagnostics"@),
            Endpoint::Chat => None,
            Endpoint::SpeechSession => None,
            Endpoint::RealtimeSession => None,
        }
    }

    pub fn path(self) -> (path: Option<&'static str>)
        ensures
            text_of(path) == self.location(),
    {
        match self {
            Endpoint::Live => Some("/live"),
            Endpoint::Ready => Some("/ready"),
            Endpoint::Media(route) => Some(route.path()),
            Endpoint::Voices => Some("/v1/audio/voices"),
            Endpoint::Voice => Some("/v1/audio/voices/{name}"),
            Endpoint::Models => Some("/v1/models"),
            Endpoint::Metrics => Some("/metrics"),
            Endpoint::Diagnostics => Some("/diagnostics"),
            Endpoint::Chat => None,
            Endpoint::SpeechSession => None,
            Endpoint::RealtimeSession => None,
        }
    }
}

/// Which gateways there are beside those for media.
#[derive(Clone, Copy, Debug, PartialEq, Eq, Structural)]
pub struct Gateways {
    pub chat: bool,
    pub speech_sessions: bool,
    pub realtime_sessions: bool,
}

/// The endpoint, if it is enabled.
pub open spec fn enabled(endpoint: Endpoint, is_enabled: bool) -> Seq<Endpoint> {
    if is_enabled {
        seq![endpoint]
    } else {
        Seq::empty()
    }
}

/// The media endpoints that are enabled, in order.
pub open spec fn media_endpoints(routes: Seq<HttpMediaRoute>) -> Seq<Endpoint> {
    enabled(
        Endpoint::Media(HttpMediaRoute::Speech),
        routes.contains(HttpMediaRoute::Speech),
    ) + enabled(
        Endpoint::Media(HttpMediaRoute::SpeechBatch),
        routes.contains(HttpMediaRoute::SpeechBatch),
    ) + enabled(
        Endpoint::Media(HttpMediaRoute::Transcription),
        routes.contains(HttpMediaRoute::Transcription),
    ) + enabled(
        Endpoint::Media(HttpMediaRoute::Translation),
        routes.contains(HttpMediaRoute::Translation),
    )
}

/// The endpoints of the media gateway, in order.
pub open spec fn gateway_endpoints(routes: Seq<HttpMediaRoute>, voices: bool) -> Seq<Endpoint> {
    media_endpoints(routes) + enabled(Endpoint::Voices, voices) + enabled(Endpoint::Voice, voices)
}

/// All endpoints: probes and operations always, the others where they are enabled.
pub open spec fn endpoints(
    gateways: Gateways,
    media: Option<Seq<HttpMediaRoute>>,
    voices: bool,
) -> Seq<Endpoint> {
    seq![Endpoint::Live, Endpoint::Ready] + enabled(Endpoint::Chat, gateways.chat) + (match media {
        Some(routes) => gateway_endpoints(routes, voices),
        None => Seq::empty(),
    }) + enabled(Endpoint::SpeechSession, gateways.speech_sessions) + enabled(
        Endpoint::RealtimeSession,
        gateways.realtime_sessions,
    ) + seq![Endpoint::Models, Endpoint::Metrics, Endpoint::Diagnostics]
}

/// Adding one list after another is adding both together.
proof fn lemma_add_is_associative(a: Seq<Endpoint>, b: Seq<Endpoint>, c: Seq<Endpoint>)
    ensures
        (a + b) + c == a + (b + c),
{
    assert((a + b) + c =~= a + (b + c));
}

/// Adds an endpoint, if it is enabled.
fn enable(table: &mut Vec<Endpoint>, endpoint: Endpoint, is_enabled: bool)
    ensures
        final(table)@ == old(table)@ + enabled(endpoint, is_enabled),
{
    let ghost before = table@;
    if is_enabled {
        table.push(endpoint);
    }
    assert(table@ =~= before + enabled(endpoint, is_enabled));
}

/// Adds the endpoints of the media gateway.
fn enable_media(table: &mut Vec<Endpoint>, media: &HttpMedia, voices: bool)
    ensures
        final(table)@ == old(table)@ + gateway_endpoints(media@.enabled_routes, voices),
{
    let ghost before = table@;
    let speech = media.enables(HttpMediaRoute::Speech);
    let batch = media.enables(HttpMediaRoute::SpeechBatch);
    let transcription = media.enables(HttpMediaRoute::Transcription);
    let translation = media.enables(HttpMediaRoute::Translation);
    enable(table, Endpoint::Media(HttpMediaRoute::Speech), speech);
    enable(table, Endpoint::Media(HttpMediaRoute::SpeechBatch), batch);
    enable(table, Endpoint::Media(HttpMediaRoute::Transcription), transcription);
    enable(table, Endpoint::Media(HttpMediaRoute::Translation), translation);
    enable(table, Endpoint::Voices, voices);
    enable(table, Endpoint::Voice, voices);
    proof {
        let first = enabled(Endpoint::Media(HttpMediaRoute::Speech), speech);
        let second = enabled(Endpoint::Media(HttpMediaRoute::SpeechBatch), batch);
        let third = enabled(Endpoint::Media(HttpMediaRoute::Transcription), transcription);
        let fourth = enabled(Endpoint::Media(HttpMediaRoute::Translation), translation);
        let fifth = enabled(Endpoint::Voices, voices);
        let sixth = enabled(Endpoint::Voice, voices);
        lemma_add_is_associative(before, first, second);
        lemma_add_is_associative(before, first + second, third);
        lemma_add_is_associative(before, first + second + third, fourth);
        lemma_add_is_associative(before, first + second + third + fourth, fifth);
        lemma_add_is_associative(before, first + second + third + fourth + fifth, sixth);
    }
}

/// All endpoints. Voices are managed where the media gateway is given so.
pub fn route_table(gateways: Gateways, media: Option<&HttpMedia>, voices: bool) -> (table: Vec<
    Endpoint,
>)
    ensures
        table@ == endpoints(
            gateways,
            match media {
                Some(given) => Some(given@.enabled_routes),
                None => None,
            },
            voices,
        ),
{
    let mut table: Vec<Endpoint> = Vec::new();
    table.push(Endpoint::Live);
    table.push(Endpoint::Ready);
    assert(table@ =~= seq![Endpoint::Live, Endpoint::Ready]);
    enable(&mut table, Endpoint::Chat, gateways.chat);
    match media {
        Some(given) => {
            enable_media(&mut table, given, voices);
        },
        None => {
            assert(table@ =~= table@ + Seq::<Endpoint>::empty());
        },
    }
    enable(&mut table, Endpoint::SpeechSession, gateways.speech_sessions);
    enable(&mut table, Endpoint::RealtimeSession, gateways.realtime_sessions);
    let ghost almost = table@;
    table.push(Endpoint::Models);
    table.push(Endpoint::Metrics);
    table.push(Endpoint::Diagnostics);
    assert(table@ =~= almost + seq![Endpoint::Models, Endpoint::Metrics, Endpoint::Diagnostics]);
    table
}

} // verus!
