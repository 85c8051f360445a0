use vstd::prelude::*;

verus! {

/// A rejected configuration value: the field it stands in and the broken rule.
#[derive(Clone, Copy, Debug, PartialEq, Eq)]
pub struct ConfigError {
    pub field: &'static str,
    pub reason: &'static str,
}

/// What a [`ConfigError`] says, as plain text.
pub struct ConfigFault {
    pub field: Seq<char>,
    pub reason: Seq<char>,
}

impl View for ConfigError {
    type V = ConfigFault;

    open spec fn view(&self) -> ConfigFault {
        ConfigFault { field: self.field@, reason: self.reason@ }
    }
}

/// The worker pool cannot be built: a value that validation should have
/// rejected got through.
#[derive(Clone, Copy, Debug, PartialEq, Eq, Structural)]
pub struct WorkerPoolInvariant;

/// Why the router ended. `I` is an input or output error, and `J` the error of
/// a task that could not be joined.
#[derive(Debug)]
pub enum RouterError<I, J> {
    /// A step that is not legal in the present process state.
    Lifecycle,
    Signal(I),
    Server(I),
    ServerTask(J),
    HealthTaskExited,
    HealthTask(J),
    ShutdownNotify,
    ForcedShutdown,
    DrainTimeout,
}

/// Why a request is answered with an error.
#[derive(Clone, Copy, Debug, PartialEq, Eq, Structural)]
pub enum HttpFault {
    MethodNotAllowed,
    HttpVersionNotSupported,
    MalformedRequest,
    UnsupportedMediaType,
    UnsupportedContentEncoding,
    ExpectationFailed,
    RequestBodyTooLarge,
    NoCompatibleWorker,
    InternalError,
}

/// The fault that breaks `rule`, if it is broken.
pub open spec fn broken(rule: bool, field: Seq<char>, reason: Seq<char>) -> Option<ConfigFault> {
    if rule {
        None
    } else {
        Some(ConfigFault { field, reason })
    }
}

/// The earlier of two faults.
pub open spec fn earlier(first: Option<ConfigFault>, second: Option<ConfigFault>) -> Option<
    ConfigFault,
> {
    if first is Some {
        first
    } else {
        second
    }
}

/// The fault that a validation reports.
pub open spec fn reported(outcome: Result<(), ConfigError>) -> Option<ConfigFault> {
    match outcome {
        Ok(_) => None,
        Err(error) => Some(error@),
    }
}

impl ConfigError {
    /// A value that breaks a rule of its field.
    pub fn invalid(field: &'static str, reason: &'static str) -> (error: Self)
        ensures
            error.field@ == field@,
            error.reason@ == reason@,
            error@ == (ConfigFault { field: field@, reason: reason@ }),
    {
        ConfigError { field, reason }
    }
}

} // verus!
