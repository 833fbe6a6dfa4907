//! Control flow and errors of subsystems, and the readiness that a
//! subsystem reports.
use vstd::prelude::*;
use crate::sysgreen::Control;

verus! {

/// What a step of a system's run asks of its loop.
#[derive(Debug, Clone, Copy, PartialEq, Eq)]
pub enum Flow<T> {
    Continue,
    /// Affects the control flow of the run loop.
    Control(Control),
    /// A custom value that affects the control flow of the run loop.
    Flow(T),
}

/// What a step of a subsystem's run asks of its loop.
#[derive(Debug, Clone, Copy, PartialEq, Eq)]
pub enum SubsysFlow {
    Normal,
    /// Affects the control flow of the run loop.
    Control(Control),
}

/// The standard flow, with no custom values.
#[derive(Debug, Clone, Copy, PartialEq, Eq)]
pub struct StdFlow;

/// A run that succeeded.
#[derive(Debug, Clone, Copy, PartialEq, Eq)]
pub struct Success;

/// A run that failed.
#[derive(Debug, Clone, Copy, PartialEq, Eq)]
pub struct Failure;

impl<T> Flow<T> {
    /// A success lets the loop continue.
    pub fn from_success(_v: Success) -> (r: Self)
        ensures
            r is Continue,
    {
        Flow::Continue
    }
}

/// Calls `Into::into` to make an I/O error of `source`; the error is opaque
/// here, so nothing is stated of it.
#[verifier::external_body]
fn into_io_error<E: Into<std::io::Error>>(source: E) -> std::io::Error {
    source.into()
}

/// An error of a subsystem.
#[derive(Debug)]
pub enum SubsysError {
    ChannelClosed,
    IO { source: std::io::Error },
    TaskJoin,
    TaskFail,
    Lock,
    Fatal,
    ResponseType,
}

impl SubsysError {
    pub fn channel_closed() -> (r: Self)
        ensures
            r is ChannelClosed,
    {
        SubsysError::ChannelClosed
    }

    pub fn err_channel_closed<T>() -> (r: Result<T, SubsysError>)
        ensures
            r matches Err(e) && e is ChannelClosed,
    {
        Err(Self::channel_closed())
    }

    pub fn io(source: std::io::Error) -> (r: Self)
        ensures
            r matches SubsysError::IO { source: s } && s == source,
    {
        SubsysError::IO { source }
    }

    pub fn err_into_io<T, E: Into<std::io::Error>>(source: E) -> (r: Result<T, SubsysError>)
        ensures
            r matches Err(e) && e is IO,
    {
        Err(Self::into_io(source))
    }

    pub fn into_io<E: Into<std::io::Error>>(source: E) -> (r: Self)
        ensures
            r is IO,
    {
        SubsysError::IO { source: into_io_error(source) }
    }

    /// The message of an error that carries no I/O error.
    pub fn message(&self) -> (s: Option<String>)
        ensures
            match *self {
                SubsysError::ChannelClosed => s matches Some(m) && m@ == "Channel closed"@,
                SubsysError::IO { .. } => s is None,
                SubsysError::TaskJoin => s matches Some(m) && m@ == "Unable to join task"@,
                SubsysError::TaskFail => s matches Some(m) && m@ == "Task failed"@,
                SubsysError::Lock => s matches Some(m) && m@ == "Unable to lock"@,
                SubsysError::Fatal => s matches Some(m) && m@ == "Sub-system failed"@,
                SubsysError::ResponseType => s matches Some(m) && m@ == "Unexpected response"@,
            },
    {
        match self {
            SubsysError::ChannelClosed => Some(String::from_str("Channel closed")),
            SubsysError::IO { .. } => None,
            SubsysError::TaskJoin => Some(String::from_str("Unable to join task")),
            SubsysError::TaskFail => Some(String::from_str("Task failed")),
            SubsysError::Lock => Some(String::from_str("Unable to lock")),
            SubsysError::Fatal => Some(String::from_str("Sub-system failed")),
            SubsysError::ResponseType => Some(String::from_str("Unexpected response")),
        }
    }

    /// Every subsystem error is a failure of the run.
    pub fn into_failure(self) -> (r: Failure)
        ensures
            r == Failure,
    {
        Failure
    }
}

/// Whether a subsystem accepts new work.
#[derive(Debug, Clone, Copy, PartialEq, Eq, Hash)]
pub enum Status {
    /// New work and connections are being accepted.
    Ready,
    /// No new work or connections are being accepted.
    NotReady(NotReady),
}

/// Why a subsystem accepts no new work.
#[derive(Debug, Clone, Copy, PartialEq, Eq, Hash)]
pub enum NotReady {
    /// Starting up or restarting.
    Normal,
    /// Completing its work queue.
    Drain,
    /// Dropping its work queue.
    Drop,
    /// Refreshing resources.
    Refresh,
    /// Waiting for the controller to resume it.
    Pause,
    /// Stopping.
    Stop { halt: bool },
}

/// A request for a subsystem's status.
#[derive(Debug, Clone, Copy, PartialEq, Eq, Hash)]
pub struct StatusRequest;

/// A subsystem's status, in answer to a request.
#[derive(Debug, Clone, Copy, PartialEq, Eq, Hash)]
pub struct StatusResponse {
    pub status: Status,
}

/// A subsystem's status, announced when it changes.
#[derive(Debug, Clone, Copy, PartialEq, Eq, Hash)]
pub struct StatusChange(pub Status);

} // verus!
