//! Errors of the git layer.
use vstd::prelude::*;

verus! {

#[verifier::external_type_specification]
#[verifier::external_body]
pub struct ExIoError(std::io::Error);

/// An unexpected state of a repository.
#[derive(Debug, Copy, Clone, PartialEq, Eq, Structural)]
pub enum StateErr {
    IndexNotFound,
    InternalsFileIO,
    UnexpectedStatus,
    HeadNotFound,
    UpstreamNotFound,
    HeadNameNotFound,
    HeadCommitNotFound,
    ReferenceCommitNotFound,
    CurrentBranchNotFound,
    BranchesNotFound,
    UnsupportedBranchName,
    AbortFailed,
}

/// The message of each repository state.
pub open spec fn spec_state_err_message(e: StateErr) -> Seq<char> {
    match e {
        StateErr::IndexNotFound => "Index does not exist"@,
        StateErr::InternalsFileIO => "Failed to access internals file"@,
        StateErr::UnexpectedStatus => "Unexpected status of repository"@,
        StateErr::HeadNotFound => "HEAD does not exist"@,
        StateErr::UpstreamNotFound => "Upstream does not exist"@,
        StateErr::HeadNameNotFound => "HEAD branch name not available"@,
        StateErr::HeadCommitNotFound => "HEAD commit not available"@,
        StateErr::ReferenceCommitNotFound => "Referenced commit not available"@,
        StateErr::CurrentBranchNotFound => "Current branch not available"@,
        StateErr::BranchesNotFound => "No Git branches do not exist"@,
        StateErr::UnsupportedBranchName => "Branch name is not UTF8"@,
        StateErr::AbortFailed => "Abort failed after conflict"@,
    }
}

impl StateErr {
    /// The message of the state.
    pub fn to_string(&self) -> (s: String)
        ensures
            s@ == spec_state_err_message(*self),
    {
        match self {
            StateErr::IndexNotFound => String::from_str("Index does not exist"),
            StateErr::InternalsFileIO => String::from_str("Failed to access internals file"),
            StateErr::UnexpectedStatus => String::from_str("Unexpected status of repository"),
            StateErr::HeadNotFound => String::from_str("HEAD does not exist"),
            StateErr::UpstreamNotFound => String::from_str("Upstream does not exist"),
            StateErr::HeadNameNotFound => String::from_str("HEAD branch name not available"),
            StateErr::HeadCommitNotFound => String::from_str("HEAD commit not available"),
            StateErr::ReferenceCommitNotFound => String::from_str("Referenced commit not available"),
            StateErr::CurrentBranchNotFound => String::from_str("Current branch not available"),
            StateErr::BranchesNotFound => String::from_str("No Git branches do not exist"),
            StateErr::UnsupportedBranchName => String::from_str("Branch name is not UTF8"),
            StateErr::AbortFailed => String::from_str("Abort failed after conflict"),
        }
    }
}

/// The cause behind an error, where there is one.
#[derive(Debug)]
pub enum ErrSrc {
    NoSource,
    Io(std::io::Error),
    Lib(Box<Error>),
}

/// An error of the git layer. Paths are held as text.
#[derive(Debug)]
pub enum Error {
    Open(String, ErrSrc, Option<String>),
    Init(String, ErrSrc, Option<String>),
    Clone(String, ErrSrc, Option<String>),
    Add(String, ErrSrc, Option<String>),
    BranchNotFound(String, ErrSrc),
    BranchConfigure(String, ErrSrc, Option<String>),
    BranchSwitch(String, ErrSrc, Option<String>),
    BranchCreate(String, String, ErrSrc),
    BranchDelete(String, ErrSrc),
    Commit(ErrSrc, Option<String>),
    Connect(String, ErrSrc, Option<String>),
    Config(String, ErrSrc),
    Diff(String, String, ErrSrc, Option<String>),
    Fetch(ErrSrc, Option<String>),
    Move(String, String, ErrSrc, Option<String>),
    Pull(ErrSrc, Option<String>),
    FastForward(&'static str, String),
    Conflict(&'static str, String),
    Log(ErrSrc, Option<String>),
    MergeAborted(String, ErrSrc, Option<String>),
    MergeUnaborted(String, ErrSrc, Option<String>),
    Push(ErrSrc, Option<String>),
    PathNotFound(String, String, ErrSrc, Option<String>),
    OptionsValidate(&'static str, &'static str),
    RemoteNotFound(String, ErrSrc),
    Reset(Option<String>, ErrSrc, Option<String>),
    RevNotFound(String, ErrSrc, Option<String>),
    UpstreamNotFound(String, ErrSrc),
    State(StateErr, ErrSrc),
    FromStr(String),
    GitCmdRun,
    GitCmd(i32, Option<String>),
    GitStatusParse,
    GitLogParse,
}

} // verus!
