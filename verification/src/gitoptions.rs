//! The options of git operations, and which combinations of them are
//! accepted.
use vstd::prelude::*;
use crate::giterror::Error;
use crate::gittypes::Upstream;

verus! {
/// Options of `git add`.
#[non_exhaustive]
#[derive(Debug, Clone)]
pub struct AddOptions {}

impl Default for AddOptions {
    fn default() -> (r: Self)
        ensures
            r == (AddOptions {}),
    {
        AddOptions {}
    }
}
/// Options of deleting a branch.
#[non_exhaustive]
#[derive(Debug, Clone)]
pub struct BranchDeleteOptions {}

impl Default for BranchDeleteOptions {
    fn default() -> (r: Self)
        ensures
            r == (BranchDeleteOptions {}),
    {
        BranchDeleteOptions {}
    }
}
/// Options of moving a branch.
#[non_exhaustive]
#[derive(Debug, Clone)]
pub struct BranchMoveOptions {}

impl Default for BranchMoveOptions {
    fn default() -> (r: Self)
        ensures
            r == (BranchMoveOptions {}),
    {
        BranchMoveOptions {}
    }
}
/// Options of `git commit`.
#[non_exhaustive]
#[derive(Debug, Clone)]
pub struct CommitOptions {}

impl Default for CommitOptions {
    fn default() -> (r: Self)
        ensures
            r == (CommitOptions {}),
    {
        CommitOptions {}
    }
}
/// Options of `git diff --name-status`.
#[non_exhaustive]
#[derive(Debug, Clone)]
pub struct DiffStatusOptions {}

impl Default for DiffStatusOptions {
    fn default() -> (r: Self)
        ensures
            r == (DiffStatusOptions {}),
    {
        DiffStatusOptions {}
    }
}
/// Options of `git rebase`.
#[non_exhaustive]
#[derive(Debug, Clone)]
pub struct RebaseOptions {}

impl Default for RebaseOptions {
    fn default() -> (r: Self)
        ensures
            r == (RebaseOptions {}),
    {
        RebaseOptions {}
    }
}
/// Options of `git status`.
#[non_exhaustive]
#[derive(Debug, Clone)]
pub struct StatusOptions {}

impl Default for StatusOptions {
    fn default() -> (r: Self)
        ensures
            r == (StatusOptions {}),
    {
        StatusOptions {}
    }
}
/// Options of `git switch`.
#[non_exhaustive]
#[derive(Debug, Clone)]
pub struct SwitchBranchOptions {}

impl Default for SwitchBranchOptions {
    fn default() -> (r: Self)
        ensures
            r == (SwitchBranchOptions {}),
    {
        SwitchBranchOptions {}
    }
}
impl RebaseOptions {
    /// Every set of rebase options is accepted.
    pub fn validate(self) -> (r: Result<Self, Error>)
        ensures
            r == Ok::<Self, Error>(self),
    {
        Ok(self)
    }
}

/// Options of creating a branch.
#[non_exhaustive]
#[derive(Debug, Clone)]
pub struct BranchCreateOptions {
    pub start_point: Option<String>,
    pub orphan: bool,
}

impl Default for BranchCreateOptions {
    fn default() -> (r: Self)
        ensures
            r.start_point is None,
            !r.orphan,
    {
        BranchCreateOptions { start_point: None, orphan: false }
    }
}

impl BranchCreateOptions {
    /// Every set of branch options is accepted.
    pub fn validate(self) -> (r: Result<Self, Error>)
        ensures
            r == Ok::<Self, Error>(self),
    {
        Ok(self)
    }
}

/// Options of `git clone`; the environment is given apart.
#[non_exhaustive]
#[derive(Debug, Clone)]
pub struct FetchOptions {
    pub all: bool,
    pub prune: bool,
}

impl Default for FetchOptions {
    fn default() -> (r: Self)
        ensures
            !r.all,
            !r.prune,
    {
        FetchOptions { all: false, prune: false }
    }
}

/// Options of `git log`.
#[non_exhaustive]
#[derive(Debug, Clone)]
pub struct LogOptions {
    pub show_message: bool,
    pub show_signature_fingerprint: bool,
}

impl Default for LogOptions {
    fn default() -> (r: Self)
        ensures
            !r.show_message,
            !r.show_signature_fingerprint,
    {
        LogOptions { show_message: false, show_signature_fingerprint: false }
    }
}

impl LogOptions {
    /// Every set of log options is accepted.
    pub fn validate(self) -> (r: Result<Self, Error>)
        ensures
            r == Ok::<Self, Error>(self),
    {
        Ok(self)
    }
}

/// Options of `git merge`.
#[non_exhaustive]
#[derive(Debug, Clone)]
pub struct MergeOptions {
    pub auto_resolve_only: bool,
    pub fast_forward_only: bool,
}

impl Default for MergeOptions {
    fn default() -> (r: Self)
        ensures
            !r.auto_resolve_only,
            !r.fast_forward_only,
    {
        MergeOptions { auto_resolve_only: false, fast_forward_only: false }
    }
}

impl MergeOptions {
    /// Refuses asking for an automatic resolution and a fast-forward only
    /// at once.
    pub fn validate(self) -> (r: Result<Self, Error>)
        ensures
            match r {
                Ok(o) => o == self && !(self.auto_resolve_only && self.fast_forward_only),
                Err(e) => self.auto_resolve_only && self.fast_forward_only && (e matches Error::OptionsValidate(a, b)
                    && a@ == "MergeOptions"@ && b@ == "auto_resolve_only and fast_forward_only cannot both be set"@),
            },
    {
        if self.auto_resolve_only && self.fast_forward_only {
            return Err(Error::OptionsValidate("MergeOptions", "auto_resolve_only and fast_forward_only cannot both be set"));
        }
        Ok(self)
    }
}

/// Options of `git pull`. Without an upstream, the configured one is used,
/// or `origin`.
#[non_exhaustive]
#[derive(Debug, Clone)]
pub struct PullOptions {
    pub upstream: Option<Upstream>,
    pub fast_forward_only: bool,
    pub rebase: bool,
}

impl Default for PullOptions {
    fn default() -> (r: Self)
        ensures
            r.upstream is None,
            !r.fast_forward_only,
            !r.rebase,
    {
        PullOptions { upstream: None, fast_forward_only: false, rebase: false }
    }
}

impl PullOptions {
    /// Refuses asking for a fast-forward only and a rebase at once.
    pub fn validate(self) -> (r: Result<Self, Error>)
        ensures
            match r {
                Ok(o) => o == self && !(self.fast_forward_only && self.rebase),
                Err(e) => self.fast_forward_only && self.rebase && (e matches Error::OptionsValidate(a, b)
                    && a@ == "PullOptions"@ && b@ == "fast_forward_only and rebase cannot both be set"@),
            },
    {
        if self.fast_forward_only && self.rebase {
            return Err(Error::OptionsValidate("PullOptions", "fast_forward_only and rebase cannot both be set"));
        }
        Ok(self)
    }
}

/// Options of `git push`. Without an upstream, the configured one is used,
/// or `origin`; `auto_set_upstream` sets the upstream to the current branch
/// of `origin`.
#[derive(Debug, Clone)]
pub struct PushOptions {
    pub upstream: Option<Upstream>,
    pub set_upstream: Option<Upstream>,
    pub auto_set_upstream: bool,
}

impl Default for PushOptions {
    fn default() -> (r: Self)
        ensures
            r.upstream is None,
            r.set_upstream is None,
            !r.auto_set_upstream,
    {
        PushOptions { upstream: None, set_upstream: None, auto_set_upstream: false }
    }
}

impl PushOptions {
    /// Accepts at most one of `upstream`, `set_upstream` and
    /// `auto_set_upstream`.
    pub fn validate(self) -> (r: Result<Self, Error>)
        ensures
            match r {
                Ok(o) => o == self && !(self.auto_set_upstream && (self.upstream is Some || self.set_upstream is Some))
                    && !(self.set_upstream is Some && self.upstream is Some),
                Err(e) => if self.auto_set_upstream && (self.upstream is Some || self.set_upstream is Some) {
                    e matches Error::OptionsValidate(a, b) && a@ == "PushOptions"@
                        && b@ == "auto_set_upstream cannot be set with upstream or set_upstream"@
                } else {
                    self.set_upstream is Some && self.upstream is Some && (e matches Error::OptionsValidate(a, b)
                        && a@ == "PushOptions"@ && b@ == "set_upstream cannot be set with upstream or auto_set_upstream"@)
                },
            },
    {
        if self.auto_set_upstream && (self.upstream.is_some() || self.set_upstream.is_some()) {
            return Err(Error::OptionsValidate("PushOptions", "auto_set_upstream cannot be set with upstream or set_upstream"));
        } else if self.set_upstream.is_some() && (self.upstream.is_some() || self.auto_set_upstream) {
            return Err(Error::OptionsValidate("PushOptions", "set_upstream cannot be set with upstream or auto_set_upstream"));
        } else if self.upstream.is_some() && (self.set_upstream.is_some() || self.auto_set_upstream) {
            return Err(Error::OptionsValidate("PushOptions", "upstream cannot be set with set_upstream or auto_set_upstream"));
        }
        Ok(self)
    }
}

/// The kind of `git reset`.
#[derive(Debug, Clone, Copy, PartialEq, Eq, Structural)]
pub enum ResetKind {
    Default,
    Soft,
    Hard,
}

impl Default for ResetKind {
    fn default() -> (r: Self)
        ensures
            r == ResetKind::Default,
    {
        ResetKind::Default
    }
}

/// Options of `git reset`.
#[non_exhaustive]
#[derive(Debug, Clone)]
pub struct ResetOptions {
    pub kind: ResetKind,
    pub to_rev: Option<String>,
}

impl Default for ResetOptions {
    fn default() -> (r: Self)
        ensures
            r.kind == ResetKind::Default,
            r.to_rev is None,
    {
        ResetOptions { kind: ResetKind::Default, to_rev: None }
    }
}

impl ResetOptions {
    /// Every set of reset options is accepted.
    pub fn validate(self) -> (r: Result<Self, Error>)
        ensures
            r == Ok::<Self, Error>(self),
    {
        Ok(self)
    }
}

} // verus!
