//! The operations of a git repository, loosely after git's command line:
//! the sub-command is the method's prefix, and forms of a command that
//! differ get methods of their own. What is not essential to an operation
//! is an option.
use vstd::prelude::*;
use crate::giterror::Error;
use crate::gitoptions::{
    AddOptions, BranchCreateOptions, CommitOptions, DiffStatusOptions, FetchOptions, MergeOptions, PullOptions,
    PushOptions, RebaseOptions, ResetKind, ResetOptions, StatusOptions, SwitchBranchOptions,
};
use crate::gitstatus::{DiffStatus, Status};
use crate::gittypes::{Resolution, Upstream};

verus! {

/// The pathspec of every path.
pub const PATHSPEC_ALL: &'static str = ".";

/// A git repository that can be worked on.
pub trait GitInterface {
    fn add(&self, pathspec: &str) -> Result<(), Error>;

    /// `git add [<pathspec>...]`.
    fn add_with(&self, pathspec: &str, options: AddOptions) -> Result<(), Error>;

    /// Adds every path: what `add` gives for `PATHSPEC_ALL`.
    fn add_all(&self) -> (r: Result<(), Error>)
        default_ensures
            call_ensures(Self::add, (self, PATHSPEC_ALL), r),
    {
        self.add(PATHSPEC_ALL)
    }

    fn branch_create(&self, branch_name: &str) -> Result<(), Error>;

    /// `git branch <branchname> [<start-point>]`.
    fn branch_create_with(&self, branch_name: &str, options: BranchCreateOptions) -> Result<(), Error>;

    /// `git branch --show-current`.
    fn branch_current(&self) -> Result<String, Error>;

    /// `git branch (-d | -D) [-r] <branchname>`.
    fn branch_delete(&self, branch_name: &str, force: bool, delete_remote: bool) -> Result<(), Error>;

    /// `git branch --list`.
    fn branch_list_local(&self) -> Result<Vec<String>, Error>;

    /// `git branch --set-upstream-to=<remote_name>/<remote_branch_name>`.
    fn branch_set_upstream(&self, upstream: &Upstream) -> Result<(), Error>;

    /// The message is trimmed and a single newline appended.
    fn commit(&self, message: &str) -> Result<(), Error>;

    /// The message is trimmed and a single newline appended.
    fn commit_with(&self, message: &str, options: CommitOptions) -> Result<(), Error>;

    fn diff_revision_statuses(&self, rev_lhs: &str, rev_rhs: &str) -> Result<DiffStatus, Error>;

    /// The differences between two revisions, as `git diff --name-status`.
    fn diff_revision_statuses_with(&self, rev_lhs: &str, rev_rhs: &str, options: DiffStatusOptions) -> Result<DiffStatus, Error>;

    fn fetch(&self) -> Result<(), Error>;

    fn fetch_with(&self, options: FetchOptions) -> Result<(), Error>;

    /// A fetch from every remote: what `fetch_with` gives with `all` set.
    fn fetch_all(&self) -> (r: Result<(), Error>)
        default_ensures
            call_ensures(Self::fetch_with, (self, FetchOptions { all: true, prune: false }), r),
    {
        let mut options = FetchOptions::default();
        options.all = true;
        self.fetch_with(options)
    }

    fn merge(&self, source_rev: &str) -> Result<Resolution, Error>;

    fn merge_with(&self, source_rev: &str, options: MergeOptions) -> Result<Resolution, Error>;

    /// A merge that is aborted unless git resolves it by itself: what
    /// `merge_with` gives with only `auto_resolve_only` set.
    fn merge_auto(&self, source_rev: &str) -> (r: Result<Resolution, Error>)
        default_ensures
            call_ensures(Self::merge_with, (self, source_rev, MergeOptions { auto_resolve_only: true, fast_forward_only: false }), r),
    {
        let mut options = MergeOptions::default();
        options.auto_resolve_only = true;
        self.merge_with(source_rev, options)
    }

    /// A merge that only fast-forwards: what `merge_with` gives with only
    /// `fast_forward_only` set.
    fn merge_forward(&self, source_rev: &str) -> (r: Result<Resolution, Error>)
        default_ensures
            call_ensures(Self::merge_with, (self, source_rev, MergeOptions { auto_resolve_only: false, fast_forward_only: true }), r),
    {
        let mut options = MergeOptions::default();
        options.fast_forward_only = true;
        self.merge_with(source_rev, options)
    }

    fn merge_abort(&self) -> Result<(), Error>;

    fn move_rename(&self, from: &str, to: &str) -> Result<(), Error>;

    fn pull(&self) -> Result<(), Error>;

    fn pull_with(&self, options: PullOptions) -> Result<(), Error>;

    /// A pull that only fast-forwards: what `pull_with` gives with only
    /// `fast_forward_only` set.
    fn pull_forward(&self) -> (r: Result<(), Error>)
        default_ensures
            call_ensures(Self::pull_with, (self, PullOptions { upstream: None, fast_forward_only: true, rebase: false }), r),
    {
        let mut options = PullOptions::default();
        options.fast_forward_only = true;
        self.pull_with(options)
    }

    /// A pull that only fast-forwards: what `pull_with` gives with
    /// `fast_forward_only` set in `options`.
    fn pull_forward_with(&self, options: PullOptions) -> (r: Result<(), Error>)
        default_ensures
            call_ensures(Self::pull_with, (self, PullOptions { fast_forward_only: true, ..options }), r),
    {
        let mut options = options;
        options.fast_forward_only = true;
        self.pull_with(options)
    }

    /// A pull that rebases: what `pull_with` gives with only `rebase` set.
    fn pull_rebase(&self) -> (r: Result<(), Error>)
        default_ensures
            call_ensures(Self::pull_with, (self, PullOptions { upstream: None, fast_forward_only: false, rebase: true }), r),
    {
        let mut options = PullOptions::default();
        options.rebase = true;
        self.pull_with(options)
    }

    /// A pull that rebases: what `pull_with` gives with `rebase` set in
    /// `options`.
    fn pull_rebase_with(&self, options: PullOptions) -> (r: Result<(), Error>)
        default_ensures
            call_ensures(Self::pull_with, (self, PullOptions { rebase: true, ..options }), r),
    {
        let mut options = options;
        options.rebase = true;
        self.pull_with(options)
    }

    fn push(&self) -> Result<(), Error>;

    fn push_with(&self, options: PushOptions) -> Result<(), Error>;

    /// A push that sets the upstream to the current branch of `origin`:
    /// what `push_with` gives with only `auto_set_upstream` set.
    fn push_new(&self) -> (r: Result<(), Error>)
        default_ensures
            call_ensures(Self::push_with, (self, PushOptions { upstream: None, set_upstream: None, auto_set_upstream: true }), r),
    {
        let mut options = PushOptions::default();
        options.auto_set_upstream = true;
        self.push_with(options)
    }

    fn rebase(&self) -> Result<(), Error>;

    fn rebase_with(&self, options: RebaseOptions) -> Result<(), Error>;

    fn reset(&self) -> Result<(), Error>;

    fn reset_with(&self, options: ResetOptions) -> Result<(), Error>;

    /// A soft reset: what `reset_with` gives with the kind `Soft` and no
    /// revision.
    fn reset_soft(&self) -> (r: Result<(), Error>)
        default_ensures
            call_ensures(Self::reset_with, (self, ResetOptions { kind: ResetKind::Soft, to_rev: None }), r),
    {
        let mut options = ResetOptions::default();
        options.kind = ResetKind::Soft;
        self.reset_with(options)
    }

    /// A soft reset to `to_rev`: what `reset_with` gives with the kind
    /// `Soft` and that revision.
    fn reset_soft_to(&self, to_rev: &str) -> (r: Result<(), Error>)
        default_ensures
            exists|o: ResetOptions|
                o.kind == ResetKind::Soft && (o.to_rev matches Some(t) && t@ == to_rev@) && #[trigger] call_ensures(
                    Self::reset_with,
                    (self, o),
                    r,
                ),
    {
        let mut options = ResetOptions::default();
        options.kind = ResetKind::Soft;
        options.to_rev = Some(String::from_str(to_rev));
        self.reset_with(options)
    }

    fn show_rev_file(&self, rev: &str, filepath: &str) -> Result<String, Error>;

    fn show_rev_file_bytes(&self, rev: &str, filepath: &str) -> Result<Vec<u8>, Error>;

    fn status(&self) -> Result<Status, Error>;

    fn status_with(&self, options: StatusOptions) -> Result<Status, Error>;

    fn switch_branch(&self, branch_name: &str) -> Result<(), Error>;

    /// `git switch [<options>] --no-guess <branch>`.
    fn switch_branch_with(&self, branch_name: &str, options: SwitchBranchOptions) -> Result<(), Error>;
}

/// A repository type that can be worked on.
pub trait AnyGitType: GitInterface {
}

} // verus!
