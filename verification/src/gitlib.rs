//! The decisions of a git backend that works through libgit2 rather than
//! the command line: what its status flags and diff deltas mean, and what
//! a pull, a merge and a push do after each answer of the library. The
//! calls into libgit2 are made by the caller, which hands the answers in.
use vstd::prelude::*;
use crate::giterror::{Error, ErrSrc, StateErr};
use crate::gitoptions::{MergeOptions, PullOptions, PushOptions};
use crate::gitstatus::{
    spec_status_code, model_conflicted, spec_opt_view, spec_upsert_all, status_key, status_models, PathStatus, PathStatusModel,
    Status, StatusCode,
};
use crate::gittypes::{Resolution, Upstream};

verus! {

/// libgit2's status bits (`git_status_t`).
pub const STATUS_INDEX_NEW: u32 = 1;
pub const STATUS_INDEX_MODIFIED: u32 = 2;
pub const STATUS_INDEX_DELETED: u32 = 4;
pub const STATUS_INDEX_RENAMED: u32 = 8;
pub const STATUS_INDEX_TYPECHANGE: u32 = 16;
pub const STATUS_WT_NEW: u32 = 128;
pub const STATUS_WT_MODIFIED: u32 = 256;
pub const STATUS_WT_DELETED: u32 = 512;
pub const STATUS_WT_TYPECHANGE: u32 = 1024;
pub const STATUS_WT_RENAMED: u32 = 2048;
pub const STATUS_IGNORED: u32 = 16384;
pub const STATUS_CONFLICTED: u32 = 32768;

/// Whether `flags` has the bit `bit`.
pub open spec fn spec_has(flags: u32, bit: u32) -> bool {
    flags & bit != 0
}

/// The working-tree code of status flags: the first that applies of new,
/// deleted, ignored, modified, renamed, type changed and conflicted.
pub open spec fn spec_worktree_code(flags: u32) -> Option<StatusCode> {
    if spec_has(flags, STATUS_WT_NEW) {
        Some(StatusCode::Untracked)
    } else if spec_has(flags, STATUS_WT_DELETED) {
        Some(StatusCode::Deleted)
    } else if spec_has(flags, STATUS_IGNORED) {
        Some(StatusCode::Ignored)
    } else if spec_has(flags, STATUS_WT_MODIFIED) {
        Some(StatusCode::Modified)
    } else if spec_has(flags, STATUS_WT_RENAMED) {
        Some(StatusCode::Renamed)
    } else if spec_has(flags, STATUS_WT_TYPECHANGE) {
        Some(StatusCode::TypeChanged)
    } else if spec_has(flags, STATUS_CONFLICTED) {
        Some(StatusCode::Unmerged)
    } else {
        None
    }
}

/// The index code of status flags: the first that applies of new, deleted,
/// ignored, modified, renamed, type changed and conflicted; an untracked
/// file is untracked in the index too.
pub open spec fn spec_index_code(flags: u32) -> Option<StatusCode> {
    if spec_has(flags, STATUS_INDEX_NEW) {
        Some(StatusCode::Added)
    } else if spec_has(flags, STATUS_INDEX_DELETED) {
        Some(StatusCode::Deleted)
    } else if spec_has(flags, STATUS_IGNORED) {
        Some(StatusCode::Ignored)
    } else if spec_has(flags, STATUS_INDEX_MODIFIED) {
        Some(StatusCode::Modified)
    } else if spec_has(flags, STATUS_INDEX_RENAMED) {
        Some(StatusCode::Renamed)
    } else if spec_has(flags, STATUS_INDEX_TYPECHANGE) {
        Some(StatusCode::TypeChanged)
    } else if spec_has(flags, STATUS_CONFLICTED) {
        Some(StatusCode::Unmerged)
    } else if spec_worktree_code(flags) == Some(StatusCode::Untracked) {
        Some(StatusCode::Untracked)
    } else {
        None
    }
}

fn has(flags: u32, bit: u32) -> (b: bool)
    ensures
        b == spec_has(flags, bit),
{
    flags & bit != 0
}

/// The index and working-tree codes of a path's status flags.
pub fn status_codes_from_flags(flags: u32) -> (r: (Option<StatusCode>, Option<StatusCode>))
    ensures
        r == (spec_index_code(flags), spec_worktree_code(flags)),
{
    let wt = if has(flags, STATUS_WT_NEW) {
        Some(StatusCode::Untracked)
    } else if has(flags, STATUS_WT_DELETED) {
        Some(StatusCode::Deleted)
    } else if has(flags, STATUS_IGNORED) {
        Some(StatusCode::Ignored)
    } else if has(flags, STATUS_WT_MODIFIED) {
        Some(StatusCode::Modified)
    } else if has(flags, STATUS_WT_RENAMED) {
        Some(StatusCode::Renamed)
    } else if has(flags, STATUS_WT_TYPECHANGE) {
        Some(StatusCode::TypeChanged)
    } else if has(flags, STATUS_CONFLICTED) {
        Some(StatusCode::Unmerged)
    } else {
        None
    };
    let wt_untracked = match wt {
        Some(StatusCode::Untracked) => true,
        _ => false,
    };
    let index = if has(flags, STATUS_INDEX_NEW) {
        Some(StatusCode::Added)
    } else if has(flags, STATUS_INDEX_DELETED) {
        Some(StatusCode::Deleted)
    } else if has(flags, STATUS_IGNORED) {
        Some(StatusCode::Ignored)
    } else if has(flags, STATUS_INDEX_MODIFIED) {
        Some(StatusCode::Modified)
    } else if has(flags, STATUS_INDEX_RENAMED) {
        Some(StatusCode::Renamed)
    } else if has(flags, STATUS_INDEX_TYPECHANGE) {
        Some(StatusCode::TypeChanged)
    } else if has(flags, STATUS_CONFLICTED) {
        Some(StatusCode::Unmerged)
    } else if wt_untracked {
        Some(StatusCode::Untracked)
    } else {
        None
    };
    (index, wt)
}

/// The status of a path from its flags: the original path, which libgit2
/// gives from the head-to-index delta, is kept only for a path renamed in
/// the working tree.
pub open spec fn spec_entry_status(path: Seq<char>, flags: u32, old_path: Option<Seq<char>>) -> PathStatusModel {
    (
        path,
        spec_index_code(flags),
        spec_worktree_code(flags),
        if spec_worktree_code(flags) == Some(StatusCode::Renamed) {
            old_path
        } else {
            None
        },
    )
}

/// The status of a path from its flags.
pub fn path_status_from_flags(path: String, flags: u32, old_path: Option<String>) -> (r: PathStatus)
    ensures
        r@ == spec_entry_status(path@, flags, spec_opt_view(old_path)),
{
    let (x, y) = status_codes_from_flags(flags);
    let renamed = match y {
        Some(StatusCode::Renamed) => true,
        _ => false,
    };
    let original = if renamed {
        old_path
    } else {
        None
    };
    PathStatus::new(path, x, y, original)
}

/// The status of a repository from libgit2's entries (path, flags, original
/// path): a later entry of a path replaces an earlier one.
pub fn status_from_entries(entries: Vec<(String, u32, Option<String>)>) -> (r: Status)
    ensures
        r@ == spec_upsert_all(
            entries@.map_values(|e: (String, u32, Option<String>)| spec_entry_status(e.0@, e.1, spec_opt_view(e.2))),
            |k: PathStatusModel| status_key(k),
        ),
{
    let ghost ev = entries@;
    let mut out: Vec<PathStatus> = Vec::new();
    let mut rest = entries;
    let mut i: usize = 0;
    let n = rest.len();
    while i < n
        invariant
            n == ev.len(),
            i <= n,
            rest@ == ev.skip(i as int),
            status_models(out@) == ev.take(i as int).map_values(
                |e: (String, u32, Option<String>)| spec_entry_status(e.0@, e.1, spec_opt_view(e.2)),
            ),
        decreases n - i,
    {
        let e = rest.remove(0);
        let ghost before = out@;
        let p = path_status_from_flags(e.0, e.1, e.2);
        out.push(p);
        proof {
            assert(e == ev[i as int]);
            assert(rest@ =~= ev.skip(i + 1));
            assert(status_models(out@) =~= status_models(before).push(p@));
            assert(ev.take(i + 1) =~= ev.take(i as int).push(ev[i as int]));
        }
        i = i + 1;
    }
    proof {
        assert(ev.take(n as int) =~= ev);
    }
    Status::new(out)
}


/// The kinds of a libgit2 diff delta.
#[derive(Debug, Clone, Copy, PartialEq, Eq)]
pub enum DeltaKind {
    Unmodified,
    Added,
    Deleted,
    Modified,
    Renamed,
    Copied,
    Ignored,
    Untracked,
    Typechange,
    Unreadable,
    Conflicted,
}

/// The code of a delta between two revisions: none for an unmodified file
/// (it is left out), a copy counts as added, and an unreadable file is an
/// error.
pub open spec fn spec_diff_code(delta: DeltaKind) -> Result<Option<StatusCode>, ()> {
    match delta {
        DeltaKind::Unmodified => Ok(None),
        DeltaKind::Added => Ok(Some(StatusCode::Added)),
        DeltaKind::Deleted => Ok(Some(StatusCode::Deleted)),
        DeltaKind::Modified => Ok(Some(StatusCode::Modified)),
        DeltaKind::Renamed => Ok(Some(StatusCode::Renamed)),
        DeltaKind::Copied => Ok(Some(StatusCode::Added)),
        DeltaKind::Ignored => Ok(Some(StatusCode::Ignored)),
        DeltaKind::Untracked => Ok(Some(StatusCode::Untracked)),
        DeltaKind::Typechange => Ok(Some(StatusCode::TypeChanged)),
        DeltaKind::Conflicted => Ok(Some(StatusCode::Unmerged)),
        DeltaKind::Unreadable => Err(()),
    }
}

/// The letter that `git diff --name-status` prints for a change of each
/// kind (a blank for an unmodified file); an unreadable file has none.
pub open spec fn spec_delta_letter(delta: DeltaKind) -> Option<char> {
    match delta {
        DeltaKind::Unmodified => Some(' '),
        DeltaKind::Added => Some('A'),
        DeltaKind::Deleted => Some('D'),
        DeltaKind::Modified => Some('M'),
        DeltaKind::Renamed => Some('R'),
        DeltaKind::Copied => Some('C'),
        DeltaKind::Ignored => Some('I'),
        DeltaKind::Untracked => Some('?'),
        DeltaKind::Typechange => Some('T'),
        DeltaKind::Conflicted => Some('U'),
        DeltaKind::Unreadable => None,
    }
}

/// The code of a delta is the code that the command line gives for the
/// letter of the same change (see `law_status_letters`), so a deleted file
/// is deleted, a copy is added, and so on; an unreadable file is an error.
pub proof fn law_delta_codes_agree_with_letters(delta: DeltaKind)
    ensures
        match spec_delta_letter(delta) {
            Some(c) => spec_status_code(c) matches Some(code) && spec_diff_code(delta) == Ok::<Option<StatusCode>, ()>(code),
            None => spec_diff_code(delta) is Err,
        },
{
}

/// The code of a delta between two revisions.
pub fn diff_code_of(delta: DeltaKind) -> (r: Result<Option<StatusCode>, Error>)
    ensures
        match spec_diff_code(delta) {
            Ok(c) => r matches Ok(x) && x == c,
            Err(_) => r matches Err(e) && e is GitStatusParse,
        },
{
    match delta {
        DeltaKind::Unmodified => Ok(None),
        DeltaKind::Added => Ok(Some(StatusCode::Added)),
        DeltaKind::Deleted => Ok(Some(StatusCode::Deleted)),
        DeltaKind::Modified => Ok(Some(StatusCode::Modified)),
        DeltaKind::Renamed => Ok(Some(StatusCode::Renamed)),
        DeltaKind::Copied => Ok(Some(StatusCode::Added)),
        DeltaKind::Ignored => Ok(Some(StatusCode::Ignored)),
        DeltaKind::Untracked => Ok(Some(StatusCode::Untracked)),
        DeltaKind::Typechange => Ok(Some(StatusCode::TypeChanged)),
        DeltaKind::Conflicted => Ok(Some(StatusCode::Unmerged)),
        DeltaKind::Unreadable => Err(Error::GitStatusParse),
    }
}

/// The name of a pull in its errors.
pub const PULL: &'static str = "Pull";

/// What a pull does next.
#[derive(Debug, Clone, Copy, PartialEq, Eq)]
pub enum PullAction {
    /// Nothing more: the branch is up to date, or the work is done.
    Done,
    /// Moves the branch to the fetched commit.
    FastForward,
    /// Rebases the branch onto the fetched commit.
    Rebase,
    /// Makes a merge commit of the branch and the fetched commit.
    MergeCommit,
}

/// Whether pull options are accepted: not a fast-forward only and a
/// rebase at once.
pub open spec fn spec_pull_options_valid(o: PullOptions) -> bool {
    !(o.fast_forward_only && o.rebase)
}

/// The next step of a pull on the branch `head`, after the merge analysis
/// of the fetched commit (up to date, or a fast-forward) and, once a rebase
/// or a merge was tried, whether it met conflicts (`None` before).
pub fn pull_step(o: PullOptions, up_to_date: bool, fast_forward: bool, conflicts: Option<bool>, head: &str) -> (r: Result<PullAction, Error>)
    ensures
        !spec_pull_options_valid(o) ==> r matches Err(Error::OptionsValidate(_, _)),
        spec_pull_options_valid(o) ==> if up_to_date {
            r == Ok::<PullAction, Error>(PullAction::Done)
        } else if fast_forward {
            r == Ok::<PullAction, Error>(PullAction::FastForward)
        } else if o.fast_forward_only {
            r matches Err(Error::FastForward(n, h)) && n == PULL && h@ == head@
        } else if conflicts == Some(true) {
            r matches Err(Error::Conflict(n, h)) && n == PULL && h@ == head@
        } else if o.rebase {
            r == Ok::<PullAction, Error>(PullAction::Rebase)
        } else {
            r == Ok::<PullAction, Error>(PullAction::MergeCommit)
        },
{
    let o = match o.validate() {
        Ok(o) => o,
        Err(e) => return Err(e),
    };
    if up_to_date {
        Ok(PullAction::Done)
    } else if fast_forward {
        Ok(PullAction::FastForward)
    } else if o.fast_forward_only {
        Err(Error::FastForward(PULL, String::from_str(head)))
    } else if conflicts == Some(true) {
        Err(Error::Conflict(PULL, String::from_str(head)))
    } else if o.rebase {
        Ok(PullAction::Rebase)
    } else {
        Ok(PullAction::MergeCommit)
    }
}

/// What a merge does next.
#[derive(Debug, Clone, Copy, PartialEq, Eq)]
pub enum MergeAction {
    /// Nothing: the branch is up to date, the merge leaves it unmodified.
    UpToDate,
    /// Moves the branch to the source commit.
    FastForward,
    /// Merges the commits, failing on a conflict where asked to.
    Merge { fail_on_conflict: bool },
}

/// Whether merge options are accepted: not an automatic resolution and a
/// fast-forward only at once.
pub open spec fn spec_merge_options_valid(o: MergeOptions) -> bool {
    !(o.auto_resolve_only && o.fast_forward_only)
}

/// The next step of merging `source_rev`, after the merge analysis of its
/// commit.
pub fn merge_step(o: MergeOptions, up_to_date: bool, fast_forward: bool, source_rev: &str) -> (r: Result<MergeAction, Error>)
    ensures
        !spec_merge_options_valid(o) ==> r matches Err(Error::OptionsValidate(_, _)),
        spec_merge_options_valid(o) ==> if up_to_date {
            r == Ok::<MergeAction, Error>(MergeAction::UpToDate)
        } else if fast_forward {
            r == Ok::<MergeAction, Error>(MergeAction::FastForward)
        } else if o.fast_forward_only {
            r matches Err(Error::MergeAborted(s, ErrSrc::NoSource, Some(m))) && s@ == source_rev@
                && m@ == "Merge is not fast-forwardable"@
        } else {
            r == Ok::<MergeAction, Error>(MergeAction::Merge { fail_on_conflict: o.auto_resolve_only })
        },
{
    let o = match o.validate() {
        Ok(o) => o,
        Err(e) => return Err(e),
    };
    if up_to_date {
        Ok(MergeAction::UpToDate)
    } else if fast_forward {
        Ok(MergeAction::FastForward)
    } else if o.fast_forward_only {
        Err(
            Error::MergeAborted(
                String::from_str(source_rev),
                ErrSrc::NoSource,
                Some(String::from_str("Merge is not fast-forwardable")),
            ),
        )
    } else {
        Ok(MergeAction::Merge { fail_on_conflict: o.auto_resolve_only })
    }
}

/// How a merge of the commits ended: resolved by itself where the index
/// has no conflicts, otherwise unresolved with the conflicts of the status,
/// and an unexpected status where it shows none.
pub fn merge_outcome(index_conflicted: bool, status: Status) -> (r: Result<Resolution, Error>)
    ensures
        !index_conflicted ==> r matches Ok(Resolution::AutoResolved),
        index_conflicted ==> {
            let conflicts = status@.filter(|m: PathStatusModel| model_conflicted(m));
            if conflicts.len() > 0 {
                r matches Ok(Resolution::Unresolved(s)) && s@ == conflicts
            } else {
                r matches Err(Error::State(StateErr::UnexpectedStatus, ErrSrc::NoSource))
            }
        },
{
    if !index_conflicted {
        return Ok(Resolution::AutoResolved);
    }
    match status.into_conflicts() {
        Some(conflicts) => Ok(Resolution::Unresolved(conflicts)),
        None => Err(Error::State(StateErr::UnexpectedStatus, ErrSrc::NoSource)),
    }
}


/// The remote that a new upstream is set on.
pub const ORIGIN: &'static str = "origin";

/// Whether push options are accepted: at most one of `upstream`,
/// `set_upstream` and `auto_set_upstream`.
pub open spec fn spec_push_options_valid(o: PushOptions) -> bool {
    !(o.auto_set_upstream && (o.upstream is Some || o.set_upstream is Some)) && !(o.set_upstream is Some
        && o.upstream is Some)
}

/// The view of an optional upstream.
pub open spec fn spec_opt_upstream(u: Option<Upstream>) -> Option<(Seq<char>, Seq<char>)> {
    match u {
        Some(x) => Some(x@),
        None => None,
    }
}

/// What a push does: the upstream it sets first, if any, then the remote it
/// pushes to and the refspec.
pub struct PushPlan {
    pub set_upstream: Option<Upstream>,
    pub remote: String,
    pub refspec: String,
}

/// The upstream that a push sets: `origin` and the branch where it is
/// asked to set one itself, the given one where one is given.
pub open spec fn spec_push_set_upstream(o: PushOptions, branch: Seq<char>) -> Option<(Seq<char>, Seq<char>)> {
    if o.auto_set_upstream {
        Some((ORIGIN@, branch))
    } else {
        spec_opt_upstream(o.set_upstream)
    }
}

/// The remote and refspec of a push of `branch`: the given upstream's,
/// else the branch's upstream (as it was before the push), else the remote
/// and merge ref configured for the branch; `None` where there is none.
pub open spec fn spec_push_target(
    o: PushOptions,
    branch: Seq<char>,
    head_upstream: Option<(Seq<char>, Seq<char>)>,
    configured: Option<(Seq<char>, Seq<char>)>,
) -> Option<(Seq<char>, Seq<char>)> {
    match spec_opt_upstream(o.upstream) {
        Some(u) => Some((u.0, "refs/heads/"@ + branch + ":refs/heads/"@ + u.1)),
        None => match head_upstream {
            Some(u) => Some((u.0, "refs/heads/"@ + branch + ":refs/heads/"@ + u.1)),
            None => match configured {
                Some(c) => Some((c.0, "refs/heads/"@ + branch + ":"@ + c.1)),
                None => None,
            },
        },
    }
}

/// Where a push goes: to the upstream the options give, whatever upstream
/// the branch has; else to the branch's upstream; else to the remote and
/// merge ref configured for the branch; nowhere where there is none.
pub proof fn law_push_target_priority(
    o: PushOptions,
    branch: Seq<char>,
    head_upstream: Option<(Seq<char>, Seq<char>)>,
    configured: Option<(Seq<char>, Seq<char>)>,
)
    ensures
        o.upstream matches Some(u) ==> spec_push_target(o, branch, head_upstream, configured) == Some(
            (u@.0, "refs/heads/"@ + branch + ":refs/heads/"@ + u@.1),
        ),
        o.upstream is None ==> (head_upstream matches Some(h) ==> spec_push_target(o, branch, head_upstream, configured)
            == Some((h.0, "refs/heads/"@ + branch + ":refs/heads/"@ + h.1))),
        o.upstream is None && head_upstream is None ==> (configured matches Some(c) ==> spec_push_target(
            o,
            branch,
            head_upstream,
            configured,
        ) == Some((c.0, "refs/heads/"@ + branch + ":"@ + c.1))),
        o.upstream is None && head_upstream is None && configured is None ==> spec_push_target(
            o,
            branch,
            head_upstream,
            configured,
        ) is None,
{
}

fn copy_upstream(u: &Upstream) -> (r: Upstream)
    ensures
        r@ == u@,
{
    Upstream::new(String::from_str(u.remote_name()), String::from_str(u.remote_branch_name()))
}

fn refspec(branch: &str, sep: &str, dest: &str) -> (r: String)
    ensures
        r@ == "refs/heads/"@ + branch@ + sep@ + dest@,
{
    let mut s = String::from_str("refs/heads/");
    s.append(branch);
    s.append(sep);
    s.append(dest);
    s
}

/// The plan of a push of the branch `branch`, from its upstream before the
/// push and the remote and merge ref configured for it.
pub fn push_plan(
    o: PushOptions,
    branch: &str,
    head_upstream: Option<&Upstream>,
    configured: Option<(&str, &str)>,
) -> (r: Result<PushPlan, Error>)
    ensures
        !spec_push_options_valid(o) ==> r matches Err(Error::OptionsValidate(_, _)),
        spec_push_options_valid(o) ==> {
            let hu = match head_upstream {
                Some(u) => Some(u@),
                None => None,
            };
            let cf = match configured {
                Some(c) => Some((c.0@, c.1@)),
                None => None,
            };
            match spec_push_target(o, branch@, hu, cf) {
                Some(t) => r matches Ok(p) && spec_opt_upstream(p.set_upstream) == spec_push_set_upstream(o, branch@)
                    && p.remote@ == t.0 && p.refspec@ == t.1,
                None => r matches Err(Error::Push(ErrSrc::NoSource, Some(m))) && m@
                    == "No upstream configured for current branch"@,
            }
        },
{
    let o = match o.validate() {
        Ok(o) => o,
        Err(e) => return Err(e),
    };
    let set_upstream = if o.auto_set_upstream {
        Some(Upstream::new(String::from_str(ORIGIN), String::from_str(branch)))
    } else {
        match &o.set_upstream {
            Some(u) => Some(copy_upstream(u)),
            None => None,
        }
    };
    let target: Option<(String, String)> = match &o.upstream {
        Some(u) => Some((String::from_str(u.remote_name()), refspec(branch, ":refs/heads/", u.remote_branch_name()))),
        None => match head_upstream {
            Some(u) => Some((String::from_str(u.remote_name()), refspec(branch, ":refs/heads/", u.remote_branch_name()))),
            None => match configured {
                Some(c) => Some((String::from_str(c.0), refspec(branch, ":", c.1))),
                None => None,
            },
        },
    };
    match target {
        Some(t) => Ok(PushPlan { set_upstream, remote: t.0, refspec: t.1 }),
        None => Err(Error::Push(ErrSrc::NoSource, Some(String::from_str("No upstream configured for current branch")))),
    }
}

} // verus!
