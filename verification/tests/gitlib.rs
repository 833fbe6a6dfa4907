use sourcetrait::giterror::{ErrSrc, Error, StateErr};
use sourcetrait::gitlib::{
    diff_code_of, merge_outcome, merge_step, path_status_from_flags, pull_step, push_plan, status_codes_from_flags,
    status_from_entries, DeltaKind, MergeAction, PullAction, STATUS_CONFLICTED, STATUS_INDEX_MODIFIED,
    STATUS_INDEX_NEW, STATUS_WT_MODIFIED, STATUS_WT_NEW, STATUS_WT_RENAMED,
};
use sourcetrait::gitoptions::{MergeOptions, PullOptions, PushOptions};
use sourcetrait::gitstatus::{PathStatusTrait, Status, StatusCode, StatusTrait};
use sourcetrait::gittypes::{Resolution, Upstream};

#[test]
fn status_flags_to_codes() {
    assert_eq!(status_codes_from_flags(STATUS_WT_NEW), (Some(StatusCode::Untracked), Some(StatusCode::Untracked)));
    assert_eq!(status_codes_from_flags(STATUS_INDEX_NEW), (Some(StatusCode::Added), None));
    assert_eq!(
        status_codes_from_flags(STATUS_INDEX_MODIFIED | STATUS_WT_MODIFIED),
        (Some(StatusCode::Modified), Some(StatusCode::Modified))
    );
    assert_eq!(status_codes_from_flags(STATUS_CONFLICTED), (Some(StatusCode::Unmerged), Some(StatusCode::Unmerged)));
    assert_eq!(status_codes_from_flags(0), (None, None));
    let r = path_status_from_flags("b.txt".into(), STATUS_WT_RENAMED, Some("a.txt".into()));
    assert_eq!(r.original_path(), Some("a.txt"));
    let m = path_status_from_flags("b.txt".into(), STATUS_WT_MODIFIED, Some("a.txt".into()));
    assert_eq!(m.original_path(), None);
}

#[test]
fn status_of_entries() {
    let s = status_from_entries(vec![
        ("a".into(), STATUS_WT_NEW, None),
        ("c".into(), STATUS_CONFLICTED, None),
        ("a".into(), STATUS_INDEX_NEW, None),
    ]);
    assert_eq!(s.changes().len(), 2);
    assert!(s.has_conflicts());
    let a = s.changes().iter().find(|p| p.path() == "a").unwrap();
    assert_eq!(a.code_x(), Some(StatusCode::Added));
}

#[test]
fn diff_delta_codes() {
    assert_eq!(diff_code_of(DeltaKind::Unmodified).unwrap(), None);
    assert_eq!(diff_code_of(DeltaKind::Copied).unwrap(), Some(StatusCode::Added));
    assert_eq!(diff_code_of(DeltaKind::Typechange).unwrap(), Some(StatusCode::TypeChanged));
    assert!(matches!(diff_code_of(DeltaKind::Unreadable), Err(Error::GitStatusParse)));
}

fn pull(ff_only: bool, rebase: bool) -> PullOptions {
    let mut o = PullOptions::default();
    o.fast_forward_only = ff_only;
    o.rebase = rebase;
    o
}

#[test]
fn pull_steps() {
    assert_eq!(pull_step(pull(false, false), true, false, None, "main").unwrap(), PullAction::Done);
    assert_eq!(pull_step(pull(false, false), false, true, None, "main").unwrap(), PullAction::FastForward);
    assert!(matches!(pull_step(pull(true, false), false, false, None, "main"), Err(Error::FastForward("Pull", h)) if h == "main"));
    assert_eq!(pull_step(pull(false, true), false, false, None, "main").unwrap(), PullAction::Rebase);
    assert_eq!(pull_step(pull(false, false), false, false, Some(false), "main").unwrap(), PullAction::MergeCommit);
    assert!(matches!(pull_step(pull(false, false), false, false, Some(true), "dev"), Err(Error::Conflict("Pull", h)) if h == "dev"));
    assert!(matches!(pull_step(pull(true, true), true, false, None, "main"), Err(Error::OptionsValidate(..))));
}

#[test]
fn merge_steps() {
    let mut o = MergeOptions::default();
    assert_eq!(merge_step(o.clone(), true, true, "dev").unwrap(), MergeAction::UpToDate);
    assert_eq!(merge_step(o.clone(), false, true, "dev").unwrap(), MergeAction::FastForward);
    assert_eq!(merge_step(o.clone(), false, false, "dev").unwrap(), MergeAction::Merge { fail_on_conflict: false });
    o.fast_forward_only = true;
    assert!(matches!(
        merge_step(o.clone(), false, false, "dev"),
        Err(Error::MergeAborted(s, ErrSrc::NoSource, Some(m))) if s == "dev" && m == "Merge is not fast-forwardable"
    ));
    assert!(matches!(merge_outcome(false, Status::new(vec![])), Ok(Resolution::AutoResolved)));
    assert!(matches!(
        merge_outcome(true, Status::new(vec![])),
        Err(Error::State(StateErr::UnexpectedStatus, ErrSrc::NoSource))
    ));
    let st = status_from_entries(vec![("c".into(), STATUS_CONFLICTED, None)]);
    assert!(matches!(merge_outcome(true, st), Ok(Resolution::Unresolved(_))));
}

#[test]
fn push_plans() {
    let up = Upstream::new("up".into(), "trunk".into());
    let p = push_plan(PushOptions::default(), "main", Some(&up), None).unwrap();
    assert_eq!(p.remote, "up");
    assert_eq!(p.refspec, "refs/heads/main:refs/heads/trunk");
    assert!(p.set_upstream.is_none());
    let p = push_plan(PushOptions::default(), "main", None, Some(("cfg", "refs/heads/x"))).unwrap();
    assert_eq!(p.refspec, "refs/heads/main:refs/heads/x");
    let mut auto = PushOptions::default();
    auto.auto_set_upstream = true;
    let p = push_plan(auto, "main", Some(&up), None).unwrap();
    let s = p.set_upstream.unwrap();
    assert_eq!((s.remote_name(), s.remote_branch_name()), ("origin", "main"));
    assert!(matches!(
        push_plan(PushOptions::default(), "main", None, None),
        Err(Error::Push(ErrSrc::NoSource, Some(m))) if m == "No upstream configured for current branch"
    ));
}

use sourcetrait::gitlog::{log_from_commits, CommitRecord, GitUser};
use sourcetrait::gitoptions::LogOptions;

fn user(n: &str) -> GitUser {
    GitUser { name: n.into(), email: format!("{n}@example.com") }
}

fn record(id: u8, parents: Vec<Vec<u8>>, author: &str, message: &str) -> CommitRecord {
    CommitRecord {
        oid: vec![id; 20],
        tree: vec![id + 100; 20],
        parents,
        author: user(author),
        author_seconds: 10,
        committer: user("ci"),
        committer_seconds: 20,
        message: Some(message.into()),
    }
}

#[test]
fn logs_of_commits() {
    let mut o = LogOptions::default();
    o.show_message = true;
    let log = log_from_commits(
        o,
        vec![record(2, vec![vec![1; 20]], "ann", "  second\n"), record(1, vec![], "ann", "first")],
    )
    .unwrap();
    assert_eq!(log.commits.len(), 2);
    assert_eq!(log.users.len(), 2);
    assert_eq!(log.commits[0].message.as_deref(), Some("second"));
    assert_eq!(log.commits[0].parent_oid[0].as_bytes(), &[1u8; 20]);
    assert_eq!(log.users[log.commits[1].author].name, "ann");
    assert_eq!(log.users[log.commits[1].committer].name, "ci");
    let quiet = log_from_commits(LogOptions::default(), vec![record(3, vec![], "bob", "x")]).unwrap();
    assert_eq!(quiet.commits[0].message, None);
    let bad = log_from_commits(LogOptions::default(), vec![record(3, vec![vec![1; 19]], "bob", "x")]);
    assert!(matches!(bad, Err(Error::FromStr(_))));
}
