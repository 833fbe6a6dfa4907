use std::cell::RefCell;

use sourcetrait::giterror::Error;
use sourcetrait::gitinterface::GitInterface;
use sourcetrait::gitoptions::{
    AddOptions, BranchCreateOptions, CommitOptions, DiffStatusOptions, FetchOptions, MergeOptions, PullOptions,
    PushOptions, RebaseOptions, ResetKind, ResetOptions, StatusOptions, SwitchBranchOptions,
};
use sourcetrait::gitstatus::{DiffStatus, Status, StatusTrait};
use sourcetrait::gittypes::{Resolution, Upstream};

#[derive(Default)]
struct Recorder {
    calls: RefCell<Vec<String>>,
}

impl Recorder {
    fn log(&self, s: String) {
        self.calls.borrow_mut().push(s);
    }
}

impl GitInterface for Recorder {
    fn add(&self, pathspec: &str) -> Result<(), Error> { self.log(format!("add {pathspec}")); Ok(()) }
    fn add_with(&self, _: &str, _: AddOptions) -> Result<(), Error> { Ok(()) }
    fn branch_create(&self, _: &str) -> Result<(), Error> { Ok(()) }
    fn branch_create_with(&self, _: &str, _: BranchCreateOptions) -> Result<(), Error> { Ok(()) }
    fn branch_current(&self) -> Result<String, Error> { Ok("main".into()) }
    fn branch_delete(&self, _: &str, _: bool, _: bool) -> Result<(), Error> { Ok(()) }
    fn branch_list_local(&self) -> Result<Vec<String>, Error> { Ok(vec![]) }
    fn branch_set_upstream(&self, _: &Upstream) -> Result<(), Error> { Ok(()) }
    fn commit(&self, _: &str) -> Result<(), Error> { Ok(()) }
    fn commit_with(&self, _: &str, _: CommitOptions) -> Result<(), Error> { Ok(()) }
    fn diff_revision_statuses(&self, _: &str, _: &str) -> Result<DiffStatus, Error> { Ok(DiffStatus::new(vec![])) }
    fn diff_revision_statuses_with(&self, _: &str, _: &str, _: DiffStatusOptions) -> Result<DiffStatus, Error> { Ok(DiffStatus::new(vec![])) }
    fn fetch(&self) -> Result<(), Error> { Ok(()) }
    fn fetch_with(&self, o: FetchOptions) -> Result<(), Error> { self.log(format!("fetch all={} prune={}", o.all, o.prune)); Ok(()) }
    fn merge(&self, _: &str) -> Result<Resolution, Error> { Ok(Resolution::Unmodified) }
    fn merge_with(&self, rev: &str, o: MergeOptions) -> Result<Resolution, Error> {
        self.log(format!("merge {rev} auto={} ff={}", o.auto_resolve_only, o.fast_forward_only));
        Ok(Resolution::Unmodified)
    }
    fn merge_abort(&self) -> Result<(), Error> { Ok(()) }
    fn move_rename(&self, _: &str, _: &str) -> Result<(), Error> { Ok(()) }
    fn pull(&self) -> Result<(), Error> { Ok(()) }
    fn pull_with(&self, o: PullOptions) -> Result<(), Error> { self.log(format!("pull ff={} rebase={}", o.fast_forward_only, o.rebase)); Ok(()) }
    fn push(&self) -> Result<(), Error> { Ok(()) }
    fn push_with(&self, o: PushOptions) -> Result<(), Error> { self.log(format!("push auto={}", o.auto_set_upstream)); Ok(()) }
    fn rebase(&self) -> Result<(), Error> { Ok(()) }
    fn rebase_with(&self, _: RebaseOptions) -> Result<(), Error> { Ok(()) }
    fn reset(&self) -> Result<(), Error> { Ok(()) }
    fn reset_with(&self, o: ResetOptions) -> Result<(), Error> {
        self.log(format!("reset soft={} to={:?}", o.kind == ResetKind::Soft, o.to_rev));
        Ok(())
    }
    fn show_rev_file(&self, _: &str, _: &str) -> Result<String, Error> { Ok(String::new()) }
    fn show_rev_file_bytes(&self, _: &str, _: &str) -> Result<Vec<u8>, Error> { Ok(vec![]) }
    fn status(&self) -> Result<Status, Error> { Ok(Status::new(vec![])) }
    fn status_with(&self, _: StatusOptions) -> Result<Status, Error> { Ok(Status::new(vec![])) }
    fn switch_branch(&self, _: &str) -> Result<(), Error> { Ok(()) }
    fn switch_branch_with(&self, _: &str, _: SwitchBranchOptions) -> Result<(), Error> { Ok(()) }
}

#[test]
fn provided_operations_set_their_options() {
    let r = Recorder::default();
    r.add_all().unwrap();
    r.fetch_all().unwrap();
    r.merge_auto("dev").unwrap();
    r.merge_forward("dev").unwrap();
    r.pull_forward().unwrap();
    r.pull_rebase().unwrap();
    r.pull_forward_with(PullOptions::default()).unwrap();
    r.pull_rebase_with(PullOptions::default()).unwrap();
    r.push_new().unwrap();
    r.reset_soft().unwrap();
    r.reset_soft_to("abc").unwrap();
    let calls = r.calls.borrow().clone();
    assert_eq!(
        calls,
        vec![
            "add .",
            "fetch all=true prune=false",
            "merge dev auto=true ff=false",
            "merge dev auto=false ff=true",
            "pull ff=true rebase=false",
            "pull ff=false rebase=true",
            "pull ff=true rebase=false",
            "pull ff=false rebase=true",
            "push auto=true",
            "reset soft=true to=None",
            "reset soft=true to=Some(\"abc\")",
        ]
    );
}

#[test]
fn status_changes_move_out() {
    let s = Status::from_cli(" M a\n M b").unwrap();
    assert_eq!(s.into_changes().len(), 2);
}
