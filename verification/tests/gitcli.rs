use sourcetrait::giterror::Error;
use sourcetrait::gitcli::{
    add_args, branch_create_args, branch_current_from_cli, branch_delete_args, branch_list_from_cli,
    branch_set_upstream_args, clone_args, command_failure, commit_args, env_vars, fetch_args,
    init_args, init_bare_args, merge_abort_args, merge_args, pull_args, push_args,
    push_needs_current_branch, reset_args, show_rev_file_args, status_args, status_failure,
    switch_branch_args,
};
use sourcetrait::gitoptions::{BranchCreateOptions, FetchOptions, PullOptions, PushOptions, ResetKind, ResetOptions};
use sourcetrait::gittypes::Upstream;

fn v(a: &[&str]) -> Vec<String> {
    a.iter().map(|s| s.to_string()).collect()
}

#[test]
fn simple_command_lines() {
    assert_eq!(add_args("."), v(&["add", "."]));
    assert_eq!(commit_args("  msg \n"), v(&["commit", "-m", "msg"]));
    assert_eq!(status_args(), v(&["status", "--porcelain"]));
    assert_eq!(switch_branch_args("dev"), v(&["switch", "dev"]));
    assert_eq!(merge_abort_args(), v(&["merge", "--abort"]));
    assert_eq!(merge_args("dev", true), v(&["merge", "--quiet", "--no-commit", "--ff-only", "dev"]));
    assert_eq!(merge_args("dev", false), v(&["merge", "--quiet", "--no-commit", "dev"]));
    assert_eq!(branch_delete_args("x", true, true), v(&["branch", "-D", "x", "-r"]));
    assert_eq!(branch_delete_args("x", false, false), v(&["branch", "-d", "x"]));
    assert_eq!(show_rev_file_args("HEAD", "a/b.txt"), v(&["show", "HEAD:a/b.txt"]));
    assert_eq!(clone_args("url", "/d"), v(&["clone", "url", "/d"]));
    assert_eq!(init_args("main", "/d"), v(&["init", "-b", "main", "/d"]));
    assert_eq!(init_bare_args("main", "/d"), v(&["init", "--bare", "-b", "main", "/d"]));
    assert_eq!(branch_set_upstream_args(&Upstream::origin_main()), v(&["branch", "--set-upstream-to", "origin/main"]));
}

#[test]
fn optioned_command_lines() {
    let mut b = BranchCreateOptions::default();
    b.orphan = true;
    b.start_point = Some("HEAD~1".into());
    assert_eq!(branch_create_args("x", &Some(b)), v(&["branch", "--orphan", "HEAD~1", "x"]));
    assert_eq!(branch_create_args("x", &None), v(&["branch", "x"]));
    let mut f = FetchOptions::default();
    f.all = true;
    f.prune = true;
    assert_eq!(fetch_args(&Some(f)), v(&["fetch", "--all", "--prune"]));
    assert_eq!(fetch_args(&None), v(&["fetch"]));
    let mut p = PullOptions::default();
    p.fast_forward_only = true;
    assert_eq!(pull_args(&p), v(&["pull", "--ff-only"]));
    p.rebase = true;
    assert_eq!(pull_args(&p), v(&["pull", "--rebase"]));
    let mut r = ResetOptions::default();
    r.kind = ResetKind::Soft;
    r.to_rev = Some("abc".into());
    assert_eq!(reset_args(&r), v(&["reset", "--soft", "abc"]));
    assert_eq!(reset_args(&ResetOptions::default()), v(&["reset"]));
}

#[test]
fn push_command_lines() {
    let up = PushOptions { upstream: Some(Upstream::new_borrowed("r", "b")), ..Default::default() };
    assert_eq!(push_args(&up, "cur"), v(&["push", "r", "b"]));
    let set = PushOptions { set_upstream: Some(Upstream::new_borrowed("r", "b")), ..Default::default() };
    assert_eq!(push_args(&set, "cur"), v(&["push", "-u", "r", "b"]));
    let auto = PushOptions { auto_set_upstream: true, ..Default::default() };
    assert!(push_needs_current_branch(&auto));
    assert_eq!(push_args(&auto, "cur"), v(&["push", "-u", "origin", "cur"]));
    assert!(!push_needs_current_branch(&PushOptions::default()));
    assert_eq!(push_args(&PushOptions::default(), "cur"), v(&["push"]));
}

#[test]
fn environment() {
    let e = env_vars(Some("A"), Some("a@x"), Some("2020".into()), Some("C"), None);
    let want: Vec<(String, String)> = vec![
        ("GIT_AUTHOR_NAME".into(), "A".into()),
        ("GIT_AUTHOR_EMAIL".into(), "a@x".into()),
        ("GIT_AUTHOR_DATE".into(), "2020".into()),
        ("GIT_COMMITTER_NAME".into(), "C".into()),
        ("GIT_COMMITTER_EMAIL".into(), "a@x".into()),
    ];
    assert_eq!(e, want);
    assert!(env_vars(None, None, None, None, None).is_empty());
}

#[test]
fn outputs_and_failures() {
    assert_eq!(branch_list_from_cli("* main\n  dev\n"), v(&["main", "dev"]));
    assert_eq!(branch_current_from_cli(" main\n"), "main");
    assert!(matches!(command_failure(Some(128), " fatal: no \n"), Error::GitCmd(128, Some(m)) if m == "fatal: no"));
    assert!(matches!(command_failure(None, ""), Error::GitCmd(0, Some(m)) if m.is_empty()));
    assert!(matches!(status_failure(None), Error::GitCmd(1, None)));
    assert!(matches!(status_failure(Some(2)), Error::GitCmd(2, None)));
}
