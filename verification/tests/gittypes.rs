use sourcetrait::gitcli::{cli_merge_aborted, cli_merge_next, CliMergeNext};
use sourcetrait::giterror::{Error, ErrSrc, StateErr};
use sourcetrait::gitoptions::{MergeOptions, PullOptions, PushOptions, ResetKind, ResetOptions};
use sourcetrait::gitstatus::{Status, StatusTrait};
use sourcetrait::gittypes::{
    pathspec_as_path, pathspec_is_glob, GitOID, MergeModeMeta, Resolution, ResolutionCheck, Upstream,
};

#[test]
fn test_oids() {
    const HASH_HEX: &'static str = "c4320bb856b4e2547961da6039877478eac076b3";
    assert_eq!(HASH_HEX, GitOID::from_str(HASH_HEX).unwrap().to_string());
}

#[test]
fn oid_errors_and_bytes() {
    assert!(matches!(GitOID::from_str("abc"), Err(Error::FromStr(m)) if m == "Git hash must be 40 characters long"));
    let bad = "g4320bb856b4e2547961da6039877478eac076b3";
    assert!(matches!(GitOID::from_str(bad), Err(Error::FromStr(m)) if m == format!("Invalid Git hash: {bad}")));
    let oid = GitOID::from_str("C4320BB856B4E2547961DA6039877478EAC076B3").unwrap();
    assert_eq!(oid.as_bytes()[0], 0xc4);
    assert_eq!(oid.to_string(), "c4320bb856b4e2547961da6039877478eac076b3");
    let same = GitOID::try_from_bytes(oid.as_bytes()).unwrap();
    assert_eq!(same, oid);
    assert!(matches!(GitOID::try_from_bytes(&[1, 2]), Err(Error::FromStr(_))));
    assert_eq!(GitOID::new([0u8; 20]).unwrap().to_string(), "0".repeat(40));
}

#[test]
fn pathspecs() {
    assert!(pathspec_is_glob("*.rs"));
    assert!(pathspec_is_glob("a/b?"));
    assert!(!pathspec_is_glob("a\\*b"));
    assert!(pathspec_is_glob("a\\\\*"));
    assert!(!pathspec_is_glob("plain/path.txt"));
    assert_eq!(pathspec_as_path("plain/path.txt"), Some("plain/path.txt"));
    assert_eq!(pathspec_as_path("{a,b}"), None);
}

#[test]
fn upstreams() {
    let u = Upstream::from_ref_name("refs/remotes/origin/main").unwrap();
    assert_eq!(u.remote_name(), "origin");
    assert_eq!(u.remote_branch_name(), "main");
    let f = Upstream::from_ref_name("refs/remotes/up/feature/x").unwrap();
    assert_eq!(f.remote_name(), "up");
    assert_eq!(f.remote_branch_name(), "feature/x");
    assert!(matches!(
        Upstream::from_ref_name("refs/heads/main"),
        Err(Error::State(StateErr::UnsupportedBranchName, ErrSrc::NoSource))
    ));
    assert!(matches!(Upstream::from_ref_name("refs/remotes/origin"), Err(Error::State(..))));
    let o = Upstream::origin_main();
    assert_eq!((o.remote_name(), o.remote_branch_name()), ("origin", "main"));
    let b = Upstream::new_borrowed("r", "b");
    assert_eq!(b.remote_name(), "r");
    assert_eq!(Upstream::new_owned("x".into(), "y".into()).remote_branch_name(), "y");
}

#[test]
fn merge_message() {
    let s = Status::from_cli("UU a.txt\n M b.txt\nAU c.txt\nAA d.txt\n").unwrap();
    let m = MergeModeMeta::format_msg("main", "feature", &s);
    assert_eq!(m, "Merge branch 'feature' into main\n\n# Conflicts:\n#      a.txt\n#      c.txt\n");
    let clean = Status::from_cli(" M b.txt").unwrap();
    assert_eq!(MergeModeMeta::format_msg("main", "dev", &clean), "Merge branch 'dev' into main\n");
}

#[test]
fn resolutions() {
    let auto = ResolutionCheck::resolve(Ok(()), true, Status::from_cli(" M a").unwrap()).unwrap();
    assert!(auto.is_auto_resolved() && !auto.is_committed());
    let un = ResolutionCheck::resolve(Err(Error::GitCmdRun), true, Status::from_cli("UU a\n M b").unwrap()).unwrap();
    assert!(un.is_unresolved());
    match un {
        Resolution::Unresolved(s) => assert_eq!(s.changes().len(), 1),
        _ => panic!(),
    }
    let same = ResolutionCheck::resolve(Ok(()), false, Status::from_cli("").unwrap()).unwrap();
    assert!(same.is_unmodified() && same.is_committed());
    assert!(matches!(
        ResolutionCheck::resolve(Ok(()), false, Status::from_cli(" M a").unwrap()),
        Err(Error::State(StateErr::UnexpectedStatus, ErrSrc::NoSource))
    ));
    assert!(matches!(
        ResolutionCheck::resolve(Err(Error::GitCmdRun), false, Status::from_cli("").unwrap()),
        Err(Error::GitCmdRun)
    ));
    assert!(matches!(
        ResolutionCheck::resolve(Err(Error::GitCmdRun), true, Status::from_cli(" M a").unwrap()),
        Err(Error::State(StateErr::UnexpectedStatus, _))
    ));
    assert!(Resolution::FastForwarded.is_fast_forwarded());
}

#[test]
fn head_files() {
    assert_eq!(ResolutionCheck::head_symbolic_ref_name("ref: refs/heads/main\n"), "refs/heads/main");
    assert_eq!(ResolutionCheck::head_symbolic_ref_name("ref: ref: x  "), "x");
    assert_eq!(ResolutionCheck::head_ref_commit("  abc\n"), "abc");
    let c = ResolutionCheck::new("/r/.git/refs/heads/main".into(), "abc".into());
    assert_eq!(c.head_ref_filepath_str(), "/r/.git/refs/heads/main");
    assert!(!c.moved_head("abc"));
    assert!(c.moved_head("abd"));
    assert!(c.fast_forwarded(true, false, Some("abd\n")));
    assert!(!c.fast_forwarded(true, false, Some("abc\n")));
    assert!(!c.fast_forwarded(true, true, Some("abd")));
    assert!(!c.fast_forwarded(false, false, Some("abd")));
}

#[test]
fn state_messages() {
    assert_eq!(StateErr::UnexpectedStatus.to_string(), "Unexpected status of repository");
    assert_eq!(StateErr::AbortFailed.to_string(), "Abort failed after conflict");
}

#[test]
fn option_rules() {
    let mut m = MergeOptions::default();
    m.auto_resolve_only = true;
    m.fast_forward_only = true;
    assert!(matches!(m.validate(), Err(Error::OptionsValidate("MergeOptions", "auto_resolve_only and fast_forward_only cannot both be set"))));
    let mut m = MergeOptions::default();
    m.auto_resolve_only = true;
    assert!(m.validate().is_ok());
    let mut p = PullOptions::default();
    p.fast_forward_only = true;
    p.rebase = true;
    assert!(matches!(p.validate(), Err(Error::OptionsValidate("PullOptions", _))));
    let push = PushOptions { auto_set_upstream: true, upstream: Some(Upstream::origin_main()), set_upstream: None };
    assert!(matches!(push.validate(), Err(Error::OptionsValidate("PushOptions", "auto_set_upstream cannot be set with upstream or set_upstream"))));
    let push = PushOptions { auto_set_upstream: false, upstream: Some(Upstream::origin_main()), set_upstream: Some(Upstream::origin_main()) };
    assert!(matches!(push.validate(), Err(Error::OptionsValidate("PushOptions", "set_upstream cannot be set with upstream or auto_set_upstream"))));
    assert!(PushOptions { set_upstream: Some(Upstream::origin_main()), ..Default::default() }.validate().is_ok());
    let r = ResetOptions::default();
    assert_eq!(r.kind, ResetKind::Default);
    assert!(r.validate().is_ok());
}

#[test]
fn oid_text_reads_back_in_lower_case() {
    let h = "C4320BB856B4E2547961DA6039877478EAC076B3";
    assert_eq!(GitOID::from_str(h).unwrap().to_string(), h.to_ascii_lowercase());
}

#[test]
fn merge_decisions_of_the_command_line() {
    assert!(matches!(cli_merge_next(true, "dev", Ok(Resolution::AutoResolved)), CliMergeNext::Return(Ok(Resolution::AutoResolved))));
    let unresolved = Resolution::Unresolved(Status::new(vec![]));
    assert!(matches!(cli_merge_next(true, "dev", Ok(unresolved)), CliMergeNext::Abort));
    let unresolved = Resolution::Unresolved(Status::new(vec![]));
    assert!(matches!(cli_merge_next(false, "dev", Ok(unresolved)), CliMergeNext::Return(Ok(Resolution::Unresolved(_)))));
    assert!(matches!(
        cli_merge_next(false, "dev", Err(Error::GitCmdRun)),
        CliMergeNext::Return(Err(Error::MergeAborted(s, ErrSrc::Lib(_), None))) if s == "dev"
    ));
    assert!(matches!(cli_merge_aborted("dev", Ok(())), Error::MergeAborted(s, ErrSrc::NoSource, None) if s == "dev"));
    assert!(matches!(
        cli_merge_aborted("dev", Err(Error::GitCmdRun)),
        Error::MergeUnaborted(_, ErrSrc::Lib(_), Some(m)) if m == "Failed to abort problematic merge"
    ));
    let c = ResolutionCheck::new("/r/HEAD".into(), "abc".into());
    assert!(matches!(c.after(Ok(()), false, Some("abd"), None), Ok(Resolution::FastForwarded)));
    assert!(matches!(c.after(Ok(()), false, Some("abc"), Some(Status::new(vec![]))), Ok(Resolution::Unmodified)));
}
