use sourcetrait::inlined::{
    check_include_access, include_denied_error, include_from_args, include_shape, str_form, is_ron_file,
    looks_included, path_starts_with, seq_form, Error, IncludeArg, IncludeArgError, IncludeDenied,
    IncludeRon, IncludeShape, InlinedRon, InlinedRonConfig, InlinedRonIncludeDirs, InlinedRonState,
    RonIncluded, SeqForm,
};
use sourcetrait::stdx::FsErrMsg;

#[test]
fn include_dirs_keep_default_first() {
    let c = InlinedRonConfig::new("/base".to_string());
    assert!(c.resolve_includes);
    assert_eq!(c.include_dirs.default_dir(), ("crate", "/base"));
    assert_eq!(InlinedRonConfig::DEFAULT_MODULE, "crate");
    let d = InlinedRonConfig::new_dirs(
        "/base".to_string(),
        vec![("assets".to_string(), "/a".to_string()), ("more".to_string(), "/m".to_string())],
    );
    assert_eq!(d.include_dirs.default_dir(), ("crate", "/base"));
    assert_eq!(d.include_dirs.dir("assets"), Some(("assets", "/a")));
    assert_eq!(d.include_dirs.dir("none"), None);
}

#[test]
fn default_dir_stays_first() {
    let d = InlinedRonIncludeDirs::new(
        "crate".to_string(),
        "/base".to_string(),
        Some(vec![("x".to_string(), "/x".to_string()), ("crate".to_string(), "/other".to_string())]),
    );
    assert_eq!(d.default_dir(), ("crate", "/other"));
    assert_eq!(d.dir("x"), Some(("x", "/x")));
}

#[test]
fn include_targets() {
    let d = InlinedRonIncludeDirs::new(
        "crate".to_string(),
        "/base".to_string(),
        Some(vec![("assets".to_string(), "/a/".to_string())]),
    );
    let t = d.include_target(Some("assets"), "x/y.ron");
    assert_eq!((t.include_dir_name.as_str(), t.include_dir.as_str(), t.filepath.as_str()), ("assets", "/a/", "/a/x/y.ron"));
    let t = d.include_target(None, "y.ron");
    assert_eq!(t.filepath, "/base/y.ron");
    let t = d.include_target(Some("missing"), "/abs/z.ron");
    assert_eq!((t.include_dir_name.as_str(), t.filepath.as_str()), ("crate", "/abs/z.ron"));
}

#[test]
fn include_access() {
    assert!(path_starts_with("/a/b/c.ron", "/a/b"));
    assert!(path_starts_with("/a/b/c.ron", "/a//b/"));
    assert!(!path_starts_with("/a/bc/d.ron", "/a/b"));
    assert!(!path_starts_with("a/b", "/a"));
    assert!(is_ron_file("/x/y.ron"));
    assert!(is_ron_file("/x/..ron"));
    assert!(!is_ron_file("/x/.ron"));
    assert!(!is_ron_file("/x/y.toml"));
    assert!(!is_ron_file("/"));
    assert_eq!(check_include_access("/a", "/a/b.ron"), Ok(()));
    assert_eq!(check_include_access("/a", "/b/b.ron"), Err(IncludeDenied::OutsideIncludeDir));
    assert_eq!(check_include_access("/a", "/a/b.txt"), Err(IncludeDenied::NotRon));
    for (a, b) in [("/a/b/c", "/a/b"), ("/a/./b", "/a/b"), ("./a/b", "./a"), ("a/../b", "a"), ("/x", "/y")] {
        assert_eq!(path_starts_with(a, b), std::path::Path::new(a).strip_prefix(b).is_ok(), "{a} {b}");
    }
    for p in ["/a/b.ron", "b.ron", "/a/.ron", "/a/b.ron/", "/a/x.tar.ron", "/..", "."] {
        let want = std::path::Path::new(p).extension().is_some_and(|e| e == "ron");
        assert_eq!(is_ron_file(p), want, "{p}");
    }
    match include_denied_error(IncludeDenied::NotRon, "/a/b.txt".to_string()) {
        Error::Io(FsErrMsg::AccessFile("RON"), p, e) => {
            assert_eq!(p, "/a/b.txt");
            assert_eq!(e.kind(), std::io::ErrorKind::PermissionDenied);
        }
        _ => panic!(),
    }
}

#[test]
fn include_cycles_are_refused() {
    let mut s = InlinedRonState::new();
    assert!(s.add_dependency("/a.ron", "/b.ron".to_string()).is_ok());
    assert!(s.add_dependency("/b.ron", "/c.ron".to_string()).is_ok());
    assert!(matches!(s.add_dependency("/c.ron", "/a.ron".to_string()), Err(Error::ResolveRON(_))));
    assert_eq!(s.path_graph().file_count(), 2);
    s.path_graph_mut().clear();
    assert_eq!(s.path_graph().file_count(), 0);
}

#[test]
fn inlined_values() {
    let a: InlinedRon<u8> = InlinedRon::Actual(3);
    assert!(a.is_actual() && !a.is_include() && !a.is_included());
    assert_eq!(a.actual(), Some(&3));
    assert_eq!(a.inlined(), Some(&3));
    assert_eq!(*a.expect_inlined(), 3);
    let i: InlinedRon<u8> = InlinedRon::Included(RonIncluded(None, "p.ron".to_string(), 4));
    assert_eq!(i.included(), Some(&4));
    assert_eq!(i.actual(), None);
    assert_eq!(i.take_inlined(), Some(4));
    let n: InlinedRon<u8> = InlinedRon::Include(IncludeRon(Some("m".into()), "p.ron".into()));
    assert!(n.is_include());
    assert_eq!(n.take_inlined(), None);
}

#[test]
fn include_arguments() {
    assert_eq!(include_from_args(Some(IncludeArg::Str("p.ron".into())), None), Ok(IncludeRon(None, "p.ron".into())));
    assert_eq!(
        include_from_args(Some(IncludeArg::Str("m".into())), Some(IncludeArg::Str("p.ron".into()))),
        Ok(IncludeRon(Some("m".into()), "p.ron".into()))
    );
    assert_eq!(include_from_args(Some(IncludeArg::Unit), Some(IncludeArg::PathLike("p".into()))), Ok(IncludeRon(None, "p".into())));
    assert_eq!(include_from_args(Some(IncludeArg::Other), Some(IncludeArg::Str("p".into()))), Err(IncludeArgError::ExpectedModule));
    assert_eq!(include_from_args(Some(IncludeArg::Other), None), Err(IncludeArgError::BadPath));
    assert_eq!(include_from_args(None, None), Err(IncludeArgError::MissingPath));
    assert_eq!(seq_form(IncludeArg::Str("p".into()), None), Ok(SeqForm::Include(IncludeRon(None, "p".into()))));
    assert_eq!(seq_form(IncludeArg::Str("m".into()), Some(IncludeArg::Str("p".into()))), Ok(SeqForm::Include(IncludeRon(Some("m".into()), "p".into()))));
    assert_eq!(seq_form(IncludeArg::Unit, None), Err(IncludeArgError::MissingPath));
    assert_eq!(seq_form(IncludeArg::Other, None), Ok(SeqForm::Actual));
    assert!(looks_included(3, &vec!["2".into(), "0".into(), "1".into()]));
    assert!(!looks_included(4, &vec!["2".into(), "0".into(), "1".into()]));
    assert!(!looks_included(3, &vec!["0".into(), "1".into(), "x".into()]));
    assert_eq!(include_shape(true, IncludeRon(Some("m".into()), "p".into())), IncludeShape::ModuleAndPath("m".into(), "p".into()));
    assert_eq!(include_shape(true, IncludeRon(None, "p".into())), IncludeShape::BarePath("p".into()));
    assert_eq!(include_shape(false, IncludeRon(None, "p".into())), IncludeShape::Pair(None, "p".into()));
    // what is written reads back as the same include
    assert_eq!(str_form("p"), IncludeRon(None, "p".into()));
    assert_eq!(seq_form(IncludeArg::Unit, Some(IncludeArg::Str("p".into()))), Ok(SeqForm::Include(IncludeRon(None, "p".into()))));
}
