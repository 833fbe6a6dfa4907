use std::path::PathBuf;
use sourcetrait::normalize::{normalize_relative_to, NormalizePath};

fn pb(r: Option<String>) -> Option<PathBuf> {
    r.map(PathBuf::from)
}

#[test]
fn test_root() {
    assert_eq!(None, pb("/".normalize_relative()));
    assert_eq!(None, pb("/foo".normalize_relative()));
}

#[test]
fn test_no_parent() {
    assert_eq!(None, pb("..".normalize_relative()));
    assert_eq!(None, pb("foo/../..".normalize_relative()));
    assert_eq!(None, pb("foo/bar/../../..".normalize_relative()));
}

#[test]
fn test_parent() {
    assert_eq!(Some(PathBuf::new()), pb("foo/..".normalize_relative()));
    assert_eq!(Some(PathBuf::from("foo")), pb("foo/bar/..".normalize_relative()));
    assert_eq!(Some(PathBuf::from("foo/cat")), pb("foo/bar/../cat".normalize_relative()));
}

#[test]
fn test_current() {
    assert_eq!(Some(PathBuf::new()), pb(".".normalize_relative()));
    assert_eq!(Some(PathBuf::from("foo/.")), pb("foo".normalize_relative()));
    assert_eq!(Some(PathBuf::from("foo/./bar")), pb("foo/bar".normalize_relative()));
}

#[test]
fn normalizes_exact_text() {
    assert_eq!("a//b/./c/".normalize_relative(), Some("a/b/c".to_string()));
    assert_eq!("./x/../y".normalize_relative(), Some("y".to_string()));
    assert_eq!("".normalize_relative(), Some(String::new()));
}

#[test]
fn normalize_relative_to_joins() {
    assert_eq!(normalize_relative_to("a/../b", "/base"), Some("/base/b".to_string()));
    assert_eq!(normalize_relative_to("b", "/base/"), Some("/base/b".to_string()));
    assert_eq!(normalize_relative_to("..", "/base"), None);
    assert_eq!("x/y/..".normalize_relative_to("dir"), Some("dir/x".to_string()));
}

#[test]
fn normalizing_twice_changes_nothing() {
    for p in ["a/./b/../c", "x//y/", ".", "a/b/c/../../d", "foo/.."] {
        let once = p.normalize_relative().unwrap();
        assert_eq!(once.normalize_relative(), Some(once.clone()), "{p}");
    }
}
