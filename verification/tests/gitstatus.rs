use sourcetrait::giterror::Error;
use sourcetrait::gitstatus::{
    diff_status_from_cli, path_diff_status_from_cli, DiffStatus, PathDiffStatus, PathStatus,
    PathStatusTrait, Status, StatusCode, StatusTrait,
};

#[test]
fn status_codes() {
    assert_eq!(StatusCode::try_from_char('A').unwrap(), Some(StatusCode::Added));
    assert_eq!(StatusCode::try_from_char('C').unwrap(), Some(StatusCode::Added));
    assert_eq!(StatusCode::try_from_char('U').unwrap(), Some(StatusCode::Unmerged));
    assert_eq!(StatusCode::try_from_char('?').unwrap(), Some(StatusCode::Untracked));
    assert_eq!(StatusCode::try_from_char(' ').unwrap(), None);
    assert!(matches!(StatusCode::try_from_char('X'), Err(Error::GitStatusParse)));
    assert!(matches!(StatusCode::try_from_char('B'), Err(Error::GitStatusParse)));
}

#[test]
fn porcelain_lines() {
    let p = PathStatus::from_cli(" M src/lib.rs").unwrap();
    assert_eq!(p.path(), "src/lib.rs");
    assert_eq!(p.code_index(), None);
    assert_eq!(p.code_working_tree(), Some(StatusCode::Modified));
    assert_eq!(p.original_path(), None);
    let r = PathStatus::from_cli("R  old.txt -> new.txt").unwrap();
    assert_eq!(r.path(), "new.txt");
    assert_eq!(r.original_path(), Some("old.txt"));
    let q = PathStatus::from_cli("?? \"with space.txt\"").unwrap();
    assert_eq!(q.path(), "with space.txt");
    assert!(matches!(PathStatus::from_cli("M"), Err(Error::GitStatusParse)));
    assert!(matches!(PathStatus::from_cli("XY a"), Err(Error::GitStatusParse)));
    assert!(matches!(PathStatus::from_cli(" M a b"), Err(Error::GitStatusParse)));
}

#[test]
fn status_of_output() {
    let s = Status::from_cli("UU both.txt\n M file.txt\n?? new.txt\n").unwrap();
    assert_eq!(s.changes().len(), 3);
    assert!(s.has_conflicts());
    assert!(!s.is_unmodified());
    let c = s.into_conflicts().unwrap();
    assert_eq!(c.changes().len(), 1);
    assert_eq!(c.changes()[0].path(), "both.txt");
    assert!(c.changes()[0].is_conflicted());
}

#[test]
fn status_without_conflicts() {
    let s = Status::from_cli(" M a\r\nA  b").unwrap();
    assert!(!s.has_conflicts());
    assert!(s.into_conflicts().is_none());
    let e = Status::from_cli("").unwrap();
    assert!(e.is_unmodified());
    assert!(matches!(Status::from_cli(" M a\nbad"), Err(Error::GitStatusParse)));
}

#[test]
fn later_change_of_a_path_wins() {
    let a = PathStatus::new("f".to_string(), Some(StatusCode::Added), None, None);
    let b = PathStatus::new("f".to_string(), None, Some(StatusCode::Deleted), None);
    let c = PathStatus::new("g".to_string(), None, None, None);
    let s = Status::new(vec![a, c, b]);
    assert_eq!(s.changes().len(), 2);
    assert_eq!(s.changes()[0].path(), "f");
    assert_eq!(s.changes()[0].code_working_tree(), Some(StatusCode::Deleted));
    assert_eq!(s.changes()[1].path(), "g");
}

#[test]
fn diff_lines() {
    let d = path_diff_status_from_cli("M\tsrc/main.rs").unwrap();
    assert_eq!(d.code(), StatusCode::Modified);
    assert_eq!(d.path(), "src/main.rs");
    assert_eq!(d.code_x(), Some(StatusCode::Modified));
    assert_eq!(d.code_y(), None);
    let r = path_diff_status_from_cli("R100\t'a.txt'\t\"b.txt\"").unwrap();
    assert_eq!(r.code(), StatusCode::Renamed);
    assert_eq!(r.path(), "b.txt");
    assert_eq!(r.original_path(), Some("a.txt"));
    assert!(matches!(path_diff_status_from_cli("M"), Err(Error::GitStatusParse)));
    assert!(matches!(path_diff_status_from_cli("X a"), Err(Error::GitStatusParse)));
    assert!(matches!(path_diff_status_from_cli("  a b"), Err(Error::GitStatusParse)));
    assert!(matches!(path_diff_status_from_cli("M a b c"), Err(Error::GitStatusParse)));
}

#[test]
fn diff_status_of_output() {
    let d = diff_status_from_cli("A\tx\nD\ty\n").unwrap();
    assert!(d.has_changes());
    assert_eq!(d.changes().len(), 2);
    let e = diff_status_from_cli("").unwrap();
    assert!(!e.has_changes());
    let n = DiffStatus::new(vec![
        PathDiffStatus::new("p".to_string(), StatusCode::Added, None),
        PathDiffStatus::new("p".to_string(), StatusCode::Deleted, None),
    ]);
    assert_eq!(n.changes().len(), 1);
    assert_eq!(n.changes()[0].code(), StatusCode::Deleted);
}
