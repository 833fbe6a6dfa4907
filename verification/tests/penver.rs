use sourcetrait::penver::PendanticVersion;

#[test]
fn parses_documented_forms() {
    assert_eq!(PendanticVersion::from_str("1").unwrap().to_tuple(), (1, 1, 1, 1, 0));
    assert_eq!(PendanticVersion::from_str("1.2").unwrap().to_tuple(), (1, 2, 1, 1, 0));
    assert_eq!(PendanticVersion::from_str("1.2.3").unwrap().to_tuple(), (1, 2, 3, 1, 0));
    assert_eq!(PendanticVersion::from_str("4.1.2.3").unwrap().to_tuple(), (4, 1, 2, 3, 0));
    assert_eq!(PendanticVersion::from_str("4.1.2.3.5").unwrap().to_tuple(), (4, 1, 2, 3, 5));
}

#[test]
fn parse_errors() {
    assert_eq!(PendanticVersion::from_str("1.x"), Err("Failed to parse version components at u16"));
    assert_eq!(PendanticVersion::from_str(""), Err("Failed to parse version components at u16"));
    assert_eq!(PendanticVersion::from_str("70000"), Err("Failed to parse version components at u16"));
    assert_eq!(PendanticVersion::from_str("1.2.3.4.5.6"), Err("Too many components in version"));
    assert_eq!(PendanticVersion::try_from_slice(&[]), Err("No components in version"));
    assert_eq!(PendanticVersion::from_str("+7").unwrap().to_tuple(), (7, 1, 1, 1, 0));
}

#[test]
fn semantic_order() {
    assert_eq!(PendanticVersion::try_from_str_semantic("2").unwrap().to_tuple(), (1, 2, 1, 1, 0));
    assert_eq!(PendanticVersion::try_from_str_semantic("2.3.4.5").unwrap().to_tuple(), (1, 2, 3, 4, 5));
    assert_eq!(PendanticVersion::try_from_str_semantic("2.3.4.5.9").unwrap().to_tuple(), (9, 2, 3, 4, 5));
    assert_eq!(PendanticVersion::try_from_slice_semantic(&[1, 2, 3, 4, 5, 6]), Err("Too many components in version"));
}

#[test]
fn display_forms_and_roundtrip() {
    assert_eq!(PendanticVersion::first_actual().to_string(), "1");
    assert_eq!(PendanticVersion::first_candidate().to_string(), "1.1.1.1.1");
    assert_eq!(PendanticVersion::new(1, 1, 1, 7, 0).to_string(), "1.1.1.7");
    assert_eq!(PendanticVersion::new(3, 2, 1, 1, 0).to_string(), "3.2.1.1");
    assert_eq!(PendanticVersion::zero().to_string(), "0.0.0.0.0");
    for v in [
        PendanticVersion::new(1, 1, 1, 1, 0),
        PendanticVersion::new(65535, 0, 12, 1, 9),
        PendanticVersion::new(2, 10, 100, 1000, 0),
    ] {
        assert_eq!(PendanticVersion::from_str(&v.to_string()), Ok(v));
    }
}

#[test]
fn validity_and_release_kinds() {
    let v = PendanticVersion::new(1, 1, 1, 1, 0);
    assert!(v.is_valid() && v.is_actual_release() && !v.is_candidate_release());
    let c = PendanticVersion::first_candidate();
    assert!(c.is_candidate_release() && !c.is_actual_release());
    assert!(!PendanticVersion::zero().is_valid());
    assert!(PendanticVersion::first_actual() < PendanticVersion::new(1, 1, 1, 2, 1));
    assert_eq!(PendanticVersion::short(2, (3, 4)).into_short(), (2, (3, 4)));
    assert_eq!(PendanticVersion::new_actual(1, 2, 3, 4).candidate(), 0);
    assert_eq!(PendanticVersion::from_array([5, 4, 3, 2, 1]).to_array(), [5, 4, 3, 2, 1]);
}

#[test]
fn first_releases_come_first() {
    let first_actual = PendanticVersion::first_actual();
    let first_candidate = PendanticVersion::first_candidate();
    for v in ["1.1.1.2", "2", "1.1.1.1", "3.4.5.6"] {
        let v = PendanticVersion::from_str(v).unwrap();
        assert!(v.is_actual_release());
        assert!(first_actual <= v);
    }
    for v in ["1.1.1.1.1", "1.2.3.4.9"] {
        let v = PendanticVersion::from_str(v).unwrap();
        assert!(v.is_candidate_release());
        assert!(first_candidate <= v);
    }
}
