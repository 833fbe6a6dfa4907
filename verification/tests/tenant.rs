use sourcetrait::tenant::{designator_found, tenant_match, TenantProbes, TenantWalkOff};

#[derive(Debug, Clone, Copy, PartialEq)]
enum StdKind {
    Top,
    Module,
}

#[derive(Debug, Clone, Copy, PartialEq)]
enum Kind {
    Docs,
    Code,
}

type Walk = TenantWalkOff<StdKind, Kind, &'static str, &'static str>;

fn probes() -> TenantProbes {
    TenantProbes {
        all_standard_kind: vec![],
        all_kind: vec![],
        all_standard: vec![],
        all: vec![],
        any_standard_kind: vec![],
        any_kind: vec![],
        any_standard: vec![],
        any: vec![],
    }
}

#[test]
fn tenant_walk_without_sets_keeps_everything() {
    let w: Walk = TenantWalkOff::builder().build().unwrap();
    assert!(!w.is_some());
    let m = tenant_match(&w, &probes()).unwrap();
    assert!(m.all_standard_kind.is_empty() && m.any.is_empty());
    let d: Walk = TenantWalkOff::default();
    assert!(!d.is_some());
}

#[test]
fn tenant_walk_all_kinds() {
    let w: Walk = TenantWalkOff::builder()
        .all_standard_kind(vec![StdKind::Top, StdKind::Module])
        .build()
        .unwrap();
    assert!(w.is_some());
    assert_eq!(w.sets().all_standard_kind, Some(vec![StdKind::Top, StdKind::Module]));
    let mut p = probes();
    p.all_standard_kind = vec![true, true];
    let m = tenant_match(&w, &p).unwrap();
    assert_eq!(m.all_standard_kind, vec![0, 1]);
    p.all_standard_kind = vec![true, false];
    assert!(tenant_match(&w, &p).is_none());
}

#[test]
fn tenant_walk_any_kinds_match_every_found() {
    let w: Walk = TenantWalkOff::builder().any_kind(vec![Kind::Docs, Kind::Code]).build().unwrap();
    let mut p = probes();
    p.any_kind = vec![false, true];
    assert_eq!(tenant_match(&w, &p).unwrap().any_kind, vec![1]);
    p.any_kind = vec![true, true];
    assert_eq!(tenant_match(&w, &p).unwrap().any_kind, vec![0, 1]);
    p.any_kind = vec![false, false];
    assert!(tenant_match(&w, &p).is_none());
}

#[test]
fn tenant_walk_any_designator_matches_first_found() {
    let w: Walk = TenantWalkOff::builder()
        .any(vec!["a", "b", "c"])
        .all_standard(vec!["top"])
        .build()
        .unwrap();
    let mut p = probes();
    p.any = vec![false, true, true];
    p.all_standard = vec![true];
    let m = tenant_match(&w, &p).unwrap();
    assert_eq!(m.any, vec![1]);
    assert_eq!(m.all_standard, vec![0]);
    p.all_standard = vec![false];
    assert!(tenant_match(&w, &p).is_none());
}

#[test]
fn tenant_walk_empty_any_set_keeps_nothing() {
    let w: Walk = TenantWalkOff::builder().any_standard(vec![]).build().unwrap();
    assert!(tenant_match(&w, &probes()).is_none());
    let w: Walk = TenantWalkOff::builder().all(vec![]).build().unwrap();
    assert!(tenant_match(&w, &probes()).is_some());
}

#[test]
fn designator_files() {
    assert!(designator_found(true, None, None));
    assert!(!designator_found(false, None, Some("x")));
    assert!(designator_found(true, Some("main"), Some("  main\n")));
    assert!(!designator_found(true, Some("main"), Some("other\n")));
    assert!(!designator_found(true, Some("main"), None));
}

use sourcetrait::dotrepo::{Definition, DesignatedDefinitionBuilder, Designation, DesignatorKindCount, RepoError};

impl DesignatorKindCount for Kind {
    const COUNT: usize = 2;
}
use sourcetrait::tenant::{init_plan, join_path, DotRepo, DotRepoDir, InitAction, ReservedDirs};

fn tool_definition() -> &'static Definition<Kind> {
    let def: Definition<Kind> = Definition::builder()
        .relative_path("tool")
        .name("Tool")
        .version(0, 1, 0)
        .top_definition(DesignatedDefinitionBuilder::new().using_state())
        .module_definition(DesignatedDefinitionBuilder::new().using_local())
        .tenant_definitions(vec![
            (Kind::Docs, DesignatedDefinitionBuilder::new().default_excludes("*.bak").build()),
            (Kind::Code, DesignatedDefinitionBuilder::new().using_state().build()),
        ])
        .build();
    Box::leak(Box::new(def))
}

#[test]
fn paths_join_like_path_join() {
    assert_eq!(join_path("a/b", "c"), "a/b/c");
    assert_eq!(join_path("a/b/", "c"), "a/b/c");
    assert_eq!(join_path("", "c"), "c");
    assert_eq!(join_path("a", "/c"), "/c");
    let d = DotRepoDir::new("/work/proj".to_string());
    assert_eq!(d.path(), "/work/proj/.repo");
    assert_eq!(d.current_dir(), "/work/proj");
    assert_eq!(d.join("tool"), "/work/proj/.repo/tool");
}

#[test]
fn dot_repo_new_and_init() {
    let def = tool_definition();
    let repo = DotRepo::new(DotRepoDir::new("/w/p/sub".to_string()), Some("/w/p".to_string()), def).unwrap();
    assert_eq!(repo.dotrepo_dir(), "/w/p/sub/.repo");
    assert_eq!(repo.tenant_dir(), "/w/p/sub/.repo/tool");
    assert_eq!(repo.tenant_relative_path(), "tool");
    assert_eq!(repo.current_dir(), "/w/p/sub");
    assert_eq!(repo.top_dir(), "/w/p");
    let reserved = ReservedDirs { exclude: "exclude".into(), state: "state".into(), designator: "designator".into() };
    assert_eq!(repo.excludes_dir(&reserved), "/w/p/sub/.repo/tool/exclude");
    assert_eq!(repo.state_dir(&reserved), "/w/p/sub/.repo/tool/state");
    assert_eq!(repo.designator_dir(&reserved), "/w/p/sub/.repo/tool/designator");
    match DotRepo::new(DotRepoDir::new("/w/q".to_string()), None, def) {
        Err(RepoError::Topless(p)) => assert_eq!(p, "/w/q"),
        _ => panic!("expected a topless tenant"),
    }
    let top = DotRepo::init(DotRepoDir::new("/w/t".to_string()), def, true, None).unwrap();
    assert_eq!(top.top_dir(), "/w/t");
    assert!(matches!(
        DotRepo::init(DotRepoDir::new("/w/t/x".to_string()), def, true, Some("/w/t".to_string())),
        Err(RepoError::TopAlreadyExists(_))
    ));
    assert!(matches!(DotRepo::init(DotRepoDir::new("/w/u".to_string()), def, false, None), Err(RepoError::Topless(_))));
    let inner = DotRepo::init(DotRepoDir::new("/w/t/x".to_string()), def, false, Some("/w/t".to_string())).unwrap();
    assert_eq!(inner.top_dir(), "/w/t");
    let made = top.create("docs/api", false, Some("/w/t".to_string())).unwrap();
    assert_eq!(made.current_dir(), "/w/t/docs/api");
    assert_eq!(made.tenant_dir(), "/w/t/docs/api/.repo/tool");
    assert!(matches!(top.create("docs", true, Some("/w/t".to_string())), Err(RepoError::TopAlreadyExists(p)) if p == "/w/t/docs"));
}

#[test]
fn definition_designated() {
    let def = tool_definition();
    assert!(def.designated(&Designation::Top).state());
    assert!(def.designated(&Designation::Module).local());
    let docs = def.designated(&Designation::Tenant(Kind::Docs));
    assert_eq!(docs.default_excludes(), Some("*.bak"));
    assert!(def.designated(&Designation::Tenant(Kind::Code)).state());
}


#[test]
fn tenant_init_plans() {
    let def = tool_definition();
    let plan = init_plan(def, true, false, None);
    assert_eq!(plan, vec![InitAction::CreateTenantDir, InitAction::CreateTopReservedDirs, InitAction::WriteSemVer(0, 1, 0)]);
    let ds = vec![
        DesignatedDefinitionBuilder::new().using_state().using_local().build(),
        DesignatedDefinitionBuilder::new().using_excludes().build(),
    ];
    let plan = init_plan(def, false, true, Some(&ds));
    assert_eq!(
        plan,
        vec![
            InitAction::WriteDesignatorFiles,
            InitAction::CreateLocalDir,
            InitAction::CreateLocalStateDir(0),
            InitAction::CreateStateDir(0),
        ]
    );
}
