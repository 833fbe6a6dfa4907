use sourcetrait::dotrepo::{
    designated_dirs, init_top_dir, keep_entry, path_ends_with, repo_relpath, Definition,
    DefinitionBuilder, DesignatedDefinition, DesignatedDefinitionBuilder, DesignatorKindCount, RepoError, SortBy, WalkOff,
};

#[derive(Debug, Clone, Copy, PartialEq)]
enum Kind {
    Docs,
}

impl DesignatorKindCount for Kind {
    const COUNT: usize = 1;
}

#[test]
fn designated_definitions() {
    let d = DesignatedDefinition::builder().using_state().using_local().build();
    assert!(d.state() && d.local() && !d.excludes());
    assert_eq!(d.default_excludes(), None);
    let e = DesignatedDefinitionBuilder::new().default_excludes("*.tmp").build();
    assert!(e.excludes());
    assert_eq!(e.default_excludes(), Some("*.tmp"));
    let dirs = designated_dirs(&d);
    assert!(dirs.local && dirs.local_state && dirs.state);
    let only_state = designated_dirs(&DesignatedDefinitionBuilder::new().using_state().build());
    assert!(!only_state.local && !only_state.local_state && only_state.state);
}

#[test]
fn tenant_definitions() {
    let def: Definition<Kind> = Definition::builder()
        .relative_path("tool")
        .name("Tool")
        .version(1, 2, 3)
        .top_definition(DesignatedDefinitionBuilder::new().using_excludes())
        .tenant_definitions(vec![(Kind::Docs, DesignatedDefinitionBuilder::new().using_local().build())])
        .build();
    assert_eq!(def.tenant_path(), "tool");
    assert_eq!(def.tenant_path_str(), "tool");
    assert_eq!(def.name(), "Tool");
    assert_eq!(def.semver(), (1, 2, 3));
    assert!(def.top_definition().excludes());
    assert!(def.module_definition().is_none());
    assert_eq!(def.tenant_definition_tuples()[0].0, Kind::Docs);
    let plain: Definition<Kind> = DefinitionBuilder::new()
        .relative_path("p")
        .name("P")
        .version(0, 0, 1)
        .top_definition(DesignatedDefinitionBuilder::new())
        .module_definition(DesignatedDefinitionBuilder::new().using_state())
        .build();
    assert!(plain.module_definition().unwrap().state());
    assert!(plain.tenant_definition_tuples().is_empty());
}

#[test]
fn top_directories() {
    assert_eq!(init_top_dir(true, None, "/w").unwrap(), "/w");
    assert!(matches!(init_top_dir(true, Some("/t".into()), "/w"), Err(RepoError::TopAlreadyExists(p)) if p == "/w"));
    assert_eq!(init_top_dir(false, Some("/t".into()), "/w").unwrap(), "/t");
    assert!(matches!(init_top_dir(false, None, "/w"), Err(RepoError::Topless(p)) if p == "/w"));
}

#[test]
fn walk_options() {
    let w = WalkOff::default();
    assert_eq!(w.sort_by, SortBy::Name);
    assert!(w.follow_links && w.using_excludes() && w.filters_entries());
    let b = WalkOff::builder().sort_by(SortBy::Unsorted).filter_excludes(false).build();
    assert_eq!(b.sort_by, SortBy::Unsorted);
    assert!(!b.filter_excludes && b.skip_git_dirs);
    let none = WalkOff::builder()
        .skip_dotrepo_dirs(false)
        .skip_git_dirs(false)
        .skip_dotrepo_self(false)
        .filter_excludes(false)
        .build();
    assert!(!none.filters_entries());
    assert!(keep_entry(&none, true, ".git", "/r/.git", ".repo/t", true));
}

#[test]
fn walk_entries() {
    let w = WalkOff::default();
    assert!(!keep_entry(&w, true, ".repo", "/r/.repo", ".repo/t", false));
    assert!(!keep_entry(&w, true, ".git", "/r/.git", ".repo/t", false));
    assert!(!keep_entry(&w, true, "t", "/r/.repo/t", ".repo/t", false));
    assert!(!keep_entry(&w, true, "src", "/r/src", ".repo/t", true));
    assert!(keep_entry(&w, true, "src", "/r/src", ".repo/t", false));
    assert!(!keep_entry(&w, false, ".gitignore", "/r/.gitignore", ".repo/t", false));
    assert!(!keep_entry(&w, false, "a.txt", "/r/a.txt", ".repo/t", true));
    assert!(keep_entry(&w, false, ".git", "/r/.git", ".repo/t", false));
    assert_eq!(repo_relpath("tool"), ".repo/tool");
    assert_eq!(repo_relpath(""), ".repo/");
    assert_eq!(repo_relpath("/abs"), "/abs");
    for (p, s) in [("/r/.repo/t", ".repo/t"), ("/r/x/.repo/t/", ".repo/t"), ("/r/repo/t", ".repo/t"), ("a/b", "/a/b"), ("/a/b", "/a/b"), ("x", "")] {
        assert_eq!(path_ends_with(p, s), std::path::Path::new(p).ends_with(s), "{p} {s}");
    }
    for t in ["tool", "", "/abs", "a/b"] {
        assert_eq!(repo_relpath(t), std::path::Path::new(".repo").join(t).to_str().unwrap());
    }
}
