use sourcetrait::pathgraph::{CycleCheckResult, PathGraph, PathGraphError};

fn p(s: &str) -> String {
    s.to_string()
}

#[test]
fn test_no_cycle() {
    let mut graph = PathGraph::new();

    graph.add_fileset("main.rs", vec![p("lib.rs"), p("utils.rs")]).unwrap();
    graph.add_fileset("lib.rs", vec![p("utils.rs")]).unwrap();
    graph.add_fileset("utils.rs", vec![]).unwrap();

    assert_eq!(graph.check_for_cycles(), CycleCheckResult::NoCycle);
}

#[test]
fn test_simple_cycle() {
    let mut graph = PathGraph::new();

    graph.add_fileset("a.rs", vec![p("b.rs")]).unwrap();
    graph.add_fileset("b.rs", vec![p("c.rs")]).unwrap();

    assert!(graph.add_fileset("c.rs", vec![p("a.rs")]).is_err());
}

#[test]
fn test_self_cycle() {
    let mut graph = PathGraph::new();

    graph.add_fileset("self.rs", vec![p("self.rs")]).unwrap();

    match graph.check_for_cycles() {
        CycleCheckResult::Cycle(path) => {
            assert!(path.contains(&p("self.rs")));
        }
        CycleCheckResult::NoCycle => panic!("Expected a cycle"),
    }
}

#[test]
fn test_would_create_cycle() {
    let mut graph = PathGraph::new();

    graph.add_fileset("a.rs", vec![p("b.rs")]).unwrap();
    graph.add_fileset("b.rs", vec![p("c.rs")]).unwrap();

    // Adding c.rs -> a.rs would create a cycle
    assert!(graph.would_create_cycle("c.rs", "a.rs"));

    // Adding c.rs -> d.rs would not create a cycle
    assert!(!graph.would_create_cycle("c.rs", "d.rs"));
}

#[test]
fn test_topological_sort() {
    let mut graph = PathGraph::new();

    graph.add_fileset("main.rs", vec![p("lib.rs"), p("utils.rs")]).unwrap();
    graph.add_fileset("lib.rs", vec![p("core.rs")]).unwrap();
    graph.add_fileset("utils.rs", vec![p("core.rs")]).unwrap();
    graph.add_fileset("core.rs", vec![]).unwrap();

    let sorted = graph.topological_sort().unwrap();

    // main.rs should come before its dependencies
    let main_idx = sorted.iter().position(|x| x == "main.rs").unwrap();
    let lib_idx = sorted.iter().position(|x| x == "lib.rs").unwrap();
    let utils_idx = sorted.iter().position(|x| x == "utils.rs").unwrap();

    assert!(main_idx < lib_idx);
    assert!(main_idx < utils_idx);
}

#[test]
fn graph_counts_files_and_dependencies() {
    let mut graph = PathGraph::new();
    graph.add_file("a.rs");
    graph.add_dependency("a.rs", "b.rs").unwrap();
    graph.add_dependency("b.rs", "c.rs").unwrap();
    assert_eq!(graph.file_count(), 2);
    let mut deps = graph.get_dependencies("a.rs").unwrap();
    deps.sort();
    assert_eq!(deps, vec![p("b.rs")]);
    assert!(graph.get_dependencies("c.rs").is_none());
    let mut all = graph.get_all_dependencies("a.rs");
    all.sort();
    assert_eq!(all, vec![p("b.rs"), p("c.rs")]);
    assert!(graph.get_all_dependencies("zzz.rs").is_empty());
    graph.clear();
    assert_eq!(graph.file_count(), 0);
}

#[test]
fn refused_dependency_leaves_graph_unchanged() {
    let mut graph = PathGraph::new();
    graph.add_dependency("a.rs", "b.rs").unwrap();
    match graph.add_dependency("b.rs", "a.rs") {
        Err(PathGraphError::CircularDependency(c)) => {
            assert_eq!(c, vec![p("b.rs"), p("a.rs"), p("b.rs")]);
        }
        _ => panic!("expected a circular dependency"),
    }
    assert_eq!(graph.file_count(), 1);
    assert!(graph.get_dependencies("b.rs").is_none());
    assert_eq!(graph.check_for_cycles(), CycleCheckResult::NoCycle);
}

#[test]
fn topological_sort_reports_cycle() {
    let mut graph = PathGraph::new();
    graph.add_dependency("x.rs", "x.rs").unwrap();
    let c = graph.topological_sort().unwrap_err();
    assert_eq!(c.first(), c.last());
    assert!(c.len() >= 2);
}

#[test]
fn error_message_joins_cycle() {
    let e = PathGraphError::CircularDependency(vec![p("a"), p("b"), p("a")]);
    assert_eq!(e.message(), "Circular dependency detected: a -> b -> a");
    let e = PathGraphError::FileNotFound(p("q.rs"));
    assert_eq!(e.message(), "File not found in graph: q.rs");
}

#[test]
fn recorded_dependency_is_read_back() {
    let mut g = PathGraph::new();
    g.add_dependency("a.ron", "b.ron").unwrap();
    g.add_dependency("a.ron", "c.ron").unwrap();
    let mut deps = g.get_dependencies("a.ron").unwrap();
    deps.sort();
    assert_eq!(deps, vec!["b.ron".to_string(), "c.ron".to_string()]);
    assert!(g.get_all_dependencies("a.ron").contains(&"b.ron".to_string()));
    assert_eq!(g.get_dependencies("b.ron"), None);
}

#[test]
fn graph_lists_its_files_once() {
    let mut g = PathGraph::new();
    g.add_dependency("a.ron", "b.ron").unwrap();
    g.add_dependency("a.ron", "c.ron").unwrap();
    g.add_file("c.ron");
    let mut files = g.files();
    files.sort();
    assert_eq!(files, vec!["a.ron".to_string(), "c.ron".to_string()]);
    assert_eq!(g.file_count(), 2);
}
