use cribo::ast::{Alias, ModModule, Stmt};
use cribo::config::Config;
use cribo::discovery::DiscoveryState;
use cribo::dependency_graph::{
    CircularDependencyAnalysis, CircularDependencyGroup, CircularDependencyType, DependencyGraph,
    ModuleNode, ResolutionStrategy,
};
use cribo::orchestrator::BundleOrchestrator;
use cribo::resolver::{ImportType, ModuleResolver};

fn s(x: &str) -> String {
    x.to_string()
}

fn orchestrator(src: &[&str]) -> BundleOrchestrator {
    BundleOrchestrator::new(Config::new(src.iter().map(|d| s(d)).collect()))
}

fn alias(name: &str, asname: Option<&str>) -> Alias {
    Alias { name: s(name), asname: asname.map(s) }
}

fn import(names: Vec<Alias>) -> Stmt {
    Stmt::Import(names)
}

fn import_from(module: Option<&str>, names: Vec<Alias>, level: u32) -> Stmt {
    Stmt::ImportFrom { module: module.map(s), names, level }
}

fn resolver_with(modules: &[(&str, &str)]) -> ModuleResolver {
    let mut r = ModuleResolver::new(10);
    for (name, path) in modules {
        r.add_module(s(name), s(path));
    }
    r
}

#[test]
fn entry_module_name_from_source_directory() {
    let o = orchestrator(&["/proj/src"]);
    assert_eq!(o.find_entry_module_name("/proj/src/pkg/mod.py"), Ok(s("pkg.mod")));
    assert_eq!(o.find_entry_module_name("/proj/src/pkg/__init__.py"), Ok(s("pkg")));
    assert_eq!(o.find_entry_module_name("/proj/src/main.py"), Ok(s("main")));
}

#[test]
fn entry_module_name_falls_back_to_file_stem() {
    let o = orchestrator(&["/proj/src"]);
    assert_eq!(o.find_entry_module_name("/other/tool.py"), Ok(s("tool")));
    assert_eq!(o.find_entry_module_name("/proj/src/__init__.py"), Ok(s("__init__")));
    assert_eq!(o.find_entry_module_name("archive.tar.gz"), Ok(s("archive.tar")));
}

#[test]
fn entry_module_name_error_for_root() {
    let o = orchestrator(&["/proj/src"]);
    assert_eq!(
        o.find_entry_module_name("/"),
        Err(s("Cannot determine module name from entry path: \"/\""))
    );
}

#[test]
fn relative_import_levels() {
    let o = orchestrator(&["/proj/src"]);
    let file = "/proj/src/pkg/sub/mod.py";
    assert_eq!(o.resolve_relative_import(file, 1, "/"), Some(s("pkg.sub")));
    assert_eq!(o.resolve_relative_import(file, 2, "/"), Some(s("pkg")));
    assert_eq!(o.resolve_relative_import(file, 3, "/"), Some(s("")));
    assert_eq!(o.resolve_relative_import(file, 4, "/"), None);
    assert_eq!(o.resolve_relative_import("/elsewhere/mod.py", 1, "/"), None);
}

#[test]
fn relative_import_with_relative_paths() {
    let o = orchestrator(&["src"]);
    assert_eq!(o.resolve_relative_import("src/pkg/mod.py", 1, "/proj"), Some(s("pkg")));
    assert_eq!(o.resolve_relative_import("./src/pkg/mod.py", 1, "/proj"), Some(s("pkg")));
}

#[test]
fn extract_imports_of_a_module() {
    let o = orchestrator(&["/proj/src"]);
    let r = resolver_with(&[("pkg", "/proj/src/pkg/__init__.py"), ("pkg.mod", "/proj/src/pkg/mod.py")]);
    let module = ModModule {
        body: vec![
            import(vec![alias("os", None), alias("xml.etree", Some("et"))]),
            import_from(Some("pkg"), vec![alias("mod", None), alias("func", None)], 0),
            import_from(Some("pkg"), vec![alias("mod", None)], 0),
            Stmt::Pass,
        ],
    };
    let imports = o.extract_imports(&module, "/proj/src/main.py", Some(&r), "/");
    assert_eq!(imports, vec![s("os"), s("xml.etree"), s("pkg"), s("pkg.mod")]);
    let without = o.extract_imports(&module, "/proj/src/main.py", None, "/");
    assert_eq!(without, vec![s("os"), s("xml.etree"), s("pkg")]);
}

#[test]
fn extract_relative_imports() {
    let o = orchestrator(&["/proj/src"]);
    let module = ModModule {
        body: vec![
            import_from(Some("helpers"), vec![alias("f", None)], 1),
            import_from(None, vec![alias("a", None), alias("b", None)], 1),
            import_from(Some("x"), vec![alias("y", None)], 5),
            import_from(None, vec![alias("z", None)], 5),
        ],
    };
    let imports = o.extract_imports(&module, "/proj/src/pkg/mod.py", None, "/");
    assert_eq!(
        imports,
        vec![s("pkg.helpers"), s("pkg.a"), s("pkg.b"), s(".....x"), s(".....")]
    );
}

fn group(modules: &[&str], t: CircularDependencyType, r: ResolutionStrategy) -> CircularDependencyGroup {
    CircularDependencyGroup { modules: modules.iter().map(|m| s(m)).collect(), cycle_type: t, suggested_resolution: r }
}

#[test]
fn cycle_check_unresolvable() {
    let a = CircularDependencyAnalysis {
        total_cycles_detected: 1,
        resolvable_cycles: vec![],
        unresolvable_cycles: vec![group(
            &["a", "b"],
            CircularDependencyType::ImportTime,
            ResolutionStrategy::Unresolvable { reason: s("import-time use") },
        )],
    };
    assert_eq!(
        BundleOrchestrator::check_cycle_analysis(&a),
        Err(s("Unresolvable circular dependencies detected:\n\nCycle 1: a → b\n  Type: ImportTime\n  Reason: import-time use\n\n"))
    );
}

#[test]
fn cycle_check_function_level_is_ok() {
    let a = CircularDependencyAnalysis {
        total_cycles_detected: 1,
        resolvable_cycles: vec![group(
            &["a", "b"],
            CircularDependencyType::FunctionLevel,
            ResolutionStrategy::FunctionScopedImport { import_statements: vec![s("import b")] },
        )],
        unresolvable_cycles: vec![],
    };
    assert_eq!(BundleOrchestrator::check_cycle_analysis(&a), Ok(()));
}

#[test]
fn cycle_check_class_level_reports_suggestions() {
    let a = CircularDependencyAnalysis {
        total_cycles_detected: 2,
        resolvable_cycles: vec![
            group(&["a", "b"], CircularDependencyType::ClassLevel, ResolutionStrategy::LazyImport { modules: vec![] }),
            group(
                &["c", "d", "c"],
                CircularDependencyType::ModuleConstants,
                ResolutionStrategy::ModuleSplit { suggestions: vec![s("split c"), s("move d")] },
            ),
        ],
        unresolvable_cycles: vec![],
    };
    assert_eq!(
        BundleOrchestrator::check_cycle_analysis(&a),
        Err(s("Circular dependencies detected in the module graph:\n\nCycle 1: a → b\n  Type: ClassLevel\n  Suggestion: Move imports inside functions to enable lazy loading\n\nCycle 2: c → d → c\n  Type: ModuleConstants\n  Suggestions:\n    split c\n    move d\n\n"))
    );
}

fn node(name: &str, imports: &[&str]) -> ModuleNode {
    ModuleNode { name: s(name), path: format!("/{}.py", name), imports: imports.iter().map(|i| s(i)).collect() }
}

#[test]
fn requirements_are_sorted_top_level_packages() {
    let o = orchestrator(&["/proj"]);
    let r = resolver_with(&[("app", "/proj/app.py")]);
    let modules = vec![
        node("app", &["requests.adapters", "os", "numpy", "app"]),
        node("other", &["requests", "attr", "sys.path"]),
    ];
    assert_eq!(o.generate_requirements(&modules, &r), s("attr\nnumpy\nrequests"));
    assert_eq!(o.generate_requirements(&vec![node("x", &["os", "json"])], &r), s(""));
}

#[test]
fn classification_of_imports() {
    let r = resolver_with(&[("pkg", "/p/pkg/__init__.py")]);
    assert_eq!(r.classify_import("pkg"), ImportType::FirstParty);
    assert_eq!(r.classify_import("os.path"), ImportType::StandardLibrary);
    assert_eq!(r.classify_import("requests"), ImportType::ThirdParty);
    assert_eq!(r.resolve_module_path("pkg"), Some(s("/p/pkg/__init__.py")));
    assert_eq!(r.resolve_module_path("nope"), None);
}

#[test]
fn dependency_graph_edges_from_imports() {
    let o = orchestrator(&["/p"]);
    let r = resolver_with(&[
        ("main", "/p/main.py"),
        ("greetings", "/p/greetings/__init__.py"),
        ("greetings.greeting", "/p/greetings/greeting.py"),
    ]);
    let all = vec![
        (s("main"), s("/p/main.py"), vec![s("greetings.greeting"), s("os")]),
        (s("greetings.greeting"), s("/p/greetings/greeting.py"), vec![]),
        (s("greetings"), s("/p/greetings/__init__.py"), vec![]),
        (s("main"), s("/p/main.py"), vec![]),
    ];
    let g = o.build_dependency_graph(&all, &r);
    let names: Vec<String> = g.get_modules().iter().map(|m| m.name.clone()).collect();
    assert_eq!(names, vec![s("main"), s("greetings.greeting"), s("greetings")]);
    assert!(g.has_dependency("greetings.greeting", "main"));
    assert!(g.has_dependency("greetings", "main"));
    assert!(!g.has_dependency("os", "main"));
    assert!(!g.has_dependency("main", "greetings"));
}

#[test]
fn add_dependency_needs_both_modules() {
    let mut g = DependencyGraph::new();
    g.add_module(node("a", &[]));
    assert!(g.add_dependency("a", "b").is_err());
    g.add_module(node("b", &[]));
    g.add_module(node("b", &["x"]));
    assert_eq!(g.get_modules().len(), 2);
    assert!(g.add_dependency("a", "b").is_ok());
    assert!(g.has_dependency("a", "b"));
    assert!(g.get_module("b").is_some());
    assert!(g.get_module("c").is_none());
}

#[test]
fn cycle_resolution_order() {
    let o = orchestrator(&["/p"]);
    let mut g = DependencyGraph::new();
    for n in ["main", "pkg", "pkg.utils", "zeta", "alpha", "pkg.a.b"] {
        g.add_module(node(n, &[]));
    }
    let a = CircularDependencyAnalysis {
        total_cycles_detected: 1,
        resolvable_cycles: vec![group(
            &["pkg", "pkg.utils", "alpha", "pkg.a.b"],
            CircularDependencyType::FunctionLevel,
            ResolutionStrategy::LazyImport { modules: vec![] },
        )],
        unresolvable_cycles: vec![],
    };
    assert_eq!(
        o.get_modules_with_cycle_resolution(&g, &a),
        vec![s("main"), s("zeta"), s("pkg.a.b"), s("pkg.utils"), s("alpha"), s("pkg")]
    );
}

#[test]
fn content_hash_is_sha256_hex() {
    let o = orchestrator(&[]);
    let hashes = o.module_content_hashes(&vec![s(""), s("abc")]);
    assert_eq!(hashes[0], "e3b0c44298fc1c149afbf4c8996fb92427ae41e4649b934ca495991b7852b855");
    assert_eq!(hashes[1], "ba7816bf8f01cfea414140de5dae2223b00361a396177a9cb410ff61f20015ad");
}

#[test]
fn bundle_text_has_header() {
    let o = orchestrator(&[]);
    assert_eq!(
        o.assemble_bundle(&vec![s("import os"), s("print(1)")]),
        s("#!/usr/bin/env python3\n# Generated by Cribo - Python Source Bundler\n# https://github.com/ophidiarium/cribo\n\nimport os\nprint(1)")
    );
}

#[test]
fn discovery_queues_each_module_once() {
    let r = resolver_with(&[
        ("main", "/p/main.py"),
        ("greetings", "/p/greetings/__init__.py"),
        ("greetings.greeting", "/p/greetings/greeting.py"),
    ]);
    let mut st = DiscoveryState::new(s("main"), s("/p/main.py"));
    let first = st.next_module();
    assert_eq!(first, Some((s("main"), s("/p/main.py"))));
    st.record_module(s("main"), s("/p/main.py"), vec![s("greetings.greeting"), s("os"), s("greetings")], &r);
    assert_eq!(st.next_module(), Some((s("greetings"), s("/p/greetings/__init__.py"))));
    st.record_module(s("greetings"), s("/p/greetings/__init__.py"), vec![s("main")], &r);
    assert_eq!(st.next_module(), Some((s("greetings.greeting"), s("/p/greetings/greeting.py"))));
    st.record_module(s("greetings.greeting"), s("/p/greetings/greeting.py"), vec![], &r);
    assert_eq!(st.next_module(), None);
    let found: Vec<String> = st.into_modules().into_iter().map(|m| m.0).collect();
    assert_eq!(found, vec![s("main"), s("greetings"), s("greetings.greeting")]);
}

#[test]
fn topological_order_puts_dependencies_first() {
    let mut g = DependencyGraph::new();
    for n in ["main", "util", "base"] {
        g.add_module(node(n, &[]));
    }
    assert!(g.add_dependency("util", "main").is_ok());
    assert!(g.add_dependency("base", "util").is_ok());
    assert_eq!(g.topological_sort(), Ok(vec![s("base"), s("util"), s("main")]));
    assert!(g.add_dependency("main", "base").is_ok());
    let rest = g.topological_sort().unwrap_err();
    assert_eq!(rest.len(), 3);
}

#[test]
fn sorted_modules_with_cycles() {
    let o = orchestrator(&["/p"]);
    let mut g = DependencyGraph::new();
    for n in ["a", "b", "c"] {
        g.add_module(node(n, &[]));
    }
    g.add_dependency("a", "b").unwrap();
    g.add_dependency("b", "a").unwrap();
    let resolvable = CircularDependencyAnalysis {
        total_cycles_detected: 1,
        resolvable_cycles: vec![group(&["a", "b"], CircularDependencyType::FunctionLevel, ResolutionStrategy::LazyImport { modules: vec![] })],
        unresolvable_cycles: vec![],
    };
    assert_eq!(o.get_sorted_modules_from_graph(&g, &resolvable), Ok(vec![s("c"), s("a"), s("b")]));
    let not_resolvable = CircularDependencyAnalysis {
        total_cycles_detected: 1,
        resolvable_cycles: vec![group(&["a", "b"], CircularDependencyType::ClassLevel, ResolutionStrategy::LazyImport { modules: vec![] })],
        unresolvable_cycles: vec![],
    };
    assert_eq!(
        o.get_sorted_modules_from_graph(&g, &not_resolvable),
        Err(s("Unresolvable circular dependencies detected"))
    );
}

#[test]
fn entry_directory_becomes_first_source_directory() {
    let mut o = orchestrator(&["/proj/src"]);
    o.add_entry_directory(s("/proj/app"));
    assert_eq!(o.source_directories(), vec![s("/proj/app"), s("/proj/src")]);
    o.add_entry_directory(s("/proj//src/"));
    assert_eq!(o.source_directories(), vec![s("/proj/app"), s("/proj/src")]);
}

#[test]
fn acyclic_graph_sorts_topologically_whatever_the_analysis() {
    let o = orchestrator(&["/p"]);
    let mut g = DependencyGraph::new();
    for n in ["main", "util", "base"] {
        g.add_module(node(n, &[]));
    }
    g.add_dependency("util", "main").unwrap();
    g.add_dependency("base", "util").unwrap();
    let none = CircularDependencyAnalysis { total_cycles_detected: 0, resolvable_cycles: vec![], unresolvable_cycles: vec![] };
    assert_eq!(o.get_sorted_modules_from_graph(&g, &none), Ok(vec![s("base"), s("util"), s("main")]));
}

#[test]
fn unresolvable_report_lists_each_cycle_after_the_header() {
    let one = group(&["a", "b"], CircularDependencyType::FunctionLevel, ResolutionStrategy::Unresolvable { reason: s("r") });
    let two = group(&["c"], CircularDependencyType::ImportTime, ResolutionStrategy::Unresolvable { reason: s("q") });
    let a = CircularDependencyAnalysis { total_cycles_detected: 2, resolvable_cycles: vec![], unresolvable_cycles: vec![one, two] };
    assert_eq!(
        BundleOrchestrator::check_cycle_analysis(&a),
        Err(s("Unresolvable circular dependencies detected:\n\nCycle 1: a \u{2192} b\n  Type: FunctionLevel\n  Reason: r\n\nCycle 2: c\n  Type: ImportTime\n  Reason: q\n\n"))
    );
}

#[test]
fn unresolvable_report_is_header_then_appended_blocks() {
    let cycles = vec![group(&["a", "b"], CircularDependencyType::FunctionLevel, ResolutionStrategy::Unresolvable { reason: s("r") })];
    let mut appended = String::new();
    BundleOrchestrator::append_unresolvable_cycles_to_error(&mut appended, &cycles);
    assert_eq!(appended, s("Cycle 1: a \u{2192} b\n  Type: FunctionLevel\n  Reason: r\n\n"));
    assert_eq!(
        BundleOrchestrator::format_unresolvable_cycles_error(&cycles),
        s("Unresolvable circular dependencies detected:\n\n") + &appended
    );
}
