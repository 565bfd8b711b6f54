use cribo::ast::{Alias, Expr, ExprContext, ModModule, Stmt};
use cribo::dependency_graph::ModuleNode;
use cribo::emit::{CodeEmitter, ImportAlias, ImportStrategy};
use cribo::resolver::ModuleResolver;
use indexmap::IndexSet;

fn s(x: &str) -> String {
    x.to_string()
}

fn create_test_emitter() -> CodeEmitter {
    CodeEmitter::new(ModuleResolver::new(10), false, false)
}

#[test]
fn test_filter_import_statements_basic_functionality() {
    let emitter = create_test_emitter();
    // import os
    // import sys
    let statements = vec![
        Stmt::Import(vec![Alias { name: s("os"), asname: None }]),
        Stmt::Import(vec![Alias { name: s("sys"), asname: None }]),
    ];
    // Keep all imports.
    let removed: IndexSet<String> = IndexSet::new();
    let filtered = emitter.filter_import_statements(statements, &removed);
    assert_eq!(filtered.len(), 2);
}

#[test]
fn test_filter_aliased_imports_logic() {
    let emitter = create_test_emitter();
    // import numpy as np
    // import matplotlib.pyplot as plt
    // from pandas import DataFrame as pd
    // import os
    let aliases = vec![
        (s("np"), ImportAlias { module_name: s("numpy"), has_explicit_alias: true, is_from_import: false }),
        (s("plt"), ImportAlias { module_name: s("matplotlib.pyplot"), has_explicit_alias: true, is_from_import: false }),
        (s("pd"), ImportAlias { module_name: s("pandas"), has_explicit_alias: true, is_from_import: true }),
        (s("os"), ImportAlias { module_name: s("os"), has_explicit_alias: false, is_from_import: false }),
    ];
    let mut third_party_imports: IndexSet<String> =
        IndexSet::from([s("numpy"), s("matplotlib.pyplot"), s("pandas")]);
    let mut stdlib_imports: IndexSet<String> = IndexSet::from([s("os")]);

    let (aliased_third_party, aliased_stdlib) =
        emitter.filter_aliased_imports(&mut third_party_imports, &mut stdlib_imports, &aliases);

    assert_eq!(aliased_third_party.len(), 2);
    assert!(aliased_third_party.contains("numpy"));
    assert!(aliased_third_party.contains("matplotlib.pyplot"));
    assert_eq!(aliased_stdlib.len(), 0);
    assert!(third_party_imports.contains("pandas"));
    assert!(!third_party_imports.contains("numpy"));
    assert!(!third_party_imports.contains("matplotlib.pyplot"));
    assert!(stdlib_imports.contains("os"));
}

#[test]
fn aliased_stdlib_imports_move_too() {
    let emitter = create_test_emitter();
    let aliases = vec![(s("j"), ImportAlias { module_name: s("json"), has_explicit_alias: true, is_from_import: false })];
    let mut third: IndexSet<String> = IndexSet::new();
    let mut stdlib: IndexSet<String> = IndexSet::from([s("json"), s("os")]);
    let (t, st) = emitter.filter_aliased_imports(&mut third, &mut stdlib, &aliases);
    assert!(t.is_empty());
    assert_eq!(st.into_iter().collect::<Vec<_>>(), vec![s("json")]);
    assert_eq!(stdlib.into_iter().collect::<Vec<_>>(), vec![s("os")]);
}

#[test]
fn filtering_removed_imports() {
    let emitter = create_test_emitter();
    let statements = vec![
        Stmt::Import(vec![Alias { name: s("os"), asname: None }, Alias { name: s("unused"), asname: None }]),
        Stmt::ImportFrom { module: Some(s("__future__")), names: vec![Alias { name: s("annotations"), asname: None }], level: 0 },
        Stmt::ImportFrom { module: Some(s("m")), names: vec![Alias { name: s("a"), asname: Some(s("unused")) }], level: 0 },
        Stmt::ImportFrom { module: None, names: vec![Alias { name: s("b"), asname: None }], level: 1 },
        Stmt::Pass,
    ];
    let removed: IndexSet<String> = IndexSet::from([s("unused")]);
    let filtered = emitter.filter_import_statements(statements, &removed);
    assert_eq!(
        filtered,
        vec![
            Stmt::Import(vec![Alias { name: s("os"), asname: None }]),
            Stmt::ImportFrom { module: None, names: vec![Alias { name: s("b"), asname: None }], level: 1 },
            Stmt::Pass,
        ]
    );
}

#[test]
fn import_statements_for_module_names() {
    let emitter = create_test_emitter();
    assert_eq!(
        emitter.create_import_statement("os.path"),
        Some(Stmt::Import(vec![Alias { name: s("os.path"), asname: None }]))
    );
    assert_eq!(emitter.create_import_statement("import os"), None);
    assert_eq!(emitter.create_import_statement("from x import y"), None);
    assert_eq!(emitter.create_import_statement("bad name"), None);
    assert_eq!(emitter.create_import_statement(""), None);
    assert!(emitter.is_valid_module_name("модуль_1.sub"));
    assert!(!emitter.is_valid_module_name("a-b"));
    let _ = Expr::NoneLiteral;
    assert_ne!(ImportStrategy::ModuleImport, ImportStrategy::FromImport);
    assert_eq!(ImportStrategy::Dependency, ImportStrategy::Dependency);
}

fn resolver_with(names: &[&str]) -> ModuleResolver {
    let mut r = ModuleResolver::new(12);
    for n in names {
        r.add_module(s(n), format!("/src/{}.py", n.replace('.', "/")));
    }
    r
}

#[test]
fn imports_are_sorted_into_third_party_and_stdlib() {
    let emitter = CodeEmitter::new(resolver_with(&["app", "app.util"]), false, false);
    let modules = vec![
        ModuleNode { name: s("app"), path: s("/src/app.py"), imports: vec![s("os"), s("requests"), s("app.util"), s("__future__")] },
        ModuleNode { name: s("app.util"), path: s("/src/app/util.py"), imports: vec![s("os.path"), s("requests"), s("numpy")] },
    ];
    let (third_party, stdlib) = emitter.collect_import_sets(&modules);
    assert_eq!(third_party.iter().cloned().collect::<Vec<_>>(), vec![s("requests"), s("numpy")]);
    assert_eq!(stdlib.iter().cloned().collect::<Vec<_>>(), vec![s("os"), s("os.path")]);
}

#[test]
fn first_party_imports_from_ast() {
    let emitter = CodeEmitter::new(resolver_with(&["app", "app.util"]), false, false);
    let module = ModModule {
        body: vec![
            Stmt::Import(vec![Alias { name: s("os"), asname: None }, Alias { name: s("app.util"), asname: Some(s("u")) }]),
            Stmt::ImportFrom { module: None, names: vec![Alias { name: s("x"), asname: None }], level: 1 },
            Stmt::ImportFrom { module: Some(s("app")), names: vec![Alias { name: s("f"), asname: None }], level: 0 },
            Stmt::ImportFrom { module: Some(s("app.util")), names: vec![Alias { name: s("g"), asname: None }], level: 0 },
        ],
    };
    let found = emitter.collect_first_party_imports_from_ast(&module);
    assert_eq!(found.iter().cloned().collect::<Vec<_>>(), vec![s("app.util"), s(""), s("app")]);
}

#[test]
fn general_imports_made_redundant_by_specific_ones_are_dropped() {
    let emitter = create_test_emitter();
    let modules = vec![ModModule {
        body: vec![Stmt::ImportFrom {
            module: Some(s("typing")),
            names: vec![Alias { name: s("Dict"), asname: None }, Alias { name: s("Any"), asname: None }],
            level: 0,
        }],
    }];
    let imports: IndexSet<String> = IndexSet::from([s("typing"), s("os"), s("typ")]);
    let kept = emitter.filter_redundant_imports_from_modules(imports, &modules);
    assert_eq!(kept.iter().cloned().collect::<Vec<_>>(), vec![s("os"), s("typ")]);
}

#[test]
fn dotted_assignment_targets() {
    let target = CodeEmitter::build_dotted_name_expr(&vec![s("a"), s("b"), s("c")]);
    let expected = Expr::Attribute {
        value: Box::new(Expr::Attribute {
            value: Box::new(Expr::Name { id: s("a"), ctx: ExprContext::Load }),
            attr: s("b"),
            ctx: ExprContext::Load,
        }),
        attr: s("c"),
        ctx: ExprContext::Store,
    };
    assert_eq!(target, expected);
    assert_eq!(
        CodeEmitter::build_dotted_name_expr(&vec![s("a")]),
        Expr::Name { id: s("a"), ctx: ExprContext::Load }
    );
}

#[test]
fn import_strategies_for_entry_and_packages() {
    let emitter = CodeEmitter::new(resolver_with(&["greetings", "greetings.greeting", "greetings.irrelevant", "utils", "utils.helpers"]), false, false);
    let entry = vec![
        Stmt::Import(vec![Alias { name: s("greetings.irrelevant"), asname: None }]),
        Stmt::ImportFrom { module: Some(s("utils")), names: vec![Alias { name: s("helpers"), asname: None }, Alias { name: s("x"), asname: None }], level: 0 },
        Stmt::Import(vec![Alias { name: s("os"), asname: None }]),
    ];
    let inits = vec![(
        s("greetings"),
        ModModule {
            body: vec![Stmt::ImportFrom { module: None, names: vec![Alias { name: s("greeting"), asname: None }], level: 1 }],
        },
    )];
    let strategies = emitter.analyze_import_strategies(&entry, &inits);
    assert_eq!(strategies.get("greetings.irrelevant"), Some(&ImportStrategy::ModuleImport));
    assert_eq!(strategies.get("greetings"), Some(&ImportStrategy::ModuleImport));
    assert_eq!(strategies.get("utils"), Some(&ImportStrategy::FromImport));
    assert_eq!(strategies.get("utils.helpers"), Some(&ImportStrategy::ModuleImport));
    assert_eq!(strategies.get("greetings.greeting"), Some(&ImportStrategy::ModuleImport));
    assert_eq!(strategies.get("os"), None);
    assert_eq!(strategies.len(), 5);
}
