use cribo::ast::{Alias, ElifElseClause, ExceptHandler, Expr, ModModule, Parameters, Stmt};
use cribo::code_generator::HybridStaticBundler;

fn s(x: &str) -> String {
    x.to_string()
}

fn import(n: &str) -> Stmt {
    Stmt::Import(vec![Alias { name: s(n), asname: None }])
}

fn from(m: Option<&str>, names: &[&str], level: u32) -> Stmt {
    Stmt::ImportFrom {
        module: m.map(s),
        names: names.iter().map(|n| Alias { name: s(n), asname: None }).collect(),
        level,
    }
}

fn no_params() -> Parameters {
    Parameters { posonlyargs: vec![], args: vec![], vararg: None, kwonlyargs: vec![], kwarg: None }
}

fn func(name: &str, body: Vec<Stmt>) -> Stmt {
    Stmt::FunctionDef { name: s(name), decorators: vec![], parameters: no_params(), return_type: None, body }
}

fn module(name: &str, path: &str, body: Vec<Stmt>) -> (String, ModModule, String, String) {
    (s(name), ModModule { body }, s(path), s("0123456789abcdef"))
}

#[test]
fn imports_nested_in_function_bodies_are_found() {
    assert!(!HybridStaticBundler::function_has_imports(&vec![Stmt::Pass]));
    assert!(HybridStaticBundler::function_has_imports(&vec![Stmt::Pass, import("os")]));
    let in_if_else = vec![Stmt::If {
        test: Expr::NoneLiteral,
        body: vec![],
        elif_else_clauses: vec![ElifElseClause { test: None, body: vec![from(Some("x"), &["y"], 0)] }],
    }];
    assert!(HybridStaticBundler::function_has_imports(&in_if_else));
    let in_handler = vec![Stmt::Try {
        body: vec![],
        handlers: vec![ExceptHandler { type_: None, name: None, body: vec![import("json")] }],
        orelse: vec![],
        finalbody: vec![],
    }];
    assert!(HybridStaticBundler::function_has_imports(&in_handler));
    let in_loop_else = vec![Stmt::While { test: Expr::NoneLiteral, body: vec![], orelse: vec![import("os")] }];
    assert!(!HybridStaticBundler::function_has_imports(&in_loop_else));
    let in_class = vec![Stmt::ClassDef { name: s("C"), decorators: vec![], bases: vec![], keywords: vec![], body: vec![import("os")] }];
    assert!(!HybridStaticBundler::function_has_imports(&in_class));
}

#[test]
fn modules_with_function_scoped_imports() {
    let b = HybridStaticBundler::new();
    let modules = vec![
        module("a", "/src/a.py", vec![import("os"), func("f", vec![Stmt::Pass])]),
        module("b", "/src/b.py", vec![func("g", vec![import("json")])]),
        module(
            "c",
            "/src/c.py",
            vec![Stmt::ClassDef {
                name: s("C"),
                decorators: vec![],
                bases: vec![],
                keywords: vec![],
                body: vec![func("m", vec![from(Some("x"), &["y"], 0)])],
            }],
        ),
    ];
    assert!(!b.module_has_function_scoped_imports(&modules[0].1));
    assert!(b.module_has_function_scoped_imports(&modules[1].1));
    assert!(b.class_has_method_imports(&vec![func("m", vec![import("x")])]));
    let found = b.find_modules_with_function_imports(&modules);
    assert_eq!(found.iter().cloned().collect::<Vec<_>>(), vec![s("b"), s("c")]);
}

#[test]
fn directly_imported_modules_and_their_packages() {
    let mut b = HybridStaticBundler::new();
    for m in ["main", "greetings", "greetings.irrelevant", "greetings.greeting", "models", "models.base"] {
        b.track_bundled_module(s(m));
    }
    let modules = vec![
        module("main", "/src/main.py", vec![import("greetings.irrelevant"), import("os"), from(Some("models"), &["base", "Thing"], 0)]),
        module("greetings", "/src/greetings/__init__.py", vec![from(None, &["greeting"], 1)]),
        module("greetings.irrelevant", "/src/greetings/irrelevant.py", vec![]),
        module("greetings.greeting", "/src/greetings/greeting.py", vec![]),
        module("models", "/src/models/__init__.py", vec![]),
        module("models.base", "/src/models/base.py", vec![]),
    ];
    let found = b.find_directly_imported_modules(&modules, "main");
    assert_eq!(
        found.iter().cloned().collect::<Vec<_>>(),
        vec![s("greetings.irrelevant"), s("greetings"), s("models.base"), s("greetings.greeting")]
    );
}
