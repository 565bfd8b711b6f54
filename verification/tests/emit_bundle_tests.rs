use cribo::ast::{Alias, Expr, ExprContext, ModModule, Stmt};
use cribo::dependency_graph::ModuleNode;
use cribo::emit::{CodeEmitter, ImportStrategy};
use cribo::resolver::ModuleResolver;
use indexmap::IndexSet;

fn s(x: &str) -> String {
    x.to_string()
}

fn comment(text: &str) -> Stmt {
    Stmt::Expr(Expr::StringLiteral(format!("__CRIBO_COMMENT_MARKER__{}", text)))
}

fn import(n: &str) -> Stmt {
    Stmt::Import(vec![Alias { name: s(n), asname: None }])
}

fn load(id: &str) -> Expr {
    Expr::Name { id: s(id), ctx: ExprContext::Load }
}

fn emitter_with(names: &[&str]) -> CodeEmitter {
    let mut r = ModuleResolver::new(12);
    for n in names {
        r.add_module(s(n), format!("/src/{}.py", n));
    }
    CodeEmitter::new(r, false, false)
}

#[test]
fn small_expressions() {
    let e = emitter_with(&[]);
    assert_eq!(e.create_comment_stmt("# hi"), comment("# hi"));
    assert_eq!(CodeEmitter::create_name_expr("x", ExprContext::Store), Expr::Name { id: s("x"), ctx: ExprContext::Store });
    assert_eq!(
        CodeEmitter::create_getattr_call(load("m"), "attr"),
        Expr::Call { func: Box::new(load("getattr")), args: vec![load("m"), Expr::StringLiteral(s("attr"))], keywords: vec![] }
    );
    let attr = e.create_module_attribute_expr("pkg.utils", "helper");
    assert_eq!(
        attr,
        Expr::Attribute {
            value: Box::new(Expr::Attribute { value: Box::new(load("pkg")), attr: s("utils"), ctx: ExprContext::Load }),
            attr: s("helper"),
            ctx: ExprContext::Load,
        }
    );
    assert_eq!(
        e.create_value_expr_for_strategy(Some(&ImportStrategy::ModuleImport), "m", "f"),
        Expr::Attribute { value: Box::new(load("m")), attr: s("f"), ctx: ExprContext::Load }
    );
    assert_eq!(e.create_value_expr_for_strategy(Some(&ImportStrategy::FromImport), "m", "f"), load("f"));
    assert_eq!(e.create_value_expr_for_strategy(None, "m", "f"), load("f"));
}

#[test]
fn future_imports_section() {
    let mut e = emitter_with(&[]);
    let module = ModModule {
        body: vec![
            Stmt::ImportFrom { module: Some(s("__future__")), names: vec![Alias { name: s("division"), asname: None }, Alias { name: s("annotations"), asname: None }], level: 0 },
            Stmt::ImportFrom { module: Some(s("__future__")), names: vec![Alias { name: s("division"), asname: None }], level: 0 },
        ],
    };
    let mut bundle = ModModule { body: vec![] };
    e.add_future_imports_to_bundle(&mut bundle);
    assert!(bundle.body.is_empty());
    e.collect_future_imports_from_ast(&module);
    e.add_future_imports_to_bundle(&mut bundle);
    assert_eq!(
        bundle.body,
        vec![
            Stmt::ImportFrom {
                module: Some(s("__future__")),
                names: vec![Alias { name: s("annotations"), asname: None }, Alias { name: s("division"), asname: None }],
                level: 0,
            },
            comment(""),
        ]
    );
}

#[test]
fn preserved_and_aliased_sections() {
    let e = emitter_with(&[]);
    let mut bundle = ModModule { body: vec![Stmt::Pass] };
    e.add_preserved_imports_to_bundle(&mut bundle, IndexSet::from([s("sys"), s("os"), s("import x")]), IndexSet::from([s("requests")]));
    assert_eq!(
        bundle.body,
        vec![Stmt::Pass, comment("# Preserved imports"), import("os"), import("sys"), comment(""), import("requests"), comment("")]
    );
    let mut only_third = ModModule { body: vec![] };
    e.add_preserved_imports_to_bundle(&mut only_third, IndexSet::new(), IndexSet::from([s("yaml"), s("attr")]));
    assert_eq!(only_third.body, vec![comment("# Preserved imports"), import("attr"), import("yaml"), comment("")]);
    let mut none = ModModule { body: vec![] };
    e.add_preserved_imports_to_bundle(&mut none, IndexSet::new(), IndexSet::new());
    assert!(none.body.is_empty());
    let mut aliased = ModModule { body: vec![] };
    e.add_aliased_imports_to_bundle(&mut aliased, (IndexSet::from([s("numpy"), s("bad name")]), IndexSet::from([s("json")])));
    assert_eq!(aliased.body, vec![comment(""), comment("# Imports for alias assignments"), import("json"), import("numpy")]);
}

#[test]
fn first_party_and_unused_imports_removed() {
    let e = emitter_with(&["app"]);
    let module = ModModule {
        body: vec![
            Stmt::Import(vec![Alias { name: s("app"), asname: None }, Alias { name: s("os"), asname: None }]),
            Stmt::ImportFrom { module: Some(s("app")), names: vec![Alias { name: s("f"), asname: None }], level: 0 },
            import("json"),
            Stmt::Pass,
        ],
    };
    let out = e.remove_first_party_imports(module, &IndexSet::from([s("app"), s("json")]));
    assert_eq!(out.body, vec![import("os"), import("json"), Stmt::Pass]);
    let out2 = e.remove_unused_imports(out, &IndexSet::from([s("json")]));
    assert_eq!(out2.body, vec![import("os"), Stmt::Pass]);
}

#[test]
fn third_party_packages_and_defined_names() {
    let e = emitter_with(&["app"]);
    let mut set: IndexSet<String> = IndexSet::new();
    let node = ModuleNode { name: s("app"), path: s("/src/app.py"), imports: vec![s("requests.adapters"), s("os"), s("app"), s("requests"), s("yaml")] };
    e.collect_third_party_imports_from_module(&node, &mut set);
    assert_eq!(set.iter().cloned().collect::<Vec<_>>(), vec![s("requests"), s("yaml")]);
    let init = ModModule {
        body: vec![
            Stmt::Assign { targets: vec![Expr::Tuple(vec![Expr::Name { id: s("a"), ctx: ExprContext::Store }, Expr::List(vec![Expr::Name { id: s("config"), ctx: ExprContext::Store }])])], value: Expr::NoneLiteral },
            Stmt::ImportFrom { module: Some(s(".mod")), names: vec![Alias { name: s("x"), asname: Some(s("helper")) }], level: 1 },
        ],
    };
    assert!(e.body_defines_name(&init, "config"));
    assert!(e.body_defines_name(&init, "helper"));
    assert!(!e.body_defines_name(&init, "x"));
    assert!(CodeEmitter::expression_defines_name(&Expr::Name { id: s("q"), ctx: ExprContext::Store }, "q"));
}

#[test]
fn bundled_variable_names_are_recognised() {
    let e = cribo::emit::CodeEmitter::new(cribo::resolver::ModuleResolver::new(10), false, false);
    assert!(e.is_bundled_variable_name("__pkg_mod_value"));
    assert!(!e.is_bundled_variable_name("plain_name"));
    assert!(e.module_has_bundled_variable_references("x = __greetings_greeting_message\n"));
    assert!(!e.module_has_bundled_variable_references("x = 1\n"));
}
