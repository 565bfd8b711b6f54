use cribo::ast::{Alias, Expr, ExprContext, ModModule, Stmt};
use cribo::code_generator::HybridStaticBundler;

fn s(x: &str) -> String {
    x.to_string()
}

fn module(name: &str, body: Vec<Stmt>) -> (String, ModModule, String, String) {
    (s(name), ModModule { body }, format!("/src/{}.py", name), s("abcdef0123"))
}

fn from(m: &str, names: &[&str]) -> Stmt {
    Stmt::ImportFrom { module: Some(s(m)), names: names.iter().map(|n| Alias { name: s(n), asname: None }).collect(), level: 0 }
}

fn load(id: &str) -> Expr {
    Expr::Name { id: s(id), ctx: ExprContext::Load }
}

fn store(id: &str) -> Expr {
    Expr::Name { id: s(id), ctx: ExprContext::Store }
}

fn sys_modules_entry(name: &str) -> Expr {
    Expr::Subscript {
        value: Box::new(Expr::Attribute { value: Box::new(load("sys")), attr: s("modules"), ctx: ExprContext::Load }),
        slice: Box::new(Expr::StringLiteral(s(name))),
    }
}

fn namespace(name: &str) -> Stmt {
    Stmt::Assign {
        targets: vec![store(name)],
        value: Expr::Call {
            func: Box::new(Expr::Attribute { value: Box::new(load("types")), attr: s("ModuleType"), ctx: ExprContext::Load }),
            args: vec![Expr::StringLiteral(s(name))],
            keywords: vec![],
        },
    }
}

#[test]
fn namespace_imports_are_found() {
    let mut b = HybridStaticBundler::new();
    let modules = vec![
        module("main", vec![from("models", &["base", "Thing"]), from("x", &["y"])]),
        module("other", vec![from("models", &["base"])]),
        module("pkg.models.base", vec![]),
    ];
    assert_eq!(HybridStaticBundler::find_matching_module_name_namespace(&modules, "models.base"), "pkg.models.base");
    assert_eq!(HybridStaticBundler::find_matching_module_name_namespace(&modules, "nothing"), "nothing");
    b.find_namespace_imported_modules(&modules);
    assert_eq!(b.namespace_importers("pkg.models.base"), Some(vec![s("main"), s("other")]));
    assert_eq!(b.namespace_importers("x.y"), None);
    b.collect_namespace_imports(&from("y", &["z"]), &modules, "main");
    assert_eq!(b.namespace_importers("y.z"), None);
}

#[test]
fn importing_modules_and_init_calls() {
    let mut b = HybridStaticBundler::new();
    b.track_bundled_module(s("pkg.sub"));
    b.track_inlined_module(s("util.helpers"));
    assert!(b.check_if_importing_module("pkg", "sub", "pkg.sub"));
    assert!(b.check_if_importing_module("app.util", "helpers", "app.util.helpers"));
    assert!(!b.check_if_importing_module("app", "helpers", "app.helpers"));
    b.register_wrapper_module(s("pkg.sub"), s("__cribo_abcdef_pkg_sub"));
    assert_eq!(
        b.generate_module_init_call("__cribo_abcdef_pkg_sub"),
        Stmt::Expr(Expr::Call { func: Box::new(load("__cribo_init___cribo_abcdef_pkg_sub")), args: vec![], keywords: vec![] })
    );
    assert_eq!(b.generate_module_init_call("unknown"), Stmt::Pass);
}

#[test]
fn parent_namespaces_and_attributes() {
    let mut b = HybridStaticBundler::new();
    b.register_wrapper_module(s("a.b"), s("__cribo_000000_a_b"));
    b.track_bundled_module(s("a.b.c"));
    let mut stmts = vec![namespace("x")];
    b.create_parent_namespaces(&vec![s("a"), s("b"), s("c"), s("d")], &mut stmts);
    assert_eq!(
        stmts,
        vec![
            namespace("x"),
            namespace("a"),
            Stmt::Assign { targets: vec![store("a.b")], value: sys_modules_entry("a.b") },
        ]
    );
    let mut again = vec![namespace("a")];
    b.create_parent_namespaces(&vec![s("a"), s("e")], &mut again);
    assert_eq!(again, vec![namespace("a")]);
    let mut attrs = Vec::new();
    b.handle_dotted_import_attribute(&vec![s("x"), s("y"), s("z")], "x.y.z", &mut attrs);
    b.handle_dotted_import_attribute(&vec![s("a"), s("b"), s("q")], "a.b.q", &mut attrs);
    b.handle_dotted_import_attribute(&vec![s("single")], "single", &mut attrs);
    assert_eq!(
        attrs,
        vec![Stmt::Assign {
            targets: vec![Expr::Attribute { value: Box::new(load("x.y")), attr: s("z"), ctx: ExprContext::Store }],
            value: sys_modules_entry("x.y.z"),
        }]
    );
}
