use cribo::ast::{Alias, Expr, ExprContext, Keyword, Stmt};
use cribo::code_generator::HybridStaticBundler;
use indexmap::IndexMap;

fn s(x: &str) -> String {
    x.to_string()
}

fn name(id: &str) -> Expr {
    Expr::Name { id: s(id), ctx: ExprContext::Load }
}

fn store(id: &str) -> Expr {
    Expr::Name { id: s(id), ctx: ExprContext::Store }
}

fn alias(n: &str, asname: Option<&str>) -> Alias {
    Alias { name: s(n), asname: asname.map(s) }
}

fn sys_modules(module: &str) -> Expr {
    Expr::Subscript {
        value: Box::new(Expr::Attribute { value: Box::new(name("sys")), attr: s("modules"), ctx: ExprContext::Load }),
        slice: Box::new(Expr::StringLiteral(s(module))),
    }
}

fn from(module: &str, names: Vec<Alias>, level: u32) -> Stmt {
    Stmt::ImportFrom { module: Some(s(module)), names, level }
}

fn no_renames() -> IndexMap<String, IndexMap<String, String>> {
    IndexMap::new()
}

fn bundler() -> HybridStaticBundler {
    let mut b = HybridStaticBundler::new();
    b.track_bundled_module(s("pkg"));
    b.track_bundled_module(s("pkg.sub"));
    b.register_wrapper_module(s("pkg.sub"), s("pkg_sub_abcdef"));
    b.track_bundled_module(s("wrapped"));
    b.register_wrapper_module(s("wrapped"), s("wrapped_123456"));
    b
}

#[test]
fn from_imports_of_wrapped_modules_read_sys_modules() {
    let b = bundler();
    let stmts = b.transform_bundled_import_from_multiple(
        from("pkg", vec![alias("sub", None), alias("x", Some("y"))], 0),
        "pkg",
    );
    assert_eq!(
        stmts,
        vec![
            Stmt::Assign { targets: vec![store("sub")], value: sys_modules("pkg.sub") },
            Stmt::Assign {
                targets: vec![store("y")],
                value: Expr::Attribute { value: Box::new(sys_modules("pkg")), attr: s("x"), ctx: ExprContext::Load },
            },
        ]
    );
}

#[test]
fn namespace_package_submodules() {
    let mut b = HybridStaticBundler::new();
    b.track_bundled_module(s("ns.a"));
    b.register_wrapper_module(s("ns.a"), s("ns_a_000000"));
    b.track_bundled_module(s("ns.b"));
    b.track_module_exports(s("ns.b"), Some(vec![s("f")]));
    let import = from("ns", vec![alias("a", None), alias("b", Some("bb")), alias("c", None)], 0);
    let stmts = b.transform_namespace_package_imports(import, "ns");
    assert_eq!(
        stmts,
        vec![
            Stmt::Assign { targets: vec![store("a")], value: sys_modules("ns.a") },
            Stmt::Assign {
                targets: vec![store("bb")],
                value: Expr::Call {
                    func: Box::new(Expr::Attribute {
                        value: Box::new(name("types")),
                        attr: s("SimpleNamespace"),
                        ctx: ExprContext::Load,
                    }),
                    args: vec![],
                    keywords: vec![Keyword { arg: Some(s("f")), value: name("f_ns_b") }],
                },
            },
        ]
    );
    let nothing = from("ns", vec![alias("c", None)], 0);
    assert_eq!(b.transform_namespace_package_imports(nothing, "ns"), vec![from("ns", vec![alias("c", None)], 0)]);
}

#[test]
fn imports_of_bundled_modules() {
    let b = bundler();
    assert_eq!(
        b.rewrite_import(Stmt::Import(vec![alias("pkg.sub", None)])),
        vec![Stmt::Assign {
            targets: vec![Expr::Attribute { value: Box::new(name("pkg")), attr: s("sub"), ctx: ExprContext::Store }],
            value: sys_modules("pkg.sub"),
        }]
    );
    assert_eq!(
        b.rewrite_import(Stmt::Import(vec![alias("pkg.sub", Some("ps")), alias("wrapped", None)])),
        vec![
            Stmt::Assign { targets: vec![store("ps")], value: sys_modules("pkg.sub") },
            Stmt::Assign { targets: vec![store("wrapped")], value: sys_modules("wrapped") },
        ]
    );
    // An inlined module leaves nothing behind.
    assert_eq!(b.rewrite_import(Stmt::Import(vec![alias("pkg", None)])), vec![]);
    // Anything not bundled keeps the import as it is.
    let mixed = Stmt::Import(vec![alias("wrapped", None), alias("os", None)]);
    assert_eq!(b.rewrite_import(mixed), vec![Stmt::Import(vec![alias("wrapped", None), alias("os", None)])]);
}

#[test]
fn from_imports_rewritten() {
    let b = bundler();
    let r = no_renames();
    // Unresolvable relative import: kept.
    let far = from("x", vec![alias("y", None)], 3);
    assert_eq!(b.rewrite_import_from(far, "main", &r), vec![from("x", vec![alias("y", None)], 3)]);
    // Not bundled: kept, made absolute when relative.
    assert_eq!(
        b.rewrite_import_from(from("os", vec![alias("path", None)], 0), "main", &r),
        vec![from("os", vec![alias("path", None)], 0)]
    );
    let relative = Stmt::ImportFrom { module: None, names: vec![alias("x", None)], level: 1 };
    assert_eq!(b.rewrite_import_from(relative, "other.mod", &r), vec![from("other", vec![alias("x", None)], 0)]);
    // A wrapped module: read from sys.modules.
    assert_eq!(
        b.rewrite_import_from(from("wrapped", vec![alias("f", None)], 0), "main", &r),
        vec![Stmt::Assign {
            targets: vec![store("f")],
            value: Expr::Attribute { value: Box::new(sys_modules("wrapped")), attr: s("f"), ctx: ExprContext::Load },
        }]
    );
    // An inlined module: its symbols bound to their names in the bundle.
    let mut renames = no_renames();
    let mut pkg = IndexMap::new();
    pkg.insert(s("helper"), s("helper_pkg"));
    renames.insert(s("pkg"), pkg);
    assert_eq!(
        b.rewrite_import_from(from("pkg", vec![alias("helper", None)], 0), "main", &renames),
        vec![Stmt::Assign { targets: vec![store("helper")], value: name("helper_pkg") }]
    );
    // Other statements stay.
    assert_eq!(b.rewrite_import_in_stmt_multiple_with_context(Stmt::Pass, "main", &r), vec![Stmt::Pass]);
}

fn module_type(target: &str) -> Stmt {
    Stmt::Assign {
        targets: vec![store(target)],
        value: Expr::Call {
            func: Box::new(Expr::Attribute { value: Box::new(name("types")), attr: s("ModuleType"), ctx: ExprContext::Load }),
            args: vec![Expr::StringLiteral(s(target))],
            keywords: vec![],
        },
    }
}

#[test]
fn entry_module_imports_create_namespaces_once() {
    let mut b = HybridStaticBundler::new();
    b.track_bundled_module(s("app.sub.mod"));
    b.register_wrapper_module(s("app.sub.mod"), s("app_sub_mod_abcdef"));
    let attr_stmt = || Stmt::Assign {
        targets: vec![Expr::Attribute { value: Box::new(name("app.sub")), attr: s("mod"), ctx: ExprContext::Store }],
        value: sys_modules("app.sub.mod"),
    };
    let import = || Stmt::Import(vec![alias("app.sub.mod", None)]);
    assert_eq!(b.rewrite_import_entry_module(import()), vec![module_type("app"), module_type("app.sub"), attr_stmt()]);
    assert_eq!(b.rewrite_import_entry_module(import()), vec![attr_stmt()]);
    assert_eq!(
        b.rewrite_import_entry_module(Stmt::Import(vec![alias("app.sub.mod", Some("m"))])),
        vec![Stmt::Assign { targets: vec![store("m")], value: sys_modules("app.sub.mod") }]
    );
    assert_eq!(b.rewrite_import_entry_module(Stmt::Import(vec![alias("os", None)])), vec![Stmt::Import(vec![alias("os", None)])]);
    let mut stmts = Vec::new();
    b.create_parent_namespaces_entry_module(&vec![s("other"), s("x")], &mut stmts);
    assert_eq!(stmts, vec![module_type("other")]);
}
