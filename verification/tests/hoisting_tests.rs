use cribo::ast::{Alias, Expr, ExprContext, ModModule, Stmt};
use cribo::code_generator::HybridStaticBundler;
use indexmap::{IndexMap, IndexSet};

fn s(x: &str) -> String {
    x.to_string()
}

fn alias(n: &str, a: Option<&str>) -> Alias {
    Alias { name: s(n), asname: a.map(s) }
}

fn import(n: &str, a: Option<&str>) -> Stmt {
    Stmt::Import(vec![alias(n, a)])
}

fn from(m: &str, names: &[&str]) -> Stmt {
    Stmt::ImportFrom { module: Some(s(m)), names: names.iter().map(|n| alias(n, None)).collect(), level: 0 }
}

fn name(id: &str) -> Expr {
    Expr::Name { id: s(id), ctx: ExprContext::Load }
}

fn bundler() -> HybridStaticBundler {
    let mut b = HybridStaticBundler::new();
    b.track_bundled_module(s("main"));
    b.track_bundled_module(s("app"));
    b.track_bundled_module(s("app.util"));
    b
}

#[test]
fn imports_are_hoisted_once_and_sorted() {
    let mut b = bundler();
    let ast = ModModule {
        body: vec![
            from("__future__", &["annotations"]),
            import("os", None),
            import("sys", Some("system")),
            import("requests", None),
            from("collections", &["defaultdict", "OrderedDict"]),
            from("collections", &["OrderedDict"]),
            from("app", &["util"]),
            from("numpy", &["array"]),
            import("app.util", None),
            import("os", None),
        ],
    };
    b.collect_imports_from_module(&ast, "main", "/src/main.py");
    let mut body = vec![Stmt::Pass];
    b.add_hoisted_imports(&mut body);
    assert_eq!(
        body,
        vec![
            Stmt::Pass,
            from("__future__", &["annotations"]),
            from("collections", &["OrderedDict", "defaultdict"]),
            from("numpy", &["array"]),
            import("os", None),
            import("sys", None),
            import("requests", None),
        ]
    );
    assert!(b.is_hoisted_import(&import("os", Some("o"))));
    assert!(b.is_hoisted_import(&from("collections", &["deque"])));
    assert!(b.is_hoisted_import(&from("__future__", &["division"])));
    assert!(!b.is_hoisted_import(&import("requests", None)));
    assert!(!b.is_hoisted_import(&from("numpy", &["array"])));
    assert!(!b.is_hoisted_import(&import("json", None)));
    assert!(b.is_import_in_hoisted_stdlib("sys"));
    assert!(!b.is_import_in_hoisted_stdlib("json"));
    assert!(b.is_bundled_module_or_package("app"));
    assert!(!b.is_bundled_module_or_package("ap"));
}

#[test]
fn stdlib_imports_added_by_name() {
    let mut b = HybridStaticBundler::new();
    b.add_stdlib_import("types");
    b.add_stdlib_import("sys");
    b.add_stdlib_import("types");
    let mut body = Vec::new();
    b.add_hoisted_imports(&mut body);
    assert_eq!(body, vec![import("sys", None), import("types", None)]);
}

#[test]
fn unique_imports_keep_first_sight() {
    let b = HybridStaticBundler::new();
    let mut seen: IndexSet<String> = IndexSet::new();
    let mut unique: Vec<String> = Vec::new();
    b.collect_unique_imports(&vec![s("os"), s("sys")], &mut seen, &mut unique);
    b.collect_unique_imports(&vec![s("sys"), s("json")], &mut seen, &mut unique);
    assert_eq!(unique, vec![s("os"), s("sys"), s("json")]);
}

#[test]
fn stdlib_aliases_are_undone() {
    let b = HybridStaticBundler::new();
    let ast = ModModule {
        body: vec![
            Stmt::Import(vec![alias("json", Some("j")), alias("numpy", Some("np"))]),
            Stmt::Assign {
                targets: vec![Expr::Name { id: s("x"), ctx: ExprContext::Store }],
                value: Expr::Call {
                    func: Box::new(Expr::Attribute { value: Box::new(name("j")), attr: s("dumps"), ctx: ExprContext::Load }),
                    args: vec![name("np")],
                    keywords: vec![],
                },
            },
        ],
    };
    let out = b.normalize_stdlib_import_aliases(ast);
    assert_eq!(
        out.body,
        vec![
            Stmt::Import(vec![alias("json", None), alias("numpy", Some("np"))]),
            Stmt::Assign {
                targets: vec![Expr::Name { id: s("x"), ctx: ExprContext::Store }],
                value: Expr::Call {
                    func: Box::new(Expr::Attribute { value: Box::new(name("json")), attr: s("dumps"), ctx: ExprContext::Load }),
                    args: vec![name("np")],
                    keywords: vec![],
                },
            },
        ]
    );
    let mut m = IndexMap::new();
    b.collect_stdlib_aliases(&vec![alias("os.path", Some("osp")), alias("pandas", Some("pd"))], &mut m);
    assert_eq!(m.get("osp"), Some(&s("os.path")));
    assert_eq!(m.get("pd"), None);
    let unchanged = ModModule { body: vec![import("numpy", Some("np")), Stmt::Expr(name("np"))] };
    let out2 = b.normalize_stdlib_import_aliases(unchanged);
    assert_eq!(out2.body, vec![import("numpy", Some("np")), Stmt::Expr(name("np"))]);
}

#[test]
fn keyword_argument_values_are_rewritten() {
    let b = HybridStaticBundler::new();
    let dumps = |base: &str| Expr::Attribute { value: Box::new(name(base)), attr: s("dumps"), ctx: ExprContext::Load };
    let ast = ModModule {
        body: vec![
            Stmt::Import(vec![alias("json", Some("j"))]),
            Stmt::Expr(Expr::Call {
                func: Box::new(name("f")),
                args: vec![],
                keywords: vec![cribo::ast::Keyword { arg: Some(s("cb")), value: dumps("j") }],
            }),
        ],
    };
    let out = b.normalize_stdlib_import_aliases(ast);
    assert_eq!(
        out.body,
        vec![
            Stmt::Import(vec![alias("json", None)]),
            Stmt::Expr(Expr::Call {
                func: Box::new(name("f")),
                args: vec![],
                keywords: vec![cribo::ast::Keyword { arg: Some(s("cb")), value: dumps("json") }],
            }),
        ]
    );
}
