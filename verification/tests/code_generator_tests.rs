use cribo::alias_rewrite::rewrite_aliases_in_expr_impl;
use cribo::ast::{Alias, Comprehension, DictItem, ElifElseClause, Expr, ExprContext, Keyword, ModModule, Operator, Stmt};
use cribo::code_generator::HybridStaticBundler;
use cribo::globals_lifter::{GlobalsLifter, ModuleGlobalInfo};
use cribo::renames::{transform_globals_in_expr, transform_globals_in_stmt};
use indexmap::{IndexMap, IndexSet};

fn s(x: &str) -> String {
    x.to_string()
}

fn name(id: &str) -> Expr {
    Expr::Name { id: s(id), ctx: ExprContext::Load }
}

fn call(func: Expr, args: Vec<Expr>) -> Expr {
    Expr::Call { func: Box::new(func), args, keywords: vec![] }
}

fn attr(value: Expr, a: &str) -> Expr {
    Expr::Attribute { value: Box::new(value), attr: s(a), ctx: ExprContext::Load }
}

fn assign(target: &str, value: Expr) -> Stmt {
    Stmt::Assign { targets: vec![Expr::Name { id: s(target), ctx: ExprContext::Store }], value }
}

fn str_lit(v: &str) -> Expr {
    Expr::StringLiteral(s(v))
}

fn module(body: Vec<Stmt>) -> ModModule {
    ModModule { body }
}

#[test]
fn definitions_and_literals_have_no_side_effects() {
    let m = module(vec![
        Stmt::Expr(str_lit("docstring")),
        Stmt::Import(vec![Alias { name: s("os"), asname: None }]),
        assign("X", Expr::NumberLiteral(s("1"))),
        assign("__all__", call(name("list"), vec![])),
        assign("Y", Expr::List(vec![name("X"), Expr::BinOp { left: Box::new(name("X")), op: Operator::Add, right: Box::new(Expr::NumberLiteral(s("2"))) }])),
        Stmt::Pass,
    ]);
    assert!(!HybridStaticBundler::has_side_effects(&m));
}

#[test]
fn calls_and_imported_names_are_side_effects() {
    let with_call = module(vec![assign("X", call(name("f"), vec![]))]);
    assert!(HybridStaticBundler::has_side_effects(&with_call));
    let with_import_use = module(vec![
        Stmt::ImportFrom { module: Some(s("m")), names: vec![Alias { name: s("v"), asname: Some(s("w")) }], level: 0 },
        assign("X", Expr::Tuple(vec![name("w")])),
    ]);
    assert!(HybridStaticBundler::has_side_effects(&with_import_use));
    let with_expr = module(vec![Stmt::Expr(name("x"))]);
    assert!(HybridStaticBundler::has_side_effects(&with_expr));
    let with_if = module(vec![Stmt::If { test: name("x"), body: vec![], elif_else_clauses: vec![] }]);
    assert!(HybridStaticBundler::has_side_effects(&with_if));
    let comp = module(vec![assign(
        "X",
        Expr::ListComp {
            elt: Box::new(name("i")),
            generators: vec![Comprehension { target: name("i"), iter: call(name("range"), vec![]), ifs: vec![] }],
        },
    )]);
    assert!(HybridStaticBundler::has_side_effects(&comp));
}

#[test]
fn all_exports_are_extracted() {
    let b = HybridStaticBundler::new();
    let m = module(vec![
        assign("x", Expr::NumberLiteral(s("1"))),
        assign("__all__", Expr::List(vec![str_lit("a"), name("b"), str_lit("c")])),
        assign("__all__", Expr::List(vec![str_lit("z")])),
    ]);
    assert_eq!(b.extract_all_exports(&m), Some(vec![s("a"), s("c")]));
    let computed = module(vec![assign("__all__", call(name("f"), vec![]))]);
    assert_eq!(b.extract_all_exports(&computed), Some(vec![]));
    assert_eq!(b.extract_all_exports(&module(vec![])), None);
    assert_eq!(b.extract_string_list_from_expr(&Expr::Tuple(vec![str_lit("t")])), Some(vec![s("t")]));
}

#[test]
fn export_rules() {
    let mut b = HybridStaticBundler::new();
    assert!(b.should_export_symbol("public", "m"));
    assert!(!b.should_export_symbol("_private", "m"));
    assert!(!b.should_export_symbol("__all__", "m"));
    b.track_module_exports(s("m"), Some(vec![s("_private")]));
    assert!(b.should_export_symbol("_private", "m"));
    assert!(!b.should_export_symbol("public", "m"));
    b.track_module_exports(s("n"), None);
    assert!(b.should_export_symbol("public", "n"));
}

#[test]
fn unique_names() {
    let b = HybridStaticBundler::new();
    let mut taken: IndexSet<String> = IndexSet::new();
    assert_eq!(b.generate_unique_name("x", &taken), s("x"));
    taken.insert(s("x"));
    taken.insert(s("x_1"));
    assert_eq!(b.generate_unique_name("x", &taken), s("x_2"));
}

#[test]
fn stdlib_hoisting_rules() {
    let b = HybridStaticBundler::new();
    assert!(b.is_safe_stdlib_module("os.path"));
    assert!(b.is_safe_stdlib_module("json"));
    assert!(!b.is_safe_stdlib_module("antigravity"));
    assert!(!b.is_safe_stdlib_module("locale"));
    assert!(!b.is_safe_stdlib_module("requests"));
}

#[test]
fn synthetic_module_names() {
    let b = HybridStaticBundler::new();
    assert_eq!(b.get_synthetic_module_name("pkg.mod", "abcdef0123"), s("__cribo_abcdef_pkg_mod"));
    assert_eq!(
        b.get_synthetic_module_name("greetings.greeting", "\u{e9}\u{e9}\u{e9}0123"),
        s("__cribo_\u{e9}\u{e9}\u{e9}_greetings_greeting")
    );
}

#[test]
fn relative_imports_in_bundled_modules() {
    let mut b = HybridStaticBundler::new();
    b.track_bundled_module(s("greetings"));
    b.track_bundled_module(s("greetings.greeting"));
    // A package imported from with one dot stays in the package.
    assert_eq!(b.resolve_relative_import(1, &Some(s("greeting")), "greetings"), Some(s("greetings.greeting")));
    // A top-level module's siblings are top-level.
    assert_eq!(b.resolve_relative_import(1, &Some(s("util")), "main"), Some(s("util")));
    // A submodule climbs one part per dot.
    assert_eq!(b.resolve_relative_import(1, &None, "greetings.greeting"), Some(s("greetings")));
    assert_eq!(b.resolve_relative_import(3, &None, "greetings.greeting"), None);
    // With a path, `__init__.py` marks a package.
    assert_eq!(
        b.resolve_relative_import_with_context(1, &Some(s("x")), "a.b", Some("/p/a/b/__init__.py")),
        Some(s("a.b.x"))
    );
    assert_eq!(b.resolve_relative_import(0, &Some(s("abs")), "a.b"), Some(s("abs")));
}

#[test]
fn future_imports_are_collected_once() {
    let mut b = HybridStaticBundler::new();
    let m = module(vec![
        Stmt::ImportFrom { module: Some(s("__future__")), names: vec![Alias { name: s("annotations"), asname: None }], level: 0 },
        Stmt::ImportFrom { module: Some(s("os")), names: vec![Alias { name: s("path"), asname: None }], level: 0 },
    ]);
    b.collect_future_imports_from_ast(&m);
    b.collect_future_imports_from_ast(&m);
    assert_eq!(b.get_future_imports(), vec![s("annotations")]);
}

#[test]
fn aliases_are_rewritten_to_canonical_names() {
    let mut map: IndexMap<String, String> = IndexMap::new();
    map.insert(s("j"), s("json"));
    let e = call(attr(name("j"), "dumps"), vec![name("j"), name("k")]);
    let r = rewrite_aliases_in_expr_impl(e, &map);
    assert_eq!(r, call(attr(name("json"), "dumps"), vec![name("json"), name("k")]));
    let sub = Expr::Subscript { value: Box::new(name("j")), slice: Box::new(str_lit("j")) };
    assert_eq!(
        rewrite_aliases_in_expr_impl(sub, &map),
        Expr::Subscript { value: Box::new(name("json")), slice: Box::new(str_lit("j")) }
    );
    let kw = Expr::Call { func: Box::new(name("f")), args: vec![], keywords: vec![Keyword { arg: Some(s("a")), value: name("j") }] };
    assert_eq!(
        rewrite_aliases_in_expr_impl(kw, &map),
        Expr::Call { func: Box::new(name("f")), args: vec![], keywords: vec![Keyword { arg: Some(s("a")), value: name("json") }] }
    );
}

#[test]
fn aliases_are_rewritten_in_statements() {
    let b = HybridStaticBundler::new();
    let mut map: IndexMap<String, String> = IndexMap::new();
    map.insert(s("np"), s("numpy"));
    let stmt = Stmt::If {
        test: name("np"),
        body: vec![Stmt::Global(vec![s("np"), s("x")])],
        elif_else_clauses: vec![ElifElseClause { test: None, body: vec![Stmt::Return(Some(name("np")))] }],
    };
    let r = b.rewrite_aliases_in_stmt(stmt, &map);
    assert_eq!(
        r,
        Stmt::If {
            test: name("numpy"),
            body: vec![Stmt::Global(vec![s("numpy"), s("x")])],
            elif_else_clauses: vec![ElifElseClause { test: None, body: vec![Stmt::Return(Some(name("numpy")))] }],
        }
    );
    let imp = Stmt::Import(vec![Alias { name: s("numpy"), asname: Some(s("np")) }]);
    assert_eq!(
        b.rewrite_aliases_in_stmt(imp, &map),
        Stmt::Import(vec![Alias { name: s("numpy"), asname: Some(s("np")) }])
    );
}

#[test]
fn references_are_renamed() {
    let b = HybridStaticBundler::new();
    let mut renames: IndexMap<String, String> = IndexMap::new();
    renames.insert(s("x"), s("x_1"));
    let e = Expr::Dict(vec![DictItem { key: Some(name("x")), value: Expr::FString(vec![name("x")]) }]);
    assert_eq!(
        HybridStaticBundler::rename_references_in_expr(e, &renames),
        Expr::Dict(vec![DictItem { key: Some(name("x_1")), value: Expr::FString(vec![name("x_1")]) }])
    );
    let stmt = Stmt::Assign {
        targets: vec![
            Expr::Name { id: s("x"), ctx: ExprContext::Store },
            Expr::Tuple(vec![Expr::Name { id: s("x"), ctx: ExprContext::Store }]),
        ],
        value: name("x"),
    };
    assert_eq!(
        b.transform_stmt_for_renames(stmt, &renames),
        Stmt::Assign {
            targets: vec![
                Expr::Name { id: s("x_1"), ctx: ExprContext::Store },
                Expr::Tuple(vec![Expr::Name { id: s("x"), ctx: ExprContext::Store }]),
            ],
            value: name("x_1"),
        }
    );
}

#[test]
fn globals_calls_become_module_dict() {
    let module_dict = attr(name("module"), "__dict__");
    assert_eq!(transform_globals_in_expr(call(name("globals"), vec![])), module_dict);
    assert_eq!(
        transform_globals_in_expr(Expr::Subscript { value: Box::new(call(name("globals"), vec![])), slice: Box::new(str_lit("k")) }),
        Expr::Subscript { value: Box::new(attr(name("module"), "__dict__")), slice: Box::new(str_lit("k")) }
    );
    assert_eq!(transform_globals_in_expr(call(name("globals"), vec![name("a")])), call(name("globals"), vec![name("a")]));
    assert_eq!(
        transform_globals_in_stmt(Stmt::Return(Some(call(name("globals"), vec![])))),
        Stmt::Return(Some(attr(name("module"), "__dict__")))
    );
}

#[test]
fn globals_are_lifted() {
    let info = ModuleGlobalInfo {
        module_name: s("my-pkg.mod"),
        module_level_vars: vec![s("counter"), s("other"), s("flag")],
        global_declarations: vec![s("flag"), s("counter")],
        functions_using_globals: vec![s("bump")],
    };
    let lifter = GlobalsLifter::new(&info);
    assert_eq!(lifter.get_lifted_names().get("counter"), Some(&s("__cribo_my_pkg_mod_counter")));
    assert_eq!(lifter.get_lifted_names().get("flag"), Some(&s("__cribo_my_pkg_mod_flag")));
    assert_eq!(lifter.get_lifted_names().get("other"), None);
    assert_eq!(
        lifter.get_lifted_declarations(),
        &vec![
            Stmt::Assign { targets: vec![Expr::Name { id: s("__cribo_my_pkg_mod_counter"), ctx: ExprContext::Store }], value: Expr::NoneLiteral },
            Stmt::Assign { targets: vec![Expr::Name { id: s("__cribo_my_pkg_mod_flag"), ctx: ExprContext::Store }], value: Expr::NoneLiteral },
        ]
    );
}

#[test]
fn self_referential_assignments() {
    let b = HybridStaticBundler::new();
    assert!(b.is_self_referential_assignment(&vec![Expr::Name { id: s("x"), ctx: ExprContext::Store }], &name("x")));
    assert!(!b.is_self_referential_assignment(&vec![Expr::Name { id: s("x"), ctx: ExprContext::Store }], &name("y")));
}

#[test]
fn annotated_assignment_is_judged_by_its_value() {
    let def_compute = Stmt::FunctionDef {
        name: s("compute"),
        decorators: vec![],
        parameters: cribo::ast::Parameters { posonlyargs: vec![], args: vec![], vararg: None, kwonlyargs: vec![], kwarg: None },
        return_type: None,
        body: vec![Stmt::Return(Some(Expr::NumberLiteral(s("1"))))],
    };
    let computed = module(vec![
        def_compute,
        Stmt::AnnAssign {
            target: Expr::Name { id: s("X"), ctx: ExprContext::Store },
            annotation: name("int"),
            value: Some(call(name("compute"), vec![])),
        },
    ]);
    assert!(HybridStaticBundler::has_side_effects(&computed));
    let literal = module(vec![Stmt::AnnAssign {
        target: Expr::Name { id: s("X"), ctx: ExprContext::Store },
        annotation: name("int"),
        value: Some(Expr::NumberLiteral(s("1"))),
    }]);
    assert!(!HybridStaticBundler::has_side_effects(&literal));
    let declared = module(vec![Stmt::AnnAssign {
        target: Expr::Name { id: s("X"), ctx: ExprContext::Store },
        annotation: name("int"),
        value: None,
    }]);
    assert!(!HybridStaticBundler::has_side_effects(&declared));
}
