use cribo::ast::{Alias, DictItem, Expr, ExprContext, ModModule, Parameter, Parameters, Stmt};
use cribo::code_generator::HybridStaticBundler;
use cribo::inlining::InlineContext;
use indexmap::{IndexMap, IndexSet};

fn s(x: &str) -> String {
    x.to_string()
}

fn name(id: &str) -> Expr {
    Expr::Name { id: s(id), ctx: ExprContext::Load }
}

fn store(id: &str) -> Expr {
    Expr::Name { id: s(id), ctx: ExprContext::Store }
}

fn empty_ctx() -> InlineContext {
    InlineContext {
        module_exports_map: IndexMap::new(),
        global_symbols: IndexSet::new(),
        module_renames: IndexMap::new(),
        inlined_stmts: Vec::new(),
        import_aliases: IndexMap::new(),
    }
}

fn names(m: &IndexMap<String, String>) -> Vec<(String, String)> {
    m.iter().map(|(k, v)| (k.clone(), v.clone())).collect()
}

#[test]
fn symbols_inlined_by_all_list_or_privacy() {
    let b = HybridStaticBundler::new();
    let mut exports: IndexMap<String, Option<Vec<String>>> = IndexMap::new();
    exports.insert(s("listed"), Some(vec![s("foo"), s("_hidden")]));
    exports.insert(s("unlisted"), None);
    assert!(b.should_inline_symbol("foo", "listed", &exports));
    assert!(b.should_inline_symbol("_hidden", "listed", &exports));
    assert!(!b.should_inline_symbol("bar", "listed", &exports));
    assert!(b.should_inline_symbol("bar", "unlisted", &exports));
    assert!(!b.should_inline_symbol("_bar", "unlisted", &exports));
    assert!(b.should_inline_symbol("baz", "unknown", &exports));
    assert!(!b.should_inline_symbol("_baz", "unknown", &exports));
}

#[test]
fn actual_import_names() {
    let mut b = HybridStaticBundler::new();
    let mut ctx = empty_ctx();
    assert_eq!(b.get_actual_import_name("pkg.util", "helper", &ctx), s("helper"));
    b.track_inlined_module(s("pkg.util"));
    assert_eq!(b.get_actual_import_name("pkg.util", "helper", &ctx), s("pkg.util:helper"));
    let mut renames = IndexMap::new();
    renames.insert(s("helper"), s("helper_1"));
    ctx.module_renames.insert(s("pkg.util"), renames);
    assert_eq!(b.get_actual_import_name("pkg.util", "helper", &ctx), s("helper_1"));
    assert_eq!(b.get_actual_import_name("pkg.util", "other", &ctx), s("other"));
    assert_eq!(b.get_unique_name("helper", &IndexSet::from([s("helper")])), s("helper_1"));
}

#[test]
fn import_aliases_tracked() {
    let mut b = HybridStaticBundler::new();
    let mut ctx = empty_ctx();
    let import = Stmt::ImportFrom {
        module: Some(s("pkg")),
        names: vec![
            Alias { name: s("a"), asname: Some(s("b")) },
            Alias { name: s("c"), asname: None },
        ],
        level: 0,
    };
    b.track_import_aliases(&import, "main", "/src/main.py", &mut ctx);
    assert_eq!(names(&ctx.import_aliases), vec![(s("b"), s("a"))]);

    b.track_inlined_module(s("pkg"));
    let mut ctx = empty_ctx();
    b.track_import_aliases(&import, "main", "/src/main.py", &mut ctx);
    assert_eq!(names(&ctx.import_aliases), vec![(s("b"), s("pkg:a")), (s("c"), s("pkg:c"))]);

    // A relative import above the top-level package resolves to nothing.
    let mut ctx = empty_ctx();
    let relative = Stmt::ImportFrom { module: Some(s("x")), names: vec![Alias { name: s("y"), asname: Some(s("z")) }], level: 3 };
    b.track_import_aliases(&relative, "main", "/src/main.py", &mut ctx);
    assert!(ctx.import_aliases.is_empty());
}

#[test]
fn class_inlined_under_its_semantic_name() {
    let b = HybridStaticBundler::new();
    let mut ctx = empty_ctx();
    let mut semantic = IndexMap::new();
    semantic.insert(s("Foo"), s("Foo_1"));
    ctx.module_renames.insert(s("m"), semantic);
    ctx.import_aliases.insert(s("y"), s("z"));
    let class_def = Stmt::ClassDef {
        name: s("Foo"),
        decorators: vec![],
        bases: vec![name("Base")],
        keywords: vec![],
        body: vec![Stmt::Assign { targets: vec![store("x")], value: name("y") }],
    };
    let mut module_renames: IndexMap<String, String> = IndexMap::new();
    b.inline_class(class_def, "m", &mut module_renames, &mut ctx);
    assert_eq!(names(&module_renames), vec![(s("Foo"), s("Foo_1"))]);
    assert_eq!(ctx.global_symbols.iter().cloned().collect::<Vec<_>>(), vec![s("Foo_1")]);
    assert_eq!(
        ctx.inlined_stmts,
        vec![Stmt::ClassDef {
            name: s("Foo_1"),
            decorators: vec![],
            bases: vec![name("Base")],
            keywords: vec![],
            body: vec![Stmt::Assign { targets: vec![store("x")], value: name("z") }],
        }]
    );

    // A private class is left out.
    let private = Stmt::ClassDef { name: s("_Hidden"), decorators: vec![], bases: vec![], keywords: vec![], body: vec![] };
    b.inline_class(private, "m", &mut module_renames, &mut ctx);
    assert_eq!(ctx.inlined_stmts.len(), 1);
    assert_eq!(module_renames.len(), 1);
}

#[test]
fn assignment_inlined_with_value_rewritten() {
    let b = HybridStaticBundler::new();
    let mut ctx = empty_ctx();
    ctx.import_aliases.insert(s("y"), s("w"));
    let mut semantic = IndexMap::new();
    semantic.insert(s("x"), s("x_2"));
    ctx.module_renames.insert(s("m"), semantic);
    let mut module_renames: IndexMap<String, String> = IndexMap::new();
    module_renames.insert(s("w"), s("w_1"));
    let assign = Stmt::Assign { targets: vec![store("x")], value: name("y") };
    b.inline_assignment(assign, "m", &mut module_renames, &mut ctx);
    assert_eq!(names(&module_renames), vec![(s("w"), s("w_1")), (s("x"), s("x_2"))]);
    assert_eq!(ctx.inlined_stmts, vec![Stmt::Assign { targets: vec![store("x_2")], value: name("w_1") }]);
    assert!(ctx.global_symbols.contains("x_2"));

    // Several targets: nothing is inlined.
    let multi = Stmt::Assign { targets: vec![store("a"), store("b")], value: name("y") };
    b.inline_assignment(multi, "m", &mut module_renames, &mut ctx);
    assert_eq!(ctx.inlined_stmts.len(), 1);
}

#[test]
fn annotated_assignment_takes_a_fresh_name() {
    let b = HybridStaticBundler::new();
    let mut ctx = empty_ctx();
    ctx.global_symbols.insert(s("count"));
    let mut module_renames: IndexMap<String, String> = IndexMap::new();
    let ann = Stmt::AnnAssign { target: store("count"), annotation: name("int"), value: Some(Expr::NumberLiteral(s("0"))) };
    b.inline_ann_assignment(ann, "m", &mut module_renames, &mut ctx);
    assert_eq!(names(&module_renames), vec![(s("count"), s("count_1"))]);
    assert_eq!(
        ctx.inlined_stmts,
        vec![Stmt::AnnAssign { target: store("count_1"), annotation: name("int"), value: Some(Expr::NumberLiteral(s("0"))) }]
    );
    assert_eq!(ctx.global_symbols.iter().cloned().collect::<Vec<_>>(), vec![s("count"), s("count_1")]);

    let attr_target = Stmt::AnnAssign {
        target: Expr::Attribute { value: Box::new(name("self")), attr: s("n"), ctx: ExprContext::Store },
        annotation: name("int"),
        value: None,
    };
    b.inline_ann_assignment(attr_target, "m", &mut module_renames, &mut ctx);
    assert_eq!(ctx.inlined_stmts.len(), 1);
}

#[test]
fn renamed_assignments_found() {
    let b = HybridStaticBundler::new();
    let mut renames = IndexMap::new();
    renames.insert(s("Logger"), s("Logger_1"));
    renames.insert(s("Other"), s("Logger_1"));
    assert_eq!(
        b.check_renamed_assignment(&vec![store("Logger_1")], &renames),
        Some((s("Logger"), s("Logger_1")))
    );
    assert_eq!(b.check_renamed_assignment(&vec![store("Logger")], &renames), None);
    assert_eq!(b.check_renamed_assignment(&vec![store("Logger_1"), store("x")], &renames), None);
}

#[test]
fn registries_list_wrapped_modules_in_order() {
    let mut b = HybridStaticBundler::new();
    b.register_wrapper_module(s("pkg.a"), s("pkg_a_123456"));
    b.register_wrapper_module(s("pkg.b"), s("pkg_b_abcdef"));
    b.register_wrapper_module(s("pkg.a"), s("pkg_a_999999"));
    let lit = |v: &str| Expr::StringLiteral(s(v));
    assert_eq!(
        b.create_module_registry(),
        Stmt::Assign {
            targets: vec![store("__cribo_modules")],
            value: Expr::Dict(vec![
                DictItem { key: Some(lit("pkg.a")), value: lit("pkg_a_999999") },
                DictItem { key: Some(lit("pkg.b")), value: lit("pkg_b_abcdef") },
            ]),
        }
    );
    assert_eq!(
        b.create_init_functions_registry(),
        Stmt::Assign {
            targets: vec![store("__cribo_init_functions")],
            value: Expr::Dict(vec![
                DictItem { key: Some(lit("pkg_a_123456")), value: name("__cribo_init_pkg_a_123456") },
                DictItem { key: Some(lit("pkg_b_abcdef")), value: name("__cribo_init_pkg_b_abcdef") },
                DictItem { key: Some(lit("pkg_a_999999")), value: name("__cribo_init_pkg_a_999999") },
            ]),
        }
    );
}

fn call0(module: &str, attr: &str) -> Expr {
    Expr::Call {
        func: Box::new(Expr::Attribute { value: Box::new(name(module)), attr: s(attr), ctx: ExprContext::Load }),
        args: vec![],
        keywords: vec![],
    }
}

fn set_attr(ns: &str, attr: &str, value: &str) -> Stmt {
    Stmt::Assign {
        targets: vec![Expr::Attribute { value: Box::new(name(ns)), attr: s(attr), ctx: ExprContext::Store }],
        value: name(value),
    }
}

fn renames_of(pairs: &[(&str, &str)]) -> IndexMap<String, String> {
    pairs.iter().map(|(a, b)| (s(a), s(b))).collect()
}

#[test]
fn module_inlined_statement_by_statement() {
    let b = HybridStaticBundler::new();
    let mut ctx = empty_ctx();
    ctx.global_symbols.insert(s("X"));
    ctx.module_renames.insert(s("pkg.util"), renames_of(&[("helper", "helper_2")]));
    let param = |ann: Option<Expr>| Parameter { name: s("x"), annotation: ann, default: None };
    let params = |ann: Option<Expr>| Parameters {
        posonlyargs: vec![],
        args: vec![param(ann)],
        vararg: None,
        kwonlyargs: vec![],
        kwarg: None,
    };
    let body = vec![
        Stmt::ImportFrom { module: Some(s("os")), names: vec![Alias { name: s("path"), asname: Some(s("p")) }], level: 0 },
        Stmt::FunctionDef {
            name: s("helper"),
            decorators: vec![],
            parameters: params(Some(name("p"))),
            return_type: Some(name("p")),
            body: vec![Stmt::Return(Some(name("helper")))],
        },
        Stmt::Assign { targets: vec![store("_private")], value: Expr::NumberLiteral(s("1")) },
        Stmt::AnnAssign { target: store("X"), annotation: name("int"), value: None },
        Stmt::Expr(Expr::StringLiteral(s("doc"))),
        Stmt::Expr(call0("os", "getcwd")),
        Stmt::Pass,
    ];
    let r = b.inline_module("pkg.util", ModModule { body }, "/src/pkg/util.py", &mut ctx);
    assert!(r.is_empty());
    assert_eq!(names(&ctx.import_aliases), vec![(s("p"), s("path"))]);
    assert_eq!(
        ctx.inlined_stmts,
        vec![
            Stmt::FunctionDef {
                name: s("helper_2"),
                decorators: vec![],
                parameters: params(Some(name("path"))),
                return_type: Some(name("path")),
                body: vec![Stmt::Return(Some(name("helper_2")))],
            },
            Stmt::AnnAssign { target: store("X_1"), annotation: name("int"), value: None },
            Stmt::Expr(Expr::StringLiteral(s("doc"))),
            Stmt::Pass,
        ]
    );
    assert_eq!(
        ctx.global_symbols.iter().cloned().collect::<Vec<_>>(),
        vec![s("X"), s("helper_2"), s("X_1")]
    );
    assert_eq!(
        names(ctx.module_renames.get("pkg.util").unwrap()),
        vec![(s("helper"), s("helper_2")), (s("X"), s("X_1"))]
    );

    // A module that renames nothing records no renames.
    let mut ctx = empty_ctx();
    b.inline_module("plain", ModModule { body: vec![Stmt::Pass] }, "/src/plain.py", &mut ctx);
    assert!(ctx.module_renames.is_empty());
    assert_eq!(ctx.inlined_stmts, vec![Stmt::Pass]);
}

#[test]
fn namespaces_for_inlined_modules() {
    let b = HybridStaticBundler::new();
    let mut renames: IndexMap<String, IndexMap<String, String>> = IndexMap::new();
    renames.insert(s("pkg.mod"), renames_of(&[("a", "a_1"), ("b", "b")]));
    let mut body = Vec::new();
    b.add_symbols_to_namespace("ns", "mod", "x.pkg.mod", &renames, &mut body);
    assert_eq!(body, vec![set_attr("ns", "a", "a_1"), set_attr("ns", "b", "b")]);
    let mut body = Vec::new();
    b.add_symbols_to_namespace("ns", "mod", "other", &renames, &mut body);
    assert!(body.is_empty());

    let mut body = Vec::new();
    b.create_namespace_for_inlined_module("m", "mod", "pkg", "pkg.mod", &renames, &mut body);
    assert_eq!(
        body,
        vec![
            Stmt::Assign { targets: vec![store("m")], value: call0("types", "SimpleNamespace") },
            set_attr("m", "a", "a_1"),
            set_attr("m", "b", "b"),
        ]
    );

    let mut body = Vec::new();
    b.handle_symbol_import_from_inlined_module("a", "a", "pkg.mod", &renames, &mut body);
    assert_eq!(
        body,
        vec![
            Stmt::Assign { targets: vec![store("a")], value: name("a_1") },
            set_attr("module", "a", "a"),
        ]
    );
    let mut body = Vec::new();
    b.handle_symbol_import_from_inlined_module("b", "b", "root.pkg.mod", &renames, &mut body);
    assert_eq!(body, vec![set_attr("module", "b", "b")]);
}

#[test]
fn imports_from_inlined_modules() {
    let mut b = HybridStaticBundler::new();
    b.track_inlined_module(s("pkg"));
    b.track_inlined_module(s("pkg.mod"));
    b.track_bundled_module(s("pkg.sub"));
    b.register_wrapper_module(s("pkg.sub"), s("pkg_sub_abcdef"));
    let mut renames: IndexMap<String, IndexMap<String, String>> = IndexMap::new();
    renames.insert(s("pkg"), renames_of(&[("helper", "helper_1")]));
    renames.insert(s("pkg.mod"), renames_of(&[("f", "f_3")]));
    let import = Stmt::ImportFrom {
        module: Some(s("pkg")),
        names: vec![
            Alias { name: s("sub"), asname: None },
            Alias { name: s("mod"), asname: Some(s("m")) },
            Alias { name: s("helper"), asname: Some(s("h")) },
        ],
        level: 0,
    };
    let mut body = vec![Stmt::Pass];
    assert!(b.handle_inlined_module_import(&import, "pkg", &renames, &mut body));
    let sys_modules = Expr::Subscript {
        value: Box::new(Expr::Attribute { value: Box::new(name("sys")), attr: s("modules"), ctx: ExprContext::Load }),
        slice: Box::new(Expr::StringLiteral(s("pkg.sub"))),
    };
    assert_eq!(
        body,
        vec![
            Stmt::Pass,
            Stmt::Assign { targets: vec![store("sub")], value: sys_modules },
            Stmt::Assign { targets: vec![store("m")], value: call0("types", "SimpleNamespace") },
            set_attr("m", "f", "f_3"),
            Stmt::Assign { targets: vec![store("h")], value: name("helper_1") },
            set_attr("module", "h", "h"),
        ]
    );
    let mut body = vec![Stmt::Pass];
    assert!(!b.handle_inlined_module_import(&import, "elsewhere", &renames, &mut body));
    assert_eq!(body, vec![Stmt::Pass]);

    let assignments = b.create_assignments_for_inlined_imports(import, "pkg", &renames);
    assert_eq!(
        assignments,
        vec![
            Stmt::Assign { targets: vec![store("sub")], value: call0("types", "SimpleNamespace") },
            Stmt::Assign { targets: vec![store("m")], value: call0("types", "SimpleNamespace") },
            set_attr("m", "f", "f_3"),
            Stmt::Assign { targets: vec![store("h")], value: name("helper_1") },
        ]
    );
}

#[test]
fn module_inlined_as_namespace() {
    let b = HybridStaticBundler::new();
    let mut ctx = empty_ctx();
    ctx.global_symbols.insert(s("f_pkg_ns"));
    let no_params = || Parameters { posonlyargs: vec![], args: vec![], vararg: None, kwonlyargs: vec![], kwarg: None };
    let body = vec![
        Stmt::ImportFrom { module: Some(s("os")), names: vec![Alias { name: s("path"), asname: Some(s("p")) }], level: 0 },
        Stmt::FunctionDef { name: s("f"), decorators: vec![], parameters: no_params(), return_type: None, body: vec![Stmt::Return(Some(name("p")))] },
        Stmt::ClassDef { name: s("C"), decorators: vec![], bases: vec![], keywords: vec![], body: vec![Stmt::Pass] },
        Stmt::Assign { targets: vec![store("x")], value: name("f") },
        Stmt::Assign { targets: vec![store("_y")], value: Expr::NumberLiteral(s("1")) },
        Stmt::Assign { targets: vec![store("x")], value: name("x") },
    ];
    let r = b.inline_module_for_namespace("pkg.ns", ModModule { body }, "/src/pkg/ns.py", &mut ctx);
    assert!(r.is_empty());
    assert_eq!(
        ctx.inlined_stmts,
        vec![
            Stmt::FunctionDef { name: s("f_pkg_ns_1"), decorators: vec![], parameters: no_params(), return_type: None, body: vec![Stmt::Return(Some(name("path")))] },
            Stmt::ClassDef { name: s("C_pkg_ns"), decorators: vec![], bases: vec![], keywords: vec![], body: vec![Stmt::Pass] },
            Stmt::Assign { targets: vec![store("x_pkg_ns")], value: name("f_pkg_ns_1") },
        ]
    );
    assert_eq!(
        names(ctx.module_renames.get("pkg.ns").unwrap()),
        vec![(s("f"), s("f_pkg_ns_1")), (s("C"), s("C_pkg_ns")), (s("x"), s("x_pkg_ns"))]
    );
    assert_eq!(
        ctx.global_symbols.iter().cloned().collect::<Vec<_>>(),
        vec![s("f_pkg_ns"), s("f_pkg_ns_1"), s("C_pkg_ns"), s("x_pkg_ns")]
    );
    let mut renames = IndexMap::new();
    renames.insert(s("a"), s("b"));
    assert_eq!(
        b.transform_function_body_for_renames(vec![Stmt::Expr(name("a")), Stmt::Pass], &renames),
        vec![Stmt::Expr(name("b")), Stmt::Pass]
    );
}
