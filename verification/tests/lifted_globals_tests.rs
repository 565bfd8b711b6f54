use cribo::ast::{ElifElseClause, ExceptHandler, Expr, ExprContext, ModModule, Operator, Parameters, Stmt};
use cribo::code_generator::HybridStaticBundler;
use cribo::globals_lifter::{GlobalsLifter, ModuleGlobalInfo};
use indexmap::{IndexMap, IndexSet};

fn s(x: &str) -> String {
    x.to_string()
}

fn name(id: &str) -> Expr {
    Expr::Name { id: s(id), ctx: ExprContext::Load }
}

fn store(id: &str) -> Expr {
    Expr::Name { id: s(id), ctx: ExprContext::Store }
}

fn assign(target: &str, value: Expr) -> Stmt {
    Stmt::Assign { targets: vec![store(target)], value }
}

fn no_params() -> Parameters {
    Parameters { posonlyargs: vec![], args: vec![], vararg: None, kwonlyargs: vec![], kwarg: None }
}

fn func(fname: &str, body: Vec<Stmt>) -> Stmt {
    Stmt::FunctionDef { name: s(fname), decorators: vec![], parameters: no_params(), return_type: None, body }
}

fn global(names: &[&str]) -> Stmt {
    Stmt::Global(names.iter().map(|n| s(n)).collect())
}

fn lifted() -> IndexMap<String, String> {
    let mut m = IndexMap::new();
    m.insert(s("counter"), s("__cribo_pkg_counter"));
    m.insert(s("flag"), s("__cribo_pkg_flag"));
    m
}

fn info() -> ModuleGlobalInfo {
    ModuleGlobalInfo {
        module_name: s("pkg"),
        module_level_vars: vec![s("counter"), s("flag"), s("other")],
        global_declarations: vec![s("counter"), s("flag")],
        functions_using_globals: vec![s("bump")],
    }
}

#[test]
fn function_globals_are_collected_once_in_order() {
    let b = HybridStaticBundler::new();
    let body = vec![global(&["flag", "counter"]), Stmt::Pass, global(&["counter", "x"])];
    let g = b.collect_function_globals(&body);
    assert_eq!(g.iter().cloned().collect::<Vec<_>>(), vec![s("flag"), s("counter"), s("x")]);
}

#[test]
fn init_statements_copy_only_lifted_globals() {
    let b = HybridStaticBundler::new();
    let mut g = IndexSet::new();
    g.insert(s("x"));
    g.insert(s("counter"));
    let init = b.create_global_init_statements(&g, &lifted());
    assert_eq!(init, vec![assign("counter", name("__cribo_pkg_counter"))]);
}

#[test]
fn names_are_lifted_only_inside_functions_declaring_them() {
    let b = HybridStaticBundler::new();
    let mut g = IndexSet::new();
    g.insert(s("counter"));
    let e = Expr::BinOp { left: Box::new(name("counter")), op: Operator::Add, right: Box::new(name("flag")) };
    let inside = b.transform_expr_for_lifted_globals(
        Expr::BinOp { left: Box::new(name("counter")), op: Operator::Add, right: Box::new(name("flag")) },
        &lifted(),
        Some(&g),
    );
    assert_eq!(
        inside,
        Expr::BinOp { left: Box::new(name("__cribo_pkg_counter")), op: Operator::Add, right: Box::new(name("flag")) }
    );
    let outside = b.transform_expr_for_lifted_globals(
        Expr::BinOp { left: Box::new(name("counter")), op: Operator::Add, right: Box::new(name("flag")) },
        &lifted(),
        None,
    );
    assert_eq!(outside, e);
}

#[test]
fn function_bodies_are_rewritten_for_lifted_globals() {
    let b = HybridStaticBundler::new();
    let f = func(
        "bump",
        vec![
            global(&["counter"]),
            assign("counter", Expr::BinOp { left: Box::new(name("counter")), op: Operator::Add, right: Box::new(Expr::NumberLiteral(s("1"))) }),
            Stmt::Return(Some(name("counter"))),
        ],
    );
    let out = b.transform_stmt_for_lifted_globals(f, &lifted(), &info(), None);
    let expected = func(
        "bump",
        vec![
            global(&["__cribo_pkg_counter"]),
            assign("counter", name("__cribo_pkg_counter")),
            Stmt::Assign {
                targets: vec![store("__cribo_pkg_counter")],
                value: Expr::BinOp {
                    left: Box::new(name("__cribo_pkg_counter")),
                    op: Operator::Add,
                    right: Box::new(Expr::NumberLiteral(s("1"))),
                },
            },
            Stmt::Return(Some(name("__cribo_pkg_counter"))),
        ],
    );
    assert_eq!(out, expected);
}

#[test]
fn functions_without_globals_are_left_alone() {
    let b = HybridStaticBundler::new();
    let f = func("other", vec![global(&["counter"]), Stmt::Return(Some(name("counter")))]);
    let out = b.transform_stmt_for_lifted_globals(f, &lifted(), &info(), None);
    assert_eq!(out, func("other", vec![global(&["counter"]), Stmt::Return(Some(name("counter")))]));
}

#[test]
fn module_with_lifted_globals() {
    let b = HybridStaticBundler::new();
    let lifter = GlobalsLifter::new(&info());
    let ast = ModModule {
        body: vec![
            assign("counter", Expr::NumberLiteral(s("0"))),
            func("bump", vec![global(&["counter", "flag"]), Stmt::Expr(name("flag"))]),
        ],
    };
    let out = b.transform_ast_with_lifted_globals(ast, lifter.get_lifted_names(), &info());
    assert_eq!(
        out.body,
        vec![
            assign("counter", Expr::NumberLiteral(s("0"))),
            func(
                "bump",
                vec![
                    global(&["__cribo_pkg_counter", "__cribo_pkg_flag"]),
                    assign("counter", name("__cribo_pkg_counter")),
                    assign("flag", name("__cribo_pkg_flag")),
                    Stmt::Expr(name("__cribo_pkg_flag")),
                ],
            ),
        ]
    );
}

#[test]
fn only_global_statements_are_renamed() {
    let b = HybridStaticBundler::new();
    let mut m = IndexMap::new();
    m.insert(s("np"), s("numpy"));
    let stmt = Stmt::Try {
        body: vec![global(&["np"]), Stmt::Expr(name("np"))],
        handlers: vec![ExceptHandler { type_: None, name: None, body: vec![global(&["np", "x"])] }],
        orelse: vec![],
        finalbody: vec![Stmt::If {
            test: name("np"),
            body: vec![global(&["np"])],
            elif_else_clauses: vec![ElifElseClause { test: None, body: vec![global(&["y"])] }],
        }],
    };
    let out = b.rewrite_global_statements_only(stmt, &m);
    let expected = Stmt::Try {
        body: vec![global(&["numpy"]), Stmt::Expr(name("np"))],
        handlers: vec![ExceptHandler { type_: None, name: None, body: vec![global(&["numpy", "x"])] }],
        orelse: vec![],
        finalbody: vec![Stmt::If {
            test: name("np"),
            body: vec![global(&["numpy"])],
            elif_else_clauses: vec![ElifElseClause { test: None, body: vec![global(&["y"])] }],
        }],
    };
    assert_eq!(out, expected);
}
