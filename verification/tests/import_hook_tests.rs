use cribo::ast::{Alias, CmpOp, DictItem, Expr, ExprContext, Parameter, Parameters, Stmt};
use cribo::code_generator::HybridStaticBundler;

fn s(x: &str) -> String {
    x.to_string()
}

fn load(id: &str) -> Expr {
    Expr::Name { id: s(id), ctx: ExprContext::Load }
}

fn store(id: &str) -> Expr {
    Expr::Name { id: s(id), ctx: ExprContext::Store }
}

fn attr(value: Expr, a: &str, ctx: ExprContext) -> Expr {
    Expr::Attribute { value: Box::new(value), attr: s(a), ctx }
}

fn call(func: Expr, args: Vec<Expr>) -> Expr {
    Expr::Call { func: Box::new(func), args, keywords: vec![] }
}

fn assign(target: Expr, value: Expr) -> Stmt {
    Stmt::Assign { targets: vec![target], value }
}

fn plain_if(test: Expr, body: Vec<Stmt>) -> Stmt {
    Stmt::If { test, body, elif_else_clauses: vec![] }
}

fn param(name: &str, default: Option<Expr>) -> Parameter {
    Parameter { name: s(name), annotation: None, default }
}

fn method(name: &str, args: Vec<Parameter>, body: Vec<Stmt>) -> Stmt {
    Stmt::FunctionDef {
        name: s(name),
        decorators: vec![],
        parameters: Parameters { posonlyargs: vec![], args, vararg: None, kwonlyargs: vec![], kwarg: None },
        return_type: None,
        body,
    }
}

fn expected_finder() -> Stmt {
    let self_field = |f: &str| attr(load("self"), f, ExprContext::Load);
    let init = method(
        "__init__",
        vec![param("self", None), param("module_registry", None), param("init_functions", None)],
        vec![
            assign(attr(load("self"), "module_registry", ExprContext::Store), load("module_registry")),
            assign(attr(load("self"), "init_functions", ExprContext::Store), load("init_functions")),
        ],
    );
    let run_init = vec![
        assign(
            store("init_func"),
            call(attr(self_field("init_functions"), "get", ExprContext::Load), vec![load("synthetic_name")]),
        ),
        plain_if(load("init_func"), vec![Stmt::Expr(call(load("init_func"), vec![]))]),
    ];
    let registered = vec![
        assign(
            store("synthetic_name"),
            Expr::Subscript { value: Box::new(self_field("module_registry")), slice: Box::new(load("fullname")) },
        ),
        plain_if(
            Expr::Compare {
                left: Box::new(load("synthetic_name")),
                ops: vec![CmpOp::NotIn],
                comparators: vec![attr(load("sys"), "modules", ExprContext::Load)],
            },
            run_init,
        ),
        Stmt::Import(vec![Alias { name: s("importlib.util"), asname: None }]),
        Stmt::Return(Some(call(
            attr(attr(load("importlib"), "util", ExprContext::Load), "find_spec", ExprContext::Load),
            vec![load("synthetic_name")],
        ))),
    ];
    let find_spec = method(
        "find_spec",
        vec![
            param("self", None),
            param("fullname", None),
            param("path", None),
            param("target", Some(Expr::NoneLiteral)),
        ],
        vec![
            plain_if(
                Expr::Compare {
                    left: Box::new(load("fullname")),
                    ops: vec![CmpOp::In],
                    comparators: vec![self_field("module_registry")],
                },
                registered,
            ),
            Stmt::Return(Some(Expr::NoneLiteral)),
        ],
    );
    Stmt::ClassDef {
        name: s("CriboBundledFinder"),
        decorators: vec![],
        bases: vec![],
        keywords: vec![],
        body: vec![init, find_spec],
    }
}

#[test]
fn finder_class_runs_init_functions_on_import() {
    let b = HybridStaticBundler::new();
    assert_eq!(b.create_finder_class(), expected_finder());
}

#[test]
fn import_hook_installs_the_finder_first() {
    let b = HybridStaticBundler::new();
    let install = Stmt::Expr(call(
        attr(attr(load("sys"), "meta_path", ExprContext::Load), "insert", ExprContext::Load),
        vec![
            Expr::NumberLiteral(s("0")),
            call(load("CriboBundledFinder"), vec![load("__cribo_modules"), load("__cribo_init_functions")]),
        ],
    ));
    assert_eq!(b.create_import_hook(), vec![expected_finder(), install]);
}

#[test]
fn registries_come_before_the_hook() {
    let mut b = HybridStaticBundler::new();
    b.register_wrapper_module(s("pkg.mod"), s("__cribo_abcdef_pkg_mod"));
    let out = b.generate_registries_and_hook();
    assert_eq!(out.len(), 4);
    assert_eq!(
        out[0],
        assign(
            store("__cribo_modules"),
            Expr::Dict(vec![DictItem {
                key: Some(Expr::StringLiteral(s("pkg.mod"))),
                value: Expr::StringLiteral(s("__cribo_abcdef_pkg_mod")),
            }]),
        )
    );
    assert_eq!(
        out[1],
        assign(
            store("__cribo_init_functions"),
            Expr::Dict(vec![DictItem {
                key: Some(Expr::StringLiteral(s("__cribo_abcdef_pkg_mod"))),
                value: load("__cribo_init___cribo_abcdef_pkg_mod"),
            }]),
        )
    );
    assert_eq!(out[2], expected_finder());
}
