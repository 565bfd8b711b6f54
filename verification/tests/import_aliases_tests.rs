use cribo::ast::{ElifElseClause, Expr, ExprContext, Keyword, Parameter, Parameters, Stmt};
use cribo::code_generator::HybridStaticBundler;
use cribo::import_aliases::alias_entry_target;
use indexmap::IndexMap;

fn s(x: &str) -> String {
    x.to_string()
}

fn name(id: &str) -> Expr {
    Expr::Name { id: s(id), ctx: ExprContext::Load }
}

fn aliases() -> IndexMap<String, String> {
    let mut m = IndexMap::new();
    m.insert(s("helper"), s("utils.helpers:helper_fn"));
    m.insert(s("cfg"), s("config_value"));
    m
}

#[test]
fn alias_entries_name_their_symbol() {
    assert_eq!(alias_entry_target("utils.helpers:helper_fn"), "helper_fn");
    assert_eq!(alias_entry_target("a:b:c"), "b:c");
    assert_eq!(alias_entry_target("plain"), "plain");
    assert_eq!(alias_entry_target(":x"), "x");
    assert_eq!(alias_entry_target(""), "");
}

#[test]
fn aliases_resolved_in_expressions() {
    let b = HybridStaticBundler::new();
    let e = Expr::Call {
        func: Box::new(name("helper")),
        args: vec![name("cfg"), name("other")],
        keywords: vec![Keyword { arg: Some(s("k")), value: name("cfg") }],
    };
    let out = b.resolve_import_aliases_in_expr(e, &aliases());
    assert_eq!(
        out,
        Expr::Call {
            func: Box::new(name("helper_fn")),
            args: vec![name("config_value"), name("other")],
            keywords: vec![Keyword { arg: Some(s("k")), value: name("config_value") }],
        }
    );
    let untouched = b.resolve_import_aliases_in_expr(Expr::Starred(Box::new(name("cfg"))), &aliases());
    assert_eq!(untouched, Expr::Starred(Box::new(name("cfg"))));
}

#[test]
fn aliases_resolved_in_statements_but_not_targets() {
    let b = HybridStaticBundler::new();
    let stmt = Stmt::FunctionDef {
        name: s("f"),
        decorators: vec![name("cfg")],
        parameters: Parameters {
            posonlyargs: vec![],
            args: vec![Parameter { name: s("x"), annotation: Some(name("cfg")), default: Some(name("helper")) }],
            vararg: None,
            kwonlyargs: vec![],
            kwarg: None,
        },
        return_type: Some(name("cfg")),
        body: vec![
            Stmt::Assign { targets: vec![Expr::Name { id: s("cfg"), ctx: ExprContext::Store }], value: name("cfg") },
            Stmt::If {
                test: name("helper"),
                body: vec![Stmt::Return(Some(name("cfg")))],
                elif_else_clauses: vec![ElifElseClause { test: None, body: vec![Stmt::Expr(name("helper"))] }],
            },
        ],
    };
    let out = b.resolve_import_aliases_in_stmt(stmt, &aliases());
    let expected = Stmt::FunctionDef {
        name: s("f"),
        decorators: vec![name("cfg")],
        parameters: Parameters {
            posonlyargs: vec![],
            args: vec![Parameter { name: s("x"), annotation: Some(name("config_value")), default: Some(name("helper_fn")) }],
            vararg: None,
            kwonlyargs: vec![],
            kwarg: None,
        },
        return_type: Some(name("config_value")),
        body: vec![
            Stmt::Assign { targets: vec![Expr::Name { id: s("cfg"), ctx: ExprContext::Store }], value: name("config_value") },
            Stmt::If {
                test: name("helper_fn"),
                body: vec![Stmt::Return(Some(name("config_value")))],
                elif_else_clauses: vec![ElifElseClause { test: None, body: vec![Stmt::Expr(name("helper_fn"))] }],
            },
        ],
    };
    assert_eq!(out, expected);
}
