use cribo::ast::{CmpOp, Expr, ExprContext, Keyword, Stmt};
use cribo::code_generator::HybridStaticBundler;

fn s(x: &str) -> String {
    x.to_string()
}

fn load(id: &str) -> Expr {
    Expr::Name { id: s(id), ctx: ExprContext::Load }
}

fn store(id: &str) -> Expr {
    Expr::Name { id: s(id), ctx: ExprContext::Store }
}

fn attr(base: &str, a: &str, ctx: ExprContext) -> Expr {
    Expr::Attribute { value: Box::new(load(base)), attr: s(a), ctx }
}

fn sys_modules_entry(name: &str) -> Expr {
    Expr::Subscript { value: Box::new(attr("sys", "modules", ExprContext::Load)), slice: Box::new(Expr::StringLiteral(s(name))) }
}

#[test]
fn literals() {
    let b = HybridStaticBundler::new();
    assert_eq!(b.create_string_literal("abc"), Expr::StringLiteral(s("abc")));
    assert_eq!(b.create_number_literal(42), Expr::NumberLiteral(s("42")));
    assert_eq!(b.create_number_literal(0), Expr::NumberLiteral(s("0")));
}

#[test]
fn sys_modules_statements() {
    let b = HybridStaticBundler::new();
    assert_eq!(
        b.create_sys_modules_assignment("x", "pkg.x"),
        Stmt::Assign { targets: vec![store("x")], value: sys_modules_entry("pkg.x") }
    );
    assert_eq!(
        b.create_sys_modules_registration("__cribo_abc_m"),
        Stmt::Assign { targets: vec![sys_modules_entry("__cribo_abc_m")], value: load("module") }
    );
    assert_eq!(
        b.create_sys_modules_registration_alias("__cribo_abc_m", "m"),
        Stmt::Assign { targets: vec![sys_modules_entry("m")], value: load("module") }
    );
    assert_eq!(
        b.create_module_exists_check("m"),
        Stmt::If {
            test: Expr::Compare { left: Box::new(Expr::StringLiteral(s("m"))), ops: vec![CmpOp::In], comparators: vec![attr("sys", "modules", ExprContext::Load)] },
            body: vec![Stmt::Return(Some(sys_modules_entry("m")))],
            elif_else_clauses: vec![],
        }
    );
}

#[test]
fn module_objects_and_namespaces() {
    let b = HybridStaticBundler::new();
    let module_type = |n: &str| Expr::Call {
        func: Box::new(attr("types", "ModuleType", ExprContext::Load)),
        args: vec![Expr::StringLiteral(s(n))],
        keywords: vec![],
    };
    assert_eq!(
        b.create_module_object_stmt("__cribo_abc_m", "/src/m.py"),
        vec![
            Stmt::Assign { targets: vec![store("module")], value: module_type("__cribo_abc_m") },
            Stmt::Assign {
                targets: vec![attr("module", "__file__", ExprContext::Store)],
                value: Expr::IfExp {
                    test: Box::new(Expr::Compare {
                        left: Box::new(Expr::StringLiteral(s("__file__"))),
                        ops: vec![CmpOp::In],
                        comparators: vec![Expr::Call { func: Box::new(load("globals")), args: vec![], keywords: vec![] }],
                    }),
                    body: Box::new(load("__file__")),
                    orelse: Box::new(Expr::NoneLiteral),
                },
            },
        ]
    );
    assert_eq!(
        b.create_namespace_module("pkg"),
        Stmt::Assign { targets: vec![store("pkg")], value: module_type("pkg") }
    );
    assert_eq!(
        b.create_module_attr_assignment("module", "f"),
        Stmt::Assign { targets: vec![attr("module", "f", ExprContext::Store)], value: load("f") }
    );
    assert_eq!(b.create_reassignment("a", "a_1"), Stmt::Assign { targets: vec![store("a")], value: load("a_1") });
    let created = vec![b.create_namespace_module("pkg")];
    assert!(b.is_namespace_already_created("pkg", &created));
    assert!(!b.is_namespace_already_created("other", &created));
}

#[test]
fn dotted_module_assignments() {
    let b = HybridStaticBundler::new();
    let mut body = Vec::new();
    b.create_module_assignment(&mut body, "a.b.c");
    b.create_module_assignment(&mut body, "top");
    assert_eq!(
        body,
        vec![
            Stmt::Assign { targets: vec![attr("a.b", "c", ExprContext::Store)], value: sys_modules_entry("a.b.c") },
            Stmt::Assign { targets: vec![store("top")], value: sys_modules_entry("top") },
        ]
    );
    let mut stmts = vec![Stmt::Pass];
    b.create_dotted_assignments(&vec![s("a"), s("b"), s("c")], &mut stmts);
    assert_eq!(
        stmts,
        vec![
            Stmt::Pass,
            Stmt::Assign { targets: vec![attr("a", "b", ExprContext::Store)], value: sys_modules_entry("a.b") },
            Stmt::Assign { targets: vec![attr("a.b", "c", ExprContext::Store)], value: sys_modules_entry("a.b.c") },
        ]
    );
}

#[test]
fn namespace_keywords_follow_all() {
    let mut b = HybridStaticBundler::new();
    b.track_module_exports(s("pkg.mod"), Some(vec![s("f"), s("g")]));
    b.track_module_exports(s("pkg.other"), None);
    assert_eq!(
        b.create_namespace_keywords("pkg.mod", "pkg_mod"),
        vec![
            Keyword { arg: Some(s("f")), value: load("f_pkg_mod") },
            Keyword { arg: Some(s("g")), value: load("g_pkg_mod") },
        ]
    );
    assert!(b.create_namespace_keywords("pkg.other", "k").is_empty());
    assert!(b.create_namespace_keywords("missing", "k").is_empty());
}
