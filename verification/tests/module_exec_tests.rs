use cribo::ast::{DictItem, Expr, ExprContext, Operator, Stmt};
use cribo::emit::{CodeEmitter, ImportStrategy};
use cribo::module_exec::{find_str, text_lines_of, trim_str, ModuleExecParams};
use cribo::resolver::ModuleResolver;

fn s(x: &str) -> String {
    x.to_string()
}

fn load(id: &str) -> Expr {
    Expr::Name { id: s(id), ctx: ExprContext::Load }
}

fn globals_call() -> Expr {
    Expr::Call { func: Box::new(load("globals")), args: vec![], keywords: vec![] }
}

fn module_dict(value: Expr) -> Expr {
    Expr::Attribute { value: Box::new(value), attr: s("__dict__"), ctx: ExprContext::Load }
}

fn exec_stmt(args: Vec<Expr>) -> Stmt {
    Stmt::Expr(Expr::Call { func: Box::new(load("exec")), args, keywords: vec![] })
}

fn emitter() -> CodeEmitter {
    CodeEmitter::new(ModuleResolver::new(10), false, false)
}

#[test]
fn text_helpers() {
    assert_eq!(trim_str("  a b \t\n"), s("a b"));
    assert_eq!(trim_str("   "), s(""));
    assert_eq!(find_str("x = a.b = c", " = ", 0), Some(1));
    assert_eq!(find_str("x = a.b = c", " = ", 2), Some(7));
    assert_eq!(find_str("x=1", " = ", 0), None);
    assert_eq!(text_lines_of("a\r\nb\n\nc\n"), vec![s("a"), s("b"), s(""), s("c")]);
    assert_eq!(text_lines_of(""), Vec::<String>::new());
    assert_eq!(text_lines_of("a\r"), vec![s("a\r")]);
}

#[test]
fn attribute_bindings_become_globals() {
    let e = emitter();
    let code = "sub_function = nested_package.submodule.sub_function\nx = 1\n  helper_2 = pkg.helper  \nbad name = a.b\n";
    assert_eq!(
        e.add_global_declarations_to_code("pkg", code),
        format!(
            "global sub_function, helper_2\n{}\nlocals()['sub_function'] = sub_function\nlocals()['helper_2'] = helper_2",
            code
        )
    );
    assert_eq!(e.add_global_declarations_to_code("pkg", "x = 1\ny = f(2)"), s("x = 1\ny = f(2)"));
}

#[test]
fn exec_without_globals() {
    let e = emitter();
    let st = e
        .create_module_exec_statement(ModuleExecParams {
            module_name: "pkg.mod",
            module_code: "x = 1",
            include_globals: false,
            import_strategy: &ImportStrategy::FromImport,
        })
        .unwrap();
    let pkg_mod = Expr::Attribute { value: Box::new(load("pkg")), attr: s("mod"), ctx: ExprContext::Load };
    assert_eq!(st, exec_stmt(vec![Expr::StringLiteral(s("x = 1")), module_dict(pkg_mod)]));
}

#[test]
fn exec_with_globals() {
    let e = emitter();
    let st = e
        .create_module_exec_statement(ModuleExecParams {
            module_name: "util",
            module_code: "import util",
            include_globals: true,
            import_strategy: &ImportStrategy::ModuleImport,
        })
        .unwrap();
    assert_eq!(
        st,
        exec_stmt(vec![Expr::StringLiteral(s("import util")), globals_call(), module_dict(load("util"))])
    );
}

#[test]
fn init_package_exec_sees_its_package_and_globals() {
    let mut e = emitter();
    e.add_init_module(s("pkg.sub"));
    assert!(e.is_init_py_module("pkg.sub"));
    let code = "helper = pkg.sub.helper\nimport pkg.sub";
    let st = e
        .create_module_exec_statement(ModuleExecParams {
            module_name: "pkg.sub",
            module_code: code,
            include_globals: true,
            import_strategy: &ImportStrategy::ModuleImport,
        })
        .unwrap();
    let merged = Expr::BinOp {
        left: Box::new(globals_call()),
        op: Operator::BitOr,
        right: Box::new(Expr::Dict(vec![DictItem { key: Some(Expr::StringLiteral(s("pkg"))), value: load("pkg") }])),
    };
    let pkg_sub = Expr::Attribute { value: Box::new(load("pkg")), attr: s("sub"), ctx: ExprContext::Load };
    assert_eq!(
        st,
        exec_stmt(vec![
            Expr::StringLiteral(format!("global helper\n{}\nlocals()['helper'] = helper", code)),
            merged,
            module_dict(pkg_sub),
        ])
    );
}

#[test]
fn module_attribute_from_its_renamed_binding() {
    let e = emitter();
    let pkg_mod = || Expr::Attribute { value: Box::new(load("pkg")), attr: s("mod"), ctx: ExprContext::Load };
    assert_eq!(
        e.create_module_attribute_assignment("pkg.mod", "helper", "helper_1"),
        Ok(Stmt::Assign {
            targets: vec![Expr::Attribute { value: Box::new(pkg_mod()), attr: s("helper"), ctx: ExprContext::Store }],
            value: Expr::Call {
                func: Box::new(load("getattr")),
                args: vec![pkg_mod(), Expr::StringLiteral(s("helper_1"))],
                keywords: vec![],
            },
        })
    );
    assert_eq!(
        e.create_module_attribute_assignment("util", "x", "x_2"),
        Ok(Stmt::Assign {
            targets: vec![Expr::Attribute { value: Box::new(load("util")), attr: s("x"), ctx: ExprContext::Store }],
            value: Expr::Call {
                func: Box::new(load("getattr")),
                args: vec![load("util"), Expr::StringLiteral(s("x_2"))],
                keywords: vec![],
            },
        })
    );
}
