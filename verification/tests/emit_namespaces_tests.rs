use cribo::ast::{Alias, Expr, ExprContext, Stmt};
use cribo::emit::CodeEmitter;
use cribo::resolver::ModuleResolver;

fn s(x: &str) -> String {
    x.to_string()
}

fn module_type(target: Expr, module: &str) -> Stmt {
    Stmt::Assign {
        targets: vec![target],
        value: Expr::Call {
            func: Box::new(Expr::Attribute {
                value: Box::new(Expr::Name { id: s("types"), ctx: ExprContext::Load }),
                attr: s("ModuleType"),
                ctx: ExprContext::Load,
            }),
            args: vec![Expr::StringLiteral(s(module))],
            keywords: vec![],
        },
    }
}

fn import_types() -> Stmt {
    Stmt::Import(vec![Alias { name: s("types"), asname: None }])
}

fn attr(base: &str, a: &str) -> Expr {
    Expr::Attribute { value: Box::new(Expr::Name { id: s(base), ctx: ExprContext::Load }), attr: s(a), ctx: ExprContext::Store }
}

#[test]
fn module_namespaces_created_once() {
    let mut e = CodeEmitter::new(ModuleResolver::new(10), false, false);
    assert_eq!(
        e.create_module_namespace_structure("greetings.greeting"),
        vec![
            import_types(),
            module_type(Expr::Name { id: s("greetings"), ctx: ExprContext::Store }, "greetings"),
            module_type(attr("greetings", "greeting"), "greetings.greeting"),
        ]
    );
    assert_eq!(e.create_module_namespace_structure("greetings.greeting"), vec![]);
    assert_eq!(
        e.create_module_namespace_structure("greetings.other"),
        vec![import_types(), module_type(attr("greetings", "other"), "greetings.other")]
    );
    assert_eq!(
        e.create_module_namespace_structure("plain"),
        vec![import_types(), module_type(Expr::Name { id: s("plain"), ctx: ExprContext::Store }, "plain")]
    );
    let mut needs = false;
    assert_eq!(e.create_parent_namespaces("greetings.x.y", &mut needs), vec![module_type(attr("greetings", "x"), "greetings.x")]);
    assert!(needs);
    let mut needs = false;
    assert_eq!(e.create_parent_namespaces("greetings.x.z", &mut needs), vec![]);
    assert!(!needs);
}

#[test]
fn parent_namespace_targets_are_written_chains() {
    let e = CodeEmitter::new(ModuleResolver::new(10), false, false);
    let parts = vec![s("a"), s("b"), s("c")];
    let chain = Expr::Attribute {
        value: Box::new(Expr::Attribute { value: Box::new(Expr::Name { id: s("a"), ctx: ExprContext::Load }), attr: s("b"), ctx: ExprContext::Store }),
        attr: s("c"),
        ctx: ExprContext::Store,
    };
    assert_eq!(e.create_parent_namespace_assignment(&parts, 3, "a.b.c"), module_type(chain, "a.b.c"));
    assert_eq!(
        e.create_parent_namespace_assignment(&parts, 1, "a"),
        module_type(Expr::Name { id: s("a"), ctx: ExprContext::Store }, "a")
    );
    assert_eq!(e.create_main_module_assignment("a.b"), module_type(attr("a", "b"), "a.b"));
}
