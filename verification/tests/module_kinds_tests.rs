use cribo::ast::{Alias, Expr, ExprContext, ModModule, Stmt};
use cribo::code_generator::HybridStaticBundler;
use indexmap::IndexSet;

fn s(x: &str) -> String {
    x.to_string()
}

fn module(name: &str, body: Vec<Stmt>) -> (String, ModModule, String, String) {
    (s(name), ModModule { body }, format!("/src/{}.py", name), s("abcdef0123"))
}

fn from(m: &str, names: &[&str]) -> Stmt {
    Stmt::ImportFrom { module: Some(s(m)), names: names.iter().map(|n| Alias { name: s(n), asname: None }).collect(), level: 0 }
}

fn names(v: &[(String, ModModule, String, String)]) -> Vec<String> {
    v.iter().map(|m| m.0.clone()).collect()
}

#[test]
fn modules_are_inlined_wrapped_or_namespaced() {
    let mut b = HybridStaticBundler::new();
    let call_f = Stmt::Expr(Expr::Call {
        func: Box::new(Expr::Name { id: s("f"), ctx: ExprContext::Load }),
        args: vec![],
        keywords: vec![],
    });
    let modules = vec![
        module("main", vec![from("models", &["base"])]),
        module("models.base", vec![]),
        module("noisy", vec![call_f]),
        module("direct", vec![]),
        module("quiet", vec![Stmt::Pass]),
        module("scoped", vec![]),
    ];
    b.find_namespace_imported_modules(&modules);
    let mut direct: IndexSet<String> = IndexSet::new();
    direct.insert(s("direct"));
    let mut scoped: IndexSet<String> = IndexSet::new();
    scoped.insert(s("scoped"));
    let (inlined, wrapped, namespaced) = b.classify_modules(modules, "main", &direct, &scoped);
    assert_eq!(names(&inlined), vec![s("quiet")]);
    assert_eq!(names(&wrapped), vec![s("noisy"), s("direct"), s("scoped")]);
    assert_eq!(names(&namespaced), vec![s("models.base")]);
}
