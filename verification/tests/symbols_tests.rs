use cribo::ast::{Alias, Expr, ExprContext, ModModule, Parameters, Stmt};
use cribo::code_generator::HybridStaticBundler;
use cribo::cribo_graph::UnusedImportInfo;
use indexmap::IndexSet;

fn s(x: &str) -> String {
    x.to_string()
}

fn name(id: &str) -> Expr {
    Expr::Name { id: s(id), ctx: ExprContext::Load }
}

fn store(id: &str) -> Expr {
    Expr::Name { id: s(id), ctx: ExprContext::Store }
}

fn attr(value: Expr, a: &str, ctx: ExprContext) -> Expr {
    Expr::Attribute { value: Box::new(value), attr: s(a), ctx }
}

fn no_params() -> Parameters {
    Parameters { posonlyargs: vec![], args: vec![], vararg: None, kwonlyargs: vec![], kwarg: None }
}

fn body() -> Vec<Stmt> {
    vec![
        Stmt::FunctionDef { name: s("f"), decorators: vec![], parameters: no_params(), return_type: None, body: vec![] },
        Stmt::ClassDef { name: s("C"), decorators: vec![], bases: vec![], keywords: vec![], body: vec![] },
        Stmt::Assign { targets: vec![store("x")], value: Expr::NoneLiteral },
        Stmt::Assign { targets: vec![store("a"), store("b")], value: Expr::NoneLiteral },
        Stmt::AnnAssign { target: store("y"), annotation: name("int"), value: None },
        Stmt::Assign { targets: vec![store("f")], value: Expr::NoneLiteral },
    ]
}

#[test]
fn global_symbols_of_the_entry_module() {
    let b = HybridStaticBundler::new();
    let modules = vec![
        (s("lib"), ModModule { body: vec![Stmt::Assign { targets: vec![store("z")], value: Expr::NoneLiteral }] }, s("/src/lib.py"), s("aaaaaa")),
        (s("main"), ModModule { body: body() }, s("/src/main.py"), s("bbbbbb")),
    ];
    let symbols = b.collect_global_symbols(&modules, "main");
    assert_eq!(symbols.iter().cloned().collect::<Vec<_>>(), vec![s("f"), s("C"), s("x"), s("y")]);
    let mut set: IndexSet<String> = IndexSet::new();
    b.collect_symbol_from_statement(&Stmt::Pass, &mut set);
    assert!(set.is_empty());
    assert_eq!(b.extract_simple_assign_target(&vec![store("q")]), Some(s("q")));
    assert_eq!(b.extract_simple_assign_target(&vec![attr(name("a"), "b", ExprContext::Store)]), None);
}

#[test]
fn module_symbols_leave_annotations_out() {
    let b = HybridStaticBundler::new();
    let mut symbols = Vec::new();
    for stmt in body() {
        b.collect_module_symbol(&stmt, &mut symbols);
    }
    assert_eq!(symbols, vec![s("f"), s("C"), s("x"), s("f")]);
}

#[test]
fn dotted_name_chains() {
    let b = HybridStaticBundler::new();
    let e = attr(attr(name("a"), "b", ExprContext::Load), "c", ExprContext::Load);
    assert!(b.is_name_chain(&e, "a.b.c"));
    assert!(!b.is_name_chain(&e, "a.b"));
    assert!(!b.is_name_chain(&e, "x.b.c"));
    assert!(b.is_name_chain(&name("a"), "a"));
    assert!(!b.is_name_chain(&name("a"), "a.b"));
}

#[test]
fn modules_already_assigned() {
    let b = HybridStaticBundler::new();
    let final_body = vec![
        Stmt::Assign { targets: vec![store("pkg")], value: Expr::NoneLiteral },
        Stmt::Assign { targets: vec![attr(attr(name("pkg"), "sub", ExprContext::Load), "mod", ExprContext::Store)], value: Expr::NoneLiteral },
    ];
    assert!(b.is_module_already_assigned(&final_body, "pkg"));
    assert!(b.is_module_already_assigned(&final_body, "pkg.sub.mod"));
    assert!(!b.is_module_already_assigned(&final_body, "pkg.sub"));
    assert!(!b.is_module_already_assigned(&final_body, "other"));
    assert!(b.assignment_has_dotted_target(&vec![attr(name("pkg"), "sub", ExprContext::Store)], "pkg", "sub"));
}

#[test]
fn imports_binding_only_unused_names_are_removed() {
    let b = HybridStaticBundler::new();
    let unused = vec![
        UnusedImportInfo { name: s("os"), module: s("os") },
        UnusedImportInfo { name: s("p"), module: s("pathlib") },
    ];
    let import = |names: Vec<Alias>| Stmt::Import(names);
    assert!(b.should_remove_import_stmt(&import(vec![Alias { name: s("os"), asname: None }]), &unused));
    assert!(!b.should_remove_import_stmt(&import(vec![Alias { name: s("os"), asname: None }, Alias { name: s("sys"), asname: None }]), &unused));
    assert!(b.should_remove_import_stmt(
        &Stmt::ImportFrom { module: Some(s("pathlib")), names: vec![Alias { name: s("Path"), asname: Some(s("p")) }], level: 0 },
        &unused
    ));
    assert!(!b.should_remove_import_stmt(
        &Stmt::ImportFrom { module: Some(s("__future__")), names: vec![Alias { name: s("os"), asname: None }], level: 0 },
        &unused
    ));
    assert!(!b.should_remove_import_stmt(&Stmt::Pass, &unused));
}
