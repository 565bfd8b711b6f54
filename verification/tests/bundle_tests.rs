use cribo::ast::{Alias, Expr, ExprContext, ModModule, Parameters, Stmt};
use cribo::bundle::BundleParams;
use cribo::code_generator::HybridStaticBundler;
use cribo::cribo_graph::UnusedImportInfo;
use indexmap::IndexMap;

fn s(x: &str) -> String {
    x.to_string()
}

fn load(id: &str) -> Expr {
    Expr::Name { id: s(id), ctx: ExprContext::Load }
}

fn call(f: &str) -> Expr {
    Expr::Call { func: Box::new(load(f)), args: vec![], keywords: vec![] }
}

fn module(name: &str, body: Vec<Stmt>, hash: &str) -> (String, ModModule, String, String) {
    (s(name), ModModule { body }, format!("/src/{}.py", name), s(hash))
}

fn def(name: &str) -> Stmt {
    Stmt::FunctionDef {
        name: s(name),
        decorators: vec![],
        parameters: Parameters { posonlyargs: vec![], args: vec![], vararg: None, kwonlyargs: vec![], kwarg: None },
        return_type: None,
        body: vec![Stmt::Return(Some(Expr::NumberLiteral(s("1"))))],
    }
}

fn params(modules: Vec<(String, ModModule, String, String)>, sorted: &[&str]) -> BundleParams {
    let n = modules.len();
    BundleParams {
        modules,
        unused_imports: (0..n).map(|_| vec![]).collect(),
        sorted_modules: sorted.iter().map(|m| s(m)).collect(),
        entry_module_name: s("main"),
        symbol_renames: IndexMap::new(),
        module_globals: (0..n).map(|_| None).collect(),
    }
}

#[test]
fn a_module_without_side_effects_is_inlined() {
    let mut b = HybridStaticBundler::new();
    let main = module(
        "main",
        vec![
            Stmt::ImportFrom { module: Some(s("util")), names: vec![Alias { name: s("helper"), asname: None }], level: 0 },
            Stmt::Expr(call("helper")),
        ],
        "aaaaaa00",
    );
    let util = module("util", vec![def("helper")], "bbbbbb00");
    let bundle = b.bundle_modules(params(vec![main, util], &["util", "main"])).unwrap();
    // No wrapped module: no import hook, the helper comes before the entry code.
    assert!(!bundle.body.iter().any(|st| matches!(st, Stmt::ClassDef { name, .. } if name == "CriboBundledFinder")));
    let helper_at = bundle.body.iter().position(|st| matches!(st, Stmt::FunctionDef { name, .. } if name == "helper"));
    assert!(helper_at.is_some());
    assert_eq!(bundle.body.last(), Some(&Stmt::Expr(call("helper"))));
}

#[test]
fn a_module_with_side_effects_is_wrapped_and_run_through_the_hook() {
    let mut b = HybridStaticBundler::new();
    let main = module("main", vec![Stmt::Import(vec![Alias { name: s("noisy"), asname: None }])], "aaaaaa00");
    let noisy = module("noisy", vec![Stmt::Expr(call("print"))], "cccccc00");
    let bundle = b.bundle_modules(params(vec![main, noisy], &["noisy", "main"])).unwrap();
    let finder = b.create_finder_class();
    assert!(bundle.body.contains(&finder));
    assert!(bundle.body.contains(&b.create_module_registry()));
    assert!(bundle.body.contains(&b.create_init_functions_registry()));
    let init = Stmt::Expr(call("__cribo_init___cribo_cccccc_noisy"));
    let init_at = bundle.body.iter().position(|st| *st == init).unwrap();
    let finder_at = bundle.body.iter().position(|st| *st == finder).unwrap();
    assert!(finder_at < init_at);
    assert!(bundle.body.iter().any(|st| matches!(st, Stmt::FunctionDef { name, .. } if name == "__cribo_init___cribo_cccccc_noisy")));
}

#[test]
fn a_wrapped_module_needs_a_long_enough_hash() {
    let mut b = HybridStaticBundler::new();
    let main = module("main", vec![Stmt::Import(vec![Alias { name: s("noisy"), asname: None }])], "aaaaaa00");
    let noisy = module("noisy", vec![Stmt::Expr(call("print"))], "cc");
    assert!(b.bundle_modules(params(vec![main, noisy], &["noisy", "main"])).is_err());
}

#[test]
fn unused_imports_are_trimmed() {
    let b = HybridStaticBundler::new();
    let body = vec![
        Stmt::Import(vec![Alias { name: s("os"), asname: None }]),
        Stmt::Import(vec![Alias { name: s("sys"), asname: None }]),
        Stmt::ImportFrom { module: Some(s("__future__")), names: vec![Alias { name: s("annotations"), asname: None }], level: 0 },
        Stmt::Expr(call("f")),
    ];
    let unused = vec![
        UnusedImportInfo { name: s("os"), module: s("os") },
        UnusedImportInfo { name: s("annotations"), module: s("__future__") },
    ];
    let out = b.trim_unused_imports_from_modules(vec![module("m", body, "aaaaaa00")], &vec![unused]);
    assert_eq!(
        out[0].1.body,
        vec![
            Stmt::Import(vec![Alias { name: s("sys"), asname: None }]),
            Stmt::ImportFrom { module: Some(s("__future__")), names: vec![Alias { name: s("annotations"), asname: None }], level: 0 },
            Stmt::Expr(call("f")),
        ]
    );
}
