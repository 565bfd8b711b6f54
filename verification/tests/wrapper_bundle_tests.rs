use cribo::ast::{DictItem, Expr, ExprContext, ModModule, Stmt};
use cribo::code_generator::HybridStaticBundler;
use cribo::globals_lifter::ModuleGlobalInfo;
use indexmap::IndexMap;

fn s(x: &str) -> String {
    x.to_string()
}

fn load(id: &str) -> Expr {
    Expr::Name { id: s(id), ctx: ExprContext::Load }
}

fn store(id: &str) -> Expr {
    Expr::Name { id: s(id), ctx: ExprContext::Store }
}

fn module(name: &str, body: Vec<Stmt>) -> (String, ModModule, String, String) {
    (s(name), ModModule { body }, format!("/src/{}.py", name.replace('.', "/")), s("abcdef0123"))
}

#[test]
fn wrapped_modules_are_registered_in_turn() {
    let mut b = HybridStaticBundler::new();
    let all = Stmt::Assign { targets: vec![store("__all__")], value: Expr::List(vec![Expr::StringLiteral(s("f"))]) };
    let wrappers = vec![module("pkg.mod", vec![all]), module("util", vec![])];
    b.register_wrapper_modules(&wrappers);
    assert!(b.should_export_symbol("f", "pkg.mod"));
    assert!(!b.should_export_symbol("g", "pkg.mod"));
    assert!(b.should_export_symbol("g", "util"));
    let registry = b.create_module_registry();
    assert_eq!(
        registry,
        Stmt::Assign {
            targets: vec![store("__cribo_modules")],
            value: Expr::Dict(vec![
                DictItem { key: Some(Expr::StringLiteral(s("pkg.mod"))), value: Expr::StringLiteral(s("__cribo_abcdef_pkg_mod")) },
                DictItem { key: Some(Expr::StringLiteral(s("util"))), value: Expr::StringLiteral(s("__cribo_abcdef_util")) },
            ]),
        }
    );
}

#[test]
fn wrapper_section_layout() {
    let mut b = HybridStaticBundler::new();
    let counter = || Stmt::Assign { targets: vec![store("counter")], value: Expr::NumberLiteral(s("0")) };
    let wrappers = vec![module("pkg.mod", vec![counter()]), module("util", vec![Stmt::Pass])];
    b.register_wrapper_modules(&wrappers);
    let info = ModuleGlobalInfo {
        module_name: s("pkg.mod"),
        module_level_vars: vec![s("counter")],
        global_declarations: vec![s("counter")],
        functions_using_globals: vec![s("inc")],
    };
    let with_info = vec![
        (module("pkg.mod", vec![counter()]), Some(info)),
        (module("util", vec![Stmt::Pass]), None),
    ];
    let sorted = vec![s("util"), s("pkg.mod"), s("main")];
    let renames: IndexMap<String, IndexMap<String, String>> = IndexMap::new();
    let out = b.wrapper_module_section(with_info, &sorted, "main", &renames);
    assert_eq!(out.len(), 1 + 2 + 4 + 2);
    assert_eq!(out[0], Stmt::Assign { targets: vec![store("__cribo_pkg_mod_counter")], value: Expr::NoneLiteral });
    match &out[1] {
        Stmt::FunctionDef { name, .. } => assert_eq!(name, "__cribo_init___cribo_abcdef_pkg_mod"),
        other => panic!("expected an init function, got {:?}", other),
    }
    match &out[2] {
        Stmt::FunctionDef { name, .. } => assert_eq!(name, "__cribo_init___cribo_abcdef_util"),
        other => panic!("expected an init function, got {:?}", other),
    }
    assert_eq!(out[3], b.create_module_registry());
    assert_eq!(out[4], b.create_init_functions_registry());
    assert_eq!(out[5], b.create_finder_class());
    let init_call = |f: &str| Stmt::Expr(Expr::Call { func: Box::new(load(f)), args: vec![], keywords: vec![] });
    assert_eq!(out[7], init_call("__cribo_init___cribo_abcdef_util"));
    assert_eq!(out[8], init_call("__cribo_init___cribo_abcdef_pkg_mod"));
}
