use cribo::ast::{Alias, Expr, ExprContext, ModModule, Parameters, Stmt};
use cribo::code_generator::HybridStaticBundler;
use cribo::globals_lifter::ModuleGlobalInfo;
use cribo::wrapper_modules::ModuleTransformContext;
use indexmap::IndexMap;

fn s(x: &str) -> String {
    x.to_string()
}

fn name(id: &str) -> Expr {
    Expr::Name { id: s(id), ctx: ExprContext::Load }
}

fn store(id: &str) -> Expr {
    Expr::Name { id: s(id), ctx: ExprContext::Store }
}

fn alias(n: &str, asname: Option<&str>) -> Alias {
    Alias { name: s(n), asname: asname.map(s) }
}

fn module_attr(n: &str) -> Stmt {
    Stmt::Assign {
        targets: vec![Expr::Attribute { value: Box::new(name("module")), attr: s(n), ctx: ExprContext::Store }],
        value: name(n),
    }
}

fn sys_modules(module: &str) -> Expr {
    Expr::Subscript {
        value: Box::new(Expr::Attribute { value: Box::new(name("sys")), attr: s("modules"), ctx: ExprContext::Load }),
        slice: Box::new(Expr::StringLiteral(s(module))),
    }
}

fn no_params() -> Parameters {
    Parameters { posonlyargs: vec![], args: vec![], vararg: None, kwonlyargs: vec![], kwarg: None }
}

fn ctx(global_info: Option<ModuleGlobalInfo>) -> ModuleTransformContext {
    ModuleTransformContext {
        module_name: s("pkg.mod"),
        synthetic_name: s("pkg_mod_abcdef"),
        importer_path: s("/src/pkg/mod.py"),
        global_info,
    }
}

#[test]
fn exported_assignments_become_module_attributes() {
    let mut b = HybridStaticBundler::new();
    b.track_module_exports(s("m"), Some(vec![s("x")]));
    let mut body = Vec::new();
    b.add_module_attr_if_exported(&Stmt::Assign { targets: vec![store("x")], value: Expr::NoneLiteral }, "m", &mut body);
    b.add_module_attr_if_exported(&Stmt::Assign { targets: vec![store("y")], value: Expr::NoneLiteral }, "m", &mut body);
    b.add_module_attr_if_exported(&Stmt::Assign { targets: vec![store("z")], value: Expr::NoneLiteral }, "other", &mut body);
    b.add_module_attr_if_exported(&Stmt::Assign { targets: vec![store("_p")], value: Expr::NoneLiteral }, "other", &mut body);
    assert_eq!(body, vec![module_attr("x"), module_attr("z")]);

    let all = |names: Vec<&str>| Stmt::Assign {
        targets: vec![Expr::Attribute { value: Box::new(name("module")), attr: s("__all__"), ctx: ExprContext::Store }],
        value: Expr::List(names.into_iter().map(|n| Expr::StringLiteral(s(n))).collect()),
    };
    assert_eq!(b.create_all_assignment_for_module("m"), all(vec!["x"]));
    assert_eq!(b.create_all_assignment_for_module("other"), all(vec![]));
}

#[test]
fn imported_names_exported_as_attributes() {
    let mut b = HybridStaticBundler::new();
    b.track_bundled_module(s("inl"));
    let mut body = Vec::new();
    let import_from = Stmt::ImportFrom { module: Some(s("os")), names: vec![alias("path", None), alias("sep", Some("_sep"))], level: 0 };
    b.add_imported_symbol_attributes(&import_from, "m", Some("/src/m.py"), &mut body);
    assert_eq!(body, vec![module_attr("path")]);
    // Nothing for names imported from an inlined module.
    let mut body = Vec::new();
    let inlined = Stmt::ImportFrom { module: Some(s("inl")), names: vec![alias("f", None)], level: 0 };
    b.add_imported_symbol_attributes(&inlined, "m", None, &mut body);
    assert!(body.is_empty());
    let mut body = Vec::new();
    b.add_imported_symbol_attributes(&Stmt::Import(vec![alias("json", None), alias("inl", None)]), "m", None, &mut body);
    assert_eq!(body, vec![module_attr("json")]);
}

#[test]
fn wrapper_imports_rewritten_then_exported() {
    let mut b = HybridStaticBundler::new();
    b.track_bundled_module(s("wrapped"));
    b.register_wrapper_module(s("wrapped"), s("wrapped_123456"));
    let renames: IndexMap<String, IndexMap<String, String>> = IndexMap::new();
    let mut body = vec![Stmt::Pass];
    b.process_wrapper_module_import(Stmt::Import(vec![alias("wrapped", Some("w"))]), &ctx(None), &renames, &mut body);
    assert_eq!(
        body,
        vec![Stmt::Pass, Stmt::Assign { targets: vec![store("w")], value: sys_modules("wrapped") }, module_attr("w")]
    );
    // A hoisted `__future__` import adds nothing.
    let mut body = Vec::new();
    let future = Stmt::ImportFrom { module: Some(s("__future__")), names: vec![alias("annotations", None)], level: 0 };
    b.process_wrapper_module_import(future, &ctx(None), &renames, &mut body);
    assert!(body.is_empty());
}

#[test]
fn module_becomes_init_function() {
    let mut b = HybridStaticBundler::new();
    b.track_bundled_module(s("pkg.mod"));
    b.register_wrapper_module(s("pkg.mod"), s("pkg_mod_abcdef"));
    b.track_module_exports(s("pkg.mod"), Some(vec![s("f")]));
    let renames: IndexMap<String, IndexMap<String, String>> = IndexMap::new();
    let body = vec![
        Stmt::FunctionDef { name: s("f"), decorators: vec![], parameters: no_params(), return_type: None, body: vec![Stmt::Pass] },
        Stmt::Assign { targets: vec![store("x")], value: name("x") },
        Stmt::Assign { targets: vec![store("count")], value: Expr::NumberLiteral(s("0")) },
        Stmt::Expr(Expr::Call { func: Box::new(name("print")), args: vec![], keywords: vec![] }),
    ];
    let info = ModuleGlobalInfo {
        module_name: s("pkg.mod"),
        module_level_vars: vec![s("count")],
        global_declarations: vec![s("count")],
        functions_using_globals: vec![],
    };
    let r = b.transform_module_to_init_function(ctx(Some(info)), ModModule { body }, &renames);
    let Stmt::FunctionDef { name: fname, decorators, parameters, return_type, body } = r else {
        panic!("not a function definition");
    };
    assert_eq!(fname, s("__cribo_init_pkg_mod_abcdef"));
    assert!(decorators.is_empty());
    assert_eq!(parameters, no_params());
    assert_eq!(return_type, None);
    assert_eq!(body.len(), 13);
    assert!(matches!(body[0], Stmt::If { .. }));
    assert_eq!(body[3], Stmt::Assign { targets: vec![sys_modules("pkg_mod_abcdef")], value: name("module") });
    assert_eq!(body[4], Stmt::Assign { targets: vec![sys_modules("pkg.mod")], value: name("module") });
    assert_eq!(
        body[5],
        Stmt::FunctionDef { name: s("f"), decorators: vec![], parameters: no_params(), return_type: None, body: vec![Stmt::Pass] }
    );
    assert_eq!(body[6], module_attr("f"));
    // `x = x` is dropped; `count = 0` is kept and not exported.
    assert_eq!(body[7], Stmt::Assign { targets: vec![store("count")], value: Expr::NumberLiteral(s("0")) });
    assert!(matches!(body[8], Stmt::Expr(_)));
    assert_eq!(body[9], Stmt::Global(vec![s("__cribo_pkg_mod_count")]));
    assert_eq!(body[10], Stmt::Assign { targets: vec![store("__cribo_pkg_mod_count")], value: name("count") });
    assert!(matches!(body[11], Stmt::Assign { .. }));
    assert_eq!(body[12], Stmt::Return(Some(name("module"))));
}
