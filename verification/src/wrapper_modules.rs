//! Wrapped modules: each becomes an init function that builds its module
//! object, runs its code, sets its exported names as attributes, and
//! registers it in `sys.modules`.
use vstd::prelude::*;

use crate::ast::{alias_local_name, local_name, Alias, Expr, ExprContext, Stmt};
use crate::ast::{ModModule, Parameters};
use crate::builders::{
    assign, assigns, is_file_or_none, is_module_attr_assignment, is_module_exists_check,
    is_module_type_call, is_name, is_name_attr, is_reassignment, is_str, is_sys_modules_registration,
    name_attr,
};
use crate::code_generator::{exported, relative_import_target, self_referential, HybridStaticBundler};
use crate::collections::{
    name_map_entries, name_map_to_vec, pair_views, rename_map_entries, rename_map_new, rename_map_pairs,
    RenameMap,
};
use crate::globals_lifter::{lifted_name, lifted_pairs, lifted_vars, GlobalsLifter, ModuleGlobalInfo};
use crate::lifted_globals::stmts_lifted;
use crate::renames::{stmt_globals_replaced, transform_globals_in_stmt};
use crate::hoisting::is_hoisted;
use crate::import_rewrite::{exports_of, rewritten_stmt};
use crate::inlined_imports::{
    appends, inlined_import_plan, lemma_appends_none, lemma_appends_push, lemma_appends_trans,
    resolves_to_inlined,
};
use crate::symbols::simple_target;
use crate::text::{copy_string, name_set, to_string, views};

verus! {

/// What transforming a module into an init function works from: the
/// module's name, its synthetic name, its file, and what is known of its
/// globals.
pub struct ModuleTransformContext {
    pub module_name: String,
    pub synthetic_name: String,
    pub importer_path: String,
    pub global_info: Option<ModuleGlobalInfo>,
}

/// `module.__all__ = ['symbol', ...]`.
pub open spec fn is_all_assignment(s: Stmt, symbols: Seq<Seq<char>>) -> bool {
    assigns(
        s,
        |t: Expr| is_name_attr(t, "module"@, "__all__"@, ExprContext::Store),
        |v: Expr|
            v matches Expr::List(elts) && elts@.len() == symbols.len() && forall|i: int|
                0 <= i < symbols.len() ==> #[trigger] is_str(elts@[i], symbols[i]),
    )
}

/// `module.name = name` when the module `module` exports `name`; nothing otherwise.
pub open spec fn export_attr_plan(b: HybridStaticBundler, name: Seq<char>, module: Seq<char>) -> Seq<
    spec_fn(Stmt) -> bool,
> {
    if exported(b.exports(), name, module) {
        seq![|s: Stmt| is_module_attr_assignment(s, "module"@, name)]
    } else {
        Seq::empty()
    }
}

/// The attributes set for the names `names` bind, in order.
pub open spec fn export_attr_plans(b: HybridStaticBundler, names: Seq<Alias>, module: Seq<char>) -> Seq<
    spec_fn(Stmt) -> bool,
>
    decreases names.len(),
{
    if names.len() == 0 {
        Seq::empty()
    } else {
        export_attr_plans(b, names.drop_last(), module) + export_attr_plan(
            b,
            alias_local_name(names.last()),
            module,
        )
    }
}

/// The attributes set for the modules `names` binds in `import ...`, in
/// order; an inlined module gets none.
pub open spec fn import_attr_plans(b: HybridStaticBundler, names: Seq<Alias>, module: Seq<char>) -> Seq<
    spec_fn(Stmt) -> bool,
>
    decreases names.len(),
{
    if names.len() == 0 {
        Seq::empty()
    } else {
        let a = names.last();
        import_attr_plans(b, names.drop_last(), module) + if b.bundled().contains(a.name@)
            && !b.registry().contains_key(a.name@) {
            Seq::empty()
        } else {
            export_attr_plan(b, alias_local_name(a), module)
        }
    }
}

/// The module attributes set for the names an import of `module` (whose
/// file is `path`) binds and the module exports: none for a `from` import
/// of an inlined module.
pub open spec fn imported_symbol_attr_plan(
    b: HybridStaticBundler,
    stmt: Stmt,
    module: Seq<char>,
    path: Option<Seq<char>>,
) -> Seq<spec_fn(Stmt) -> bool> {
    match stmt {
        Stmt::ImportFrom { module: m, names, level } => match relative_import_target(
            b.bundled(),
            level,
            match m {
                Some(x) => Some(x@),
                None => None,
            },
            module,
            path,
        ) {
            Some(imported) => if b.bundled().contains(imported) && !b.registry().contains_key(imported) {
                Seq::empty()
            } else {
                export_attr_plans(b, names@, module)
            },
            None => export_attr_plans(b, names@, module),
        },
        Stmt::Import(names) => import_attr_plans(b, names@, module),
        _ => Seq::empty(),
    }
}

/// The module an import `stmt` of `module` (whose file is `path`) imports
/// from, when it is a `from` import that can be resolved.
pub open spec fn wrapper_import_source(b: HybridStaticBundler, stmt: Stmt, module: Seq<char>, path: Seq<char>) -> Option<
    Seq<char>,
> {
    match stmt {
        Stmt::ImportFrom { module: m, level, .. } => relative_import_target(
            b.bundled(),
            level,
            match m {
                Some(x) => Some(x@),
                None => None,
            },
            module,
            Some(path),
        ),
        _ => None,
    }
}

/// What the import `stmt` of the wrapped module `module` (whose file is
/// `path`) appends to `before`, giving `after`: nothing for a hoisted
/// import; for a `from` import of an inlined module, what
/// `inlined_import_plan` says; for any other, the import rewritten (with no
/// renames), then the module attributes of the names it binds.
pub open spec fn wrapper_import_out(
    b: HybridStaticBundler,
    stmt: Stmt,
    module: Seq<char>,
    path: Seq<char>,
    orders: Map<Seq<char>, Seq<(Seq<char>, Seq<char>)>>,
    renames: Map<Seq<char>, Map<Seq<char>, Seq<char>>>,
    before: Seq<Stmt>,
    after: Seq<Stmt>,
) -> bool {
    if is_hoisted(b.hoist_view(), stmt) {
        after == before
    } else if wrapper_import_source(b, stmt, module, path) matches Some(source) && resolves_to_inlined(
        b.inlined(),
        source,
    ) {
        appends(
            before,
            after,
            inlined_import_plan(b, orders, renames, wrapper_import_source(b, stmt, module, path)->0, stmt->ImportFrom_names@),
        )
    } else {
        exists|mid: Seq<Stmt>|
            {
                &&& #[trigger] mid.len() >= before.len()
                &&& mid.subrange(0, before.len() as int) == before
                &&& rewritten_stmt(
                    b,
                    stmt,
                    module,
                    Map::empty(),
                    Map::empty(),
                    mid.subrange(before.len() as int, mid.len() as int),
                )
                &&& appends(mid, after, imported_symbol_attr_plan(b, stmt, module, Some(path)))
            }
    }
}

impl HybridStaticBundler {
    /// Appends `module.name = name` when the assignment binds one name that
    /// `module_name` exports.
    pub fn add_module_attr_if_exported(&self, assign: &Stmt, module_name: &str, body: &mut Vec<Stmt>)
        requires
            assign is Assign,
        ensures
            appends(
                old(body)@,
                final(body)@,
                match simple_target(assign->Assign_targets@) {
                    Some(name) => export_attr_plan(*self, name, module_name@),
                    None => Seq::empty(),
                },
            ),
    {
        proof {
            lemma_appends_none(body@);
        }
        if let Stmt::Assign { targets, .. } = assign {
            if let Some(name) = self.extract_simple_assign_target(targets) {
                if self.should_export_symbol(name.as_str(), module_name) {
                    proof {
                        reveal_strlit("module");
                    }
                    let s = self.create_module_attr_assignment("module", name.as_str());
                    proof {
                        lemma_appends_push(body@, s, |s: Stmt| is_module_attr_assignment(s, "module"@, name@));
                    }
                    body.push(s);
                }
            }
        }
    }

    /// `module.__all__ = [...]`, the `__all__` list recorded for
    /// `module_name` (empty when it has none).
    pub fn create_all_assignment_for_module(&self, module_name: &str) -> (r: Stmt)
        ensures
            is_all_assignment(
                r,
                match exports_of(self.exports(), module_name@) {
                    Some(l) => l,
                    None => Seq::empty(),
                },
            ),
    {
        let mut elements: Vec<Expr> = Vec::new();
        match self.recorded_exports(module_name) {
            Some(exported_symbols) => {
                let mut i: usize = 0;
                while i < exported_symbols.len()
                    invariant
                        i <= exported_symbols.len(),
                        elements@.len() == i,
                        forall|j: int| 0 <= j < i ==> #[trigger] is_str(elements@[j], exported_symbols@[j]@),
                    decreases exported_symbols.len() - i,
                {
                    elements.push(self.create_string_literal(exported_symbols[i].as_str()));
                    i += 1;
                }
                proof {
                    assert(exports_of(self.exports(), module_name@) == Some(views(exported_symbols@)));
                }
            },
            None => {},
        }
        proof {
            reveal_strlit("module");
            reveal_strlit("__all__");
        }
        assign(name_attr("module", "__all__", ExprContext::Store), Expr::List(elements))
    }

    /// Appends the module attributes for the names the import `stmt` of
    /// `module_name` binds and the module exports (see
    /// `imported_symbol_attr_plan`).
    pub fn add_imported_symbol_attributes(
        &self,
        stmt: &Stmt,
        module_name: &str,
        importer_path: Option<&str>,
        body: &mut Vec<Stmt>,
    )
        ensures
            appends(
                old(body)@,
                final(body)@,
                imported_symbol_attr_plan(
                    *self,
                    *stmt,
                    module_name@,
                    match importer_path {
                        Some(p) => Some(p@),
                        None => None,
                    },
                ),
            ),
    {
        proof {
            lemma_appends_none(body@);
            reveal_strlit("module");
        }
        let ghost start = body@;
        match stmt {
            Stmt::ImportFrom { module, names, level } => {
                let resolved = self.resolve_relative_import_with_context(
                    *level,
                    module,
                    module_name,
                    importer_path,
                );
                if let Some(imported_module) = &resolved {
                    if self.is_bundled(imported_module.as_str()) && self.registered_name(
                        imported_module.as_str(),
                    ).is_none() {
                        return ;
                    }
                }
                proof {
                    assert(names@.subrange(0, 0) =~= Seq::<Alias>::empty());
                }
                let mut i: usize = 0;
                while i < names.len()
                    invariant
                        i <= names.len(),
                        appends(start, body@, export_attr_plans(*self, names@.subrange(0, i as int), module_name@)),
                    decreases names.len() - i,
                {
                    let local = local_name(&names[i]);
                    let ghost before = body@;
                    if self.should_export_symbol(local.as_str(), module_name) {
                        let s = self.create_module_attr_assignment("module", local.as_str());
                        proof {
                            lemma_appends_push(body@, s, |s: Stmt| is_module_attr_assignment(s, "module"@, local@));
                        }
                        body.push(s);
                    } else {
                        proof {
                            lemma_appends_none(body@);
                        }
                    }
                    proof {
                        let t = names@.subrange(0, i + 1);
                        assert(t.drop_last() =~= names@.subrange(0, i as int));
                        assert(t.last() == names@[i as int]);
                        lemma_appends_trans(
                            start,
                            before,
                            body@,
                            export_attr_plans(*self, names@.subrange(0, i as int), module_name@),
                            export_attr_plan(*self, local@, module_name@),
                        );
                    }
                    i += 1;
                }
                proof {
                    assert(names@.subrange(0, names@.len() as int) =~= names@);
                }
            },
            Stmt::Import(names) => {
                proof {
                    assert(names@.subrange(0, 0) =~= Seq::<Alias>::empty());
                }
                let mut i: usize = 0;
                while i < names.len()
                    invariant
                        i <= names.len(),
                        appends(start, body@, import_attr_plans(*self, names@.subrange(0, i as int), module_name@)),
                    decreases names.len() - i,
                {
                    let imported_module = names[i].name.as_str();
                    let ghost before = body@;
                    let ghost a = names@[i as int];
                    let skip = self.is_bundled(imported_module) && self.registered_name(imported_module).is_none();
                    if !skip {
                        let local = local_name(&names[i]);
                        if self.should_export_symbol(local.as_str(), module_name) {
                            let s = self.create_module_attr_assignment("module", local.as_str());
                            proof {
                                lemma_appends_push(body@, s, |s: Stmt| is_module_attr_assignment(s, "module"@, local@));
                            }
                            body.push(s);
                        } else {
                            proof {
                                lemma_appends_none(body@);
                            }
                        }
                    } else {
                        proof {
                            lemma_appends_none(body@);
                        }
                    }
                    proof {
                        let t = names@.subrange(0, i + 1);
                        assert(t.drop_last() =~= names@.subrange(0, i as int));
                        assert(t.last() == a);
                        let step = if self.bundled().contains(a.name@) && !self.registry().contains_key(a.name@) {
                            Seq::<spec_fn(Stmt) -> bool>::empty()
                        } else {
                            export_attr_plan(*self, alias_local_name(a), module_name@)
                        };
                        lemma_appends_trans(
                            start,
                            before,
                            body@,
                            import_attr_plans(*self, names@.subrange(0, i as int), module_name@),
                            step,
                        );
                    }
                    i += 1;
                }
                proof {
                    assert(names@.subrange(0, names@.len() as int) =~= names@);
                }
            },
            _ => {},
        }
    }

    /// Appends what the import `stmt` of the wrapped module of `ctx`
    /// becomes (see `wrapper_import_out`).
    pub fn process_wrapper_module_import(
        &self,
        stmt: Stmt,
        ctx: &ModuleTransformContext,
        symbol_renames: &RenameMap,
        body: &mut Vec<Stmt>,
    )
        ensures
            wrapper_import_out(
                *self,
                stmt,
                ctx.module_name@,
                ctx.importer_path@,
                rename_map_pairs(*symbol_renames),
                rename_map_entries(*symbol_renames),
                old(body)@,
                final(body)@,
            ),
    {
        if self.is_hoisted_import(&stmt) {
            return ;
        }
        let mut handled_inlined_import = false;
        if let Stmt::ImportFrom { module, level, .. } = &stmt {
            let resolved_module = self.resolve_relative_import_with_context(
                *level,
                module,
                ctx.module_name.as_str(),
                Some(ctx.importer_path.as_str()),
            );
            if let Some(resolved) = &resolved_module {
                handled_inlined_import = self.handle_inlined_module_import(
                    &stmt,
                    resolved.as_str(),
                    symbol_renames,
                    body,
                );
            }
        }
        if !handled_inlined_import {
            let ghost before = body@;
            let empty_renames = rename_map_new();
            proof {
                assert(rename_map_pairs(empty_renames) =~= Map::empty());
                assert(rename_map_entries(empty_renames) =~= Map::empty());
            }
            let attrs_source = match &stmt {
                Stmt::Import(names) => Stmt::Import(copy_aliases(names)),
                Stmt::ImportFrom { module, names, level } => Stmt::ImportFrom {
                    module: match module {
                        Some(m) => Some(m.clone()),
                        None => None,
                    },
                    names: copy_aliases(names),
                    level: *level,
                },
                _ => Stmt::Pass,
            };
            let ghost original = stmt;
            let transformed_stmts = self.rewrite_import_in_stmt_multiple_with_context(
                stmt,
                ctx.module_name.as_str(),
                &empty_renames,
            );
            let mut rest = transformed_stmts;
            let ghost added = rest@;
            let mut k: usize = 0;
            let n = rest.len();
            proof {
                assert(added.skip(0) =~= added);
                assert(body@.subrange(0, before.len() as int) =~= before);
            }
            while rest.len() > 0
                invariant
                    n == added.len(),
                    k <= n,
                    rest@ == added.skip(k as int),
                    body@.len() == before.len() + k,
                    body@.subrange(0, before.len() as int) == before,
                    body@.subrange(before.len() as int, body@.len() as int) == added.subrange(0, k as int),
                decreases rest.len(),
            {
                let s = rest.remove(0);
                proof {
                    assert(s == added[k as int]);
                    assert(added.skip(k + 1) =~= rest@);
                }
                let ghost b0 = body@;
                body.push(s);
                proof {
                    assert(body@.subrange(0, before.len() as int) =~= b0.subrange(0, before.len() as int));
                    assert(body@.subrange(before.len() as int, body@.len() as int) =~= added.subrange(0, k + 1));
                }
                k += 1;
            }
            let ghost mid = body@;
            proof {
                assert(added.subrange(0, n as int) =~= added);
            }
            self.add_imported_symbol_attributes(
                &attrs_source,
                ctx.module_name.as_str(),
                Some(ctx.importer_path.as_str()),
                body,
            );
            proof {
                assert(imported_symbol_attr_plan(*self, attrs_source, ctx.module_name@, Some(ctx.importer_path@))
                    == imported_symbol_attr_plan(*self, original, ctx.module_name@, Some(ctx.importer_path@)));
                assert(mid.len() >= before.len());
            }
        }
    }
}

/// Copies of the aliases `names`.
fn copy_aliases(names: &Vec<Alias>) -> (r: Vec<Alias>)
    ensures
        r@ == names@,
{
    let mut r: Vec<Alias> = Vec::new();
    let mut i: usize = 0;
    while i < names.len()
        invariant
            i <= names.len(),
            r@ == names@.subrange(0, i as int),
        decreases names.len() - i,
    {
        let a = Alias {
            name: names[i].name.clone(),
            asname: match &names[i].asname {
                Some(n) => Some(n.clone()),
                None => None,
            },
        };
        proof {
            assert(a == names@[i as int]);
        }
        r.push(a);
        proof {
            assert(r@ =~= names@.subrange(0, i + 1));
        }
        i += 1;
    }
    proof {
        assert(names@.subrange(0, names@.len() as int) =~= names@);
    }
    r
}

/// Whether the module's globals are lifted: its global info declares some.
pub open spec fn lifts_globals(gi: Option<ModuleGlobalInfo>) -> bool {
    gi matches Some(g) && g.global_declarations@.len() > 0
}

/// The module-level variables of `g` that its functions declare `global`.
pub open spec fn lifted_var_names(g: ModuleGlobalInfo) -> Seq<Seq<char>> {
    lifted_vars(views(g.module_level_vars@), name_set(g.global_declarations@))
}

/// Each lifted variable of `g` with its bundle-wide name.
pub open spec fn lifted_map(g: ModuleGlobalInfo) -> Map<Seq<char>, Seq<char>> {
    Map::new(|v: Seq<char>| lifted_var_names(g).contains(v), |v: Seq<char>| lifted_name(g.module_name@, v))
}

/// `global name`.
pub open spec fn is_global_decl(s: Stmt, name: Seq<char>) -> bool {
    s matches Stmt::Global(names) && names@.len() == 1 && names@[0]@ == name
}

/// `return module`.
pub open spec fn is_return_module(s: Stmt) -> bool {
    s matches Stmt::Return(Some(e)) && is_name(e, "module"@, ExprContext::Load)
}

/// For each lifted variable (original, lifted), in order: `global lifted`
/// then `lifted = original`.
pub open spec fn lifted_init_plan(pairs: Seq<(Seq<char>, Seq<char>)>) -> Seq<spec_fn(Stmt) -> bool>
    decreases pairs.len(),
{
    if pairs.len() == 0 {
        Seq::empty()
    } else {
        let p = pairs.last();
        lifted_init_plan(pairs.drop_last()) + seq![
            |s: Stmt| is_global_decl(s, p.1),
            |s: Stmt| is_reassignment(s, p.1, p.0),
        ]
    }
}

/// The start of an init function: the `sys.modules` check, the module
/// object, and its registration under the synthetic and the module name.
pub open spec fn init_header_plan(synthetic: Seq<char>, module: Seq<char>) -> Seq<spec_fn(Stmt) -> bool> {
    seq![
        |s: Stmt| is_module_exists_check(s, synthetic),
        |s: Stmt| assigns(s, |t: Expr| is_name(t, "module"@, ExprContext::Store), |e: Expr| is_module_type_call(e, synthetic)),
        |s: Stmt| assigns(s, |t: Expr| is_name_attr(t, "module"@, "__file__"@, ExprContext::Store), |e: Expr| is_file_or_none(e)),
        |s: Stmt| is_sys_modules_registration(s, synthetic),
        |s: Stmt| is_sys_modules_registration(s, module),
    ]
}

/// The end of an init function: the lifted globals set, `__all__` when the
/// module had one, and `return module`.
pub open spec fn init_trailer_plan(
    b: HybridStaticBundler,
    module: Seq<char>,
    pairs: Seq<(Seq<char>, Seq<char>)>,
) -> Seq<spec_fn(Stmt) -> bool> {
    lifted_init_plan(pairs) + (match exports_of(b.exports(), module) {
        Some(l) => seq![|s: Stmt| is_all_assignment(s, l)],
        None => Seq::empty(),
    }) + seq![|s: Stmt| is_return_module(s)]
}

/// What the top-level statement `stmt` of a wrapped module appends to the
/// init function's body (`before` to `after`): an import as
/// `wrapper_import_out` says; a class or function definition itself, then
/// its module attribute when exported; an assignment `x = x` nothing; any
/// other assignment itself, then the module attribute of the name it binds
/// when exported; any other statement itself.
pub open spec fn wrapper_stmt_out(
    b: HybridStaticBundler,
    module: Seq<char>,
    path: Seq<char>,
    orders: Map<Seq<char>, Seq<(Seq<char>, Seq<char>)>>,
    renames: Map<Seq<char>, Map<Seq<char>, Seq<char>>>,
    stmt: Stmt,
    before: Seq<Stmt>,
    after: Seq<Stmt>,
) -> bool {
    match stmt {
        Stmt::Import(_) => wrapper_import_out(b, stmt, module, path, orders, renames, before, after),
        Stmt::ImportFrom { .. } => wrapper_import_out(b, stmt, module, path, orders, renames, before, after),
        Stmt::ClassDef { name, .. } => appends(
            before,
            after,
            seq![|s: Stmt| s == stmt] + export_attr_plan(b, name@, module),
        ),
        Stmt::FunctionDef { name, .. } => appends(
            before,
            after,
            seq![|s: Stmt| s == stmt] + export_attr_plan(b, name@, module),
        ),
        Stmt::Assign { targets, value } => if self_referential(targets@, value) {
            after == before
        } else {
            appends(
                before,
                after,
                seq![|s: Stmt| s == stmt] + match simple_target(targets@) {
                    Some(n) => export_attr_plan(b, n, module),
                    None => Seq::empty(),
                },
            )
        },
        _ => appends(before, after, seq![|s: Stmt| s == stmt]),
    }
}

/// `raw` is the body of the init function of the wrapped module of `ctx`
/// whose statements (globals lifted) are `body`, before `globals()` calls
/// are rewritten: the header, what each statement appends in turn (see
/// `wrapper_stmt_out`), and the trailer with the lifted globals `pairs`.
pub open spec fn init_body(
    b: HybridStaticBundler,
    ctx: ModuleTransformContext,
    body: Seq<Stmt>,
    orders: Map<Seq<char>, Seq<(Seq<char>, Seq<char>)>>,
    renames: Map<Seq<char>, Map<Seq<char>, Seq<char>>>,
    pairs: Seq<(Seq<char>, Seq<char>)>,
    raw: Seq<Stmt>,
) -> bool {
    exists|outs: Seq<Seq<Stmt>>|
        {
            &&& #[trigger] outs.len() == body.len() + 1
            &&& appends(Seq::empty(), outs[0], init_header_plan(ctx.synthetic_name@, ctx.module_name@))
            &&& forall|i: int|
                0 <= i < body.len() ==> #[trigger] wrapper_stmt_out(
                    b,
                    ctx.module_name@,
                    ctx.importer_path@,
                    orders,
                    renames,
                    body[i],
                    outs[i],
                    outs[i + 1],
                )
            &&& appends(outs.last(), raw, init_trailer_plan(b, ctx.module_name@, pairs))
        }
}

/// `r` is the init function `name` of the module of `ctx` with the
/// statements `module_body` (see `init_body`): no parameters, its body with
/// `globals()` rewritten to the module's namespace.
pub open spec fn is_init_function(
    b: HybridStaticBundler,
    r: Stmt,
    ctx: ModuleTransformContext,
    module_body: Seq<Stmt>,
    orders: Map<Seq<char>, Seq<(Seq<char>, Seq<char>)>>,
    renames: Map<Seq<char>, Map<Seq<char>, Seq<char>>>,
) -> bool {
    r matches Stmt::FunctionDef { name, decorators, parameters, return_type, body } && {
        &&& name@ == b.init_function_names()[ctx.synthetic_name@]
        &&& decorators@.len() == 0
        &&& parameters.posonlyargs@.len() == 0 && parameters.args@.len() == 0 && parameters.vararg is None
            && parameters.kwonlyargs@.len() == 0 && parameters.kwarg is None
        &&& return_type is None
        &&& exists|lifted_body: Seq<Stmt>, pairs: Seq<(Seq<char>, Seq<char>)>, raw: Seq<Stmt>|
            {
                &&& #[trigger] init_body(b, ctx, lifted_body, orders, renames, pairs, raw)
                &&& if lifts_globals(ctx.global_info) {
                    let g = ctx.global_info->0;
                    &&& stmts_lifted(module_body, lifted_body, lifted_map(g), name_set(g.functions_using_globals@), None)
                    &&& pairs == lifted_pairs(lifted_var_names(g), g.module_name@)
                } else {
                    lifted_body == module_body && pairs.len() == 0
                }
                &&& body@.len() == raw.len()
                &&& forall|i: int| 0 <= i < raw.len() ==> #[trigger] stmt_globals_replaced(raw[i], body@[i])
            }
    }
}

impl HybridStaticBundler {
    /// Appends the statement `stmt` of the wrapped module of `ctx` to the
    /// init function's body (see `wrapper_stmt_out`).
    fn add_wrapper_stmt(&self, stmt: Stmt, ctx: &ModuleTransformContext, symbol_renames: &RenameMap, body: &mut Vec<Stmt>)
        ensures
            wrapper_stmt_out(
                *self,
                ctx.module_name@,
                ctx.importer_path@,
                rename_map_pairs(*symbol_renames),
                rename_map_entries(*symbol_renames),
                stmt,
                old(body)@,
                final(body)@,
            ),
    {
        proof {
            reveal_strlit("module");
        }
        let ghost start = body@;
        let ghost original = stmt;
        let ghost keep: spec_fn(Stmt) -> bool = |s: Stmt| s == original;
        match stmt {
            Stmt::Import(_) => {
                self.process_wrapper_module_import(stmt, ctx, symbol_renames, body);
            },
            Stmt::ImportFrom { .. } => {
                self.process_wrapper_module_import(stmt, ctx, symbol_renames, body);
            },
            Stmt::ClassDef { .. } | Stmt::FunctionDef { .. } => {
                let name = match &stmt {
                    Stmt::ClassDef { name, .. } => copy_string(name),
                    Stmt::FunctionDef { name, .. } => copy_string(name),
                    _ => to_string(""),
                };
                proof {
                    lemma_appends_push(body@, stmt, keep);
                }
                body.push(stmt);
                let ghost mid = body@;
                if self.should_export_symbol(name.as_str(), ctx.module_name.as_str()) {
                    let s = self.create_module_attr_assignment("module", name.as_str());
                    proof {
                        lemma_appends_push(body@, s, |s: Stmt| is_module_attr_assignment(s, "module"@, name@));
                    }
                    body.push(s);
                } else {
                    proof {
                        lemma_appends_none(body@);
                    }
                }
                proof {
                    lemma_appends_trans(start, mid, body@, seq![keep], export_attr_plan(*self, name@, ctx.module_name@));
                }
            },
            Stmt::Assign { .. } => {
                let skip = match &stmt {
                    Stmt::Assign { targets, value } => self.is_self_referential_assignment(targets, value),
                    _ => false,
                };
                if !skip {
                    let attrs_target = match &stmt {
                        Stmt::Assign { targets, .. } => self.extract_simple_assign_target(targets),
                        _ => None,
                    };
                    proof {
                        lemma_appends_push(body@, stmt, keep);
                    }
                    body.push(stmt);
                    let ghost mid = body@;
                    proof {
                        lemma_appends_none(body@);
                    }
                    if let Some(name) = attrs_target {
                        if self.should_export_symbol(name.as_str(), ctx.module_name.as_str()) {
                            let s = self.create_module_attr_assignment("module", name.as_str());
                            proof {
                                lemma_appends_push(body@, s, |s: Stmt| is_module_attr_assignment(s, "module"@, name@));
                            }
                            body.push(s);
                        }
                    }
                    proof {
                        let second = match simple_target(original->Assign_targets@) {
                            Some(n) => export_attr_plan(*self, n, ctx.module_name@),
                            None => Seq::empty(),
                        };
                        lemma_appends_trans(start, mid, body@, seq![keep], second);
                    }
                }
            },
            _ => {
                proof {
                    lemma_appends_push(body@, stmt, keep);
                }
                body.push(stmt);
            },
        }
    }

    /// The init function of the wrapped module of `ctx` (see
    /// `is_init_function`): it returns the module object, registered in
    /// `sys.modules`, after running the module's statements.
    pub fn transform_module_to_init_function(
        &self,
        ctx: ModuleTransformContext,
        ast: ModModule,
        symbol_renames: &RenameMap,
    ) -> (r: Stmt)
        requires
            self.init_function_names().contains_key(ctx.synthetic_name@),
        ensures
            is_init_function(
                *self,
                r,
                ctx,
                ast.body@,
                rename_map_pairs(*symbol_renames),
                rename_map_entries(*symbol_renames),
            ),
    {
        let ghost orders = rename_map_pairs(*symbol_renames);
        let ghost renames = rename_map_entries(*symbol_renames);
        let ghost module_body = ast.body@;
        let init_func_name = match self.init_function_of(ctx.synthetic_name.as_str()) {
            Some(n) => copy_string(n),
            None => to_string(""),
        };
        let mut body: Vec<Stmt> = Vec::new();
        // The header.
        let ghost hp = init_header_plan(ctx.synthetic_name@, ctx.module_name@);
        body.push(self.create_module_exists_check(ctx.synthetic_name.as_str()));
        let mut object = self.create_module_object_stmt(ctx.synthetic_name.as_str(), ctx.importer_path.as_str());
        let o0 = object.remove(0);
        let o1 = object.remove(0);
        body.push(o0);
        body.push(o1);
        body.push(self.create_sys_modules_registration(ctx.synthetic_name.as_str()));
        body.push(self.create_sys_modules_registration_alias(ctx.synthetic_name.as_str(), ctx.module_name.as_str()));
        proof {
            reveal_strlit("module");
            reveal_strlit("__file__");
            assert(body@.subrange(0, 0) =~= Seq::<Stmt>::empty());
            assert((hp[0])(body@[0]));
            assert((hp[1])(body@[1]));
            assert((hp[2])(body@[2]));
            assert((hp[3])(body@[3]));
            assert((hp[4])(body@[4]));
            assert(appends(Seq::empty(), body@, hp));
        }
        // The module's statements, with their globals lifted when they declare some.
        let mut lifted_entries: Vec<(String, String)> = Vec::new();
        let ghost mut lifted_body: Seq<Stmt> = module_body;
        let statements = match &ctx.global_info {
            Some(gi) => if gi.global_declarations.len() > 0 {
                let lifter = GlobalsLifter::new(gi);
                let lifted_names = lifter.get_lifted_names();
                lifted_entries = name_map_to_vec(lifted_names);
                proof {
                    assert(name_map_entries(*lifted_names) =~= lifted_map(*gi));
                }
                let m = self.transform_ast_with_lifted_globals(ast, lifted_names, gi);
                proof {
                    lifted_body = m.body@;
                }
                m.body
            } else {
                ast.body
            },
            None => ast.body,
        };
        let ghost pairs = pair_views(lifted_entries@);
        proof {
            if !lifts_globals(ctx.global_info) {
                assert(pairs =~= Seq::<(Seq<char>, Seq<char>)>::empty());
            }
        }
        let ghost mut outs: Seq<Seq<Stmt>> = seq![body@];
        let mut rest = statements;
        let ghost stmts = rest@;
        proof {
            assert(stmts == lifted_body);
            assert(stmts.skip(0) =~= stmts);
        }
        let n = rest.len();
        let mut k: usize = 0;
        while rest.len() > 0
            invariant
                n == stmts.len(),
                k <= n,
                rest@ == stmts.skip(k as int),
                outs.len() == k + 1,
                outs.last() == body@,
                appends(Seq::empty(), outs[0], hp),
                hp == init_header_plan(ctx.synthetic_name@, ctx.module_name@),
                orders == rename_map_pairs(*symbol_renames),
                renames == rename_map_entries(*symbol_renames),
                forall|i: int|
                    0 <= i < k ==> #[trigger] wrapper_stmt_out(
                        *self,
                        ctx.module_name@,
                        ctx.importer_path@,
                        orders,
                        renames,
                        stmts[i],
                        outs[i],
                        outs[i + 1],
                    ),
            decreases rest.len(),
        {
            let stmt = rest.remove(0);
            proof {
                assert(stmt == stmts[k as int]);
                assert(stmts.skip(k + 1) =~= rest@);
            }
            self.add_wrapper_stmt(stmt, &ctx, symbol_renames, &mut body);
            proof {
                outs = outs.push(body@);
            }
            k += 1;
        }
        // The trailer.
        let ghost content_end = body@;
        proof {
            lemma_appends_none(body@);
            assert(pairs.subrange(0, 0) =~= Seq::<(Seq<char>, Seq<char>)>::empty());
        }
        let mut j: usize = 0;
        while j < lifted_entries.len()
            invariant
                j <= lifted_entries.len(),
                pairs == pair_views(lifted_entries@),
                appends(content_end, body@, lifted_init_plan(pairs.subrange(0, j as int))),
            decreases lifted_entries.len() - j,
        {
            let ghost before = body@;
            let mut names: Vec<String> = Vec::new();
            names.push(copy_string(&lifted_entries[j].1));
            let g = Stmt::Global(names);
            let a = self.create_reassignment(lifted_entries[j].1.as_str(), lifted_entries[j].0.as_str());
            let ghost p = pairs[j as int];
            proof {
                assert(p == (lifted_entries@[j as int].0@, lifted_entries@[j as int].1@));
                lemma_appends_push(body@, g, |s: Stmt| is_global_decl(s, p.1));
            }
            body.push(g);
            let ghost mid = body@;
            proof {
                lemma_appends_push(body@, a, |s: Stmt| is_reassignment(s, p.1, p.0));
            }
            body.push(a);
            proof {
                lemma_appends_trans(before, mid, body@, seq![|s: Stmt| is_global_decl(s, p.1)], seq![|s: Stmt| is_reassignment(s, p.1, p.0)]);
                lemma_appends_trans(
                    content_end,
                    before,
                    body@,
                    lifted_init_plan(pairs.subrange(0, j as int)),
                    seq![|s: Stmt| is_global_decl(s, p.1)] + seq![|s: Stmt| is_reassignment(s, p.1, p.0)],
                );
                let t = pairs.subrange(0, j + 1);
                assert(t.drop_last() =~= pairs.subrange(0, j as int));
                assert(t.last() == p);
                assert(seq![|s: Stmt| is_global_decl(s, p.1)] + seq![|s: Stmt| is_reassignment(s, p.1, p.0)]
                    =~= seq![|s: Stmt| is_global_decl(s, p.1), |s: Stmt| is_reassignment(s, p.1, p.0)]);
            }
            j += 1;
        }
        proof {
            assert(pairs.subrange(0, lifted_entries@.len() as int) =~= pairs);
        }
        let ghost lifted_end = body@;
        let ghost all_plan: Seq<spec_fn(Stmt) -> bool> = match exports_of(self.exports(), ctx.module_name@) {
            Some(l) => seq![|s: Stmt| is_all_assignment(s, l)],
            None => Seq::empty(),
        };
        if self.recorded_exports(ctx.module_name.as_str()).is_some() {
            let s = self.create_all_assignment_for_module(ctx.module_name.as_str());
            proof {
                lemma_appends_push(body@, s, all_plan[0]);
                assert(all_plan =~= seq![all_plan[0]]);
            }
            body.push(s);
        } else {
            proof {
                lemma_appends_none(body@);
                assert(all_plan =~= Seq::<spec_fn(Stmt) -> bool>::empty());
            }
        }
        let ghost all_end = body@;
        let ret = Stmt::Return(Some(Expr::Name { id: to_string("module"), ctx: ExprContext::Load }));
        proof {
            lemma_appends_push(body@, ret, |s: Stmt| is_return_module(s));
        }
        body.push(ret);
        let ghost raw = body@;
        proof {
            lemma_appends_trans(content_end, lifted_end, all_end, lifted_init_plan(pairs), all_plan);
            lemma_appends_trans(
                content_end,
                all_end,
                raw,
                lifted_init_plan(pairs) + all_plan,
                seq![|s: Stmt| is_return_module(s)],
            );
            assert(init_body(*self, ctx, stmts, orders, renames, pairs, raw));
        }
        // `globals()` becomes the module's namespace.
        let mut rest = body;
        let mut final_body: Vec<Stmt> = Vec::new();
        let m = rest.len();
        let mut i: usize = 0;
        proof {
            assert(raw.skip(0) =~= raw);
        }
        while rest.len() > 0
            invariant
                m == raw.len(),
                i <= m,
                rest@ == raw.skip(i as int),
                final_body@.len() == i,
                forall|t: int| 0 <= t < i ==> #[trigger] stmt_globals_replaced(raw[t], final_body@[t]),
            decreases rest.len(),
        {
            let s = rest.remove(0);
            proof {
                assert(s == raw[i as int]);
                assert(raw.skip(i + 1) =~= rest@);
            }
            final_body.push(transform_globals_in_stmt(s));
            i += 1;
        }
        let parameters = Parameters {
            posonlyargs: Vec::new(),
            args: Vec::new(),
            vararg: None,
            kwonlyargs: Vec::new(),
            kwarg: None,
        };
        let r = Stmt::FunctionDef {
            name: init_func_name,
            decorators: Vec::new(),
            parameters,
            return_type: None,
            body: final_body,
        };
        proof {
            assert(init_body(*self, ctx, lifted_body, orders, renames, pairs, raw));
        }
        r
    }
}

} // verus!
