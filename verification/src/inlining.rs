//! Inlining a module's definitions into the bundle: which of its names the
//! bundle takes, the names they take there, and the aliases its imports bind.
use vstd::prelude::*;

use indexmap::IndexSet;

use crate::alias_rewrite::{alias_rewritten, renamed, stmt_alias_rewritten};
use crate::ast::{alias_local_name, local_name, Expr, ModModule, Parameter, Parameters, Stmt};
use crate::code_generator::{relative_import_target, unique_name, HybridStaticBundler};
use crate::collections::{
    export_map_entries, export_map_get, index_set_insert, index_set_items, name_map_entries,
    name_map_get, name_map_insert, name_map_is_empty, name_map_new, name_map_pairs,
    rename_map_entries, rename_map_get, rename_map_insert, rename_map_pairs, ExportMap, NameMap,
    RenameMap,
};
use crate::import_aliases::{import_aliases_resolved, stmt_import_aliases_resolved};
use crate::orchestrator::push_unique;
use crate::symbols::simple_target;
use crate::text::{contains_name, copy_string, has_prefix, starts_with, str_eq, to_string, views};

verus! {

/// What inlining the modules of a bundle carries from one module to the
/// next: the `__all__` list of each module (if it has one), the names
/// defined at the bundle's top level so far, the renames the semantic
/// analysis chose for each module, the statements inlined so far, and the
/// aliases the imports of the module being inlined bind (local name to the
/// name it stands for).
pub struct InlineContext {
    pub module_exports_map: ExportMap,
    pub global_symbols: IndexSet<String>,
    pub module_renames: RenameMap,
    pub inlined_stmts: Vec<Stmt>,
    pub import_aliases: NameMap,
}

impl InlineContext {
    /// The `__all__` lists, by module (`None` for a module without one).
    pub open spec fn exports(self) -> Map<Seq<char>, Option<Seq<Seq<char>>>> {
        export_map_entries(self.module_exports_map)
    }

    /// The names defined at the bundle's top level, in order.
    pub open spec fn globals(self) -> Seq<Seq<char>> {
        index_set_items(self.global_symbols)
    }

    /// The renames of each module's names.
    pub open spec fn renames(self) -> Map<Seq<char>, Map<Seq<char>, Seq<char>>> {
        rename_map_entries(self.module_renames)
    }

    /// The aliases the imports of the module being inlined bind.
    pub open spec fn aliases(self) -> Map<Seq<char>, Seq<char>> {
        name_map_entries(self.import_aliases)
    }
}

/// Whether the bundle takes a module-level definition of `symbol` from
/// `module`: when the module has an `__all__` list, if the list names it;
/// else if the name is not private (no leading underscore).
pub open spec fn inlines_symbol(
    exports: Map<Seq<char>, Option<Seq<Seq<char>>>>,
    symbol: Seq<char>,
    module: Seq<char>,
) -> bool {
    if exports.contains_key(module) && exports[module] is Some {
        exports[module]->0.contains(symbol)
    } else {
        !has_prefix(symbol, "_"@)
    }
}

/// The name a definition of `name` in `module` takes in the bundle: the one
/// the semantic analysis chose for it, else its own.
pub open spec fn semantic_name(
    renames: Map<Seq<char>, Map<Seq<char>, Seq<char>>>,
    module: Seq<char>,
    name: Seq<char>,
) -> Seq<char> {
    if renames.contains_key(module) {
        renamed(name, renames[module])
    } else {
        name
    }
}

/// The name by which the bundle knows `imported` of `module`: for an
/// inlined module whose renames are known, its rename there (or its own
/// name); for an inlined module whose renames are not known yet,
/// `module:imported`, to be resolved once they are; for any other module,
/// its own name.
pub open spec fn actual_import_name(
    inlined: Seq<Seq<char>>,
    renames: Map<Seq<char>, Map<Seq<char>, Seq<char>>>,
    module: Seq<char>,
    imported: Seq<char>,
) -> Seq<char> {
    if inlined.contains(module) {
        if renames.contains_key(module) {
            renamed(imported, renames[module])
        } else {
            module + ":"@ + imported
        }
    } else {
        imported
    }
}

/// The aliases `m` with those an import of `names` from `module` binds: a
/// name bound under another name, or any name of an inlined module, is
/// recorded with the name the bundle knows it by.
pub open spec fn tracked_aliases(
    m: Map<Seq<char>, Seq<char>>,
    names: Seq<crate::ast::Alias>,
    module: Seq<char>,
    inlined: Seq<Seq<char>>,
    renames: Map<Seq<char>, Map<Seq<char>, Seq<char>>>,
) -> Map<Seq<char>, Seq<char>>
    decreases names.len(),
{
    if names.len() == 0 {
        m
    } else {
        let prev = tracked_aliases(m, names.drop_last(), module, inlined, renames);
        let a = names.last();
        if alias_local_name(a) != a.name@ || inlined.contains(module) {
            prev.insert(alias_local_name(a), actual_import_name(inlined, renames, module, a.name@))
        } else {
            prev
        }
    }
}

/// The aliases `aliases` with those the `from` import `import_from` of
/// `module` (whose file is `path`) binds, when the module it imports from
/// can be resolved (see `tracked_aliases`).
pub open spec fn aliases_after_import(
    b: HybridStaticBundler,
    import_from: Stmt,
    module: Seq<char>,
    path: Seq<char>,
    aliases: Map<Seq<char>, Seq<char>>,
    renames: Map<Seq<char>, Map<Seq<char>, Seq<char>>>,
) -> Map<Seq<char>, Seq<char>> {
    match import_from {
        Stmt::ImportFrom { module: m, names, level } => match relative_import_target(
            b.bundled(),
            level,
            match m {
                Some(x) => Some(x@),
                None => None,
            },
            module,
            Some(path),
        ) {
            Some(resolved) => tracked_aliases(aliases, names@, resolved, b.inlined(), renames),
            None => aliases,
        },
        _ => aliases,
    }
}

/// `b` is the expression `a` inlined: its import aliases resolved by
/// `aliases`, then its names rewritten by `renames`.
pub open spec fn expr_inlined(
    a: Expr,
    b: Expr,
    aliases: Map<Seq<char>, Seq<char>>,
    renames: Map<Seq<char>, Seq<char>>,
) -> bool {
    exists|mid: Expr| #[trigger]
        import_aliases_resolved(a, mid, aliases) && alias_rewritten(mid, b, renames)
}

/// `b` is the statement `a` inlined: its import aliases resolved by
/// `aliases`, then its names rewritten by `renames`.
pub open spec fn stmt_inlined(
    a: Stmt,
    b: Stmt,
    aliases: Map<Seq<char>, Seq<char>>,
    renames: Map<Seq<char>, Seq<char>>,
) -> bool {
    exists|mid: Stmt| #[trigger]
        stmt_import_aliases_resolved(a, mid, aliases) && stmt_alias_rewritten(mid, b, renames)
}

/// `b` is the body `a` inlined statement by statement.
pub open spec fn stmts_inlined(
    a: Seq<Stmt>,
    b: Seq<Stmt>,
    aliases: Map<Seq<char>, Seq<char>>,
    renames: Map<Seq<char>, Seq<char>>,
) -> bool {
    a.len() == b.len() && forall|i: int|
        0 <= i < a.len() ==> #[trigger] stmt_inlined(a[i], b[i], aliases, renames)
}

/// Inlining a definition of `name` that takes `new_name` in the bundle:
/// the module's renames record `name` as `new_name` when they differ, the
/// bundle's top-level names gain `new_name`, one statement is appended to
/// the inlined ones, and the rest of the context stays as it was.
pub open spec fn inlined_definition(
    before: InlineContext,
    after: InlineContext,
    renames_before: Map<Seq<char>, Seq<char>>,
    renames_after: Map<Seq<char>, Seq<char>>,
    name: Seq<char>,
    new_name: Seq<char>,
) -> bool {
    &&& renames_after == if new_name != name {
        renames_before.insert(name, new_name)
    } else {
        renames_before
    }
    &&& after.globals() == push_unique(before.globals(), new_name)
    &&& after.inlined_stmts@.len() == before.inlined_stmts@.len() + 1
    &&& after.inlined_stmts@.drop_last() == before.inlined_stmts@
    &&& after.exports() == before.exports()
    &&& after.renames() == before.renames()
    &&& after.aliases() == before.aliases()
}

/// `s` is the class definition `class_def` under the name `new_name`, its
/// body inlined with `aliases` and `renames`.
pub open spec fn is_inlined_class(
    s: Stmt,
    class_def: Stmt,
    new_name: Seq<char>,
    aliases: Map<Seq<char>, Seq<char>>,
    renames: Map<Seq<char>, Seq<char>>,
) -> bool {
    match class_def {
        Stmt::ClassDef { decorators, bases, keywords, body, .. } => match s {
            Stmt::ClassDef { name: n2, decorators: d2, bases: b2, keywords: k2, body: body2 } => n2@
                == new_name && d2 == decorators && b2 == bases && k2 == keywords && stmts_inlined(
                body@,
                body2@,
                aliases,
                renames,
            ),
            _ => false,
        },
        _ => false,
    }
}

/// `s` is the assignment `assign` with its one target renamed to
/// `new_name`, its value inlined with `aliases` and `renames`.
pub open spec fn is_inlined_assignment(
    s: Stmt,
    assign: Stmt,
    new_name: Seq<char>,
    aliases: Map<Seq<char>, Seq<char>>,
    renames: Map<Seq<char>, Seq<char>>,
) -> bool {
    match assign {
        Stmt::Assign { targets, value } => match s {
            Stmt::Assign { targets: t2, value: v2 } => t2@.len() == 1 && targets@.len() == 1 && (
            t2@[0] matches Expr::Name { id, ctx } && id@ == new_name && (targets@[0] matches Expr::Name {
                ctx: c0,
                ..
            } && c0 == ctx)) && expr_inlined(value, v2, aliases, renames),
            _ => false,
        },
        _ => false,
    }
}

/// `s` is the annotated assignment `ann_assign` with its target renamed to
/// `new_name`, the rest unchanged.
pub open spec fn is_renamed_ann_assignment(s: Stmt, ann_assign: Stmt, new_name: Seq<char>) -> bool {
    match ann_assign {
        Stmt::AnnAssign { target, annotation, value } => match s {
            Stmt::AnnAssign { target: t2, annotation: a2, value: v2 } => a2 == annotation && v2 == value
                && (t2 matches Expr::Name { id, ctx } && id@ == new_name && (target matches Expr::Name {
                ctx: c0,
                ..
            } && c0 == ctx)),
            _ => false,
        },
        _ => false,
    }
}

impl HybridStaticBundler {
    /// Whether the bundle takes a module-level definition of `symbol_name`
    /// from `module_name` (see `inlines_symbol`).
    pub fn should_inline_symbol(
        &self,
        symbol_name: &str,
        module_name: &str,
        module_exports_map: &ExportMap,
    ) -> (r: bool)
        ensures
            r == inlines_symbol(export_map_entries(*module_exports_map), symbol_name@, module_name@),
    {
        proof {
            reveal_strlit("_");
        }
        match export_map_get(module_exports_map, module_name) {
            Some(Some(exports)) => {
                let r = contains_name(exports, symbol_name);
                proof {
                    assert(views(exports@).to_set().contains(symbol_name@) == views(exports@).contains(
                        symbol_name@,
                    ));
                }
                r
            },
            _ => !starts_with(symbol_name, "_"),
        }
    }

    /// A name for `base_name` that no symbol in `existing_symbols` has.
    pub fn get_unique_name(&self, base_name: &str, existing_symbols: &IndexSet<String>) -> (r: String)
        ensures
            r@ == unique_name(base_name@, index_set_items(*existing_symbols)),
    {
        self.generate_unique_name(base_name, existing_symbols)
    }

    /// The name by which the bundle knows `imported_name` of
    /// `resolved_module` (see `actual_import_name`).
    pub fn get_actual_import_name(
        &self,
        resolved_module: &str,
        imported_name: &str,
        ctx: &InlineContext,
    ) -> (r: String)
        ensures
            r@ == actual_import_name(self.inlined(), ctx.renames(), resolved_module@, imported_name@),
    {
        if self.is_inlined(resolved_module) {
            match rename_map_get(&ctx.module_renames, resolved_module) {
                Some(source_renames) => match name_map_get(source_renames, imported_name) {
                    Some(n) => copy_string(n),
                    None => to_string(imported_name),
                },
                None => {
                    proof {
                        reveal_strlit(":");
                    }
                    let mut r = to_string(resolved_module);
                    r.append(":");
                    r.append(imported_name);
                    r
                },
            }
        } else {
            to_string(imported_name)
        }
    }

    /// Records the aliases the `from` import `import_from` of `module_name`
    /// (whose file is `importer_path`) binds, when the module it imports from
    /// can be resolved (see `tracked_aliases`).
    pub fn track_import_aliases(
        &self,
        import_from: &Stmt,
        module_name: &str,
        importer_path: &str,
        ctx: &mut InlineContext,
    )
        requires
            import_from is ImportFrom,
        ensures
            final(ctx).aliases() == aliases_after_import(
                *self,
                *import_from,
                module_name@,
                importer_path@,
                old(ctx).aliases(),
                old(ctx).renames(),
            ),
            final(ctx).exports() == old(ctx).exports(),
            final(ctx).globals() == old(ctx).globals(),
            final(ctx).renames() == old(ctx).renames(),
            final(ctx).inlined_stmts == old(ctx).inlined_stmts,
    {
        let (module, names, level) = match import_from {
            Stmt::ImportFrom { module, names, level } => (module, names, *level),
            _ => {
                return ;
            },
        };
        let resolved = match self.resolve_relative_import_with_context(
            level,
            module,
            module_name,
            Some(importer_path),
        ) {
            Some(r) => r,
            None => {
                return ;
            },
        };
        let ghost start = ctx.aliases();
        let ghost renames = ctx.renames();
        let mut i: usize = 0;
        while i < names.len()
            invariant
                i <= names.len(),
                ctx.aliases() == tracked_aliases(
                    start,
                    names@.subrange(0, i as int),
                    resolved@,
                    self.inlined(),
                    renames,
                ),
                ctx.renames() == renames,
                ctx.exports() == old(ctx).exports(),
                ctx.globals() == old(ctx).globals(),
                ctx.inlined_stmts == old(ctx).inlined_stmts,
            decreases names.len() - i,
        {
            let alias = &names[i];
            let imported_name = alias.name.as_str();
            let local = local_name(alias);
            let actual_name = self.get_actual_import_name(resolved.as_str(), imported_name, ctx);
            proof {
                assert(names@.subrange(0, i + 1).drop_last() =~= names@.subrange(0, i as int));
                assert(names@.subrange(0, i + 1).last() == names@[i as int]);
            }
            if !str_eq(local.as_str(), imported_name) || self.is_inlined(resolved.as_str()) {
                name_map_insert(&mut ctx.import_aliases, copy_string(local), actual_name);
            }
            i += 1;
        }
        proof {
            assert(names@.subrange(0, names@.len() as int) =~= names@);
        }
    }

    /// Inlines the class definition `class_def` of `module_name` when the
    /// bundle takes it: under the name the semantic analysis chose, with its
    /// body's import aliases resolved and names rewritten by the module's
    /// renames (which then record the class's new name).
    pub fn inline_class(
        &self,
        class_def: Stmt,
        module_name: &str,
        module_renames: &mut NameMap,
        ctx: &mut InlineContext,
    )
        requires
            class_def is ClassDef,
        ensures
            match class_def {
                Stmt::ClassDef { name, .. } => if inlines_symbol(old(ctx).exports(), name@, module_name@) {
                    let new_name = semantic_name(old(ctx).renames(), module_name@, name@);
                    &&& inlined_definition(
                        *old(ctx),
                        *final(ctx),
                        name_map_entries(*old(module_renames)),
                        name_map_entries(*final(module_renames)),
                        name@,
                        new_name,
                    )
                    &&& is_inlined_class(
                        final(ctx).inlined_stmts@.last(),
                        class_def,
                        new_name,
                        old(ctx).aliases(),
                        name_map_entries(*final(module_renames)),
                    )
                } else {
                    *final(ctx) == *old(ctx) && *final(module_renames) == *old(module_renames)
                },
                _ => true,
            },
    {
        let ghost original = class_def;
        match class_def {
            Stmt::ClassDef { name, decorators, bases, keywords, body } => {
                if !self.should_inline_symbol(name.as_str(), module_name, &ctx.module_exports_map) {
                    return ;
                }
                let renamed_name = match rename_map_get(&ctx.module_renames, module_name) {
                    Some(module_rename_map) => match name_map_get(module_rename_map, name.as_str()) {
                        Some(new_name) => copy_string(new_name),
                        None => copy_string(&name),
                    },
                    None => copy_string(&name),
                };
                if !str_eq(renamed_name.as_str(), name.as_str()) {
                    name_map_insert(module_renames, copy_string(&name), copy_string(&renamed_name));
                }
                let _ = index_set_insert(&mut ctx.global_symbols, copy_string(&renamed_name));
                let ghost aliases = ctx.aliases();
                let ghost renames = name_map_entries(*module_renames);
                let mut rest = body;
                let mut new_body: Vec<Stmt> = Vec::new();
                let ghost orig_body = rest@;
                let mut k: usize = 0;
                let n = rest.len();
                proof {
                    assert(orig_body.skip(0) =~= orig_body);
                }
                while rest.len() > 0
                    invariant
                        n == orig_body.len(),
                        k <= orig_body.len(),
                        rest@ == orig_body.skip(k as int),
                        new_body@.len() == k,
                        forall|j: int|
                            0 <= j < k ==> #[trigger] stmt_inlined(
                                orig_body[j],
                                new_body@[j],
                                aliases,
                                renames,
                            ),
                        aliases == name_map_entries(ctx.import_aliases),
                        renames == name_map_entries(*module_renames),
                    decreases rest.len(),
                {
                    let stmt = rest.remove(0);
                    proof {
                        assert(stmt == orig_body[k as int]);
                    }
                    let resolved = self.resolve_import_aliases_in_stmt(stmt, &ctx.import_aliases);
                    let rewritten = self.rewrite_aliases_in_stmt(resolved, module_renames);
                    proof {
                        assert(stmt_import_aliases_resolved(orig_body[k as int], resolved, aliases));
                        assert(orig_body.skip(k + 1) =~= rest@);
                    }
                    new_body.push(rewritten);
                    k += 1;
                }
                let s = Stmt::ClassDef { name: renamed_name, decorators, bases, keywords, body: new_body };
                ctx.inlined_stmts.push(s);
                proof {
                    assert(ctx.inlined_stmts@.drop_last() =~= old(ctx).inlined_stmts@);
                }
            },
            _ => {},
        }
    }

    /// Inlines the assignment `assign` of `module_name` when it binds one
    /// name and the bundle takes it: its value's import aliases resolved and
    /// names rewritten by the module's renames, then its target renamed to
    /// the name the semantic analysis chose (which the renames then record).
    pub fn inline_assignment(
        &self,
        assign: Stmt,
        module_name: &str,
        module_renames: &mut NameMap,
        ctx: &mut InlineContext,
    )
        requires
            assign is Assign,
        ensures
            match assign {
                Stmt::Assign { targets, .. } => match simple_target(targets@) {
                    Some(name) => if inlines_symbol(old(ctx).exports(), name, module_name@) {
                        let new_name = semantic_name(old(ctx).renames(), module_name@, name);
                        &&& inlined_definition(
                            *old(ctx),
                            *final(ctx),
                            name_map_entries(*old(module_renames)),
                            name_map_entries(*final(module_renames)),
                            name,
                            new_name,
                        )
                        &&& is_inlined_assignment(
                            final(ctx).inlined_stmts@.last(),
                            assign,
                            new_name,
                            old(ctx).aliases(),
                            name_map_entries(*old(module_renames)),
                        )
                    } else {
                        *final(ctx) == *old(ctx) && *final(module_renames) == *old(module_renames)
                    },
                    None => *final(ctx) == *old(ctx) && *final(module_renames) == *old(
                        module_renames,
                    ),
                },
                _ => true,
            },
    {
        let ghost original = assign;
        match assign {
            Stmt::Assign { targets, value } => {
                let name = match self.extract_simple_assign_target(&targets) {
                    Some(n) => n,
                    None => {
                        return ;
                    },
                };
                if !self.should_inline_symbol(name.as_str(), module_name, &ctx.module_exports_map) {
                    return ;
                }
                let ghost aliases = ctx.aliases();
                let ghost renames_before = name_map_entries(*module_renames);
                let resolved = self.resolve_import_aliases_in_expr(value, &ctx.import_aliases);
                let new_value = self.rewrite_aliases_in_expr(resolved, module_renames);
                proof {
                    assert(import_aliases_resolved(original->Assign_value, resolved, aliases));
                }
                let renamed_name = match rename_map_get(&ctx.module_renames, module_name) {
                    Some(module_rename_map) => match name_map_get(module_rename_map, name.as_str()) {
                        Some(new_name) => copy_string(new_name),
                        None => copy_string(&name),
                    },
                    None => copy_string(&name),
                };
                if !str_eq(renamed_name.as_str(), name.as_str()) {
                    name_map_insert(module_renames, copy_string(&name), copy_string(&renamed_name));
                }
                let _ = index_set_insert(&mut ctx.global_symbols, copy_string(&renamed_name));
                let target_ctx = match &targets[0] {
                    Expr::Name { ctx: c, .. } => *c,
                    _ => {
                        return ;
                    },
                };
                let mut new_targets: Vec<Expr> = Vec::new();
                new_targets.push(Expr::Name { id: renamed_name, ctx: target_ctx });
                ctx.inlined_stmts.push(Stmt::Assign { targets: new_targets, value: new_value });
                proof {
                    assert(ctx.inlined_stmts@.drop_last() =~= old(ctx).inlined_stmts@);
                }
            },
            _ => {},
        }
    }

    /// Inlines the annotated assignment `ann_assign` of `module_name` when
    /// its target is a name the bundle takes: renamed, when a top-level name
    /// of the bundle already has it, to a fresh one (which the module's
    /// renames then record).
    pub fn inline_ann_assignment(
        &self,
        ann_assign: Stmt,
        module_name: &str,
        module_renames: &mut NameMap,
        ctx: &mut InlineContext,
    )
        requires
            ann_assign is AnnAssign,
        ensures
            match ann_assign {
                Stmt::AnnAssign { target: Expr::Name { id, .. }, .. } => if inlines_symbol(
                    old(ctx).exports(),
                    id@,
                    module_name@,
                ) {
                    let new_name = unique_name(id@, old(ctx).globals());
                    &&& inlined_definition(
                        *old(ctx),
                        *final(ctx),
                        name_map_entries(*old(module_renames)),
                        name_map_entries(*final(module_renames)),
                        id@,
                        new_name,
                    )
                    &&& is_renamed_ann_assignment(final(ctx).inlined_stmts@.last(), ann_assign, new_name)
                } else {
                    *final(ctx) == *old(ctx) && *final(module_renames) == *old(module_renames)
                },
                _ => *final(ctx) == *old(ctx) && *final(module_renames) == *old(module_renames),
            },
    {
        match ann_assign {
            Stmt::AnnAssign { target: Expr::Name { id, ctx: target_ctx }, annotation, value } => {
                if !self.should_inline_symbol(id.as_str(), module_name, &ctx.module_exports_map) {
                    return ;
                }
                let renamed_name = self.get_unique_name(id.as_str(), &ctx.global_symbols);
                if !str_eq(renamed_name.as_str(), id.as_str()) {
                    name_map_insert(module_renames, copy_string(&id), copy_string(&renamed_name));
                }
                let _ = index_set_insert(&mut ctx.global_symbols, copy_string(&renamed_name));
                let target = Expr::Name { id: renamed_name, ctx: target_ctx };
                ctx.inlined_stmts.push(Stmt::AnnAssign { target, annotation, value });
                proof {
                    assert(ctx.inlined_stmts@.drop_last() =~= old(ctx).inlined_stmts@);
                }
            },
            _ => {},
        }
    }
}

/// `b` is the optional expression `a` inlined.
pub open spec fn opt_expr_inlined(
    a: Option<Expr>,
    b: Option<Expr>,
    aliases: Map<Seq<char>, Seq<char>>,
    renames: Map<Seq<char>, Seq<char>>,
) -> bool {
    match a {
        Some(x) => b matches Some(y) && expr_inlined(x, y, aliases, renames),
        None => b is None,
    }
}

/// `b` is the parameter `a` with its annotation inlined.
pub open spec fn param_inlined(
    a: Parameter,
    b: Parameter,
    aliases: Map<Seq<char>, Seq<char>>,
    renames: Map<Seq<char>, Seq<char>>,
) -> bool {
    b.name == a.name && b.default == a.default && opt_expr_inlined(a.annotation, b.annotation, aliases, renames)
}

/// `b` is the statement `a` of a function body inlined, then rewritten by
/// the semantic renames of its module when it has some.
pub open spec fn function_stmt_inlined(
    a: Stmt,
    b: Stmt,
    aliases: Map<Seq<char>, Seq<char>>,
    renames: Map<Seq<char>, Seq<char>>,
    semantic: Option<Map<Seq<char>, Seq<char>>>,
) -> bool {
    match semantic {
        Some(m) => exists|mid: Stmt| #[trigger]
            stmt_inlined(a, mid, aliases, renames) && stmt_alias_rewritten(mid, b, m),
        None => stmt_inlined(a, b, aliases, renames),
    }
}

/// The semantic renames of `module`, if it has some.
pub open spec fn semantic_renames(
    renames: Map<Seq<char>, Map<Seq<char>, Seq<char>>>,
    module: Seq<char>,
) -> Option<Map<Seq<char>, Seq<char>>> {
    if renames.contains_key(module) {
        Some(renames[module])
    } else {
        None
    }
}

/// `s` is the function definition `func_def` under the name `new_name`:
/// its return annotation and the annotations of its positional parameters
/// inlined, and its body inlined statement by statement (see
/// `function_stmt_inlined`); the rest unchanged.
pub open spec fn is_inlined_function(
    s: Stmt,
    func_def: Stmt,
    new_name: Seq<char>,
    aliases: Map<Seq<char>, Seq<char>>,
    renames: Map<Seq<char>, Seq<char>>,
    semantic: Option<Map<Seq<char>, Seq<char>>>,
) -> bool {
    match func_def {
        Stmt::FunctionDef { decorators, parameters, return_type, body, .. } => match s {
            Stmt::FunctionDef { name: n2, decorators: d2, parameters: p2, return_type: r2, body: b2 } => {
                &&& n2@ == new_name
                &&& d2 == decorators
                &&& p2.posonlyargs == parameters.posonlyargs
                &&& p2.vararg == parameters.vararg
                &&& p2.kwonlyargs == parameters.kwonlyargs
                &&& p2.kwarg == parameters.kwarg
                &&& p2.args@.len() == parameters.args@.len()
                &&& forall|i: int|
                    0 <= i < parameters.args@.len() ==> #[trigger] param_inlined(
                        parameters.args@[i],
                        p2.args@[i],
                        aliases,
                        renames,
                    )
                &&& opt_expr_inlined(return_type, r2, aliases, renames)
                &&& b2@.len() == body@.len()
                &&& forall|i: int|
                    0 <= i < body@.len() ==> #[trigger] function_stmt_inlined(
                        body@[i],
                        b2@[i],
                        aliases,
                        renames,
                        semantic,
                    )
            },
            _ => false,
        },
        _ => false,
    }
}

/// The step inlining the top-level statement `stmt` of `module` (whose file
/// is `path`) takes the context from `c0` to `c1` and the module's renames
/// from `r0` to `r1`: a `from` import records its aliases; a function or
/// class definition, an assignment to one name and an annotated assignment
/// to a name are inlined when the bundle takes the name; type aliases,
/// `pass` and docstrings are kept as they are; nothing else is kept.
pub open spec fn inline_step(
    b: HybridStaticBundler,
    module: Seq<char>,
    path: Seq<char>,
    stmt: Stmt,
    c0: InlineContext,
    r0: NameMap,
    c1: InlineContext,
    r1: NameMap,
) -> bool {
    let unchanged = c1 == c0 && r1 == r0;
    let kept = {
        &&& c1.inlined_stmts@ == c0.inlined_stmts@.push(stmt)
        &&& c1.exports() == c0.exports()
        &&& c1.globals() == c0.globals()
        &&& c1.renames() == c0.renames()
        &&& c1.aliases() == c0.aliases()
        &&& r1 == r0
    };
    match stmt {
        Stmt::ImportFrom { .. } => {
            &&& c1.aliases() == aliases_after_import(b, stmt, module, path, c0.aliases(), c0.renames())
            &&& c1.exports() == c0.exports()
            &&& c1.globals() == c0.globals()
            &&& c1.renames() == c0.renames()
            &&& c1.inlined_stmts == c0.inlined_stmts
            &&& r1 == r0
        },
        Stmt::FunctionDef { name, .. } => if inlines_symbol(c0.exports(), name@, module) {
            let new_name = semantic_name(c0.renames(), module, name@);
            &&& inlined_definition(c0, c1, name_map_entries(r0), name_map_entries(r1), name@, new_name)
            &&& is_inlined_function(
                c1.inlined_stmts@.last(),
                stmt,
                new_name,
                c0.aliases(),
                name_map_entries(r1),
                semantic_renames(c0.renames(), module),
            )
        } else {
            unchanged
        },
        Stmt::ClassDef { name, .. } => if inlines_symbol(c0.exports(), name@, module) {
            let new_name = semantic_name(c0.renames(), module, name@);
            &&& inlined_definition(c0, c1, name_map_entries(r0), name_map_entries(r1), name@, new_name)
            &&& is_inlined_class(c1.inlined_stmts@.last(), stmt, new_name, c0.aliases(), name_map_entries(r1))
        } else {
            unchanged
        },
        Stmt::Assign { targets, .. } => match simple_target(targets@) {
            Some(name) => if inlines_symbol(c0.exports(), name, module) {
                let new_name = semantic_name(c0.renames(), module, name);
                &&& inlined_definition(c0, c1, name_map_entries(r0), name_map_entries(r1), name, new_name)
                &&& is_inlined_assignment(
                    c1.inlined_stmts@.last(),
                    stmt,
                    new_name,
                    c0.aliases(),
                    name_map_entries(r0),
                )
            } else {
                unchanged
            },
            None => unchanged,
        },
        Stmt::AnnAssign { target: Expr::Name { id, .. }, .. } => if inlines_symbol(c0.exports(), id@, module) {
            let new_name = unique_name(id@, c0.globals());
            &&& inlined_definition(c0, c1, name_map_entries(r0), name_map_entries(r1), id@, new_name)
            &&& is_renamed_ann_assignment(c1.inlined_stmts@.last(), stmt, new_name)
        } else {
            unchanged
        },
        Stmt::TypeAlias { .. } => kept,
        Stmt::Pass => kept,
        Stmt::Expr(Expr::StringLiteral(_)) => kept,
        _ => unchanged,
    }
}

/// Inlining the statements `body` of `module` one after the other goes
/// through the contexts and renames `states`, from `states[0]`.
pub open spec fn inline_steps(
    b: HybridStaticBundler,
    module: Seq<char>,
    path: Seq<char>,
    body: Seq<Stmt>,
    states: Seq<(InlineContext, NameMap)>,
) -> bool {
    &&& states.len() == body.len() + 1
    &&& forall|i: int|
        0 <= i < body.len() ==> #[trigger] inline_step(
            b,
            module,
            path,
            body[i],
            states[i].0,
            states[i].1,
            states[i + 1].0,
            states[i + 1].1,
        )
}

/// Inlining the module `module` (whose file is `path`, whose statements
/// are `body`) takes the context from `before` to `after`: its statements
/// are inlined one after the other, starting with no renames for the
/// module, and the renames they made, if any, are recorded for the module.
pub open spec fn inlined_module(
    b: HybridStaticBundler,
    module: Seq<char>,
    path: Seq<char>,
    body: Seq<Stmt>,
    before: InlineContext,
    after: InlineContext,
) -> bool {
    exists|states: Seq<(InlineContext, NameMap)>|
        {
            &&& #[trigger] inline_steps(b, module, path, body, states)
            &&& states[0].0 == before
            &&& name_map_entries(states[0].1).dom() == Set::<Seq<char>>::empty()
            &&& name_map_pairs(states[0].1) == Seq::<(Seq<char>, Seq<char>)>::empty()
            &&& module_renames_recorded(states.last().0, after, states.last().1, module)
        }
}

/// `after` is `last` with the module's renames `renames` recorded for
/// `module` when there are some.
pub open spec fn module_renames_recorded(
    last: InlineContext,
    after: InlineContext,
    renames: NameMap,
    module: Seq<char>,
) -> bool {
    &&& after.exports() == last.exports()
    &&& after.globals() == last.globals()
    &&& after.inlined_stmts == last.inlined_stmts
    &&& after.aliases() == last.aliases()
    &&& if name_map_entries(renames).dom() == Set::<Seq<char>>::empty() {
        after.renames() == last.renames() && rename_map_pairs(after.module_renames) == rename_map_pairs(
            last.module_renames,
        )
    } else {
        &&& after.renames() == last.renames().insert(module, name_map_entries(renames))
        &&& rename_map_pairs(after.module_renames) == rename_map_pairs(last.module_renames).insert(
            module,
            name_map_pairs(renames),
        )
    }
}

impl HybridStaticBundler {
    /// The optional expression `e` inlined.
    fn inline_opt_expr(&self, e: Option<Expr>, import_aliases: &NameMap, renames: &NameMap) -> (r: Option<Expr>)
        ensures
            opt_expr_inlined(e, r, name_map_entries(*import_aliases), name_map_entries(*renames)),
    {
        match e {
            Some(x) => {
                let ghost orig = x;
                let resolved = self.resolve_import_aliases_in_expr(x, import_aliases);
                let rewritten = self.rewrite_aliases_in_expr(resolved, renames);
                proof {
                    assert(import_aliases_resolved(orig, resolved, name_map_entries(*import_aliases)));
                }
                Some(rewritten)
            },
            None => None,
        }
    }

    /// Inlines the function definition `func_def` of `module_name` when the
    /// bundle takes it, as `inline_class` does a class (see `inline_step`).
    fn inline_function(
        &self,
        func_def: Stmt,
        module_name: &str,
        module_renames: &mut NameMap,
        ctx: &mut InlineContext,
    )
        requires
            func_def is FunctionDef,
        ensures
            match func_def {
                Stmt::FunctionDef { name, .. } => if inlines_symbol(old(ctx).exports(), name@, module_name@) {
                    let new_name = semantic_name(old(ctx).renames(), module_name@, name@);
                    &&& inlined_definition(
                        *old(ctx),
                        *final(ctx),
                        name_map_entries(*old(module_renames)),
                        name_map_entries(*final(module_renames)),
                        name@,
                        new_name,
                    )
                    &&& is_inlined_function(
                        final(ctx).inlined_stmts@.last(),
                        func_def,
                        new_name,
                        old(ctx).aliases(),
                        name_map_entries(*final(module_renames)),
                        semantic_renames(old(ctx).renames(), module_name@),
                    )
                } else {
                    *final(ctx) == *old(ctx) && *final(module_renames) == *old(module_renames)
                },
                _ => true,
            },
    {
        match func_def {
            Stmt::FunctionDef { name, decorators, parameters, return_type, body } => {
                if !self.should_inline_symbol(name.as_str(), module_name, &ctx.module_exports_map) {
                    return ;
                }
                let renamed_name = match rename_map_get(&ctx.module_renames, module_name) {
                    Some(module_rename_map) => match name_map_get(module_rename_map, name.as_str()) {
                        Some(new_name) => copy_string(new_name),
                        None => copy_string(&name),
                    },
                    None => copy_string(&name),
                };
                if !str_eq(renamed_name.as_str(), name.as_str()) {
                    name_map_insert(module_renames, copy_string(&name), copy_string(&renamed_name));
                }
                let _ = index_set_insert(&mut ctx.global_symbols, copy_string(&renamed_name));
                let ghost aliases = ctx.aliases();
                let ghost renames = name_map_entries(*module_renames);
                let ghost semantic = semantic_renames(ctx.renames(), module_name@);
                let new_return = self.inline_opt_expr(return_type, &ctx.import_aliases, module_renames);
                // Positional parameters get their annotations inlined.
                let Parameters { posonlyargs, args, vararg, kwonlyargs, kwarg } = parameters;
                let mut rest_args = args;
                let ghost orig_args = rest_args@;
                let mut new_args: Vec<Parameter> = Vec::new();
                let n_args = rest_args.len();
                let mut k: usize = 0;
                proof {
                    assert(orig_args.skip(0) =~= orig_args);
                }
                while rest_args.len() > 0
                    invariant
                        n_args == orig_args.len(),
                        k <= orig_args.len(),
                        rest_args@ == orig_args.skip(k as int),
                        new_args@.len() == k,
                        forall|j: int|
                            0 <= j < k ==> #[trigger] param_inlined(orig_args[j], new_args@[j], aliases, renames),
                        aliases == name_map_entries(ctx.import_aliases),
                        renames == name_map_entries(*module_renames),
                    decreases rest_args.len(),
                {
                    let p = rest_args.remove(0);
                    proof {
                        assert(p == orig_args[k as int]);
                        assert(orig_args.skip(k + 1) =~= rest_args@);
                    }
                    let Parameter { name: pname, annotation, default } = p;
                    let new_annotation = self.inline_opt_expr(annotation, &ctx.import_aliases, module_renames);
                    new_args.push(Parameter { name: pname, annotation: new_annotation, default });
                    k += 1;
                }
                // The body: inlined, then rewritten by the module's semantic renames.
                let mut rest = body;
                let ghost orig_body = rest@;
                let mut new_body: Vec<Stmt> = Vec::new();
                let n = rest.len();
                let mut j: usize = 0;
                proof {
                    assert(orig_body.skip(0) =~= orig_body);
                }
                while rest.len() > 0
                    invariant
                        n == orig_body.len(),
                        j <= orig_body.len(),
                        rest@ == orig_body.skip(j as int),
                        new_body@.len() == j,
                        forall|i: int|
                            0 <= i < j ==> #[trigger] function_stmt_inlined(
                                orig_body[i],
                                new_body@[i],
                                aliases,
                                renames,
                                semantic,
                            ),
                        aliases == name_map_entries(ctx.import_aliases),
                        renames == name_map_entries(*module_renames),
                        semantic == semantic_renames(ctx.renames(), module_name@),
                    decreases rest.len(),
                {
                    let stmt = rest.remove(0);
                    proof {
                        assert(stmt == orig_body[j as int]);
                        assert(orig_body.skip(j + 1) =~= rest@);
                    }
                    let resolved = self.resolve_import_aliases_in_stmt(stmt, &ctx.import_aliases);
                    let rewritten = self.rewrite_aliases_in_stmt(resolved, module_renames);
                    proof {
                        assert(stmt_import_aliases_resolved(orig_body[j as int], resolved, aliases));
                        assert(stmt_inlined(orig_body[j as int], rewritten, aliases, renames));
                    }
                    let fin = match rename_map_get(&ctx.module_renames, module_name) {
                        Some(semantic_map) => self.rewrite_aliases_in_stmt(rewritten, semantic_map),
                        None => rewritten,
                    };
                    new_body.push(fin);
                    j += 1;
                }
                let new_parameters = Parameters { posonlyargs, args: new_args, vararg, kwonlyargs, kwarg };
                let s = Stmt::FunctionDef {
                    name: renamed_name,
                    decorators,
                    parameters: new_parameters,
                    return_type: new_return,
                    body: new_body,
                };
                ctx.inlined_stmts.push(s);
                proof {
                    assert(ctx.inlined_stmts@.drop_last() =~= old(ctx).inlined_stmts@);
                }
            },
            _ => {},
        }
    }

    /// Inlines the module `module_name` (whose file is `importer_path`) into
    /// the bundle: each top-level statement in turn (see `inline_step`),
    /// then the renames made recorded for the module when there are some.
    /// The statements land in the context; what is returned is empty.
    pub fn inline_module(
        &self,
        module_name: &str,
        ast: ModModule,
        importer_path: &str,
        ctx: &mut InlineContext,
    ) -> (r: Vec<Stmt>)
        ensures
            r@.len() == 0,
            inlined_module(*self, module_name@, importer_path@, ast.body@, *old(ctx), *final(ctx)),
    {
        let mut module_renames = name_map_new();
        let ghost body = ast.body@;
        let ghost mut states: Seq<(InlineContext, NameMap)> = seq![(*ctx, module_renames)];
        let mut rest = ast.body;
        let n = rest.len();
        let mut k: usize = 0;
        proof {
            assert(body.skip(0) =~= body);
        }
        while rest.len() > 0
            invariant
                n == body.len(),
                k <= body.len(),
                rest@ == body.skip(k as int),
                states.len() == k + 1,
                states[0].0 == *old(ctx),
                name_map_entries(states[0].1).dom() == Set::<Seq<char>>::empty(),
                name_map_pairs(states[0].1) == Seq::<(Seq<char>, Seq<char>)>::empty(),
                states.last() == (*ctx, module_renames),
                forall|i: int|
                    0 <= i < k ==> #[trigger] inline_step(
                        *self,
                        module_name@,
                        importer_path@,
                        body[i],
                        states[i].0,
                        states[i].1,
                        states[i + 1].0,
                        states[i + 1].1,
                    ),
            decreases rest.len(),
        {
            let stmt = rest.remove(0);
            proof {
                assert(stmt == body[k as int]);
                assert(body.skip(k + 1) =~= rest@);
            }
            let ghost c0 = *ctx;
            let ghost r0 = module_renames;
            match stmt {
                Stmt::ImportFrom { .. } => {
                    self.track_import_aliases(&stmt, module_name, importer_path, ctx);
                },
                Stmt::FunctionDef { .. } => {
                    self.inline_function(stmt, module_name, &mut module_renames, ctx);
                },
                Stmt::ClassDef { .. } => {
                    self.inline_class(stmt, module_name, &mut module_renames, ctx);
                },
                Stmt::Assign { .. } => {
                    self.inline_assignment(stmt, module_name, &mut module_renames, ctx);
                },
                Stmt::AnnAssign { .. } => {
                    self.inline_ann_assignment(stmt, module_name, &mut module_renames, ctx);
                },
                Stmt::TypeAlias { .. } => {
                    ctx.inlined_stmts.push(stmt);
                },
                Stmt::Pass => {
                    ctx.inlined_stmts.push(stmt);
                },
                Stmt::Expr(Expr::StringLiteral(_)) => {
                    ctx.inlined_stmts.push(stmt);
                },
                _ => {},
            }
            proof {
                states = states.push((*ctx, module_renames));
                assert(inline_step(
                    *self,
                    module_name@,
                    importer_path@,
                    body[k as int],
                    states[k as int].0,
                    states[k as int].1,
                    states[k + 1].0,
                    states[k + 1].1,
                ));
            }
            k += 1;
        }
        let ghost last = *ctx;
        if !name_map_is_empty(&module_renames) {
            rename_map_insert(&mut ctx.module_renames, to_string(module_name), module_renames);
        }
        proof {
            assert(inline_steps(*self, module_name@, importer_path@, body, states));
        }
        Vec::new()
    }
}

} // verus!
