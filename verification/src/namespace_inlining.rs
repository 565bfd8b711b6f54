//! Inlining a module that is imported as a namespace: each name the bundle
//! takes from it is suffixed with the module's name (and made unique), and
//! the module's definitions are emitted under those names.
use vstd::prelude::*;

use crate::ast::{Expr, ExprContext, ModModule, Stmt};
use crate::builders::is_name;
use crate::code_generator::{unique_name, HybridStaticBundler};
use crate::collections::{
    index_set_insert, name_map_entries, name_map_get, name_map_insert, name_map_is_empty, name_map_new,
    name_map_pairs, pairs_insert, rename_map_insert, rename_map_pairs, NameMap,
};
use crate::globals_lifter::cow_replace;
use crate::import_aliases::{import_aliases_resolved, stmt_import_aliases_resolved};
use crate::inlined_imports::{appends, lemma_appends_none, lemma_appends_push, lemma_appends_trans};
use crate::inlining::{aliases_after_import, inlines_symbol, module_renames_recorded, InlineContext};
use crate::renames::{refs_renamed, stmt_renamed};
use crate::orchestrator::push_unique;
use crate::symbols::simple_target;
use crate::text::{copy_string, replace_char, str_eq, to_string};

verus! {

/// The name a definition of `name` in `module` takes when the module is
/// inlined as a namespace: `name_module` (with `_` for `.`), made unique
/// among the names `globals`.
pub open spec fn namespace_symbol_name(name: Seq<char>, module: Seq<char>, globals: Seq<Seq<char>>) -> Seq<char> {
    unique_name(name + "_"@ + replace_char(module, '.', "_"@), globals)
}

/// `name` of the module takes the name `new_name`: recorded in the
/// module's renames and among the bundle's top-level names; the rest of the
/// context stays.
pub open spec fn namespace_renamed(
    c0: InlineContext,
    r0: NameMap,
    c1: InlineContext,
    r1: NameMap,
    name: Seq<char>,
    new_name: Seq<char>,
) -> bool {
    &&& c1.globals() == push_unique(c0.globals(), new_name)
    &&& name_map_entries(r1) == name_map_entries(r0).insert(name, new_name)
    &&& name_map_pairs(r1) == pairs_insert(name_map_pairs(r0), name, new_name)
    &&& c1.exports() == c0.exports()
    &&& c1.renames() == c0.renames()
    &&& c1.aliases() == c0.aliases()
    &&& c1.inlined_stmts == c0.inlined_stmts
}

/// The value of an assignment is the name it assigns (`x = x`).
pub open spec fn assigns_itself(value: Expr, name: Seq<char>) -> bool {
    value matches Expr::Name { id, .. } && id@ == name
}

/// The first pass over the statement `stmt` of `module` (whose file is
/// `path`), taking the context from `c0` to `c1` and the module's renames
/// from `r0` to `r1`: a `from` import records its aliases; a function or
/// class the bundle takes, or a name an assignment binds that the bundle
/// takes (unless the assignment is `x = x` and `x` is already renamed),
/// gets its namespace name.
pub open spec fn namespace_rename_step(
    b: HybridStaticBundler,
    module: Seq<char>,
    path: Seq<char>,
    stmt: Stmt,
    c0: InlineContext,
    r0: NameMap,
    c1: InlineContext,
    r1: NameMap,
) -> bool {
    let unchanged = c1 == c0 && r1 == r0;
    match stmt {
        Stmt::ImportFrom { .. } => {
            &&& c1.aliases() == aliases_after_import(b, stmt, module, path, c0.aliases(), c0.renames())
            &&& c1.exports() == c0.exports()
            &&& c1.globals() == c0.globals()
            &&& c1.renames() == c0.renames()
            &&& c1.inlined_stmts == c0.inlined_stmts
            &&& r1 == r0
        },
        Stmt::FunctionDef { name, .. } => if inlines_symbol(c0.exports(), name@, module) {
            namespace_renamed(c0, r0, c1, r1, name@, namespace_symbol_name(name@, module, c0.globals()))
        } else {
            unchanged
        },
        Stmt::ClassDef { name, .. } => if inlines_symbol(c0.exports(), name@, module) {
            namespace_renamed(c0, r0, c1, r1, name@, namespace_symbol_name(name@, module, c0.globals()))
        } else {
            unchanged
        },
        Stmt::Assign { targets, value } => match simple_target(targets@) {
            Some(n) => if inlines_symbol(c0.exports(), n, module) && !(assigns_itself(value, n)
                && name_map_entries(r0).contains_key(n)) {
                namespace_renamed(c0, r0, c1, r1, n, namespace_symbol_name(n, module, c0.globals()))
            } else {
                unchanged
            },
            None => unchanged,
        },
        _ => unchanged,
    }
}

/// `b` is the statement `a` with its import aliases resolved by `aliases`,
/// then its references renamed by `renames`.
pub open spec fn stmt_renamed_for_namespace(
    a: Stmt,
    b: Stmt,
    aliases: Map<Seq<char>, Seq<char>>,
    renames: Map<Seq<char>, Seq<char>>,
) -> bool {
    exists|mid: Stmt| #[trigger] stmt_import_aliases_resolved(a, mid, aliases) && stmt_renamed(mid, b, renames)
}

/// `b` is the body `a` renamed statement by statement.
pub open spec fn body_renamed_for_namespace(
    a: Seq<Stmt>,
    b: Seq<Stmt>,
    aliases: Map<Seq<char>, Seq<char>>,
    renames: Map<Seq<char>, Seq<char>>,
) -> bool {
    a.len() == b.len() && forall|i: int|
        0 <= i < a.len() ==> #[trigger] stmt_renamed_for_namespace(a[i], b[i], aliases, renames)
}

/// `s` is the definition `def` (a function or a class) under `new_name`,
/// its body renamed for the namespace; the rest unchanged.
pub open spec fn is_namespace_definition(
    s: Stmt,
    def: Stmt,
    new_name: Seq<char>,
    aliases: Map<Seq<char>, Seq<char>>,
    renames: Map<Seq<char>, Seq<char>>,
) -> bool {
    match def {
        Stmt::FunctionDef { decorators, parameters, return_type, body, .. } => match s {
            Stmt::FunctionDef { name: n2, decorators: d2, parameters: p2, return_type: r2, body: b2 } => n2@
                == new_name && d2 == decorators && p2 == parameters && r2 == return_type
                && body_renamed_for_namespace(body@, b2@, aliases, renames),
            _ => false,
        },
        Stmt::ClassDef { decorators, bases, keywords, body, .. } => match s {
            Stmt::ClassDef { name: n2, decorators: d2, bases: b2, keywords: k2, body: body2 } => n2@
                == new_name && d2 == decorators && b2 == bases && k2 == keywords
                && body_renamed_for_namespace(body@, body2@, aliases, renames),
            _ => false,
        },
        _ => false,
    }
}

/// `s` is `new_name = value'`, `value'` the value `value` with its import
/// aliases resolved and its references renamed.
pub open spec fn is_namespace_assignment(
    s: Stmt,
    value: Expr,
    new_name: Seq<char>,
    aliases: Map<Seq<char>, Seq<char>>,
    renames: Map<Seq<char>, Seq<char>>,
) -> bool {
    s matches Stmt::Assign { targets, value: v2 } && targets@.len() == 1 && is_name(
        targets@[0],
        new_name,
        ExprContext::Store,
    ) && exists|mid: Expr| #[trigger] import_aliases_resolved(value, mid, aliases) && refs_renamed(mid, v2, renames)
}

/// What the second pass emits for the statement `stmt` of `module`, with
/// the module's renames `renames` and the aliases `aliases`: a renamed
/// function or class under its new name; an assignment to a renamed name
/// the bundle takes (not `x = x`) under the new name; nothing else.
pub open spec fn namespace_emit_plan(
    exports: Map<Seq<char>, Option<Seq<Seq<char>>>>,
    module: Seq<char>,
    aliases: Map<Seq<char>, Seq<char>>,
    renames: Map<Seq<char>, Seq<char>>,
    stmt: Stmt,
) -> Seq<spec_fn(Stmt) -> bool> {
    match stmt {
        Stmt::FunctionDef { name, .. } => if renames.contains_key(name@) {
            seq![|s: Stmt| is_namespace_definition(s, stmt, renames[name@], aliases, renames)]
        } else {
            Seq::empty()
        },
        Stmt::ClassDef { name, .. } => if renames.contains_key(name@) {
            seq![|s: Stmt| is_namespace_definition(s, stmt, renames[name@], aliases, renames)]
        } else {
            Seq::empty()
        },
        Stmt::Assign { targets, value } => match simple_target(targets@) {
            Some(n) => if inlines_symbol(exports, n, module) && renames.contains_key(n) && !assigns_itself(
                value,
                n,
            ) {
                seq![|s: Stmt| is_namespace_assignment(s, value, renames[n], aliases, renames)]
            } else {
                Seq::empty()
            },
            None => Seq::empty(),
        },
        _ => Seq::empty(),
    }
}

/// What the second pass emits for the statements `body`, in order.
pub open spec fn namespace_emit_plans(
    exports: Map<Seq<char>, Option<Seq<Seq<char>>>>,
    module: Seq<char>,
    aliases: Map<Seq<char>, Seq<char>>,
    renames: Map<Seq<char>, Seq<char>>,
    body: Seq<Stmt>,
) -> Seq<spec_fn(Stmt) -> bool>
    decreases body.len(),
{
    if body.len() == 0 {
        Seq::empty()
    } else {
        namespace_emit_plans(exports, module, aliases, renames, body.drop_last()) + namespace_emit_plan(
            exports,
            module,
            aliases,
            renames,
            body.last(),
        )
    }
}

/// Inlining the module `module` (whose file is `path`, whose statements are
/// `body`) as a namespace takes the context from `before` to `after`: a
/// first pass names its definitions (see `namespace_rename_step`), from no
/// renames; a second pass emits them under those names (see
/// `namespace_emit_plan`); the renames, if any, are recorded for the module.
pub open spec fn inlined_namespace_module(
    b: HybridStaticBundler,
    module: Seq<char>,
    path: Seq<char>,
    body: Seq<Stmt>,
    before: InlineContext,
    after: InlineContext,
) -> bool {
    exists|states: Seq<(InlineContext, NameMap)>|
        {
            &&& #[trigger] states.len() == body.len() + 1
            &&& states[0].0 == before
            &&& name_map_entries(states[0].1).dom() == Set::<Seq<char>>::empty()
            &&& name_map_pairs(states[0].1) == Seq::<(Seq<char>, Seq<char>)>::empty()
            &&& forall|i: int|
                0 <= i < body.len() ==> #[trigger] namespace_rename_step(
                    b,
                    module,
                    path,
                    body[i],
                    states[i].0,
                    states[i].1,
                    states[i + 1].0,
                    states[i + 1].1,
                )
            &&& {
                let last = states.last().0;
                let renames = states.last().1;
                &&& appends(
                    last.inlined_stmts@,
                    after.inlined_stmts@,
                    namespace_emit_plans(
                        last.exports(),
                        module,
                        last.aliases(),
                        name_map_entries(renames),
                        body,
                    ),
                )
                &&& after.exports() == last.exports()
                &&& after.globals() == last.globals()
                &&& after.aliases() == last.aliases()
                &&& if name_map_entries(renames).dom() == Set::<Seq<char>>::empty() {
                    after.renames() == last.renames() && rename_map_pairs(after.module_renames)
                        == rename_map_pairs(last.module_renames)
                } else {
                    &&& after.renames() == last.renames().insert(module, name_map_entries(renames))
                    &&& rename_map_pairs(after.module_renames) == rename_map_pairs(last.module_renames).insert(
                        module,
                        name_map_pairs(renames),
                    )
                }
            }
        }
}

impl HybridStaticBundler {
    /// The statements of a function body renamed by `module_renames`.
    pub fn transform_function_body_for_renames(&self, body: Vec<Stmt>, module_renames: &NameMap) -> (r: Vec<Stmt>)
        ensures
            r@.len() == body@.len(),
            forall|i: int| 0 <= i < body@.len() ==> #[trigger] stmt_renamed(body@[i], r@[i], name_map_entries(*module_renames)),
    {
        let ghost orig = body@;
        let mut rest = body;
        let mut out: Vec<Stmt> = Vec::new();
        let n = rest.len();
        let mut k: usize = 0;
        proof {
            assert(orig.skip(0) =~= orig);
        }
        while rest.len() > 0
            invariant
                n == orig.len(),
                k <= n,
                rest@ == orig.skip(k as int),
                out@.len() == k,
                forall|i: int| 0 <= i < k ==> #[trigger] stmt_renamed(orig[i], out@[i], name_map_entries(*module_renames)),
            decreases rest.len(),
        {
            let s = rest.remove(0);
            proof {
                assert(s == orig[k as int]);
                assert(orig.skip(k + 1) =~= rest@);
            }
            out.push(self.transform_stmt_for_renames(s, module_renames));
            k += 1;
        }
        out
    }

    /// The statements `body` with their import aliases resolved by
    /// `import_aliases`, then renamed by `module_renames`.
    fn rename_body_for_namespace(&self, body: Vec<Stmt>, import_aliases: &NameMap, module_renames: &NameMap) -> (r:
        Vec<Stmt>)
        ensures
            body_renamed_for_namespace(body@, r@, name_map_entries(*import_aliases), name_map_entries(*module_renames)),
    {
        let ghost orig = body@;
        let ghost aliases = name_map_entries(*import_aliases);
        let mut rest = body;
        let mut resolved: Vec<Stmt> = Vec::new();
        let n = rest.len();
        let mut k: usize = 0;
        proof {
            assert(orig.skip(0) =~= orig);
        }
        while rest.len() > 0
            invariant
                n == orig.len(),
                k <= n,
                rest@ == orig.skip(k as int),
                resolved@.len() == k,
                aliases == name_map_entries(*import_aliases),
                forall|i: int| 0 <= i < k ==> #[trigger] stmt_import_aliases_resolved(orig[i], resolved@[i], aliases),
            decreases rest.len(),
        {
            let s = rest.remove(0);
            proof {
                assert(s == orig[k as int]);
                assert(orig.skip(k + 1) =~= rest@);
            }
            resolved.push(self.resolve_import_aliases_in_stmt(s, import_aliases));
            k += 1;
        }
        let ghost mid = resolved@;
        let r = self.transform_function_body_for_renames(resolved, module_renames);
        proof {
            assert forall|i: int| 0 <= i < orig.len() implies #[trigger] stmt_renamed_for_namespace(
                orig[i],
                r@[i],
                aliases,
                name_map_entries(*module_renames),
            ) by {
                assert(stmt_import_aliases_resolved(orig[i], mid[i], aliases));
                assert(stmt_renamed(mid[i], r@[i], name_map_entries(*module_renames)));
            }
        }
        r
    }

    /// The namespace name of `name` of `module_name` (see
    /// `namespace_symbol_name`), recorded in the renames and among the
    /// bundle's top-level names.
    fn rename_for_namespace(&self, name: &str, module_name: &str, module_renames: &mut NameMap, ctx: &mut InlineContext)
        ensures
            namespace_renamed(
                *old(ctx),
                *old(module_renames),
                *final(ctx),
                *final(module_renames),
                name@,
                namespace_symbol_name(name@, module_name@, old(ctx).globals()),
            ),
    {
        proof {
            reveal_strlit("_");
        }
        let module_suffix = cow_replace(module_name, '.', "_");
        let mut base_name = to_string(name);
        base_name.append("_");
        base_name.append(module_suffix.as_str());
        let renamed = self.get_unique_name(base_name.as_str(), &ctx.global_symbols);
        let _ = index_set_insert(&mut ctx.global_symbols, copy_string(&renamed));
        name_map_insert(module_renames, to_string(name), renamed);
    }

    /// Inlines the module `module_name` (whose file is `importer_path`) as a
    /// namespace (see `inlined_namespace_module`). The statements land in the
    /// context; what is returned is empty.
    pub fn inline_module_for_namespace(
        &self,
        module_name: &str,
        ast: ModModule,
        importer_path: &str,
        ctx: &mut InlineContext,
    ) -> (r: Vec<Stmt>)
        ensures
            r@.len() == 0,
            inlined_namespace_module(*self, module_name@, importer_path@, ast.body@, *old(ctx), *final(ctx)),
    {
        let mut module_renames = name_map_new();
        let ghost body = ast.body@;
        let ghost mut states: Seq<(InlineContext, NameMap)> = seq![(*ctx, module_renames)];
        // First pass: the names.
        let mut k: usize = 0;
        while k < ast.body.len()
            invariant
                body == ast.body@,
                k <= body.len(),
                states.len() == k + 1,
                states[0].0 == *old(ctx),
                name_map_entries(states[0].1).dom() == Set::<Seq<char>>::empty(),
                name_map_pairs(states[0].1) == Seq::<(Seq<char>, Seq<char>)>::empty(),
                states.last() == (*ctx, module_renames),
                forall|i: int|
                    0 <= i < k ==> #[trigger] namespace_rename_step(
                        *self,
                        module_name@,
                        importer_path@,
                        body[i],
                        states[i].0,
                        states[i].1,
                        states[i + 1].0,
                        states[i + 1].1,
                    ),
            decreases body.len() - k,
        {
            let stmt = &ast.body[k];
            match stmt {
                Stmt::ImportFrom { .. } => {
                    self.track_import_aliases(stmt, module_name, importer_path, ctx);
                },
                Stmt::FunctionDef { name, .. } => {
                    if self.should_inline_symbol(name.as_str(), module_name, &ctx.module_exports_map) {
                        self.rename_for_namespace(name.as_str(), module_name, &mut module_renames, ctx);
                    }
                },
                Stmt::ClassDef { name, .. } => {
                    if self.should_inline_symbol(name.as_str(), module_name, &ctx.module_exports_map) {
                        self.rename_for_namespace(name.as_str(), module_name, &mut module_renames, ctx);
                    }
                },
                Stmt::Assign { targets, value } => {
                    if let Some(var_name) = self.extract_simple_assign_target(targets) {
                        if self.should_inline_symbol(var_name.as_str(), module_name, &ctx.module_exports_map) {
                            let is_self_ref = match value {
                                Expr::Name { id, .. } => str_eq(id.as_str(), var_name.as_str()),
                                _ => false,
                            };
                            let already = name_map_get(&module_renames, var_name.as_str()).is_some();
                            if !(is_self_ref && already) {
                                self.rename_for_namespace(var_name.as_str(), module_name, &mut module_renames, ctx);
                            }
                        }
                    }
                },
                _ => {},
            }
            proof {
                states = states.push((*ctx, module_renames));
                assert(namespace_rename_step(
                    *self,
                    module_name@,
                    importer_path@,
                    body[k as int],
                    states[k as int].0,
                    states[k as int].1,
                    states[k + 1].0,
                    states[k + 1].1,
                ));
            }
            k += 1;
        }
        // Second pass: the definitions under their names.
        let ghost last = *ctx;
        let ghost renames = name_map_entries(module_renames);
        let ghost aliases = ctx.aliases();
        let ghost exports = ctx.exports();
        let ghost start = ctx.inlined_stmts@;
        let mut rest = ast.body;
        let n = rest.len();
        let mut j: usize = 0;
        proof {
            assert(body.skip(0) =~= body);
            lemma_appends_none(start);
            assert(body.subrange(0, 0) =~= Seq::<Stmt>::empty());
        }
        while rest.len() > 0
            invariant
                n == body.len(),
                j <= n,
                rest@ == body.skip(j as int),
                renames == name_map_entries(module_renames),
                aliases == ctx.aliases(),
                exports == ctx.exports(),
                ctx.globals() == last.globals(),
                ctx.renames() == last.renames(),
                ctx.module_renames == last.module_renames,
                appends(
                    start,
                    ctx.inlined_stmts@,
                    namespace_emit_plans(exports, module_name@, aliases, renames, body.subrange(0, j as int)),
                ),
            decreases rest.len(),
        {
            let stmt = rest.remove(0);
            proof {
                assert(stmt == body[j as int]);
                assert(body.skip(j + 1) =~= rest@);
            }
            let ghost before = ctx.inlined_stmts@;
            let ghost original = stmt;
            let ghost step = namespace_emit_plan(exports, module_name@, aliases, renames, original);
            let mut emitted = false;
            match stmt {
                Stmt::FunctionDef { name, decorators, parameters, return_type, body: fbody } => {
                    if let Some(renamed) = name_map_get(&module_renames, name.as_str()) {
                        let new_body = self.rename_body_for_namespace(fbody, &ctx.import_aliases, &module_renames);
                        let s = Stmt::FunctionDef {
                            name: copy_string(renamed),
                            decorators,
                            parameters,
                            return_type,
                            body: new_body,
                        };
                        proof {
                            lemma_appends_push(ctx.inlined_stmts@, s, step[0]);
                            assert(step =~= seq![step[0]]);
                        }
                        ctx.inlined_stmts.push(s);
                        emitted = true;
                    }
                },
                Stmt::ClassDef { name, decorators, bases, keywords, body: cbody } => {
                    if let Some(renamed) = name_map_get(&module_renames, name.as_str()) {
                        let new_body = self.rename_body_for_namespace(cbody, &ctx.import_aliases, &module_renames);
                        let s = Stmt::ClassDef {
                            name: copy_string(renamed),
                            decorators,
                            bases,
                            keywords,
                            body: new_body,
                        };
                        proof {
                            lemma_appends_push(ctx.inlined_stmts@, s, step[0]);
                            assert(step =~= seq![step[0]]);
                        }
                        ctx.inlined_stmts.push(s);
                        emitted = true;
                    }
                },
                Stmt::Assign { targets, value } => {
                    if let Some(var_name) = self.extract_simple_assign_target(&targets) {
                        if self.should_inline_symbol(var_name.as_str(), module_name, &ctx.module_exports_map) {
                            if let Some(renamed) = name_map_get(&module_renames, var_name.as_str()) {
                                let is_self_ref = match &value {
                                    Expr::Name { id, .. } => str_eq(id.as_str(), var_name.as_str()),
                                    _ => false,
                                };
                                if !is_self_ref {
                                    let ghost v0 = value;
                                    let resolved = self.resolve_import_aliases_in_expr(value, &ctx.import_aliases);
                                    let new_value = Self::rename_references_in_expr(resolved, &module_renames);
                                    proof {
                                        assert(import_aliases_resolved(v0, resolved, aliases));
                                    }
                                    let mut new_targets: Vec<Expr> = Vec::new();
                                    new_targets.push(Expr::Name { id: copy_string(renamed), ctx: ExprContext::Store });
                                    let s = Stmt::Assign { targets: new_targets, value: new_value };
                                    proof {
                                        lemma_appends_push(ctx.inlined_stmts@, s, step[0]);
                                        assert(step =~= seq![step[0]]);
                                    }
                                    ctx.inlined_stmts.push(s);
                                    emitted = true;
                                }
                            }
                        }
                    }
                },
                _ => {},
            }
            proof {
                if !emitted {
                    lemma_appends_none(ctx.inlined_stmts@);
                    assert(step =~= Seq::<spec_fn(Stmt) -> bool>::empty());
                }
                let t = body.subrange(0, j + 1);
                assert(t.drop_last() =~= body.subrange(0, j as int));
                assert(t.last() == body[j as int]);
                lemma_appends_trans(
                    start,
                    before,
                    ctx.inlined_stmts@,
                    namespace_emit_plans(exports, module_name@, aliases, renames, body.subrange(0, j as int)),
                    step,
                );
            }
            j += 1;
        }
        proof {
            assert(body.subrange(0, n as int) =~= body);
        }
        if !name_map_is_empty(&module_renames) {
            rename_map_insert(&mut ctx.module_renames, to_string(module_name), module_renames);
        }
        Vec::new()
    }
}

} // verus!
