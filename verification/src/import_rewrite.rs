//! What an import of a bundled module becomes inside the bundle: wrapped
//! modules are taken from `sys.modules`, namespace-package submodules
//! become namespaces, and imports of nothing bundled stay as they are.
use vstd::prelude::*;

use crate::ast::{alias_local_name, local_name, Alias, Expr, ExprContext, Keyword, Stmt};
use crate::builders::{
    assign, assigns, is_dotted_attribute_assignment, is_export_keyword, is_name, is_name_attr,
    is_namespace_module, is_sys_modules_assignment, is_sys_modules_entry, is_dotted_assignments,
    name_attr, namespace_created, store_name,
};
use crate::code_generator::{relative_import_target, HybridStaticBundler};
use crate::collections::{rename_map_entries, rename_map_pairs, RenameMap};
use crate::globals_lifter::cow_replace;
use crate::inlined_imports::{
    appends, inlined_assignments_plan, lemma_appends_none, lemma_appends_push, lemma_appends_trans,
};
use crate::namespaces::parent_namespace_plan;
use crate::text::{
    contains_char, copy_string, join_strings, join_with, replace_char, split_char, split_on, to_string, views,
};

verus! {

/// `target = sys.modules['module'].attr`.
pub open spec fn is_sys_modules_attr_assignment(
    s: Stmt,
    target: Seq<char>,
    module: Seq<char>,
    attr: Seq<char>,
) -> bool {
    assigns(
        s,
        |t: Expr| is_name(t, target, ExprContext::Store),
        |v: Expr|
            v matches Expr::Attribute { value, attr: a, ctx } && a@ == attr && ctx == ExprContext::Load
                && is_sys_modules_entry(*value, module),
    )
}

/// The keywords `symbol = symbol_key` for each symbol of `exports` (none
/// when there is no list).
pub open spec fn export_keywords(kws: Seq<Keyword>, exports: Option<Seq<Seq<char>>>, key: Seq<char>) -> bool {
    match exports {
        Some(list) => kws.len() == list.len() && forall|i: int|
            0 <= i < kws.len() ==> #[trigger] is_export_keyword(kws[i], list[i], key),
        None => kws.len() == 0,
    }
}

/// The `__all__` list recorded for `module`, if any.
pub open spec fn exports_of(exports: Map<Seq<char>, Option<Seq<Seq<char>>>>, module: Seq<char>) -> Option<
    Seq<Seq<char>>,
> {
    if exports.contains_key(module) {
        exports[module]
    } else {
        None
    }
}

/// `local = types.SimpleNamespace(symbol=symbol_key, ...)` for the exported
/// symbols of `module`, `key` being `module` with `_` for `.`.
pub open spec fn is_keyword_namespace(
    s: Stmt,
    local: Seq<char>,
    exports: Option<Seq<Seq<char>>>,
    key: Seq<char>,
) -> bool {
    assigns(
        s,
        |t: Expr| is_name(t, local, ExprContext::Store),
        |v: Expr|
            v matches Expr::Call { func, args, keywords } && is_name_attr(
                *func,
                "types"@,
                "SimpleNamespace"@,
                ExprContext::Load,
            ) && args@.len() == 0 && export_keywords(keywords@, exports, key),
    )
}

/// What one name of `from module import ...` becomes when `module` is a
/// wrapped module: a wrapped submodule is taken from `sys.modules`, any
/// other name is read from the module's `sys.modules` entry.
pub open spec fn wrapped_from_plan(b: HybridStaticBundler, module: Seq<char>, a: Alias) -> spec_fn(Stmt) -> bool {
    let full = module + "."@ + a.name@;
    let local = alias_local_name(a);
    if b.bundled().contains(full) && b.registry().contains_key(full) {
        |s: Stmt| is_sys_modules_assignment(s, local, full)
    } else {
        |s: Stmt| is_sys_modules_attr_assignment(s, local, module, a.name@)
    }
}

/// What each name of `from module import ...` becomes when `module` is a
/// wrapped module.
pub open spec fn wrapped_from_plans(b: HybridStaticBundler, module: Seq<char>, names: Seq<Alias>) -> Seq<
    spec_fn(Stmt) -> bool,
> {
    Seq::new(names.len(), |i: int| wrapped_from_plan(b, module, names[i]))
}

/// What one name of `from package import ...` becomes when `package` is a
/// namespace package: a bundled submodule is taken from `sys.modules` when
/// wrapped, else becomes a namespace of its exported symbols; any other
/// name gives nothing.
pub open spec fn namespace_package_plan(b: HybridStaticBundler, package: Seq<char>, a: Alias) -> Seq<
    spec_fn(Stmt) -> bool,
> {
    let full = package + "."@ + a.name@;
    let local = alias_local_name(a);
    if b.bundled().contains(full) {
        if b.registry().contains_key(full) {
            seq![|s: Stmt| is_sys_modules_assignment(s, local, full)]
        } else {
            seq![
                |s: Stmt|
                    is_keyword_namespace(
                        s,
                        local,
                        exports_of(b.exports(), full),
                        replace_char(full, '.', "_"@),
                    ),
            ]
        }
    } else {
        Seq::empty()
    }
}

/// What the names of `from package import ...` become, in order.
pub open spec fn namespace_package_plans(b: HybridStaticBundler, package: Seq<char>, names: Seq<Alias>) -> Seq<
    spec_fn(Stmt) -> bool,
>
    decreases names.len(),
{
    if names.len() == 0 {
        Seq::empty()
    } else {
        namespace_package_plans(b, package, names.drop_last()) + namespace_package_plan(b, package, names.last())
    }
}

/// `plan` (entries `(taken from sys.modules, name)`, see
/// `parent_namespace_plan`) as statement checks.
pub open spec fn parent_plan_checks(plan: Seq<(bool, Seq<char>)>) -> Seq<spec_fn(Stmt) -> bool> {
    Seq::new(
        plan.len(),
        |i: int|
            |s: Stmt|
                if plan[i].0 {
                    is_sys_modules_assignment(s, plan[i].1, plan[i].1)
                } else {
                    is_namespace_module(s, plan[i].1)
                },
    )
}

/// The checks of `is_dotted_assignments` for `parts`.
pub open spec fn dotted_checks(parts: Seq<Seq<char>>) -> Seq<spec_fn(Stmt) -> bool> {
    Seq::new(
        if parts.len() >= 1 {
            (parts.len() - 1) as nat
        } else {
            0
        },
        |i: int|
            |s: Stmt|
                is_dotted_attribute_assignment(
                    s,
                    join_with(parts.subrange(0, i + 1), "."@),
                    parts[i + 1],
                    join_with(parts.subrange(0, i + 2), "."@),
                ),
    )
}

/// Whether `import module` can stand in the bundle as statements: a dotted
/// module must be bundled and wrapped, a plain one bundled.
pub open spec fn import_handled(b: HybridStaticBundler, a: Alias) -> bool {
    let m = a.name@;
    if m.contains('.') {
        b.bundled().contains(m) && b.registry().contains_key(m)
    } else {
        b.bundled().contains(m)
    }
}

/// What `import module` (the alias `a`) becomes, after the statements
/// `existing`: for a dotted module, its parent namespaces, then either the
/// dotted assignments (no `as`) or the `as` name bound from
/// `sys.modules`; for a plain wrapped module, its name bound from
/// `sys.modules`; for a plain inlined module, nothing.
pub open spec fn import_plan(b: HybridStaticBundler, a: Alias, existing: Seq<Stmt>) -> Seq<spec_fn(Stmt) -> bool> {
    let m = a.name@;
    if m.contains('.') {
        let parts = split_on(m, '.');
        parent_plan_checks(parent_namespace_plan(parts, parts.len(), b.registry(), b.bundled(), existing))
            + match a.asname {
            None => dotted_checks(parts),
            Some(t) => seq![|s: Stmt| is_sys_modules_assignment(s, t@, m)],
        }
    } else if b.registry().contains_key(m) {
        seq![|s: Stmt| is_sys_modules_assignment(s, alias_local_name(a), m)]
    } else {
        Seq::empty()
    }
}

/// `outs` are the statements after each name of an `import` in turn, from none.
pub open spec fn import_chain(b: HybridStaticBundler, names: Seq<Alias>, outs: Seq<Seq<Stmt>>) -> bool {
    &&& outs.len() == names.len() + 1
    &&& outs[0] == Seq::<Stmt>::empty()
    &&& forall|i: int|
        0 <= i < names.len() ==> #[trigger] appends(outs[i], outs[i + 1], import_plan(b, names[i], outs[i]))
}

/// `r` is what the `import` of `names` becomes: when every name can stand
/// as statements, the statements of each in turn; else the import itself.
pub open spec fn rewritten_import(b: HybridStaticBundler, import_stmt: Stmt, r: Seq<Stmt>) -> bool {
    match import_stmt {
        Stmt::Import(names) => if forall|i: int| 0 <= i < names@.len() ==> #[trigger] import_handled(b, names@[i]) {
            exists|outs: Seq<Seq<Stmt>>| #[trigger] import_chain(b, names@, outs) && r == outs.last()
        } else {
            r == seq![import_stmt]
        },
        _ => false,
    }
}

/// The module a `from` import imports from, with `current` importing.
pub open spec fn from_target(b: HybridStaticBundler, import_from: Stmt, current: Seq<char>) -> Option<Seq<char>> {
    match import_from {
        Stmt::ImportFrom { module, level, .. } => relative_import_target(
            b.bundled(),
            level,
            match module {
                Some(m) => Some(m@),
                None => None,
            },
            current,
            None,
        ),
        _ => None,
    }
}

/// Some name of `names` is a bundled submodule of `module`.
pub open spec fn has_bundled_submodule_import(b: HybridStaticBundler, module: Seq<char>, names: Seq<Alias>) -> bool {
    exists|i: int| 0 <= i < names.len() && b.bundled().contains(module + "."@ + (#[trigger] names[i]).name@)
}

/// `s` is the `from` import `import_from` made absolute: from `module`, at level 0.
pub open spec fn is_absolute_from(s: Stmt, import_from: Stmt, module: Seq<char>) -> bool {
    match import_from {
        Stmt::ImportFrom { names, .. } => s matches Stmt::ImportFrom { module: m2, names: n2, level: l2 }
            && n2 == names && l2 == 0 && (m2 matches Some(x) && x@ == module),
        _ => false,
    }
}

/// `r` is what `from ... import ...` (`import_from`, in `current`) becomes
/// in the bundle: unresolved, itself; from a module not bundled, itself
/// (made absolute when relative) unless it imports bundled submodules of a
/// namespace package; from a wrapped module, reads of its `sys.modules`
/// entry; from an inlined module, the assignments for its symbols.
pub open spec fn rewritten_from_import(
    b: HybridStaticBundler,
    import_from: Stmt,
    current: Seq<char>,
    orders: Map<Seq<char>, Seq<(Seq<char>, Seq<char>)>>,
    renames: Map<Seq<char>, Map<Seq<char>, Seq<char>>>,
    r: Seq<Stmt>,
) -> bool {
    match import_from {
        Stmt::ImportFrom { names, level, .. } => match from_target(b, import_from, current) {
            None => r == seq![import_from],
            Some(module) => if !b.bundled().contains(module) {
                if !has_bundled_submodule_import(b, module, names@) {
                    if level > 0 {
                        r.len() == 1 && is_absolute_from(r[0], import_from, module)
                    } else {
                        r == seq![import_from]
                    }
                } else {
                    let plan = namespace_package_plans(b, module, names@);
                    if plan.len() == 0 {
                        r == seq![import_from]
                    } else {
                        appends(Seq::empty(), r, plan)
                    }
                }
            } else if b.registry().contains_key(module) {
                appends(Seq::empty(), r, wrapped_from_plans(b, module, names@))
            } else {
                appends(
                    Seq::empty(),
                    r,
                    inlined_assignments_plan(b.inlined(), b.bundled(), orders, renames, module, names@),
                )
            },
        },
        _ => false,
    }
}

/// `r` is what the statement `stmt` of `current` becomes: an import or
/// `from` import is rewritten (see `rewritten_import` and
/// `rewritten_from_import`); any other statement stays.
pub open spec fn rewritten_stmt(
    b: HybridStaticBundler,
    stmt: Stmt,
    current: Seq<char>,
    orders: Map<Seq<char>, Seq<(Seq<char>, Seq<char>)>>,
    renames: Map<Seq<char>, Map<Seq<char>, Seq<char>>>,
    r: Seq<Stmt>,
) -> bool {
    match stmt {
        Stmt::Import(_) => rewritten_import(b, stmt, r),
        Stmt::ImportFrom { .. } => rewritten_from_import(b, stmt, current, orders, renames, r),
        _ => r == seq![stmt],
    }
}

/// `follows_plan` of a parent-namespace plan, as checks appended.
proof fn lemma_parent_plan_appends(before: Seq<Stmt>, after: Seq<Stmt>, plan: Seq<(bool, Seq<char>)>)
    requires
        after.len() >= before.len(),
        after.subrange(0, before.len() as int) == before,
        crate::namespaces::follows_plan(after.subrange(before.len() as int, after.len() as int), plan),
    ensures
        appends(before, after, parent_plan_checks(plan)),
{
    let tail = after.subrange(before.len() as int, after.len() as int);
    assert forall|i: int| 0 <= i < plan.len() implies (#[trigger] parent_plan_checks(plan)[i])(
        after[before.len() + i],
    ) by {
        assert(tail[i] == after[before.len() + i]);
    }
}

/// `is_dotted_assignments`, as checks appended.
proof fn lemma_dotted_appends(before: Seq<Stmt>, after: Seq<Stmt>, parts: Seq<Seq<char>>)
    requires
        after.len() >= before.len(),
        after.subrange(0, before.len() as int) == before,
        is_dotted_assignments(after.subrange(before.len() as int, after.len() as int), parts),
    ensures
        appends(before, after, dotted_checks(parts)),
{
    let tail = after.subrange(before.len() as int, after.len() as int);
    assert forall|i: int| 0 <= i < dotted_checks(parts).len() implies (#[trigger] dotted_checks(parts)[i])(
        after[before.len() + i],
    ) by {
        assert(tail[i] == after[before.len() + i]);
    }
}

/// `module + "." + name`.
fn dotted_name(module: &str, name: &str) -> (r: String)
    ensures
        r@ == module@ + "."@ + name@,
{
    proof {
        reveal_strlit(".");
    }
    let mut r = to_string(module);
    r.append(".");
    r.append(name);
    r
}

impl HybridStaticBundler {
    /// `target_name = sys.modules['module_name'].attr`.
    fn sys_modules_attr_assignment(&self, target_name: &str, module_name: &str, attr: &str) -> (r: Stmt)
        ensures
            is_sys_modules_attr_assignment(r, target_name@, module_name@, attr@),
    {
        let value = Expr::Attribute {
            value: Box::new(self.sys_modules_entry(module_name)),
            attr: to_string(attr),
            ctx: ExprContext::Load,
        };
        assign(store_name(target_name), value)
    }

    /// The statements standing for `from module_name import ...` when
    /// `module_name` is a wrapped module (see `wrapped_from_plan`).
    pub fn transform_bundled_import_from_multiple(&self, import_from: Stmt, module_name: &str) -> (r: Vec<
        Stmt,
    >)
        requires
            import_from is ImportFrom,
        ensures
            appends(
                Seq::empty(),
                r@,
                wrapped_from_plans(*self, module_name@, import_from->ImportFrom_names@),
            ),
    {
        let mut assignments: Vec<Stmt> = Vec::new();
        let names = match import_from {
            Stmt::ImportFrom { names, .. } => names,
            _ => {
                return assignments;
            },
        };
        let ghost plan = wrapped_from_plans(*self, module_name@, names@);
        proof {
            lemma_appends_none(assignments@);
            assert(plan.subrange(0, 0) =~= Seq::<spec_fn(Stmt) -> bool>::empty());
        }
        let mut i: usize = 0;
        while i < names.len()
            invariant
                i <= names.len(),
                plan == wrapped_from_plans(*self, module_name@, names@),
                appends(Seq::empty(), assignments@, plan.subrange(0, i as int)),
            decreases names.len() - i,
        {
            let alias = &names[i];
            let imported_name = alias.name.as_str();
            let target = local_name(alias);
            let full_module_path = dotted_name(module_name, imported_name);
            let s = if self.is_bundled(full_module_path.as_str()) && self.registered_name(
                full_module_path.as_str(),
            ).is_some() {
                self.create_sys_modules_assignment(target.as_str(), full_module_path.as_str())
            } else {
                self.sys_modules_attr_assignment(target.as_str(), module_name, imported_name)
            };
            let ghost before = assignments@;
            proof {
                lemma_appends_push(assignments@, s, plan[i as int]);
            }
            assignments.push(s);
            proof {
                lemma_appends_trans(Seq::empty(), before, assignments@, plan.subrange(0, i as int), seq![plan[i as int]]);
                assert(plan.subrange(0, i as int) + seq![plan[i as int]] =~= plan.subrange(0, i + 1));
            }
            i += 1;
        }
        proof {
            assert(plan.subrange(0, names@.len() as int) =~= plan);
        }
        assignments
    }

    /// The statements standing for `from module_name import ...` when
    /// `module_name` is a namespace package (see `namespace_package_plan`);
    /// the import itself when none does.
    pub fn transform_namespace_package_imports(&self, import_from: Stmt, module_name: &str) -> (r: Vec<Stmt>)
        requires
            import_from is ImportFrom,
        ensures
            ({
                let plan = namespace_package_plans(*self, module_name@, import_from->ImportFrom_names@);
                if plan.len() == 0 {
                    r@ == seq![import_from]
                } else {
                    appends(Seq::empty(), r@, plan)
                }
            }),
    {
        let mut result_stmts: Vec<Stmt> = Vec::new();
        let ghost names = import_from->ImportFrom_names@;
        let n = match &import_from {
            Stmt::ImportFrom { names, .. } => names.len(),
            _ => 0,
        };
        proof {
            lemma_appends_none(result_stmts@);
            assert(names.subrange(0, 0) =~= Seq::<Alias>::empty());
        }
        let mut i: usize = 0;
        while i < n
            invariant
                import_from is ImportFrom,
                names == import_from->ImportFrom_names@,
                n == names.len(),
                i <= n,
                appends(Seq::empty(), result_stmts@, namespace_package_plans(*self, module_name@, names.subrange(0, i as int))),
            decreases n - i,
        {
            let alias = match &import_from {
                Stmt::ImportFrom { names, .. } => &names[i],
                _ => {
                    return result_stmts;
                },
            };
            let imported_name = alias.name.as_str();
            let local = local_name(alias);
            let full_module_path = dotted_name(module_name, imported_name);
            let ghost before = result_stmts@;
            let ghost step = namespace_package_plan(*self, module_name@, names[i as int]);
            if self.is_bundled(full_module_path.as_str()) {
                let s = if self.registered_name(full_module_path.as_str()).is_some() {
                    self.create_sys_modules_assignment(local.as_str(), full_module_path.as_str())
                } else {
                    let inlined_key = cow_replace(full_module_path.as_str(), '.', "_");
                    let keywords = self.create_namespace_keywords(full_module_path.as_str(), inlined_key.as_str());
                    proof {
                        reveal_strlit("types");
                        reveal_strlit("SimpleNamespace");
                        reveal_strlit("_");
                    }
                    let call = Expr::Call {
                        func: Box::new(name_attr("types", "SimpleNamespace", ExprContext::Load)),
                        args: Vec::new(),
                        keywords,
                    };
                    assign(store_name(local.as_str()), call)
                };
                proof {
                    lemma_appends_push(result_stmts@, s, step[0]);
                    assert(step =~= seq![step[0]]);
                }
                result_stmts.push(s);
            } else {
                proof {
                    lemma_appends_none(result_stmts@);
                }
            }
            proof {
                let t = names.subrange(0, i + 1);
                assert(t.drop_last() =~= names.subrange(0, i as int));
                assert(t.last() == names[i as int]);
                lemma_appends_trans(
                    Seq::empty(),
                    before,
                    result_stmts@,
                    namespace_package_plans(*self, module_name@, names.subrange(0, i as int)),
                    step,
                );
            }
            i += 1;
        }
        proof {
            assert(names.subrange(0, n as int) =~= names);
        }
        if result_stmts.len() == 0 {
            let mut r: Vec<Stmt> = Vec::new();
            r.push(import_from);
            proof {
                assert(r@ =~= seq![import_from]);
            }
            r
        } else {
            result_stmts
        }
    }

    /// What the `import` statement `import_stmt` becomes in the bundle (see
    /// `rewritten_import`).
    pub fn rewrite_import(&self, import_stmt: Stmt) -> (r: Vec<Stmt>)
        requires
            import_stmt is Import,
        ensures
            rewritten_import(*self, import_stmt, r@),
    {
        let ghost names = import_stmt->Import_0@;
        let n = match &import_stmt {
            Stmt::Import(names) => names.len(),
            _ => 0,
        };
        // Every name must be something the bundle holds.
        let mut k: usize = 0;
        while k < n
            invariant
                import_stmt is Import,
                names == import_stmt->Import_0@,
                n == names.len(),
                k <= n,
                forall|j: int| 0 <= j < k ==> #[trigger] import_handled(*self, names[j]),
            decreases n - k,
        {
            let handled = match &import_stmt {
                Stmt::Import(names) => {
                    let m = names[k].name.as_str();
                    if contains_char(m, '.') {
                        self.is_bundled(m) && self.registered_name(m).is_some()
                    } else {
                        self.is_bundled(m)
                    }
                },
                _ => false,
            };
            if !handled {
                let mut r: Vec<Stmt> = Vec::new();
                r.push(import_stmt);
                proof {
                    assert(!import_handled(*self, names[k as int]));
                    assert(r@ =~= seq![import_stmt]);
                }
                return r;
            }
            k += 1;
        }
        let mut result_stmts: Vec<Stmt> = Vec::new();
        let ghost mut outs: Seq<Seq<Stmt>> = seq![Seq::<Stmt>::empty()];
        let mut i: usize = 0;
        while i < n
            invariant
                import_stmt is Import,
                names == import_stmt->Import_0@,
                n == names.len(),
                i <= n,
                outs.len() == i + 1,
                outs[0] == Seq::<Stmt>::empty(),
                outs.last() == result_stmts@,
                forall|j: int| 0 <= j < n ==> #[trigger] import_handled(*self, names[j]),
                forall|j: int| 0 <= j < i ==> #[trigger] appends(outs[j], outs[j + 1], import_plan(*self, names[j], outs[j])),
            decreases n - i,
        {
            let alias = match &import_stmt {
                Stmt::Import(names) => &names[i],
                _ => {
                    return result_stmts;
                },
            };
            let m = alias.name.as_str();
            let ghost before = result_stmts@;
            let ghost a = names[i as int];
            assert(import_handled(*self, a));
            if contains_char(m, '.') {
                let parts = split_char(m, '.');
                let ghost ps = views(parts@);
                proof {
                    assert(ps.len() == parts@.len());
                }
                self.create_parent_namespaces(&parts, &mut result_stmts);
                let ghost mid = result_stmts@;
                proof {
                    lemma_parent_plan_appends(
                        before,
                        mid,
                        parent_namespace_plan(ps, parts@.len(), self.registry(), self.bundled(), before),
                    );
                }
                match &alias.asname {
                    None => {
                        self.create_dotted_assignments(&parts, &mut result_stmts);
                        proof {
                            lemma_dotted_appends(mid, result_stmts@, ps);
                        }
                    },
                    Some(t) => {
                        let s = self.create_sys_modules_assignment(t.as_str(), m);
                        proof {
                            lemma_appends_push(mid, s, |s: Stmt| is_sys_modules_assignment(s, t@, m@));
                        }
                        result_stmts.push(s);
                    },
                }
                proof {
                    let first = parent_plan_checks(
                        parent_namespace_plan(ps, parts@.len(), self.registry(), self.bundled(), before),
                    );
                    let second = match a.asname {
                        None => dotted_checks(ps),
                        Some(t) => seq![|s: Stmt| is_sys_modules_assignment(s, t@, m@)],
                    };
                    lemma_appends_trans(before, mid, result_stmts@, first, second);
                    assert(import_plan(*self, a, before) == first + second);
                }
            } else {
                if self.registered_name(m).is_some() {
                    let target = local_name(alias);
                    let s = self.create_sys_modules_assignment(target.as_str(), m);
                    proof {
                        lemma_appends_push(before, s, |s: Stmt| is_sys_modules_assignment(s, alias_local_name(a), m@));
                    }
                    result_stmts.push(s);
                } else {
                    proof {
                        lemma_appends_none(before);
                    }
                }
            }
            proof {
                outs = outs.push(result_stmts@);
                assert(appends(outs[i as int], outs[i + 1], import_plan(*self, names[i as int], outs[i as int])));
            }
            i += 1;
        }
        proof {
            assert(import_chain(*self, names, outs));
        }
        result_stmts
    }

    /// What the `from` import `import_from` of `current_module` becomes in
    /// the bundle (see `rewritten_from_import`).
    pub fn rewrite_import_from(&self, import_from: Stmt, current_module: &str, symbol_renames: &RenameMap) -> (r:
        Vec<Stmt>)
        requires
            import_from is ImportFrom,
        ensures
            rewritten_from_import(
                *self,
                import_from,
                current_module@,
                rename_map_pairs(*symbol_renames),
                rename_map_entries(*symbol_renames),
                r@,
            ),
    {
        let resolved = match &import_from {
            Stmt::ImportFrom { module, level, .. } => self.resolve_relative_import(*level, module, current_module),
            _ => None,
        };
        let module_name = match resolved {
            Some(m) => m,
            None => {
                let mut r: Vec<Stmt> = Vec::new();
                r.push(import_from);
                proof {
                    assert(r@ =~= seq![import_from]);
                }
                return r;
            },
        };
        let ghost names = import_from->ImportFrom_names@;
        if !self.is_bundled(module_name.as_str()) {
            // Does the import name a bundled submodule of a namespace package?
            let n = match &import_from {
                Stmt::ImportFrom { names, .. } => names.len(),
                _ => 0,
            };
            let mut has_bundled_submodules = false;
            let mut k: usize = 0;
            while k < n && !has_bundled_submodules
                invariant
                    import_from is ImportFrom,
                    names == import_from->ImportFrom_names@,
                    n == names.len(),
                    k <= n,
                    has_bundled_submodules ==> has_bundled_submodule_import(*self, module_name@, names),
                    forall|j: int| 0 <= j < k ==> !self.bundled().contains(module_name@ + "."@ + (#[trigger] names[j]).name@),
                decreases n - k + if has_bundled_submodules { 0int } else { 1int },
            {
                let full = match &import_from {
                    Stmt::ImportFrom { names, .. } => dotted_name(module_name.as_str(), names[k].name.as_str()),
                    _ => to_string(""),
                };
                if self.is_bundled(full.as_str()) {
                    has_bundled_submodules = true;
                    proof {
                        assert(has_bundled_submodule_import(*self, module_name@, names));
                    }
                } else {
                    k += 1;
                }
            }
            proof {
                if !has_bundled_submodules {
                    assert(!has_bundled_submodule_import(*self, module_name@, names));
                }
            }
            if !has_bundled_submodules {
                let mut r: Vec<Stmt> = Vec::new();
                match import_from {
                    Stmt::ImportFrom { module, names, level } => {
                        if level > 0 {
                            r.push(Stmt::ImportFrom { module: Some(module_name), names, level: 0 });
                        } else {
                            let original = Stmt::ImportFrom { module, names, level };
                            r.push(original);
                            proof {
                                assert(r@ =~= seq![import_from]);
                            }
                        }
                    },
                    _ => {},
                }
                return r;
            }
            return self.transform_namespace_package_imports(import_from, module_name.as_str());
        }
        if self.registered_name(module_name.as_str()).is_some() {
            let absolute = match import_from {
                Stmt::ImportFrom { module, names, level } => if level > 0 {
                    Stmt::ImportFrom { module: Some(copy_string(&module_name)), names, level: 0 }
                } else {
                    Stmt::ImportFrom { module, names, level }
                },
                _ => Stmt::Pass,
            };
            self.transform_bundled_import_from_multiple(absolute, module_name.as_str())
        } else {
            self.create_assignments_for_inlined_imports(import_from, module_name.as_str(), symbol_renames)
        }
    }

    /// What the statement `stmt` of `current_module` becomes: an import or
    /// `from` import is rewritten (see `rewritten_import` and
    /// `rewritten_from_import`); any other statement stays.
    pub fn rewrite_import_in_stmt_multiple_with_context(
        &self,
        stmt: Stmt,
        current_module: &str,
        symbol_renames: &RenameMap,
    ) -> (r: Vec<Stmt>)
        ensures
            rewritten_stmt(
                *self,
                stmt,
                current_module@,
                rename_map_pairs(*symbol_renames),
                rename_map_entries(*symbol_renames),
                r@,
            ),
    {
        match stmt {
            Stmt::Import(_) => self.rewrite_import(stmt),
            Stmt::ImportFrom { .. } => self.rewrite_import_from(stmt, current_module, symbol_renames),
            _ => {
                let mut r: Vec<Stmt> = Vec::new();
                r.push(stmt);
                proof {
                    assert(r@ =~= seq![stmt]);
                }
                r
            },
        }
    }
}

/// One step of the entry module's parent namespaces, for the prefix `p`:
/// a prefix neither wrapped nor bundled, and not yet created (by an earlier
/// import, `created`, or by the statements so far), becomes a namespace
/// object and is recorded as created; otherwise nothing changes.
pub open spec fn entry_parent_step(
    registry: Map<Seq<char>, Seq<char>>,
    bundled: Seq<Seq<char>>,
    p: Seq<char>,
    c0: Seq<Seq<char>>,
    o0: Seq<Stmt>,
    c1: Seq<Seq<char>>,
    o1: Seq<Stmt>,
) -> bool {
    if !registry.contains_key(p) && !bundled.contains(p) && !(c0.contains(p) || namespace_created(o0, p)) {
        c1 == c0.push(p) && appends(o0, o1, seq![|s: Stmt| is_namespace_module(s, p)])
    } else {
        c1 == c0 && o1 == o0
    }
}

/// The entry module's parent namespaces of `parts` (each proper prefix in
/// turn, see `entry_parent_step`) take the created namespaces from `c0` to
/// `c1` and the statements from `o0` to `o1`.
pub open spec fn entry_parents(
    registry: Map<Seq<char>, Seq<char>>,
    bundled: Seq<Seq<char>>,
    parts: Seq<Seq<char>>,
    c0: Seq<Seq<char>>,
    o0: Seq<Stmt>,
    c1: Seq<Seq<char>>,
    o1: Seq<Stmt>,
) -> bool {
    exists|states: Seq<(Seq<Seq<char>>, Seq<Stmt>)>|
        {
            &&& #[trigger] states.len() == if parts.len() >= 1 {
                parts.len()
            } else {
                1
            }
            &&& states[0] == (c0, o0)
            &&& states.last() == (c1, o1)
            &&& forall|j: int|
                0 <= j < states.len() - 1 ==> #[trigger] entry_parent_step(
                    registry,
                    bundled,
                    join_with(parts.subrange(0, j + 1), "."@),
                    states[j].0,
                    states[j].1,
                    states[j + 1].0,
                    states[j + 1].1,
                )
        }
}

/// What `import module` (the alias `a`) of the entry module does, taking
/// the created namespaces from `c0` to `c1` and the statements from `o0` to
/// `o1`: for a bundled, wrapped dotted module, its parent namespaces, then
/// (no `as`) its attribute on a namespace parent or (with `as`) the `as`
/// name bound from `sys.modules`; for a plain wrapped module, its name
/// bound from `sys.modules`; anything else changes nothing.
pub open spec fn entry_import_step(
    registry: Map<Seq<char>, Seq<char>>,
    bundled: Seq<Seq<char>>,
    a: Alias,
    c0: Seq<Seq<char>>,
    o0: Seq<Stmt>,
    c1: Seq<Seq<char>>,
    o1: Seq<Stmt>,
) -> bool {
    let m = a.name@;
    if m.contains('.') && bundled.contains(m) && registry.contains_key(m) {
        let parts = split_on(m, '.');
        exists|o_mid: Seq<Stmt>|
            {
                &&& #[trigger] entry_parents(registry, bundled, parts, c0, o0, c1, o_mid)
                &&& match a.asname {
                    None => {
                        let parent = join_with(parts.drop_last(), "."@);
                        if parts.len() > 1 && parent.len() > 0 && !registry.contains_key(parent) {
                            appends(
                                o_mid,
                                o1,
                                seq![|s: Stmt| is_dotted_attribute_assignment(s, parent, parts.last(), m)],
                            )
                        } else {
                            o1 == o_mid
                        }
                    },
                    Some(t) => appends(o_mid, o1, seq![|s: Stmt| is_sys_modules_assignment(s, t@, m)]),
                }
            }
    } else if !m.contains('.') && bundled.contains(m) && registry.contains_key(m) {
        c1 == c0 && appends(o0, o1, seq![|s: Stmt| is_sys_modules_assignment(s, alias_local_name(a), m)])
    } else {
        c1 == c0 && o1 == o0
    }
}

/// What the `import` of `names` in the entry module does (see
/// `entry_import_step`, from no statements and the created namespaces
/// `c0`), ending with the created namespaces `c1` and the statements `o`.
pub open spec fn entry_import_chain(
    registry: Map<Seq<char>, Seq<char>>,
    bundled: Seq<Seq<char>>,
    names: Seq<Alias>,
    c0: Seq<Seq<char>>,
    c1: Seq<Seq<char>>,
    o: Seq<Stmt>,
) -> bool {
    exists|states: Seq<(Seq<Seq<char>>, Seq<Stmt>)>|
        {
            &&& #[trigger] states.len() == names.len() + 1
            &&& states[0] == (c0, Seq::<Stmt>::empty())
            &&& states.last() == (c1, o)
            &&& forall|i: int|
                0 <= i < names.len() ==> #[trigger] entry_import_step(
                    registry,
                    bundled,
                    names[i],
                    states[i].0,
                    states[i].1,
                    states[i + 1].0,
                    states[i + 1].1,
                )
        }
}

impl HybridStaticBundler {
    /// The entry module's parent namespaces of the dotted name `parts` (see
    /// `entry_parents`).
    pub fn create_parent_namespaces_entry_module(&mut self, parts: &Vec<String>, result_stmts: &mut Vec<Stmt>)
        ensures
            entry_parents(
                old(self).registry(),
                old(self).bundled(),
                views(parts@),
                old(self).created_namespaces(),
                old(result_stmts)@,
                final(self).created_namespaces(),
                final(result_stmts)@,
            ),
            old(self).same_but_created_namespaces(*final(self)),
    {
        let ghost b = *self;
        let ghost ps = views(parts@);
        let ghost n: int = if ps.len() >= 1 {
            ps.len() as int
        } else {
            1
        };
        let ghost mut states: Seq<(Seq<Seq<char>>, Seq<Stmt>)> = seq![(self.created_namespaces(), result_stmts@)];
        let mut prefix: Vec<String> = Vec::new();
        if parts.len() > 0 {
            prefix.push(copy_string(&parts[0]));
        }
        proof {
            reveal_strlit(".");
        }
        let mut i: usize = 1;
        while i < parts.len()
            invariant
                1 <= i,
                i <= parts.len() || (parts.len() == 0 && i == 1),
                ps == views(parts@),
                parts.len() > 0 ==> views(prefix@) == ps.subrange(0, i as int),
                states.len() == i,
                states[0] == (b.created_namespaces(), old(result_stmts)@),
                states.last() == (self.created_namespaces(), result_stmts@),
                b.same_but_created_namespaces(*self),
                forall|j: int|
                    0 <= j < states.len() - 1 ==> #[trigger] entry_parent_step(
                        b.registry(),
                        b.bundled(),
                        join_with(ps.subrange(0, j + 1), "."@),
                        states[j].0,
                        states[j].1,
                        states[j + 1].0,
                        states[j + 1].1,
                    ),
            decreases parts.len() - i,
        {
            let parent_path = join_strings(&prefix, ".");
            let ghost p = parent_path@;
            let ghost c0 = self.created_namespaces();
            let ghost o0 = result_stmts@;
            proof {
                assert(p == join_with(ps.subrange(0, i as int), "."@));
            }
            if self.registered_name(parent_path.as_str()).is_none() && !self.is_bundled(parent_path.as_str()) {
                let already_created = self.is_created_namespace(parent_path.as_str())
                    || self.is_namespace_already_created(parent_path.as_str(), result_stmts);
                if !already_created {
                    let s = self.create_namespace_module(parent_path.as_str());
                    proof {
                        lemma_appends_push(result_stmts@, s, |s: Stmt| is_namespace_module(s, p));
                    }
                    result_stmts.push(s);
                    self.add_created_namespace(parent_path);
                }
            }
            proof {
                states = states.push((self.created_namespaces(), result_stmts@));
                let j = i - 1;
                assert(j + 1 == i);
                assert(entry_parent_step(
                    b.registry(),
                    b.bundled(),
                    join_with(ps.subrange(0, j + 1), "."@),
                    states[j].0,
                    states[j].1,
                    states[j + 1].0,
                    states[j + 1].1,
                ));
            }
            prefix.push(copy_string(&parts[i]));
            proof {
                assert(ps.subrange(0, i + 1) =~= ps.subrange(0, i as int).push(ps[i as int]));
            }
            i += 1;
        }
        proof {
            assert(states.len() == n);
        }
    }

    /// What the `import` statement `import_stmt` of the entry module becomes
    /// in the bundle: when every name can stand as statements (see
    /// `import_handled`), the statements of each in turn (see
    /// `entry_import_step`); else the import itself. The namespaces created
    /// on the way are recorded either way.
    pub fn rewrite_import_entry_module(&mut self, import_stmt: Stmt) -> (r: Vec<Stmt>)
        requires
            import_stmt is Import,
        ensures
            old(self).same_but_created_namespaces(*final(self)),
            exists|o: Seq<Stmt>|
                {
                    &&& #[trigger] entry_import_chain(
                        old(self).registry(),
                        old(self).bundled(),
                        import_stmt->Import_0@,
                        old(self).created_namespaces(),
                        final(self).created_namespaces(),
                        o,
                    )
                    &&& if forall|i: int|
                        0 <= i < import_stmt->Import_0@.len() ==> #[trigger] import_handled(
                            *old(self),
                            import_stmt->Import_0@[i],
                        ) {
                        r@ == o
                    } else {
                        r@ == seq![import_stmt]
                    }
                },
    {
        let ghost b = *self;
        let ghost names = import_stmt->Import_0@;
        let n = match &import_stmt {
            Stmt::Import(names) => names.len(),
            _ => 0,
        };
        let mut result_stmts: Vec<Stmt> = Vec::new();
        let mut handled_all = true;
        let ghost mut states: Seq<(Seq<Seq<char>>, Seq<Stmt>)> = seq![(self.created_namespaces(), result_stmts@)];
        let mut i: usize = 0;
        while i < n
            invariant
                import_stmt is Import,
                names == import_stmt->Import_0@,
                n == names.len(),
                i <= n,
                states.len() == i + 1,
                states[0] == (b.created_namespaces(), Seq::<Stmt>::empty()),
                states.last() == (self.created_namespaces(), result_stmts@),
                b.same_but_created_namespaces(*self),
                handled_all <==> forall|j: int| 0 <= j < i ==> #[trigger] import_handled(b, names[j]),
                forall|j: int|
                    0 <= j < i ==> #[trigger] entry_import_step(
                        b.registry(),
                        b.bundled(),
                        names[j],
                        states[j].0,
                        states[j].1,
                        states[j + 1].0,
                        states[j + 1].1,
                    ),
            decreases n - i,
        {
            let alias = match &import_stmt {
                Stmt::Import(names) => &names[i],
                _ => {
                    return result_stmts;
                },
            };
            let ghost a = names[i as int];
            let ghost c0 = self.created_namespaces();
            let ghost o0 = result_stmts@;
            let m = alias.name.as_str();
            let dotted_module = contains_char(m, '.');
            let bundled = self.is_bundled(m);
            let wrapped = self.registered_name(m).is_some();
            if dotted_module {
                if bundled && wrapped {
                    let parts = split_char(m, '.');
                    let ghost ps = views(parts@);
                    self.create_parent_namespaces_entry_module(&parts, &mut result_stmts);
                    let ghost o_mid = result_stmts@;
                    match &alias.asname {
                        None => {
                            self.handle_dotted_import_attribute(&parts, m, &mut result_stmts);
                            proof {
                                let parent = join_with(ps.drop_last(), "."@);
                                if ps.len() > 1 && parent.len() > 0 && !b.registry().contains_key(parent) {
                                    let f = |s: Stmt| is_dotted_attribute_assignment(s, parent, ps.last(), m@);
                                    assert(result_stmts@ =~= o_mid.push(result_stmts@.last()));
                                    lemma_appends_push(o_mid, result_stmts@.last(), f);
                                }
                            }
                        },
                        Some(t) => {
                            let s = self.create_sys_modules_assignment(t.as_str(), m);
                            proof {
                                lemma_appends_push(result_stmts@, s, |s: Stmt| is_sys_modules_assignment(s, t@, m@));
                            }
                            result_stmts.push(s);
                        },
                    }
                    proof {
                        assert(entry_parents(b.registry(), b.bundled(), ps, c0, o0, self.created_namespaces(), o_mid));
                    }
                } else {
                    handled_all = false;
                }
            } else {
                if !bundled {
                    handled_all = false;
                } else if wrapped {
                    let target = local_name(alias);
                    let s = self.create_sys_modules_assignment(target.as_str(), m);
                    proof {
                        lemma_appends_push(result_stmts@, s, |s: Stmt| is_sys_modules_assignment(s, alias_local_name(a), m@));
                    }
                    result_stmts.push(s);
                }
            }
            proof {
                states = states.push((self.created_namespaces(), result_stmts@));
                assert(entry_import_step(
                    b.registry(),
                    b.bundled(),
                    names[i as int],
                    states[i as int].0,
                    states[i as int].1,
                    states[i + 1].0,
                    states[i + 1].1,
                ));
                assert(import_handled(b, a) == if dotted_module {
                    bundled && wrapped
                } else {
                    bundled
                });
                assert(handled_all <==> forall|j: int| 0 <= j < i + 1 ==> #[trigger] import_handled(b, names[j])) by {
                    if handled_all {
                        assert forall|j: int| 0 <= j < i + 1 implies #[trigger] import_handled(b, names[j]) by {
                            if j < i {
                            }
                        }
                    }
                }
            }
            i += 1;
        }
        proof {
            assert(entry_import_chain(
                b.registry(),
                b.bundled(),
                names,
                b.created_namespaces(),
                self.created_namespaces(),
                result_stmts@,
            ));
        }
        if handled_all {
            result_stmts
        } else {
            let mut r: Vec<Stmt> = Vec::new();
            r.push(import_stmt);
            proof {
                assert(r@ =~= seq![import_stmt]);
            }
            r
        }
    }
}

} // verus!
