//! What an import from an inlined module becomes in the bundle: namespace
//! objects standing for inlined submodules, `sys.modules` entries for
//! wrapped ones, and assignments binding imported names to the names the
//! bundle gave them.
use vstd::prelude::*;

use crate::ast::{alias_local_name, local_name, Alias, Expr, ExprContext, Stmt};
use crate::builders::{
    assign, assigns, is_module_attr_assignment, is_name, is_name_attr, is_reassignment,
    is_sys_modules_assignment, name_attr, name_expr, store_name,
};
use crate::code_generator::HybridStaticBundler;
use crate::collections::{
    name_map_entries, name_map_get, name_map_pairs, name_map_to_vec, pair_views, rename_map_entries,
    rename_map_get, rename_map_pairs, RenameMap,
};
use crate::alias_rewrite::renamed;
use crate::namespaces::{importing_module, is_first_dot};
use crate::text::{copy_string, str_eq, to_string};

verus! {

/// `s` with its first dotted part left off, if it has a `.`.
pub open spec fn without_first_part(s: Seq<char>) -> Option<Seq<char>> {
    if s.contains('.') {
        Some(s.skip((choose|i: int| is_first_dot(s, i)) + 1))
    } else {
        None
    }
}

/// `local = types.SimpleNamespace()`.
pub open spec fn is_simple_namespace(s: Stmt, local: Seq<char>) -> bool {
    assigns(
        s,
        |t: Expr| is_name(t, local, ExprContext::Store),
        |v: Expr|
            v matches Expr::Call { func, args, keywords } && is_name_attr(
                *func,
                "types"@,
                "SimpleNamespace"@,
                ExprContext::Load,
            ) && args@.len() == 0 && keywords@.len() == 0,
    )
}

/// `namespace.attr = value`.
pub open spec fn is_namespace_attr(s: Stmt, namespace: Seq<char>, attr: Seq<char>, value: Seq<char>) -> bool {
    assigns(
        s,
        |t: Expr| is_name_attr(t, namespace, attr, ExprContext::Store),
        |v: Expr| is_name(v, value, ExprContext::Load),
    )
}

/// `after` is `before` with statements appended, one for each entry of
/// `plan`, each meeting its entry.
pub open spec fn appends(before: Seq<Stmt>, after: Seq<Stmt>, plan: Seq<spec_fn(Stmt) -> bool>) -> bool {
    &&& after.len() == before.len() + plan.len()
    &&& after.subrange(0, before.len() as int) == before
    &&& forall|i: int| 0 <= i < plan.len() ==> (#[trigger] plan[i])(after[before.len() + i])
}

/// `namespace.original = renamed` for each rename of `pairs`, in order.
pub open spec fn symbols_plan(namespace: Seq<char>, pairs: Seq<(Seq<char>, Seq<char>)>) -> Seq<
    spec_fn(Stmt) -> bool,
> {
    Seq::new(pairs.len(), |i: int| |s: Stmt| is_namespace_attr(s, namespace, pairs[i].0, pairs[i].1))
}

/// The renames of `key`, else of `key` without its first part, as a
/// namespace gets them.
pub open spec fn namespace_symbols_plan(
    orders: Map<Seq<char>, Seq<(Seq<char>, Seq<char>)>>,
    namespace: Seq<char>,
    key: Seq<char>,
) -> Seq<spec_fn(Stmt) -> bool> {
    if orders.contains_key(key) {
        symbols_plan(namespace, orders[key])
    } else {
        match without_first_part(key) {
            Some(k2) => if orders.contains_key(k2) {
                symbols_plan(namespace, orders[k2])
            } else {
                Seq::empty()
            },
            None => Seq::empty(),
        }
    }
}

/// The module whose renames fill the namespace of `imported` (imported
/// from `resolved` as `full`): `full` when it was inlined, else, for a
/// dotted `resolved`, that without its first part followed by `imported`.
pub open spec fn namespace_key(
    inlined: Seq<Seq<char>>,
    resolved: Seq<char>,
    imported: Seq<char>,
    full: Seq<char>,
) -> Seq<char> {
    if inlined.contains(full) {
        full
    } else {
        match without_first_part(resolved) {
            Some(r2) => r2 + "."@ + imported,
            None => full,
        }
    }
}

/// A namespace `local` standing for the inlined module `full` (imported as
/// `imported` from `resolved`), with its symbols set on it.
pub open spec fn namespace_plan(
    inlined: Seq<Seq<char>>,
    orders: Map<Seq<char>, Seq<(Seq<char>, Seq<char>)>>,
    local: Seq<char>,
    imported: Seq<char>,
    resolved: Seq<char>,
    full: Seq<char>,
) -> Seq<spec_fn(Stmt) -> bool> {
    seq![|s: Stmt| is_simple_namespace(s, local)] + namespace_symbols_plan(
        orders,
        local,
        namespace_key(inlined, resolved, imported, full),
    )
}

/// The module whose renames apply to a symbol imported from `resolved`:
/// `resolved` when it has renames, else `resolved` without its first part
/// when that has, else `resolved`.
pub open spec fn symbol_key(renames: Map<Seq<char>, Map<Seq<char>, Seq<char>>>, resolved: Seq<char>) -> Seq<
    char,
> {
    if renames.contains_key(resolved) {
        resolved
    } else {
        match without_first_part(resolved) {
            Some(r2) => if renames.contains_key(r2) {
                r2
            } else {
                resolved
            },
            None => resolved,
        }
    }
}

/// The name the bundle gave `imported` of the module `key`.
pub open spec fn renamed_symbol(
    renames: Map<Seq<char>, Map<Seq<char>, Seq<char>>>,
    key: Seq<char>,
    imported: Seq<char>,
) -> Seq<char> {
    if renames.contains_key(key) {
        renamed(imported, renames[key])
    } else {
        imported
    }
}

/// `local = renamed` when the names differ, then `module.local = local`.
pub open spec fn symbol_import_plan(
    renames: Map<Seq<char>, Map<Seq<char>, Seq<char>>>,
    local: Seq<char>,
    imported: Seq<char>,
    resolved: Seq<char>,
) -> Seq<spec_fn(Stmt) -> bool> {
    let target = renamed_symbol(renames, symbol_key(renames, resolved), imported);
    (if local != target {
        seq![|s: Stmt| is_reassignment(s, local, target)]
    } else {
        Seq::empty()
    }) + seq![|s: Stmt| is_module_attr_assignment(s, "module"@, local)]
}

/// What one name of `from resolved import ...` becomes when `resolved` was
/// inlined: a wrapped submodule is taken from `sys.modules`, an inlined
/// one becomes a namespace, and a symbol is bound to its name in the bundle.
pub open spec fn inlined_alias_plan(
    b: HybridStaticBundler,
    orders: Map<Seq<char>, Seq<(Seq<char>, Seq<char>)>>,
    renames: Map<Seq<char>, Map<Seq<char>, Seq<char>>>,
    resolved: Seq<char>,
    a: Alias,
) -> Seq<spec_fn(Stmt) -> bool> {
    let imported = a.name@;
    let local = alias_local_name(a);
    let full = resolved + "."@ + imported;
    if importing_module(b.inlined(), b.bundled(), resolved, imported, full) {
        if b.registry().contains_key(full) {
            seq![|s: Stmt| is_sys_modules_assignment(s, local, full)]
        } else {
            namespace_plan(b.inlined(), orders, local, imported, resolved, full)
        }
    } else {
        symbol_import_plan(renames, local, imported, resolved)
    }
}

/// What the names of `from resolved import ...` become, in order.
pub open spec fn inlined_import_plan(
    b: HybridStaticBundler,
    orders: Map<Seq<char>, Seq<(Seq<char>, Seq<char>)>>,
    renames: Map<Seq<char>, Map<Seq<char>, Seq<char>>>,
    resolved: Seq<char>,
    names: Seq<Alias>,
) -> Seq<spec_fn(Stmt) -> bool>
    decreases names.len(),
{
    if names.len() == 0 {
        Seq::empty()
    } else {
        inlined_import_plan(b, orders, renames, resolved, names.drop_last()) + inlined_alias_plan(
            b,
            orders,
            renames,
            resolved,
            names.last(),
        )
    }
}

/// Whether `resolved` (or, when dotted, `resolved` without its first part)
/// was inlined.
pub open spec fn resolves_to_inlined(inlined: Seq<Seq<char>>, resolved: Seq<char>) -> bool {
    inlined.contains(resolved) || (without_first_part(resolved) matches Some(r2) && inlined.contains(r2))
}

/// What one name of `from module import ...` becomes when assignments are
/// made for symbols of an inlined `module`: a namespace for a bundled
/// submodule, filled from its renames; a binding of the local name to the
/// name the bundle gave the symbol, when they differ.
pub open spec fn inlined_assignment_plan(
    inlined: Seq<Seq<char>>,
    bundled: Seq<Seq<char>>,
    orders: Map<Seq<char>, Seq<(Seq<char>, Seq<char>)>>,
    renames: Map<Seq<char>, Map<Seq<char>, Seq<char>>>,
    module: Seq<char>,
    a: Alias,
) -> Seq<spec_fn(Stmt) -> bool> {
    let imported = a.name@;
    let local = alias_local_name(a);
    let full = module + "."@ + imported;
    if inlined.contains(full) || bundled.contains(full) {
        seq![|s: Stmt| is_simple_namespace(s, local)] + if orders.contains_key(full) {
            symbols_plan(local, orders[full])
        } else {
            Seq::empty()
        }
    } else {
        let target = renamed_symbol(renames, module, imported);
        if local != target {
            seq![|s: Stmt| is_reassignment(s, local, target)]
        } else {
            Seq::empty()
        }
    }
}

/// What the names of `from module import ...` become, in order.
pub open spec fn inlined_assignments_plan(
    inlined: Seq<Seq<char>>,
    bundled: Seq<Seq<char>>,
    orders: Map<Seq<char>, Seq<(Seq<char>, Seq<char>)>>,
    renames: Map<Seq<char>, Map<Seq<char>, Seq<char>>>,
    module: Seq<char>,
    names: Seq<Alias>,
) -> Seq<spec_fn(Stmt) -> bool>
    decreases names.len(),
{
    if names.len() == 0 {
        Seq::empty()
    } else {
        inlined_assignments_plan(inlined, bundled, orders, renames, module, names.drop_last())
            + inlined_assignment_plan(inlined, bundled, orders, renames, module, names.last())
    }
}

/// Appending in two steps appends what both plans say, in order.
pub proof fn lemma_appends_trans(
    a: Seq<Stmt>,
    b: Seq<Stmt>,
    c: Seq<Stmt>,
    p: Seq<spec_fn(Stmt) -> bool>,
    q: Seq<spec_fn(Stmt) -> bool>,
)
    requires
        appends(a, b, p),
        appends(b, c, q),
    ensures
        appends(a, c, p + q),
{
    assert(c.subrange(0, a.len() as int) =~= b.subrange(0, a.len() as int));
    assert forall|i: int| 0 <= i < (p + q).len() implies (#[trigger] (p + q)[i])(c[a.len() + i]) by {
        if i < p.len() {
            assert(c[a.len() + i] == c.subrange(0, b.len() as int)[a.len() + i]);
            assert((p + q)[i] == p[i]);
        } else {
            assert((p + q)[i] == q[i - p.len()]);
            assert(b.len() + (i - p.len()) == a.len() + i);
        }
    }
}

/// Nothing appended.
pub proof fn lemma_appends_none(a: Seq<Stmt>)
    ensures
        appends(a, a, Seq::empty()),
{
    assert(a.subrange(0, a.len() as int) =~= a);
}

/// One statement appended.
pub proof fn lemma_appends_push(a: Seq<Stmt>, s: Stmt, f: spec_fn(Stmt) -> bool)
    requires
        f(s),
    ensures
        appends(a, a.push(s), seq![f]),
{
    assert(a.push(s).subrange(0, a.len() as int) =~= a);
    assert(a.push(s)[a.len() as int] == s);
}

/// `s` with its first dotted part left off, if it has a `.`.
pub fn strip_first_part(s: &str) -> (r: Option<String>)
    ensures
        match r {
            Some(x) => without_first_part(s@) == Some(x@),
            None => without_first_part(s@) is None,
        },
{
    let n = s.unicode_len();
    let mut i: usize = 0;
    while i < n
        invariant
            n == s@.len(),
            i <= n,
            forall|j: int| 0 <= j < i ==> s@[j] != '.',
        decreases n - i,
    {
        if s.get_char(i) == '.' {
            let rest = s.substring_char(i + 1, n).to_owned();
            proof {
                let r = s@;
                assert(is_first_dot(r, i as int));
                assert(r.contains('.'));
                let k = choose|k: int| is_first_dot(r, k);
                if k < i {
                    assert(r[k] != '.');
                }
                if k > i {
                    assert(r[i as int] != '.');
                }
                assert(rest@ =~= r.skip(i + 1));
            }
            return Some(rest);
        }
        i += 1;
    }
    proof {
        if s@.contains('.') {
            let k = choose|k: int| 0 <= k < s@.len() && s@[k] == '.';
            assert(s@[k] != '.');
        }
    }
    None
}

/// `module + "." + name`.
fn dotted(module: &str, name: &str) -> (r: String)
    ensures
        r@ == module@ + "."@ + name@,
{
    proof {
        reveal_strlit(".");
    }
    let mut r = to_string(module);
    r.append(".");
    r.append(name);
    r
}

impl HybridStaticBundler {
    /// Appends `namespace_name.original_name = target_name`.
    pub fn add_symbol_to_namespace(
        &self,
        namespace_name: &str,
        original_name: &str,
        target_name: &str,
        body: &mut Vec<Stmt>,
    )
        ensures
            appends(
                old(body)@,
                final(body)@,
                seq![|s: Stmt| is_namespace_attr(s, namespace_name@, original_name@, target_name@)],
            ),
    {
        let s = assign(name_attr(namespace_name, original_name, ExprContext::Store), name_expr(target_name));
        proof {
            lemma_appends_push(
                body@,
                s,
                |s: Stmt| is_namespace_attr(s, namespace_name@, original_name@, target_name@),
            );
        }
        body.push(s);
    }

    /// Appends, for each rename of `inlined_module_key` (or, when there are
    /// none, of that key without its first part), the rename's original name
    /// set on the namespace `local_name` to the new one.
    pub fn add_symbols_to_namespace(
        &self,
        local_name: &str,
        imported_name: &str,
        inlined_module_key: &str,
        symbol_renames: &RenameMap,
        body: &mut Vec<Stmt>,
    )
        ensures
            appends(
                old(body)@,
                final(body)@,
                namespace_symbols_plan(rename_map_pairs(*symbol_renames), local_name@, inlined_module_key@),
            ),
    {
        let ghost orders = rename_map_pairs(*symbol_renames);
        let found = match rename_map_get(symbol_renames, inlined_module_key) {
            Some(m) => Some(m),
            None => match strip_first_part(inlined_module_key) {
                Some(k2) => rename_map_get(symbol_renames, k2.as_str()),
                None => None,
            },
        };
        match found {
            Some(module_renames) => {
                let pairs = name_map_to_vec(module_renames);
                let ghost plan = symbols_plan(local_name@, pair_views(pairs@));
                proof {
                    assert(plan == namespace_symbols_plan(orders, local_name@, inlined_module_key@));
                    lemma_appends_none(body@);
                    assert(plan.subrange(0, 0) =~= Seq::<spec_fn(Stmt) -> bool>::empty());
                }
                let ghost start = body@;
                let mut i: usize = 0;
                while i < pairs.len()
                    invariant
                        i <= pairs.len(),
                        plan == symbols_plan(local_name@, pair_views(pairs@)),
                        appends(start, body@, plan.subrange(0, i as int)),
                    decreases pairs.len() - i,
                {
                    let ghost before = body@;
                    self.add_symbol_to_namespace(local_name, pairs[i].0.as_str(), pairs[i].1.as_str(), body);
                    proof {
                        let f = |s: Stmt| is_namespace_attr(s, local_name@, pairs@[i as int].0@, pairs@[i as int].1@);
                        lemma_appends_trans(start, before, body@, plan.subrange(0, i as int), seq![f]);
                        assert(pair_views(pairs@)[i as int] == (pairs@[i as int].0@, pairs@[i as int].1@));
                        assert(plan[i as int] == f);
                        assert(plan.subrange(0, i as int) + seq![f] =~= plan.subrange(0, i + 1));
                    }
                    i += 1;
                }
                proof {
                    assert(plan.subrange(0, pairs@.len() as int) =~= plan);
                }
            },
            None => {
                proof {
                    lemma_appends_none(body@);
                    assert(namespace_symbols_plan(orders, local_name@, inlined_module_key@) =~= Seq::<
                        spec_fn(Stmt) -> bool,
                    >::empty());
                }
            },
        }
    }

    /// Appends `local_name = types.SimpleNamespace()`, then the symbols of
    /// the inlined module `full_module_path` (see `namespace_plan`) set on it.
    pub fn create_namespace_for_inlined_module(
        &self,
        local_name: &str,
        imported_name: &str,
        resolved_module: &str,
        full_module_path: &str,
        symbol_renames: &RenameMap,
        body: &mut Vec<Stmt>,
    )
        ensures
            appends(
                old(body)@,
                final(body)@,
                namespace_plan(
                    self.inlined(),
                    rename_map_pairs(*symbol_renames),
                    local_name@,
                    imported_name@,
                    resolved_module@,
                    full_module_path@,
                ),
            ),
    {
        let inlined_module_key = if self.is_inlined(full_module_path) {
            to_string(full_module_path)
        } else {
            match strip_first_part(resolved_module) {
                Some(r2) => dotted(r2.as_str(), imported_name),
                None => to_string(full_module_path),
            }
        };
        proof {
            reveal_strlit("types");
            reveal_strlit("SimpleNamespace");
        }
        let call = Expr::Call {
            func: Box::new(name_attr("types", "SimpleNamespace", ExprContext::Load)),
            args: Vec::new(),
            keywords: Vec::new(),
        };
        let s = assign(store_name(local_name), call);
        let ghost start = body@;
        let ghost f: spec_fn(Stmt) -> bool = |s: Stmt| is_simple_namespace(s, local_name@);
        proof {
            lemma_appends_push(body@, s, f);
        }
        body.push(s);
        let ghost mid = body@;
        self.add_symbols_to_namespace(local_name, imported_name, inlined_module_key.as_str(), symbol_renames, body);
        proof {
            lemma_appends_trans(
                start,
                mid,
                body@,
                seq![f],
                namespace_symbols_plan(rename_map_pairs(*symbol_renames), local_name@, inlined_module_key@),
            );
        }
    }

    /// Appends what importing `imported_name` as `local_name` from the
    /// inlined module `resolved_module` becomes (see `symbol_import_plan`).
    pub fn handle_symbol_import_from_inlined_module(
        &self,
        imported_name: &str,
        local_name: &str,
        resolved_module: &str,
        symbol_renames: &RenameMap,
        body: &mut Vec<Stmt>,
    )
        ensures
            appends(
                old(body)@,
                final(body)@,
                symbol_import_plan(
                    rename_map_entries(*symbol_renames),
                    local_name@,
                    imported_name@,
                    resolved_module@,
                ),
            ),
    {
        let ghost renames = rename_map_entries(*symbol_renames);
        let module_key = match rename_map_get(symbol_renames, resolved_module) {
            Some(_) => to_string(resolved_module),
            None => match strip_first_part(resolved_module) {
                Some(r2) => match rename_map_get(symbol_renames, r2.as_str()) {
                    Some(_) => r2,
                    None => to_string(resolved_module),
                },
                None => to_string(resolved_module),
            },
        };
        let target = match rename_map_get(symbol_renames, module_key.as_str()) {
            Some(m) => match name_map_get(m, imported_name) {
                Some(n) => copy_string(n),
                None => to_string(imported_name),
            },
            None => to_string(imported_name),
        };
        proof {
            assert(module_key@ == symbol_key(renames, resolved_module@));
            assert(target@ == renamed_symbol(renames, module_key@, imported_name@));
            lemma_appends_none(body@);
        }
        let ghost start = body@;
        let ghost first: Seq<spec_fn(Stmt) -> bool> = if local_name@ != target@ {
            seq![|s: Stmt| is_reassignment(s, local_name@, target@)]
        } else {
            Seq::empty()
        };
        if !str_eq(local_name, target.as_str()) {
            let s = self.create_reassignment(local_name, target.as_str());
            proof {
                lemma_appends_push(body@, s, |s: Stmt| is_reassignment(s, local_name@, target@));
            }
            body.push(s);
        }
        let ghost mid = body@;
        proof {
            reveal_strlit("module");
        }
        let s = self.create_module_attr_assignment("module", local_name);
        let ghost g: spec_fn(Stmt) -> bool = |s: Stmt| is_module_attr_assignment(s, "module"@, local_name@);
        proof {
            lemma_appends_push(body@, s, g);
        }
        body.push(s);
        proof {
            lemma_appends_trans(start, mid, body@, first, seq![g]);
        }
    }

    /// When `resolved_module` (or, when dotted, it without its first part)
    /// was inlined, appends what each name of the `from` import
    /// `import_from` becomes (see `inlined_import_plan`) and answers true;
    /// else changes nothing and answers false.
    pub fn handle_inlined_module_import(
        &self,
        import_from: &Stmt,
        resolved_module: &str,
        symbol_renames: &RenameMap,
        body: &mut Vec<Stmt>,
    ) -> (r: bool)
        requires
            import_from is ImportFrom,
        ensures
            r == resolves_to_inlined(self.inlined(), resolved_module@),
            !r ==> final(body)@ == old(body)@,
            r ==> appends(
                old(body)@,
                final(body)@,
                inlined_import_plan(
                    *self,
                    rename_map_pairs(*symbol_renames),
                    rename_map_entries(*symbol_renames),
                    resolved_module@,
                    import_from->ImportFrom_names@,
                ),
            ),
    {
        let ghost orders = rename_map_pairs(*symbol_renames);
        let ghost renames = rename_map_entries(*symbol_renames);
        let is_inlined = if self.is_inlined(resolved_module) {
            true
        } else {
            match strip_first_part(resolved_module) {
                Some(r2) => self.is_inlined(r2.as_str()),
                None => false,
            }
        };
        if !is_inlined {
            return false;
        }
        let names = match import_from {
            Stmt::ImportFrom { names, .. } => names,
            _ => {
                return true;
            },
        };
        let ghost start = body@;
        proof {
            lemma_appends_none(body@);
            assert(names@.subrange(0, 0) =~= Seq::<Alias>::empty());
        }
        let mut i: usize = 0;
        while i < names.len()
            invariant
                i <= names.len(),
                orders == rename_map_pairs(*symbol_renames),
                renames == rename_map_entries(*symbol_renames),
                appends(
                    start,
                    body@,
                    inlined_import_plan(*self, orders, renames, resolved_module@, names@.subrange(0, i as int)),
                ),
            decreases names.len() - i,
        {
            let alias = &names[i];
            let imported_name = alias.name.as_str();
            let local = local_name(alias);
            let full_module_path = dotted(resolved_module, imported_name);
            let ghost before = body@;
            let ghost step = inlined_alias_plan(*self, orders, renames, resolved_module@, names@[i as int]);
            if self.check_if_importing_module(resolved_module, imported_name, full_module_path.as_str()) {
                if self.registered_name(full_module_path.as_str()).is_some() {
                    let s = self.create_sys_modules_assignment(local.as_str(), full_module_path.as_str());
                    proof {
                        lemma_appends_push(
                            body@,
                            s,
                            |s: Stmt| is_sys_modules_assignment(s, local@, full_module_path@),
                        );
                    }
                    body.push(s);
                } else {
                    self.create_namespace_for_inlined_module(
                        local.as_str(),
                        imported_name,
                        resolved_module,
                        full_module_path.as_str(),
                        symbol_renames,
                        body,
                    );
                }
            } else {
                self.handle_symbol_import_from_inlined_module(
                    imported_name,
                    local.as_str(),
                    resolved_module,
                    symbol_renames,
                    body,
                );
            }
            proof {
                let t = names@.subrange(0, i + 1);
                assert(t.drop_last() =~= names@.subrange(0, i as int));
                assert(t.last() == names@[i as int]);
                lemma_appends_trans(
                    start,
                    before,
                    body@,
                    inlined_import_plan(*self, orders, renames, resolved_module@, names@.subrange(0, i as int)),
                    step,
                );
            }
            i += 1;
        }
        proof {
            assert(names@.subrange(0, names@.len() as int) =~= names@);
        }
        true
    }

    /// The assignments that stand for `from module_name import ...` once
    /// `module_name` was inlined (see `inlined_assignments_plan`).
    pub fn create_assignments_for_inlined_imports(
        &self,
        import_from: Stmt,
        module_name: &str,
        symbol_renames: &RenameMap,
    ) -> (r: Vec<Stmt>)
        requires
            import_from is ImportFrom,
        ensures
            appends(
                Seq::empty(),
                r@,
                inlined_assignments_plan(
                    self.inlined(),
                    self.bundled(),
                    rename_map_pairs(*symbol_renames),
                    rename_map_entries(*symbol_renames),
                    module_name@,
                    import_from->ImportFrom_names@,
                ),
            ),
    {
        let ghost orders = rename_map_pairs(*symbol_renames);
        let ghost renames = rename_map_entries(*symbol_renames);
        let mut assignments: Vec<Stmt> = Vec::new();
        let names = match import_from {
            Stmt::ImportFrom { names, .. } => names,
            _ => {
                return assignments;
            },
        };
        proof {
            lemma_appends_none(assignments@);
            assert(names@.subrange(0, 0) =~= Seq::<Alias>::empty());
        }
        let mut i: usize = 0;
        while i < names.len()
            invariant
                i <= names.len(),
                orders == rename_map_pairs(*symbol_renames),
                renames == rename_map_entries(*symbol_renames),
                appends(
                    Seq::empty(),
                    assignments@,
                    inlined_assignments_plan(
                        self.inlined(),
                        self.bundled(),
                        orders,
                        renames,
                        module_name@,
                        names@.subrange(0, i as int),
                    ),
                ),
            decreases names.len() - i,
        {
            let alias = &names[i];
            let imported_name = alias.name.as_str();
            let local = local_name(alias);
            let full_module_path = dotted(module_name, imported_name);
            let ghost before = assignments@;
            let ghost step = inlined_assignment_plan(
                self.inlined(),
                self.bundled(),
                orders,
                renames,
                module_name@,
                names@[i as int],
            );
            if self.is_inlined(full_module_path.as_str()) || self.is_bundled(full_module_path.as_str()) {
                proof {
                    reveal_strlit("types");
                    reveal_strlit("SimpleNamespace");
                }
                let call = Expr::Call {
                    func: Box::new(name_attr("types", "SimpleNamespace", ExprContext::Load)),
                    args: Vec::new(),
                    keywords: Vec::new(),
                };
                let s = assign(store_name(local.as_str()), call);
                let ghost f: spec_fn(Stmt) -> bool = |s: Stmt| is_simple_namespace(s, local@);
                proof {
                    lemma_appends_push(assignments@, s, f);
                }
                assignments.push(s);
                let ghost mid = assignments@;
                match rename_map_get(symbol_renames, full_module_path.as_str()) {
                    Some(module_renames) => {
                        let pairs = name_map_to_vec(module_renames);
                        let ghost plan = symbols_plan(local@, pair_views(pairs@));
                        proof {
                            lemma_appends_none(assignments@);
                            assert(plan.subrange(0, 0) =~= Seq::<spec_fn(Stmt) -> bool>::empty());
                        }
                        let mut k: usize = 0;
                        while k < pairs.len()
                            invariant
                                k <= pairs.len(),
                                plan == symbols_plan(local@, pair_views(pairs@)),
                                appends(mid, assignments@, plan.subrange(0, k as int)),
                            decreases pairs.len() - k,
                        {
                            let ghost b2 = assignments@;
                            self.add_symbol_to_namespace(
                                local.as_str(),
                                pairs[k].0.as_str(),
                                pairs[k].1.as_str(),
                                &mut assignments,
                            );
                            proof {
                                let g = |s: Stmt|
                                    is_namespace_attr(s, local@, pairs@[k as int].0@, pairs@[k as int].1@);
                                lemma_appends_trans(mid, b2, assignments@, plan.subrange(0, k as int), seq![g]);
                                assert(pair_views(pairs@)[k as int] == (pairs@[k as int].0@, pairs@[k as int].1@));
                                assert(plan[k as int] == g);
                                assert(plan.subrange(0, k as int) + seq![g] =~= plan.subrange(0, k + 1));
                            }
                            k += 1;
                        }
                        proof {
                            assert(plan.subrange(0, pairs@.len() as int) =~= plan);
                            lemma_appends_trans(before, mid, assignments@, seq![f], plan);
                        }
                    },
                    None => {
                        proof {
                            lemma_appends_none(assignments@);
                            lemma_appends_trans(before, mid, assignments@, seq![f], Seq::empty());
                            assert(seq![f] + Seq::<spec_fn(Stmt) -> bool>::empty() =~= seq![f]);
                        }
                    },
                }
            } else {
                let target = match rename_map_get(symbol_renames, module_name) {
                    Some(m) => match name_map_get(m, imported_name) {
                        Some(n) => copy_string(n),
                        None => to_string(imported_name),
                    },
                    None => to_string(imported_name),
                };
                proof {
                    assert(target@ == renamed_symbol(renames, module_name@, imported_name@));
                }
                if !str_eq(local.as_str(), target.as_str()) {
                    let s = self.create_reassignment(local.as_str(), target.as_str());
                    proof {
                        lemma_appends_push(assignments@, s, |s: Stmt| is_reassignment(s, local@, target@));
                    }
                    assignments.push(s);
                } else {
                    proof {
                        lemma_appends_none(assignments@);
                    }
                }
            }
            proof {
                let t = names@.subrange(0, i + 1);
                assert(t.drop_last() =~= names@.subrange(0, i as int));
                assert(t.last() == names@[i as int]);
                lemma_appends_trans(
                    Seq::empty(),
                    before,
                    assignments@,
                    inlined_assignments_plan(
                        self.inlined(),
                        self.bundled(),
                        orders,
                        renames,
                        module_name@,
                        names@.subrange(0, i as int),
                    ),
                    step,
                );
            }
            i += 1;
        }
        proof {
            assert(names@.subrange(0, names@.len() as int) =~= names@);
        }
        assignments
    }
}

} // verus!
