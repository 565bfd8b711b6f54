//! The names a module defines at top level, assignments already made in the
//! bundle, and imports nothing uses.
use vstd::prelude::*;

use indexmap::IndexSet;

use crate::ast::{alias_local_name, local_name, Alias, Expr, ModModule, Stmt};
use crate::code_generator::{insert_all, HybridStaticBundler};
use crate::collections::{
    index_set_insert, index_set_items, index_set_new, name_map_pairs, name_map_to_vec, pair_views, NameMap,
};
use crate::cribo_graph::UnusedImportInfo;
use crate::import_scan::{lemma_insert_all_concat, BundleModule};
use crate::orchestrator::push_unique;
use crate::text::{
    contains_char, copy_string, join_strings, join_with, lemma_split_nonempty, split_char, split_on,
    str_eq, views,
};

verus! {

/// The one name an assignment's single target is, if it is a name.
pub open spec fn simple_target(targets: Seq<Expr>) -> Option<Seq<char>> {
    if targets.len() == 1 {
        match targets[0] {
            Expr::Name { id, .. } => Some(id@),
            _ => None,
        }
    } else {
        None
    }
}

/// The global symbol a top-level statement defines: a function's or a
/// class's name, the name an assignment to a single name binds, or the name
/// an annotated assignment binds.
pub open spec fn stmt_symbol(s: Stmt) -> Option<Seq<char>> {
    match s {
        Stmt::FunctionDef { name, .. } => Some(name@),
        Stmt::ClassDef { name, .. } => Some(name@),
        Stmt::Assign { targets, .. } => simple_target(targets@),
        Stmt::AnnAssign { target: Expr::Name { id, .. }, .. } => Some(id@),
        _ => None,
    }
}

pub open spec fn opt_seq(o: Option<Seq<char>>) -> Seq<Seq<char>> {
    match o {
        Some(x) => seq![x],
        None => Seq::empty(),
    }
}

/// The global symbols the statements define, in order.
pub open spec fn body_symbols(body: Seq<Stmt>) -> Seq<Seq<char>>
    decreases body.len(),
{
    if body.len() == 0 {
        Seq::empty()
    } else {
        body_symbols(body.drop_last()) + opt_seq(stmt_symbol(body.last()))
    }
}

/// The global symbols of the modules named `entry`, in order.
pub open spec fn entry_symbols(ms: Seq<BundleModule>, entry: Seq<char>) -> Seq<Seq<char>>
    decreases ms.len(),
{
    if ms.len() == 0 {
        Seq::empty()
    } else {
        entry_symbols(ms.drop_last(), entry) + if ms.last().0@ == entry {
            body_symbols(ms.last().1.body@)
        } else {
            Seq::empty()
        }
    }
}

/// The symbol a module statement exposes: a function's or a class's name,
/// or the name an assignment to a single name binds.
pub open spec fn module_symbol(s: Stmt) -> Option<Seq<char>> {
    match s {
        Stmt::FunctionDef { name, .. } => Some(name@),
        Stmt::ClassDef { name, .. } => Some(name@),
        Stmt::Assign { targets, .. } => simple_target(targets@),
        _ => None,
    }
}

/// `e` is the dotted name `parts[0].parts[1]...` (a name, then attributes).
pub open spec fn name_chain(e: Expr, parts: Seq<Seq<char>>) -> bool
    decreases e,
{
    match e {
        Expr::Attribute { value, attr, .. } => parts.len() >= 2 && attr@ == parts.last() && name_chain(
            *value,
            parts.drop_last(),
        ),
        Expr::Name { id, .. } => parts.len() == 1 && id@ == parts[0],
        _ => false,
    }
}

/// Some target is the attribute `parent.attr` (`parent` a dotted name).
pub open spec fn has_dotted_target(targets: Seq<Expr>, parent: Seq<char>, attr: Seq<char>) -> bool {
    exists|i: int|
        0 <= i < targets.len() && (#[trigger] targets[i] matches Expr::Attribute { value, attr: a, .. }
            && a@ == attr && name_chain(*value, split_on(parent, '.')))
}

/// Some target is the name `module`.
pub open spec fn has_name_target(targets: Seq<Expr>, module: Seq<char>) -> bool {
    exists|i: int|
        0 <= i < targets.len() && (#[trigger] targets[i] matches Expr::Name { id, .. } && id@ == module)
}

/// Some assignment of `body` already binds `module`: as the attribute
/// `parent.last` for a dotted name, else as a name.
pub open spec fn module_assigned(body: Seq<Stmt>, module: Seq<char>) -> bool {
    let parts = split_on(module, '.');
    if module.contains('.') {
        exists|i: int|
            0 <= i < body.len() && (#[trigger] body[i] matches Stmt::Assign { targets, .. }
                && has_dotted_target(targets@, join_with(parts.drop_last(), "."@), parts.last()))
    } else {
        exists|i: int|
            0 <= i < body.len() && (#[trigger] body[i] matches Stmt::Assign { targets, .. }
                && has_name_target(targets@, module))
    }
}

/// `name` is one of the unused names.
pub open spec fn unused_name(unused: Seq<UnusedImportInfo>, name: Seq<char>) -> bool {
    exists|j: int| 0 <= j < unused.len() && (#[trigger] unused[j]).name@ == name
}

/// Every alias binds one of the unused names.
pub open spec fn all_unused(names: Seq<Alias>, unused: Seq<UnusedImportInfo>) -> bool {
    forall|i: int| 0 <= i < names.len() ==> unused_name(unused, alias_local_name(#[trigger] names[i]))
}

/// An import statement all of whose bindings are unused (never a
/// `__future__` import).
pub open spec fn removable_import(s: Stmt, unused: Seq<UnusedImportInfo>) -> bool {
    match s {
        Stmt::Import(names) => all_unused(names@, unused),
        Stmt::ImportFrom { module, names, .. } => !(module matches Some(m) && m@ == "__future__"@)
            && all_unused(names@, unused),
        _ => false,
    }
}

/// The name an assignment's single target is, if it is a name.
fn single_target_name(targets: &Vec<Expr>) -> (r: Option<String>)
    ensures
        match r {
            Some(n) => simple_target(targets@) == Some(n@),
            None => simple_target(targets@) is None,
        },
{
    if targets.len() == 1 {
        if let Expr::Name { id, .. } = &targets[0] {
            return Some(copy_string(id));
        }
    }
    None
}

/// `e` is the dotted name made of the first `n` of `parts`.
fn chain_matches(e: &Expr, parts: &Vec<String>, n: usize) -> (r: bool)
    requires
        n <= parts@.len(),
    ensures
        r == name_chain(*e, views(parts@).subrange(0, n as int)),
    decreases n,
{
    let ghost ps = views(parts@).subrange(0, n as int);
    match e {
        Expr::Attribute { value, attr, .. } => {
            if n < 2 {
                return false;
            }
            proof {
                assert(ps.last() == parts@[n - 1]@);
                assert(ps.drop_last() =~= views(parts@).subrange(0, n - 1));
            }
            str_eq(attr.as_str(), parts[n - 1].as_str()) && chain_matches(value, parts, n - 1)
        },
        Expr::Name { id, .. } => {
            if n != 1 {
                return false;
            }
            proof {
                assert(ps[0] == parts@[0]@);
            }
            str_eq(id.as_str(), parts[0].as_str())
        },
        _ => false,
    }
}

/// The first entry of `pairs` (original name, new name) whose new name is `name`.
pub open spec fn first_renamed_to(pairs: Seq<(Seq<char>, Seq<char>)>, name: Seq<char>) -> Option<
    (Seq<char>, Seq<char>),
>
    decreases pairs.len(),
{
    if pairs.len() == 0 {
        None
    } else if pairs[0].1 == name {
        Some(pairs[0])
    } else {
        first_renamed_to(pairs.drop_first(), name)
    }
}

/// The rename an assignment binds the new name of: for a single name target,
/// the first entry of `pairs` renaming something to that name.
pub open spec fn renamed_assignment(targets: Seq<Expr>, pairs: Seq<(Seq<char>, Seq<char>)>) -> Option<
    (Seq<char>, Seq<char>),
> {
    match simple_target(targets) {
        Some(n) => first_renamed_to(pairs, n),
        None => None,
    }
}

impl HybridStaticBundler {
    /// Whether an assignment (given by its targets) binds a name the entry
    /// module renamed something to: the first such rename, as (original, new).
    pub fn check_renamed_assignment(&self, targets: &Vec<Expr>, entry_module_renames: &NameMap) -> (r:
        Option<(String, String)>)
        ensures
            match r {
                Some(p) => renamed_assignment(targets@, name_map_pairs(*entry_module_renames)) == Some(
                    (p.0@, p.1@),
                ),
                None => renamed_assignment(targets@, name_map_pairs(*entry_module_renames)) is None,
            },
    {
        let name = match self.extract_simple_assign_target(targets) {
            Some(n) => n,
            None => return None,
        };
        let pairs = name_map_to_vec(entry_module_renames);
        let ghost all = pair_views(pairs@);
        let mut i: usize = 0;
        proof {
            assert(all.skip(0) =~= all);
        }
        while i < pairs.len()
            invariant
                i <= pairs.len(),
                all == pair_views(pairs@),
                all == name_map_pairs(*entry_module_renames),
                simple_target(targets@) == Some(name@),
                first_renamed_to(all, name@) == first_renamed_to(all.skip(i as int), name@),
            decreases pairs.len() - i,
        {
            proof {
                assert(all.skip(i as int)[0] == all[i as int]);
                assert(all.skip(i as int).drop_first() =~= all.skip(i + 1));
                assert(all[i as int] == (pairs@[i as int].0@, pairs@[i as int].1@));
            }
            if str_eq(pairs[i].1.as_str(), name.as_str()) {
                return Some((copy_string(&pairs[i].0), copy_string(&pairs[i].1)));
            }
            i += 1;
        }
        None
    }

    /// The name an assignment binds, if it has a single target that is a name.
    pub fn extract_simple_assign_target(&self, targets: &Vec<Expr>) -> (r: Option<String>)
        ensures
            match r {
                Some(n) => simple_target(targets@) == Some(n@),
                None => simple_target(targets@) is None,
            },
    {
        single_target_name(targets)
    }

    /// Adds the global symbol the statement defines, if any (see `stmt_symbol`).
    pub fn collect_symbol_from_statement(&self, stmt: &Stmt, global_symbols: &mut IndexSet<String>)
        ensures
            index_set_items(*final(global_symbols)) == insert_all(
                index_set_items(*old(global_symbols)),
                opt_seq(stmt_symbol(*stmt)),
            ),
    {
        let ghost start = index_set_items(*global_symbols);
        let name: Option<String> = match stmt {
            Stmt::FunctionDef { name, .. } => Some(copy_string(name)),
            Stmt::ClassDef { name, .. } => Some(copy_string(name)),
            Stmt::Assign { targets, .. } => self.extract_simple_assign_target(targets),
            Stmt::AnnAssign { target: Expr::Name { id, .. }, .. } => Some(copy_string(id)),
            _ => None,
        };
        proof {
            assert(match name {
                Some(n) => stmt_symbol(*stmt) == Some(n@),
                None => stmt_symbol(*stmt) is None,
            });
        }
        match name {
            Some(n) => {
                let ghost nv = n@;
                let _ = index_set_insert(global_symbols, n);
                proof {
                    assert(opt_seq(stmt_symbol(*stmt)) == seq![nv]);
                    assert(seq![nv].drop_last() =~= Seq::<Seq<char>>::empty());
                    assert(seq![nv].last() == nv);
                    assert(insert_all(start, Seq::<Seq<char>>::empty()) == start);
                    assert(insert_all(start, seq![nv]) == push_unique(
                        insert_all(start, seq![nv].drop_last()),
                        nv,
                    ));
                }
            },
            None => {
                proof {
                    assert(opt_seq(stmt_symbol(*stmt)) =~= Seq::<Seq<char>>::empty());
                }
            },
        }
    }

    /// The global symbols the entry module defines at top level, each once, in order.
    pub fn collect_global_symbols(&self, modules: &Vec<BundleModule>, entry_module_name: &str) -> (r:
        IndexSet<String>)
        ensures
            index_set_items(r) == insert_all(Seq::empty(), entry_symbols(modules@, entry_module_name@)),
    {
        let mut global_symbols = index_set_new();
        let mut i: usize = 0;
        proof {
            assert(modules@.subrange(0, 0) =~= Seq::<BundleModule>::empty());
        }
        while i < modules.len()
            invariant
                i <= modules.len(),
                index_set_items(global_symbols) == insert_all(
                    Seq::empty(),
                    entry_symbols(modules@.subrange(0, i as int), entry_module_name@),
                ),
            decreases modules.len() - i,
        {
            let ghost pre = entry_symbols(modules@.subrange(0, i as int), entry_module_name@);
            proof {
                let t = modules@.subrange(0, i + 1);
                assert(t.drop_last() =~= modules@.subrange(0, i as int));
                assert(t.last() == modules@[i as int]);
            }
            if str_eq(modules[i].0.as_str(), entry_module_name) {
                let body = &modules[i].1.body;
                let mut k: usize = 0;
                proof {
                    assert(body@.subrange(0, 0) =~= Seq::<Stmt>::empty());
                    assert(pre + body_symbols(body@.subrange(0, 0)) =~= pre);
                }
                while k < body.len()
                    invariant
                        k <= body.len(),
                        index_set_items(global_symbols) == insert_all(
                            Seq::empty(),
                            pre + body_symbols(body@.subrange(0, k as int)),
                        ),
                    decreases body.len() - k,
                {
                    let ghost mid = body_symbols(body@.subrange(0, k as int));
                    self.collect_symbol_from_statement(&body[k], &mut global_symbols);
                    proof {
                        let t = body@.subrange(0, k + 1);
                        assert(t.drop_last() =~= body@.subrange(0, k as int));
                        assert(t.last() == body@[k as int]);
                        lemma_insert_all_concat(Seq::empty(), pre + mid, opt_seq(stmt_symbol(body@[k as int])));
                        assert(pre + mid + opt_seq(stmt_symbol(body@[k as int])) =~= pre + (mid + opt_seq(
                            stmt_symbol(body@[k as int]),
                        )));
                    }
                    k += 1;
                }
                proof {
                    assert(body@.subrange(0, body@.len() as int) =~= body@);
                }
            } else {
                proof {
                    assert(entry_symbols(modules@.subrange(0, i + 1), entry_module_name@) =~= pre);
                }
            }
            i += 1;
        }
        proof {
            assert(modules@.subrange(0, modules@.len() as int) =~= modules@);
        }
        global_symbols
    }

    /// Appends the symbol the module statement exposes, if any (see `module_symbol`).
    pub fn collect_module_symbol(&self, stmt: &Stmt, symbols: &mut Vec<String>)
        ensures
            views(final(symbols)@) == views(old(symbols)@) + opt_seq(module_symbol(*stmt)),
    {
        let ghost before = views(symbols@);
        let name: Option<String> = match stmt {
            Stmt::FunctionDef { name, .. } => Some(copy_string(name)),
            Stmt::ClassDef { name, .. } => Some(copy_string(name)),
            Stmt::Assign { targets, .. } => single_target_name(targets),
            _ => None,
        };
        match name {
            Some(n) => {
                symbols.push(n);
                proof {
                    assert(views(symbols@) =~= before + opt_seq(module_symbol(*stmt)));
                }
            },
            None => {
                proof {
                    assert(views(symbols@) =~= before + Seq::<Seq<char>>::empty());
                }
            },
        }
    }

    /// Whether `expr` is the dotted name `expected_chain` (see `name_chain`).
    pub fn is_name_chain(&self, expr: &Expr, expected_chain: &str) -> (r: bool)
        ensures
            r == name_chain(*expr, split_on(expected_chain@, '.')),
    {
        let parts = split_char(expected_chain, '.');
        proof {
            assert(views(parts@).subrange(0, parts@.len() as int) =~= views(parts@));
        }
        chain_matches(expr, &parts, parts.len())
    }

    /// Whether some target is the attribute `parent.attr`.
    pub fn assignment_has_dotted_target(&self, targets: &Vec<Expr>, parent: &str, attr: &str) -> (r:
        bool)
        ensures
            r == has_dotted_target(targets@, parent@, attr@),
    {
        let mut i: usize = 0;
        while i < targets.len()
            invariant
                i <= targets.len(),
                forall|j: int|
                    0 <= j < i ==> !(#[trigger] targets@[j] matches Expr::Attribute { value, attr: a, .. }
                        && a@ == attr@ && name_chain(*value, split_on(parent@, '.'))),
            decreases targets.len() - i,
        {
            if let Expr::Attribute { value, attr: a, .. } = &targets[i] {
                if str_eq(a.as_str(), attr) && self.is_name_chain(value, parent) {
                    return true;
                }
            }
            i += 1;
        }
        false
    }

    /// Whether some assignment of `final_body` already binds `module` (see
    /// `module_assigned`).
    #[verifier::loop_isolation(false)]
    pub fn is_module_already_assigned(&self, final_body: &Vec<Stmt>, module: &str) -> (r: bool)
        ensures
            r == module_assigned(final_body@, module@),
    {
        let parts = split_char(module, '.');
        let ghost ps = views(parts@);
        proof {
            lemma_split_nonempty(module@, '.');
        }
        if contains_char(module, '.') {
            let mut parent_parts: Vec<String> = Vec::new();
            let mut k: usize = 0;
            while k < parts.len() - 1
                invariant
                    ps == views(parts@),
                    parts@.len() >= 1,
                    k + 1 <= parts@.len(),
                    views(parent_parts@) == ps.subrange(0, k as int),
                decreases parts.len() - k,
            {
                let ghost before = views(parent_parts@);
                parent_parts.push(copy_string(&parts[k]));
                proof {
                    assert(views(parent_parts@) =~= before.push(ps[k as int]));
                    assert(ps.subrange(0, k + 1) =~= ps.subrange(0, k as int).push(ps[k as int]));
                }
                k += 1;
            }
            let parent = join_strings(&parent_parts, ".");
            let attr = &parts[parts.len() - 1];
            proof {
                reveal_strlit(".");
                assert(ps.subrange(0, k as int) =~= ps.drop_last());
                assert(attr@ == ps.last());
            }
            let mut i: usize = 0;
            while i < final_body.len()
                invariant
                    i <= final_body.len(),
                    parent@ == join_with(ps.drop_last(), "."@),
                    attr@ == ps.last(),
                    ps == split_on(module@, '.'),
                    forall|j: int|
                        0 <= j < i ==> !(#[trigger] final_body@[j] matches Stmt::Assign { targets, .. }
                            && has_dotted_target(targets@, parent@, attr@)),
                decreases final_body.len() - i,
            {
                if let Stmt::Assign { targets, .. } = &final_body[i] {
                    if self.assignment_has_dotted_target(targets, parent.as_str(), attr.as_str()) {
                        return true;
                    }
                }
                i += 1;
            }
            false
        } else {
            let mut i: usize = 0;
            while i < final_body.len()
                invariant
                    i <= final_body.len(),
                    forall|j: int|
                        0 <= j < i ==> !(#[trigger] final_body@[j] matches Stmt::Assign { targets, .. }
                            && has_name_target(targets@, module@)),
                decreases final_body.len() - i,
            {
                if let Stmt::Assign { targets, .. } = &final_body[i] {
                    let mut t: usize = 0;
                    while t < targets.len()
                        invariant
                            t <= targets.len(),
                            forall|j: int|
                                0 <= j < t ==> !(#[trigger] targets@[j] matches Expr::Name { id, .. } && id@
                                    == module@),
                        decreases targets.len() - t,
                    {
                        if let Expr::Name { id, .. } = &targets[t] {
                            if str_eq(id.as_str(), module) {
                                return true;
                            }
                        }
                        t += 1;
                    }
                }
                i += 1;
            }
            false
        }
    }

    /// Whether the import statement binds only unused names (never a
    /// `__future__` import; see `removable_import`).
    pub fn should_remove_import_stmt(&self, stmt: &Stmt, unused_imports: &Vec<UnusedImportInfo>) -> (r:
        bool)
        ensures
            r == removable_import(*stmt, unused_imports@),
    {
        match stmt {
            Stmt::Import(names) => all_names_unused(names, unused_imports),
            Stmt::ImportFrom { module, names, .. } => {
                proof {
                    reveal_strlit("__future__");
                }
                if let Some(m) = module {
                    if str_eq(m.as_str(), "__future__") {
                        return false;
                    }
                }
                all_names_unused(names, unused_imports)
            },
            _ => false,
        }
    }
}

/// Whether `name` is one of the unused names.
fn is_unused_name(unused: &Vec<UnusedImportInfo>, name: &str) -> (r: bool)
    ensures
        r == unused_name(unused@, name@),
{
    let mut j: usize = 0;
    while j < unused.len()
        invariant
            j <= unused.len(),
            forall|m: int| 0 <= m < j ==> (#[trigger] unused@[m]).name@ != name@,
        decreases unused.len() - j,
    {
        if str_eq(unused[j].name.as_str(), name) {
            proof {
                assert(unused@[j as int].name@ == name@);
            }
            return true;
        }
        j += 1;
    }
    false
}

/// Whether every alias binds one of the unused names.
fn all_names_unused(names: &Vec<Alias>, unused: &Vec<UnusedImportInfo>) -> (r: bool)
    ensures
        r == all_unused(names@, unused@),
{
    let mut i: usize = 0;
    while i < names.len()
        invariant
            i <= names.len(),
            forall|k: int| 0 <= k < i ==> unused_name(unused@, alias_local_name(#[trigger] names@[k])),
        decreases names.len() - i,
    {
        let local = local_name(&names[i]);
        if !is_unused_name(unused, local.as_str()) {
            proof {
                assert(!unused_name(unused@, alias_local_name(names@[i as int])));
            }
            return false;
        }
        i += 1;
    }
    true
}

} // verus!
