//! Properties the bundler's parts keep across calls and inputs.
use vstd::prelude::*;

use crate::ast::Stmt;
use crate::code_generator::{body_side_effects, first_free_suffix, suffixed, unique_name};
use crate::discovery::{
    enqueue, import_discovery, imports_discovery, module_edges, import_edges, parent_discovery,
    QueueView,
};
use crate::globals_lifter::lifted_name;
use crate::graph_builder::body_items;
use crate::order::name_before;
use crate::orchestrator::{
    dependency_edges, parent_dependency_edges, relative_package, select_names,
};
use crate::resolver::ModuleResolver;
use crate::text::{count_char, join_with};
use crate::code_generator::insert_all;
use crate::emit::{has_specific_import, not_redundant};
use crate::hoisting::{import_block, import_module, sorted_permutation};
use crate::import_aliases::{alias_resolution, is_first_colon};
use crate::orchestrator::push_unique;
use crate::util::{module_name_from_parts, strip_py_suffix};
use crate::collections::{name_map_entries, name_map_pairs, pairs_insert, NameMap};
use crate::inlining::{inline_step, inline_steps, inlined_module, module_renames_recorded, InlineContext};
use crate::code_generator::HybridStaticBundler;
use crate::dependency_graph::CircularDependencyGroup;
use crate::orchestrator::{unresolvable_block, unresolvable_blocks, unresolvable_cycles_error};

verus! {

/// Building a dependency graph from a module body made of two parts adds the
/// items of the first part, then those of the second.
pub proof fn law_body_items_concat(a: Seq<Stmt>, b: Seq<Stmt>)
    ensures
        body_items(a + b) == body_items(a) + body_items(b),
    decreases b.len(),
{
    if b.len() == 0 {
        assert(a + b =~= a);
    } else {
        law_body_items_concat(a, b.drop_last());
        assert((a + b).drop_last() =~= a + b.drop_last());
        assert((a + b).last() == b.last());
    }
}

/// A module body made of two parts has side effects exactly when one of its
/// parts has.
pub proof fn law_side_effects_concat(a: Seq<Stmt>, b: Seq<Stmt>, names: Set<Seq<char>>)
    ensures
        body_side_effects(a + b, names) == (body_side_effects(a, names) || body_side_effects(
            b,
            names,
        )),
    decreases b.len(),
{
    if b.len() == 0 {
        assert(a + b =~= a);
    } else {
        law_side_effects_concat(a, b.drop_last(), names);
        assert((a + b).drop_last() =~= a + b.drop_last());
        assert((a + b).last() == b.last());
    }
}

proof fn lemma_count_concat(a: Seq<char>, b: Seq<char>, c: char)
    ensures
        count_char(a + b, c) == count_char(a, c) + count_char(b, c),
    decreases b.len(),
{
    if b.len() == 0 {
        assert(a + b =~= a);
    } else {
        lemma_count_concat(a, b.drop_last(), c);
        assert((a + b).drop_last() =~= a + b.drop_last());
        assert((a + b).last() == b.last());
    }
}

/// In the order of the modules of a cycle, a submodule of a package comes
/// before the package.
pub proof fn law_submodule_first(package: Seq<char>, rest: Seq<char>)
    ensures
        name_before(package + "."@ + rest, package, true),
{
    reveal_strlit(".");
    lemma_count_concat(package, "."@, '.');
    lemma_count_concat(package + "."@, rest, '.');
    assert(count_char("."@, '.') == 1) by {
        reveal_strlit(".");
        assert("."@.len() == 1);
        assert("."@.last() == '.');
        assert("."@.drop_last() =~= Seq::<char>::empty());
        assert(count_char(Seq::<char>::empty(), '.') == 0);
    }
}

/// Different globals of a module are lifted to different names.
pub proof fn law_lifted_names_distinct(module: Seq<char>, v1: Seq<char>, v2: Seq<char>)
    requires
        v1 != v2,
    ensures
        lifted_name(module, v1) != lifted_name(module, v2),
{
    let p = lifted_name(module, Seq::empty());
    assert(lifted_name(module, v1) =~= p + v1);
    assert(lifted_name(module, v2) =~= p + v2);
    if p + v1 == p + v2 {
        assert(v1 =~= (p + v1).subrange(p.len() as int, (p + v1).len() as int));
        assert(v2 =~= (p + v2).subrange(p.len() as int, (p + v2).len() as int));
    }
}

/// A package's `__init__.py` names the package: its directories, dotted.
pub proof fn law_package_init_name(dirs: Seq<Seq<char>>)
    requires
        dirs.len() > 0,
    ensures
        module_name_from_parts(dirs.push("__init__.py"@)) == Some(join_with(dirs, "."@)),
{
    reveal_strlit("__init__.py");
    reveal_strlit("__init__");
    reveal_strlit(".py");
    let s = "__init__.py"@;
    assert(s.subrange(s.len() - 3, s.len() as int) =~= ".py"@);
    assert(strip_py_suffix(s) =~= "__init__"@);
    assert(dirs.push(s).drop_last() =~= dirs);
}

/// The module file `stem.py` in the directories `dirs` is the module
/// `dirs.stem`, for any stem but `__init__`.
pub proof fn law_module_file_name(dirs: Seq<Seq<char>>, stem: Seq<char>)
    requires
        stem != "__init__"@,
    ensures
        module_name_from_parts(dirs.push(stem + ".py"@)) == Some(join_with(dirs.push(stem), "."@)),
{
    reveal_strlit(".py");
    let s = stem + ".py"@;
    assert(s.subrange(s.len() - 3, s.len() as int) =~= ".py"@);
    assert(strip_py_suffix(s) =~= stem);
    assert(dirs.push(s).drop_last() =~= dirs);
}

proof fn lemma_first_free_fresh(base: Seq<char>, taken: Seq<Seq<char>>, i: nat)
    requires
        !taken.contains("__cribo_renamed_"@ + base),
    ensures
        !taken.contains(first_free_suffix(base, taken, i)),
    decreases 1000 - i,
{
    if i < 1000 && taken.contains(suffixed(base, i)) {
        lemma_first_free_fresh(base, taken, i + 1);
    }
}

/// A name made unique is not among the names taken, unless even the
/// fallback `__cribo_renamed_` name is taken.
pub proof fn law_unique_name_is_fresh(base: Seq<char>, taken: Seq<Seq<char>>)
    requires
        !taken.contains("__cribo_renamed_"@ + base),
    ensures
        !taken.contains(unique_name(base, taken)),
{
    if taken.contains(base) {
        lemma_first_free_fresh(base, taken, 1);
    }
}

/// A relative import with one dot stays in the current package.
pub proof fn law_single_dot_stays(parts: Seq<Seq<char>>)
    ensures
        relative_package(parts, 1) == Some(join_with(parts, "."@)),
{
    assert(parts.subrange(0, parts.len() as int) =~= parts);
}

/// No dependency edge from a parent package leads from a module to itself.
pub proof fn law_no_parent_self_edges(
    parts: Seq<Seq<char>>,
    upto: nat,
    module: Seq<char>,
    r: ModuleResolver,
    names: Seq<Seq<char>>,
    e: (Seq<char>, Seq<char>),
)
    requires
        parent_dependency_edges(parts, upto, module, r, names).contains(e),
    ensures
        e.0 != e.1,
        e.1 == module,
    decreases upto,
{
    if upto > 1 {
        let prev = parent_dependency_edges(parts, (upto - 1) as nat, module, r, names);
        if prev.contains(e) {
            law_no_parent_self_edges(parts, (upto - 1) as nat, module, r, names, e);
        }
    }
}

proof fn lemma_parent_edges_within(
    parts: Seq<Seq<char>>,
    upto: nat,
    module: Seq<char>,
    r: ModuleResolver,
    names: Seq<Seq<char>>,
    e: (Seq<char>, Seq<char>),
)
    requires
        parent_dependency_edges(parts, upto, module, r, names).contains(e),
    ensures
        names.contains(e.0) && names.contains(e.1),
    decreases upto,
{
    if upto > 1 {
        let prev = parent_dependency_edges(parts, (upto - 1) as nat, module, r, names);
        if prev.contains(e) {
            lemma_parent_edges_within(parts, (upto - 1) as nat, module, r, names, e);
        }
    }
}

proof fn lemma_dependency_edges_within(
    import: Seq<char>,
    module: Seq<char>,
    r: ModuleResolver,
    names: Seq<Seq<char>>,
    e: (Seq<char>, Seq<char>),
)
    requires
        dependency_edges(import, module, r, names).contains(e),
    ensures
        names.contains(e.0) && names.contains(e.1),
{
    let parts = crate::text::split_on(import, '.');
    if parent_dependency_edges(parts, parts.len(), module, r, names).contains(e) {
        lemma_parent_edges_within(parts, parts.len(), module, r, names, e);
    }
}

proof fn lemma_import_edges_within(
    imports: Seq<Seq<char>>,
    module: Seq<char>,
    r: ModuleResolver,
    names: Seq<Seq<char>>,
    e: (Seq<char>, Seq<char>),
)
    requires
        import_edges(imports, module, r, names).contains(e),
    ensures
        names.contains(e.0) && names.contains(e.1),
    decreases imports.len(),
{
    if imports.len() > 0 {
        if import_edges(imports.drop_last(), module, r, names).contains(e) {
            lemma_import_edges_within(imports.drop_last(), module, r, names, e);
        } else {
            lemma_dependency_edges_within(imports.last(), module, r, names, e);
        }
    }
}

/// Every edge of the dependency graph built from the discovered modules
/// joins two modules of the graph.
pub proof fn law_graph_edges_within(
    ms: Seq<(String, String, Vec<String>)>,
    r: ModuleResolver,
    names: Seq<Seq<char>>,
    e: (Seq<char>, Seq<char>),
)
    requires
        module_edges(ms, r, names).contains(e),
    ensures
        names.contains(e.0),
        names.contains(e.1),
    decreases ms.len(),
{
    if ms.len() > 0 {
        if module_edges(ms.drop_last(), r, names).contains(e) {
            law_graph_edges_within(ms.drop_last(), r, names, e);
        } else {
            lemma_import_edges_within(
                crate::text::views(ms.last().2@),
                ms.last().0@,
                r,
                names,
                e,
            );
        }
    }
}

/// Ordering the modules of a graph for cycle resolution keeps every module,
/// as many times as it was there: those outside the cycles followed by
/// those in them make up the graph's modules.
pub proof fn law_cycle_order_keeps_modules(names: Seq<Seq<char>>, cyc: Set<Seq<char>>)
    ensures
        (select_names(names, cyc, false) + select_names(names, cyc, true)).to_multiset()
            == names.to_multiset(),
    decreases names.len(),
{
    broadcast use vstd::seq_lib::group_to_multiset_ensures;

    if names.len() == 0 {
        assert(select_names(names, cyc, false) + select_names(names, cyc, true) =~= Seq::<
            Seq<char>,
        >::empty());
    } else {
        let p = names.drop_last();
        let x = names.last();
        law_cycle_order_keeps_modules(p, cyc);
        let o = select_names(p, cyc, false);
        let i = select_names(p, cyc, true);
        vstd::seq_lib::lemma_multiset_commutative(o, i);
        if cyc.contains(x) {
            assert(select_names(names, cyc, true) =~= i.push(x));
            assert(select_names(names, cyc, false) =~= o);
            vstd::seq_lib::lemma_multiset_commutative(o, i.push(x));
            assert(o + i.push(x) =~= (o + i).push(x));
        } else {
            assert(select_names(names, cyc, false) =~= o.push(x));
            assert(select_names(names, cyc, true) =~= i);
            vstd::seq_lib::lemma_multiset_commutative(o.push(x), i);
            assert(i + o.push(x) =~= (i + o).push(x));
            vstd::seq_lib::lemma_multiset_commutative(i, o);
        }
        assert(names =~= p.push(x));
    }
}

proof fn lemma_enqueue_once(q: QueueView, processed: Seq<Seq<char>>, name: Seq<char>, path: Seq<char>)
    requires
        q.1.no_duplicates(),
    ensures
        enqueue(q, processed, name, path).1.no_duplicates(),
        q.1.is_prefix_of(enqueue(q, processed, name, path).1),
{
    let q1 = enqueue(q, processed, name, path);
    if !processed.contains(name) && !q.1.contains(name) {
        assert forall|i: int, j: int|
            0 <= i < q1.1.len() && 0 <= j < q1.1.len() && i != j implies q1.1[i] != q1.1[j] by {
            if i == q.1.len() as int {
                assert(q1.1[j] == q.1[j]);
            } else if j == q.1.len() as int {
                assert(q1.1[i] == q.1[i]);
            }
        }
        assert(q.1.is_prefix_of(q1.1)) by {
            assert(q1.1.subrange(0, q.1.len() as int) =~= q.1);
        }
    } else {
        assert(q.1.is_prefix_of(q1.1)) by {
            assert(q1.1.subrange(0, q.1.len() as int) =~= q.1);
        }
    }
}

proof fn lemma_prefix_trans(a: Seq<Seq<char>>, b: Seq<Seq<char>>, c: Seq<Seq<char>>)
    requires
        a.is_prefix_of(b),
        b.is_prefix_of(c),
    ensures
        a.is_prefix_of(c),
{
    assert(c.subrange(0, a.len() as int) =~= b.subrange(0, a.len() as int));
}

proof fn lemma_parent_discovery_once(
    q: QueueView,
    processed: Seq<Seq<char>>,
    r: ModuleResolver,
    parts: Seq<Seq<char>>,
    upto: nat,
)
    requires
        q.1.no_duplicates(),
    ensures
        parent_discovery(q, processed, r, parts, upto).1.no_duplicates(),
        q.1.is_prefix_of(parent_discovery(q, processed, r, parts, upto).1),
    decreases upto,
{
    if upto <= 1 {
        assert(q.1.subrange(0, q.1.len() as int) =~= q.1);
    } else {
        lemma_parent_discovery_once(q, processed, r, parts, (upto - 1) as nat);
        let q1 = parent_discovery(q, processed, r, parts, (upto - 1) as nat);
        let parent = crate::orchestrator::dotted_prefix(parts, upto - 1);
        match r.resolved(parent) {
            Some(pp) => {
                lemma_enqueue_once(q1, processed, parent, pp);
                lemma_prefix_trans(q.1, q1.1, enqueue(q1, processed, parent, pp).1);
            },
            None => {},
        }
    }
}

proof fn lemma_import_discovery_once(
    q: QueueView,
    processed: Seq<Seq<char>>,
    r: ModuleResolver,
    import: Seq<char>,
)
    requires
        q.1.no_duplicates(),
    ensures
        import_discovery(q, processed, r, import).1.no_duplicates(),
        q.1.is_prefix_of(import_discovery(q, processed, r, import).1),
{
    assert(q.1.subrange(0, q.1.len() as int) =~= q.1);
    match r.resolved(import) {
        Some(p) => {
            let q1 = enqueue(q, processed, import, p);
            lemma_enqueue_once(q, processed, import, p);
            let parts = crate::text::split_on(import, '.');
            lemma_parent_discovery_once(q1, processed, r, parts, parts.len());
            lemma_prefix_trans(q.1, q1.1, parent_discovery(q1, processed, r, parts, parts.len()).1);
        },
        None => {},
    }
}

/// Discovery never queues a module twice, and never forgets a module it
/// queued: processing the imports of a module keeps the names ever queued
/// free of repetitions and only appends to them.
pub proof fn law_discovery_queues_once(
    q: QueueView,
    processed: Seq<Seq<char>>,
    r: ModuleResolver,
    imports: Seq<Seq<char>>,
)
    requires
        q.1.no_duplicates(),
    ensures
        imports_discovery(q, processed, r, imports).1.no_duplicates(),
        q.1.is_prefix_of(imports_discovery(q, processed, r, imports).1),
    decreases imports.len(),
{
    if imports.len() == 0 {
        assert(q.1.subrange(0, q.1.len() as int) =~= q.1);
    } else {
        law_discovery_queues_once(q, processed, r, imports.drop_last());
        let q1 = imports_discovery(q, processed, r, imports.drop_last());
        lemma_import_discovery_once(q1, processed, r, imports.last());
        lemma_prefix_trans(q.1, q1.1, import_discovery(q1, processed, r, imports.last()).1);
    }
}


/// Names inserted one by one into a list without repetitions stay without
/// repetitions.
proof fn lemma_insert_all_distinct(acc: Seq<Seq<char>>, xs: Seq<Seq<char>>)
    requires
        acc.no_duplicates(),
    ensures
        insert_all(acc, xs).no_duplicates(),
    decreases xs.len(),
{
    if xs.len() > 0 {
        lemma_insert_all_distinct(acc, xs.drop_last());
        let p = insert_all(acc, xs.drop_last());
        if !p.contains(xs.last()) {
            assert forall|i: int, j: int| 0 <= i < j < p.push(xs.last()).len() implies p.push(xs.last())[i]
                != p.push(xs.last())[j] by {
                if j == p.len() {
                    assert(p.push(xs.last())[i] == p[i]);
                }
            }
        }
    }
}

/// The hoisted `import` statements never import a module twice, however
/// often the modules' code imports it.
pub proof fn law_hoisted_imports_distinct(b: Seq<Stmt>, stmts: Seq<Seq<Seq<char>>>)
    requires
        import_block(b, stmts),
    ensures
        b.map_values(|s: Stmt| import_module(s)).no_duplicates(),
{
    broadcast use vstd::seq_lib::group_to_multiset_ensures;
    let all = insert_all(Seq::empty(), crate::hoisting::flatten_names(stmts));
    lemma_insert_all_distinct(Seq::empty(), crate::hoisting::flatten_names(stmts));
    all.lemma_multiset_has_no_duplicates();
    b.map_values(|s: Stmt| import_module(s)).lemma_multiset_has_no_duplicates_conv();
}

/// Reading back an import alias entry `module:symbol` gives the symbol,
/// for a module name without `:`.
pub proof fn law_alias_entry_symbol(module: Seq<char>, symbol: Seq<char>)
    requires
        !module.contains(':'),
    ensures
        alias_resolution(module + ":"@ + symbol) == symbol,
{
    let r = module + ":"@ + symbol;
    let i = module.len() as int;
    reveal_strlit(":");
    assert((":"@)[0] == ':');
    assert(r[i] == ':');
    assert forall|j: int| 0 <= j < i implies r[j] != ':' by {
        assert(r[j] == module[j]);
    }
    assert(is_first_colon(r, i));
    let k = choose|k: int| is_first_colon(r, k);
    if k < i {
        assert(r[k] == module[k]);
    }
    if k > i {
        assert(r[i] != ':');
    }
    assert(r.skip(i + 1) =~= symbol);
}

/// An entry without `:` names itself.
pub proof fn law_plain_alias_entry(entry: Seq<char>)
    requires
        !entry.contains(':'),
    ensures
        alias_resolution(entry) == entry,
{
    assert forall|i: int| 0 <= i < entry.len() implies entry[i] != ':' by {
        if entry[i] == ':' {
            assert(entry.contains(':'));
        }
    }
}

/// Filtering redundant general imports only drops imports: what it keeps
/// was among its input, in which no specific import makes it redundant.
pub proof fn law_redundancy_filter_keeps_input(imports: Seq<Seq<char>>, specific: Seq<Seq<char>>, x: Seq<char>)
    requires
        not_redundant(imports, specific).contains(x),
    ensures
        imports.contains(x),
        !has_specific_import(specific, x),
    decreases imports.len(),
{
    if imports.len() > 0 {
        let p = not_redundant(imports.drop_last(), specific);
        let r = not_redundant(imports, specific);
        let i = choose|i: int| 0 <= i < r.len() && r[i] == x;
        if i < p.len() {
            assert(p[i] == x);
            law_redundancy_filter_keeps_input(imports.drop_last(), specific, x);
            let k = choose|k: int| 0 <= k < imports.drop_last().len() && imports.drop_last()[k] == x;
            assert(imports[k] == x);
        } else {
            assert(imports[imports.len() - 1] == x);
        }
    }
}

/// No two entries of `pairs` have the same key.
pub open spec fn keys_distinct(pairs: Seq<(Seq<char>, Seq<char>)>) -> bool {
    forall|i: int, j: int| 0 <= i < j < pairs.len() ==> (#[trigger] pairs[i]).0 != (#[trigger] pairs[j]).0
}

/// Registering a wrapped module (or its init function) leaves the registry
/// with one entry per module: the module registered now, with the name just
/// given, and every other module with the name it had.
pub proof fn law_registry_one_entry_per_module(
    pairs: Seq<(Seq<char>, Seq<char>)>,
    key: Seq<char>,
    value: Seq<char>,
)
    requires
        keys_distinct(pairs),
    ensures
        keys_distinct(pairs_insert(pairs, key, value)),
        pairs_insert(pairs, key, value).contains((key, value)),
        forall|i: int|
            0 <= i < pairs.len() && (#[trigger] pairs[i]).0 != key ==> pairs_insert(
                pairs,
                key,
                value,
            ).contains(pairs[i]),
    decreases pairs.len(),
{
    let r = pairs_insert(pairs, key, value);
    if pairs.len() == 0 {
        assert(r[0] == (key, value));
    } else if pairs[0].0 == key {
        assert(r[0] == (key, value));
        assert forall|i: int| 0 <= i < pairs.len() && (#[trigger] pairs[i]).0 != key implies r.contains(
            pairs[i],
        ) by {
            assert(i > 0);
            assert(r[i] == pairs.drop_first()[i - 1]);
        }
        assert forall|i: int, j: int| 0 <= i < j < r.len() implies (#[trigger] r[i]).0 != (
        #[trigger] r[j]).0 by {
            if i == 0 {
                assert(r[j] == pairs[j]);
            } else {
                assert(r[i] == pairs[i] && r[j] == pairs[j]);
            }
        }
    } else {
        let rest = pairs.drop_first();
        law_registry_one_entry_per_module(rest, key, value);
        let rr = pairs_insert(rest, key, value);
        assert(r == seq![pairs[0]] + rr);
        let k = choose|k: int| 0 <= k < rr.len() && rr[k] == (key, value);
        assert(r[k + 1] == (key, value));
        assert forall|i: int| 0 <= i < pairs.len() && (#[trigger] pairs[i]).0 != key implies r.contains(
            pairs[i],
        ) by {
            if i == 0 {
                assert(r[0] == pairs[0]);
            } else {
                assert(rest[i - 1] == pairs[i]);
                assert(rr.contains(rest[i - 1]));
                let m = choose|m: int| 0 <= m < rr.len() && rr[m] == rest[i - 1];
                assert(r[m + 1] == pairs[i]);
            }
        }
        // Every key of `rr` is `key` or a key of `rest`, none of which is `pairs[0].0`.
        lemma_insert_keys(rest, key, value);
        assert forall|i: int, j: int| 0 <= i < j < r.len() implies (#[trigger] r[i]).0 != (
        #[trigger] r[j]).0 by {
            if i == 0 {
                assert(r[j] == rr[j - 1]);
                if rr[j - 1].0 != key {
                    let m = choose|m: int| 0 <= m < rest.len() && rest[m].0 == rr[j - 1].0;
                    assert(pairs[m + 1] == rest[m]);
                }
            } else {
                assert(r[i] == rr[i - 1] && r[j] == rr[j - 1]);
            }
        }
    }
}

/// Every key of `pairs_insert(pairs, key, value)` is `key` or a key of `pairs`.
proof fn lemma_insert_keys(pairs: Seq<(Seq<char>, Seq<char>)>, key: Seq<char>, value: Seq<char>)
    ensures
        pairs_insert(pairs, key, value).len() >= 1,
        forall|i: int|
            0 <= i < pairs_insert(pairs, key, value).len() && (#[trigger] pairs_insert(
                pairs,
                key,
                value,
            )[i]).0 != key ==> exists|m: int| 0 <= m < pairs.len() && pairs[m].0 == pairs_insert(
                pairs,
                key,
                value,
            )[i].0,
    decreases pairs.len(),
{
    let r = pairs_insert(pairs, key, value);
    if pairs.len() == 0 {
    } else if pairs[0].0 == key {
        assert forall|i: int| 0 <= i < r.len() && (#[trigger] r[i]).0 != key implies exists|m: int|
            0 <= m < pairs.len() && pairs[m].0 == r[i].0 by {
            assert(r[i] == pairs[i]);
        }
    } else {
        let rest = pairs.drop_first();
        lemma_insert_keys(rest, key, value);
        let rr = pairs_insert(rest, key, value);
        assert forall|i: int| 0 <= i < r.len() && (#[trigger] r[i]).0 != key implies exists|m: int|
            0 <= m < pairs.len() && pairs[m].0 == r[i].0 by {
            if i == 0 {
                assert(pairs[0].0 == r[0].0);
            } else {
                assert(r[i] == rr[i - 1]);
                let m = choose|m: int| 0 <= m < rest.len() && rest[m].0 == rr[i - 1].0;
                assert(pairs[m + 1] == rest[m]);
            }
        }
    }
}

/// `a` is `b` or an earlier part of it.
pub open spec fn starts(a: Seq<Stmt>, b: Seq<Stmt>) -> bool {
    a.len() <= b.len() && b.subrange(0, a.len() as int) == a
}

/// `a` is `b` or an earlier part of it (names).
pub open spec fn starts_names(a: Seq<Seq<char>>, b: Seq<Seq<char>>) -> bool {
    a.len() <= b.len() && b.subrange(0, a.len() as int) == a
}

/// Each step of inlining only appends to the inlined statements and to the
/// bundle's top-level names.
proof fn lemma_step_appends(
    b: HybridStaticBundler,
    module: Seq<char>,
    path: Seq<char>,
    stmt: Stmt,
    c0: InlineContext,
    r0: NameMap,
    c1: InlineContext,
    r1: NameMap,
)
    requires
        inline_step(b, module, path, stmt, c0, r0, c1, r1),
    ensures
        starts(c0.inlined_stmts@, c1.inlined_stmts@),
        starts_names(c0.globals(), c1.globals()),
{
    let s0 = c0.inlined_stmts@;
    let s1 = c1.inlined_stmts@;
    let g0 = c0.globals();
    let g1 = c1.globals();
    assert(s0.subrange(0, s0.len() as int) =~= s0);
    assert(g0.subrange(0, g0.len() as int) =~= g0);
    assert(s0.push(stmt).drop_last() =~= s0);
    // Each step leaves the statements as they were, or appends one.
    assert(s1 == s0 || (s1.len() == s0.len() + 1 && s1.drop_last() == s0));
    // Each step leaves the names as they were, or adds one at the end.
    assert(g1 == g0 || exists|x: Seq<char>| g1 == push_unique(g0, x));
    if s1 != s0 {
        assert(s1.subrange(0, s0.len() as int) =~= s1.drop_last());
    }
    if g1 != g0 {
        let x = choose|x: Seq<char>| g1 == push_unique(g0, x);
        assert(g1.subrange(0, g0.len() as int) =~= g0);
    }
}

/// Inlining a module only adds to the bundle: the statements inlined
/// before stay first, in order, and so do the top-level names defined
/// before.
pub proof fn law_inlining_only_appends(
    b: HybridStaticBundler,
    module: Seq<char>,
    path: Seq<char>,
    body: Seq<Stmt>,
    before: InlineContext,
    after: InlineContext,
)
    requires
        inlined_module(b, module, path, body, before, after),
    ensures
        starts(before.inlined_stmts@, after.inlined_stmts@),
        starts_names(before.globals(), after.globals()),
{
    let states = choose|states: Seq<(InlineContext, NameMap)>|
        {
            &&& #[trigger] inline_steps(b, module, path, body, states)
            &&& states[0].0 == before
            &&& name_map_entries(states[0].1).dom() == Set::<Seq<char>>::empty()
            &&& name_map_pairs(states[0].1) == Seq::<(Seq<char>, Seq<char>)>::empty()
            &&& module_renames_recorded(states.last().0, after, states.last().1, module)
        };
    lemma_steps_append(b, module, path, body, states, body.len() as int);
}

/// The first `i` steps of inlining only append.
proof fn lemma_steps_append(
    b: HybridStaticBundler,
    module: Seq<char>,
    path: Seq<char>,
    body: Seq<Stmt>,
    states: Seq<(InlineContext, NameMap)>,
    i: int,
)
    requires
        inline_steps(b, module, path, body, states),
        0 <= i <= body.len(),
    ensures
        starts(states[0].0.inlined_stmts@, states[i].0.inlined_stmts@),
        starts_names(states[0].0.globals(), states[i].0.globals()),
    decreases i,
{
    let a = states[0].0.inlined_stmts@;
    let ga = states[0].0.globals();
    if i == 0 {
        assert(a.subrange(0, a.len() as int) =~= a);
        assert(ga.subrange(0, ga.len() as int) =~= ga);
    } else {
        let k = i - 1;
        lemma_steps_append(b, module, path, body, states, k);
        assert(inline_step(b, module, path, body[k], states[k].0, states[k].1, states[k + 1].0, states[k + 1].1));
        lemma_step_appends(b, module, path, body[k], states[k].0, states[k].1, states[k + 1].0, states[k + 1].1);
        let m = states[i - 1].0.inlined_stmts@;
        let z = states[i].0.inlined_stmts@;
        assert(z.subrange(0, a.len() as int) =~= z.subrange(0, m.len() as int).subrange(0, a.len() as int));
        let gm = states[i - 1].0.globals();
        let gz = states[i].0.globals();
        assert(gz.subrange(0, ga.len() as int) =~= gz.subrange(0, gm.len() as int).subrange(0, ga.len() as int));
    }
}

/// The report of unresolvable cycles is its header followed by what
/// appending the cycles' blocks to an empty text gives: the block of each
/// cycle, in order, the `i`-th numbered `i + 1`.
pub proof fn law_unresolvable_report(cs: Seq<CircularDependencyGroup>)
    ensures
        unresolvable_cycles_error(cs) == "Unresolvable circular dependencies detected:\n\n"@ + (
        Seq::<char>::empty() + unresolvable_blocks(cs, 0)),
        forall|i: int|
            0 <= i < cs.len() ==> #[trigger] unresolvable_blocks(cs.subrange(0, i + 1), 0)
                == unresolvable_blocks(cs.subrange(0, i), 0) + unresolvable_block((i + 1) as nat, cs[i]),
{
    assert(Seq::<char>::empty() + unresolvable_blocks(cs, 0) =~= unresolvable_blocks(cs, 0));
    assert forall|i: int| 0 <= i < cs.len() implies #[trigger] unresolvable_blocks(cs.subrange(0, i + 1), 0)
        == unresolvable_blocks(cs.subrange(0, i), 0) + unresolvable_block((i + 1) as nat, cs[i]) by {
        let t = cs.subrange(0, i + 1);
        assert(t.drop_last() =~= cs.subrange(0, i));
        assert(t.last() == cs[i]);
    }
}

/// The report of unresolvable cycles is its header followed by one block per
/// cycle, in order, numbered from 1: with no cycle it is the header alone,
/// and the cycles of `b` after those of `a` add their blocks, numbered on
/// from `a`'s, after the report of `a`.
pub proof fn law_unresolvable_report_blocks(a: Seq<CircularDependencyGroup>, b: Seq<CircularDependencyGroup>)
    ensures
        unresolvable_cycles_error(Seq::empty()) == "Unresolvable circular dependencies detected:\n\n"@,
        unresolvable_cycles_error(a + b) == unresolvable_cycles_error(a) + unresolvable_blocks(b, a.len()),
    decreases b.len(),
{
    assert("Unresolvable circular dependencies detected:\n\n"@ + Seq::<char>::empty()
        =~= "Unresolvable circular dependencies detected:\n\n"@);
    if b.len() == 0 {
        assert(a + b =~= a);
        assert(unresolvable_cycles_error(a) + Seq::<char>::empty() =~= unresolvable_cycles_error(a));
    } else {
        law_unresolvable_report_blocks(a, b.drop_last());
        lemma_blocks_concat(a, b);
        let h = "Unresolvable circular dependencies detected:\n\n"@;
        assert(h + unresolvable_blocks(a + b, 0) =~= h + unresolvable_blocks(a, 0) + unresolvable_blocks(
            b,
            a.len(),
        ));
    }
}

/// The blocks of `a + b` from 0 are those of `a`, then those of `b` numbered on.
proof fn lemma_blocks_concat(a: Seq<CircularDependencyGroup>, b: Seq<CircularDependencyGroup>)
    ensures
        unresolvable_blocks(a + b, 0) == unresolvable_blocks(a, 0) + unresolvable_blocks(b, a.len()),
    decreases b.len(),
{
    if b.len() == 0 {
        assert(a + b =~= a);
        assert(unresolvable_blocks(a, 0) + Seq::<char>::empty() =~= unresolvable_blocks(a, 0));
    } else {
        lemma_blocks_concat(a, b.drop_last());
        assert((a + b).drop_last() =~= a + b.drop_last());
        assert((a + b).last() == b.last());
        assert(unresolvable_blocks(a, 0) + unresolvable_blocks(b.drop_last(), a.len()) + unresolvable_block(
            a.len() + b.len(),
            b.last(),
        ) =~= unresolvable_blocks(a, 0) + (unresolvable_blocks(b.drop_last(), a.len()) + unresolvable_block(
            a.len() + b.len(),
            b.last(),
        )));
    }
}

} // verus!
