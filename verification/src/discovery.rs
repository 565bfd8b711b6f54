//! Finding the modules of a bundle and building its dependency graph: the
//! discovery queue, the graph's edges, and the order of modules in cycles.
use vstd::prelude::*;

use crate::collections::{
    index_set_contains, index_set_insert, index_set_items, index_set_new,
};
use crate::dependency_graph::{
    has_topological_order, module_names, respects_edges, CircularDependencyAnalysis, CircularDependencyType,
    DependencyGraph, ModuleNode,
};
use crate::orchestrator::{
    all_function_level, cycle_module_names, dependency_edges, dotted_prefix, push_unique, select_names,
    BundleOrchestrator,
};
use crate::order::{sort_names, sorted_names};
use crate::resolver::{ImportType, ModuleResolver};
use crate::text::{
    copy_range, copy_string, to_string, join_strings, lemma_split_nonempty, split_char, split_on, views,
};

verus! {

/// Inserting `x` into an insertion-ordered set `prev` (giving `cur`) adds `x`
/// to the set of the sequence `acc` it mirrors.
pub proof fn lemma_insert_mirrors_push(
    prev: Seq<Seq<char>>,
    cur: Seq<Seq<char>>,
    acc: Seq<Seq<char>>,
    x: Seq<char>,
)
    requires
        prev.to_set() == acc.to_set(),
        cur == (if prev.contains(x) {
            prev
        } else {
            prev.push(x)
        }),
    ensures
        cur.to_set() == acc.push(x).to_set(),
{
    assert forall|y| #[trigger] cur.to_set().contains(y) implies acc.push(x).to_set().contains(
        y,
    ) by {
        let k = choose|k: int| 0 <= k < cur.len() && cur[k] == y;
        if y == x {
            assert(acc.push(x)[acc.len() as int] == y);
        } else {
            assert(prev[k] == y);
            assert(prev.to_set().contains(y));
            let m = choose|m: int| 0 <= m < acc.len() && acc[m] == y;
            assert(acc.push(x)[m] == y);
        }
    }
    assert forall|y| #[trigger] acc.push(x).to_set().contains(y) implies cur.to_set().contains(
        y,
    ) by {
        let k = choose|k: int| 0 <= k < acc.push(x).len() && acc.push(x)[k] == y;
        if y == x {
            if prev.contains(y) {
                let m = choose|m: int| 0 <= m < prev.len() && prev[m] == y;
                assert(cur[m] == y);
            } else {
                assert(cur[prev.len() as int] == y);
            }
        } else {
            assert(acc[k] == y);
            assert(acc.to_set().contains(y));
            let m = choose|m: int| 0 <= m < prev.len() && prev[m] == y;
            assert(cur[m] == y);
        }
    }
    assert(cur.to_set() =~= acc.push(x).to_set());
}

// ---------------------------------------------------------------------------
// Specification: the graph built from the discovered modules
// ---------------------------------------------------------------------------

/// A discovered module: its name, its file, and the modules it imports.
pub open spec fn discovered_view(m: (String, String, Vec<String>)) -> (
    Seq<char>,
    Seq<char>,
    Seq<Seq<char>>,
) {
    (m.0@, m.1@, views(m.2@))
}

/// The names of `ms` without repetitions, in first-occurrence order.
pub open spec fn unique_names(ms: Seq<(String, String, Vec<String>)>) -> Seq<Seq<char>>
    decreases ms.len(),
{
    if ms.len() == 0 {
        Seq::empty()
    } else {
        push_unique(unique_names(ms.drop_last()), ms.last().0@)
    }
}

/// The edges the imports `imports` of `module` add to a graph of modules `names`.
pub open spec fn import_edges(
    imports: Seq<Seq<char>>,
    module: Seq<char>,
    r: ModuleResolver,
    names: Seq<Seq<char>>,
) -> Set<(Seq<char>, Seq<char>)>
    decreases imports.len(),
{
    if imports.len() == 0 {
        Set::empty()
    } else {
        import_edges(imports.drop_last(), module, r, names) + dependency_edges(
            imports.last(),
            module,
            r,
            names,
        )
    }
}

/// The edges the imports of all of `ms` add to a graph of modules `names`.
pub open spec fn module_edges(
    ms: Seq<(String, String, Vec<String>)>,
    r: ModuleResolver,
    names: Seq<Seq<char>>,
) -> Set<(Seq<char>, Seq<char>)>
    decreases ms.len(),
{
    if ms.len() == 0 {
        Set::empty()
    } else {
        module_edges(ms.drop_last(), r, names) + import_edges(
            views(ms.last().2@),
            ms.last().0@,
            r,
            names,
        )
    }
}

impl BundleOrchestrator {
    /// The dependency graph of the discovered modules: every module (once, in
    /// discovery order), then the edges of each module's imports.
    pub fn build_dependency_graph(
        &self,
        all_modules: &Vec<(String, String, Vec<String>)>,
        resolver: &ModuleResolver,
    ) -> (g: DependencyGraph)
        ensures
            g.names() == unique_names(all_modules@),
            g.edge_set() == module_edges(all_modules@, *resolver, unique_names(all_modules@)),
    {
        let mut graph = DependencyGraph::new();
        let mut i: usize = 0;
        proof {
            assert(all_modules@.subrange(0, 0) =~= Seq::<(String, String, Vec<String>)>::empty());
        }
        while i < all_modules.len()
            invariant
                i <= all_modules.len(),
                graph.names() == unique_names(all_modules@.subrange(0, i as int)),
                graph.edge_set() == Set::<(Seq<char>, Seq<char>)>::empty(),
            decreases all_modules.len() - i,
        {
            let entry = &all_modules[i];
            let node = ModuleNode {
                name: copy_string(&entry.0),
                path: copy_string(&entry.1),
                imports: copy_range(&entry.2, 0, entry.2.len()),
            };
            graph.add_module(node);
            proof {
                let t = all_modules@.subrange(0, i + 1);
                assert(t.drop_last() =~= all_modules@.subrange(0, i as int));
                assert(t.last() == all_modules@[i as int]);
            }
            i += 1;
        }
        proof {
            assert(all_modules@.subrange(0, all_modules@.len() as int) =~= all_modules@);
            assert(graph.edge_set() =~= module_edges(
                all_modules@.subrange(0, 0),
                *resolver,
                graph.names(),
            ));
        }
        let ghost names = graph.names();
        let mut k: usize = 0;
        while k < all_modules.len()
            invariant
                k <= all_modules.len(),
                graph.names() == names,
                graph.edge_set() == module_edges(
                    all_modules@.subrange(0, k as int),
                    *resolver,
                    names,
                ),
            decreases all_modules.len() - k,
        {
            let entry = &all_modules[k];
            let ghost base = graph.edge_set();
            let mut j: usize = 0;
            proof {
                assert(views(entry.2@).subrange(0, 0) =~= Seq::<Seq<char>>::empty());
                assert(base + import_edges(
                    views(entry.2@).subrange(0, 0),
                    entry.0@,
                    *resolver,
                    names,
                ) =~= base);
            }
            while j < entry.2.len()
                invariant
                    j <= entry.2.len(),
                    graph.names() == names,
                    graph.edge_set() == base + import_edges(
                        views(entry.2@).subrange(0, j as int),
                        entry.0@,
                        *resolver,
                        names,
                    ),
                decreases entry.2.len() - j,
            {
                self.process_import_for_dependency(
                    entry.2[j].as_str(),
                    entry.0.as_str(),
                    resolver,
                    &mut graph,
                );
                proof {
                    let t = views(entry.2@).subrange(0, j + 1);
                    assert(t.drop_last() =~= views(entry.2@).subrange(0, j as int));
                    assert(t.last() == entry.2@[j as int]@);
                    assert(graph.edge_set() =~= base + import_edges(t, entry.0@, *resolver, names));
                }
                j += 1;
            }
            proof {
                assert(views(entry.2@).subrange(0, entry.2@.len() as int) =~= views(entry.2@));
                let t = all_modules@.subrange(0, k + 1);
                assert(t.drop_last() =~= all_modules@.subrange(0, k as int));
                assert(t.last() == all_modules@[k as int]);
                assert(graph.edge_set() =~= module_edges(t, *resolver, names));
            }
            k += 1;
        }
        proof {
            assert(all_modules@.subrange(0, all_modules@.len() as int) =~= all_modules@);
        }
        graph
    }

    /// The order in which the modules of `graph` are bundled: an order every
    /// dependency edge respects whenever the graph has one (modules after
    /// those they depend on); else, when the cycles `analysis` found are all resolvable
    /// function-level ones, the order of `get_modules_with_cycle_resolution`;
    /// else an error.
    pub fn get_sorted_modules_from_graph(
        &self,
        graph: &DependencyGraph,
        analysis: &CircularDependencyAnalysis,
    ) -> (r: Result<Vec<String>, String>)
        ensures
            analysis.unresolvable_cycles@.len() == 0 && all_function_level(
                analysis.resolvable_cycles@,
            ) ==> r is Ok,
            r matches Ok(order) ==> (views(order@).to_multiset() == graph.names().to_multiset()
                && respects_edges(views(order@), graph.edge_set())) || ({
                let cyc = cycle_module_names(analysis.resolvable_cycles@).to_set();
                let outside = select_names(graph.names(), cyc, false);
                let inside = select_names(graph.names(), cyc, true);
                &&& analysis.unresolvable_cycles@.len() == 0
                &&& all_function_level(analysis.resolvable_cycles@)
                &&& order@.len() == outside.len() + inside.len()
                &&& views(order@).subrange(0, outside.len() as int) == outside
                &&& sorted_names(
                    views(order@).subrange(outside.len() as int, order@.len() as int),
                    true,
                )
                &&& views(order@).subrange(outside.len() as int, order@.len() as int).to_multiset()
                    == inside.to_multiset()
            }),
            r matches Err(e) ==> e@ == "Unresolvable circular dependencies detected"@,
            !has_topological_order(graph.names(), graph.edge_set()) && (
            analysis.unresolvable_cycles@.len() > 0 || exists|i: int|
                0 <= i < analysis.resolvable_cycles@.len() && (
                #[trigger] analysis.resolvable_cycles@[i]).cycle_type !is FunctionLevel) ==> r is Err,
            has_topological_order(graph.names(), graph.edge_set()) ==> (r matches Ok(order)
                && views(order@).to_multiset() == graph.names().to_multiset() && respects_edges(
                views(order@),
                graph.edge_set(),
            )),
    {
        match graph.topological_sort() {
            Ok(order) => Ok(order),
            Err(_) => {
                let mut all_resolvable = analysis.unresolvable_cycles.len() == 0;
                let mut i: usize = 0;
                while i < analysis.resolvable_cycles.len()
                    invariant
                        i <= analysis.resolvable_cycles.len(),
                        all_resolvable == (analysis.unresolvable_cycles@.len() == 0 && forall|
                            j: int,
                        |
                            0 <= j < i ==> #[trigger] analysis.resolvable_cycles@[j].cycle_type
                                == CircularDependencyType::FunctionLevel),
                    decreases analysis.resolvable_cycles.len() - i,
                {
                    match analysis.resolvable_cycles[i].cycle_type {
                        CircularDependencyType::FunctionLevel => {},
                        _ => {
                            all_resolvable = false;
                        },
                    }
                    i += 1;
                }
                if all_resolvable {
                    Ok(self.get_modules_with_cycle_resolution(graph, analysis))
                } else {
                    proof {
                        reveal_strlit("Unresolvable circular dependencies detected");
                    }
                    Err(to_string("Unresolvable circular dependencies detected"))
                }
            },
        }
    }

    /// The modules of `graph` in the order bundling emits them when all its
    /// cycles are resolvable: the modules outside every resolvable cycle, in
    /// graph order, then those in one, deeper modules first and otherwise by name.
    pub fn get_modules_with_cycle_resolution(
        &self,
        graph: &DependencyGraph,
        analysis: &CircularDependencyAnalysis,
    ) -> (r: Vec<String>)
        ensures
            ({
                let cyc = cycle_module_names(analysis.resolvable_cycles@).to_set();
                let outside = select_names(graph.names(), cyc, false);
                let inside = select_names(graph.names(), cyc, true);
                &&& r@.len() == outside.len() + inside.len()
                &&& views(r@).subrange(0, outside.len() as int) == outside
                &&& sorted_names(views(r@).subrange(outside.len() as int, r@.len() as int), true)
                &&& views(r@).subrange(outside.len() as int, r@.len() as int).to_multiset()
                    == inside.to_multiset()
            }),
    {
        let cycles = &analysis.resolvable_cycles;
        let mut cycle_modules = index_set_new();
        let mut i: usize = 0;
        proof {
            assert(cycles@.subrange(0, 0) =~= Seq::<crate::dependency_graph::CircularDependencyGroup>::empty());
            assert(index_set_items(cycle_modules).to_set() =~= cycle_module_names(
                cycles@.subrange(0, 0),
            ).to_set());
        }
        while i < cycles.len()
            invariant
                i <= cycles.len(),
                index_set_items(cycle_modules).to_set() == cycle_module_names(
                    cycles@.subrange(0, i as int),
                ).to_set(),
            decreases cycles.len() - i,
        {
            let names = &cycles[i].modules;
            let ghost base = cycle_module_names(cycles@.subrange(0, i as int));
            let mut j: usize = 0;
            proof {
                assert(base + views(names@).subrange(0, 0) =~= base);
            }
            while j < names.len()
                invariant
                    j <= names.len(),
                    index_set_items(cycle_modules).to_set() == (base + views(names@).subrange(
                        0,
                        j as int,
                    )).to_set(),
                decreases names.len() - j,
            {
                let ghost prev = index_set_items(cycle_modules);
                let ghost acc = base + views(names@).subrange(0, j as int);
                let _ = index_set_insert(&mut cycle_modules, copy_string(&names[j]));
                proof {
                    lemma_insert_mirrors_push(
                        prev,
                        index_set_items(cycle_modules),
                        acc,
                        names@[j as int]@,
                    );
                    assert(base + views(names@).subrange(0, j + 1) =~= acc.push(
                        names@[j as int]@,
                    ));
                }
                j += 1;
            }
            proof {
                assert(views(names@).subrange(0, names@.len() as int) =~= views(names@));
                let t = cycles@.subrange(0, i + 1);
                assert(t.drop_last() =~= cycles@.subrange(0, i as int));
                assert(t.last() == cycles@[i as int]);
            }
            i += 1;
        }
        proof {
            assert(cycles@.subrange(0, cycles@.len() as int) =~= cycles@);
        }
        let ghost cyc = cycle_module_names(cycles@).to_set();
        let modules = graph.get_modules();
        let mut result: Vec<String> = Vec::new();
        let mut cycle_mods: Vec<String> = Vec::new();
        let mut k: usize = 0;
        proof {
            assert(module_names(modules@).subrange(0, 0) =~= Seq::<Seq<char>>::empty());
            assert(views(result@) =~= Seq::<Seq<char>>::empty());
            assert(views(cycle_mods@) =~= Seq::<Seq<char>>::empty());
        }
        while k < modules.len()
            invariant
                k <= modules.len(),
                module_names(modules@) == graph.names(),
                index_set_items(cycle_modules).to_set() == cyc,
                views(result@) == select_names(
                    module_names(modules@).subrange(0, k as int),
                    cyc,
                    false,
                ),
                views(cycle_mods@) == select_names(
                    module_names(modules@).subrange(0, k as int),
                    cyc,
                    true,
                ),
            decreases modules.len() - k,
        {
            let name = &modules[k].name;
            let ghost r0 = views(result@);
            let ghost c0 = views(cycle_mods@);
            proof {
                let t = module_names(modules@).subrange(0, k + 1);
                assert(t.drop_last() =~= module_names(modules@).subrange(0, k as int));
                assert(t.last() == name@);
            }
            if index_set_contains(&cycle_modules, name.as_str()) {
                proof {
                    assert(index_set_items(cycle_modules).to_set().contains(name@));
                }
                cycle_mods.push(copy_string(name));
                proof {
                    assert(views(cycle_mods@) =~= c0.push(name@));
                    assert(views(result@) =~= r0);
                }
            } else {
                proof {
                    if cyc.contains(name@) {
                        let m = choose|m: int|
                            0 <= m < index_set_items(cycle_modules).len() && index_set_items(
                                cycle_modules,
                            )[m] == name@;
                        assert(index_set_items(cycle_modules).contains(name@));
                    }
                }
                result.push(copy_string(name));
                proof {
                    assert(views(result@) =~= r0.push(name@));
                    assert(views(cycle_mods@) =~= c0);
                }
            }
            k += 1;
        }
        proof {
            assert(module_names(modules@).subrange(0, modules@.len() as int) =~= module_names(
                modules@,
            ));
        }
        let ghost outside = views(result@);
        let sorted = sort_names(cycle_mods, true);
        let mut m: usize = 0;
        while m < sorted.len()
            invariant
                m <= sorted.len(),
                views(result@) == outside + views(sorted@).subrange(0, m as int),
            decreases sorted.len() - m,
        {
            let ghost before = views(result@);
            result.push(copy_string(&sorted[m]));
            proof {
                assert(views(result@) =~= before.push(sorted@[m as int]@));
                assert(views(sorted@).subrange(0, m + 1) =~= views(sorted@).subrange(0, m as int).push(
                    sorted@[m as int]@,
                ));
                assert(views(result@) =~= outside + views(sorted@).subrange(0, m + 1));
            }
            m += 1;
        }
        proof {
            broadcast use vstd::seq_lib::group_to_multiset_ensures;
            assert(views(sorted@).subrange(0, sorted@.len() as int) =~= views(sorted@));
            assert(views(result@).subrange(0, outside.len() as int) =~= outside);
            assert(views(result@).subrange(outside.len() as int, result@.len() as int) =~= views(
                sorted@,
            ));
            assert(views(sorted@).to_multiset().len() == views(sorted@).len());
        }
        result
    }
}

// ---------------------------------------------------------------------------
// Specification: the discovery queue
// ---------------------------------------------------------------------------

/// A queue of modules still to read, with the names ever queued.
pub type QueueView = (Seq<(Seq<char>, Seq<char>)>, Seq<Seq<char>>);

/// Queues the module `name` (at `path`) unless it was read or queued before.
pub open spec fn enqueue(
    q: QueueView,
    processed: Seq<Seq<char>>,
    name: Seq<char>,
    path: Seq<char>,
) -> QueueView {
    if !processed.contains(name) && !q.1.contains(name) {
        (q.0.push((name, path)), q.1.push(name))
    } else {
        q
    }
}

/// Queues the first-party parent packages made of the first `1 .. upto - 1` parts.
pub open spec fn parent_discovery(
    q: QueueView,
    processed: Seq<Seq<char>>,
    r: ModuleResolver,
    parts: Seq<Seq<char>>,
    upto: nat,
) -> QueueView
    decreases upto,
{
    if upto <= 1 {
        q
    } else {
        let q1 = parent_discovery(q, processed, r, parts, (upto - 1) as nat);
        let parent = dotted_prefix(parts, upto - 1);
        if r.classification(parent) == ImportType::FirstParty {
            match r.resolved(parent) {
                Some(pp) => enqueue(q1, processed, parent, pp),
                None => q1,
            }
        } else {
            q1
        }
    }
}

/// Queues a first-party import, then its parent packages.
pub open spec fn import_discovery(
    q: QueueView,
    processed: Seq<Seq<char>>,
    r: ModuleResolver,
    import: Seq<char>,
) -> QueueView {
    if r.classification(import) == ImportType::FirstParty {
        match r.resolved(import) {
            Some(p) => parent_discovery(
                enqueue(q, processed, import, p),
                processed,
                r,
                split_on(import, '.'),
                split_on(import, '.').len(),
            ),
            None => q,
        }
    } else {
        q
    }
}

/// Queues the first-party modules among `imports`, in order.
pub open spec fn imports_discovery(
    q: QueueView,
    processed: Seq<Seq<char>>,
    r: ModuleResolver,
    imports: Seq<Seq<char>>,
) -> QueueView
    decreases imports.len(),
{
    if imports.len() == 0 {
        q
    } else {
        import_discovery(
            imports_discovery(q, processed, r, imports.drop_last()),
            processed,
            r,
            imports.last(),
        )
    }
}

/// The next module to read (the most recently queued one not read yet) and
/// the queue left after taking it and any read ones above it.
pub open spec fn next_pending(
    pending: Seq<(Seq<char>, Seq<char>)>,
    processed: Seq<Seq<char>>,
) -> (Option<(Seq<char>, Seq<char>)>, Seq<(Seq<char>, Seq<char>)>)
    decreases pending.len(),
{
    if pending.len() == 0 {
        (None, pending)
    } else if processed.contains(pending.last().0) {
        next_pending(pending.drop_last(), processed)
    } else {
        (Some(pending.last()), pending.drop_last())
    }
}

pub open spec fn pair_views(v: Seq<(String, String)>) -> Seq<(Seq<char>, Seq<char>)> {
    v.map_values(|e: (String, String)| (e.0@, e.1@))
}

/// The state of module discovery: the modules queued and not yet read, the
/// names read and queued so far, and the modules read, with their imports.
pub struct DiscoveryState {
    modules_to_process: Vec<(String, String)>,
    processed_modules: indexmap::IndexSet<String>,
    queued_modules: indexmap::IndexSet<String>,
    all_modules: Vec<(String, String, Vec<String>)>,
}

impl DiscoveryState {
    /// The modules queued, oldest first, as (name, path).
    pub closed spec fn pending(self) -> Seq<(Seq<char>, Seq<char>)> {
        pair_views(self.modules_to_process@)
    }

    /// The names of the modules read, in order.
    pub closed spec fn processed(self) -> Seq<Seq<char>> {
        index_set_items(self.processed_modules)
    }

    /// The names of the modules ever queued, in order.
    pub closed spec fn queued(self) -> Seq<Seq<char>> {
        index_set_items(self.queued_modules)
    }

    /// The modules read, with their files and imports, in order.
    pub closed spec fn discovered(self) -> Seq<(String, String, Vec<String>)> {
        self.all_modules@
    }

    /// Discovery starting from the entry module.
    pub fn new(entry_name: String, entry_path: String) -> (s: Self)
        ensures
            s.pending() == seq![(entry_name@, entry_path@)],
            s.queued() == seq![entry_name@],
            s.processed() == Seq::<Seq<char>>::empty(),
            s.discovered() == Seq::<(String, String, Vec<String>)>::empty(),
    {
        let mut queued = index_set_new();
        let _ = index_set_insert(&mut queued, copy_string(&entry_name));
        let mut pending: Vec<(String, String)> = Vec::new();
        pending.push((entry_name, entry_path));
        let s = DiscoveryState {
            modules_to_process: pending,
            processed_modules: index_set_new(),
            queued_modules: queued,
            all_modules: Vec::new(),
        };
        proof {
            assert(s.pending() =~= seq![(entry_name@, entry_path@)]);
            assert(s.queued() =~= seq![entry_name@]);
        }
        s
    }

    /// Takes the next module to read, skipping queued modules read meanwhile.
    pub fn next_module(&mut self) -> (r: Option<(String, String)>)
        ensures
            (match r {
                Some(e) => Some((e.0@, e.1@)),
                None => None,
            }, final(self).pending()) == next_pending(old(self).pending(), old(self).processed()),
            final(self).processed() == old(self).processed(),
            final(self).queued() == old(self).queued(),
            final(self).discovered() == old(self).discovered(),
    {
        loop
            invariant
                next_pending(self.pending(), self.processed()) == next_pending(
                    old(self).pending(),
                    old(self).processed(),
                ),
                self.processed() == old(self).processed(),
                self.queued() == old(self).queued(),
                self.discovered() == old(self).discovered(),
            decreases self.modules_to_process.len(),
        {
            let ghost before = self.modules_to_process@;
            match self.modules_to_process.pop() {
                None => {
                    proof {
                        assert(self.pending() =~= Seq::<(Seq<char>, Seq<char>)>::empty());
                    }
                    return None;
                },
                Some(entry) => {
                    proof {
                        assert(pair_views(before).last() == (entry.0@, entry.1@));
                        assert(pair_views(before).drop_last() =~= self.pending());
                    }
                    if !index_set_contains(&self.processed_modules, entry.0.as_str()) {
                        return Some(entry);
                    }
                },
            }
        }
    }

    /// Records a module just read, with its imports, and queues the
    /// first-party modules it imports (and their parent packages).
    pub fn record_module(
        &mut self,
        name: String,
        path: String,
        imports: Vec<String>,
        resolver: &ModuleResolver,
    )
        ensures
            final(self).discovered() == old(self).discovered().push((name, path, imports)),
            final(self).processed() == push_unique(old(self).processed(), name@),
            (final(self).pending(), final(self).queued()) == imports_discovery(
                (old(self).pending(), old(self).queued()),
                push_unique(old(self).processed(), name@),
                *resolver,
                views(imports@),
            ),
    {
        let _ = index_set_insert(&mut self.processed_modules, copy_string(&name));
        proof {
            let p0 = old(self).processed();
            if p0.contains(name@) {
                assert(push_unique(p0, name@) == p0);
            }
        }
        let mut i: usize = 0;
        proof {
            assert(views(imports@).subrange(0, 0) =~= Seq::<Seq<char>>::empty());
        }
        while i < imports.len()
            invariant
                i <= imports.len(),
                self.processed() == push_unique(old(self).processed(), name@),
                self.discovered() == old(self).discovered(),
                (self.pending(), self.queued()) == imports_discovery(
                    (old(self).pending(), old(self).queued()),
                    self.processed(),
                    *resolver,
                    views(imports@).subrange(0, i as int),
                ),
            decreases imports.len() - i,
        {
            BundleOrchestrator::process_import_for_discovery(imports[i].as_str(), resolver, self);
            proof {
                let t = views(imports@).subrange(0, i + 1);
                assert(t.drop_last() =~= views(imports@).subrange(0, i as int));
                assert(t.last() == imports@[i as int]@);
            }
            i += 1;
        }
        proof {
            assert(views(imports@).subrange(0, imports@.len() as int) =~= views(imports@));
        }
        self.all_modules.push((name, path, imports));
    }

    /// The modules read, with their files and imports, in order.
    pub fn into_modules(self) -> (r: Vec<(String, String, Vec<String>)>)
        ensures
            r@ == self.discovered(),
    {
        self.all_modules
    }
}

impl BundleOrchestrator {
    /// Queues `import` at `import_path` unless it was read or queued before.
    fn add_to_discovery_queue_if_new(import: &str, import_path: String, params: &mut DiscoveryState)
        ensures
            final(params).processed() == old(params).processed(),
            final(params).discovered() == old(params).discovered(),
            (final(params).pending(), final(params).queued()) == enqueue(
                (old(params).pending(), old(params).queued()),
                old(params).processed(),
                import@,
                import_path@,
            ),
    {
        if !index_set_contains(&params.processed_modules, import) && !index_set_contains(
            &params.queued_modules,
            import,
        ) {
            let ghost before = params.modules_to_process@;
            params.modules_to_process.push((to_string(import), import_path));
            let _ = index_set_insert(&mut params.queued_modules, to_string(import));
            proof {
                assert(pair_views(params.modules_to_process@) =~= pair_views(before).push(
                    (import@, import_path@),
                ));
            }
        }
    }

    /// Queues the first-party parent packages of `import`.
    fn add_parent_packages_to_discovery(import: &str, resolver: &ModuleResolver, params: &mut DiscoveryState)
        ensures
            final(params).processed() == old(params).processed(),
            final(params).discovered() == old(params).discovered(),
            (final(params).pending(), final(params).queued()) == parent_discovery(
                (old(params).pending(), old(params).queued()),
                old(params).processed(),
                *resolver,
                split_on(import@, '.'),
                split_on(import@, '.').len(),
            ),
    {
        let parts = split_char(import, '.');
        proof {
            lemma_split_nonempty(import@, '.');
        }
        let mut i: usize = 1;
        while i < parts.len()
            invariant
                1 <= i <= parts.len(),
                views(parts@) == split_on(import@, '.'),
                params.processed() == old(params).processed(),
                params.discovered() == old(params).discovered(),
                (params.pending(), params.queued()) == parent_discovery(
                    (old(params).pending(), old(params).queued()),
                    old(params).processed(),
                    *resolver,
                    views(parts@),
                    i as nat,
                ),
            decreases parts.len() - i,
        {
            let prefix = copy_range(&parts, 0, i);
            let parent_module = join_strings(&prefix, ".");
            Self::try_add_parent_package_to_discovery(parent_module.as_str(), resolver, params);
            i += 1;
        }
    }

    /// Queues `parent_module` if it is a first-party module.
    fn try_add_parent_package_to_discovery(
        parent_module: &str,
        resolver: &ModuleResolver,
        params: &mut DiscoveryState,
    )
        ensures
            final(params).processed() == old(params).processed(),
            final(params).discovered() == old(params).discovered(),
            (final(params).pending(), final(params).queued()) == if resolver.classification(
                parent_module@,
            ) == ImportType::FirstParty {
                match resolver.resolved(parent_module@) {
                    Some(pp) => enqueue(
                        (old(params).pending(), old(params).queued()),
                        old(params).processed(),
                        parent_module@,
                        pp,
                    ),
                    None => (old(params).pending(), old(params).queued()),
                }
            } else {
                (old(params).pending(), old(params).queued())
            },
    {
        match resolver.classify_import(parent_module) {
            ImportType::FirstParty => {
                if let Some(parent_path) = resolver.resolve_module_path(parent_module) {
                    Self::add_to_discovery_queue_if_new(parent_module, parent_path, params);
                }
            },
            _ => {},
        }
    }

    /// Queues a first-party import and its parent packages.
    fn process_import_for_discovery(import: &str, resolver: &ModuleResolver, params: &mut DiscoveryState)
        ensures
            final(params).processed() == old(params).processed(),
            final(params).discovered() == old(params).discovered(),
            (final(params).pending(), final(params).queued()) == import_discovery(
                (old(params).pending(), old(params).queued()),
                old(params).processed(),
                *resolver,
                import@,
            ),
    {
        match resolver.classify_import(import) {
            ImportType::FirstParty => {
                if let Some(import_path) = resolver.resolve_module_path(import) {
                    Self::add_to_discovery_queue_if_new(import, import_path, params);
                    Self::add_parent_packages_to_discovery(import, resolver, params);
                }
            },
            _ => {},
        }
    }
}

} // verus!
