//! The module-level dependency graph: which first-party module must be
//! emitted before which, and the circular dependencies found in it.
use vstd::prelude::*;

use crate::text::{str_eq, views};

verus! {

/// A first-party module of the bundle.
#[derive(Debug, Clone)]
pub struct ModuleNode {
    pub name: String,
    pub path: String,
    pub imports: Vec<String>,
}

/// How a cycle between modules comes about.
#[derive(Debug, Clone, Copy, PartialEq, Eq)]
pub enum CircularDependencyType {
    /// The modules only use each other inside functions.
    FunctionLevel,
    /// Class definitions depend on each other.
    ClassLevel,
    /// Module-level constants depend on each other.
    ModuleConstants,
    /// The modules need each other while being imported.
    ImportTime,
}

/// What could be done about a cycle.
#[derive(Debug, Clone)]
pub enum ResolutionStrategy {
    LazyImport { modules: Vec<String> },
    FunctionScopedImport { import_statements: Vec<String> },
    ModuleSplit { suggestions: Vec<String> },
    Unresolvable { reason: String },
}

/// A group of modules that depend on each other in a cycle.
#[derive(Debug, Clone)]
pub struct CircularDependencyGroup {
    pub modules: Vec<String>,
    pub cycle_type: CircularDependencyType,
    pub suggested_resolution: ResolutionStrategy,
}

/// The cycles of a graph, split by whether the bundler can resolve them.
#[derive(Debug, Clone)]
pub struct CircularDependencyAnalysis {
    pub total_cycles_detected: usize,
    pub resolvable_cycles: Vec<CircularDependencyGroup>,
    pub unresolvable_cycles: Vec<CircularDependencyGroup>,
}

/// The modules of a bundle and the dependency edges between them
/// (an edge `a -> b` means `a` must come before `b`).
#[derive(Debug)]
pub struct DependencyGraph {
    modules: Vec<ModuleNode>,
    edges: Vec<(String, String)>,
}

/// The names of a sequence of modules.
pub open spec fn module_names(ms: Seq<ModuleNode>) -> Seq<Seq<char>> {
    ms.map_values(|m: ModuleNode| m.name@)
}

pub open spec fn edge_views(es: Seq<(String, String)>) -> Seq<(Seq<char>, Seq<char>)> {
    es.map_values(|e: (String, String)| (e.0@, e.1@))
}

impl DependencyGraph {
    /// The names of the modules, in the order they were added.
    pub closed spec fn names(self) -> Seq<Seq<char>> {
        module_names(self.modules@)
    }

    /// The dependency edges.
    pub closed spec fn edge_set(self) -> Set<(Seq<char>, Seq<char>)> {
        edge_views(self.edges@).to_set()
    }

    /// An empty graph.
    pub fn new() -> (g: Self)
        ensures
            g.names() == Seq::<Seq<char>>::empty(),
            g.edge_set() == Set::<(Seq<char>, Seq<char>)>::empty(),
    {
        let g = DependencyGraph { modules: Vec::new(), edges: Vec::new() };
        proof {
            assert(g.names() =~= Seq::<Seq<char>>::empty());
            assert(g.edge_set() =~= Set::<(Seq<char>, Seq<char>)>::empty());
        }
        g
    }

    /// The position of the module called `name`.
    fn find(&self, name: &str) -> (r: Option<usize>)
        ensures
            r matches Some(i) ==> i < self.names().len() && self.names()[i as int] == name@,
            r is None ==> !self.names().contains(name@),
    {
        let mut i: usize = 0;
        while i < self.modules.len()
            invariant
                i <= self.modules.len(),
                forall|j: int| 0 <= j < i ==> self.names()[j] != name@,
            decreases self.modules.len() - i,
        {
            if str_eq(self.modules[i].name.as_str(), name) {
                return Some(i);
            }
            i += 1;
        }
        None
    }

    /// The modules, in the order they were added.
    pub fn get_modules(&self) -> (r: &Vec<ModuleNode>)
        ensures
            module_names(r@) == self.names(),
    {
        &self.modules
    }

    /// Whether the graph has the edge `from -> to`.
    pub fn has_dependency(&self, from: &str, to: &str) -> (r: bool)
        ensures
            r == self.edge_set().contains((from@, to@)),
    {
        let mut i: usize = 0;
        while i < self.edges.len()
            invariant
                i <= self.edges.len(),
                forall|j: int| 0 <= j < i ==> edge_views(self.edges@)[j] != (from@, to@),
            decreases self.edges.len() - i,
        {
            if str_eq(self.edges[i].0.as_str(), from) && str_eq(self.edges[i].1.as_str(), to) {
                proof {
                    assert(edge_views(self.edges@)[i as int] == (from@, to@));
                }
                return true;
            }
            i += 1;
        }
        proof {
            if edge_views(self.edges@).to_set().contains((from@, to@)) {
                let k = choose|k: int| 0 <= k < edge_views(self.edges@).len() && edge_views(self.edges@)[k] == (from@, to@);
            }
        }
        false
    }

    /// The module called `name`, if the graph has one.
    pub fn get_module(&self, name: &str) -> (r: Option<&ModuleNode>)
        ensures
            r is Some <==> self.names().contains(name@),
            r matches Some(m) ==> m.name@ == name@,
    {
        match self.find(name) {
            Some(i) => Some(&self.modules[i]),
            None => None,
        }
    }

    /// Adds a module unless one of that name is already there.
    pub fn add_module(&mut self, module: ModuleNode)
        ensures
            final(self).names() == if old(self).names().contains(module.name@) {
                old(self).names()
            } else {
                old(self).names().push(module.name@)
            },
            final(self).edge_set() == old(self).edge_set(),
    {
        if self.find(module.name.as_str()).is_some() {
            return;
        }
        let ghost before = self.modules@;
        self.modules.push(module);
        proof {
            assert(module_names(self.modules@) =~= module_names(before).push(module.name@));
        }
    }

    /// Adds the edge `from -> to` (`from` must come before `to`); an error if
    /// either module is not in the graph.
    pub fn add_dependency(&mut self, from: &str, to: &str) -> (r: Result<(), String>)
        ensures
            r is Ok <==> old(self).names().contains(from@) && old(self).names().contains(to@),
            final(self).names() == old(self).names(),
            r is Ok ==> final(self).edge_set() == old(self).edge_set().insert((from@, to@)),
            r is Err ==> final(self).edge_set() == old(self).edge_set(),
    {
        if self.find(from).is_none() || self.find(to).is_none() {
            return Err(String::new());
        }
        let ghost before = self.edges@;
        self.edges.push((from.to_owned(), to.to_owned()));
        proof {
            assert(edge_views(self.edges@) =~= edge_views(before).push((from@, to@)));
            assert(edge_views(self.edges@).to_set() =~= edge_views(before).to_set().insert(
                (from@, to@),
            )) by {
                let a = edge_views(before);
                let b = edge_views(self.edges@);
                assert forall|x| #[trigger] b.to_set().contains(x) implies a.to_set().insert(
                    (from@, to@),
                ).contains(x) by {
                    let k = choose|k: int| 0 <= k < b.len() && b[k] == x;
                    if k < a.len() {
                        assert(a[k] == x);
                    }
                }
                assert forall|x| #[trigger] a.to_set().insert((from@, to@)).contains(x) implies b.to_set().contains(
                    x,
                ) by {
                    if x == (from@, to@) {
                        assert(b[a.len() as int] == x);
                    } else {
                        let k = choose|k: int| 0 <= k < a.len() && a[k] == x;
                        assert(b[k] == x);
                    }
                }
            }
        }
        Ok(())
    }
}

/// No edge of `edges` goes from a later name of `order` to an earlier one (nor
/// from a name to itself).
pub open spec fn respects_edges(order: Seq<Seq<char>>, edges: Set<(Seq<char>, Seq<char>)>) -> bool {
    forall|i: int, j: int| 0 <= i <= j < order.len() ==> !edges.contains((order[j], order[i]))
}

/// Some name of `rest` has an edge into `x`.
pub open spec fn has_predecessor(rest: Seq<Seq<char>>, edges: Set<(Seq<char>, Seq<char>)>, x: Seq<char>) -> bool {
    exists|y: Seq<char>| rest.contains(y) && edges.contains((y, x))
}

/// Every name of `rest` has an edge into it from a name of `rest`: the
/// names lie on or after a cycle, so no order of them respects the edges.
pub open spec fn blocked(rest: Seq<Seq<char>>, edges: Set<(Seq<char>, Seq<char>)>) -> bool {
    forall|x: Seq<char>| rest.contains(x) ==> #[trigger] has_predecessor(rest, edges, x)
}

/// Some order of the names `names` (each as often as it occurs) respects `edges`.
pub open spec fn has_topological_order(names: Seq<Seq<char>>, edges: Set<(Seq<char>, Seq<char>)>) -> bool {
    exists|order: Seq<Seq<char>>|
        #[trigger] order.to_multiset() == names.to_multiset() && respects_edges(order, edges)
}

/// No order of `names` respects the edges when some of them, `rest`, are blocked.
pub proof fn lemma_blocked_no_order(
    names: Seq<Seq<char>>,
    rest: Seq<Seq<char>>,
    edges: Set<(Seq<char>, Seq<char>)>,
)
    requires
        rest.len() > 0,
        blocked(rest, edges),
        rest.to_multiset().subset_of(names.to_multiset()),
    ensures
        !has_topological_order(names, edges),
{
    broadcast use vstd::seq_lib::group_to_multiset_ensures;
    if has_topological_order(names, edges) {
        let order = choose|order: Seq<Seq<char>>|
            #[trigger] order.to_multiset() == names.to_multiset() && respects_edges(order, edges);
        assert(rest.contains(rest[0]));
        assert(rest.to_multiset().count(rest[0]) > 0);
        assert(order.to_multiset().count(rest[0]) > 0);
        assert forall|x: Seq<char>| rest.contains(x) implies order.contains(x) by {
            assert(rest.to_multiset().count(x) > 0);
            assert(order.to_multiset().count(x) > 0);
        }
        lemma_first_blocked(order, rest, edges, 0);
    }
}

/// Among the positions from `k` on, one holds a blocked name, and none before
/// `k` does: then the order does not respect the edges.
proof fn lemma_first_blocked(
    order: Seq<Seq<char>>,
    rest: Seq<Seq<char>>,
    edges: Set<(Seq<char>, Seq<char>)>,
    k: int,
)
    requires
        0 <= k <= order.len(),
        rest.len() > 0,
        blocked(rest, edges),
        forall|x: Seq<char>| rest.contains(x) ==> order.contains(x),
        forall|j: int| 0 <= j < k ==> !rest.contains(#[trigger] order[j]),
    ensures
        !respects_edges(order, edges),
    decreases order.len() - k,
{
    if k == order.len() {
        assert(rest.contains(rest[0]));
        assert(order.contains(rest[0]));
        let p = choose|p: int| 0 <= p < order.len() && order[p] == rest[0];
        assert(!rest.contains(order[p]));
    } else if rest.contains(order[k]) {
        let x = order[k];
        assert(has_predecessor(rest, edges, x));
        let y = choose|y: Seq<char>| rest.contains(y) && edges.contains((y, x));
        assert(order.contains(y));
        let p = choose|p: int| 0 <= p < order.len() && order[p] == y;
        if p < k {
            assert(!rest.contains(order[p]));
        } else {
            assert(edges.contains((order[p], order[k])));
        }
    } else {
        lemma_first_blocked(order, rest, edges, k + 1);
    }
}

impl DependencyGraph {
    /// Whether some edge leads into `target` from a name of `from`.
    fn has_edge_into(&self, from: &Vec<String>, target: &str) -> (r: bool)
        ensures
            r == exists|y: Seq<char>| views(from@).contains(y) && self.edge_set().contains((y, target@)),
    {
        let mut i: usize = 0;
        while i < self.edges.len()
            invariant
                i <= self.edges.len(),
                forall|j: int|
                    0 <= j < i ==> !(edge_views(self.edges@)[j].1 == target@ && views(from@).contains(
                        #[trigger] edge_views(self.edges@)[j].0,
                    )),
            decreases self.edges.len() - i,
        {
            if str_eq(self.edges[i].1.as_str(), target) && crate::text::contains_name(
                from,
                self.edges[i].0.as_str(),
            ) {
                proof {
                    let e = edge_views(self.edges@)[i as int];
                    assert(e == (self.edges@[i as int].0@, self.edges@[i as int].1@));
                    assert(views(from@).to_set().contains(e.0));
                    assert(views(from@).contains(e.0));
                    assert(self.edge_set().contains(e));
                }
                return true;
            }
            proof {
                let e = edge_views(self.edges@)[i as int];
                assert(e == (self.edges@[i as int].0@, self.edges@[i as int].1@));
                if views(from@).contains(e.0) {
                    let k = choose|k: int| 0 <= k < views(from@).len() && views(from@)[k] == e.0;
                    assert(views(from@).to_set().contains(e.0));
                }
            }
            i += 1;
        }
        proof {
            if exists|y: Seq<char>| views(from@).contains(y) && self.edge_set().contains((y, target@)) {
                let y = choose|y: Seq<char>| views(from@).contains(y) && self.edge_set().contains((y, target@));
                let k = choose|k: int| 0 <= k < edge_views(self.edges@).len() && edge_views(self.edges@)[k] == (y, target@);
                assert(edge_views(self.edges@)[k].0 == y);
            }
        }
        false
    }

    /// The position of the first name of `remaining` with no edge into it from
    /// a name of `remaining`, if any.
    fn first_ready(&self, remaining: &Vec<String>) -> (r: Option<usize>)
        ensures
            r matches Some(k) ==> k < remaining@.len() && !has_predecessor(
                views(remaining@),
                self.edge_set(),
                views(remaining@)[k as int],
            ),
            r is None ==> forall|j: int|
                0 <= j < remaining@.len() ==> has_predecessor(
                    views(remaining@),
                    self.edge_set(),
                    #[trigger] views(remaining@)[j],
                ),
    {
        let mut k: usize = 0;
        while k < remaining.len()
            invariant
                k <= remaining.len(),
                forall|j: int|
                    0 <= j < k ==> has_predecessor(
                        views(remaining@),
                        self.edge_set(),
                        #[trigger] views(remaining@)[j],
                    ),
            decreases remaining.len() - k,
        {
            proof {
                assert(views(remaining@)[k as int] == remaining@[k as int]@);
            }
            if !self.has_edge_into(remaining, remaining[k].as_str()) {
                return Some(k);
            }
            k += 1;
        }
        None
    }

    /// The modules in an order every edge respects (a module after those it
    /// depends on), taking among the modules left the first one in graph
    /// order with no edge into it from another module left; if none is left
    /// to take, the error holds the modules left, each of which has an edge
    /// into it from another of them.
    pub fn topological_sort(&self) -> (r: Result<Vec<String>, Vec<String>>)
        ensures
            r matches Ok(order) ==> views(order@).to_multiset() == self.names().to_multiset()
                && respects_edges(views(order@), self.edge_set()),
            r matches Err(rest) ==> rest@.len() > 0 && blocked(views(rest@), self.edge_set())
                && views(rest@).to_multiset().subset_of(self.names().to_multiset()),
            r is Err <==> !has_topological_order(self.names(), self.edge_set()),
    {
        let mut remaining: Vec<String> = Vec::new();
        let mut i: usize = 0;
        while i < self.modules.len()
            invariant
                i <= self.modules.len(),
                views(remaining@) == self.names().subrange(0, i as int),
            decreases self.modules.len() - i,
        {
            let ghost before = views(remaining@);
            remaining.push(crate::text::copy_string(&self.modules[i].name));
            proof {
                assert(views(remaining@) =~= before.push(self.names()[i as int]));
                assert(self.names().subrange(0, i + 1) =~= self.names().subrange(0, i as int).push(
                    self.names()[i as int],
                ));
            }
            i += 1;
        }
        proof {
            assert(self.names().subrange(0, self.modules@.len() as int) =~= self.names());
        }
        let ghost edges = self.edge_set();
        let mut order: Vec<String> = Vec::new();
        while remaining.len() > 0
            invariant
                edges == self.edge_set(),
                (views(order@) + views(remaining@)).to_multiset() == self.names().to_multiset(),
                respects_edges(views(order@), edges),
                forall|a: int, b: int|
                    0 <= a < order@.len() && 0 <= b < remaining@.len() ==> !edges.contains(
                        (#[trigger] views(remaining@)[b], #[trigger] views(order@)[a]),
                    ),
            decreases remaining.len(),
        {
            let k = match self.first_ready(&remaining) {
                Some(k) => k,
                None => {
                    proof {
                        broadcast use vstd::multiset::group_multiset_axioms;
                        assert forall|x: Seq<char>| views(remaining@).contains(x) implies #[trigger] has_predecessor(
                            views(remaining@),
                            edges,
                            x,
                        ) by {
                            let j = choose|j: int|
                                0 <= j < views(remaining@).len() && views(remaining@)[j] == x;
                            assert(views(remaining@)[j] == x);
                        }
                        vstd::seq_lib::lemma_multiset_commutative(views(order@), views(remaining@));
                        assert(views(remaining@).to_multiset().subset_of(self.names().to_multiset()));
                        lemma_blocked_no_order(self.names(), views(remaining@), edges);
                    }
                    return Err(remaining);
                },
            };
            let ghost r0 = views(remaining@);
            let ghost o0 = views(order@);
            let picked = remaining.remove(k);
            proof {
                assert(picked@ == r0[k as int]);
                assert(views(remaining@) =~= r0.remove(k as int));
                assert(!has_predecessor(r0, edges, picked@));
                assert forall|y: Seq<char>| r0.contains(y) implies !edges.contains((y, picked@)) by {}
            }
            order.push(picked);
            proof {
                broadcast use vstd::seq_lib::group_to_multiset_ensures;
                let o1 = views(order@);
                let r1 = views(remaining@);
                assert(o1 =~= o0.push(picked@));
                assert(o0 + r0 =~= o0 + r0.subrange(0, k as int) + r0.subrange(k as int, r0.len() as int));
                assert(r0 =~= r0.subrange(0, k as int).push(picked@) + r0.subrange(k + 1, r0.len() as int));
                assert(r1 =~= r0.subrange(0, k as int) + r0.subrange(k + 1, r0.len() as int));
                assert((o1 + r1).to_multiset() == (o0 + r0).to_multiset()) by {
                    vstd::seq_lib::lemma_multiset_commutative(o0.push(picked@), r1);
                    vstd::seq_lib::lemma_multiset_commutative(o0, r0);
                    vstd::seq_lib::lemma_multiset_commutative(r0.subrange(0, k as int), r0.subrange(k as int, r0.len() as int));
                    assert(r0.subrange(k as int, r0.len() as int) =~= seq![picked@] + r0.subrange(k + 1, r0.len() as int));
                    vstd::seq_lib::lemma_multiset_commutative(seq![picked@], r0.subrange(k + 1, r0.len() as int));
                    vstd::seq_lib::lemma_multiset_commutative(r0.subrange(0, k as int), r0.subrange(k + 1, r0.len() as int));
                }
                assert forall|a: int, b: int| 0 <= a <= b < o1.len() implies !edges.contains((o1[b], o1[a])) by {
                    if b == o0.len() {
                        if a < o0.len() {
                            assert(r0[k as int] == picked@);
                            assert(o1[a] == o0[a]);
                            assert(!edges.contains((r0[k as int], o0[a])));
                        } else {
                            assert(r0.contains(picked@));
                        }
                    } else {
                        assert(o1[a] == o0[a] && o1[b] == o0[b]);
                    }
                }
                assert forall|a: int, b: int| 0 <= a < o1.len() && 0 <= b < r1.len() implies !edges.contains(
                    (#[trigger] r1[b], #[trigger] o1[a]),
                ) by {
                    let ob: int = if b < k { b } else { b + 1 };
                    assert(r1[b] == r0[ob]);
                    if a < o0.len() {
                        assert(o1[a] == o0[a]);
                    } else {
                        assert(r0.contains(r0[ob]));
                    }
                }
            }
        }
        proof {
            assert(views(order@) + views(remaining@) =~= views(order@));
        }
        Ok(order)
    }
}

} // verus!
