//! After the wrapped modules are initialised: binding each wrapped submodule
//! as an attribute of its parent package, so that `pkg.sub` and relative
//! imports such as `from . import sub` find it.
use vstd::prelude::*;

use indexmap::IndexSet;

use crate::ast::Stmt;
use crate::builders::{is_dotted_attribute_assignment, is_namespace_module};
use crate::code_generator::HybridStaticBundler;
use crate::collections::{index_set_contains, index_set_insert, index_set_items, index_set_new};
use crate::order::{lemma_lex_irreflexive, lemma_lex_total, lemma_lex_transitive, lex_lt, sort_names, sorted_names, str_less};
use crate::orchestrator::{dotted_prefix, push_unique};
use crate::text::{contains_char, contains_name, copy_range, copy_string, join_strings, lemma_split_nonempty, split_char, split_on, views};

verus! {

/// A link from a parent package to a submodule: the parent, the attribute
/// the submodule is bound to, and the submodule.
pub type Link = (String, String, String);

/// The text of a link.
pub open spec fn link_view(l: Link) -> (Seq<char>, Seq<char>, Seq<char>) {
    (l.0@, l.1@, l.2@)
}

/// The texts of links.
pub open spec fn link_views(v: Seq<Link>) -> Seq<(Seq<char>, Seq<char>, Seq<char>)> {
    v.map_values(|l: Link| link_view(l))
}

/// `a` comes before `b`: by parent, then attribute, then submodule.
pub open spec fn link_before(a: (Seq<char>, Seq<char>, Seq<char>), b: (Seq<char>, Seq<char>, Seq<char>)) -> bool {
    lex_lt(a.0, b.0) || (a.0 == b.0 && (lex_lt(a.1, b.1) || (a.1 == b.1 && lex_lt(a.2, b.2))))
}

/// The links are in order.
pub open spec fn sorted_links(s: Seq<(Seq<char>, Seq<char>, Seq<char>)>) -> bool {
    forall|i: int, j: int| 0 <= i < j < s.len() ==> !link_before(s[j], s[i])
}

proof fn lemma_link_irreflexive(a: (Seq<char>, Seq<char>, Seq<char>))
    ensures
        !link_before(a, a),
{
    lemma_lex_irreflexive(a.0);
    lemma_lex_irreflexive(a.1);
    lemma_lex_irreflexive(a.2);
}

proof fn lemma_lex_asymmetric(a: Seq<char>, b: Seq<char>)
    ensures
        !(lex_lt(a, b) && lex_lt(b, a)),
{
    if lex_lt(a, b) && lex_lt(b, a) {
        lemma_lex_transitive(a, b, a);
        lemma_lex_irreflexive(a);
    }
}

proof fn lemma_link_transitive(
    a: (Seq<char>, Seq<char>, Seq<char>),
    b: (Seq<char>, Seq<char>, Seq<char>),
    c: (Seq<char>, Seq<char>, Seq<char>),
)
    requires
        link_before(a, b),
        link_before(b, c),
    ensures
        link_before(a, c),
{
    if lex_lt(a.0, b.0) && lex_lt(b.0, c.0) {
        lemma_lex_transitive(a.0, b.0, c.0);
    }
    if a.0 == b.0 && b.0 == c.0 {
        if lex_lt(a.1, b.1) && lex_lt(b.1, c.1) {
            lemma_lex_transitive(a.1, b.1, c.1);
        }
        if a.1 == b.1 && b.1 == c.1 && lex_lt(a.2, b.2) && lex_lt(b.2, c.2) {
            lemma_lex_transitive(a.2, b.2, c.2);
        }
    }
}

proof fn lemma_link_total(a: (Seq<char>, Seq<char>, Seq<char>), b: (Seq<char>, Seq<char>, Seq<char>))
    ensures
        a == b || link_before(a, b) || link_before(b, a),
{
    lemma_lex_total(a.0, b.0);
    lemma_lex_total(a.1, b.1);
    lemma_lex_total(a.2, b.2);
}

/// `a` comes before `b` in the order of links.
fn link_less(a: &Link, b: &Link) -> (r: bool)
    ensures
        r == link_before(link_view(*a), link_view(*b)),
{
    if str_less(a.0.as_str(), b.0.as_str()) {
        return true;
    }
    if str_less(b.0.as_str(), a.0.as_str()) {
        proof {
            lemma_lex_asymmetric(a.0@, b.0@);
            lemma_lex_irreflexive(a.0@);
        }
        return false;
    }
    proof {
        lemma_lex_total(a.0@, b.0@);
    }
    if str_less(a.1.as_str(), b.1.as_str()) {
        return true;
    }
    if str_less(b.1.as_str(), a.1.as_str()) {
        proof {
            lemma_lex_asymmetric(a.1@, b.1@);
            lemma_lex_irreflexive(a.1@);
        }
        return false;
    }
    proof {
        lemma_lex_total(a.1@, b.1@);
    }
    str_less(a.2.as_str(), b.2.as_str())
}

/// The links in order; the result holds the same links, as many times each.
pub fn sort_links(v: Vec<Link>) -> (r: Vec<Link>)
    ensures
        sorted_links(link_views(r@)),
        link_views(r@).to_multiset() == link_views(v@).to_multiset(),
{
    let ghost vs = link_views(v@);
    let mut r: Vec<Link> = Vec::new();
    let mut k: usize = 0;
    proof {
        broadcast use vstd::seq_lib::group_to_multiset_ensures;
        assert(link_views(r@) =~= Seq::<(Seq<char>, Seq<char>, Seq<char>)>::empty());
        assert(vs.subrange(0, 0) =~= Seq::<(Seq<char>, Seq<char>, Seq<char>)>::empty());
    }
    while k < v.len()
        invariant
            k <= v.len(),
            vs == link_views(v@),
            sorted_links(link_views(r@)),
            link_views(r@).to_multiset() == vs.subrange(0, k as int).to_multiset(),
        decreases v.len() - k,
    {
        let x = (copy_string(&v[k].0), copy_string(&v[k].1), copy_string(&v[k].2));
        proof {
            assert(link_view(x) == vs[k as int]);
        }
        let mut p: usize = 0;
        while p < r.len() && !link_less(&x, &r[p])
            invariant
                p <= r.len(),
                forall|i: int| 0 <= i < p ==> !link_before(link_view(x), #[trigger] link_view(r@[i])),
            decreases r.len() - p,
        {
            p += 1;
        }
        let ghost old_r = link_views(r@);
        let ghost xv = link_view(x);
        proof {
            assert forall|i: int| 0 <= i < p implies !link_before(xv, #[trigger] old_r[i]) by {
                assert(old_r[i] == link_view(r@[i]));
            }
            if p < r.len() {
                assert(link_before(xv, old_r[p as int]));
            }
        }
        r.insert(p, x);
        proof {
            broadcast use vstd::seq_lib::group_to_multiset_ensures;
            let nr = link_views(r@);
            assert(nr =~= old_r.insert(p as int, xv));
            assert forall|i: int, j: int| 0 <= i < j < nr.len() implies !link_before(nr[j], nr[i]) by {
                if j == p {
                    assert(nr[i] == old_r[i]);
                    lemma_link_total(xv, old_r[i]);
                } else if i == p {
                    assert(nr[j] == old_r[j - 1]);
                    if link_before(old_r[j - 1], xv) {
                        if p < old_r.len() {
                            lemma_link_transitive(old_r[j - 1], xv, old_r[p as int]);
                            if j - 1 > p {
                                assert(!link_before(old_r[j - 1], old_r[p as int]));
                            } else {
                                lemma_link_irreflexive(old_r[p as int]);
                            }
                        }
                    }
                } else {
                    let oi = if i < p { i } else { i - 1 };
                    let oj = if j < p { j } else { j - 1 };
                    assert(nr[i] == old_r[oi]);
                    assert(nr[j] == old_r[oj]);
                }
            }
            assert(nr.remove(p as int) =~= old_r);
            assert(nr[p as int] == xv);
            assert(nr.to_multiset().count(xv) > 0);
            assert(nr.to_multiset() =~= old_r.to_multiset().insert(xv));
            assert(vs.subrange(0, k + 1) =~= vs.subrange(0, k as int).push(vs[k as int]));
        }
        k += 1;
    }
    proof {
        assert(vs.subrange(0, k as int) =~= vs);
    }
    r
}

// ---------------------------------------------------------------------------
// The links of the bundle
// ---------------------------------------------------------------------------

/// The link at split point `k` of a dotted name's `parts`, where both the
/// parent and the submodule are bundled and the submodule is wrapped.
pub open spec fn split_link(
    parts: Seq<Seq<char>>,
    k: int,
    bundled: Seq<Seq<char>>,
    registry: Map<Seq<char>, Seq<char>>,
) -> Seq<(Seq<char>, Seq<char>, Seq<char>)> {
    let parent = dotted_prefix(parts, k);
    let child = dotted_prefix(parts, k + 1);
    if bundled.contains(parent) && bundled.contains(child) && registry.contains_key(child) {
        seq![(parent, parts[k], child)]
    } else {
        Seq::empty()
    }
}

/// The links at the split points `1 .. upto` of a dotted name's `parts`.
pub open spec fn split_links(
    parts: Seq<Seq<char>>,
    upto: int,
    bundled: Seq<Seq<char>>,
    registry: Map<Seq<char>, Seq<char>>,
) -> Seq<(Seq<char>, Seq<char>, Seq<char>)>
    decreases upto,
{
    if upto <= 1 {
        Seq::empty()
    } else {
        split_links(parts, upto - 1, bundled, registry) + split_link(parts, upto - 1, bundled, registry)
    }
}

/// The links of the dotted module names among `sorted`, in order.
pub open spec fn submodule_links(
    sorted: Seq<Seq<char>>,
    bundled: Seq<Seq<char>>,
    registry: Map<Seq<char>, Seq<char>>,
) -> Seq<(Seq<char>, Seq<char>, Seq<char>)>
    decreases sorted.len(),
{
    if sorted.len() == 0 {
        Seq::empty()
    } else {
        let m = sorted.last();
        let parts = split_on(m, '.');
        submodule_links(sorted.drop_last(), bundled, registry) + if m.contains('.') {
            split_links(parts, parts.len() as int, bundled, registry)
        } else {
            Seq::empty()
        }
    }
}

/// The parents of the links, each once, in the order first linked.
pub open spec fn link_parents(links: Seq<(Seq<char>, Seq<char>, Seq<char>)>) -> Seq<Seq<char>>
    decreases links.len(),
{
    if links.len() == 0 {
        Seq::empty()
    } else {
        push_unique(link_parents(links.drop_last()), links.last().0)
    }
}

// ---------------------------------------------------------------------------
// The statements
// ---------------------------------------------------------------------------

/// Binding the wrapped parent module `m` from `sys.modules` (its parent's
/// attribute for a dotted name, else the name), unless `before` binds it
/// already; a module that is not wrapped adds nothing.
pub open spec fn assign_step(
    registry: Map<Seq<char>, Seq<char>>,
    before: Seq<Stmt>,
    m: Seq<char>,
    after: Seq<Stmt>,
) -> bool {
    if registry.contains_key(m) && !crate::symbols::module_assigned(before, m) {
        &&& after.len() == before.len() + 1
        &&& after.drop_last() == before
        &&& m.contains('.') ==> is_dotted_attribute_assignment(
            after.last(),
            crate::builders::parent_of_dotted(m),
            crate::builders::last_of_dotted(m),
            m,
        )
        &&& !m.contains('.') ==> crate::builders::is_sys_modules_assignment(after.last(), m, m)
    } else {
        after == before
    }
}

/// `bodies` are the bodies as the parent modules `ms` are bound in turn:
/// one more than there are modules, each from the one before by `assign_step`.
pub open spec fn assign_chain(
    registry: Map<Seq<char>, Seq<char>>,
    ms: Seq<Seq<char>>,
    bodies: Seq<Seq<Stmt>>,
) -> bool {
    &&& bodies.len() == ms.len() + 1
    &&& forall|i: int| 0 <= i < ms.len() ==> assign_step(registry, #[trigger] bodies[i], ms[i], bodies[i + 1])
}

/// The namespaces made for the first `n` levels of a dotted name's `parts`:
/// `created` with each level that is bundled, not wrapped and not yet made.
pub open spec fn level_namespaces(
    parts: Seq<Seq<char>>,
    n: int,
    bundled: Seq<Seq<char>>,
    registry: Map<Seq<char>, Seq<char>>,
    created: Seq<Seq<char>>,
) -> Seq<Seq<char>>
    decreases n,
{
    if n <= 0 {
        created
    } else {
        let c = level_namespaces(parts, n - 1, bundled, registry, created);
        let ns = dotted_prefix(parts, n);
        if !registry.contains_key(ns) && bundled.contains(ns) && !c.contains(ns) {
            c.push(ns)
        } else {
            c
        }
    }
}

/// The namespaces made once a link is handled: its parent's levels where
/// the parent is bundled and not wrapped.
pub open spec fn link_namespaces(
    link: (Seq<char>, Seq<char>, Seq<char>),
    bundled: Seq<Seq<char>>,
    registry: Map<Seq<char>, Seq<char>>,
    created: Seq<Seq<char>>,
) -> Seq<Seq<char>> {
    if !registry.contains_key(link.0) && bundled.contains(link.0) {
        let parts = split_on(link.0, '.');
        level_namespaces(parts, parts.len() as int, bundled, registry, created)
    } else {
        created
    }
}

/// The namespaces made once the links are handled in turn.
pub open spec fn links_namespaces(
    links: Seq<(Seq<char>, Seq<char>, Seq<char>)>,
    bundled: Seq<Seq<char>>,
    registry: Map<Seq<char>, Seq<char>>,
) -> Seq<Seq<char>>
    decreases links.len(),
{
    if links.len() == 0 {
        Seq::empty()
    } else {
        link_namespaces(links.last(), bundled, registry, links_namespaces(links.drop_last(), bundled, registry))
    }
}

/// `out` handles the links in turn: for each, the namespaces it makes, then
/// `parent.attr = sys.modules['submodule']`.
pub open spec fn link_statements(
    links: Seq<(Seq<char>, Seq<char>, Seq<char>)>,
    bundled: Seq<Seq<char>>,
    registry: Map<Seq<char>, Seq<char>>,
    out: Seq<Stmt>,
) -> bool
    decreases links.len(),
{
    if links.len() == 0 {
        out.len() == 0
    } else {
        let c = links_namespaces(links.drop_last(), bundled, registry);
        let c2 = links_namespaces(links, bundled, registry);
        let k = c2.len() - c.len();
        let l = links.last();
        &&& k >= 0
        &&& out.len() >= k + 1
        &&& link_statements(links.drop_last(), bundled, registry, out.subrange(0, out.len() - k - 1))
        &&& forall|i: int|
            0 <= i < k ==> is_namespace_module(#[trigger] out[out.len() - k - 1 + i], c2[c.len() + i])
        &&& is_dotted_attribute_assignment(out.last(), l.0, l.1, l.2)
    }
}

proof fn lemma_levels_grow(
    parts: Seq<Seq<char>>,
    n: int,
    bundled: Seq<Seq<char>>,
    registry: Map<Seq<char>, Seq<char>>,
    created: Seq<Seq<char>>,
)
    ensures
        level_namespaces(parts, n, bundled, registry, created).len() >= created.len(),
        level_namespaces(parts, n, bundled, registry, created).subrange(0, created.len() as int) == created,
    decreases n,
{
    if n > 0 {
        lemma_levels_grow(parts, n - 1, bundled, registry, created);
        let c = level_namespaces(parts, n - 1, bundled, registry, created);
        assert(c.push(dotted_prefix(parts, n)).subrange(0, created.len() as int) =~= c.subrange(
            0,
            created.len() as int,
        ));
    }
}

/// `after` is `before` with the submodule attributes of `links`: the
/// parents of the links, sorted, bound in turn (see `assign_run`) giving
/// `bodies`, the last of them `mid`; then the statements of the links, sorted (see `link_statements`).
pub open spec fn attributes_plan(
    registry: Map<Seq<char>, Seq<char>>,
    bundled: Seq<Seq<char>>,
    links: Seq<(Seq<char>, Seq<char>, Seq<char>)>,
    before: Seq<Stmt>,
    after: Seq<Stmt>,
    parents: Seq<Seq<char>>,
    sorted: Seq<(Seq<char>, Seq<char>, Seq<char>)>,
    bodies: Seq<Seq<Stmt>>,
) -> bool {
    let mid = bodies.last();
    &&& sorted_names(parents, false)
    &&& parents.to_multiset() == link_parents(links).to_multiset()
    &&& sorted_links(sorted)
    &&& sorted.to_multiset() == links.to_multiset()
    &&& assign_chain(registry, parents, bodies)
    &&& bodies[0] == before
    &&& after.len() >= mid.len()
    &&& after.subrange(0, mid.len() as int) == mid
    &&& link_statements(sorted, bundled, registry, after.subrange(mid.len() as int, after.len() as int))
}

/// `after` is `before` with the submodule attributes of `links` (see
/// `attributes_plan`; the sorted orders are unique, the bindings follow).
#[verifier::opaque]
pub open spec fn submodule_attributes(
    registry: Map<Seq<char>, Seq<char>>,
    bundled: Seq<Seq<char>>,
    links: Seq<(Seq<char>, Seq<char>, Seq<char>)>,
    before: Seq<Stmt>,
    after: Seq<Stmt>,
) -> bool {
    exists|parents: Seq<Seq<char>>, sorted: Seq<(Seq<char>, Seq<char>, Seq<char>)>, bodies: Seq<Seq<Stmt>>|
        #[trigger] attributes_plan(registry, bundled, links, before, after, parents, sorted, bodies)
}

impl HybridStaticBundler {
    /// The links of the dotted module names among `sorted`, in order.
    fn collect_submodule_links(&self, sorted_modules: &Vec<String>) -> (r: Vec<Link>)
        ensures
            link_views(r@) == submodule_links(views(sorted_modules@), self.bundled(), self.registry()),
    {
        let ghost sorted = views(sorted_modules@);
        let mut links: Vec<Link> = Vec::new();
        let mut i: usize = 0;
        while i < sorted_modules.len()
            invariant
                i <= sorted_modules.len(),
                sorted == views(sorted_modules@),
                link_views(links@) == submodule_links(sorted.subrange(0, i as int), self.bundled(), self.registry()),
            decreases sorted_modules.len() - i,
        {
            let ghost t = sorted.subrange(0, i + 1);
            proof {
                assert(t.drop_last() =~= sorted.subrange(0, i as int));
                assert(t.last() == sorted_modules@[i as int]@);
            }
            let m = sorted_modules[i].as_str();
            if contains_char(m, '.') {
                let parts = split_char(m, '.');
                let ghost ps = views(parts@);
                let ghost base = link_views(links@);
                let mut k: usize = 1;
                proof {
                    lemma_split_nonempty(m@, '.');
                    assert(base + split_links(ps, 1, self.bundled(), self.registry()) =~= base);
                }
                while k < parts.len()
                    invariant
                        1 <= k <= parts.len(),
                        ps == views(parts@),
                        link_views(links@) == base + split_links(ps, k as int, self.bundled(), self.registry()),
                    decreases parts.len() - k,
                {
                    let parent = join_strings(&copy_range(&parts, 0, k), ".");
                    let child = join_strings(&copy_range(&parts, 0, k + 1), ".");
                    proof {
                        reveal_strlit(".");
                    }
                    let keep = self.is_bundled(parent.as_str()) && self.is_bundled(child.as_str())
                        && self.registered_name(child.as_str()).is_some();
                    let ghost before = link_views(links@);
                    if keep {
                        let attr = copy_string(&parts[k]);
                        links.push((parent, attr, child));
                        proof {
                            assert(link_views(links@) =~= before.push(link_view(links@.last())));
                        }
                    }
                    proof {
                        assert(base + split_links(ps, k + 1, self.bundled(), self.registry()) =~= base
                            + split_links(ps, k as int, self.bundled(), self.registry()) + split_link(
                            ps,
                            k as int,
                            self.bundled(),
                            self.registry(),
                        ));
                    }
                    k = k + 1;
                }
            } else {
                proof {
                    assert(link_views(links@) =~= link_views(links@) + Seq::<(Seq<char>, Seq<char>, Seq<char>)>::empty());
                }
            }
            i = i + 1;
        }
        proof {
            assert(sorted.subrange(0, i as int) =~= sorted);
        }
        links
    }

    /// Binds each wrapped submodule of `sorted_modules` as an attribute of its
    /// parent package: the wrapped parents first, bound from `sys.modules` in
    /// order unless already bound; then, for each link in order, the
    /// namespaces its parent needs (where the parent is bundled but not
    /// wrapped), and `parent.attr = sys.modules['submodule']`.
    pub fn generate_submodule_attributes(&self, sorted_modules: &Vec<String>, final_body: &mut Vec<Stmt>)
        ensures
            submodule_attributes(
                self.registry(),
                self.bundled(),
                submodule_links(views(sorted_modules@), self.bundled(), self.registry()),
                old(final_body)@,
                final(final_body)@,
            ),
            final(final_body)@.len() >= old(final_body)@.len(),
            final(final_body)@.subrange(0, old(final_body)@.len() as int) == old(final_body)@,
    {
        let ghost links_v = submodule_links(views(sorted_modules@), self.bundled(), self.registry());
        let links = self.collect_submodule_links(sorted_modules);
        // The parents, each once.
        let mut parents: Vec<String> = Vec::new();
        let mut i: usize = 0;
        while i < links.len()
            invariant
                i <= links.len(),
                link_views(links@) == links_v,
                views(parents@) == link_parents(links_v.subrange(0, i as int)),
            decreases links.len() - i,
        {
            let ghost t = links_v.subrange(0, i + 1);
            proof {
                assert(t.drop_last() =~= links_v.subrange(0, i as int));
                assert(t.last() == link_view(links@[i as int]));
            }
            if !contains_name(&parents, links[i].0.as_str()) {
                let ghost before = views(parents@);
                parents.push(copy_string(&links[i].0));
                proof {
                    assert(views(parents@) =~= before.push(links@[i as int].0@));
                }
            }
            i = i + 1;
        }
        proof {
            assert(links_v.subrange(0, i as int) =~= links_v);
        }
        let parents = sort_names(parents, false);
        let links = sort_links(links);
        let ghost sorted_v = link_views(links@);
        let ghost parents_v = views(parents@);
        // The wrapped parents, bound from `sys.modules`.
        let ghost start = final_body@;
        let ghost mut bodies: Seq<Seq<Stmt>> = seq![start];
        let mut j: usize = 0;
        while j < parents.len()
            invariant
                j <= parents.len(),
                parents_v == views(parents@),
                bodies.len() == j + 1,
                bodies[0] == start,
                bodies.last() == final_body@,
                final_body@.len() >= start.len(),
                final_body@.subrange(0, start.len() as int) == start,
                forall|q: int|
                    0 <= q < j ==> assign_step(self.registry(), #[trigger] bodies[q], parents_v[q], bodies[q + 1]),
            decreases parents.len() - j,
        {
            let ghost t = parents_v.subrange(0, j + 1);
            let ghost mid = final_body@;
            proof {
                assert(t.drop_last() =~= parents_v.subrange(0, j as int));
                assert(t.last() == parents@[j as int]@);
            }
            let module = parents[j].as_str();
            if self.registered_name(module).is_some() && !self.is_module_already_assigned(final_body, module) {
                self.create_module_assignment(final_body, module);
            }
            proof {
                assert(assign_step(self.registry(), mid, t.last(), final_body@));
                assert(final_body@.subrange(0, start.len() as int) =~= mid.subrange(0, start.len() as int));
                let ob = bodies;
                bodies = bodies.push(final_body@);
                assert forall|q: int| 0 <= q < j + 1 implies assign_step(
                    self.registry(),
                    #[trigger] bodies[q],
                    parents_v[q],
                    bodies[q + 1],
                ) by {
                    if q < j {
                        assert(bodies[q] == ob[q]);
                        assert(bodies[q + 1] == ob[q + 1]);
                    } else {
                        assert(bodies[q] == mid);
                    }
                }
            }
            j = j + 1;
        }
        let ghost mid = final_body@;
        // The namespaces and attributes of the links.
        let mut created: IndexSet<String> = index_set_new();
        let mut k: usize = 0;
        proof {
            assert(sorted_v.subrange(0, 0) =~= Seq::<(Seq<char>, Seq<char>, Seq<char>)>::empty());
            assert(final_body@.subrange(mid.len() as int, final_body@.len() as int) =~= Seq::<Stmt>::empty());
        }
        while k < links.len()
            invariant
                k <= links.len(),
                sorted_v == link_views(links@),
                final_body@.len() >= mid.len(),
                final_body@.subrange(0, mid.len() as int) == mid,
                index_set_items(created) == links_namespaces(sorted_v.subrange(0, k as int), self.bundled(), self.registry()),
                link_statements(
                    sorted_v.subrange(0, k as int),
                    self.bundled(),
                    self.registry(),
                    final_body@.subrange(mid.len() as int, final_body@.len() as int),
                ),
            decreases links.len() - k,
        {
            let ghost t = sorted_v.subrange(0, k + 1);
            let ghost l = sorted_v[k as int];
            let ghost c0 = index_set_items(created);
            let ghost body0 = final_body@;
            proof {
                assert(t.drop_last() =~= sorted_v.subrange(0, k as int));
                assert(t.last() == l);
            }
            let parent = links[k].0.as_str();
            proof {
                assert(parent@ == l.0);
                assert(final_body@.subrange(0, body0.len() as int) =~= body0);
            }
            if self.registered_name(parent).is_none() && self.is_bundled(parent) {
                let parts = split_char(parent, '.');
                let ghost ps = views(parts@);
                proof {
                    lemma_split_nonempty(parent@, '.');
                }
                let mut lv: usize = 0;
                while lv < parts.len()
                    invariant
                        lv <= parts.len(),
                        ps == views(parts@),
                        index_set_items(created) == level_namespaces(ps, lv as int, self.bundled(), self.registry(), c0),
                        index_set_items(created).len() >= c0.len(),
                        final_body@.len() == body0.len() + (index_set_items(created).len() - c0.len()),
                        final_body@.subrange(0, body0.len() as int) == body0,
                        forall|q: int|
                            0 <= q < index_set_items(created).len() - c0.len() ==> is_namespace_module(
                                #[trigger] final_body@[body0.len() + q],
                                index_set_items(created)[c0.len() + q],
                            ),
                    decreases parts.len() - lv,
                {
                    let namespace = join_strings(&copy_range(&parts, 0, lv + 1), ".");
                    proof {
                        reveal_strlit(".");
                    }
                    let ghost cb = index_set_items(created);
                    if self.registered_name(namespace.as_str()).is_none() && self.is_bundled(namespace.as_str())
                        && !index_set_contains(&created, namespace.as_str()) {
                        let ghost fb = final_body@;
                        final_body.push(self.create_namespace_module(namespace.as_str()));
                        let _ = index_set_insert(&mut created, namespace);
                        proof {
                            assert(index_set_items(created) == cb.push(dotted_prefix(ps, lv + 1)));
                            assert forall|q: int|
                                0 <= q < index_set_items(created).len() - c0.len() implies is_namespace_module(
                                #[trigger] final_body@[body0.len() + q],
                                index_set_items(created)[c0.len() + q],
                            ) by {
                                if q < cb.len() - c0.len() {
                                    assert(final_body@[body0.len() + q] == fb[body0.len() + q]);
                                    assert(index_set_items(created)[c0.len() + q] == cb[c0.len() + q]);
                                }
                            }
                            assert(final_body@.subrange(0, body0.len() as int) =~= fb.subrange(0, body0.len() as int));
                        }
                    }
                    lv = lv + 1;
                }
            }
            let ghost c2 = index_set_items(created);
            let ghost fb = final_body@;
            proof {
                assert(c2 == link_namespaces(l, self.bundled(), self.registry(), c0));
                assert(c2 == links_namespaces(t, self.bundled(), self.registry()));
                assert(fb.len() == body0.len() + (c2.len() - c0.len()));
                assert(fb.subrange(0, body0.len() as int) == body0);
            }
            final_body.push(self.create_dotted_attribute_assignment(parent, links[k].1.as_str(), links[k].2.as_str()));
            proof {
                let out = final_body@.subrange(mid.len() as int, final_body@.len() as int);
                let kk = c2.len() - c0.len();
                assert(body0.subrange(0, mid.len() as int) == mid);
                assert(out.subrange(0, out.len() - kk - 1) =~= body0.subrange(mid.len() as int, body0.len() as int)) by {
                    assert forall|q: int| 0 <= q < body0.len() - mid.len() implies #[trigger] out[q] == body0[mid.len() + q] by {
                        assert(out[q] == final_body@[mid.len() + q]);
                        assert(final_body@[mid.len() + q] == fb[mid.len() + q]);
                        assert(fb[mid.len() + q] == fb.subrange(0, body0.len() as int)[mid.len() + q]);
                    }
                }
                assert forall|q: int| 0 <= q < kk implies is_namespace_module(
                    #[trigger] out[out.len() - kk - 1 + q],
                    c2[c0.len() + q],
                ) by {
                    assert(out[out.len() - kk - 1 + q] == fb[body0.len() + q]);
                }
                assert(out.last() == final_body@.last());
                assert(final_body@.subrange(0, mid.len() as int) =~= mid) by {
                    assert forall|q: int| 0 <= q < mid.len() implies #[trigger] final_body@[q] == mid[q] by {
                        assert(final_body@[q] == fb[q]);
                        assert(fb[q] == fb.subrange(0, body0.len() as int)[q]);
                        assert(body0[q] == body0.subrange(0, mid.len() as int)[q]);
                    }
                }
            }
            k = k + 1;
        }
        proof {
            reveal(submodule_attributes);
            assert(final_body@.subrange(0, start.len() as int) =~= mid.subrange(0, start.len() as int));
            assert(sorted_v.subrange(0, k as int) =~= sorted_v);
            assert(attributes_plan(
                self.registry(),
                self.bundled(),
                links_v,
                start,
                final_body@,
                parents_v,
                sorted_v,
                bodies,
            ));
        }
    }
}

} // verus!
