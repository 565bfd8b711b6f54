//! The order on names: code-point lexicographic (as `str` compares), and the
//! order the bundler gives modules of a cycle (deeper first, then by name).
use vstd::prelude::*;

use crate::text::{count_char, count_occurrences, views};

verus! {

/// `a` comes strictly before `b` in code-point lexicographic order.
pub open spec fn lex_lt(a: Seq<char>, b: Seq<char>) -> bool
    decreases a.len(),
{
    if a.len() == 0 {
        b.len() > 0
    } else if b.len() == 0 {
        false
    } else if a[0] != b[0] {
        (a[0] as int) < (b[0] as int)
    } else {
        lex_lt(a.drop_first(), b.drop_first())
    }
}

/// The order of names: plain lexicographic, or (`by_depth`) more dots first,
/// then lexicographic.
pub open spec fn name_before(a: Seq<char>, b: Seq<char>, by_depth: bool) -> bool {
    if by_depth {
        count_char(a, '.') > count_char(b, '.') || (count_char(a, '.') == count_char(b, '.')
            && lex_lt(a, b))
    } else {
        lex_lt(a, b)
    }
}

/// No name comes before an earlier one.
pub open spec fn sorted_names(s: Seq<Seq<char>>, by_depth: bool) -> bool {
    forall|i: int, j: int| 0 <= i < j < s.len() ==> !name_before(s[j], s[i], by_depth)
}

pub proof fn lemma_lex_irreflexive(a: Seq<char>)
    ensures
        !lex_lt(a, a),
    decreases a.len(),
{
    if a.len() > 0 {
        lemma_lex_irreflexive(a.drop_first());
    }
}

pub proof fn lemma_lex_transitive(a: Seq<char>, b: Seq<char>, c: Seq<char>)
    requires
        lex_lt(a, b),
        lex_lt(b, c),
    ensures
        lex_lt(a, c),
    decreases a.len(),
{
    if a.len() > 0 && b.len() > 0 && c.len() > 0 {
        if a[0] == b[0] && b[0] == c[0] {
            lemma_lex_transitive(a.drop_first(), b.drop_first(), c.drop_first());
        }
    }
}

pub proof fn lemma_lex_total(a: Seq<char>, b: Seq<char>)
    ensures
        a == b || lex_lt(a, b) || lex_lt(b, a),
    decreases a.len(),
{
    if a.len() > 0 && b.len() > 0 {
        if a[0] == b[0] {
            lemma_lex_total(a.drop_first(), b.drop_first());
            if a.drop_first() == b.drop_first() {
                assert(a =~= seq![a[0]] + a.drop_first());
                assert(b =~= seq![b[0]] + b.drop_first());
            }
        } else {
            assert((a[0] as int) != (b[0] as int));
        }
    } else if a.len() == 0 && b.len() == 0 {
        assert(a =~= b);
    }
}

pub proof fn lemma_before_irreflexive(a: Seq<char>, by_depth: bool)
    ensures
        !name_before(a, a, by_depth),
{
    lemma_lex_irreflexive(a);
}

pub proof fn lemma_before_transitive(a: Seq<char>, b: Seq<char>, c: Seq<char>, by_depth: bool)
    requires
        name_before(a, b, by_depth),
        name_before(b, c, by_depth),
    ensures
        name_before(a, c, by_depth),
{
    if by_depth {
        if count_char(a, '.') == count_char(b, '.') && count_char(b, '.') == count_char(c, '.') {
            lemma_lex_transitive(a, b, c);
        }
    } else {
        lemma_lex_transitive(a, b, c);
    }
}

pub proof fn lemma_before_total(a: Seq<char>, b: Seq<char>, by_depth: bool)
    ensures
        a == b || name_before(a, b, by_depth) || name_before(b, a, by_depth),
{
    lemma_lex_total(a, b);
}

/// `a` comes strictly before `b` in code-point lexicographic order.
pub fn str_less(a: &str, b: &str) -> (r: bool)
    ensures
        r == lex_lt(a@, b@),
{
    let n = a.unicode_len();
    let m = b.unicode_len();
    let mut i: usize = 0;
    proof {
        assert(a@.skip(0) =~= a@);
        assert(b@.skip(0) =~= b@);
    }
    while i < n && i < m
        invariant
            n == a@.len(),
            m == b@.len(),
            i <= n,
            i <= m,
            lex_lt(a@, b@) == lex_lt(a@.skip(i as int), b@.skip(i as int)),
        decreases n - i,
    {
        let ca = a.get_char(i);
        let cb = b.get_char(i);
        proof {
            assert(a@.skip(i as int)[0] == ca);
            assert(b@.skip(i as int)[0] == cb);
            assert(a@.skip(i as int).drop_first() =~= a@.skip(i + 1));
            assert(b@.skip(i as int).drop_first() =~= b@.skip(i + 1));
        }
        if ca != cb {
            return (ca as u32) < (cb as u32);
        }
        i += 1;
    }
    proof {
        assert(a@.skip(i as int).len() == n - i);
        assert(b@.skip(i as int).len() == m - i);
    }
    i == n && i < m
}

/// `a` comes before `b` in the order of names.
pub fn names_before(a: &str, b: &str, by_depth: bool) -> (r: bool)
    ensures
        r == name_before(a@, b@, by_depth),
{
    if by_depth {
        let da = count_occurrences(a, '.');
        let db = count_occurrences(b, '.');
        da > db || (da == db && str_less(a, b))
    } else {
        str_less(a, b)
    }
}

/// The names in order; the result holds the same names, as many times each.
pub fn sort_names(v: Vec<String>, by_depth: bool) -> (r: Vec<String>)
    ensures
        sorted_names(views(r@), by_depth),
        views(r@).to_multiset() == views(v@).to_multiset(),
{
    let mut r: Vec<String> = Vec::new();
    let mut k: usize = 0;
    proof {
        broadcast use vstd::seq_lib::group_to_multiset_ensures;
        assert(views(r@) =~= Seq::<Seq<char>>::empty());
        assert(views(v@).subrange(0, 0) =~= Seq::<Seq<char>>::empty());
    }
    while k < v.len()
        invariant
            k <= v.len(),
            sorted_names(views(r@), by_depth),
            views(r@).to_multiset() == views(v@).subrange(0, k as int).to_multiset(),
        decreases v.len() - k,
    {
        let x = v[k].clone();
        let mut p: usize = 0;
        while p < r.len() && !names_before(x.as_str(), r[p].as_str(), by_depth)
            invariant
                p <= r.len(),
                forall|i: int| 0 <= i < p ==> !name_before(x@, #[trigger] r@[i]@, by_depth),
            decreases r.len() - p,
        {
            p += 1;
        }
        let ghost old_r = views(r@);
        r.insert(p, x);
        proof {
            broadcast use vstd::seq_lib::group_to_multiset_ensures;
            let nr = views(r@);
            assert(nr =~= old_r.insert(p as int, x@));
            assert forall|i: int, j: int| 0 <= i < j < nr.len() implies !name_before(
                nr[j],
                nr[i],
                by_depth,
            ) by {
                if j == p {
                    assert(nr[i] == old_r[i]);
                    lemma_before_total(x@, old_r[i], by_depth);
                    if name_before(x@, old_r[i], by_depth) {
                        assert(!name_before(x@, r@[i]@, by_depth));
                    }
                } else if i == p {
                    assert(nr[j] == old_r[j - 1]);
                    if name_before(old_r[j - 1], x@, by_depth) {
                        if p < old_r.len() {
                            assert(name_before(x@, old_r[p as int], by_depth));
                            lemma_before_transitive(old_r[j - 1], x@, old_r[p as int], by_depth);
                            if j - 1 > p {
                                assert(!name_before(old_r[j - 1], old_r[p as int], by_depth));
                            } else {
                                lemma_before_irreflexive(old_r[p as int], by_depth);
                            }
                        }
                    }
                } else {
                    let oi = if i < p { i } else { i - 1 };
                    let oj = if j < p { j } else { j - 1 };
                    assert(nr[i] == old_r[oi]);
                    assert(nr[j] == old_r[oj]);
                }
            }
            assert(nr.remove(p as int) =~= old_r);
            assert(nr[p as int] == x@);
            assert(nr.to_multiset().count(x@) > 0);
            assert(nr.to_multiset() =~= old_r.to_multiset().insert(x@));
            assert(views(v@).subrange(0, k + 1) =~= views(v@).subrange(0, k as int).push(
                v@[k as int]@,
            ));
        }
        k += 1;
    }
    proof {
        assert(views(v@).subrange(0, v@.len() as int) =~= views(v@));
    }
    r
}

} // verus!
