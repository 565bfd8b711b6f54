use vstd::prelude::*;

verus! {

// ---------------------------------------------------------------------------
// Specifications over character sequences
// ---------------------------------------------------------------------------

/// The pieces of `s` between occurrences of `sep` (as `str::split` returns them).
pub open spec fn split_on(s: Seq<char>, sep: char) -> Seq<Seq<char>>
    decreases s.len(),
{
    if s.len() == 0 {
        seq![Seq::<char>::empty()]
    } else {
        let p = split_on(s.drop_last(), sep);
        if s.last() == sep {
            p.push(Seq::<char>::empty())
        } else {
            p.update(p.len() - 1, p.last().push(s.last()))
        }
    }
}

/// The pieces joined by `sep` (as `[String]::join` builds them).
pub open spec fn join_with(parts: Seq<Seq<char>>, sep: Seq<char>) -> Seq<char>
    decreases parts.len(),
{
    if parts.len() == 0 {
        Seq::<char>::empty()
    } else if parts.len() == 1 {
        parts[0]
    } else {
        join_with(parts.drop_last(), sep) + sep + parts.last()
    }
}

/// `prefix` is a prefix of `s`.
pub open spec fn has_prefix(s: Seq<char>, prefix: Seq<char>) -> bool {
    prefix.len() <= s.len() && s.subrange(0, prefix.len() as int) == prefix
}

/// `suffix` is a suffix of `s`.
pub open spec fn has_suffix(s: Seq<char>, suffix: Seq<char>) -> bool {
    suffix.len() <= s.len() && s.subrange(s.len() - suffix.len(), s.len() as int) == suffix
}

/// The number of occurrences of `c` in `s`.
pub open spec fn count_char(s: Seq<char>, c: char) -> nat
    decreases s.len(),
{
    if s.len() == 0 {
        0
    } else {
        count_char(s.drop_last(), c) + if s.last() == c { 1nat } else { 0nat }
    }
}

/// `s` with every occurrence of `c` replaced by `by`.
pub open spec fn replace_char(s: Seq<char>, c: char, by: Seq<char>) -> Seq<char>
    decreases s.len(),
{
    if s.len() == 0 {
        Seq::<char>::empty()
    } else {
        replace_char(s.drop_last(), c, by) + if s.last() == c { by } else { seq![s.last()] }
    }
}

/// The views of a sequence of strings.
pub open spec fn views(v: Seq<String>) -> Seq<Seq<char>> {
    v.map_values(|s: String| s@)
}

/// The set of names held by a vector of strings.
pub open spec fn name_set(v: Seq<String>) -> Set<Seq<char>> {
    views(v).to_set()
}

/// No name occurs twice.
pub open spec fn distinct_names(v: Seq<String>) -> bool {
    forall|i: int, j: int| 0 <= i < v.len() && 0 <= j < v.len() && i != j ==> v[i]@ != v[j]@
}

/// The decimal digit `d` (for `d < 10`).
pub open spec fn digit_char(d: nat) -> char {
    "0123456789"@[d as int]
}

/// The decimal representation of `n`, as `format!("{}", n)` writes it.
pub open spec fn decimal(n: nat) -> Seq<char>
    decreases n,
{
    if n < 10 {
        seq![digit_char(n)]
    } else {
        decimal(n / 10).push(digit_char(n % 10))
    }
}

// ---------------------------------------------------------------------------
// Executable helpers
// ---------------------------------------------------------------------------

/// Two string slices hold the same characters.
pub fn str_eq(a: &str, b: &str) -> (r: bool)
    ensures
        r == (a@ == b@),
{
    a.to_owned() == b.to_owned()
}

/// Copy of a string slice.
pub fn to_string(s: &str) -> (r: String)
    ensures
        r@ == s@,
{
    s.to_owned()
}

/// Copy of a string.
pub fn copy_string(s: &String) -> (r: String)
    ensures
        r@ == s@,
{
    s.clone()
}

/// `c` occurs in `s`.
pub fn contains_char(s: &str, c: char) -> (r: bool)
    ensures
        r == s@.contains(c),
{
    let n = s.unicode_len();
    let mut i: usize = 0;
    while i < n
        invariant
            n == s@.len(),
            i <= n,
            forall|j: int| 0 <= j < i ==> s@[j] != c,
        decreases n - i,
    {
        if s.get_char(i) == c {
            return true;
        }
        i += 1;
    }
    false
}

/// Number of occurrences of `c` in `s`.
pub fn count_occurrences(s: &str, c: char) -> (r: usize)
    ensures
        r == count_char(s@, c),
{
    let n = s.unicode_len();
    let mut i: usize = 0;
    let mut k: usize = 0;
    while i < n
        invariant
            n == s@.len(),
            i <= n,
            k == count_char(s@.subrange(0, i as int), c),
            k <= i,
        decreases n - i,
    {
        proof {
            assert(s@.subrange(0, i + 1).drop_last() =~= s@.subrange(0, i as int));
        }
        if s.get_char(i) == c {
            k += 1;
        }
        i += 1;
    }
    proof {
        assert(s@.subrange(0, n as int) =~= s@);
    }
    k
}

/// `prefix` is a prefix of `s`.
pub fn starts_with(s: &str, prefix: &str) -> (r: bool)
    ensures
        r == has_prefix(s@, prefix@),
{
    let n = s.unicode_len();
    let m = prefix.unicode_len();
    if m > n {
        return false;
    }
    let head = s.substring_char(0, m);
    str_eq(head, prefix)
}

/// `suffix` is a suffix of `s`.
pub fn ends_with(s: &str, suffix: &str) -> (r: bool)
    ensures
        r == has_suffix(s@, suffix@),
{
    let n = s.unicode_len();
    let m = suffix.unicode_len();
    if m > n {
        return false;
    }
    let tail = s.substring_char(n - m, n);
    str_eq(tail, suffix)
}

pub proof fn lemma_split_nonempty(s: Seq<char>, sep: char)
    ensures
        split_on(s, sep).len() >= 1,
    decreases s.len(),
{
    if s.len() > 0 {
        lemma_split_nonempty(s.drop_last(), sep);
    }
}

/// The pieces of `s` between occurrences of `sep`.
pub fn split_char(s: &str, sep: char) -> (r: Vec<String>)
    ensures
        views(r@) == split_on(s@, sep),
{
    let n = s.unicode_len();
    let mut parts: Vec<String> = Vec::new();
    let mut start: usize = 0;
    let mut i: usize = 0;
    proof {
        assert(s@.subrange(0, 0) =~= Seq::<char>::empty());
        assert(views(parts@) =~= Seq::<Seq<char>>::empty());
        assert(views(parts@).push(s@.subrange(0, 0)) =~= seq![Seq::<char>::empty()]);
    }
    while i < n
        invariant
            n == s@.len(),
            start <= i <= n,
            views(parts@).push(s@.subrange(start as int, i as int)) == split_on(
                s@.subrange(0, i as int),
                sep,
            ),
        decreases n - i,
    {
        proof {
            let t = s@.subrange(0, i + 1);
            assert(t.drop_last() =~= s@.subrange(0, i as int));
            assert(t.last() == s@[i as int]);
            lemma_split_nonempty(s@.subrange(0, i as int), sep);
        }
        if s.get_char(i) == sep {
            let piece = s.substring_char(start, i).to_owned();
            let ghost old_parts = parts@;
            parts.push(piece);
            proof {
                assert(views(parts@) =~= views(old_parts).push(s@.subrange(start as int, i as int)));
                assert(s@.subrange((i + 1) as int, (i + 1) as int) =~= Seq::<char>::empty());
            }
            start = i + 1;
        } else {
            proof {
                let p = views(parts@).push(s@.subrange(start as int, i as int));
                assert(s@.subrange(start as int, i + 1) =~= s@.subrange(start as int, i as int).push(
                    s@[i as int],
                ));
                assert(views(parts@).push(s@.subrange(start as int, i + 1)) =~= p.update(
                    p.len() - 1,
                    p.last().push(s@[i as int]),
                ));
            }
        }
        i += 1;
    }
    let last = s.substring_char(start, n).to_owned();
    let ghost old_parts = parts@;
    parts.push(last);
    proof {
        assert(views(parts@) =~= views(old_parts).push(s@.subrange(start as int, n as int)));
        assert(s@.subrange(0, n as int) =~= s@);
    }
    parts
}

/// The strings of `parts` joined by `sep`.
pub fn join_strings(parts: &Vec<String>, sep: &str) -> (r: String)
    ensures
        r@ == join_with(views(parts@), sep@),
{
    let mut res = String::new();
    let mut i: usize = 0;
    while i < parts.len()
        invariant
            i <= parts.len(),
            res@ == join_with(views(parts@).subrange(0, i as int), sep@),
        decreases parts.len() - i,
    {
        proof {
            let t = views(parts@).subrange(0, i + 1);
            assert(t.drop_last() =~= views(parts@).subrange(0, i as int));
            assert(t.last() == parts@[i as int]@);
            if i == 0 {
                assert(t =~= seq![parts@[0]@]);
            }
        }
        if i == 0 {
            res = parts[i].clone();
        } else {
            res.append(sep);
            res.append(parts[i].as_str());
        }
        i += 1;
    }
    proof {
        assert(views(parts@).subrange(0, parts@.len() as int) =~= views(parts@));
    }
    res
}

/// `s` with every occurrence of `c` replaced by `by`.
pub fn replace_all(s: &str, c: char, by: &str) -> (r: String)
    ensures
        r@ == replace_char(s@, c, by@),
{
    let n = s.unicode_len();
    let mut res = String::new();
    let mut i: usize = 0;
    while i < n
        invariant
            n == s@.len(),
            i <= n,
            res@ == replace_char(s@.subrange(0, i as int), c, by@),
        decreases n - i,
    {
        proof {
            let t = s@.subrange(0, i + 1);
            assert(t.drop_last() =~= s@.subrange(0, i as int));
            assert(t.last() == s@[i as int]);
        }
        if s.get_char(i) == c {
            res.append(by);
        } else {
            let one = s.substring_char(i, i + 1);
            proof {
                assert(one@ =~= seq![s@[i as int]]);
            }
            res.append(one);
        }
        i += 1;
    }
    proof {
        assert(s@.subrange(0, n as int) =~= s@);
    }
    res
}

/// The decimal representation of `n`.
pub fn usize_to_decimal(n: usize) -> (r: String)
    ensures
        r@ == decimal(n as nat),
    decreases n,
{
    let digits = "0123456789";
    proof {
        reveal_strlit("0123456789");
    }
    if n < 10 {
        let d = digits.substring_char(n, n + 1);
        proof {
            assert(d@ =~= seq![digit_char(n as nat)]);
        }
        d.to_owned()
    } else {
        let mut s = usize_to_decimal(n / 10);
        let m = n % 10;
        let d = digits.substring_char(m, m + 1);
        proof {
            assert(d@ =~= seq![digit_char((n % 10) as nat)]);
        }
        s.append(d);
        proof {
            assert(s@ =~= decimal(n as nat));
        }
        s
    }
}

/// An empty name set.
pub fn empty_names() -> (v: Vec<String>)
    ensures
        v@.len() == 0,
        name_set(v@) == Set::<Seq<char>>::empty(),
        views(v@) == Seq::<Seq<char>>::empty(),
        distinct_names(v@),
{
    let v: Vec<String> = Vec::new();
    proof {
        assert(views(v@) =~= Seq::<Seq<char>>::empty());
        assert(name_set(v@) =~= Set::<Seq<char>>::empty());
    }
    v
}

/// The name set holding `name` only.
pub fn single_name(name: String) -> (v: Vec<String>)
    ensures
        name_set(v@) == set![name@],
        views(v@) == seq![name@],
        distinct_names(v@),
{
    let mut v = empty_names();
    insert_name(&mut v, name);
    proof {
        assert(name_set(v@) =~= set![name@]);
        assert(views(v@) =~= seq![name@]);
    }
    v
}

/// `names` without repetitions, as a name set in first-occurrence order.
pub fn names_to_set(names: &Vec<String>) -> (v: Vec<String>)
    ensures
        name_set(v@) == name_set(names@),
        distinct_names(v@),
{
    let mut v = empty_names();
    extend_names(&mut v, names);
    proof {
        assert(name_set(v@) =~= name_set(names@));
    }
    v
}

/// `name` is held by `v`.
pub fn contains_name(v: &Vec<String>, name: &str) -> (r: bool)
    ensures
        r == name_set(v@).contains(name@),
{
    let mut i: usize = 0;
    while i < v.len()
        invariant
            i <= v.len(),
            forall|j: int| 0 <= j < i ==> v@[j]@ != name@,
        decreases v.len() - i,
    {
        if str_eq(v[i].as_str(), name) {
            proof {
                assert(views(v@)[i as int] == name@);
            }
            return true;
        }
        i += 1;
    }
    proof {
        if name_set(v@).contains(name@) {
            let k = choose|k: int| 0 <= k < views(v@).len() && views(v@)[k] == name@;
            assert(v@[k]@ == name@);
        }
    }
    false
}

/// Adds `name` to the name set `v` unless it is already there.
pub fn insert_name(v: &mut Vec<String>, name: String)
    ensures
        name_set(final(v)@) == name_set(old(v)@).insert(name@),
        distinct_names(old(v)@) ==> distinct_names(final(v)@),
        name_set(old(v)@).contains(name@) ==> final(v)@ == old(v)@,
        !name_set(old(v)@).contains(name@) ==> final(v)@ == old(v)@.push(name),
{
    if contains_name(v, name.as_str()) {
        proof {
            assert(name_set(old(v)@).insert(name@) =~= name_set(old(v)@));
        }
        return;
    }
    let ghost old_v = v@;
    v.push(name);
    proof {
        assert(views(v@) =~= views(old_v).push(name@));
        assert(name_set(v@) =~= name_set(old_v).insert(name@)) by {
            assert forall|x: Seq<char>| name_set(v@).contains(x) implies name_set(old_v).insert(
                x,
            ).contains(x) || x == name@ by {}
            assert forall|x: Seq<char>| #[trigger] name_set(old_v).insert(name@).contains(x)
                implies name_set(v@).contains(x) by {
                if x == name@ {
                    assert(views(v@)[old_v.len() as int] == name@);
                } else {
                    let k = choose|k: int| 0 <= k < views(old_v).len() && views(old_v)[k] == x;
                    assert(views(v@)[k] == x);
                }
            }
            assert forall|x: Seq<char>| #[trigger] name_set(v@).contains(x) implies name_set(
                old_v,
            ).insert(name@).contains(x) by {
                let k = choose|k: int| 0 <= k < views(v@).len() && views(v@)[k] == x;
                if k < old_v.len() {
                    assert(views(old_v)[k] == x);
                }
            }
        }
        assert forall|j: int| 0 <= j < old_v.len() implies old_v[j]@ != name@ by {
            if old_v[j]@ == name@ {
                assert(views(old_v)[j] == name@);
            }
        }
    }
}

/// Adds every name of `names` to the name set `v`.
pub fn extend_names(v: &mut Vec<String>, names: &Vec<String>)
    ensures
        name_set(final(v)@) == name_set(old(v)@) + name_set(names@),
        distinct_names(old(v)@) ==> distinct_names(final(v)@),
{
    let mut i: usize = 0;
    while i < names.len()
        invariant
            i <= names.len(),
            name_set(v@) == name_set(old(v)@) + name_set(names@.subrange(0, i as int)),
            distinct_names(old(v)@) ==> distinct_names(v@),
        decreases names.len() - i,
    {
        let ghost before = v@;
        insert_name(v, names[i].clone());
        proof {
            let s0 = names@.subrange(0, i as int);
            let s1 = names@.subrange(0, i + 1);
            assert(views(s1) =~= views(s0).push(names@[i as int]@));
            assert(name_set(s1) =~= name_set(s0).insert(names@[i as int]@)) by {
                assert forall|x: Seq<char>| #[trigger] name_set(s1).contains(x) implies name_set(
                    s0,
                ).insert(names@[i as int]@).contains(x) by {
                    let k = choose|k: int| 0 <= k < views(s1).len() && views(s1)[k] == x;
                    if k < i {
                        assert(views(s0)[k] == x);
                    }
                }
                assert forall|x: Seq<char>| #[trigger] name_set(s0).insert(
                    names@[i as int]@,
                ).contains(x) implies name_set(s1).contains(x) by {
                    if x == names@[i as int]@ {
                        assert(views(s1)[i as int] == x);
                    } else {
                        let k = choose|k: int| 0 <= k < views(s0).len() && views(s0)[k] == x;
                        assert(views(s1)[k] == x);
                    }
                }
            }
            assert(name_set(v@) =~= name_set(old(v)@) + name_set(s1));
        }
        i += 1;
    }
    proof {
        assert(names@.subrange(0, names@.len() as int) =~= names@);
    }
}


/// Copies of the strings `v[lo..hi]`.
pub fn copy_range(v: &Vec<String>, lo: usize, hi: usize) -> (r: Vec<String>)
    requires
        lo <= hi <= v@.len(),
    ensures
        views(r@) == views(v@).subrange(lo as int, hi as int),
{
    let mut r: Vec<String> = Vec::new();
    let mut k: usize = lo;
    while k < hi
        invariant
            lo <= k <= hi,
            hi <= v@.len(),
            views(r@) == views(v@).subrange(lo as int, k as int),
        decreases hi - k,
    {
        let ghost before = views(r@);
        r.push(copy_string(&v[k]));
        proof {
            assert(views(r@) =~= before.push(v@[k as int]@));
            assert(views(r@) =~= views(v@).subrange(lo as int, k + 1));
        }
        k += 1;
    }
    r
}

} // verus!
