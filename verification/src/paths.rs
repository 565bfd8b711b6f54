//! File-system paths as the bundler reads them: sequences of components.
use vstd::prelude::*;

use crate::text::{copy_range, copy_string, split_char, split_on, str_eq, to_string, views};

verus! {

/// A segment between separators counts as a component unless empty or `.`.
pub open spec fn kept_segment(s: Seq<char>) -> bool {
    s.len() > 0 && s != "."@
}

pub open spec fn kept_segments(segs: Seq<Seq<char>>) -> Seq<Seq<char>>
    decreases segs.len(),
{
    if segs.len() == 0 {
        Seq::empty()
    } else {
        kept_segments(segs.drop_last()) + if kept_segment(segs.last()) {
            seq![segs.last()]
        } else {
            Seq::empty()
        }
    }
}

/// The path starts with a `.` segment (`.` alone, or `./...`).
pub open spec fn starts_at_current_dir(p: Seq<char>) -> bool {
    p.len() > 0 && p[0] == '.' && (p.len() == 1 || p[1] == '/')
}

/// The components of a path: `/` for the root of an absolute path, or `.` for
/// a leading current-directory segment, then its non-empty segments other
/// than `.`.
pub open spec fn path_components(p: Seq<char>) -> Seq<Seq<char>> {
    if p.len() > 0 && p[0] == '/' {
        seq!["/"@] + kept_segments(split_on(p, '/'))
    } else if starts_at_current_dir(p) {
        seq!["."@] + kept_segments(split_on(p, '/'))
    } else {
        kept_segments(split_on(p, '/'))
    }
}

/// `rel` appended to `base`, as `Path::join` builds it: an absolute `rel`
/// replaces `base`, and a leading `.` of `rel` is dropped.
pub open spec fn join_components(base: Seq<Seq<char>>, rel: Seq<Seq<char>>) -> Seq<Seq<char>> {
    if is_absolute(rel) {
        rel
    } else if rel.len() > 0 && rel[0] == "."@ {
        base + rel.drop_first()
    } else {
        base + rel
    }
}

/// The path is absolute.
pub open spec fn is_absolute(c: Seq<Seq<char>>) -> bool {
    c.len() > 0 && c[0] == "/"@
}

/// What is left of `path` after the leading components `base`, if it starts with them.
pub open spec fn strip_components(path: Seq<Seq<char>>, base: Seq<Seq<char>>) -> Option<
    Seq<Seq<char>>,
> {
    if base.len() <= path.len() && path.subrange(0, base.len() as int) == base {
        Some(path.subrange(base.len() as int, path.len() as int))
    } else {
        None
    }
}

/// The parent of a path: all but its last component; none for the root or an empty path.
pub open spec fn parent_components(c: Seq<Seq<char>>) -> Option<Seq<Seq<char>>> {
    if c.len() == 0 || (c.len() == 1 && c[0] == "/"@) {
        None
    } else {
        Some(c.drop_last())
    }
}

/// The position of the last `ch` in `s`, or -1.
pub open spec fn last_index_of(s: Seq<char>, ch: char) -> int
    decreases s.len(),
{
    if s.len() == 0 {
        -1
    } else if s.last() == ch {
        s.len() - 1
    } else {
        last_index_of(s.drop_last(), ch)
    }
}

/// The stem of a file name: up to its last dot, unless that dot leads the name.
pub open spec fn stem_of(name: Seq<char>) -> Seq<char> {
    let k = last_index_of(name, '.');
    if k > 0 {
        name.subrange(0, k)
    } else {
        name
    }
}

/// The stem of the file a path names, if it names one.
pub open spec fn file_stem(c: Seq<Seq<char>>) -> Option<Seq<char>> {
    if c.len() == 0 || c.last() == "/"@ || c.last() == ".."@ || c.last() == "."@ {
        None
    } else {
        Some(stem_of(c.last()))
    }
}

/// The components of a path.
pub fn components(p: &str) -> (r: Vec<String>)
    ensures
        views(r@) == path_components(p@),
{
    let segs = split_char(p, '/');
    let mut r: Vec<String> = Vec::new();
    let n = p.unicode_len();
    let absolute = n > 0 && p.get_char(0) == '/';
    let current = !absolute && n > 0 && p.get_char(0) == '.' && (n == 1 || p.get_char(1) == '/');
    if absolute {
        r.push(to_string("/"));
    } else if current {
        r.push(to_string("."));
    }
    let ghost start = views(r@);
    let mut i: usize = 0;
    proof {
        reveal_strlit("/");
        reveal_strlit(".");
        assert(views(segs@).subrange(0, 0) =~= Seq::<Seq<char>>::empty());
        assert(views(r@) =~= start + kept_segments(views(segs@).subrange(0, 0)));
    }
    while i < segs.len()
        invariant
            i <= segs.len(),
            views(r@) == start + kept_segments(views(segs@).subrange(0, i as int)),
        decreases segs.len() - i,
    {
        let ghost before = views(r@);
        let seg = &segs[i];
        let keep = seg.unicode_len() > 0 && !str_eq(seg.as_str(), ".");
        if keep {
            r.push(copy_string(seg));
        }
        proof {
            let s = views(segs@).subrange(0, i + 1);
            assert(s.drop_last() =~= views(segs@).subrange(0, i as int));
            assert(s.last() == seg@);
            assert(keep == kept_segment(seg@));
            if keep {
                assert(views(r@) =~= before.push(seg@));
            } else {
                assert(views(r@) =~= before);
            }
            assert(views(r@) =~= start + kept_segments(s));
        }
        i += 1;
    }
    proof {
        assert(views(segs@).subrange(0, segs@.len() as int) =~= views(segs@));
        if absolute {
            assert(start =~= seq!["/"@]);
        } else if current {
            assert(start =~= seq!["."@]);
        } else {
            assert(start =~= Seq::<Seq<char>>::empty());
        }
        assert(views(r@) =~= path_components(p@));
    }
    r
}

/// The components left after the leading components `base`, if the path starts with them.
pub fn strip_prefix(path: &Vec<String>, base: &Vec<String>) -> (r: Option<Vec<String>>)
    ensures
        r matches Some(v) ==> strip_components(views(path@), views(base@)) == Some(views(v@)),
        r is None ==> strip_components(views(path@), views(base@)) is None,
{
    if base.len() > path.len() {
        return None;
    }
    let mut i: usize = 0;
    while i < base.len()
        invariant
            i <= base.len(),
            base.len() <= path.len(),
            forall|j: int| 0 <= j < i ==> path@[j]@ == base@[j]@,
        decreases base.len() - i,
    {
        if !str_eq(path[i].as_str(), base[i].as_str()) {
            proof {
                assert(views(path@).subrange(0, base@.len() as int)[i as int] != views(base@)[i as int]);
            }
            return None;
        }
        i += 1;
    }
    let mut rest: Vec<String> = Vec::new();
    let mut k: usize = base.len();
    while k < path.len()
        invariant
            base.len() <= k <= path.len(),
            views(rest@) == views(path@).subrange(base@.len() as int, k as int),
        decreases path.len() - k,
    {
        let ghost before = views(rest@);
        rest.push(copy_string(&path[k]));
        proof {
            assert(views(rest@) =~= before.push(path@[k as int]@));
            assert(views(rest@) =~= views(path@).subrange(base@.len() as int, k + 1));
        }
        k += 1;
    }
    proof {
        assert(views(path@).subrange(0, base@.len() as int) =~= views(base@));
    }
    Some(rest)
}

/// The position of the last `ch` in `s`, if any.
fn last_index(s: &str, ch: char) -> (r: Option<usize>)
    ensures
        r matches Some(k) ==> k as int == last_index_of(s@, ch) && k < s@.len(),
        r is None ==> last_index_of(s@, ch) == -1,
{
    let n = s.unicode_len();
    let mut i: usize = n;
    proof {
        assert(s@.subrange(0, n as int) =~= s@);
    }
    while i > 0
        invariant
            i <= n,
            n == s@.len(),
            last_index_of(s@, ch) == last_index_of(s@.subrange(0, i as int), ch),
        decreases i,
    {
        proof {
            let t = s@.subrange(0, i as int);
            assert(t.drop_last() =~= s@.subrange(0, i - 1));
            assert(t.last() == s@[i - 1]);
        }
        if s.get_char(i - 1) == ch {
            return Some(i - 1);
        }
        i -= 1;
    }
    proof {
        assert(s@.subrange(0, 0) =~= Seq::<char>::empty());
    }
    None
}

/// The stem of the file a path names, if it names one.
pub fn file_stem_of(c: &Vec<String>) -> (r: Option<String>)
    ensures
        r matches Some(s) ==> file_stem(views(c@)) == Some(s@),
        r is None ==> file_stem(views(c@)) is None,
{
    if c.len() == 0 {
        return None;
    }
    let last = &c[c.len() - 1];
    proof {
        reveal_strlit("/");
        reveal_strlit("..");
        reveal_strlit(".");
        assert(views(c@).last() == last@);
    }
    if str_eq(last.as_str(), "/") || str_eq(last.as_str(), "..") || str_eq(last.as_str(), ".") {
        return None;
    }
    match last_index(last.as_str(), '.') {
        Some(k) => {
            if k > 0 {
                Some(last.as_str().substring_char(0, k).to_owned())
            } else {
                Some(last.clone())
            }
        },
        None => Some(last.clone()),
    }
}

/// The path is absolute.
pub fn is_absolute_path(c: &Vec<String>) -> (r: bool)
    ensures
        r == is_absolute(views(c@)),
{
    proof {
        reveal_strlit("/");
    }
    c.len() > 0 && str_eq(c[0].as_str(), "/")
}

/// The parent of a path, if it has one.
pub fn parent_of(c: &Vec<String>) -> (r: Option<Vec<String>>)
    ensures
        r matches Some(v) ==> parent_components(views(c@)) == Some(views(v@)),
        r is None ==> parent_components(views(c@)) is None,
{
    proof {
        reveal_strlit("/");
    }
    if c.len() == 0 || (c.len() == 1 && str_eq(c[0].as_str(), "/")) {
        return None;
    }
    let v = copy_range(c, 0, c.len() - 1);
    proof {
        assert(views(c@).subrange(0, c@.len() - 1) =~= views(c@).drop_last());
    }
    Some(v)
}

/// `rel` appended to `base`, as `Path::join` builds it.
pub fn join_paths(base: &Vec<String>, rel: &Vec<String>) -> (r: Vec<String>)
    ensures
        views(r@) == join_components(views(base@), views(rel@)),
{
    proof {
        reveal_strlit(".");
    }
    if is_absolute_path(rel) {
        return copy_range(rel, 0, rel.len());
    }
    let start: usize = if rel.len() > 0 && str_eq(rel[0].as_str(), ".") {
        1
    } else {
        0
    };
    let mut r = copy_range(base, 0, base.len());
    let tail = copy_range(rel, start, rel.len());
    let ghost r0 = views(r@);
    let mut k: usize = 0;
    while k < tail.len()
        invariant
            k <= tail.len(),
            views(r@) == r0 + views(tail@).subrange(0, k as int),
        decreases tail.len() - k,
    {
        let ghost before = views(r@);
        r.push(copy_string(&tail[k]));
        proof {
            assert(views(r@) =~= before.push(tail@[k as int]@));
            assert(views(tail@).subrange(0, k + 1) =~= views(tail@).subrange(0, k as int).push(
                tail@[k as int]@,
            ));
            assert(views(r@) =~= r0 + views(tail@).subrange(0, k + 1));
        }
        k += 1;
    }
    proof {
        assert(views(tail@).subrange(0, tail@.len() as int) =~= views(tail@));
        assert(views(base@).subrange(0, base@.len() as int) =~= views(base@));
        assert(views(rel@).subrange(0, rel@.len() as int) =~= views(rel@));
        if start == 1 {
            assert(views(rel@).subrange(1, rel@.len() as int) =~= views(rel@).drop_first());
        }
    }
    r
}

} // verus!
