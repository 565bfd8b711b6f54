//! Module names from file paths.
use vstd::prelude::*;

use crate::text::{copy_range, ends_with, has_suffix, join_strings, join_with, str_eq, views};

verus! {

/// A file name without its `.py` extension.
pub open spec fn strip_py_suffix(s: Seq<char>) -> Seq<char> {
    if has_suffix(s, ".py"@) {
        s.subrange(0, s.len() - 3)
    } else {
        s
    }
}

/// The dotted parts of the module a relative path names: the directories, then
/// the file's stem unless it is `__init__` (a package names itself by its directory).
pub open spec fn module_parts(parts: Seq<Seq<char>>) -> Seq<Seq<char>> {
    let last = strip_py_suffix(parts.last());
    if last == "__init__"@ {
        parts.drop_last()
    } else {
        parts.drop_last().push(last)
    }
}

/// The module a path relative to a source directory names, if any.
pub open spec fn module_name_from_parts(parts: Seq<Seq<char>>) -> Option<Seq<char>> {
    if parts.len() == 0 {
        None
    } else if module_parts(parts).len() == 0 {
        None
    } else {
        Some(join_with(module_parts(parts), "."@))
    }
}

/// The dotted name of the module that the relative path with components `parts`
/// names: `pkg/mod.py` is `pkg.mod`, `pkg/__init__.py` is `pkg`; none for a
/// path with no components or for a top-level `__init__.py`.
pub fn module_name_from_relative(parts: &Vec<String>) -> (r: Option<String>)
    ensures
        r matches Some(m) ==> module_name_from_parts(views(parts@)) == Some(m@),
        r is None ==> module_name_from_parts(views(parts@)) is None,
{
    if parts.len() == 0 {
        return None;
    }
    let n = parts.len();
    let last = parts[n - 1].as_str();
    proof {
        reveal_strlit(".py");
        reveal_strlit("__init__");
        assert(views(parts@).last() == last@);
    }
    let stem: String = if ends_with(last, ".py") {
        let k = last.unicode_len() - 3;
        last.substring_char(0, k).to_owned()
    } else {
        last.to_owned()
    };
    let mut m = copy_range(parts, 0, n - 1);
    proof {
        assert(views(parts@).subrange(0, n - 1) =~= views(parts@).drop_last());
    }
    if !str_eq(stem.as_str(), "__init__") {
        let ghost before = views(m@);
        m.push(stem);
        proof {
            assert(views(m@) =~= before.push(stem@));
        }
    }
    if m.len() == 0 {
        return None;
    }
    Some(join_strings(&m, "."))
}

} // verus!
