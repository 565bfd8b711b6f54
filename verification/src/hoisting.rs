//! Imports hoisted to the top of the bundle: `__future__` features,
//! standard-library and third-party imports of the bundled modules, each
//! emitted once, sorted.
use vstd::prelude::*;

use crate::ast::{Alias, ModModule, Stmt};
use crate::code_generator::{
    has_submodule, insert_all, relative_import_target, stateful_stdlib_module, with_key, with_name,
    HoistView, HybridStaticBundler,
};
use crate::alias_rewrite::stmt_alias_rewritten;
use crate::collections::{
    index_set_insert, index_set_items, index_set_new, name_map_entries, name_map_insert,
    name_map_is_empty, name_map_new, NameMap,
};
use crate::order::{sort_names, sorted_names};
use crate::resolver::{known_standard_library, root_module};
use crate::text::{contains_name, copy_string, str_eq, to_string, views};

use indexmap::IndexSet;

verus! {

/// A standard-library module whose import the bundle may hoist.
pub open spec fn safe_stdlib(m: Seq<char>) -> bool {
    !stateful_stdlib_module(m) && known_standard_library(10, root_module(m))
}

/// `m` is bundled, or a package holding a bundled module.
pub open spec fn bundled_or_package(bundled: Seq<Seq<char>>, m: Seq<char>) -> bool {
    bundled.contains(m) || has_submodule(bundled, m)
}

/// The names the aliases import.
pub open spec fn alias_names(names: Seq<Alias>) -> Seq<Seq<char>> {
    names.map_values(|a: Alias| a.name@)
}

pub open spec fn opt_view(o: Option<String>) -> Option<Seq<char>> {
    match o {
        Some(s) => Some(s@),
        None => None,
    }
}

/// `m` with an entry for `key` holding, besides what it held, each of `names`.
pub open spec fn with_names(m: Map<Seq<char>, Seq<Seq<char>>>, key: Seq<char>, names: Seq<Seq<char>>) -> Map<
    Seq<char>,
    Seq<Seq<char>>,
>
    decreases names.len(),
{
    if names.len() == 0 {
        with_key(m, key)
    } else {
        with_name(with_names(m, key, names.drop_last()), key, names.last())
    }
}

/// The module a `from` import in `current` (at `path`) names: the
/// resolution of a relative import, else the module written.
pub open spec fn from_import_module(
    bundled: Seq<Seq<char>>,
    level: u32,
    module: Option<Seq<char>>,
    current: Seq<char>,
    path: Seq<char>,
) -> Option<Seq<char>> {
    match relative_import_target(bundled, level, module, current, Some(path)) {
        Some(r) => Some(r),
        None => module,
    }
}

/// A relative import that resolves to a bundled module (left to the
/// module's own rewriting).
pub open spec fn resolves_to_bundled(
    bundled: Seq<Seq<char>>,
    level: u32,
    module: Option<Seq<char>>,
    current: Seq<char>,
    path: Seq<char>,
) -> bool {
    level > 0 && match relative_import_target(bundled, level, module, current, Some(path)) {
        Some(r) => bundled.contains(r),
        None => false,
    }
}

/// What a `from module import names` statement adds to the hoisted imports:
/// `__future__` features; the names of a standard-library module that may
/// be hoisted; the names of a module neither bundled nor a bundled package
/// (third-party); nothing for a relative import of a bundled module.
pub open spec fn hoist_from_import(
    h: HoistView,
    bundled: Seq<Seq<char>>,
    level: u32,
    module: Option<Seq<char>>,
    names: Seq<Seq<char>>,
    current: Seq<char>,
    path: Seq<char>,
) -> HoistView {
    if resolves_to_bundled(bundled, level, module, current, path) {
        h
    } else {
        match from_import_module(bundled, level, module, current, path) {
            None => h,
            Some(mn) => if mn == "__future__"@ {
                (insert_all(h.0, names), h.1, h.2, h.3, h.4)
            } else if safe_stdlib(mn) {
                (h.0, with_names(h.1, mn, names), h.2, h.3, h.4)
            } else if !bundled_or_package(bundled, mn) {
                (h.0, h.1, h.2, with_names(h.3, mn, names), h.4)
            } else {
                h
            },
        }
    }
}

/// Where an `import` statement of these modules is hoisted, decided by its
/// first module that is a hoistable standard-library module (`Some(true)`)
/// or neither bundled nor a bundled package (`Some(false)`); bundled
/// modules are skipped over.
pub open spec fn import_kind(names: Seq<Seq<char>>, bundled: Seq<Seq<char>>) -> Option<bool>
    decreases names.len(),
{
    if names.len() == 0 {
        None
    } else if safe_stdlib(names[0]) {
        Some(true)
    } else if !bundled_or_package(bundled, names[0]) {
        Some(false)
    } else {
        import_kind(names.skip(1), bundled)
    }
}

/// What an `import` statement adds to the hoisted imports.
pub open spec fn hoist_import(h: HoistView, bundled: Seq<Seq<char>>, names: Seq<Seq<char>>) -> HoistView {
    match import_kind(names, bundled) {
        Some(true) => (h.0, h.1, h.2.push(names), h.3, h.4),
        Some(false) => (h.0, h.1, h.2, h.3, h.4.push(names)),
        None => h,
    }
}

/// What a top-level statement of `current` (at `path`) adds to the hoisted imports.
pub open spec fn hoist_stmt(
    h: HoistView,
    bundled: Seq<Seq<char>>,
    s: Stmt,
    current: Seq<char>,
    path: Seq<char>,
) -> HoistView {
    match s {
        Stmt::ImportFrom { module, names, level } => hoist_from_import(
            h,
            bundled,
            level,
            opt_view(module),
            alias_names(names@),
            current,
            path,
        ),
        Stmt::Import(names) => hoist_import(h, bundled, alias_names(names@)),
        _ => h,
    }
}

/// What the top-level statements of a module add to the hoisted imports, in order.
pub open spec fn hoist_body(
    h: HoistView,
    bundled: Seq<Seq<char>>,
    body: Seq<Stmt>,
    current: Seq<char>,
    path: Seq<char>,
) -> HoistView
    decreases body.len(),
{
    if body.len() == 0 {
        h
    } else {
        hoist_stmt(hoist_body(h, bundled, body.drop_last(), current, path), bundled, body.last(), current, path)
    }
}


// ---------------------------------------------------------------------------
// The hoisted imports as statements
// ---------------------------------------------------------------------------

/// Some hoisted `import` statement names `m`.
pub open spec fn imports_name(stmts: Seq<Seq<Seq<char>>>, m: Seq<char>) -> bool {
    exists|i: int| 0 <= i < stmts.len() && (#[trigger] stmts[i]).contains(m)
}

/// `m` is hoisted among the standard-library imports, by a `from` import or an `import`.
pub open spec fn in_hoisted_stdlib(h: HoistView, m: Seq<char>) -> bool {
    h.1.contains_key(m) || imports_name(h.2, m)
}

/// The statement is one the hoisted imports stand for: a `__future__`
/// import, a `from` import of a hoistable standard-library module that is
/// hoisted, or an `import` one of whose hoistable standard-library modules
/// some hoisted `import` names.
pub open spec fn is_hoisted(h: HoistView, s: Stmt) -> bool {
    match s {
        Stmt::ImportFrom { module: Some(m), .. } => m@ == "__future__"@ || (safe_stdlib(m@)
            && in_hoisted_stdlib(h, m@)),
        Stmt::Import(names) => exists|i: int|
            0 <= i < names@.len() && safe_stdlib((#[trigger] names@[i]).name@) && imports_name(
                h.2,
                names@[i].name@,
            ),
        _ => false,
    }
}

/// Each name of the statements, in order.
pub open spec fn flatten_names(stmts: Seq<Seq<Seq<char>>>) -> Seq<Seq<char>>
    decreases stmts.len(),
{
    if stmts.len() == 0 {
        Seq::empty()
    } else {
        flatten_names(stmts.drop_last()) + stmts.last()
    }
}

/// `s` holds the names of `of` (each as often), sorted.
pub open spec fn sorted_permutation(s: Seq<Seq<char>>, of: Seq<Seq<char>>) -> bool {
    sorted_names(s, false) && s.to_multiset() == of.to_multiset()
}

/// `from m import a, b` at level zero, without `as` names.
pub open spec fn plain_from(s: Stmt) -> bool {
    s matches Stmt::ImportFrom { module: Some(_), names, level } && level == 0 && forall|j: int|
        0 <= j < names@.len() ==> (#[trigger] names@[j]).asname is None
}

pub open spec fn from_module(s: Stmt) -> Seq<char> {
    match s {
        Stmt::ImportFrom { module: Some(m), .. } => m@,
        _ => Seq::empty(),
    }
}

pub open spec fn from_names(s: Stmt) -> Seq<Seq<char>> {
    match s {
        Stmt::ImportFrom { names, .. } => alias_names(names@),
        _ => Seq::empty(),
    }
}

/// `import m`, without an `as` name.
pub open spec fn plain_import(s: Stmt) -> bool {
    s matches Stmt::Import(ns) && ns@.len() == 1 && ns@[0].asname is None
}

pub open spec fn import_module(s: Stmt) -> Seq<char> {
    match s {
        Stmt::Import(ns) => if ns@.len() > 0 {
            ns@[0].name@
        } else {
            Seq::empty()
        },
        _ => Seq::empty(),
    }
}

/// No statement, or one `from __future__ import` of the features, sorted.
pub open spec fn future_block(b: Seq<Stmt>, features: Seq<Seq<char>>) -> bool {
    if features.len() == 0 {
        b.len() == 0
    } else {
        b.len() == 1 && plain_from(b[0]) && from_module(b[0]) == "__future__"@ && sorted_permutation(
            from_names(b[0]),
            features,
        )
    }
}

/// One `from module import ...` per module of `m`, sorted by module, each
/// importing the module's names, sorted.
pub open spec fn from_block(b: Seq<Stmt>, m: Map<Seq<char>, Seq<Seq<char>>>) -> bool {
    let ks = b.map_values(|s: Stmt| from_module(s));
    &&& sorted_names(ks, false)
    &&& ks.no_duplicates()
    &&& ks.to_set() == m.dom()
    &&& forall|i: int|
        0 <= i < b.len() ==> plain_from(#[trigger] b[i]) && sorted_permutation(
            from_names(b[i]),
            m[from_module(b[i])],
        )
}

/// One `import module` per module the statements name, each once, sorted.
pub open spec fn import_block(b: Seq<Stmt>, stmts: Seq<Seq<Seq<char>>>) -> bool {
    &&& sorted_permutation(
        b.map_values(|s: Stmt| import_module(s)),
        insert_all(Seq::empty(), flatten_names(stmts)),
    )
    &&& forall|i: int| 0 <= i < b.len() ==> plain_import(#[trigger] b[i])
}

/// The statements that the hoisted imports `h` become at the top of the
/// bundle, in this order: the `__future__` import; the standard-library
/// `from` imports; the third-party `from` imports; the standard-library
/// `import`s; the third-party `import`s.
pub open spec fn hoisted_block(b: Seq<Stmt>, h: HoistView) -> bool {
    let n0: int = if h.0.len() == 0 {
        0
    } else {
        1
    };
    let n1: int = n0 + h.1.dom().len();
    let n2: int = n1 + h.3.dom().len();
    let n3: int = n2 + insert_all(Seq::empty(), flatten_names(h.2)).len();
    &&& b.len() == n3 + insert_all(Seq::empty(), flatten_names(h.4)).len()
    &&& future_block(b.subrange(0, n0), h.0)
    &&& from_block(b.subrange(n0, n1), h.1)
    &&& from_block(b.subrange(n1, n2), h.3)
    &&& import_block(b.subrange(n2, n3), h.2)
    &&& import_block(b.subrange(n3, b.len() as int), h.4)
}

/// An alias for each name, without `as` names.
fn plain_aliases(names: &Vec<String>) -> (r: Vec<Alias>)
    ensures
        alias_names(r@) == views(names@),
        forall|j: int| 0 <= j < r@.len() ==> (#[trigger] r@[j]).asname is None,
{
    let mut out: Vec<Alias> = Vec::new();
    let mut i: usize = 0;
    while i < names.len()
        invariant
            i <= names.len(),
            alias_names(out@) == views(names@).subrange(0, i as int),
            forall|j: int| 0 <= j < out@.len() ==> (#[trigger] out@[j]).asname is None,
        decreases names.len() - i,
    {
        let ghost before = out@;
        out.push(Alias { name: copy_string(&names[i]), asname: None });
        proof {
            assert(out@.drop_last() =~= before);
            assert(alias_names(out@) =~= alias_names(before).push(names@[i as int]@));
            assert(views(names@).subrange(0, i + 1) =~= views(names@).subrange(0, i as int).push(
                names@[i as int]@,
            ));
        }
        i += 1;
    }
    proof {
        assert(views(names@).subrange(0, names@.len() as int) =~= views(names@));
    }
    out
}

/// `from module import names` at level zero, with the names in order.
fn plain_from_import(module: String, names: &Vec<String>) -> (r: Stmt)
    ensures
        plain_from(r),
        from_module(r) == module@,
        from_names(r) == views(names@),
{
    let aliases = plain_aliases(names);
    Stmt::ImportFrom { module: Some(module), names: aliases, level: 0 }
}

/// `import module`.
fn plain_import_of(module: String) -> (r: Stmt)
    ensures
        plain_import(r),
        import_module(r) == module@,
{
    let mut aliases: Vec<Alias> = Vec::new();
    aliases.push(Alias { name: module, asname: None });
    Stmt::Import(aliases)
}

/// Sorted names hold no name twice when the names they sort held none.
proof fn lemma_sorted_keys(sorted: Seq<Seq<char>>, keys: Seq<Seq<char>>)
    requires
        sorted.to_multiset() == keys.to_multiset(),
        keys.no_duplicates(),
    ensures
        sorted.no_duplicates(),
        sorted.to_set() == keys.to_set(),
        sorted.len() == keys.len(),
{
    broadcast use vstd::seq_lib::group_to_multiset_ensures;
    keys.lemma_multiset_has_no_duplicates();
    sorted.lemma_multiset_has_no_duplicates_conv();
    assert forall|x: Seq<char>| sorted.to_set().contains(x) <==> keys.to_set().contains(x) by {
        assert(sorted.contains(x) <==> sorted.to_multiset().count(x) > 0);
        assert(keys.contains(x) <==> keys.to_multiset().count(x) > 0);
    }
    assert(sorted.to_set() =~= keys.to_set());
    assert(sorted.len() == sorted.to_multiset().len());
    assert(keys.len() == keys.to_multiset().len());
}

/// The module names of the aliases.
fn module_names(names: &Vec<Alias>) -> (r: Vec<String>)
    ensures
        views(r@) == alias_names(names@),
{
    let mut out: Vec<String> = Vec::new();
    let mut i: usize = 0;
    while i < names.len()
        invariant
            i <= names.len(),
            views(out@) == alias_names(names@.subrange(0, i as int)),
        decreases names.len() - i,
    {
        let ghost before = views(out@);
        out.push(copy_string(&names[i].name));
        proof {
            assert(views(out@) =~= before.push(names@[i as int].name@));
            assert(alias_names(names@.subrange(0, i + 1)) =~= alias_names(names@.subrange(0, i as int)).push(
                names@[i as int].name@,
            ));
        }
        i += 1;
    }
    proof {
        assert(names@.subrange(0, names@.len() as int) =~= names@);
    }
    out
}

impl HybridStaticBundler {
    /// Whether `module_name` is bundled or a package holding a bundled module.
    pub fn is_bundled_module_or_package(&self, module_name: &str) -> (r: bool)
        ensures
            r == bundled_or_package(self.bundled(), module_name@),
    {
        self.is_bundled(module_name) || self.has_bundled_submodule(module_name)
    }

    /// Adds each of `names` to what is hoisted from `module` (standard-library
    /// `from` imports if `stdlib`, else third-party ones), creating its entry.
    fn add_from_names(&mut self, stdlib: bool, module: &str, names: &Vec<Alias>)
        ensures
            final(self).hoist_view() == if stdlib {
                (
                    old(self).future_features(),
                    with_names(old(self).stdlib_from(), module@, alias_names(names@)),
                    old(self).stdlib_imports(),
                    old(self).third_party_from(),
                    old(self).third_party_imports(),
                )
            } else {
                (
                    old(self).future_features(),
                    old(self).stdlib_from(),
                    old(self).stdlib_imports(),
                    with_names(old(self).third_party_from(), module@, alias_names(names@)),
                    old(self).third_party_imports(),
                )
            },
            final(self).bundled() == old(self).bundled(),
            final(self).exports() == old(self).exports(),
            old(self).same_wrapping(*final(self)),
    {
        self.ensure_from_entry(stdlib, module);
        let mut i: usize = 0;
        proof {
            assert(alias_names(names@.subrange(0, 0)) =~= Seq::<Seq<char>>::empty());
        }
        while i < names.len()
            invariant
                i <= names.len(),
                self.hoist_view() == if stdlib {
                    (
                        old(self).future_features(),
                        with_names(old(self).stdlib_from(), module@, alias_names(names@.subrange(0, i as int))),
                        old(self).stdlib_imports(),
                        old(self).third_party_from(),
                        old(self).third_party_imports(),
                    )
                } else {
                    (
                        old(self).future_features(),
                        old(self).stdlib_from(),
                        old(self).stdlib_imports(),
                        with_names(old(self).third_party_from(), module@, alias_names(names@.subrange(0, i as int))),
                        old(self).third_party_imports(),
                    )
                },
                self.bundled() == old(self).bundled(),
                self.exports() == old(self).exports(),
                old(self).same_wrapping(*self),
            decreases names.len() - i,
        {
            proof {
                let t = alias_names(names@.subrange(0, i + 1));
                assert(t.drop_last() =~= alias_names(names@.subrange(0, i as int)));
                assert(t.last() == names@[i as int].name@);
            }
            self.add_from_name(stdlib, module, copy_string(&names[i].name));
            i += 1;
        }
        proof {
            assert(names@.subrange(0, names@.len() as int) =~= names@);
        }
    }

    /// Hoists what a `from` import of `current_module` (at `importer_path`)
    /// brings in (see `hoist_from_import`).
    pub fn collect_import_from(
        &mut self,
        level: u32,
        module: &Option<String>,
        names: &Vec<Alias>,
        current_module: &str,
        importer_path: &str,
    )
        ensures
            final(self).hoist_view() == hoist_from_import(
                old(self).hoist_view(),
                old(self).bundled(),
                level,
                opt_view(*module),
                alias_names(names@),
                current_module@,
                importer_path@,
            ),
            final(self).bundled() == old(self).bundled(),
            final(self).exports() == old(self).exports(),
            old(self).same_wrapping(*final(self)),
    {
        let ghost m = match module {
            Some(x) => Some(x@),
            None => None,
        };
        proof {
            assert(m == opt_view(*module));
        }
        if level > 0 {
            let resolved = self.resolve_relative_import_with_context(level, module, current_module, Some(importer_path));
            if let Some(r) = resolved {
                if self.is_bundled(r.as_str()) {
                    return;
                }
            }
        }
        let resolved_module_name = self.resolve_relative_import_with_context(
            level,
            module,
            current_module,
            Some(importer_path),
        );
        let module_name: String = match resolved_module_name {
            Some(r) => r,
            None => match module {
                Some(x) => copy_string(x),
                None => {
                    return;
                },
            },
        };
        proof {
            reveal_strlit("__future__");
        }
        if str_eq(module_name.as_str(), "__future__") {
            let mut i: usize = 0;
            proof {
                assert(alias_names(names@.subrange(0, 0)) =~= Seq::<Seq<char>>::empty());
            }
            while i < names.len()
                invariant
                    i <= names.len(),
                    self.hoist_view() == (
                        insert_all(old(self).future_features(), alias_names(names@.subrange(0, i as int))),
                        old(self).stdlib_from(),
                        old(self).stdlib_imports(),
                        old(self).third_party_from(),
                        old(self).third_party_imports(),
                    ),
                    self.bundled() == old(self).bundled(),
                    self.exports() == old(self).exports(),
                    old(self).same_wrapping(*self),
                decreases names.len() - i,
            {
                proof {
                    let t = alias_names(names@.subrange(0, i + 1));
                    assert(t.drop_last() =~= alias_names(names@.subrange(0, i as int)));
                    assert(t.last() == names@[i as int].name@);
                }
                self.add_future_feature(copy_string(&names[i].name));
                i += 1;
            }
            proof {
                assert(names@.subrange(0, names@.len() as int) =~= names@);
            }
        } else if self.is_safe_stdlib_module(module_name.as_str()) {
            self.add_from_names(true, module_name.as_str(), names);
        } else if !self.is_bundled_module_or_package(module_name.as_str()) {
            self.add_from_names(false, module_name.as_str(), names);
        }
    }

    /// Hoists an `import` statement (see `hoist_import`): under the first
    /// of its modules that is a hoistable standard-library module, or
    /// neither bundled nor a bundled package.
    pub fn collect_import(&mut self, names: &Vec<Alias>)
        ensures
            final(self).hoist_view() == hoist_import(old(self).hoist_view(), old(self).bundled(), alias_names(names@)),
            final(self).bundled() == old(self).bundled(),
            final(self).exports() == old(self).exports(),
            old(self).same_wrapping(*final(self)),
    {
        let ghost all = alias_names(names@);
        let mut i: usize = 0;
        proof {
            assert(all.skip(0) =~= all);
        }
        while i < names.len()
            invariant
                i <= names.len(),
                all == alias_names(names@),
                import_kind(all.skip(i as int), self.bundled()) == import_kind(all, self.bundled()),
                self.hoist_view() == old(self).hoist_view(),
                self.bundled() == old(self).bundled(),
                self.exports() == old(self).exports(),
                old(self).same_wrapping(*self),
            decreases names.len() - i,
        {
            let module_name = names[i].name.as_str();
            proof {
                let t = all.skip(i as int);
                assert(t[0] == module_name@);
                assert(t.skip(1) =~= all.skip(i + 1));
            }
            if self.is_safe_stdlib_module(module_name) {
                let v = module_names(names);
                self.push_import_statement(true, v);
                return;
            } else if !self.is_bundled_module_or_package(module_name) {
                let v = module_names(names);
                self.push_import_statement(false, v);
                return;
            }
            i += 1;
        }
        proof {
            assert(all.skip(i as int) =~= Seq::<Seq<char>>::empty());
        }
    }

    /// Hoists the imports among the top-level statements of a module, in
    /// order (see `hoist_body`).
    pub fn collect_imports_from_module(&mut self, ast: &ModModule, current_module: &str, importer_path: &str)
        ensures
            final(self).hoist_view() == hoist_body(
                old(self).hoist_view(),
                old(self).bundled(),
                ast.body@,
                current_module@,
                importer_path@,
            ),
            final(self).bundled() == old(self).bundled(),
            final(self).exports() == old(self).exports(),
            old(self).same_wrapping(*final(self)),
    {
        let mut i: usize = 0;
        while i < ast.body.len()
            invariant
                i <= ast.body.len(),
                self.hoist_view() == hoist_body(
                    old(self).hoist_view(),
                    old(self).bundled(),
                    ast.body@.subrange(0, i as int),
                    current_module@,
                    importer_path@,
                ),
                self.bundled() == old(self).bundled(),
                self.exports() == old(self).exports(),
                old(self).same_wrapping(*self),
            decreases ast.body.len() - i,
        {
            proof {
                let t = ast.body@.subrange(0, i + 1);
                assert(t.drop_last() =~= ast.body@.subrange(0, i as int));
                assert(t.last() == ast.body@[i as int]);
            }
            match &ast.body[i] {
                Stmt::ImportFrom { module, names, level } => {
                    self.collect_import_from(*level, module, names, current_module, importer_path);
                },
                Stmt::Import(names) => {
                    self.collect_import(names);
                },
                _ => {},
            }
            i += 1;
        }
        proof {
            assert(ast.body@.subrange(0, ast.body@.len() as int) =~= ast.body@);
        }
    }

    /// Hoists `import module_name` among the standard-library imports.
    pub fn add_stdlib_import(&mut self, module_name: &str)
        ensures
            final(self).hoist_view() == (
                old(self).future_features(),
                old(self).stdlib_from(),
                old(self).stdlib_imports().push(seq![module_name@]),
                old(self).third_party_from(),
                old(self).third_party_imports(),
            ),
            final(self).bundled() == old(self).bundled(),
            final(self).exports() == old(self).exports(),
            old(self).same_wrapping(*final(self)),
    {
        let mut v: Vec<String> = Vec::new();
        v.push(to_string(module_name));
        proof {
            assert(views(v@) =~= seq![module_name@]);
        }
        self.push_import_statement(true, v);
    }
    /// Whether `module_name` is hoisted among the standard-library imports.
    pub fn is_import_in_hoisted_stdlib(&self, module_name: &str) -> (r: bool)
        ensures
            r == in_hoisted_stdlib(self.hoist_view(), module_name@),
    {
        if self.stdlib_from_has(module_name) {
            return true;
        }
        self.hoisted_import_names(module_name)
    }

    /// Whether some hoisted standard-library `import` names `module_name`.
    fn hoisted_import_names(&self, module_name: &str) -> (r: bool)
        ensures
            r == imports_name(self.stdlib_imports(), module_name@),
    {
        let stmts = self.import_statements(true);
        let ghost h = self.stdlib_imports();
        let mut i: usize = 0;
        while i < stmts.len()
            invariant
                i <= stmts.len(),
                h == stmts@.map_values(|v: Vec<String>| views(v@)),
                h == self.stdlib_imports(),
                forall|j: int| 0 <= j < i ==> !(#[trigger] h[j]).contains(module_name@),
            decreases stmts.len() - i,
        {
            proof {
                assert(h[i as int] == views(stmts@[i as int]@));
            }
            if contains_name(&stmts[i], module_name) {
                proof {
                    assert(h[i as int].contains(module_name@));
                }
                return true;
            }
            i += 1;
        }
        false
    }

    /// Whether the statement is one the hoisted imports stand for (see `is_hoisted`).
    #[verifier::loop_isolation(false)]
    pub fn is_hoisted_import(&self, stmt: &Stmt) -> (r: bool)
        ensures
            r == is_hoisted(self.hoist_view(), *stmt),
    {
        proof {
            reveal_strlit("__future__");
        }
        match stmt {
            Stmt::ImportFrom { module: Some(m), .. } => {
                if str_eq(m.as_str(), "__future__") {
                    return true;
                }
                if self.is_safe_stdlib_module(m.as_str()) {
                    return self.is_import_in_hoisted_stdlib(m.as_str());
                }
                false
            },
            Stmt::Import(names) => {
                let mut i: usize = 0;
                while i < names.len()
                    invariant
                        i <= names.len(),
                        forall|j: int|
                            0 <= j < i ==> !(safe_stdlib((#[trigger] names@[j]).name@) && imports_name(
                                self.stdlib_imports(),
                                names@[j].name@,
                            )),
                    decreases names.len() - i,
                {
                    if self.is_safe_stdlib_module(names[i].name.as_str())
                        && self.hoisted_import_names(names[i].name.as_str()) {
                        proof {
                            assert(safe_stdlib(names@[i as int].name@) && imports_name(
                                self.stdlib_imports(),
                                names@[i as int].name@,
                            ));
                            assert(self.hoist_view().2 == self.stdlib_imports());
                            let w = i as int;
                            assert(0 <= w < names@.len() && safe_stdlib(names@[w].name@) && imports_name(
                                self.hoist_view().2,
                                names@[w].name@,
                            ));
                            assert(is_hoisted(self.hoist_view(), *stmt));
                        }
                        return true;
                    }
                    i += 1;
                }
                false
            },
            _ => false,
        }
    }

    /// The `__future__` import of the bundle (none if it needs no feature).
    fn future_import_block(&self) -> (r: Vec<Stmt>)
        ensures
            future_block(r@, self.future_features()),
    {
        let mut out: Vec<Stmt> = Vec::new();
        let features = self.get_future_imports();
        if features.len() > 0 {
            let sorted = sort_names(features, false);
            proof {
                reveal_strlit("__future__");
            }
            out.push(plain_from_import(to_string("__future__"), &sorted));
        }
        out
    }

    /// The hoisted `from` imports (standard-library ones if `stdlib`) as
    /// statements, sorted by module, each with its names sorted.
    #[verifier::loop_isolation(false)]
    fn from_import_block(&self, stdlib: bool) -> (r: Vec<Stmt>)
        ensures
            from_block(r@, self.from_imports(stdlib)),
            r@.len() == self.from_imports(stdlib).dom().len(),
    {
        let ghost m = self.from_imports(stdlib);
        let entries = self.from_entries(stdlib);
        let mut keys: Vec<String> = Vec::new();
        let mut i: usize = 0;
        while i < entries.len()
            invariant
                i <= entries.len(),
                keys@.len() == i,
                forall|j: int| 0 <= j < i ==> (#[trigger] keys@[j])@ == entries@[j].0@,
            decreases entries.len() - i,
        {
            keys.push(copy_string(&entries[i].0));
            i += 1;
        }
        let ghost kv = views(keys@);
        proof {
            assert forall|a: int, b: int| 0 <= a < kv.len() && 0 <= b < kv.len() && a != b implies kv[a]
                != kv[b] by {
                if a < b {
                    assert(entries@[a].0@ != entries@[b].0@);
                } else {
                    assert(entries@[b].0@ != entries@[a].0@);
                }
            }
            assert forall|x: Seq<char>| kv.to_set().contains(x) <==> m.dom().contains(x) by {
                if m.dom().contains(x) {
                    let j = choose|j: int| 0 <= j < entries@.len() && (#[trigger] entries@[j]).0@ == x;
                    assert(kv[j] == x);
                }
                if kv.contains(x) {
                    let j = choose|j: int| 0 <= j < kv.len() && kv[j] == x;
                    assert(entries@[j].0@ == x);
                }
            }
            assert(kv.to_set() =~= m.dom());
        }
        let sorted = sort_names(keys, false);
        let ghost ks = views(sorted@);
        proof {
            lemma_sorted_keys(ks, kv);
            kv.unique_seq_to_set();
        }
        let mut out: Vec<Stmt> = Vec::new();
        let mut k: usize = 0;
        while k < sorted.len()
            invariant
                k <= sorted.len(),
                ks == views(sorted@),
                ks.to_set() == m.dom(),
                out@.len() == k,
                forall|j: int| 0 <= j < k ==> from_module(#[trigger] out@[j]) == ks[j],
                forall|j: int|
                    0 <= j < k ==> plain_from(#[trigger] out@[j]) && sorted_permutation(
                        from_names(out@[j]),
                        m[from_module(out@[j])],
                    ),
            decreases sorted.len() - k,
        {
            let key = &sorted[k];
            proof {
                assert(ks[k as int] == key@);
                assert(ks.contains(key@));
                assert(ks.to_set().contains(key@));
                assert(m.dom().contains(key@));
            }
            let mut e: usize = 0;
            while e < entries.len() && !str_eq(entries[e].0.as_str(), key.as_str())
                invariant
                    e <= entries.len(),
                    forall|j: int| 0 <= j < e ==> (#[trigger] entries@[j]).0@ != key@,
                decreases entries.len() - e,
            {
                e += 1;
            }
            if e == entries.len() {
                proof {
                    let j = choose|j: int| 0 <= j < entries@.len() && (#[trigger] entries@[j]).0@ == key@;
                    assert(entries@[j].0@ != key@);
                }
                break;
            }
            let names = sort_names(copy_names(&entries[e].1), false);
            let stmt = plain_from_import(copy_string(key), &names);
            let ghost before = out@;
            out.push(stmt);
            proof {
                assert(m[key@] == views(entries@[e as int].1@));
                assert forall|j: int| 0 <= j < k + 1 implies from_module(#[trigger] out@[j]) == ks[j] by {
                    if j < k {
                        assert(out@[j] == before[j]);
                    }
                }
                assert forall|j: int| 0 <= j < k + 1 implies plain_from(#[trigger] out@[j])
                    && sorted_permutation(from_names(out@[j]), m[from_module(out@[j])]) by {
                    if j < k {
                        assert(out@[j] == before[j]);
                    }
                }
            }
            k += 1;
        }
        proof {
            assert(out@.map_values(|s: Stmt| from_module(s)) =~= ks);
        }
        out
    }

    /// The module names of the `import` statement, added to `unique_imports`
    /// unless seen before (`seen_modules` holds the same names).
    pub fn collect_unique_imports(
        &self,
        names: &Vec<String>,
        seen_modules: &mut IndexSet<String>,
        unique_imports: &mut Vec<String>,
    )
        requires
            index_set_items(*old(seen_modules)) == views(old(unique_imports)@),
        ensures
            index_set_items(*final(seen_modules)) == insert_all(index_set_items(*old(seen_modules)), views(names@)),
            views(final(unique_imports)@) == index_set_items(*final(seen_modules)),
    {
        let ghost start = index_set_items(*seen_modules);
        let mut i: usize = 0;
        proof {
            assert(views(names@).subrange(0, 0) =~= Seq::<Seq<char>>::empty());
        }
        while i < names.len()
            invariant
                i <= names.len(),
                index_set_items(*seen_modules) == insert_all(start, views(names@).subrange(0, i as int)),
                views(unique_imports@) == index_set_items(*seen_modules),
            decreases names.len() - i,
        {
            proof {
                let t = views(names@).subrange(0, i + 1);
                assert(t.drop_last() =~= views(names@).subrange(0, i as int));
                assert(t.last() == names@[i as int]@);
            }
            let ghost before = views(unique_imports@);
            if index_set_insert(seen_modules, copy_string(&names[i])) {
                unique_imports.push(copy_string(&names[i]));
                proof {
                    assert(views(unique_imports@) =~= before.push(names@[i as int]@));
                }
            }
            i += 1;
        }
        proof {
            assert(views(names@).subrange(0, names@.len() as int) =~= views(names@));
        }
    }

    /// The hoisted `import` statements (standard-library ones if `stdlib`)
    /// as `import module` statements, each module once, sorted.
    fn import_statement_block(&self, stdlib: bool) -> (r: Vec<Stmt>)
        ensures
            import_block(
                r@,
                if stdlib {
                    self.stdlib_imports()
                } else {
                    self.third_party_imports()
                },
            ),
            r@.len() == insert_all(
                Seq::empty(),
                flatten_names(
                    if stdlib {
                        self.stdlib_imports()
                    } else {
                        self.third_party_imports()
                    },
                ),
            ).len(),
    {
        let stmts = self.import_statements(stdlib);
        let ghost h = stmts@.map_values(|v: Vec<String>| views(v@));
        let mut seen_modules = index_set_new();
        let mut unique_imports: Vec<String> = Vec::new();
        let mut i: usize = 0;
        proof {
            assert(views(unique_imports@) =~= Seq::<Seq<char>>::empty());
            assert(h.subrange(0, 0) =~= Seq::<Seq<Seq<char>>>::empty());
        }
        while i < stmts.len()
            invariant
                i <= stmts.len(),
                h == stmts@.map_values(|v: Vec<String>| views(v@)),
                index_set_items(seen_modules) == insert_all(Seq::empty(), flatten_names(h.subrange(0, i as int))),
                views(unique_imports@) == index_set_items(seen_modules),
            decreases stmts.len() - i,
        {
            let ghost pre = flatten_names(h.subrange(0, i as int));
            self.collect_unique_imports(&stmts[i], &mut seen_modules, &mut unique_imports);
            proof {
                let t = h.subrange(0, i + 1);
                assert(t.drop_last() =~= h.subrange(0, i as int));
                assert(t.last() == views(stmts@[i as int]@));
                crate::import_scan::lemma_insert_all_concat(Seq::empty(), pre, views(stmts@[i as int]@));
            }
            i += 1;
        }
        proof {
            assert(h.subrange(0, h.len() as int) =~= h);
        }
        let ghost all = views(unique_imports@);
        let sorted = sort_names(unique_imports, false);
        let mut out: Vec<Stmt> = Vec::new();
        let mut k: usize = 0;
        while k < sorted.len()
            invariant
                k <= sorted.len(),
                out@.len() == k,
                forall|j: int| 0 <= j < k ==> import_module(#[trigger] out@[j]) == sorted@[j]@,
                forall|j: int| 0 <= j < k ==> plain_import(#[trigger] out@[j]),
            decreases sorted.len() - k,
        {
            let ghost before = out@;
            out.push(plain_import_of(copy_string(&sorted[k])));
            proof {
                assert forall|j: int| 0 <= j < k + 1 implies import_module(#[trigger] out@[j]) == sorted@[j]@ by {
                    if j < k {
                        assert(out@[j] == before[j]);
                    }
                }
                assert forall|j: int| 0 <= j < k + 1 implies plain_import(#[trigger] out@[j]) by {
                    if j < k {
                        assert(out@[j] == before[j]);
                    }
                }
            }
            k += 1;
        }
        proof {
            broadcast use vstd::seq_lib::group_to_multiset_ensures;
            assert(out@.map_values(|s: Stmt| import_module(s)) =~= views(sorted@));
            assert(views(sorted@).len() == views(sorted@).to_multiset().len());
            assert(all.len() == all.to_multiset().len());
        }
        out
    }

    /// Appends the hoisted imports to `final_body`, as `hoisted_block` lays
    /// them out: the `__future__` import, the standard-library and then the
    /// third-party `from` imports, the standard-library and then the
    /// third-party `import`s, each group sorted.
    pub fn add_hoisted_imports(&self, final_body: &mut Vec<Stmt>)
        ensures
            final(final_body)@.len() >= old(final_body)@.len(),
            final(final_body)@.subrange(0, old(final_body)@.len() as int) == old(final_body)@,
            hoisted_block(
                final(final_body)@.subrange(old(final_body)@.len() as int, final(final_body)@.len() as int),
                self.hoist_view(),
            ),
    {
        let b0 = self.future_import_block();
        let b1 = self.from_import_block(true);
        let b2 = self.from_import_block(false);
        let b3 = self.import_statement_block(true);
        let b4 = self.import_statement_block(false);
        let ghost (s0, s1, s2, s3, s4) = (b0@, b1@, b2@, b3@, b4@);
        let mut block = b0;
        let mut m1 = b1;
        let mut m2 = b2;
        let mut m3 = b3;
        let mut m4 = b4;
        block.append(&mut m1);
        block.append(&mut m2);
        block.append(&mut m3);
        block.append(&mut m4);
        let ghost b = block@;
        let ghost start = final_body@;
        final_body.append(&mut block);
        proof {
            let h = self.hoist_view();
            assert(b =~= s0 + s1 + s2 + s3 + s4);
            let n0: int = if h.0.len() == 0 {
                0
            } else {
                1
            };
            assert(s0.len() == n0);
            let n1 = n0 + s1.len();
            let n2 = n1 + s2.len();
            let n3 = n2 + s3.len();
            assert(b.subrange(0, n0) =~= s0);
            assert(b.subrange(n0, n1) =~= s1);
            assert(b.subrange(n1, n2) =~= s2);
            assert(b.subrange(n2, n3) =~= s3);
            assert(b.subrange(n3, b.len() as int) =~= s4);
            assert(final_body@.subrange(0, start.len() as int) =~= start);
            assert(final_body@.subrange(start.len() as int, final_body@.len() as int) =~= b);
        }
    }
}

/// Copies of the names.
fn copy_names(names: &Vec<String>) -> (r: Vec<String>)
    ensures
        views(r@) == views(names@),
{
    let mut out: Vec<String> = Vec::new();
    let mut i: usize = 0;
    while i < names.len()
        invariant
            i <= names.len(),
            views(out@) == views(names@).subrange(0, i as int),
        decreases names.len() - i,
    {
        let ghost before = views(out@);
        out.push(copy_string(&names[i]));
        proof {
            assert(views(out@) =~= before.push(names@[i as int]@));
            assert(views(names@).subrange(0, i + 1) =~= views(names@).subrange(0, i as int).push(
                names@[i as int]@,
            ));
        }
        i += 1;
    }
    proof {
        assert(views(names@).subrange(0, names@.len() as int) =~= views(names@));
    }
    out
}

// ---------------------------------------------------------------------------
// Standard-library aliases
// ---------------------------------------------------------------------------

/// `b` is `a` with the `as` names of hoistable standard-library modules removed.
pub open spec fn aliases_normalized(a: Seq<Alias>, b: Seq<Alias>) -> bool {
    a.len() == b.len() && forall|i: int|
        0 <= i < a.len() ==> (#[trigger] b[i]).name == a[i].name && b[i].asname == if safe_stdlib(
            a[i].name@,
        ) {
            None
        } else {
            a[i].asname
        }
}

/// `m` extended by `alias -> module` for each `import module as alias` of a
/// hoistable standard-library module among `names`, in order.
pub open spec fn stdlib_alias_map(m: Map<Seq<char>, Seq<char>>, names: Seq<Alias>) -> Map<
    Seq<char>,
    Seq<char>,
>
    decreases names.len(),
{
    if names.len() == 0 {
        m
    } else {
        let p = stdlib_alias_map(m, names.drop_last());
        let a = names.last();
        match a.asname {
            Some(alias) => if safe_stdlib(a.name@) {
                p.insert(alias@, a.name@)
            } else {
                p
            },
            None => p,
        }
    }
}

/// The standard-library aliases the `import` statements of `body` bind, in order.
pub open spec fn stdlib_aliases_of(body: Seq<Stmt>) -> Map<Seq<char>, Seq<char>>
    decreases body.len(),
{
    if body.len() == 0 {
        Map::empty()
    } else {
        match body.last() {
            Stmt::Import(names) => stdlib_alias_map(stdlib_aliases_of(body.drop_last()), names@),
            _ => stdlib_aliases_of(body.drop_last()),
        }
    }
}

/// `b` is the module body `a` with its standard-library aliases undone:
/// `import` statements lose the `as` names of hoistable standard-library
/// modules, and every other statement reads those modules under their
/// names (aliases `m`, see `stmt_alias_rewritten`); unchanged if there is
/// no such alias.
pub open spec fn stdlib_aliases_normalized(a: Seq<Stmt>, b: Seq<Stmt>) -> bool {
    let m = stdlib_aliases_of(a);
    if m.dom() == Set::<Seq<char>>::empty() {
        b == a
    } else {
        a.len() == b.len() && forall|i: int|
            0 <= i < a.len() ==> match #[trigger] a[i] {
                Stmt::Import(ns) => (b[i] matches Stmt::Import(n2) && aliases_normalized(ns@, n2@)),
                s => stmt_alias_rewritten(s, b[i], m),
            }
    }
}

impl HybridStaticBundler {
    /// The aliases of an `import` statement without the `as` names of
    /// hoistable standard-library modules.
    pub fn normalize_import_aliases(&self, names: Vec<Alias>) -> (r: Vec<Alias>)
        ensures
            aliases_normalized(names@, r@),
    {
        let ghost orig = names@;
        let mut rest = names;
        let mut out: Vec<Alias> = Vec::new();
        let mut k: usize = 0;
        let n = rest.len();
        proof {
            assert(orig.skip(0) =~= orig);
        }
        while rest.len() > 0
            invariant
                n == orig.len(),
                k <= orig.len(),
                rest@ == orig.skip(k as int),
                out@.len() == k,
                forall|i: int|
                    0 <= i < k ==> (#[trigger] out@[i]).name == orig[i].name && out@[i].asname == if safe_stdlib(
                        orig[i].name@,
                    ) {
                        None
                    } else {
                        orig[i].asname
                    },
            decreases rest.len(),
        {
            let a = rest.remove(0);
            proof {
                assert(a == orig[k as int]);
                assert(orig.skip(k + 1) =~= rest@);
            }
            let Alias { name, asname } = a;
            let new_asname = if self.is_safe_stdlib_module(name.as_str()) {
                None
            } else {
                asname
            };
            out.push(Alias { name, asname: new_asname });
            k += 1;
        }
        out
    }

    /// Adds `alias -> module` for each `import module as alias` of a
    /// hoistable standard-library module among `names`.
    pub fn collect_stdlib_aliases(&self, names: &Vec<Alias>, alias_to_canonical: &mut NameMap)
        ensures
            name_map_entries(*final(alias_to_canonical)) == stdlib_alias_map(
                name_map_entries(*old(alias_to_canonical)),
                names@,
            ),
    {
        let mut i: usize = 0;
        while i < names.len()
            invariant
                i <= names.len(),
                name_map_entries(*alias_to_canonical) == stdlib_alias_map(
                    name_map_entries(*old(alias_to_canonical)),
                    names@.subrange(0, i as int),
                ),
            decreases names.len() - i,
        {
            proof {
                let t = names@.subrange(0, i + 1);
                assert(t.drop_last() =~= names@.subrange(0, i as int));
                assert(t.last() == names@[i as int]);
            }
            let module_name = names[i].name.as_str();
            if self.is_safe_stdlib_module(module_name) {
                if let Some(alias_name) = &names[i].asname {
                    name_map_insert(alias_to_canonical, copy_string(alias_name), to_string(module_name));
                }
            }
            i += 1;
        }
        proof {
            assert(names@.subrange(0, names@.len() as int) =~= names@);
        }
    }

    /// The module with its standard-library aliases undone: `import json as j`
    /// becomes `import json` and `j.dumps` becomes `json.dumps` (see
    /// `stdlib_aliases_normalized`).
    pub fn normalize_stdlib_import_aliases(&self, ast: ModModule) -> (r: ModModule)
        ensures
            stdlib_aliases_normalized(ast.body@, r.body@),
    {
        let mut alias_to_canonical = name_map_new();
        let mut i: usize = 0;
        proof {
            assert(name_map_entries(alias_to_canonical) =~= stdlib_aliases_of(ast.body@.subrange(0, 0)));
        }
        while i < ast.body.len()
            invariant
                i <= ast.body.len(),
                name_map_entries(alias_to_canonical) == stdlib_aliases_of(ast.body@.subrange(0, i as int)),
            decreases ast.body.len() - i,
        {
            proof {
                let t = ast.body@.subrange(0, i + 1);
                assert(t.drop_last() =~= ast.body@.subrange(0, i as int));
                assert(t.last() == ast.body@[i as int]);
            }
            if let Stmt::Import(names) = &ast.body[i] {
                self.collect_stdlib_aliases(names, &mut alias_to_canonical);
            }
            i += 1;
        }
        proof {
            assert(ast.body@.subrange(0, ast.body@.len() as int) =~= ast.body@);
        }
        if name_map_is_empty(&alias_to_canonical) {
            return ast;
        }
        let ghost m = name_map_entries(alias_to_canonical);
        let ghost orig = ast.body@;
        let ModModule { body } = ast;
        let mut rest = body;
        let mut out: Vec<Stmt> = Vec::new();
        let mut k: usize = 0;
        let n = rest.len();
        proof {
            assert(orig.skip(0) =~= orig);
        }
        while rest.len() > 0
            invariant
                n == orig.len(),
                k <= orig.len(),
                rest@ == orig.skip(k as int),
                out@.len() == k,
                m == name_map_entries(alias_to_canonical),
                forall|j: int|
                    0 <= j < k ==> match #[trigger] orig[j] {
                        Stmt::Import(ns) => (out@[j] matches Stmt::Import(n2) && aliases_normalized(ns@, n2@)),
                        s => stmt_alias_rewritten(s, out@[j], m),
                    },
            decreases rest.len(),
        {
            let s = rest.remove(0);
            proof {
                assert(s == orig[k as int]);
                assert(orig.skip(k + 1) =~= rest@);
            }
            let ghost before = out@;
            let new_stmt = match s {
                Stmt::Import(names) => Stmt::Import(self.normalize_import_aliases(names)),
                other => self.rewrite_aliases_in_stmt(other, &alias_to_canonical),
            };
            out.push(new_stmt);
            proof {
                assert forall|j: int|
                    0 <= j < k + 1 implies match #[trigger] orig[j] {
                        Stmt::Import(ns) => (out@[j] matches Stmt::Import(n2) && aliases_normalized(ns@, n2@)),
                        s => stmt_alias_rewritten(s, out@[j], m),
                    } by {
                    if j < k {
                        assert(out@[j] == before[j]);
                    }
                }
            }
            k += 1;
        }
        ModModule { body: out }
    }
}

} // verus!
