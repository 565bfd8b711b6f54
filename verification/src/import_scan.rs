//! Which bundled modules are imported directly, and which modules import
//! inside their functions.
use vstd::prelude::*;

use indexmap::IndexSet;

use crate::ast::{Alias, ElifElseClause, ExceptHandler, ModModule, Stmt};
use crate::code_generator::{insert_all, relative_import_target, HybridStaticBundler};
use crate::collections::{index_set_insert, index_set_items, index_set_new};
use crate::orchestrator::{dotted_prefix, push_unique};
use crate::text::{contains_char, copy_string, split_char, split_on, str_eq, views};

verus! {

/// A module of the bundle: its name, its syntax tree, its path and its
/// content hash.
pub type BundleModule = (String, ModModule, String, String);

// ---------------------------------------------------------------------------
// Imports inside functions
// ---------------------------------------------------------------------------

/// Some statement of `body` imports, looking into the bodies of `if` and its
/// clauses, `while`, `for`, `try` (handlers, `else`, `finally`), `with` and
/// nested functions (not into classes, nor the `else` of loops).
pub open spec fn body_has_imports(body: Seq<Stmt>) -> bool
    decreases body,
{
    body.len() > 0 && (body_has_imports(body.drop_last()) || stmt_has_imports(body.last()))
}

pub open spec fn stmt_has_imports(s: Stmt) -> bool
    decreases s,
{
    match s {
        Stmt::Import(_) => true,
        Stmt::ImportFrom { .. } => true,
        Stmt::If { body, elif_else_clauses, .. } => body_has_imports(body@) || clauses_have_imports(
            elif_else_clauses@,
        ),
        Stmt::While { body, .. } => body_has_imports(body@),
        Stmt::For { body, .. } => body_has_imports(body@),
        Stmt::Try { body, handlers, orelse, finalbody } => body_has_imports(body@)
            || handlers_have_imports(handlers@) || body_has_imports(orelse@) || body_has_imports(
            finalbody@,
        ),
        Stmt::With { body, .. } => body_has_imports(body@),
        Stmt::FunctionDef { body, .. } => body_has_imports(body@),
        _ => false,
    }
}

pub open spec fn clauses_have_imports(cs: Seq<ElifElseClause>) -> bool
    decreases cs,
{
    cs.len() > 0 && (clauses_have_imports(cs.drop_last()) || body_has_imports(cs.last().body@))
}

pub open spec fn handlers_have_imports(hs: Seq<ExceptHandler>) -> bool
    decreases hs,
{
    hs.len() > 0 && (handlers_have_imports(hs.drop_last()) || body_has_imports(hs.last().body@))
}

/// Some method (function directly in the class body) imports.
pub open spec fn methods_have_imports(class_body: Seq<Stmt>) -> bool {
    exists|i: int|
        0 <= i < class_body.len() && (#[trigger] class_body[i] matches Stmt::FunctionDef { body, .. }
            && body_has_imports(body@))
}

/// A top-level function, or a method of a top-level class, imports.
pub open spec fn has_function_scoped_imports(module: Seq<Stmt>) -> bool {
    exists|i: int|
        0 <= i < module.len() && match #[trigger] module[i] {
            Stmt::FunctionDef { body, .. } => body_has_imports(body@),
            Stmt::ClassDef { body, .. } => methods_have_imports(body@),
            _ => false,
        }
}

/// The names of the modules among `ms` that import inside functions, in order.
pub open spec fn modules_with_function_imports(ms: Seq<BundleModule>) -> Seq<Seq<char>>
    decreases ms.len(),
{
    if ms.len() == 0 {
        Seq::empty()
    } else {
        modules_with_function_imports(ms.drop_last()) + if has_function_scoped_imports(
            ms.last().1.body@,
        ) {
            seq![ms.last().0@]
        } else {
            Seq::empty()
        }
    }
}

// ---------------------------------------------------------------------------
// Direct imports
// ---------------------------------------------------------------------------

/// A module of `ms` has the name `n`.
pub open spec fn module_named(ms: Seq<BundleModule>, n: Seq<char>) -> bool {
    exists|i: int| 0 <= i < ms.len() && (#[trigger] ms[i]).0@ == n
}

/// The parent packages made of the first `1 ..= k` parts that are modules of `ms`, in order.
pub open spec fn bundled_prefixes(parts: Seq<Seq<char>>, k: nat, ms: Seq<BundleModule>) -> Seq<Seq<char>>
    decreases k,
{
    if k == 0 {
        Seq::empty()
    } else {
        bundled_prefixes(parts, (k - 1) as nat, ms) + if module_named(ms, dotted_prefix(parts, k as int)) {
            seq![dotted_prefix(parts, k as int)]
        } else {
            Seq::empty()
        }
    }
}

/// The parent packages of the dotted name `n` that are modules of `ms`,
/// outermost first.
pub open spec fn bundled_parents(n: Seq<char>, ms: Seq<BundleModule>) -> Seq<Seq<char>> {
    let parts = split_on(n, '.');
    bundled_prefixes(parts, (parts.len() - 1) as nat, ms)
}

/// What `import a, b.c` imports directly: each name that is a module of
/// `ms`, followed, for a dotted name, by its parent packages that are.
pub open spec fn imported_directly(names: Seq<Alias>, ms: Seq<BundleModule>) -> Seq<Seq<char>>
    decreases names.len(),
{
    if names.len() == 0 {
        Seq::empty()
    } else {
        let n = names.last().name@;
        imported_directly(names.drop_last(), ms) + if module_named(ms, n) {
            seq![n] + if n.contains('.') {
                bundled_parents(n, ms)
            } else {
                Seq::empty()
            }
        } else {
            Seq::empty()
        }
    }
}

/// What `from base import x, y` imports directly: each `base.x` that is a
/// module of `ms`.
pub open spec fn submodules_imported(base: Seq<char>, names: Seq<Alias>, ms: Seq<BundleModule>) -> Seq<
    Seq<char>,
>
    decreases names.len(),
{
    if names.len() == 0 {
        Seq::empty()
    } else {
        let full = base + "."@ + names.last().name@;
        submodules_imported(base, names.drop_last(), ms) + if module_named(ms, full) {
            seq![full]
        } else {
            Seq::empty()
        }
    }
}

/// The modules of `ms` that the statement, in module `current` at `path`,
/// imports directly (relative imports resolved against `bundled`).
pub open spec fn stmt_direct_imports(
    s: Stmt,
    bundled: Seq<Seq<char>>,
    current: Seq<char>,
    path: Seq<char>,
    ms: Seq<BundleModule>,
) -> Seq<Seq<char>> {
    match s {
        Stmt::Import(names) => imported_directly(names@, ms),
        Stmt::ImportFrom { module: Some(m), names, .. } => submodules_imported(m@, names@, ms),
        Stmt::ImportFrom { module: None, names, level } => if level > 0 {
            match relative_import_target(bundled, level, None, current, Some(path)) {
                Some(base) => submodules_imported(base, names@, ms),
                None => Seq::empty(),
            }
        } else {
            Seq::empty()
        },
        _ => Seq::empty(),
    }
}

pub open spec fn body_direct_imports(
    body: Seq<Stmt>,
    bundled: Seq<Seq<char>>,
    current: Seq<char>,
    path: Seq<char>,
    ms: Seq<BundleModule>,
) -> Seq<Seq<char>>
    decreases body.len(),
{
    if body.len() == 0 {
        Seq::empty()
    } else {
        body_direct_imports(body.drop_last(), bundled, current, path, ms) + stmt_direct_imports(
            body.last(),
            bundled,
            current,
            path,
            ms,
        )
    }
}

/// The direct imports of the top-level statements of each of `scanned`, in
/// order, against the modules `ms`.
pub open spec fn modules_direct_imports(
    scanned: Seq<BundleModule>,
    bundled: Seq<Seq<char>>,
    ms: Seq<BundleModule>,
) -> Seq<Seq<char>>
    decreases scanned.len(),
{
    if scanned.len() == 0 {
        Seq::empty()
    } else {
        let m = scanned.last();
        modules_direct_imports(scanned.drop_last(), bundled, ms) + body_direct_imports(
            m.1.body@,
            bundled,
            m.0@,
            m.2@,
            ms,
        )
    }
}

/// Inserting two runs of names is inserting the first, then the second.
pub proof fn lemma_insert_all_concat(acc: Seq<Seq<char>>, xs: Seq<Seq<char>>, ys: Seq<Seq<char>>)
    ensures
        insert_all(acc, xs + ys) == insert_all(insert_all(acc, xs), ys),
    decreases ys.len(),
{
    if ys.len() == 0 {
        assert(xs + ys =~= xs);
    } else {
        lemma_insert_all_concat(acc, xs, ys.drop_last());
        assert((xs + ys).drop_last() =~= xs + ys.drop_last());
        assert((xs + ys).last() == ys.last());
    }
}

/// A module of `modules` has the name `name`.
fn is_bundled_name(modules: &Vec<BundleModule>, name: &str) -> (r: bool)
    ensures
        r == module_named(modules@, name@),
{
    let mut i: usize = 0;
    while i < modules.len()
        invariant
            i <= modules.len(),
            forall|j: int| 0 <= j < i ==> (#[trigger] modules@[j]).0@ != name@,
        decreases modules.len() - i,
    {
        if str_eq(modules[i].0.as_str(), name) {
            proof {
                assert(modules@[i as int].0@ == name@);
            }
            return true;
        }
        i += 1;
    }
    false
}

/// `set` extended by each of `names`, in order.
fn insert_each(set: &mut IndexSet<String>, names: Vec<String>)
    ensures
        index_set_items(*final(set)) == insert_all(index_set_items(*old(set)), views(names@)),
{
    let ghost start = index_set_items(*set);
    let mut i: usize = 0;
    proof {
        assert(views(names@).subrange(0, 0) =~= Seq::<Seq<char>>::empty());
    }
    while i < names.len()
        invariant
            i <= names.len(),
            index_set_items(*set) == insert_all(start, views(names@).subrange(0, i as int)),
        decreases names.len() - i,
    {
        proof {
            let t = views(names@).subrange(0, i + 1);
            assert(t.drop_last() =~= views(names@).subrange(0, i as int));
            assert(t.last() == names@[i as int]@);
        }
        let _ = index_set_insert(set, copy_string(&names[i]));
        i += 1;
    }
    proof {
        assert(views(names@).subrange(0, names@.len() as int) =~= views(names@));
    }
}

impl HybridStaticBundler {
    /// Some statement of the function body imports (see `body_has_imports`).
    pub fn function_has_imports(body: &Vec<Stmt>) -> (r: bool)
        ensures
            r == body_has_imports(body@),
        decreases body,
    {
        let mut i: usize = 0;
        while i < body.len()
            invariant
                i <= body.len(),
                !body_has_imports(body@.subrange(0, i as int)),
            decreases body.len() - i,
        {
            proof {
                assert(decreases_to!(body => body@));
                assert(decreases_to!(body@ => body@[i as int]));
                let t = body@.subrange(0, i + 1);
                assert(t.drop_last() =~= body@.subrange(0, i as int));
                assert(t.last() == body@[i as int]);
            }
            let found = match &body[i] {
                Stmt::Import(_) => true,
                Stmt::ImportFrom { .. } => true,
                Stmt::If { body: b, elif_else_clauses, .. } => Self::function_has_imports(b)
                    || Self::clauses_have_imports(elif_else_clauses),
                Stmt::While { body: b, .. } => Self::function_has_imports(b),
                Stmt::For { body: b, .. } => Self::function_has_imports(b),
                Stmt::Try { body: b, handlers, orelse, finalbody } => Self::function_has_imports(b)
                    || Self::handlers_have_imports(handlers) || Self::function_has_imports(orelse)
                    || Self::function_has_imports(finalbody),
                Stmt::With { body: b, .. } => Self::function_has_imports(b),
                Stmt::FunctionDef { body: b, .. } => Self::function_has_imports(b),
                _ => false,
            };
            proof {
                assert(found == stmt_has_imports(body@[i as int]));
            }
            if found {
                proof {
                    lemma_body_has_imports_extends(body@, i as int);
                }
                return true;
            }
            i += 1;
        }
        proof {
            assert(body@.subrange(0, body@.len() as int) =~= body@);
        }
        false
    }

    fn clauses_have_imports(clauses: &Vec<ElifElseClause>) -> (r: bool)
        ensures
            r == clauses_have_imports(clauses@),
        decreases clauses,
    {
        let mut i: usize = 0;
        while i < clauses.len()
            invariant
                i <= clauses.len(),
                !clauses_have_imports(clauses@.subrange(0, i as int)),
            decreases clauses.len() - i,
        {
            proof {
                assert(decreases_to!(clauses => clauses@));
                assert(decreases_to!(clauses@ => clauses@[i as int]));
                assert(decreases_to!(clauses@[i as int] => clauses@[i as int].body));
                let t = clauses@.subrange(0, i + 1);
                assert(t.drop_last() =~= clauses@.subrange(0, i as int));
                assert(t.last() == clauses@[i as int]);
            }
            if Self::function_has_imports(&clauses[i].body) {
                proof {
                    lemma_clauses_have_imports_extends(clauses@, i as int);
                }
                return true;
            }
            i += 1;
        }
        proof {
            assert(clauses@.subrange(0, clauses@.len() as int) =~= clauses@);
        }
        false
    }

    fn handlers_have_imports(handlers: &Vec<ExceptHandler>) -> (r: bool)
        ensures
            r == handlers_have_imports(handlers@),
        decreases handlers,
    {
        let mut i: usize = 0;
        while i < handlers.len()
            invariant
                i <= handlers.len(),
                !handlers_have_imports(handlers@.subrange(0, i as int)),
            decreases handlers.len() - i,
        {
            proof {
                assert(decreases_to!(handlers => handlers@));
                assert(decreases_to!(handlers@ => handlers@[i as int]));
                assert(decreases_to!(handlers@[i as int] => handlers@[i as int].body));
                let t = handlers@.subrange(0, i + 1);
                assert(t.drop_last() =~= handlers@.subrange(0, i as int));
                assert(t.last() == handlers@[i as int]);
            }
            if Self::function_has_imports(&handlers[i].body) {
                proof {
                    lemma_handlers_have_imports_extends(handlers@, i as int);
                }
                return true;
            }
            i += 1;
        }
        proof {
            assert(handlers@.subrange(0, handlers@.len() as int) =~= handlers@);
        }
        false
    }

    /// Some method of the class body imports.
    pub fn class_has_method_imports(&self, class_body: &Vec<Stmt>) -> (r: bool)
        ensures
            r == methods_have_imports(class_body@),
    {
        let mut i: usize = 0;
        while i < class_body.len()
            invariant
                i <= class_body.len(),
                forall|j: int|
                    0 <= j < i ==> !(#[trigger] class_body@[j] matches Stmt::FunctionDef { body, .. }
                        && body_has_imports(body@)),
            decreases class_body.len() - i,
        {
            if let Stmt::FunctionDef { body, .. } = &class_body[i] {
                if Self::function_has_imports(body) {
                    return true;
                }
            }
            i += 1;
        }
        false
    }

    /// A top-level function, or a method of a top-level class, of the module imports.
    pub fn module_has_function_scoped_imports(&self, ast: &ModModule) -> (r: bool)
        ensures
            r == has_function_scoped_imports(ast.body@),
    {
        let mut i: usize = 0;
        while i < ast.body.len()
            invariant
                i <= ast.body.len(),
                forall|j: int|
                    0 <= j < i ==> !match #[trigger] ast.body@[j] {
                        Stmt::FunctionDef { body, .. } => body_has_imports(body@),
                        Stmt::ClassDef { body, .. } => methods_have_imports(body@),
                        _ => false,
                    },
            decreases ast.body.len() - i,
        {
            let found = match &ast.body[i] {
                Stmt::FunctionDef { body, .. } => Self::function_has_imports(body),
                Stmt::ClassDef { body, .. } => self.class_has_method_imports(body),
                _ => false,
            };
            if found {
                return true;
            }
            i += 1;
        }
        false
    }

    /// The names of the modules that import inside functions, each once, in order.
    pub fn find_modules_with_function_imports(&self, modules: &Vec<BundleModule>) -> (r: IndexSet<String>)
        ensures
            index_set_items(r) == insert_all(Seq::empty(), modules_with_function_imports(modules@)),
    {
        let mut found = index_set_new();
        let mut i: usize = 0;
        proof {
            assert(modules@.subrange(0, 0) =~= Seq::<BundleModule>::empty());
        }
        while i < modules.len()
            invariant
                i <= modules.len(),
                index_set_items(found) == insert_all(
                    Seq::empty(),
                    modules_with_function_imports(modules@.subrange(0, i as int)),
                ),
            decreases modules.len() - i,
        {
            let ghost pre = modules_with_function_imports(modules@.subrange(0, i as int));
            proof {
                let t = modules@.subrange(0, i + 1);
                assert(t.drop_last() =~= modules@.subrange(0, i as int));
                assert(t.last() == modules@[i as int]);
            }
            if self.module_has_function_scoped_imports(&modules[i].1) {
                let _ = index_set_insert(&mut found, copy_string(&modules[i].0));
                proof {
                    assert(pre.push(modules@[i as int].0@).drop_last() =~= pre);
                    assert(modules_with_function_imports(modules@.subrange(0, i + 1)) =~= pre.push(
                        modules@[i as int].0@,
                    ));
                }
            } else {
                proof {
                    assert(modules_with_function_imports(modules@.subrange(0, i + 1)) =~= pre);
                }
            }
            i += 1;
        }
        proof {
            assert(modules@.subrange(0, modules@.len() as int) =~= modules@);
        }
        found
    }

    /// The parent packages of `imported_module` that are modules of the
    /// bundle, outermost first, added to `directly_imported`: importing a
    /// submodule imports its packages.
    pub fn mark_parent_packages_as_imported(
        &self,
        imported_module: &str,
        modules: &Vec<BundleModule>,
        directly_imported: &mut IndexSet<String>,
    )
        ensures
            index_set_items(*final(directly_imported)) == insert_all(
                index_set_items(*old(directly_imported)),
                bundled_parents(imported_module@, modules@),
            ),
    {
        let parts = split_char(imported_module, '.');
        let ghost ps = views(parts@);
        proof {
            crate::text::lemma_split_nonempty(imported_module@, '.');
        }
        let ghost start = index_set_items(*directly_imported);
        let mut parent = String::new();
        let mut i: usize = 0;
        proof {
            assert(bundled_prefixes(ps, 0, modules@) =~= Seq::<Seq<char>>::empty());
        }
        while i < parts.len()
            invariant
                ps == views(parts@),
                ps == split_on(imported_module@, '.'),
                ps.len() >= 1,
                i <= parts.len(),
                i == 0 ==> parent@ == Seq::<char>::empty(),
                i > 0 ==> parent@ == dotted_prefix(ps, i as int),
                index_set_items(*directly_imported) == insert_all(
                    start,
                    bundled_prefixes(ps, if i + 1 < ps.len() { i as nat } else { (ps.len() - 1) as nat }, modules@),
                ),
                i + 1 < ps.len() || i == ps.len() - 1 || i == ps.len(),
            decreases parts.len() - i,
        {
            if i > 0 {
                parent.append(".");
            }
            parent.append(parts[i].as_str());
            proof {
                reveal_strlit(".");
                let t = ps.subrange(0, i + 1);
                if i == 0 {
                    assert(t =~= seq![ps[0]]);
                    assert(parent@ =~= ps[0]);
                    assert(dotted_prefix(ps, 1) == t[0]);
                    assert(parent@ =~= dotted_prefix(ps, 1));
                } else {
                    assert(t.drop_last() =~= ps.subrange(0, i as int));
                    assert(t.last() == ps[i as int]);
                    assert(parent@ =~= dotted_prefix(ps, i + 1));
                }
            }
            if i + 1 < parts.len() && is_bundled_name(modules, parent.as_str()) {
                let ghost before = index_set_items(*directly_imported);
                let _ = index_set_insert(directly_imported, copy_string(&parent));
                proof {
                    let pre = bundled_prefixes(ps, i as nat, modules@);
                    assert(bundled_prefixes(ps, (i + 1) as nat, modules@) =~= pre.push(parent@));
                    assert(pre.push(parent@).drop_last() =~= pre);
                    assert(insert_all(start, pre.push(parent@)) == push_unique(insert_all(start, pre), parent@));
                }
            } else {
                proof {
                    if i + 1 < ps.len() {
                        assert(bundled_prefixes(ps, (i + 1) as nat, modules@) =~= bundled_prefixes(
                            ps,
                            i as nat,
                            modules@,
                        ));
                    }
                }
            }
            i += 1;
        }
    }

    /// Each `from base import x` whose `base.x` is a module of the bundle
    /// adds `base.x` to `directly_imported`.
    fn insert_imported_submodules(
        base: &str,
        names: &Vec<Alias>,
        modules: &Vec<BundleModule>,
        directly_imported: &mut IndexSet<String>,
    )
        ensures
            index_set_items(*final(directly_imported)) == insert_all(
                index_set_items(*old(directly_imported)),
                submodules_imported(base@, names@, modules@),
            ),
    {
        let ghost start = index_set_items(*directly_imported);
        let mut i: usize = 0;
        proof {
            reveal_strlit(".");
            assert(names@.subrange(0, 0) =~= Seq::<Alias>::empty());
        }
        while i < names.len()
            invariant
                i <= names.len(),
                index_set_items(*directly_imported) == insert_all(
                    start,
                    submodules_imported(base@, names@.subrange(0, i as int), modules@),
                ),
            decreases names.len() - i,
        {
            let ghost pre = submodules_imported(base@, names@.subrange(0, i as int), modules@);
            proof {
                let t = names@.subrange(0, i + 1);
                assert(t.drop_last() =~= names@.subrange(0, i as int));
                assert(t.last() == names@[i as int]);
            }
            let mut full = base.to_owned();
            full.append(".");
            full.append(names[i].name.as_str());
            if is_bundled_name(modules, full.as_str()) {
                let _ = index_set_insert(directly_imported, copy_string(&full));
                proof {
                    assert(submodules_imported(base@, names@.subrange(0, i + 1), modules@) =~= pre.push(
                        full@,
                    ));
                    assert(pre.push(full@).drop_last() =~= pre);
                }
            } else {
                proof {
                    assert(submodules_imported(base@, names@.subrange(0, i + 1), modules@) =~= pre);
                }
            }
            i += 1;
        }
        proof {
            assert(names@.subrange(0, names@.len() as int) =~= names@);
        }
    }

    /// The modules of the bundle that the statement, in `current_module` at
    /// `importer_path`, imports directly, added to `directly_imported` (see
    /// `stmt_direct_imports`).
    pub fn collect_direct_imports(
        &self,
        stmt: &Stmt,
        current_module: &str,
        importer_path: &str,
        modules: &Vec<BundleModule>,
        directly_imported: &mut IndexSet<String>,
    )
        ensures
            index_set_items(*final(directly_imported)) == insert_all(
                index_set_items(*old(directly_imported)),
                stmt_direct_imports(*stmt, self.bundled(), current_module@, importer_path@, modules@),
            ),
    {
        match stmt {
            Stmt::Import(names) => {
                let ghost start = index_set_items(*directly_imported);
                let mut i: usize = 0;
                proof {
                    assert(names@.subrange(0, 0) =~= Seq::<Alias>::empty());
                }
                while i < names.len()
                    invariant
                        i <= names.len(),
                        index_set_items(*directly_imported) == insert_all(
                            start,
                            imported_directly(names@.subrange(0, i as int), modules@),
                        ),
                    decreases names.len() - i,
                {
                    let ghost pre = imported_directly(names@.subrange(0, i as int), modules@);
                    proof {
                        let t = names@.subrange(0, i + 1);
                        assert(t.drop_last() =~= names@.subrange(0, i as int));
                        assert(t.last() == names@[i as int]);
                    }
                    let imported_module = names[i].name.as_str();
                    if is_bundled_name(modules, imported_module) {
                        let ghost n = imported_module@;
                        let _ = index_set_insert(directly_imported, to_owned_name(imported_module));
                        proof {
                            assert(pre.push(n).drop_last() =~= pre);
                            assert(insert_all(start, pre.push(n)) == push_unique(insert_all(start, pre), n));
                            assert(index_set_items(*directly_imported) == insert_all(start, pre.push(n)));
                        }
                        if contains_char(imported_module, '.') {
                            self.mark_parent_packages_as_imported(imported_module, modules, directly_imported);
                            proof {
                                lemma_insert_all_concat(start, pre.push(n), bundled_parents(n, modules@));
                                assert(pre + (seq![n] + bundled_parents(n, modules@)) =~= pre.push(n)
                                    + bundled_parents(n, modules@));
                            }
                            proof {
                                assert(imported_directly(names@.subrange(0, i + 1), modules@) =~= pre.push(n)
                                    + bundled_parents(n, modules@));
                            }
                        } else {
                            proof {
                                assert(imported_directly(names@.subrange(0, i + 1), modules@) =~= pre.push(n));
                            }
                        }
                    } else {
                        proof {
                            assert(imported_directly(names@.subrange(0, i + 1), modules@) =~= pre);
                        }
                    }
                    i += 1;
                }
                proof {
                    assert(names@.subrange(0, names@.len() as int) =~= names@);
                }
            },
            Stmt::ImportFrom { module: Some(m), names, .. } => {
                Self::insert_imported_submodules(m.as_str(), names, modules, directly_imported);
            },
            Stmt::ImportFrom { module: None, names, level } => {
                if *level > 0 {
                    self.collect_direct_relative_imports(*level, names, current_module, importer_path, modules, directly_imported);
                }
            },
            _ => {},
        }
    }

    /// For `from . import x` in `current_module` at `importer_path`: each `x`
    /// whose full name under the resolved package is a module of the bundle
    /// is added to `directly_imported`.
    pub fn collect_direct_relative_imports(
        &self,
        level: u32,
        names: &Vec<Alias>,
        current_module: &str,
        importer_path: &str,
        modules: &Vec<BundleModule>,
        directly_imported: &mut IndexSet<String>,
    )
        ensures
            index_set_items(*final(directly_imported)) == insert_all(
                index_set_items(*old(directly_imported)),
                match relative_import_target(self.bundled(), level, None, current_module@, Some(importer_path@)) {
                    Some(base) => submodules_imported(base, names@, modules@),
                    None => Seq::empty(),
                },
            ),
    {
        let no_module: Option<String> = None;
        let resolved = self.resolve_relative_import_with_context(level, &no_module, current_module, Some(importer_path));
        match resolved {
            Some(base_module) => {
                Self::insert_imported_submodules(base_module.as_str(), names, modules, directly_imported);
            },
            None => {},
        }
    }

    /// The modules of the bundle that the top-level statements of each
    /// module import directly, each once, in order.
    pub fn find_directly_imported_modules(
        &self,
        modules: &Vec<BundleModule>,
        _entry_module_name: &str,
    ) -> (r: IndexSet<String>)
        ensures
            index_set_items(r) == insert_all(
                Seq::empty(),
                modules_direct_imports(modules@, self.bundled(), modules@),
            ),
    {
        let mut directly_imported = index_set_new();
        let mut i: usize = 0;
        proof {
            assert(modules@.subrange(0, 0) =~= Seq::<BundleModule>::empty());
        }
        while i < modules.len()
            invariant
                i <= modules.len(),
                index_set_items(directly_imported) == insert_all(
                    Seq::empty(),
                    modules_direct_imports(modules@.subrange(0, i as int), self.bundled(), modules@),
                ),
            decreases modules.len() - i,
        {
            let ghost pre = modules_direct_imports(modules@.subrange(0, i as int), self.bundled(), modules@);
            let module_name = &modules[i].0;
            let body = &modules[i].1.body;
            let importer_path = &modules[i].2;
            let mut k: usize = 0;
            proof {
                assert(body@.subrange(0, 0) =~= Seq::<Stmt>::empty());
                assert(pre + body_direct_imports(body@.subrange(0, 0), self.bundled(), module_name@, importer_path@, modules@) =~= pre);
            }
            while k < body.len()
                invariant
                    k <= body.len(),
                    index_set_items(directly_imported) == insert_all(
                        Seq::empty(),
                        pre + body_direct_imports(
                            body@.subrange(0, k as int),
                            self.bundled(),
                            module_name@,
                            importer_path@,
                            modules@,
                        ),
                    ),
                decreases body.len() - k,
            {
                let ghost mid = body_direct_imports(
                    body@.subrange(0, k as int),
                    self.bundled(),
                    module_name@,
                    importer_path@,
                    modules@,
                );
                let ghost add = stmt_direct_imports(body@[k as int], self.bundled(), module_name@, importer_path@, modules@);
                self.collect_direct_imports(&body[k], module_name.as_str(), importer_path.as_str(), modules, &mut directly_imported);
                proof {
                    let t = body@.subrange(0, k + 1);
                    assert(t.drop_last() =~= body@.subrange(0, k as int));
                    assert(t.last() == body@[k as int]);
                    lemma_insert_all_concat(Seq::empty(), pre + mid, add);
                    assert(pre + mid + add =~= pre + (mid + add));
                }
                k += 1;
            }
            proof {
                assert(body@.subrange(0, body@.len() as int) =~= body@);
                let t = modules@.subrange(0, i + 1);
                assert(t.drop_last() =~= modules@.subrange(0, i as int));
                assert(t.last() == modules@[i as int]);
            }
            i += 1;
        }
        proof {
            assert(modules@.subrange(0, modules@.len() as int) =~= modules@);
        }
        directly_imported
    }
}

/// A copy of the name.
fn to_owned_name(s: &str) -> (r: String)
    ensures
        r@ == s@,
{
    s.to_owned()
}

/// A body that imports stays one when it is read past its `i`-th statement.
proof fn lemma_body_has_imports_extends(body: Seq<Stmt>, i: int)
    requires
        0 <= i < body.len(),
        stmt_has_imports(body[i]),
    ensures
        body_has_imports(body),
    decreases body.len(),
{
    if i < body.len() - 1 {
        lemma_body_has_imports_extends(body.drop_last(), i);
    }
}

proof fn lemma_clauses_have_imports_extends(cs: Seq<ElifElseClause>, i: int)
    requires
        0 <= i < cs.len(),
        body_has_imports(cs[i].body@),
    ensures
        clauses_have_imports(cs),
    decreases cs.len(),
{
    if i < cs.len() - 1 {
        lemma_clauses_have_imports_extends(cs.drop_last(), i);
    }
}

proof fn lemma_handlers_have_imports_extends(hs: Seq<ExceptHandler>, i: int)
    requires
        0 <= i < hs.len(),
        body_has_imports(hs[i].body@),
    ensures
        handlers_have_imports(hs),
    decreases hs.len(),
{
    if i < hs.len() - 1 {
        lemma_handlers_have_imports_extends(hs.drop_last(), i);
    }
}

} // verus!
