//! Emitting the bundle's imports: which preserved imports are third-party or
//! standard-library, which of them only serve alias assignments, the import
//! statements written for them, and filtering imports out of module code.
use vstd::prelude::*;

use indexmap::{IndexMap, IndexSet};

use crate::ast::{alias_local_name, local_name, Alias, Expr, ExprContext, ModModule, Stmt};
use crate::discovery::lemma_insert_mirrors_push;
use crate::orchestrator::{dotted_prefix, push_unique};
use crate::resolver::root_module;
use crate::collections::{
    index_set_contains, index_set_insert, index_set_items, index_set_new,
    index_set_shift_remove,
};
use crate::dependency_graph::ModuleNode;
use crate::order::{sort_names, sorted_names};
use crate::resolver::{ImportType, ModuleResolver};
use crate::text::{
    copy_range, copy_string, has_prefix, join_strings, lemma_split_nonempty, split_char, split_on,
    starts_with, str_eq, to_string, views,
};

verus! {

/// How a module is bundled, by the way it is imported.
#[derive(Debug, Clone, Copy, PartialEq, Eq, Structural)]
pub enum ImportStrategy {
    /// Imported with `import module`: it needs a namespace object.
    ModuleImport,
    /// Imported with `from module import items`: its code is inlined.
    FromImport,
    /// Not imported directly (a dependency of other modules).
    Dependency,
}

/// An import alias found in the bundled code: the module it imports, whether
/// it was given an explicit `as` name, and whether it is a `from` import.
#[derive(Debug)]
pub struct ImportAlias {
    pub module_name: String,
    pub has_explicit_alias: bool,
    pub is_from_import: bool,
}

/// `char::is_alphanumeric` holds of `c` (Unicode letters and numbers).
pub uninterp spec fn unicode_alphanumeric(c: char) -> bool;

/// `char::is_alphanumeric`: whether `c` is alphabetic or numeric in Unicode;
/// the ASCII letters and digits are, space, `.` and `_` are not.
#[verifier::external_body]
pub(crate) fn is_alphanumeric(c: char) -> (r: bool)
    ensures
        r == unicode_alphanumeric(c),
        ('a' <= c <= 'z' || 'A' <= c <= 'Z' || '0' <= c <= '9') ==> r,
        (c == ' ' || c == '.' || c == '_') ==> !r,
{
    c.is_alphanumeric()
}

/// A module name: not empty, no space, only alphanumeric characters, `_` and `.`.
pub open spec fn valid_module_name(name: Seq<char>) -> bool {
    name.len() > 0 && !name.contains(' ') && forall|i: int|
        0 <= i < name.len() ==> (unicode_alphanumeric(#[trigger] name[i]) || name[i] == '_'
            || name[i] == '.')
}

/// The sets of preserved imports: third-party and standard-library, and those
/// moved out of them to be imported for alias assignments.
pub type ImportSetsView = (Set<Seq<char>>, Set<Seq<char>>, Set<Seq<char>>, Set<Seq<char>>);

/// One alias considered: an explicit, non-`from` alias of a module among the
/// third-party imports (else the standard-library ones) moves that module to
/// the aliased ones.
pub open spec fn alias_step(st: ImportSetsView, a: (Seq<char>, bool, bool)) -> ImportSetsView {
    let (m, explicit, from) = a;
    if !explicit || from {
        st
    } else if st.0.contains(m) {
        (st.0.remove(m), st.1, st.2.insert(m), st.3)
    } else if st.1.contains(m) {
        (st.0, st.1.remove(m), st.2, st.3.insert(m))
    } else {
        st
    }
}

/// The aliases considered in order.
pub open spec fn alias_steps(st: ImportSetsView, aliases: Seq<(Seq<char>, bool, bool)>) -> ImportSetsView
    decreases aliases.len(),
{
    if aliases.len() == 0 {
        st
    } else {
        alias_step(alias_steps(st, aliases.drop_last()), aliases.last())
    }
}

/// The alias recorded under `key`: the first entry with that key.
pub open spec fn alias_for_key(entries: Seq<(String, ImportAlias)>, key: Seq<char>) -> (Seq<char>, bool, bool)
    decreases entries.len(),
{
    if entries.len() == 0 {
        (Seq::empty(), false, false)
    } else if entries[0].0@ == key {
        (entries[0].1.module_name@, entries[0].1.has_explicit_alias, entries[0].1.is_from_import)
    } else {
        alias_for_key(entries.drop_first(), key)
    }
}

/// The keys of the alias entries.
pub open spec fn alias_keys(entries: Seq<(String, ImportAlias)>) -> Seq<Seq<char>> {
    entries.map_values(|e: (String, ImportAlias)| e.0@)
}

/// The aliases of `entries` in the order of the keys `ks`.
pub open spec fn aliases_in_order(entries: Seq<(String, ImportAlias)>, ks: Seq<Seq<char>>) -> Seq<
    (Seq<char>, bool, bool),
> {
    ks.map_values(|k: Seq<char>| alias_for_key(entries, k))
}

/// The aliases of `names` an `import` keeps: those whose module is not removed.
pub open spec fn kept_import_aliases(names: Seq<Alias>, removed: Set<Seq<char>>) -> Seq<Alias>
    decreases names.len(),
{
    if names.len() == 0 {
        Seq::empty()
    } else {
        kept_import_aliases(names.drop_last(), removed) + if !removed.contains(names.last().name@) {
            seq![names.last()]
        } else {
            Seq::empty()
        }
    }
}

/// The aliases of `names` a `from` import keeps: those whose bound name is not removed.
pub open spec fn kept_from_aliases(names: Seq<Alias>, removed: Set<Seq<char>>) -> Seq<Alias>
    decreases names.len(),
{
    if names.len() == 0 {
        Seq::empty()
    } else {
        kept_from_aliases(names.drop_last(), removed) + if !removed.contains(
            alias_local_name(names.last()),
        ) {
            seq![names.last()]
        } else {
            Seq::empty()
        }
    }
}

/// A `from` import is kept unless it is from `__future__` (hoisted to the top
/// of the bundle) or its module is removed; relative imports without a module are kept.
pub open spec fn keeps_from_module(module: Option<String>, removed: Set<Seq<char>>) -> bool {
    match module {
        Some(m) => m@ != "__future__"@ && !removed.contains(m@),
        None => true,
    }
}

/// `b` is the statements `a` with the removed imports filtered out: an import
/// keeps its aliases not removed and goes when none is left; a `from` import
/// also goes when its module is; other statements stay.
pub open spec fn imports_filtered(a: Seq<Stmt>, b: Seq<Stmt>, removed: Set<Seq<char>>) -> bool
    decreases a.len(),
{
    if a.len() == 0 {
        b.len() == 0
    } else {
        match a.last() {
            Stmt::Import(names) => {
                let kept = kept_import_aliases(names@, removed);
                if kept.len() > 0 {
                    b.len() > 0 && imports_filtered(a.drop_last(), b.drop_last(), removed) && (
                    b.last() matches Stmt::Import(n2) && n2@ == kept)
                } else {
                    imports_filtered(a.drop_last(), b, removed)
                }
            },
            Stmt::ImportFrom { module, names, level } => {
                let kept = kept_from_aliases(names@, removed);
                if keeps_from_module(module, removed) && kept.len() > 0 {
                    b.len() > 0 && imports_filtered(a.drop_last(), b.drop_last(), removed) && (
                    b.last() matches Stmt::ImportFrom { module: m2, names: n2, level: l2 } && m2
                        == module && l2 == level && n2@ == kept)
                } else {
                    imports_filtered(a.drop_last(), b, removed)
                }
            },
            _ => b.len() > 0 && imports_filtered(a.drop_last(), b.drop_last(), removed) && b.last()
                == a.last(),
        }
    }
}

/// The part of the bundler that writes the bundle's preserved imports.
pub struct CodeEmitter {
    resolver: ModuleResolver,
    preserve_comments: bool,
    preserve_type_hints: bool,
    future_imports: IndexSet<String>,
    created_namespaces: IndexSet<String>,
    init_modules: IndexSet<String>,
}

impl CodeEmitter {
    /// The resolver the emitter classifies imports with.
    pub closed spec fn resolver_view(self) -> ModuleResolver {
        self.resolver
    }

    /// The `__future__` features collected, in order.
    pub closed spec fn future_features(self) -> Seq<Seq<char>> {
        index_set_items(self.future_imports)
    }

    /// The namespace objects created so far, in order.
    pub closed spec fn created_namespaces(self) -> Seq<Seq<char>> {
        index_set_items(self.created_namespaces)
    }

    /// The modules whose code comes from a package's `__init__.py`, in order.
    pub closed spec fn init_module_names(self) -> Seq<Seq<char>> {
        index_set_items(self.init_modules)
    }

    /// An emitter classifying imports with `resolver`.
    pub fn new(resolver: ModuleResolver, preserve_comments: bool, preserve_type_hints: bool) -> (r:
        Self)
        ensures
            r.resolver_view() == resolver,
            r.future_features() == Seq::<Seq<char>>::empty(),
            r.created_namespaces() == Seq::<Seq<char>>::empty(),
            r.init_module_names() == Seq::<Seq<char>>::empty(),
    {
        CodeEmitter {
            resolver,
            preserve_comments,
            preserve_type_hints,
            future_imports: index_set_new(),
            created_namespaces: index_set_new(),
            init_modules: index_set_new(),
        }
    }

    /// Records that the code of `module_name` comes from a package's `__init__.py`.
    pub fn add_init_module(&mut self, module_name: String)
        ensures
            final(self).init_module_names() == push_unique(old(self).init_module_names(), module_name@),
            final(self).future_features() == old(self).future_features(),
            final(self).created_namespaces() == old(self).created_namespaces(),
            final(self).resolver_view() == old(self).resolver_view(),
    {
        let _ = index_set_insert(&mut self.init_modules, module_name);
    }

    /// Whether the code of `module_name` comes from a package's `__init__.py`.
    pub fn is_init_py_module(&self, module_name: &str) -> (r: bool)
        ensures
            r == self.init_module_names().contains(module_name@),
    {
        index_set_contains(&self.init_modules, module_name)
    }

    /// Adds a `__future__` feature the bundle needs.
    pub(crate) fn add_future_feature(&mut self, feature: String)
        ensures
            final(self).future_features() == push_unique(old(self).future_features(), feature@),
            final(self).resolver_view() == old(self).resolver_view(),
            final(self).created_namespaces() == old(self).created_namespaces(),
    {
        let _ = index_set_insert(&mut self.future_imports, feature);
    }

    /// Whether the namespace object `name` was already created.
    pub(crate) fn has_created_namespace(&self, name: &str) -> (r: bool)
        ensures
            r == self.created_namespaces().contains(name@),
    {
        index_set_contains(&self.created_namespaces, name)
    }

    /// Records that the namespace object `name` was created.
    pub(crate) fn add_created_namespace(&mut self, name: String)
        ensures
            final(self).created_namespaces() == push_unique(old(self).created_namespaces(), name@),
            final(self).future_features() == old(self).future_features(),
            final(self).resolver_view() == old(self).resolver_view(),
    {
        let _ = index_set_insert(&mut self.created_namespaces, name);
    }

    /// Where the import `name` comes from, by the emitter's resolver.
    pub(crate) fn classify(&self, name: &str) -> (r: ImportType)
        ensures
            r == self.resolver_view().classification(name@),
    {
        self.resolver.classify_import(name)
    }

    /// The `__future__` features collected, in order.
    pub(crate) fn future_feature_list(&self) -> (r: Vec<String>)
        ensures
            views(r@) == self.future_features(),
    {
        crate::collections::index_set_to_vec(&self.future_imports)
    }

    /// Adds `import` to the third-party or standard-library imports, by its
    /// classification; first-party and `__future__` imports are skipped.
    fn classify_and_add_import(
        &self,
        import: &str,
        third_party_imports: &mut IndexSet<String>,
        stdlib_imports: &mut IndexSet<String>,
    )
        ensures
            index_set_items(*final(third_party_imports)) == if import@ != "__future__"@
                && self.resolver.classification(import@) == ImportType::ThirdParty {
                crate::orchestrator::push_unique(index_set_items(*old(third_party_imports)), import@)
            } else {
                index_set_items(*old(third_party_imports))
            },
            index_set_items(*final(stdlib_imports)) == if import@ != "__future__"@
                && self.resolver.classification(import@) == ImportType::StandardLibrary {
                crate::orchestrator::push_unique(index_set_items(*old(stdlib_imports)), import@)
            } else {
                index_set_items(*old(stdlib_imports))
            },
    {
        proof {
            reveal_strlit("__future__");
        }
        if str_eq(import, "__future__") {
            return;
        }
        match self.resolver.classify_import(import) {
            ImportType::ThirdParty => {
                let _ = index_set_insert(third_party_imports, to_string(import));
            },
            ImportType::StandardLibrary => {
                let _ = index_set_insert(stdlib_imports, to_string(import));
            },
            ImportType::FirstParty => {},
        }
    }

    /// Moves the modules imported with an explicit alias (`import numpy as
    /// np`, not `from` imports) out of the preserved imports, considering the
    /// aliases in the order of their keys; returns the modules moved out of
    /// the third-party and of the standard-library imports.
    pub fn filter_aliased_imports(
        &self,
        third_party_imports: &mut IndexSet<String>,
        stdlib_imports: &mut IndexSet<String>,
        import_aliases: &Vec<(String, ImportAlias)>,
    ) -> (r: (IndexSet<String>, IndexSet<String>))
        ensures
            exists|ks: Seq<Seq<char>>|
                #![trigger sorted_names(ks, false)]
                sorted_names(ks, false) && ks.to_multiset() == alias_keys(import_aliases@).to_multiset()
                    && alias_steps(
                    (
                        index_set_items(*old(third_party_imports)).to_set(),
                        index_set_items(*old(stdlib_imports)).to_set(),
                        Set::empty(),
                        Set::empty(),
                    ),
                    aliases_in_order(import_aliases@, ks),
                ) == (
                    index_set_items(*final(third_party_imports)).to_set(),
                    index_set_items(*final(stdlib_imports)).to_set(),
                    index_set_items(r.0).to_set(),
                    index_set_items(r.1).to_set(),
                ),
    {
        let mut keys: Vec<String> = Vec::new();
        let mut i: usize = 0;
        while i < import_aliases.len()
            invariant
                i <= import_aliases.len(),
                views(keys@) == alias_keys(import_aliases@).subrange(0, i as int),
            decreases import_aliases.len() - i,
        {
            let ghost before = views(keys@);
            keys.push(copy_string(&import_aliases[i].0));
            proof {
                assert(views(keys@) =~= before.push(import_aliases@[i as int].0@));
                assert(alias_keys(import_aliases@).subrange(0, i + 1) =~= alias_keys(
                    import_aliases@,
                ).subrange(0, i as int).push(import_aliases@[i as int].0@));
                assert(views(keys@) =~= alias_keys(import_aliases@).subrange(0, i + 1));
            }
            i += 1;
        }
        proof {
            assert(alias_keys(import_aliases@).subrange(0, import_aliases@.len() as int)
                =~= alias_keys(import_aliases@));
        }
        let sorted_keys = sort_names(keys, false);
        let ghost ks = views(sorted_keys@);
        let ghost start = (
            index_set_items(*third_party_imports).to_set(),
            index_set_items(*stdlib_imports).to_set(),
            Set::<Seq<char>>::empty(),
            Set::<Seq<char>>::empty(),
        );
        let mut aliased_third_party = index_set_new();
        let mut aliased_stdlib = index_set_new();
        let mut j: usize = 0;
        proof {
            assert(aliases_in_order(import_aliases@, ks.subrange(0, 0)) =~= Seq::<
                (Seq<char>, bool, bool),
            >::empty());
            assert(index_set_items(aliased_third_party).to_set() =~= Set::<Seq<char>>::empty());
            assert(index_set_items(aliased_stdlib).to_set() =~= Set::<Seq<char>>::empty());
        }
        while j < sorted_keys.len()
            invariant
                j <= sorted_keys.len(),
                ks == views(sorted_keys@),
                alias_steps(start, aliases_in_order(import_aliases@, ks.subrange(0, j as int))) == (
                    index_set_items(*third_party_imports).to_set(),
                    index_set_items(*stdlib_imports).to_set(),
                    index_set_items(aliased_third_party).to_set(),
                    index_set_items(aliased_stdlib).to_set(),
                ),
            decreases sorted_keys.len() - j,
        {
            let ghost st = alias_steps(start, aliases_in_order(import_aliases@, ks.subrange(0, j as int)));
            let (module_name, explicit, from) = Self::alias_for(import_aliases, sorted_keys[j].as_str());
            proof {
                let t = aliases_in_order(import_aliases@, ks.subrange(0, j + 1));
                assert(t.drop_last() =~= aliases_in_order(import_aliases@, ks.subrange(0, j as int)));
                assert(t.last() == alias_for_key(import_aliases@, ks[j as int]));
            }
            if explicit && !from {
                if index_set_contains(third_party_imports, module_name.as_str()) {
                    let ghost a0 = index_set_items(aliased_third_party);
                    let _ = index_set_insert(&mut aliased_third_party, copy_string(&module_name));
                    let _ = index_set_shift_remove(third_party_imports, module_name.as_str());
                    proof {
                        assert(index_set_items(aliased_third_party).to_set() =~= a0.to_set().insert(
                            module_name@,
                        )) by {
                            if a0.contains(module_name@) {
                                assert(a0.to_set().contains(module_name@));
                            } else {
                                assert(index_set_items(aliased_third_party) == a0.push(module_name@));
                                assert forall|x| #[trigger] a0.push(module_name@).to_set().contains(x)
                                    <==> a0.to_set().insert(module_name@).contains(x) by {
                                    if a0.push(module_name@).to_set().contains(x) {
                                        let k = choose|k: int| 0 <= k < a0.len() + 1 && a0.push(module_name@)[k] == x;
                                        if k < a0.len() {
                                            assert(a0[k] == x);
                                        }
                                    }
                                    if a0.to_set().contains(x) {
                                        let k = choose|k: int| 0 <= k < a0.len() && a0[k] == x;
                                        assert(a0.push(module_name@)[k] == x);
                                    }
                                    if x == module_name@ {
                                        assert(a0.push(module_name@)[a0.len() as int] == x);
                                    }
                                }
                            }
                        }
                    }
                } else if index_set_contains(stdlib_imports, module_name.as_str()) {
                    let ghost a0 = index_set_items(aliased_stdlib);
                    let _ = index_set_insert(&mut aliased_stdlib, copy_string(&module_name));
                    let _ = index_set_shift_remove(stdlib_imports, module_name.as_str());
                    proof {
                        assert(index_set_items(aliased_stdlib).to_set() =~= a0.to_set().insert(
                            module_name@,
                        )) by {
                            if a0.contains(module_name@) {
                                assert(a0.to_set().contains(module_name@));
                            } else {
                                assert(index_set_items(aliased_stdlib) == a0.push(module_name@));
                                assert forall|x| #[trigger] a0.push(module_name@).to_set().contains(x)
                                    <==> a0.to_set().insert(module_name@).contains(x) by {
                                    if a0.push(module_name@).to_set().contains(x) {
                                        let k = choose|k: int| 0 <= k < a0.len() + 1 && a0.push(module_name@)[k] == x;
                                        if k < a0.len() {
                                            assert(a0[k] == x);
                                        }
                                    }
                                    if a0.to_set().contains(x) {
                                        let k = choose|k: int| 0 <= k < a0.len() && a0[k] == x;
                                        assert(a0.push(module_name@)[k] == x);
                                    }
                                    if x == module_name@ {
                                        assert(a0.push(module_name@)[a0.len() as int] == x);
                                    }
                                }
                            }
                        }
                    }
                }
            }
            j += 1;
        }
        proof {
            assert(ks.subrange(0, ks.len() as int) =~= ks);
        }
        (aliased_third_party, aliased_stdlib)
    }

    /// The alias recorded under `key` (the first entry with that key).
    fn alias_for(entries: &Vec<(String, ImportAlias)>, key: &str) -> (r: (String, bool, bool))
        ensures
            (r.0@, r.1, r.2) == alias_for_key(entries@, key@),
    {
        let mut i: usize = 0;
        proof {
            assert(entries@.skip(0) =~= entries@);
        }
        while i < entries.len()
            invariant
                i <= entries.len(),
                alias_for_key(entries@, key@) == alias_for_key(entries@.skip(i as int), key@),
            decreases entries.len() - i,
        {
            proof {
                let t = entries@.skip(i as int);
                assert(t[0] == entries@[i as int]);
                assert(t.drop_first() =~= entries@.skip(i + 1));
            }
            if str_eq(entries[i].0.as_str(), key) {
                let a = &entries[i].1;
                return (copy_string(&a.module_name), a.has_explicit_alias, a.is_from_import);
            }
            i += 1;
        }
        proof {
            assert(entries@.skip(i as int) =~= Seq::<(String, ImportAlias)>::empty());
        }
        (String::new(), false, false)
    }

    /// Whether `module_name` is a module name (see `valid_module_name`).
    pub fn is_valid_module_name(&self, module_name: &str) -> (r: bool)
        ensures
            r == valid_module_name(module_name@),
    {
        let n = module_name.unicode_len();
        if n == 0 {
            return false;
        }
        let mut i: usize = 0;
        while i < n
            invariant
                n == module_name@.len(),
                i <= n,
                forall|j: int|
                    0 <= j < i ==> (unicode_alphanumeric(#[trigger] module_name@[j])
                        || module_name@[j] == '_' || module_name@[j] == '.'),
                forall|j: int| 0 <= j < i ==> #[trigger] module_name@[j] != ' ',
            decreases n - i,
        {
            let c = module_name.get_char(i);
            if c == ' ' {
                return false;
            }
            if !(is_alphanumeric(c) || c == '_' || c == '.') {
                return false;
            }
            i += 1;
        }
        true
    }

    /// The statement `import module_name`, unless `module_name` is already an
    /// import statement's text or is not a module name.
    pub fn create_import_statement(&self, module_name: &str) -> (r: Option<Stmt>)
        ensures
            r is Some <==> !has_prefix(module_name@, "import "@) && !has_prefix(
                module_name@,
                "from "@,
            ) && valid_module_name(module_name@),
            r matches Some(s) ==> (s matches Stmt::Import(names) && names@.len() == 1
                && names@[0].name@ == module_name@ && names@[0].asname is None),
    {
        if starts_with(module_name, "import ") || starts_with(module_name, "from ") {
            None
        } else if self.is_valid_module_name(module_name) {
            let mut names: Vec<Alias> = Vec::new();
            names.push(Alias { name: to_string(module_name), asname: None });
            Some(Stmt::Import(names))
        } else {
            None
        }
    }

    /// The statements with the imports of the names in `removed` filtered
    /// out (see `imports_filtered`).
    pub fn filter_import_statements(&self, statements: Vec<Stmt>, removed: &IndexSet<String>) -> (r:
        Vec<Stmt>)
        ensures
            imports_filtered(statements@, r@, index_set_items(*removed).to_set()),
    {
        let ghost orig = statements@;
        let ghost rm = index_set_items(*removed).to_set();
        let mut rest = statements;
        let mut out: Vec<Stmt> = Vec::new();
        let mut k: usize = 0;
        let n = rest.len();
        proof {
            assert(orig.skip(0) =~= orig);
        }
        while rest.len() > 0
            invariant
                n == orig.len(),
                k <= orig.len(),
                rest@ == orig.skip(k as int),
                rm == index_set_items(*removed).to_set(),
                imports_filtered(orig.subrange(0, k as int), out@, rm),
            decreases rest.len(),
        {
            let s = rest.remove(0);
            let ghost s0 = s;
            let ghost before = out@;
            proof {
                assert(s0 == orig[k as int]);
                let a = orig.subrange(0, k + 1);
                assert(a.drop_last() =~= orig.subrange(0, k as int));
                assert(a.last() == s0);
            }
            match s {
                Stmt::Import(names) => {
                    self.process_import_statement(names, removed, &mut out);
                },
                Stmt::ImportFrom { module, names, level } => {
                    self.process_import_from_statement(module, names, level, removed, &mut out);
                },
                other => {
                    out.push(other);
                    proof {
                        assert(out@.drop_last() =~= before);
                    }
                },
            }
            proof {
                assert(orig.skip(k + 1) =~= rest@);
            }
            k += 1;
        }
        proof {
            assert(orig.subrange(0, k as int) =~= orig);
        }
        out
    }

    /// Appends the `import` with its kept aliases, if any is kept.
    fn process_import_statement(
        &self,
        names: Vec<Alias>,
        removed: &IndexSet<String>,
        filtered_statements: &mut Vec<Stmt>,
    )
        ensures
            ({
                let kept = kept_import_aliases(names@, index_set_items(*removed).to_set());
                if kept.len() > 0 {
                    final(filtered_statements)@.len() == old(filtered_statements)@.len() + 1
                        && final(filtered_statements)@.drop_last() == old(filtered_statements)@
                        && (final(filtered_statements)@.last() matches Stmt::Import(n2) && n2@ == kept)
                } else {
                    final(filtered_statements)@ == old(filtered_statements)@
                }
            }),
    {
        let filtered_aliases = self.filter_import_aliases(names, removed);
        if filtered_aliases.len() > 0 {
            let ghost before = filtered_statements@;
            filtered_statements.push(Stmt::Import(filtered_aliases));
            proof {
                assert(filtered_statements@.drop_last() =~= before);
            }
        }
    }

    /// Appends the `from` import with its kept aliases, if its module is kept
    /// and any alias is.
    fn process_import_from_statement(
        &self,
        module: Option<String>,
        names: Vec<Alias>,
        level: u32,
        removed: &IndexSet<String>,
        filtered_statements: &mut Vec<Stmt>,
    )
        ensures
            ({
                let rm = index_set_items(*removed).to_set();
                let kept = kept_from_aliases(names@, rm);
                if keeps_from_module(module, rm) && kept.len() > 0 {
                    final(filtered_statements)@.len() == old(filtered_statements)@.len() + 1
                        && final(filtered_statements)@.drop_last() == old(filtered_statements)@
                        && (final(filtered_statements)@.last() matches Stmt::ImportFrom {
                        module: m2,
                        names: n2,
                        level: l2,
                    } && m2 == module && l2 == level && n2@ == kept)
                } else {
                    final(filtered_statements)@ == old(filtered_statements)@
                }
            }),
    {
        if self.should_keep_import_from_module(&module, removed) {
            let filtered_aliases = self.filter_import_from_aliases(names, removed);
            if filtered_aliases.len() > 0 {
                let ghost before = filtered_statements@;
                filtered_statements.push(
                    Stmt::ImportFrom { module, names: filtered_aliases, level },
                );
                proof {
                    assert(filtered_statements@.drop_last() =~= before);
                }
            }
        }
    }

    /// The aliases of an `import` whose module is not removed.
    fn filter_import_aliases(&self, aliases: Vec<Alias>, removed: &IndexSet<String>) -> (r: Vec<Alias>)
        ensures
            r@ == kept_import_aliases(aliases@, index_set_items(*removed).to_set()),
    {
        let ghost orig = aliases@;
        let ghost rm = index_set_items(*removed).to_set();
        let mut rest = aliases;
        let mut out: Vec<Alias> = Vec::new();
        let mut k: usize = 0;
        let n = rest.len();
        proof {
            assert(orig.skip(0) =~= orig);
        }
        while rest.len() > 0
            invariant
                n == orig.len(),
                k <= orig.len(),
                rest@ == orig.skip(k as int),
                rm == index_set_items(*removed).to_set(),
                out@ == kept_import_aliases(orig.subrange(0, k as int), rm),
            decreases rest.len(),
        {
            let a = rest.remove(0);
            proof {
                assert(a == orig[k as int]);
                let t = orig.subrange(0, k + 1);
                assert(t.drop_last() =~= orig.subrange(0, k as int));
                assert(t.last() == a);
            }
            let ghost before = out@;
            if !Self::in_set(removed, a.name.as_str()) {
                out.push(a);
                proof {
                    assert(out@ =~= before + seq![orig[k as int]]);
                }
            } else {
                proof {
                    assert(before =~= before + Seq::<Alias>::empty());
                }
            }
            proof {
                assert(orig.skip(k + 1) =~= rest@);
            }
            k += 1;
        }
        proof {
            assert(orig.subrange(0, k as int) =~= orig);
        }
        out
    }

    /// The aliases of a `from` import whose bound name is not removed.
    fn filter_import_from_aliases(&self, aliases: Vec<Alias>, removed: &IndexSet<String>) -> (r: Vec<
        Alias,
    >)
        ensures
            r@ == kept_from_aliases(aliases@, index_set_items(*removed).to_set()),
    {
        let ghost orig = aliases@;
        let ghost rm = index_set_items(*removed).to_set();
        let mut rest = aliases;
        let mut out: Vec<Alias> = Vec::new();
        let mut k: usize = 0;
        let n = rest.len();
        proof {
            assert(orig.skip(0) =~= orig);
        }
        while rest.len() > 0
            invariant
                n == orig.len(),
                k <= orig.len(),
                rest@ == orig.skip(k as int),
                rm == index_set_items(*removed).to_set(),
                out@ == kept_from_aliases(orig.subrange(0, k as int), rm),
            decreases rest.len(),
        {
            let a = rest.remove(0);
            proof {
                assert(a == orig[k as int]);
                let t = orig.subrange(0, k + 1);
                assert(t.drop_last() =~= orig.subrange(0, k as int));
                assert(t.last() == a);
            }
            let ghost before = out@;
            let keep = !Self::in_set(removed, local_name(&a).as_str());
            if keep {
                out.push(a);
                proof {
                    assert(out@ =~= before + seq![orig[k as int]]);
                }
            } else {
                proof {
                    assert(before =~= before + Seq::<Alias>::empty());
                }
            }
            proof {
                assert(orig.skip(k + 1) =~= rest@);
            }
            k += 1;
        }
        proof {
            assert(orig.subrange(0, k as int) =~= orig);
        }
        out
    }

    /// Whether a `from` import's module is kept.
    fn should_keep_import_from_module(&self, module: &Option<String>, removed: &IndexSet<String>) -> (r:
        bool)
        ensures
            r == keeps_from_module(*module, index_set_items(*removed).to_set()),
    {
        proof {
            reveal_strlit("__future__");
        }
        match module {
            Some(m) => {
                if str_eq(m.as_str(), "__future__") {
                    return false;
                }
                !Self::in_set(removed, m.as_str())
            },
            None => true,
        }
    }

    /// Whether `name` is in the set.
    fn in_set(set: &IndexSet<String>, name: &str) -> (r: bool)
        ensures
            r == index_set_items(*set).to_set().contains(name@),
    {
        let r = index_set_contains(set, name);
        proof {
            let s = index_set_items(*set);
            if s.to_set().contains(name@) {
                let k = choose|k: int| 0 <= k < s.len() && s[k] == name@;
                assert(s.contains(name@));
            }
        }
        r
    }
}

// ---------------------------------------------------------------------------
// Import strategies
// ---------------------------------------------------------------------------

/// A map from module names to how they are bundled.
pub type StrategyMap = IndexMap<String, ImportStrategy>;

/// What a map from module names to import strategies holds.
pub uninterp spec fn strategy_map_entries(m: StrategyMap) -> Map<Seq<char>, ImportStrategy>;

/// `IndexMap::new`: an empty map.
#[verifier::external_body]
fn strategy_map_new() -> (r: StrategyMap)
    ensures
        strategy_map_entries(r).dom() == Set::<Seq<char>>::empty(),
{
    IndexMap::new()
}

/// `IndexMap::insert`: maps `key` to `value`, replacing what it mapped to.
#[verifier::external_body]
fn strategy_map_insert(m: &mut StrategyMap, key: String, value: ImportStrategy)
    ensures
        strategy_map_entries(*final(m)) == strategy_map_entries(*old(m)).insert(key@, value),
{
    m.insert(key, value);
}

/// `IndexMap::contains_key`: whether `key` is mapped.
#[verifier::external_body]
fn strategy_map_contains_key(m: &StrategyMap, key: &str) -> (r: bool)
    ensures
        r == strategy_map_entries(*m).contains_key(key@),
{
    m.contains_key(key)
}

/// `name` is a module of the program.
pub open spec fn first_party(r: ModuleResolver, name: Seq<char>) -> bool {
    r.classification(name) == ImportType::FirstParty
}

/// The first-party parent packages made of the first `1 .. upto - 1` parts,
/// not yet given a strategy, imported as modules.
pub open spec fn parent_module_strategies(
    m: Map<Seq<char>, ImportStrategy>,
    parts: Seq<Seq<char>>,
    upto: nat,
    r: ModuleResolver,
) -> Map<Seq<char>, ImportStrategy>
    decreases upto,
{
    if upto <= 1 {
        m
    } else {
        let m1 = parent_module_strategies(m, parts, (upto - 1) as nat, r);
        let p = dotted_prefix(parts, upto - 1);
        if first_party(r, p) && !m1.contains_key(p) {
            m1.insert(p, ImportStrategy::ModuleImport)
        } else {
            m1
        }
    }
}

/// `import a.b, c`: each first-party module (then its parent packages) is
/// imported as a module.
pub open spec fn import_strategies(
    m: Map<Seq<char>, ImportStrategy>,
    names: Seq<Alias>,
    r: ModuleResolver,
) -> Map<Seq<char>, ImportStrategy>
    decreases names.len(),
{
    if names.len() == 0 {
        m
    } else {
        let m1 = import_strategies(m, names.drop_last(), r);
        let n = names.last().name@;
        if first_party(r, n) {
            parent_module_strategies(
                m1.insert(n, ImportStrategy::ModuleImport),
                split_on(n, '.'),
                split_on(n, '.').len(),
                r,
            )
        } else {
            m1
        }
    }
}

/// The imported names of `from module import ...` that are first-party
/// submodules are imported as modules.
pub open spec fn submodule_strategies(
    m: Map<Seq<char>, ImportStrategy>,
    module: Seq<char>,
    names: Seq<Alias>,
    r: ModuleResolver,
) -> Map<Seq<char>, ImportStrategy>
    decreases names.len(),
{
    if names.len() == 0 {
        m
    } else {
        let m1 = submodule_strategies(m, module, names.drop_last(), r);
        let full = module + "."@ + names.last().name@;
        if first_party(r, full) {
            m1.insert(full, ImportStrategy::ModuleImport)
        } else {
            m1
        }
    }
}

/// `from module import ...` of a first-party module: the module is inlined,
/// its imported submodules are imported as modules.
pub open spec fn from_import_strategies(
    m: Map<Seq<char>, ImportStrategy>,
    module: Option<String>,
    names: Seq<Alias>,
    r: ModuleResolver,
) -> Map<Seq<char>, ImportStrategy> {
    match module {
        None => m,
        Some(md) => if first_party(r, md@) {
            submodule_strategies(m.insert(md@, ImportStrategy::FromImport), md@, names, r)
        } else {
            m
        },
    }
}

/// The module a relative import in the package `init` names for one imported name.
pub open spec fn relative_target(init: Seq<char>, module: Option<String>, name: Seq<char>) -> Seq<
    char,
> {
    match module {
        Some(md) => init + "."@ + md@,
        None => init + "."@ + name,
    }
}

/// A relative import in a package's `__init__.py`: each first-party target
/// is imported as a module.
pub open spec fn init_relative_strategies(
    m: Map<Seq<char>, ImportStrategy>,
    module: Option<String>,
    names: Seq<Alias>,
    init: Seq<char>,
    r: ModuleResolver,
) -> Map<Seq<char>, ImportStrategy>
    decreases names.len(),
{
    if names.len() == 0 {
        m
    } else {
        let m1 = init_relative_strategies(m, module, names.drop_last(), init, r);
        let target = relative_target(init, module, names.last().name@);
        if first_party(r, target) {
            m1.insert(target, ImportStrategy::ModuleImport)
        } else {
            m1
        }
    }
}

/// The strategies the imports of the entry module's statement `s` give.
pub open spec fn entry_stmt_strategies(
    m: Map<Seq<char>, ImportStrategy>,
    s: Stmt,
    r: ModuleResolver,
) -> Map<Seq<char>, ImportStrategy> {
    match s {
        Stmt::Import(names) => import_strategies(m, names@, r),
        Stmt::ImportFrom { module, names, .. } => from_import_strategies(m, module, names@, r),
        _ => m,
    }
}

/// The strategies the imports of the statement `s` of the package `init`'s
/// `__init__.py` give.
pub open spec fn init_stmt_strategies(
    m: Map<Seq<char>, ImportStrategy>,
    s: Stmt,
    init: Seq<char>,
    r: ModuleResolver,
) -> Map<Seq<char>, ImportStrategy> {
    match s {
        Stmt::Import(names) => import_strategies(m, names@, r),
        Stmt::ImportFrom { module, names, level } => if level > 0 {
            init_relative_strategies(m, module, names@, init, r)
        } else {
            from_import_strategies(m, module, names@, r)
        },
        _ => m,
    }
}

pub open spec fn entry_body_strategies(
    m: Map<Seq<char>, ImportStrategy>,
    body: Seq<Stmt>,
    r: ModuleResolver,
) -> Map<Seq<char>, ImportStrategy>
    decreases body.len(),
{
    if body.len() == 0 {
        m
    } else {
        entry_stmt_strategies(entry_body_strategies(m, body.drop_last(), r), body.last(), r)
    }
}

pub open spec fn init_body_strategies(
    m: Map<Seq<char>, ImportStrategy>,
    body: Seq<Stmt>,
    init: Seq<char>,
    r: ModuleResolver,
) -> Map<Seq<char>, ImportStrategy>
    decreases body.len(),
{
    if body.len() == 0 {
        m
    } else {
        init_stmt_strategies(init_body_strategies(m, body.drop_last(), init, r), body.last(), init, r)
    }
}

/// The strategies the `__init__.py` files of `inits` (package name and code) give.
pub open spec fn inits_strategies(
    m: Map<Seq<char>, ImportStrategy>,
    inits: Seq<(String, ModModule)>,
    r: ModuleResolver,
) -> Map<Seq<char>, ImportStrategy>
    decreases inits.len(),
{
    if inits.len() == 0 {
        m
    } else {
        init_body_strategies(
            inits_strategies(m, inits.drop_last(), r),
            inits.last().1.body@,
            inits.last().0@,
            r,
        )
    }
}

/// Packages given a strategy are imported as modules (their `__init__.py`
/// runs in a namespace).
pub open spec fn packages_as_modules(
    m: Map<Seq<char>, ImportStrategy>,
    inits: Seq<(String, ModModule)>,
) -> Map<Seq<char>, ImportStrategy>
    decreases inits.len(),
{
    if inits.len() == 0 {
        m
    } else {
        let m1 = packages_as_modules(m, inits.drop_last());
        if m1.contains_key(inits.last().0@) {
            m1.insert(inits.last().0@, ImportStrategy::ModuleImport)
        } else {
            m1
        }
    }
}

impl CodeEmitter {
    /// Whether `module_name` is a module of the program.
    fn is_first_party_module(&self, module_name: &str) -> (r: bool)
        ensures
            r == first_party(self.resolver, module_name@),
    {
        match self.resolver.classify_import(module_name) {
            ImportType::FirstParty => true,
            _ => false,
        }
    }

    /// How each first-party module is bundled, from the imports of the entry
    /// module and of the packages' `__init__.py` files (`init_modules`, the
    /// packages with their code, in module order): a module imported with
    /// `import` gets a namespace, one imported from with `from` is inlined,
    /// and packages given a strategy get a namespace.
    pub fn analyze_import_strategies(
        &self,
        entry_body: &Vec<Stmt>,
        init_modules: &Vec<(String, ModModule)>,
    ) -> (r: StrategyMap)
        ensures
            strategy_map_entries(r) == packages_as_modules(
                inits_strategies(
                    entry_body_strategies(Map::empty(), entry_body@, self.resolver_view()),
                    init_modules@,
                    self.resolver_view(),
                ),
                init_modules@,
            ),
    {
        let mut strategies = strategy_map_new();
        proof {
            assert(strategy_map_entries(strategies) =~= Map::<Seq<char>, ImportStrategy>::empty());
        }
        let ghost r = self.resolver;
        let mut i: usize = 0;
        proof {
            assert(entry_body@.subrange(0, 0) =~= Seq::<Stmt>::empty());
        }
        while i < entry_body.len()
            invariant
                i <= entry_body.len(),
                r == self.resolver,
                strategy_map_entries(strategies) == entry_body_strategies(
                    Map::empty(),
                    entry_body@.subrange(0, i as int),
                    r,
                ),
            decreases entry_body.len() - i,
        {
            proof {
                let t = entry_body@.subrange(0, i + 1);
                assert(t.drop_last() =~= entry_body@.subrange(0, i as int));
                assert(t.last() == entry_body@[i as int]);
            }
            match &entry_body[i] {
                Stmt::Import(names) => self.process_import_strategies(names, &mut strategies),
                Stmt::ImportFrom { module, names, .. } => self.process_import_from_strategies(
                    module,
                    names,
                    &mut strategies,
                ),
                _ => {},
            }
            i += 1;
        }
        proof {
            assert(entry_body@.subrange(0, entry_body@.len() as int) =~= entry_body@);
        }
        let ghost m0 = strategy_map_entries(strategies);
        let mut k: usize = 0;
        proof {
            assert(init_modules@.subrange(0, 0) =~= Seq::<(String, ModModule)>::empty());
        }
        while k < init_modules.len()
            invariant
                k <= init_modules.len(),
                r == self.resolver,
                strategy_map_entries(strategies) == inits_strategies(
                    m0,
                    init_modules@.subrange(0, k as int),
                    r,
                ),
            decreases init_modules.len() - k,
        {
            proof {
                let t = init_modules@.subrange(0, k + 1);
                assert(t.drop_last() =~= init_modules@.subrange(0, k as int));
                assert(t.last() == init_modules@[k as int]);
            }
            self.process_init_module_statements(
                &init_modules[k].1.body,
                init_modules[k].0.as_str(),
                &mut strategies,
            );
            k += 1;
        }
        proof {
            assert(init_modules@.subrange(0, init_modules@.len() as int) =~= init_modules@);
        }
        let ghost m1 = strategy_map_entries(strategies);
        let mut j: usize = 0;
        proof {
            assert(init_modules@.subrange(0, 0) =~= Seq::<(String, ModModule)>::empty());
        }
        while j < init_modules.len()
            invariant
                j <= init_modules.len(),
                strategy_map_entries(strategies) == packages_as_modules(
                    m1,
                    init_modules@.subrange(0, j as int),
                ),
            decreases init_modules.len() - j,
        {
            proof {
                let t = init_modules@.subrange(0, j + 1);
                assert(t.drop_last() =~= init_modules@.subrange(0, j as int));
                assert(t.last() == init_modules@[j as int]);
            }
            let name = init_modules[j].0.as_str();
            if strategy_map_contains_key(&strategies, name) {
                strategy_map_insert(&mut strategies, to_string(name), ImportStrategy::ModuleImport);
            }
            j += 1;
        }
        proof {
            assert(init_modules@.subrange(0, init_modules@.len() as int) =~= init_modules@);
        }
        strategies
    }

    /// The strategies the imports of a package's `__init__.py` give.
    fn process_init_module_statements(
        &self,
        statements: &Vec<Stmt>,
        module_name: &str,
        strategies: &mut StrategyMap,
    )
        ensures
            strategy_map_entries(*final(strategies)) == init_body_strategies(
                strategy_map_entries(*old(strategies)),
                statements@,
                module_name@,
                self.resolver,
            ),
    {
        let mut i: usize = 0;
        proof {
            assert(statements@.subrange(0, 0) =~= Seq::<Stmt>::empty());
        }
        while i < statements.len()
            invariant
                i <= statements.len(),
                strategy_map_entries(*strategies) == init_body_strategies(
                    strategy_map_entries(*old(strategies)),
                    statements@.subrange(0, i as int),
                    module_name@,
                    self.resolver,
                ),
            decreases statements.len() - i,
        {
            proof {
                let t = statements@.subrange(0, i + 1);
                assert(t.drop_last() =~= statements@.subrange(0, i as int));
                assert(t.last() == statements@[i as int]);
            }
            match &statements[i] {
                Stmt::Import(names) => self.process_import_strategies(names, strategies),
                Stmt::ImportFrom { module, names, level } => {
                    if *level > 0 {
                        self.process_init_py_relative_strategies(module, names, module_name, strategies);
                    } else {
                        self.process_import_from_strategies(module, names, strategies);
                    }
                },
                _ => {},
            }
            i += 1;
        }
        proof {
            assert(statements@.subrange(0, statements@.len() as int) =~= statements@);
        }
    }

    /// `import ...`: first-party modules and their parent packages get a namespace.
    fn process_import_strategies(&self, names: &Vec<Alias>, strategies: &mut StrategyMap)
        ensures
            strategy_map_entries(*final(strategies)) == import_strategies(
                strategy_map_entries(*old(strategies)),
                names@,
                self.resolver,
            ),
    {
        let mut i: usize = 0;
        proof {
            assert(names@.subrange(0, 0) =~= Seq::<Alias>::empty());
        }
        while i < names.len()
            invariant
                i <= names.len(),
                strategy_map_entries(*strategies) == import_strategies(
                    strategy_map_entries(*old(strategies)),
                    names@.subrange(0, i as int),
                    self.resolver,
                ),
            decreases names.len() - i,
        {
            proof {
                let t = names@.subrange(0, i + 1);
                assert(t.drop_last() =~= names@.subrange(0, i as int));
                assert(t.last() == names@[i as int]);
            }
            let module_name = names[i].name.as_str();
            if self.is_first_party_module(module_name) {
                strategy_map_insert(strategies, to_string(module_name), ImportStrategy::ModuleImport);
                self.set_parent_packages_as_module_import(module_name, strategies);
            }
            i += 1;
        }
        proof {
            assert(names@.subrange(0, names@.len() as int) =~= names@);
        }
    }

    /// The first-party parent packages of `module_name` without a strategy get a namespace.
    fn set_parent_packages_as_module_import(&self, module_name: &str, strategies: &mut StrategyMap)
        ensures
            strategy_map_entries(*final(strategies)) == parent_module_strategies(
                strategy_map_entries(*old(strategies)),
                split_on(module_name@, '.'),
                split_on(module_name@, '.').len(),
                self.resolver,
            ),
    {
        let parts = split_char(module_name, '.');
        proof {
            lemma_split_nonempty(module_name@, '.');
        }
        let mut i: usize = 1;
        while i < parts.len()
            invariant
                1 <= i <= parts.len(),
                views(parts@) == split_on(module_name@, '.'),
                strategy_map_entries(*strategies) == parent_module_strategies(
                    strategy_map_entries(*old(strategies)),
                    views(parts@),
                    i as nat,
                    self.resolver,
                ),
            decreases parts.len() - i,
        {
            let prefix = copy_range(&parts, 0, i);
            let parent_module = join_strings(&prefix, ".");
            if self.is_first_party_module(parent_module.as_str()) && !strategy_map_contains_key(
                strategies,
                parent_module.as_str(),
            ) {
                strategy_map_insert(strategies, parent_module, ImportStrategy::ModuleImport);
            }
            i += 1;
        }
    }

    /// `from module import ...` of a first-party module: it is inlined, and
    /// its imported submodules get a namespace.
    fn process_import_from_strategies(
        &self,
        module: &Option<String>,
        names: &Vec<Alias>,
        strategies: &mut StrategyMap,
    )
        ensures
            strategy_map_entries(*final(strategies)) == from_import_strategies(
                strategy_map_entries(*old(strategies)),
                *module,
                names@,
                self.resolver,
            ),
    {
        if let Some(m) = module {
            let module_name = m.as_str();
            if !self.is_first_party_module(module_name) {
                return;
            }
            strategy_map_insert(strategies, to_string(module_name), ImportStrategy::FromImport);
            let ghost start = strategy_map_entries(*strategies);
            let mut i: usize = 0;
            proof {
                assert(names@.subrange(0, 0) =~= Seq::<Alias>::empty());
                reveal_strlit(".");
            }
            while i < names.len()
                invariant
                    i <= names.len(),
                    strategy_map_entries(*strategies) == submodule_strategies(
                        start,
                        module_name@,
                        names@.subrange(0, i as int),
                        self.resolver,
                    ),
                decreases names.len() - i,
            {
                proof {
                    let t = names@.subrange(0, i + 1);
                    assert(t.drop_last() =~= names@.subrange(0, i as int));
                    assert(t.last() == names@[i as int]);
                }
                let mut full_module_name = to_string(module_name);
                full_module_name.append(".");
                full_module_name.append(names[i].name.as_str());
                self.insert_module_import_strategy(full_module_name, strategies);
                i += 1;
            }
            proof {
                assert(names@.subrange(0, names@.len() as int) =~= names@);
            }
        }
    }

    /// A relative import in the `__init__.py` of `init_module_name`: each
    /// first-party target gets a namespace.
    fn process_init_py_relative_strategies(
        &self,
        module: &Option<String>,
        names: &Vec<Alias>,
        init_module_name: &str,
        strategies: &mut StrategyMap,
    )
        ensures
            strategy_map_entries(*final(strategies)) == init_relative_strategies(
                strategy_map_entries(*old(strategies)),
                *module,
                names@,
                init_module_name@,
                self.resolver,
            ),
    {
        let mut i: usize = 0;
        proof {
            assert(names@.subrange(0, 0) =~= Seq::<Alias>::empty());
        }
        while i < names.len()
            invariant
                i <= names.len(),
                strategy_map_entries(*strategies) == init_relative_strategies(
                    strategy_map_entries(*old(strategies)),
                    *module,
                    names@.subrange(0, i as int),
                    init_module_name@,
                    self.resolver,
                ),
            decreases names.len() - i,
        {
            proof {
                let t = names@.subrange(0, i + 1);
                assert(t.drop_last() =~= names@.subrange(0, i as int));
                assert(t.last() == names@[i as int]);
            }
            let target_module = self.resolve_relative_import_target_module(
                module,
                init_module_name,
                names[i].name.as_str(),
            );
            self.set_target_module_strategy(target_module, strategies);
            i += 1;
        }
        proof {
            assert(names@.subrange(0, names@.len() as int) =~= names@);
        }
    }

    /// The module a relative import in the package `init_module_name` names
    /// for the imported name `imported_name`.
    fn resolve_relative_import_target_module(
        &self,
        module: &Option<String>,
        init_module_name: &str,
        imported_name: &str,
    ) -> (r: String)
        ensures
            r@ == relative_target(init_module_name@, *module, imported_name@),
    {
        let mut r = to_string(init_module_name);
        r.append(".");
        match module {
            Some(m) => r.append(m.as_str()),
            None => r.append(imported_name),
        }
        proof {
            reveal_strlit(".");
        }
        r
    }

    /// `target_module` gets a namespace if it is first-party.
    fn set_target_module_strategy(&self, target_module: String, strategies: &mut StrategyMap)
        ensures
            strategy_map_entries(*final(strategies)) == if first_party(self.resolver, target_module@) {
                strategy_map_entries(*old(strategies)).insert(target_module@, ImportStrategy::ModuleImport)
            } else {
                strategy_map_entries(*old(strategies))
            },
    {
        if self.is_first_party_module(target_module.as_str()) {
            strategy_map_insert(strategies, target_module, ImportStrategy::ModuleImport);
        }
    }

    /// `full_module_name` gets a namespace if it is first-party.
    fn insert_module_import_strategy(&self, full_module_name: String, strategies: &mut StrategyMap)
        ensures
            strategy_map_entries(*final(strategies)) == if first_party(self.resolver, full_module_name@) {
                strategy_map_entries(*old(strategies)).insert(full_module_name@, ImportStrategy::ModuleImport)
            } else {
                strategy_map_entries(*old(strategies))
            },
    {
        if self.is_first_party_module(full_module_name.as_str()) {
            strategy_map_insert(strategies, full_module_name, ImportStrategy::ModuleImport);
        }
    }
}

// ---------------------------------------------------------------------------
// Preserved imports
// ---------------------------------------------------------------------------

/// The third-party and standard-library imports after `import` (insertion order).
pub open spec fn classified_step(
    st: (Seq<Seq<char>>, Seq<Seq<char>>),
    import: Seq<char>,
    r: ModuleResolver,
) -> (Seq<Seq<char>>, Seq<Seq<char>>) {
    if import == "__future__"@ {
        st
    } else if r.classification(import) == ImportType::ThirdParty {
        (push_unique(st.0, import), st.1)
    } else if r.classification(import) == ImportType::StandardLibrary {
        (st.0, push_unique(st.1, import))
    } else {
        st
    }
}

pub open spec fn classified_imports(
    st: (Seq<Seq<char>>, Seq<Seq<char>>),
    imports: Seq<Seq<char>>,
    r: ModuleResolver,
) -> (Seq<Seq<char>>, Seq<Seq<char>>)
    decreases imports.len(),
{
    if imports.len() == 0 {
        st
    } else {
        classified_step(classified_imports(st, imports.drop_last(), r), imports.last(), r)
    }
}

/// The third-party and standard-library imports of `ms`, each once, in order.
pub open spec fn modules_classified(ms: Seq<ModuleNode>, r: ModuleResolver) -> (
    Seq<Seq<char>>,
    Seq<Seq<char>>,
)
    decreases ms.len(),
{
    if ms.len() == 0 {
        (Seq::empty(), Seq::empty())
    } else {
        classified_imports(modules_classified(ms.drop_last(), r), views(ms.last().imports@), r)
    }
}

/// The first-party modules the top-level import statement `s` names (a
/// relative import without a module adds the empty name), added to `acc`.
pub open spec fn first_party_step(acc: Seq<Seq<char>>, s: Stmt, r: ModuleResolver) -> Seq<Seq<char>> {
    match s {
        Stmt::Import(names) => first_party_names(acc, names@, r),
        Stmt::ImportFrom { module, level, .. } => match module {
            None => if level > 0 {
                push_unique(acc, Seq::empty())
            } else {
                acc
            },
            Some(m) => if first_party(r, m@) {
                push_unique(acc, m@)
            } else {
                acc
            },
        },
        _ => acc,
    }
}

pub open spec fn first_party_names(acc: Seq<Seq<char>>, names: Seq<Alias>, r: ModuleResolver) -> Seq<
    Seq<char>,
>
    decreases names.len(),
{
    if names.len() == 0 {
        acc
    } else {
        let a = first_party_names(acc, names.drop_last(), r);
        if first_party(r, names.last().name@) {
            push_unique(a, names.last().name@)
        } else {
            a
        }
    }
}

pub open spec fn first_party_of_body(body: Seq<Stmt>, r: ModuleResolver) -> Seq<Seq<char>>
    decreases body.len(),
{
    if body.len() == 0 {
        Seq::empty()
    } else {
        first_party_step(first_party_of_body(body.drop_last(), r), body.last(), r)
    }
}

/// The `module.name` of each name of the `from` imports among `body`, in order.
pub open spec fn specific_imports_of(body: Seq<Stmt>) -> Seq<Seq<char>>
    decreases body.len(),
{
    if body.len() == 0 {
        Seq::empty()
    } else {
        specific_imports_of(body.drop_last()) + match body.last() {
            Stmt::ImportFrom { module: Some(m), names, .. } => names@.map_values(
                |a: Alias| m@ + "."@ + a.name@,
            ),
            _ => Seq::empty(),
        }
    }
}

pub open spec fn specific_imports_of_modules(ms: Seq<ModModule>) -> Seq<Seq<char>>
    decreases ms.len(),
{
    if ms.len() == 0 {
        Seq::empty()
    } else {
        specific_imports_of_modules(ms.drop_last()) + specific_imports_of(ms.last().body@)
    }
}

/// Some specific import `import.name` makes the general import `import` redundant.
pub open spec fn has_specific_import(specific: Seq<Seq<char>>, import: Seq<char>) -> bool {
    exists|i: int| 0 <= i < specific.len() && root_module(#[trigger] specific[i]) == import
}

pub open spec fn not_redundant(imports: Seq<Seq<char>>, specific: Seq<Seq<char>>) -> Seq<Seq<char>>
    decreases imports.len(),
{
    if imports.len() == 0 {
        Seq::empty()
    } else {
        not_redundant(imports.drop_last(), specific) + if has_specific_import(
            specific,
            imports.last(),
        ) {
            Seq::empty()
        } else {
            seq![imports.last()]
        }
    }
}

/// `e` is the dotted expression `parts[0].parts[1]...`, reading all but its
/// last attribute, which has the context `ctx` (a single name is read).
pub open spec fn dotted_expr(e: Expr, parts: Seq<Seq<char>>, ctx: ExprContext) -> bool
    decreases parts.len(),
{
    if parts.len() <= 1 {
        parts.len() == 1 && (e matches Expr::Name { id, ctx: c } && id@ == parts[0] && c
            == ExprContext::Load)
    } else {
        e matches Expr::Attribute { value, attr, ctx: c } && attr@ == parts.last() && c == ctx
            && dotted_expr(*value, parts.drop_last(), ExprContext::Load)
    }
}

/// What survives the redundancy filter was among its input.
proof fn lemma_not_redundant_within(imports: Seq<Seq<char>>, specific: Seq<Seq<char>>)
    ensures
        forall|x: Seq<char>| #[trigger] not_redundant(imports, specific).contains(x) ==> exists|k: int|
            0 <= k < imports.len() && imports[k] == x,
    decreases imports.len(),
{
    if imports.len() > 0 {
        lemma_not_redundant_within(imports.drop_last(), specific);
        assert forall|x: Seq<char>| #[trigger] not_redundant(imports, specific).contains(x) implies exists|k: int|
            0 <= k < imports.len() && imports[k] == x by {
            let r = not_redundant(imports, specific);
            let p = not_redundant(imports.drop_last(), specific);
            let i = choose|i: int| 0 <= i < r.len() && r[i] == x;
            if i < p.len() {
                assert(p[i] == x);
                assert(p.contains(x));
                let k = choose|k: int| 0 <= k < imports.drop_last().len() && imports.drop_last()[k] == x;
                assert(imports[k] == x);
            } else {
                assert(imports[imports.len() - 1] == x);
            }
        }
    }
}

impl CodeEmitter {
    /// The third-party and standard-library imports of the modules, each
    /// once, in order (first-party and `__future__` imports left out).
    pub fn collect_import_sets(&self, modules: &Vec<ModuleNode>) -> (r: (IndexSet<String>, IndexSet<String>))
        ensures
            (index_set_items(r.0), index_set_items(r.1)) == modules_classified(modules@, self.resolver_view()),
    {
        let mut third_party_imports = index_set_new();
        let mut stdlib_imports = index_set_new();
        let mut i: usize = 0;
        proof {
            assert(modules@.subrange(0, 0) =~= Seq::<ModuleNode>::empty());
        }
        while i < modules.len()
            invariant
                i <= modules.len(),
                (index_set_items(third_party_imports), index_set_items(stdlib_imports))
                    == modules_classified(modules@.subrange(0, i as int), self.resolver),
            decreases modules.len() - i,
        {
            let imports = &modules[i].imports;
            let ghost base = modules_classified(modules@.subrange(0, i as int), self.resolver);
            let mut j: usize = 0;
            proof {
                assert(views(imports@).subrange(0, 0) =~= Seq::<Seq<char>>::empty());
            }
            while j < imports.len()
                invariant
                    j <= imports.len(),
                    (index_set_items(third_party_imports), index_set_items(stdlib_imports))
                        == classified_imports(base, views(imports@).subrange(0, j as int), self.resolver),
                decreases imports.len() - j,
            {
                proof {
                    let t = views(imports@).subrange(0, j + 1);
                    assert(t.drop_last() =~= views(imports@).subrange(0, j as int));
                    assert(t.last() == imports@[j as int]@);
                }
                self.classify_and_add_import(imports[j].as_str(), &mut third_party_imports, &mut stdlib_imports);
                j += 1;
            }
            proof {
                assert(views(imports@).subrange(0, imports@.len() as int) =~= views(imports@));
                let t = modules@.subrange(0, i + 1);
                assert(t.drop_last() =~= modules@.subrange(0, i as int));
                assert(t.last() == modules@[i as int]);
            }
            i += 1;
        }
        proof {
            assert(modules@.subrange(0, modules@.len() as int) =~= modules@);
        }
        (third_party_imports, stdlib_imports)
    }

    /// The first-party modules the module's top-level imports name, each
    /// once, in order (relative imports without a module count as the empty name).
    pub fn collect_first_party_imports_from_ast(&self, module: &ModModule) -> (r: IndexSet<String>)
        ensures
            index_set_items(r) == first_party_of_body(module.body@, self.resolver_view()),
    {
        let mut imports = index_set_new();
        let mut i: usize = 0;
        proof {
            assert(module.body@.subrange(0, 0) =~= Seq::<Stmt>::empty());
        }
        while i < module.body.len()
            invariant
                i <= module.body.len(),
                index_set_items(imports) == first_party_of_body(module.body@.subrange(0, i as int), self.resolver),
            decreases module.body.len() - i,
        {
            proof {
                let t = module.body@.subrange(0, i + 1);
                assert(t.drop_last() =~= module.body@.subrange(0, i as int));
                assert(t.last() == module.body@[i as int]);
            }
            match &module.body[i] {
                Stmt::Import(names) => {
                    let ghost base = index_set_items(imports);
                    let mut j: usize = 0;
                    proof {
                        assert(names@.subrange(0, 0) =~= Seq::<Alias>::empty());
                    }
                    while j < names.len()
                        invariant
                            j <= names.len(),
                            index_set_items(imports) == first_party_names(base, names@.subrange(0, j as int), self.resolver),
                        decreases names.len() - j,
                    {
                        proof {
                            let t = names@.subrange(0, j + 1);
                            assert(t.drop_last() =~= names@.subrange(0, j as int));
                            assert(t.last() == names@[j as int]);
                        }
                        if self.is_first_party_module(names[j].name.as_str()) {
                            let _ = index_set_insert(&mut imports, copy_string(&names[j].name));
                        }
                        j += 1;
                    }
                    proof {
                        assert(names@.subrange(0, names@.len() as int) =~= names@);
                    }
                },
                Stmt::ImportFrom { module: m, level, .. } => {
                    match m {
                        None => {
                            if *level > 0 {
                                let empty = String::new();
                                let _ = index_set_insert(&mut imports, empty);
                            }
                        },
                        Some(name) => {
                            if self.is_first_party_module(name.as_str()) {
                                let _ = index_set_insert(&mut imports, copy_string(name));
                            }
                        },
                    }
                },
                _ => {},
            }
            i += 1;
        }
        proof {
            assert(module.body@.subrange(0, module.body@.len() as int) =~= module.body@);
        }
        imports
    }

    /// The general imports that no specific import (`from m import x` in
    /// the modules gives `m.x`) makes redundant, in order.
    pub fn filter_redundant_imports_from_modules(&self, imports: IndexSet<String>, modules: &Vec<ModModule>) -> (r: IndexSet<String>)
        ensures
            index_set_items(r) == not_redundant(
                index_set_items(imports),
                specific_imports_of_modules(modules@),
            ),
    {
        let mut specific: Vec<String> = Vec::new();
        let mut i: usize = 0;
        proof {
            assert(modules@.subrange(0, 0) =~= Seq::<ModModule>::empty());
            reveal_strlit(".");
        }
        while i < modules.len()
            invariant
                i <= modules.len(),
                views(specific@) == specific_imports_of_modules(modules@.subrange(0, i as int)),
            decreases modules.len() - i,
        {
            let body = &modules[i].body;
            let ghost base = views(specific@);
            let mut k: usize = 0;
            proof {
                assert(body@.subrange(0, 0) =~= Seq::<Stmt>::empty());
                assert(base + specific_imports_of(body@.subrange(0, 0)) =~= base);
            }
            while k < body.len()
                invariant
                    k <= body.len(),
                    views(specific@) == base + specific_imports_of(body@.subrange(0, k as int)),
                decreases body.len() - k,
            {
                proof {
                    let t = body@.subrange(0, k + 1);
                    assert(t.drop_last() =~= body@.subrange(0, k as int));
                    assert(t.last() == body@[k as int]);
                }
                self.collect_specific_imports_from_statement(&body[k], &mut specific);
                proof {
                    assert(views(specific@) =~= base + specific_imports_of(body@.subrange(0, k + 1)));
                }
                k += 1;
            }
            proof {
                assert(body@.subrange(0, body@.len() as int) =~= body@);
                let t = modules@.subrange(0, i + 1);
                assert(t.drop_last() =~= modules@.subrange(0, i as int));
                assert(t.last() == modules@[i as int]);
                assert(views(specific@) =~= specific_imports_of_modules(t));
            }
            i += 1;
        }
        proof {
            assert(modules@.subrange(0, modules@.len() as int) =~= modules@);
        }
        let ghost spec_all = views(specific@);
        let ghost items = index_set_items(imports);
        let all = crate::collections::index_set_into_vec(imports);
        let mut filtered_imports = index_set_new();
        let mut j: usize = 0;
        proof {
            assert(items.subrange(0, 0) =~= Seq::<Seq<char>>::empty());
            assert(index_set_items(filtered_imports) =~= not_redundant(items.subrange(0, 0), spec_all));
        }
        while j < all.len()
            invariant
                j <= all.len(),
                views(all@) == items,
                spec_all == views(specific@),
                views(all@).no_duplicates(),
                index_set_items(filtered_imports) == not_redundant(items.subrange(0, j as int), spec_all),
            decreases all.len() - j,
        {
            let import = all[j].as_str();
            let ghost prev = index_set_items(filtered_imports);
            let ghost acc = not_redundant(items.subrange(0, j as int), spec_all);
            proof {
                let t = items.subrange(0, j + 1);
                assert(t.drop_last() =~= items.subrange(0, j as int));
                assert(t.last() == import@);
            }
            if !Self::has_specific(&specific, import) {
                proof {
                    lemma_not_redundant_within(items.subrange(0, j as int), spec_all);
                    if prev.contains(import@) {
                        let k = choose|k: int| 0 <= k < j && items[k] == import@;
                        assert(items[k] == items[j as int]);
                    }
                }
                let _ = index_set_insert(&mut filtered_imports, to_string(import));
                proof {
                    assert(not_redundant(items.subrange(0, j + 1), spec_all) =~= acc.push(import@));
                }
            } else {
                proof {
                    assert(not_redundant(items.subrange(0, j + 1), spec_all) =~= acc);
                }
            }
            j += 1;
        }
        proof {
            assert(items.subrange(0, items.len() as int) =~= items);
        }
        filtered_imports
    }

    /// Whether some specific import's first part is `import`.
    fn has_specific(specific: &Vec<String>, import: &str) -> (r: bool)
        ensures
            r == has_specific_import(views(specific@), import@),
    {
        let mut i: usize = 0;
        while i < specific.len()
            invariant
                i <= specific.len(),
                forall|j: int| 0 <= j < i ==> root_module(#[trigger] views(specific@)[j]) != import@,
            decreases specific.len() - i,
        {
            let root = crate::resolver::root_module_of(specific[i].as_str());
            proof {
                assert(views(specific@)[i as int] == specific@[i as int]@);
            }
            if str_eq(root.as_str(), import) {
                return true;
            }
            i += 1;
        }
        false
    }

    /// Appends the `module.name` of each name a `from module import` names.
    fn collect_specific_imports_from_statement(&self, stmt: &Stmt, specific_imports: &mut Vec<String>)
        ensures
            views(final(specific_imports)@) == views(old(specific_imports)@) + match *stmt {
                Stmt::ImportFrom { module: Some(m), names, .. } => names@.map_values(
                    |a: Alias| m@ + "."@ + a.name@,
                ),
                _ => Seq::empty(),
            },
    {
        proof {
            reveal_strlit(".");
        }
        if let Stmt::ImportFrom { module: Some(m), names, .. } = stmt {
            let ghost start = views(specific_imports@);
            let mut i: usize = 0;
            while i < names.len()
                invariant
                    i <= names.len(),
                    views(specific_imports@) == start + names@.subrange(0, i as int).map_values(
                        |a: Alias| m@ + "."@ + a.name@,
                    ),
                decreases names.len() - i,
            {
                let mut full_name = copy_string(m);
                full_name.append(".");
                full_name.append(names[i].name.as_str());
                let ghost before = views(specific_imports@);
                specific_imports.push(full_name);
                proof {
                    assert(views(specific_imports@) =~= before.push(full_name@));
                    assert(names@.subrange(0, i + 1).map_values(|a: Alias| m@ + "."@ + a.name@)
                        =~= names@.subrange(0, i as int).map_values(|a: Alias| m@ + "."@ + a.name@).push(
                        m@ + "."@ + names@[i as int].name@,
                    ));
                }
                i += 1;
            }
            proof {
                assert(names@.subrange(0, names@.len() as int) =~= names@);
            }
        } else {
            proof {
                assert(views(specific_imports@) =~= views(specific_imports@) + Seq::<Seq<char>>::empty());
            }
        }
    }

    /// The expression `parts[0].parts[1]...` whose last attribute has the
    /// context `ctx` (an assignment target with `Store`).
    pub fn create_dotted_module_expr(parts: &Vec<String>, ctx: ExprContext) -> (r: Expr)
        requires
            parts@.len() > 0,
        ensures
            dotted_expr(r, views(parts@), ctx),
    {
        let mut current = Expr::Name { id: copy_string(&parts[0]), ctx: ExprContext::Load };
        let mut i: usize = 1;
        proof {
            assert(views(parts@).subrange(0, 1) =~= seq![parts@[0]@]);
        }
        while i < parts.len()
            invariant
                1 <= i <= parts.len(),
                dotted_expr(
                    current,
                    views(parts@).subrange(0, i as int),
                    if i == parts.len() { ctx } else { ExprContext::Load },
                ) || i < parts.len(),
                i < parts.len() ==> dotted_expr(current, views(parts@).subrange(0, i as int), ExprContext::Load),
            decreases parts.len() - i,
        {
            let attr_ctx = if i + 1 == parts.len() { ctx } else { ExprContext::Load };
            let ghost prev = current;
            current = Expr::Attribute { value: Box::new(current), attr: copy_string(&parts[i]), ctx: attr_ctx };
            proof {
                let t = views(parts@).subrange(0, i + 1);
                assert(t.drop_last() =~= views(parts@).subrange(0, i as int));
                assert(t.last() == parts@[i as int]@);
            }
            i += 1;
        }
        proof {
            assert(views(parts@).subrange(0, parts@.len() as int) =~= views(parts@));
        }
        current
    }

    /// The assignment target `parts[0].parts[1]...` (its last attribute written).
    pub fn build_dotted_name_expr(parts: &Vec<String>) -> (r: Expr)
        requires
            parts@.len() > 0,
        ensures
            dotted_expr(r, views(parts@), ExprContext::Store),
    {
        Self::create_dotted_module_expr(parts, ExprContext::Store)
    }
}

} // verus!
