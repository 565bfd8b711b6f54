//! How the bundle holds each module: inlined into the bundle's top level,
//! wrapped in an init function, or inlined behind a namespace object.
use vstd::prelude::*;

use indexmap::IndexSet;

use crate::code_generator::{module_side_effects, HybridStaticBundler};
use crate::collections::{index_set_contains, index_set_items};
use crate::import_scan::BundleModule;

verus! {

/// How the bundle holds a module.
#[derive(Debug, Clone, Copy, PartialEq, Eq, Structural)]
pub enum BundleKind {
    /// The entry module: its code comes last, as it is.
    Entry,
    /// Imported as a namespace: inlined, with a namespace object.
    Namespace,
    /// Wrapped in an init function run on first import.
    Wrapped,
    /// Inlined into the bundle's top level.
    Inlined,
}

/// How the bundle holds `m`: the entry module; a module imported as a
/// namespace (a key of `namespaces`); a module with side effects, imported
/// directly or with imports inside functions, wrapped; any other inlined.
pub open spec fn bundle_kind(
    namespaces: Map<Seq<char>, Seq<Seq<char>>>,
    entry: Seq<char>,
    direct: Seq<Seq<char>>,
    function_imports: Seq<Seq<char>>,
    m: BundleModule,
) -> BundleKind {
    if m.0@ == entry {
        BundleKind::Entry
    } else if namespaces.contains_key(m.0@) {
        BundleKind::Namespace
    } else if module_side_effects(m.1.body@) || direct.contains(m.0@) || function_imports.contains(m.0@) {
        BundleKind::Wrapped
    } else {
        BundleKind::Inlined
    }
}

/// The modules of `ms` held as `k`, in order.
pub open spec fn of_kind(
    ms: Seq<BundleModule>,
    namespaces: Map<Seq<char>, Seq<Seq<char>>>,
    entry: Seq<char>,
    direct: Seq<Seq<char>>,
    function_imports: Seq<Seq<char>>,
    k: BundleKind,
) -> Seq<BundleModule>
    decreases ms.len(),
{
    if ms.len() == 0 {
        Seq::empty()
    } else {
        let rest = of_kind(ms.drop_last(), namespaces, entry, direct, function_imports, k);
        if bundle_kind(namespaces, entry, direct, function_imports, ms.last()) == k {
            rest.push(ms.last())
        } else {
            rest
        }
    }
}

/// Every module is held in exactly one way: the modules of each kind add up
/// to all of them.
pub proof fn law_kinds_partition(
    ms: Seq<BundleModule>,
    namespaces: Map<Seq<char>, Seq<Seq<char>>>,
    entry: Seq<char>,
    direct: Seq<Seq<char>>,
    function_imports: Seq<Seq<char>>,
)
    ensures
        of_kind(ms, namespaces, entry, direct, function_imports, BundleKind::Entry).len() + of_kind(
            ms,
            namespaces,
            entry,
            direct,
            function_imports,
            BundleKind::Namespace,
        ).len() + of_kind(ms, namespaces, entry, direct, function_imports, BundleKind::Wrapped).len()
            + of_kind(ms, namespaces, entry, direct, function_imports, BundleKind::Inlined).len()
            == ms.len(),
    decreases ms.len(),
{
    if ms.len() > 0 {
        law_kinds_partition(ms.drop_last(), namespaces, entry, direct, function_imports);
    }
}

/// The modules of `ms` whose kind in `ks` is `k`, in order.
pub open spec fn select(ms: Seq<BundleModule>, ks: Seq<BundleKind>, k: BundleKind) -> Seq<BundleModule>
    decreases ms.len(),
{
    if ms.len() == 0 || ks.len() != ms.len() {
        Seq::empty()
    } else {
        let rest = select(ms.drop_last(), ks.drop_last(), k);
        if ks.last() == k {
            rest.push(ms.last())
        } else {
            rest
        }
    }
}

/// The entries of `gs` whose kind in `ks` is `k`, in order.
pub open spec fn select_globals<G>(gs: Seq<G>, ks: Seq<BundleKind>, k: BundleKind) -> Seq<G>
    decreases gs.len(),
{
    if gs.len() == 0 || ks.len() != gs.len() {
        Seq::empty()
    } else {
        let rest = select_globals(gs.drop_last(), ks.drop_last(), k);
        if ks.last() == k {
            rest.push(gs.last())
        } else {
            rest
        }
    }
}

impl HybridStaticBundler {
    /// How the bundle holds each module (see `bundle_kind`), in order.
    pub fn module_kinds(
        &self,
        modules: &Vec<BundleModule>,
        entry_module_name: &str,
        directly_imported: &IndexSet<String>,
        function_imports: &IndexSet<String>,
    ) -> (r: Vec<BundleKind>)
        ensures
            r@.len() == modules@.len(),
            forall|i: int|
                0 <= i < r@.len() ==> r@[i] == bundle_kind(
                    self.namespace_imports(),
                    entry_module_name@,
                    index_set_items(*directly_imported),
                    index_set_items(*function_imports),
                    #[trigger] modules@[i],
                ),
    {
        let mut kinds: Vec<BundleKind> = Vec::new();
        let mut i: usize = 0;
        while i < modules.len()
            invariant
                i <= modules.len(),
                kinds@.len() == i,
                forall|j: int|
                    0 <= j < i ==> kinds@[j] == bundle_kind(
                        self.namespace_imports(),
                        entry_module_name@,
                        index_set_items(*directly_imported),
                        index_set_items(*function_imports),
                        #[trigger] modules@[j],
                    ),
            decreases modules.len() - i,
        {
            let m = &modules[i];
            let kind = if crate::text::str_eq(m.0.as_str(), entry_module_name) {
                BundleKind::Entry
            } else if self.namespace_importers(m.0.as_str()).is_some() {
                BundleKind::Namespace
            } else if Self::has_side_effects(&m.1) || index_set_contains(directly_imported, m.0.as_str())
                || index_set_contains(function_imports, m.0.as_str()) {
                BundleKind::Wrapped
            } else {
                BundleKind::Inlined
            };
            kinds.push(kind);
            i = i + 1;
        }
        kinds
    }

    /// Splits the modules by how the bundle holds them: the inlined ones,
    /// the wrapped ones and those imported as namespaces, each in order;
    /// the entry module is in none of them.
    pub fn classify_modules(
        &self,
        modules: Vec<BundleModule>,
        entry_module_name: &str,
        directly_imported: &IndexSet<String>,
        function_imports: &IndexSet<String>,
    ) -> (r: (Vec<BundleModule>, Vec<BundleModule>, Vec<BundleModule>))
        ensures
            r.0@ == of_kind(
                modules@,
                self.namespace_imports(),
                entry_module_name@,
                index_set_items(*directly_imported),
                index_set_items(*function_imports),
                BundleKind::Inlined,
            ),
            r.1@ == of_kind(
                modules@,
                self.namespace_imports(),
                entry_module_name@,
                index_set_items(*directly_imported),
                index_set_items(*function_imports),
                BundleKind::Wrapped,
            ),
            r.2@ == of_kind(
                modules@,
                self.namespace_imports(),
                entry_module_name@,
                index_set_items(*directly_imported),
                index_set_items(*function_imports),
                BundleKind::Namespace,
            ),
    {
        let ghost ms = modules@;
        let ghost ns = self.namespace_imports();
        let ghost entry = entry_module_name@;
        let ghost direct = index_set_items(*directly_imported);
        let ghost fi = index_set_items(*function_imports);
        let mut inlinable: Vec<BundleModule> = Vec::new();
        let mut wrapped: Vec<BundleModule> = Vec::new();
        let mut namespaced: Vec<BundleModule> = Vec::new();
        let mut rest = modules;
        let n = rest.len();
        let mut k: usize = 0;
        proof {
            assert(ms.skip(0) =~= ms);
            assert(ms.subrange(0, 0) =~= Seq::<BundleModule>::empty());
        }
        while rest.len() > 0
            invariant
                n == ms.len(),
                k <= n,
                rest@ == ms.skip(k as int),
                ns == self.namespace_imports(),
                entry == entry_module_name@,
                direct == index_set_items(*directly_imported),
                fi == index_set_items(*function_imports),
                inlinable@ == of_kind(ms.subrange(0, k as int), ns, entry, direct, fi, BundleKind::Inlined),
                wrapped@ == of_kind(ms.subrange(0, k as int), ns, entry, direct, fi, BundleKind::Wrapped),
                namespaced@ == of_kind(ms.subrange(0, k as int), ns, entry, direct, fi, BundleKind::Namespace),
            decreases rest.len(),
        {
            let m = rest.remove(0);
            proof {
                assert(m == ms[k as int]);
                assert(rest@ =~= ms.skip(k + 1));
                let t = ms.subrange(0, k + 1);
                assert(t.drop_last() =~= ms.subrange(0, k as int));
                assert(t.last() == m);
            }
            let is_entry = crate::text::str_eq(m.0.as_str(), entry_module_name);
            if is_entry {
            } else if self.namespace_importers(m.0.as_str()).is_some() {
                namespaced.push(m);
            } else {
                let side_effects = Self::has_side_effects(&m.1);
                let direct_import = index_set_contains(directly_imported, m.0.as_str());
                let in_functions = index_set_contains(function_imports, m.0.as_str());
                if side_effects || direct_import || in_functions {
                    wrapped.push(m);
                } else {
                    inlinable.push(m);
                }
            }
            k = k + 1;
        }
        proof {
            assert(ms.subrange(0, k as int) =~= ms);
        }
        (inlinable, wrapped, namespaced)
    }
}

} // verus!
