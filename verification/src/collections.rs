//! Insertion-ordered string sets and maps (`indexmap::IndexSet`, `indexmap::IndexMap`).
use vstd::prelude::*;

use indexmap::{IndexMap, IndexSet};

use crate::orchestrator::push_unique;
use crate::text::views;

verus! {

#[verifier::external_type_specification]
#[verifier::external_body]
#[verifier::reject_recursive_types(T)]
#[verifier::reject_recursive_types(S)]
pub struct ExIndexSet<T, S>(IndexSet<T, S>);

/// The strings an `IndexSet` holds, in insertion order.
pub uninterp spec fn index_set_items(s: IndexSet<String>) -> Seq<Seq<char>>;

/// `IndexSet::new`: an empty set.
#[verifier::external_body]
pub(crate) fn index_set_new() -> (s: IndexSet<String>)
    ensures
        index_set_items(s) == Seq::<Seq<char>>::empty(),
{
    IndexSet::new()
}

/// `IndexSet::insert`: appends `value` unless an equal string is already held;
/// returns whether it was appended.
#[verifier::external_body]
pub(crate) fn index_set_insert(s: &mut IndexSet<String>, value: String) -> (added: bool)
    ensures
        added == !index_set_items(*old(s)).contains(value@),
        index_set_items(*final(s)) == if added {
            index_set_items(*old(s)).push(value@)
        } else {
            index_set_items(*old(s))
        },
{
    s.insert(value)
}

/// `IndexSet::contains`: an equal string is held.
#[verifier::external_body]
pub(crate) fn index_set_contains(s: &IndexSet<String>, value: &str) -> (r: bool)
    ensures
        r == index_set_items(*s).contains(value@),
{
    s.contains(value)
}

/// `IndexSet::shift_remove`: removes the string equal to `value`, keeping the
/// order of the others; returns whether one was held.
#[verifier::external_body]
pub(crate) fn index_set_shift_remove(s: &mut IndexSet<String>, value: &str) -> (r: bool)
    ensures
        r == index_set_items(*old(s)).contains(value@),
        index_set_items(*final(s)) == index_set_items(*old(s)).filter(|x: Seq<char>| x != value@),
        index_set_items(*final(s)).to_set() == index_set_items(*old(s)).to_set().remove(value@),
{
    s.shift_remove(value)
}

/// `IndexSet::iter`: copies of the strings held, in insertion order.
#[verifier::external_body]
pub(crate) fn index_set_to_vec(s: &IndexSet<String>) -> (v: Vec<String>)
    ensures
        views(v@) == index_set_items(*s),
{
    s.iter().cloned().collect()
}

/// `IndexSet::into_iter`: the strings held, in insertion order; a set holds
/// no string twice.
#[verifier::external_body]
pub(crate) fn index_set_into_vec(s: IndexSet<String>) -> (v: Vec<String>)
    ensures
        views(v@) == index_set_items(s),
        views(v@).no_duplicates(),
{
    s.into_iter().collect()
}

#[verifier::external_type_specification]
#[verifier::external_body]
#[verifier::reject_recursive_types(K)]
#[verifier::reject_recursive_types(V)]
#[verifier::reject_recursive_types(S)]
pub struct ExIndexMap<K, V, S>(IndexMap<K, V, S>);

/// A map from module names to their `__all__` lists, if they define one.
pub type ExportMap = IndexMap<String, Option<Vec<String>>>;

/// What a map from module names to their `__all__` lists holds.
pub uninterp spec fn export_map_entries(m: ExportMap) -> Map<
    Seq<char>,
    Option<Seq<Seq<char>>>,
>;

pub open spec fn opt_names_view(o: Option<Vec<String>>) -> Option<Seq<Seq<char>>> {
    match o {
        Some(v) => Some(views(v@)),
        None => None,
    }
}

/// `IndexMap::new`: an empty map.
#[verifier::external_body]
pub(crate) fn export_map_new() -> (r: ExportMap)
    ensures
        export_map_entries(r).dom() == Set::<Seq<char>>::empty(),
{
    IndexMap::new()
}

/// `IndexMap::insert`: maps `key` to `value`, replacing what it mapped to.
#[verifier::external_body]
pub(crate) fn export_map_insert(
    m: &mut ExportMap,
    key: String,
    value: Option<Vec<String>>,
)
    ensures
        export_map_entries(*final(m)) == export_map_entries(*old(m)).insert(
            key@,
            opt_names_view(value),
        ),
{
    m.insert(key, value);
}

/// `IndexMap::get`: what `key` maps to, if anything.
#[verifier::external_body]
pub(crate) fn export_map_get<'a>(m: &'a ExportMap, key: &str) -> (r:
    Option<&'a Option<Vec<String>>>)
    ensures
        r is Some <==> export_map_entries(*m).contains_key(key@),
        r matches Some(v) ==> export_map_entries(*m)[key@] == opt_names_view(*v),
{
    m.get(key)
}

/// A map from names to names (aliases to canonical names, or old names to new).
pub type NameMap = IndexMap<String, String>;

/// What a map from names to names holds.
pub uninterp spec fn name_map_entries(m: NameMap) -> Map<Seq<char>, Seq<char>>;

/// The entries of a map from names to names, in insertion order.
pub uninterp spec fn name_map_pairs(m: NameMap) -> Seq<(Seq<char>, Seq<char>)>;

/// `pairs` with `key` mapped to `value`: in place where an entry for `key`
/// stands, else appended.
pub open spec fn pairs_insert(
    pairs: Seq<(Seq<char>, Seq<char>)>,
    key: Seq<char>,
    value: Seq<char>,
) -> Seq<(Seq<char>, Seq<char>)>
    decreases pairs.len(),
{
    if pairs.len() == 0 {
        seq![(key, value)]
    } else if pairs[0].0 == key {
        seq![(key, value)] + pairs.drop_first()
    } else {
        seq![pairs[0]] + pairs_insert(pairs.drop_first(), key, value)
    }
}

/// The views of a sequence of string pairs.
pub open spec fn pair_views(v: Seq<(String, String)>) -> Seq<(Seq<char>, Seq<char>)> {
    v.map_values(|p: (String, String)| (p.0@, p.1@))
}

/// `IndexMap::new`: an empty map.
#[verifier::external_body]
pub(crate) fn name_map_new() -> (r: NameMap)
    ensures
        name_map_entries(r).dom() == Set::<Seq<char>>::empty(),
        name_map_pairs(r) == Seq::<(Seq<char>, Seq<char>)>::empty(),
{
    IndexMap::new()
}

/// `IndexMap::insert`: maps `key` to `value`, replacing what it mapped to;
/// an entry already there keeps its place in the order, a new one comes last.
#[verifier::external_body]
pub(crate) fn name_map_insert(m: &mut NameMap, key: String, value: String)
    ensures
        name_map_entries(*final(m)) == name_map_entries(*old(m)).insert(key@, value@),
        name_map_pairs(*final(m)) == pairs_insert(name_map_pairs(*old(m)), key@, value@),
{
    m.insert(key, value);
}

/// `IndexMap::is_empty`: the map holds no entry.
#[verifier::external_body]
pub(crate) fn name_map_is_empty(m: &NameMap) -> (r: bool)
    ensures
        r == (name_map_entries(*m).dom() == Set::<Seq<char>>::empty()),
{
    m.is_empty()
}

/// `IndexMap::get`: what `key` maps to, if anything.
#[verifier::external_body]
pub(crate) fn name_map_get<'a>(m: &'a NameMap, key: &str) -> (r: Option<&'a String>)
    ensures
        r is Some <==> name_map_entries(*m).contains_key(key@),
        r matches Some(v) ==> name_map_entries(*m)[key@] == v@,
{
    m.get(key)
}

/// `IndexMap::iter`: copies of the entries, in insertion order.
#[verifier::external_body]
pub(crate) fn name_map_to_vec(m: &NameMap) -> (v: Vec<(String, String)>)
    ensures
        pair_views(v@) == name_map_pairs(*m),
{
    m.iter().map(|(k, v)| (k.clone(), v.clone())).collect()
}

/// A map from module names to the renames of their module-level names.
pub type RenameMap = IndexMap<String, NameMap>;

/// What a map from module names to renames holds.
pub uninterp spec fn rename_map_entries(m: RenameMap) -> Map<Seq<char>, Map<Seq<char>, Seq<char>>>;

/// The renames of each module in a map from module names to renames, in
/// insertion order.
pub uninterp spec fn rename_map_pairs(m: RenameMap) -> Map<Seq<char>, Seq<(Seq<char>, Seq<char>)>>;

/// `IndexMap::new`: an empty map.
#[verifier::external_body]
pub(crate) fn rename_map_new() -> (r: RenameMap)
    ensures
        rename_map_entries(r).dom() == Set::<Seq<char>>::empty(),
        rename_map_pairs(r).dom() == Set::<Seq<char>>::empty(),
{
    IndexMap::new()
}

/// `IndexMap::insert`: maps `key` to the renames `value`, replacing what it mapped to.
#[verifier::external_body]
pub(crate) fn rename_map_insert(m: &mut RenameMap, key: String, value: NameMap)
    ensures
        rename_map_entries(*final(m)) == rename_map_entries(*old(m)).insert(
            key@,
            name_map_entries(value),
        ),
        rename_map_pairs(*final(m)) == rename_map_pairs(*old(m)).insert(key@, name_map_pairs(value)),
{
    m.insert(key, value);
}

/// `IndexMap::get`: the renames `key` maps to, if any.
#[verifier::external_body]
pub(crate) fn rename_map_get<'a>(m: &'a RenameMap, key: &str) -> (r: Option<&'a NameMap>)
    ensures
        r is Some <==> rename_map_entries(*m).contains_key(key@),
        r is Some <==> rename_map_pairs(*m).contains_key(key@),
        r matches Some(v) ==> rename_map_entries(*m)[key@] == name_map_entries(*v),
        r matches Some(v) ==> rename_map_pairs(*m)[key@] == name_map_pairs(*v),
{
    m.get(key)
}

/// A map from module names to the names imported from them, each once.
pub type FromImportMap = IndexMap<String, IndexSet<String>>;

/// What a map from module names to imported names holds: for each module,
/// the names in insertion order.
pub uninterp spec fn from_map_entries(m: FromImportMap) -> Map<Seq<char>, Seq<Seq<char>>>;

/// `IndexMap::new`: an empty map.
#[verifier::external_body]
pub(crate) fn from_map_new() -> (r: FromImportMap)
    ensures
        from_map_entries(r).dom() == Set::<Seq<char>>::empty(),
{
    IndexMap::new()
}

/// `IndexMap::entry(..).or_default()`: `key` maps to an empty set unless it
/// was already held.
#[verifier::external_body]
pub(crate) fn from_map_ensure_key(m: &mut FromImportMap, key: &str)
    ensures
        from_map_entries(*final(m)) == if from_map_entries(*old(m)).contains_key(key@) {
            from_map_entries(*old(m))
        } else {
            from_map_entries(*old(m)).insert(key@, Seq::empty())
        },
{
    m.entry(key.to_string()).or_default();
}

/// `IndexMap::entry(..).or_default().insert(..)`: `name` is added to the
/// names of `key` (created empty if absent) unless already there.
#[verifier::external_body]
pub(crate) fn from_map_insert_name(m: &mut FromImportMap, key: &str, name: String)
    ensures
        from_map_entries(*final(m)) == from_map_entries(*old(m)).insert(
            key@,
            push_unique(
                if from_map_entries(*old(m)).contains_key(key@) {
                    from_map_entries(*old(m))[key@]
                } else {
                    Seq::empty()
                },
                name@,
            ),
        ),
{
    m.entry(key.to_string()).or_default().insert(name);
}

/// `IndexMap::contains_key`.
#[verifier::external_body]
pub(crate) fn from_map_contains_key(m: &FromImportMap, key: &str) -> (r: bool)
    ensures
        r == from_map_entries(*m).contains_key(key@),
{
    m.contains_key(key)
}

/// `IndexMap::iter`: each module with copies of its names; each module once.
#[verifier::external_body]
pub(crate) fn from_map_to_vec(m: &FromImportMap) -> (v: Vec<(String, Vec<String>)>)
    ensures
        forall|i: int|
            0 <= i < v@.len() ==> from_map_entries(*m).contains_key((#[trigger] v@[i]).0@)
                && from_map_entries(*m)[v@[i].0@] == views(v@[i].1@),
        forall|k: Seq<char>|
            #[trigger] from_map_entries(*m).contains_key(k) ==> exists|i: int|
                0 <= i < v@.len() && (#[trigger] v@[i]).0@ == k,
        forall|i: int, j: int| 0 <= i < j < v@.len() ==> (#[trigger] v@[i]).0@ != (#[trigger] v@[j]).0@,
{
    m.iter().map(|(k, names)| (k.clone(), names.iter().cloned().collect())).collect()
}

} // verus!
