//! The bundler's analyses of module code: whether a module can be inlined
//! (has no side effects), its `__all__` exports, its `__future__` imports,
//! relative import resolution, and the names it gives modules and symbols.
use vstd::prelude::*;

use indexmap::IndexSet;

use crate::ast::{alias_local_name, local_name, Alias, Comprehension, DictItem, Expr, ModModule, Stmt};
use crate::collections::{
    export_map_entries, export_map_get, export_map_insert, export_map_new, from_map_contains_key,
    from_map_ensure_key, from_map_entries, from_map_insert_name, from_map_new, from_map_to_vec,
    name_map_entries, name_map_get, name_map_insert, name_map_new, name_map_pairs, name_map_to_vec, pair_views, pairs_insert, NameMap, index_set_contains, index_set_insert, index_set_items, index_set_new,
    opt_names_view, ExportMap, FromImportMap,
};
use crate::discovery::lemma_insert_mirrors_push;
use crate::orchestrator::push_unique;
use crate::graph_builder::dots;
use crate::paths::{components, path_components};
use crate::resolver::{is_stdlib_module, known_standard_library, root_module};
use crate::text::{
    copy_range, copy_string, decimal, has_prefix, join_strings, join_with, lemma_split_nonempty,
    replace_all, replace_char, split_char, split_on, starts_with, str_eq, to_string,
    usize_to_decimal, views,
};

verus! {

// ---------------------------------------------------------------------------
// Specification: side effects of module code
// ---------------------------------------------------------------------------

/// Evaluating `e` at module level may have side effects: calls, attribute
/// and subscript accesses, and anything but literals, names, displays,
/// operators and comprehensions over such.
pub open spec fn value_side_effects(e: Expr) -> bool
    decreases e,
{
    match e {
        Expr::NumberLiteral(_) | Expr::StringLiteral(_) | Expr::BytesLiteral
        | Expr::BooleanLiteral(_) | Expr::NoneLiteral | Expr::EllipsisLiteral
        | Expr::Name { .. } => false,
        Expr::List(elts) => values_side_effects(elts@),
        Expr::Tuple(elts) => values_side_effects(elts@),
        Expr::SetDisplay(elts) => values_side_effects(elts@),
        Expr::Dict(items) => items_side_effects(items@),
        Expr::BinOp { left, right, .. } => value_side_effects(*left) || value_side_effects(*right),
        Expr::UnaryOp(operand) => value_side_effects(*operand),
        Expr::Call { .. } | Expr::Attribute { .. } | Expr::Subscript { .. } => true,
        Expr::ListComp { elt, generators } => value_side_effects(*elt)
            || generators_side_effects(generators@),
        Expr::SetComp { elt, generators } => value_side_effects(*elt)
            || generators_side_effects(generators@),
        Expr::DictComp { key, value, generators } => value_side_effects(*key)
            || value_side_effects(*value) || generators_side_effects(generators@),
        Expr::Generator { elt, generators } => value_side_effects(*elt)
            || generators_side_effects(generators@),
        _ => true,
    }
}

pub open spec fn values_side_effects(es: Seq<Expr>) -> bool
    decreases es,
{
    if es.len() == 0 {
        false
    } else {
        values_side_effects(es.drop_last()) || value_side_effects(es.last())
    }
}

pub open spec fn item_side_effects(item: DictItem) -> bool
    decreases item,
{
    match item.key {
        Some(k) => value_side_effects(k) || value_side_effects(item.value),
        None => value_side_effects(item.value),
    }
}

pub open spec fn items_side_effects(items: Seq<DictItem>) -> bool
    decreases items,
{
    if items.len() == 0 {
        false
    } else {
        items_side_effects(items.drop_last()) || item_side_effects(items.last())
    }
}

pub open spec fn generator_side_effects(g: Comprehension) -> bool
    decreases g,
{
    value_side_effects(g.iter) || values_side_effects(g.ifs@)
}

/// Some iterable or condition of the comprehension clauses may have side effects.
pub open spec fn generators_side_effects(gs: Seq<Comprehension>) -> bool
    decreases gs,
{
    if gs.len() == 0 {
        false
    } else {
        generators_side_effects(gs.drop_last()) || generator_side_effects(gs.last())
    }
}

/// `e` reads one of `names`.
pub open spec fn uses_names(e: Expr, names: Set<Seq<char>>) -> bool
    decreases e,
{
    match e {
        Expr::Name { id, .. } => names.contains(id@),
        Expr::List(elts) => any_uses_names(elts@, names),
        Expr::Tuple(elts) => any_uses_names(elts@, names),
        Expr::SetDisplay(elts) => any_uses_names(elts@, names),
        Expr::Dict(items) => items_use_names(items@, names),
        Expr::BinOp { left, right, .. } => uses_names(*left, names) || uses_names(*right, names),
        Expr::UnaryOp(operand) => uses_names(*operand, names),
        Expr::Call { func, args, keywords } => uses_names(*func, names) || any_uses_names(
            args@,
            names,
        ) || keywords_use_names(keywords@, names),
        Expr::Attribute { value, .. } => uses_names(*value, names),
        Expr::Subscript { value, slice } => uses_names(*value, names) || uses_names(
            *slice,
            names,
        ),
        _ => false,
    }
}

pub open spec fn any_uses_names(es: Seq<Expr>, names: Set<Seq<char>>) -> bool
    decreases es,
{
    if es.len() == 0 {
        false
    } else {
        any_uses_names(es.drop_last(), names) || uses_names(es.last(), names)
    }
}

pub open spec fn item_uses_names(item: DictItem, names: Set<Seq<char>>) -> bool
    decreases item,
{
    match item.key {
        Some(k) => uses_names(k, names) || uses_names(item.value, names),
        None => uses_names(item.value, names),
    }
}

pub open spec fn items_use_names(items: Seq<DictItem>, names: Set<Seq<char>>) -> bool
    decreases items,
{
    if items.len() == 0 {
        false
    } else {
        items_use_names(items.drop_last(), names) || item_uses_names(items.last(), names)
    }
}

pub open spec fn keywords_use_names(kws: Seq<crate::ast::Keyword>, names: Set<Seq<char>>) -> bool
    decreases kws,
{
    if kws.len() == 0 {
        false
    } else {
        keywords_use_names(kws.drop_last(), names) || uses_names(kws.last().value, names)
    }
}

/// The assignment binds `__all__` alone.
pub open spec fn is_all_target(targets: Seq<Expr>) -> bool {
    targets.len() == 1 && (targets[0] matches Expr::Name { id, .. } && id@ == "__all__"@)
}

/// The names the top-level imports of `body` bind, in order.
pub open spec fn imported_names(body: Seq<Stmt>) -> Seq<Seq<char>>
    decreases body.len(),
{
    if body.len() == 0 {
        Seq::empty()
    } else {
        imported_names(body.drop_last()) + match body.last() {
            Stmt::Import(names) => names@.map_values(|a: Alias| alias_local_name(a)),
            Stmt::ImportFrom { names, .. } => names@.map_values(|a: Alias| alias_local_name(a)),
            _ => Seq::empty(),
        }
    }
}

/// Executing the top-level statement `s` may have side effects (`names` are
/// the module's imported names): not for definitions, imports, type
/// aliases, `pass`, docstrings, `__all__`, and assignments (annotated or
/// not) of side-effect-free values that read no imported name.
pub open spec fn stmt_side_effects(s: Stmt, names: Set<Seq<char>>) -> bool {
    match s {
        Stmt::FunctionDef { .. } | Stmt::ClassDef { .. } => false,
        Stmt::AnnAssign { value, .. } => match value {
            Some(v) => value_side_effects(v) || uses_names(v, names),
            None => false,
        },
        Stmt::Assign { targets, value } => !is_all_target(targets@) && (value_side_effects(value)
            || uses_names(value, names)),
        Stmt::Import(_) | Stmt::ImportFrom { .. } | Stmt::TypeAlias { .. } | Stmt::Pass => false,
        Stmt::Expr(e) => !(e is StringLiteral),
        _ => true,
    }
}

/// Some statement of `body` may have side effects.
pub open spec fn body_side_effects(body: Seq<Stmt>, names: Set<Seq<char>>) -> bool
    decreases body.len(),
{
    if body.len() == 0 {
        false
    } else {
        body_side_effects(body.drop_last(), names) || stmt_side_effects(body.last(), names)
    }
}

/// Running the module may have side effects beyond defining names.
pub open spec fn module_side_effects(body: Seq<Stmt>) -> bool {
    body_side_effects(body, imported_names(body).to_set())
}

proof fn lemma_values_prefix(es: Seq<Expr>, k: int)
    requires
        0 < k <= es.len(),
        value_side_effects(es[k - 1]),
    ensures
        values_side_effects(es),
    decreases es.len(),
{
    if k < es.len() {
        lemma_values_prefix(es.drop_last(), k);
    }
}

proof fn lemma_items_prefix(items: Seq<DictItem>, k: int)
    requires
        0 < k <= items.len(),
        item_side_effects(items[k - 1]),
    ensures
        items_side_effects(items),
    decreases items.len(),
{
    if k < items.len() {
        lemma_items_prefix(items.drop_last(), k);
    }
}

proof fn lemma_generators_prefix(gs: Seq<Comprehension>, k: int)
    requires
        0 < k <= gs.len(),
        generator_side_effects(gs[k - 1]),
    ensures
        generators_side_effects(gs),
    decreases gs.len(),
{
    if k < gs.len() {
        lemma_generators_prefix(gs.drop_last(), k);
    }
}

proof fn lemma_uses_prefix(es: Seq<Expr>, names: Set<Seq<char>>, k: int)
    requires
        0 < k <= es.len(),
        uses_names(es[k - 1], names),
    ensures
        any_uses_names(es, names),
    decreases es.len(),
{
    if k < es.len() {
        lemma_uses_prefix(es.drop_last(), names, k);
    }
}

proof fn lemma_items_use_prefix(items: Seq<DictItem>, names: Set<Seq<char>>, k: int)
    requires
        0 < k <= items.len(),
        item_uses_names(items[k - 1], names),
    ensures
        items_use_names(items, names),
    decreases items.len(),
{
    if k < items.len() {
        lemma_items_use_prefix(items.drop_last(), names, k);
    }
}

proof fn lemma_keywords_use_prefix(kws: Seq<crate::ast::Keyword>, names: Set<Seq<char>>, k: int)
    requires
        0 < k <= kws.len(),
        uses_names(kws[k - 1].value, names),
    ensures
        keywords_use_names(kws, names),
    decreases kws.len(),
{
    if k < kws.len() {
        lemma_keywords_use_prefix(kws.drop_last(), names, k);
    }
}

proof fn lemma_body_prefix(body: Seq<Stmt>, names: Set<Seq<char>>, k: int)
    requires
        0 < k <= body.len(),
        stmt_side_effects(body[k - 1], names),
    ensures
        body_side_effects(body, names),
    decreases body.len(),
{
    if k < body.len() {
        lemma_body_prefix(body.drop_last(), names, k);
    }
}

// ---------------------------------------------------------------------------
// Specification: exports, features, names
// ---------------------------------------------------------------------------

/// `acc` extended by each of `xs` that it does not hold yet, in order.
pub open spec fn insert_all(acc: Seq<Seq<char>>, xs: Seq<Seq<char>>) -> Seq<Seq<char>>
    decreases xs.len(),
{
    if xs.len() == 0 {
        acc
    } else {
        push_unique(insert_all(acc, xs.drop_last()), xs.last())
    }
}

/// The features `from __future__ import ...` statements of `body` name, in order.
pub open spec fn future_features_of(body: Seq<Stmt>) -> Seq<Seq<char>>
    decreases body.len(),
{
    if body.len() == 0 {
        Seq::empty()
    } else {
        future_features_of(body.drop_last()) + match body.last() {
            Stmt::ImportFrom { module: Some(m), names, .. } => if m@ == "__future__"@ {
                names@.map_values(|a: Alias| a.name@)
            } else {
                Seq::empty()
            },
            _ => Seq::empty(),
        }
    }
}

/// The string literals among `es`, in order.
pub open spec fn string_values(es: Seq<Expr>) -> Seq<Seq<char>>
    decreases es.len(),
{
    if es.len() == 0 {
        Seq::empty()
    } else {
        string_values(es.drop_last()) + match es.last() {
            Expr::StringLiteral(s) => seq![s@],
            _ => Seq::empty(),
        }
    }
}

/// The strings of a list or tuple display (other elements skipped); none for
/// any other expression.
pub open spec fn string_list(e: Expr) -> Option<Seq<Seq<char>>> {
    match e {
        Expr::List(elts) => Some(string_values(elts@)),
        Expr::Tuple(elts) => Some(string_values(elts@)),
        _ => None,
    }
}

/// The `__all__` list of a module, if it defines one: the strings of what
/// the first top-level assignment to `__all__` alone assigns when that is a
/// list or tuple display, and none (an empty list) for a computed value.
pub open spec fn all_exports(body: Seq<Stmt>) -> Option<Seq<Seq<char>>>
    decreases body.len(),
{
    if body.len() == 0 {
        None
    } else {
        match body[0] {
            Stmt::Assign { targets, value } => if is_all_target(targets@) {
                Some(
                    match string_list(value) {
                        Some(l) => l,
                        None => Seq::empty(),
                    },
                )
            } else {
                all_exports(body.drop_first())
            },
            _ => all_exports(body.drop_first()),
        }
    }
}

/// An assignment `x = x`.
pub open spec fn self_referential(targets: Seq<Expr>, value: Expr) -> bool {
    targets.len() == 1 && (targets[0] matches Expr::Name { id: a, .. } && (value matches Expr::Name {
        id: b,
        ..
    } && a@ == b@))
}

/// Whether a module attribute is exported: never `__all__`; for a module with
/// `__all__`, exactly its names; otherwise the names without a leading underscore.
pub open spec fn exported(
    exports: Map<Seq<char>, Option<Seq<Seq<char>>>>,
    symbol: Seq<char>,
    module: Seq<char>,
) -> bool {
    if symbol == "__all__"@ {
        false
    } else if exports.contains_key(module) && exports[module] is Some {
        exports[module]->0.contains(symbol)
    } else {
        !has_prefix(symbol, "_"@)
    }
}

/// `base` with the numeric suffix `_i`.
pub open spec fn suffixed(base: Seq<char>, i: nat) -> Seq<char> {
    base + "_"@ + decimal(i)
}

/// The first of `base_i, ..., base_999` not in `taken`, else the fallback name.
pub open spec fn first_free_suffix(base: Seq<char>, taken: Seq<Seq<char>>, i: nat) -> Seq<char>
    decreases 1000 - i,
{
    if i >= 1000 {
        "__cribo_renamed_"@ + base
    } else if !taken.contains(suffixed(base, i)) {
        suffixed(base, i)
    } else {
        first_free_suffix(base, taken, i + 1)
    }
}

/// A name for `base` that is not in `taken`: `base` itself if free, else with
/// the smallest free suffix `_1` to `_999`, else `__cribo_renamed_base`.
pub open spec fn unique_name(base: Seq<char>, taken: Seq<Seq<char>>) -> Seq<char> {
    if !taken.contains(base) {
        base
    } else {
        first_free_suffix(base, taken, 1)
    }
}

/// Standard-library modules whose import changes global state, so that the
/// bundle never hoists their imports.
pub open spec fn stateful_stdlib_module(name: Seq<char>) -> bool {
    name == "antigravity"@ || name == "this"@ || name == "__hello__"@ || name == "__phello__"@
        || name == "site"@ || name == "sitecustomize"@ || name == "usercustomize"@ || name
        == "readline"@ || name == "rlcompleter"@ || name == "turtle"@ || name == "tkinter"@ || name
        == "webbrowser"@ || name == "platform"@ || name == "locale"@
}

/// Some bundled module lies inside the package `module`.
pub open spec fn has_submodule(bundled: Seq<Seq<char>>, module: Seq<char>) -> bool {
    exists|i: int| 0 <= i < bundled.len() && has_prefix(#[trigger] bundled[i], module + "."@)
}

/// The module a relative import of `level` dots (naming `module`, if any) in
/// the module `current` refers to. A one-part module imported from with one
/// dot is a package if a bundled module lies inside it (the import stays in
/// it) and else a top-level module (its siblings are top-level). Otherwise a
/// package `__init__.py` (known from its path, else from its bundled
/// submodules) climbs `level - 1` parts and any other module `level` parts;
/// none if that climbs above the top level. Absolute imports name `module`.
pub open spec fn relative_import_target(
    bundled: Seq<Seq<char>>,
    level: u32,
    module: Option<Seq<char>>,
    current: Seq<char>,
    path: Option<Seq<char>>,
) -> Option<Seq<char>> {
    if level > 0 {
        let parts = split_on(current, '.');
        let is_package = has_submodule(bundled, current);
        let base: Option<Seq<Seq<char>>> = if parts.len() == 1 && level == 1 {
            if is_package {
                Some(parts)
            } else {
                Some(Seq::empty())
            }
        } else {
            let is_package_init = match path {
                Some(p) => path_components(p).len() > 0 && path_components(p).last()
                    == "__init__.py"@,
                None => is_package,
            };
            let remove: int = if is_package_init {
                level - 1
            } else {
                level as int
            };
            if remove > parts.len() {
                None
            } else {
                Some(parts.subrange(0, parts.len() - remove))
            }
        };
        match base {
            None => None,
            Some(b) => Some(
                join_with(
                    match module {
                        Some(m) => b.push(m),
                        None => b,
                    },
                    "."@,
                ),
            ),
        }
    } else {
        module
    }
}

/// The number of bytes the character `c` takes in UTF-8.
pub open spec fn utf8_width(c: char) -> int {
    if (c as u32) < 0x80 {
        1
    } else if (c as u32) < 0x800 {
        2
    } else if (c as u32) < 0x10000 {
        3
    } else {
        4
    }
}

/// Byte `n` of the UTF-8 encoding of `s` is a character boundary (within it or at its end).
pub open spec fn byte_boundary(s: Seq<char>, n: int) -> bool
    decreases s.len(),
{
    if n == 0 {
        true
    } else if n < 0 || s.len() == 0 {
        false
    } else {
        byte_boundary(s.drop_first(), n - utf8_width(s[0]))
    }
}

/// The number of characters of `s` in its first `n` bytes of UTF-8.
pub open spec fn chars_in_bytes(s: Seq<char>, n: int) -> int
    decreases s.len(),
{
    if n <= 0 || s.len() == 0 {
        0
    } else {
        1 + chars_in_bytes(s.drop_first(), n - utf8_width(s[0]))
    }
}

/// The name of a module's namespace object in the bundle: `__cribo_`, the
/// first six bytes of its content hash, `_`, and its name with `_` for `.`.
pub open spec fn synthetic_module_name(module: Seq<char>, content_hash: Seq<char>) -> Seq<char> {
    "__cribo_"@ + content_hash.subrange(0, chars_in_bytes(content_hash, 6)) + "_"@ + replace_char(
        module,
        '.',
        "_"@,
    )
}

/// What the bundler has hoisted: `__future__` features; standard-library
/// `from` imports (module to names) and `import` statements (by module
/// names); third-party `from` imports and `import` statements.
pub type HoistView = (
    Seq<Seq<char>>,
    Map<Seq<char>, Seq<Seq<char>>>,
    Seq<Seq<Seq<char>>>,
    Map<Seq<char>, Seq<Seq<char>>>,
    Seq<Seq<Seq<char>>>,
);

/// `m` with an entry for `key` (empty if it had none).
pub open spec fn with_key(m: Map<Seq<char>, Seq<Seq<char>>>, key: Seq<char>) -> Map<
    Seq<char>,
    Seq<Seq<char>>,
> {
    if m.contains_key(key) {
        m
    } else {
        m.insert(key, Seq::empty())
    }
}

/// `m` with `name` added to the names of `key`, unless already there.
pub open spec fn with_name(m: Map<Seq<char>, Seq<Seq<char>>>, key: Seq<char>, name: Seq<char>) -> Map<
    Seq<char>,
    Seq<Seq<char>>,
> {
    m.insert(
        key,
        push_unique(
            if m.contains_key(key) {
                m[key]
            } else {
                Seq::empty()
            },
            name,
        ),
    )
}

// ---------------------------------------------------------------------------
// The bundler
// ---------------------------------------------------------------------------

/// The state the bundler keeps across modules: the `__future__` features the
/// bundle needs, the modules bundled, the `__all__` lists of modules, the
/// imports hoisted to the top of the bundle (`from` imports by module, and
/// the module names of each `import` statement), standard-library and
/// third-party apart; the wrapped modules (module to synthetic name) and
/// their init functions (synthetic name to function name), the inlined
/// modules, and the modules imported as namespaces (with their importers).
pub struct HybridStaticBundler {
    future_imports: IndexSet<String>,
    bundled_modules: IndexSet<String>,
    module_exports: ExportMap,
    stdlib_import_from_map: FromImportMap,
    stdlib_import_statements: Vec<Vec<String>>,
    third_party_import_from_map: FromImportMap,
    third_party_import_statements: Vec<Vec<String>>,
    module_registry: NameMap,
    init_functions: NameMap,
    inlined_modules: IndexSet<String>,
    namespace_imported_modules: FromImportMap,
    created_namespace_modules: IndexSet<String>,
}

impl HybridStaticBundler {
    /// The `__future__` features collected, in order.
    pub closed spec fn future_features(self) -> Seq<Seq<char>> {
        index_set_items(self.future_imports)
    }

    /// The names of the modules bundled, in order.
    pub closed spec fn bundled(self) -> Seq<Seq<char>> {
        index_set_items(self.bundled_modules)
    }

    /// The recorded `__all__` lists, by module (`None` for a module without one).
    pub closed spec fn exports(self) -> Map<Seq<char>, Option<Seq<Seq<char>>>> {
        export_map_entries(self.module_exports)
    }

    /// The hoisted standard-library `from` imports: the names imported from each module.
    pub closed spec fn stdlib_from(self) -> Map<Seq<char>, Seq<Seq<char>>> {
        from_map_entries(self.stdlib_import_from_map)
    }

    /// The hoisted standard-library `import` statements, by their module names.
    pub closed spec fn stdlib_imports(self) -> Seq<Seq<Seq<char>>> {
        self.stdlib_import_statements@.map_values(|v: Vec<String>| views(v@))
    }

    /// The hoisted third-party `from` imports: the names imported from each module.
    pub closed spec fn third_party_from(self) -> Map<Seq<char>, Seq<Seq<char>>> {
        from_map_entries(self.third_party_import_from_map)
    }

    /// The hoisted third-party `import` statements, by their module names.
    pub closed spec fn third_party_imports(self) -> Seq<Seq<Seq<char>>> {
        self.third_party_import_statements@.map_values(|v: Vec<String>| views(v@))
    }

    /// The wrapped modules: each module's synthetic name.
    pub closed spec fn registry(self) -> Map<Seq<char>, Seq<char>> {
        name_map_entries(self.module_registry)
    }

    /// The init function of each wrapped module, by synthetic name.
    pub closed spec fn init_function_names(self) -> Map<Seq<char>, Seq<char>> {
        name_map_entries(self.init_functions)
    }

    /// The wrapped modules with their synthetic names, in registration order.
    pub closed spec fn registry_pairs(self) -> Seq<(Seq<char>, Seq<char>)> {
        name_map_pairs(self.module_registry)
    }

    /// The synthetic names with their init functions, in registration order.
    pub closed spec fn init_function_pairs(self) -> Seq<(Seq<char>, Seq<char>)> {
        name_map_pairs(self.init_functions)
    }

    /// The names of the modules inlined, in order.
    pub closed spec fn inlined(self) -> Seq<Seq<char>> {
        index_set_items(self.inlined_modules)
    }

    /// The modules imported as namespaces, each with the modules importing it.
    pub closed spec fn namespace_imports(self) -> Map<Seq<char>, Seq<Seq<char>>> {
        from_map_entries(self.namespace_imported_modules)
    }

    /// The namespace objects already created in the entry module, in order.
    pub closed spec fn created_namespaces(self) -> Seq<Seq<char>> {
        index_set_items(self.created_namespace_modules)
    }

    /// `other` is `self` but for the namespace objects created in the entry module.
    pub open spec fn same_but_created_namespaces(self, other: Self) -> bool {
        &&& other.hoist_view() == self.hoist_view()
        &&& other.bundled() == self.bundled()
        &&& other.exports() == self.exports()
        &&& self.same_wrapping(other)
    }

    /// `other` holds the same wrapped, inlined and namespace-imported modules as `self`.
    pub open spec fn same_wrapping(self, other: Self) -> bool {
        &&& other.registry() == self.registry()
        &&& other.init_function_names() == self.init_function_names()
        &&& other.registry_pairs() == self.registry_pairs()
        &&& other.init_function_pairs() == self.init_function_pairs()
        &&& other.inlined() == self.inlined()
        &&& other.namespace_imports() == self.namespace_imports()
    }

    /// `other` holds the same hoisted imports as `self`.
    pub open spec fn same_hoisted(self, other: Self) -> bool {
        &&& other.stdlib_from() == self.stdlib_from()
        &&& other.stdlib_imports() == self.stdlib_imports()
        &&& other.third_party_from() == self.third_party_from()
        &&& other.third_party_imports() == self.third_party_imports()
    }

    /// The hoisted `from` imports: standard-library ones if `stdlib`, else third-party ones.
    pub open spec fn from_imports(self, stdlib: bool) -> Map<Seq<char>, Seq<Seq<char>>> {
        if stdlib {
            self.stdlib_from()
        } else {
            self.third_party_from()
        }
    }

    /// The hoisted imports: `__future__` features, standard-library `from`
    /// imports and `import` statements, third-party `from` imports and
    /// `import` statements.
    pub open spec fn hoist_view(self) -> HoistView {
        (
            self.future_features(),
            self.stdlib_from(),
            self.stdlib_imports(),
            self.third_party_from(),
            self.third_party_imports(),
        )
    }

    /// Adds a `__future__` feature the bundle needs.
    pub(crate) fn add_future_feature(&mut self, name: String)
        ensures
            final(self).hoist_view() == (
                push_unique(old(self).future_features(), name@),
                old(self).stdlib_from(),
                old(self).stdlib_imports(),
                old(self).third_party_from(),
                old(self).third_party_imports(),
            ),
            final(self).bundled() == old(self).bundled(),
            final(self).exports() == old(self).exports(),
            old(self).same_wrapping(*final(self)),
    {
        let _ = index_set_insert(&mut self.future_imports, name);
    }

    /// Makes sure `module` has an entry among the hoisted `from` imports
    /// (standard-library ones if `stdlib`, else third-party ones).
    pub(crate) fn ensure_from_entry(&mut self, stdlib: bool, module: &str)
        ensures
            final(self).hoist_view() == if stdlib {
                (
                    old(self).future_features(),
                    with_key(old(self).stdlib_from(), module@),
                    old(self).stdlib_imports(),
                    old(self).third_party_from(),
                    old(self).third_party_imports(),
                )
            } else {
                (
                    old(self).future_features(),
                    old(self).stdlib_from(),
                    old(self).stdlib_imports(),
                    with_key(old(self).third_party_from(), module@),
                    old(self).third_party_imports(),
                )
            },
            final(self).bundled() == old(self).bundled(),
            final(self).exports() == old(self).exports(),
            old(self).same_wrapping(*final(self)),
    {
        if stdlib {
            from_map_ensure_key(&mut self.stdlib_import_from_map, module);
        } else {
            from_map_ensure_key(&mut self.third_party_import_from_map, module);
        }
    }

    /// Adds `name` to the names hoisted from `module` (standard-library
    /// `from` imports if `stdlib`, else third-party ones).
    pub(crate) fn add_from_name(&mut self, stdlib: bool, module: &str, name: String)
        ensures
            final(self).hoist_view() == if stdlib {
                (
                    old(self).future_features(),
                    with_name(old(self).stdlib_from(), module@, name@),
                    old(self).stdlib_imports(),
                    old(self).third_party_from(),
                    old(self).third_party_imports(),
                )
            } else {
                (
                    old(self).future_features(),
                    old(self).stdlib_from(),
                    old(self).stdlib_imports(),
                    with_name(old(self).third_party_from(), module@, name@),
                    old(self).third_party_imports(),
                )
            },
            final(self).bundled() == old(self).bundled(),
            final(self).exports() == old(self).exports(),
            old(self).same_wrapping(*final(self)),
    {
        if stdlib {
            from_map_insert_name(&mut self.stdlib_import_from_map, module, name);
        } else {
            from_map_insert_name(&mut self.third_party_import_from_map, module, name);
        }
    }

    /// Adds a hoisted `import` statement, by its module names
    /// (standard-library if `stdlib`, else third-party).
    pub(crate) fn push_import_statement(&mut self, stdlib: bool, names: Vec<String>)
        ensures
            final(self).hoist_view() == if stdlib {
                (
                    old(self).future_features(),
                    old(self).stdlib_from(),
                    old(self).stdlib_imports().push(views(names@)),
                    old(self).third_party_from(),
                    old(self).third_party_imports(),
                )
            } else {
                (
                    old(self).future_features(),
                    old(self).stdlib_from(),
                    old(self).stdlib_imports(),
                    old(self).third_party_from(),
                    old(self).third_party_imports().push(views(names@)),
                )
            },
            final(self).bundled() == old(self).bundled(),
            final(self).exports() == old(self).exports(),
            old(self).same_wrapping(*final(self)),
    {
        let ghost before = if stdlib { self.stdlib_import_statements@ } else { self.third_party_import_statements@ };
        if stdlib {
            self.stdlib_import_statements.push(names);
            proof {
                assert(self.stdlib_imports() =~= old(self).stdlib_imports().push(views(names@)));
            }
        } else {
            self.third_party_import_statements.push(names);
            proof {
                assert(self.third_party_imports() =~= old(self).third_party_imports().push(views(names@)));
            }
        }
    }

    /// Whether `module` is bundled.
    pub(crate) fn is_bundled(&self, module: &str) -> (r: bool)
        ensures
            r == self.bundled().contains(module@),
    {
        index_set_contains(&self.bundled_modules, module)
    }

    /// Records that `importer` imports the module `module` as a namespace.
    pub(crate) fn add_namespace_importer(&mut self, module: &str, importer: String)
        ensures
            final(self).namespace_imports() == with_name(old(self).namespace_imports(), module@, importer@),
            final(self).hoist_view() == old(self).hoist_view(),
            final(self).bundled() == old(self).bundled(),
            final(self).exports() == old(self).exports(),
            final(self).registry() == old(self).registry(),
            final(self).init_function_names() == old(self).init_function_names(),
            final(self).inlined() == old(self).inlined(),
    {
        from_map_insert_name(&mut self.namespace_imported_modules, module, importer);
    }

    /// Whether `module` was inlined.
    pub(crate) fn is_inlined(&self, module: &str) -> (r: bool)
        ensures
            r == self.inlined().contains(module@),
    {
        index_set_contains(&self.inlined_modules, module)
    }

    /// The synthetic name of the wrapped module `module`, if it is wrapped.
    pub(crate) fn registered_name(&self, module: &str) -> (r: Option<&String>)
        ensures
            r is Some <==> self.registry().contains_key(module@),
            r matches Some(v) ==> self.registry()[module@] == v@,
    {
        name_map_get(&self.module_registry, module)
    }

    /// The init function of the wrapped module named `synthetic_name`, if any.
    pub(crate) fn init_function_of(&self, synthetic_name: &str) -> (r: Option<&String>)
        ensures
            r is Some <==> self.init_function_names().contains_key(synthetic_name@),
            r matches Some(v) ==> self.init_function_names()[synthetic_name@] == v@,
    {
        name_map_get(&self.init_functions, synthetic_name)
    }

    /// Whether some module is imported as a namespace.
    pub(crate) fn has_namespace_imports(&self) -> (r: bool)
        ensures
            r == !(self.namespace_imports().dom() =~= Set::<Seq<char>>::empty()),
    {
        let v = from_map_to_vec(&self.namespace_imported_modules);
        if v.len() > 0 {
            proof {
                assert(self.namespace_imports().contains_key(v@[0].0@));
            }
            true
        } else {
            proof {
                assert forall|k: Seq<char>| !self.namespace_imports().contains_key(k) by {
                    if self.namespace_imports().contains_key(k) {
                        let i = choose|i: int| 0 <= i < v@.len() && (#[trigger] v@[i]).0@ == k;
                    }
                }
            }
            false
        }
    }

    /// The modules importing `module` as a namespace, if any does.
    pub fn namespace_importers(&self, module: &str) -> (r: Option<Vec<String>>)
        ensures
            r is Some <==> self.namespace_imports().contains_key(module@),
            r matches Some(v) ==> views(v@) == self.namespace_imports()[module@],
    {
        let entries = from_map_to_vec(&self.namespace_imported_modules);
        let mut i: usize = 0;
        while i < entries.len()
            invariant
                i <= entries.len(),
                forall|j: int| 0 <= j < i ==> (#[trigger] entries@[j]).0@ != module@,
                forall|k: Seq<char>|
                    #[trigger] self.namespace_imports().contains_key(k) ==> exists|j: int|
                        0 <= j < entries@.len() && (#[trigger] entries@[j]).0@ == k,
                forall|j: int|
                    0 <= j < entries@.len() ==> self.namespace_imports().contains_key((#[trigger] entries@[j]).0@)
                        && self.namespace_imports()[entries@[j].0@] == views(entries@[j].1@),
            decreases entries.len() - i,
        {
            if str_eq(entries[i].0.as_str(), module) {
                let names = &entries[i].1;
                let mut out: Vec<String> = Vec::new();
                let mut k: usize = 0;
                while k < names.len()
                    invariant
                        k <= names@.len(),
                        views(out@) == views(names@).subrange(0, k as int),
                    decreases names@.len() - k,
                {
                    let ghost before = views(out@);
                    out.push(copy_string(&names[k]));
                    proof {
                        assert(views(out@) =~= before.push(names@[k as int]@));
                        assert(views(names@).subrange(0, k + 1) =~= views(names@).subrange(0, k as int).push(
                            names@[k as int]@,
                        ));
                    }
                    k += 1;
                }
                proof {
                    assert(views(names@).subrange(0, k as int) =~= views(names@));
                }
                return Some(out);
            }
            i += 1;
        }
        None
    }

    /// Records that `module` is inlined.
    pub fn track_inlined_module(&mut self, module: String)
        ensures
            final(self).inlined() == push_unique(old(self).inlined(), module@),
            final(self).hoist_view() == old(self).hoist_view(),
            final(self).bundled() == old(self).bundled(),
            final(self).exports() == old(self).exports(),
            final(self).registry() == old(self).registry(),
            final(self).init_function_names() == old(self).init_function_names(),
            final(self).namespace_imports() == old(self).namespace_imports(),
    {
        let _ = index_set_insert(&mut self.inlined_modules, module);
    }

    /// Records the wrapped module `module` under its synthetic name, with
    /// its init function `__cribo_init_<synthetic name>`.
    pub fn register_wrapper_module(&mut self, module: String, synthetic_name: String)
        ensures
            final(self).registry() == old(self).registry().insert(module@, synthetic_name@),
            final(self).init_function_names() == old(self).init_function_names().insert(
                synthetic_name@,
                "__cribo_init_"@ + synthetic_name@,
            ),
            final(self).registry_pairs() == pairs_insert(
                old(self).registry_pairs(),
                module@,
                synthetic_name@,
            ),
            final(self).init_function_pairs() == pairs_insert(
                old(self).init_function_pairs(),
                synthetic_name@,
                "__cribo_init_"@ + synthetic_name@,
            ),
            final(self).hoist_view() == old(self).hoist_view(),
            final(self).bundled() == old(self).bundled(),
            final(self).exports() == old(self).exports(),
            final(self).inlined() == old(self).inlined(),
            final(self).namespace_imports() == old(self).namespace_imports(),
    {
        let mut init_func_name = to_string("__cribo_init_");
        init_func_name.append(synthetic_name.as_str());
        proof {
            reveal_strlit("__cribo_init_");
        }
        name_map_insert(&mut self.module_registry, module, copy_string(&synthetic_name));
        name_map_insert(&mut self.init_functions, synthetic_name, init_func_name);
    }

    /// Whether the namespace object `name` was already created in the entry module.
    pub(crate) fn is_created_namespace(&self, name: &str) -> (r: bool)
        ensures
            r == self.created_namespaces().contains(name@),
    {
        index_set_contains(&self.created_namespace_modules, name)
    }

    /// Records that the namespace object `name` was created in the entry module.
    pub(crate) fn add_created_namespace(&mut self, name: String)
        ensures
            final(self).created_namespaces() == push_unique(old(self).created_namespaces(), name@),
            old(self).same_but_created_namespaces(*final(self)),
    {
        let _ = index_set_insert(&mut self.created_namespace_modules, name);
    }

    /// The wrapped modules with their synthetic names, in registration order.
    pub(crate) fn registry_entries(&self) -> (v: Vec<(String, String)>)
        ensures
            pair_views(v@) == self.registry_pairs(),
    {
        name_map_to_vec(&self.module_registry)
    }

    /// The synthetic names with their init functions, in registration order.
    pub(crate) fn init_function_entries(&self) -> (v: Vec<(String, String)>)
        ensures
            pair_views(v@) == self.init_function_pairs(),
    {
        name_map_to_vec(&self.init_functions)
    }

    /// Whether some names are hoisted from `module` as a standard-library `from` import.
    pub(crate) fn stdlib_from_has(&self, module: &str) -> (r: bool)
        ensures
            r == self.stdlib_from().contains_key(module@),
    {
        from_map_contains_key(&self.stdlib_import_from_map, module)
    }

    /// The hoisted `from` imports (standard-library ones if `stdlib`), each
    /// module once with its names.
    pub(crate) fn from_entries(&self, stdlib: bool) -> (v: Vec<(String, Vec<String>)>)
        ensures
            forall|i: int|
                0 <= i < v@.len() ==> self.from_imports(stdlib).contains_key((#[trigger] v@[i]).0@)
                    && self.from_imports(stdlib)[v@[i].0@] == views(v@[i].1@),
            forall|k: Seq<char>|
                #[trigger] self.from_imports(stdlib).contains_key(k) ==> exists|i: int|
                    0 <= i < v@.len() && (#[trigger] v@[i]).0@ == k,
            forall|i: int, j: int| 0 <= i < j < v@.len() ==> (#[trigger] v@[i]).0@ != (#[trigger] v@[j]).0@,
    {
        if stdlib {
            from_map_to_vec(&self.stdlib_import_from_map)
        } else {
            from_map_to_vec(&self.third_party_import_from_map)
        }
    }

    /// The hoisted `import` statements (standard-library ones if `stdlib`), by their module names.
    pub(crate) fn import_statements(&self, stdlib: bool) -> (r: &Vec<Vec<String>>)
        ensures
            r@.map_values(|v: Vec<String>| views(v@)) == if stdlib {
                self.stdlib_imports()
            } else {
                self.third_party_imports()
            },
    {
        if stdlib {
            &self.stdlib_import_statements
        } else {
            &self.third_party_import_statements
        }
    }

    /// A bundler that has seen no module.
    pub fn new() -> (b: Self)
        ensures
            b.future_features() == Seq::<Seq<char>>::empty(),
            b.bundled() == Seq::<Seq<char>>::empty(),
            b.exports().dom() == Set::<Seq<char>>::empty(),
            b.stdlib_from().dom() == Set::<Seq<char>>::empty(),
            b.stdlib_imports() == Seq::<Seq<Seq<char>>>::empty(),
            b.third_party_from().dom() == Set::<Seq<char>>::empty(),
            b.third_party_imports() == Seq::<Seq<Seq<char>>>::empty(),
            b.registry().dom() == Set::<Seq<char>>::empty(),
            b.init_function_names().dom() == Set::<Seq<char>>::empty(),
            b.registry_pairs() == Seq::<(Seq<char>, Seq<char>)>::empty(),
            b.init_function_pairs() == Seq::<(Seq<char>, Seq<char>)>::empty(),
            b.inlined() == Seq::<Seq<char>>::empty(),
            b.namespace_imports().dom() == Set::<Seq<char>>::empty(),
            b.created_namespaces() == Seq::<Seq<char>>::empty(),
    {
        let b = HybridStaticBundler {
            future_imports: index_set_new(),
            bundled_modules: index_set_new(),
            module_exports: export_map_new(),
            stdlib_import_from_map: from_map_new(),
            stdlib_import_statements: Vec::new(),
            third_party_import_from_map: from_map_new(),
            third_party_import_statements: Vec::new(),
            module_registry: name_map_new(),
            init_functions: name_map_new(),
            inlined_modules: index_set_new(),
            namespace_imported_modules: from_map_new(),
            created_namespace_modules: index_set_new(),
        };
        proof {
            assert(b.stdlib_imports() =~= Seq::<Seq<Seq<char>>>::empty());
            assert(b.third_party_imports() =~= Seq::<Seq<Seq<char>>>::empty());
        }
        b
    }

    /// Whether running the module may have side effects beyond defining
    /// names, so that it cannot be inlined into the bundle.
    pub fn has_side_effects(ast: &ModModule) -> (r: bool)
        ensures
            r == module_side_effects(ast.body@),
    {
        let mut imported = index_set_new();
        let mut i: usize = 0;
        proof {
            assert(ast.body@.subrange(0, 0) =~= Seq::<Stmt>::empty());
            assert(index_set_items(imported).to_set() =~= imported_names(
                ast.body@.subrange(0, 0),
            ).to_set());
        }
        while i < ast.body.len()
            invariant
                i <= ast.body.len(),
                index_set_items(imported).to_set() == imported_names(
                    ast.body@.subrange(0, i as int),
                ).to_set(),
            decreases ast.body.len() - i,
        {
            let ghost base = imported_names(ast.body@.subrange(0, i as int));
            proof {
                let t = ast.body@.subrange(0, i + 1);
                assert(t.drop_last() =~= ast.body@.subrange(0, i as int));
                assert(t.last() == ast.body@[i as int]);
            }
            match &ast.body[i] {
                Stmt::Import(names) => {
                    Self::insert_local_names(&mut imported, names, Ghost(base));
                },
                Stmt::ImportFrom { names, .. } => {
                    Self::insert_local_names(&mut imported, names, Ghost(base));
                },
                _ => {
                    proof {
                        assert(imported_names(ast.body@.subrange(0, i + 1)) =~= base);
                    }
                },
            }
            i += 1;
        }
        proof {
            assert(ast.body@.subrange(0, ast.body@.len() as int) =~= ast.body@);
        }
        let ghost names = imported_names(ast.body@).to_set();
        let mut k: usize = 0;
        while k < ast.body.len()
            invariant
                k <= ast.body.len(),
                index_set_items(imported).to_set() == names,
                names == imported_names(ast.body@).to_set(),
                !body_side_effects(ast.body@.subrange(0, k as int), names),
            decreases ast.body.len() - k,
        {
            proof {
                let t = ast.body@.subrange(0, k + 1);
                assert(t.drop_last() =~= ast.body@.subrange(0, k as int));
                assert(t.last() == ast.body@[k as int]);
            }
            let effects = match &ast.body[k] {
                Stmt::FunctionDef { .. } | Stmt::ClassDef { .. } => false,
                Stmt::AnnAssign { value, .. } => match value {
                    Some(v) => Self::expression_has_side_effects(v)
                        || Self::expression_uses_imported_names(v, &imported),
                    None => false,
                },
                Stmt::Assign { targets, value } => {
                    if Self::is_all_assignment(targets) {
                        false
                    } else {
                        Self::expression_has_side_effects(value)
                            || Self::expression_uses_imported_names(value, &imported)
                    }
                },
                Stmt::Import(_) | Stmt::ImportFrom { .. } | Stmt::TypeAlias { .. } | Stmt::Pass => false,
                Stmt::Expr(e) => match e {
                    Expr::StringLiteral(_) => false,
                    _ => true,
                },
                _ => true,
            };
            if effects {
                proof {
                    lemma_body_prefix(ast.body@, names, k + 1);
                }
                return true;
            }
            k += 1;
        }
        proof {
            assert(ast.body@.subrange(0, ast.body@.len() as int) =~= ast.body@);
        }
        false
    }

    /// Adds the names the aliases bind to `set`.
    fn insert_local_names(set: &mut IndexSet<String>, names: &Vec<Alias>, Ghost(base): Ghost<Seq<Seq<char>>>)
        requires
            index_set_items(*old(set)).to_set() == base.to_set(),
        ensures
            index_set_items(*final(set)).to_set() == (base + names@.map_values(
                |a: Alias| alias_local_name(a),
            )).to_set(),
    {
        let mut j: usize = 0;
        proof {
            assert(base + names@.subrange(0, 0).map_values(|a: Alias| alias_local_name(a)) =~= base);
        }
        while j < names.len()
            invariant
                j <= names.len(),
                index_set_items(*set).to_set() == (base + names@.subrange(0, j as int).map_values(
                    |a: Alias| alias_local_name(a),
                )).to_set(),
            decreases names.len() - j,
        {
            let ghost prev = index_set_items(*set);
            let ghost acc = base + names@.subrange(0, j as int).map_values(
                |a: Alias| alias_local_name(a),
            );
            let n = local_name(&names[j]);
            let _ = index_set_insert(set, copy_string(n));
            proof {
                lemma_insert_mirrors_push(prev, index_set_items(*set), acc, n@);
                assert(base + names@.subrange(0, j + 1).map_values(|a: Alias| alias_local_name(a))
                    =~= acc.push(n@));
            }
            j += 1;
        }
        proof {
            assert(names@.subrange(0, names@.len() as int) =~= names@);
        }
    }

    /// Whether `expr` reads one of `imported_names`.
    fn expression_uses_imported_names(expr: &Expr, imported_names: &IndexSet<String>) -> (r: bool)
        ensures
            r == uses_names(*expr, index_set_items(*imported_names).to_set()),
        decreases expr,
    {
        match expr {
            Expr::Name { id, .. } => {
                let r = index_set_contains(imported_names, id.as_str());
                proof {
                    let s = index_set_items(*imported_names);
                    if s.to_set().contains(id@) {
                        let m = choose|m: int| 0 <= m < s.len() && s[m] == id@;
                        assert(s.contains(id@));
                    }
                }
                r
            },
            Expr::List(elts) => Self::exprs_use_imported_names(elts, imported_names),
            Expr::Tuple(elts) => Self::exprs_use_imported_names(elts, imported_names),
            Expr::SetDisplay(elts) => Self::exprs_use_imported_names(elts, imported_names),
            Expr::Dict(items) => Self::items_use_imported_names(items, imported_names),
            Expr::BinOp { left, right, .. } => Self::expression_uses_imported_names(
                left,
                imported_names,
            ) || Self::expression_uses_imported_names(right, imported_names),
            Expr::UnaryOp(operand) => Self::expression_uses_imported_names(operand, imported_names),
            Expr::Call { func, args, keywords } => Self::expression_uses_imported_names(
                func,
                imported_names,
            ) || Self::exprs_use_imported_names(args, imported_names)
                || Self::keywords_use_imported_names(keywords, imported_names),
            Expr::Attribute { value, .. } => Self::expression_uses_imported_names(
                value,
                imported_names,
            ),
            Expr::Subscript { value, slice } => Self::expression_uses_imported_names(
                value,
                imported_names,
            ) || Self::expression_uses_imported_names(slice, imported_names),
            _ => false,
        }
    }

    #[verifier::loop_isolation(false)]
    fn exprs_use_imported_names(exprs: &Vec<Expr>, imported_names: &IndexSet<String>) -> (r: bool)
        ensures
            r == any_uses_names(exprs@, index_set_items(*imported_names).to_set()),
        decreases exprs,
    {
        let ghost names = index_set_items(*imported_names).to_set();
        let mut i: usize = 0;
        while i < exprs.len()
            invariant
                i <= exprs.len(),
                !any_uses_names(exprs@.subrange(0, i as int), names),
            decreases exprs.len() - i,
        {
            proof {
                assert(decreases_to!(exprs => exprs@));
                assert(decreases_to!(exprs@ => exprs@[i as int]));
                assert(exprs@.subrange(0, i + 1).drop_last() =~= exprs@.subrange(0, i as int));
            }
            if Self::expression_uses_imported_names(&exprs[i], imported_names) {
                proof {
                    lemma_uses_prefix(exprs@, names, i + 1);
                }
                return true;
            }
            i += 1;
        }
        proof {
            assert(exprs@.subrange(0, exprs@.len() as int) =~= exprs@);
        }
        false
    }

    #[verifier::loop_isolation(false)]
    fn items_use_imported_names(items: &Vec<DictItem>, imported_names: &IndexSet<String>) -> (r: bool)
        ensures
            r == items_use_names(items@, index_set_items(*imported_names).to_set()),
        decreases items,
    {
        let ghost names = index_set_items(*imported_names).to_set();
        let mut i: usize = 0;
        while i < items.len()
            invariant
                i <= items.len(),
                !items_use_names(items@.subrange(0, i as int), names),
            decreases items.len() - i,
        {
            proof {
                assert(decreases_to!(items => items@));
                assert(decreases_to!(items@ => items@[i as int]));
                assert(decreases_to!(items@[i as int] => items@[i as int].value));
                assert(decreases_to!(items@[i as int] => items@[i as int].key));
                assert(items@.subrange(0, i + 1).drop_last() =~= items@.subrange(0, i as int));
            }
            let key_uses = match &items[i].key {
                Some(k) => Self::expression_uses_imported_names(k, imported_names),
                None => false,
            };
            if key_uses || Self::expression_uses_imported_names(&items[i].value, imported_names) {
                proof {
                    lemma_items_use_prefix(items@, names, i + 1);
                }
                return true;
            }
            proof {
                assert(!item_uses_names(items@[i as int], names));
            }
            i += 1;
        }
        proof {
            assert(items@.subrange(0, items@.len() as int) =~= items@);
        }
        false
    }

    #[verifier::loop_isolation(false)]
    fn keywords_use_imported_names(
        keywords: &Vec<crate::ast::Keyword>,
        imported_names: &IndexSet<String>,
    ) -> (r: bool)
        ensures
            r == keywords_use_names(keywords@, index_set_items(*imported_names).to_set()),
        decreases keywords,
    {
        let ghost names = index_set_items(*imported_names).to_set();
        let mut i: usize = 0;
        while i < keywords.len()
            invariant
                i <= keywords.len(),
                !keywords_use_names(keywords@.subrange(0, i as int), names),
            decreases keywords.len() - i,
        {
            proof {
                assert(decreases_to!(keywords => keywords@));
                assert(decreases_to!(keywords@ => keywords@[i as int]));
                assert(decreases_to!(keywords@[i as int] => keywords@[i as int].value));
                assert(keywords@.subrange(0, i + 1).drop_last() =~= keywords@.subrange(
                    0,
                    i as int,
                ));
            }
            if Self::expression_uses_imported_names(&keywords[i].value, imported_names) {
                proof {
                    lemma_keywords_use_prefix(keywords@, names, i + 1);
                }
                return true;
            }
            i += 1;
        }
        proof {
            assert(keywords@.subrange(0, keywords@.len() as int) =~= keywords@);
        }
        false
    }

    /// Whether evaluating `expr` at module level may have side effects.
    fn expression_has_side_effects(expr: &Expr) -> (r: bool)
        ensures
            r == value_side_effects(*expr),
        decreases expr,
    {
        match expr {
            Expr::NumberLiteral(_) | Expr::StringLiteral(_) | Expr::BytesLiteral
            | Expr::BooleanLiteral(_) | Expr::NoneLiteral | Expr::EllipsisLiteral
            | Expr::Name { .. } => false,
            Expr::List(elts) => Self::exprs_have_side_effects(elts),
            Expr::Tuple(elts) => Self::exprs_have_side_effects(elts),
            Expr::SetDisplay(elts) => Self::exprs_have_side_effects(elts),
            Expr::Dict(items) => Self::items_have_side_effects(items),
            Expr::BinOp { left, right, .. } => Self::expression_has_side_effects(left)
                || Self::expression_has_side_effects(right),
            Expr::UnaryOp(operand) => Self::expression_has_side_effects(operand),
            Expr::Call { .. } | Expr::Attribute { .. } | Expr::Subscript { .. } => true,
            Expr::ListComp { elt, generators } => Self::expression_has_side_effects(elt)
                || Self::generators_have_side_effects(generators),
            Expr::SetComp { elt, generators } => Self::expression_has_side_effects(elt)
                || Self::generators_have_side_effects(generators),
            Expr::DictComp { key, value, generators } => Self::expression_has_side_effects(key)
                || Self::expression_has_side_effects(value) || Self::generators_have_side_effects(
                generators,
            ),
            Expr::Generator { elt, generators } => Self::expression_has_side_effects(elt)
                || Self::generators_have_side_effects(generators),
            _ => true,
        }
    }

    #[verifier::loop_isolation(false)]
    fn exprs_have_side_effects(exprs: &Vec<Expr>) -> (r: bool)
        ensures
            r == values_side_effects(exprs@),
        decreases exprs,
    {
        let mut i: usize = 0;
        while i < exprs.len()
            invariant
                i <= exprs.len(),
                !values_side_effects(exprs@.subrange(0, i as int)),
            decreases exprs.len() - i,
        {
            proof {
                assert(decreases_to!(exprs => exprs@));
                assert(decreases_to!(exprs@ => exprs@[i as int]));
                assert(exprs@.subrange(0, i + 1).drop_last() =~= exprs@.subrange(0, i as int));
            }
            if Self::expression_has_side_effects(&exprs[i]) {
                proof {
                    lemma_values_prefix(exprs@, i + 1);
                }
                return true;
            }
            i += 1;
        }
        proof {
            assert(exprs@.subrange(0, exprs@.len() as int) =~= exprs@);
        }
        false
    }

    #[verifier::loop_isolation(false)]
    fn items_have_side_effects(items: &Vec<DictItem>) -> (r: bool)
        ensures
            r == items_side_effects(items@),
        decreases items,
    {
        let mut i: usize = 0;
        while i < items.len()
            invariant
                i <= items.len(),
                !items_side_effects(items@.subrange(0, i as int)),
            decreases items.len() - i,
        {
            proof {
                assert(decreases_to!(items => items@));
                assert(decreases_to!(items@ => items@[i as int]));
                assert(decreases_to!(items@[i as int] => items@[i as int].value));
                assert(decreases_to!(items@[i as int] => items@[i as int].key));
                assert(items@.subrange(0, i + 1).drop_last() =~= items@.subrange(0, i as int));
            }
            let key_effects = match &items[i].key {
                Some(k) => Self::expression_has_side_effects(k),
                None => false,
            };
            if key_effects || Self::expression_has_side_effects(&items[i].value) {
                proof {
                    lemma_items_prefix(items@, i + 1);
                }
                return true;
            }
            proof {
                assert(!item_side_effects(items@[i as int]));
            }
            i += 1;
        }
        proof {
            assert(items@.subrange(0, items@.len() as int) =~= items@);
        }
        false
    }

    /// Whether an assignment binds `__all__` alone.
    fn is_all_assignment(targets: &Vec<Expr>) -> (r: bool)
        ensures
            r == is_all_target(targets@),
    {
        if targets.len() != 1 {
            return false;
        }
        proof {
            reveal_strlit("__all__");
        }
        match &targets[0] {
            Expr::Name { id, .. } => str_eq(id.as_str(), "__all__"),
            _ => false,
        }
    }

    /// Whether some iterable or condition of the comprehension clauses may
    /// have side effects.
    #[verifier::loop_isolation(false)]
    fn generators_have_side_effects(generators: &Vec<Comprehension>) -> (r: bool)
        ensures
            r == generators_side_effects(generators@),
        decreases generators,
    {
        let mut i: usize = 0;
        while i < generators.len()
            invariant
                i <= generators.len(),
                !generators_side_effects(generators@.subrange(0, i as int)),
            decreases generators.len() - i,
        {
            proof {
                assert(decreases_to!(generators => generators@));
                assert(decreases_to!(generators@ => generators@[i as int]));
                assert(decreases_to!(generators@[i as int] => generators@[i as int].iter));
                assert(decreases_to!(generators@[i as int] => generators@[i as int].ifs));
                assert(generators@.subrange(0, i + 1).drop_last() =~= generators@.subrange(
                    0,
                    i as int,
                ));
            }
            let generator = &generators[i];
            if Self::expression_has_side_effects(&generator.iter)
                || Self::exprs_have_side_effects(&generator.ifs) {
                proof {
                    lemma_generators_prefix(generators@, i + 1);
                }
                return true;
            }
            proof {
                assert(!generator_side_effects(generators@[i as int]));
            }
            i += 1;
        }
        proof {
            assert(generators@.subrange(0, generators@.len() as int) =~= generators@);
        }
        false
    }
}

impl HybridStaticBundler {
    /// The `__future__` features collected, in order.
    pub fn get_future_imports(&self) -> (r: Vec<String>)
        ensures
            views(r@) == self.future_features(),
    {
        crate::collections::index_set_to_vec(&self.future_imports)
    }

    /// Records that `module_name` is bundled.
    pub fn track_bundled_module(&mut self, module_name: String)
        ensures
            final(self).bundled() == push_unique(old(self).bundled(), module_name@),
            final(self).future_features() == old(self).future_features(),
            old(self).same_hoisted(*final(self)),
            old(self).same_wrapping(*final(self)),
            final(self).exports() == old(self).exports(),
            old(self).same_wrapping(*final(self)),
    {
        let _ = index_set_insert(&mut self.bundled_modules, module_name);
    }

    /// Records the `__all__` list of `module_name` (`None` if it has none).
    pub fn track_module_exports(&mut self, module_name: String, exports: Option<Vec<String>>)
        ensures
            final(self).exports() == old(self).exports().insert(
                module_name@,
                opt_names_view(exports),
            ),
            final(self).bundled() == old(self).bundled(),
            final(self).future_features() == old(self).future_features(),
            old(self).same_hoisted(*final(self)),
            old(self).same_wrapping(*final(self)),
    {
        export_map_insert(&mut self.module_exports, module_name, exports);
    }

    /// Adds the features of the module's `from __future__ import` statements
    /// to those the bundle needs.
    pub fn collect_future_imports_from_ast(&mut self, ast: &ModModule)
        ensures
            final(self).future_features() == insert_all(
                old(self).future_features(),
                future_features_of(ast.body@),
            ),
            final(self).bundled() == old(self).bundled(),
            final(self).exports() == old(self).exports(),
            old(self).same_wrapping(*final(self)),
            old(self).same_hoisted(*final(self)),
    {
        let mut i: usize = 0;
        proof {
            reveal_strlit("__future__");
            assert(ast.body@.subrange(0, 0) =~= Seq::<Stmt>::empty());
        }
        while i < ast.body.len()
            invariant
                i <= ast.body.len(),
                self.future_features() == insert_all(
                    old(self).future_features(),
                    future_features_of(ast.body@.subrange(0, i as int)),
                ),
                self.bundled() == old(self).bundled(),
                self.exports() == old(self).exports(),
                old(self).same_wrapping(*self),
                old(self).same_hoisted(*self),
            decreases ast.body.len() - i,
        {
            let ghost base = future_features_of(ast.body@.subrange(0, i as int));
            proof {
                let t = ast.body@.subrange(0, i + 1);
                assert(t.drop_last() =~= ast.body@.subrange(0, i as int));
                assert(t.last() == ast.body@[i as int]);
            }
            let mut added = false;
            if let Stmt::ImportFrom { module: Some(m), names, .. } = &ast.body[i] {
                if str_eq(m.as_str(), "__future__") {
                    added = true;
                    let mut j: usize = 0;
                    proof {
                        assert(base + names@.subrange(0, 0).map_values(|a: Alias| a.name@) =~= base);
                    }
                    while j < names.len()
                        invariant
                            j <= names.len(),
                            self.future_features() == insert_all(
                                old(self).future_features(),
                                base + names@.subrange(0, j as int).map_values(|a: Alias| a.name@),
                            ),
                            self.bundled() == old(self).bundled(),
                            self.exports() == old(self).exports(),
                            old(self).same_wrapping(*self),
                            old(self).same_hoisted(*self),
                        decreases names.len() - j,
                    {
                        let _ = index_set_insert(&mut self.future_imports, copy_string(&names[j].name));
                        proof {
                            let xs = base + names@.subrange(0, j + 1).map_values(|a: Alias| a.name@);
                            assert(xs.drop_last() =~= base + names@.subrange(0, j as int).map_values(
                                |a: Alias| a.name@,
                            ));
                            assert(xs.last() == names@[j as int].name@);
                        }
                        j += 1;
                    }
                    proof {
                        assert(names@.subrange(0, names@.len() as int) =~= names@);
                        assert(future_features_of(ast.body@.subrange(0, i + 1)) =~= base
                            + names@.map_values(|a: Alias| a.name@));
                    }
                }
            }
            if !added {
                proof {
                    assert(future_features_of(ast.body@.subrange(0, i + 1)) =~= base);
                }
            }
            i += 1;
        }
        proof {
            assert(ast.body@.subrange(0, ast.body@.len() as int) =~= ast.body@);
        }
    }

    /// The module's `__all__` list, if it defines one (see `all_exports`).
    pub fn extract_all_exports(&self, ast: &ModModule) -> (r: Option<Vec<String>>)
        ensures
            opt_names_view(r) == all_exports(ast.body@),
    {
        let mut i: usize = 0;
        proof {
            assert(ast.body@.skip(0) =~= ast.body@);
        }
        while i < ast.body.len()
            invariant
                i <= ast.body.len(),
                all_exports(ast.body@) == all_exports(ast.body@.skip(i as int)),
            decreases ast.body.len() - i,
        {
            proof {
                let t = ast.body@.skip(i as int);
                assert(t[0] == ast.body@[i as int]);
                assert(t.drop_first() =~= ast.body@.skip(i + 1));
            }
            if let Stmt::Assign { targets, value } = &ast.body[i] {
                if Self::is_all_assignment(targets) {
                    return match self.extract_string_list_from_expr(value) {
                        Some(v) => Some(v),
                        None => {
                            let empty: Vec<String> = Vec::new();
                            proof {
                                assert(views(empty@) =~= Seq::<Seq<char>>::empty());
                            }
                            Some(empty)
                        },
                    };
                }
            }
            i += 1;
        }
        proof {
            assert(ast.body@.skip(i as int) =~= Seq::<Stmt>::empty());
        }
        None
    }

    /// The strings of a list or tuple display, if `expr` is one.
    pub fn extract_string_list_from_expr(&self, expr: &Expr) -> (r: Option<Vec<String>>)
        ensures
            opt_names_view(r) == string_list(*expr),
    {
        match expr {
            Expr::List(elts) => Some(Self::string_values_of(elts)),
            Expr::Tuple(elts) => Some(Self::string_values_of(elts)),
            _ => None,
        }
    }

    /// The string literals among `elts`, in order.
    fn string_values_of(elts: &Vec<Expr>) -> (r: Vec<String>)
        ensures
            views(r@) == string_values(elts@),
    {
        let mut exports: Vec<String> = Vec::new();
        let mut i: usize = 0;
        proof {
            assert(elts@.subrange(0, 0) =~= Seq::<Expr>::empty());
            assert(views(exports@) =~= Seq::<Seq<char>>::empty());
        }
        while i < elts.len()
            invariant
                i <= elts.len(),
                views(exports@) == string_values(elts@.subrange(0, i as int)),
            decreases elts.len() - i,
        {
            let ghost before = views(exports@);
            proof {
                let t = elts@.subrange(0, i + 1);
                assert(t.drop_last() =~= elts@.subrange(0, i as int));
                assert(t.last() == elts@[i as int]);
            }
            if let Expr::StringLiteral(s) = &elts[i] {
                exports.push(copy_string(s));
                proof {
                    assert(views(exports@) =~= before.push(s@));
                }
            } else {
                proof {
                    assert(string_values(elts@.subrange(0, i + 1)) =~= before);
                }
            }
            i += 1;
        }
        proof {
            assert(elts@.subrange(0, elts@.len() as int) =~= elts@);
        }
        exports
    }

    /// Whether an assignment is `x = x`.
    pub fn is_self_referential_assignment(&self, targets: &Vec<Expr>, value: &Expr) -> (r: bool)
        ensures
            r == self_referential(targets@, *value),
    {
        if targets.len() == 1 {
            if let (Expr::Name { id: a, .. }, Expr::Name { id: b, .. }) = (&targets[0], value) {
                return str_eq(a.as_str(), b.as_str());
            }
        }
        false
    }

    /// The `__all__` list recorded for `module`, if it has one.
    pub(crate) fn recorded_exports(&self, module: &str) -> (r: Option<&Vec<String>>)
        ensures
            match r {
                Some(v) => self.exports().contains_key(module@) && self.exports()[module@] == Some(
                    views(v@),
                ),
                None => !(self.exports().contains_key(module@) && self.exports()[module@] is Some),
            },
    {
        match export_map_get(&self.module_exports, module) {
            Some(Some(v)) => Some(v),
            _ => None,
        }
    }

    /// Whether the module attribute `symbol_name` of `module_name` is exported.
    pub fn should_export_symbol(&self, symbol_name: &str, module_name: &str) -> (r: bool)
        ensures
            r == exported(self.exports(), symbol_name@, module_name@),
    {
        proof {
            reveal_strlit("__all__");
            reveal_strlit("_");
        }
        if str_eq(symbol_name, "__all__") {
            return false;
        }
        match export_map_get(&self.module_exports, module_name) {
            Some(Some(exports)) => {
                let r = crate::text::contains_name(exports, symbol_name);
                proof {
                    assert(views(exports@).to_set().contains(symbol_name@) == views(exports@).contains(
                        symbol_name@,
                    ));
                }
                r
            },
            _ => !starts_with(symbol_name, "_"),
        }
    }

    /// A name for `base_name` that no symbol in `existing_symbols` has.
    pub fn generate_unique_name(&self, base_name: &str, existing_symbols: &IndexSet<String>) -> (r:
        String)
        ensures
            r@ == unique_name(base_name@, index_set_items(*existing_symbols)),
    {
        let ghost taken = index_set_items(*existing_symbols);
        if !index_set_contains(existing_symbols, base_name) {
            return to_string(base_name);
        }
        let mut i: usize = 1;
        proof {
            reveal_strlit("_");
        }
        while i < 1000
            invariant
                1 <= i <= 1000,
                taken == index_set_items(*existing_symbols),
                taken.contains(base_name@),
                first_free_suffix(base_name@, taken, 1) == first_free_suffix(
                    base_name@,
                    taken,
                    i as nat,
                ),
            decreases 1000 - i,
        {
            let mut candidate = to_string(base_name);
            candidate.append("_");
            let digits = usize_to_decimal(i);
            candidate.append(digits.as_str());
            proof {
                assert(candidate@ =~= suffixed(base_name@, i as nat));
            }
            if !index_set_contains(existing_symbols, candidate.as_str()) {
                return candidate;
            }
            i += 1;
        }
        let mut fallback = to_string("__cribo_renamed_");
        fallback.append(base_name);
        fallback
    }

    /// Whether the imports of a standard-library module may be hoisted to the
    /// top of the bundle: its root is a standard-library module of Python 3.10
    /// and importing it does not change global state.
    pub fn is_safe_stdlib_module(&self, module_name: &str) -> (r: bool)
        ensures
            r == (!stateful_stdlib_module(module_name@) && known_standard_library(
                10,
                root_module(module_name@),
            )),
    {
        proof {
            reveal_strlit("antigravity");
            reveal_strlit("this");
            reveal_strlit("__hello__");
            reveal_strlit("__phello__");
            reveal_strlit("site");
            reveal_strlit("sitecustomize");
            reveal_strlit("usercustomize");
            reveal_strlit("readline");
            reveal_strlit("rlcompleter");
            reveal_strlit("turtle");
            reveal_strlit("tkinter");
            reveal_strlit("webbrowser");
            reveal_strlit("platform");
            reveal_strlit("locale");
        }
        if str_eq(module_name, "antigravity") || str_eq(module_name, "this") || str_eq(
            module_name,
            "__hello__",
        ) || str_eq(module_name, "__phello__") {
            return false;
        }
        if str_eq(module_name, "site") || str_eq(module_name, "sitecustomize") || str_eq(
            module_name,
            "usercustomize",
        ) {
            return false;
        }
        if str_eq(module_name, "readline") || str_eq(module_name, "rlcompleter") || str_eq(
            module_name,
            "turtle",
        ) || str_eq(module_name, "tkinter") || str_eq(module_name, "webbrowser") || str_eq(
            module_name,
            "platform",
        ) || str_eq(module_name, "locale") {
            return false;
        }
        is_stdlib_module(10, module_name)
    }

    /// The name of a module's namespace object in the bundle.
    pub fn get_synthetic_module_name(&self, module_name: &str, content_hash: &str) -> (r: String)
        requires
            byte_boundary(content_hash@, 6),
        ensures
            r@ == synthetic_module_name(module_name@, content_hash@),
    {
        let module_name_escaped = replace_all(module_name, '.', "_");
        let ghost h = content_hash@;
        let n = content_hash.unicode_len();
        let mut i: usize = 0;
        let mut bytes: u32 = 0;
        proof {
            assert(h.skip(0) =~= h);
        }
        while bytes < 6
            invariant
                n == h.len(),
                bytes <= 6,
                i <= h.len(),
                h == content_hash@,
                byte_boundary(h.skip(i as int), 6 - bytes),
                chars_in_bytes(h, 6) == i + chars_in_bytes(h.skip(i as int), 6 - bytes),
            decreases 6 - bytes,
        {
            proof {
                let t = h.skip(i as int);
                assert(t.len() > 0);
            }
            let c = content_hash.get_char(i);
            let code = c as u32;
            let width: u32 = if code < 0x80 {
                1
            } else if code < 0x800 {
                2
            } else if code < 0x10000 {
                3
            } else {
                4
            };
            proof {
                let t = h.skip(i as int);
                assert(t[0] == c);
                assert(width as int == utf8_width(c));
                assert(t.drop_first() =~= h.skip(i + 1));
                assert(byte_boundary(t.drop_first(), 6 - bytes - width));
                assert(6 - bytes - width >= 0);
            }
            bytes = bytes + width;
            i = i + 1;
        }
        proof {
            assert(chars_in_bytes(h.skip(i as int), 0) == 0);
        }
        let short_hash = content_hash.substring_char(0, i);
        let mut r = to_string("__cribo_");
        r.append(short_hash);
        r.append("_");
        r.append(module_name_escaped.as_str());
        proof {
            reveal_strlit("_");
            reveal_strlit("__cribo_");
            assert(r@ =~= synthetic_module_name(module_name@, content_hash@));
        }
        r
    }

    /// Whether some bundled module lies inside the package `module`.
    pub(crate) fn has_bundled_submodule(&self, module: &str) -> (r: bool)
        ensures
            r == has_submodule(self.bundled(), module@),
    {
        let items = crate::collections::index_set_to_vec(&self.bundled_modules);
        let mut prefix = to_string(module);
        prefix.append(".");
        proof {
            reveal_strlit(".");
        }
        let mut i: usize = 0;
        while i < items.len()
            invariant
                i <= items.len(),
                views(items@) == self.bundled(),
                prefix@ == module@ + "."@,
                forall|j: int| 0 <= j < i ==> !has_prefix(#[trigger] self.bundled()[j], prefix@),
            decreases items.len() - i,
        {
            if starts_with(items[i].as_str(), prefix.as_str()) {
                proof {
                    assert(self.bundled()[i as int] == items@[i as int]@);
                }
                return true;
            }
            proof {
                assert(self.bundled()[i as int] == items@[i as int]@);
            }
            i += 1;
        }
        false
    }

    /// The module a relative import in `current_module` refers to (see
    /// `relative_import_target`); `importer_path` is the importing file, if known.
    pub fn resolve_relative_import_with_context(
        &self,
        level: u32,
        module: &Option<String>,
        current_module: &str,
        importer_path: Option<&str>,
    ) -> (r: Option<String>)
        ensures
            r matches Some(s) ==> relative_import_target(
                self.bundled(),
                level,
                match module {
                    Some(m) => Some(m@),
                    None => None,
                },
                current_module@,
                match importer_path {
                    Some(p) => Some(p@),
                    None => None,
                },
            ) == Some(s@),
            r is None ==> relative_import_target(
                self.bundled(),
                level,
                match module {
                    Some(m) => Some(m@),
                    None => None,
                },
                current_module@,
                match importer_path {
                    Some(p) => Some(p@),
                    None => None,
                },
            ) is None,
    {
        if level == 0 {
            return match module {
                Some(m) => Some(copy_string(m)),
                None => None,
            };
        }
        let parts = split_char(current_module, '.');
        proof {
            lemma_split_nonempty(current_module@, '.');
            reveal_strlit("__init__.py");
        }
        let mut kept: Vec<String>;
        if parts.len() == 1 && level == 1 {
            if self.has_bundled_submodule(current_module) {
                kept = parts;
            } else {
                kept = Vec::new();
                proof {
                    assert(views(kept@) =~= Seq::<Seq<char>>::empty());
                }
            }
        } else {
            let is_package_init = match importer_path {
                Some(p) => {
                    let c = components(p);
                    c.len() > 0 && str_eq(c[c.len() - 1].as_str(), "__init__.py")
                },
                None => self.has_bundled_submodule(current_module),
            };
            let levels_to_remove: u32 = if is_package_init {
                level - 1
            } else {
                level
            };
            if levels_to_remove as usize > parts.len() {
                return None;
            }
            kept = copy_range(&parts, 0, parts.len() - levels_to_remove as usize);
        }
        if let Some(m) = module {
            let ghost before = views(kept@);
            kept.push(copy_string(m));
            proof {
                assert(views(kept@) =~= before.push(m@));
            }
        }
        Some(join_strings(&kept, "."))
    }

    /// The module an import in `current_module` refers to, with no path known.
    pub fn resolve_relative_import(&self, level: u32, module: &Option<String>, current_module: &str) -> (r:
        Option<String>)
        ensures
            r matches Some(s) ==> relative_import_target(
                self.bundled(),
                level,
                match module {
                    Some(m) => Some(m@),
                    None => None,
                },
                current_module@,
                None,
            ) == Some(s@),
            r is None ==> relative_import_target(
                self.bundled(),
                level,
                match module {
                    Some(m) => Some(m@),
                    None => None,
                },
                current_module@,
                None,
            ) is None,
    {
        self.resolve_relative_import_with_context(level, module, current_module, None)
    }
}

} // verus!
