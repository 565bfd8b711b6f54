//! Bundling the modules into one module by the hybrid approach: modules
//! without side effects are inlined, modules imported as namespaces are
//! inlined behind a namespace object, the other modules are wrapped in init
//! functions run through an import hook, and the entry module's code comes
//! last.
use vstd::prelude::*;

use indexmap::IndexSet;

use crate::ast::{Alias, ModModule, Stmt};
use crate::code_generator::{all_exports, byte_boundary, insert_all, HybridStaticBundler};
use crate::cribo_graph::UnusedImportInfo;
use crate::symbols::removable_import;
use crate::collections::{
    export_map_entries, export_map_get, export_map_insert, export_map_new, index_set_items, name_map_entries,
    name_map_new, name_map_pairs, opt_names_view, rename_map_entries, rename_map_get, rename_map_pairs, ExportMap,
    NameMap, RenameMap,
};
use crate::entry_module::entry_stmt_processed;
use crate::builders::is_reassignment;
use crate::globals_lifter::ModuleGlobalInfo;
use crate::hoisting::{hoisted_block, is_hoisted, stdlib_aliases_normalized};
use crate::import_rewrite::{entry_import_chain, import_handled, rewritten_stmt};
use crate::import_scan::{modules_direct_imports, modules_with_function_imports, BundleModule};
use crate::inlining::{inlined_module, InlineContext};
use crate::module_kinds::{bundle_kind, select, select_globals, BundleKind};
use crate::namespace_inlining::inlined_namespace_module;
use crate::namespaces::namespace_modules;
use crate::orchestrator::push_unique;
use crate::submodules::{submodule_attributes, submodule_links};
use crate::symbols::entry_symbols;
use crate::text::{copy_range, copy_string, views};
use crate::wrapper_bundle::{is_wrapper_section, registry_has_inits, WrappedModule};

verus! {

/// What bundling is given: the modules (name, syntax tree, path, content
/// hash), the module names in dependency order, the entry module's name,
/// the renames of module-level names by module that the semantic analysis
/// chose, what the analysis of each module's globals found, and the imports
/// the dependency graph found unused in each module (the last two with one
/// entry per module, in the modules' order).
pub struct BundleParams {
    pub modules: Vec<BundleModule>,
    pub unused_imports: Vec<Vec<UnusedImportInfo>>,
    pub sorted_modules: Vec<String>,
    pub entry_module_name: String,
    pub symbol_renames: RenameMap,
    pub module_globals: Vec<Option<ModuleGlobalInfo>>,
}

// ---------------------------------------------------------------------------
// Specification: unused imports
// ---------------------------------------------------------------------------

/// The statements of `body` other than the imports that bind only unused names.
pub open spec fn kept_statements(body: Seq<Stmt>, unused: Seq<UnusedImportInfo>) -> Seq<Stmt>
    decreases body.len(),
{
    if body.len() == 0 {
        Seq::empty()
    } else {
        let rest = kept_statements(body.drop_last(), unused);
        if removable_import(body.last(), unused) {
            rest
        } else {
            rest.push(body.last())
        }
    }
}

/// `t` is `m` without its unused imports.
pub open spec fn trimmed_module(m: BundleModule, unused: Seq<UnusedImportInfo>, t: BundleModule) -> bool {
    t.0@ == m.0@ && t.2@ == m.2@ && t.3@ == m.3@ && t.1.body@ == kept_statements(m.1.body@, unused)
}

/// `ts` are the modules `ms`, each without the unused imports `us` gives it.
pub open spec fn trimmed_modules(ms: Seq<BundleModule>, us: Seq<Vec<UnusedImportInfo>>, ts: Seq<BundleModule>) -> bool {
    ts.len() == ms.len() && us.len() == ms.len() && forall|i: int|
        0 <= i < ms.len() ==> trimmed_module(ms[i], us[i]@, #[trigger] ts[i])
}

// ---------------------------------------------------------------------------
// Specification: how each module is held
// ---------------------------------------------------------------------------

/// The bundled modules once the modules `ms` are recorded in turn.
pub open spec fn bundled_after(bundled: Seq<Seq<char>>, ms: Seq<BundleModule>) -> Seq<Seq<char>>
    decreases ms.len(),
{
    if ms.len() == 0 {
        bundled
    } else {
        push_unique(bundled_after(bundled, ms.drop_last()), ms.last().0@)
    }
}

/// How the bundle holds each of the modules `ms` (see `bundle_kind`), for a
/// bundler in the state `b` at the start: the namespace imports, direct
/// imports and imports inside functions are those the modules make.
pub open spec fn planned_kinds(b: HybridStaticBundler, ms: Seq<BundleModule>, entry: Seq<char>) -> Seq<BundleKind> {
    let ns = namespace_modules(b.namespace_imports(), ms, ms);
    let direct = insert_all(Seq::empty(), modules_direct_imports(ms, bundled_after(b.bundled(), ms), ms));
    let fi = insert_all(Seq::empty(), modules_with_function_imports(ms));
    Seq::new(ms.len(), |i: int| bundle_kind(ns, entry, direct, fi, ms[i]))
}

/// Some module to wrap has a content hash too short to name it (its byte 6
/// is not a character boundary).
pub open spec fn unnameable_wrapper(ms: Seq<BundleModule>, kinds: Seq<BundleKind>) -> bool {
    exists|i: int| 0 <= i < ms.len() && kinds[i] == BundleKind::Wrapped && !byte_boundary(#[trigger] ms[i].3@, 6)
}

/// The `__all__` lists of the modules other than the entry module, by name.
pub open spec fn module_exports_of(ms: Seq<BundleModule>, entry: Seq<char>) -> Map<Seq<char>, Option<Seq<Seq<char>>>>
    decreases ms.len(),
{
    if ms.len() == 0 {
        Map::empty()
    } else {
        let rest = module_exports_of(ms.drop_last(), entry);
        if ms.last().0@ == entry {
            rest
        } else {
            rest.insert(ms.last().0@, all_exports(ms.last().1.body@))
        }
    }
}

/// `n` is `m` with its stdlib import aliases normalized (see
/// `stdlib_aliases_normalized`): same name, path and hash.
pub open spec fn normalized_module(m: BundleModule, n: BundleModule) -> bool {
    n.0@ == m.0@ && n.2@ == m.2@ && n.3@ == m.3@ && stdlib_aliases_normalized(m.1.body@, n.1.body@)
}

/// `ns` are the modules `ms`, each normalized.
pub open spec fn normalized_modules(ms: Seq<BundleModule>, ns: Seq<BundleModule>) -> bool {
    ns.len() == ms.len() && forall|i: int| 0 <= i < ms.len() ==> normalized_module(ms[i], #[trigger] ns[i])
}

// ---------------------------------------------------------------------------
// Specification: inlining
// ---------------------------------------------------------------------------

/// `ctx` starts the inlining of a module with the `__all__` lists, global
/// names and renames of `prev`, no statement and no import alias.
pub open spec fn fresh_context(prev: InlineContext, ctx: InlineContext) -> bool {
    &&& ctx.module_exports_map == prev.module_exports_map
    &&& ctx.global_symbols == prev.global_symbols
    &&& ctx.module_renames == prev.module_renames
    &&& ctx.inlined_stmts@.len() == 0
    &&& name_map_entries(ctx.import_aliases).dom() == Set::<Seq<char>>::empty()
    &&& name_map_pairs(ctx.import_aliases) == Seq::<(Seq<char>, Seq<char>)>::empty()
}

/// The statements inlined by the contexts, in turn.
pub open spec fn inlined_output(cs: Seq<InlineContext>) -> Seq<Stmt>
    decreases cs.len(),
{
    if cs.len() == 0 {
        Seq::empty()
    } else {
        inlined_output(cs.drop_last()) + cs.last().inlined_stmts@
    }
}

/// The modules `ms` inlined in turn, the first `ns` of them behind
/// namespace objects: `befores[i]` and `afters[i]` are the contexts around
/// module `i`, each fresh from the one before (the first from `start`).
#[verifier::opaque]
pub open spec fn inline_chain(
    b: HybridStaticBundler,
    ms: Seq<BundleModule>,
    ns: int,
    start: InlineContext,
    befores: Seq<InlineContext>,
    afters: Seq<InlineContext>,
) -> bool {
    &&& befores.len() == ms.len()
    &&& afters.len() == ms.len()
    &&& forall|i: int|
        0 <= i < ms.len() ==> {
            &&& fresh_context(if i == 0 { start } else { afters[i - 1] }, #[trigger] befores[i])
            &&& if i < ns {
                inlined_namespace_module(b, ms[i].0@, ms[i].2@, ms[i].1.body@, befores[i], afters[i])
            } else {
                inlined_module(b, ms[i].0@, ms[i].2@, ms[i].1.body@, befores[i], afters[i])
            }
        }
}

// ---------------------------------------------------------------------------
// Specification: the entry module
// ---------------------------------------------------------------------------

/// The renames of the entry module's names, as a map and in order.
pub open spec fn entry_renames(renames: RenameMap, entry: Seq<char>) -> (Map<Seq<char>, Seq<char>>, Seq<(Seq<char>, Seq<char>)>) {
    if rename_map_entries(renames).contains_key(entry) {
        (rename_map_entries(renames)[entry], rename_map_pairs(renames)[entry])
    } else {
        (Map::empty(), Seq::empty())
    }
}

/// What a statement of the entry module that is neither an import nor
/// hoisted becomes under the entry module's renames `er` (in order `ep`).
pub open spec fn entry_stmt_out(
    stmt: Stmt,
    er: Map<Seq<char>, Seq<char>>,
    ep: Seq<(Seq<char>, Seq<char>)>,
    out: Seq<Stmt>,
) -> bool {
    if er.dom() == Set::<Seq<char>>::empty() {
        out == seq![stmt]
    } else {
        exists|new: Stmt, pending: Option<(Seq<char>, Seq<char>)>|
            {
                &&& #[trigger] entry_stmt_processed(stmt, new, pending, er, ep)
                &&& match pending {
                    Some(p) => if p.0 != p.1 {
                        out.len() == 2 && out[0] == new && is_reassignment(out[1], p.0, p.1)
                    } else {
                        out == seq![new]
                    },
                    None => out == seq![new],
                }
            }
    }
}

/// One statement of the entry module: a hoisted import is dropped; a `from`
/// import is rewritten; an `import` is rewritten (which may create namespace
/// objects, the bundler going from `b` to `b2`); any other statement takes
/// the entry module's renames.
#[verifier::opaque]
pub open spec fn entry_step(
    b: HybridStaticBundler,
    b2: HybridStaticBundler,
    stmt: Stmt,
    entry: Seq<char>,
    renames: RenameMap,
    out: Seq<Stmt>,
) -> bool {
    if is_hoisted(b.hoist_view(), stmt) {
        b2 == b && out.len() == 0
    } else {
        match stmt {
            Stmt::ImportFrom { .. } => b2 == b && rewritten_stmt(
                b,
                stmt,
                entry,
                rename_map_pairs(renames),
                rename_map_entries(renames),
                out,
            ),
            Stmt::Import(names) => {
                &&& b.same_but_created_namespaces(b2)
                &&& exists|o: Seq<Stmt>|
                    {
                        &&& #[trigger] entry_import_chain(
                            b.registry(),
                            b.bundled(),
                            names@,
                            b.created_namespaces(),
                            b2.created_namespaces(),
                            o,
                        )
                        &&& if forall|i: int| 0 <= i < names@.len() ==> #[trigger] import_handled(b, names@[i]) {
                            out == o
                        } else {
                            out == seq![stmt]
                        }
                    }
            },
            _ => b2 == b && entry_stmt_out(stmt, entry_renames(renames, entry).0, entry_renames(renames, entry).1, out),
        }
    }
}

/// The statements of the entry modules' bodies, in turn.
pub open spec fn entry_statements(es: Seq<BundleModule>) -> Seq<Stmt>
    decreases es.len(),
{
    if es.len() == 0 {
        Seq::empty()
    } else {
        entry_statements(es.drop_last()) + es.last().1.body@
    }
}

/// The parts the entry statements become, in turn.
pub open spec fn concat_outs(outs: Seq<Seq<Stmt>>) -> Seq<Stmt>
    decreases outs.len(),
{
    if outs.len() == 0 {
        Seq::empty()
    } else {
        concat_outs(outs.drop_last()) + outs.last()
    }
}

/// The statements `stmts` of the entry module in turn, the bundler going
/// through the states `bs` and each statement giving `outs[i]`.
#[verifier::opaque]
pub open spec fn entry_chain(
    stmts: Seq<Stmt>,
    entry: Seq<char>,
    renames: RenameMap,
    bs: Seq<HybridStaticBundler>,
    outs: Seq<Seq<Stmt>>,
) -> bool {
    &&& bs.len() == stmts.len() + 1
    &&& outs.len() == stmts.len()
    &&& forall|i: int| 0 <= i < stmts.len() ==> entry_step(#[trigger] bs[i], bs[i + 1], stmts[i], entry, renames, outs[i])
}

// ---------------------------------------------------------------------------
// Specification: the bundle
// ---------------------------------------------------------------------------

/// The parts of a bundle, for the modules `ms` (with unused imports `us`, globals `gs`, sorted
/// names `sorted`, entry `entry`, renames `renames0`) bundled from a
/// bundler in the state `b0`, which ends in the state `b9`.
///
/// The modules are first stripped of their unused imports (`trimmed`),
/// then normalized (`normalized`), and their kinds fixed (`planned_kinds`,
/// over the stripped modules). `mid` is the bundler once the wrapped modules are
/// registered and the imports hoisted; only the entry module's imports,
/// which create namespace objects, change it after. The bundle's body is,
/// in order:
/// - the hoisted imports of `mid`, `__future__` first (`hoisted_block`);
/// - the modules imported as namespaces, then the other inlined modules,
///   inlined in turn from the modules' `__all__` lists, the entry module's
///   global names and `renames0` (`inline_chain`);
/// - where some module is wrapped: the wrapped modules (`is_wrapper_section`,
///   with the renames the inlining left), then their parents' submodule
///   attributes (`submodule_attributes`); else nothing;
/// - the entry module's statements, each handled in turn (`entry_chain`).
#[verifier::opaque]
pub open spec fn bundle_parts(
    b0: HybridStaticBundler,
    ms: Seq<BundleModule>,
    us: Seq<Vec<UnusedImportInfo>>,
    gs: Seq<Option<ModuleGlobalInfo>>,
    sorted: Seq<Seq<char>>,
    entry: Seq<char>,
    renames0: RenameMap,
    b9: HybridStaticBundler,
    body: Seq<Stmt>,
    trimmed: Seq<BundleModule>,
    normalized: Seq<BundleModule>,
    mid: HybridStaticBundler,
    sections: Seq<Seq<Stmt>>,
    start: InlineContext,
    befores: Seq<InlineContext>,
    afters: Seq<InlineContext>,
    bs: Seq<HybridStaticBundler>,
    outs: Seq<Seq<Stmt>>,
) -> bool {
    let kinds = planned_kinds(b0, trimmed, entry);
    let ns_mods = select(normalized, kinds, BundleKind::Namespace);
    let inl_mods = select(normalized, kinds, BundleKind::Inlined);
    let wrapped = select(normalized, kinds, BundleKind::Wrapped);
    let wrapped_globals = select_globals(gs, kinds, BundleKind::Wrapped);
    let renames = if afters.len() == 0 { renames0 } else { afters.last().module_renames };
    let ws = Seq::new(wrapped.len(), |i: int| (wrapped[i], wrapped_globals[i]));
    let before_attrs = sections[0] + sections[1] + sections[2];
    &&& trimmed_modules(ms, us, trimmed)
    &&& !unnameable_wrapper(trimmed, kinds)
    &&& normalized_modules(trimmed, normalized)
    &&& sections.len() == 5
    &&& body == sections[0] + sections[1] + sections[2] + sections[3] + sections[4]
    &&& hoisted_block(sections[0], mid.hoist_view())
    &&& export_map_entries(start.module_exports_map) == module_exports_of(trimmed, entry)
    &&& index_set_items(start.global_symbols) == insert_all(Seq::empty(), entry_symbols(normalized, entry))
    &&& start.module_renames == renames0
    &&& inline_chain(mid, ns_mods + inl_mods, ns_mods.len() as int, start, befores, afters)
    &&& sections[1] == inlined_output(afters)
    &&& if wrapped.len() > 0 {
        &&& is_wrapper_section(mid, ws, sorted, entry, renames, sections[2])
        &&& submodule_attributes(
            mid.registry(),
            mid.bundled(),
            submodule_links(sorted, mid.bundled(), mid.registry()),
            before_attrs,
            before_attrs + sections[3],
        )
    } else {
        sections[2].len() == 0 && sections[3].len() == 0
    }
    &&& entry_chain(entry_statements(select(normalized, kinds, BundleKind::Entry)), entry, renames, bs, outs)
    &&& bs[0] == mid
    &&& bs.last() == b9
    &&& sections[4] == concat_outs(outs)
}

/// `body` bundles the modules (see `bundle_parts`).
pub open spec fn is_bundle(
    b0: HybridStaticBundler,
    ms: Seq<BundleModule>,
    us: Seq<Vec<UnusedImportInfo>>,
    gs: Seq<Option<ModuleGlobalInfo>>,
    sorted: Seq<Seq<char>>,
    entry: Seq<char>,
    renames0: RenameMap,
    b9: HybridStaticBundler,
    body: Seq<Stmt>,
) -> bool {
    exists|
        trimmed: Seq<BundleModule>,
        normalized: Seq<BundleModule>,
        mid: HybridStaticBundler,
        sections: Seq<Seq<Stmt>>,
        start: InlineContext,
        befores: Seq<InlineContext>,
        afters: Seq<InlineContext>,
        bs: Seq<HybridStaticBundler>,
        outs: Seq<Seq<Stmt>>,
    |
        #[trigger] bundle_parts(
            b0,
            ms,
            us,
            gs,
            sorted,
            entry,
            renames0,
            b9,
            body,
            trimmed,
            normalized,
            mid,
            sections,
            start,
            befores,
            afters,
            bs,
            outs,
        )
}

// ---------------------------------------------------------------------------
// Bundling
// ---------------------------------------------------------------------------

/// Whether the first six bytes of `s` in UTF-8 end on a character boundary.
fn has_byte_boundary_6(s: &str) -> (r: bool)
    ensures
        r == byte_boundary(s@, 6),
{
    let ghost h = s@;
    let n = s.unicode_len();
    let mut i: usize = 0;
    let mut rem: i64 = 6;
    proof {
        assert(h.skip(0) =~= h);
    }
    while rem > 0 && i < n
        invariant
            n == h.len(),
            h == s@,
            i <= n,
            -3 <= rem <= 6,
            byte_boundary(h.skip(i as int), rem as int) == byte_boundary(h, 6),
        decreases n - i,
    {
        let c = s.get_char(i);
        let code = c as u32;
        let width: i64 = if code < 0x80 {
            1
        } else if code < 0x800 {
            2
        } else if code < 0x10000 {
            3
        } else {
            4
        };
        proof {
            let t = h.skip(i as int);
            assert(t[0] == c);
            assert(width as int == crate::code_generator::utf8_width(c));
            assert(t.drop_first() =~= h.skip(i + 1));
        }
        rem = rem - width;
        i = i + 1;
    }
    proof {
        if rem > 0 {
            assert(h.skip(i as int).len() == 0);
        }
    }
    rem == 0
}

impl HybridStaticBundler {
    /// Records the `__future__` features of all the modules.
    fn collect_all_future_imports(&mut self, modules: &Vec<BundleModule>)
        ensures
            final(self).namespace_imports() == old(self).namespace_imports(),
            final(self).bundled() == old(self).bundled(),
            final(self).registry() == old(self).registry(),
            final(self).init_function_names() == old(self).init_function_names(),
    {
        let ghost b0 = *self;
        let mut i: usize = 0;
        while i < modules.len()
            invariant
                i <= modules.len(),
                self.namespace_imports() == b0.namespace_imports(),
                self.bundled() == b0.bundled(),
                self.registry() == b0.registry(),
                self.init_function_names() == b0.init_function_names(),
            decreases modules.len() - i,
        {
            self.collect_future_imports_from_ast(&modules[i].1);
            i = i + 1;
        }
    }

    /// The modules without the imports that bind only names the dependency
    /// graph found unused in them.
    pub fn trim_unused_imports_from_modules(
        &self,
        modules: Vec<BundleModule>,
        unused_imports: &Vec<Vec<UnusedImportInfo>>,
    ) -> (r: Vec<BundleModule>)
        requires
            unused_imports@.len() == modules@.len(),
        ensures
            trimmed_modules(modules@, unused_imports@, r@),
    {
        let ghost ms = modules@;
        let mut out: Vec<BundleModule> = Vec::new();
        let mut rest = modules;
        let ghost mut k: int = 0;
        proof {
            assert(ms.skip(0) =~= ms);
        }
        while rest.len() > 0
            invariant
                0 <= k <= ms.len(),
                unused_imports@.len() == ms.len(),
                rest@ == ms.skip(k),
                out@.len() == k,
                forall|i: int| 0 <= i < k ==> trimmed_module(ms[i], unused_imports@[i]@, #[trigger] out@[i]),
            decreases rest.len(),
        {
            let m = rest.remove(0);
            proof {
                assert(m == ms[k]);
                assert(rest@ =~= ms.skip(k + 1));
            }
            let ghost i = out@.len();
            let unused = &unused_imports[out.len()];
            let (name, ast, path, hash) = m;
            let ghost body = ast.body@;
            let mut kept: Vec<Stmt> = Vec::new();
            let mut stmts = ast.body;
            let ghost mut j: int = 0;
            proof {
                assert(body.skip(0) =~= body);
                assert(kept@ =~= kept_statements(body.subrange(0, 0), unused@));
            }
            while stmts.len() > 0
                invariant
                    0 <= j <= body.len(),
                    stmts@ == body.skip(j),
                    kept@ == kept_statements(body.subrange(0, j), unused@),
                decreases stmts.len(),
            {
                let st = stmts.remove(0);
                proof {
                    assert(st == body[j]);
                    assert(stmts@ =~= body.skip(j + 1));
                    assert(body.subrange(0, j + 1).drop_last() =~= body.subrange(0, j));
                }
                if !self.should_remove_import_stmt(&st, unused) {
                    kept.push(st);
                }
                proof {
                    j = j + 1;
                }
            }
            proof {
                assert(body.subrange(0, j) =~= body);
            }
            out.push((name, ModModule { body: kept }, path, hash));
            proof {
                k = k + 1;
            }
        }
        out
    }

    /// Records what bundling needs to know of the modules before any of them
    /// is rewritten: that they are bundled,
    /// which are imported as namespaces; decides how each is held, gives the
    /// `__all__` lists of the modules other than the entry module, and
    /// records the inlined modules (those imported as namespaces too, which
    /// are bundled as such).
    fn prepare_modules(&mut self, modules: &Vec<BundleModule>, entry_module_name: &str) -> (r: (
        Vec<BundleKind>,
        ExportMap,
    ))
        ensures
            r.0@ == planned_kinds(*old(self), modules@, entry_module_name@),
            export_map_entries(r.1) == module_exports_of(modules@, entry_module_name@),
            final(self).registry() == old(self).registry(),
            final(self).init_function_names() == old(self).init_function_names(),
    {
        let ghost ms = modules@;
        let ghost b0 = *self;
        let mut i: usize = 0;
        proof {
            assert(ms.subrange(0, 0) =~= Seq::<BundleModule>::empty());
        }
        while i < modules.len()
            invariant
                i <= modules.len(),
                ms == modules@,
                self.namespace_imports() == b0.namespace_imports(),
                self.bundled() == bundled_after(b0.bundled(), ms.subrange(0, i as int)),
                self.registry() == b0.registry(),
                self.init_function_names() == b0.init_function_names(),
            decreases modules.len() - i,
        {
            let ghost t = ms.subrange(0, i + 1);
            proof {
                assert(t.drop_last() =~= ms.subrange(0, i as int));
            }
            self.track_bundled_module(copy_string(&modules[i].0));
            i = i + 1;
        }
        proof {
            assert(ms.subrange(0, i as int) =~= ms);
        }
        let function_imports = self.find_modules_with_function_imports(modules);
        let directly_imported = self.find_directly_imported_modules(modules, entry_module_name);
        self.find_namespace_imported_modules(modules);
        let kinds = self.module_kinds(modules, entry_module_name, &directly_imported, &function_imports);
        proof {
            assert(kinds@ =~= planned_kinds(b0, ms, entry_module_name@));
        }
        let ghost b1 = *self;
        let mut exports = export_map_new();
        let mut i: usize = 0;
        proof {
            assert(export_map_entries(exports) =~= module_exports_of(ms.subrange(0, 0), entry_module_name@));
        }
        while i < modules.len()
            invariant
                i <= modules.len(),
                ms == modules@,
                export_map_entries(exports) == module_exports_of(ms.subrange(0, i as int), entry_module_name@),
            decreases modules.len() - i,
        {
            let ghost t = ms.subrange(0, i + 1);
            proof {
                assert(t.drop_last() =~= ms.subrange(0, i as int));
                assert(t.last() == ms[i as int]);
            }
            if !crate::text::str_eq(modules[i].0.as_str(), entry_module_name) {
                let module_exports = self.extract_all_exports(&modules[i].1);
                export_map_insert(&mut exports, copy_string(&modules[i].0), module_exports);
            }
            i = i + 1;
        }
        proof {
            assert(ms.subrange(0, i as int) =~= ms);
        }
        let mut i: usize = 0;
        while i < modules.len()
            invariant
                i <= modules.len(),
                ms == modules@,
                kinds@.len() == ms.len(),
                self.registry() == b0.registry(),
                self.init_function_names() == b0.init_function_names(),
            decreases modules.len() - i,
        {
            if kinds[i] == BundleKind::Inlined {
                self.track_inlined_module(copy_string(&modules[i].0));
            }
            i = i + 1;
        }
        let mut i: usize = 0;
        while i < modules.len()
            invariant
                i <= modules.len(),
                ms == modules@,
                kinds@.len() == ms.len(),
                self.registry() == b0.registry(),
                self.init_function_names() == b0.init_function_names(),
            decreases modules.len() - i,
        {
            if kinds[i] == BundleKind::Namespace {
                self.track_bundled_module(copy_string(&modules[i].0));
                self.track_inlined_module(copy_string(&modules[i].0));
            }
            i = i + 1;
        }
        (kinds, exports)
    }

    /// The modules with their stdlib import aliases normalized, in order.
    fn normalize_modules(&self, modules: Vec<BundleModule>) -> (r: Vec<BundleModule>)
        ensures
            normalized_modules(modules@, r@),
    {
        let ghost ms = modules@;
        let mut out: Vec<BundleModule> = Vec::new();
        let mut rest = modules;
        let n = rest.len();
        let mut k: usize = 0;
        proof {
            assert(ms.skip(0) =~= ms);
        }
        while rest.len() > 0
            invariant
                n == ms.len(),
                k <= n,
                rest@ == ms.skip(k as int),
                out@.len() == k,
                forall|i: int| 0 <= i < k ==> normalized_module(ms[i], #[trigger] out@[i]),
            decreases rest.len(),
        {
            let m = rest.remove(0);
            proof {
                assert(m == ms[k as int]);
                assert(rest@ =~= ms.skip(k + 1));
            }
            let (name, ast, path, hash) = m;
            let normalized = self.normalize_stdlib_import_aliases(ast);
            out.push((name, normalized, path, hash));
            k = k + 1;
        }
        out
    }

    /// Splits the modules and their globals by kind, keeping their order:
    /// those imported as namespaces, the inlined ones, the wrapped ones with
    /// their globals, and the entry modules.
    fn partition_modules(
        modules: Vec<BundleModule>,
        kinds: &Vec<BundleKind>,
        globals: Vec<Option<ModuleGlobalInfo>>,
    ) -> (r: (Vec<BundleModule>, Vec<BundleModule>, Vec<BundleModule>, Vec<Option<ModuleGlobalInfo>>, Vec<BundleModule>))
        requires
            kinds@.len() == modules@.len(),
            globals@.len() == modules@.len(),
        ensures
            r.0@ == select(modules@, kinds@, BundleKind::Namespace),
            r.1@ == select(modules@, kinds@, BundleKind::Inlined),
            r.2@ == select(modules@, kinds@, BundleKind::Wrapped),
            r.3@ == select_globals(globals@, kinds@, BundleKind::Wrapped),
            r.4@ == select(modules@, kinds@, BundleKind::Entry),
    {
        let ghost ms = modules@;
        let ghost gs = globals@;
        let ghost ks = kinds@;
        let mut ns: Vec<BundleModule> = Vec::new();
        let mut inl: Vec<BundleModule> = Vec::new();
        let mut wr: Vec<BundleModule> = Vec::new();
        let mut wg: Vec<Option<ModuleGlobalInfo>> = Vec::new();
        let mut en: Vec<BundleModule> = Vec::new();
        let mut rest = modules;
        let mut grest = globals;
        let n = rest.len();
        let mut k: usize = 0;
        proof {
            assert(ms.skip(0) =~= ms);
            assert(gs.skip(0) =~= gs);
            assert(ms.subrange(0, 0) =~= Seq::<BundleModule>::empty());
            assert(gs.subrange(0, 0) =~= Seq::<Option<ModuleGlobalInfo>>::empty());
        }
        while rest.len() > 0
            invariant
                n == ms.len(),
                n == gs.len(),
                n == ks.len(),
                ks == kinds@,
                k <= n,
                rest@ == ms.skip(k as int),
                grest@ == gs.skip(k as int),
                ns@ == select(ms.subrange(0, k as int), ks.subrange(0, k as int), BundleKind::Namespace),
                inl@ == select(ms.subrange(0, k as int), ks.subrange(0, k as int), BundleKind::Inlined),
                wr@ == select(ms.subrange(0, k as int), ks.subrange(0, k as int), BundleKind::Wrapped),
                wg@ == select_globals(gs.subrange(0, k as int), ks.subrange(0, k as int), BundleKind::Wrapped),
                en@ == select(ms.subrange(0, k as int), ks.subrange(0, k as int), BundleKind::Entry),
            decreases rest.len(),
        {
            let m = rest.remove(0);
            let g = grest.remove(0);
            proof {
                assert(m == ms[k as int]);
                assert(g == gs[k as int]);
                assert(rest@ =~= ms.skip(k + 1));
                assert(grest@ =~= gs.skip(k + 1));
                assert(ms.subrange(0, k + 1).drop_last() =~= ms.subrange(0, k as int));
                assert(ks.subrange(0, k + 1).drop_last() =~= ks.subrange(0, k as int));
                assert(gs.subrange(0, k + 1).drop_last() =~= gs.subrange(0, k as int));
            }
            let kind = kinds[k];
            match kind {
                BundleKind::Namespace => ns.push(m),
                BundleKind::Inlined => inl.push(m),
                BundleKind::Wrapped => {
                    wr.push(m);
                    wg.push(g);
                },
                BundleKind::Entry => en.push(m),
            }
            k = k + 1;
        }
        proof {
            assert(ms.subrange(0, k as int) =~= ms);
            assert(ks.subrange(0, k as int) =~= ks);
            assert(gs.subrange(0, k as int) =~= gs);
        }
        (ns, inl, wr, wg, en)
    }
}

proof fn lemma_entry_chain_push(
    stmts: Seq<Stmt>,
    entry: Seq<char>,
    renames: RenameMap,
    bs: Seq<HybridStaticBundler>,
    outs: Seq<Seq<Stmt>>,
    st: Stmt,
    b2: HybridStaticBundler,
    piece: Seq<Stmt>,
)
    requires
        entry_chain(stmts, entry, renames, bs, outs),
        entry_step(bs.last(), b2, st, entry, renames, piece),
    ensures
        entry_chain(stmts.push(st), entry, renames, bs.push(b2), outs.push(piece)),
        concat_outs(outs.push(piece)) == concat_outs(outs) + piece,
{
    reveal(entry_chain);
    let nb = bs.push(b2);
    let no = outs.push(piece);
    let ns = stmts.push(st);
    assert forall|i: int| 0 <= i < ns.len() implies entry_step(#[trigger] nb[i], nb[i + 1], ns[i], entry, renames, no[i]) by {
        if i < stmts.len() {
            assert(nb[i] == bs[i]);
            assert(nb[i + 1] == bs[i + 1]);
            assert(no[i] == outs[i]);
            assert(ns[i] == stmts[i]);
        } else {
            assert(nb[i] == bs.last());
        }
    }
    assert(no.drop_last() =~= outs);
}

impl HybridStaticBundler {
    /// Records the `__all__` list of each module imported as a namespace:
    /// its explicit one, else the names its top level defines (`None` where
    /// it defines none).
    fn record_namespace_exports(&mut self, ns: &Vec<BundleModule>, exports: &ExportMap)
        ensures
            final(self).hoist_view() == old(self).hoist_view(),
            final(self).bundled() == old(self).bundled(),
            old(self).same_wrapping(*final(self)),
    {
        let ghost b0 = *self;
        let mut i: usize = 0;
        while i < ns.len()
            invariant
                i <= ns.len(),
                self.hoist_view() == b0.hoist_view(),
                self.bundled() == b0.bundled(),
                b0.same_wrapping(*self),
            decreases ns.len() - i,
        {
            let explicit: Option<Vec<String>> = match export_map_get(exports, ns[i].0.as_str()) {
                Some(Some(v)) => Some(copy_range(v, 0, v.len())),
                _ => None,
            };
            let module_exports = match explicit {
                Some(v) => Some(v),
                None => {
                    let mut symbols: Vec<String> = Vec::new();
                    let body = &ns[i].1.body;
                    let nb = body.len();
                    let mut j: usize = 0;
                    while j < nb
                        invariant
                            j <= nb,
                            nb == body@.len(),
                        decreases nb - j,
                    {
                        self.collect_module_symbol(&body[j], &mut symbols);
                        j = j + 1;
                    }
                    if symbols.len() == 0 {
                        None
                    } else {
                        Some(symbols)
                    }
                },
            };
            self.track_module_exports(copy_string(&ns[i].0), module_exports);
            i = i + 1;
        }
    }

    /// Inlines the modules imported as namespaces, then the other inlined
    /// modules, appending what each gives to `out`; the `__all__` lists,
    /// global names and renames carry over from module to module. Gives the
    /// renames at the end, with the contexts around each module.
    fn inline_modules(
        &self,
        ns: Vec<BundleModule>,
        inl: Vec<BundleModule>,
        exports: ExportMap,
        globals: IndexSet<String>,
        renames: RenameMap,
        out: &mut Vec<Stmt>,
    ) -> (r: (RenameMap, Ghost<(InlineContext, Seq<InlineContext>, Seq<InlineContext>)>))
        ensures
            ({
                let (start, befores, afters) = r.1@;
                &&& start.module_exports_map == exports
                &&& start.global_symbols == globals
                &&& start.module_renames == renames
                &&& inline_chain(*self, ns@ + inl@, ns@.len() as int, start, befores, afters)
                &&& final(out)@ == old(out)@ + inlined_output(afters)
                &&& r.0 == if afters.len() == 0 { renames } else { afters.last().module_renames }
            }),
    {
        let ghost ms = ns@ + inl@;
        let ghost nn = ns@.len() as int;
        let mut ctx = InlineContext {
            module_exports_map: exports,
            global_symbols: globals,
            module_renames: renames,
            inlined_stmts: Vec::new(),
            import_aliases: name_map_new(),
        };
        let ghost start = ctx;
        let ghost mut befores: Seq<InlineContext> = Seq::empty();
        let ghost mut afters: Seq<InlineContext> = Seq::empty();
        let ghost out0 = out@;
        let mut rest = ns;
        let mut rest2 = inl;
        let ghost n1 = rest@;
        let ghost n2 = rest2@;
        let ghost mut k: int = 0;
        proof {
            assert(n1.skip(0) =~= n1);
            assert(n2.skip(0) =~= n2);
            assert(out@ =~= out0 + inlined_output(afters));
        }
        while rest.len() > 0 || rest2.len() > 0
            invariant
                ms == n1 + n2,
                nn == n1.len(),
                0 <= k <= ms.len(),
                k < n1.len() ==> rest@ == n1.skip(k) && rest2@ == n2,
                k >= n1.len() ==> rest@.len() == 0 && rest2@ == n2.skip(k - n1.len()),
                befores.len() == k,
                afters.len() == k,
                ctx.module_exports_map == (if k == 0 { start } else { afters.last() }).module_exports_map,
                ctx.global_symbols == (if k == 0 { start } else { afters.last() }).global_symbols,
                ctx.module_renames == (if k == 0 { start } else { afters.last() }).module_renames,
                forall|i: int|
                    0 <= i < k ==> {
                        &&& fresh_context(if i == 0 { start } else { afters[i - 1] }, #[trigger] befores[i])
                        &&& if i < nn {
                            inlined_namespace_module(*self, ms[i].0@, ms[i].2@, ms[i].1.body@, befores[i], afters[i])
                        } else {
                            inlined_module(*self, ms[i].0@, ms[i].2@, ms[i].1.body@, befores[i], afters[i])
                        }
                    },
                out@ == out0 + inlined_output(afters),
            decreases rest.len() + rest2.len(),
        {
            let ghost prev = if k == 0 { start } else { afters.last() };
            ctx.inlined_stmts = Vec::new();
            ctx.import_aliases = name_map_new();
            let ghost before = ctx;
            let namespace = rest.len() > 0;
            let m = if namespace { rest.remove(0) } else { rest2.remove(0) };
            proof {
                if namespace {
                    assert(k < n1.len());
                    assert(m == n1[k as int]);
                    assert(rest@ =~= n1.skip(k + 1));
                    assert(m == ms[k as int]);
                    if k + 1 >= n1.len() {
                        assert(n2.skip(0) =~= n2);
                    }
                } else {
                    assert(k >= n1.len());
                    assert(m == n2[k - n1.len()]);
                    assert(rest2@ =~= n2.skip(k + 1 - n1.len()));
                    assert(m == ms[k as int]);
                }
            }
            let (name, ast, path, _hash) = m;
            if namespace {
                let _ = self.inline_module_for_namespace(name.as_str(), ast, path.as_str(), &mut ctx);
            } else {
                let _ = self.inline_module(name.as_str(), ast, path.as_str(), &mut ctx);
            }
            let ghost after = ctx;
            let ghost ob = befores;
            let ghost oa = afters;
            proof {
                befores = befores.push(before);
                afters = afters.push(after);
                assert(afters.drop_last() =~= oa);
                assert forall|i: int| 0 <= i < k + 1 implies {
                    &&& fresh_context(if i == 0 { start } else { afters[i - 1] }, #[trigger] befores[i])
                    &&& if i < nn {
                        inlined_namespace_module(*self, ms[i].0@, ms[i].2@, ms[i].1.body@, befores[i], afters[i])
                    } else {
                        inlined_module(*self, ms[i].0@, ms[i].2@, ms[i].1.body@, befores[i], afters[i])
                    }
                } by {
                    if i < k {
                        assert(befores[i] == ob[i]);
                        assert(afters[i] == oa[i]);
                        if i > 0 {
                            assert(afters[i - 1] == oa[i - 1]);
                        }
                    } else {
                        assert(befores[i] == before);
                        assert(afters[i] == after);
                        if i > 0 {
                            assert(afters[i - 1] == oa.last());
                        }
                    }
                }
            }
            out.append(&mut ctx.inlined_stmts);
            proof {
                assert(out@ =~= out0 + inlined_output(afters));
                k = k + 1;
            }
        }
        proof {
            assert(k == ms.len());
            reveal(inline_chain);
        }
        let InlineContext { module_renames, .. } = ctx;
        (module_renames, Ghost((start, befores, afters)))
    }

    /// One statement of the entry module (see `entry_step`), appended to `out`.
    fn bundle_entry_statement(
        &mut self,
        stmt: Stmt,
        entry_module_name: &str,
        renames: &RenameMap,
        er: &NameMap,
        out: &mut Vec<Stmt>,
    ) -> (r: Ghost<Seq<Stmt>>)
        requires
            name_map_entries(*er) == entry_renames(*renames, entry_module_name@).0,
            name_map_pairs(*er) == entry_renames(*renames, entry_module_name@).1,
        ensures
            entry_step(*old(self), *final(self), stmt, entry_module_name@, *renames, r@),
            final(out)@ == old(out)@ + r@,
    {
        let ghost b_before = *self;
        let ghost out_before = out@;
        let ghost stmt0 = stmt;
        proof {
            reveal(entry_step);
        }
        let ghost mut produced: Seq<Stmt> = Seq::empty();
                if self.is_hoisted_import(&stmt) {
                } else {
                    let kind: u8 = match &stmt {
                        Stmt::ImportFrom { .. } => 0,
                        Stmt::Import(_) => 1,
                        _ => 2,
                    };
                    if kind == 0 {
                        let mut v = self.rewrite_import_in_stmt_multiple_with_context(stmt, entry_module_name, renames);
                        proof {
                            produced = v@;
                        }
                        out.append(&mut v);
                    } else if kind == 1 {
                        let mut v = self.rewrite_import_entry_module(stmt);
                        proof {
                            produced = v@;
                        }
                        out.append(&mut v);
                    } else {
                        self.process_entry_module_statement(stmt, er, out);
                    }
                }
        let ghost piece = out@.subrange(out_before.len() as int, out@.len() as int);
        proof {
                    assert(out@ =~= out_before + piece);
                    if !is_hoisted(b_before.hoist_view(), stmt0) && !(stmt0 is ImportFrom) && !(stmt0 is Import) {
                        let E = entry_renames(*renames, entry_module_name@).0;
                        let P = entry_renames(*renames, entry_module_name@).1;
                        if E.dom() != Set::<Seq<char>>::empty() {
                            let (new, pending) = choose|new: Stmt, pending: Option<(Seq<char>, Seq<char>)>|
                                {
                                    &&& #[trigger] entry_stmt_processed(stmt0, new, pending, E, P)
                                    &&& match pending {
                                        Some(p) => if p.0 != p.1 {
                                            out@.len() == out_before.len() + 2 && out@[out_before.len() as int]
                                                == new && is_reassignment(out@.last(), p.0, p.1) && out@.subrange(
                                                0,
                                                out_before.len() as int,
                                            ) == out_before
                                        } else {
                                            out@ == out_before.push(new)
                                        },
                                        None => out@ == out_before.push(new),
                                    }
                                };
                            assert(entry_stmt_processed(stmt0, new, pending, E, P));
                            match pending {
                                Some(p) => {
                                    if p.0 != p.1 {
                                        assert(piece[0] == out@[out_before.len() as int]);
                                        assert(piece[1] == out@.last());
                                    } else {
                                        assert(piece =~= seq![new]);
                                    }
                                },
                                None => {
                                    assert(piece =~= seq![new]);
                                },
                            }
                            assert(entry_stmt_out(stmt0, E, P, piece));
                        } else {
                            assert(piece =~= seq![stmt0]);
                        }
                    }
                    if is_hoisted(b_before.hoist_view(), stmt0) {
                        assert(piece.len() == 0);
                    } else if stmt0 is ImportFrom {
                        assert(b_before == *self);
                        assert(piece =~= produced);
                    } else if stmt0 is Import {
                        assert(b_before.same_but_created_namespaces(*self));
                        assert(piece =~= produced);
                    } else {
                        assert(b_before == *self);
                    }
                    assert(entry_step(b_before, *self, stmt0, entry_module_name@, *renames, piece));
        }
        Ghost(piece)
    }

    /// Appends the entry modules' code: each statement in turn, a hoisted
    /// import dropped, a `from` import rewritten, an `import` rewritten
    /// (creating namespace objects as needed), any other statement renamed.
    /// Gives the bundler's states and what each statement became.
    #[verifier::rlimit(60)]
    fn bundle_entry(
        &mut self,
        entries: Vec<BundleModule>,
        entry_module_name: &str,
        renames: &RenameMap,
        out: &mut Vec<Stmt>,
    ) -> (r: Ghost<(Seq<HybridStaticBundler>, Seq<Seq<Stmt>>)>)
        ensures
            entry_chain(entry_statements(entries@), entry_module_name@, *renames, r@.0, r@.1),
            r@.0[0] == *old(self),
            r@.0.last() == *final(self),
            final(out)@ == old(out)@ + concat_outs(r@.1),
    {
        let ghost es = entries@;
        let ghost stmts = entry_statements(es);
        proof {
            reveal(entry_chain);
        }
        let ghost mut bs: Seq<HybridStaticBundler> = seq![*self];
        let ghost mut outs: Seq<Seq<Stmt>> = Seq::empty();
        let ghost out0 = out@;
        let empty = name_map_new();
        let er: &NameMap = match rename_map_get(renames, entry_module_name) {
            Some(m) => m,
            None => &empty,
        };
        proof {
            if !rename_map_entries(*renames).contains_key(entry_module_name@) {
                assert(name_map_entries(*er) =~= Map::<Seq<char>, Seq<char>>::empty());
            }
        }
        let mut rest = entries;
        let ghost mut k: int = 0;
        proof {
            assert(es.skip(0) =~= es);
            assert(out@ =~= out0 + concat_outs(outs));
        }
        while rest.len() > 0
            invariant
                0 <= k <= es.len(),
                rest@ == es.skip(k),
                name_map_entries(*er) == entry_renames(*renames, entry_module_name@).0,
                name_map_pairs(*er) == entry_renames(*renames, entry_module_name@).1,
                bs.len() == outs.len() + 1,
                outs.len() == entry_statements(es.subrange(0, k as int)).len(),
                entry_chain(entry_statements(es.subrange(0, k as int)), entry_module_name@, *renames, bs, outs),
                bs[0] == *old(self),
                bs.last() == *self,
                out@ == out0 + concat_outs(outs),
            decreases rest.len(),
        {
            let m = rest.remove(0);
            proof {
                assert(m == es[k as int]);
                assert(rest@ =~= es.skip(k + 1));
                assert(es.subrange(0, k + 1).drop_last() =~= es.subrange(0, k as int));
            }
            let ghost done = entry_statements(es.subrange(0, k as int));
            let (_name, ast, _path, _hash) = m;
            let ghost body = ast.body@;
            let mut stmts_rest = ast.body;
            let ghost mut j: int = 0;
            proof {
                assert(body.skip(0) =~= body);
                assert(done + body.subrange(0, 0) =~= done);
            }
            while stmts_rest.len() > 0
                invariant
                    0 <= j <= body.len(),
                    stmts_rest@ == body.skip(j),
                    name_map_entries(*er) == entry_renames(*renames, entry_module_name@).0,
                    name_map_pairs(*er) == entry_renames(*renames, entry_module_name@).1,
                    bs.len() == outs.len() + 1,
                    outs.len() == done.len() + j,
                    entry_chain(done + body.subrange(0, j as int), entry_module_name@, *renames, bs, outs),
                    bs[0] == *old(self),
                    bs.last() == *self,
                    out@ == out0 + concat_outs(outs),
                decreases stmts_rest.len(),
            {
                let stmt = stmts_rest.remove(0);
                proof {
                    assert(stmt == body[j as int]);
                    assert(stmts_rest@ =~= body.skip(j + 1));
                }
                let ghost b_before = *self;
                let ghost out_before = out@;
                let ghost st = stmt;
                let piece = self.bundle_entry_statement(stmt, entry_module_name, renames, er, out);
                proof {
                    let prefix = done + body.subrange(0, j as int);
                    assert(done + body.subrange(0, j + 1) =~= prefix.push(st));
                    lemma_entry_chain_push(prefix, entry_module_name@, *renames, bs, outs, st, *self, piece@);
                    bs = bs.push(*self);
                    outs = outs.push(piece@);
                    assert(out@ =~= out0 + concat_outs(outs));
                    j = j + 1;
                }
            }
            proof {
                assert(body.subrange(0, j as int) =~= body);
                assert(entry_statements(es.subrange(0, k + 1)) =~= done + body);
                k = k + 1;
            }
        }
        proof {
            assert(es.subrange(0, k as int) =~= es);
        }
        Ghost((bs, outs))
    }
}

/// A hash among the modules to wrap that is too short to name them.
pub open spec fn some_unnameable(ws: Seq<BundleModule>) -> bool {
    exists|j: int| 0 <= j < ws.len() && !byte_boundary(#[trigger] ws[j].3@, 6)
}

proof fn lemma_select_len<G>(ms: Seq<BundleModule>, gs: Seq<G>, ks: Seq<BundleKind>, k: BundleKind)
    requires
        ms.len() == ks.len(),
        gs.len() == ks.len(),
    ensures
        select(ms, ks, k).len() == select_globals(gs, ks, k).len(),
    decreases ms.len(),
{
    if ms.len() > 0 {
        lemma_select_len(ms.drop_last(), gs.drop_last(), ks.drop_last(), k);
    }
}

proof fn lemma_select_unnameable(ms: Seq<BundleModule>, ns: Seq<BundleModule>, ks: Seq<BundleKind>)
    requires
        ns.len() == ms.len(),
        ks.len() == ms.len(),
        forall|i: int| 0 <= i < ms.len() ==> #[trigger] ns[i].3@ == ms[i].3@,
    ensures
        unnameable_wrapper(ms, ks) <==> some_unnameable(select(ns, ks, BundleKind::Wrapped)),
    decreases ms.len(),
{
    if ms.len() > 0 {
        let md = ms.drop_last();
        let nd = ns.drop_last();
        let kd = ks.drop_last();
        assert forall|i: int| 0 <= i < md.len() implies #[trigger] nd[i].3@ == md[i].3@ by {
            assert(nd[i] == ns[i]);
            assert(md[i] == ms[i]);
        }
        lemma_select_unnameable(md, nd, kd);
        let sel = select(ns, ks, BundleKind::Wrapped);
        let seld = select(nd, kd, BundleKind::Wrapped);
        let last = ms.len() - 1;
        if unnameable_wrapper(ms, ks) {
            let i = choose|i: int| 0 <= i < ms.len() && ks[i] == BundleKind::Wrapped && !byte_boundary(#[trigger] ms[i].3@, 6);
            if i < last {
                assert(kd[i] == ks[i] && md[i] == ms[i]);
                assert(unnameable_wrapper(md, kd));
                let j = choose|j: int| 0 <= j < seld.len() && !byte_boundary(#[trigger] seld[j].3@, 6);
                assert(sel[j] == seld[j]);
            } else {
                assert(sel.last() == ns.last());
                assert(!byte_boundary(sel[sel.len() - 1].3@, 6));
            }
        }
        if some_unnameable(sel) {
            let j = choose|j: int| 0 <= j < sel.len() && !byte_boundary(#[trigger] sel[j].3@, 6);
            if j < seld.len() {
                assert(sel[j] == seld[j]);
                assert(some_unnameable(seld));
                let i = choose|i: int| 0 <= i < md.len() && kd[i] == BundleKind::Wrapped && !byte_boundary(#[trigger] md[i].3@, 6);
                assert(ms[i] == md[i] && ks[i] == kd[i]);
            } else {
                assert(ks[last] == BundleKind::Wrapped);
                assert(!byte_boundary(ms[last].3@, 6));
            }
        }
    }
}

impl HybridStaticBundler {
    /// Bundles the modules into one module by the hybrid approach (see
    /// `is_bundle`): the hoisted imports first; the modules imported as
    /// namespaces and those without side effects inlined; the other modules
    /// wrapped in init functions, registered with the import hook and run
    /// in dependency order, their submodules bound to their parents; the
    /// entry module's code last. It fails, with nothing bundled, exactly
    /// when a module to wrap has a content hash too short to name it.
    #[verifier::rlimit(100)]
    #[verifier::loop_isolation(false)]
    pub fn bundle_modules(&mut self, params: BundleParams) -> (r: Result<ModModule, String>)
        requires
            registry_has_inits(*old(self)),
            params.module_globals@.len() == params.modules@.len(),
            params.unused_imports@.len() == params.modules@.len(),
        ensures
            r is Err ==> exists|t: Seq<BundleModule>|
                #[trigger] trimmed_modules(params.modules@, params.unused_imports@, t) && unnameable_wrapper(
                    t,
                    planned_kinds(*old(self), t, params.entry_module_name@),
                ),
            r matches Ok(m) ==> is_bundle(
                *old(self),
                params.modules@,
                params.unused_imports@,
                params.module_globals@,
                views(params.sorted_modules@),
                params.entry_module_name@,
                params.symbol_renames,
                *final(self),
                m.body@,
            ),
    {
        let BundleParams { modules, unused_imports, sorted_modules, entry_module_name, symbol_renames, module_globals } =
            params;
        let ghost ms_in = modules@;
        let ghost us0 = unused_imports@;
        let ghost gs0 = module_globals@;
        let ghost b0 = *self;
        let ghost renames0 = symbol_renames;
        let entry = entry_module_name.as_str();
        self.collect_all_future_imports(&modules);
        let ghost b1 = *self;
        let modules = self.trim_unused_imports_from_modules(modules, &unused_imports);
        let ghost ms0 = modules@;
        let (kinds, exports) = self.prepare_modules(&modules, entry);
        proof {
            assert(planned_kinds(b1, ms0, entry_module_name@) =~= planned_kinds(b0, ms0, entry_module_name@));
        }
        let normalized = self.normalize_modules(modules);
        let ghost nms = normalized@;
        let globals = self.collect_global_symbols(&normalized, entry);
        let mut i: usize = 0;
        while i < normalized.len()
            invariant
                i <= normalized.len(),
                registry_has_inits(*self),
            decreases normalized.len() - i,
        {
            self.collect_imports_from_module(&normalized[i].1, normalized[i].0.as_str(), normalized[i].2.as_str());
            i = i + 1;
        }
        let (ns, inl, wrapped, wrapped_globals, entries) = Self::partition_modules(normalized, &kinds, module_globals);
        if wrapped.len() > 0 {
            self.add_stdlib_import("sys");
            self.add_stdlib_import("types");
        }
        if self.has_namespace_imports() {
            self.add_stdlib_import("types");
        }
        proof {
            assert forall|q: int| 0 <= q < ms0.len() implies #[trigger] nms[q].3@ == ms0[q].3@ by {
                assert(normalized_module(ms0[q], nms[q]));
            }
            lemma_select_unnameable(ms0, nms, kinds@);
            lemma_select_len(nms, gs0, kinds@, BundleKind::Wrapped);
        }
        let mut i: usize = 0;
        while i < wrapped.len()
            invariant
                i <= wrapped.len(),
                forall|j: int| 0 <= j < i ==> byte_boundary(#[trigger] wrapped@[j].3@, 6),
            decreases wrapped.len() - i,
        {
            if !has_byte_boundary_6(wrapped[i].3.as_str()) {
                proof {
                    assert(!byte_boundary(wrapped@[i as int].3@, 6));
                    assert(some_unnameable(wrapped@));
                    assert(unnameable_wrapper(ms0, kinds@));
                    assert(trimmed_modules(ms_in, us0, ms0));
                }
                let mut message = crate::text::to_string("Content hash of module '");
                message.append(wrapped[i].0.as_str());
                message.append("' is too short to name it");
                return Err(message);
            }
            i = i + 1;
        }
        proof {
            assert(!some_unnameable(wrapped@));
            assert(!unnameable_wrapper(ms0, kinds@));
            assert(kinds@ == planned_kinds(b0, ms0, entry_module_name@));
        }
        self.register_wrapper_modules(&wrapped);
        self.record_namespace_exports(&ns, &exports);
        let mut final_body: Vec<Stmt> = Vec::new();
        self.add_hoisted_imports(&mut final_body);
        let ghost mid = *self;
        let ghost s0 = final_body@;
        proof {
            assert(final_body@.subrange(0, 0) =~= Seq::<Stmt>::empty());
            assert(final_body@.subrange(0, final_body@.len() as int) =~= s0);
        }
        let ghost ns_v = ns@;
        let ghost inl_v = inl@;
        let (renames, inlining) = self.inline_modules(ns, inl, exports, globals, symbol_renames, &mut final_body);
        let ghost a1 = final_body@;
        // The wrapped modules with their globals.
        let ghost wv = wrapped@;
        let ghost wgv = wrapped_globals@;
        let mut ws: Vec<WrappedModule> = Vec::new();
        let mut wrest = wrapped;
        let mut grest = wrapped_globals;
        let ghost mut k: int = 0;
        proof {
            assert(wv.skip(0) =~= wv);
            assert(wgv.skip(0) =~= wgv);
        }
        while wrest.len() > 0 && grest.len() > 0
            invariant
                wv.len() == wgv.len(),
                0 <= k <= wv.len(),
                wrest@ == wv.skip(k),
                grest@ == wgv.skip(k),
                ws@.len() == k,
                forall|q: int| 0 <= q < k ==> #[trigger] ws@[q] == (wv[q], wgv[q]),
            decreases wrest.len(),
        {
            let m = wrest.remove(0);
            let g = grest.remove(0);
            proof {
                assert(m == wv[k]);
                assert(g == wgv[k]);
                assert(wrest@ =~= wv.skip(k + 1));
                assert(grest@ =~= wgv.skip(k + 1));
            }
            ws.push((m, g));
            proof {
                k = k + 1;
            }
        }
        let ghost ws_v = ws@;
        proof {
            assert(k == wv.len());
            assert(ws_v =~= Seq::new(wv.len(), |q: int| (wv[q], wgv[q])));
        }
        let has_wrapped = ws.len() > 0;
        if has_wrapped {
            let mut section = self.wrapper_module_section(ws, &sorted_modules, entry, &renames);
            let ghost sv = section@;
            final_body.append(&mut section);
            proof {
                assert(final_body@.subrange(a1.len() as int, final_body@.len() as int) =~= sv);
                assert(is_wrapper_section(
                    mid,
                    ws_v,
                    views(sorted_modules@),
                    entry_module_name@,
                    renames,
                    final_body@.subrange(a1.len() as int, final_body@.len() as int),
                ));
            }
        }
        let ghost a2 = final_body@;
        if has_wrapped {
            self.generate_submodule_attributes(&sorted_modules, &mut final_body);
        }
        let ghost a3 = final_body@;
        let entry_states = self.bundle_entry(entries, entry, &renames, &mut final_body);
        let ghost a4 = final_body@;
        proof {
            let (start, befores, afters) = inlining@;
            let (bs, outs) = entry_states@;
            let p1 = a1.subrange(s0.len() as int, a1.len() as int);
            let p2 = a2.subrange(a1.len() as int, a2.len() as int);
            let p3 = a3.subrange(a2.len() as int, a3.len() as int);
            let p4 = a4.subrange(a3.len() as int, a4.len() as int);
            assert(a1 == s0 + inlined_output(afters));
            assert(p1 =~= inlined_output(afters));
            assert(a1 =~= s0 + p1);
            assert(a2 =~= a1 + p2);
            assert(a3 =~= a2 + p3);
            assert(a4 =~= a3 + p4);
            let sections = seq![s0, p1, p2, p3, p4];
            assert(sections[1] == p1 && sections[2] == p2 && sections[3] == p3 && sections[4] == p4 && sections[0] == s0);
            assert(a4 =~= sections[0] + sections[1] + sections[2] + sections[3] + sections[4]);
            assert(sections[0] + sections[1] + sections[2] =~= a2);
            let kinds_v = planned_kinds(b0, ms0, entry_module_name@);
            assert(kinds@ == kinds_v);
            assert(normalized_modules(ms0, nms));
            assert(hoisted_block(sections[0], mid.hoist_view()));
            assert(export_map_entries(start.module_exports_map) == module_exports_of(ms0, entry_module_name@));
            assert(index_set_items(start.global_symbols) == insert_all(Seq::empty(), entry_symbols(nms, entry_module_name@)));
            assert(start.module_renames == renames0);
            assert(ns_v == select(nms, kinds_v, BundleKind::Namespace));
            assert(inline_chain(mid, ns_v + inl_v, ns_v.len() as int, start, befores, afters));
            assert(sections[1] == inlined_output(afters));
            assert(bs[0] == mid);
            assert(bs.last() == *self);
            assert(sections[4] == concat_outs(outs));
            assert(entries@ == select(nms, kinds_v, BundleKind::Entry));
            assert(entry_chain(entry_statements(select(nms, kinds_v, BundleKind::Entry)), entry_module_name@, renames, bs, outs));
            let wrapped_s = select(nms, kinds_v, BundleKind::Wrapped);
            let wg_s = select_globals(gs0, kinds_v, BundleKind::Wrapped);
            let ws_s = Seq::new(wrapped_s.len(), |q: int| (wrapped_s[q], wg_s[q]));
            assert(ws_v =~= ws_s);
            let rn = if afters.len() == 0 { renames0 } else { afters.last().module_renames };
            assert(renames == rn);
            if wrapped_s.len() > 0 {
                assert(is_wrapper_section(mid, ws_s, views(sorted_modules@), entry_module_name@, rn, sections[2]));
                assert(submodule_attributes(
                    mid.registry(),
                    mid.bundled(),
                    submodule_links(views(sorted_modules@), mid.bundled(), mid.registry()),
                    sections[0] + sections[1] + sections[2],
                    sections[0] + sections[1] + sections[2] + sections[3],
                ));
            } else {
                assert(sections[2].len() == 0 && sections[3].len() == 0);
            }
            reveal(bundle_parts);
            assert(bundle_parts(
                b0,
                ms_in,
                us0,
                gs0,
                views(sorted_modules@),
                entry_module_name@,
                renames0,
                *self,
                a4,
                ms0,
                nms,
                mid,
                sections,
                start,
                befores,
                afters,
                bs,
                outs,
            ));
        }
        Ok(ModModule { body: final_body })
    }
}

} // verus!
