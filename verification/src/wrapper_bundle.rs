//! The part of a bundle that holds the wrapped modules: the declarations of
//! their lifted globals, their init functions, the registries and the import
//! hook, then the calls that initialise them in dependency order.
use vstd::prelude::*;

use crate::ast::{Expr, ExprContext, Stmt};
use crate::builders::is_registry_assignment;
use crate::code_generator::{all_exports, byte_boundary, synthetic_module_name, HybridStaticBundler};
use crate::collections::{pairs_insert, rename_map_entries, rename_map_pairs, RenameMap};
use crate::globals_lifter::{is_none_assignment, lifted_name, GlobalsLifter, ModuleGlobalInfo};
use crate::import_hook::is_import_hook;
use crate::import_scan::BundleModule;
use crate::text::{copy_string, str_eq, views};
use crate::wrapper_modules::{is_init_function, lifted_var_names, lifts_globals, ModuleTransformContext};

verus! {

/// A wrapped module with what the analysis of its globals found, if it ran.
pub type WrappedModule = (BundleModule, Option<ModuleGlobalInfo>);

/// The number of globals a wrapped module lifts.
pub open spec fn lifted_len(gi: Option<ModuleGlobalInfo>) -> nat {
    if lifts_globals(gi) {
        lifted_var_names(gi->0).len()
    } else {
        0
    }
}

/// `v` declares the lifted globals of a module, in order: `name = None` for
/// the bundle-wide name of each.
pub open spec fn is_lifted_block(v: Seq<Stmt>, gi: Option<ModuleGlobalInfo>) -> bool {
    &&& v.len() == lifted_len(gi)
    &&& lifts_globals(gi) ==> forall|i: int|
        0 <= i < v.len() ==> is_none_assignment(
            #[trigger] v[i],
            lifted_name(gi->0.module_name@, lifted_var_names(gi->0)[i]),
        )
}

/// The number of globals the modules lift together.
pub open spec fn lifted_total(gis: Seq<Option<ModuleGlobalInfo>>) -> nat
    decreases gis.len(),
{
    if gis.len() == 0 {
        0
    } else {
        lifted_total(gis.drop_last()) + lifted_len(gis.last())
    }
}

/// `v` is the lifted-global declarations of each module in turn.
pub open spec fn lifted_blocks(v: Seq<Stmt>, gis: Seq<Option<ModuleGlobalInfo>>) -> bool
    decreases gis.len(),
{
    if gis.len() == 0 {
        v.len() == 0
    } else {
        let c = lifted_len(gis.last());
        &&& c <= v.len()
        &&& lifted_blocks(v.subrange(0, v.len() - c), gis.drop_last())
        &&& is_lifted_block(v.subrange(v.len() - c, v.len() as int), gis.last())
    }
}

/// The globals analyses of the wrapped modules.
pub open spec fn global_infos(ws: Seq<WrappedModule>) -> Seq<Option<ModuleGlobalInfo>> {
    ws.map_values(|w: WrappedModule| w.1)
}

/// The init functions called, in dependency order: that of each wrapped
/// module of `sorted` other than the entry module.
pub open spec fn init_calls(
    sorted: Seq<Seq<char>>,
    entry: Seq<char>,
    registry: Map<Seq<char>, Seq<char>>,
    inits: Map<Seq<char>, Seq<char>>,
) -> Seq<Seq<char>>
    decreases sorted.len(),
{
    if sorted.len() == 0 {
        Seq::empty()
    } else {
        let rest = init_calls(sorted.drop_last(), entry, registry, inits);
        let m = sorted.last();
        if m != entry && registry.contains_key(m) {
            rest.push(inits[registry[m]])
        } else {
            rest
        }
    }
}

/// `f()` run as a statement.
pub open spec fn is_init_call(s: Stmt, f: Seq<char>) -> bool {
    s matches Stmt::Expr(Expr::Call { func, args, keywords }) && (*func matches Expr::Name { id, ctx }
        && id@ == f && ctx == ExprContext::Load) && args@.len() == 0 && keywords@.len() == 0
}

/// The init function of the wrapped module `w`: its code, run with the
/// synthetic name the registry gives the module.
pub open spec fn is_init_of(
    b: HybridStaticBundler,
    s: Stmt,
    w: WrappedModule,
    renames: RenameMap,
) -> bool {
    exists|ctx: ModuleTransformContext|
        {
            &&& ctx.module_name@ == w.0.0@
            &&& ctx.synthetic_name@ == b.registry()[w.0.0@]
            &&& ctx.importer_path@ == w.0.2@
            &&& ctx.global_info == w.1
            &&& #[trigger] is_init_function(
                b,
                s,
                ctx,
                w.0.1.body@,
                rename_map_pairs(renames),
                rename_map_entries(renames),
            )
        }
}

/// Every wrapped module is registered, under a synthetic name that has an
/// init function.
pub open spec fn wrapped_registered(b: HybridStaticBundler, ws: Seq<WrappedModule>) -> bool {
    &&& forall|i: int| 0 <= i < ws.len() ==> b.registry().contains_key(#[trigger] ws[i].0.0@)
    &&& forall|m: Seq<char>|
        #[trigger] b.registry().contains_key(m) ==> b.init_function_names().contains_key(b.registry()[m])
}

/// `r` holds the wrapped modules `ws`: the declarations of their lifted
/// globals, their init functions in order, the module registry, the
/// init-function registry and the import hook, then the calls that
/// initialise the wrapped modules of `sorted` (other than `entry`), in order.
#[verifier::opaque]
pub open spec fn is_wrapper_section(
    b: HybridStaticBundler,
    ws: Seq<WrappedModule>,
    sorted: Seq<Seq<char>>,
    entry: Seq<char>,
    renames: RenameMap,
    r: Seq<Stmt>,
) -> bool {
    let l = lifted_total(global_infos(ws)) as int;
    let w = ws.len() as int;
    let calls = init_calls(sorted, entry, b.registry(), b.init_function_names());
    &&& r.len() == l + w + 4 + calls.len()
    &&& lifted_blocks(r.subrange(0, l), global_infos(ws))
    &&& forall|i: int| 0 <= i < w ==> is_init_of(b, #[trigger] r[l + i], ws[i], renames)
    &&& is_registry_assignment(r[l + w], "__cribo_modules"@, b.registry_pairs(), false)
    &&& is_registry_assignment(r[l + w + 1], "__cribo_init_functions"@, b.init_function_pairs(), true)
    &&& is_import_hook(r.subrange(l + w + 2, l + w + 4))
    &&& forall|j: int| 0 <= j < calls.len() ==> is_init_call(#[trigger] r[l + w + 4 + j], calls[j])
}

/// The `__all__` lists recorded once the modules `ws` are registered in turn.
pub open spec fn registered_exports(
    e: Map<Seq<char>, Option<Seq<Seq<char>>>>,
    ws: Seq<BundleModule>,
) -> Map<Seq<char>, Option<Seq<Seq<char>>>>
    decreases ws.len(),
{
    if ws.len() == 0 {
        e
    } else {
        registered_exports(e, ws.drop_last()).insert(ws.last().0@, all_exports(ws.last().1.body@))
    }
}

/// The synthetic name of a wrapped module.
pub open spec fn synthetic_of(m: BundleModule) -> Seq<char> {
    synthetic_module_name(m.0@, m.3@)
}

/// The registry once the modules `ws` are registered in turn.
pub open spec fn registered_map(r: Map<Seq<char>, Seq<char>>, ws: Seq<BundleModule>) -> Map<Seq<char>, Seq<char>>
    decreases ws.len(),
{
    if ws.len() == 0 {
        r
    } else {
        registered_map(r, ws.drop_last()).insert(ws.last().0@, synthetic_of(ws.last()))
    }
}

/// The registry's entries, in order, once the modules `ws` are registered in turn.
pub open spec fn registered_pairs(
    p: Seq<(Seq<char>, Seq<char>)>,
    ws: Seq<BundleModule>,
) -> Seq<(Seq<char>, Seq<char>)>
    decreases ws.len(),
{
    if ws.len() == 0 {
        p
    } else {
        pairs_insert(registered_pairs(p, ws.drop_last()), ws.last().0@, synthetic_of(ws.last()))
    }
}

/// The init functions once the modules `ws` are registered in turn.
pub open spec fn registered_inits(i: Map<Seq<char>, Seq<char>>, ws: Seq<BundleModule>) -> Map<Seq<char>, Seq<char>>
    decreases ws.len(),
{
    if ws.len() == 0 {
        i
    } else {
        registered_inits(i, ws.drop_last()).insert(
            synthetic_of(ws.last()),
            "__cribo_init_"@ + synthetic_of(ws.last()),
        )
    }
}

/// The init functions' entries, in order, once the modules `ws` are registered in turn.
pub open spec fn registered_init_pairs(
    p: Seq<(Seq<char>, Seq<char>)>,
    ws: Seq<BundleModule>,
) -> Seq<(Seq<char>, Seq<char>)>
    decreases ws.len(),
{
    if ws.len() == 0 {
        p
    } else {
        pairs_insert(
            registered_init_pairs(p, ws.drop_last()),
            synthetic_of(ws.last()),
            "__cribo_init_"@ + synthetic_of(ws.last()),
        )
    }
}

/// Every registered module's synthetic name has an init function.
pub open spec fn registry_has_inits(b: HybridStaticBundler) -> bool {
    forall|m: Seq<char>|
        #[trigger] b.registry().contains_key(m) ==> b.init_function_names().contains_key(b.registry()[m])
}

impl HybridStaticBundler {
    /// Registers the wrapped modules in turn: records each one's `__all__`
    /// list, gives it its synthetic name in the registry, and that name its
    /// init function `__cribo_init_<synthetic name>`.
    pub fn register_wrapper_modules(&mut self, wrappers: &Vec<BundleModule>)
        requires
            forall|i: int| 0 <= i < wrappers@.len() ==> byte_boundary(#[trigger] wrappers@[i].3@, 6),
            registry_has_inits(*old(self)),
        ensures
            final(self).exports() == registered_exports(old(self).exports(), wrappers@),
            final(self).registry() == registered_map(old(self).registry(), wrappers@),
            final(self).registry_pairs() == registered_pairs(old(self).registry_pairs(), wrappers@),
            final(self).init_function_names() == registered_inits(old(self).init_function_names(), wrappers@),
            final(self).init_function_pairs() == registered_init_pairs(
                old(self).init_function_pairs(),
                wrappers@,
            ),
            registry_has_inits(*final(self)),
            forall|i: int| 0 <= i < wrappers@.len() ==> final(self).registry().contains_key(#[trigger] wrappers@[i].0@),
            final(self).bundled() == old(self).bundled(),
            final(self).future_features() == old(self).future_features(),
            final(self).hoist_view() == old(self).hoist_view(),
            final(self).inlined() == old(self).inlined(),
            final(self).namespace_imports() == old(self).namespace_imports(),
    {
        let ghost ws = wrappers@;
        let mut i: usize = 0;
        while i < wrappers.len()
            invariant
                ws == wrappers@,
                i <= ws.len(),
                forall|j: int| 0 <= j < ws.len() ==> byte_boundary(#[trigger] ws[j].3@, 6),
                self.exports() == registered_exports(old(self).exports(), ws.subrange(0, i as int)),
                self.registry() == registered_map(old(self).registry(), ws.subrange(0, i as int)),
                self.registry_pairs() == registered_pairs(old(self).registry_pairs(), ws.subrange(0, i as int)),
                self.init_function_names() == registered_inits(
                    old(self).init_function_names(),
                    ws.subrange(0, i as int),
                ),
                self.init_function_pairs() == registered_init_pairs(
                    old(self).init_function_pairs(),
                    ws.subrange(0, i as int),
                ),
                registry_has_inits(*self),
                forall|j: int| 0 <= j < i ==> self.registry().contains_key(#[trigger] ws[j].0@),
                self.bundled() == old(self).bundled(),
                self.future_features() == old(self).future_features(),
                self.hoist_view() == old(self).hoist_view(),
                self.inlined() == old(self).inlined(),
                self.namespace_imports() == old(self).namespace_imports(),
            decreases ws.len() - i,
        {
            let ghost t = ws.subrange(0, i + 1);
            proof {
                assert(t.drop_last() =~= ws.subrange(0, i as int));
                assert(t.last() == ws[i as int]);
            }
            let exports = self.extract_all_exports(&wrappers[i].1);
            self.track_module_exports(copy_string(&wrappers[i].0), exports);
            let synthetic_name = self.get_synthetic_module_name(wrappers[i].0.as_str(), wrappers[i].3.as_str());
            self.register_wrapper_module(copy_string(&wrappers[i].0), synthetic_name);
            i = i + 1;
        }
        proof {
            assert(ws.subrange(0, i as int) =~= ws);
        }
    }

    /// The declarations of the globals the wrapped modules lift, in order.
    fn lifted_global_declarations(ws: &Vec<WrappedModule>) -> (r: Vec<Stmt>)
        ensures
            r@.len() == lifted_total(global_infos(ws@)),
            lifted_blocks(r@, global_infos(ws@)),
    {
        let ghost gis = global_infos(ws@);
        let mut out: Vec<Stmt> = Vec::new();
        let mut i: usize = 0;
        while i < ws.len()
            invariant
                i <= ws.len(),
                gis == global_infos(ws@),
                out@.len() == lifted_total(gis.subrange(0, i as int)),
                lifted_blocks(out@, gis.subrange(0, i as int)),
            decreases ws.len() - i,
        {
            let ghost before = out@;
            let ghost t = gis.subrange(0, i + 1);
            proof {
                assert(t.drop_last() =~= gis.subrange(0, i as int));
                assert(t.last() == ws@[i as int].1);
            }
            match &ws[i].1 {
                Some(g) => {
                    if g.global_declarations.len() > 0 {
                        let lifter = GlobalsLifter::new(g);
                        let mut decls = lifter.into_lifted_declarations();
                        let ghost d = decls@;
                        out.append(&mut decls);
                        proof {
                            assert(out@.subrange(0, out@.len() - d.len()) =~= before);
                            assert(out@.subrange(out@.len() - d.len(), out@.len() as int) =~= d);
                        }
                    } else {
                        proof {
                            assert(out@.subrange(0, out@.len() as int) =~= before);
                            assert(out@.subrange(out@.len() as int, out@.len() as int) =~= Seq::<Stmt>::empty());
                        }
                    }
                },
                None => {
                    proof {
                        assert(out@.subrange(0, out@.len() as int) =~= before);
                        assert(out@.subrange(out@.len() as int, out@.len() as int) =~= Seq::<Stmt>::empty());
                    }
                },
            }
            i = i + 1;
        }
        proof {
            assert(gis.subrange(0, i as int) =~= gis);
        }
        out
    }

    /// The calls of the init functions of the wrapped modules of
    /// `sorted_modules` other than the entry module, in that order.
    fn wrapper_init_calls(&self, sorted_modules: &Vec<String>, entry_module_name: &str) -> (r: Vec<Stmt>)
        requires
            forall|m: Seq<char>|
                #[trigger] self.registry().contains_key(m) ==> self.init_function_names().contains_key(
                    self.registry()[m],
                ),
        ensures
            r@.len() == init_calls(
                views(sorted_modules@),
                entry_module_name@,
                self.registry(),
                self.init_function_names(),
            ).len(),
            forall|j: int|
                0 <= j < r@.len() ==> is_init_call(
                    #[trigger] r@[j],
                    init_calls(
                        views(sorted_modules@),
                        entry_module_name@,
                        self.registry(),
                        self.init_function_names(),
                    )[j],
                ),
    {
        let ghost sorted = views(sorted_modules@);
        let ghost calls = init_calls(sorted, entry_module_name@, self.registry(), self.init_function_names());
        let mut out: Vec<Stmt> = Vec::new();
        let mut i: usize = 0;
        while i < sorted_modules.len()
            invariant
                i <= sorted_modules.len(),
                sorted == views(sorted_modules@),
                forall|m: Seq<char>|
                    #[trigger] self.registry().contains_key(m) ==> self.init_function_names().contains_key(
                        self.registry()[m],
                    ),
                out@.len() == init_calls(
                    sorted.subrange(0, i as int),
                    entry_module_name@,
                    self.registry(),
                    self.init_function_names(),
                ).len(),
                forall|j: int|
                    0 <= j < out@.len() ==> is_init_call(
                        #[trigger] out@[j],
                        init_calls(
                            sorted.subrange(0, i as int),
                            entry_module_name@,
                            self.registry(),
                            self.init_function_names(),
                        )[j],
                    ),
            decreases sorted_modules.len() - i,
        {
            let ghost t = sorted.subrange(0, i + 1);
            proof {
                assert(t.drop_last() =~= sorted.subrange(0, i as int));
                assert(t.last() == sorted_modules@[i as int]@);
            }
            let m = sorted_modules[i].as_str();
            if !str_eq(m, entry_module_name) {
                match self.registered_name(m) {
                    Some(synthetic) => {
                        let call = self.generate_module_init_call(synthetic.as_str());
                        out.push(call);
                    },
                    None => {},
                }
            }
            i = i + 1;
        }
        proof {
            assert(sorted.subrange(0, i as int) =~= sorted);
        }
        out
    }

    /// The part of the bundle that holds the wrapped modules: the
    /// declarations of their lifted globals, their init functions in order,
    /// the module registry, the init-function registry and the import hook,
    /// then the calls that initialise the wrapped modules of
    /// `sorted_modules` (other than the entry module), in that order.
    pub fn wrapper_module_section(
        &self,
        wrappers: Vec<WrappedModule>,
        sorted_modules: &Vec<String>,
        entry_module_name: &str,
        symbol_renames: &RenameMap,
    ) -> (r: Vec<Stmt>)
        requires
            wrapped_registered(*self, wrappers@),
        ensures
            is_wrapper_section(*self, wrappers@, views(sorted_modules@), entry_module_name@, *symbol_renames, r@),
    {
        let ghost ws = wrappers@;
        let mut out = Self::lifted_global_declarations(&wrappers);
        let ghost lifted = out@;
        let l = out.len();
        let mut rest = wrappers;
        let n = rest.len();
        let mut k: usize = 0;
        proof {
            assert(ws.skip(0) =~= ws);
        }
        while rest.len() > 0
            invariant
                n == ws.len(),
                k <= n,
                rest@ == ws.skip(k as int),
                wrapped_registered(*self, ws),
                out@.len() == l + k,
                out@.subrange(0, l as int) == lifted,
                forall|i: int|
                    0 <= i < k ==> is_init_of(*self, #[trigger] out@[l + i], ws[i], *symbol_renames),
            decreases rest.len(),
        {
            let w = rest.remove(0);
            proof {
                assert(w == ws[k as int]);
                assert(rest@ =~= ws.skip(k + 1));
                assert(self.registry().contains_key(ws[k as int].0.0@));
            }
            let ((module_name, ast, importer_path, _content_hash), global_info) = w;
            let synthetic_name = match self.registered_name(module_name.as_str()) {
                Some(s) => copy_string(s),
                None => copy_string(&module_name),
            };
            let ctx = ModuleTransformContext { module_name, synthetic_name, importer_path, global_info };
            let ghost c = ctx;
            let init_function = self.transform_module_to_init_function(ctx, ast, symbol_renames);
            let ghost before = out@;
            out.push(init_function);
            proof {
                assert(is_init_function(
                    *self,
                    out@[l + k],
                    c,
                    ws[k as int].0.1.body@,
                    rename_map_pairs(*symbol_renames),
                    rename_map_entries(*symbol_renames),
                ));
                assert(is_init_of(*self, out@[l + k], ws[k as int], *symbol_renames));
                assert forall|i: int| 0 <= i < k + 1 implies is_init_of(*self, #[trigger] out@[l + i], ws[i], *symbol_renames) by {
                    if i < k {
                        assert(out@[l + i] == before[l + i]);
                    }
                }
                assert(out@.subrange(0, l as int) =~= before.subrange(0, l as int));
            }
            k = k + 1;
        }
        let mut registries = self.generate_registries_and_hook();
        let ghost reg = registries@;
        let ghost mid = out@;
        out.append(&mut registries);
        let mut calls = self.wrapper_init_calls(sorted_modules, entry_module_name);
        let ghost cs = calls@;
        let ghost before_calls = out@;
        out.append(&mut calls);
        proof {
            let w = ws.len() as int;
            assert(k == n);
            assert(out@.subrange(0, l as int) =~= mid.subrange(0, l as int));
            assert forall|i: int| 0 <= i < w implies is_init_of(*self, #[trigger] out@[l + i], ws[i], *symbol_renames) by {
                assert(out@[l + i] == mid[l + i]);
            }
            assert(out@[l + w] == reg[0]);
            assert(out@[l + w + 1] == reg[1]);
            assert(out@.subrange(l + w + 2, l + w + 4) =~= reg.subrange(2, 4));
            reveal(is_wrapper_section);
            assert forall|j: int| 0 <= j < cs.len() implies is_init_call(
                #[trigger] out@[l + w + 4 + j],
                init_calls(views(sorted_modules@), entry_module_name@, self.registry(), self.init_function_names())[j],
            ) by {
                assert(out@[l + w + 4 + j] == cs[j]);
            }
        }
        out
    }
}

} // verus!
