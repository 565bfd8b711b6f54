//! A graph builder that tracks in which scope each name is read, so that
//! reads inside function bodies count as deferred ("eventual") reads.
use vstd::prelude::*;

use crate::ast::{alias_local_name, local_name, Alias, Expr, ModModule, Parameter, Stmt};
use crate::cribo_graph::{
    item_type_view, item_view, item_views, opt_view, pair_views, ItemData, ItemId, ItemType, ItemTypeView,
    ItemView, ModuleDepGraph,
};
use crate::graph_builder::{bare_item, opt_name, root_name};
use crate::text::{
    contains_char, contains_name, empty_names, extend_names, insert_name, lemma_split_nonempty,
    name_set, single_name, split_char, str_eq, to_string, views,
};

verus! {

/// Where an import is used: the items reading it at module level and those
/// reading it inside function bodies.
#[derive(Debug, Clone)]
pub struct ImportUsageContext {
    /// Import statement item ID
    pub import_item_id: ItemId,
    /// Imported name
    pub imported_name: String,
    /// Items that use this import at module level
    pub module_level_usage: Vec<ItemId>,
    /// Items that use this import inside functions
    pub function_level_usage: Vec<ItemId>,
    /// Items that use this import inside classes
    pub class_level_usage: Vec<ItemId>,
}

#[derive(Debug, Clone)]
enum ScopeType {
    Module,
    Function(String),
    Class(String),
}

#[derive(Debug)]
struct ScopeContext {
    scope_type: ScopeType,
    /// Names read in this scope that only count when the enclosing function runs.
    deferred_reads: Vec<String>,
}

// ---------------------------------------------------------------------------
// Specification
// ---------------------------------------------------------------------------

/// A scope of the builder's stack: whether it is a function, and its deferred reads.
pub ghost struct ScopeView {
    pub is_function: bool,
    pub deferred_reads: Set<Seq<char>>,
}

/// The builder's state: the items so far and the stack of scopes.
#[verifier::ext_equal]
pub ghost struct EnhancedState {
    pub items: Seq<ItemView>,
    pub scopes: Seq<ScopeView>,
}

/// The names this builder counts as read by an expression: only a plain name.
pub open spec fn simple_vars(e: Expr) -> Set<Seq<char>> {
    match e {
        Expr::Name { id, .. } => set![id@],
        _ => Set::empty(),
    }
}

pub open spec fn simple_vars_seq(es: Seq<Expr>) -> Set<Seq<char>>
    decreases es.len(),
{
    if es.len() == 0 {
        Set::empty()
    } else {
        simple_vars_seq(es.drop_last()) + simple_vars(es.last())
    }
}

pub open spec fn simple_annotation_vars(ps: Seq<Parameter>) -> Set<Seq<char>>
    decreases ps.len(),
{
    if ps.len() == 0 {
        Set::empty()
    } else {
        simple_annotation_vars(ps.drop_last()) + match ps.last().annotation {
            Some(a) => simple_vars(a),
            None => Set::empty(),
        }
    }
}

/// The target names this builder records for an assignment target: only a plain name.
pub open spec fn simple_targets(ts: Seq<Expr>) -> Seq<Seq<char>>
    decreases ts.len(),
{
    if ts.len() == 0 {
        Seq::empty()
    } else {
        simple_targets(ts.drop_last()) + match ts.last() {
            Expr::Name { id, .. } => seq![id@],
            _ => Seq::empty(),
        }
    }
}

/// Some scope of the stack is a function.
pub open spec fn in_function(scopes: Seq<ScopeView>) -> bool {
    exists|i: int| 0 <= i < scopes.len() && #[trigger] scopes[i].is_function
}

/// Adds reads to the innermost scope's deferred reads.
pub open spec fn defer_reads(scopes: Seq<ScopeView>, reads: Set<Seq<char>>) -> Seq<ScopeView> {
    if scopes.len() == 0 {
        scopes
    } else {
        scopes.update(
            scopes.len() - 1,
            ScopeView {
                deferred_reads: scopes.last().deferred_reads + reads,
                ..scopes.last()
            },
        )
    }
}

/// The item of a statement that reads `reads`, placed by scope: inside a
/// function the reads are deferred.
pub open spec fn scoped_item(t: ItemTypeView, reads: Set<Seq<char>>, in_func: bool, side_effects: bool) -> ItemView {
    ItemView {
        read_vars: if in_func {
            Set::empty()
        } else {
            reads
        },
        eventual_read_vars: if in_func {
            reads
        } else {
            Set::empty()
        },
        ..bare_item(t, side_effects)
    }
}

/// The state after a statement of the second pass.
pub open spec fn enh_stmt(s: Stmt, st: EnhancedState) -> EnhancedState
    decreases s,
{
    match s {
        Stmt::FunctionDef { name, decorators, parameters, return_type, body } => {
            let reads = simple_vars_seq(decorators@) + simple_annotation_vars(parameters.args@)
                + match return_type {
                Some(r) => simple_vars(r),
                None => Set::empty(),
            };
            let inner = enh_body(
                body@,
                EnhancedState {
                    scopes: st.scopes.push(
                        ScopeView { is_function: true, deferred_reads: Set::empty() },
                    ),
                    ..st
                },
            );
            let item = ItemView {
                var_decls: set![name@],
                read_vars: reads,
                eventual_read_vars: if inner.scopes.len() > 0 {
                    inner.scopes.last().deferred_reads
                } else {
                    Set::empty()
                },
                ..bare_item(ItemTypeView::FunctionDef { name: name@ }, false)
            };
            EnhancedState {
                items: inner.items.push(item),
                scopes: if inner.scopes.len() > 0 {
                    inner.scopes.drop_last()
                } else {
                    inner.scopes
                },
            }
        },
        Stmt::ClassDef { name, decorators, bases, body, .. } => {
            let item = ItemView {
                var_decls: set![name@],
                read_vars: simple_vars_seq(decorators@) + simple_vars_seq(bases@),
                ..bare_item(ItemTypeView::ClassDef { name: name@ }, false)
            };
            let inner = enh_body(
                body@,
                EnhancedState {
                    items: st.items.push(item),
                    scopes: st.scopes.push(
                        ScopeView { is_function: false, deferred_reads: Set::empty() },
                    ),
                },
            );
            EnhancedState {
                scopes: if inner.scopes.len() > 0 {
                    inner.scopes.drop_last()
                } else {
                    inner.scopes
                },
                ..inner
            }
        },
        Stmt::Assign { targets, value } => {
            let reads = simple_vars(value);
            let f = in_function(st.scopes);
            EnhancedState {
                items: st.items.push(
                    scoped_item(
                        ItemTypeView::Assignment { targets: simple_targets(targets@) },
                        reads,
                        f,
                        false,
                    ),
                ),
                scopes: if f {
                    defer_reads(st.scopes, reads)
                } else {
                    st.scopes
                },
            }
        },
        Stmt::Expr(e) => {
            let reads = simple_vars(e);
            let f = in_function(st.scopes);
            EnhancedState {
                items: st.items.push(scoped_item(ItemTypeView::Expression, reads, f, true)),
                scopes: if f {
                    defer_reads(st.scopes, reads)
                } else {
                    st.scopes
                },
            }
        },
        _ => st,
    }
}

pub open spec fn enh_body(b: Seq<Stmt>, st: EnhancedState) -> EnhancedState
    decreases b,
{
    if b.len() == 0 {
        st
    } else {
        enh_stmt(b.last(), enh_body(b.drop_last(), st))
    }
}

/// The names an `import` or `from` import statement binds, as the first pass lists them.
pub open spec fn import_bound_names(s: Stmt) -> Seq<Seq<char>> {
    match s {
        Stmt::Import(names) => alias_bound_names(names@),
        Stmt::ImportFrom { names, .. } => if names@.len() == 1 && names@[0].name@ == "*"@ {
            seq!["*"@]
        } else {
            names@.map_values(|a: Alias| alias_local_name(a))
        },
        _ => Seq::empty(),
    }
}

/// Each alias's local name, followed by the root of a dotted module imported without `as`.
pub open spec fn alias_bound_names(names: Seq<Alias>) -> Seq<Seq<char>>
    decreases names.len(),
{
    if names.len() == 0 {
        Seq::empty()
    } else {
        let a = names.last();
        alias_bound_names(names.drop_last()) + if a.asname is None && a.name@.contains('.') {
            seq![alias_local_name(a), root_name(a.name@)]
        } else {
            seq![alias_local_name(a)]
        }
    }
}

/// The item the first pass adds for an import statement (a summary: the
/// first alias of `import`, the module of `from`).
pub open spec fn import_pass_item(s: Stmt) -> Option<ItemView> {
    match s {
        Stmt::Import(names) => Some(
            bare_item(
                ItemTypeView::Import {
                    module: names@[0].name@,
                    alias: opt_view(names@[0].asname),
                },
                false,
            ),
        ),
        Stmt::ImportFrom { module, level, .. } => Some(
            bare_item(
                ItemTypeView::FromImport {
                    module: opt_name(module),
                    names: Seq::empty(),
                    level,
                    is_star: false,
                },
                false,
            ),
        ),
        _ => None,
    }
}

/// The items of the first pass over a module body.
pub open spec fn import_pass_items(b: Seq<Stmt>) -> Seq<ItemView>
    decreases b.len(),
{
    if b.len() == 0 {
        Seq::empty()
    } else {
        import_pass_items(b.drop_last()) + match import_pass_item(b.last()) {
            Some(i) => seq![i],
            None => Seq::empty(),
        }
    }
}

/// Every `import` statement of the body names at least one module.
pub open spec fn imports_nonempty(b: Seq<Stmt>) -> bool {
    forall|i: int| 0 <= i < b.len() ==> (#[trigger] b[i] matches Stmt::Import(names) ==> names@.len() > 0)
}

/// The names bound by the imports among `items`: the alias (else the module) of
/// each `import`, the alias (else the name) of each name of each `from` import.
pub open spec fn imported_item_names(items: Seq<ItemView>) -> Set<Seq<char>> {
    Set::new(
        |x: Seq<char>|
            exists|i: int|
                0 <= i < items.len() && #[trigger] item_binds(items[i].item_type, x),
    )
}

pub open spec fn item_binds(t: ItemTypeView, x: Seq<char>) -> bool {
    match t {
        ItemTypeView::Import { module, alias } => x == match alias {
            Some(a) => a,
            None => module,
        },
        ItemTypeView::FromImport { names, .. } => exists|j: int|
            0 <= j < names.len() && x == match #[trigger] names[j].1 {
                Some(a) => a,
                None => names[j].0,
            },
        _ => false,
    }
}

/// A copy of a name set.
fn names_copy(v: &Vec<String>) -> (r: Vec<String>)
    ensures
        r@ == v@,
{
    let mut r: Vec<String> = Vec::new();
    let mut i: usize = 0;
    while i < v.len()
        invariant
            i <= v.len(),
            r@ == v@.subrange(0, i as int),
        decreases v.len() - i,
    {
        r.push(v[i].clone());
        proof {
            assert(r@ =~= v@.subrange(0, i + 1));
        }
        i += 1;
    }
    proof {
        assert(v@.subrange(0, v@.len() as int) =~= v@);
    }
    r
}

/// Where a name is used, as `ImportUsageContext` records it.
pub ghost struct UsageView {
    pub import_item_id: usize,
    pub imported_name: Seq<char>,
    pub module_level_usage: Seq<usize>,
    pub function_level_usage: Seq<usize>,
}

pub open spec fn id_views(v: Seq<ItemId>) -> Seq<usize> {
    v.map_values(|i: ItemId| i.0)
}

pub open spec fn usage_views(v: Seq<ImportUsageContext>) -> Seq<UsageView> {
    v.map_values(
        |c: ImportUsageContext|
            UsageView {
                import_item_id: c.import_item_id.0,
                imported_name: c.imported_name@,
                module_level_usage: id_views(c.module_level_usage@),
                function_level_usage: id_views(c.function_level_usage@),
            },
    )
}

/// The positions of the items, other than the import itself, that read `name`:
/// at module level, or (with `deferred`) inside function bodies.
pub open spec fn usage(items: Seq<ItemView>, import_id: int, name: Seq<char>, deferred: bool) -> Seq<usize>
    decreases items.len(),
{
    if items.len() == 0 {
        Seq::empty()
    } else {
        let k = items.len() - 1;
        let reads = if deferred {
            items.last().eventual_read_vars
        } else {
            items.last().read_vars
        };
        usage(items.drop_last(), import_id, name, deferred) + if k != import_id && reads.contains(
            name,
        ) {
            seq![k as usize]
        } else {
            Seq::empty()
        }
    }
}

pub open spec fn usage_view_of(items: Seq<ItemView>, import_id: int, name: Seq<char>) -> UsageView {
    UsageView {
        import_item_id: import_id as usize,
        imported_name: name,
        module_level_usage: usage(items, import_id, name, false),
        function_level_usage: usage(items, import_id, name, true),
    }
}

pub open spec fn name_contexts(items: Seq<ItemView>, import_id: int, names: Seq<Seq<char>>) -> Seq<UsageView> {
    names.map_values(|n: Seq<char>| usage_view_of(items, import_id, n))
}

/// The usage of every name of every import, in order.
pub open spec fn usage_contexts(items: Seq<ItemView>, pairs: Seq<(usize, Seq<Seq<char>>)>) -> Seq<UsageView>
    decreases pairs.len(),
{
    if pairs.len() == 0 {
        Seq::empty()
    } else {
        usage_contexts(items, pairs.drop_last()) + name_contexts(
            items,
            pairs.last().0 as int,
            pairs.last().1,
        )
    }
}

pub open spec fn import_pair_views(v: Seq<(ItemId, Vec<String>)>) -> Seq<(usize, Seq<Seq<char>>)> {
    v.map_values(|p: (ItemId, Vec<String>)| (p.0.0, views(p.1@)))
}

/// The id and bound names of each import statement of the body, ids counted from `base`.
pub open spec fn import_pairs(b: Seq<Stmt>, base: nat) -> Seq<(usize, Seq<Seq<char>>)>
    decreases b.len(),
{
    if b.len() == 0 {
        Seq::empty()
    } else {
        let p = import_pairs(b.drop_last(), base);
        if import_pass_item(b.last()) is Some {
            p.push(((base + p.len()) as usize, import_bound_names(b.last())))
        } else {
            p
        }
    }
}

// ---------------------------------------------------------------------------
// The builder
// ---------------------------------------------------------------------------

/// Builds a module's item graph, deferring reads made inside function bodies.
pub struct EnhancedGraphBuilder {
    graph: ModuleDepGraph,
    scope_stack: Vec<ScopeContext>,
}

impl EnhancedGraphBuilder {
    spec fn scope_view(s: ScopeContext) -> ScopeView {
        ScopeView {
            is_function: s.scope_type is Function,
            deferred_reads: name_set(s.deferred_reads@),
        }
    }

    /// The builder's state.
    pub closed spec fn state(self) -> EnhancedState {
        EnhancedState {
            items: item_views(self.graph.items@),
            scopes: self.scope_stack@.map_values(|s: ScopeContext| Self::scope_view(s)),
        }
    }

    /// The graph built so far.
    pub closed spec fn built(self) -> ModuleDepGraph {
        self.graph
    }

    /// A builder that adds items to `graph`, starting at module scope.
    pub fn new(graph: ModuleDepGraph) -> (b: Self)
        ensures
            b.built() == graph,
            b.state().items == item_views(graph.items@),
            b.state().scopes == seq![ScopeView { is_function: false, deferred_reads: Set::empty() }],
    {
        let mut scope_stack: Vec<ScopeContext> = Vec::new();
        scope_stack.push(ScopeContext { scope_type: ScopeType::Module, deferred_reads: empty_names() });
        let b = EnhancedGraphBuilder { graph, scope_stack };
        proof {
            assert(b.state().scopes =~= seq![
                ScopeView { is_function: false, deferred_reads: Set::empty() },
            ]);
        }
        b
    }

    /// The graph built so far.
    pub fn into_graph(self) -> (g: ModuleDepGraph)
        ensures
            g == self.built(),
    {
        self.graph
    }
    /// Adds the names the builder counts as read by `expr`: only a plain name.
    fn collect_vars_in_expr(&self, expr: &Expr, vars: &mut Vec<String>)
        ensures
            name_set(final(vars)@) == name_set(old(vars)@) + simple_vars(*expr),
    {
        if let Expr::Name { id, .. } = expr {
            insert_name(vars, id.clone());
        } else {
            proof {
                assert(name_set(vars@) =~= name_set(vars@) + simple_vars(*expr));
            }
        }
    }

    fn collect_vars_in_exprs(&self, exprs: &Vec<Expr>, vars: &mut Vec<String>)
        ensures
            name_set(final(vars)@) == name_set(old(vars)@) + simple_vars_seq(exprs@),
    {
        let mut i: usize = 0;
        while i < exprs.len()
            invariant
                i <= exprs.len(),
                name_set(vars@) == name_set(old(vars)@) + simple_vars_seq(
                    exprs@.subrange(0, i as int),
                ),
            decreases exprs.len() - i,
        {
            proof {
                assert(exprs@.subrange(0, i + 1).drop_last() =~= exprs@.subrange(0, i as int));
            }
            self.collect_vars_in_expr(&exprs[i], vars);
            proof {
                assert(name_set(vars@) =~= name_set(old(vars)@) + simple_vars_seq(
                    exprs@.subrange(0, i + 1),
                ));
            }
            i += 1;
        }
        proof {
            assert(exprs@.subrange(0, exprs@.len() as int) =~= exprs@);
        }
    }

    /// Adds the names read by the annotations of the regular parameters.
    fn collect_annotation_vars(&self, params: &Vec<Parameter>, vars: &mut Vec<String>)
        ensures
            name_set(final(vars)@) == name_set(old(vars)@) + simple_annotation_vars(params@),
    {
        let mut i: usize = 0;
        while i < params.len()
            invariant
                i <= params.len(),
                name_set(vars@) == name_set(old(vars)@) + simple_annotation_vars(
                    params@.subrange(0, i as int),
                ),
            decreases params.len() - i,
        {
            proof {
                assert(params@.subrange(0, i + 1).drop_last() =~= params@.subrange(0, i as int));
            }
            let ghost before = name_set(vars@);
            if let Some(annotation) = &params[i].annotation {
                self.collect_vars_in_expr(annotation, vars);
            }
            proof {
                assert(name_set(vars@) =~= name_set(old(vars)@) + simple_annotation_vars(
                    params@.subrange(0, i + 1),
                ));
            }
            i += 1;
        }
        proof {
            assert(params@.subrange(0, params@.len() as int) =~= params@);
        }
    }

    /// Appends the names of the plain-name targets among `targets`.
    fn extract_assignment_targets(&self, targets: &Vec<Expr>) -> (r: Vec<String>)
        ensures
            views(r@) == simple_targets(targets@),
    {
        let mut r: Vec<String> = Vec::new();
        let mut i: usize = 0;
        proof {
            assert(views(r@) =~= simple_targets(targets@.subrange(0, 0)));
        }
        while i < targets.len()
            invariant
                i <= targets.len(),
                views(r@) == simple_targets(targets@.subrange(0, i as int)),
            decreases targets.len() - i,
        {
            proof {
                assert(targets@.subrange(0, i + 1).drop_last() =~= targets@.subrange(0, i as int));
            }
            let ghost before = views(r@);
            if let Expr::Name { id, .. } = &targets[i] {
                r.push(id.clone());
            }
            proof {
                assert(views(r@) =~= simple_targets(targets@.subrange(0, i + 1)));
            }
            i += 1;
        }
        proof {
            assert(targets@.subrange(0, targets@.len() as int) =~= targets@);
        }
        r
    }

    /// Some scope of the stack is a function.
    fn in_function(&self) -> (r: bool)
        ensures
            r == in_function(self.state().scopes),
    {
        let mut i: usize = 0;
        while i < self.scope_stack.len()
            invariant
                i <= self.scope_stack.len(),
                forall|j: int| 0 <= j < i ==> !(self.scope_stack@[j].scope_type is Function),
            decreases self.scope_stack.len() - i,
        {
            if let ScopeType::Function(_) = &self.scope_stack[i].scope_type {
                proof {
                    assert(self.state().scopes[i as int].is_function);
                }
                return true;
            }
            i += 1;
        }
        false
    }

    /// Adds `reads` to the innermost scope's deferred reads.
    fn defer(&mut self, reads: &Vec<String>)
        ensures
            final(self).state() == (EnhancedState {
                scopes: defer_reads(old(self).state().scopes, name_set(reads@)),
                ..old(self).state()
            }),
            final(self).built() == old(self).built(),
    {
        if self.scope_stack.len() == 0 {
            proof {
                assert(self.state() =~= (EnhancedState {
                    scopes: defer_reads(old(self).state().scopes, name_set(reads@)),
                    ..old(self).state()
                }));
            }
            return;
        }
        let ghost before = self.scope_stack@;
        let mut top = self.scope_stack.pop().unwrap();
        extend_names(&mut top.deferred_reads, reads);
        self.scope_stack.push(top);
        proof {
            assert(self.scope_stack@ =~= before.update(before.len() - 1, top));
            assert(self.state().scopes =~= defer_reads(old(self).state().scopes, name_set(reads@)));
            assert(self.state() =~= (EnhancedState {
                scopes: defer_reads(old(self).state().scopes, name_set(reads@)),
                ..old(self).state()
            }));
        }
    }

    /// Adds an item to the graph.
    fn add_item(&mut self, item: ItemData) -> (id: ItemId)
        ensures
            final(self).state() == (EnhancedState {
                items: old(self).state().items.push(item_view(item)),
                ..old(self).state()
            }),
            id.0 == old(self).state().items.len(),
    {
        let ghost before = self.graph.items@;
        let id = self.graph.add_item(item);
        proof {
            assert(item_views(self.graph.items@) =~= item_views(before).push(item_view(item)));
            assert(self.state() =~= (EnhancedState {
                items: old(self).state().items.push(item_view(item)),
                ..old(self).state()
            }));
        }
        id
    }

    /// The item recorded for an `import` statement: its first alias.
    fn create_import_item_data(&self, names: &Vec<Alias>) -> (d: ItemData)
        requires
            names@.len() > 0,
        ensures
            item_view(d) == import_pass_item(Stmt::Import(*names))->0,
    {
        let alias = match &names[0].asname {
            Some(a) => Some(a.clone()),
            None => None,
        };
        let d = ItemData {
            item_type: ItemType::Import { module: names[0].name.clone(), alias },
            var_decls: empty_names(),
            read_vars: empty_names(),
            eventual_read_vars: empty_names(),
            write_vars: empty_names(),
            eventual_write_vars: empty_names(),
            has_side_effects: false,
            imported_names: empty_names(),
            reexported_names: empty_names(),
        };
        proof {
            assert(item_view(d) =~= import_pass_item(Stmt::Import(*names))->0);
        }
        d
    }

    /// The item recorded for a `from` import statement: its module only.
    fn create_from_import_item_data(&self, module: &Option<String>, level: u32) -> (d: ItemData)
        ensures
            item_view(d) == bare_item(
                ItemTypeView::FromImport {
                    module: opt_name(*module),
                    names: Seq::empty(),
                    level,
                    is_star: false,
                },
                false,
            ),
    {
        let module_name = match module {
            Some(m) => m.clone(),
            None => String::new(),
        };
        let d = ItemData {
            item_type: ItemType::FromImport {
                module: module_name,
                names: Vec::new(),
                level,
                is_star: false,
            },
            var_decls: empty_names(),
            read_vars: empty_names(),
            eventual_read_vars: empty_names(),
            write_vars: empty_names(),
            eventual_write_vars: empty_names(),
            has_side_effects: false,
            imported_names: empty_names(),
            reexported_names: empty_names(),
        };
        proof {
            assert(pair_views(Seq::<(String, Option<String>)>::empty()) =~= Seq::<
                (Seq<char>, Option<Seq<char>>),
            >::empty());
            assert(item_view(d) =~= bare_item(
                ItemTypeView::FromImport {
                    module: opt_name(*module),
                    names: Seq::empty(),
                    level,
                    is_star: false,
                },
                false,
            ));
        }
        d
    }

    /// The names each alias binds, with the root of an un-aliased dotted module.
    fn alias_bound_names(&self, names: &Vec<Alias>) -> (r: Vec<String>)
        ensures
            views(r@) == alias_bound_names(names@),
    {
        let mut r: Vec<String> = Vec::new();
        let mut i: usize = 0;
        proof {
            assert(views(r@) =~= alias_bound_names(names@.subrange(0, 0)));
        }
        while i < names.len()
            invariant
                i <= names.len(),
                views(r@) == alias_bound_names(names@.subrange(0, i as int)),
            decreases names.len() - i,
        {
            proof {
                assert(names@.subrange(0, i + 1).drop_last() =~= names@.subrange(0, i as int));
            }
            let alias = &names[i];
            let ghost before = views(r@);
            r.push(local_name(alias).clone());
            if alias.asname.is_none() && contains_char(alias.name.as_str(), '.') {
                let parts = split_char(alias.name.as_str(), '.');
                proof {
                    lemma_split_nonempty(alias.name@, '.');
                    assert(views(parts@)[0] == parts@[0]@);
                }
                r.push(parts[0].clone());
            }
            proof {
                assert(views(r@) =~= alias_bound_names(names@.subrange(0, i + 1)));
            }
            i += 1;
        }
        proof {
            assert(names@.subrange(0, names@.len() as int) =~= names@);
        }
        r
    }

    /// First pass: adds the item of an import statement and returns its id with
    /// the names it binds; other statements add nothing.
    fn process_import_statement(&mut self, stmt: &Stmt) -> (r: Option<(ItemId, Vec<String>)>)
        requires
            stmt matches Stmt::Import(names) ==> names@.len() > 0,
        ensures
            final(self).state() == (EnhancedState {
                items: old(self).state().items + match import_pass_item(*stmt) {
                    Some(i) => seq![i],
                    None => Seq::empty(),
                },
                ..old(self).state()
            }),
            r is Some <==> import_pass_item(*stmt) is Some,
            r matches Some(p) ==> p.0.0 == old(self).state().items.len() && views(p.1@)
                == import_bound_names(*stmt),
    {
        match stmt {
            Stmt::Import(names) => {
                let all_imported = self.alias_bound_names(names);
                let item = self.create_import_item_data(names);
                let id = self.add_item(item);
                proof {
                    assert(self.state() =~= (EnhancedState {
                        items: old(self).state().items + seq![import_pass_item(*stmt)->0],
                        ..old(self).state()
                    }));
                }
                Some((id, all_imported))
            },
            Stmt::ImportFrom { module, names, level } => {
                let mut all_imported: Vec<String> = Vec::new();
                if names.len() == 1 && str_eq(names[0].name.as_str(), "*") {
                    all_imported.push(to_string("*"));
                    proof {
                        reveal_strlit("*");
                        assert(views(all_imported@) =~= import_bound_names(*stmt));
                    }
                } else {
                    let mut i: usize = 0;
                    while i < names.len()
                        invariant
                            i <= names.len(),
                            views(all_imported@) == names@.subrange(0, i as int).map_values(
                                |a: Alias| alias_local_name(a),
                            ),
                        decreases names.len() - i,
                    {
                        let ghost before = all_imported@;
                        all_imported.push(local_name(&names[i]).clone());
                        proof {
                            assert(views(all_imported@) =~= views(before).push(
                                alias_local_name(names@[i as int]),
                            ));
                            assert(views(all_imported@) =~= names@.subrange(0, i + 1).map_values(
                                |a: Alias| alias_local_name(a),
                            ));
                        }
                        i += 1;
                    }
                    proof {
                        reveal_strlit("*");
                        assert(names@.subrange(0, names@.len() as int) =~= names@);
                        assert(views(all_imported@) =~= import_bound_names(*stmt));
                    }
                }
                let item = self.create_from_import_item_data(module, *level);
                let id = self.add_item(item);
                proof {
                    assert(self.state() =~= (EnhancedState {
                        items: old(self).state().items + seq![import_pass_item(*stmt)->0],
                        ..old(self).state()
                    }));
                }
                Some((id, all_imported))
            },
            _ => {
                proof {
                    assert(self.state() =~= (EnhancedState {
                        items: old(self).state().items + Seq::<ItemView>::empty(),
                        ..old(self).state()
                    }));
                }
                None
            },
        }
    }
    /// Second pass over a statement: adds its item, deferring reads made inside functions.
    fn process_statement(&mut self, stmt: &Stmt)
        ensures
            final(self).state() == enh_stmt(*stmt, old(self).state()),
        decreases stmt, 2int,
    {
        match stmt {
            Stmt::FunctionDef { .. } => self.process_function_def_with_context(stmt),
            Stmt::ClassDef { .. } => self.process_class_def_with_context(stmt),
            Stmt::Assign { targets, value } => self.process_assign_with_context(targets, value),
            Stmt::Expr(e) => self.process_expr_with_context(e),
            _ => {},
        }
    }

    #[verifier::loop_isolation(false)]
    fn process_body(&mut self, body: &Vec<Stmt>)
        ensures
            final(self).state() == enh_body(body@, old(self).state()),
        decreases body, 0int,
    {
        let mut i: usize = 0;
        while i < body.len()
            invariant
                i <= body.len(),
                self.state() == enh_body(body@.subrange(0, i as int), old(self).state()),
            decreases body.len() - i,
        {
            proof {
                assert(decreases_to!(body => body@));
                assert(decreases_to!(body@ => body@[i as int]));
                assert(body@.subrange(0, i + 1).drop_last() =~= body@.subrange(0, i as int));
            }
            self.process_statement(&body[i]);
            i += 1;
        }
        proof {
            assert(body@.subrange(0, body@.len() as int) =~= body@);
        }
    }

    /// A function definition: its item reads its decorators and annotations; the
    /// reads of its body become its deferred reads.
    fn process_function_def_with_context(&mut self, func_def: &Stmt)
        requires
            func_def is FunctionDef,
        ensures
            final(self).state() == enh_stmt(*func_def, old(self).state()),
        decreases func_def, 1int,
    {
        let Stmt::FunctionDef { name, decorators, parameters, return_type, body } = func_def
        else {
            return;
        };
        proof {
            assert(decreases_to!(*func_def => *body));
        }
        let mut module_level_reads = empty_names();
        self.collect_vars_in_exprs(decorators, &mut module_level_reads);
        self.collect_annotation_vars(&parameters.args, &mut module_level_reads);
        if let Some(r) = return_type {
            self.collect_vars_in_expr(r, &mut module_level_reads);
        }
        let ghost reads = name_set(module_level_reads@);
        let mut item = ItemData {
            item_type: ItemType::FunctionDef { name: name.clone() },
            var_decls: single_name(name.clone()),
            read_vars: module_level_reads,
            eventual_read_vars: empty_names(),
            write_vars: empty_names(),
            eventual_write_vars: empty_names(),
            has_side_effects: false,
            imported_names: empty_names(),
            reexported_names: empty_names(),
        };
        let ghost st0 = self.state();
        self.scope_stack.push(
            ScopeContext { scope_type: ScopeType::Function(name.clone()), deferred_reads: empty_names() },
        );
        proof {
            assert(self.state() =~= (EnhancedState {
                scopes: st0.scopes.push(ScopeView { is_function: true, deferred_reads: Set::empty() }),
                ..st0
            }));
        }
        self.process_body(body);
        let ghost inner = self.state();
        let ghost before_pop = self.scope_stack@;
        if let Some(scope) = self.scope_stack.pop() {
            item.eventual_read_vars = scope.deferred_reads;
            proof {
                assert(self.state().scopes =~= inner.scopes.drop_last());
            }
        }
        self.add_item(item);
        proof {
            let r = match return_type {
                Some(x) => simple_vars(*x),
                None => Set::empty(),
            };
            assert(reads =~= simple_vars_seq(decorators@) + simple_annotation_vars(parameters.args@) + r);
            assert(self.state() =~= enh_stmt(*func_def, old(self).state()));
        }
    }

    /// A class definition: its item is added first, then its body is processed in class scope.
    fn process_class_def_with_context(&mut self, class_def: &Stmt)
        requires
            class_def is ClassDef,
        ensures
            final(self).state() == enh_stmt(*class_def, old(self).state()),
        decreases class_def, 1int,
    {
        let Stmt::ClassDef { name, decorators, bases, body, .. } = class_def else {
            return;
        };
        proof {
            assert(decreases_to!(*class_def => *body));
        }
        let mut module_level_reads = empty_names();
        self.collect_vars_in_exprs(decorators, &mut module_level_reads);
        self.collect_vars_in_exprs(bases, &mut module_level_reads);
        let item = ItemData {
            item_type: ItemType::ClassDef { name: name.clone() },
            var_decls: single_name(name.clone()),
            read_vars: module_level_reads,
            eventual_read_vars: empty_names(),
            write_vars: empty_names(),
            eventual_write_vars: empty_names(),
            has_side_effects: false,
            imported_names: empty_names(),
            reexported_names: empty_names(),
        };
        proof {
            assert(item_view(item) =~= ItemView {
                var_decls: set![name@],
                read_vars: simple_vars_seq(decorators@) + simple_vars_seq(bases@),
                ..bare_item(ItemTypeView::ClassDef { name: name@ }, false)
            });
        }
        let _class_item_id = self.add_item(item);
        let ghost st1 = self.state();
        self.scope_stack.push(
            ScopeContext { scope_type: ScopeType::Class(name.clone()), deferred_reads: empty_names() },
        );
        proof {
            assert(self.state() =~= (EnhancedState {
                scopes: st1.scopes.push(ScopeView { is_function: false, deferred_reads: Set::empty() }),
                ..st1
            }));
        }
        self.process_body(body);
        let ghost inner = self.state();
        if self.scope_stack.len() > 0 {
            let _ = self.scope_stack.pop();
            proof {
                assert(self.state().scopes =~= inner.scopes.drop_last());
            }
        }
        proof {
            assert(self.state() =~= enh_stmt(*class_def, old(self).state()));
        }
    }

    /// An assignment: inside a function its reads are deferred.
    fn process_assign_with_context(&mut self, targets: &Vec<Expr>, value: &Expr)
        ensures
            final(self).state() == enh_stmt(
                Stmt::Assign { targets: *targets, value: *value },
                old(self).state(),
            ),
    {
        let mut read_vars = empty_names();
        self.collect_vars_in_expr(value, &mut read_vars);
        let in_function = self.in_function();
        if in_function {
            self.defer(&read_vars);
        }
        let names = self.extract_assignment_targets(targets);
        let item = ItemData {
            item_type: ItemType::Assignment { targets: names },
            var_decls: empty_names(),
            read_vars: if in_function {
                empty_names()
            } else {
                names_copy(&read_vars)
            },
            eventual_read_vars: if in_function {
                read_vars
            } else {
                empty_names()
            },
            write_vars: empty_names(),
            eventual_write_vars: empty_names(),
            has_side_effects: false,
            imported_names: empty_names(),
            reexported_names: empty_names(),
        };
        let ghost st = self.state();
        self.add_item(item);
        proof {
            let f = self::in_function(old(self).state().scopes);
            assert(item_view(item) =~= scoped_item(
                ItemTypeView::Assignment { targets: simple_targets(targets@) },
                simple_vars(*value),
                f,
                false,
            ));
            assert(self.state() =~= enh_stmt(
                Stmt::Assign { targets: *targets, value: *value },
                old(self).state(),
            ));
        }
    }

    /// An expression statement: inside a function its reads are deferred.
    fn process_expr_with_context(&mut self, expr: &Expr)
        ensures
            final(self).state() == enh_stmt(Stmt::Expr(*expr), old(self).state()),
    {
        let mut read_vars = empty_names();
        self.collect_vars_in_expr(expr, &mut read_vars);
        let in_function = self.in_function();
        if in_function {
            self.defer(&read_vars);
        }
        let item = ItemData {
            item_type: ItemType::Expression,
            var_decls: empty_names(),
            read_vars: if in_function {
                empty_names()
            } else {
                names_copy(&read_vars)
            },
            eventual_read_vars: if in_function {
                read_vars
            } else {
                empty_names()
            },
            write_vars: empty_names(),
            eventual_write_vars: empty_names(),
            has_side_effects: true,
            imported_names: empty_names(),
            reexported_names: empty_names(),
        };
        self.add_item(item);
        proof {
            let f = self::in_function(old(self).state().scopes);
            assert(item_view(item) =~= scoped_item(
                ItemTypeView::Expression,
                simple_vars(*expr),
                f,
                true,
            ));
            assert(self.state() =~= enh_stmt(Stmt::Expr(*expr), old(self).state()));
        }
    }
    /// Where each imported name is read: the items (other than the import)
    /// reading it at module level, and those reading it inside function bodies.
    fn analyze_import_usage_patterns(&self, import_items: &Vec<(ItemId, Vec<String>)>) -> (r: Vec<ImportUsageContext>)
        ensures
            usage_views(r@) == usage_contexts(self.state().items, import_pair_views(import_items@)),
    {
        let ghost items = self.state().items;
        let mut result: Vec<ImportUsageContext> = Vec::new();
        let mut p: usize = 0;
        proof {
            assert(usage_views(result@) =~= usage_contexts(items, import_pair_views(import_items@).subrange(0, 0)));
        }
        while p < import_items.len()
            invariant
                p <= import_items.len(),
                items == self.state().items,
                usage_views(result@) == usage_contexts(items, import_pair_views(import_items@).subrange(0, p as int)),
            decreases import_items.len() - p,
        {
            let import_id = import_items[p].0;
            let imported_names = &import_items[p].1;
            let ghost before = usage_views(result@);
            let mut q: usize = 0;
            while q < imported_names.len()
                invariant
                    q <= imported_names.len(),
                    items == self.state().items,
                    usage_views(result@) == before + name_contexts(items, import_id.0 as int, views(imported_names@).subrange(0, q as int)),
                decreases imported_names.len() - q,
            {
                let imported_name = &imported_names[q];
                let mut module_level_usage: Vec<ItemId> = Vec::new();
                let mut function_level_usage: Vec<ItemId> = Vec::new();
                let mut k: usize = 0;
                while k < self.graph.items.len()
                    invariant
                        k <= self.graph.items.len(),
                        items == self.state().items,
                        id_views(module_level_usage@) == usage(items.subrange(0, k as int), import_id.0 as int, imported_name@, false),
                        id_views(function_level_usage@) == usage(items.subrange(0, k as int), import_id.0 as int, imported_name@, true),
                    decreases self.graph.items.len() - k,
                {
                    proof {
                        assert(items.subrange(0, k + 1).drop_last() =~= items.subrange(0, k as int));
                        assert(items[k as int] == item_view(self.graph.items@[k as int]));
                    }
                    let ghost m0 = id_views(module_level_usage@);
                    let ghost f0 = id_views(function_level_usage@);
                    if k != import_id.0 {
                        if contains_name(&self.graph.items[k].read_vars, imported_name.as_str()) {
                            module_level_usage.push(ItemId(k));
                        }
                        if contains_name(&self.graph.items[k].eventual_read_vars, imported_name.as_str()) {
                            function_level_usage.push(ItemId(k));
                        }
                    }
                    proof {
                        assert(id_views(module_level_usage@) =~= usage(items.subrange(0, k + 1), import_id.0 as int, imported_name@, false));
                        assert(id_views(function_level_usage@) =~= usage(items.subrange(0, k + 1), import_id.0 as int, imported_name@, true));
                    }
                    k += 1;
                }
                proof {
                    assert(items.subrange(0, items.len() as int) =~= items);
                }
                let ghost b2 = usage_views(result@);
                result.push(ImportUsageContext {
                    import_item_id: import_id,
                    imported_name: imported_name.clone(),
                    module_level_usage,
                    function_level_usage,
                    class_level_usage: Vec::new(),
                });
                proof {
                    assert(views(imported_names@).subrange(0, q + 1) =~= views(imported_names@).subrange(0, q as int).push(imported_name@));
                    assert(usage_views(result@) =~= b2.push(usage_view_of(items, import_id.0 as int, imported_name@)));
                    assert(usage_views(result@) =~= before + name_contexts(items, import_id.0 as int, views(imported_names@).subrange(0, q + 1)));
                }
                q += 1;
            }
            proof {
                assert(views(imported_names@).subrange(0, imported_names@.len() as int) =~= views(imported_names@));
                let pv = import_pair_views(import_items@);
                assert(pv.subrange(0, p + 1).drop_last() =~= pv.subrange(0, p as int));
                assert(pv[p as int] == (import_id.0, views(imported_names@)));
            }
            p += 1;
        }
        proof {
            assert(import_pair_views(import_items@).subrange(0, import_items@.len() as int) =~= import_pair_views(import_items@));
        }
        result
    }

    /// Builds the graph of a module: first an item per import statement, then
    /// the other items with deferred reads tracked; returns where each import is used.
    pub fn build_from_ast(&mut self, ast: &ModModule) -> (usage: Vec<ImportUsageContext>)
        requires
            imports_nonempty(ast.body@),
        ensures
            final(self).state() == enh_body(
                ast.body@,
                EnhancedState {
                    items: old(self).state().items + import_pass_items(ast.body@),
                    ..old(self).state()
                },
            ),
            usage_views(usage@) == usage_contexts(
                final(self).state().items,
                import_pairs(ast.body@, old(self).state().items.len()),
            ),
    {
        let mut import_items: Vec<(ItemId, Vec<String>)> = Vec::new();
        let mut i: usize = 0;
        let ghost base = self.state().items.len();
        proof {
            assert(ast.body@.subrange(0, 0) =~= Seq::<Stmt>::empty());
            assert(import_pair_views(import_items@) =~= import_pairs(Seq::<Stmt>::empty(), base));
            assert(self.state() =~= (EnhancedState {
                items: old(self).state().items + import_pass_items(Seq::<Stmt>::empty()),
                ..old(self).state()
            }));
        }
        while i < ast.body.len()
            invariant
                i <= ast.body.len(),
                imports_nonempty(ast.body@),
                base == old(self).state().items.len(),
                self.state() == (EnhancedState {
                    items: old(self).state().items + import_pass_items(ast.body@.subrange(0, i as int)),
                    ..old(self).state()
                }),
                import_pair_views(import_items@) == import_pairs(ast.body@.subrange(0, i as int), base),
                import_pairs(ast.body@.subrange(0, i as int), base).len() == import_pass_items(ast.body@.subrange(0, i as int)).len(),
            decreases ast.body.len() - i,
        {
            proof {
                assert(ast.body@.subrange(0, i + 1).drop_last() =~= ast.body@.subrange(0, i as int));
                assert(ast.body@.subrange(0, i + 1).last() == ast.body@[i as int]);
            }
            let ghost before = import_items@;
            if let Some(found) = self.process_import_statement(&ast.body[i]) {
                import_items.push(found);
                proof {
                    assert(import_pair_views(import_items@) =~= import_pair_views(before).push((found.0.0, views(found.1@))));
                }
            }
            proof {
                assert(self.state() =~= (EnhancedState {
                    items: old(self).state().items + import_pass_items(ast.body@.subrange(0, i + 1)),
                    ..old(self).state()
                }));
                assert(import_pair_views(import_items@) =~= import_pairs(ast.body@.subrange(0, i + 1), base));
            }
            i += 1;
        }
        proof {
            assert(ast.body@.subrange(0, ast.body@.len() as int) =~= ast.body@);
        }
        self.process_body(&ast.body);
        self.analyze_import_usage_patterns(&import_items)
    }
}

/// Import-usage questions about a module's item graph.
pub trait EnhancedModuleDepGraph {
    /// Every imported name is read only inside function bodies.
    fn are_imports_used_only_in_functions_enhanced(&self) -> bool;
}

/// No item reads any of the imported names at module level.
pub open spec fn imports_only_in_functions(items: Seq<ItemView>) -> bool {
    !exists|i: int, x: Seq<char>|
        0 <= i < items.len() && imported_item_names(items).contains(x)
            && #[trigger] items[i].read_vars.contains(x)
}

/// The names bound by the import items among the first `k` items.
fn collect_imported_names(items: &Vec<ItemData>) -> (r: Vec<String>)
    ensures
        name_set(r@) == imported_item_names(item_views(items@)),
{
    let mut r = empty_names();
    let mut k: usize = 0;
    while k < items.len()
        invariant
            k <= items.len(),
            name_set(r@) == imported_item_names(item_views(items@.subrange(0, k as int))),
        decreases items.len() - k,
    {
        let ghost before = name_set(r@);
        let ghost t = item_views(items@)[k as int].item_type;
        proof {
            assert(item_views(items@)[k as int] == item_view(items@[k as int]));
        }
        match &items[k].item_type {
            ItemType::Import { module, alias } => {
                let name = match alias {
                    Some(a) => a.clone(),
                    None => module.clone(),
                };
                insert_name(&mut r, name);
            },
            ItemType::FromImport { names, .. } => {
                let mut j: usize = 0;
                while j < names.len()
                    invariant
                        j <= names.len(),
                        name_set(r@) == before + Set::new(
                            |x: Seq<char>|
                                exists|m: int|
                                    0 <= m < j && x == match #[trigger] pair_views(names@)[m].1 {
                                        Some(a) => a,
                                        None => pair_views(names@)[m].0,
                                    },
                        ),
                    decreases names.len() - j,
                {
                    let ghost b2 = name_set(r@);
                    let name = match &names[j].1 {
                        Some(a) => a.clone(),
                        None => names[j].0.clone(),
                    };
                    insert_name(&mut r, name);
                    proof {
                        let pv = pair_views(names@);
                        let bound = |m: int| match pv[m].1 {
                            Some(a) => a,
                            None => pv[m].0,
                        };
                        assert(bound(j as int) == name@);
                        assert(name_set(r@) =~= before + Set::new(
                            |x: Seq<char>|
                                exists|m: int|
                                    0 <= m < j + 1 && x == match #[trigger] pair_views(names@)[m].1 {
                                        Some(a) => a,
                                        None => pair_views(names@)[m].0,
                                    },
                        )) by {
                            assert forall|x: Seq<char>| #[trigger] name_set(r@).contains(x) implies (before + Set::new(
                                |x: Seq<char>|
                                    exists|m: int|
                                        0 <= m < j + 1 && x == match #[trigger] pair_views(names@)[m].1 {
                                            Some(a) => a,
                                            None => pair_views(names@)[m].0,
                                        },
                            )).contains(x) by {
                                if x == name@ {
                                    assert(x == match pv[j as int].1 {
                                        Some(a) => a,
                                        None => pv[j as int].0,
                                    });
                                }
                            }
                        }
                    }
                    j += 1;
                }
            },
            _ => {},
        }
        proof {
            let a = item_views(items@.subrange(0, k as int));
            let b = item_views(items@.subrange(0, k + 1));
            assert(b =~= a.push(item_views(items@)[k as int]));
            assert forall|x: Seq<char>| #[trigger] imported_item_names(b).contains(x) <==> (
            imported_item_names(a).contains(x) || item_binds(t, x)) by {
                if imported_item_names(b).contains(x) {
                    let i = choose|i: int| 0 <= i < b.len() && #[trigger] item_binds(b[i].item_type, x);
                    if i < k {
                        assert(a[i] == b[i]);
                    }
                }
                if imported_item_names(a).contains(x) {
                    let i = choose|i: int| 0 <= i < a.len() && #[trigger] item_binds(a[i].item_type, x);
                    assert(a[i] == b[i]);
                }
                if item_binds(t, x) {
                    assert(b[k as int].item_type == t);
                }
            }
            assert forall|x: Seq<char>| #[trigger] name_set(r@).contains(x) <==> (before.contains(x)
                || item_binds(t, x)) by {
                match items@[k as int].item_type {
                    ItemType::FromImport { names, .. } => {
                        let pv = pair_views(names@);
                        assert(pv.len() == names@.len());
                    },
                    _ => {},
                }
            }
            assert(name_set(r@) =~= imported_item_names(b));
        }
        k += 1;
    }
    proof {
        assert(items@.subrange(0, items@.len() as int) =~= items@);
    }
    r
}

impl EnhancedModuleDepGraph for ModuleDepGraph {
    fn are_imports_used_only_in_functions_enhanced(&self) -> (r: bool)
        ensures
            r == imports_only_in_functions(item_views(self.items@)),
    {
        let imported_names = collect_imported_names(&self.items);
        let ghost items = item_views(self.items@);
        let mut n: usize = 0;
        while n < imported_names.len()
            invariant
                n <= imported_names.len(),
                items == item_views(self.items@),
                name_set(imported_names@) == imported_item_names(items),
                forall|m: int, i: int|
                    0 <= m < n && 0 <= i < items.len() ==> !#[trigger] items[i].read_vars.contains(
                        #[trigger] imported_names@[m]@,
                    ),
            decreases imported_names.len() - n,
        {
            let mut k: usize = 0;
            while k < self.items.len()
                invariant
                    k <= self.items.len(),
                    n < imported_names.len(),
                    items == item_views(self.items@),
                    name_set(imported_names@) == imported_item_names(items),
                    forall|i: int| 0 <= i < k ==> !items[i].read_vars.contains(imported_names@[n as int]@),
                decreases self.items.len() - k,
            {
                proof {
                    assert(items[k as int] == item_view(self.items@[k as int]));
                }
                if contains_name(&self.items[k].read_vars, imported_names[n].as_str()) {
                    proof {
                        assert(views(imported_names@)[n as int] == imported_names@[n as int]@);
                        assert(views(imported_names@).contains(imported_names@[n as int]@));
                        assert(name_set(imported_names@).contains(imported_names@[n as int]@));
                        assert(imported_item_names(items).contains(imported_names@[n as int]@));
                        assert(items[k as int].read_vars.contains(imported_names@[n as int]@));
                    }
                    return false;
                }
                k += 1;
            }
            n += 1;
        }
        proof {
            assert forall|i: int, x: Seq<char>|
                0 <= i < items.len() && imported_item_names(items).contains(x) implies !(
                #[trigger] items[i].read_vars.contains(x)) by {
                assert(name_set(imported_names@).contains(x));
                let m = choose|m: int| 0 <= m < views(imported_names@).len() && views(imported_names@)[m] == x;
                assert(imported_names@[m]@ == x);
            }
        }
        true
    }
}

} // verus!
