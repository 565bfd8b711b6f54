//! Builds a module's item graph from its syntax tree.
use vstd::prelude::*;

use crate::ast::{
    alias_local_name, local_name, Alias, ModModule, Comprehension, DictItem, ElifElseClause, ExceptHandler, Expr,
    Keyword, Parameter, Parameters, Stmt, WithItem,
};
use crate::cribo_graph::{
    item_type_view, item_view, item_views, opt_view, pair_views, ItemData, ItemType, ItemTypeView, ItemView,
    ModuleDepGraph,
};
use crate::text::{
    contains_char, contains_name, copy_string, distinct_names, empty_names, extend_names, has_prefix,
    names_to_set, single_name, starts_with, str_eq, to_string, insert_name, join_strings, join_with,
    lemma_split_nonempty, name_set, split_char, split_on, views,
};

verus! {

// ---------------------------------------------------------------------------
// Specification: names read by an expression
// ---------------------------------------------------------------------------

/// The segments of a dotted name `a.b.c` built only of names and attributes.
pub open spec fn dotted_parts(e: Expr) -> Option<Seq<Seq<char>>>
    decreases e,
{
    match e {
        Expr::Name { id, .. } => Some(seq![id@]),
        Expr::Attribute { value, attr, .. } => match dotted_parts(*value) {
            Some(p) => Some(p.push(attr@)),
            None => None,
        },
        _ => None,
    }
}

/// The dotted name an expression spells, if it is one.
pub open spec fn dotted_name(e: Expr) -> Option<Seq<char>> {
    match dotted_parts(e) {
        Some(p) => Some(join_with(p, seq!['.'])),
        None => None,
    }
}

/// The first segment of a dotted name.
pub open spec fn root_name(s: Seq<char>) -> Seq<char> {
    split_on(s, '.')[0]
}

/// Extra names an attribute access `value.attr` reads: the dotted name of
/// `value` and, when that is dotted, its root.
pub open spec fn attribute_extra_vars(value: Expr) -> Set<Seq<char>> {
    match dotted_name(value) {
        Some(full) => if full.contains('.') {
            set![full, root_name(full)]
        } else {
            set![full]
        },
        None => Set::empty(),
    }
}

/// The names an expression reads.
pub open spec fn expr_vars(e: Expr) -> Set<Seq<char>>
    decreases e,
{
    match e {
        Expr::Name { id, .. } => set![id@],
        Expr::Attribute { value, .. } => attribute_extra_vars(*value) + expr_vars(*value),
        Expr::Call { func, args, keywords } => expr_vars(*func) + exprs_vars(args@)
            + keywords_vars(keywords@),
        Expr::BinOp { left, right, .. } => expr_vars(*left) + expr_vars(*right),
        Expr::UnaryOp(operand) => expr_vars(*operand),
        Expr::List(elts) => exprs_vars(elts@),
        Expr::Tuple(elts) => exprs_vars(elts@),
        Expr::Dict(items) => dict_vars(items@),
        Expr::SetDisplay(elts) => exprs_vars(elts@),
        Expr::Subscript { value, slice } => expr_vars(*value) + expr_vars(*slice),
        Expr::Compare { left, comparators, .. } => expr_vars(*left) + exprs_vars(comparators@),
        Expr::BoolOp(values) => exprs_vars(values@),
        Expr::IfExp { test, body, orelse } => expr_vars(*test) + expr_vars(*body) + expr_vars(
            *orelse,
        ),
        Expr::ListComp { elt, generators } => expr_vars(*elt) + comprehensions_vars(generators@),
        Expr::SetComp { elt, generators } => expr_vars(*elt) + comprehensions_vars(generators@),
        Expr::Generator { elt, generators } => expr_vars(*elt) + comprehensions_vars(generators@),
        Expr::DictComp { key, value, generators } => expr_vars(*key) + expr_vars(*value)
            + comprehensions_vars(generators@),
        Expr::FString(values) => exprs_vars(values@),
        _ => Set::empty(),
    }
}

pub open spec fn exprs_vars(es: Seq<Expr>) -> Set<Seq<char>>
    decreases es,
{
    if es.len() == 0 {
        Set::empty()
    } else {
        exprs_vars(es.drop_last()) + expr_vars(es.last())
    }
}

pub open spec fn keywords_vars(ks: Seq<Keyword>) -> Set<Seq<char>>
    decreases ks,
{
    if ks.len() == 0 {
        Set::empty()
    } else {
        keywords_vars(ks.drop_last()) + expr_vars(ks.last().value)
    }
}

pub open spec fn dict_item_vars(item: DictItem) -> Set<Seq<char>>
    decreases item,
{
    match item.key {
        Some(k) => expr_vars(k) + expr_vars(item.value),
        None => expr_vars(item.value),
    }
}

pub open spec fn dict_vars(items: Seq<DictItem>) -> Set<Seq<char>>
    decreases items,
{
    if items.len() == 0 {
        Set::empty()
    } else {
        dict_vars(items.drop_last()) + dict_item_vars(items.last())
    }
}

pub open spec fn comprehensions_vars(gs: Seq<Comprehension>) -> Set<Seq<char>>
    decreases gs,
{
    if gs.len() == 0 {
        Set::empty()
    } else {
        comprehensions_vars(gs.drop_last()) + expr_vars(gs.last().iter) + exprs_vars(
            gs.last().ifs@,
        )
    }
}

// ---------------------------------------------------------------------------
// Specification: side effects of an expression, assignment targets
// ---------------------------------------------------------------------------

/// Evaluating the expression may have side effects: anything but literals,
/// names, and displays and operators over such.
pub open spec fn expr_side_effects(e: Expr) -> bool
    decreases e,
{
    match e {
        Expr::NumberLiteral(_) | Expr::StringLiteral(_) | Expr::BytesLiteral
        | Expr::BooleanLiteral(_) | Expr::NoneLiteral | Expr::EllipsisLiteral
        | Expr::Name { .. } => false,
        Expr::List(elts) => exprs_side_effects(elts@),
        Expr::Tuple(elts) => exprs_side_effects(elts@),
        Expr::SetDisplay(elts) => exprs_side_effects(elts@),
        Expr::Dict(items) => dict_side_effects(items@),
        Expr::BinOp { left, right, .. } => expr_side_effects(*left) || expr_side_effects(*right),
        Expr::UnaryOp(operand) => expr_side_effects(*operand),
        _ => true,
    }
}

pub open spec fn exprs_side_effects(es: Seq<Expr>) -> bool
    decreases es,
{
    if es.len() == 0 {
        false
    } else {
        exprs_side_effects(es.drop_last()) || expr_side_effects(es.last())
    }
}

pub open spec fn dict_item_side_effects(item: DictItem) -> bool
    decreases item,
{
    match item.key {
        Some(k) => expr_side_effects(k) || expr_side_effects(item.value),
        None => expr_side_effects(item.value),
    }
}

pub open spec fn dict_side_effects(items: Seq<DictItem>) -> bool
    decreases items,
{
    if items.len() == 0 {
        false
    } else {
        dict_side_effects(items.drop_last()) || dict_item_side_effects(items.last())
    }
}

/// The names bound by an assignment target made of names, tuples and lists,
/// in the order a last-in-first-out walk meets them; `None` if the target holds
/// anything else.
pub open spec fn target_names(e: Expr) -> Option<Seq<Seq<char>>>
    decreases e,
{
    match e {
        Expr::Name { id, .. } => Some(seq![id@]),
        Expr::Tuple(elts) => targets_names(elts@),
        Expr::List(elts) => targets_names(elts@),
        _ => None,
    }
}

pub open spec fn targets_names(es: Seq<Expr>) -> Option<Seq<Seq<char>>>
    decreases es,
{
    if es.len() == 0 {
        Some(Seq::empty())
    } else {
        match (targets_names(es.drop_first()), target_names(es.first())) {
            (Some(a), Some(b)) => Some(a + b),
            _ => None,
        }
    }
}

/// The names an assignment target binds, if it binds any and only plain names.
pub open spec fn assignment_targets(e: Expr) -> Option<Seq<Seq<char>>> {
    match target_names(e) {
        Some(names) => if names.len() == 0 {
            None
        } else {
            Some(names)
        },
        None => None,
    }
}

/// The names of `assignment_targets`, as a set (empty when there are none).
pub open spec fn target_set(e: Expr) -> Set<Seq<char>> {
    match assignment_targets(e) {
        Some(names) => names.to_set(),
        None => Set::empty(),
    }
}

/// Module names whose import is done for its side effects.
pub open spec fn is_side_effect_module(name: Seq<char>) -> bool {
    ||| has_prefix(name, "logging.config"@)
    ||| has_prefix(name, "warnings.filterwarnings"@)
    ||| has_prefix(name, "multiprocessing.set_start_method"@)
    ||| has_prefix(name, "matplotlib.use"@)
    ||| has_prefix(name, "django.setup"@)
    ||| has_prefix(name, "pytest_django.plugin"@)
}

// ---------------------------------------------------------------------------
// Specification: names read and written inside a function body
// ---------------------------------------------------------------------------

/// The names bound by each of `targets`, in order.
pub open spec fn targets_set(ts: Seq<Expr>) -> Set<Seq<char>>
    decreases ts.len(),
{
    if ts.len() == 0 {
        Set::empty()
    } else {
        targets_set(ts.drop_last()) + target_set(ts.last())
    }
}

pub open spec fn opt_expr_vars(e: Option<Expr>) -> Set<Seq<char>> {
    match e {
        Some(x) => expr_vars(x),
        None => Set::empty(),
    }
}

pub open spec fn with_items_vars(items: Seq<WithItem>) -> Set<Seq<char>>
    decreases items.len(),
{
    if items.len() == 0 {
        Set::empty()
    } else {
        with_items_vars(items.drop_last()) + expr_vars(items.last().context_expr)
    }
}

/// The names read by a statement of a function body, looking into nested
/// `if`, `for`, `while` and `with` blocks.
pub open spec fn stmt_reads(s: Stmt) -> Set<Seq<char>>
    decreases s,
{
    match s {
        Stmt::Expr(e) => expr_vars(e),
        Stmt::Assign { value, .. } => expr_vars(value),
        Stmt::Return(v) => opt_expr_vars(v),
        Stmt::If { test, body, elif_else_clauses } => expr_vars(test) + body_reads(body@)
            + clauses_reads(elif_else_clauses@),
        Stmt::For { iter, body, orelse, .. } => expr_vars(iter) + body_reads(body@) + body_reads(
            orelse@,
        ),
        Stmt::While { test, body, orelse } => expr_vars(test) + body_reads(body@) + body_reads(
            orelse@,
        ),
        Stmt::With { items, body } => with_items_vars(items@) + body_reads(body@),
        _ => Set::empty(),
    }
}

pub open spec fn body_reads(b: Seq<Stmt>) -> Set<Seq<char>>
    decreases b,
{
    if b.len() == 0 {
        Set::empty()
    } else {
        body_reads(b.drop_last()) + stmt_reads(b.last())
    }
}

pub open spec fn clauses_reads(cs: Seq<ElifElseClause>) -> Set<Seq<char>>
    decreases cs,
{
    if cs.len() == 0 {
        Set::empty()
    } else {
        clauses_reads(cs.drop_last()) + opt_expr_vars(cs.last().test) + body_reads(
            cs.last().body@,
        )
    }
}

/// The names assigned by a statement of a function body, looking into nested
/// `if`, `for`, `while` and `with` blocks.
pub open spec fn stmt_writes(s: Stmt) -> Set<Seq<char>>
    decreases s,
{
    match s {
        Stmt::Assign { targets, .. } => targets_set(targets@),
        Stmt::If { body, elif_else_clauses, .. } => body_writes(body@) + clauses_writes(
            elif_else_clauses@,
        ),
        Stmt::For { target, body, orelse, .. } => target_set(target) + body_writes(body@)
            + body_writes(orelse@),
        Stmt::While { body, orelse, .. } => body_writes(body@) + body_writes(orelse@),
        Stmt::With { body, .. } => body_writes(body@),
        _ => Set::empty(),
    }
}

pub open spec fn body_writes(b: Seq<Stmt>) -> Set<Seq<char>>
    decreases b,
{
    if b.len() == 0 {
        Set::empty()
    } else {
        body_writes(b.drop_last()) + stmt_writes(b.last())
    }
}

pub open spec fn clauses_writes(cs: Seq<ElifElseClause>) -> Set<Seq<char>>
    decreases cs,
{
    if cs.len() == 0 {
        Set::empty()
    } else {
        clauses_writes(cs.drop_last()) + body_writes(cs.last().body@)
    }
}

// ---------------------------------------------------------------------------
// Specification: the items a statement adds to the graph
// ---------------------------------------------------------------------------

/// An item of the given kind with no names.
pub open spec fn bare_item(t: ItemTypeView, side_effects: bool) -> ItemView {
    ItemView {
        item_type: t,
        var_decls: Set::empty(),
        read_vars: Set::empty(),
        eventual_read_vars: Set::empty(),
        write_vars: Set::empty(),
        eventual_write_vars: Set::empty(),
        has_side_effects: side_effects,
        imported_names: Set::empty(),
        reexported_names: Set::empty(),
    }
}

/// The item of one alias of `import a.b as c`.
pub open spec fn import_alias_item(a: Alias) -> ItemView {
    let module = a.name@;
    let local = alias_local_name(a);
    let imported = if a.asname is Some {
        set![local]
    } else if module.contains('.') {
        set![module]
    } else {
        set![local]
    };
    let decls = if a.asname is Some {
        set![local]
    } else if module.contains('.') {
        set![module, root_name(module)]
    } else {
        set![local]
    };
    ItemView {
        var_decls: decls,
        imported_names: imported,
        ..bare_item(
            ItemTypeView::Import { module, alias: opt_view(a.asname) },
            is_side_effect_module(module),
        )
    }
}

/// A run of `level` dots.
pub open spec fn dots(level: u32) -> Seq<char> {
    Seq::new(level as nat, |i: int| '.')
}

pub open spec fn opt_name(m: Option<String>) -> Seq<char> {
    match m {
        Some(s) => s@,
        None => Seq::empty(),
    }
}

/// The module a `from` import names, relative ones prefixed by their dots.
pub open spec fn effective_module(module: Option<String>, level: u32) -> Seq<char> {
    if level > 0 {
        dots(level) + opt_name(module)
    } else {
        opt_name(module)
    }
}

pub open spec fn is_star_import(names: Seq<Alias>) -> bool {
    names.len() == 1 && names[0].name@ == "*"@
}

pub open spec fn alias_pairs(names: Seq<Alias>) -> Seq<(Seq<char>, Option<Seq<char>>)> {
    names.map_values(|a: Alias| (a.name@, opt_view(a.asname)))
}

pub open spec fn alias_locals(names: Seq<Alias>) -> Set<Seq<char>> {
    names.map_values(|a: Alias| alias_local_name(a)).to_set()
}

/// Names re-exported by the `from m import X as X` idiom.
pub open spec fn explicit_reexports(names: Seq<Alias>) -> Set<Seq<char>> {
    Set::new(
        |x: Seq<char>|
            exists|i: int|
                0 <= i < names.len() && names[i].asname is Some && names[i].asname->0@
                    == names[i].name@ && x == names[i].name@,
    )
}

/// The item of `from module import names`.
pub open spec fn from_import_item(module: Option<String>, names: Seq<Alias>, level: u32) -> ItemView {
    let eff = effective_module(module, level);
    let star = is_star_import(names);
    let imported = if star {
        set!["*"@]
    } else {
        alias_locals(names)
    };
    ItemView {
        var_decls: imported,
        imported_names: imported,
        reexported_names: if star {
            Set::empty()
        } else {
            explicit_reexports(names)
        },
        ..bare_item(
            ItemTypeView::FromImport {
                module: eff,
                names: if star {
                    Seq::empty()
                } else {
                    alias_pairs(names)
                },
                level,
                is_star: star,
            },
            star || is_side_effect_module(eff),
        )
    }
}

pub open spec fn params_seq_vars(ps: Seq<Parameter>) -> Set<Seq<char>>
    decreases ps.len(),
{
    if ps.len() == 0 {
        Set::empty()
    } else {
        params_seq_vars(ps.drop_last()) + opt_expr_vars(ps.last().annotation)
    }
}

pub open spec fn opt_param_vars(p: Option<Parameter>) -> Set<Seq<char>> {
    match p {
        Some(q) => opt_expr_vars(q.annotation),
        None => Set::empty(),
    }
}

/// The names the annotations of a parameter list read.
pub open spec fn parameters_vars(p: Parameters) -> Set<Seq<char>> {
    params_seq_vars(p.posonlyargs@) + params_seq_vars(p.args@) + params_seq_vars(p.kwonlyargs@)
        + opt_param_vars(p.vararg) + opt_param_vars(p.kwarg)
}

/// The names bound by each target of an assignment, in target order.
pub open spec fn assign_target_seq(ts: Seq<Expr>) -> Seq<Seq<char>>
    decreases ts.len(),
{
    if ts.len() == 0 {
        Seq::empty()
    } else {
        assign_target_seq(ts.drop_last()) + match assignment_targets(ts.last()) {
            Some(n) => n,
            None => Seq::empty(),
        }
    }
}

/// The values of the string literals among `es`.
pub open spec fn string_literal_values(es: Seq<Expr>) -> Set<Seq<char>> {
    Set::new(
        |x: Seq<char>|
            exists|i: int| 0 <= i < es.len() && (#[trigger] es[i] matches Expr::StringLiteral(v) && v@ == x),
    )
}

/// The names an `__all__ = [...]` assignment lists.
pub open spec fn all_list_names(targets: Seq<Seq<char>>, value: Expr) -> Set<Seq<char>> {
    if targets.contains("__all__"@) {
        match value {
            Expr::List(elts) => string_literal_values(elts@),
            _ => Set::empty(),
        }
    } else {
        Set::empty()
    }
}

/// `s` without repetitions, first occurrences kept.
pub open spec fn dedup(s: Seq<Seq<char>>) -> Seq<Seq<char>>
    decreases s.len(),
{
    if s.len() == 0 {
        s
    } else {
        let d = dedup(s.drop_last());
        if d.contains(s.last()) {
            d
        } else {
            d.push(s.last())
        }
    }
}

/// The items a statement adds to the graph, nested blocks included.
pub open spec fn stmt_items(s: Stmt) -> Seq<ItemView>
    decreases s,
{
    match s {
        Stmt::Import(names) => names@.map_values(|a: Alias| import_alias_item(a)),
        Stmt::ImportFrom { module, names, level } => if opt_name(module) == "__future__"@ {
            Seq::empty()
        } else {
            seq![from_import_item(module, names@, level)]
        },
        Stmt::FunctionDef { name, decorators, parameters, return_type, body } => seq![
            ItemView {
                var_decls: set![name@],
                read_vars: exprs_vars(decorators@) + parameters_vars(parameters) + opt_expr_vars(
                    return_type,
                ),
                eventual_read_vars: body_reads(body@),
                eventual_write_vars: body_writes(body@),
                ..bare_item(ItemTypeView::FunctionDef { name: name@ }, false)
            },
        ] + body_items(body@),
        Stmt::ClassDef { name, decorators, bases, body, .. } => seq![
            ItemView {
                var_decls: set![name@],
                read_vars: exprs_vars(decorators@) + exprs_vars(bases@),
                ..bare_item(ItemTypeView::ClassDef { name: name@ }, false)
            },
        ] + body_items(body@),
        Stmt::Assign { targets, value } => {
            let names = assign_target_seq(targets@);
            let reexported = all_list_names(names, value);
            seq![
                ItemView {
                    var_decls: names.to_set(),
                    read_vars: expr_vars(value),
                    eventual_read_vars: reexported,
                    reexported_names: reexported,
                    ..bare_item(
                        ItemTypeView::Assignment { targets: names },
                        expr_side_effects(value),
                    )
                },
            ]
        },
        Stmt::AnnAssign { target, annotation, value } => {
            let names = match assignment_targets(target) {
                Some(n) => n,
                None => Seq::empty(),
            };
            seq![
                ItemView {
                    var_decls: names.to_set(),
                    read_vars: expr_vars(annotation) + opt_expr_vars(value),
                    ..bare_item(
                        ItemTypeView::Assignment { targets: dedup(names) },
                        match value {
                            Some(v) => expr_side_effects(v),
                            None => false,
                        },
                    )
                },
            ]
        },
        Stmt::Expr(e) => seq![
            ItemView { read_vars: expr_vars(e), ..bare_item(ItemTypeView::Expression, true) },
        ],
        Stmt::If { test, body, elif_else_clauses } => seq![
            ItemView {
                read_vars: expr_vars(test),
                ..bare_item(ItemTypeView::If { condition: Seq::empty() }, true)
            },
        ] + body_items(body@) + clauses_items(elif_else_clauses@),
        Stmt::For { target, iter, body, orelse } => seq![
            ItemView {
                read_vars: expr_vars(iter),
                write_vars: target_set(target),
                ..bare_item(ItemTypeView::Other, true)
            },
        ] + body_items(body@) + body_items(orelse@),
        Stmt::While { test, body, orelse } => seq![
            ItemView { read_vars: expr_vars(test), ..bare_item(ItemTypeView::Other, true) },
        ] + body_items(body@) + body_items(orelse@),
        Stmt::With { items, body } => seq![
            ItemView { read_vars: with_items_vars(items@), ..bare_item(ItemTypeView::Other, true) },
        ] + body_items(body@),
        Stmt::Try { body, handlers, orelse, finalbody } => seq![
            bare_item(ItemTypeView::Try, true),
        ] + body_items(body@) + handlers_items(handlers@) + body_items(orelse@) + body_items(
            finalbody@,
        ),
        _ => Seq::empty(),
    }
}

pub open spec fn body_items(b: Seq<Stmt>) -> Seq<ItemView>
    decreases b,
{
    if b.len() == 0 {
        Seq::empty()
    } else {
        body_items(b.drop_last()) + stmt_items(b.last())
    }
}

pub open spec fn clauses_items(cs: Seq<ElifElseClause>) -> Seq<ItemView>
    decreases cs,
{
    if cs.len() == 0 {
        Seq::empty()
    } else {
        clauses_items(cs.drop_last()) + body_items(cs.last().body@)
    }
}

pub open spec fn handler_items(h: ExceptHandler) -> Seq<ItemView>
    decreases h,
{
    match h.type_ {
        Some(t) => seq![
            ItemView { read_vars: expr_vars(t), ..bare_item(ItemTypeView::Other, false) },
        ] + body_items(h.body@),
        None => body_items(h.body@),
    }
}

pub open spec fn handlers_items(hs: Seq<ExceptHandler>) -> Seq<ItemView>
    decreases hs,
{
    if hs.len() == 0 {
        Seq::empty()
    } else {
        handlers_items(hs.drop_last()) + handler_items(hs.last())
    }
}

proof fn lemma_exprs_side_effects_prefix(es: Seq<Expr>, k: int)
    requires
        0 < k <= es.len(),
        expr_side_effects(es[k - 1]),
    ensures
        exprs_side_effects(es),
    decreases es.len(),
{
    if k < es.len() {
        lemma_exprs_side_effects_prefix(es.drop_last(), k);
    }
}

proof fn lemma_dict_side_effects_prefix(items: Seq<DictItem>, k: int)
    requires
        0 < k <= items.len(),
        dict_item_side_effects(items[k - 1]),
    ensures
        dict_side_effects(items),
    decreases items.len(),
{
    if k < items.len() {
        lemma_dict_side_effects_prefix(items.drop_last(), k);
    }
}

proof fn lemma_targets_names_suffix(es: Seq<Expr>, k: int)
    requires
        0 <= k < es.len(),
        target_names(es[k]) is None,
    ensures
        targets_names(es) is None,
    decreases k,
{
    if k > 0 {
        lemma_targets_names_suffix(es.drop_first(), k - 1);
    }
}

proof fn lemma_alias_sets_step(names: Seq<Alias>, i: int)
    requires
        0 <= i < names.len(),
    ensures
        alias_locals(names.subrange(0, i + 1)) == alias_locals(names.subrange(0, i)).insert(
            alias_local_name(names[i]),
        ),
        explicit_reexports(names.subrange(0, i + 1)) == if names[i].asname is Some
            && names[i].asname->0@ == names[i].name@ {
            explicit_reexports(names.subrange(0, i)).insert(names[i].name@)
        } else {
            explicit_reexports(names.subrange(0, i))
        },
{
    let a = names.subrange(0, i);
    let b = names.subrange(0, i + 1);
    assert(b.map_values(|x: Alias| alias_local_name(x)) =~= a.map_values(
        |x: Alias| alias_local_name(x),
    ).push(alias_local_name(names[i])));
    assert(alias_locals(b) =~= alias_locals(a).insert(alias_local_name(names[i]))) by {
        let sa = a.map_values(|x: Alias| alias_local_name(x));
        let sb = b.map_values(|x: Alias| alias_local_name(x));
        assert forall|x: Seq<char>| #[trigger] sb.to_set().contains(x) implies sa.to_set().insert(
            alias_local_name(names[i]),
        ).contains(x) by {
            let k = choose|k: int| 0 <= k < sb.len() && sb[k] == x;
            if k < i {
                assert(sa[k] == x);
            }
        }
        assert forall|x: Seq<char>| #[trigger] sa.to_set().insert(
            alias_local_name(names[i]),
        ).contains(x) implies sb.to_set().contains(x) by {
            if x == alias_local_name(names[i]) {
                assert(sb[i] == x);
            } else {
                let k = choose|k: int| 0 <= k < sa.len() && sa[k] == x;
                assert(sb[k] == x);
            }
        }
    }
    if names[i].asname is Some && names[i].asname->0@ == names[i].name@ {
        assert(explicit_reexports(b) =~= explicit_reexports(a).insert(names[i].name@)) by {
            assert forall|x: Seq<char>| #[trigger] explicit_reexports(b).contains(x) implies
                explicit_reexports(a).insert(names[i].name@).contains(x) by {
                let k = choose|k: int|
                    0 <= k < b.len() && b[k].asname is Some && b[k].asname->0@ == b[k].name@ && x
                        == b[k].name@;
                if k < i {
                    assert(a[k] == b[k]);
                }
            }
            assert forall|x: Seq<char>| #[trigger] explicit_reexports(a).insert(
                names[i].name@,
            ).contains(x) implies explicit_reexports(b).contains(x) by {
                if x == names[i].name@ {
                    assert(b[i] == names[i]);
                } else {
                    let k = choose|k: int|
                        0 <= k < a.len() && a[k].asname is Some && a[k].asname->0@ == a[k].name@
                            && x == a[k].name@;
                    assert(b[k] == a[k]);
                }
            }
        }
    } else {
        assert(explicit_reexports(b) =~= explicit_reexports(a)) by {
            assert forall|x: Seq<char>| #[trigger] explicit_reexports(b).contains(x) implies
                explicit_reexports(a).contains(x) by {
                let k = choose|k: int|
                    0 <= k < b.len() && b[k].asname is Some && b[k].asname->0@ == b[k].name@ && x
                        == b[k].name@;
                assert(k != i);
                assert(a[k] == b[k]);
            }
            assert forall|x: Seq<char>| #[trigger] explicit_reexports(a).contains(x) implies
                explicit_reexports(b).contains(x) by {
                let k = choose|k: int|
                    0 <= k < a.len() && a[k].asname is Some && a[k].asname->0@ == a[k].name@ && x
                        == a[k].name@;
                assert(b[k] == a[k]);
            }
        }
    }
}

/// A run of `level` dots.
pub(crate) fn make_dots(level: u32) -> (r: String)
    ensures
        r@ == dots(level),
{
    let mut r = String::new();
    let mut j: u32 = 0;
    while j < level
        invariant
            j <= level,
            r@ == Seq::new(j as nat, |i: int| '.'),
        decreases level - j,
    {
        let dot = ".";
        proof {
            reveal_strlit(".");
        }
        r.append(dot);
        proof {
            assert(r@ =~= Seq::new((j + 1) as nat, |i: int| '.'));
        }
        j += 1;
    }
    proof {
        assert(r@ =~= dots(level));
    }
    r
}

fn copy_opt_string(o: &Option<String>) -> (r: Option<String>)
    ensures
        opt_view(r) == opt_view(*o),
{
    match o {
        Some(s) => Some(s.clone()),
        None => None,
    }
}

proof fn lemma_to_set_concat(a: Seq<Seq<char>>, b: Seq<Seq<char>>)
    ensures
        (a + b).to_set() == a.to_set() + b.to_set(),
{
    assert forall|x: Seq<char>| #[trigger] (a + b).to_set().contains(x) implies (a.to_set()
        + b.to_set()).contains(x) by {
        let k = choose|k: int| 0 <= k < (a + b).len() && (a + b)[k] == x;
        if k < a.len() {
            assert(a[k] == x);
        } else {
            assert(b[k - a.len()] == x);
        }
    }
    assert forall|x: Seq<char>| #[trigger] (a.to_set() + b.to_set()).contains(x) implies (a
        + b).to_set().contains(x) by {
        if a.to_set().contains(x) {
            let k = choose|k: int| 0 <= k < a.len() && a[k] == x;
            assert((a + b)[k] == x);
        } else {
            let k = choose|k: int| 0 <= k < b.len() && b[k] == x;
            assert((a + b)[k + a.len()] == x);
        }
    }
    assert((a + b).to_set() =~= a.to_set() + b.to_set());
}

proof fn lemma_string_literal_values_step(es: Seq<Expr>, k: int)
    requires
        0 <= k < es.len(),
    ensures
        string_literal_values(es.subrange(0, k + 1)) == match es[k] {
            Expr::StringLiteral(v) => string_literal_values(es.subrange(0, k)).insert(v@),
            _ => string_literal_values(es.subrange(0, k)),
        },
{
    let a = es.subrange(0, k);
    let b = es.subrange(0, k + 1);
    let r = match es[k] {
        Expr::StringLiteral(v) => string_literal_values(a).insert(v@),
        _ => string_literal_values(a),
    };
    assert forall|x: Seq<char>| #[trigger] string_literal_values(b).contains(x) implies r.contains(
        x,
    ) by {
        let i = choose|i: int| 0 <= i < b.len() && (#[trigger] b[i] matches Expr::StringLiteral(v) && v@ == x);
        if i < k {
            assert(a[i] == b[i]);
        }
    }
    assert forall|x: Seq<char>| #[trigger] r.contains(x) implies string_literal_values(b).contains(
        x,
    ) by {
        if string_literal_values(a).contains(x) {
            let i = choose|i: int| 0 <= i < a.len() && (#[trigger] a[i] matches Expr::StringLiteral(v) && v@ == x);
            assert(b[i] == a[i]);
        } else {
            assert(b[k] == es[k]);
        }
    }
    assert(string_literal_values(b) =~= r);
}

// ---------------------------------------------------------------------------
// The builder
// ---------------------------------------------------------------------------

#[derive(Debug, Clone, Copy, PartialEq, Eq)]
enum ScopeType {
    Module,
    Function,
    Class,
}

/// Builds a module's item graph from its syntax tree.
pub struct GraphBuilder {
    graph: ModuleDepGraph,
    current_scope: ScopeType,
}

impl GraphBuilder {
    /// The graph built so far.
    pub closed spec fn built(self) -> ModuleDepGraph {
        self.graph
    }

    /// A builder that adds items to `graph`.
    pub fn new(graph: ModuleDepGraph) -> (b: Self)
        ensures
            b.built() == graph,
    {
        GraphBuilder { graph, current_scope: ScopeType::Module }
    }

    /// The graph built so far.
    pub fn into_graph(self) -> (g: ModuleDepGraph)
        ensures
            g == self.built(),
    {
        self.graph
    }

    /// Builds the segments of a dotted name.
    fn build_dotted_name(&self, expr: &Expr, parts: &mut Vec<String>) -> (ok: bool)
        ensures
            ok == (dotted_parts(*expr) is Some),
            ok ==> views(final(parts)@) == views(old(parts)@) + dotted_parts(*expr)->0,
        decreases expr,
    {
        match expr {
            Expr::Name { id, .. } => {
                let ghost before = parts@;
                parts.push(id.clone());
                proof {
                    assert(views(parts@) =~= views(before) + seq![id@]);
                }
                true
            },
            Expr::Attribute { value, attr, .. } => {
                if self.build_dotted_name(value, parts) {
                    let ghost before = parts@;
                    parts.push(attr.clone());
                    proof {
                        assert(views(parts@) =~= views(before).push(attr@));
                        let p = dotted_parts(**value)->0;
                        assert(views(parts@) =~= views(old(parts)@) + p.push(attr@));
                    }
                    true
                } else {
                    false
                }
            },
            _ => false,
        }
    }

    /// The dotted name spelled by `value`, the object of an attribute access;
    /// e.g. for `xml.etree.ElementTree.__name__` it is `xml.etree.ElementTree`.
    fn extract_dotted_name(&self, value: &Expr) -> (r: Option<String>)
        ensures
            r matches Some(s) ==> dotted_name(*value) == Some(s@),
            r is None ==> dotted_name(*value) is None,
    {
        let mut parts: Vec<String> = Vec::new();
        if self.build_dotted_name(value, &mut parts) {
            proof {
                assert(views(Seq::<String>::empty()) =~= Seq::<Seq<char>>::empty());
                assert(Seq::<Seq<char>>::empty() + dotted_parts(*value)->0 =~= dotted_parts(
                    *value,
                )->0);
            }
            let dot = ".";
            proof {
                reveal_strlit(".");
                assert(dot@ =~= seq!['.']);
            }
            Some(join_strings(&parts, dot))
        } else {
            None
        }
    }

    /// Adds the names an attribute access on `value` reads beyond those of `value`.
    fn collect_attribute_extra_vars(&self, value: &Expr, vars: &mut Vec<String>)
        ensures
            name_set(final(vars)@) == name_set(old(vars)@) + attribute_extra_vars(*value),
            distinct_names(old(vars)@) ==> distinct_names(final(vars)@),
    {
        match self.extract_dotted_name(value) {
            Some(full) => {
                if contains_char(full.as_str(), '.') {
                    let parts = split_char(full.as_str(), '.');
                    proof {
                        lemma_split_nonempty(full@, '.');
                    }
                    let root = parts[0].clone();
                    insert_name(vars, full);
                    insert_name(vars, root);
                    proof {
                        assert(views(parts@)[0] == root@);
                        assert(name_set(vars@) =~= name_set(old(vars)@)
                            + attribute_extra_vars(*value));
                    }
                } else {
                    insert_name(vars, full);
                    proof {
                        assert(name_set(vars@) =~= name_set(old(vars)@)
                            + attribute_extra_vars(*value));
                    }
                }
            },
            None => {
                proof {
                    assert(name_set(vars@) =~= name_set(old(vars)@)
                        + attribute_extra_vars(*value));
                }
            },
        }
    }

    /// Adds the names `expr` reads to `vars`.
    #[verifier::rlimit(40)]
    fn collect_vars_in_expr(&self, expr: &Expr, vars: &mut Vec<String>)
        ensures
            name_set(final(vars)@) == name_set(old(vars)@) + expr_vars(*expr),
            distinct_names(old(vars)@) ==> distinct_names(final(vars)@),
        decreases expr,
    {
        let ghost v0 = name_set(vars@);
        match expr {
            Expr::Name { id, .. } => {
                insert_name(vars, id.clone());
            },
            Expr::Attribute { value, .. } => {
                self.collect_attribute_extra_vars(value, vars);
                match &**value {
                    Expr::Name { id, .. } => {
                        insert_name(vars, id.clone());
                        proof {
                            assert(expr_vars(**value) == set![id@]);
                        }
                    },
                    _ => {
                        self.collect_vars_in_expr(value, vars);
                    },
                }
                proof {
                    assert(name_set(vars@) =~= v0 + expr_vars(*expr));
                }
            },
            Expr::Call { func, args, keywords } => {
                self.collect_vars_in_expr(func, vars);
                self.collect_vars_in_exprs(args, vars);
                self.collect_vars_in_keywords(keywords, vars);
            },
            Expr::BinOp { left, right, .. } => {
                self.collect_vars_in_expr(left, vars);
                self.collect_vars_in_expr(right, vars);
            },
            Expr::UnaryOp(operand) => {
                self.collect_vars_in_expr(operand, vars);
            },
            Expr::List(elts) => {
                self.collect_vars_in_exprs(elts, vars);
            },
            Expr::Tuple(elts) => {
                self.collect_vars_in_exprs(elts, vars);
            },
            Expr::Dict(items) => {
                self.collect_vars_in_dict(items, vars);
            },
            Expr::SetDisplay(elts) => {
                self.collect_vars_in_exprs(elts, vars);
            },
            Expr::Subscript { value, slice } => {
                self.collect_vars_in_expr(value, vars);
                self.collect_vars_in_expr(slice, vars);
            },
            Expr::Compare { left, comparators, .. } => {
                self.collect_vars_in_expr(left, vars);
                self.collect_vars_in_exprs(comparators, vars);
            },
            Expr::BoolOp(values) => {
                self.collect_vars_in_exprs(values, vars);
            },
            Expr::IfExp { test, body, orelse } => {
                self.collect_vars_in_expr(test, vars);
                self.collect_vars_in_expr(body, vars);
                self.collect_vars_in_expr(orelse, vars);
            },
            Expr::ListComp { elt, generators } => {
                self.collect_vars_in_expr(elt, vars);
                self.collect_vars_in_comprehensions(generators, vars);
            },
            Expr::SetComp { elt, generators } => {
                self.collect_vars_in_expr(elt, vars);
                self.collect_vars_in_comprehensions(generators, vars);
            },
            Expr::Generator { elt, generators } => {
                self.collect_vars_in_expr(elt, vars);
                self.collect_vars_in_comprehensions(generators, vars);
            },
            Expr::DictComp { key, value, generators } => {
                self.collect_vars_in_expr(key, vars);
                self.collect_vars_in_expr(value, vars);
                self.collect_vars_in_comprehensions(generators, vars);
            },
            Expr::FString(values) => {
                self.collect_vars_in_exprs(values, vars);
            },
            _ => {},
        }
        proof {
            assert(name_set(vars@) =~= v0 + expr_vars(*expr));
        }
    }

    /// Adds the names each of `exprs` reads to `vars`.
    #[verifier::loop_isolation(false)]
    fn collect_vars_in_exprs(&self, exprs: &Vec<Expr>, vars: &mut Vec<String>)
        ensures
            name_set(final(vars)@) == name_set(old(vars)@) + exprs_vars(exprs@),
            distinct_names(old(vars)@) ==> distinct_names(final(vars)@),
        decreases exprs,
    {
        let mut i: usize = 0;
        while i < exprs.len()
            invariant
                i <= exprs.len(),
                name_set(vars@) == name_set(old(vars)@) + exprs_vars(exprs@.subrange(0, i as int)),
                distinct_names(old(vars)@) ==> distinct_names(vars@),
            decreases exprs.len() - i,
        {
            proof {
                assert(decreases_to!(exprs => exprs@));
                assert(decreases_to!(exprs@ => exprs@[i as int]));
                assert(exprs@.subrange(0, i + 1).drop_last() =~= exprs@.subrange(0, i as int));
            }
            self.collect_vars_in_expr(&exprs[i], vars);
            proof {
                assert(name_set(vars@) =~= name_set(old(vars)@) + exprs_vars(
                    exprs@.subrange(0, i + 1),
                ));
            }
            i += 1;
        }
        proof {
            assert(exprs@.subrange(0, exprs@.len() as int) =~= exprs@);
        }
    }

    /// Adds the names the values of keyword arguments read to `vars`.
    #[verifier::loop_isolation(false)]
    fn collect_vars_in_keywords(&self, keywords: &Vec<Keyword>, vars: &mut Vec<String>)
        ensures
            name_set(final(vars)@) == name_set(old(vars)@) + keywords_vars(keywords@),
            distinct_names(old(vars)@) ==> distinct_names(final(vars)@),
        decreases keywords,
    {
        let mut i: usize = 0;
        while i < keywords.len()
            invariant
                i <= keywords.len(),
                name_set(vars@) == name_set(old(vars)@) + keywords_vars(
                    keywords@.subrange(0, i as int),
                ),
                distinct_names(old(vars)@) ==> distinct_names(vars@),
            decreases keywords.len() - i,
        {
            proof {
                assert(decreases_to!(keywords => keywords@));
                assert(decreases_to!(keywords@ => keywords@[i as int]));
                assert(decreases_to!(keywords@[i as int] => keywords@[i as int].value));
                assert(keywords@.subrange(0, i + 1).drop_last() =~= keywords@.subrange(
                    0,
                    i as int,
                ));
            }
            self.collect_vars_in_expr(&keywords[i].value, vars);
            proof {
                assert(name_set(vars@) =~= name_set(old(vars)@) + keywords_vars(
                    keywords@.subrange(0, i + 1),
                ));
            }
            i += 1;
        }
        proof {
            assert(keywords@.subrange(0, keywords@.len() as int) =~= keywords@);
        }
    }

    /// Adds the names the keys and values of a dict display read to `vars`.
    #[verifier::loop_isolation(false)]
    fn collect_vars_in_dict(&self, items: &Vec<DictItem>, vars: &mut Vec<String>)
        ensures
            name_set(final(vars)@) == name_set(old(vars)@) + dict_vars(items@),
            distinct_names(old(vars)@) ==> distinct_names(final(vars)@),
        decreases items,
    {
        let mut i: usize = 0;
        while i < items.len()
            invariant
                i <= items.len(),
                name_set(vars@) == name_set(old(vars)@) + dict_vars(items@.subrange(0, i as int)),
                distinct_names(old(vars)@) ==> distinct_names(vars@),
            decreases items.len() - i,
        {
            proof {
                assert(decreases_to!(items => items@));
                assert(decreases_to!(items@ => items@[i as int]));
                assert(decreases_to!(items@[i as int] => items@[i as int].value));
                assert(items@.subrange(0, i + 1).drop_last() =~= items@.subrange(0, i as int));
            }
            let ghost before = name_set(vars@);
            match &items[i].key {
                Some(k) => {
                    proof {
                        assert(decreases_to!(items@[i as int] => items@[i as int].key));
                    }
                    self.collect_vars_in_expr(k, vars);
                },
                None => {},
            }
            self.collect_vars_in_expr(&items[i].value, vars);
            proof {
                assert(name_set(vars@) =~= before + dict_item_vars(items@[i as int]));
                assert(name_set(vars@) =~= name_set(old(vars)@) + dict_vars(
                    items@.subrange(0, i + 1),
                ));
            }
            i += 1;
        }
        proof {
            assert(items@.subrange(0, items@.len() as int) =~= items@);
        }
    }

    /// Adds the names the iterables and conditions of comprehension clauses read to `vars`.
    #[verifier::loop_isolation(false)]
    fn collect_vars_in_comprehensions(&self, gens: &Vec<Comprehension>, vars: &mut Vec<String>)
        ensures
            name_set(final(vars)@) == name_set(old(vars)@) + comprehensions_vars(gens@),
            distinct_names(old(vars)@) ==> distinct_names(final(vars)@),
        decreases gens,
    {
        let mut i: usize = 0;
        while i < gens.len()
            invariant
                i <= gens.len(),
                name_set(vars@) == name_set(old(vars)@) + comprehensions_vars(
                    gens@.subrange(0, i as int),
                ),
                distinct_names(old(vars)@) ==> distinct_names(vars@),
            decreases gens.len() - i,
        {
            proof {
                assert(decreases_to!(gens => gens@));
                assert(decreases_to!(gens@ => gens@[i as int]));
                assert(decreases_to!(gens@[i as int] => gens@[i as int].iter));
                assert(decreases_to!(gens@[i as int] => gens@[i as int].ifs));
                assert(gens@.subrange(0, i + 1).drop_last() =~= gens@.subrange(0, i as int));
            }
            self.collect_vars_in_expr(&gens[i].iter, vars);
            self.collect_vars_in_exprs(&gens[i].ifs, vars);
            proof {
                assert(name_set(vars@) =~= name_set(old(vars)@) + comprehensions_vars(
                    gens@.subrange(0, i + 1),
                ));
            }
            i += 1;
        }
        proof {
            assert(gens@.subrange(0, gens@.len() as int) =~= gens@);
        }
    }
    /// The module name starts with one of the patterns of imports done for their side effects.
    fn is_side_effect_import(&self, module_name: &str) -> (r: bool)
        ensures
            r == is_side_effect_module(module_name@),
    {
        starts_with(module_name, "logging.config") || starts_with(
            module_name,
            "warnings.filterwarnings",
        ) || starts_with(module_name, "multiprocessing.set_start_method") || starts_with(
            module_name,
            "matplotlib.use",
        ) || starts_with(module_name, "django.setup") || starts_with(
            module_name,
            "pytest_django.plugin",
        )
    }

    /// Evaluating the expression may have side effects.
    fn expression_has_side_effects(&self, expr: &Expr) -> (r: bool)
        ensures
            r == expr_side_effects(*expr),
        decreases expr,
    {
        match expr {
            Expr::NumberLiteral(_) | Expr::StringLiteral(_) | Expr::BytesLiteral
            | Expr::BooleanLiteral(_) | Expr::NoneLiteral | Expr::EllipsisLiteral
            | Expr::Name { .. } => false,
            Expr::List(elts) => self.exprs_have_side_effects(elts),
            Expr::Tuple(elts) => self.exprs_have_side_effects(elts),
            Expr::SetDisplay(elts) => self.exprs_have_side_effects(elts),
            Expr::Dict(items) => self.handle_dict_expr(items),
            Expr::BinOp { left, right, .. } => self.expression_has_side_effects(left)
                || self.expression_has_side_effects(right),
            Expr::UnaryOp(operand) => self.expression_has_side_effects(operand),
            _ => true,
        }
    }

    #[verifier::loop_isolation(false)]
    fn exprs_have_side_effects(&self, exprs: &Vec<Expr>) -> (r: bool)
        ensures
            r == exprs_side_effects(exprs@),
        decreases exprs,
    {
        let mut i: usize = 0;
        while i < exprs.len()
            invariant
                i <= exprs.len(),
                !exprs_side_effects(exprs@.subrange(0, i as int)),
            decreases exprs.len() - i,
        {
            proof {
                assert(decreases_to!(exprs => exprs@));
                assert(decreases_to!(exprs@ => exprs@[i as int]));
                assert(exprs@.subrange(0, i + 1).drop_last() =~= exprs@.subrange(0, i as int));
            }
            if self.expression_has_side_effects(&exprs[i]) {
                proof {
                    lemma_exprs_side_effects_prefix(exprs@, i + 1);
                }
                return true;
            }
            i += 1;
        }
        proof {
            assert(exprs@.subrange(0, exprs@.len() as int) =~= exprs@);
        }
        false
    }

    /// Some key or value of a dict display may have side effects.
    #[verifier::loop_isolation(false)]
    fn handle_dict_expr(&self, items: &Vec<DictItem>) -> (r: bool)
        ensures
            r == dict_side_effects(items@),
        decreases items,
    {
        let mut i: usize = 0;
        while i < items.len()
            invariant
                i <= items.len(),
                !dict_side_effects(items@.subrange(0, i as int)),
            decreases items.len() - i,
        {
            proof {
                assert(decreases_to!(items => items@));
                assert(decreases_to!(items@ => items@[i as int]));
                assert(decreases_to!(items@[i as int] => items@[i as int].value));
                assert(decreases_to!(items@[i as int] => items@[i as int].key));
                assert(items@.subrange(0, i + 1).drop_last() =~= items@.subrange(0, i as int));
            }
            let key_effects = match &items[i].key {
                Some(k) => self.expression_has_side_effects(k),
                None => false,
            };
            if key_effects || self.expression_has_side_effects(&items[i].value) {
                proof {
                    lemma_dict_side_effects_prefix(items@, i + 1);
                }
                return true;
            }
            proof {
                assert(!dict_item_side_effects(items@[i as int]));
            }
            i += 1;
        }
        proof {
            assert(items@.subrange(0, items@.len() as int) =~= items@);
        }
        false
    }

    /// Appends the names bound by an assignment target, as `target_names` orders them.
    fn collect_target_names(&self, expr: &Expr, out: &mut Vec<String>) -> (ok: bool)
        ensures
            ok == (target_names(*expr) is Some),
            ok ==> views(final(out)@) == views(old(out)@) + target_names(*expr)->0,
        decreases expr,
    {
        match expr {
            Expr::Name { id, .. } => {
                let ghost before = out@;
                out.push(id.clone());
                proof {
                    assert(views(out@) =~= views(before) + seq![id@]);
                }
                true
            },
            Expr::Tuple(elts) => self.collect_targets_names(elts, out),
            Expr::List(elts) => self.collect_targets_names(elts, out),
            _ => false,
        }
    }

    #[verifier::loop_isolation(false)]
    fn collect_targets_names(&self, elts: &Vec<Expr>, out: &mut Vec<String>) -> (ok: bool)
        ensures
            ok == (targets_names(elts@) is Some),
            ok ==> views(final(out)@) == views(old(out)@) + targets_names(elts@)->0,
        decreases elts,
    {
        let n = elts.len();
        let mut k: usize = n;
        proof {
            assert(elts@.subrange(n as int, n as int) =~= Seq::<Expr>::empty());
            assert(views(out@) =~= views(old(out)@) + Seq::<Seq<char>>::empty());
        }
        while k > 0
            invariant
                k <= n,
                n == elts@.len(),
                targets_names(elts@.subrange(k as int, n as int)) is Some,
                views(out@) == views(old(out)@) + targets_names(
                    elts@.subrange(k as int, n as int),
                )->0,
            decreases k,
        {
            proof {
                assert(decreases_to!(elts => elts@));
                assert(decreases_to!(elts@ => elts@[k - 1]));
                let s = elts@.subrange(k - 1, n as int);
                assert(s.drop_first() =~= elts@.subrange(k as int, n as int));
                assert(s.first() == elts@[k - 1]);
            }
            let ghost before = out@;
            if !self.collect_target_names(&elts[k - 1], out) {
                proof {
                    lemma_targets_names_suffix(elts@, k - 1);
                }
                return false;
            }
            proof {
                let s = elts@.subrange(k - 1, n as int);
                assert(views(out@) =~= views(old(out)@) + targets_names(s)->0);
            }
            k -= 1;
        }
        proof {
            assert(elts@.subrange(0, n as int) =~= elts@);
        }
        true
    }

    /// The names an assignment target binds, if it binds any and only plain names.
    fn extract_assignment_targets(&self, expr: &Expr) -> (r: Option<Vec<String>>)
        ensures
            r matches Some(v) ==> assignment_targets(*expr) == Some(views(v@)),
            r is None ==> assignment_targets(*expr) is None,
    {
        let mut names: Vec<String> = Vec::new();
        let ghost empty = names@;
        if self.collect_target_names(expr, &mut names) {
            proof {
                assert(views(empty) =~= Seq::<Seq<char>>::empty());
                assert(views(names@) =~= target_names(*expr)->0);
            }
            if names.len() == 0 {
                None
            } else {
                Some(names)
            }
        } else {
            None
        }
    }

    /// Adds the names bound by an assignment target to `vars`.
    fn collect_target_set(&self, expr: &Expr, vars: &mut Vec<String>)
        ensures
            name_set(final(vars)@) == name_set(old(vars)@) + target_set(*expr),
            distinct_names(old(vars)@) ==> distinct_names(final(vars)@),
    {
        match self.extract_assignment_targets(expr) {
            Some(names) => {
                extend_names(vars, &names);
            },
            None => {
                proof {
                    assert(name_set(vars@) =~= name_set(vars@) + target_set(*expr));
                }
            },
        }
    }
    /// Adds the names the optional expression reads to `vars`.
    fn collect_vars_in_opt(&self, expr: &Option<Expr>, vars: &mut Vec<String>)
        ensures
            name_set(final(vars)@) == name_set(old(vars)@) + opt_expr_vars(*expr),
            distinct_names(old(vars)@) ==> distinct_names(final(vars)@),
    {
        match expr {
            Some(e) => self.collect_vars_in_expr(e, vars),
            None => {
                proof {
                    assert(name_set(vars@) =~= name_set(vars@) + opt_expr_vars(*expr));
                }
            },
        }
    }

    /// Adds the names the context expressions of a `with` statement read to `vars`.
    fn collect_vars_in_with_items(&self, items: &Vec<WithItem>, vars: &mut Vec<String>)
        ensures
            name_set(final(vars)@) == name_set(old(vars)@) + with_items_vars(items@),
            distinct_names(old(vars)@) ==> distinct_names(final(vars)@),
    {
        let mut i: usize = 0;
        while i < items.len()
            invariant
                i <= items.len(),
                name_set(vars@) == name_set(old(vars)@) + with_items_vars(
                    items@.subrange(0, i as int),
                ),
                distinct_names(old(vars)@) ==> distinct_names(vars@),
            decreases items.len() - i,
        {
            proof {
                assert(items@.subrange(0, i + 1).drop_last() =~= items@.subrange(0, i as int));
            }
            self.collect_vars_in_expr(&items[i].context_expr, vars);
            proof {
                assert(name_set(vars@) =~= name_set(old(vars)@) + with_items_vars(
                    items@.subrange(0, i + 1),
                ));
            }
            i += 1;
        }
        proof {
            assert(items@.subrange(0, items@.len() as int) =~= items@);
        }
    }

    /// Adds the names the statement reads to `read_vars` and those it assigns to
    /// `write_vars`, looking into nested `if`, `for`, `while` and `with` blocks.
    fn collect_vars_in_stmt(&self, stmt: &Stmt, read_vars: &mut Vec<String>, write_vars: &mut Vec<String>)
        ensures
            name_set(final(read_vars)@) == name_set(old(read_vars)@) + stmt_reads(*stmt),
            name_set(final(write_vars)@) == name_set(old(write_vars)@) + stmt_writes(*stmt),
        decreases stmt,
    {
        let ghost r0 = name_set(read_vars@);
        let ghost w0 = name_set(write_vars@);
        match stmt {
            Stmt::Expr(e) => {
                self.collect_vars_in_expr(e, read_vars);
            },
            Stmt::Assign { targets, value } => {
                self.collect_vars_in_expr(value, read_vars);
                self.handle_assign_targets(targets, write_vars);
            },
            Stmt::Return(value) => {
                self.collect_vars_in_opt(value, read_vars);
            },
            Stmt::If { test, body, elif_else_clauses } => {
                self.collect_vars_in_expr(test, read_vars);
                self.collect_vars_in_body(body, read_vars, write_vars);
                self.collect_vars_in_clauses(elif_else_clauses, read_vars, write_vars);
            },
            Stmt::For { target, iter, body, orelse } => {
                self.collect_vars_in_expr(iter, read_vars);
                self.collect_target_set(target, write_vars);
                self.collect_vars_in_body(body, read_vars, write_vars);
                self.collect_vars_in_body(orelse, read_vars, write_vars);
            },
            Stmt::While { test, body, orelse } => {
                self.collect_vars_in_expr(test, read_vars);
                self.collect_vars_in_body(body, read_vars, write_vars);
                self.collect_vars_in_body(orelse, read_vars, write_vars);
            },
            Stmt::With { items, body } => {
                self.collect_vars_in_with_items(items, read_vars);
                self.collect_vars_in_body(body, read_vars, write_vars);
            },
            _ => {},
        }
        proof {
            assert(name_set(read_vars@) =~= r0 + stmt_reads(*stmt));
            assert(name_set(write_vars@) =~= w0 + stmt_writes(*stmt));
        }
    }

    /// Adds the names a function body reads and assigns.
    #[verifier::loop_isolation(false)]
    fn collect_vars_in_body(&self, body: &Vec<Stmt>, read_vars: &mut Vec<String>, write_vars: &mut Vec<String>)
        ensures
            name_set(final(read_vars)@) == name_set(old(read_vars)@) + body_reads(body@),
            name_set(final(write_vars)@) == name_set(old(write_vars)@) + body_writes(body@),
        decreases body,
    {
        let mut i: usize = 0;
        while i < body.len()
            invariant
                i <= body.len(),
                name_set(read_vars@) == name_set(old(read_vars)@) + body_reads(
                    body@.subrange(0, i as int),
                ),
                name_set(write_vars@) == name_set(old(write_vars)@) + body_writes(
                    body@.subrange(0, i as int),
                ),
            decreases body.len() - i,
        {
            proof {
                assert(decreases_to!(body => body@));
                assert(decreases_to!(body@ => body@[i as int]));
                assert(body@.subrange(0, i + 1).drop_last() =~= body@.subrange(0, i as int));
            }
            self.collect_vars_in_stmt(&body[i], read_vars, write_vars);
            proof {
                assert(name_set(read_vars@) =~= name_set(old(read_vars)@) + body_reads(
                    body@.subrange(0, i + 1),
                ));
                assert(name_set(write_vars@) =~= name_set(old(write_vars)@) + body_writes(
                    body@.subrange(0, i + 1),
                ));
            }
            i += 1;
        }
        proof {
            assert(body@.subrange(0, body@.len() as int) =~= body@);
        }
    }

    #[verifier::loop_isolation(false)]
    fn collect_vars_in_clauses(
        &self,
        clauses: &Vec<ElifElseClause>,
        read_vars: &mut Vec<String>,
        write_vars: &mut Vec<String>,
    )
        ensures
            name_set(final(read_vars)@) == name_set(old(read_vars)@) + clauses_reads(clauses@),
            name_set(final(write_vars)@) == name_set(old(write_vars)@) + clauses_writes(clauses@),
        decreases clauses,
    {
        let mut i: usize = 0;
        while i < clauses.len()
            invariant
                i <= clauses.len(),
                name_set(read_vars@) == name_set(old(read_vars)@) + clauses_reads(
                    clauses@.subrange(0, i as int),
                ),
                name_set(write_vars@) == name_set(old(write_vars)@) + clauses_writes(
                    clauses@.subrange(0, i as int),
                ),
            decreases clauses.len() - i,
        {
            proof {
                assert(decreases_to!(clauses => clauses@));
                assert(decreases_to!(clauses@ => clauses@[i as int]));
                assert(decreases_to!(clauses@[i as int] => clauses@[i as int].body));
                assert(clauses@.subrange(0, i + 1).drop_last() =~= clauses@.subrange(0, i as int));
            }
            self.collect_vars_in_opt(&clauses[i].test, read_vars);
            self.collect_vars_in_body(&clauses[i].body, read_vars, write_vars);
            proof {
                assert(name_set(read_vars@) =~= name_set(old(read_vars)@) + clauses_reads(
                    clauses@.subrange(0, i + 1),
                ));
                assert(name_set(write_vars@) =~= name_set(old(write_vars)@) + clauses_writes(
                    clauses@.subrange(0, i + 1),
                ));
            }
            i += 1;
        }
        proof {
            assert(clauses@.subrange(0, clauses@.len() as int) =~= clauses@);
        }
    }

    /// Adds the names bound by each assignment target to `write_vars`.
    fn handle_assign_targets(&self, targets: &Vec<Expr>, write_vars: &mut Vec<String>)
        ensures
            name_set(final(write_vars)@) == name_set(old(write_vars)@) + targets_set(targets@),
            distinct_names(old(write_vars)@) ==> distinct_names(final(write_vars)@),
    {
        let mut i: usize = 0;
        while i < targets.len()
            invariant
                i <= targets.len(),
                name_set(write_vars@) == name_set(old(write_vars)@) + targets_set(
                    targets@.subrange(0, i as int),
                ),
                distinct_names(old(write_vars)@) ==> distinct_names(write_vars@),
            decreases targets.len() - i,
        {
            proof {
                assert(targets@.subrange(0, i + 1).drop_last() =~= targets@.subrange(0, i as int));
            }
            self.collect_target_set(&targets[i], write_vars);
            proof {
                assert(name_set(write_vars@) =~= name_set(old(write_vars)@) + targets_set(
                    targets@.subrange(0, i + 1),
                ));
            }
            i += 1;
        }
        proof {
            assert(targets@.subrange(0, targets@.len() as int) =~= targets@);
        }
    }
    /// Adds an item to the graph.
    fn add_item(&mut self, item: ItemData)
        ensures
            item_views(final(self).graph.items@) == item_views(old(self).graph.items@).push(
                item_view(item),
            ),
            final(self).current_scope == old(self).current_scope,
    {
        let ghost before = self.graph.items@;
        self.graph.add_item(item);
        proof {
            assert(item_views(self.graph.items@) =~= item_views(before).push(item_view(item)));
        }
    }

    /// Adds the item of one alias of an `import` statement.
    fn process_import_alias(&mut self, alias: &Alias)
        ensures
            item_views(final(self).graph.items@) == item_views(old(self).graph.items@).push(
                import_alias_item(*alias),
            ),
            final(self).current_scope == old(self).current_scope,
    {
        let module_name = &alias.name;
        let (imported_names, var_decls) = match &alias.asname {
            Some(local) => (single_name(local.clone()), single_name(local.clone())),
            None => {
                if contains_char(module_name.as_str(), '.') {
                    let parts = split_char(module_name.as_str(), '.');
                    proof {
                        lemma_split_nonempty(module_name@, '.');
                        assert(views(parts@)[0] == parts@[0]@);
                    }
                    let root_module = parts[0].clone();
                    let mut decls = single_name(module_name.clone());
                    insert_name(&mut decls, root_module);
                    (single_name(module_name.clone()), decls)
                } else {
                    (single_name(module_name.clone()), single_name(module_name.clone()))
                }
            },
        };
        let item = ItemData {
            item_type: ItemType::Import {
                module: module_name.clone(),
                alias: copy_opt_string(&alias.asname),
            },
            var_decls,
            read_vars: empty_names(),
            eventual_read_vars: empty_names(),
            write_vars: empty_names(),
            eventual_write_vars: empty_names(),
            has_side_effects: self.is_side_effect_import(module_name.as_str()),
            imported_names,
            reexported_names: empty_names(),
        };
        proof {
            assert(item_view(item) =~= import_alias_item(*alias));
        }
        self.add_item(item);
    }

    /// Adds one item for each alias of an `import` statement.
    fn process_import(&mut self, names: &Vec<Alias>)
        ensures
            item_views(final(self).graph.items@) == item_views(old(self).graph.items@)
                + names@.map_values(|a: Alias| import_alias_item(a)),
            final(self).current_scope == old(self).current_scope,
    {
        let mut i: usize = 0;
        while i < names.len()
            invariant
                i <= names.len(),
                item_views(self.graph.items@) == item_views(old(self).graph.items@)
                    + names@.subrange(0, i as int).map_values(|a: Alias| import_alias_item(a)),
                self.current_scope == old(self).current_scope,
            decreases names.len() - i,
        {
            self.process_import_alias(&names[i]);
            proof {
                assert(names@.subrange(0, i + 1).map_values(|a: Alias| import_alias_item(a))
                    =~= names@.subrange(0, i as int).map_values(|a: Alias| import_alias_item(a)).push(
                    import_alias_item(names@[i as int]),
                ));
            }
            i += 1;
        }
        proof {
            assert(names@.subrange(0, names@.len() as int) =~= names@);
        }
    }

    /// Adds the item of a `from ... import ...` statement (none for `__future__`).
    fn process_import_from(&mut self, module: &Option<String>, names: &Vec<Alias>, level: u32)
        ensures
            item_views(final(self).graph.items@) == item_views(old(self).graph.items@) + if opt_name(
                *module,
            ) == "__future__"@ {
                Seq::<ItemView>::empty()
            } else {
                seq![from_import_item(*module, names@, level)]
            },
            final(self).current_scope == old(self).current_scope,
    {
        let module_name = match module {
            Some(m) => m.clone(),
            None => String::new(),
        };
        if str_eq(module_name.as_str(), "__future__") {
            proof {
                assert(item_views(self.graph.items@) =~= item_views(self.graph.items@)
                    + Seq::<ItemView>::empty());
            }
            return;
        }
        let effective_module = if level > 0 {
            let mut d = make_dots(level);
            d.append(module_name.as_str());
            d
        } else {
            module_name
        };
        let is_star = names.len() == 1 && str_eq(names[0].name.as_str(), "*");
        let mut imported_names = empty_names();
        let mut pairs: Vec<(String, Option<String>)> = Vec::new();
        let mut reexported_names = empty_names();
        if is_star {
            imported_names = single_name(to_string("*"));
        } else {
            let mut i: usize = 0;
            proof {
                assert(names@.subrange(0, 0) =~= Seq::<Alias>::empty());
                assert(alias_locals(Seq::<Alias>::empty()) =~= Set::<Seq<char>>::empty());
                assert(explicit_reexports(Seq::<Alias>::empty()) =~= Set::<Seq<char>>::empty());
                assert(pair_views(pairs@) =~= alias_pairs(Seq::<Alias>::empty()));
            }
            while i < names.len()
                invariant
                    i <= names.len(),
                    name_set(imported_names@) == alias_locals(names@.subrange(0, i as int)),
                    name_set(reexported_names@) == explicit_reexports(
                        names@.subrange(0, i as int),
                    ),
                    pair_views(pairs@) == alias_pairs(names@.subrange(0, i as int)),
                decreases names.len() - i,
            {
                let alias = &names[i];
                let local = local_name(alias);
                insert_name(&mut imported_names, local.clone());
                let ghost before_pairs = pairs@;
                pairs.push((alias.name.clone(), copy_opt_string(&alias.asname)));
                let ghost before_re = name_set(reexported_names@);
                let reexport = match &alias.asname {
                    Some(asname) => str_eq(asname.as_str(), alias.name.as_str()),
                    None => false,
                };
                if reexport {
                    insert_name(&mut reexported_names, local.clone());
                }
                proof {
                    lemma_alias_sets_step(names@, i as int);
                    assert(pair_views(pairs@) =~= pair_views(before_pairs).push(
                        (alias.name@, opt_view(alias.asname)),
                    ));
                    assert(alias_pairs(names@.subrange(0, i + 1)) =~= alias_pairs(
                        names@.subrange(0, i as int),
                    ).push((alias.name@, opt_view(alias.asname))));
                    if reexport {
                        assert(name_set(reexported_names@) =~= before_re.insert(alias.name@));
                    }
                }
                i += 1;
            }
            proof {
                assert(names@.subrange(0, names@.len() as int) =~= names@);
            }
        }
        let item = ItemData {
            item_type: ItemType::FromImport {
                module: copy_string(&effective_module),
                names: pairs,
                level,
                is_star,
            },
            var_decls: names_to_set(&imported_names),
            read_vars: empty_names(),
            eventual_read_vars: empty_names(),
            write_vars: empty_names(),
            eventual_write_vars: empty_names(),
            has_side_effects: is_star || self.is_side_effect_import(effective_module.as_str()),
            imported_names,
            reexported_names,
        };
        proof {
            reveal_strlit("*");
            reveal_strlit("__future__");
            assert(effective_module@ =~= self::effective_module(*module, level));
            if is_star {
                assert(pair_views(Seq::<(String, Option<String>)>::empty()) =~= Seq::<
                    (Seq<char>, Option<Seq<char>>),
                >::empty());
            }
            assert(item_view(item) =~= from_import_item(*module, names@, level));
        }
        self.add_item(item);
        proof {
            assert(seq![from_import_item(*module, names@, level)] =~= Seq::<ItemView>::empty().push(
                from_import_item(*module, names@, level),
            ));
        }
    }
    /// Adds the names the annotations of `params` read to `vars`.
    fn collect_vars_in_params(&self, params: &Vec<Parameter>, vars: &mut Vec<String>)
        ensures
            name_set(final(vars)@) == name_set(old(vars)@) + params_seq_vars(params@),
            distinct_names(old(vars)@) ==> distinct_names(final(vars)@),
    {
        let mut i: usize = 0;
        while i < params.len()
            invariant
                i <= params.len(),
                name_set(vars@) == name_set(old(vars)@) + params_seq_vars(
                    params@.subrange(0, i as int),
                ),
                distinct_names(old(vars)@) ==> distinct_names(vars@),
            decreases params.len() - i,
        {
            proof {
                assert(params@.subrange(0, i + 1).drop_last() =~= params@.subrange(0, i as int));
            }
            self.collect_vars_in_opt(&params[i].annotation, vars);
            proof {
                assert(name_set(vars@) =~= name_set(old(vars)@) + params_seq_vars(
                    params@.subrange(0, i + 1),
                ));
            }
            i += 1;
        }
        proof {
            assert(params@.subrange(0, params@.len() as int) =~= params@);
        }
    }

    fn collect_vars_in_opt_param(&self, param: &Option<Parameter>, vars: &mut Vec<String>)
        ensures
            name_set(final(vars)@) == name_set(old(vars)@) + opt_param_vars(*param),
            distinct_names(old(vars)@) ==> distinct_names(final(vars)@),
    {
        match param {
            Some(p) => self.collect_vars_in_opt(&p.annotation, vars),
            None => {
                proof {
                    assert(name_set(vars@) =~= name_set(vars@) + opt_param_vars(*param));
                }
            },
        }
    }

    /// Adds the item of a function definition, then the items of its body.
    fn process_function_def(&mut self, func_def: &Stmt)
        requires
            func_def is FunctionDef,
        ensures
            item_views(final(self).graph.items@) == item_views(old(self).graph.items@)
                + stmt_items(*func_def),
            final(self).current_scope == old(self).current_scope,
        decreases func_def, 1int,
    {
        let Stmt::FunctionDef { name, decorators, parameters, return_type, body } = func_def
        else {
            return;
        };
        proof {
            assert(decreases_to!(*func_def => *body));
        }
        let mut read_vars = empty_names();
        self.collect_vars_in_exprs(decorators, &mut read_vars);
        self.collect_vars_in_params(&parameters.posonlyargs, &mut read_vars);
        self.collect_vars_in_params(&parameters.args, &mut read_vars);
        self.collect_vars_in_params(&parameters.kwonlyargs, &mut read_vars);
        self.collect_vars_in_opt_param(&parameters.vararg, &mut read_vars);
        self.collect_vars_in_opt_param(&parameters.kwarg, &mut read_vars);
        self.collect_vars_in_opt(return_type, &mut read_vars);
        let mut eventual_read_vars = empty_names();
        let mut eventual_write_vars = empty_names();
        self.collect_vars_in_body(body, &mut eventual_read_vars, &mut eventual_write_vars);
        let item = ItemData {
            item_type: ItemType::FunctionDef { name: name.clone() },
            var_decls: single_name(name.clone()),
            read_vars,
            eventual_read_vars,
            write_vars: empty_names(),
            eventual_write_vars,
            has_side_effects: false,
            imported_names: empty_names(),
            reexported_names: empty_names(),
        };
        let ghost spec_item = ItemView {
            var_decls: set![name@],
            read_vars: exprs_vars(decorators@) + parameters_vars(*parameters) + opt_expr_vars(
                *return_type,
            ),
            eventual_read_vars: body_reads(body@),
            eventual_write_vars: body_writes(body@),
            ..bare_item(ItemTypeView::FunctionDef { name: name@ }, false)
        };
        proof {
            assert(item_view(item) =~= spec_item);
        }
        let ghost mid = item_views(self.graph.items@);
        self.add_item(item);
        let old_scope = self.current_scope;
        self.current_scope = ScopeType::Function;
        self.process_body(body);
        self.current_scope = old_scope;
        proof {
            assert(item_views(self.graph.items@) =~= item_views(old(self).graph.items@)
                + seq![spec_item] + body_items(body@));
        }
    }

    /// Adds the item of a class definition, then the items of its body.
    fn process_class_def(&mut self, class_def: &Stmt)
        requires
            class_def is ClassDef,
        ensures
            item_views(final(self).graph.items@) == item_views(old(self).graph.items@)
                + stmt_items(*class_def),
            final(self).current_scope == old(self).current_scope,
        decreases class_def, 1int,
    {
        let Stmt::ClassDef { name, decorators, bases, body, .. } = class_def else {
            return;
        };
        proof {
            assert(decreases_to!(*class_def => *body));
        }
        let mut read_vars = empty_names();
        self.collect_vars_in_exprs(decorators, &mut read_vars);
        self.collect_vars_in_exprs(bases, &mut read_vars);
        let item = ItemData {
            item_type: ItemType::ClassDef { name: name.clone() },
            var_decls: single_name(name.clone()),
            read_vars,
            eventual_read_vars: empty_names(),
            write_vars: empty_names(),
            eventual_write_vars: empty_names(),
            has_side_effects: false,
            imported_names: empty_names(),
            reexported_names: empty_names(),
        };
        let ghost spec_item = ItemView {
            var_decls: set![name@],
            read_vars: exprs_vars(decorators@) + exprs_vars(bases@),
            ..bare_item(ItemTypeView::ClassDef { name: name@ }, false)
        };
        proof {
            assert(item_view(item) =~= spec_item);
        }
        self.add_item(item);
        let old_scope = self.current_scope;
        self.current_scope = ScopeType::Class;
        self.process_body(body);
        self.current_scope = old_scope;
        proof {
            assert(item_views(self.graph.items@) =~= item_views(old(self).graph.items@)
                + seq![spec_item] + body_items(body@));
        }
    }

    /// Adds the items of each statement of a block.
    #[verifier::loop_isolation(false)]
    fn process_body(&mut self, body: &Vec<Stmt>)
        ensures
            item_views(final(self).graph.items@) == item_views(old(self).graph.items@)
                + body_items(body@),
            final(self).current_scope == old(self).current_scope,
        decreases body, 0int,
    {
        let mut i: usize = 0;
        while i < body.len()
            invariant
                i <= body.len(),
                item_views(self.graph.items@) == item_views(old(self).graph.items@) + body_items(
                    body@.subrange(0, i as int),
                ),
                self.current_scope == old(self).current_scope,
            decreases body.len() - i,
        {
            proof {
                assert(decreases_to!(body => body@));
                assert(decreases_to!(body@ => body@[i as int]));
                assert(body@.subrange(0, i + 1).drop_last() =~= body@.subrange(0, i as int));
            }
            self.process_statement(&body[i]);
            proof {
                assert(item_views(self.graph.items@) =~= item_views(old(self).graph.items@)
                    + body_items(body@.subrange(0, i + 1)));
            }
            i += 1;
        }
        proof {
            assert(body@.subrange(0, body@.len() as int) =~= body@);
        }
    }

    /// Adds the items of a statement, nested blocks included.
    fn process_statement(&mut self, stmt: &Stmt)
        ensures
            item_views(final(self).graph.items@) == item_views(old(self).graph.items@)
                + stmt_items(*stmt),
            final(self).current_scope == old(self).current_scope,
        decreases stmt, 2int,
    {
        match stmt {
            Stmt::Import(names) => self.process_import(names),
            Stmt::ImportFrom { module, names, level } => self.process_import_from(
                module,
                names,
                *level,
            ),
            Stmt::FunctionDef { .. } => self.process_function_def(stmt),
            Stmt::ClassDef { .. } => self.process_class_def(stmt),
            Stmt::Assign { targets, value } => self.process_assign(targets, value),
            Stmt::AnnAssign { target, annotation, value } => self.process_ann_assign(
                target,
                annotation,
                value,
            ),
            Stmt::Expr(e) => self.process_expr_stmt(e),
            Stmt::If { .. } => self.process_if_stmt(stmt),
            Stmt::For { .. } => self.process_for_stmt(stmt),
            Stmt::While { .. } => self.process_while_stmt(stmt),
            Stmt::With { .. } => self.process_with_stmt(stmt),
            Stmt::Try { .. } => self.process_try_stmt(stmt),
            _ => {
                proof {
                    assert(item_views(self.graph.items@) =~= item_views(self.graph.items@)
                        + stmt_items(*stmt));
                }
            },
        }
    }
    /// Adds the item of an assignment; for `__all__ = [...]` it records the
    /// listed names as re-exported.
    fn process_assign(&mut self, targets: &Vec<Expr>, value: &Expr)
        ensures
            item_views(final(self).graph.items@) == item_views(old(self).graph.items@)
                + stmt_items(Stmt::Assign { targets: *targets, value: *value }),
            final(self).current_scope == old(self).current_scope,
    {
        let mut names: Vec<String> = Vec::new();
        let mut var_decls = empty_names();
        let mut i: usize = 0;
        proof {
            assert(views(names@) =~= assign_target_seq(targets@.subrange(0, 0)));
        }
        while i < targets.len()
            invariant
                i <= targets.len(),
                views(names@) == assign_target_seq(targets@.subrange(0, i as int)),
                name_set(var_decls@) == assign_target_seq(targets@.subrange(0, i as int)).to_set(),
            decreases targets.len() - i,
        {
            proof {
                assert(targets@.subrange(0, i + 1).drop_last() =~= targets@.subrange(0, i as int));
            }
            let ghost before = views(names@);
            match self.extract_assignment_targets(&targets[i]) {
                Some(found) => {
                    let mut j: usize = 0;
                    while j < found.len()
                        invariant
                            j <= found.len(),
                            views(names@) == before + views(found@).subrange(0, j as int),
                        decreases found.len() - j,
                    {
                        let ghost b2 = views(names@);
                        names.push(found[j].clone());
                        proof {
                            assert(views(names@) =~= b2.push(found@[j as int]@));
                            assert(views(found@).subrange(0, j + 1) =~= views(found@).subrange(
                                0,
                                j as int,
                            ).push(found@[j as int]@));
                        }
                        j += 1;
                    }
                    extend_names(&mut var_decls, &found);
                    proof {
                        assert(views(found@).subrange(0, found@.len() as int) =~= views(found@));
                        lemma_to_set_concat(before, views(found@));
                    }
                },
                None => {
                    proof {
                        assert(before + Seq::<Seq<char>>::empty() =~= before);
                    }
                },
            }
            proof {
                assert(views(names@) =~= assign_target_seq(targets@.subrange(0, i + 1)));
            }
            i += 1;
        }
        proof {
            assert(targets@.subrange(0, targets@.len() as int) =~= targets@);
        }
        let mut read_vars = empty_names();
        self.collect_vars_in_expr(value, &mut read_vars);
        let is_all_assignment = contains_name(&names, "__all__");
        let mut reexported_names = empty_names();
        if is_all_assignment {
            if let Expr::List(elts) = value {
                let mut k: usize = 0;
                while k < elts.len()
                    invariant
                        k <= elts.len(),
                        name_set(reexported_names@) == string_literal_values(
                            elts@.subrange(0, k as int),
                        ),
                    decreases elts.len() - k,
                {
                    let ghost before = name_set(reexported_names@);
                    if let Expr::StringLiteral(v) = &elts[k] {
                        insert_name(&mut reexported_names, v.clone());
                    }
                    proof {
                        lemma_string_literal_values_step(elts@, k as int);
                    }
                    k += 1;
                }
                proof {
                    assert(elts@.subrange(0, elts@.len() as int) =~= elts@);
                }
            }
        }
        let ghost tnames = assign_target_seq(targets@);
        proof {
            reveal_strlit("__all__");
            assert(name_set(reexported_names@) =~= all_list_names(tnames, *value));
        }
        let item = ItemData {
            item_type: ItemType::Assignment { targets: names },
            var_decls,
            read_vars,
            eventual_read_vars: names_to_set(&reexported_names),
            write_vars: empty_names(),
            eventual_write_vars: empty_names(),
            has_side_effects: self.expression_has_side_effects(value),
            imported_names: empty_names(),
            reexported_names,
        };
        proof {
            assert(item_view(item) =~= stmt_items(Stmt::Assign { targets: *targets, value: *value })[0]);
        }
        self.add_item(item);
        proof {
            assert(item_views(self.graph.items@) =~= item_views(old(self).graph.items@)
                + stmt_items(Stmt::Assign { targets: *targets, value: *value }));
        }
    }

    /// `names` without repetitions, first occurrences kept.
    fn dedup_names(&self, names: &Vec<String>) -> (r: Vec<String>)
        ensures
            views(r@) == dedup(views(names@)),
            name_set(r@) == name_set(names@),
    {
        let mut r = empty_names();
        let mut i: usize = 0;
        while i < names.len()
            invariant
                i <= names.len(),
                views(r@) == dedup(views(names@).subrange(0, i as int)),
                name_set(r@) == views(names@).subrange(0, i as int).to_set(),
            decreases names.len() - i,
        {
            let ghost before = r@;
            insert_name(&mut r, names[i].clone());
            proof {
                let s = views(names@).subrange(0, i + 1);
                assert(s.drop_last() =~= views(names@).subrange(0, i as int));
                assert(s.last() == names@[i as int]@);
                assert(views(r@) =~= dedup(s)) by {
                    if name_set(before).contains(names@[i as int]@) {
                    } else {
                        assert(views(r@) =~= views(before).push(names@[i as int]@));
                    }
                }
                lemma_to_set_concat(views(names@).subrange(0, i as int), seq![names@[i as int]@]);
                assert(s =~= views(names@).subrange(0, i as int) + seq![names@[i as int]@]);
                assert(seq![names@[i as int]@].to_set() =~= set![names@[i as int]@]);
                assert(name_set(r@) =~= s.to_set());
            }
            i += 1;
        }
        proof {
            assert(views(names@).subrange(0, names@.len() as int) =~= views(names@));
        }
        r
    }

    /// Adds the item of an annotated assignment.
    fn process_ann_assign(&mut self, target: &Expr, annotation: &Expr, value: &Option<Expr>)
        ensures
            item_views(final(self).graph.items@) == item_views(old(self).graph.items@)
                + stmt_items(
                Stmt::AnnAssign { target: *target, annotation: *annotation, value: *value },
            ),
            final(self).current_scope == old(self).current_scope,
    {
        let names = match self.extract_assignment_targets(target) {
            Some(found) => found,
            None => {
                let e = empty_names();
                e
            },
        };
        let var_decls = names_to_set(&names);
        let targets = self.dedup_names(&names);
        let mut read_vars = empty_names();
        self.collect_vars_in_expr(annotation, &mut read_vars);
        self.collect_vars_in_opt(value, &mut read_vars);
        let has_side_effects = match value {
            Some(v) => self.expression_has_side_effects(v),
            None => false,
        };
        let item = ItemData {
            item_type: ItemType::Assignment { targets },
            var_decls,
            read_vars,
            eventual_read_vars: empty_names(),
            write_vars: empty_names(),
            eventual_write_vars: empty_names(),
            has_side_effects,
            imported_names: empty_names(),
            reexported_names: empty_names(),
        };
        let ghost st = Stmt::AnnAssign { target: *target, annotation: *annotation, value: *value };
        proof {
            assert(item_view(item) =~= stmt_items(st)[0]);
        }
        self.add_item(item);
        proof {
            assert(item_views(self.graph.items@) =~= item_views(old(self).graph.items@)
                + stmt_items(st));
        }
    }

    /// Adds the item of an expression statement.
    fn process_expr_stmt(&mut self, expr: &Expr)
        ensures
            item_views(final(self).graph.items@) == item_views(old(self).graph.items@)
                + stmt_items(Stmt::Expr(*expr)),
            final(self).current_scope == old(self).current_scope,
    {
        let mut read_vars = empty_names();
        self.collect_vars_in_expr(expr, &mut read_vars);
        let item = ItemData {
            item_type: ItemType::Expression,
            var_decls: empty_names(),
            read_vars,
            eventual_read_vars: empty_names(),
            write_vars: empty_names(),
            eventual_write_vars: empty_names(),
            has_side_effects: true,
            imported_names: empty_names(),
            reexported_names: empty_names(),
        };
        proof {
            assert(item_view(item) =~= stmt_items(Stmt::Expr(*expr))[0]);
        }
        self.add_item(item);
        proof {
            assert(item_views(self.graph.items@) =~= item_views(old(self).graph.items@)
                + stmt_items(Stmt::Expr(*expr)));
        }
    }

    /// An item with no names.
    fn bare_item_data(item_type: ItemType, has_side_effects: bool) -> (d: ItemData)
        ensures
            item_view(d) == bare_item(item_type_view(item_type), has_side_effects),
    {
        let d = ItemData {
            item_type,
            var_decls: empty_names(),
            read_vars: empty_names(),
            eventual_read_vars: empty_names(),
            write_vars: empty_names(),
            eventual_write_vars: empty_names(),
            has_side_effects,
            imported_names: empty_names(),
            reexported_names: empty_names(),
        };
        proof {
            assert(item_view(d) =~= bare_item(item_type_view(item_type), has_side_effects));
        }
        d
    }

    /// Adds the item of an `if` statement, then the items of its branches.
    fn process_if_stmt(&mut self, if_stmt: &Stmt)
        requires
            if_stmt is If,
        ensures
            item_views(final(self).graph.items@) == item_views(old(self).graph.items@)
                + stmt_items(*if_stmt),
            final(self).current_scope == old(self).current_scope,
        decreases if_stmt, 1int,
    {
        let Stmt::If { test, body, elif_else_clauses } = if_stmt else {
            return;
        };
        proof {
            assert(decreases_to!(*if_stmt => *body));
            assert(decreases_to!(*if_stmt => *elif_else_clauses));
        }
        let mut item = Self::bare_item_data(ItemType::If { condition: String::new() }, true);
        self.collect_vars_in_expr(test, &mut item.read_vars);
        let ghost first = item_view(item);
        self.add_item(item);
        self.process_body(body);
        self.process_clauses(elif_else_clauses);
        proof {
            assert(first =~= stmt_items(*if_stmt)[0]);
            assert(item_views(self.graph.items@) =~= item_views(old(self).graph.items@)
                + stmt_items(*if_stmt));
        }
    }

    /// Adds the items of the `elif`/`else` branches.
    #[verifier::loop_isolation(false)]
    fn process_clauses(&mut self, clauses: &Vec<ElifElseClause>)
        ensures
            item_views(final(self).graph.items@) == item_views(old(self).graph.items@)
                + clauses_items(clauses@),
            final(self).current_scope == old(self).current_scope,
        decreases clauses, 0int,
    {
        let mut i: usize = 0;
        while i < clauses.len()
            invariant
                i <= clauses.len(),
                item_views(self.graph.items@) == item_views(old(self).graph.items@)
                    + clauses_items(clauses@.subrange(0, i as int)),
                self.current_scope == old(self).current_scope,
            decreases clauses.len() - i,
        {
            proof {
                assert(decreases_to!(clauses => clauses@));
                assert(decreases_to!(clauses@ => clauses@[i as int]));
                assert(decreases_to!(clauses@[i as int] => clauses@[i as int].body));
                assert(clauses@.subrange(0, i + 1).drop_last() =~= clauses@.subrange(0, i as int));
            }
            self.process_body(&clauses[i].body);
            proof {
                assert(item_views(self.graph.items@) =~= item_views(old(self).graph.items@)
                    + clauses_items(clauses@.subrange(0, i + 1)));
            }
            i += 1;
        }
        proof {
            assert(clauses@.subrange(0, clauses@.len() as int) =~= clauses@);
        }
    }

    /// Adds the item of a `for` loop, then the items of its body and `else` block.
    fn process_for_stmt(&mut self, for_stmt: &Stmt)
        requires
            for_stmt is For,
        ensures
            item_views(final(self).graph.items@) == item_views(old(self).graph.items@)
                + stmt_items(*for_stmt),
            final(self).current_scope == old(self).current_scope,
        decreases for_stmt, 1int,
    {
        let Stmt::For { target, iter, body, orelse } = for_stmt else {
            return;
        };
        proof {
            assert(decreases_to!(*for_stmt => *body));
            assert(decreases_to!(*for_stmt => *orelse));
        }
        let mut item = Self::bare_item_data(ItemType::Other, true);
        self.collect_vars_in_expr(iter, &mut item.read_vars);
        self.collect_target_set(target, &mut item.write_vars);
        let ghost first = item_view(item);
        self.add_item(item);
        self.process_body(body);
        self.process_body(orelse);
        proof {
            assert(first =~= stmt_items(*for_stmt)[0]);
            assert(item_views(self.graph.items@) =~= item_views(old(self).graph.items@)
                + stmt_items(*for_stmt));
        }
    }

    /// Adds the item of a `while` loop, then the items of its body and `else` block.
    fn process_while_stmt(&mut self, while_stmt: &Stmt)
        requires
            while_stmt is While,
        ensures
            item_views(final(self).graph.items@) == item_views(old(self).graph.items@)
                + stmt_items(*while_stmt),
            final(self).current_scope == old(self).current_scope,
        decreases while_stmt, 1int,
    {
        let Stmt::While { test, body, orelse } = while_stmt else {
            return;
        };
        proof {
            assert(decreases_to!(*while_stmt => *body));
            assert(decreases_to!(*while_stmt => *orelse));
        }
        let mut item = Self::bare_item_data(ItemType::Other, true);
        self.collect_vars_in_expr(test, &mut item.read_vars);
        let ghost first = item_view(item);
        self.add_item(item);
        self.process_body(body);
        self.process_body(orelse);
        proof {
            assert(first =~= stmt_items(*while_stmt)[0]);
            assert(item_views(self.graph.items@) =~= item_views(old(self).graph.items@)
                + stmt_items(*while_stmt));
        }
    }

    /// Adds the item of a `with` statement, then the items of its body.
    fn process_with_stmt(&mut self, with_stmt: &Stmt)
        requires
            with_stmt is With,
        ensures
            item_views(final(self).graph.items@) == item_views(old(self).graph.items@)
                + stmt_items(*with_stmt),
            final(self).current_scope == old(self).current_scope,
        decreases with_stmt, 1int,
    {
        let Stmt::With { items, body } = with_stmt else {
            return;
        };
        proof {
            assert(decreases_to!(*with_stmt => *body));
        }
        let mut item = Self::bare_item_data(ItemType::Other, true);
        self.collect_vars_in_with_items(items, &mut item.read_vars);
        let ghost first = item_view(item);
        self.add_item(item);
        self.process_body(body);
        proof {
            assert(first =~= stmt_items(*with_stmt)[0]);
            assert(item_views(self.graph.items@) =~= item_views(old(self).graph.items@)
                + stmt_items(*with_stmt));
        }
    }

    /// Adds the item of a `try` statement, then the items of its blocks and handlers.
    fn process_try_stmt(&mut self, try_stmt: &Stmt)
        requires
            try_stmt is Try,
        ensures
            item_views(final(self).graph.items@) == item_views(old(self).graph.items@)
                + stmt_items(*try_stmt),
            final(self).current_scope == old(self).current_scope,
        decreases try_stmt, 1int,
    {
        let Stmt::Try { body, handlers, orelse, finalbody } = try_stmt else {
            return;
        };
        proof {
            assert(decreases_to!(*try_stmt => *body));
            assert(decreases_to!(*try_stmt => *handlers));
            assert(decreases_to!(*try_stmt => *orelse));
            assert(decreases_to!(*try_stmt => *finalbody));
        }
        let item = Self::bare_item_data(ItemType::Try, true);
        let ghost first = item_view(item);
        self.add_item(item);
        self.process_body(body);
        self.process_handlers(handlers);
        self.process_body(orelse);
        self.process_body(finalbody);
        proof {
            assert(first =~= stmt_items(*try_stmt)[0]);
            assert(item_views(self.graph.items@) =~= item_views(old(self).graph.items@)
                + stmt_items(*try_stmt));
        }
    }

    /// Adds, for each `except` clause, an item for its exception type (if any),
    /// then the items of its body.
    #[verifier::loop_isolation(false)]
    fn process_handlers(&mut self, handlers: &Vec<ExceptHandler>)
        ensures
            item_views(final(self).graph.items@) == item_views(old(self).graph.items@)
                + handlers_items(handlers@),
            final(self).current_scope == old(self).current_scope,
        decreases handlers, 0int,
    {
        let mut i: usize = 0;
        while i < handlers.len()
            invariant
                i <= handlers.len(),
                item_views(self.graph.items@) == item_views(old(self).graph.items@)
                    + handlers_items(handlers@.subrange(0, i as int)),
                self.current_scope == old(self).current_scope,
            decreases handlers.len() - i,
        {
            proof {
                assert(decreases_to!(handlers => handlers@));
                assert(decreases_to!(handlers@ => handlers@[i as int]));
                assert(decreases_to!(handlers@[i as int] => handlers@[i as int].body));
                assert(handlers@.subrange(0, i + 1).drop_last() =~= handlers@.subrange(
                    0,
                    i as int,
                ));
            }
            let ghost before = item_views(self.graph.items@);
            let handler = &handlers[i];
            match &handler.type_ {
                Some(type_expr) => {
                    let mut item = Self::bare_item_data(ItemType::Other, false);
                    self.collect_vars_in_expr(type_expr, &mut item.read_vars);
                    let ghost first = item_view(item);
                    self.add_item(item);
                    proof {
                        assert(first =~= handler_items(*handler)[0]);
                    }
                },
                None => {},
            }
            self.process_body(&handler.body);
            proof {
                assert(item_views(self.graph.items@) =~= before + handler_items(*handler));
                assert(item_views(self.graph.items@) =~= item_views(old(self).graph.items@)
                    + handlers_items(handlers@.subrange(0, i + 1)));
            }
            i += 1;
        }
        proof {
            assert(handlers@.subrange(0, handlers@.len() as int) =~= handlers@);
        }
    }

    /// Adds the items of every statement of a module to the graph.
    pub fn build_from_ast(&mut self, ast: &ModModule)
        ensures
            item_views(final(self).built().items@) == item_views(old(self).built().items@)
                + body_items(ast.body@),
    {
        self.process_body(&ast.body);
    }
}

} // verus!
