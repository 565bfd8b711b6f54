//! A module's code rewritten for its lifted globals: inside a function that
//! declares module-level variables `global`, those variables are read and
//! written under their bundle-wide names, and `global` statements name them so.
use vstd::prelude::*;

use indexmap::IndexSet;

use crate::ast::{DictItem, ElifElseClause, ExceptHandler, Expr, ExprContext, ModModule, Stmt};
use crate::alias_rewrite::{rename_names, renamed};
use crate::code_generator::{insert_all, HybridStaticBundler};
use crate::collections::{
    index_set_contains, index_set_insert, index_set_items, index_set_new, index_set_to_vec,
    name_map_entries, name_map_get, NameMap,
};
use crate::globals_lifter::ModuleGlobalInfo;
use crate::text::{contains_name, copy_string, name_set, views};

verus! {

/// A name that is lifted where it is read: the enclosing function declares
/// it `global` (`fg`) and it has a bundle-wide name in `m`.
pub open spec fn lifts(n: Seq<char>, m: Map<Seq<char>, Seq<char>>, fg: Option<Seq<Seq<char>>>) -> bool {
    fg matches Some(g) && g.contains(n) && m.contains_key(n)
}

/// The items of the function's `global` set, if the code is inside one.
pub open spec fn opt_items(fg: Option<&IndexSet<String>>) -> Option<Seq<Seq<char>>> {
    match fg {
        Some(g) => Some(index_set_items(*g)),
        None => None,
    }
}

/// `b` is `a` with each lifted name (see `lifts`) replaced by its bundle-wide
/// name, looking through calls (callee and positional arguments),
/// attributes, f-strings, binary and unary operations, comparisons,
/// subscripts, lists, tuples and dicts; everything else unchanged.
pub open spec fn expr_lifted(
    a: Expr,
    b: Expr,
    m: Map<Seq<char>, Seq<char>>,
    fg: Option<Seq<Seq<char>>>,
) -> bool
    decreases a,
{
    match a {
        Expr::Name { id, ctx } => (b matches Expr::Name { id: i2, ctx: c2 } && c2 == ctx && i2@ == (
        if lifts(id@, m, fg) {
            m[id@]
        } else {
            id@
        })),
        Expr::Call { func, args, keywords } => (b matches Expr::Call {
            func: f2,
            args: a2,
            keywords: k2,
        } && expr_lifted(*func, *f2, m, fg) && exprs_lifted(args@, a2@, m, fg) && k2 == keywords),
        Expr::Attribute { value, attr, ctx } => (b matches Expr::Attribute {
            value: v2,
            attr: t2,
            ctx: c2,
        } && expr_lifted(*value, *v2, m, fg) && t2 == attr && c2 == ctx),
        Expr::FString(parts) => (b matches Expr::FString(p2) && exprs_lifted(parts@, p2@, m, fg)),
        Expr::BinOp { left, op, right } => (b matches Expr::BinOp { left: l2, op: o2, right: r2 } && o2 == op && expr_lifted(
            *left,
            *l2,
            m,
            fg,
        ) && expr_lifted(*right, *r2, m, fg)),
        Expr::UnaryOp(operand) => (b matches Expr::UnaryOp(o2) && expr_lifted(*operand, *o2, m, fg)),
        Expr::Compare { left, ops, comparators } => (b matches Expr::Compare {
            left: l2,
            ops: o2,
            comparators: c2,
        } && o2@ == ops@ && expr_lifted(*left, *l2, m, fg) && exprs_lifted(comparators@, c2@, m, fg)),
        Expr::Subscript { value, slice } => (b matches Expr::Subscript { value: v2, slice: s2 }
            && expr_lifted(*value, *v2, m, fg) && expr_lifted(*slice, *s2, m, fg)),
        Expr::List(elts) => (b matches Expr::List(e2) && exprs_lifted(elts@, e2@, m, fg)),
        Expr::Tuple(elts) => (b matches Expr::Tuple(e2) && exprs_lifted(elts@, e2@, m, fg)),
        Expr::Dict(items) => (b matches Expr::Dict(i2) && items_lifted(items@, i2@, m, fg)),
        _ => b == a,
    }
}

pub open spec fn exprs_lifted(
    a: Seq<Expr>,
    b: Seq<Expr>,
    m: Map<Seq<char>, Seq<char>>,
    fg: Option<Seq<Seq<char>>>,
) -> bool
    decreases a,
{
    a.len() == b.len() && (a.len() == 0 || (exprs_lifted(a.drop_last(), b.drop_last(), m, fg)
        && expr_lifted(a.last(), b.last(), m, fg)))
}

pub open spec fn item_lifted(
    a: DictItem,
    b: DictItem,
    m: Map<Seq<char>, Seq<char>>,
    fg: Option<Seq<Seq<char>>>,
) -> bool
    decreases a,
{
    (match a.key {
        None => b.key is None,
        Some(k) => (b.key matches Some(k2) && expr_lifted(k, k2, m, fg)),
    }) && expr_lifted(a.value, b.value, m, fg)
}

pub open spec fn items_lifted(
    a: Seq<DictItem>,
    b: Seq<DictItem>,
    m: Map<Seq<char>, Seq<char>>,
    fg: Option<Seq<Seq<char>>>,
) -> bool
    decreases a,
{
    a.len() == b.len() && (a.len() == 0 || (items_lifted(a.drop_last(), b.drop_last(), m, fg)
        && item_lifted(a.last(), b.last(), m, fg)))
}

/// The names the `global` statements directly in `body` declare, in order.
pub open spec fn declared_globals(body: Seq<Stmt>) -> Seq<Seq<char>>
    decreases body.len(),
{
    if body.len() == 0 {
        Seq::empty()
    } else {
        declared_globals(body.drop_last()) + match body.last() {
            Stmt::Global(names) => views(names@),
            _ => Seq::empty(),
        }
    }
}

/// The names among `g` that have a bundle-wide name in `m`, in order.
pub open spec fn lifted_among(g: Seq<Seq<char>>, m: Map<Seq<char>, Seq<char>>) -> Seq<Seq<char>>
    decreases g.len(),
{
    if g.len() == 0 {
        Seq::empty()
    } else {
        lifted_among(g.drop_last(), m) + if m.contains_key(g.last()) {
            seq![g.last()]
        } else {
            Seq::empty()
        }
    }
}

/// The statement `name = lifted` (a local copy of the lifted global).
pub open spec fn is_init_assignment(s: Stmt, name: Seq<char>, lifted: Seq<char>) -> bool {
    s matches Stmt::Assign { targets, value } && targets@.len() == 1 && (targets@[0] matches Expr::Name {
        id,
        ctx,
    } && id@ == name && ctx == ExprContext::Store) && (value matches Expr::Name { id: v, ctx: c }
        && v@ == lifted && c == ExprContext::Load)
}

/// `init` holds, for each name of `g` that is lifted in `m`, in order, the
/// statement `name = lifted_name`.
pub open spec fn init_statements(init: Seq<Stmt>, g: Seq<Seq<char>>, m: Map<Seq<char>, Seq<char>>) -> bool {
    let names = lifted_among(g, m);
    init.len() == names.len() && forall|j: int|
        0 <= j < init.len() ==> is_init_assignment(#[trigger] init[j], names[j], m[names[j]])
}

/// Some statement of `body` is a `global` statement.
pub open spec fn has_global(body: Seq<Stmt>) -> bool {
    exists|i: int| 0 <= i < body.len() && #[trigger] body[i] is Global
}

/// `b` is the statement `global` naming each of `names` under `m`.
pub open spec fn global_renamed(b: Stmt, names: Seq<String>, m: Map<Seq<char>, Seq<char>>) -> bool {
    b matches Stmt::Global(n2) && n2@.len() == names.len() && forall|i: int|
        0 <= i < names.len() ==> (#[trigger] n2@[i])@ == renamed(names[i]@, m)
}

/// `b` is the statement `a` rewritten for lifted globals (`m`) inside code
/// whose enclosing function declares `fg` global: expressions as
/// `expr_lifted` says in assignments, expression statements, returns, `if`
/// tests, `while` tests, `for` targets and iterables, and the bodies of `if`
/// and its clauses, `while` and `for` (not their `else`); a function among
/// `uses` (those that declare globals) has its body rewritten as
/// `body_lifted` says for its own `global` names; the rest unchanged.
pub open spec fn stmt_lifted(
    a: Stmt,
    b: Stmt,
    m: Map<Seq<char>, Seq<char>>,
    uses: Set<Seq<char>>,
    fg: Option<Seq<Seq<char>>>,
) -> bool
    decreases a,
{
    match a {
        Stmt::FunctionDef { name, decorators, parameters, return_type, body } => if uses.contains(
            name@,
        ) {
            b matches Stmt::FunctionDef {
                name: n2,
                decorators: d2,
                parameters: p2,
                return_type: r2,
                body: b2,
            } && n2 == name && d2 == decorators && p2 == parameters && r2 == return_type
                && body_lifted(body@, b2@, m, uses, insert_all(Seq::empty(), declared_globals(body@)))
        } else {
            b == a
        },
        Stmt::Assign { targets, value } => (b matches Stmt::Assign { targets: t2, value: v2 }
            && exprs_lifted(targets@, t2@, m, fg) && expr_lifted(value, v2, m, fg)),
        Stmt::Expr(e) => (b matches Stmt::Expr(e2) && expr_lifted(e, e2, m, fg)),
        Stmt::If { test, body, elif_else_clauses } => (b matches Stmt::If {
            test: t2,
            body: b2,
            elif_else_clauses: c2,
        } && expr_lifted(test, t2, m, fg) && stmts_lifted(body@, b2@, m, uses, fg)
            && clauses_lifted(elif_else_clauses@, c2@, m, uses, fg)),
        Stmt::While { test, body, orelse } => (b matches Stmt::While {
            test: t2,
            body: b2,
            orelse: o2,
        } && expr_lifted(test, t2, m, fg) && stmts_lifted(body@, b2@, m, uses, fg) && o2
            == orelse),
        Stmt::For { target, iter, body, orelse } => (b matches Stmt::For {
            target: t2,
            iter: i2,
            body: b2,
            orelse: o2,
        } && expr_lifted(target, t2, m, fg) && expr_lifted(iter, i2, m, fg) && stmts_lifted(
            body@,
            b2@,
            m,
            uses,
            fg,
        ) && o2 == orelse),
        Stmt::Return(v) => (b matches Stmt::Return(v2) && match v {
            None => v2 is None,
            Some(x) => (v2 matches Some(y) && expr_lifted(x, y, m, fg)),
        }),
        _ => b == a,
    }
}

pub open spec fn stmts_lifted(
    a: Seq<Stmt>,
    b: Seq<Stmt>,
    m: Map<Seq<char>, Seq<char>>,
    uses: Set<Seq<char>>,
    fg: Option<Seq<Seq<char>>>,
) -> bool
    decreases a,
{
    a.len() == b.len() && (a.len() == 0 || (stmts_lifted(a.drop_last(), b.drop_last(), m, uses, fg)
        && stmt_lifted(a.last(), b.last(), m, uses, fg)))
}

pub open spec fn clause_lifted(
    a: ElifElseClause,
    b: ElifElseClause,
    m: Map<Seq<char>, Seq<char>>,
    uses: Set<Seq<char>>,
    fg: Option<Seq<Seq<char>>>,
) -> bool
    decreases a,
{
    (match a.test {
        None => b.test is None,
        Some(x) => (b.test matches Some(y) && expr_lifted(x, y, m, fg)),
    }) && stmts_lifted(a.body@, b.body@, m, uses, fg)
}

pub open spec fn clauses_lifted(
    a: Seq<ElifElseClause>,
    b: Seq<ElifElseClause>,
    m: Map<Seq<char>, Seq<char>>,
    uses: Set<Seq<char>>,
    fg: Option<Seq<Seq<char>>>,
) -> bool
    decreases a,
{
    a.len() == b.len() && (a.len() == 0 || (clauses_lifted(
        a.drop_last(),
        b.drop_last(),
        m,
        uses,
        fg,
    ) && clause_lifted(a.last(), b.last(), m, uses, fg)))
}

/// `b` is the body `a` of a function that declares `g` global, rewritten:
/// each `global` statement names its names under `m`, and the first one is
/// followed by the statements `name = lifted_name` for the lifted names of
/// `g` (see `init_statements`); every other statement is rewritten as
/// `stmt_lifted` says, with `g` as the function's `global` set.
pub open spec fn body_lifted(
    a: Seq<Stmt>,
    b: Seq<Stmt>,
    m: Map<Seq<char>, Seq<char>>,
    uses: Set<Seq<char>>,
    g: Seq<Seq<char>>,
) -> bool
    decreases a,
{
    if a.len() == 0 {
        b.len() == 0
    } else {
        let p = a.drop_last();
        match a.last() {
            Stmt::Global(names) => {
                let extra: int = if has_global(p) {
                    0
                } else {
                    lifted_among(g, m).len() as int
                };
                &&& b.len() >= 1 + extra
                &&& global_renamed(b[b.len() - 1 - extra], names@, m)
                &&& !has_global(p) ==> init_statements(
                    b.subrange(b.len() - extra, b.len() as int),
                    g,
                    m,
                )
                &&& body_lifted(p, b.subrange(0, b.len() - 1 - extra), m, uses, g)
            },
            s => b.len() >= 1 && stmt_lifted(s, b.last(), m, uses, Some(g)) && body_lifted(
                p,
                b.drop_last(),
                m,
                uses,
                g,
            ),
        }
    }
}

/// `b` is `a` with only its `global` statements renamed under `m`, looking
/// into the bodies of `if` and its clauses, `while`, `for` (and their
/// `else`), `with`, `try` (its handlers, `else` and `finally`) and nested
/// functions; all else unchanged.
pub open spec fn globals_only_renamed(a: Stmt, b: Stmt, m: Map<Seq<char>, Seq<char>>) -> bool
    decreases a,
{
    match a {
        Stmt::Global(names) => global_renamed(b, names@, m),
        Stmt::If { test, body, elif_else_clauses } => (b matches Stmt::If {
            test: t2,
            body: b2,
            elif_else_clauses: c2,
        } && t2 == test && all_globals_only_renamed(body@, b2@, m) && clauses_globals_only_renamed(
            elif_else_clauses@,
            c2@,
            m,
        )),
        Stmt::While { test, body, orelse } => (b matches Stmt::While {
            test: t2,
            body: b2,
            orelse: o2,
        } && t2 == test && all_globals_only_renamed(body@, b2@, m) && all_globals_only_renamed(
            orelse@,
            o2@,
            m,
        )),
        Stmt::For { target, iter, body, orelse } => (b matches Stmt::For {
            target: t2,
            iter: i2,
            body: b2,
            orelse: o2,
        } && t2 == target && i2 == iter && all_globals_only_renamed(body@, b2@, m)
            && all_globals_only_renamed(orelse@, o2@, m)),
        Stmt::With { items, body } => (b matches Stmt::With { items: i2, body: b2 } && i2 == items
            && all_globals_only_renamed(body@, b2@, m)),
        Stmt::Try { body, handlers, orelse, finalbody } => (b matches Stmt::Try {
            body: b2,
            handlers: h2,
            orelse: o2,
            finalbody: f2,
        } && all_globals_only_renamed(body@, b2@, m) && handlers_globals_only_renamed(
            handlers@,
            h2@,
            m,
        ) && all_globals_only_renamed(orelse@, o2@, m) && all_globals_only_renamed(
            finalbody@,
            f2@,
            m,
        )),
        Stmt::FunctionDef { name, decorators, parameters, return_type, body } => (b matches Stmt::FunctionDef {
            name: n2,
            decorators: d2,
            parameters: p2,
            return_type: r2,
            body: b2,
        } && n2 == name && d2 == decorators && p2 == parameters && r2 == return_type
            && all_globals_only_renamed(body@, b2@, m)),
        _ => b == a,
    }
}

pub open spec fn all_globals_only_renamed(a: Seq<Stmt>, b: Seq<Stmt>, m: Map<Seq<char>, Seq<char>>) -> bool
    decreases a,
{
    a.len() == b.len() && (a.len() == 0 || (all_globals_only_renamed(a.drop_last(), b.drop_last(), m)
        && globals_only_renamed(a.last(), b.last(), m)))
}

pub open spec fn clauses_globals_only_renamed(
    a: Seq<ElifElseClause>,
    b: Seq<ElifElseClause>,
    m: Map<Seq<char>, Seq<char>>,
) -> bool
    decreases a,
{
    a.len() == b.len() && (a.len() == 0 || (clauses_globals_only_renamed(
        a.drop_last(),
        b.drop_last(),
        m,
    ) && b.last().test == a.last().test && all_globals_only_renamed(
        a.last().body@,
        b.last().body@,
        m,
    )))
}

pub open spec fn handlers_globals_only_renamed(
    a: Seq<ExceptHandler>,
    b: Seq<ExceptHandler>,
    m: Map<Seq<char>, Seq<char>>,
) -> bool
    decreases a,
{
    a.len() == b.len() && (a.len() == 0 || (handlers_globals_only_renamed(
        a.drop_last(),
        b.drop_last(),
        m,
    ) && b.last().type_ == a.last().type_ && b.last().name == a.last().name
        && all_globals_only_renamed(a.last().body@, b.last().body@, m)))
}

impl HybridStaticBundler {
    /// `expr` with each name that the enclosing function declares `global`
    /// (`in_function_with_globals`) and that is lifted replaced by its
    /// bundle-wide name (see `expr_lifted`).
    pub fn transform_expr_for_lifted_globals(
        &self,
        expr: Expr,
        lifted_names: &NameMap,
        in_function_with_globals: Option<&IndexSet<String>>,
    ) -> (r: Expr)
        ensures
            expr_lifted(expr, r, name_map_entries(*lifted_names), opt_items(in_function_with_globals)),
        decreases expr,
    {
        match expr {
            Expr::Name { id, ctx } => {
                let new_id = match in_function_with_globals {
                    Some(g) => if index_set_contains(g, id.as_str()) {
                        match name_map_get(lifted_names, id.as_str()) {
                            Some(lifted) => copy_string(lifted),
                            None => id,
                        }
                    } else {
                        id
                    },
                    None => id,
                };
                Expr::Name { id: new_id, ctx }
            },
            Expr::Call { func, args, keywords } => Expr::Call {
                func: Box::new(
                    self.transform_expr_for_lifted_globals(*func, lifted_names, in_function_with_globals),
                ),
                args: self.transform_exprs_for_lifted_globals(args, lifted_names, in_function_with_globals),
                keywords,
            },
            Expr::Attribute { value, attr, ctx } => Expr::Attribute {
                value: Box::new(
                    self.transform_expr_for_lifted_globals(*value, lifted_names, in_function_with_globals),
                ),
                attr,
                ctx,
            },
            Expr::FString(parts) => Expr::FString(
                self.transform_exprs_for_lifted_globals(parts, lifted_names, in_function_with_globals),
            ),
            Expr::BinOp { left, op, right } => {
                let l = self.transform_expr_for_lifted_globals(*left, lifted_names, in_function_with_globals);
                let r = self.transform_expr_for_lifted_globals(*right, lifted_names, in_function_with_globals);
                Expr::BinOp { left: Box::new(l), op, right: Box::new(r) }
            },
            Expr::UnaryOp(operand) => Expr::UnaryOp(
                Box::new(
                    self.transform_expr_for_lifted_globals(*operand, lifted_names, in_function_with_globals),
                ),
            ),
            Expr::Compare { left, ops, comparators } => {
                let l = self.transform_expr_for_lifted_globals(*left, lifted_names, in_function_with_globals);
                Expr::Compare {
                    left: Box::new(l),
                    ops,
                    comparators: self.transform_exprs_for_lifted_globals(
                        comparators,
                        lifted_names,
                        in_function_with_globals,
                    ),
                }
            },
            Expr::Subscript { value, slice } => {
                let v = self.transform_expr_for_lifted_globals(*value, lifted_names, in_function_with_globals);
                let s = self.transform_expr_for_lifted_globals(*slice, lifted_names, in_function_with_globals);
                Expr::Subscript { value: Box::new(v), slice: Box::new(s) }
            },
            Expr::List(elts) => Expr::List(
                self.transform_exprs_for_lifted_globals(elts, lifted_names, in_function_with_globals),
            ),
            Expr::Tuple(elts) => Expr::Tuple(
                self.transform_exprs_for_lifted_globals(elts, lifted_names, in_function_with_globals),
            ),
            Expr::Dict(items) => Expr::Dict(
                self.transform_items_for_lifted_globals(items, lifted_names, in_function_with_globals),
            ),
            other => other,
        }
    }

    #[verifier::loop_isolation(false)]
    fn transform_exprs_for_lifted_globals(
        &self,
        exprs: Vec<Expr>,
        lifted_names: &NameMap,
        in_function_with_globals: Option<&IndexSet<String>>,
    ) -> (r: Vec<Expr>)
        ensures
            exprs_lifted(exprs@, r@, name_map_entries(*lifted_names), opt_items(in_function_with_globals)),
        decreases exprs,
    {
        let ghost orig = exprs;
        let ghost m = name_map_entries(*lifted_names);
        let ghost fg = opt_items(in_function_with_globals);
        let mut rest = exprs;
        let mut out: Vec<Expr> = Vec::new();
        let mut k: usize = 0;
        let n = rest.len();
        proof {
            assert(orig@.skip(0) =~= orig@);
        }
        while rest.len() > 0
            invariant
                n == orig@.len(),
                k <= orig@.len(),
                rest@ == orig@.skip(k as int),
                out@.len() == k,
                exprs_lifted(orig@.subrange(0, k as int), out@, m, fg),
            decreases rest.len(),
        {
            let e = rest.remove(0);
            proof {
                assert(e == orig@[k as int]);
                assert(decreases_to!(orig => orig@));
                assert(decreases_to!(orig@ => orig@[k as int]));
            }
            let ghost before = out@;
            let r = self.transform_expr_for_lifted_globals(e, lifted_names, in_function_with_globals);
            out.push(r);
            proof {
                let a = orig@.subrange(0, k + 1);
                assert(a.drop_last() =~= orig@.subrange(0, k as int));
                assert(out@.drop_last() =~= before);
                assert(orig@.skip(k + 1) =~= rest@);
            }
            k += 1;
        }
        proof {
            assert(orig@.subrange(0, k as int) =~= orig@);
        }
        out
    }

    #[verifier::loop_isolation(false)]
    fn transform_items_for_lifted_globals(
        &self,
        items: Vec<DictItem>,
        lifted_names: &NameMap,
        in_function_with_globals: Option<&IndexSet<String>>,
    ) -> (r: Vec<DictItem>)
        ensures
            items_lifted(items@, r@, name_map_entries(*lifted_names), opt_items(in_function_with_globals)),
        decreases items,
    {
        let ghost orig = items;
        let ghost m = name_map_entries(*lifted_names);
        let ghost fg = opt_items(in_function_with_globals);
        let mut rest = items;
        let mut out: Vec<DictItem> = Vec::new();
        let mut k: usize = 0;
        let n = rest.len();
        proof {
            assert(orig@.skip(0) =~= orig@);
        }
        while rest.len() > 0
            invariant
                n == orig@.len(),
                k <= orig@.len(),
                rest@ == orig@.skip(k as int),
                out@.len() == k,
                items_lifted(orig@.subrange(0, k as int), out@, m, fg),
            decreases rest.len(),
        {
            let item = rest.remove(0);
            let ghost item0 = item;
            proof {
                assert(item0 == orig@[k as int]);
                assert(decreases_to!(orig => orig@));
                assert(decreases_to!(orig@ => orig@[k as int]));
                assert(decreases_to!(orig@[k as int] => orig@[k as int].key));
                assert(decreases_to!(orig@[k as int] => orig@[k as int].value));
            }
            let DictItem { key, value } = item;
            let new_key = match key {
                Some(kx) => Some(self.transform_expr_for_lifted_globals(kx, lifted_names, in_function_with_globals)),
                None => None,
            };
            let ni = DictItem {
                key: new_key,
                value: self.transform_expr_for_lifted_globals(value, lifted_names, in_function_with_globals),
            };
            proof {
                assert(item_lifted(item0, ni, m, fg));
            }
            let ghost before = out@;
            out.push(ni);
            proof {
                let a = orig@.subrange(0, k + 1);
                assert(a.drop_last() =~= orig@.subrange(0, k as int));
                assert(a.last() == item0);
                assert(out@.drop_last() =~= before);
                assert(orig@.skip(k + 1) =~= rest@);
            }
            k += 1;
        }
        proof {
            assert(orig@.subrange(0, k as int) =~= orig@);
        }
        out
    }

    /// The names the `global` statements directly in `body` declare, each
    /// once, in order.
    pub fn collect_function_globals(&self, body: &Vec<Stmt>) -> (r: IndexSet<String>)
        ensures
            index_set_items(r) == insert_all(Seq::empty(), declared_globals(body@)),
    {
        let mut function_globals = index_set_new();
        let mut i: usize = 0;
        proof {
            assert(body@.subrange(0, 0) =~= Seq::<Stmt>::empty());
        }
        while i < body.len()
            invariant
                i <= body.len(),
                index_set_items(function_globals) == insert_all(
                    Seq::empty(),
                    declared_globals(body@.subrange(0, i as int)),
                ),
            decreases body.len() - i,
        {
            let ghost pre = declared_globals(body@.subrange(0, i as int));
            proof {
                let t = body@.subrange(0, i + 1);
                assert(t.drop_last() =~= body@.subrange(0, i as int));
                assert(t.last() == body@[i as int]);
            }
            if let Stmt::Global(names) = &body[i] {
                let mut j: usize = 0;
                proof {
                    assert(pre + views(names@).subrange(0, 0) =~= pre);
                }
                while j < names.len()
                    invariant
                        j <= names.len(),
                        index_set_items(function_globals) == insert_all(
                            Seq::empty(),
                            pre + views(names@).subrange(0, j as int),
                        ),
                    decreases names.len() - j,
                {
                    proof {
                        let t = pre + views(names@).subrange(0, j + 1);
                        assert(t.drop_last() =~= pre + views(names@).subrange(0, j as int));
                        assert(t.last() == names@[j as int]@);
                    }
                    let _ = index_set_insert(&mut function_globals, copy_string(&names[j]));
                    j += 1;
                }
                proof {
                    assert(views(names@).subrange(0, names@.len() as int) =~= views(names@));
                }
            } else {
                proof {
                    assert(declared_globals(body@.subrange(0, i + 1)) =~= pre);
                }
            }
            i += 1;
        }
        proof {
            assert(body@.subrange(0, body@.len() as int) =~= body@);
        }
        function_globals
    }

    /// For each name of the function's `global` set that is lifted, in
    /// order, the statement `name = lifted_name`.
    pub fn create_global_init_statements(
        &self,
        function_globals: &IndexSet<String>,
        lifted_names: &NameMap,
    ) -> (r: Vec<Stmt>)
        ensures
            init_statements(r@, index_set_items(*function_globals), name_map_entries(*lifted_names)),
    {
        let ghost m = name_map_entries(*lifted_names);
        let globals = index_set_to_vec(function_globals);
        let ghost g = views(globals@);
        let mut init_stmts: Vec<Stmt> = Vec::new();
        let mut i: usize = 0;
        while i < globals.len()
            invariant
                i <= globals.len(),
                g == views(globals@),
                m == name_map_entries(*lifted_names),
                init_statements(init_stmts@, g.subrange(0, i as int), m),
            decreases globals.len() - i,
        {
            let ghost pre = lifted_among(g.subrange(0, i as int), m);
            proof {
                let t = g.subrange(0, i + 1);
                assert(t.drop_last() =~= g.subrange(0, i as int));
                assert(t.last() == globals@[i as int]@);
            }
            let global_name = &globals[i];
            match name_map_get(lifted_names, global_name.as_str()) {
                Some(lifted) => {
                    let mut targets: Vec<Expr> = Vec::new();
                    targets.push(Expr::Name { id: copy_string(global_name), ctx: ExprContext::Store });
                    let stmt = Stmt::Assign {
                        targets,
                        value: Expr::Name { id: copy_string(lifted), ctx: ExprContext::Load },
                    };
                    let ghost before = init_stmts@;
                    init_stmts.push(stmt);
                    proof {
                        let names = lifted_among(g.subrange(0, i + 1), m);
                        assert(names =~= pre.push(global_name@));
                        assert forall|j: int| 0 <= j < init_stmts@.len() implies is_init_assignment(
                            #[trigger] init_stmts@[j],
                            names[j],
                            m[names[j]],
                        ) by {
                            if j < before.len() {
                                assert(init_stmts@[j] == before[j]);
                                assert(names[j] == pre[j]);
                            }
                        }
                    }
                },
                None => {
                    proof {
                        assert(lifted_among(g.subrange(0, i + 1), m) =~= pre);
                    }
                },
            }
            i += 1;
        }
        proof {
            assert(g.subrange(0, g.len() as int) =~= g);
        }
        init_stmts
    }
}

/// A `global` statement extends a rewritten function body by its renamed
/// form and, if it is the first, by the initialising statements.
proof fn lemma_body_lifted_global(
    prefix: Seq<Stmt>,
    s: Stmt,
    before: Seq<Stmt>,
    gs: Stmt,
    init: Seq<Stmt>,
    m: Map<Seq<char>, Seq<char>>,
    uses: Set<Seq<char>>,
    g: Seq<Seq<char>>,
)
    requires
        body_lifted(prefix, before, m, uses, g),
        s matches Stmt::Global(names) && global_renamed(gs, names@, m),
        init_statements(init, g, m),
    ensures
        body_lifted(
            prefix.push(s),
            before.push(gs) + if has_global(prefix) {
                Seq::<Stmt>::empty()
            } else {
                init
            },
            m,
            uses,
            g,
        ),
        has_global(prefix.push(s)),
{
    let a = prefix.push(s);
    let b = before.push(gs) + if has_global(prefix) {
        Seq::<Stmt>::empty()
    } else {
        init
    };
    let extra: int = if has_global(prefix) {
        0
    } else {
        lifted_among(g, m).len() as int
    };
    assert(a.drop_last() =~= prefix);
    assert(a.last() == s);
    assert(b.len() == before.len() + 1 + extra);
    assert(b[b.len() - 1 - extra] == gs);
    assert(b.subrange(0, b.len() - 1 - extra) =~= before);
    if !has_global(prefix) {
        assert(b.subrange(b.len() - extra, b.len() as int) =~= init);
    }
    assert(a[prefix.len() as int] is Global);
}

/// Any other statement extends a rewritten function body by its rewritten form.
proof fn lemma_body_lifted_other(
    prefix: Seq<Stmt>,
    s: Stmt,
    before: Seq<Stmt>,
    r: Stmt,
    m: Map<Seq<char>, Seq<char>>,
    uses: Set<Seq<char>>,
    g: Seq<Seq<char>>,
)
    requires
        body_lifted(prefix, before, m, uses, g),
        !(s is Global),
        stmt_lifted(s, r, m, uses, Some(g)),
    ensures
        body_lifted(prefix.push(s), before.push(r), m, uses, g),
        has_global(prefix.push(s)) == has_global(prefix),
{
    let a = prefix.push(s);
    assert(a.drop_last() =~= prefix);
    assert(a.last() == s);
    assert(before.push(r).drop_last() =~= before);
    if has_global(a) {
        let i = choose|i: int| 0 <= i < a.len() && #[trigger] a[i] is Global;
        assert(i < prefix.len());
        assert(prefix[i] is Global);
    }
    if has_global(prefix) {
        let i = choose|i: int| 0 <= i < prefix.len() && #[trigger] prefix[i] is Global;
        assert(a[i] is Global);
    }
}

impl HybridStaticBundler {
    /// Every statement of the module rewritten for its lifted globals, at
    /// module level (outside any function's `global` set).
    pub fn transform_ast_with_lifted_globals(
        &self,
        ast: ModModule,
        lifted_names: &NameMap,
        global_info: &ModuleGlobalInfo,
    ) -> (r: ModModule)
        ensures
            stmts_lifted(
                ast.body@,
                r.body@,
                name_map_entries(*lifted_names),
                name_set(global_info.functions_using_globals@),
                None,
            ),
    {
        let ModModule { body } = ast;
        ModModule { body: self.transform_stmts_for_lifted_globals(body, lifted_names, global_info, None) }
    }

    /// `stmt` rewritten for the lifted globals (see `stmt_lifted`).
    pub fn transform_stmt_for_lifted_globals(
        &self,
        stmt: Stmt,
        lifted_names: &NameMap,
        global_info: &ModuleGlobalInfo,
        current_function_globals: Option<&IndexSet<String>>,
    ) -> (r: Stmt)
        ensures
            stmt_lifted(
                stmt,
                r,
                name_map_entries(*lifted_names),
                name_set(global_info.functions_using_globals@),
                opt_items(current_function_globals),
            ),
        decreases stmt,
    {
        let fg = current_function_globals;
        match stmt {
            Stmt::FunctionDef { name, decorators, parameters, return_type, body } => {
                if contains_name(&global_info.functions_using_globals, name.as_str()) {
                    let function_globals = self.collect_function_globals(&body);
                    let init_stmts = self.create_global_init_statements(&function_globals, lifted_names);
                    let new_body = self.transform_function_body_for_lifted_globals(
                        body,
                        lifted_names,
                        global_info,
                        &function_globals,
                        init_stmts,
                    );
                    Stmt::FunctionDef { name, decorators, parameters, return_type, body: new_body }
                } else {
                    Stmt::FunctionDef { name, decorators, parameters, return_type, body }
                }
            },
            Stmt::Assign { targets, value } => {
                let t = self.transform_exprs_for_lifted_globals(targets, lifted_names, fg);
                let v = self.transform_expr_for_lifted_globals(value, lifted_names, fg);
                Stmt::Assign { targets: t, value: v }
            },
            Stmt::Expr(e) => Stmt::Expr(self.transform_expr_for_lifted_globals(e, lifted_names, fg)),
            Stmt::If { test, body, elif_else_clauses } => {
                let t = self.transform_expr_for_lifted_globals(test, lifted_names, fg);
                let b = self.transform_stmts_for_lifted_globals(body, lifted_names, global_info, fg);
                let c = self.transform_clauses_for_lifted_globals(elif_else_clauses, lifted_names, global_info, fg);
                Stmt::If { test: t, body: b, elif_else_clauses: c }
            },
            Stmt::While { test, body, orelse } => {
                let t = self.transform_expr_for_lifted_globals(test, lifted_names, fg);
                let b = self.transform_stmts_for_lifted_globals(body, lifted_names, global_info, fg);
                Stmt::While { test: t, body: b, orelse }
            },
            Stmt::For { target, iter, body, orelse } => {
                let t = self.transform_expr_for_lifted_globals(target, lifted_names, fg);
                let i = self.transform_expr_for_lifted_globals(iter, lifted_names, fg);
                let b = self.transform_stmts_for_lifted_globals(body, lifted_names, global_info, fg);
                Stmt::For { target: t, iter: i, body: b, orelse }
            },
            Stmt::Return(v) => Stmt::Return(
                match v {
                    Some(x) => Some(self.transform_expr_for_lifted_globals(x, lifted_names, fg)),
                    None => None,
                },
            ),
            other => other,
        }
    }

    #[verifier::loop_isolation(false)]
    fn transform_stmts_for_lifted_globals(
        &self,
        stmts: Vec<Stmt>,
        lifted_names: &NameMap,
        global_info: &ModuleGlobalInfo,
        current_function_globals: Option<&IndexSet<String>>,
    ) -> (r: Vec<Stmt>)
        ensures
            stmts_lifted(
                stmts@,
                r@,
                name_map_entries(*lifted_names),
                name_set(global_info.functions_using_globals@),
                opt_items(current_function_globals),
            ),
        decreases stmts,
    {
        let ghost orig = stmts;
        let ghost m = name_map_entries(*lifted_names);
        let ghost uses = name_set(global_info.functions_using_globals@);
        let ghost fg = opt_items(current_function_globals);
        let mut rest = stmts;
        let mut out: Vec<Stmt> = Vec::new();
        let mut k: usize = 0;
        let n = rest.len();
        proof {
            assert(orig@.skip(0) =~= orig@);
        }
        while rest.len() > 0
            invariant
                n == orig@.len(),
                k <= orig@.len(),
                rest@ == orig@.skip(k as int),
                out@.len() == k,
                stmts_lifted(orig@.subrange(0, k as int), out@, m, uses, fg),
            decreases rest.len(),
        {
            let s = rest.remove(0);
            proof {
                assert(s == orig@[k as int]);
                assert(decreases_to!(orig => orig@));
                assert(decreases_to!(orig@ => orig@[k as int]));
            }
            let ghost before = out@;
            let r = self.transform_stmt_for_lifted_globals(s, lifted_names, global_info, current_function_globals);
            out.push(r);
            proof {
                let a = orig@.subrange(0, k + 1);
                assert(a.drop_last() =~= orig@.subrange(0, k as int));
                assert(out@.drop_last() =~= before);
                assert(orig@.skip(k + 1) =~= rest@);
            }
            k += 1;
        }
        proof {
            assert(orig@.subrange(0, k as int) =~= orig@);
        }
        out
    }

    #[verifier::loop_isolation(false)]
    fn transform_clauses_for_lifted_globals(
        &self,
        clauses: Vec<ElifElseClause>,
        lifted_names: &NameMap,
        global_info: &ModuleGlobalInfo,
        current_function_globals: Option<&IndexSet<String>>,
    ) -> (r: Vec<ElifElseClause>)
        ensures
            clauses_lifted(
                clauses@,
                r@,
                name_map_entries(*lifted_names),
                name_set(global_info.functions_using_globals@),
                opt_items(current_function_globals),
            ),
        decreases clauses,
    {
        let ghost orig = clauses;
        let ghost m = name_map_entries(*lifted_names);
        let ghost uses = name_set(global_info.functions_using_globals@);
        let ghost fg = opt_items(current_function_globals);
        let mut rest = clauses;
        let mut out: Vec<ElifElseClause> = Vec::new();
        let mut k: usize = 0;
        let n = rest.len();
        proof {
            assert(orig@.skip(0) =~= orig@);
        }
        while rest.len() > 0
            invariant
                n == orig@.len(),
                k <= orig@.len(),
                rest@ == orig@.skip(k as int),
                out@.len() == k,
                clauses_lifted(orig@.subrange(0, k as int), out@, m, uses, fg),
            decreases rest.len(),
        {
            let c = rest.remove(0);
            let ghost c0 = c;
            proof {
                assert(c0 == orig@[k as int]);
                assert(decreases_to!(orig => orig@));
                assert(decreases_to!(orig@ => orig@[k as int]));
                assert(decreases_to!(orig@[k as int] => orig@[k as int].body));
            }
            let ElifElseClause { test, body } = c;
            let nc = ElifElseClause {
                test: match test {
                    Some(x) => Some(self.transform_expr_for_lifted_globals(x, lifted_names, current_function_globals)),
                    None => None,
                },
                body: self.transform_stmts_for_lifted_globals(body, lifted_names, global_info, current_function_globals),
            };
            proof {
                assert(clause_lifted(c0, nc, m, uses, fg));
            }
            let ghost before = out@;
            out.push(nc);
            proof {
                let a = orig@.subrange(0, k + 1);
                assert(a.drop_last() =~= orig@.subrange(0, k as int));
                assert(a.last() == c0);
                assert(out@.drop_last() =~= before);
                assert(orig@.skip(k + 1) =~= rest@);
            }
            k += 1;
        }
        proof {
            assert(orig@.subrange(0, k as int) =~= orig@);
        }
        out
    }

    /// The body of a function that declares `function_globals` global,
    /// rewritten (see `body_lifted`): `global` statements name the lifted
    /// names, the first is followed by `init_stmts`, and every other
    /// statement is rewritten with the function's `global` set.
    #[verifier::loop_isolation(false)]
    pub fn transform_function_body_for_lifted_globals(
        &self,
        body: Vec<Stmt>,
        lifted_names: &NameMap,
        global_info: &ModuleGlobalInfo,
        function_globals: &IndexSet<String>,
        init_stmts: Vec<Stmt>,
    ) -> (r: Vec<Stmt>)
        requires
            init_statements(init_stmts@, index_set_items(*function_globals), name_map_entries(*lifted_names)),
        ensures
            body_lifted(
                body@,
                r@,
                name_map_entries(*lifted_names),
                name_set(global_info.functions_using_globals@),
                index_set_items(*function_globals),
            ),
        decreases body,
    {
        let ghost orig = body;
        let ghost m = name_map_entries(*lifted_names);
        let ghost uses = name_set(global_info.functions_using_globals@);
        let ghost g = index_set_items(*function_globals);
        let ghost init = init_stmts@;
        let mut pending = init_stmts;
        let mut rest = body;
        let mut out: Vec<Stmt> = Vec::new();
        let mut k: usize = 0;
        let n = rest.len();
        proof {
            assert(orig@.skip(0) =~= orig@);
            assert(!has_global(orig@.subrange(0, 0)));
        }
        while rest.len() > 0
            invariant
                n == orig@.len(),
                k <= orig@.len(),
                rest@ == orig@.skip(k as int),
                body_lifted(orig@.subrange(0, k as int), out@, m, uses, g),
                has_global(orig@.subrange(0, k as int)) ==> pending@.len() == 0,
                !has_global(orig@.subrange(0, k as int)) ==> pending@ == init,
            decreases rest.len(),
        {
            let s = rest.remove(0);
            let ghost s0 = s;
            let ghost prefix = orig@.subrange(0, k as int);
            let ghost before = out@;
            proof {
                assert(s0 == orig@[k as int]);
                assert(decreases_to!(orig => orig@));
                assert(decreases_to!(orig@ => orig@[k as int]));
                let a = orig@.subrange(0, k + 1);
                assert(a.drop_last() =~= prefix);
                assert(a.last() == s0);
                assert(a =~= prefix.push(s0));
                assert(orig@.skip(k + 1) =~= rest@);
            }
            match s {
                Stmt::Global(names) => {
                    let gs = Stmt::Global(rename_names(&names, lifted_names));
                    let ghost gs0 = gs;
                    out.push(gs);
                    if pending.len() > 0 {
                        out.append(&mut pending);
                    }
                    proof {
                        assert(out@ =~= before.push(gs0) + if has_global(prefix) {
                            Seq::<Stmt>::empty()
                        } else {
                            init
                        });
                        lemma_body_lifted_global(prefix, s0, before, gs0, init, m, uses, g);
                    }
                },
                other => {
                    let r = self.transform_stmt_for_lifted_globals(
                        other,
                        lifted_names,
                        global_info,
                        Some(function_globals),
                    );
                    out.push(r);
                    proof {
                        lemma_body_lifted_other(prefix, s0, before, r, m, uses, g);
                    }
                },
            }
            k += 1;
        }
        proof {
            assert(orig@.subrange(0, k as int) =~= orig@);
        }
        out
    }

    /// `stmt` with only its `global` statements renamed under
    /// `alias_to_canonical` (see `globals_only_renamed`).
    pub fn rewrite_global_statements_only(&self, stmt: Stmt, alias_to_canonical: &NameMap) -> (r: Stmt)
        ensures
            globals_only_renamed(stmt, r, name_map_entries(*alias_to_canonical)),
        decreases stmt,
    {
        let m = alias_to_canonical;
        match stmt {
            Stmt::Global(names) => Stmt::Global(rename_names(&names, m)),
            Stmt::If { test, body, elif_else_clauses } => {
                let b = self.rewrite_global_statements_in_function(body, m);
                let c = self.rewrite_global_statements_in_clauses(elif_else_clauses, m);
                Stmt::If { test, body: b, elif_else_clauses: c }
            },
            Stmt::While { test, body, orelse } => {
                let b = self.rewrite_global_statements_in_function(body, m);
                let o = self.rewrite_global_statements_in_function(orelse, m);
                Stmt::While { test, body: b, orelse: o }
            },
            Stmt::For { target, iter, body, orelse } => {
                let b = self.rewrite_global_statements_in_function(body, m);
                let o = self.rewrite_global_statements_in_function(orelse, m);
                Stmt::For { target, iter, body: b, orelse: o }
            },
            Stmt::With { items, body } => {
                let b = self.rewrite_global_statements_in_function(body, m);
                Stmt::With { items, body: b }
            },
            Stmt::Try { body, handlers, orelse, finalbody } => {
                let b = self.rewrite_global_statements_in_function(body, m);
                let h = self.process_exception_handlers(handlers, m);
                let o = self.rewrite_global_statements_in_function(orelse, m);
                let f = self.rewrite_global_statements_in_function(finalbody, m);
                Stmt::Try { body: b, handlers: h, orelse: o, finalbody: f }
            },
            Stmt::FunctionDef { name, decorators, parameters, return_type, body } => {
                let b = self.rewrite_global_statements_in_function(body, m);
                Stmt::FunctionDef { name, decorators, parameters, return_type, body: b }
            },
            other => other,
        }
    }

    /// The statements of a function body with only their `global`
    /// statements renamed (see `globals_only_renamed`).
    #[verifier::loop_isolation(false)]
    pub fn rewrite_global_statements_in_function(
        &self,
        body: Vec<Stmt>,
        alias_to_canonical: &NameMap,
    ) -> (r: Vec<Stmt>)
        ensures
            all_globals_only_renamed(body@, r@, name_map_entries(*alias_to_canonical)),
        decreases body,
    {
        let ghost orig = body;
        let ghost m = name_map_entries(*alias_to_canonical);
        let mut rest = body;
        let mut out: Vec<Stmt> = Vec::new();
        let mut k: usize = 0;
        let n = rest.len();
        proof {
            assert(orig@.skip(0) =~= orig@);
        }
        while rest.len() > 0
            invariant
                n == orig@.len(),
                k <= orig@.len(),
                rest@ == orig@.skip(k as int),
                out@.len() == k,
                all_globals_only_renamed(orig@.subrange(0, k as int), out@, m),
            decreases rest.len(),
        {
            let s = rest.remove(0);
            proof {
                assert(s == orig@[k as int]);
                assert(decreases_to!(orig => orig@));
                assert(decreases_to!(orig@ => orig@[k as int]));
            }
            let ghost before = out@;
            let r = self.rewrite_global_statements_only(s, alias_to_canonical);
            out.push(r);
            proof {
                let a = orig@.subrange(0, k + 1);
                assert(a.drop_last() =~= orig@.subrange(0, k as int));
                assert(out@.drop_last() =~= before);
                assert(orig@.skip(k + 1) =~= rest@);
            }
            k += 1;
        }
        proof {
            assert(orig@.subrange(0, k as int) =~= orig@);
        }
        out
    }

    #[verifier::loop_isolation(false)]
    fn rewrite_global_statements_in_clauses(
        &self,
        clauses: Vec<ElifElseClause>,
        alias_to_canonical: &NameMap,
    ) -> (r: Vec<ElifElseClause>)
        ensures
            clauses_globals_only_renamed(clauses@, r@, name_map_entries(*alias_to_canonical)),
        decreases clauses,
    {
        let ghost orig = clauses;
        let ghost m = name_map_entries(*alias_to_canonical);
        let mut rest = clauses;
        let mut out: Vec<ElifElseClause> = Vec::new();
        let mut k: usize = 0;
        let n = rest.len();
        proof {
            assert(orig@.skip(0) =~= orig@);
        }
        while rest.len() > 0
            invariant
                n == orig@.len(),
                k <= orig@.len(),
                rest@ == orig@.skip(k as int),
                out@.len() == k,
                clauses_globals_only_renamed(orig@.subrange(0, k as int), out@, m),
            decreases rest.len(),
        {
            let c = rest.remove(0);
            let ghost c0 = c;
            proof {
                assert(c0 == orig@[k as int]);
                assert(decreases_to!(orig => orig@));
                assert(decreases_to!(orig@ => orig@[k as int]));
                assert(decreases_to!(orig@[k as int] => orig@[k as int].body));
            }
            let ElifElseClause { test, body } = c;
            let nc = ElifElseClause { test, body: self.rewrite_global_statements_in_function(body, alias_to_canonical) };
            let ghost before = out@;
            out.push(nc);
            proof {
                let a = orig@.subrange(0, k + 1);
                assert(a.drop_last() =~= orig@.subrange(0, k as int));
                assert(a.last() == c0);
                assert(out@.drop_last() =~= before);
                assert(out@.last() == nc);
                assert(orig@.skip(k + 1) =~= rest@);
            }
            k += 1;
        }
        proof {
            assert(orig@.subrange(0, k as int) =~= orig@);
        }
        out
    }

    /// The `except` clauses with only the `global` statements of their
    /// bodies renamed.
    #[verifier::loop_isolation(false)]
    pub fn process_exception_handlers(
        &self,
        handlers: Vec<ExceptHandler>,
        alias_to_canonical: &NameMap,
    ) -> (r: Vec<ExceptHandler>)
        ensures
            handlers_globals_only_renamed(handlers@, r@, name_map_entries(*alias_to_canonical)),
        decreases handlers,
    {
        let ghost orig = handlers;
        let ghost m = name_map_entries(*alias_to_canonical);
        let mut rest = handlers;
        let mut out: Vec<ExceptHandler> = Vec::new();
        let mut k: usize = 0;
        let n = rest.len();
        proof {
            assert(orig@.skip(0) =~= orig@);
        }
        while rest.len() > 0
            invariant
                n == orig@.len(),
                k <= orig@.len(),
                rest@ == orig@.skip(k as int),
                out@.len() == k,
                handlers_globals_only_renamed(orig@.subrange(0, k as int), out@, m),
            decreases rest.len(),
        {
            let h = rest.remove(0);
            let ghost h0 = h;
            proof {
                assert(h0 == orig@[k as int]);
                assert(decreases_to!(orig => orig@));
                assert(decreases_to!(orig@ => orig@[k as int]));
                assert(decreases_to!(orig@[k as int] => orig@[k as int].body));
            }
            let ExceptHandler { type_, name, body } = h;
            let nh = ExceptHandler {
                type_,
                name,
                body: self.rewrite_global_statements_in_function(body, alias_to_canonical),
            };
            let ghost before = out@;
            out.push(nh);
            proof {
                let a = orig@.subrange(0, k + 1);
                assert(a.drop_last() =~= orig@.subrange(0, k as int));
                assert(a.last() == h0);
                assert(out@.drop_last() =~= before);
                assert(out@.last() == nh);
                assert(orig@.skip(k + 1) =~= rest@);
            }
            k += 1;
        }
        proof {
            assert(orig@.subrange(0, k as int) =~= orig@);
        }
        out
    }
}

} // verus!
