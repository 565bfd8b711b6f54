//! Rewriting the names of a module's code: import aliases to the canonical
//! names they stand for (`j.dumps` to `json.dumps` after `import json as j`).
use vstd::prelude::*;

use crate::ast::{
    Comprehension, DictItem, ElifElseClause, ExceptHandler, Expr, Keyword, MatchCase, Parameter, Parameters,
    Stmt, WithItem,
};
use crate::code_generator::HybridStaticBundler;
use crate::collections::{name_map_entries, name_map_get, NameMap};
use crate::text::copy_string;

verus! {

/// `id` renamed by `m`: what `m` maps it to, else itself.
pub open spec fn renamed(id: Seq<char>, m: Map<Seq<char>, Seq<char>>) -> Seq<char> {
    if m.contains_key(id) {
        m[id]
    } else {
        id
    }
}

/// `b` is `a` with the aliases of `m` rewritten: every name read in `a`
/// renamed, through attributes, call functions, positional arguments and
/// keyword argument values, displays, operators, comparisons, conditional
/// expressions, list, set and dict comprehensions (their iterables and
/// conditions), subscripted values and name subscripts, slices, lambdas,
/// `yield`, `await` and starred expressions; everything else (keyword
/// names, f-strings, generator expressions, literals) unchanged.
pub open spec fn alias_rewritten(a: Expr, b: Expr, m: Map<Seq<char>, Seq<char>>) -> bool
    decreases a,
{
    match a {
        Expr::Name { id, ctx } => (b matches Expr::Name { id: id2, ctx: ctx2 } && id2@ == renamed(
            id@,
            m,
        ) && ctx2 == ctx),
        Expr::Attribute { value, attr, ctx } => (b matches Expr::Attribute {
            value: v2,
            attr: t2,
            ctx: c2,
        } && alias_rewritten(*value, *v2, m) && t2 == attr && c2 == ctx),
        Expr::Call { func, args, keywords } => (b matches Expr::Call {
            func: f2,
            args: a2,
            keywords: k2,
        } && alias_rewritten(*func, *f2, m) && aliases_rewritten(args@, a2@, m)
            && keywords_alias_rewritten(keywords@, k2@, m)),
        Expr::List(elts) => (b matches Expr::List(e2) && aliases_rewritten(elts@, e2@, m)),
        Expr::Tuple(elts) => (b matches Expr::Tuple(e2) && aliases_rewritten(elts@, e2@, m)),
        Expr::SetDisplay(elts) => (b matches Expr::SetDisplay(e2) && aliases_rewritten(
            elts@,
            e2@,
            m,
        )),
        Expr::BoolOp(values) => (b matches Expr::BoolOp(v2) && aliases_rewritten(values@, v2@, m)),
        Expr::Dict(items) => (b matches Expr::Dict(i2) && items_alias_rewritten(items@, i2@, m)),
        Expr::BinOp { left, op, right } => (b matches Expr::BinOp { left: l2, op: o2, right: r2 } && o2 == op
            && alias_rewritten(*left, *l2, m) && alias_rewritten(*right, *r2, m)),
        Expr::UnaryOp(operand) => (b matches Expr::UnaryOp(o2) && alias_rewritten(
            *operand,
            *o2,
            m,
        )),
        Expr::Compare { left, ops, comparators } => (b matches Expr::Compare {
            left: l2,
            ops: o2,
            comparators: c2,
        } && o2@ == ops@ && alias_rewritten(*left, *l2, m) && aliases_rewritten(comparators@, c2@, m)),
        Expr::IfExp { test, body, orelse } => (b matches Expr::IfExp {
            test: t2,
            body: b2,
            orelse: o2,
        } && alias_rewritten(*test, *t2, m) && alias_rewritten(*body, *b2, m) && alias_rewritten(
            *orelse,
            *o2,
            m,
        )),
        Expr::ListComp { elt, generators } => (b matches Expr::ListComp {
            elt: e2,
            generators: g2,
        } && alias_rewritten(*elt, *e2, m) && generators_alias_rewritten(generators@, g2@, m)),
        Expr::SetComp { elt, generators } => (b matches Expr::SetComp { elt: e2, generators: g2 }
            && alias_rewritten(*elt, *e2, m) && generators_alias_rewritten(generators@, g2@, m)),
        Expr::DictComp { key, value, generators } => (b matches Expr::DictComp {
            key: k2,
            value: v2,
            generators: g2,
        } && alias_rewritten(*key, *k2, m) && alias_rewritten(*value, *v2, m)
            && generators_alias_rewritten(generators@, g2@, m)),
        Expr::Subscript { value, slice } => (b matches Expr::Subscript { value: v2, slice: s2 }
            && alias_rewritten(*value, *v2, m) && if (*slice) is Name {
            alias_rewritten(*slice, *s2, m)
        } else {
            s2 == slice
        }),
        Expr::Slice { lower, upper, step } => (b matches Expr::Slice {
            lower: l2,
            upper: u2,
            step: s2,
        } && opt_alias_rewritten(lower, l2, m) && opt_alias_rewritten(upper, u2, m)
            && opt_alias_rewritten(step, s2, m)),
        Expr::Lambda(body) => (b matches Expr::Lambda(b2) && alias_rewritten(*body, *b2, m)),
        Expr::Yield(value) => (b matches Expr::Yield(v2) && opt_alias_rewritten(value, v2, m)),
        Expr::YieldFrom(value) => (b matches Expr::YieldFrom(v2) && alias_rewritten(
            *value,
            *v2,
            m,
        )),
        Expr::Await(value) => (b matches Expr::Await(v2) && alias_rewritten(*value, *v2, m)),
        Expr::Starred(value) => (b matches Expr::Starred(v2) && alias_rewritten(*value, *v2, m)),
        _ => b == a,
    }
}

/// Element by element, `b` is `a` with the aliases of `m` rewritten.
pub open spec fn aliases_rewritten(a: Seq<Expr>, b: Seq<Expr>, m: Map<Seq<char>, Seq<char>>) -> bool
    decreases a,
{
    a.len() == b.len() && (a.len() == 0 || (aliases_rewritten(a.drop_last(), b.drop_last(), m)
        && alias_rewritten(a.last(), b.last(), m)))
}

pub open spec fn opt_alias_rewritten(
    a: Option<Box<Expr>>,
    b: Option<Box<Expr>>,
    m: Map<Seq<char>, Seq<char>>,
) -> bool
    decreases a,
{
    match a {
        None => b is None,
        Some(x) => (b matches Some(y) && alias_rewritten(*x, *y, m)),
    }
}

pub open spec fn item_alias_rewritten(a: DictItem, b: DictItem, m: Map<Seq<char>, Seq<char>>) -> bool
    decreases a,
{
    (match a.key {
        None => b.key is None,
        Some(k) => (b.key matches Some(k2) && alias_rewritten(k, k2, m)),
    }) && alias_rewritten(a.value, b.value, m)
}

pub open spec fn items_alias_rewritten(
    a: Seq<DictItem>,
    b: Seq<DictItem>,
    m: Map<Seq<char>, Seq<char>>,
) -> bool
    decreases a,
{
    a.len() == b.len() && (a.len() == 0 || (items_alias_rewritten(a.drop_last(), b.drop_last(), m)
        && item_alias_rewritten(a.last(), b.last(), m)))
}

/// A keyword argument with its value rewritten (its name kept).
pub open spec fn keyword_alias_rewritten(a: Keyword, b: Keyword, m: Map<Seq<char>, Seq<char>>) -> bool
    decreases a,
{
    b.arg == a.arg && alias_rewritten(a.value, b.value, m)
}

pub open spec fn keywords_alias_rewritten(
    a: Seq<Keyword>,
    b: Seq<Keyword>,
    m: Map<Seq<char>, Seq<char>>,
) -> bool
    decreases a,
{
    a.len() == b.len() && (a.len() == 0 || (keywords_alias_rewritten(a.drop_last(), b.drop_last(), m)
        && keyword_alias_rewritten(a.last(), b.last(), m)))
}

/// A comprehension clause with its iterable and conditions rewritten.
pub open spec fn generator_alias_rewritten(
    a: Comprehension,
    b: Comprehension,
    m: Map<Seq<char>, Seq<char>>,
) -> bool
    decreases a,
{
    b.target == a.target && alias_rewritten(a.iter, b.iter, m) && aliases_rewritten(
        a.ifs@,
        b.ifs@,
        m,
    )
}

pub open spec fn generators_alias_rewritten(
    a: Seq<Comprehension>,
    b: Seq<Comprehension>,
    m: Map<Seq<char>, Seq<char>>,
) -> bool
    decreases a,
{
    a.len() == b.len() && (a.len() == 0 || (generators_alias_rewritten(
        a.drop_last(),
        b.drop_last(),
        m,
    ) && generator_alias_rewritten(a.last(), b.last(), m)))
}

/// `expr` with the aliases of `alias_to_canonical` rewritten to their
/// canonical names (see `alias_rewritten`).
pub fn rewrite_aliases_in_expr_impl(expr: Expr, alias_to_canonical: &NameMap) -> (r: Expr)
    ensures
        alias_rewritten(expr, r, name_map_entries(*alias_to_canonical)),
    decreases expr,
{
    match expr {
        Expr::Name { id, ctx } => match name_map_get(alias_to_canonical, id.as_str()) {
            Some(canonical) => Expr::Name { id: copy_string(canonical), ctx },
            None => Expr::Name { id, ctx },
        },
        Expr::Attribute { value, attr, ctx } => Expr::Attribute {
            value: Box::new(rewrite_aliases_in_expr_impl(*value, alias_to_canonical)),
            attr,
            ctx,
        },
        Expr::Call { func, args, keywords } => Expr::Call {
            func: Box::new(rewrite_aliases_in_expr_impl(*func, alias_to_canonical)),
            args: rewrite_alias_exprs(args, alias_to_canonical),
            keywords: rewrite_alias_keywords(keywords, alias_to_canonical),
        },
        Expr::List(elts) => Expr::List(rewrite_alias_exprs(elts, alias_to_canonical)),
        Expr::Tuple(elts) => Expr::Tuple(rewrite_alias_exprs(elts, alias_to_canonical)),
        Expr::SetDisplay(elts) => Expr::SetDisplay(rewrite_alias_exprs(elts, alias_to_canonical)),
        Expr::BoolOp(values) => Expr::BoolOp(rewrite_alias_exprs(values, alias_to_canonical)),
        Expr::Dict(items) => Expr::Dict(rewrite_alias_items(items, alias_to_canonical)),
        Expr::BinOp { left, op, right } => Expr::BinOp {
            op,
            left: Box::new(rewrite_aliases_in_expr_impl(*left, alias_to_canonical)),
            right: Box::new(rewrite_aliases_in_expr_impl(*right, alias_to_canonical)),
        },
        Expr::UnaryOp(operand) => Expr::UnaryOp(
            Box::new(rewrite_aliases_in_expr_impl(*operand, alias_to_canonical)),
        ),
        Expr::Compare { left, ops, comparators } => Expr::Compare {
            left: Box::new(rewrite_aliases_in_expr_impl(*left, alias_to_canonical)),
            ops,
            comparators: rewrite_alias_exprs(comparators, alias_to_canonical),
        },
        Expr::IfExp { test, body, orelse } => Expr::IfExp {
            test: Box::new(rewrite_aliases_in_expr_impl(*test, alias_to_canonical)),
            body: Box::new(rewrite_aliases_in_expr_impl(*body, alias_to_canonical)),
            orelse: Box::new(rewrite_aliases_in_expr_impl(*orelse, alias_to_canonical)),
        },
        Expr::ListComp { elt, generators } => Expr::ListComp {
            elt: Box::new(rewrite_aliases_in_expr_impl(*elt, alias_to_canonical)),
            generators: rewrite_alias_generators(generators, alias_to_canonical),
        },
        Expr::SetComp { elt, generators } => Expr::SetComp {
            elt: Box::new(rewrite_aliases_in_expr_impl(*elt, alias_to_canonical)),
            generators: rewrite_alias_generators(generators, alias_to_canonical),
        },
        Expr::DictComp { key, value, generators } => Expr::DictComp {
            key: Box::new(rewrite_aliases_in_expr_impl(*key, alias_to_canonical)),
            value: Box::new(rewrite_aliases_in_expr_impl(*value, alias_to_canonical)),
            generators: rewrite_alias_generators(generators, alias_to_canonical),
        },
        Expr::Subscript { value, slice } => {
            let new_value = Box::new(rewrite_aliases_in_expr_impl(*value, alias_to_canonical));
            let new_slice = match *slice {
                Expr::Name { id, ctx } => Box::new(
                    rewrite_aliases_in_expr_impl(Expr::Name { id, ctx }, alias_to_canonical),
                ),
                other => Box::new(other),
            };
            Expr::Subscript { value: new_value, slice: new_slice }
        },
        Expr::Slice { lower, upper, step } => Expr::Slice {
            lower: rewrite_alias_opt(lower, alias_to_canonical),
            upper: rewrite_alias_opt(upper, alias_to_canonical),
            step: rewrite_alias_opt(step, alias_to_canonical),
        },
        Expr::Lambda(body) => Expr::Lambda(
            Box::new(rewrite_aliases_in_expr_impl(*body, alias_to_canonical)),
        ),
        Expr::Yield(value) => Expr::Yield(rewrite_alias_opt(value, alias_to_canonical)),
        Expr::YieldFrom(value) => Expr::YieldFrom(
            Box::new(rewrite_aliases_in_expr_impl(*value, alias_to_canonical)),
        ),
        Expr::Await(value) => Expr::Await(
            Box::new(rewrite_aliases_in_expr_impl(*value, alias_to_canonical)),
        ),
        Expr::Starred(value) => Expr::Starred(
            Box::new(rewrite_aliases_in_expr_impl(*value, alias_to_canonical)),
        ),
        other => other,
    }
}

/// Each expression with its aliases rewritten.
#[verifier::loop_isolation(false)]
fn rewrite_alias_exprs(exprs: Vec<Expr>, alias_to_canonical: &NameMap) -> (r: Vec<Expr>)
    ensures
        aliases_rewritten(exprs@, r@, name_map_entries(*alias_to_canonical)),
    decreases exprs,
{
    let ghost orig = exprs;
    let ghost m = name_map_entries(*alias_to_canonical);
    let mut rest = exprs;
    let mut out: Vec<Expr> = Vec::new();
    let mut k: usize = 0;
    let n = rest.len();
    proof {
        assert(orig@.skip(0) =~= orig@);
    }
    while rest.len() > 0
        invariant
            n == orig@.len(),
            k <= orig@.len(),
            rest@ == orig@.skip(k as int),
            out@.len() == k,
            aliases_rewritten(orig@.subrange(0, k as int), out@, m),
            m == name_map_entries(*alias_to_canonical),
        decreases rest.len(),
    {
        let e = rest.remove(0);
        proof {
            assert(e == orig@[k as int]);
            assert(decreases_to!(orig => orig@));
            assert(decreases_to!(orig@ => orig@[k as int]));
        }
        let ghost before = out@;
        let r = rewrite_aliases_in_expr_impl(e, alias_to_canonical);
        out.push(r);
        proof {
            let a = orig@.subrange(0, k + 1);
            assert(a.drop_last() =~= orig@.subrange(0, k as int));
            assert(out@.drop_last() =~= before);
            assert(orig@.skip(k + 1) =~= rest@);
        }
        k += 1;
    }
    proof {
        assert(orig@.subrange(0, k as int) =~= orig@);
    }
    out
}

/// Each dict entry with its aliases rewritten.
#[verifier::loop_isolation(false)]
fn rewrite_alias_keywords(keywords: Vec<Keyword>, alias_to_canonical: &NameMap) -> (r: Vec<Keyword>)
    ensures
        keywords_alias_rewritten(keywords@, r@, name_map_entries(*alias_to_canonical)),
    decreases keywords,
{
    let ghost orig = keywords;
    let ghost m = name_map_entries(*alias_to_canonical);
    let mut rest = keywords;
    let mut out: Vec<Keyword> = Vec::new();
    let mut k: usize = 0;
    let n = rest.len();
    proof {
        assert(orig@.skip(0) =~= orig@);
    }
    while rest.len() > 0
        invariant
            n == orig@.len(),
            k <= orig@.len(),
            rest@ == orig@.skip(k as int),
            out@.len() == k,
            keywords_alias_rewritten(orig@.subrange(0, k as int), out@, m),
            m == name_map_entries(*alias_to_canonical),
        decreases rest.len(),
    {
        let kw = rest.remove(0);
        proof {
            assert(kw == orig@[k as int]);
            assert(decreases_to!(orig => orig@));
            assert(decreases_to!(orig@ => orig@[k as int]));
            assert(decreases_to!(orig@[k as int] => orig@[k as int].value));
        }
        let ghost kw0 = kw;
        let Keyword { arg, value } = kw;
        let new_kw = Keyword { arg, value: rewrite_aliases_in_expr_impl(value, alias_to_canonical) };
        let ghost before = out@;
        proof {
            assert(keyword_alias_rewritten(kw0, new_kw, m));
        }
        out.push(new_kw);
        proof {
            let a = orig@.subrange(0, k + 1);
            assert(a.last() == kw0);
            assert(out@.last() == new_kw);
            assert(a.drop_last() =~= orig@.subrange(0, k as int));
            assert(out@.drop_last() =~= before);
            assert(orig@.skip(k + 1) =~= rest@);
        }
        k += 1;
    }
    proof {
        assert(orig@.subrange(0, k as int) =~= orig@);
    }
    out
}

fn rewrite_alias_items(items: Vec<DictItem>, alias_to_canonical: &NameMap) -> (r: Vec<DictItem>)
    ensures
        items_alias_rewritten(items@, r@, name_map_entries(*alias_to_canonical)),
    decreases items,
{
    let ghost orig = items;
    let ghost m = name_map_entries(*alias_to_canonical);
    let mut rest = items;
    let mut out: Vec<DictItem> = Vec::new();
    let mut k: usize = 0;
    let n = rest.len();
    proof {
        assert(orig@.skip(0) =~= orig@);
    }
    while rest.len() > 0
        invariant
            n == orig@.len(),
            k <= orig@.len(),
            rest@ == orig@.skip(k as int),
            out@.len() == k,
            items_alias_rewritten(orig@.subrange(0, k as int), out@, m),
            orig == items,
            m == name_map_entries(*alias_to_canonical),
        decreases rest.len(),
    {
        let item = rest.remove(0);
        proof {
            assert(item == orig@[k as int]);
            assert(decreases_to!(orig => orig@));
            assert(decreases_to!(orig@ => orig@[k as int]));
            assert(decreases_to!(orig@[k as int] => orig@[k as int].key));
            assert(decreases_to!(orig@[k as int] => orig@[k as int].value));
        }
        let ghost item0 = item;
        let DictItem { key, value } = item;
        let new_key = match key {
            Some(kx) => Some(rewrite_aliases_in_expr_impl(kx, alias_to_canonical)),
            None => None,
        };
        let new_value = rewrite_aliases_in_expr_impl(value, alias_to_canonical);
        let ghost before = out@;
        let new_item = DictItem { key: new_key, value: new_value };
        proof {
            assert(item_alias_rewritten(item0, new_item, m));
        }
        out.push(new_item);
        proof {
            let a = orig@.subrange(0, k + 1);
            assert(a.last() == item0);
            assert(out@.last() == new_item);
            assert(a.drop_last() =~= orig@.subrange(0, k as int));
            assert(out@.drop_last() =~= before);
            assert(orig@.skip(k + 1) =~= rest@);
        }
        k += 1;
    }
    proof {
        assert(orig@.subrange(0, k as int) =~= orig@);
    }
    out
}

/// Each comprehension clause with its iterable and conditions rewritten.
#[verifier::loop_isolation(false)]
fn rewrite_alias_generators(gens: Vec<Comprehension>, alias_to_canonical: &NameMap) -> (r: Vec<
    Comprehension,
>)
    ensures
        generators_alias_rewritten(gens@, r@, name_map_entries(*alias_to_canonical)),
    decreases gens,
{
    let ghost orig = gens;
    let ghost m = name_map_entries(*alias_to_canonical);
    let mut rest = gens;
    let mut out: Vec<Comprehension> = Vec::new();
    let mut k: usize = 0;
    let n = rest.len();
    proof {
        assert(orig@.skip(0) =~= orig@);
    }
    while rest.len() > 0
        invariant
            n == orig@.len(),
            k <= orig@.len(),
            rest@ == orig@.skip(k as int),
            out@.len() == k,
            generators_alias_rewritten(orig@.subrange(0, k as int), out@, m),
            m == name_map_entries(*alias_to_canonical),
        decreases rest.len(),
    {
        let g = rest.remove(0);
        proof {
            assert(g == orig@[k as int]);
            assert(decreases_to!(orig => orig@));
            assert(decreases_to!(orig@ => orig@[k as int]));
            assert(decreases_to!(orig@[k as int] => orig@[k as int].iter));
            assert(decreases_to!(orig@[k as int] => orig@[k as int].ifs));
        }
        let ghost g0 = g;
        let Comprehension { target, iter, ifs } = g;
        let new_iter = rewrite_aliases_in_expr_impl(iter, alias_to_canonical);
        let new_ifs = rewrite_alias_exprs(ifs, alias_to_canonical);
        let ghost before = out@;
        let new_g = Comprehension { target, iter: new_iter, ifs: new_ifs };
        proof {
            assert(generator_alias_rewritten(g0, new_g, m));
        }
        out.push(new_g);
        proof {
            let a = orig@.subrange(0, k + 1);
            assert(a.last() == g0);
            assert(out@.last() == new_g);
            assert(a.drop_last() =~= orig@.subrange(0, k as int));
            assert(out@.drop_last() =~= before);
            assert(orig@.skip(k + 1) =~= rest@);
        }
        k += 1;
    }
    proof {
        assert(orig@.subrange(0, k as int) =~= orig@);
    }
    out
}

/// An optional expression with its aliases rewritten.
fn rewrite_alias_opt(e: Option<Box<Expr>>, alias_to_canonical: &NameMap) -> (r: Option<Box<Expr>>)
    ensures
        opt_alias_rewritten(e, r, name_map_entries(*alias_to_canonical)),
    decreases e,
{
    match e {
        Some(x) => Some(Box::new(rewrite_aliases_in_expr_impl(*x, alias_to_canonical))),
        None => None,
    }
}

// ---------------------------------------------------------------------------
// Statements
// ---------------------------------------------------------------------------

pub open spec fn opt_expr_rewritten(a: Option<Expr>, b: Option<Expr>, m: Map<Seq<char>, Seq<char>>) -> bool
    decreases a,
{
    match a {
        None => b is None,
        Some(x) => (b matches Some(y) && alias_rewritten(x, y, m)),
    }
}

/// `b` is `a` with the aliases of `m` rewritten in every expression it
/// evaluates and in every statement it holds: function parameter defaults
/// and bodies, class bases and bodies, tests, iterables, `with` contexts,
/// handlers, assignment targets and values, returned, raised, asserted and
/// deleted expressions, `global` names, type aliases and `match` subjects,
/// guards and bodies. Imports and anything else stay as they are.
pub open spec fn stmt_alias_rewritten(a: Stmt, b: Stmt, m: Map<Seq<char>, Seq<char>>) -> bool
    decreases a,
{
    match a {
        Stmt::FunctionDef { name, decorators, parameters, return_type, body } => (b matches Stmt::FunctionDef {
            name: n2,
            decorators: d2,
            parameters: p2,
            return_type: r2,
            body: b2,
        } && n2 == name && d2 == decorators && r2 == return_type && p2.posonlyargs
            == parameters.posonlyargs && p2.vararg == parameters.vararg && p2.kwonlyargs
            == parameters.kwonlyargs && p2.kwarg == parameters.kwarg && params_rewritten(
            parameters.args@,
            p2.args@,
            m,
        ) && stmts_alias_rewritten(body@, b2@, m)),
        Stmt::ClassDef { name, decorators, bases, keywords, body } => (b matches Stmt::ClassDef {
            name: n2,
            decorators: d2,
            bases: ba2,
            keywords: k2,
            body: b2,
        } && n2 == name && d2 == decorators && keywords_alias_rewritten(keywords@, k2@, m)
            && aliases_rewritten(bases@, ba2@, m) && stmts_alias_rewritten(body@, b2@, m)),
        Stmt::If { test, body, elif_else_clauses } => (b matches Stmt::If {
            test: t2,
            body: b2,
            elif_else_clauses: c2,
        } && alias_rewritten(test, t2, m) && stmts_alias_rewritten(body@, b2@, m)
            && clauses_rewritten(elif_else_clauses@, c2@, m)),
        Stmt::While { test, body, orelse } => (b matches Stmt::While {
            test: t2,
            body: b2,
            orelse: o2,
        } && alias_rewritten(test, t2, m) && stmts_alias_rewritten(body@, b2@, m)
            && stmts_alias_rewritten(orelse@, o2@, m)),
        Stmt::For { target, iter, body, orelse } => (b matches Stmt::For {
            target: ta2,
            iter: i2,
            body: b2,
            orelse: o2,
        } && ta2 == target && alias_rewritten(iter, i2, m) && stmts_alias_rewritten(body@, b2@, m)
            && stmts_alias_rewritten(orelse@, o2@, m)),
        Stmt::With { items, body } => (b matches Stmt::With { items: i2, body: b2 }
            && with_items_rewritten(items@, i2@, m) && stmts_alias_rewritten(body@, b2@, m)),
        Stmt::Try { body, handlers, orelse, finalbody } => (b matches Stmt::Try {
            body: b2,
            handlers: h2,
            orelse: o2,
            finalbody: f2,
        } && stmts_alias_rewritten(body@, b2@, m) && handlers_rewritten(handlers@, h2@, m)
            && stmts_alias_rewritten(orelse@, o2@, m) && stmts_alias_rewritten(
            finalbody@,
            f2@,
            m,
        )),
        Stmt::Assign { targets, value } => (b matches Stmt::Assign { targets: t2, value: v2 }
            && aliases_rewritten(targets@, t2@, m) && alias_rewritten(value, v2, m)),
        Stmt::AugAssign { target, value } => (b matches Stmt::AugAssign { target: t2, value: v2 }
            && alias_rewritten(target, t2, m) && alias_rewritten(value, v2, m)),
        Stmt::AnnAssign { target, annotation, value } => (b matches Stmt::AnnAssign {
            target: t2,
            annotation: a2,
            value: v2,
        } && alias_rewritten(target, t2, m) && a2 == annotation && opt_expr_rewritten(
            value,
            v2,
            m,
        )),
        Stmt::Expr(e) => (b matches Stmt::Expr(e2) && alias_rewritten(e, e2, m)),
        Stmt::Return(v) => (b matches Stmt::Return(v2) && opt_expr_rewritten(v, v2, m)),
        Stmt::Raise { exc, cause } => (b matches Stmt::Raise { exc: e2, cause: c2 }
            && opt_expr_rewritten(exc, e2, m) && opt_expr_rewritten(cause, c2, m)),
        Stmt::Assert { test, msg } => (b matches Stmt::Assert { test: t2, msg: m2 }
            && alias_rewritten(test, t2, m) && opt_expr_rewritten(msg, m2, m)),
        Stmt::Delete(targets) => (b matches Stmt::Delete(t2) && aliases_rewritten(
            targets@,
            t2@,
            m,
        )),
        Stmt::Global(names) => (b matches Stmt::Global(n2) && n2@.len() == names@.len() && forall|
            i: int,
        |
            0 <= i < names@.len() ==> (#[trigger] n2@[i])@ == renamed(names@[i]@, m)),
        Stmt::TypeAlias { value } => (b matches Stmt::TypeAlias { value: v2 } && alias_rewritten(
            value,
            v2,
            m,
        )),
        Stmt::Match { subject, cases } => (b matches Stmt::Match { subject: s2, cases: c2 }
            && alias_rewritten(subject, s2, m) && cases_rewritten(cases@, c2@, m)),
        _ => b == a,
    }
}

pub open spec fn stmts_alias_rewritten(a: Seq<Stmt>, b: Seq<Stmt>, m: Map<Seq<char>, Seq<char>>) -> bool
    decreases a,
{
    a.len() == b.len() && (a.len() == 0 || (stmts_alias_rewritten(a.drop_last(), b.drop_last(), m)
        && stmt_alias_rewritten(a.last(), b.last(), m)))
}

pub open spec fn param_rewritten(a: Parameter, b: Parameter, m: Map<Seq<char>, Seq<char>>) -> bool
    decreases a,
{
    b.name == a.name && b.annotation == a.annotation && opt_expr_rewritten(a.default, b.default, m)
}

pub open spec fn params_rewritten(a: Seq<Parameter>, b: Seq<Parameter>, m: Map<Seq<char>, Seq<char>>) -> bool
    decreases a,
{
    a.len() == b.len() && (a.len() == 0 || (params_rewritten(a.drop_last(), b.drop_last(), m)
        && param_rewritten(a.last(), b.last(), m)))
}

pub open spec fn clause_rewritten(
    a: ElifElseClause,
    b: ElifElseClause,
    m: Map<Seq<char>, Seq<char>>,
) -> bool
    decreases a,
{
    opt_expr_rewritten(a.test, b.test, m) && stmts_alias_rewritten(a.body@, b.body@, m)
}

pub open spec fn clauses_rewritten(
    a: Seq<ElifElseClause>,
    b: Seq<ElifElseClause>,
    m: Map<Seq<char>, Seq<char>>,
) -> bool
    decreases a,
{
    a.len() == b.len() && (a.len() == 0 || (clauses_rewritten(a.drop_last(), b.drop_last(), m)
        && clause_rewritten(a.last(), b.last(), m)))
}

pub open spec fn with_item_rewritten(a: WithItem, b: WithItem, m: Map<Seq<char>, Seq<char>>) -> bool
    decreases a,
{
    alias_rewritten(a.context_expr, b.context_expr, m) && b.optional_vars == a.optional_vars
}

pub open spec fn with_items_rewritten(a: Seq<WithItem>, b: Seq<WithItem>, m: Map<Seq<char>, Seq<char>>) -> bool
    decreases a,
{
    a.len() == b.len() && (a.len() == 0 || (with_items_rewritten(a.drop_last(), b.drop_last(), m)
        && with_item_rewritten(a.last(), b.last(), m)))
}

pub open spec fn handler_rewritten(
    a: ExceptHandler,
    b: ExceptHandler,
    m: Map<Seq<char>, Seq<char>>,
) -> bool
    decreases a,
{
    b.type_ == a.type_ && b.name == a.name && stmts_alias_rewritten(a.body@, b.body@, m)
}

pub open spec fn handlers_rewritten(
    a: Seq<ExceptHandler>,
    b: Seq<ExceptHandler>,
    m: Map<Seq<char>, Seq<char>>,
) -> bool
    decreases a,
{
    a.len() == b.len() && (a.len() == 0 || (handlers_rewritten(a.drop_last(), b.drop_last(), m)
        && handler_rewritten(a.last(), b.last(), m)))
}

pub open spec fn case_rewritten(a: MatchCase, b: MatchCase, m: Map<Seq<char>, Seq<char>>) -> bool
    decreases a,
{
    opt_expr_rewritten(a.guard, b.guard, m) && stmts_alias_rewritten(a.body@, b.body@, m)
}

pub open spec fn cases_rewritten(a: Seq<MatchCase>, b: Seq<MatchCase>, m: Map<Seq<char>, Seq<char>>) -> bool
    decreases a,
{
    a.len() == b.len() && (a.len() == 0 || (cases_rewritten(a.drop_last(), b.drop_last(), m)
        && case_rewritten(a.last(), b.last(), m)))
}

/// An optional expression with its aliases rewritten.
fn rewrite_opt_expr(e: Option<Expr>, alias_to_canonical: &NameMap) -> (r: Option<Expr>)
    ensures
        opt_expr_rewritten(e, r, name_map_entries(*alias_to_canonical)),
{
    match e {
        Some(x) => Some(rewrite_aliases_in_expr_impl(x, alias_to_canonical)),
        None => None,
    }
}

impl HybridStaticBundler {
    /// `stmt` with the aliases of `alias_to_canonical` rewritten to their
    /// canonical names (see `stmt_alias_rewritten`).
    pub fn rewrite_aliases_in_stmt(&self, stmt: Stmt, alias_to_canonical: &NameMap) -> (r: Stmt)
        ensures
            stmt_alias_rewritten(stmt, r, name_map_entries(*alias_to_canonical)),
        decreases stmt,
    {
        match stmt {
            Stmt::FunctionDef { name, decorators, parameters, return_type, body } => {
                let Parameters { posonlyargs, args, vararg, kwonlyargs, kwarg } = parameters;
                let new_args = self.rewrite_param_defaults(args, alias_to_canonical);
                Stmt::FunctionDef {
                    name,
                    decorators,
                    parameters: Parameters { posonlyargs, args: new_args, vararg, kwonlyargs, kwarg },
                    return_type,
                    body: self.rewrite_aliases_in_body(body, alias_to_canonical),
                }
            },
            Stmt::ClassDef { name, decorators, bases, keywords, body } => Stmt::ClassDef {
                name,
                decorators,
                bases: rewrite_alias_exprs(bases, alias_to_canonical),
                keywords: rewrite_alias_keywords(keywords, alias_to_canonical),
                body: self.rewrite_aliases_in_body(body, alias_to_canonical),
            },
            Stmt::If { test, body, elif_else_clauses } => Stmt::If {
                test: self.rewrite_aliases_in_expr(test, alias_to_canonical),
                body: self.rewrite_aliases_in_body(body, alias_to_canonical),
                elif_else_clauses: self.rewrite_aliases_in_clauses(elif_else_clauses, alias_to_canonical),
            },
            Stmt::While { test, body, orelse } => Stmt::While {
                test: self.rewrite_aliases_in_expr(test, alias_to_canonical),
                body: self.rewrite_aliases_in_body(body, alias_to_canonical),
                orelse: self.rewrite_aliases_in_body(orelse, alias_to_canonical),
            },
            Stmt::For { target, iter, body, orelse } => Stmt::For {
                target,
                iter: self.rewrite_aliases_in_expr(iter, alias_to_canonical),
                body: self.rewrite_aliases_in_body(body, alias_to_canonical),
                orelse: self.rewrite_aliases_in_body(orelse, alias_to_canonical),
            },
            Stmt::With { items, body } => Stmt::With {
                items: self.rewrite_aliases_in_with_items(items, alias_to_canonical),
                body: self.rewrite_aliases_in_body(body, alias_to_canonical),
            },
            Stmt::Try { body, handlers, orelse, finalbody } => Stmt::Try {
                body: self.rewrite_aliases_in_body(body, alias_to_canonical),
                handlers: self.rewrite_aliases_in_handlers(handlers, alias_to_canonical),
                orelse: self.rewrite_aliases_in_body(orelse, alias_to_canonical),
                finalbody: self.rewrite_aliases_in_body(finalbody, alias_to_canonical),
            },
            Stmt::Assign { targets, value } => Stmt::Assign {
                targets: rewrite_alias_exprs(targets, alias_to_canonical),
                value: self.rewrite_aliases_in_expr(value, alias_to_canonical),
            },
            Stmt::AugAssign { target, value } => Stmt::AugAssign {
                target: self.rewrite_aliases_in_expr(target, alias_to_canonical),
                value: self.rewrite_aliases_in_expr(value, alias_to_canonical),
            },
            Stmt::AnnAssign { target, annotation, value } => Stmt::AnnAssign {
                target: self.rewrite_aliases_in_expr(target, alias_to_canonical),
                annotation,
                value: rewrite_opt_expr(value, alias_to_canonical),
            },
            Stmt::Expr(e) => Stmt::Expr(self.rewrite_aliases_in_expr(e, alias_to_canonical)),
            Stmt::Return(v) => Stmt::Return(rewrite_opt_expr(v, alias_to_canonical)),
            Stmt::Raise { exc, cause } => Stmt::Raise {
                exc: rewrite_opt_expr(exc, alias_to_canonical),
                cause: rewrite_opt_expr(cause, alias_to_canonical),
            },
            Stmt::Assert { test, msg } => Stmt::Assert {
                test: self.rewrite_aliases_in_expr(test, alias_to_canonical),
                msg: rewrite_opt_expr(msg, alias_to_canonical),
            },
            Stmt::Delete(targets) => Stmt::Delete(rewrite_alias_exprs(targets, alias_to_canonical)),
            Stmt::Global(names) => Stmt::Global(rename_names(&names, alias_to_canonical)),
            Stmt::TypeAlias { value } => Stmt::TypeAlias {
                value: self.rewrite_aliases_in_expr(value, alias_to_canonical),
            },
            Stmt::Match { subject, cases } => Stmt::Match {
                subject: self.rewrite_aliases_in_expr(subject, alias_to_canonical),
                cases: self.rewrite_aliases_in_cases(cases, alias_to_canonical),
            },
            other => other,
        }
    }

    /// `expr` with its aliases rewritten.
    pub fn rewrite_aliases_in_expr(&self, expr: Expr, alias_to_canonical: &NameMap) -> (r: Expr)
        ensures
            alias_rewritten(expr, r, name_map_entries(*alias_to_canonical)),
    {
        rewrite_aliases_in_expr_impl(expr, alias_to_canonical)
    }

    /// Each statement with its aliases rewritten.
    #[verifier::loop_isolation(false)]
    fn rewrite_aliases_in_body(&self, stmts: Vec<Stmt>, alias_to_canonical: &NameMap) -> (r: Vec<Stmt>)
        ensures
            stmts_alias_rewritten(stmts@, r@, name_map_entries(*alias_to_canonical)),
        decreases stmts,
    {
        let ghost orig = stmts;
        let ghost m = name_map_entries(*alias_to_canonical);
        let mut rest = stmts;
        let mut out: Vec<Stmt> = Vec::new();
        let mut k: usize = 0;
        let n = rest.len();
        proof {
            assert(orig@.skip(0) =~= orig@);
        }
        while rest.len() > 0
            invariant
                n == orig@.len(),
                k <= orig@.len(),
                rest@ == orig@.skip(k as int),
                out@.len() == k,
                stmts_alias_rewritten(orig@.subrange(0, k as int), out@, m),
                m == name_map_entries(*alias_to_canonical),
            decreases rest.len(),
        {
            let s = rest.remove(0);
            proof {
                assert(s == orig@[k as int]);
                assert(decreases_to!(orig => orig@));
                assert(decreases_to!(orig@ => orig@[k as int]));
            }
            let ghost before = out@;
            let r = self.rewrite_aliases_in_stmt(s, alias_to_canonical);
            out.push(r);
            proof {
                let a = orig@.subrange(0, k + 1);
                assert(a.drop_last() =~= orig@.subrange(0, k as int));
                assert(out@.drop_last() =~= before);
                assert(orig@.skip(k + 1) =~= rest@);
            }
            k += 1;
        }
        proof {
            assert(orig@.subrange(0, k as int) =~= orig@);
        }
        out
    }

    /// Each parameter with its default value's aliases rewritten.
    #[verifier::loop_isolation(false)]
    fn rewrite_param_defaults(&self, params: Vec<Parameter>, alias_to_canonical: &NameMap) -> (r: Vec<Parameter>)
        ensures
            params_rewritten(params@, r@, name_map_entries(*alias_to_canonical)),
    {
        let ghost orig = params;
        let ghost m = name_map_entries(*alias_to_canonical);
        let mut rest = params;
        let mut out: Vec<Parameter> = Vec::new();
        let mut k: usize = 0;
        let n = rest.len();
        proof {
            assert(orig@.skip(0) =~= orig@);
        }
        while rest.len() > 0
            invariant
                n == orig@.len(),
                k <= orig@.len(),
                rest@ == orig@.skip(k as int),
                out@.len() == k,
                params_rewritten(orig@.subrange(0, k as int), out@, m),
                m == name_map_entries(*alias_to_canonical),
            decreases rest.len(),
        {
            let p = rest.remove(0);
            let ghost p0 = p;
            let Parameter { name, annotation, default } = p;
            let np = Parameter { name, annotation, default: rewrite_opt_expr(default, alias_to_canonical) };
            proof {
                assert(p0 == orig@[k as int]);
                assert(param_rewritten(p0, np, m));
            }
            let ghost before = out@;
            out.push(np);
            proof {
                let a = orig@.subrange(0, k + 1);
                assert(a.drop_last() =~= orig@.subrange(0, k as int));
                assert(a.last() == p0);
                assert(out@.drop_last() =~= before);
                assert(orig@.skip(k + 1) =~= rest@);
            }
            k += 1;
        }
        proof {
            assert(orig@.subrange(0, k as int) =~= orig@);
        }
        out
    }

    /// Each `elif`/`else` clause with its aliases rewritten.
    #[verifier::loop_isolation(false)]
    fn rewrite_aliases_in_clauses(&self, clauses: Vec<ElifElseClause>, alias_to_canonical: &NameMap) -> (r: Vec<ElifElseClause>)
        ensures
            clauses_rewritten(clauses@, r@, name_map_entries(*alias_to_canonical)),
        decreases clauses,
    {
        let ghost orig = clauses;
        let ghost m = name_map_entries(*alias_to_canonical);
        let mut rest = clauses;
        let mut out: Vec<ElifElseClause> = Vec::new();
        let mut k: usize = 0;
        let n = rest.len();
        proof {
            assert(orig@.skip(0) =~= orig@);
        }
        while rest.len() > 0
            invariant
                n == orig@.len(),
                k <= orig@.len(),
                rest@ == orig@.skip(k as int),
                out@.len() == k,
                clauses_rewritten(orig@.subrange(0, k as int), out@, m),
                m == name_map_entries(*alias_to_canonical),
            decreases rest.len(),
        {
            let c = rest.remove(0);
            let ghost c0 = c;
            proof {
                assert(c0 == orig@[k as int]);
                assert(decreases_to!(orig => orig@));
                assert(decreases_to!(orig@ => orig@[k as int]));
                assert(decreases_to!(orig@[k as int] => orig@[k as int].body));
            }
            let ElifElseClause { test, body } = c;
            let nc = ElifElseClause {
                test: rewrite_opt_expr(test, alias_to_canonical),
                body: self.rewrite_aliases_in_body(body, alias_to_canonical),
            };
            proof {
                assert(clause_rewritten(c0, nc, m));
            }
            let ghost before = out@;
            out.push(nc);
            proof {
                let a = orig@.subrange(0, k + 1);
                assert(a.drop_last() =~= orig@.subrange(0, k as int));
                assert(a.last() == c0);
                assert(out@.drop_last() =~= before);
                assert(orig@.skip(k + 1) =~= rest@);
            }
            k += 1;
        }
        proof {
            assert(orig@.subrange(0, k as int) =~= orig@);
        }
        out
    }

    /// Each `with` item with its context expression's aliases rewritten.
    #[verifier::loop_isolation(false)]
    fn rewrite_aliases_in_with_items(&self, items: Vec<WithItem>, alias_to_canonical: &NameMap) -> (r: Vec<WithItem>)
        ensures
            with_items_rewritten(items@, r@, name_map_entries(*alias_to_canonical)),
    {
        let ghost orig = items;
        let ghost m = name_map_entries(*alias_to_canonical);
        let mut rest = items;
        let mut out: Vec<WithItem> = Vec::new();
        let mut k: usize = 0;
        let n = rest.len();
        proof {
            assert(orig@.skip(0) =~= orig@);
        }
        while rest.len() > 0
            invariant
                n == orig@.len(),
                k <= orig@.len(),
                rest@ == orig@.skip(k as int),
                out@.len() == k,
                with_items_rewritten(orig@.subrange(0, k as int), out@, m),
                m == name_map_entries(*alias_to_canonical),
            decreases rest.len(),
        {
            let w = rest.remove(0);
            let ghost w0 = w;
            let WithItem { context_expr, optional_vars } = w;
            let nw = WithItem {
                context_expr: rewrite_aliases_in_expr_impl(context_expr, alias_to_canonical),
                optional_vars,
            };
            proof {
                assert(w0 == orig@[k as int]);
                assert(with_item_rewritten(w0, nw, m));
            }
            let ghost before = out@;
            out.push(nw);
            proof {
                let a = orig@.subrange(0, k + 1);
                assert(a.drop_last() =~= orig@.subrange(0, k as int));
                assert(a.last() == w0);
                assert(out@.drop_last() =~= before);
                assert(orig@.skip(k + 1) =~= rest@);
            }
            k += 1;
        }
        proof {
            assert(orig@.subrange(0, k as int) =~= orig@);
        }
        out
    }

    /// Each `except` handler with its body's aliases rewritten.
    #[verifier::loop_isolation(false)]
    fn rewrite_aliases_in_handlers(&self, handlers: Vec<ExceptHandler>, alias_to_canonical: &NameMap) -> (r: Vec<ExceptHandler>)
        ensures
            handlers_rewritten(handlers@, r@, name_map_entries(*alias_to_canonical)),
        decreases handlers,
    {
        let ghost orig = handlers;
        let ghost m = name_map_entries(*alias_to_canonical);
        let mut rest = handlers;
        let mut out: Vec<ExceptHandler> = Vec::new();
        let mut k: usize = 0;
        let n = rest.len();
        proof {
            assert(orig@.skip(0) =~= orig@);
        }
        while rest.len() > 0
            invariant
                n == orig@.len(),
                k <= orig@.len(),
                rest@ == orig@.skip(k as int),
                out@.len() == k,
                handlers_rewritten(orig@.subrange(0, k as int), out@, m),
                m == name_map_entries(*alias_to_canonical),
            decreases rest.len(),
        {
            let h = rest.remove(0);
            let ghost h0 = h;
            proof {
                assert(h0 == orig@[k as int]);
                assert(decreases_to!(orig => orig@));
                assert(decreases_to!(orig@ => orig@[k as int]));
                assert(decreases_to!(orig@[k as int] => orig@[k as int].body));
            }
            let nh = self.rewrite_aliases_in_except_handler(h, alias_to_canonical);
            let ghost before = out@;
            out.push(nh);
            proof {
                let a = orig@.subrange(0, k + 1);
                assert(a.drop_last() =~= orig@.subrange(0, k as int));
                assert(a.last() == h0);
                assert(out@.drop_last() =~= before);
                assert(orig@.skip(k + 1) =~= rest@);
            }
            k += 1;
        }
        proof {
            assert(orig@.subrange(0, k as int) =~= orig@);
        }
        out
    }

    /// An `except` handler with its body's aliases rewritten.
    fn rewrite_aliases_in_except_handler(&self, handler: ExceptHandler, alias_to_canonical: &NameMap) -> (r: ExceptHandler)
        ensures
            handler_rewritten(handler, r, name_map_entries(*alias_to_canonical)),
        decreases handler,
    {
        let ExceptHandler { type_, name, body } = handler;
        ExceptHandler { type_, name, body: self.rewrite_aliases_in_body(body, alias_to_canonical) }
    }

    /// Each `case` clause with its guard's and body's aliases rewritten.
    #[verifier::loop_isolation(false)]
    fn rewrite_aliases_in_cases(&self, cases: Vec<MatchCase>, alias_to_canonical: &NameMap) -> (r: Vec<MatchCase>)
        ensures
            cases_rewritten(cases@, r@, name_map_entries(*alias_to_canonical)),
        decreases cases,
    {
        let ghost orig = cases;
        let ghost m = name_map_entries(*alias_to_canonical);
        let mut rest = cases;
        let mut out: Vec<MatchCase> = Vec::new();
        let mut k: usize = 0;
        let n = rest.len();
        proof {
            assert(orig@.skip(0) =~= orig@);
        }
        while rest.len() > 0
            invariant
                n == orig@.len(),
                k <= orig@.len(),
                rest@ == orig@.skip(k as int),
                out@.len() == k,
                cases_rewritten(orig@.subrange(0, k as int), out@, m),
                m == name_map_entries(*alias_to_canonical),
            decreases rest.len(),
        {
            let c = rest.remove(0);
            let ghost c0 = c;
            proof {
                assert(c0 == orig@[k as int]);
                assert(decreases_to!(orig => orig@));
                assert(decreases_to!(orig@ => orig@[k as int]));
                assert(decreases_to!(orig@[k as int] => orig@[k as int].body));
            }
            let MatchCase { guard, body } = c;
            let nc = MatchCase {
                guard: rewrite_opt_expr(guard, alias_to_canonical),
                body: self.rewrite_aliases_in_body(body, alias_to_canonical),
            };
            proof {
                assert(case_rewritten(c0, nc, m));
            }
            let ghost before = out@;
            out.push(nc);
            proof {
                let a = orig@.subrange(0, k + 1);
                assert(a.drop_last() =~= orig@.subrange(0, k as int));
                assert(a.last() == c0);
                assert(out@.drop_last() =~= before);
                assert(orig@.skip(k + 1) =~= rest@);
            }
            k += 1;
        }
        proof {
            assert(orig@.subrange(0, k as int) =~= orig@);
        }
        out
    }
}

/// Each name renamed by the map.
pub fn rename_names(names: &Vec<String>, renames: &NameMap) -> (r: Vec<String>)
    ensures
        r@.len() == names@.len(),
        forall|i: int| 0 <= i < names@.len() ==> (#[trigger] r@[i])@ == renamed(
            names@[i]@,
            name_map_entries(*renames),
        ),
{
    let mut out: Vec<String> = Vec::new();
    let mut i: usize = 0;
    while i < names.len()
        invariant
            i <= names.len(),
            out@.len() == i,
            forall|j: int| 0 <= j < i ==> (#[trigger] out@[j])@ == renamed(
                names@[j]@,
                name_map_entries(*renames),
            ),
        decreases names.len() - i,
    {
        match name_map_get(renames, names[i].as_str()) {
            Some(new_name) => out.push(copy_string(new_name)),
            None => out.push(copy_string(&names[i])),
        }
        i += 1;
    }
    out
}

} // verus!
