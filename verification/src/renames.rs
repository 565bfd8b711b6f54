//! Renaming a module's symbols when it is inlined into the bundle, and
//! turning its `globals()` calls into reads of its namespace's `__dict__`.
use vstd::prelude::*;

use crate::alias_rewrite::{rename_names, renamed};
use crate::ast::{Comprehension, DictItem, ElifElseClause, Expr, ExprContext, Keyword, Stmt};
use crate::code_generator::HybridStaticBundler;
use crate::collections::{name_map_entries, name_map_get, NameMap};
use crate::text::{copy_string, str_eq, to_string};

verus! {

// ---------------------------------------------------------------------------
// Renamed references
// ---------------------------------------------------------------------------

/// `b` is `a` with the names it reads renamed by `m`: through attributes,
/// calls (function, arguments and keyword values), f-string interpolations,
/// operators, comparisons, conditional expressions, displays, subscripts,
/// lambda bodies and comprehensions (their iterables and conditions);
/// everything else unchanged.
pub open spec fn refs_renamed(a: Expr, b: Expr, m: Map<Seq<char>, Seq<char>>) -> bool
    decreases a,
{
    match a {
        Expr::Name { id, ctx } => (b matches Expr::Name { id: id2, ctx: ctx2 } && id2@ == renamed(
            id@,
            m,
        ) && ctx2 == ctx),
        Expr::Attribute { value, attr, ctx } => (b matches Expr::Attribute {
            value: v2,
            attr: t2,
            ctx: c2,
        } && refs_renamed(*value, *v2, m) && t2 == attr && c2 == ctx),
        Expr::Call { func, args, keywords } => (b matches Expr::Call {
            func: f2,
            args: a2,
            keywords: k2,
        } && refs_renamed(*func, *f2, m) && all_refs_renamed(args@, a2@, m) && keywords_renamed(
            keywords@,
            k2@,
            m,
        )),
        Expr::FString(values) => (b matches Expr::FString(v2) && all_refs_renamed(values@, v2@, m)),
        Expr::BinOp { left, op, right } => (b matches Expr::BinOp { left: l2, op: o2, right: r2 } && o2 == op
            && refs_renamed(*left, *l2, m) && refs_renamed(*right, *r2, m)),
        Expr::Compare { left, ops, comparators } => (b matches Expr::Compare {
            left: l2,
            ops: o2,
            comparators: c2,
        } && o2@ == ops@ && refs_renamed(*left, *l2, m) && all_refs_renamed(comparators@, c2@, m)),
        Expr::BoolOp(values) => (b matches Expr::BoolOp(v2) && all_refs_renamed(values@, v2@, m)),
        Expr::UnaryOp(operand) => (b matches Expr::UnaryOp(o2) && refs_renamed(*operand, *o2, m)),
        Expr::IfExp { test, body, orelse } => (b matches Expr::IfExp {
            test: t2,
            body: b2,
            orelse: o2,
        } && refs_renamed(*test, *t2, m) && refs_renamed(*body, *b2, m) && refs_renamed(
            *orelse,
            *o2,
            m,
        )),
        Expr::Dict(items) => (b matches Expr::Dict(i2) && items_renamed(items@, i2@, m)),
        Expr::List(elts) => (b matches Expr::List(e2) && all_refs_renamed(elts@, e2@, m)),
        Expr::Tuple(elts) => (b matches Expr::Tuple(e2) && all_refs_renamed(elts@, e2@, m)),
        Expr::SetDisplay(elts) => (b matches Expr::SetDisplay(e2) && all_refs_renamed(
            elts@,
            e2@,
            m,
        )),
        Expr::Subscript { value, slice } => (b matches Expr::Subscript { value: v2, slice: s2 }
            && refs_renamed(*value, *v2, m) && refs_renamed(*slice, *s2, m)),
        Expr::Lambda(body) => (b matches Expr::Lambda(b2) && refs_renamed(*body, *b2, m)),
        Expr::ListComp { elt, generators } => (b matches Expr::ListComp {
            elt: e2,
            generators: g2,
        } && refs_renamed(*elt, *e2, m) && generators_renamed(generators@, g2@, m)),
        Expr::SetComp { elt, generators } => (b matches Expr::SetComp { elt: e2, generators: g2 }
            && refs_renamed(*elt, *e2, m) && generators_renamed(generators@, g2@, m)),
        Expr::Generator { elt, generators } => (b matches Expr::Generator {
            elt: e2,
            generators: g2,
        } && refs_renamed(*elt, *e2, m) && generators_renamed(generators@, g2@, m)),
        Expr::DictComp { key, value, generators } => (b matches Expr::DictComp {
            key: k2,
            value: v2,
            generators: g2,
        } && refs_renamed(*key, *k2, m) && refs_renamed(*value, *v2, m) && generators_renamed(
            generators@,
            g2@,
            m,
        )),
        _ => b == a,
    }
}

pub open spec fn all_refs_renamed(a: Seq<Expr>, b: Seq<Expr>, m: Map<Seq<char>, Seq<char>>) -> bool
    decreases a,
{
    a.len() == b.len() && (a.len() == 0 || (all_refs_renamed(a.drop_last(), b.drop_last(), m)
        && refs_renamed(a.last(), b.last(), m)))
}

pub open spec fn keyword_renamed(a: Keyword, b: Keyword, m: Map<Seq<char>, Seq<char>>) -> bool
    decreases a,
{
    b.arg == a.arg && refs_renamed(a.value, b.value, m)
}

pub open spec fn keywords_renamed(a: Seq<Keyword>, b: Seq<Keyword>, m: Map<Seq<char>, Seq<char>>) -> bool
    decreases a,
{
    a.len() == b.len() && (a.len() == 0 || (keywords_renamed(a.drop_last(), b.drop_last(), m)
        && keyword_renamed(a.last(), b.last(), m)))
}

pub open spec fn item_renamed(a: DictItem, b: DictItem, m: Map<Seq<char>, Seq<char>>) -> bool
    decreases a,
{
    (match a.key {
        None => b.key is None,
        Some(k) => (b.key matches Some(k2) && refs_renamed(k, k2, m)),
    }) && refs_renamed(a.value, b.value, m)
}

pub open spec fn items_renamed(a: Seq<DictItem>, b: Seq<DictItem>, m: Map<Seq<char>, Seq<char>>) -> bool
    decreases a,
{
    a.len() == b.len() && (a.len() == 0 || (items_renamed(a.drop_last(), b.drop_last(), m)
        && item_renamed(a.last(), b.last(), m)))
}

pub open spec fn generator_renamed(a: Comprehension, b: Comprehension, m: Map<Seq<char>, Seq<char>>) -> bool
    decreases a,
{
    b.target == a.target && refs_renamed(a.iter, b.iter, m) && all_refs_renamed(a.ifs@, b.ifs@, m)
}

pub open spec fn generators_renamed(
    a: Seq<Comprehension>,
    b: Seq<Comprehension>,
    m: Map<Seq<char>, Seq<char>>,
) -> bool
    decreases a,
{
    a.len() == b.len() && (a.len() == 0 || (generators_renamed(a.drop_last(), b.drop_last(), m)
        && generator_renamed(a.last(), b.last(), m)))
}

/// A plain-name assignment target renamed by `m`; other targets unchanged.
pub open spec fn target_renamed(a: Expr, b: Expr, m: Map<Seq<char>, Seq<char>>) -> bool {
    match a {
        Expr::Name { id, ctx } => (b matches Expr::Name { id: id2, ctx: ctx2 } && id2@ == renamed(
            id@,
            m,
        ) && ctx2 == ctx),
        _ => b == a,
    }
}

pub open spec fn targets_renamed(a: Seq<Expr>, b: Seq<Expr>, m: Map<Seq<char>, Seq<char>>) -> bool
    decreases a.len(),
{
    a.len() == b.len() && (a.len() == 0 || (targets_renamed(a.drop_last(), b.drop_last(), m)
        && target_renamed(a.last(), b.last(), m)))
}

pub open spec fn opt_refs_renamed(a: Option<Expr>, b: Option<Expr>, m: Map<Seq<char>, Seq<char>>) -> bool
    decreases a,
{
    match a {
        None => b is None,
        Some(x) => (b matches Some(y) && refs_renamed(x, y, m)),
    }
}

/// `b` is the statement `a` with the module's renamed symbols renamed:
/// expressions of expression statements, assignments (plain-name targets
/// and values), returns, `if`/`for`/`while` tests and iterables, nested
/// function and class bodies, and `global` names; the rest unchanged.
pub open spec fn stmt_renamed(a: Stmt, b: Stmt, m: Map<Seq<char>, Seq<char>>) -> bool
    decreases a,
{
    match a {
        Stmt::Expr(e) => (b matches Stmt::Expr(e2) && refs_renamed(e, e2, m)),
        Stmt::Assign { targets, value } => (b matches Stmt::Assign { targets: t2, value: v2 }
            && targets_renamed(targets@, t2@, m) && refs_renamed(value, v2, m)),
        Stmt::Return(v) => (b matches Stmt::Return(v2) && opt_refs_renamed(v, v2, m)),
        Stmt::If { test, body, elif_else_clauses } => (b matches Stmt::If {
            test: t2,
            body: b2,
            elif_else_clauses: c2,
        } && refs_renamed(test, t2, m) && stmts_renamed(body@, b2@, m) && clauses_renamed(
            elif_else_clauses@,
            c2@,
            m,
        )),
        Stmt::For { target, iter, body, orelse } => (b matches Stmt::For {
            target: ta2,
            iter: i2,
            body: b2,
            orelse: o2,
        } && ta2 == target && refs_renamed(iter, i2, m) && stmts_renamed(body@, b2@, m)
            && stmts_renamed(orelse@, o2@, m)),
        Stmt::While { test, body, orelse } => (b matches Stmt::While {
            test: t2,
            body: b2,
            orelse: o2,
        } && refs_renamed(test, t2, m) && stmts_renamed(body@, b2@, m) && stmts_renamed(
            orelse@,
            o2@,
            m,
        )),
        Stmt::FunctionDef { name, decorators, parameters, return_type, body } => (b matches Stmt::FunctionDef {
            name: n2,
            decorators: d2,
            parameters: p2,
            return_type: r2,
            body: b2,
        } && n2 == name && d2 == decorators && p2 == parameters && r2 == return_type
            && stmts_renamed(body@, b2@, m)),
        Stmt::ClassDef { name, decorators, bases, keywords, body } => (b matches Stmt::ClassDef {
            name: n2,
            decorators: d2,
            bases: ba2,
            keywords: k2,
            body: b2,
        } && n2 == name && d2 == decorators && ba2 == bases && k2 == keywords && stmts_renamed(
            body@,
            b2@,
            m,
        )),
        Stmt::Global(names) => (b matches Stmt::Global(n2) && n2@.len() == names@.len() && forall|
            i: int,
        |
            0 <= i < names@.len() ==> (#[trigger] n2@[i])@ == renamed(names@[i]@, m)),
        _ => b == a,
    }
}

pub open spec fn stmts_renamed(a: Seq<Stmt>, b: Seq<Stmt>, m: Map<Seq<char>, Seq<char>>) -> bool
    decreases a,
{
    a.len() == b.len() && (a.len() == 0 || (stmts_renamed(a.drop_last(), b.drop_last(), m)
        && stmt_renamed(a.last(), b.last(), m)))
}

pub open spec fn clause_renamed(a: ElifElseClause, b: ElifElseClause, m: Map<Seq<char>, Seq<char>>) -> bool
    decreases a,
{
    opt_refs_renamed(a.test, b.test, m) && stmts_renamed(a.body@, b.body@, m)
}

pub open spec fn clauses_renamed(
    a: Seq<ElifElseClause>,
    b: Seq<ElifElseClause>,
    m: Map<Seq<char>, Seq<char>>,
) -> bool
    decreases a,
{
    a.len() == b.len() && (a.len() == 0 || (clauses_renamed(a.drop_last(), b.drop_last(), m)
        && clause_renamed(a.last(), b.last(), m)))
}

impl HybridStaticBundler {
    /// `expr` with the names it reads renamed by `module_renames` (see `refs_renamed`).
    pub fn rename_references_in_expr(expr: Expr, module_renames: &NameMap) -> (r: Expr)
        ensures
            refs_renamed(expr, r, name_map_entries(*module_renames)),
        decreases expr,
    {
        match expr {
            Expr::Name { id, ctx } => match name_map_get(module_renames, id.as_str()) {
                Some(new_name) => Expr::Name { id: copy_string(new_name), ctx },
                None => Expr::Name { id, ctx },
            },
            Expr::Attribute { value, attr, ctx } => Expr::Attribute {
                value: Box::new(Self::rename_references_in_expr(*value, module_renames)),
                attr,
                ctx,
            },
            Expr::Call { func, args, keywords } => Expr::Call {
                func: Box::new(Self::rename_references_in_expr(*func, module_renames)),
                args: Self::rename_references_in_exprs(args, module_renames),
                keywords: Self::rename_references_in_keywords(keywords, module_renames),
            },
            Expr::FString(values) => Expr::FString(
                Self::rename_references_in_exprs(values, module_renames),
            ),
            Expr::BinOp { left, op, right } => Expr::BinOp {
                op,
                left: Box::new(Self::rename_references_in_expr(*left, module_renames)),
                right: Box::new(Self::rename_references_in_expr(*right, module_renames)),
            },
            Expr::Compare { left, ops, comparators } => Expr::Compare {
                left: Box::new(Self::rename_references_in_expr(*left, module_renames)),
                ops,
                comparators: Self::rename_references_in_exprs(comparators, module_renames),
            },
            Expr::BoolOp(values) => Expr::BoolOp(
                Self::rename_references_in_exprs(values, module_renames),
            ),
            Expr::UnaryOp(operand) => Expr::UnaryOp(
                Box::new(Self::rename_references_in_expr(*operand, module_renames)),
            ),
            Expr::IfExp { test, body, orelse } => Expr::IfExp {
                test: Box::new(Self::rename_references_in_expr(*test, module_renames)),
                body: Box::new(Self::rename_references_in_expr(*body, module_renames)),
                orelse: Box::new(Self::rename_references_in_expr(*orelse, module_renames)),
            },
            Expr::Dict(items) => Expr::Dict(Self::rename_references_in_items(items, module_renames)),
            Expr::List(elts) => Expr::List(Self::rename_references_in_exprs(elts, module_renames)),
            Expr::Tuple(elts) => Expr::Tuple(Self::rename_references_in_exprs(elts, module_renames)),
            Expr::SetDisplay(elts) => Expr::SetDisplay(
                Self::rename_references_in_exprs(elts, module_renames),
            ),
            Expr::Subscript { value, slice } => Expr::Subscript {
                value: Box::new(Self::rename_references_in_expr(*value, module_renames)),
                slice: Box::new(Self::rename_references_in_expr(*slice, module_renames)),
            },
            Expr::Lambda(body) => Expr::Lambda(
                Box::new(Self::rename_references_in_expr(*body, module_renames)),
            ),
            Expr::ListComp { elt, generators } => Expr::ListComp {
                elt: Box::new(Self::rename_references_in_expr(*elt, module_renames)),
                generators: Self::rename_references_in_generators(generators, module_renames),
            },
            Expr::SetComp { elt, generators } => Expr::SetComp {
                elt: Box::new(Self::rename_references_in_expr(*elt, module_renames)),
                generators: Self::rename_references_in_generators(generators, module_renames),
            },
            Expr::Generator { elt, generators } => Expr::Generator {
                elt: Box::new(Self::rename_references_in_expr(*elt, module_renames)),
                generators: Self::rename_references_in_generators(generators, module_renames),
            },
            Expr::DictComp { key, value, generators } => Expr::DictComp {
                key: Box::new(Self::rename_references_in_expr(*key, module_renames)),
                value: Box::new(Self::rename_references_in_expr(*value, module_renames)),
                generators: Self::rename_references_in_generators(generators, module_renames),
            },
            other => other,
        }
    }

    #[verifier::loop_isolation(false)]
    fn rename_references_in_exprs(exprs: Vec<Expr>, module_renames: &NameMap) -> (r: Vec<Expr>)
        ensures
            all_refs_renamed(exprs@, r@, name_map_entries(*module_renames)),
        decreases exprs,
    {
        let ghost orig = exprs;
        let ghost m = name_map_entries(*module_renames);
        let mut rest = exprs;
        let mut out: Vec<Expr> = Vec::new();
        let mut k: usize = 0;
        let n = rest.len();
        proof {
            assert(orig@.skip(0) =~= orig@);
        }
        while rest.len() > 0
            invariant
                n == orig@.len(),
                k <= orig@.len(),
                rest@ == orig@.skip(k as int),
                out@.len() == k,
                all_refs_renamed(orig@.subrange(0, k as int), out@, m),
                m == name_map_entries(*module_renames),
            decreases rest.len(),
        {
            let e = rest.remove(0);
            proof {
                assert(e == orig@[k as int]);
                assert(decreases_to!(orig => orig@));
                assert(decreases_to!(orig@ => orig@[k as int]));
            }
            let ghost before = out@;
            let r = Self::rename_references_in_expr(e, module_renames);
            out.push(r);
            proof {
                let a = orig@.subrange(0, k + 1);
                assert(a.drop_last() =~= orig@.subrange(0, k as int));
                assert(out@.drop_last() =~= before);
                assert(orig@.skip(k + 1) =~= rest@);
            }
            k += 1;
        }
        proof {
            assert(orig@.subrange(0, k as int) =~= orig@);
        }
        out
    }

    #[verifier::loop_isolation(false)]
    fn rename_references_in_keywords(kws: Vec<Keyword>, module_renames: &NameMap) -> (r: Vec<Keyword>)
        ensures
            keywords_renamed(kws@, r@, name_map_entries(*module_renames)),
        decreases kws,
    {
        let ghost orig = kws;
        let ghost m = name_map_entries(*module_renames);
        let mut rest = kws;
        let mut out: Vec<Keyword> = Vec::new();
        let mut k: usize = 0;
        let n = rest.len();
        proof {
            assert(orig@.skip(0) =~= orig@);
        }
        while rest.len() > 0
            invariant
                n == orig@.len(),
                k <= orig@.len(),
                rest@ == orig@.skip(k as int),
                out@.len() == k,
                keywords_renamed(orig@.subrange(0, k as int), out@, m),
                m == name_map_entries(*module_renames),
            decreases rest.len(),
        {
            let kw = rest.remove(0);
            let ghost kw0 = kw;
            proof {
                assert(kw0 == orig@[k as int]);
                assert(decreases_to!(orig => orig@));
                assert(decreases_to!(orig@ => orig@[k as int]));
                assert(decreases_to!(orig@[k as int] => orig@[k as int].value));
            }
            let Keyword { arg, value } = kw;
            let nk = Keyword { arg, value: Self::rename_references_in_expr(value, module_renames) };
            proof {
                assert(keyword_renamed(kw0, nk, m));
            }
            let ghost before = out@;
            out.push(nk);
            proof {
                let a = orig@.subrange(0, k + 1);
                assert(a.drop_last() =~= orig@.subrange(0, k as int));
                assert(a.last() == kw0);
                assert(out@.drop_last() =~= before);
                assert(orig@.skip(k + 1) =~= rest@);
            }
            k += 1;
        }
        proof {
            assert(orig@.subrange(0, k as int) =~= orig@);
        }
        out
    }

    #[verifier::loop_isolation(false)]
    fn rename_references_in_items(items: Vec<DictItem>, module_renames: &NameMap) -> (r: Vec<DictItem>)
        ensures
            items_renamed(items@, r@, name_map_entries(*module_renames)),
        decreases items,
    {
        let ghost orig = items;
        let ghost m = name_map_entries(*module_renames);
        let mut rest = items;
        let mut out: Vec<DictItem> = Vec::new();
        let mut k: usize = 0;
        let n = rest.len();
        proof {
            assert(orig@.skip(0) =~= orig@);
        }
        while rest.len() > 0
            invariant
                n == orig@.len(),
                k <= orig@.len(),
                rest@ == orig@.skip(k as int),
                out@.len() == k,
                items_renamed(orig@.subrange(0, k as int), out@, m),
                m == name_map_entries(*module_renames),
            decreases rest.len(),
        {
            let item = rest.remove(0);
            let ghost item0 = item;
            proof {
                assert(item0 == orig@[k as int]);
                assert(decreases_to!(orig => orig@));
                assert(decreases_to!(orig@ => orig@[k as int]));
                assert(decreases_to!(orig@[k as int] => orig@[k as int].key));
                assert(decreases_to!(orig@[k as int] => orig@[k as int].value));
            }
            let DictItem { key, value } = item;
            let new_key = match key {
                Some(kx) => Some(Self::rename_references_in_expr(kx, module_renames)),
                None => None,
            };
            let ni = DictItem { key: new_key, value: Self::rename_references_in_expr(value, module_renames) };
            proof {
                assert(item_renamed(item0, ni, m));
            }
            let ghost before = out@;
            out.push(ni);
            proof {
                let a = orig@.subrange(0, k + 1);
                assert(a.drop_last() =~= orig@.subrange(0, k as int));
                assert(a.last() == item0);
                assert(out@.drop_last() =~= before);
                assert(orig@.skip(k + 1) =~= rest@);
            }
            k += 1;
        }
        proof {
            assert(orig@.subrange(0, k as int) =~= orig@);
        }
        out
    }

    #[verifier::loop_isolation(false)]
    fn rename_references_in_generators(gens: Vec<Comprehension>, module_renames: &NameMap) -> (r: Vec<Comprehension>)
        ensures
            generators_renamed(gens@, r@, name_map_entries(*module_renames)),
        decreases gens,
    {
        let ghost orig = gens;
        let ghost m = name_map_entries(*module_renames);
        let mut rest = gens;
        let mut out: Vec<Comprehension> = Vec::new();
        let mut k: usize = 0;
        let n = rest.len();
        proof {
            assert(orig@.skip(0) =~= orig@);
        }
        while rest.len() > 0
            invariant
                n == orig@.len(),
                k <= orig@.len(),
                rest@ == orig@.skip(k as int),
                out@.len() == k,
                generators_renamed(orig@.subrange(0, k as int), out@, m),
                m == name_map_entries(*module_renames),
            decreases rest.len(),
        {
            let g = rest.remove(0);
            let ghost g0 = g;
            proof {
                assert(g0 == orig@[k as int]);
                assert(decreases_to!(orig => orig@));
                assert(decreases_to!(orig@ => orig@[k as int]));
                assert(decreases_to!(orig@[k as int] => orig@[k as int].iter));
                assert(decreases_to!(orig@[k as int] => orig@[k as int].ifs));
            }
            let Comprehension { target, iter, ifs } = g;
            let ng = Comprehension {
                target,
                iter: Self::rename_references_in_expr(iter, module_renames),
                ifs: Self::rename_references_in_exprs(ifs, module_renames),
            };
            proof {
                assert(generator_renamed(g0, ng, m));
            }
            let ghost before = out@;
            out.push(ng);
            proof {
                let a = orig@.subrange(0, k + 1);
                assert(a.drop_last() =~= orig@.subrange(0, k as int));
                assert(a.last() == g0);
                assert(out@.drop_last() =~= before);
                assert(orig@.skip(k + 1) =~= rest@);
            }
            k += 1;
        }
        proof {
            assert(orig@.subrange(0, k as int) =~= orig@);
        }
        out
    }

    /// `stmt` with the module's renamed symbols renamed (see `stmt_renamed`).
    pub fn transform_stmt_for_renames(&self, stmt: Stmt, module_renames: &NameMap) -> (r: Stmt)
        ensures
            stmt_renamed(stmt, r, name_map_entries(*module_renames)),
        decreases stmt,
    {
        match stmt {
            Stmt::Expr(e) => Stmt::Expr(Self::rename_references_in_expr(e, module_renames)),
            Stmt::Assign { targets, value } => Stmt::Assign {
                targets: Self::rename_assignment_targets(targets, module_renames),
                value: Self::rename_references_in_expr(value, module_renames),
            },
            Stmt::Return(v) => Stmt::Return(
                match v {
                    Some(x) => Some(Self::rename_references_in_expr(x, module_renames)),
                    None => None,
                },
            ),
            Stmt::If { test, body, elif_else_clauses } => Stmt::If {
                test: Self::rename_references_in_expr(test, module_renames),
                body: self.transform_body_for_renames(body, module_renames),
                elif_else_clauses: self.transform_clauses_for_renames(elif_else_clauses, module_renames),
            },
            Stmt::For { target, iter, body, orelse } => Stmt::For {
                target,
                iter: Self::rename_references_in_expr(iter, module_renames),
                body: self.transform_body_for_renames(body, module_renames),
                orelse: self.transform_body_for_renames(orelse, module_renames),
            },
            Stmt::While { test, body, orelse } => Stmt::While {
                test: Self::rename_references_in_expr(test, module_renames),
                body: self.transform_body_for_renames(body, module_renames),
                orelse: self.transform_body_for_renames(orelse, module_renames),
            },
            Stmt::FunctionDef { name, decorators, parameters, return_type, body } => Stmt::FunctionDef {
                name,
                decorators,
                parameters,
                return_type,
                body: self.transform_body_for_renames(body, module_renames),
            },
            Stmt::ClassDef { name, decorators, bases, keywords, body } => Stmt::ClassDef {
                name,
                decorators,
                bases,
                keywords,
                body: self.transform_body_for_renames(body, module_renames),
            },
            Stmt::Global(names) => Stmt::Global(rename_names(&names, module_renames)),
            other => other,
        }
    }

    /// Plain-name assignment targets renamed.
    fn rename_assignment_targets(targets: Vec<Expr>, module_renames: &NameMap) -> (r: Vec<Expr>)
        ensures
            targets_renamed(targets@, r@, name_map_entries(*module_renames)),
    {
        let ghost orig = targets;
        let ghost m = name_map_entries(*module_renames);
        let mut rest = targets;
        let mut out: Vec<Expr> = Vec::new();
        let mut k: usize = 0;
        let n = rest.len();
        proof {
            assert(orig@.skip(0) =~= orig@);
        }
        while rest.len() > 0
            invariant
                n == orig@.len(),
                k <= orig@.len(),
                rest@ == orig@.skip(k as int),
                out@.len() == k,
                targets_renamed(orig@.subrange(0, k as int), out@, m),
                m == name_map_entries(*module_renames),
            decreases rest.len(),
        {
            let t = rest.remove(0);
            let ghost t0 = t;
            let nt = match t {
                Expr::Name { id, ctx } => match name_map_get(module_renames, id.as_str()) {
                    Some(new_name) => Expr::Name { id: copy_string(new_name), ctx },
                    None => Expr::Name { id, ctx },
                },
                other => other,
            };
            proof {
                assert(t0 == orig@[k as int]);
                assert(target_renamed(t0, nt, m));
            }
            let ghost before = out@;
            out.push(nt);
            proof {
                let a = orig@.subrange(0, k + 1);
                assert(a.drop_last() =~= orig@.subrange(0, k as int));
                assert(a.last() == t0);
                assert(out@.drop_last() =~= before);
                assert(orig@.skip(k + 1) =~= rest@);
            }
            k += 1;
        }
        proof {
            assert(orig@.subrange(0, k as int) =~= orig@);
        }
        out
    }

    /// Each statement of a body with the module's renamed symbols renamed;
    /// a function's body this way is what renaming a nested function does.
    #[verifier::loop_isolation(false)]
    pub fn transform_body_for_renames(&self, stmts: Vec<Stmt>, module_renames: &NameMap) -> (r: Vec<Stmt>)
        ensures
            stmts_renamed(stmts@, r@, name_map_entries(*module_renames)),
        decreases stmts,
    {
        let ghost orig = stmts;
        let ghost m = name_map_entries(*module_renames);
        let mut rest = stmts;
        let mut out: Vec<Stmt> = Vec::new();
        let mut k: usize = 0;
        let n = rest.len();
        proof {
            assert(orig@.skip(0) =~= orig@);
        }
        while rest.len() > 0
            invariant
                n == orig@.len(),
                k <= orig@.len(),
                rest@ == orig@.skip(k as int),
                out@.len() == k,
                stmts_renamed(orig@.subrange(0, k as int), out@, m),
                m == name_map_entries(*module_renames),
            decreases rest.len(),
        {
            let s = rest.remove(0);
            proof {
                assert(s == orig@[k as int]);
                assert(decreases_to!(orig => orig@));
                assert(decreases_to!(orig@ => orig@[k as int]));
            }
            let ghost before = out@;
            let r = self.transform_stmt_for_renames(s, module_renames);
            out.push(r);
            proof {
                let a = orig@.subrange(0, k + 1);
                assert(a.drop_last() =~= orig@.subrange(0, k as int));
                assert(out@.drop_last() =~= before);
                assert(orig@.skip(k + 1) =~= rest@);
            }
            k += 1;
        }
        proof {
            assert(orig@.subrange(0, k as int) =~= orig@);
        }
        out
    }

    #[verifier::loop_isolation(false)]
    fn transform_clauses_for_renames(&self, clauses: Vec<ElifElseClause>, module_renames: &NameMap) -> (r: Vec<ElifElseClause>)
        ensures
            clauses_renamed(clauses@, r@, name_map_entries(*module_renames)),
        decreases clauses,
    {
        let ghost orig = clauses;
        let ghost m = name_map_entries(*module_renames);
        let mut rest = clauses;
        let mut out: Vec<ElifElseClause> = Vec::new();
        let mut k: usize = 0;
        let n = rest.len();
        proof {
            assert(orig@.skip(0) =~= orig@);
        }
        while rest.len() > 0
            invariant
                n == orig@.len(),
                k <= orig@.len(),
                rest@ == orig@.skip(k as int),
                out@.len() == k,
                clauses_renamed(orig@.subrange(0, k as int), out@, m),
                m == name_map_entries(*module_renames),
            decreases rest.len(),
        {
            let c = rest.remove(0);
            let ghost c0 = c;
            proof {
                assert(c0 == orig@[k as int]);
                assert(decreases_to!(orig => orig@));
                assert(decreases_to!(orig@ => orig@[k as int]));
                assert(decreases_to!(orig@[k as int] => orig@[k as int].body));
            }
            let ElifElseClause { test, body } = c;
            let nc = ElifElseClause {
                test: match test {
                    Some(x) => Some(Self::rename_references_in_expr(x, module_renames)),
                    None => None,
                },
                body: self.transform_body_for_renames(body, module_renames),
            };
            proof {
                assert(clause_renamed(c0, nc, m));
            }
            let ghost before = out@;
            out.push(nc);
            proof {
                let a = orig@.subrange(0, k + 1);
                assert(a.drop_last() =~= orig@.subrange(0, k as int));
                assert(a.last() == c0);
                assert(out@.drop_last() =~= before);
                assert(orig@.skip(k + 1) =~= rest@);
            }
            k += 1;
        }
        proof {
            assert(orig@.subrange(0, k as int) =~= orig@);
        }
        out
    }
}

// ---------------------------------------------------------------------------
// `globals()` inside a module's init function
// ---------------------------------------------------------------------------

/// `e` is the expression `module.__dict__` (reading).
pub open spec fn is_module_dict(e: Expr) -> bool {
    e matches Expr::Attribute { value, attr, ctx } && attr@ == "__dict__"@ && ctx
        == ExprContext::Load && (*value matches Expr::Name { id, ctx: c } && id@ == "module"@ && c
        == ExprContext::Load)
}

/// The call is `globals()` (no positional argument).
pub open spec fn is_globals_call(func: Expr, args: Seq<Expr>) -> bool {
    func matches Expr::Name { id, .. } && id@ == "globals"@ && args.len() == 0
}

/// `b` is `a` with its `globals()` calls replaced by `module.__dict__`,
/// looking through calls, attributes, subscripts, lists, dicts and
/// conditional expressions; everything else unchanged.
pub open spec fn globals_replaced(a: Expr, b: Expr) -> bool
    decreases a,
{
    match a {
        Expr::Call { func, args, keywords } => if is_globals_call(*func, args@) {
            is_module_dict(b)
        } else {
            b matches Expr::Call { func: f2, args: a2, keywords: k2 } && globals_replaced(*func, *f2)
                && all_globals_replaced(args@, a2@) && keywords_globals_replaced(keywords@, k2@)
        },
        Expr::Attribute { value, attr, ctx } => (b matches Expr::Attribute {
            value: v2,
            attr: t2,
            ctx: c2,
        } && globals_replaced(*value, *v2) && t2 == attr && c2 == ctx),
        Expr::Subscript { value, slice } => (b matches Expr::Subscript { value: v2, slice: s2 }
            && globals_replaced(*value, *v2) && globals_replaced(*slice, *s2)),
        Expr::List(elts) => (b matches Expr::List(e2) && all_globals_replaced(elts@, e2@)),
        Expr::Dict(items) => (b matches Expr::Dict(i2) && items_globals_replaced(items@, i2@)),
        Expr::IfExp { test, body, orelse } => (b matches Expr::IfExp {
            test: t2,
            body: b2,
            orelse: o2,
        } && globals_replaced(*test, *t2) && globals_replaced(*body, *b2) && globals_replaced(
            *orelse,
            *o2,
        )),
        _ => b == a,
    }
}

pub open spec fn all_globals_replaced(a: Seq<Expr>, b: Seq<Expr>) -> bool
    decreases a,
{
    a.len() == b.len() && (a.len() == 0 || (all_globals_replaced(a.drop_last(), b.drop_last())
        && globals_replaced(a.last(), b.last())))
}

pub open spec fn keywords_globals_replaced(a: Seq<Keyword>, b: Seq<Keyword>) -> bool
    decreases a,
{
    a.len() == b.len() && (a.len() == 0 || (keywords_globals_replaced(a.drop_last(), b.drop_last())
        && b.last().arg == a.last().arg && globals_replaced(a.last().value, b.last().value)))
}

pub open spec fn item_globals_replaced(a: DictItem, b: DictItem) -> bool
    decreases a,
{
    (match a.key {
        None => b.key is None,
        Some(k) => (b.key matches Some(k2) && globals_replaced(k, k2)),
    }) && globals_replaced(a.value, b.value)
}

pub open spec fn items_globals_replaced(a: Seq<DictItem>, b: Seq<DictItem>) -> bool
    decreases a,
{
    a.len() == b.len() && (a.len() == 0 || (items_globals_replaced(a.drop_last(), b.drop_last())
        && item_globals_replaced(a.last(), b.last())))
}

/// `b` is the statement `a` with `globals()` replaced in expression
/// statements, assignments (targets and value), returns, `if` tests and
/// bodies, and function bodies; the rest unchanged.
pub open spec fn stmt_globals_replaced(a: Stmt, b: Stmt) -> bool
    decreases a,
{
    match a {
        Stmt::Expr(e) => (b matches Stmt::Expr(e2) && globals_replaced(e, e2)),
        Stmt::Assign { targets, value } => (b matches Stmt::Assign { targets: t2, value: v2 }
            && all_globals_replaced(targets@, t2@) && globals_replaced(value, v2)),
        Stmt::Return(v) => (b matches Stmt::Return(v2) && match v {
            None => v2 is None,
            Some(x) => (v2 matches Some(y) && globals_replaced(x, y)),
        }),
        Stmt::If { test, body, elif_else_clauses } => (b matches Stmt::If {
            test: t2,
            body: b2,
            elif_else_clauses: c2,
        } && globals_replaced(test, t2) && stmts_globals_replaced(body@, b2@)
            && clauses_globals_replaced(elif_else_clauses@, c2@)),
        Stmt::FunctionDef { name, decorators, parameters, return_type, body } => (b matches Stmt::FunctionDef {
            name: n2,
            decorators: d2,
            parameters: p2,
            return_type: r2,
            body: b2,
        } && n2 == name && d2 == decorators && p2 == parameters && r2 == return_type
            && stmts_globals_replaced(body@, b2@)),
        _ => b == a,
    }
}

pub open spec fn stmts_globals_replaced(a: Seq<Stmt>, b: Seq<Stmt>) -> bool
    decreases a,
{
    a.len() == b.len() && (a.len() == 0 || (stmts_globals_replaced(a.drop_last(), b.drop_last())
        && stmt_globals_replaced(a.last(), b.last())))
}

pub open spec fn clause_globals_replaced(a: ElifElseClause, b: ElifElseClause) -> bool
    decreases a,
{
    (match a.test {
        None => b.test is None,
        Some(x) => (b.test matches Some(y) && globals_replaced(x, y)),
    }) && stmts_globals_replaced(a.body@, b.body@)
}

pub open spec fn clauses_globals_replaced(a: Seq<ElifElseClause>, b: Seq<ElifElseClause>) -> bool
    decreases a,
{
    a.len() == b.len() && (a.len() == 0 || (clauses_globals_replaced(a.drop_last(), b.drop_last())
        && clause_globals_replaced(a.last(), b.last())))
}

/// `module.__dict__`.
fn module_dict_expr() -> (r: Expr)
    ensures
        is_module_dict(r),
{
    proof {
        reveal_strlit("module");
        reveal_strlit("__dict__");
    }
    Expr::Attribute {
        value: Box::new(Expr::Name { id: to_string("module"), ctx: ExprContext::Load }),
        attr: to_string("__dict__"),
        ctx: ExprContext::Load,
    }
}

/// `expr` with its `globals()` calls replaced by `module.__dict__` (see
/// `globals_replaced`): inside a module's init function, `module` is the
/// module's namespace.
pub fn transform_globals_in_expr(expr: Expr) -> (r: Expr)
    ensures
        globals_replaced(expr, r),
    decreases expr,
{
    match expr {
        Expr::Call { func, args, keywords } => {
            let is_globals = match &*func {
                Expr::Name { id, .. } => {
                    proof {
                        reveal_strlit("globals");
                    }
                    str_eq(id.as_str(), "globals") && args.len() == 0
                },
                _ => false,
            };
            if is_globals {
                module_dict_expr()
            } else {
                Expr::Call {
                    func: Box::new(transform_globals_in_expr(*func)),
                    args: transform_globals_in_exprs(args),
                    keywords: transform_globals_in_keywords(keywords),
                }
            }
        },
        Expr::Attribute { value, attr, ctx } => Expr::Attribute {
            value: Box::new(transform_globals_in_expr(*value)),
            attr,
            ctx,
        },
        Expr::Subscript { value, slice } => Expr::Subscript {
            value: Box::new(transform_globals_in_expr(*value)),
            slice: Box::new(transform_globals_in_expr(*slice)),
        },
        Expr::List(elts) => Expr::List(transform_globals_in_exprs(elts)),
        Expr::Dict(items) => Expr::Dict(transform_globals_in_items(items)),
        Expr::IfExp { test, body, orelse } => Expr::IfExp {
            test: Box::new(transform_globals_in_expr(*test)),
            body: Box::new(transform_globals_in_expr(*body)),
            orelse: Box::new(transform_globals_in_expr(*orelse)),
        },
        other => other,
    }
}

#[verifier::loop_isolation(false)]
fn transform_globals_in_exprs(exprs: Vec<Expr>) -> (r: Vec<Expr>)
    ensures
        all_globals_replaced(exprs@, r@),
    decreases exprs,
{
    let ghost orig = exprs;
    let mut rest = exprs;
    let mut out: Vec<Expr> = Vec::new();
    let mut k: usize = 0;
    let n = rest.len();
    proof {
        assert(orig@.skip(0) =~= orig@);
    }
    while rest.len() > 0
        invariant
            n == orig@.len(),
            k <= orig@.len(),
            rest@ == orig@.skip(k as int),
            out@.len() == k,
            all_globals_replaced(orig@.subrange(0, k as int), out@),
        decreases rest.len(),
    {
        let e = rest.remove(0);
        proof {
            assert(e == orig@[k as int]);
            assert(decreases_to!(orig => orig@));
            assert(decreases_to!(orig@ => orig@[k as int]));
        }
        let ghost before = out@;
        let r = transform_globals_in_expr(e);
        out.push(r);
        proof {
            let a = orig@.subrange(0, k + 1);
            assert(a.drop_last() =~= orig@.subrange(0, k as int));
            assert(out@.drop_last() =~= before);
            assert(orig@.skip(k + 1) =~= rest@);
        }
        k += 1;
    }
    proof {
        assert(orig@.subrange(0, k as int) =~= orig@);
    }
    out
}

#[verifier::loop_isolation(false)]
fn transform_globals_in_keywords(kws: Vec<Keyword>) -> (r: Vec<Keyword>)
    ensures
        keywords_globals_replaced(kws@, r@),
    decreases kws,
{
    let ghost orig = kws;
    let mut rest = kws;
    let mut out: Vec<Keyword> = Vec::new();
    let mut k: usize = 0;
    let n = rest.len();
    proof {
        assert(orig@.skip(0) =~= orig@);
    }
    while rest.len() > 0
        invariant
            n == orig@.len(),
            k <= orig@.len(),
            rest@ == orig@.skip(k as int),
            out@.len() == k,
            keywords_globals_replaced(orig@.subrange(0, k as int), out@),
        decreases rest.len(),
    {
        let kw = rest.remove(0);
        let ghost kw0 = kw;
        proof {
            assert(kw0 == orig@[k as int]);
            assert(decreases_to!(orig => orig@));
            assert(decreases_to!(orig@ => orig@[k as int]));
            assert(decreases_to!(orig@[k as int] => orig@[k as int].value));
        }
        let Keyword { arg, value } = kw;
        let nk = Keyword { arg, value: transform_globals_in_expr(value) };
        let ghost before = out@;
        out.push(nk);
        proof {
            let a = orig@.subrange(0, k + 1);
            assert(a.drop_last() =~= orig@.subrange(0, k as int));
            assert(a.last() == kw0);
            assert(out@.drop_last() =~= before);
            assert(out@.last() == nk);
            assert(orig@.skip(k + 1) =~= rest@);
        }
        k += 1;
    }
    proof {
        assert(orig@.subrange(0, k as int) =~= orig@);
    }
    out
}

#[verifier::loop_isolation(false)]
fn transform_globals_in_items(items: Vec<DictItem>) -> (r: Vec<DictItem>)
    ensures
        items_globals_replaced(items@, r@),
    decreases items,
{
    let ghost orig = items;
    let mut rest = items;
    let mut out: Vec<DictItem> = Vec::new();
    let mut k: usize = 0;
    let n = rest.len();
    proof {
        assert(orig@.skip(0) =~= orig@);
    }
    while rest.len() > 0
        invariant
            n == orig@.len(),
            k <= orig@.len(),
            rest@ == orig@.skip(k as int),
            out@.len() == k,
            items_globals_replaced(orig@.subrange(0, k as int), out@),
        decreases rest.len(),
    {
        let item = rest.remove(0);
        let ghost item0 = item;
        proof {
            assert(item0 == orig@[k as int]);
            assert(decreases_to!(orig => orig@));
            assert(decreases_to!(orig@ => orig@[k as int]));
            assert(decreases_to!(orig@[k as int] => orig@[k as int].key));
            assert(decreases_to!(orig@[k as int] => orig@[k as int].value));
        }
        let DictItem { key, value } = item;
        let new_key = match key {
            Some(kx) => Some(transform_globals_in_expr(kx)),
            None => None,
        };
        let ni = DictItem { key: new_key, value: transform_globals_in_expr(value) };
        proof {
            assert(item_globals_replaced(item0, ni));
        }
        let ghost before = out@;
        out.push(ni);
        proof {
            let a = orig@.subrange(0, k + 1);
            assert(a.drop_last() =~= orig@.subrange(0, k as int));
            assert(a.last() == item0);
            assert(out@.drop_last() =~= before);
            assert(orig@.skip(k + 1) =~= rest@);
        }
        k += 1;
    }
    proof {
        assert(orig@.subrange(0, k as int) =~= orig@);
    }
    out
}

/// `stmt` with its `globals()` calls replaced (see `stmt_globals_replaced`).
pub fn transform_globals_in_stmt(stmt: Stmt) -> (r: Stmt)
    ensures
        stmt_globals_replaced(stmt, r),
    decreases stmt,
{
    match stmt {
        Stmt::Expr(e) => Stmt::Expr(transform_globals_in_expr(e)),
        Stmt::Assign { targets, value } => {
            let new_value = transform_globals_in_expr(value);
            Stmt::Assign { targets: transform_globals_in_exprs(targets), value: new_value }
        },
        Stmt::Return(v) => Stmt::Return(
            match v {
                Some(x) => Some(transform_globals_in_expr(x)),
                None => None,
            },
        ),
        Stmt::If { test, body, elif_else_clauses } => Stmt::If {
            test: transform_globals_in_expr(test),
            body: transform_globals_in_body(body),
            elif_else_clauses: transform_globals_in_clauses(elif_else_clauses),
        },
        Stmt::FunctionDef { name, decorators, parameters, return_type, body } => Stmt::FunctionDef {
            name,
            decorators,
            parameters,
            return_type,
            body: transform_globals_in_body(body),
        },
        other => other,
    }
}

/// Each statement with its `globals()` calls replaced.
#[verifier::loop_isolation(false)]
pub fn transform_globals_in_body(stmts: Vec<Stmt>) -> (r: Vec<Stmt>)
    ensures
        stmts_globals_replaced(stmts@, r@),
    decreases stmts,
{
    let ghost orig = stmts;
    let mut rest = stmts;
    let mut out: Vec<Stmt> = Vec::new();
    let mut k: usize = 0;
    let n = rest.len();
    proof {
        assert(orig@.skip(0) =~= orig@);
    }
    while rest.len() > 0
        invariant
            n == orig@.len(),
            k <= orig@.len(),
            rest@ == orig@.skip(k as int),
            out@.len() == k,
            stmts_globals_replaced(orig@.subrange(0, k as int), out@),
        decreases rest.len(),
    {
        let s = rest.remove(0);
        proof {
            assert(s == orig@[k as int]);
            assert(decreases_to!(orig => orig@));
            assert(decreases_to!(orig@ => orig@[k as int]));
        }
        let ghost before = out@;
        let r = transform_globals_in_stmt(s);
        out.push(r);
        proof {
            let a = orig@.subrange(0, k + 1);
            assert(a.drop_last() =~= orig@.subrange(0, k as int));
            assert(out@.drop_last() =~= before);
            assert(orig@.skip(k + 1) =~= rest@);
        }
        k += 1;
    }
    proof {
        assert(orig@.subrange(0, k as int) =~= orig@);
    }
    out
}

#[verifier::loop_isolation(false)]
fn transform_globals_in_clauses(clauses: Vec<ElifElseClause>) -> (r: Vec<ElifElseClause>)
    ensures
        clauses_globals_replaced(clauses@, r@),
    decreases clauses,
{
    let ghost orig = clauses;
    let mut rest = clauses;
    let mut out: Vec<ElifElseClause> = Vec::new();
    let mut k: usize = 0;
    let n = rest.len();
    proof {
        assert(orig@.skip(0) =~= orig@);
    }
    while rest.len() > 0
        invariant
            n == orig@.len(),
            k <= orig@.len(),
            rest@ == orig@.skip(k as int),
            out@.len() == k,
            clauses_globals_replaced(orig@.subrange(0, k as int), out@),
        decreases rest.len(),
    {
        let c = rest.remove(0);
        let ghost c0 = c;
        proof {
            assert(c0 == orig@[k as int]);
            assert(decreases_to!(orig => orig@));
            assert(decreases_to!(orig@ => orig@[k as int]));
            assert(decreases_to!(orig@[k as int] => orig@[k as int].body));
        }
        let ElifElseClause { test, body } = c;
        let nc = ElifElseClause {
            test: match test {
                Some(x) => Some(transform_globals_in_expr(x)),
                None => None,
            },
            body: transform_globals_in_body(body),
        };
        proof {
            assert(clause_globals_replaced(c0, nc));
        }
        let ghost before = out@;
        out.push(nc);
        proof {
            let a = orig@.subrange(0, k + 1);
            assert(a.drop_last() =~= orig@.subrange(0, k as int));
            assert(a.last() == c0);
            assert(out@.drop_last() =~= before);
            assert(orig@.skip(k + 1) =~= rest@);
        }
        k += 1;
    }
    proof {
        assert(orig@.subrange(0, k as int) =~= orig@);
    }
    out
}

} // verus!
