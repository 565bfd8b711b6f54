//! Import aliases resolved in inlined code: a name bound by an import of an
//! inlined module is read under the name it stands for.
use vstd::prelude::*;

use crate::ast::{
    DictItem, ElifElseClause, Expr, Keyword, Parameter, Parameters, Stmt,
};
use crate::code_generator::HybridStaticBundler;
use crate::collections::{name_map_entries, name_map_get, NameMap};

verus! {

/// `i` is the position of the first `:` of `r`.
pub open spec fn is_first_colon(r: Seq<char>, i: int) -> bool {
    0 <= i < r.len() && r[i] == ':' && forall|j: int| 0 <= j < i ==> r[j] != ':'
}

/// What an import alias entry names: the symbol after the first `:` of a
/// `module:symbol` entry, else the whole entry.
pub open spec fn alias_resolution(r: Seq<char>) -> Seq<char> {
    if exists|i: int| 0 <= i < r.len() && r[i] == ':' {
        r.skip((choose|i: int| is_first_colon(r, i)) + 1)
    } else {
        r
    }
}

/// The name `id` is read under: the resolution of its alias entry in `m`,
/// else itself.
pub open spec fn resolved_name(id: Seq<char>, m: Map<Seq<char>, Seq<char>>) -> Seq<char> {
    if m.contains_key(id) {
        alias_resolution(m[id])
    } else {
        id
    }
}

/// `b` is `a` with every name read resolved (see `resolved_name`), through
/// attributes, calls (callee, positional and keyword arguments), lists,
/// tuples, dicts, binary, unary and boolean operations, comparisons and
/// conditional expressions; everything else unchanged.
pub open spec fn import_aliases_resolved(a: Expr, b: Expr, m: Map<Seq<char>, Seq<char>>) -> bool
    decreases a,
{
    match a {
        Expr::Name { id, ctx } => (b matches Expr::Name { id: i2, ctx: c2 } && c2 == ctx && i2@
            == resolved_name(id@, m)),
        Expr::Attribute { value, attr, ctx } => (b matches Expr::Attribute {
            value: v2,
            attr: t2,
            ctx: c2,
        } && import_aliases_resolved(*value, *v2, m) && t2 == attr && c2 == ctx),
        Expr::Call { func, args, keywords } => (b matches Expr::Call {
            func: f2,
            args: a2,
            keywords: k2,
        } && import_aliases_resolved(*func, *f2, m) && all_import_aliases_resolved(args@, a2@, m)
            && keywords_import_aliases_resolved(keywords@, k2@, m)),
        Expr::List(elts) => (b matches Expr::List(e2) && all_import_aliases_resolved(elts@, e2@, m)),
        Expr::Tuple(elts) => (b matches Expr::Tuple(e2) && all_import_aliases_resolved(elts@, e2@, m)),
        Expr::BoolOp(values) => (b matches Expr::BoolOp(v2) && all_import_aliases_resolved(
            values@,
            v2@,
            m,
        )),
        Expr::Dict(items) => (b matches Expr::Dict(i2) && items_import_aliases_resolved(items@, i2@, m)),
        Expr::BinOp { left, op, right } => (b matches Expr::BinOp { left: l2, op: o2, right: r2 } && o2 == op
            && import_aliases_resolved(*left, *l2, m) && import_aliases_resolved(*right, *r2, m)),
        Expr::UnaryOp(operand) => (b matches Expr::UnaryOp(o2) && import_aliases_resolved(
            *operand,
            *o2,
            m,
        )),
        Expr::Compare { left, ops, comparators } => (b matches Expr::Compare {
            left: l2,
            ops: o2,
            comparators: c2,
        } && o2@ == ops@ && import_aliases_resolved(*left, *l2, m) && all_import_aliases_resolved(
            comparators@,
            c2@,
            m,
        )),
        Expr::IfExp { test, body, orelse } => (b matches Expr::IfExp {
            test: t2,
            body: b2,
            orelse: o2,
        } && import_aliases_resolved(*test, *t2, m) && import_aliases_resolved(*body, *b2, m)
            && import_aliases_resolved(*orelse, *o2, m)),
        _ => b == a,
    }
}

pub open spec fn all_import_aliases_resolved(
    a: Seq<Expr>,
    b: Seq<Expr>,
    m: Map<Seq<char>, Seq<char>>,
) -> bool
    decreases a,
{
    a.len() == b.len() && (a.len() == 0 || (all_import_aliases_resolved(
        a.drop_last(),
        b.drop_last(),
        m,
    ) && import_aliases_resolved(a.last(), b.last(), m)))
}

pub open spec fn keywords_import_aliases_resolved(
    a: Seq<Keyword>,
    b: Seq<Keyword>,
    m: Map<Seq<char>, Seq<char>>,
) -> bool
    decreases a,
{
    a.len() == b.len() && (a.len() == 0 || (keywords_import_aliases_resolved(
        a.drop_last(),
        b.drop_last(),
        m,
    ) && b.last().arg == a.last().arg && import_aliases_resolved(a.last().value, b.last().value, m)))
}

pub open spec fn item_import_aliases_resolved(a: DictItem, b: DictItem, m: Map<Seq<char>, Seq<char>>) -> bool
    decreases a,
{
    (match a.key {
        None => b.key is None,
        Some(k) => (b.key matches Some(k2) && import_aliases_resolved(k, k2, m)),
    }) && import_aliases_resolved(a.value, b.value, m)
}

pub open spec fn items_import_aliases_resolved(
    a: Seq<DictItem>,
    b: Seq<DictItem>,
    m: Map<Seq<char>, Seq<char>>,
) -> bool
    decreases a,
{
    a.len() == b.len() && (a.len() == 0 || (items_import_aliases_resolved(
        a.drop_last(),
        b.drop_last(),
        m,
    ) && item_import_aliases_resolved(a.last(), b.last(), m)))
}

pub open spec fn opt_import_aliases_resolved(
    a: Option<Expr>,
    b: Option<Expr>,
    m: Map<Seq<char>, Seq<char>>,
) -> bool {
    match a {
        None => b is None,
        Some(x) => (b matches Some(y) && import_aliases_resolved(x, y, m)),
    }
}

/// A positional parameter with its default and annotation resolved.
pub open spec fn param_import_aliases_resolved(a: Parameter, b: Parameter, m: Map<Seq<char>, Seq<char>>) -> bool {
    b.name == a.name && opt_import_aliases_resolved(a.default, b.default, m)
        && opt_import_aliases_resolved(a.annotation, b.annotation, m)
}

pub open spec fn params_import_aliases_resolved(
    a: Seq<Parameter>,
    b: Seq<Parameter>,
    m: Map<Seq<char>, Seq<char>>,
) -> bool {
    a.len() == b.len() && forall|i: int|
        0 <= i < a.len() ==> param_import_aliases_resolved(#[trigger] a[i], b[i], m)
}

/// `b` is the statement `a` with import aliases resolved in assigned values,
/// annotations of annotated assignments and their values, returns,
/// expression statements, `if` tests, clauses and bodies, `while` tests,
/// bodies and `else`, `for` iterables, bodies and `else`, function
/// positional parameters (defaults and annotations), return annotations and
/// bodies, and class bases and bodies; targets and everything else unchanged.
pub open spec fn stmt_import_aliases_resolved(a: Stmt, b: Stmt, m: Map<Seq<char>, Seq<char>>) -> bool
    decreases a,
{
    match a {
        Stmt::Assign { targets, value } => (b matches Stmt::Assign { targets: t2, value: v2 } && t2
            == targets && import_aliases_resolved(value, v2, m)),
        Stmt::AnnAssign { target, annotation, value } => (b matches Stmt::AnnAssign {
            target: t2,
            annotation: a2,
            value: v2,
        } && t2 == target && import_aliases_resolved(annotation, a2, m)
            && opt_import_aliases_resolved(value, v2, m)),
        Stmt::Return(v) => (b matches Stmt::Return(v2) && opt_import_aliases_resolved(v, v2, m)),
        Stmt::Expr(e) => (b matches Stmt::Expr(e2) && import_aliases_resolved(e, e2, m)),
        Stmt::If { test, body, elif_else_clauses } => (b matches Stmt::If {
            test: t2,
            body: b2,
            elif_else_clauses: c2,
        } && import_aliases_resolved(test, t2, m) && stmts_import_aliases_resolved(body@, b2@, m)
            && clauses_import_aliases_resolved(elif_else_clauses@, c2@, m)),
        Stmt::While { test, body, orelse } => (b matches Stmt::While {
            test: t2,
            body: b2,
            orelse: o2,
        } && import_aliases_resolved(test, t2, m) && stmts_import_aliases_resolved(body@, b2@, m)
            && stmts_import_aliases_resolved(orelse@, o2@, m)),
        Stmt::For { target, iter, body, orelse } => (b matches Stmt::For {
            target: t2,
            iter: i2,
            body: b2,
            orelse: o2,
        } && t2 == target && import_aliases_resolved(iter, i2, m) && stmts_import_aliases_resolved(
            body@,
            b2@,
            m,
        ) && stmts_import_aliases_resolved(orelse@, o2@, m)),
        Stmt::FunctionDef { name, decorators, parameters, return_type, body } => (b matches Stmt::FunctionDef {
            name: n2,
            decorators: d2,
            parameters: p2,
            return_type: r2,
            body: b2,
        } && n2 == name && d2 == decorators && p2.posonlyargs == parameters.posonlyargs
            && params_import_aliases_resolved(parameters.args@, p2.args@, m) && p2.vararg
            == parameters.vararg && p2.kwonlyargs == parameters.kwonlyargs && p2.kwarg
            == parameters.kwarg && opt_import_aliases_resolved(return_type, r2, m)
            && stmts_import_aliases_resolved(body@, b2@, m)),
        Stmt::ClassDef { name, decorators, bases, keywords, body } => (b matches Stmt::ClassDef {
            name: n2,
            decorators: d2,
            bases: ba2,
            keywords: k2,
            body: b2,
        } && n2 == name && d2 == decorators && all_import_aliases_resolved(bases@, ba2@, m) && k2
            == keywords && stmts_import_aliases_resolved(body@, b2@, m)),
        _ => b == a,
    }
}

pub open spec fn stmts_import_aliases_resolved(
    a: Seq<Stmt>,
    b: Seq<Stmt>,
    m: Map<Seq<char>, Seq<char>>,
) -> bool
    decreases a,
{
    a.len() == b.len() && (a.len() == 0 || (stmts_import_aliases_resolved(
        a.drop_last(),
        b.drop_last(),
        m,
    ) && stmt_import_aliases_resolved(a.last(), b.last(), m)))
}

pub open spec fn clauses_import_aliases_resolved(
    a: Seq<ElifElseClause>,
    b: Seq<ElifElseClause>,
    m: Map<Seq<char>, Seq<char>>,
) -> bool
    decreases a,
{
    a.len() == b.len() && (a.len() == 0 || (clauses_import_aliases_resolved(
        a.drop_last(),
        b.drop_last(),
        m,
    ) && opt_import_aliases_resolved(a.last().test, b.last().test, m)
        && stmts_import_aliases_resolved(a.last().body@, b.last().body@, m)))
}

/// What an import alias entry names (see `alias_resolution`).
pub fn alias_entry_target(resolved: &str) -> (r: String)
    ensures
        r@ == alias_resolution(resolved@),
{
    let n = resolved.unicode_len();
    let mut i: usize = 0;
    while i < n
        invariant
            n == resolved@.len(),
            i <= n,
            forall|j: int| 0 <= j < i ==> resolved@[j] != ':',
        decreases n - i,
    {
        if resolved.get_char(i) == ':' {
            let symbol = resolved.substring_char(i + 1, n).to_owned();
            proof {
                let r = resolved@;
                assert(is_first_colon(r, i as int));
                let k = choose|k: int| is_first_colon(r, k);
                if k < i {
                    assert(r[k] != ':');
                }
                if k > i {
                    assert(r[i as int] != ':');
                }
                assert(k == i);
                assert(symbol@ =~= r.skip(i + 1));
            }
            return symbol;
        }
        i += 1;
    }
    resolved.to_owned()
}

impl HybridStaticBundler {
    /// `expr` with the names bound by import aliases read under what they
    /// stand for (see `import_aliases_resolved`).
    pub fn resolve_import_aliases_in_expr(&self, expr: Expr, import_aliases: &NameMap) -> (r: Expr)
        ensures
            import_aliases_resolved(expr, r, name_map_entries(*import_aliases)),
        decreases expr,
    {
        match expr {
            Expr::Name { id, ctx } => {
                let new_id = match name_map_get(import_aliases, id.as_str()) {
                    Some(resolved) => alias_entry_target(resolved.as_str()),
                    None => id,
                };
                Expr::Name { id: new_id, ctx }
            },
            Expr::Attribute { value, attr, ctx } => Expr::Attribute {
                value: Box::new(self.resolve_import_aliases_in_expr(*value, import_aliases)),
                attr,
                ctx,
            },
            Expr::Call { func, args, keywords } => {
                let f = self.resolve_import_aliases_in_expr(*func, import_aliases);
                let a = self.resolve_import_aliases_in_exprs(args, import_aliases);
                let k = self.resolve_import_aliases_in_keywords(keywords, import_aliases);
                Expr::Call { func: Box::new(f), args: a, keywords: k }
            },
            Expr::List(elts) => Expr::List(self.resolve_import_aliases_in_exprs(elts, import_aliases)),
            Expr::Tuple(elts) => Expr::Tuple(self.resolve_import_aliases_in_exprs(elts, import_aliases)),
            Expr::BoolOp(values) => Expr::BoolOp(self.resolve_import_aliases_in_exprs(values, import_aliases)),
            Expr::Dict(items) => Expr::Dict(self.resolve_import_aliases_in_items(items, import_aliases)),
            Expr::BinOp { left, op, right } => {
                let l = self.resolve_import_aliases_in_expr(*left, import_aliases);
                let r = self.resolve_import_aliases_in_expr(*right, import_aliases);
                Expr::BinOp { left: Box::new(l), op, right: Box::new(r) }
            },
            Expr::UnaryOp(operand) => Expr::UnaryOp(
                Box::new(self.resolve_import_aliases_in_expr(*operand, import_aliases)),
            ),
            Expr::Compare { left, ops, comparators } => {
                let l = self.resolve_import_aliases_in_expr(*left, import_aliases);
                let c = self.resolve_import_aliases_in_exprs(comparators, import_aliases);
                Expr::Compare { left: Box::new(l), ops, comparators: c }
            },
            Expr::IfExp { test, body, orelse } => {
                let t = self.resolve_import_aliases_in_expr(*test, import_aliases);
                let b = self.resolve_import_aliases_in_expr(*body, import_aliases);
                let o = self.resolve_import_aliases_in_expr(*orelse, import_aliases);
                Expr::IfExp { test: Box::new(t), body: Box::new(b), orelse: Box::new(o) }
            },
            other => other,
        }
    }

    #[verifier::loop_isolation(false)]
    fn resolve_import_aliases_in_exprs(&self, exprs: Vec<Expr>, import_aliases: &NameMap) -> (r: Vec<Expr>)
        ensures
            all_import_aliases_resolved(exprs@, r@, name_map_entries(*import_aliases)),
        decreases exprs,
    {
        let ghost orig = exprs;
        let ghost m = name_map_entries(*import_aliases);
        let mut rest = exprs;
        let mut out: Vec<Expr> = Vec::new();
        let mut k: usize = 0;
        let n = rest.len();
        proof {
            assert(orig@.skip(0) =~= orig@);
        }
        while rest.len() > 0
            invariant
                n == orig@.len(),
                k <= orig@.len(),
                rest@ == orig@.skip(k as int),
                out@.len() == k,
                all_import_aliases_resolved(orig@.subrange(0, k as int), out@, m),
            decreases rest.len(),
        {
            let e = rest.remove(0);
            proof {
                assert(e == orig@[k as int]);
                assert(decreases_to!(orig => orig@));
                assert(decreases_to!(orig@ => orig@[k as int]));
            }
            let ghost before = out@;
            let r = self.resolve_import_aliases_in_expr(e, import_aliases);
            out.push(r);
            proof {
                let a = orig@.subrange(0, k + 1);
                assert(a.drop_last() =~= orig@.subrange(0, k as int));
                assert(out@.drop_last() =~= before);
                assert(orig@.skip(k + 1) =~= rest@);
            }
            k += 1;
        }
        proof {
            assert(orig@.subrange(0, k as int) =~= orig@);
        }
        out
    }

    #[verifier::loop_isolation(false)]
    fn resolve_import_aliases_in_keywords(&self, kws: Vec<Keyword>, import_aliases: &NameMap) -> (r: Vec<Keyword>)
        ensures
            keywords_import_aliases_resolved(kws@, r@, name_map_entries(*import_aliases)),
        decreases kws,
    {
        let ghost orig = kws;
        let ghost m = name_map_entries(*import_aliases);
        let mut rest = kws;
        let mut out: Vec<Keyword> = Vec::new();
        let mut k: usize = 0;
        let n = rest.len();
        proof {
            assert(orig@.skip(0) =~= orig@);
        }
        while rest.len() > 0
            invariant
                n == orig@.len(),
                k <= orig@.len(),
                rest@ == orig@.skip(k as int),
                out@.len() == k,
                keywords_import_aliases_resolved(orig@.subrange(0, k as int), out@, m),
            decreases rest.len(),
        {
            let kw = rest.remove(0);
            let ghost kw0 = kw;
            proof {
                assert(kw0 == orig@[k as int]);
                assert(decreases_to!(orig => orig@));
                assert(decreases_to!(orig@ => orig@[k as int]));
                assert(decreases_to!(orig@[k as int] => orig@[k as int].value));
            }
            let Keyword { arg, value } = kw;
            let nk = Keyword { arg, value: self.resolve_import_aliases_in_expr(value, import_aliases) };
            let ghost before = out@;
            out.push(nk);
            proof {
                let a = orig@.subrange(0, k + 1);
                assert(a.drop_last() =~= orig@.subrange(0, k as int));
                assert(a.last() == kw0);
                assert(out@.drop_last() =~= before);
                assert(out@.last() == nk);
                assert(orig@.skip(k + 1) =~= rest@);
            }
            k += 1;
        }
        proof {
            assert(orig@.subrange(0, k as int) =~= orig@);
        }
        out
    }

    #[verifier::loop_isolation(false)]
    fn resolve_import_aliases_in_items(&self, items: Vec<DictItem>, import_aliases: &NameMap) -> (r: Vec<DictItem>)
        ensures
            items_import_aliases_resolved(items@, r@, name_map_entries(*import_aliases)),
        decreases items,
    {
        let ghost orig = items;
        let ghost m = name_map_entries(*import_aliases);
        let mut rest = items;
        let mut out: Vec<DictItem> = Vec::new();
        let mut k: usize = 0;
        let n = rest.len();
        proof {
            assert(orig@.skip(0) =~= orig@);
        }
        while rest.len() > 0
            invariant
                n == orig@.len(),
                k <= orig@.len(),
                rest@ == orig@.skip(k as int),
                out@.len() == k,
                items_import_aliases_resolved(orig@.subrange(0, k as int), out@, m),
            decreases rest.len(),
        {
            let item = rest.remove(0);
            let ghost item0 = item;
            proof {
                assert(item0 == orig@[k as int]);
                assert(decreases_to!(orig => orig@));
                assert(decreases_to!(orig@ => orig@[k as int]));
                assert(decreases_to!(orig@[k as int] => orig@[k as int].key));
                assert(decreases_to!(orig@[k as int] => orig@[k as int].value));
            }
            let DictItem { key, value } = item;
            let new_key = match key {
                Some(kx) => Some(self.resolve_import_aliases_in_expr(kx, import_aliases)),
                None => None,
            };
            let ni = DictItem { key: new_key, value: self.resolve_import_aliases_in_expr(value, import_aliases) };
            proof {
                assert(item_import_aliases_resolved(item0, ni, m));
            }
            let ghost before = out@;
            out.push(ni);
            proof {
                let a = orig@.subrange(0, k + 1);
                assert(a.drop_last() =~= orig@.subrange(0, k as int));
                assert(a.last() == item0);
                assert(out@.drop_last() =~= before);
                assert(orig@.skip(k + 1) =~= rest@);
            }
            k += 1;
        }
        proof {
            assert(orig@.subrange(0, k as int) =~= orig@);
        }
        out
    }

    /// An optional expression with its import aliases resolved.
    fn resolve_import_aliases_in_opt(&self, e: Option<Expr>, import_aliases: &NameMap) -> (r: Option<Expr>)
        ensures
            opt_import_aliases_resolved(e, r, name_map_entries(*import_aliases)),
    {
        match e {
            Some(x) => Some(self.resolve_import_aliases_in_expr(x, import_aliases)),
            None => None,
        }
    }

    /// Positional parameters with their defaults and annotations resolved.
    fn resolve_import_aliases_in_params(&self, params: Vec<Parameter>, import_aliases: &NameMap) -> (r: Vec<Parameter>)
        ensures
            params_import_aliases_resolved(params@, r@, name_map_entries(*import_aliases)),
    {
        let ghost orig = params;
        let ghost m = name_map_entries(*import_aliases);
        let mut rest = params;
        let mut out: Vec<Parameter> = Vec::new();
        let mut k: usize = 0;
        let n = rest.len();
        proof {
            assert(orig@.skip(0) =~= orig@);
        }
        while rest.len() > 0
            invariant
                n == orig@.len(),
                k <= orig@.len(),
                rest@ == orig@.skip(k as int),
                out@.len() == k,
                m == name_map_entries(*import_aliases),
                forall|i: int| 0 <= i < k ==> param_import_aliases_resolved(#[trigger] orig@[i], out@[i], m),
            decreases rest.len(),
        {
            let p = rest.remove(0);
            let ghost p0 = p;
            proof {
                assert(p0 == orig@[k as int]);
            }
            let Parameter { name, annotation, default } = p;
            let d = self.resolve_import_aliases_in_opt(default, import_aliases);
            let a = self.resolve_import_aliases_in_opt(annotation, import_aliases);
            out.push(Parameter { name, annotation: a, default: d });
            proof {
                assert(orig@.skip(k + 1) =~= rest@);
            }
            k += 1;
        }
        out
    }

    /// `stmt` with its import aliases resolved (see `stmt_import_aliases_resolved`).
    pub fn resolve_import_aliases_in_stmt(&self, stmt: Stmt, import_aliases: &NameMap) -> (r: Stmt)
        ensures
            stmt_import_aliases_resolved(stmt, r, name_map_entries(*import_aliases)),
        decreases stmt,
    {
        let m = import_aliases;
        match stmt {
            Stmt::Assign { targets, value } => Stmt::Assign {
                targets,
                value: self.resolve_import_aliases_in_expr(value, m),
            },
            Stmt::AnnAssign { target, annotation, value } => {
                let v = self.resolve_import_aliases_in_opt(value, m);
                let a = self.resolve_import_aliases_in_expr(annotation, m);
                Stmt::AnnAssign { target, annotation: a, value: v }
            },
            Stmt::Return(v) => Stmt::Return(self.resolve_import_aliases_in_opt(v, m)),
            Stmt::Expr(e) => Stmt::Expr(self.resolve_import_aliases_in_expr(e, m)),
            Stmt::If { test, body, elif_else_clauses } => {
                let t = self.resolve_import_aliases_in_expr(test, m);
                let b = self.resolve_import_aliases_in_stmts(body, m);
                let c = self.resolve_import_aliases_in_clauses(elif_else_clauses, m);
                Stmt::If { test: t, body: b, elif_else_clauses: c }
            },
            Stmt::While { test, body, orelse } => {
                let t = self.resolve_import_aliases_in_expr(test, m);
                let b = self.resolve_import_aliases_in_stmts(body, m);
                let o = self.resolve_import_aliases_in_stmts(orelse, m);
                Stmt::While { test: t, body: b, orelse: o }
            },
            Stmt::For { target, iter, body, orelse } => {
                let i = self.resolve_import_aliases_in_expr(iter, m);
                let b = self.resolve_import_aliases_in_stmts(body, m);
                let o = self.resolve_import_aliases_in_stmts(orelse, m);
                Stmt::For { target, iter: i, body: b, orelse: o }
            },
            Stmt::FunctionDef { name, decorators, parameters, return_type, body } => {
                let Parameters { posonlyargs, args, vararg, kwonlyargs, kwarg } = parameters;
                let new_args = self.resolve_import_aliases_in_params(args, m);
                let r = self.resolve_import_aliases_in_opt(return_type, m);
                let b = self.resolve_import_aliases_in_stmts(body, m);
                Stmt::FunctionDef {
                    name,
                    decorators,
                    parameters: Parameters { posonlyargs, args: new_args, vararg, kwonlyargs, kwarg },
                    return_type: r,
                    body: b,
                }
            },
            Stmt::ClassDef { name, decorators, bases, keywords, body } => {
                let ba = self.resolve_import_aliases_in_exprs(bases, m);
                let b = self.resolve_import_aliases_in_stmts(body, m);
                Stmt::ClassDef { name, decorators, bases: ba, keywords, body: b }
            },
            other => other,
        }
    }

    /// Each statement with its import aliases resolved.
    #[verifier::loop_isolation(false)]
    pub fn resolve_import_aliases_in_stmts(&self, stmts: Vec<Stmt>, import_aliases: &NameMap) -> (r: Vec<Stmt>)
        ensures
            stmts_import_aliases_resolved(stmts@, r@, name_map_entries(*import_aliases)),
        decreases stmts,
    {
        let ghost orig = stmts;
        let ghost m = name_map_entries(*import_aliases);
        let mut rest = stmts;
        let mut out: Vec<Stmt> = Vec::new();
        let mut k: usize = 0;
        let n = rest.len();
        proof {
            assert(orig@.skip(0) =~= orig@);
        }
        while rest.len() > 0
            invariant
                n == orig@.len(),
                k <= orig@.len(),
                rest@ == orig@.skip(k as int),
                out@.len() == k,
                stmts_import_aliases_resolved(orig@.subrange(0, k as int), out@, m),
            decreases rest.len(),
        {
            let s = rest.remove(0);
            proof {
                assert(s == orig@[k as int]);
                assert(decreases_to!(orig => orig@));
                assert(decreases_to!(orig@ => orig@[k as int]));
            }
            let ghost before = out@;
            let r = self.resolve_import_aliases_in_stmt(s, import_aliases);
            out.push(r);
            proof {
                let a = orig@.subrange(0, k + 1);
                assert(a.drop_last() =~= orig@.subrange(0, k as int));
                assert(out@.drop_last() =~= before);
                assert(orig@.skip(k + 1) =~= rest@);
            }
            k += 1;
        }
        proof {
            assert(orig@.subrange(0, k as int) =~= orig@);
        }
        out
    }

    #[verifier::loop_isolation(false)]
    fn resolve_import_aliases_in_clauses(&self, clauses: Vec<ElifElseClause>, import_aliases: &NameMap) -> (r: Vec<ElifElseClause>)
        ensures
            clauses_import_aliases_resolved(clauses@, r@, name_map_entries(*import_aliases)),
        decreases clauses,
    {
        let ghost orig = clauses;
        let ghost m = name_map_entries(*import_aliases);
        let mut rest = clauses;
        let mut out: Vec<ElifElseClause> = Vec::new();
        let mut k: usize = 0;
        let n = rest.len();
        proof {
            assert(orig@.skip(0) =~= orig@);
        }
        while rest.len() > 0
            invariant
                n == orig@.len(),
                k <= orig@.len(),
                rest@ == orig@.skip(k as int),
                out@.len() == k,
                clauses_import_aliases_resolved(orig@.subrange(0, k as int), out@, m),
            decreases rest.len(),
        {
            let c = rest.remove(0);
            let ghost c0 = c;
            proof {
                assert(c0 == orig@[k as int]);
                assert(decreases_to!(orig => orig@));
                assert(decreases_to!(orig@ => orig@[k as int]));
                assert(decreases_to!(orig@[k as int] => orig@[k as int].body));
            }
            let ElifElseClause { test, body } = c;
            let t = self.resolve_import_aliases_in_opt(test, import_aliases);
            let nc = ElifElseClause { test: t, body: self.resolve_import_aliases_in_stmts(body, import_aliases) };
            let ghost before = out@;
            out.push(nc);
            proof {
                let a = orig@.subrange(0, k + 1);
                assert(a.drop_last() =~= orig@.subrange(0, k as int));
                assert(a.last() == c0);
                assert(out@.drop_last() =~= before);
                assert(out@.last() == nc);
                assert(orig@.skip(k + 1) =~= rest@);
            }
            k += 1;
        }
        proof {
            assert(orig@.subrange(0, k as int) =~= orig@);
        }
        out
    }
}

} // verus!
