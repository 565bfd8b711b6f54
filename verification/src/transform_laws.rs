//! Properties of side-effect detection, of the statement rewrites that
//! renaming and alias normalization make, of relative import resolution and
//! of the cycle check, stated over the statements and names they act on.
use vstd::prelude::*;

use crate::alias_rewrite::{
    alias_rewritten, case_rewritten, cases_rewritten, clause_rewritten, clauses_rewritten, handler_rewritten,
    handlers_rewritten, stmt_alias_rewritten, stmts_alias_rewritten,
};
use crate::ast::{ElifElseClause, ExceptHandler, Expr, MatchCase, Stmt};
use crate::code_generator::{
    body_side_effects, imported_names, module_side_effects, relative_import_target, stmt_side_effects,
};
use crate::dependency_graph::{CircularDependencyGroup, CircularDependencyType};
use crate::orchestrator::all_function_level;
use crate::paths::path_components;
use crate::renames::{clause_renamed, clauses_renamed, refs_renamed, stmt_renamed, stmts_renamed};
use crate::text::{has_prefix, join_with, split_on};

verus! {

// ---------------------------------------------------------------------------
// Side effects
// ---------------------------------------------------------------------------

proof fn lemma_statement_effects_reach_body(body: Seq<Stmt>, i: int, names: Set<Seq<char>>)
    requires
        0 <= i < body.len(),
        stmt_side_effects(body[i], names),
    ensures
        body_side_effects(body, names),
    decreases body.len(),
{
    if i < body.len() - 1 {
        lemma_statement_effects_reach_body(body.drop_last(), i, names);
    }
}

/// A module with a top-level statement that runs code when the module is
/// imported (`try`, `with`, `for`, `while`, `if`, `match`, `raise`,
/// `assert`, `global`, `del`, an augmented assignment, a `return`, any other
/// statement, or an expression statement that is not a docstring) has side
/// effects, wherever in the module that statement stands.
pub proof fn law_executable_statement_has_side_effects(body: Seq<Stmt>, i: int)
    requires
        0 <= i < body.len(),
        body[i] is Try || body[i] is With || body[i] is For || body[i] is While || body[i] is If
            || body[i] is Match || body[i] is Raise || body[i] is Assert || body[i] is Global
            || body[i] is Delete || body[i] is AugAssign || body[i] is Return || body[i] is Other
            || (body[i] matches Stmt::Expr(e) && !(e is StringLiteral)),
    ensures
        module_side_effects(body),
{
    lemma_statement_effects_reach_body(body, i, imported_names(body).to_set());
}

proof fn lemma_quiet_statements_quiet_body(body: Seq<Stmt>, names: Set<Seq<char>>)
    requires
        forall|i: int| 0 <= i < body.len() ==> !stmt_side_effects(#[trigger] body[i], names),
    ensures
        !body_side_effects(body, names),
    decreases body.len(),
{
    if body.len() > 0 {
        let t = body.drop_last();
        assert forall|i: int| 0 <= i < t.len() implies !stmt_side_effects(#[trigger] t[i], names) by {
            assert(t[i] == body[i]);
        }
        lemma_quiet_statements_quiet_body(t, names);
        assert(!stmt_side_effects(body[body.len() - 1], names));
    }
}

/// A module made only of definitions, imports, type aliases, `pass` and
/// docstrings has no side effects.
pub proof fn law_declarations_have_no_side_effects(body: Seq<Stmt>)
    requires
        forall|i: int|
            0 <= i < body.len() ==> (#[trigger] body[i] is FunctionDef || body[i] is ClassDef
                || body[i] is Import || body[i] is ImportFrom || body[i] is TypeAlias || body[i] is Pass
                || (body[i] matches Stmt::Expr(e) && e is StringLiteral)),
    ensures
        !module_side_effects(body),
{
    let names = imported_names(body).to_set();
    assert forall|i: int| 0 <= i < body.len() implies !stmt_side_effects(#[trigger] body[i], names) by {
        assert(body[i] is FunctionDef || body[i] is ClassDef || body[i] is Import || body[i] is ImportFrom
            || body[i] is TypeAlias || body[i] is Pass || (body[i] matches Stmt::Expr(e)
            && e is StringLiteral));
    }
    lemma_quiet_statements_quiet_body(body, names);
}

/// A module that assigns, to anything but `__all__` alone, the result of a
/// call, an attribute access or a subscript has side effects.
pub proof fn law_assigned_call_has_side_effects(body: Seq<Stmt>, i: int)
    requires
        0 <= i < body.len(),
        body[i] matches Stmt::Assign { targets, value } && (value is Call || value is Attribute
            || value is Subscript) && !(targets@.len() == 1 && (targets@[0] matches Expr::Name {
            id,
            ..
        } && id@ == "__all__"@)),
    ensures
        module_side_effects(body),
{
    lemma_statement_effects_reach_body(body, i, imported_names(body).to_set());
}

// ---------------------------------------------------------------------------
// The parts of a statement
// ---------------------------------------------------------------------------

/// The expression a statement evaluates before anything else: that of an
/// expression statement, an assigned value, a returned value, the test of an
/// `if` or `while`, the iterable of a `for`.
pub open spec fn leading_expr(s: Stmt) -> Option<Expr> {
    match s {
        Stmt::Expr(e) => Some(e),
        Stmt::Assign { value, .. } => Some(value),
        Stmt::Return(v) => v,
        Stmt::If { test, .. } => Some(test),
        Stmt::While { test, .. } => Some(test),
        Stmt::For { iter, .. } => Some(iter),
        _ => None,
    }
}

/// The blocks of statements a statement holds, in source order: a function,
/// class or `with` body; a loop body and its `else`; an `if` body and the
/// bodies of its `elif`/`else` clauses; a `try` body, its `else`, its
/// `finally` and the bodies of its handlers; the bodies of `match` cases.
pub open spec fn statement_blocks(s: Stmt) -> Seq<Seq<Stmt>> {
    match s {
        Stmt::FunctionDef { body, .. } => seq![body@],
        Stmt::ClassDef { body, .. } => seq![body@],
        Stmt::With { body, .. } => seq![body@],
        Stmt::For { body, orelse, .. } => seq![body@, orelse@],
        Stmt::While { body, orelse, .. } => seq![body@, orelse@],
        Stmt::If { body, elif_else_clauses, .. } => seq![body@] + elif_else_clauses@.map_values(
            |c: ElifElseClause| c.body@,
        ),
        Stmt::Try { body, handlers, orelse, finalbody } => seq![body@, orelse@, finalbody@]
            + handlers@.map_values(|h: ExceptHandler| h.body@),
        Stmt::Match { cases, .. } => cases@.map_values(|c: MatchCase| c.body@),
        _ => Seq::empty(),
    }
}

/// `b` reads what `a` reads, except that a plain read of a name that `m`
/// maps reads the name it maps to.
pub open spec fn plain_read_mapped(a: Expr, b: Expr, m: Map<Seq<char>, Seq<char>>) -> bool {
    a matches Expr::Name { id, ctx } ==> (m.contains_key(id@) ==> (b matches Expr::Name {
        id: id2,
        ctx: c2,
    } && id2@ == m[id@] && c2 == ctx))
}

// ---------------------------------------------------------------------------
// Renaming
// ---------------------------------------------------------------------------

proof fn lemma_stmts_renamed_each(a: Seq<Stmt>, b: Seq<Stmt>, m: Map<Seq<char>, Seq<char>>)
    requires
        stmts_renamed(a, b, m),
    ensures
        a.len() == b.len(),
        forall|i: int| 0 <= i < a.len() ==> stmt_renamed(#[trigger] a[i], b[i], m),
    decreases a.len(),
{
    if a.len() > 0 {
        lemma_stmts_renamed_each(a.drop_last(), b.drop_last(), m);
        assert forall|i: int| 0 <= i < a.len() implies stmt_renamed(#[trigger] a[i], b[i], m) by {
            if i < a.len() - 1 {
                assert(a.drop_last()[i] == a[i]);
                assert(b.drop_last()[i] == b[i]);
            }
        }
    }
}

proof fn lemma_clauses_renamed_each(
    a: Seq<ElifElseClause>,
    b: Seq<ElifElseClause>,
    m: Map<Seq<char>, Seq<char>>,
)
    requires
        clauses_renamed(a, b, m),
    ensures
        a.len() == b.len(),
        forall|i: int| 0 <= i < a.len() ==> stmts_renamed((#[trigger] a[i]).body@, b[i].body@, m),
    decreases a.len(),
{
    if a.len() > 0 {
        lemma_clauses_renamed_each(a.drop_last(), b.drop_last(), m);
        assert forall|i: int| 0 <= i < a.len() implies stmts_renamed(
            (#[trigger] a[i]).body@,
            b[i].body@,
            m,
        ) by {
            if i < a.len() - 1 {
                assert(a.drop_last()[i] == a[i]);
                assert(b.drop_last()[i] == b[i]);
            } else {
                assert(clause_renamed(a.last(), b.last(), m));
            }
        }
    }
}

proof fn lemma_blocks_renamed(bs: Seq<Seq<Stmt>>, br: Seq<Seq<Stmt>>, m: Map<Seq<char>, Seq<char>>)
    requires
        bs.len() == br.len(),
        forall|k: int| 0 <= k < bs.len() ==> stmts_renamed(#[trigger] bs[k], br[k], m),
    ensures
        forall|k: int| 0 <= k < bs.len() ==> (#[trigger] br[k]).len() == bs[k].len(),
        forall|k: int, i: int|
            0 <= k < bs.len() && 0 <= i < bs[k].len() ==> stmt_renamed(#[trigger] bs[k][i], br[k][i], m),
{
    assert forall|k: int| 0 <= k < bs.len() implies (#[trigger] br[k]).len() == bs[k].len() by {
        lemma_stmts_renamed_each(bs[k], br[k], m);
    }
    assert forall|k: int, i: int| 0 <= k < bs.len() && 0 <= i < bs[k].len() implies stmt_renamed(
        #[trigger] bs[k][i],
        br[k][i],
        m,
    ) by {
        lemma_stmts_renamed_each(bs[k], br[k], m);
    }
}

/// Renaming a statement renames the names its leading expression reads (an
/// expression statement, an assigned or returned value, an `if` or `while`
/// test, a `for` iterable), so a plain read of a renamed global reads its
/// new name; and the statements of the blocks of an `if`, `for`, `while`,
/// function or class are renamed in place, each as it would be on its own.
pub proof fn law_statement_renamed_throughout(s: Stmt, r: Stmt, m: Map<Seq<char>, Seq<char>>)
    requires
        stmt_renamed(s, r, m),
    ensures
        leading_expr(s) matches Some(e) ==> (leading_expr(r) matches Some(e2) && refs_renamed(e, e2, m)
            && plain_read_mapped(e, e2, m)),
        s is If || s is For || s is While || s is FunctionDef || s is ClassDef ==> ({
            let bs = statement_blocks(s);
            let br = statement_blocks(r);
            &&& br.len() == bs.len()
            &&& forall|k: int| 0 <= k < bs.len() ==> (#[trigger] br[k]).len() == bs[k].len()
            &&& forall|k: int, i: int|
                0 <= k < bs.len() && 0 <= i < bs[k].len() ==> stmt_renamed(
                    #[trigger] bs[k][i],
                    br[k][i],
                    m,
                )
        }),
{
    let bs = statement_blocks(s);
    let br = statement_blocks(r);
    match s {
        Stmt::If { body, elif_else_clauses, .. } => {
            if let Stmt::If { body: b2, elif_else_clauses: c2, .. } = r {
                lemma_clauses_renamed_each(elif_else_clauses@, c2@, m);
                assert forall|k: int| 0 <= k < bs.len() implies stmts_renamed(#[trigger] bs[k], br[k], m) by {
                    if k > 0 {
                        assert(bs[k] == elif_else_clauses@[k - 1].body@);
                        assert(br[k] == c2@[k - 1].body@);
                    }
                }
                lemma_blocks_renamed(bs, br, m);
            }
        },
        Stmt::For { .. } | Stmt::While { .. } | Stmt::FunctionDef { .. } | Stmt::ClassDef { .. } => {
            lemma_blocks_renamed(bs, br, m);
        },
        _ => {},
    }
}

// ---------------------------------------------------------------------------
// Alias normalization
// ---------------------------------------------------------------------------

proof fn lemma_stmts_alias_rewritten_each(a: Seq<Stmt>, b: Seq<Stmt>, m: Map<Seq<char>, Seq<char>>)
    requires
        stmts_alias_rewritten(a, b, m),
    ensures
        a.len() == b.len(),
        forall|i: int| 0 <= i < a.len() ==> stmt_alias_rewritten(#[trigger] a[i], b[i], m),
    decreases a.len(),
{
    if a.len() > 0 {
        lemma_stmts_alias_rewritten_each(a.drop_last(), b.drop_last(), m);
        assert forall|i: int| 0 <= i < a.len() implies stmt_alias_rewritten(#[trigger] a[i], b[i], m) by {
            if i < a.len() - 1 {
                assert(a.drop_last()[i] == a[i]);
                assert(b.drop_last()[i] == b[i]);
            }
        }
    }
}

proof fn lemma_handlers_rewritten_each(
    a: Seq<ExceptHandler>,
    b: Seq<ExceptHandler>,
    m: Map<Seq<char>, Seq<char>>,
)
    requires
        handlers_rewritten(a, b, m),
    ensures
        a.len() == b.len(),
        forall|i: int| 0 <= i < a.len() ==> stmts_alias_rewritten((#[trigger] a[i]).body@, b[i].body@, m),
    decreases a.len(),
{
    if a.len() > 0 {
        lemma_handlers_rewritten_each(a.drop_last(), b.drop_last(), m);
        assert forall|i: int| 0 <= i < a.len() implies stmts_alias_rewritten(
            (#[trigger] a[i]).body@,
            b[i].body@,
            m,
        ) by {
            if i < a.len() - 1 {
                assert(a.drop_last()[i] == a[i]);
                assert(b.drop_last()[i] == b[i]);
            } else {
                assert(handler_rewritten(a.last(), b.last(), m));
            }
        }
    }
}

proof fn lemma_clauses_rewritten_each(
    a: Seq<ElifElseClause>,
    b: Seq<ElifElseClause>,
    m: Map<Seq<char>, Seq<char>>,
)
    requires
        clauses_rewritten(a, b, m),
    ensures
        a.len() == b.len(),
        forall|i: int| 0 <= i < a.len() ==> stmts_alias_rewritten((#[trigger] a[i]).body@, b[i].body@, m),
    decreases a.len(),
{
    if a.len() > 0 {
        lemma_clauses_rewritten_each(a.drop_last(), b.drop_last(), m);
        assert forall|i: int| 0 <= i < a.len() implies stmts_alias_rewritten(
            (#[trigger] a[i]).body@,
            b[i].body@,
            m,
        ) by {
            if i < a.len() - 1 {
                assert(a.drop_last()[i] == a[i]);
                assert(b.drop_last()[i] == b[i]);
            } else {
                assert(clause_rewritten(a.last(), b.last(), m));
            }
        }
    }
}

proof fn lemma_cases_rewritten_each(a: Seq<MatchCase>, b: Seq<MatchCase>, m: Map<Seq<char>, Seq<char>>)
    requires
        cases_rewritten(a, b, m),
    ensures
        a.len() == b.len(),
        forall|i: int| 0 <= i < a.len() ==> stmts_alias_rewritten((#[trigger] a[i]).body@, b[i].body@, m),
    decreases a.len(),
{
    if a.len() > 0 {
        lemma_cases_rewritten_each(a.drop_last(), b.drop_last(), m);
        assert forall|i: int| 0 <= i < a.len() implies stmts_alias_rewritten(
            (#[trigger] a[i]).body@,
            b[i].body@,
            m,
        ) by {
            if i < a.len() - 1 {
                assert(a.drop_last()[i] == a[i]);
                assert(b.drop_last()[i] == b[i]);
            } else {
                assert(case_rewritten(a.last(), b.last(), m));
            }
        }
    }
}

proof fn lemma_blocks_alias_rewritten(bs: Seq<Seq<Stmt>>, br: Seq<Seq<Stmt>>, m: Map<Seq<char>, Seq<char>>)
    requires
        bs.len() == br.len(),
        forall|k: int| 0 <= k < bs.len() ==> stmts_alias_rewritten(#[trigger] bs[k], br[k], m),
    ensures
        forall|k: int| 0 <= k < bs.len() ==> (#[trigger] br[k]).len() == bs[k].len(),
        forall|k: int, i: int|
            0 <= k < bs.len() && 0 <= i < bs[k].len() ==> stmt_alias_rewritten(
                #[trigger] bs[k][i],
                br[k][i],
                m,
            ),
{
    assert forall|k: int| 0 <= k < bs.len() implies (#[trigger] br[k]).len() == bs[k].len() by {
        lemma_stmts_alias_rewritten_each(bs[k], br[k], m);
    }
    assert forall|k: int, i: int| 0 <= k < bs.len() && 0 <= i < bs[k].len() implies stmt_alias_rewritten(
        #[trigger] bs[k][i],
        br[k][i],
        m,
    ) by {
        lemma_stmts_alias_rewritten_each(bs[k], br[k], m);
    }
}

/// Normalizing aliases reaches every block a statement holds: each
/// statement of a function, class or `with` body, of a loop and its `else`,
/// of an `if` and its clauses, of a `try` body, its handlers, its `else` and
/// its `finally`, and of `match` cases, is rewritten in place as it would be
/// on its own; an expression statement there that reads an alias reads the
/// canonical name. The statement's leading expression (an expression
/// statement, an assigned or returned value, an `if` or `while` test, a
/// `for` iterable) reads canonical names in place of aliases too.
pub proof fn law_alias_rewrite_throughout(s: Stmt, r: Stmt, m: Map<Seq<char>, Seq<char>>)
    requires
        stmt_alias_rewritten(s, r, m),
    ensures
        leading_expr(s) matches Some(e) ==> (leading_expr(r) matches Some(e2) && alias_rewritten(e, e2, m)
            && plain_read_mapped(e, e2, m)),
        ({
            let bs = statement_blocks(s);
            let br = statement_blocks(r);
            &&& br.len() == bs.len()
            &&& forall|k: int| 0 <= k < bs.len() ==> (#[trigger] br[k]).len() == bs[k].len()
            &&& forall|k: int, i: int|
                0 <= k < bs.len() && 0 <= i < bs[k].len() ==> stmt_alias_rewritten(
                    #[trigger] bs[k][i],
                    br[k][i],
                    m,
                )
            &&& forall|k: int, i: int|
                #![trigger bs[k][i]]
                0 <= k < bs.len() && 0 <= i < bs[k].len() ==> (bs[k][i] matches Stmt::Expr(e)
                    ==> (br[k][i] matches Stmt::Expr(e2) && plain_read_mapped(e, e2, m)))
        }),
{
    let bs = statement_blocks(s);
    let br = statement_blocks(r);
    match s {
        Stmt::If { body, elif_else_clauses, .. } => {
            if let Stmt::If { body: b2, elif_else_clauses: c2, .. } = r {
                lemma_clauses_rewritten_each(elif_else_clauses@, c2@, m);
                assert forall|k: int| 0 <= k < bs.len() implies stmts_alias_rewritten(
                    #[trigger] bs[k],
                    br[k],
                    m,
                ) by {
                    if k > 0 {
                        assert(bs[k] == elif_else_clauses@[k - 1].body@);
                        assert(br[k] == c2@[k - 1].body@);
                    }
                }
            }
        },
        Stmt::Try { body, handlers, orelse, finalbody } => {
            if let Stmt::Try { body: b2, handlers: h2, orelse: o2, finalbody: f2 } = r {
                lemma_handlers_rewritten_each(handlers@, h2@, m);
                assert forall|k: int| 0 <= k < bs.len() implies stmts_alias_rewritten(
                    #[trigger] bs[k],
                    br[k],
                    m,
                ) by {
                    if k > 2 {
                        assert(bs[k] == handlers@[k - 3].body@);
                        assert(br[k] == h2@[k - 3].body@);
                    }
                }
            }
        },
        Stmt::Match { cases, .. } => {
            if let Stmt::Match { cases: c2, .. } = r {
                lemma_cases_rewritten_each(cases@, c2@, m);
                assert forall|k: int| 0 <= k < bs.len() implies stmts_alias_rewritten(
                    #[trigger] bs[k],
                    br[k],
                    m,
                ) by {
                    assert(bs[k] == cases@[k].body@);
                    assert(br[k] == c2@[k].body@);
                }
            }
        },
        _ => {},
    }
    lemma_blocks_alias_rewritten(bs, br, m);
}

// ---------------------------------------------------------------------------
// Relative imports
// ---------------------------------------------------------------------------

proof fn lemma_join_split(s: Seq<char>)
    ensures
        join_with(split_on(s, '.'), "."@) == s,
    decreases s.len(),
{
    reveal_strlit(".");
    if s.len() > 0 {
        let t = s.drop_last();
        lemma_join_split(t);
        crate::text::lemma_split_nonempty(t, '.');
        let p = split_on(t, '.');
        if s.last() == '.' {
            assert(p.push(Seq::<char>::empty()).drop_last() =~= p);
            assert(join_with(p, "."@) + "."@ + Seq::<char>::empty() =~= s);
        } else {
            let q = p.update(p.len() - 1, p.last().push(s.last()));
            if p.len() == 1 {
                assert(q[0] =~= s);
            } else {
                assert(q.drop_last() =~= p.drop_last());
                assert(join_with(p.drop_last(), "."@) + "."@ + p.last().push(s.last()) =~= (
                join_with(p.drop_last(), "."@) + "."@ + p.last()).push(s.last()));
                assert(t.push(s.last()) =~= s);
            }
        }
    }
}

/// In a package, one that some bundled module lies inside, the relative
/// import `from .name import ...` names the package's submodule
/// `package.name` and `from . import ...` the package itself, whether or not
/// the importing file's path is known: resolving with no path gives what
/// resolving with the path of the package's `__init__.py` gives.
pub proof fn law_package_relative_import(
    bundled: Seq<Seq<char>>,
    package: Seq<char>,
    name: Seq<char>,
    init_path: Seq<char>,
)
    requires
        exists|k: int| 0 <= k < bundled.len() && has_prefix(#[trigger] bundled[k], package + "."@),
        path_components(init_path).len() > 0,
        path_components(init_path).last() == "__init__.py"@,
    ensures
        relative_import_target(bundled, 1, Some(name), package, None) == Some(package + "."@ + name),
        relative_import_target(bundled, 1, Some(name), package, Some(init_path)) == Some(
            package + "."@ + name,
        ),
        relative_import_target(bundled, 1, None, package, None) == Some(package),
        relative_import_target(bundled, 1, None, package, Some(init_path)) == Some(package),
{
    let parts = split_on(package, '.');
    crate::text::lemma_split_nonempty(package, '.');
    lemma_join_split(package);
    assert(parts.subrange(0, parts.len() - 0) =~= parts);
    assert(parts.push(name).drop_last() =~= parts);
}

proof fn lemma_no_dot_at(s: Seq<char>, i: int)
    requires
        !s.contains('.'),
        0 <= i < s.len(),
    ensures
        s[i] != '.',
{
    if s[i] == '.' {
        assert(s.contains('.'));
    }
}

proof fn lemma_no_dot_prefix(s: Seq<char>)
    requires
        !s.contains('.'),
        s.len() > 0,
    ensures
        !s.drop_last().contains('.'),
{
    if s.drop_last().contains('.') {
        let j = choose|j: int| 0 <= j < s.drop_last().len() && s.drop_last()[j] == '.';
        assert(s[j] == '.');
    }
}

proof fn lemma_split_without_sep(s: Seq<char>)
    requires
        !s.contains('.'),
    ensures
        split_on(s, '.') == seq![s],
    decreases s.len(),
{
    if s.len() == 0 {
        assert(s =~= Seq::<char>::empty());
    } else {
        let t = s.drop_last();
        lemma_no_dot_prefix(s);
        lemma_split_without_sep(t);
        lemma_no_dot_at(s, s.len() - 1);
        assert(t.push(s.last()) =~= s);
        assert(seq![t].update(0, t.push(s.last())) =~= seq![s]);
    }
}

proof fn lemma_split_after_sep(a: Seq<char>, l: Seq<char>)
    requires
        !l.contains('.'),
    ensures
        split_on(a + seq!['.'] + l, '.') == split_on(a, '.').push(l),
    decreases l.len(),
{
    let s = a + seq!['.'] + l;
    if l.len() == 0 {
        assert(s.drop_last() =~= a);
        assert(s.last() == '.');
        assert(l =~= Seq::<char>::empty());
    } else {
        let l2 = l.drop_last();
        lemma_no_dot_prefix(l);
        lemma_split_after_sep(a, l2);
        assert(s.drop_last() =~= a + seq!['.'] + l2);
        lemma_no_dot_at(l, l.len() - 1);
        assert(s.last() == l.last());
        let p = split_on(a, '.').push(l2);
        assert(l2.push(l.last()) =~= l);
        assert(p.update(p.len() - 1, p.last().push(l.last())) =~= split_on(a, '.').push(l));
    }
}

proof fn lemma_split_join(parts: Seq<Seq<char>>)
    requires
        parts.len() >= 1,
        forall|k: int| 0 <= k < parts.len() ==> !(#[trigger] parts[k]).contains('.'),
    ensures
        split_on(join_with(parts, "."@), '.') == parts,
    decreases parts.len(),
{
    reveal_strlit(".");
    if parts.len() == 1 {
        lemma_split_without_sep(parts[0]);
        assert(seq![parts[0]] =~= parts);
    } else {
        let init = parts.drop_last();
        assert forall|k: int| 0 <= k < init.len() implies !(#[trigger] init[k]).contains('.') by {
            assert(init[k] == parts[k]);
        }
        lemma_split_join(init);
        assert(!parts[parts.len() - 1].contains('.'));
        lemma_split_after_sep(join_with(init, "."@), parts.last());
        assert("."@ =~= seq!['.']);
        assert(join_with(parts, "."@) == join_with(init, "."@) + seq!['.'] + parts.last());
        assert(init.push(parts.last()) =~= parts);
    }
}

/// A relative import of `level` dots in the module whose dotted name has the
/// parts `parts`, with no path known, names the module `name` inside the
/// package that keeps the first parts: for a plain module all parts but the
/// last `level`, for a package (some bundled module lies inside it) all but
/// the last `level - 1`; climbing above the top level names nothing.
pub proof fn law_relative_import_climbs(
    bundled: Seq<Seq<char>>,
    parts: Seq<Seq<char>>,
    level: u32,
    name: Seq<char>,
)
    requires
        parts.len() >= 1,
        forall|k: int| 0 <= k < parts.len() ==> !(#[trigger] parts[k]).contains('.'),
        level >= 1,
    ensures
        ({
            let current = join_with(parts, "."@);
            let package = exists|k: int|
                0 <= k < bundled.len() && has_prefix(#[trigger] bundled[k], current + "."@);
            let kept: int = if package {
                parts.len() - level + 1
            } else {
                parts.len() - level
            };
            &&& kept >= 0 ==> relative_import_target(bundled, level, Some(name), current, None)
                == Some(join_with(parts.subrange(0, kept).push(name), "."@))
            &&& kept < 0 ==> relative_import_target(bundled, level, Some(name), current, None) is None
        }),
{
    lemma_split_join(parts);
    assert(parts.subrange(0, parts.len() as int) =~= parts);
    assert(parts.subrange(0, 0).push(name) =~= seq![name]);
}

// ---------------------------------------------------------------------------
// The cycle check
// ---------------------------------------------------------------------------

/// Resolvable cycles pass the cycle check only when every one of them is
/// function-level: a class-level, module-constant or import-time cycle
/// anywhere among them fails it.
pub proof fn law_cycle_check_needs_function_level(cs: Seq<CircularDependencyGroup>, i: int)
    ensures
        all_function_level(cs) <==> forall|j: int|
            0 <= j < cs.len() ==> (#[trigger] cs[j]).cycle_type is FunctionLevel,
        0 <= i < cs.len() && (cs[i].cycle_type is ClassLevel || cs[i].cycle_type is ModuleConstants
            || cs[i].cycle_type is ImportTime) ==> !all_function_level(cs),
{
    assert(all_function_level(cs) <==> forall|j: int|
        0 <= j < cs.len() ==> (#[trigger] cs[j]).cycle_type is FunctionLevel) by {
        if all_function_level(cs) {
            assert forall|j: int| 0 <= j < cs.len() implies (#[trigger] cs[j]).cycle_type is FunctionLevel by {
                assert(cs[j].cycle_type == CircularDependencyType::FunctionLevel);
            }
        }
    }
}

} // verus!
