//! Running a bundled module's code with `exec` in its module's namespace, and
//! the `global` declarations a package's `__init__.py` code needs there.
use vstd::prelude::*;

use crate::ast::{DictItem, Expr, ExprContext, Operator, Stmt};
use crate::emit::{dotted_expr, is_alphanumeric, unicode_alphanumeric, CodeEmitter, ImportStrategy};
use crate::text::{join_strings, join_with, lemma_split_nonempty, split_char, split_on, to_string, views};

verus! {

// ---------------------------------------------------------------------------
// Specification: text
// ---------------------------------------------------------------------------

/// `char::is_whitespace` holds of `c` (the Unicode `White_Space` property).
pub uninterp spec fn unicode_whitespace(c: char) -> bool;

/// `char::is_whitespace`: whether `c` has the Unicode `White_Space` property;
/// space, tab, line feed and carriage return have it, `.` and `_` do not.
#[verifier::external_body]
fn is_whitespace(c: char) -> (r: bool)
    ensures
        r == unicode_whitespace(c),
        (c == ' ' || c == '\t' || c == '\n' || c == '\r') ==> r,
        (c == '.' || c == '_') ==> !r,
{
    c.is_whitespace()
}

/// The first index from `i` on that holds no whitespace (or the end).
pub open spec fn skip_ws(s: Seq<char>, i: int) -> int
    decreases s.len() - i,
{
    if 0 <= i < s.len() && unicode_whitespace(s[i]) {
        skip_ws(s, i + 1)
    } else {
        i
    }
}

/// The end of `s[lo..j]` once the whitespace at its end is dropped.
pub open spec fn back_ws(s: Seq<char>, lo: int, j: int) -> int
    decreases j - lo,
{
    if lo < j <= s.len() && unicode_whitespace(s[j - 1]) {
        back_ws(s, lo, j - 1)
    } else {
        j
    }
}

/// `s` without its leading and trailing whitespace (as `str::trim` gives it).
pub open spec fn trimmed(s: Seq<char>) -> Seq<char> {
    let a = skip_ws(s, 0);
    s.subrange(a, back_ws(s, a, s.len() as int))
}

/// `l` without the `\r` that ends it.
pub open spec fn strip_cr(l: Seq<char>) -> Seq<char> {
    if l.len() > 0 && l.last() == '\r' {
        l.drop_last()
    } else {
        l
    }
}

/// The lines of `s` (as `str::lines` gives them): the pieces between `\n`,
/// each without a `\r` before its `\n`, and no empty line after a final `\n`.
pub open spec fn text_lines(s: Seq<char>) -> Seq<Seq<char>> {
    let p = split_on(s, '\n');
    let ended = p.drop_last().map_values(|l: Seq<char>| strip_cr(l));
    if p.last().len() == 0 {
        ended
    } else {
        ended.push(p.last())
    }
}

/// The first index from `i` on where `pat` occurs in `s`.
pub open spec fn find_from(s: Seq<char>, pat: Seq<char>, i: int) -> Option<int>
    decreases s.len() + 1 - i,
{
    if i < 0 || i + pat.len() > s.len() {
        None
    } else if s.subrange(i, i + pat.len()) == pat {
        Some(i)
    } else {
        find_from(s, pat, i + 1)
    }
}

/// `pat` occurs in `s`.
pub open spec fn has_substring(s: Seq<char>, pat: Seq<char>) -> bool {
    find_from(s, pat, 0) is Some
}

// ---------------------------------------------------------------------------
// Specification: global declarations
// ---------------------------------------------------------------------------

/// The name a line `name = a.b` binds to an attribute: the line, trimmed,
/// holds ` = `; before the first one stands a non-empty name of letters,
/// digits and `_`, after it a value with a `.` in it.
pub open spec fn declared_global(line: Seq<char>) -> Option<Seq<char>> {
    let t = trimmed(line);
    match find_from(t, " = "@, 0) {
        Some(p) => {
            let var = trimmed(t.subrange(0, p));
            let value = trimmed(t.subrange(p + 3, t.len() as int));
            if value.contains('.') && var.len() > 0 && forall|k: int|
                0 <= k < var.len() ==> unicode_alphanumeric(#[trigger] var[k]) || var[k] == '_' {
                Some(var)
            } else {
                None
            }
        },
        None => None,
    }
}

/// The names the lines bind to attributes, in order.
pub open spec fn declared_globals(lines: Seq<Seq<char>>) -> Seq<Seq<char>>
    decreases lines.len(),
{
    if lines.len() == 0 {
        Seq::empty()
    } else {
        let rest = declared_globals(lines.drop_last());
        match declared_global(lines.last()) {
            Some(v) => rest.push(v),
            None => rest,
        }
    }
}

/// `\nlocals()['name'] = name` for each name, in order.
pub open spec fn exposures(names: Seq<Seq<char>>) -> Seq<char>
    decreases names.len(),
{
    if names.len() == 0 {
        Seq::empty()
    } else {
        exposures(names.drop_last()) + "\nlocals()['"@ + names.last() + "'] = "@ + names.last()
    }
}

/// `code` with `global a, b` before it and `locals()['a'] = a` lines after
/// it, for the names its lines bind to attributes; `code` itself when there
/// is none.
pub open spec fn with_global_declarations(code: Seq<char>) -> Seq<char> {
    let names = declared_globals(text_lines(code));
    if names.len() == 0 {
        code
    } else {
        "global "@ + join_with(names, ", "@) + "\n"@ + code + exposures(names)
    }
}

// ---------------------------------------------------------------------------
// Specification: the exec statement
// ---------------------------------------------------------------------------

/// What `create_module_exec_statement` is asked for.
pub struct ModuleExecParams<'a> {
    pub module_name: &'a str,
    pub module_code: &'a str,
    pub include_globals: bool,
    pub import_strategy: &'a ImportStrategy,
}

/// The code run for a module: with its global declarations where it is a
/// package's `__init__.py` imported with `import`.
pub open spec fn exec_code(
    init_modules: Seq<Seq<char>>,
    name: Seq<char>,
    code: Seq<char>,
    strategy: ImportStrategy,
) -> Seq<char> {
    if strategy == ImportStrategy::ModuleImport && init_modules.contains(name) {
        with_global_declarations(code)
    } else {
        code
    }
}

/// A call of the name `f` with no argument.
pub open spec fn is_bare_call(e: Expr, f: Seq<char>) -> bool {
    e matches Expr::Call { func, args, keywords } && (*func matches Expr::Name { id, ctx } && id@ == f
        && ctx == ExprContext::Load) && args@.len() == 0 && keywords@.len() == 0
}

/// `module.__dict__`, `module` the dotted module name read.
pub open spec fn is_module_dict(e: Expr, name: Seq<char>) -> bool {
    e matches Expr::Attribute { value, attr, ctx } && attr@ == "__dict__"@ && ctx == ExprContext::Load
        && dotted_expr(*value, split_on(name, '.'), ExprContext::Load)
}

/// `globals() | {'top': top}`, `top` the first part of the module name.
pub open spec fn is_globals_with_package(e: Expr, name: Seq<char>) -> bool {
    let top = split_on(name, '.')[0];
    e matches Expr::BinOp { left, op, right } && is_bare_call(*left, "globals"@) && op
        == Operator::BitOr && (*right matches Expr::Dict(items) && items@.len() == 1 && (
    items@[0].key matches Some(Expr::StringLiteral(k)) && k@ == top) && (items@[0].value matches Expr::Name {
        id,
        ctx,
    } && id@ == top && ctx == ExprContext::Load))
}

/// `exec(code, ...)` run as a statement, with the arguments: the code as a
/// string; then, where globals are included, `globals() | {'pkg': pkg}` for
/// a package's `__init__.py` whose code names the module, else `globals()`;
/// then the module's `__dict__`.
pub open spec fn is_module_exec(
    s: Stmt,
    init_modules: Seq<Seq<char>>,
    name: Seq<char>,
    code: Seq<char>,
    include_globals: bool,
    strategy: ImportStrategy,
) -> bool {
    s matches Stmt::Expr(Expr::Call { func, args, keywords }) && (*func matches Expr::Name { id, ctx }
        && id@ == "exec"@ && ctx == ExprContext::Load) && keywords@.len() == 0 && (args@[0] matches Expr::StringLiteral(
        c,
    ) && c@ == exec_code(init_modules, name, code, strategy)) && if include_globals {
        &&& args@.len() == 3
        &&& is_module_dict(args@[2], name)
        &&& if init_modules.contains(name) && has_substring(code, name) {
            is_globals_with_package(args@[1], name)
        } else {
            is_bare_call(args@[1], "globals"@)
        }
    } else {
        args@.len() == 2 && is_module_dict(args@[1], name)
    }
}

/// `module.name = getattr(module, 'renamed')`, `module` the dotted module
/// name read.
pub open spec fn is_module_attribute_assignment(
    s: Stmt,
    module: Seq<char>,
    name: Seq<char>,
    renamed: Seq<char>,
) -> bool {
    s matches Stmt::Assign { targets, value } && targets@.len() == 1 && (targets@[0] matches Expr::Attribute {
        value: v,
        attr,
        ctx,
    } && attr@ == name && ctx == ExprContext::Store && dotted_expr(*v, split_on(module, '.'), ExprContext::Load))
        && (value matches Expr::Call { func, args, keywords } && (*func matches Expr::Name { id, ctx: c } && id@
        == "getattr"@ && c == ExprContext::Load) && args@.len() == 2 && dotted_expr(
        args@[0],
        split_on(module, '.'),
        ExprContext::Load,
    ) && (args@[1] matches Expr::StringLiteral(t) && t@ == renamed) && keywords@.len() == 0)
}

// ---------------------------------------------------------------------------
// Text
// ---------------------------------------------------------------------------

proof fn lemma_skip_ws_bounds(s: Seq<char>, i: int)
    requires
        0 <= i <= s.len(),
    ensures
        i <= skip_ws(s, i) <= s.len(),
    decreases s.len() - i,
{
    if i < s.len() && unicode_whitespace(s[i]) {
        lemma_skip_ws_bounds(s, i + 1);
    }
}

proof fn lemma_back_ws_bounds(s: Seq<char>, lo: int, j: int)
    requires
        0 <= lo <= j <= s.len(),
    ensures
        lo <= back_ws(s, lo, j) <= j,
    decreases j - lo,
{
    if lo < j && unicode_whitespace(s[j - 1]) {
        lemma_back_ws_bounds(s, lo, j - 1);
    }
}

/// `s` without its leading and trailing whitespace.
pub fn trim_str(s: &str) -> (r: String)
    ensures
        r@ == trimmed(s@),
{
    let n = s.unicode_len();
    let mut i: usize = 0;
    while i < n && is_whitespace(s.get_char(i))
        invariant
            n == s@.len(),
            i <= n,
            skip_ws(s@, i as int) == skip_ws(s@, 0),
        decreases n - i,
    {
        i = i + 1;
    }
    let mut j: usize = n;
    while j > i && is_whitespace(s.get_char(j - 1))
        invariant
            n == s@.len(),
            i <= j <= n,
            skip_ws(s@, 0) == i,
            back_ws(s@, i as int, j as int) == back_ws(s@, i as int, n as int),
        decreases j,
    {
        j = j - 1;
    }
    to_string(s.substring_char(i, j))
}

/// The first index from `from` on where `pat` occurs in `s`.
pub fn find_str(s: &str, pat: &str, from: usize) -> (r: Option<usize>)
    requires
        from <= s@.len(),
    ensures
        r matches Some(i) ==> find_from(s@, pat@, from as int) == Some(i as int),
        r is None ==> find_from(s@, pat@, from as int) is None,
{
    let n = s.unicode_len();
    let m = pat.unicode_len();
    if m > n {
        return None;
    }
    let mut i: usize = from;
    while i <= n - m
        invariant
            n == s@.len(),
            m == pat@.len(),
            m <= n,
            from <= i,
            find_from(s@, pat@, i as int) == find_from(s@, pat@, from as int),
        decreases n - i,
    {
        let mut k: usize = 0;
        let mut same = true;
        while k < m && same
            invariant
                n == s@.len(),
                m == pat@.len(),
                i + m <= n,
                k <= m,
                same <==> (forall|q: int| 0 <= q < k ==> s@[i + q] == pat@[q]),
            decreases m - k,
        {
            if s.get_char(i + k) != pat.get_char(k) {
                same = false;
            }
            k = k + 1;
        }
        if same {
            proof {
                assert(s@.subrange(i as int, i + m) =~= pat@);
            }
            return Some(i);
        }
        proof {
            let q = choose|q: int| 0 <= q < k && !(s@[i + q] == pat@[q]);
            assert(s@.subrange(i as int, i + m)[q] != pat@[q]);
        }
        i = i + 1;
    }
    None
}

/// `l` without the `\r` that ends it.
fn strip_cr_str(l: &String) -> (r: String)
    ensures
        r@ == strip_cr(l@),
{
    let n = l.as_str().unicode_len();
    if n > 0 && l.as_str().get_char(n - 1) == '\r' {
        proof {
            assert(l@.subrange(0, n - 1) =~= l@.drop_last());
        }
        to_string(l.as_str().substring_char(0, n - 1))
    } else {
        to_string(l.as_str())
    }
}

/// The lines of `s`.
pub fn text_lines_of(s: &str) -> (r: Vec<String>)
    ensures
        views(r@) == text_lines(s@),
{
    let parts = split_char(s, '\n');
    proof {
        lemma_split_nonempty(s@, '\n');
    }
    let k = parts.len();
    let ghost p = split_on(s@, '\n');
    let mut out: Vec<String> = Vec::new();
    let mut i: usize = 0;
    while i + 1 < k
        invariant
            k == parts@.len(),
            k >= 1,
            views(parts@) == p,
            i + 1 <= k,
            views(out@) == p.drop_last().subrange(0, i as int).map_values(|l: Seq<char>| strip_cr(l)),
        decreases k - i,
    {
        let line = strip_cr_str(&parts[i]);
        let ghost before = out@;
        out.push(line);
        proof {
            assert(views(out@) =~= views(before).push(strip_cr(p[i as int])));
            assert(p.drop_last().subrange(0, i + 1).map_values(|l: Seq<char>| strip_cr(l)) =~= p.drop_last().subrange(
                0,
                i as int,
            ).map_values(|l: Seq<char>| strip_cr(l)).push(strip_cr(p[i as int])));
        }
        i = i + 1;
    }
    proof {
        assert(p.drop_last().subrange(0, i as int) =~= p.drop_last());
        assert(p.last() == parts@[k - 1]@);
    }
    let last_len = parts[k - 1].as_str().unicode_len();
    if last_len > 0 {
        let last = to_string(parts[k - 1].as_str());
        let ghost before = out@;
        out.push(last);
        proof {
            assert(views(out@) =~= views(before).push(p.last()));
        }
    }
    out
}

impl CodeEmitter {
    /// The name a line binds to an attribute, if it is a `name = a.b` line.
    fn declared_global_of(line: &str) -> (r: Option<String>)
        ensures
            r matches Some(v) ==> declared_global(line@) == Some(v@),
            r is None ==> declared_global(line@) is None,
    {
        let t = trim_str(line);
        let ts = t.as_str();
        proof {
            reveal_strlit(" = ");
        }
        match find_str(ts, " = ", 0) {
            Some(p) => {
                proof {
                    lemma_find_fits(t@, " = "@, 0);
                }
                let var = trim_str(ts.substring_char(0, p));
                let n = ts.unicode_len();
                let value = trim_str(ts.substring_char(p + 3, n));
                let vs = value.as_str();
                let vn = vs.unicode_len();
                let mut has_dot = false;
                let mut i: usize = 0;
                while i < vn
                    invariant
                        vn == vs@.len(),
                        i <= vn,
                        has_dot <==> (exists|q: int| 0 <= q < i && vs@[q] == '.'),
                    decreases vn - i,
                {
                    if vs.get_char(i) == '.' {
                        has_dot = true;
                    }
                    i = i + 1;
                }
                proof {
                    if has_dot {
                        let q = choose|q: int| 0 <= q < vn && vs@[q] == '.';
                        assert(vs@.contains('.'));
                    }
                    if vs@.contains('.') {
                        let q = choose|q: int| 0 <= q < vs@.len() && vs@[q] == '.';
                        assert(has_dot);
                    }
                }
                let vr = var.as_str();
                let wn = vr.unicode_len();
                let mut ident = true;
                let mut j: usize = 0;
                while j < wn
                    invariant
                        wn == vr@.len(),
                        j <= wn,
                        ident <==> (forall|q: int| 0 <= q < j ==> unicode_alphanumeric(#[trigger] vr@[q]) || vr@[q] == '_'),
                    decreases wn - j,
                {
                    let c = vr.get_char(j);
                    if !(is_alphanumeric(c) || c == '_') {
                        ident = false;
                    }
                    j = j + 1;
                }
                if has_dot && wn > 0 && ident {
                    Some(var)
                } else {
                    None
                }
            },
            None => None,
        }
    }

    /// `code` with the `global` declarations its `name = a.b` lines need in
    /// an `exec` namespace, and lines that expose those names again after it.
    pub fn add_global_declarations_to_code(&self, _module_name: &str, code: &str) -> (r: String)
        ensures
            r@ == with_global_declarations(code@),
    {
        let lines = text_lines_of(code);
        let ghost ls = text_lines(code@);
        let mut names: Vec<String> = Vec::new();
        let mut i: usize = 0;
        while i < lines.len()
            invariant
                views(lines@) == ls,
                i <= lines.len(),
                views(names@) == declared_globals(ls.subrange(0, i as int)),
            decreases lines.len() - i,
        {
            proof {
                let t = ls.subrange(0, i + 1);
                assert(t.drop_last() =~= ls.subrange(0, i as int));
                assert(t.last() == lines@[i as int]@);
            }
            match Self::declared_global_of(lines[i].as_str()) {
                Some(v) => {
                    let ghost before = names@;
                    names.push(v);
                    proof {
                        assert(views(names@) =~= views(before).push(names@.last()@));
                    }
                },
                None => {},
            }
            i = i + 1;
        }
        proof {
            assert(ls.subrange(0, i as int) =~= ls);
        }
        if names.len() == 0 {
            return to_string(code);
        }
        let mut result = to_string("global ");
        let joined = join_strings(&names, ", ");
        result.append(joined.as_str());
        result.append("\n");
        result.append(code);
        let ghost head = result@;
        let mut k: usize = 0;
        while k < names.len()
            invariant
                k <= names.len(),
                result@ == head + exposures(views(names@).subrange(0, k as int)),
            decreases names.len() - k,
        {
            proof {
                let t = views(names@).subrange(0, k + 1);
                assert(t.drop_last() =~= views(names@).subrange(0, k as int));
                assert(t.last() == names@[k as int]@);
            }
            let ghost before = result@;
            result.append("\nlocals()['");
            result.append(names[k].as_str());
            result.append("'] = ");
            result.append(names[k].as_str());
            proof {
                let t = views(names@).subrange(0, k + 1);
                assert(result@ =~= head + exposures(t));
            }
            k = k + 1;
        }
        proof {
            assert(views(names@).subrange(0, k as int) =~= views(names@));
        }
        result
    }

    /// The dotted module name read: `a.b.c`.
    fn dotted_module(module_name: &str) -> (r: Expr)
        ensures
            dotted_expr(r, split_on(module_name@, '.'), ExprContext::Load),
    {
        let parts = split_char(module_name, '.');
        proof {
            lemma_split_nonempty(module_name@, '.');
        }
        Self::create_dotted_module_expr(&parts, ExprContext::Load)
    }

    /// `module.__dict__`.
    fn module_dict_expr(module_name: &str) -> (r: Expr)
        ensures
            is_module_dict(r, module_name@),
    {
        let value = Self::dotted_module(module_name);
        Expr::Attribute { value: Box::new(value), attr: to_string("__dict__"), ctx: ExprContext::Load }
    }

    /// `module.original_name = getattr(module, 'renamed_name')`: the module
    /// attribute under its own name, bound to what it was renamed to.
    pub fn create_module_attribute_assignment(
        &self,
        module_name: &str,
        original_name: &str,
        renamed_name: &str,
    ) -> (r: Result<Stmt, String>)
        ensures
            r matches Ok(s) && is_module_attribute_assignment(s, module_name@, original_name@, renamed_name@),
    {
        let target = Self::create_attribute_expr(Self::dotted_module(module_name), original_name, ExprContext::Store);
        let source = Self::create_getattr_call(Self::dotted_module(module_name), renamed_name);
        let mut targets: Vec<Expr> = Vec::new();
        targets.push(target);
        Ok(Stmt::Assign { targets, value: source })
    }

    /// A call of the name `f` with no argument.
    fn bare_call(f: &str) -> (r: Expr)
        ensures
            is_bare_call(r, f@),
    {
        Expr::Call {
            func: Box::new(Expr::Name { id: to_string(f), ctx: ExprContext::Load }),
            args: Vec::new(),
            keywords: Vec::new(),
        }
    }

    /// `globals() | {'top': top}`.
    fn globals_with_package(module_name: &str) -> (r: Expr)
        ensures
            is_globals_with_package(r, module_name@),
    {
        let parts = split_char(module_name, '.');
        proof {
            lemma_split_nonempty(module_name@, '.');
        }
        let top = &parts[0];
        let mut items: Vec<DictItem> = Vec::new();
        items.push(DictItem {
            key: Some(Expr::StringLiteral(to_string(top.as_str()))),
            value: Expr::Name { id: to_string(top.as_str()), ctx: ExprContext::Load },
        });
        Expr::BinOp {
            left: Box::new(Self::bare_call("globals")),
            op: Operator::BitOr,
            right: Box::new(Expr::Dict(items)),
        }
    }

    /// `exec(code, ...)`, running the module's code in its namespace.
    pub fn create_module_exec_statement(&self, params: ModuleExecParams) -> (r: Result<Stmt, String>)
        ensures
            r matches Ok(s) && is_module_exec(
                s,
                self.init_module_names(),
                params.module_name@,
                params.module_code@,
                params.include_globals,
                *params.import_strategy,
            ),
    {
        let is_init = self.is_init_py_module(params.module_name);
        let final_code = if *params.import_strategy == ImportStrategy::ModuleImport && is_init {
            self.add_global_declarations_to_code(params.module_name, params.module_code)
        } else {
            to_string(params.module_code)
        };
        let code_literal = Expr::StringLiteral(final_code);
        let module_dict = Self::module_dict_expr(params.module_name);
        let mut args: Vec<Expr> = Vec::new();
        args.push(code_literal);
        if params.include_globals {
            let names_module = match find_str(params.module_code, params.module_name, 0) {
                Some(_) => true,
                None => false,
            };
            if is_init && names_module {
                args.push(Self::globals_with_package(params.module_name));
            } else {
                args.push(Self::bare_call("globals"));
            }
        }
        args.push(module_dict);
        let exec_call = Expr::Call {
            func: Box::new(Expr::Name { id: to_string("exec"), ctx: ExprContext::Load }),
            args,
            keywords: Vec::new(),
        };
        Ok(Stmt::Expr(exec_call))
    }
}

/// A match that `find_from` reports lies within `s`.
proof fn lemma_find_fits(s: Seq<char>, pat: Seq<char>, i: int)
    ensures
        find_from(s, pat, i) matches Some(p) ==> i <= p && p + pat.len() <= s.len(),
    decreases s.len() + 1 - i,
{
    if !(i < 0 || i + pat.len() > s.len()) && s.subrange(i, i + pat.len()) != pat {
        lemma_find_fits(s, pat, i + 1);
    }
}

} // verus!
