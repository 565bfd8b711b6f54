//! The statements the bundle adds around the modules' own code: module
//! objects, `sys.modules` entries, attribute and name assignments.
use vstd::prelude::*;

use crate::ast::{CmpOp, DictItem, Expr, ExprContext, Keyword, Stmt};
use crate::collections::pair_views;
use crate::code_generator::HybridStaticBundler;
use crate::text::{
    contains_char, copy_string, decimal, join_strings, join_with, lemma_split_nonempty, split_char,
    split_on, str_eq, to_string, usize_to_decimal, views,
};

verus! {

/// The name `id`, read or written as `ctx` says.
pub open spec fn is_name(e: Expr, id: Seq<char>, ctx: ExprContext) -> bool {
    e matches Expr::Name { id: i, ctx: c } && i@ == id && c == ctx
}

/// The string literal `v`.
pub open spec fn is_str(e: Expr, v: Seq<char>) -> bool {
    e matches Expr::StringLiteral(s) && s@ == v
}

/// `base.attr` (`base` a name read), with the context `ctx`.
pub open spec fn is_name_attr(e: Expr, base: Seq<char>, attr: Seq<char>, ctx: ExprContext) -> bool {
    e matches Expr::Attribute { value, attr: a, ctx: c } && a@ == attr && c == ctx && is_name(
        *value,
        base,
        ExprContext::Load,
    )
}

/// `sys.modules`.
pub open spec fn is_sys_modules(e: Expr) -> bool {
    is_name_attr(e, "sys"@, "modules"@, ExprContext::Load)
}

/// `sys.modules['name']`.
pub open spec fn is_sys_modules_entry(e: Expr, name: Seq<char>) -> bool {
    e matches Expr::Subscript { value, slice } && is_sys_modules(*value) && is_str(*slice, name)
}

/// `types.ModuleType('name')`.
pub open spec fn is_module_type_call(e: Expr, name: Seq<char>) -> bool {
    e matches Expr::Call { func, args, keywords } && is_name_attr(
        *func,
        "types"@,
        "ModuleType"@,
        ExprContext::Load,
    ) && args@.len() == 1 && is_str(args@[0], name) && keywords@.len() == 0
}

/// An assignment to the one target `t` of the value `v`.
pub open spec fn assigns(s: Stmt, t: spec_fn(Expr) -> bool, v: spec_fn(Expr) -> bool) -> bool {
    s matches Stmt::Assign { targets, value } && targets@.len() == 1 && t(targets@[0]) && v(value)
}

/// `original = renamed`.
pub open spec fn is_reassignment(s: Stmt, original: Seq<char>, renamed: Seq<char>) -> bool {
    assigns(
        s,
        |t: Expr| is_name(t, original, ExprContext::Store),
        |v: Expr| is_name(v, renamed, ExprContext::Load),
    )
}

/// `module_var.attr = attr`.
pub open spec fn is_module_attr_assignment(s: Stmt, module_var: Seq<char>, attr: Seq<char>) -> bool {
    assigns(
        s,
        |t: Expr| is_name_attr(t, module_var, attr, ExprContext::Store),
        |v: Expr| is_name(v, attr, ExprContext::Load),
    )
}

/// `target = sys.modules['module']`.
pub open spec fn is_sys_modules_assignment(s: Stmt, target: Seq<char>, module: Seq<char>) -> bool {
    assigns(
        s,
        |t: Expr| is_name(t, target, ExprContext::Store),
        |v: Expr| is_sys_modules_entry(v, module),
    )
}

/// `module = types.ModuleType('module')`.
pub open spec fn is_namespace_module(s: Stmt, module: Seq<char>) -> bool {
    assigns(
        s,
        |t: Expr| is_name(t, module, ExprContext::Store),
        |v: Expr| is_module_type_call(v, module),
    )
}

/// `parent.attr = sys.modules['full']` (`parent` written as one name).
pub open spec fn is_dotted_attribute_assignment(
    s: Stmt,
    parent: Seq<char>,
    attr: Seq<char>,
    full: Seq<char>,
) -> bool {
    assigns(
        s,
        |t: Expr| is_name_attr(t, parent, attr, ExprContext::Store),
        |v: Expr| is_sys_modules_entry(v, full),
    )
}

/// `sys.modules['name'] = module`.
pub open spec fn is_sys_modules_registration(s: Stmt, name: Seq<char>) -> bool {
    assigns(
        s,
        |t: Expr| is_sys_modules_entry(t, name),
        |v: Expr| is_name(v, "module"@, ExprContext::Load),
    )
}

/// `if 'name' in sys.modules: return sys.modules['name']`.
pub open spec fn is_module_exists_check(s: Stmt, name: Seq<char>) -> bool {
    s matches Stmt::If { test, body, elif_else_clauses } && (test matches Expr::Compare {
        left,
        ops,
        comparators,
    } && is_str(*left, name) && ops@ == seq![CmpOp::In] && comparators@.len() == 1 && is_sys_modules(comparators@[0]))
        && body@.len() == 1 && (body@[0] matches Stmt::Return(Some(r)) && is_sys_modules_entry(
        r,
        name,
    )) && elif_else_clauses@.len() == 0
}

/// `__file__ if '__file__' in globals() else None`.
pub open spec fn is_file_or_none(e: Expr) -> bool {
    e matches Expr::IfExp { test, body, orelse } && (*test matches Expr::Compare { left, ops, comparators }
        && is_str(*left, "__file__"@) && ops@ == seq![CmpOp::In] && comparators@.len() == 1 && (comparators@[0] matches Expr::Call {
        func,
        args,
        keywords,
    } && is_name(*func, "globals"@, ExprContext::Load) && args@.len() == 0 && keywords@.len() == 0))
        && is_name(*body, "__file__"@, ExprContext::Load) && *orelse is NoneLiteral
}

/// `module = types.ModuleType('name')` then
/// `module.__file__ = __file__ if '__file__' in globals() else None`.
pub open spec fn is_module_object(v: Seq<Stmt>, name: Seq<char>) -> bool {
    &&& v.len() == 2
    &&& assigns(
        v[0],
        |t: Expr| is_name(t, "module"@, ExprContext::Store),
        |e: Expr| is_module_type_call(e, name),
    )
    &&& assigns(
        v[1],
        |t: Expr| is_name_attr(t, "module"@, "__file__"@, ExprContext::Store),
        |e: Expr| is_file_or_none(e),
    )
}

/// The parent `a.b` and last part `c` of the dotted name `a.b.c`.
pub open spec fn parent_of_dotted(m: Seq<char>) -> Seq<char> {
    join_with(split_on(m, '.').drop_last(), "."@)
}

pub open spec fn last_of_dotted(m: Seq<char>) -> Seq<char> {
    split_on(m, '.').last()
}

/// For `import a.b.c`, the statements `a.b = sys.modules['a.b']` and
/// `a.b.c = sys.modules['a.b.c']` (the parent written as one name).
pub open spec fn is_dotted_assignments(v: Seq<Stmt>, parts: Seq<Seq<char>>) -> bool {
    v.len() == (if parts.len() >= 1 {
        parts.len() - 1
    } else {
        0
    }) && forall|i: int|
        0 <= i < v.len() ==> is_dotted_attribute_assignment(
            #[trigger] v[i],
            join_with(parts.subrange(0, i + 1), "."@),
            parts[i + 1],
            join_with(parts.subrange(0, i + 2), "."@),
        )
}

/// Some statement is an assignment whose first target is the name `parent`.
pub open spec fn namespace_created(body: Seq<Stmt>, parent: Seq<char>) -> bool {
    exists|i: int|
        0 <= i < body.len() && (#[trigger] body[i] matches Stmt::Assign { targets, .. }
            && targets@.len() > 0 && (targets@[0] matches Expr::Name { id, .. } && id@ == parent))
}

/// The keyword `symbol=symbol_key`.
pub open spec fn is_export_keyword(kw: Keyword, symbol: Seq<char>, key: Seq<char>) -> bool {
    (kw.arg matches Some(a) && a@ == symbol) && is_name(kw.value, symbol + "_"@ + key, ExprContext::Load)
}

/// `name` read.
pub(crate) fn name_expr(id: &str) -> (r: Expr)
    ensures
        is_name(r, id@, ExprContext::Load),
{
    Expr::Name { id: to_string(id), ctx: ExprContext::Load }
}

/// `name` written.
pub(crate) fn store_name(id: &str) -> (r: Expr)
    ensures
        is_name(r, id@, ExprContext::Store),
{
    Expr::Name { id: to_string(id), ctx: ExprContext::Store }
}

/// `base.attr` with the context `ctx`.
pub(crate) fn name_attr(base: &str, attr: &str, ctx: ExprContext) -> (r: Expr)
    ensures
        is_name_attr(r, base@, attr@, ctx),
{
    Expr::Attribute { value: Box::new(name_expr(base)), attr: to_string(attr), ctx }
}

/// `sys.modules`.
fn sys_modules() -> (r: Expr)
    ensures
        is_sys_modules(r),
{
    proof {
        reveal_strlit("sys");
        reveal_strlit("modules");
    }
    name_attr("sys", "modules", ExprContext::Load)
}

/// The operator list of a comparison with one comparator.
pub(crate) fn single_op(op: CmpOp) -> (r: Vec<CmpOp>)
    ensures
        r@ == seq![op],
{
    let mut v: Vec<CmpOp> = Vec::new();
    v.push(op);
    v
}

/// A single-target assignment.
pub(crate) fn assign(target: Expr, value: Expr) -> (r: Stmt)
    ensures
        r matches Stmt::Assign { targets, value: v } && targets@.len() == 1 && targets@[0] == target
            && v == value,
{
    let mut targets: Vec<Expr> = Vec::new();
    targets.push(target);
    Stmt::Assign { targets, value }
}

impl HybridStaticBundler {
    /// The string literal `value`.
    pub fn create_string_literal(&self, value: &str) -> (r: Expr)
        ensures
            is_str(r, value@),
    {
        Expr::StringLiteral(to_string(value))
    }

    /// The integer literal `value` (read as an unsigned 32-bit number).
    pub fn create_number_literal(&self, value: i32) -> (r: Expr)
        ensures
            r matches Expr::NumberLiteral(t) && t@ == decimal((value as u32) as nat),
    {
        let v = value as u32;
        Expr::NumberLiteral(usize_to_decimal(v as usize))
    }

    /// `sys.modules['name']`.
    pub(crate) fn sys_modules_entry(&self, name: &str) -> (r: Expr)
        ensures
            is_sys_modules_entry(r, name@),
    {
        Expr::Subscript { value: Box::new(sys_modules()), slice: Box::new(self.create_string_literal(name)) }
    }

    /// `if 'synthetic_name' in sys.modules: return sys.modules['synthetic_name']`.
    pub fn create_module_exists_check(&self, synthetic_name: &str) -> (r: Stmt)
        ensures
            is_module_exists_check(r, synthetic_name@),
    {
        let mut comparators: Vec<Expr> = Vec::new();
        comparators.push(sys_modules());
        let condition = Expr::Compare {
            left: Box::new(self.create_string_literal(synthetic_name)),
            ops: single_op(CmpOp::In),
            comparators,
        };
        let mut body: Vec<Stmt> = Vec::new();
        body.push(Stmt::Return(Some(self.sys_modules_entry(synthetic_name))));
        Stmt::If { test: condition, body, elif_else_clauses: Vec::new() }
    }

    /// The module object of a wrapped module: `module =
    /// types.ModuleType('synthetic_name')` and its `__file__`.
    pub fn create_module_object_stmt(&self, synthetic_name: &str, _importer_path: &str) -> (r: Vec<Stmt>)
        ensures
            is_module_object(r@, synthetic_name@),
    {
        proof {
            reveal_strlit("types");
            reveal_strlit("ModuleType");
            reveal_strlit("module");
            reveal_strlit("__file__");
            reveal_strlit("globals");
        }
        let mut args: Vec<Expr> = Vec::new();
        args.push(self.create_string_literal(synthetic_name));
        let module_call = Expr::Call {
            func: Box::new(name_attr("types", "ModuleType", ExprContext::Load)),
            args,
            keywords: Vec::new(),
        };
        let globals_call = Expr::Call {
            func: Box::new(name_expr("globals")),
            args: Vec::new(),
            keywords: Vec::new(),
        };
        let mut comparators: Vec<Expr> = Vec::new();
        comparators.push(globals_call);
        let file_value = Expr::IfExp {
            test: Box::new(Expr::Compare {
                left: Box::new(self.create_string_literal("__file__")),
                ops: single_op(CmpOp::In),
                comparators,
            }),
            body: Box::new(name_expr("__file__")),
            orelse: Box::new(Expr::NoneLiteral),
        };
        let mut out: Vec<Stmt> = Vec::new();
        out.push(assign(store_name("module"), module_call));
        out.push(assign(name_attr("module", "__file__", ExprContext::Store), file_value));
        out
    }

    /// `sys.modules['synthetic_name'] = module`.
    pub fn create_sys_modules_registration(&self, synthetic_name: &str) -> (r: Stmt)
        ensures
            is_sys_modules_registration(r, synthetic_name@),
    {
        proof {
            reveal_strlit("module");
        }
        assign(self.sys_modules_entry(synthetic_name), name_expr("module"))
    }

    /// `sys.modules['original_name'] = module`: the module registered under
    /// its own name too.
    pub fn create_sys_modules_registration_alias(&self, _synthetic_name: &str, original_name: &str) -> (r:
        Stmt)
        ensures
            is_sys_modules_registration(r, original_name@),
    {
        self.create_sys_modules_registration(original_name)
    }

    /// `module_var.attr_name = attr_name`.
    pub fn create_module_attr_assignment(&self, module_var: &str, attr_name: &str) -> (r: Stmt)
        ensures
            is_module_attr_assignment(r, module_var@, attr_name@),
    {
        assign(name_attr(module_var, attr_name, ExprContext::Store), name_expr(attr_name))
    }

    /// `original_name = renamed_name`.
    pub fn create_reassignment(&self, original_name: &str, renamed_name: &str) -> (r: Stmt)
        ensures
            is_reassignment(r, original_name@, renamed_name@),
    {
        assign(store_name(original_name), name_expr(renamed_name))
    }

    /// `target_name = sys.modules['module_name']`.
    pub fn create_sys_modules_assignment(&self, target_name: &str, module_name: &str) -> (r: Stmt)
        ensures
            is_sys_modules_assignment(r, target_name@, module_name@),
    {
        assign(store_name(target_name), self.sys_modules_entry(module_name))
    }

    /// `module_name = types.ModuleType('module_name')`.
    pub fn create_namespace_module(&self, module_name: &str) -> (r: Stmt)
        ensures
            is_namespace_module(r, module_name@),
    {
        proof {
            reveal_strlit("types");
            reveal_strlit("ModuleType");
        }
        let mut args: Vec<Expr> = Vec::new();
        args.push(self.create_string_literal(module_name));
        let call = Expr::Call {
            func: Box::new(name_attr("types", "ModuleType", ExprContext::Load)),
            args,
            keywords: Vec::new(),
        };
        assign(store_name(module_name), call)
    }

    /// `parent_module.attr_name = sys.modules['full_module_name']`.
    pub fn create_dotted_attribute_assignment(
        &self,
        parent_module: &str,
        attr_name: &str,
        full_module_name: &str,
    ) -> (r: Stmt)
        ensures
            is_dotted_attribute_assignment(r, parent_module@, attr_name@, full_module_name@),
    {
        assign(name_attr(parent_module, attr_name, ExprContext::Store), self.sys_modules_entry(full_module_name))
    }

    /// Appends the assignment that binds `module` from `sys.modules`: for a
    /// dotted name its parent's attribute, else the name itself.
    pub fn create_module_assignment(&self, final_body: &mut Vec<Stmt>, module: &str)
        ensures
            final(final_body)@.len() == old(final_body)@.len() + 1,
            final(final_body)@.drop_last() == old(final_body)@,
            module@.contains('.') ==> is_dotted_attribute_assignment(
                final(final_body)@.last(),
                parent_of_dotted(module@),
                last_of_dotted(module@),
                module@,
            ),
            !module@.contains('.') ==> is_sys_modules_assignment(final(final_body)@.last(), module@, module@),
    {
        let ghost start = final_body@;
        if contains_char(module, '.') {
            let parts = split_char(module, '.');
            let ghost ps = views(parts@);
            proof {
                lemma_split_nonempty(module@, '.');
            }
            let parent_parts = copy_prefix(&parts, parts.len() - 1);
            let parent = join_strings(&parent_parts, ".");
            proof {
                reveal_strlit(".");
                assert(views(parent_parts@) =~= ps.drop_last());
            }
            let stmt = self.create_dotted_attribute_assignment(parent.as_str(), parts[parts.len() - 1].as_str(), module);
            final_body.push(stmt);
            proof {
                assert(final_body@.drop_last() =~= start);
            }
        } else {
            final_body.push(self.create_sys_modules_assignment(module, module));
            proof {
                assert(final_body@.drop_last() =~= start);
            }
        }
    }

    /// For `import a.b.c`, appends `a.b = sys.modules['a.b']` and `a.b.c =
    /// sys.modules['a.b.c']` (see `is_dotted_assignments`).
    pub fn create_dotted_assignments(&self, parts: &Vec<String>, result_stmts: &mut Vec<Stmt>)
        ensures
            final(result_stmts)@.len() >= old(result_stmts)@.len(),
            final(result_stmts)@.subrange(0, old(result_stmts)@.len() as int) == old(result_stmts)@,
            is_dotted_assignments(
                final(result_stmts)@.subrange(old(result_stmts)@.len() as int, final(result_stmts)@.len() as int),
                views(parts@),
            ),
    {
        let ghost start = result_stmts@;
        let ghost ps = views(parts@);
        proof {
            reveal_strlit(".");
        }
        let mut k: usize = 1;
        while k < parts.len()
            invariant
                1 <= k,
                k <= parts.len() || (parts.len() == 0 && k == 1),
                ps == views(parts@),
                result_stmts@.len() == start.len() + (k - 1),
                result_stmts@.subrange(0, start.len() as int) == start,
                forall|j: int|
                    0 <= j < k - 1 ==> is_dotted_attribute_assignment(
                        #[trigger] result_stmts@[start.len() + j],
                        join_with(ps.subrange(0, j + 1), "."@),
                        ps[j + 1],
                        join_with(ps.subrange(0, j + 2), "."@),
                    ),
            decreases parts.len() - k,
        {
            let parent_parts = copy_prefix(parts, k);
            let full_parts = copy_prefix(parts, k + 1);
            let parent = join_strings(&parent_parts, ".");
            let full_path = join_strings(&full_parts, ".");
            let stmt = self.create_dotted_attribute_assignment(parent.as_str(), parts[k].as_str(), full_path.as_str());
            let ghost before = result_stmts@;
            result_stmts.push(stmt);
            proof {
                assert(views(parent_parts@) =~= ps.subrange(0, k as int));
                assert(views(full_parts@) =~= ps.subrange(0, k + 1));
                assert(result_stmts@.subrange(0, start.len() as int) =~= start);
                assert forall|j: int|
                    0 <= j < k implies is_dotted_attribute_assignment(
                    #[trigger] result_stmts@[start.len() + j],
                    join_with(ps.subrange(0, j + 1), "."@),
                    ps[j + 1],
                    join_with(ps.subrange(0, j + 2), "."@),
                ) by {
                    if j < k - 1 {
                        assert(result_stmts@[start.len() + j] == before[start.len() + j]);
                    }
                }
            }
            k += 1;
        }
        proof {
            let added = result_stmts@.subrange(start.len() as int, result_stmts@.len() as int);
            assert(ps.len() == parts@.len());
            assert(added.len() == (if ps.len() >= 1 {
                ps.len() - 1
            } else {
                0
            }));
            assert forall|j: int| 0 <= j < added.len() implies is_dotted_attribute_assignment(
                #[trigger] added[j],
                join_with(ps.subrange(0, j + 1), "."@),
                ps[j + 1],
                join_with(ps.subrange(0, j + 2), "."@),
            ) by {
                assert(added[j] == result_stmts@[start.len() + j]);
            }
        }
    }

    /// Whether some statement already assigns the name `parent_path` (as
    /// its first target).
    pub fn is_namespace_already_created(&self, parent_path: &str, result_stmts: &Vec<Stmt>) -> (r: bool)
        ensures
            r == namespace_created(result_stmts@, parent_path@),
    {
        let mut i: usize = 0;
        while i < result_stmts.len()
            invariant
                i <= result_stmts.len(),
                forall|j: int|
                    0 <= j < i ==> !(#[trigger] result_stmts@[j] matches Stmt::Assign { targets, .. }
                        && targets@.len() > 0 && (targets@[0] matches Expr::Name { id, .. } && id@
                        == parent_path@)),
            decreases result_stmts.len() - i,
        {
            if let Stmt::Assign { targets, .. } = &result_stmts[i] {
                if targets.len() > 0 {
                    if let Expr::Name { id, .. } = &targets[0] {
                        if str_eq(id.as_str(), parent_path) {
                            return true;
                        }
                    }
                }
            }
            i += 1;
        }
        false
    }

    /// For a module with an `__all__` list, the keywords `symbol =
    /// symbol_inlinedkey` of its exported symbols, in order; none otherwise.
    pub fn create_namespace_keywords(&self, full_module_path: &str, inlined_key: &str) -> (r: Vec<Keyword>)
        ensures
            self.exports().contains_key(full_module_path@) && self.exports()[full_module_path@] is Some
                ==> r@.len() == self.exports()[full_module_path@]->0.len() && forall|i: int|
                0 <= i < r@.len() ==> is_export_keyword(
                    #[trigger] r@[i],
                    self.exports()[full_module_path@]->0[i],
                    inlined_key@,
                ),
            !(self.exports().contains_key(full_module_path@) && self.exports()[full_module_path@] is Some)
                ==> r@.len() == 0,
    {
        let mut keywords: Vec<Keyword> = Vec::new();
        proof {
            reveal_strlit("_");
        }
        match self.recorded_exports(full_module_path) {
            Some(exports) => {
                let mut i: usize = 0;
                while i < exports.len()
                    invariant
                        i <= exports.len(),
                        keywords@.len() == i,
                        forall|j: int|
                            0 <= j < i ==> is_export_keyword(#[trigger] keywords@[j], exports@[j]@, inlined_key@),
                    decreases exports.len() - i,
                {
                    let mut value_name = copy_string(&exports[i]);
                    value_name.append("_");
                    value_name.append(inlined_key);
                    let kw = Keyword {
                        arg: Some(copy_string(&exports[i])),
                        value: Expr::Name { id: value_name, ctx: ExprContext::Load },
                    };
                    let ghost before = keywords@;
                    keywords.push(kw);
                    proof {
                        assert forall|j: int| 0 <= j < i + 1 implies is_export_keyword(
                            #[trigger] keywords@[j],
                            exports@[j]@,
                            inlined_key@,
                        ) by {
                            if j < i {
                                assert(keywords@[j] == before[j]);
                            }
                        }
                    }
                    i += 1;
                }
            },
            None => {},
        }
        keywords
    }
}

/// Copies of the first `n` strings.
fn copy_prefix(v: &Vec<String>, n: usize) -> (r: Vec<String>)
    requires
        n <= v@.len(),
    ensures
        views(r@) == views(v@).subrange(0, n as int),
{
    let mut out: Vec<String> = Vec::new();
    let mut i: usize = 0;
    while i < n
        invariant
            i <= n,
            n <= v@.len(),
            views(out@) == views(v@).subrange(0, i as int),
        decreases n - i,
    {
        let ghost before = views(out@);
        out.push(copy_string(&v[i]));
        proof {
            assert(views(out@) =~= before.push(v@[i as int]@));
            assert(views(v@).subrange(0, i + 1) =~= views(v@).subrange(0, i as int).push(v@[i as int]@));
        }
        i += 1;
    }
    out
}

/// The entry `key: value` of a registry: the key a string literal, the value
/// a string literal (`names` false) or a name read (`names` true).
pub open spec fn is_registry_item(item: DictItem, key: Seq<char>, value: Seq<char>, names: bool) -> bool {
    &&& item.key matches Some(k) && is_str(k, key)
    &&& if names {
        is_name(item.value, value, ExprContext::Load)
    } else {
        is_str(item.value, value)
    }
}

/// The dict display `{key_0: value_0, ...}` of `pairs`: each key a string
/// literal, each value a string literal (`names` false) or a name read
/// (`names` true).
pub open spec fn is_registry_dict(e: Expr, pairs: Seq<(Seq<char>, Seq<char>)>, names: bool) -> bool {
    e matches Expr::Dict(items) && items@.len() == pairs.len() && forall|i: int|
        0 <= i < pairs.len() ==> is_registry_item(#[trigger] items@[i], pairs[i].0, pairs[i].1, names)
}

/// `target = {...}`, the registry `pairs` (see `is_registry_dict`) bound to the name `target`.
pub open spec fn is_registry_assignment(
    s: Stmt,
    target: Seq<char>,
    pairs: Seq<(Seq<char>, Seq<char>)>,
    names: bool,
) -> bool {
    s matches Stmt::Assign { targets, value } && targets@.len() == 1 && is_name(
        targets@[0],
        target,
        ExprContext::Store,
    ) && is_registry_dict(value, pairs, names)
}

/// The dict display of `pairs` (see `is_registry_dict`).
fn registry_dict(pairs: &Vec<(String, String)>, names: bool) -> (r: Expr)
    ensures
        is_registry_dict(r, pair_views(pairs@), names),
{
    let mut items: Vec<DictItem> = Vec::new();
    let mut i: usize = 0;
    while i < pairs.len()
        invariant
            i <= pairs.len(),
            items@.len() == i,
            forall|j: int|
                0 <= j < i ==> is_registry_item(#[trigger] items@[j], pairs@[j].0@, pairs@[j].1@, names),
        decreases pairs.len() - i,
    {
        let key = Expr::StringLiteral(copy_string(&pairs[i].0));
        let value = if names {
            Expr::Name { id: copy_string(&pairs[i].1), ctx: ExprContext::Load }
        } else {
            Expr::StringLiteral(copy_string(&pairs[i].1))
        };
        items.push(DictItem { key: Some(key), value });
        i += 1;
    }
    Expr::Dict(items)
}

impl HybridStaticBundler {
    /// `__cribo_modules = {'module': 'synthetic_name', ...}`: each wrapped
    /// module with its synthetic name, in registration order.
    pub fn create_module_registry(&self) -> (r: Stmt)
        ensures
            is_registry_assignment(r, "__cribo_modules"@, self.registry_pairs(), false),
    {
        proof {
            reveal_strlit("__cribo_modules");
        }
        let pairs = self.registry_entries();
        assign(store_name("__cribo_modules"), registry_dict(&pairs, false))
    }

    /// `__cribo_init_functions = {'synthetic_name': init_function, ...}`:
    /// each wrapped module's init function, by synthetic name, in
    /// registration order.
    pub fn create_init_functions_registry(&self) -> (r: Stmt)
        ensures
            is_registry_assignment(r, "__cribo_init_functions"@, self.init_function_pairs(), true),
    {
        proof {
            reveal_strlit("__cribo_init_functions");
        }
        let pairs = self.init_function_entries();
        assign(store_name("__cribo_init_functions"), registry_dict(&pairs, true))
    }
}

} // verus!
