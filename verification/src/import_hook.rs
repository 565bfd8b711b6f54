//! The import hook of a bundle: a meta path finder that runs a wrapped
//! module's init function the first time the module is imported.
use vstd::prelude::*;

use crate::ast::{Alias, CmpOp, Expr, ExprContext, Parameter, Parameters, Stmt};
use crate::builders::{
    assign, is_name, is_name_attr, is_registry_assignment, name_attr, name_expr, single_op, store_name,
};
use crate::code_generator::HybridStaticBundler;
use crate::text::{decimal, to_string};

verus! {

// ---------------------------------------------------------------------------
// Specification: the shape of the finder class
// ---------------------------------------------------------------------------

/// `inner.attr`, read.
pub open spec fn is_load_attr(e: Expr, inner: spec_fn(Expr) -> bool, attr: Seq<char>) -> bool {
    e matches Expr::Attribute { value, attr: a, ctx } && a@ == attr && ctx == ExprContext::Load
        && inner(*value)
}

/// `self.field`, read.
pub open spec fn is_self_field(e: Expr, field: Seq<char>) -> bool {
    is_name_attr(e, "self"@, field, ExprContext::Load)
}

/// A call of `f` with no argument at all.
pub open spec fn is_call0(e: Expr, f: spec_fn(Expr) -> bool) -> bool {
    e matches Expr::Call { func, args, keywords } && f(*func) && args@.len() == 0
        && keywords@.len() == 0
}

/// A call of `f` with the one positional argument `a0`.
pub open spec fn is_call1(e: Expr, f: spec_fn(Expr) -> bool, a0: spec_fn(Expr) -> bool) -> bool {
    e matches Expr::Call { func, args, keywords } && f(*func) && args@.len() == 1 && a0(args@[0])
        && keywords@.len() == 0
}

/// A call of `f` with the two positional arguments `a0` and `a1`.
pub open spec fn is_call2(
    e: Expr,
    f: spec_fn(Expr) -> bool,
    a0: spec_fn(Expr) -> bool,
    a1: spec_fn(Expr) -> bool,
) -> bool {
    e matches Expr::Call { func, args, keywords } && f(*func) && args@.len() == 2 && a0(args@[0])
        && a1(args@[1]) && keywords@.len() == 0
}

/// `left op comparator`, with one operator.
pub open spec fn is_compare(
    e: Expr,
    left: spec_fn(Expr) -> bool,
    op: CmpOp,
    right: spec_fn(Expr) -> bool,
) -> bool {
    e matches Expr::Compare { left: l, ops, comparators } && left(*l) && ops@ == seq![op]
        && comparators@.len() == 1 && right(comparators@[0])
}

/// `if test: body`, with no `elif` or `else`.
pub open spec fn is_plain_if(s: Stmt, test: spec_fn(Expr) -> bool, body: spec_fn(Seq<Stmt>) -> bool) -> bool {
    s matches Stmt::If { test: t, body: b, elif_else_clauses } && test(t) && body(b@)
        && elif_else_clauses@.len() == 0
}

/// A parameter `name` with neither annotation nor default.
pub open spec fn is_plain_param(p: Parameter, name: Seq<char>) -> bool {
    p.name@ == name && p.annotation is None && p.default is None
}

/// A parameter list made of positional-or-keyword parameters only.
pub open spec fn only_args(ps: Parameters) -> bool {
    ps.posonlyargs@.len() == 0 && ps.vararg is None && ps.kwonlyargs@.len() == 0 && ps.kwarg is None
}

/// `(self, module_registry, init_functions)`.
pub open spec fn is_init_parameters(ps: Parameters) -> bool {
    &&& only_args(ps)
    &&& ps.args@.len() == 3
    &&& is_plain_param(ps.args@[0], "self"@)
    &&& is_plain_param(ps.args@[1], "module_registry"@)
    &&& is_plain_param(ps.args@[2], "init_functions"@)
}

/// `(self, fullname, path, target=None)`.
pub open spec fn is_find_spec_parameters(ps: Parameters) -> bool {
    &&& only_args(ps)
    &&& ps.args@.len() == 4
    &&& is_plain_param(ps.args@[0], "self"@)
    &&& is_plain_param(ps.args@[1], "fullname"@)
    &&& is_plain_param(ps.args@[2], "path"@)
    &&& ps.args@[3].name@ == "target"@
    &&& ps.args@[3].annotation is None
    &&& ps.args@[3].default == Some(Expr::NoneLiteral)
}

/// A method `name` with no decorator and no return annotation.
pub open spec fn is_method(
    s: Stmt,
    name: Seq<char>,
    params: spec_fn(Parameters) -> bool,
    body: spec_fn(Seq<Stmt>) -> bool,
) -> bool {
    s matches Stmt::FunctionDef { name: n, decorators, parameters, return_type, body: b } && n@
        == name && decorators@.len() == 0 && return_type is None && params(parameters) && body(b@)
}

/// `self.field = field`.
pub open spec fn is_field_store(s: Stmt, field: Seq<char>) -> bool {
    s matches Stmt::Assign { targets, value } && targets@.len() == 1 && is_name_attr(
        targets@[0],
        "self"@,
        field,
        ExprContext::Store,
    ) && is_name(value, field, ExprContext::Load)
}

/// `self.module_registry = module_registry; self.init_functions = init_functions`.
pub open spec fn is_init_body(b: Seq<Stmt>) -> bool {
    b.len() == 2 && is_field_store(b[0], "module_registry"@) && is_field_store(b[1], "init_functions"@)
}

/// A name read.
pub open spec fn loads(id: Seq<char>) -> spec_fn(Expr) -> bool {
    |e: Expr| is_name(e, id, ExprContext::Load)
}

/// `init_func = self.init_functions.get(synthetic_name)` and
/// `if init_func: init_func()`.
pub open spec fn is_run_init_body(b: Seq<Stmt>) -> bool {
    &&& b.len() == 2
    &&& b[0] matches Stmt::Assign { targets, value } && targets@.len() == 1 && is_name(
        targets@[0],
        "init_func"@,
        ExprContext::Store,
    ) && is_call1(
        value,
        |f: Expr| is_load_attr(f, |i: Expr| is_self_field(i, "init_functions"@), "get"@),
        loads("synthetic_name"@),
    )
    &&& is_plain_if(
        b[1],
        loads("init_func"@),
        |body: Seq<Stmt>| body.len() == 1 && (body[0] matches Stmt::Expr(c) && is_call0(
            c,
            loads("init_func"@),
        )),
    )
}

/// The body of `if fullname in self.module_registry:` in `find_spec`:
/// look the synthetic name up, run the init function when the module is not
/// in `sys.modules` yet, then `import importlib.util` and
/// `return importlib.util.find_spec(synthetic_name)`.
pub open spec fn is_registered_branch(b: Seq<Stmt>) -> bool {
    &&& b.len() == 4
    &&& b[0] matches Stmt::Assign { targets, value } && targets@.len() == 1 && is_name(
        targets@[0],
        "synthetic_name"@,
        ExprContext::Store,
    ) && (value matches Expr::Subscript { value: v, slice } && is_self_field(*v, "module_registry"@)
        && is_name(*slice, "fullname"@, ExprContext::Load))
    &&& is_plain_if(
        b[1],
        |t: Expr| is_compare(
            t,
            loads("synthetic_name"@),
            CmpOp::NotIn,
            |m: Expr| is_name_attr(m, "sys"@, "modules"@, ExprContext::Load),
        ),
        |body: Seq<Stmt>| is_run_init_body(body),
    )
    &&& b[2] matches Stmt::Import(names) && names@.len() == 1 && names@[0].name@ == "importlib.util"@
        && names@[0].asname is None
    &&& b[3] matches Stmt::Return(Some(r)) && is_call1(
        r,
        |f: Expr| is_load_attr(
            f,
            |i: Expr| is_name_attr(i, "importlib"@, "util"@, ExprContext::Load),
            "find_spec"@,
        ),
        loads("synthetic_name"@),
    )
}

/// `if fullname in self.module_registry: ...` then `return None`.
pub open spec fn is_find_spec_body(b: Seq<Stmt>) -> bool {
    &&& b.len() == 2
    &&& is_plain_if(
        b[0],
        |t: Expr| is_compare(
            t,
            loads("fullname"@),
            CmpOp::In,
            |m: Expr| is_self_field(m, "module_registry"@),
        ),
        |body: Seq<Stmt>| is_registered_branch(body),
    )
    &&& b[1] == Stmt::Return(Some(Expr::NoneLiteral))
}

/// The class `CriboBundledFinder`, with no base, keyword or decorator, whose
/// body is `__init__(self, module_registry, init_functions)` keeping both
/// tables, then `find_spec(self, fullname, path, target=None)`: for a module
/// in the registry, it runs the init function of its synthetic name unless
/// that name is in `sys.modules` already, and returns
/// `importlib.util.find_spec` of the synthetic name; for any other module it
/// returns `None`.
pub open spec fn is_finder_class(s: Stmt) -> bool {
    s matches Stmt::ClassDef { name, decorators, bases, keywords, body } && name@
        == "CriboBundledFinder"@ && decorators@.len() == 0 && bases@.len() == 0 && keywords@.len()
        == 0 && body@.len() == 2 && is_method(
        body@[0],
        "__init__"@,
        |ps: Parameters| is_init_parameters(ps),
        |b: Seq<Stmt>| is_init_body(b),
    ) && is_method(
        body@[1],
        "find_spec"@,
        |ps: Parameters| is_find_spec_parameters(ps),
        |b: Seq<Stmt>| is_find_spec_body(b),
    )
}

/// The finder class, then
/// `sys.meta_path.insert(0, CriboBundledFinder(__cribo_modules, __cribo_init_functions))`.
pub open spec fn is_import_hook(v: Seq<Stmt>) -> bool {
    &&& v.len() == 2
    &&& is_finder_class(v[0])
    &&& v[1] matches Stmt::Expr(c) && is_call2(
        c,
        |f: Expr| is_load_attr(
            f,
            |i: Expr| is_name_attr(i, "sys"@, "meta_path"@, ExprContext::Load),
            "insert"@,
        ),
        |z: Expr| z matches Expr::NumberLiteral(t) && t@ == decimal(0),
        |e: Expr| is_call2(
            e,
            loads("CriboBundledFinder"@),
            loads("__cribo_modules"@),
            loads("__cribo_init_functions"@),
        ),
    )
}

// ---------------------------------------------------------------------------
// Construction
// ---------------------------------------------------------------------------

/// A parameter `name` with neither annotation nor default.
fn plain_param(name: &str) -> (r: Parameter)
    ensures
        is_plain_param(r, name@),
{
    Parameter { name: to_string(name), annotation: None, default: None }
}

/// A parameter list of the positional-or-keyword parameters `args`.
fn args_only(args: Vec<Parameter>) -> (r: Parameters)
    ensures
        only_args(r),
        r.args == args,
{
    Parameters { posonlyargs: Vec::new(), args, vararg: None, kwonlyargs: Vec::new(), kwarg: None }
}

/// A method `name` with no decorator and no return annotation.
fn method(name: &str, parameters: Parameters, body: Vec<Stmt>) -> (r: Stmt)
    ensures
        r matches Stmt::FunctionDef { name: n, decorators, parameters: p, return_type, body: b } && n@
            == name@ && decorators@.len() == 0 && return_type is None && p == parameters && b
            == body,
{
    Stmt::FunctionDef { name: to_string(name), decorators: Vec::new(), parameters, return_type: None, body }
}

/// `self.field = field`.
fn field_store(field: &str) -> (r: Stmt)
    ensures
        is_field_store(r, field@),
{
    assign(name_attr("self", field, ExprContext::Store), name_expr(field))
}

/// A call of `func` with the positional arguments `args` and no keyword.
fn call(func: Expr, args: Vec<Expr>) -> (r: Expr)
    ensures
        r matches Expr::Call { func: f, args: a, keywords } && *f == func && a == args
            && keywords@.len() == 0,
{
    Expr::Call { func: Box::new(func), args, keywords: Vec::new() }
}

/// `inner.attr`, read.
fn load_attr(inner: Expr, attr: &str) -> (r: Expr)
    ensures
        r matches Expr::Attribute { value, attr: a, ctx } && a@ == attr@ && ctx == ExprContext::Load
            && *value == inner,
{
    Expr::Attribute { value: Box::new(inner), attr: to_string(attr), ctx: ExprContext::Load }
}

/// `if test: body`.
fn plain_if(test: Expr, body: Vec<Stmt>) -> (r: Stmt)
    ensures
        r matches Stmt::If { test: t, body: b, elif_else_clauses } && t == test && b == body
            && elif_else_clauses@.len() == 0,
{
    Stmt::If { test, body, elif_else_clauses: Vec::new() }
}

/// `left op right`.
fn compare(left: Expr, op: CmpOp, right: Expr) -> (r: Expr)
    ensures
        r matches Expr::Compare { left: l, ops, comparators } && *l == left && ops@ == seq![op]
            && comparators@.len() == 1 && comparators@[0] == right,
{
    let mut comparators: Vec<Expr> = Vec::new();
    comparators.push(right);
    Expr::Compare { left: Box::new(left), ops: single_op(op), comparators }
}

impl HybridStaticBundler {
    /// The two registries, then the import hook.
    pub fn generate_registries_and_hook(&self) -> (r: Vec<Stmt>)
        ensures
            r@.len() == 4,
            is_registry_assignment(r@[0], "__cribo_modules"@, self.registry_pairs(), false),
            is_registry_assignment(r@[1], "__cribo_init_functions"@, self.init_function_pairs(), true),
            is_import_hook(r@.subrange(2, 4)),
    {
        let mut out: Vec<Stmt> = Vec::new();
        out.push(self.create_module_registry());
        out.push(self.create_init_functions_registry());
        let mut hook = self.create_import_hook();
        let ghost h = hook@;
        out.append(&mut hook);
        proof {
            assert(out@.subrange(2, 4) =~= h);
        }
        out
    }

    /// `__init__(self, module_registry, init_functions)`, keeping both tables.
    fn finder_init_method(&self) -> (r: Stmt)
        ensures
            is_method(
                r,
                "__init__"@,
                |ps: Parameters| is_init_parameters(ps),
                |b: Seq<Stmt>| is_init_body(b),
            ),
    {
        let mut params: Vec<Parameter> = Vec::new();
        params.push(plain_param("self"));
        params.push(plain_param("module_registry"));
        params.push(plain_param("init_functions"));
        let mut body: Vec<Stmt> = Vec::new();
        body.push(field_store("module_registry"));
        body.push(field_store("init_functions"));
        method("__init__", args_only(params), body)
    }

    /// `init_func = self.init_functions.get(synthetic_name)` and
    /// `if init_func: init_func()`.
    fn run_init_statements(&self) -> (r: Vec<Stmt>)
        ensures
            is_run_init_body(r@),
    {
        let mut get_args: Vec<Expr> = Vec::new();
        get_args.push(name_expr("synthetic_name"));
        let get_call = call(load_attr(name_attr("self", "init_functions", ExprContext::Load), "get"), get_args);
        let mut init_call: Vec<Stmt> = Vec::new();
        init_call.push(Stmt::Expr(call(name_expr("init_func"), Vec::new())));
        let mut out: Vec<Stmt> = Vec::new();
        out.push(assign(store_name("init_func"), get_call));
        out.push(plain_if(name_expr("init_func"), init_call));
        out
    }

    /// The statements `find_spec` runs for a module in the registry.
    fn registered_branch(&self) -> (r: Vec<Stmt>)
        ensures
            is_registered_branch(r@),
    {
        let lookup = Expr::Subscript {
            value: Box::new(name_attr("self", "module_registry", ExprContext::Load)),
            slice: Box::new(name_expr("fullname")),
        };
        let not_loaded = compare(
            name_expr("synthetic_name"),
            CmpOp::NotIn,
            name_attr("sys", "modules", ExprContext::Load),
        );
        let mut names: Vec<Alias> = Vec::new();
        names.push(Alias { name: to_string("importlib.util"), asname: None });
        let mut spec_args: Vec<Expr> = Vec::new();
        spec_args.push(name_expr("synthetic_name"));
        let find_spec = call(load_attr(name_attr("importlib", "util", ExprContext::Load), "find_spec"), spec_args);
        let mut out: Vec<Stmt> = Vec::new();
        out.push(assign(store_name("synthetic_name"), lookup));
        out.push(plain_if(not_loaded, self.run_init_statements()));
        out.push(Stmt::Import(names));
        out.push(Stmt::Return(Some(find_spec)));
        out
    }

    /// `find_spec(self, fullname, path, target=None)`.
    fn finder_find_spec_method(&self) -> (r: Stmt)
        ensures
            is_method(
                r,
                "find_spec"@,
                |ps: Parameters| is_find_spec_parameters(ps),
                |b: Seq<Stmt>| is_find_spec_body(b),
            ),
    {
        let mut params: Vec<Parameter> = Vec::new();
        params.push(plain_param("self"));
        params.push(plain_param("fullname"));
        params.push(plain_param("path"));
        params.push(Parameter { name: to_string("target"), annotation: None, default: Some(Expr::NoneLiteral) });
        let registered = compare(
            name_expr("fullname"),
            CmpOp::In,
            name_attr("self", "module_registry", ExprContext::Load),
        );
        let mut body: Vec<Stmt> = Vec::new();
        body.push(plain_if(registered, self.registered_branch()));
        body.push(Stmt::Return(Some(Expr::NoneLiteral)));
        method("find_spec", args_only(params), body)
    }

    /// The meta path finder class of the bundle.
    pub fn create_finder_class(&self) -> (r: Stmt)
        ensures
            is_finder_class(r),
    {
        let mut body: Vec<Stmt> = Vec::new();
        body.push(self.finder_init_method());
        body.push(self.finder_find_spec_method());
        Stmt::ClassDef {
            name: to_string("CriboBundledFinder"),
            decorators: Vec::new(),
            bases: Vec::new(),
            keywords: Vec::new(),
            body,
        }
    }

    /// The finder class and the statement that installs it first on
    /// `sys.meta_path`.
    pub fn create_import_hook(&self) -> (r: Vec<Stmt>)
        ensures
            is_import_hook(r@),
    {
        let mut finder_args: Vec<Expr> = Vec::new();
        finder_args.push(name_expr("__cribo_modules"));
        finder_args.push(name_expr("__cribo_init_functions"));
        let mut insert_args: Vec<Expr> = Vec::new();
        insert_args.push(self.create_number_literal(0));
        insert_args.push(call(name_expr("CriboBundledFinder"), finder_args));
        let install = call(load_attr(name_attr("sys", "meta_path", ExprContext::Load), "insert"), insert_args);
        let mut out: Vec<Stmt> = Vec::new();
        out.push(self.create_finder_class());
        out.push(Stmt::Expr(install));
        out
    }
}

} // verus!
