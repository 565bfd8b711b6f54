//! Modules imported as namespaces, and the namespace objects and module
//! attributes the bundle creates for dotted imports.
use vstd::prelude::*;

use crate::ast::{Alias, Expr, ExprContext, Stmt};
use crate::builders::{
    is_dotted_attribute_assignment, is_namespace_module, is_sys_modules_assignment, namespace_created,
};
use crate::code_generator::{with_name, HybridStaticBundler};
use crate::import_scan::BundleModule;
use crate::text::{
    copy_string, ends_with, has_suffix, join_strings, join_with, split_on, str_eq, to_string, views,
};

verus! {

/// Some module's name ends with `full` (or is `full`).
pub open spec fn suffix_match(ms: Seq<BundleModule>, full: Seq<char>) -> bool {
    exists|i: int| 0 <= i < ms.len() && has_suffix((#[trigger] ms[i]).0@, full)
}

/// The first module whose name ends with `full`, else `full` itself.
pub open spec fn first_suffix_match(ms: Seq<BundleModule>, full: Seq<char>) -> Seq<char>
    decreases ms.len(),
{
    if ms.len() == 0 {
        full
    } else if has_suffix(ms[0].0@, full) {
        ms[0].0@
    } else {
        first_suffix_match(ms.skip(1), full)
    }
}

/// The namespace imports `ns` extended by what `from module import names`
/// in `importer` adds: for each `module.name` that a module's name ends
/// with, that module is imported by `importer`.
pub open spec fn namespace_names(
    ns: Map<Seq<char>, Seq<Seq<char>>>,
    module: Seq<char>,
    names: Seq<Alias>,
    ms: Seq<BundleModule>,
    importer: Seq<char>,
) -> Map<Seq<char>, Seq<Seq<char>>>
    decreases names.len(),
{
    if names.len() == 0 {
        ns
    } else {
        let p = namespace_names(ns, module, names.drop_last(), ms, importer);
        let full = module + "."@ + names.last().name@;
        if suffix_match(ms, full) {
            with_name(p, first_suffix_match(ms, full), importer)
        } else {
            p
        }
    }
}

/// What a statement of `importer` adds to the namespace imports.
pub open spec fn namespace_stmt(
    ns: Map<Seq<char>, Seq<Seq<char>>>,
    s: Stmt,
    ms: Seq<BundleModule>,
    importer: Seq<char>,
) -> Map<Seq<char>, Seq<Seq<char>>> {
    match s {
        Stmt::ImportFrom { module: Some(m), names, .. } => namespace_names(ns, m@, names@, ms, importer),
        _ => ns,
    }
}

pub open spec fn namespace_body(
    ns: Map<Seq<char>, Seq<Seq<char>>>,
    body: Seq<Stmt>,
    ms: Seq<BundleModule>,
    importer: Seq<char>,
) -> Map<Seq<char>, Seq<Seq<char>>>
    decreases body.len(),
{
    if body.len() == 0 {
        ns
    } else {
        namespace_stmt(namespace_body(ns, body.drop_last(), ms, importer), body.last(), ms, importer)
    }
}

/// What the top-level statements of each of `scanned` add, in order.
pub open spec fn namespace_modules(
    ns: Map<Seq<char>, Seq<Seq<char>>>,
    scanned: Seq<BundleModule>,
    ms: Seq<BundleModule>,
) -> Map<Seq<char>, Seq<Seq<char>>>
    decreases scanned.len(),
{
    if scanned.len() == 0 {
        ns
    } else {
        let m = scanned.last();
        namespace_body(namespace_modules(ns, scanned.drop_last(), ms), m.1.body@, ms, m.0@)
    }
}

/// `i` is the position of the first `.` of `r`.
pub open spec fn is_first_dot(r: Seq<char>, i: int) -> bool {
    0 <= i < r.len() && r[i] == '.' && forall|j: int| 0 <= j < i ==> r[j] != '.'
}

/// Whether `from resolved import name` imports a module: `full` is inlined
/// or bundled, or, for a dotted `resolved`, so is the name with the
/// first part of `resolved` left off.
pub open spec fn importing_module(
    inlined: Seq<Seq<char>>,
    bundled: Seq<Seq<char>>,
    resolved: Seq<char>,
    name: Seq<char>,
    full: Seq<char>,
) -> bool {
    inlined.contains(full) || bundled.contains(full) || (resolved.contains('.') && {
        let alt = resolved.skip((choose|i: int| is_first_dot(resolved, i)) + 1) + "."@ + name;
        inlined.contains(alt) || bundled.contains(alt)
    })
}

/// The parent namespaces of a dotted import: for each proper prefix
/// `parts[..k]` (`1 <= k < parts.len()`), in order: a wrapped module is
/// taken from `sys.modules` (`(true, prefix)`); a prefix neither wrapped
/// nor bundled becomes a new namespace (`(false, prefix)`) unless the
/// statements `existing` already assign it.
pub open spec fn parent_namespace_plan(
    parts: Seq<Seq<char>>,
    k: nat,
    registry: Map<Seq<char>, Seq<char>>,
    bundled: Seq<Seq<char>>,
    existing: Seq<Stmt>,
) -> Seq<(bool, Seq<char>)>
    decreases k,
{
    if k <= 1 {
        Seq::empty()
    } else {
        let p = join_with(parts.subrange(0, k - 1), "."@);
        parent_namespace_plan(parts, (k - 1) as nat, registry, bundled, existing) + if registry.contains_key(p) {
            seq![(true, p)]
        } else if !bundled.contains(p) && !namespace_created(existing, p) {
            seq![(false, p)]
        } else {
            Seq::empty()
        }
    }
}

/// `b` holds, for each entry of the plan, `p = sys.modules['p']` or
/// `p = types.ModuleType('p')`.
pub open spec fn follows_plan(b: Seq<Stmt>, plan: Seq<(bool, Seq<char>)>) -> bool {
    b.len() == plan.len() && forall|i: int|
        0 <= i < b.len() ==> if plan[i].0 {
            is_sys_modules_assignment(#[trigger] b[i], plan[i].1, plan[i].1)
        } else {
            is_namespace_module(b[i], plan[i].1)
        }
}

/// The name of the first module that ends with `full_module_path`, else
/// `full_module_path` itself.
fn first_matching_name(modules: &Vec<BundleModule>, full_module_path: &str) -> (r: Option<String>)
    ensures
        r is Some <==> suffix_match(modules@, full_module_path@),
        r matches Some(n) ==> n@ == first_suffix_match(modules@, full_module_path@),
{
    let ghost ms = modules@;
    let mut i: usize = 0;
    proof {
        assert(ms.skip(0) =~= ms);
    }
    while i < modules.len()
        invariant
            i <= modules.len(),
            ms == modules@,
            first_suffix_match(ms.skip(i as int), full_module_path@) == first_suffix_match(ms, full_module_path@),
            forall|j: int| 0 <= j < i ==> !has_suffix(#[trigger] ms[j].0@, full_module_path@),
        decreases modules.len() - i,
    {
        proof {
            let t = ms.skip(i as int);
            assert(t[0] == ms[i as int]);
            assert(t.skip(1) =~= ms.skip(i + 1));
        }
        if ends_with(modules[i].0.as_str(), full_module_path) {
            return Some(copy_string(&modules[i].0));
        }
        i += 1;
    }
    proof {
        assert(ms.skip(i as int) =~= Seq::<BundleModule>::empty());
    }
    None
}

impl HybridStaticBundler {
    /// The first module whose name ends with `full_module_path`, else
    /// `full_module_path` itself.
    pub fn find_matching_module_name_namespace(modules: &Vec<BundleModule>, full_module_path: &str) -> (r:
        String)
        ensures
            r@ == first_suffix_match(modules@, full_module_path@),
    {
        match first_matching_name(modules, full_module_path) {
            Some(n) => n,
            None => {
                proof {
                    lemma_no_match_is_itself(modules@, full_module_path@);
                }
                to_string(full_module_path)
            },
        }
    }

    /// Records the namespace imports a statement of `importing_module` makes
    /// (see `namespace_stmt`).
    pub fn collect_namespace_imports(&mut self, stmt: &Stmt, modules: &Vec<BundleModule>, importing_module: &str)
        ensures
            final(self).namespace_imports() == namespace_stmt(
                old(self).namespace_imports(),
                *stmt,
                modules@,
                importing_module@,
            ),
            final(self).hoist_view() == old(self).hoist_view(),
            final(self).bundled() == old(self).bundled(),
            final(self).exports() == old(self).exports(),
            final(self).registry() == old(self).registry(),
            final(self).init_function_names() == old(self).init_function_names(),
            final(self).inlined() == old(self).inlined(),
    {
        if let Stmt::ImportFrom { module: Some(m), names, .. } = stmt {
            let mut i: usize = 0;
            proof {
                reveal_strlit(".");
                assert(names@.subrange(0, 0) =~= Seq::<Alias>::empty());
            }
            while i < names.len()
                invariant
                    i <= names.len(),
                    self.namespace_imports() == namespace_names(
                        old(self).namespace_imports(),
                        m@,
                        names@.subrange(0, i as int),
                        modules@,
                        importing_module@,
                    ),
                    self.hoist_view() == old(self).hoist_view(),
                    self.bundled() == old(self).bundled(),
                    self.exports() == old(self).exports(),
                    self.registry() == old(self).registry(),
                    self.init_function_names() == old(self).init_function_names(),
                    self.inlined() == old(self).inlined(),
                decreases names.len() - i,
            {
                proof {
                    let t = names@.subrange(0, i + 1);
                    assert(t.drop_last() =~= names@.subrange(0, i as int));
                    assert(t.last() == names@[i as int]);
                }
                let mut full_module_path = copy_string(m);
                full_module_path.append(".");
                full_module_path.append(names[i].name.as_str());
                match first_matching_name(modules, full_module_path.as_str()) {
                    Some(actual_module_name) => {
                        self.add_namespace_importer(actual_module_name.as_str(), to_string(importing_module));
                    },
                    None => {},
                }
                i += 1;
            }
            proof {
                assert(names@.subrange(0, names@.len() as int) =~= names@);
            }
        }
    }

    /// Records the namespace imports the top-level statements of every
    /// module make (see `namespace_modules`).
    pub fn find_namespace_imported_modules(&mut self, modules: &Vec<BundleModule>)
        ensures
            final(self).namespace_imports() == namespace_modules(old(self).namespace_imports(), modules@, modules@),
            final(self).hoist_view() == old(self).hoist_view(),
            final(self).bundled() == old(self).bundled(),
            final(self).exports() == old(self).exports(),
            final(self).registry() == old(self).registry(),
            final(self).init_function_names() == old(self).init_function_names(),
            final(self).inlined() == old(self).inlined(),
    {
        let mut i: usize = 0;
        proof {
            assert(modules@.subrange(0, 0) =~= Seq::<BundleModule>::empty());
        }
        while i < modules.len()
            invariant
                i <= modules.len(),
                self.namespace_imports() == namespace_modules(
                    old(self).namespace_imports(),
                    modules@.subrange(0, i as int),
                    modules@,
                ),
                self.hoist_view() == old(self).hoist_view(),
                self.bundled() == old(self).bundled(),
                self.exports() == old(self).exports(),
                self.registry() == old(self).registry(),
                self.init_function_names() == old(self).init_function_names(),
                self.inlined() == old(self).inlined(),
            decreases modules.len() - i,
        {
            let ghost base = self.namespace_imports();
            let importing_module = &modules[i].0;
            let body = &modules[i].1.body;
            let mut k: usize = 0;
            proof {
                assert(body@.subrange(0, 0) =~= Seq::<Stmt>::empty());
            }
            while k < body.len()
                invariant
                    k <= body.len(),
                    self.namespace_imports() == namespace_body(base, body@.subrange(0, k as int), modules@, importing_module@),
                    self.hoist_view() == old(self).hoist_view(),
                    self.bundled() == old(self).bundled(),
                    self.exports() == old(self).exports(),
                    self.registry() == old(self).registry(),
                    self.init_function_names() == old(self).init_function_names(),
                    self.inlined() == old(self).inlined(),
                decreases body.len() - k,
            {
                proof {
                    let t = body@.subrange(0, k + 1);
                    assert(t.drop_last() =~= body@.subrange(0, k as int));
                    assert(t.last() == body@[k as int]);
                }
                self.collect_namespace_imports(&body[k], modules, importing_module.as_str());
                k += 1;
            }
            proof {
                assert(body@.subrange(0, body@.len() as int) =~= body@);
                let t = modules@.subrange(0, i + 1);
                assert(t.drop_last() =~= modules@.subrange(0, i as int));
                assert(t.last() == modules@[i as int]);
            }
            i += 1;
        }
        proof {
            assert(modules@.subrange(0, modules@.len() as int) =~= modules@);
        }
    }

    /// Whether `from resolved_module import imported_name` imports a module
    /// (see `importing_module`).
    #[verifier::loop_isolation(false)]
    pub fn check_if_importing_module(&self, resolved_module: &str, imported_name: &str, full_module_path: &str) -> (r:
        bool)
        ensures
            r == importing_module(self.inlined(), self.bundled(), resolved_module@, imported_name@, full_module_path@),
    {
        if self.is_inlined(full_module_path) || self.is_bundled(full_module_path) {
            return true;
        }
        let n = resolved_module.unicode_len();
        let mut i: usize = 0;
        while i < n
            invariant
                n == resolved_module@.len(),
                i <= n,
                forall|j: int| 0 <= j < i ==> resolved_module@[j] != '.',
            decreases n - i,
        {
            if resolved_module.get_char(i) == '.' {
                let mut alt_path = resolved_module.substring_char(i + 1, n).to_owned();
                alt_path.append(".");
                alt_path.append(imported_name);
                proof {
                    reveal_strlit(".");
                    let r = resolved_module@;
                    assert(is_first_dot(r, i as int));
                    let k = choose|k: int| is_first_dot(r, k);
                    if k < i {
                        assert(r[k] != '.');
                    }
                    if k > i {
                        assert(r[i as int] != '.');
                    }
                    assert(k == i);
                    assert(r.contains('.'));
                    assert(alt_path@ =~= r.skip(i + 1) + "."@ + imported_name@);
                }
                return self.is_inlined(alt_path.as_str()) || self.is_bundled(alt_path.as_str());
            }
            i += 1;
        }
        proof {
            assert(!resolved_module@.contains('.'));
        }
        false
    }

    /// A call of the wrapped module's init function, or `pass` if the
    /// synthetic name has none.
    pub fn generate_module_init_call(&self, synthetic_name: &str) -> (r: Stmt)
        ensures
            self.init_function_names().contains_key(synthetic_name@) ==> (r matches Stmt::Expr(Expr::Call {
                func,
                args,
                keywords,
            }) && (*func matches Expr::Name { id, ctx } && id@ == self.init_function_names()[synthetic_name@]
                && ctx == ExprContext::Load) && args@.len() == 0 && keywords@.len() == 0),
            !self.init_function_names().contains_key(synthetic_name@) ==> r is Pass,
    {
        match self.init_function_of(synthetic_name) {
            Some(init_func_name) => Stmt::Expr(
                Expr::Call {
                    func: Box::new(Expr::Name { id: copy_string(init_func_name), ctx: ExprContext::Load }),
                    args: Vec::new(),
                    keywords: Vec::new(),
                },
            ),
            None => Stmt::Pass,
        }
    }

    /// For a dotted import `a.b.c` whose parent `a.b` is a namespace (not
    /// empty, not a wrapped module), appends `a.b.c = sys.modules['module_name']`
    /// as the parent's attribute.
    pub fn handle_dotted_import_attribute(&self, parts: &Vec<String>, module_name: &str, result_stmts: &mut Vec<Stmt>)
        ensures
            ({
                let ps = views(parts@);
                let parent = join_with(ps.drop_last(), "."@);
                if ps.len() > 1 && parent.len() > 0 && !self.registry().contains_key(parent) {
                    final(result_stmts)@.len() == old(result_stmts)@.len() + 1 && final(result_stmts)@.drop_last()
                        == old(result_stmts)@ && is_dotted_attribute_assignment(
                        final(result_stmts)@.last(),
                        parent,
                        ps.last(),
                        module_name@,
                    )
                } else {
                    final(result_stmts)@ == old(result_stmts)@
                }
            }),
    {
        let ghost ps = views(parts@);
        if parts.len() > 1 {
            let mut parent_parts: Vec<String> = Vec::new();
            let mut k: usize = 0;
            while k < parts.len() - 1
                invariant
                    ps == views(parts@),
                    parts@.len() > 1,
                    k <= parts@.len() - 1,
                    views(parent_parts@) == ps.subrange(0, k as int),
                decreases parts.len() - 1 - k,
            {
                let ghost before = views(parent_parts@);
                parent_parts.push(copy_string(&parts[k]));
                proof {
                    assert(views(parent_parts@) =~= before.push(ps[k as int]));
                    assert(ps.subrange(0, k + 1) =~= ps.subrange(0, k as int).push(ps[k as int]));
                }
                k += 1;
            }
            let parent = join_strings(&parent_parts, ".");
            proof {
                reveal_strlit(".");
                assert(ps.subrange(0, k as int) =~= ps.drop_last());
            }
            if parent.unicode_len() > 0 && self.registered_name(parent.as_str()).is_none() {
                let ghost start = result_stmts@;
                let stmt = self.create_dotted_attribute_assignment(
                    parent.as_str(),
                    parts[parts.len() - 1].as_str(),
                    module_name,
                );
                result_stmts.push(stmt);
                proof {
                    assert(result_stmts@.drop_last() =~= start);
                }
            }
        }
    }
}

/// Without a module whose name ends with `full`, the first match is `full`.
proof fn lemma_no_match_is_itself(ms: Seq<BundleModule>, full: Seq<char>)
    requires
        !suffix_match(ms, full),
    ensures
        first_suffix_match(ms, full) == full,
    decreases ms.len(),
{
    if ms.len() > 0 {
        assert(!has_suffix(ms[0].0@, full));
        assert forall|i: int| 0 <= i < ms.skip(1).len() implies !has_suffix((#[trigger] ms.skip(1)[i]).0@, full) by {
            assert(ms.skip(1)[i] == ms[i + 1]);
        }
        lemma_no_match_is_itself(ms.skip(1), full);
    }
}

/// Joining one more part makes a dotted name longer.
proof fn lemma_join_grows(ps: Seq<Seq<char>>, m: int)
    requires
        1 <= m < ps.len(),
    ensures
        join_with(ps.subrange(0, m), "."@).len() < join_with(ps.subrange(0, m + 1), "."@).len(),
{
    let t = ps.subrange(0, m + 1);
    assert(t.drop_last() =~= ps.subrange(0, m));
    reveal_strlit(".");
}

/// Dotted prefixes of more parts are longer.
proof fn lemma_join_monotone(ps: Seq<Seq<char>>, a: int, b: int)
    requires
        1 <= a < b <= ps.len(),
    ensures
        join_with(ps.subrange(0, a), "."@).len() < join_with(ps.subrange(0, b), "."@).len(),
    decreases b - a,
{
    lemma_join_grows(ps, b - 1);
    if a < b - 1 {
        lemma_join_monotone(ps, a, b - 1);
    }
}

/// The names the plan up to `k` prefixes creates are shorter than the
/// prefix of `k` parts.
proof fn lemma_plan_names_short(
    ps: Seq<Seq<char>>,
    k: nat,
    registry: Map<Seq<char>, Seq<char>>,
    bundled: Seq<Seq<char>>,
    existing: Seq<Stmt>,
)
    requires
        2 <= k <= ps.len(),
    ensures
        forall|j: int|
            0 <= j < parent_namespace_plan(ps, k, registry, bundled, existing).len() ==> (#[trigger] parent_namespace_plan(
                ps,
                k,
                registry,
                bundled,
                existing,
            )[j]).1.len() < join_with(ps.subrange(0, k as int), "."@).len(),
    decreases k,
{
    let plan = parent_namespace_plan(ps, k, registry, bundled, existing);
    let prev = parent_namespace_plan(ps, (k - 1) as nat, registry, bundled, existing);
    lemma_join_monotone(ps, k - 1, k as int);
    if k > 2 {
        lemma_plan_names_short(ps, (k - 1) as nat, registry, bundled, existing);
    }
    assert forall|j: int| 0 <= j < plan.len() implies (#[trigger] plan[j]).1.len() < join_with(
        ps.subrange(0, k as int),
        "."@,
    ).len() by {
        if j < prev.len() {
            assert(plan[j] == prev[j]);
        }
    }
}

impl HybridStaticBundler {
    /// For a dotted import, the parent namespaces: each proper prefix that
    /// is a wrapped module is taken from `sys.modules`, and one that is
    /// neither wrapped nor bundled, and not yet assigned, becomes a new
    /// namespace object (see `parent_namespace_plan`).
    #[verifier::loop_isolation(false)]
    pub fn create_parent_namespaces(&self, parts: &Vec<String>, result_stmts: &mut Vec<Stmt>)
        ensures
            final(result_stmts)@.len() >= old(result_stmts)@.len(),
            final(result_stmts)@.subrange(0, old(result_stmts)@.len() as int) == old(result_stmts)@,
            follows_plan(
                final(result_stmts)@.subrange(old(result_stmts)@.len() as int, final(result_stmts)@.len() as int),
                parent_namespace_plan(
                    views(parts@),
                    parts@.len(),
                    self.registry(),
                    self.bundled(),
                    old(result_stmts)@,
                ),
            ),
    {
        let ghost ps = views(parts@);
        let ghost start = result_stmts@;
        let mut prefix: Vec<String> = Vec::new();
        let mut i: usize = 1;
        if parts.len() > 0 {
            prefix.push(copy_string(&parts[0]));
        }
        proof {
            reveal_strlit(".");
            assert(result_stmts@.subrange(start.len() as int, result_stmts@.len() as int) =~= Seq::<Stmt>::empty());
        }
        while i < parts.len()
            invariant
                1 <= i,
                i <= parts.len() || (parts.len() == 0 && i == 1),
                parts.len() > 0 ==> views(prefix@) == ps.subrange(0, i as int),
                result_stmts@.len() >= start.len(),
                result_stmts@.subrange(0, start.len() as int) == start,
                follows_plan(
                    result_stmts@.subrange(start.len() as int, result_stmts@.len() as int),
                    parent_namespace_plan(ps, i as nat, self.registry(), self.bundled(), start),
                ),
            decreases parts.len() - i,
        {
            let parent = join_strings(&prefix, ".");
            let ghost p = parent@;
            let ghost before = result_stmts@;
            let ghost added = before.subrange(start.len() as int, before.len() as int);
            let ghost plan = parent_namespace_plan(ps, i as nat, self.registry(), self.bundled(), start);
            let ghost next = parent_namespace_plan(ps, (i + 1) as nat, self.registry(), self.bundled(), start);
            proof {
                assert(p == join_with(ps.subrange(0, i as int), "."@));
                if i >= 2 {
                    lemma_plan_names_short(ps, i as nat, self.registry(), self.bundled(), start);
                }
                assert(namespace_created(before, p) == namespace_created(start, p)) by {
                    if namespace_created(before, p) {
                        let j = choose|j: int| 0 <= j < before.len() && (#[trigger] before[j] matches Stmt::Assign { targets, .. }
                            && targets@.len() > 0 && (targets@[0] matches Expr::Name { id, .. } && id@ == p));
                        if j >= start.len() {
                            let a = j - start.len();
                            assert(added[a] == before[j]);
                            assert(plan[a].1.len() < p.len());
                        } else {
                            assert(start[j] == before[j]);
                        }
                    }
                    if namespace_created(start, p) {
                        let j = choose|j: int| 0 <= j < start.len() && (#[trigger] start[j] matches Stmt::Assign { targets, .. }
                            && targets@.len() > 0 && (targets@[0] matches Expr::Name { id, .. } && id@ == p));
                        assert(before[j] == start[j]);
                    }
                }
            }
            if self.registered_name(parent.as_str()).is_some() {
                result_stmts.push(self.create_sys_modules_assignment(parent.as_str(), parent.as_str()));
                proof {
                    assert(next =~= plan.push((true, p)));
                    assert(result_stmts@.subrange(start.len() as int, result_stmts@.len() as int) =~= added.push(
                        result_stmts@.last(),
                    ));
                }
            } else if !self.is_bundled(parent.as_str()) {
                let already_created = self.is_namespace_already_created(parent.as_str(), result_stmts);
                if !already_created {
                    result_stmts.push(self.create_namespace_module(parent.as_str()));
                    proof {
                        assert(next =~= plan.push((false, p)));
                        assert(result_stmts@.subrange(start.len() as int, result_stmts@.len() as int) =~= added.push(
                            result_stmts@.last(),
                        ));
                    }
                } else {
                    proof {
                        assert(next =~= plan);
                    }
                }
            } else {
                proof {
                    assert(next =~= plan);
                }
            }
            proof {
                assert(result_stmts@.subrange(0, start.len() as int) =~= start);
            }
            prefix.push(copy_string(&parts[i]));
            proof {
                assert(ps.subrange(0, i + 1) =~= ps.subrange(0, i as int).push(ps[i as int]));
            }
            i += 1;
        }
        proof {
            if parts.len() == 0 {
                assert(parent_namespace_plan(ps, 0, self.registry(), self.bundled(), start) =~= Seq::<(bool, Seq<char>)>::empty());
                assert(parent_namespace_plan(ps, i as nat, self.registry(), self.bundled(), start) =~= Seq::<(bool, Seq<char>)>::empty());
            } else {
                assert(i == parts.len());
            }
            assert(parts@.len() == parts.len());
        }
    }
}

} // verus!
