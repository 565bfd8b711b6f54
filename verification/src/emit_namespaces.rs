//! The namespace objects the emitter creates for a module and its parent
//! packages: `a = types.ModuleType('a')`, `a.b = types.ModuleType('a.b')`,
//! each once, after one `import types`.
use vstd::prelude::*;

use crate::ast::{Alias, Expr, ExprContext, Stmt};
use crate::builders::{assigns, is_module_type_call, is_name};
use crate::emit::{dotted_expr, CodeEmitter};
use crate::inlined_imports::{appends, lemma_appends_none, lemma_appends_push, lemma_appends_trans};
use crate::orchestrator::push_unique;
use crate::text::{
    contains_char, copy_string, join_strings, join_with, lemma_split_nonempty, split_char, split_on, to_string,
    views,
};

verus! {

/// `e` is the chain `parts[0].parts[1]...` with every attribute written
/// (the first name read).
pub open spec fn store_chain(e: Expr, parts: Seq<Seq<char>>) -> bool
    decreases parts.len(),
{
    if parts.len() <= 1 {
        parts.len() == 1 && is_name(e, parts[0], ExprContext::Load)
    } else {
        e matches Expr::Attribute { value, attr, ctx } && attr@ == parts.last() && ctx == ExprContext::Store
            && store_chain(*value, parts.drop_last())
    }
}

/// `s` creates the parent namespace `parent` of the first `i` parts:
/// `parts[0] = types.ModuleType('parent')` for the first, else the chain
/// of the first `i` parts assigned `types.ModuleType('parent')`.
pub open spec fn is_parent_namespace_assignment(s: Stmt, parts: Seq<Seq<char>>, i: int, parent: Seq<char>) -> bool {
    assigns(
        s,
        |t: Expr|
            if i == 1 {
                is_name(t, parts[0], ExprContext::Store)
            } else {
                store_chain(t, parts.subrange(0, i))
            },
        |v: Expr| is_module_type_call(v, parent),
    )
}

/// `s` creates the namespace of the module `module`: its dotted name
/// (written) assigned `types.ModuleType('module')`.
pub open spec fn is_main_module_assignment(s: Stmt, module: Seq<char>) -> bool {
    assigns(
        s,
        |t: Expr|
            if module.contains('.') {
                dotted_expr(t, split_on(module, '.'), ExprContext::Store)
            } else {
                is_name(t, module, ExprContext::Store)
            },
        |v: Expr| is_module_type_call(v, module),
    )
}

/// The namespaces created after the first `k - 1` parent prefixes of
/// `parts` are considered, from `created`.
pub open spec fn created_after(parts: Seq<Seq<char>>, k: int, created: Seq<Seq<char>>) -> Seq<Seq<char>>
    decreases k,
{
    if k <= 1 {
        created
    } else {
        let c = created_after(parts, k - 1, created);
        let p = join_with(parts.subrange(0, k - 1), "."@);
        if c.contains(p) {
            c
        } else {
            c.push(p)
        }
    }
}

/// The parent namespaces created for the first `k - 1` prefixes of
/// `parts`: each prefix not created yet, in order.
pub open spec fn parent_namespaces_plan(parts: Seq<Seq<char>>, k: int, created: Seq<Seq<char>>) -> Seq<
    spec_fn(Stmt) -> bool,
>
    decreases k,
{
    if k <= 1 {
        Seq::empty()
    } else {
        let p = join_with(parts.subrange(0, k - 1), "."@);
        parent_namespaces_plan(parts, k - 1, created) + if created_after(parts, k - 1, created).contains(p) {
            Seq::empty()
        } else {
            seq![|s: Stmt| is_parent_namespace_assignment(s, parts, k - 1, p)]
        }
    }
}

/// `import types`.
pub open spec fn is_import_types(s: Stmt) -> bool {
    s matches Stmt::Import(names) && names@.len() == 1 && names@[0].name@ == "types"@ && names@[0].asname is None
}

impl CodeEmitter {
    /// The statement creating the parent namespace `parent_name` of the
    /// first `i` parts (see `is_parent_namespace_assignment`).
    pub fn create_parent_namespace_assignment(&self, parts: &Vec<String>, i: usize, parent_name: &str) -> (r: Stmt)
        requires
            1 <= i <= parts@.len(),
        ensures
            is_parent_namespace_assignment(r, views(parts@), i as int, parent_name@),
    {
        let ghost ps = views(parts@);
        let target = if i == 1 {
            Expr::Name { id: copy_string(&parts[0]), ctx: ExprContext::Store }
        } else {
            let mut current = Expr::Name { id: copy_string(&parts[0]), ctx: ExprContext::Load };
            let mut k: usize = 1;
            proof {
                assert(ps.subrange(0, 1).len() == 1);
            }
            while k < i
                invariant
                    1 <= k <= i,
                    i <= parts@.len(),
                    ps == views(parts@),
                    store_chain(current, ps.subrange(0, k as int)),
                decreases i - k,
            {
                current = Expr::Attribute { value: Box::new(current), attr: copy_string(&parts[k]), ctx: ExprContext::Store };
                proof {
                    assert(ps.subrange(0, k + 1).drop_last() =~= ps.subrange(0, k as int));
                }
                k += 1;
            }
            current
        };
        let mut args: Vec<Expr> = Vec::new();
        args.push(Expr::StringLiteral(to_string(parent_name)));
        proof {
            reveal_strlit("types");
            reveal_strlit("ModuleType");
        }
        let value = Expr::Call {
            func: Box::new(Expr::Attribute {
                value: Box::new(Expr::Name { id: to_string("types"), ctx: ExprContext::Load }),
                attr: to_string("ModuleType"),
                ctx: ExprContext::Load,
            }),
            args,
            keywords: Vec::new(),
        };
        let mut targets: Vec<Expr> = Vec::new();
        targets.push(target);
        Stmt::Assign { targets, value }
    }

    /// The statement creating the namespace of `module_name` (see
    /// `is_main_module_assignment`).
    pub fn create_main_module_assignment(&self, module_name: &str) -> (r: Stmt)
        ensures
            is_main_module_assignment(r, module_name@),
    {
        let target = if contains_char(module_name, '.') {
            let parts = split_char(module_name, '.');
            proof {
                lemma_split_nonempty(module_name@, '.');
            }
            Self::build_dotted_name_expr(&parts)
        } else {
            Expr::Name { id: to_string(module_name), ctx: ExprContext::Store }
        };
        let mut args: Vec<Expr> = Vec::new();
        args.push(Expr::StringLiteral(to_string(module_name)));
        proof {
            reveal_strlit("types");
            reveal_strlit("ModuleType");
        }
        let value = Expr::Call {
            func: Box::new(Expr::Attribute {
                value: Box::new(Expr::Name { id: to_string("types"), ctx: ExprContext::Load }),
                attr: to_string("ModuleType"),
                ctx: ExprContext::Load,
            }),
            args,
            keywords: Vec::new(),
        };
        let mut targets: Vec<Expr> = Vec::new();
        targets.push(target);
        Stmt::Assign { targets, value }
    }

    /// The parent namespaces of `module_name` not created yet (see
    /// `parent_namespaces_plan`), each recorded as created; sets
    /// `needs_import_types` when it creates some.
    pub fn create_parent_namespaces(&mut self, module_name: &str, needs_import_types: &mut bool) -> (r: Vec<Stmt>)
        ensures
            ({
                let ps = split_on(module_name@, '.');
                let plan = parent_namespaces_plan(ps, ps.len() as int, old(self).created_namespaces());
                &&& appends(Seq::empty(), r@, plan)
                &&& final(self).created_namespaces() == created_after(ps, ps.len() as int, old(self).created_namespaces())
                &&& *final(needs_import_types) == (*old(needs_import_types) || plan.len() > 0)
            }),
            final(self).resolver_view() == old(self).resolver_view(),
            final(self).future_features() == old(self).future_features(),
    {
        let mut statements: Vec<Stmt> = Vec::new();
        let parts = split_char(module_name, '.');
        let ghost ps = views(parts@);
        let ghost c0 = self.created_namespaces();
        let ghost needs0 = *needs_import_types;
        let mut prefix: Vec<String> = Vec::new();
        if parts.len() > 0 {
            prefix.push(copy_string(&parts[0]));
        }
        proof {
            reveal_strlit(".");
            lemma_appends_none(statements@);
        }
        let mut i: usize = 1;
        while i < parts.len()
            invariant
                1 <= i,
                i <= parts.len() || (parts.len() == 0 && i == 1),
                ps == views(parts@),
                parts.len() > 0 ==> views(prefix@) == ps.subrange(0, i as int),
                appends(Seq::empty(), statements@, parent_namespaces_plan(ps, i as int, c0)),
                self.created_namespaces() == created_after(ps, i as int, c0),
                *needs_import_types == (needs0 || parent_namespaces_plan(ps, i as int, c0).len() > 0),
                self.resolver_view() == old(self).resolver_view(),
                self.future_features() == old(self).future_features(),
            decreases parts.len() - i,
        {
            let parent_name = join_strings(&prefix, ".");
            let ghost p = parent_name@;
            let ghost before = statements@;
            proof {
                assert(p == join_with(ps.subrange(0, i as int), "."@));
            }
            if !self.has_created_namespace(parent_name.as_str()) {
                let s = self.create_parent_namespace_assignment(&parts, i, parent_name.as_str());
                self.add_created_namespace(parent_name);
                *needs_import_types = true;
                let ghost f = |s: Stmt| is_parent_namespace_assignment(s, ps, i as int, p);
                proof {
                    lemma_appends_push(statements@, s, f);
                }
                statements.push(s);
                proof {
                    lemma_appends_trans(Seq::empty(), before, statements@, parent_namespaces_plan(ps, i as int, c0), seq![f]);
                }
            } else {
                proof {
                    assert(parent_namespaces_plan(ps, i + 1, c0) =~= parent_namespaces_plan(ps, i as int, c0));
                }
            }
            prefix.push(copy_string(&parts[i]));
            proof {
                assert(ps.subrange(0, i + 1) =~= ps.subrange(0, i as int).push(ps[i as int]));
            }
            i += 1;
        }
        proof {
            lemma_split_nonempty(module_name@, '.');
            assert(i == ps.len());
        }
        statements
    }

    /// The namespace objects of `module_name` and its parent packages not
    /// created yet, each recorded as created, after `import types` when
    /// there are any (none when all exist).
    pub fn create_module_namespace_structure(&mut self, module_name: &str) -> (r: Vec<Stmt>)
        ensures
            ({
                let ps = split_on(module_name@, '.');
                let dotted = module_name@.contains('.');
                let c0 = old(self).created_namespaces();
                let parents = if dotted {
                    parent_namespaces_plan(ps, ps.len() as int, c0)
                } else {
                    Seq::empty()
                };
                let c1 = if dotted {
                    created_after(ps, ps.len() as int, c0)
                } else {
                    c0
                };
                let main = !c1.contains(module_name@);
                let plan = parents + if main {
                    seq![|s: Stmt| is_main_module_assignment(s, module_name@)]
                } else {
                    Seq::empty()
                };
                &&& final(self).created_namespaces() == if main {
                    c1.push(module_name@)
                } else {
                    c1
                }
                &&& if plan.len() > 0 {
                    r@.len() > 0 && is_import_types(r@[0]) && appends(seq![r@[0]], r@, plan)
                } else {
                    r@.len() == 0
                }
            }),
            final(self).resolver_view() == old(self).resolver_view(),
            final(self).future_features() == old(self).future_features(),
    {
        let ghost ps = split_on(module_name@, '.');
        let ghost c0 = self.created_namespaces();
        let mut statements: Vec<Stmt> = Vec::new();
        let mut needs_import_types = false;
        let dotted = contains_char(module_name, '.');
        if dotted {
            statements = self.create_parent_namespaces(module_name, &mut needs_import_types);
        } else {
            proof {
                lemma_appends_none(statements@);
            }
        }
        let ghost parents = statements@;
        let ghost pplan: Seq<spec_fn(Stmt) -> bool> = if dotted {
            parent_namespaces_plan(ps, ps.len() as int, c0)
        } else {
            Seq::empty()
        };
        let ghost c1 = self.created_namespaces();
        let ghost mplan: Seq<spec_fn(Stmt) -> bool> = if !c1.contains(module_name@) {
            seq![|s: Stmt| is_main_module_assignment(s, module_name@)]
        } else {
            Seq::empty()
        };
        if !self.has_created_namespace(module_name) {
            self.add_created_namespace(to_string(module_name));
            needs_import_types = true;
            let s = self.create_main_module_assignment(module_name);
            proof {
                lemma_appends_push(statements@, s, mplan[0]);
                assert(mplan =~= seq![mplan[0]]);
            }
            statements.push(s);
        } else {
            proof {
                lemma_appends_none(statements@);
                assert(mplan =~= Seq::<spec_fn(Stmt) -> bool>::empty());
            }
        }
        proof {
            lemma_appends_trans(Seq::empty(), parents, statements@, pplan, mplan);
            assert(needs_import_types == ((pplan + mplan).len() > 0));
        }
        if needs_import_types {
            let ghost body = statements@;
            let mut names: Vec<Alias> = Vec::new();
            names.push(Alias { name: to_string("types"), asname: None });
            proof {
                reveal_strlit("types");
            }
            let import_types = Stmt::Import(names);
            statements.insert(0, import_types);
            proof {
                let plan = pplan + mplan;
                assert(statements@ =~= seq![import_types] + body);
                assert(statements@.subrange(0, 1) =~= seq![statements@[0]]);
                assert forall|k: int| 0 <= k < plan.len() implies (#[trigger] plan[k])(statements@[1 + k]) by {
                    assert(statements@[1 + k] == body[k]);
                }
            }
        }
        statements
    }
}

} // verus!
