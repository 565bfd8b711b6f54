//! Lifting a module's globals: the module-level variables that its functions
//! declare `global` get a bundle-wide name, declared at the top of the bundle.
use vstd::prelude::*;

use cow_utils::CowUtils;

use crate::ast::{Expr, ExprContext, Stmt};
use crate::collections::{name_map_entries, name_map_insert, name_map_new, name_map_pairs, pairs_insert, NameMap};
use crate::text::{contains_name, copy_string, name_set, replace_char, to_string, views};

verus! {

/// What the bundler knows of a module's globals: its name, its module-level
/// variables, the names its functions declare `global`, and the functions
/// that declare some.
pub struct ModuleGlobalInfo {
    pub module_name: String,
    pub module_level_vars: Vec<String>,
    pub global_declarations: Vec<String>,
    pub functions_using_globals: Vec<String>,
}

/// `cow_utils::CowUtils::cow_replace` with a `char` pattern: `s` with every
/// occurrence of `from` replaced by `to`, as `str::replace` does.
#[verifier::external_body]
pub(crate) fn cow_replace(s: &str, from: char, to: &str) -> (r: String)
    ensures
        r@ == replace_char(s@, from, to@),
{
    s.cow_replace(from, to).into_owned()
}

/// The bundle-wide name of the lifted global `var` of `module`:
/// `__cribo_`, the module name with `_` for `.` and `-`, `_`, the variable.
pub open spec fn lifted_name(module: Seq<char>, var: Seq<char>) -> Seq<char> {
    "__cribo_"@ + replace_char(replace_char(module, '.', "_"@), '-', "_"@) + "_"@ + var
}

/// The module-level variables among `vars` that are declared `global`, in order.
pub open spec fn lifted_vars(vars: Seq<Seq<char>>, globals: Set<Seq<char>>) -> Seq<Seq<char>>
    decreases vars.len(),
{
    if vars.len() == 0 {
        Seq::empty()
    } else {
        lifted_vars(vars.drop_last(), globals) + if globals.contains(vars.last()) {
            seq![vars.last()]
        } else {
            Seq::empty()
        }
    }
}

/// The lifted names of `vars`, in the order first lifted: each with its
/// bundle-wide name in `module`.
pub open spec fn lifted_pairs(vars: Seq<Seq<char>>, module: Seq<char>) -> Seq<(Seq<char>, Seq<char>)>
    decreases vars.len(),
{
    if vars.len() == 0 {
        Seq::empty()
    } else {
        pairs_insert(lifted_pairs(vars.drop_last(), module), vars.last(), lifted_name(module, vars.last()))
    }
}

/// The statement `name = None`.
pub open spec fn is_none_assignment(s: Stmt, name: Seq<char>) -> bool {
    s matches Stmt::Assign { targets, value } && targets@.len() == 1 && (targets@[0] matches Expr::Name {
        id,
        ctx,
    } && id@ == name && ctx == ExprContext::Store) && value is NoneLiteral
}

/// The lifted names of a module's globals and their declarations.
pub struct GlobalsLifter {
    lifted_names: NameMap,
    lifted_declarations: Vec<Stmt>,
}

impl GlobalsLifter {
    /// The names lifted, each to its bundle-wide name.
    pub closed spec fn names(self) -> Map<Seq<char>, Seq<char>> {
        name_map_entries(self.lifted_names)
    }

    /// The names lifted with their bundle-wide names, in the order lifted.
    pub closed spec fn pairs(self) -> Seq<(Seq<char>, Seq<char>)> {
        name_map_pairs(self.lifted_names)
    }

    /// The declarations of the lifted names, in order.
    pub closed spec fn declarations(self) -> Seq<Stmt> {
        self.lifted_declarations@
    }

    /// Lifts the module-level variables of the module that its functions
    /// declare `global`: each gets its bundle-wide name and a declaration
    /// `name = None` (set when the module is initialised).
    pub fn new(global_info: &ModuleGlobalInfo) -> (r: Self)
        ensures
            ({
                let lv = lifted_vars(
                    views(global_info.module_level_vars@),
                    name_set(global_info.global_declarations@),
                );
                &&& forall|v: Seq<char>| #[trigger]
                    r.names().contains_key(v) <==> lv.contains(v)
                &&& forall|v: Seq<char>| #[trigger]
                    r.names().contains_key(v) ==> r.names()[v] == lifted_name(
                        global_info.module_name@,
                        v,
                    )
                &&& r.pairs() == lifted_pairs(lv, global_info.module_name@)
                &&& r.declarations().len() == lv.len()
                &&& forall|i: int| 0 <= i < lv.len() ==> is_none_assignment(
                    #[trigger] r.declarations()[i],
                    lifted_name(global_info.module_name@, lv[i]),
                )
            }),
    {
        let ghost module = global_info.module_name@;
        let ghost globals = name_set(global_info.global_declarations@);
        let ghost vars = views(global_info.module_level_vars@);
        let mut lifted_names = name_map_new();
        let mut lifted_declarations: Vec<Stmt> = Vec::new();
        let sanitized = cow_replace(global_info.module_name.as_str(), '.', "_");
        let sanitized = cow_replace(sanitized.as_str(), '-', "_");
        proof {
            reveal_strlit("_");
            reveal_strlit("__cribo_");
            assert(vars.subrange(0, 0) =~= Seq::<Seq<char>>::empty());
        }
        let mut i: usize = 0;
        while i < global_info.module_level_vars.len()
            invariant
                i <= global_info.module_level_vars.len(),
                module == global_info.module_name@,
                globals == name_set(global_info.global_declarations@),
                vars == views(global_info.module_level_vars@),
                sanitized@ == replace_char(replace_char(module, '.', "_"@), '-', "_"@),
                forall|v: Seq<char>| #[trigger]
                    name_map_entries(lifted_names).contains_key(v) <==> lifted_vars(
                        vars.subrange(0, i as int),
                        globals,
                    ).contains(v),
                forall|v: Seq<char>| #[trigger]
                    name_map_entries(lifted_names).contains_key(v) ==> name_map_entries(
                        lifted_names,
                    )[v] == lifted_name(module, v),
                lifted_declarations@.len() == lifted_vars(vars.subrange(0, i as int), globals).len(),
                name_map_pairs(lifted_names) == lifted_pairs(lifted_vars(vars.subrange(0, i as int), globals), module),
                forall|j: int|
                    0 <= j < lifted_declarations@.len() ==> is_none_assignment(
                        #[trigger] lifted_declarations@[j],
                        lifted_name(module, lifted_vars(vars.subrange(0, i as int), globals)[j]),
                    ),
            decreases global_info.module_level_vars.len() - i,
        {
            let var_name = &global_info.module_level_vars[i];
            let ghost lv0 = lifted_vars(vars.subrange(0, i as int), globals);
            proof {
                let t = vars.subrange(0, i + 1);
                assert(t.drop_last() =~= vars.subrange(0, i as int));
                assert(t.last() == var_name@);
            }
            if contains_name(&global_info.global_declarations, var_name.as_str()) {
                let mut lifted = to_string("__cribo_");
                lifted.append(sanitized.as_str());
                lifted.append("_");
                lifted.append(var_name.as_str());
                proof {
                    assert(lifted@ =~= lifted_name(module, var_name@));
                }
                name_map_insert(&mut lifted_names, copy_string(var_name), copy_string(&lifted));
                let mut targets: Vec<Expr> = Vec::new();
                targets.push(Expr::Name { id: lifted, ctx: ExprContext::Store });
                let decl = Stmt::Assign { targets, value: Expr::NoneLiteral };
                let ghost d0 = lifted_declarations@;
                lifted_declarations.push(decl);
                proof {
                    let lv1 = lifted_vars(vars.subrange(0, i + 1), globals);
                    assert(lv1 =~= lv0.push(var_name@));
                    assert(lv1.drop_last() =~= lv0);
                    assert forall|j: int|
                        0 <= j < lifted_declarations@.len() implies is_none_assignment(
                        #[trigger] lifted_declarations@[j],
                        lifted_name(module, lv1[j]),
                    ) by {
                        if j < d0.len() {
                            assert(lifted_declarations@[j] == d0[j]);
                            assert(lv1[j] == lv0[j]);
                        }
                    }
                    assert forall|v: Seq<char>| #[trigger]
                        name_map_entries(lifted_names).contains_key(v) <==> lv1.contains(v) by {
                        if v == var_name@ {
                            assert(lv1[lv0.len() as int] == v);
                        } else if lv0.contains(v) {
                            let k = choose|k: int| 0 <= k < lv0.len() && lv0[k] == v;
                            assert(lv1[k] == v);
                        } else if lv1.contains(v) {
                            let k = choose|k: int| 0 <= k < lv1.len() && lv1[k] == v;
                            if k < lv0.len() {
                                assert(lv0[k] == v);
                            }
                        }
                    }
                }
            } else {
                proof {
                    assert(lifted_vars(vars.subrange(0, i + 1), globals) =~= lv0);
                }
            }
            i += 1;
        }
        proof {
            assert(vars.subrange(0, vars.len() as int) =~= vars);
        }
        GlobalsLifter { lifted_names, lifted_declarations }
    }

    /// The declarations of the lifted names, taken out of the lifter.
    pub fn into_lifted_declarations(self) -> (r: Vec<Stmt>)
        ensures
            r@ == self.declarations(),
    {
        self.lifted_declarations
    }

    /// The declarations of the lifted names.
    pub fn get_lifted_declarations(&self) -> (r: &Vec<Stmt>)
        ensures
            r@ == self.declarations(),
    {
        &self.lifted_declarations
    }

    /// The lifted names, each mapped to its bundle-wide name.
    pub fn get_lifted_names(&self) -> (r: &NameMap)
        ensures
            name_map_entries(*r) == self.names(),
            name_map_pairs(*r) == self.pairs(),
    {
        &self.lifted_names
    }
}

} // verus!
