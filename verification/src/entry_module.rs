//! The entry module's own statements in the bundle: the names the bundle
//! renamed are used under their new names, and a renamed definition is
//! bound again under its original name.
use vstd::prelude::*;

use crate::alias_rewrite::{renamed, stmt_alias_rewritten};
use crate::ast::Stmt;
use crate::builders::is_reassignment;
use crate::code_generator::HybridStaticBundler;
use crate::collections::{name_map_entries, name_map_get, name_map_is_empty, name_map_pairs, NameMap};
use crate::lifted_globals::all_globals_only_renamed;
use crate::symbols::renamed_assignment;
use crate::text::{copy_string, str_eq};

verus! {

/// The rename of `name` by `renames`, as (original, new), when it has one.
pub open spec fn rename_of(renames: Map<Seq<char>, Seq<char>>, name: Seq<char>) -> Option<(Seq<char>, Seq<char>)> {
    if renames.contains_key(name) {
        Some((name, renames[name]))
    } else {
        None
    }
}

/// `new` is the function definition `old` of the entry module under its
/// new name (if renamed), with the `global` statements of its body
/// renamed; the rest unchanged.
pub open spec fn entry_function_processed(old: Stmt, new: Stmt, renames: Map<Seq<char>, Seq<char>>) -> bool {
    match old {
        Stmt::FunctionDef { name, decorators, parameters, return_type, body } => match new {
            Stmt::FunctionDef { name: n2, decorators: d2, parameters: p2, return_type: r2, body: b2 } => n2@
                == renamed(name@, renames) && d2 == decorators && p2 == parameters && r2 == return_type
                && all_globals_only_renamed(body@, b2@, renames),
            _ => false,
        },
        _ => false,
    }
}

/// `new` is the class definition `old` of the entry module under its new
/// name (if renamed), its bases and body rewritten by `renames`.
pub open spec fn entry_class_processed(old: Stmt, new: Stmt, renames: Map<Seq<char>, Seq<char>>) -> bool {
    match old {
        Stmt::ClassDef { name, decorators, bases, keywords, body } => match new {
            Stmt::ClassDef { name: n2, .. } => n2@ == renamed(name@, renames) && stmt_alias_rewritten(
                Stmt::ClassDef { name: n2, decorators, bases, keywords, body },
                new,
                renames,
            ),
            _ => false,
        },
        _ => false,
    }
}

/// The statement `stmt` of the entry module becomes `new`, with the
/// reassignment `pending` (original, new) to make: a function or class as
/// `entry_function_processed` and `entry_class_processed` say, bound again
/// under its original name when renamed; any other statement rewritten by
/// `renames`, an assignment then bound again under the original name of
/// the name it binds when that is a new name (see `renamed_assignment`).
pub open spec fn entry_stmt_processed(
    stmt: Stmt,
    new: Stmt,
    pending: Option<(Seq<char>, Seq<char>)>,
    renames: Map<Seq<char>, Seq<char>>,
    pairs: Seq<(Seq<char>, Seq<char>)>,
) -> bool {
    match stmt {
        Stmt::FunctionDef { name, .. } => entry_function_processed(stmt, new, renames) && pending == rename_of(
            renames,
            name@,
        ),
        Stmt::ClassDef { name, .. } => entry_class_processed(stmt, new, renames) && pending == rename_of(
            renames,
            name@,
        ),
        _ => stmt_alias_rewritten(stmt, new, renames) && pending == match new {
            Stmt::Assign { targets, .. } => renamed_assignment(targets@, pairs),
            _ => None,
        },
    }
}

impl HybridStaticBundler {
    /// Renames the entry module's function definition `func_def` (see
    /// `entry_function_processed`); its rename, if it has one.
    pub fn process_entry_module_function(&self, func_def: &mut Stmt, entry_module_renames: &NameMap) -> (r: Option<
        (String, String),
    >)
        requires
            *old(func_def) is FunctionDef,
        ensures
            entry_function_processed(*old(func_def), *final(func_def), name_map_entries(*entry_module_renames)),
            match r {
                Some(p) => rename_of(name_map_entries(*entry_module_renames), (*old(func_def))->FunctionDef_name@) == Some(
                    (p.0@, p.1@),
                ),
                None => rename_of(name_map_entries(*entry_module_renames), (*old(func_def))->FunctionDef_name@) is None,
            },
    {
        let mut taken = Stmt::Pass;
        std::mem::swap(&mut taken, func_def);
        match taken {
            Stmt::FunctionDef { name, decorators, parameters, return_type, body } => {
                let (new_name, pending) = match name_map_get(entry_module_renames, name.as_str()) {
                    Some(n) => (copy_string(n), Some((copy_string(&name), copy_string(n)))),
                    None => (copy_string(&name), None),
                };
                let new_body = self.rewrite_global_statements_in_function(body, entry_module_renames);
                *func_def = Stmt::FunctionDef { name: new_name, decorators, parameters, return_type, body: new_body };
                pending
            },
            other => {
                *func_def = other;
                None
            },
        }
    }

    /// Renames the entry module's class definition `class_def` and rewrites
    /// it (see `entry_class_processed`); its rename, if it has one.
    pub fn process_entry_module_class(&self, class_def: &mut Stmt, entry_module_renames: &NameMap) -> (r: Option<
        (String, String),
    >)
        requires
            *old(class_def) is ClassDef,
        ensures
            entry_class_processed(*old(class_def), *final(class_def), name_map_entries(*entry_module_renames)),
            match r {
                Some(p) => rename_of(name_map_entries(*entry_module_renames), (*old(class_def))->ClassDef_name@) == Some(
                    (p.0@, p.1@),
                ),
                None => rename_of(name_map_entries(*entry_module_renames), (*old(class_def))->ClassDef_name@) is None,
            },
    {
        let mut taken = Stmt::Pass;
        std::mem::swap(&mut taken, class_def);
        match taken {
            Stmt::ClassDef { name, decorators, bases, keywords, body } => {
                let (new_name, pending) = match name_map_get(entry_module_renames, name.as_str()) {
                    Some(n) => (copy_string(n), Some((copy_string(&name), copy_string(n)))),
                    None => (copy_string(&name), None),
                };
                let renamed_class = Stmt::ClassDef { name: new_name, decorators, bases, keywords, body };
                *class_def = self.rewrite_aliases_in_stmt(renamed_class, entry_module_renames);
                pending
            },
            other => {
                *class_def = other;
                None
            },
        }
    }

    /// Appends the statement `stmt` of the entry module to the bundle: as it
    /// is when the entry module renamed nothing; else as
    /// `entry_stmt_processed` says, followed by `original = new` when a
    /// rename is pending and the names differ.
    pub fn process_entry_module_statement(&self, stmt: Stmt, entry_module_renames: &NameMap, final_body: &mut Vec<Stmt>)
        ensures
            name_map_entries(*entry_module_renames).dom() == Set::<Seq<char>>::empty() ==> final(final_body)@
                == old(final_body)@.push(stmt),
            name_map_entries(*entry_module_renames).dom() != Set::<Seq<char>>::empty() ==> exists|
                new: Stmt,
                pending: Option<(Seq<char>, Seq<char>)>,
            |
                {
                    &&& #[trigger] entry_stmt_processed(
                        stmt,
                        new,
                        pending,
                        name_map_entries(*entry_module_renames),
                        name_map_pairs(*entry_module_renames),
                    )
                    &&& match pending {
                        Some(p) => if p.0 != p.1 {
                            final(final_body)@.len() == old(final_body)@.len() + 2 && final(final_body)@[old(
                                final_body,
                            )@.len() as int] == new && is_reassignment(final(final_body)@.last(), p.0, p.1)
                                && final(final_body)@.subrange(0, old(final_body)@.len() as int) == old(
                                final_body,
                            )@
                        } else {
                            final(final_body)@ == old(final_body)@.push(new)
                        },
                        None => final(final_body)@ == old(final_body)@.push(new),
                    }
                },
    {
        if name_map_is_empty(entry_module_renames) {
            final_body.push(stmt);
            return ;
        }
        let ghost original = stmt;
        let ghost renames = name_map_entries(*entry_module_renames);
        let ghost pairs = name_map_pairs(*entry_module_renames);
        let mut current = stmt;
        let pending: Option<(String, String)> = match &current {
            Stmt::FunctionDef { .. } => self.process_entry_module_function(&mut current, entry_module_renames),
            Stmt::ClassDef { .. } => self.process_entry_module_class(&mut current, entry_module_renames),
            _ => {
                let rewritten = self.rewrite_aliases_in_stmt(current, entry_module_renames);
                current = rewritten;
                match &current {
                    Stmt::Assign { targets, .. } => self.check_renamed_assignment(targets, entry_module_renames),
                    _ => None,
                }
            },
        };
        let ghost new = current;
        let ghost pend: Option<(Seq<char>, Seq<char>)> = match &pending {
            Some(p) => Some((p.0@, p.1@)),
            None => None,
        };
        let ghost start = final_body@;
        final_body.push(current);
        match pending {
            Some((o, n)) => {
                if !str_eq(o.as_str(), n.as_str()) {
                    let reassign = self.create_reassignment(o.as_str(), n.as_str());
                    final_body.push(reassign);
                    proof {
                        assert(final_body@.subrange(0, start.len() as int) =~= start);
                    }
                }
            },
            None => {},
        }
        proof {
            assert(entry_stmt_processed(original, new, pend, renames, pairs));
        }
    }
}

} // verus!
