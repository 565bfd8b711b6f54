//! Pieces of the emitted bundle: the `__future__` import, the preserved and
//! aliased imports, comment markers, and small expressions the emitter
//! writes.
use vstd::prelude::*;

use indexmap::IndexSet;

use crate::ast::{Expr, ExprContext, ModModule, Stmt};
use crate::code_generator::{future_features_of, insert_all};
use crate::collections::{index_set_insert, index_set_items, index_set_new, index_set_to_vec, index_set_into_vec};
use crate::dependency_graph::ModuleNode;
use crate::emit::{valid_module_name, CodeEmitter, ImportStrategy};
use crate::hoisting::{
    alias_names, from_module, from_names, import_module, plain_from, plain_import, sorted_permutation,
};
use crate::import_scan::lemma_insert_all_concat;
use crate::order::{sort_names, sorted_names};
use crate::resolver::{root_module, ImportType};
use crate::text::{copy_string, has_prefix, split_on, str_eq, to_string, views};

verus! {

/// The text that marks a statement as a comment to write out.
pub open spec fn comment_marker() -> Seq<char> {
    "__CRIBO_COMMENT_MARKER__"@
}

/// The expression statement holding the marked comment `comment`.
pub open spec fn is_comment(s: Stmt, comment: Seq<char>) -> bool {
    s matches Stmt::Expr(Expr::StringLiteral(t)) && t@ == comment_marker() + comment
}

/// A module name `create_import_statement` turns into `import name`.
pub open spec fn importable(n: Seq<char>) -> bool {
    !has_prefix(n, "import "@) && !has_prefix(n, "from "@) && valid_module_name(n)
}

/// `b` is one `import name` per importable name of `names`, sorted.
pub open spec fn import_stmts_block(b: Seq<Stmt>, names: Seq<Seq<char>>) -> bool {
    &&& sorted_permutation(b.map_values(|s: Stmt| import_module(s)), names.filter(|n: Seq<char>| importable(n)))
    &&& forall|i: int| 0 <= i < b.len() ==> plain_import(#[trigger] b[i])
}

/// The preserved imports section: a header comment, the standard-library
/// imports, a blank comment between the two groups when both have names,
/// the third-party imports, and a closing blank comment; nothing when
/// there is no import.
pub open spec fn preserved_section(b: Seq<Stmt>, stdlib: Seq<Seq<char>>, third_party: Seq<Seq<char>>) -> bool {
    if stdlib.len() == 0 && third_party.len() == 0 {
        b.len() == 0
    } else {
        let n1: int = stdlib.filter(|n: Seq<char>| importable(n)).len() as int;
        let sep: int = if stdlib.len() > 0 && third_party.len() > 0 {
            1
        } else {
            0
        };
        let n2: int = third_party.filter(|n: Seq<char>| importable(n)).len() as int;
        &&& b.len() == 1 + n1 + sep + n2 + 1
        &&& is_comment(b[0], "# Preserved imports"@)
        &&& import_stmts_block(b.subrange(1, 1 + n1), stdlib)
        &&& (sep == 1 ==> is_comment(b[1 + n1], Seq::empty()))
        &&& import_stmts_block(b.subrange(1 + n1 + sep, 1 + n1 + sep + n2), third_party)
        &&& is_comment(b[b.len() - 1], Seq::empty())
    }
}

/// The aliased imports section: a blank comment, a header comment, the
/// standard-library imports, then the third-party ones; nothing when there
/// is no import.
pub open spec fn aliased_section(b: Seq<Stmt>, stdlib: Seq<Seq<char>>, third_party: Seq<Seq<char>>) -> bool {
    if stdlib.len() == 0 && third_party.len() == 0 {
        b.len() == 0
    } else {
        let n1: int = stdlib.filter(|n: Seq<char>| importable(n)).len() as int;
        let n2: int = third_party.filter(|n: Seq<char>| importable(n)).len() as int;
        &&& b.len() == 2 + n1 + n2
        &&& is_comment(b[0], Seq::empty())
        &&& is_comment(b[1], "# Imports for alias assignments"@)
        &&& import_stmts_block(b.subrange(2, 2 + n1), stdlib)
        &&& import_stmts_block(b.subrange(2 + n1, b.len() as int), third_party)
    }
}

/// The `__future__` section: `from __future__ import` the features,
/// sorted, then a blank comment; nothing without features.
pub open spec fn future_section(b: Seq<Stmt>, features: Seq<Seq<char>>) -> bool {
    if features.len() == 0 {
        b.len() == 0
    } else {
        &&& b.len() == 2
        &&& plain_from(b[0])
        &&& from_module(b[0]) == "__future__"@
        &&& sorted_permutation(from_names(b[0]), features)
        &&& is_comment(b[1], Seq::empty())
    }
}

/// `body` extended by a section that `section` describes.
pub open spec fn extended_by(old_body: Seq<Stmt>, new_body: Seq<Stmt>, section: spec_fn(Seq<Stmt>) -> bool) -> bool {
    &&& new_body.len() >= old_body.len()
    &&& new_body.subrange(0, old_body.len() as int) == old_body
    &&& section(new_body.subrange(old_body.len() as int, new_body.len() as int))
}

/// The package a third-party import belongs to: its first dotted part.
pub open spec fn third_party_packages(imports: Seq<Seq<char>>, classify: spec_fn(Seq<char>) -> ImportType) -> Seq<
    Seq<char>,
>
    decreases imports.len(),
{
    if imports.len() == 0 {
        Seq::empty()
    } else {
        third_party_packages(imports.drop_last(), classify) + if classify(imports.last()) is ThirdParty {
            seq![root_module(imports.last())]
        } else {
            Seq::empty()
        }
    }
}

/// `imported_module.imported_name`, the module read as a chain of names.
pub open spec fn is_module_attribute(e: Expr, imported_module: Seq<char>, imported_name: Seq<char>) -> bool {
    e matches Expr::Attribute { value, attr, ctx } && attr@ == imported_name && ctx == ExprContext::Load
        && crate::symbols::name_chain(*value, split_on(imported_module, '.'))
        && all_loads(*value)
}

/// Every name and attribute of a chain is read.
pub open spec fn all_loads(e: Expr) -> bool
    decreases e,
{
    match e {
        Expr::Attribute { value, ctx, .. } => ctx == ExprContext::Load && all_loads(*value),
        Expr::Name { ctx, .. } => ctx == ExprContext::Load,
        _ => true,
    }
}


/// The assignment target `e` binds `name`: the name itself, or inside a
/// tuple or list target.
pub open spec fn expr_defines(e: Expr, name: Seq<char>) -> bool
    decreases e,
{
    match e {
        Expr::Name { id, .. } => id@ == name,
        Expr::Tuple(elts) => elts_define(elts@, name),
        Expr::List(elts) => elts_define(elts@, name),
        _ => false,
    }
}

pub open spec fn elts_define(es: Seq<Expr>, name: Seq<char>) -> bool
    decreases es,
{
    es.len() > 0 && (elts_define(es.drop_last(), name) || expr_defines(es.last(), name))
}

/// The statement defines `name`: an assignment to it, a function or class
/// of that name, or an import binding it.
pub open spec fn stmt_defines(s: Stmt, name: Seq<char>) -> bool {
    match s {
        Stmt::Assign { targets, .. } => exists|i: int|
            0 <= i < targets@.len() && expr_defines(#[trigger] targets@[i], name),
        Stmt::FunctionDef { name: n, .. } => n@ == name,
        Stmt::ClassDef { name: n, .. } => n@ == name,
        Stmt::Import(names) => exists|i: int|
            0 <= i < names@.len() && crate::ast::alias_local_name(#[trigger] names@[i]) == name,
        Stmt::ImportFrom { names, .. } => exists|i: int|
            0 <= i < names@.len() && crate::ast::alias_local_name(#[trigger] names@[i]) == name,
        _ => false,
    }
}

/// Some top-level statement of `body` defines `name`.
pub open spec fn body_defines(body: Seq<Stmt>, name: Seq<char>) -> bool {
    exists|i: int| 0 <= i < body.len() && stmt_defines(#[trigger] body[i], name)
}

/// A body that defines a name keeps doing so read past its `i`-th element.
proof fn lemma_elts_define_extends(es: Seq<Expr>, i: int, name: Seq<char>)
    requires
        0 <= i < es.len(),
        expr_defines(es[i], name),
    ensures
        elts_define(es, name),
    decreases es.len(),
{
    if i < es.len() - 1 {
        lemma_elts_define_extends(es.drop_last(), i, name);
    }
}

/// Whether some alias binds `name`.
fn aliases_bind(names: &Vec<crate::ast::Alias>, name: &str) -> (r: bool)
    ensures
        r == exists|i: int| 0 <= i < names@.len() && crate::ast::alias_local_name(#[trigger] names@[i]) == name@,
{
    let mut i: usize = 0;
    while i < names.len()
        invariant
            i <= names.len(),
            forall|j: int| 0 <= j < i ==> crate::ast::alias_local_name(#[trigger] names@[j]) != name@,
        decreases names.len() - i,
    {
        if str_eq(crate::ast::local_name(&names[i]).as_str(), name) {
            return true;
        }
        i += 1;
    }
    false
}

/// The statement `import n` for each importable name, in order.
fn import_statements_for(emitter: &CodeEmitter, names: &Vec<String>) -> (r: Vec<Stmt>)
    ensures
        r@.map_values(|s: Stmt| import_module(s)) == views(names@).filter(|n: Seq<char>| importable(n)),
        forall|i: int| 0 <= i < r@.len() ==> plain_import(#[trigger] r@[i]),
{
    let mut out: Vec<Stmt> = Vec::new();
    let mut i: usize = 0;
    proof {
        assert(views(names@).subrange(0, 0).filter(|n: Seq<char>| importable(n)) =~= Seq::<Seq<char>>::empty());
    }
    while i < names.len()
        invariant
            i <= names.len(),
            out@.map_values(|s: Stmt| import_module(s)) == views(names@).subrange(0, i as int).filter(
                |n: Seq<char>| importable(n),
            ),
            forall|j: int| 0 <= j < out@.len() ==> plain_import(#[trigger] out@[j]),
        decreases names.len() - i,
    {
        let ghost before = out@;
        proof {
            let t = views(names@).subrange(0, i + 1);
            assert(t.drop_last() =~= views(names@).subrange(0, i as int));
            assert(t.last() == names@[i as int]@);
            reveal(Seq::filter);
        }
        match emitter.create_import_statement(names[i].as_str()) {
            Some(stmt) => {
                out.push(stmt);
                proof {
                    assert(out@.map_values(|s: Stmt| import_module(s)) =~= before.map_values(
                        |s: Stmt| import_module(s),
                    ).push(names@[i as int]@));
                    assert forall|j: int| 0 <= j < out@.len() implies plain_import(#[trigger] out@[j]) by {
                        if j < before.len() {
                            assert(out@[j] == before[j]);
                        }
                    }
                }
            },
            None => {},
        }
        i += 1;
    }
    proof {
        assert(views(names@).subrange(0, names@.len() as int) =~= views(names@));
    }
    out
}

/// The importable names, sorted, as `import` statements.
fn sorted_import_statements(emitter: &CodeEmitter, names: Vec<String>) -> (r: Vec<Stmt>)
    ensures
        import_stmts_block(r@, views(names@)),
        r@.len() == views(names@).filter(|n: Seq<char>| importable(n)).len(),
{
    let stmts = import_statements_for(emitter, &names);
    let mut kept: Vec<String> = Vec::new();
    let mut i: usize = 0;
    while i < stmts.len()
        invariant
            i <= stmts.len(),
            views(kept@) == stmts@.subrange(0, i as int).map_values(|s: Stmt| import_module(s)),
        decreases stmts.len() - i,
    {
        let ghost before = views(kept@);
        match &stmts[i] {
            Stmt::Import(aliases) => {
                if aliases.len() > 0 {
                    kept.push(copy_string(&aliases[0].name));
                } else {
                    kept.push(String::new());
                }
            },
            _ => {
                kept.push(String::new());
            },
        }
        proof {
            assert(views(kept@) =~= before.push(import_module(stmts@[i as int])));
            assert(stmts@.subrange(0, i + 1).map_values(|s: Stmt| import_module(s)) =~= stmts@.subrange(
                0,
                i as int,
            ).map_values(|s: Stmt| import_module(s)).push(import_module(stmts@[i as int])));
        }
        i += 1;
    }
    proof {
        assert(stmts@.subrange(0, stmts@.len() as int) =~= stmts@);
    }
    let sorted = sort_names(kept, false);
    let mut out: Vec<Stmt> = Vec::new();
    let mut k: usize = 0;
    while k < sorted.len()
        invariant
            k <= sorted.len(),
            out@.len() == k,
            forall|j: int| 0 <= j < k ==> import_module(#[trigger] out@[j]) == sorted@[j]@,
            forall|j: int| 0 <= j < k ==> plain_import(#[trigger] out@[j]),
        decreases sorted.len() - k,
    {
        let mut aliases: Vec<crate::ast::Alias> = Vec::new();
        aliases.push(crate::ast::Alias { name: copy_string(&sorted[k]), asname: None });
        let ghost before = out@;
        out.push(Stmt::Import(aliases));
        proof {
            assert forall|j: int| 0 <= j < k + 1 implies import_module(#[trigger] out@[j]) == sorted@[j]@ by {
                if j < k {
                    assert(out@[j] == before[j]);
                }
            }
            assert forall|j: int| 0 <= j < k + 1 implies plain_import(#[trigger] out@[j]) by {
                if j < k {
                    assert(out@[j] == before[j]);
                }
            }
        }
        k += 1;
    }
    proof {
        broadcast use vstd::seq_lib::group_to_multiset_ensures;
        assert(out@.map_values(|s: Stmt| import_module(s)) =~= views(sorted@));
        assert(views(sorted@).len() == views(sorted@).to_multiset().len());
        assert(views(kept@).len() == views(kept@).to_multiset().len());
    }
    out
}

/// What `regex::Regex::new(pattern)` followed by `is_match(text)` gives:
/// `None` where the pattern does not compile, else whether some part of
/// `text` matches it.
pub uninterp spec fn regex_finds(pattern: Seq<char>, text: Seq<char>) -> Option<bool>;

/// `regex::Regex::new` then `Regex::is_match`: whether some part of `text`
/// matches `pattern`, or `None` where the pattern does not compile.
#[verifier::external_body]
fn regex_is_match(pattern: &str, text: &str) -> (r: Option<bool>)
    ensures
        r == regex_finds(pattern@, text@),
{
    regex::Regex::new(pattern).ok().map(|re| re.is_match(text))
}

/// The pattern of a bundled variable: `__`, a module part, `_`, a name.
pub open spec fn bundled_var_pattern() -> Seq<char> {
    "__[a-zA-Z_][a-zA-Z0-9_]*_[a-zA-Z_][a-zA-Z0-9_]*"@
}

/// Whether some part of `text` has the shape of a bundled variable.
fn bundled_var_found(text: &str) -> (r: bool)
    ensures
        r == (regex_finds(bundled_var_pattern(), text@) == Some(true)),
{
    match regex_is_match("__[a-zA-Z_][a-zA-Z0-9_]*_[a-zA-Z_][a-zA-Z0-9_]*", text) {
        Some(found) => found,
        None => false,
    }
}

impl CodeEmitter {
    /// Whether the module's code refers to a bundled variable of another
    /// module (a name like `__module_name_variable`).
    pub fn module_has_bundled_variable_references(&self, module_code: &str) -> (r: bool)
        ensures
            r == (regex_finds(bundled_var_pattern(), module_code@) == Some(true)),
    {
        bundled_var_found(module_code)
    }

    /// Whether `name` has the shape of a bundled variable.
    pub fn is_bundled_variable_name(&self, name: &str) -> (r: bool)
        ensures
            r == (regex_finds(bundled_var_pattern(), name@) == Some(true)),
    {
        bundled_var_found(name)
    }

    /// The marked comment `comment`, as an expression statement holding a
    /// string the writer turns back into a comment.
    pub fn create_comment_stmt(&self, comment: &str) -> (r: Stmt)
        ensures
            is_comment(r, comment@),
    {
        let mut content = to_string("__CRIBO_COMMENT_MARKER__");
        content.append(comment);
        proof {
            reveal_strlit("__CRIBO_COMMENT_MARKER__");
        }
        Stmt::Expr(Expr::StringLiteral(content))
    }

    /// The name `name` with the context `ctx`.
    pub fn create_name_expr(name: &str, ctx: ExprContext) -> (r: Expr)
        ensures
            r matches Expr::Name { id, ctx: c } && id@ == name@ && c == ctx,
    {
        Expr::Name { id: to_string(name), ctx }
    }

    /// `value.attr` with the context `ctx`.
    pub fn create_attribute_expr(value: Expr, attr: &str, ctx: ExprContext) -> (r: Expr)
        ensures
            r matches Expr::Attribute { value: v, attr: a, ctx: c } && *v == value && a@ == attr@ && c == ctx,
    {
        Expr::Attribute { value: Box::new(value), attr: to_string(attr), ctx }
    }

    /// The string literal `value`.
    pub fn create_string_literal(value: &str) -> (r: Expr)
        ensures
            r matches Expr::StringLiteral(s) && s@ == value@,
    {
        Expr::StringLiteral(to_string(value))
    }

    /// `getattr(obj_expr, 'attr_name')`.
    pub fn create_getattr_call(obj_expr: Expr, attr_name: &str) -> (r: Expr)
        ensures
            r matches Expr::Call { func, args, keywords } && (*func matches Expr::Name { id, ctx } && id@
                == "getattr"@ && ctx == ExprContext::Load) && args@.len() == 2 && args@[0] == obj_expr
                && (args@[1] matches Expr::StringLiteral(s) && s@ == attr_name@) && keywords@.len() == 0,
    {
        proof {
            reveal_strlit("getattr");
        }
        let mut args: Vec<Expr> = Vec::new();
        args.push(obj_expr);
        args.push(Self::create_string_literal(attr_name));
        Expr::Call {
            func: Box::new(Self::create_name_expr("getattr", ExprContext::Load)),
            args,
            keywords: Vec::new(),
        }
    }

    /// Adds the features of the module's `from __future__ import` statements.
    pub fn collect_future_imports_from_ast(&mut self, module: &ModModule)
        ensures
            final(self).future_features() == insert_all(old(self).future_features(), future_features_of(module.body@)),
            final(self).resolver_view() == old(self).resolver_view(),
    {
        let mut i: usize = 0;
        proof {
            reveal_strlit("__future__");
            assert(module.body@.subrange(0, 0) =~= Seq::<Stmt>::empty());
        }
        while i < module.body.len()
            invariant
                i <= module.body.len(),
                self.future_features() == insert_all(
                    old(self).future_features(),
                    future_features_of(module.body@.subrange(0, i as int)),
                ),
                self.resolver_view() == old(self).resolver_view(),
            decreases module.body.len() - i,
        {
            let ghost base = future_features_of(module.body@.subrange(0, i as int));
            proof {
                let t = module.body@.subrange(0, i + 1);
                assert(t.drop_last() =~= module.body@.subrange(0, i as int));
                assert(t.last() == module.body@[i as int]);
            }
            let mut is_future = false;
            if let Stmt::ImportFrom { module: Some(m), names, .. } = &module.body[i] {
                if str_eq(m.as_str(), "__future__") {
                    is_future = true;
                    let mut j: usize = 0;
                    proof {
                        assert(base + alias_names(names@.subrange(0, 0)) =~= base);
                    }
                    while j < names.len()
                        invariant
                            j <= names.len(),
                            self.future_features() == insert_all(
                                old(self).future_features(),
                                base + alias_names(names@.subrange(0, j as int)),
                            ),
                            self.resolver_view() == old(self).resolver_view(),
                        decreases names.len() - j,
                    {
                        proof {
                            let t = base + alias_names(names@.subrange(0, j + 1));
                            assert(t.drop_last() =~= base + alias_names(names@.subrange(0, j as int)));
                            assert(t.last() == names@[j as int].name@);
                        }
                        self.add_future_feature(copy_string(&names[j].name));
                        j += 1;
                    }
                    proof {
                        assert(names@.subrange(0, names@.len() as int) =~= names@);
                        assert(alias_names(names@) =~= names@.map_values(|a: crate::ast::Alias| a.name@));
                    }
                }
            }
            if !is_future {
                proof {
                    assert(future_features_of(module.body@.subrange(0, i + 1)) =~= base);
                }
            }
            i += 1;
        }
        proof {
            assert(module.body@.subrange(0, module.body@.len() as int) =~= module.body@);
        }
    }

    /// Appends the `__future__` section to the bundle (see `future_section`).
    pub fn add_future_imports_to_bundle(&self, bundle_ast: &mut ModModule)
        ensures
            extended_by(
                old(bundle_ast).body@,
                final(bundle_ast).body@,
                |b: Seq<Stmt>| future_section(b, self.future_features()),
            ),
    {
        let ghost start = bundle_ast.body@;
        let features = self.future_feature_list();
        if features.len() == 0 {
            proof {
                assert(bundle_ast.body@.subrange(0, start.len() as int) =~= start);
                assert(bundle_ast.body@.subrange(start.len() as int, start.len() as int) =~= Seq::<Stmt>::empty());
            }
            return;
        }
        let sorted = sort_names(features, false);
        let mut aliases: Vec<crate::ast::Alias> = Vec::new();
        let mut i: usize = 0;
        while i < sorted.len()
            invariant
                i <= sorted.len(),
                alias_names(aliases@) == views(sorted@).subrange(0, i as int),
                forall|j: int| 0 <= j < aliases@.len() ==> (#[trigger] aliases@[j]).asname is None,
            decreases sorted.len() - i,
        {
            let ghost before = aliases@;
            aliases.push(crate::ast::Alias { name: copy_string(&sorted[i]), asname: None });
            proof {
                assert(alias_names(aliases@) =~= alias_names(before).push(sorted@[i as int]@));
                assert(views(sorted@).subrange(0, i + 1) =~= views(sorted@).subrange(0, i as int).push(
                    sorted@[i as int]@,
                ));
                assert forall|j: int| 0 <= j < aliases@.len() implies (#[trigger] aliases@[j]).asname is None by {
                    if j < before.len() {
                        assert(aliases@[j] == before[j]);
                    }
                }
            }
            i += 1;
        }
        proof {
            assert(views(sorted@).subrange(0, sorted@.len() as int) =~= views(sorted@));
            reveal_strlit("__future__");
        }
        let future_import = Stmt::ImportFrom {
            module: Some(to_string("__future__")),
            names: aliases,
            level: 0,
        };
        bundle_ast.body.push(future_import);
        bundle_ast.body.push(self.create_comment_stmt(""));
        proof {
            reveal_strlit("");
            assert(bundle_ast.body@.subrange(0, start.len() as int) =~= start);
        }
    }

    /// Appends the aliased imports section to the bundle (see `aliased_section`).
    pub fn add_aliased_imports_to_bundle(
        &self,
        bundle_ast: &mut ModModule,
        aliased_imports: (IndexSet<String>, IndexSet<String>),
    )
        ensures
            extended_by(
                old(bundle_ast).body@,
                final(bundle_ast).body@,
                |b: Seq<Stmt>| aliased_section(b, index_set_items(aliased_imports.1), index_set_items(aliased_imports.0)),
            ),
    {
        let ghost start = bundle_ast.body@;
        let (aliased_third_party, aliased_stdlib) = aliased_imports;
        let ghost sv = index_set_items(aliased_stdlib);
        let ghost tv = index_set_items(aliased_third_party);
        let stdlib = index_set_into_vec(aliased_stdlib);
        let third_party = index_set_into_vec(aliased_third_party);
        if stdlib.len() == 0 && third_party.len() == 0 {
            proof {
                assert(bundle_ast.body@.subrange(0, start.len() as int) =~= start);
                assert(bundle_ast.body@.subrange(start.len() as int, start.len() as int) =~= Seq::<Stmt>::empty());
            }
            return;
        }
        bundle_ast.body.push(self.create_comment_stmt(""));
        bundle_ast.body.push(self.create_comment_stmt("# Imports for alias assignments"));
        let mut b1 = sorted_import_statements(self, stdlib);
        let mut b2 = sorted_import_statements(self, third_party);
        let ghost (s1, s2) = (b1@, b2@);
        let ghost mid = bundle_ast.body@;
        bundle_ast.body.append(&mut b1);
        bundle_ast.body.append(&mut b2);
        proof {
            reveal_strlit("");
            reveal_strlit("# Imports for alias assignments");
            let b = bundle_ast.body@.subrange(start.len() as int, bundle_ast.body@.len() as int);
            assert(bundle_ast.body@ =~= mid + s1 + s2);
            assert(bundle_ast.body@.subrange(0, start.len() as int) =~= start);
            assert(b[0] == mid[start.len() as int]);
            assert(b[1] == mid[start.len() as int + 1]);
            assert(b.subrange(2, 2 + s1.len() as int) =~= s1);
            assert(b.subrange(2 + s1.len() as int, b.len() as int) =~= s2);
        }
    }

    /// Appends the preserved imports section to the bundle (see `preserved_section`).
    pub fn add_preserved_imports_to_bundle(
        &self,
        bundle_ast: &mut ModModule,
        stdlib_imports: IndexSet<String>,
        third_party_imports: IndexSet<String>,
    )
        ensures
            extended_by(
                old(bundle_ast).body@,
                final(bundle_ast).body@,
                |b: Seq<Stmt>| preserved_section(b, index_set_items(stdlib_imports), index_set_items(third_party_imports)),
            ),
    {
        let ghost start = bundle_ast.body@;
        let stdlib = index_set_into_vec(stdlib_imports);
        let third_party = index_set_into_vec(third_party_imports);
        if stdlib.len() == 0 && third_party.len() == 0 {
            proof {
                assert(bundle_ast.body@.subrange(0, start.len() as int) =~= start);
                assert(bundle_ast.body@.subrange(start.len() as int, start.len() as int) =~= Seq::<Stmt>::empty());
            }
            return;
        }
        bundle_ast.body.push(self.create_comment_stmt("# Preserved imports"));
        let both = stdlib.len() > 0 && third_party.len() > 0;
        let mut b1 = sorted_import_statements(self, stdlib);
        let ghost s1 = b1@;
        bundle_ast.body.append(&mut b1);
        if both {
            bundle_ast.body.push(self.create_comment_stmt(""));
        }
        let mut b2 = sorted_import_statements(self, third_party);
        let ghost s2 = b2@;
        let ghost mid = bundle_ast.body@;
        bundle_ast.body.append(&mut b2);
        bundle_ast.body.push(self.create_comment_stmt(""));
        proof {
            reveal_strlit("");
            reveal_strlit("# Preserved imports");
            let b = bundle_ast.body@.subrange(start.len() as int, bundle_ast.body@.len() as int);
            let sep: int = if both { 1 } else { 0 };
            assert(bundle_ast.body@.subrange(0, start.len() as int) =~= start);
            assert(b.len() == 1 + s1.len() + sep + s2.len() + 1);
            assert(b.subrange(1, 1 + s1.len() as int) =~= s1);
            assert(b.subrange(1 + s1.len() as int + sep, 1 + s1.len() as int + sep + s2.len() as int) =~= s2);
        }
    }

    /// The modules the import statements of the body keep, with the
    /// first-party imports listed (and first-party by the resolver) removed.
    pub fn remove_first_party_imports(&self, module: ModModule, first_party_imports: &IndexSet<String>) -> (r:
        ModModule)
        ensures
            crate::emit::imports_filtered(
                module.body@,
                r.body@,
                index_set_items(*first_party_imports).to_set().filter(
                    |n: Seq<char>| self.resolver_view().classification(n) is FirstParty,
                ),
            ),
    {
        let names = index_set_to_vec(first_party_imports);
        let ghost fp = index_set_items(*first_party_imports);
        let mut removed = index_set_new();
        let ghost first_party = |n: Seq<char>| self.resolver_view().classification(n) is FirstParty;
        let mut i: usize = 0;
        proof {
            assert(index_set_items(removed).to_set() =~= fp.subrange(0, 0).to_set().filter(first_party));
        }
        while i < names.len()
            invariant
                i <= names.len(),
                views(names@) == fp,
                first_party == (|n: Seq<char>| self.resolver_view().classification(n) is FirstParty),
                index_set_items(removed).to_set() == fp.subrange(0, i as int).to_set().filter(first_party),
            decreases names.len() - i,
        {
            let ghost before = index_set_items(removed);
            proof {
                assert(fp.subrange(0, i + 1) =~= fp.subrange(0, i as int).push(names@[i as int]@));
                fp.subrange(0, i as int).lemma_push_to_set_commute(names@[i as int]@);
            }
            if let ImportType::FirstParty = self.classify(names[i].as_str()) {
                let _ = index_set_insert(&mut removed, copy_string(&names[i]));
                proof {
                    if !before.contains(names@[i as int]@) {
                        before.lemma_push_to_set_commute(names@[i as int]@);
                    } else {
                        assert(before.to_set().contains(names@[i as int]@));
                    }
                    assert(index_set_items(removed).to_set() =~= before.to_set().insert(names@[i as int]@));
                    assert(index_set_items(removed).to_set() =~= fp.subrange(0, i + 1).to_set().filter(first_party));
                }
            } else {
                proof {
                    assert(index_set_items(removed).to_set() =~= fp.subrange(0, i + 1).to_set().filter(first_party));
                }
            }
            i += 1;
        }
        proof {
            assert(fp.subrange(0, fp.len() as int) =~= fp);
        }
        let ModModule { body } = module;
        ModModule { body: self.filter_import_statements(body, &removed) }
    }

    /// The module's import statements without the imports of `unused_imports`.
    pub fn remove_unused_imports(&self, module: ModModule, unused_imports: &IndexSet<String>) -> (r: ModModule)
        ensures
            crate::emit::imports_filtered(module.body@, r.body@, index_set_items(*unused_imports).to_set()),
    {
        let ModModule { body } = module;
        ModModule { body: self.filter_import_statements(body, unused_imports) }
    }

    /// Adds the package (first dotted part) of each third-party import of the module.
    pub fn collect_third_party_imports_from_module(&self, module: &ModuleNode, third_party_imports: &mut IndexSet<String>)
        ensures
            index_set_items(*final(third_party_imports)) == insert_all(
                index_set_items(*old(third_party_imports)),
                third_party_packages(views(module.imports@), |n: Seq<char>| self.resolver_view().classification(n)),
            ),
    {
        let ghost start = index_set_items(*third_party_imports);
        let ghost cls = |n: Seq<char>| self.resolver_view().classification(n);
        let mut i: usize = 0;
        proof {
            assert(views(module.imports@).subrange(0, 0) =~= Seq::<Seq<char>>::empty());
        }
        while i < module.imports.len()
            invariant
                i <= module.imports.len(),
                cls == (|n: Seq<char>| self.resolver_view().classification(n)),
                index_set_items(*third_party_imports) == insert_all(
                    start,
                    third_party_packages(views(module.imports@).subrange(0, i as int), cls),
                ),
            decreases module.imports.len() - i,
        {
            let ghost pre = third_party_packages(views(module.imports@).subrange(0, i as int), cls);
            proof {
                let t = views(module.imports@).subrange(0, i + 1);
                assert(t.drop_last() =~= views(module.imports@).subrange(0, i as int));
                assert(t.last() == module.imports@[i as int]@);
            }
            let import = module.imports[i].as_str();
            if let ImportType::ThirdParty = self.classify(import) {
                let package_name = crate::resolver::root_module_of(import);
                let _ = index_set_insert(third_party_imports, package_name);
                proof {
                    assert(pre.push(root_module(import@)).drop_last() =~= pre);
                    assert(third_party_packages(views(module.imports@).subrange(0, i + 1), cls) =~= pre.push(
                        root_module(import@),
                    ));
                }
            } else {
                proof {
                    assert(third_party_packages(views(module.imports@).subrange(0, i + 1), cls) =~= pre);
                }
            }
            i += 1;
        }
        proof {
            assert(views(module.imports@).subrange(0, module.imports@.len() as int) =~= views(module.imports@));
        }
    }
    /// `imported_module.imported_name`, the module written as a chain of
    /// names read (see `is_module_attribute`).
    pub fn create_module_attribute_expr(&self, imported_module: &str, imported_name: &str) -> (r: Expr)
        ensures
            is_module_attribute(r, imported_module@, imported_name@),
    {
        let parts = crate::text::split_char(imported_module, '.');
        let ghost ps = views(parts@);
        proof {
            crate::text::lemma_split_nonempty(imported_module@, '.');
        }
        let mut current = Self::create_name_expr(parts[0].as_str(), ExprContext::Load);
        let mut k: usize = 1;
        proof {
            assert(ps.subrange(0, 1) =~= seq![ps[0]]);
        }
        while k < parts.len()
            invariant
                1 <= k <= parts.len(),
                ps == views(parts@),
                crate::symbols::name_chain(current, ps.subrange(0, k as int)),
                all_loads(current),
            decreases parts.len() - k,
        {
            let ghost prev = current;
            current = Self::create_attribute_expr(current, parts[k].as_str(), ExprContext::Load);
            proof {
                let t = ps.subrange(0, k + 1);
                assert(t.drop_last() =~= ps.subrange(0, k as int));
                assert(t.last() == ps[k as int]);
            }
            k += 1;
        }
        proof {
            assert(ps.subrange(0, ps.len() as int) =~= ps);
        }
        Self::create_attribute_expr(current, imported_name, ExprContext::Load)
    }

    /// The value an import binds under its strategy: the module attribute
    /// for a module import, else the name itself (the module was inlined).
    pub fn create_value_expr_for_strategy(
        &self,
        strategy: Option<&ImportStrategy>,
        imported_module: &str,
        imported_name: &str,
    ) -> (r: Expr)
        ensures
            strategy matches Some(ImportStrategy::ModuleImport) ==> is_module_attribute(
                r,
                imported_module@,
                imported_name@,
            ),
            !(strategy matches Some(ImportStrategy::ModuleImport)) ==> (r matches Expr::Name { id, ctx }
                && id@ == imported_name@ && ctx == ExprContext::Load),
    {
        match strategy {
            Some(ImportStrategy::ModuleImport) => self.create_module_attribute_expr(imported_module, imported_name),
            _ => Self::create_name_expr(imported_name, ExprContext::Load),
        }
    }

    /// Whether the assignment target binds `name` (see `expr_defines`).
    pub fn expression_defines_name(expr: &Expr, name: &str) -> (r: bool)
        ensures
            r == expr_defines(*expr, name@),
        decreases expr,
    {
        match expr {
            Expr::Name { id, .. } => str_eq(id.as_str(), name),
            Expr::Tuple(elts) => Self::elements_define_name(elts, name),
            Expr::List(elts) => Self::elements_define_name(elts, name),
            _ => false,
        }
    }

    fn elements_define_name(elts: &Vec<Expr>, name: &str) -> (r: bool)
        ensures
            r == elts_define(elts@, name@),
        decreases elts,
    {
        let mut i: usize = 0;
        while i < elts.len()
            invariant
                i <= elts.len(),
                !elts_define(elts@.subrange(0, i as int), name@),
            decreases elts.len() - i,
        {
            proof {
                assert(decreases_to!(elts => elts@));
                assert(decreases_to!(elts@ => elts@[i as int]));
                let t = elts@.subrange(0, i + 1);
                assert(t.drop_last() =~= elts@.subrange(0, i as int));
                assert(t.last() == elts@[i as int]);
            }
            if Self::expression_defines_name(&elts[i], name) {
                proof {
                    lemma_elts_define_extends(elts@, i as int, name@);
                }
                return true;
            }
            i += 1;
        }
        proof {
            assert(elts@.subrange(0, elts@.len() as int) =~= elts@);
        }
        false
    }

    /// Whether the statement defines `name` (see `stmt_defines`).
    #[verifier::loop_isolation(false)]
    pub fn statement_defines_name(&self, stmt: &Stmt, name: &str) -> (r: bool)
        ensures
            r == stmt_defines(*stmt, name@),
    {
        match stmt {
            Stmt::Assign { targets, .. } => {
                let mut i: usize = 0;
                while i < targets.len()
                    invariant
                        i <= targets.len(),
                        forall|j: int| 0 <= j < i ==> !expr_defines(#[trigger] targets@[j], name@),
                    decreases targets.len() - i,
                {
                    if Self::expression_defines_name(&targets[i], name) {
                        return true;
                    }
                    i += 1;
                }
                false
            },
            Stmt::FunctionDef { name: n, .. } => str_eq(n.as_str(), name),
            Stmt::ClassDef { name: n, .. } => str_eq(n.as_str(), name),
            Stmt::Import(names) => aliases_bind(names, name),
            Stmt::ImportFrom { names, .. } => aliases_bind(names, name),
            _ => false,
        }
    }

    /// Whether some top-level statement of the module defines `name`: the
    /// check made on a package's `__init__.py` once it is parsed.
    pub fn body_defines_name(&self, module: &ModModule, name: &str) -> (r: bool)
        ensures
            r == body_defines(module.body@, name@),
    {
        let mut i: usize = 0;
        while i < module.body.len()
            invariant
                i <= module.body.len(),
                forall|j: int| 0 <= j < i ==> !stmt_defines(#[trigger] module.body@[j], name@),
            decreases module.body.len() - i,
        {
            if self.statement_defines_name(&module.body[i], name) {
                return true;
            }
            i += 1;
        }
        false
    }
}

} // verus!
