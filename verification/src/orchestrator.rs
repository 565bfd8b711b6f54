//! Drives the bundling of a program: module names, import discovery, the
//! dependency graph, cycle reports, module order and requirements.
use vstd::prelude::*;

use sha2::{Digest, Sha256};

use crate::ast::{Alias, ModModule, Stmt};
use crate::collections::{
    index_set_contains, index_set_insert, index_set_into_vec, index_set_items, index_set_new,
};
use crate::config::Config;
use crate::order::{sort_names, sorted_names};
use crate::resolver::{root_module, root_module_of, ImportType, ModuleResolver};
use crate::dependency_graph::{
    DependencyGraph, ModuleNode, CircularDependencyAnalysis, CircularDependencyGroup, CircularDependencyType,
    ResolutionStrategy,
};
use crate::graph_builder::{dots, make_dots};
use crate::paths::{
    components, file_stem, file_stem_of, is_absolute, is_absolute_path, join_components,
    join_paths, parent_components, parent_of, path_components, strip_components, strip_prefix,
};
use crate::text::{
    lemma_split_nonempty, split_char, split_on, str_eq, contains_name, copy_range, copy_string, decimal, join_strings, join_with, name_set, to_string,
    usize_to_decimal, views,
};
use crate::util::{module_name_from_parts, module_name_from_relative};

verus! {

// ---------------------------------------------------------------------------
// Specification: cycle reports
// ---------------------------------------------------------------------------

/// The name `{:?}` prints for a cycle type.
pub open spec fn cycle_type_name(t: CircularDependencyType) -> Seq<char> {
    match t {
        CircularDependencyType::FunctionLevel => "FunctionLevel"@,
        CircularDependencyType::ClassLevel => "ClassLevel"@,
        CircularDependencyType::ModuleConstants => "ModuleConstants"@,
        CircularDependencyType::ImportTime => "ImportTime"@,
    }
}

/// The first two lines of a cycle's report: its number, its modules joined
/// by arrows, and its type.
pub open spec fn cycle_header(num: nat, c: CircularDependencyGroup) -> Seq<char> {
    "Cycle "@ + decimal(num) + ": "@ + join_with(views(c.modules@), " → "@) + "\n"@ + "  Type: "@
        + cycle_type_name(c.cycle_type) + "\n"@
}

/// The report of an unresolvable cycle.
pub open spec fn unresolvable_block(num: nat, c: CircularDependencyGroup) -> Seq<char> {
    cycle_header(num, c) + match c.suggested_resolution {
        ResolutionStrategy::Unresolvable { reason } => "  Reason: "@ + reason@ + "\n"@,
        _ => Seq::empty(),
    } + "\n"@
}

/// The reports of `cs`, numbered from `offset + 1`.
pub open spec fn unresolvable_blocks(cs: Seq<CircularDependencyGroup>, offset: nat) -> Seq<char>
    decreases cs.len(),
{
    if cs.len() == 0 {
        Seq::empty()
    } else {
        unresolvable_blocks(cs.drop_last(), offset) + unresolvable_block(
            offset + cs.len(),
            cs.last(),
        )
    }
}

/// One suggestion line per entry.
pub open spec fn suggestion_lines(s: Seq<Seq<char>>) -> Seq<char>
    decreases s.len(),
{
    if s.len() == 0 {
        Seq::empty()
    } else {
        suggestion_lines(s.drop_last()) + "    "@ + s.last() + "\n"@
    }
}

/// The suggestions printed for a resolution strategy.
pub open spec fn suggestions_text(r: ResolutionStrategy) -> Seq<char> {
    match r {
        ResolutionStrategy::LazyImport { .. } =>
            "  Suggestion: Move imports inside functions to enable lazy loading\n"@,
        ResolutionStrategy::FunctionScopedImport { import_statements } => "  Suggestions:\n"@
            + suggestion_lines(views(import_statements@)),
        ResolutionStrategy::ModuleSplit { suggestions } => "  Suggestions:\n"@ + suggestion_lines(
            views(suggestions@),
        ),
        ResolutionStrategy::Unresolvable { .. } => Seq::empty(),
    }
}

/// The report of a resolvable cycle.
pub open spec fn resolvable_block(num: nat, c: CircularDependencyGroup) -> Seq<char> {
    cycle_header(num, c) + suggestions_text(c.suggested_resolution) + "\n"@
}

pub open spec fn resolvable_blocks(cs: Seq<CircularDependencyGroup>, offset: nat) -> Seq<char>
    decreases cs.len(),
{
    if cs.len() == 0 {
        Seq::empty()
    } else {
        resolvable_blocks(cs.drop_last(), offset) + resolvable_block(offset + cs.len(), cs.last())
    }
}

/// The resolvable cycles' part of a report, numbered after the unresolvable ones.
pub open spec fn resolvable_section(
    resolvable: Seq<CircularDependencyGroup>,
    unresolvable: Seq<CircularDependencyGroup>,
) -> Seq<char> {
    (if unresolvable.len() > 0 {
        "RESOLVABLE CYCLES (not yet implemented):\n"@
    } else {
        Seq::empty()
    }) + resolvable_blocks(resolvable, unresolvable.len())
}

/// The error reported when a graph has cycles the bundler cannot handle.
pub open spec fn cycle_error_message(a: CircularDependencyAnalysis) -> Seq<char> {
    "Circular dependencies detected in the module graph:\n\n"@ + (if a.unresolvable_cycles@.len()
        > 0 {
        "UNRESOLVABLE CYCLES:\n"@ + unresolvable_blocks(a.unresolvable_cycles@, 0)
    } else {
        Seq::empty()
    }) + (if a.resolvable_cycles@.len() > 0 {
        resolvable_section(a.resolvable_cycles@, a.unresolvable_cycles@)
    } else {
        Seq::empty()
    })
}

/// The error reported when unresolvable cycles are found.
pub open spec fn unresolvable_cycles_error(cs: Seq<CircularDependencyGroup>) -> Seq<char> {
    "Unresolvable circular dependencies detected:\n\n"@ + unresolvable_blocks(cs, 0)
}

/// Every resolvable cycle only involves function-level uses.
pub open spec fn all_function_level(cs: Seq<CircularDependencyGroup>) -> bool {
    forall|i: int| 0 <= i < cs.len() ==> #[trigger] cs[i].cycle_type
        == CircularDependencyType::FunctionLevel
}

// ---------------------------------------------------------------------------
// Specification: module names from paths
// ---------------------------------------------------------------------------

/// The module named by `entry` within the first source directory (in order)
/// that holds it and under which it names a module.
pub open spec fn module_in_dirs(dirs: Seq<Seq<char>>, entry: Seq<Seq<char>>) -> Option<Seq<char>>
    decreases dirs.len(),
{
    if dirs.len() == 0 {
        None
    } else {
        match strip_components(entry, path_components(dirs[0])) {
            Some(rel) => match module_name_from_parts(rel) {
                Some(m) => Some(m),
                None => module_in_dirs(dirs.drop_first(), entry),
            },
            None => module_in_dirs(dirs.drop_first(), entry),
        }
    }
}

/// The entry module's name: from the source directories, else the file's stem.
pub open spec fn entry_module_name(dirs: Seq<Seq<char>>, entry: Seq<char>) -> Option<Seq<char>> {
    match module_in_dirs(dirs, path_components(entry)) {
        Some(m) => Some(m),
        None => file_stem(path_components(entry)),
    }
}

/// The error for an entry path with no module name.
pub open spec fn no_module_name_error(entry: Seq<char>) -> Seq<char> {
    "Cannot determine module name from entry path: \""@ + entry + "\""@
}

/// `target` inside the package `base` (the top level when `base` is empty).
pub open spec fn full_module_name(base: Seq<char>, target: Seq<char>) -> Seq<char> {
    if base.len() == 0 {
        target
    } else {
        base + "."@ + target
    }
}

/// A module name written with the dots of its relative-import level.
pub open spec fn relative_module_text(module: Seq<char>, level: u32) -> Seq<char> {
    if level > 0 {
        dots(level) + module
    } else {
        module
    }
}

/// The directory `abs_dir` relative to the first source directory that holds
/// it (relative source directories taken from `cwd`).
pub open spec fn relative_dir_in(
    dirs: Seq<Seq<char>>,
    abs_dir: Seq<Seq<char>>,
    cwd: Seq<Seq<char>>,
) -> Option<Seq<Seq<char>>>
    decreases dirs.len(),
{
    if dirs.len() == 0 {
        None
    } else {
        let sd = path_components(dirs[0]);
        let src = if is_absolute(sd) {
            sd
        } else {
            join_components(cwd, sd)
        };
        match strip_components(abs_dir, src) {
            Some(rel) => Some(rel),
            None => relative_dir_in(dirs.drop_first(), abs_dir, cwd),
        }
    }
}

/// The package a relative import of `level` dots names from the package
/// `parts`: `level - 1` parts fewer; none if that climbs above the top level.
pub open spec fn relative_package(parts: Seq<Seq<char>>, level: u32) -> Option<Seq<char>> {
    if level > parts.len() + 1 {
        None
    } else {
        let drop: int = if level == 0 {
            0
        } else {
            level - 1
        };
        Some(join_with(parts.subrange(0, parts.len() - drop), "."@))
    }
}

/// The absolute package a relative import of `level` dots in `file` names.
pub open spec fn resolve_relative(
    dirs: Seq<Seq<char>>,
    file: Seq<char>,
    level: u32,
    cwd: Seq<char>,
) -> Option<Seq<char>> {
    match parent_components(path_components(file)) {
        None => None,
        Some(cur) => {
            let abs = if is_absolute(cur) {
                cur
            } else {
                join_components(path_components(cwd), cur)
            };
            match relative_dir_in(dirs, abs, path_components(cwd)) {
                None => None,
                Some(rel) => relative_package(rel, level),
            }
        },
    }
}

// ---------------------------------------------------------------------------
// Specification: the imports of a module
// ---------------------------------------------------------------------------

/// `acc` with `m` appended unless it already holds it.
pub open spec fn push_unique(acc: Seq<Seq<char>>, m: Seq<char>) -> Seq<Seq<char>> {
    if acc.contains(m) {
        acc
    } else {
        acc.push(m)
    }
}

/// The names of `from base import a, b` that are modules themselves
/// (`base.a` resolves), appended unless already held.
pub open spec fn submodule_imports(
    acc: Seq<Seq<char>>,
    base: Seq<char>,
    names: Seq<Alias>,
    r: ModuleResolver,
) -> Seq<Seq<char>>
    decreases names.len(),
{
    if names.len() == 0 {
        acc
    } else {
        let prev = submodule_imports(acc, base, names.drop_last(), r);
        let full = base + "."@ + names.last().name@;
        if r.resolved(full) is Some {
            push_unique(prev, full)
        } else {
            prev
        }
    }
}

/// The imports an absolute `from module import names` adds: the module unless
/// already held, then (with a resolver) the imported names that are modules.
pub open spec fn absolute_from_imports(
    acc: Seq<Seq<char>>,
    module: Option<String>,
    names: Seq<Alias>,
    resolver: Option<ModuleResolver>,
) -> Seq<Seq<char>> {
    match module {
        None => acc,
        Some(m) => match resolver {
            None => push_unique(acc, m@),
            Some(r) => submodule_imports(push_unique(acc, m@), m@, names, r),
        },
    }
}

/// The imports a relative `from` import adds: with its package `base`
/// resolved, the module (or each imported name) inside `base`; else the
/// module written with its dots (or the dots alone).
pub open spec fn relative_from_imports(
    acc: Seq<Seq<char>>,
    module: Option<String>,
    names: Seq<Alias>,
    level: u32,
    base: Option<Seq<char>>,
) -> Seq<Seq<char>> {
    match base {
        Some(b) => match module {
            Some(m) => acc.push(full_module_name(b, m@)),
            None => acc + names.map_values(|a: Alias| full_module_name(b, a.name@)),
        },
        None => match module {
            Some(m) => acc.push(relative_module_text(m@, level)),
            None => acc.push(dots(level)),
        },
    }
}

/// The imports found so far (`acc`) after the statement `stmt` of `file`.
pub open spec fn stmt_imports(
    dirs: Seq<Seq<char>>,
    acc: Seq<Seq<char>>,
    stmt: Stmt,
    file: Seq<char>,
    resolver: Option<ModuleResolver>,
    cwd: Seq<char>,
) -> Seq<Seq<char>> {
    match stmt {
        Stmt::Import(names) => acc + names@.map_values(|a: Alias| a.name@),
        Stmt::ImportFrom { module, names, level } => if level == 0 {
            absolute_from_imports(acc, module, names@, resolver)
        } else {
            relative_from_imports(
                acc,
                module,
                names@,
                level,
                resolve_relative(dirs, file, level, cwd),
            )
        },
        _ => acc,
    }
}

/// The imports of the top-level statements `body` of `file`, in order.
pub open spec fn body_imports(
    dirs: Seq<Seq<char>>,
    body: Seq<Stmt>,
    file: Seq<char>,
    resolver: Option<ModuleResolver>,
    cwd: Seq<char>,
) -> Seq<Seq<char>>
    decreases body.len(),
{
    if body.len() == 0 {
        Seq::empty()
    } else {
        stmt_imports(
            dirs,
            body_imports(dirs, body.drop_last(), file, resolver, cwd),
            body.last(),
            file,
            resolver,
            cwd,
        )
    }
}

// ---------------------------------------------------------------------------
// Specification: dependency edges, requirements, cycle order
// ---------------------------------------------------------------------------

/// The first `n` dotted parts, joined by dots.
pub open spec fn dotted_prefix(parts: Seq<Seq<char>>, n: int) -> Seq<char> {
    join_with(parts.subrange(0, n), "."@)
}

/// The edges `parent -> module` for the parent packages made of the first
/// `1 .. upto - 1` parts: first-party parents present in the graph, other than
/// `module` itself, when `module` is in the graph too.
pub open spec fn parent_dependency_edges(
    parts: Seq<Seq<char>>,
    upto: nat,
    module: Seq<char>,
    r: ModuleResolver,
    names: Seq<Seq<char>>,
) -> Set<(Seq<char>, Seq<char>)>
    decreases upto,
{
    if upto <= 1 {
        Set::empty()
    } else {
        let prev = parent_dependency_edges(parts, (upto - 1) as nat, module, r, names);
        let parent = dotted_prefix(parts, upto - 1);
        if parent != module && r.classification(parent) == ImportType::FirstParty
            && names.contains(parent) && names.contains(module) {
            prev.insert((parent, module))
        } else {
            prev
        }
    }
}

/// The edges an import of `import` by `module` adds to a graph of modules
/// `names`: for a first-party import, `import -> module` (when both are in the
/// graph) and the edges from its parent packages.
pub open spec fn dependency_edges(
    import: Seq<char>,
    module: Seq<char>,
    r: ModuleResolver,
    names: Seq<Seq<char>>,
) -> Set<(Seq<char>, Seq<char>)> {
    if r.classification(import) == ImportType::FirstParty {
        (if names.contains(import) && names.contains(module) {
            set![(import, module)]
        } else {
            Set::empty()
        }) + parent_dependency_edges(
            split_on(import, '.'),
            split_on(import, '.').len(),
            module,
            r,
            names,
        )
    } else {
        Set::empty()
    }
}

/// The top-level packages of the third-party imports among `imports`, in order.
pub open spec fn import_roots(imports: Seq<Seq<char>>, r: ModuleResolver) -> Seq<Seq<char>>
    decreases imports.len(),
{
    if imports.len() == 0 {
        Seq::empty()
    } else {
        import_roots(imports.drop_last(), r) + if r.classification(imports.last())
            == ImportType::ThirdParty {
            seq![root_module(imports.last())]
        } else {
            Seq::empty()
        }
    }
}

/// The top-level packages of the third-party imports of `modules`, in order.
pub open spec fn module_roots(modules: Seq<ModuleNode>, r: ModuleResolver) -> Seq<Seq<char>>
    decreases modules.len(),
{
    if modules.len() == 0 {
        Seq::empty()
    } else {
        module_roots(modules.drop_last(), r) + import_roots(views(modules.last().imports@), r)
    }
}

/// The requirements file: each third-party package once, sorted, one per line.
pub open spec fn requirements_text(v: Seq<Seq<char>>, modules: Seq<ModuleNode>, r: ModuleResolver, text: Seq<char>) -> bool {
    &&& sorted_names(v, false)
    &&& v.no_duplicates()
    &&& v.to_set() == module_roots(modules, r).to_set()
    &&& text == join_with(v, "\n"@)
}

/// The names of the modules of `cycles`, in order.
pub open spec fn cycle_module_names(cycles: Seq<CircularDependencyGroup>) -> Seq<Seq<char>>
    decreases cycles.len(),
{
    if cycles.len() == 0 {
        Seq::empty()
    } else {
        cycle_module_names(cycles.drop_last()) + views(cycles.last().modules@)
    }
}

/// The names of `s` that are in `cyc` (`inside`) or not in it (`!inside`), in order.
pub open spec fn select_names(s: Seq<Seq<char>>, cyc: Set<Seq<char>>, inside: bool) -> Seq<
    Seq<char>,
>
    decreases s.len(),
{
    if s.len() == 0 {
        Seq::empty()
    } else {
        select_names(s.drop_last(), cyc, inside) + if cyc.contains(s.last()) == inside {
            seq![s.last()]
        } else {
            Seq::empty()
        }
    }
}

// ---------------------------------------------------------------------------
// The orchestrator
// ---------------------------------------------------------------------------

/// Bundles a Python program, starting from its entry module.
pub struct BundleOrchestrator {
    config: Config,
}

impl BundleOrchestrator {
    /// The source directories the orchestrator looks in.
    pub closed spec fn src_dirs(self) -> Seq<Seq<char>> {
        views(self.config.src@)
    }

    /// An orchestrator with the given configuration.
    pub fn new(config: Config) -> (o: Self)
        ensures
            o.src_dirs() == views(config.src@),
    {
        BundleOrchestrator { config }
    }

    /// The name `{:?}` prints for a cycle type.
    fn cycle_type_str(t: CircularDependencyType) -> (r: &'static str)
        ensures
            r@ == cycle_type_name(t),
    {
        match t {
            CircularDependencyType::FunctionLevel => "FunctionLevel",
            CircularDependencyType::ClassLevel => "ClassLevel",
            CircularDependencyType::ModuleConstants => "ModuleConstants",
            CircularDependencyType::ImportTime => "ImportTime",
        }
    }

    /// Appends the number, modules and type lines of a cycle.
    fn append_cycle_header(error_msg: &mut String, num: usize, cycle: &CircularDependencyGroup)
        ensures
            final(error_msg)@ == old(error_msg)@ + cycle_header(num as nat, *cycle),
    {
        error_msg.append("Cycle ");
        let n = usize_to_decimal(num);
        error_msg.append(n.as_str());
        error_msg.append(": ");
        let joined = join_strings(&cycle.modules, " → ");
        error_msg.append(joined.as_str());
        error_msg.append("\n");
        error_msg.append("  Type: ");
        error_msg.append(Self::cycle_type_str(cycle.cycle_type));
        error_msg.append("\n");
        proof {
            assert(error_msg@ =~= old(error_msg)@ + cycle_header(num as nat, *cycle));
        }
    }

    /// Appends the reports of unresolvable cycles, numbered from 1.
    pub fn append_unresolvable_cycles_to_error(
        error_msg: &mut String,
        unresolvable_cycles: &Vec<CircularDependencyGroup>,
    )
        ensures
            final(error_msg)@ == old(error_msg)@ + unresolvable_blocks(unresolvable_cycles@, 0),
    {
        let mut i: usize = 0;
        while i < unresolvable_cycles.len()
            invariant
                i <= unresolvable_cycles.len(),
                error_msg@ == old(error_msg)@ + unresolvable_blocks(
                    unresolvable_cycles@.subrange(0, i as int),
                    0,
                ),
            decreases unresolvable_cycles.len() - i,
        {
            let ghost before = error_msg@;
            let cycle = &unresolvable_cycles[i];
            Self::append_cycle_header(error_msg, i + 1, cycle);
            if let ResolutionStrategy::Unresolvable { reason } = &cycle.suggested_resolution {
                error_msg.append("  Reason: ");
                error_msg.append(reason.as_str());
                error_msg.append("\n");
            }
            error_msg.append("\n");
            proof {
                let s = unresolvable_cycles@.subrange(0, i + 1);
                assert(s.drop_last() =~= unresolvable_cycles@.subrange(0, i as int));
                assert(s.last() == *cycle);
                assert(error_msg@ =~= before + unresolvable_block((i + 1) as nat, *cycle));
                assert(error_msg@ =~= old(error_msg)@ + unresolvable_blocks(s, 0));
            }
            i += 1;
        }
        proof {
            assert(unresolvable_cycles@.subrange(0, unresolvable_cycles@.len() as int)
                =~= unresolvable_cycles@);
        }
    }

    /// The error for unresolvable cycles.
    pub fn format_unresolvable_cycles_error(cycles: &Vec<CircularDependencyGroup>) -> (r: String)
        ensures
            r@ == unresolvable_cycles_error(cycles@),
    {
        let mut error_msg = String::new();
        error_msg.append("Unresolvable circular dependencies detected:\n\n");
        Self::append_unresolvable_cycles_to_error(&mut error_msg, cycles);
        proof {
            assert(error_msg@ =~= unresolvable_cycles_error(cycles@));
        }
        error_msg
    }

    /// Appends one suggestion line per entry.
    fn append_suggestion_lines(error_msg: &mut String, lines: &Vec<String>)
        ensures
            final(error_msg)@ == old(error_msg)@ + suggestion_lines(views(lines@)),
    {
        let mut i: usize = 0;
        while i < lines.len()
            invariant
                i <= lines.len(),
                error_msg@ == old(error_msg)@ + suggestion_lines(
                    views(lines@).subrange(0, i as int),
                ),
            decreases lines.len() - i,
        {
            let ghost before = error_msg@;
            error_msg.append("    ");
            error_msg.append(lines[i].as_str());
            error_msg.append("\n");
            proof {
                let s = views(lines@).subrange(0, i + 1);
                assert(s.drop_last() =~= views(lines@).subrange(0, i as int));
                assert(s.last() == lines@[i as int]@);
                assert(error_msg@ =~= old(error_msg)@ + suggestion_lines(s));
            }
            i += 1;
        }
        proof {
            assert(views(lines@).subrange(0, lines@.len() as int) =~= views(lines@));
        }
    }

    /// Appends the suggestions for a resolution strategy.
    fn append_cycle_resolution_suggestions(
        error_msg: &mut String,
        suggested_resolution: &ResolutionStrategy,
    )
        ensures
            final(error_msg)@ == old(error_msg)@ + suggestions_text(*suggested_resolution),
    {
        match suggested_resolution {
            ResolutionStrategy::LazyImport { .. } => {
                error_msg.append(
                    "  Suggestion: Move imports inside functions to enable lazy loading\n",
                );
            },
            ResolutionStrategy::FunctionScopedImport { import_statements } => {
                error_msg.append("  Suggestions:\n");
                Self::append_suggestion_lines(error_msg, import_statements);
            },
            ResolutionStrategy::ModuleSplit { suggestions } => {
                error_msg.append("  Suggestions:\n");
                Self::append_suggestion_lines(error_msg, suggestions);
            },
            ResolutionStrategy::Unresolvable { .. } => {},
        }
        proof {
            assert(error_msg@ =~= old(error_msg)@ + suggestions_text(*suggested_resolution));
        }
    }

    /// Appends the reports of resolvable cycles, numbered after the unresolvable ones.
    fn append_resolvable_cycles_to_error(
        error_msg: &mut String,
        resolvable_cycles: &Vec<CircularDependencyGroup>,
        unresolvable_cycles: &Vec<CircularDependencyGroup>,
    )
        requires
            resolvable_cycles@.len() + unresolvable_cycles@.len() <= usize::MAX,
        ensures
            final(error_msg)@ == old(error_msg)@ + resolvable_section(
                resolvable_cycles@,
                unresolvable_cycles@,
            ),
    {
        if unresolvable_cycles.len() > 0 {
            error_msg.append("RESOLVABLE CYCLES (not yet implemented):\n");
        }
        let ghost start = error_msg@;
        let mut i: usize = 0;
        while i < resolvable_cycles.len()
            invariant
                i <= resolvable_cycles.len(),
                resolvable_cycles@.len() + unresolvable_cycles@.len() <= usize::MAX,
                error_msg@ == start + resolvable_blocks(
                    resolvable_cycles@.subrange(0, i as int),
                    unresolvable_cycles@.len(),
                ),
            decreases resolvable_cycles.len() - i,
        {
            let ghost before = error_msg@;
            let cycle = &resolvable_cycles[i];
            let cycle_num = i + 1 + unresolvable_cycles.len();
            Self::append_cycle_header(error_msg, cycle_num, cycle);
            Self::append_cycle_resolution_suggestions(error_msg, &cycle.suggested_resolution);
            error_msg.append("\n");
            proof {
                let s = resolvable_cycles@.subrange(0, i + 1);
                assert(s.drop_last() =~= resolvable_cycles@.subrange(0, i as int));
                assert(s.last() == *cycle);
                assert(error_msg@ =~= before + resolvable_block(cycle_num as nat, *cycle));
                assert(error_msg@ =~= start + resolvable_blocks(s, unresolvable_cycles@.len()));
            }
            i += 1;
        }
        proof {
            assert(resolvable_cycles@.subrange(0, resolvable_cycles@.len() as int)
                =~= resolvable_cycles@);
            assert(error_msg@ =~= old(error_msg)@ + resolvable_section(
                resolvable_cycles@,
                unresolvable_cycles@,
            ));
        }
    }

    /// The error for a graph whose cycles the bundler cannot handle.
    fn build_cycle_error_message(analysis: &CircularDependencyAnalysis) -> (r: String)
        requires
            analysis.resolvable_cycles@.len() + analysis.unresolvable_cycles@.len() <= usize::MAX,
        ensures
            r@ == cycle_error_message(*analysis),
    {
        let mut error_msg = String::new();
        error_msg.append("Circular dependencies detected in the module graph:\n\n");
        if analysis.unresolvable_cycles.len() > 0 {
            error_msg.append("UNRESOLVABLE CYCLES:\n");
            Self::append_unresolvable_cycles_to_error(
                &mut error_msg,
                &analysis.unresolvable_cycles,
            );
        }
        if analysis.resolvable_cycles.len() > 0 {
            Self::append_resolvable_cycles_to_error(
                &mut error_msg,
                &analysis.resolvable_cycles,
                &analysis.unresolvable_cycles,
            );
        }
        proof {
            assert(error_msg@ =~= cycle_error_message(*analysis));
        }
        error_msg
    }

    /// Whether bundling may go on despite the cycles found: an error naming the
    /// unresolvable cycles if there are any, else an error naming all cycles
    /// unless every resolvable cycle is function-level.
    pub fn check_cycle_analysis(analysis: &CircularDependencyAnalysis) -> (r: Result<(), String>)
        requires
            analysis.resolvable_cycles@.len() + analysis.unresolvable_cycles@.len() <= usize::MAX,
        ensures
            analysis.unresolvable_cycles@.len() > 0 ==> (r matches Err(e) && e@
                == unresolvable_cycles_error(analysis.unresolvable_cycles@)),
            analysis.unresolvable_cycles@.len() == 0 && all_function_level(
                analysis.resolvable_cycles@,
            ) ==> r is Ok,
            analysis.unresolvable_cycles@.len() == 0 && !all_function_level(
                analysis.resolvable_cycles@,
            ) ==> (r matches Err(e) && e@ == cycle_error_message(*analysis)),
            (exists|i: int|
                0 <= i < analysis.resolvable_cycles@.len() && (
                #[trigger] analysis.resolvable_cycles@[i]).cycle_type !is FunctionLevel) ==> r is Err,
    {
        if analysis.unresolvable_cycles.len() > 0 {
            return Err(Self::format_unresolvable_cycles_error(&analysis.unresolvable_cycles));
        }
        let mut all_resolvable = true;
        let mut i: usize = 0;
        while i < analysis.resolvable_cycles.len()
            invariant
                i <= analysis.resolvable_cycles.len(),
                all_resolvable == forall|j: int| 0 <= j < i ==> #[trigger] analysis.resolvable_cycles@[j].cycle_type
                    == CircularDependencyType::FunctionLevel,
            decreases analysis.resolvable_cycles.len() - i,
        {
            match analysis.resolvable_cycles[i].cycle_type {
                CircularDependencyType::FunctionLevel => {},
                _ => {
                    all_resolvable = false;
                },
            }
            i += 1;
        }
        if all_resolvable {
            Ok(())
        } else {
            Err(Self::build_cycle_error_message(analysis))
        }
    }
}

impl BundleOrchestrator {
    /// The module `entry_path` names within the first source directory that
    /// holds it, if any.
    fn find_module_in_src_dirs(&self, entry_path: &str) -> (r: Option<String>)
        ensures
            r matches Some(m) ==> module_in_dirs(self.src_dirs(), path_components(entry_path@))
                == Some(m@),
            r is None ==> module_in_dirs(self.src_dirs(), path_components(entry_path@)) is None,
    {
        let entry = components(entry_path);
        let mut i: usize = 0;
        proof {
            assert(self.src_dirs().skip(0) =~= self.src_dirs());
        }
        while i < self.config.src.len()
            invariant
                i <= self.config.src.len(),
                self.src_dirs() == views(self.config.src@),
                views(entry@) == path_components(entry_path@),
                module_in_dirs(self.src_dirs(), views(entry@)) == module_in_dirs(
                    self.src_dirs().skip(i as int),
                    views(entry@),
                ),
            decreases self.config.src.len() - i,
        {
            proof {
                let t = self.src_dirs().skip(i as int);
                assert(t[0] == self.config.src@[i as int]@);
                assert(t.drop_first() =~= self.src_dirs().skip(i + 1));
            }
            let dir = components(self.config.src[i].as_str());
            match strip_prefix(&entry, &dir) {
                Some(relative_path) => {
                    match self.path_to_module_name(&relative_path) {
                        Some(module_name) => {
                            return Some(module_name);
                        },
                        None => {},
                    }
                },
                None => {},
            }
            i += 1;
        }
        proof {
            assert(self.src_dirs().skip(i as int) =~= Seq::<Seq<char>>::empty());
        }
        None
    }

    /// The name of the entry module: its module name within a source
    /// directory, else the stem of its file name; an error if it has neither.
    pub fn find_entry_module_name(&self, entry_path: &str) -> (r: Result<String, String>)
        ensures
            r matches Ok(m) ==> entry_module_name(self.src_dirs(), entry_path@) == Some(m@),
            r matches Err(e) ==> entry_module_name(self.src_dirs(), entry_path@) is None
                && e@ == no_module_name_error(entry_path@),
    {
        if let Some(module_name) = self.find_module_in_src_dirs(entry_path) {
            return Ok(module_name);
        }
        let c = components(entry_path);
        match file_stem_of(&c) {
            Some(stem) => Ok(stem),
            None => {
                let mut msg = to_string("Cannot determine module name from entry path: \"");
                msg.append(entry_path);
                msg.append("\"");
                Err(msg)
            },
        }
    }

    /// The module a path relative to a source directory names.
    fn path_to_module_name(&self, relative_path: &Vec<String>) -> (r: Option<String>)
        ensures
            r matches Some(m) ==> module_name_from_parts(views(relative_path@)) == Some(m@),
            r is None ==> module_name_from_parts(views(relative_path@)) is None,
    {
        module_name_from_relative(relative_path)
    }

    /// `target_module` inside the package `base_module`.
    fn build_full_module_name(&self, base_module: &str, target_module: &str) -> (r: String)
        ensures
            r@ == full_module_name(base_module@, target_module@),
    {
        if base_module.unicode_len() == 0 {
            to_string(target_module)
        } else {
            let mut r = to_string(base_module);
            r.append(".");
            r.append(target_module);
            proof {
                reveal_strlit(".");
            }
            r
        }
    }

    /// `module` written with the dots of its relative-import level.
    fn format_module_name(&self, module: &str, level: u32) -> (r: String)
        ensures
            r@ == relative_module_text(module@, level),
    {
        if level > 0 {
            let mut r = make_dots(level);
            r.append(module);
            r
        } else {
            to_string(module)
        }
    }

    /// The absolute package a relative import of `level` dots in `file_path`
    /// refers to, found from the source directory holding the file (relative
    /// paths are taken from the working directory `cwd`); none if the file is
    /// in no source directory or the import climbs above its top level.
    pub fn resolve_relative_import(&self, file_path: &str, level: u32, cwd: &str) -> (r: Option<
        String,
    >)
        ensures
            r matches Some(m) ==> resolve_relative(self.src_dirs(), file_path@, level, cwd@)
                == Some(m@),
            r is None ==> resolve_relative(self.src_dirs(), file_path@, level, cwd@) is None,
    {
        let file = components(file_path);
        let current_dir = match parent_of(&file) {
            Some(d) => d,
            None => {
                return None;
            },
        };
        let cwd_parts = components(cwd);
        let absolute_current_dir = if is_absolute_path(&current_dir) {
            current_dir
        } else {
            join_paths(&cwd_parts, &current_dir)
        };
        let mut i: usize = 0;
        proof {
            assert(self.src_dirs().skip(0) =~= self.src_dirs());
        }
        let ghost rd = relative_dir_in(
            self.src_dirs(),
            views(absolute_current_dir@),
            views(cwd_parts@),
        );
        assert(resolve_relative(self.src_dirs(), file_path@, level, cwd@) == match rd {
            None => None,
            Some(rel) => relative_package(rel, level),
        });
        while i < self.config.src.len()
            invariant
                i <= self.config.src.len(),
                self.src_dirs() == views(self.config.src@),
                views(cwd_parts@) == path_components(cwd@),
                rd == relative_dir_in(
                    self.src_dirs(),
                    views(absolute_current_dir@),
                    views(cwd_parts@),
                ),
                resolve_relative(self.src_dirs(), file_path@, level, cwd@) == match rd {
                    None => None,
                    Some(rel) => relative_package(rel, level),
                },
                relative_dir_in(self.src_dirs(), views(absolute_current_dir@), views(cwd_parts@))
                    == relative_dir_in(
                    self.src_dirs().skip(i as int),
                    views(absolute_current_dir@),
                    views(cwd_parts@),
                ),
            decreases self.config.src.len() - i,
        {
            proof {
                let t = self.src_dirs().skip(i as int);
                assert(t[0] == self.config.src@[i as int]@);
                assert(t.drop_first() =~= self.src_dirs().skip(i + 1));
            }
            let sd = components(self.config.src[i].as_str());
            let src = if is_absolute_path(&sd) {
                sd
            } else {
                join_paths(&cwd_parts, &sd)
            };
            match strip_prefix(&absolute_current_dir, &src) {
                Some(relative_dir) => {
                    return Self::relative_package_name(&relative_dir, level);
                },
                None => {},
            }
            i += 1;
        }
        proof {
            assert(self.src_dirs().skip(i as int) =~= Seq::<Seq<char>>::empty());
        }
        None
    }

    /// The package `level - 1` parts above the package `relative_dir`, dotted.
    fn relative_package_name(relative_dir: &Vec<String>, level: u32) -> (r: Option<String>)
        ensures
            r matches Some(m) ==> relative_package(views(relative_dir@), level) == Some(m@),
            r is None ==> relative_package(views(relative_dir@), level) is None,
    {
        if level > 0 && (level - 1) as usize > relative_dir.len() {
            return None;
        }
        let drop: usize = if level == 0 {
            0
        } else {
            (level - 1) as usize
        };
        let current_parts = copy_range(relative_dir, 0, relative_dir.len() - drop);
        Some(join_strings(&current_parts, "."))
    }
}

/// Appends `m` to `imports` unless it is already there.
fn push_unique_import(imports: &mut Vec<String>, m: String)
    ensures
        views(final(imports)@) == push_unique(views(old(imports)@), m@),
{
    if !contains_name(imports, m.as_str()) {
        let ghost before = views(imports@);
        imports.push(m);
        proof {
            assert(views(imports@) =~= before.push(m@));
        }
    } else {
        proof {
            assert(views(imports@).to_set().contains(m@));
        }
    }
}

impl BundleOrchestrator {
    /// Adds the module of an absolute `from` import, unless already held.
    fn process_absolute_import(&self, module: &Option<String>, imports: &mut Vec<String>)
        ensures
            views(final(imports)@) == absolute_from_imports(
                views(old(imports)@),
                *module,
                Seq::empty(),
                None,
            ),
    {
        if let Some(m) = module {
            push_unique_import(imports, copy_string(m));
        }
    }

    /// Adds the module of an absolute `from` import, then the imported names
    /// that are modules themselves.
    fn process_absolute_import_with_resolver(
        &self,
        module: &Option<String>,
        names: &Vec<Alias>,
        imports: &mut Vec<String>,
        resolver: &ModuleResolver,
    )
        ensures
            views(final(imports)@) == absolute_from_imports(
                views(old(imports)@),
                *module,
                names@,
                Some(*resolver),
            ),
    {
        if let Some(m) = module {
            push_unique_import(imports, copy_string(m));
            self.check_and_add_module_imports(names, m.as_str(), imports, resolver);
        }
    }

    /// Adds `base_module.name` for each imported name that is a module.
    fn check_and_add_module_imports(
        &self,
        names: &Vec<Alias>,
        base_module: &str,
        imports: &mut Vec<String>,
        resolver: &ModuleResolver,
    )
        ensures
            views(final(imports)@) == submodule_imports(
                views(old(imports)@),
                base_module@,
                names@,
                *resolver,
            ),
    {
        let mut i: usize = 0;
        proof {
            assert(names@.subrange(0, 0) =~= Seq::<Alias>::empty());
        }
        while i < names.len()
            invariant
                i <= names.len(),
                views(imports@) == submodule_imports(
                    views(old(imports)@),
                    base_module@,
                    names@.subrange(0, i as int),
                    *resolver,
                ),
            decreases names.len() - i,
        {
            let mut full_module_name = to_string(base_module);
            full_module_name.append(".");
            full_module_name.append(names[i].name.as_str());
            proof {
                reveal_strlit(".");
                let t = names@.subrange(0, i + 1);
                assert(t.drop_last() =~= names@.subrange(0, i as int));
                assert(t.last() == names@[i as int]);
            }
            if resolver.resolve_module_path(full_module_name.as_str()).is_some() {
                push_unique_import(imports, full_module_name);
            }
            i += 1;
        }
        proof {
            assert(names@.subrange(0, names@.len() as int) =~= names@);
        }
    }

    /// Adds the modules of a relative `from` import whose package resolved to
    /// `base_module`.
    fn process_resolved_relative_import(
        &self,
        module: &Option<String>,
        names: &Vec<Alias>,
        imports: &mut Vec<String>,
        base_module: &str,
    )
        ensures
            views(final(imports)@) == relative_from_imports(
                views(old(imports)@),
                *module,
                names@,
                1,
                Some(base_module@),
            ),
    {
        match module {
            Some(m) => {
                let full_module = self.build_full_module_name(base_module, m.as_str());
                let ghost before = views(imports@);
                imports.push(full_module);
                proof {
                    assert(views(imports@) =~= before.push(full_module@));
                }
            },
            None => {
                let ghost start = views(imports@);
                let mut i: usize = 0;
                while i < names.len()
                    invariant
                        i <= names.len(),
                        views(imports@) == start + names@.subrange(0, i as int).map_values(
                            |a: Alias| full_module_name(base_module@, a.name@),
                        ),
                    decreases names.len() - i,
                {
                    let full_import = self.build_full_module_name(
                        base_module,
                        names[i].name.as_str(),
                    );
                    let ghost before = views(imports@);
                    imports.push(full_import);
                    proof {
                        assert(views(imports@) =~= before.push(full_import@));
                        assert(names@.subrange(0, i + 1).map_values(
                            |a: Alias| full_module_name(base_module@, a.name@),
                        ) =~= names@.subrange(0, i as int).map_values(
                            |a: Alias| full_module_name(base_module@, a.name@),
                        ).push(full_import@));
                    }
                    i += 1;
                }
                proof {
                    assert(names@.subrange(0, names@.len() as int) =~= names@);
                }
            },
        }
    }

    /// Adds the modules of a relative `from` import whose package did not
    /// resolve: the module with its dots, or the dots alone.
    fn process_fallback_relative_import(
        &self,
        module: &Option<String>,
        imports: &mut Vec<String>,
        level: u32,
    )
        ensures
            views(final(imports)@) == relative_from_imports(
                views(old(imports)@),
                *module,
                Seq::empty(),
                level,
                None,
            ),
    {
        let ghost before = views(imports@);
        match module {
            Some(m) => {
                let module_name = self.format_module_name(m.as_str(), level);
                imports.push(module_name);
                proof {
                    assert(views(imports@) =~= before.push(module_name@));
                }
            },
            None => {
                let d = make_dots(level);
                imports.push(d);
                proof {
                    assert(views(imports@) =~= before.push(d@));
                }
            },
        }
    }

    /// Adds the modules a `from` import names.
    fn process_import_from_statement(
        &self,
        module: &Option<String>,
        names: &Vec<Alias>,
        level: u32,
        imports: &mut Vec<String>,
        file_path: &str,
        resolver: Option<&ModuleResolver>,
        cwd: &str,
    )
        ensures
            views(final(imports)@) == stmt_imports(
                self.src_dirs(),
                views(old(imports)@),
                Stmt::ImportFrom { module: *module, names: *names, level },
                file_path@,
                match resolver {
                    Some(r) => Some(*r),
                    None => None,
                },
                cwd@,
            ),
    {
        if level == 0 {
            match resolver {
                Some(r) => self.process_absolute_import_with_resolver(module, names, imports, r),
                None => self.process_absolute_import(module, imports),
            }
            return;
        }
        match self.resolve_relative_import(file_path, level, cwd) {
            Some(base_module) => {
                self.process_resolved_relative_import(
                    module,
                    names,
                    imports,
                    base_module.as_str(),
                );
            },
            None => {
                self.process_fallback_relative_import(module, imports, level);
            },
        }
    }

    /// Adds the modules an import statement names; other statements add none.
    fn extract_imports_from_statement(
        &self,
        stmt: &Stmt,
        imports: &mut Vec<String>,
        file_path: &str,
        resolver: Option<&ModuleResolver>,
        cwd: &str,
    )
        ensures
            views(final(imports)@) == stmt_imports(
                self.src_dirs(),
                views(old(imports)@),
                *stmt,
                file_path@,
                match resolver {
                    Some(r) => Some(*r),
                    None => None,
                },
                cwd@,
            ),
    {
        match stmt {
            Stmt::Import(names) => {
                let ghost start = views(imports@);
                let mut i: usize = 0;
                while i < names.len()
                    invariant
                        i <= names.len(),
                        views(imports@) == start + names@.subrange(0, i as int).map_values(
                            |a: Alias| a.name@,
                        ),
                    decreases names.len() - i,
                {
                    let ghost before = views(imports@);
                    imports.push(copy_string(&names[i].name));
                    proof {
                        assert(views(imports@) =~= before.push(names@[i as int].name@));
                        assert(names@.subrange(0, i + 1).map_values(|a: Alias| a.name@)
                            =~= names@.subrange(0, i as int).map_values(|a: Alias| a.name@).push(
                            names@[i as int].name@,
                        ));
                    }
                    i += 1;
                }
                proof {
                    assert(names@.subrange(0, names@.len() as int) =~= names@);
                }
            },
            Stmt::ImportFrom { module, names, level } => {
                self.process_import_from_statement(
                    module,
                    names,
                    *level,
                    imports,
                    file_path,
                    resolver,
                    cwd,
                );
            },
            _ => {},
        }
    }

    /// The modules the top-level import statements of a parsed module name, in
    /// order: `import` names as written; absolute `from` imports once each,
    /// followed (with a resolver) by their imported names that are modules;
    /// relative `from` imports inside the package they resolve to (from the
    /// source directories, with `cwd` the working directory), or written with
    /// their dots when they do not resolve.
    pub fn extract_imports(
        &self,
        module: &ModModule,
        file_path: &str,
        resolver: Option<&ModuleResolver>,
        cwd: &str,
    ) -> (r: Vec<String>)
        ensures
            views(r@) == body_imports(
                self.src_dirs(),
                module.body@,
                file_path@,
                match resolver {
                    Some(x) => Some(*x),
                    None => None,
                },
                cwd@,
            ),
    {
        let mut imports: Vec<String> = Vec::new();
        let mut i: usize = 0;
        proof {
            assert(module.body@.subrange(0, 0) =~= Seq::<Stmt>::empty());
            assert(views(imports@) =~= Seq::<Seq<char>>::empty());
        }
        while i < module.body.len()
            invariant
                i <= module.body.len(),
                views(imports@) == body_imports(
                    self.src_dirs(),
                    module.body@.subrange(0, i as int),
                    file_path@,
                    match resolver {
                        Some(x) => Some(*x),
                        None => None,
                    },
                    cwd@,
                ),
            decreases module.body.len() - i,
        {
            proof {
                let t = module.body@.subrange(0, i + 1);
                assert(t.drop_last() =~= module.body@.subrange(0, i as int));
                assert(t.last() == module.body@[i as int]);
            }
            self.extract_imports_from_statement(&module.body[i], &mut imports, file_path, resolver, cwd);
            i += 1;
        }
        proof {
            assert(module.body@.subrange(0, module.body@.len() as int) =~= module.body@);
        }
        imports
    }
}

impl BundleOrchestrator {
    /// Adds the edges for `module`'s import of `import` (see `dependency_edges`).
    pub fn process_import_for_dependency(
        &self,
        import: &str,
        module_name: &str,
        resolver: &ModuleResolver,
        graph: &mut DependencyGraph,
    )
        ensures
            final(graph).names() == old(graph).names(),
            final(graph).edge_set() == old(graph).edge_set() + dependency_edges(
                import@,
                module_name@,
                *resolver,
                old(graph).names(),
            ),
    {
        match resolver.classify_import(import) {
            ImportType::FirstParty => {
                let ghost e0 = graph.edge_set();
                let _ = graph.add_dependency(import, module_name);
                let ghost direct = if old(graph).names().contains(import@) && old(
                    graph,
                ).names().contains(module_name@) {
                    set![(import@, module_name@)]
                } else {
                    Set::empty()
                };
                proof {
                    assert(graph.edge_set() =~= e0 + direct);
                }
                self.add_parent_package_dependencies(import, module_name, resolver, graph);
                proof {
                    assert(graph.edge_set() =~= old(graph).edge_set() + dependency_edges(
                        import@,
                        module_name@,
                        *resolver,
                        old(graph).names(),
                    ));
                }
            },
            _ => {
                proof {
                    assert(graph.edge_set() =~= old(graph).edge_set() + Set::empty());
                }
            },
        }
    }

    /// Adds the edges from the parent packages of `import` to `module_name`.
    fn add_parent_package_dependencies(
        &self,
        import: &str,
        module_name: &str,
        resolver: &ModuleResolver,
        graph: &mut DependencyGraph,
    )
        ensures
            final(graph).names() == old(graph).names(),
            final(graph).edge_set() == old(graph).edge_set() + parent_dependency_edges(
                split_on(import@, '.'),
                split_on(import@, '.').len(),
                module_name@,
                *resolver,
                old(graph).names(),
            ),
    {
        let parts = split_char(import, '.');
        let mut i: usize = 1;
        proof {
            lemma_split_nonempty(import@, '.');
            assert(graph.edge_set() =~= old(graph).edge_set() + Set::empty());
        }
        while i < parts.len()
            invariant
                1 <= i <= parts.len(),
                views(parts@) == split_on(import@, '.'),
                graph.names() == old(graph).names(),
                graph.edge_set() == old(graph).edge_set() + parent_dependency_edges(
                    views(parts@),
                    i as nat,
                    module_name@,
                    *resolver,
                    old(graph).names(),
                ),
            decreases parts.len() - i,
        {
            let prefix = copy_range(&parts, 0, i);
            let parent_module = join_strings(&prefix, ".");
            let ghost before = graph.edge_set();
            self.try_add_parent_dependency(parent_module.as_str(), module_name, resolver, graph);
            proof {
                assert(graph.edge_set() =~= old(graph).edge_set() + parent_dependency_edges(
                    views(parts@),
                    (i + 1) as nat,
                    module_name@,
                    *resolver,
                    old(graph).names(),
                ));
            }
            i += 1;
        }
    }

    /// Adds `parent_module -> module_name` when the parent is a first-party
    /// module of the graph other than `module_name`.
    fn try_add_parent_dependency(
        &self,
        parent_module: &str,
        module_name: &str,
        resolver: &ModuleResolver,
        graph: &mut DependencyGraph,
    )
        ensures
            final(graph).names() == old(graph).names(),
            final(graph).edge_set() == if parent_module@ != module_name@
                && resolver.classification(parent_module@) == ImportType::FirstParty
                && old(graph).names().contains(parent_module@) && old(graph).names().contains(
                module_name@,
            ) {
                old(graph).edge_set().insert((parent_module@, module_name@))
            } else {
                old(graph).edge_set()
            },
    {
        if str_eq(parent_module, module_name) {
            return;
        }
        if resolver.classify_import(parent_module) == ImportType::FirstParty
            && graph.get_module(parent_module).is_some() {
            let _ = graph.add_dependency(parent_module, module_name);
        }
    }

    /// The requirements file for the third-party imports of `modules`: their
    /// top-level packages, each once, sorted, one per line.
    pub fn generate_requirements(&self, modules: &Vec<ModuleNode>, resolver: &ModuleResolver) -> (r:
        String)
        ensures
            exists|v: Seq<Seq<char>>| requirements_text(v, modules@, *resolver, r@),
    {
        let mut third_party_imports = index_set_new();
        let mut i: usize = 0;
        proof {
            assert(modules@.subrange(0, 0) =~= Seq::<ModuleNode>::empty());
            assert(index_set_items(third_party_imports).to_set() =~= module_roots(
                modules@.subrange(0, 0),
                *resolver,
            ).to_set());
        }
        while i < modules.len()
            invariant
                i <= modules.len(),
                index_set_items(third_party_imports).no_duplicates(),
                index_set_items(third_party_imports).to_set() == module_roots(
                    modules@.subrange(0, i as int),
                    *resolver,
                ).to_set(),
            decreases modules.len() - i,
        {
            let imports = &modules[i].imports;
            let ghost base = module_roots(modules@.subrange(0, i as int), *resolver);
            let mut j: usize = 0;
            proof {
                assert(views(imports@).subrange(0, 0) =~= Seq::<Seq<char>>::empty());
                assert(base + import_roots(views(imports@).subrange(0, 0), *resolver) =~= base);
            }
            while j < imports.len()
                invariant
                    j <= imports.len(),
                    index_set_items(third_party_imports).no_duplicates(),
                    index_set_items(third_party_imports).to_set() == (base + import_roots(
                        views(imports@).subrange(0, j as int),
                        *resolver,
                    )).to_set(),
                decreases imports.len() - j,
            {
                let import = imports[j].as_str();
                let ghost prev = index_set_items(third_party_imports);
                let ghost acc = base + import_roots(views(imports@).subrange(0, j as int), *resolver);
                proof {
                    let t = views(imports@).subrange(0, j + 1);
                    assert(t.drop_last() =~= views(imports@).subrange(0, j as int));
                    assert(t.last() == import@);
                }
                if resolver.classify_import(import) == ImportType::ThirdParty {
                    let package_name = root_module_of(import);
                    let _ = index_set_insert(&mut third_party_imports, package_name);
                    proof {
                        let cur = index_set_items(third_party_imports);
                        assert(base + import_roots(views(imports@).subrange(0, j + 1), *resolver)
                            =~= acc.push(package_name@));
                        assert(cur.to_set() =~= acc.push(package_name@).to_set()) by {
                            assert forall|x| #[trigger] cur.to_set().contains(x) implies acc.push(
                                package_name@,
                            ).to_set().contains(x) by {
                                let k = choose|k: int| 0 <= k < cur.len() && cur[k] == x;
                                if x == package_name@ {
                                    assert(acc.push(package_name@)[acc.len() as int] == x);
                                } else {
                                    assert(prev[k] == x);
                                    assert(prev.to_set().contains(x));
                                    let m = choose|m: int| 0 <= m < acc.len() && acc[m] == x;
                                    assert(acc.push(package_name@)[m] == x);
                                }
                            }
                            assert forall|x| #[trigger] acc.push(package_name@).to_set().contains(
                                x,
                            ) implies cur.to_set().contains(x) by {
                                let k = choose|k: int|
                                    0 <= k < acc.push(package_name@).len() && acc.push(
                                        package_name@,
                                    )[k] == x;
                                if x == package_name@ {
                                    if prev.contains(x) {
                                        let m = choose|m: int| 0 <= m < prev.len() && prev[m] == x;
                                        assert(cur[m] == x);
                                    } else {
                                        assert(cur[prev.len() as int] == x);
                                    }
                                } else {
                                    assert(acc[k] == x);
                                    assert(acc.to_set().contains(x));
                                    let m = choose|m: int| 0 <= m < prev.len() && prev[m] == x;
                                    assert(cur[m] == x);
                                }
                            }
                        }
                    }
                } else {
                    proof {
                        assert(base + import_roots(views(imports@).subrange(0, j + 1), *resolver)
                            =~= acc);
                    }
                }
                j += 1;
            }
            proof {
                assert(views(imports@).subrange(0, imports@.len() as int) =~= views(imports@));
                let t = modules@.subrange(0, i + 1);
                assert(t.drop_last() =~= modules@.subrange(0, i as int));
                assert(t.last() == modules@[i as int]);
            }
            i += 1;
        }
        proof {
            assert(modules@.subrange(0, modules@.len() as int) =~= modules@);
        }
        let ghost items = index_set_items(third_party_imports);
        let requirements = index_set_into_vec(third_party_imports);
        let sorted = sort_names(requirements, false);
        proof {
            let v = views(sorted@);
            items.lemma_multiset_has_no_duplicates();
            assert forall|x: Seq<char>| v.to_multiset().contains(x) implies v.to_multiset().count(
                x,
            ) == 1 by {
                assert(items.to_multiset().contains(x));
            }
            v.lemma_multiset_has_no_duplicates_conv();
            assert(v.to_set() =~= items.to_set()) by {
                broadcast use vstd::seq_lib::group_to_multiset_ensures;
                assert forall|x| #[trigger] v.to_set().contains(x) implies items.to_set().contains(
                    x,
                ) by {
                    let k = choose|k: int| 0 <= k < v.len() && v[k] == x;
                    assert(v.to_multiset().count(x) > 0);
                    assert(items.to_multiset().count(x) > 0);
                }
                assert forall|x| #[trigger] items.to_set().contains(x) implies v.to_set().contains(
                    x,
                ) by {
                    let k = choose|k: int| 0 <= k < items.len() && items[k] == x;
                    assert(items.to_multiset().count(x) > 0);
                    assert(v.to_multiset().count(x) > 0);
                }
            }
        }
        let r = join_strings(&sorted, "\n");
        proof {
            assert(requirements_text(views(sorted@), modules@, *resolver, r@));
        }
        r
    }
}

/// The SHA-256 digest of the UTF-8 bytes of `text`, in lowercase hex.
pub uninterp spec fn sha256_hex(text: Seq<char>) -> Seq<char>;

/// A lowercase hexadecimal digit.
pub open spec fn is_lower_hex(c: char) -> bool {
    ('0' <= c && c <= '9') || ('a' <= c && c <= 'f')
}

/// `sha2::Sha256` over the bytes of `source`, written with `{:x}`: the
/// digest's 32 bytes as 64 lowercase hex digits (generic-array's `LowerHex`).
#[verifier::external_body]
fn sha256_hex_digest(source: &str) -> (r: String)
    ensures
        r@ == sha256_hex(source@),
        r@.len() == 64,
        forall|i: int| 0 <= i < 64 ==> is_lower_hex(#[trigger] r@[i]),
{
    let mut hasher = Sha256::new();
    hasher.update(source.as_bytes());
    let hash = hasher.finalize();
    format!("{:x}", hash)
}

/// The lines the bundle starts with.
pub open spec fn bundle_header() -> Seq<Seq<char>> {
    seq![
        "#!/usr/bin/env python3"@,
        "# Generated by Cribo - Python Source Bundler"@,
        "# https://github.com/ophidiarium/cribo"@,
        Seq::empty(),
    ]
}

impl BundleOrchestrator {
    /// The content hash of each module source, in order (from which the
    /// bundle names module namespaces deterministically).
    pub fn module_content_hashes(&self, sources: &Vec<String>) -> (r: Vec<String>)
        ensures
            r@.len() == sources@.len(),
            forall|i: int| 0 <= i < sources@.len() ==> #[trigger] r@[i]@ == sha256_hex(sources@[i]@),
            forall|i: int, j: int| 0 <= i < sources@.len() && 0 <= j < 64 ==> is_lower_hex(
                #[trigger] r@[i]@[j],
            ),
            forall|i: int| 0 <= i < sources@.len() ==> (#[trigger] r@[i])@.len() == 64,
    {
        let mut r: Vec<String> = Vec::new();
        let mut i: usize = 0;
        while i < sources.len()
            invariant
                i <= sources.len(),
                r@.len() == i,
                forall|k: int| 0 <= k < i ==> #[trigger] r@[k]@ == sha256_hex(sources@[k]@),
                forall|k: int, j: int| 0 <= k < i && 0 <= j < 64 ==> is_lower_hex(
                    #[trigger] r@[k]@[j],
                ),
                forall|k: int| 0 <= k < i ==> (#[trigger] r@[k])@.len() == 64,
            decreases sources.len() - i,
        {
            let h = sha256_hex_digest(sources[i].as_str());
            r.push(h);
            i += 1;
        }
        r
    }

    /// The text of the bundle: the header lines, then the generated code of
    /// each top-level statement, one per line.
    pub fn assemble_bundle(&self, code_parts: &Vec<String>) -> (r: String)
        ensures
            r@ == join_with(bundle_header() + views(code_parts@), "\n"@),
    {
        let mut lines: Vec<String> = Vec::new();
        lines.push(to_string("#!/usr/bin/env python3"));
        lines.push(to_string("# Generated by Cribo - Python Source Bundler"));
        lines.push(to_string("# https://github.com/ophidiarium/cribo"));
        lines.push(String::new());
        let ghost head = views(lines@);
        proof {
            assert(head =~= bundle_header());
        }
        let mut i: usize = 0;
        while i < code_parts.len()
            invariant
                i <= code_parts.len(),
                views(lines@) == head + views(code_parts@).subrange(0, i as int),
            decreases code_parts.len() - i,
        {
            let ghost before = views(lines@);
            lines.push(copy_string(&code_parts[i]));
            proof {
                assert(views(lines@) =~= before.push(code_parts@[i as int]@));
                assert(views(code_parts@).subrange(0, i + 1) =~= views(code_parts@).subrange(
                    0,
                    i as int,
                ).push(code_parts@[i as int]@));
                assert(views(lines@) =~= head + views(code_parts@).subrange(0, i + 1));
            }
            i += 1;
        }
        proof {
            assert(views(code_parts@).subrange(0, code_parts@.len() as int) =~= views(code_parts@));
        }
        join_strings(&lines, "\n")
    }
}

impl BundleOrchestrator {
    /// The source directories, in the order they are searched.
    pub fn source_directories(&self) -> (r: Vec<String>)
        ensures
            views(r@) == self.src_dirs(),
    {
        copy_range(&self.config.src, 0, self.config.src.len())
    }

    /// Makes `entry_dir` (the entry file's directory) the first source
    /// directory, unless a source directory is already that path.
    pub fn add_entry_directory(&mut self, entry_dir: String)
        ensures
            (exists|i: int|
                0 <= i < old(self).src_dirs().len() && path_components(
                    #[trigger] old(self).src_dirs()[i],
                ) == path_components(entry_dir@)) ==> final(self).src_dirs() == old(self).src_dirs(),
            !(exists|i: int|
                0 <= i < old(self).src_dirs().len() && path_components(
                    #[trigger] old(self).src_dirs()[i],
                ) == path_components(entry_dir@)) ==> final(self).src_dirs() == seq![entry_dir@]
                + old(self).src_dirs(),
    {
        let target = components(entry_dir.as_str());
        let mut i: usize = 0;
        while i < self.config.src.len()
            invariant
                i <= self.config.src.len(),
                self.src_dirs() == old(self).src_dirs(),
                self.src_dirs() == views(self.config.src@),
                views(target@) == path_components(entry_dir@),
                forall|j: int|
                    0 <= j < i ==> path_components(#[trigger] self.src_dirs()[j]) != path_components(
                        entry_dir@,
                    ),
            decreases self.config.src.len() - i,
        {
            let c = components(self.config.src[i].as_str());
            proof {
                assert(self.src_dirs()[i as int] == self.config.src@[i as int]@);
            }
            if Self::same_components(&c, &target) {
                return;
            }
            i += 1;
        }
        let ghost before = views(self.config.src@);
        self.config.src.insert(0, entry_dir);
        proof {
            assert(views(self.config.src@) =~= seq![entry_dir@] + before);
        }
    }

    /// Whether two paths have the same components.
    fn same_components(a: &Vec<String>, b: &Vec<String>) -> (r: bool)
        ensures
            r == (views(a@) == views(b@)),
    {
        if a.len() != b.len() {
            return false;
        }
        let mut i: usize = 0;
        while i < a.len()
            invariant
                i <= a.len(),
                a.len() == b.len(),
                forall|j: int| 0 <= j < i ==> a@[j]@ == b@[j]@,
            decreases a.len() - i,
        {
            if !str_eq(a[i].as_str(), b[i].as_str()) {
                proof {
                    assert(views(a@)[i as int] != views(b@)[i as int]);
                }
                return false;
            }
            i += 1;
        }
        proof {
            assert(views(a@) =~= views(b@));
        }
        true
    }
}

} // verus!
