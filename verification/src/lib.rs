pub mod ast;
pub mod text;
pub mod cribo_graph;
pub mod graph_builder;
pub mod enhanced_graph_builder;
pub mod dependency_graph;
pub mod collections;
pub mod order;
pub mod config;
pub mod orchestrator;
pub mod paths;
pub mod util;
pub mod resolver;
pub mod discovery;
pub mod code_generator;
pub mod dirs;
pub mod alias_rewrite;
pub mod renames;
pub mod globals_lifter;
pub mod lifted_globals;
pub mod import_aliases;
pub mod import_scan;
pub mod hoisting;
pub mod symbols;
pub mod builders;
pub mod import_hook;
pub mod module_kinds;
pub mod wrapper_bundle;
pub mod submodules;
pub mod bundle;
pub mod namespaces;
pub mod emit;
pub mod module_exec;
pub mod emit_bundle;
pub mod emit_namespaces;
pub mod inlining;
pub mod inlined_imports;
pub mod namespace_inlining;
pub mod import_rewrite;
pub mod wrapper_modules;
pub mod entry_module;
pub mod laws;
pub mod transform_laws;
