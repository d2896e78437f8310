//! Whole-workspace detector of exported symbols that no other module imports.
//!
//! The crate models a workspace of source modules as plain values: each module
//! has a canonical path, a set of exports, a set of resolved imports and a set
//! of recorded namespace usages.  Over that model it resolves import
//! specifiers to module identities and computes, by a global set difference,
//! the exported symbols that are never reached by any import.

mod analyze_file;
mod analyze_package;
mod analyze_plan;
mod analyze_symbols_usage;
mod analyzed_module;
mod ast;
mod find_unused_exports;
mod laws;
mod module_symbols;
mod package_json;
mod paths;
mod patterns;
mod report;
mod resolve_import_path;
mod source_map;
mod tsconfig;
mod vecset;

pub use crate::analyze_file::analyze_decl;
pub use crate::analyze_file::analyze_export_specifier;
pub use crate::analyze_file::analyze_file;
pub use crate::analyze_file::analyze_module_decl;
pub use crate::analyze_file::analyze_module_item;
pub use crate::analyze_file::analyze_module_symbols;
pub use crate::analyze_package::AnalyzeOptions;
pub use crate::analyze_package::AnalyzedPackage;
pub use crate::analyze_package::analyze_module_with_path_resolve;
pub use crate::analyze_package::analyze_package;
pub use crate::analyze_package::is_build_output;
pub use crate::analyze_package::is_source_file;
pub use crate::analyze_plan::AnalyzePlan;
pub use crate::analyze_plan::Package;
pub use crate::analyze_plan::prepare_analyze_plan;
pub use crate::analyze_plan::wildcard_folder;
pub use crate::analyze_symbols_usage::SymbolsUsageAnalyzer;
pub use crate::analyze_symbols_usage::merge_usages;
pub use crate::analyze_symbols_usage::merge_usages_iter;
pub use crate::analyzed_module::AnalyzedModule;
pub use crate::ast::ArrowBody;
pub use crate::ast::Callee;
pub use crate::ast::Class;
pub use crate::ast::ClassMember;
pub use crate::ast::Decl;
pub use crate::ast::DefaultDecl;
pub use crate::ast::ExportSpecifier;
pub use crate::ast::Expr;
pub use crate::ast::Function;
pub use crate::ast::ImportDecl;
pub use crate::ast::MemberProp;
pub use crate::ast::Module;
pub use crate::ast::ModuleDecl;
pub use crate::ast::ModuleItem;
pub use crate::ast::PropOrSpread;
pub use crate::ast::Stmt;
pub use crate::ast::SwitchCase;
pub use crate::ast::VarDeclarator;
pub use crate::find_unused_exports::AnalysisError;
pub use crate::find_unused_exports::Symbol;
pub use crate::find_unused_exports::UnusedExport;
pub use crate::find_unused_exports::clone_symbol;
pub use crate::find_unused_exports::clone_unused_export;
pub use crate::find_unused_exports::find_unused_exports;
pub use crate::find_unused_exports::get_all_exports;
pub use crate::find_unused_exports::get_all_imports;
pub use crate::find_unused_exports::resolve_import;
pub use crate::module_symbols::Export;
pub use crate::module_symbols::Import;
pub use crate::module_symbols::ImportedSymbol;
pub use crate::module_symbols::ModuleSymbols;
pub use crate::module_symbols::Reexport;
pub use crate::module_symbols::Usage;
pub use crate::module_symbols::merge_iter;
pub use crate::package_json::PackageJson;
pub use crate::paths::canonical_path;
pub use crate::paths::join_path;
pub use crate::paths::normalize_segments;
pub use crate::paths::split_path;
pub use crate::patterns::pattern_is_valid;
pub use crate::patterns::pattern_matches;
pub use crate::patterns::patterns_valid;
pub use crate::report::filter_ignored;
pub use crate::report::group_by_path;
pub use crate::resolve_import_path::FileIndex;
pub use crate::resolve_import_path::ResolveError;
pub use crate::resolve_import_path::resolve_import_path;
pub use crate::resolve_import_path::try_resolve_as_monorepo_package;
pub use crate::source_map::SourceMap;
pub use crate::tsconfig::TsConfig;
pub use crate::tsconfig::TsConfigCompilerOptions;
