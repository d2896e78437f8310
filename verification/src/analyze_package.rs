//! The graph builder: turns parsed modules into a package's module graph.
//!
//! Each file's extracted record is resolved: every import specifier and
//! every forwarding-export target is mapped to a canonical module path
//! through the import path resolver.  A specifier that resolves to nothing
//! is recorded as a diagnostic and its edge dropped — never fatal; a fatal
//! resolver error aborts the package.  Files matching an exclude pattern
//! are removed from the graph entirely: they contribute no modules.

use vstd::prelude::*;

use crate::analyze_file::analyze_file;
use crate::analyze_file::exports_of_module;
use crate::analyze_file::imports_of_module;
use crate::analyze_file::module_import_bindings;
use crate::analyze_symbols_usage::usages_of_module;
use crate::analyze_plan::Package;
use crate::analyze_plan::PackageV;
use crate::analyzed_module::AnalyzedModule;
use crate::ast::Module;
use crate::module_symbols::Export;
use crate::module_symbols::ExportV;
use crate::module_symbols::ImportedSymbol;
use crate::module_symbols::ImportedSymbolV;
use crate::module_symbols::ModuleSymbols;
use crate::module_symbols::Reexport;
use crate::patterns::any_pattern_matches;
use crate::patterns::matches_any;
use crate::resolve_import_path::FileIndex;
use crate::resolve_import_path::ResolveError;
use crate::resolve_import_path::ResolveErrorV;
use crate::resolve_import_path::resolve_import_path;
use crate::resolve_import_path::spec_resolve_import_path;
use crate::tsconfig::TsConfig;
use crate::tsconfig::spec_base_url;
use crate::vecset::distinct_seq;
use crate::vecset::vec_set_insert;

verus! {

/// The analysis result for one package.
#[derive(Debug)]
pub struct AnalyzedPackage {
    pub path: String,
    pub modules: Vec<AnalyzedModule<String>>,
    pub unresolved_paths: Vec<String>,
}

impl AnalyzedPackage {
    /// Module paths are unique, the symbol records are deduplicated, and
    /// the unresolved-specifier diagnostics are a set.
    pub open spec fn wf(self) -> bool {
        &&& forall|i: int, j: int|
            0 <= i < j < self.modules@.len() ==> (#[trigger] self.modules@[i]).path@ != (
            #[trigger] self.modules@[j]).path@
        &&& forall|i: int| 0 <= i < self.modules@.len() ==> (#[trigger] self.modules@[i]).symbols.wf()
        &&& distinct_seq(self.unresolved_paths@)
    }
}

/// The ignore and exclude patterns of a run, as regular expressions held
/// in source form.
#[derive(Debug)]
pub struct AnalyzeOptions {
    pub ignore_patterns: Vec<String>,
    pub exclude_patterns: Vec<String>,
}

impl AnalyzeOptions {
    pub fn new(ignore_patterns: Vec<String>, exclude_patterns: Vec<String>) -> (r: Self)
        ensures
            r.ignore_patterns == ignore_patterns,
            r.exclude_patterns == exclude_patterns,
    {
        AnalyzeOptions { ignore_patterns, exclude_patterns }
    }
}

/// How one raw export turns into a resolved export: named and default
/// exports stand unchanged; a forwarding export stands under the canonical
/// path its specifier resolves to, and disappears when the specifier is
/// unresolved.
pub open spec fn export_resolves_to(
    raw: ExportV<Seq<char>>,
    e: ExportV<Seq<char>>,
    current: Seq<char>,
    base_url: Option<Seq<char>>,
    root: Seq<char>,
    pkgs: Seq<crate::analyze_plan::PackageV>,
    idx: crate::resolve_import_path::FileIndexV,
) -> bool {
    match raw {
        ExportV::Symbol(s) => e == ExportV::<Seq<char>>::Symbol(s),
        ExportV::Default => e == ExportV::<Seq<char>>::Default,
        ExportV::AllFrom(s) => match spec_resolve_import_path(
            current,
            s,
            base_url,
            root,
            pkgs,
            idx,
        ) {
            Ok(Some(p)) => e == ExportV::<Seq<char>>::AllFrom(p),
            _ => false,
        },
        ExportV::Reexport(s) => match spec_resolve_import_path(
            current,
            s,
            base_url,
            root,
            pkgs,
            idx,
        ) {
            Ok(Some(p)) => e == ExportV::<Seq<char>>::Reexport(p),
            _ => false,
        },
    }
}

/// The raw specifier a forwarding export leaves unresolved, if any.
pub open spec fn export_unresolved_spec(
    raw: ExportV<Seq<char>>,
    s: Seq<char>,
    current: Seq<char>,
    base_url: Option<Seq<char>>,
    root: Seq<char>,
    pkgs: Seq<crate::analyze_plan::PackageV>,
    idx: crate::resolve_import_path::FileIndexV,
) -> bool {
    match raw {
        ExportV::AllFrom(s2) => s == s2 && spec_resolve_import_path(
            current,
            s2,
            base_url,
            root,
            pkgs,
            idx,
        ) == Ok::<Option<Seq<char>>, ResolveErrorV>(None),
        ExportV::Reexport(s2) => s == s2 && spec_resolve_import_path(
            current,
            s2,
            base_url,
            root,
            pkgs,
            idx,
        ) == Ok::<Option<Seq<char>>, ResolveErrorV>(None),
        _ => false,
    }
}

/// The fatal error resolving a forwarding export meets, if any.
pub open spec fn export_err_of(
    raw: ExportV<Seq<char>>,
    current: Seq<char>,
    base_url: Option<Seq<char>>,
    root: Seq<char>,
    pkgs: Seq<crate::analyze_plan::PackageV>,
    idx: crate::resolve_import_path::FileIndexV,
) -> Option<ResolveErrorV> {
    match raw {
        ExportV::AllFrom(s) => match spec_resolve_import_path(
            current,
            s,
            base_url,
            root,
            pkgs,
            idx,
        ) {
            Err(e) => Some(e),
            _ => None,
        },
        ExportV::Reexport(s) => match spec_resolve_import_path(
            current,
            s,
            base_url,
            root,
            pkgs,
            idx,
        ) {
            Err(e) => Some(e),
            _ => None,
        },
        _ => None,
    }
}

/// How one raw import statement turns into a resolved one: the bindings
/// stay, the specifier becomes the canonical path it resolves to; an
/// unresolved specifier drops the statement.
pub open spec fn import_resolves_to(
    raw: ImportedSymbolV<Seq<char>>,
    en: ImportedSymbolV<Seq<char>>,
    current: Seq<char>,
    base_url: Option<Seq<char>>,
    root: Seq<char>,
    pkgs: Seq<crate::analyze_plan::PackageV>,
    idx: crate::resolve_import_path::FileIndexV,
) -> bool {
    match spec_resolve_import_path(current, raw.from, base_url, root, pkgs, idx) {
        Ok(Some(p)) => en == (ImportedSymbolV { symbols: raw.symbols, from: p }),
        _ => false,
    }
}

/// The raw specifier an import statement leaves unresolved, if any.
pub open spec fn import_unresolved_spec(
    raw: ImportedSymbolV<Seq<char>>,
    s: Seq<char>,
    current: Seq<char>,
    base_url: Option<Seq<char>>,
    root: Seq<char>,
    pkgs: Seq<crate::analyze_plan::PackageV>,
    idx: crate::resolve_import_path::FileIndexV,
) -> bool {
    s == raw.from && spec_resolve_import_path(current, s, base_url, root, pkgs, idx)
        == Ok::<Option<Seq<char>>, ResolveErrorV>(None)
}

/// The fatal error resolving an import statement meets, if any.
pub open spec fn import_err_of(
    raw: ImportedSymbolV<Seq<char>>,
    current: Seq<char>,
    base_url: Option<Seq<char>>,
    root: Seq<char>,
    pkgs: Seq<crate::analyze_plan::PackageV>,
    idx: crate::resolve_import_path::FileIndexV,
) -> Option<ResolveErrorV> {
    match spec_resolve_import_path(current, raw.from, base_url, root, pkgs, idx) {
        Err(e) => Some(e),
        _ => None,
    }
}

/// The resolved exports of a module with raw export set `raw`.
pub open spec fn resolved_exports(
    raw: Set<ExportV<Seq<char>>>,
    current: Seq<char>,
    base_url: Option<Seq<char>>,
    root: Seq<char>,
    pkgs: Seq<crate::analyze_plan::PackageV>,
    idx: crate::resolve_import_path::FileIndexV,
) -> Set<ExportV<Seq<char>>> {
    Set::new(
        |e: ExportV<Seq<char>>|
            exists|raw_e: ExportV<Seq<char>>|
                #[trigger] raw.contains(raw_e) && export_resolves_to(
                    raw_e,
                    e,
                    current,
                    base_url,
                    root,
                    pkgs,
                    idx,
                ),
    )
}

/// The resolved import statements of a module with raw import set `raw`.
pub open spec fn resolved_imports(
    raw: Set<ImportedSymbolV<Seq<char>>>,
    current: Seq<char>,
    base_url: Option<Seq<char>>,
    root: Seq<char>,
    pkgs: Seq<crate::analyze_plan::PackageV>,
    idx: crate::resolve_import_path::FileIndexV,
) -> Set<ImportedSymbolV<Seq<char>>> {
    Set::new(
        |en: ImportedSymbolV<Seq<char>>|
            exists|raw_en: ImportedSymbolV<Seq<char>>|
                #[trigger] raw.contains(raw_en) && import_resolves_to(
                    raw_en,
                    en,
                    current,
                    base_url,
                    root,
                    pkgs,
                    idx,
                ),
    )
}

/// The specifiers a module leaves unresolved.
pub open spec fn unresolved_of_module(
    m: Module,
    current: Seq<char>,
    base_url: Option<Seq<char>>,
    root: Seq<char>,
    pkgs: Seq<crate::analyze_plan::PackageV>,
    idx: crate::resolve_import_path::FileIndexV,
) -> Set<Seq<char>> {
    Set::new(
        |s: Seq<char>|
            (exists|raw_e: ExportV<Seq<char>>|
                #[trigger] exports_of_module(m).contains(raw_e) && export_unresolved_spec(
                    raw_e,
                    s,
                    current,
                    base_url,
                    root,
                    pkgs,
                    idx,
                )) || (exists|raw_en: ImportedSymbolV<Seq<char>>|
                #[trigger] imports_of_module(m).contains(raw_en) && import_unresolved_spec(
                    raw_en,
                    s,
                    current,
                    base_url,
                    root,
                    pkgs,
                    idx,
                )),
    )
}

/// No specifier of the module meets a fatal resolver error.
pub open spec fn module_error_free(
    m: Module,
    current: Seq<char>,
    base_url: Option<Seq<char>>,
    root: Seq<char>,
    pkgs: Seq<crate::analyze_plan::PackageV>,
    idx: crate::resolve_import_path::FileIndexV,
) -> bool {
    &&& forall|raw_e: ExportV<Seq<char>>|
        #[trigger] exports_of_module(m).contains(raw_e) ==> export_err_of(
            raw_e,
            current,
            base_url,
            root,
            pkgs,
            idx,
        ) is None
    &&& forall|raw_en: ImportedSymbolV<Seq<char>>|
        #[trigger] imports_of_module(m).contains(raw_en) ==> import_err_of(
            raw_en,
            current,
            base_url,
            root,
            pkgs,
            idx,
        ) is None
}

/// Some specifier of the module meets exactly this fatal resolver error.
pub open spec fn module_has_error(
    m: Module,
    e: ResolveErrorV,
    current: Seq<char>,
    base_url: Option<Seq<char>>,
    root: Seq<char>,
    pkgs: Seq<crate::analyze_plan::PackageV>,
    idx: crate::resolve_import_path::FileIndexV,
) -> bool {
    ||| exists|raw_e: ExportV<Seq<char>>|
        #[trigger] exports_of_module(m).contains(raw_e) && export_err_of(
            raw_e,
            current,
            base_url,
            root,
            pkgs,
            idx,
        ) == Some(e)
    ||| exists|raw_en: ImportedSymbolV<Seq<char>>|
        #[trigger] imports_of_module(m).contains(raw_en) && import_err_of(
            raw_en,
            current,
            base_url,
            root,
            pkgs,
            idx,
        ) == Some(e)
}

/// The resolved exports contributed by the first `k` raw exports.
pub open spec fn resolved_exports_prefix(
    rev: Seq<ExportV<Seq<char>>>,
    k: int,
    current: Seq<char>,
    base_url: Option<Seq<char>>,
    root: Seq<char>,
    pkgs: Seq<PackageV>,
    idx: crate::resolve_import_path::FileIndexV,
) -> Set<ExportV<Seq<char>>> {
    Set::new(
        |e: ExportV<Seq<char>>|
            exists|k2: int|
                0 <= k2 < k && export_resolves_to(
                    #[trigger] rev[k2],
                    e,
                    current,
                    base_url,
                    root,
                    pkgs,
                    idx,
                ),
    )
}

/// The specifiers the first `k` raw exports leave unresolved.
pub open spec fn export_unresolved_prefix(
    rev: Seq<ExportV<Seq<char>>>,
    k: int,
    current: Seq<char>,
    base_url: Option<Seq<char>>,
    root: Seq<char>,
    pkgs: Seq<PackageV>,
    idx: crate::resolve_import_path::FileIndexV,
) -> Set<Seq<char>> {
    Set::new(
        |s: Seq<char>|
            exists|k2: int|
                0 <= k2 < k && export_unresolved_spec(
                    #[trigger] rev[k2],
                    s,
                    current,
                    base_url,
                    root,
                    pkgs,
                    idx,
                ),
    )
}

/// What one raw export contributes to the resolved set.
pub open spec fn export_step_set(
    raw: ExportV<Seq<char>>,
    current: Seq<char>,
    base_url: Option<Seq<char>>,
    root: Seq<char>,
    pkgs: Seq<PackageV>,
    idx: crate::resolve_import_path::FileIndexV,
) -> Set<ExportV<Seq<char>>> {
    Set::new(|e: ExportV<Seq<char>>| export_resolves_to(raw, e, current, base_url, root, pkgs, idx))
}

/// What one raw export contributes to the unresolved diagnostics.
pub open spec fn export_unres_step(
    raw: ExportV<Seq<char>>,
    current: Seq<char>,
    base_url: Option<Seq<char>>,
    root: Seq<char>,
    pkgs: Seq<PackageV>,
    idx: crate::resolve_import_path::FileIndexV,
) -> Set<Seq<char>> {
    Set::new(|s: Seq<char>| export_unresolved_spec(raw, s, current, base_url, root, pkgs, idx))
}

/// Extending the prefix by one raw export adds exactly its contributions.
proof fn lemma_export_step(
    rev: Seq<ExportV<Seq<char>>>,
    k: int,
    current: Seq<char>,
    base_url: Option<Seq<char>>,
    root: Seq<char>,
    pkgs: Seq<PackageV>,
    idx: crate::resolve_import_path::FileIndexV,
)
    requires
        0 <= k < rev.len(),
    ensures
        resolved_exports_prefix(rev, k + 1, current, base_url, root, pkgs, idx)
            == resolved_exports_prefix(rev, k, current, base_url, root, pkgs, idx).union(
            export_step_set(rev[k], current, base_url, root, pkgs, idx),
        ),
        export_unresolved_prefix(rev, k + 1, current, base_url, root, pkgs, idx)
            == export_unresolved_prefix(rev, k, current, base_url, root, pkgs, idx).union(
            export_unres_step(rev[k], current, base_url, root, pkgs, idx),
        ),
{
    assert(resolved_exports_prefix(rev, k + 1, current, base_url, root, pkgs, idx)
        =~= resolved_exports_prefix(rev, k, current, base_url, root, pkgs, idx).union(
        export_step_set(rev[k], current, base_url, root, pkgs, idx),
    )) by {
        assert forall|e: ExportV<Seq<char>>|
            resolved_exports_prefix(rev, k + 1, current, base_url, root, pkgs, idx).contains(e)
            implies resolved_exports_prefix(rev, k, current, base_url, root, pkgs, idx).union(
            export_step_set(rev[k], current, base_url, root, pkgs, idx),
        ).contains(e) by {
            let k2 = choose|k2: int|
                0 <= k2 < k + 1 && export_resolves_to(
                    #[trigger] rev[k2],
                    e,
                    current,
                    base_url,
                    root,
                    pkgs,
                    idx,
                );
            if k2 < k {
                assert(resolved_exports_prefix(rev, k, current, base_url, root, pkgs, idx).contains(
                    e,
                ));
            }
        }
    }
    assert(export_unresolved_prefix(rev, k + 1, current, base_url, root, pkgs, idx)
        =~= export_unresolved_prefix(rev, k, current, base_url, root, pkgs, idx).union(
        export_unres_step(rev[k], current, base_url, root, pkgs, idx),
    )) by {
        assert forall|s: Seq<char>|
            export_unresolved_prefix(rev, k + 1, current, base_url, root, pkgs, idx).contains(s)
            implies export_unresolved_prefix(rev, k, current, base_url, root, pkgs, idx).union(
            export_unres_step(rev[k], current, base_url, root, pkgs, idx),
        ).contains(s) by {
            let k2 = choose|k2: int|
                0 <= k2 < k + 1 && export_unresolved_spec(
                    #[trigger] rev[k2],
                    s,
                    current,
                    base_url,
                    root,
                    pkgs,
                    idx,
                );
            if k2 < k {
                assert(export_unresolved_prefix(rev, k, current, base_url, root, pkgs, idx).contains(
                    s,
                ));
            }
        }
    }
}

/// The whole prefix covers exactly what the raw export set contributes.
proof fn lemma_export_bridge(
    rev: Seq<ExportV<Seq<char>>>,
    current: Seq<char>,
    base_url: Option<Seq<char>>,
    root: Seq<char>,
    pkgs: Seq<PackageV>,
    idx: crate::resolve_import_path::FileIndexV,
)
    ensures
        resolved_exports_prefix(rev, rev.len() as int, current, base_url, root, pkgs, idx)
            == resolved_exports(rev.to_set(), current, base_url, root, pkgs, idx),
        export_unresolved_prefix(rev, rev.len() as int, current, base_url, root, pkgs, idx)
            == Set::new(
            |s: Seq<char>|
                exists|raw_e: ExportV<Seq<char>>|
                    #[trigger] rev.to_set().contains(raw_e) && export_unresolved_spec(
                        raw_e,
                        s,
                        current,
                        base_url,
                        root,
                        pkgs,
                        idx,
                    ),
        ),
{
    assert(resolved_exports_prefix(rev, rev.len() as int, current, base_url, root, pkgs, idx)
        =~= resolved_exports(rev.to_set(), current, base_url, root, pkgs, idx)) by {
        assert forall|e: ExportV<Seq<char>>|
            resolved_exports_prefix(rev, rev.len() as int, current, base_url, root, pkgs, idx).contains(
                e,
            ) implies resolved_exports(rev.to_set(), current, base_url, root, pkgs, idx).contains(
            e,
        ) by {
            let k2 = choose|k2: int|
                0 <= k2 < rev.len() && export_resolves_to(
                    #[trigger] rev[k2],
                    e,
                    current,
                    base_url,
                    root,
                    pkgs,
                    idx,
                );
            assert(rev.to_set().contains(rev[k2]));
        }
        assert forall|e: ExportV<Seq<char>>|
            resolved_exports(rev.to_set(), current, base_url, root, pkgs, idx).contains(e)
            implies resolved_exports_prefix(
            rev,
            rev.len() as int,
            current,
            base_url,
            root,
            pkgs,
            idx,
        ).contains(e) by {
            let raw_e = choose|raw_e: ExportV<Seq<char>>|
                #[trigger] rev.to_set().contains(raw_e) && export_resolves_to(
                    raw_e,
                    e,
                    current,
                    base_url,
                    root,
                    pkgs,
                    idx,
                );
            let k2 = choose|k2: int| 0 <= k2 < rev.len() && rev[k2] == raw_e;
            assert(export_resolves_to(rev[k2], e, current, base_url, root, pkgs, idx));
        }
    }
    assert(export_unresolved_prefix(rev, rev.len() as int, current, base_url, root, pkgs, idx)
        =~= Set::new(
        |s: Seq<char>|
            exists|raw_e: ExportV<Seq<char>>|
                #[trigger] rev.to_set().contains(raw_e) && export_unresolved_spec(
                    raw_e,
                    s,
                    current,
                    base_url,
                    root,
                    pkgs,
                    idx,
                ),
    )) by {
        assert forall|s: Seq<char>|
            export_unresolved_prefix(
                rev,
                rev.len() as int,
                current,
                base_url,
                root,
                pkgs,
                idx,
            ).contains(s) implies Set::new(
            |s2: Seq<char>|
                exists|raw_e: ExportV<Seq<char>>|
                    #[trigger] rev.to_set().contains(raw_e) && export_unresolved_spec(
                        raw_e,
                        s2,
                        current,
                        base_url,
                        root,
                        pkgs,
                        idx,
                    ),
        ).contains(s) by {
            let k2 = choose|k2: int|
                0 <= k2 < rev.len() && export_unresolved_spec(
                    #[trigger] rev[k2],
                    s,
                    current,
                    base_url,
                    root,
                    pkgs,
                    idx,
                );
            assert(rev.to_set().contains(rev[k2]));
        }
        assert forall|s: Seq<char>|
            Set::new(
                |s2: Seq<char>|
                    exists|raw_e: ExportV<Seq<char>>|
                        #[trigger] rev.to_set().contains(raw_e) && export_unresolved_spec(
                            raw_e,
                            s2,
                            current,
                            base_url,
                            root,
                            pkgs,
                            idx,
                        ),
            ).contains(s) implies export_unresolved_prefix(
            rev,
            rev.len() as int,
            current,
            base_url,
            root,
            pkgs,
            idx,
        ).contains(s) by {
            let raw_e = choose|raw_e: ExportV<Seq<char>>|
                #[trigger] rev.to_set().contains(raw_e) && export_unresolved_spec(
                    raw_e,
                    s,
                    current,
                    base_url,
                    root,
                    pkgs,
                    idx,
                );
            let k2 = choose|k2: int| 0 <= k2 < rev.len() && rev[k2] == raw_e;
            assert(export_unresolved_spec(rev[k2], s, current, base_url, root, pkgs, idx));
        }
    }
}

/// The resolved import statements contributed by the first `k` raw ones.
pub open spec fn resolved_imports_prefix(
    riv: Seq<ImportedSymbolV<Seq<char>>>,
    k: int,
    current: Seq<char>,
    base_url: Option<Seq<char>>,
    root: Seq<char>,
    pkgs: Seq<PackageV>,
    idx: crate::resolve_import_path::FileIndexV,
) -> Set<ImportedSymbolV<Seq<char>>> {
    Set::new(
        |en: ImportedSymbolV<Seq<char>>|
            exists|k2: int|
                0 <= k2 < k && import_resolves_to(
                    #[trigger] riv[k2],
                    en,
                    current,
                    base_url,
                    root,
                    pkgs,
                    idx,
                ),
    )
}

/// The specifiers the first `k` raw import statements leave unresolved.
pub open spec fn import_unresolved_prefix(
    riv: Seq<ImportedSymbolV<Seq<char>>>,
    k: int,
    current: Seq<char>,
    base_url: Option<Seq<char>>,
    root: Seq<char>,
    pkgs: Seq<PackageV>,
    idx: crate::resolve_import_path::FileIndexV,
) -> Set<Seq<char>> {
    Set::new(
        |s: Seq<char>|
            exists|k2: int|
                0 <= k2 < k && import_unresolved_spec(
                    #[trigger] riv[k2],
                    s,
                    current,
                    base_url,
                    root,
                    pkgs,
                    idx,
                ),
    )
}

/// What one raw import statement contributes to the resolved set.
pub open spec fn import_step_set(
    raw: ImportedSymbolV<Seq<char>>,
    current: Seq<char>,
    base_url: Option<Seq<char>>,
    root: Seq<char>,
    pkgs: Seq<PackageV>,
    idx: crate::resolve_import_path::FileIndexV,
) -> Set<ImportedSymbolV<Seq<char>>> {
    Set::new(
        |en: ImportedSymbolV<Seq<char>>|
            import_resolves_to(raw, en, current, base_url, root, pkgs, idx),
    )
}

/// What one raw import statement contributes to the diagnostics.
pub open spec fn import_unres_step(
    raw: ImportedSymbolV<Seq<char>>,
    current: Seq<char>,
    base_url: Option<Seq<char>>,
    root: Seq<char>,
    pkgs: Seq<PackageV>,
    idx: crate::resolve_import_path::FileIndexV,
) -> Set<Seq<char>> {
    Set::new(|s: Seq<char>| import_unresolved_spec(raw, s, current, base_url, root, pkgs, idx))
}

/// Extending the prefix by one raw import statement adds exactly its
/// contributions.
proof fn lemma_import_step(
    riv: Seq<ImportedSymbolV<Seq<char>>>,
    k: int,
    current: Seq<char>,
    base_url: Option<Seq<char>>,
    root: Seq<char>,
    pkgs: Seq<PackageV>,
    idx: crate::resolve_import_path::FileIndexV,
)
    requires
        0 <= k < riv.len(),
    ensures
        resolved_imports_prefix(riv, k + 1, current, base_url, root, pkgs, idx)
            == resolved_imports_prefix(riv, k, current, base_url, root, pkgs, idx).union(
            import_step_set(riv[k], current, base_url, root, pkgs, idx),
        ),
        import_unresolved_prefix(riv, k + 1, current, base_url, root, pkgs, idx)
            == import_unresolved_prefix(riv, k, current, base_url, root, pkgs, idx).union(
            import_unres_step(riv[k], current, base_url, root, pkgs, idx),
        ),
{
    assert(resolved_imports_prefix(riv, k + 1, current, base_url, root, pkgs, idx)
        =~= resolved_imports_prefix(riv, k, current, base_url, root, pkgs, idx).union(
        import_step_set(riv[k], current, base_url, root, pkgs, idx),
    )) by {
        assert forall|en: ImportedSymbolV<Seq<char>>|
            resolved_imports_prefix(riv, k + 1, current, base_url, root, pkgs, idx).contains(en)
            implies resolved_imports_prefix(riv, k, current, base_url, root, pkgs, idx).union(
            import_step_set(riv[k], current, base_url, root, pkgs, idx),
        ).contains(en) by {
            let k2 = choose|k2: int|
                0 <= k2 < k + 1 && import_resolves_to(
                    #[trigger] riv[k2],
                    en,
                    current,
                    base_url,
                    root,
                    pkgs,
                    idx,
                );
            if k2 < k {
                assert(resolved_imports_prefix(riv, k, current, base_url, root, pkgs, idx).contains(
                    en,
                ));
            }
        }
    }
    assert(import_unresolved_prefix(riv, k + 1, current, base_url, root, pkgs, idx)
        =~= import_unresolved_prefix(riv, k, current, base_url, root, pkgs, idx).union(
        import_unres_step(riv[k], current, base_url, root, pkgs, idx),
    )) by {
        assert forall|s: Seq<char>|
            import_unresolved_prefix(riv, k + 1, current, base_url, root, pkgs, idx).contains(s)
            implies import_unresolved_prefix(riv, k, current, base_url, root, pkgs, idx).union(
            import_unres_step(riv[k], current, base_url, root, pkgs, idx),
        ).contains(s) by {
            let k2 = choose|k2: int|
                0 <= k2 < k + 1 && import_unresolved_spec(
                    #[trigger] riv[k2],
                    s,
                    current,
                    base_url,
                    root,
                    pkgs,
                    idx,
                );
            if k2 < k {
                assert(import_unresolved_prefix(riv, k, current, base_url, root, pkgs, idx).contains(
                    s,
                ));
            }
        }
    }
}

/// The whole prefix covers exactly what the raw import set contributes.
proof fn lemma_import_bridge(
    riv: Seq<ImportedSymbolV<Seq<char>>>,
    current: Seq<char>,
    base_url: Option<Seq<char>>,
    root: Seq<char>,
    pkgs: Seq<PackageV>,
    idx: crate::resolve_import_path::FileIndexV,
)
    ensures
        resolved_imports_prefix(riv, riv.len() as int, current, base_url, root, pkgs, idx)
            == resolved_imports(riv.to_set(), current, base_url, root, pkgs, idx),
        import_unresolved_prefix(riv, riv.len() as int, current, base_url, root, pkgs, idx)
            == Set::new(
            |s: Seq<char>|
                exists|raw_en: ImportedSymbolV<Seq<char>>|
                    #[trigger] riv.to_set().contains(raw_en) && import_unresolved_spec(
                        raw_en,
                        s,
                        current,
                        base_url,
                        root,
                        pkgs,
                        idx,
                    ),
        ),
{
    assert(resolved_imports_prefix(riv, riv.len() as int, current, base_url, root, pkgs, idx)
        =~= resolved_imports(riv.to_set(), current, base_url, root, pkgs, idx)) by {
        assert forall|en: ImportedSymbolV<Seq<char>>|
            resolved_imports_prefix(
                riv,
                riv.len() as int,
                current,
                base_url,
                root,
                pkgs,
                idx,
            ).contains(en) implies resolved_imports(
            riv.to_set(),
            current,
            base_url,
            root,
            pkgs,
            idx,
        ).contains(en) by {
            let k2 = choose|k2: int|
                0 <= k2 < riv.len() && import_resolves_to(
                    #[trigger] riv[k2],
                    en,
                    current,
                    base_url,
                    root,
                    pkgs,
                    idx,
                );
            assert(riv.to_set().contains(riv[k2]));
        }
        assert forall|en: ImportedSymbolV<Seq<char>>|
            resolved_imports(riv.to_set(), current, base_url, root, pkgs, idx).contains(en)
            implies resolved_imports_prefix(
            riv,
            riv.len() as int,
            current,
            base_url,
            root,
            pkgs,
            idx,
        ).contains(en) by {
            let raw_en = choose|raw_en: ImportedSymbolV<Seq<char>>|
                #[trigger] riv.to_set().contains(raw_en) && import_resolves_to(
                    raw_en,
                    en,
                    current,
                    base_url,
                    root,
                    pkgs,
                    idx,
                );
            let k2 = choose|k2: int| 0 <= k2 < riv.len() && riv[k2] == raw_en;
            assert(import_resolves_to(riv[k2], en, current, base_url, root, pkgs, idx));
        }
    }
    assert(import_unresolved_prefix(riv, riv.len() as int, current, base_url, root, pkgs, idx)
        =~= Set::new(
        |s: Seq<char>|
            exists|raw_en: ImportedSymbolV<Seq<char>>|
                #[trigger] riv.to_set().contains(raw_en) && import_unresolved_spec(
                    raw_en,
                    s,
                    current,
                    base_url,
                    root,
                    pkgs,
                    idx,
                ),
    )) by {
        assert forall|s: Seq<char>|
            import_unresolved_prefix(
                riv,
                riv.len() as int,
                current,
                base_url,
                root,
                pkgs,
                idx,
            ).contains(s) implies Set::new(
            |s2: Seq<char>|
                exists|raw_en: ImportedSymbolV<Seq<char>>|
                    #[trigger] riv.to_set().contains(raw_en) && import_unresolved_spec(
                        raw_en,
                        s2,
                        current,
                        base_url,
                        root,
                        pkgs,
                        idx,
                    ),
        ).contains(s) by {
            let k2 = choose|k2: int|
                0 <= k2 < riv.len() && import_unresolved_spec(
                    #[trigger] riv[k2],
                    s,
                    current,
                    base_url,
                    root,
                    pkgs,
                    idx,
                );
            assert(riv.to_set().contains(riv[k2]));
        }
        assert forall|s: Seq<char>|
            Set::new(
                |s2: Seq<char>|
                    exists|raw_en: ImportedSymbolV<Seq<char>>|
                        #[trigger] riv.to_set().contains(raw_en) && import_unresolved_spec(
                            raw_en,
                            s2,
                            current,
                            base_url,
                            root,
                            pkgs,
                            idx,
                        ),
            ).contains(s) implies import_unresolved_prefix(
            riv,
            riv.len() as int,
            current,
            base_url,
            root,
            pkgs,
            idx,
        ).contains(s) by {
            let raw_en = choose|raw_en: ImportedSymbolV<Seq<char>>|
                #[trigger] riv.to_set().contains(raw_en) && import_unresolved_spec(
                    raw_en,
                    s,
                    current,
                    base_url,
                    root,
                    pkgs,
                    idx,
                );
            let k2 = choose|k2: int| 0 <= k2 < riv.len() && riv[k2] == raw_en;
            assert(import_unresolved_spec(riv[k2], s, current, base_url, root, pkgs, idx));
        }
    }
}

/// No forwarding export among the first `k` meets a fatal error.
pub open spec fn export_prefix_ok(
    rev: Seq<ExportV<Seq<char>>>,
    k: int,
    current: Seq<char>,
    base_url: Option<Seq<char>>,
    root: Seq<char>,
    pkgs: Seq<PackageV>,
    idx: crate::resolve_import_path::FileIndexV,
) -> bool {
    forall|k2: int|
        0 <= k2 < k ==> export_err_of(#[trigger] rev[k2], current, base_url, root, pkgs, idx)
            is None
}

/// No import statement among the first `k` meets a fatal error.
pub open spec fn import_prefix_ok(
    riv: Seq<ImportedSymbolV<Seq<char>>>,
    k: int,
    current: Seq<char>,
    base_url: Option<Seq<char>>,
    root: Seq<char>,
    pkgs: Seq<PackageV>,
    idx: crate::resolve_import_path::FileIndexV,
) -> bool {
    forall|k2: int|
        0 <= k2 < k ==> import_err_of(#[trigger] riv[k2], current, base_url, root, pkgs, idx)
            is None
}

/// Resolves one extracted module: maps every import specifier and every
/// forwarding-export target to the canonical path it names.  A specifier
/// that resolves to nothing is appended to `unresolved_paths` and its edge
/// dropped; a fatal resolver error aborts.
pub fn analyze_module_with_path_resolve(
    path: &String,
    module: &Module,
    tsconfig: &Option<TsConfig>,
    package_path: &String,
    packages: &Vec<Package>,
    index: &FileIndex,
    unresolved_paths: &mut Vec<String>,
) -> (r: Result<AnalyzedModule<String>, ResolveError>)
    requires
        distinct_seq(old(unresolved_paths)@),
    ensures
        match r {
            Ok(m) => {
                &&& m.path@ == path@
                &&& m.symbols.wf()
                &&& m.symbols.usage_set() == usages_of_module(
                    module_import_bindings(*module),
                    *module,
                )
                &&& m.symbols.export_set() == resolved_exports(
                    exports_of_module(*module),
                    path@,
                    spec_base_url(*tsconfig),
                    package_path@,
                    packages.deep_view(),
                    index.deep_view(),
                )
                &&& m.symbols.import_set() == resolved_imports(
                    imports_of_module(*module),
                    path@,
                    spec_base_url(*tsconfig),
                    package_path@,
                    packages.deep_view(),
                    index.deep_view(),
                )
                &&& module_error_free(
                    *module,
                    path@,
                    spec_base_url(*tsconfig),
                    package_path@,
                    packages.deep_view(),
                    index.deep_view(),
                )
                &&& distinct_seq(final(unresolved_paths)@)
                &&& final(unresolved_paths).deep_view().to_set() == old(
                    unresolved_paths,
                ).deep_view().to_set().union(
                    unresolved_of_module(
                        *module,
                        path@,
                        spec_base_url(*tsconfig),
                        package_path@,
                        packages.deep_view(),
                        index.deep_view(),
                    ),
                )
            },
            Err(e) => {
                &&& module_has_error(
                    *module,
                    e.deep_view(),
                    path@,
                    spec_base_url(*tsconfig),
                    package_path@,
                    packages.deep_view(),
                    index.deep_view(),
                )
                &&& distinct_seq(final(unresolved_paths)@)
                &&& old(unresolved_paths).deep_view().to_set().subset_of(
                    final(unresolved_paths).deep_view().to_set(),
                )
            },
        },
{
    let ghost cur = path@;
    let ghost bu = spec_base_url(*tsconfig);
    let ghost root = package_path@;
    let ghost pk = packages.deep_view();
    let ghost ix = index.deep_view();
    let analyzed = analyze_file(path, module);
    let mpath = analyzed.path;
    let symbols = analyzed.symbols;
    proof {
        assert(distinct_seq(symbols.usages@));
    }
    let usages = symbols.usages;
    let raw_exports = symbols.exports;
    let raw_imports = symbols.imports;
    let ghost rev = raw_exports.deep_view();
    let ghost riv = raw_imports.deep_view();
    proof {
        assert(rev.to_set() == exports_of_module(*module));
        assert(riv.to_set() == imports_of_module(*module));
    }
    let mut exports: Vec<Export<String>> = Vec::new();
    let en = raw_exports.len();
    let mut k: usize = 0;
    proof {
        assert(exports.deep_view().to_set() =~= resolved_exports_prefix(
            rev,
            0,
            cur,
            bu,
            root,
            pk,
            ix,
        ));
        assert(unresolved_paths.deep_view().to_set() =~= old(
            unresolved_paths,
        ).deep_view().to_set().union(export_unresolved_prefix(rev, 0, cur, bu, root, pk, ix)));
    }
    while k < en
        invariant
            en == raw_exports@.len(),
            k <= en,
            rev == raw_exports.deep_view(),
            cur == path@,
            bu == spec_base_url(*tsconfig),
            root == package_path@,
            pk == packages.deep_view(),
            ix == index.deep_view(),
            rev.to_set() == exports_of_module(*module),
            distinct_seq(exports@),
            distinct_seq(unresolved_paths@),
            exports.deep_view().to_set() == resolved_exports_prefix(
                rev,
                k as int,
                cur,
                bu,
                root,
                pk,
                ix,
            ),
            unresolved_paths.deep_view().to_set() == old(
                unresolved_paths,
            ).deep_view().to_set().union(
                export_unresolved_prefix(rev, k as int, cur, bu, root, pk, ix),
            ),
            export_prefix_ok(rev, k as int, cur, bu, root, pk, ix),
        decreases en - k,
    {
        let ghost prev_un = unresolved_paths.deep_view().to_set();
        proof {
            assert(rev[k as int] == raw_exports@[k as int].deep_view());
        }
        match &raw_exports[k] {
            Export::Default => {
                vec_set_insert(&mut exports, Export::Default);
                proof {
                    lemma_export_step(rev, k as int, cur, bu, root, pk, ix);
                    assert(export_step_set(rev[k as int], cur, bu, root, pk, ix) =~= Set::<
                        ExportV<Seq<char>>,
                    >::empty().insert(ExportV::Default));
                    assert(export_unres_step(rev[k as int], cur, bu, root, pk, ix) =~= Set::<
                        Seq<char>,
                    >::empty());
                    assert(exports.deep_view().to_set() =~= resolved_exports_prefix(
                        rev,
                        k as int + 1,
                        cur,
                        bu,
                        root,
                        pk,
                        ix,
                    ));
                    assert(unresolved_paths.deep_view().to_set() =~= old(
                        unresolved_paths,
                    ).deep_view().to_set().union(
                        export_unresolved_prefix(rev, k as int + 1, cur, bu, root, pk, ix),
                    ));
                }
            },
            Export::Symbol(sname) => {
                vec_set_insert(&mut exports, Export::Symbol(sname.clone()));
                proof {
                    lemma_export_step(rev, k as int, cur, bu, root, pk, ix);
                    assert(export_step_set(rev[k as int], cur, bu, root, pk, ix) =~= Set::<
                        ExportV<Seq<char>>,
                    >::empty().insert(ExportV::Symbol(sname@)));
                    assert(export_unres_step(rev[k as int], cur, bu, root, pk, ix) =~= Set::<
                        Seq<char>,
                    >::empty());
                    assert(exports.deep_view().to_set() =~= resolved_exports_prefix(
                        rev,
                        k as int + 1,
                        cur,
                        bu,
                        root,
                        pk,
                        ix,
                    ));
                    assert(unresolved_paths.deep_view().to_set() =~= old(
                        unresolved_paths,
                    ).deep_view().to_set().union(
                        export_unresolved_prefix(rev, k as int + 1, cur, bu, root, pk, ix),
                    ));
                }
            },
            Export::AllFrom(sp) => {
                match resolve_import_path(path, sp, tsconfig, package_path, packages, index) {
                    Err(e) => {
                        proof {
                            assert(export_err_of(rev[k as int], cur, bu, root, pk, ix) == Some(
                                e.deep_view(),
                            ));
                            assert(rev.to_set().contains(rev[k as int]));
                        }
                        return Err(e);
                    },
                    Ok(None) => {
                        vec_set_insert(unresolved_paths, sp.clone());
                        proof {
                            lemma_export_step(rev, k as int, cur, bu, root, pk, ix);
                            assert(export_step_set(rev[k as int], cur, bu, root, pk, ix) =~= Set::<
                                ExportV<Seq<char>>,
                            >::empty());
                            assert(export_unres_step(rev[k as int], cur, bu, root, pk, ix) =~= Set::<
                                Seq<char>,
                            >::empty().insert(sp@));
                            assert(exports.deep_view().to_set() =~= resolved_exports_prefix(
                                rev,
                                k as int + 1,
                                cur,
                                bu,
                                root,
                                pk,
                                ix,
                            ));
                            assert(unresolved_paths.deep_view().to_set() =~= old(
                                unresolved_paths,
                            ).deep_view().to_set().union(
                                export_unresolved_prefix(rev, k as int + 1, cur, bu, root, pk, ix),
                            ));
                        }
                    },
                    Ok(Some(p)) => {
                        let ghost pv = p@;
                        vec_set_insert(&mut exports, Export::AllFrom(p));
                        proof {
                            lemma_export_step(rev, k as int, cur, bu, root, pk, ix);
                            assert(export_step_set(rev[k as int], cur, bu, root, pk, ix) =~= Set::<
                                ExportV<Seq<char>>,
                            >::empty().insert(ExportV::AllFrom(pv)));
                            assert(export_unres_step(rev[k as int], cur, bu, root, pk, ix) =~= Set::<
                                Seq<char>,
                            >::empty());
                            assert(exports.deep_view().to_set() =~= resolved_exports_prefix(
                                rev,
                                k as int + 1,
                                cur,
                                bu,
                                root,
                                pk,
                                ix,
                            ));
                            assert(unresolved_paths.deep_view().to_set() =~= old(
                                unresolved_paths,
                            ).deep_view().to_set().union(
                                export_unresolved_prefix(rev, k as int + 1, cur, bu, root, pk, ix),
                            ));
                        }
                    },
                }
            },
            Export::Reexport(rx) => {
                let sp = &rx.from;
                match resolve_import_path(path, sp, tsconfig, package_path, packages, index) {
                    Err(e) => {
                        proof {
                            assert(export_err_of(rev[k as int], cur, bu, root, pk, ix) == Some(
                                e.deep_view(),
                            ));
                            assert(rev.to_set().contains(rev[k as int]));
                        }
                        return Err(e);
                    },
                    Ok(None) => {
                        vec_set_insert(unresolved_paths, sp.clone());
                        proof {
                            lemma_export_step(rev, k as int, cur, bu, root, pk, ix);
                            assert(export_step_set(rev[k as int], cur, bu, root, pk, ix) =~= Set::<
                                ExportV<Seq<char>>,
                            >::empty());
                            assert(export_unres_step(rev[k as int], cur, bu, root, pk, ix) =~= Set::<
                                Seq<char>,
                            >::empty().insert(sp@));
                            assert(exports.deep_view().to_set() =~= resolved_exports_prefix(
                                rev,
                                k as int + 1,
                                cur,
                                bu,
                                root,
                                pk,
                                ix,
                            ));
                            assert(unresolved_paths.deep_view().to_set() =~= old(
                                unresolved_paths,
                            ).deep_view().to_set().union(
                                export_unresolved_prefix(rev, k as int + 1, cur, bu, root, pk, ix),
                            ));
                        }
                    },
                    Ok(Some(p)) => {
                        let ghost pv = p@;
                        vec_set_insert(&mut exports, Export::Reexport(Reexport { from: p }));
                        proof {
                            lemma_export_step(rev, k as int, cur, bu, root, pk, ix);
                            assert(export_step_set(rev[k as int], cur, bu, root, pk, ix) =~= Set::<
                                ExportV<Seq<char>>,
                            >::empty().insert(ExportV::Reexport(pv)));
                            assert(export_unres_step(rev[k as int], cur, bu, root, pk, ix) =~= Set::<
                                Seq<char>,
                            >::empty());
                            assert(exports.deep_view().to_set() =~= resolved_exports_prefix(
                                rev,
                                k as int + 1,
                                cur,
                                bu,
                                root,
                                pk,
                                ix,
                            ));
                            assert(unresolved_paths.deep_view().to_set() =~= old(
                                unresolved_paths,
                            ).deep_view().to_set().union(
                                export_unresolved_prefix(rev, k as int + 1, cur, bu, root, pk, ix),
                            ));
                        }
                    },
                }
            },
        }
        k += 1;
    }
    proof {
        lemma_export_bridge(rev, cur, bu, root, pk, ix);
    }
    let ghost after_exports_un = unresolved_paths.deep_view().to_set();
    let mut imports: Vec<ImportedSymbol<String>> = Vec::new();
    let inn = raw_imports.len();
    let mut k2: usize = 0;
    proof {
        assert(imports.deep_view().to_set() =~= resolved_imports_prefix(
            riv,
            0,
            cur,
            bu,
            root,
            pk,
            ix,
        ));
        assert(unresolved_paths.deep_view().to_set() =~= after_exports_un.union(
            import_unresolved_prefix(riv, 0, cur, bu, root, pk, ix),
        ));
    }
    while k2 < inn
        invariant
            inn == raw_imports@.len(),
            k2 <= inn,
            riv == raw_imports.deep_view(),
            cur == path@,
            bu == spec_base_url(*tsconfig),
            root == package_path@,
            pk == packages.deep_view(),
            ix == index.deep_view(),
            riv.to_set() == imports_of_module(*module),
            after_exports_un == old(unresolved_paths).deep_view().to_set().union(
                export_unresolved_prefix(rev, rev.len() as int, cur, bu, root, pk, ix),
            ),
            distinct_seq(imports@),
            distinct_seq(unresolved_paths@),
            imports.deep_view().to_set() == resolved_imports_prefix(
                riv,
                k2 as int,
                cur,
                bu,
                root,
                pk,
                ix,
            ),
            unresolved_paths.deep_view().to_set() == after_exports_un.union(
                import_unresolved_prefix(riv, k2 as int, cur, bu, root, pk, ix),
            ),
            import_prefix_ok(riv, k2 as int, cur, bu, root, pk, ix),
        decreases inn - k2,
    {
        proof {
            assert(riv[k2 as int] == raw_imports@[k2 as int].deep_view());
        }
        let entry = &raw_imports[k2];
        match resolve_import_path(path, &entry.from, tsconfig, package_path, packages, index) {
            Err(e) => {
                proof {
                    assert(import_err_of(riv[k2 as int], cur, bu, root, pk, ix) == Some(
                        e.deep_view(),
                    ));
                    assert(riv.to_set().contains(riv[k2 as int]));
                    assert(old(unresolved_paths).deep_view().to_set().subset_of(
                        unresolved_paths.deep_view().to_set(),
                    ));
                }
                return Err(e);
            },
            Ok(None) => {
                vec_set_insert(unresolved_paths, entry.from.clone());
                proof {
                    lemma_import_step(riv, k2 as int, cur, bu, root, pk, ix);
                    assert(import_step_set(riv[k2 as int], cur, bu, root, pk, ix) =~= Set::<
                        ImportedSymbolV<Seq<char>>,
                    >::empty());
                    assert(import_unres_step(riv[k2 as int], cur, bu, root, pk, ix) =~= Set::<
                        Seq<char>,
                    >::empty().insert(entry.from@));
                    assert(imports.deep_view().to_set() =~= resolved_imports_prefix(
                        riv,
                        k2 as int + 1,
                        cur,
                        bu,
                        root,
                        pk,
                        ix,
                    ));
                    assert(unresolved_paths.deep_view().to_set() =~= after_exports_un.union(
                        import_unresolved_prefix(riv, k2 as int + 1, cur, bu, root, pk, ix),
                    ));
                }
            },
            Ok(Some(p)) => {
                let ghost pv = p@;
                let cloned = crate::analyze_file::clone_imports(&entry.symbols);
                let resolved_entry = ImportedSymbol { symbols: cloned, from: p };
                proof {
                    assert(resolved_entry.deep_view() == (ImportedSymbolV {
                        symbols: riv[k2 as int].symbols,
                        from: pv,
                    }));
                }
                vec_set_insert(&mut imports, resolved_entry);
                proof {
                    lemma_import_step(riv, k2 as int, cur, bu, root, pk, ix);
                    assert(import_step_set(riv[k2 as int], cur, bu, root, pk, ix) =~= Set::<
                        ImportedSymbolV<Seq<char>>,
                    >::empty().insert(
                        ImportedSymbolV { symbols: riv[k2 as int].symbols, from: pv },
                    ));
                    assert(import_unres_step(riv[k2 as int], cur, bu, root, pk, ix) =~= Set::<
                        Seq<char>,
                    >::empty());
                    assert(imports.deep_view().to_set() =~= resolved_imports_prefix(
                        riv,
                        k2 as int + 1,
                        cur,
                        bu,
                        root,
                        pk,
                        ix,
                    ));
                    assert(unresolved_paths.deep_view().to_set() =~= after_exports_un.union(
                        import_unresolved_prefix(riv, k2 as int + 1, cur, bu, root, pk, ix),
                    ));
                }
            },
        }
        k2 += 1;
    }
    proof {
        lemma_import_bridge(riv, cur, bu, root, pk, ix);
        assert(unresolved_paths.deep_view().to_set() =~= old(
            unresolved_paths,
        ).deep_view().to_set().union(unresolved_of_module(*module, cur, bu, root, pk, ix)));
        assert(module_error_free(*module, cur, bu, root, pk, ix)) by {
            assert forall|raw_e: ExportV<Seq<char>>|
                #[trigger] exports_of_module(*module).contains(raw_e) implies export_err_of(
                raw_e,
                cur,
                bu,
                root,
                pk,
                ix,
            ) is None by {
                let kk = choose|kk: int| 0 <= kk < rev.len() && rev[kk] == raw_e;
                assert(export_err_of(rev[kk], cur, bu, root, pk, ix) is None);
            }
            assert forall|raw_en: ImportedSymbolV<Seq<char>>|
                #[trigger] imports_of_module(*module).contains(raw_en) implies import_err_of(
                raw_en,
                cur,
                bu,
                root,
                pk,
                ix,
            ) is None by {
                let kk = choose|kk: int| 0 <= kk < riv.len() && riv[kk] == raw_en;
                assert(import_err_of(riv[kk], cur, bu, root, pk, ix) is None);
            }
        }
    }
    let new_symbols = ModuleSymbols { usages, exports, imports };
    Ok(AnalyzedModule { path: mpath, symbols: new_symbols })
}

/// The files an exclude pattern does not remove, in order.
pub open spec fn spec_retained(files: Seq<(String, Module)>, pats: Seq<Seq<char>>) -> Seq<
    (String, Module),
>
    decreases files.len(),
{
    if files.len() == 0 {
        Seq::empty()
    } else {
        let init = spec_retained(files.drop_last(), pats);
        if any_pattern_matches(pats, files.last().0@) {
            init
        } else {
            init.push(files.last())
        }
    }
}

/// The specifiers a sequence of retained files leaves unresolved.
pub open spec fn unresolved_union(
    rf: Seq<(String, Module)>,
    base_url: Option<Seq<char>>,
    root: Seq<char>,
    pkgs: Seq<PackageV>,
    idx: crate::resolve_import_path::FileIndexV,
) -> Set<Seq<char>>
    decreases rf.len(),
{
    if rf.len() == 0 {
        Set::empty()
    } else {
        unresolved_union(rf.drop_last(), base_url, root, pkgs, idx).union(
            unresolved_of_module(rf.last().1, rf.last().0@, base_url, root, pkgs, idx),
        )
    }
}

/// One module of the graph is the resolved record of one retained file.
pub open spec fn module_matches(
    m: AnalyzedModule<String>,
    f: (String, Module),
    base_url: Option<Seq<char>>,
    root: Seq<char>,
    pkgs: Seq<PackageV>,
    idx: crate::resolve_import_path::FileIndexV,
) -> bool {
    &&& m.path@ == f.0@
    &&& m.symbols.wf()
    &&& m.symbols.usage_set() == usages_of_module(module_import_bindings(f.1), f.1)
    &&& m.symbols.export_set() == resolved_exports(
        exports_of_module(f.1),
        f.0@,
        base_url,
        root,
        pkgs,
        idx,
    )
    &&& m.symbols.import_set() == resolved_imports(
        imports_of_module(f.1),
        f.0@,
        base_url,
        root,
        pkgs,
        idx,
    )
    &&& module_error_free(f.1, f.0@, base_url, root, pkgs, idx)
}

/// The modules of the graph are, in order, the resolved records of the
/// retained files.
pub open spec fn modules_match(
    modules: Seq<AnalyzedModule<String>>,
    rf: Seq<(String, Module)>,
    base_url: Option<Seq<char>>,
    root: Seq<char>,
    pkgs: Seq<PackageV>,
    idx: crate::resolve_import_path::FileIndexV,
) -> bool {
    &&& modules.len() == rf.len()
    &&& forall|i: int|
        0 <= i < rf.len() ==> module_matches(
            #[trigger] modules[i],
            rf[i],
            base_url,
            root,
            pkgs,
            idx,
        )
}

/// Every retained file is one of the given files.
pub open spec fn retained_from(rf: Seq<(String, Module)>, files: Seq<(String, Module)>) -> bool {
    forall|b: int|
        0 <= b < rf.len() ==> exists|k: int| 0 <= k < files.len() && (#[trigger] rf[b]) == files[k]
}

/// Retention keeps the files' paths pairwise distinct.
pub proof fn lemma_retained_distinct(files: Seq<(String, Module)>, pats: Seq<Seq<char>>)
    requires
        forall|i: int, j: int| 0 <= i < j < files.len() ==> (#[trigger] files[i]).0@ != (
        #[trigger] files[j]).0@,
    ensures
        retained_from(spec_retained(files, pats), files),
        forall|i: int, j: int|
            0 <= i < j < spec_retained(files, pats).len() ==> (#[trigger] spec_retained(
                files,
                pats,
            )[i]).0@ != (#[trigger] spec_retained(files, pats)[j]).0@,
    decreases files.len(),
{
    if files.len() > 0 {
        let init = files.drop_last();
        lemma_retained_distinct(init, pats);
        let rf0 = spec_retained(init, pats);
        let rf = spec_retained(files, pats);
        assert forall|b: int| 0 <= b < rf.len() implies exists|k: int|
            0 <= k < files.len() && (#[trigger] rf[b]) == files[k] by {
            if b < rf0.len() {
                assert(rf[b] == rf0[b]);
                assert(exists|k: int| 0 <= k < init.len() && (#[trigger] rf0[b]) == init[k]);
                let k2 = choose|k2: int| 0 <= k2 < init.len() && rf0[b] == init[k2];
                assert(files[k2] == init[k2]);
            } else {
                assert(rf[b] == files.last());
                assert(files[files.len() - 1] == files.last());
            }
        }
        assert forall|i: int, j: int| 0 <= i < j < rf.len() implies (#[trigger] rf[i]).0@ != (
        #[trigger] rf[j]).0@ by {
            if j < rf0.len() {
                assert(rf0[i].0@ != rf0[j].0@);
            } else {
                assert(rf[j] == files.last());
                let k = choose|k: int| 0 <= k < init.len() && rf0[i] == init[k];
                assert(files[k].0@ != files[files.len() - 1].0@);
            }
        }
    }
}

/// Analyzes one package: files matching an exclude pattern are removed from
/// the graph entirely; every other file's record is resolved into the
/// module graph, and the specifiers that resolved to nothing are collected
/// as diagnostics.
pub fn analyze_package(
    path: &String,
    tsconfig: &Option<TsConfig>,
    options: &AnalyzeOptions,
    packages: &Vec<Package>,
    index: &FileIndex,
    files: &Vec<(String, Module)>,
) -> (r: Result<AnalyzedPackage, ResolveError>)
    requires
        forall|i: int, j: int| 0 <= i < j < files@.len() ==> (#[trigger] files@[i]).0@ != (
        #[trigger] files@[j]).0@,
    ensures
        match r {
            Ok(pkg) => {
                &&& pkg.path@ == path@
                &&& pkg.wf()
                &&& modules_match(
                    pkg.modules@,
                    spec_retained(files@, options.exclude_patterns.deep_view()),
                    spec_base_url(*tsconfig),
                    path@,
                    packages.deep_view(),
                    index.deep_view(),
                )
                &&& pkg.unresolved_paths.deep_view().to_set() == unresolved_union(
                    spec_retained(files@, options.exclude_patterns.deep_view()),
                    spec_base_url(*tsconfig),
                    path@,
                    packages.deep_view(),
                    index.deep_view(),
                )
            },
            Err(e) => exists|i: int|
                0 <= i < files@.len() && module_has_error(
                    (#[trigger] files@[i]).1,
                    e.deep_view(),
                    files@[i].0@,
                    spec_base_url(*tsconfig),
                    path@,
                    packages.deep_view(),
                    index.deep_view(),
                ),
        },
{
    let ghost bu = spec_base_url(*tsconfig);
    let ghost root = path@;
    let ghost pk = packages.deep_view();
    let ghost ix = index.deep_view();
    let ghost pats = options.exclude_patterns.deep_view();
    let mut modules: Vec<AnalyzedModule<String>> = Vec::new();
    let mut unresolved_paths: Vec<String> = Vec::new();
    let n = files.len();
    let mut i: usize = 0;
    proof {
        assert(files@.take(0) =~= Seq::<(String, Module)>::empty());
        assert(unresolved_paths.deep_view().to_set() =~= unresolved_union(
            spec_retained(files@.take(0), pats),
            bu,
            root,
            pk,
            ix,
        ));
    }
    while i < n
        invariant
            n == files@.len(),
            i <= n,
            bu == spec_base_url(*tsconfig),
            root == path@,
            pk == packages.deep_view(),
            ix == index.deep_view(),
            pats == options.exclude_patterns.deep_view(),
            forall|a: int, b: int| 0 <= a < b < files@.len() ==> (#[trigger] files@[a]).0@ != (
            #[trigger] files@[b]).0@,
            distinct_seq(unresolved_paths@),
            modules_match(modules@, spec_retained(files@.take(i as int), pats), bu, root, pk, ix),
            unresolved_paths.deep_view().to_set() == unresolved_union(
                spec_retained(files@.take(i as int), pats),
                bu,
                root,
                pk,
                ix,
            ),
            retained_from(spec_retained(files@.take(i as int), pats), files@.take(i as int)),
            forall|a: int, b: int|
                0 <= a < b < spec_retained(files@.take(i as int), pats).len() ==> (
                #[trigger] spec_retained(files@.take(i as int), pats)[a]).0@ != (
                #[trigger] spec_retained(files@.take(i as int), pats)[b]).0@,
        decreases n - i,
    {
        let ghost upto = files@.take(i as int);
        let ghost upto1 = files@.take(i as int + 1);
        proof {
            assert(upto1.drop_last() =~= upto);
            assert(upto1.last() == files@[i as int]);
        }
        let fpath = &files[i].0;
        if !matches_any(&options.exclude_patterns, fpath.as_str()) {
            match analyze_module_with_path_resolve(
                fpath,
                &files[i].1,
                tsconfig,
                path,
                packages,
                index,
                &mut unresolved_paths,
            ) {
                Err(e) => {
                    return Err(e);
                },
                Ok(m) => {
                    let ghost prev_modules = modules@;
                    modules.push(m);
                    proof {
                        let rf1 = spec_retained(upto1, pats);
                        assert(rf1 =~= spec_retained(upto, pats).push(files@[i as int]));
                        assert(rf1.drop_last() =~= spec_retained(upto, pats));
                        assert(rf1.last() == files@[i as int]);
                        assert(unresolved_paths.deep_view().to_set() =~= unresolved_union(
                            rf1,
                            bu,
                            root,
                            pk,
                            ix,
                        ));
                        assert(modules@ =~= prev_modules.push(m));
                        assert forall|b: int| 0 <= b < rf1.len() implies module_matches(
                            #[trigger] modules@[b],
                            rf1[b],
                            bu,
                            root,
                            pk,
                            ix,
                        ) by {
                            if b < rf1.len() - 1 {
                                assert(modules@[b] == prev_modules[b]);
                                assert(rf1[b] == spec_retained(upto, pats)[b]);
                            } else {
                                assert(modules@[b] == m);
                                assert(rf1[b] == files@[i as int]);
                            }
                        }
                        lemma_retained_distinct(upto1, pats);
                    }
                },
            }
        } else {
            proof {
                assert(spec_retained(upto1, pats) =~= spec_retained(upto, pats));
                lemma_retained_distinct(upto1, pats);
            }
        }
        i += 1;
    }
    proof {
        assert(files@.take(n as int) =~= files@);
    }
    let pkg = AnalyzedPackage { path: path.clone(), modules, unresolved_paths };
    proof {
        let rf = spec_retained(files@, pats);
        assert forall|a: int, b: int| 0 <= a < b < pkg.modules@.len() implies (
        #[trigger] pkg.modules@[a]).path@ != (#[trigger] pkg.modules@[b]).path@ by {
            assert(module_matches(pkg.modules@[a], rf[a], bu, root, pk, ix));
            assert(module_matches(pkg.modules@[b], rf[b], bu, root, pk, ix));
            assert(rf[a].0@ != rf[b].0@);
        }
        assert forall|a: int| 0 <= a < pkg.modules@.len() implies (
        #[trigger] pkg.modules@[a]).symbols.wf() by {
            assert(module_matches(pkg.modules@[a], rf[a], bu, root, pk, ix));
        }
    }
    Ok(pkg)
}

/// Whether the path ends in `.` followed by one of the source extensions
/// the analysis scans.
pub open spec fn has_source_extension(s: Seq<char>) -> bool {
    exists|i: int|
        0 <= i < crate::resolve_import_path::spec_extensions().len() && (seq!['.']
            + #[trigger] crate::resolve_import_path::spec_extensions()[i]).is_suffix_of(s)
}

/// Whether `suffix` ends `s`.
fn str_ends_with(s: &str, suffix: &str) -> (r: bool)
    ensures
        r == suffix@.is_suffix_of(s@),
{
    let sn = s.unicode_len();
    let mn = suffix.unicode_len();
    if mn > sn {
        assert(!suffix@.is_suffix_of(s@));
        return false;
    }
    let mut k: usize = 0;
    while k < mn
        invariant
            sn == s@.len(),
            mn == suffix@.len(),
            mn <= sn,
            k <= mn,
            forall|j: int| 0 <= j < k ==> s@[sn - mn + j] == suffix@[j],
        decreases mn - k,
    {
        if s.get_char(sn - mn + k) != suffix.get_char(k) {
            assert(s@.subrange(sn - mn, sn as int)[k as int] != suffix@[k as int]);
            return false;
        }
        k += 1;
    }
    proof {
        assert(s@.subrange(sn - mn, sn as int) =~= suffix@);
    }
    true
}

/// Whether the file at `path` is a source module the analysis scans,
/// decided by its extension.  The traversal keeps exactly these files.
pub fn is_source_file(path: &String) -> (r: bool)
    ensures
        r == has_source_extension(path@),
{
    let t = path.as_str();
    proof {
        reveal_strlit(".ts");
        reveal_strlit(".tsx");
        reveal_strlit(".js");
        reveal_strlit(".jsx");
        reveal_strlit(".mjs");
        reveal_strlit(".mts");
        assert(".ts"@ =~= seq!['.'] + crate::resolve_import_path::spec_extensions()[0]);
        assert(".tsx"@ =~= seq!['.'] + crate::resolve_import_path::spec_extensions()[1]);
        assert(".js"@ =~= seq!['.'] + crate::resolve_import_path::spec_extensions()[2]);
        assert(".jsx"@ =~= seq!['.'] + crate::resolve_import_path::spec_extensions()[3]);
        assert(".mjs"@ =~= seq!['.'] + crate::resolve_import_path::spec_extensions()[4]);
        assert(".mts"@ =~= seq!['.'] + crate::resolve_import_path::spec_extensions()[5]);
    }
    let r = str_ends_with(t, ".ts") || str_ends_with(t, ".tsx") || str_ends_with(t, ".js")
        || str_ends_with(t, ".jsx") || str_ends_with(t, ".mjs") || str_ends_with(t, ".mts");
    proof {
        if !r {
            assert forall|i: int|
                0 <= i < crate::resolve_import_path::spec_extensions().len() implies !(seq!['.']
                + #[trigger] crate::resolve_import_path::spec_extensions()[i]).is_suffix_of(
                path@,
            ) by {
                if i == 0 {
                } else if i == 1 {
                } else if i == 2 {
                } else if i == 3 {
                } else if i == 4 {
                } else {
                    assert(i == 5);
                }
            }
        }
    }
    r
}

/// Whether the path is the configured build-output directory of the
/// package; the traversal skips it.
pub fn is_build_output(path: &String, out_dir: &Option<String>) -> (r: bool)
    ensures
        r == (match out_dir {
            Some(o) => o@ == path@,
            None => false,
        }),
{
    match out_dir {
        Some(o) => *o == *path,
        None => false,
    }
}

} // verus!
