//! The properties the analysis warrants, stated and proved once and for
//! all: determinism of the report, reachability through named imports and
//! through one wildcard re-export hop, the precision of namespace-usage
//! refinement, the harmlessness of unresolved specifiers, the difference
//! between ignoring and excluding a file, the fixed extension order, and
//! the distinctness of the default-export marker.

use vstd::prelude::*;

use crate::analyze_package::import_err_of;
use crate::analyze_package::spec_retained;
use crate::analyze_package::unresolved_of_module;
use crate::analyze_file::imports_of_module;
use crate::analyzed_module::AnalyzedModule;
use crate::ast::Module;
use crate::find_unused_exports::AnalysisErrorV;
use crate::find_unused_exports::SymbolV;
use crate::find_unused_exports::all_imports;
use crate::find_unused_exports::check_exports_closed;
use crate::find_unused_exports::check_graph_closed;
use crate::find_unused_exports::check_modules_closed;
use crate::find_unused_exports::all_imports_from;
use crate::find_unused_exports::all_exports;
use crate::find_unused_exports::entry_pairs;
use crate::find_unused_exports::export_pairs_of_modules;
use crate::find_unused_exports::find_module;
use crate::find_unused_exports::find_module_pkgs;
use crate::find_unused_exports::hop_pairs;
use crate::find_unused_exports::import_pairs_of_entries;
use crate::find_unused_exports::import_pairs_of_module;
use crate::find_unused_exports::import_pairs_of_modules;
use crate::find_unused_exports::pairs_of_exports;
use crate::find_unused_exports::resolve_import_pairs;
use crate::find_unused_exports::unused_export_pairs;
use crate::module_symbols::ExportV;
use crate::module_symbols::ImportV;
use crate::module_symbols::ImportedSymbolV;
use crate::module_symbols::UsageV;
use crate::analyze_package::AnalyzedPackage;
use crate::patterns::any_pattern_matches;
use crate::report::kept_exports;
use crate::resolve_import_path::FileIndexV;
use crate::resolve_import_path::ResolveErrorV;
use crate::resolve_import_path::spec_resolve_import_path;
use crate::resolve_import_path::dir_exists_at;
use crate::resolve_import_path::file_exists_at;
use crate::resolve_import_path::spec_extensions;
use crate::resolve_import_path::spec_resolve_candidates;
use crate::resolve_import_path::spec_with_ext;
use crate::find_unused_exports::UnusedExport;

verus! {

/// When the pairs of an import binding list are computed without error,
/// each binding's own pairs are computed without error and lie inside the
/// whole.
proof fn lemma_entry_at(
    symbols: Seq<ImportV>,
    from: Seq<char>,
    usages: Set<UsageV>,
    packages: Seq<AnalyzedPackage>,
    total: Set<(SymbolV, Seq<char>)>,
    b: int,
)
    requires
        entry_pairs(symbols, from, usages, packages) == Ok::<
            Set<(SymbolV, Seq<char>)>,
            AnalysisErrorV,
        >(total),
        0 <= b < symbols.len(),
    ensures
        resolve_import_pairs(symbols[b], from, usages, packages) matches Ok(sb) && sb.subset_of(
            total,
        ),
    decreases symbols.len(),
{
    let head = resolve_import_pairs(symbols[0], from, usages, packages);
    let rest = entry_pairs(symbols.drop_first(), from, usages, packages);
    if b == 0 {
        assert(head matches Ok(h) && rest matches Ok(rs) && total == h.union(rs));
    } else {
        match rest {
            Ok(rs) => {
                lemma_entry_at(symbols.drop_first(), from, usages, packages, rs, b - 1);
                assert(symbols.drop_first()[b - 1] == symbols[b]);
            },
            Err(_) => {
                assert(false);
            },
        }
    }
}

/// When the pairs of a module's import statements are computed without
/// error, each statement's own pairs lie inside the whole.
proof fn lemma_entries_at(
    entries: Seq<ImportedSymbolV<Seq<char>>>,
    usages: Set<UsageV>,
    packages: Seq<AnalyzedPackage>,
    total: Set<(SymbolV, Seq<char>)>,
    k: int,
)
    requires
        import_pairs_of_entries(entries, usages, packages) == Ok::<
            Set<(SymbolV, Seq<char>)>,
            AnalysisErrorV,
        >(total),
        0 <= k < entries.len(),
    ensures
        entry_pairs(entries[k].symbols, entries[k].from, usages, packages) matches Ok(sk)
            && sk.subset_of(total),
    decreases entries.len(),
{
    let head = entry_pairs(entries[0].symbols, entries[0].from, usages, packages);
    let rest = import_pairs_of_entries(entries.drop_first(), usages, packages);
    if k == 0 {
        assert(head matches Ok(h) && rest matches Ok(rs) && total == h.union(rs));
    } else {
        match rest {
            Ok(rs) => {
                lemma_entries_at(entries.drop_first(), usages, packages, rs, k - 1);
                assert(entries.drop_first()[k - 1] == entries[k]);
            },
            Err(_) => {
                assert(false);
            },
        }
    }
}

/// When the pairs of a module list are computed without error, each
/// module's own pairs lie inside the whole.
proof fn lemma_modules_at(
    ms: Seq<AnalyzedModule<String>>,
    packages: Seq<AnalyzedPackage>,
    total: Set<(SymbolV, Seq<char>)>,
    k: int,
)
    requires
        import_pairs_of_modules(ms, packages) == Ok::<
            Set<(SymbolV, Seq<char>)>,
            AnalysisErrorV,
        >(total),
        0 <= k < ms.len(),
    ensures
        import_pairs_of_module(ms[k], packages) matches Ok(sk) && sk.subset_of(total),
    decreases ms.len(),
{
    let head = import_pairs_of_module(ms[0], packages);
    let rest = import_pairs_of_modules(ms.drop_first(), packages);
    if k == 0 {
        assert(head matches Ok(h) && rest matches Ok(rs) && total == h.union(rs));
    } else {
        match rest {
            Ok(rs) => {
                lemma_modules_at(ms.drop_first(), packages, rs, k - 1);
                assert(ms.drop_first()[k - 1] == ms[k]);
            },
            Err(_) => {
                assert(false);
            },
        }
    }
}

/// When the workspace's import pairs are computed without error, each
/// package's own pairs lie inside the whole.
proof fn lemma_packages_at(
    rest_pkgs: Seq<AnalyzedPackage>,
    packages: Seq<AnalyzedPackage>,
    total: Set<(SymbolV, Seq<char>)>,
    k: int,
)
    requires
        all_imports_from(rest_pkgs, packages) == Ok::<
            Set<(SymbolV, Seq<char>)>,
            AnalysisErrorV,
        >(total),
        0 <= k < rest_pkgs.len(),
    ensures
        import_pairs_of_modules(rest_pkgs[k].modules@, packages) matches Ok(sk) && sk.subset_of(
            total,
        ),
    decreases rest_pkgs.len(),
{
    let head = import_pairs_of_modules(rest_pkgs[0].modules@, packages);
    let rest = all_imports_from(rest_pkgs.drop_first(), packages);
    if k == 0 {
        assert(head matches Ok(h) && rest matches Ok(rs) && total == h.union(rs));
    } else {
        match rest {
            Ok(rs) => {
                lemma_packages_at(rest_pkgs.drop_first(), packages, rs, k - 1);
                assert(rest_pkgs.drop_first()[k - 1] == rest_pkgs[k]);
            },
            Err(_) => {
                assert(false);
            },
        }
    }
}

/// When one re-export hop is computed without error, each forwarding edge
/// whose target directly exports the name contributes its pair.
proof fn lemma_hop_at(
    exs: Seq<ExportV<Seq<char>>>,
    s: Seq<char>,
    packages: Seq<AnalyzedPackage>,
    total: Set<(SymbolV, Seq<char>)>,
    j: int,
    u: Seq<char>,
)
    requires
        hop_pairs(exs, s, packages) == Ok::<Set<(SymbolV, Seq<char>)>, AnalysisErrorV>(total),
        0 <= j < exs.len(),
        exs[j] == ExportV::<Seq<char>>::AllFrom(u),
        find_module_pkgs(packages, u) matches Some(um) && um.export_set().contains(
            ExportV::<Seq<char>>::Symbol(s),
        ),
    ensures
        total.contains((SymbolV::Symbol(s), u)),
    decreases exs.len(),
{
    let rest = hop_pairs(exs.drop_first(), s, packages);
    if j == 0 {
        assert(rest matches Ok(rs) && total == Set::<(SymbolV, Seq<char>)>::empty().insert(
            (SymbolV::Symbol(s), u),
        ).union(rs));
    } else {
        match rest {
            Ok(rs) => {
                lemma_hop_at(exs.drop_first(), s, packages, rs, j - 1, u);
                assert(exs.drop_first()[j - 1] == exs[j]);
            },
            Err(_) => {
                assert(false);
            },
        }
    }
}

/// A named import's own name at its resolved target always lies among the
/// pairs it reaches.
proof fn lemma_named_base(
    x: Seq<char>,
    from: Seq<char>,
    usages: Set<UsageV>,
    packages: Seq<AnalyzedPackage>,
    sb: Set<(SymbolV, Seq<char>)>,
)
    requires
        resolve_import_pairs(ImportV::Named(x), from, usages, packages) == Ok::<
            Set<(SymbolV, Seq<char>)>,
            AnalysisErrorV,
        >(sb),
    ensures
        sb.contains((SymbolV::Symbol(x), from)),
{
    let base = Set::<(SymbolV, Seq<char>)>::empty().insert((SymbolV::Symbol(x), from));
    assert(base.contains((SymbolV::Symbol(x), from)));
    match find_module_pkgs(packages, from) {
        None => {},
        Some(tm) => {
            if !tm.export_set().contains(ExportV::Symbol(x)) {
                match hop_pairs(tm.exports.deep_view(), x, packages) {
                    Ok(hs) => {
                        assert(sb == base.union(hs));
                    },
                    Err(_) => {
                        assert(false);
                    },
                }
            }
        },
    }
}

/// The analysis is deterministic: on one and the same workspace it always
/// yields one and the same set of unused exports.
pub proof fn lemma_analysis_deterministic(
    packages: Seq<AnalyzedPackage>,
    d1: Set<(SymbolV, Seq<char>)>,
    d2: Set<(SymbolV, Seq<char>)>,
)
    requires
        unused_export_pairs(packages) == Ok::<Set<(SymbolV, Seq<char>)>, AnalysisErrorV>(d1),
        unused_export_pairs(packages) == Ok::<Set<(SymbolV, Seq<char>)>, AnalysisErrorV>(d2),
    ensures
        d1 == d2,
{
}

/// A named import reaches its name: when some module of the workspace holds
/// an import statement binding `Named(x)` from the resolved target
/// `en.from`, that exported symbol is used — it is never reported unused —
/// regardless of whether the importing module references `x` again in its
/// body.
pub proof fn lemma_named_import_reachability(
    packages: Seq<AnalyzedPackage>,
    pi: int,
    mi: int,
    en: ImportedSymbolV<Seq<char>>,
    b: int,
    x: Seq<char>,
    imps: Set<(SymbolV, Seq<char>)>,
)
    requires
        check_graph_closed(packages, packages) is Ok,
        all_imports(packages) == Ok::<Set<(SymbolV, Seq<char>)>, AnalysisErrorV>(imps),
        0 <= pi < packages.len(),
        0 <= mi < packages[pi].modules@.len(),
        packages[pi].modules@[mi].symbols.import_set().contains(en),
        0 <= b < en.symbols.len(),
        en.symbols[b] == ImportV::Named(x),
    ensures
        imps.contains((SymbolV::Symbol(x), en.from)),
        unused_export_pairs(packages) matches Ok(d) && !d.contains((SymbolV::Symbol(x), en.from)),
{
    lemma_packages_at(packages, packages, imps, pi);
    let s_pkg = import_pairs_of_modules(packages[pi].modules@, packages)->Ok_0;
    lemma_modules_at(packages[pi].modules@, packages, s_pkg, mi);
    let m = packages[pi].modules@[mi];
    let s_mod = import_pairs_of_module(m, packages)->Ok_0;
    let entries = m.symbols.imports.deep_view();
    assert(entries.contains(en));
    let k = choose|k: int| 0 <= k < entries.len() && entries[k] == en;
    lemma_entries_at(entries, m.symbols.usage_set(), packages, s_mod, k);
    let s_en = entry_pairs(en.symbols, en.from, m.symbols.usage_set(), packages)->Ok_0;
    lemma_entry_at(en.symbols, en.from, m.symbols.usage_set(), packages, s_en, b);
    let s_b = resolve_import_pairs(
        ImportV::Named(x),
        en.from,
        m.symbols.usage_set(),
        packages,
    )->Ok_0;
    lemma_named_base(x, en.from, m.symbols.usage_set(), packages, s_b);
}

/// Reachability propagates through one wildcard re-export hop: when a
/// module imports `Named(x)` from a target that does not export `x`
/// directly but forwards another module that does, the forwarded module's
/// export of `x` is used — it is never reported unused.
pub proof fn lemma_wildcard_reexport_transitivity(
    packages: Seq<AnalyzedPackage>,
    pi: int,
    mi: int,
    en: ImportedSymbolV<Seq<char>>,
    b: int,
    x: Seq<char>,
    pa: Seq<char>,
    imps: Set<(SymbolV, Seq<char>)>,
)
    requires
        check_graph_closed(packages, packages) is Ok,
        all_imports(packages) == Ok::<Set<(SymbolV, Seq<char>)>, AnalysisErrorV>(imps),
        0 <= pi < packages.len(),
        0 <= mi < packages[pi].modules@.len(),
        packages[pi].modules@[mi].symbols.import_set().contains(en),
        0 <= b < en.symbols.len(),
        en.symbols[b] == ImportV::Named(x),
        find_module_pkgs(packages, en.from) matches Some(bm) && {
            &&& !bm.export_set().contains(ExportV::<Seq<char>>::Symbol(x))
            &&& bm.export_set().contains(ExportV::<Seq<char>>::AllFrom(pa))
        },
        find_module_pkgs(packages, pa) matches Some(am) && am.export_set().contains(
            ExportV::<Seq<char>>::Symbol(x),
        ),
    ensures
        imps.contains((SymbolV::Symbol(x), pa)),
        unused_export_pairs(packages) matches Ok(d) && !d.contains((SymbolV::Symbol(x), pa)),
{
    lemma_packages_at(packages, packages, imps, pi);
    let s_pkg = import_pairs_of_modules(packages[pi].modules@, packages)->Ok_0;
    lemma_modules_at(packages[pi].modules@, packages, s_pkg, mi);
    let m = packages[pi].modules@[mi];
    let s_mod = import_pairs_of_module(m, packages)->Ok_0;
    let entries = m.symbols.imports.deep_view();
    assert(entries.contains(en));
    let k = choose|k: int| 0 <= k < entries.len() && entries[k] == en;
    lemma_entries_at(entries, m.symbols.usage_set(), packages, s_mod, k);
    let s_en = entry_pairs(en.symbols, en.from, m.symbols.usage_set(), packages)->Ok_0;
    lemma_entry_at(en.symbols, en.from, m.symbols.usage_set(), packages, s_en, b);
    let s_b = resolve_import_pairs(
        ImportV::Named(x),
        en.from,
        m.symbols.usage_set(),
        packages,
    )->Ok_0;
    let bm = find_module_pkgs(packages, en.from)->0;
    let base = Set::<(SymbolV, Seq<char>)>::empty().insert((SymbolV::Symbol(x), en.from));
    match hop_pairs(bm.exports.deep_view(), x, packages) {
        Ok(hs) => {
            assert(s_b == base.union(hs));
            let exs = bm.exports.deep_view();
            assert(exs.contains(ExportV::<Seq<char>>::AllFrom(pa)));
            let j = choose|j: int|
                0 <= j < exs.len() && exs[j] == ExportV::<Seq<char>>::AllFrom(pa);
            lemma_hop_at(exs, x, packages, hs, j, pa);
        },
        Err(_) => {
            assert(false);
        },
    }
}

/// Namespace refinement, positive half: a member recorded as used under a
/// namespace alias is reached at the import's target.
pub proof fn lemma_namespace_used_member(
    alias: Seq<char>,
    from: Seq<char>,
    memb: Seq<char>,
    usages: Set<UsageV>,
    packages: Seq<AnalyzedPackage>,
    sb: Set<(SymbolV, Seq<char>)>,
)
    requires
        resolve_import_pairs(ImportV::Namespace(alias), from, usages, packages) == Ok::<
            Set<(SymbolV, Seq<char>)>,
            AnalysisErrorV,
        >(sb),
        usages.contains(UsageV::Namespace(memb, alias)),
    ensures
        sb.contains((SymbolV::Symbol(memb), from)),
{
}

/// Namespace refinement, negative half: a namespace import reaches no
/// member that is not recorded as used under its alias — in particular, a
/// namespace import with no recorded usages reaches nothing, so the
/// target's other exports stay candidates for the unused report.
pub proof fn lemma_namespace_precision(
    alias: Seq<char>,
    from: Seq<char>,
    y: Seq<char>,
    usages: Set<UsageV>,
    packages: Seq<AnalyzedPackage>,
    sb: Set<(SymbolV, Seq<char>)>,
)
    requires
        resolve_import_pairs(ImportV::Namespace(alias), from, usages, packages) == Ok::<
            Set<(SymbolV, Seq<char>)>,
            AnalysisErrorV,
        >(sb),
        !usages.contains(UsageV::Namespace(y, alias)),
    ensures
        !sb.contains((SymbolV::Symbol(y), from)),
{
    if sb.contains((SymbolV::Symbol(y), from)) {
        let memb = choose|memb: Seq<char>|
            #[trigger] usages.contains(UsageV::Namespace(memb, alias)) && (
            (SymbolV::Symbol(y), from)) == ((SymbolV::Symbol(memb), from));
        assert(memb == y);
    }
}

/// An unresolved specifier is never fatal: an import whose specifier
/// resolves to nothing is recorded as a diagnostic of its module, and meets
/// no fatal resolver error, so the run completes.
pub proof fn lemma_unresolved_is_recorded(
    m: Module,
    en: ImportedSymbolV<Seq<char>>,
    current: Seq<char>,
    base_url: Option<Seq<char>>,
    root: Seq<char>,
    pkgs: Seq<crate::analyze_plan::PackageV>,
    idx: FileIndexV,
)
    requires
        imports_of_module(m).contains(en),
        spec_resolve_import_path(current, en.from, base_url, root, pkgs, idx) == Ok::<
            Option<Seq<char>>,
            ResolveErrorV,
        >(None),
    ensures
        unresolved_of_module(m, current, base_url, root, pkgs, idx).contains(en.from),
        import_err_of(en, current, base_url, root, pkgs, idx) is None,
{
    assert(crate::analyze_package::import_unresolved_spec(
        en,
        en.from,
        current,
        base_url,
        root,
        pkgs,
        idx,
    ));
}

/// Ignoring keeps nothing that matches: every finding surviving the ignore
/// patterns has a filename no pattern matches; the raw findings are
/// untouched, so a suppressed finding still counts there.
pub proof fn lemma_ignored_suppressed(us: Seq<UnusedExport>, patterns: Seq<Seq<char>>)
    ensures
        forall|j: int|
            0 <= j < kept_exports(us, patterns).len() ==> !any_pattern_matches(
                patterns,
                (#[trigger] kept_exports(us, patterns)[j]).deep_view().filename,
            ),
    decreases us.len(),
{
    if us.len() > 0 {
        lemma_ignored_suppressed(us.drop_last(), patterns);
        let init = kept_exports(us.drop_last(), patterns);
        let whole = kept_exports(us, patterns);
        if !any_pattern_matches(patterns, us.last().deep_view().filename) {
            assert forall|j: int| 0 <= j < whole.len() implies !any_pattern_matches(
                patterns,
                (#[trigger] whole[j]).deep_view().filename,
            ) by {
                if j < init.len() {
                    assert(whole[j] == init[j]);
                } else {
                    assert(whole[j] == us.last());
                }
            }
        }
    }
}

/// Excluding removes the file from the graph entirely: no retained file
/// carries an excluded file's path, so the file can neither export nor
/// import anything.
pub proof fn lemma_excluded_not_retained(
    files: Seq<(String, Module)>,
    pats: Seq<Seq<char>>,
    k: int,
)
    requires
        0 <= k < files.len(),
        any_pattern_matches(pats, files[k].0@),
        forall|i: int, j: int| 0 <= i < j < files.len() ==> (#[trigger] files[i]).0@ != (
        #[trigger] files[j]).0@,
    ensures
        forall|b: int|
            0 <= b < spec_retained(files, pats).len() ==> (#[trigger] spec_retained(
                files,
                pats,
            )[b]).0@ != files[k].0@,
    decreases files.len(),
{
    let rf = spec_retained(files, pats);
    if files.len() > 0 {
        let init = files.drop_last();
        let rf0 = spec_retained(init, pats);
        if k < files.len() - 1 {
            lemma_excluded_not_retained(init, pats, k);
            assert(init[k] == files[k]);
            assert forall|b: int| 0 <= b < rf.len() implies (#[trigger] rf[b]).0@ != files[k].0@ by {
                if b < rf0.len() {
                    assert(rf[b] == rf0[b]);
                } else {
                    assert(rf[b] == files.last());
                    assert(files[files.len() - 1].0@ != files[k].0@);
                }
            }
        } else {
            assert(rf == rf0);
            crate::analyze_package::lemma_retained_distinct(init, pats);
            assert forall|b: int| 0 <= b < rf.len() implies (#[trigger] rf[b]).0@ != files[k].0@ by {
                assert(exists|k2: int| 0 <= k2 < init.len() && (#[trigger] rf0[b]) == init[k2]);
                let k2 = choose|k2: int| 0 <= k2 < init.len() && rf0[b] == init[k2];
                assert(files[k2].0@ != files[k].0@);
            }
        }
    }
}

/// The extension order is a fixed tie-break: with no exact file and no
/// directory at the candidate path, a `ts` file wins over any later
/// extension, whatever else exists.
pub proof fn lemma_extension_order(idx: FileIndexV, segs: Seq<Seq<char>>)
    requires
        !dir_exists_at(idx, segs),
        file_exists_at(idx, segs) is None,
        file_exists_at(idx, spec_with_ext(segs, seq!['t', 's'])) is Some,
    ensures
        spec_resolve_candidates(idx, segs) == file_exists_at(
            idx,
            spec_with_ext(segs, seq!['t', 's']),
        ),
{
    assert(spec_extensions()[0] == seq!['t', 's']);
}

/// The default-export marker is a symbol kind of its own: it equals no
/// named symbol, not even one literally named "default".
pub proof fn lemma_default_marker_distinct(s: Seq<char>)
    ensures
        SymbolV::Default != SymbolV::Symbol(s),
{
}

/// Only named exports are reachability targets: every pair of the
/// workspace's export set carries a named symbol, so a default export can
/// only be matched by the default marker of a default import, never by a
/// named export called "default".
pub proof fn lemma_all_exports_named(packages: Seq<AnalyzedPackage>)
    ensures
        forall|pr: (SymbolV, Seq<char>)|
            #[trigger] all_exports(packages).contains(pr) ==> pr.0 is Symbol,
    decreases packages.len(),
{
    if packages.len() > 0 {
        lemma_all_exports_named(packages.drop_first());
        lemma_export_pairs_named(packages[0].modules@);
        assert forall|pr: (SymbolV, Seq<char>)| #[trigger] all_exports(packages).contains(pr)
            implies pr.0 is Symbol by {
            if export_pairs_of_modules(packages[0].modules@).contains(pr) {
            } else {
                assert(all_exports(packages.drop_first()).contains(pr));
            }
        }
    }
}

/// Every export pair of a module list carries a named symbol.
proof fn lemma_export_pairs_named(ms: Seq<AnalyzedModule<String>>)
    ensures
        forall|pr: (SymbolV, Seq<char>)|
            #[trigger] export_pairs_of_modules(ms).contains(pr) ==> pr.0 is Symbol,
    decreases ms.len(),
{
    if ms.len() > 0 {
        lemma_export_pairs_named(ms.drop_first());
        lemma_pairs_of_exports_named(ms[0].symbols.exports.deep_view(), ms[0].path@);
        assert forall|pr: (SymbolV, Seq<char>)|
            #[trigger] export_pairs_of_modules(ms).contains(pr) implies pr.0 is Symbol by {
            if pairs_of_exports(ms[0].symbols.exports.deep_view(), ms[0].path@).contains(pr) {
            } else {
                assert(export_pairs_of_modules(ms.drop_first()).contains(pr));
            }
        }
    }
}

/// Every pair contributed by a module's export list carries a named symbol.
proof fn lemma_pairs_of_exports_named(exs: Seq<ExportV<Seq<char>>>, path: Seq<char>)
    ensures
        forall|pr: (SymbolV, Seq<char>)|
            #[trigger] pairs_of_exports(exs, path).contains(pr) ==> pr.0 is Symbol,
    decreases exs.len(),
{
    if exs.len() > 0 {
        lemma_pairs_of_exports_named(exs.drop_first(), path);
        assert forall|pr: (SymbolV, Seq<char>)| #[trigger] pairs_of_exports(exs, path).contains(
            pr,
        ) implies pr.0 is Symbol by {
            if pairs_of_exports(exs.drop_first(), path).contains(pr) {
            } else {
                match exs[0] {
                    ExportV::Symbol(sname) => {
                        assert(pr == ((SymbolV::Symbol(sname), path)));
                    },
                    _ => {},
                }
            }
        }
    }
}

/// Namespace refinement end to end: a member recorded as used under a
/// namespace import's alias is reached at the import's target — it is never
/// reported unused.  Together with the negative half this pins the
/// refinement: exactly the recorded members count.
pub proof fn lemma_namespace_usage_reachability(
    packages: Seq<AnalyzedPackage>,
    pi: int,
    mi: int,
    en: ImportedSymbolV<Seq<char>>,
    b: int,
    alias: Seq<char>,
    x: Seq<char>,
    imps: Set<(SymbolV, Seq<char>)>,
)
    requires
        check_graph_closed(packages, packages) is Ok,
        all_imports(packages) == Ok::<Set<(SymbolV, Seq<char>)>, AnalysisErrorV>(imps),
        0 <= pi < packages.len(),
        0 <= mi < packages[pi].modules@.len(),
        packages[pi].modules@[mi].symbols.import_set().contains(en),
        0 <= b < en.symbols.len(),
        en.symbols[b] == ImportV::Namespace(alias),
        packages[pi].modules@[mi].symbols.usage_set().contains(UsageV::Namespace(x, alias)),
    ensures
        imps.contains((SymbolV::Symbol(x), en.from)),
        unused_export_pairs(packages) matches Ok(d) && !d.contains((SymbolV::Symbol(x), en.from)),
{
    lemma_packages_at(packages, packages, imps, pi);
    let s_pkg = import_pairs_of_modules(packages[pi].modules@, packages)->Ok_0;
    lemma_modules_at(packages[pi].modules@, packages, s_pkg, mi);
    let m = packages[pi].modules@[mi];
    let s_mod = import_pairs_of_module(m, packages)->Ok_0;
    let entries = m.symbols.imports.deep_view();
    assert(entries.contains(en));
    let k = choose|k: int| 0 <= k < entries.len() && entries[k] == en;
    lemma_entries_at(entries, m.symbols.usage_set(), packages, s_mod, k);
    let s_en = entry_pairs(en.symbols, en.from, m.symbols.usage_set(), packages)->Ok_0;
    lemma_entry_at(en.symbols, en.from, m.symbols.usage_set(), packages, s_en, b);
    let s_b = resolve_import_pairs(
        ImportV::Namespace(alias),
        en.from,
        m.symbols.usage_set(),
        packages,
    )->Ok_0;
    lemma_namespace_used_member(alias, en.from, x, m.symbols.usage_set(), packages, s_b);
}

/// Inventory of one module's export pairs: a pair arises exactly from a
/// direct named export under the module's own path.
proof fn lemma_pairs_of_exports_inventory(
    exs: Seq<ExportV<Seq<char>>>,
    path: Seq<char>,
    x: Seq<char>,
    p: Seq<char>,
)
    ensures
        pairs_of_exports(exs, path).contains((SymbolV::Symbol(x), p)) <==> (p == path
            && exs.contains(ExportV::<Seq<char>>::Symbol(x))),
    decreases exs.len(),
{
    if exs.len() > 0 {
        lemma_pairs_of_exports_inventory(exs.drop_first(), path, x, p);
        if exs.drop_first().contains(ExportV::<Seq<char>>::Symbol(x)) {
            let k = choose|k: int|
                0 <= k < exs.drop_first().len() && exs.drop_first()[k] == ExportV::<
                    Seq<char>,
                >::Symbol(x);
            assert(exs[k + 1] == ExportV::<Seq<char>>::Symbol(x));
        }
        if exs.contains(ExportV::<Seq<char>>::Symbol(x)) && !(exs[0] == ExportV::<
            Seq<char>,
        >::Symbol(x)) {
            let k = choose|k: int| 0 <= k < exs.len() && exs[k] == ExportV::<Seq<char>>::Symbol(x);
            assert(exs.drop_first()[k - 1] == ExportV::<Seq<char>>::Symbol(x));
        }
    }
}

/// Inventory of a module list's export pairs: a pair arises exactly from
/// some listed module at that path directly exporting the name.
proof fn lemma_export_pairs_modules_inventory(
    ms: Seq<AnalyzedModule<String>>,
    x: Seq<char>,
    p: Seq<char>,
)
    ensures
        export_pairs_of_modules(ms).contains((SymbolV::Symbol(x), p)) <==> exists|j: int|
            0 <= j < ms.len() && (#[trigger] ms[j]).path@ == p
            && ms[j].symbols.export_set().contains(ExportV::<Seq<char>>::Symbol(x)),
    decreases ms.len(),
{
    if ms.len() > 0 {
        lemma_export_pairs_modules_inventory(ms.drop_first(), x, p);
        lemma_pairs_of_exports_inventory(ms[0].symbols.exports.deep_view(), ms[0].path@, x, p);
        if pairs_of_exports(ms[0].symbols.exports.deep_view(), ms[0].path@).contains(
            (SymbolV::Symbol(x), p),
        ) {
            assert(ms[0].path@ == p && ms[0].symbols.export_set().contains(ExportV::<
                Seq<char>,
            >::Symbol(x)));
        }
        if exists|j: int|
            0 <= j < ms.drop_first().len() && (#[trigger] ms.drop_first()[j]).path@ == p
                && ms.drop_first()[j].symbols.export_set().contains(ExportV::<
                Seq<char>,
            >::Symbol(x)) {
            let j = choose|j: int|
                0 <= j < ms.drop_first().len() && (#[trigger] ms.drop_first()[j]).path@ == p
                    && ms.drop_first()[j].symbols.export_set().contains(ExportV::<
                    Seq<char>,
                >::Symbol(x));
            assert(ms[j + 1].path@ == p && ms[j + 1].symbols.export_set().contains(ExportV::<
                Seq<char>,
            >::Symbol(x)));
        }
        if exists|j: int|
            0 <= j < ms.len() && (#[trigger] ms[j]).path@ == p
                && ms[j].symbols.export_set().contains(ExportV::<Seq<char>>::Symbol(x)) {
            let j = choose|j: int|
                0 <= j < ms.len() && (#[trigger] ms[j]).path@ == p
                    && ms[j].symbols.export_set().contains(ExportV::<Seq<char>>::Symbol(x));
            if j > 0 {
                assert(ms.drop_first()[j - 1].path@ == p
                    && ms.drop_first()[j - 1].symbols.export_set().contains(ExportV::<
                    Seq<char>,
                >::Symbol(x)));
            }
        }
    }
}

/// Inventory of the workspace's export pairs: a named pair lies in the
/// export set exactly when some listed module at that path directly
/// declares the named export.
pub proof fn lemma_all_exports_inventory(
    packages: Seq<AnalyzedPackage>,
    x: Seq<char>,
    p: Seq<char>,
)
    ensures
        all_exports(packages).contains((SymbolV::Symbol(x), p)) <==> exists|i: int, j: int|
            0 <= i < packages.len() && 0 <= j < (#[trigger] packages[i]).modules@.len() && (
            #[trigger] packages[i].modules@[j]).path@ == p
            && packages[i].modules@[j].symbols.export_set().contains(ExportV::<
                Seq<char>,
            >::Symbol(x)),
    decreases packages.len(),
{
    if packages.len() > 0 {
        lemma_all_exports_inventory(packages.drop_first(), x, p);
        lemma_export_pairs_modules_inventory(packages[0].modules@, x, p);
        if export_pairs_of_modules(packages[0].modules@).contains((SymbolV::Symbol(x), p)) {
            let j = choose|j: int|
                0 <= j < packages[0].modules@.len() && (#[trigger] packages[0].modules@[j]).path@
                    == p && packages[0].modules@[j].symbols.export_set().contains(ExportV::<
                    Seq<char>,
                >::Symbol(x));
            assert(0 <= 0 < packages.len() && 0 <= j < packages[0].modules@.len()
                && packages[0].modules@[j].path@ == p
                && packages[0].modules@[j].symbols.export_set().contains(ExportV::<
                Seq<char>,
            >::Symbol(x)));
        }
        if exists|i: int, j: int|
            0 <= i < packages.drop_first().len() && 0 <= j < (#[trigger] packages.drop_first()[
                i
            ]).modules@.len() && (#[trigger] packages.drop_first()[i].modules@[j]).path@ == p
                && packages.drop_first()[i].modules@[j].symbols.export_set().contains(ExportV::<
                Seq<char>,
            >::Symbol(x)) {
            let (i, j) = choose|i: int, j: int|
                0 <= i < packages.drop_first().len() && 0 <= j < (#[trigger] packages.drop_first()[
                    i
                ]).modules@.len() && (#[trigger] packages.drop_first()[i].modules@[j]).path@ == p
                    && packages.drop_first()[i].modules@[j].symbols.export_set().contains(
                    ExportV::<Seq<char>>::Symbol(x),
                );
            assert(packages[i + 1].modules@[j].path@ == p
                && packages[i + 1].modules@[j].symbols.export_set().contains(ExportV::<
                Seq<char>,
            >::Symbol(x)));
        }
        if exists|i: int, j: int|
            0 <= i < packages.len() && 0 <= j < (#[trigger] packages[i]).modules@.len() && (
            #[trigger] packages[i].modules@[j]).path@ == p
                && packages[i].modules@[j].symbols.export_set().contains(ExportV::<
                Seq<char>,
            >::Symbol(x)) {
            let (i, j) = choose|i: int, j: int|
                0 <= i < packages.len() && 0 <= j < (#[trigger] packages[i]).modules@.len() && (
                #[trigger] packages[i].modules@[j]).path@ == p
                    && packages[i].modules@[j].symbols.export_set().contains(ExportV::<
                    Seq<char>,
                >::Symbol(x));
            if i == 0 {
                assert(export_pairs_of_modules(packages[0].modules@).contains(
                    (SymbolV::Symbol(x), p),
                ));
            } else {
                assert(packages.drop_first()[i - 1].modules@[j].path@ == p
                    && packages.drop_first()[i - 1].modules@[j].symbols.export_set().contains(
                    ExportV::<Seq<char>>::Symbol(x),
                ));
            }
        }
    }
}

/// A reached target with no other named exports is cleared entirely: when
/// the pair of `x` at path `p` is imported and every listed module at `p`
/// exports nothing but `x`, the report holds no finding at `p` at all.
/// Composed with the reachability laws this gives the zero-unused-exports
/// form: a named import, a namespace usage or a re-export hop of a
/// single-export module empties that module's findings.
pub proof fn lemma_covered_target_clear(
    packages: Seq<AnalyzedPackage>,
    imps: Set<(SymbolV, Seq<char>)>,
    p: Seq<char>,
    x: Seq<char>,
)
    requires
        check_graph_closed(packages, packages) is Ok,
        all_imports(packages) == Ok::<Set<(SymbolV, Seq<char>)>, AnalysisErrorV>(imps),
        imps.contains((SymbolV::Symbol(x), p)),
        forall|i: int, j: int|
            0 <= i < packages.len() && 0 <= j < (#[trigger] packages[i]).modules@.len() && (
            #[trigger] packages[i].modules@[j]).path@ == p
                ==> packages[i].modules@[j].symbols.export_set().subset_of(
                Set::<ExportV<Seq<char>>>::empty().insert(ExportV::Symbol(x)),
            ),
    ensures
        unused_export_pairs(packages) matches Ok(d) && (forall|pr: (SymbolV, Seq<char>)|
            #[trigger] d.contains(pr) ==> pr.1 != p),
{
    let d = all_exports(packages).difference(imps);
    lemma_all_exports_named(packages);
    assert forall|pr: (SymbolV, Seq<char>)| #[trigger] d.contains(pr) implies pr.1 != p by {
        if pr.1 == p {
            assert(all_exports(packages).contains(pr));
            assert(pr.0 is Symbol);
            let s = pr.0->Symbol_0;
            assert(pr == (SymbolV::Symbol(s), p));
            lemma_all_exports_inventory(packages, s, p);
            let (i, j) = choose|i: int, j: int|
                0 <= i < packages.len() && 0 <= j < (#[trigger] packages[i]).modules@.len() && (
                #[trigger] packages[i].modules@[j]).path@ == p
                    && packages[i].modules@[j].symbols.export_set().contains(ExportV::<
                    Seq<char>,
                >::Symbol(s));
            assert(Set::<ExportV<Seq<char>>>::empty().insert(ExportV::Symbol(x)).contains(
                ExportV::<Seq<char>>::Symbol(s),
            ));
            assert(s == x);
            assert(!d.contains(pr));
        }
    }
}

/// A found module is a listed module: the record the path lookup returns
/// belongs to some module of the list.
proof fn lemma_find_module_listed(ms: Seq<AnalyzedModule<String>>, p: Seq<char>)
    requires
        find_module(ms, p) is Some,
    ensures
        exists|j: int|
            0 <= j < ms.len() && (#[trigger] ms[j]).path@ == p && ms[j].symbols == find_module(
                ms,
                p,
            )->0,
    decreases ms,
{
    if ms.len() > 0 {
        if ms[0].path@ == p {
            assert(ms[0].path@ == p && ms[0].symbols == find_module(ms, p)->0);
        } else {
            lemma_find_module_listed(ms.drop_first(), p);
            let j = choose|j: int|
                0 <= j < ms.drop_first().len() && (#[trigger] ms.drop_first()[j]).path@ == p
                    && ms.drop_first()[j].symbols == find_module(ms.drop_first(), p)->0;
            assert(ms[j + 1].path@ == p && ms[j + 1].symbols == find_module(ms, p)->0);
        }
    }
}

/// A found module is listed in some package of the workspace.
proof fn lemma_find_pkgs_listed(packages: Seq<AnalyzedPackage>, p: Seq<char>)
    requires
        find_module_pkgs(packages, p) is Some,
    ensures
        exists|i: int, j: int|
            0 <= i < packages.len() && 0 <= j < (#[trigger] packages[i]).modules@.len() && (
            #[trigger] packages[i].modules@[j]).path@ == p && packages[i].modules@[j].symbols
                == find_module_pkgs(packages, p)->0,
    decreases packages,
{
    if packages.len() > 0 {
        if find_module(packages[0].modules@, p) is Some {
            lemma_find_module_listed(packages[0].modules@, p);
            let j = choose|j: int|
                0 <= j < packages[0].modules@.len() && (#[trigger] packages[0].modules@[j]).path@
                    == p && packages[0].modules@[j].symbols == find_module(
                    packages[0].modules@,
                    p,
                )->0;
            assert(0 <= 0 < packages.len() && packages[0].modules@[j].path@ == p
                && packages[0].modules@[j].symbols == find_module_pkgs(packages, p)->0);
        } else {
            lemma_find_pkgs_listed(packages.drop_first(), p);
            let (i, j) = choose|i: int, j: int|
                0 <= i < packages.drop_first().len() && 0 <= j < (#[trigger] packages.drop_first()[
                    i
                ]).modules@.len() && (#[trigger] packages.drop_first()[i].modules@[j]).path@ == p
                    && packages.drop_first()[i].modules@[j].symbols == find_module_pkgs(
                    packages.drop_first(),
                    p,
                )->0;
            assert(packages[i + 1].modules@[j].path@ == p && packages[i + 1].modules@[j].symbols
                == find_module_pkgs(packages, p)->0);
        }
    }
}

/// Closed exports make every hop succeed: when each forwarding target of
/// the export list is present, the hop over it meets no error.
proof fn lemma_closed_exports_hop_ok(
    exs: Seq<ExportV<Seq<char>>>,
    x: Seq<char>,
    packages: Seq<AnalyzedPackage>,
)
    requires
        check_exports_closed(exs, packages) is Ok,
    ensures
        hop_pairs(exs, x, packages) is Ok,
    decreases exs,
{
    if exs.len() > 0 {
        lemma_closed_exports_hop_ok(exs.drop_first(), x, packages);
    }
}

/// In a closed graph every module's export list is closed.
proof fn lemma_graph_closed_module(
    packages: Seq<AnalyzedPackage>,
    rest: Seq<AnalyzedPackage>,
    i: int,
    j: int,
)
    requires
        check_graph_closed(rest, packages) is Ok,
        0 <= i < rest.len(),
        0 <= j < rest[i].modules@.len(),
    ensures
        check_exports_closed(rest[i].modules@[j].symbols.exports.deep_view(), packages) is Ok,
    decreases rest,
{
    if i == 0 {
        lemma_modules_closed_module(packages, rest[0].modules@, j);
    } else {
        lemma_graph_closed_module(packages, rest.drop_first(), i - 1, j);
        assert(rest.drop_first()[i - 1] == rest[i]);
    }
}

/// In a closed module list every module's export list is closed.
proof fn lemma_modules_closed_module(
    packages: Seq<AnalyzedPackage>,
    ms: Seq<AnalyzedModule<String>>,
    j: int,
)
    requires
        check_modules_closed(ms, packages) is Ok,
        0 <= j < ms.len(),
    ensures
        check_exports_closed(ms[j].symbols.exports.deep_view(), packages) is Ok,
    decreases ms,
{
    if j > 0 {
        lemma_modules_closed_module(packages, ms.drop_first(), j - 1);
        assert(ms.drop_first()[j - 1] == ms[j]);
    }
}

/// In a closed graph resolving any import binding meets no error: the hop
/// is only consulted on a module the lookup found, which is listed, and a
/// listed module's forwarding targets are all present.
proof fn lemma_resolve_ok(
    iv: ImportV,
    from: Seq<char>,
    usages: Set<UsageV>,
    packages: Seq<AnalyzedPackage>,
)
    requires
        check_graph_closed(packages, packages) is Ok,
    ensures
        resolve_import_pairs(iv, from, usages, packages) is Ok,
{
    match iv {
        ImportV::Named(x) => {
            match find_module_pkgs(packages, from) {
                None => {},
                Some(tm) => {
                    if !tm.export_set().contains(ExportV::Symbol(x)) {
                        lemma_find_pkgs_listed(packages, from);
                        let (i, j) = choose|i: int, j: int|
                            0 <= i < packages.len() && 0 <= j < (
                            #[trigger] packages[i]).modules@.len() && (
                            #[trigger] packages[i].modules@[j]).path@ == from && packages[
                                i
                            ].modules@[j].symbols == find_module_pkgs(packages, from)->0;
                        lemma_graph_closed_module(packages, packages, i, j);
                        lemma_closed_exports_hop_ok(tm.exports.deep_view(), x, packages);
                    }
                },
            }
        },
        ImportV::Default(_) => {},
        ImportV::Namespace(_) => {},
    }
}

/// In a closed graph an import statement's pairs are computed without
/// error.
proof fn lemma_entry_ok(
    symbols: Seq<ImportV>,
    from: Seq<char>,
    usages: Set<UsageV>,
    packages: Seq<AnalyzedPackage>,
)
    requires
        check_graph_closed(packages, packages) is Ok,
    ensures
        entry_pairs(symbols, from, usages, packages) is Ok,
    decreases symbols,
{
    if symbols.len() > 0 {
        lemma_resolve_ok(symbols[0], from, usages, packages);
        lemma_entry_ok(symbols.drop_first(), from, usages, packages);
    }
}

/// In a closed graph a module's import pairs are computed without error.
proof fn lemma_entries_ok(
    entries: Seq<ImportedSymbolV<Seq<char>>>,
    usages: Set<UsageV>,
    packages: Seq<AnalyzedPackage>,
)
    requires
        check_graph_closed(packages, packages) is Ok,
    ensures
        import_pairs_of_entries(entries, usages, packages) is Ok,
    decreases entries,
{
    if entries.len() > 0 {
        lemma_entry_ok(entries[0].symbols, entries[0].from, usages, packages);
        lemma_entries_ok(entries.drop_first(), usages, packages);
    }
}

/// In a closed graph a module list's import pairs are computed without
/// error.
proof fn lemma_modules_ok(ms: Seq<AnalyzedModule<String>>, packages: Seq<AnalyzedPackage>)
    requires
        check_graph_closed(packages, packages) is Ok,
    ensures
        import_pairs_of_modules(ms, packages) is Ok,
    decreases ms,
{
    if ms.len() > 0 {
        lemma_entries_ok(ms[0].symbols.imports.deep_view(), ms[0].symbols.usage_set(), packages);
        lemma_modules_ok(ms.drop_first(), packages);
    }
}

/// In a closed graph the whole workspace's import pairs are computed
/// without error.
proof fn lemma_packages_ok(rest: Seq<AnalyzedPackage>, packages: Seq<AnalyzedPackage>)
    requires
        check_graph_closed(packages, packages) is Ok,
    ensures
        all_imports_from(rest, packages) is Ok,
    decreases rest,
{
    if rest.len() > 0 {
        lemma_modules_ok(rest[0].modules@, packages);
        lemma_packages_ok(rest.drop_first(), packages);
    }
}

/// Success is owed exactly on closed graphs: the analysis yields a report
/// if and only if every forwarding export names a module present in the
/// workspace; the only fatal condition is an open graph.
pub proof fn lemma_analysis_succeeds_iff_closed(packages: Seq<AnalyzedPackage>)
    ensures
        unused_export_pairs(packages) is Ok <==> check_graph_closed(packages, packages) is Ok,
{
    if check_graph_closed(packages, packages) is Ok {
        lemma_packages_ok(packages, packages);
    }
}

/// Inventory of one hop: every pair a re-export hop yields lands at a
/// forwarding target of the examined export list.
proof fn lemma_hop_complete(
    exs: Seq<ExportV<Seq<char>>>,
    x: Seq<char>,
    packages: Seq<AnalyzedPackage>,
    total: Set<(SymbolV, Seq<char>)>,
    pr: (SymbolV, Seq<char>),
)
    requires
        hop_pairs(exs, x, packages) == Ok::<Set<(SymbolV, Seq<char>)>, AnalysisErrorV>(total),
        total.contains(pr),
    ensures
        pr == (SymbolV::Symbol(x), pr.1),
        exists|j: int|
            0 <= j < exs.len() && ((#[trigger] exs[j]) == ExportV::<Seq<char>>::AllFrom(pr.1)
                || exs[j] == ExportV::<Seq<char>>::Reexport(pr.1)),
    decreases exs,
{
    let head: Set<(SymbolV, Seq<char>)> = match exs[0] {
        ExportV::AllFrom(u) => match find_module_pkgs(packages, u) {
            Some(um) => if um.export_set().contains(ExportV::Symbol(x)) {
                Set::empty().insert((SymbolV::Symbol(x), u))
            } else {
                Set::empty()
            },
            None => Set::empty(),
        },
        ExportV::Reexport(u) => match find_module_pkgs(packages, u) {
            Some(um) => if um.export_set().contains(ExportV::Symbol(x)) {
                Set::empty().insert((SymbolV::Symbol(x), u))
            } else {
                Set::empty()
            },
            None => Set::empty(),
        },
        _ => Set::empty(),
    };
    let rest = hop_pairs(exs.drop_first(), x, packages);
    if head.contains(pr) {
        assert(0 <= 0 < exs.len() && (exs[0] == ExportV::<Seq<char>>::AllFrom(pr.1) || exs[0]
            == ExportV::<Seq<char>>::Reexport(pr.1)));
    } else {
        match rest {
            Ok(rs) => {
                assert(total == head.union(rs));
                lemma_hop_complete(exs.drop_first(), x, packages, rs, pr);
                let j = choose|j: int|
                    0 <= j < exs.drop_first().len() && ((#[trigger] exs.drop_first()[j])
                        == ExportV::<Seq<char>>::AllFrom(pr.1) || exs.drop_first()[j] == ExportV::<
                        Seq<char>,
                    >::Reexport(pr.1));
                assert(exs[j + 1] == ExportV::<Seq<char>>::AllFrom(pr.1) || exs[j + 1]
                    == ExportV::<Seq<char>>::Reexport(pr.1));
            },
            Err(_) => {
                assert(false);
            },
        }
    }
}

/// Inventory of one binding: every pair it reaches is its own name at its
/// target, its default marker at its target, a recorded namespace member at
/// its target, or a named pair at a forwarding target of the module the
/// lookup found.
proof fn lemma_resolve_complete(
    iv: ImportV,
    from: Seq<char>,
    usages: Set<UsageV>,
    packages: Seq<AnalyzedPackage>,
    sb: Set<(SymbolV, Seq<char>)>,
    pr: (SymbolV, Seq<char>),
)
    requires
        resolve_import_pairs(iv, from, usages, packages) == Ok::<
            Set<(SymbolV, Seq<char>)>,
            AnalysisErrorV,
        >(sb),
        sb.contains(pr),
    ensures
        match iv {
            ImportV::Named(x) => pr == (SymbolV::Symbol(x), from) || (pr == (
                SymbolV::Symbol(x),
                pr.1,
            ) && (find_module_pkgs(packages, from) matches Some(tm) && exists|j: int|
                0 <= j < tm.exports.deep_view().len() && ((#[trigger] tm.exports.deep_view()[j])
                    == ExportV::<Seq<char>>::AllFrom(pr.1) || tm.exports.deep_view()[j]
                    == ExportV::<Seq<char>>::Reexport(pr.1)))),
            ImportV::Default(_) => pr == (SymbolV::Default, from),
            ImportV::Namespace(alias) => exists|memb: Seq<char>|
                #[trigger] usages.contains(UsageV::Namespace(memb, alias)) && pr == (
                SymbolV::Symbol(memb),
                from,
                ),
        },
{
    match iv {
        ImportV::Named(x) => {
            let base = Set::<(SymbolV, Seq<char>)>::empty().insert((SymbolV::Symbol(x), from));
            match find_module_pkgs(packages, from) {
                None => {},
                Some(tm) => {
                    if !tm.export_set().contains(ExportV::Symbol(x)) {
                        match hop_pairs(tm.exports.deep_view(), x, packages) {
                            Ok(hs) => {
                                assert(sb == base.union(hs));
                                if !base.contains(pr) {
                                    lemma_hop_complete(
                                        tm.exports.deep_view(),
                                        x,
                                        packages,
                                        hs,
                                        pr,
                                    );
                                }
                            },
                            Err(_) => {
                                assert(false);
                            },
                        }
                    }
                },
            }
        },
        ImportV::Default(_) => {},
        ImportV::Namespace(_) => {},
    }
}

/// Inventory of one import statement: every pair it reaches comes from one
/// of its bindings.
proof fn lemma_entry_complete(
    symbols: Seq<ImportV>,
    from: Seq<char>,
    usages: Set<UsageV>,
    packages: Seq<AnalyzedPackage>,
    total: Set<(SymbolV, Seq<char>)>,
    pr: (SymbolV, Seq<char>),
)
    requires
        entry_pairs(symbols, from, usages, packages) == Ok::<
            Set<(SymbolV, Seq<char>)>,
            AnalysisErrorV,
        >(total),
        total.contains(pr),
    ensures
        exists|b: int|
            0 <= b < symbols.len() && (resolve_import_pairs(
                #[trigger] symbols[b],
                from,
                usages,
                packages,
            ) matches Ok(s2) && s2.contains(pr)),
    decreases symbols,
{
    let head = resolve_import_pairs(symbols[0], from, usages, packages);
    let rest = entry_pairs(symbols.drop_first(), from, usages, packages);
    match (head, rest) {
        (Ok(h), Ok(rs)) => {
            assert(total == h.union(rs));
            if h.contains(pr) {
                assert(resolve_import_pairs(symbols[0], from, usages, packages) matches Ok(s2)
                    && s2.contains(pr));
            } else {
                lemma_entry_complete(symbols.drop_first(), from, usages, packages, rs, pr);
                let b = choose|b: int|
                    0 <= b < symbols.drop_first().len() && (resolve_import_pairs(
                        #[trigger] symbols.drop_first()[b],
                        from,
                        usages,
                        packages,
                    ) matches Ok(s2) && s2.contains(pr));
                assert(resolve_import_pairs(symbols[b + 1], from, usages, packages) matches Ok(
                    s2,
                ) && s2.contains(pr));
            }
        },
        _ => {
            assert(false);
        },
    }
}

/// Inventory of one module: every pair its imports reach comes from one of
/// its import statements.
proof fn lemma_entries_complete(
    entries: Seq<ImportedSymbolV<Seq<char>>>,
    usages: Set<UsageV>,
    packages: Seq<AnalyzedPackage>,
    total: Set<(SymbolV, Seq<char>)>,
    pr: (SymbolV, Seq<char>),
)
    requires
        import_pairs_of_entries(entries, usages, packages) == Ok::<
            Set<(SymbolV, Seq<char>)>,
            AnalysisErrorV,
        >(total),
        total.contains(pr),
    ensures
        exists|k: int|
            0 <= k < entries.len() && (entry_pairs(
                (#[trigger] entries[k]).symbols,
                entries[k].from,
                usages,
                packages,
            ) matches Ok(s2) && s2.contains(pr)),
    decreases entries,
{
    let head = entry_pairs(entries[0].symbols, entries[0].from, usages, packages);
    let rest = import_pairs_of_entries(entries.drop_first(), usages, packages);
    match (head, rest) {
        (Ok(h), Ok(rs)) => {
            assert(total == h.union(rs));
            if h.contains(pr) {
                assert(entry_pairs(entries[0].symbols, entries[0].from, usages, packages)
                    matches Ok(s2) && s2.contains(pr));
            } else {
                lemma_entries_complete(entries.drop_first(), usages, packages, rs, pr);
                let k = choose|k: int|
                    0 <= k < entries.drop_first().len() && (entry_pairs(
                        (#[trigger] entries.drop_first()[k]).symbols,
                        entries.drop_first()[k].from,
                        usages,
                        packages,
                    ) matches Ok(s2) && s2.contains(pr));
                assert(entry_pairs(entries[k + 1].symbols, entries[k + 1].from, usages, packages)
                    matches Ok(s2) && s2.contains(pr));
            }
        },
        _ => {
            assert(false);
        },
    }
}

/// Inventory of a module list: every pair reached comes from one module.
proof fn lemma_modules_complete(
    ms: Seq<AnalyzedModule<String>>,
    packages: Seq<AnalyzedPackage>,
    total: Set<(SymbolV, Seq<char>)>,
    pr: (SymbolV, Seq<char>),
)
    requires
        import_pairs_of_modules(ms, packages) == Ok::<
            Set<(SymbolV, Seq<char>)>,
            AnalysisErrorV,
        >(total),
        total.contains(pr),
    ensures
        exists|j: int|
            0 <= j < ms.len() && (import_pairs_of_module(#[trigger] ms[j], packages) matches Ok(
                s2,
            ) && s2.contains(pr)),
    decreases ms,
{
    let head = import_pairs_of_module(ms[0], packages);
    let rest = import_pairs_of_modules(ms.drop_first(), packages);
    match (head, rest) {
        (Ok(h), Ok(rs)) => {
            assert(total == h.union(rs));
            if h.contains(pr) {
                assert(import_pairs_of_module(ms[0], packages) matches Ok(s2) && s2.contains(pr));
            } else {
                lemma_modules_complete(ms.drop_first(), packages, rs, pr);
                let j = choose|j: int|
                    0 <= j < ms.drop_first().len() && (import_pairs_of_module(
                        #[trigger] ms.drop_first()[j],
                        packages,
                    ) matches Ok(s2) && s2.contains(pr));
                assert(import_pairs_of_module(ms[j + 1], packages) matches Ok(s2) && s2.contains(
                    pr,
                ));
            }
        },
        _ => {
            assert(false);
        },
    }
}

/// Inventory of the workspace's import pairs: every reached pair comes
/// from the imports of some listed module.
pub proof fn lemma_imports_complete(
    packages: Seq<AnalyzedPackage>,
    imps: Set<(SymbolV, Seq<char>)>,
    pr: (SymbolV, Seq<char>),
)
    requires
        all_imports(packages) == Ok::<Set<(SymbolV, Seq<char>)>, AnalysisErrorV>(imps),
        imps.contains(pr),
    ensures
        exists|i: int, j: int|
            0 <= i < packages.len() && 0 <= j < (#[trigger] packages[i]).modules@.len() && (
            import_pairs_of_module(#[trigger] packages[i].modules@[j], packages) matches Ok(s2)
                && s2.contains(pr)),
{
    lemma_packages_complete(packages, packages, imps, pr);
}

/// Inventory over the package list.
proof fn lemma_packages_complete(
    rest: Seq<AnalyzedPackage>,
    packages: Seq<AnalyzedPackage>,
    total: Set<(SymbolV, Seq<char>)>,
    pr: (SymbolV, Seq<char>),
)
    requires
        all_imports_from(rest, packages) == Ok::<Set<(SymbolV, Seq<char>)>, AnalysisErrorV>(
            total,
        ),
        total.contains(pr),
    ensures
        exists|i: int, j: int|
            0 <= i < rest.len() && 0 <= j < (#[trigger] rest[i]).modules@.len() && (
            import_pairs_of_module(#[trigger] rest[i].modules@[j], packages) matches Ok(s2)
                && s2.contains(pr)),
    decreases rest,
{
    let head = import_pairs_of_modules(rest[0].modules@, packages);
    let rest_r = all_imports_from(rest.drop_first(), packages);
    match (head, rest_r) {
        (Ok(h), Ok(rs)) => {
            assert(total == h.union(rs));
            if h.contains(pr) {
                lemma_modules_complete(rest[0].modules@, packages, h, pr);
                let j = choose|j: int|
                    0 <= j < rest[0].modules@.len() && (import_pairs_of_module(
                        #[trigger] rest[0].modules@[j],
                        packages,
                    ) matches Ok(s2) && s2.contains(pr));
                assert(0 <= 0 < rest.len() && (import_pairs_of_module(
                    rest[0].modules@[j],
                    packages,
                ) matches Ok(s2) && s2.contains(pr)));
            } else {
                lemma_packages_complete(rest.drop_first(), packages, rs, pr);
                let (i, j) = choose|i: int, j: int|
                    0 <= i < rest.drop_first().len() && 0 <= j < (#[trigger] rest.drop_first()[
                        i
                    ]).modules@.len() && (import_pairs_of_module(
                        #[trigger] rest.drop_first()[i].modules@[j],
                        packages,
                    ) matches Ok(s2) && s2.contains(pr));
                assert(import_pairs_of_module(rest[i + 1].modules@[j], packages) matches Ok(s2)
                    && s2.contains(pr));
            }
        },
        _ => {
            assert(false);
        },
    }
}

/// No import statement of this record names `y` from `t`: no named import
/// of `y` from `t`, and no namespace import from `t` with `y` recorded
/// under its alias.
pub open spec fn module_imports_avoid(
    ms: crate::module_symbols::ModuleSymbols<String>,
    y: Seq<char>,
    t: Seq<char>,
) -> bool {
    forall|k: int, b: int|
        0 <= k < ms.imports.deep_view().len() && 0 <= b < ms.imports.deep_view()[k].symbols.len()
            ==> {
            let en = ms.imports.deep_view()[k];
            let iv = #[trigger] ms.imports.deep_view()[k].symbols[b];
            &&& !(en.from == t && iv == ImportV::Named(y))
            &&& (en.from == t ==> (iv matches ImportV::Namespace(al)
                ==> !ms.usage_set().contains(UsageV::Namespace(y, al))))
        }
}

/// No module of the workspace imports `y` from `t` in any form.
pub open spec fn workspace_imports_avoid(
    packages: Seq<AnalyzedPackage>,
    y: Seq<char>,
    t: Seq<char>,
) -> bool {
    forall|i: int, j: int|
        0 <= i < packages.len() && 0 <= j < (#[trigger] packages[i]).modules@.len()
            ==> module_imports_avoid((#[trigger] packages[i].modules@[j]).symbols, y, t)
}

/// No module of the workspace forwards the module at `t`.
pub open spec fn no_forwarding_to(packages: Seq<AnalyzedPackage>, t: Seq<char>) -> bool {
    forall|i: int, j: int|
        0 <= i < packages.len() && 0 <= j < (#[trigger] packages[i]).modules@.len() ==> {
            &&& !(#[trigger] packages[i].modules@[j]).symbols.export_set().contains(
                ExportV::<Seq<char>>::AllFrom(t),
            )
            &&& !packages[i].modules@[j].symbols.export_set().contains(
                ExportV::<Seq<char>>::Reexport(t),
            )
        }
}

/// An export no import reaches is reported.  The premises spell out how no
/// import reaches it: no module names `y` from `t` (directly or through a
/// recorded namespace usage) and no module forwards `t`.  Then the named
/// export `y` of the module at `t` stands in the report.  In particular a
/// module whose importers all use default imports keeps a named export
/// literally called "default" in the report, and a namespace-imported
/// module keeps every member not recorded as used.
pub proof fn lemma_unreached_export_reported(
    packages: Seq<AnalyzedPackage>,
    imps: Set<(SymbolV, Seq<char>)>,
    y: Seq<char>,
    t: Seq<char>,
    pi: int,
    mi: int,
)
    requires
        check_graph_closed(packages, packages) is Ok,
        all_imports(packages) == Ok::<Set<(SymbolV, Seq<char>)>, AnalysisErrorV>(imps),
        0 <= pi < packages.len(),
        0 <= mi < packages[pi].modules@.len(),
        packages[pi].modules@[mi].path@ == t,
        packages[pi].modules@[mi].symbols.export_set().contains(ExportV::<Seq<char>>::Symbol(y)),
        workspace_imports_avoid(packages, y, t),
        no_forwarding_to(packages, t),
    ensures
        unused_export_pairs(packages) matches Ok(d) && d.contains((SymbolV::Symbol(y), t)),
{
    let pr = (SymbolV::Symbol(y), t);
    lemma_all_exports_inventory(packages, y, t);
    assert(all_exports(packages).contains(pr));
    if imps.contains(pr) {
        lemma_imports_complete(packages, imps, pr);
        let (i, j) = choose|i: int, j: int|
            0 <= i < packages.len() && 0 <= j < (#[trigger] packages[i]).modules@.len() && (
            import_pairs_of_module(#[trigger] packages[i].modules@[j], packages) matches Ok(s2)
                && s2.contains(pr));
        let m = packages[i].modules@[j];
        let s_mod = import_pairs_of_module(m, packages)->Ok_0;
        let entries = m.symbols.imports.deep_view();
        lemma_entries_complete(entries, m.symbols.usage_set(), packages, s_mod, pr);
        let k = choose|k: int|
            0 <= k < entries.len() && (entry_pairs(
                (#[trigger] entries[k]).symbols,
                entries[k].from,
                m.symbols.usage_set(),
                packages,
            ) matches Ok(s2) && s2.contains(pr));
        let en = entries[k];
        let s_en = entry_pairs(en.symbols, en.from, m.symbols.usage_set(), packages)->Ok_0;
        lemma_entry_complete(en.symbols, en.from, m.symbols.usage_set(), packages, s_en, pr);
        let b = choose|b: int|
            0 <= b < en.symbols.len() && (resolve_import_pairs(
                #[trigger] en.symbols[b],
                en.from,
                m.symbols.usage_set(),
                packages,
            ) matches Ok(s2) && s2.contains(pr));
        let iv = en.symbols[b];
        let s_b = resolve_import_pairs(iv, en.from, m.symbols.usage_set(), packages)->Ok_0;
        lemma_resolve_complete(iv, en.from, m.symbols.usage_set(), packages, s_b, pr);
        assert(module_imports_avoid(m.symbols, y, t));
        assert(m.symbols.imports.deep_view()[k].symbols[b] == iv);
        match iv {
            ImportV::Named(x) => {
                if pr == (SymbolV::Symbol(x), en.from) {
                    assert(x == y && en.from == t);
                    assert(false);
                } else {
                    let tm = find_module_pkgs(packages, en.from)->0;
                    lemma_find_pkgs_listed(packages, en.from);
                    let (i2, j2) = choose|i2: int, j2: int|
                        0 <= i2 < packages.len() && 0 <= j2 < (
                        #[trigger] packages[i2]).modules@.len() && (
                        #[trigger] packages[i2].modules@[j2]).path@ == en.from && packages[
                            i2
                        ].modules@[j2].symbols == tm;
                    let j3 = choose|j3: int|
                        0 <= j3 < tm.exports.deep_view().len() && ((
                        #[trigger] tm.exports.deep_view()[j3]) == ExportV::<Seq<char>>::AllFrom(
                            t,
                        ) || tm.exports.deep_view()[j3] == ExportV::<Seq<char>>::Reexport(t));
                    assert(tm.exports.deep_view().to_set().contains(tm.exports.deep_view()[j3]));
                    assert(tm.export_set().contains(ExportV::<Seq<char>>::AllFrom(t))
                        || tm.export_set().contains(ExportV::<Seq<char>>::Reexport(t)));
                    assert(false);
                }
            },
            ImportV::Default(_) => {
                assert(pr.0 is Symbol);
                assert(false);
            },
            ImportV::Namespace(al) => {
                let memb = choose|memb: Seq<char>|
                    #[trigger] m.symbols.usage_set().contains(UsageV::Namespace(memb, al)) && pr
                        == ((SymbolV::Symbol(memb), en.from));
                assert(memb == y && en.from == t);
                assert(false);
            },
        }
    }
    lemma_packages_ok(packages, packages);
}

/// The zero-unused-exports form of named-import reachability: when the
/// resolved target of a `Named(x)` import declares no named export but `x`,
/// the report holds no finding for that module at all.
pub proof fn lemma_named_import_clears_target(
    packages: Seq<AnalyzedPackage>,
    pi: int,
    mi: int,
    en: ImportedSymbolV<Seq<char>>,
    b: int,
    x: Seq<char>,
    imps: Set<(SymbolV, Seq<char>)>,
)
    requires
        check_graph_closed(packages, packages) is Ok,
        all_imports(packages) == Ok::<Set<(SymbolV, Seq<char>)>, AnalysisErrorV>(imps),
        0 <= pi < packages.len(),
        0 <= mi < packages[pi].modules@.len(),
        packages[pi].modules@[mi].symbols.import_set().contains(en),
        0 <= b < en.symbols.len(),
        en.symbols[b] == ImportV::Named(x),
        forall|i: int, j: int|
            0 <= i < packages.len() && 0 <= j < (#[trigger] packages[i]).modules@.len() && (
            #[trigger] packages[i].modules@[j]).path@ == en.from
                ==> packages[i].modules@[j].symbols.export_set().subset_of(
                Set::<ExportV<Seq<char>>>::empty().insert(ExportV::Symbol(x)),
            ),
    ensures
        unused_export_pairs(packages) matches Ok(d) && (forall|pr: (SymbolV, Seq<char>)|
            #[trigger] d.contains(pr) ==> pr.1 != en.from),
{
    lemma_named_import_reachability(packages, pi, mi, en, b, x, imps);
    lemma_covered_target_clear(packages, imps, en.from, x);
}

/// The zero-unused-exports form of wildcard re-export transitivity: when
/// the module one hop behind the import declares no named export but `x`,
/// the report holds no finding for it at all.
pub proof fn lemma_wildcard_reexport_clears_origin(
    packages: Seq<AnalyzedPackage>,
    pi: int,
    mi: int,
    en: ImportedSymbolV<Seq<char>>,
    b: int,
    x: Seq<char>,
    pa: Seq<char>,
    imps: Set<(SymbolV, Seq<char>)>,
)
    requires
        check_graph_closed(packages, packages) is Ok,
        all_imports(packages) == Ok::<Set<(SymbolV, Seq<char>)>, AnalysisErrorV>(imps),
        0 <= pi < packages.len(),
        0 <= mi < packages[pi].modules@.len(),
        packages[pi].modules@[mi].symbols.import_set().contains(en),
        0 <= b < en.symbols.len(),
        en.symbols[b] == ImportV::Named(x),
        find_module_pkgs(packages, en.from) matches Some(bm) && {
            &&& !bm.export_set().contains(ExportV::<Seq<char>>::Symbol(x))
            &&& bm.export_set().contains(ExportV::<Seq<char>>::AllFrom(pa))
        },
        find_module_pkgs(packages, pa) matches Some(am) && am.export_set().contains(
            ExportV::<Seq<char>>::Symbol(x),
        ),
        forall|i: int, j: int|
            0 <= i < packages.len() && 0 <= j < (#[trigger] packages[i]).modules@.len() && (
            #[trigger] packages[i].modules@[j]).path@ == pa
                ==> packages[i].modules@[j].symbols.export_set().subset_of(
                Set::<ExportV<Seq<char>>>::empty().insert(ExportV::Symbol(x)),
            ),
    ensures
        unused_export_pairs(packages) matches Ok(d) && (forall|pr: (SymbolV, Seq<char>)|
            #[trigger] d.contains(pr) ==> pr.1 != pa),
{
    lemma_wildcard_reexport_transitivity(packages, pi, mi, en, b, x, pa, imps);
    lemma_covered_target_clear(packages, imps, pa, x);
}

} // verus!
