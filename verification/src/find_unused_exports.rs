//! The reachability analysis: which exported symbols are never imported.
//!
//! Over the whole workspace two sets of (symbol, module) pairs are built:
//! every named export of every module, and every pair a resolved import
//! reaches — a named import by its name, a default import unconditionally, a
//! namespace import only through its recorded member usages, and a named
//! import additionally through one re-export hop when the target forwards
//! another module's exports.  The unused exports are the set difference.

use vstd::prelude::*;

use crate::analyze_package::AnalyzedPackage;
use crate::analyzed_module::AnalyzedModule;
use crate::module_symbols::Export;
use crate::module_symbols::ExportV;
use crate::module_symbols::Import;
use crate::module_symbols::ImportV;
use crate::module_symbols::ImportedSymbolV;
use crate::module_symbols::ModuleSymbols;
use crate::module_symbols::Reexport;
use crate::module_symbols::Usage;
use crate::module_symbols::UsageV;
use crate::vecset::SetElem;
use crate::vecset::distinct_seq;
use crate::vecset::vec_set_extend;
use crate::vecset::vec_set_insert;

verus! {

/// A symbol as it appears in a report: either a module's default export,
/// which has no name, or a named export.  The default marker is a variant of
/// its own, so it can never be conflated with a named export that happens to
/// be called "default".
#[derive(Debug, Clone, PartialEq, Eq)]
pub enum Symbol {
    Default,
    Symbol(String),
}

/// The spec-level value of a `Symbol`.
pub enum SymbolV {
    Default,
    Symbol(Seq<char>),
}

impl DeepView for Symbol {
    type V = SymbolV;

    open spec fn deep_view(&self) -> SymbolV {
        match self {
            Symbol::Default => SymbolV::Default,
            Symbol::Symbol(s) => SymbolV::Symbol(s@),
        }
    }
}

impl Symbol {
    /// Decides equality of two symbols; the default marker equals no named
    /// symbol, whatever its name.
    pub fn symbol_eq(&self, other: &Symbol) -> (r: bool)
        ensures
            r == (self.deep_view() == other.deep_view()),
    {
        match self {
            Symbol::Default => matches!(other, Symbol::Default),
            Symbol::Symbol(a) => match other {
                Symbol::Symbol(b) => *a == *b,
                Symbol::Default => false,
            },
        }
    }
}

impl SetElem for (Symbol, String) {
    fn elem_eq(&self, other: &Self) -> (r: bool) {
        self.0.symbol_eq(&other.0) && self.1 == other.1
    }
}

/// One finding of the analysis: `symbol` is exported by the module at
/// `filename` and imported nowhere.
#[derive(Debug, Clone, PartialEq, Eq)]
pub struct UnusedExport {
    pub filename: String,
    pub symbol: Symbol,
}

/// The spec-level value of an `UnusedExport`: the pair of symbol and module
/// identity.
pub struct UnusedExportV {
    pub filename: Seq<char>,
    pub symbol: SymbolV,
}

impl DeepView for UnusedExport {
    type V = UnusedExportV;

    open spec fn deep_view(&self) -> UnusedExportV {
        UnusedExportV { filename: self.filename@, symbol: self.symbol.deep_view() }
    }
}

impl SetElem for UnusedExport {
    fn elem_eq(&self, other: &Self) -> (r: bool) {
        self.symbol.symbol_eq(&other.symbol) && self.filename == other.filename
    }
}

impl UnusedExport {
    pub fn new(path: &String, symbol: Symbol) -> (r: Self)
        ensures
            r.deep_view() == (UnusedExportV { filename: path@, symbol: symbol.deep_view() }),
    {
        UnusedExport { filename: path.clone(), symbol }
    }
}

/// A fatal inconsistency of the module graph: a forwarding export names a
/// module that resolved but is not in the graph, so the graph is not closed
/// over the workspace.
#[derive(Debug, PartialEq, Eq)]
pub enum AnalysisError {
    MissingModule(String),
}

/// The spec-level value of an `AnalysisError`.
pub enum AnalysisErrorV {
    MissingModule(Seq<char>),
}

impl DeepView for AnalysisError {
    type V = AnalysisErrorV;

    open spec fn deep_view(&self) -> AnalysisErrorV {
        match self {
            AnalysisError::MissingModule(s) => AnalysisErrorV::MissingModule(s@),
        }
    }
}

/// The symbol record of the first module listed under path `p`, if any.
pub open spec fn find_module(ms: Seq<AnalyzedModule<String>>, p: Seq<char>) -> Option<
    ModuleSymbols<String>,
>
    decreases ms,
{
    if ms.len() == 0 {
        None
    } else if ms[0].path@ == p {
        Some(ms[0].symbols)
    } else {
        find_module(ms.drop_first(), p)
    }
}

/// The symbol record of the module at path `p`, searching the packages in
/// order.
pub open spec fn find_module_pkgs(packages: Seq<AnalyzedPackage>, p: Seq<char>) -> Option<
    ModuleSymbols<String>,
>
    decreases packages,
{
    if packages.len() == 0 {
        None
    } else {
        match find_module(packages[0].modules@, p) {
            Some(m) => Some(m),
            None => find_module_pkgs(packages.drop_first(), p),
        }
    }
}

/// The (symbol, module) pairs the named exports of one module contribute;
/// default, forwarding and re-export-all entries contribute nothing here.
pub open spec fn pairs_of_exports(exs: Seq<ExportV<Seq<char>>>, path: Seq<char>) -> Set<
    (SymbolV, Seq<char>),
>
    decreases exs,
{
    if exs.len() == 0 {
        Set::empty()
    } else {
        (match exs[0] {
            ExportV::Symbol(s) => Set::empty().insert((SymbolV::Symbol(s), path)),
            _ => Set::<(SymbolV, Seq<char>)>::empty(),
        }).union(pairs_of_exports(exs.drop_first(), path))
    }
}

/// The export pairs of a sequence of modules.
pub open spec fn export_pairs_of_modules(ms: Seq<AnalyzedModule<String>>) -> Set<
    (SymbolV, Seq<char>),
>
    decreases ms,
{
    if ms.len() == 0 {
        Set::empty()
    } else {
        pairs_of_exports(ms[0].symbols.exports.deep_view(), ms[0].path@).union(
            export_pairs_of_modules(ms.drop_first()),
        )
    }
}

/// Every named export of every module of the workspace, as (symbol, module)
/// pairs.
pub open spec fn all_exports(packages: Seq<AnalyzedPackage>) -> Set<(SymbolV, Seq<char>)>
    decreases packages,
{
    if packages.len() == 0 {
        Set::empty()
    } else {
        export_pairs_of_modules(packages[0].modules@).union(all_exports(packages.drop_first()))
    }
}

/// Adds `acc` to a partial result: an error stands, a set is united.
pub open spec fn lift_pairs(
    acc: Set<(SymbolV, Seq<char>)>,
    r: Result<Set<(SymbolV, Seq<char>)>, AnalysisErrorV>,
) -> Result<Set<(SymbolV, Seq<char>)>, AnalysisErrorV> {
    match r {
        Err(e) => Err(e),
        Ok(s) => Ok(acc.union(s)),
    }
}

/// The pairs a named import of `s` reaches through the forwarding exports
/// of its target module: for each re-export edge whose target directly
/// exports `s`, the pair under that target.  A forwarding edge whose target
/// is not in the graph is fatal.
pub open spec fn hop_pairs(
    exs: Seq<ExportV<Seq<char>>>,
    s: Seq<char>,
    packages: Seq<AnalyzedPackage>,
) -> Result<Set<(SymbolV, Seq<char>)>, AnalysisErrorV>
    decreases exs,
{
    if exs.len() == 0 {
        Ok(Set::empty())
    } else {
        let head: Result<Set<(SymbolV, Seq<char>)>, AnalysisErrorV> = match exs[0] {
            ExportV::AllFrom(u) => match find_module_pkgs(packages, u) {
                None => Err(AnalysisErrorV::MissingModule(u)),
                Some(um) => if um.export_set().contains(ExportV::Symbol(s)) {
                    Ok(Set::empty().insert((SymbolV::Symbol(s), u)))
                } else {
                    Ok(Set::empty())
                },
            },
            ExportV::Reexport(u) => match find_module_pkgs(packages, u) {
                None => Err(AnalysisErrorV::MissingModule(u)),
                Some(um) => if um.export_set().contains(ExportV::Symbol(s)) {
                    Ok(Set::empty().insert((SymbolV::Symbol(s), u)))
                } else {
                    Ok(Set::empty())
                },
            },
            _ => Ok(Set::<(SymbolV, Seq<char>)>::empty()),
        };
        match head {
            Err(e) => Err(e),
            Ok(hs) => lift_pairs(hs, hop_pairs(exs.drop_first(), s, packages)),
        }
    }
}

/// The pairs one import binding from the resolved target `from` reaches.
/// A named import reaches its name at the target unconditionally, and —
/// only when the target does not export the name directly — additionally
/// whatever one re-export hop reaches.  A default import reaches the
/// target's default export.  A namespace import reaches exactly the members
/// recorded as used under its alias.
pub open spec fn resolve_import_pairs(
    iv: ImportV,
    from: Seq<char>,
    usages: Set<UsageV>,
    packages: Seq<AnalyzedPackage>,
) -> Result<Set<(SymbolV, Seq<char>)>, AnalysisErrorV> {
    match iv {
        ImportV::Named(s) => {
            let base = Set::empty().insert((SymbolV::Symbol(s), from));
            match find_module_pkgs(packages, from) {
                None => Ok(base),
                Some(tm) => if tm.export_set().contains(ExportV::Symbol(s)) {
                    Ok(base)
                } else {
                    lift_pairs(base, hop_pairs(tm.exports.deep_view(), s, packages))
                },
            }
        },
        ImportV::Default(_) => Ok(Set::empty().insert((SymbolV::Default, from))),
        ImportV::Namespace(alias) => Ok(
            Set::new(
                |pr: (SymbolV, Seq<char>)|
                    exists|memb: Seq<char>|
                        #[trigger] usages.contains(UsageV::Namespace(memb, alias)) && pr == (
                        SymbolV::Symbol(memb),
                        from,
                        ),
            ),
        ),
    }
}

/// The pairs all bindings of one import statement reach.
pub open spec fn entry_pairs(
    symbols: Seq<ImportV>,
    from: Seq<char>,
    usages: Set<UsageV>,
    packages: Seq<AnalyzedPackage>,
) -> Result<Set<(SymbolV, Seq<char>)>, AnalysisErrorV>
    decreases symbols,
{
    if symbols.len() == 0 {
        Ok(Set::empty())
    } else {
        match resolve_import_pairs(symbols[0], from, usages, packages) {
            Err(e) => Err(e),
            Ok(s) => lift_pairs(s, entry_pairs(symbols.drop_first(), from, usages, packages)),
        }
    }
}

/// The pairs all import statements of one module reach.
pub open spec fn import_pairs_of_entries(
    entries: Seq<ImportedSymbolV<Seq<char>>>,
    usages: Set<UsageV>,
    packages: Seq<AnalyzedPackage>,
) -> Result<Set<(SymbolV, Seq<char>)>, AnalysisErrorV>
    decreases entries,
{
    if entries.len() == 0 {
        Ok(Set::empty())
    } else {
        match entry_pairs(entries[0].symbols, entries[0].from, usages, packages) {
            Err(e) => Err(e),
            Ok(s) => lift_pairs(s, import_pairs_of_entries(entries.drop_first(), usages, packages)),
        }
    }
}

/// The pairs one module's imports reach.
pub open spec fn import_pairs_of_module(
    m: AnalyzedModule<String>,
    packages: Seq<AnalyzedPackage>,
) -> Result<Set<(SymbolV, Seq<char>)>, AnalysisErrorV> {
    import_pairs_of_entries(m.symbols.imports.deep_view(), m.symbols.usage_set(), packages)
}

/// The pairs a sequence of modules' imports reach.
pub open spec fn import_pairs_of_modules(
    ms: Seq<AnalyzedModule<String>>,
    packages: Seq<AnalyzedPackage>,
) -> Result<Set<(SymbolV, Seq<char>)>, AnalysisErrorV>
    decreases ms,
{
    if ms.len() == 0 {
        Ok(Set::empty())
    } else {
        match import_pairs_of_module(ms[0], packages) {
            Err(e) => Err(e),
            Ok(s) => lift_pairs(s, import_pairs_of_modules(ms.drop_first(), packages)),
        }
    }
}

/// Every pair any resolved import of the workspace reaches.
pub open spec fn all_imports(packages: Seq<AnalyzedPackage>) -> Result<
    Set<(SymbolV, Seq<char>)>,
    AnalysisErrorV,
>
    decreases packages,
{
    all_imports_from(packages, packages)
}

/// Every pair any resolved import of `rest` reaches, with targets looked up
/// in the whole workspace.
pub open spec fn all_imports_from(
    rest: Seq<AnalyzedPackage>,
    packages: Seq<AnalyzedPackage>,
) -> Result<Set<(SymbolV, Seq<char>)>, AnalysisErrorV>
    decreases rest,
{
    if rest.len() == 0 {
        Ok(Set::empty())
    } else {
        match import_pairs_of_modules(rest[0].modules@, packages) {
            Err(e) => Err(e),
            Ok(s) => lift_pairs(s, all_imports_from(rest.drop_first(), packages)),
        }
    }
}

/// Every forwarding target among these exports is present in the graph;
/// the first absent one is the error.
pub open spec fn check_exports_closed(
    exs: Seq<ExportV<Seq<char>>>,
    packages: Seq<AnalyzedPackage>,
) -> Result<(), AnalysisErrorV>
    decreases exs,
{
    if exs.len() == 0 {
        Ok(())
    } else {
        let head: Result<(), AnalysisErrorV> = match exs[0] {
            ExportV::AllFrom(u) => if find_module_pkgs(packages, u) is Some {
                Ok(())
            } else {
                Err(AnalysisErrorV::MissingModule(u))
            },
            ExportV::Reexport(u) => if find_module_pkgs(packages, u) is Some {
                Ok(())
            } else {
                Err(AnalysisErrorV::MissingModule(u))
            },
            _ => Ok(()),
        };
        match head {
            Err(e) => Err(e),
            Ok(_) => check_exports_closed(exs.drop_first(), packages),
        }
    }
}

/// Every forwarding target of these modules' exports is present in the
/// graph.
pub open spec fn check_modules_closed(
    ms: Seq<AnalyzedModule<String>>,
    packages: Seq<AnalyzedPackage>,
) -> Result<(), AnalysisErrorV>
    decreases ms,
{
    if ms.len() == 0 {
        Ok(())
    } else {
        match check_exports_closed(ms[0].symbols.exports.deep_view(), packages) {
            Err(e) => Err(e),
            Ok(_) => check_modules_closed(ms.drop_first(), packages),
        }
    }
}

/// The graph is closed: every forwarding export of every module of `rest`
/// names a module present in the workspace.
pub open spec fn check_graph_closed(
    rest: Seq<AnalyzedPackage>,
    packages: Seq<AnalyzedPackage>,
) -> Result<(), AnalysisErrorV>
    decreases rest,
{
    if rest.len() == 0 {
        Ok(())
    } else {
        match check_modules_closed(rest[0].modules@, packages) {
            Err(e) => Err(e),
            Ok(_) => check_graph_closed(rest.drop_first(), packages),
        }
    }
}

/// What the analysis reports: every export pair no import reaches, or the
/// first fatal graph inconsistency met.  The graph must be closed over the
/// workspace: a forwarding export whose resolved target is absent from the
/// graph is fatal, whether or not any import examines it.
pub open spec fn unused_export_pairs(packages: Seq<AnalyzedPackage>) -> Result<
    Set<(SymbolV, Seq<char>)>,
    AnalysisErrorV,
> {
    match check_graph_closed(packages, packages) {
        Err(e) => Err(e),
        Ok(_) => match all_imports(packages) {
            Err(e) => Err(e),
            Ok(imps) => Ok(all_exports(packages).difference(imps)),
        },
    }
}

/// Whether the record directly declares `symbol` as a named export.
fn exports_symbol_in(ms: &ModuleSymbols<String>, symbol: &String) -> (r: bool)
    ensures
        r == ms.export_set().contains(ExportV::<Seq<char>>::Symbol(symbol@)),
{
    let n = ms.exports.len();
    let mut i: usize = 0;
    while i < n
        invariant
            n == ms.exports@.len(),
            i <= n,
            forall|k: int|
                0 <= k < i ==> ms.exports.deep_view()[k] != ExportV::<Seq<char>>::Symbol(symbol@),
        decreases n - i,
    {
        match &ms.exports[i] {
            Export::Symbol(s) => {
                if *s == *symbol {
                    assert(ms.exports.deep_view()[i as int] == ExportV::<Seq<char>>::Symbol(
                        symbol@,
                    ));
                    return true;
                }
            },
            _ => {},
        }
        proof {
            assert(ms.exports.deep_view()[i as int] == ms.exports@[i as int].deep_view());
        }
        i += 1;
    }
    false
}

/// The first module listed under `path` in one package's module list.
fn find_module_in_modules<'a>(ms: &'a Vec<AnalyzedModule<String>>, path: &String) -> (r: Option<
    &'a ModuleSymbols<String>,
>)
    ensures
        match r {
            Some(m) => find_module(ms@, path@) == Some(*m),
            None => find_module(ms@, path@) is None,
        },
{
    let n = ms.len();
    let mut i: usize = 0;
    proof {
        assert(ms@.skip(0) =~= ms@);
    }
    while i < n
        invariant
            n == ms@.len(),
            i <= n,
            find_module(ms@, path@) == find_module(ms@.skip(i as int), path@),
        decreases n - i,
    {
        proof {
            assert(ms@.skip(i as int)[0] == ms@[i as int]);
            assert(ms@.skip(i as int).drop_first() =~= ms@.skip(i as int + 1));
        }
        if ms[i].path == *path {
            return Some(&ms[i].symbols);
        }
        i += 1;
    }
    proof {
        assert(ms@.skip(n as int) =~= Seq::<AnalyzedModule<String>>::empty());
    }
    None
}

/// The module at `path`, searching the packages in order.
fn find_module_in<'a>(packages: &'a Vec<AnalyzedPackage>, path: &String) -> (r: Option<
    &'a ModuleSymbols<String>,
>)
    ensures
        match r {
            Some(m) => find_module_pkgs(packages@, path@) == Some(*m),
            None => find_module_pkgs(packages@, path@) is None,
        },
{
    let n = packages.len();
    let mut i: usize = 0;
    proof {
        assert(packages@.skip(0) =~= packages@);
    }
    while i < n
        invariant
            n == packages@.len(),
            i <= n,
            find_module_pkgs(packages@, path@) == find_module_pkgs(
                packages@.skip(i as int),
                path@,
            ),
        decreases n - i,
    {
        proof {
            assert(packages@.skip(i as int)[0] == packages@[i as int]);
            assert(packages@.skip(i as int).drop_first() =~= packages@.skip(i as int + 1));
        }
        match find_module_in_modules(&packages[i].modules, path) {
            Some(m) => {
                return Some(m);
            },
            None => {},
        }
        i += 1;
    }
    proof {
        assert(packages@.skip(n as int) =~= Seq::<AnalyzedPackage>::empty());
    }
    None
}

/// A copy of a report symbol.
pub fn clone_symbol(s: &Symbol) -> (r: Symbol)
    ensures
        r == *s,
{
    match s {
        Symbol::Default => Symbol::Default,
        Symbol::Symbol(n) => Symbol::Symbol(n.clone()),
    }
}

/// A copy of one finding.
pub fn clone_unused_export(u: &UnusedExport) -> (r: UnusedExport)
    ensures
        r == *u,
{
    UnusedExport { filename: u.filename.clone(), symbol: clone_symbol(&u.symbol) }
}

/// The pairs recorded under the alias of a namespace import among the
/// first `k` usages.
spec fn ns_prefix(us: Seq<UsageV>, k: int, alias: Seq<char>, from: Seq<char>) -> Set<
    (SymbolV, Seq<char>),
> {
    Set::new(
        |pr: (SymbolV, Seq<char>)|
            exists|k2: int|
                0 <= k2 < k && ((#[trigger] us[k2]) matches UsageV::Namespace(memb, a2) && a2
                    == alias && pr == (SymbolV::Symbol(memb), from)),
    )
}

/// Follows one forwarding edge while resolving a named import: when the
/// forwarded module directly exports `sname`, its pair joins `out`; a
/// forwarded module absent from the graph is the fatal inconsistency.
fn follow_hop_edge(
    out: &mut Vec<(Symbol, String)>,
    sname: &String,
    u: &String,
    packages: &Vec<AnalyzedPackage>,
) -> (r: Result<(), AnalysisError>)
    requires
        distinct_seq(old(out)@),
    ensures
        match r {
            Ok(_) => {
                &&& distinct_seq(final(out)@)
                &&& find_module_pkgs(packages@, u@) matches Some(um)
                    && final(out).deep_view().to_set() == old(out).deep_view().to_set().union(
                    (if um.export_set().contains(ExportV::<Seq<char>>::Symbol(sname@)) {
                        Set::<(SymbolV, Seq<char>)>::empty().insert((SymbolV::Symbol(sname@), u@))
                    } else {
                        Set::<(SymbolV, Seq<char>)>::empty()
                    }),
                )
            },
            Err(e) => {
                &&& find_module_pkgs(packages@, u@) is None
                &&& e.deep_view() == AnalysisErrorV::MissingModule(u@)
                &&& *final(out) == *old(out)
            },
        },
{
    match find_module_in(packages, u) {
        None => Err(AnalysisError::MissingModule(u.clone())),
        Some(um) => {
            let ghost head: Set<(SymbolV, Seq<char>)> = if um.export_set().contains(
                ExportV::<Seq<char>>::Symbol(sname@),
            ) {
                Set::empty().insert((SymbolV::Symbol(sname@), u@))
            } else {
                Set::empty()
            };
            if exports_symbol_in(um, sname) {
                vec_set_insert(out, (Symbol::Symbol(sname.clone()), u.clone()));
            }
            proof {
                assert(out.deep_view().to_set() =~= old(out).deep_view().to_set().union(head));
            }
            Ok(())
        },
    }
}

/// The pairs one import binding from the resolved target `from` reaches;
/// see `resolve_import_pairs` for the exact rules.  `Err` when a re-export
/// hop names a module absent from the graph.
pub fn resolve_import(
    import: &Import,
    from: &String,
    module_symbols: &ModuleSymbols<String>,
    packages: &Vec<AnalyzedPackage>,
) -> (r: Result<Vec<(Symbol, String)>, AnalysisError>)
    ensures
        match r {
            Ok(v) => {
                &&& distinct_seq(v@)
                &&& resolve_import_pairs(
                    import.deep_view(),
                    from@,
                    module_symbols.usage_set(),
                    packages@,
                ) == Ok::<Set<(SymbolV, Seq<char>)>, AnalysisErrorV>(v.deep_view().to_set())
            },
            Err(e) => resolve_import_pairs(
                import.deep_view(),
                from@,
                module_symbols.usage_set(),
                packages@,
            ) == Err::<Set<(SymbolV, Seq<char>)>, AnalysisErrorV>(e.deep_view()),
        },
{
    match import {
        Import::Named(s) => {
            let mut out: Vec<(Symbol, String)> = Vec::new();
            vec_set_insert(&mut out, (Symbol::Symbol(s.clone()), from.clone()));
            let ghost base = Set::<(SymbolV, Seq<char>)>::empty().insert(
                (SymbolV::Symbol(s@), from@),
            );
            proof {
                assert(out.deep_view().to_set() =~= base);
            }
            match find_module_in(packages, from) {
                None => Ok(out),
                Some(tm) => {
                    if exports_symbol_in(tm, s) {
                        Ok(out)
                    } else {
                        let ghost exs = tm.exports.deep_view();
                        let ghost goal = lift_pairs(base, hop_pairs(exs, s@, packages@));
                        let n = tm.exports.len();
                        let mut j: usize = 0;
                        proof {
                            assert(exs.skip(0) =~= exs);
                        }
                        while j < n
                            invariant
                                n == tm.exports@.len(),
                                j <= n,
                                exs == tm.exports.deep_view(),
                                distinct_seq(out@),
                                goal == lift_pairs(
                                    out.deep_view().to_set(),
                                    hop_pairs(exs.skip(j as int), s@, packages@),
                                ),
                                goal == lift_pairs(base, hop_pairs(exs, s@, packages@)),
                                goal == resolve_import_pairs(
                                    import.deep_view(),
                                    from@,
                                    module_symbols.usage_set(),
                                    packages@,
                                ),
                            decreases n - j,
                        {
                            proof {
                                assert(exs.skip(j as int)[0] == exs[j as int]);
                                assert(exs.skip(j as int).drop_first() =~= exs.skip(j as int + 1));
                                assert(exs[j as int] == tm.exports@[j as int].deep_view());
                            }
                            let ghost prev = out.deep_view().to_set();
                            let ghost hr = hop_pairs(exs.skip(j as int + 1), s@, packages@);
                            let edge: Option<&String> = match &tm.exports[j] {
                                Export::AllFrom(u) => {
                                    proof {
                                        assert(exs[j as int] == ExportV::<Seq<char>>::AllFrom(u@));
                                    }
                                    Some(u)
                                },
                                Export::Reexport(rx) => {
                                    proof {
                                        assert(exs[j as int] == ExportV::<Seq<char>>::Reexport(
                                            rx.from@,
                                        ));
                                    }
                                    Some(&rx.from)
                                },
                                _ => None,
                            };
                            match edge {
                                Some(u) => {
                                    match follow_hop_edge(&mut out, s, u, packages) {
                                        Err(e) => {
                                            proof {
                                                assert(hop_pairs(exs.skip(j as int), s@, packages@)
                                                    == Err::<
                                                    Set<(SymbolV, Seq<char>)>,
                                                    AnalysisErrorV,
                                                >(AnalysisErrorV::MissingModule(u@)));
                                            }
                                            return Err(e);
                                        },
                                        Ok(_) => {
                                            proof {
                                                let um = find_module_pkgs(packages@, u@)->0;
                                                let hset: Set<(SymbolV, Seq<char>)> = if um.export_set().contains(
                                                    ExportV::<Seq<char>>::Symbol(s@),
                                                ) {
                                                    Set::empty().insert(
                                                        (SymbolV::Symbol(s@), u@),
                                                    )
                                                } else {
                                                    Set::empty()
                                                };
                                                assert(out.deep_view().to_set() == prev.union(
                                                    hset,
                                                ));
                                                assert(hop_pairs(exs.skip(j as int), s@, packages@)
                                                    == lift_pairs(hset, hr));
                                                assert(hr matches Ok(s2) ==> prev.union(
                                                    hset,
                                                ).union(s2) =~= prev.union(hset.union(s2)));
                                                assert(goal == lift_pairs(
                                                    out.deep_view().to_set(),
                                                    hr,
                                                ));
                                            }
                                        },
                                    }
                                },
                                None => {
                                    proof {
                                        assert(hop_pairs(exs.skip(j as int), s@, packages@)
                                            == lift_pairs(Set::empty(), hr));
                                        assert(hr matches Ok(s2) ==> prev.union(s2) =~= prev.union(
                                            Set::empty().union(s2),
                                        ));
                                        assert(goal == lift_pairs(out.deep_view().to_set(), hr));
                                    }
                                },
                            }
                            j += 1;
                        }
                        proof {
                            assert(exs.skip(n as int) =~= Seq::<ExportV<Seq<char>>>::empty());
                            assert(out.deep_view().to_set().union(Set::empty())
                                =~= out.deep_view().to_set());
                        }
                        Ok(out)
                    }
                },
            }
        },
        Import::Default(_) => {
            let mut out: Vec<(Symbol, String)> = Vec::new();
            vec_set_insert(&mut out, (Symbol::Default, from.clone()));
            proof {
                assert(out.deep_view().to_set() =~= Set::<(SymbolV, Seq<char>)>::empty().insert(
                    (SymbolV::Default, from@),
                ));
            }
            Ok(out)
        },
        Import::Namespace(alias) => {
            let mut out: Vec<(Symbol, String)> = Vec::new();
            let ghost us = module_symbols.usages.deep_view();
            let n = module_symbols.usages.len();
            let mut k: usize = 0;
            proof {
                assert(out.deep_view().to_set() =~= ns_prefix(us, 0, alias@, from@));
            }
            while k < n
                invariant
                    n == module_symbols.usages@.len(),
                    k <= n,
                    us == module_symbols.usages.deep_view(),
                    distinct_seq(out@),
                    out.deep_view().to_set() == ns_prefix(us, k as int, alias@, from@),
                decreases n - k,
            {
                let ghost prev = out.deep_view().to_set();
                proof {
                    assert(us[k as int] == module_symbols.usages@[k as int].deep_view());
                }
                match &module_symbols.usages[k] {
                    Usage::Namespace(memb, a) => {
                        if *a == *alias {
                            vec_set_insert(&mut out, (Symbol::Symbol(memb.clone()), from.clone()));
                            proof {
                                assert(out.deep_view().to_set() =~= ns_prefix(
                                    us,
                                    k as int + 1,
                                    alias@,
                                    from@,
                                )) by {
                                    assert forall|pr: (SymbolV, Seq<char>)|
                                        ns_prefix(us, k as int + 1, alias@, from@).contains(pr)
                                        implies out.deep_view().to_set().contains(pr) by {
                                        let k2 = choose|k2: int|
                                            0 <= k2 < k + 1 && ((#[trigger] us[k2])
                                                matches UsageV::Namespace(memb2, a2) && a2 == alias@
                                                && pr == (SymbolV::Symbol(memb2), from@));
                                        if k2 < k {
                                            assert(ns_prefix(us, k as int, alias@, from@).contains(
                                                pr,
                                            ));
                                        }
                                    }
                                    assert forall|pr: (SymbolV, Seq<char>)|
                                        out.deep_view().to_set().contains(pr)
                                        implies ns_prefix(us, k as int + 1, alias@, from@).contains(
                                        pr,
                                    ) by {
                                        if prev.contains(pr) {
                                            let k2 = choose|k2: int|
                                                0 <= k2 < k && ((#[trigger] us[k2])
                                                    matches UsageV::Namespace(memb2, a2) && a2
                                                    == alias@ && pr == (
                                                    SymbolV::Symbol(memb2),
                                                    from@,
                                                    ));
                                            assert(0 <= k2 < k + 1);
                                        } else {
                                            assert(us[k as int] matches UsageV::Namespace(
                                                memb2,
                                                a2,
                                            ) && a2 == alias@ && pr == (
                                                SymbolV::Symbol(memb2),
                                                from@,
                                            ));
                                        }
                                    }
                                }
                            }
                        } else {
                            proof {
                                lemma_ns_prefix_skip(us, k as int, alias@, from@);
                            }
                        }
                    },
                    _ => {
                        proof {
                            lemma_ns_prefix_skip(us, k as int, alias@, from@);
                        }
                    },
                }
                k += 1;
            }
            proof {
                let target = Set::new(
                    |pr: (SymbolV, Seq<char>)|
                        exists|memb: Seq<char>|
                            #[trigger] module_symbols.usage_set().contains(
                                UsageV::Namespace(memb, alias@),
                            ) && pr == (SymbolV::Symbol(memb), from@),
                );
                assert(out.deep_view().to_set() =~= target) by {
                    assert forall|pr: (SymbolV, Seq<char>)|
                        ns_prefix(us, n as int, alias@, from@).contains(pr) implies target.contains(
                        pr,
                    ) by {
                        let k2 = choose|k2: int|
                            0 <= k2 < n && ((#[trigger] us[k2]) matches UsageV::Namespace(
                                memb2,
                                a2,
                            ) && a2 == alias@ && pr == (SymbolV::Symbol(memb2), from@));
                        assert(us.to_set().contains(us[k2]));
                        match us[k2] {
                            UsageV::Namespace(memb2, a2) => {
                                assert(module_symbols.usage_set().contains(
                                    UsageV::Namespace(memb2, alias@),
                                ));
                            },
                            _ => {},
                        }
                    }
                    assert forall|pr: (SymbolV, Seq<char>)|
                        target.contains(pr) implies ns_prefix(us, n as int, alias@, from@).contains(
                        pr,
                    ) by {
                        let memb = choose|memb: Seq<char>|
                            #[trigger] module_symbols.usage_set().contains(
                                UsageV::Namespace(memb, alias@),
                            ) && pr == (SymbolV::Symbol(memb), from@);
                        let k2 = choose|k2: int|
                            0 <= k2 < us.len() && us[k2] == UsageV::Namespace(memb, alias@);
                        assert(us[k2] matches UsageV::Namespace(m2, a2) && a2 == alias@ && pr == (
                            SymbolV::Symbol(m2),
                            from@,
                        ));
                    }
                }
            }
            Ok(out)
        },
    }
}

/// The prefix of recorded pairs is unchanged by a usage that is not a
/// namespace member access under the alias.
proof fn lemma_ns_prefix_skip(us: Seq<UsageV>, k: int, alias: Seq<char>, from: Seq<char>)
    requires
        0 <= k < us.len(),
        !(us[k] matches UsageV::Namespace(m, a) && a == alias),
    ensures
        ns_prefix(us, k + 1, alias, from) == ns_prefix(us, k, alias, from),
{
    assert(ns_prefix(us, k + 1, alias, from) =~= ns_prefix(us, k, alias, from)) by {
        assert forall|pr: (SymbolV, Seq<char>)|
            ns_prefix(us, k + 1, alias, from).contains(pr) implies ns_prefix(
            us,
            k,
            alias,
            from,
        ).contains(pr) by {
            let k2 = choose|k2: int|
                0 <= k2 < k + 1 && ((#[trigger] us[k2]) matches UsageV::Namespace(memb2, a2) && a2
                    == alias && pr == (SymbolV::Symbol(memb2), from));
            assert(k2 < k);
        }
        assert forall|pr: (SymbolV, Seq<char>)|
            ns_prefix(us, k, alias, from).contains(pr) implies ns_prefix(
            us,
            k + 1,
            alias,
            from,
        ).contains(pr) by {
            let k2 = choose|k2: int|
                0 <= k2 < k && ((#[trigger] us[k2]) matches UsageV::Namespace(memb2, a2) && a2
                    == alias && pr == (SymbolV::Symbol(memb2), from));
            assert(0 <= k2 < k + 1);
        }
    }
}

/// The (symbol, module) pairs of one module's named exports.
fn export_pairs_module(m: &AnalyzedModule<String>) -> (r: Vec<(Symbol, String)>)
    ensures
        distinct_seq(r@),
        r.deep_view().to_set() == pairs_of_exports(m.symbols.exports.deep_view(), m.path@),
{
    let ghost exs = m.symbols.exports.deep_view();
    let ghost total = pairs_of_exports(exs, m.path@);
    let mut out: Vec<(Symbol, String)> = Vec::new();
    let n = m.symbols.exports.len();
    let mut j: usize = 0;
    proof {
        assert(exs.skip(0) =~= exs);
        assert(out.deep_view().to_set().union(total) =~= total);
    }
    while j < n
        invariant
            n == m.symbols.exports@.len(),
            j <= n,
            exs == m.symbols.exports.deep_view(),
            total == pairs_of_exports(exs, m.path@),
            distinct_seq(out@),
            out.deep_view().to_set().union(pairs_of_exports(exs.skip(j as int), m.path@))
                == total,
        decreases n - j,
    {
        let ghost prev = out.deep_view().to_set();
        proof {
            assert(exs.skip(j as int)[0] == exs[j as int]);
            assert(exs.skip(j as int).drop_first() =~= exs.skip(j as int + 1));
            assert(exs[j as int] == m.symbols.exports@[j as int].deep_view());
        }
        match &m.symbols.exports[j] {
            Export::Symbol(sym) => {
                vec_set_insert(&mut out, (Symbol::Symbol(sym.clone()), m.path.clone()));
                proof {
                    assert(out.deep_view().to_set().union(
                        pairs_of_exports(exs.skip(j as int + 1), m.path@),
                    ) =~= prev.union(pairs_of_exports(exs.skip(j as int), m.path@)));
                }
            },
            _ => {
                proof {
                    assert(out.deep_view().to_set().union(
                        pairs_of_exports(exs.skip(j as int + 1), m.path@),
                    ) =~= prev.union(pairs_of_exports(exs.skip(j as int), m.path@)));
                }
            },
        }
        j += 1;
    }
    proof {
        assert(exs.skip(n as int) =~= Seq::<ExportV<Seq<char>>>::empty());
        assert(out.deep_view().to_set() =~= total);
    }
    out
}

/// The export pairs of a package's modules.
fn export_pairs_modules(ms: &Vec<AnalyzedModule<String>>) -> (r: Vec<(Symbol, String)>)
    ensures
        distinct_seq(r@),
        r.deep_view().to_set() == export_pairs_of_modules(ms@),
{
    let ghost total = export_pairs_of_modules(ms@);
    let mut out: Vec<(Symbol, String)> = Vec::new();
    let n = ms.len();
    let mut i: usize = 0;
    proof {
        assert(ms@.skip(0) =~= ms@);
        assert(out.deep_view().to_set().union(total) =~= total);
    }
    while i < n
        invariant
            n == ms@.len(),
            i <= n,
            total == export_pairs_of_modules(ms@),
            distinct_seq(out@),
            out.deep_view().to_set().union(export_pairs_of_modules(ms@.skip(i as int))) == total,
        decreases n - i,
    {
        let ghost prev = out.deep_view().to_set();
        proof {
            assert(ms@.skip(i as int)[0] == ms@[i as int]);
            assert(ms@.skip(i as int).drop_first() =~= ms@.skip(i as int + 1));
        }
        let u = export_pairs_module(&ms[i]);
        vec_set_extend(&mut out, u);
        proof {
            assert(out.deep_view().to_set().union(
                export_pairs_of_modules(ms@.skip(i as int + 1)),
            ) =~= prev.union(export_pairs_of_modules(ms@.skip(i as int))));
        }
        i += 1;
    }
    proof {
        assert(ms@.skip(n as int) =~= Seq::<AnalyzedModule<String>>::empty());
        assert(out.deep_view().to_set() =~= total);
    }
    out
}

/// Every named export of the workspace, as (symbol, module) pairs.
pub fn get_all_exports(packages: &Vec<AnalyzedPackage>) -> (r: Vec<(Symbol, String)>)
    ensures
        distinct_seq(r@),
        r.deep_view().to_set() == all_exports(packages@),
{
    let ghost total = all_exports(packages@);
    let mut out: Vec<(Symbol, String)> = Vec::new();
    let n = packages.len();
    let mut i: usize = 0;
    proof {
        assert(packages@.skip(0) =~= packages@);
        assert(out.deep_view().to_set().union(total) =~= total);
    }
    while i < n
        invariant
            n == packages@.len(),
            i <= n,
            total == all_exports(packages@),
            distinct_seq(out@),
            out.deep_view().to_set().union(all_exports(packages@.skip(i as int))) == total,
        decreases n - i,
    {
        let ghost prev = out.deep_view().to_set();
        proof {
            assert(packages@.skip(i as int)[0] == packages@[i as int]);
            assert(packages@.skip(i as int).drop_first() =~= packages@.skip(i as int + 1));
        }
        let u = export_pairs_modules(&packages[i].modules);
        vec_set_extend(&mut out, u);
        proof {
            assert(out.deep_view().to_set().union(all_exports(packages@.skip(i as int + 1)))
                =~= prev.union(all_exports(packages@.skip(i as int))));
        }
        i += 1;
    }
    proof {
        assert(packages@.skip(n as int) =~= Seq::<AnalyzedPackage>::empty());
        assert(out.deep_view().to_set() =~= total);
    }
    out
}

/// The pairs all bindings of one import statement reach.
fn entry_pairs_exec(
    entry: &crate::module_symbols::ImportedSymbol<String>,
    module_symbols: &ModuleSymbols<String>,
    packages: &Vec<AnalyzedPackage>,
) -> (r: Result<Vec<(Symbol, String)>, AnalysisError>)
    ensures
        match r {
            Ok(v) => {
                &&& distinct_seq(v@)
                &&& entry_pairs(
                    entry.symbols.deep_view(),
                    entry.from@,
                    module_symbols.usage_set(),
                    packages@,
                ) == Ok::<Set<(SymbolV, Seq<char>)>, AnalysisErrorV>(v.deep_view().to_set())
            },
            Err(e) => entry_pairs(
                entry.symbols.deep_view(),
                entry.from@,
                module_symbols.usage_set(),
                packages@,
            ) == Err::<Set<(SymbolV, Seq<char>)>, AnalysisErrorV>(e.deep_view()),
        },
{
    let ghost sv = entry.symbols.deep_view();
    let ghost us = module_symbols.usage_set();
    let ghost goal = entry_pairs(sv, entry.from@, us, packages@);
    let mut out: Vec<(Symbol, String)> = Vec::new();
    let n = entry.symbols.len();
    let mut b: usize = 0;
    proof {
        assert(sv.skip(0) =~= sv);
        assert(out.deep_view().to_set() =~= Set::<(SymbolV, Seq<char>)>::empty());
        assert(goal matches Ok(s0) ==> Set::<(SymbolV, Seq<char>)>::empty().union(s0) =~= s0);
    }
    while b < n
        invariant
            n == entry.symbols@.len(),
            b <= n,
            sv == entry.symbols.deep_view(),
            us == module_symbols.usage_set(),
            goal == entry_pairs(sv, entry.from@, us, packages@),
            distinct_seq(out@),
            goal == lift_pairs(
                out.deep_view().to_set(),
                entry_pairs(sv.skip(b as int), entry.from@, us, packages@),
            ),
        decreases n - b,
    {
        let ghost prev = out.deep_view().to_set();
        proof {
            assert(sv.skip(b as int)[0] == sv[b as int]);
            assert(sv.skip(b as int).drop_first() =~= sv.skip(b as int + 1));
            assert(sv[b as int] == entry.symbols@[b as int].deep_view());
        }
        match resolve_import(&entry.symbols[b], &entry.from, module_symbols, packages) {
            Err(e) => {
                return Err(e);
            },
            Ok(v) => {
                let ghost vs = v.deep_view().to_set();
                let ghost rest = entry_pairs(sv.skip(b as int + 1), entry.from@, us, packages@);
                vec_set_extend(&mut out, v);
                proof {
                    assert(entry_pairs(sv.skip(b as int), entry.from@, us, packages@)
                        == lift_pairs(vs, rest));
                    assert(rest matches Ok(s2) ==> out.deep_view().to_set().union(s2)
                        =~= prev.union(vs.union(s2)));
                    assert(goal == lift_pairs(out.deep_view().to_set(), rest));
                }
            },
        }
        b += 1;
    }
    proof {
        assert(sv.skip(n as int) =~= Seq::<ImportV>::empty());
        assert(out.deep_view().to_set().union(Set::empty()) =~= out.deep_view().to_set());
    }
    Ok(out)
}

/// The pairs one module's imports reach.
fn module_import_pairs(
    m: &AnalyzedModule<String>,
    packages: &Vec<AnalyzedPackage>,
) -> (r: Result<Vec<(Symbol, String)>, AnalysisError>)
    ensures
        match r {
            Ok(v) => {
                &&& distinct_seq(v@)
                &&& import_pairs_of_module(*m, packages@) == Ok::<
                    Set<(SymbolV, Seq<char>)>,
                    AnalysisErrorV,
                >(v.deep_view().to_set())
            },
            Err(e) => import_pairs_of_module(*m, packages@) == Err::<
                Set<(SymbolV, Seq<char>)>,
                AnalysisErrorV,
            >(e.deep_view()),
        },
{
    let ghost ev = m.symbols.imports.deep_view();
    let ghost us = m.symbols.usage_set();
    let ghost goal = import_pairs_of_entries(ev, us, packages@);
    let mut out: Vec<(Symbol, String)> = Vec::new();
    let n = m.symbols.imports.len();
    let mut i: usize = 0;
    proof {
        assert(ev.skip(0) =~= ev);
        assert(out.deep_view().to_set() =~= Set::<(SymbolV, Seq<char>)>::empty());
        assert(goal matches Ok(s0) ==> Set::<(SymbolV, Seq<char>)>::empty().union(s0) =~= s0);
    }
    while i < n
        invariant
            n == m.symbols.imports@.len(),
            i <= n,
            ev == m.symbols.imports.deep_view(),
            us == m.symbols.usage_set(),
            goal == import_pairs_of_entries(ev, us, packages@),
            distinct_seq(out@),
            goal == lift_pairs(
                out.deep_view().to_set(),
                import_pairs_of_entries(ev.skip(i as int), us, packages@),
            ),
        decreases n - i,
    {
        let ghost prev = out.deep_view().to_set();
        proof {
            assert(ev.skip(i as int)[0] == ev[i as int]);
            assert(ev.skip(i as int).drop_first() =~= ev.skip(i as int + 1));
            assert(ev[i as int] == m.symbols.imports@[i as int].deep_view());
        }
        match entry_pairs_exec(&m.symbols.imports[i], &m.symbols, packages) {
            Err(e) => {
                return Err(e);
            },
            Ok(v) => {
                let ghost vs = v.deep_view().to_set();
                let ghost rest = import_pairs_of_entries(ev.skip(i as int + 1), us, packages@);
                vec_set_extend(&mut out, v);
                proof {
                    assert(import_pairs_of_entries(ev.skip(i as int), us, packages@)
                        == lift_pairs(vs, rest));
                    assert(rest matches Ok(s2) ==> out.deep_view().to_set().union(s2)
                        =~= prev.union(vs.union(s2)));
                    assert(goal == lift_pairs(out.deep_view().to_set(), rest));
                }
            },
        }
        i += 1;
    }
    proof {
        assert(ev.skip(n as int) =~= Seq::<ImportedSymbolV<Seq<char>>>::empty());
        assert(out.deep_view().to_set().union(Set::empty()) =~= out.deep_view().to_set());
    }
    Ok(out)
}

/// The pairs a package's modules' imports reach.
fn modules_import_pairs(
    ms: &Vec<AnalyzedModule<String>>,
    packages: &Vec<AnalyzedPackage>,
) -> (r: Result<Vec<(Symbol, String)>, AnalysisError>)
    ensures
        match r {
            Ok(v) => {
                &&& distinct_seq(v@)
                &&& import_pairs_of_modules(ms@, packages@) == Ok::<
                    Set<(SymbolV, Seq<char>)>,
                    AnalysisErrorV,
                >(v.deep_view().to_set())
            },
            Err(e) => import_pairs_of_modules(ms@, packages@) == Err::<
                Set<(SymbolV, Seq<char>)>,
                AnalysisErrorV,
            >(e.deep_view()),
        },
{
    let ghost goal = import_pairs_of_modules(ms@, packages@);
    let mut out: Vec<(Symbol, String)> = Vec::new();
    let n = ms.len();
    let mut i: usize = 0;
    proof {
        assert(ms@.skip(0) =~= ms@);
        assert(out.deep_view().to_set() =~= Set::<(SymbolV, Seq<char>)>::empty());
        assert(goal matches Ok(s0) ==> Set::<(SymbolV, Seq<char>)>::empty().union(s0) =~= s0);
    }
    while i < n
        invariant
            n == ms@.len(),
            i <= n,
            goal == import_pairs_of_modules(ms@, packages@),
            distinct_seq(out@),
            goal == lift_pairs(
                out.deep_view().to_set(),
                import_pairs_of_modules(ms@.skip(i as int), packages@),
            ),
        decreases n - i,
    {
        let ghost prev = out.deep_view().to_set();
        proof {
            assert(ms@.skip(i as int)[0] == ms@[i as int]);
            assert(ms@.skip(i as int).drop_first() =~= ms@.skip(i as int + 1));
        }
        match module_import_pairs(&ms[i], packages) {
            Err(e) => {
                return Err(e);
            },
            Ok(v) => {
                let ghost vs = v.deep_view().to_set();
                let ghost rest = import_pairs_of_modules(ms@.skip(i as int + 1), packages@);
                vec_set_extend(&mut out, v);
                proof {
                    assert(import_pairs_of_modules(ms@.skip(i as int), packages@) == lift_pairs(
                        vs,
                        rest,
                    ));
                    assert(rest matches Ok(s2) ==> out.deep_view().to_set().union(s2)
                        =~= prev.union(vs.union(s2)));
                    assert(goal == lift_pairs(out.deep_view().to_set(), rest));
                }
            },
        }
        i += 1;
    }
    proof {
        assert(ms@.skip(n as int) =~= Seq::<AnalyzedModule<String>>::empty());
        assert(out.deep_view().to_set().union(Set::empty()) =~= out.deep_view().to_set());
    }
    Ok(out)
}

/// Every pair any resolved import of the workspace reaches, or the first
/// fatal graph inconsistency met.
pub fn get_all_imports(packages: &Vec<AnalyzedPackage>) -> (r: Result<
    Vec<(Symbol, String)>,
    AnalysisError,
>)
    ensures
        match r {
            Ok(v) => {
                &&& distinct_seq(v@)
                &&& all_imports(packages@) == Ok::<Set<(SymbolV, Seq<char>)>, AnalysisErrorV>(
                    v.deep_view().to_set(),
                )
            },
            Err(e) => all_imports(packages@) == Err::<Set<(SymbolV, Seq<char>)>, AnalysisErrorV>(
                e.deep_view(),
            ),
        },
{
    let ghost goal = all_imports_from(packages@, packages@);
    let mut out: Vec<(Symbol, String)> = Vec::new();
    let n = packages.len();
    let mut i: usize = 0;
    proof {
        assert(packages@.skip(0) =~= packages@);
        assert(out.deep_view().to_set() =~= Set::<(SymbolV, Seq<char>)>::empty());
        assert(goal matches Ok(s0) ==> Set::<(SymbolV, Seq<char>)>::empty().union(s0) =~= s0);
    }
    while i < n
        invariant
            n == packages@.len(),
            i <= n,
            goal == all_imports_from(packages@, packages@),
            distinct_seq(out@),
            goal == lift_pairs(
                out.deep_view().to_set(),
                all_imports_from(packages@.skip(i as int), packages@),
            ),
        decreases n - i,
    {
        let ghost prev = out.deep_view().to_set();
        proof {
            assert(packages@.skip(i as int)[0] == packages@[i as int]);
            assert(packages@.skip(i as int).drop_first() =~= packages@.skip(i as int + 1));
        }
        match modules_import_pairs(&packages[i].modules, packages) {
            Err(e) => {
                return Err(e);
            },
            Ok(v) => {
                let ghost vs = v.deep_view().to_set();
                let ghost rest = all_imports_from(packages@.skip(i as int + 1), packages@);
                vec_set_extend(&mut out, v);
                proof {
                    assert(all_imports_from(packages@.skip(i as int), packages@) == lift_pairs(
                        vs,
                        rest,
                    ));
                    assert(rest matches Ok(s2) ==> out.deep_view().to_set().union(s2)
                        =~= prev.union(vs.union(s2)));
                    assert(goal == lift_pairs(out.deep_view().to_set(), rest));
                }
            },
        }
        i += 1;
    }
    proof {
        assert(packages@.skip(n as int) =~= Seq::<AnalyzedPackage>::empty());
        assert(out.deep_view().to_set().union(Set::empty()) =~= out.deep_view().to_set());
    }
    Ok(out)
}

/// Checks that every forwarding target among these exports is in the
/// graph.
fn check_exports_closed_exec(
    exs: &Vec<Export<String>>,
    packages: &Vec<AnalyzedPackage>,
) -> (r: Result<(), AnalysisError>)
    ensures
        match r {
            Ok(_) => check_exports_closed(exs.deep_view(), packages@) == Ok::<(), AnalysisErrorV>(
                (),
            ),
            Err(e) => check_exports_closed(exs.deep_view(), packages@) == Err::<
                (),
                AnalysisErrorV,
            >(e.deep_view()),
        },
{
    let ghost ev = exs.deep_view();
    let n = exs.len();
    let mut j: usize = 0;
    proof {
        assert(ev.skip(0) =~~= ev);
    }
    while j < n
        invariant
            n == exs@.len(),
            j <= n,
            ev == exs.deep_view(),
            check_exports_closed(ev, packages@) == check_exports_closed(
                ev.skip(j as int),
                packages@,
            ),
        decreases n - j,
    {
        proof {
            assert(ev.skip(j as int)[0] == ev[j as int]);
            assert(ev.skip(j as int).drop_first() =~~= ev.skip(j as int + 1));
            assert(ev[j as int] == exs@[j as int].deep_view());
        }
        match &exs[j] {
            Export::AllFrom(u) => {
                if find_module_in(packages, u).is_none() {
                    return Err(AnalysisError::MissingModule(u.clone()));
                }
            },
            Export::Reexport(rx) => {
                if find_module_in(packages, &rx.from).is_none() {
                    return Err(AnalysisError::MissingModule(rx.from.clone()));
                }
            },
            _ => {},
        }
        j += 1;
    }
    proof {
        assert(ev.skip(n as int) =~~= Seq::<ExportV<Seq<char>>>::empty());
    }
    Ok(())
}

/// Checks that every forwarding target of these modules is in the graph.
fn check_modules_closed_exec(
    ms: &Vec<AnalyzedModule<String>>,
    packages: &Vec<AnalyzedPackage>,
) -> (r: Result<(), AnalysisError>)
    ensures
        match r {
            Ok(_) => check_modules_closed(ms@, packages@) == Ok::<(), AnalysisErrorV>(()),
            Err(e) => check_modules_closed(ms@, packages@) == Err::<(), AnalysisErrorV>(
                e.deep_view(),
            ),
        },
{
    let n = ms.len();
    let mut i: usize = 0;
    proof {
        assert(ms@.skip(0) =~= ms@);
    }
    while i < n
        invariant
            n == ms@.len(),
            i <= n,
            check_modules_closed(ms@, packages@) == check_modules_closed(
                ms@.skip(i as int),
                packages@,
            ),
        decreases n - i,
    {
        proof {
            assert(ms@.skip(i as int)[0] == ms@[i as int]);
            assert(ms@.skip(i as int).drop_first() =~= ms@.skip(i as int + 1));
        }
        match check_exports_closed_exec(&ms[i].symbols.exports, packages) {
            Err(e) => {
                return Err(e);
            },
            Ok(_) => {},
        }
        i += 1;
    }
    proof {
        assert(ms@.skip(n as int) =~= Seq::<AnalyzedModule<String>>::empty());
    }
    Ok(())
}

/// Checks that the graph is closed: every forwarding export of every
/// module names a module present in the workspace.
fn check_graph_closed_exec(packages: &Vec<AnalyzedPackage>) -> (r: Result<(), AnalysisError>)
    ensures
        match r {
            Ok(_) => check_graph_closed(packages@, packages@) == Ok::<(), AnalysisErrorV>(()),
            Err(e) => check_graph_closed(packages@, packages@) == Err::<(), AnalysisErrorV>(
                e.deep_view(),
            ),
        },
{
    let n = packages.len();
    let mut i: usize = 0;
    proof {
        assert(packages@.skip(0) =~= packages@);
    }
    while i < n
        invariant
            n == packages@.len(),
            i <= n,
            check_graph_closed(packages@, packages@) == check_graph_closed(
                packages@.skip(i as int),
                packages@,
            ),
        decreases n - i,
    {
        proof {
            assert(packages@.skip(i as int)[0] == packages@[i as int]);
            assert(packages@.skip(i as int).drop_first() =~= packages@.skip(i as int + 1));
        }
        match check_modules_closed_exec(&packages[i].modules, packages) {
            Err(e) => {
                return Err(e);
            },
            Ok(_) => {},
        }
        i += 1;
    }
    proof {
        assert(packages@.skip(n as int) =~= Seq::<AnalyzedPackage>::empty());
    }
    Ok(())
}

/// The whole analysis: every export pair no import reaches, reported as
/// filename/symbol findings; `Err` on the first fatal graph inconsistency.
pub fn find_unused_exports(analyzed_packages: &Vec<AnalyzedPackage>) -> (r: Result<
    Vec<UnusedExport>,
    AnalysisError,
>)
    ensures
        match r {
            Ok(v) => {
                &&& distinct_seq(v@)
                &&& unused_export_pairs(analyzed_packages@) matches Ok(d) && (forall|
                    pr: (SymbolV, Seq<char>),
                |
                    #[trigger] d.contains(pr) ==> v.deep_view().to_set().contains(
                        (UnusedExportV { filename: pr.1, symbol: pr.0 }),
                    )) && (forall|u: UnusedExportV|
                    #[trigger] v.deep_view().to_set().contains(u) ==> d.contains(
                        (u.symbol, u.filename),
                    ))
            },
            Err(e) => unused_export_pairs(analyzed_packages@) == Err::<
                Set<(SymbolV, Seq<char>)>,
                AnalysisErrorV,
            >(e.deep_view()),
        },
{
    match check_graph_closed_exec(analyzed_packages) {
        Err(e) => {
            return Err(e);
        },
        Ok(_) => {},
    }
    let exports = get_all_exports(analyzed_packages);
    let imports = match get_all_imports(analyzed_packages) {
        Err(e) => {
            return Err(e);
        },
        Ok(v) => v,
    };
    let ghost ed = exports.deep_view();
    let ghost iset = imports.deep_view().to_set();
    let mut out: Vec<UnusedExport> = Vec::new();
    let n = exports.len();
    let mut i: usize = 0;
    while i < n
        invariant
            n == exports@.len(),
            i <= n,
            ed == exports.deep_view(),
            iset == imports.deep_view().to_set(),
            distinct_seq(imports@),
            distinct_seq(out@),
            forall|k: int|
                0 <= k < i ==> (iset.contains(#[trigger] ed[k]) || out.deep_view().to_set().contains(
                    (UnusedExportV { filename: ed[k].1, symbol: ed[k].0 }),
                )),
            forall|u: UnusedExportV|
                #[trigger] out.deep_view().to_set().contains(u) ==> (exists|k: int|
                    0 <= k < i && ed[k] == (u.symbol, u.filename)) && !iset.contains(
                    (u.symbol, u.filename),
                ),
        decreases n - i,
    {
        let ghost prev = out.deep_view().to_set();
        proof {
            assert(ed[i as int] == exports@[i as int].deep_view());
        }
        let present = crate::vecset::vec_set_contains(&imports, &exports[i]);
        if !present {
            let item = UnusedExport {
                filename: exports[i].1.clone(),
                symbol: clone_symbol(&exports[i].0),
            };
            proof {
                assert(item.deep_view() == (UnusedExportV {
                    filename: ed[i as int].1,
                    symbol: ed[i as int].0,
                }));
            }
            vec_set_insert(&mut out, item);
            proof {
                assert forall|u: UnusedExportV|
                    #[trigger] out.deep_view().to_set().contains(u) implies (exists|k: int|
                    0 <= k < i + 1 && ed[k] == (u.symbol, u.filename)) && !iset.contains(
                    (u.symbol, u.filename),
                ) by {
                    if prev.contains(u) {
                        let k = choose|k: int| 0 <= k < i && ed[k] == (u.symbol, u.filename);
                        assert(0 <= k < i + 1 && ed[k] == (u.symbol, u.filename));
                    } else {
                        assert(u == item.deep_view());
                        assert(ed[i as int] == (u.symbol, u.filename));
                    }
                }
            }
        }
        i += 1;
    }
    proof {
        let d = all_exports(analyzed_packages@).difference(iset);
        assert(unused_export_pairs(analyzed_packages@) == Ok::<
            Set<(SymbolV, Seq<char>)>,
            AnalysisErrorV,
        >(d));
        assert forall|pr: (SymbolV, Seq<char>)| #[trigger] d.contains(pr)
            implies out.deep_view().to_set().contains(
            (UnusedExportV { filename: pr.1, symbol: pr.0 }),
        ) by {
            assert(ed.to_set().contains(pr));
            let k = choose|k: int| 0 <= k < ed.len() && ed[k] == pr;
            assert(!iset.contains(ed[k]));
        }
        assert forall|u: UnusedExportV| #[trigger] out.deep_view().to_set().contains(u)
            implies d.contains((u.symbol, u.filename)) by {
            let k = choose|k: int| 0 <= k < n && ed[k] == (u.symbol, u.filename);
            assert(ed.to_set().contains(ed[k]));
        }
    }
    Ok(out)
}

} // verus!
