//! The per-module symbol record: exports, imports and namespace usages.
//!
//! All three collections are set-valued: deduplicated, order-irrelevant.  The
//! type is generic in the module reference `P`: before resolution `P` is the
//! raw specifier string of the import or re-export statement, after
//! resolution it is the canonical path of the target module.

use vstd::prelude::*;

use crate::vecset::SetElem;
use crate::vecset::distinct_seq;
use crate::vecset::vec_set_extend;
use crate::vecset::vec_set_insert;

verus! {

/// How an imported binding is dereferenced in a module body.  Only
/// member accesses through a namespace import are recorded: plain references
/// to named or default imports carry no extra information, since importing
/// them already marks them used.
#[derive(Debug, PartialEq, Eq)]
pub enum Usage {
    /// A bare symbol reference (kept for completeness; not produced by the
    /// usage extractor).
    Symbol(String),
    /// `alias.member` where `alias` is bound by a namespace import:
    /// `Namespace(member, alias)`.
    Namespace(String, String),
}

/// The spec-level value of a `Usage`.
pub enum UsageV {
    Symbol(Seq<char>),
    Namespace(Seq<char>, Seq<char>),
}

impl DeepView for Usage {
    type V = UsageV;

    open spec fn deep_view(&self) -> UsageV {
        match self {
            Usage::Symbol(s) => UsageV::Symbol(s@),
            Usage::Namespace(s, a) => UsageV::Namespace(s@, a@),
        }
    }
}

impl SetElem for Usage {
    fn elem_eq(&self, other: &Self) -> (r: bool) {
        match self {
            Usage::Symbol(s) => match other {
                Usage::Symbol(t) => *s == *t,
                _ => false,
            },
            Usage::Namespace(s, a) => match other {
                Usage::Namespace(t, b) => *s == *t && *a == *b,
                _ => false,
            },
        }
    }
}

/// One exported facility of a module.
#[derive(Debug, PartialEq, Eq)]
pub enum Export<P> {
    /// A named export.
    Symbol(String),
    /// A forwarding export tied to one target module.
    Reexport(Reexport<P>),
    /// `export * from P`: re-exports every named export of the target.
    AllFrom(P),
    /// The module's default export, which has no name.
    Default,
}

/// The spec-level value of an `Export`.
pub enum ExportV<PV> {
    Symbol(Seq<char>),
    Reexport(PV),
    AllFrom(PV),
    Default,
}

/// A forwarding export tied to one target module.
#[derive(Debug, PartialEq, Eq)]
pub struct Reexport<P> {
    pub from: P,
}

impl<P: DeepView> DeepView for Export<P> {
    type V = ExportV<P::V>;

    open spec fn deep_view(&self) -> ExportV<P::V> {
        match self {
            Export::Symbol(s) => ExportV::Symbol(s@),
            Export::Reexport(r) => ExportV::Reexport(r.from.deep_view()),
            Export::AllFrom(p) => ExportV::AllFrom(p.deep_view()),
            Export::Default => ExportV::Default,
        }
    }
}

impl SetElem for Export<String> {
    fn elem_eq(&self, other: &Self) -> (r: bool) {
        match self {
            Export::Symbol(s) => match other {
                Export::Symbol(t) => *s == *t,
                _ => false,
            },
            Export::Reexport(r) => match other {
                Export::Reexport(q) => r.from == q.from,
                _ => false,
            },
            Export::AllFrom(p) => match other {
                Export::AllFrom(q) => *p == *q,
                _ => false,
            },
            Export::Default => matches!(other, Export::Default),
        }
    }
}

/// One local binding introduced by an import statement.
#[derive(Debug, PartialEq, Eq)]
pub enum Import {
    /// `import { x } from ...`, recorded under the local name.
    Named(String),
    /// `import x from ...`: the default export, bound to a local name.
    Default(String),
    /// `import * as ns from ...`: all exports of the target as one object.
    Namespace(String),
}

/// The spec-level value of an `Import`.
pub enum ImportV {
    Named(Seq<char>),
    Default(Seq<char>),
    Namespace(Seq<char>),
}

impl DeepView for Import {
    type V = ImportV;

    open spec fn deep_view(&self) -> ImportV {
        match self {
            Import::Named(s) => ImportV::Named(s@),
            Import::Default(s) => ImportV::Default(s@),
            Import::Namespace(s) => ImportV::Namespace(s@),
        }
    }
}

impl SetElem for Import {
    fn elem_eq(&self, other: &Self) -> (r: bool) {
        match self {
            Import::Named(s) => match other {
                Import::Named(t) => *s == *t,
                _ => false,
            },
            Import::Default(s) => match other {
                Import::Default(t) => *s == *t,
                _ => false,
            },
            Import::Namespace(s) => match other {
                Import::Namespace(t) => *s == *t,
                _ => false,
            },
        }
    }
}

/// All bindings introduced by one import statement, together with the module
/// reference they come from.
#[derive(Debug, PartialEq, Eq)]
pub struct ImportedSymbol<P> {
    pub symbols: Vec<Import>,
    pub from: P,
}

/// The spec-level value of an `ImportedSymbol`.
pub struct ImportedSymbolV<PV> {
    pub symbols: Seq<ImportV>,
    pub from: PV,
}

impl<P: DeepView> DeepView for ImportedSymbol<P> {
    type V = ImportedSymbolV<P::V>;

    open spec fn deep_view(&self) -> ImportedSymbolV<P::V> {
        ImportedSymbolV { symbols: self.symbols.deep_view(), from: self.from.deep_view() }
    }
}

impl SetElem for ImportedSymbol<String> {
    fn elem_eq(&self, other: &Self) -> (r: bool) {
        if self.from != other.from {
            return false;
        }
        let n = self.symbols.len();
        if n != other.symbols.len() {
            assert(self.deep_view().symbols.len() != other.deep_view().symbols.len());
            return false;
        }
        let mut i: usize = 0;
        while i < n
            invariant
                n == self.symbols.len(),
                n == other.symbols.len(),
                i <= n,
                self.from@ == other.from@,
                forall|k: int|
                    0 <= k < i ==> self.symbols.deep_view()[k] == other.symbols.deep_view()[k],
            decreases n - i,
        {
            if !self.symbols[i].elem_eq(&other.symbols[i]) {
                assert(self.symbols.deep_view()[i as int] != other.symbols.deep_view()[i as int]);
                return false;
            }
            i += 1;
        }
        proof {
            assert(self.symbols.deep_view() =~= other.symbols.deep_view());
        }
        true
    }
}

/// The symbol record of one module: its exports, its imports and the
/// recorded namespace usages of its body.
#[derive(Debug)]
pub struct ModuleSymbols<P> {
    pub usages: Vec<Usage>,
    pub exports: Vec<Export<P>>,
    pub imports: Vec<ImportedSymbol<P>>,
}

impl<P: DeepView> ModuleSymbols<P> {
    /// The set of recorded usages.
    pub open spec fn usage_set(self) -> Set<UsageV> {
        self.usages.deep_view().to_set()
    }

    /// The set of exports.
    pub open spec fn export_set(self) -> Set<ExportV<P::V>> {
        self.exports.deep_view().to_set()
    }

    /// The set of import statements.
    pub open spec fn import_set(self) -> Set<ImportedSymbolV<P::V>> {
        self.imports.deep_view().to_set()
    }

    /// All three collections are deduplicated.
    pub open spec fn wf(self) -> bool {
        &&& distinct_seq(self.usages@)
        &&& distinct_seq(self.exports@)
        &&& distinct_seq(self.imports@)
    }
}

impl ModuleSymbols<String> {
    /// The empty record.
    pub fn empty() -> (r: Self)
        ensures
            r.wf(),
            r.usage_set() == Set::<UsageV>::empty(),
            r.export_set() == Set::<ExportV<Seq<char>>>::empty(),
            r.import_set() == Set::<ImportedSymbolV<Seq<char>>>::empty(),
    {
        let r = ModuleSymbols { usages: Vec::new(), exports: Vec::new(), imports: Vec::new() };
        proof {
            assert(r.usage_set() =~= Set::<UsageV>::empty());
            assert(r.export_set() =~= Set::<ExportV<Seq<char>>>::empty());
            assert(r.import_set() =~= Set::<ImportedSymbolV<Seq<char>>>::empty());
        }
        r
    }

    /// A record holding one import statement and nothing else.
    pub fn new_imported_symbol(imported_symbol: ImportedSymbol<String>) -> (r: Self)
        ensures
            r.wf(),
            r.usage_set() == Set::<UsageV>::empty(),
            r.export_set() == Set::<ExportV<Seq<char>>>::empty(),
            r.import_set() == Set::<ImportedSymbolV<Seq<char>>>::empty().insert(
                imported_symbol.deep_view(),
            ),
    {
        let mut r = Self::empty();
        vec_set_insert(&mut r.imports, imported_symbol);
        r
    }

    /// A record holding one export and nothing else.
    pub fn new_export(export: Export<String>) -> (r: Self)
        ensures
            r.wf(),
            r.usage_set() == Set::<UsageV>::empty(),
            r.export_set() == Set::<ExportV<Seq<char>>>::empty().insert(export.deep_view()),
            r.import_set() == Set::<ImportedSymbolV<Seq<char>>>::empty(),
    {
        let mut r = Self::empty();
        vec_set_insert(&mut r.exports, export);
        r
    }

    /// A record holding one named export and nothing else.
    pub fn new_exported_symbol_str(symbol: String) -> (r: Self)
        ensures
            r.wf(),
            r.usage_set() == Set::<UsageV>::empty(),
            r.export_set() == Set::<ExportV<Seq<char>>>::empty().insert(ExportV::Symbol(symbol@)),
            r.import_set() == Set::<ImportedSymbolV<Seq<char>>>::empty(),
    {
        Self::new_export(Export::Symbol(symbol))
    }

    /// A record holding one `export * from ...` and nothing else.
    pub fn new_all_export(from: String) -> (r: Self)
        ensures
            r.wf(),
            r.usage_set() == Set::<UsageV>::empty(),
            r.export_set() == Set::<ExportV<Seq<char>>>::empty().insert(ExportV::AllFrom(from@)),
            r.import_set() == Set::<ImportedSymbolV<Seq<char>>>::empty(),
    {
        Self::new_export(Export::AllFrom(from))
    }

    /// Combines two records: the union of the usages, of the exports and of
    /// the imports.
    pub fn merge(self, analyzed_module: Self) -> (r: Self)
        requires
            self.wf(),
            analyzed_module.wf(),
        ensures
            r.wf(),
            r.usage_set() == self.usage_set().union(analyzed_module.usage_set()),
            r.export_set() == self.export_set().union(analyzed_module.export_set()),
            r.import_set() == self.import_set().union(analyzed_module.import_set()),
    {
        let ModuleSymbols { mut usages, mut exports, mut imports } = self;
        vec_set_extend(&mut usages, analyzed_module.usages);
        vec_set_extend(&mut exports, analyzed_module.exports);
        vec_set_extend(&mut imports, analyzed_module.imports);
        ModuleSymbols { usages, exports, imports }
    }
}

/// The union of the usage sets of a sequence of records.
pub open spec fn merged_usages(ms: Seq<ModuleSymbols<String>>) -> Set<UsageV> {
    Set::new(|u: UsageV| exists|i: int| 0 <= i < ms.len() && ms[i].usage_set().contains(u))
}

/// The union of the export sets of a sequence of records.
pub open spec fn merged_exports(ms: Seq<ModuleSymbols<String>>) -> Set<ExportV<Seq<char>>> {
    Set::new(
        |e: ExportV<Seq<char>>| exists|i: int| 0 <= i < ms.len() && ms[i].export_set().contains(e),
    )
}

/// The union of the import sets of a sequence of records.
pub open spec fn merged_imports(ms: Seq<ModuleSymbols<String>>) -> Set<ImportedSymbolV<Seq<char>>> {
    Set::new(
        |s: ImportedSymbolV<Seq<char>>| exists|i: int|
            0 <= i < ms.len() && ms[i].import_set().contains(s),
    )
}

/// Combines any number of records: the union of their usages, exports and
/// imports.
pub fn merge_iter(analyzed_modules: Vec<ModuleSymbols<String>>) -> (r: ModuleSymbols<String>)
    requires
        forall|i: int| 0 <= i < analyzed_modules@.len() ==> analyzed_modules@[i].wf(),
    ensures
        r.wf(),
        r.usage_set() == merged_usages(analyzed_modules@),
        r.export_set() == merged_exports(analyzed_modules@),
        r.import_set() == merged_imports(analyzed_modules@),
{
    let ghost all = analyzed_modules@;
    let mut analyzed_module = ModuleSymbols::<String>::empty();
    let mut rest = analyzed_modules;
    let ghost mut taken: int = 0;
    while rest.len() > 0
        invariant
            rest@ == all.skip(taken),
            0 <= taken <= all.len(),
            forall|i: int| 0 <= i < all.len() ==> all[i].wf(),
            analyzed_module.wf(),
            analyzed_module.usage_set() == merged_usages(all.take(taken)),
            analyzed_module.export_set() == merged_exports(all.take(taken)),
            analyzed_module.import_set() == merged_imports(all.take(taken)),
        decreases rest.len(),
    {
        assert(rest@.len() == all.len() - taken);
        let other = rest.remove(0);
        assert(other == all[taken]);
        assert(rest@ =~= all.skip(taken + 1));
        analyzed_module = analyzed_module.merge(other);
        proof {
            lemma_merged_take_step(all, taken);
            taken = taken + 1;
        }
    }
    proof {
        assert(all.take(taken) =~= all);
    }
    analyzed_module
}

/// Extending the prefix by one record adds exactly that record's sets to the
/// merged unions.
proof fn lemma_merged_take_step(all: Seq<ModuleSymbols<String>>, k: int)
    requires
        0 <= k < all.len(),
    ensures
        merged_usages(all.take(k + 1)) == merged_usages(all.take(k)).union(all[k].usage_set()),
        merged_exports(all.take(k + 1)) == merged_exports(all.take(k)).union(all[k].export_set()),
        merged_imports(all.take(k + 1)) == merged_imports(all.take(k)).union(all[k].import_set()),
{
    assert(merged_usages(all.take(k + 1)) =~= merged_usages(all.take(k)).union(
        all[k].usage_set(),
    )) by {
        assert forall|u: UsageV| merged_usages(all.take(k)).union(all[k].usage_set()).contains(u)
            implies merged_usages(all.take(k + 1)).contains(u) by {
            if merged_usages(all.take(k)).contains(u) {
                let i = choose|i: int| 0 <= i < k && all.take(k)[i].usage_set().contains(u);
                assert(all.take(k + 1)[i].usage_set().contains(u));
            } else {
                assert(all.take(k + 1)[k].usage_set().contains(u));
            }
        }
    }
    assert(merged_exports(all.take(k + 1)) =~= merged_exports(all.take(k)).union(
        all[k].export_set(),
    )) by {
        assert forall|u: ExportV<Seq<char>>|
            merged_exports(all.take(k)).union(all[k].export_set()).contains(u)
            implies merged_exports(all.take(k + 1)).contains(u) by {
            if merged_exports(all.take(k)).contains(u) {
                let i = choose|i: int| 0 <= i < k && all.take(k)[i].export_set().contains(u);
                assert(all.take(k + 1)[i].export_set().contains(u));
            } else {
                assert(all.take(k + 1)[k].export_set().contains(u));
            }
        }
    }
    assert(merged_imports(all.take(k + 1)) =~= merged_imports(all.take(k)).union(
        all[k].import_set(),
    )) by {
        assert forall|u: ImportedSymbolV<Seq<char>>|
            merged_imports(all.take(k)).union(all[k].import_set()).contains(u)
            implies merged_imports(all.take(k + 1)).contains(u) by {
            if merged_imports(all.take(k)).contains(u) {
                let i = choose|i: int| 0 <= i < k && all.take(k)[i].import_set().contains(u);
                assert(all.take(k + 1)[i].import_set().contains(u));
            } else {
                assert(all.take(k + 1)[k].import_set().contains(u));
            }
        }
    }
}

} // verus!
