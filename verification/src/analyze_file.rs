//! The symbol extractor: reads one module's syntax tree into its symbol
//! record — the exports it declares, the imports it states, and the
//! namespace usages of its body.
//!
//! Parsing source text into the syntax tree is the front end's business;
//! this module consumes the tree as a value.

use vstd::prelude::*;

use crate::analyze_symbols_usage::SymbolsUsageAnalyzer;
use crate::analyze_symbols_usage::usages_of_module;
use crate::analyzed_module::AnalyzedModule;
use crate::ast::Decl;
use crate::ast::ExportSpecifier;
use crate::ast::Module;
use crate::ast::ModuleDecl;
use crate::ast::ModuleItem;
use crate::ast::VarDeclarator;
use crate::module_symbols::Export;
use crate::module_symbols::ExportV;
use crate::module_symbols::Import;
use crate::module_symbols::ImportV;
use crate::module_symbols::ImportedSymbol;
use crate::module_symbols::ImportedSymbolV;
use crate::module_symbols::ModuleSymbols;
use crate::module_symbols::UsageV;
use crate::vecset::distinct_seq;
use crate::vecset::vec_set_insert;

verus! {

/// The exported name an entry of a named export list declares: the alias
/// where present, the original name otherwise.
pub open spec fn export_spec_name(s: ExportSpecifier) -> Seq<char> {
    match s.exported {
        Some(e) => e@,
        None => s.orig@,
    }
}

/// The named exports of a named export list.
pub open spec fn exports_of_export_specs(specs: Seq<ExportSpecifier>) -> Set<ExportV<Seq<char>>>
    decreases specs,
{
    if specs.len() == 0 {
        Set::empty()
    } else {
        Set::empty().insert(ExportV::Symbol(export_spec_name(specs[0]))).union(
            exports_of_export_specs(specs.drop_first()),
        )
    }
}

/// The symbols a variable declaration exports: one per declarator.
pub open spec fn exports_of_var_decls(ds: Seq<VarDeclarator>) -> Set<ExportV<Seq<char>>>
    decreases ds,
{
    if ds.len() == 0 {
        Set::empty()
    } else {
        Set::empty().insert(ExportV::Symbol(ds[0].name@)).union(
            exports_of_var_decls(ds.drop_first()),
        )
    }
}

/// The symbols a declaration exports when it stands under `export`.
pub open spec fn exports_of_decl(d: Decl) -> Set<ExportV<Seq<char>>> {
    match d {
        Decl::Class(name, _) => Set::empty().insert(ExportV::Symbol(name@)),
        Decl::Fn(name, _) => Set::empty().insert(ExportV::Symbol(name@)),
        Decl::Var(ds) => exports_of_var_decls(ds@),
        Decl::TsEnum(name) => Set::empty().insert(ExportV::Symbol(name@)),
        Decl::TsInterface(name) => Set::empty().insert(ExportV::Symbol(name@)),
        Decl::TsTypeAlias(name) => Set::empty().insert(ExportV::Symbol(name@)),
        Decl::TsModule(name) => match name {
            Some(n) => Set::empty().insert(ExportV::Symbol(n@)),
            None => Set::empty(),
        },
    }
}

/// The exports one module declaration contributes.
pub open spec fn exports_of_module_decl(d: ModuleDecl) -> Set<ExportV<Seq<char>>> {
    match d {
        ModuleDecl::Import(_) => Set::empty(),
        ModuleDecl::ExportDecl(decl) => exports_of_decl(decl),
        ModuleDecl::ExportNamed(specs) => exports_of_export_specs(specs@),
        ModuleDecl::ExportDefaultDecl(_) => Set::empty().insert(ExportV::Default),
        ModuleDecl::ExportDefaultExpr(_) => Set::empty().insert(ExportV::Default),
        ModuleDecl::ExportAll(from) => Set::empty().insert(ExportV::AllFrom(from@)),
        ModuleDecl::ImportEquals => Set::empty(),
    }
}

/// The exports one top-level item contributes.
pub open spec fn exports_of_module_item(item: ModuleItem) -> Set<ExportV<Seq<char>>> {
    match item {
        ModuleItem::Stmt(_) => Set::empty(),
        ModuleItem::ModuleDecl(d) => exports_of_module_decl(d),
    }
}

/// The exports of a sequence of top-level items.
pub open spec fn exports_of_module_items(items: Seq<ModuleItem>) -> Set<ExportV<Seq<char>>>
    decreases items,
{
    if items.len() == 0 {
        Set::empty()
    } else {
        exports_of_module_item(items[0]).union(exports_of_module_items(items.drop_first()))
    }
}

/// The import statements one module declaration contributes.
pub open spec fn imports_of_module_decl(d: ModuleDecl) -> Set<ImportedSymbolV<Seq<char>>> {
    match d {
        ModuleDecl::Import(i) => Set::empty().insert(
            ImportedSymbolV { symbols: i.specifiers.deep_view(), from: i.from@ },
        ),
        _ => Set::empty(),
    }
}

/// The import statements one top-level item contributes.
pub open spec fn imports_of_module_item(item: ModuleItem) -> Set<ImportedSymbolV<Seq<char>>> {
    match item {
        ModuleItem::Stmt(_) => Set::empty(),
        ModuleItem::ModuleDecl(d) => imports_of_module_decl(d),
    }
}

/// The import statements of a sequence of top-level items.
pub open spec fn imports_of_module_items(items: Seq<ModuleItem>) -> Set<
    ImportedSymbolV<Seq<char>>,
>
    decreases items,
{
    if items.len() == 0 {
        Set::empty()
    } else {
        imports_of_module_item(items[0]).union(imports_of_module_items(items.drop_first()))
    }
}

/// The exports a whole module declares.
pub open spec fn exports_of_module(m: Module) -> Set<ExportV<Seq<char>>> {
    exports_of_module_items(m.body@)
}

/// The import statements a whole module states.
pub open spec fn imports_of_module(m: Module) -> Set<ImportedSymbolV<Seq<char>>> {
    imports_of_module_items(m.body@)
}

/// The import bindings a whole module introduces: every binding of every
/// import statement.
pub open spec fn module_import_bindings(m: Module) -> Set<ImportV> {
    Set::new(
        |iv: ImportV|
            exists|i: int|
                0 <= i < m.body@.len() && ((#[trigger] m.body@[i]) matches ModuleItem::ModuleDecl(
                    ModuleDecl::Import(d),
                ) && d.specifiers.deep_view().contains(iv)),
    )
}

/// The bindings of the import statements among the first `k` items.
pub open spec fn bindings_upto(m: Module, k: int) -> Set<ImportV> {
    Set::new(
        |iv: ImportV|
            exists|i: int|
                0 <= i < k && ((#[trigger] m.body@[i]) matches ModuleItem::ModuleDecl(
                    ModuleDecl::Import(d),
                ) && d.specifiers.deep_view().contains(iv)),
    )
}

/// A copy of one import binding.
fn clone_import(i: &Import) -> (r: Import)
    ensures
        r.deep_view() == i.deep_view(),
{
    match i {
        Import::Named(s) => Import::Named(s.clone()),
        Import::Default(s) => Import::Default(s.clone()),
        Import::Namespace(s) => Import::Namespace(s.clone()),
    }
}

/// A copy of the bindings of one import statement.
pub(crate) fn clone_imports(v: &Vec<Import>) -> (r: Vec<Import>)
    ensures
        r.deep_view() == v.deep_view(),
{
    let n = v.len();
    let mut r: Vec<Import> = Vec::new();
    let mut i: usize = 0;
    while i < n
        invariant
            n == v@.len(),
            i <= n,
            r@.len() == i,
            forall|k: int| 0 <= k < i ==> r@[k].deep_view() == v@[k].deep_view(),
        decreases n - i,
    {
        let c = clone_import(&v[i]);
        r.push(c);
        i += 1;
    }
    proof {
        assert forall|k: int| 0 <= k < n implies r.deep_view()[k] == v.deep_view()[k] by {
            assert(r.deep_view()[k] == r@[k].deep_view());
            assert(v.deep_view()[k] == v@[k].deep_view());
        }
        assert(r.deep_view() =~~= v.deep_view());
    }
    r
}

/// The symbol record of one entry of a named export list: the one named
/// export it declares, under its exported name.
pub fn analyze_export_specifier(decl: &ExportSpecifier) -> (r: ModuleSymbols<String>)
    ensures
        r.wf(),
        r.usage_set() == Set::<UsageV>::empty(),
        r.export_set() == Set::<ExportV<Seq<char>>>::empty().insert(
            ExportV::Symbol(export_spec_name(*decl)),
        ),
        r.import_set() == Set::<ImportedSymbolV<Seq<char>>>::empty(),
{
    match &decl.exported {
        Some(e) => ModuleSymbols::new_exported_symbol_str(e.clone()),
        None => ModuleSymbols::new_exported_symbol_str(decl.orig.clone()),
    }
}

/// The symbol record of a declaration standing under `export`: each symbol
/// the declaration introduces becomes a named export.
pub fn analyze_decl(decl: &Decl) -> (r: ModuleSymbols<String>)
    ensures
        r.wf(),
        r.usage_set() == Set::<UsageV>::empty(),
        r.export_set() == exports_of_decl(*decl),
        r.import_set() == Set::<ImportedSymbolV<Seq<char>>>::empty(),
{
    match decl {
        Decl::Class(name, _) => ModuleSymbols::new_exported_symbol_str(name.clone()),
        Decl::Fn(name, _) => ModuleSymbols::new_exported_symbol_str(name.clone()),
        Decl::Var(ds) => {
            let ghost all = ds@;
            let mut acc = ModuleSymbols::<String>::empty();
            let n = ds.len();
            let mut i: usize = 0;
            proof {
                assert(all.skip(0) =~= all);
                assert(acc.export_set().union(exports_of_var_decls(all))
                    =~= exports_of_var_decls(all));
            }
            while i < n
                invariant
                    n == ds@.len(),
                    all == ds@,
                    i <= n,
                    acc.wf(),
                    acc.usage_set() == Set::<UsageV>::empty(),
                    acc.import_set() == Set::<ImportedSymbolV<Seq<char>>>::empty(),
                    acc.export_set().union(exports_of_var_decls(all.skip(i as int)))
                        == exports_of_var_decls(all),
                decreases n - i,
            {
                let ghost prev = acc.export_set();
                let one = ModuleSymbols::new_exported_symbol_str(ds[i].name.clone());
                proof {
                    assert(all.skip(i as int)[0] == all[i as int]);
                    assert(all.skip(i as int).drop_first() =~= all.skip(i as int + 1));
                }
                acc = acc.merge(one);
                proof {
                    assert(acc.export_set().union(exports_of_var_decls(all.skip(i as int + 1)))
                        =~= prev.union(exports_of_var_decls(all.skip(i as int))));
                    assert(acc.usage_set() =~= Set::<UsageV>::empty());
                    assert(acc.import_set() =~= Set::<ImportedSymbolV<Seq<char>>>::empty());
                }
                i += 1;
            }
            proof {
                assert(all.skip(n as int) =~= Seq::<VarDeclarator>::empty());
                assert(acc.export_set() =~= exports_of_var_decls(all));
            }
            acc
        },
        Decl::TsEnum(name) => ModuleSymbols::new_exported_symbol_str(name.clone()),
        Decl::TsInterface(name) => ModuleSymbols::new_exported_symbol_str(name.clone()),
        Decl::TsTypeAlias(name) => ModuleSymbols::new_exported_symbol_str(name.clone()),
        Decl::TsModule(name) => match name {
            Some(n) => ModuleSymbols::new_exported_symbol_str(n.clone()),
            None => ModuleSymbols::empty(),
        },
    }
}

/// The symbol record of one module declaration.
pub fn analyze_module_decl(decl: &ModuleDecl) -> (r: ModuleSymbols<String>)
    ensures
        r.wf(),
        r.usage_set() == Set::<UsageV>::empty(),
        r.export_set() == exports_of_module_decl(*decl),
        r.import_set() == imports_of_module_decl(*decl),
{
    match decl {
        ModuleDecl::Import(d) => {
            let symbols = clone_imports(&d.specifiers);
            let imported = ImportedSymbol { symbols, from: d.from.clone() };
            ModuleSymbols::new_imported_symbol(imported)
        },
        ModuleDecl::ExportDecl(d) => analyze_decl(d),
        ModuleDecl::ExportNamed(specs) => {
            let ghost all = specs@;
            let mut acc = ModuleSymbols::<String>::empty();
            let n = specs.len();
            let mut i: usize = 0;
            proof {
                assert(all.skip(0) =~= all);
                assert(acc.export_set().union(exports_of_export_specs(all))
                    =~= exports_of_export_specs(all));
            }
            while i < n
                invariant
                    n == specs@.len(),
                    all == specs@,
                    i <= n,
                    acc.wf(),
                    acc.usage_set() == Set::<UsageV>::empty(),
                    acc.import_set() == Set::<ImportedSymbolV<Seq<char>>>::empty(),
                    acc.export_set().union(exports_of_export_specs(all.skip(i as int)))
                        == exports_of_export_specs(all),
                decreases n - i,
            {
                let ghost prev = acc.export_set();
                let one = analyze_export_specifier(&specs[i]);
                proof {
                    assert(all.skip(i as int)[0] == all[i as int]);
                    assert(all.skip(i as int).drop_first() =~= all.skip(i as int + 1));
                }
                acc = acc.merge(one);
                proof {
                    assert(acc.export_set().union(exports_of_export_specs(all.skip(i as int + 1)))
                        =~= prev.union(exports_of_export_specs(all.skip(i as int))));
                    assert(acc.usage_set() =~= Set::<UsageV>::empty());
                    assert(acc.import_set() =~= Set::<ImportedSymbolV<Seq<char>>>::empty());
                }
                i += 1;
            }
            proof {
                assert(all.skip(n as int) =~= Seq::<ExportSpecifier>::empty());
                assert(acc.export_set() =~= exports_of_export_specs(all));
            }
            acc
        },
        ModuleDecl::ExportDefaultDecl(_) => ModuleSymbols::new_export(Export::Default),
        ModuleDecl::ExportDefaultExpr(_) => ModuleSymbols::new_export(Export::Default),
        ModuleDecl::ExportAll(from) => ModuleSymbols::new_all_export(from.clone()),
        ModuleDecl::ImportEquals => ModuleSymbols::empty(),
    }
}

/// The symbol record of one top-level item; a plain statement contributes
/// nothing.
pub fn analyze_module_item(module_item: &ModuleItem) -> (r: ModuleSymbols<String>)
    ensures
        r.wf(),
        r.usage_set() == Set::<UsageV>::empty(),
        r.export_set() == exports_of_module_item(*module_item),
        r.import_set() == imports_of_module_item(*module_item),
{
    match module_item {
        ModuleItem::Stmt(_) => ModuleSymbols::empty(),
        ModuleItem::ModuleDecl(decl) => analyze_module_decl(decl),
    }
}

/// The exports and imports a whole module declares: the union over its
/// top-level items.  Usages are not collected here.
pub fn analyze_module_symbols(module: &Module) -> (r: ModuleSymbols<String>)
    ensures
        r.wf(),
        r.usage_set() == Set::<UsageV>::empty(),
        r.export_set() == exports_of_module(*module),
        r.import_set() == imports_of_module(*module),
{
    let ghost all = module.body@;
    let mut acc = ModuleSymbols::<String>::empty();
    let n = module.body.len();
    let mut i: usize = 0;
    proof {
        assert(all.skip(0) =~= all);
        assert(acc.export_set().union(exports_of_module_items(all))
            =~= exports_of_module_items(all));
        assert(acc.import_set().union(imports_of_module_items(all))
            =~= imports_of_module_items(all));
    }
    while i < n
        invariant
            n == module.body@.len(),
            all == module.body@,
            i <= n,
            acc.wf(),
            acc.usage_set() == Set::<UsageV>::empty(),
            acc.export_set().union(exports_of_module_items(all.skip(i as int)))
                == exports_of_module_items(all),
            acc.import_set().union(imports_of_module_items(all.skip(i as int)))
                == imports_of_module_items(all),
        decreases n - i,
    {
        let ghost prev_e = acc.export_set();
        let ghost prev_i = acc.import_set();
        let one = analyze_module_item(&module.body[i]);
        proof {
            assert(all.skip(i as int)[0] == all[i as int]);
            assert(all.skip(i as int).drop_first() =~= all.skip(i as int + 1));
        }
        acc = acc.merge(one);
        proof {
            assert(acc.export_set().union(exports_of_module_items(all.skip(i as int + 1)))
                =~= prev_e.union(exports_of_module_items(all.skip(i as int))));
            assert(acc.import_set().union(imports_of_module_items(all.skip(i as int + 1)))
                =~= prev_i.union(imports_of_module_items(all.skip(i as int))));
            assert(acc.usage_set() =~= Set::<UsageV>::empty());
        }
        i += 1;
    }
    proof {
        assert(all.skip(n as int) =~= Seq::<ModuleItem>::empty());
        assert(acc.export_set() =~= exports_of_module_items(all));
        assert(acc.import_set() =~= imports_of_module_items(all));
    }
    acc
}

/// Every import binding the module introduces, deduplicated.
fn collect_import_bindings(module: &Module) -> (r: Vec<Import>)
    ensures
        distinct_seq(r@),
        r.deep_view().to_set() == module_import_bindings(*module),
{
    let ghost m = *module;
    let mut acc: Vec<Import> = Vec::new();
    let n = module.body.len();
    let mut i: usize = 0;
    proof {
        assert(acc.deep_view().to_set() =~= bindings_upto(m, 0));
    }
    while i < n
        invariant
            n == module.body@.len(),
            m == *module,
            i <= n,
            distinct_seq(acc@),
            acc.deep_view().to_set() == bindings_upto(m, i as int),
        decreases n - i,
    {
        let ghost prev = acc.deep_view().to_set();
        match &module.body[i] {
            ModuleItem::ModuleDecl(ModuleDecl::Import(d)) => {
                let ghost dv = d.specifiers.deep_view();
                let k = d.specifiers.len();
                let mut j: usize = 0;
                proof {
                    assert(dv.take(0) =~= Seq::<ImportV>::empty());
                    assert(prev.union(dv.take(0).to_set()) =~= prev);
                }
                while j < k
                    invariant
                        k == d.specifiers@.len(),
                        dv == d.specifiers.deep_view(),
                        j <= k,
                        distinct_seq(acc@),
                        acc.deep_view().to_set() == prev.union(dv.take(j as int).to_set()),
                    decreases k - j,
                {
                    let c = clone_import(&d.specifiers[j]);
                    proof {
                        assert(c.deep_view() == dv[j as int]);
                        assert(dv.take(j as int + 1) =~= dv.take(j as int).push(dv[j as int]));
                        crate::vecset::lemma_to_set_push(dv.take(j as int), dv[j as int]);
                    }
                    vec_set_insert(&mut acc, c);
                    proof {
                        assert(acc.deep_view().to_set() =~= prev.union(
                            dv.take(j as int + 1).to_set(),
                        ));
                    }
                    j += 1;
                }
                proof {
                    assert(dv.take(k as int) =~= dv);
                    assert(bindings_upto(m, i as int + 1) =~= prev.union(dv.to_set())) by {
                        assert forall|iv: ImportV|
                            bindings_upto(m, i as int + 1).contains(iv) implies prev.union(
                            dv.to_set(),
                        ).contains(iv) by {
                            let i2 = choose|i2: int|
                                0 <= i2 < i + 1 && ((#[trigger] m.body@[i2])
                                    matches ModuleItem::ModuleDecl(ModuleDecl::Import(d2))
                                    && d2.specifiers.deep_view().contains(iv));
                            if i2 < i {
                                assert(bindings_upto(m, i as int).contains(iv));
                            }
                        }
                        assert forall|iv: ImportV|
                            prev.union(dv.to_set()).contains(iv) implies bindings_upto(
                            m,
                            i as int + 1,
                        ).contains(iv) by {
                            if prev.contains(iv) {
                                let i2 = choose|i2: int|
                                    0 <= i2 < i && ((#[trigger] m.body@[i2])
                                        matches ModuleItem::ModuleDecl(ModuleDecl::Import(d2))
                                        && d2.specifiers.deep_view().contains(iv));
                                assert(0 <= i2 < i + 1);
                            } else {
                                assert(m.body@[i as int] matches ModuleItem::ModuleDecl(
                                    ModuleDecl::Import(d2),
                                ) && d2.specifiers.deep_view().contains(iv));
                            }
                        }
                    }
                }
            },
            _ => {
                proof {
                    assert(bindings_upto(m, i as int + 1) =~= prev) by {
                        assert forall|iv: ImportV|
                            bindings_upto(m, i as int + 1).contains(iv) implies prev.contains(
                            iv,
                        ) by {
                            let i2 = choose|i2: int|
                                0 <= i2 < i + 1 && ((#[trigger] m.body@[i2])
                                    matches ModuleItem::ModuleDecl(ModuleDecl::Import(d2))
                                    && d2.specifiers.deep_view().contains(iv));
                            assert(i2 < i);
                            assert(bindings_upto(m, i as int).contains(iv));
                        }
                        assert forall|iv: ImportV|
                            prev.contains(iv) implies bindings_upto(m, i as int + 1).contains(
                            iv,
                        ) by {
                            let i2 = choose|i2: int|
                                0 <= i2 < i && ((#[trigger] m.body@[i2])
                                    matches ModuleItem::ModuleDecl(ModuleDecl::Import(d2))
                                    && d2.specifiers.deep_view().contains(iv));
                            assert(0 <= i2 < i + 1);
                        }
                    }
                }
            },
        }
        i += 1;
    }
    proof {
        assert(bindings_upto(m, n as int) =~= module_import_bindings(m));
    }
    acc
}

/// The full analysis of one parsed module: its exports, its imports, and
/// the namespace usages of its body, assembled under the module's path.
pub fn analyze_file(path: &String, module: &Module) -> (r: AnalyzedModule<String>)
    ensures
        r.path@ == path@,
        r.symbols.wf(),
        r.symbols.export_set() == exports_of_module(*module),
        r.symbols.import_set() == imports_of_module(*module),
        r.symbols.usage_set() == usages_of_module(module_import_bindings(*module), *module),
{
    let mut symbols = analyze_module_symbols(module);
    let bindings = collect_import_bindings(module);
    let analyzer = SymbolsUsageAnalyzer::new(bindings);
    let usages = analyzer.analyze_symbols_usage(module);
    symbols.usages = usages;
    AnalyzedModule::new(path.clone(), symbols)
}

} // verus!
