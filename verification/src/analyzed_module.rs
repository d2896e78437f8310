//! One analyzed module: its path and its symbol record.

use vstd::prelude::*;

use crate::module_symbols::Export;
use crate::module_symbols::ExportV;
use crate::module_symbols::ModuleSymbols;

verus! {

/// The analysis result for one module.  `P` is the module reference type:
/// the raw specifier string before resolution, the canonical path after.
#[derive(Debug)]
pub struct AnalyzedModule<P> {
    pub path: P,
    pub symbols: ModuleSymbols<P>,
}

impl AnalyzedModule<String> {
    pub fn new(path: String, symbols: ModuleSymbols<String>) -> (r: Self)
        ensures
            r.path == path,
            r.symbols == symbols,
    {
        AnalyzedModule { path, symbols }
    }

    /// Whether the module directly exports `symbol` as a named export.
    pub fn exports_symbol(&self, symbol: &String) -> (r: bool)
        ensures
            r == self.symbols.export_set().contains(ExportV::<Seq<char>>::Symbol(symbol@)),
    {
        let n = self.symbols.exports.len();
        let mut i: usize = 0;
        while i < n
            invariant
                n == self.symbols.exports@.len(),
                i <= n,
                forall|k: int|
                    0 <= k < i ==> self.symbols.exports.deep_view()[k] != ExportV::<Seq<char>>::Symbol(symbol@),
            decreases n - i,
        {
            match &self.symbols.exports[i] {
                Export::Symbol(s) => {
                    if *s == *symbol {
                        assert(self.symbols.exports.deep_view()[i as int] == ExportV::<Seq<char>>::Symbol(
                            symbol@,
                        ));
                        return true;
                    }
                },
                _ => {},
            }
            proof {
                assert(self.symbols.exports.deep_view()[i as int]
                    == self.symbols.exports@[i as int].deep_view());
            }
            i += 1;
        }
        false
    }
}

} // verus!
