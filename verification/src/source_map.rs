//! The one field of a declaration-map artifact that resolution reads: the
//! list of original source files it names.  Decoding the artifact is the
//! caller's business.

use vstd::prelude::*;

verus! {

/// The contents of a declaration-map artifact.  Resolution assumes the
/// mapping is one to one: more than one entry in `sources` is a fatal
/// configuration error.
#[derive(Debug)]
pub struct SourceMap {
    pub sources: Vec<String>,
}

impl DeepView for SourceMap {
    type V = Seq<Seq<char>>;

    open spec fn deep_view(&self) -> Seq<Seq<char>> {
        self.sources.deep_view()
    }
}

} // verus!
