//! The fields of a package manifest that the analysis reads: the package
//! name, the optional workspace glob patterns of a root manifest, and the
//! optional type-declaration entry point of a compiled package.
//!
//! Loading and decoding the manifest file is the caller's business; the
//! analysis only consumes the plain values held here.

use vstd::prelude::*;

verus! {

/// The manifest of one package.
#[derive(Debug)]
pub struct PackageJson {
    pub name: String,
    pub workspaces: Option<Vec<String>>,
    pub types: Option<String>,
}

/// The spec-level value of a `PackageJson`.
pub struct PackageJsonV {
    pub name: Seq<char>,
    pub workspaces: Option<Seq<Seq<char>>>,
    pub types: Option<Seq<char>>,
}

impl DeepView for PackageJson {
    type V = PackageJsonV;

    open spec fn deep_view(&self) -> PackageJsonV {
        PackageJsonV {
            name: self.name@,
            workspaces: self.workspaces.deep_view(),
            types: self.types.deep_view(),
        }
    }
}

} // verus!
