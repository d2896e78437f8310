//! The plan of one analysis run: the packages to analyze.
//!
//! A workspace is either a single package, or the set of packages named by
//! the workspace glob patterns of the root manifest.  Discovering package
//! directories and loading their manifests is filesystem work done by the
//! caller; this module holds the decision logic over the loaded values.

use vstd::prelude::*;

use crate::package_json::PackageJson;
use crate::package_json::PackageJsonV;
use crate::paths::spec_split;
use crate::paths::split_path;
use crate::tsconfig::TsConfig;
use crate::tsconfig::TsConfigV;

verus! {

/// The packages of one analysis run.
#[derive(Debug)]
pub struct AnalyzePlan {
    pub packages: Vec<Package>,
}

/// One package: its root directory, its manifest, and its optional compiler
/// configuration.
#[derive(Debug)]
pub struct Package {
    pub path: String,
    pub package_json: PackageJson,
    pub tsconfig: Option<TsConfig>,
}

/// The spec-level value of a `Package`.
pub struct PackageV {
    pub path: Seq<char>,
    pub package_json: PackageJsonV,
    pub tsconfig: Option<TsConfigV>,
}

impl DeepView for Package {
    type V = PackageV;

    open spec fn deep_view(&self) -> PackageV {
        PackageV {
            path: self.path@,
            package_json: self.package_json.deep_view(),
            tsconfig: self.tsconfig.deep_view(),
        }
    }
}

impl AnalyzePlan {
    pub fn new(packages: Vec<Package>) -> (r: Self)
        ensures
            r.packages == packages,
    {
        AnalyzePlan { packages }
    }
}

impl Package {
    pub fn new(path: &String, package_json: PackageJson, tsconfig: Option<TsConfig>) -> (r: Self)
        ensures
            r.path == path,
            r.package_json == package_json,
            r.tsconfig == tsconfig,
    {
        Package { path: path.clone(), package_json, tsconfig }
    }
}

/// Decides the plan of a run rooted at `path`, whose manifest is
/// `package_json` and whose compiler configuration, if any, is `tsconfig`.
/// A root manifest with workspace patterns names a multi-package run: the
/// plan holds the packages discovered under those patterns, which the caller
/// hands in.  Without workspace patterns the run analyzes the one package at
/// the root.
pub fn prepare_analyze_plan(
    path: &String,
    package_json: PackageJson,
    tsconfig: Option<TsConfig>,
    workspace_packages: Vec<Package>,
) -> (r: AnalyzePlan)
    ensures
        match package_json.workspaces {
            Some(_) => r.packages == workspace_packages,
            None => {
                &&& r.packages@.len() == 1
                &&& r.packages@[0].path@ == path@
                &&& r.packages@[0].package_json == package_json
                &&& r.packages@[0].tsconfig == tsconfig
            },
        },
{
    if package_json.workspaces.is_some() {
        AnalyzePlan::new(workspace_packages)
    } else {
        let package = Package::new(path, package_json, tsconfig);
        AnalyzePlan::new(vec![package])
    }
}

/// The directory name of a workspace pattern of the supported shape
/// `folder/*`: exactly two segments, the second a sole `*`, the first free
/// of `*`.  Any other shape is unsupported.
pub open spec fn spec_wildcard_folder(w: Seq<char>) -> Option<Seq<char>> {
    let segs = spec_split(w);
    if segs.len() == 2 && segs[1] == seq!['*'] && !segs[0].contains('*') {
        Some(segs[0])
    } else {
        None
    }
}

/// Parses a workspace glob pattern of the shape `folder/*` into the folder
/// name; any other shape is unsupported and yields `None`.
pub fn wildcard_folder(wildcard: &String) -> (r: Option<String>)
    ensures
        match r {
            Some(f) => spec_wildcard_folder(wildcard@) == Some(f@),
            None => spec_wildcard_folder(wildcard@) is None,
        },
{
    let segs = split_path(wildcard.as_str());
    if segs.len() != 2 {
        return None;
    }
    let second = &segs[1];
    let star = second.as_str().unicode_len() == 1 && second.as_str().get_char(0) == '*';
    proof {
        if star {
            assert(segs.deep_view()[1] =~= seq!['*']);
        } else {
            assert(segs.deep_view()[1] != seq!['*']) by {
                assert(seq!['*'].len() == 1 && seq!['*'][0] == '*');
            }
        }
    }
    if !star {
        return None;
    }
    let first = &segs[0];
    let n = first.as_str().unicode_len();
    let mut i: usize = 0;
    while i < n
        invariant
            n == first@.len(),
            i <= n,
            segs@.len() == 2,
            segs.deep_view() == spec_split(wildcard@),
            segs.deep_view()[1] == seq!['*'],
            segs.deep_view()[0] == first@,
            forall|k: int| 0 <= k < i ==> first@[k] != '*',
        decreases n - i,
    {
        if first.as_str().get_char(i) == '*' {
            assert(segs.deep_view()[0].contains('*'));
            return None;
        }
        i += 1;
    }
    assert(!segs.deep_view()[0].contains('*'));
    Some(first.clone())
}

} // verus!
