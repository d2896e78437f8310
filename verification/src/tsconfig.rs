//! The fields of a compiler configuration that the analysis reads: the
//! optional path-alias base directory and the optional build-output
//! directory.  Loading and decoding the configuration file is the caller's
//! business.

use vstd::prelude::*;

verus! {

/// The compiler configuration of one package.
#[derive(Debug)]
pub struct TsConfig {
    pub compiler_options: Option<TsConfigCompilerOptions>,
}

/// The options the analysis reads out of a compiler configuration.
#[derive(Debug)]
pub struct TsConfigCompilerOptions {
    /// Non-relative specifiers are resolved against this directory of the
    /// owning package.
    pub base_url: Option<String>,
    /// Build output lands here; the graph builder skips it.
    pub out_dir: Option<String>,
}

/// The spec-level value of a `TsConfig`.
pub struct TsConfigV {
    pub base_url: Option<Seq<char>>,
    pub out_dir: Option<Seq<char>>,
}

impl DeepView for TsConfigCompilerOptions {
    type V = TsConfigV;

    open spec fn deep_view(&self) -> TsConfigV {
        TsConfigV { base_url: self.base_url.deep_view(), out_dir: self.out_dir.deep_view() }
    }
}

impl DeepView for TsConfig {
    type V = TsConfigV;

    open spec fn deep_view(&self) -> TsConfigV {
        match self.compiler_options {
            Some(o) => o.deep_view(),
            None => TsConfigV { base_url: None, out_dir: None },
        }
    }
}

/// The configured path-alias base of an optional configuration, as the
/// contracts see it.
pub open spec fn spec_base_url(tsconfig: Option<TsConfig>) -> Option<Seq<char>> {
    match tsconfig {
        Some(c) => c.deep_view().base_url,
        None => None,
    }
}

/// Reads the path-alias base out of an optional configuration.
pub fn base_url_of(tsconfig: &Option<TsConfig>) -> (r: Option<&String>)
    ensures
        match r {
            Some(b) => spec_base_url(*tsconfig) == Some(b@),
            None => spec_base_url(*tsconfig) is None,
        },
{
    match tsconfig {
        Some(c) => match &c.compiler_options {
            Some(o) => match &o.base_url {
                Some(b) => Some(b),
                None => None,
            },
            None => None,
        },
        None => None,
    }
}

} // verus!
