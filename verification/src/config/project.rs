//! Where a project's configuration file is looked for.

use vstd::prelude::*;

verus! {

/// The names under which a project configuration is found in a directory
/// (or one of its ancestors): `analyzer.toml`, `.analyzer.toml`, or
/// `.analyzer/analyzer.toml`.
#[derive(Debug, Clone, Copy)]
pub struct ProjectConfigPaths;

impl ProjectConfigPaths {
    /// `analyzer.toml`
    pub fn config_file_name() -> (r: &'static str)
        ensures
            r@ == "analyzer.toml"@,
    {
        "analyzer.toml"
    }

    /// `.analyzer.toml`
    pub fn hidden_config_file_name() -> (r: &'static str)
        ensures
            r@ == ".analyzer.toml"@,
    {
        ".analyzer.toml"
    }

    /// `.analyzer`
    pub fn config_dir_name() -> (r: &'static str)
        ensures
            r@ == ".analyzer"@,
    {
        ".analyzer"
    }
}

} // verus!
