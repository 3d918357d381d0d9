//! The generator's invocation options and the decisions made on them.
//!
//! Argument parsing, filesystem probing and file writing happen outside the
//! crate; the option structs live here so that the decisions taken on them —
//! whether an existing output file blocks the run, and whether an ancestor
//! manifest should be searched for — are verified.

use vstd::prelude::*;

verus! {

/// Options of the current generator's `init` command.
pub struct Args {
    /// Print the generated `flake.nix` to stdout instead of writing it.
    pub print: bool,
    /// Overwrite an existing `flake.nix`.
    pub force: bool,
    /// The project root directory; the current directory when absent.
    pub root: Option<String>,
}

impl Args {
    /// May the run proceed when the output file already exists? Printing
    /// never writes, and `force` overwrites; otherwise an existing file
    /// blocks the run.
    pub fn output_allowed(&self, flake_nix_exists: bool) -> (r: bool)
        ensures
            r == (self.print || self.force || !flake_nix_exists),
    {
        self.print || self.force || !flake_nix_exists
    }

    /// Should ancestor directories be searched for a workspace manifest?
    /// Only when the loaded manifest is not itself a workspace and the user
    /// did not pin the root directory explicitly.
    pub fn wants_ancestor_check(&self, manifest_is_workspace: bool) -> (r: bool)
        ensures
            r == (!manifest_is_workspace && self.root is None),
    {
        !manifest_is_workspace && match &self.root {
            Some(_) => false,
            None => true,
        }
    }
}

/// Options of the older generator's `init` command.
pub struct Opt {
    /// Print the generated `flake.nix` to stdout instead of writing it.
    pub print: bool,
    /// Overwrite an existing `flake.nix`.
    pub force: bool,
    /// The project root directory.
    pub path: String,
}

impl Opt {
    /// May the run proceed when the output file already exists?
    pub fn output_allowed(&self, flake_nix_exists: bool) -> (r: bool)
        ensures
            r == (self.force || self.print || !flake_nix_exists),
    {
        self.force || self.print || !flake_nix_exists
    }
}

} // verus!
