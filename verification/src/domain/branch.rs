//! Branches.

use crate::text::same_text;
use vstd::prelude::*;

verus! {

/// A branch, and whether releases are cut from it.
#[derive(Debug, Clone, PartialEq, Eq)]
pub struct BranchContext {
    pub name: String,
    pub is_main: bool,
}

/// The names of the branches that releases are cut from.
pub open spec fn is_main_name(name: Seq<char>) -> bool {
    name == "main"@ || name == "master"@
}

impl BranchContext {
    /// The context of the branch of the given name.
    pub fn new(name: &str) -> (branch: BranchContext)
        ensures
            branch.name@ == name@,
            branch.is_main == is_main_name(name@),
    {
        let is_main = same_text(name, "main") || same_text(name, "master");
        BranchContext { name: name.to_string(), is_main }
    }

    /// Whether releases are cut from this branch.
    pub fn is_release_branch(&self) -> (yes: bool)
        ensures
            yes == self.is_main,
    {
        self.is_main
    }
}

} // verus!
