//! The ways a tree is produced.

use vstd::prelude::*;

verus! {

/// Modes in which a tree is built.
pub enum NomadMode {
    /// Only entries of the current branch.
    GitBranch,
    /// Only entries that version control reports as changed.
    GitStatus,
    /// The interactive session.
    Interactive,
    /// A tree printed once.
    Normal,
}

} // verus!
