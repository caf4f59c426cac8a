//! Signature-hash flags.

use vstd::prelude::*;

verus! {

/// Which parts of a transaction a signature commits to.
#[derive(Debug, Clone, Copy)]
pub enum SigHashType {
    /// Commit to every input and output.
    All,
    /// Commit to no outputs (the NONE flag).
    NoOutputs,
    /// Commit to the single output paired with the signed input.
    Single,
}

} // verus!
