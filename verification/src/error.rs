//! How encoding can fail.

use vstd::prelude::*;

verus! {

/// The ways in which a character or a text cannot be encoded.
#[derive(Copy, Clone, Debug, PartialEq, Eq, Structural)]
pub enum EncodeError {
    /// There was no symbol to pad. A character that the symbol table does not
    /// hold ends here, since its table entry is empty.
    EmptySequence,
}

} // verus!
