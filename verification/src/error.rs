use vstd::prelude::*;

verus! {

/// Why a retrieval was refused or aborted.
#[derive(Clone, Copy, Debug, PartialEq, Eq, Structural)]
pub enum PirError {
    /// The scheme parameters are unusable, a database scalar is not below the
    /// plaintext modulus, the database length does not fit the chosen
    /// variant, or the scheme refused an operation.
    Configuration,
    /// The requested index lies outside the database.
    Index,
    /// The text given as retrieval index is not an unsigned decimal number.
    Input,
    /// A retrieved value disagrees with the value it is known to stand for.
    InternalConsistency,
}

} // verus!
