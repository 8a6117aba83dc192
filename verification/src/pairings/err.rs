//! The error kinds of the commitment scheme.

use vstd::prelude::*;

verus! {

/// Everything a commitment or proof operation can reject.  Every failure is
/// local and recoverable: the receiver of a failed mutating call is left
/// unchanged.
#[derive(Clone, Copy, Debug, PartialEq, Eq, Structural)]
pub enum VeccomError {
    /// The ciphersuite is unsupported, or two cooperating objects carry
    /// different ciphersuites.
    CiphersuiteError,
    /// The supplied value vector does not have the configured length.
    InvalidValueError,
    /// An index or position lies outside the committed vector.
    InvalidIndexError,
    /// The index list of a batch update and its value lists differ in length.
    IndexValueMismatchError,
    /// The index list of a batch update names a position twice.
    DuplicatedIndexError,
    /// The seed handed to parameter generation is too short.
    InvalidSeedError,
}

} // verus!
