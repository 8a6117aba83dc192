//! Updatable, position-binding vector commitments over a bilinear pairing
//! group.
//!
//! A commitment binds an ordered vector of byte-string values to a single
//! group element.  Individual positions can be opened with short proofs, and
//! both commitments and proofs can be updated in place when single entries of
//! the vector change, without recomputing them from the whole vector.
//!
//! The elliptic-curve, field and pairing arithmetic is supplied by an outside
//! algebra library and is relied upon through the narrow trusted layer in
//! [`algebra`]; everything above that layer is verified against the abstract
//! exponent model in [`model`].

pub mod algebra;
pub mod lemmas;
pub mod model;
pub mod pairings;
