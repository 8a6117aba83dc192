//! Scalar derivation: the deterministic map from an arbitrary byte string to
//! a scalar-field element that turns committed values into exponents.

use crate::algebra::{fr_add, fr_from_u64, fr_mul, fr_val, sha512_digest, sha512_of};
use crate::lemmas::{lemma_mod_r_add_left, lemma_mod_r_mul_left, lemma_mod_r_small};
use crate::model::{bytes_be_val, mod_r, value_scalar};
use vstd::prelude::*;

use pairing_plus::bls12_381::Fr;

verus! {

/// Derive a field element from an arbitrary byte string: the SHA-512 digest
/// of the string, read as a big-endian integer and reduced into the field.
/// Total over all inputs, deterministic, and free of any other state.
pub fn hash_to_field_veccom(input: &[u8]) -> (r: Fr)
    ensures
        fr_val(r) == value_scalar(input@),
{
    let digest = sha512_digest(input);
    let mut acc = fr_from_u64(0);
    let base = fr_from_u64(256);
    let len = digest.len();
    proof {
        assert(digest@.take(0) =~= Seq::<u8>::empty());
        lemma_mod_r_small(0);
    }
    for i in 0..len
        invariant
            len == digest@.len(),
            digest@ == sha512_of(input@),
            fr_val(base) == 256,
            fr_val(acc) == mod_r(bytes_be_val(digest@.take(i as int)) as int),
    {
        let shifted = fr_mul(&acc, &base);
        let byte_fr = fr_from_u64(digest[i] as u64);
        let next = fr_add(&shifted, &byte_fr);
        proof {
            let x = bytes_be_val(digest@.take(i as int)) as int;
            let b = digest@[i as int] as int;
            assert(digest@.take(i + 1).drop_last() =~= digest@.take(i as int));
            assert(bytes_be_val(digest@.take(i + 1)) == x * 256 + b);
            lemma_mod_r_mul_left(x, 256);
            lemma_mod_r_add_left(x * 256, b);
        }
        acc = next;
    }
    proof {
        assert(digest@.take(len as int) =~= digest@);
    }
    acc
}

} // verus!
