//! The abstract model against which the commitment scheme is verified.
//!
//! Both groups of the pairing and the target group have the same prime order
//! `r` ([`group_order`]) and are cyclic, so every group element that the
//! library manipulates is represented in specifications by its exponent
//! (discrete logarithm with respect to the fixed generator), a natural number
//! below `r`.  Scalars are likewise represented by their canonical integer
//! value.  All contracts of the trusted algebra layer and of the public
//! operations are stated over these exponents.

use crate::algebra::sha512_of;
use vstd::arithmetic::power::pow;
use vstd::prelude::*;

verus! {

/// The order `r` of the prime-order groups and of the scalar field of the
/// BLS12-381 pairing, composed from its four big-endian 64-bit limbs (the
/// value is 0x73eda753299d7d483339d80809a1d80553bda402fffe5bfeffffffff00000001):
/// the modulus of all exponent arithmetic in this model.
pub open spec fn group_order() -> nat {
    (((0x73eda753299d7d48 * 0x10000000000000000 + 0x3339d80809a1d805) * 0x10000000000000000
        + 0x53bda402fffe5bfe) * 0x10000000000000000 + 0xffffffff00000001) as nat
}

/// Reduction of an integer into the canonical exponent range `[0, r)`.
pub open spec fn mod_r(x: int) -> nat {
    (x % (group_order() as int)) as nat
}

/// The reduced power `a^e mod r`: the exponent of a group element obtained
/// by raising one of exponent `a` to the `e`-th power.
pub open spec fn pow_mod_r(a: nat, e: nat) -> nat {
    mod_r(pow(a as int, e))
}

/// The integer value of a byte string read as a big-endian number.
pub open spec fn bytes_be_val(b: Seq<u8>) -> nat
    decreases b.len(),
{
    if b.len() == 0 {
        0
    } else {
        bytes_be_val(b.drop_last()) * 256 + b.last() as nat
    }
}

/// The scalar derived from a committed value: the SHA-512 digest of the
/// value, read as a big-endian integer and reduced modulo the group order.
pub open spec fn value_scalar(v: Seq<u8>) -> nat {
    mod_r(bytes_be_val(sha512_of(v)) as int)
}

/// The field element by which a single commitment or proof update shifts the
/// relevant generator: `value_scalar(after) - value_scalar(before)` mod `r`.
pub open spec fn delta_scalar(before: Seq<u8>, after: Seq<u8>) -> nat {
    mod_r(value_scalar(after) - value_scalar(before))
}

/// Sum of products `sum_i bases[i] * scalars[i]` over the integers: the
/// exponent (before reduction) of a multi-scalar multiplication.
pub open spec fn msm_val(bases: Seq<nat>, scalars: Seq<nat>) -> int
    decreases bases.len(),
{
    if bases.len() == 0 || scalars.len() == 0 {
        0
    } else {
        msm_val(bases.drop_last(), scalars.drop_last()) + bases.last() * scalars.last()
    }
}

/// The scalars derived from a vector of committed values.
pub open spec fn value_scalars(values: Seq<Vec<u8>>) -> Seq<nat> {
    values.map_values(|v: Vec<u8>| value_scalar(v@))
}

/// The update scalars of a batch update, one per changed position.
pub open spec fn delta_scalars(before: Seq<Vec<u8>>, after: Seq<Vec<u8>>) -> Seq<nat> {
    Seq::new(before.len(), |j: int| delta_scalar(before[j]@, after[j]@))
}

/// The exponents of the generators selected by an index list, in list order.
pub open spec fn selected_vals(gens: Seq<nat>, indices: Seq<usize>) -> Seq<nat> {
    Seq::new(indices.len(), |j: int| gens[indices[j] as int])
}

/// No position occurs twice in the index list of a batch update.
pub open spec fn all_distinct(s: Seq<usize>) -> bool {
    forall|i: int, j: int| 0 <= i < j < s.len() ==> s[i] != s[j]
}

/// Every index of the list addresses a vector position, i.e. lies below `n`.
pub open spec fn all_below(s: Seq<usize>, n: usize) -> bool {
    forall|i: int| 0 <= i < s.len() ==> s[i] < n
}

/// The scalar sequence after a batch of replacements: each listed position,
/// in list order, takes its new scalar.
pub open spec fn multi_update(scalars: Seq<nat>, indices: Seq<usize>, news: Seq<nat>) -> Seq<nat>
    decreases indices.len(),
{
    if indices.len() == 0 || news.len() == 0 {
        scalars
    } else {
        multi_update(scalars, indices.drop_last(), news.drop_last()).update(
            indices.last() as int,
            news.last(),
        )
    }
}

/// The per-position shifts of a batch over the original scalars: new scalar
/// minus old scalar at each listed position, reduced.
pub open spec fn batch_deltas(scalars: Seq<nat>, indices: Seq<usize>, news: Seq<nat>) -> Seq<nat> {
    Seq::new(indices.len(), |k: int| mod_r(news[k] - scalars[indices[k] as int]))
}

/// The exponent reached by applying single-position shifts one at a time,
/// reducing after each step, as a chain of `update` calls does.
pub open spec fn seq_shift(c: nat, gsel: Seq<nat>, ds: Seq<nat>) -> nat
    decreases gsel.len(),
{
    if gsel.len() == 0 || ds.len() == 0 {
        mod_r(c as int)
    } else {
        mod_r(seq_shift(c, gsel.drop_last(), ds.drop_last()) + gsel.last() * ds.last() as int)
    }
}

/// The pairing equation evaluated by proof verification, over exponents:
/// `e(commit, g2^h) == e(proof, g2) * gt^m` becomes
/// `commit * h == proof + gt * m` modulo the group order.
pub open spec fn verify_eq(commit: nat, h: nat, proof: nat, gt: nat, m: nat) -> bool {
    mod_r(commit * h as int) == mod_r(proof + gt * m as int)
}

} // verus!
