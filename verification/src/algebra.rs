//! The trusted boundary to the outside algebra crates.
//!
//! Everything the library knows about the pairing groups is stated here, as
//! contracts over the exponent model of [`crate::model`]: `fr_val` is the
//! canonical integer value of a scalar-field element, and `g1_val` /
//! `g1a_val` / `g2_val` / `g2a_val` / `gt_val` are the exponents (discrete
//! logarithms with respect to the fixed generators) of group elements.
//!
//! For the two curve groups the exponent is read as the discrete logarithm
//! of a point's component in the prime-order subgroup (its projection to the
//! `r`-torsion): that reading is total over every value the curve types can
//! hold, and since the projection is a group homomorphism, the addition and
//! scalar-multiplication laws below hold of every input.  The target group
//! lives inside the full field `Fq12`, where no such total reading exists
//! (zero is absorbing, and the field is vastly larger than the subgroup), so
//! the target-group laws — and the bilinearity of the pairing, which holds
//! only for subgroup points — are stated under explicit membership
//! predicates (`g1_ok`, `g1a_ok`, `g2_ok`, `g2a_ok`, `gt_ok`).  The curve
//! and target wrappers also state that they keep membership, the subgroups
//! being closed under their operations, so the library proves that
//! everything it builds — starting from the fixed generators, never
//! deserializing a point — satisfies the pairing's hypotheses.

use crate::model::{mod_r, msm_val};
use vstd::prelude::*;

use ff_zeroize::{Field, PrimeField};
use pairing_plus::bls12_381::{Bls12, Fq12, Fr, FrRepr, G1Affine, G2Affine, G1, G2};
use pairing_plus::{CurveAffine, CurveProjective, Engine};
use sha2::{Digest, Sha512};

verus! {

#[verifier::external_type_specification]
#[verifier::external_body]
pub struct ExFr(Fr);

#[verifier::external_type_specification]
#[verifier::external_body]
pub struct ExG1(G1);

#[verifier::external_type_specification]
#[verifier::external_body]
pub struct ExG1Affine(G1Affine);

#[verifier::external_type_specification]
#[verifier::external_body]
pub struct ExG2(G2);

#[verifier::external_type_specification]
#[verifier::external_body]
pub struct ExG2Affine(G2Affine);

#[verifier::external_type_specification]
#[verifier::external_body]
pub struct ExFq12(Fq12);

/// The canonical integer value, in `[0, group_order())`, of a scalar-field
/// element.
pub uninterp spec fn fr_val(x: Fr) -> nat;

/// The exponent of a projective first-group element with respect to the fixed
/// first-group generator.
pub uninterp spec fn g1_val(x: G1) -> nat;

/// The exponent of an affine first-group element with respect to the fixed
/// first-group generator.
pub uninterp spec fn g1a_val(x: G1Affine) -> nat;

/// The exponent of a projective second-group element with respect to the
/// fixed second-group generator.
pub uninterp spec fn g2_val(x: G2) -> nat;

/// The exponent of an affine second-group element with respect to the fixed
/// second-group generator.
pub uninterp spec fn g2a_val(x: G2Affine) -> nat;

/// The exponent of a target-group element with respect to the pairing of the
/// two fixed generators.
pub uninterp spec fn gt_val(x: Fq12) -> nat;

/// Membership of a projective first-group value in the prime-order
/// subgroup.  The outside type can hold other curve points (its unchecked
/// deserialization admits them); this library only ever builds members.
pub uninterp spec fn g1_ok(x: G1) -> bool;

/// Membership of an affine first-group value in the prime-order subgroup.
pub uninterp spec fn g1a_ok(x: G1Affine) -> bool;

/// Membership of a projective second-group value in the prime-order
/// subgroup.
pub uninterp spec fn g2_ok(x: G2) -> bool;

/// Membership of an affine second-group value in the prime-order subgroup.
pub uninterp spec fn g2a_ok(x: G2Affine) -> bool;

/// Membership of a target-group value in the prime-order subgroup of
/// `r`-th roots of unity inside the field `Fq12`.  The exponent laws of the
/// target-group operations hold only there: the rest of the field (zero
/// included) carries no exponent.
pub uninterp spec fn gt_ok(x: Fq12) -> bool;

/// The SHA-512 digest (64 bytes) of a byte string.
pub uninterp spec fn sha512_of(b: Seq<u8>) -> Seq<u8>;

/// The exponents of the three-entry precomputation table of a base with the
/// given exponent: the multiples of the base by `2^64`, `2^128` and `2^192`.
pub uninterp spec fn precomp3_of(base: nat) -> Seq<nat>;

/// The exponents of the 256-entry precomputation table of a base with the
/// given exponent: one entry per subset of the bits selecting the multiples
/// of the base by `2^(32*k)`.
pub uninterp spec fn precomp256_of(base: nat) -> Seq<nat>;

/// The table `pre` is, entry for entry, the concatenation of the genuine
/// three-entry precomputation tables of the listed bases.
pub open spec fn precomp3_table_ok(pre: Seq<nat>, bases: Seq<nat>) -> bool {
    &&& pre.len() == 3 * bases.len()
    &&& forall|j: int|
        0 <= j < bases.len() ==> pre.subrange(3 * j, 3 * j + 3) == precomp3_of(bases[j])
}

/// The table `pre` is, entry for entry, the concatenation of the genuine
/// 256-entry precomputation tables of the listed bases.
pub open spec fn precomp256_table_ok(pre: Seq<nat>, bases: Seq<nat>) -> bool {
    &&& pre.len() == 256 * bases.len()
    &&& forall|j: int|
        0 <= j < bases.len() ==> pre.subrange(256 * j, 256 * j + 256) == precomp256_of(bases[j])
}

/// Relies on the derived `Clone` of `pairing_plus::bls12_381::G1`, which
/// copies the value.
pub assume_specification[ <G1 as Clone>::clone ](x: &G1) -> (r: G1)
    ensures
        r == *x,
;

/// Relies on the derived `Clone` of `pairing_plus::bls12_381::G1Affine`,
/// which copies the value.
pub assume_specification[ <G1Affine as Clone>::clone ](x: &G1Affine) -> (r: G1Affine)
    ensures
        r == *x,
;

/// Relies on the derived `Clone` of `pairing_plus::bls12_381::G2Affine`,
/// which copies the value.
pub assume_specification[ <G2Affine as Clone>::clone ](x: &G2Affine) -> (r: G2Affine)
    ensures
        r == *x,
;

/// Relies on the derived `Clone` of `pairing_plus::bls12_381::Fq12`, which
/// copies the value.
pub assume_specification[ <Fq12 as Clone>::clone ](x: &Fq12) -> (r: Fq12)
    ensures
        r == *x,
;

/// Relies on `sha2::Sha512`: the digest is 64 bytes and depends on the input
/// bytes alone.
#[verifier::external_body]
pub fn sha512_digest(b: &[u8]) -> (r: Vec<u8>)
    ensures
        r@ == sha512_of(b@),
        r@.len() == 64,
{
    Sha512::digest(b).to_vec()
}

/// Relies on `ff_zeroize::PrimeField::from_repr`: a 64-bit integer is below
/// the modulus, so it converts to the field element with that value.
#[verifier::external_body]
pub fn fr_from_u64(x: u64) -> (r: Fr)
    ensures
        fr_val(r) == x as nat,
{
    Fr::from_repr(FrRepr::from(x)).unwrap()
}

/// Relies on `ff_zeroize::Field::add_assign`: addition in the field of order
/// `group_order()`.
#[verifier::external_body]
pub fn fr_add(a: &Fr, b: &Fr) -> (r: Fr)
    ensures
        fr_val(r) == mod_r(fr_val(*a) + fr_val(*b) as int),
{
    let mut t = *a;
    t.add_assign(b);
    t
}

/// Relies on `ff_zeroize::Field::mul_assign`: multiplication in the field of
/// order `group_order()`.
#[verifier::external_body]
pub fn fr_mul(a: &Fr, b: &Fr) -> (r: Fr)
    ensures
        fr_val(r) == mod_r(fr_val(*a) * fr_val(*b) as int),
{
    let mut t = *a;
    t.mul_assign(b);
    t
}

/// Relies on `ff_zeroize::Field::negate`: the additive inverse in the field
/// of order `group_order()`.
#[verifier::external_body]
pub fn fr_neg(a: &Fr) -> (r: Fr)
    ensures
        fr_val(r) == mod_r(-(fr_val(*a) as int)),
{
    let mut t = *a;
    t.negate();
    t
}

/// Relies on `pairing_plus::CurveAffine::one` for the first group: the fixed
/// generator, of exponent one by definition of the model.
#[verifier::external_body]
pub fn g1a_generator() -> (r: G1Affine)
    ensures
        g1a_val(r) == 1,
        g1a_ok(r),
{
    G1Affine::one()
}

/// Relies on `pairing_plus::CurveAffine::mul`: scalar multiplication of a
/// first-group point, multiplying the exponent by the scalar.
#[verifier::external_body]
pub fn g1a_mul(base: &G1Affine, s: &Fr) -> (r: G1)
    ensures
        g1_val(r) == mod_r(g1a_val(*base) * fr_val(*s) as int),
        g1a_ok(*base) ==> g1_ok(r),
{
    base.mul(*s)
}

/// Relies on `pairing_plus::CurveAffine::precomp_3`: fills the three-entry
/// precomputation table of the base.
#[verifier::external_body]
pub fn g1a_precomp_3(base: &G1Affine) -> (r: Vec<G1Affine>)
    ensures
        r@.len() == 3,
        r@.map_values(|x: G1Affine| g1a_val(x)) == precomp3_of(g1a_val(*base)),
        g1a_ok(*base) ==> forall|j: int| 0 <= j < r@.len() ==> g1a_ok(r@[j]),
{
    let mut pre = vec![G1Affine::zero(); 3];
    base.precomp_3(&mut pre);
    pre
}

/// Relies on `pairing_plus::CurveAffine::precomp_256`: fills the 256-entry
/// precomputation table of the base.
#[verifier::external_body]
pub fn g1a_precomp_256(base: &G1Affine) -> (r: Vec<G1Affine>)
    ensures
        r@.len() == 256,
        r@.map_values(|x: G1Affine| g1a_val(x)) == precomp256_of(g1a_val(*base)),
        g1a_ok(*base) ==> forall|j: int| 0 <= j < r@.len() ==> g1a_ok(r@[j]),
{
    let mut pre = vec![G1Affine::zero(); 256];
    base.precomp_256(&mut pre);
    pre
}

/// Relies on `pairing_plus::CurveAffine::mul_precomp_3`: scalar
/// multiplication accelerated by a three-entry table; correct whenever the
/// supplied table is the genuine table of the base.
#[verifier::external_body]
pub fn g1a_mul_precomp_3(base: &G1Affine, s: &Fr, pre: &[G1Affine]) -> (r: G1)
    requires
        pre@.len() == 3,
    ensures
        pre@.map_values(|x: G1Affine| g1a_val(x)) == precomp3_of(g1a_val(*base)) ==> g1_val(r)
            == mod_r(g1a_val(*base) * fr_val(*s) as int),
        g1a_ok(*base) && (forall|j: int| 0 <= j < pre@.len() ==> g1a_ok(pre@[j])) ==> g1_ok(r),
{
    base.mul_precomp_3(*s, pre)
}

/// Relies on `pairing_plus::CurveAffine::mul_precomp_256`: scalar
/// multiplication accelerated by a 256-entry table; correct whenever the
/// supplied table is the genuine table of the base.
#[verifier::external_body]
pub fn g1a_mul_precomp_256(base: &G1Affine, s: &Fr, pre: &[G1Affine]) -> (r: G1)
    requires
        pre@.len() == 256,
    ensures
        pre@.map_values(|x: G1Affine| g1a_val(x)) == precomp256_of(g1a_val(*base)) ==> g1_val(r)
            == mod_r(g1a_val(*base) * fr_val(*s) as int),
        g1a_ok(*base) && (forall|j: int| 0 <= j < pre@.len() ==> g1a_ok(pre@[j])) ==> g1_ok(r),
{
    base.mul_precomp_256(*s, pre)
}

/// Relies on `pairing_plus::CurveAffine::sum_of_products`: the multi-scalar
/// multiplication `sum_i scalars[i] * bases[i]`.
#[verifier::external_body]
pub fn g1_sum_of_products(bases: &[G1Affine], scalars: &Vec<Fr>) -> (r: G1)
    requires
        bases@.len() == scalars@.len(),
    ensures
        g1_val(r) == mod_r(
            msm_val(
                bases@.map_values(|x: G1Affine| g1a_val(x)),
                scalars@.map_values(|x: Fr| fr_val(x)),
            ),
        ),
        (forall|j: int| 0 <= j < bases@.len() ==> g1a_ok(bases@[j])) ==> g1_ok(r),
{
    let reprs: Vec<[u64; 4]> = scalars.iter().map(|s| s.into_repr().0).collect();
    let refs: Vec<&[u64; 4]> = reprs.iter().collect();
    G1Affine::sum_of_products(bases, &refs)
}

/// Relies on `pairing_plus::CurveAffine::sum_of_products_precomp_256`: the
/// multi-scalar multiplication accelerated by per-base 256-entry tables;
/// correct whenever the supplied table is the concatenation of the genuine
/// tables of the bases, in the same order.
#[verifier::external_body]
pub fn g1_sum_of_products_precomp_256(bases: &[G1Affine], scalars: &Vec<Fr>, pre: &[G1Affine]) -> (r:
    G1)
    requires
        bases@.len() == scalars@.len(),
        pre@.len() == 256 * bases@.len(),
    ensures
        precomp256_table_ok(
            pre@.map_values(|x: G1Affine| g1a_val(x)),
            bases@.map_values(|x: G1Affine| g1a_val(x)),
        ) ==> g1_val(r) == mod_r(
            msm_val(
                bases@.map_values(|x: G1Affine| g1a_val(x)),
                scalars@.map_values(|x: Fr| fr_val(x)),
            ),
        ),
        (forall|j: int| 0 <= j < bases@.len() ==> g1a_ok(bases@[j])) && (forall|j: int|
            0 <= j < pre@.len() ==> g1a_ok(pre@[j])) ==> g1_ok(r),
{
    let reprs: Vec<[u64; 4]> = scalars.iter().map(|s| s.into_repr().0).collect();
    let refs: Vec<&[u64; 4]> = reprs.iter().collect();
    G1Affine::sum_of_products_precomp_256(bases, &refs, pre)
}

/// Relies on `pairing_plus::CurveProjective::add_assign` for the first group:
/// the group operation, adding the exponents.
#[verifier::external_body]
pub fn g1_add_assign(a: &mut G1, b: &G1)
    ensures
        g1_val(*final(a)) == mod_r(g1_val(*old(a)) + g1_val(*b) as int),
        g1_ok(*old(a)) && g1_ok(*b) ==> g1_ok(*final(a)),
{
    a.add_assign(b);
}

/// Relies on `pairing_plus::CurveProjective::into_affine` for the first
/// group: a representation change that keeps the point, hence its exponent.
#[verifier::external_body]
pub fn g1_into_affine(x: &G1) -> (r: G1Affine)
    ensures
        g1a_val(r) == g1_val(*x),
        g1_ok(*x) ==> g1a_ok(r),
{
    x.into_affine()
}

/// Relies on `pairing_plus::CurveAffine::one` for the second group: the fixed
/// generator, of exponent one by definition of the model.
#[verifier::external_body]
pub fn g2a_generator() -> (r: G2Affine)
    ensures
        g2a_val(r) == 1,
        g2a_ok(r),
{
    G2Affine::one()
}

/// Relies on `pairing_plus::CurveAffine::mul`: scalar multiplication of a
/// second-group point, multiplying the exponent by the scalar.
#[verifier::external_body]
pub fn g2a_mul(base: &G2Affine, s: &Fr) -> (r: G2)
    ensures
        g2_val(r) == mod_r(g2a_val(*base) * fr_val(*s) as int),
        g2a_ok(*base) ==> g2_ok(r),
{
    base.mul(*s)
}

/// Relies on `pairing_plus::CurveProjective::into_affine` for the second
/// group: a representation change that keeps the point, hence its exponent.
#[verifier::external_body]
pub fn g2_into_affine(x: &G2) -> (r: G2Affine)
    ensures
        g2a_val(r) == g2_val(*x),
        g2_ok(*x) ==> g2a_ok(r),
{
    x.into_affine()
}

/// Relies on `pairing_plus::Engine::pairing` for BLS12-381: the bilinear
/// pairing.  Its final exponentiation maps every result into the subgroup of
/// `r`-th roots of unity; when both arguments lie in their prime-order
/// subgroups, the result's exponent is the product of theirs.
#[verifier::external_body]
pub fn pairing(p: &G1Affine, q: &G2Affine) -> (r: Fq12)
    ensures
        gt_ok(r),
        g1a_ok(*p) && g2a_ok(*q) ==> gt_val(r) == mod_r(g1a_val(*p) * g2a_val(*q) as int),
{
    Bls12::pairing(*p, *q)
}

/// Relies on `ff_zeroize::Field::mul_assign` for the target group: the
/// prime-order subgroup is closed under multiplication, and there
/// multiplication adds the exponents.
#[verifier::external_body]
pub fn gt_mul(a: &Fq12, b: &Fq12) -> (r: Fq12)
    ensures
        gt_ok(*a) && gt_ok(*b) ==> gt_ok(r) && gt_val(r) == mod_r(gt_val(*a) + gt_val(*b) as int),
{
    let mut t = *a;
    t.mul_assign(b);
    t
}

/// Relies on `ff_zeroize::Field::pow` for the target group: a power of a
/// subgroup member stays in the subgroup, with its exponent multiplied by
/// the canonical integer of the scalar.
#[verifier::external_body]
pub fn gt_pow(a: &Fq12, s: &Fr) -> (r: Fq12)
    ensures
        gt_ok(*a) ==> gt_ok(r) && gt_val(r) == mod_r(gt_val(*a) * fr_val(*s) as int),
{
    a.pow(s.into_repr().0)
}

/// Relies on `PartialEq` of `pairing_plus::bls12_381::Fq12`: on the cyclic
/// prime-order subgroup the exponent determines the element, so two members
/// are equal exactly when their exponents are.
#[verifier::external_body]
pub fn gt_eq(a: &Fq12, b: &Fq12) -> (r: bool)
    ensures
        gt_ok(*a) && gt_ok(*b) ==> r == (gt_val(*a) == gt_val(*b)),
{
    a == b
}

} // verus!
