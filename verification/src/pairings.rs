//! The commitment scheme: shared data types and ciphersuite policy.

pub mod commit;
pub mod err;
pub mod hash_to_field_veccom;
pub mod misc;
pub mod param;
pub mod prove;

use crate::algebra::{
    g1_ok, g1a_ok, g1a_val, g2a_ok, g2a_val, gt_ok, precomp256_table_ok, precomp3_table_ok,
};
use vstd::arithmetic::div_mod::{lemma_fundamental_div_mod, lemma_mod_division_less_than_divisor};
use vstd::arithmetic::mul::{lemma_mul_inequality, lemma_mul_is_distributive_add_other_way};
use vstd::prelude::*;

use pairing_plus::bls12_381::{Fq12, G1Affine, G2Affine, G1};

verus! {

/// The prover-side parameter set: one generator per committed position plus
/// the cross-term generators that proofs need (`2 * n` in all, the exponent
/// `n + 1` being deliberately absent), and an optional flat precomputation
/// table over those generators.
#[derive(Clone, Debug)]
pub struct ProverParams {
    pub ciphersuite: u8,
    pub n: usize,
    pub generators: Vec<G1Affine>,
    pub precomp: Vec<G1Affine>,
}

/// The verifier-side parameter set: `n` generators in the pairing-partner
/// group and the target-group element against which openings are checked.
#[derive(Clone, Debug)]
pub struct VerifierParams {
    pub ciphersuite: u8,
    pub n: usize,
    pub generators: Vec<G2Affine>,
    pub gt_elt: Fq12,
}

/// A binding to an entire vector of `n` values: one group element.
#[derive(Clone, Debug)]
pub struct Commitment {
    pub ciphersuite: u8,
    pub commit: G1,
}

/// A certificate that one fixed vector position holds one specific value:
/// one group element.
#[derive(Clone, Debug)]
pub struct Proof {
    pub ciphersuite: u8,
    pub proof: G1,
}

/// The set of supported ciphersuites.
pub open spec fn is_ciphersuite_supported(csid: u8) -> bool {
    csid == 0
}

/// Whether a ciphersuite identifier is supported by this library.
pub fn check_ciphersuite(csid: u8) -> (r: bool)
    ensures
        r == is_ciphersuite_supported(csid),
{
    csid == 0
}

/// The exponents of a sequence of affine first-group elements.
pub open spec fn g1a_vals(gens: Seq<G1Affine>) -> Seq<nat> {
    gens.map_values(|x: G1Affine| g1a_val(x))
}

/// The exponents of a sequence of affine second-group elements.
pub open spec fn g2a_vals(gens: Seq<G2Affine>) -> Seq<nat> {
    gens.map_values(|x: G2Affine| g2a_val(x))
}

/// Structural well-formedness of a prover parameter set: the generator list
/// covers all `2 * n` exponents of the scheme.
pub open spec fn prover_params_wf(pp: ProverParams) -> bool {
    pp.generators@.len() == 2 * pp.n
}

/// The precomputation table, when its size announces one of the two
/// accelerated modes, is the genuine table of the generators.  Parameter
/// sets built by this library satisfy this by construction; the contracts of
/// operations that may consult the table are stated under it.
pub open spec fn prover_tables_ok(pp: ProverParams) -> bool {
    &&& pp.precomp@.len() == 3 * pp.generators@.len() ==> precomp3_table_ok(
        g1a_vals(pp.precomp@),
        g1a_vals(pp.generators@),
    )
    &&& pp.precomp@.len() == 256 * pp.generators@.len() ==> precomp256_table_ok(
        g1a_vals(pp.precomp@),
        g1a_vals(pp.generators@),
    )
}

/// Every group element of a prover parameter set lies in the prime-order
/// first group: the generators and every precomputation entry.  Parameter
/// sets built by this library satisfy this; the outside curve types alone do
/// not enforce it (their unchecked deserialization admits other points).
pub open spec fn prover_members_ok(pp: ProverParams) -> bool {
    &&& forall|j: int| 0 <= j < pp.generators@.len() ==> g1a_ok(pp.generators@[j])
    &&& forall|j: int| 0 <= j < pp.precomp@.len() ==> g1a_ok(pp.precomp@[j])
}

/// Every group element of a verifier parameter set lies in its prime-order
/// group: the generators in the second group, the verification element in
/// the target subgroup.
pub open spec fn verifier_members_ok(verifier_params: VerifierParams) -> bool {
    &&& gt_ok(verifier_params.gt_elt)
    &&& forall|j: int|
        0 <= j < verifier_params.generators@.len() ==> g2a_ok(verifier_params.generators@[j])
}

/// The group-membership facts that a verification's pairing arithmetic
/// rests on: the commitment and proof elements lie in the prime-order first
/// group, and the verifier parameter set carries members throughout.  Every
/// value this library builds satisfies this.
pub open spec fn verify_inputs_in_group(
    pf: Proof,
    verifier_params: VerifierParams,
    com: Commitment,
) -> bool {
    &&& g1_ok(com.commit)
    &&& g1_ok(pf.proof)
    &&& verifier_members_ok(verifier_params)
}

/// Whether the table length is exactly `factor` entries per base, computed
/// without overflowing the machine word.
pub fn is_exact_multiple(table_len: usize, base_len: usize, factor: usize) -> (r: bool)
    requires
        1 <= factor,
    ensures
        r == (table_len == factor * base_len),
{
    let q = usize::MAX / factor;
    proof {
        lemma_fundamental_div_mod(usize::MAX as int, factor as int);
        lemma_mod_division_less_than_divisor(usize::MAX as int, factor as int);
    }
    if base_len <= q {
        proof {
            lemma_mul_inequality(base_len as int, q as int, factor as int);
        }
        table_len == factor * base_len
    } else {
        proof {
            lemma_mul_inequality(q as int + 1, base_len as int, factor as int);
            lemma_mul_is_distributive_add_other_way(factor as int, q as int, 1);
        }
        false
    }
}

/// Taking exponents commutes with taking a contiguous part of the sequence.
pub proof fn lemma_g1a_vals_subrange(s: Seq<G1Affine>, a: int, b: int)
    requires
        0 <= a <= b <= s.len(),
    ensures
        g1a_vals(s.subrange(a, b)) == g1a_vals(s).subrange(a, b),
{
    assert(g1a_vals(s.subrange(a, b)) =~= g1a_vals(s).subrange(a, b));
}

} // verus!
