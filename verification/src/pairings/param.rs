//! Parameter-set generation and precomputation tables.
//!
//! A seed is hashed to a secret scalar `alpha`; the prover generators are the
//! fixed first-group generator raised to `alpha^1 .. alpha^n` and
//! `alpha^(n+2) .. alpha^(2n+1)` (the power `n + 1` is deliberately absent: its
//! presence would let anyone forge openings), the verifier generators are the
//! second-group generator raised to `alpha^1 .. alpha^n`, and the
//! target-group element is the pairing of the two fixed generators raised to
//! `alpha^(n+1)`.

use crate::algebra::{
    fr_mul, fr_val, g1_into_affine, g1a_generator, g1a_mul, g1a_ok, g1a_precomp_256,
    g1a_precomp_3, g1a_val, g2_into_affine, g2a_generator, g2a_mul, g2a_ok, g2a_val, gt_pow,
    gt_val, pairing,
};
use crate::lemmas::{
    lemma_mod_r_bound, lemma_mod_r_small, lemma_mod_r_twice, lemma_pow_mod_r_one,
    lemma_pow_mod_r_step,
};
use crate::model::{pow_mod_r, value_scalar};
use crate::pairings::err::VeccomError;
use crate::pairings::hash_to_field_veccom::hash_to_field_veccom;
use crate::pairings::{
    check_ciphersuite, g1a_vals, g2a_vals, is_ciphersuite_supported, prover_members_ok,
    prover_params_wf, prover_tables_ok, verifier_members_ok, ProverParams, VerifierParams,
};
use vstd::prelude::*;

use pairing_plus::bls12_381::{G1Affine, G2Affine};

verus! {

/// The exponent of `alpha` behind prover generator `j`: `j + 1` for the
/// committing half of the list, `j + 2` for the cross-term half (skipping
/// `n + 1`).
pub open spec fn prover_gen_exp(n: nat, j: nat) -> nat {
    if j < n {
        j + 1
    } else {
        j + 2
    }
}

/// The exponents of a prover generator list honestly derived from `alpha`:
/// entry `j` carries `alpha^prover_gen_exp(n, j)` reduced.
pub open spec fn generator_exps(alpha: nat, n: int) -> Seq<nat> {
    Seq::new((2 * n) as nat, |j: int| pow_mod_r(alpha, prover_gen_exp(n as nat, j as nat)))
}

/// All generator exponents of a parameter-set pair derive from the seed
/// scalar `alpha = value_scalar(seed)`.
pub open spec fn params_from_alpha(
    pp: ProverParams,
    vp: VerifierParams,
    alpha: nat,
    n: nat,
) -> bool {
    &&& pp.generators@.len() == 2 * n
    &&& vp.generators@.len() == n
    &&& forall|j: int|
        0 <= j < 2 * n ==> g1a_vals(pp.generators@)[j] == pow_mod_r(alpha, prover_gen_exp(n, j as nat))
    &&& forall|j: int| 0 <= j < n ==> g2a_vals(vp.generators@)[j] == pow_mod_r(alpha, (j + 1) as nat)
    &&& gt_val(vp.gt_elt) == pow_mod_r(alpha, n + 1)
}

/// Generate a prover/verifier parameter-set pair from a seed.
///
/// Succeeds exactly when the ciphersuite is supported and the seed is at
/// least 32 bytes long; both sets then carry the ciphersuite and capacity,
/// the prover set has no precomputation table yet, and every generator's
/// exponent is the matching power of the seed scalar.
#[verifier::loop_isolation(false)]
pub fn paramgen_from_seed(seed: &[u8], csid: u8, n: usize) -> (r: Result<
    (ProverParams, VerifierParams),
    VeccomError,
>)
    requires
        n <= usize::MAX / 2,
    ensures
        !is_ciphersuite_supported(csid) ==> r == Err::<(ProverParams, VerifierParams), VeccomError>(
            VeccomError::CiphersuiteError,
        ),
        is_ciphersuite_supported(csid) && seed@.len() < 32 ==> r == Err::<
            (ProverParams, VerifierParams),
            VeccomError,
        >(VeccomError::InvalidSeedError),
        r is Ok <==> (is_ciphersuite_supported(csid) && seed@.len() >= 32),
        r is Ok ==> {
            &&& (r->Ok_0).0.ciphersuite == csid
            &&& (r->Ok_0).1.ciphersuite == csid
            &&& (r->Ok_0).0.n == n
            &&& (r->Ok_0).1.n == n
            &&& prover_params_wf((r->Ok_0).0)
            &&& (r->Ok_0).0.precomp@.len() == 0
            &&& prover_tables_ok((r->Ok_0).0)
            &&& prover_members_ok((r->Ok_0).0)
            &&& verifier_members_ok((r->Ok_0).1)
            &&& params_from_alpha((r->Ok_0).0, (r->Ok_0).1, value_scalar(seed@), n as nat)
        },
{
    if !check_ciphersuite(csid) {
        return Err(VeccomError::CiphersuiteError);
    }
    if seed.len() < 32 {
        return Err(VeccomError::InvalidSeedError);
    }
    let alpha = hash_to_field_veccom(seed);
    let ghost alpha_v = value_scalar(seed@);
    proof {
        lemma_mod_r_bound(value_scalar(seed@) as int);
        lemma_pow_mod_r_one(alpha_v);
    }

    // the committing and cross-term generators, exponents alpha^1..alpha^n
    // and alpha^(n+2)..alpha^(2n)
    let g1gen = g1a_generator();
    let mut g1_gens: Vec<G1Affine> = Vec::new();
    let mut power = alpha;
    let two_n = 2 * n;
    for j in 0..two_n
        invariant
            g1_gens@.len() == j,
            j < two_n ==> fr_val(power) == pow_mod_r(alpha_v, prover_gen_exp(n as nat, j as nat)),
            forall|t: int|
                0 <= t < j ==> g1a_vals(g1_gens@)[t] == pow_mod_r(
                    alpha_v,
                    prover_gen_exp(n as nat, t as nat),
                ),
            forall|t: int| 0 <= t < j ==> g1a_ok(g1_gens@[t]),
    {
        let ghost e = prover_gen_exp(n as nat, j as nat);
        let gen_j = g1_into_affine(&g1a_mul(&g1gen, &power));
        proof {
            lemma_mod_r_twice(vstd::arithmetic::power::pow(alpha_v as int, e));
            assert(g1a_val(gen_j) == pow_mod_r(alpha_v, e));
        }
        let ghost gens_old = g1_gens@;
        g1_gens.push(gen_j);
        proof {
            assert forall|t: int| 0 <= t < j + 1 implies g1a_vals(g1_gens@)[t] == pow_mod_r(
                alpha_v,
                prover_gen_exp(n as nat, t as nat),
            ) by {
                assert(g1a_vals(g1_gens@)[t] == g1a_val(g1_gens@[t]));
                if t < j {
                    assert(g1_gens@[t] == gens_old[t]);
                    assert(g1a_vals(gens_old)[t] == g1a_val(gens_old[t]));
                } else {
                    assert(g1_gens@[t] == gen_j);
                }
            }
        }
        power = fr_mul(&power, &alpha);
        proof {
            lemma_pow_mod_r_step(alpha_v, e);
        }
        if j + 1 == n {
            power = fr_mul(&power, &alpha);
            proof {
                lemma_pow_mod_r_step(alpha_v, e + 1);
            }
        }
    }

    // the verifier generators, exponents alpha^1..alpha^n
    let g2gen = g2a_generator();
    let mut g2_gens: Vec<G2Affine> = Vec::new();
    let mut power2 = alpha;
    for j in 0..n
        invariant
            g2_gens@.len() == j,
            fr_val(power2) == pow_mod_r(alpha_v, (j + 1) as nat),
            forall|t: int| 0 <= t < j ==> g2a_vals(g2_gens@)[t] == pow_mod_r(alpha_v, (t + 1) as nat),
            forall|t: int| 0 <= t < j ==> g2a_ok(g2_gens@[t]),
    {
        let gen_j = g2_into_affine(&g2a_mul(&g2gen, &power2));
        proof {
            lemma_mod_r_twice(vstd::arithmetic::power::pow(alpha_v as int, (j + 1) as nat));
            assert(g2a_val(gen_j) == pow_mod_r(alpha_v, (j + 1) as nat));
        }
        let ghost gens_old2 = g2_gens@;
        g2_gens.push(gen_j);
        proof {
            assert forall|t: int| 0 <= t < j + 1 implies g2a_vals(g2_gens@)[t] == pow_mod_r(
                alpha_v,
                (t + 1) as nat,
            ) by {
                assert(g2a_vals(g2_gens@)[t] == g2a_val(g2_gens@[t]));
                if t < j {
                    assert(g2_gens@[t] == gens_old2[t]);
                    assert(g2a_vals(gens_old2)[t] == g2a_val(gens_old2[t]));
                } else {
                    assert(g2_gens@[t] == gen_j);
                }
            }
        }
        power2 = fr_mul(&power2, &alpha);
        proof {
            lemma_pow_mod_r_step(alpha_v, (j + 1) as nat);
        }
    }

    // the verification element, exponent alpha^(n+1)
    let mut power_gt = alpha;
    for j in 0..n
        invariant
            fr_val(power_gt) == pow_mod_r(alpha_v, (j + 1) as nat),
    {
        power_gt = fr_mul(&power_gt, &alpha);
        proof {
            lemma_pow_mod_r_step(alpha_v, (j + 1) as nat);
        }
    }
    let base_gt = pairing(&g1gen, &g2gen);
    proof {
        lemma_mod_r_small(1);
    }
    let gt_elt = gt_pow(&base_gt, &power_gt);
    proof {
        lemma_mod_r_twice(vstd::arithmetic::power::pow(alpha_v as int, (n + 1) as nat));
    }

    Ok(
        (
            ProverParams { ciphersuite: csid, n, generators: g1_gens, precomp: Vec::new() },
            VerifierParams { ciphersuite: csid, n, generators: g2_gens, gt_elt },
        ),
    )
}

impl ProverParams {
    /// Install the three-entries-per-generator precomputation table that
    /// accelerates single-position updates.
    #[verifier::loop_isolation(false)]
    pub fn precomp_3(&mut self)
        requires
            old(self).generators@.len() * 3 <= usize::MAX,
        ensures
            final(self).ciphersuite == old(self).ciphersuite,
            final(self).n == old(self).n,
            final(self).generators@ == old(self).generators@,
            final(self).precomp@.len() == 3 * final(self).generators@.len(),
            prover_tables_ok(*final(self)),
            prover_members_ok(*old(self)) ==> prover_members_ok(*final(self)),
    {
        let m = self.generators.len();
        let mut pre: Vec<G1Affine> = Vec::new();
        for i in 0..m
            invariant
                pre@.len() == 3 * i,
                forall|j: int|
                    0 <= j < i ==> g1a_vals(pre@).subrange(3 * j, 3 * j + 3)
                        == crate::algebra::precomp3_of(g1a_vals(self.generators@)[j]),
                prover_members_ok(*old(self)) ==> forall|t: int|
                    0 <= t < pre@.len() ==> g1a_ok(pre@[t]),
        {
            let ghost pre_old = pre@;
            let tab = g1a_precomp_3(&self.generators[i]);
            pre.push(tab[0]);
            pre.push(tab[1]);
            pre.push(tab[2]);
            proof {
                assert(pre@ =~= pre_old + tab@);
                assert forall|j: int| 0 <= j < i + 1 implies g1a_vals(pre@).subrange(
                    3 * j,
                    3 * j + 3,
                ) == crate::algebra::precomp3_of(g1a_vals(self.generators@)[j]) by {
                    if j < i {
                        assert(g1a_vals(pre@).subrange(3 * j, 3 * j + 3) =~= g1a_vals(
                            pre_old,
                        ).subrange(3 * j, 3 * j + 3));
                    } else {
                        assert(g1a_vals(pre@).subrange(3 * j, 3 * j + 3) =~= g1a_vals(tab@));
                    }
                }
            }
        }
        proof {
            if m > 0 {
                assert(3 * m != 256 * m);
            }
        }
        self.precomp = pre;
    }

    /// Install the 256-entries-per-generator precomputation table that
    /// accelerates both single and aggregated multiplications.
    #[verifier::loop_isolation(false)]
    pub fn precomp_256(&mut self)
        requires
            old(self).generators@.len() * 256 <= usize::MAX,
        ensures
            final(self).ciphersuite == old(self).ciphersuite,
            final(self).n == old(self).n,
            final(self).generators@ == old(self).generators@,
            final(self).precomp@.len() == 256 * final(self).generators@.len(),
            prover_tables_ok(*final(self)),
            prover_members_ok(*old(self)) ==> prover_members_ok(*final(self)),
    {
        let m = self.generators.len();
        let mut pre: Vec<G1Affine> = Vec::new();
        for i in 0..m
            invariant
                pre@.len() == 256 * i,
                forall|j: int|
                    0 <= j < i ==> g1a_vals(pre@).subrange(256 * j, 256 * j + 256)
                        == crate::algebra::precomp256_of(g1a_vals(self.generators@)[j]),
                prover_members_ok(*old(self)) ==> forall|t: int|
                    0 <= t < pre@.len() ==> g1a_ok(pre@[t]),
        {
            let ghost pre_old = pre@;
            let tab = g1a_precomp_256(&self.generators[i]);
            for t in 0..256usize
                invariant
                    tab@.len() == 256,
                    pre@.len() == pre_old.len() + t,
                    pre@ == pre_old + tab@.take(t as int),
            {
                proof {
                    assert(pre_old + tab@.take(t as int + 1) =~= (pre_old + tab@.take(
                        t as int,
                    )).push(tab@[t as int]));
                }
                pre.push(tab[t]);
            }
            proof {
                assert(pre@ =~= pre_old + tab@);
                assert forall|j: int| 0 <= j < i + 1 implies g1a_vals(pre@).subrange(
                    256 * j,
                    256 * j + 256,
                ) == crate::algebra::precomp256_of(g1a_vals(self.generators@)[j]) by {
                    if j < i {
                        assert(g1a_vals(pre@).subrange(256 * j, 256 * j + 256) =~= g1a_vals(
                            pre_old,
                        ).subrange(256 * j, 256 * j + 256));
                    } else {
                        assert(g1a_vals(pre@).subrange(256 * j, 256 * j + 256) =~= g1a_vals(tab@));
                    }
                }
            }
        }
        proof {
            if m > 0 {
                assert(3 * m != 256 * m);
            }
        }
        self.precomp = pre;
    }
}

} // verus!
