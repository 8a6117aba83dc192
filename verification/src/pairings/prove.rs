//! Constructing, updating and verifying per-position opening proofs.
//!
//! The proof for position `i` aggregates every other position `p` through
//! the cross-term generator of exponent `alpha^(n + 1 + p - i)`; position
//! `i` itself is excluded, which is exactly why the generator of exponent
//! `alpha^(n + 1)` is absent from the parameter set.  Verification checks
//! the pairing equation
//! `e(commit, g2^(alpha^(n - i))) == e(proof, g2) * gt^(alpha^(n+1) * m_i)`
//! and folds every malformed input into a plain `false`.

use crate::algebra::{
    fr_add, fr_neg, fr_val, g1_add_assign, g1_into_affine, g1_ok, g1_sum_of_products,
    g1_sum_of_products_precomp_256, g1_val, g1a_mul, g1a_mul_precomp_256, g1a_mul_precomp_3,
    g1a_ok, g2a_generator, g2a_ok, gt_eq, gt_mul, gt_pow, gt_val, pairing,
};
use crate::lemmas::lemma_mod_r_add_left;
use crate::model::{
    delta_scalar, mod_r, msm_val, value_scalar, value_scalars, verify_eq,
};
use crate::pairings::err::VeccomError;
use crate::pairings::hash_to_field_veccom::hash_to_field_veccom;
use crate::pairings::{
    check_ciphersuite, g1a_vals, g2a_vals, is_ciphersuite_supported, is_exact_multiple,
    lemma_g1a_vals_subrange, prover_members_ok, prover_params_wf, prover_tables_ok,
    verify_inputs_in_group, Commitment, Proof, ProverParams, VerifierParams,
};
use vstd::prelude::*;
use vstd::slice::slice_subrange;

use pairing_plus::bls12_381::{Fr, G1Affine};

verus! {

/// The vector position behind entry `k` of a proof's basis: every position
/// except the opened one, in order.
pub open spec fn skip_position(i: int, k: int) -> int {
    if k < i {
        k
    } else {
        k + 1
    }
}

/// The index, in the prover generator list, of the cross-term generator tied
/// to opening position `i` against vector position `p` (`p != i`, both below
/// `n`): the generator whose exponent is `alpha^(n + 1 + p - i)`.
pub open spec fn proof_gen_index(n: int, i: int, p: int) -> int {
    if p < i {
        n + p - i
    } else {
        n + p - i - 1
    }
}

/// The exponents of the cross-term generators a proof for position `i`
/// aggregates, in vector order with position `i` skipped.
pub open spec fn proof_bases(gvals: Seq<nat>, n: int, i: int) -> Seq<nat> {
    Seq::new((n - 1) as nat, |k: int| gvals[proof_gen_index(n, i, skip_position(i, k))])
}

/// The value scalars a proof for position `i` aggregates, in vector order
/// with position `i` skipped.
pub open spec fn proof_scalars(ms: Seq<nat>, i: int) -> Seq<nat> {
    Seq::new((ms.len() - 1) as nat, |k: int| ms[skip_position(i, k)])
}

impl Proof {
    /// Open one position of a committed vector.
    ///
    /// Succeeds exactly when the ciphersuite of the parameter set is
    /// supported, the vector has the configured length `n`, and the position
    /// lies below `n`; the proof then carries that ciphersuite and binds, in
    /// the exponent, the multi-scalar multiplication of the cross-term
    /// generators of the position by the scalars of all other values.
    #[verifier::loop_isolation(false)]
    pub fn new(prover_params: &ProverParams, values: &Vec<Vec<u8>>, index: usize) -> (r: Result<
        Proof,
        VeccomError,
    >)
        requires
            prover_params_wf(*prover_params),
        ensures
            !is_ciphersuite_supported(prover_params.ciphersuite) ==> r == Err::<
                Proof,
                VeccomError,
            >(VeccomError::CiphersuiteError),
            is_ciphersuite_supported(prover_params.ciphersuite) && values@.len()
                != prover_params.n ==> r == Err::<Proof, VeccomError>(VeccomError::InvalidValueError),
            is_ciphersuite_supported(prover_params.ciphersuite) && values@.len() == prover_params.n
                && index >= prover_params.n ==> r == Err::<Proof, VeccomError>(
                VeccomError::InvalidIndexError,
            ),
            r is Ok <==> (is_ciphersuite_supported(prover_params.ciphersuite) && values@.len()
                == prover_params.n && index < prover_params.n),
            r is Ok ==> {
                &&& (r->Ok_0).ciphersuite == prover_params.ciphersuite
                &&& prover_tables_ok(*prover_params) ==> g1_val((r->Ok_0).proof) == mod_r(
                    msm_val(
                        proof_bases(
                            g1a_vals(prover_params.generators@),
                            prover_params.n as int,
                            index as int,
                        ),
                        proof_scalars(value_scalars(values@), index as int),
                    ),
                )
                &&& prover_members_ok(*prover_params) ==> g1_ok((r->Ok_0).proof)
            },
    {
        if !check_ciphersuite(prover_params.ciphersuite) {
            return Err(VeccomError::CiphersuiteError);
        }
        if prover_params.n != values.len() {
            return Err(VeccomError::InvalidValueError);
        }
        if prover_params.n <= index {
            return Err(VeccomError::InvalidIndexError);
        }
        let n = prover_params.n;
        let gens_len = prover_params.generators.len();
        proof {
            assert(gens_len == 2 * n);
        }
        let ghost gvals = g1a_vals(prover_params.generators@);
        let ghost bvals = proof_bases(gvals, n as int, index as int);
        let ghost svals = proof_scalars(value_scalars(values@), index as int);

        // one cross-term generator and one scalar per position other than
        // `index`
        let mut bases: Vec<G1Affine> = Vec::new();
        let mut scalars: Vec<Fr> = Vec::new();
        let mut gen_indices: Vec<usize> = Vec::new();
        for p in 0..n
            invariant
                bases@.len() == (if p <= index { p } else { (p - 1) as usize }),
                scalars@.len() == bases@.len(),
                gen_indices@.len() == bases@.len(),
                forall|k: int|
                    0 <= k < bases@.len() ==> gen_indices@[k] == proof_gen_index(
                        n as int,
                        index as int,
                        skip_position(index as int, k),
                    ),
                forall|k: int|
                    0 <= k < bases@.len() ==> bases@[k] == prover_params.generators@[
                        gen_indices@[k] as int
                    ],
                forall|k: int| 0 <= k < scalars@.len() ==> fr_val(scalars@[k]) == svals[k],
        {
            if p != index {
                let gi = if p < index {
                    n + p - index
                } else {
                    n + p - index - 1
                };
                gen_indices.push(gi);
                bases.push(prover_params.generators[gi]);
                scalars.push(hash_to_field_veccom(values[p].as_slice()));
            }
        }
        proof {
            assert(g1a_vals(bases@) =~= bvals);
            assert(scalars@.map_values(|x: Fr| fr_val(x)) =~= svals);
        }

        let proof_elt = if is_exact_multiple(prover_params.precomp.len(), gens_len, 256) {
            // gather the table slices matching the cross-term generators
            let k_total = bases.len();
            let mut pre: Vec<G1Affine> = Vec::new();
            for k in 0..k_total
                invariant
                    pre@.len() == 256 * k,
                    forall|j: int|
                        0 <= j < k ==> pre@.subrange(256 * j, 256 * j + 256)
                            == prover_params.precomp@.subrange(
                            256 * (gen_indices@[j] as int),
                            256 * (gen_indices@[j] as int) + 256,
                        ),
                    prover_members_ok(*prover_params) ==> forall|u: int|
                        0 <= u < pre@.len() ==> g1a_ok(pre@[u]),
            {
                let e = gen_indices[k];
                let ghost pre_old = pre@;
                let sl = slice_subrange(prover_params.precomp.as_slice(), 256 * e, 256 * e + 256);
                for t in 0..256usize
                    invariant
                        sl@.len() == 256,
                        pre@.len() == pre_old.len() + t,
                        pre@ == pre_old + sl@.take(t as int),
                        prover_members_ok(*prover_params) ==> forall|u: int|
                            0 <= u < pre@.len() ==> g1a_ok(pre@[u]),
                {
                    proof {
                        if prover_members_ok(*prover_params) {
                            assert(sl@[t as int] == prover_params.precomp@[256 * e + t]);
                        }
                    }
                    proof {
                        assert(pre_old + sl@.take(t as int + 1) =~= (pre_old + sl@.take(
                            t as int,
                        )).push(sl@[t as int]));
                    }
                    pre.push(sl[t]);
                }
                proof {
                    assert(pre@ =~= pre_old + sl@);
                    assert forall|j: int| 0 <= j < k + 1 implies pre@.subrange(
                        256 * j,
                        256 * j + 256,
                    ) == prover_params.precomp@.subrange(
                        256 * (gen_indices@[j] as int),
                        256 * (gen_indices@[j] as int) + 256,
                    ) by {
                        if j < k {
                            assert(pre@.subrange(256 * j, 256 * j + 256) =~= pre_old.subrange(
                                256 * j,
                                256 * j + 256,
                            ));
                        } else {
                            assert(pre@.subrange(256 * j, 256 * j + 256) =~= sl@);
                        }
                    }
                }
            }
            proof {
                if prover_tables_ok(*prover_params) {
                    assert forall|j: int| 0 <= j < k_total implies g1a_vals(pre@).subrange(
                        256 * j,
                        256 * j + 256,
                    ) == crate::algebra::precomp256_of(g1a_vals(bases@)[j]) by {
                        let e = gen_indices@[j] as int;
                        lemma_g1a_vals_subrange(pre@, 256 * j, 256 * j + 256);
                        lemma_g1a_vals_subrange(prover_params.precomp@, 256 * e, 256 * e + 256);
                    }
                }
            }
            proof {
                if prover_members_ok(*prover_params) {
                    assert forall|j: int| 0 <= j < bases@.len() implies g1a_ok(bases@[j]) by {
                        assert(bases@[j] == prover_params.generators@[gen_indices@[j] as int]);
                    }
                }
            }
            g1_sum_of_products_precomp_256(bases.as_slice(), &scalars, pre.as_slice())
        } else {
            proof {
                if prover_members_ok(*prover_params) {
                    assert forall|j: int| 0 <= j < bases@.len() implies g1a_ok(bases@[j]) by {
                        assert(bases@[j] == prover_params.generators@[gen_indices@[j] as int]);
                    }
                }
            }
            g1_sum_of_products(bases.as_slice(), &scalars)
        };
        Ok(Proof { ciphersuite: prover_params.ciphersuite, proof: proof_elt })
    }

    /// Adjust a proof bound to `proof_index` after the vector's entry at
    /// `changed_index` moves from one value to another.
    ///
    /// A change at the bound position itself leaves the proof untouched
    /// (that value is not aggregated); any other change shifts the proof's
    /// exponent by the cross-term generator of the position pair times the
    /// difference of the value scalars.  On any failure the proof is left
    /// unchanged.
    pub fn update(
        &mut self,
        prover_params: &ProverParams,
        proof_index: usize,
        changed_index: usize,
        value_before: &Vec<u8>,
        value_after: &Vec<u8>,
    ) -> (r: Result<(), VeccomError>)
        requires
            prover_params_wf(*prover_params),
        ensures
            old(self).ciphersuite != prover_params.ciphersuite || !is_ciphersuite_supported(
                prover_params.ciphersuite,
            ) ==> r == Err::<(), VeccomError>(VeccomError::CiphersuiteError),
            old(self).ciphersuite == prover_params.ciphersuite && is_ciphersuite_supported(
                prover_params.ciphersuite,
            ) && (proof_index >= prover_params.n || changed_index >= prover_params.n) ==> r
                == Err::<(), VeccomError>(VeccomError::InvalidIndexError),
            r is Err ==> *final(self) == *old(self),
            r is Ok <==> (old(self).ciphersuite == prover_params.ciphersuite
                && is_ciphersuite_supported(prover_params.ciphersuite) && proof_index
                < prover_params.n && changed_index < prover_params.n),
            r is Ok ==> {
                &&& final(self).ciphersuite == old(self).ciphersuite
                &&& changed_index == proof_index ==> *final(self) == *old(self)
                &&& changed_index != proof_index && prover_tables_ok(*prover_params) ==> g1_val(
                    final(self).proof,
                ) == mod_r(
                    g1_val(old(self).proof) + g1a_vals(prover_params.generators@)[
                        proof_gen_index(
                            prover_params.n as int,
                            proof_index as int,
                            changed_index as int,
                        )
                    ] * delta_scalar(value_before@, value_after@) as int,
                )
                &&& prover_members_ok(*prover_params) && g1_ok(old(self).proof) ==> g1_ok(
                    final(self).proof,
                )
            },
    {
        if self.ciphersuite != prover_params.ciphersuite {
            return Err(VeccomError::CiphersuiteError);
        }
        if !check_ciphersuite(prover_params.ciphersuite) {
            return Err(VeccomError::CiphersuiteError);
        }
        if prover_params.n <= proof_index {
            return Err(VeccomError::InvalidIndexError);
        }
        if prover_params.n <= changed_index {
            return Err(VeccomError::InvalidIndexError);
        }
        if changed_index == proof_index {
            // the opened position is not aggregated in its own proof
            return Ok(());
        }

        // multiplier = hash(new_value) - hash(old_value)
        let hash_before = hash_to_field_veccom(value_before.as_slice());
        let hash_after = hash_to_field_veccom(value_after.as_slice());
        let neg_before = fr_neg(&hash_before);
        let multiplier = fr_add(&neg_before, &hash_after);
        proof {
            lemma_mod_r_add_left(
                -(value_scalar(value_before@) as int),
                value_scalar(value_after@) as int,
            );
            assert(fr_val(multiplier) == delta_scalar(value_before@, value_after@));
        }

        let n = prover_params.n;
        let gens_len = prover_params.generators.len();
        proof {
            assert(gens_len == 2 * n);
        }
        let gi = if changed_index < proof_index {
            n + changed_index - proof_index
        } else {
            n + changed_index - proof_index - 1
        };
        let base = &prover_params.generators[gi];
        let ghost gval = g1a_vals(prover_params.generators@)[gi as int];

        // new_proof = old_proof * g[pair]^multiplier
        let res = if is_exact_multiple(prover_params.precomp.len(), gens_len, 3) {
            let pre = slice_subrange(prover_params.precomp.as_slice(), 3 * gi, 3 * gi + 3);
            proof {
                if prover_members_ok(*prover_params) {
                    assert forall|j: int| 0 <= j < pre@.len() implies g1a_ok(pre@[j]) by {
                        assert(pre@[j] == prover_params.precomp@[3 * gi + j]);
                    }
                }
                lemma_g1a_vals_subrange(prover_params.precomp@, 3 * gi as int, 3 * gi as int + 3);
            }
            g1a_mul_precomp_3(base, &multiplier, pre)
        } else if is_exact_multiple(prover_params.precomp.len(), gens_len, 256) {
            let pre = slice_subrange(prover_params.precomp.as_slice(), 256 * gi, 256 * gi + 256);
            proof {
                if prover_members_ok(*prover_params) {
                    assert forall|j: int| 0 <= j < pre@.len() implies g1a_ok(pre@[j]) by {
                        assert(pre@[j] == prover_params.precomp@[256 * gi + j]);
                    }
                }
                lemma_g1a_vals_subrange(
                    prover_params.precomp@,
                    256 * gi as int,
                    256 * gi as int + 256,
                );
            }
            g1a_mul_precomp_256(base, &multiplier, pre)
        } else {
            g1a_mul(base, &multiplier)
        };
        proof {
            if prover_tables_ok(*prover_params) {
                assert(g1_val(res) == mod_r(
                    gval * delta_scalar(value_before@, value_after@) as int,
                ));
            }
        }

        let ghost proof_before = g1_val(self.proof);
        g1_add_assign(&mut self.proof, &res);
        proof {
            if prover_tables_ok(*prover_params) {
                lemma_mod_r_add_left(
                    gval * delta_scalar(value_before@, value_after@) as int,
                    proof_before as int,
                );
            }
        }
        Ok(())
    }

    /// Check a proof against a commitment, a claimed value and a position.
    ///
    /// Never fails with an error: any ciphersuite disagreement, unsupported
    /// ciphersuite or out-of-range position yields a plain `false`.  For
    /// proof, commitment and verifier set whose group elements lie in the
    /// prime-order subgroups — as everything this library builds does — the
    /// result is `true` exactly when, in addition, the pairing equation
    /// binds commitment, value, position and proof together.
    pub fn verify(
        &self,
        verifier_params: &VerifierParams,
        com: &Commitment,
        value: &Vec<u8>,
        index: usize,
    ) -> (r: bool)
        requires
            verifier_params.generators@.len() == verifier_params.n,
        ensures
            !(self.ciphersuite == verifier_params.ciphersuite && com.ciphersuite
                == verifier_params.ciphersuite && is_ciphersuite_supported(
                verifier_params.ciphersuite,
            ) && index < verifier_params.n) ==> r == false,
            verify_inputs_in_group(*self, *verifier_params, *com) ==> r == ({
                &&& self.ciphersuite == verifier_params.ciphersuite
                &&& com.ciphersuite == verifier_params.ciphersuite
                &&& is_ciphersuite_supported(verifier_params.ciphersuite)
                &&& index < verifier_params.n
                &&& verify_eq(
                    g1_val(com.commit),
                    g2a_vals(verifier_params.generators@)[verifier_params.n - 1 - index],
                    g1_val(self.proof),
                    gt_val(verifier_params.gt_elt),
                    value_scalar(value@),
                )
            }),
    {
        if self.ciphersuite != verifier_params.ciphersuite {
            return false;
        }
        if com.ciphersuite != verifier_params.ciphersuite {
            return false;
        }
        if !check_ciphersuite(verifier_params.ciphersuite) {
            return false;
        }
        if verifier_params.n <= index {
            return false;
        }

        let hash = hash_to_field_veccom(value.as_slice());
        let com_affine = g1_into_affine(&com.commit);
        let proof_affine = g1_into_affine(&self.proof);
        let h = &verifier_params.generators[verifier_params.n - 1 - index];

        // e(commit, g2^(alpha^(n - index)))
        let lhs = pairing(&com_affine, h);
        // e(proof, g2) * gt^m
        let g2gen = g2a_generator();
        let rhs_proof = pairing(&proof_affine, &g2gen);
        let rhs_value = gt_pow(&verifier_params.gt_elt, &hash);
        let rhs = gt_mul(&rhs_proof, &rhs_value);
        let res = gt_eq(&lhs, &rhs);
        proof {
            if verify_inputs_in_group(*self, *verifier_params, *com) {
                assert(g2a_ok(
                    verifier_params.generators@[verifier_params.n - 1 - index],
                ));
                let c = g1_val(com.commit) as int;
                let hv = g2a_vals(verifier_params.generators@)[verifier_params.n - 1 - index] as int;
                let p = g1_val(self.proof) as int;
                let tm = gt_val(verifier_params.gt_elt) * value_scalar(value@) as int;
                lemma_mod_r_add_left(p, mod_r(tm) as int);
                lemma_mod_r_add_left(tm, p);
            }
        }
        res
    }
}

} // verus!
