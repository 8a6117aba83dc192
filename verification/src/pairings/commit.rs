//! Constructing and updating commitments.
//!
//! A commitment to a vector is the multi-scalar multiplication of the first
//! `n` prover generators by the scalars derived from the values.  Updates add
//! the matching generator raised to the difference of the new and old scalar;
//! batch updates aggregate all those corrections into one multi-scalar
//! multiplication.  Which precomputation strategy carries the group
//! arithmetic is decided purely by the size of the parameter set's table and
//! never changes the resulting exponent.

use crate::algebra::{
    fr_add, fr_neg, fr_val, g1_add_assign, g1_ok, g1_sum_of_products,
    g1_sum_of_products_precomp_256, g1_val, g1a_mul, g1a_mul_precomp_256, g1a_mul_precomp_3,
    g1a_ok,
};
use crate::lemmas::lemma_mod_r_add_left;
use crate::model::{
    all_below, all_distinct, delta_scalar, delta_scalars, mod_r, msm_val, selected_vals,
    value_scalar, value_scalars,
};
use crate::pairings::err::VeccomError;
use crate::pairings::hash_to_field_veccom::hash_to_field_veccom;
use crate::pairings::misc::has_unique_elements;
use crate::pairings::{
    check_ciphersuite, g1a_vals, is_ciphersuite_supported, is_exact_multiple,
    lemma_g1a_vals_subrange, prover_members_ok, prover_params_wf, prover_tables_ok, Commitment,
    ProverParams,
};
use vstd::prelude::*;
use vstd::slice::slice_subrange;

use pairing_plus::bls12_381::{Fr, G1Affine};

verus! {

impl Commitment {
    /// Commit to a whole vector of values.
    ///
    /// Succeeds exactly when the ciphersuite of the parameter set is
    /// supported and the vector has the configured length `n`; the resulting
    /// commitment then carries that ciphersuite and binds, in the exponent,
    /// the multi-scalar multiplication of the first `n` generators by the
    /// scalars of the values.
    #[verifier::loop_isolation(false)]
    pub fn new(prover_params: &ProverParams, values: &Vec<Vec<u8>>) -> (r: Result<
        Commitment,
        VeccomError,
    >)
        requires
            prover_params_wf(*prover_params),
        ensures
            !is_ciphersuite_supported(prover_params.ciphersuite) ==> r == Err::<
                Commitment,
                VeccomError,
            >(VeccomError::CiphersuiteError),
            is_ciphersuite_supported(prover_params.ciphersuite) && values@.len()
                != prover_params.n ==> r == Err::<Commitment, VeccomError>(
                VeccomError::InvalidValueError,
            ),
            is_ciphersuite_supported(prover_params.ciphersuite) && values@.len()
                == prover_params.n ==> {
                &&& r is Ok
                &&& (r->Ok_0).ciphersuite == prover_params.ciphersuite
                &&& prover_tables_ok(*prover_params) ==> g1_val((r->Ok_0).commit) == mod_r(
                    msm_val(
                        g1a_vals(prover_params.generators@).take(prover_params.n as int),
                        value_scalars(values@),
                    ),
                )
                &&& prover_members_ok(*prover_params) ==> g1_ok((r->Ok_0).commit)
            },
    {
        if !check_ciphersuite(prover_params.ciphersuite) {
            return Err(VeccomError::CiphersuiteError);
        }
        if prover_params.n != values.len() {
            return Err(VeccomError::InvalidValueError);
        }
        let n = prover_params.n;

        // hash the values into scalars
        let mut scalars: Vec<Fr> = Vec::new();
        for i in 0..n
            invariant
                values@.len() == n,
                scalars@.len() == i,
                forall|j: int| 0 <= j < i ==> fr_val(scalars@[j]) == value_scalar(values@[j]@),
        {
            scalars.push(hash_to_field_veccom(values[i].as_slice()));
        }
        proof {
            assert(scalars@.map_values(|x: Fr| fr_val(x)) =~= value_scalars(values@));
        }

        // commit = \prod pp[i]^scalar[i]
        let bases = slice_subrange(prover_params.generators.as_slice(), 0, n);
        proof {
            lemma_g1a_vals_subrange(prover_params.generators@, 0, n as int);
            assert(g1a_vals(prover_params.generators@).take(n as int) =~= g1a_vals(
                prover_params.generators@,
            ).subrange(0, n as int));
        }
        let commit = if is_exact_multiple(prover_params.precomp.len(), n, 512) {
            let pre = slice_subrange(prover_params.precomp.as_slice(), 0, 256 * n);
            proof {
                if prover_members_ok(*prover_params) {
                    assert forall|j: int| 0 <= j < bases@.len() implies g1a_ok(bases@[j]) by {
                        assert(bases@[j] == prover_params.generators@[j]);
                    }
                    assert forall|j: int| 0 <= j < pre@.len() implies g1a_ok(pre@[j]) by {
                        assert(pre@[j] == prover_params.precomp@[j]);
                    }
                }
                lemma_g1a_vals_subrange(prover_params.precomp@, 0, 256 * n as int);
                if prover_tables_ok(*prover_params) {
                    assert forall|j: int| 0 <= j < n implies g1a_vals(pre@).subrange(
                        256 * j,
                        256 * j + 256,
                    ) == crate::algebra::precomp256_of(g1a_vals(bases@)[j]) by {
                        assert(g1a_vals(pre@).subrange(256 * j, 256 * j + 256) =~= g1a_vals(
                            prover_params.precomp@,
                        ).subrange(256 * j, 256 * j + 256));
                    }
                }
            }
            g1_sum_of_products_precomp_256(bases, &scalars, pre)
        } else {
            proof {
                if prover_members_ok(*prover_params) {
                    assert forall|j: int| 0 <= j < bases@.len() implies g1a_ok(bases@[j]) by {
                        assert(bases@[j] == prover_params.generators@[j]);
                    }
                }
            }
            g1_sum_of_products(bases, &scalars)
        };
        Ok(Commitment { ciphersuite: prover_params.ciphersuite, commit })
    }

    /// Replace the value at one position, shifting the commitment in place.
    ///
    /// The caller supplies the true previous value and the new one; the
    /// commitment's exponent moves by `generators[changed_index]` times the
    /// difference of the two value scalars (the order of the two values
    /// matters).  On any failure the commitment is left unchanged.
    pub fn update(
        &mut self,
        prover_params: &ProverParams,
        changed_index: usize,
        value_before: &Vec<u8>,
        value_after: &Vec<u8>,
    ) -> (r: Result<(), VeccomError>)
        requires
            prover_params_wf(*prover_params),
        ensures
            old(self).ciphersuite != prover_params.ciphersuite || !is_ciphersuite_supported(
                prover_params.ciphersuite,
            ) ==> r == Err::<(), VeccomError>(VeccomError::CiphersuiteError),
            old(self).ciphersuite == prover_params.ciphersuite && is_ciphersuite_supported(
                prover_params.ciphersuite,
            ) && changed_index >= prover_params.n ==> r == Err::<(), VeccomError>(
                VeccomError::InvalidIndexError,
            ),
            r is Err ==> *final(self) == *old(self),
            r is Ok <==> (old(self).ciphersuite == prover_params.ciphersuite
                && is_ciphersuite_supported(prover_params.ciphersuite) && changed_index
                < prover_params.n),
            r is Ok ==> {
                &&& final(self).ciphersuite == old(self).ciphersuite
                &&& prover_tables_ok(*prover_params) ==> g1_val(final(self).commit) == mod_r(
                    g1_val(old(self).commit) + g1a_vals(prover_params.generators@)[changed_index as int]
                        * delta_scalar(value_before@, value_after@) as int,
                )
                &&& prover_members_ok(*prover_params) && g1_ok(old(self).commit) ==> g1_ok(
                    final(self).commit,
                )
            },
    {
        if self.ciphersuite != prover_params.ciphersuite {
            return Err(VeccomError::CiphersuiteError);
        }
        if !check_ciphersuite(prover_params.ciphersuite) {
            return Err(VeccomError::CiphersuiteError);
        }
        if prover_params.n <= changed_index {
            return Err(VeccomError::InvalidIndexError);
        }

        // multiplier = hash(new_value) - hash(old_value)
        let hash_before = hash_to_field_veccom(value_before.as_slice());
        let hash_after = hash_to_field_veccom(value_after.as_slice());
        let neg_before = fr_neg(&hash_before);
        let multiplier = fr_add(&neg_before, &hash_after);
        proof {
            lemma_mod_r_add_left(
                -(value_scalar(value_before@) as int),
                value_scalar(value_after@) as int,
            );
            assert(fr_val(multiplier) == delta_scalar(value_before@, value_after@));
        }

        let gens_len = prover_params.generators.len();
        let base = &prover_params.generators[changed_index];
        let ghost gval = g1a_vals(prover_params.generators@)[changed_index as int];

        // new_commit = old_commit * g[index]^multiplier
        let res = if is_exact_multiple(prover_params.precomp.len(), gens_len, 3) {
            let pre = slice_subrange(
                prover_params.precomp.as_slice(),
                3 * changed_index,
                3 * changed_index + 3,
            );
            proof {
                lemma_g1a_vals_subrange(
                    prover_params.precomp@,
                    3 * changed_index as int,
                    3 * changed_index as int + 3,
                );
            }
            g1a_mul_precomp_3(base, &multiplier, pre)
        } else if is_exact_multiple(prover_params.precomp.len(), gens_len, 256) {
            let pre = slice_subrange(
                prover_params.precomp.as_slice(),
                256 * changed_index,
                256 * changed_index + 256,
            );
            proof {
                lemma_g1a_vals_subrange(
                    prover_params.precomp@,
                    256 * changed_index as int,
                    256 * changed_index as int + 256,
                );
            }
            g1a_mul_precomp_256(base, &multiplier, pre)
        } else {
            g1a_mul(base, &multiplier)
        };
        proof {
            if prover_tables_ok(*prover_params) {
                assert(g1_val(res) == mod_r(gval * delta_scalar(value_before@, value_after@) as int));
            }
        }

        let ghost commit_before = g1_val(self.commit);
        g1_add_assign(&mut self.commit, &res);
        proof {
            if prover_tables_ok(*prover_params) {
                lemma_mod_r_add_left(
                    gval * delta_scalar(value_before@, value_after@) as int,
                    commit_before as int,
                );
            }
        }
        Ok(())
    }

    /// Replace the values at several pairwise-distinct positions at once,
    /// shifting the commitment in place by one aggregated multi-scalar
    /// multiplication over the selected generators.
    ///
    /// On any failure the commitment is left unchanged.
    #[verifier::loop_isolation(false)]
    pub fn batch_update(
        &mut self,
        prover_params: &ProverParams,
        changed_index: &Vec<usize>,
        value_before: &Vec<Vec<u8>>,
        value_after: &Vec<Vec<u8>>,
    ) -> (r: Result<(), VeccomError>)
        requires
            prover_params_wf(*prover_params),
        ensures
            old(self).ciphersuite != prover_params.ciphersuite || !is_ciphersuite_supported(
                prover_params.ciphersuite,
            ) ==> r == Err::<(), VeccomError>(VeccomError::CiphersuiteError),
            old(self).ciphersuite == prover_params.ciphersuite && is_ciphersuite_supported(
                prover_params.ciphersuite,
            ) && !all_below(changed_index@, prover_params.n) ==> r == Err::<(), VeccomError>(
                VeccomError::InvalidIndexError,
            ),
            old(self).ciphersuite == prover_params.ciphersuite && is_ciphersuite_supported(
                prover_params.ciphersuite,
            ) && all_below(changed_index@, prover_params.n) && (changed_index@.len()
                != value_before@.len() || changed_index@.len() != value_after@.len()) ==> r
                == Err::<(), VeccomError>(VeccomError::IndexValueMismatchError),
            old(self).ciphersuite == prover_params.ciphersuite && is_ciphersuite_supported(
                prover_params.ciphersuite,
            ) && all_below(changed_index@, prover_params.n) && changed_index@.len()
                == value_before@.len() && changed_index@.len() == value_after@.len()
                && !all_distinct(changed_index@) ==> r == Err::<(), VeccomError>(
                VeccomError::DuplicatedIndexError,
            ),
            r is Err ==> *final(self) == *old(self),
            r is Ok <==> (old(self).ciphersuite == prover_params.ciphersuite
                && is_ciphersuite_supported(prover_params.ciphersuite) && all_below(
                changed_index@,
                prover_params.n,
            ) && changed_index@.len() == value_before@.len() && changed_index@.len()
                == value_after@.len() && all_distinct(changed_index@)),
            r is Ok ==> {
                &&& final(self).ciphersuite == old(self).ciphersuite
                &&& prover_tables_ok(*prover_params) ==> g1_val(final(self).commit) == mod_r(
                    g1_val(old(self).commit) + msm_val(
                        selected_vals(g1a_vals(prover_params.generators@), changed_index@),
                        delta_scalars(value_before@, value_after@),
                    ),
                )
                &&& prover_members_ok(*prover_params) && g1_ok(old(self).commit) ==> g1_ok(
                    final(self).commit,
                )
            },
    {
        if self.ciphersuite != prover_params.ciphersuite {
            return Err(VeccomError::CiphersuiteError);
        }
        if !check_ciphersuite(prover_params.ciphersuite) {
            return Err(VeccomError::CiphersuiteError);
        }
        // check the indices are all within range
        let k = changed_index.len();
        for i in 0..k
            invariant
                k == changed_index@.len(),
                forall|j: int| 0 <= j < i ==> changed_index@[j] < prover_params.n,
        {
            if prover_params.n <= changed_index[i] {
                proof {
                    assert(!all_below(changed_index@, prover_params.n)) by {
                        assert(changed_index@[i as int] >= prover_params.n);
                    }
                }
                return Err(VeccomError::InvalidIndexError);
            }
        }
        if changed_index.len() != value_before.len() || changed_index.len() != value_after.len() {
            return Err(VeccomError::IndexValueMismatchError);
        }
        if !has_unique_elements(changed_index.as_slice()) {
            return Err(VeccomError::DuplicatedIndexError);
        }

        // one multiplier per changed position
        let mut multipliers: Vec<Fr> = Vec::new();
        for i in 0..k
            invariant
                k == changed_index@.len(),
                k == value_before@.len(),
                k == value_after@.len(),
                multipliers@.len() == i,
                forall|j: int|
                    0 <= j < i ==> fr_val(multipliers@[j]) == delta_scalar(
                        value_before@[j]@,
                        value_after@[j]@,
                    ),
        {
            let hash_before = hash_to_field_veccom(value_before[i].as_slice());
            let hash_after = hash_to_field_veccom(value_after[i].as_slice());
            let neg_before = fr_neg(&hash_before);
            let multiplier = fr_add(&neg_before, &hash_after);
            proof {
                lemma_mod_r_add_left(
                    -(value_scalar(value_before@[i as int]@) as int),
                    value_scalar(value_after@[i as int]@) as int,
                );
            }
            multipliers.push(multiplier);
        }
        proof {
            assert(multipliers@.map_values(|x: Fr| fr_val(x)) =~= delta_scalars(
                value_before@,
                value_after@,
            ));
        }

        // form the basis of selected generators
        let mut basis: Vec<G1Affine> = Vec::new();
        for i in 0..k
            invariant
                k == changed_index@.len(),
                prover_params_wf(*prover_params),
                all_below(changed_index@, prover_params.n),
                basis@.len() == i,
                forall|j: int|
                    0 <= j < i ==> basis@[j] == prover_params.generators@[changed_index@[j] as int],
        {
            basis.push(prover_params.generators[changed_index[i]]);
        }
        proof {
            assert(g1a_vals(basis@) =~= selected_vals(
                g1a_vals(prover_params.generators@),
                changed_index@,
            ));
        }

        let gens_len = prover_params.generators.len();
        // compute delta = \prod g[index]^multiplier
        let delta = if is_exact_multiple(prover_params.precomp.len(), gens_len, 256) {
            // gather the table slices matching the selected bases
            let mut pre: Vec<G1Affine> = Vec::new();
            for i in 0..k
                invariant
                    k == changed_index@.len(),
                    prover_params_wf(*prover_params),
                    all_below(changed_index@, prover_params.n),
                    prover_params.precomp@.len() == 256 * prover_params.generators@.len(),
                    pre@.len() == 256 * i,
                    forall|j: int|
                        0 <= j < i ==> pre@.subrange(256 * j, 256 * j + 256)
                            == prover_params.precomp@.subrange(
                            256 * (changed_index@[j] as int),
                            256 * (changed_index@[j] as int) + 256,
                        ),
                    prover_members_ok(*prover_params) ==> forall|u: int|
                        0 <= u < pre@.len() ==> g1a_ok(pre@[u]),
            {
                let e = changed_index[i];
                let ghost pre_old = pre@;
                let sl = slice_subrange(prover_params.precomp.as_slice(), 256 * e, 256 * e + 256);
                for t in 0..256usize
                    invariant
                        sl@.len() == 256,
                        pre@.len() == pre_old.len() + t,
                        pre@ == pre_old + sl@.take(t as int),
                        prover_members_ok(*prover_params) ==> forall|u: int|
                            0 <= u < pre@.len() ==> g1a_ok(pre@[u]),
                {
                    proof {
                        if prover_members_ok(*prover_params) {
                            assert(sl@[t as int] == prover_params.precomp@[256 * e + t]);
                        }
                    }
                    proof {
                        assert(pre_old + sl@.take(t as int + 1) =~= (pre_old + sl@.take(
                            t as int,
                        )).push(sl@[t as int]));
                    }
                    pre.push(sl[t]);
                }
                proof {
                    assert(pre@ =~= pre_old + sl@);
                    assert forall|j: int| 0 <= j < i + 1 implies pre@.subrange(
                        256 * j,
                        256 * j + 256,
                    ) == prover_params.precomp@.subrange(
                        256 * (changed_index@[j] as int),
                        256 * (changed_index@[j] as int) + 256,
                    ) by {
                        if j < i {
                            assert(pre@.subrange(256 * j, 256 * j + 256) =~= pre_old.subrange(
                                256 * j,
                                256 * j + 256,
                            ));
                        } else {
                            assert(pre@.subrange(256 * j, 256 * j + 256) =~= sl@);
                        }
                    }
                }
            }
            proof {
                if prover_tables_ok(*prover_params) {
                    assert forall|j: int| 0 <= j < k implies g1a_vals(pre@).subrange(
                        256 * j,
                        256 * j + 256,
                    ) == crate::algebra::precomp256_of(g1a_vals(basis@)[j]) by {
                        let e = changed_index@[j] as int;
                        lemma_g1a_vals_subrange(pre@, 256 * j, 256 * j + 256);
                        lemma_g1a_vals_subrange(prover_params.precomp@, 256 * e, 256 * e + 256);
                    }
                }
            }
            proof {
                if prover_members_ok(*prover_params) {
                    assert forall|j: int| 0 <= j < basis@.len() implies g1a_ok(basis@[j]) by {
                        assert(basis@[j] == prover_params.generators@[changed_index@[j] as int]);
                    }
                }
            }
            g1_sum_of_products_precomp_256(basis.as_slice(), &multipliers, pre.as_slice())
        } else {
            proof {
                if prover_members_ok(*prover_params) {
                    assert forall|j: int| 0 <= j < basis@.len() implies g1a_ok(basis@[j]) by {
                        assert(basis@[j] == prover_params.generators@[changed_index@[j] as int]);
                    }
                }
            }
            g1_sum_of_products(basis.as_slice(), &multipliers)
        };

        // new_commit = old_commit * \prod g[index]^multiplier
        let ghost commit_before = g1_val(self.commit);
        let ghost delta_exp = msm_val(
            selected_vals(g1a_vals(prover_params.generators@), changed_index@),
            delta_scalars(value_before@, value_after@),
        );
        g1_add_assign(&mut self.commit, &delta);
        proof {
            if prover_tables_ok(*prover_params) {
                lemma_mod_r_add_left(delta_exp, commit_before as int);
            }
        }
        Ok(())
    }
}

} // verus!
