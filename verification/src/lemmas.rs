//! Proved laws of the scheme, and the modular-arithmetic helpers they rest
//! on.  All statements are over the exponent model of [`crate::model`].

use crate::model::{
    batch_deltas, group_order, mod_r, msm_val, multi_update, pow_mod_r, selected_vals, seq_shift,
    verify_eq,
};
use crate::algebra::gt_val;
use crate::pairings::param::{generator_exps, params_from_alpha};
use crate::pairings::prove::{proof_bases, proof_gen_index, proof_scalars, skip_position};
use crate::pairings::{g1a_vals, g2a_vals, ProverParams, VerifierParams};
use vstd::arithmetic::mul::{
    lemma_mul_is_commutative, lemma_mul_is_distributive_add_other_way,
    lemma_mul_is_distributive_sub,
};
use vstd::arithmetic::power::{lemma_pow1, lemma_pow_adds, pow};
use vstd::arithmetic::div_mod::{
    lemma_add_mod_noop, lemma_mod_bound, lemma_mod_twice, lemma_mul_mod_noop_left,
    lemma_mul_mod_noop_right, lemma_small_mod,
};
use vstd::prelude::*;

verus! {

/// Reduction stays inside `[0, group_order())`.
pub proof fn lemma_mod_r_bound(x: int)
    ensures
        mod_r(x) < group_order(),
{
    lemma_mod_bound(x, group_order() as int);
}

/// A value already inside the range is unchanged by reduction.
pub proof fn lemma_mod_r_small(x: nat)
    requires
        x < group_order(),
    ensures
        mod_r(x as int) == x,
{
    lemma_small_mod(x, group_order());
}

/// A reduced value is already reduced.
pub proof fn lemma_mod_r_twice(x: int)
    ensures
        mod_r(mod_r(x) as int) == mod_r(x),
{
    lemma_mod_twice(x, group_order() as int);
}

/// Reducing a summand first does not change a reduced sum.
pub proof fn lemma_mod_r_add_left(a: int, b: int)
    ensures
        mod_r(mod_r(a) + b) == mod_r(a + b),
{
    let m = group_order() as int;
    lemma_add_mod_noop(a, b, m);
    lemma_add_mod_noop(mod_r(a) as int, b, m);
    lemma_mod_twice(a, m);
}

/// Reducing the left factor first does not change a reduced product.
pub proof fn lemma_mod_r_mul_left(a: int, b: int)
    ensures
        mod_r(mod_r(a) * b) == mod_r(a * b),
{
    let m = group_order() as int;
    lemma_mul_mod_noop_left(a, b, m);
    lemma_mul_mod_noop_left(mod_r(a) as int, b, m);
    lemma_mod_twice(a, m);
}

/// Reducing the right factor first does not change a reduced product.
pub proof fn lemma_mod_r_mul_right(a: int, b: int)
    ensures
        mod_r(a * mod_r(b)) == mod_r(a * b),
{
    let m = group_order() as int;
    lemma_mul_mod_noop_right(a, b, m);
    lemma_mul_mod_noop_right(a, mod_r(b) as int, m);
    lemma_mod_twice(b, m);
}

/// Two summands congruent modulo the group order shift a sum into the same
/// residue.
pub proof fn lemma_mod_r_add_congruent(a: int, b1: int, b2: int)
    requires
        mod_r(b1) == mod_r(b2),
    ensures
        mod_r(a + b1) == mod_r(a + b2),
{
    let m = group_order() as int;
    lemma_add_mod_noop(a, b1, m);
    lemma_add_mod_noop(a, b2, m);
}

/// Replacing one scalar of a multi-scalar multiplication moves the integer
/// sum by the matching base times the scalar difference.
pub proof fn lemma_msm_update(bases: Seq<nat>, scalars: Seq<nat>, i: int, b: nat)
    requires
        0 <= i < bases.len(),
        scalars.len() == bases.len(),
    ensures
        msm_val(bases, scalars.update(i, b)) == msm_val(bases, scalars) + bases[i] * (b
            - scalars[i]),
    decreases bases.len(),
{
    let s2 = scalars.update(i, b);
    if i == bases.len() - 1 {
        assert(s2.drop_last() =~= scalars.drop_last());
        assert(s2.last() == b);
        lemma_mul_is_distributive_sub(bases[i] as int, b as int, scalars[i] as int);
    } else {
        assert(s2.drop_last() =~= scalars.drop_last().update(i, b));
        assert(s2.last() == scalars.last());
        lemma_msm_update(bases.drop_last(), scalars.drop_last(), i, b);
    }
}

/// Updating one position and then shifting the commitment exponent by the
/// matching generator times the reduced scalar difference lands exactly on
/// the exponent of a fresh commitment to the updated vector: for every
/// vector, position and pair of values, `Commitment::update` agrees with
/// `Commitment::new` on the vector with that position replaced.
pub proof fn lemma_update_matches_fresh(bases: Seq<nat>, scalars: Seq<nat>, i: int, b: nat)
    requires
        0 <= i < bases.len(),
        scalars.len() == bases.len(),
        scalars[i] < group_order(),
        b < group_order(),
    ensures
        mod_r(mod_r(msm_val(bases, scalars)) + bases[i] * mod_r(b - scalars[i]) as int) == mod_r(
            msm_val(bases, scalars.update(i, b)),
        ),
{
    let m = msm_val(bases, scalars);
    let d = b - scalars[i];
    lemma_msm_update(bases, scalars, i, b);
    lemma_mod_r_add_left(m, (bases[i] * mod_r(d) as int) as int);
    lemma_mod_r_mul_right(bases[i] as int, d);
    lemma_mod_r_add_congruent(m, bases[i] * mod_r(d) as int, bases[i] * d);
}

/// Applying the per-position shifts of a batch one at a time, reducing
/// after each step, lands exactly where the single aggregated shift lands:
/// `batch_update` agrees with a chain of `update` calls, in the order of the
/// index list.
pub proof fn lemma_batch_matches_sequential(c: nat, gsel: Seq<nat>, ds: Seq<nat>)
    requires
        gsel.len() == ds.len(),
    ensures
        seq_shift(c, gsel, ds) == mod_r(c + msm_val(gsel, ds)),
    decreases gsel.len(),
{
    if gsel.len() == 0 {
        assert(msm_val(gsel, ds) == 0);
    } else {
        lemma_batch_matches_sequential(c, gsel.drop_last(), ds.drop_last());
        lemma_mod_r_add_left(
            c + msm_val(gsel.drop_last(), ds.drop_last()),
            gsel.last() * ds.last() as int,
        );
    }
}

/// The length of a batch-updated scalar vector is unchanged.
pub proof fn lemma_multi_update_len(scalars: Seq<nat>, indices: Seq<usize>, news: Seq<nat>)
    requires
        indices.len() == news.len(),
        forall|k: int| 0 <= k < indices.len() ==> (indices[k] as int) < scalars.len(),
    ensures
        multi_update(scalars, indices, news).len() == scalars.len(),
    decreases indices.len(),
{
    if indices.len() > 0 {
        lemma_multi_update_len(scalars, indices.drop_last(), news.drop_last());
    }
}

/// A position that the index list does not name keeps its scalar through a
/// batch of replacements.
pub proof fn lemma_multi_update_untouched(
    scalars: Seq<nat>,
    indices: Seq<usize>,
    news: Seq<nat>,
    j: int,
)
    requires
        indices.len() == news.len(),
        forall|k: int| 0 <= k < indices.len() ==> (indices[k] as int) < scalars.len(),
        0 <= j < scalars.len(),
        forall|k: int| 0 <= k < indices.len() ==> (indices[k] as int) != j,
    ensures
        multi_update(scalars, indices, news)[j] == scalars[j],
    decreases indices.len(),
{
    if indices.len() > 0 {
        lemma_multi_update_untouched(scalars, indices.drop_last(), news.drop_last(), j);
        lemma_multi_update_len(scalars, indices.drop_last(), news.drop_last());
    }
}

/// A position the index list names takes exactly its new scalar through a
/// batch of replacements (the positions being pairwise distinct).  Together
/// with the untouched-position law this pins the updated vector pointwise,
/// independently of the order of the list.
pub proof fn lemma_multi_update_touched(
    scalars: Seq<nat>,
    indices: Seq<usize>,
    news: Seq<nat>,
    k: int,
)
    requires
        indices.len() == news.len(),
        forall|t: int| 0 <= t < indices.len() ==> (indices[t] as int) < scalars.len(),
        forall|t1: int, t2: int| 0 <= t1 < t2 < indices.len() ==> indices[t1] != indices[t2],
        0 <= k < indices.len(),
    ensures
        multi_update(scalars, indices, news)[indices[k] as int] == news[k],
    decreases indices.len(),
{
    lemma_multi_update_len(scalars, indices.drop_last(), news.drop_last());
    if k == indices.len() - 1 {
    } else {
        lemma_multi_update_touched(scalars, indices.drop_last(), news.drop_last(), k);
    }
}

/// The order of a batch never matters: two index lists that carry the same
/// position-to-scalar replacements, each position once, produce the same
/// updated scalar vector — so with `lemma_batch_matches_fresh`, applying the
/// single updates in any permutation lands on the same commitment exponent.
pub proof fn lemma_multi_update_any_order(
    scalars: Seq<nat>,
    idx1: Seq<usize>,
    ns1: Seq<nat>,
    idx2: Seq<usize>,
    ns2: Seq<nat>,
)
    requires
        idx1.len() == ns1.len(),
        idx2.len() == ns2.len(),
        forall|k: int| 0 <= k < idx1.len() ==> (idx1[k] as int) < scalars.len(),
        forall|k: int| 0 <= k < idx2.len() ==> (idx2[k] as int) < scalars.len(),
        forall|k1: int, k2: int| 0 <= k1 < k2 < idx1.len() ==> idx1[k1] != idx1[k2],
        forall|k1: int, k2: int| 0 <= k1 < k2 < idx2.len() ==> idx2[k1] != idx2[k2],
        forall|k: int| #![trigger idx1[k]]
            0 <= k < idx1.len() ==> exists|t: int|
                0 <= t < idx2.len() && idx2[t] == idx1[k] && ns2[t] == ns1[k],
        forall|k: int| #![trigger idx2[k]]
            0 <= k < idx2.len() ==> exists|t: int|
                0 <= t < idx1.len() && idx1[t] == idx2[k] && ns1[t] == ns2[k],
    ensures
        multi_update(scalars, idx1, ns1) == multi_update(scalars, idx2, ns2),
{
    let r1 = multi_update(scalars, idx1, ns1);
    let r2 = multi_update(scalars, idx2, ns2);
    lemma_multi_update_len(scalars, idx1, ns1);
    lemma_multi_update_len(scalars, idx2, ns2);
    assert forall|j: int| 0 <= j < scalars.len() implies r1[j] == r2[j] by {
        if exists|k: int| 0 <= k < idx1.len() && (idx1[k] as int) == j {
            let k = choose|k: int| 0 <= k < idx1.len() && (idx1[k] as int) == j;
            let t = choose|t: int|
                0 <= t < idx2.len() && idx2[t] == idx1[k] && ns2[t] == ns1[k];
            lemma_multi_update_touched(scalars, idx1, ns1, k);
            lemma_multi_update_touched(scalars, idx2, ns2, t);
        } else {
            assert forall|k: int| 0 <= k < idx1.len() implies (idx1[k] as int) != j by {}
            assert forall|k: int| 0 <= k < idx2.len() implies (idx2[k] as int) != j by {
                if (idx2[k] as int) == j {
                    let t = choose|t: int|
                        0 <= t < idx1.len() && idx1[t] == idx2[k] && ns1[t] == ns2[k];
                    assert((idx1[t] as int) == j);
                }
            }
            lemma_multi_update_untouched(scalars, idx1, ns1, j);
            lemma_multi_update_untouched(scalars, idx2, ns2, j);
        }
    }
    assert(r1 =~= r2);
}

/// Shifting a commitment exponent by the aggregated batch correction lands
/// exactly on the exponent of a fresh commitment to the vector with every
/// listed position replaced: since the positions are pairwise distinct,
/// `batch_update` agrees with `Commitment::new` on the fully updated vector
/// (and hence with applying the single updates in any order).
pub proof fn lemma_batch_matches_fresh(
    bases: Seq<nat>,
    scalars: Seq<nat>,
    indices: Seq<usize>,
    news: Seq<nat>,
)
    requires
        scalars.len() == bases.len(),
        indices.len() == news.len(),
        forall|k: int| 0 <= k < indices.len() ==> (indices[k] as int) < bases.len(),
        forall|k1: int, k2: int|
            0 <= k1 < k2 < indices.len() ==> indices[k1] != indices[k2],
        forall|j: int| 0 <= j < scalars.len() ==> scalars[j] < group_order(),
        forall|k: int| 0 <= k < news.len() ==> news[k] < group_order(),
    ensures
        mod_r(
            msm_val(bases, scalars) + msm_val(
                selected_vals(bases, indices),
                batch_deltas(scalars, indices, news),
            ),
        ) == mod_r(msm_val(bases, multi_update(scalars, indices, news))),
    decreases indices.len(),
{
    if indices.len() == 0 {
        assert(msm_val(selected_vals(bases, indices), batch_deltas(scalars, indices, news)) == 0);
    } else {
        let idx0 = indices.drop_last();
        let news0 = news.drop_last();
        let i_last = indices.last() as int;
        let b_last = news.last();
        let scal1 = multi_update(scalars, idx0, news0);
        let sel = selected_vals(bases, indices);
        let dels = batch_deltas(scalars, indices, news);
        lemma_batch_matches_fresh(bases, scalars, idx0, news0);
        lemma_multi_update_len(scalars, idx0, news0);
        lemma_multi_update_untouched(scalars, idx0, news0, i_last);

        // peel the last pair off the aggregated correction
        assert(sel.drop_last() =~= selected_vals(bases, idx0));
        assert(dels.drop_last() =~= batch_deltas(scalars, idx0, news0));
        assert(msm_val(sel, dels) == msm_val(selected_vals(bases, idx0), batch_deltas(scalars, idx0, news0))
            + bases[i_last] * mod_r(b_last - scalars[i_last]) as int);

        let m0 = msm_val(bases, scalars);
        let agg0 = msm_val(selected_vals(bases, idx0), batch_deltas(scalars, idx0, news0));
        let last_term = bases[i_last] * mod_r(b_last - scalars[i_last]) as int;

        // the recursive equality, shifted by the final correction
        lemma_mod_r_add_congruent2(m0 + agg0, msm_val(bases, scal1), last_term);

        // and the final correction is exactly one more single update
        lemma_update_matches_fresh(bases, scal1, i_last, b_last);
        lemma_mod_r_add_left(msm_val(bases, scal1), last_term);
        assert(multi_update(scalars, indices, news) == scal1.update(i_last, b_last));
    }
}

/// Congruent sums stay congruent after adding the same term on the right.
pub proof fn lemma_mod_r_add_congruent2(a1: int, a2: int, b: int)
    requires
        mod_r(a1) == mod_r(a2),
    ensures
        mod_r(a1 + b) == mod_r(a2 + b),
{
    let m = group_order() as int;
    lemma_add_mod_noop(a1, b, m);
    lemma_add_mod_noop(a2, b, m);
}

/// One multiplication step of a running reduced power: multiplying
/// `a^e mod r` by `a` and reducing yields `a^(e+1) mod r`.
pub proof fn lemma_pow_mod_r_step(a: nat, e: nat)
    ensures
        mod_r(pow_mod_r(a, e) * a as int) == pow_mod_r(a, e + 1),
{
    let m = group_order() as int;
    lemma_pow_adds(a as int, 1, e);
    lemma_pow1(a as int);
    assert(pow(a as int, e + 1) == a as int * pow(a as int, e));
    lemma_mul_is_commutative(pow(a as int, e), a as int);
    lemma_mul_mod_noop_left(pow(a as int, e), a as int, m);
    lemma_mul_mod_noop_left(pow_mod_r(a, e) as int, a as int, m);
    lemma_mod_twice(pow(a as int, e), m);
}

/// The first power is the reduction of the base itself.
pub proof fn lemma_pow_mod_r_one(a: nat)
    requires
        a < group_order(),
    ensures
        pow_mod_r(a, 1) == a,
{
    lemma_pow1(a as int);
    lemma_small_mod(a, group_order());
}

/// The first `j` terms of the opening equation's common exponent: the sum
/// of `ms[t] * alpha^(n + 1 + t - i)` over positions `t` below `j`.
pub open spec fn shifted_sum(alpha: nat, ms: Seq<nat>, n: int, i: int, j: int) -> int
    decreases j,
{
    if j <= 0 {
        0
    } else {
        shifted_sum(alpha, ms, n, i, j - 1) + ms[j - 1] * pow(alpha as int, (n + 1 + (j - 1) - i) as nat)
    }
}

/// The first `k` terms of the same sum with position `i` skipped: what an
/// honest proof for position `i` aggregates.
pub open spec fn shifted_sum_skip(alpha: nat, ms: Seq<nat>, n: int, i: int, k: int) -> int
    decreases k,
{
    if k <= 0 {
        0
    } else {
        shifted_sum_skip(alpha, ms, n, i, k - 1) + ms[skip_position(i, k - 1)] * pow(
            alpha as int,
            (n + 1 + skip_position(i, k - 1) - i) as nat,
        )
    }
}

/// Congruent factors keep a reduced product: both may be replaced by their
/// reductions.
pub proof fn lemma_mod_r_mul_congruent(a1: int, a2: int, b1: int, b2: int)
    requires
        mod_r(a1) == mod_r(a2),
        mod_r(b1) == mod_r(b2),
    ensures
        mod_r(a1 * b1) == mod_r(a2 * b2),
{
    let m = group_order() as int;
    vstd::arithmetic::div_mod::lemma_mul_mod_noop_general(a1, b1, m);
    vstd::arithmetic::div_mod::lemma_mul_mod_noop_general(a2, b2, m);
}

/// Multiplying the commitment exponent of the first `j` positions by
/// `alpha^(n - i)` matches the first `j` terms of the common shifted sum.
pub proof fn lemma_commit_side(alpha: nat, ms: Seq<nat>, n: int, i: int, j: int)
    requires
        1 <= n,
        0 <= i < n,
        ms.len() == n,
        0 <= j <= n,
    ensures
        mod_r(
            msm_val(generator_exps(alpha, n).take(j), ms.take(j)) * pow(
                alpha as int,
                (n - i) as nat,
            ),
        ) == mod_r(shifted_sum(alpha, ms, n, i, j)),
    decreases j,
{
    let g = generator_exps(alpha, n);
    let h = pow(alpha as int, (n - i) as nat);
    if j == 0 {
        assert(msm_val(g.take(0), ms.take(0)) == 0);
    } else {
        lemma_commit_side(alpha, ms, n, i, j - 1);
        let m_prev = msm_val(g.take(j - 1), ms.take(j - 1));
        assert(g.take(j).drop_last() =~= g.take(j - 1));
        assert(ms.take(j).drop_last() =~= ms.take(j - 1));
        assert(msm_val(g.take(j), ms.take(j)) == m_prev + g[j - 1] * ms[j - 1]);
        lemma_mul_is_distributive_add_other_way(h, m_prev, g[j - 1] * ms[j - 1] as int);
        // the new term: g[j-1] is alpha^j reduced, so the product is
        // congruent to ms[j-1] * alpha^(n + 1 + (j - 1) - i)
        assert(g[j - 1] == pow_mod_r(alpha, j as nat));
        lemma_pow_adds(alpha as int, j as nat, (n - i) as nat);
        lemma_mod_r_twice(pow(alpha as int, j as nat));
        lemma_mod_r_mul_congruent(
            g[j - 1] as int,
            pow(alpha as int, j as nat),
            ms[j - 1] * h,
            ms[j - 1] * h,
        );
        assert((g[j - 1] * ms[j - 1]) * h == g[j - 1] as int * (ms[j - 1] * h))
            by (nonlinear_arith);
        assert(pow(alpha as int, j as nat) * (ms[j - 1] * h) == ms[j - 1] * (pow(
            alpha as int,
            j as nat,
        ) * h)) by (nonlinear_arith);
        lemma_mod_r_add_congruent(m_prev * h, (g[j - 1] * ms[j - 1]) * h, ms[j - 1] * pow(
            alpha as int,
            (n + 1 + (j - 1) - i) as nat,
        ));
        lemma_mod_r_add_congruent2(
            m_prev * h,
            shifted_sum(alpha, ms, n, i, j - 1),
            ms[j - 1] * pow(alpha as int, (n + 1 + (j - 1) - i) as nat),
        );
    }
}

/// The exponent of the first `k` cross terms an honest proof aggregates
/// matches the first `k` terms of the skipped shifted sum.
pub proof fn lemma_proof_side(alpha: nat, ms: Seq<nat>, n: int, i: int, k: int)
    requires
        1 <= n,
        0 <= i < n,
        ms.len() == n,
        0 <= k <= n - 1,
    ensures
        mod_r(
            msm_val(proof_bases(generator_exps(alpha, n), n, i).take(k), proof_scalars(ms, i).take(k)),
        ) == mod_r(shifted_sum_skip(alpha, ms, n, i, k)),
    decreases k,
{
    let g = generator_exps(alpha, n);
    let pb = proof_bases(g, n, i);
    let ps = proof_scalars(ms, i);
    if k == 0 {
        assert(msm_val(pb.take(0), ps.take(0)) == 0);
    } else {
        lemma_proof_side(alpha, ms, n, i, k - 1);
        let m_prev = msm_val(pb.take(k - 1), ps.take(k - 1));
        assert(pb.take(k).drop_last() =~= pb.take(k - 1));
        assert(ps.take(k).drop_last() =~= ps.take(k - 1));
        let p = skip_position(i, k - 1);
        assert(0 <= proof_gen_index(n, i, p) < 2 * n);
        assert(pb[k - 1] == pow_mod_r(alpha, (n + 1 + p - i) as nat));
        assert(ps[k - 1] == ms[p]);
        assert(msm_val(pb.take(k), ps.take(k)) == m_prev + pb[k - 1] * ms[p] as int);
        lemma_mod_r_twice(pow(alpha as int, (n + 1 + p - i) as nat));
        lemma_mod_r_mul_congruent(
            pb[k - 1] as int,
            pow(alpha as int, (n + 1 + p - i) as nat),
            ms[p] as int,
            ms[p] as int,
        );
        assert(pow(alpha as int, (n + 1 + p - i) as nat) * ms[p] == ms[p] * pow(
            alpha as int,
            (n + 1 + p - i) as nat,
        )) by (nonlinear_arith);
        lemma_mod_r_add_congruent(m_prev, pb[k - 1] * ms[p] as int, ms[p] * pow(
            alpha as int,
            (n + 1 + p - i) as nat,
        ));
        lemma_mod_r_add_congruent2(
            m_prev,
            shifted_sum_skip(alpha, ms, n, i, k - 1),
            ms[p] * pow(alpha as int, (n + 1 + p - i) as nat),
        );
    }
}

/// Splitting the common shifted sum at the opened position: the full sum is
/// the skipped sum plus the opened value times `alpha^(n + 1)`.
pub proof fn lemma_shifted_sum_split(alpha: nat, ms: Seq<nat>, n: int, i: int, j: int)
    requires
        1 <= n,
        0 <= i < n,
        ms.len() == n,
        0 <= j <= n,
    ensures
        j <= i ==> shifted_sum(alpha, ms, n, i, j) == shifted_sum_skip(alpha, ms, n, i, j),
        j > i ==> shifted_sum(alpha, ms, n, i, j) == shifted_sum_skip(alpha, ms, n, i, j - 1)
            + ms[i] * pow(alpha as int, (n + 1) as nat),
    decreases j,
{
    if j > 0 {
        lemma_shifted_sum_split(alpha, ms, n, i, j - 1);
    }
}

/// An honestly generated commitment and proof always verify: with prover
/// generators derived from any seed scalar `alpha`, the pairing equation of
/// `Proof::verify` holds between the fresh commitment of a vector, the fresh
/// proof at any position `i`, the verifier generator for `i`, and the true
/// value scalar at `i`.
pub proof fn lemma_honest_proof_verifies(alpha: nat, n: int, ms: Seq<nat>, i: int)
    requires
        1 <= n,
        0 <= i < n,
        ms.len() == n,
    ensures
        verify_eq(
            mod_r(msm_val(generator_exps(alpha, n).take(n), ms)),
            pow_mod_r(alpha, (n - i) as nat),
            mod_r(msm_val(proof_bases(generator_exps(alpha, n), n, i), proof_scalars(ms, i))),
            pow_mod_r(alpha, (n + 1) as nat),
            ms[i],
        ),
{
    let g = generator_exps(alpha, n);
    let c0 = msm_val(g.take(n), ms);
    let p0 = msm_val(proof_bases(g, n, i), proof_scalars(ms, i));
    let h = pow(alpha as int, (n - i) as nat);
    let t = pow(alpha as int, (n + 1) as nat);

    // the left side of the equation reduces to the full shifted sum
    assert(ms.take(n) =~= ms);
    lemma_commit_side(alpha, ms, n, i, n);
    lemma_mod_r_twice(c0);
    lemma_mod_r_twice(h);
    lemma_mod_r_mul_congruent(
        mod_r(c0) as int,
        c0,
        pow_mod_r(alpha, (n - i) as nat) as int,
        h,
    );

    // the right side reduces to the skipped sum plus the opened term
    assert(proof_bases(g, n, i).take(n - 1) =~= proof_bases(g, n, i));
    assert(proof_scalars(ms, i).take(n - 1) =~= proof_scalars(ms, i));
    lemma_proof_side(alpha, ms, n, i, n - 1);
    lemma_mod_r_twice(t);
    lemma_mod_r_mul_congruent(
        pow_mod_r(alpha, (n + 1) as nat) as int,
        t,
        ms[i] as int,
        ms[i] as int,
    );
    lemma_mod_r_add_left(p0, (pow_mod_r(alpha, (n + 1) as nat) * ms[i]) as int);
    lemma_mod_r_add_congruent(p0, pow_mod_r(alpha, (n + 1) as nat) * ms[i] as int, t * ms[i]);
    lemma_mod_r_add_congruent2(p0, shifted_sum_skip(alpha, ms, n, i, n - 1), t * ms[i]);

    // and the two sides meet at the split of the shifted sum at `i`
    lemma_shifted_sum_split(alpha, ms, n, i, n);
    assert(ms[i] * t == t * ms[i] as int) by (nonlinear_arith);
}

/// The same law at the level of generated parameter sets: for any pair
/// honestly derived from a seed scalar, the exponent of a fresh commitment,
/// the exponent of a fresh proof at position `i`, the verifier generator for
/// `i` and the verification element satisfy the pairing equation that
/// `Proof::verify` checks — so a commitment followed by an opening at any
/// position verifies with the true value.
pub proof fn lemma_commit_open_verify(
    pp: ProverParams,
    vp: VerifierParams,
    alpha: nat,
    ms: Seq<nat>,
    i: int,
)
    requires
        params_from_alpha(pp, vp, alpha, pp.n as nat),
        vp.n == pp.n,
        1 <= pp.n,
        0 <= i < pp.n,
        ms.len() == pp.n,
    ensures
        verify_eq(
            mod_r(msm_val(g1a_vals(pp.generators@).take(pp.n as int), ms)),
            g2a_vals(vp.generators@)[vp.n - 1 - i],
            mod_r(
                msm_val(
                    proof_bases(g1a_vals(pp.generators@), pp.n as int, i),
                    proof_scalars(ms, i),
                ),
            ),
            gt_val(vp.gt_elt),
            ms[i],
        ),
{
    let n = pp.n as int;
    assert(g1a_vals(pp.generators@) =~= generator_exps(alpha, n));
    assert(g2a_vals(vp.generators@)[n - 1 - i] == pow_mod_r(alpha, (n - i) as nat));
    lemma_honest_proof_verifies(alpha, n, ms, i);
}

} // verus!
