use veccom::pairings::param::paramgen_from_seed;
use veccom::pairings::{check_ciphersuite, Commitment, Proof, ProverParams, VerifierParams};

const SEED: &str = "This is Leo's Favourite very very very long Seed";

fn setup(n: usize) -> (ProverParams, VerifierParams, Vec<Vec<u8>>) {
    let (prover_params, verifier_params) = paramgen_from_seed(SEED.as_bytes(), 0, n).unwrap();
    let mut values: Vec<Vec<u8>> = Vec::new();
    for i in 0..n {
        values.push(format!("this is message number {}", i).into_bytes());
    }
    (prover_params, verifier_params, values)
}

#[test]
fn ciphersuite_support() {
    assert!(check_ciphersuite(0));
    assert!(!check_ciphersuite(1));
    assert!(!check_ciphersuite(255));
}

#[test]
fn commit_and_open_all_positions() {
    let n = 8usize;
    let (prover_params, verifier_params, values) = setup(n);
    let com = Commitment::new(&prover_params, &values).unwrap();
    for i in 0..n {
        let proof = Proof::new(&prover_params, &values, i).unwrap();
        // the true value at the opened position verifies
        assert!(proof.verify(&verifier_params, &com, &values[i], i));
        // a wrong value at the opened position does not
        assert!(!proof.verify(&verifier_params, &com, &values[(i + 1) % n], i));
        // a wrong position does not
        assert!(!proof.verify(&verifier_params, &com, &values[i], (i + 1) % n));
    }
}

#[test]
fn verify_rejects_tampered_commitment() {
    let n = 8usize;
    let (prover_params, verifier_params, values) = setup(n);
    let com = Commitment::new(&prover_params, &values).unwrap();
    let proof = Proof::new(&prover_params, &values, 3).unwrap();

    let mut other_values = values.clone();
    other_values[5] = b"tampered entry".to_vec();
    let tampered = Commitment::new(&prover_params, &other_values).unwrap();
    assert!(proof.verify(&verifier_params, &com, &values[3], 3));
    assert!(!proof.verify(&verifier_params, &tampered, &values[3], 3));
}

#[test]
fn update_matches_fresh_commitment() {
    let n = 8usize;
    let (prover_params, _verifier_params, values) = setup(n);
    for i in 0..n {
        let mut com = Commitment::new(&prover_params, &values).unwrap();
        let new_value = format!("replacement at {}", i).into_bytes();
        com.update(&prover_params, i, &values[i], &new_value).unwrap();

        let mut updated_values = values.clone();
        updated_values[i] = new_value;
        let fresh = Commitment::new(&prover_params, &updated_values).unwrap();
        assert!(com.commit == fresh.commit);
    }
}

#[test]
fn proof_update_tracks_commitment_update() {
    let n = 8usize;
    let (prover_params, verifier_params, values) = setup(n);
    let mut com = Commitment::new(&prover_params, &values).unwrap();
    let mut proof = Proof::new(&prover_params, &values, 2).unwrap();

    let new_value = b"the fifth entry changed".to_vec();
    com.update(&prover_params, 5, &values[5], &new_value).unwrap();
    proof.update(&prover_params, 2, 5, &values[5], &new_value).unwrap();
    assert!(proof.verify(&verifier_params, &com, &values[2], 2));

    // a change at the bound position itself leaves the proof untouched
    let before = proof.clone();
    let new_value2 = b"the second entry changed".to_vec();
    com.update(&prover_params, 2, &values[2], &new_value2).unwrap();
    proof.update(&prover_params, 2, 2, &values[2], &new_value2).unwrap();
    assert!(proof.proof == before.proof);
    assert!(proof.verify(&verifier_params, &com, &new_value2, 2));
}

#[test]
fn batch_update_matches_sequential_and_fresh() {
    let n = 8usize;
    let (prover_params, _verifier_params, values) = setup(n);
    let indices = vec![6usize, 1, 4];
    let before = vec![values[6].clone(), values[1].clone(), values[4].clone()];
    let after = vec![
        b"first replacement".to_vec(),
        b"second replacement".to_vec(),
        b"third replacement".to_vec(),
    ];

    let mut batched = Commitment::new(&prover_params, &values).unwrap();
    batched
        .batch_update(&prover_params, &indices, &before, &after)
        .unwrap();

    // one position at a time, in a different order than the list
    let mut sequential = Commitment::new(&prover_params, &values).unwrap();
    for k in [2usize, 0, 1] {
        sequential
            .update(&prover_params, indices[k], &before[k], &after[k])
            .unwrap();
    }
    assert!(batched.commit == sequential.commit);

    // and a fresh commitment on the fully updated vector
    let mut updated_values = values.clone();
    for k in 0..indices.len() {
        updated_values[indices[k]] = after[k].clone();
    }
    let fresh = Commitment::new(&prover_params, &updated_values).unwrap();
    assert!(batched.commit == fresh.commit);
}

#[test]
fn precomputation_strategies_agree() {
    let n = 8usize;
    let (prover_params, verifier_params, values) = setup(n);
    let mut prover_params3 = prover_params.clone();
    prover_params3.precomp_3();
    let mut prover_params256 = prover_params.clone();
    prover_params256.precomp_256();

    // the three strategies commit identically
    let com_plain = Commitment::new(&prover_params, &values).unwrap();
    let com3 = Commitment::new(&prover_params3, &values).unwrap();
    let com256 = Commitment::new(&prover_params256, &values).unwrap();
    assert!(com_plain.commit == com3.commit);
    assert!(com_plain.commit == com256.commit);

    // and update identically
    let new_value = b"a new third entry".to_vec();
    let mut u_plain = com_plain.clone();
    let mut u3 = com3.clone();
    let mut u256 = com256.clone();
    u_plain.update(&prover_params, 3, &values[3], &new_value).unwrap();
    u3.update(&prover_params3, 3, &values[3], &new_value).unwrap();
    u256.update(&prover_params256, 3, &values[3], &new_value).unwrap();
    assert!(u_plain.commit == u3.commit);
    assert!(u_plain.commit == u256.commit);

    // batch updates agree between plain and the full table
    let indices = vec![0usize, 7];
    let before = vec![values[0].clone(), values[7].clone()];
    let after = vec![b"new first".to_vec(), b"new last".to_vec()];
    let mut b_plain = com_plain.clone();
    let mut b256 = com256.clone();
    b_plain.batch_update(&prover_params, &indices, &before, &after).unwrap();
    b256.batch_update(&prover_params256, &indices, &before, &after).unwrap();
    assert!(b_plain.commit == b256.commit);

    // proofs built and updated through the full table agree with plain ones
    let p_plain = Proof::new(&prover_params, &values, 4).unwrap();
    let p256 = Proof::new(&prover_params256, &values, 4).unwrap();
    assert!(p_plain.proof == p256.proof);
    let mut q_plain = p_plain.clone();
    let mut q3 = p_plain.clone();
    let mut q256 = p256.clone();
    q_plain.update(&prover_params, 4, 6, &values[6], &new_value).unwrap();
    q3.update(&prover_params3, 4, 6, &values[6], &new_value).unwrap();
    q256.update(&prover_params256, 4, 6, &values[6], &new_value).unwrap();
    assert!(q_plain.proof == q3.proof);
    assert!(q_plain.proof == q256.proof);
    let mut com6 = com_plain.clone();
    com6.update(&prover_params, 6, &values[6], &new_value).unwrap();
    assert!(q_plain.verify(&verifier_params, &com6, &values[4], 4));
}

#[test]
fn update_depends_on_value_order() {
    // swapping before and after silently lands on a different commitment
    let n = 8usize;
    let (prover_params, _verifier_params, values) = setup(n);
    let new_value = b"another value".to_vec();

    let mut forward = Commitment::new(&prover_params, &values).unwrap();
    forward.update(&prover_params, 0, &values[0], &new_value).unwrap();
    let mut backward = Commitment::new(&prover_params, &values).unwrap();
    backward.update(&prover_params, 0, &new_value, &values[0]).unwrap();
    assert!(forward.commit != backward.commit);

    // while an update that changes nothing keeps the commitment
    let mut idle = Commitment::new(&prover_params, &values).unwrap();
    idle.update(&prover_params, 0, &values[0], &values[0]).unwrap();
    let base = Commitment::new(&prover_params, &values).unwrap();
    assert!(idle.commit == base.commit);
}

#[test]
fn empty_and_distinct_values() {
    // hashing is total: empty byte strings commit fine, and different
    // values at a position give different commitments
    let n = 2usize;
    let (prover_params, verifier_params, _) = setup(n);
    let values: Vec<Vec<u8>> = vec![Vec::new(), b"x".to_vec()];
    let com = Commitment::new(&prover_params, &values).unwrap();
    let other: Vec<Vec<u8>> = vec![b"y".to_vec(), b"x".to_vec()];
    let com2 = Commitment::new(&prover_params, &other).unwrap();
    assert!(com.commit != com2.commit);

    let proof = Proof::new(&prover_params, &values, 0).unwrap();
    assert!(proof.verify(&verifier_params, &com, &values[0], 0));
    assert!(!proof.verify(&verifier_params, &com2, &values[0], 0));
}
