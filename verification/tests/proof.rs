use veccom::pairings::err::VeccomError;
use veccom::pairings::param::paramgen_from_seed;
use veccom::pairings::{Commitment, Proof};

#[test]
fn negative_test_proof() {
    let n = 8usize;
    let (prover_params, verifier_params) = paramgen_from_seed(
        "This is Leo's Favourite very very very long Seed".as_bytes(),
        0,
        n,
    )
    .unwrap();
    let mut prover_params2 = prover_params.clone();
    prover_params2.ciphersuite = 1;
    let mut verifier_params2 = verifier_params.clone();
    verifier_params2.ciphersuite = 1;

    let mut prover_params256 = prover_params.clone();
    prover_params256.precomp_256();

    let mut init_values = Vec::with_capacity(n);
    for i in 0..n {
        let s = format!("this is message number {}", i);
        init_values.push(s.into_bytes());
    }

    let mut values: Vec<Vec<u8>> = Vec::with_capacity(n);
    for e in init_values.iter().take(n) {
        values.push(e.clone());
    }
    let mut values2 = Vec::with_capacity(n + 1);
    for i in 0..=n {
        values2.push(format!("new string {}", i).into_bytes());
    }

    assert!(Proof::new(&prover_params, &values, 9).is_err());
    assert!(Proof::new(&prover_params2, &values, 0).is_err());
    assert!(Proof::new(&prover_params, &values2, 0).is_err());

    let mut proof = Proof::new(&prover_params, &values, 0).unwrap();

    assert!(proof
        .update(&prover_params2, 0, 1, &values2[1], &values2[2])
        .is_err());
    assert!(proof
        .update(&prover_params2, 0, 9, &values2[1], &values2[2])
        .is_err());

    let mut proof2 = proof.clone();
    proof2.ciphersuite = 1;
    assert!(proof2
        .update(&prover_params, 0, 1, &values2[1], &values2[2])
        .is_err());

    let com = Commitment::new(&prover_params, &values).unwrap();
    let mut com2 = com.clone();
    com2.ciphersuite = 1;
    assert!(!proof.verify(&verifier_params2, &com, &values[0], 0));
    assert!(!proof.verify(&verifier_params, &com, &values[0], 9));
    assert!(!proof.verify(&verifier_params, &com2, &values[0], 0));
}

#[test]
fn rejection_error_kinds() {
    let n = 8usize;
    let (prover_params, _verifier_params) = paramgen_from_seed(
        "This is Leo's Favourite very very very long Seed".as_bytes(),
        0,
        n,
    )
    .unwrap();
    let mut prover_params2 = prover_params.clone();
    prover_params2.ciphersuite = 1;

    let mut values: Vec<Vec<u8>> = Vec::new();
    for i in 0..n {
        values.push(format!("this is message number {}", i).into_bytes());
    }
    let mut values9: Vec<Vec<u8>> = values.clone();
    values9.push(b"one value too many".to_vec());

    // a position beyond the capacity
    assert_eq!(
        Proof::new(&prover_params, &values, 9).unwrap_err(),
        VeccomError::InvalidIndexError
    );
    // a parameter set generated for another ciphersuite
    assert_eq!(
        Proof::new(&prover_params2, &values, 0).unwrap_err(),
        VeccomError::CiphersuiteError
    );
    // a vector of nine values against capacity eight
    assert_eq!(
        Proof::new(&prover_params, &values9, 0).unwrap_err(),
        VeccomError::InvalidValueError
    );
    assert_eq!(
        Commitment::new(&prover_params2, &values).unwrap_err(),
        VeccomError::CiphersuiteError
    );
    assert_eq!(
        Commitment::new(&prover_params, &values9).unwrap_err(),
        VeccomError::InvalidValueError
    );

    let mut com = Commitment::new(&prover_params, &values).unwrap();
    assert_eq!(
        com.update(&prover_params, 9, &values[0], &values[1])
            .unwrap_err(),
        VeccomError::InvalidIndexError
    );
    assert_eq!(
        com.update(&prover_params2, 0, &values[0], &values[1])
            .unwrap_err(),
        VeccomError::CiphersuiteError
    );
    assert_eq!(
        com.batch_update(
            &prover_params,
            &vec![0usize, 1],
            &vec![values[0].clone()],
            &vec![values[1].clone()]
        )
        .unwrap_err(),
        VeccomError::IndexValueMismatchError
    );

    // a seed that is too short, and an unknown ciphersuite
    assert_eq!(
        paramgen_from_seed(b"short seed", 0, n).unwrap_err(),
        VeccomError::InvalidSeedError
    );
    assert_eq!(
        paramgen_from_seed(
            "This is Leo's Favourite very very very long Seed".as_bytes(),
            1,
            n
        )
        .unwrap_err(),
        VeccomError::CiphersuiteError
    );
}

#[test]
fn batch_duplicate_rejection() {
    let n = 8usize;
    let (prover_params, _verifier_params) = paramgen_from_seed(
        "This is Leo's Favourite very very very long Seed".as_bytes(),
        0,
        n,
    )
    .unwrap();
    let mut values: Vec<Vec<u8>> = Vec::new();
    for i in 0..n {
        values.push(format!("this is message number {}", i).into_bytes());
    }
    let mut com = Commitment::new(&prover_params, &values).unwrap();
    let untouched = com.clone();

    let indices = vec![2usize, 2usize];
    let before = vec![values[2].clone(), values[2].clone()];
    let after = vec![b"first change".to_vec(), b"second change".to_vec()];
    assert_eq!(
        com.batch_update(&prover_params, &indices, &before, &after)
            .unwrap_err(),
        VeccomError::DuplicatedIndexError
    );
    // the failed call left the commitment byte for byte unchanged
    assert!(com.commit == untouched.commit);
    assert_eq!(com.ciphersuite, untouched.ciphersuite);
}
