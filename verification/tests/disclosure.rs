//! Selective disclosure, predicate proofs, and the password-based
//! encryption helpers.

use fortro_engine::crypto::{
    decrypt_with_password, encrypt_with_password, generate_secure_string, hash_to_hex,
};
use fortro_engine::errors::AppError;
use fortro_engine::value::{ClaimEntry, ClaimValue};
use fortro_engine::zk_proofs::{
    create_predicate_proof, create_range_proof, create_selective_disclosure,
    verify_predicate_proof, verify_range_proof, verify_selective_disclosure,
    RangeProofWithCommitment,
};

fn abc_attrs() -> Vec<ClaimEntry> {
    vec![
        ClaimEntry {
            key: "a".to_string(),
            value: ClaimValue::Int(1),
        },
        ClaimEntry {
            key: "b".to_string(),
            value: ClaimValue::Int(2),
        },
        ClaimEntry {
            key: "c".to_string(),
            value: ClaimValue::Int(3),
        },
    ]
}

#[test]
fn disclosure_round_trip_and_tamper() {
    let original = abc_attrs();
    let disclosed = create_selective_disclosure(&original, &["a".to_string()]).unwrap();
    assert_eq!(disclosed.len(), 2);
    assert_eq!(disclosed[0].key, "a");
    assert_eq!(disclosed[1].key, "_undisclosed_hash");
    assert!(verify_selective_disclosure(&original, &disclosed).unwrap());

    let mut mutated = create_selective_disclosure(&original, &["a".to_string()]).unwrap();
    mutated[0].value = ClaimValue::Int(99);
    assert!(!verify_selective_disclosure(&original, &mutated).unwrap());
}

#[test]
fn disclosure_requires_named_attributes() {
    let original = abc_attrs();
    assert!(matches!(
        create_selective_disclosure(&original, &["missing".to_string()]),
        Err(AppError::ValidationError(_))
    ));
}

#[test]
fn disclosure_detects_dropped_undisclosed_attribute() {
    let original = abc_attrs();
    let disclosed = create_selective_disclosure(&original, &["a".to_string()]).unwrap();
    let mut shrunk = abc_attrs();
    shrunk.pop();
    assert!(!verify_selective_disclosure(&shrunk, &disclosed).unwrap());
}

#[test]
fn full_disclosure_without_hash_requires_exact_cover() {
    let original = abc_attrs();
    let all = abc_attrs();
    assert!(verify_selective_disclosure(&original, &all).unwrap());
    let mut partial = abc_attrs();
    partial.pop();
    assert!(!verify_selective_disclosure(&original, &partial).unwrap());
}

#[test]
fn predicate_soundness() {
    let proof = create_predicate_proof("age", 25, ">=", 18).expect("proof");
    assert_eq!(proof.attribute_name, "age");
    assert_eq!(proof.predicate_type, ">=");
    assert_eq!(proof.predicate_value, 18);
    assert_eq!(verify_predicate_proof(&proof).unwrap(), true);
    assert!(matches!(
        create_predicate_proof("age", 15, ">=", 18),
        Err(AppError::ValidationError(_))
    ));
}

#[test]
fn predicate_operators_precheck() {
    assert!(create_predicate_proof("x", 5, "<=", 5).is_ok());
    assert!(create_predicate_proof("x", 6, ">", 5).is_ok());
    assert!(create_predicate_proof("x", 4, "<", 5).is_ok());
    assert!(create_predicate_proof("x", 5, "==", 5).is_ok());
    assert!(create_predicate_proof("x", 4, "!=", 5).is_ok());
    assert!(matches!(
        create_predicate_proof("x", 6, "<=", 5),
        Err(AppError::ValidationError(_))
    ));
    assert!(matches!(
        create_predicate_proof("x", 5, ">", 5),
        Err(AppError::ValidationError(_))
    ));
    assert!(matches!(
        create_predicate_proof("x", 5, "<", 5),
        Err(AppError::ValidationError(_))
    ));
    assert!(matches!(
        create_predicate_proof("x", 4, "==", 5),
        Err(AppError::ValidationError(_))
    ));
    assert!(matches!(
        create_predicate_proof("x", 5, "!=", 5),
        Err(AppError::ValidationError(_))
    ));
    assert!(matches!(
        create_predicate_proof("x", 5, "~", 5),
        Err(AppError::ValidationError(_))
    ));
}

#[test]
fn range_proof_round_trip_and_bad_commitment() {
    let proof = create_range_proof(12345, "score").unwrap();
    assert_eq!(verify_range_proof(&proof).unwrap(), true);
    let broken = RangeProofWithCommitment {
        proof: proof.proof.clone(),
        commitment: vec![0u8; 5],
        attribute_name: "score".to_string(),
    };
    assert!(matches!(
        verify_range_proof(&broken),
        Err(AppError::ValidationError(_))
    ));
    let mut flipped = RangeProofWithCommitment {
        proof: proof.proof.clone(),
        commitment: proof.commitment.clone(),
        attribute_name: "score".to_string(),
    };
    flipped.proof[0] ^= 0xff;
    assert!(verify_range_proof(&flipped).is_err());
}

#[test]
fn password_encryption_round_trip() {
    let data = b"wallet backup payload".to_vec();
    let sealed = encrypt_with_password(&data, "passphrase").unwrap();
    assert_eq!(sealed.len(), data.len() + 44);
    let opened = decrypt_with_password(&sealed, "passphrase").unwrap();
    assert_eq!(opened, data);
    assert!(decrypt_with_password(&sealed, "wrong").is_err());
    assert!(matches!(
        decrypt_with_password(&[0u8; 10], "passphrase"),
        Err(AppError::ValidationError(_))
    ));
}

#[test]
fn digest_hex_is_stable() {
    let a = hash_to_hex(b"abc");
    assert_eq!(
        a,
        "ba7816bf8f01cfea414140de5dae2223b00361a396177a9cb410ff61f20015ad"
    );
    let b = hash_to_hex(b"abd");
    assert_ne!(a, b);
}

#[test]
fn secure_strings_have_no_dots() {
    let s = generate_secure_string(32);
    assert!(!s.contains('.'));
    assert!(!s.is_empty());
}

#[test]
fn hashless_disclosure_with_duplicate_keys_does_not_cover() {
    let original = abc_attrs();
    // Two copies of one matching attribute and the right length do not
    // cover the mapping: every original attribute must appear.
    let duplicated = vec![
        ClaimEntry {
            key: "a".to_string(),
            value: ClaimValue::Int(1),
        },
        ClaimEntry {
            key: "a".to_string(),
            value: ClaimValue::Int(1),
        },
        ClaimEntry {
            key: "b".to_string(),
            value: ClaimValue::Int(2),
        },
    ];
    assert!(!verify_selective_disclosure(&original, &duplicated).unwrap());
}
