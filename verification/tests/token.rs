//! Token round trips, tampering, expiry, and the DID format.

use fortro_engine::crypto::generate_dilithium_keypair;
use fortro_engine::did::{
    did_from_did, did_from_private_key, generate_did, pq_sign, pq_verify, validate_did,
};
use fortro_engine::errors::AppError;
use fortro_engine::jwt::{
    build_credential_claims, create_pq_jwt, make_pq_header, split3, verify_pq_jwt_at,
};
use fortro_engine::value::{ClaimEntry, ClaimValue};

const NOW: i64 = 1_700_000_000;

fn sample_attrs() -> Vec<ClaimEntry> {
    vec![ClaimEntry {
        key: "age".to_string(),
        value: ClaimValue::Int(30),
    }]
}

fn make_token(ttl: Option<i64>) -> (String, Vec<u8>, Vec<u8>) {
    let (pk, sk) = generate_dilithium_keypair();
    let header = make_pq_header("did:alyra:Issuer1");
    let claims = build_credential_claims(
        "did:alyra:Issuer1",
        "did:alyra:Sub1",
        &sample_attrs(),
        &pk,
        NOW,
        "token-1",
        ttl,
    );
    let token = create_pq_jwt(&header, &claims, &sk).expect("token creation");
    (token, pk, sk)
}

#[test]
fn token_round_trip() {
    let (token, _pk, _sk) = make_token(None);
    let (header, claims) = verify_pq_jwt_at(&token, NOW).expect("verification");
    assert_eq!(header.alg, "Dilithium");
    assert_eq!(header.typ, "JWT");
    assert_eq!(claims.iss, "did:alyra:Issuer1");
    assert_eq!(claims.sub.as_deref(), Some("did:alyra:Sub1"));
    assert_eq!(claims.iat, NOW);
    assert_eq!(claims.jti, "token-1");
    let has_vc = claims.additional_claims.iter().any(|e| e.key == "vc");
    let has_pqk = claims.additional_claims.iter().any(|e| e.key == "pqk");
    assert!(has_vc && has_pqk);
}

#[test]
fn tampered_claims_segment_fails_signature() {
    let (pk, sk) = generate_dilithium_keypair();
    let header = make_pq_header("did:alyra:Issuer1");
    let claims_a = build_credential_claims(
        "did:alyra:Issuer1",
        "did:alyra:Sub1",
        &sample_attrs(),
        &pk,
        NOW,
        "token-a",
        None,
    );
    let claims_b = build_credential_claims(
        "did:alyra:Issuer1",
        "did:alyra:Sub2",
        &sample_attrs(),
        &pk,
        NOW,
        "token-b",
        None,
    );
    let token_a = create_pq_jwt(&header, &claims_a, &sk).unwrap();
    let token_b = create_pq_jwt(&header, &claims_b, &sk).unwrap();
    let parts_a: Vec<&str> = token_a.split('.').collect();
    let parts_b: Vec<&str> = token_b.split('.').collect();
    // Other claims under the signature of token A: the claims segment has
    // been altered while the signature has not.
    let grafted = format!("{}.{}.{}", parts_a[0], parts_b[1], parts_a[2]);
    match verify_pq_jwt_at(&grafted, NOW) {
        Err(AppError::InvalidSignature) => {}
        other => panic!("expected InvalidSignature, got {:?}", other.map(|_| ())),
    }
}

#[test]
fn flipped_byte_in_claims_segment_fails() {
    let (token, _pk, _sk) = make_token(None);
    let parts: Vec<&str> = token.split('.').collect();
    let mut seg: Vec<char> = parts[1].chars().collect();
    let old = seg[0];
    seg[0] = if old == 'A' { 'B' } else { 'A' };
    let mutated: String = seg.into_iter().collect();
    let tampered = format!("{}.{}.{}", parts[0], mutated, parts[2]);
    assert!(verify_pq_jwt_at(&tampered, NOW).is_err());
}

#[test]
fn expired_token_fails_and_fresh_token_passes() {
    let (expired, _, _) = make_token(Some(-1));
    match verify_pq_jwt_at(&expired, NOW) {
        Err(AppError::Expired) => {}
        other => panic!("expected Expired, got {:?}", other.map(|_| ())),
    }
    let (fresh, _, _) = make_token(Some(3600));
    assert!(verify_pq_jwt_at(&fresh, NOW).is_ok());
}

#[test]
fn malformed_tokens_are_rejected() {
    assert!(matches!(
        verify_pq_jwt_at("no dots here", NOW),
        Err(AppError::ProtocolError(_))
    ));
    assert!(matches!(
        verify_pq_jwt_at("a.b", NOW),
        Err(AppError::ProtocolError(_))
    ));
    assert!(matches!(
        verify_pq_jwt_at("a.b.c.d", NOW),
        Err(AppError::ProtocolError(_))
    ));
    assert!(matches!(
        verify_pq_jwt_at("!!.??.**", NOW),
        Err(AppError::ProtocolError(_))
    ));
}

#[test]
fn split3_requires_exactly_two_dots() {
    assert!(split3("a.b.c").is_some());
    let (a, b, c) = split3("a.b.c").unwrap();
    assert_eq!((a.as_str(), b.as_str(), c.as_str()), ("a", "b", "c"));
    assert!(split3("a.b").is_none());
    assert!(split3("a.b.c.d").is_none());
    assert!(split3("").is_none());
    let (x, y, z) = split3("..").unwrap();
    assert_eq!((x.as_str(), y.as_str(), z.as_str()), ("", "", ""));
}

#[test]
fn did_format_is_enforced() {
    assert!(validate_did("did:alyra:abc"));
    assert!(!validate_did("did:web:abc"));
    assert!(!validate_did("alyra:abc"));
    assert!(!validate_did(""));
    let kp = did_from_did("did:alyra:SomeKey").unwrap();
    assert_eq!(kp.public_key_base58, "SomeKey");
    assert!(kp.private_key_base58.is_none());
    assert!(matches!(
        did_from_did("did:other:xyz"),
        Err(AppError::ValidationError(_))
    ));
}

#[test]
fn generated_identity_signs_and_verifies() {
    let kp = generate_did().unwrap();
    assert!(validate_did(&kp.did));
    assert_eq!(kp.did, format!("did:alyra:{}", kp.public_key_base58));
    let recovered = did_from_private_key(kp.private_key_base58.as_ref().unwrap()).unwrap();
    assert!(validate_did(&recovered.did));
    assert!(matches!(
        did_from_private_key("x"),
        Err(AppError::CryptoError(_))
    ));
}

#[test]
fn raw_sign_and_verify_round_trip() {
    let (pk, sk) = generate_dilithium_keypair();
    let sig = pq_sign(b"message", &sk).unwrap();
    assert!(pq_verify(b"message", &sig, &pk).unwrap());
    assert!(!pq_verify(b"other message", &sig, &pk).unwrap());
    assert!(!pq_verify(b"message", b"short", &pk).unwrap());
    assert!(matches!(pq_sign(b"m", b"short"), Err(AppError::CryptoError(_))));
    assert!(matches!(
        pq_verify(b"m", b"s", b"short"),
        Err(AppError::CryptoError(_))
    ));
}

#[test]
fn value_codec_round_trips() {
    let value = ClaimValue::Obj(vec![
        ClaimEntry {
            key: "name".to_string(),
            value: ClaimValue::Str("Alice".to_string()),
        },
        ClaimEntry {
            key: "age".to_string(),
            value: ClaimValue::Int(-42),
        },
        ClaimEntry {
            key: "tags".to_string(),
            value: ClaimValue::Arr(vec![
                ClaimValue::Bool(true),
                ClaimValue::Null,
                ClaimValue::Int(9_007_199_254_740_993),
            ]),
        },
    ]);
    let mut out: Vec<char> = Vec::new();
    fortro_engine::codec::push_enc_value(&value, &mut out);
    let (parsed, end) = fortro_engine::codec::parse_value(&out, 0).expect("parse");
    assert_eq!(end, out.len());
    assert!(fortro_engine::value::values_equal(&parsed, &value));
    let mutated = ClaimValue::Int(7);
    assert!(!fortro_engine::value::values_equal(&parsed, &mutated));
}

#[test]
fn decimal_codec_round_trips() {
    for n in [0u64, 1, 9, 10, 12345, u64::MAX] {
        let mut out: Vec<char> = Vec::new();
        fortro_engine::codec::push_dec_u64(n, &mut out);
        let (v, end) = fortro_engine::codec::parse_num(&out, 0).expect("parse");
        assert_eq!(v, n);
        assert_eq!(end, out.len());
    }
    let text: Vec<char> = "18446744073709551616".chars().collect();
    assert!(fortro_engine::codec::parse_num(&text, 0).is_none());
}
