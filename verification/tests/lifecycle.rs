//! The credential and presentation lifecycles, the registry, and schema
//! validation.

use fortro_engine::credential::CredentialService;
use fortro_engine::issuer::IssuerService;
use fortro_engine::models::{CredentialRequest, CredentialRequestStatus};
use fortro_engine::did::generate_did;
use fortro_engine::errors::AppError;
use fortro_engine::models::{
    AccessLevel, AttributeDataType, ConsentRecord, CredentialStatus, ExpirationPolicy,
    PresentationRequest, PresentationStatus,
};
use fortro_engine::presentation::PresentationService;
use fortro_engine::registry::RevocationRegistry;
use fortro_engine::requests::{
    CreateSchemaRequest, CreateWalletRequest, GrantConsentRequest, ImportCredentialRequest,
    IssueCredentialRequest, SchemaAttributeRequest, SubmitPresentationRequest,
    ValidateCredentialRequest, VerifyCredentialRequest, VerifyPresentationRequest,
};
use fortro_engine::wallet::WalletService;
use fortro_engine::schema::SchemaService;
use fortro_engine::value::{ClaimEntry, ClaimValue};

const NOW: i64 = 1_700_000_000;

/// The wall clock, some margin past any token the services just stamped.
fn safely_after_now() -> i64 {
    let secs = std::time::SystemTime::now()
        .duration_since(std::time::UNIX_EPOCH)
        .unwrap()
        .as_secs() as i64;
    secs + 300
}

fn age_attrs(age: i64) -> Vec<ClaimEntry> {
    vec![ClaimEntry {
        key: "age".to_string(),
        value: ClaimValue::Int(age),
    }]
}

fn issue_request(subject: &str, age: i64) -> IssueCredentialRequest {
    IssueCredentialRequest {
        credential_type: "IdentityCredential".to_string(),
        schema_id: "schema-1".to_string(),
        subject_did: subject.to_string(),
        attributes: age_attrs(age),
        expiration_date: None,
    }
}

#[test]
fn end_to_end_issue_verify_revoke() {
    let now = safely_after_now();
    let issuer = generate_did().unwrap();
    let issuer_key = issuer.private_key_base58.clone().unwrap();
    let mut service = CredentialService::new();

    let resp = service
        .issue_credential_with_key(&issuer.did, &issuer_key, &issue_request("did:alyra:Sub1", 30), now)
        .expect("issuance");
    assert_eq!(resp.credential.status, CredentialStatus::Active);
    assert_eq!(resp.credential.owner_did, "did:alyra:Sub1");

    let verify_req = VerifyCredentialRequest {
        credential_jwt: resp.jwt.clone(),
    };
    let result = service.verify_credential_at(&verify_req, now);
    assert!(result.is_valid);
    assert!(!result.is_expired);
    assert!(!result.is_revoked);
    assert!(result.errors.is_empty());
    assert_eq!(result.issuer_did, issuer.did);
    assert_eq!(result.subject_did, "did:alyra:Sub1");

    let revoked = service
        .revoke_credential(&issuer.did, &resp.credential.id, now + 10)
        .expect("revocation");
    assert_eq!(revoked.status, CredentialStatus::Revoked);

    let after = service.verify_credential_at(&verify_req, now);
    assert!(!after.is_valid);
    assert!(after.is_revoked);
    assert!(after.errors.iter().any(|e| e.contains("revoked")));
}

#[test]
fn revocation_is_terminal() {
    let now = safely_after_now();
    let issuer = generate_did().unwrap();
    let issuer_key = issuer.private_key_base58.clone().unwrap();
    let mut service = CredentialService::new();
    let resp = service
        .issue_credential_with_key(&issuer.did, &issuer_key, &issue_request("did:alyra:Sub1", 21), now)
        .unwrap();
    service
        .revoke_credential(&issuer.did, &resp.credential.id, now)
        .unwrap();
    assert!(matches!(
        service.revoke_credential(&issuer.did, &resp.credential.id, now + 1),
        Err(AppError::ValidationError(_))
    ));
}

#[test]
fn only_issuer_revokes_and_only_owner_deletes() {
    let now = safely_after_now();
    let issuer = generate_did().unwrap();
    let issuer_key = issuer.private_key_base58.clone().unwrap();
    let mut service = CredentialService::new();
    let resp = service
        .issue_credential_with_key(&issuer.did, &issuer_key, &issue_request("did:alyra:Sub1", 21), now)
        .unwrap();
    assert!(matches!(
        service.revoke_credential("did:alyra:Mallory", &resp.credential.id, now),
        Err(AppError::AccessDenied(_))
    ));
    assert!(matches!(
        service.delete_credential("did:alyra:Mallory", &resp.credential.id),
        Err(AppError::AccessDenied(_))
    ));
    assert!(matches!(
        service.revoke_credential(&issuer.did, "no-such-id", now),
        Err(AppError::NotFound(_))
    ));
    assert_eq!(
        service
            .delete_credential("did:alyra:Sub1", &resp.credential.id)
            .unwrap(),
        true
    );
    assert!(service
        .get_credential_by_id(&resp.credential.id)
        .unwrap()
        .is_none());
}

#[test]
fn issuance_rejects_bad_dids_and_keys() {
    let mut service = CredentialService::new();
    assert!(matches!(
        service.issue_credential_with_key("did:web:x", "k", &issue_request("did:alyra:S", 1), NOW),
        Err(AppError::ValidationError(_))
    ));
    assert!(matches!(
        service.issue_credential_with_key(
            "did:alyra:I",
            "k",
            &issue_request("did:web:S", 1),
            NOW
        ),
        Err(AppError::ValidationError(_))
    ));
    assert!(matches!(
        service.issue_credential_with_key(
            "did:alyra:I",
            "tooshort",
            &issue_request("did:alyra:S", 1),
            NOW
        ),
        Err(AppError::CryptoError(_))
    ));
}

#[test]
fn presentation_aggregates_findings() {
    let now = safely_after_now();
    let issuer = generate_did().unwrap();
    let issuer_key = issuer.private_key_base58.clone().unwrap();
    let prover = generate_did().unwrap();
    let prover_key = prover.private_key_base58.clone().unwrap();

    let mut creds = CredentialService::new();
    let good = creds
        .issue_credential_with_key(&issuer.did, &issuer_key, &issue_request(&prover.did, 30), now)
        .unwrap();
    let bad = creds
        .issue_credential_with_key(&issuer.did, &issuer_key, &issue_request(&prover.did, 17), now)
        .unwrap();

    let mut presentations = PresentationService::new(creds);
    let request = PresentationRequest::new(
        "request-1".to_string(),
        "did:alyra:Verifier1".to_string(),
        "AgePresentation".to_string(),
        Vec::new(),
        "age check".to_string(),
        None,
        None,
        now,
    );
    presentations.add_presentation_request(request);

    let submit = SubmitPresentationRequest {
        presentation_request_id: "request-1".to_string(),
        credential_ids: vec![good.credential.id.clone(), bad.credential.id.clone()],
        disclosed_attributes: vec![
            (good.credential.id.clone(), vec!["age".to_string()]),
            (bad.credential.id.clone(), vec!["age".to_string()]),
        ],
        predicate_proofs: Vec::new(),
    };
    let presented = presentations
        .submit_presentation(&prover.did, &prover_key, &submit, now)
        .expect("submission");
    assert_eq!(presented.presentation.status, PresentationStatus::Pending);

    // Before any revocation the bundle verifies.
    let verify_req = VerifyPresentationRequest {
        presentation_jwt: presented.jwt.clone(),
    };
    let clean = presentations.verify_presentation_at(&verify_req, now);
    assert!(clean.is_valid, "findings: {:?}", clean.errors);
    assert_eq!(clean.prover_did, prover.did);
    assert_eq!(clean.credential_subjects.len(), 2);

    // Revoke one embedded credential: the bundle must no longer verify,
    // while the valid credential's subject attributes are still returned.
    presentations
        .credential_service
        .revoke_credential(&issuer.did, &bad.credential.id, now)
        .unwrap();
    let mixed = presentations.verify_presentation_at(&verify_req, now);
    assert!(!mixed.is_valid);
    assert!(!mixed.errors.is_empty());
    assert!(mixed.credential_subjects.len() >= 1);
    let has_age_30 = mixed.credential_subjects.iter().any(|subject| {
        subject.iter().any(|entry| {
            entry.key == "claims"
                && match &entry.value {
                    ClaimValue::Obj(inner) => inner
                        .iter()
                        .any(|e| e.key == "age" && matches!(e.value, ClaimValue::Int(30))),
                    _ => false,
                }
        })
    });
    assert!(has_age_30);

    // Only the verifier may settle the presentation's status.
    assert!(matches!(
        presentations.update_presentation_status(
            &presented.presentation.id,
            "did:alyra:Nobody",
            PresentationStatus::Verified,
            now
        ),
        Err(AppError::AccessDenied(_))
    ));
    assert_eq!(
        presentations
            .update_presentation_status(
                &presented.presentation.id,
                "did:alyra:Verifier1",
                PresentationStatus::Verified,
                now
            )
            .unwrap(),
        true
    );
    let stored = presentations
        .get_presentation_by_id(&presented.presentation.id)
        .unwrap()
        .unwrap();
    assert_eq!(stored.status, PresentationStatus::Verified);
    assert!(stored.is_verified);
}

#[test]
fn submitting_against_missing_or_expired_request_fails() {
    let now = safely_after_now();
    let prover = generate_did().unwrap();
    let prover_key = prover.private_key_base58.clone().unwrap();
    let mut presentations = PresentationService::new(CredentialService::new());
    let submit = SubmitPresentationRequest {
        presentation_request_id: "absent".to_string(),
        credential_ids: Vec::new(),
        disclosed_attributes: Vec::new(),
        predicate_proofs: Vec::new(),
    };
    assert!(matches!(
        presentations.submit_presentation(&prover.did, &prover_key, &submit, now),
        Err(AppError::NotFound(_))
    ));

    let stale = PresentationRequest::new(
        "stale".to_string(),
        "did:alyra:V".to_string(),
        "T".to_string(),
        Vec::new(),
        "p".to_string(),
        None,
        Some(now - 1),
        now - 100,
    );
    presentations.add_presentation_request(stale);
    let submit_stale = SubmitPresentationRequest {
        presentation_request_id: "stale".to_string(),
        credential_ids: Vec::new(),
        disclosed_attributes: Vec::new(),
        predicate_proofs: Vec::new(),
    };
    assert!(matches!(
        presentations.submit_presentation(&prover.did, &prover_key, &submit_stale, now),
        Err(AppError::ValidationError(_))
    ));
}

#[test]
fn registry_register_revoke_query() {
    let mut registry = RevocationRegistry::new();
    assert!(!registry.is_valid("did:alyra:I", "h1"));
    registry.register("did:alyra:I", "h1", "ref-0");
    assert!(registry.is_valid("did:alyra:I", "h1"));
    assert!(!registry.is_valid("did:alyra:I", "h2"));
    assert!(!registry.is_valid("did:alyra:J", "h1"));
    registry.revoke("did:alyra:I", "h1").unwrap();
    assert!(!registry.is_valid("did:alyra:I", "h1"));
    assert!(matches!(
        registry.revoke("did:alyra:I", "h2"),
        Err(AppError::RegistryError(_))
    ));
}

#[test]
fn schema_validation_reports_every_finding() {
    let mut schemas = SchemaService::new();
    let schema = schemas
        .create_schema(
            "did:alyra:I",
            CreateSchemaRequest {
                name: "person".to_string(),
                version: "1".to_string(),
                attributes: vec![
                    SchemaAttributeRequest {
                        name: "name".to_string(),
                        data_type: AttributeDataType::String,
                        description: "full name".to_string(),
                        required: true,
                    },
                    SchemaAttributeRequest {
                        name: "age".to_string(),
                        data_type: AttributeDataType::Number,
                        description: "age in years".to_string(),
                        required: false,
                    },
                    SchemaAttributeRequest {
                        name: "born".to_string(),
                        data_type: AttributeDataType::Date,
                        description: "birth date".to_string(),
                        required: false,
                    },
                ],
            },
            NOW,
        )
        .unwrap();
    assert_eq!(schema.id, "did:alyra:I:person:1");

    let ok = schemas
        .validate_credential(&ValidateCredentialRequest {
            schema_id: schema.id.clone(),
            credential_data: vec![
                ClaimEntry {
                    key: "name".to_string(),
                    value: ClaimValue::Str("Alice".to_string()),
                },
                ClaimEntry {
                    key: "age".to_string(),
                    value: ClaimValue::Int(30),
                },
                ClaimEntry {
                    key: "born".to_string(),
                    value: ClaimValue::Str("1994-04-01T00:00:00Z".to_string()),
                },
            ],
        })
        .unwrap();
    assert!(ok.is_valid, "findings: {:?}", ok.errors);

    let findings = schemas
        .validate_credential(&ValidateCredentialRequest {
            schema_id: schema.id.clone(),
            credential_data: vec![
                ClaimEntry {
                    key: "age".to_string(),
                    value: ClaimValue::Str("thirty".to_string()),
                },
                ClaimEntry {
                    key: "born".to_string(),
                    value: ClaimValue::Str("yesterday".to_string()),
                },
                ClaimEntry {
                    key: "extra".to_string(),
                    value: ClaimValue::Null,
                },
            ],
        })
        .unwrap();
    assert!(!findings.is_valid);
    assert_eq!(findings.errors.len(), 4);

    assert!(matches!(
        schemas.validate_credential(&ValidateCredentialRequest {
            schema_id: "absent".to_string(),
            credential_data: Vec::new(),
        }),
        Err(AppError::NotFound(_))
    ));
}

#[test]
fn consent_validity_follows_revocation_and_expiry() {
    let consent = ConsentRecord::new(
        "consent-1".to_string(),
        "did:alyra:U".to_string(),
        "did:alyra:V".to_string(),
        "age check".to_string(),
        vec!["identity".to_string()],
        AccessLevel::ReadOnly,
        ExpirationPolicy::FixedDate,
        Some(NOW + 100),
        NOW,
    );
    assert!(consent.is_valid(NOW));
    assert!(!consent.is_valid(NOW + 101));
    let mut revoked = consent;
    revoked.revoked = true;
    assert!(!revoked.is_valid(NOW));
}

#[test]
fn credential_requests_leave_pending_only_once() {
    let now = safely_after_now();
    let issuer = generate_did().unwrap();
    let issuer_key = issuer.private_key_base58.clone().unwrap();
    let mut service = IssuerService::new(CredentialService::new());
    let request = CredentialRequest::new(
        "req-1".to_string(),
        "did:alyra:Sub1".to_string(),
        issuer.did.clone(),
        "IdentityCredential".to_string(),
        "schema-1".to_string(),
        age_attrs(28),
        now,
    );
    service.add_credential_request(request);

    assert!(matches!(
        service.approve_credential_request("did:alyra:Mallory", &issuer_key, "req-1", now),
        Err(AppError::AccessDenied(_))
    ));
    let approved = service
        .approve_credential_request(&issuer.did, &issuer_key, "req-1", now)
        .expect("approval");
    assert_eq!(approved.status, CredentialRequestStatus::Issued);
    let credential_id = approved.credential_id.expect("issued credential id");
    assert!(service
        .credential_service
        .get_credential_by_id(&credential_id)
        .unwrap()
        .is_some());

    // Transitions leave Pending only: a processed request cannot change.
    assert!(matches!(
        service.reject_credential_request(&issuer.did, &issuer_key, "req-1", now),
        Err(AppError::ValidationError(_))
    ));
    assert!(matches!(
        service.approve_credential_request(&issuer.did, &issuer_key, "absent", now),
        Err(AppError::NotFound(_))
    ));
}

#[test]
fn wallet_statistics_count_by_owner_and_status() {
    let now = safely_after_now();
    let issuer = generate_did().unwrap();
    let issuer_key = issuer.private_key_base58.clone().unwrap();
    let holder = generate_did().unwrap();

    let mut creds = CredentialService::new();
    let kept = creds
        .issue_credential_with_key(&issuer.did, &issuer_key, &issue_request(&holder.did, 30), now)
        .unwrap();
    let dropped = creds
        .issue_credential_with_key(&issuer.did, &issuer_key, &issue_request(&holder.did, 40), now)
        .unwrap();
    creds
        .issue_credential_with_key(&issuer.did, &issuer_key, &issue_request("did:alyra:Other", 50), now)
        .unwrap();
    creds
        .revoke_credential(&issuer.did, &dropped.credential.id, now)
        .unwrap();

    let mut wallet = WalletService::new(PresentationService::new(creds));
    let created = wallet
        .create_wallet(&CreateWalletRequest {
            name: Some("Holder".to_string()),
            email: None,
        })
        .unwrap();
    assert!(created.did.starts_with("did:alyra:"));

    let consent = wallet.grant_consent(
        &holder.did,
        GrantConsentRequest {
            verifier_did: "did:alyra:Verifier1".to_string(),
            purpose: "age check".to_string(),
            data_categories: vec!["identity".to_string()],
            access_level: AccessLevel::ReadOnly,
            expiration_policy: ExpirationPolicy::Indefinite,
            expires_at: None,
        },
        now,
    );

    let stats = wallet.get_wallet_statistics(&holder.did, now);
    assert_eq!(stats.total_credentials, 2);
    assert_eq!(stats.active_credentials, 1);
    assert_eq!(stats.revoked_credentials, 1);
    assert_eq!(stats.expired_credentials, 0);
    assert_eq!(stats.total_presentations, 0);
    assert_eq!(stats.active_consents, 1);

    wallet.revoke_consent(&holder.did, &consent.id, now).unwrap();
    let after = wallet.get_wallet_statistics(&holder.did, now);
    assert_eq!(after.active_consents, 0);

    // An imported token lands in the wallet's credential store.
    let import = wallet
        .import_credential(
            &holder.did,
            &ImportCredentialRequest {
                credential_jwt: kept.jwt.clone(),
            },
            now,
        )
        .unwrap();
    assert_eq!(import.owner_did, holder.did);
    let grown = wallet.get_wallet_statistics(&holder.did, now);
    assert_eq!(grown.total_credentials, 3);

    // A tampered token is not importable.
    assert!(wallet
        .import_credential(
            &holder.did,
            &ImportCredentialRequest {
                credential_jwt: "a.b.c".to_string(),
            },
            now,
        )
        .is_err());
}
