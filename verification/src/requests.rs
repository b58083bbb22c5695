//! The plain request shapes callers hand to the services.

use vstd::prelude::*;

verus! {

use crate::models::{AccessLevel, AttributeDataType, ExpirationPolicy, PresentationStatus};
use crate::value::ClaimEntry;
use crate::zk_proofs::PredicateProof;

/// Asks for a login challenge for a DID.
pub struct ChallengeRequest {
    pub did: String,
}

/// Answers a login challenge with a signature.
pub struct VerifyChallengeRequest {
    pub did: String,
    pub challenge: String,
    pub signature: String,
}

/// Logs a DID in with a signed challenge.
pub struct LoginRequest {
    pub did: String,
    pub signature: String,
    pub challenge: String,
}

/// Registers a DID with its public key.
pub struct RegisterRequest {
    pub did: String,
    pub public_key: String,
    pub name: Option<String>,
    pub email: Option<String>,
}

/// Asks for a DID, optionally derived from an existing private key.
pub struct GenerateDIDRequest {
    pub private_key: Option<String>,
}

/// Asks to verify a credential token.
pub struct VerifyCredentialRequest {
    pub credential_jwt: String,
}

/// Asks to revoke a credential.
pub struct RevokeCredentialRequest {
    pub credential_id: String,
    pub reason: Option<String>,
}

/// Asks to issue a credential.
pub struct IssueCredentialRequest {
    pub credential_type: String,
    pub schema_id: String,
    pub subject_did: String,
    pub attributes: Vec<ClaimEntry>,
    pub expiration_date: Option<i64>,
}

/// Registers an issuer.
pub struct CreateIssuerRequest {
    pub name: String,
    pub description: Option<String>,
    pub website: Option<String>,
    pub logo_url: Option<String>,
    pub public_key: String,
}

/// Approves or rejects a pending credential request.
pub struct ProcessCredentialRequestRequest {
    pub request_id: String,
    pub approve: bool,
    pub reason: Option<String>,
}

/// Submits a presentation against a presentation request.
pub struct SubmitPresentationRequest {
    pub presentation_request_id: String,
    pub credential_ids: Vec<String>,
    pub disclosed_attributes: Vec<(String, Vec<String>)>,
    pub predicate_proofs: Vec<PredicateProof>,
}

/// Asks to verify a presentation token.
pub struct VerifyPresentationRequest {
    pub presentation_jwt: String,
}

/// Sets the status of a presentation.
pub struct UpdatePresentationStatusRequest {
    pub verifier_did: String,
    pub status: PresentationStatus,
}

/// Registers a schema.
pub struct CreateSchemaRequest {
    pub name: String,
    pub version: String,
    pub attributes: Vec<SchemaAttributeRequest>,
}

/// One attribute of a schema being registered.
pub struct SchemaAttributeRequest {
    pub name: String,
    pub data_type: AttributeDataType,
    pub description: String,
    pub required: bool,
}

/// Asks to validate credential data against a schema.
pub struct ValidateCredentialRequest {
    pub schema_id: String,
    pub credential_data: Vec<ClaimEntry>,
}

/// The outcome of validating credential data against a schema.
pub struct ValidationResult {
    pub is_valid: bool,
    pub errors: Vec<String>,
}

/// Changes a user's profile fields.
pub struct UpdateProfileRequest {
    pub name: Option<String>,
    pub email: Option<String>,
}

/// Creates a wallet.
pub struct CreateWalletRequest {
    pub name: Option<String>,
    pub email: Option<String>,
}

/// Imports a credential token into a wallet.
pub struct ImportCredentialRequest {
    pub credential_jwt: String,
}

/// Grants a verifier consent for a purpose.
pub struct GrantConsentRequest {
    pub verifier_did: String,
    pub purpose: String,
    pub data_categories: Vec<String>,
    pub access_level: AccessLevel,
    pub expiration_policy: ExpirationPolicy,
    pub expires_at: Option<i64>,
}

/// Asks whether a verifier holds consent from a user for a purpose.
pub struct CheckConsentRequest {
    pub verifier_did: String,
    pub user_did: String,
    pub purpose: String,
}

/// Hands scanned QR content to the wallet.
pub struct ScanQrCodeRequest {
    pub qr_data: String,
}

/// Asks for an encrypted wallet backup.
pub struct BackupWalletRequest {
    pub password: String,
}

/// Restores a wallet from an encrypted backup.
pub struct RestoreWalletRequest {
    pub backup_data: String,
    pub password: String,
}

/// Asks for a credential-offer code.
pub struct CredentialOfferQrRequest {
    pub credential_id: String,
    pub recipient_did: Option<String>,
}

/// Asks for a presentation-request code (issuer side).
pub struct PresentationRequestQrRequest {
    pub schema_ids: Vec<String>,
    pub purpose: String,
    pub recipient_did: Option<String>,
}

/// Asks for a credential-offer short link.
pub struct CredentialOfferRequest {
    pub issuer_did: String,
    pub credential_id: String,
    pub recipient_did: Option<String>,
}

/// Asks for a presentation-request short link.
pub struct PresentationRequestRequest {
    pub verifier_did: String,
    pub schema_ids: Vec<String>,
    pub purpose: String,
    pub recipient_did: Option<String>,
}

/// What a scanned code carries.
#[derive(Debug, Clone, Copy, PartialEq, Eq, Structural)]
pub enum QrCodeType {
    CredentialOffer,
    PresentationRequest,
    ConnectionInvitation,
}

/// Aggregate numbers over a wallet's holdings.
pub struct WalletStatistics {
    pub total_credentials: usize,
    pub active_credentials: usize,
    pub expired_credentials: usize,
    pub revoked_credentials: usize,
    pub total_presentations: usize,
    pub active_consents: usize,
}

/// Process configuration, read by the embedding program.
pub struct Config {
    pub mongodb_uri: String,
    pub ipfs_api_url: String,
    pub ethereum_rpc_url: String,
    pub port: u16,
    pub jwt_expiration: u64,
    pub issuer_did: String,
    pub issuer_private_key: String,
    pub jwt_secret: String,
    pub cors_allowed_origins: Option<Vec<String>>,
    pub registry_address: Option<String>,
}

} // verus!
