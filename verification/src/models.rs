//! The persistent entities of the credential and presentation lifecycles.
//!
//! Timestamps are Unix seconds.  Identifiers and the current time are
//! passed in by the caller, so every constructor is a pure function of
//! its arguments.

use vstd::prelude::*;

verus! {

use crate::value::ClaimEntry;

/// The lifecycle state of a credential: `Active` until revoked; `Expired`
/// is a view derived from the expiry timestamp, never a stored transition.
#[derive(Debug, Clone, Copy, PartialEq, Eq, Structural)]
pub enum CredentialStatus {
    Active,
    Revoked,
    Expired,
}

/// The lifecycle state of a credential request; transitions leave
/// `Pending` only.
#[derive(Debug, Clone, Copy, PartialEq, Eq, Structural)]
pub enum CredentialRequestStatus {
    Pending,
    Approved,
    Rejected,
    Issued,
}

/// The lifecycle state of a presentation.
#[derive(Debug, Clone, Copy, PartialEq, Eq, Structural)]
pub enum PresentationStatus {
    Pending,
    Verified,
    Rejected,
}

/// The comparison operators a predicate proof can assert.
#[derive(Debug, Clone, Copy, PartialEq, Eq, Structural)]
pub enum PredicateType {
    GreaterThanOrEqual,
    LessThanOrEqual,
    GreaterThan,
    LessThan,
    Equal,
    NotEqual,
}

/// How much access a consent grants.
#[derive(Debug, Clone, Copy, PartialEq, Eq, Structural)]
pub enum AccessLevel {
    ReadOnly,
    ReadWrite,
    FullAccess,
    OneTime,
}

/// How a consent expires.
#[derive(Debug, Clone, Copy, PartialEq, Eq, Structural)]
pub enum ExpirationPolicy {
    FixedDate,
    OneTimeUse,
    Indefinite,
}

/// The value kinds a schema attribute may require.
#[derive(Debug, Clone, Copy, PartialEq, Eq, Structural)]
pub enum AttributeDataType {
    String,
    Number,
    Boolean,
    Date,
    Object,
    Array,
}

/// A registered user: a DID and its public key.
pub struct User {
    pub did: String,
    pub public_key: String,
    pub name: Option<String>,
    pub email: Option<String>,
    pub created_at: i64,
    pub updated_at: i64,
}

impl User {
    /// Builds a user record created at `now`.
    pub fn new(did: String, public_key: String, now: i64) -> (r: User)
        ensures
            r.did@ == did@,
            r.public_key@ == public_key@,
            r.name is None,
            r.email is None,
            r.created_at == now,
            r.updated_at == now,
    {
        User { did, public_key, name: None, email: None, created_at: now, updated_at: now }
    }
}

/// An issued credential.
pub struct Credential {
    pub id: String,
    pub issuer_did: String,
    pub owner_did: String,
    pub credential_type: String,
    pub schema_id: String,
    pub credential_data: Vec<ClaimEntry>,
    pub ipfs_hash: Option<String>,
    pub blockchain_reference: Option<String>,
    pub jwt: String,
    pub status: CredentialStatus,
    pub created_at: i64,
    pub updated_at: i64,
    pub expires_at: Option<i64>,
}

impl Credential {
    /// Builds an active credential with the given identifier at `now`.
    pub fn new(
        id: String,
        issuer_did: String,
        owner_did: String,
        credential_type: String,
        schema_id: String,
        credential_data: Vec<ClaimEntry>,
        jwt: String,
        now: i64,
    ) -> (r: Credential)
        ensures
            r.id@ == id@,
            r.issuer_did@ == issuer_did@,
            r.owner_did@ == owner_did@,
            r.credential_type@ == credential_type@,
            r.schema_id@ == schema_id@,
            r.credential_data == credential_data,
            r.ipfs_hash is None,
            r.blockchain_reference is None,
            r.jwt@ == jwt@,
            r.status == CredentialStatus::Active,
            r.created_at == now,
            r.updated_at == now,
            r.expires_at is None,
    {
        Credential {
            id,
            issuer_did,
            owner_did,
            credential_type,
            schema_id,
            credential_data,
            ipfs_hash: None,
            blockchain_reference: None,
            jwt,
            status: CredentialStatus::Active,
            created_at: now,
            updated_at: now,
            expires_at: None,
        }
    }
}

/// A pending ask for issuance.
pub struct CredentialRequest {
    pub id: String,
    pub user_did: String,
    pub issuer_did: String,
    pub credential_type: String,
    pub schema_id: String,
    pub request_data: Vec<ClaimEntry>,
    pub status: CredentialRequestStatus,
    pub created_at: i64,
    pub updated_at: i64,
    pub processed_at: Option<i64>,
    pub credential_id: Option<String>,
}

impl CredentialRequest {
    /// Builds a pending request with the given identifier at `now`.
    pub fn new(
        id: String,
        user_did: String,
        issuer_did: String,
        credential_type: String,
        schema_id: String,
        request_data: Vec<ClaimEntry>,
        now: i64,
    ) -> (r: CredentialRequest)
        ensures
            r.id@ == id@,
            r.user_did@ == user_did@,
            r.issuer_did@ == issuer_did@,
            r.credential_type@ == credential_type@,
            r.schema_id@ == schema_id@,
            r.request_data == request_data,
            r.status == CredentialRequestStatus::Pending,
            r.created_at == now,
            r.updated_at == now,
            r.processed_at is None,
            r.credential_id is None,
    {
        CredentialRequest {
            id,
            user_did,
            issuer_did,
            credential_type,
            schema_id,
            request_data,
            status: CredentialRequestStatus::Pending,
            created_at: now,
            updated_at: now,
            processed_at: None,
            credential_id: None,
        }
    }
}

/// A submitted presentation.
pub struct Presentation {
    pub id: String,
    pub prover_did: String,
    pub verifier_did: String,
    pub presentation_type: String,
    pub credential_ids: Vec<String>,
    pub presentation_data: Vec<ClaimEntry>,
    pub jwt: String,
    pub status: PresentationStatus,
    pub created_at: i64,
    pub verified_at: Option<i64>,
    pub is_verified: bool,
}

impl Presentation {
    /// Builds a pending presentation with the given identifier at `now`.
    pub fn new(
        id: String,
        prover_did: String,
        verifier_did: String,
        presentation_type: String,
        credential_ids: Vec<String>,
        presentation_data: Vec<ClaimEntry>,
        jwt: String,
        now: i64,
    ) -> (r: Presentation)
        ensures
            r.id@ == id@,
            r.prover_did@ == prover_did@,
            r.verifier_did@ == verifier_did@,
            r.presentation_type@ == presentation_type@,
            r.credential_ids == credential_ids,
            r.presentation_data == presentation_data,
            r.jwt@ == jwt@,
            r.status == PresentationStatus::Pending,
            r.created_at == now,
            r.verified_at is None,
            r.is_verified == false,
    {
        Presentation {
            id,
            prover_did,
            verifier_did,
            presentation_type,
            credential_ids,
            presentation_data,
            jwt,
            status: PresentationStatus::Pending,
            created_at: now,
            verified_at: None,
            is_verified: false,
        }
    }
}

/// What a verifier requires of one credential in a presentation.
pub struct CredentialRequirement {
    pub credential_type: String,
    pub issuer_did: Option<String>,
    pub required_attributes: Vec<String>,
    pub predicate: Option<Predicate>,
}

/// A comparison a verifier asks to be proven about an attribute.
pub struct Predicate {
    pub attribute: String,
    pub predicate_type: PredicateType,
    pub value: i64,
}

/// A verifier's ask for a presentation.
pub struct PresentationRequest {
    pub id: String,
    pub verifier_did: String,
    pub presentation_type: String,
    pub required_credentials: Vec<CredentialRequirement>,
    pub purpose: String,
    pub callback_url: Option<String>,
    pub created_at: i64,
    pub expires_at: Option<i64>,
    pub schema_ids: Vec<String>,
    pub recipient_did: Option<String>,
}

impl PresentationRequest {
    /// Builds a presentation request with the given identifier at `now`.
    pub fn new(
        id: String,
        verifier_did: String,
        presentation_type: String,
        required_credentials: Vec<CredentialRequirement>,
        purpose: String,
        callback_url: Option<String>,
        expires_at: Option<i64>,
        now: i64,
    ) -> (r: PresentationRequest)
        ensures
            r.id@ == id@,
            r.verifier_did@ == verifier_did@,
            r.presentation_type@ == presentation_type@,
            r.purpose@ == purpose@,
            r.created_at == now,
            r.expires_at == expires_at,
            r.schema_ids@.len() == 0,
            r.recipient_did is None,
    {
        PresentationRequest {
            id,
            verifier_did,
            presentation_type,
            required_credentials,
            purpose,
            callback_url,
            created_at: now,
            expires_at,
            schema_ids: Vec::new(),
            recipient_did: None,
        }
    }
}

/// An issuer's offer of a credential.
pub struct CredentialOffer {
    pub id: String,
    pub issuer_did: String,
    pub credential_type: String,
    pub schema_id: String,
    pub preview: Vec<ClaimEntry>,
    pub created_at: i64,
    pub expires_at: Option<i64>,
    pub credential_id: String,
    pub recipient_did: Option<String>,
}

/// Authorization for a verifier to ask for a purpose-scoped disclosure.
pub struct ConsentRecord {
    pub id: String,
    pub user_did: String,
    pub verifier_did: String,
    pub purpose: String,
    pub data_categories: Vec<String>,
    pub access_level: AccessLevel,
    pub expiration_policy: ExpirationPolicy,
    pub created_at: i64,
    pub updated_at: i64,
    pub expires_at: Option<i64>,
    pub revoked: bool,
    pub revoked_at: Option<i64>,
}

impl ConsentRecord {
    /// Builds a live consent record with the given identifier at `now`.
    pub fn new(
        id: String,
        user_did: String,
        verifier_did: String,
        purpose: String,
        data_categories: Vec<String>,
        access_level: AccessLevel,
        expiration_policy: ExpirationPolicy,
        expires_at: Option<i64>,
        now: i64,
    ) -> (r: ConsentRecord)
        ensures
            r.id@ == id@,
            r.user_did@ == user_did@,
            r.verifier_did@ == verifier_did@,
            r.purpose@ == purpose@,
            r.access_level == access_level,
            r.expiration_policy == expiration_policy,
            r.created_at == now,
            r.updated_at == now,
            r.expires_at == expires_at,
            r.revoked == false,
            r.revoked_at is None,
    {
        ConsentRecord {
            id,
            user_did,
            verifier_did,
            purpose,
            data_categories,
            access_level,
            expiration_policy,
            created_at: now,
            updated_at: now,
            expires_at,
            revoked: false,
            revoked_at: None,
        }
    }

    /// A consent holds iff it is not revoked and has not expired at `now`.
    pub fn is_valid(&self, now: i64) -> (r: bool)
        ensures
            r == spec_consent_valid(self, now as int),
    {
        if self.revoked {
            return false;
        }
        match self.expires_at {
            Some(e) => e >= now,
            None => true,
        }
    }
}

/// A consent holds iff it is not revoked and has not expired.
pub open spec fn spec_consent_valid(c: &ConsentRecord, now: int) -> bool {
    &&& !c.revoked
    &&& (c.expires_at matches Some(e) ==> e >= now)
}

/// A named attribute a schema requires or allows.
pub struct SchemaAttribute {
    pub name: String,
    pub data_type: AttributeDataType,
    pub description: String,
    pub required: bool,
}

/// A schema: the attribute shapes an issuer commits to.
pub struct Schema {
    pub id: String,
    pub name: String,
    pub version: String,
    pub issuer_did: String,
    pub attributes: Vec<SchemaAttribute>,
    pub created_at: i64,
    pub updated_at: i64,
}

/// The uniform shape of a service answer: either a payload or an error.
pub struct ApiResponse<T> {
    pub success: bool,
    pub data: Option<T>,
    pub error: Option<String>,
}

impl<T> ApiResponse<T> {
    /// Wraps a payload as a successful answer.
    pub fn success(data: T) -> (r: ApiResponse<T>)
        ensures
            r.success == true,
            r.data == Some(data),
            r.error is None,
    {
        ApiResponse { success: true, data: Some(data), error: None }
    }

    /// Wraps an error message as a failed answer.
    pub fn error(error: String) -> (r: ApiResponse<T>)
        ensures
            r.success == false,
            r.data is None,
            r.error matches Some(e) && e@ == error@,
    {
        ApiResponse { success: false, data: None, error: Some(error) }
    }
}

} // verus!
