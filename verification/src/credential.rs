//! The credential lifecycle: issue, verify, revoke, delete, and the
//! disclosure entry points, over an explicit store and revocation
//! registry.

use vstd::prelude::*;

verus! {

use crate::crypto::{
    DLM_KEYPAIRBYTES, DLM_PUBLICKEYBYTES, DLM_SECRETKEYBYTES, b58_dec_of, bs58_decode, encrypt,
    generate_key, hash_to_hex, hex_of, new_uuid, now_ts, range_proof_ok, sha256_of,
};
use crate::codec::{chars_to_string, dec_of, parse_num, push_dec_u64, push_enc_value, sp_num};
use crate::did::{spec_validate_did, validate_did};
use crate::errors::AppError;
use crate::jwt::{
    VOut, create_pq_credential_jwt, spec_credential_token_shape, spec_saturating_add,
    spec_verify_token, verify_pq_jwt_at,
};
use crate::models::{Credential, CredentialStatus};
use crate::registry::{RegistryEntry, RevocationRegistry, spec_reg_valid, spec_registered};
use crate::requests::{IssueCredentialRequest, VerifyCredentialRequest};
use crate::value::{
    ClaimEntry, ClaimValue, ValueV, clone_entries, entries_v, lookup_entry,
    spec_lookup, str_eq,
};
use crate::zk_proofs::{
    PredicateProof, create_predicate_proof, create_selective_disclosure, spec_predicate_holds,
    spec_transform,
};
use vstd::utf8::encode_utf8;

/// What credential verification reports: overall validity, every finding,
/// and the fields read from the token.
pub struct VerificationResult {
    pub is_valid: bool,
    pub errors: Vec<String>,
    pub subject_did: String,
    pub issuer_did: String,
    pub credential_type: String,
    pub issuance_date: i64,
    pub expiration_date: Option<i64>,
    pub is_expired: bool,
    pub is_revoked: bool,
}

/// An issued credential together with its signed token.
pub struct CredentialResponse {
    pub credential: Credential,
    pub jwt: String,
}

/// The credential lifecycle component: the issued credentials, the
/// revocation registry they are anchored in, and the encrypted attribute
/// payloads.
pub struct CredentialService {
    pub credentials: Vec<Credential>,
    pub registry: RevocationRegistry,
    pub blobs: Vec<Vec<u8>>,
}

/// Looks a value up in an object; anything but an object holds nothing.
pub open spec fn obj_lookup(v: ValueV, key: Seq<char>) -> Option<ValueV> {
    match v {
        ValueV::Obj(es) => spec_lookup(es, key),
        _ => None,
    }
}

/// The string carried by the value, or the empty string.
pub open spec fn str_or_empty(o: Option<ValueV>) -> Seq<char> {
    match o {
        Some(ValueV::Str(s)) => s,
        _ => Seq::empty(),
    }
}

/// The issuer a `vc` structure names.
pub open spec fn vc_issuer(vc: ValueV) -> Seq<char> {
    str_or_empty(obj_lookup(vc, "issuer"@))
}

/// The subject a `vc` structure names.
pub open spec fn vc_subject(vc: ValueV) -> Seq<char> {
    match obj_lookup(vc, "credentialSubject"@) {
        Some(cs) => str_or_empty(obj_lookup(cs, "id"@)),
        None => Seq::empty(),
    }
}

/// The expiry a `vc` structure carries, if any.
pub open spec fn vc_expiration(vc: ValueV) -> Option<int> {
    match obj_lookup(vc, "expirationDate"@) {
        Some(ValueV::Int(e)) => Some(e),
        _ => None,
    }
}

/// Whether the `vc` structure carries a readable issuance time.
pub open spec fn vc_issuance(vc: ValueV) -> Option<int> {
    match obj_lookup(vc, "issuanceDate"@) {
        Some(ValueV::Int(i)) => Some(i),
        _ => None,
    }
}

/// The `vc` structure of a token that verifies at `now`, if any.
pub open spec fn spec_vc_of_token(s: Seq<char>, now: int) -> Option<ValueV> {
    match spec_verify_token(s, now) {
        VOut::Good(h, c) => spec_lookup(c.additional, "vc"@),
        _ => None,
    }
}

/// The overall verdict of checking a credential token against a registry
/// at time `now`: the token verifies and carries a `vc` whose expiry has
/// not passed, whose issuer's anchor for this token still stands, and
/// whose issuance time is readable.
pub open spec fn spec_credential_ok(reg: Seq<RegistryEntry>, token: Seq<char>, now: int) -> bool {
    match spec_vc_of_token(token, now) {
        Some(vc) => {
            &&& !(vc_expiration(vc) matches Some(e) && e < now)
            &&& spec_reg_valid(reg, vc_issuer(vc), spec_token_hash(token))
            &&& vc_issuance(vc) is Some
        },
        None => false,
    }
}

/// What a verification report must say of a token checked against a
/// registry at time `now`.
pub open spec fn spec_credential_report(
    reg: Seq<RegistryEntry>,
    jwt: Seq<char>,
    now: int,
    r: VerificationResult,
) -> bool {
    &&& r.is_valid == spec_credential_ok(reg, jwt, now)
    &&& (r.is_valid <==> r.errors@.len() == 0)
    &&& (spec_vc_of_token(jwt, now) is None ==> !r.is_valid && r.errors@.len() == 1
        && !r.is_revoked && !r.is_expired && r.subject_did@ == Seq::<char>::empty()
        && r.issuer_did@ == Seq::<char>::empty() && r.credential_type@ == Seq::<char>::empty()
        && r.issuance_date == now && r.expiration_date is None)
    &&& (spec_vc_of_token(jwt, now) matches Some(vc) ==> {
        &&& r.issuer_did@ == vc_issuer(vc)
        &&& r.subject_did@ == vc_subject(vc)
        &&& r.expiration_date == match vc_expiration(vc) {
            Some(e) => if i64::MIN <= e <= i64::MAX {
                Some(e as i64)
            } else {
                None
            },
            None => None,
        }
        &&& r.is_expired == (vc_expiration(vc) matches Some(e) && e < now)
        &&& r.is_revoked == !spec_reg_valid(reg, vc_issuer(vc), spec_token_hash(jwt))
        &&& r.is_valid == (!r.is_expired && !r.is_revoked && vc_issuance(vc) is Some)
    })
}

/// The numeric reading of an attribute value, when it has one: a
/// non-negative integer, or a string that is wholly a decimal number
/// fitting an unsigned machine word.
pub open spec fn spec_attr_number(v: ValueV) -> Option<int> {
    match v {
        ValueV::Int(i) => if i >= 0 {
            Some(i)
        } else {
            None
        },
        ValueV::Str(s) => match sp_num(s, 0) {
            Some((n, e)) => if e == s.len() && n <= u64::MAX {
                Some(n as int)
            } else {
                None
            },
            None => None,
        },
        _ => None,
    }
}

/// The signing duration implied by an absolute expiry at issuance time.
pub open spec fn spec_issue_ttl(expiration_date: Option<i64>, now: int) -> Option<int> {
    match expiration_date {
        Some(d) => Some(spec_saturating_add(d as int, -now)),
        None => None,
    }
}

/// What issuance must say: the error of each rejected input, and, on
/// success, the stored record, the registry anchor, the storage
/// reference, and that the returned token is the credential token for the
/// request's fields under the decoded key pair.
pub open spec fn spec_issue_report(
    old_self: CredentialService,
    new_self: CredentialService,
    issuer: Seq<char>,
    key: Seq<char>,
    request: IssueCredentialRequest,
    now: int,
    r: Result<CredentialResponse, AppError>,
) -> bool {
    &&& (!spec_validate_did(issuer) ==> (r matches Err(AppError::ValidationError(_))))
    &&& (spec_validate_did(issuer) && !spec_validate_did(request.subject_did@) ==> (r matches Err(
        AppError::ValidationError(_),
    )))
    &&& (spec_validate_did(issuer) && spec_validate_did(request.subject_did@) && !(b58_dec_of(key)
        matches Some(sk) && sk.len() == DLM_KEYPAIRBYTES) ==> (r matches Err(
        AppError::CryptoError(_),
    )))
    &&& (spec_validate_did(issuer) && spec_validate_did(request.subject_did@) && (b58_dec_of(key)
        matches Some(sk) && sk.len() == DLM_KEYPAIRBYTES) ==> (r is Ok || (r matches Err(
        AppError::CryptoError(_),
    ))))
    &&& (r matches Ok(resp) ==> {
        &&& resp.credential.issuer_did@ == issuer
        &&& resp.credential.owner_did@ == request.subject_did@
        &&& resp.credential.credential_type@ == request.credential_type@
        &&& resp.credential.schema_id@ == request.schema_id@
        &&& entries_v(resp.credential.credential_data@) == entries_v(request.attributes@)
        &&& resp.credential.status == CredentialStatus::Active
        &&& resp.credential.jwt@ == resp.jwt@
        &&& resp.credential.created_at == now
        &&& resp.credential.expires_at == request.expiration_date
        &&& (resp.credential.ipfs_hash matches Some(sref) && sref@ == dec_of(
            old_self.blobs@.len() as nat,
        ))
        &&& new_self.blobs@.len() == old_self.blobs@.len() + 1
        &&& spec_reg_valid(new_self.registry.entries@, issuer, spec_token_hash(resp.jwt@))
        &&& new_self.credentials@.len() == old_self.credentials@.len() + 1
        &&& new_self.credentials@.last().id@ == resp.credential.id@
        &&& new_self.credentials@.last().status == CredentialStatus::Active
        &&& new_self.credentials@.last().issuer_did@ == issuer
        &&& new_self.credentials@.last().owner_did@ == request.subject_did@
        &&& new_self.credentials@.last().jwt@ == resp.jwt@
        &&& (forall|i: int|
            0 <= i < old_self.credentials@.len() ==> new_self.credentials@[i]
                == old_self.credentials@[i])
        &&& exists|now2: int, jti: Seq<char>|
            #[trigger] spec_credential_token_shape(
                issuer,
                request.subject_did@,
                entries_v(request.attributes@),
                b58_dec_of(key)->Some_0.skip(DLM_SECRETKEYBYTES as int),
                b58_dec_of(key)->Some_0.take(DLM_SECRETKEYBYTES as int),
                resp.jwt@,
                now2,
                jti,
                spec_issue_ttl(request.expiration_date, now),
            )
    })
    &&& (r is Err ==> new_self.credentials@ == old_self.credentials@ && new_self.registry.entries@
        == old_self.registry.entries@ && new_self.blobs@ == old_self.blobs@)
}

/// The index of the first credential with the given identifier.
pub open spec fn spec_find_credential(creds: Seq<Credential>, id: Seq<char>) -> Option<int> {
    spec_find_credential_from(creds, id, 0)
}

/// The index of the first credential with the identifier, at or after
/// `from`.
pub open spec fn spec_find_credential_from(
    creds: Seq<Credential>,
    id: Seq<char>,
    from: int,
) -> Option<int>
    decreases creds.len() - from,
{
    if 0 <= from < creds.len() {
        if creds[from].id@ == id {
            Some(from)
        } else {
            spec_find_credential_from(creds, id, from + 1)
        }
    } else {
        None
    }
}

/// A found index lies in range and carries the identifier.
pub proof fn lemma_find_credential_props(creds: Seq<Credential>, id: Seq<char>, from: int)
    ensures
        spec_find_credential_from(creds, id, from) matches Some(i) ==> from <= i < creds.len()
            && creds[i].id@ == id,
    decreases creds.len() - from,
{
    if 0 <= from < creds.len() && creds[from].id@ != id {
        lemma_find_credential_props(creds, id, from + 1);
    }
}

/// The digest reference under which a token is anchored: the hex form of
/// the digest of its text.
pub open spec fn spec_token_hash(token: Seq<char>) -> Seq<char> {
    hex_of(sha256_of(encode_utf8(token)))
}

/// A token issued for a generated identity verifies: when the base58
/// key pair signs correctly (as `generate_did` guarantees), a credential
/// token with the issuance shape verifies back to its header and claims
/// at any time inside its validity window.
pub proof fn lemma_issued_token_verifies(
    issuer: Seq<char>,
    subject: Seq<char>,
    attrs: Seq<(Seq<char>, ValueV)>,
    pk_b58: Seq<char>,
    key_b58: Seq<char>,
    t: Seq<char>,
    now0: int,
    jti: Seq<char>,
    ttl: Option<int>,
    now: int,
)
    requires
        crate::did::spec_signing_pair(pk_b58, key_b58),
        spec_credential_token_shape(
            issuer,
            subject,
            attrs,
            b58_dec_of(key_b58)->Some_0.skip(DLM_SECRETKEYBYTES as int),
            b58_dec_of(key_b58)->Some_0.take(DLM_SECRETKEYBYTES as int),
            t,
            now0,
            jti,
            ttl,
        ),
        ({
            let exp = match ttl {
                Some(secs) => Some(crate::jwt::spec_saturating_add(now0, secs)),
                None => None,
            };
            !(exp matches Some(e) && e < now)
        }),
        now0 <= now,
    ensures
        ({
            let exp = match ttl {
                Some(secs) => Some(crate::jwt::spec_saturating_add(now0, secs)),
                None => None,
            };
            spec_verify_token(t, now) == crate::jwt::VOut::Good(
                crate::jwt::spec_pq_header(issuer),
                crate::jwt::spec_credential_claims(
                    issuer,
                    subject,
                    attrs,
                    b58_dec_of(key_b58)->Some_0.skip(DLM_SECRETKEYBYTES as int),
                    now0,
                    jti,
                    exp,
                ),
            )
        }),
{
    let pair = b58_dec_of(key_b58)->Some_0;
    let pk = pair.skip(DLM_SECRETKEYBYTES as int);
    let sk = pair.take(DLM_SECRETKEYBYTES as int);
    assert(pk == b58_dec_of(pk_b58)->Some_0);
    assert(pk.len() == DLM_PUBLICKEYBYTES);
    crate::jwt::lemma_credential_token_verifies(
        issuer,
        subject,
        attrs,
        pk,
        sk,
        t,
        now0,
        jti,
        ttl,
        now,
    );
}

/// Copies a credential record.
pub fn copy_credential(c: &Credential) -> (r: Credential)
    ensures
        r.id@ == c.id@,
        r.issuer_did@ == c.issuer_did@,
        r.owner_did@ == c.owner_did@,
        r.credential_type@ == c.credential_type@,
        r.schema_id@ == c.schema_id@,
        entries_v(r.credential_data@) == entries_v(c.credential_data@),
        r.jwt@ == c.jwt@,
        r.status == c.status,
        r.created_at == c.created_at,
        r.updated_at == c.updated_at,
        r.expires_at == c.expires_at,
{
    Credential {
        id: c.id.clone(),
        issuer_did: c.issuer_did.clone(),
        owner_did: c.owner_did.clone(),
        credential_type: c.credential_type.clone(),
        schema_id: c.schema_id.clone(),
        credential_data: clone_entries(&c.credential_data),
        ipfs_hash: match &c.ipfs_hash {
            Some(h) => Some(h.clone()),
            None => None,
        },
        blockchain_reference: match &c.blockchain_reference {
            Some(h) => Some(h.clone()),
            None => None,
        },
        jwt: c.jwt.clone(),
        status: c.status,
        created_at: c.created_at,
        updated_at: c.updated_at,
        expires_at: c.expires_at,
    }
}

impl CredentialService {
    /// A service over an empty store and registry.
    pub fn new() -> (r: CredentialService)
        ensures
            r.credentials@.len() == 0,
            r.registry.entries@.len() == 0,
    {
        CredentialService {
            credentials: Vec::new(),
            registry: RevocationRegistry::new(),
            blobs: Vec::new(),
        }
    }

    /// Finds the index of a stored credential by identifier.
    fn find_index(&self, id: &str) -> (r: Option<usize>)
        ensures
            match r {
                Some(i) => spec_find_credential(self.credentials@, id@) == Some(i as int) && i
                    < self.credentials@.len(),
                None => spec_find_credential(self.credentials@, id@) is None,
            },
    {
        let n = self.credentials.len();
        let mut i: usize = 0;
        while i < n
            invariant
                0 <= i <= n,
                n == self.credentials@.len(),
                spec_find_credential_from(self.credentials@, id@, i as int)
                    == spec_find_credential(self.credentials@, id@),
            decreases n - i,
        {
            if str_eq(self.credentials[i].id.as_str(), id) {
                return Some(i);
            }
            i += 1;
        }
        None
    }

    /// Issue a credential: validate both DIDs, create the signed token,
    /// encrypt and store the attributes, anchor the token hash in the
    /// registry, and persist the record.
    #[verifier::rlimit(100)]
    pub fn issue_credential_with_key(
        &mut self,
        issuer_did: &str,
        issuer_private_key: &str,
        request: &IssueCredentialRequest,
        now: i64,
    ) -> (r: Result<CredentialResponse, AppError>)
        ensures
            !spec_validate_did(issuer_did@) ==> (r matches Err(AppError::ValidationError(_))),
            spec_validate_did(issuer_did@) && !spec_validate_did(request.subject_did@) ==> (
            r matches Err(AppError::ValidationError(_))),
            spec_validate_did(issuer_did@) && spec_validate_did(request.subject_did@) && !(
            b58_dec_of(issuer_private_key@) matches Some(sk)
                && sk.len() == DLM_KEYPAIRBYTES) ==> (r matches Err(AppError::CryptoError(_))),
            spec_validate_did(issuer_did@) && spec_validate_did(request.subject_did@) && (
            b58_dec_of(issuer_private_key@) matches Some(sk)
                && sk.len() == DLM_KEYPAIRBYTES) ==> (r is Ok || (r matches Err(
                AppError::CryptoError(_),
            ))),
            r matches Ok(resp) ==> {
                &&& resp.credential.issuer_did@ == issuer_did@
                &&& resp.credential.owner_did@ == request.subject_did@
                &&& resp.credential.credential_type@ == request.credential_type@
                &&& resp.credential.schema_id@ == request.schema_id@
                &&& entries_v(resp.credential.credential_data@) == entries_v(
                    request.attributes@,
                )
                &&& resp.credential.status == CredentialStatus::Active
                &&& resp.credential.jwt@ == resp.jwt@
                &&& resp.credential.created_at == now
                &&& resp.credential.expires_at == request.expiration_date
                &&& (resp.credential.ipfs_hash matches Some(sref) && sref@ == dec_of(
                    old(self).blobs@.len() as nat,
                ))
                &&& final(self).blobs@.len() == old(self).blobs@.len() + 1
                &&& spec_reg_valid(
                    final(self).registry.entries@,
                    issuer_did@,
                    spec_token_hash(resp.jwt@),
                )
                &&& final(self).credentials@.len() == old(self).credentials@.len() + 1
                &&& final(self).credentials@.last().id@ == resp.credential.id@
                &&& final(self).credentials@.last().status == CredentialStatus::Active
                &&& final(self).credentials@.last().issuer_did@ == issuer_did@
                &&& final(self).credentials@.last().owner_did@ == request.subject_did@
                &&& final(self).credentials@.last().jwt@ == resp.jwt@
                &&& forall|i: int|
                    0 <= i < old(self).credentials@.len()
                        ==> final(self).credentials@[i] == old(self).credentials@[i]
            },
            r matches Ok(resp) ==> exists|now2: int, jti: Seq<char>|
                #[trigger] spec_credential_token_shape(
                    issuer_did@,
                    request.subject_did@,
                    entries_v(request.attributes@),
                    b58_dec_of(issuer_private_key@)->Some_0.skip(DLM_SECRETKEYBYTES as int),
                    b58_dec_of(issuer_private_key@)->Some_0.take(DLM_SECRETKEYBYTES as int),
                    resp.jwt@,
                    now2,
                    jti,
                    spec_issue_ttl(request.expiration_date, now as int),
                ),
            r is Err ==> final(self).credentials@ == old(self).credentials@
                && final(self).registry.entries@ == old(self).registry.entries@
                && final(self).blobs@ == old(self).blobs@,
    {
        if !validate_did(issuer_did) {
            return Err(
                AppError::ValidationError(
                    "invalid issuer DID: only did:alyra is supported".to_owned(),
                ),
            );
        }
        if !validate_did(request.subject_did.as_str()) {
            return Err(AppError::ValidationError("invalid subject DID".to_owned()));
        }
        let pair = match bs58_decode(issuer_private_key) {
            Some(v) => v,
            None => {
                return Err(AppError::CryptoError("issuer secret key is not base58".to_owned()));
            },
        };
        if pair.len() != DLM_KEYPAIRBYTES {
            return Err(
                AppError::CryptoError("issuer secret key has the wrong length".to_owned()),
            );
        }
        let sk = crate::crypto::slice_range(pair.as_slice(), 0, DLM_SECRETKEYBYTES);
        let start = pair.len() - DLM_PUBLICKEYBYTES;
        let pk = crate::crypto::slice_range(pair.as_slice(), start, pair.len());
        let ttl: Option<i64> = match request.expiration_date {
            Some(date) => Some(crate::jwt::saturating_sub_i64(date, now)),
            None => None,
        };
        let jwt = match create_pq_credential_jwt(
            issuer_did,
            request.subject_did.as_str(),
            &request.attributes,
            sk.as_slice(),
            pk.as_slice(),
            ttl,
        ) {
            Ok(t) => t,
            Err(e) => {
                return Err(e);
            },
        };
        let mut enc_attrs: Vec<char> = Vec::new();
        push_enc_value(&ClaimValue::Obj(clone_entries(&request.attributes)), &mut enc_attrs);
        let attr_text = chars_to_string(&enc_attrs);
        let key = generate_key();
        let payload = match encrypt(attr_text.as_str().as_bytes_vec().as_slice(), key.as_slice()) {
            Ok(v) => v,
            Err(e) => {
                return Err(e);
            },
        };
        let mut ref_chars: Vec<char> = Vec::new();
        push_dec_u64(self.blobs.len() as u64, &mut ref_chars);
        let storage_ref = chars_to_string(&ref_chars);
        self.blobs.push(payload);
        let credential_hash = hash_to_hex(jwt.as_str().as_bytes_vec().as_slice());
        self.registry.register(issuer_did, credential_hash.as_str(), storage_ref.as_str());
        let id = new_uuid();
        let mut credential = Credential::new(
            id,
            issuer_did.to_owned(),
            request.subject_did.clone(),
            request.credential_type.clone(),
            request.schema_id.clone(),
            clone_entries(&request.attributes),
            jwt.clone(),
            now,
        );
        credential.expires_at = request.expiration_date;
        credential.ipfs_hash = Some(storage_ref);
        let stored = copy_credential(&credential);
        let ghost creds0 = self.credentials@;
        self.credentials.push(stored);
        let ghost jv = jwt@;
        let result: Result<CredentialResponse, AppError> = Ok(
            CredentialResponse { credential, jwt },
        );
        proof {
            assert(result->Ok_0.jwt@ == jv);
            assert(self.credentials@.last().jwt@ == jv);
            let pairdec = b58_dec_of(issuer_private_key@)->Some_0;
            assert(pk@ =~= pairdec.skip(DLM_SECRETKEYBYTES as int));
            assert(sk@ =~= pairdec.take(DLM_SECRETKEYBYTES as int));
            assert(crate::jwt::spec_ttl_of(ttl) == spec_issue_ttl(
                request.expiration_date,
                now as int,
            ));
            let (nw, jt): (int, Seq<char>) = choose|nw: int, jt: Seq<char>|
                #[trigger] spec_credential_token_shape(
                    issuer_did@,
                    request.subject_did@,
                    entries_v(request.attributes@),
                    pk@,
                    sk@,
                    jv,
                    nw,
                    jt,
                    crate::jwt::spec_ttl_of(ttl),
                );
            assert(spec_credential_token_shape(
                issuer_did@,
                request.subject_did@,
                entries_v(request.attributes@),
                pairdec.skip(DLM_SECRETKEYBYTES as int),
                pairdec.take(DLM_SECRETKEYBYTES as int),
                result->Ok_0.jwt@,
                nw,
                jt,
                spec_issue_ttl(request.expiration_date, now as int),
            ));
            assert(exists|now2: int, jti: Seq<char>|
                #[trigger] spec_credential_token_shape(
                    issuer_did@,
                    request.subject_did@,
                    entries_v(request.attributes@),
                    b58_dec_of(issuer_private_key@)->Some_0.skip(DLM_SECRETKEYBYTES as int),
                    b58_dec_of(issuer_private_key@)->Some_0.take(DLM_SECRETKEYBYTES as int),
                    result->Ok_0.jwt@,
                    now2,
                    jti,
                    spec_issue_ttl(request.expiration_date, now as int),
                ));
        }
        result
    }

    /// Issue a credential at the current clock.
    pub fn issue_credential(
        &mut self,
        issuer_did: &str,
        issuer_private_key: &str,
        request: &IssueCredentialRequest,
    ) -> (r: Result<CredentialResponse, AppError>)
        ensures
            exists|now: int|
                #[trigger] spec_issue_report(
                    *old(self),
                    *final(self),
                    issuer_did@,
                    issuer_private_key@,
                    *request,
                    now,
                    r,
                ),
    {
        let now = now_ts();
        let r = self.issue_credential_with_key(issuer_did, issuer_private_key, request, now);
        proof {
            assert(spec_issue_report(
                *old(self),
                *self,
                issuer_did@,
                issuer_private_key@,
                *request,
                now as int,
                r,
            ));
        }
        r
    }

    /// Verify a credential token at time `now`: run the token check, read
    /// the `vc` fields, check the expiry, and ask the registry; collect
    /// every finding rather than stopping at the first.
    pub fn verify_credential_at(&self, request: &VerifyCredentialRequest, now: i64) -> (r:
        VerificationResult)
        ensures
            spec_credential_report(
                self.registry.entries@,
                request.credential_jwt@,
                now as int,
                r,
            ),
    {
        let mut errors: Vec<String> = Vec::new();
        let mut is_valid = true;
        let (_header, claims) = match verify_pq_jwt_at(request.credential_jwt.as_str(), now) {
            Ok(hc) => hc,
            Err(_) => {
                errors.push("failed to extract credential from token".to_owned());
                return VerificationResult {
                    is_valid: false,
                    errors,
                    subject_did: String::new(),
                    issuer_did: String::new(),
                    credential_type: String::new(),
                    issuance_date: now,
                    expiration_date: None,
                    is_expired: false,
                    is_revoked: false,
                };
            },
        };
        let vc = match lookup_entry(&claims.additional_claims, "vc") {
            Some(v) => v,
            _ => {
                errors.push("token does not carry a verifiable credential".to_owned());
                return VerificationResult {
                    is_valid: false,
                    errors,
                    subject_did: String::new(),
                    issuer_did: String::new(),
                    credential_type: String::new(),
                    issuance_date: now,
                    expiration_date: None,
                    is_expired: false,
                    is_revoked: false,
                };
            },
        };
        let issuer_did = match value_obj_lookup(vc, "issuer") {
            Some(ClaimValue::Str(s)) => s.clone(),
            _ => String::new(),
        };
        let subject_did = match value_obj_lookup(vc, "credentialSubject") {
            Some(cs) => match value_obj_lookup(cs, "id") {
                Some(ClaimValue::Str(s)) => s.clone(),
                _ => String::new(),
            },
            None => String::new(),
        };
        let credential_type = credential_type_of(vc);
        let issuance_ok: bool;
        let issuance_date: i64;
        match value_obj_lookup(vc, "issuanceDate") {
            Some(ClaimValue::Int(i)) => {
                issuance_ok = true;
                issuance_date = *i;
            },
            _ => {
                issuance_ok = false;
                issuance_date = now;
                errors.push("invalid issuance date".to_owned());
                is_valid = false;
            },
        }
        let expiration_date: Option<i64> = match value_obj_lookup(vc, "expirationDate") {
            Some(ClaimValue::Int(e)) => Some(*e),
            _ => None,
        };
        let is_expired = match expiration_date {
            Some(e) => e < now,
            None => false,
        };
        if is_expired {
            errors.push("credential is expired".to_owned());
            is_valid = false;
        }
        let credential_hash = hash_to_hex(request.credential_jwt.as_str().as_bytes_vec().as_slice());
        let on_chain = self.registry.is_valid(issuer_did.as_str(), credential_hash.as_str());
        let is_revoked = !on_chain;
        if is_revoked {
            errors.push("credential is revoked".to_owned());
            is_valid = false;
        }
        VerificationResult {
            is_valid,
            errors,
            subject_did,
            issuer_did,
            credential_type,
            issuance_date,
            expiration_date,
            is_expired,
            is_revoked,
        }
    }

    /// Verify a credential token against the current clock.
    pub fn verify_credential(&self, request: &VerifyCredentialRequest) -> (r: Result<
        VerificationResult,
        AppError,
    >)
        ensures
            r is Ok,
            r matches Ok(out) ==> exists|now: int|
                #[trigger] spec_credential_report(
                    self.registry.entries@,
                    request.credential_jwt@,
                    now,
                    out,
                ),
    {
        let now = now_ts();
        let out = self.verify_credential_at(request, now);
        proof {
            assert(spec_credential_report(
                self.registry.entries@,
                request.credential_jwt@,
                now as int,
                out,
            ));
        }
        Ok(out)
    }

    /// Revoke a credential: only its issuer may, only once; the registry
    /// entry is withdrawn and the stored record marked.
    pub fn revoke_credential(&mut self, issuer_did: &str, credential_id: &str, now: i64) -> (r:
        Result<Credential, AppError>)
        ensures
            final(self).blobs@ == old(self).blobs@,
            r is Err ==> final(self).credentials@ == old(self).credentials@
                && final(self).registry.entries@ == old(self).registry.entries@,
            spec_find_credential(old(self).credentials@, credential_id@) is None ==> (r matches Err(
                AppError::NotFound(_),
            )),
            spec_find_credential(old(self).credentials@, credential_id@) matches Some(i) ==> {
                let c = old(self).credentials@[i];
                &&& (c.issuer_did@ != issuer_did@ ==> (r matches Err(AppError::AccessDenied(_))))
                &&& (c.issuer_did@ == issuer_did@ && c.status == CredentialStatus::Revoked ==> (
                r matches Err(AppError::ValidationError(_))))
                &&& (c.issuer_did@ == issuer_did@ && c.status != CredentialStatus::Revoked
                    && !spec_registered(
                    old(self).registry.entries@,
                    issuer_did@,
                    spec_token_hash(c.jwt@),
                ) ==> (r matches Err(AppError::RegistryError(_))))
                &&& (c.issuer_did@ == issuer_did@ && c.status != CredentialStatus::Revoked
                    && spec_registered(
                    old(self).registry.entries@,
                    issuer_did@,
                    spec_token_hash(c.jwt@),
                ) ==> r is Ok)
                &&& (r matches Ok(out) ==> {
                    &&& out.status == CredentialStatus::Revoked
                    &&& out.id@ == credential_id@
                    &&& out.updated_at == now
                    &&& final(self).credentials@.len() == old(self).credentials@.len()
                    &&& final(self).credentials@[i].status == CredentialStatus::Revoked
                    &&& final(self).credentials@[i].id@ == c.id@
                    &&& final(self).credentials@[i].issuer_did@ == c.issuer_did@
                    &&& final(self).credentials@[i].jwt@ == c.jwt@
                    &&& !spec_reg_valid(
                        final(self).registry.entries@,
                        issuer_did@,
                        spec_token_hash(c.jwt@),
                    )
                    &&& forall|j: int|
                        0 <= j < old(self).credentials@.len() && j != i
                            ==> final(self).credentials@[j] == old(self).credentials@[j]
                })
            },
    {
        proof {
            lemma_find_credential_props(self.credentials@, credential_id@, 0);
        }
        let idx = match self.find_index(credential_id) {
            Some(i) => i,
            None => {
                return Err(AppError::NotFound("credential not found".to_owned()));
            },
        };
        if !str_eq(self.credentials[idx].issuer_did.as_str(), issuer_did) {
            return Err(AppError::AccessDenied("only the issuer can revoke a credential".to_owned()));
        }
        if self.credentials[idx].status == CredentialStatus::Revoked {
            return Err(AppError::ValidationError("credential is already revoked".to_owned()));
        }
        let credential_hash = hash_to_hex(
            self.credentials[idx].jwt.as_str().as_bytes_vec().as_slice(),
        );
        match self.registry.revoke(issuer_did, credential_hash.as_str()) {
            Ok(()) => {},
            Err(e) => {
                return Err(e);
            },
        }
        self.credentials[idx].status = CredentialStatus::Revoked;
        self.credentials[idx].updated_at = now;
        Ok(copy_credential(&self.credentials[idx]))
    }

    /// Look a credential up by identifier.
    pub fn get_credential_by_id(&self, id: &str) -> (r: Result<Option<Credential>, AppError>)
        ensures
            r is Ok,
            match r {
                Ok(Some(c)) => spec_find_credential(self.credentials@, id@) matches Some(i)
                    && c.id@ == self.credentials@[i].id@ && c.jwt@ == self.credentials@[i].jwt@
                    && c.owner_did@ == self.credentials@[i].owner_did@ && c.status
                    == self.credentials@[i].status && entries_v(c.credential_data@) == entries_v(
                    self.credentials@[i].credential_data@,
                ),
                Ok(None) => spec_find_credential(self.credentials@, id@) is None,
                Err(_) => false,
            },
    {
        match self.find_index(id) {
            Some(i) => Ok(Some(copy_credential(&self.credentials[i]))),
            None => Ok(None),
        }
    }

    /// Delete a credential: only its owner may.
    pub fn delete_credential(&mut self, owner_did: &str, credential_id: &str) -> (r: Result<
        bool,
        AppError,
    >)
        ensures
            spec_find_credential(old(self).credentials@, credential_id@) is None ==> (r matches Err(
                AppError::NotFound(_),
            )) && final(self).credentials@ == old(self).credentials@,
            spec_find_credential(old(self).credentials@, credential_id@) matches Some(i) ==> {
                let c = old(self).credentials@[i];
                &&& (c.owner_did@ != owner_did@ ==> (r matches Err(AppError::AccessDenied(_)))
                    && final(self).credentials@ == old(self).credentials@)
                &&& (c.owner_did@ == owner_did@ ==> r == Ok::<bool, AppError>(true)
                    && final(self).credentials@ == old(self).credentials@.remove(i))
            },
    {
        proof {
            lemma_find_credential_props(self.credentials@, credential_id@, 0);
        }
        let idx = match self.find_index(credential_id) {
            Some(i) => i,
            None => {
                return Err(AppError::NotFound("credential not found".to_owned()));
            },
        };
        if !str_eq(self.credentials[idx].owner_did.as_str(), owner_did) {
            return Err(
                AppError::AccessDenied("only the owner can delete a credential".to_owned()),
            );
        }
        self.credentials.remove(idx);
        Ok(true)
    }

    /// Build a selective disclosure over a stored credential's attributes.
    pub fn create_selective_disclosure(
        &self,
        credential_id: &str,
        disclosed_attributes: &[String],
    ) -> (r: Result<Vec<ClaimEntry>, AppError>)
        ensures
            spec_find_credential(self.credentials@, credential_id@) is None ==> (r matches Err(
                AppError::NotFound(_),
            )),
    {
        let idx = match self.find_index(credential_id) {
            Some(i) => i,
            None => {
                return Err(AppError::NotFound("credential not found".to_owned()));
            },
        };
        create_selective_disclosure(&self.credentials[idx].credential_data, disclosed_attributes)
    }

    /// Build a predicate proof over a numeric attribute of a stored
    /// credential.
    pub fn create_predicate_proof(
        &self,
        credential_id: &str,
        attribute_name: &str,
        predicate_type: &str,
        predicate_value: i64,
    ) -> (r: Result<PredicateProof, AppError>)
        ensures
            spec_find_credential(self.credentials@, credential_id@) is None ==> (r matches Err(
                AppError::NotFound(_),
            )),
            spec_find_credential(self.credentials@, credential_id@) matches Some(i) ==> {
                let data = entries_v(self.credentials@[i].credential_data@);
                &&& (spec_lookup(data, attribute_name@) is None ==> (r matches Err(
                    AppError::ValidationError(_),
                )))
                &&& (spec_lookup(data, attribute_name@) matches Some(v) ==> match spec_attr_number(
                    v,
                ) {
                    None => (r matches Err(AppError::ValidationError(_))),
                    Some(n) => {
                        &&& (spec_predicate_holds(predicate_type@, n, predicate_value as int)
                            is None ==> (r matches Err(AppError::ValidationError(_))))
                        &&& (spec_predicate_holds(predicate_type@, n, predicate_value as int)
                            == Some(false) ==> (r matches Err(AppError::ValidationError(_))))
                        &&& (r matches Ok(p) ==> {
                            &&& spec_predicate_holds(predicate_type@, n, predicate_value as int)
                                == Some(true)
                            &&& spec_transform(predicate_type@, n, predicate_value as int)
                                <= u64::MAX
                            &&& range_proof_ok(p.range_proof.proof@, p.range_proof.commitment@)
                            &&& p.range_proof.commitment@.len() == 32
                            &&& p.attribute_name@ == attribute_name@
                            &&& p.predicate_type@ == predicate_type@
                            &&& p.predicate_value == predicate_value
                        })
                        &&& (spec_predicate_holds(predicate_type@, n, predicate_value as int)
                            == Some(true) && spec_transform(
                            predicate_type@,
                            n,
                            predicate_value as int,
                        ) <= u64::MAX ==> (r is Ok || (r matches Err(AppError::CryptoError(_)))))
                    },
                })
            },
    {
        let idx = match self.find_index(credential_id) {
            Some(i) => i,
            None => {
                return Err(AppError::NotFound("credential not found".to_owned()));
            },
        };
        let value = match lookup_entry(&self.credentials[idx].credential_data, attribute_name) {
            Some(v) => v,
            None => {
                return Err(
                    AppError::ValidationError("attribute not found in credential".to_owned()),
                );
            },
        };
        let number: u64 = match value {
            ClaimValue::Int(i) => {
                if *i < 0 {
                    return Err(
                        AppError::ValidationError("attribute is not a positive number".to_owned()),
                    );
                }
                *i as u64
            },
            ClaimValue::Str(s) => {
                let chars = crate::jwt::str_chars(s.as_str());
                match parse_num(&chars, 0) {
                    Some((v, e)) => {
                        if e != chars.len() {
                            return Err(
                                AppError::ValidationError(
                                    "attribute cannot be read as a number".to_owned(),
                                ),
                            );
                        }
                        v
                    },
                    None => {
                        return Err(
                            AppError::ValidationError(
                                "attribute cannot be read as a number".to_owned(),
                            ),
                        );
                    },
                }
            },
            _ => {
                return Err(
                    AppError::ValidationError("attribute is not a number or string".to_owned()),
                );
            },
        };
        create_predicate_proof(attribute_name, number, predicate_type, predicate_value)
    }
}

/// Looks a key up inside an object value.
pub fn value_obj_lookup<'a>(v: &'a ClaimValue, key: &str) -> (r: Option<&'a ClaimValue>)
    ensures
        match r {
            Some(out) => obj_lookup(v@, key@) == Some(out@),
            None => obj_lookup(v@, key@) is None,
        },
{
    match v {
        ClaimValue::Obj(entries) => lookup_entry(entries, key),
        _ => None,
    }
}

/// The second entry of the `vc` type list, or the general tag.
fn credential_type_of(vc: &ClaimValue) -> (r: String)
{
    match value_obj_lookup(vc, "type") {
        Some(ClaimValue::Arr(ts)) => {
            if ts.len() >= 2 {
                match &ts[1] {
                    ClaimValue::Str(s) => s.clone(),
                    _ => "VerifiableCredential".to_owned(),
                }
            } else {
                "VerifiableCredential".to_owned()
            }
        },
        _ => "VerifiableCredential".to_owned(),
    }
}

} // verus!
