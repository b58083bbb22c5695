//! The holder's wallet: its user record, imported credentials, granted
//! consents, and aggregate numbers over all of them.

use vstd::prelude::*;

verus! {

use crate::credential::copy_credential;
use crate::crypto::{new_uuid, now_ts};
use crate::did::generate_did;
use crate::errors::AppError;
use crate::models::{
    ConsentRecord, Credential, CredentialStatus, Presentation, User, spec_consent_valid,
};
use crate::presentation::PresentationService;
use crate::requests::{
    CreateWalletRequest, GrantConsentRequest, ImportCredentialRequest, WalletStatistics,
};
use crate::value::{ClaimValue, clone_entries, str_eq};

/// The wallet component: users and consents, over the presentation and
/// credential components.
pub struct WalletService {
    pub users: Vec<User>,
    pub consents: Vec<ConsentRecord>,
    pub presentation_service: PresentationService,
}

/// How many credentials in the sequence belong to the owner.
pub open spec fn count_owned(creds: Seq<Credential>, owner: Seq<char>) -> nat
    decreases creds.len(),
{
    if creds.len() == 0 {
        0
    } else {
        count_owned(creds.drop_last(), owner) + if creds.last().owner_did@ == owner {
            1nat
        } else {
            0nat
        }
    }
}

/// How many credentials in the sequence belong to the owner and carry the
/// status.
pub open spec fn count_owned_status(
    creds: Seq<Credential>,
    owner: Seq<char>,
    status: CredentialStatus,
) -> nat
    decreases creds.len(),
{
    if creds.len() == 0 {
        0
    } else {
        count_owned_status(creds.drop_last(), owner, status) + if creds.last().owner_did@
            == owner && creds.last().status == status {
            1nat
        } else {
            0nat
        }
    }
}

/// How many presentations in the sequence were made by the prover.
pub open spec fn count_proved(ps: Seq<Presentation>, prover: Seq<char>) -> nat
    decreases ps.len(),
{
    if ps.len() == 0 {
        0
    } else {
        count_proved(ps.drop_last(), prover) + if ps.last().prover_did@ == prover {
            1nat
        } else {
            0nat
        }
    }
}

/// How many consents in the sequence were granted by the user and still
/// hold at `now`.
pub open spec fn count_live_consents(cs: Seq<ConsentRecord>, user: Seq<char>, now: int) -> nat
    decreases cs.len(),
{
    if cs.len() == 0 {
        0
    } else {
        count_live_consents(cs.drop_last(), user, now) + if cs.last().user_did@ == user
            && spec_consent_valid(&cs.last(), now) {
            1nat
        } else {
            0nat
        }
    }
}

impl WalletService {
    /// A service over the given presentation component, with no users or
    /// consents.
    pub fn new(presentation_service: PresentationService) -> (r: WalletService)
        ensures
            r.users@.len() == 0,
            r.consents@.len() == 0,
            r.presentation_service == presentation_service,
    {
        WalletService { users: Vec::new(), consents: Vec::new(), presentation_service }
    }

    /// Create a wallet: a fresh DID identity recorded as a user.
    pub fn create_wallet(&mut self, request: &CreateWalletRequest) -> (r: Result<
        crate::did::DidKeyPair,
        AppError,
    >)
        ensures
            r matches Ok(kp) ==> {
                &&& crate::did::spec_validate_did(kp.did@)
                &&& final(self).users@.len() == old(self).users@.len() + 1
                &&& final(self).users@.last().did@ == kp.did@
            },
    {
        let now = now_ts();
        let kp = match generate_did() {
            Ok(kp) => kp,
            Err(e) => {
                return Err(e);
            },
        };
        let mut user = User::new(kp.did.clone(), kp.public_key_base58.clone(), now);
        user.name = match &request.name {
            Some(n) => Some(n.clone()),
            None => None,
        };
        user.email = match &request.email {
            Some(e) => Some(e.clone()),
            None => None,
        };
        self.users.push(user);
        Ok(kp)
    }

    /// Import a credential token: it must verify and be issued to this
    /// wallet's owner; its subject claims become the stored attributes.
    pub fn import_credential(
        &mut self,
        owner_did: &str,
        request: &ImportCredentialRequest,
        now: i64,
    ) -> (r: Result<Credential, AppError>)
        ensures
            r matches Ok(c) ==> {
                &&& c.owner_did@ == owner_did@
                &&& c.status == CredentialStatus::Active
                &&& c.jwt@ == request.credential_jwt@
                &&& final(self).presentation_service.credential_service.credentials@.len() == old(
                    self,
                ).presentation_service.credential_service.credentials@.len() + 1
            },
            r is Err ==> final(self).presentation_service.credential_service.credentials@ == old(
                self,
            ).presentation_service.credential_service.credentials@,
    {
        let verify_request = crate::requests::VerifyCredentialRequest {
            credential_jwt: request.credential_jwt.clone(),
        };
        let result = self.presentation_service.credential_service.verify_credential_at(
            &verify_request,
            now,
        );
        if !result.is_valid {
            return Err(AppError::ValidationError("credential does not verify".to_owned()));
        }
        if !str_eq(result.subject_did.as_str(), owner_did) {
            return Err(
                AppError::ValidationError("credential is not issued to this wallet".to_owned()),
            );
        }
        let vc = match crate::jwt::extract_credential_at(request.credential_jwt.as_str(), now) {
            Ok(v) => v,
            Err(e) => {
                return Err(e);
            },
        };
        let claims = match crate::credential::value_obj_lookup(&vc, "credentialSubject") {
            Some(cs) => match crate::credential::value_obj_lookup(cs, "claims") {
                Some(ClaimValue::Obj(entries)) => clone_entries(entries),
                _ => Vec::new(),
            },
            None => Vec::new(),
        };
        let id = new_uuid();
        let mut credential = Credential::new(
            id,
            result.issuer_did,
            owner_did.to_owned(),
            result.credential_type,
            String::new(),
            claims,
            request.credential_jwt.clone(),
            now,
        );
        credential.expires_at = result.expiration_date;
        let stored = copy_credential(&credential);
        self.presentation_service.credential_service.credentials.push(stored);
        Ok(credential)
    }

    /// Grant a verifier consent for a purpose.
    pub fn grant_consent(&mut self, user_did: &str, request: GrantConsentRequest, now: i64) -> (r:
        ConsentRecord)
        ensures
            r.user_did@ == user_did@,
            r.verifier_did@ == request.verifier_did@,
            r.revoked == false,
            final(self).consents@.len() == old(self).consents@.len() + 1,
            final(self).consents@.last().user_did@ == user_did@,
            final(self).consents@.last().revoked == false,
            forall|i: int|
                0 <= i < old(self).consents@.len() ==> final(self).consents@[i] == old(
                    self,
                ).consents@[i],
    {
        let id = new_uuid();
        let consent = ConsentRecord::new(
            id,
            user_did.to_owned(),
            request.verifier_did,
            request.purpose,
            request.data_categories,
            request.access_level,
            request.expiration_policy,
            request.expires_at,
            now,
        );
        let copy = copy_consent(&consent);
        self.consents.push(copy);
        consent
    }

    /// Revoke a consent: only its granting user may; it never holds again.
    pub fn revoke_consent(&mut self, user_did: &str, consent_id: &str, now: i64) -> (r: Result<
        bool,
        AppError,
    >)
        ensures
            r == Ok::<bool, AppError>(true) ==> exists|i: int|
                0 <= i < final(self).consents@.len() && (#[trigger] final(self).consents@[i]).id@
                    == consent_id@ && final(self).consents@[i].revoked == true,
            final(self).consents@.len() == old(self).consents@.len(),
    {
        let n = self.consents.len();
        let mut i: usize = 0;
        while i < n
            invariant
                0 <= i <= n,
                n == self.consents@.len(),
                self.consents@.len() == old(self).consents@.len(),
            decreases n - i,
        {
            if str_eq(self.consents[i].id.as_str(), consent_id) && str_eq(
                self.consents[i].user_did.as_str(),
                user_did,
            ) {
                self.consents[i].revoked = true;
                self.consents[i].revoked_at = Some(now);
                self.consents[i].updated_at = now;
                proof {
                    assert(self.consents@[i as int].id@ == consent_id@);
                    assert(self.consents@[i as int].revoked == true);
                }
                return Ok(true);
            }
            i += 1;
        }
        Err(AppError::NotFound("consent not found".to_owned()))
    }

    /// Aggregate numbers over the wallet's holdings at time `now`: its
    /// credentials by status, its presentations, and its live consents.
    pub fn get_wallet_statistics(&self, did: &str, now: i64) -> (r: WalletStatistics)
        ensures
            r.total_credentials == count_owned(
                self.presentation_service.credential_service.credentials@,
                did@,
            ),
            r.active_credentials == count_owned_status(
                self.presentation_service.credential_service.credentials@,
                did@,
                CredentialStatus::Active,
            ),
            r.expired_credentials == count_owned_status(
                self.presentation_service.credential_service.credentials@,
                did@,
                CredentialStatus::Expired,
            ),
            r.revoked_credentials == count_owned_status(
                self.presentation_service.credential_service.credentials@,
                did@,
                CredentialStatus::Revoked,
            ),
            r.total_presentations == count_proved(
                self.presentation_service.presentations@,
                did@,
            ),
            r.active_consents == count_live_consents(self.consents@, did@, now as int),
    {
        let creds = &self.presentation_service.credential_service.credentials;
        let cn = creds.len();
        let mut total_credentials: usize = 0;
        let mut active_credentials: usize = 0;
        let mut expired_credentials: usize = 0;
        let mut revoked_credentials: usize = 0;
        let mut i: usize = 0;
        while i < cn
            invariant
                0 <= i <= cn,
                cn == creds@.len(),
                creds == self.presentation_service.credential_service.credentials,
                total_credentials == count_owned(creds@.take(i as int), did@),
                active_credentials == count_owned_status(
                    creds@.take(i as int),
                    did@,
                    CredentialStatus::Active,
                ),
                expired_credentials == count_owned_status(
                    creds@.take(i as int),
                    did@,
                    CredentialStatus::Expired,
                ),
                revoked_credentials == count_owned_status(
                    creds@.take(i as int),
                    did@,
                    CredentialStatus::Revoked,
                ),
                total_credentials <= i && active_credentials <= i && expired_credentials <= i
                    && revoked_credentials <= i,
            decreases cn - i,
        {
            proof {
                assert(creds@.take(i as int + 1).drop_last() =~= creds@.take(i as int));
                assert(creds@.take(i as int + 1).last() == creds@[i as int]);
            }
            if str_eq(creds[i].owner_did.as_str(), did) {
                total_credentials += 1;
                if creds[i].status == CredentialStatus::Active {
                    active_credentials += 1;
                } else if creds[i].status == CredentialStatus::Expired {
                    expired_credentials += 1;
                } else {
                    revoked_credentials += 1;
                }
            }
            i += 1;
        }
        let ps = &self.presentation_service.presentations;
        let pn = ps.len();
        let mut total_presentations: usize = 0;
        let mut j: usize = 0;
        while j < pn
            invariant
                0 <= j <= pn,
                pn == ps@.len(),
                ps == self.presentation_service.presentations,
                total_presentations == count_proved(ps@.take(j as int), did@),
                total_presentations <= j,
            decreases pn - j,
        {
            proof {
                assert(ps@.take(j as int + 1).drop_last() =~= ps@.take(j as int));
                assert(ps@.take(j as int + 1).last() == ps@[j as int]);
            }
            if str_eq(ps[j].prover_did.as_str(), did) {
                total_presentations += 1;
            }
            j += 1;
        }
        let csn = self.consents.len();
        let mut active_consents: usize = 0;
        let mut k: usize = 0;
        while k < csn
            invariant
                0 <= k <= csn,
                csn == self.consents@.len(),
                active_consents == count_live_consents(
                    self.consents@.take(k as int),
                    did@,
                    now as int,
                ),
                active_consents <= k,
            decreases csn - k,
        {
            proof {
                assert(self.consents@.take(k as int + 1).drop_last() =~= self.consents@.take(
                    k as int,
                ));
                assert(self.consents@.take(k as int + 1).last() == self.consents@[k as int]);
            }
            if str_eq(self.consents[k].user_did.as_str(), did) && self.consents[k].is_valid(now) {
                active_consents += 1;
            }
            k += 1;
        }
        proof {
            assert(creds@.take(cn as int) =~= creds@);
            assert(ps@.take(pn as int) =~= ps@);
            assert(self.consents@.take(csn as int) =~= self.consents@);
        }
        WalletStatistics {
            total_credentials,
            active_credentials,
            expired_credentials,
            revoked_credentials,
            total_presentations,
            active_consents,
        }
    }
}

/// Copies a consent record.
fn copy_consent(c: &ConsentRecord) -> (r: ConsentRecord)
    ensures
        r.id@ == c.id@,
        r.user_did@ == c.user_did@,
        r.verifier_did@ == c.verifier_did@,
        r.revoked == c.revoked,
        r.expires_at == c.expires_at,
{
    let mut cats: Vec<String> = Vec::new();
    let n = c.data_categories.len();
    let mut i: usize = 0;
    while i < n
        invariant
            0 <= i <= n,
            n == c.data_categories@.len(),
        decreases n - i,
    {
        cats.push(c.data_categories[i].clone());
        i += 1;
    }
    ConsentRecord {
        id: c.id.clone(),
        user_did: c.user_did.clone(),
        verifier_did: c.verifier_did.clone(),
        purpose: c.purpose.clone(),
        data_categories: cats,
        access_level: c.access_level,
        expiration_policy: c.expiration_policy,
        created_at: c.created_at,
        updated_at: c.updated_at,
        expires_at: c.expires_at,
        revoked: c.revoked,
        revoked_at: c.revoked_at,
    }
}

} // verus!
