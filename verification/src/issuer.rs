//! The issuer's side of credential requests: a pending request is either
//! approved, which issues the credential, or rejected; nothing else ever
//! changes a processed request.

use vstd::prelude::*;

verus! {

use crate::credential::{CredentialService, copy_credential};
use crate::errors::AppError;
use crate::models::{CredentialRequest, CredentialRequestStatus};
use crate::requests::{IssueCredentialRequest, ProcessCredentialRequestRequest};
use crate::value::{clone_entries, entries_v, str_eq};

/// The issuer component: pending credential requests over the credential
/// component.
pub struct IssuerService {
    pub requests: Vec<CredentialRequest>,
    pub credential_service: CredentialService,
}

/// The index of the first credential request with the identifier.
pub open spec fn spec_find_cred_request(
    reqs: Seq<CredentialRequest>,
    id: Seq<char>,
) -> Option<int> {
    spec_find_cred_request_from(reqs, id, 0)
}

/// The index of the first credential request with the identifier, at or
/// after `from`.
pub open spec fn spec_find_cred_request_from(
    reqs: Seq<CredentialRequest>,
    id: Seq<char>,
    from: int,
) -> Option<int>
    decreases reqs.len() - from,
{
    if 0 <= from < reqs.len() {
        if reqs[from].id@ == id {
            Some(from)
        } else {
            spec_find_cred_request_from(reqs, id, from + 1)
        }
    } else {
        None
    }
}

/// A found index lies in range and carries the identifier.
pub proof fn lemma_find_cred_request_props(
    reqs: Seq<CredentialRequest>,
    id: Seq<char>,
    from: int,
)
    ensures
        spec_find_cred_request_from(reqs, id, from) matches Some(i) ==> from <= i < reqs.len()
            && reqs[i].id@ == id,
    decreases reqs.len() - from,
{
    if 0 <= from < reqs.len() && reqs[from].id@ != id {
        lemma_find_cred_request_props(reqs, id, from + 1);
    }
}

/// Copies a credential request record.
pub fn copy_credential_request(r: &CredentialRequest) -> (out: CredentialRequest)
    ensures
        out.id@ == r.id@,
        out.user_did@ == r.user_did@,
        out.issuer_did@ == r.issuer_did@,
        out.status == r.status,
        out.processed_at == r.processed_at,
        match (&out.credential_id, &r.credential_id) {
            (Some(a), Some(b)) => a@ == b@,
            (None, None) => true,
            _ => false,
        },
{
    CredentialRequest {
        id: r.id.clone(),
        user_did: r.user_did.clone(),
        issuer_did: r.issuer_did.clone(),
        credential_type: r.credential_type.clone(),
        schema_id: r.schema_id.clone(),
        request_data: clone_entries(&r.request_data),
        status: r.status,
        created_at: r.created_at,
        updated_at: r.updated_at,
        processed_at: r.processed_at,
        credential_id: match &r.credential_id {
            Some(c) => Some(c.clone()),
            None => None,
        },
    }
}

impl IssuerService {
    /// A service over the given credential component, with no requests.
    pub fn new(credential_service: CredentialService) -> (r: IssuerService)
        ensures
            r.requests@.len() == 0,
            r.credential_service == credential_service,
    {
        IssuerService { requests: Vec::new(), credential_service }
    }

    /// Record an incoming credential request.
    pub fn add_credential_request(&mut self, request: CredentialRequest)
        ensures
            final(self).requests@.len() == old(self).requests@.len() + 1,
            final(self).requests@.last() == request,
            final(self).credential_service == old(self).credential_service,
            forall|i: int|
                0 <= i < old(self).requests@.len() ==> final(self).requests@[i] == old(
                    self,
                ).requests@[i],
    {
        self.requests.push(request);
    }

    /// Finds the index of a stored request by identifier.
    fn find_request_index(&self, id: &str) -> (r: Option<usize>)
        ensures
            match r {
                Some(i) => spec_find_cred_request(self.requests@, id@) == Some(i as int) && i
                    < self.requests@.len(),
                None => spec_find_cred_request(self.requests@, id@) is None,
            },
    {
        let n = self.requests.len();
        let mut i: usize = 0;
        while i < n
            invariant
                0 <= i <= n,
                n == self.requests@.len(),
                spec_find_cred_request_from(self.requests@, id@, i as int)
                    == spec_find_cred_request(self.requests@, id@),
            decreases n - i,
        {
            if str_eq(self.requests[i].id.as_str(), id) {
                return Some(i);
            }
            i += 1;
        }
        None
    }

    /// Process a pending request: only its issuer may, only while it is
    /// pending; approval issues the credential and records its identifier,
    /// rejection only marks the request.
    pub fn process_credential_request(
        &mut self,
        issuer_did: &str,
        issuer_private_key: &str,
        request: &ProcessCredentialRequestRequest,
        now: i64,
    ) -> (r: Result<CredentialRequest, AppError>)
        ensures
            spec_find_cred_request(old(self).requests@, request.request_id@) is None ==> (
            r matches Err(AppError::NotFound(_))) && final(self).requests@ == old(self).requests@,
            spec_find_cred_request(old(self).requests@, request.request_id@) matches Some(i)
                ==> {
                let cr = old(self).requests@[i];
                &&& (cr.issuer_did@ != issuer_did@ ==> (r matches Err(AppError::AccessDenied(_)))
                    && final(self).requests@ == old(self).requests@)
                &&& (cr.issuer_did@ == issuer_did@ && cr.status != CredentialRequestStatus::Pending
                    ==> (r matches Err(AppError::ValidationError(_))) && final(self).requests@
                    == old(self).requests@)
                &&& (r matches Ok(out) ==> {
                    &&& cr.status == CredentialRequestStatus::Pending
                    &&& out.status == (if request.approve {
                        CredentialRequestStatus::Issued
                    } else {
                        CredentialRequestStatus::Rejected
                    })
                    &&& out.processed_at == Some(now)
                    &&& (request.approve ==> out.credential_id is Some)
                    &&& final(self).requests@.len() == old(self).requests@.len()
                    &&& final(self).requests@[i].status == out.status
                    &&& final(self).requests@[i].processed_at == Some(now)
                    &&& forall|j: int|
                        0 <= j < old(self).requests@.len() && j != i
                            ==> final(self).requests@[j] == old(self).requests@[j]
                })
            },
    {
        proof {
            lemma_find_cred_request_props(self.requests@, request.request_id@, 0);
        }
        let idx = match self.find_request_index(request.request_id.as_str()) {
            Some(i) => i,
            None => {
                return Err(AppError::NotFound("credential request not found".to_owned()));
            },
        };
        if !str_eq(self.requests[idx].issuer_did.as_str(), issuer_did) {
            return Err(
                AppError::AccessDenied(
                    "only the issuer can process this credential request".to_owned(),
                ),
            );
        }
        if self.requests[idx].status != CredentialRequestStatus::Pending {
            return Err(
                AppError::ValidationError(
                    "credential request has already been processed".to_owned(),
                ),
            );
        }
        if request.approve {
            let issue = IssueCredentialRequest {
                credential_type: self.requests[idx].credential_type.clone(),
                schema_id: self.requests[idx].schema_id.clone(),
                subject_did: self.requests[idx].user_did.clone(),
                attributes: clone_entries(&self.requests[idx].request_data),
                expiration_date: Some(crate::jwt::saturating_add_i64(now, 365 * 86400)),
            };
            let issued = match self.credential_service.issue_credential_with_key(
                issuer_did,
                issuer_private_key,
                &issue,
                now,
            ) {
                Ok(resp) => resp,
                Err(e) => {
                    return Err(e);
                },
            };
            self.requests[idx].status = CredentialRequestStatus::Issued;
            self.requests[idx].credential_id = Some(issued.credential.id);
        } else {
            self.requests[idx].status = CredentialRequestStatus::Rejected;
        }
        self.requests[idx].processed_at = Some(now);
        self.requests[idx].updated_at = now;
        Ok(copy_credential_request(&self.requests[idx]))
    }

    /// Approve a pending request, issuing the credential.
    pub fn approve_credential_request(
        &mut self,
        issuer_did: &str,
        issuer_private_key: &str,
        request_id: &str,
        now: i64,
    ) -> (r: Result<CredentialRequest, AppError>)
        ensures
            r matches Ok(out) ==> out.status == CredentialRequestStatus::Issued
                && out.processed_at == Some(now),
    {
        let process = ProcessCredentialRequestRequest {
            request_id: request_id.to_owned(),
            approve: true,
            reason: None,
        };
        self.process_credential_request(issuer_did, issuer_private_key, &process, now)
    }

    /// Reject a pending request.
    pub fn reject_credential_request(
        &mut self,
        issuer_did: &str,
        issuer_private_key: &str,
        request_id: &str,
        now: i64,
    ) -> (r: Result<CredentialRequest, AppError>)
        ensures
            r matches Ok(out) ==> out.status == CredentialRequestStatus::Rejected
                && out.processed_at == Some(now),
    {
        let process = ProcessCredentialRequestRequest {
            request_id: request_id.to_owned(),
            approve: false,
            reason: None,
        };
        self.process_credential_request(issuer_did, issuer_private_key, &process, now)
    }
}

} // verus!
