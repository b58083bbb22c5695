//! The revocation registry, modelled as explicit state.
//!
//! The lifecycle components record issued credentials here and consult it
//! during verification; the process that mirrors this state to an external
//! append-only service lives outside the library.

use vstd::prelude::*;

verus! {

use crate::errors::AppError;
use crate::value::str_eq;

/// One anchored credential: who issued it, the hash of its token, where
/// its payload lives, and whether it still stands.
pub struct RegistryEntry {
    pub issuer_did: String,
    pub credential_hash: String,
    pub metadata_ref: String,
    pub valid: bool,
}

/// The registry: every entry ever registered, in order of registration.
pub struct RevocationRegistry {
    pub entries: Vec<RegistryEntry>,
}

/// True iff the entry anchors the given issuer and credential hash.
pub open spec fn entry_matches(e: RegistryEntry, issuer: Seq<char>, hash: Seq<char>) -> bool {
    e.issuer_did@ == issuer && e.credential_hash@ == hash
}

/// True iff some entry anchors the given issuer and hash.
pub open spec fn spec_registered(
    entries: Seq<RegistryEntry>,
    issuer: Seq<char>,
    hash: Seq<char>,
) -> bool {
    exists|i: int| 0 <= i < entries.len() && entry_matches(#[trigger] entries[i], issuer, hash)
}

/// True iff some entry anchors the given issuer and hash and still stands.
pub open spec fn spec_reg_valid(
    entries: Seq<RegistryEntry>,
    issuer: Seq<char>,
    hash: Seq<char>,
) -> bool {
    exists|i: int|
        0 <= i < entries.len() && entry_matches(#[trigger] entries[i], issuer, hash)
            && entries[i].valid
}

impl RevocationRegistry {
    /// An empty registry.
    pub fn new() -> (r: RevocationRegistry)
        ensures
            r.entries@.len() == 0,
    {
        RevocationRegistry { entries: Vec::new() }
    }

    /// Anchors a credential hash for an issuer; the entry stands until
    /// revoked.
    pub fn register(&mut self, issuer_did: &str, credential_hash: &str, metadata_ref: &str)
        ensures
            final(self).entries@.len() == old(self).entries@.len() + 1,
            forall|i: int|
                0 <= i < old(self).entries@.len() ==> final(self).entries@[i] == old(
                    self,
                ).entries@[i],
            final(self).entries@.last().issuer_did@ == issuer_did@,
            final(self).entries@.last().credential_hash@ == credential_hash@,
            final(self).entries@.last().metadata_ref@ == metadata_ref@,
            final(self).entries@.last().valid == true,
            spec_reg_valid(final(self).entries@, issuer_did@, credential_hash@),
    {
        let entry = RegistryEntry {
            issuer_did: issuer_did.to_owned(),
            credential_hash: credential_hash.to_owned(),
            metadata_ref: metadata_ref.to_owned(),
            valid: true,
        };
        self.entries.push(entry);
        proof {
            let n = self.entries@.len() - 1;
            assert(entry_matches(self.entries@[n], issuer_did@, credential_hash@));
        }
    }

    /// Marks every entry for the given issuer and hash as no longer
    /// standing; fails when nothing is anchored under them.
    pub fn revoke(&mut self, issuer_did: &str, credential_hash: &str) -> (r: Result<
        (),
        AppError,
    >)
        ensures
            r is Ok <==> spec_registered(old(self).entries@, issuer_did@, credential_hash@),
            r is Err ==> final(self).entries@ == old(self).entries@ && (r matches Err(
                AppError::RegistryError(_),
            )),
            r is Ok ==> {
                &&& final(self).entries@.len() == old(self).entries@.len()
                &&& forall|i: int|
                    0 <= i < old(self).entries@.len() && entry_matches(
                        #[trigger] old(self).entries@[i],
                        issuer_did@,
                        credential_hash@,
                    ) ==> final(self).entries@[i].issuer_did@ == old(
                        self,
                    ).entries@[i].issuer_did@ && final(self).entries@[i].credential_hash@ == old(
                        self,
                    ).entries@[i].credential_hash@ && final(self).entries@[i].valid == false
                &&& forall|i: int|
                    0 <= i < old(self).entries@.len() && !entry_matches(
                        #[trigger] old(self).entries@[i],
                        issuer_did@,
                        credential_hash@,
                    ) ==> final(self).entries@[i] == old(self).entries@[i]
                &&& !spec_reg_valid(final(self).entries@, issuer_did@, credential_hash@)
            },
    {
        let n = self.entries.len();
        let mut found = false;
        let mut i: usize = 0;
        while i < n
            invariant
                0 <= i <= n,
                n == self.entries@.len(),
                old(self).entries@.len() == n,
                found <==> exists|j: int|
                    0 <= j < i && entry_matches(
                        #[trigger] old(self).entries@[j],
                        issuer_did@,
                        credential_hash@,
                    ),
                forall|j: int|
                    0 <= j < i && entry_matches(
                        #[trigger] old(self).entries@[j],
                        issuer_did@,
                        credential_hash@,
                    ) ==> self.entries@[j].issuer_did@ == old(self).entries@[j].issuer_did@
                        && self.entries@[j].credential_hash@ == old(
                        self,
                    ).entries@[j].credential_hash@ && self.entries@[j].valid == false,
                forall|j: int|
                    0 <= j < i && !entry_matches(
                        #[trigger] old(self).entries@[j],
                        issuer_did@,
                        credential_hash@,
                    ) ==> self.entries@[j] == old(self).entries@[j],
                forall|j: int| i <= j < n ==> self.entries@[j] == old(self).entries@[j],
            decreases n - i,
        {
            let matches_here = str_eq(self.entries[i].issuer_did.as_str(), issuer_did)
                && str_eq(self.entries[i].credential_hash.as_str(), credential_hash);
            if matches_here {
                self.entries[i].valid = false;
                found = true;
            }
            i += 1;
        }
        if found {
            proof {
                if spec_reg_valid(self.entries@, issuer_did@, credential_hash@) {
                    let j = choose|j: int|
                        0 <= j < self.entries@.len() && entry_matches(
                            #[trigger] self.entries@[j],
                            issuer_did@,
                            credential_hash@,
                        ) && self.entries@[j].valid;
                    if entry_matches(old(self).entries@[j], issuer_did@, credential_hash@) {
                        assert(self.entries@[j].valid == false);
                    } else {
                        assert(self.entries@[j] == old(self).entries@[j]);
                    }
                    assert(false);
                }
            }
            Ok(())
        } else {
            proof {
                assert(self.entries@ =~= old(self).entries@);
            }
            Err(AppError::RegistryError(issuer_did.to_owned()))
        }
    }

    /// True iff the credential hash is anchored for the issuer and still
    /// stands.
    pub fn is_valid(&self, issuer_did: &str, credential_hash: &str) -> (r: bool)
        ensures
            r == spec_reg_valid(self.entries@, issuer_did@, credential_hash@),
    {
        let n = self.entries.len();
        let mut i: usize = 0;
        while i < n
            invariant
                0 <= i <= n,
                n == self.entries@.len(),
                forall|j: int|
                    0 <= j < i ==> !(entry_matches(
                        #[trigger] self.entries@[j],
                        issuer_did@,
                        credential_hash@,
                    ) && self.entries@[j].valid),
            decreases n - i,
        {
            if self.entries[i].valid && str_eq(self.entries[i].issuer_did.as_str(), issuer_did)
                && str_eq(self.entries[i].credential_hash.as_str(), credential_hash) {
                proof {
                    assert(entry_matches(self.entries@[i as int], issuer_did@, credential_hash@)
                        && self.entries@[i as int].valid);
                }
                return true;
            }
            i += 1;
        }
        false
    }
}

} // verus!
