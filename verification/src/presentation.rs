//! The presentation lifecycle: build presentations that bundle selective
//! disclosures, predicate proofs and embedded credential tokens, and
//! verify them credential by credential, accumulating every finding.

use vstd::prelude::*;

verus! {

use crate::credential::{
    CredentialService, obj_lookup, spec_credential_ok, spec_find_credential, spec_vc_of_token,
    str_or_empty, value_obj_lookup,
};
use crate::crypto::{
    DLM_KEYPAIRBYTES, DLM_PUBLICKEYBYTES, DLM_SECRETKEYBYTES, bs58_decode, hex_decode,
    hex_encode, new_uuid, now_ts,
};
use crate::errors::AppError;
use crate::crypto::{b58_dec_of, hex_dec_of, hex_of, range_proof_ok};
use crate::jwt::{
    VOut, create_pq_presentation_jwt, spec_presentation_token_shape, spec_verify_token,
    strings_v, verify_pq_jwt_at,
};
use crate::models::{Presentation, PresentationRequest, PresentationStatus};
use crate::requests::{SubmitPresentationRequest, VerifyPresentationRequest};
use crate::value::{
    ClaimEntry, ClaimValue, ValueV, clone_entries, clone_value, entries_v, lemma_entries_v,
    lemma_list_v, list_v, lookup_entry, spec_has_key, spec_lookup, str_eq,
};
use crate::zk_proofs::{
    PredicateProof, RangeProofWithCommitment, names_v, spec_disclosed_of, verify_predicate_proof,
};

/// What presentation verification reports.
pub struct PresentationVerificationResult {
    pub is_valid: bool,
    pub errors: Vec<String>,
    pub prover_did: String,
    pub verifier_did: String,
    pub presentation_type: String,
    pub created_at: i64,
    pub credential_subjects: Vec<Vec<ClaimEntry>>,
}

/// A submitted presentation together with its signed token.
pub struct PresentationResponse {
    pub presentation: Presentation,
    pub jwt: String,
}

/// The presentation lifecycle component: the stored presentations and
/// requests, over the credential component.
pub struct PresentationService {
    pub presentations: Vec<Presentation>,
    pub requests: Vec<PresentationRequest>,
    pub credential_service: CredentialService,
}

// ---------------------------------------------------------------------------
// The mathematical reading of a presentation token
// ---------------------------------------------------------------------------
/// The `vp` structure of a token that verifies at `now`, if any.
pub open spec fn spec_vp_of_token(s: Seq<char>, now: int) -> Option<ValueV> {
    match spec_verify_token(s, now) {
        VOut::Good(h, c) => spec_lookup(c.additional, "vp"@),
        _ => None,
    }
}

/// The audience named by a token that verifies at `now`, or nothing.
pub open spec fn spec_aud_of_token(s: Seq<char>, now: int) -> Option<Seq<char>> {
    match spec_verify_token(s, now) {
        VOut::Good(h, c) => c.aud,
        _ => None,
    }
}

/// The embedded credential-token values a `vp` structure carries.
pub open spec fn vp_embedded(vp: ValueV) -> Seq<ValueV> {
    match obj_lookup(vp, "verifiableCredential"@) {
        Some(ValueV::Arr(ts)) => ts,
        _ => Seq::empty(),
    }
}

/// The predicate-proof values a `vp` structure carries.
pub open spec fn vp_proofs(vp: ValueV) -> Seq<ValueV> {
    match obj_lookup(vp, "predicateProofs"@) {
        Some(ValueV::Arr(ps)) => ps,
        _ => Seq::empty(),
    }
}

/// The proof and commitment bytes a predicate-proof value decodes to,
/// when it has the full shape.
pub open spec fn spec_pp_bytes(v: ValueV) -> Option<(Seq<u8>, Seq<u8>)> {
    if (obj_lookup(v, "attribute_name"@) matches Some(ValueV::Str(_))) && (obj_lookup(
        v,
        "predicate_type"@,
    ) matches Some(ValueV::Str(_))) && (obj_lookup(v, "predicate_value"@) matches Some(
        ValueV::Int(_),
    )) {
        match obj_lookup(v, "range_proof"@) {
            Some(rp) => {
                if obj_lookup(rp, "attribute_name"@) matches Some(ValueV::Str(_)) {
                    match (obj_lookup(rp, "proof"@), obj_lookup(rp, "commitment"@)) {
                        (Some(ValueV::Str(ph)), Some(ValueV::Str(ch))) => match (
                            hex_dec_of(ph),
                            hex_dec_of(ch),
                        ) {
                            (Some(pb), Some(cb)) => Some((pb, cb)),
                            _ => None,
                        },
                        _ => None,
                    }
                } else {
                    None
                }
            },
            None => None,
        }
    } else {
        None
    }
}

/// Every embedded credential token passes the credential check; values
/// that are not strings are passed over.
pub open spec fn all_embedded_ok(
    reg: Seq<crate::registry::RegistryEntry>,
    ts: Seq<ValueV>,
    now: int,
) -> bool
    decreases ts.len(),
{
    if ts.len() == 0 {
        true
    } else {
        all_embedded_ok(reg, ts.drop_last(), now) && (ts.last() matches ValueV::Str(t)
            ==> spec_credential_ok(reg, t, now))
    }
}

/// Every decodable predicate-proof value verifies; values without the
/// full shape are passed over.
pub open spec fn all_proofs_ok(ps: Seq<ValueV>) -> bool
    decreases ps.len(),
{
    if ps.len() == 0 {
        true
    } else {
        all_proofs_ok(ps.drop_last()) && (spec_pp_bytes(ps.last()) matches Some(pc) ==> (
        pc.1.len() == 32 && range_proof_ok(pc.0, pc.1)))
    }
}

/// The subject entries of a credential token: its `credentialSubject`
/// object, when the token verifies and carries one.
pub open spec fn subject_entries_of(t: Seq<char>, now: int) -> Option<
    Seq<(Seq<char>, ValueV)>,
> {
    match spec_vc_of_token(t, now) {
        Some(vc) => match obj_lookup(vc, "credentialSubject"@) {
            Some(ValueV::Obj(es)) => Some(es),
            _ => None,
        },
        None => None,
    }
}

/// An attribute mapping without its `id` entries.
pub open spec fn spec_without_id(es: Seq<(Seq<char>, ValueV)>) -> Seq<(Seq<char>, ValueV)>
    decreases es.len(),
{
    if es.len() == 0 {
        Seq::empty()
    } else {
        spec_without_id(es.drop_last()) + if es.last().0 == "id"@ {
            Seq::empty()
        } else {
            seq![es.last()]
        }
    }
}

/// The subject maps collected from the embedded tokens, in order: one per
/// string token whose credential extracts with an object subject.
pub open spec fn spec_subjects(ts: Seq<ValueV>, now: int) -> Seq<Seq<(Seq<char>, ValueV)>>
    decreases ts.len(),
{
    if ts.len() == 0 {
        Seq::empty()
    } else {
        spec_subjects(ts.drop_last(), now) + match ts.last() {
            ValueV::Str(t) => match subject_entries_of(t, now) {
                Some(es) => seq![spec_without_id(es)],
                None => Seq::empty(),
            },
            _ => Seq::empty(),
        }
    }
}

/// The models of a list of collected subject maps.
pub open spec fn subjects_v(s: Seq<Vec<ClaimEntry>>) -> Seq<Seq<(Seq<char>, ValueV)>> {
    Seq::new(s.len(), |i: int| entries_v(s[i]@))
}

/// The overall verdict of checking a presentation token against a
/// registry at time `now`.
pub open spec fn spec_presentation_ok(
    reg: Seq<crate::registry::RegistryEntry>,
    s: Seq<char>,
    now: int,
) -> bool {
    match spec_vp_of_token(s, now) {
        Some(vp) => all_embedded_ok(reg, vp_embedded(vp), now) && all_proofs_ok(vp_proofs(vp)),
        None => false,
    }
}

/// What a presentation verification report must say of a token checked
/// against a registry at time `now`.
pub open spec fn spec_presentation_report(
    reg: Seq<crate::registry::RegistryEntry>,
    jwt: Seq<char>,
    now: int,
    r: PresentationVerificationResult,
) -> bool {
    &&& r.is_valid == spec_presentation_ok(reg, jwt, now)
    &&& (r.is_valid <==> r.errors@.len() == 0)
    &&& (spec_vp_of_token(jwt, now) is None ==> !r.is_valid && r.errors@.len() == 1
        && r.prover_did@ == Seq::<char>::empty() && r.verifier_did@ == Seq::<char>::empty()
        && r.credential_subjects@.len() == 0)
    &&& (spec_vp_of_token(jwt, now) matches Some(vp) ==> {
        &&& r.prover_did@ == str_or_empty(obj_lookup(vp, "holder"@))
        &&& r.verifier_did@ == match spec_aud_of_token(jwt, now) {
            Some(a) => a,
            None => Seq::<char>::empty(),
        }
        &&& subjects_v(r.credential_subjects@) == spec_subjects(vp_embedded(vp), now)
    })
}

/// The index of the first presentation request with the identifier.
pub open spec fn spec_find_request(reqs: Seq<PresentationRequest>, id: Seq<char>) -> Option<
    int,
> {
    spec_find_request_from(reqs, id, 0)
}

/// The index of the first request with the identifier, at or after `from`.
pub open spec fn spec_find_request_from(
    reqs: Seq<PresentationRequest>,
    id: Seq<char>,
    from: int,
) -> Option<int>
    decreases reqs.len() - from,
{
    if 0 <= from < reqs.len() {
        if reqs[from].id@ == id {
            Some(from)
        } else {
            spec_find_request_from(reqs, id, from + 1)
        }
    } else {
        None
    }
}

/// The index of the first presentation with the identifier.
pub open spec fn spec_find_presentation(ps: Seq<Presentation>, id: Seq<char>) -> Option<int> {
    spec_find_presentation_from(ps, id, 0)
}

/// The index of the first presentation with the identifier, at or after
/// `from`.
pub open spec fn spec_find_presentation_from(
    ps: Seq<Presentation>,
    id: Seq<char>,
    from: int,
) -> Option<int>
    decreases ps.len() - from,
{
    if 0 <= from < ps.len() {
        if ps[from].id@ == id {
            Some(from)
        } else {
            spec_find_presentation_from(ps, id, from + 1)
        }
    } else {
        None
    }
}

/// A found index lies in range and carries the identifier.
pub proof fn lemma_find_presentation_props(ps: Seq<Presentation>, id: Seq<char>, from: int)
    ensures
        spec_find_presentation_from(ps, id, from) matches Some(i) ==> from <= i < ps.len()
            && ps[i].id@ == id,
    decreases ps.len() - from,
{
    if 0 <= from < ps.len() && ps[from].id@ != id {
        lemma_find_presentation_props(ps, id, from + 1);
    }
}

/// Turns a predicate proof into a value, with the proof and commitment
/// bytes hex-encoded.
pub fn predicate_proof_to_value(p: &PredicateProof) -> (r: ClaimValue)
    ensures
        r@ == spec_pp_value(*p),
{
    let mut rp: Vec<ClaimEntry> = Vec::new();
    rp.push(
        ClaimEntry {
            key: "proof".to_owned(),
            value: ClaimValue::Str(hex_encode(p.range_proof.proof.as_slice())),
        },
    );
    rp.push(
        ClaimEntry {
            key: "commitment".to_owned(),
            value: ClaimValue::Str(hex_encode(p.range_proof.commitment.as_slice())),
        },
    );
    rp.push(
        ClaimEntry {
            key: "attribute_name".to_owned(),
            value: ClaimValue::Str(p.range_proof.attribute_name.clone()),
        },
    );
    let mut fields: Vec<ClaimEntry> = Vec::new();
    fields.push(
        ClaimEntry {
            key: "attribute_name".to_owned(),
            value: ClaimValue::Str(p.attribute_name.clone()),
        },
    );
    fields.push(
        ClaimEntry {
            key: "predicate_type".to_owned(),
            value: ClaimValue::Str(p.predicate_type.clone()),
        },
    );
    fields.push(
        ClaimEntry { key: "predicate_value".to_owned(), value: ClaimValue::Int(p.predicate_value) },
    );
    let ghost rpv = rp@;
    fields.push(ClaimEntry { key: "range_proof".to_owned(), value: ClaimValue::Obj(rp) });
    let ghost fieldsv = fields@;
    let r = ClaimValue::Obj(fields);
    proof {
        lemma_entries_v(fieldsv);
        lemma_entries_v(rpv);
        let want = spec_pp_value(*p);
        assert(entries_v(rpv)[0] == (rpv[0].key@, rpv[0].value@));
        assert(entries_v(rpv)[1] == (rpv[1].key@, rpv[1].value@));
        assert(entries_v(rpv)[2] == (rpv[2].key@, rpv[2].value@));
        assert(entries_v(rpv) =~= want->Obj_0[3].1->Obj_0);
        assert(entries_v(fieldsv)[0] == (fieldsv[0].key@, fieldsv[0].value@));
        assert(entries_v(fieldsv)[1] == (fieldsv[1].key@, fieldsv[1].value@));
        assert(entries_v(fieldsv)[2] == (fieldsv[2].key@, fieldsv[2].value@));
        assert(entries_v(fieldsv)[3] == (fieldsv[3].key@, fieldsv[3].value@));
        assert(entries_v(fieldsv) =~= want->Obj_0);
        assert(r@ == want);
    }
    r
}

/// Reads a predicate proof back from a value, if it has the right shape.
pub fn value_to_predicate_proof(v: &ClaimValue) -> (r: Option<PredicateProof>)
    ensures
        match r {
            Some(p) => spec_pp_bytes(v@) == Some((p.range_proof.proof@, p.range_proof.commitment@)),
            None => spec_pp_bytes(v@) is None,
        },
{
    let attribute_name = match value_obj_lookup(v, "attribute_name") {
        Some(ClaimValue::Str(s)) => s.clone(),
        _ => {
            return None;
        },
    };
    let predicate_type = match value_obj_lookup(v, "predicate_type") {
        Some(ClaimValue::Str(s)) => s.clone(),
        _ => {
            return None;
        },
    };
    let predicate_value = match value_obj_lookup(v, "predicate_value") {
        Some(ClaimValue::Int(i)) => *i,
        _ => {
            return None;
        },
    };
    let rp = match value_obj_lookup(v, "range_proof") {
        Some(x) => x,
        None => {
            return None;
        },
    };
    let proof = match value_obj_lookup(rp, "proof") {
        Some(ClaimValue::Str(s)) => match hex_decode(s.as_str()) {
            Some(b) => b,
            None => {
                return None;
            },
        },
        _ => {
            return None;
        },
    };
    let commitment = match value_obj_lookup(rp, "commitment") {
        Some(ClaimValue::Str(s)) => match hex_decode(s.as_str()) {
            Some(b) => b,
            None => {
                return None;
            },
        },
        _ => {
            return None;
        },
    };
    let rp_name = match value_obj_lookup(rp, "attribute_name") {
        Some(ClaimValue::Str(s)) => s.clone(),
        _ => {
            return None;
        },
    };
    Some(
        PredicateProof {
            attribute_name,
            predicate_type,
            predicate_value,
            range_proof: RangeProofWithCommitment {
                proof,
                commitment,
                attribute_name: rp_name,
            },
        },
    )
}

/// The value form of a predicate proof: its fields, with the proof and
/// commitment bytes hex-encoded.
pub open spec fn spec_pp_value(p: PredicateProof) -> ValueV {
    ValueV::Obj(
        seq![
            ("attribute_name"@, ValueV::Str(p.attribute_name@)),
            ("predicate_type"@, ValueV::Str(p.predicate_type@)),
            ("predicate_value"@, ValueV::Int(p.predicate_value as int)),
            ("range_proof"@, ValueV::Obj(
                seq![
                    ("proof"@, ValueV::Str(hex_of(p.range_proof.proof@))),
                    ("commitment"@, ValueV::Str(hex_of(p.range_proof.commitment@))),
                    ("attribute_name"@, ValueV::Str(p.range_proof.attribute_name@)),
                ],
            )),
        ],
    )
}

/// The models of a disclosed-attribute table: credential id and names.
pub open spec fn table_v(t: Seq<(String, Vec<String>)>) -> Seq<(Seq<char>, Seq<Seq<char>>)> {
    Seq::new(t.len(), |i: int| (t[i].0@, names_v(t[i].1@)))
}

/// The attribute names the table requests for a credential: those of its
/// first entry, or none.
pub open spec fn spec_names_for(
    table: Seq<(Seq<char>, Seq<Seq<char>>)>,
    id: Seq<char>,
) -> Seq<Seq<char>>
    decreases table.len(),
{
    if table.len() == 0 {
        Seq::empty()
    } else if table[0].0 == id {
        table[0].1
    } else {
        spec_names_for(table.drop_first(), id)
    }
}

/// The first obstacle a submission's credential list runs into, walking
/// the identifiers in order from index `k`.
pub ghost enum ScanOut {
    /// Every credential exists, belongs to the prover, and carries every
    /// requested attribute.
    AllOk,
    /// Some identifier names no stored credential.
    MissingCred,
    /// Some named credential belongs to someone else.
    NotOwned,
    /// Some requested attribute is absent from its credential.
    AttrMissing,
}

/// Walks the credential identifiers from index `k` and reports the first
/// obstacle.
pub open spec fn spec_scan(
    creds: Seq<crate::models::Credential>,
    ids: Seq<Seq<char>>,
    table: Seq<(Seq<char>, Seq<Seq<char>>)>,
    prover: Seq<char>,
    k: int,
) -> ScanOut
    decreases ids.len() - k,
{
    if !(0 <= k < ids.len()) {
        ScanOut::AllOk
    } else {
        match spec_find_credential(creds, ids[k]) {
            None => ScanOut::MissingCred,
            Some(i) => if creds[i].owner_did@ != prover {
                ScanOut::NotOwned
            } else if !(forall|j: int|
                0 <= j < spec_names_for(table, ids[k]).len() ==> spec_has_key(
                    entries_v(creds[i].credential_data@),
                    #[trigger] spec_names_for(table, ids[k])[j],
                )) {
                ScanOut::AttrMissing
            } else {
                spec_scan(creds, ids, table, prover, k + 1)
            },
        }
    }
}

/// The token strings of the listed credentials, in list order.
pub open spec fn spec_jwts_for(
    creds: Seq<crate::models::Credential>,
    ids: Seq<Seq<char>>,
) -> Seq<Seq<char>> {
    Seq::new(
        ids.len(),
        |i: int| creds[spec_find_credential(creds, ids[i])->Some_0].jwt@,
    )
}

/// The disclosure entries of a submission: each credential id mapped to
/// the selective disclosure over its requested attributes.
pub open spec fn spec_disclosure_entries(
    creds: Seq<crate::models::Credential>,
    ids: Seq<Seq<char>>,
    table: Seq<(Seq<char>, Seq<Seq<char>>)>,
) -> Seq<(Seq<char>, ValueV)> {
    Seq::new(
        ids.len(),
        |i: int| (ids[i], ValueV::Obj(
            spec_disclosed_of(
                entries_v(creds[spec_find_credential(creds, ids[i])->Some_0].credential_data@),
                spec_names_for(table, ids[i]),
            ),
        )),
    )
}

/// The predicate-proof entries of a submission, each under the
/// `predicate_` key of its attribute.
pub open spec fn spec_pp_entries(proofs: Seq<PredicateProof>) -> Seq<(Seq<char>, ValueV)> {
    Seq::new(
        proofs.len(),
        |i: int| ("predicate_"@ + proofs[i].attribute_name@, spec_pp_value(proofs[i])),
    )
}

/// The verifier of the request with the given identifier, if one exists.
pub open spec fn spec_req_verifier(
    reqs: Seq<PresentationRequest>,
    id: Seq<char>,
) -> Option<Seq<char>> {
    match spec_find_request(reqs, id) {
        Some(i) => Some(reqs[i].verifier_did@),
        None => None,
    }
}

/// Copies a presentation record.
pub fn copy_presentation(p: &Presentation) -> (r: Presentation)
    ensures
        r.id@ == p.id@,
        r.prover_did@ == p.prover_did@,
        r.verifier_did@ == p.verifier_did@,
        r.status == p.status,
        r.jwt@ == p.jwt@,
        r.is_verified == p.is_verified,
        r.verified_at == p.verified_at,
        r.created_at == p.created_at,
{
    let mut ids: Vec<String> = Vec::new();
    let n = p.credential_ids.len();
    let mut i: usize = 0;
    while i < n
        invariant
            0 <= i <= n,
            n == p.credential_ids@.len(),
        decreases n - i,
    {
        ids.push(p.credential_ids[i].clone());
        i += 1;
    }
    Presentation {
        id: p.id.clone(),
        prover_did: p.prover_did.clone(),
        verifier_did: p.verifier_did.clone(),
        presentation_type: p.presentation_type.clone(),
        credential_ids: ids,
        presentation_data: clone_entries(&p.presentation_data),
        jwt: p.jwt.clone(),
        status: p.status,
        created_at: p.created_at,
        verified_at: p.verified_at,
        is_verified: p.is_verified,
    }
}

impl PresentationService {
    /// A service over the given credential component, with no stored
    /// presentations or requests.
    pub fn new(credential_service: CredentialService) -> (r: PresentationService)
        ensures
            r.presentations@.len() == 0,
            r.requests@.len() == 0,
            r.credential_service == credential_service,
    {
        PresentationService { presentations: Vec::new(), requests: Vec::new(), credential_service }
    }

    /// Record a presentation request so holders can answer it.
    pub fn add_presentation_request(&mut self, request: PresentationRequest)
        ensures
            final(self).requests@.len() == old(self).requests@.len() + 1,
            final(self).requests@.last() == request,
            final(self).presentations@ == old(self).presentations@,
            final(self).credential_service == old(self).credential_service,
            forall|i: int|
                0 <= i < old(self).requests@.len() ==> final(self).requests@[i] == old(
                    self,
                ).requests@[i],
    {
        self.requests.push(request);
    }

    /// Finds the index of a stored request by identifier.
    fn find_request_index(&self, id: &str) -> (r: Option<usize>)
        ensures
            match r {
                Some(i) => spec_find_request(self.requests@, id@) == Some(i as int) && i
                    < self.requests@.len(),
                None => spec_find_request(self.requests@, id@) is None,
            },
    {
        let n = self.requests.len();
        let mut i: usize = 0;
        while i < n
            invariant
                0 <= i <= n,
                n == self.requests@.len(),
                spec_find_request_from(self.requests@, id@, i as int) == spec_find_request(
                    self.requests@,
                    id@,
                ),
            decreases n - i,
        {
            if str_eq(self.requests[i].id.as_str(), id) {
                return Some(i);
            }
            i += 1;
        }
        None
    }

    /// Submit a presentation: the request must exist and be open, every
    /// named credential must exist and belong to the prover; a selective
    /// disclosure is built per credential, the predicate proofs are
    /// attached, and one token embedding the credential tokens is signed.
    pub fn submit_presentation(
        &mut self,
        prover_did: &str,
        prover_private_key: &str,
        request: &SubmitPresentationRequest,
        now: i64,
    ) -> (r: Result<PresentationResponse, AppError>)
        ensures
            spec_find_request(old(self).requests@, request.presentation_request_id@)
                is None ==> (r matches Err(AppError::NotFound(_))),
            spec_find_request(old(self).requests@, request.presentation_request_id@)
                matches Some(ri) ==> {
                let req = old(self).requests@[ri];
                let creds = old(self).credential_service.credentials@;
                let ids = strings_v(request.credential_ids@);
                let table = table_v(request.disclosed_attributes@);
                &&& ((req.expires_at matches Some(e) && e < now) ==> (r matches Err(
                    AppError::ValidationError(_),
                )))
                &&& (!(req.expires_at matches Some(e) && e < now) && !(b58_dec_of(
                    prover_private_key@,
                ) matches Some(p) && p.len() == DLM_KEYPAIRBYTES) ==> (r matches Err(
                    AppError::CryptoError(_),
                )))
                &&& (!(req.expires_at matches Some(e) && e < now) && (b58_dec_of(
                    prover_private_key@,
                ) matches Some(p) && p.len() == DLM_KEYPAIRBYTES) ==> match spec_scan(
                    creds,
                    ids,
                    table,
                    prover_did@,
                    0,
                ) {
                    ScanOut::MissingCred => (r matches Err(AppError::NotFound(_))),
                    ScanOut::NotOwned => (r matches Err(AppError::AccessDenied(_))),
                    ScanOut::AttrMissing => (r matches Err(AppError::ValidationError(_))),
                    ScanOut::AllOk => r is Ok,
                })
                &&& (r matches Ok(resp) ==> {
                    &&& resp.presentation.prover_did@ == prover_did@
                    &&& resp.presentation.verifier_did@ == req.verifier_did@
                    &&& resp.presentation.presentation_type@ == req.presentation_type@
                    &&& resp.presentation.status == PresentationStatus::Pending
                    &&& resp.presentation.is_verified == false
                    &&& resp.presentation.jwt@ == resp.jwt@
                    &&& resp.presentation.created_at == now
                    &&& strings_v(resp.presentation.credential_ids@) == ids
                    &&& entries_v(resp.presentation.presentation_data@)
                        == spec_disclosure_entries(creds, ids, table) + spec_pp_entries(
                        request.predicate_proofs@,
                    )
                    &&& final(self).presentations@.len() == old(self).presentations@.len() + 1
                    &&& final(self).presentations@.last().id@ == resp.presentation.id@
                    &&& final(self).presentations@.last().status == PresentationStatus::Pending
                    &&& final(self).presentations@.last().jwt@ == resp.jwt@
                })
            },
            r matches Ok(resp) ==> exists|now2: int, jti: Seq<char>|
                #[trigger] spec_presentation_token_shape(
                    prover_did@,
                    spec_req_verifier(old(self).requests@, request.presentation_request_id@),
                    spec_jwts_for(
                        old(self).credential_service.credentials@,
                        strings_v(request.credential_ids@),
                    ),
                    b58_dec_of(prover_private_key@)->Some_0.skip(DLM_SECRETKEYBYTES as int),
                    b58_dec_of(prover_private_key@)->Some_0.take(DLM_SECRETKEYBYTES as int),
                    resp.jwt@,
                    now2,
                    jti,
                    Some(3600),
                ),
            r is Err ==> final(self).presentations@ == old(self).presentations@,
    {
        let ghost reqs0 = old(self).requests@;
        let ghost creds0 = old(self).credential_service.credentials@;
        let ghost ids = strings_v(request.credential_ids@);
        let ghost table = table_v(request.disclosed_attributes@);
        let ridx = match self.find_request_index(request.presentation_request_id.as_str()) {
            Some(i) => i,
            None => {
                return Err(AppError::NotFound("presentation request not found".to_owned()));
            },
        };
        match self.requests[ridx].expires_at {
            Some(e) => {
                if e < now {
                    return Err(
                        AppError::ValidationError("presentation request is expired".to_owned()),
                    );
                }
            },
            None => {},
        }
        let verifier_did = self.requests[ridx].verifier_did.clone();
        let presentation_type = self.requests[ridx].presentation_type.clone();
        let pair = match bs58_decode(prover_private_key) {
            Some(v) => v,
            None => {
                return Err(AppError::CryptoError("prover secret key is not base58".to_owned()));
            },
        };
        if pair.len() != DLM_KEYPAIRBYTES {
            return Err(
                AppError::CryptoError("prover secret key has the wrong length".to_owned()),
            );
        }
        let sk = crate::crypto::slice_range(pair.as_slice(), 0, DLM_SECRETKEYBYTES);
        let start = pair.len() - DLM_PUBLICKEYBYTES;
        let pk = crate::crypto::slice_range(pair.as_slice(), start, pair.len());
        proof {
            assert(sk@ =~= b58_dec_of(prover_private_key@)->Some_0.take(
                DLM_SECRETKEYBYTES as int,
            ));
            assert(pk@ =~= b58_dec_of(prover_private_key@)->Some_0.skip(
                DLM_SECRETKEYBYTES as int,
            ));
        }
        let mut credential_jwts: Vec<String> = Vec::new();
        let mut presentation_data: Vec<ClaimEntry> = Vec::new();
        let mut credential_ids: Vec<String> = Vec::new();
        let cn = request.credential_ids.len();
        let mut ci: usize = 0;
        proof {
            assert(entries_v(presentation_data@) =~= spec_disclosure_entries(
                creds0,
                ids,
                table,
            ).take(0));
            assert(strings_v(credential_jwts@) =~= spec_jwts_for(creds0, ids).take(0));
            assert(strings_v(credential_ids@) =~= ids.take(0));
        }
        while ci < cn
            invariant
                0 <= ci <= cn,
                cn == request.credential_ids@.len(),
                self.presentations@ == old(self).presentations@,
                self.credential_service == old(self).credential_service,
                creds0 == old(self).credential_service.credentials@,
                ids == strings_v(request.credential_ids@),
                table == table_v(request.disclosed_attributes@),
                ids.len() == cn,
                forall|j: int| 0 <= j < cn ==> ids[j] == (#[trigger] request.credential_ids@[j])@,
                spec_find_request(old(self).requests@, request.presentation_request_id@)
                    == Some(ridx as int),
                ridx < old(self).requests@.len(),
                !(old(self).requests@[ridx as int].expires_at matches Some(e) && e < now),
                b58_dec_of(prover_private_key@) matches Some(p) && p.len() == DLM_KEYPAIRBYTES,
                sk@ == b58_dec_of(prover_private_key@)->Some_0.take(DLM_SECRETKEYBYTES as int),
                pk@ == b58_dec_of(prover_private_key@)->Some_0.skip(DLM_SECRETKEYBYTES as int),
                verifier_did@ == old(self).requests@[ridx as int].verifier_did@,
                presentation_type@ == old(self).requests@[ridx as int].presentation_type@,
                spec_scan(creds0, ids, table, prover_did@, ci as int) == spec_scan(
                    creds0,
                    ids,
                    table,
                    prover_did@,
                    0,
                ),
                entries_v(presentation_data@) == spec_disclosure_entries(
                    creds0,
                    ids,
                    table,
                ).take(ci as int),
                strings_v(credential_jwts@) == spec_jwts_for(creds0, ids).take(ci as int),
                strings_v(credential_ids@) == ids.take(ci as int),
            decreases cn - ci,
        {
            let credential_id = &request.credential_ids[ci];
            proof {
                assert(ids[ci as int] == credential_id@);
            }
            let credential = match self.credential_service.get_credential_by_id(
                credential_id.as_str(),
            ) {
                Ok(Some(c)) => c,
                Ok(None) => {
                    proof {
                        assert(spec_scan(creds0, ids, table, prover_did@, ci as int)
                            == ScanOut::MissingCred);
                    }
                    return Err(AppError::NotFound("credential not found".to_owned()));
                },
                Err(e) => {
                    return Err(e);
                },
            };
            let ghost fidx = crate::credential::spec_find_credential(
                creds0,
                ids[ci as int],
            )->Some_0;
            if !str_eq(credential.owner_did.as_str(), prover_did) {
                proof {
                    assert(creds0[fidx].owner_did@ != prover_did@);
                    assert(spec_scan(creds0, ids, table, prover_did@, ci as int)
                        == ScanOut::NotOwned);
                }
                return Err(
                    AppError::AccessDenied("you can only present your own credentials".to_owned()),
                );
            }
            let names = disclosed_names_for(&request.disclosed_attributes, credential_id.as_str());
            let ghost snames = spec_names_for(table, ids[ci as int]);
            proof {
                assert(names_v(names@) == snames);
            }
            let disclosed = match crate::zk_proofs::create_selective_disclosure(
                &credential.credential_data,
                names.as_slice(),
            ) {
                Ok(d) => d,
                Err(e) => {
                    proof {
                        let bad = choose|k: int|
                            0 <= k < names@.len() && !spec_has_key(
                                entries_v(credential.credential_data@),
                                (#[trigger] names@[k])@,
                            );
                        assert(names_v(names@)[bad] == names@[bad]@);
                        assert(snames[bad] == names@[bad]@);
                        assert(!spec_has_key(
                            entries_v(creds0[fidx].credential_data@),
                            snames[bad],
                        ));
                        assert(spec_scan(creds0, ids, table, prover_did@, ci as int)
                            == ScanOut::AttrMissing);
                    }
                    return Err(e);
                },
            };
            proof {
                assert forall|k: int| 0 <= k < snames.len() implies spec_has_key(
                    entries_v(creds0[fidx].credential_data@),
                    #[trigger] snames[k],
                ) by {
                    assert(names_v(names@)[k] == names@[k]@);
                    assert(spec_has_key(
                        entries_v(credential.credential_data@),
                        names@[k]@,
                    ));
                }
                assert(spec_scan(creds0, ids, table, prover_did@, ci as int) == spec_scan(
                    creds0,
                    ids,
                    table,
                    prover_did@,
                    ci as int + 1,
                ));
            }
            let ghost pd0 = presentation_data@;
            let ghost cj0 = credential_jwts@;
            let ghost cid0 = credential_ids@;
            presentation_data.push(
                ClaimEntry { key: credential_id.clone(), value: ClaimValue::Obj(disclosed) },
            );
            credential_jwts.push(credential.jwt.clone());
            credential_ids.push(credential_id.clone());
            proof {
                crate::codec::lemma_entries_v_push(pd0, presentation_data@.last());
                assert(presentation_data@.last().value@ == ValueV::Obj(
                    spec_disclosed_of(
                        entries_v(creds0[fidx].credential_data@),
                        snames,
                    ),
                ));
                assert(spec_disclosure_entries(creds0, ids, table)[ci as int] == (
                    ids[ci as int],
                    ValueV::Obj(
                        spec_disclosed_of(
                            entries_v(creds0[fidx].credential_data@),
                            snames,
                        ),
                    ),
                ));
                assert(entries_v(presentation_data@) =~= spec_disclosure_entries(
                    creds0,
                    ids,
                    table,
                ).take(ci as int + 1));
                assert(spec_jwts_for(creds0, ids)[ci as int] == creds0[fidx].jwt@);
                assert(strings_v(cj0).len() == ci as int);
                assert(cj0.len() == ci as int);
                assert(strings_v(cid0).len() == ci as int);
                assert(cid0.len() == ci as int);
                assert forall|k: int| 0 <= k < ci as int + 1 implies strings_v(
                    credential_jwts@,
                )[k] == spec_jwts_for(creds0, ids)[k] by {
                    if k < ci as int {
                        assert(credential_jwts@[k] == cj0[k]);
                        assert(strings_v(cj0)[k] == cj0[k]@);
                    } else {
                        assert(credential_jwts@[k] == credential_jwts@.last());
                    }
                }
                assert(strings_v(credential_jwts@) =~= spec_jwts_for(creds0, ids).take(
                    ci as int + 1,
                ));
                assert forall|k: int| 0 <= k < ci as int + 1 implies strings_v(
                    credential_ids@,
                )[k] == ids[k] by {
                    if k < ci as int {
                        assert(credential_ids@[k] == cid0[k]);
                        assert(strings_v(cid0)[k] == cid0[k]@);
                    } else {
                        assert(credential_ids@[k] == credential_ids@.last());
                    }
                }
                assert(strings_v(credential_ids@) =~= ids.take(ci as int + 1));
            }
            ci += 1;
        }
        let pn = request.predicate_proofs.len();
        let mut pi: usize = 0;
        proof {
            assert(entries_v(presentation_data@) =~= spec_disclosure_entries(creds0, ids, table)
                + spec_pp_entries(request.predicate_proofs@).take(0));
            assert(spec_scan(creds0, ids, table, prover_did@, 0) == ScanOut::AllOk);
        }
        while pi < pn
            invariant
                0 <= pi <= pn,
                pn == request.predicate_proofs@.len(),
                self.presentations@ == old(self).presentations@,
                self.credential_service == old(self).credential_service,
                creds0 == old(self).credential_service.credentials@,
                ids == strings_v(request.credential_ids@),
                table == table_v(request.disclosed_attributes@),
                spec_find_request(old(self).requests@, request.presentation_request_id@)
                    == Some(ridx as int),
                ridx < old(self).requests@.len(),
                !(old(self).requests@[ridx as int].expires_at matches Some(e) && e < now),
                b58_dec_of(prover_private_key@) matches Some(p) && p.len() == DLM_KEYPAIRBYTES,
                sk@ == b58_dec_of(prover_private_key@)->Some_0.take(DLM_SECRETKEYBYTES as int),
                pk@ == b58_dec_of(prover_private_key@)->Some_0.skip(DLM_SECRETKEYBYTES as int),
                verifier_did@ == old(self).requests@[ridx as int].verifier_did@,
                presentation_type@ == old(self).requests@[ridx as int].presentation_type@,
                spec_scan(creds0, ids, table, prover_did@, 0) == ScanOut::AllOk,
                entries_v(presentation_data@) == spec_disclosure_entries(creds0, ids, table)
                    + spec_pp_entries(request.predicate_proofs@).take(pi as int),
                strings_v(credential_jwts@) == spec_jwts_for(creds0, ids),
                strings_v(credential_ids@) == ids,
            decreases pn - pi,
        {
            let p = &request.predicate_proofs[pi];
            let key = "predicate_".to_owned().concat(p.attribute_name.as_str());
            let ghost pd0 = presentation_data@;
            presentation_data.push(
                ClaimEntry { key, value: predicate_proof_to_value(p) },
            );
            proof {
                crate::codec::lemma_entries_v_push(pd0, presentation_data@.last());
                assert(entries_v(presentation_data@) =~= spec_disclosure_entries(
                    creds0,
                    ids,
                    table,
                ) + spec_pp_entries(request.predicate_proofs@).take(pi as int + 1));
            }
            pi += 1;
        }
        proof {
            assert(spec_pp_entries(request.predicate_proofs@).take(pn as int) =~= spec_pp_entries(
                request.predicate_proofs@,
            ));
        }
        let jwt = match create_pq_presentation_jwt(
            prover_did,
            Some(verifier_did.as_str()),
            &credential_jwts,
            sk.as_slice(),
            pk.as_slice(),
            Some(3600),
        ) {
            Ok(t) => t,
            Err(e) => {
                return Err(e);
            },
        };
        let id = new_uuid();
        let ghost jv = jwt@;
        let presentation = Presentation::new(
            id,
            prover_did.to_owned(),
            verifier_did,
            presentation_type,
            credential_ids,
            presentation_data,
            jwt.clone(),
            now,
        );
        let stored = copy_presentation(&presentation);
        self.presentations.push(stored);
        let result: Result<PresentationResponse, AppError> = Ok(
            PresentationResponse { presentation, jwt },
        );
        proof {
            assert(result->Ok_0.jwt@ == jv);
            let pairdec = b58_dec_of(prover_private_key@)->Some_0;
            assert(pk@ =~= pairdec.skip(DLM_SECRETKEYBYTES as int));
            assert(sk@ =~= pairdec.take(DLM_SECRETKEYBYTES as int));
            let (nw, jt): (int, Seq<char>) = choose|nw: int, jt: Seq<char>|
                #[trigger] spec_presentation_token_shape(
                    prover_did@,
                    Some(verifier_did@),
                    strings_v(credential_jwts@),
                    pk@,
                    sk@,
                    jv,
                    nw,
                    jt,
                    crate::jwt::spec_ttl_of(Some(3600i64)),
                );
            assert(spec_req_verifier(reqs0, request.presentation_request_id@) == Some(
                verifier_did@,
            ));
            assert(spec_presentation_token_shape(
                prover_did@,
                spec_req_verifier(reqs0, request.presentation_request_id@),
                spec_jwts_for(creds0, ids),
                pairdec.skip(DLM_SECRETKEYBYTES as int),
                pairdec.take(DLM_SECRETKEYBYTES as int),
                result->Ok_0.jwt@,
                nw,
                jt,
                Some(3600),
            ));
            assert(exists|now2: int, jti: Seq<char>|
                #[trigger] spec_presentation_token_shape(
                    prover_did@,
                    spec_req_verifier(reqs0, request.presentation_request_id@),
                    spec_jwts_for(creds0, ids),
                    b58_dec_of(prover_private_key@)->Some_0.skip(DLM_SECRETKEYBYTES as int),
                    b58_dec_of(prover_private_key@)->Some_0.take(DLM_SECRETKEYBYTES as int),
                    result->Ok_0.jwt@,
                    now2,
                    jti,
                    Some(3600),
                ));
        }
        result
    }

    /// Verify a presentation at time `now`: check its token, verify every
    /// embedded credential and every attached predicate proof, and report
    /// all findings; the subjects of the embedded credentials are returned
    /// even when some check fails.
    /// Verify a presentation at time `now`: check its token, verify every
    /// embedded credential and every attached predicate proof, and report
    /// all findings; the subjects of the embedded credentials are returned
    /// even when some check fails.
    #[verifier::rlimit(100)]
    pub fn verify_presentation_at(&self, request: &VerifyPresentationRequest, now: i64) -> (r:
        PresentationVerificationResult)
        ensures
            spec_presentation_report(
                self.credential_service.registry.entries@,
                request.presentation_jwt@,
                now as int,
                r,
            ),
    {
        let ghost reg = self.credential_service.registry.entries@;
        let ghost jwtv = request.presentation_jwt@;
        let mut errors: Vec<String> = Vec::new();
        let mut credential_subjects: Vec<Vec<ClaimEntry>> = Vec::new();
        let (_header, claims) = match verify_pq_jwt_at(request.presentation_jwt.as_str(), now) {
            Ok(hc) => hc,
            Err(_) => {
                errors.push("failed to extract presentation from token".to_owned());
                return PresentationVerificationResult {
                    is_valid: false,
                    errors,
                    prover_did: String::new(),
                    verifier_did: String::new(),
                    presentation_type: String::new(),
                    created_at: now,
                    credential_subjects,
                };
            },
        };
        let vp = match lookup_entry(&claims.additional_claims, "vp") {
            Some(v) => v,
            None => {
                errors.push("token does not carry a verifiable presentation".to_owned());
                return PresentationVerificationResult {
                    is_valid: false,
                    errors,
                    prover_did: String::new(),
                    verifier_did: String::new(),
                    presentation_type: String::new(),
                    created_at: now,
                    credential_subjects,
                };
            },
        };
        proof {
            assert(spec_vp_of_token(jwtv, now as int) == Some(vp@));
        }
        let mut is_valid = true;
        let prover_did = match value_obj_lookup(vp, "holder") {
            Some(ClaimValue::Str(s)) => s.clone(),
            _ => String::new(),
        };
        let verifier_did = match &claims.aud {
            Some(a) => a.clone(),
            None => String::new(),
        };
        let presentation_type = match value_obj_lookup(vp, "type") {
            Some(ClaimValue::Arr(ts)) => {
                if ts.len() >= 2 {
                    match &ts[1] {
                        ClaimValue::Str(s) => s.clone(),
                        _ => "VerifiablePresentation".to_owned(),
                    }
                } else {
                    "VerifiablePresentation".to_owned()
                }
            },
            _ => "VerifiablePresentation".to_owned(),
        };
        let ghost emb = vp_embedded(vp@);
        match value_obj_lookup(vp, "verifiableCredential") {
            Some(ClaimValue::Arr(tokens)) => {
                proof {
                    lemma_list_v(tokens@);
                    assert(emb == list_v(tokens@));
                    assert(emb.take(0) =~= Seq::<ValueV>::empty());
                    assert(spec_subjects(emb.take(0), now as int) =~= Seq::<
                        Seq<(Seq<char>, ValueV)>,
                    >::empty());
                    assert(subjects_v(credential_subjects@) =~= spec_subjects(
                        emb.take(0),
                        now as int,
                    ));
                }
                let tn = tokens.len();
                let mut ti: usize = 0;
                while ti < tn
                    invariant
                        0 <= ti <= tn,
                        tn == tokens@.len(),
                        reg == self.credential_service.registry.entries@,
                        emb == list_v(tokens@),
                        emb.len() == tn,
                        forall|j: int| 0 <= j < tn ==> emb[j] == (#[trigger] tokens@[j])@,
                        is_valid == all_embedded_ok(reg, emb.take(ti as int), now as int),
                        is_valid <==> errors@.len() == 0,
                        subjects_v(credential_subjects@) == spec_subjects(
                            emb.take(ti as int),
                            now as int,
                        ),
                    decreases tn - ti,
                {
                    proof {
                        assert(emb.take(ti as int + 1).drop_last() =~= emb.take(ti as int));
                        assert(emb.take(ti as int + 1).last() == emb[ti as int]);
                    }
                    match &tokens[ti] {
                        ClaimValue::Str(token) => {
                            let vreq = crate::requests::VerifyCredentialRequest {
                                credential_jwt: token.clone(),
                            };
                            let result = self.credential_service.verify_credential_at(&vreq, now);
                            if !result.is_valid {
                                errors.push("embedded credential failed verification".to_owned());
                                is_valid = false;
                            }
                            match crate::jwt::extract_credential_at(token.as_str(), now) {
                                Ok(vc) => {
                                    match value_obj_lookup(&vc, "credentialSubject") {
                                        Some(ClaimValue::Obj(subject)) => {
                                            let ghost cs0 = credential_subjects@;
                                            let trimmed = entries_without_id(subject);
                                            credential_subjects.push(trimmed);
                                            proof {
                                                assert(subjects_v(cs0).len() == cs0.len());
                                                assert forall|k: int|
                                                    0 <= k < cs0.len() + 1 implies subjects_v(
                                                    credential_subjects@,
                                                )[k] == spec_subjects(
                                                    emb.take(ti as int + 1),
                                                    now as int,
                                                )[k] by {
                                                    if k < cs0.len() {
                                                        assert(credential_subjects@[k]
                                                            == cs0[k]);
                                                        assert(subjects_v(cs0)[k] == entries_v(
                                                            cs0[k]@,
                                                        ));
                                                    } else {
                                                        assert(credential_subjects@[k]
                                                            == credential_subjects@.last());
                                                    }
                                                }
                                                assert(subjects_v(credential_subjects@)
                                                    =~= spec_subjects(
                                                    emb.take(ti as int + 1),
                                                    now as int,
                                                ));
                                            }
                                        },
                                        _ => {
                                            proof {
                                                assert(subjects_v(credential_subjects@)
                                                    =~= spec_subjects(
                                                    emb.take(ti as int + 1),
                                                    now as int,
                                                ));
                                            }
                                        },
                                    }
                                },
                                Err(_) => {
                                    proof {
                                        assert(subjects_v(credential_subjects@)
                                            =~= spec_subjects(
                                            emb.take(ti as int + 1),
                                            now as int,
                                        ));
                                    }
                                },
                            }
                        },
                        _ => {
                            proof {
                                assert(subjects_v(credential_subjects@) =~= spec_subjects(
                                    emb.take(ti as int + 1),
                                    now as int,
                                ));
                            }
                        },
                    }
                    ti += 1;
                }
                proof {
                    assert(emb.take(tn as int) =~= emb);
                }
            },
            _ => {
                proof {
                    assert(emb =~= Seq::<ValueV>::empty());
                    assert(all_embedded_ok(reg, emb, now as int));
                    assert(subjects_v(credential_subjects@) =~= spec_subjects(
                        emb,
                        now as int,
                    ));
                }
            },
        }
        let ghost emb_all = is_valid;
        proof {
            assert(emb_all == all_embedded_ok(reg, emb, now as int));
        }
        let ghost prf = vp_proofs(vp@);
        match value_obj_lookup(vp, "predicateProofs") {
            Some(ClaimValue::Arr(proofs)) => {
                proof {
                    lemma_list_v(proofs@);
                    assert(prf == list_v(proofs@));
                    assert(prf.take(0) =~= Seq::<ValueV>::empty());
                }
                let pn = proofs.len();
                let mut pi: usize = 0;
                while pi < pn
                    invariant
                        0 <= pi <= pn,
                        pn == proofs@.len(),
                        prf == list_v(proofs@),
                        prf.len() == pn,
                        forall|j: int| 0 <= j < pn ==> prf[j] == (#[trigger] proofs@[j])@,
                        is_valid == (emb_all && all_proofs_ok(prf.take(pi as int))),
                        is_valid <==> errors@.len() == 0,
                    decreases pn - pi,
                {
                    proof {
                        assert(prf.take(pi as int + 1).drop_last() =~= prf.take(pi as int));
                        assert(prf.take(pi as int + 1).last() == prf[pi as int]);
                    }
                    match value_to_predicate_proof(&proofs[pi]) {
                        Some(p) => {
                            match verify_predicate_proof(&p) {
                                Ok(_) => {},
                                Err(_) => {
                                    errors.push(
                                        "predicate proof failed verification".to_owned(),
                                    );
                                    is_valid = false;
                                },
                            }
                        },
                        None => {},
                    }
                    pi += 1;
                }
                proof {
                    assert(prf.take(pn as int) =~= prf);
                }
            },
            _ => {
                proof {
                    assert(prf =~= Seq::<ValueV>::empty());
                    assert(all_proofs_ok(prf));
                }
            },
        }
        PresentationVerificationResult {
            is_valid,
            errors,
            prover_did,
            verifier_did,
            presentation_type,
            created_at: now,
            credential_subjects,
        }
    }

    /// Verify a presentation against the current clock.
    pub fn verify_presentation(&self, request: &VerifyPresentationRequest) -> (r: Result<
        PresentationVerificationResult,
        AppError,
    >)
        ensures
            r is Ok,
            r matches Ok(out) ==> exists|now: int|
                #[trigger] spec_presentation_report(
                    self.credential_service.registry.entries@,
                    request.presentation_jwt@,
                    now,
                    out,
                ),
    {
        let now = now_ts();
        let out = self.verify_presentation_at(request, now);
        let result: Result<PresentationVerificationResult, AppError> = Ok(out);
        proof {
            assert(spec_presentation_report(
                self.credential_service.registry.entries@,
                request.presentation_jwt@,
                now as int,
                result->Ok_0,
            ));
        }
        result
    }

    /// Look a presentation up by identifier.
    pub fn get_presentation_by_id(&self, id: &str) -> (r: Result<Option<Presentation>, AppError>)
        ensures
            r is Ok,
            match r {
                Ok(Some(p)) => spec_find_presentation(self.presentations@, id@) matches Some(i)
                    && p.id@ == self.presentations@[i].id@ && p.status
                    == self.presentations@[i].status,
                Ok(None) => spec_find_presentation(self.presentations@, id@) is None,
                Err(_) => false,
            },
    {
        proof {
            lemma_find_presentation_props(self.presentations@, id@, 0);
        }
        let n = self.presentations.len();
        let mut i: usize = 0;
        while i < n
            invariant
                0 <= i <= n,
                n == self.presentations@.len(),
                spec_find_presentation_from(self.presentations@, id@, i as int)
                    == spec_find_presentation(self.presentations@, id@),
            decreases n - i,
        {
            if str_eq(self.presentations[i].id.as_str(), id) {
                return Ok(Some(copy_presentation(&self.presentations[i])));
            }
            i += 1;
        }
        Ok(None)
    }

    /// Set the status of a presentation: only its verifier may; marking it
    /// verified also stamps the time and sets the flag.
    pub fn update_presentation_status(
        &mut self,
        id: &str,
        verifier_did: &str,
        status: PresentationStatus,
        now: i64,
    ) -> (r: Result<bool, AppError>)
        ensures
            spec_find_presentation(old(self).presentations@, id@) is None ==> (r matches Err(
                AppError::NotFound(_),
            )) && final(self).presentations@ == old(self).presentations@,
            spec_find_presentation(old(self).presentations@, id@) matches Some(i) ==> {
                let p = old(self).presentations@[i];
                &&& (p.verifier_did@ != verifier_did@ ==> (r matches Err(
                    AppError::AccessDenied(_),
                )) && final(self).presentations@ == old(self).presentations@)
                &&& (p.verifier_did@ == verifier_did@ ==> r == Ok::<bool, AppError>(true) && {
                    &&& final(self).presentations@.len() == old(self).presentations@.len()
                    &&& final(self).presentations@[i].status == status
                    &&& final(self).presentations@[i].is_verified == (status
                        == PresentationStatus::Verified)
                    &&& (status == PresentationStatus::Verified
                        ==> final(self).presentations@[i].verified_at == Some(now))
                    &&& forall|j: int|
                        0 <= j < old(self).presentations@.len() && j != i
                            ==> final(self).presentations@[j] == old(self).presentations@[j]
                })
            },
    {
        proof {
            lemma_find_presentation_props(self.presentations@, id@, 0);
        }
        let idx = match self.find_presentation_index(id) {
            Some(i) => i,
            None => {
                return Err(AppError::NotFound("presentation not found".to_owned()));
            },
        };
        if !str_eq(self.presentations[idx].verifier_did.as_str(), verifier_did) {
            return Err(
                AppError::AccessDenied(
                    "only the verifier can update the presentation status".to_owned(),
                ),
            );
        }
        self.presentations[idx].status = status;
        if status == PresentationStatus::Verified {
            self.presentations[idx].verified_at = Some(now);
            self.presentations[idx].is_verified = true;
        } else {
            self.presentations[idx].is_verified = false;
        }
        Ok(true)
    }

    /// Finds the index of a stored presentation by identifier.
    fn find_presentation_index(&self, id: &str) -> (r: Option<usize>)
        ensures
            match r {
                Some(i) => spec_find_presentation(self.presentations@, id@) == Some(i as int) && i
                    < self.presentations@.len(),
                None => spec_find_presentation(self.presentations@, id@) is None,
            },
    {
        let n = self.presentations.len();
        let mut i: usize = 0;
        while i < n
            invariant
                0 <= i <= n,
                n == self.presentations@.len(),
                spec_find_presentation_from(self.presentations@, id@, i as int)
                    == spec_find_presentation(self.presentations@, id@),
            decreases n - i,
        {
            if str_eq(self.presentations[i].id.as_str(), id) {
                return Some(i);
            }
            i += 1;
        }
        None
    }
}

/// The attribute names requested for one credential, or none.
fn disclosed_names_for(table: &Vec<(String, Vec<String>)>, credential_id: &str) -> (r: Vec<
    String,
>)
    ensures
        names_v(r@) == spec_names_for(table_v(table@), credential_id@),
{
    let ghost tv = table_v(table@);
    let n = table.len();
    let mut i: usize = 0;
    proof {
        assert(tv.skip(0) =~= tv);
    }
    while i < n
        invariant
            0 <= i <= n,
            n == table@.len(),
            tv == table_v(table@),
            tv.len() == n,
            spec_names_for(tv.skip(i as int), credential_id@) == spec_names_for(
                tv,
                credential_id@,
            ),
            forall|j: int| 0 <= j < n ==> (#[trigger] tv[j]) == (table@[j].0@, names_v(table@[j].1@)),
        decreases n - i,
    {
        proof {
            assert(tv.skip(i as int)[0] == tv[i as int]);
        }
        if str_eq(table[i].0.as_str(), credential_id) {
            let mut out: Vec<String> = Vec::new();
            let m = table[i].1.len();
            let mut j: usize = 0;
            while j < m
                invariant
                    0 <= j <= m,
                    m == table@[i as int].1@.len(),
                    i < n,
                    n == table@.len(),
                    out@.len() == j,
                    forall|k: int| 0 <= k < j ==> (#[trigger] out@[k])@ == table@[i as int].1@[k]@,
                decreases m - j,
            {
                out.push(table[i].1[j].clone());
                j += 1;
            }
            proof {
                assert(names_v(out@) =~= names_v(table@[i as int].1@));
            }
            return out;
        }
        proof {
            assert(tv.skip(i as int).drop_first() =~= tv.skip(i as int + 1));
        }
        i += 1;
    }
    proof {
        assert(tv.skip(n as int) =~= Seq::<(Seq<char>, Seq<Seq<char>>)>::empty());
        assert(names_v(Seq::<String>::empty()) =~= Seq::<Seq<char>>::empty());
    }
    Vec::new()
}


/// The entries of a subject object, without its `id` key.
fn entries_without_id(subject: &Vec<ClaimEntry>) -> (r: Vec<ClaimEntry>)
    ensures
        entries_v(r@) == spec_without_id(entries_v(subject@)),
{
    let ghost sv = entries_v(subject@);
    proof {
        lemma_entries_v(subject@);
    }
    let n = subject.len();
    let mut out: Vec<ClaimEntry> = Vec::new();
    let mut i: usize = 0;
    while i < n
        invariant
            0 <= i <= n,
            n == subject@.len(),
            sv == entries_v(subject@),
            sv.len() == n,
            forall|j: int|
                0 <= j < n ==> sv[j] == ((#[trigger] subject@[j]).key@, subject@[j].value@),
            entries_v(out@) == spec_without_id(sv.take(i as int)),
        decreases n - i,
    {
        proof {
            assert(sv.take(i as int + 1).drop_last() =~= sv.take(i as int));
            assert(sv.take(i as int + 1).last() == sv[i as int]);
        }
        if !str_eq(subject[i].key.as_str(), "id") {
            let ghost out0 = out@;
            out.push(
                ClaimEntry { key: subject[i].key.clone(), value: clone_value(&subject[i].value) },
            );
            proof {
                crate::codec::lemma_entries_v_push(out0, out@.last());
                assert(entries_v(out@) =~= spec_without_id(sv.take(i as int + 1)));
            }
        } else {
            proof {
                assert(entries_v(out@) =~= spec_without_id(sv.take(i as int + 1)));
            }
        }
        i += 1;
    }
    proof {
        assert(sv.take(n as int) =~= sv);
    }
    out
}

} // verus!
