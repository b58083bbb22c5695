//! The zero-knowledge disclosure layer: selective disclosure by hash
//! commitment over the undisclosed attributes, and predicate proofs by
//! 64-bit range proofs over a comparator-specific transform.

use vstd::prelude::*;

verus! {

use crate::crypto::{
    bp_prove, bp_verify, hash_data, hex_encode, hex_of, range_proof_ok, sha256_of,
};
use crate::errors::AppError;
use crate::value::{
    ClaimEntry, ClaimValue, ValueV, clone_value, entries_v, lemma_entries_v, lookup_entry,
    spec_has_key, spec_lookup, str_eq, string_eq_str, values_equal,
};
use crate::codec::{chars_to_string, enc_value_v, push_enc_value, push_str_chars};
use vstd::utf8::encode_utf8;

/// A range proof with the commitment it verifies against and the name of
/// the attribute it speaks of.
pub struct RangeProofWithCommitment {
    pub proof: Vec<u8>,
    pub commitment: Vec<u8>,
    pub attribute_name: String,
}

/// A proof that an attribute satisfies a comparator against a public
/// threshold, carried by a range proof over the comparator's transform.
pub struct PredicateProof {
    pub attribute_name: String,
    pub predicate_type: String,
    pub predicate_value: i64,
    pub range_proof: RangeProofWithCommitment,
}

// ---------------------------------------------------------------------------
// Range and predicate proofs
// ---------------------------------------------------------------------------
/// Create a 64-bit range proof for a value.
pub fn create_range_proof(value: u64, attribute_name: &str) -> (r: Result<
    RangeProofWithCommitment,
    AppError,
>)
    ensures
        r matches Ok(p) ==> range_proof_ok(p.proof@, p.commitment@) && p.commitment@.len() == 32
            && p.attribute_name@ == attribute_name@,
        r matches Err(e) ==> (e matches AppError::CryptoError(_)),
{
    match bp_prove(value) {
        Some((proof, commitment)) => Ok(
            RangeProofWithCommitment {
                proof,
                commitment,
                attribute_name: attribute_name.to_owned(),
            },
        ),
        None => Err(AppError::CryptoError("range proof generation failed".to_owned())),
    }
}

/// Check a range proof against its own commitment.
pub fn verify_range_proof(proof_with_commitment: &RangeProofWithCommitment) -> (r: Result<
    bool,
    AppError,
>)
    ensures
        r == Ok::<bool, AppError>(true) <==> proof_with_commitment.commitment@.len() == 32
            && range_proof_ok(proof_with_commitment.proof@, proof_with_commitment.commitment@),
        r is Ok ==> r == Ok::<bool, AppError>(true),
        (r matches Err(AppError::ValidationError(_))) <==> proof_with_commitment.commitment@.len()
            != 32,
        (r matches Err(AppError::CryptoError(_))) <==> (proof_with_commitment.commitment@.len()
            == 32 && !range_proof_ok(
            proof_with_commitment.proof@,
            proof_with_commitment.commitment@,
        )),
{
    if proof_with_commitment.commitment.len() != 32 {
        return Err(AppError::ValidationError("invalid commitment length".to_owned()));
    }
    if bp_verify(
        proof_with_commitment.proof.as_slice(),
        proof_with_commitment.commitment.as_slice(),
    ) {
        Ok(true)
    } else {
        Err(AppError::CryptoError("range proof verification failed".to_owned()))
    }
}

/// Whether the comparator holds of value and threshold; `None` for an
/// unsupported comparator string.
pub open spec fn spec_predicate_holds(op: Seq<char>, value: int, threshold: int) -> Option<
    bool,
> {
    if op == ">="@ {
        Some(value >= threshold)
    } else if op == "<="@ {
        Some(value <= threshold)
    } else if op == ">"@ {
        Some(value > threshold)
    } else if op == "<"@ {
        Some(value < threshold)
    } else if op == "=="@ {
        Some(value == threshold)
    } else if op == "!="@ {
        Some(value != threshold)
    } else {
        None
    }
}

/// The comparator-specific quantity whose non-negativity the range proof
/// shows.
pub open spec fn spec_transform(op: Seq<char>, value: int, threshold: int) -> int {
    if op == ">="@ {
        value - threshold
    } else if op == "<="@ {
        threshold - value
    } else if op == ">"@ {
        value - threshold - 1
    } else if op == "<"@ {
        threshold - value - 1
    } else if op == "=="@ {
        0
    } else {
        if value >= threshold {
            value - threshold
        } else {
            threshold - value
        }
    }
}

/// Create a predicate proof: check the comparator holds, then prove the
/// transform non-negative in the 64-bit range.  When the pre-check holds
/// and the transform fits, the only failure left is the range prover's
/// own negligible abort, reported as `CryptoError`.
pub fn create_predicate_proof(
    attribute_name: &str,
    attribute_value: u64,
    predicate_type: &str,
    predicate_value: i64,
) -> (r: Result<PredicateProof, AppError>)
    ensures
        spec_predicate_holds(
            predicate_type@,
            attribute_value as int,
            predicate_value as int,
        ) is None ==> (r matches Err(AppError::ValidationError(_))),
        spec_predicate_holds(predicate_type@, attribute_value as int, predicate_value as int)
            == Some(false) ==> (r matches Err(AppError::ValidationError(_))),
        r matches Ok(p) ==> {
            &&& spec_predicate_holds(
                predicate_type@,
                attribute_value as int,
                predicate_value as int,
            ) == Some(true)
            &&& spec_transform(predicate_type@, attribute_value as int, predicate_value as int)
                <= u64::MAX
            &&& range_proof_ok(p.range_proof.proof@, p.range_proof.commitment@)
            &&& p.range_proof.commitment@.len() == 32
            &&& p.attribute_name@ == attribute_name@
            &&& p.predicate_type@ == predicate_type@
            &&& p.predicate_value == predicate_value
            &&& p.range_proof.attribute_name@ == attribute_name@
        },
        spec_predicate_holds(predicate_type@, attribute_value as int, predicate_value as int)
            == Some(true) && spec_transform(
            predicate_type@,
            attribute_value as int,
            predicate_value as int,
        ) <= u64::MAX ==> (r is Ok || (r matches Err(AppError::CryptoError(_)))),
{
    let holds: bool;
    if str_eq(predicate_type, ">=") {
        holds = (attribute_value as i128) >= (predicate_value as i128);
    } else if str_eq(predicate_type, "<=") {
        holds = (attribute_value as i128) <= (predicate_value as i128);
    } else if str_eq(predicate_type, ">") {
        holds = (attribute_value as i128) > (predicate_value as i128);
    } else if str_eq(predicate_type, "<") {
        holds = (attribute_value as i128) < (predicate_value as i128);
    } else if str_eq(predicate_type, "==") {
        holds = (attribute_value as i128) == (predicate_value as i128);
    } else if str_eq(predicate_type, "!=") {
        holds = (attribute_value as i128) != (predicate_value as i128);
    } else {
        return Err(AppError::ValidationError("unsupported predicate type".to_owned()));
    }
    if !holds {
        return Err(
            AppError::ValidationError("attribute value does not satisfy the predicate".to_owned()),
        );
    }
    let transform: i128;
    if str_eq(predicate_type, ">=") {
        transform = (attribute_value as i128) - (predicate_value as i128);
    } else if str_eq(predicate_type, "<=") {
        transform = (predicate_value as i128) - (attribute_value as i128);
    } else if str_eq(predicate_type, ">") {
        transform = (attribute_value as i128) - (predicate_value as i128) - 1;
    } else if str_eq(predicate_type, "<") {
        transform = (predicate_value as i128) - (attribute_value as i128) - 1;
    } else if str_eq(predicate_type, "==") {
        transform = 0;
    } else {
        if (attribute_value as i128) >= (predicate_value as i128) {
            transform = (attribute_value as i128) - (predicate_value as i128);
        } else {
            transform = (predicate_value as i128) - (attribute_value as i128);
        }
    }
    if transform > (u64::MAX as i128) {
        return Err(
            AppError::ValidationError("predicate transform exceeds the 64-bit range".to_owned()),
        );
    }
    let range_proof = match create_range_proof(transform as u64, attribute_name) {
        Ok(p) => p,
        Err(e) => {
            return Err(e);
        },
    };
    Ok(
        PredicateProof {
            attribute_name: attribute_name.to_owned(),
            predicate_type: predicate_type.to_owned(),
            predicate_value,
            range_proof,
        },
    )
}

/// Check a predicate proof: its embedded range proof must verify against
/// its own commitment.
pub fn verify_predicate_proof(proof: &PredicateProof) -> (r: Result<bool, AppError>)
    ensures
        r == Ok::<bool, AppError>(true) <==> proof.range_proof.commitment@.len() == 32
            && range_proof_ok(proof.range_proof.proof@, proof.range_proof.commitment@),
        r is Ok ==> r == Ok::<bool, AppError>(true),
{
    match verify_range_proof(&proof.range_proof) {
        Ok(b) => Ok(b),
        Err(e) => Err(e),
    }
}

// ---------------------------------------------------------------------------
// Selective disclosure
// ---------------------------------------------------------------------------
/// The reserved key under which the undisclosed-attribute hash travels.
pub open spec fn reserved_key() -> Seq<char> {
    "_undisclosed_hash"@
}

/// True iff some name in the list equals `k`.
pub open spec fn contains_name(names: Seq<Seq<char>>, k: Seq<char>) -> bool {
    exists|i: int| 0 <= i < names.len() && names[i] == k
}

/// The concatenation of key and encoded value for every attribute whose
/// key is not among `names`, in attribute order.
pub open spec fn spec_transcript(
    entries: Seq<(Seq<char>, ValueV)>,
    names: Seq<Seq<char>>,
) -> Seq<char>
    decreases entries.len(),
{
    if entries.len() == 0 {
        Seq::empty()
    } else {
        let rest = spec_transcript(entries.drop_first(), names);
        if contains_name(names, entries.first().0) {
            rest
        } else {
            entries.first().0 + enc_value_v(entries.first().1) + rest
        }
    }
}

/// The hex digest over the undisclosed attributes.
pub open spec fn spec_undisclosed_hash(
    entries: Seq<(Seq<char>, ValueV)>,
    names: Seq<Seq<char>>,
) -> Seq<char> {
    hex_of(sha256_of(encode_utf8(spec_transcript(entries, names))))
}

/// The models of a list of attribute names.
pub open spec fn names_v(names: Seq<String>) -> Seq<Seq<char>> {
    Seq::new(names.len(), |i: int| names[i]@)
}

/// The disclosed mapping built from attributes and a name list: the named
/// attributes in list order, then the undisclosed hash under the reserved
/// key.
pub open spec fn spec_disclosed_of(
    entries: Seq<(Seq<char>, ValueV)>,
    names: Seq<Seq<char>>,
) -> Seq<(Seq<char>, ValueV)> {
    Seq::new(names.len(), |i: int| (names[i], spec_lookup(entries, names[i])->Some_0)).push(
        (reserved_key(), ValueV::Str(spec_undisclosed_hash(entries, names))),
    )
}

/// True iff the names in the list are pairwise distinct.
pub open spec fn distinct_names(names: Seq<Seq<char>>) -> bool {
    forall|i: int, j: int|
        0 <= i < j < names.len() ==> (#[trigger] names[i]) != (#[trigger] names[j])
}

/// Build a selective disclosure: copy the requested attributes and commit
/// to the rest by a hash over their concatenation.
#[verifier::loop_isolation(false)]
pub fn create_selective_disclosure(
    credential_data: &Vec<ClaimEntry>,
    disclosed_attributes: &[String],
) -> (r: Result<Vec<ClaimEntry>, AppError>)
    ensures
        r is Ok <==> (forall|i: int|
            0 <= i < disclosed_attributes@.len() ==> spec_has_key(
                entries_v(credential_data@),
                (#[trigger] disclosed_attributes@[i])@,
            )),
        r matches Err(e) ==> (e matches AppError::ValidationError(_)),
        r matches Ok(d) ==> entries_v(d@) == spec_disclosed_of(
            entries_v(credential_data@),
            names_v(disclosed_attributes@),
        ),
{
    let ghost m = entries_v(credential_data@);
    let ghost nv = names_v(disclosed_attributes@);
    let mut disclosed: Vec<ClaimEntry> = Vec::new();
    let n = disclosed_attributes.len();
    let mut i: usize = 0;
    while i < n
        invariant
            0 <= i <= n,
            n == disclosed_attributes@.len(),
            m == entries_v(credential_data@),
            nv == names_v(disclosed_attributes@),
            disclosed@.len() == i,
            forall|j: int|
                0 <= j < i ==> spec_has_key(m, (#[trigger] disclosed_attributes@[j])@),
            forall|j: int|
                0 <= j < i ==> (#[trigger] disclosed@[j]).key@ == nv[j] && Some(
                    disclosed@[j].value@,
                ) == spec_lookup(m, nv[j]),
        decreases n - i,
    {
        let name = &disclosed_attributes[i];
        match lookup_entry(credential_data, name.as_str()) {
            Some(v) => {
                let copy = clone_value(v);
                disclosed.push(ClaimEntry { key: name.clone(), value: copy });
            },
            None => {
                return Err(
                    AppError::ValidationError("attribute not found in credential".to_owned()),
                );
            },
        }
        i += 1;
    }
    let transcript = build_transcript(credential_data, disclosed_attributes);
    let t_str = chars_to_string(&transcript);
    let digest = hash_data(t_str.as_str().as_bytes_vec().as_slice());
    let digest_hex = hex_encode(digest.as_slice());
    disclosed.push(
        ClaimEntry { key: "_undisclosed_hash".to_owned(), value: ClaimValue::Str(digest_hex) },
    );
    proof {
        lemma_entries_v(disclosed@);
        reveal_strlit("_undisclosed_hash");
        let d = entries_v(disclosed@);
        let sd = spec_disclosed_of(m, nv);
        assert(disclosed@.last().key@ == reserved_key());
        assert(disclosed@.last().value@ == ValueV::Str(spec_undisclosed_hash(m, nv)));
        assert forall|j: int| 0 <= j < d.len() implies d[j] == sd[j] by {
            assert(d[j] == (disclosed@[j].key@, disclosed@[j].value@));
            if j < nv.len() {
                assert(disclosed@[j].key@ == nv[j]);
                assert(Some(disclosed@[j].value@) == spec_lookup(m, nv[j]));
            } else {
                assert(disclosed@[j] == disclosed@.last());
            }
        }
        assert(d =~= sd);
    }
    Ok(disclosed)
}

/// Builds the transcript over the attributes not named.
#[verifier::loop_isolation(false)]
fn build_transcript(credential_data: &Vec<ClaimEntry>, names: &[String]) -> (r: Vec<char>)
    ensures
        r@ == spec_transcript(entries_v(credential_data@), names_v(names@)),
{
    let ghost m = entries_v(credential_data@);
    let ghost nv = names_v(names@);
    proof {
        lemma_entries_v(credential_data@);
    }
    let n = credential_data.len();
    let mut out: Vec<char> = Vec::new();
    let mut i: usize = 0;
    proof {
        assert(m.skip(0) =~= m);
    }
    while i < n
        invariant
            0 <= i <= n,
            n == credential_data@.len(),
            m == entries_v(credential_data@),
            nv == names_v(names@),
            m.len() == n,
            forall|j: int|
                0 <= j < n ==> m[j] == ((#[trigger] credential_data@[j]).key@,
                credential_data@[j].value@),
            out@ + spec_transcript(m.skip(i as int), nv) == spec_transcript(m, nv),
        decreases n - i,
    {
        let in_names = name_listed(&credential_data[i].key, names);
        proof {
            assert(m.skip(i as int)[0] == m[i as int]);
            assert(m.skip(i as int).drop_first() =~= m.skip(i as int + 1));
        }
        if !in_names {
            push_str_chars(credential_data[i].key.as_str(), &mut out);
            push_enc_value(&credential_data[i].value, &mut out);
            proof {
                assert(out@ + spec_transcript(m.skip(i as int + 1), nv) =~= spec_transcript(
                    m,
                    nv,
                ));
            }
        }
        i += 1;
    }
    proof {
        assert(m.skip(n as int) =~= Seq::<(Seq<char>, ValueV)>::empty());
        assert(out@ =~= spec_transcript(m, nv));
    }
    out
}

/// True iff the key equals one of the names.
fn name_listed(key: &String, names: &[String]) -> (r: bool)
    ensures
        r == contains_name(names_v(names@), key@),
{
    let n = names.len();
    let mut i: usize = 0;
    while i < n
        invariant
            0 <= i <= n,
            n == names@.len(),
            forall|j: int| 0 <= j < i ==> (#[trigger] names@[j])@ != key@,
        decreases n - i,
    {
        if str_eq(key.as_str(), names[i].as_str()) {
            proof {
                assert(names_v(names@)[i as int] == key@);
            }
            return true;
        }
        i += 1;
    }
    proof {
        assert forall|j: int| 0 <= j < names_v(names@).len() implies names_v(names@)[j]
            != key@ by {
            assert(names@[j]@ != key@);
        }
    }
    false
}

/// What verifying a disclosure against the original attributes means:
/// every disclosed attribute other than the reserved one matches the
/// original; the reserved value, when present, equals the hash over the
/// original attributes not among the disclosed keys; with no reserved
/// value, the disclosure must cover every one of the original's
/// attributes (and, by the first clause, nothing else).
pub open spec fn spec_verify_disclosure(
    orig: Seq<(Seq<char>, ValueV)>,
    disc: Seq<(Seq<char>, ValueV)>,
) -> bool {
    &&& (forall|i: int|
        0 <= i < disc.len() && (#[trigger] disc[i]).0 != reserved_key() ==> spec_lookup(
            orig,
            disc[i].0,
        ) == Some(disc[i].1))
    &&& match spec_lookup(disc, reserved_key()) {
        Some(ValueV::Str(hh)) => hh == spec_undisclosed_hash(orig, keys_of(disc)),
        Some(_) => false,
        None => forall|i: int|
            0 <= i < orig.len() ==> spec_has_key(disc, (#[trigger] orig[i]).0),
    }
}

/// The keys of an attribute mapping, in order.
pub open spec fn keys_of(entries: Seq<(Seq<char>, ValueV)>) -> Seq<Seq<char>> {
    Seq::new(entries.len(), |i: int| entries[i].0)
}

/// Check a disclosure against the original attributes.
#[verifier::loop_isolation(false)]
pub fn verify_selective_disclosure(
    original_credential: &Vec<ClaimEntry>,
    disclosed_data: &Vec<ClaimEntry>,
) -> (r: Result<bool, AppError>)
    ensures
        r == Ok::<bool, AppError>(
            spec_verify_disclosure(
                entries_v(original_credential@),
                entries_v(disclosed_data@),
            ),
        ),
{
    let ghost orig = entries_v(original_credential@);
    let ghost disc = entries_v(disclosed_data@);
    proof {
        lemma_entries_v(original_credential@);
        lemma_entries_v(disclosed_data@);
    }
    let n = disclosed_data.len();
    let mut i: usize = 0;
    while i < n
        invariant
            0 <= i <= n,
            n == disclosed_data@.len(),
            orig == entries_v(original_credential@),
            disc == entries_v(disclosed_data@),
            disc.len() == n,
            forall|j: int|
                0 <= j < n ==> disc[j] == ((#[trigger] disclosed_data@[j]).key@,
                disclosed_data@[j].value@),
            forall|j: int|
                0 <= j < i && (#[trigger] disc[j]).0 != reserved_key() ==> spec_lookup(
                    orig,
                    disc[j].0,
                ) == Some(disc[j].1),
        decreases n - i,
    {
        let entry = &disclosed_data[i];
        proof {
            reveal_strlit("_undisclosed_hash");
        }
        if !string_eq_str(&entry.key, "_undisclosed_hash") {
            match lookup_entry(original_credential, entry.key.as_str()) {
                Some(ov) => {
                    if !values_equal(&entry.value, ov) {
                        proof {
                            assert(spec_lookup(orig, disc[i as int].0) != Some(
                                disc[i as int].1,
                            ));
                        }
                        return Ok(false);
                    }
                },
                None => {
                    return Ok(false);
                },
            }
        }
        i += 1;
    }
    proof {
        reveal_strlit("_undisclosed_hash");
    }
    match lookup_entry(disclosed_data, "_undisclosed_hash") {
        Some(ClaimValue::Str(hash_hex)) => {
            let keys = entry_keys(disclosed_data);
            let transcript = build_transcript(original_credential, keys.as_slice());
            let t_str = chars_to_string(&transcript);
            let digest = hash_data(t_str.as_str().as_bytes_vec().as_slice());
            let digest_hex = hex_encode(digest.as_slice());
            proof {
                assert(names_v(keys@) =~= keys_of(disc));
            }
            Ok(string_eq_str(hash_hex, digest_hex.as_str()))
        },
        Some(_) => Ok(false),
        None => {
            let on = original_credential.len();
            let mut oi: usize = 0;
            while oi < on
                invariant
                    0 <= oi <= on,
                    on == original_credential@.len(),
                    orig == entries_v(original_credential@),
                    disc == entries_v(disclosed_data@),
                    orig.len() == on,
                    forall|j: int|
                        0 <= j < on ==> orig[j] == ((#[trigger] original_credential@[j]).key@,
                        original_credential@[j].value@),
                    forall|j: int| 0 <= j < oi ==> spec_has_key(disc, (#[trigger] orig[j]).0),
                decreases on - oi,
            {
                match lookup_entry(disclosed_data, original_credential[oi].key.as_str()) {
                    Some(_) => {},
                    None => {
                        return Ok(false);
                    },
                }
                oi += 1;
            }
            Ok(true)
        },
    }
}

/// Looking a key up that only the last entry carries finds that entry.
proof fn lemma_lookup_last(entries: Seq<(Seq<char>, ValueV)>, k: Seq<char>)
    requires
        entries.len() >= 1,
        forall|i: int| 0 <= i < entries.len() - 1 ==> (#[trigger] entries[i]).0 != k,
        entries.last().0 == k,
    ensures
        spec_lookup(entries, k) == Some(entries.last().1),
    decreases entries.len(),
{
    if entries.len() > 1 {
        assert(entries[0].0 != k);
        assert(entries.drop_first().last() == entries.last());
        lemma_lookup_last(entries.drop_first(), k);
    }
}

/// Adding a name no key carries does not change what a name list holds.
proof fn lemma_contains_push(names: Seq<Seq<char>>, x: Seq<char>, k: Seq<char>)
    requires
        k != x,
    ensures
        contains_name(names.push(x), k) == contains_name(names, k),
{
    if contains_name(names.push(x), k) {
        let i = choose|i: int| 0 <= i < names.push(x).len() && names.push(x)[i] == k;
        assert(i < names.len());
        assert(names[i] == k);
    }
    if contains_name(names, k) {
        let i = choose|i: int| 0 <= i < names.len() && names[i] == k;
        assert(names.push(x)[i] == k);
    }
}

/// Adding the reserved name to the exclusion list leaves the transcript
/// unchanged when no attribute carries that name.
proof fn lemma_transcript_push_reserved(
    entries: Seq<(Seq<char>, ValueV)>,
    names: Seq<Seq<char>>,
)
    requires
        forall|i: int| 0 <= i < entries.len() ==> (#[trigger] entries[i]).0 != reserved_key(),
    ensures
        spec_transcript(entries, names.push(reserved_key())) == spec_transcript(entries, names),
    decreases entries.len(),
{
    if entries.len() > 0 {
        assert(entries[0].0 != reserved_key());
        lemma_contains_push(names, reserved_key(), entries.first().0);
        assert(forall|i: int|
            0 <= i < entries.drop_first().len() ==> (#[trigger] entries.drop_first()[i]).0
                != reserved_key());
        lemma_transcript_push_reserved(entries.drop_first(), names);
    }
}

/// A disclosure built from an attribute mapping verifies against that
/// mapping: every disclosed attribute matches, and the hash over the
/// undisclosed attributes recomputes to the committed value.  The
/// attribute mapping must not itself use the reserved key, and every
/// requested name must be present.
pub proof fn lemma_disclosure_round_trip(orig: Seq<(Seq<char>, ValueV)>, names: Seq<Seq<char>>)
    requires
        forall|i: int| 0 <= i < names.len() ==> spec_has_key(orig, #[trigger] names[i]),
        forall|i: int| 0 <= i < orig.len() ==> (#[trigger] orig[i]).0 != reserved_key(),
    ensures
        spec_verify_disclosure(orig, spec_disclosed_of(orig, names)),
{
    let disc = spec_disclosed_of(orig, names);
    assert forall|i: int| 0 <= i < names.len() implies names[i] != reserved_key() by {
        assert(spec_has_key(orig, names[i]));
        if names[i] == reserved_key() {
            lemma_lookup_absent(orig, names[i]);
        }
    }
    assert forall|i: int|
        0 <= i < disc.len() && (#[trigger] disc[i]).0 != reserved_key() implies spec_lookup(
        orig,
        disc[i].0,
    ) == Some(disc[i].1) by {
        assert(i < names.len());
        assert(disc[i] == (names[i], spec_lookup(orig, names[i])->Some_0));
    }
    assert forall|i: int| 0 <= i < disc.len() - 1 implies (#[trigger] disc[i]).0
        != reserved_key() by {
        assert(disc[i].0 == names[i]);
    }
    assert(disc.last().0 == reserved_key());
    lemma_lookup_last(disc, reserved_key());
    assert(keys_of(disc) =~= names.push(reserved_key()));
    lemma_transcript_push_reserved(orig, names);
    assert(spec_undisclosed_hash(orig, keys_of(disc)) == spec_undisclosed_hash(orig, names));
}

/// A mapping none of whose keys is `k` holds nothing under `k`.
proof fn lemma_lookup_absent(entries: Seq<(Seq<char>, ValueV)>, k: Seq<char>)
    requires
        forall|i: int| 0 <= i < entries.len() ==> (#[trigger] entries[i]).0 != k,
    ensures
        spec_lookup(entries, k) is None,
    decreases entries.len(),
{
    if entries.len() > 0 {
        assert(entries[0].0 != k);
        lemma_lookup_absent(entries.drop_first(), k);
    }
}

/// The keys of an attribute list, in order.
fn entry_keys(entries: &Vec<ClaimEntry>) -> (r: Vec<String>)
    ensures
        names_v(r@) == keys_of(entries_v(entries@)),
        r@.len() == entries@.len(),
{
    proof {
        lemma_entries_v(entries@);
    }
    let n = entries.len();
    let mut out: Vec<String> = Vec::new();
    let mut i: usize = 0;
    while i < n
        invariant
            0 <= i <= n,
            n == entries@.len(),
            out@.len() == i,
            forall|j: int| 0 <= j < i ==> (#[trigger] out@[j])@ == entries@[j].key@,
        decreases n - i,
    {
        out.push(entries[i].key.clone());
        i += 1;
    }
    proof {
        lemma_entries_v(entries@);
        assert(names_v(out@) =~= keys_of(entries_v(entries@)));
    }
    out
}

} // verus!
