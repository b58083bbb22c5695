//! DID key pairs over the post-quantum signature scheme, and the DID
//! string format: `did:alyra:` followed by the base58 public key.

use vstd::prelude::*;

verus! {

use crate::crypto::{
    DLM_KEYPAIRBYTES, DLM_PUBLICKEYBYTES, DLM_SECRETKEYBYTES, b58_dec_of, b58_of, bs58_decode,
    bs58_encode, dilithium_sign, dilithium_verify, dlm_sig_of, dlm_verifies,
    generate_dilithium_keypair, hex_of, hex_encode,
};
use crate::errors::AppError;

/// A DID identity: the DID string, the base58 public key, and, when the
/// holder owns it, the base58 secret key.
pub struct DidKeyPair {
    pub did: String,
    pub public_key_base58: String,
    pub private_key_base58: Option<String>,
}

/// The prefix of the one supported DID method.
pub open spec fn did_prefix() -> Seq<char> {
    "did:alyra:"@
}

/// A DID is valid iff it begins with the supported method's prefix.
pub open spec fn spec_validate_did(did: Seq<char>) -> bool {
    did.len() >= 10 && did.subrange(0, 10) == did_prefix()
}

/// True iff the string uses the one supported DID method.
pub fn validate_did(did: &str) -> (r: bool)
    ensures
        r == spec_validate_did(did@),
{
    proof {
        reveal_strlit("did:alyra:");
    }
    starts_with(did, "did:alyra:")
}

/// True iff `prefix` is a prefix of `s`.
pub fn starts_with(s: &str, prefix: &str) -> (r: bool)
    ensures
        r == (s@.len() >= prefix@.len() && s@.subrange(0, prefix@.len() as int) == prefix@),
{
    let n = prefix.unicode_len();
    if s.unicode_len() < n {
        proof {
            assert(!(s@.len() >= prefix@.len()));
        }
        return false;
    }
    let mut i: usize = 0;
    while i < n
        invariant
            0 <= i <= n,
            n == prefix@.len(),
            s@.len() >= n,
            forall|j: int| 0 <= j < i ==> s@[j] == prefix@[j],
        decreases n - i,
    {
        if s.get_char(i) != prefix.get_char(i) {
            proof {
                assert(s@.subrange(0, n as int)[i as int] != prefix@[i as int]);
            }
            return false;
        }
        i += 1;
    }
    proof {
        assert(s@.subrange(0, n as int) =~= prefix@);
    }
    true
}

/// The base58 strings of a public key and an encoded key pair that belong
/// together: both decode, the pair has the combined length and carries the
/// public key as its tail, and every message signed with the secret half
/// verifies under the public key.
pub open spec fn spec_signing_pair(pk_b58: Seq<char>, sk_b58: Seq<char>) -> bool {
    &&& b58_len_of(pk_b58, DLM_PUBLICKEYBYTES as nat)
    &&& b58_len_of(sk_b58, DLM_KEYPAIRBYTES as nat)
    &&& b58_dec_of(sk_b58)->Some_0.skip(DLM_SECRETKEYBYTES as int) == b58_dec_of(
        pk_b58,
    )->Some_0
    &&& forall|m: Seq<u8>|
        dlm_verifies(
            m,
            dlm_sig_of(m, b58_dec_of(sk_b58)->Some_0.take(DLM_SECRETKEYBYTES as int)),
            b58_dec_of(pk_b58)->Some_0,
        )
}

/// The string base58-decodes to a byte sequence of length `n`.
pub open spec fn b58_len_of(s: Seq<char>, n: nat) -> bool {
    b58_dec_of(s) matches Some(b) && b.len() == n
}

/// Generate a fresh DID key pair.
pub fn generate_did() -> (r: Result<DidKeyPair, AppError>)
    ensures
        r matches Ok(kp) ==> {
            &&& kp.did@ == did_prefix() + kp.public_key_base58@
            &&& spec_validate_did(kp.did@)
            &&& kp.private_key_base58 matches Some(skb) && spec_signing_pair(
                kp.public_key_base58@,
                skb@,
            )
        },
        r is Ok,
{
    let (public_key, private_key) = generate_dilithium_keypair();
    let mut pair_bytes: Vec<u8> = Vec::new();
    append_bytes(&mut pair_bytes, private_key.as_slice());
    append_bytes(&mut pair_bytes, public_key.as_slice());
    let public_key_base58 = bs58_encode(public_key.as_slice());
    let private_key_base58 = bs58_encode(pair_bytes.as_slice());
    let did = "did:alyra:".to_owned().concat(public_key_base58.as_str());
    proof {
        reveal_strlit("did:alyra:");
        assert(did@.subrange(0, 10) =~= did_prefix());
        assert(pair_bytes@.skip(DLM_SECRETKEYBYTES as int) =~= public_key@);
        assert(pair_bytes@.take(DLM_SECRETKEYBYTES as int) =~= private_key@);
    }
    Ok(
        DidKeyPair {
            did,
            public_key_base58,
            private_key_base58: Some(private_key_base58),
        },
    )
}

/// Recover a DID key pair from a base58 secret key; the public key is the
/// tail of the secret key's byte form.
pub fn did_from_private_key(private_key_base58: &str) -> (r: Result<DidKeyPair, AppError>)
    ensures
        r is Ok <==> (b58_dec_of(private_key_base58@) matches Some(sk) && sk.len()
            >= DLM_PUBLICKEYBYTES),
        r matches Err(e) ==> (e matches AppError::CryptoError(_)),
        r matches Ok(kp) ==> {
            let sk = b58_dec_of(private_key_base58@)->Some_0;
            &&& kp.public_key_base58@ == b58_of(
                sk.skip(sk.len() - DLM_PUBLICKEYBYTES as int),
            )
            &&& kp.did@ == did_prefix() + kp.public_key_base58@
            &&& spec_validate_did(kp.did@)
            &&& kp.private_key_base58 matches Some(skb) && skb@ == private_key_base58@
        },
{
    let private_key_bytes = match bs58_decode(private_key_base58) {
        Some(v) => v,
        None => {
            return Err(AppError::CryptoError("secret key is not base58".to_owned()));
        },
    };
    if private_key_bytes.len() < DLM_PUBLICKEYBYTES {
        return Err(AppError::CryptoError("secret key is too short".to_owned()));
    }
    let start = private_key_bytes.len() - DLM_PUBLICKEYBYTES;
    let tail = crate::crypto::slice_range(
        private_key_bytes.as_slice(),
        start,
        private_key_bytes.len(),
    );
    let public_key_base58 = bs58_encode(tail.as_slice());
    let did = "did:alyra:".to_owned().concat(public_key_base58.as_str());
    proof {
        reveal_strlit("did:alyra:");
        assert(did@.subrange(0, 10) =~= did_prefix());
        let sk = b58_dec_of(private_key_base58@)->Some_0;
        assert(tail@ =~= sk.skip(sk.len() - DLM_PUBLICKEYBYTES as int));
    }
    Ok(
        DidKeyPair {
            did,
            public_key_base58,
            private_key_base58: Some(private_key_base58.to_owned()),
        },
    )
}

/// Build a public-only DID key pair from a DID string.
pub fn did_from_did(did: &str) -> (r: Result<DidKeyPair, AppError>)
    ensures
        r is Ok <==> spec_validate_did(did@),
        r matches Err(e) ==> (e matches AppError::ValidationError(_)),
        r matches Ok(kp) ==> {
            &&& kp.did@ == did@
            &&& kp.public_key_base58@ == did@.skip(10)
            &&& kp.private_key_base58 is None
        },
{
    if !validate_did(did) {
        return Err(AppError::ValidationError("only the did:alyra method is supported".to_owned()));
    }
    let n = did.unicode_len();
    let public_key_base58 = did.substring_char(10, n).to_owned();
    proof {
        assert(public_key_base58@ =~= did@.skip(10));
    }
    Ok(
        DidKeyPair {
            did: did.to_owned(),
            public_key_base58,
            private_key_base58: None,
        },
    )
}

/// Sign data with a base58 secret key: either the bare secret key or an
/// encoded key pair whose first half is the secret key.
pub fn sign(data: &[u8], private_key_base58: &str) -> (r: Result<Vec<u8>, AppError>)
    ensures
        r is Ok <==> (b58_dec_of(private_key_base58@) matches Some(sk) && (sk.len()
            == DLM_SECRETKEYBYTES || sk.len() == DLM_KEYPAIRBYTES)),
        r matches Err(e) ==> (e matches AppError::CryptoError(_)),
        r matches Ok(v) ==> v@ == dlm_sig_of(
            data@,
            b58_dec_of(private_key_base58@)->Some_0.take(DLM_SECRETKEYBYTES as int),
        ),
{
    let private_key_bytes = match bs58_decode(private_key_base58) {
        Some(v) => v,
        None => {
            return Err(AppError::CryptoError("secret key is not base58".to_owned()));
        },
    };
    if private_key_bytes.len() != DLM_SECRETKEYBYTES && private_key_bytes.len()
        != DLM_KEYPAIRBYTES {
        return Err(AppError::CryptoError("secret key has the wrong length".to_owned()));
    }
    let sk = crate::crypto::slice_range(private_key_bytes.as_slice(), 0, DLM_SECRETKEYBYTES);
    proof {
        assert(sk@ =~= b58_dec_of(private_key_base58@)->Some_0.take(DLM_SECRETKEYBYTES as int));
    }
    Ok(dilithium_sign(data, sk.as_slice()))
}

/// Appends the bytes of a slice to a vector.
fn append_bytes(out: &mut Vec<u8>, bytes: &[u8])
    ensures
        final(out)@ == old(out)@ + bytes@,
{
    let n = bytes.len();
    let mut i: usize = 0;
    while i < n
        invariant
            0 <= i <= n,
            n == bytes@.len(),
            out@ == old(out)@ + bytes@.take(i as int),
        decreases n - i,
    {
        out.push(bytes[i]);
        proof {
            assert((old(out)@ + bytes@.take(i as int)).push(bytes@[i as int]) =~= old(out)@
                + bytes@.take(i as int + 1));
        }
        i += 1;
    }
    proof {
        assert(bytes@.take(n as int) =~= bytes@);
    }
}

/// Verify a signature with a base58 public key.
pub fn verify(data: &[u8], signature: &[u8], public_key_base58: &str) -> (r: Result<
    bool,
    AppError,
>)
    ensures
        r is Ok <==> b58_len_of(public_key_base58@, DLM_PUBLICKEYBYTES as nat),
        r matches Err(e) ==> (e matches AppError::CryptoError(_)),
        r matches Ok(b) ==> b == dlm_verifies(
            data@,
            signature@,
            b58_dec_of(public_key_base58@)->Some_0,
        ),
{
    let public_key_bytes = match bs58_decode(public_key_base58) {
        Some(v) => v,
        None => {
            return Err(AppError::CryptoError("public key is not base58".to_owned()));
        },
    };
    if public_key_bytes.len() != DLM_PUBLICKEYBYTES {
        return Err(AppError::CryptoError("public key has the wrong length".to_owned()));
    }
    Ok(dilithium_verify(data, signature, public_key_bytes.as_slice()))
}

/// Sign data with a raw secret key.
pub fn pq_sign(data: &[u8], private_key: &[u8]) -> (r: Result<Vec<u8>, AppError>)
    ensures
        r is Ok <==> private_key@.len() == DLM_SECRETKEYBYTES,
        r matches Err(e) ==> (e matches AppError::CryptoError(_)),
        r matches Ok(v) ==> v@ == dlm_sig_of(data@, private_key@),
{
    if private_key.len() != DLM_SECRETKEYBYTES {
        return Err(AppError::CryptoError("secret key has the wrong length".to_owned()));
    }
    Ok(dilithium_sign(data, private_key))
}

/// Verify a signature with a raw public key.
pub fn pq_verify(data: &[u8], signature: &[u8], public_key: &[u8]) -> (r: Result<bool, AppError>)
    ensures
        r is Ok <==> public_key@.len() == DLM_PUBLICKEYBYTES,
        r matches Err(e) ==> (e matches AppError::CryptoError(_)),
        r matches Ok(b) ==> b == dlm_verifies(data@, signature@, public_key@),
{
    if public_key.len() != DLM_PUBLICKEYBYTES {
        return Err(AppError::CryptoError("public key has the wrong length".to_owned()));
    }
    Ok(dilithium_verify(data, signature, public_key))
}

/// Generate a fresh key pair with a short `did:pq` name derived from the
/// public key's first 16 bytes.
pub fn generate_pq_did() -> (r: Result<(String, Vec<u8>, Vec<u8>), AppError>)
    ensures
        r matches Ok(t) ==> {
            &&& t.0@ == "did:pq:"@ + hex_of(t.1@.take(16))
            &&& t.1@.len() == DLM_PUBLICKEYBYTES
            &&& t.2@.len() == DLM_SECRETKEYBYTES
            &&& forall|m: Seq<u8>| dlm_verifies(m, dlm_sig_of(m, t.2@), t.1@)
        },
        r is Ok,
{
    let (public_key, private_key) = generate_dilithium_keypair();
    let head = crate::crypto::slice_range(public_key.as_slice(), 0, 16);
    let hex_head = hex_encode(head.as_slice());
    let did = "did:pq:".to_owned().concat(hex_head.as_str());
    proof {
        assert(head@ =~= public_key@.take(16));
    }
    Ok((did, public_key, private_key))
}

} // verus!
