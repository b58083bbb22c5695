//! Cryptographic primitives and encodings, taken from outside crates
//! behind trusted wrappers, together with the verified helpers built on
//! them.
//!
//! Each wrapper's contract states only what the outside crate's source or
//! documentation shows.  Results that depend on nothing but the arguments
//! are given names (`sha256_of`, `b64u_of`, ...); results drawn from
//! randomness or the clock get no name, and callers state what holds of
//! every outcome.

use vstd::prelude::*;

verus! {

use crate::errors::AppError;

use aes_gcm::aead::{Aead, KeyInit};
use rand::RngCore;
use sha2::Digest;

// ---------------------------------------------------------------------------
// Hex encoding (exactly specified)
// ---------------------------------------------------------------------------
/// The lowercase hex digit for `d` (`d < 16`).
pub open spec fn hex_digit(d: nat) -> char {
    if d < 10 {
        ((d + 0x30) as u8) as char
    } else {
        ((d - 10 + 0x61) as u8) as char
    }
}

/// The lowercase hex form of a byte sequence: two digits per byte.
pub open spec fn hex_of(bytes: Seq<u8>) -> Seq<char> {
    Seq::new(
        2 * bytes.len(),
        |i: int|
            if i % 2 == 0 {
                hex_digit((bytes[i / 2] / 16) as nat)
            } else {
                hex_digit((bytes[i / 2] % 16) as nat)
            },
    )
}

/// True iff the character is a hex digit, either case.
pub open spec fn is_hex_char(c: char) -> bool {
    ('0' <= c && c <= '9') || ('a' <= c && c <= 'f') || ('A' <= c && c <= 'F')
}

/// The value of a hex digit character, either case.
pub open spec fn hex_char_val(c: char) -> nat {
    if '0' <= c && c <= '9' {
        (c as nat - 0x30) as nat
    } else if 'a' <= c && c <= 'f' {
        (c as nat - 0x61 + 10) as nat
    } else {
        (c as nat - 0x41 + 10) as nat
    }
}

/// Decodes a hex string: defined iff the length is even and every
/// character is a hex digit.
pub open spec fn hex_dec_of(s: Seq<char>) -> Option<Seq<u8>> {
    if s.len() % 2 == 0 && (forall|i: int| 0 <= i < s.len() ==> is_hex_char(#[trigger] s[i])) {
        Some(
            Seq::new(
                s.len() / 2,
                |i: int| (hex_char_val(s[2 * i]) * 16 + hex_char_val(s[2 * i + 1])) as u8,
            ),
        )
    } else {
        None
    }
}

/// Hex encoding decodes back to the bytes it came from.
pub proof fn lemma_hex_rt(bytes: Seq<u8>)
    ensures
        hex_dec_of(hex_of(bytes)) == Some(bytes),
{
    let s = hex_of(bytes);
    assert forall|i: int| 0 <= i < s.len() implies is_hex_char(#[trigger] s[i]) by {
        let b = bytes[i / 2];
        assert(b / 16 < 16 && b % 16 < 16);
        lemma_hex_digit((b / 16) as nat);
        lemma_hex_digit((b % 16) as nat);
    }
    let dec = hex_dec_of(s)->Some_0;
    assert forall|i: int| 0 <= i < bytes.len() implies dec[i] == bytes[i] by {
        let b = bytes[i];
        assert(s[2 * i] == hex_digit((b / 16) as nat));
        assert(s[2 * i + 1] == hex_digit((b % 16) as nat));
        lemma_hex_digit((b / 16) as nat);
        lemma_hex_digit((b % 16) as nat);
        assert(hex_char_val(s[2 * i]) == b / 16 && hex_char_val(s[2 * i + 1]) == b % 16);
        assert((b / 16) * 16 + b % 16 == b) by (nonlinear_arith);
    }
    assert(dec =~= bytes);
}

/// A hex digit character is a hex digit with the expected value.
pub proof fn lemma_hex_digit(d: nat)
    requires
        d < 16,
    ensures
        is_hex_char(hex_digit(d)),
        hex_char_val(hex_digit(d)) == d,
        !('A' <= hex_digit(d) && hex_digit(d) <= 'F'),
{
    if d < 10 {
        assert(hex_digit(d) as int == 0x30 + d);
    } else {
        assert(hex_digit(d) as int == 0x61 + d - 10);
    }
}

/// Relies on `hex::encode`: lowercase, two digits per byte, high nibble
/// first.
#[verifier::external_body]
pub(crate) fn hex_encode(bytes: &[u8]) -> (r: String)
    ensures
        r@ == hex_of(bytes@),
{
    hex::encode(bytes)
}

/// Relies on `hex::decode`: accepts an even number of hex digits of
/// either case and yields their bytes; rejects anything else.
#[verifier::external_body]
pub(crate) fn hex_decode(s: &str) -> (r: Option<Vec<u8>>)
    ensures
        match r {
            Some(v) => hex_dec_of(s@) == Some(v@),
            None => hex_dec_of(s@) is None,
        },
{
    match hex::decode(s) {
        Ok(v) => Some(v),
        Err(_) => None,
    }
}

// ---------------------------------------------------------------------------
// Base64url (no padding)
// ---------------------------------------------------------------------------
/// What `base64`'s URL-safe no-pad engine makes of a byte sequence.
pub uninterp spec fn b64u_of(bytes: Seq<u8>) -> Seq<char>;

/// What `base64`'s URL-safe no-pad decoding makes of a string.
pub uninterp spec fn b64u_dec_of(s: Seq<char>) -> Option<Seq<u8>>;

/// Relies on `base64::engine::general_purpose::URL_SAFE_NO_PAD.encode`:
/// the alphabet is `A-Z a-z 0-9 - _` (so never `.`), and decoding the
/// encoding of bytes yields those bytes back.
#[verifier::external_body]
pub(crate) fn b64u_encode(bytes: &[u8]) -> (r: String)
    ensures
        r@ == b64u_of(bytes@),
        b64u_dec_of(r@) == Some(bytes@),
        forall|i: int| 0 <= i < r@.len() ==> r@[i] != '.',
{
    base64::Engine::encode(&base64::engine::general_purpose::URL_SAFE_NO_PAD, bytes)
}

/// Relies on `base64::engine::general_purpose::URL_SAFE_NO_PAD.decode`.
#[verifier::external_body]
pub(crate) fn b64u_decode(s: &str) -> (r: Option<Vec<u8>>)
    ensures
        match r {
            Some(v) => b64u_dec_of(s@) == Some(v@),
            None => b64u_dec_of(s@) is None,
        },
{
    match base64::Engine::decode(&base64::engine::general_purpose::URL_SAFE_NO_PAD, s) {
        Ok(v) => Some(v),
        Err(_) => None,
    }
}

/// What encoding a string's UTF-8 bytes with the URL-safe no-pad engine
/// yields.
pub uninterp spec fn b64u_str_of(s: Seq<char>) -> Seq<char>;

/// What decoding a string with the URL-safe no-pad engine and reading the
/// bytes back as UTF-8 yields.
pub uninterp spec fn b64u_str_dec_of(s: Seq<char>) -> Option<Seq<char>>;

/// Relies on `base64::engine::general_purpose::URL_SAFE_NO_PAD.encode`
/// over the string's UTF-8 bytes: the alphabet has no `.`, and decoding
/// the encoding of a string yields that string back.
#[verifier::external_body]
pub(crate) fn b64u_encode_str(s: &str) -> (r: String)
    ensures
        r@ == b64u_str_of(s@),
        b64u_str_dec_of(r@) == Some(s@),
        forall|i: int| 0 <= i < r@.len() ==> r@[i] != '.',
{
    base64::Engine::encode(&base64::engine::general_purpose::URL_SAFE_NO_PAD, s.as_bytes())
}

/// Relies on `base64::engine::general_purpose::URL_SAFE_NO_PAD.decode`,
/// with the bytes read back as UTF-8.
#[verifier::external_body]
pub(crate) fn b64u_decode_str(s: &str) -> (r: Option<String>)
    ensures
        match r {
            Some(v) => b64u_str_dec_of(s@) == Some(v@),
            None => b64u_str_dec_of(s@) is None,
        },
{
    match base64::Engine::decode(&base64::engine::general_purpose::URL_SAFE_NO_PAD, s) {
        Ok(v) => match String::from_utf8(v) {
            Ok(out) => Some(out),
            Err(_) => None,
        },
        Err(_) => None,
    }
}

// ---------------------------------------------------------------------------
// Base58
// ---------------------------------------------------------------------------
/// What `bs58` encoding makes of a byte sequence.
pub uninterp spec fn b58_of(bytes: Seq<u8>) -> Seq<char>;

/// What `bs58` decoding makes of a string.
pub uninterp spec fn b58_dec_of(s: Seq<char>) -> Option<Seq<u8>>;

/// Relies on `bs58::encode`: decoding the encoding of bytes yields those
/// bytes back.
#[verifier::external_body]
pub(crate) fn bs58_encode(bytes: &[u8]) -> (r: String)
    ensures
        r@ == b58_of(bytes@),
        b58_dec_of(r@) == Some(bytes@),
{
    bs58::encode(bytes).into_string()
}

/// Relies on `bs58::decode`.
#[verifier::external_body]
pub(crate) fn bs58_decode(s: &str) -> (r: Option<Vec<u8>>)
    ensures
        match r {
            Some(v) => b58_dec_of(s@) == Some(v@),
            None => b58_dec_of(s@) is None,
        },
{
    match bs58::decode(s).into_vec() {
        Ok(v) => Some(v),
        Err(_) => None,
    }
}

// ---------------------------------------------------------------------------
// SHA-256
// ---------------------------------------------------------------------------
/// What SHA-256 makes of a byte sequence.
pub uninterp spec fn sha256_of(bytes: Seq<u8>) -> Seq<u8>;

/// Hash data using SHA-256.
///
/// Relies on `sha2::Sha256`: the digest depends on the input alone and is
/// 32 bytes long.
#[verifier::external_body]
pub fn hash_data(data: &[u8]) -> (r: Vec<u8>)
    ensures
        r@ == sha256_of(data@),
        r@.len() == 32,
{
    let mut hasher = sha2::Sha256::new();
    hasher.update(data);
    hasher.finalize().to_vec()
}

/// Hash data and return the digest as lowercase hex.
pub fn hash_to_hex(data: &[u8]) -> (r: String)
    ensures
        r@ == hex_of(sha256_of(data@)),
{
    let hash = hash_data(data);
    hex_encode(hash.as_slice())
}

// ---------------------------------------------------------------------------
// Randomness, identifiers, time
// ---------------------------------------------------------------------------
/// Generate a random 32-byte encryption key.
///
/// Relies on `rand::rngs::OsRng::fill_bytes`; nothing is promised of the
/// outcome.
#[verifier::external_body]
pub fn generate_key() -> (r: [u8; 32])
{
    let mut key = [0u8; 32];
    rand::rngs::OsRng.fill_bytes(&mut key);
    key
}

/// Generate a random 16-byte salt for key derivation.
///
/// Relies on `rand::rngs::OsRng::fill_bytes`; nothing is promised of the
/// outcome.
#[verifier::external_body]
pub fn generate_salt() -> (r: [u8; 16])
{
    let mut salt = [0u8; 16];
    rand::rngs::OsRng.fill_bytes(&mut salt);
    salt
}

/// Relies on `rand::rngs::OsRng::fill_bytes`; yields `len` bytes and
/// nothing is promised of their values.
#[verifier::external_body]
fn random_bytes(len: usize) -> (r: Vec<u8>)
    ensures
        r@.len() == len,
{
    let mut bytes = vec![0u8; len];
    rand::rngs::OsRng.fill_bytes(&mut bytes);
    bytes
}

/// Generate a random URL-safe string of `length` random bytes.
pub fn generate_secure_string(length: usize) -> (r: String)
{
    let bytes = random_bytes(length);
    b64u_encode(bytes.as_slice())
}

/// Relies on `uuid::Uuid::new_v4` and its hyphenated form: 36 characters.
#[verifier::external_body]
pub(crate) fn new_uuid() -> (r: String)
    ensures
        r@.len() == 36,
{
    uuid::Uuid::new_v4().to_string()
}

/// Relies on `chrono::Utc::now`: the current Unix timestamp in seconds;
/// nothing is promised of the value.
#[verifier::external_body]
pub(crate) fn now_ts() -> (r: i64)
{
    chrono::Utc::now().timestamp()
}

/// Whether `chrono` parses the string as an RFC 3339 date-time.
pub uninterp spec fn rfc3339_ok(s: Seq<char>) -> bool;

/// Relies on `chrono::DateTime::parse_from_rfc3339`: acceptance depends
/// on the characters alone.
#[verifier::external_body]
pub(crate) fn is_rfc3339(s: &str) -> (r: bool)
    ensures
        r == rfc3339_ok(s@),
{
    chrono::DateTime::parse_from_rfc3339(s).is_ok()
}

// ---------------------------------------------------------------------------
// AES-256-GCM and PBKDF2
// ---------------------------------------------------------------------------
/// What AES-256-GCM decryption (12-byte nonce prefix convention) makes of
/// a blob under a 32-byte key.
pub uninterp spec fn aead_dec_of(blob: Seq<u8>, key: Seq<u8>) -> Option<Seq<u8>>;

/// Relies on `aes_gcm::Aes256Gcm::encrypt` with a fresh random 12-byte
/// nonce prepended: the result is nonce plus ciphertext with a 16-byte
/// tag, and decrypting it under the same key yields the data back.
#[verifier::external_body]
pub(crate) fn aead_encrypt(data: &[u8], key: &[u8]) -> (r: Option<Vec<u8>>)
    requires
        key@.len() == 32,
    ensures
        r matches Some(v) ==> aead_dec_of(v@, key@) == Some(data@) && v@.len() == data@.len()
            + 28,
{
    let cipher = aes_gcm::Aes256Gcm::new_from_slice(key).ok()?;
    let mut nonce_bytes = [0u8; 12];
    rand::rngs::OsRng.fill_bytes(&mut nonce_bytes);
    let ciphertext = cipher.encrypt(aes_gcm::Nonce::from_slice(&nonce_bytes), data).ok()?;
    let mut result = nonce_bytes.to_vec();
    result.extend_from_slice(&ciphertext);
    Some(result)
}

/// Relies on `aes_gcm::Aes256Gcm::decrypt`, reading the first 12 bytes as
/// the nonce.
#[verifier::external_body]
pub(crate) fn aead_decrypt(blob: &[u8], key: &[u8]) -> (r: Option<Vec<u8>>)
    requires
        key@.len() == 32,
        blob@.len() >= 12,
    ensures
        match r {
            Some(v) => aead_dec_of(blob@, key@) == Some(v@),
            None => aead_dec_of(blob@, key@) is None,
        },
{
    let cipher = aes_gcm::Aes256Gcm::new_from_slice(key).ok()?;
    cipher.decrypt(aes_gcm::Nonce::from_slice(&blob[..12]), &blob[12..]).ok()
}

/// What PBKDF2-HMAC-SHA256 with 10000 rounds makes of a password and salt.
pub uninterp spec fn pbkdf2_of(password: Seq<char>, salt: Seq<u8>) -> Seq<u8>;

/// Derive a 32-byte key from a password.
///
/// Relies on `pbkdf2::pbkdf2_hmac` with SHA-256 and 10000 rounds: the key
/// depends on password and salt alone.
#[verifier::external_body]
pub fn derive_key_from_password(password: &str, salt: &[u8]) -> (r: [u8; 32])
    ensures
        r@ == pbkdf2_of(password@, salt@),
        r@.len() == 32,
{
    let mut key = [0u8; 32];
    pbkdf2::pbkdf2_hmac::<sha2::Sha256>(password.as_bytes(), salt, 10000, &mut key);
    key
}

/// Encrypt data under a 32-byte key; the result carries its nonce.
pub fn encrypt(data: &[u8], key: &[u8]) -> (r: Result<Vec<u8>, AppError>)
    ensures
        key@.len() != 32 ==> (r matches Err(AppError::ValidationError(_))),
        r matches Ok(v) ==> key@.len() == 32 && aead_dec_of(v@, key@) == Some(data@)
            && v@.len() == data@.len() + 28,
        key@.len() == 32 ==> (r is Ok || (r matches Err(AppError::CryptoError(_)))),
{
    if key.len() != 32 {
        return Err(AppError::ValidationError("encryption key must be 32 bytes".to_owned()));
    }
    match aead_encrypt(data, key) {
        Some(v) => Ok(v),
        None => Err(AppError::CryptoError("encryption failed".to_owned())),
    }
}

/// Decrypt a blob produced by `encrypt` under the same key.
pub fn decrypt(encrypted_data: &[u8], key: &[u8]) -> (r: Result<Vec<u8>, AppError>)
    ensures
        key@.len() != 32 ==> (r matches Err(AppError::ValidationError(_))),
        key@.len() == 32 && encrypted_data@.len() <= 12 ==> (r matches Err(
            AppError::ValidationError(_),
        )),
        r matches Ok(v) ==> key@.len() == 32 && encrypted_data@.len() > 12 && aead_dec_of(
            encrypted_data@,
            key@,
        ) == Some(v@),
        key@.len() == 32 && encrypted_data@.len() > 12 && aead_dec_of(encrypted_data@, key@)
            is Some ==> r is Ok,
{
    if key.len() != 32 {
        return Err(AppError::ValidationError("decryption key must be 32 bytes".to_owned()));
    }
    if encrypted_data.len() <= 12 {
        return Err(AppError::ValidationError("encrypted data is too short".to_owned()));
    }
    match aead_decrypt(encrypted_data, key) {
        Some(v) => Ok(v),
        None => Err(AppError::CryptoError("decryption failed".to_owned())),
    }
}

/// Encrypt data with a key derived from a password; the result carries
/// its salt and nonce.
pub fn encrypt_with_password(data: &[u8], password: &str) -> (r: Result<Vec<u8>, AppError>)
    ensures
        r matches Ok(v) ==> v@.len() == data@.len() + 44 && v@.len() > 28 && aead_dec_of(
            v@.skip(16),
            pbkdf2_of(password@, v@.take(16)),
        ) == Some(data@),
{
    let salt = generate_salt();
    let key = derive_key_from_password(password, salt.as_slice());
    let encrypted = match encrypt(data, key.as_slice()) {
        Ok(v) => v,
        Err(e) => {
            return Err(e);
        },
    };
    let mut result: Vec<u8> = Vec::new();
    let mut i: usize = 0;
    while i < 16
        invariant
            0 <= i <= 16,
            result@ == salt@.take(i as int),
        decreases 16 - i,
    {
        result.push(salt[i]);
        proof {
            assert(salt@.take(i as int).push(salt@[i as int]) =~= salt@.take(i as int + 1));
        }
        i += 1;
    }
    let mut j: usize = 0;
    let n = encrypted.len();
    while j < n
        invariant
            0 <= j <= n,
            n == encrypted@.len(),
            result@ == salt@.take(16) + encrypted@.take(j as int),
        decreases n - j,
    {
        result.push(encrypted[j]);
        proof {
            assert((salt@.take(16) + encrypted@.take(j as int)).push(encrypted@[j as int]) =~= salt@.take(
                16,
            ) + encrypted@.take(j as int + 1));
        }
        j += 1;
    }
    proof {
        assert(salt@.take(16) =~= salt@);
        assert(encrypted@.take(n as int) =~= encrypted@);
        assert(result@.take(16) =~= salt@);
        assert(result@.skip(16) =~= encrypted@);
    }
    Ok(result)
}

/// Decrypt a blob produced by `encrypt_with_password` under the same
/// password.
pub fn decrypt_with_password(encrypted_data: &[u8], password: &str) -> (r: Result<
    Vec<u8>,
    AppError,
>)
    ensures
        encrypted_data@.len() <= 28 ==> (r matches Err(AppError::ValidationError(_))),
        r matches Ok(v) ==> encrypted_data@.len() > 28 && aead_dec_of(
            encrypted_data@.skip(16),
            pbkdf2_of(password@, encrypted_data@.take(16)),
        ) == Some(v@),
        encrypted_data@.len() > 28 && aead_dec_of(
            encrypted_data@.skip(16),
            pbkdf2_of(password@, encrypted_data@.take(16)),
        ) is Some ==> r is Ok,
{
    if encrypted_data.len() <= 28 {
        return Err(AppError::ValidationError("encrypted data is too short".to_owned()));
    }
    let salt = slice_range(encrypted_data, 0, 16);
    let rest = slice_range(encrypted_data, 16, encrypted_data.len());
    let key = derive_key_from_password(password, salt.as_slice());
    proof {
        assert(rest@ =~= encrypted_data@.skip(16));
        assert(salt@ =~= encrypted_data@.take(16));
    }
    decrypt(rest.as_slice(), key.as_slice())
}

/// Copies the bytes of `s` from `from` to `to` into a fresh vector.
pub fn slice_range(s: &[u8], from: usize, to: usize) -> (r: Vec<u8>)
    requires
        from <= to <= s@.len(),
    ensures
        r@ == s@.subrange(from as int, to as int),
{
    let mut out: Vec<u8> = Vec::new();
    let mut i: usize = from;
    while i < to
        invariant
            from <= i <= to,
            to <= s@.len(),
            out@ == s@.subrange(from as int, i as int),
        decreases to - i,
    {
        out.push(s[i]);
        proof {
            assert(s@.subrange(from as int, i as int).push(s@[i as int]) =~= s@.subrange(
                from as int,
                i as int + 1,
            ));
        }
        i += 1;
    }
    out
}

// ---------------------------------------------------------------------------
// Dilithium signatures
// ---------------------------------------------------------------------------
/// Byte length of a Dilithium level-2 public key.
pub const DLM_PUBLICKEYBYTES: usize = 1312;

/// Byte length of a Dilithium level-2 secret key.
pub const DLM_SECRETKEYBYTES: usize = 2528;

/// Byte length of a Dilithium level-2 signature.
pub const DLM_SIGNBYTES: usize = 2420;

/// Byte length of an encoded key pair: the secret key followed by the
/// public key, so that the public key is the tail of the buffer.
pub const DLM_KEYPAIRBYTES: usize = 3840;

/// What Dilithium signing makes of a message under a secret key.
pub uninterp spec fn dlm_sig_of(msg: Seq<u8>, sk: Seq<u8>) -> Seq<u8>;

/// Whether Dilithium verification accepts a message, signature and public
/// key.
pub uninterp spec fn dlm_verifies(msg: Seq<u8>, sig: Seq<u8>, pk: Seq<u8>) -> bool;

/// Generate a Dilithium key pair.
///
/// Relies on `crystals_dilithium::dilithium2::Keypair::generate` with a
/// fresh random seed (it fails only on a caller-given seed of the wrong
/// length, so never here): the keys have the scheme's fixed lengths, and
/// a signature made with the secret key verifies under the public key.
#[verifier::external_body]
pub fn generate_dilithium_keypair() -> (r: (Vec<u8>, Vec<u8>))
    ensures
        r.0@.len() == DLM_PUBLICKEYBYTES,
        r.1@.len() == DLM_SECRETKEYBYTES,
        forall|m: Seq<u8>| dlm_verifies(m, dlm_sig_of(m, r.1@), r.0@),
{
    let kp = crystals_dilithium::dilithium2::Keypair::generate(None).unwrap();
    (kp.public.to_bytes().to_vec(), kp.secret.to_bytes().to_vec())
}

/// Sign a message with Dilithium.
///
/// Relies on `crystals_dilithium::dilithium2::SecretKey::sign`, which is
/// deterministic: the signature depends on message and key alone and has
/// the scheme's fixed length.  `from_bytes` fails only on a key of the
/// wrong length, which the precondition rules out.
#[verifier::external_body]
pub fn dilithium_sign(message: &[u8], secret_key_bytes: &[u8]) -> (r: Vec<u8>)
    requires
        secret_key_bytes@.len() == DLM_SECRETKEYBYTES,
    ensures
        r@ == dlm_sig_of(message@, secret_key_bytes@),
        r@.len() == DLM_SIGNBYTES,
{
    let secret_key = crystals_dilithium::dilithium2::SecretKey::from_bytes(secret_key_bytes)
        .unwrap();
    let signature = secret_key.sign(message);
    signature.to_vec()
}

/// Verify a Dilithium signature.
///
/// Relies on `crystals_dilithium::dilithium2::PublicKey::verify`; a
/// signature of the wrong length is rejected.  `from_bytes` fails only on
/// a key of the wrong length, which the precondition rules out.
#[verifier::external_body]
pub fn dilithium_verify(message: &[u8], signature_bytes: &[u8], public_key_bytes: &[u8]) -> (r:
    bool)
    requires
        public_key_bytes@.len() == DLM_PUBLICKEYBYTES,
    ensures
        r == dlm_verifies(message@, signature_bytes@, public_key_bytes@),
{
    let public_key = crystals_dilithium::dilithium2::PublicKey::from_bytes(public_key_bytes)
        .unwrap();
    public_key.verify(message, signature_bytes)
}

// ---------------------------------------------------------------------------
// Range proofs
// ---------------------------------------------------------------------------
/// Whether a 64-bit Bulletproof range proof verifies against a Pedersen
/// commitment.
pub uninterp spec fn range_proof_ok(proof: Seq<u8>, commitment: Seq<u8>) -> bool;

/// Prove that a value lies in the 64-bit range.
///
/// Relies on `bulletproofs::RangeProof::prove_single` over a fresh random
/// blinding: on success the proof verifies against the returned 32-byte
/// compressed commitment.
#[verifier::external_body]
pub(crate) fn bp_prove(value: u64) -> (r: Option<(Vec<u8>, Vec<u8>)>)
    ensures
        r matches Some(p) ==> range_proof_ok(p.0@, p.1@) && p.1@.len() == 32,
{
    let pc_gens = bulletproofs::PedersenGens::default();
    let bp_gens = bulletproofs::BulletproofGens::new(64, 1);
    let blinding = curve25519_dalek_ng::scalar::Scalar::random(&mut rand::thread_rng());
    let commitment = pc_gens.commit(curve25519_dalek_ng::scalar::Scalar::from(value), blinding);
    let mut transcript = merlin::Transcript::new(b"range_proof");
    let (proof, _) = bulletproofs::RangeProof::prove_single(
        &bp_gens, &pc_gens, &mut transcript, value, &blinding, 64,
    ).ok()?;
    Some((proof.to_bytes(), commitment.compress().to_bytes().to_vec()))
}

/// Check a 64-bit range proof against its commitment.
///
/// Relies on `bulletproofs::RangeProof::verify_single` (with byte
/// parsing folded in): acceptance depends on proof and commitment alone.
#[verifier::external_body]
pub(crate) fn bp_verify(proof: &[u8], commitment: &[u8]) -> (r: bool)
    requires
        commitment@.len() == 32,
    ensures
        r == range_proof_ok(proof@, commitment@),
{
    let pc_gens = bulletproofs::PedersenGens::default();
    let bp_gens = bulletproofs::BulletproofGens::new(64, 1);
    let parsed = match bulletproofs::RangeProof::from_bytes(proof) {
        Ok(p) => p,
        Err(_) => return false,
    };
    let point = curve25519_dalek_ng::ristretto::CompressedRistretto::from_slice(commitment);
    let mut transcript = merlin::Transcript::new(b"range_proof");
    parsed.verify_single(&bp_gens, &pc_gens, &mut transcript, &point, 64).is_ok()
}

} // verus!
