//! Verifiable-credential cryptographic protocol: DID key pairs over a
//! post-quantum signature scheme, a three-segment signed token format,
//! credential and presentation lifecycles with revocation, and a
//! zero-knowledge disclosure layer (selective disclosure and predicate
//! range proofs).

pub mod codec;
pub mod credential;
pub mod crypto;
pub mod did;
pub mod errors;
pub mod issuer;
pub mod jwt;
pub mod models;
pub mod presentation;
pub mod registry;
pub mod schema;
pub mod requests;
pub mod value;
pub mod wallet;
pub mod zk_proofs;
