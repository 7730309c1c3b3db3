//! Verification of Firebase ID tokens and session cookies against the
//! signing keys that Google publishes.

pub mod algorithm;
pub mod auth;
pub mod header_parser;
pub mod id_token_jwk_fetcher;
pub mod jwk_fetcher;
pub mod jwk_set;
pub mod keys;
pub mod session_token_jwk_fetcher;
pub mod jwt_verifier;

use vstd::prelude::*;

pub use algorithm::JwtAlgorithm;
pub use auth::{
    apply_fetch_outcome, verifiers_for_project, verify_with_verifiers, JwkSource,
};
pub use id_token_jwk_fetcher::{IdTokenJwkFetcher, Jwk};
pub use jwk_fetcher::{JwkFetchError, JwkFetchResult};
pub use jwk_set::{JwkInfo, JwkSet};
pub use jwt_verifier::{JwtVerifier, VerificationError};
pub use session_token_jwk_fetcher::SessionTokenJwkFetcher;

verus! {

/// The registered claims that Firebase puts in every token.
#[derive(Debug, PartialEq, Eq)]
pub struct BasicClaims {
    pub aud: String,
    pub exp: i64,
    pub iss: String,
    pub sub: String,
    pub iat: i64,
}

} // verus!
