//! What `jsonwebtoken` does for the library: decoding key material and token
//! headers, and holding the rules that a decoded token must meet.

use crate::algorithm::JwtAlgorithm;
use jsonwebtoken::{decode_header, Algorithm, DecodingKey, Validation};
use vstd::prelude::*;

verus! {

/// A key that checks token signatures; what it holds is opaque here.
#[verifier::external_type_specification]
#[verifier::external_body]
pub struct ExDecodingKey(DecodingKey);

/// The error type of `jsonwebtoken`, carried through opaque.
#[verifier::external_type_specification]
#[verifier::external_body]
pub struct ExJwtError(jsonwebtoken::errors::Error);

/// What `DecodingKey::from_rsa_components` makes of a modulus and an
/// exponent, both base64url encoded without padding: `None` where it fails,
/// else the key it returns.
pub uninterp spec fn rsa_components_decoding_key(modulus: Seq<char>, exponent: Seq<char>) -> Option<
    DecodingKey,
>;

/// What `DecodingKey::from_rsa_pem` makes of the UTF-8 bytes of a PEM text
/// (an RSA public key, or a certificate that holds one): `None` where it
/// fails, else the key it returns.
pub uninterp spec fn rsa_pem_decoding_key(pem: Seq<char>) -> Option<DecodingKey>;

/// What `jsonwebtoken::decode_header` makes of a token: `None` where the
/// token has no decodable header, else the header's `kid` field.
pub uninterp spec fn token_header_kid(token: Seq<char>) -> Option<Option<Seq<char>>>;

/// Calls `DecodingKey::from_rsa_components(modulus, exponent)`. Its source
/// decodes both arguments as base64url, fails exactly when one of them does
/// not decode, and otherwise builds the key from the decoded bytes, with no
/// other input; so both the outcome and the key are functions of the two
/// texts, named by `rsa_components_decoding_key`.
#[verifier::external_body]
pub(crate) fn rsa_components_key(modulus: &str, exponent: &str) -> (r: Result<
    DecodingKey,
    jsonwebtoken::errors::Error,
>)
    ensures
        match r {
            Ok(key) => rsa_components_decoding_key(modulus@, exponent@) == Some(key),
            Err(_) => rsa_components_decoding_key(modulus@, exponent@) is None,
        },
{
    DecodingKey::from_rsa_components(modulus, exponent)
}

/// Calls `DecodingKey::from_rsa_pem` on the bytes of `pem`. Its source parses
/// the PEM armour and the DER inside it and builds the key from that content,
/// with no other input; so both the outcome and the key are functions of the
/// text, named by `rsa_pem_decoding_key`.
#[verifier::external_body]
pub(crate) fn rsa_pem_key(pem: &str) -> (r: Result<DecodingKey, jsonwebtoken::errors::Error>)
    ensures
        match r {
            Ok(key) => rsa_pem_decoding_key(pem@) == Some(key),
            Err(_) => rsa_pem_decoding_key(pem@) is None,
        },
{
    DecodingKey::from_rsa_pem(pem.as_bytes())
}

/// The view of what `header_key_id` hands back.
pub open spec fn kid_view(r: Result<Option<String>, jsonwebtoken::errors::Error>) -> Option<
    Option<Seq<char>>,
> {
    match r {
        Ok(Some(kid)) => Some(Some(kid@)),
        Ok(None) => Some(None),
        Err(_) => None,
    }
}

/// Calls `jsonwebtoken::decode_header(token)` and keeps the header's `kid`.
/// The header is read from the token's text alone (base64url, then JSON), so
/// the outcome is named by `token_header_kid`.
#[verifier::external_body]
pub(crate) fn header_key_id(token: &str) -> (r: Result<Option<String>, jsonwebtoken::errors::Error>)
    ensures
        kid_view(r) == token_header_kid(token@),
{
    decode_header(token).map(|header| header.kid)
}

/// The rules a token must meet when it is decoded; opaque here.
#[verifier::external_type_specification]
#[verifier::external_body]
pub struct ExValidation(Validation);

/// The settings of a `Validation`, field by field: sets of strings as sets
/// of their views, and each algorithm as the library's algorithm of the same
/// name.
pub struct ValidationFields {
    pub required_spec_claims: Set<Seq<char>>,
    pub leeway: u64,
    pub reject_tokens_expiring_in_less_than: u64,
    pub validate_exp: bool,
    pub validate_nbf: bool,
    pub validate_aud: bool,
    pub aud: Option<Set<Seq<char>>>,
    pub iss: Option<Set<Seq<char>>>,
    pub sub: Option<Seq<char>>,
    pub algorithms: Seq<JwtAlgorithm>,
    pub validate_signature: bool,
}

/// What a `Validation` holds.
pub uninterp spec fn validation_fields(validation: Validation) -> ValidationFields;

/// The settings that `Validation::new` makes for `alg`: `exp` required and
/// checked with 60 seconds of leeway, `nbf` not checked, the audience checked
/// once one is set, no issuer, audience or subject set, `alg` the one accepted
/// algorithm, and the signature checked.
pub open spec fn new_validation_fields(alg: JwtAlgorithm) -> ValidationFields {
    ValidationFields {
        required_spec_claims: set!["exp"@],
        leeway: 60,
        reject_tokens_expiring_in_less_than: 0,
        validate_exp: true,
        validate_nbf: false,
        validate_aud: true,
        aud: None,
        iss: None,
        sub: None,
        algorithms: seq![alg],
        validate_signature: true,
    }
}

/// Calls `Validation::new` with the `jsonwebtoken` algorithm of the same
/// name as `alg`. Its source sets the fields that `new_validation_fields`
/// lists; that is what is claimed. The value itself is not a function of `alg`:
/// its hash sets carry freshly seeded hashers.
#[verifier::external_body]
pub(crate) fn new_validation(alg: JwtAlgorithm) -> (r: Validation)
    ensures
        validation_fields(r) == new_validation_fields(alg),
{
    Validation::new(match alg {
        JwtAlgorithm::HS256 => Algorithm::HS256, JwtAlgorithm::HS384 => Algorithm::HS384,
        JwtAlgorithm::HS512 => Algorithm::HS512, JwtAlgorithm::ES256 => Algorithm::ES256,
        JwtAlgorithm::ES384 => Algorithm::ES384, JwtAlgorithm::RS256 => Algorithm::RS256,
        JwtAlgorithm::RS384 => Algorithm::RS384, JwtAlgorithm::RS512 => Algorithm::RS512,
        JwtAlgorithm::PS256 => Algorithm::PS256, JwtAlgorithm::PS384 => Algorithm::PS384,
        JwtAlgorithm::PS512 => Algorithm::PS512, JwtAlgorithm::EdDSA => Algorithm::EdDSA,
    })
}

/// Calls `Validation::set_issuer` with `issuer` as the one accepted issuer.
/// Its source sets `iss` to the set of the given items as strings and touches
/// nothing else; that is what is claimed.
#[verifier::external_body]
pub(crate) fn set_issuer(validation: &mut Validation, issuer: &String)
    ensures
        validation_fields(*final(validation)) == (ValidationFields {
            iss: Some(set![issuer@]),
            ..validation_fields(*old(validation))
        }),
{
    validation.set_issuer(&[issuer])
}

/// Calls `Validation::set_audience` with `audience` as the one accepted
/// audience. Its source sets `aud` to the set of the given items as strings and
/// touches nothing else; that is what is claimed.
#[verifier::external_body]
pub(crate) fn set_audience(validation: &mut Validation, audience: &String)
    ensures
        validation_fields(*final(validation)) == (ValidationFields {
            aud: Some(set![audience@]),
            ..validation_fields(*old(validation))
        }),
{
    validation.set_audience(&[audience])
}

} // verus!
