//! Checking a token against the published keys of one issuer.

use crate::jwk_set::{JwkInfo, JwkSet};
use crate::algorithm::JwtAlgorithm;
use crate::keys::{
    header_key_id, kid_view, new_validation, new_validation_fields, set_audience, set_issuer,
    token_header_kid, validation_fields, ValidationFields,
};
use jsonwebtoken::{DecodingKey, Validation};
use vstd::prelude::*;

verus! {

/// Why a token was refused.
#[derive(Debug, Clone, Copy, PartialEq, Eq, Structural)]
pub enum VerificationError {
    /// The token's header could not be decoded, or names no key id.
    DecodingError,
    /// No key is known under the key id that the token's header names.
    JwkUnavailable,
    /// The token did not pass decoding with the selected key: a bad
    /// signature, a wrong algorithm, issuer or audience, an expired token, or
    /// claims of the wrong shape.
    InvalidSignature,
}

/// Checks tokens of one issuer and audience against that issuer's keys.
pub struct JwtVerifier {
    issuer: String,
    audience: String,
    jwks: JwkSet,
}

/// What a verifier holds.
pub struct VerifierState {
    pub issuer: Seq<char>,
    pub audience: Seq<char>,
    pub jwks: Map<Seq<char>, JwkInfo>,
}

impl View for JwtVerifier {
    type V = VerifierState;

    closed spec fn view(&self) -> VerifierState {
        VerifierState { issuer: self.issuer@, audience: self.audience@, jwks: self.jwks@ }
    }
}

/// The key that a verifier in state `v` uses for `token`: the one stored
/// under the key id of the token's header.
pub open spec fn key_selection(v: VerifierState, token: Seq<char>) -> Result<
    JwkInfo,
    VerificationError,
> {
    match token_header_kid(token) {
        Some(Some(kid)) => if v.jwks.contains_key(kid) {
            Ok(v.jwks[kid])
        } else {
            Err(VerificationError::JwkUnavailable)
        },
        _ => Err(VerificationError::DecodingError),
    }
}

/// What becomes of the outcome of decoding a token with the selected key:
/// any decoding error is a refused signature.
pub open spec fn decode_outcome<T>(decoded: Result<T, jsonwebtoken::errors::Error>) -> Result<
    T,
    VerificationError,
> {
    match decoded {
        Ok(data) => Ok(data),
        Err(_) => Err(VerificationError::InvalidSignature),
    }
}

/// The settings of the rules that a token checked with a key of algorithm
/// `alg` must meet under a verifier with the given issuer and audience.
pub open spec fn rules_fields(alg: JwtAlgorithm, issuer: Seq<char>, audience: Seq<char>) -> ValidationFields {
    ValidationFields {
        iss: Some(set![issuer]),
        aud: Some(set![audience]),
        ..new_validation_fields(alg)
    }
}

/// Whether `r` is an answer that a verifier in state `v` may give to `token`
/// when `decode` decodes tokens: the error of the key selection, or else what
/// `decode` gives for this very token, the selected key and rules with the
/// settings `rules_fields` lists for that key's algorithm and the verifier's
/// issuer and audience, with any decoding error turned into `InvalidSignature`.
pub open spec fn verify_allows<T, F: Fn(&str, &DecodingKey, &Validation) -> Result<
    T,
    jsonwebtoken::errors::Error,
>>(v: VerifierState, token: &str, decode: F, r: Result<T, VerificationError>) -> bool {
    match key_selection(v, token@) {
        Err(e) => r == Err::<T, VerificationError>(e),
        Ok(info) => exists|rules: Validation, d: Result<T, jsonwebtoken::errors::Error>|
            validation_fields(rules) == rules_fields(info.alg, v.issuer, v.audience)
                && call_ensures(decode, (token, &info.key, &rules), d) && r == decode_outcome(d),
    }
}

/// Whether `decode` gives one result for each token, key and settings of the
/// rules.
pub open spec fn deterministic<T, F: Fn(&str, &DecodingKey, &Validation) -> Result<
    T,
    jsonwebtoken::errors::Error,
>>(decode: F) -> bool {
    forall|token: &str, key: &DecodingKey, rules1: &Validation, rules2: &Validation, d1: Result<
        T,
        jsonwebtoken::errors::Error,
    >, d2: Result<T, jsonwebtoken::errors::Error>|
        #![trigger call_ensures(decode, (token, key, rules1), d1), call_ensures(decode, (token, key, rules2), d2)]
        validation_fields(*rules1) == validation_fields(*rules2) && call_ensures(
            decode,
            (token, key, rules1),
            d1,
        ) && call_ensures(decode, (token, key, rules2), d2) ==> d1 == d2
}

/// Law: the key for a token is the one stored under the key id of its
/// header, whatever else the token holds and however long it is: a token whose
/// header decodes with key id `kid` gets the key stored under `kid`, or
/// `JwkUnavailable` where none is; `DecodingError` comes exactly when the
/// header does not decode or names no key id.
pub proof fn lemma_key_selection_by_kid(v: VerifierState, token: Seq<char>)
    ensures
        forall|kid: Seq<char>|
            token_header_kid(token) == Some(Some(kid)) ==> {
                &&& v.jwks.contains_key(kid) ==> key_selection(v, token) == Ok::<
                    JwkInfo,
                    VerificationError,
                >(v.jwks[kid])
                &&& !v.jwks.contains_key(kid) ==> key_selection(v, token) == Err::<
                    JwkInfo,
                    VerificationError,
                >(VerificationError::JwkUnavailable)
            },
        key_selection(v, token) == Err::<JwkInfo, VerificationError>(
            VerificationError::DecodingError,
        ) <==> !(exists|kid: Seq<char>| token_header_kid(token) == Some(Some(kid))),
{
    if let Some(Some(kid)) = token_header_kid(token) {
        assert(token_header_kid(token) == Some(Some(kid)));
    }
}

/// Law: keys stored under other key ids never change the answer. Two
/// verifiers with the same issuer and audience, which hold the same key under
/// the key id of the token's header (or both none), may give exactly the same
/// answers to that token.
pub proof fn lemma_other_keys_do_not_matter<T, F: Fn(&str, &DecodingKey, &Validation) -> Result<
    T,
    jsonwebtoken::errors::Error,
>>(v1: VerifierState, v2: VerifierState, token: &str, decode: F, r: Result<T, VerificationError>)
    requires
        v1.issuer == v2.issuer,
        v1.audience == v2.audience,
        token_header_kid(token@) matches Some(Some(kid)) ==> (v1.jwks.contains_key(kid)
            == v2.jwks.contains_key(kid) && (v1.jwks.contains_key(kid) ==> v1.jwks[kid]
            == v2.jwks[kid])),
    ensures
        verify_allows(v1, token, decode, r) == verify_allows(v2, token, decode, r),
{
    assert(key_selection(v1, token@) == key_selection(v2, token@));
}

/// Law: with a decoder that gives one result for each token, key and
/// settings of the rules, a verifier gives one answer to each token: two
/// verifications of the same token by the same verifier agree.
pub proof fn lemma_one_answer<T, F: Fn(&str, &DecodingKey, &Validation) -> Result<
    T,
    jsonwebtoken::errors::Error,
>>(v: VerifierState, token: &str, decode: F, r1: Result<T, VerificationError>, r2: Result<
    T,
    VerificationError,
>)
    requires
        deterministic(decode),
        verify_allows(v, token, decode, r1),
        verify_allows(v, token, decode, r2),
    ensures
        r1 == r2,
{
    if let Ok(info) = key_selection(v, token@) {
        let fields = rules_fields(info.alg, v.issuer, v.audience);
        let (rules1, d1) = choose|rules: Validation, d: Result<T, jsonwebtoken::errors::Error>|
            validation_fields(rules) == fields && call_ensures(decode, (token, &info.key, &rules), d)
                && r1 == decode_outcome(d);
        let (rules2, d2) = choose|rules: Validation, d: Result<T, jsonwebtoken::errors::Error>|
            validation_fields(rules) == fields && call_ensures(decode, (token, &info.key, &rules), d)
                && r2 == decode_outcome(d);
        assert(call_ensures(decode, (token, &info.key, &rules1), d1));
        assert(call_ensures(decode, (token, &info.key, &rules2), d2));
        assert(d1 == d2);
    }
}

impl JwtVerifier {
    /// A verifier with no keys yet.
    pub fn new(audience: String, issuer: String) -> (v: JwtVerifier)
        ensures
            v@.issuer == issuer@,
            v@.audience == audience@,
            v@.jwks == Map::<Seq<char>, JwkInfo>::empty(),
    {
        JwtVerifier { issuer, audience, jwks: JwkSet::new() }
    }

    /// Replaces the keys; the issuer and the audience stay.
    pub fn set_jwks(&mut self, jwks: JwkSet)
        ensures
            final(self)@.jwks == jwks@,
            final(self)@.issuer == old(self)@.issuer,
            final(self)@.audience == old(self)@.audience,
    {
        self.jwks = jwks;
    }

    /// The issuer that tokens must name.
    pub fn issuer(&self) -> (r: &String)
        ensures
            r@ == self@.issuer,
    {
        &self.issuer
    }

    /// The audience that tokens must name.
    pub fn audience(&self) -> (r: &String)
        ensures
            r@ == self@.audience,
    {
        &self.audience
    }

    /// The keys.
    pub fn jwks(&self) -> (r: &JwkSet)
        ensures
            r@ == self@.jwks,
    {
        &self.jwks
    }

    /// The rules that a token checked with `info` must meet: signed with the
    /// key's algorithm, naming this verifier's issuer and audience, and not
    /// expired.
    pub fn validation_for(&self, info: &JwkInfo) -> (r: Validation)
        ensures
            validation_fields(r) == rules_fields(info.alg, self@.issuer, self@.audience),
    {
        let mut validation = new_validation(info.alg);
        set_issuer(&mut validation, &self.issuer);
        set_audience(&mut validation, &self.audience);
        validation
    }

    /// The key to check `token` with, as `key_selection` states.
    pub fn select_key(&self, token: &str) -> (r: Result<&JwkInfo, VerificationError>)
        ensures
            match r {
                Ok(info) => key_selection(self@, token@) == Ok::<JwkInfo, VerificationError>(*info),
                Err(e) => key_selection(self@, token@) == Err::<JwkInfo, VerificationError>(e),
            },
    {
        let kid = header_key_id(token);
        proof {
            assert(kid_view(kid) == token_header_kid(token@));
        }
        match kid {
            Ok(Some(kid)) => match self.jwks.get(kid.as_str()) {
                Some(info) => Ok(info),
                None => Err(VerificationError::JwkUnavailable),
            },
            _ => Err(VerificationError::DecodingError),
        }
    }

    /// Verifies `token`: selects its key, then hands the token, the key and
    /// the rules of `validation_for` to `decode`, which decodes the token with
    /// them. Whatever `decode` refuses is an invalid signature.
    pub fn verify<T, F: Fn(&str, &DecodingKey, &Validation) -> Result<
        T,
        jsonwebtoken::errors::Error,
    >>(&self, token: &str, decode: &F) -> (r: Result<T, VerificationError>)
        requires
            forall|t: &str, key: &DecodingKey, rules: &Validation| call_requires(
                *decode,
                (t, key, rules),
            ),
        ensures
            verify_allows(self@, token, *decode, r),
    {
        match self.select_key(token) {
            Err(e) => Err(e),
            Ok(info) => {
                let rules = self.validation_for(info);
                let decoded = decode(token, &info.key, &rules);
                let r = match decoded {
                    Ok(data) => Ok(data),
                    Err(_) => Err(VerificationError::InvalidSignature),
                };
                proof {
                    assert(call_ensures(*decode, (token, &info.key, &rules), decoded));
                    assert(r == decode_outcome(decoded));
                }
                r
            },
        }
    }
}

} // verus!
