//! Verifying Firebase tokens against the verifiers of a project, and keeping
//! their keys fresh.

use crate::jwk_fetcher::{JwkFetchError, JwkFetchResult};
use crate::jwk_set::JwkInfo;
use crate::jwt_verifier::{
    key_selection, lemma_one_answer, verify_allows, deterministic, JwtVerifier, VerificationError,
    VerifierState,
};
use jsonwebtoken::{DecodingKey, Validation};
use vstd::prelude::*;

verus! {

/// The issuer of ID tokens is this prefix followed by the project id.
pub const ID_TOKEN_ISSUER_URL: &'static str = "https://securetoken.google.com/";

/// The issuer of session cookies is this prefix followed by the project id.
pub const SESSION_TOKEN_ISSUER_URL: &'static str = "https://session.firebase.google.com/";

/// How long to wait, in seconds, before fetching keys again after a failed
/// fetch.
pub const RETRY_DELAY_SECS: u64 = 60;

/// Where a verifier's keys come from.
#[derive(Debug, Clone, Copy, PartialEq, Eq, Structural)]
pub enum JwkSource {
    /// The published JSON Web Key Set for ID tokens.
    IdToken,
    /// The published PEM certificates for session cookies.
    SessionToken,
}

/// The verifiers of a project, in order: one for ID tokens where they are
/// accepted, then one for session cookies where they are accepted. Each has
/// the project id as audience, its issuer prefix followed by the project id as
/// issuer, and no keys yet.
pub open spec fn planned_verifiers(
    project_id: Seq<char>,
    with_id_tokens: bool,
    with_session_tokens: bool,
) -> Seq<(JwkSource, VerifierState)> {
    let id = VerifierState {
        issuer: ID_TOKEN_ISSUER_URL@ + project_id,
        audience: project_id,
        jwks: Map::empty(),
    };
    let session = VerifierState {
        issuer: SESSION_TOKEN_ISSUER_URL@ + project_id,
        audience: project_id,
        jwks: Map::empty(),
    };
    let first = if with_id_tokens {
        seq![(JwkSource::IdToken, id)]
    } else {
        Seq::empty()
    };
    if with_session_tokens {
        first.push((JwkSource::SessionToken, session))
    } else {
        first
    }
}

/// Law: for every project id, a project that accepts ID tokens has, first,
/// a verifier for ID tokens with issuer `https://securetoken.google.com/`
/// followed by the project id; a project that accepts session cookies has,
/// last, a verifier for session cookies with issuer
/// `https://session.firebase.google.com/` followed by the project id; each has
/// the project id as audience and no keys yet, and there is one verifier for
/// each kind of token accepted.
pub proof fn lemma_planned_verifiers(project_id: Seq<char>, with_id_tokens: bool, with_session_tokens: bool)
    ensures
        planned_verifiers(project_id, with_id_tokens, with_session_tokens).len() == (if with_id_tokens {
            1int
        } else {
            0int
        }) + (if with_session_tokens {
            1int
        } else {
            0int
        }),
        with_id_tokens ==> planned_verifiers(project_id, with_id_tokens, with_session_tokens)[0] == (
        JwkSource::IdToken,
        VerifierState {
            issuer: "https://securetoken.google.com/"@ + project_id,
            audience: project_id,
            jwks: Map::empty(),
        },
        ),
        with_session_tokens ==> planned_verifiers(project_id, with_id_tokens, with_session_tokens).last()
            == (
        JwkSource::SessionToken,
        VerifierState {
            issuer: "https://session.firebase.google.com/"@ + project_id,
            audience: project_id,
            jwks: Map::empty(),
        },
        ),
{
}

/// The states of a sequence of verifiers.
pub open spec fn states_of(verifiers: Seq<&JwtVerifier>) -> Seq<VerifierState> {
    verifiers.map_values(|v: &JwtVerifier| v@)
}

/// The first verifier, from `start` on, that does not answer `token` with
/// `JwkUnavailable`.
pub open spec fn deciding_verifier(states: Seq<VerifierState>, token: Seq<char>, start: int) -> Option<
    int,
>
    decreases states.len() - start,
{
    if start < 0 || start >= states.len() {
        None
    } else if key_selection(states[start], token) == Err::<JwkInfo, VerificationError>(
        VerificationError::JwkUnavailable,
    ) {
        deciding_verifier(states, token, start + 1)
    } else {
        Some(start)
    }
}

/// Law: a token is answered `JwkUnavailable` by a list of verifiers exactly
/// when every verifier answers it so; otherwise the deciding verifier is the
/// first that does not, and all before it do.
pub proof fn lemma_deciding_verifier(states: Seq<VerifierState>, token: Seq<char>, start: int)
    requires
        0 <= start <= states.len(),
    ensures
        deciding_verifier(states, token, start) is None <==> (forall|j: int|
            start <= j < states.len() ==> key_selection(#[trigger] states[j], token)
                == Err::<JwkInfo, VerificationError>(VerificationError::JwkUnavailable)),
        deciding_verifier(states, token, start) matches Some(i) ==> {
            &&& start <= i < states.len()
            &&& key_selection(states[i], token) != Err::<JwkInfo, VerificationError>(
                VerificationError::JwkUnavailable,
            )
            &&& forall|j: int|
                start <= j < i ==> key_selection(#[trigger] states[j], token) == Err::<
                    JwkInfo,
                    VerificationError,
                >(VerificationError::JwkUnavailable)
        },
    decreases states.len() - start,
{
    if start < states.len() {
        lemma_deciding_verifier(states, token, start + 1);
    }
}

/// A verifier with the given issuer prefix, for `project_id`.
fn verifier_for(prefix: &str, project_id: &String) -> (v: JwtVerifier)
    ensures
        v@.issuer == prefix@ + project_id@,
        v@.audience == project_id@,
        v@.jwks == Map::<Seq<char>, JwkInfo>::empty(),
{
    let mut issuer = prefix.to_owned();
    issuer.append(project_id.as_str());
    JwtVerifier::new(project_id.clone(), issuer)
}

/// The verifiers of a project, each with where its keys come from, as
/// `planned_verifiers` states.
pub fn verifiers_for_project(
    project_id: &String,
    with_id_tokens: bool,
    with_session_tokens: bool,
) -> (r: Vec<(JwkSource, JwtVerifier)>)
    ensures
        r@.len() == planned_verifiers(project_id@, with_id_tokens, with_session_tokens).len(),
        forall|i: int|
            0 <= i < r@.len() ==> {
                let p = planned_verifiers(project_id@, with_id_tokens, with_session_tokens)[i];
                (#[trigger] r@[i]).0 == p.0 && r@[i].1@ == p.1
            },
{
    let mut verifiers: Vec<(JwkSource, JwtVerifier)> = Vec::new();
    if with_id_tokens {
        let v = verifier_for(ID_TOKEN_ISSUER_URL, project_id);
        verifiers.push((JwkSource::IdToken, v));
    }
    if with_session_tokens {
        let v = verifier_for(SESSION_TOKEN_ISSUER_URL, project_id);
        verifiers.push((JwkSource::SessionToken, v));
    }
    proof {
        let p = planned_verifiers(project_id@, with_id_tokens, with_session_tokens);
        assert(verifiers@.len() == p.len());
        assert forall|i: int| 0 <= i < verifiers@.len() implies verifiers@[i].0 == p[i].0
            && verifiers@[i].1@ == p[i].1 by {
            assert(verifiers@[i].1@.jwks =~= p[i].1.jwks);
        }
    }
    verifiers
}

/// Whether `r` is an answer that a list of verifiers in the given states may
/// give to `token`: `JwkUnavailable` where every verifier answers so, else an
/// answer that the first verifier to answer otherwise may give.
pub open spec fn verifiers_allow<T, F: Fn(&str, &DecodingKey, &Validation) -> Result<
    T,
    jsonwebtoken::errors::Error,
>>(states: Seq<VerifierState>, token: &str, decode: F, r: Result<T, VerificationError>) -> bool {
    match deciding_verifier(states, token@, 0) {
        None => r == Err::<T, VerificationError>(VerificationError::JwkUnavailable),
        Some(i) => verify_allows(states[i], token, decode, r),
    }
}

/// Law: with a decoder that gives one result for each key and rules, a list
/// of verifiers gives one answer to each token: two verifications of the same
/// token against the same keys agree.
pub proof fn lemma_verifiers_one_answer<T, F: Fn(&str, &DecodingKey, &Validation) -> Result<
    T,
    jsonwebtoken::errors::Error,
>>(
    states: Seq<VerifierState>,
    token: &str,
    decode: F,
    r1: Result<T, VerificationError>,
    r2: Result<T, VerificationError>,
)
    requires
        deterministic(decode),
        verifiers_allow(states, token, decode, r1),
        verifiers_allow(states, token, decode, r2),
    ensures
        r1 == r2,
{
    if let Some(i) = deciding_verifier(states, token@, 0) {
        lemma_one_answer(states[i], token, decode, r1, r2);
    }
}

/// Verifies `token` with the first verifier that has a key for it: a
/// verifier that answers `JwkUnavailable` is passed over, and the first one
/// that answers otherwise decides. Where none does, the key is unavailable.
/// The verifiers are only read.
pub fn verify_with_verifiers<T, F: Fn(&str, &DecodingKey, &Validation) -> Result<
    T,
    jsonwebtoken::errors::Error,
>>(verifiers: &Vec<&JwtVerifier>, token: &str, decode: &F) -> (r: Result<T, VerificationError>)
    requires
        forall|t: &str, key: &DecodingKey, rules: &Validation| call_requires(*decode, (t, key, rules)),
    ensures
        verifiers_allow(states_of(verifiers@), token, *decode, r),
{
    let n = verifiers.len();
    let ghost states = states_of(verifiers@);
    let mut i: usize = 0;
    while i < n
        invariant
            i <= n,
            n == verifiers@.len(),
            states == states_of(verifiers@),
            deciding_verifier(states, token@, 0) == deciding_verifier(states, token@, i as int),
            forall|t: &str, key: &DecodingKey, rules: &Validation| call_requires(*decode, (t, key, rules)),
        decreases n - i,
    {
        let v = verifiers[i];
        match v.verify(token, decode) {
            Err(VerificationError::JwkUnavailable) => {
                assert(states[i as int] == v@);
            },
            result => {
                assert(states[i as int] == v@);
                return result;
            },
        }
        i = i + 1;
    }
    Err(VerificationError::JwkUnavailable)
}

/// Applies the outcome of a fetch of keys to a verifier and says how many
/// seconds to wait before the next fetch: fetched keys replace the old ones
/// and are kept for their lifetime; after a failed fetch the old keys stay and
/// the next fetch comes after the retry delay.
pub fn apply_fetch_outcome(verifier: &mut JwtVerifier, outcome: Result<JwkFetchResult, JwkFetchError>) -> (delay: u64)
    ensures
        final(verifier)@.issuer == old(verifier)@.issuer,
        final(verifier)@.audience == old(verifier)@.audience,
        match outcome {
            Ok(result) => final(verifier)@.jwks == result.jwks@ && delay == result.ttl,
            Err(_) => final(verifier)@.jwks == old(verifier)@.jwks && delay == RETRY_DELAY_SECS,
        },
{
    match outcome {
        Ok(result) => {
            let ttl = result.ttl;
            verifier.set_jwks(result.jwks);
            ttl
        },
        Err(_) => RETRY_DELAY_SECS,
    }
}

} // verus!
