//! The keys that sign Firebase session cookies, published as PEM
//! certificates by key id.

use crate::algorithm::JwtAlgorithm;
use crate::jwk_fetcher::{ttl_from_cache_control, ttl_of, JwkFetchResult};
use crate::jwk_set::{JwkInfo, JwkSet};
use crate::keys::{rsa_pem_decoding_key, rsa_pem_key};
use vstd::prelude::*;

verus! {

/// Where Google publishes the keys that sign session cookies.
pub const DEFAULT_URL: &'static str =
    "https://www.googleapis.com/identitytoolkit/v3/relyingparty/publicKeys";

/// Fetches the keys that sign session cookies from a URL.
pub struct SessionTokenJwkFetcher {
    url: String,
}

impl View for SessionTokenJwkFetcher {
    /// The URL the keys are fetched from.
    type V = Seq<char>;

    closed spec fn view(&self) -> Seq<char> {
        self.url@
    }
}

/// The key that a published `(kid, pem)` pair yields: `None` where the PEM
/// text is not accepted, else the key decoded from it, used with RS256.
pub open spec fn pem_info_of(pair: (String, String)) -> Option<JwkInfo> {
    match rsa_pem_decoding_key(pair.1@) {
        Some(key) => Some(JwkInfo { alg: JwtAlgorithm::RS256, key }),
        None => None,
    }
}

/// The keys stored by key id after the `(kid, pem)` pairs are taken in
/// order: a pair that yields no key is skipped, and a later pair replaces an
/// earlier one with the same key id.
pub open spec fn session_keys(keys: Seq<(String, String)>) -> Map<Seq<char>, JwkInfo>
    decreases keys.len(),
{
    if keys.len() == 0 {
        Map::empty()
    } else {
        let rest = session_keys(keys.drop_last());
        let pair = keys.last();
        match pem_info_of(pair) {
            Some(info) => rest.insert(pair.0@, info),
            None => rest,
        }
    }
}

/// Law: every key kept from the published pairs is used with RS256; a key
/// id is kept exactly when some pair with that key id has an accepted PEM
/// text, and the key kept for it is the one decoded from the last such pair's
/// text.
pub proof fn lemma_session_keys(keys: Seq<(String, String)>)
    ensures
        forall|kid: Seq<char>| #[trigger]
            session_keys(keys).contains_key(kid) ==> session_keys(keys)[kid].alg
                == JwtAlgorithm::RS256,
        forall|kid: Seq<char>| #[trigger]
            session_keys(keys).contains_key(kid) <==> exists|i: int|
                0 <= i < keys.len() && (#[trigger] keys[i]).0@ == kid && pem_info_of(keys[i]) is Some,
        forall|kid: Seq<char>| #[trigger]
            session_keys(keys).contains_key(kid) ==> exists|i: int|
                0 <= i < keys.len() && (#[trigger] keys[i]).0@ == kid && pem_info_of(keys[i])
                    == Some(session_keys(keys)[kid]) && forall|j: int|
                    i < j < keys.len() ==> !((#[trigger] keys[j]).0@ == kid && pem_info_of(
                        keys[j],
                    ) is Some),
    decreases keys.len(),
{
    if keys.len() > 0 {
        let rest = keys.drop_last();
        let last = keys.len() - 1;
        lemma_session_keys(rest);
        assert(keys[last] == keys.last());
        assert forall|kid: Seq<char>| #[trigger]
            session_keys(keys).contains_key(kid) implies exists|i: int|
                0 <= i < keys.len() && (#[trigger] keys[i]).0@ == kid && pem_info_of(keys[i]) is Some by {
            if session_keys(rest).contains_key(kid) {
                let i = choose|i: int|
                    0 <= i < rest.len() && (#[trigger] rest[i]).0@ == kid && pem_info_of(rest[i]) is Some;
                assert(keys[i] == rest[i]);
            } else {
                assert(keys[last].0@ == kid && pem_info_of(keys[last]) is Some);
            }
        }
        assert forall|kid: Seq<char>, i: int|
            #![trigger keys[i], session_keys(keys).contains_key(kid)]
            0 <= i < keys.len() && keys[i].0@ == kid && pem_info_of(keys[i]) is Some
                implies session_keys(keys).contains_key(kid) by {
            if i < last {
                assert(rest[i] == keys[i]);
                assert(session_keys(rest).contains_key(kid));
            }
        }
        assert forall|kid: Seq<char>| #[trigger]
            session_keys(keys).contains_key(kid) implies exists|i: int|
                0 <= i < keys.len() && (#[trigger] keys[i]).0@ == kid && pem_info_of(keys[i])
                    == Some(session_keys(keys)[kid]) && forall|j: int|
                    i < j < keys.len() ==> !((#[trigger] keys[j]).0@ == kid && pem_info_of(
                        keys[j],
                    ) is Some) by {
            if keys.last().0@ == kid && pem_info_of(keys.last()) is Some {
                assert(keys[last].0@ == kid);
            } else {
                let i = choose|i: int|
                    0 <= i < rest.len() && (#[trigger] rest[i]).0@ == kid && pem_info_of(rest[i])
                        == Some(session_keys(rest)[kid]) && forall|j: int|
                        i < j < rest.len() ==> !((#[trigger] rest[j]).0@ == kid && pem_info_of(
                            rest[j],
                        ) is Some);
                assert(keys[i] == rest[i]);
                assert forall|j: int| i < j < keys.len() implies !((#[trigger] keys[j]).0@
                    == kid && pem_info_of(keys[j]) is Some) by {
                    if j < last {
                        assert(keys[j] == rest[j]);
                    }
                }
            }
        }
        assert forall|kid: Seq<char>| #[trigger]
            session_keys(keys).contains_key(kid) implies session_keys(keys)[kid].alg
                == JwtAlgorithm::RS256 by {
            if !(keys.last().0@ == kid && pem_info_of(keys.last()) is Some) {
                assert(session_keys(rest).contains_key(kid));
            }
        }
    }
}

/// Law: the session keys, by key id, in terms of the published pairs: a key
/// id is kept exactly when some pair with that key id has a PEM text that
/// decodes, whatever the key id; the key kept is RS256 with the key decoded
/// from the last such pair's text.
pub proof fn lemma_session_keys_by_parts(keys: Seq<(String, String)>)
    ensures
        forall|kid: Seq<char>| #[trigger]
            session_keys(keys).contains_key(kid) <==> exists|i: int|
                0 <= i < keys.len() && (#[trigger] keys[i]).0@ == kid && rsa_pem_decoding_key(
                    keys[i].1@,
                ) is Some,
        forall|kid: Seq<char>| #[trigger]
            session_keys(keys).contains_key(kid) ==> exists|i: int|
                0 <= i < keys.len() && (#[trigger] keys[i]).0@ == kid && session_keys(keys)[kid]
                    == (JwkInfo {
                    alg: JwtAlgorithm::RS256,
                    key: rsa_pem_decoding_key(keys[i].1@).unwrap(),
                }) && forall|j: int|
                    i < j < keys.len() && (#[trigger] keys[j]).0@ == kid ==> rsa_pem_decoding_key(
                        keys[j].1@,
                    ) is None,
{
    lemma_session_keys(keys);
    assert forall|kid: Seq<char>| #[trigger]
        session_keys(keys).contains_key(kid) <==> exists|i: int|
            0 <= i < keys.len() && (#[trigger] keys[i]).0@ == kid && rsa_pem_decoding_key(
                keys[i].1@,
            ) is Some by {
        if session_keys(keys).contains_key(kid) {
            let i = choose|i: int|
                0 <= i < keys.len() && (#[trigger] keys[i]).0@ == kid && pem_info_of(keys[i]) is Some;
            assert(rsa_pem_decoding_key(keys[i].1@) is Some);
        }
        if exists|i: int|
            0 <= i < keys.len() && (#[trigger] keys[i]).0@ == kid && rsa_pem_decoding_key(
                keys[i].1@,
            ) is Some {
            let i = choose|i: int|
                0 <= i < keys.len() && (#[trigger] keys[i]).0@ == kid && rsa_pem_decoding_key(
                    keys[i].1@,
                ) is Some;
            assert(pem_info_of(keys[i]) is Some);
        }
    }
    assert forall|kid: Seq<char>| #[trigger]
        session_keys(keys).contains_key(kid) implies exists|i: int|
            0 <= i < keys.len() && (#[trigger] keys[i]).0@ == kid && session_keys(keys)[kid]
                == (JwkInfo { alg: JwtAlgorithm::RS256, key: rsa_pem_decoding_key(keys[i].1@).unwrap() })
                && forall|j: int|
                i < j < keys.len() && (#[trigger] keys[j]).0@ == kid ==> rsa_pem_decoding_key(
                    keys[j].1@,
                ) is None by {
        let i = choose|i: int|
            0 <= i < keys.len() && (#[trigger] keys[i]).0@ == kid && pem_info_of(keys[i])
                == Some(session_keys(keys)[kid]) && forall|j: int|
                i < j < keys.len() ==> !((#[trigger] keys[j]).0@ == kid && pem_info_of(keys[j]) is Some);
        assert forall|j: int| i < j < keys.len() && (#[trigger] keys[j]).0@ == kid implies rsa_pem_decoding_key(
            keys[j].1@,
        ) is None by {
            assert(!(keys[j].0@ == kid && pem_info_of(keys[j]) is Some));
        }
    }
}

impl SessionTokenJwkFetcher {
    /// A fetcher for Google's published URL.
    pub fn new() -> (f: SessionTokenJwkFetcher)
        ensures
            f@ == DEFAULT_URL@,
    {
        SessionTokenJwkFetcher { url: DEFAULT_URL.to_owned() }
    }

    /// A fetcher for another URL.
    pub fn new_with_url(url: String) -> (f: SessionTokenJwkFetcher)
        ensures
            f@ == url@,
    {
        SessionTokenJwkFetcher { url }
    }

    /// The URL the keys are fetched from.
    pub fn url(&self) -> (r: &String)
        ensures
            r@ == self@,
    {
        &self.url
    }

    /// The keys of the published `(kid, pem)` pairs that can be used, by key
    /// id, as `session_keys` states.
    pub fn jwks_from_pems(keys: &Vec<(String, String)>) -> (r: JwkSet)
        ensures
            r@ == session_keys(keys@),
    {
        let mut jwks = JwkSet::new();
        let n = keys.len();
        let mut i: usize = 0;
        assert(keys@.take(0) =~= Seq::<(String, String)>::empty());
        while i < n
            invariant
                i <= n,
                n == keys@.len(),
                jwks@ == session_keys(keys@.take(i as int)),
            decreases n - i,
        {
            let (kid, pem) = &keys[i];
            assert(keys@.take(i + 1).drop_last() =~= keys@.take(i as int));
            assert(keys@.take(i + 1).last() == keys@[i as int]);
            match rsa_pem_key(pem.as_str()) {
                Ok(key) => {
                    jwks.insert(kid.clone(), JwkInfo { alg: JwtAlgorithm::RS256, key });
                },
                Err(_) => {},
            }
            i = i + 1;
        }
        assert(keys@.take(n as int) =~= keys@);
        jwks
    }

    /// What a fetch yields, from the response's `Cache-Control` header (where
    /// it has one) and the `(kid, pem)` pairs of its body.
    pub fn keys_from_response(cache_control: Option<&[u8]>, keys: &Vec<(String, String)>) -> (r:
        JwkFetchResult)
        ensures
            r.ttl == ttl_of(
                match cache_control {
                    Some(v) => Some(v@),
                    None => None,
                },
            ),
            r.jwks@ == session_keys(keys@),
    {
        let ttl = ttl_from_cache_control(cache_control);
        let jwks = Self::jwks_from_pems(keys);
        JwkFetchResult { jwks, ttl }
    }
}

} // verus!
