//! The keys that sign Firebase ID tokens, published as a JSON Web Key Set.

use crate::algorithm::{algorithm_named, parse_algorithm};
use crate::jwk_fetcher::{ttl_from_cache_control, ttl_of, JwkFetchResult};
use crate::jwk_set::{JwkInfo, JwkSet};
use crate::keys::{rsa_components_decoding_key, rsa_components_key};
use vstd::prelude::*;

verus! {

/// Where Google publishes the keys that sign ID tokens.
pub const DEFAULT_URL: &'static str =
    "https://www.googleapis.com/service_accounts/v1/jwk/securetoken@system.gserviceaccount.com";

/// One key of the published set, with its fields as text.
pub struct Jwk {
    pub e: String,
    pub alg: String,
    pub kid: String,
    pub n: String,
}

/// Fetches the keys that sign ID tokens from a URL.
pub struct IdTokenJwkFetcher {
    url: String,
}

impl View for IdTokenJwkFetcher {
    /// The URL the keys are fetched from.
    type V = Seq<char>;

    closed spec fn view(&self) -> Seq<char> {
        self.url@
    }
}

/// The key that a published entry yields: `None` where its algorithm name
/// is unknown or its modulus and exponent are not accepted, else its algorithm
/// with the key decoded from its modulus and exponent.
pub open spec fn jwk_info_of(k: Jwk) -> Option<JwkInfo> {
    match (algorithm_named(k.alg@), rsa_components_decoding_key(k.n@, k.e@)) {
        (Some(alg), Some(key)) => Some(JwkInfo { alg, key }),
        _ => None,
    }
}

/// A published entry that yields a key.
pub open spec fn usable_key(k: Jwk) -> bool {
    jwk_info_of(k) is Some
}

/// The keys stored by key id after the published entries are taken in order:
/// an entry that yields no key is skipped; a later entry replaces an earlier
/// one with the same key id.
pub open spec fn id_token_keys(keys: Seq<Jwk>) -> Map<Seq<char>, JwkInfo>
    decreases keys.len(),
{
    if keys.len() == 0 {
        Map::empty()
    } else {
        let rest = id_token_keys(keys.drop_last());
        let k = keys.last();
        match jwk_info_of(k) {
            Some(info) => rest.insert(k.kid@, info),
            None => rest,
        }
    }
}

/// Law: a key id is kept exactly when some published entry with that key id
/// yields a key, and the key kept for it is the one the last such entry
/// yields: its algorithm and the key decoded from its modulus and exponent.
pub proof fn lemma_id_token_keys(keys: Seq<Jwk>)
    ensures
        forall|kid: Seq<char>| #[trigger]
            id_token_keys(keys).contains_key(kid) <==> exists|i: int|
                0 <= i < keys.len() && (#[trigger] keys[i]).kid@ == kid && usable_key(keys[i]),
        forall|kid: Seq<char>| #[trigger]
            id_token_keys(keys).contains_key(kid) ==> exists|i: int|
                0 <= i < keys.len() && (#[trigger] keys[i]).kid@ == kid && jwk_info_of(keys[i])
                    == Some(id_token_keys(keys)[kid]) && forall|j: int|
                    i < j < keys.len() ==> !((#[trigger] keys[j]).kid@ == kid && usable_key(
                        keys[j],
                    )),
    decreases keys.len(),
{
    if keys.len() > 0 {
        let rest = keys.drop_last();
        let last = keys.len() - 1;
        lemma_id_token_keys(rest);
        assert(keys[last] == keys.last());
        assert forall|kid: Seq<char>| #[trigger]
            id_token_keys(keys).contains_key(kid) implies exists|i: int|
                0 <= i < keys.len() && (#[trigger] keys[i]).kid@ == kid && usable_key(keys[i]) by {
            if id_token_keys(rest).contains_key(kid) {
                let i = choose|i: int|
                    0 <= i < rest.len() && (#[trigger] rest[i]).kid@ == kid && usable_key(rest[i]);
                assert(keys[i] == rest[i]);
            } else {
                assert(keys[last].kid@ == kid && usable_key(keys[last]));
            }
        }
        assert forall|kid: Seq<char>, i: int|
            #![trigger keys[i], id_token_keys(keys).contains_key(kid)]
            0 <= i < keys.len() && keys[i].kid@ == kid && usable_key(
                keys[i],
            ) implies id_token_keys(keys).contains_key(kid) by {
            if i < last {
                assert(rest[i] == keys[i]);
                assert(id_token_keys(rest).contains_key(kid));
            }
        }
        assert forall|kid: Seq<char>| #[trigger]
            id_token_keys(keys).contains_key(kid) implies exists|i: int|
                0 <= i < keys.len() && (#[trigger] keys[i]).kid@ == kid && jwk_info_of(keys[i])
                    == Some(id_token_keys(keys)[kid]) && forall|j: int|
                    i < j < keys.len() ==> !((#[trigger] keys[j]).kid@ == kid && usable_key(
                        keys[j],
                    )) by {
            if keys.last().kid@ == kid && usable_key(keys.last()) {
                assert(keys[last].kid@ == kid);
            } else {
                let i = choose|i: int|
                    0 <= i < rest.len() && (#[trigger] rest[i]).kid@ == kid && jwk_info_of(rest[i])
                        == Some(id_token_keys(rest)[kid]) && forall|j: int|
                        i < j < rest.len() ==> !((#[trigger] rest[j]).kid@ == kid && usable_key(
                            rest[j],
                        ));
                assert(keys[i] == rest[i]);
                assert forall|j: int| i < j < keys.len() implies !((#[trigger] keys[j]).kid@
                    == kid && usable_key(keys[j])) by {
                    if j < last {
                        assert(keys[j] == rest[j]);
                    }
                }
            }
        }
    }
}

/// Law: a published entry yields a key exactly when its algorithm name is
/// known and its modulus and exponent decode, whatever its key id; the key is
/// then that algorithm with the decoded key.
pub proof fn lemma_jwk_info_of_parts(k: Jwk)
    ensures
        jwk_info_of(k) is Some <==> (algorithm_named(k.alg@) is Some && rsa_components_decoding_key(
            k.n@,
            k.e@,
        ) is Some),
        jwk_info_of(k) is Some ==> jwk_info_of(k) == Some(
            JwkInfo {
                alg: algorithm_named(k.alg@).unwrap(),
                key: rsa_components_decoding_key(k.n@, k.e@).unwrap(),
            },
        ),
{
}

/// Law: the ID-token keys, by key id, in terms of the published entries: a
/// key id is kept exactly when some entry with that key id has a known
/// algorithm name and a modulus and exponent that decode, whatever the key id;
/// the key kept is the last such entry's algorithm with its decoded key.
pub proof fn lemma_id_token_keys_by_parts(keys: Seq<Jwk>)
    ensures
        forall|kid: Seq<char>| #[trigger]
            id_token_keys(keys).contains_key(kid) <==> exists|i: int|
                0 <= i < keys.len() && (#[trigger] keys[i]).kid@ == kid && algorithm_named(
                    keys[i].alg@,
                ) is Some && rsa_components_decoding_key(keys[i].n@, keys[i].e@) is Some,
        forall|kid: Seq<char>| #[trigger]
            id_token_keys(keys).contains_key(kid) ==> exists|i: int|
                0 <= i < keys.len() && (#[trigger] keys[i]).kid@ == kid && id_token_keys(keys)[kid]
                    == (JwkInfo {
                    alg: algorithm_named(keys[i].alg@).unwrap(),
                    key: rsa_components_decoding_key(keys[i].n@, keys[i].e@).unwrap(),
                }) && forall|j: int|
                    i < j < keys.len() && (#[trigger] keys[j]).kid@ == kid ==> !(algorithm_named(
                        keys[j].alg@,
                    ) is Some && rsa_components_decoding_key(keys[j].n@, keys[j].e@) is Some),
{
    lemma_id_token_keys(keys);
    assert forall|k: Jwk| #[trigger] usable_key(k) <==> (algorithm_named(k.alg@) is Some
        && rsa_components_decoding_key(k.n@, k.e@) is Some) by {
        lemma_jwk_info_of_parts(k);
    }
    assert forall|kid: Seq<char>| #[trigger]
        id_token_keys(keys).contains_key(kid) implies exists|i: int|
            0 <= i < keys.len() && (#[trigger] keys[i]).kid@ == kid && id_token_keys(keys)[kid]
                == (JwkInfo {
                alg: algorithm_named(keys[i].alg@).unwrap(),
                key: rsa_components_decoding_key(keys[i].n@, keys[i].e@).unwrap(),
            }) && forall|j: int|
                i < j < keys.len() && (#[trigger] keys[j]).kid@ == kid ==> !(algorithm_named(
                    keys[j].alg@,
                ) is Some && rsa_components_decoding_key(keys[j].n@, keys[j].e@) is Some) by {
        let i = choose|i: int|
            0 <= i < keys.len() && (#[trigger] keys[i]).kid@ == kid && jwk_info_of(keys[i])
                == Some(id_token_keys(keys)[kid]) && forall|j: int|
                i < j < keys.len() ==> !((#[trigger] keys[j]).kid@ == kid && usable_key(keys[j]));
        lemma_jwk_info_of_parts(keys[i]);
        assert forall|j: int| i < j < keys.len() && (#[trigger] keys[j]).kid@ == kid implies !(
        algorithm_named(keys[j].alg@) is Some && rsa_components_decoding_key(
            keys[j].n@,
            keys[j].e@,
        ) is Some) by {
            lemma_jwk_info_of_parts(keys[j]);
        }
    }
}

impl IdTokenJwkFetcher {
    /// A fetcher for Google's published URL.
    pub fn new() -> (f: IdTokenJwkFetcher)
        ensures
            f@ == DEFAULT_URL@,
    {
        IdTokenJwkFetcher { url: DEFAULT_URL.to_owned() }
    }

    /// A fetcher for another URL.
    pub fn new_with_url(url: String) -> (f: IdTokenJwkFetcher)
        ensures
            f@ == url@,
    {
        IdTokenJwkFetcher { url }
    }

    /// The URL the keys are fetched from.
    pub fn url(&self) -> (r: &String)
        ensures
            r@ == self@,
    {
        &self.url
    }

    /// The keys of a published set that can be used, by key id, as
    /// `id_token_keys` states.
    pub fn jwks_from_keys(keys: &Vec<Jwk>) -> (r: JwkSet)
        ensures
            r@ == id_token_keys(keys@),
    {
        let mut jwks = JwkSet::new();
        let n = keys.len();
        let mut i: usize = 0;
        assert(keys@.take(0) =~= Seq::<Jwk>::empty());
        while i < n
            invariant
                i <= n,
                n == keys@.len(),
                jwks@ == id_token_keys(keys@.take(i as int)),
            decreases n - i,
        {
            let jwk = &keys[i];
            assert(keys@.take(i + 1).drop_last() =~= keys@.take(i as int));
            assert(keys@.take(i + 1).last() == keys@[i as int]);
            match parse_algorithm(jwk.alg.as_str()) {
                Some(alg) => match rsa_components_key(jwk.n.as_str(), jwk.e.as_str()) {
                    Ok(key) => {
                        jwks.insert(jwk.kid.clone(), JwkInfo { alg, key });
                    },
                    Err(_) => {},
                },
                None => {},
            }
            i = i + 1;
        }
        assert(keys@.take(n as int) =~= keys@);
        jwks
    }

    /// What a fetch yields, from the response's `Cache-Control` header (where
    /// it has one) and the keys of its body.
    pub fn keys_from_response(cache_control: Option<&[u8]>, keys: &Vec<Jwk>) -> (r:
        JwkFetchResult)
        ensures
            r.ttl == ttl_of(
                match cache_control {
                    Some(v) => Some(v@),
                    None => None,
                },
            ),
            r.jwks@ == id_token_keys(keys@),
    {
        let ttl = ttl_from_cache_control(cache_control);
        let jwks = Self::jwks_from_keys(keys);
        JwkFetchResult { jwks, ttl }
    }
}

} // verus!
