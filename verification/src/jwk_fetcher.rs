//! What a fetch of published keys yields.

use crate::header_parser::{get_max_age, max_age};
use crate::jwk_set::JwkSet;
use vstd::prelude::*;

verus! {

/// How long fetched keys are kept, in seconds, when the response does not say.
pub const DEFAULT_TTL_SECS: u64 = 60;

/// The keys of one fetch, and how many seconds they may be kept.
pub struct JwkFetchResult {
    pub jwks: JwkSet,
    pub ttl: u64,
}

/// Why a fetch of published keys failed.
#[derive(Debug, Clone, Copy, PartialEq, Eq, Structural)]
pub enum JwkFetchError {
    /// The request could not be made or got no response.
    RequestError,
    /// The response body could not be read as the expected JSON.
    ResponseBodyError,
}

/// The lifetime of fetched keys, in seconds: the `max-age` of the response's
/// `Cache-Control` header where it gives one, else the default.
pub open spec fn ttl_of(cache_control: Option<Seq<u8>>) -> u64 {
    match cache_control {
        Some(value) => match max_age(value) {
            Some(secs) => secs,
            None => DEFAULT_TTL_SECS,
        },
        None => DEFAULT_TTL_SECS,
    }
}

/// The lifetime of fetched keys, in seconds, as `ttl_of` states it.
pub fn ttl_from_cache_control(cache_control: Option<&[u8]>) -> (r: u64)
    ensures
        r == ttl_of(
            match cache_control {
                Some(v) => Some(v@),
                None => None,
            },
        ),
{
    match get_max_age(cache_control) {
        Some(secs) => secs,
        None => DEFAULT_TTL_SECS,
    }
}

/// Law: the lifetime of fetched keys is the `max-age` of the header value
/// wherever it gives one, whatever else the value holds, and the default of
/// 60 seconds otherwise or without a header.
pub proof fn lemma_ttl_follows_max_age(value: Seq<u8>)
    ensures
        ttl_of(None) == 60,
        max_age(value) matches Some(secs) ==> ttl_of(Some(value)) == secs,
        max_age(value) is None ==> ttl_of(Some(value)) == 60,
{
}

} // verus!
