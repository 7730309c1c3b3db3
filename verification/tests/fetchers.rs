use firebase_auth::header_parser::{get_max_age, parse_max_age};
use firebase_auth::jwk_fetcher::{ttl_from_cache_control, DEFAULT_TTL_SECS};
use firebase_auth::{
    IdTokenJwkFetcher, Jwk, JwkSet, JwtAlgorithm, SessionTokenJwkFetcher,
};
use firebase_auth::algorithm::parse_algorithm;

const KID: &str = "a4a10dece98366d6f63e167286ae9b611d2baa27";
const MODULUS: &str = "lou_DBKMBSETPo389O1zxMNXy5NmLd_t21kLc3lgXLvYrPl1b0Ay7bBMZavNmrNi3oPXmYtKgoZkhQNPNUB68xiq2GyLRGdg2pB1JFCOqhiOU1k7js8cJxLVaKFpffUC3wV1RAM4o0dw3EGuAk032ht6O07iBdGboSKT4HWGYKvLeCtslDxBZ5YAPEVXWgIq3RhTU3VCo8MbvcNGiNny1rTygGCAWWgxnlkF1QvUQem0aJToh0xPKFjDjoEMSMERURIAiwu9cMr1i6Qoqi7yj6Mk1wIoN4HZv15qrE2goTUUSGUqYkdkC_xRKAYeRrMOV2Wj_tgESxPBKKK-giVWaw";

const PEM: &str = "-----BEGIN CERTIFICATE-----\nMIIDHDCCAgSgAwIBAgIEWg2gfTANBgkqhkiG9w0BAQsFADAzMQ8wDQYDVQQDEwZH\naXRraXQxEzARBgNVBAoTCkdvb2dsZSBJbmMxCzAJBgNVBAYTAlVTMB4XDTI0MTIw\nNjAyMjUzM1oXDTI1MTIwMTAyMjUzM1owMzEPMA0GA1UEAxMGR2l0a2l0MRMwEQYD\nVQQKEwpHb29nbGUgSW5jMQswCQYDVQQGEwJVUzCCASIwDQYJKoZIhvcNAQEBBQAD\nggEPADCCAQoCggEBANyVAukjUNaA9z55PCK3I803APf7g5o+x+h89pOhFQdeHZd+\nAMamdbtLsbmgfZ0lxTaIAbaEdWW9ZLFTLbsO9F8Vc38n0goxdnngS85d1stih0Wm\nY2p04qAkuyFpjVMGLoTtcep9rguc+0UuDTBya0PsEsltE0Dgt8HVGl8ZFnF4QNY4\ncIFl/JTF0JPpGxCj801L/Za+KMneni1bMPxdn7NThoVbw39MVqdIYTjnWxFnDnZ5\nUSLIxOhFHtCaf6kQw3uNkykiZiM90XzADEb3RU1uShEweuSh/W890tnG8uXOe34/\nMVSRvwcbD4sJvMC4EKsYzzJ4mN/i4GC5gHfSjyMCAwEAAaM4MDYwDAYDVR0TAQH/\nBAIwADAWBgNVHSUBAf8EDDAKBggrBgEFBQcDAjAOBgNVHQ8BAf8EBAMCB4AwDQYJ\nKoZIhvcNAQELBQADggEBAEIPdO5ldIQ1E50l0GakrIi2xc817CyiVpi6JtnQ0eHf\neO8u0USiITiYNbXqQqZwRfXeHumnhE5lojgYemPIhcaHJB1aCRH2rXe0drRhw26/\ncNPy7C7M5xQS1n5Ex1sdo4cwTALtNwzUPucSe7jZ8Ywv3p7ZAooY0i24TxKaAanw\nOSSGAeebItdRclHtl3nv8YtHXHlJWAtmnen8MvKQF5ECcoOeBgLlmvuHhhRaoA46\nxn6VvWTpCRA4zszqsWWbFwNCcvdCQfkX9HfE2l/zaJnqjpIkVpvJLi17ZZ6K1+sw\na0kVeYBiAp6FvAN5qEfC8SksLGG8ZgA7NYVNpwNiegQ=\n-----END CERTIFICATE-----\n";

const CACHE_CONTROL: &[u8] = b"public, max-age=20045";

fn jwk(kid: &str, alg: &str, n: &str, e: &str) -> Jwk {
    Jwk { e: e.to_string(), alg: alg.to_string(), kid: kid.to_string(), n: n.to_string() }
}

#[test]
fn test_fetch() {
    let keys = vec![jwk(KID, "RS256", MODULUS, "AQAB")];
    let result = IdTokenJwkFetcher::keys_from_response(Some(CACHE_CONTROL), &keys);

    assert_eq!(result.ttl, 20045);
    assert_eq!(result.jwks.len(), 1);

    let jwk = result.jwks.get(KID);
    assert!(jwk.is_some_and(|jwk| jwk.alg == JwtAlgorithm::RS256));
}

#[test]
fn test_fetch_and_verification() {
    let keys = vec![("bZ-_5g".to_string(), PEM.to_string())];
    let result = SessionTokenJwkFetcher::keys_from_response(Some(CACHE_CONTROL), &keys);

    assert_eq!(result.ttl, 20045);
    assert_eq!(result.jwks.len(), 1);

    let jwk = result.jwks.get("bZ-_5g");
    assert!(jwk.is_some_and(|jwk| jwk.alg == JwtAlgorithm::RS256));
}

#[test]
fn fetchers_default_urls() {
    assert_eq!(
        IdTokenJwkFetcher::new().url(),
        "https://www.googleapis.com/service_accounts/v1/jwk/securetoken@system.gserviceaccount.com"
    );
    assert_eq!(
        SessionTokenJwkFetcher::new().url(),
        "https://www.googleapis.com/identitytoolkit/v3/relyingparty/publicKeys"
    );
    assert_eq!(IdTokenJwkFetcher::new_with_url("http://x".to_string()).url(), "http://x");
    assert_eq!(SessionTokenJwkFetcher::new_with_url("http://y".to_string()).url(), "http://y");
}

#[test]
fn id_token_keys_skip_unusable_entries() {
    let keys = vec![
        jwk("good", "RS256", MODULUS, "AQAB"),
        jwk("bad-alg", "RS999", MODULUS, "AQAB"),
        jwk("lower-case-alg", "rs256", MODULUS, "AQAB"),
        jwk("bad-modulus", "RS256", "not base64!", "AQAB"),
        jwk("bad-exponent", "RS256", MODULUS, "A=="),
        jwk("ps", "PS384", MODULUS, "AQAB"),
    ];
    let jwks = IdTokenJwkFetcher::jwks_from_keys(&keys);
    assert_eq!(jwks.len(), 2);
    assert!(jwks.get("good").is_some_and(|k| k.alg == JwtAlgorithm::RS256));
    assert!(jwks.get("ps").is_some_and(|k| k.alg == JwtAlgorithm::PS384));
    assert!(jwks.get("bad-alg").is_none());
    assert!(jwks.get("lower-case-alg").is_none());
    assert!(jwks.get("bad-modulus").is_none());
    assert!(jwks.get("bad-exponent").is_none());
}

#[test]
fn id_token_later_key_replaces_earlier() {
    let keys = vec![
        jwk("k", "RS256", MODULUS, "AQAB"),
        jwk("k", "RS512", MODULUS, "AQAB"),
        jwk("k", "nope", MODULUS, "AQAB"),
    ];
    let jwks = IdTokenJwkFetcher::jwks_from_keys(&keys);
    assert_eq!(jwks.len(), 1);
    assert!(jwks.get("k").is_some_and(|k| k.alg == JwtAlgorithm::RS512));
}

#[test]
fn session_keys_skip_bad_pem() {
    let keys = vec![
        ("good".to_string(), PEM.to_string()),
        ("bad".to_string(), "-----BEGIN CERTIFICATE-----\nAAAA\n-----END CERTIFICATE-----\n".to_string()),
        ("empty".to_string(), String::new()),
    ];
    let result = SessionTokenJwkFetcher::keys_from_response(None, &keys);
    assert_eq!(result.ttl, DEFAULT_TTL_SECS);
    assert_eq!(result.jwks.len(), 1);
    assert!(result.jwks.contains_key("good"));
    assert!(!result.jwks.contains_key("bad"));
    assert!(!result.jwks.contains_key("empty"));
}

#[test]
fn max_age_parsing() {
    assert_eq!(parse_max_age(b"public, max-age=20045"), Some(20045));
    assert_eq!(parse_max_age(b"max-age=0"), Some(0));
    assert_eq!(parse_max_age(b"MAX-AGE=12"), Some(12));
    assert_eq!(parse_max_age(b"  max-age=7  , no-cache"), Some(7));
    assert_eq!(parse_max_age(b"\tmax-age=7\t"), Some(7));
    assert_eq!(parse_max_age(b"no-store,max-age=33,must-revalidate"), Some(33));
    assert_eq!(parse_max_age(b"s-maxage=5, max-age=6"), Some(6));
    assert_eq!(parse_max_age(b"max-age=18446744073709551615"), Some(u64::MAX));
    assert_eq!(parse_max_age(b"max-age=18446744073709551616"), None);
    assert_eq!(parse_max_age(b"max-age=12a"), None);
    assert_eq!(parse_max_age(b"max-age="), None);
    assert_eq!(parse_max_age(b"max-age = 5"), None);
    assert_eq!(parse_max_age(b"max-age"), None);
    assert_eq!(parse_max_age(b"max-age=x, max-age=5"), None);
    assert_eq!(parse_max_age(b"max-age=5, max-age=6"), Some(5));
    assert_eq!(parse_max_age(b"public"), None);
    assert_eq!(parse_max_age(b""), None);
    assert_eq!(parse_max_age(b",,,"), None);
}

#[test]
fn max_age_reads_back_formatted_values() {
    for n in [0u64, 1, 9, 10, 99, 100, 20045, 1_000_000_007, u64::MAX] {
        let header = format!("max-age={}", n);
        assert_eq!(parse_max_age(header.as_bytes()), Some(n));
    }
}

#[test]
fn ttl_defaults() {
    assert_eq!(get_max_age(None), None);
    assert_eq!(ttl_from_cache_control(None), 60);
    assert_eq!(ttl_from_cache_control(Some(b"no-cache")), 60);
    assert_eq!(ttl_from_cache_control(Some(b"max-age=5")), 5);
}

#[test]
fn algorithm_names() {
    let all = [
        ("HS256", JwtAlgorithm::HS256),
        ("HS384", JwtAlgorithm::HS384),
        ("HS512", JwtAlgorithm::HS512),
        ("ES256", JwtAlgorithm::ES256),
        ("ES384", JwtAlgorithm::ES384),
        ("RS256", JwtAlgorithm::RS256),
        ("RS384", JwtAlgorithm::RS384),
        ("RS512", JwtAlgorithm::RS512),
        ("PS256", JwtAlgorithm::PS256),
        ("PS384", JwtAlgorithm::PS384),
        ("PS512", JwtAlgorithm::PS512),
        ("EdDSA", JwtAlgorithm::EdDSA),
    ];
    for (name, alg) in all {
        assert_eq!(parse_algorithm(name), Some(alg));
    }
    assert_eq!(parse_algorithm(""), None);
    assert_eq!(parse_algorithm("rs256"), None);
    assert_eq!(parse_algorithm("ES512"), None);
}

#[test]
fn jwk_set_insert_replaces() {
    let mut set = JwkSet::new();
    assert!(set.is_empty());
    assert_eq!(set.len(), 0);
    let first = IdTokenJwkFetcher::jwks_from_keys(&vec![
        jwk("a", "RS256", MODULUS, "AQAB"),
        jwk("b", "RS384", MODULUS, "AQAB"),
    ]);
    assert_eq!(first.len(), 2);
    let second = IdTokenJwkFetcher::jwks_from_keys(&vec![jwk("a", "PS512", MODULUS, "AQAB")]);
    let key = second.get("a").unwrap().key.clone();
    set.insert("a".to_string(), firebase_auth::JwkInfo { alg: JwtAlgorithm::RS256, key: key.clone() });
    set.insert("b".to_string(), firebase_auth::JwkInfo { alg: JwtAlgorithm::RS256, key: key.clone() });
    set.insert("a".to_string(), firebase_auth::JwkInfo { alg: JwtAlgorithm::ES256, key });
    assert!(!set.is_empty());
    assert_eq!(set.len(), 2);
    assert!(set.get("a").is_some_and(|k| k.alg == JwtAlgorithm::ES256));
    assert!(set.get("b").is_some_and(|k| k.alg == JwtAlgorithm::RS256));
    assert!(set.get("c").is_none());
}
