//! The signature algorithms a published key may be used with.

use jsonwebtoken::Algorithm;
use std::str::FromStr;
use vstd::prelude::*;

verus! {

/// The algorithms supported for signing and verifying tokens.
#[derive(Debug, Clone, Copy, PartialEq, Eq, Structural)]
pub enum JwtAlgorithm {
    HS256,
    HS384,
    HS512,
    ES256,
    ES384,
    RS256,
    RS384,
    RS512,
    PS256,
    PS384,
    PS512,
    EdDSA,
}

/// The algorithm that a name stands for, if any: names are matched exactly,
/// case included.
pub open spec fn algorithm_named(name: Seq<char>) -> Option<JwtAlgorithm> {
    if name == "HS256"@ {
        Some(JwtAlgorithm::HS256)
    } else if name == "HS384"@ {
        Some(JwtAlgorithm::HS384)
    } else if name == "HS512"@ {
        Some(JwtAlgorithm::HS512)
    } else if name == "ES256"@ {
        Some(JwtAlgorithm::ES256)
    } else if name == "ES384"@ {
        Some(JwtAlgorithm::ES384)
    } else if name == "RS256"@ {
        Some(JwtAlgorithm::RS256)
    } else if name == "RS384"@ {
        Some(JwtAlgorithm::RS384)
    } else if name == "RS512"@ {
        Some(JwtAlgorithm::RS512)
    } else if name == "PS256"@ {
        Some(JwtAlgorithm::PS256)
    } else if name == "PS384"@ {
        Some(JwtAlgorithm::PS384)
    } else if name == "PS512"@ {
        Some(JwtAlgorithm::PS512)
    } else if name == "EdDSA"@ {
        Some(JwtAlgorithm::EdDSA)
    } else {
        None
    }
}

/// The name of an algorithm, as it is written in published keys.
pub open spec fn algorithm_name(alg: JwtAlgorithm) -> Seq<char> {
    match alg {
        JwtAlgorithm::HS256 => "HS256"@,
        JwtAlgorithm::HS384 => "HS384"@,
        JwtAlgorithm::HS512 => "HS512"@,
        JwtAlgorithm::ES256 => "ES256"@,
        JwtAlgorithm::ES384 => "ES384"@,
        JwtAlgorithm::RS256 => "RS256"@,
        JwtAlgorithm::RS384 => "RS384"@,
        JwtAlgorithm::RS512 => "RS512"@,
        JwtAlgorithm::PS256 => "PS256"@,
        JwtAlgorithm::PS384 => "PS384"@,
        JwtAlgorithm::PS512 => "PS512"@,
        JwtAlgorithm::EdDSA => "EdDSA"@,
    }
}

impl JwtAlgorithm {
    /// The name of the algorithm.
    pub fn name(&self) -> (r: &'static str)
        ensures
            r@ == algorithm_name(*self),
    {
        match self {
            JwtAlgorithm::HS256 => "HS256",
            JwtAlgorithm::HS384 => "HS384",
            JwtAlgorithm::HS512 => "HS512",
            JwtAlgorithm::ES256 => "ES256",
            JwtAlgorithm::ES384 => "ES384",
            JwtAlgorithm::RS256 => "RS256",
            JwtAlgorithm::RS384 => "RS384",
            JwtAlgorithm::RS512 => "RS512",
            JwtAlgorithm::PS256 => "PS256",
            JwtAlgorithm::PS384 => "PS384",
            JwtAlgorithm::PS512 => "PS512",
            JwtAlgorithm::EdDSA => "EdDSA",
        }
    }
}

/// Calls `jsonwebtoken::Algorithm::from_str`. Its source is a match of the
/// twelve names above, exactly as `algorithm_named` states; any other name is
/// an error. The variant that comes back is carried over one for one.
#[verifier::external_body]
fn algorithm_from_str(name: &str) -> (r: Result<JwtAlgorithm, jsonwebtoken::errors::Error>)
    ensures
        r is Ok <==> algorithm_named(name@) is Some,
        r matches Ok(a) ==> algorithm_named(name@) == Some(a),
{
    match Algorithm::from_str(name) {
        Err(e) => Err(e),
        Ok(a) => Ok(match a {
            Algorithm::HS256 => JwtAlgorithm::HS256, Algorithm::HS384 => JwtAlgorithm::HS384,
            Algorithm::HS512 => JwtAlgorithm::HS512, Algorithm::ES256 => JwtAlgorithm::ES256,
            Algorithm::ES384 => JwtAlgorithm::ES384, Algorithm::RS256 => JwtAlgorithm::RS256,
            Algorithm::RS384 => JwtAlgorithm::RS384, Algorithm::RS512 => JwtAlgorithm::RS512,
            Algorithm::PS256 => JwtAlgorithm::PS256, Algorithm::PS384 => JwtAlgorithm::PS384,
            Algorithm::PS512 => JwtAlgorithm::PS512, Algorithm::EdDSA => JwtAlgorithm::EdDSA,
        }),
    }
}

/// Reads an algorithm name as it appears in a published key (`"RS256"`).
pub fn parse_algorithm(name: &str) -> (r: Option<JwtAlgorithm>)
    ensures
        r == algorithm_named(name@),
{
    match algorithm_from_str(name) {
        Ok(a) => Some(a),
        Err(_) => None,
    }
}

} // verus!
