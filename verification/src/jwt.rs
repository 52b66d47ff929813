//! HS256 tokens as the `jsonwebtoken` crate writes and reads them.

use vstd::prelude::*;
use jsonwebtoken::{decode, encode, Algorithm, DecodingKey, EncodingKey, Header, Validation};
use serde_json::Value;

verus! {

/// What a session token says: whose it is, until when and since when it holds.
#[derive(Debug, Clone, PartialEq, Eq)]
pub struct Claims {
    pub sub: String,
    pub exp: u64,
    pub iat: u64,
}

pub struct ClaimsView {
    pub sub: Seq<char>,
    pub exp: u64,
    pub iat: u64,
}

impl View for Claims {
    type V = ClaimsView;

    open spec fn view(&self) -> ClaimsView {
        ClaimsView { sub: self.sub@, exp: self.exp, iat: self.iat }
    }
}

/// The claims as they were found in a token whose signature holds: each one
/// is there only if the token carries it with the right type.
#[derive(Debug, Clone, PartialEq, Eq)]
pub struct RawClaims {
    pub sub: Option<String>,
    pub exp: Option<u64>,
    pub iat: Option<u64>,
}

pub struct RawClaimsView {
    pub sub: Option<Seq<char>>,
    pub exp: Option<u64>,
    pub iat: Option<u64>,
}

impl View for RawClaims {
    type V = RawClaimsView;

    open spec fn view(&self) -> RawClaimsView {
        RawClaimsView {
            sub: match self.sub {
                Some(sub) => Some(sub@),
                None => None,
            },
            exp: self.exp,
            iat: self.iat,
        }
    }
}

/// The claims as a token carries them when all three are there.
pub open spec fn carried(claims: ClaimsView) -> RawClaimsView {
    RawClaimsView { sub: Some(claims.sub), exp: Some(claims.exp), iat: Some(claims.iat) }
}

/// The token that `jsonwebtoken::encode` writes for the claims under the
/// secret, where it writes one.
pub uninterp spec fn hs256_sealed(claims: ClaimsView, secret: Seq<u8>) -> Option<Seq<char>>;

/// What `jsonwebtoken::decode` finds in a token under the secret, with the
/// check of the expiry against the clock switched off: `None` where the token
/// is malformed, signed otherwise, or turned down by the decoder.
pub uninterp spec fn hs256_opened(token: Seq<char>, secret: Seq<u8>) -> Option<RawClaimsView>;

/// Signs the claims with `jsonwebtoken::encode`, HS256 and the secret.
///
/// Trusted: the token depends on the claims and the secret alone, and
/// reading it back under the same secret gives the same claims. `Err` holds
/// the crate's message.
#[verifier::external_body]
pub(crate) fn sign_claims(claims: &Claims, secret: &[u8]) -> (outcome: Result<String, String>)
    ensures
        match outcome {
            Ok(token) => hs256_sealed(claims@, secret@) == Some(token@) && hs256_opened(
                token@,
                secret@,
            ) == Some(carried(claims@)),
            Err(_) => hs256_sealed(claims@, secret@) is None,
        },
{
    let mut body = serde_json::Map::new();
    body.insert(String::from("sub"), Value::from(claims.sub.as_str()));
    body.insert(String::from("exp"), Value::from(claims.exp));
    body.insert(String::from("iat"), Value::from(claims.iat));
    match encode(&Header::default(), &body, &EncodingKey::from_secret(secret)) {
        Ok(token) => Ok(token),
        Err(e) => Err(e.to_string()),
    }
}

/// Reads a token with `jsonwebtoken::decode`, HS256 and the secret. The
/// decoder checks form and signature and asks for an `exp` claim; it does not
/// look at the clock.
///
/// Trusted: the outcome depends on the token and the secret alone and is the
/// one that `hs256_opened` names. `Err` holds the crate's message.
#[verifier::external_body]
pub(crate) fn read_token(token: &str, secret: &[u8]) -> (outcome: Result<RawClaims, String>)
    ensures
        match outcome {
            Ok(raw) => hs256_opened(token@, secret@) == Some(raw@),
            Err(_) => hs256_opened(token@, secret@) is None,
        },
{
    let mut rules = Validation::new(Algorithm::HS256);
    rules.validate_exp = false;
    match decode::<Value>(token, &DecodingKey::from_secret(secret), &rules) {
        Ok(data) => Ok(RawClaims {
            sub: data.claims["sub"].as_str().map(String::from),
            exp: data.claims["exp"].as_u64(),
            iat: data.claims["iat"].as_u64(),
        }),
        Err(e) => Err(e.to_string()),
    }
}

} // verus!
