//! Signed access tokens through `jsonwebtoken` (HS256).

use jsonwebtoken::{decode, encode, Algorithm, DecodingKey, EncodingKey, Header, Validation};
use serde_json::Value;
use vstd::prelude::*;

use crate::services::auth::Claims;

verus! {

/// The claims of a token whose signature checked, as the library reads
/// them: each is `None` where it is absent or not of its type (`sub`, `iat`
/// and `exp` integers, `email` and `typ` strings).
pub struct JwtFields {
    pub sub: Option<i64>,
    pub email: Option<String>,
    pub iat: Option<i64>,
    pub exp: Option<i64>,
    pub typ: Option<String>,
}

/// `jsonwebtoken::decode::<serde_json::Value>(token, secret)` with HS256,
/// the expiry not checked: the claims read, or the error's text.
pub uninterp spec fn jwt_claims_of(token: Seq<char>, secret: Seq<u8>) -> Result<JwtFields, String>;

/// `jsonwebtoken::decode` with `Validation::new(Algorithm::HS256)` and
/// `validate_exp` off: the signature and the algorithm are checked and an
/// `exp` that is a non-negative integer is required; the expiry itself is
/// left to the caller. The claims are read out of the decoded JSON object.
#[verifier::external_body]
pub(crate) fn jwt_decode(token: &str, secret: &[u8]) -> (r: Result<JwtFields, String>)
    ensures
        r == jwt_claims_of(token@, secret@),
{
    let mut v = Validation::new(Algorithm::HS256);
    v.validate_exp = false;
    let c = decode::<Value>(token, &DecodingKey::from_secret(secret), &v).map_err(|e| e.to_string())?.claims;
    let n = |k: &str| c.get(k).and_then(Value::as_i64);
    let s = |k: &str| c.get(k).and_then(Value::as_str).map(String::from);
    Ok(JwtFields { sub: n("sub"), email: s("email"), iat: n("iat"), exp: n("exp"), typ: s("typ") })
}

/// The HS256 token `jsonwebtoken::encode` gives for the claims (`sub`,
/// `email`, `iat`, `exp`, `typ`) and the secret.
pub uninterp spec fn jwt_hs256_of(claims: (int, Seq<char>, int, int, Seq<char>), secret: Seq<u8>) -> Seq<char>;

/// `jsonwebtoken::encode` with an HS256 header, the claims as a JSON
/// object and `EncodingKey::from_secret`. A token that comes back is the
/// named one; the error, where there is one, is its text.
#[verifier::external_body]
pub(crate) fn jwt_encode(claims: &Claims, secret: &[u8]) -> (r: Result<String, String>)
    ensures
        r matches Ok(t) ==> t@ == jwt_hs256_of(
            (claims.sub as int, claims.email@, claims.iat as int, claims.exp as int, claims.typ@),
            secret@,
        ),
{
    let mut m = serde_json::Map::new();
    m.insert("sub".into(), claims.sub.into());
    m.insert("email".into(), claims.email.as_str().into());
    m.insert("iat".into(), claims.iat.into());
    m.insert("exp".into(), claims.exp.into());
    m.insert("typ".into(), claims.typ.as_str().into());
    let key = EncodingKey::from_secret(secret);
    encode(&Header::new(Algorithm::HS256), &m, &key).map_err(|e| e.to_string())
}

} // verus!
