//! Authentication decisions: password hashing and checking, access-token
//! claims, refresh tokens and extracting the access token from a request.

use vstd::prelude::*;
use vstd::string::StringSliceAdditionalSpecFns;
use vstd::utf8::encode_utf8;

use crate::errors::AppError;
use crate::ext::digests::{bcrypt_hash, bcrypt_prefix, bcrypt_verify, bcrypt_verify_result, blake3_hex, blake3_hex_of, uuid_v4};
use crate::ext::jwt::{jwt_claims_of, jwt_decode, jwt_encode, jwt_hs256_of};
use crate::ext::time_ops::now_millis;
use crate::models::user::{LoginResponse, RefreshResponse};
use crate::text::{
    chars_of, concat, dec, has_prefix, is_ws, push_char, push_decimal, push_str, starts_with, str_eq,
    string_of, to_string, trim_seq,
};

verus! {

/// Lifetime of an access token: 7 days, in seconds.
pub const ACCESS_TOKEN_SECS: i64 = 604800;

/// Lifetime of a refresh token: 90 days, in milliseconds.
pub const REFRESH_TOKEN_MILLIS: i64 = 7776000000;

/// The bcrypt cost passwords are hashed with.
pub const BCRYPT_COST: u32 = 12;

/// The claims of an access token.
#[derive(Debug, Clone, PartialEq)]
pub struct Claims {
    /// The user's id.
    pub sub: i64,
    pub email: String,
    /// Issued at, Unix seconds.
    pub iat: i64,
    /// Expires at, Unix seconds.
    pub exp: i64,
    /// `access` for access tokens.
    pub typ: String,
}

/// Hashes a password with bcrypt at cost 12: the hash is written as
/// `$2b$12$` and 53 more characters, and it verifies the password. Hashing
/// fails only where the OS gives no randomness, which is an `Argon` error.
pub fn hash_password(password: String) -> (r: Result<String, AppError>)
    ensures
        r matches Ok(h) ==> h@.len() == 60 && h@.subrange(0, 7) == "$2b$12$"@ && bcrypt_verify_result(
            password@,
            h@,
        ) == Ok::<bool, Seq<char>>(true),
        r is Err ==> r matches Err(AppError::Argon(_)),
{
    proof {
        reveal_strlit("$2b$12$");
        assert(bcrypt_prefix(BCRYPT_COST) =~= "$2b$12$"@);
    }
    match bcrypt_hash(password.as_str(), BCRYPT_COST) {
        Ok(h) => Ok(h),
        Err(e) => Err(AppError::Argon(e)),
    }
}

/// Checks a password against a bcrypt hash; a malformed hash is an error.
pub fn verify_password(password: &str, hash: &str) -> (r: Result<bool, AppError>)
    ensures
        match bcrypt_verify_result(password@, hash@) {
            Ok(b) => r == Ok::<bool, AppError>(b),
            Err(m) => r matches Err(AppError::Argon(e)) && e@ == m,
        },
{
    match bcrypt_verify(password, hash) {
        Ok(b) => Ok(b),
        Err(e) => Err(AppError::Argon(e)),
    }
}

/// A login with `password` is accepted against the stored hash: a user has
/// the e-mail and bcrypt verifies the password against the hash.
pub open spec fn login_accepts(password: Seq<char>, stored_hash: Option<Seq<char>>) -> bool {
    stored_hash matches Some(h) && bcrypt_verify_result(password, h) == Ok::<bool, Seq<char>>(true)
}

/// The answer to a login attempt once the user's password hash is looked up
/// (`None` where no user has the e-mail): `Ok` only where the password
/// matches; an unknown user or a wrong password is `Unauthorized`.
pub fn check_login(password: &str, stored_hash: Option<&str>) -> (r: Result<(), AppError>)
    ensures
        r is Ok <==> login_accepts(
            password@,
            match stored_hash {
                Some(h) => Some(h@),
                None => None,
            },
        ),
        match stored_hash {
            None => r matches Err(AppError::Unauthorized),
            Some(h) => match bcrypt_verify_result(password@, h@) {
                Ok(true) => r is Ok,
                Ok(false) => r matches Err(AppError::Unauthorized),
                Err(m) => r matches Err(AppError::Argon(e)) && e@ == m,
            },
        },
{
    match stored_hash {
        None => Err(AppError::Unauthorized),
        Some(h) => {
            let ok = verify_password(password, h)?;
            if ok {
                Ok(())
            } else {
                Err(AppError::Unauthorized)
            }
        },
    }
}

/// Unix seconds of an instant given in Unix milliseconds (rounded down).
pub open spec fn secs_of(ms: int) -> int {
    ms / 1000
}

fn millis_to_secs(ms: i64) -> (r: i64)
    ensures
        r == secs_of(ms as int),
{
    if ms >= 0 {
        ms / 1000
    } else {
        let p: i64 = -(ms + 1);
        let q: i64 = p / 1000;
        assert(-(q as int) - 1 == (ms as int) / 1000) by (nonlinear_arith)
            requires
                p == -(ms + 1),
                q == p / 1000,
                p >= 0,
        ;
        -q - 1
    }
}

/// The claims of a new access token for a user, issued now and valid for
/// 7 days.
pub fn access_claims(user_id: i64, email: &str) -> (c: Claims)
    ensures
        c.sub == user_id,
        c.email@ == email@,
        c.exp == c.iat + ACCESS_TOKEN_SECS,
        c.typ@ == "access"@,
{
    let iat = millis_to_secs(now_millis());
    Claims { sub: user_id, email: to_string(email), iat, exp: iat + ACCESS_TOKEN_SECS, typ: to_string("access") }
}

/// Seconds a token stays accepted after its `exp`, as `jsonwebtoken`'s
/// default validation allows.
pub const EXPIRY_LEEWAY_SECS: i64 = 60;

/// The claims as plain values, in the order `sub`, `email`, `iat`, `exp`,
/// `typ`.
pub open spec fn claims_view(c: Claims) -> (int, Seq<char>, int, int, Seq<char>) {
    (c.sub as int, c.email@, c.iat as int, c.exp as int, c.typ@)
}

/// The claims a token is accepted with at `now_secs`: its signature checks
/// with `secret` (see `jwt_claims_of`), it holds all five claims, it has not
/// expired (`exp` plus the leeway is not before now) and it is an access
/// token; `None` otherwise.
pub open spec fn accepted_claims(token: Seq<char>, secret: Seq<u8>, now_secs: i64) -> Option<
    (int, Seq<char>, int, int, Seq<char>),
> {
    match jwt_claims_of(token, secret) {
        Err(_) => None,
        Ok(f) => match (f.sub, f.email, f.iat, f.exp, f.typ) {
            (Some(sub), Some(email), Some(iat), Some(exp), Some(typ)) => if exp + EXPIRY_LEEWAY_SECS
                < now_secs || typ@ != "access"@ {
                None
            } else {
                Some((sub as int, email@, iat as int, exp as int, typ@))
            },
            _ => None,
        },
    }
}

/// Checks an access token at `now_secs` (Unix seconds): the claims where
/// `accepted_claims` accepts it, else `Unauthorized`.
pub fn validate_access_token(token: &str, secret: &[u8], now_secs: i64) -> (r: Result<Claims, AppError>)
    ensures
        match accepted_claims(token@, secret@, now_secs) {
            Some(c) => r matches Ok(got) && claims_view(got) == c,
            None => r matches Err(AppError::Unauthorized),
        },
{
    let f = match jwt_decode(token, secret) {
        Ok(f) => f,
        Err(_) => {
            return Err(AppError::Unauthorized);
        },
    };
    match (f.sub, f.email, f.iat, f.exp, f.typ) {
        (Some(sub), Some(email), Some(iat), Some(exp), Some(typ)) => {
            let expired = (exp as i128) + (EXPIRY_LEEWAY_SECS as i128) < (now_secs as i128);
            if expired {
                return Err(AppError::Unauthorized);
            }
            check_access_claims(Claims { sub, email, iat, exp, typ })
        },
        _ => Err(AppError::Unauthorized),
    }
}

/// Signs claims into an HS256 token with `secret` (see `jwt_hs256_of`); a
/// signing failure is a `Jwt` error.
pub fn sign_access_claims(claims: &Claims, secret: &[u8]) -> (r: Result<String, AppError>)
    ensures
        match r {
            Ok(t) => t@ == jwt_hs256_of(claims_view(*claims), secret@),
            Err(e) => e is Jwt,
        },
{
    match jwt_encode(claims, secret) {
        Ok(t) => Ok(t),
        Err(e) => Err(AppError::Jwt(e)),
    }
}

/// The access token of a user issued at `iat` (Unix seconds): the claims
/// `sub`, `email`, `iat`, `exp` seven days later and `typ` `access`, signed.
pub open spec fn access_token_of(user_id: i64, email: Seq<char>, iat: i64, secret: Seq<u8>) -> Seq<char> {
    jwt_hs256_of((user_id as int, email, iat as int, iat + ACCESS_TOKEN_SECS, "access"@), secret)
}

/// A new access token for a user: the claims of `access_claims`, issued
/// now and valid for 7 days, signed with `secret`.
pub fn create_access_token(user_id: i64, email: &str, secret: &[u8]) -> (r: Result<String, AppError>)
    ensures
        match r {
            Ok(t) => exists|iat: i64| t@ == #[trigger] access_token_of(user_id, email@, iat, secret@),
            Err(e) => e is Jwt,
        },
{
    let claims = access_claims(user_id, email);
    let r = sign_access_claims(&claims, secret);
    assert(claims_view(claims) == (user_id as int, email@, claims.iat as int, claims.iat
        + ACCESS_TOKEN_SECS, "access"@));
    proof {
        if r is Ok {
            assert(r->Ok_0@ == access_token_of(user_id, email@, claims.iat, secret@));
        }
    }
    r
}

/// Accepts the claims of a decoded token only where it is an access token.
pub fn check_access_claims(claims: Claims) -> (r: Result<Claims, AppError>)
    ensures
        claims.typ@ == "access"@ ==> r == Ok::<Claims, AppError>(claims),
        claims.typ@ != "access"@ ==> r matches Err(AppError::Unauthorized),
{
    if str_eq(claims.typ.as_str(), "access") {
        Ok(claims)
    } else {
        Err(AppError::Unauthorized)
    }
}

/// The answer to a login: both tokens, type `Bearer`, lifetime 7 days in
/// seconds.
pub fn login_response(access_token: String, refresh_token: String) -> (r: LoginResponse)
    ensures
        r.access_token == access_token,
        r.refresh_token == refresh_token,
        r.token_type@ == "Bearer"@,
        r.expires_in == ACCESS_TOKEN_SECS,
{
    LoginResponse { access_token, refresh_token, token_type: to_string("Bearer"), expires_in: ACCESS_TOKEN_SECS }
}

/// The answer to a token refresh.
pub fn refresh_response(access_token: String) -> (r: RefreshResponse)
    ensures
        r.access_token == access_token,
        r.token_type@ == "Bearer"@,
        r.expires_in == ACCESS_TOKEN_SECS,
{
    RefreshResponse { access_token, token_type: to_string("Bearer"), expires_in: ACCESS_TOKEN_SECS }
}

/// The hexadecimal BLAKE3 digest under which a token is stored.
pub fn blake3_hash(input: &str) -> (r: String)
    ensures
        r@ == blake3_hex_of(encode_utf8(input@)),
        r@.len() == 64,
{
    let b = input.as_bytes();
    assert(input.spec_bytes() == encode_utf8(input@));
    blake3_hex(b)
}

/// A new refresh token, the digest it is stored under, and when it expires.
#[derive(Debug, Clone, PartialEq)]
pub struct NewRefreshToken {
    pub token: String,
    pub token_hash: String,
    /// Unix milliseconds.
    pub expires_at: i64,
}

/// A fresh refresh token: two random UUIDs joined by `.`, stored under its
/// BLAKE3 digest, valid for 90 days from `now_ms`.
pub fn new_refresh_token(now_ms: i64) -> (r: NewRefreshToken)
    requires
        now_ms <= i64::MAX - REFRESH_TOKEN_MILLIS,
    ensures
        r.token@.len() == 73,
        r.token@[36] == '.',
        r.token_hash@ == blake3_hex_of(encode_utf8(r.token@)),
        r.expires_at == now_ms + REFRESH_TOKEN_MILLIS,
{
    let mut token = uuid_v4();
    push_char(&mut token, '.');
    let second = uuid_v4();
    push_str(&mut token, second.as_str());
    let token_hash = blake3_hash(token.as_str());
    NewRefreshToken { token, token_hash, expires_at: now_ms + REFRESH_TOKEN_MILLIS }
}

/// The user a refresh request is answered for, once the token's digest is
/// looked up (`None` where no row has it): the owning user where the token
/// has not expired (`expires_at` not before `now_ms`).
pub open spec fn refresh_accepts(found: Option<(i64, i64)>, now_ms: i64) -> Option<i64> {
    match found {
        None => None,
        Some((user_id, expires_at)) => if expires_at < now_ms {
            None
        } else {
            Some(user_id)
        },
    }
}

/// The answer to a refresh request once the token's digest is looked up:
/// the user `refresh_accepts` names, else `Unauthorized`.
pub fn check_refresh_token(found: Option<(i64, i64)>, now_ms: i64) -> (r: Result<i64, AppError>)
    ensures
        match refresh_accepts(found, now_ms) {
            Some(user_id) => r == Ok::<i64, AppError>(user_id),
            None => r matches Err(AppError::Unauthorized),
        },
{
    match found {
        None => Err(AppError::Unauthorized),
        Some((user_id, expires_at)) => {
            if expires_at < now_ms {
                Err(AppError::Unauthorized)
            } else {
                Ok(user_id)
            }
        },
    }
}

/// A refresh token issued at `issued_at` is accepted for its owner exactly
/// until 90 days later, and never once it is gone from the store.
pub proof fn lemma_refresh_token_lifetime(user_id: i64, issued_at: i64, now_ms: i64)
    requires
        issued_at <= i64::MAX - REFRESH_TOKEN_MILLIS,
    ensures
        refresh_accepts(Some((user_id, (issued_at + REFRESH_TOKEN_MILLIS) as i64)), now_ms) == (if now_ms
            <= issued_at + REFRESH_TOKEN_MILLIS {
            Some(user_id)
        } else {
            None
        }),
        refresh_accepts(None, now_ms) is None,
{
}

// ---------------------------------------------------------------------------
// The access-token cookie of the web pages
// ---------------------------------------------------------------------------

/// The `Set-Cookie` value a login sends so that the web pages carry the
/// access token: `access_token` set to the token, kept from scripts, for
/// the whole site, for as long as the token lives.
pub open spec fn access_cookie_of(token: Seq<char>) -> Seq<char> {
    "access_token="@ + token + "; HttpOnly; Path=/; SameSite=Lax; Max-Age="@ + dec(
        ACCESS_TOKEN_SECS as nat,
    )
}

/// The `Set-Cookie` value of a login (see `access_cookie_of`).
pub fn access_cookie(token: &str) -> (r: String)
    ensures
        r@ == access_cookie_of(token@),
{
    let mut out = concat("access_token=", token);
    push_str(&mut out, "; HttpOnly; Path=/; SameSite=Lax; Max-Age=");
    push_decimal(&mut out, ACCESS_TOKEN_SECS as u64);
    out
}

/// The `Set-Cookie` value a logout sends: the access-token cookie emptied
/// and expired at once.
pub fn cleared_access_cookie() -> (r: String)
    ensures
        r@ == "access_token=; HttpOnly; Path=/; SameSite=Lax; Max-Age=0"@,
{
    to_string("access_token=; HttpOnly; Path=/; SameSite=Lax; Max-Age=0")
}

// ---------------------------------------------------------------------------
// Finding the access token in a request
// ---------------------------------------------------------------------------

/// The token of an `Authorization` header: what follows `Bearer ` or
/// `bearer `.
pub open spec fn bearer_token(h: Seq<char>) -> Option<Seq<char>> {
    if has_prefix(h, "Bearer "@) || has_prefix(h, "bearer "@) {
        Some(h.skip(7))
    } else {
        None
    }
}

/// The pieces of `s` between the separators `sep`, as `str::split` gives
/// them (scanning from index `i` with the current piece `cur`).
pub open spec fn split_from(s: Seq<char>, sep: char, i: int, cur: Seq<char>) -> Seq<Seq<char>>
    decreases s.len() - i,
{
    if i < 0 || i >= s.len() {
        seq![cur]
    } else if s[i] == sep {
        seq![cur] + split_from(s, sep, i + 1, Seq::empty())
    } else {
        split_from(s, sep, i + 1, cur.push(s[i]))
    }
}

pub open spec fn split_on(s: Seq<char>, sep: char) -> Seq<Seq<char>> {
    split_from(s, sep, 0, Seq::empty())
}

/// The value of the first `access_token` cookie among `pieces`: a piece
/// that, trimmed, starts with `access_token=`.
pub open spec fn first_access_cookie(pieces: Seq<Seq<char>>) -> Option<Seq<char>>
    decreases pieces.len(),
{
    if pieces.len() == 0 {
        None
    } else if has_prefix(trim_seq(pieces[0]), "access_token="@) {
        Some(trim_seq(pieces[0]).skip(13))
    } else {
        first_access_cookie(pieces.drop_first())
    }
}

/// The access token of a request: the bearer token of its `Authorization`
/// header, else the `access_token` cookie of its `Cookie` header.
pub open spec fn request_token(authorization: Option<Seq<char>>, cookie: Option<Seq<char>>) -> Option<
    Seq<char>,
> {
    let from_header = match authorization {
        Some(h) => bearer_token(h),
        None => None,
    };
    if from_header is Some {
        from_header
    } else {
        match cookie {
            Some(c) => first_access_cookie(split_on(c, ';')),
            None => None,
        }
    }
}

fn bearer_of(h: &str) -> (r: Option<String>)
    ensures
        r.deep_view() == bearer_token(h@),
{
    let v = chars_of(h);
    let p1 = chars_of("Bearer ");
    let p2 = chars_of("bearer ");
    proof {
        reveal_strlit("Bearer ");
        reveal_strlit("bearer ");
    }
    if starts_with(&v, &p1) || starts_with(&v, &p2) {
        let mut out: Vec<char> = Vec::new();
        let mut i: usize = 7;
        while i < v.len()
            invariant
                v@ == h@,
                7 <= i <= v@.len(),
                out@ == v@.subrange(7, i as int),
            decreases v@.len() - i,
        {
            out.push(v[i]);
            i = i + 1;
            assert(out@ =~= v@.subrange(7, i as int));
        }
        assert(out@ =~= h@.skip(7));
        Some(string_of(&out))
    } else {
        None
    }
}

proof fn lemma_split_from_step(s: Seq<char>, sep: char, i: int, cur: Seq<char>, acc: Seq<Seq<char>>)
    requires
        0 <= i < s.len(),
        s[i] == sep,
    ensures
        acc + split_from(s, sep, i, cur) == (acc + seq![cur]) + split_from(s, sep, i + 1, Seq::empty()),
{
    assert(acc + (seq![cur] + split_from(s, sep, i + 1, Seq::empty())) =~= (acc + seq![cur])
        + split_from(s, sep, i + 1, Seq::empty()));
}

proof fn lemma_first_cookie_append(done: Seq<Seq<char>>, rest: Seq<Seq<char>>)
    requires
        first_access_cookie(done) is None,
    ensures
        first_access_cookie(done + rest) == first_access_cookie(rest),
    decreases done.len(),
{
    if done.len() > 0 {
        assert((done + rest).drop_first() =~= done.drop_first() + rest);
        lemma_first_cookie_append(done.drop_first(), rest);
    } else {
        assert(done + rest =~= rest);
    }
}

proof fn lemma_first_cookie_hit(done: Seq<Seq<char>>, piece: Seq<char>, rest: Seq<Seq<char>>)
    requires
        first_access_cookie(done) is None,
        has_prefix(trim_seq(piece), "access_token="@),
    ensures
        first_access_cookie(done + seq![piece] + rest) == Some(trim_seq(piece).skip(13)),
{
    lemma_first_cookie_append(done, seq![piece] + rest);
    assert(done + seq![piece] + rest =~= done + (seq![piece] + rest));
    assert((seq![piece] + rest)[0] == piece);
}

proof fn lemma_first_cookie_miss(done: Seq<Seq<char>>, piece: Seq<char>)
    requires
        first_access_cookie(done) is None,
        !has_prefix(trim_seq(piece), "access_token="@),
    ensures
        first_access_cookie(done + seq![piece]) is None,
{
    lemma_first_cookie_append(done, seq![piece]);
    assert(seq![piece].drop_first() =~= Seq::<Seq<char>>::empty());
    assert(seq![piece][0] == piece);
    assert(first_access_cookie(Seq::<Seq<char>>::empty()) is None);
    assert(first_access_cookie(seq![piece]) == first_access_cookie(seq![piece].drop_first()));
}

/// The `access_token` value of a piece of a `Cookie` header, where the
/// trimmed piece starts with `access_token=`.
fn cookie_piece_value(piece: &Vec<char>) -> (r: Option<String>)
    ensures
        has_prefix(trim_seq(piece@), "access_token="@) ==> r.deep_view() == Some(
            trim_seq(piece@).skip(13),
        ),
        !has_prefix(trim_seq(piece@), "access_token="@) ==> r is None,
{
    let s = string_of(piece);
    let t = crate::text::trim(s.as_str());
    let tv = chars_of(t.as_str());
    let key = chars_of("access_token=");
    proof {
        reveal_strlit("access_token=");
    }
    if starts_with(&tv, &key) {
        let mut out: Vec<char> = Vec::new();
        let mut i: usize = 13;
        while i < tv.len()
            invariant
                13 <= i <= tv@.len(),
                out@ == tv@.subrange(13, i as int),
            decreases tv@.len() - i,
        {
            out.push(tv[i]);
            i = i + 1;
            assert(out@ =~= tv@.subrange(13, i as int));
        }
        assert(out@ =~= tv@.skip(13));
        Some(string_of(&out))
    } else {
        None
    }
}

fn cookie_token(c: &str) -> (r: Option<String>)
    ensures
        r.deep_view() == first_access_cookie(split_on(c@, ';')),
{
    let v = chars_of(c);
    let ghost mut done: Seq<Seq<char>> = Seq::empty();
    let mut cur: Vec<char> = Vec::new();
    let mut i: usize = 0;
    while i < v.len()
        invariant
            v@ == c@,
            i <= v@.len(),
            first_access_cookie(done) is None,
            done + split_from(c@, ';', i as int, cur@) == split_on(c@, ';'),
        decreases v@.len() - i,
    {
        if v[i] == ';' {
            proof {
                lemma_split_from_step(c@, ';', i as int, cur@, done);
            }
            match cookie_piece_value(&cur) {
                Some(t) => {
                    proof {
                        lemma_first_cookie_hit(done, cur@, split_from(c@, ';', i + 1, Seq::empty()));
                    }
                    return Some(t);
                },
                None => {
                    proof {
                        lemma_first_cookie_miss(done, cur@);
                        done = done + seq![cur@];
                    }
                },
            }
            cur = Vec::new();
        } else {
            cur.push(v[i]);
        }
        i = i + 1;
    }
    proof {
        assert(split_from(c@, ';', i as int, cur@) == seq![cur@]);
    }
    match cookie_piece_value(&cur) {
        Some(t) => {
            proof {
                lemma_first_cookie_hit(done, cur@, Seq::empty());
                assert(done + seq![cur@] + Seq::<Seq<char>>::empty() =~= done + seq![cur@]);
            }
            Some(t)
        },
        None => {
            proof {
                lemma_first_cookie_miss(done, cur@);
            }
            None
        },
    }
}

/// The access token a request carries: the bearer token of its
/// `Authorization` header, else the `access_token` cookie.
pub fn extract_access_token(authorization: Option<&str>, cookie: Option<&str>) -> (r: Option<String>)
    ensures
        r.deep_view() == request_token(
            match authorization {
                Some(h) => Some(h@),
                None => None,
            },
            match cookie {
                Some(c) => Some(c@),
                None => None,
            },
        ),
{
    let from_header = match authorization {
        Some(h) => bearer_of(h),
        None => None,
    };
    match from_header {
        Some(t) => Some(t),
        None => match cookie {
            Some(c) => cookie_token(c),
            None => None,
        },
    }
}

/// A bearer token in the `Authorization` header takes precedence over the
/// `access_token` cookie; without one, the cookie is used as if there were
/// no header.
pub proof fn lemma_header_token_first(header: Seq<char>, cookie: Option<Seq<char>>)
    ensures
        bearer_token(header) is Some ==> request_token(Some(header), cookie) == bearer_token(header),
        bearer_token(header) is None ==> request_token(Some(header), cookie) == request_token(
            None,
            cookie,
        ),
{
}

/// The password a user is created with logs in: a hash that verifies the
/// password, as every hash `hash_password` gives does, is accepted at login.
pub proof fn lemma_created_password_logs_in(password: Seq<char>, hash: Seq<char>)
    requires
        bcrypt_verify_result(password, hash) == Ok::<bool, Seq<char>>(true),
    ensures
        login_accepts(password, Some(hash)),
{
}

} // verus!
