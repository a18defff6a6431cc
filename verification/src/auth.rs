//! Passwords, credentials and the checks that admit a request.
use vstd::prelude::*;

use crate::error::{owned, result_view, AppError, ErrorKind};
use crate::models::{
    normalize_email, normalize_email_spec, role_from_name, UserRecord, UserRole,
};
use crate::text::{
    lemma_index_of_after,
    chars_of, extend_chars, split_once, split_once_vec, starts_with, string_of, strip_prefix_vec,
};
use crate::b64::{base64_padded, lemma_base64_padded_injective};
use vstd::utf8::{decode_utf8, encode_utf8, valid_utf8};
#[allow(unused_imports)]
use argon2::password_hash::{PasswordHasher, PasswordVerifier};
#[allow(unused_imports)]
use base64::Engine;

verus! {

/// A user whose credentials were accepted.
#[derive(Debug, Clone)]
pub struct AuthenticatedUser {
    pub id: i64,
    pub role: UserRole,
}

impl AuthenticatedUser {
    /// Whether the user is an administrator.
    pub fn is_admin(&self) -> (r: bool)
        ensures
            r == (self.role == UserRole::Admin),
    {
        match self.role {
            UserRole::Admin => true,
            UserRole::User => false,
        }
    }
}

/// How long an issued token stays valid, in seconds (a week).
pub const TOKEN_TTL_SECS: u64 = 604800;

/// What a token claims: the user, the user's role, and when the token was
/// issued and expires (seconds since the Unix epoch).
#[derive(Debug, Clone)]
pub struct Claims {
    pub sub: i64,
    pub role: String,
    pub exp: usize,
    pub iat: usize,
}

/// The claims of a token issued for `user` at `issued_at`.
pub fn claims_for(user: &UserRecord, issued_at: u64) -> (c: Claims)
    requires
        issued_at + TOKEN_TTL_SECS <= u64::MAX,
    ensures
        c.sub == user.id,
        c.role@ == user.role@,
        c.exp == (issued_at + TOKEN_TTL_SECS) as usize,
        c.iat == issued_at as usize,
{
    let exp = issued_at + TOKEN_TTL_SECS;
    Claims { sub: user.id, role: user.role.clone(), exp: exp as usize, iat: issued_at as usize }
}

/// What the Argon2 check of `password` against the PHC string `phc` gives:
/// whether it matches, or the message with which the string is refused.
pub uninterp spec fn argon2_verdict(phc: Seq<char>, password: Seq<char>) -> Result<bool, Seq<char>>;

/// Parses `hash` with `PasswordHash::new` and checks `password` against it
/// with `Argon2::default().verify_password`. The contract names the
/// outcome (`argon2_verdict`); it does not describe Argon2.
#[verifier::external_body]
fn argon2_verify(hash: &str, password: &str) -> (r: Result<bool, String>)
    ensures
        match r {
            Ok(b) => argon2_verdict(hash@, password@) == Ok::<bool, Seq<char>>(b),
            Err(m) => argon2_verdict(hash@, password@) == Err::<bool, Seq<char>>(m@),
        },
{
    match argon2::password_hash::PasswordHash::new(hash) {
        Ok(parsed) => Ok(argon2::Argon2::default().verify_password(password.as_bytes(), &parsed).is_ok()),
        Err(err) => Err(err.to_string()),
    }
}

/// Hashes `password` with `Argon2::default().hash_password` and a salt that
/// `SaltString::generate` draws from the operating system, and writes the
/// PHC string. The salt is random, so the string is not named; the
/// contract claims only what the crate documents of every outcome: the
/// string verifies the password it was made from.
#[verifier::external_body]
fn argon2_hash(password: &str) -> (r: Result<String, String>)
    ensures
        match r {
            Ok(h) => argon2_verdict(h@, password@) == Ok::<bool, Seq<char>>(true),
            Err(_) => true,
        },
{
    let salt = argon2::password_hash::SaltString::generate(&mut argon2::password_hash::rand_core::OsRng);
    match argon2::Argon2::default().hash_password(password.as_bytes(), &salt) {
        Ok(hash) => Ok(hash.to_string()),
        Err(err) => Err(err.to_string()),
    }
}

pub open spec fn short_password_message() -> Seq<char> {
    "password must be at least 8 characters"@
}

/// Whether a password is too short: its UTF-8 length, as `str::len`
/// reports it, is under 8 bytes.
pub open spec fn password_too_short(password: Seq<char>) -> bool {
    (encode_utf8(password).len() as usize) < 8
}

/// Refuses a password of fewer than 8 bytes.
pub fn validate_password(password: &str) -> (r: Result<(), AppError>)
    ensures
        result_view(r) == if password_too_short(password@) {
            Err((ErrorKind::BadRequest, short_password_message()))
        } else {
            Ok(())
        },
{
    if password.len() < 8 {
        Err(AppError::BadRequest(owned("password must be at least 8 characters")))
    } else {
        Ok(())
    }
}

/// What checking `password` against a stored hash answers.
pub open spec fn verify_password_spec(hash: Seq<char>, password: Seq<char>) -> Result<
    bool,
    (ErrorKind, Seq<char>),
> {
    match argon2_verdict(hash, password) {
        Ok(b) => Ok(b),
        Err(m) => Err((ErrorKind::Internal, m)),
    }
}

/// Hashes a password for storage. A password under 8 bytes is refused;
/// the hash that comes back verifies the password.
pub fn hash_password(password: &str) -> (r: Result<String, AppError>)
    ensures
        password_too_short(password@) ==> result_view(r) == Err::<Seq<char>, (ErrorKind, Seq<char>)>(
            (ErrorKind::BadRequest, short_password_message()),
        ),
        !password_too_short(password@) ==> match r {
            Ok(h) => verify_password_spec(h@, password@) == Ok::<bool, (ErrorKind, Seq<char>)>(
                true,
            ),
            Err(e) => e@.0 == ErrorKind::Internal,
        },
{
    validate_password(password)?;
    match argon2_hash(password) {
        Ok(h) => Ok(h),
        Err(m) => Err(AppError::internal(m)),
    }
}

/// Checks a password against a stored hash; a hash that cannot be read is
/// an internal error.
pub fn verify_password(hash: &str, password: &str) -> (r: Result<bool, AppError>)
    ensures
        result_view(r) == verify_password_spec(hash@, password@),
{
    match argon2_verify(hash, password) {
        Ok(b) => Ok(b),
        Err(m) => Err(AppError::internal(m)),
    }
}

/// What the check of a found user answers.
pub open spec fn ensure_active_spec(user: UserRecord) -> Result<(i64, UserRole), (ErrorKind, Seq<char>)> {
    if user.is_active == 0 {
        Err((ErrorKind::Unauthorized, "user is inactive"@))
    } else {
        match role_from_name(user.role@) {
            Some(role) => Ok((user.id, role)),
            None => Err((ErrorKind::Internal, "invalid role "@ + user.role@)),
        }
    }
}

pub open spec fn auth_view(r: Result<AuthenticatedUser, AppError>) -> Result<(i64, UserRole), (ErrorKind, Seq<char>)> {
    match r {
        Ok(u) => Ok((u.id, u.role)),
        Err(e) => Err(e@),
    }
}

/// Admits an active user whose stored role is known.
pub fn ensure_active_user(user: UserRecord) -> (r: Result<AuthenticatedUser, AppError>)
    ensures
        auth_view(r) == ensure_active_spec(user),
{
    if user.is_active == 0 {
        return Err(AppError::Unauthorized(owned("user is inactive")));
    }
    match UserRole::from_db(user.role.as_str()) {
        Some(role) => Ok(AuthenticatedUser { id: user.id, role }),
        None => {
            let mut m = chars_of("invalid role ");
            extend_chars(&mut m, &chars_of(user.role.as_str()));
            Err(AppError::internal(string_of(&m)))
        },
    }
}

/// The scheme of an `Authorization` header and what follows it.
#[derive(Debug, Clone)]
pub enum AuthScheme {
    Bearer(String),
    Basic(String),
}

/// What an `Authorization` header asks for.
pub open spec fn authorization_spec(raw: Seq<char>) -> Result<(bool, Seq<char>), (ErrorKind, Seq<char>)> {
    if starts_with(raw, "Bearer "@) {
        Ok((true, raw.skip(7)))
    } else if starts_with(raw, "Basic "@) {
        Ok((false, raw.skip(6)))
    } else {
        Err((ErrorKind::Unauthorized, "unsupported authorization scheme"@))
    }
}

pub open spec fn scheme_view(r: Result<AuthScheme, AppError>) -> Result<(bool, Seq<char>), (ErrorKind, Seq<char>)> {
    match r {
        Ok(AuthScheme::Bearer(t)) => Ok((true, t@)),
        Ok(AuthScheme::Basic(t)) => Ok((false, t@)),
        Err(e) => Err(e@),
    }
}

/// Reads the scheme of an `Authorization` header: `Bearer ` with a token
/// or `Basic ` with encoded credentials; any other is refused.
pub fn parse_authorization(raw: &str) -> (r: Result<AuthScheme, AppError>)
    ensures
        scheme_view(r) == authorization_spec(raw@),
{
    let v = chars_of(raw);
    proof {
        reveal_strlit("Bearer ");
        reveal_strlit("Basic ");
    }
    if let Some(token) = strip_prefix_vec(&v, &chars_of("Bearer ")) {
        return Ok(AuthScheme::Bearer(string_of(&token)));
    }
    if let Some(encoded) = strip_prefix_vec(&v, &chars_of("Basic ")) {
        return Ok(AuthScheme::Basic(string_of(&encoded)));
    }
    Err(AppError::Unauthorized(owned("unsupported authorization scheme")))
}

/// The bytes that `encoded` encodes in standard Base64 with padding, or
/// `None` where it is not such an encoding (`base64_padded` is one to one,
/// so the bytes are unique).
pub open spec fn base64_standard_decode(encoded: Seq<char>) -> Option<Seq<u8>> {
    if exists|b: Seq<u8>| base64_padded(b) == encoded {
        Some(choose|b: Seq<u8>| base64_padded(b) == encoded)
    } else {
        None
    }
}

/// Decodes `encoded` with `base64::engine::general_purpose::STANDARD`: the
/// standard alphabet, canonical padding required and no stray trailing
/// bits, so it accepts exactly the padded encodings of byte sequences and
/// gives back the bytes encoded.
#[verifier::external_body]
fn base64_decode(encoded: &str) -> (r: Option<Vec<u8>>)
    ensures
        r matches Some(b) ==> encoded@ == base64_padded(b@),
        r is None ==> forall|b: Seq<u8>| #[trigger] base64_padded(b) != encoded@,
{
    match base64::engine::general_purpose::STANDARD.decode(encoded) {
        Ok(bytes) => Some(bytes),
        Err(_) => None,
    }
}

/// Reads `bytes` as UTF-8 with `String::from_utf8`: text where the bytes
/// are valid UTF-8, decoded as `vstd::utf8` states it.
#[verifier::external_body]
fn utf8_string(bytes: Vec<u8>) -> (r: Option<String>)
    ensures
        r is Some <==> valid_utf8(bytes@),
        r matches Some(s) ==> s@ == decode_utf8(bytes@),
{
    match String::from_utf8(bytes) {
        Ok(s) => Some(s),
        Err(_) => None,
    }
}

/// The e-mail and the password that decoded Basic credentials hold: the
/// text before the first `:` and the text after it (empty without one).
pub open spec fn split_credentials(raw: Seq<char>) -> (Seq<char>, Seq<char>) {
    match split_once(raw, ':') {
        Some((a, b)) => (a, b),
        None => (raw, Seq::empty()),
    }
}

/// What Basic credentials give: the normalized e-mail and the password.
pub open spec fn basic_credentials_spec(encoded: Seq<char>) -> Result<
    (Seq<char>, Seq<char>),
    (ErrorKind, Seq<char>),
> {
    match base64_standard_decode(encoded) {
        None => Err((ErrorKind::Unauthorized, "invalid basic auth encoding"@)),
        Some(bytes) => if !valid_utf8(bytes) {
            Err((ErrorKind::Unauthorized, "invalid basic auth payload"@))
        } else {
            let (e, p) = split_credentials(decode_utf8(bytes));
            let email = normalize_email_spec(e);
            if email.len() == 0 || p.len() == 0 {
                Err((ErrorKind::Unauthorized, "basic auth requires email and password"@))
            } else {
                Ok((email, p))
            }
        },
    }
}

/// Credentials written as `email:password`, in UTF-8 and standard Base64
/// with padding, are read back: the normalized e-mail and the password,
/// where the e-mail holds no `:` and neither part is empty.
pub proof fn lemma_basic_credentials_round_trip(email: Seq<char>, password: Seq<char>)
    requires
        !email.contains(':'),
        normalize_email_spec(email).len() > 0,
        password.len() > 0,
    ensures
        basic_credentials_spec(base64_padded(encode_utf8(email + seq![':'] + password))) == Ok::<
            (Seq<char>, Seq<char>),
            (ErrorKind, Seq<char>),
        >((normalize_email_spec(email), password)),
{
    let text = email + seq![':'] + password;
    let bytes = encode_utf8(text);
    let enc = base64_padded(bytes);
    assert(exists|b: Seq<u8>| base64_padded(b) == enc);
    let c = choose|b: Seq<u8>| base64_padded(b) == enc;
    lemma_base64_padded_injective(c, bytes);
    vstd::utf8::encode_utf8_valid_utf8(text);
    vstd::utf8::encode_utf8_decode_utf8(text);
    lemma_index_of_after(email, ':', password);
    assert(text.take(email.len() as int) =~= email);
    assert(text.skip(email.len() as int + 1) =~= password);
}

pub open spec fn pair_view(r: Result<(String, String), AppError>) -> Result<
    (Seq<char>, Seq<char>),
    (ErrorKind, Seq<char>),
> {
    match r {
        Ok((a, b)) => Ok((a@, b@)),
        Err(e) => Err(e@),
    }
}

/// Decodes Basic credentials into an e-mail (normalized) and a password;
/// both must be present.
pub fn basic_credentials(encoded: &str) -> (r: Result<(String, String), AppError>)
    ensures
        pair_view(r) == basic_credentials_spec(encoded@),
{
    let decoded = match base64_decode(encoded) {
        Some(d) => d,
        None => return Err(AppError::Unauthorized(owned("invalid basic auth encoding"))),
    };
    proof {
        let c = choose|b: Seq<u8>| base64_padded(b) == encoded@;
        lemma_base64_padded_injective(c, decoded@);
    }
    let raw = match utf8_string(decoded) {
        Some(s) => s,
        None => return Err(AppError::Unauthorized(owned("invalid basic auth payload"))),
    };
    let chars = chars_of(raw.as_str());
    let (first, second) = match split_once_vec(&chars, ':') {
        Some((a, b)) => (a, b),
        None => (chars, Vec::new()),
    };
    let email = normalize_email(string_of(&first).as_str());
    if email.as_str().unicode_len() == 0 || second.len() == 0 {
        return Err(AppError::Unauthorized(owned("basic auth requires email and password")));
    }
    Ok((email, string_of(&second)))
}

/// What the credentials check answers for the user found by e-mail.
pub open spec fn basic_login_spec(user: Option<UserRecord>, password: Seq<char>) -> Result<
    (i64, UserRole),
    (ErrorKind, Seq<char>),
> {
    match user {
        None => Err((ErrorKind::Unauthorized, "invalid credentials"@)),
        Some(u) => match verify_password_spec(u.password_hash@, password) {
            Err(e) => Err(e),
            Ok(false) => Err((ErrorKind::Unauthorized, "invalid credentials"@)),
            Ok(true) => ensure_active_spec(u),
        },
    }
}

/// Admits the user that Basic credentials name (looked up by e-mail) when
/// the password matches and the user is active.
pub fn basic_login(user: Option<UserRecord>, password: &str) -> (r: Result<AuthenticatedUser, AppError>)
    ensures
        auth_view(r) == basic_login_spec(user, password@),
{
    let u = match user {
        Some(u) => u,
        None => return Err(AppError::Unauthorized(owned("invalid credentials"))),
    };
    let ok = verify_password(u.password_hash.as_str(), password)?;
    if !ok {
        return Err(AppError::Unauthorized(owned("invalid credentials")));
    }
    ensure_active_user(u)
}

/// Admits the user that a valid token names (looked up by id) when the
/// user exists and is active.
pub fn bearer_login(user: Option<UserRecord>) -> (r: Result<AuthenticatedUser, AppError>)
    ensures
        auth_view(r) == match user {
            None => Err((ErrorKind::Unauthorized, "user not found"@)),
            Some(u) => ensure_active_spec(u),
        },
{
    match user {
        Some(u) => ensure_active_user(u),
        None => Err(AppError::Unauthorized(owned("user not found"))),
    }
}

/// The claims of a token that the server reads, each as serde_json reads
/// its member of the token's JSON payload (`as_i64`, `as_str`, `as_u64`):
/// `None` where the member is missing or of another type.
#[derive(Debug, Clone)]
pub struct TokenClaims {
    pub sub: Option<i64>,
    pub role: Option<String>,
    pub exp: Option<u64>,
    pub iat: Option<u64>,
}

impl View for TokenClaims {
    type V = (Option<i64>, Option<Seq<char>>, Option<u64>, Option<u64>);

    open spec fn view(&self) -> (Option<i64>, Option<Seq<char>>, Option<u64>, Option<u64>) {
        (
            self.sub,
            match self.role {
                Some(r) => Some(r@),
                None => None,
            },
            self.exp,
            self.iat,
        )
    }
}

/// The `sub`, `role`, `exp` and `iat` members of the JSON payload that a
/// JSON Web Token carries (its middle part, Base64url-decoded), each read
/// as `TokenClaims` describes.
pub uninterp spec fn token_claims(token: Seq<char>) -> (Option<i64>, Option<Seq<char>>, Option<u64>, Option<u64>);

/// Whether `token` carries a valid HS256 signature for `secret`: it has
/// three parts separated by `.`, its first part decodes to a header naming
/// HS256, and its last part is the Base64url HMAC-SHA256, keyed by the
/// UTF-8 bytes of `secret`, of the first two parts joined by `.`.
pub uninterp spec fn hs256_signature_valid(token: Seq<char>, secret: Seq<char>) -> bool;

/// Checks `token` with `jsonwebtoken::decode::<serde_json::Value>`, keyed
/// by `secret` as an HMAC secret, under `Validation::default()` (HS256, a
/// valid signature, an `exp` claim that is not past), and reads the claims
/// of a token that passes. The expiry check reads the clock, so passing is
/// not promised. What is claimed: a token that passes has a valid HS256
/// signature for `secret` (a token without one never passes), and the
/// claims read are those its payload carries (`token_claims`).
#[verifier::external_body]
fn jwt_decode_claims(token: &str, secret: &str) -> (r: Option<TokenClaims>)
    ensures
        r is Some ==> hs256_signature_valid(token@, secret@),
        r matches Some(c) ==> c@ == token_claims(token@),
{
    let key = jsonwebtoken::DecodingKey::from_secret(secret.as_bytes());
    let data = jsonwebtoken::decode::<serde_json::Value>(token, &key, &jsonwebtoken::Validation::default()).ok()?;
    let c = data.claims;
    Some(TokenClaims {
        sub: c.get("sub").and_then(serde_json::Value::as_i64),
        role: c.get("role").and_then(serde_json::Value::as_str).map(str::to_string),
        exp: c.get("exp").and_then(serde_json::Value::as_u64),
        iat: c.get("iat").and_then(serde_json::Value::as_u64),
    })
}

pub open spec fn invalid_token_message() -> Seq<char> {
    "invalid token"@
}

/// What the claims of an accepted token answer: the subject, where all
/// four claims are present and the two times fit a `usize`; else
/// `invalid token`.
pub open spec fn subject_spec(c: (Option<i64>, Option<Seq<char>>, Option<u64>, Option<u64>)) -> Result<
    i64,
    (ErrorKind, Seq<char>),
> {
    match c {
        (Some(sub), Some(_), Some(exp), Some(iat)) => if exp <= usize::MAX && iat <= usize::MAX {
            Ok(sub)
        } else {
            Err((ErrorKind::Unauthorized, invalid_token_message()))
        },
        _ => Err((ErrorKind::Unauthorized, invalid_token_message())),
    }
}

pub open spec fn subject_view(r: Result<i64, AppError>) -> Result<i64, (ErrorKind, Seq<char>)> {
    match r {
        Ok(s) => Ok(s),
        Err(e) => Err(e@),
    }
}

/// The user that the claims of an accepted token name: `sub`, where
/// `sub`, `role`, `exp` and `iat` are all present and the times fit a
/// `usize`; else `invalid token`.
pub fn subject_from_claims(c: &TokenClaims) -> (r: Result<i64, AppError>)
    ensures
        subject_view(r) == subject_spec(c@),
{
    match (c.sub, &c.role, c.exp, c.iat) {
        (Some(sub), Some(_), Some(exp), Some(iat)) => {
            if exp <= usize::MAX as u64 && iat <= usize::MAX as u64 {
                Ok(sub)
            } else {
                Err(AppError::Unauthorized(owned("invalid token")))
            }
        },
        _ => Err(AppError::Unauthorized(owned("invalid token"))),
    }
}

/// The user that a bearer token names: where `jsonwebtoken` accepts the
/// token for `secret` (signature and expiry), the subject that its claims
/// give (`subject_from_claims`); every refusal is `invalid token`, and a
/// token without a valid signature for `secret` is always refused. Whether
/// a token is accepted depends on the clock, so success is not promised.
pub fn bearer_subject(token: &str, secret: &str) -> (r: Result<i64, AppError>)
    ensures
        r matches Err(e) ==> e@ == (ErrorKind::Unauthorized, invalid_token_message()),
        r matches Ok(s) ==> subject_spec(token_claims(token@)) == Ok::<i64, (ErrorKind, Seq<char>)>(s),
        r is Ok ==> hs256_signature_valid(token@, secret@),
{
    match jwt_decode_claims(token, secret) {
        Some(c) => subject_from_claims(&c),
        None => Err(AppError::Unauthorized(owned("invalid token"))),
    }
}

/// The claims as a token's payload carries them.
pub open spec fn claims_view(c: Claims) -> (Option<i64>, Option<Seq<char>>, Option<u64>, Option<u64>) {
    (Some(c.sub), Some(c.role@), Some(c.exp as u64), Some(c.iat as u64))
}

/// Signs `claims` with `jsonwebtoken::encode`, under `Header::default()`
/// (HS256) and the HMAC key made of the UTF-8 bytes of `secret`, the claims
/// being written as a JSON object with the members `sub`, `role`, `exp`
/// and `iat`. With an HMAC key, writing and signing cannot fail. The
/// contract claims that the token's payload carries these claims
/// (`token_claims`) and that its HS256 signature is valid for `secret`.
#[verifier::external_body]
fn jwt_encode(claims: &Claims, secret: &str) -> (r: Result<String, String>)
    ensures
        r is Ok,
        r matches Ok(t) ==> token_claims(t@) == claims_view(*claims),
        r matches Ok(t) ==> hs256_signature_valid(t@, secret@),
{
    let mut m = serde_json::Map::new();
    m.insert("sub".to_string(), serde_json::Value::from(claims.sub));
    m.insert("role".to_string(), serde_json::Value::from(claims.role.as_str()));
    m.insert("exp".to_string(), serde_json::Value::from(claims.exp));
    m.insert("iat".to_string(), serde_json::Value::from(claims.iat));
    let key = jsonwebtoken::EncodingKey::from_secret(secret.as_bytes());
    match jsonwebtoken::encode(&jsonwebtoken::Header::default(), &serde_json::Value::Object(m), &key) {
        Ok(token) => Ok(token),
        Err(err) => Err(err.to_string()),
    }
}

/// Issues the token of a login for `user` at `issued_at` (seconds since
/// the Unix epoch), signed with `secret`: its payload carries the user's
/// id and stored role and the issue and expiry times (a week later), its
/// signature is valid for `secret`, and its claims name the user.
pub fn issue_jwt(user: &UserRecord, secret: &str, issued_at: u64) -> (r: Result<String, AppError>)
    requires
        issued_at + TOKEN_TTL_SECS <= u64::MAX,
    ensures
        r matches Ok(t) && token_claims(t@) == (
            Some(user.id),
            Some(user.role@),
            Some(((issued_at + TOKEN_TTL_SECS) as usize) as u64),
            Some((issued_at as usize) as u64),
        ) && hs256_signature_valid(t@, secret@) && subject_spec(token_claims(t@)) == Ok::<
            i64,
            (ErrorKind, Seq<char>),
        >(user.id),
{
    let claims = claims_for(user, issued_at);
    match jwt_encode(&claims, secret) {
        Ok(t) => Ok(t),
        Err(m) => Err(AppError::internal(m)),
    }
}

/// A token issued at login names the user it was issued for: where the
/// token carries the claims that `issue_jwt` gives it, any subject that
/// the bearer check reads from it (`bearer_subject`) is that user's id.
pub proof fn lemma_issued_token_names_user(token: Seq<char>, user: UserRecord, issued_at: u64, subject: i64)
    requires
        issued_at + TOKEN_TTL_SECS <= u64::MAX,
        token_claims(token) == (
            Some(user.id),
            Some(user.role@),
            Some(((issued_at + TOKEN_TTL_SECS) as usize) as u64),
            Some((issued_at as usize) as u64),
        ),
        subject_spec(token_claims(token)) == Ok::<i64, (ErrorKind, Seq<char>)>(subject),
    ensures
        subject == user.id,
{
}

/// Requires that the request was authenticated.
pub fn require_user(authenticated: Option<AuthenticatedUser>) -> (r: Result<AuthenticatedUser, AppError>)
    ensures
        auth_view(r) == match authenticated {
            Some(u) => Ok((u.id, u.role)),
            None => Err((ErrorKind::Unauthorized, "missing authorization"@)),
        },
{
    match authenticated {
        Some(u) => Ok(u),
        None => Err(AppError::Unauthorized(owned("missing authorization"))),
    }
}

/// Requires that the authenticated user is an administrator.
pub fn require_admin(user: AuthenticatedUser) -> (r: Result<AuthenticatedUser, AppError>)
    ensures
        auth_view(r) == if user.role == UserRole::Admin {
            Ok((user.id, user.role))
        } else {
            Err((ErrorKind::Forbidden, "admin access required"@))
        },
{
    if user.is_admin() {
        Ok(user)
    } else {
        Err(AppError::Forbidden(owned("admin access required")))
    }
}

} // verus!
