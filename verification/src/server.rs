//! The build server's rules: what a request must hold, what each write
//! stores, which source a request names, and who may do what.
use vstd::prelude::*;

use crate::auth::{hash_password, password_too_short, verify_password, verify_password_spec, AuthenticatedUser};
use crate::error::{owned, AppError, ErrorKind};
use crate::models::{
    db_bool, normalize_alias, normalize_alias_spec, normalize_email, normalize_email_spec,
    normalize_mode, normalize_mode_spec, normalize_source_key, role_from_name, role_name,
    unsupported_role_message, CreateSourceRequest, CreateUserRequest, LoginRequest, PublicSource,
    PublicUser, SourceRecord, UpdateSourceRequest, UpdateUserRequest, UpsertChampionDataRequest,
    UserRecord, UserRole,
};
use crate::text::{
    chars_eq, chars_of, contains, contains_vec, extend_chars, starts_with, string_of,
    strip_prefix_vec, trim, trim_vec, unicode_lowercase, CharClass,
};

verus! {

pub open spec fn opt_str_view(o: Option<&str>) -> Option<Seq<char>> {
    match o {
        Some(s) => Some(s@),
        None => None,
    }
}

pub open spec fn opt_string_view(o: Option<String>) -> Option<Seq<char>> {
    match o {
        Some(s) => Some(s@),
        None => None,
    }
}

/// The SQLite path that a database URL names: without `sqlite://`.
pub open spec fn sqlite_path_spec(url: Seq<char>) -> Seq<char> {
    if starts_with(url, "sqlite://"@) {
        url.skip(9)
    } else {
        url
    }
}

/// The SQLite path of a database URL.
pub fn sqlite_path_from_url(database_url: &str) -> (r: String)
    ensures
        r@ == sqlite_path_spec(database_url@),
{
    proof {
        reveal_strlit("sqlite://");
    }
    let v = chars_of(database_url);
    match strip_prefix_vec(&v, &chars_of("sqlite://")) {
        Some(p) => string_of(&p),
        None => string_of(&v),
    }
}

/// Whether the database file needs its directory made: not for an
/// in-memory database nor for a `file:` URI.
pub fn sqlite_path_needs_dir(path: &str) -> (r: bool)
    ensures
        r == !(path@ == ":memory:"@ || starts_with(path@, "file:"@)),
{
    let v = chars_of(path);
    let memory = chars_eq(&v, &chars_of(":memory:"));
    let uri = crate::text::occurs_at_vec(&v, &chars_of("file:"), 0);
    !(memory || uri)
}

/// The address to open the server locally: a wildcard host becomes
/// `127.0.0.1`.
pub open spec fn local_access_url_spec(addr: Seq<char>) -> Seq<char> {
    if starts_with(addr, "0.0.0.0:"@) {
        "http://127.0.0.1:"@ + addr.skip(8)
    } else if starts_with(addr, "[::]:"@) {
        "http://127.0.0.1:"@ + addr.skip(5)
    } else {
        "http://"@ + addr
    }
}

/// The URL at which the listening address can be opened locally.
pub fn local_access_url(addr: &str) -> (r: String)
    ensures
        r@ == local_access_url_spec(addr@),
{
    proof {
        reveal_strlit("0.0.0.0:");
        reveal_strlit("[::]:");
    }
    let v = chars_of(addr);
    if let Some(port) = strip_prefix_vec(&v, &chars_of("0.0.0.0:")) {
        let mut out = chars_of("http://127.0.0.1:");
        extend_chars(&mut out, &port);
        return string_of(&out);
    }
    if let Some(port) = strip_prefix_vec(&v, &chars_of("[::]:")) {
        let mut out = chars_of("http://127.0.0.1:");
        extend_chars(&mut out, &port);
        return string_of(&out);
    }
    let mut out = chars_of("http://");
    extend_chars(&mut out, &v);
    string_of(&out)
}

pub open spec fn unit_view(r: Result<(), AppError>) -> Result<(), (ErrorKind, Seq<char>)> {
    match r {
        Ok(_) => Ok(()),
        Err(e) => Err(e@),
    }
}

/// What the check of a champion request answers.
pub open spec fn validate_champion_spec(
    version: Seq<char>,
    champion_id: i64,
    champion_alias: Seq<char>,
) -> Result<(), (ErrorKind, Seq<char>)> {
    if trim(version).len() == 0 {
        Err((ErrorKind::BadRequest, "version is required"@))
    } else if champion_id <= 0 {
        Err((ErrorKind::BadRequest, "champion_id must be positive"@))
    } else if normalize_alias_spec(champion_alias).len() == 0 {
        Err((ErrorKind::BadRequest, "champion_alias is required"@))
    } else {
        Ok(())
    }
}

/// Refuses a champion request without version, with a champion id that is
/// not positive, or with an alias that is only white space.
pub fn validate_champion_request(req: &UpsertChampionDataRequest) -> (r: Result<(), AppError>)
    ensures
        unit_view(r) == validate_champion_spec(req.version@, req.champion_id, req.champion_alias@),
{
    let version = trim_vec(&chars_of(req.version.as_str()), CharClass::Whitespace);
    if version.len() == 0 {
        return Err(AppError::BadRequest(owned("version is required")));
    }
    if req.champion_id <= 0 {
        return Err(AppError::BadRequest(owned("champion_id must be positive")));
    }
    let alias = normalize_alias(req.champion_alias.as_str());
    if alias.as_str().unicode_len() == 0 {
        return Err(AppError::BadRequest(owned("champion_alias is required")));
    }
    Ok(())
}

/// Writes a JSON value as text with `serde_json::to_string`. Writing a
/// `serde_json::Value` into a string cannot fail (its object keys are
/// strings), so the contract claims success; the value is opaque here, so
/// nothing is claimed of the text.
#[verifier::external_body]
fn json_to_string(value: &serde_json::Value) -> (r: Result<String, String>)
    ensures
        r is Ok,
{
    match serde_json::to_string(value) {
        Ok(s) => Ok(s),
        Err(err) => Err(err.to_string()),
    }
}

/// The fields of a champion's builds as they are stored.
#[derive(Debug)]
pub struct ChampionFields {
    pub alias: String,
    pub mode: String,
    pub payload: String,
}

/// The stored alias and mode of a champion request, and its content as
/// JSON text; this always succeeds.
pub fn champion_fields(req: &UpsertChampionDataRequest) -> (r: Result<ChampionFields, AppError>)
    ensures
        r matches Ok(f) && f.alias@ == normalize_alias_spec(req.champion_alias@) && f.mode@
            == normalize_mode_spec(opt_string_view(req.mode)),
{
    let alias = normalize_alias(req.champion_alias.as_str());
    let mode = match &req.mode {
        Some(m) => normalize_mode(Some(m.as_str())),
        None => normalize_mode(None),
    };
    let payload = match json_to_string(&req.content) {
        Ok(p) => p,
        Err(m) => return Err(AppError::internal(m)),
    };
    Ok(ChampionFields { alias, mode, payload })
}

/// How the source of a request is to be found.
#[derive(Debug, Clone)]
pub enum SourceLookup {
    /// By id; where a key was given too, the found source must have it.
    ById(i64, Option<String>),
    /// By normalized key.
    ByKey(String),
}

/// How a request names its source: by id where it gives one (checking the
/// key if it gives that too), else by normalized key.
pub open spec fn source_lookup_spec(source_id: Option<i64>, source_key: Option<Seq<char>>) -> Result<
    (Option<i64>, Option<Seq<char>>),
    (ErrorKind, Seq<char>),
> {
    match (source_id, source_key) {
        (Some(id), Some(key)) => Ok((Some(id), Some(unicode_lowercase(trim(key))))),
        (Some(id), None) => Ok((Some(id), None)),
        (None, Some(key)) => Ok((None, Some(unicode_lowercase(trim(key))))),
        (None, None) => Err((ErrorKind::BadRequest, "source_id or source_key is required"@)),
    }
}

pub open spec fn lookup_view(r: Result<SourceLookup, AppError>) -> Result<
    (Option<i64>, Option<Seq<char>>),
    (ErrorKind, Seq<char>),
> {
    match r {
        Ok(SourceLookup::ById(id, key)) => Ok((Some(id), opt_string_view(key))),
        Ok(SourceLookup::ByKey(key)) => Ok((None, Some(key@))),
        Err(e) => Err(e@),
    }
}

/// Decides how to find the source that a request names.
pub fn source_lookup(source_id: Option<i64>, source_key: Option<&str>) -> (r: Result<
    SourceLookup,
    AppError,
>)
    ensures
        lookup_view(r) == source_lookup_spec(source_id, opt_str_view(source_key)),
{
    match (source_id, source_key) {
        (Some(id), Some(key)) => Ok(SourceLookup::ById(id, Some(normalize_source_key(key)))),
        (Some(id), None) => Ok(SourceLookup::ById(id, None)),
        (None, Some(key)) => Ok(SourceLookup::ByKey(normalize_source_key(key))),
        (None, None) => Err(AppError::BadRequest(owned("source_id or source_key is required"))),
    }
}

/// What the found source answers: a missing source is not found, and a
/// source whose key differs from the one required is refused.
pub open spec fn check_found_source_spec(found: Option<SourceRecord>, expected_key: Option<Seq<char>>) -> Result<
    i64,
    (ErrorKind, Seq<char>),
> {
    match found {
        None => Err((ErrorKind::NotFound, "source not found"@)),
        Some(s) => match expected_key {
            Some(k) => if s.key@ != k {
                Err(
                    (ErrorKind::BadRequest, "source_id and source_key refer to different sources"@),
                )
            } else {
                Ok(s.id)
            },
            None => Ok(s.id),
        },
    }
}

/// Checks the source found for a request.
pub fn check_found_source(found: Option<SourceRecord>, expected_key: Option<String>) -> (r: Result<
    SourceRecord,
    AppError,
>)
    ensures
        match r {
            Ok(s) => check_found_source_spec(found, opt_string_view(expected_key)) == Ok::<
                i64,
                (ErrorKind, Seq<char>),
            >(s.id) && found == Some(s),
            Err(e) => check_found_source_spec(found, opt_string_view(expected_key)) == Err::<
                i64,
                (ErrorKind, Seq<char>),
            >(e@),
        },
{
    let s = match found {
        Some(s) => s,
        None => return Err(AppError::NotFound(owned("source not found"))),
    };
    if let Some(k) = &expected_key {
        if !chars_eq(&chars_of(s.key.as_str()), &chars_of(k.as_str())) {
            return Err(
                AppError::BadRequest(owned("source_id and source_key refer to different sources")),
            );
        }
    }
    Ok(s)
}

/// Classifies a database failure: a broken uniqueness constraint is a
/// conflict, anything else an internal error.
pub fn db_err(message: String) -> (r: AppError)
    ensures
        r@ == (if contains(message@, "UNIQUE constraint failed"@) {
            (ErrorKind::Conflict, message@)
        } else {
            (ErrorKind::Internal, message@)
        }),
{
    if contains_vec(&chars_of(message.as_str()), &chars_of("UNIQUE constraint failed")) {
        AppError::Conflict(message)
    } else {
        AppError::Internal(message)
    }
}

/// The row of a new user.
#[derive(Debug)]
pub struct NewUserRow {
    pub email: String,
    pub password_hash: String,
    pub role: String,
    pub is_active: i64,
}

/// Prepares the row of a new user: the e-mail normalized and required,
/// the password hashed (and at least 8 bytes), active unless told
/// otherwise.
pub fn prepare_new_user(req: &CreateUserRequest) -> (r: Result<NewUserRow, AppError>)
    ensures
        normalize_email_spec(req.email@).len() == 0 ==> (r matches Err(e) && e@ == (
            ErrorKind::BadRequest,
            "email is required"@,
        )),
        normalize_email_spec(req.email@).len() > 0 && password_too_short(req.password@)
            ==> (r matches Err(e) && e@ == (
            ErrorKind::BadRequest,
            "password must be at least 8 characters"@,
        )),
        r matches Ok(row) ==> {
            &&& row.email@ == normalize_email_spec(req.email@)
            &&& row.email@.len() > 0
            &&& verify_password_spec(row.password_hash@, req.password@) == Ok::<
                bool,
                (ErrorKind, Seq<char>),
            >(true)
            &&& row.role@ == role_name(req.role)
            &&& row.is_active == (if req.is_active.unwrap_or(true) {
                1i64
            } else {
                0i64
            })
        },
        r matches Err(e) ==> e@.0 == ErrorKind::BadRequest || e@.0 == ErrorKind::Internal,
        (normalize_email_spec(req.email@).len() > 0 && !password_too_short(req.password@)) ==> (r
            matches Err(e) ==> e@.0 == ErrorKind::Internal),
{
    let email = normalize_email(req.email.as_str());
    if email.as_str().unicode_len() == 0 {
        return Err(AppError::BadRequest(owned("email is required")));
    }
    let password_hash = hash_password(req.password.as_str())?;
    let active = match req.is_active {
        Some(b) => b,
        None => true,
    };
    Ok(
        NewUserRow {
            email,
            password_hash,
            role: owned(req.role.as_str()),
            is_active: db_bool(active),
        },
    )
}

/// The changed fields of a user.
#[derive(Debug)]
pub struct UserUpdateRow {
    pub password_hash: String,
    pub role: String,
    pub is_active: i64,
}

/// Merges a change into a stored user: a new password is hashed, the
/// stored role must be known, and what the change leaves out stays.
pub fn prepare_user_update(current: Option<UserRecord>, req: UpdateUserRequest) -> (r: Result<
    UserUpdateRow,
    AppError,
>)
    ensures
        current is None ==> (r matches Err(e) && e@ == (ErrorKind::NotFound, "user not found"@)),
        current matches Some(c) ==> match r {
            Ok(row) => {
                &&& match req.password {
                    Some(p) => verify_password_spec(row.password_hash@, p@) == Ok::<
                        bool,
                        (ErrorKind, Seq<char>),
                    >(true),
                    None => row.password_hash == c.password_hash,
                }
                &&& role_from_name(c.role@) is Some
                &&& row.role@ == role_name(
                    match req.role {
                        Some(role) => role,
                        None => role_from_name(c.role@)->Some_0,
                    },
                )
                &&& row.is_active == (if req.is_active.unwrap_or(c.is_active != 0) {
                    1i64
                } else {
                    0i64
                })
            },
            Err(e) => {
                ||| (req.password matches Some(p) && (password_too_short(p@) || e@.0
                    == ErrorKind::Internal))
                ||| (role_from_name(c.role@) is None && e@ == (
                    ErrorKind::Internal,
                    "invalid stored role"@,
                ))
            },
        },
        current matches Some(c) && role_from_name(c.role@) is None && req.password is None ==> (r
            matches Err(e) && e@ == (ErrorKind::Internal, "invalid stored role"@)),
        req.password matches Some(p) ==> ((current is Some && password_too_short(p@)) ==> (r
            matches Err(e) && e@ == (
            ErrorKind::BadRequest,
            "password must be at least 8 characters"@,
        ))),
        current matches Some(c) ==> ((role_from_name(c.role@) is Some && req.password is None)
            ==> r is Ok),
        current matches Some(c) ==> ((role_from_name(c.role@) is Some && req.password is None
            && req.role is None && req.is_active is None) ==> (r matches Ok(row)
            && row.password_hash == c.password_hash && row.role@ == c.role@ && row.is_active == (
        if c.is_active != 0 {
            1i64
        } else {
            0i64
        }))),
{
    let c = match current {
        Some(c) => c,
        None => return Err(AppError::NotFound(owned("user not found"))),
    };
    let password_hash = match req.password {
        Some(p) => hash_password(p.as_str())?,
        None => c.password_hash,
    };
    let stored_role = match UserRole::from_db(c.role.as_str()) {
        Some(role) => role,
        None => return Err(AppError::internal(owned("invalid stored role"))),
    };
    proof {
        crate::models::lemma_role_round_trip(stored_role, c.role@);
    }
    let role = match req.role {
        Some(role) => role,
        None => stored_role,
    };
    let active = match req.is_active {
        Some(b) => b,
        None => c.is_active != 0,
    };
    Ok(UserUpdateRow { password_hash, role: owned(role.as_str()), is_active: db_bool(active) })
}

/// The row of a source.
#[derive(Debug)]
pub struct SourceRow {
    pub key: String,
    pub label: String,
    pub is_active: i64,
}

pub open spec fn source_row_view(r: Result<SourceRow, AppError>) -> Result<
    (Seq<char>, Seq<char>, i64),
    (ErrorKind, Seq<char>),
> {
    match r {
        Ok(row) => Ok((row.key@, row.label@, row.is_active)),
        Err(e) => Err(e@),
    }
}

/// What the fields of a source come to: key and label are required.
pub open spec fn source_fields_spec(key: Seq<char>, label: Seq<char>, active: bool) -> Result<
    (Seq<char>, Seq<char>, i64),
    (ErrorKind, Seq<char>),
> {
    if key.len() == 0 || label.len() == 0 {
        Err((ErrorKind::BadRequest, "source key and label are required"@))
    } else {
        Ok(
            (
                key,
                label,
                if active {
                    1i64
                } else {
                    0i64
                },
            ),
        )
    }
}

/// Prepares the row of a new source: the key normalized, the label
/// trimmed, both required, active unless told otherwise.
pub fn prepare_new_source(req: &CreateSourceRequest) -> (r: Result<SourceRow, AppError>)
    ensures
        source_row_view(r) == source_fields_spec(
            unicode_lowercase(trim(req.key@)),
            trim(req.label@),
            req.is_active.unwrap_or(true),
        ),
{
    let key = normalize_source_key(req.key.as_str());
    let label = string_of(&trim_vec(&chars_of(req.label.as_str()), CharClass::Whitespace));
    if key.as_str().unicode_len() == 0 || label.as_str().unicode_len() == 0 {
        return Err(AppError::BadRequest(owned("source key and label are required")));
    }
    let active = match req.is_active {
        Some(b) => b,
        None => true,
    };
    Ok(SourceRow { key, label, is_active: db_bool(active) })
}

/// Merges a change into a stored source: a new key is normalized, the
/// label (new or kept) is trimmed, and what the change leaves out stays.
pub fn prepare_source_update(current: Option<SourceRecord>, req: UpdateSourceRequest) -> (r: Result<
    SourceRow,
    AppError,
>)
    ensures
        match current {
            None => source_row_view(r) == Err::<(Seq<char>, Seq<char>, i64), (ErrorKind, Seq<char>)>(
                (ErrorKind::NotFound, "source not found"@),
            ),
            Some(c) => source_row_view(r) == source_fields_spec(
                match req.key {
                    Some(k) => unicode_lowercase(trim(k@)),
                    None => c.key@,
                },
                trim(
                    match req.label {
                        Some(l) => l@,
                        None => c.label@,
                    },
                ),
                req.is_active.unwrap_or(c.is_active != 0),
            ),
        },
        current matches Some(c) ==> ((req.key is None && req.label is None && req.is_active is None
            && c.key@.len() > 0 && trim(c.label@).len() > 0) ==> (r matches Ok(row) && row.key@
            == c.key@ && row.label@ == trim(c.label@) && row.is_active == (if c.is_active != 0 {
            1i64
        } else {
            0i64
        }))),
{
    let c = match current {
        Some(c) => c,
        None => return Err(AppError::NotFound(owned("source not found"))),
    };
    let key = match &req.key {
        Some(k) => normalize_source_key(k.as_str()),
        None => c.key,
    };
    let raw_label = match req.label {
        Some(l) => l,
        None => c.label,
    };
    let label = string_of(&trim_vec(&chars_of(raw_label.as_str()), CharClass::Whitespace));
    if key.as_str().unicode_len() == 0 || label.as_str().unicode_len() == 0 {
        return Err(AppError::BadRequest(owned("source key and label are required")));
    }
    let active = match req.is_active {
        Some(b) => b,
        None => c.is_active != 0,
    };
    Ok(SourceRow { key, label, is_active: db_bool(active) })
}

/// Reads a login request: the normalized e-mail; e-mail and password are
/// required.
pub fn login_email(req: &LoginRequest) -> (r: Result<String, AppError>)
    ensures
        match r {
            Ok(e) => e@ == normalize_email_spec(req.email@) && e@.len() > 0 && req.password@.len()
                > 0,
            Err(e) => e@ == (ErrorKind::BadRequest, "email and password are required"@) && (
            normalize_email_spec(req.email@).len() == 0 || req.password@.len() == 0),
        },
{
    let email = normalize_email(req.email.as_str());
    if email.as_str().unicode_len() == 0 || req.password.as_str().unicode_len() == 0 {
        return Err(AppError::BadRequest(owned("email and password are required")));
    }
    Ok(email)
}

/// What a login answers for the user found by e-mail.
pub open spec fn login_check_spec(user: Option<UserRecord>, password: Seq<char>) -> Result<
    i64,
    (ErrorKind, Seq<char>),
> {
    match user {
        None => Err((ErrorKind::Unauthorized, "invalid credentials"@)),
        Some(u) => if u.is_active == 0 {
            Err((ErrorKind::Unauthorized, "user is inactive"@))
        } else {
            match verify_password_spec(u.password_hash@, password) {
                Err(e) => Err(e),
                Ok(false) => Err((ErrorKind::Unauthorized, "invalid credentials"@)),
                Ok(true) => Ok(u.id),
            }
        },
    }
}

/// Accepts a login: the user exists, is active, and the password matches.
pub fn login_check(user: Option<UserRecord>, password: &str) -> (r: Result<UserRecord, AppError>)
    ensures
        match r {
            Ok(u) => login_check_spec(user, password@) == Ok::<i64, (ErrorKind, Seq<char>)>(u.id)
                && user == Some(u),
            Err(e) => login_check_spec(user, password@) == Err::<i64, (ErrorKind, Seq<char>)>(e@),
        },
{
    let u = match user {
        Some(u) => u,
        None => return Err(AppError::Unauthorized(owned("invalid credentials"))),
    };
    if u.is_active == 0 {
        return Err(AppError::Unauthorized(owned("user is inactive")));
    }
    if !verify_password(u.password_hash.as_str(), password)? {
        return Err(AppError::Unauthorized(owned("invalid credentials")));
    }
    Ok(u)
}

/// Refuses an administrator's request that would deactivate the
/// administrator's own account.
pub fn check_self_deactivation(admin: &AuthenticatedUser, id: i64, req: &UpdateUserRequest) -> (r:
    Result<(), AppError>)
    ensures
        unit_view(r) == if admin.id == id && req.is_active == Some(false) {
            Err((ErrorKind::BadRequest, "admin cannot deactivate the current account"@))
        } else {
            Ok(())
        },
{
    if admin.id == id && req.is_active == Some(false) {
        Err(AppError::BadRequest(owned("admin cannot deactivate the current account")))
    } else {
        Ok(())
    }
}

/// The administrator to set up at start, where both its e-mail and
/// password are configured: the normalized e-mail and the password's hash.
pub fn bootstrap_admin_row(email: Option<&str>, password: Option<&str>) -> (r: Result<
    Option<(String, String)>,
    AppError,
>)
    ensures
        (email is None || password is None) ==> r matches Ok(None),
        r matches Ok(Some((e, h))) ==> (email matches Some(m) && password matches Some(p) && e@
            == normalize_email_spec(m@) && verify_password_spec(h@, p@) == Ok::<
            bool,
            (ErrorKind, Seq<char>),
        >(true)),
        email is Some && password is Some ==> !(r matches Ok(None)),
        email is Some ==> (password matches Some(p) ==> ((password_too_short(p@) ==> (r matches Err(
            e,
        ) && e@ == (ErrorKind::BadRequest, crate::auth::short_password_message()))) && (
        !password_too_short(p@) ==> (r matches Err(e) ==> e@.0 == ErrorKind::Internal)))),
{
    let e = match email {
        Some(e) => e,
        None => return Ok(None),
    };
    let p = match password {
        Some(p) => p,
        None => return Ok(None),
    };
    let email = normalize_email(e);
    let hash = hash_password(p)?;
    Ok(Some((email, hash)))
}

/// Shows the stored users in order; the first one with an unknown role
/// makes the listing an internal error.
pub fn public_users(records: Vec<UserRecord>) -> (r: Result<Vec<PublicUser>, AppError>)
    ensures
        match r {
            Ok(users) => users@.len() == records@.len() && forall|i: int|
                0 <= i < records@.len() ==> role_from_name(#[trigger] records@[i].role@) is Some
                    && users@[i].id == records@[i].id && users@[i].role == role_from_name(
                    records@[i].role@,
                )->Some_0 && users@[i].email == records@[i].email && users@[i].is_active == (
                records@[i].is_active != 0) && users@[i].created_at == records@[i].created_at
                    && users@[i].updated_at == records@[i].updated_at,
            Err(e) => e@.0 == ErrorKind::Internal && exists|i: int|
                0 <= i < records@.len() && role_from_name(#[trigger] records@[i].role@) is None
                    && e@.1 == unsupported_role_message(records@[i].role@) && forall|j: int|
                    0 <= j < i ==> role_from_name(#[trigger] records@[j].role@) is Some,
        },
{
    let mut users: Vec<PublicUser> = Vec::new();
    let mut i: usize = 0;
    while i < records.len()
        invariant
            i <= records.len(),
            users@.len() == i,
            forall|k: int|
                0 <= k < i ==> role_from_name(#[trigger] records@[k].role@) is Some && users@[k].id
                    == records@[k].id && users@[k].role == role_from_name(records@[k].role@)->Some_0
                    && users@[k].email == records@[k].email && users@[k].is_active == (
                records@[k].is_active != 0) && users@[k].created_at == records@[k].created_at
                    && users@[k].updated_at == records@[k].updated_at,
        decreases records.len() - i,
    {
        match PublicUser::try_from(records[i].duplicate()) {
            Ok(u) => users.push(u),
            Err(m) => {
                assert(role_from_name(records@[i as int].role@) is None);
                return Err(AppError::internal(m));
            },
        }
        i = i + 1;
    }
    Ok(users)
}

/// Shows the stored sources in order.
pub fn public_sources(records: Vec<SourceRecord>) -> (r: Vec<PublicSource>)
    ensures
        r@.len() == records@.len(),
        forall|i: int|
            0 <= i < records@.len() ==> r@[i].id == records@[i].id && r@[i].value
                == records@[i].key && r@[i].label == records@[i].label && r@[i].is_active == (
            records@[i].is_active != 0) && r@[i].created_at == records@[i].created_at
                && r@[i].updated_at == records@[i].updated_at,
{
    let mut out: Vec<PublicSource> = Vec::new();
    let mut i: usize = 0;
    while i < records.len()
        invariant
            i <= records.len(),
            out@.len() == i,
            forall|k: int|
                0 <= k < i ==> out@[k].id == records@[k].id && out@[k].value == records@[k].key
                    && out@[k].label == records@[k].label && out@[k].is_active == (
                records@[k].is_active != 0) && out@[k].created_at == records@[k].created_at
                    && out@[k].updated_at == records@[k].updated_at,
        decreases records.len() - i,
    {
        let rec = records[i].duplicate();
        out.push(PublicSource::from(rec));
        i = i + 1;
    }
    out
}

} // verus!
