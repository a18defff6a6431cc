//! The records that the build server stores and the messages it exchanges.
use vstd::prelude::*;

use crate::text::{
    all_ascii, ascii_lowercase, chars_eq, chars_of, decimal, extend_chars, is_white,
    lemma_ascii_lowercase, lemma_remove_class_ascii, lemma_trim_class_ascii,
    lemma_trim_class_unchanged, lowercase_vec, push_decimal, push_signed_decimal, remove_class,
    remove_class_vec, signed_decimal, string_of, trim, trim_vec, unicode_lowercase, CharClass,
};

verus! {

/// The JSON value of a build payload, carried as it is.
#[verifier::external_type_specification]
#[verifier::external_body]
pub struct ExJsonValue(serde_json::Value);

/// The role of a user.
#[derive(Debug, Clone, Copy, PartialEq, Eq)]
pub enum UserRole {
    Admin,
    User,
}

/// The name under which a role is stored.
pub open spec fn role_name(role: UserRole) -> Seq<char> {
    match role {
        UserRole::Admin => "admin"@,
        UserRole::User => "user"@,
    }
}

/// The role that a stored name denotes.
pub open spec fn role_from_name(value: Seq<char>) -> Option<UserRole> {
    if value == "admin"@ {
        Some(UserRole::Admin)
    } else if value == "user"@ {
        Some(UserRole::User)
    } else {
        None
    }
}

impl UserRole {
    /// The name under which the role is stored.
    pub fn as_str(self) -> (r: &'static str)
        ensures
            r@ == role_name(self),
    {
        match self {
            UserRole::Admin => "admin",
            UserRole::User => "user",
        }
    }

    /// The role that a stored name denotes, if any.
    pub fn from_db(value: &str) -> (r: Option<UserRole>)
        ensures
            r == role_from_name(value@),
    {
        let v = chars_of(value);
        if chars_eq(&v, &chars_of("admin")) {
            Some(UserRole::Admin)
        } else if chars_eq(&v, &chars_of("user")) {
            Some(UserRole::User)
        } else {
            None
        }
    }
}

/// Reading back the stored name of a role gives the role, and a stored
/// name that denotes a role is that role's name: the two conversions are
/// inverse to each other.
pub proof fn lemma_role_round_trip(role: UserRole, name: Seq<char>)
    ensures
        role_from_name(role_name(role)) == Some(role),
        role_from_name(name) matches Some(r) ==> role_name(r) == name,
{
    reveal_strlit("admin");
    reveal_strlit("user");
    assert("admin"@[0] != "user"@[0]);
}

/// A stored user.
#[derive(Debug, Clone)]
pub struct UserRecord {
    pub id: i64,
    pub email: String,
    pub password_hash: String,
    pub role: String,
    pub is_active: i64,
    pub created_at: String,
    pub updated_at: String,
}

impl UserRecord {
    /// A copy of the record.
    pub fn duplicate(&self) -> (r: UserRecord)
        ensures
            r == *self,
    {
        UserRecord {
            id: self.id,
            email: self.email.clone(),
            password_hash: self.password_hash.clone(),
            role: self.role.clone(),
            is_active: self.is_active,
            created_at: self.created_at.clone(),
            updated_at: self.updated_at.clone(),
        }
    }
}

/// A stored build source.
#[derive(Debug, Clone)]
pub struct SourceRecord {
    pub id: i64,
    pub key: String,
    pub label: String,
    pub is_active: i64,
    pub created_at: String,
    pub updated_at: String,
}

impl SourceRecord {
    /// A copy of the record.
    pub fn duplicate(&self) -> (r: SourceRecord)
        ensures
            r == *self,
    {
        SourceRecord {
            id: self.id,
            key: self.key.clone(),
            label: self.label.clone(),
            is_active: self.is_active,
            created_at: self.created_at.clone(),
            updated_at: self.updated_at.clone(),
        }
    }
}

/// A stored build of a champion, with the key of its source.
#[derive(Debug, Clone)]
pub struct ChampionDataRecord {
    pub id: i64,
    pub source_id: i64,
    pub source_key: String,
    pub mode: String,
    pub version: String,
    pub champion_id: i64,
    pub champion_alias: String,
    pub payload: String,
    pub created_at: String,
    pub updated_at: String,
}

/// The answer of the health check.
#[derive(Debug)]
pub struct HealthResponse {
    pub status: &'static str,
}

/// A login attempt.
#[derive(Debug)]
pub struct LoginRequest {
    pub email: String,
    pub password: String,
}

/// A user as the API shows it.
#[derive(Debug, Clone)]
pub struct PublicUser {
    pub id: i64,
    pub email: String,
    pub role: UserRole,
    pub is_active: bool,
    pub created_at: String,
    pub updated_at: String,
}

/// The answer to a successful login.
#[derive(Debug)]
pub struct LoginResponse {
    pub token: String,
    pub user: PublicUser,
}

/// What a request to create a user holds.
#[derive(Debug)]
pub struct CreateUserRequest {
    pub email: String,
    pub password: String,
    pub role: UserRole,
    pub is_active: Option<bool>,
}

/// What a request to change a user holds.
#[derive(Debug)]
pub struct UpdateUserRequest {
    pub password: Option<String>,
    pub role: Option<UserRole>,
    pub is_active: Option<bool>,
}

/// A build source as the API shows it.
#[derive(Debug, Clone)]
pub struct PublicSource {
    pub id: i64,
    pub label: String,
    pub value: String,
    pub is_active: bool,
    pub created_at: String,
    pub updated_at: String,
}

/// What a request to create a source holds.
#[derive(Debug)]
pub struct CreateSourceRequest {
    pub key: String,
    pub label: String,
    pub is_active: Option<bool>,
}

/// What a request to change a source holds.
#[derive(Debug)]
pub struct UpdateSourceRequest {
    pub key: Option<String>,
    pub label: Option<String>,
    pub is_active: Option<bool>,
}

/// The game mode asked for in a query.
#[derive(Debug)]
pub struct ModeQuery {
    pub mode: Option<String>,
}

/// What a request to store a champion's builds holds.
#[derive(Debug)]
pub struct UpsertChampionDataRequest {
    pub source_id: Option<i64>,
    pub source_key: Option<String>,
    pub champion_id: i64,
    pub champion_alias: String,
    pub mode: Option<String>,
    pub version: String,
    pub content: serde_json::Value,
}

/// Several champions' builds to store.
#[derive(Debug)]
pub struct BatchUpsertChampionDataRequest {
    pub items: Vec<UpsertChampionDataRequest>,
}

/// A champion's stored builds as the API shows them.
#[derive(Debug)]
pub struct ChampionDataResponse {
    pub id: i64,
    pub source_id: i64,
    pub source: String,
    pub mode: String,
    pub version: String,
    pub champion_alias: String,
    pub champion_id: String,
    pub content: serde_json::Value,
    pub created_at: String,
    pub updated_at: String,
}

/// The stored builds of several champions.
#[derive(Debug)]
pub struct BatchUpsertChampionDataResponse {
    pub items: Vec<ChampionDataResponse>,
}

/// The message with which `serde_json` refuses to read `text` as JSON, or
/// `None` where it reads it.
pub uninterp spec fn json_parse_error(text: Seq<char>) -> Option<Seq<char>>;

/// Reads `text` as a JSON value with `serde_json::from_str`. The contract
/// names whether that fails, and with which message; the value read is
/// not described.
#[verifier::external_body]
pub(crate) fn parse_json(text: &str) -> (r: Result<serde_json::Value, String>)
    ensures
        match r {
            Ok(_) => json_parse_error(text@) is None,
            Err(m) => json_parse_error(text@) == Some(m@),
        },
{
    match serde_json::from_str::<serde_json::Value>(text) {
        Ok(v) => Ok(v),
        Err(err) => Err(err.to_string()),
    }
}

/// The message for a role that the API does not know.
pub open spec fn unsupported_role_message(role: Seq<char>) -> Seq<char> {
    "unsupported role "@ + role
}

impl PublicUser {
    /// Shows a stored user; a stored role that is neither `admin` nor
    /// `user` is refused.
    pub fn try_from(value: UserRecord) -> (r: Result<PublicUser, String>)
        ensures
            match role_from_name(value.role@) {
                Some(role) => r matches Ok(u) && u.id == value.id && u.email == value.email
                    && u.role == role && u.is_active == (value.is_active != 0) && u.created_at
                    == value.created_at && u.updated_at == value.updated_at,
                None => r matches Err(m) && m@ == unsupported_role_message(value.role@),
            },
    {
        match UserRole::from_db(value.role.as_str()) {
            Some(role) => Ok(
                PublicUser {
                    id: value.id,
                    email: value.email,
                    role,
                    is_active: value.is_active != 0,
                    created_at: value.created_at,
                    updated_at: value.updated_at,
                },
            ),
            None => {
                let mut m = chars_of("unsupported role ");
                extend_chars(&mut m, &chars_of(value.role.as_str()));
                Err(string_of(&m))
            },
        }
    }
}

impl From<SourceRecord> for PublicSource {
    fn from(value: SourceRecord) -> (r: PublicSource) {
        PublicSource {
            id: value.id,
            label: value.label,
            value: value.key,
            is_active: value.is_active != 0,
            created_at: value.created_at,
            updated_at: value.updated_at,
        }
    }
}

impl vstd::std_specs::convert::FromSpecImpl<SourceRecord> for PublicSource {
    open spec fn obeys_from_spec() -> bool {
        true
    }

    open spec fn from_spec(value: SourceRecord) -> PublicSource {
        PublicSource {
            id: value.id,
            label: value.label,
            value: value.key,
            is_active: value.is_active != 0,
            created_at: value.created_at,
            updated_at: value.updated_at,
        }
    }
}

/// The message for a stored payload that is not JSON.
pub open spec fn invalid_payload_message(err: Seq<char>) -> Seq<char> {
    "invalid stored payload: "@ + err
}

impl ChampionDataResponse {
    /// Shows stored builds; a stored payload that is not JSON is refused.
    pub fn try_from_record(value: ChampionDataRecord) -> (r: Result<ChampionDataResponse, String>)
        ensures
            match json_parse_error(value.payload@) {
                Some(e) => r matches Err(m) && m@ == invalid_payload_message(e),
                None => r matches Ok(d) && d.id == value.id && d.source_id == value.source_id
                    && d.source == value.source_key && d.mode == value.mode && d.version
                    == value.version && d.champion_alias == value.champion_alias
                    && d.champion_id@ == signed_decimal(value.champion_id as int) && d.created_at
                    == value.created_at && d.updated_at == value.updated_at,
            },
    {
        match parse_json(value.payload.as_str()) {
            Ok(content) => {
                let mut id = Vec::new();
                push_signed_decimal(&mut id, value.champion_id);
                Ok(
                    ChampionDataResponse {
                        id: value.id,
                        source_id: value.source_id,
                        source: value.source_key,
                        mode: value.mode,
                        version: value.version,
                        champion_alias: value.champion_alias,
                        champion_id: string_of(&id),
                        content,
                        created_at: value.created_at,
                        updated_at: value.updated_at,
                    },
                )
            },
            Err(e) => {
                let mut m = chars_of("invalid stored payload: ");
                extend_chars(&mut m, &chars_of(e.as_str()));
                Err(string_of(&m))
            },
        }
    }
}

/// An e-mail address as stored: trimmed and lower-cased.
pub open spec fn normalize_email_spec(value: Seq<char>) -> Seq<char> {
    unicode_lowercase(trim(value))
}

/// Trims and lower-cases an e-mail address.
pub fn normalize_email(value: &str) -> (r: String)
    ensures
        r@ == normalize_email_spec(value@),
        all_ascii(value@) ==> r@ == ascii_lowercase(trim(value@)),
{
    let t = trim_vec(&chars_of(value), CharClass::Whitespace);
    proof {
        if all_ascii(value@) {
            lemma_trim_class_ascii(value@, CharClass::Whitespace);
        }
    }
    string_of(&lowercase_vec(&t))
}

/// Trims and lower-cases the key of a build source.
pub fn normalize_source_key(value: &str) -> (r: String)
    ensures
        r@ == unicode_lowercase(trim(value@)),
        all_ascii(value@) ==> r@ == ascii_lowercase(trim(value@)),
{
    let t = trim_vec(&chars_of(value), CharClass::Whitespace);
    proof {
        if all_ascii(value@) {
            lemma_trim_class_ascii(value@, CharClass::Whitespace);
        }
    }
    string_of(&lowercase_vec(&t))
}

/// For ASCII text, a normalized e-mail address (or source key) is its own
/// normal form: it is ASCII, and trimming and lower-casing it again changes
/// nothing.
pub proof fn lemma_email_normal_form(value: Seq<char>)
    requires
        all_ascii(value),
    ensures
        all_ascii(ascii_lowercase(trim(value))),
        ascii_lowercase(trim(ascii_lowercase(trim(value)))) == ascii_lowercase(trim(value)),
{
    let t = trim(value);
    lemma_trim_class_ascii(value, CharClass::Whitespace);
    lemma_ascii_lowercase(t);
    let n = ascii_lowercase(t);
    if n.len() > 0 {
        assert(is_white(n[0]) <==> is_white(t[0]));
        assert(is_white(n[n.len() - 1]) <==> is_white(t[t.len() - 1]));
    }
    lemma_trim_class_unchanged(n, CharClass::Whitespace);
}

/// A champion alias as stored: without white space, lower-cased.
pub open spec fn normalize_alias_spec(value: Seq<char>) -> Seq<char> {
    unicode_lowercase(remove_class(value, CharClass::Whitespace))
}

/// Drops the white space of a champion alias and lower-cases it.
pub fn normalize_alias(value: &str) -> (r: String)
    ensures
        r@ == normalize_alias_spec(value@),
        all_ascii(value@) ==> r@ == ascii_lowercase(remove_class(value@, CharClass::Whitespace)),
{
    let t = remove_class_vec(&chars_of(value), CharClass::Whitespace);
    proof {
        lemma_remove_class_ascii(value@, CharClass::Whitespace);
    }
    string_of(&lowercase_vec(&t))
}

/// For ASCII text, a normalized champion alias holds no white space and is
/// its own normal form: dropping white space and lower-casing it again
/// changes nothing.
pub proof fn lemma_alias_normal_form(value: Seq<char>)
    requires
        all_ascii(value),
    ensures
        all_ascii(ascii_lowercase(remove_class(value, CharClass::Whitespace))),
        forall|i: int|
            0 <= i < ascii_lowercase(remove_class(value, CharClass::Whitespace)).len() ==> !is_white(
                #[trigger] ascii_lowercase(remove_class(value, CharClass::Whitespace))[i],
            ),
        ascii_lowercase(
            remove_class(ascii_lowercase(remove_class(value, CharClass::Whitespace)), CharClass::Whitespace),
        ) == ascii_lowercase(remove_class(value, CharClass::Whitespace)),
{
    let t = remove_class(value, CharClass::Whitespace);
    lemma_remove_class_ascii(value, CharClass::Whitespace);
    lemma_ascii_lowercase(t);
    let n = ascii_lowercase(t);
    assert forall|i: int| 0 <= i < n.len() implies !is_white(#[trigger] n[i]) by {
        assert(!crate::text::in_class(CharClass::Whitespace, t[i]));
    }
    lemma_remove_class_ascii(n, CharClass::Whitespace);
}

/// A game mode as stored: the trimmed mode lower-cased, `ranked` where none
/// is given or it is blank.
pub open spec fn normalize_mode_spec(value: Option<Seq<char>>) -> Seq<char> {
    match value {
        Some(v) => if trim(v).len() > 0 {
            unicode_lowercase(trim(v))
        } else {
            unicode_lowercase("ranked"@)
        },
        None => unicode_lowercase("ranked"@),
    }
}

pub open spec fn opt_str_view(o: Option<&str>) -> Option<Seq<char>> {
    match o {
        Some(s) => Some(s@),
        None => None,
    }
}

/// Normalizes a game mode; `ranked` by default.
pub fn normalize_mode(value: Option<&str>) -> (r: String)
    ensures
        r@ == normalize_mode_spec(opt_str_view(value)),
        match value {
            Some(v) => if trim(v@).len() > 0 {
                all_ascii(v@) ==> r@ == ascii_lowercase(trim(v@))
            } else {
                r@ == "ranked"@
            },
            None => r@ == "ranked"@,
        },
{
    proof {
        reveal_strlit("ranked");
        assert(ascii_lowercase("ranked"@) =~= "ranked"@);
        if let Some(v) = value {
            if all_ascii(v@) {
                lemma_trim_class_ascii(v@, CharClass::Whitespace);
            }
        }
    }
    let mode = match value {
        Some(v) => {
            let t = trim_vec(&chars_of(v), CharClass::Whitespace);
            if t.len() > 0 {
                t
            } else {
                chars_of("ranked")
            }
        },
        None => chars_of("ranked"),
    };
    string_of(&lowercase_vec(&mode))
}

/// Reads the clock: the whole seconds since the Unix epoch, by
/// `UNIX_EPOCH.elapsed()`, and 0 where the clock is set before the epoch.
/// Nothing is claimed of the value.
#[verifier::external_body]
fn seconds_since_unix_epoch() -> (r: u64) {
    match std::time::UNIX_EPOCH.elapsed() {
        Ok(d) => d.as_secs(),
        Err(_) => 0,
    }
}

/// A time stamp as stored: the decimal seconds since the Unix epoch.
pub fn format_timestamp(unix_seconds: u64) -> (r: String)
    ensures
        r@ == decimal(unix_seconds as nat),
{
    let mut v = Vec::new();
    push_decimal(&mut v, unix_seconds);
    string_of(&v)
}

/// The current time stamp: the decimal seconds since the Unix epoch.
pub fn now_rfc3339() -> (r: String)
    ensures
        exists|secs: u64| r@ == decimal(secs as nat),
{
    format_timestamp(seconds_since_unix_epoch())
}

/// A flag as stored: 1 or 0.
pub fn db_bool(value: bool) -> (r: i64)
    ensures
        r == (if value {
            1i64
        } else {
            0i64
        }),
{
    if value {
        1
    } else {
        0
    }
}

} // verus!
