//! The build server's configuration, from the environment or `.env` files.
use vstd::prelude::*;

use crate::envfile::{first_value, lemma_env_line_lookup, lookup_env, lookup_env_value, opt_views};
use crate::error::owned;
use crate::text::{
    chars_of, is_white, lemma_trim_class_unchanged, string_of, trim, trim_class, trim_vec,
    CharClass,
};

pub use crate::envfile::collect_env_candidates;

verus! {

/// Where the server listens, its database, the secret that signs tokens,
/// and the administrator to set up at start.
#[derive(Debug, Clone)]
pub struct Config {
    pub addr: String,
    pub database_url: String,
    pub jwt_secret: String,
    pub bootstrap_admin_email: Option<String>,
    pub bootstrap_admin_password: Option<String>,
}

pub open spec fn default_addr() -> Seq<char> {
    "0.0.0.0:3030"@
}

pub open spec fn default_database_url() -> Seq<char> {
    "sqlite://data/champr.db"@
}

pub open spec fn default_jwt_secret() -> Seq<char> {
    "change-me-in-production"@
}

pub open spec fn opt_string_view(o: Option<String>) -> Option<Seq<char>> {
    match o {
        Some(s) => Some(s@),
        None => None,
    }
}

impl Config {
    /// The configuration from what the environment (or a `.env` file) gives
    /// for `SERVER_ADDR`, `DATABASE_URL`, `JWT_SECRET`,
    /// `BOOTSTRAP_ADMIN_EMAIL` and `BOOTSTRAP_ADMIN_PASSWORD`; the first
    /// three have defaults.
    pub fn from_env(
        addr: Option<String>,
        database_url: Option<String>,
        jwt_secret: Option<String>,
        bootstrap_admin_email: Option<String>,
        bootstrap_admin_password: Option<String>,
    ) -> (c: Config)
        ensures
            c.addr@ == match addr {
                Some(a) => a@,
                None => default_addr(),
            },
            c.database_url@ == match database_url {
                Some(a) => a@,
                None => default_database_url(),
            },
            c.jwt_secret@ == match jwt_secret {
                Some(a) => a@,
                None => default_jwt_secret(),
            },
            c.bootstrap_admin_email == bootstrap_admin_email,
            c.bootstrap_admin_password == bootstrap_admin_password,
    {
        Config {
            addr: match addr {
                Some(a) => a,
                None => owned("0.0.0.0:3030"),
            },
            database_url: match database_url {
                Some(a) => a,
                None => owned("sqlite://data/champr.db"),
            },
            jwt_secret: match jwt_secret {
                Some(a) => a,
                None => owned("change-me-in-production"),
            },
            bootstrap_admin_email,
            bootstrap_admin_password,
        }
    }
}

/// A value as written in the environment: trimmed and unquoted; nothing
/// where that leaves nothing.
pub open spec fn normalize_env_value_spec(value: Seq<char>) -> Option<Seq<char>> {
    let t = trim_class(trim(value), CharClass::QuoteMark);
    if t.len() == 0 {
        None
    } else {
        Some(t)
    }
}

/// Trims and unquotes a value from the environment.
pub fn normalize_env_value(value: &str) -> (r: Option<String>)
    ensures
        opt_string_view(r) == normalize_env_value_spec(value@),
{
    let t = trim_vec(&chars_of(value), CharClass::Whitespace);
    let t = trim_vec(&t, CharClass::QuoteMark);
    if t.len() == 0 {
        None
    } else {
        Some(string_of(&t))
    }
}

/// The value that the `.env` text `contents` assigns to `key`.
pub open spec fn parse_env_value_spec(contents: Seq<char>, key: Seq<char>) -> Option<Seq<char>> {
    match lookup_env(contents, key) {
        Some(v) => normalize_env_value_spec(v),
        None => None,
    }
}

/// The value that the `.env` text `contents` assigns to `key`: the first
/// line that assigns the key decides.
pub fn parse_env_value(contents: &str, key: &str) -> (r: Option<String>)
    ensures
        opt_string_view(r) == parse_env_value_spec(contents@, key@),
{
    match lookup_env_value(contents, key) {
        Some(v) => normalize_env_value(string_of(&v).as_str()),
        None => None,
    }
}

/// The value of the first `.env` file, in order, that was read (`Some`
/// contents) and assigns `key`.
pub fn find_dotenv_value(candidate_contents: &Vec<Option<String>>, key: &str) -> (r: Option<String>)
    ensures
        opt_string_view(r) == first_value(
            opt_views(candidate_contents@),
            |c: Seq<char>| parse_env_value_spec(c, key@),
        ),
{
    let ghost parse = |c: Seq<char>| parse_env_value_spec(c, key@);
    let mut i: usize = 0;
    assert(opt_views(candidate_contents@).skip(0) == opt_views(candidate_contents@));
    while i < candidate_contents.len()
        invariant
            i <= candidate_contents.len(),
            parse == (|c: Seq<char>| parse_env_value_spec(c, key@)),
            first_value(opt_views(candidate_contents@), parse) == first_value(
                opt_views(candidate_contents@).skip(i as int),
                parse,
            ),
        decreases candidate_contents.len() - i,
    {
        let ghost rest = opt_views(candidate_contents@).skip(i as int);
        assert(rest.drop_first() == opt_views(candidate_contents@).skip(i + 1));
        match &candidate_contents[i] {
            Some(c) => {
                assert(rest[0] == Some(c@));
                let v = parse_env_value(c.as_str(), key);
                if v.is_some() {
                    return v;
                }
            },
            None => {
                assert(rest[0] is None);
            },
        }
        i = i + 1;
    }
    None
}

/// The environment's value when it has one after normalizing, else the
/// value that the `.env` files give.
pub fn env_or_dotenv(env_value: Option<&str>, dotenv_value: Option<String>) -> (r: Option<String>)
    ensures
        opt_string_view(r) == match env_value {
            Some(v) => match normalize_env_value_spec(v@) {
                Some(n) => Some(n),
                None => opt_string_view(dotenv_value),
            },
            None => opt_string_view(dotenv_value),
        },
{
    let from_env = match env_value {
        Some(v) => normalize_env_value(v),
        None => None,
    };
    match from_env {
        Some(n) => Some(n),
        None => dotenv_value,
    }
}

/// A `.env` line `KEY=VALUE` assigns `VALUE` to `KEY` exactly, every `=`
/// inside the value kept: for a key without white space or `=` that does
/// not begin a comment, and a one-line value that neither begins nor ends
/// with white space or a quotation mark, the text `KEY=VALUE` followed by a
/// line break gives `VALUE` for `KEY`.
pub proof fn lemma_env_line_gives_its_value(key: Seq<char>, value: Seq<char>)
    requires
        key.len() > 0,
        key[0] != '#',
        forall|i: int| 0 <= i < key.len() ==> !is_white(#[trigger] key[i]) && key[i] != '=',
        value.len() > 0,
        forall|i: int| 0 <= i < value.len() ==> #[trigger] value[i] != '\n',
        !is_white(value[0]) && !is_white(value.last()),
        value[0] != '"' && value[0] != '\'' && value.last() != '"' && value.last() != '\'',
    ensures
        parse_env_value_spec(key + seq!['='] + value + seq!['\n'], key) == Some(value),
{
    lemma_env_line_lookup(key, value);
    lemma_trim_class_unchanged(value, CharClass::Whitespace);
    lemma_trim_class_unchanged(value, CharClass::QuoteMark);
}

} // verus!
