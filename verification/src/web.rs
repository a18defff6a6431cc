//! The data that the client fetches, where it fetches it from, and which
//! build server it talks to.
use vstd::prelude::*;

use crate::models::{json_parse_error, parse_json};
use crate::envfile::{first_value, lemma_env_line_lookup, lookup_env, lookup_env_value, opt_views};
use crate::text::{
    is_white, lemma_trim_class_unchanged,
    chars_of, lemma_trim_end_class_last, extend_chars, push_signed_decimal, signed_decimal, string_of, trim,
    trim_class, trim_end_class, trim_end_vec, trim_vec, CharClass,
};

verus! {

/// A fetch that did not give what was asked.
#[derive(Debug, Clone, Copy, PartialEq, Eq)]
pub enum FetchError {
    Failed,
}

/// A champion as Data Dragon describes it.
#[derive(Default, Debug, Clone, PartialEq, Eq)]
pub struct ChampInfo {
    pub version: String,
    pub id: String,
    pub key: String,
    pub name: String,
    pub title: String,
    pub image: Image,
    pub tags: Vec<String>,
}

/// Where a champion's picture lies in a sprite.
#[derive(Default, Debug, Clone, PartialEq, Eq)]
pub struct Image {
    pub full: String,
    pub sprite: String,
    pub group: String,
    pub x: u32,
    pub y: u32,
    pub w: u32,
    pub h: u32,
}

/// One slot of a rune tree.
#[derive(Default, Debug, Clone, PartialEq, Eq)]
pub struct Slot {
    pub runes: Vec<SlotRune>,
}

/// One rune of a slot.
#[derive(Default, Debug, Clone, PartialEq, Eq)]
pub struct SlotRune {
    pub id: u64,
    pub key: String,
    pub icon: String,
    pub name: String,
    pub short_desc: String,
    pub long_desc: String,
}

/// A rune tree as Data Dragon describes it.
#[derive(Default, Debug, Clone, PartialEq, Eq)]
pub struct DataDragonRune {
    pub id: u64,
    pub key: String,
    pub icon: String,
    pub name: String,
    pub slots: Vec<Slot>,
}

/// The latest release of the application.
#[derive(Default, Debug, Clone, PartialEq, Eq)]
pub struct LatestRelease {
    pub name: String,
    pub tag_name: String,
    pub html_url: String,
}

/// The tarball of a published build package.
#[derive(Default, Debug, Clone, PartialEq, Eq)]
pub struct Dist {
    pub tarball: String,
    pub file_count: i64,
    pub unpacked_size: i64,
}

/// A published build package.
#[derive(Default, Debug, Clone, PartialEq, Eq)]
pub struct Package {
    pub name: String,
    pub version: String,
    pub source_version: String,
    pub description: String,
    pub dist: Dist,
}

/// What the build server answers for a champion: the stored record's
/// identity and its build sections, each as the JSON the server keeps.
#[derive(Debug)]
pub struct ListBuildsResp {
    pub id: i64,
    pub source: String,
    pub version: String,
    pub champion_alias: String,
    pub champion_id: String,
    pub content: Vec<serde_json::Value>,
}

/// The environment variable that names the build server.
pub const SERVER_URL_ENV_KEY: &'static str = "CHAMPR_SERVER_URL";

/// The build server of debug runs.
pub const DEFAULT_LOCAL_SERVICE_URL: &'static str = "http://127.0.0.1:3030";

pub open spec fn default_local_service_url() -> Seq<char> {
    DEFAULT_LOCAL_SERVICE_URL@
}

pub open spec fn data_dragon_base_url() -> Seq<char> {
    "https://ddragon.leagueoflegends.com"@
}

/// A service URL as written in the environment: trimmed, unquoted and
/// without trailing slashes; nothing where that leaves nothing.
pub open spec fn normalize_service_url_spec(value: Seq<char>) -> Option<Seq<char>> {
    let t = trim_end_class(trim_class(trim(value), CharClass::QuoteMark), CharClass::Slash);
    if t.len() == 0 {
        None
    } else {
        Some(t)
    }
}

pub open spec fn opt_str_view(o: Option<&str>) -> Option<Seq<char>> {
    match o {
        Some(s) => Some(s@),
        None => None,
    }
}

pub open spec fn opt_string_view(o: Option<String>) -> Option<Seq<char>> {
    match o {
        Some(s) => Some(s@),
        None => None,
    }
}

/// Normalizes a service URL from the environment.
pub fn normalize_service_url(value: &str) -> (r: Option<String>)
    ensures
        opt_string_view(r) == normalize_service_url_spec(value@),
        r matches Some(u) ==> u@.len() > 0 && u@.last() != '/',
{
    proof {
        lemma_trim_end_class_last(
            trim_class(trim(value@), CharClass::QuoteMark),
            CharClass::Slash,
        );
    }
    let t = trim_vec(&chars_of(value), CharClass::Whitespace);
    let t = trim_vec(&t, CharClass::QuoteMark);
    let t = trim_end_vec(&t, CharClass::Slash);
    if t.len() == 0 {
        None
    } else {
        Some(string_of(&t))
    }
}

/// The service URL that `contents` assigns to `key`.
pub open spec fn parse_env_value_spec(contents: Seq<char>, key: Seq<char>) -> Option<Seq<char>> {
    match lookup_env(contents, key) {
        Some(v) => normalize_service_url_spec(v),
        None => None,
    }
}

/// A `.env` line `KEY=URL` gives `URL` for `KEY` exactly, every `=` inside
/// it kept: for a key without white space or `=` that does not begin a
/// comment, and a one-line URL that neither begins nor ends with white
/// space or a quotation mark and does not end with `/`.
pub proof fn lemma_env_line_gives_its_url(key: Seq<char>, url: Seq<char>)
    requires
        key.len() > 0,
        key[0] != '#',
        forall|i: int| 0 <= i < key.len() ==> !is_white(#[trigger] key[i]) && key[i] != '=',
        url.len() > 0,
        forall|i: int| 0 <= i < url.len() ==> #[trigger] url[i] != '\n',
        !is_white(url[0]) && !is_white(url.last()),
        url[0] != '"' && url[0] != '\'' && url.last() != '"' && url.last() != '\'',
        url.last() != '/',
    ensures
        parse_env_value_spec(key + seq!['='] + url + seq!['\n'], key) == Some(url),
{
    lemma_env_line_lookup(key, url);
    lemma_trim_class_unchanged(url, CharClass::Whitespace);
    lemma_trim_class_unchanged(url, CharClass::QuoteMark);
    assert(trim_end_class(url, CharClass::Slash) == url);
}

/// The service URL that the `.env` text `contents` assigns to `key`: the
/// first line that assigns the key decides.
pub fn parse_env_value(contents: &str, key: &str) -> (r: Option<String>)
    ensures
        opt_string_view(r) == parse_env_value_spec(contents@, key@),
{
    match lookup_env_value(contents, key) {
        Some(v) => normalize_service_url(string_of(&v).as_str()),
        None => None,
    }
}

/// The service URL to use: the runtime environment's, else the `.env`
/// file's, else the local default for debug runs and the build-time URL
/// for packaged runs.
pub open spec fn resolve_service_url_spec(
    runtime_env: Option<Seq<char>>,
    env_file: Option<Seq<char>>,
    use_local_default: bool,
    build_service_url: Seq<char>,
) -> Seq<char> {
    let from_runtime = match runtime_env {
        Some(v) => normalize_service_url_spec(v),
        None => None,
    };
    let from_file = match env_file {
        Some(v) => normalize_service_url_spec(v),
        None => None,
    };
    match from_runtime {
        Some(u) => u,
        None => match from_file {
            Some(u) => u,
            None => if use_local_default {
                default_local_service_url()
            } else {
                build_service_url
            },
        },
    }
}

/// Chooses the build server's URL from its sources, in order of priority.
pub fn resolve_service_url_from_sources(
    runtime_env: Option<&str>,
    env_file: Option<&str>,
    use_local_default: bool,
    build_service_url: &str,
) -> (r: String)
    ensures
        r@ == resolve_service_url_spec(
            opt_str_view(runtime_env),
            opt_str_view(env_file),
            use_local_default,
            build_service_url@,
        ),
{
    let from_runtime = match runtime_env {
        Some(v) => normalize_service_url(v),
        None => None,
    };
    if let Some(u) = from_runtime {
        return u;
    }
    let from_file = match env_file {
        Some(v) => normalize_service_url(v),
        None => None,
    };
    if let Some(u) = from_file {
        return u;
    }
    if use_local_default {
        string_of(&chars_of(DEFAULT_LOCAL_SERVICE_URL))
    } else {
        string_of(&chars_of(build_service_url))
    }
}

/// The service URL of the first `.env` file, in order, that was read
/// (`Some` contents) and assigns `key`.
pub fn find_env_file_value(candidate_contents: &Vec<Option<String>>, key: &str) -> (r: Option<
    String,
>)
    ensures
        opt_string_view(r) == first_value(
            opt_views(candidate_contents@),
            |c: Seq<char>| parse_env_value_spec(c, key@),
        ),
{
    let ghost parse = |c: Seq<char>| parse_env_value_spec(c, key@);
    let mut i: usize = 0;
    assert(opt_views(candidate_contents@).skip(0) == opt_views(candidate_contents@));
    while i < candidate_contents.len()
        invariant
            i <= candidate_contents.len(),
            parse == (|c: Seq<char>| parse_env_value_spec(c, key@)),
            first_value(opt_views(candidate_contents@), parse) == first_value(
                opt_views(candidate_contents@).skip(i as int),
                parse,
            ),
        decreases candidate_contents.len() - i,
    {
        let ghost rest = opt_views(candidate_contents@).skip(i as int);
        assert(rest.drop_first() == opt_views(candidate_contents@).skip(i + 1));
        match &candidate_contents[i] {
            Some(c) => {
                assert(rest[0] == Some(c@));
                let v = parse_env_value(c.as_str(), key);
                if v.is_some() {
                    return v;
                }
            },
            None => {
                assert(rest[0] is None);
            },
        }
        i = i + 1;
    }
    None
}

pub open spec fn versions_url_spec() -> Seq<char> {
    data_dragon_base_url() + "/api/versions.json"@
}

/// The address of Data Dragon's list of game versions.
pub fn versions_url() -> (r: String)
    ensures
        r@ == versions_url_spec(),
{
    let mut v = chars_of("https://ddragon.leagueoflegends.com");
    extend_chars(&mut v, &chars_of("/api/versions.json"));
    string_of(&v)
}

pub open spec fn champion_list_url_spec(version: Seq<char>) -> Seq<char> {
    data_dragon_base_url() + "/cdn/"@ + version + "/data/en_US/champion.json"@
}

/// The address of Data Dragon's champion list for a game version.
pub fn champion_list_url(version: &str) -> (r: String)
    ensures
        r@ == champion_list_url_spec(version@),
{
    let mut v = chars_of("https://ddragon.leagueoflegends.com");
    extend_chars(&mut v, &chars_of("/cdn/"));
    extend_chars(&mut v, &chars_of(version));
    extend_chars(&mut v, &chars_of("/data/en_US/champion.json"));
    string_of(&v)
}

pub open spec fn runes_url_spec(version: Seq<char>) -> Seq<char> {
    data_dragon_base_url() + "/cdn/"@ + version + "/data/en_US/runesReforged.json"@
}

/// The address of Data Dragon's rune trees for a game version.
pub fn runes_url(version: &str) -> (r: String)
    ensures
        r@ == runes_url_spec(version@),
{
    let mut v = chars_of("https://ddragon.leagueoflegends.com");
    extend_chars(&mut v, &chars_of("/cdn/"));
    extend_chars(&mut v, &chars_of(version));
    extend_chars(&mut v, &chars_of("/data/en_US/runesReforged.json"));
    string_of(&v)
}

pub open spec fn builds_by_alias_url_spec(
    service: Seq<char>,
    source: Seq<char>,
    champion: Seq<char>,
) -> Seq<char> {
    service + "/api/source/"@ + source + "/champion-alias/"@ + champion
}

/// The build server's address of a source's builds for a champion alias.
pub fn builds_by_alias_url(service: &str, source: &str, champion: &str) -> (r: String)
    ensures
        r@ == builds_by_alias_url_spec(service@, source@, champion@),
{
    let mut v = chars_of(service);
    extend_chars(&mut v, &chars_of("/api/source/"));
    extend_chars(&mut v, &chars_of(source));
    extend_chars(&mut v, &chars_of("/champion-alias/"));
    extend_chars(&mut v, &chars_of(champion));
    string_of(&v)
}

pub open spec fn builds_by_id_url_spec(service: Seq<char>, source: Seq<char>, champion_id: int) -> Seq<
    char,
> {
    service + "/api/source/"@ + source + "/champion-id/"@ + signed_decimal(champion_id)
}

/// The build server's address of a source's builds for a champion id.
pub fn builds_by_id_url(service: &str, source: &str, champion_id: i64) -> (r: String)
    ensures
        r@ == builds_by_id_url_spec(service@, source@, champion_id as int),
{
    let mut v = chars_of(service);
    extend_chars(&mut v, &chars_of("/api/source/"));
    extend_chars(&mut v, &chars_of(source));
    extend_chars(&mut v, &chars_of("/champion-id/"));
    push_signed_decimal(&mut v, champion_id);
    string_of(&v)
}

pub open spec fn package_url_spec(source: Seq<char>) -> Seq<char> {
    "https://mirrors.cloud.tencent.com/npm/@champ-r/"@ + source + "/latest"@
}

/// The address of the latest published package of a build source.
pub fn package_url(source: &str) -> (r: String)
    ensures
        r@ == package_url_spec(source@),
{
    let mut v = chars_of("https://mirrors.cloud.tencent.com/npm/@champ-r/");
    extend_chars(&mut v, &chars_of(source));
    extend_chars(&mut v, &chars_of("/latest"));
    string_of(&v)
}

/// The version and the tarball address of a published package.
pub fn package_download(pak: &Package) -> (r: (String, String))
    ensures
        r.0@ == pak.version@,
        r.1@ == pak.dist.tarball@,
{
    (pak.version.clone(), pak.dist.tarball.clone())
}

pub open spec fn npm_output_dir_spec(source: Seq<char>) -> Seq<char> {
    ".npm/"@ + source
}

/// Where a source's package is unpacked.
pub fn npm_output_dir(source: &str) -> (r: String)
    ensures
        r@ == npm_output_dir_spec(source@),
{
    let mut v = chars_of(".npm/");
    extend_chars(&mut v, &chars_of(source));
    string_of(&v)
}

pub open spec fn package_folder_spec(output_dir: Seq<char>) -> Seq<char> {
    output_dir + "/package"@
}

/// The folder of an unpacked package that holds its build files.
pub fn package_folder(output_dir: &str) -> (r: String)
    ensures
        r@ == package_folder_spec(output_dir@),
{
    let mut v = chars_of(output_dir);
    extend_chars(&mut v, &chars_of("/package"));
    string_of(&v)
}

/// Whether an entry of an unpacked package holds builds: a file other than
/// `package.json` and `index.json`.
pub fn is_build_file(is_file: bool, file_name: &str) -> (r: bool)
    ensures
        r == (is_file && file_name@ != "package.json"@ && file_name@ != "index.json"@),
{
    let name = chars_of(file_name);
    let package = chars_of("package.json");
    let index = chars_of("index.json");
    is_file && !crate::text::chars_eq(&name, &package) && !crate::text::chars_eq(&name, &index)
}

/// The message for a build file that is not JSON.
pub open spec fn build_file_error(path: Seq<char>) -> Seq<char> {
    "Failed to parse JSON in file: "@ + path
}

/// Reads the contents of the build file at `path` as JSON; contents that
/// are not JSON are refused with a message naming the file.
pub fn parse_build_file(path: &str, contents: &str) -> (r: Result<serde_json::Value, String>)
    ensures
        r is Err <==> json_parse_error(contents@) is Some,
        r matches Err(m) ==> m@ == build_file_error(path@),
{
    match parse_json(contents) {
        Ok(v) => Ok(v),
        Err(_) => {
            let mut m = chars_of("Failed to parse JSON in file: ");
            extend_chars(&mut m, &chars_of(path));
            Err(string_of(&m))
        },
    }
}

} // verus!
