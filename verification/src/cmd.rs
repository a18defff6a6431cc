//! Reading the League Client's command line: where it listens, with which
//! token, in which region and from which directory.
use vstd::prelude::*;

#[allow(unused_imports)]
use base64::Engine;
use vstd::utf8::encode_utf8;
use crate::b64::base64_no_pad;
use crate::text::{
    chars_eq, chars_of, contains, contains_vec, extend_chars, parse_u32, parse_u32_vec, remove_all,
    remove_all_vec, remove_class, remove_class_vec, starts_with, string_of, trim, trim_vec,
    CharClass,
};

verus! {

/// What the client's command line tells: the URL that authenticates to it,
/// whether it is the Tencent client, its token, its port and its directory.
#[derive(Default, Debug, Clone, PartialEq)]
pub struct CommandLineOutput {
    pub auth_url: String,
    pub is_tencent: bool,
    pub token: String,
    pub port: String,
    pub dir: String,
}

/// The fields of a `CommandLineOutput` as sequences of characters.
pub struct CommandLineView {
    pub auth_url: Seq<char>,
    pub is_tencent: bool,
    pub token: Seq<char>,
    pub port: Seq<char>,
    pub dir: Seq<char>,
}

impl View for CommandLineOutput {
    type V = CommandLineView;

    open spec fn view(&self) -> CommandLineView {
        CommandLineView {
            auth_url: self.auth_url@,
            is_tencent: self.is_tencent,
            token: self.token@,
            port: self.port@,
            dir: self.dir@,
        }
    }
}

pub open spec fn app_port_key() -> Seq<char> {
    "--app-port="@
}

pub open spec fn token_key() -> Seq<char> {
    "--remoting-auth-token="@
}

pub open spec fn region_key() -> Seq<char> {
    "--region="@
}

pub open spec fn dir_key() -> Seq<char> {
    "--install-directory="@
}

/// The pattern that finds the port argument.
pub open spec fn port_pattern() -> Seq<char> {
    "--app-port=\\d+"@
}

/// The pattern that finds the token argument.
pub open spec fn token_pattern() -> Seq<char> {
    "--remoting-auth-token=\\S+"@
}

/// The pattern that finds the region argument.
pub open spec fn region_pattern() -> Seq<char> {
    "--region=\\S+"@
}

/// The pattern that finds the quoted install directory (Windows).
pub open spec fn dir_pattern() -> Seq<char> {
    "--install-directory=(.*?)\""@
}

/// The pattern that finds the install directory in a `ps` line (macOS).
pub open spec fn mac_dir_pattern() -> Seq<char> {
    "--install-directory=([^\\s]+).*?--"@
}

/// The text of the leftmost-first match of the regular expression
/// `pattern` in `haystack`, as the `regex` crate finds it; `None` where
/// there is no match or the pattern does not compile.
pub uninterp spec fn regex_find(pattern: Seq<char>, haystack: Seq<char>) -> Option<Seq<char>>;

/// Compiles `pattern` with `regex::Regex::new` and returns the text of the
/// match that `Regex::find` reports in `haystack`. The contract claims that
/// this is the named value `regex_find(pattern, haystack)`, and that a
/// match is a piece of the haystack (the crate documents a match as a span
/// of it). What the match is, for a given pattern, is left unsaid.
#[verifier::external_body]
fn find_match(pattern: &str, haystack: &str) -> (found: Option<String>)
    ensures
        match found {
            Some(m) => regex_find(pattern@, haystack@) == Some(m@) && contains(haystack@, m@),
            None => regex_find(pattern@, haystack@) is None,
        },
{
    match regex::Regex::new(pattern) {
        Ok(re) => re.find(haystack).map(|m| m.as_str().to_string()),
        Err(_) => None,
    }
}

/// `"riot:{token}@127.0.0.1:{port}"`.
pub open spec fn auth_url_of(token: Seq<char>, port: Seq<char>) -> Seq<char> {
    "riot:"@ + token + "@127.0.0.1:"@ + port
}

/// The port: the port match without its key, or `"0"`.
pub open spec fn port_of(m: Option<Seq<char>>) -> Seq<char> {
    match m {
        Some(t) => remove_all(t, app_port_key()),
        None => "0"@,
    }
}

/// The token: the token match without its key, backslashes and quotes.
pub open spec fn token_of(m: Option<Seq<char>>) -> Seq<char> {
    match m {
        Some(t) => remove_class(remove_all(t, token_key()), CharClass::BackslashOrDoubleQuote),
        None => Seq::empty(),
    }
}

/// Whether the region match, without key, backslashes and quotes, is
/// `TENCENT`.
pub open spec fn tencent_of(m: Option<Seq<char>>) -> bool {
    match m {
        Some(t) => remove_class(remove_all(t, region_key()), CharClass::BackslashOrDoubleQuote)
            == "TENCENT"@,
        None => false,
    }
}

/// The directory: the directory match without key and quotes, followed by
/// `/..` for the Tencent client (whose executable sits one level deeper)
/// and by `/` otherwise.
pub open spec fn dir_of(m: Option<Seq<char>>, is_tencent: bool) -> Seq<char> {
    let raw = match m {
        Some(t) => remove_all(t, dir_key()),
        None => Seq::empty(),
    };
    let out = remove_class(raw, CharClass::DoubleQuote);
    if is_tencent {
        out + "/.."@
    } else {
        out + "/"@
    }
}

/// What the four matches of a command line make.
pub open spec fn command_line_of(
    port_match: Option<Seq<char>>,
    token_match: Option<Seq<char>>,
    region_match: Option<Seq<char>>,
    dir_match: Option<Seq<char>>,
) -> CommandLineView {
    let port = port_of(port_match);
    let token = token_of(token_match);
    let is_tencent = tencent_of(region_match);
    CommandLineView {
        auth_url: auth_url_of(token, port),
        is_tencent,
        token,
        port,
        dir: dir_of(dir_match, is_tencent),
    }
}

/// What `match_stdout` makes of a command line.
pub open spec fn match_stdout_spec(stdout: Seq<char>) -> CommandLineView {
    command_line_of(
        regex_find(port_pattern(), stdout),
        regex_find(token_pattern(), stdout),
        regex_find(region_pattern(), stdout),
        regex_find(dir_pattern(), stdout),
    )
}

/// Only the region `TENCENT` marks the Tencent client: the reading of a
/// command line says Tencent exactly when its region argument, without
/// its key, backslashes and quotes, is `TENCENT`; the directory then ends
/// in `/..` (the executable sits one level deeper), and otherwise in `/`.
pub proof fn lemma_only_tencent_region_is_tencent(stdout: Seq<char>)
    ensures
        match_stdout_spec(stdout).is_tencent <==> (regex_find(region_pattern(), stdout) matches Some(m)
            && remove_class(remove_all(m, "--region="@), CharClass::BackslashOrDoubleQuote)
            == "TENCENT"@),
        match_stdout_spec(stdout).is_tencent ==> {
            let d = match_stdout_spec(stdout).dir;
            d.len() >= 3 && d.subrange(d.len() - 3, d.len() as int) == "/.."@
        },
        !match_stdout_spec(stdout).is_tencent ==> {
            let d = match_stdout_spec(stdout).dir;
            d.len() >= 1 && d.last() == '/'
        },
{
    reveal_strlit("/..");
    reveal_strlit("/");
    let d = match_stdout_spec(stdout).dir;
    if match_stdout_spec(stdout).is_tencent {
        assert(d.subrange(d.len() - 3, d.len() as int) =~= "/.."@);
    }
}

pub open spec fn opt_view(m: Option<String>) -> Option<Seq<char>> {
    match m {
        Some(s) => Some(s@),
        None => None,
    }
}

/// The URL that authenticates to the client: `riot:{token}@127.0.0.1:{port}`.
pub fn make_auth_url(token: &String, port: &String) -> (r: String)
    ensures
        r@ == auth_url_of(token@, port@),
{
    let mut v = chars_of("riot:");
    extend_chars(&mut v, &chars_of(token.as_str()));
    extend_chars(&mut v, &chars_of("@127.0.0.1:"));
    extend_chars(&mut v, &chars_of(port.as_str()));
    string_of(&v)
}

/// Builds the output from the matches of the four patterns in a command
/// line (each the matched text, or `None`).
pub fn command_line_from_matches(
    port_match: Option<String>,
    token_match: Option<String>,
    region_match: Option<String>,
    dir_match: Option<String>,
) -> (r: CommandLineOutput)
    ensures
        r@ == command_line_of(
            opt_view(port_match),
            opt_view(token_match),
            opt_view(region_match),
            opt_view(dir_match),
        ),
{
    let port = match &port_match {
        Some(m) => string_of(&remove_all_vec(&chars_of(m.as_str()), &chars_of("--app-port="))),
        None => string_of(&chars_of("0")),
    };
    let token = match &token_match {
        Some(m) => {
            let t = remove_all_vec(&chars_of(m.as_str()), &chars_of("--remoting-auth-token="));
            string_of(&remove_class_vec(&t, CharClass::BackslashOrDoubleQuote))
        },
        None => String::new(),
    };
    let auth_url = make_auth_url(&token, &port);
    let is_tencent = match &region_match {
        Some(m) => {
            let t = remove_all_vec(&chars_of(m.as_str()), &chars_of("--region="));
            let region = remove_class_vec(&t, CharClass::BackslashOrDoubleQuote);
            chars_eq(&region, &chars_of("TENCENT"))
        },
        None => false,
    };
    let raw = match &dir_match {
        Some(m) => remove_all_vec(&chars_of(m.as_str()), &chars_of("--install-directory=")),
        None => Vec::new(),
    };
    let mut out = remove_class_vec(&raw, CharClass::DoubleQuote);
    if is_tencent {
        extend_chars(&mut out, &chars_of("/.."));
    } else {
        extend_chars(&mut out, &chars_of("/"));
    }
    let dir = string_of(&out);
    CommandLineOutput { auth_url, is_tencent, token, port, dir }
}

/// Reads port, token, region and install directory from the client's
/// command line.
pub fn match_stdout(stdout: &str) -> (r: CommandLineOutput)
    ensures
        r@ == match_stdout_spec(stdout@),
{
    let port_match = find_match("--app-port=\\d+", stdout);
    let token_match = find_match("--remoting-auth-token=\\S+", stdout);
    let region_match = find_match("--region=\\S+", stdout);
    let dir_match = find_match("--install-directory=(.*?)\"", stdout);
    command_line_from_matches(port_match, token_match, region_match, dir_match)
}

/// The directory that the macOS `ps` line names: the match of the
/// directory pattern without the key and without `" --"`, or empty.
pub open spec fn mac_dir_of(m: Option<Seq<char>>) -> Seq<char> {
    match m {
        Some(t) => remove_all(remove_all(t, dir_key()), " --"@),
        None => Seq::empty(),
    }
}

/// What one `ps` line of the client gives: the fields of `match_stdout`,
/// with the directory read by the macOS pattern.
pub open spec fn ps_line_spec(line: Seq<char>) -> CommandLineView {
    let m = match_stdout_spec(line);
    CommandLineView { dir: mac_dir_of(regex_find(mac_dir_pattern(), line)), ..m }
}

/// The empty output, given when no line names the client.
pub open spec fn empty_output() -> CommandLineView {
    CommandLineView {
        auth_url: Seq::empty(),
        is_tencent: false,
        token: Seq::empty(),
        port: Seq::empty(),
        dir: Seq::empty(),
    }
}

/// What the `ps` listing gives: the first line that holds `--app-port=`
/// decides; without one, a failed read is an error and a complete read
/// gives the empty output.
pub open spec fn ps_output_spec(lines: Seq<Seq<char>>, read_failed: bool) -> Result<
    CommandLineView,
    (),
>
    decreases lines.len(),
{
    if lines.len() == 0 {
        if read_failed {
            Err(())
        } else {
            Ok(empty_output())
        }
    } else if contains(lines[0], app_port_key()) {
        Ok(ps_line_spec(lines[0]))
    } else {
        ps_output_spec(lines.drop_first(), read_failed)
    }
}

pub open spec fn result_view(r: Result<CommandLineOutput, ()>) -> Result<CommandLineView, ()> {
    match r {
        Ok(o) => Ok(o@),
        Err(e) => Err(e),
    }
}

pub open spec fn string_views(v: Seq<String>) -> Seq<Seq<char>> {
    v.map_values(|s: String| s@)
}

/// Reads the output of `ps -A | grep LeagueClientUx | grep
/// remoting-auth-token=`: `lines` are the lines read, in order, and
/// `read_failed` tells whether reading stopped on an error.
pub fn cmd_output_from_lines(lines: &Vec<String>, read_failed: bool) -> (r: Result<
    CommandLineOutput,
    (),
>)
    ensures
        result_view(r) == ps_output_spec(string_views(lines@), read_failed),
{
    let key = chars_of("--app-port=");
    let mut i: usize = 0;
    assert(string_views(lines@).skip(0) == string_views(lines@));
    while i < lines.len()
        invariant
            i <= lines.len(),
            key@ == app_port_key(),
            ps_output_spec(string_views(lines@), read_failed) == ps_output_spec(
                string_views(lines@).skip(i as int),
                read_failed,
            ),
        decreases lines.len() - i,
    {
        let ghost rest = string_views(lines@).skip(i as int);
        assert(rest[0] == lines@[i as int]@);
        let line = chars_of(lines[i].as_str());
        if contains_vec(&line, &key) {
            let m = match_stdout(lines[i].as_str());
            let mac = find_match("--install-directory=([^\\s]+).*?--", lines[i].as_str());
            let dir = match &mac {
                Some(t) => {
                    let a = remove_all_vec(&chars_of(t.as_str()), &chars_of("--install-directory="));
                    string_of(&remove_all_vec(&a, &chars_of(" --")))
                },
                None => String::new(),
            };
            let out = CommandLineOutput { dir, ..m };
            assert(out@ == ps_line_spec(lines@[i as int]@));
            return Ok(out);
        }
        assert(rest.drop_first() == string_views(lines@).skip(i + 1));
        i = i + 1;
    }
    assert(string_views(lines@).skip(i as int).len() == 0);
    if read_failed {
        Err(())
    } else {
        Ok(
            CommandLineOutput {
                auth_url: String::new(),
                is_tencent: false,
                token: String::new(),
                port: String::new(),
                dir: String::new(),
            },
        )
    }
}

/// The process id that the process lookup printed: its trimmed output read
/// as a `u32`, where there was output.
pub fn get_lcu_process_id(lookup_stdout: Option<&str>) -> (r: Option<u32>)
    ensures
        r == match lookup_stdout {
            Some(s) => parse_u32(trim(s@)),
            None => None,
        },
{
    match lookup_stdout {
        Some(s) => {
            let t = trim_vec(&chars_of(s), CharClass::Whitespace);
            parse_u32_vec(&t)
        },
        None => None,
    }
}

/// Whether the client runs, judged from the reading of its command line:
/// a reading that found an authentication URL.
pub fn check_if_lol_running(cmd_output: &Result<CommandLineOutput, ()>) -> (r: bool)
    ensures
        r == match cmd_output {
            Ok(o) => o.auth_url@.len() > 0,
            Err(_) => false,
        },
{
    match cmd_output {
        Ok(o) => o.auth_url.as_str().unicode_len() > 0,
        Err(_) => false,
    }
}

/// Nothing to start: the command line is read on demand.
pub fn start_check_cmd_task() {
}

/// Stores a new reading of the command line; a failed reading keeps the
/// previous one.
pub fn update_cmd_output_task(output: &mut CommandLineOutput, result: Result<CommandLineOutput, ()>)
    ensures
        match result {
            Ok(o) => *final(output) == o,
            Err(_) => *final(output) == *old(output),
        },
{
    if let Ok(o) = result {
        *output = o;
    }
}

} // verus!

verus! {

// ---------------------------------------------------------------------
// Running PowerShell with elevation, and the helper executable
// ---------------------------------------------------------------------

/// `s` with each single quote doubled, as PowerShell escapes it inside a
/// single-quoted literal.
pub open spec fn double_quotes(s: Seq<char>) -> Seq<char>
    decreases s.len(),
{
    if s.len() == 0 {
        s
    } else if s[0] == '\'' {
        "''"@ + double_quotes(s.drop_first())
    } else {
        seq![s[0]] + double_quotes(s.drop_first())
    }
}

/// A path as a single-quoted PowerShell literal.
pub open spec fn ps_literal_spec(path: Seq<char>) -> Seq<char> {
    "'"@ + double_quotes(path) + "'"@
}

/// Writes a path as a single-quoted PowerShell literal.
pub fn ps_literal(path: &str) -> (r: String)
    ensures
        r@ == ps_literal_spec(path@),
{
    let p = chars_of(path);
    let mut out = chars_of("'");
    let ghost start = out@;
    let mut i: usize = 0;
    assert(p@.skip(0) == p@);
    while i < p.len()
        invariant
            i <= p.len(),
            start + double_quotes(p@) == out@ + double_quotes(p@.skip(i as int)),
        decreases p.len() - i,
    {
        let ghost rest = p@.skip(i as int);
        assert(rest.drop_first() == p@.skip(i + 1));
        let ghost before = out@;
        if p[i] == '\'' {
            out.push('\'');
            out.push('\'');
            proof {
                reveal_strlit("''");
            }
            assert(out@ =~= before + "''"@);
        } else {
            out.push(p[i]);
            assert(out@ =~= before + seq![p@[i as int]]);
        }
        i = i + 1;
    }
    assert(p@.skip(i as int) =~= Seq::<char>::empty());
    extend_chars(&mut out, &chars_of("'"));
    string_of(&out)
}

/// The name of a temporary file of one run: `champr-lcu-{token}.{ext}`.
pub fn temp_file_name(token: &str, extension: &str) -> (r: String)
    ensures
        r@ == "champr-lcu-"@ + token@ + "."@ + extension@,
{
    let mut v = chars_of("champr-lcu-");
    extend_chars(&mut v, &chars_of(token));
    extend_chars(&mut v, &chars_of("."));
    extend_chars(&mut v, &chars_of(extension));
    string_of(&v)
}

pub open spec fn inner_script_head() -> Seq<char> {
    "$ErrorActionPreference = 'Stop'\ntry {\n    $result = & { "@
}

pub open spec fn inner_script_after_command() -> Seq<char> {
    " } | Out-String\n    [System.IO.File]::WriteAllText("@
}

pub open spec fn inner_script_after_stdout() -> Seq<char> {
    ", $result, [System.Text.Encoding]::UTF8)\n    exit 0\n} catch {\n    [System.IO.File]::WriteAllText("@
}

pub open spec fn inner_script_tail() -> Seq<char> {
    ", ($_ | Out-String), [System.Text.Encoding]::UTF8)\n    exit 1\n}\n"@
}

/// The script that runs elevated: it runs `command`, writes its output to
/// the file `stdout_path` names and exits 0, or writes the error to the
/// file `stderr_path` names and exits 1 (both paths as literals).
pub fn elevated_inner_script(command: &str, stdout_path: &str, stderr_path: &str) -> (r: String)
    ensures
        r@ == inner_script_head() + command@ + inner_script_after_command() + ps_literal_spec(
            stdout_path@,
        ) + inner_script_after_stdout() + ps_literal_spec(stderr_path@) + inner_script_tail(),
{
    let mut v = chars_of("$ErrorActionPreference = 'Stop'\ntry {\n    $result = & { ");
    extend_chars(&mut v, &chars_of(command));
    extend_chars(&mut v, &chars_of(" } | Out-String\n    [System.IO.File]::WriteAllText("));
    extend_chars(&mut v, &chars_of(ps_literal(stdout_path).as_str()));
    extend_chars(
        &mut v,
        &chars_of(
            ", $result, [System.Text.Encoding]::UTF8)\n    exit 0\n} catch {\n    [System.IO.File]::WriteAllText(",
        ),
    );
    extend_chars(&mut v, &chars_of(ps_literal(stderr_path).as_str()));
    extend_chars(
        &mut v,
        &chars_of(", ($_ | Out-String), [System.Text.Encoding]::UTF8)\n    exit 1\n}\n"),
    );
    string_of(&v)
}

pub open spec fn launch_script_head() -> Seq<char> {
    "$ErrorActionPreference = 'Stop'\n$proc = Start-Process -FilePath 'PowerShell.exe' -Verb RunAs -WindowStyle Hidden -Wait -PassThru -ArgumentList @('-NoProfile','-NonInteractive','-ExecutionPolicy','Bypass','-File',"@
}

pub open spec fn launch_script_tail() -> Seq<char> {
    ")\nif ($null -eq $proc) {\n    exit 1\n}\nexit $proc.ExitCode\n"@
}

/// The script that starts an elevated PowerShell on the script file and
/// exits with its exit code (1 where it could not be started).
pub fn elevated_launch_script(script_path: &str) -> (r: String)
    ensures
        r@ == launch_script_head() + ps_literal_spec(script_path@) + launch_script_tail(),
{
    let mut v = chars_of(
        "$ErrorActionPreference = 'Stop'\n$proc = Start-Process -FilePath 'PowerShell.exe' -Verb RunAs -WindowStyle Hidden -Wait -PassThru -ArgumentList @('-NoProfile','-NonInteractive','-ExecutionPolicy','Bypass','-File',",
    );
    extend_chars(&mut v, &chars_of(ps_literal(script_path).as_str()));
    extend_chars(&mut v, &chars_of(")\nif ($null -eq $proc) {\n    exit 1\n}\nexit $proc.ExitCode\n"));
    string_of(&v)
}

/// The exit code of the elevated run: the launcher's code where it has
/// one, else 0 when it succeeded and 1 when it failed.
pub fn elevated_exit_code(launch_succeeded: bool, code: Option<i32>) -> (r: i32)
    ensures
        r == match code {
            Some(c) => c,
            None => if launch_succeeded {
                0i32
            } else {
                1i32
            },
        },
{
    match code {
        Some(c) => c,
        None => if launch_succeeded {
            0
        } else {
            1
        },
    }
}

/// The error output of the elevated run: what the script wrote, or the
/// launcher's where the script wrote nothing.
pub fn elevated_stderr(script_stderr: Vec<u8>, launcher_stderr: Vec<u8>) -> (r: Vec<u8>)
    ensures
        r@ == if script_stderr@.len() == 0 {
            launcher_stderr@
        } else {
            script_stderr@
        },
{
    if script_stderr.len() == 0 {
        launcher_stderr
    } else {
        script_stderr
    }
}

/// Encodes the UTF-8 bytes of `text` with
/// `base64::engine::general_purpose::STANDARD_NO_PAD`: the standard
/// alphabet, without padding.
#[verifier::external_body]
fn encode_no_pad(text: &str) -> (r: String)
    ensures
        r@ == base64_no_pad(encode_utf8(text@)),
{
    base64::engine::general_purpose::STANDARD_NO_PAD.encode(text)
}

pub open spec fn string_seq_views(v: Seq<String>) -> Seq<Seq<char>> {
    v.map_values(|s: String| s@)
}

/// The arguments with which the helper executable applies a rune page:
/// `rune`, the token, the port and the page's UTF-8 bytes in Base64
/// without padding.
pub fn rune_command_args(token: &String, port: &String, perk: &String) -> (r: Vec<String>)
    ensures
        string_seq_views(r@) == seq!["rune"@, token@, port@, base64_no_pad(encode_utf8(perk@))],
{
    let mut v: Vec<String> = Vec::new();
    v.push(string_of(&chars_of("rune")));
    v.push(token.clone());
    v.push(port.clone());
    v.push(encode_no_pad(perk.as_str()));
    assert(string_seq_views(v@) =~= seq!["rune"@, token@, port@, base64_no_pad(encode_utf8(perk@))]);
    v
}

/// The arguments with which the helper executable checks that the client
/// is ready: `check`, the directory, and `1` for the Tencent client or
/// `0`.
pub fn server_check_args(dir: &String, is_tencent: bool) -> (r: Vec<String>)
    ensures
        string_seq_views(r@) == seq![
            "check"@,
            dir@,
            if is_tencent {
                "1"@
            } else {
                "0"@
            },
        ],
{
    let mut v: Vec<String> = Vec::new();
    v.push(string_of(&chars_of("check")));
    v.push(dir.clone());
    v.push(string_of(&chars_of(if is_tencent { "1" } else { "0" })));
    assert(string_seq_views(v@) =~= seq![
        "check"@,
        dir@,
        if is_tencent {
            "1"@
        } else {
            "0"@
        },
    ]);
    v
}

/// The arguments with which the helper executable tests the connection:
/// `test`, the token and the port.
pub fn connectivity_test_args(token: &String, port: &String) -> (r: Vec<String>)
    ensures
        string_seq_views(r@) == seq!["test"@, token@, port@],
{
    let mut v: Vec<String> = Vec::new();
    v.push(string_of(&chars_of("test")));
    v.push(token.clone());
    v.push(port.clone());
    assert(string_seq_views(v@) =~= seq!["test"@, token@, port@]);
    v
}

/// Whether some line begins with `prefix`.
pub open spec fn some_line_starts_with(ls: Seq<Seq<char>>, prefix: Seq<char>) -> bool {
    exists|i: int| 0 <= i < ls.len() && starts_with(#[trigger] ls[i], prefix)
}

fn any_line_starts_with(lines: &Vec<String>, prefix: &str) -> (r: bool)
    ensures
        r == some_line_starts_with(string_seq_views(lines@), prefix@),
{
    let p = chars_of(prefix);
    let ghost sv = string_seq_views(lines@);
    let mut i: usize = 0;
    while i < lines.len()
        invariant
            i <= lines.len(),
            p@ == prefix@,
            sv == string_seq_views(lines@),
            forall|k: int| 0 <= k < i ==> !starts_with(#[trigger] sv[k], prefix@),
        decreases lines.len() - i,
    {
        assert(sv[i as int] == lines@[i as int]@);
        if crate::text::occurs_at_vec(&chars_of(lines[i].as_str()), &p, 0) {
            return true;
        }
        i = i + 1;
    }
    false
}

/// Whether the client is ready, from the helper's output (the lines read
/// before any read error) and the install directory: a known directory,
/// and no line that begins with `=== tencent_sucks`.
pub fn server_ready_from_output(dir: &String, lines: &Vec<String>) -> (r: bool)
    ensures
        r == (dir@.len() > 0 && !some_line_starts_with(
            string_seq_views(lines@),
            "=== tencent_sucks"@,
        )),
{
    if dir.as_str().unicode_len() == 0 {
        return false;
    }
    !any_line_starts_with(lines, "=== tencent_sucks")
}

/// Whether the helper reached the client: some line of its output (read
/// before any read error) begins with `=== connected`.
pub fn connected_from_output(lines: &Vec<String>) -> (r: bool)
    ensures
        r == some_line_starts_with(string_seq_views(lines@), "=== connected"@),
{
    any_line_starts_with(lines, "=== connected")
}

} // verus!
