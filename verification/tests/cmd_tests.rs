use champr::cmd::{
    check_if_lol_running, cmd_output_from_lines, command_line_from_matches, connected_from_output,
    connectivity_test_args, elevated_exit_code, elevated_inner_script, elevated_launch_script,
    elevated_stderr, get_lcu_process_id, make_auth_url, match_stdout, ps_literal,
    rune_command_args, server_check_args, server_ready_from_output, start_check_cmd_task,
    temp_file_name, update_cmd_output_task, CommandLineOutput,
};

const WINDOWS_LINE: &str = r#""C:/Riot Games/League of Legends/LeagueClientUx.exe" "--riotclient-auth-token=xyz" "--riotclient-app-port=53000" "--remoting-auth-token=AbC123" "--app-port=60123" "--install-directory=C:/Riot Games/League of Legends" "--region=NA""#;

#[test]
fn make_auth_url_formats_token_and_port() {
    assert_eq!(
        make_auth_url(&"tok".to_string(), &"1234".to_string()),
        "riot:tok@127.0.0.1:1234"
    );
}

#[test]
fn match_stdout_reads_a_windows_command_line() {
    let out = match_stdout(WINDOWS_LINE);
    assert_eq!(out.port, "60123");
    assert_eq!(out.token, "AbC123");
    assert_eq!(out.auth_url, "riot:AbC123@127.0.0.1:60123");
    assert!(!out.is_tencent);
    assert_eq!(out.dir, "C:/Riot Games/League of Legends/");
}

#[test]
fn match_stdout_detects_the_tencent_client() {
    let line = r#""D:/WeGameApps/LeagueClientUx.exe" "--remoting-auth-token=t\"k" "--app-port=1" "--install-directory=D:/WeGameApps/LeagueClient" "--region=TENCENT""#;
    let out = match_stdout(line);
    assert!(out.is_tencent);
    assert_eq!(out.token, "tk");
    assert_eq!(out.dir, "D:/WeGameApps/LeagueClient/..");
}

#[test]
fn match_stdout_without_arguments_gives_defaults() {
    let out = match_stdout("nothing here");
    assert_eq!(
        out,
        CommandLineOutput {
            auth_url: "riot:@127.0.0.1:0".to_string(),
            is_tencent: false,
            token: String::new(),
            port: "0".to_string(),
            dir: "/".to_string(),
        }
    );
}

#[test]
fn command_line_from_matches_strips_keys() {
    let out = command_line_from_matches(
        Some("--app-port=42".to_string()),
        Some("--remoting-auth-token=\\secret\"".to_string()),
        Some("--region=\"TENCENT\"".to_string()),
        Some("--install-directory=\"C:/LoL\"".to_string()),
    );
    assert_eq!(out.port, "42");
    assert_eq!(out.token, "secret");
    assert!(out.is_tencent);
    assert_eq!(out.dir, "C:/LoL/..");
    assert_eq!(out.auth_url, "riot:secret@127.0.0.1:42");
}

#[test]
fn ps_lines_use_the_first_client_line() {
    let lines = vec![
        "  501 ttys000 grep LeagueClientUx".to_string(),
        "  77 ?? /Applications/League of Legends.app/LeagueClientUx --remoting-auth-token=abc --app-port=5555 --install-directory=/Applications/League --region=EUW".to_string(),
    ];
    let out = cmd_output_from_lines(&lines, false).unwrap();
    assert_eq!(out.port, "5555");
    assert_eq!(out.token, "abc");
    assert_eq!(out.dir, "/Applications/League");
    assert_eq!(out.auth_url, "riot:abc@127.0.0.1:5555");
}

#[test]
fn ps_lines_without_client_give_empty_or_error() {
    let lines = vec!["no client".to_string()];
    assert_eq!(cmd_output_from_lines(&lines, false), Ok(CommandLineOutput::default()));
    assert_eq!(cmd_output_from_lines(&lines, true), Err(()));
}

#[test]
fn process_id_is_read_from_trimmed_output() {
    assert_eq!(get_lcu_process_id(Some(" 4242\r\n")), Some(4242));
    assert_eq!(get_lcu_process_id(Some("+7")), Some(7));
    assert_eq!(get_lcu_process_id(Some("4294967295")), Some(u32::MAX));
    assert_eq!(get_lcu_process_id(Some("4294967296")), None);
    assert_eq!(get_lcu_process_id(Some("-1")), None);
    assert_eq!(get_lcu_process_id(Some("")), None);
    assert_eq!(get_lcu_process_id(Some("12a")), None);
    assert_eq!(get_lcu_process_id(None), None);
}

#[test]
fn running_client_needs_an_auth_url() {
    let mut out = CommandLineOutput::default();
    assert!(!check_if_lol_running(&Ok(out.clone())));
    assert!(!check_if_lol_running(&Err(())));
    out.auth_url = "riot:x@127.0.0.1:1".to_string();
    assert!(check_if_lol_running(&Ok(out)));
}

#[test]
fn update_keeps_previous_output_on_failure() {
    start_check_cmd_task();
    let mut current = CommandLineOutput::default();
    let fresh = match_stdout(WINDOWS_LINE);
    update_cmd_output_task(&mut current, Ok(fresh.clone()));
    assert_eq!(current, fresh);
    update_cmd_output_task(&mut current, Err(()));
    assert_eq!(current, fresh);
}

fn strings(v: &[&str]) -> Vec<String> {
    v.iter().map(|s| s.to_string()).collect()
}

#[test]
fn helper_arguments_encode_the_rune_page() {
    assert_eq!(
        rune_command_args(&"tok".to_string(), &"123".to_string(), &"{\"a\":1}".to_string()),
        strings(&["rune", "tok", "123", "eyJhIjoxfQ"])
    );
    assert_eq!(
        rune_command_args(&"t".to_string(), &"1".to_string(), &"perk page".to_string())[3],
        "cGVyayBwYWdl"
    );
    assert_eq!(
        server_check_args(&"C:/LoL".to_string(), true),
        strings(&["check", "C:/LoL", "1"])
    );
    assert_eq!(server_check_args(&"d".to_string(), false)[2], "0");
    assert_eq!(
        connectivity_test_args(&"tok".to_string(), &"9".to_string()),
        strings(&["test", "tok", "9"])
    );
}

#[test]
fn helper_output_decides_readiness_and_connection() {
    let dir = "C:/LoL".to_string();
    assert!(server_ready_from_output(&dir, &strings(&["=== ok", "x"])));
    assert!(!server_ready_from_output(&dir, &strings(&["a", "=== tencent_sucks now"])));
    assert!(server_ready_from_output(&dir, &strings(&[" === tencent_sucks"])));
    assert!(!server_ready_from_output(&String::new(), &strings(&[])));
    assert!(connected_from_output(&strings(&["x", "=== connected!"])));
    assert!(!connected_from_output(&strings(&["connected", " === connected"])));
}

#[test]
fn powershell_literals_and_scripts() {
    assert_eq!(ps_literal("C:/it's/here"), "'C:/it''s/here'");
    assert_eq!(ps_literal(""), "''");
    assert_eq!(temp_file_name("abc", "ps1"), "champr-lcu-abc.ps1");
    let inner = elevated_inner_script("Get-Thing", "o'ut", "err");
    assert!(inner.starts_with("$ErrorActionPreference = 'Stop'\ntry {\n    $result = & { Get-Thing } | Out-String"));
    assert!(inner.contains("WriteAllText('o''ut', $result"));
    assert!(inner.contains("WriteAllText('err', ($_ | Out-String)"));
    assert!(inner.ends_with("exit 1\n}\n"));
    let launch = elevated_launch_script("s.ps1");
    assert!(launch.contains("'-File','s.ps1')"));
    assert!(launch.ends_with("exit $proc.ExitCode\n"));
}

#[test]
fn elevated_run_outcome() {
    assert_eq!(elevated_exit_code(true, Some(5)), 5);
    assert_eq!(elevated_exit_code(true, None), 0);
    assert_eq!(elevated_exit_code(false, None), 1);
    assert_eq!(elevated_stderr(vec![], vec![1, 2]), vec![1, 2]);
    assert_eq!(elevated_stderr(vec![3], vec![1, 2]), vec![3]);
}
