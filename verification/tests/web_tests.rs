use champr::web::{
    parse_build_file,
    builds_by_alias_url, builds_by_id_url, champion_list_url, find_env_file_value, is_build_file,
    normalize_service_url, npm_output_dir, package_folder, package_url, parse_env_value,
    resolve_service_url_from_sources, runes_url, versions_url, DEFAULT_LOCAL_SERVICE_URL,
    SERVER_URL_ENV_KEY,
};

#[test]
fn parse_env_value_supports_quotes_and_comments() {
    let contents = r#"
            # ignored
            CHAMPR_SERVER_URL="http://127.0.0.1:3030/"
        "#;

    assert_eq!(
        parse_env_value(contents, SERVER_URL_ENV_KEY).as_deref(),
        Some("http://127.0.0.1:3030")
    );
}

#[test]
fn resolve_service_url_prefers_runtime_env() {
    assert_eq!(
        resolve_service_url_from_sources(
            Some("http://runtime.local:3030/"),
            Some("http://env-file.local:3030"),
            true,
            "http://build.local:3030",
        ),
        "http://runtime.local:3030"
    );
}

#[test]
fn resolve_service_url_prefers_env_file_over_defaults() {
    assert_eq!(
        resolve_service_url_from_sources(
            None,
            Some("http://env-file.local:3030/"),
            true,
            "http://build.local:3030",
        ),
        "http://env-file.local:3030"
    );
}

#[test]
fn resolve_service_url_uses_local_default_for_debug_runs() {
    assert_eq!(
        resolve_service_url_from_sources(None, None, true, "http://build.local:3030"),
        DEFAULT_LOCAL_SERVICE_URL
    );
}

#[test]
fn resolve_service_url_uses_build_url_for_packaged_runs() {
    assert_eq!(
        resolve_service_url_from_sources(None, None, false, "http://build.local:3030"),
        "http://build.local:3030"
    );
}

#[test]
fn blank_runtime_env_falls_through_to_env_file() {
    assert_eq!(
        resolve_service_url_from_sources(
            Some("  ''  "),
            Some("'http://env-file.local:3030//'"),
            false,
            "http://build.local:3030",
        ),
        "http://env-file.local:3030"
    );
}

#[test]
fn normalize_service_url_strips_quotes_space_and_slashes() {
    assert_eq!(normalize_service_url("  \"http://a.b/c///\"  ").as_deref(), Some("http://a.b/c"));
    assert_eq!(normalize_service_url(" \"/\" "), None);
    assert_eq!(normalize_service_url(""), None);
    // Trailing space inside the quotes survives: trimming happens before unquoting.
    assert_eq!(normalize_service_url("\"a /\"").as_deref(), Some("a "));
}

#[test]
fn parse_env_value_handles_export_and_first_match() {
    let contents = "OTHER=1\r\nexport CHAMPR_SERVER_URL = 'http://x.local/'\nCHAMPR_SERVER_URL=http://y.local\n";
    assert_eq!(
        parse_env_value(contents, "CHAMPR_SERVER_URL").as_deref(),
        Some("http://x.local")
    );
    assert_eq!(parse_env_value("NOEQUALS\n#CHAMPR_SERVER_URL=a", "CHAMPR_SERVER_URL"), None);
    // The first assignment decides, even when its value is empty.
    assert_eq!(parse_env_value("KEY=\nKEY=b", "KEY"), None);
    assert_eq!(parse_env_value("", "KEY"), None);
}

#[test]
fn find_env_file_value_takes_first_file_that_assigns() {
    let files = vec![
        None,
        Some("OTHER=1".to_string()),
        Some("CHAMPR_SERVER_URL=http://second.local/".to_string()),
        Some("CHAMPR_SERVER_URL=http://third.local".to_string()),
    ];
    assert_eq!(
        find_env_file_value(&files, "CHAMPR_SERVER_URL").as_deref(),
        Some("http://second.local")
    );
    assert_eq!(find_env_file_value(&vec![None, None], "CHAMPR_SERVER_URL"), None);
}

#[test]
fn urls_are_built_from_their_parts() {
    assert_eq!(versions_url(), "https://ddragon.leagueoflegends.com/api/versions.json");
    assert_eq!(
        champion_list_url("14.1.1"),
        "https://ddragon.leagueoflegends.com/cdn/14.1.1/data/en_US/champion.json"
    );
    assert_eq!(
        runes_url("14.1.1"),
        "https://ddragon.leagueoflegends.com/cdn/14.1.1/data/en_US/runesReforged.json"
    );
    assert_eq!(
        builds_by_alias_url("http://s", "op.gg", "rengar"),
        "http://s/api/source/op.gg/champion-alias/rengar"
    );
    assert_eq!(
        builds_by_id_url("http://s", "op.gg", 107),
        "http://s/api/source/op.gg/champion-id/107"
    );
    assert_eq!(
        builds_by_id_url("http://s", "op.gg", -9223372036854775808),
        "http://s/api/source/op.gg/champion-id/-9223372036854775808"
    );
    assert_eq!(package_url("op.gg"), "https://mirrors.cloud.tencent.com/npm/@champ-r/op.gg/latest");
    assert_eq!(npm_output_dir("op.gg"), ".npm/op.gg");
    assert_eq!(package_folder(".npm/op.gg"), ".npm/op.gg/package");
}

#[test]
fn build_files_exclude_package_metadata() {
    assert!(is_build_file(true, "rengar.json"));
    assert!(!is_build_file(true, "package.json"));
    assert!(!is_build_file(true, "index.json"));
    assert!(!is_build_file(false, "rengar.json"));
}

#[test]
fn build_files_must_hold_json() {
    let v = parse_build_file("a/op.gg.json", "[{\"alias\":\"rengar\"}]").unwrap();
    assert_eq!(v[0]["alias"], "rengar");
    assert_eq!(
        parse_build_file("a/bad.json", "{").unwrap_err(),
        "Failed to parse JSON in file: a/bad.json"
    );
}
