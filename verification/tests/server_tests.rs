use base64::engine::general_purpose::STANDARD;
use base64::Engine;
use serde_json::Value;
use champr::auth::{
    basic_credentials, basic_login, bearer_login, bearer_subject, claims_for, subject_from_claims,
    TokenClaims, issue_jwt, ensure_active_user, hash_password,
    parse_authorization, require_admin, require_user, validate_password, verify_password,
    AuthScheme, AuthenticatedUser,
};
use champr::config::{env_or_dotenv, find_dotenv_value, normalize_env_value, parse_env_value, Config};
use champr::error::{AppError, ErrorKind};
use champr::models::{
    db_bool, format_timestamp, normalize_alias, normalize_email, normalize_mode,
    normalize_source_key, now_rfc3339, ChampionDataRecord, ChampionDataResponse, PublicSource,
    PublicUser, SourceRecord, UserRecord, UserRole,
};
use champr::server::{
    bootstrap_admin_row, check_found_source, check_self_deactivation, db_err, local_access_url,
    login_check, login_email, prepare_new_source, prepare_new_user, prepare_source_update,
    prepare_user_update, public_sources, public_users, source_lookup, sqlite_path_from_url, sqlite_path_needs_dir,
    validate_champion_request, champion_fields, SourceLookup,
};
use champr::models::{
    CreateSourceRequest, CreateUserRequest, LoginRequest, UpdateSourceRequest, UpdateUserRequest,
    UpsertChampionDataRequest,
};

fn user(role: &str, active: i64, password: &str) -> UserRecord {
    UserRecord {
        id: 7,
        email: "admin@example.com".to_string(),
        password_hash: hash_password(password).unwrap(),
        role: role.to_string(),
        is_active: active,
        created_at: "1".to_string(),
        updated_at: "2".to_string(),
    }
}

fn source(id: i64, key: &str) -> SourceRecord {
    SourceRecord {
        id,
        key: key.to_string(),
        label: "OP.GG".to_string(),
        is_active: 1,
        created_at: "1".to_string(),
        updated_at: "2".to_string(),
    }
}

fn upsert(version: &str, id: i64, alias: &str) -> UpsertChampionDataRequest {
    UpsertChampionDataRequest {
        source_id: None,
        source_key: Some("op.gg".to_string()),
        champion_id: id,
        champion_alias: alias.to_string(),
        mode: None,
        version: version.to_string(),
        content: serde_json::Value::Array(vec![serde_json::Value::String("build".to_string())]),
    }
}

fn basic(raw: &str) -> String {
    STANDARD.encode(raw)
}

#[test]
fn role_names_round_trip() {
    for role in [UserRole::Admin, UserRole::User] {
        assert_eq!(UserRole::from_db(role.as_str()), Some(role));
    }
    assert_eq!(UserRole::Admin.as_str(), "admin");
    assert_eq!(UserRole::from_db("Admin"), None);
}

#[test]
fn hashed_password_verifies_only_itself() {
    let hash = hash_password("password123").unwrap();
    assert_ne!(hash, "password123");
    assert!(hash.starts_with("$argon2id$"));
    assert_eq!(verify_password(&hash, "password123").unwrap(), true);
    assert_eq!(verify_password(&hash, "password124").unwrap(), false);
    let err = verify_password("not a phc string", "password123").unwrap_err();
    assert_eq!(err.kind(), ErrorKind::Internal);
}

#[test]
fn short_passwords_are_refused() {
    let err = hash_password("short").unwrap_err();
    assert_eq!(err.kind(), ErrorKind::BadRequest);
    assert_eq!(err.message(), "password must be at least 8 characters");
    assert!(validate_password("12345678").is_ok());
    // Eight bytes, fewer characters.
    assert!(validate_password("ééééé").is_ok());
    assert_eq!(err.status_code(), 400);
}

#[test]
fn authorization_schemes_are_recognized() {
    match parse_authorization("Bearer abc.def").unwrap() {
        AuthScheme::Bearer(t) => assert_eq!(t, "abc.def"),
        other => panic!("unexpected {:?}", other),
    }
    match parse_authorization("Basic Zm9v").unwrap() {
        AuthScheme::Basic(t) => assert_eq!(t, "Zm9v"),
        other => panic!("unexpected {:?}", other),
    }
    let err = parse_authorization("Digest x").unwrap_err();
    assert_eq!(err.kind(), ErrorKind::Unauthorized);
    assert_eq!(err.message(), "unsupported authorization scheme");
}

#[test]
fn basic_credentials_are_decoded_and_normalized() {
    let (email, password) = basic_credentials(&basic(" Admin@Example.com :pass:word")).unwrap();
    assert_eq!(email, "admin@example.com");
    assert_eq!(password, "pass:word");
    assert_eq!(
        basic_credentials("%%%").unwrap_err().message(),
        "invalid basic auth encoding"
    );
    assert_eq!(
        basic_credentials(&STANDARD.encode([0xff, 0xfe])).unwrap_err().message(),
        "invalid basic auth payload"
    );
    assert_eq!(
        basic_credentials(&basic("admin@example.com")).unwrap_err().message(),
        "basic auth requires email and password"
    );
}

#[test]
fn normal_user_is_forbidden_from_admin_routes_decision() {
    let u = user("user", 1, "password123");
    let authed = basic_login(Some(u), "password123").unwrap();
    assert_eq!(authed.role, UserRole::User);
    let err = require_admin(authed).unwrap_err();
    assert_eq!(err.kind(), ErrorKind::Forbidden);
    assert_eq!(err.status_code(), 403);
}

#[test]
fn basic_login_checks_password_and_activity() {
    let admin = user("admin", 1, "password123");
    let ok = basic_login(Some(admin.clone()), "password123").unwrap();
    assert!(ok.is_admin());
    assert_eq!(ok.id, 7);
    assert_eq!(basic_login(Some(admin), "wrong-password").unwrap_err().message(), "invalid credentials");
    assert_eq!(basic_login(None, "password123").unwrap_err().message(), "invalid credentials");
    let inactive = user("admin", 0, "password123");
    assert_eq!(basic_login(Some(inactive), "password123").unwrap_err().message(), "user is inactive");
}

#[test]
fn active_users_need_a_known_role() {
    let mut u = user("admin", 1, "password123");
    u.role = "root".to_string();
    let err = ensure_active_user(u).unwrap_err();
    assert_eq!(err.kind(), ErrorKind::Internal);
    assert_eq!(err.message(), "invalid role root");
    assert_eq!(bearer_login(None).unwrap_err().message(), "user not found");
    assert!(bearer_login(Some(user("user", 1, "password123"))).is_ok());
}

#[test]
fn require_user_needs_authentication() {
    assert_eq!(require_user(None).unwrap_err().message(), "missing authorization");
    let u = AuthenticatedUser { id: 1, role: UserRole::Admin };
    assert_eq!(require_user(Some(u.clone())).unwrap().id, 1);
    assert!(require_admin(u).is_ok());
}

#[test]
fn claims_expire_after_a_week() {
    let u = user("admin", 1, "password123");
    let c = claims_for(&u, 1_000);
    assert_eq!(c.sub, 7);
    assert_eq!(c.role, "admin");
    assert_eq!(c.iat, 1_000);
    assert_eq!(c.exp, 1_000 + 604_800);
}

#[test]
fn normalizers_trim_and_lowercase() {
    assert_eq!(normalize_email("  Admin@Example.COM \n"), "admin@example.com");
    assert_eq!(normalize_source_key(" OP.GG "), "op.gg");
    assert_eq!(normalize_alias(" Miss Fortune\t"), "missfortune");
    assert_eq!(normalize_alias("Rengar"), "rengar");
    assert_eq!(normalize_mode(None), "ranked");
    assert_eq!(normalize_mode(Some("   ")), "ranked");
    assert_eq!(normalize_mode(Some(" ARAM ")), "aram");
    assert_eq!(db_bool(true), 1);
    assert_eq!(db_bool(false), 0);
}

#[test]
fn timestamps_are_decimal_seconds() {
    assert_eq!(format_timestamp(0), "0");
    assert_eq!(format_timestamp(1712345678), "1712345678");
    assert_eq!(format_timestamp(u64::MAX), "18446744073709551615");
    let now = now_rfc3339();
    assert!(!now.is_empty() && now.chars().all(|c| c.is_ascii_digit()));
    assert!(now.parse::<u64>().unwrap() > 1_600_000_000);
}

#[test]
fn public_views_of_records() {
    let u = user("admin", 1, "password123");
    let p = PublicUser::try_from(u.clone()).unwrap();
    assert_eq!(p.role, UserRole::Admin);
    assert!(p.is_active);
    let mut bad = u;
    bad.role = "owner".to_string();
    assert_eq!(PublicUser::try_from(bad).unwrap_err(), "unsupported role owner");

    let s = PublicSource::from(source(3, "u.gg"));
    assert_eq!(s.value, "u.gg");
    assert_eq!(s.label, "OP.GG");
    assert!(s.is_active);
}

#[test]
fn champion_data_response_reads_stored_payload() {
    let record = ChampionDataRecord {
        id: 1,
        source_id: 2,
        source_key: "op.gg".to_string(),
        mode: "ranked".to_string(),
        version: "16.6.2".to_string(),
        champion_id: 107,
        champion_alias: "rengar".to_string(),
        payload: "[{\"build\":\"latest\"}]".to_string(),
        created_at: "1".to_string(),
        updated_at: "2".to_string(),
    };
    let resp = ChampionDataResponse::try_from_record(record.clone()).unwrap();
    assert_eq!(resp.champion_id, "107");
    assert_eq!(resp.source, "op.gg");
    assert_eq!(resp.content[0]["build"], "latest");
    let mut broken = record;
    broken.payload = "{".to_string();
    let err = ChampionDataResponse::try_from_record(broken).unwrap_err();
    assert!(err.starts_with("invalid stored payload: "));
}

#[test]
fn champion_requests_are_validated() {
    assert!(validate_champion_request(&upsert("16.6.1", 107, "rengar")).is_ok());
    assert_eq!(
        validate_champion_request(&upsert("  ", 107, "rengar")).unwrap_err().message(),
        "version is required"
    );
    assert_eq!(
        validate_champion_request(&upsert("1", 0, "rengar")).unwrap_err().message(),
        "champion_id must be positive"
    );
    assert_eq!(
        validate_champion_request(&upsert("1", 1, " \t ")).unwrap_err().message(),
        "champion_alias is required"
    );
    let fields = champion_fields(&upsert("16.6.2", 107, "Rengar")).unwrap();
    assert_eq!(fields.alias, "rengar");
    assert_eq!(fields.mode, "ranked");
    assert_eq!(fields.payload, "[\"build\"]");
}

#[test]
fn sources_are_looked_up_by_id_or_key() {
    match source_lookup(Some(3), Some(" OP.GG ")).unwrap() {
        SourceLookup::ById(3, Some(k)) => assert_eq!(k, "op.gg"),
        other => panic!("unexpected {:?}", other),
    }
    match source_lookup(None, Some("U.GG")).unwrap() {
        SourceLookup::ByKey(k) => assert_eq!(k, "u.gg"),
        other => panic!("unexpected {:?}", other),
    }
    assert_eq!(
        source_lookup(None, None).unwrap_err().message(),
        "source_id or source_key is required"
    );
    assert_eq!(check_found_source(None, None).unwrap_err().message(), "source not found");
    assert_eq!(
        check_found_source(Some(source(3, "op.gg")), Some("u.gg".to_string())).unwrap_err().message(),
        "source_id and source_key refer to different sources"
    );
    assert_eq!(check_found_source(Some(source(3, "op.gg")), Some("op.gg".to_string())).unwrap().id, 3);
}

#[test]
fn database_errors_are_classified() {
    let e = db_err("UNIQUE constraint failed: users.email".to_string());
    assert_eq!(e.kind(), ErrorKind::Conflict);
    assert_eq!(e.status_code(), 409);
    assert_eq!(db_err("disk I/O error".to_string()).kind(), ErrorKind::Internal);
    assert!(matches!(AppError::internal("x".to_string()), AppError::Internal(_)));
}

#[test]
fn new_users_are_normalized_and_hashed() {
    let req = CreateUserRequest {
        email: " Admin@Example.com".to_string(),
        password: "password123".to_string(),
        role: UserRole::Admin,
        is_active: None,
    };
    let row = prepare_new_user(&req).unwrap();
    assert_eq!(row.email, "admin@example.com");
    assert_eq!(row.role, "admin");
    assert_eq!(row.is_active, 1);
    assert!(verify_password(&row.password_hash, "password123").unwrap());
    let blank = CreateUserRequest { email: "  ".to_string(), ..req };
    assert_eq!(prepare_new_user(&blank).unwrap_err().message(), "email is required");
}

#[test]
fn user_updates_keep_what_is_left_out() {
    let current = user("user", 1, "password123");
    let row = prepare_user_update(
        Some(current.clone()),
        UpdateUserRequest { password: None, role: None, is_active: None },
    )
    .unwrap();
    assert_eq!(row.password_hash, current.password_hash);
    assert_eq!(row.role, "user");
    assert_eq!(row.is_active, 1);
    let row = prepare_user_update(
        Some(current.clone()),
        UpdateUserRequest {
            password: Some("new-password".to_string()),
            role: Some(UserRole::Admin),
            is_active: Some(false),
        },
    )
    .unwrap();
    assert!(verify_password(&row.password_hash, "new-password").unwrap());
    assert_eq!(row.role, "admin");
    assert_eq!(row.is_active, 0);
    assert_eq!(
        prepare_user_update(None, UpdateUserRequest { password: None, role: None, is_active: None })
            .unwrap_err()
            .message(),
        "user not found"
    );
    assert_eq!(
        prepare_user_update(
            Some(current.clone()),
            UpdateUserRequest { password: Some("short".to_string()), role: None, is_active: None },
        )
        .unwrap_err()
        .message(),
        "password must be at least 8 characters"
    );
    let mut odd = current;
    odd.role = "root".to_string();
    assert_eq!(
        prepare_user_update(Some(odd), UpdateUserRequest { password: None, role: Some(UserRole::User), is_active: None })
            .unwrap_err()
            .message(),
        "invalid stored role"
    );
}

#[test]
fn basic_auth_works_for_admin_requests_decision() {
    let row = prepare_new_source(&CreateSourceRequest {
        key: "u.gg".to_string(),
        label: "U.GG".to_string(),
        is_active: None,
    })
    .unwrap();
    assert_eq!(row.key, "u.gg");
    assert_eq!(row.label, "U.GG");
    assert_eq!(row.is_active, 1);
    assert_eq!(
        prepare_new_source(&CreateSourceRequest { key: " ".to_string(), label: "x".to_string(), is_active: None })
            .unwrap_err()
            .message(),
        "source key and label are required"
    );
}

#[test]
fn source_updates_merge_fields() {
    let row = prepare_source_update(
        Some(source(1, "op.gg")),
        UpdateSourceRequest { key: Some(" NEW ".to_string()), label: None, is_active: Some(false) },
    )
    .unwrap();
    assert_eq!(row.key, "new");
    assert_eq!(row.label, "OP.GG");
    assert_eq!(row.is_active, 0);
    let mut padded = source(2, "u.gg");
    padded.label = "  U.GG ".to_string();
    padded.is_active = 0;
    let kept = prepare_source_update(
        Some(padded),
        UpdateSourceRequest { key: None, label: None, is_active: None },
    )
    .unwrap();
    assert_eq!(kept.key, "u.gg");
    assert_eq!(kept.label, "U.GG");
    assert_eq!(kept.is_active, 0);
    assert_eq!(
        prepare_source_update(None, UpdateSourceRequest { key: None, label: None, is_active: None })
            .unwrap_err()
            .message(),
        "source not found"
    );
}

#[test]
fn logins_check_credentials_in_order() {
    let req = LoginRequest { email: " ".to_string(), password: "x".to_string() };
    assert_eq!(login_email(&req).unwrap_err().message(), "email and password are required");
    let req = LoginRequest { email: "A@B.C".to_string(), password: "x".to_string() };
    assert_eq!(login_email(&req).unwrap(), "a@b.c");
    let u = user("admin", 1, "password123");
    assert_eq!(login_check(Some(u.clone()), "password123").unwrap().id, 7);
    assert_eq!(login_check(Some(u), "nope-nope").unwrap_err().message(), "invalid credentials");
    let inactive = user("admin", 0, "password123");
    assert_eq!(login_check(Some(inactive), "whatever").unwrap_err().message(), "user is inactive");
    assert_eq!(login_check(None, "x").unwrap_err().kind(), ErrorKind::Unauthorized);
}

#[test]
fn admins_cannot_deactivate_themselves() {
    let admin = AuthenticatedUser { id: 1, role: UserRole::Admin };
    let off = UpdateUserRequest { password: None, role: None, is_active: Some(false) };
    assert_eq!(
        check_self_deactivation(&admin, 1, &off).unwrap_err().message(),
        "admin cannot deactivate the current account"
    );
    assert!(check_self_deactivation(&admin, 2, &off).is_ok());
}

#[test]
fn bootstrap_admin_needs_email_and_password() {
    assert!(bootstrap_admin_row(None, Some("password123")).unwrap().is_none());
    assert!(bootstrap_admin_row(Some("a@b.c"), None).unwrap().is_none());
    let (email, hash) = bootstrap_admin_row(Some(" A@B.C "), Some("password123")).unwrap().unwrap();
    assert_eq!(email, "a@b.c");
    assert!(verify_password(&hash, "password123").unwrap());
    let short = bootstrap_admin_row(Some("a@b.c"), Some("short")).unwrap_err();
    assert_eq!(short.kind(), ErrorKind::BadRequest);
    assert_eq!(short.message(), "password must be at least 8 characters");
}

#[test]
fn issued_tokens_name_their_user() {
    let u = user("admin", 1, "password123");
    let now = std::time::SystemTime::now()
        .duration_since(std::time::UNIX_EPOCH)
        .unwrap()
        .as_secs();
    let token = issue_jwt(&u, "s3cret", now).unwrap();
    assert_eq!(token.split('.').count(), 3);
    assert_eq!(bearer_subject(&token, "s3cret").unwrap(), u.id);
    assert_eq!(bearer_subject(&token, "other").unwrap_err().message(), "invalid token");
    let expired = issue_jwt(&u, "s3cret", 1).unwrap();
    assert_eq!(bearer_subject(&expired, "s3cret").unwrap_err().message(), "invalid token");
}

#[test]
fn database_urls_and_addresses() {
    assert_eq!(sqlite_path_from_url("sqlite://data/champr.db"), "data/champr.db");
    assert_eq!(sqlite_path_from_url("data/x.db"), "data/x.db");
    assert!(!sqlite_path_needs_dir(":memory:"));
    assert!(!sqlite_path_needs_dir("file:x?mode=memory"));
    assert!(sqlite_path_needs_dir("data/champr.db"));
    assert_eq!(local_access_url("0.0.0.0:3030"), "http://127.0.0.1:3030");
    assert_eq!(local_access_url("[::]:8080"), "http://127.0.0.1:8080");
    assert_eq!(local_access_url("10.0.0.1:1"), "http://10.0.0.1:1");
}

#[test]
fn config_defaults_and_env_values() {
    let c = Config::from_env(None, None, None, None, None);
    assert_eq!(c.addr, "0.0.0.0:3030");
    assert_eq!(c.database_url, "sqlite://data/champr.db");
    assert_eq!(c.jwt_secret, "change-me-in-production");
    assert!(c.bootstrap_admin_email.is_none());
    let c = Config::from_env(Some("127.0.0.1:1".to_string()), None, Some("s".to_string()), Some("a@b.c".to_string()), None);
    assert_eq!(c.addr, "127.0.0.1:1");
    assert_eq!(c.jwt_secret, "s");
    assert_eq!(c.bootstrap_admin_email.as_deref(), Some("a@b.c"));
    assert_eq!(normalize_env_value(" 'x/' ").as_deref(), Some("x/"));
    assert_eq!(normalize_env_value(" \"\" "), None);
    assert_eq!(parse_env_value("# c\nexport JWT_SECRET = \"abc\"\n", "JWT_SECRET").as_deref(), Some("abc"));
    assert_eq!(env_or_dotenv(Some("  "), Some("dot".to_string())).as_deref(), Some("dot"));
    assert_eq!(env_or_dotenv(Some(" env "), Some("dot".to_string())).as_deref(), Some("env"));
    assert_eq!(env_or_dotenv(None, None), None);
    assert_eq!(
        find_dotenv_value(&vec![Some("A=1".to_string()), Some("JWT_SECRET=z".to_string())], "JWT_SECRET").as_deref(),
        Some("z")
    );
}

#[test]
fn normalized_values_are_their_own_normal_form() {
    for raw in ["  Admin@Example.COM ", "user@x.io", " \tMiXeD\n"] {
        let once = normalize_email(raw);
        assert_eq!(normalize_email(&once), once);
        assert_eq!(normalize_source_key(&once), once);
    }
    for raw in [" Lee Sin ", "Rengar", "Kai\u{2003}Sa"] {
        let once = normalize_alias(raw);
        assert!(!once.chars().any(char::is_whitespace));
        assert_eq!(normalize_alias(&once), once);
    }
    assert_eq!(normalize_alias(" Lee Sin "), "leesin");
}

fn token_for(claims: Vec<(&str, Value)>, secret: &str) -> String {
    let mut map = serde_json::Map::new();
    for (k, v) in claims {
        map.insert(k.to_string(), v);
    }
    jsonwebtoken::encode(
        &jsonwebtoken::Header::default(),
        &serde_json::Value::Object(map),
        &jsonwebtoken::EncodingKey::from_secret(secret.as_bytes()),
    )
    .unwrap()
}

#[test]
fn bearer_tokens_name_their_subject() {
    let full = vec![
        ("sub", Value::from(7)),
        ("role", Value::from("admin")),
        ("exp", Value::from(4_000_000_000u64)),
        ("iat", Value::from(1u64)),
    ];
    let token = token_for(full.clone(), "s3cret");
    assert_eq!(bearer_subject(&token, "s3cret").unwrap(), 7);
    let wrong_key = bearer_subject(&token, "other").unwrap_err();
    assert_eq!(wrong_key.kind(), ErrorKind::Unauthorized);
    assert_eq!(wrong_key.message(), "invalid token");
    assert_eq!(bearer_subject("not-a-token", "s3cret").unwrap_err().message(), "invalid token");
    let expired = token_for(
        vec![
            ("sub", Value::from(7)),
            ("role", Value::from("admin")),
            ("exp", Value::from(10u64)),
            ("iat", Value::from(1u64)),
        ],
        "s3cret",
    );
    assert_eq!(bearer_subject(&expired, "s3cret").unwrap_err().message(), "invalid token");
    let no_role = token_for(
        vec![("sub", Value::from(7)), ("exp", Value::from(4_000_000_000u64)), ("iat", Value::from(1u64))],
        "s3cret",
    );
    assert_eq!(bearer_subject(&no_role, "s3cret").unwrap_err().message(), "invalid token");
    let text_sub = token_for(
        vec![
            ("sub", Value::from("7")),
            ("role", Value::from("admin")),
            ("exp", Value::from(4_000_000_000u64)),
            ("iat", Value::from(1u64)),
        ],
        "s3cret",
    );
    assert!(bearer_subject(&text_sub, "s3cret").is_err());
}

#[test]
fn listings_show_every_field() {
    let mut second = user("user", 0, "password123");
    second.id = 8;
    second.email = "b@example.com".to_string();
    second.created_at = "10".to_string();
    let users = public_users(vec![user("admin", 1, "password123"), second]).unwrap();
    assert_eq!(users.len(), 2);
    assert_eq!(users[0].email, "admin@example.com");
    assert!(users[0].is_active);
    assert_eq!(users[1].id, 8);
    assert_eq!(users[1].email, "b@example.com");
    assert_eq!(users[1].role, UserRole::User);
    assert!(!users[1].is_active);
    assert_eq!(users[1].created_at, "10");
    assert_eq!(users[1].updated_at, "2");
    let bad = user("root", 1, "password123");
    assert_eq!(
        public_users(vec![bad]).unwrap_err().message(),
        "unsupported role root"
    );
    let sources = public_sources(vec![source(1, "op.gg"), source(2, "u.gg")]);
    assert_eq!(sources[1].value, "u.gg");
    assert_eq!(sources[1].created_at, "1");
    assert_eq!(sources[1].updated_at, "2");
}

#[test]
fn claims_name_their_subject_when_complete() {
    let full = TokenClaims { sub: Some(7), role: Some("admin".to_string()), exp: Some(10), iat: Some(1) };
    assert_eq!(subject_from_claims(&full).unwrap(), 7);
    let mut no_role = full.clone();
    no_role.role = None;
    assert_eq!(subject_from_claims(&no_role).unwrap_err().message(), "invalid token");
    let mut no_iat = full.clone();
    no_iat.iat = None;
    assert_eq!(subject_from_claims(&no_iat).unwrap_err().kind(), ErrorKind::Unauthorized);
    let mut no_sub = full;
    no_sub.sub = None;
    assert!(subject_from_claims(&no_sub).is_err());
}

#[test]
fn basic_credentials_round_trip() {
    for (email, password) in [("Admin@Example.COM", "password123"), ("a@b.c", "x:y:z"), ("é@ü.de", "pä ss")] {
        let encoded = STANDARD.encode(format!("{email}:{password}"));
        let (e, p) = basic_credentials(&encoded).unwrap();
        assert_eq!(e, normalize_email(email));
        assert_eq!(p, password);
    }
    assert_eq!(basic_credentials("YQ").unwrap_err().message(), "invalid basic auth encoding");
    assert_eq!(basic_credentials("YR==").unwrap_err().message(), "invalid basic auth encoding");
}
