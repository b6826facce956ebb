use shuttlebot::{
    build_user_session, format_session_cookie, get_secrets, parse_session_cookie,
    session_cookie_value, DocsLinks, Persist, SecretKey, UserSession,
};

fn session(name: &str, session_id: &str, expires_at: i64) -> UserSession {
    UserSession { name: name.to_string(), session_id: session_id.to_string(), expires_at }
}

#[test]
fn cookie_round_trips() {
    let cookie = format_session_cookie("octocat", "tok123");
    assert_eq!(cookie, "octocat--tok123");
    let (name, sid) = parse_session_cookie(&cookie).unwrap();
    assert_eq!(name, "octocat");
    assert_eq!(sid, "tok123");
}

#[test]
fn cookie_splits_at_the_first_separator() {
    let (name, sid) = parse_session_cookie("a--b--c").unwrap();
    assert_eq!(name, "a");
    assert_eq!(sid, "b--c");
}

#[test]
fn malformed_cookie_is_rejected() {
    assert!(parse_session_cookie("no separator here").is_none());
    assert!(parse_session_cookie("single-dashes-only").is_none());
    assert!(parse_session_cookie("").is_none());
}

#[test]
fn add_record_appends_new_users_and_replaces_existing_ones() {
    let mut persist = Persist::new();
    persist.add_record(session("octocat", "tok1", 100));
    persist.add_record(session("hubber", "tok2", 150));
    assert_eq!(persist.user_sessions.len(), 2);
    // Signing in again replaces the stored session for that user.
    persist.add_record(session("octocat", "tok3", 300));
    assert_eq!(persist.user_sessions.len(), 2);
    assert_eq!(persist.user_sessions[0].name, "octocat");
    assert_eq!(persist.user_sessions[0].session_id, "tok3");
    assert_eq!(persist.user_sessions[0].expires_at, 300);
}

#[test]
fn delete_record_removes_by_session_id() {
    let mut persist = Persist::new();
    persist.add_record(session("octocat", "tok1", 100));
    persist.add_record(session("hubber", "tok2", 150));
    persist.delete_record(&"tok1".to_string());
    assert_eq!(persist.user_sessions.len(), 1);
    assert_eq!(persist.user_sessions[0].name, "hubber");
}

#[test]
fn filter_records_drops_expired_sessions() {
    let mut persist = Persist::new();
    persist.add_record(session("octocat", "tok1", 100));
    persist.add_record(session("hubber", "tok2", 500));
    persist.filter_records(200);
    assert_eq!(persist.user_sessions.len(), 1);
    assert_eq!(persist.user_sessions[0].name, "hubber");
}

#[test]
fn check_record_exists_matches_name_and_token() {
    let mut persist = Persist::new();
    persist.add_record(session("octocat", "tok1", 100));
    assert!(persist.check_record_exists("octocat--tok1"));
    assert!(!persist.check_record_exists("octocat--wrong"));
    assert!(!persist.check_record_exists("someone--tok1"));
    assert!(!persist.check_record_exists("garbage"));
}

#[test]
fn callback_session_lives_one_day() {
    let s = build_user_session("octocat".to_string(), "tok1".to_string(), 1_000);
    assert_eq!(s.name, "octocat");
    assert_eq!(s.session_id, "tok1");
    assert_eq!(s.expires_at, 1_000 + 86_400);
    let cookie = session_cookie_value("octocat", "tok1");
    let mut persist = Persist::new();
    persist.add_record(s);
    assert!(persist.check_record_exists(&cookie));
}

#[test]
fn get_secrets_needs_every_key() {
    let all = get_secrets(
        Some("dt".to_string()),
        Some("pem".to_string()),
        Some("pt".to_string()),
        Some("id".to_string()),
        Some("role".to_string()),
        Some("server".to_string()),
    );
    let secrets = all.unwrap();
    assert_eq!(secrets.discord_token, "dt");
    assert_eq!(secrets.discord_server_id, "server");

    let missing_token = get_secrets(
        None,
        Some("pem".to_string()),
        Some("pt".to_string()),
        Some("id".to_string()),
        Some("role".to_string()),
        Some("server".to_string()),
    );
    assert_eq!(missing_token.unwrap_err(), SecretKey::DiscordToken);

    let missing_server = get_secrets(
        Some("dt".to_string()),
        Some("pem".to_string()),
        Some("pt".to_string()),
        Some("id".to_string()),
        Some("role".to_string()),
        None,
    );
    assert_eq!(missing_server.unwrap_err(), SecretKey::DiscordServerId);
}

#[test]
fn get_secrets_reports_the_first_missing_key_in_lookup_order() {
    let some = || Some("v".to_string());
    assert_eq!(
        get_secrets(some(), None, some(), some(), some(), some()).unwrap_err(),
        SecretKey::GithubAppPrivateKey
    );
    assert_eq!(
        get_secrets(some(), some(), None, some(), some(), some()).unwrap_err(),
        SecretKey::GithubPersonalToken
    );
    assert_eq!(
        get_secrets(some(), some(), some(), None, some(), some()).unwrap_err(),
        SecretKey::GithubAppId
    );
    assert_eq!(
        get_secrets(some(), some(), some(), some(), None, some()).unwrap_err(),
        SecretKey::DiscordServerStaffRoleId
    );
    // Several keys missing at once: the earliest in lookup order wins.
    assert_eq!(
        get_secrets(some(), None, None, some(), None, some()).unwrap_err(),
        SecretKey::GithubAppPrivateKey
    );
}

#[test]
fn secret_keys_name_their_store_entries() {
    assert_eq!(SecretKey::DiscordToken.name(), "DISCORD_TOKEN");
    assert_eq!(SecretKey::GithubAppPrivateKey.name(), "GITHUB_APP_PRIVATE_KEY");
    assert_eq!(SecretKey::DiscordServerStaffRoleId.name(), "DISCORD_SERVER_STAFF_ROLE_ID");
}

#[test]
fn docs_flags_map_to_their_pages() {
    assert_eq!(DocsLinks::from_str("secrets"), Ok(DocsLinks::Secrets));
    assert_eq!(DocsLinks::from_str("databases"), Ok(DocsLinks::Databases));
    assert_eq!(DocsLinks::from_str("persist"), Ok(DocsLinks::Persist));
    assert_eq!(DocsLinks::from_str("assets"), Ok(DocsLinks::Assets));
    assert_eq!(DocsLinks::from_str("custom"), Ok(DocsLinks::Custom));
    assert_eq!(
        DocsLinks::from_str("nonsense"),
        Err("Doc doesn't exist".to_string())
    );
    assert_eq!(
        DocsLinks::Persist.to_link(),
        "https://docs.shuttle.rs/resources/shuttle-persist"
    );
}
