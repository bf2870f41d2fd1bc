use plugdeck::auth::{
    authorized, authorized_at, basic_credentials, digest_matches, find_cookie, hash_password,
    has_lanes, hash_password_with, logout_header, make_session_cookie, make_session_cookie_at, page_guard,
    password_digest, raw_guard, read_session, salted_hash, session_counts, session_signature,
    split_credentials, verify_password, verify_session_cookie, verify_session_cookie_at,
};
use plugdeck::config::Config;
use plugdeck::times::{now, Moment};
use plugdeck::web::Reply;

fn config(password_hash: Option<String>) -> Config {
    Config {
        bind: "127.0.0.1:0".into(),
        db_path: String::new(),
        download_dir: String::new(),
        agent_default_workdir: String::new(),
        agent_upload_dir: String::new(),
        agent_codex_bin: "codex".into(),
        agent_codex_args: Vec::new(),
        codex_home: String::new(),
        codex_reset_command: None,
        agent_slots: Vec::new(),
        ytdlp: "yt-dlp".into(),
        js_runtime: None,
        max_active: 1,
        job_ttl_hours: 24,
        user: "plugdeck".into(),
        password_hash,
        cookie_secret: vec![2u8; 32],
        auth_disabled: false,
        links: Vec::new(),
    }
}

fn salted(password: &str) -> String {
    let salt = vec![1u8; 16];
    format!(
        "sha256:{}:{}",
        hex::encode(&salt),
        hex::encode(password_digest(&salt, password))
    )
}

fn at(seconds: i64) -> Moment {
    Moment { seconds, nanos: 0 }
}

#[test]
fn password_hash_round_trips() {
    let config = config(Some(salted("secret")));
    assert!(verify_password(&config, "secret"));
    assert!(!verify_password(&config, "wrong"));
}

#[test]
fn digests_are_sha256_of_salt_and_password() {
    assert_eq!(
        hex::encode(password_digest(&Vec::new(), "abc")),
        "ba7816bf8f01cfea414140de5dae2223b00361a396177a9cb410ff61f20015ad"
    );
    assert_eq!(
        password_digest(&b"a".to_vec(), "bc"),
        password_digest(&Vec::new(), "abc")
    );
}

#[test]
fn argon2_hashes_accept_their_password() {
    let hash = hash_password_with("secret\r\n", &vec![7u8; 16]).unwrap();
    assert!(hash.starts_with("$argon2id$v=19$"));
    let config = config(Some(hash));
    assert!(verify_password(&config, "secret"));
    assert!(!verify_password(&config, "secret\n"));
    let random = hash_password("other\n").unwrap();
    let config = self::config(Some(random));
    assert!(verify_password(&config, "other"));
}

#[test]
fn unknown_hashes_accept_nothing() {
    for hash in [
        "plain",
        "md5:00:00",
        "sha256:00",
        "sha256:0:00",
        "sha256:00:zz",
        "$argon2id$broken",
        "",
    ] {
        assert!(!verify_password(&config(Some(hash.to_string())), "secret"));
    }
    assert!(!verify_password(&config(None), "secret"));
    let mut open = config(None);
    open.auth_disabled = true;
    assert!(verify_password(&open, "anything"));
}

#[test]
fn salted_hashes_are_read_in_either_case() {
    assert_eq!(
        salted_hash("sha256:00fF:Ab"),
        Some((vec![0u8, 255u8], vec![0xabu8]))
    );
    assert_eq!(salted_hash("sha256::"), Some((Vec::new(), Vec::new())));
    assert_eq!(salted_hash("sha256:é0:00"), None);
    assert!(digest_matches(&vec![1, 2], &vec![1, 2]));
    assert!(!digest_matches(&vec![1, 2], &vec![1, 2, 3]));
}

#[test]
fn sessions_count_until_they_end() {
    let config = config(None);
    let begin = at(1_700_000_000);
    let header = make_session_cookie_at(&config, &begin).unwrap();
    let end = 1_700_000_000 + 30 * 86400;
    let signature = session_signature(&config, end);
    assert_eq!(
        header,
        format!(
            "plugdeck_session={end}:{signature}; Max-Age=2592000; Path=/; HttpOnly; SameSite=Lax"
        )
    );
    let value = format!("{end}:{signature}");
    assert!(verify_session_cookie_at(&config, &value, &begin));
    assert!(verify_session_cookie_at(&config, &value, &at(end)));
    assert!(!verify_session_cookie_at(&config, &value, &at(end + 1)));
    let mut other = self::config(None);
    other.cookie_secret = vec![3u8; 32];
    assert!(!verify_session_cookie_at(&other, &value, &begin));
    let cookie = format!("a=b; plugdeck_session={value}");
    assert!(authorized_at(&config, None, Some(&cookie), &begin));
    assert!(!authorized_at(&config, None, Some(&cookie), &at(end + 1)));
}

#[test]
fn sessions_that_begin_now_count_now() {
    let config = config(None);
    let header = make_session_cookie(&config).unwrap();
    let value = header
        .strip_prefix("plugdeck_session=")
        .unwrap()
        .split(';')
        .next()
        .unwrap();
    assert!(verify_session_cookie(&config, value));
    assert!(authorized(&config, None, Some(&format!("plugdeck_session={value}"))));
    assert!(now().seconds > 1_700_000_000);
}

#[test]
fn signatures_are_lower_case_hex() {
    let config = config(None);
    let signature = session_signature(&config, -5);
    let expected = hex::encode(password_digest(&vec![2u8; 32], "-5"));
    assert_eq!(signature, expected);
    assert_eq!(signature.len(), 64);
}

#[test]
fn broken_sessions_are_refused() {
    let config = config(None);
    for value in ["", "12", "x:y", ":", "99999999999:00"] {
        assert!(!verify_session_cookie_at(&config, value, &at(0)));
    }
    assert_eq!(read_session("12:ab:c"), Some((12, "ab:c")));
    assert!(session_counts(5, "é", "é", &at(5)));
    assert!(!session_counts(5, "e", "é", &at(5)));
    assert!(!session_counts(5, "e", "e", &at(6)));
}

#[test]
fn basic_authentication_decides_alone() {
    let config = config(Some(salted("pass:word")));
    let good = "Basic cGx1Z2RlY2s6cGFzczp3b3Jk";
    let wrong_user = "Basic eDpwYXNzOndvcmQ=";
    assert_eq!(
        basic_credentials(good),
        Some(("plugdeck".to_string(), "pass:word".to_string()))
    );
    assert!(authorized_at(&config, Some(good), None, &at(0)));
    assert!(!authorized_at(&config, Some(wrong_user), None, &at(0)));
    let end = 100;
    let cookie = format!("plugdeck_session={end}:{}", session_signature(&config, end));
    assert!(!authorized_at(&config, Some(wrong_user), Some(&cookie), &at(0)));
    assert!(authorized_at(&config, Some("Bearer x"), Some(&cookie), &at(0)));
    assert!(authorized_at(&config, Some("Basic ???"), Some(&cookie), &at(0)));
    assert_eq!(basic_credentials("Basic /w=="), None);
    assert_eq!(basic_credentials("Basic YWI="), None);
    assert_eq!(split_credentials(vec![0xff, b':']), None);
    assert_eq!(
        split_credentials("é:x".as_bytes().to_vec()),
        Some(("é".to_string(), "x".to_string()))
    );
}

#[test]
fn the_first_cookie_with_a_name_counts() {
    assert_eq!(find_cookie("a=1; b=2=3 ;a=4", "a"), Some("1".to_string()));
    assert_eq!(find_cookie("a=1; b=2=3 ;a=4", "b"), Some("2=3".to_string()));
    assert_eq!(find_cookie("a; b", "a"), None);
}

#[test]
fn strangers_are_sent_to_the_login() {
    let mut config = config(None);
    assert!(!authorized(&config, None, None));
    config.auth_disabled = true;
    assert!(authorized(&config, None, None));
    assert!(page_guard(true).is_none());
    assert!(raw_guard(true).is_none());
    assert!(matches!(page_guard(false), Some(Reply::Redirect(to)) if to == "/login"));
    assert!(
        matches!(raw_guard(false), Some(Reply::Plain(401, body)) if body == "authentication required")
    );
    assert_eq!(
        logout_header(),
        "plugdeck_session=; Max-Age=0; Path=/; HttpOnly; SameSite=Lax"
    );
}

#[test]
fn hashes_with_too_many_lanes_accept_nothing() {
    let hash = hash_password_with("secret", &vec![7u8; 16]).unwrap();
    assert!(has_lanes(&hash));
    for lanes in ["536870912", "4294967295", "100000000", "99999999999"] {
        let many = hash.replace("p=1", &format!("p={lanes}"));
        assert!(!has_lanes(&many));
        assert!(!verify_password(&config(Some(many)), "secret"));
    }
    let fewer = hash.replace("p=1", "p=16777216");
    assert!(has_lanes(&fewer));
    assert!(!verify_password(&config(Some(fewer)), "secret"));
    assert!(has_lanes("p=12345678"));
    assert!(!has_lanes("p=123456789"));
    assert!(has_lanes("p=12345678x9"));
    assert!(has_lanes(""));
}

#[test]
fn sessions_need_an_end_in_the_calendar() {
    let config = config(None);
    let last = at(plugdeck::times::LAST_SECOND - 30 * 86400);
    assert!(make_session_cookie_at(&config, &last).is_some());
    assert!(make_session_cookie_at(&config, &at(last.seconds + 1)).is_none());
}
