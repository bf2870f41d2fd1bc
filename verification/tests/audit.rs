use plugdeck::audit::{
    audit_line, audit_path, audit_public, contains_tailscale_ipv4, denylist_terms, describe, report,
    suspicious_secret_assignment, token_markers, tracked_files, wants_text, TrackedFile,
};

fn file(path: &str, text: &str) -> TrackedFile {
    TrackedFile {
        path: path.to_string(),
        size: Some(text.len() as u64),
        text: Some(text.to_string()),
    }
}

#[test]
fn audit_rejects_private_paths() {
    assert!(audit_path("plugdeck.local.toml").is_some());
    assert!(audit_path("data/plugdeck.sqlite").is_some());
    assert!(audit_path("docs/private/notes.md").is_some());
}

#[test]
fn audit_detects_cgnat_private_address() {
    let line = format!("service=http://100.{}.10.5:8789", 80);
    assert!(contains_tailscale_ipv4(&line));
    assert!(!contains_tailscale_ipv4("service=http://127.0.0.1:8789"));
}

#[test]
fn audit_secret_assignment_allows_placeholders() {
    assert!(!suspicious_secret_assignment(
        "PLUGDECK_PASSWORD_HASH=<hash>"
    ));
    assert!(!suspicious_secret_assignment(
        "PLUGDECK_COOKIE_SECRET=${SECRET}"
    ));
    assert!(suspicious_secret_assignment(
        "PLUGDECK_COOKIE_SECRET=abc123"
    ));
}

#[test]
fn each_kind_of_path_has_its_message() {
    assert_eq!(
        audit_path("a\\b\\id_rsa").as_deref(),
        Some("private file path is tracked")
    );
    assert_eq!(
        audit_path("x/.env.production").as_deref(),
        Some("private env file is tracked")
    );
    assert_eq!(audit_path("x/.env.example"), None);
    assert_eq!(
        audit_path("downloads/a.txt").as_deref(),
        Some("ignored private/runtime path is tracked")
    );
    assert_eq!(
        audit_path("src/cache/a.txt").as_deref(),
        Some("runtime or secret data path is tracked")
    );
    assert_eq!(
        audit_path("a/server.pem").as_deref(),
        Some("private state or key-like file is tracked")
    );
    assert_eq!(audit_path(".key"), None);
    assert_eq!(audit_path("src/main.rs"), None);
}

#[test]
fn addresses_need_four_parts_in_range() {
    assert!(contains_tailscale_ipv4("at 100.64.0.1."[..13].as_ref()));
    assert!(contains_tailscale_ipv4("at 100.127.255.255,"));
    assert!(!contains_tailscale_ipv4("at 100.63.0.1"));
    assert!(!contains_tailscale_ipv4("at 100.128.0.1"));
    assert!(!contains_tailscale_ipv4("at 100.64.0.256"));
    assert!(!contains_tailscale_ipv4("at 100.64.0"));
    assert!(!contains_tailscale_ipv4("at 100.64.0.1.5"));
    assert!(!contains_tailscale_ipv4("at 1100.64.0.1"));
    assert!(contains_tailscale_ipv4("0100.064.0.1"));
}

#[test]
fn assignments_need_a_key_that_speaks_of_a_secret() {
    assert!(suspicious_secret_assignment("api_key: \"abcd\","));
    assert!(!suspicious_secret_assignment("colour: blue"));
    assert!(!suspicious_secret_assignment("use secret::token = 1"));
    assert!(!suspicious_secret_assignment("my token here = abcd"));
    assert!(!suspicious_secret_assignment("= abcd"));
    assert!(!suspicious_secret_assignment("no assignment of a token"));
    assert!(!suspicious_secret_assignment("password = 'ChangeMe'"));
    assert!(suspicious_secret_assignment("password = 'ChangeMe',"));
    assert!(!suspicious_secret_assignment("token: String"));
    assert!(!suspicious_secret_assignment("token: Option<String>,"));
    assert!(!suspicious_secret_assignment("secret = \"your-secret\""));
    assert!(!suspicious_secret_assignment("token=abc...def"));
    assert!(!suspicious_secret_assignment("token: Some(value)"));
    assert!(!suspicious_secret_assignment("password = "));
    let long = format!("{}token=abcd", "x".repeat(76));
    assert!(!suspicious_secret_assignment(&long));
    let short = format!("{}token=abcd", "x".repeat(75));
    assert!(suspicious_secret_assignment(&short));
}

#[test]
fn lines_are_reported_in_a_fixed_order() {
    let marker = token_markers()[1].clone();
    let line = format!("token={marker}100.{}.1.1 Home", 100);
    let terms = vec!["home".to_string(), String::new(), "away".to_string()];
    assert_eq!(
        audit_line(&line, &terms),
        vec![
            format!("token marker `{marker}`"),
            "Tailscale/CGNAT private IP address".to_string(),
            "non-placeholder secret-looking assignment".to_string(),
            "local denylist term".to_string(),
        ]
    );
    let key = format!("-----BEGIN {}{}-----", "PRIVATE", " KEY");
    assert_eq!(audit_line(&key, &Vec::new()), vec!["private key material"]);
    let address = format!("see 100.{}.1.1", 100);
    assert_eq!(
        audit_line(&address, &Vec::new()),
        vec!["Tailscale/CGNAT private IP address"]
    );
}

#[test]
fn comments_are_never_reported() {
    let line = format!("  # token={}abc", token_markers()[0]);
    assert!(audit_line(&line, &vec!["token".to_string()]).is_empty());
}

#[test]
fn markers_are_put_together() {
    let markers = token_markers();
    assert_eq!(markers.len(), 8);
    assert_eq!(markers[0], ["github", "_pat_"].concat());
    assert_eq!(markers[7], ["xo", "xp-"].concat());
}

#[test]
fn findings_carry_path_and_line() {
    let files = vec![
        file("src/a.rs", "fine\r\nsecret_token = abcd\n"),
        file("x/.env", "secret_token = abcd\n"),
        TrackedFile {
            path: "big.txt".to_string(),
            size: Some(1_000_001),
            text: Some("secret_token = abcd".to_string()),
        },
        TrackedFile {
            path: "binary".to_string(),
            size: None,
            text: None,
        },
    ];
    let findings = audit_public(&files, &Vec::new());
    assert_eq!(findings.len(), 2);
    assert_eq!(
        describe(&findings[0]),
        "src/a.rs:2: non-placeholder secret-looking assignment"
    );
    assert_eq!(describe(&findings[1]), "x/.env: private file path is tracked");
    assert_eq!(
        report(&findings),
        vec![
            "audit-public: found 2 issue(s)",
            "src/a.rs:2: non-placeholder secret-looking assignment",
            "x/.env: private file path is tracked",
        ]
    );
    assert_eq!(report(&Vec::new()), vec!["audit-public: ok"]);
}

#[test]
fn private_and_large_files_are_not_read() {
    assert!(!wants_text("x/.env", Some(3)));
    assert!(!wants_text("a.txt", Some(1_000_001)));
    assert!(wants_text("a.txt", Some(1_000_000)));
    assert!(wants_text("a.txt", None));
}

#[test]
fn lists_are_read() {
    assert_eq!(
        denylist_terms("# comment\n Home \n\nHOST.example\n"),
        vec!["home", "host.example"]
    );
    assert_eq!(tracked_files("a\0b/c\0\0"), vec!["a", "b/c"]);
    assert!(tracked_files("").is_empty());
}

#[test]
fn clean_files_pass() {
    let files = vec![file("src/main.rs", "fn main() {}\n"), file("README.md", "# Deck\n")];
    let findings = audit_public(&files, &vec!["hostname".to_string()]);
    assert!(findings.is_empty());
    assert_eq!(report(&findings), vec!["audit-public: ok"]);
    let listed = vec![file("README.md", "see HostName\n")];
    assert_eq!(audit_public(&listed, &vec!["hostname".to_string()]).len(), 1);
}
