use plugdeck::config::{
    agent_command_label, default_codex_bin, env_flag, launcher_alias, normalize_agent_slot_name,
    parse_agent_slot_seeds, random_secret, split_env_args, Config, ConfigError, Link,
    Variables,
};

fn nothing() -> Variables {
    Variables {
        bind: None,
        db: None,
        download_dir: None,
        agent_default_workdir: None,
        agent_upload_dir: None,
        agent_codex_bin: None,
        agent_codex_args: None,
        codex_home: None,
        codex_reset_command: None,
        agent_slots: None,
        ytdlp: None,
        js_runtime: None,
        max_active: None,
        job_ttl_hours: None,
        user: None,
        password_hash: None,
        auth_disabled: None,
        cookie_secret: None,
        home: "/home/u".into(),
        default_codex_bin: "codex".into(),
        js_runtime_exists: false,
        links: Vec::new(),
    }
}

#[test]
fn a_password_is_needed_unless_switched_off() {
    let error = Config::from_env(nothing()).err().unwrap();
    assert_eq!(error, ConfigError::MissingPassword);
    assert_eq!(
        error.message(),
        "PLUGDECK_PASSWORD_HASH is required unless PLUGDECK_AUTH_DISABLED=1"
    );
    let mut blank = nothing();
    blank.password_hash = Some("  ".into());
    assert!(Config::from_env(blank).is_err());
    let mut off = nothing();
    off.auth_disabled = Some(" Yes ".into());
    assert!(Config::from_env(off).is_ok());
}

#[test]
fn defaults_fill_what_is_not_set() {
    let mut vars = nothing();
    vars.password_hash = Some("x".into());
    let config = Config::from_variables(vars, vec![9u8; 32]).ok().unwrap();
    assert_eq!(config.bind, "127.0.0.1:8789");
    assert_eq!(config.db_path, "data/plugdeck.sqlite");
    assert_eq!(config.download_dir, "data/downloads");
    assert_eq!(config.agent_upload_dir, "data/downloads/agent-uploads");
    assert_eq!(config.agent_default_workdir, "/home/u");
    assert_eq!(config.codex_home, "/home/u/.codex");
    assert_eq!(config.agent_codex_bin, "codex");
    assert!(config.agent_codex_args.is_empty());
    assert!(config.codex_reset_command.is_none());
    assert_eq!(config.agent_slots.len(), 1);
    assert_eq!(config.agent_slots[0].name, "codex");
    assert_eq!(config.agent_slots[0].workdir, "/home/u");
    assert_eq!(config.ytdlp, "yt-dlp");
    assert!(config.js_runtime.is_none());
    assert_eq!(config.max_active, 1);
    assert_eq!(config.job_ttl_hours, 24);
    assert_eq!(config.user, "plugdeck");
    assert_eq!(config.password_hash.as_deref(), Some("x"));
    assert_eq!(config.cookie_secret, vec![9u8; 32]);
    assert!(!config.auth_disabled);
    assert_eq!(agent_command_label(&config), "codex");
}

#[test]
fn variables_override_defaults() {
    let mut vars = nothing();
    vars.auth_disabled = Some("1".into());
    vars.download_dir = Some("/d".into());
    vars.agent_default_workdir = Some("~/w".into());
    vars.agent_codex_args = Some("  --a  b ".into());
    vars.codex_reset_command = Some("reset now".into());
    vars.js_runtime = Some("/bin/node".into());
    vars.js_runtime_exists = true;
    vars.max_active = Some("3".into());
    vars.job_ttl_hours = Some("48".into());
    vars.cookie_secret = Some(format!(" {} ", "ab".repeat(32)));
    vars.links = vec![Link {
        name: "n".into(),
        url: "u".into(),
        category: "c".into(),
        description: "d".into(),
    }];
    let config = Config::from_variables(vars, vec![9u8; 32]).ok().unwrap();
    assert_eq!(config.agent_upload_dir, "/d/agent-uploads");
    assert_eq!(config.agent_default_workdir, "/home/u/w");
    assert_eq!(config.agent_codex_args, vec!["--a", "b"]);
    assert_eq!(
        config.codex_reset_command,
        Some(vec!["reset".to_string(), "now".to_string()])
    );
    assert_eq!(config.js_runtime.as_deref(), Some("/bin/node"));
    assert_eq!(config.max_active, 3);
    assert_eq!(config.job_ttl_hours, 48);
    assert_eq!(config.cookie_secret, vec![0xabu8; 32]);
    assert_eq!(config.links.len(), 1);
    assert_eq!(agent_command_label(&config), "codex --a b");
}

#[test]
fn unusable_values_fall_back() {
    let mut vars = nothing();
    vars.auth_disabled = Some("on".into());
    vars.max_active = Some("0".into());
    vars.job_ttl_hours = Some("-1".into());
    vars.cookie_secret = Some("abcd".into());
    vars.codex_reset_command = Some("  ".into());
    vars.js_runtime = Some("/missing".into());
    let config = Config::from_variables(vars, vec![9u8; 32]).ok().unwrap();
    assert_eq!(config.max_active, 1);
    assert_eq!(config.job_ttl_hours, 24);
    assert_eq!(config.cookie_secret, vec![9u8; 32]);
    assert!(config.codex_reset_command.is_none());
    assert!(config.js_runtime.is_none());
}

#[test]
fn hours_have_a_bound_once_there_is_a_password() {
    let with = |password: Option<&str>, hours: Option<&str>| {
        let mut vars = nothing();
        vars.password_hash = password.map(str::to_string);
        vars.job_ttl_hours = hours.map(str::to_string);
        vars
    };
    assert!(with(Some("x"), None).readable());
    assert!(with(Some("x"), Some("2562047788015")).readable());
    assert!(!with(Some("x"), Some("2562047788016")).readable());
    assert!(with(Some("x"), Some("y")).readable());
    let without = with(Some(" "), Some("2562047788016"));
    assert!(without.readable());
    assert!(matches!(
        Config::from_variables(without, vec![9u8; 32]),
        Err(ConfigError::MissingPassword)
    ));
    let mut open = with(None, Some("2562047788016"));
    open.auth_disabled = Some("1".into());
    assert!(!open.readable());
}

#[test]
fn secrets_are_random() {
    let a = random_secret();
    let b = random_secret();
    assert_eq!(a.len(), 32);
    assert_ne!(a, b);
    let mut vars = nothing();
    vars.auth_disabled = Some("true".into());
    let config = Config::from_env(vars).ok().unwrap();
    assert_eq!(config.cookie_secret.len(), 32);
}

#[test]
fn slots_are_read_from_a_list() {
    let seeds = parse_agent_slot_seeds(
        Some(" Main , b:~/x, :y, !!, c_2:/z:w,"),
        "/work",
        "/home/u",
    );
    let read: Vec<(&str, &str)> = seeds
        .iter()
        .map(|seed| (seed.name.as_str(), seed.workdir.as_str()))
        .collect();
    assert_eq!(
        read,
        vec![("main", "/work"), ("b", "/home/u/x"), ("c_2", "/z:w")]
    );
    let long = "x".repeat(33);
    assert!(parse_agent_slot_seeds(Some(&long), "/w", "/h").is_empty());
    assert_eq!(
        parse_agent_slot_seeds(Some(&long[..32]), "/w", "/h").len(),
        1
    );
    assert_eq!(parse_agent_slot_seeds(None, "/w", "/h")[0].name, "codex");
    assert_eq!(normalize_agent_slot_name(" Öl-Ab_9! "), "l-ab_9");
}

#[test]
fn flags_and_arguments_are_read() {
    assert!(env_flag(Some("ON"), false));
    assert!(!env_flag(Some("2"), true));
    assert!(env_flag(None, true));
    assert_eq!(split_env_args(" a\tb\n c "), vec!["a", "b", "c"]);
}

#[test]
fn the_launcher_is_found_in_turn() {
    assert_eq!(default_codex_bin(true, true, "/h"), "codexunsafe");
    assert_eq!(
        default_codex_bin(false, true, "/h"),
        "/h/.local/bin/codexunsafe"
    );
    assert_eq!(default_codex_bin(false, false, "/h"), "codex");
    assert_eq!(launcher_alias("/h/"), "/h/.local/bin/codexunsafe");
}
