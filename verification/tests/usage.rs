use plugdeck::codex_reset_ledger::ResetCreditEstimate;
use plugdeck::codex_usage::{
    answer_command, answer_reset, attach_reset_credit_estimate, codex_credits_text,
    codex_rate_window, codex_reset_credit_text, codex_reset_credits_summary, codex_reset_post,
    codex_usage_dialog, codex_usage_from_payload, codex_usage_text, is_countable, later_usage,
    latest_codex_usage, limits_request, merge_codex_rate_limit_status, rate_limits_result,
    read_answers, reset_credit_text, reset_line, reset_outcome, reset_request, reset_request_with,
    server_output, service_step, usage_reset_line, usage_window_card, window_card, CodexRateWindow,
    CodexResetCreditsSummary, CommandEnd, Percents, ResetStep,
    ServiceStep,
};
use plugdeck::config::Config;
use plugdeck::json::{parse_json, Json};
use plugdeck::times::Moment;
use plugdeck::web::Reply;

fn at(seconds: i64) -> Moment {
    Moment { seconds, nanos: 0 }
}

fn json(text: &str) -> Json {
    parse_json(text).unwrap()
}

fn used(window: &CodexRateWindow) -> f64 {
    window
        .used_percent
        .as_ref()
        .map(|text| text.parse::<f64>().unwrap())
        .unwrap_or(0.0)
}

fn remaining(window: &CodexRateWindow) -> f64 {
    (100.0 - used(window)).max(0.0)
}

fn percents(remaining: &str, used: &str) -> Percents {
    Percents {
        remaining: remaining.to_string(),
        used: used.to_string(),
    }
}

fn config() -> Config {
    Config {
        bind: String::new(),
        db_path: String::new(),
        download_dir: String::new(),
        agent_default_workdir: String::new(),
        agent_upload_dir: String::new(),
        agent_codex_bin: "codex".into(),
        agent_codex_args: vec!["-x".into()],
        codex_home: String::new(),
        codex_reset_command: None,
        agent_slots: Vec::new(),
        ytdlp: String::new(),
        js_runtime: None,
        max_active: 1,
        job_ttl_hours: 24,
        user: String::new(),
        password_hash: None,
        cookie_secret: Vec::new(),
        auth_disabled: false,
        links: Vec::new(),
    }
}

const PAYLOAD: &str = r#"{
    "type": "token_count",
    "info": {
        "total_token_usage": {
            "total_tokens": 619644,
            "cached_input_tokens": 528640
        },
        "last_token_usage": {"total_tokens": 109315},
        "model_context_window": 258400
    },
    "rate_limits": {
        "primary": {"used_percent": 14.0, "window_minutes": 300, "resets_at": 1782210186},
        "secondary": {"used_percent": 38.0, "window_minutes": 10080, "resets_at": 1782380596},
        "rate_limit_reset_credits": {"available_count": 2},
        "credits": null,
        "plan_type": "prolite"
    }
}"#;

#[test]
fn codex_usage_parser_reads_rate_limits() {
    let payload = json(PAYLOAD);
    let usage = codex_usage_from_payload("2026-06-23T07:29:57Z", &payload);
    assert_eq!(usage.plan_type, "prolite");
    assert_eq!(usage.total_units, 619644);
    assert_eq!(usage.last_units, 109315);
    assert_eq!(remaining(&usage.primary.unwrap()), 86.0);
    assert_eq!(remaining(&usage.secondary.unwrap()), 62.0);
    assert_eq!(usage.reset_credits.unwrap().available_count, 2);

    let window = json(
        r#"{
        "usedPercent": 35,
        "windowDurationMins": 300,
        "resetsAt": 1782210186
    }"#,
    );
    let window = codex_rate_window("Primary", Some(&window)).unwrap();
    assert_eq!(used(&window), 35.0);
    assert_eq!(window.window_minutes, 300);
    assert_eq!(window.resets_at, Some(1782210186));
}

#[test]
fn missing_parts_of_a_usage_have_defaults() {
    let usage = codex_usage_from_payload("", &json("{}"));
    assert_eq!(usage.plan_type, "unknown");
    assert_eq!(usage.total_units, 0);
    assert_eq!(usage.context_window, 0);
    assert!(usage.primary.is_none());
    assert!(usage.credits.is_none());
    assert!(usage.reset_credits.is_none());
    let beside = codex_usage_from_payload(
        "",
        &json(r#"{"rateLimitResetCredits":{"availableCount":5}}"#),
    );
    assert_eq!(beside.reset_credits.unwrap().available_count, 5);
    let window = codex_rate_window("x", Some(&json("3"))).unwrap();
    assert_eq!(window.used_percent, None);
    assert_eq!(window.window_minutes, 0);
    assert!(codex_rate_window("x", None).is_none());
}

#[test]
fn credits_are_told_as_they_are() {
    let told = |text: &str| codex_credits_text(Some(&json(text)));
    assert_eq!(codex_credits_text(None), None);
    assert_eq!(told("null"), None);
    assert_eq!(told("\"12\"").as_deref(), Some("12"));
    assert_eq!(told(r#"{"balance":"3"}"#).as_deref(), Some("3"));
    assert_eq!(
        told(r#"{"balance":"3","unlimited":true}"#).as_deref(),
        Some("unlimited")
    );
    assert_eq!(
        told(r#"{"b": 1, "a": [true]}"#).as_deref(),
        Some(r#"{"a":[true],"b":1}"#)
    );
    assert_eq!(told("1.50").as_deref(), Some("1.5"));
    assert_eq!(told("false").as_deref(), Some("false"));
    assert!(codex_reset_credits_summary(Some(&json("null"))).is_none());
    assert!(codex_reset_credits_summary(Some(&json("{}"))).is_none());
}

#[test]
fn the_latest_usage_counts() {
    let event = |stamp: &str, plan: &str| {
        json(&format!(
            r#"{{"timestamp":"{stamp}","type":"event_msg","payload":{{"type":"token_count","rate_limits":{{"plan_type":"{plan}"}}}}}}"#
        ))
    };
    let values = vec![
        event("2", "a"),
        event("3", "b"),
        json(r#"{"timestamp":"9","type":"event_msg","payload":{"type":"other"}}"#),
        event("3", "c"),
        event("1", "d"),
    ];
    let latest = latest_codex_usage(&values).unwrap();
    assert_eq!(latest.plan_type, "b");
    assert_eq!(latest.observed_at, "3");
    assert!(latest_codex_usage(&Vec::new()).is_none());
    let other = latest_codex_usage(&vec![event("4", "e")]);
    assert_eq!(later_usage(Some(latest), other).unwrap().plan_type, "e");
}

#[test]
fn answers_fill_in_what_they_tell() {
    let usage = codex_usage_from_payload("old", &json(PAYLOAD));
    let answer = json(
        r#"{"rateLimits":{"planType":"pro","primary":{"usedPercent":1}},"rateLimitResetCredits":{"availableCount":9}}"#,
    );
    let merged = merge_codex_rate_limit_status(Some(usage), Some(&answer), "now").unwrap();
    assert_eq!(merged.observed_at, "now");
    assert_eq!(merged.plan_type, "pro");
    assert_eq!(merged.total_units, 619644);
    assert_eq!(used(merged.primary.as_ref().unwrap()), 1.0);
    assert_eq!(used(merged.secondary.as_ref().unwrap()), 38.0);
    assert_eq!(merged.reset_credits.as_ref().unwrap().available_count, 9);
    let fresh = merge_codex_rate_limit_status(None, Some(&json("{}")), "now").unwrap();
    assert_eq!(fresh.plan_type, "unknown");
    assert!(merge_codex_rate_limit_status(None, None, "now").is_none());
    let kept = merge_codex_rate_limit_status(Some(merged), None, "later").unwrap();
    assert_eq!(kept.observed_at, "now");
}

#[test]
fn reset_credits_are_told_with_their_expiry() {
    let now = at(1_700_000_000);
    let summary = |count: i64, estimate: Option<(i64, i64, Option<&str>)>| CodexResetCreditsSummary {
        available_count: count,
        estimate: estimate.map(|(seen, unseen, next)| ResetCreditEstimate {
            remote_available_count: count,
            tracked_available_count: seen,
            untracked_available_count: unseen,
            next_expires_at: next.map(str::to_string),
        }),
    };
    assert_eq!(codex_reset_credit_text(None, &now), "not reported by Codex");
    assert_eq!(
        codex_reset_credit_text(Some(&summary(1, None)), &now),
        "1 credit available · local expiry tracking not initialized yet"
    );
    assert_eq!(
        codex_reset_credit_text(Some(&summary(0, Some((0, 0, None)))), &now),
        "0 credits available · tracking future grants"
    );
    assert_eq!(
        codex_reset_credit_text(
            Some(&summary(3, Some((1, 2, Some("2023-11-15T22:13:20Z"))))),
            &now
        ),
        "3 credits available · 1 tracked credit · next expires in 24h · 2 existing credits from before tracking; expiry unknown"
    );
    assert_eq!(
        reset_credit_text(Some(&summary(3, Some((2, 1, None)))), Some("soon")),
        "3 credits available · 2 tracked credits · next expires soon · 1 existing credit from before tracking; expiry unknown"
    );
}

#[test]
fn windows_are_shown_as_cards_and_lines() {
    let now = at(1_700_000_000);
    let window = CodexRateWindow {
        label: "Primary".to_string(),
        used_percent: Some("14.0".to_string()),
        window_minutes: 300,
        resets_at: Some(1_700_003_600),
    };
    assert_eq!(
        usage_window_card("Primary", Some(&window), &percents("86", "14"), &now),
        "<section class=\"usage-card\"><strong>Primary</strong><span>86% remaining · 14% used</span><div class=\"meter\" title=\"86% remaining\"><span style=\"width:86%\"></span></div><span class=\"muted\">5h window · resets in 1h</span></section>"
    );
    assert_eq!(
        usage_reset_line("Primary", Some(&window), &now),
        "<span>Primary: 5h window resets in 1h</span>"
    );
    assert_eq!(
        usage_window_card("Primary", None, &percents("", ""), &now),
        "<section class=\"usage-card\"><strong>Primary</strong><span class=\"muted\">not reported</span></section>"
    );
    assert_eq!(
        usage_reset_line("Secondary", None, &now),
        "<span>Secondary: not reported</span>"
    );
    assert!(window_card("x", Some(&window), &percents("1", "2"), "<soon>").contains("&lt;soon&gt;"));
    assert!(reset_line("x", Some(&window), "soon").contains("resets soon"));
    let endless = CodexRateWindow {
        resets_at: Some(i64::MAX),
        ..window
    };
    assert!(usage_reset_line("x", Some(&endless), &now).contains("resets unknown"));
}

#[test]
fn usage_is_told_in_lines_and_in_a_panel() {
    let now = at(1_782_199_800);
    let usage = codex_usage_from_payload("2026-06-23T07:29:57Z", &json(PAYLOAD));
    assert!(is_countable(&usage));
    let primary = percents("86", "14");
    let secondary = percents("62", "38");
    assert_eq!(
        codex_usage_text(Some(&usage), &primary, &secondary, &now),
        "Codex usage:\n- observed: just now\n- plan: prolite\n- total tokens: 619,644\n- last turn: 109,315\n- cached input: 528,640\n- context window: 258,400\n- add-on credits: not reported\n- usage reset credits: 2 credits available · local expiry tracking not initialized yet\n- primary: 86% left, 14% used, resets in 2h\n- secondary: 62% left, 38% used, resets in 2d"
    );
    assert_eq!(
        codex_usage_text(None, &primary, &secondary, &now),
        "Codex usage: no saved `/status` data found yet."
    );
    let panel = codex_usage_dialog(&config(), Some(&usage), true, &primary, &secondary, &now);
    assert!(panel.contains("<p class=\"muted\">Launcher: <strong>codex -x</strong></p>\n<section"));
    assert!(panel.contains("<span>Last turn: 109,315 · cached input: 528,640</span>"));
    assert!(panel.contains("action=\"/agents/codex/reset\""));
    assert!(panel.contains("<p class=\"muted\">Observed just now</p>\n            <form"));
    let empty = codex_usage_dialog(&config(), None, true, &primary, &secondary, &now);
    assert!(empty.contains("No Codex usage event has been recorded yet."));
    assert!(empty.contains("disabled title="));
    let loading = codex_usage_dialog(&config(), None, false, &primary, &secondary, &now);
    assert!(loading.contains("Loading Codex usage from saved sessions..."));
    let mut with_command = config();
    with_command.codex_reset_command = Some(vec!["x".into()]);
    let panel = codex_usage_dialog(&with_command, None, true, &primary, &secondary, &now);
    assert!(panel.contains("action=\"/agents/codex/reset\""));
    let broken = codex_usage_from_payload(
        "",
        &json(r#"{"info":{"model_context_window":-9223372036854775808}}"#),
    );
    assert!(!is_countable(&broken));
}

#[test]
fn estimates_are_attached_to_credits() {
    let estimate = || ResetCreditEstimate {
        remote_available_count: 2,
        tracked_available_count: 1,
        untracked_available_count: 1,
        next_expires_at: None,
    };
    let mut usage = codex_usage_from_payload("", &json(PAYLOAD));
    attach_reset_credit_estimate(&mut usage, estimate());
    let credits = usage.reset_credits.unwrap();
    assert_eq!(credits.available_count, 2);
    assert_eq!(credits.estimate, Some(estimate()));
    let mut bare = codex_usage_from_payload("", &json("{}"));
    attach_reset_credit_estimate(&mut bare, estimate());
    assert!(bare.reset_credits.is_none());
}

#[test]
fn the_service_is_asked_in_json() {
    let hello = "{\"id\":0,\"method\":\"initialize\",\"params\":{\"capabilities\":{\"experimentalApi\":true},\"clientInfo\":{\"name\":\"plugdeck\",\"version\":\"0.1.0\"}}}\n{\"method\":\"initialized\"}\n";
    assert_eq!(
        limits_request("0.1.0"),
        format!("{hello}{{\"id\":1,\"method\":\"account/rateLimits/read\",\"params\":null}}\n")
    );
    assert_eq!(
        reset_request_with("0.1.0", "k-1"),
        format!("{hello}{{\"id\":1,\"method\":\"account/rateLimitResetCredit/consume\",\"params\":{{\"idempotencyKey\":\"k-1\"}}}}\n")
    );
    let first = reset_request("0.1.0");
    let second = reset_request("0.1.0");
    assert_ne!(first, second);
    let values = read_answers(&first);
    assert_eq!(values.len(), 3);
    let key = values[2].get("params").unwrap().text_of("idempotencyKey").unwrap();
    assert_eq!(key.len(), 36);
    assert_eq!(key.matches('-').count(), 4);
}

#[test]
fn answers_are_found_by_their_number() {
    let values = read_answers(
        "noise\n{\"id\":0,\"result\":{\"outcome\":\"no\"}}\n{\"id\":1,\"result\":{\"outcome\":\"reset\"}}\n{\"id\":1}\n",
    );
    assert_eq!(values.len(), 3);
    assert_eq!(reset_outcome(&values), Some("reset"));
    assert!(rate_limits_result(&values).is_some());
    assert_eq!(reset_outcome(&read_answers("{\"id\":1}")), None);
    assert_eq!(reset_outcome(&read_answers("")), None);
}

#[test]
fn output_of_the_service_is_text_or_nothing() {
    assert_eq!(server_output(false, Vec::new()), None);
    assert_eq!(server_output(true, Vec::new()), Some(String::new()));
    assert_eq!(server_output(false, b"x".to_vec()), Some("x".to_string()));
    assert_eq!(server_output(true, vec![0xff]), None);
}

#[test]
fn resets_are_answered_by_their_outcome() {
    let told = |outcome: Option<&str>| answer_reset(outcome);
    assert!(matches!(told(Some("reset")), (true, Reply::Redirect(to)) if to == "/agents"));
    assert!(matches!(told(Some("alreadyRedeemed")), (true, Reply::Redirect(_))));
    assert!(matches!(told(Some("nothingToReset")), (false, Reply::Plain(409, body)) if body == "no current Codex limit window is eligible for reset"));
    assert!(matches!(told(Some("noCredit")), (false, Reply::Plain(409, body)) if body == "Codex reports no reset credits available"));
    assert!(matches!(told(Some("odd")), (false, Reply::Plain(500, body)) if body == "unexpected Codex reset outcome: odd"));
    assert!(matches!(told(None), (false, Reply::Plain(500, body)) if body == "could not ask Codex to use a reset credit"));
    assert!(matches!(answer_command(&CommandEnd::Success), (true, Reply::Redirect(_))));
    assert!(matches!(answer_command(&CommandEnd::Failure(" bad ".into())), (false, Reply::Plain(500, body)) if body == "reset command failed: bad"));
    assert!(matches!(answer_command(&CommandEnd::NotStarted("why".into())), (false, Reply::Plain(500, body)) if body == "could not start reset command: why"));
}

#[test]
fn resets_need_the_word_that_confirms_them() {
    let mut config = config();
    assert!(matches!(codex_reset_post("yes", &config), ResetStep::Answer(Reply::Plain(400, body)) if body == "confirmation required"));
    assert!(matches!(codex_reset_post(" USE_RESET ", &config), ResetStep::Consume));
    config.codex_reset_command = Some(vec!["run".into(), "a".into(), "b".into()]);
    match codex_reset_post("USE_RESET", &config) {
        ResetStep::Run(program, args) => {
            assert_eq!(program, "run");
            assert_eq!(args, vec!["a", "b"]);
        }
        _ => panic!("a command"),
    }
    config.codex_reset_command = Some(Vec::new());
    assert!(matches!(codex_reset_post("USE_RESET", &config), ResetStep::Answer(Reply::Plain(409, _))));
}

#[test]
fn the_service_is_waited_for() {
    assert_eq!(service_step(true, 0), ServiceStep::Read);
    assert_eq!(service_step(true, 20_000), ServiceStep::Read);
    assert_eq!(service_step(false, 11_999), ServiceStep::Sleep);
    assert_eq!(service_step(false, 12_000), ServiceStep::Kill);
}
