use plugdeck::agent_jobs::{
    agent_command_args, agent_event, agent_field, agent_message_step, agent_slot_seeds,
    apply_event, attachment_disposition, begin_agent_job, build_agent_prompt,
    choose_conversation_folder, conversation_location, elapsed_seconds, job_report,
    new_output_name, output_name_with, read_agent_stdout, refuse_attachment, refuse_file,
    refuse_message, says_something, slot_upload_dir, start_failure, starting_run, stored_name,
    stored_name_with, AgentEvent, AgentField, AgentForm, AgentSession, JobEnd, MessageStep,
    MAX_AGENT_MESSAGE_CHARS, MAX_AGENT_UPLOAD_BYTES,
};
use plugdeck::agents::{
    agent_control, agent_help_text, agent_location, agent_slot_runtime, agent_slots_status_text,
    command_arg, handle_agent_control, list_agent_path_text, listing_rows, push_line,
    stops_job, write_listing, AgentPromptAttachment, AgentRun, AgentSlotRow, Control, ControlFacts,
    FolderEntry, PathKind,
};
use plugdeck::config::{AgentSlotSeed, Config};
use plugdeck::json::parse_json;
use plugdeck::times::Moment;
use plugdeck::web::Reply;

fn at(seconds: i64) -> Moment {
    Moment { seconds, nanos: 0 }
}

fn slot() -> AgentSlotRow {
    AgentSlotRow {
        id: 3,
        name: "codex".to_string(),
        workdir: "/work".to_string(),
    }
}

fn run(status: &str, current: &str) -> AgentRun {
    AgentRun {
        status: status.to_string(),
        current: current.to_string(),
        started_at: String::new(),
    }
}

fn facts() -> ControlFacts {
    ControlFacts {
        slots: vec![
            slot(),
            AgentSlotRow {
                id: 4,
                name: "b".to_string(),
                workdir: "/b".to_string(),
            },
        ],
        running: vec![4],
        label: "idle".to_string(),
        usage: "usage text".to_string(),
        command: "codex -x".to_string(),
        default_workdir: "/default".to_string(),
        stopped: false,
        is_dir: true,
        listing: "listing".to_string(),
    }
}

fn config() -> Config {
    Config {
        bind: String::new(),
        db_path: String::new(),
        download_dir: String::new(),
        agent_default_workdir: "/home/u".into(),
        agent_upload_dir: "/up".into(),
        agent_codex_bin: "codex".into(),
        agent_codex_args: vec!["-a".into(), "-b".into()],
        codex_home: String::new(),
        codex_reset_command: None,
        agent_slots: Vec::new(),
        ytdlp: String::new(),
        js_runtime: None,
        max_active: 1,
        job_ttl_hours: 24,
        user: String::new(),
        password_hash: None,
        cookie_secret: Vec::new(),
        auth_disabled: false,
        links: Vec::new(),
    }
}

#[test]
fn slots_have_places_and_labels() {
    assert_eq!(agent_location(Some(3)), "/agents?slot=3");
    assert_eq!(agent_location(Some(0)), "/agents");
    assert_eq!(agent_location(Some(-1)), "/agents");
    assert_eq!(agent_location(None), "/agents");
    assert_eq!(agent_slot_runtime(None), "idle");
    assert_eq!(agent_slot_runtime(Some(&run("running", " "))), "running");
    assert_eq!(agent_slot_runtime(Some(&run("running", "ls"))), "ls");
}

#[test]
fn lines_are_kept_to_a_number() {
    let mut log = Vec::new();
    push_line(&mut log, "  ");
    assert!(log.is_empty());
    for n in 0..81 {
        push_line(&mut log, &format!(" {n} "));
    }
    assert_eq!(log.len(), 80);
    assert_eq!(log[0], "1");
    assert_eq!(log[79], "80");
}

#[test]
fn arguments_follow_command_words() {
    assert_eq!(command_arg(" CD ", "cd"), Some(""));
    assert_eq!(command_arg("cd  a b ", "cd"), Some("a b"));
    assert_eq!(command_arg("Cd\tx", "cd"), Some("x"));
    assert_eq!(command_arg("cdx", "cd"), None);
    assert_eq!(command_arg("c", "cd"), None);
    assert_eq!(command_arg("ls", "cd"), None);
}

#[test]
fn messages_with_a_mark_are_commands() {
    let read = |body: &str| agent_control(body, &slot(), "/home/u");
    assert!(read("help").is_none());
    assert!(matches!(read(" ! HELP "), Some(Control::Help)));
    assert!(matches!(read("!commands"), Some(Control::Help)));
    assert!(matches!(read("!overview"), Some(Control::Slots)));
    assert!(matches!(read("!list"), Some(Control::Slots)));
    assert!(matches!(read("!pwd"), Some(Control::Pwd)));
    assert!(matches!(read("!status"), Some(Control::Status)));
    assert!(matches!(read("!limits"), Some(Control::Usage)));
    assert!(matches!(read("!settings"), Some(Control::Model)));
    assert!(matches!(read("!new"), Some(Control::Fresh { keep_workdir: false })));
    assert!(matches!(read("!stayfresh"), Some(Control::Fresh { keep_workdir: true })));
    assert!(matches!(read("!stop"), Some(Control::Stop)));
    assert!(matches!(read("!cd"), Some(Control::ChangeDir(path)) if path == "/home/u"));
    assert!(matches!(read("!cd ~/x"), Some(Control::ChangeDir(path)) if path == "/home/u/x"));
    assert!(matches!(read("!cd sub"), Some(Control::ChangeDir(path)) if path == "/work/sub"));
    assert!(matches!(read("!cd /abs"), Some(Control::ChangeDir(path)) if path == "/abs"));
    assert!(matches!(read("!ls"), Some(Control::List(path)) if path == "/work"));
    assert!(matches!(read("!ls a"), Some(Control::List(path)) if path == "/work/a"));
    assert!(matches!(read("! Other x"), Some(Control::Unknown(text)) if text == "Other x"));
}

#[test]
fn commands_are_answered() {
    let does = |control: Control| handle_agent_control(&control, &slot(), &facts());
    assert!(stops_job(&Control::Stop));
    assert!(stops_job(&Control::Fresh { keep_workdir: true }));
    assert!(stops_job(&Control::Fresh { keep_workdir: false }));
    assert!(!stops_job(&Control::Status) && !stops_job(&Control::ChangeDir("/n".into())));
    let says = |control: Control| {
        let effect = does(control);
        assert!(effect.workdir.is_none());
        assert!(!effect.forgets_session);
        assert!(!effect.forgets_messages);
        effect.reply
    };
    assert_eq!(says(Control::Help), agent_help_text(&facts().slots));
    assert_eq!(
        says(Control::Slots),
        "Slots:\n```text\ncodex: idle | /work\nb: running | /b\n```"
    );
    assert_eq!(says(Control::Pwd), "codex folder: `/work`");
    assert_eq!(
        says(Control::Status),
        "codex is idle. Folder: `/work`\nusage text"
    );
    assert_eq!(says(Control::Usage), "usage text");
    assert_eq!(says(Control::Model), "Agent command: `codex -x`");
    assert_eq!(says(Control::Stop), "This slot is not running.");
    assert_eq!(says(Control::List("/x".into())), "listing");
    assert_eq!(
        says(Control::Unknown("z".into())),
        "Unknown Plugdeck agent command: `z`. Type `!help` for commands."
    );
    let moved = does(Control::ChangeDir("/n".into()));
    assert_eq!(moved.workdir.as_deref(), Some("/n"));
    assert!(moved.forgets_session && !moved.forgets_messages);
    assert_eq!(moved.reply, "codex folder set to `/n`");
    let missing = handle_agent_control(
        &Control::ChangeDir("/n".into()),
        &slot(),
        &ControlFacts {
            is_dir: false,
            ..facts()
        },
    );
    assert!(missing.workdir.is_none() && !missing.forgets_session);
    assert_eq!(missing.reply, "Folder does not exist: `/n`");
    let fresh = does(Control::Fresh {
        keep_workdir: false,
    });
    assert_eq!(fresh.workdir.as_deref(), Some("/default"));
    assert!(fresh.forgets_session && fresh.forgets_messages);
    assert_eq!(
        fresh.reply,
        "codex chat reset. Folder reset to `/default`. Your next message starts a new agent chat."
    );
    let stopped = ControlFacts {
        stopped: true,
        ..facts()
    };
    let kept = handle_agent_control(&Control::Fresh { keep_workdir: true }, &slot(), &stopped);
    assert!(kept.workdir.is_none() && kept.forgets_messages);
    assert_eq!(
        kept.reply,
        "codex chat reset. Folder kept at `/work`. Stopped the current job. Your next message starts a new agent chat."
    );
    assert_eq!(
        handle_agent_control(&Control::Stop, &slot(), &stopped).reply,
        "Stop requested."
    );
}

#[test]
fn help_lists_commands_and_slots() {
    assert_eq!(
        agent_help_text(&vec![slot()]),
        "Agent commands:\n- `!help` or `!commands`\n- `!slots`\n- `!pwd`\n- `!ls [path]`\n- `!cd [path]`\n- `!fresh`\n- `!stayfresh`\n- `!status`\n- `!usage`\n- `!stop`\n- `!model`\n\nSlots:\n- `codex` at `/work`"
    );
    assert_eq!(
        agent_slots_status_text(&Vec::new(), &vec![1]),
        "Slots:\n```text\n\n```"
    );
}

#[test]
fn folders_are_listed_in_order() {
    let entry = |name: &str, is_dir: bool| FolderEntry {
        name: name.to_string(),
        is_dir,
    };
    let kind = PathKind::Folder(vec![
        entry("b", false),
        entry(".hidden", false),
        entry("Zed", true),
        entry("A", false),
        entry("a", false),
        entry("sub", true),
    ]);
    assert_eq!(
        list_agent_path_text("codex", "/w", &kind),
        "codex listing `/w`:\n```text\nsub/\nZed/\nA\na\nb\n```"
    );
    assert_eq!(
        list_agent_path_text("codex", "/w", &PathKind::Folder(vec![entry(".x", true)])),
        "codex listing `/w`:\n```text\n(empty)\n```"
    );
    assert_eq!(
        list_agent_path_text("codex", "/w", &PathKind::Missing),
        "Path does not exist: `/w`"
    );
    assert_eq!(
        list_agent_path_text("codex", "/w", &PathKind::File),
        "codex file:\n```text\n/w\n```"
    );
    assert_eq!(
        list_agent_path_text("codex", "/w", &PathKind::Other),
        "Path is not a directory: `/w`"
    );
    assert_eq!(
        list_agent_path_text("codex", "/w", &PathKind::Unreadable("no".into())),
        "Could not list `/w`: no"
    );
    let many: Vec<FolderEntry> = (0..130).map(|n| entry(&format!("{n:03}"), false)).collect();
    let rows = listing_rows(&many);
    assert_eq!(rows.len(), 130);
    let listing = write_listing("codex", "/w", rows);
    assert!(listing.ends_with("\n119\n```"));
    assert_eq!(listing_rows(&vec![entry("ÄB", true)])[0].lower, "äb");
    assert_eq!(listing_rows(&vec![entry("ÄB", true)])[0].shown, "ÄB/");
}

#[test]
fn prompts_name_the_slot_and_the_file() {
    let plain = "You are running from Plugdeck agent slot codex.\nCurrent working folder: /work\nKeep the final reply concise and include what changed plus any verification run.\n\nUser request:\ndo it";
    assert_eq!(build_agent_prompt(&slot(), "do it", None), plain);
    let file = AgentPromptAttachment {
        filename: "n".into(),
        content_type: "t".into(),
        file_path: "/p".into(),
        size_bytes: 7,
    };
    assert_eq!(
        build_agent_prompt(&slot(), "do it", Some(&file)),
        format!("{plain}\n\nAttached file:\n- name: n\n- path: /p\n- type: t\n- bytes: 7\nUse the file path directly if you need to inspect the upload.")
    );
}

#[test]
fn sessions_go_on_in_their_folder_only() {
    let session = |workdir: &str| {
        Some(AgentSession {
            thread_id: "t-1".to_string(),
            workdir: workdir.to_string(),
        })
    };
    let prompt = build_agent_prompt(&slot(), "do it", None);
    let fresh = vec![
        "exec",
        "--json",
        "-a",
        "-b",
        "--cd",
        "/work",
        "--output-last-message",
        "/tmp/o",
        &prompt,
    ];
    let start = begin_agent_job(&config(), Some(&slot()), "do it", None, &None, "/tmp/o").unwrap();
    assert_eq!(start.note, "codex started in `/work`.");
    assert_eq!(start.program, "codex");
    assert_eq!(start.args, fresh);
    assert_eq!(start.workdir, "/work");
    let elsewhere = begin_agent_job(
        &config(),
        Some(&slot()),
        "do it",
        None,
        &session("/other"),
        "/tmp/o",
    )
    .unwrap();
    assert_eq!(elsewhere.args, fresh);
    let here = begin_agent_job(
        &config(),
        Some(&slot()),
        "do it",
        None,
        &session("/work"),
        "/tmp/o",
    )
    .unwrap();
    assert_eq!(
        here.args,
        vec![
            "exec",
            "resume",
            "--json",
            "-a",
            "-b",
            "--output-last-message",
            "/tmp/o",
            "t-1",
            &prompt
        ]
    );
    assert_eq!(
        here.args,
        agent_command_args(&config(), "/work", Some("t-1"), "/tmp/o", &prompt)
    );
    assert!(begin_agent_job(&config(), None, "do it", None, &None, "/tmp/o").is_none());
    assert_eq!(
        start_failure(&config(), "why"),
        "Could not start `codex`: why"
    );
    assert_eq!(output_name_with(3, "ab"), "plugdeck-agent-3-ab.txt");
    let name = new_output_name(3);
    assert_ne!(name, new_output_name(3));
    assert_eq!(name.len(), "plugdeck-agent-3-.txt".len() + 32);
    assert!(name.starts_with("plugdeck-agent-3-") && name.ends_with(".txt"));
}

#[test]
fn ends_of_jobs_are_reported() {
    let told = |end: JobEnd| job_report(&slot(), 5, &end);
    assert_eq!(told(JobEnd::Stopped), "codex stopped after 5s.");
    assert_eq!(
        told(JobEnd::Success(" ok \n".into())),
        "codex done in 5s.\n\nok"
    );
    assert_eq!(
        told(JobEnd::Success("  ".into())),
        "codex done in 5s.\n\n(Agent completed without a final message.)"
    );
    assert_eq!(
        told(JobEnd::Failed(Some(3), vec!["a".into(), "b".into()])),
        "codex failed with exit code 3 after 5s.\n\n```text\na\nb\n```"
    );
    assert_eq!(
        told(JobEnd::Failed(None, Vec::new())),
        "codex failed with exit code -1 after 5s.\n\n```text\n\n```"
    );
    assert_eq!(
        told(JobEnd::Lost("gone".into())),
        "codex wait failed after 5s: gone"
    );
    assert_eq!(elapsed_seconds(&at(10), &at(17)), 7);
    assert_eq!(elapsed_seconds(&at(17), &at(10)), 0);
    let started = starting_run(&at(0));
    assert_eq!(started.status, "starting");
    assert_eq!(started.current, "starting");
    assert_eq!(started.started_at, "1970-01-01T00:00:00+00:00");
}

#[test]
fn events_move_a_run_on() {
    let read = |line: &str| read_agent_stdout(line);
    assert!(matches!(read("not json"), AgentEvent::Nothing));
    assert!(matches!(read(r#"{"type":"thread.started"}"#), AgentEvent::Nothing));
    assert!(matches!(
        read(r#"{"type":"thread.started","thread_id":"t"}"#),
        AgentEvent::Session(id) if id == "t"
    ));
    assert!(matches!(
        read(r#"{"type":"item.started","item":{"type":"other"}}"#),
        AgentEvent::Nothing
    ));
    let item = |kind: &str, rest: &str| {
        read(&format!(
            r#"{{"type":"item.{kind}","item":{{"type":"command_execution"{rest}}}}}"#
        ))
    };
    let begun = item("started", r#","command":"ls""#);
    assert!(matches!(
        &begun,
        AgentEvent::Running(current, message) if current == "ls" && message == "running: `ls`"
    ));
    let mut state = run("starting", "starting");
    apply_event(&mut state, &begun);
    assert_eq!((state.status.as_str(), state.current.as_str()), ("running", "ls"));
    assert!(matches!(
        item("started", ""),
        AgentEvent::Running(current, _) if current == "(unknown command)"
    ));
    let done = item("completed", r#","command":"ls","exit_code":0"#);
    assert!(matches!(done, AgentEvent::Finished(None)));
    apply_event(&mut state, &done);
    assert_eq!((state.status.as_str(), state.current.as_str()), ("running", ""));
    assert!(matches!(item("completed", ""), AgentEvent::Finished(None)));
    assert!(matches!(
        item("completed", r#","command":"ls","exit_code":2,"aggregated_output":"bad""#),
        AgentEvent::Finished(Some(message)) if message == "command exit 2: `ls`\n```text\nbad\n```"
    ));
    apply_event(&mut state, &AgentEvent::Nothing);
    assert_eq!(state.status, "running");
    let value = parse_json(r#"{"type":"turn.completed"}"#).unwrap();
    assert!(matches!(agent_event(&value), AgentEvent::Nothing));
}

#[test]
fn forms_are_read_field_by_field() {
    let mut form = AgentForm::new();
    assert_eq!(form.slot(), 1);
    form.take_slot(" 4 ");
    assert_eq!(form.slot(), 4);
    form.take_slot("x");
    assert_eq!(form.slot(), 1);
    form.take_body("hi".to_string());
    assert_eq!(form.body, "hi");
    form.take_upload(None, None, Vec::new());
    assert!(form.upload.is_none());
    form.take_upload(None, None, vec![1]);
    let upload = form.upload.as_ref().unwrap();
    assert_eq!(upload.filename, "attachment");
    assert_eq!(upload.content_type, "application/octet-stream");
    form.take_upload(Some("f".into()), Some("t".into()), vec![2]);
    assert_eq!(form.upload.as_ref().unwrap().filename, "f");
    form.take_upload(Some("g".into()), None, vec![0; MAX_AGENT_UPLOAD_BYTES + 1]);
    assert_eq!(form.upload.as_ref().unwrap().filename, "f");
    assert!(matches!(agent_field("slot_id"), AgentField::Slot));
    assert!(matches!(agent_field("body"), AgentField::Body));
    assert!(matches!(agent_field("attachment"), AgentField::Upload));
    assert!(matches!(agent_field("file"), AgentField::Upload));
    assert!(matches!(agent_field("x"), AgentField::Other));
}

#[test]
fn messages_are_refused_started_or_put_off() {
    assert_eq!(refuse_message(None, "x").as_deref(), Some("/agents"));
    assert_eq!(refuse_message(Some(&slot()), "x"), None);
    let long = "é".repeat(MAX_AGENT_MESSAGE_CHARS / 2 + 1);
    assert_eq!(
        refuse_message(Some(&slot()), &long).as_deref(),
        Some("/agents?slot=3")
    );
    assert_eq!(
        refuse_message(Some(&slot()), &"x".repeat(MAX_AGENT_MESSAGE_CHARS)),
        None
    );
    assert!(says_something("x", None));
    assert!(says_something("  ", Some(1)));
    assert!(!says_something("  ", None));
    assert!(matches!(agent_message_step(true, true, &slot(), "!x"), MessageStep::Handled));
    assert!(matches!(
        agent_message_step(false, true, &slot(), "x"),
        MessageStep::Busy(text) if text == "codex is already running. Use another slot or send `!stop` first."
    ));
    assert!(matches!(
        agent_message_step(false, false, &slot(), " x "),
        MessageStep::Start(text) if text == "x"
    ));
    assert!(matches!(
        agent_message_step(false, false, &slot(), ""),
        MessageStep::Start(text) if text == "Please inspect the attached file."
    ));
}

#[test]
fn uploads_are_stored_and_sent() {
    assert_eq!(stored_name_with("ab", "../a b.txt"), "ab-.._a_b.txt");
    let name = stored_name("f.png");
    assert_ne!(name, stored_name("f.png"));
    assert_eq!(name.len(), 32 + "-f.png".len());
    assert!(name.ends_with("-f.png"));
    assert_eq!(slot_upload_dir(&config(), 3), "/up/slot-3");
    let refused = |path, root, is_file| refuse_file(path, root, is_file, "bad upload dir");
    assert!(refused(Some("/up/slot-3/f"), Some("/up"), true).is_none());
    assert!(matches!(refused(None, Some("/up"), true), Some(Reply::Plain(404, text)) if text == "missing file"));
    assert!(matches!(refused(Some("/up/f"), None, true), Some(Reply::Plain(500, text)) if text == "bad upload dir"));
    assert!(matches!(refused(Some("/etc/f"), Some("/up"), true), Some(Reply::Plain(403, text)) if text == "forbidden"));
    assert!(matches!(refused(Some("/up/d"), Some("/up"), false), Some(Reply::Plain(403, _))));
    assert!(matches!(refuse_attachment(None), Some(Reply::Plain(404, text)) if text == "not found"));
    assert!(matches!(refuse_attachment(Some(-1)), Some(Reply::Plain(413, text)) if text == "file too large"));
    assert!(matches!(refuse_attachment(Some(26_214_401)), Some(Reply::Plain(413, _))));
    assert!(refuse_attachment(Some(26_214_400)).is_none());
    assert_eq!(
        attachment_disposition("a\"é b.png", "image/png"),
        "inline; filename=\"a b.png\""
    );
    assert_eq!(
        attachment_disposition("é", "text/plain"),
        "attachment; filename=\"attachment\""
    );
}

#[test]
fn conversations_are_opened_in_their_folder() {
    let choose = |found, requested: &str, exists, resolved| {
        choose_conversation_folder(found, requested, exists, resolved, "/home/u")
    };
    assert_eq!(choose(None, "/x", true, Some("/x")), None);
    assert_eq!(
        choose(Some("/c"), "/x", true, Some("/real")).as_deref(),
        Some("/real")
    );
    assert_eq!(
        choose(Some("/c"), " ~/x", true, None).as_deref(),
        Some("/home/u/x")
    );
    assert_eq!(
        choose(Some("~/c"), "/x", false, None).as_deref(),
        Some("/home/u/c")
    );
    assert_eq!(
        conversation_location(3, "a b&c"),
        "/agents?slot=3&thread=a+b%26c"
    );
}

#[test]
fn there_is_always_a_slot() {
    let mut config = config();
    let seeds = agent_slot_seeds(&config);
    assert_eq!(seeds.len(), 1);
    assert_eq!(seeds[0].name, "codex");
    assert_eq!(seeds[0].workdir, "/home/u");
    config.agent_slots = vec![AgentSlotSeed {
        name: "x".into(),
        workdir: "/y".into(),
    }];
    let seeds = agent_slot_seeds(&config);
    assert_eq!(seeds.len(), 1);
    assert_eq!(seeds[0].name, "x");
    assert_eq!(seeds[0].workdir, "/y");
}
