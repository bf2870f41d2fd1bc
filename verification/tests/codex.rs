use plugdeck::codex::{
    codex_conversation_by_id, codex_conversation_from_file, codex_content_text,
    codex_transcript_html, codex_transcript_messages, codex_visible_message,
    collect_codex_session_files, is_codex_synthetic_user_text, load_codex_thread_names,
    read_session_file, recent_files, visits_directory, CodexConversation, CodexIndex, CodexProject,
    DirEntry, DirTree, FileStamp, SessionContent, ThreadName,
};
use plugdeck::codex_projects::{
    codex_browser_drawer_html, configured_codex_projects, conversation_row_html, drawer_html,
    listed_projects, load_codex_index, project_group_html, tally_projects,
};
use plugdeck::json::{parse_json, parse_lines, Json};
use plugdeck::messages::{agent_messages_html, codex_transcript_count};
use plugdeck::tables::{parse_toml, Toml};
use plugdeck::times::Moment;

fn at(seconds: i64) -> Moment {
    Moment { seconds, nanos: 0 }
}

fn lines(text: &str) -> Vec<String> {
    text.lines().map(str::to_string).collect()
}

fn values(text: &str) -> Vec<Json> {
    parse_lines(&lines(text))
}

fn name(id: &str, title: &str, updated_at: &str) -> ThreadName {
    ThreadName {
        id: id.to_string(),
        title: title.to_string(),
        updated_at: updated_at.to_string(),
    }
}

fn conversation(id: &str, cwd: &str, updated_at: &str) -> CodexConversation {
    CodexConversation {
        id: id.to_string(),
        title: format!("title {id}"),
        cwd: cwd.to_string(),
        updated_at: updated_at.to_string(),
        path: format!("/s/{id}.jsonl"),
        preview: "preview".to_string(),
        message_count: 2,
    }
}

const FIRST: &str = r#"{"timestamp":"2026-06-23T07:24:22Z","type":"session_meta","payload":{"id":"thread-1","cwd":"/work/app","timestamp":"2026-06-23T07:24:22Z"}}
{"timestamp":"2026-06-23T07:24:23Z","type":"response_item","payload":{"type":"message","role":"developer","content":[{"type":"input_text","text":"secret instructions"}]}}
{"timestamp":"2026-06-23T07:24:24Z","type":"response_item","payload":{"type":"message","role":"user","content":[{"type":"input_text","text":"load this project"}]}}
{"timestamp":"2026-06-23T07:24:25Z","type":"response_item","payload":{"type":"message","role":"assistant","content":[{"type":"output_text","text":"done"}]}}
"#;

const SECOND: &str = r##"{"timestamp":"2026-06-23T07:24:22Z","type":"session_meta","payload":{"id":"thread-2","cwd":"/work/app","timestamp":"2026-06-23T07:24:22Z"}}
{"timestamp":"2026-06-23T07:24:23Z","type":"response_item","payload":{"type":"message","role":"user","content":[{"type":"input_text","text":"# AGENTS.md instructions for /work/app"}]}}
{"timestamp":"2026-06-23T07:24:24Z","type":"response_item","payload":{"type":"message","role":"user","content":[{"type":"input_text","text":"fix plugdeck loading"}]}}
{"timestamp":"2026-06-23T07:24:25Z","type":"response_item","payload":{"type":"message","role":"assistant","content":[{"type":"output_text","text":"done"}]}}
"##;

#[test]
fn codex_conversation_parser_uses_index_title_and_visible_messages() {
    let path = "/s/rollout-2026-06-23T09-24-22-thread-1.jsonl";
    let names = vec![name("thread-1", "Indexed title", "2026-06-23T07:30:00Z")];
    let values = values(FIRST);
    let conversation =
        codex_conversation_from_file(path, &values, &names, "/home/u", &at(0)).unwrap();
    assert_eq!(conversation.title, "Indexed title");
    assert_eq!(conversation.cwd, "/work/app");
    assert_eq!(conversation.message_count, 2);
    assert_eq!(conversation.preview, "load this project");
    assert_eq!(conversation.updated_at, "2026-06-23T07:30:00Z");
    assert_eq!(conversation.path, path);

    let messages = codex_transcript_messages(&values);
    assert_eq!(messages.len(), 2);
    assert_eq!(messages[0].role, "assistant");
    assert_eq!(messages[1].role, "user");
}

#[test]
fn codex_conversation_parser_filters_synthetic_codex_context() {
    let path = "/s/rollout-2026-06-23T09-24-22-thread-2.jsonl";
    let names = vec![name(
        "thread-2",
        "# AGENTS.md instructions for /work/app",
        "2026-06-23T07:30:00Z",
    )];
    let values = values(SECOND);
    let conversation =
        codex_conversation_from_file(path, &values, &names, "/home/u", &at(0)).unwrap();
    assert_eq!(conversation.title, "fix plugdeck loading");
    assert_eq!(conversation.preview, "fix plugdeck loading");
    assert_eq!(conversation.message_count, 2);

    let messages = codex_transcript_messages(&values);
    assert_eq!(messages.len(), 2);
    assert_eq!(messages[0].role, "assistant");
    assert_eq!(messages[1].role, "user");
}

#[test]
fn conversations_fall_back_on_what_there_is() {
    let bare = values(r#"{"type":"session_meta","payload":{"id":"t"}}"#);
    let found =
        codex_conversation_from_file("/s/t.jsonl", &bare, &Vec::new(), "/home/u", &at(0)).unwrap();
    assert_eq!(found.title, "Untitled Codex conversation");
    assert_eq!(found.cwd, "/home/u");
    assert_eq!(found.updated_at, "1970-01-01T00:00:00+00:00");
    assert_eq!(found.preview, "");
    assert_eq!(found.message_count, 0);

    let begun = values(
        r#"{"type":"session_meta","payload":{"id":"t","timestamp":"2026-01-01T00:00:00Z"}}
{"type":"response_item","payload":{"type":"message","role":"assistant","content":"hello"}}"#,
    );
    let found =
        codex_conversation_from_file("/s/t.jsonl", &begun, &Vec::new(), "/home/u", &at(0)).unwrap();
    assert_eq!(found.updated_at, "2026-01-01T00:00:00Z");
    assert_eq!(found.preview, "hello");

    let nobody = values(r#"{"type":"session_meta","payload":{"cwd":"/x"}}"#);
    assert!(
        codex_conversation_from_file("/s/t.jsonl", &nobody, &Vec::new(), "/h", &at(0)).is_none()
    );
    assert!(
        codex_conversation_from_file("/s/history.jsonl", &bare, &Vec::new(), "/h", &at(0))
            .is_none()
    );
}

#[test]
fn long_first_messages_are_cut_for_the_title() {
    let long = "x".repeat(80);
    let text = format!(
        "{{\"type\":\"session_meta\",\"payload\":{{\"id\":\"t\"}}}}\n{{\"type\":\"response_item\",\"payload\":{{\"type\":\"message\",\"role\":\"user\",\"content\":\"{long}\"}}}}\nnot json"
    );
    let found = read_session_file("/s/t.jsonl", &lines(&text), &Vec::new(), "/h", &at(0));
    let found = found.conversation.unwrap();
    assert_eq!(found.title, format!("{}\n...[truncated]", "x".repeat(36)));
    assert_eq!(found.preview, long);
}

#[test]
fn names_are_read_and_the_last_one_counts() {
    let names = load_codex_thread_names(&values(
        r#"{"id":"a","thread_name":"One","updated_at":"1"}
{"thread_name":"nobody"}
{"id":"a"}
{"id":7}"#,
    ));
    assert_eq!(names.len(), 2);
    assert_eq!(names[1].title, "Untitled");
    assert_eq!(names[1].updated_at, "");
    let bare = values(r#"{"type":"session_meta","payload":{"id":"a"}}"#);
    let found = codex_conversation_from_file("/s/t.jsonl", &bare, &names, "/h", &at(0)).unwrap();
    assert_eq!(found.title, "Untitled");
}

#[test]
fn texts_of_messages_are_joined() {
    let content = parse_json(r#"[{"text":"a"},{"content":"b"},{"text":1,"content":"c"},"d",{"text":"e"}]"#);
    assert_eq!(codex_content_text(&content.unwrap()), "a\nb\ne");
    assert_eq!(codex_content_text(&parse_json("\"plain\"").unwrap()), "plain");
    assert_eq!(codex_content_text(&parse_json("3").unwrap()), "");
}

#[test]
fn only_people_and_agents_are_visible() {
    let message = |kind: &str, role: &str| {
        parse_json(&format!(
            r#"{{"type":"response_item","payload":{{"type":"{kind}","role":"{role}","content":"hi"}}}}"#
        ))
        .unwrap()
    };
    assert_eq!(
        codex_visible_message(&message("message", "user")),
        Some(("user".to_string(), "hi".to_string()))
    );
    assert!(codex_visible_message(&message("message", "system")).is_none());
    assert!(codex_visible_message(&message("reasoning", "user")).is_none());
    assert!(is_codex_synthetic_user_text("  <environment_context> x"));
    assert!(is_codex_synthetic_user_text("a <environment_context> <cwd>/x</cwd>"));
    assert!(!is_codex_synthetic_user_text("a <environment_context>"));
}

#[test]
fn transcripts_show_the_last_eighty_messages() {
    let text: String = (0..85)
        .map(|n| {
            format!(
                "{{\"timestamp\":\"{n}\",\"type\":\"response_item\",\"payload\":{{\"type\":\"message\",\"role\":\"user\",\"content\":\"<article class=\\\"message\\\"> {n}\"}}}}\n"
            )
        })
        .collect();
    let values = values(&text);
    let messages = codex_transcript_messages(&values);
    assert_eq!(messages.len(), 80);
    assert_eq!(messages[0].created_at, "84");
    assert_eq!(messages[79].created_at, "5");
    let html = codex_transcript_html(Some(&values));
    assert_eq!(html, agent_messages_html(&messages));
    assert_eq!(codex_transcript_count(&html), Some(80));
    assert_eq!(
        codex_transcript_html(None),
        "<p class=\"empty\">Conversation not found.</p>"
    );
    let empty = codex_transcript_html(Some(&Vec::new()));
    assert!(empty.contains("no visible user or assistant messages"));
    assert_eq!(codex_transcript_count(&empty), None);
}

#[test]
fn session_files_are_searched_to_a_depth() {
    let file = |path: &str| DirEntry::File(path.to_string());
    let mut deep = DirTree {
        path: "/c/5".to_string(),
        entries: vec![file("/c/5/deep.jsonl")],
    };
    for n in [4, 3, 2, 1] {
        deep = DirTree {
            path: format!("/c/{n}"),
            entries: vec![DirEntry::Folder(deep), file(&format!("/c/{n}/x.jsonl"))],
        };
    }
    let tree = DirTree {
        path: "/c/sessions".to_string(),
        entries: vec![
            file("/c/sessions/a.jsonl"),
            DirEntry::Folder(deep),
            file("/c/sessions/b.txt"),
            DirEntry::Folder(DirTree {
                path: "/c/.tmp/x".to_string(),
                entries: vec![file("/c/.tmp/x/t.jsonl")],
            }),
        ],
    };
    assert_eq!(
        collect_codex_session_files(&tree, Some("/c/history.jsonl")),
        vec![
            "/c/sessions/a.jsonl",
            "/c/4/x.jsonl",
            "/c/3/x.jsonl",
            "/c/2/x.jsonl",
            "/c/1/x.jsonl",
            "/c/history.jsonl",
        ]
    );
    assert!(!visits_directory("/c", 0));
    assert!(!visits_directory("/c/.tmp/x", 3));
    assert!(visits_directory("/c/.tmp", 3));
}

#[test]
fn recent_files_come_first() {
    let stamps: Vec<FileStamp> = (0..200)
        .map(|n| FileStamp {
            path: n.to_string(),
            modified: at(n / 2),
        })
        .collect();
    let recent = recent_files(stamps);
    assert_eq!(recent.len(), 180);
    assert_eq!(recent[0].path, "198");
    assert_eq!(recent[1].path, "199");
    assert_eq!(recent[179].path, "21");
}

fn settings(projects: Vec<(&str, Option<&str>)>) -> Toml {
    let entries = projects
        .into_iter()
        .map(|(path, level)| {
            let details = match level {
                Some(level) => vec![("trust_level".to_string(), Toml::Text(level.to_string()))],
                None => Vec::new(),
            };
            (path.to_string(), Toml::Table(details))
        })
        .collect();
    Toml::Table(vec![("projects".to_string(), Toml::Table(entries))])
}

#[test]
fn tables_are_read_as_they_are_written() {
    let document = parse_toml("b = \"x\"\na.c = [1]\n[d.e]\nf = 1979-05-27\n").unwrap();
    assert_eq!(document.text_of("b"), Some("x"));
    assert_eq!(document.text_of("a"), None);
    assert!(matches!(document.get("a").unwrap().get("c"), Some(Toml::Other)));
    let inner = document.get("d").and_then(|d| d.get("e")).unwrap();
    assert!(matches!(inner.get("f"), Some(Toml::Other)));
    assert!(document.get("none").is_none());
    assert!(parse_toml("= 1").is_none());
    match document {
        Toml::Table(entries) => {
            let keys: Vec<&str> = entries.iter().map(|(key, _)| key.as_str()).collect();
            assert_eq!(keys, vec!["a", "b", "d"]);
        }
        _ => panic!("a table"),
    }
}

#[test]
fn projects_are_read_from_settings() {
    let projects = configured_codex_projects(Some(
        "[projects.\"/work/b\"]\ntrust_level = \"Trusted\"\n[projects.\"/work/a\"]\ntrust_level = \"untrusted\"\n[projects.\"/c/\"]\n",
    ));
    let read: Vec<(&str, &str, bool)> = projects
        .iter()
        .map(|p| (p.path.as_str(), p.name.as_str(), p.trusted))
        .collect();
    assert_eq!(
        read,
        vec![
            ("/c/", "c", false),
            ("/work/a", "a", false),
            ("/work/b", "b", true)
        ]
    );
    assert!(configured_codex_projects(None).is_empty());
    assert!(configured_codex_projects(Some("not = [toml")).is_empty());
    assert!(configured_codex_projects(Some("projects = 3")).is_empty());
    assert!(configured_codex_projects(Some("projects = \"/a\"")).is_empty());
    assert!(configured_codex_projects(Some("[other.projects.\"/a\"]")).is_empty());
    let odd = configured_codex_projects(Some(
        "[projects]\n\"/a\" = 1\n\"/b\" = { trust_level = 2 }\n\"/c\" = { trust_level = \"trusted\" }\n",
    ));
    let read: Vec<(&str, bool)> = odd.iter().map(|p| (p.path.as_str(), p.trusted)).collect();
    assert_eq!(read, vec![("/a", false), ("/b", false), ("/c", true)]);
    let twice = listed_projects(&settings(vec![("/a", None), ("/a", Some("TRUSTED"))]));
    assert_eq!(twice.len(), 1);
    assert!(twice[0].trusted);
    assert!(listed_projects(&Toml::Other).is_empty());
}

#[test]
fn projects_count_their_conversations() {
    let configured = listed_projects(&settings(vec![("/a", None), ("/b", None)]));
    let list = vec![
        conversation("1", "/b", "1"),
        conversation("2", "/c", "2"),
        conversation("3", "/b", "3"),
    ];
    let tallied = tally_projects(configured, &list);
    let read: Vec<(&str, usize)> = tallied
        .iter()
        .map(|p| (p.path.as_str(), p.conversation_count))
        .collect();
    assert_eq!(read, vec![("/a", 0), ("/b", 2), ("/c", 1)]);
}

#[test]
fn the_index_holds_the_latest_conversations() {
    let mut files: Vec<SessionContent> = (0..130)
        .map(|n| SessionContent {
            conversation: Some(conversation(
                &n.to_string(),
                if n % 3 == 0 { "/x/B" } else { "/x/a" },
                &format!("{:03}", n),
            )),
            usage: None,
        })
        .collect();
    files.push(SessionContent {
        conversation: None,
        usage: None,
    });
    let index = load_codex_index(
        files,
        Some("[projects.\"/x/c\"]\n[projects.\"/x/C2\"]\n"),
        None,
        &at(0),
    );
    assert_eq!(index.conversations.len(), 120);
    assert_eq!(index.conversations[0].id, "129");
    assert_eq!(index.conversations[119].id, "10");
    let order: Vec<&str> = index.projects.iter().map(|p| p.name.as_str()).collect();
    assert_eq!(order, vec!["a", "B", "c", "C2"]);
    assert!(index.usage.is_none());
    assert_eq!(
        codex_conversation_by_id(&index, "64").unwrap().title,
        "title 64"
    );
    assert!(codex_conversation_by_id(&index, "none").is_none());
    assert!(codex_conversation_by_id(&CodexIndex::empty(), "64").is_none());
}

#[test]
fn the_drawer_lists_projects_with_conversations() {
    let now = at(1_700_000_000);
    let project = |path: &str, count: usize| CodexProject {
        path: path.to_string(),
        name: "A&B".to_string(),
        trusted: count > 4,
        conversation_count: count,
    };
    let mut list: Vec<CodexConversation> = (0..5)
        .map(|n| conversation(&n.to_string(), "/a", "2023-11-14T22:13:19Z"))
        .collect();
    list[0].id = "\"<".to_string();
    let html = codex_browser_drawer_html(
        &vec![project("/a", 5), project("/none", 0), project("/gone", 2)],
        &list,
        7,
        Some("3"),
        true,
        &now,
    );
    let rows: String = (0..5)
        .map(|n| conversation_row_html(n, &list[n], 7, Some("3"), "just now"))
        .collect();
    let group = project_group_html(&project("/a", 5), 5, &rows);
    assert_eq!(html, drawer_html(&group, true));
    assert!(group.contains("<strong>A&amp;B</strong><span>5 chats · trusted</span>"));
    assert!(group.contains("data-load-more>Load more (2)</button>"));
    assert!(rows.contains("value=\"&quot;&lt;\""));
    assert_eq!(rows.matches(" data-extra-conversation hidden").count(), 2);
    assert_eq!(rows.matches("browser-conversation-row active").count(), 1);
    assert!(rows.contains("just now · 2 msgs · preview"));
    assert!(!project_group_html(&project("/a", 3), 3, "").contains("Load more"));
    assert!(drawer_html("", true).contains("No saved Codex conversations found yet."));
    assert!(drawer_html("x", false).contains("Loading saved Codex conversations..."));
}

#[test]
fn json_is_read_as_it_is_written() {
    match parse_json(r#"{"b":[1,-2.5,null],"a":{"x":"é\n"},"b":true}"#).unwrap() {
        Json::Object(fields, text) => {
            assert_eq!(text, "{\"a\":{\"x\":\"é\\n\"},\"b\":true}");
            assert_eq!(fields.len(), 2);
            assert!(matches!(fields[1].1, Json::Bool(true)));
        }
        _ => panic!("an object"),
    }
    match parse_json("[1, -2.5, null, 18446744073709551615]").unwrap() {
        Json::List(items, _) => {
            assert_eq!(items[0].as_i64(), Some(1));
            assert!(matches!(&items[1], Json::Number(None, text) if text == "-2.5"));
            assert!(matches!(items[2], Json::Null));
            assert_eq!(items[3].as_i64(), None);
        }
        _ => panic!("a list"),
    }
    assert!(parse_json("{").is_none());
    let deep = format!("{}{}", "[".repeat(127), "]".repeat(127));
    assert_eq!(
        parse_json(&deep).is_some(),
        serde_json::from_str::<serde_json::Value>(&deep).is_ok()
    );
    assert!(parse_json(&deep).is_some());
    let deeper = format!("{}{}", "[".repeat(128), "]".repeat(128));
    assert!(parse_json(&deeper).is_none());
}

#[test]
fn numbers_are_told_as_they_are_read() {
    for number in [
        "0.1",
        "2.5e-3",
        "1.7976931348623157e308",
        "123456789.12345678",
        "0.30000000000000004",
        "9007199254740993.5",
        "5e-324",
        "8.41470984807896506652502321630298999622563e-1",
        "37.00000000000001",
    ] {
        let text = format!("[[{{\"a\": {number}}}]]");
        let whole = serde_json::from_str::<serde_json::Value>(&text).unwrap();
        let mut value = parse_json(&text).unwrap();
        for _ in 0..2 {
            value = match value {
                Json::List(mut items, told) => {
                    assert_eq!(items.len(), 1);
                    assert!(told.starts_with('['));
                    items.remove(0)
                }
                _ => panic!("a list"),
            };
        }
        let expected = whole[0][0]["a"].to_string();
        assert!(matches!(value.get("a"), Some(Json::Number(None, told)) if *told == expected));
    }
}

fn agrees(json: &Json, value: &serde_json::Value) -> bool {
    match (json, value) {
        (Json::Null, serde_json::Value::Null) => true,
        (Json::Bool(a), serde_json::Value::Bool(b)) => a == b,
        (Json::Number(n, told), serde_json::Value::Number(m)) => {
            *n == m.as_i64() && *told == m.to_string()
        }
        (Json::Text(a), serde_json::Value::String(b)) => a == b,
        (Json::List(items, told), serde_json::Value::Array(all)) => {
            *told == value.to_string()
                && items.len() == all.len()
                && items.iter().zip(all).all(|(a, b)| agrees(a, b))
        }
        (Json::Object(fields, told), serde_json::Value::Object(all)) => {
            *told == value.to_string()
                && fields.len() == all.len()
                && fields.iter().zip(all).all(|((k, a), (l, b))| k == l && agrees(a, b))
        }
        _ => false,
    }
}

#[test]
fn every_text_is_read_as_the_reader_reads_it() {
    for text in [
        "null",
        " [true, \"x\\u00e9\", {}, [], -0, 1e3, 18446744073709551615] ",
        "{\"b\":{\"c\":[{\"d\":0.1}]},\"a\":1,\"a\":2}",
        "{\"$serde_json::private::RawValue\":\"[1,{\\\"a\\\":2.5}]\"}",
        "[{\"$serde_json::private::RawValue\":\"{\\\"a\\\":[3]}\"}]",
        "{\"$serde_json::private::RawValue\":\"7\"}",
        "{\"a\":1,\"$serde_json::private::RawValue\":\"7\"}",
        "[{\"z\":{\"$serde_json::private::RawValue\":\"7\",\"a\":1}}]",
        "{\"$serde_json::private::RawValue\":7}",
        "[1,]",
        "",
    ] {
        match (parse_json(text), serde_json::from_str::<serde_json::Value>(text)) {
            (Some(json), Ok(value)) => assert!(agrees(&json, &value), "{text}"),
            (None, Err(_)) => {}
            _ => panic!("{text}"),
        }
    }
    let inner = parse_json("{\"$serde_json::private::RawValue\":\"[1]\"}").unwrap();
    assert!(matches!(inner, Json::List(items, _) if items[0].as_i64() == Some(1)));
}
