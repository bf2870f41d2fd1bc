use plugdeck::agents::{AgentRun, AgentSlotRow};
use plugdeck::codex::{CodexConversation, CodexIndex};
use plugdeck::config::Link;
use plugdeck::messages::{
    agent_messages_html, attachment_summary, codex_transcript_count, AgentMessageRow,
};
use plugdeck::notes::{
    allowed_image_type, find_active_channel, image_media_type, may_delete_channel,
    new_channel_name, note_field, notes_location, notes_page, refuse_image, ChannelRow, NoteField,
    NoteForm, NoteRow, DEFAULT_CHANNEL, MAX_IMAGE_BYTES, MAX_NOTE_CHARS,
};
use plugdeck::pages::{
    agent_slot_state, agents_page, find_active_slot, home, index_refresh_due, login_page,
    login_post, missing_slot, module_tiles, needs_fresh_index, page, render_links,
    selected_thread, AgentsView, DeckCounts,
};
use plugdeck::web::{plain, redirect, url_encode, Reply};

fn body_of(reply: Reply) -> String {
    match reply {
        Reply::Page(_, body) => body,
        _ => panic!("not a page"),
    }
}

fn message(role: &str, body: &str) -> AgentMessageRow {
    AgentMessageRow {
        role: role.to_string(),
        body: body.to_string(),
        created_at: "then".to_string(),
        attachment: None,
    }
}

fn slot(id: i64) -> AgentSlotRow {
    AgentSlotRow {
        id,
        name: format!("s{id}"),
        workdir: format!("/w{id}"),
    }
}

fn channel(id: i64, name: &str) -> ChannelRow {
    ChannelRow {
        id,
        name: name.to_string(),
    }
}

fn note(id: i64, body: &str, has_image: bool) -> NoteRow {
    NoteRow {
        id,
        channel: "a&b".to_string(),
        body: body.to_string(),
        has_image,
    }
}

#[test]
fn pages_are_framed() {
    assert_eq!(
        page("A<B", "css", "<p>x</p>"),
        "<!doctype html>\n<html lang=\"en\">\n<head>\n<meta charset=\"utf-8\">\n<meta name=\"viewport\" content=\"width=device-width, initial-scale=1, maximum-scale=1, viewport-fit=cover, interactive-widget=resizes-content\">\n<title>A&lt;B</title>\n<style>\ncss\n</style>\n</head>\n<body><p>x</p></body>\n</html>"
    );
    assert!(matches!(redirect("/x"), Reply::Redirect(to) if to == "/x"));
    assert!(matches!(plain(418, "x"), Reply::Plain(418, body) if body == "x"));
}

#[test]
fn values_are_encoded_for_links() {
    assert_eq!(url_encode("aZ09*-._"), "aZ09*-._");
    assert_eq!(url_encode("a b/é~"), "a+b%2F%C3%A9%7E");
}

#[test]
fn the_deck_shows_its_modules() {
    let mut counts = DeckCounts {
        channels: 2,
        notes: 3,
        messages: 4,
        running: 0,
        jobs: 5,
    };
    assert_eq!(
        module_tiles(&counts),
        "<a class=\"tile primary\" href=\"/notes\"><strong>Notes</strong><span>2 channels · 3 notes</span></a><a class=\"tile primary\" href=\"/agents\"><strong>Agents</strong><span>4 messages</span></a><a class=\"tile primary\" href=\"/downloads\"><strong>YTP Downloader</strong><span>5 active jobs</span></a>"
    );
    counts.running = 1;
    assert!(module_tiles(&counts).contains("<span>4 messages · 1 running</span>"));
    let link = |category: &str, description: &str| Link {
        name: "<n>".into(),
        url: "/u?a&b".into(),
        category: category.into(),
        description: description.into(),
    };
    assert_eq!(render_links(&Vec::new()), "");
    assert_eq!(
        render_links(&vec![link("c", " "), link("c", "d")]),
        "<a class=\"tile\" href=\"/u?a&amp;b\"><strong>&lt;n&gt;</strong><span>c</span></a><a class=\"tile\" href=\"/u?a&amp;b\"><strong>&lt;n&gt;</strong><span>d</span></a>"
    );
    let body = body_of(home(&counts, &vec![link("c", "")]));
    assert!(body.contains("<main class=\"grid\">\n  <a class=\"tile primary\" href=\"/notes\">"));
    assert!(body.ends_with("<span>c</span></a>\n</main>\n"));
}

#[test]
fn logins_are_asked_for() {
    assert!(matches!(login_page(true), Reply::Redirect(to) if to == "/"));
    let asked = body_of(login_page(false));
    assert!(!asked.contains("Wrong password."));
    assert!(login_post(true).is_none());
    let again = body_of(login_post(false).unwrap());
    assert_eq!(
        again,
        asked.replace(
            "<h1>Plugdeck</h1>\n",
            "<h1>Plugdeck</h1>\n  <p class=\"error\">Wrong password.</p>\n"
        )
    );
}

#[test]
fn messages_are_shown_from_first_to_last() {
    assert_eq!(
        agent_messages_html(&Vec::new()),
        "<p class=\"empty\">No messages in this slot yet.</p>"
    );
    let mut rows = vec![message("assistant", " "), message("user", "a\n<b>")];
    rows[0].attachment = Some(attachment_summary(7, "p&q".into(), "image/png".into(), 1));
    let html = agent_messages_html(&rows);
    assert_eq!(
        html,
        "<article class=\"message\">\n  <div class=\"message-avatar\">U</div>\n  <div class=\"message-body\">\n    <div class=\"message-meta\"><strong>user</strong><span class=\"message-log\">then</span></div>\n    <p>a<br>&lt;b&gt;</p>\n  </div>\n</article><article class=\"message\">\n  <div class=\"message-avatar\">A</div>\n  <div class=\"message-body\">\n    <div class=\"message-meta\"><strong>assistant</strong><span class=\"message-log\">then</span></div>\n    <a class=\"attachment-link\" href=\"/agents/attachments/7\">p&amp;q</a><img class=\"message-image\" src=\"/agents/attachments/7\" alt=\"\">\n  </div>\n</article>"
    );
    assert_eq!(codex_transcript_count(&html), Some(2));
    assert_eq!(codex_transcript_count("x"), None);
    rows[0].attachment = Some(attachment_summary(7, "p".into(), "text/plain".into(), 1));
    assert!(!agent_messages_html(&rows).contains("<img"));
}

#[test]
fn the_active_slot_is_the_one_asked_for() {
    let slots = vec![slot(1), slot(2)];
    assert_eq!(find_active_slot(&slots, Some(2)).unwrap().id, 2);
    assert_eq!(find_active_slot(&slots, Some(9)).unwrap().id, 1);
    assert_eq!(find_active_slot(&slots, None).unwrap().id, 1);
    assert!(find_active_slot(&Vec::new(), None).is_none());
    assert!(matches!(missing_slot(), Reply::Plain(500, body) if body == "missing agent slot"));
}

#[test]
fn threads_are_shown_as_asked() {
    let some = |s: &str| Some(s.to_string());
    assert_eq!(selected_thread(some("a"), true, some("b")), some("a"));
    assert_eq!(selected_thread(None, false, some("b")), some("b"));
    assert_eq!(selected_thread(None, true, some("b")), None);
    assert_eq!(selected_thread(None, false, None), None);
    let mut index = CodexIndex::empty();
    assert!(needs_fresh_index(Some(&index), Some("a")));
    assert!(needs_fresh_index(None, Some("a")));
    assert!(!needs_fresh_index(None, None));
    index.conversations.push(CodexConversation {
        id: "a".into(),
        title: String::new(),
        cwd: String::new(),
        updated_at: String::new(),
        path: String::new(),
        preview: String::new(),
        message_count: 0,
    });
    assert!(!needs_fresh_index(Some(&index), Some("a")));
    assert!(index_refresh_due(None, false));
    assert!(index_refresh_due(Some(30), false));
    assert!(!index_refresh_due(Some(29), false));
    assert!(!index_refresh_due(None, true));
}

#[test]
fn the_chat_page_shows_a_chat_or_a_transcript() {
    let messages = vec![message("user", "one"), message("assistant", "two")];
    let slot = slot(4);
    let view = AgentsView {
        slot: &slot,
        label: "<idle>",
        messages: &messages,
        viewing: false,
        title: None,
        transcript: None,
        drawer: "<drawer>",
        dialog: "<panel>",
    };
    let body = body_of(agents_page(&view));
    assert!(body.contains("<strong>Codex</strong><span>/w4</span>"));
    assert!(body.contains("<span data-agent-count>2 messages</span><span class=\"agent-status\" data-agent-status>&lt;idle&gt;</span>"));
    assert!(body.contains(&agent_messages_html(&messages)));
    assert!(body.contains("name=\"slot_id\" type=\"hidden\" value=\"4\""));
    assert!(body.contains("maxlength=\"131072\" placeholder=\"Message Codex\""));
    assert!(body.contains("</main>\n<drawer>\n<panel>\n<script>"));
    assert!(body.contains("const viewingTranscript = false;"));
    assert!(body.contains("fetch(\"/agents/slots/4/state\", {cache:\"no-store\"});"));
    let one = vec![message("user", "x")];
    let transcript = agent_messages_html(&one);
    let seen = body_of(agents_page(&AgentsView {
        viewing: true,
        title: Some("T&T"),
        transcript: Some(&transcript),
        ..view
    }));
    assert!(seen.contains("<strong>T&amp;T</strong>"));
    assert!(seen.contains("<span data-agent-count>1 messages</span>"));
    assert!(seen.contains("const viewingTranscript = true;"));
    let empty = body_of(agents_page(&AgentsView {
        slot: &slot,
        label: "idle",
        messages: &messages,
        viewing: true,
        title: None,
        transcript: Some("<p></p>"),
        drawer: "",
        dialog: "",
    }));
    assert!(empty.contains("<span data-agent-count>2 messages</span>"));
}

#[test]
fn polls_tell_the_state_of_a_slot() {
    let run = AgentRun {
        status: "running".into(),
        current: "ls".into(),
        started_at: String::new(),
    };
    let messages = vec![message("user", "x")];
    let poll = agent_slot_state(&messages, Some(&run), true);
    assert!(poll.running);
    assert_eq!(poll.current, "ls");
    assert_eq!(poll.message_count, 1);
    assert_eq!(poll.messages_html, agent_messages_html(&messages));
    assert_eq!(poll.active_status, "ls");
    let gone = agent_slot_state(&Vec::new(), Some(&run), false);
    assert_eq!(gone.active_status, "idle");
    let idle = agent_slot_state(&Vec::new(), None, true);
    assert!(!idle.running);
    assert_eq!(idle.current, "");
    assert_eq!(idle.active_status, "idle");
}

#[test]
fn channels_are_named_and_found() {
    assert_eq!(notes_location(Some(2)), "/notes?channel=2");
    assert_eq!(notes_location(Some(0)), "/notes");
    assert_eq!(notes_location(None), "/notes");
    assert_eq!(new_channel_name("  a b "), Some("a b".to_string()));
    assert_eq!(new_channel_name("  "), None);
    assert_eq!(new_channel_name(&"é".repeat(40)), Some("é".repeat(40)));
    assert_eq!(new_channel_name(&"é".repeat(41)), None);
    assert!(may_delete_channel(2));
    assert!(!may_delete_channel(1));
    let channels = vec![channel(3, "x"), channel(5, "y")];
    assert_eq!(find_active_channel(&channels, Some(5)), (5, "y".to_string()));
    assert_eq!(find_active_channel(&channels, Some(4)), (3, "x".to_string()));
    assert_eq!(
        find_active_channel(&Vec::new(), Some(4)),
        (1, DEFAULT_CHANNEL.to_string())
    );
}

#[test]
fn notes_are_kept_where_they_say_something() {
    let form = |body: &str| {
        let mut form = NoteForm::new();
        form.take_channel(" 6 ");
        form.take_body(body.to_string());
        form
    };
    let kept = form("  hi ").accept(true).unwrap();
    assert_eq!(kept.channel_id, 6);
    assert_eq!(kept.body, "hi");
    assert!(kept.image.is_none());
    assert!(form("hi").accept(false).is_none());
    assert!(form("  ").accept(true).is_none());
    assert!(form(&"x".repeat(MAX_NOTE_CHARS)).accept(true).is_some());
    assert!(form(&"x".repeat(MAX_NOTE_CHARS + 1)).accept(true).is_none());
    let mut pictured = form("");
    pictured.take_image(Some("image/svg+xml".into()), vec![1]);
    pictured.take_image(Some("image/png".into()), Vec::new());
    pictured.take_image(Some("image/png".into()), vec![0; MAX_IMAGE_BYTES + 1]);
    pictured.take_image(None, vec![1]);
    assert!(pictured.image.is_none());
    pictured.take_image(Some("image/png".into()), vec![9]);
    let kept = pictured.accept(true).unwrap();
    assert_eq!(kept.image.unwrap().bytes, vec![9]);
    let mut plain = NoteForm::new();
    assert_eq!(plain.channel(), 1);
    plain.take_channel("7");
    assert_eq!(plain.channel(), 7);
    assert!(allowed_image_type("image/gif") && allowed_image_type("image/webp"));
    assert!(allowed_image_type("image/jpeg") && !allowed_image_type("image/PNG"));
    assert!(matches!(note_field("channel_id"), NoteField::Channel));
    assert!(matches!(note_field("body"), NoteField::Body));
    assert!(matches!(note_field("image"), NoteField::Image));
    assert!(matches!(note_field("x"), NoteField::Other));
}

#[test]
fn images_are_sent_within_bounds() {
    assert!(matches!(refuse_image(None), Some(Reply::Plain(404, body)) if body == "not found"));
    assert!(refuse_image(Some(&vec![0; MAX_IMAGE_BYTES])).is_none());
    assert!(matches!(
        refuse_image(Some(&vec![0; MAX_IMAGE_BYTES + 1])),
        Some(Reply::Plain(413, body)) if body == "image too large"
    ));
    assert_eq!(image_media_type(Some("image/png".into())), "image/png");
    assert_eq!(image_media_type(None), "application/octet-stream");
}

#[test]
fn the_notes_page_shows_channels_and_notes() {
    let channels = vec![channel(3, "x<y"), channel(5, "y")];
    let notes = vec![note(9, " ", true), note(8, "a\nb", false)];
    let body = body_of(notes_page(&channels, &notes, 3, "x<y"));
    assert!(body.contains(
        "<div class=\"channel-list\"><div class=\"channel-row active\"><a class=\"channel-link\" href=\"/notes?channel=3\"><span>#</span>x&lt;y</a><form action=\"/notes/channels/3/delete\" method=\"post\"><button class=\"icon danger-icon\" type=\"submit\" aria-label=\"Delete channel x&lt;y\">x</button></form></div><div class=\"channel-row\">"
    ));
    assert!(body.contains("<strong># x&lt;y</strong><span>2 messages</span>"));
    assert!(body.contains("    <p>a<br>b</p>\n"));
    assert!(body.contains("    <img class=\"message-image\" src=\"/notes/images/9\" alt=\"\">\n"));
    assert!(body.find("/notes/8/delete").unwrap() < body.find("/notes/9/delete").unwrap());
    assert!(body.contains("<strong>a&amp;b</strong>"));
    assert!(body.contains("maxlength=\"40\""));
    assert!(body.contains("maxlength=\"262144\" placeholder=\"Message #x&lt;y\""));
    let alone = body_of(notes_page(&vec![channel(3, "x")], &Vec::new(), 3, "x"));
    assert!(!alone.contains("Delete channel"));
    assert!(alone.contains("<p class=\"empty\">No messages in #x yet.</p>"));
}
