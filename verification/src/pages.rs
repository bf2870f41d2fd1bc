//! The pages of the deck.

use vstd::prelude::*;
use vstd::string::StringExecFns;

use crate::agents;
use crate::agents::AgentRun;
use crate::agents::AgentSlotRow;
use crate::agents::SlotView;
use crate::codex;
use crate::codex::CodexIndex;
use crate::config;
use crate::config::Link;
use crate::config::LinkView;
use crate::decimal;
use crate::html;
use crate::messages;
use crate::messages::AgentMessageRow;
use crate::messages::MessageView;
use crate::text;
use crate::web;
use crate::web::Reply;
use crate::web::ReplyView;

verus! {

/// How many seconds an index of conversations stays fresh.
pub const INDEX_FRESH_SECONDS: u64 = 30;

// ---------------------------------------------------------------------------
// The frame
// ---------------------------------------------------------------------------

/// A page of the deck: its title, its style and its body.
pub open spec fn page_text(title: Seq<char>, style: Seq<char>, body: Seq<char>) -> Seq<char> {
    "<!doctype html>\n<html lang=\"en\">\n<head>\n<meta charset=\"utf-8\">\n<meta name=\"viewport\" content=\"width=device-width, initial-scale=1, maximum-scale=1, viewport-fit=cover, interactive-widget=resizes-content\">\n<title>"@
        + html::escaped(title) + "</title>\n<style>\n"@ + style + "\n</style>\n</head>\n<body>"@
        + body + "</body>\n</html>"@
}

pub fn page(title: &str, style: &str, body: &str) -> (res: String)
    ensures
        res@ == page_text(title@, style@, body@),
{
    let mut out = String::from_str(
        "<!doctype html>\n<html lang=\"en\">\n<head>\n<meta charset=\"utf-8\">\n<meta name=\"viewport\" content=\"width=device-width, initial-scale=1, maximum-scale=1, viewport-fit=cover, interactive-widget=resizes-content\">\n<title>",
    );
    out.append(html::html_escape(title).as_str());
    out.append("</title>\n<style>\n");
    out.append(style);
    out.append("\n</style>\n</head>\n<body>");
    out.append(body);
    out.append("</body>\n</html>");
    out
}

// ---------------------------------------------------------------------------
// Home
// ---------------------------------------------------------------------------

/// A tile on the home page.
pub open spec fn tile(primary: bool, href: Seq<char>, name: Seq<char>, detail: Seq<char>) -> Seq<char> {
    "<a class=\""@ + if primary {
        "tile primary"@
    } else {
        "tile"@
    } + "\" href=\""@ + html::escaped(href) + "\"><strong>"@ + html::escaped(name)
        + "</strong><span>"@ + html::escaped(detail) + "</span></a>"@
}

fn tile_html(primary: bool, href: &str, name: &str, detail: &str) -> (res: String)
    ensures
        res@ == tile(primary, href@, name@, detail@),
{
    let mut out = String::from_str("<a class=\"");
    if primary {
        out.append("tile primary");
    } else {
        out.append("tile");
    }
    out.append("\" href=\"");
    out.append(html::html_escape(href).as_str());
    out.append("\"><strong>");
    out.append(html::html_escape(name).as_str());
    out.append("</strong><span>");
    out.append(html::html_escape(detail).as_str());
    out.append("</span></a>");
    out
}

/// The numbers that the tiles tell.
#[derive(Clone, Copy, Debug, PartialEq, Eq, Structural)]
pub struct DeckCounts {
    pub channels: i64,
    pub notes: i64,
    pub messages: i64,
    pub running: usize,
    pub jobs: usize,
}

pub open spec fn notes_told(counts: DeckCounts) -> Seq<char> {
    decimal::decimal(counts.channels as int) + " channels · "@ + decimal::decimal(
        counts.notes as int,
    ) + " notes"@
}

pub open spec fn agents_told(counts: DeckCounts) -> Seq<char> {
    if counts.running == 0 {
        decimal::decimal(counts.messages as int) + " messages"@
    } else {
        decimal::decimal(counts.messages as int) + " messages · "@ + decimal::decimal(
            counts.running as int,
        ) + " running"@
    }
}

pub open spec fn downloads_told(counts: DeckCounts) -> Seq<char> {
    decimal::decimal(counts.jobs as int) + " active jobs"@
}

/// The tiles of the tools.
pub open spec fn tiles(counts: DeckCounts) -> Seq<char> {
    tile(true, "/notes"@, "Notes"@, notes_told(counts)) + tile(
        true,
        "/agents"@,
        "Agents"@,
        agents_told(counts),
    ) + tile(true, "/downloads"@, "YTP Downloader"@, downloads_told(counts))
}

fn notes_detail(counts: &DeckCounts) -> (res: String)
    ensures
        res@ == notes_told(*counts),
{
    let mut out = decimal::integer_text(counts.channels);
    out.append(" channels · ");
    out.append(decimal::integer_text(counts.notes).as_str());
    out.append(" notes");
    out
}

fn agents_detail(counts: &DeckCounts) -> (res: String)
    ensures
        res@ == agents_told(*counts),
{
    let mut out = decimal::integer_text(counts.messages);
    if counts.running == 0 {
        out.append(" messages");
    } else {
        out.append(" messages · ");
        out.append(decimal::size_text(counts.running).as_str());
        out.append(" running");
    }
    out
}

fn downloads_detail(counts: &DeckCounts) -> (res: String)
    ensures
        res@ == downloads_told(*counts),
{
    let mut out = decimal::size_text(counts.jobs);
    out.append(" active jobs");
    out
}

pub fn module_tiles(counts: &DeckCounts) -> (res: String)
    ensures
        res@ == tiles(*counts),
{
    let mut out = tile_html(true, "/notes", "Notes", notes_detail(counts).as_str());
    out.append(tile_html(true, "/agents", "Agents", agents_detail(counts).as_str()).as_str());
    out.append(
        tile_html(
            true,
            "/downloads",
            "YTP Downloader",
            downloads_detail(counts).as_str(),
        ).as_str(),
    );
    out
}

/// The tile of a link, which tells its description, or its category where
/// there is none.
pub open spec fn link_tile(link: LinkView) -> Seq<char> {
    tile(
        false,
        link.url,
        link.name,
        if text::is_blank(link.description) {
            link.category
        } else {
            link.description
        },
    )
}

pub open spec fn links_text(links: Seq<LinkView>) -> Seq<char>
    decreases links.len(),
{
    if links.len() == 0 {
        ""@
    } else {
        links_text(links.drop_last()) + link_tile(links.last())
    }
}

pub fn render_links(links: &Vec<Link>) -> (res: String)
    ensures
        res@ == links_text(config::link_views(links@)),
{
    let ghost all = config::link_views(links@);
    let mut out = "".to_owned();
    let mut i: usize = 0;
    while i < links.len()
        invariant
            i <= links@.len(),
            all == config::link_views(links@),
            out@ == links_text(all.take(i as int)),
        decreases links@.len() - i,
    {
        assert(all.take(i + 1).drop_last() =~= all.take(i as int));
        let link = &links[i];
        let detail = if text::blank(link.description.as_str()) {
            link.category.as_str()
        } else {
            link.description.as_str()
        };
        out.append(tile_html(false, link.url.as_str(), link.name.as_str(), detail).as_str());
        i += 1;
    }
    assert(all.take(i as int) =~= all);
    out
}

pub open spec fn home_body(counts: DeckCounts, links: Seq<LinkView>) -> Seq<char> {
    "\n<section class=\"hero\">\n  <h1>Plugdeck</h1>\n  <form action=\"/logout\" method=\"post\"><button class=\"ghost\" type=\"submit\">Log out</button></form>\n</section>\n<main class=\"grid\">\n  "@
        + tiles(counts) + "\n  "@ + links_text(links) + "\n</main>\n"@
}

/// The home page.
pub fn home(counts: &DeckCounts, links: &Vec<Link>) -> (res: Reply)
    ensures
        res@ == ReplyView::Page("Plugdeck"@, home_body(*counts, config::link_views(links@))),
{
    let mut out = String::from_str(
        "\n<section class=\"hero\">\n  <h1>Plugdeck</h1>\n  <form action=\"/logout\" method=\"post\"><button class=\"ghost\" type=\"submit\">Log out</button></form>\n</section>\n<main class=\"grid\">\n  ",
    );
    out.append(module_tiles(counts).as_str());
    out.append("\n  ");
    out.append(render_links(links).as_str());
    out.append("\n</main>\n");
    Reply::Page("Plugdeck".to_owned(), out)
}

// ---------------------------------------------------------------------------
// Login
// ---------------------------------------------------------------------------

/// The page that asks for the password, and says so where it was wrong.
pub open spec fn login_body(wrong: bool) -> Seq<char> {
    "\n<main class=\"login\">\n  <h1>Plugdeck</h1>\n"@ + if wrong {
        "  <p class=\"error\">Wrong password.</p>\n"@
    } else {
        ""@
    }
        + "  <form action=\"/login\" method=\"post\">\n    <label>Password</label>\n    <input name=\"password\" type=\"password\" autocomplete=\"current-password\" autofocus required>\n    <button type=\"submit\">Log in</button>\n  </form>\n</main>\n"@
}

fn login_form(wrong: bool) -> (res: Reply)
    ensures
        res@ == ReplyView::Page("Plugdeck Login"@, login_body(wrong)),
{
    let mut out = String::from_str("\n<main class=\"login\">\n  <h1>Plugdeck</h1>\n");
    if wrong {
        out.append("  <p class=\"error\">Wrong password.</p>\n");
    } else {
        out.append("");
    }
    out.append(
        "  <form action=\"/login\" method=\"post\">\n    <label>Password</label>\n    <input name=\"password\" type=\"password\" autocomplete=\"current-password\" autofocus required>\n    <button type=\"submit\">Log in</button>\n  </form>\n</main>\n",
    );
    Reply::Page("Plugdeck Login".to_owned(), out)
}

/// What a request for the login page is answered.
pub fn login_page(admitted: bool) -> (res: Reply)
    ensures
        res@ == if admitted {
            ReplyView::Redirect("/"@)
        } else {
            ReplyView::Page("Plugdeck Login"@, login_body(false))
        },
{
    if admitted {
        web::redirect("/")
    } else {
        login_form(false)
    }
}

/// What a login is answered, by whether the password was accepted: nothing
/// where a session begins.
pub fn login_post(accepted: bool) -> (res: Option<Reply>)
    ensures
        web::opt_reply(res) == if accepted {
            None
        } else {
            Some(ReplyView::Page("Plugdeck Login"@, login_body(true)))
        },
{
    if accepted {
        None
    } else {
        Some(login_form(true))
    }
}

// ---------------------------------------------------------------------------
// Agents
// ---------------------------------------------------------------------------

/// The slot that is shown: the one that was asked for, else the first one.
pub open spec fn active_slot(slots: Seq<SlotView>, asked: Option<i64>) -> Option<SlotView> {
    match asked_slot(slots, asked) {
        Some(slot) => Some(slot),
        None => if slots.len() > 0 {
            Some(slots[0])
        } else {
            None
        },
    }
}

/// The first slot with the id that was asked for.
pub open spec fn asked_slot(slots: Seq<SlotView>, asked: Option<i64>) -> Option<SlotView>
    decreases slots.len(),
{
    if slots.len() == 0 {
        None
    } else if Some(slots[0].id) == asked {
        Some(slots[0])
    } else {
        asked_slot(slots.skip(1), asked)
    }
}

proof fn nothing_asked_nothing_found(slots: Seq<SlotView>)
    ensures
        asked_slot(slots, None) is None,
    decreases slots.len(),
{
    if slots.len() > 0 {
        nothing_asked_nothing_found(slots.skip(1));
    }
}

/// Finds the slot that is shown.
pub fn find_active_slot(slots: &Vec<AgentSlotRow>, asked: Option<i64>) -> (res: Option<&AgentSlotRow>)
    ensures
        match res {
            Some(slot) => active_slot(agents::slot_views(slots@), asked) == Some(slot@),
            None => active_slot(agents::slot_views(slots@), asked) is None,
        },
{
    let ghost all = agents::slot_views(slots@);
    if let Some(id) = asked {
        let mut i: usize = 0;
        assert(all.skip(0) =~= all);
        while i < slots.len()
            invariant
                i <= slots@.len(),
                asked == Some(id),
                all == agents::slot_views(slots@),
                asked_slot(all.skip(i as int), asked) == asked_slot(all, asked),
            decreases slots@.len() - i,
        {
            assert(all.skip(i as int)[0] == slots@[i as int]@);
            assert(all.skip(i as int).skip(1) =~= all.skip(i + 1));
            if slots[i].id == id {
                return Some(&slots[i]);
            }
            i += 1;
        }
    } else {
        proof {
            nothing_asked_nothing_found(all);
        }
    }
    if slots.len() > 0 {
        assert(all[0] == slots@[0]@);
        Some(&slots[0])
    } else {
        None
    }
}

/// The conversation that is shown: the one that was asked for; else the saved
/// one, unless a project was asked for.
pub open spec fn thread_shown(asked: Option<Seq<char>>, project: bool, saved: Option<Seq<char>>) -> Option<
    Seq<char>,
> {
    match asked {
        Some(thread) => Some(thread),
        None => if project {
            None
        } else {
            saved
        },
    }
}

pub fn selected_thread(asked: Option<String>, project: bool, saved: Option<String>) -> (res: Option<
    String,
>)
    ensures
        text::opt_text(res) == thread_shown(text::opt_text(asked), project, text::opt_text(saved)),
{
    match asked {
        Some(thread) => Some(thread),
        None => if project {
            None
        } else {
            saved
        },
    }
}

/// Whether the index has to be read anew to show a conversation.
pub fn needs_fresh_index(index: Option<&CodexIndex>, thread: Option<&str>) -> (res: bool)
    ensures
        res == (text::opt_str(thread) matches Some(id) && (index matches Some(index)
            ==> codex::conversation_with(
            codex::conversation_views(index.conversations@),
            id,
        ) is None)),
{
    match thread {
        Some(id) => match index {
            Some(index) => codex::codex_conversation_by_id(index, id).is_none(),
            None => true,
        },
        None => false,
    }
}

/// Whether the index is due to be read again: it is old, and nobody reads it.
pub fn index_refresh_due(age_seconds: Option<u64>, refreshing: bool) -> (res: bool)
    ensures
        res == (!refreshing && (age_seconds matches Some(age) ==> age >= INDEX_FRESH_SECONDS)),
{
    let stale = match age_seconds {
        Some(age) => age >= INDEX_FRESH_SECONDS,
        None => true,
    };
    stale && !refreshing
}

/// The top of the agents page, up to the title.
pub const AGENTS_PAGE_TOP: &'static str = r##"
<nav><a href="/">Plugdeck</a><div class="nav-actions"><button type="button" class="ghost" data-browser-open>Browse</button><button type="button" class="ghost" data-codex-open>Usage</button><strong>Agents</strong></div></nav>
<main class="chat-shell agent-shell agent-single">
  <section class="chat-pane agent-pane">
    <header class="chat-head">
      <div class="chat-title"><strong>"##;

/// The field for a message, up to its limit.
pub const AGENTS_PAGE_COMPOSER: &'static str = r##"</div>
    <section class="agent-compose-wrap">
      <form action="/agents" method="post" enctype="multipart/form-data" class="agent-composer">
        <input name="slot_id" type="hidden" value=""##;

/// The end of the form for a message.
pub const AGENTS_PAGE_BOTTOM: &'static str = r##"" placeholder="Message Codex"></textarea>
        <label class="file-pill"><input name="attachment" type="file" accept="image/*,.pdf,.txt,.md,.csv,.json,.doc,.docx,.xls,.xlsx,.ppt,.pptx,.zip,application/pdf,text/*"><span>Attach</span></label>
        <button type="submit">Send</button>
      </form>
    </section>
  </section>
</main>
"##;

/// The script of the agents page, up to what is viewed.
pub const AGENTS_SCRIPT_TOP: &'static str = r##"
<script>
(() => {
  const list = document.querySelector("[data-agent-messages]");
  const status = document.querySelector("[data-agent-status]");
  const count = document.querySelector("[data-agent-count]");
  const input = document.getElementById("agentBody");
  const viewingTranscript = "##;

/// The script of the agents page, up to the slot.
pub const AGENTS_SCRIPT_MIDDLE: &'static str = r##";
  const codexPanel = document.getElementById("codexPanel");
  document.querySelector("[data-codex-open]")?.addEventListener("click", () => {
    if (codexPanel && typeof codexPanel.showModal === "function") codexPanel.showModal();
  });
  document.querySelector("[data-codex-close]")?.addEventListener("click", () => codexPanel?.close());
  const browserPanel = document.getElementById("conversationDrawer");
  document.querySelector("[data-browser-open]")?.addEventListener("click", () => {
    if (browserPanel && typeof browserPanel.showModal === "function") browserPanel.showModal();
  });
  document.querySelector("[data-browser-close]")?.addEventListener("click", () => browserPanel?.close());
  document.querySelectorAll("[data-load-more]").forEach((button) => {
    button.addEventListener("click", () => {
      const group = button.closest("[data-project-group]");
      if (!group) return;
      group.querySelectorAll("[data-extra-conversation]").forEach((row) => row.hidden = false);
      button.hidden = true;
    });
  });
  document.querySelector("[data-reset-form]")?.addEventListener("submit", (event) => {
    const ok = window.confirm("Use a Codex reset now? This cannot be undone.");
    if (!ok) event.preventDefault();
  });
  let dirty = false;
  input.addEventListener("input", () => { dirty = input.value.length > 0; });
  input.addEventListener("focus", () => setTimeout(() => input.scrollIntoView({block:"nearest"}), 80));
  async function poll() {
    if (!list || dirty || document.activeElement === input) {
      setTimeout(poll, 1800);
      return;
    }
    const nearBottom = list.scrollTop + list.clientHeight >= list.scrollHeight - 90;
    try {
      const response = await fetch("/agents/slots/"##;

/// The end of the script of the agents page.
pub const AGENTS_SCRIPT_BOTTOM: &'static str = r##"/state", {cache:"no-store"});
      if (response.ok) {
        const data = await response.json();
        list.innerHTML = data.messages_html;
        status.textContent = data.active_status || (data.running ? (data.current || "running") : "idle");
        count.textContent = data.message_count + " messages";
        if (nearBottom) list.scrollTop = list.scrollHeight;
        setTimeout(poll, data.running ? 1200 : 4000);
        return;
      }
    } catch (_) {}
    setTimeout(poll, 4000);
  }
  if (list) list.scrollTop = list.scrollHeight;
  if (!viewingTranscript) setTimeout(poll, 1200);
})();
</script>
"##;

/// What the agents page shows of a slot.
pub struct AgentsView<'a> {
    pub slot: &'a AgentSlotRow,
    /// What the slot is doing.
    pub label: &'a str,
    /// The messages of the slot.
    pub messages: &'a Vec<AgentMessageRow>,
    /// A conversation is shown.
    pub viewing: bool,
    /// The title of the conversation, where it was found.
    pub title: Option<&'a str>,
    /// The conversation in HTML, where it could be read.
    pub transcript: Option<&'a str>,
    pub drawer: &'a str,
    pub dialog: &'a str,
}

/// The chat on the agents page: the conversation that is shown, where it could
/// be read, else the messages of the slot.
pub open spec fn shown_chat(viewing: bool, transcript: Option<Seq<char>>, messages: Seq<MessageView>) -> Seq<
    char,
> {
    if viewing && transcript is Some {
        transcript.unwrap()
    } else {
        messages::chat_text(messages)
    }
}

/// How many messages the page says there are.
pub open spec fn shown_count(viewing: bool, chat: Seq<char>, messages: nat) -> nat {
    if viewing {
        match messages::shown_count(chat) {
            Some(count) => count,
            None => messages,
        }
    } else {
        messages
    }
}

pub open spec fn agents_body(
    slot: SlotView,
    label: Seq<char>,
    messages: Seq<MessageView>,
    viewing: bool,
    title: Option<Seq<char>>,
    transcript: Option<Seq<char>>,
    drawer: Seq<char>,
    dialog: Seq<char>,
) -> Seq<char> {
    let chat = shown_chat(viewing, transcript, messages);
    let shown_title = match title {
        Some(title) => title,
        None => "Codex"@,
    };
    AGENTS_PAGE_TOP@ + html::escaped(shown_title) + "</strong><span>"@ + html::escaped(slot.workdir) + "</span></div>\n      <div class=\"chat-stats\"><span data-agent-count>"@
        + decimal::decimal(shown_count(viewing, chat, messages.len()) as int) + " messages</span><span class=\"agent-status\" data-agent-status>"@
        + html::escaped(label) + "</span></div>\n    </header>\n    <div class=\"message-list\" data-agent-messages>"@ + chat + AGENTS_PAGE_COMPOSER@ + decimal::decimal(slot.id as int)
        + "\">\n        <textarea id=\"agentBody\" name=\"body\" maxlength=\""@ + "131072"@ + AGENTS_PAGE_BOTTOM@ + drawer + "\n"@ + dialog + AGENTS_SCRIPT_TOP@
        + if viewing {
        "true"@
    } else {
        "false"@
    } + AGENTS_SCRIPT_MIDDLE@ + decimal::decimal(slot.id as int) + AGENTS_SCRIPT_BOTTOM@
}

/// The page of a slot.
pub fn agents_page(view: &AgentsView) -> (res: Reply)
    ensures
        res@ == ReplyView::Page(
            "Agents"@,
            agents_body(
                view.slot@,
                view.label@,
                messages::message_views(view.messages@),
                view.viewing,
                text::opt_str(view.title),
                text::opt_str(view.transcript),
                view.drawer@,
                view.dialog@,
            ),
        ),
{
    let chat = match view.transcript {
        Some(transcript) => if view.viewing {
            transcript.to_owned()
        } else {
            messages::agent_messages_html(view.messages)
        },
        None => messages::agent_messages_html(view.messages),
    };
    let count: usize = if view.viewing {
        match messages::codex_transcript_count(chat.as_str()) {
            Some(count) => count,
            None => view.messages.len(),
        }
    } else {
        view.messages.len()
    };
    let title = match view.title {
        Some(title) => title,
        None => "Codex",
    };
    let mut out = String::from_str(AGENTS_PAGE_TOP);
    out.append(html::html_escape(title).as_str());
    out.append("</strong><span>");
    out.append(html::html_escape(view.slot.workdir.as_str()).as_str());
    out.append("</span></div>\n      <div class=\"chat-stats\"><span data-agent-count>");
    out.append(decimal::size_text(count).as_str());
    out.append(" messages</span><span class=\"agent-status\" data-agent-status>");
    out.append(html::html_escape(view.label).as_str());
    out.append("</span></div>\n    </header>\n    <div class=\"message-list\" data-agent-messages>");
    out.append(chat.as_str());
    out.append(AGENTS_PAGE_COMPOSER);
    out.append(decimal::integer_text(view.slot.id).as_str());
    out.append("\">\n        <textarea id=\"agentBody\" name=\"body\" maxlength=\"");
    out.append("131072");
    out.append(AGENTS_PAGE_BOTTOM);
    out.append(view.drawer);
    out.append("\n");
    out.append(view.dialog);
    out.append(AGENTS_SCRIPT_TOP);
    if view.viewing {
        out.append("true");
    } else {
        out.append("false");
    }
    out.append(AGENTS_SCRIPT_MIDDLE);
    out.append(decimal::integer_text(view.slot.id).as_str());
    out.append(AGENTS_SCRIPT_BOTTOM);
    Reply::Page("Agents".to_owned(), out)
}

/// What a deck without slots is answered.
pub fn missing_slot() -> (res: Reply)
    ensures
        res@ == ReplyView::Plain(500, "missing agent slot"@),
{
    web::plain(500, "missing agent slot")
}

/// What a page learns of a slot while it is open.
pub struct AgentSlotPoll {
    pub running: bool,
    pub current: String,
    pub message_count: usize,
    pub messages_html: String,
    pub active_status: String,
}

/// What a page learns of a slot, where it exists, by its messages and its job.
pub fn agent_slot_state(messages: &Vec<AgentMessageRow>, run: Option<&AgentRun>, slot_exists: bool) -> (res:
    AgentSlotPoll)
    ensures
        res.running == run is Some,
        res.current@ == match run {
            Some(run) => run@.current,
            None => ""@,
        },
        res.message_count == messages@.len(),
        res.messages_html@ == messages::chat_text(messages::message_views(messages@)),
        res.active_status@ == if slot_exists {
            agents::runtime_label(match run {
                Some(run) => Some(run@),
                None => None,
            })
        } else {
            "idle"@
        },
{
    let current = match run {
        Some(run) => run.current.clone(),
        None => "".to_owned(),
    };
    let active_status = if slot_exists {
        agents::agent_slot_runtime(run)
    } else {
        "idle".to_owned()
    };
    AgentSlotPoll {
        running: run.is_some(),
        current,
        message_count: messages.len(),
        messages_html: messages::agent_messages_html(messages),
        active_status,
    }
}

// ---------------------------------------------------------------------------
// What holds of pages
// ---------------------------------------------------------------------------

/// The agents page that shows a conversation tells how many messages it shows.
pub proof fn shown_conversations_are_counted(transcript: Seq<MessageView>, messages: Seq<MessageView>)
    requires
        transcript.len() > 0,
    ensures
        shown_count(
            true,
            shown_chat(true, Some(codex::transcript_text(Some(transcript))), messages),
            messages.len(),
        ) == transcript.len(),
{
    messages::every_message_counts_once(transcript);
}

/// The slot that is asked for is shown where it is there; else the first is, and
/// without any none.
pub proof fn the_asked_slot_is_shown(slots: Seq<SlotView>, asked: i64, i: int)
    requires
        0 <= i < slots.len(),
    ensures
        slots[i].id == asked && (forall|j: int| 0 <= j < i ==> (#[trigger] slots[j]).id != asked)
            ==> active_slot(slots, Some(asked)) == Some(slots[i]),
        (forall|j: int| 0 <= j < slots.len() ==> (#[trigger] slots[j]).id != asked) ==> active_slot(
            slots,
            Some(asked),
        ) == Some(slots[0]),
        active_slot(slots, None) == Some(slots[0]),
        active_slot(Seq::empty(), Some(asked)) is None,
{
    asked_is_first(slots, asked, i);
    none_is_asked(slots);
}

proof fn none_is_asked(slots: Seq<SlotView>)
    ensures
        asked_slot(slots, None) is None,
    decreases slots.len(),
{
    if slots.len() > 0 {
        none_is_asked(slots.skip(1));
    }
}

proof fn asked_is_first(slots: Seq<SlotView>, asked: i64, i: int)
    ensures
        0 <= i < slots.len() && slots[i].id == asked && (forall|j: int|
            0 <= j < i ==> (#[trigger] slots[j]).id != asked) ==> asked_slot(slots, Some(asked))
            == Some(slots[i]),
        (forall|j: int| 0 <= j < slots.len() ==> (#[trigger] slots[j]).id != asked) ==> asked_slot(
            slots,
            Some(asked),
        ) is None,
    decreases slots.len(),
{
    if slots.len() > 0 {
        let rest = slots.skip(1);
        asked_is_first(rest, asked, i - 1);
        if forall|j: int| 0 <= j < slots.len() ==> (#[trigger] slots[j]).id != asked {
            assert forall|j: int| 0 <= j < rest.len() implies (#[trigger] rest[j]).id != asked by {
                assert(rest[j] == slots[j + 1]);
            }
            assert(slots[0].id != asked);
        }
        if 0 < i < slots.len() && slots[i].id == asked && (forall|j: int|
            0 <= j < i ==> (#[trigger] slots[j]).id != asked) {
            assert(rest[i - 1] == slots[i]);
            assert(slots[0].id != asked);
            assert forall|j: int| 0 <= j < i - 1 implies (#[trigger] rest[j]).id != asked by {
                assert(rest[j] == slots[j + 1]);
            }
        }
    }
}

/// The conversation that is asked for is shown; without one the saved one is,
/// unless a project was asked for.
pub proof fn the_asked_conversation_is_shown(
    thread: Seq<char>,
    project: bool,
    saved: Option<Seq<char>>,
)
    ensures
        thread_shown(Some(thread), project, saved) == Some(thread),
        thread_shown(None, true, saved) is None,
        thread_shown(None, false, saved) == saved,
{
}

/// A conversation that is viewed shows its transcript where that could be read;
/// every other page shows the slot's messages, and counts what it shows.
pub proof fn pages_show_what_is_viewed(
    viewing: bool,
    transcript: Seq<char>,
    messages: Seq<MessageView>,
    n: nat,
)
    ensures
        shown_chat(true, Some(transcript), messages) == transcript,
        shown_chat(false, Some(transcript), messages) == messages::chat_text(messages),
        shown_chat(viewing, None, messages) == messages::chat_text(messages),
        shown_count(false, transcript, n) == n,
        messages::shown_count(transcript) is None ==> shown_count(true, transcript, n) == n,
        messages::shown_count(transcript) matches Some(k) ==> shown_count(true, transcript, n) == k,
{
}

/// The deck's tiles tell the counts they are about; running jobs are told where
/// there are any.
pub proof fn tiles_tell_their_counts(counts: DeckCounts)
    ensures
        notes_told(counts) == decimal::decimal(counts.channels as int) + " channels · "@
            + decimal::decimal(counts.notes as int) + " notes"@,
        counts.running == 0 ==> agents_told(counts) == decimal::decimal(counts.messages as int)
            + " messages"@,
        counts.running > 0 ==> agents_told(counts) == decimal::decimal(counts.messages as int)
            + " messages · "@ + decimal::decimal(counts.running as int) + " running"@,
        downloads_told(counts) == decimal::decimal(counts.jobs as int) + " active jobs"@,
        tiles(counts) == tile(true, "/notes"@, "Notes"@, notes_told(counts)) + tile(
            true,
            "/agents"@,
            "Agents"@,
            agents_told(counts),
        ) + tile(true, "/downloads"@, "YTP Downloader"@, downloads_told(counts)),
{
}

/// The links keep their order; each leads to its address, under its name, with
/// its description or, without one, its category, all escaped.
pub proof fn links_keep_their_order(links: Seq<LinkView>, link: LinkView)
    ensures
        links_text(Seq::empty()) == ""@,
        links_text(links.push(link)) == links_text(links) + link_tile(link),
        !text::is_blank(link.description) ==> link_tile(link) == "<a class=\""@ + "tile"@
            + "\" href=\""@ + html::escaped(link.url) + "\"><strong>"@ + html::escaped(link.name)
            + "</strong><span>"@ + html::escaped(link.description) + "</span></a>"@,
        text::is_blank(link.description) ==> link_tile(link) == "<a class=\""@ + "tile"@
            + "\" href=\""@ + html::escaped(link.url) + "\"><strong>"@ + html::escaped(link.name)
            + "</strong><span>"@ + html::escaped(link.category) + "</span></a>"@,
{
    assert(links.push(link).drop_last() =~= links);
}

/// The page for logging in says that a password was wrong exactly where it was.
#[verifier::rlimit(50)]
#[verifier::spinoff_prover]
pub proof fn wrong_passwords_are_told()
    ensures
        text::has_text(login_body(true), "Wrong password."@),
        login_body(false) != login_body(true),
        login_body(true).len() == login_body(false).len()
            + "  <p class=\"error\">Wrong password.</p>\n"@.len(),
{
    reveal_strlit("");
    reveal_strlit("Wrong password.");
    reveal_strlit("  <p class=\"error\">Wrong password.</p>\n");
    let head = "\n<main class=\"login\">\n  <h1>Plugdeck</h1>\n"@;
    let told = "  <p class=\"error\">Wrong password.</p>\n"@;
    let end = "  <form action=\"/login\" method=\"post\">\n    <label>Password</label>\n    <input name=\"password\" type=\"password\" autocomplete=\"current-password\" autofocus required>\n    <button type=\"submit\">Log in</button>\n  </form>\n</main>\n"@;
    assert(told.subrange(19, 34) =~= "Wrong password."@);
    assert(text::occurs_at(told, "Wrong password."@, 19));
    let all = head + told + end;
    let k = head.len() as int + 19;
    assert(all.subrange(k, k + 15) =~= told.subrange(19, 34));
    assert(text::occurs_at(all, "Wrong password."@, k));
}

/// A page has its title, escaped, its style and its body.
#[verifier::rlimit(50)]
#[verifier::spinoff_prover]
pub proof fn pages_hold_their_parts(title: Seq<char>, style: Seq<char>, body: Seq<char>)
    ensures
        text::has_text(page_text(title, style, body), "<title>"@ + html::escaped(title)),
        text::has_text(page_text(title, style, body), style),
        text::has_text(page_text(title, style, body), body),
{
    let head = "<!doctype html>\n<html lang=\"en\">\n<head>\n<meta charset=\"utf-8\">\n<meta name=\"viewport\" content=\"width=device-width, initial-scale=1, maximum-scale=1, viewport-fit=cover, interactive-widget=resizes-content\">\n<title>"@;
    let name = html::escaped(title);
    let p1 = head + name;
    let mid = "</title>\n<style>\n"@;
    let p2 = p1 + mid;
    let p3 = p2 + style;
    let open = "\n</style>\n</head>\n<body>"@;
    let p4 = p3 + open;
    let p5 = p4 + body;
    let end = "</body>\n</html>"@;
    assert(page_text(title, style, body) == p5 + end);
    let t = "<title>"@;
    assert(head =~= head.take(head.len() - t.len()) + t) by {
        reveal_strlit("<title>");
        reveal_strlit(
            "<!doctype html>\n<html lang=\"en\">\n<head>\n<meta charset=\"utf-8\">\n<meta name=\"viewport\" content=\"width=device-width, initial-scale=1, maximum-scale=1, viewport-fit=cover, interactive-widget=resizes-content\">\n<title>",
        );
    }
    let named = t + name;
    let front = head.take(head.len() - t.len());
    assert(p1 =~= front + named);
    text::longer_texts_keep_their_parts(front, named, Seq::empty());
    text::longer_texts_keep_their_parts(p1, named, mid);
    text::longer_texts_keep_their_parts(p2, named, style);
    text::longer_texts_keep_their_parts(p3, named, open);
    text::longer_texts_keep_their_parts(p4, named, body);
    text::longer_texts_keep_their_parts(p5, named, end);
    text::longer_texts_keep_their_parts(p2, style, Seq::empty());
    text::longer_texts_keep_their_parts(p3, style, open);
    text::longer_texts_keep_their_parts(p4, style, body);
    text::longer_texts_keep_their_parts(p5, style, end);
    text::longer_texts_keep_their_parts(p4, body, Seq::empty());
    text::longer_texts_keep_their_parts(p5, body, end);
}

/// The agents' page shows the conversation, its title or the agent's name, the
/// slot's folder and what it does, each escaped but for what is markup already.
#[verifier::rlimit(50)]
#[verifier::spinoff_prover]
pub proof fn the_agents_page_shows_its_slot(
    slot: SlotView,
    label: Seq<char>,
    messages: Seq<MessageView>,
    viewing: bool,
    title: Option<Seq<char>>,
    transcript: Option<Seq<char>>,
    drawer: Seq<char>,
    dialog: Seq<char>,
)
    ensures
        ({
            let page = agents_body(
                slot,
                label,
                messages,
                viewing,
                title,
                transcript,
                drawer,
                dialog,
            );
            let chat = shown_chat(viewing, transcript, messages);
            &&& text::has_text(page, chat)
            &&& title matches Some(t) ==> text::has_text(page, html::escaped(t))
            &&& title is None ==> text::has_text(page, html::escaped("Codex"@))
            &&& text::has_text(page, html::escaped(slot.workdir))
            &&& text::has_text(page, html::escaped(label))
            &&& text::has_text(
                page,
                decimal::decimal(shown_count(viewing, chat, messages.len()) as int),
            )
            &&& text::has_text(page, decimal::decimal(slot.id as int))
            &&& text::has_text(page, drawer)
            &&& text::has_text(page, dialog)
        }),
{
    let chat = shown_chat(viewing, transcript, messages);
    let shown_title = match title {
        Some(title) => title,
        None => "Codex"@,
    };
    let top = AGENTS_PAGE_TOP@;
    let name = html::escaped(shown_title);
    let a = "</strong><span>"@;
    let folder = html::escaped(slot.workdir);
    let b = "</span></div>\n      <div class=\"chat-stats\"><span data-agent-count>"@;
    let count = decimal::decimal(shown_count(viewing, chat, messages.len()) as int);
    let c = " messages</span><span class=\"agent-status\" data-agent-status>"@;
    let told = html::escaped(label);
    let d = "</span></div>\n    </header>\n    <div class=\"message-list\" data-agent-messages>"@;
    let e = AGENTS_PAGE_COMPOSER@;
    let id = decimal::decimal(slot.id as int);
    let f = "\">\n        <textarea id=\"agentBody\" name=\"body\" maxlength=\""@;
    let g = "131072"@;
    let h = AGENTS_PAGE_BOTTOM@;
    let i = "\n"@;
    let j = AGENTS_SCRIPT_TOP@;
    let k = if viewing {
        "true"@
    } else {
        "false"@
    };
    let l = AGENTS_SCRIPT_MIDDLE@;
    let m = decimal::decimal(slot.id as int);
    let n = AGENTS_SCRIPT_BOTTOM@;
    let t0 = top;
    let t1 = t0 + name;
    let t2 = t1 + a;
    let t3 = t2 + folder;
    let t4 = t3 + b;
    let t5 = t4 + count;
    let t6 = t5 + c;
    let t7 = t6 + told;
    let t8 = t7 + d;
    let t9 = t8 + chat;
    let t10 = t9 + e;
    let t11 = t10 + id;
    let t12 = t11 + f;
    let t13 = t12 + g;
    let t14 = t13 + h;
    let t15 = t14 + drawer;
    let t16 = t15 + i;
    let t17 = t16 + dialog;
    let t18 = t17 + j;
    let t19 = t18 + k;
    let t20 = t19 + l;
    let t21 = t20 + m;
    let t22 = t21 + n;
    assert(agents_body(slot, label, messages, viewing, title, transcript, drawer, dialog) == t22);
    text::longer_texts_keep_their_parts(t0, name, Seq::empty());
    text::longer_texts_keep_their_parts(t1, name, a);
    text::longer_texts_keep_their_parts(t2, name, folder);
    text::longer_texts_keep_their_parts(t3, name, b);
    text::longer_texts_keep_their_parts(t4, name, count);
    text::longer_texts_keep_their_parts(t5, name, c);
    text::longer_texts_keep_their_parts(t6, name, told);
    text::longer_texts_keep_their_parts(t7, name, d);
    text::longer_texts_keep_their_parts(t8, name, chat);
    text::longer_texts_keep_their_parts(t9, name, e);
    text::longer_texts_keep_their_parts(t10, name, id);
    text::longer_texts_keep_their_parts(t11, name, f);
    text::longer_texts_keep_their_parts(t12, name, g);
    text::longer_texts_keep_their_parts(t13, name, h);
    text::longer_texts_keep_their_parts(t14, name, drawer);
    text::longer_texts_keep_their_parts(t15, name, i);
    text::longer_texts_keep_their_parts(t16, name, dialog);
    text::longer_texts_keep_their_parts(t17, name, j);
    text::longer_texts_keep_their_parts(t18, name, k);
    text::longer_texts_keep_their_parts(t19, name, l);
    text::longer_texts_keep_their_parts(t20, name, m);
    text::longer_texts_keep_their_parts(t21, name, n);
    text::longer_texts_keep_their_parts(t2, folder, Seq::empty());
    text::longer_texts_keep_their_parts(t3, folder, b);
    text::longer_texts_keep_their_parts(t4, folder, count);
    text::longer_texts_keep_their_parts(t5, folder, c);
    text::longer_texts_keep_their_parts(t6, folder, told);
    text::longer_texts_keep_their_parts(t7, folder, d);
    text::longer_texts_keep_their_parts(t8, folder, chat);
    text::longer_texts_keep_their_parts(t9, folder, e);
    text::longer_texts_keep_their_parts(t10, folder, id);
    text::longer_texts_keep_their_parts(t11, folder, f);
    text::longer_texts_keep_their_parts(t12, folder, g);
    text::longer_texts_keep_their_parts(t13, folder, h);
    text::longer_texts_keep_their_parts(t14, folder, drawer);
    text::longer_texts_keep_their_parts(t15, folder, i);
    text::longer_texts_keep_their_parts(t16, folder, dialog);
    text::longer_texts_keep_their_parts(t17, folder, j);
    text::longer_texts_keep_their_parts(t18, folder, k);
    text::longer_texts_keep_their_parts(t19, folder, l);
    text::longer_texts_keep_their_parts(t20, folder, m);
    text::longer_texts_keep_their_parts(t21, folder, n);
    text::longer_texts_keep_their_parts(t4, count, Seq::empty());
    text::longer_texts_keep_their_parts(t5, count, c);
    text::longer_texts_keep_their_parts(t6, count, told);
    text::longer_texts_keep_their_parts(t7, count, d);
    text::longer_texts_keep_their_parts(t8, count, chat);
    text::longer_texts_keep_their_parts(t9, count, e);
    text::longer_texts_keep_their_parts(t10, count, id);
    text::longer_texts_keep_their_parts(t11, count, f);
    text::longer_texts_keep_their_parts(t12, count, g);
    text::longer_texts_keep_their_parts(t13, count, h);
    text::longer_texts_keep_their_parts(t14, count, drawer);
    text::longer_texts_keep_their_parts(t15, count, i);
    text::longer_texts_keep_their_parts(t16, count, dialog);
    text::longer_texts_keep_their_parts(t17, count, j);
    text::longer_texts_keep_their_parts(t18, count, k);
    text::longer_texts_keep_their_parts(t19, count, l);
    text::longer_texts_keep_their_parts(t20, count, m);
    text::longer_texts_keep_their_parts(t21, count, n);
    text::longer_texts_keep_their_parts(t6, told, Seq::empty());
    text::longer_texts_keep_their_parts(t7, told, d);
    text::longer_texts_keep_their_parts(t8, told, chat);
    text::longer_texts_keep_their_parts(t9, told, e);
    text::longer_texts_keep_their_parts(t10, told, id);
    text::longer_texts_keep_their_parts(t11, told, f);
    text::longer_texts_keep_their_parts(t12, told, g);
    text::longer_texts_keep_their_parts(t13, told, h);
    text::longer_texts_keep_their_parts(t14, told, drawer);
    text::longer_texts_keep_their_parts(t15, told, i);
    text::longer_texts_keep_their_parts(t16, told, dialog);
    text::longer_texts_keep_their_parts(t17, told, j);
    text::longer_texts_keep_their_parts(t18, told, k);
    text::longer_texts_keep_their_parts(t19, told, l);
    text::longer_texts_keep_their_parts(t20, told, m);
    text::longer_texts_keep_their_parts(t21, told, n);
    text::longer_texts_keep_their_parts(t8, chat, Seq::empty());
    text::longer_texts_keep_their_parts(t9, chat, e);
    text::longer_texts_keep_their_parts(t10, chat, id);
    text::longer_texts_keep_their_parts(t11, chat, f);
    text::longer_texts_keep_their_parts(t12, chat, g);
    text::longer_texts_keep_their_parts(t13, chat, h);
    text::longer_texts_keep_their_parts(t14, chat, drawer);
    text::longer_texts_keep_their_parts(t15, chat, i);
    text::longer_texts_keep_their_parts(t16, chat, dialog);
    text::longer_texts_keep_their_parts(t17, chat, j);
    text::longer_texts_keep_their_parts(t18, chat, k);
    text::longer_texts_keep_their_parts(t19, chat, l);
    text::longer_texts_keep_their_parts(t20, chat, m);
    text::longer_texts_keep_their_parts(t21, chat, n);
    text::longer_texts_keep_their_parts(t10, id, Seq::empty());
    text::longer_texts_keep_their_parts(t11, id, f);
    text::longer_texts_keep_their_parts(t12, id, g);
    text::longer_texts_keep_their_parts(t13, id, h);
    text::longer_texts_keep_their_parts(t14, id, drawer);
    text::longer_texts_keep_their_parts(t15, id, i);
    text::longer_texts_keep_their_parts(t16, id, dialog);
    text::longer_texts_keep_their_parts(t17, id, j);
    text::longer_texts_keep_their_parts(t18, id, k);
    text::longer_texts_keep_their_parts(t19, id, l);
    text::longer_texts_keep_their_parts(t20, id, m);
    text::longer_texts_keep_their_parts(t21, id, n);
    text::longer_texts_keep_their_parts(t14, drawer, Seq::empty());
    text::longer_texts_keep_their_parts(t15, drawer, i);
    text::longer_texts_keep_their_parts(t16, drawer, dialog);
    text::longer_texts_keep_their_parts(t17, drawer, j);
    text::longer_texts_keep_their_parts(t18, drawer, k);
    text::longer_texts_keep_their_parts(t19, drawer, l);
    text::longer_texts_keep_their_parts(t20, drawer, m);
    text::longer_texts_keep_their_parts(t21, drawer, n);
    text::longer_texts_keep_their_parts(t16, dialog, Seq::empty());
    text::longer_texts_keep_their_parts(t17, dialog, j);
    text::longer_texts_keep_their_parts(t18, dialog, k);
    text::longer_texts_keep_their_parts(t19, dialog, l);
    text::longer_texts_keep_their_parts(t20, dialog, m);
    text::longer_texts_keep_their_parts(t21, dialog, n);
}

/// The deck shows its tiles and its links.
pub proof fn the_deck_shows_tiles_and_links(counts: DeckCounts, links: Seq<LinkView>)
    ensures
        text::has_text(home_body(counts, links), tiles(counts)),
        text::has_text(home_body(counts, links), links_text(links)),
{
    let head = "\n<section class=\"hero\">\n  <h1>Plugdeck</h1>\n  <form action=\"/logout\" method=\"post\"><button class=\"ghost\" type=\"submit\">Log out</button></form>\n</section>\n<main class=\"grid\">\n  "@;
    let own = tiles(counts);
    let gap = "\n  "@;
    let list = links_text(links);
    let end = "\n</main>\n"@;
    let t0 = head;
    let t1 = t0 + own;
    let t2 = t1 + gap;
    let t3 = t2 + list;
    let t4 = t3 + end;
    assert(home_body(counts, links) == t4);
    text::longer_texts_keep_their_parts(t0, own, Seq::empty());
    text::longer_texts_keep_their_parts(t1, own, gap);
    text::longer_texts_keep_their_parts(t2, own, list);
    text::longer_texts_keep_their_parts(t3, own, end);
    text::longer_texts_keep_their_parts(t2, list, Seq::empty());
    text::longer_texts_keep_their_parts(t3, list, end);
}

} // verus!
