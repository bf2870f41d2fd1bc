//! The agent's saved conversations, and the projects they belong to.

use vstd::prelude::*;
use vstd::string::StrSliceExecFns;

use crate::codex_usage;
use crate::codex_usage::CodexUsageSnapshot;
use crate::formats;
use crate::json;
use crate::json::Json;
use crate::json::JsonView;
use crate::messages;
use crate::messages::AgentMessageRow;
use crate::messages::MessageView;
use crate::paths;
use crate::sorting;
use crate::sorting::Ranked;
use crate::text;
use crate::text::CharSet;
use crate::times;
use crate::times::Moment;

verus! {

/// How many conversations are listed.
pub const MAX_CODEX_CONVERSATIONS: usize = 120;

/// How many messages of a conversation are shown.
pub const MAX_CODEX_TRANSCRIPT_MESSAGES: usize = 80;

/// How many session files are read.
pub const CODEX_SESSION_SCAN_LIMIT: usize = 180;

/// How many projects are listed.
pub const CODEX_PROJECT_DRAWER_LIMIT: usize = 48;

/// How many conversations of a project are shown at first.
pub const CODEX_PROJECT_VISIBLE_CONVERSATIONS: usize = 3;

/// How many conversations of a project are listed.
pub const CODEX_PROJECT_CONVERSATION_LIMIT: usize = 24;

/// How many levels of folders are searched for sessions.
pub const SESSION_DEPTH: u64 = 5;

/// A saved conversation.
#[derive(Debug)]
pub struct CodexConversation {
    pub id: String,
    pub title: String,
    pub cwd: String,
    pub updated_at: String,
    pub path: String,
    pub preview: String,
    pub message_count: usize,
}

/// A folder that conversations took place in.
#[derive(Debug)]
pub struct CodexProject {
    pub path: String,
    pub name: String,
    pub trusted: bool,
    pub conversation_count: usize,
}

/// Conversations, projects and the usage.
pub struct CodexIndex {
    pub conversations: Vec<CodexConversation>,
    pub projects: Vec<CodexProject>,
    pub usage: Option<CodexUsageSnapshot>,
}

/// The title under which a conversation is saved, and when it was.
#[derive(Debug)]
pub struct ThreadName {
    pub id: String,
    pub title: String,
    pub updated_at: String,
}

/// A file and when it was changed.
#[derive(Debug)]
pub struct FileStamp {
    pub path: String,
    pub modified: Moment,
}

/// What a session file holds.
pub struct SessionContent {
    pub conversation: Option<CodexConversation>,
    pub usage: Option<CodexUsageSnapshot>,
}

#[verifier::ext_equal]
pub struct ConversationView {
    pub id: Seq<char>,
    pub title: Seq<char>,
    pub cwd: Seq<char>,
    pub updated_at: Seq<char>,
    pub path: Seq<char>,
    pub preview: Seq<char>,
    pub message_count: nat,
}

#[verifier::ext_equal]
pub struct ProjectView {
    pub path: Seq<char>,
    pub name: Seq<char>,
    pub trusted: bool,
    pub conversation_count: nat,
}

#[verifier::ext_equal]
pub struct NameView {
    pub id: Seq<char>,
    pub title: Seq<char>,
    pub updated_at: Seq<char>,
}

impl View for CodexConversation {
    type V = ConversationView;

    open spec fn view(&self) -> ConversationView {
        ConversationView {
            id: self.id@,
            title: self.title@,
            cwd: self.cwd@,
            updated_at: self.updated_at@,
            path: self.path@,
            preview: self.preview@,
            message_count: self.message_count as nat,
        }
    }
}

impl View for CodexProject {
    type V = ProjectView;

    open spec fn view(&self) -> ProjectView {
        ProjectView {
            path: self.path@,
            name: self.name@,
            trusted: self.trusted,
            conversation_count: self.conversation_count as nat,
        }
    }
}

impl View for ThreadName {
    type V = NameView;

    open spec fn view(&self) -> NameView {
        NameView { id: self.id@, title: self.title@, updated_at: self.updated_at@ }
    }
}

pub open spec fn conversation_views(list: Seq<CodexConversation>) -> Seq<ConversationView> {
    list.map_values(|c: CodexConversation| c@)
}

pub open spec fn project_views(list: Seq<CodexProject>) -> Seq<ProjectView> {
    list.map_values(|p: CodexProject| p@)
}

pub open spec fn name_views(list: Seq<ThreadName>) -> Seq<NameView> {
    list.map_values(|n: ThreadName| n@)
}

pub open spec fn opt_conversation(c: Option<CodexConversation>) -> Option<ConversationView> {
    match c {
        Some(c) => Some(c@),
        None => None,
    }
}

impl CodexIndex {
    pub fn empty() -> (res: CodexIndex)
        ensures
            res.conversations@.len() == 0,
            res.projects@.len() == 0,
            res.usage is None,
    {
        CodexIndex { conversations: Vec::new(), projects: Vec::new(), usage: None }
    }
}

// ---------------------------------------------------------------------------
// Orders
// ---------------------------------------------------------------------------

impl Ranked for FileStamp {
    /// The file that was changed later comes first.
    open spec fn before(self, other: Self) -> bool {
        other.modified.earlier(self.modified)
    }

    fn is_before(&self, other: &Self) -> (res: bool) {
        other.modified.is_before(&self.modified)
    }

    proof fn before_is_one_way(a: Self, b: Self) {
    }

    proof fn not_before_is_transitive(a: Self, b: Self, c: Self) {
    }
}

impl Ranked for CodexConversation {
    /// The conversation with the later time comes first.
    open spec fn before(self, other: Self) -> bool {
        text::precedes(other.updated_at@, self.updated_at@)
    }

    fn is_before(&self, other: &Self) -> (res: bool) {
        text::before(other.updated_at.as_str(), self.updated_at.as_str())
    }

    proof fn before_is_one_way(a: Self, b: Self) {
        text::text_order_is_total(a.updated_at@, b.updated_at@);
    }

    proof fn not_before_is_transitive(a: Self, b: Self, c: Self) {
        if !b.before(a) && !c.before(b) {
            text::not_preceding_is_transitive(c.updated_at@, b.updated_at@, a.updated_at@);
        }
    }
}

impl Ranked for CodexProject {
    /// The project with more conversations comes first; of those with as many,
    /// the one whose name comes first, whatever its case.
    open spec fn before(self, other: Self) -> bool {
        self.conversation_count > other.conversation_count || (self.conversation_count
            == other.conversation_count && text::precedes(
            text::lowered(self.name@),
            text::lowered(other.name@),
        ))
    }

    fn is_before(&self, other: &Self) -> (res: bool) {
        if self.conversation_count != other.conversation_count {
            return self.conversation_count > other.conversation_count;
        }
        let a = text::lower(self.name.as_str());
        let b = text::lower(other.name.as_str());
        text::before(a.as_str(), b.as_str())
    }

    proof fn before_is_one_way(a: Self, b: Self) {
        text::text_order_is_total(text::lowered(a.name@), text::lowered(b.name@));
    }

    proof fn not_before_is_transitive(a: Self, b: Self, c: Self) {
        if !b.before(a) && !c.before(b) && a.conversation_count == c.conversation_count {
            text::not_preceding_is_transitive(
                text::lowered(a.name@),
                text::lowered(b.name@),
                text::lowered(c.name@),
            );
        }
    }
}

// ---------------------------------------------------------------------------
// Session files
// ---------------------------------------------------------------------------

/// A folder and what it holds.
pub struct DirTree {
    pub path: String,
    pub entries: Vec<DirEntry>,
}

/// An entry of a folder.
pub enum DirEntry {
    Folder(DirTree),
    File(String),
}

/// A folder is searched unless it lies too deep or in a folder for temporary files.
pub open spec fn searched(path: Seq<char>, depth: nat) -> bool {
    depth > 0 && !text::has_text(path, "/.tmp/"@)
}

/// Whether a folder is searched with so many levels left.
pub fn visits_directory(path: &str, depth: u64) -> (res: bool)
    ensures
        res == searched(path@, depth as nat),
{
    depth > 0 && !text::contains(path, "/.tmp/")
}

/// The session files in a folder, down to a depth.
pub open spec fn session_files(tree: DirTree, depth: nat) -> Seq<Seq<char>>
    decreases depth, 0nat,
{
    if searched(tree.path@, depth) && depth > 0 {
        files_among(tree.entries@, (depth - 1) as nat)
    } else {
        Seq::empty()
    }
}

/// The session files among some entries; a folder among them is searched down to a depth.
pub open spec fn files_among(entries: Seq<DirEntry>, depth: nat) -> Seq<Seq<char>>
    decreases depth, entries.len() + 1,
{
    if entries.len() == 0 {
        Seq::empty()
    } else {
        files_among(entries.drop_last(), depth) + match entries.last() {
            DirEntry::Folder(tree) => session_files(tree, depth),
            DirEntry::File(path) => if paths::extension_of(path@) == Some("jsonl"@) {
                seq![path@]
            } else {
                Seq::empty()
            },
        }
    }
}

fn collect_jsonl_files(tree: &DirTree, depth: u64, files: &mut Vec<String>)
    ensures
        text::texts(final(files)@) == text::texts(old(files)@) + session_files(*tree, depth as nat),
    decreases depth,
{
    let ghost before = text::texts(files@);
    if !visits_directory(tree.path.as_str(), depth) {
        assert(before + session_files(*tree, depth as nat) =~= before);
        return;
    }
    let ghost left = (depth - 1) as nat;
    let mut i: usize = 0;
    let ghost all = tree.entries@;
    assert(before + files_among(all.take(0), left) =~= before);
    while i < tree.entries.len()
        invariant
            i <= tree.entries@.len(),
            all == tree.entries@,
            depth > 0,
            left == depth - 1,
            text::texts(files@) == before + files_among(all.take(i as int), left),
        decreases tree.entries@.len() - i,
    {
        assert(all.take(i + 1).drop_last() =~= all.take(i as int));
        match &tree.entries[i] {
            DirEntry::Folder(inner) => {
                collect_jsonl_files(inner, depth - 1, files);
                assert(text::texts(files@) =~= before + files_among(all.take(i + 1), left));
            },
            DirEntry::File(path) => {
                let wanted = match paths::extension(path.as_str()) {
                    Some(ext) => text::same(ext.as_str(), "jsonl"),
                    None => false,
                };
                if wanted {
                    text::push_text(files, path.clone());
                }
                assert(text::texts(files@) =~= before + files_among(all.take(i + 1), left));
            },
        }
        i += 1;
    }
    assert(all.take(i as int) =~= all);
}

/// The session files: those below a folder, and the history at the end.
pub open spec fn all_session_files(tree: DirTree, history: Option<Seq<char>>) -> Seq<Seq<char>> {
    session_files(tree, SESSION_DEPTH as nat) + match history {
        Some(path) => seq![path],
        None => Seq::empty(),
    }
}

pub fn collect_codex_session_files(sessions: &DirTree, history: Option<&str>) -> (res: Vec<String>)
    ensures
        text::texts(res@) == all_session_files(*sessions, text::opt_str(history)),
{
    let mut files: Vec<String> = Vec::new();
    collect_jsonl_files(sessions, SESSION_DEPTH, &mut files);
    assert(text::texts(files@) =~= session_files(*sessions, SESSION_DEPTH as nat));
    if let Some(path) = history {
        text::push_text(&mut files, path.to_owned());
    }
    assert(text::texts(files@) =~= all_session_files(*sessions, text::opt_str(history)));
    files
}

/// The files that are read: those that were changed last, latest first.
pub fn recent_files(files: Vec<FileStamp>) -> (res: Vec<FileStamp>)
    ensures
        res@ == sorting::first_of(sorting::arranged(files@), CODEX_SESSION_SCAN_LIMIT as nat),
{
    sorting::limit(sorting::arrange(files), CODEX_SESSION_SCAN_LIMIT)
}

// ---------------------------------------------------------------------------
// Messages in a session
// ---------------------------------------------------------------------------

/// A text that was put in the user's mouth.
pub open spec fn synthetic(s: Seq<char>) -> bool {
    let s = text::trimmed_start(s, CharSet::Space);
    text::has_prefix(s, "# AGENTS.md instructions for"@) || text::has_prefix(
        s,
        "<environment_context>"@,
    ) || text::has_prefix(s, "<INSTRUCTIONS>"@) || text::has_prefix(
        s,
        "<permissions instructions>"@,
    ) || text::has_prefix(s, "<collaboration_mode>"@) || text::has_prefix(
        s,
        "<apps_instructions>"@,
    ) || text::has_prefix(s, "<skills_instructions>"@) || text::has_prefix(
        s,
        "<plugins_instructions>"@,
    ) || (text::has_text(s, "<environment_context>"@) && text::has_text(s, "<cwd>"@))
}

pub fn is_codex_synthetic_user_text(s: &str) -> (res: bool)
    ensures
        res == synthetic(s@),
{
    let s = text::trim_start(s, CharSet::Space);
    text::starts_with(s, "# AGENTS.md instructions for") || text::starts_with(
        s,
        "<environment_context>",
    ) || text::starts_with(s, "<INSTRUCTIONS>") || text::starts_with(
        s,
        "<permissions instructions>",
    ) || text::starts_with(s, "<collaboration_mode>") || text::starts_with(
        s,
        "<apps_instructions>",
    ) || text::starts_with(s, "<skills_instructions>") || text::starts_with(
        s,
        "<plugins_instructions>",
    ) || (text::contains(s, "<environment_context>") && text::contains(s, "<cwd>"))
}

/// The text of one item of a message.
pub open spec fn item_text(item: JsonView) -> Option<Seq<char>> {
    match item.get_either("text"@, "content"@) {
        Some(value) => value.as_text(),
        None => None,
    }
}

pub open spec fn item_texts(items: Seq<JsonView>) -> Seq<Seq<char>>
    decreases items.len(),
{
    if items.len() == 0 {
        Seq::empty()
    } else {
        let before = item_texts(items.drop_last());
        match item_text(items.last()) {
            Some(s) => before.push(s),
            None => before,
        }
    }
}

/// The text of a message: a text, or the texts of its items in lines.
pub open spec fn content_text(content: JsonView) -> Seq<char> {
    match content {
        JsonView::Text(s) => s,
        JsonView::List(items, _) => text::joined(item_texts(items), "\n"@),
        _ => ""@,
    }
}

pub fn codex_content_text(content: &Json) -> (res: String)
    ensures
        res@ == content_text(content.view()),
{
    match content {
        Json::Text(s) => s.clone(),
        Json::List(items, _) => {
            let ghost all = json::list_views(items@);
            assert(content.view() matches JsonView::List(v, _) && v =~= all);
            let mut parts: Vec<String> = Vec::new();
            let mut i: usize = 0;
            assert(text::texts(parts@) =~= item_texts(all.take(0)));
            while i < items.len()
                invariant
                    i <= items@.len(),
                    all == json::list_views(items@),
                    text::texts(parts@) == item_texts(all.take(i as int)),
                decreases items@.len() - i,
            {
                assert(all.take(i + 1).drop_last() =~= all.take(i as int));
                let part = match items[i].get_or("text", "content") {
                    Some(value) => value.as_str(),
                    None => None,
                };
                if let Some(part) = part {
                    text::push_text(&mut parts, part.to_owned());
                }
                i += 1;
            }
            assert(all.take(i as int) =~= all);
            text::join(&parts, "\n")
        },
        _ => "".to_owned(),
    }
}

/// The role and the text of a message that people wrote or are meant to read.
pub open spec fn visible_message(value: JsonView) -> Option<(Seq<char>, Seq<char>)> {
    if value.text_at("type"@) != Some("response_item"@) {
        None
    } else {
        match value.get("payload"@) {
            None => None,
            Some(payload) => if payload.text_at("type"@) != Some("message"@) {
                None
            } else {
                match (payload.text_at("role"@), payload.get("content"@)) {
                    (Some(role), Some(content)) => if role == "assistant"@ || (role == "user"@
                        && !synthetic(content_text(content))) {
                        Some((role, content_text(content)))
                    } else {
                        None
                    },
                    _ => None,
                }
            },
        }
    }
}

pub fn codex_visible_message(value: &Json) -> (res: Option<(String, String)>)
    ensures
        match res {
            Some((role, body)) => visible_message(value.view()) == Some((role@, body@)),
            None => visible_message(value.view()) is None,
        },
{
    if !json::text_is(value, "type", "response_item") {
        return None;
    }
    let payload = match value.get("payload") {
        Some(payload) => payload,
        None => {
            return None;
        },
    };
    if !json::text_is(payload, "type", "message") {
        return None;
    }
    let role = match payload.text_of("role") {
        Some(role) => role,
        None => {
            return None;
        },
    };
    let is_user = text::same(role, "user");
    if !is_user && !text::same(role, "assistant") {
        return None;
    }
    let content = match payload.get("content") {
        Some(content) => content,
        None => {
            return None;
        },
    };
    let body = codex_content_text(content);
    proof {
        reveal_strlit("user");
        reveal_strlit("assistant");
        assert("user"@.len() != "assistant"@.len());
    }
    if is_user && is_codex_synthetic_user_text(body.as_str()) {
        return None;
    }
    Some((role.to_owned(), body))
}

/// A line of a session as a message of a chat, where it is one that says something.
pub open spec fn row_of(value: JsonView) -> Option<MessageView> {
    match visible_message(value) {
        Some((role, body)) => if text::is_blank(body) {
            None
        } else {
            Some(
                MessageView {
                    role,
                    body,
                    created_at: text::text_or(value.text_at("timestamp"@), ""@),
                    attachment: None,
                },
            )
        },
        None => None,
    }
}

pub open spec fn rows_of(values: Seq<JsonView>) -> Seq<MessageView>
    decreases values.len(),
{
    if values.len() == 0 {
        Seq::empty()
    } else {
        let before = rows_of(values.drop_last());
        match row_of(values.last()) {
            Some(row) => before.push(row),
            None => before,
        }
    }
}

/// The last things of a list, the last one first.
pub open spec fn last_turned<T>(list: Seq<T>, n: nat) -> Seq<T> {
    if list.len() <= n {
        list.reverse()
    } else {
        list.skip(list.len() - n).reverse()
    }
}

/// The messages of a session that are shown, the last one first.
pub open spec fn transcript(values: Seq<JsonView>) -> Seq<MessageView> {
    last_turned(rows_of(values), MAX_CODEX_TRANSCRIPT_MESSAGES as nat)
}

fn all_rows(values: &Vec<Json>) -> (res: Vec<AgentMessageRow>)
    ensures
        messages::message_views(res@) == rows_of(json::list_views(values@)),
{
    let ghost all = json::list_views(values@);
    let mut rows: Vec<AgentMessageRow> = Vec::new();
    let mut i: usize = 0;
    assert(messages::message_views(rows@) =~= rows_of(all.take(0)));
    while i < values.len()
        invariant
            i <= values@.len(),
            all == json::list_views(values@),
            messages::message_views(rows@) == rows_of(all.take(i as int)),
        decreases values@.len() - i,
    {
        assert(all.take(i + 1).drop_last() =~= all.take(i as int));
        if let Some((role, body)) = codex_visible_message(&values[i]) {
            if !text::blank(body.as_str()) {
                let created_at = match values[i].text_of("timestamp") {
                    Some(stamp) => stamp.to_owned(),
                    None => "".to_owned(),
                };
                let row = AgentMessageRow { role, body, created_at, attachment: None };
                let ghost prior = rows@;
                rows.push(row);
                assert(messages::message_views(rows@) =~= messages::message_views(prior).push(row@));
            }
        }
        i += 1;
    }
    assert(all.take(i as int) =~= all);
    rows
}

/// The messages of a session that are shown, given the values of its lines.
pub fn codex_transcript_messages(values: &Vec<Json>) -> (res: Vec<AgentMessageRow>)
    ensures
        messages::message_views(res@) == transcript(json::list_views(values@)),
{
    let mut rows = all_rows(values);
    let ghost all = messages::message_views(rows@);
    let mut out: Vec<AgentMessageRow> = Vec::new();
    while rows.len() > 0 && out.len() < MAX_CODEX_TRANSCRIPT_MESSAGES
        invariant
            out@.len() <= MAX_CODEX_TRANSCRIPT_MESSAGES,
            rows@.len() + out@.len() == all.len(),
            messages::message_views(rows@) =~= all.take(rows@.len() as int),
            messages::message_views(out@) =~= all.skip(rows@.len() as int).reverse(),
        decreases rows@.len(),
    {
        let ghost n = rows@.len() as int;
        let ghost prior = out@;
        assert(messages::message_views(rows@)[n - 1] == all[n - 1]);
        if let Some(row) = rows.pop() {
            assert(row@ == all[n - 1]);
            out.push(row);
            assert(messages::message_views(out@) =~= messages::message_views(prior).push(row@));
            assert(all.skip(n - 1).reverse() =~= all.skip(n).reverse().push(all[n - 1]));
        }
    }
    assert(messages::message_views(out@) =~= last_turned(
        all,
        MAX_CODEX_TRANSCRIPT_MESSAGES as nat,
    )) by {
        assert(all.skip(0) =~= all);
    }
    out
}

/// A conversation on a page, given its messages where it was found.
pub open spec fn transcript_text(messages: Option<Seq<MessageView>>) -> Seq<char> {
    match messages {
        None => "<p class=\"empty\">Conversation not found.</p>"@,
        Some(rows) => if rows.len() == 0 {
            "<p class=\"empty\">This Codex conversation has no visible user or assistant messages yet.</p>"@
        } else {
            messages::chat_text(rows)
        },
    }
}

/// Writes a conversation, given the values of its lines where it was found.
pub fn codex_transcript_html(values: Option<&Vec<Json>>) -> (res: String)
    ensures
        res@ == transcript_text(match values {
            Some(values) => Some(transcript(json::list_views(values@))),
            None => None,
        }),
{
    match values {
        None => "<p class=\"empty\">Conversation not found.</p>".to_owned(),
        Some(values) => {
            let rows = codex_transcript_messages(values);
            if rows.len() == 0 {
                "<p class=\"empty\">This Codex conversation has no visible user or assistant messages yet.</p>".to_owned()
            } else {
                messages::agent_messages_html(&rows)
            }
        },
    }
}

// ---------------------------------------------------------------------------
// Conversations
// ---------------------------------------------------------------------------

/// The titles that the lines of an index give.
pub open spec fn thread_names(values: Seq<JsonView>) -> Seq<NameView>
    decreases values.len(),
{
    if values.len() == 0 {
        Seq::empty()
    } else {
        let before = thread_names(values.drop_last());
        let value = values.last();
        match value.text_at("id"@) {
            Some(id) => before.push(
                NameView {
                    id,
                    title: text::text_or(value.text_at("thread_name"@), "Untitled"@),
                    updated_at: text::text_or(value.text_at("updated_at"@), ""@),
                },
            ),
            None => before,
        }
    }
}

/// The last title that was given to a conversation.
pub open spec fn name_for(names: Seq<NameView>, id: Seq<char>) -> Option<NameView>
    decreases names.len(),
{
    if names.len() == 0 {
        None
    } else if names.last().id == id {
        Some(names.last())
    } else {
        name_for(names.drop_last(), id)
    }
}

/// Reads the titles, given the values of the index's lines.
pub fn load_codex_thread_names(values: &Vec<Json>) -> (res: Vec<ThreadName>)
    ensures
        name_views(res@) == thread_names(json::list_views(values@)),
{
    let ghost all = json::list_views(values@);
    let mut names: Vec<ThreadName> = Vec::new();
    let mut i: usize = 0;
    assert(name_views(names@) =~= thread_names(all.take(0)));
    while i < values.len()
        invariant
            i <= values@.len(),
            all == json::list_views(values@),
            name_views(names@) == thread_names(all.take(i as int)),
        decreases values@.len() - i,
    {
        assert(all.take(i + 1).drop_last() =~= all.take(i as int));
        if let Some(id) = values[i].text_of("id") {
            let title = match values[i].text_of("thread_name") {
                Some(title) => title.to_owned(),
                None => "Untitled".to_owned(),
            };
            let updated_at = match values[i].text_of("updated_at") {
                Some(stamp) => stamp.to_owned(),
                None => "".to_owned(),
            };
            let name = ThreadName { id: id.to_owned(), title, updated_at };
            let ghost prior = names@;
            names.push(name);
            assert(name_views(names@) =~= name_views(prior).push(name@));
        }
        i += 1;
    }
    assert(all.take(i as int) =~= all);
    names
}

fn find_name<'a>(names: &'a Vec<ThreadName>, id: &str) -> (res: Option<&'a ThreadName>)
    ensures
        match res {
            Some(name) => name_for(name_views(names@), id@) == Some(name@),
            None => name_for(name_views(names@), id@) is None,
        },
{
    let ghost all = name_views(names@);
    let mut i: usize = names.len();
    assert(all.take(i as int) =~= all);
    while i > 0
        invariant
            i <= names@.len(),
            all == name_views(names@),
            name_for(all.take(i as int), id@) == name_for(all, id@),
        decreases i,
    {
        assert(all.take(i as int).drop_last() =~= all.take(i - 1));
        i -= 1;
        if text::same(names[i].id.as_str(), id) {
            return Some(&names[i]);
        }
    }
    None
}

/// What the lines of a session tell, up to one of them.
#[verifier::ext_equal]
pub struct ScanView {
    pub id: Option<Seq<char>>,
    pub cwd: Option<Seq<char>>,
    pub started_at: Option<Seq<char>>,
    pub updated_at: Option<Seq<char>>,
    pub first_user: Option<Seq<char>>,
    pub last_message: Option<Seq<char>>,
    pub message_count: nat,
}

struct Scan {
    id: Option<String>,
    cwd: Option<String>,
    started_at: Option<String>,
    updated_at: Option<String>,
    first_user: Option<String>,
    last_message: Option<String>,
    message_count: usize,
}

impl Scan {
    spec fn view(&self) -> ScanView {
        ScanView {
            id: text::opt_text(self.id),
            cwd: text::opt_text(self.cwd),
            started_at: text::opt_text(self.started_at),
            updated_at: text::opt_text(self.updated_at),
            first_user: text::opt_text(self.first_user),
            last_message: text::opt_text(self.last_message),
            message_count: self.message_count as nat,
        }
    }
}

pub open spec fn nothing_scanned() -> ScanView {
    ScanView {
        id: None,
        cwd: None,
        started_at: None,
        updated_at: None,
        first_user: None,
        last_message: None,
        message_count: 0,
    }
}

/// What one more line adds: its time; who and where the session is; or a message.
pub open spec fn scan_step(scan: ScanView, value: JsonView) -> ScanView {
    let scan = match value.text_at("timestamp"@) {
        Some(stamp) => ScanView { updated_at: Some(stamp), ..scan },
        None => scan,
    };
    if value.text_at("type"@) == Some("session_meta"@) {
        let payload = value.at("payload"@);
        ScanView {
            id: payload.text_at("id"@),
            cwd: payload.text_at("cwd"@),
            started_at: payload.text_at("timestamp"@),
            ..scan
        }
    } else {
        match row_of(value) {
            Some(row) => ScanView {
                first_user: if row.role == "user"@ && scan.first_user is None {
                    Some(row.body)
                } else {
                    scan.first_user
                },
                last_message: Some(row.body),
                message_count: scan.message_count + 1,
                ..scan
            },
            None => scan,
        }
    }
}

/// What all lines of a session tell.
pub open spec fn scanned(values: Seq<JsonView>) -> ScanView
    decreases values.len(),
{
    if values.len() == 0 {
        nothing_scanned()
    } else {
        scan_step(scanned(values.drop_last()), values.last())
    }
}

fn owned(value: Option<&str>) -> (res: Option<String>)
    ensures
        text::opt_text(res) == text::opt_str(value),
{
    match value {
        Some(value) => Some(value.to_owned()),
        None => None,
    }
}

fn scan_values(values: &Vec<Json>) -> (res: Scan)
    ensures
        res.view() == scanned(json::list_views(values@)),
{
    let ghost all = json::list_views(values@);
    let null = Json::Null;
    let mut scan = Scan {
        id: None,
        cwd: None,
        started_at: None,
        updated_at: None,
        first_user: None,
        last_message: None,
        message_count: 0,
    };
    let mut i: usize = 0;
    while i < values.len()
        invariant
            i <= values@.len(),
            all == json::list_views(values@),
            null.view() == JsonView::Null,
            scan.message_count <= i,
            scan.view() == scanned(all.take(i as int)),
        decreases values@.len() - i,
    {
        assert(all.take(i + 1).drop_last() =~= all.take(i as int));
        let value = &values[i];
        let ghost before = scan.view();
        if let Some(stamp) = value.text_of("timestamp") {
            scan.updated_at = Some(stamp.to_owned());
        }
        if json::text_is(value, "type", "session_meta") {
            let payload = match value.get("payload") {
                Some(payload) => payload,
                None => &null,
            };
            scan.id = owned(payload.text_of("id"));
            scan.cwd = owned(payload.text_of("cwd"));
            scan.started_at = owned(payload.text_of("timestamp"));
        } else if let Some((role, body)) = codex_visible_message(value) {
            if !text::blank(body.as_str()) {
                scan.message_count += 1;
                if text::same(role.as_str(), "user") && scan.first_user.is_none() {
                    scan.first_user = Some(body.clone());
                }
                scan.last_message = Some(body);
            }
        }
        assert(scan.view() =~= scan_step(before, value.view()));
        i += 1;
    }
    assert(all.take(i as int) =~= all);
    scan
}

/// The title of a conversation: the saved one, unless it is blank or was put
/// in the user's mouth; else the user's first message in short.
pub open spec fn title_of(saved: Seq<char>, first_user: Option<Seq<char>>) -> Seq<char> {
    let saved = text::trimmed(saved);
    if saved.len() == 0 || synthetic(saved) {
        match first_user {
            Some(s) => formats::truncated(s, 56),
            None => "Untitled Codex conversation"@,
        }
    } else {
        saved
    }
}

/// When a conversation was changed: the saved time, unless it is blank; else
/// the last time in the session, the time it began, or that of the file.
pub open spec fn updated_of(saved: Seq<char>, scan: ScanView, modified: Seq<char>) -> Seq<char> {
    if !text::is_blank(saved) {
        saved
    } else {
        match scan.updated_at {
            Some(stamp) => stamp,
            None => match scan.started_at {
                Some(stamp) => stamp,
                None => modified,
            },
        }
    }
}

/// The conversation in a session file, given what its lines tell. The history
/// is none, nor is a session that does not say which one it is.
pub open spec fn conversation_of(
    path: Seq<char>,
    scan: ScanView,
    names: Seq<NameView>,
    home: Seq<char>,
    modified: Seq<char>,
) -> Option<ConversationView> {
    if paths::name_of(path) == Some("history.jsonl"@) {
        None
    } else {
        match scan.id {
            None => None,
            Some(id) => {
                let (title, updated) = match name_for(names, id) {
                    Some(name) => (name.title, name.updated_at),
                    None => (""@, ""@),
                };
                Some(
                    ConversationView {
                        id,
                        title: title_of(title, scan.first_user),
                        cwd: text::text_or(scan.cwd, home),
                        updated_at: updated_of(updated, scan, modified),
                        path,
                        preview: match scan.first_user {
                            Some(s) => s,
                            None => text::text_or(scan.last_message, ""@),
                        },
                        message_count: scan.message_count,
                    },
                )
            },
        }
    }
}

fn make_title(saved: &str, first_user: &Option<String>) -> (res: String)
    ensures
        res@ == title_of(saved@, text::opt_text(*first_user)),
{
    let saved = text::trim(saved);
    if saved.unicode_len() == 0 || is_codex_synthetic_user_text(saved) {
        match first_user {
            Some(s) => formats::truncate_text(s.as_str(), 56),
            None => "Untitled Codex conversation".to_owned(),
        }
    } else {
        saved.to_owned()
    }
}

/// The conversation in a session file, given the values of its lines.
pub fn codex_conversation_from_file(
    path: &str,
    values: &Vec<Json>,
    names: &Vec<ThreadName>,
    home: &str,
    modified: &Moment,
) -> (res: Option<CodexConversation>)
    requires
        modified.valid(),
    ensures
        opt_conversation(res) == conversation_of(
            path@,
            scanned(json::list_views(values@)),
            name_views(names@),
            home@,
            times::stamp(*modified),
        ),
{
    let is_history = match paths::file_name(path) {
        Some(name) => text::same(name.as_str(), "history.jsonl"),
        None => false,
    };
    if is_history {
        return None;
    }
    let scan = scan_values(values);
    let id = match scan.id {
        Some(id) => id,
        None => {
            return None;
        },
    };
    let cwd = match scan.cwd {
        Some(cwd) => cwd,
        None => home.to_owned(),
    };
    let (saved_title, saved_time) = match find_name(names, id.as_str()) {
        Some(name) => (name.title.as_str(), name.updated_at.as_str()),
        None => ("", ""),
    };
    let title = make_title(saved_title, &scan.first_user);
    let updated_at = if !text::blank(saved_time) {
        saved_time.to_owned()
    } else {
        match scan.updated_at {
            Some(stamp) => stamp,
            None => match scan.started_at {
                Some(stamp) => stamp,
                None => times::rfc3339(modified),
            },
        }
    };
    let preview = match scan.first_user {
        Some(s) => s,
        None => match scan.last_message {
            Some(s) => s,
            None => "".to_owned(),
        },
    };
    Some(
        CodexConversation {
            id,
            title,
            cwd,
            updated_at,
            path: path.to_owned(),
            preview,
            message_count: scan.message_count,
        },
    )
}

/// What a session file holds, given its lines.
pub fn read_session_file(
    path: &str,
    lines: &Vec<String>,
    names: &Vec<ThreadName>,
    home: &str,
    modified: &Moment,
) -> (res: SessionContent)
    requires
        modified.valid(),
    ensures
        ({
            let values = json::line_values(text::texts(lines@));
            &&& opt_conversation(res.conversation) == conversation_of(
                path@,
                scanned(values),
                name_views(names@),
                home@,
                times::stamp(*modified),
            )
            &&& codex_usage::opt_usage(res.usage) == codex_usage::latest_usage(values)
        }),
{
    let values = json::parse_lines(lines);
    SessionContent {
        conversation: codex_conversation_from_file(path, &values, names, home, modified),
        usage: codex_usage::latest_codex_usage(&values),
    }
}

/// The first conversation with an id.
pub open spec fn conversation_with(list: Seq<ConversationView>, id: Seq<char>) -> Option<
    ConversationView,
>
    decreases list.len(),
{
    if list.len() == 0 {
        None
    } else if list[0].id == id {
        Some(list[0])
    } else {
        conversation_with(list.skip(1), id)
    }
}

pub fn codex_conversation_by_id<'a>(index: &'a CodexIndex, thread_id: &str) -> (res: Option<
    &'a CodexConversation,
>)
    ensures
        match res {
            Some(c) => conversation_with(
                conversation_views(index.conversations@),
                thread_id@,
            ) == Some(c@),
            None => conversation_with(
                conversation_views(index.conversations@),
                thread_id@,
            ) is None,
        },
{
    let ghost all = conversation_views(index.conversations@);
    let mut i: usize = 0;
    assert(all.skip(0) =~= all);
    while i < index.conversations.len()
        invariant
            i <= index.conversations@.len(),
            all == conversation_views(index.conversations@),
            conversation_with(all.skip(i as int), thread_id@) == conversation_with(all, thread_id@),
        decreases index.conversations@.len() - i,
    {
        assert(all.skip(i as int)[0] == index.conversations@[i as int]@);
        assert(all.skip(i as int).skip(1) =~= all.skip(i + 1));
        if text::same(index.conversations[i].id.as_str(), thread_id) {
            return Some(&index.conversations[i]);
        }
        i += 1;
    }
    None
}

// ---------------------------------------------------------------------------
// What holds of the conversations
// ---------------------------------------------------------------------------

/// A line shows a message exactly where it is a response item that holds a
/// message, the message is one of the assistant, or one of the user that no
/// program wrote, and its text is not blank; the row has the message's role, its
/// text and the line's time.
pub proof fn only_messages_of_people_show(
    value: JsonView,
    payload: JsonView,
    role: Seq<char>,
    content: JsonView,
)
    requires
        value.get("payload"@) == Some(payload),
        payload.get("role"@) == Some(JsonView::Text(role)),
        payload.get("content"@) == Some(content),
    ensures
        row_of(value) is Some <==> {
            &&& value.get("type"@) == Some(JsonView::Text("response_item"@))
            &&& payload.get("type"@) == Some(JsonView::Text("message"@))
            &&& role == "assistant"@ || role == "user"@
            &&& role == "user"@ ==> !synthetic(content_text(content))
            &&& !text::is_blank(content_text(content))
        },
        row_of(value) matches Some(row) ==> {
            &&& row.role == role
            &&& row.body == content_text(content)
            &&& row.attachment is None
            &&& value.get("timestamp"@) matches Some(JsonView::Text(stamp)) ==> row.created_at
                == stamp
            &&& value.get("timestamp"@) is None ==> row.created_at == ""@
        },
{
    reveal_strlit("assistant");
    reveal_strlit("user");
    assert("assistant"@.len() != "user"@.len());
}

/// A line without a payload, or whose payload has no role or no content, shows no
/// message.
pub proof fn lines_without_content_show_nothing(value: JsonView)
    requires
        value.get("payload"@) is None || value.get("payload"@).unwrap().get("role"@) is None
            || value.get("payload"@).unwrap().get("content"@) is None,
    ensures
        row_of(value) is None,
{
}

/// The text of a list of items is that of its items, one line after the other,
/// without those that have none; a plain text is its own text.
pub proof fn contents_are_joined_by_lines(
    s: Seq<char>,
    items: Seq<JsonView>,
    raw: Seq<char>,
    item: JsonView,
    t: Seq<char>,
)
    requires
        item.get("text"@) == Some(JsonView::Text(t)) || (item.get("text"@) is None && item.get(
            "content"@,
        ) == Some(JsonView::Text(t))),
    ensures
        content_text(JsonView::Text(s)) == s,
        content_text(JsonView::List(seq![item], raw)) == t,
        item_texts(items).len() > 0 ==> content_text(JsonView::List(items.push(item), raw))
            == content_text(JsonView::List(items, raw)) + "\n"@ + t,
        content_text(JsonView::List(items.push(JsonView::Null), raw)) == content_text(
            JsonView::List(items, raw),
        ),
{
    assert(items.push(item).drop_last() =~= items);
    assert(items.push(JsonView::Null).drop_last() =~= items);
    assert(seq![item].drop_last() =~= Seq::<JsonView>::empty());
    assert(item_texts(Seq::<JsonView>::empty()) =~= Seq::<Seq<char>>::empty());
    assert(item_texts(seq![item]) =~= seq![t]);
    let texts = item_texts(items);
    assert(texts.push(t).drop_last() =~= texts);
}

/// A text that a program wrote starts with one of the known headings, or tells
/// both of an environment and of a folder; white space before it does not matter.
#[verifier::rlimit(50)]
#[verifier::spinoff_prover]
pub proof fn headings_mark_what_programs_wrote(s: Seq<char>, rest: Seq<char>)
    ensures
        synthetic("# AGENTS.md instructions for"@ + rest),
        synthetic("<environment_context>"@ + rest),
        synthetic("<INSTRUCTIONS>"@ + rest),
        synthetic("<permissions instructions>"@ + rest),
        synthetic("<collaboration_mode>"@ + rest),
        synthetic("<apps_instructions>"@ + rest),
        synthetic("<skills_instructions>"@ + rest),
        synthetic("<plugins_instructions>"@ + rest),
        synthetic(s + "<environment_context>"@ + rest + "<cwd>"@),
        synthetic(seq![' '] + s) == synthetic(s),
        (forall|i: int| 0 <= i < s.len() ==> s[i] != '<' && s[i] != '#') ==> !synthetic(s),
{
    reveal_strlit("# AGENTS.md instructions for");
    reveal_strlit("<environment_context>");
    reveal_strlit("<INSTRUCTIONS>");
    reveal_strlit("<permissions instructions>");
    reveal_strlit("<collaboration_mode>");
    reveal_strlit("<apps_instructions>");
    reveal_strlit("<skills_instructions>");
    reveal_strlit("<plugins_instructions>");
    reveal_strlit("<cwd>");
    starts_with("# AGENTS.md instructions for"@, rest);
    starts_with("<environment_context>"@, rest);
    starts_with("<INSTRUCTIONS>"@, rest);
    starts_with("<permissions instructions>"@, rest);
    starts_with("<collaboration_mode>"@, rest);
    starts_with("<apps_instructions>"@, rest);
    starts_with("<skills_instructions>"@, rest);
    starts_with("<plugins_instructions>"@, rest);
    assert((seq![' '] + s).skip(1) =~= s);
    let tail = "<environment_context>"@ + rest + "<cwd>"@;
    let whole = s + "<environment_context>"@ + rest + "<cwd>"@;
    assert(whole =~= s + tail);
    trimming_leaves_a_tail(s, tail);
    let n = choose|n: int|
        0 <= n <= s.len() && text::trimmed_start(s + tail, CharSet::Space) == s.skip(n) + tail;
    let t = text::trimmed_start(whole, CharSet::Space);
    assert(t.subrange(s.len() - n, s.len() - n + "<environment_context>"@.len())
        =~= "<environment_context>"@);
    assert(text::occurs_at(t, "<environment_context>"@, s.len() - n));
    let at = s.len() - n + "<environment_context>"@.len() + rest.len();
    assert(t.subrange(at, at + "<cwd>"@.len()) =~= "<cwd>"@);
    assert(text::occurs_at(t, "<cwd>"@, at));
    if forall|i: int| 0 <= i < s.len() ==> s[i] != '<' && s[i] != '#' {
        let u = text::trimmed_start(s, CharSet::Space);
        trimming_leaves_a_tail(s, Seq::empty());
        assert(s + Seq::<char>::empty() =~= s);
        let m = choose|m: int|
            0 <= m <= s.len() && text::trimmed_start(s + Seq::<char>::empty(), CharSet::Space)
                == s.skip(m) + Seq::<char>::empty();
        assert(forall|i: int| 0 <= i < u.len() ==> u[i] == s[i + m]);
        assert(forall|p: Seq<char>|
            text::has_prefix(u, p) && p.len() > 0 ==> #[trigger] p[0] == u.take(p.len() as int)[0]);
        if text::has_text(u, "<environment_context>"@) {
            let i = choose|i: int| text::occurs_at(u, "<environment_context>"@, i);
            assert(u.subrange(i, i + "<environment_context>"@.len())[0] == u[i]);
        }
    }
}

proof fn starts_with(head: Seq<char>, rest: Seq<char>)
    requires
        head.len() > 0,
        !text::is_space(head[0]),
    ensures
        text::has_prefix(text::trimmed_start(head + rest, CharSet::Space), head),
{
    assert((head + rest).take(head.len() as int) =~= head);
}

proof fn trimming_leaves_a_tail(s: Seq<char>, tail: Seq<char>)
    requires
        tail.len() > 0 ==> !text::is_space(tail[0]),
    ensures
        exists|n: int|
            0 <= n <= s.len() && text::trimmed_start(s + tail, CharSet::Space) == #[trigger] s.skip(
                n,
            ) + tail,
    decreases s.len(),
{
    if s.len() > 0 && text::is_space(s[0]) {
        trimming_leaves_a_tail(s.skip(1), tail);
        let n = choose|n: int|
            0 <= n <= s.skip(1).len() && text::trimmed_start(s.skip(1) + tail, CharSet::Space)
                == #[trigger] s.skip(1).skip(n) + tail;
        assert((s + tail).skip(1) =~= s.skip(1) + tail);
        assert(s.skip(1).skip(n) =~= s.skip(n + 1));
        assert(text::trimmed_start(s + tail, CharSet::Space) == s.skip(n + 1) + tail);
    } else {
        assert(s.skip(0) =~= s);
        assert(text::trimmed_start(s + tail, CharSet::Space) == s.skip(0) + tail);
    }
}

/// A transcript holds the last eighty messages that show, the latest first.
pub proof fn transcripts_show_the_latest_first(values: Seq<JsonView>, k: int)
    ensures
        transcript(values).len() == if rows_of(values).len() < 80 {
            rows_of(values).len()
        } else {
            80
        },
        0 <= k < transcript(values).len() ==> transcript(values)[k] == rows_of(
            values,
        )[rows_of(values).len() - 1 - k],
{
}

/// The messages of lines are those of the lines before and of the lines after, in
/// this order; a single line gives its own message or none.
pub proof fn messages_keep_their_order(first: Seq<JsonView>, second: Seq<JsonView>, value: JsonView)
    ensures
        rows_of(first + second) == rows_of(first) + rows_of(second),
        rows_of(seq![value]) == match row_of(value) {
            Some(row) => seq![row],
            None => Seq::empty(),
        },
    decreases second.len(),
{
    assert(seq![value].drop_last() =~= Seq::<JsonView>::empty());
    assert(rows_of(Seq::<JsonView>::empty()) =~= Seq::<MessageView>::empty());
    assert(rows_of(seq![value]) =~= match row_of(value) {
        Some(row) => seq![row],
        None => Seq::empty(),
    });
    if second.len() == 0 {
        assert(first + second =~= first);
        assert(rows_of(first) + rows_of(second) =~= rows_of(first));
    } else {
        messages_keep_their_order(first, second.drop_last(), value);
        assert((first + second).drop_last() =~= first + second.drop_last());
        assert(rows_of(first + second) =~= rows_of(first) + rows_of(second));
    }
}

/// Whether a line holds a visible message of the user.
pub open spec fn user_speaks(value: JsonView) -> bool {
    row_of(value) matches Some(row) && row.role == "user"@
}

proof fn kinds_differ()
    ensures
        "session_meta"@ != "response_item"@,
{
    reveal_strlit("session_meta");
    reveal_strlit("response_item");
    assert("session_meta"@.len() != "response_item"@.len());
}

proof fn no_user_is_scanned(values: Seq<JsonView>)
    requires
        forall|j: int| 0 <= j < values.len() ==> !user_speaks(#[trigger] values[j]),
    ensures
        scanned(values).first_user is None,
    decreases values.len(),
{
    if values.len() > 0 {
        assert(!user_speaks(values[values.len() - 1]));
        assert forall|j: int| 0 <= j < values.drop_last().len() implies !user_speaks(
            #[trigger] values.drop_last()[j],
        ) by {
            assert(values.drop_last()[j] == values[j]);
        }
        no_user_is_scanned(values.drop_last());
    }
}

proof fn first_user_is_scanned(values: Seq<JsonView>, i: int)
    requires
        0 <= i < values.len(),
        user_speaks(values[i]),
        forall|j: int| 0 <= j < i ==> !user_speaks(#[trigger] values[j]),
    ensures
        scanned(values).first_user == Some(row_of(values[i]).unwrap().body),
    decreases values.len(),
{
    kinds_differ();
    let front = values.drop_last();
    if i == values.len() - 1 {
        assert forall|j: int| 0 <= j < front.len() implies !user_speaks(#[trigger] front[j]) by {
            assert(front[j] == values[j]);
        }
        no_user_is_scanned(front);
    } else {
        assert(front[i] == values[i]);
        assert forall|j: int| 0 <= j < i implies !user_speaks(#[trigger] front[j]) by {
            assert(front[j] == values[j]);
        }
        first_user_is_scanned(front, i);
    }
}

/// The first visible message of the user is a conversation's preview and, where
/// no usable title is saved, its title, cut to fifty-six characters. What follows
/// that message changes neither.
pub proof fn the_first_user_message_names_a_conversation(
    values: Seq<JsonView>,
    i: int,
    path: Seq<char>,
    names: Seq<NameView>,
    home: Seq<char>,
    modified: Seq<char>,
)
    requires
        0 <= i < values.len(),
        row_of(values[i]) matches Some(row) && row.role == "user"@,
        forall|j: int|
            0 <= j < i ==> !(row_of(#[trigger] values[j]) matches Some(row) && row.role == "user"@),
    ensures
        conversation_of(path, scanned(values), names, home, modified) matches Some(c) ==> {
            let body = row_of(values[i]).unwrap().body;
            &&& c.preview == body
            &&& (forall|k: int|
                0 <= k < names.len() && (#[trigger] names[k]).id == c.id ==> text::is_blank(
                    names[k].title,
                ) || synthetic(text::trimmed(names[k].title))) ==> c.title == formats::truncated(
                body,
                56,
            )
        },
{
    assert forall|j: int| 0 <= j < i implies !user_speaks(#[trigger] values[j]) by {
    }
    first_user_is_scanned(values, i);
    if let Some(c) = conversation_of(path, scanned(values), names, home, modified) {
        saved_names_count(names, c.id);
        blank_is_blank();
    }
}

proof fn blank_is_blank()
    ensures
        text::trimmed(""@).len() == 0,
{
    reveal_strlit("");
}

/// Lines after the first visible message of the user change neither the preview
/// nor, while the id stays, the title.
pub proof fn later_lines_rename_nothing(
    values: Seq<JsonView>,
    more: Seq<JsonView>,
    i: int,
    path: Seq<char>,
    names: Seq<NameView>,
    home: Seq<char>,
    modified: Seq<char>,
)
    requires
        0 <= i < values.len(),
        row_of(values[i]) matches Some(row) && row.role == "user"@,
    ensures
        ({
            let before = conversation_of(path, scanned(values), names, home, modified);
            let after = conversation_of(path, scanned(values + more), names, home, modified);
            before is Some && after is Some ==> {
                &&& before.unwrap().preview == after.unwrap().preview
                &&& before.unwrap().id == after.unwrap().id ==> before.unwrap().title
                    == after.unwrap().title
            }
        }),
{
    let f = least_user(values, i);
    first_user_is_scanned(values, f);
    assert((values + more)[f] == values[f]);
    assert forall|j: int| 0 <= j < f implies !user_speaks(#[trigger] (values + more)[j]) by {
        assert((values + more)[j] == values[j]);
    }
    first_user_is_scanned(values + more, f);
}

proof fn least_user(values: Seq<JsonView>, i: int) -> (f: int)
    requires
        0 <= i < values.len(),
        user_speaks(values[i]),
    ensures
        0 <= f <= i,
        user_speaks(values[f]),
        forall|j: int| 0 <= j < f ==> !user_speaks(#[trigger] values[j]),
    decreases i,
{
    if exists|j: int| 0 <= j < i && user_speaks(#[trigger] values[j]) {
        let j = choose|j: int| 0 <= j < i && user_speaks(#[trigger] values[j]);
        least_user(values, j)
    } else {
        i
    }
}

/// Where no user speaks, the preview is the text of the last visible message, or
/// empty where there is none; and a conversation without a usable saved title has
/// the title for those.
pub proof fn without_a_user_the_last_message_is_shown(
    values: Seq<JsonView>,
    path: Seq<char>,
    names: Seq<NameView>,
    home: Seq<char>,
    modified: Seq<char>,
)
    requires
        forall|j: int|
            0 <= j < values.len() ==> !(row_of(#[trigger] values[j]) matches Some(row) && row.role
                == "user"@),
    ensures
        conversation_of(path, scanned(values), names, home, modified) matches Some(c) ==> {
            &&& rows_of(values).len() > 0 ==> c.preview == rows_of(values).last().body
            &&& rows_of(values).len() == 0 ==> c.preview == ""@
            &&& name_for(names, c.id) is None ==> c.title == "Untitled Codex conversation"@
        },
{
    assert forall|j: int| 0 <= j < values.len() implies !user_speaks(#[trigger] values[j]) by {
    }
    no_user_is_scanned(values);
    messages_are_scanned(values);
    blank_is_blank();
}

proof fn messages_are_scanned(values: Seq<JsonView>)
    ensures
        scanned(values).message_count == rows_of(values).len(),
        rows_of(values).len() > 0 ==> scanned(values).last_message == Some(
            rows_of(values).last().body,
        ),
        rows_of(values).len() == 0 ==> scanned(values).last_message is None,
    decreases values.len(),
{
    kinds_differ();
    if values.len() > 0 {
        messages_are_scanned(values.drop_last());
    }
}

/// A conversation counts as many messages as its lines show.
pub proof fn every_visible_message_is_counted(
    values: Seq<JsonView>,
    path: Seq<char>,
    names: Seq<NameView>,
    home: Seq<char>,
    modified: Seq<char>,
)
    ensures
        conversation_of(path, scanned(values), names, home, modified) matches Some(c) ==> {
            &&& c.message_count == rows_of(values).len()
            &&& c.path == path
        },
{
    messages_are_scanned(values);
}

proof fn heading_is_scanned(values: Seq<JsonView>, i: int)
    requires
        0 <= i < values.len(),
        values[i].text_at("type"@) == Some("session_meta"@),
        forall|j: int|
            i < j < values.len() ==> (#[trigger] values[j]).text_at("type"@) != Some(
                "session_meta"@,
            ),
    ensures
        scanned(values).id == values[i].at("payload"@).text_at("id"@),
        scanned(values).cwd == values[i].at("payload"@).text_at("cwd"@),
        scanned(values).started_at == values[i].at("payload"@).text_at("timestamp"@),
    decreases values.len(),
{
    let front = values.drop_last();
    if i < values.len() - 1 {
        assert(values[values.len() - 1].text_at("type"@) != Some("session_meta"@));
        assert(front[i] == values[i]);
        assert forall|j: int| i < j < front.len() implies (#[trigger] front[j]).text_at("type"@)
            != Some("session_meta"@) by {
            assert(front[j] == values[j]);
        }
        heading_is_scanned(front, i);
    }
}

proof fn nothing_heads(values: Seq<JsonView>)
    requires
        forall|j: int|
            0 <= j < values.len() ==> (#[trigger] values[j]).text_at("type"@) != Some(
                "session_meta"@,
            ),
    ensures
        scanned(values).id is None,
    decreases values.len(),
{
    if values.len() > 0 {
        let front = values.drop_last();
        assert(values[values.len() - 1].text_at("type"@) != Some("session_meta"@));
        assert forall|j: int| 0 <= j < front.len() implies (#[trigger] front[j]).text_at("type"@)
            != Some("session_meta"@) by {
            assert(front[j] == values[j]);
        }
        nothing_heads(front);
    }
}

/// The last heading of a session gives the conversation its id and its folder; a
/// folder that it does not name is the home folder. The history file, and a
/// session whose last heading has no id, are no conversation.
pub proof fn the_last_heading_counts(
    values: Seq<JsonView>,
    i: int,
    path: Seq<char>,
    names: Seq<NameView>,
    home: Seq<char>,
    modified: Seq<char>,
)
    requires
        0 <= i < values.len(),
        values[i].get("type"@) == Some(JsonView::Text("session_meta"@)),
        forall|j: int|
            i < j < values.len() ==> (#[trigger] values[j]).get("type"@) != Some(
                JsonView::Text("session_meta"@),
            ),
    ensures
        ({
            let found = conversation_of(path, scanned(values), names, home, modified);
            let payload = values[i].at("payload"@);
            &&& found is Some <==> paths::name_of(path) != Some("history.jsonl"@)
                && payload.text_at("id"@) is Some
            &&& found matches Some(c) ==> {
                &&& payload.get("id"@) == Some(JsonView::Text(c.id))
                &&& payload.text_at("cwd"@) matches Some(cwd) ==> c.cwd == cwd
                &&& payload.text_at("cwd"@) is None ==> c.cwd == home
            }
        }),
{
    assert forall|j: int| i < j < values.len() implies (#[trigger] values[j]).text_at("type"@)
        != Some("session_meta"@) by {
        assert(values[j].get("type"@) != Some(JsonView::Text("session_meta"@)));
    }
    heading_is_scanned(values, i);
}

/// Lines without a heading are no conversation.
pub proof fn a_conversation_needs_a_heading(
    values: Seq<JsonView>,
    path: Seq<char>,
    names: Seq<NameView>,
    home: Seq<char>,
    modified: Seq<char>,
)
    requires
        forall|j: int|
            0 <= j < values.len() ==> (#[trigger] values[j]).get("type"@) != Some(
                JsonView::Text("session_meta"@),
            ),
    ensures
        conversation_of(path, scanned(values), names, home, modified) is None,
{
    assert forall|j: int| 0 <= j < values.len() implies (#[trigger] values[j]).text_at("type"@)
        != Some("session_meta"@) by {
        assert(values[j].get("type"@) != Some(JsonView::Text("session_meta"@)));
    }
    nothing_heads(values);
}

proof fn stamp_is_scanned(values: Seq<JsonView>, i: int)
    requires
        0 <= i < values.len(),
        values[i].text_at("timestamp"@) is Some,
        forall|j: int|
            i < j < values.len() ==> (#[trigger] values[j]).text_at("timestamp"@) is None,
    ensures
        scanned(values).updated_at == values[i].text_at("timestamp"@),
    decreases values.len(),
{
    let front = values.drop_last();
    if i < values.len() - 1 {
        assert(values[values.len() - 1].text_at("timestamp"@) is None);
        assert(front[i] == values[i]);
        assert forall|j: int| i < j < front.len() implies (#[trigger] front[j]).text_at(
            "timestamp"@,
        ) is None by {
            assert(front[j] == values[j]);
        }
        stamp_is_scanned(front, i);
    }
}

/// A conversation was updated when its saved name says so; else at the time of
/// the last line that tells one.
pub proof fn the_last_time_counts(
    values: Seq<JsonView>,
    i: int,
    path: Seq<char>,
    names: Seq<NameView>,
    home: Seq<char>,
    modified: Seq<char>,
)
    requires
        0 <= i < values.len(),
        values[i].text_at("timestamp"@) is Some,
        forall|j: int|
            i < j < values.len() ==> (#[trigger] values[j]).text_at("timestamp"@) is None,
    ensures
        conversation_of(path, scanned(values), names, home, modified) matches Some(c) ==> {
            &&& name_for(names, c.id) is None ==> Some(c.updated_at) == values[i].text_at(
                "timestamp"@,
            )
            &&& name_for(names, c.id) matches Some(name) ==> if text::is_blank(name.updated_at) {
                Some(c.updated_at) == values[i].text_at("timestamp"@)
            } else {
                c.updated_at == name.updated_at
            }
        },
{
    stamp_is_scanned(values, i);
    blank_is_blank();
}

/// Without a time in any line or name, the heading's time counts, and without
/// that the file's own.
pub proof fn untimed_conversations_have_the_files_time(
    scan: ScanView,
    path: Seq<char>,
    home: Seq<char>,
    modified: Seq<char>,
)
    requires
        scan.updated_at is None,
    ensures
        conversation_of(path, scan, Seq::empty(), home, modified) matches Some(c) ==> {
            &&& scan.started_at matches Some(stamp) ==> c.updated_at == stamp
            &&& scan.started_at is None ==> c.updated_at == modified
        },
{
    blank_is_blank();
}

/// The last name that is saved for an id is its name, and an id has a name
/// exactly where one is saved for it.
pub proof fn saved_names_count(names: Seq<NameView>, id: Seq<char>)
    ensures
        match name_for(names, id) {
            Some(name) => exists|k: int|
                0 <= k < names.len() && #[trigger] names[k] == name && name.id == id && forall|
                    j: int,
                | k < j < names.len() ==> (#[trigger] names[j]).id != id,
            None => forall|k: int| 0 <= k < names.len() ==> (#[trigger] names[k]).id != id,
        },
    decreases names.len(),
{
    if names.len() > 0 {
        let front = names.drop_last();
        saved_names_count(front, id);
        if names.last().id == id {
            assert(names[names.len() - 1] == names.last());
        } else {
            match name_for(front, id) {
                Some(name) => {
                    let k = choose|k: int|
                        0 <= k < front.len() && #[trigger] front[k] == name && name.id == id
                            && forall|j: int|
                            k < j < front.len() ==> (#[trigger] front[j]).id != id;
                    assert(names[k] == name);
                    assert forall|j: int| k < j < names.len() implies (#[trigger] names[j]).id
                        != id by {
                        if j < front.len() {
                            assert(front[j].id != id);
                        }
                    }
                },
                None => {
                    assert forall|k: int| 0 <= k < names.len() implies (#[trigger] names[k]).id
                        != id by {
                        if k < front.len() {
                            assert(front[k].id != id);
                        }
                    }
                },
            }
        }
    }
}

/// A usable saved title, without the white space around it, is the conversation's
/// title, whatever the messages say.
pub proof fn saved_titles_win(
    scan: ScanView,
    name: NameView,
    path: Seq<char>,
    names: Seq<NameView>,
    home: Seq<char>,
    modified: Seq<char>,
)
    requires
        scan.id == Some(name.id),
        !text::is_blank(name.title),
        !synthetic(text::trimmed(name.title)),
    ensures
        conversation_of(path, scan, names.push(name), home, modified) matches Some(c) ==> c.title
            == text::trimmed(name.title),
{
}

/// Each line with an id saves a name, in the order of the lines; a line without a
/// name gives the title for those.
pub proof fn lines_with_an_id_save_names(values: Seq<JsonView>, value: JsonView)
    ensures
        value.get("id"@) matches Some(JsonView::Text(id)) ==> {
            &&& thread_names(values.push(value)).len() == thread_names(values).len() + 1
            &&& thread_names(values.push(value)).drop_last() =~= thread_names(values)
            &&& thread_names(values.push(value)).last().id == id
            &&& value.get("thread_name"@) matches Some(JsonView::Text(title)) ==> thread_names(
                values.push(value),
            ).last().title == title
            &&& value.get("thread_name"@) is None ==> thread_names(values.push(value)).last().title
                == "Untitled"@
            &&& value.get("updated_at"@) matches Some(JsonView::Text(stamp)) ==> thread_names(
                values.push(value),
            ).last().updated_at == stamp
            &&& value.get("updated_at"@) is None ==> thread_names(
                values.push(value),
            ).last().updated_at == ""@
        },
        !(value.get("id"@) matches Some(JsonView::Text(id))) ==> thread_names(values.push(value))
            == thread_names(values),
        thread_names(Seq::empty()).len() == 0,
{
    assert(values.push(value).drop_last() =~= values);
}

/// The session files are the files that end in `.jsonl`, in the order of the
/// folders' entries, five levels deep, and after them the history file.
pub proof fn session_files_are_searched_in_order(
    entries: Seq<DirEntry>,
    file: String,
    folder: DirTree,
    depth: nat,
    history: Seq<char>,
)
    ensures
        files_among(Seq::empty(), depth).len() == 0,
        paths::extension_of(file@) == Some("jsonl"@) ==> files_among(
            entries.push(DirEntry::File(file)),
            depth,
        ) == files_among(entries, depth).push(file@),
        paths::extension_of(file@) != Some("jsonl"@) ==> files_among(
            entries.push(DirEntry::File(file)),
            depth,
        ) == files_among(entries, depth),
        files_among(entries.push(DirEntry::Folder(folder)), depth) == files_among(entries, depth)
            + session_files(folder, depth),
        session_files(folder, 0).len() == 0,
        text::has_text(folder.path@, "/.tmp/"@) ==> session_files(folder, depth).len() == 0,
        !text::has_text(folder.path@, "/.tmp/"@) ==> session_files(folder, depth + 1)
            == files_among(folder.entries@, depth),
        all_session_files(folder, None) == session_files(folder, 5),
        all_session_files(folder, Some(history)) == session_files(folder, 5).push(history),
{
    let f = entries.push(DirEntry::File(file));
    assert(f.drop_last() =~= entries);
    let g = entries.push(DirEntry::Folder(folder));
    assert(g.drop_last() =~= entries);
    assert(files_among(f, depth) =~= if paths::extension_of(file@) == Some("jsonl"@) {
        files_among(entries, depth).push(file@)
    } else {
        files_among(entries, depth)
    });
    assert(all_session_files(folder, None) =~= session_files(folder, 5));
    assert(all_session_files(folder, Some(history)) =~= session_files(folder, 5).push(history));
}

/// A conversation is found by its id: the first that has it, and none where no
/// conversation has it.
pub proof fn conversations_are_found_by_id(list: Seq<ConversationView>, id: Seq<char>)
    ensures
        match conversation_with(list, id) {
            Some(c) => exists|k: int|
                0 <= k < list.len() && #[trigger] list[k] == c && c.id == id && forall|j: int|
                    0 <= j < k ==> (#[trigger] list[j]).id != id,
            None => forall|k: int| 0 <= k < list.len() ==> (#[trigger] list[k]).id != id,
        },
    decreases list.len(),
{
    if list.len() > 0 && list[0].id != id {
        let rest = list.skip(1);
        conversations_are_found_by_id(rest, id);
        match conversation_with(rest, id) {
            Some(c) => {
                let k = choose|k: int|
                    0 <= k < rest.len() && #[trigger] rest[k] == c && c.id == id && forall|j: int|
                        0 <= j < k ==> (#[trigger] rest[j]).id != id;
                assert(list[k + 1] == c);
                assert forall|j: int| 0 <= j < k + 1 implies (#[trigger] list[j]).id != id by {
                    if j > 0 {
                        assert(rest[j - 1].id != id);
                    }
                }
            },
            None => {
                assert forall|k: int| 0 <= k < list.len() implies (#[trigger] list[k]).id != id by {
                    if k > 0 {
                        assert(rest[k - 1].id != id);
                    }
                }
            },
        }
    }
}

/// Projects are listed with the busiest first, and those that are as busy by
/// their names, whatever the case.
pub proof fn the_busiest_project_comes_first(a: CodexProject, b: CodexProject)
    ensures
        a.conversation_count > b.conversation_count ==> a.before(b) && !b.before(a),
        a.conversation_count == b.conversation_count && text::precedes(
            text::lowered(a.name@),
            text::lowered(b.name@),
        ) ==> a.before(b) && !b.before(a),
        a.conversation_count == b.conversation_count && text::lowered(a.name@) == text::lowered(
            b.name@,
        ) ==> !a.before(b) && !b.before(a),
{
    text::text_order_is_total(text::lowered(a.name@), text::lowered(b.name@));
}

/// The session file that was changed last is read first, and the conversation
/// that was updated last comes first.
pub proof fn the_latest_comes_first(
    a: FileStamp,
    b: FileStamp,
    c: CodexConversation,
    d: CodexConversation,
)
    ensures
        a.before(b) <==> b.modified.earlier(a.modified),
        c.before(d) <==> text::precedes(d.updated_at@, c.updated_at@),
{
}

/// How much is listed and read.
pub proof fn lists_have_limits()
    ensures
        MAX_CODEX_CONVERSATIONS == 120,
        MAX_CODEX_TRANSCRIPT_MESSAGES == 80,
        CODEX_SESSION_SCAN_LIMIT == 180,
        CODEX_PROJECT_DRAWER_LIMIT == 48,
        CODEX_PROJECT_VISIBLE_CONVERSATIONS == 3,
        CODEX_PROJECT_CONVERSATION_LIMIT == 24,
{
}

/// A transcript that was read is shown as a chat, or said to be empty; one that
/// was not found is said so.
pub proof fn transcripts_are_shown_as_chats(rows: Seq<MessageView>)
    ensures
        transcript_text(None) == "<p class=\"empty\">Conversation not found.</p>"@,
        rows.len() == 0 ==> transcript_text(Some(rows))
            == "<p class=\"empty\">This Codex conversation has no visible user or assistant messages yet.</p>"@,
        rows.len() > 0 ==> transcript_text(Some(rows)) == messages::chat_text(rows),
{
}

/// An item whose text is no text is passed over, whatever its content is; and
/// what is neither a text nor a list has no text.
pub proof fn items_without_a_text_are_passed_over(
    items: Seq<JsonView>,
    item: JsonView,
    raw: Seq<char>,
    other: JsonView,
)
    requires
        item.get("text"@) matches Some(v) && !(v is Text),
        !(other is Text),
        !(other is List),
    ensures
        content_text(JsonView::List(items.push(item), raw)) == content_text(
            JsonView::List(items, raw),
        ),
        content_text(other) == ""@,
{
    assert(items.push(item).drop_last() =~= items);
}

/// Where no usable title is saved and no user spoke, a conversation has the title
/// for those.
pub proof fn nameless_conversations_are_untitled(
    scan: ScanView,
    name: NameView,
    path: Seq<char>,
    home: Seq<char>,
    modified: Seq<char>,
)
    requires
        scan.first_user is None,
        scan.id == Some(name.id),
        text::is_blank(name.title) || synthetic(text::trimmed(name.title)),
    ensures
        conversation_of(path, scan, seq![name], home, modified) matches Some(c) ==> c.title
            == "Untitled Codex conversation"@,
{
    assert(seq![name].last() == name);
}

} // verus!
