//! Jobs of agents: how they are asked for, started, watched and reported.

use vstd::prelude::*;
use vstd::string::StrSliceExecFns;
use vstd::string::StringExecFns;

use crate::agents;
use crate::agents::AgentPromptAttachment;
use crate::agents::AgentRun;
use crate::agents::AgentSlotRow;
use crate::agents::PromptFileView;
use crate::agents::RunView;
use crate::agents::SlotView;
use crate::config::AgentSlotSeed;
use crate::config::Config;
use crate::config::ConfigView;
use crate::config::SeedView;
use crate::config;
use crate::decimal;
use crate::formats;
use crate::json;
use crate::json::Json;
use crate::json::JsonView;
use crate::messages;
use crate::outside;
use crate::paths;
use crate::text;
use crate::text::CharSet;
use crate::times;
use crate::times::Moment;
use crate::web;
use crate::web::Reply;
use crate::web::ReplyView;

verus! {

/// How many bytes a message can have.
pub const MAX_AGENT_MESSAGE_CHARS: usize = 131072;

/// How many bytes a file can have.
pub const MAX_AGENT_UPLOAD_BYTES: usize = 26214400;

// ---------------------------------------------------------------------------
// The prompt and the command
// ---------------------------------------------------------------------------

pub open spec fn prompt_text(slot: SlotView, request: Seq<char>, file: Option<PromptFileView>) -> Seq<
    char,
> {
    let head = "You are running from Plugdeck agent slot "@ + slot.name
        + ".\nCurrent working folder: "@ + slot.workdir
        + "\nKeep the final reply concise and include what changed plus any verification run.\n\nUser request:\n"@
        + request;
    match file {
        None => head,
        Some(file) => head + "\n\nAttached file:\n- name: "@ + file.filename + "\n- path: "@
            + file.file_path + "\n- type: "@ + file.content_type + "\n- bytes: "@
            + decimal::decimal(file.size_bytes as int)
            + "\nUse the file path directly if you need to inspect the upload."@,
    }
}

pub open spec fn opt_file(file: Option<&AgentPromptAttachment>) -> Option<PromptFileView> {
    match file {
        Some(file) => Some(file@),
        None => None,
    }
}

/// What an agent is told.
pub fn build_agent_prompt(
    slot: &AgentSlotRow,
    request_body: &str,
    attachment: Option<&AgentPromptAttachment>,
) -> (res: String)
    ensures
        res@ == prompt_text(slot@, request_body@, opt_file(attachment)),
{
    let mut out = String::from_str("You are running from Plugdeck agent slot ");
    out.append(slot.name.as_str());
    out.append(".\nCurrent working folder: ");
    out.append(slot.workdir.as_str());
    out.append(
        "\nKeep the final reply concise and include what changed plus any verification run.\n\nUser request:\n",
    );
    out.append(request_body);
    if let Some(file) = attachment {
        out.append("\n\nAttached file:\n- name: ");
        out.append(file.filename.as_str());
        out.append("\n- path: ");
        out.append(file.file_path.as_str());
        out.append("\n- type: ");
        out.append(file.content_type.as_str());
        out.append("\n- bytes: ");
        out.append(decimal::integer_text(file.size_bytes).as_str());
        out.append("\nUse the file path directly if you need to inspect the upload.");
    }
    out
}

/// A session that an agent can take up again: its thread and its folder.
pub struct AgentSession {
    pub thread_id: String,
    pub workdir: String,
}

/// A session is taken up where it is in the slot's folder.
pub open spec fn resumed(session: Option<AgentSession>, workdir: Seq<char>) -> Option<Seq<char>> {
    match session {
        Some(session) => if session.workdir@ == workdir {
            Some(session.thread_id@)
        } else {
            None
        },
        None => None,
    }
}

/// The arguments of the agent's command: to take up a thread, or to start in a folder.
pub open spec fn job_args(
    config: ConfigView,
    workdir: Seq<char>,
    thread: Option<Seq<char>>,
    out_path: Seq<char>,
    prompt: Seq<char>,
) -> Seq<Seq<char>> {
    match thread {
        Some(thread) => seq!["exec"@, "resume"@, "--json"@] + config.agent_codex_args
            + seq!["--output-last-message"@, out_path, thread, prompt],
        None => seq!["exec"@, "--json"@] + config.agent_codex_args + seq![
            "--cd"@,
            workdir,
            "--output-last-message"@,
            out_path,
            prompt,
        ],
    }
}

fn add_all(list: &mut Vec<String>, more: &Vec<String>)
    ensures
        text::texts(final(list)@) == text::texts(old(list)@) + text::texts(more@),
{
    let ghost before = text::texts(list@);
    let ghost all = text::texts(more@);
    let mut i: usize = 0;
    while i < more.len()
        invariant
            i <= more@.len(),
            all == text::texts(more@),
            text::texts(list@) =~= before + all.take(i as int),
        decreases more@.len() - i,
    {
        text::push_text(list, more[i].clone());
        assert(all.take(i + 1) =~= all.take(i as int).push(all[i as int]));
        i += 1;
    }
    assert(all.take(i as int) =~= all);
}

/// The arguments of the agent's command.
pub fn agent_command_args(
    config: &Config,
    workdir: &str,
    thread: Option<&str>,
    out_path: &str,
    prompt: &str,
) -> (res: Vec<String>)
    ensures
        text::texts(res@) == job_args(
            config@,
            workdir@,
            text::opt_str(thread),
            out_path@,
            prompt@,
        ),
{
    let mut args: Vec<String> = Vec::new();
    text::push_text(&mut args, "exec".to_owned());
    match thread {
        Some(thread) => {
            text::push_text(&mut args, "resume".to_owned());
            text::push_text(&mut args, "--json".to_owned());
            assert(text::texts(args@) =~= seq!["exec"@, "resume"@, "--json"@]);
            add_all(&mut args, &config.agent_codex_args);
            text::push_text(&mut args, "--output-last-message".to_owned());
            text::push_text(&mut args, out_path.to_owned());
            text::push_text(&mut args, thread.to_owned());
            text::push_text(&mut args, prompt.to_owned());
        },
        None => {
            text::push_text(&mut args, "--json".to_owned());
            assert(text::texts(args@) =~= seq!["exec"@, "--json"@]);
            add_all(&mut args, &config.agent_codex_args);
            text::push_text(&mut args, "--cd".to_owned());
            text::push_text(&mut args, workdir.to_owned());
            text::push_text(&mut args, "--output-last-message".to_owned());
            text::push_text(&mut args, out_path.to_owned());
            text::push_text(&mut args, prompt.to_owned());
        },
    }
    assert(text::texts(args@) =~= job_args(
        config@,
        workdir@,
        text::opt_str(thread),
        out_path@,
        prompt@,
    ));
    args
}

/// The name of the file to which an agent writes its last message.
pub open spec fn output_name(slot_id: i64, id: Seq<char>) -> Seq<char> {
    "plugdeck-agent-"@ + decimal::decimal(slot_id as int) + "-"@ + id + ".txt"@
}

/// The name of the file to which an agent writes its last message, for an id.
pub fn output_name_with(slot_id: i64, id: &str) -> (res: String)
    ensures
        res@ == output_name(slot_id, id@),
{
    let mut out = String::from_str("plugdeck-agent-");
    out.append(decimal::integer_text(slot_id).as_str());
    out.append("-");
    out.append(id);
    out.append(".txt");
    out
}

/// A name of its own for the file to which an agent writes its last message.
pub fn new_output_name(slot_id: i64) -> (res: String)
    ensures
        exists|id: Seq<char>|
            id.len() == 32 && (forall|i: int|
                0 <= i < 32 ==> outside::is_hex_digit(#[trigger] id[i])) && res@
                == #[trigger] output_name(slot_id, id),
{
    let id = outside::random_id();
    output_name_with(slot_id, id.as_str())
}

/// A job that is about to start: what the chat is told, and the command.
pub struct JobStart {
    pub note: String,
    pub program: String,
    pub args: Vec<String>,
    pub workdir: String,
}

#[verifier::ext_equal]
pub struct StartView {
    pub note: Seq<char>,
    pub program: Seq<char>,
    pub args: Seq<Seq<char>>,
    pub workdir: Seq<char>,
}

impl View for JobStart {
    type V = StartView;

    open spec fn view(&self) -> StartView {
        StartView {
            note: self.note@,
            program: self.program@,
            args: text::texts(self.args@),
            workdir: self.workdir@,
        }
    }
}

/// The start of a job in a slot.
pub open spec fn start_of(
    config: ConfigView,
    slot: SlotView,
    request: Seq<char>,
    file: Option<PromptFileView>,
    session: Option<AgentSession>,
    out_path: Seq<char>,
) -> StartView {
    StartView {
        note: slot.name + " started in `"@ + slot.workdir + "`."@,
        program: config.agent_codex_bin,
        args: job_args(
            config,
            slot.workdir,
            resumed(session, slot.workdir),
            out_path,
            prompt_text(slot, request, file),
        ),
        workdir: slot.workdir,
    }
}

/// How a job in a slot starts; there is none for a slot that is gone.
pub fn begin_agent_job(
    config: &Config,
    slot: Option<&AgentSlotRow>,
    request_body: &str,
    attachment: Option<&AgentPromptAttachment>,
    session: &Option<AgentSession>,
    out_path: &str,
) -> (res: Option<JobStart>)
    ensures
        match (res, slot) {
            (Some(start), Some(slot)) => start@ == start_of(
                config@,
                slot@,
                request_body@,
                opt_file(attachment),
                *session,
                out_path@,
            ),
            (None, None) => true,
            _ => false,
        },
{
    let slot = match slot {
        Some(slot) => slot,
        None => {
            return None;
        },
    };
    let mut note = slot.name.clone();
    note.append(" started in `");
    note.append(slot.workdir.as_str());
    note.append("`.");
    let prompt = build_agent_prompt(slot, request_body, attachment);
    let thread = match session {
        Some(session) => if text::same(session.workdir.as_str(), slot.workdir.as_str()) {
            Some(session.thread_id.as_str())
        } else {
            None
        },
        None => None,
    };
    let args = agent_command_args(
        config,
        slot.workdir.as_str(),
        thread,
        out_path,
        prompt.as_str(),
    );
    Some(
        JobStart {
            note,
            program: config.agent_codex_bin.clone(),
            args,
            workdir: slot.workdir.clone(),
        },
    )
}

/// What the chat is told where the agent's command does not start.
pub fn start_failure(config: &Config, why: &str) -> (res: String)
    ensures
        res@ == "Could not start `"@ + config@.agent_codex_bin + "`: "@ + why@,
{
    let mut out = String::from_str("Could not start `");
    out.append(config.agent_codex_bin.as_str());
    out.append("`: ");
    out.append(why);
    out
}

/// How a job ended.
pub enum JobEnd {
    /// It was told to stop.
    Stopped,
    /// It finished, with what the file for its last message holds.
    Success(String),
    /// It failed: its exit code, and the last lines of its error output.
    Failed(Option<i32>, Vec<String>),
    /// Its end could not be seen, and why.
    Lost(String),
}

/// What the chat is told at the end of a job.
pub open spec fn end_text(name: Seq<char>, elapsed: int, end: JobEnd) -> Seq<char> {
    match end {
        JobEnd::Stopped => name + " stopped after "@ + decimal::decimal(elapsed) + "s."@,
        JobEnd::Success(last) => name + " done in "@ + decimal::decimal(elapsed) + "s.\n\n"@
            + if text::is_blank(last@) {
            "(Agent completed without a final message.)"@
        } else {
            text::trimmed(last@)
        },
        JobEnd::Failed(code, tail) => name + " failed with exit code "@ + decimal::decimal(
            match code {
                Some(code) => code as int,
                None => -1,
            },
        ) + " after "@ + decimal::decimal(elapsed) + "s.\n\n```text\n"@ + formats::truncated(
            text::joined(text::texts(tail@), "\n"@),
            2400,
        ) + "\n```"@,
        JobEnd::Lost(why) => name + " wait failed after "@ + decimal::decimal(elapsed) + "s: "@
            + why@,
    }
}

/// Tells the end of a job.
pub fn job_report(slot: &AgentSlotRow, elapsed: i64, end: &JobEnd) -> (res: String)
    ensures
        res@ == end_text(slot@.name, elapsed as int, *end),
{
    let mut out = slot.name.clone();
    let seconds = decimal::integer_text(elapsed);
    match end {
        JobEnd::Stopped => {
            out.append(" stopped after ");
            out.append(seconds.as_str());
            out.append("s.");
        },
        JobEnd::Success(last) => {
            out.append(" done in ");
            out.append(seconds.as_str());
            out.append("s.\n\n");
            if text::blank(last.as_str()) {
                out.append("(Agent completed without a final message.)");
            } else {
                out.append(text::trim(last.as_str()));
            }
        },
        JobEnd::Failed(code, tail) => {
            out.append(" failed with exit code ");
            let code: i64 = match code {
                Some(code) => *code as i64,
                None => -1,
            };
            out.append(decimal::integer_text(code).as_str());
            out.append(" after ");
            out.append(seconds.as_str());
            out.append("s.\n\n```text\n");
            let joined = text::join(tail, "\n");
            out.append(formats::truncate_text(joined.as_str(), 2400).as_str());
            out.append("\n```");
        },
        JobEnd::Lost(why) => {
            out.append(" wait failed after ");
            out.append(seconds.as_str());
            out.append("s: ");
            out.append(why.as_str());
        },
    }
    out
}

/// The whole seconds of a job; none where the clock went back.
pub open spec fn elapsed_of(started: Moment, now: Moment) -> int {
    let seconds = times::whole_seconds(times::nanos_between(now, started));
    if seconds < 0 {
        0
    } else {
        seconds
    }
}

pub fn elapsed_seconds(started: &Moment, now: &Moment) -> (res: i64)
    requires
        started.valid(),
        now.valid(),
    ensures
        res == elapsed_of(*started, *now),
{
    let seconds = times::seconds_between(now, started);
    if seconds < 0 {
        0
    } else {
        seconds
    }
}

// ---------------------------------------------------------------------------
// What an agent tells while it works
// ---------------------------------------------------------------------------

/// Something that an agent told.
pub enum AgentEvent {
    Nothing,
    /// The thread that can be taken up again.
    Session(String),
    /// A command runs: what the slot shows, and what the chat is told.
    Running(String, String),
    /// A command ended, with what the chat is told if it failed.
    Finished(Option<String>),
}

#[verifier::ext_equal]
pub enum EventView {
    Nothing,
    Session(Seq<char>),
    Running(Seq<char>, Seq<char>),
    Finished(Option<Seq<char>>),
}

impl View for AgentEvent {
    type V = EventView;

    open spec fn view(&self) -> EventView {
        match *self {
            AgentEvent::Nothing => EventView::Nothing,
            AgentEvent::Session(thread) => EventView::Session(thread@),
            AgentEvent::Running(current, note) => EventView::Running(current@, note@),
            AgentEvent::Finished(note) => EventView::Finished(text::opt_text(note)),
        }
    }
}

/// What the chat is told of a command that failed.
pub open spec fn failure_note(code: i64, command: Seq<char>, output: Seq<char>) -> Seq<char> {
    "command exit "@ + decimal::decimal(code as int) + ": `"@ + formats::truncated(command, 500)
        + "`\n```text\n"@ + formats::truncated(output, 1200) + "\n```"@
}

/// What the start or the end of an item means.
pub open spec fn item_event(started: bool, item: JsonView) -> EventView {
    if item.text_at("type"@) != Some("command_execution"@) {
        EventView::Nothing
    } else {
        let command = text::text_or(item.text_at("command"@), "(unknown command)"@);
        if started {
            EventView::Running(
                formats::truncated(command, 160),
                "running: `"@ + formats::truncated(command, 700) + "`"@,
            )
        } else {
            EventView::Finished(
                match item.integer_at("exit_code"@) {
                    Some(code) => if code != 0 {
                        Some(
                            failure_note(
                                code,
                                command,
                                text::text_or(item.text_at("aggregated_output"@), ""@),
                            ),
                        )
                    } else {
                        None
                    },
                    None => None,
                },
            )
        }
    }
}

/// What an agent told, given the value of its line.
pub open spec fn event_of(value: JsonView) -> EventView {
    let kind = text::text_or(value.text_at("type"@), ""@);
    if kind == "thread.started"@ && value.text_at("thread_id"@) is Some {
        EventView::Session(value.text_at("thread_id"@).unwrap())
    } else if kind == "item.started"@ {
        item_event(true, value.at("item"@))
    } else if kind == "item.completed"@ {
        item_event(false, value.at("item"@))
    } else {
        EventView::Nothing
    }
}

fn failure_text(code: i64, command: &str, output: &str) -> (res: String)
    ensures
        res@ == failure_note(code, command@, output@),
{
    let mut out = String::from_str("command exit ");
    out.append(decimal::integer_text(code).as_str());
    out.append(": `");
    out.append(formats::truncate_text(command, 500).as_str());
    out.append("`\n```text\n");
    out.append(formats::truncate_text(output, 1200).as_str());
    out.append("\n```");
    out
}

fn read_item(started: bool, item: &Json) -> (res: AgentEvent)
    ensures
        res@ == item_event(started, item.view()),
{
    if !json::text_is(item, "type", "command_execution") {
        return AgentEvent::Nothing;
    }
    let command = match item.text_of("command") {
        Some(command) => command,
        None => "(unknown command)",
    };
    if started {
        let mut note = String::from_str("running: `");
        note.append(formats::truncate_text(command, 700).as_str());
        note.append("`");
        return AgentEvent::Running(formats::truncate_text(command, 160), note);
    }
    match item.integer_of("exit_code") {
        Some(code) => if code != 0 {
            let output = match item.text_of("aggregated_output") {
                Some(output) => output,
                None => "",
            };
            AgentEvent::Finished(Some(failure_text(code, command, output)))
        } else {
            AgentEvent::Finished(None)
        },
        None => AgentEvent::Finished(None),
    }
}

/// What an agent told, given the value of its line.
pub fn agent_event(value: &Json) -> (res: AgentEvent)
    ensures
        res@ == event_of(value.view()),
{
    proof {
        reveal_strlit("thread.started");
        reveal_strlit("item.started");
        reveal_strlit("item.completed");
        assert("thread.started"@[0] == 't');
        assert("item.started"@.len() != "item.completed"@.len());
    }
    let null = Json::Null;
    let kind = match value.text_of("type") {
        Some(kind) => kind,
        None => "",
    };
    if text::same(kind, "thread.started") {
        return match value.text_of("thread_id") {
            Some(thread) => AgentEvent::Session(thread.to_owned()),
            None => AgentEvent::Nothing,
        };
    }
    let started = text::same(kind, "item.started");
    if !started && !text::same(kind, "item.completed") {
        return AgentEvent::Nothing;
    }
    let item = match value.get("item") {
        Some(item) => item,
        None => &null,
    };
    read_item(started, item)
}

/// What a line of an agent's output means; nothing where it cannot be read.
pub open spec fn line_event(line: Seq<char>) -> EventView {
    match json::json_of(line) {
        Some(value) => event_of(value),
        None => EventView::Nothing,
    }
}

/// Reads a line of an agent's output.
pub fn read_agent_stdout(line: &str) -> (res: AgentEvent)
    ensures
        res@ == line_event(line@),
{
    match json::parse_json(line) {
        Some(value) => agent_event(&value),
        None => AgentEvent::Nothing,
    }
}

/// The state of a job after an event.
pub open spec fn run_after(run: RunView, event: EventView) -> RunView {
    match event {
        EventView::Running(current, _) => RunView { status: "running"@, current, ..run },
        EventView::Finished(_) => RunView { current: ""@, ..run },
        _ => run,
    }
}

/// Takes note of an event in the state of a job.
pub fn apply_event(run: &mut AgentRun, event: &AgentEvent)
    ensures
        final(run)@ == run_after(old(run)@, event@),
{
    match event {
        AgentEvent::Running(current, _) => {
            run.status = "running".to_owned();
            run.current = current.clone();
        },
        AgentEvent::Finished(_) => {
            run.current = "".to_owned();
        },
        _ => {},
    }
}

/// A job that just began.
pub fn starting_run(now: &Moment) -> (res: AgentRun)
    requires
        now.valid(),
    ensures
        res@ == (RunView {
            status: "starting"@,
            current: "starting"@,
            started_at: times::stamp(*now),
        }),
{
    AgentRun {
        status: "starting".to_owned(),
        current: "starting".to_owned(),
        started_at: times::rfc3339(now),
    }
}

// ---------------------------------------------------------------------------
// Messages that are sent
// ---------------------------------------------------------------------------

/// A file that was sent.
pub struct PendingUpload {
    pub filename: String,
    pub content_type: String,
    pub bytes: Vec<u8>,
}

/// A message as far as it was read.
pub struct AgentForm {
    pub slot_id: Option<i64>,
    pub body: String,
    pub upload: Option<PendingUpload>,
}

/// What a part of a form is.
#[derive(Clone, Copy, Debug, PartialEq, Eq, Structural)]
pub enum AgentField {
    Slot,
    Body,
    Upload,
    Other,
}

pub open spec fn field_of(name: Seq<char>) -> AgentField {
    if name == "slot_id"@ {
        AgentField::Slot
    } else if name == "body"@ {
        AgentField::Body
    } else if name == "attachment"@ || name == "file"@ {
        AgentField::Upload
    } else {
        AgentField::Other
    }
}

pub fn agent_field(name: &str) -> (res: AgentField)
    ensures
        res == field_of(name@),
{
    if text::same(name, "slot_id") {
        AgentField::Slot
    } else if text::same(name, "body") {
        AgentField::Body
    } else if text::same(name, "attachment") || text::same(name, "file") {
        AgentField::Upload
    } else {
        AgentField::Other
    }
}

impl AgentForm {
    pub fn new() -> (res: AgentForm)
        ensures
            res.slot_id is None,
            res.body@ == ""@,
            res.upload is None,
    {
        AgentForm { slot_id: None, body: "".to_owned(), upload: None }
    }

    /// Takes the part that names the slot.
    pub fn take_slot(&mut self, value: &str)
        ensures
            final(self).slot_id == decimal::parsed_i64(text::trimmed(value@)),
            final(self).body == old(self).body,
            final(self).upload == old(self).upload,
    {
        self.slot_id = decimal::parse_integer(text::trim(value));
    }

    /// Takes the part with the text.
    pub fn take_body(&mut self, value: String)
        ensures
            final(self).body == value,
            final(self).slot_id == old(self).slot_id,
            final(self).upload == old(self).upload,
    {
        self.body = value;
    }

    /// Takes a file, unless it is empty or too large.
    pub fn take_upload(
        &mut self,
        filename: Option<String>,
        content_type: Option<String>,
        bytes: Vec<u8>,
    )
        ensures
            final(self).slot_id == old(self).slot_id,
            final(self).body == old(self).body,
            if 0 < bytes@.len() <= MAX_AGENT_UPLOAD_BYTES {
                final(self).upload matches Some(upload) && upload.filename@ == text::text_or(
                    text::opt_text(filename),
                    "attachment"@,
                ) && upload.content_type@ == text::text_or(
                    text::opt_text(content_type),
                    "application/octet-stream"@,
                ) && upload.bytes == bytes
            } else {
                final(self).upload == old(self).upload
            },
    {
        if bytes.len() == 0 || bytes.len() > MAX_AGENT_UPLOAD_BYTES {
            return;
        }
        let filename = match filename {
            Some(name) => name,
            None => "attachment".to_owned(),
        };
        let content_type = match content_type {
            Some(kind) => kind,
            None => "application/octet-stream".to_owned(),
        };
        self.upload = Some(PendingUpload { filename, content_type, bytes });
    }

    /// The slot that the message is for; the first one where none is named.
    pub fn slot(&self) -> (res: i64)
        ensures
            res == match self.slot_id {
                Some(id) => id,
                None => 1,
            },
    {
        match self.slot_id {
            Some(id) => id,
            None => 1,
        }
    }
}

/// Where a message is refused for its slot or its length, and where it leads then.
pub open spec fn refusal(slot: Option<SlotView>, body: Seq<char>) -> Option<Seq<char>> {
    match slot {
        None => Some("/agents"@),
        Some(slot) => if vstd::utf8::encode_utf8(text::trimmed(body)).len()
            > MAX_AGENT_MESSAGE_CHARS {
            Some(agents::location(Some(slot.id)))
        } else {
            None
        },
    }
}

/// Whether a message is refused before anything is kept of it, and where it leads then.
pub fn refuse_message(slot: Option<&AgentSlotRow>, body: &str) -> (res: Option<String>)
    ensures
        text::opt_text(res) == refusal(match slot {
            Some(slot) => Some(slot@),
            None => None,
        }, body@),
{
    match slot {
        None => Some("/agents".to_owned()),
        Some(slot) => if text::trim(body).as_bytes().len() > MAX_AGENT_MESSAGE_CHARS {
            Some(agents::agent_location(Some(slot.id)))
        } else {
            None
        },
    }
}

/// Whether a message says anything: it has a text or a file.
pub fn says_something(body: &str, attachment: Option<i64>) -> (res: bool)
    ensures
        res == (!text::is_blank(body@) || attachment is Some),
{
    !text::blank(body) || attachment.is_some()
}

/// What a message that was kept leads to.
pub enum MessageStep {
    /// It was a command.
    Handled,
    /// A job runs already; the chat is told so.
    Busy(String),
    /// A job starts with this request.
    Start(String),
}

#[verifier::ext_equal]
pub enum StepView {
    Handled,
    Busy(Seq<char>),
    Start(Seq<char>),
}

impl View for MessageStep {
    type V = StepView;

    open spec fn view(&self) -> StepView {
        match *self {
            MessageStep::Handled => StepView::Handled,
            MessageStep::Busy(note) => StepView::Busy(note@),
            MessageStep::Start(request) => StepView::Start(request@),
        }
    }
}

/// What a message that was kept leads to: a command is handled; else a job
/// starts, unless one runs in the slot.
pub open spec fn step_of(is_control: bool, running: bool, name: Seq<char>, body: Seq<char>) -> StepView {
    if is_control {
        StepView::Handled
    } else if running {
        StepView::Busy(
            name + " is already running. Use another slot or send `!stop` first."@,
        )
    } else {
        StepView::Start(
            if text::is_blank(body) {
                "Please inspect the attached file."@
            } else {
                text::trimmed(body)
            },
        )
    }
}

pub fn agent_message_step(is_control: bool, running: bool, slot: &AgentSlotRow, body: &str) -> (res:
    MessageStep)
    ensures
        res@ == step_of(is_control, running, slot@.name, body@),
{
    if is_control {
        return MessageStep::Handled;
    }
    if running {
        let mut note = slot.name.clone();
        note.append(" is already running. Use another slot or send `!stop` first.");
        return MessageStep::Busy(note);
    }
    if text::blank(body) {
        MessageStep::Start("Please inspect the attached file.".to_owned())
    } else {
        MessageStep::Start(text::trim(body).to_owned())
    }
}

/// The name under which a file is kept.
pub open spec fn stored_name_of(id: Seq<char>, filename: Seq<char>) -> Seq<char> {
    id + "-"@ + paths::safe_name(filename)
}

/// The name under which a file is kept, for an id.
pub fn stored_name_with(id: &str, filename: &str) -> (res: String)
    ensures
        res@ == stored_name_of(id@, filename@),
{
    let mut out = id.to_owned();
    out.append("-");
    out.append(paths::sanitize_filename(filename).as_str());
    out
}

/// A name of its own under which a file is kept.
pub fn stored_name(filename: &str) -> (res: String)
    ensures
        exists|id: Seq<char>|
            id.len() == 32 && (forall|i: int|
                0 <= i < 32 ==> outside::is_hex_digit(#[trigger] id[i])) && res@
                == #[trigger] stored_name_of(id, filename@),
{
    let id = outside::random_id();
    stored_name_with(id.as_str(), filename)
}

/// The folder for the files of a slot.
pub fn slot_upload_dir(config: &Config, slot_id: i64) -> (res: String)
    ensures
        res@ == paths::under(
            config@.agent_upload_dir,
            "slot-"@ + decimal::decimal(slot_id as int),
        ),
{
    let mut name = String::from_str("slot-");
    name.append(decimal::integer_text(slot_id).as_str());
    paths::join(config.agent_upload_dir.as_str(), name.as_str())
}

// ---------------------------------------------------------------------------
// Files that are shown
// ---------------------------------------------------------------------------

/// What a request for a kept file is answered, by where the file and its
/// folder really are; nothing where it may be read.
pub open spec fn file_refusal(
    path: Option<Seq<char>>,
    root: Option<Seq<char>>,
    is_file: bool,
    bad_root: Seq<char>,
) -> Option<ReplyView> {
    match (path, root) {
        (None, _) => Some(ReplyView::Plain(404, "missing file"@)),
        (_, None) => Some(ReplyView::Plain(500, bad_root)),
        (Some(path), Some(root)) => if !paths::within(path, root) || !is_file {
            Some(ReplyView::Plain(403, "forbidden"@))
        } else {
            None
        },
    }
}

pub fn refuse_file(path: Option<&str>, root: Option<&str>, is_file: bool, bad_root: &str) -> (res:
    Option<Reply>)
    ensures
        web::opt_reply(res) == file_refusal(
            text::opt_str(path),
            text::opt_str(root),
            is_file,
            bad_root@,
        ),
{
    let path = match path {
        Some(path) => path,
        None => {
            return Some(web::plain(404, "missing file"));
        },
    };
    let root = match root {
        Some(root) => root,
        None => {
            return Some(web::plain(500, bad_root));
        },
    };
    if !paths::starts_with(path, root) || !is_file {
        return Some(web::plain(403, "forbidden"));
    }
    None
}

/// What a request for an attachment is answered, by its size where it is
/// known; nothing where the file is looked for.
pub open spec fn attachment_refusal(size_bytes: Option<i64>) -> Option<ReplyView> {
    match size_bytes {
        None => Some(ReplyView::Plain(404, "not found"@)),
        Some(size) => if size < 0 || size > MAX_AGENT_UPLOAD_BYTES {
            Some(ReplyView::Plain(413, "file too large"@))
        } else {
            None
        },
    }
}

pub fn refuse_attachment(size_bytes: Option<i64>) -> (res: Option<Reply>)
    ensures
        web::opt_reply(res) == attachment_refusal(size_bytes),
{
    match size_bytes {
        None => Some(web::plain(404, "not found")),
        Some(size) => if size < 0 || size > MAX_AGENT_UPLOAD_BYTES as i64 {
            Some(web::plain(413, "file too large"))
        } else {
            None
        },
    }
}

/// How a browser is to take an attachment: images are shown, others are saved.
pub open spec fn disposition(filename: Seq<char>, content_type: Seq<char>) -> Seq<char> {
    let name = text::kept(filename, CharSet::Unquoted);
    let head = if messages::is_image_type(content_type) {
        "inline; filename=\""@
    } else {
        "attachment; filename=\""@
    };
    head + if name.len() == 0 {
        "attachment"@
    } else {
        name
    } + "\""@
}

pub fn attachment_disposition(filename: &str, content_type: &str) -> (res: String)
    ensures
        res@ == disposition(filename@, content_type@),
{
    let name = text::keep(filename, CharSet::Unquoted);
    let mut out = if text::starts_with(content_type, "image/") {
        String::from_str("inline; filename=\"")
    } else {
        String::from_str("attachment; filename=\"")
    };
    if name.as_str().unicode_len() == 0 {
        out.append("attachment");
    } else {
        out.append(name.as_str());
    }
    out.append("\"");
    out
}

// ---------------------------------------------------------------------------
// Conversations that are taken up
// ---------------------------------------------------------------------------

/// The folder to work in when a conversation is taken up: the one that was
/// asked for, if it exists, under its real path where that is known; else that
/// of the conversation. There is none without the conversation.
pub open spec fn conversation_folder(
    found: Option<Seq<char>>,
    requested: Seq<char>,
    requested_exists: bool,
    resolved_path: Option<Seq<char>>,
    home: Seq<char>,
) -> Option<Seq<char>> {
    match found {
        None => None,
        Some(cwd) => if requested_exists {
            Some(text::text_or(resolved_path, paths::expanded(requested, home)))
        } else {
            Some(paths::expanded(cwd, home))
        },
    }
}

pub fn choose_conversation_folder(
    found: Option<&str>,
    requested: &str,
    requested_exists: bool,
    resolved_path: Option<&str>,
    home: &str,
) -> (res: Option<String>)
    ensures
        text::opt_text(res) == conversation_folder(
            text::opt_str(found),
            requested@,
            requested_exists,
            text::opt_str(resolved_path),
            home@,
        ),
{
    match found {
        None => None,
        Some(cwd) => if requested_exists {
            match resolved_path {
                Some(resolved_path) => Some(resolved_path.to_owned()),
                None => Some(paths::expand_local_path(requested, home)),
            }
        } else {
            Some(paths::expand_local_path(cwd, home))
        },
    }
}

/// Where a conversation that was taken up is shown.
pub fn conversation_location(slot_id: i64, thread_id: &str) -> (res: String)
    ensures
        res@ == agents::location(Some(slot_id)) + "&thread="@ + outside::form_text(
            vstd::utf8::encode_utf8(thread_id@),
        ),
{
    let mut out = agents::agent_location(Some(slot_id));
    out.append("&thread=");
    out.append(web::url_encode(thread_id).as_str());
    out
}

/// The slots that should exist: those that are configured, else the default ones.
pub open spec fn wanted_slots(seeds: Seq<SeedView>, default_workdir: Seq<char>) -> Seq<SeedView> {
    if seeds.len() == 0 {
        text::split_on(config::DEFAULT_AGENT_SLOTS@, ',').map_values(
            |name: Seq<char>| SeedView { name, workdir: default_workdir },
        )
    } else {
        seeds
    }
}

/// The slots that should exist.
pub fn agent_slot_seeds(config: &Config) -> (res: Vec<AgentSlotSeed>)
    ensures
        config::seed_views(res@) == wanted_slots(
            config@.agent_slots,
            config@.agent_default_workdir,
        ),
{
    let mut out: Vec<AgentSlotSeed> = Vec::new();
    if config.agent_slots.len() == 0 {
        let names = text::split(config::DEFAULT_AGENT_SLOTS, ',');
        let ghost all = wanted_slots(config@.agent_slots, config@.agent_default_workdir);
        let mut i: usize = 0;
        assert(config::seed_views(out@) =~= all.take(0));
        while i < names.len()
            invariant
                i <= names@.len(),
                config@.agent_slots.len() == 0,
                text::texts(names@) == text::split_on(config::DEFAULT_AGENT_SLOTS@, ','),
                all == wanted_slots(config@.agent_slots, config@.agent_default_workdir),
                config::seed_views(out@) == all.take(i as int),
            decreases names@.len() - i,
        {
            let seed = AgentSlotSeed {
                name: names[i].clone(),
                workdir: config.agent_default_workdir.clone(),
            };
            let ghost prior = out@;
            out.push(seed);
            assert(config::seed_views(out@) =~= config::seed_views(prior).push(seed@));
            assert(text::texts(names@)[i as int] == names@[i as int]@);
            assert(seed@ == all[i as int]);
            assert(all.take(i + 1) =~= all.take(i as int).push(all[i as int]));
            i += 1;
        }
        assert(text::texts(names@).len() == all.len());
        assert(all.take(i as int) =~= all);
        return out;
    }
    let ghost all = config@.agent_slots;
    let mut i: usize = 0;
    assert(config::seed_views(out@) =~= all.take(0));
    while i < config.agent_slots.len()
        invariant
            i <= config.agent_slots@.len(),
            all == config@.agent_slots,
            config::seed_views(out@) == all.take(i as int),
        decreases config.agent_slots@.len() - i,
    {
        let seed = AgentSlotSeed {
            name: config.agent_slots[i].name.clone(),
            workdir: config.agent_slots[i].workdir.clone(),
        };
        let ghost prior = out@;
        out.push(seed);
        assert(config::seed_views(out@) =~= config::seed_views(prior).push(seed@));
        assert(all.take(i + 1) =~= all.take(i as int).push(all[i as int]));
        i += 1;
    }
    assert(all.take(i as int) =~= all);
    out
}

// ---------------------------------------------------------------------------
// What holds of jobs
// ---------------------------------------------------------------------------

/// A log never has more lines than it keeps, and its last line is the one that
/// came last.
pub proof fn logs_stay_short(log: Seq<Seq<char>>, line: Seq<char>)
    requires
        log.len() <= agents::LOG_LINES,
    ensures
        agents::with_line(log, line).len() <= agents::LOG_LINES,
        !text::is_blank(line) ==> agents::with_line(log, line).len() > 0 && agents::with_line(
            log,
            line,
        ).last() == text::trimmed(line),
        text::is_blank(line) ==> agents::with_line(log, line) == log,
{
}

/// A job starts exactly for a message that is no command, in a slot in which no
/// other job runs; and it is never asked nothing.
pub proof fn one_job_runs_at_a_time(is_control: bool, running: bool, name: Seq<char>, body: Seq<char>)
    ensures
        step_of(is_control, running, name, body) is Start <==> !is_control && !running,
        step_of(is_control, running, name, body) matches StepView::Start(request)
            ==> request.len() > 0,
{
    reveal_strlit("Please inspect the attached file.");
}

/// A session is taken up only in the folder it was in.
pub proof fn sessions_stay_in_their_folder(session: AgentSession, workdir: Seq<char>)
    ensures
        resumed(Some(session), workdir) is Some <==> session.workdir@ == workdir,
{
}

/// A file that lies outside its folder is never shown.
pub proof fn files_outside_are_refused(path: Seq<char>, root: Seq<char>, is_file: bool, bad_root: Seq<char>)
    requires
        !paths::within(path, root),
    ensures
        file_refusal(Some(path), Some(root), is_file, bad_root) == Some(
            ReplyView::Plain(403, "forbidden"@),
        ),
{
}

/// A name under which a file is kept holds no slash, whatever the file was called.
pub proof fn stored_names_hold_no_slash(id: Seq<char>, filename: Seq<char>)
    requires
        forall|i: int| 0 <= i < id.len() ==> outside::is_hex_digit(#[trigger] id[i]),
    ensures
        forall|i: int|
            0 <= i < stored_name_of(id, filename).len() ==> #[trigger] stored_name_of(id, filename)[i]
                != '/',
{
    reveal_strlit("-");
    paths::safe_names_are_safe(filename);
    let name = stored_name_of(id, filename);
    assert forall|i: int| 0 <= i < name.len() implies #[trigger] name[i] != '/' by {
        if i < id.len() {
            assert(name[i] == id[i]);
        } else if i > id.len() {
            assert(name[i] == paths::safe_name(filename)[i - id.len() - 1]);
        }
    }
}

/// The name in the header of an attachment holds no quote of its own.
pub proof fn dispositions_quote_once(filename: Seq<char>)
    ensures
        text::all_in(text::kept(filename, CharSet::Unquoted), CharSet::Unquoted),
    decreases filename.len(),
{
    if filename.len() > 0 {
        dispositions_quote_once(filename.drop_last());
    }
}

/// The agent is told its slot, its folder and the request, and of a file that
/// came with it the name, the path, the type and the size.
#[verifier::rlimit(50)]
#[verifier::spinoff_prover]
pub proof fn prompts_hold_the_request(slot: SlotView, request: Seq<char>, file: PromptFileView)
    ensures
        text::has_text(prompt_text(slot, request, None), slot.name),
        text::has_text(prompt_text(slot, request, None), slot.workdir),
        text::has_suffix(prompt_text(slot, request, None), "\n\nUser request:\n"@ + request),
        text::has_prefix(
            prompt_text(slot, request, Some(file)),
            prompt_text(slot, request, None),
        ),
        text::has_text(
            prompt_text(slot, request, Some(file)),
            "\n\nAttached file:\n- name: "@ + file.filename,
        ),
        text::has_text(prompt_text(slot, request, Some(file)), file.file_path),
        text::has_text(prompt_text(slot, request, Some(file)), file.content_type),
        text::has_text(
            prompt_text(slot, request, Some(file)),
            decimal::decimal(file.size_bytes as int),
        ),
{
    let p1 = "You are running from Plugdeck agent slot "@ + slot.name;
    let p2 = p1 + ".\nCurrent working folder: "@;
    let p3 = p2 + slot.workdir;
    let rule = "\nKeep the final reply concise and include what changed plus any verification run.\n\nUser request:\n"@;
    let p4 = p3 + rule;
    let head = p4 + request;
    text::longer_texts_keep_their_parts(
        "You are running from Plugdeck agent slot "@,
        slot.name,
        Seq::empty(),
    );
    text::longer_texts_keep_their_parts(p1, slot.name, ".\nCurrent working folder: "@);
    text::longer_texts_keep_their_parts(p2, slot.name, slot.workdir);
    text::longer_texts_keep_their_parts(p3, slot.name, rule);
    text::longer_texts_keep_their_parts(p4, slot.name, request);
    text::longer_texts_keep_their_parts(p2, slot.workdir, Seq::empty());
    text::longer_texts_keep_their_parts(p3, slot.workdir, rule);
    text::longer_texts_keep_their_parts(p4, slot.workdir, request);
    let last = "\n\nUser request:\n"@;
    assert(rule =~= rule.take(rule.len() - last.len()) + last) by {
        reveal_strlit(
            "\nKeep the final reply concise and include what changed plus any verification run.\n\nUser request:\n",
        );
        reveal_strlit("\n\nUser request:\n");
    }
    let front = p3 + rule.take(rule.len() - last.len());
    assert(head =~= front + (last + request));
    text::parts_of_a_text(front, last + request, Seq::empty());
    let q0 = head + "\n\nAttached file:\n- name: "@;
    let q1 = q0 + file.filename;
    let q2 = q1 + "\n- path: "@;
    let q3 = q2 + file.file_path;
    let q4 = q3 + "\n- type: "@;
    let q5 = q4 + file.content_type;
    let q6 = q5 + "\n- bytes: "@;
    let size = decimal::decimal(file.size_bytes as int);
    let q7 = q6 + size;
    let end = "\nUse the file path directly if you need to inspect the upload."@;
    assert(prompt_text(slot, request, Some(file)) == q7 + end);
    assert(head.take(head.len() as int) =~= head);
    let named = "\n\nAttached file:\n- name: "@ + file.filename;
    assert(q1 =~= head + named);
    text::longer_texts_keep_their_parts(head, named, Seq::empty());
    grows(head, head, "\n\nAttached file:\n- name: "@, file.filename, "\n- path: "@, file.file_path);
    grows(q3, head, "\n- type: "@, file.content_type, "\n- bytes: "@, size);
    text::longer_texts_keep_their_parts(q7, head, end);
    text::longer_texts_keep_their_parts(q1, named, "\n- path: "@);
    text::longer_texts_keep_their_parts(q2, named, file.file_path);
    grows(q3, named, "\n- type: "@, file.content_type, "\n- bytes: "@, size);
    text::longer_texts_keep_their_parts(q7, named, end);
    text::longer_texts_keep_their_parts(q2, file.file_path, Seq::empty());
    grows(q3, file.file_path, "\n- type: "@, file.content_type, "\n- bytes: "@, size);
    text::longer_texts_keep_their_parts(q7, file.file_path, end);
    text::longer_texts_keep_their_parts(q4, file.content_type, Seq::empty());
    text::longer_texts_keep_their_parts(q5, file.content_type, "\n- bytes: "@);
    text::longer_texts_keep_their_parts(q6, file.content_type, size);
    text::longer_texts_keep_their_parts(q7, file.content_type, end);
    text::longer_texts_keep_their_parts(q6, size, Seq::empty());
    text::longer_texts_keep_their_parts(q7, size, end);
}

proof fn grows(
    s: Seq<char>,
    p: Seq<char>,
    a: Seq<char>,
    b: Seq<char>,
    c: Seq<char>,
    d: Seq<char>,
)
    ensures
        text::has_text(s, p) ==> text::has_text(s + a + b + c + d, p),
        text::has_prefix(s, p) ==> text::has_prefix(s + a + b + c + d, p),
{
    text::longer_texts_keep_their_parts(s, p, a);
    text::longer_texts_keep_their_parts(s + a, p, b);
    text::longer_texts_keep_their_parts(s + a + b, p, c);
    text::longer_texts_keep_their_parts(s + a + b + c, p, d);
}

/// The agent goes on with a saved conversation of the same folder, or starts a
/// new one in the folder; either way it gets the settings' arguments, writes its
/// last message into the file, and gets the prompt last.
pub proof fn agents_go_on_or_start(
    config: ConfigView,
    workdir: Seq<char>,
    thread: Seq<char>,
    out_path: Seq<char>,
    prompt: Seq<char>,
)
    ensures
        ({
            let args = job_args(config, workdir, Some(thread), out_path, prompt);
            let n = args.len();
            let k = config.agent_codex_args.len() as int;
            &&& n == k + 7
            &&& args[0] == "exec"@ && args[1] == "resume"@ && args[2] == "--json"@
            &&& args.subrange(3, 3 + k) == config.agent_codex_args
            &&& args[n - 4] == "--output-last-message"@ && args[n - 3] == out_path
            &&& args[n - 2] == thread && args[n - 1] == prompt
        }),
        ({
            let args = job_args(config, workdir, None, out_path, prompt);
            let n = args.len();
            let k = config.agent_codex_args.len() as int;
            &&& n == k + 7
            &&& args[0] == "exec"@ && args[1] == "--json"@
            &&& args.subrange(2, 2 + k) == config.agent_codex_args
            &&& args[n - 5] == "--cd"@ && args[n - 4] == workdir
            &&& args[n - 3] == "--output-last-message"@ && args[n - 2] == out_path
            &&& args[n - 1] == prompt
        }),
{
    let k = config.agent_codex_args.len() as int;
    assert(job_args(config, workdir, Some(thread), out_path, prompt).subrange(3, 3 + k)
        =~= config.agent_codex_args);
    assert(job_args(config, workdir, None, out_path, prompt).subrange(2, 2 + k)
        =~= config.agent_codex_args);
}

/// A job runs the program of the settings in the slot's folder, and takes up the
/// saved conversation exactly where that was in the same folder.
pub proof fn jobs_run_in_the_slots_folder(
    config: ConfigView,
    slot: SlotView,
    request: Seq<char>,
    file: Option<PromptFileView>,
    session: AgentSession,
    out_path: Seq<char>,
)
    ensures
        ({
            let start = start_of(config, slot, request, file, Some(session), out_path);
            &&& start.program == config.agent_codex_bin
            &&& start.workdir == slot.workdir
            &&& start.note == slot.name + " started in `"@ + slot.workdir + "`."@
            &&& start.args.last() == prompt_text(slot, request, file)
            &&& session.workdir@ == slot.workdir ==> start.args[start.args.len() - 2]
                == session.thread_id@ && start.args[1] == "resume"@
            &&& session.workdir@ != slot.workdir ==> start.args[start.args.len() - 4]
                == slot.workdir && start.args[1] == "--json"@
        }),
        resumed(None, slot.workdir) is None,
        session.workdir@ == slot.workdir ==> resumed(Some(session), slot.workdir) == Some(
            session.thread_id@,
        ),
{
    let thread = session.thread_id@;
    agents_go_on_or_start(
        config,
        slot.workdir,
        thread,
        out_path,
        prompt_text(slot, request, file),
    );
}

/// The chat is told how a job ended and after how long: with its last message
/// where it finished, with its exit code and its last words where it failed.
pub proof fn ends_are_told(
    name: Seq<char>,
    elapsed: int,
    last: String,
    code: Option<i32>,
    tail: Vec<String>,
    why: String,
)
    ensures
        end_text(name, elapsed, JobEnd::Stopped) == name + " stopped after "@ + decimal::decimal(
            elapsed,
        ) + "s."@,
        !text::is_blank(last@) ==> end_text(name, elapsed, JobEnd::Success(last)) == name
            + " done in "@ + decimal::decimal(elapsed) + "s.\n\n"@ + text::trimmed(last@),
        text::is_blank(last@) ==> end_text(name, elapsed, JobEnd::Success(last)) == name
            + " done in "@ + decimal::decimal(elapsed) + "s.\n\n"@
            + "(Agent completed without a final message.)"@,
        code matches Some(n) ==> end_text(name, elapsed, JobEnd::Failed(code, tail)) == name
            + " failed with exit code "@ + decimal::decimal(n as int) + " after "@
            + decimal::decimal(elapsed) + "s.\n\n```text\n"@ + formats::truncated(
            text::joined(text::texts(tail@), "\n"@),
            2400,
        ) + "\n```"@,
        code is None ==> end_text(name, elapsed, JobEnd::Failed(code, tail)) == end_text(
            name,
            elapsed,
            JobEnd::Failed(Some(-1i32), tail),
        ),
        end_text(name, elapsed, JobEnd::Lost(why)) == name + " wait failed after "@
            + decimal::decimal(elapsed) + "s: "@ + why@,
{
}

/// A job took the whole seconds between its start and its end, and none where the
/// clock was set back.
pub proof fn whole_seconds_are_counted(started: Moment, now: Moment)
    ensures
        times::nanos_between(now, started) >= 0 ==> elapsed_of(started, now) * 1_000_000_000
            <= times::nanos_between(now, started) < (elapsed_of(started, now) + 1) * 1_000_000_000,
        times::nanos_between(now, started) < 0 ==> elapsed_of(started, now) == 0,
{
}

/// The agent's lines tell of a thread that started, of a command that runs, and
/// of a command that ended; every other line tells nothing.
pub proof fn events_are_read_by_kind(value: JsonView, item: JsonView, command: Seq<char>, id: Seq<char>)
    requires
        value.get("item"@) == Some(item),
        item.get("type"@) == Some(JsonView::Text("command_execution"@)),
        item.get("command"@) == Some(JsonView::Text(command)),
        value.get("thread_id"@) == Some(JsonView::Text(id)),
    ensures
        value.text_at("type"@) == Some("thread.started"@) ==> event_of(value) == EventView::Session(
            id,
        ),
        value.text_at("type"@) == Some("item.started"@) ==> event_of(value) == EventView::Running(
            formats::truncated(command, 160),
            "running: `"@ + formats::truncated(command, 700) + "`"@,
        ),
        value.text_at("type"@) == Some("item.completed"@) ==> event_of(value) is Finished,
        value.text_at("type"@) == Some("item.completed"@) && (item.integer_at("exit_code"@) is None
            || item.integer_at("exit_code"@) == Some(0i64)) ==> event_of(value)
            == EventView::Finished(None),
        value.text_at("type"@) == Some("item.completed"@) ==> (item.integer_at(
            "exit_code"@,
        ) matches Some(code) ==> code != 0 ==> (item.get("aggregated_output"@) matches Some(
            JsonView::Text(output),
        ) ==> event_of(value) == EventView::Finished(
            Some(
                "command exit "@ + decimal::decimal(code as int) + ": `"@ + formats::truncated(
                    command,
                    500,
                ) + "`\n```text\n"@ + formats::truncated(output, 1200) + "\n```"@,
            ),
        ))),
        value.text_at("type"@) == Some("item.completed"@) ==> (item.integer_at(
            "exit_code"@,
        ) matches Some(code) ==> code != 0 && item.get("aggregated_output"@) is None ==> event_of(
            value,
        ) == EventView::Finished(
            Some(
                "command exit "@ + decimal::decimal(code as int) + ": `"@ + formats::truncated(
                    command,
                    500,
                ) + "`\n```text\n"@ + formats::truncated(""@, 1200) + "\n```"@,
            ),
        )),
        value.text_at("type"@) != Some("thread.started"@) && value.text_at("type"@) != Some(
            "item.started"@,
        ) && value.text_at("type"@) != Some("item.completed"@) ==> event_of(value)
            == EventView::Nothing,
{
    reveal_strlit("thread.started");
    reveal_strlit("item.started");
    reveal_strlit("item.completed");
    reveal_strlit("");
    assert("thread.started"@[0] == 't' && "item.started"@.len() == 12 && "item.completed"@[0]
        == 'i' && ""@.len() == 0);
}

/// Items that are no commands, threads without an id, and lines that cannot be
/// read tell nothing.
pub proof fn other_items_tell_nothing(value: JsonView, line: Seq<char>)
    ensures
        value.at("item"@).text_at("type"@) != Some("command_execution"@) && value.text_at(
            "thread_id"@,
        ) is None ==> event_of(value) == EventView::Nothing,
        json::json_of(line) is None ==> line_event(line) == EventView::Nothing,
        json::json_of(line) matches Some(v) ==> line_event(line) == event_of(v),
{
}

/// A slot shows the command that runs, and none once it has ended; nothing else
/// changes what it shows.
pub proof fn slots_show_the_running_command(
    run: RunView,
    current: Seq<char>,
    told: Seq<char>,
    failed: Option<Seq<char>>,
    id: Seq<char>,
)
    ensures
        run_after(run, EventView::Running(current, told)).current == current,
        run_after(run, EventView::Running(current, told)).status == "running"@,
        run_after(run, EventView::Running(current, told)).started_at == run.started_at,
        run_after(run, EventView::Finished(failed)).current == ""@,
        run_after(run, EventView::Finished(failed)).status == run.status,
        run_after(run, EventView::Finished(failed)).started_at == run.started_at,
        run_after(run, EventView::Session(id)) == run,
        run_after(run, EventView::Nothing) == run,
{
}

/// The fields of the form are known by their names.
pub proof fn fields_have_names(name: Seq<char>)
    ensures
        field_of(name) == AgentField::Slot <==> name == "slot_id"@,
        field_of(name) == AgentField::Body <==> name == "body"@,
        field_of(name) == AgentField::Upload <==> name == "attachment"@ || name == "file"@,
{
    reveal_strlit("slot_id");
    reveal_strlit("body");
    reveal_strlit("attachment");
    reveal_strlit("file");
    assert("body"@[0] == 'b' && "file"@[0] == 'f' && "slot_id"@.len() == 7 && "attachment"@.len()
        == 10);
}

/// A message is refused without a slot, and where it is too long, white space
/// around it aside; a message of the full length is taken.
pub proof fn long_messages_are_refused(slot: SlotView, body: Seq<char>)
    ensures
        refusal(None, body) == Some("/agents"@),
        vstd::utf8::encode_utf8(text::trimmed(body)).len() <= 131_072 ==> refusal(Some(slot), body)
            is None,
        vstd::utf8::encode_utf8(text::trimmed(body)).len() > 131_072 ==> refusal(Some(slot), body)
            == Some(agents::location(Some(slot.id))),
{
}

/// A command is handled at once; else a slot that is busy says so, and one that
/// is not starts a job with the message, or with a request to look at the file.
pub proof fn messages_start_jobs(running: bool, name: Seq<char>, body: Seq<char>)
    ensures
        step_of(true, running, name, body) == StepView::Handled,
        step_of(false, true, name, body) == StepView::Busy(
            name + " is already running. Use another slot or send `!stop` first."@,
        ),
        !text::is_blank(body) ==> step_of(false, false, name, body) == StepView::Start(
            text::trimmed(body),
        ),
        text::is_blank(body) ==> step_of(false, false, name, body) == StepView::Start(
            "Please inspect the attached file."@,
        ),
{
}

/// A file is shown exactly where it and its folder are there, it lies in the
/// folder, and it is a file.
pub proof fn files_are_shown_from_their_folder(
    path: Option<Seq<char>>,
    root: Option<Seq<char>>,
    is_file: bool,
    bad_root: Seq<char>,
)
    ensures
        file_refusal(path, root, is_file, bad_root) is None <==> (path matches Some(p)
            && root matches Some(r) && paths::within(p, r) && is_file),
        path is None ==> file_refusal(path, root, is_file, bad_root) == Some(
            ReplyView::Plain(404, "missing file"@),
        ),
        path is Some && root is None ==> file_refusal(path, root, is_file, bad_root) == Some(
            ReplyView::Plain(500, bad_root),
        ),
        path is Some && root is Some && !is_file ==> file_refusal(path, root, is_file, bad_root)
            == Some(ReplyView::Plain(403, "forbidden"@)),
{
}

/// A file that came with a message is shown up to twenty-five mebibytes.
pub proof fn large_attachments_are_refused(size: i64)
    ensures
        attachment_refusal(None) == Some(ReplyView::Plain(404, "not found"@)),
        0 <= size <= 26_214_400 ==> attachment_refusal(Some(size)) is None,
        size < 0 || size > 26_214_400 ==> attachment_refusal(Some(size)) == Some(
            ReplyView::Plain(413, "file too large"@),
        ),
{
}

/// An image is shown in place, any other file is saved, under its name without
/// the characters that cannot stand there.
pub proof fn images_are_shown_in_place(filename: Seq<char>, content_type: Seq<char>)
    requires
        filename.len() > 0,
        text::all_in(filename, CharSet::Unquoted),
    ensures
        text::has_prefix(content_type, "image/"@) ==> disposition(filename, content_type)
            == "inline; filename=\""@ + filename + "\""@,
        !text::has_prefix(content_type, "image/"@) ==> disposition(filename, content_type)
            == "attachment; filename=\""@ + filename + "\""@,
        !text::has_prefix(content_type, "image/"@) ==> disposition(Seq::empty(), content_type)
            == "attachment; filename=\""@ + "attachment"@ + "\""@,
{
    text::keeping_goes_by_characters(filename, Seq::empty(), 'a', CharSet::Unquoted);
    assert(text::kept(Seq::<char>::empty(), CharSet::Unquoted).len() == 0);
}

/// A conversation is taken up in the folder that was asked for where that is
/// there, else in the folder it was in; one that is not found is not taken up.
pub proof fn conversations_open_in_a_folder_that_exists(
    cwd: Seq<char>,
    requested: Seq<char>,
    exists_there: bool,
    found_at: Option<Seq<char>>,
    home: Seq<char>,
)
    ensures
        conversation_folder(None, requested, exists_there, found_at, home) is None,
        !exists_there ==> conversation_folder(Some(cwd), requested, exists_there, found_at, home)
            == Some(paths::expanded(cwd, home)),
        exists_there ==> (found_at matches Some(p) ==> conversation_folder(
            Some(cwd),
            requested,
            exists_there,
            found_at,
            home,
        ) == Some(p)),
        exists_there && found_at is None ==> conversation_folder(
            Some(cwd),
            requested,
            exists_there,
            found_at,
            home,
        ) == Some(paths::expanded(requested, home)),
{
}

/// The slots that are set are the wanted ones; without any there is one, of the
/// agent's name, in the default folder.
pub proof fn some_slot_is_always_wanted(seeds: Seq<SeedView>, default_workdir: Seq<char>)
    ensures
        seeds.len() > 0 ==> wanted_slots(seeds, default_workdir) == seeds,
        seeds.len() == 0 ==> wanted_slots(seeds, default_workdir) == seq![
            SeedView { name: "codex"@, workdir: default_workdir },
        ],
{
    reveal_strlit("codex");
    let name = "codex"@;
    text::first_char_is_least(name, ',');
    assert(text::split_on(name, ',') =~= seq![name]);
    if seeds.len() == 0 {
        assert(wanted_slots(seeds, default_workdir) =~= seq![
            SeedView { name: "codex"@, workdir: default_workdir },
        ]);
    }
}

/// A job's last message goes to a file of its own, named by its slot and an id;
/// an upload is kept under an id and a safe form of its name.
pub proof fn files_are_named_by_an_id(slot_id: i64, id: Seq<char>, filename: Seq<char>)
    ensures
        output_name(slot_id, id) == "plugdeck-agent-"@ + decimal::decimal(slot_id as int) + "-"@ + id
            + ".txt"@,
        stored_name_of(id, filename) == id + "-"@ + paths::safe_name(filename),
{
}

/// A command that is not named is told as an unknown one.
pub proof fn unnamed_commands_are_unknown(value: JsonView, item: JsonView)
    requires
        value.get("item"@) == Some(item),
        item.get("type"@) == Some(JsonView::Text("command_execution"@)),
        item.get("command"@) is None,
        value.get("type"@) == Some(JsonView::Text("item.started"@)),
    ensures
        event_of(value) == EventView::Running(
            formats::truncated("(unknown command)"@, 160),
            "running: `"@ + formats::truncated("(unknown command)"@, 700) + "`"@,
        ),
{
    reveal_strlit("thread.started");
    reveal_strlit("item.started");
    assert("thread.started"@.len() != "item.started"@.len());
}

} // verus!
