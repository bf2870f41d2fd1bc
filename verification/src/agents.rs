//! Agent slots: the commands that a chat understands, and the jobs that run in it.

use vstd::prelude::*;
use vstd::string::StrSliceExecFns;
use vstd::string::StringExecFns;

use crate::decimal;
use crate::outside;
use crate::paths;
use crate::sorting;
use crate::sorting::Ranked;
use crate::text;

verus! {

/// How many lines of a log are kept.
pub const LOG_LINES: usize = 80;

/// How many entries of a folder are listed.
pub const LISTED_ENTRIES: usize = 120;

/// A slot: a chat with an agent that works in a folder.
#[derive(Clone, Debug)]
pub struct AgentSlotRow {
    pub id: i64,
    pub name: String,
    pub workdir: String,
}

/// A job that runs in a slot.
#[derive(Clone, Debug)]
pub struct AgentRun {
    pub status: String,
    pub current: String,
    pub started_at: String,
}

/// A file that an agent is told of.
#[derive(Debug)]
pub struct AgentPromptAttachment {
    pub filename: String,
    pub content_type: String,
    pub file_path: String,
    pub size_bytes: i64,
}

#[verifier::ext_equal]
pub struct SlotView {
    pub id: i64,
    pub name: Seq<char>,
    pub workdir: Seq<char>,
}

#[verifier::ext_equal]
pub struct RunView {
    pub status: Seq<char>,
    pub current: Seq<char>,
    pub started_at: Seq<char>,
}

#[verifier::ext_equal]
pub struct PromptFileView {
    pub filename: Seq<char>,
    pub content_type: Seq<char>,
    pub file_path: Seq<char>,
    pub size_bytes: i64,
}

impl View for AgentSlotRow {
    type V = SlotView;

    open spec fn view(&self) -> SlotView {
        SlotView { id: self.id, name: self.name@, workdir: self.workdir@ }
    }
}

impl View for AgentRun {
    type V = RunView;

    open spec fn view(&self) -> RunView {
        RunView { status: self.status@, current: self.current@, started_at: self.started_at@ }
    }
}

impl View for AgentPromptAttachment {
    type V = PromptFileView;

    open spec fn view(&self) -> PromptFileView {
        PromptFileView {
            filename: self.filename@,
            content_type: self.content_type@,
            file_path: self.file_path@,
            size_bytes: self.size_bytes,
        }
    }
}

pub open spec fn slot_views(slots: Seq<AgentSlotRow>) -> Seq<SlotView> {
    slots.map_values(|s: AgentSlotRow| s@)
}

// ---------------------------------------------------------------------------
// Places and labels
// ---------------------------------------------------------------------------

/// Where a slot is shown.
pub open spec fn location(slot_id: Option<i64>) -> Seq<char> {
    match slot_id {
        Some(id) => if id > 0 {
            "/agents?slot="@ + decimal::decimal(id as int)
        } else {
            "/agents"@
        },
        None => "/agents"@,
    }
}

pub fn agent_location(slot_id: Option<i64>) -> (res: String)
    ensures
        res@ == location(slot_id),
{
    match slot_id {
        Some(id) => if id > 0 {
            let mut out = String::from_str("/agents?slot=");
            out.append(decimal::integer_text(id).as_str());
            out
        } else {
            "/agents".to_owned()
        },
        None => "/agents".to_owned(),
    }
}

/// What a slot is doing.
pub open spec fn runtime_label(run: Option<RunView>) -> Seq<char> {
    match run {
        Some(run) => if text::is_blank(run.current) {
            run.status
        } else {
            run.current
        },
        None => "idle"@,
    }
}

pub fn agent_slot_runtime(run: Option<&AgentRun>) -> (res: String)
    ensures
        res@ == runtime_label(match run {
            Some(run) => Some(run@),
            None => None,
        }),
{
    match run {
        Some(run) => if text::blank(run.current.as_str()) {
            run.status.clone()
        } else {
            run.current.clone()
        },
        None => "idle".to_owned(),
    }
}

/// A list with one more line, blank ones passed over, cut down to its last lines.
pub open spec fn with_line(log: Seq<Seq<char>>, line: Seq<char>) -> Seq<Seq<char>> {
    let line = text::trimmed(line);
    if line.len() == 0 {
        log
    } else {
        let longer = log.push(line);
        if longer.len() > LOG_LINES {
            longer.skip(longer.len() - LOG_LINES)
        } else {
            longer
        }
    }
}

/// Puts a line at the end of a log and drops the first lines of a long one.
pub fn push_line(log: &mut Vec<String>, line: &str)
    ensures
        text::texts(final(log)@) == with_line(text::texts(old(log)@), line@),
{
    let line = text::trim(line);
    if line.unicode_len() == 0 {
        return;
    }
    text::push_text(log, line.to_owned());
    let ghost longer = text::texts(log@);
    if log.len() > LOG_LINES {
        let extra = log.len() - LOG_LINES;
        let kept = log.split_off(extra);
        *log = kept;
        assert(text::texts(log@) =~= longer.skip(longer.len() - LOG_LINES));
    }
}

// ---------------------------------------------------------------------------
// Commands in a chat
// ---------------------------------------------------------------------------

/// What follows a command word, in whatever case, where the text is that
/// command: nothing, or white space and an argument.
pub open spec fn argument(s: Seq<char>, command: Seq<char>) -> Option<Seq<char>> {
    let s = text::trimmed(s);
    if text::lowered(s) == text::lowered(command) {
        Some(""@)
    } else if s.len() > command.len() && text::lowered(s.take(command.len() as int))
        == text::lowered(command) && text::is_space(s[command.len() as int]) {
        Some(text::trimmed(s.skip(command.len() as int)))
    } else {
        None
    }
}

pub fn command_arg<'a>(s: &'a str, command: &str) -> (res: Option<&'a str>)
    ensures
        text::opt_str(res) == argument(s@, command@),
{
    let s = text::trim(s);
    if text::same_lower(s, command) {
        return Some("");
    }
    let n = s.unicode_len();
    let k = command.unicode_len();
    if n > k {
        let head = s.substring_char(0, k);
        assert(head@ =~= s@.take(k as int));
        if text::same_lower(head, command) && text::space(s.get_char(k)) {
            let tail = s.substring_char(k, n);
            assert(tail@ =~= s@.skip(k as int));
            return Some(text::trim(tail));
        }
    }
    None
}

/// A command in a chat.
pub enum Control {
    Help,
    Slots,
    Pwd,
    Status,
    Usage,
    Model,
    /// Start the chat anew, in the same folder or in the default one.
    Fresh { keep_workdir: bool },
    Stop,
    /// Work in another folder.
    ChangeDir(String),
    /// List a path.
    List(String),
    Unknown(String),
}

#[verifier::ext_equal]
pub enum ControlView {
    Help,
    Slots,
    Pwd,
    Status,
    Usage,
    Model,
    Fresh { keep_workdir: bool },
    Stop,
    ChangeDir(Seq<char>),
    List(Seq<char>),
    Unknown(Seq<char>),
}

impl View for Control {
    type V = ControlView;

    open spec fn view(&self) -> ControlView {
        match *self {
            Control::Help => ControlView::Help,
            Control::Slots => ControlView::Slots,
            Control::Pwd => ControlView::Pwd,
            Control::Status => ControlView::Status,
            Control::Usage => ControlView::Usage,
            Control::Model => ControlView::Model,
            Control::Fresh { keep_workdir } => ControlView::Fresh { keep_workdir },
            Control::Stop => ControlView::Stop,
            Control::ChangeDir(path) => ControlView::ChangeDir(path@),
            Control::List(path) => ControlView::List(path@),
            Control::Unknown(s) => ControlView::Unknown(s@),
        }
    }
}

/// The command that a text after the exclamation mark means.
pub open spec fn control_word(s: Seq<char>, workdir: Seq<char>, home: Seq<char>) -> ControlView {
    let lower = text::lowered(s);
    if lower == "help"@ || lower == "commands"@ {
        ControlView::Help
    } else if lower == "slots"@ || lower == "list"@ || lower == "overview"@ {
        ControlView::Slots
    } else if lower == "pwd"@ {
        ControlView::Pwd
    } else if lower == "status"@ {
        ControlView::Status
    } else if lower == "usage"@ || lower == "limits"@ {
        ControlView::Usage
    } else if lower == "model"@ || lower == "settings"@ {
        ControlView::Model
    } else if lower == "stayfresh"@ {
        ControlView::Fresh { keep_workdir: true }
    } else if lower == "fresh"@ || lower == "new"@ {
        ControlView::Fresh { keep_workdir: false }
    } else if lower == "stop"@ {
        ControlView::Stop
    } else {
        match argument(s, "cd"@) {
            Some(arg) => ControlView::ChangeDir(
                if text::is_blank(arg) {
                    home
                } else {
                    paths::resolved(arg, workdir, home)
                },
            ),
            None => match argument(s, "ls"@) {
                Some(arg) => ControlView::List(
                    if text::is_blank(arg) {
                        workdir
                    } else {
                        paths::resolved(arg, workdir, home)
                    },
                ),
                None => ControlView::Unknown(s),
            },
        }
    }
}

/// The command that a message means, where it starts with an exclamation mark.
pub open spec fn control_of(body: Seq<char>, workdir: Seq<char>, home: Seq<char>) -> Option<
    ControlView,
> {
    let body = text::trimmed(body);
    if text::has_prefix(body, "!"@) {
        Some(control_word(text::trimmed(body.skip("!"@.len() as int)), workdir, home))
    } else {
        None
    }
}

fn read_control(s: &str, workdir: &str, home: &str) -> (res: Control)
    ensures
        res@ == control_word(s@, workdir@, home@),
{
    let lower_text = text::lower(s);
    let lower = lower_text.as_str();
    if text::same(lower, "help") || text::same(lower, "commands") {
        return Control::Help;
    }
    if text::same(lower, "slots") || text::same(lower, "list") || text::same(lower, "overview") {
        return Control::Slots;
    }
    if text::same(lower, "pwd") {
        return Control::Pwd;
    }
    if text::same(lower, "status") {
        return Control::Status;
    }
    if text::same(lower, "usage") || text::same(lower, "limits") {
        return Control::Usage;
    }
    if text::same(lower, "model") || text::same(lower, "settings") {
        return Control::Model;
    }
    if text::same(lower, "stayfresh") {
        return Control::Fresh { keep_workdir: true };
    }
    if text::same(lower, "fresh") || text::same(lower, "new") {
        return Control::Fresh { keep_workdir: false };
    }
    if text::same(lower, "stop") {
        return Control::Stop;
    }
    if let Some(arg) = command_arg(s, "cd") {
        return Control::ChangeDir(
            if text::blank(arg) {
                home.to_owned()
            } else {
                paths::resolve_agent_path(arg, workdir, home)
            },
        );
    }
    if let Some(arg) = command_arg(s, "ls") {
        return Control::List(
            if text::blank(arg) {
                workdir.to_owned()
            } else {
                paths::resolve_agent_path(arg, workdir, home)
            },
        );
    }
    Control::Unknown(s.to_owned())
}

/// The command that a message to a slot means, if it is one.
pub fn agent_control(body: &str, slot: &AgentSlotRow, home: &str) -> (res: Option<Control>)
    ensures
        match res {
            Some(control) => control_of(body@, slot@.workdir, home@) == Some(control@),
            None => control_of(body@, slot@.workdir, home@) is None,
        },
{
    match text::strip_prefix(text::trim(body), "!") {
        Some(rest) => Some(read_control(text::trim(rest), slot.workdir.as_str(), home)),
        None => None,
    }
}

/// What a command needs to know. Each command looks at its own part only.
pub struct ControlFacts {
    /// All slots.
    pub slots: Vec<AgentSlotRow>,
    /// The slots in which a job runs.
    pub running: Vec<i64>,
    /// What the slot is doing.
    pub label: String,
    /// The usage in lines.
    pub usage: String,
    /// The agent's command line.
    pub command: String,
    /// The folder that slots work in by default.
    pub default_workdir: String,
    /// A job of the slot was told to stop.
    pub stopped: bool,
    /// The folder to change to exists.
    pub is_dir: bool,
    /// The path in lines.
    pub listing: String,
}

/// What a command does: it can move the slot to another folder, forget the
/// session and the messages, and it answers.
pub struct ControlEffect {
    pub workdir: Option<String>,
    pub forgets_session: bool,
    pub forgets_messages: bool,
    pub reply: String,
}

#[verifier::ext_equal]
pub struct EffectView {
    pub workdir: Option<Seq<char>>,
    pub forgets_session: bool,
    pub forgets_messages: bool,
    pub reply: Seq<char>,
}

impl View for ControlEffect {
    type V = EffectView;

    open spec fn view(&self) -> EffectView {
        EffectView {
            workdir: text::opt_text(self.workdir),
            forgets_session: self.forgets_session,
            forgets_messages: self.forgets_messages,
            reply: self.reply@,
        }
    }
}

/// Whether a command stops the job of its slot before it is answered.
pub fn stops_job(control: &Control) -> (res: bool)
    ensures
        res == (control@ is Fresh || control@ is Stop),
{
    match control {
        Control::Fresh { .. } | Control::Stop => true,
        _ => false,
    }
}

pub open spec fn only_reply(reply: Seq<char>) -> EffectView {
    EffectView { workdir: None, forgets_session: false, forgets_messages: false, reply }
}

/// The slots as the help lists them.
pub open spec fn slot_lines(slots: Seq<SlotView>) -> Seq<Seq<char>> {
    slots.map_values(|s: SlotView| "- `"@ + s.name + "` at `"@ + s.workdir + "`"@)
}

/// The commands and the slots.
pub open spec fn help_lines(slots: Seq<SlotView>) -> Seq<Seq<char>> {
    seq![
        "Agent commands:"@,
        "- `!help` or `!commands`"@,
        "- `!slots`"@,
        "- `!pwd`"@,
        "- `!ls [path]`"@,
        "- `!cd [path]`"@,
        "- `!fresh`"@,
        "- `!stayfresh`"@,
        "- `!status`"@,
        "- `!usage`"@,
        "- `!stop`"@,
        "- `!model`"@,
        ""@,
        "Slots:"@,
    ] + slot_lines(slots)
}

pub open spec fn help_text(slots: Seq<SlotView>) -> Seq<char> {
    text::joined(help_lines(slots), "\n"@)
}

/// The slots and whether a job runs in each.
pub open spec fn status_lines(slots: Seq<SlotView>, running: Seq<i64>) -> Seq<Seq<char>> {
    slots.map_values(
        |s: SlotView|
            s.name + ": "@ + if running.contains(s.id) {
                "running"@
            } else {
                "idle"@
            } + " | "@ + s.workdir,
    )
}

pub open spec fn status_text(slots: Seq<SlotView>, running: Seq<i64>) -> Seq<char> {
    "Slots:\n```text\n"@ + text::joined(status_lines(slots, running), "\n"@) + "\n```"@
}

/// What the reset of a chat is answered.
pub open spec fn fresh_text(name: Seq<char>, keep: bool, workdir: Seq<char>, stopped: bool) -> Seq<
    char,
> {
    name + " chat reset. "@ + if keep {
        "Folder kept at `"@
    } else {
        "Folder reset to `"@
    } + workdir + "`."@ + if stopped {
        " Stopped the current job."@
    } else {
        ""@
    } + " Your next message starts a new agent chat."@
}

/// What a command does, given what it needs to know.
pub open spec fn effect_of(control: ControlView, slot: SlotView, facts: ControlFacts) -> EffectView {
    match control {
        ControlView::Help => only_reply(help_text(slot_views(facts.slots@))),
        ControlView::Slots => only_reply(status_text(slot_views(facts.slots@), facts.running@)),
        ControlView::Pwd => only_reply(slot.name + " folder: `"@ + slot.workdir + "`"@),
        ControlView::Status => only_reply(
            slot.name + " is "@ + facts.label@ + ". Folder: `"@ + slot.workdir + "`\n"@
                + facts.usage@,
        ),
        ControlView::Usage => only_reply(facts.usage@),
        ControlView::Model => only_reply("Agent command: `"@ + facts.command@ + "`"@),
        ControlView::Fresh { keep_workdir } => EffectView {
            workdir: if keep_workdir {
                None
            } else {
                Some(facts.default_workdir@)
            },
            forgets_session: true,
            forgets_messages: true,
            reply: fresh_text(
                slot.name,
                keep_workdir,
                if keep_workdir {
                    slot.workdir
                } else {
                    facts.default_workdir@
                },
                facts.stopped,
            ),
        },
        ControlView::Stop => only_reply(
            if facts.stopped {
                "Stop requested."@
            } else {
                "This slot is not running."@
            },
        ),
        ControlView::ChangeDir(target) => if facts.is_dir {
            EffectView {
                workdir: Some(target),
                forgets_session: true,
                forgets_messages: false,
                reply: slot.name + " folder set to `"@ + target + "`"@,
            }
        } else {
            only_reply("Folder does not exist: `"@ + target + "`"@)
        },
        ControlView::List(_) => only_reply(facts.listing@),
        ControlView::Unknown(s) => only_reply(
            "Unknown Plugdeck agent command: `"@ + s + "`. Type `!help` for commands."@,
        ),
    }
}

fn wrapped(head: &str, body: &str, tail: &str) -> (res: String)
    ensures
        res@ == head@ + body@ + tail@,
{
    let mut out = head.to_owned();
    out.append(body);
    out.append(tail);
    out
}

pub fn agent_help_text(slots: &Vec<AgentSlotRow>) -> (res: String)
    ensures
        res@ == help_text(slot_views(slots@)),
{
    let mut lines: Vec<String> = Vec::new();
    text::push_text(&mut lines, "Agent commands:".to_owned());
    text::push_text(&mut lines, "- `!help` or `!commands`".to_owned());
    text::push_text(&mut lines, "- `!slots`".to_owned());
    text::push_text(&mut lines, "- `!pwd`".to_owned());
    text::push_text(&mut lines, "- `!ls [path]`".to_owned());
    text::push_text(&mut lines, "- `!cd [path]`".to_owned());
    text::push_text(&mut lines, "- `!fresh`".to_owned());
    text::push_text(&mut lines, "- `!stayfresh`".to_owned());
    text::push_text(&mut lines, "- `!status`".to_owned());
    text::push_text(&mut lines, "- `!usage`".to_owned());
    text::push_text(&mut lines, "- `!stop`".to_owned());
    text::push_text(&mut lines, "- `!model`".to_owned());
    text::push_text(&mut lines, "".to_owned());
    text::push_text(&mut lines, "Slots:".to_owned());
    let ghost all = help_lines(slot_views(slots@));
    let mut i: usize = 0;
    assert(text::texts(lines@) =~= all.take(14));
    while i < slots.len()
        invariant
            i <= slots@.len(),
            all == help_lines(slot_views(slots@)),
            text::texts(lines@) == all.take(i + 14),
        decreases slots@.len() - i,
    {
        let mut line = String::from_str("- `");
        line.append(slots[i].name.as_str());
        line.append("` at `");
        line.append(slots[i].workdir.as_str());
        line.append("`");
        text::push_text(&mut lines, line);
        assert(line@ == all[i + 14]);
        assert(all.take(i + 15) =~= all.take(i + 14).push(all[i + 14]));
        i += 1;
    }
    assert(all.take(i + 14) =~= all);
    text::join(&lines, "\n")
}

fn is_running(running: &Vec<i64>, id: i64) -> (res: bool)
    ensures
        res == running@.contains(id),
{
    let mut i: usize = 0;
    while i < running.len()
        invariant
            i <= running@.len(),
            forall|j: int| 0 <= j < i ==> running@[j] != id,
        decreases running@.len() - i,
    {
        if running[i] == id {
            return true;
        }
        i += 1;
    }
    false
}

pub fn agent_slots_status_text(slots: &Vec<AgentSlotRow>, running: &Vec<i64>) -> (res: String)
    ensures
        res@ == status_text(slot_views(slots@), running@),
{
    let ghost all = status_lines(slot_views(slots@), running@);
    let mut lines: Vec<String> = Vec::new();
    let mut i: usize = 0;
    assert(text::texts(lines@) =~= all.take(0));
    while i < slots.len()
        invariant
            i <= slots@.len(),
            all == status_lines(slot_views(slots@), running@),
            text::texts(lines@) == all.take(i as int),
        decreases slots@.len() - i,
    {
        let mut line = slots[i].name.clone();
        line.append(": ");
        if is_running(running, slots[i].id) {
            line.append("running");
        } else {
            line.append("idle");
        }
        line.append(" | ");
        line.append(slots[i].workdir.as_str());
        text::push_text(&mut lines, line);
        assert(line@ == all[i as int]);
        assert(all.take(i + 1) =~= all.take(i as int).push(all[i as int]));
        i += 1;
    }
    assert(all.take(i as int) =~= all);
    let body = text::join(&lines, "\n");
    wrapped("Slots:\n```text\n", body.as_str(), "\n```")
}

fn fresh_reply(name: &str, keep: bool, workdir: &str, stopped: bool) -> (res: String)
    ensures
        res@ == fresh_text(name@, keep, workdir@, stopped),
{
    let mut out = name.to_owned();
    out.append(" chat reset. ");
    if keep {
        out.append("Folder kept at `");
    } else {
        out.append("Folder reset to `");
    }
    out.append(workdir);
    out.append("`.");
    if stopped {
        out.append(" Stopped the current job.");
    } else {
        out.append("");
    }
    out.append(" Your next message starts a new agent chat.");
    out
}

fn answer(reply: String) -> (res: ControlEffect)
    ensures
        res@ == only_reply(reply@),
{
    ControlEffect { workdir: None, forgets_session: false, forgets_messages: false, reply }
}

/// What a command does, given what it needs to know.
pub fn handle_agent_control(control: &Control, slot: &AgentSlotRow, facts: &ControlFacts) -> (res:
    ControlEffect)
    ensures
        res@ == effect_of(control@, slot@, *facts),
{
    let name = slot.name.as_str();
    let workdir = slot.workdir.as_str();
    match control {
        Control::Help => answer(agent_help_text(&facts.slots)),
        Control::Slots => answer(agent_slots_status_text(&facts.slots, &facts.running)),
        Control::Pwd => {
            let mut out = name.to_owned();
            out.append(" folder: `");
            out.append(workdir);
            out.append("`");
            answer(out)
        },
        Control::Status => {
            let mut out = name.to_owned();
            out.append(" is ");
            out.append(facts.label.as_str());
            out.append(". Folder: `");
            out.append(workdir);
            out.append("`\n");
            out.append(facts.usage.as_str());
            answer(out)
        },
        Control::Usage => answer(facts.usage.clone()),
        Control::Model => answer(wrapped("Agent command: `", facts.command.as_str(), "`")),
        Control::Fresh { keep_workdir } => {
            let target = if *keep_workdir {
                workdir
            } else {
                facts.default_workdir.as_str()
            };
            ControlEffect {
                workdir: if *keep_workdir {
                    None
                } else {
                    Some(facts.default_workdir.clone())
                },
                forgets_session: true,
                forgets_messages: true,
                reply: fresh_reply(name, *keep_workdir, target, facts.stopped),
            }
        },
        Control::Stop => if facts.stopped {
            answer("Stop requested.".to_owned())
        } else {
            answer("This slot is not running.".to_owned())
        },
        Control::ChangeDir(target) => if facts.is_dir {
            let mut reply = name.to_owned();
            reply.append(" folder set to `");
            reply.append(target.as_str());
            reply.append("`");
            ControlEffect {
                workdir: Some(target.clone()),
                forgets_session: true,
                forgets_messages: false,
                reply,
            }
        } else {
            answer(wrapped("Folder does not exist: `", target.as_str(), "`"))
        },
        Control::List(_) => answer(facts.listing.clone()),
        Control::Unknown(s) => answer(
            wrapped(
                "Unknown Plugdeck agent command: `",
                s.as_str(),
                "`. Type `!help` for commands.",
            ),
        ),
    }
}

// ---------------------------------------------------------------------------
// Listings
// ---------------------------------------------------------------------------

/// An entry of a folder.
pub struct FolderEntry {
    pub name: String,
    pub is_dir: bool,
}

/// What a path leads to.
pub enum PathKind {
    Missing,
    File,
    /// Neither a file nor a folder.
    Other,
    Folder(Vec<FolderEntry>),
    /// A folder that cannot be listed, and why.
    Unreadable(String),
}

/// A line of a listing: folders before files, by their names in lower case,
/// then by what is shown.
#[derive(Debug)]
pub struct ListRow {
    pub is_file: bool,
    pub lower: String,
    pub shown: String,
}

impl Ranked for ListRow {
    open spec fn before(self, other: Self) -> bool {
        (!self.is_file && other.is_file) || (self.is_file == other.is_file && (text::precedes(
            self.lower@,
            other.lower@,
        ) || (self.lower@ == other.lower@ && text::precedes(self.shown@, other.shown@))))
    }

    fn is_before(&self, other: &Self) -> (res: bool) {
        if self.is_file != other.is_file {
            return other.is_file;
        }
        if text::same(self.lower.as_str(), other.lower.as_str()) {
            proof {
                text::text_order_is_total(self.lower@, other.lower@);
            }
            return text::before(self.shown.as_str(), other.shown.as_str());
        }
        text::before(self.lower.as_str(), other.lower.as_str())
    }

    proof fn before_is_one_way(a: Self, b: Self) {
        text::text_order_is_total(a.lower@, b.lower@);
        text::text_order_is_total(a.shown@, b.shown@);
    }

    proof fn not_before_is_transitive(a: Self, b: Self, c: Self) {
        if !b.before(a) && !c.before(b) && c.before(a) {
            text::text_order_is_total(a.lower@, b.lower@);
            text::text_order_is_total(b.lower@, c.lower@);
            text::text_order_is_total(a.lower@, c.lower@);
            if a.is_file == b.is_file && b.is_file == c.is_file {
                text::not_preceding_is_transitive(a.lower@, b.lower@, c.lower@);
                if a.lower@ == c.lower@ {
                    if a.lower@ != b.lower@ {
                        assert(false);
                    }
                    text::not_preceding_is_transitive(a.shown@, b.shown@, c.shown@);
                }
            }
        }
    }
}

/// A line of a listing stands for an entry.
pub open spec fn row_stands(row: ListRow, entry: FolderEntry) -> bool {
    &&& row.is_file == !entry.is_dir
    &&& row.lower@ == outside::lower_case(entry.name@)
    &&& row.shown@ == if entry.is_dir {
        entry.name@ + "/"@
    } else {
        entry.name@
    }
}

/// The entries that are not hidden.
pub open spec fn shown_entries(entries: Seq<FolderEntry>) -> Seq<FolderEntry>
    decreases entries.len(),
{
    if entries.len() == 0 {
        entries
    } else if text::has_prefix(entries.last().name@, "."@) {
        shown_entries(entries.drop_last())
    } else {
        shown_entries(entries.drop_last()).push(entries.last())
    }
}

/// The lines stand for the entries, one for one.
pub open spec fn rows_stand(rows: Seq<ListRow>, entries: Seq<FolderEntry>) -> bool {
    &&& rows.len() == entries.len()
    &&& forall|i: int| 0 <= i < rows.len() ==> row_stands(#[trigger] rows[i], entries[i])
}

/// The lines for the entries of a folder that are not hidden.
pub fn listing_rows(entries: &Vec<FolderEntry>) -> (res: Vec<ListRow>)
    ensures
        rows_stand(res@, shown_entries(entries@)),
{
    let mut rows: Vec<ListRow> = Vec::new();
    let mut i: usize = 0;
    while i < entries.len()
        invariant
            i <= entries@.len(),
            rows_stand(rows@, shown_entries(entries@.take(i as int))),
        decreases entries@.len() - i,
    {
        assert(entries@.take(i + 1).drop_last() =~= entries@.take(i as int));
        let entry = &entries[i];
        if !text::starts_with(entry.name.as_str(), ".") {
            let mut shown = entry.name.clone();
            if entry.is_dir {
                shown.append("/");
            }
            let lower = outside::to_lower_case(entry.name.as_str());
            rows.push(ListRow { is_file: !entry.is_dir, lower, shown });
        }
        i += 1;
    }
    assert(entries@.take(i as int) =~= entries@);
    rows
}

/// What is shown of the lines.
pub open spec fn shown_names(rows: Seq<ListRow>) -> Seq<Seq<char>> {
    let names = rows.map_values(|row: ListRow| row.shown@);
    if names.len() == 0 {
        seq!["(empty)"@]
    } else {
        names
    }
}

/// The listing of a folder, given its lines in any order.
pub open spec fn listing_text(name: Seq<char>, target: Seq<char>, rows: Seq<ListRow>) -> Seq<char> {
    name + " listing `"@ + target + "`:\n```text\n"@ + text::joined(
        shown_names(sorting::first_of(sorting::arranged(rows), LISTED_ENTRIES as nat)),
        "\n"@,
    ) + "\n```"@
}

/// Writes the listing of a folder, given its lines in any order.
pub fn write_listing(name: &str, target: &str, rows: Vec<ListRow>) -> (res: String)
    ensures
        res@ == listing_text(name@, target@, rows@),
{
    let rows = sorting::limit(sorting::arrange(rows), LISTED_ENTRIES);
    let ghost all = rows@.map_values(|row: ListRow| row.shown@);
    let mut names: Vec<String> = Vec::new();
    let mut i: usize = 0;
    assert(text::texts(names@) =~= all.take(0));
    while i < rows.len()
        invariant
            i <= rows@.len(),
            all == rows@.map_values(|row: ListRow| row.shown@),
            text::texts(names@) == all.take(i as int),
        decreases rows@.len() - i,
    {
        text::push_text(&mut names, rows[i].shown.clone());
        assert(all.take(i + 1) =~= all.take(i as int).push(all[i as int]));
        i += 1;
    }
    assert(all.take(i as int) =~= all);
    if names.len() == 0 {
        text::push_text(&mut names, "(empty)".to_owned());
        assert(text::texts(names@) =~= shown_names(rows@));
    }
    let body = text::join(&names, "\n");
    let mut out = name.to_owned();
    out.append(" listing `");
    out.append(target);
    out.append("`:\n```text\n");
    out.append(body.as_str());
    out.append("\n```");
    out
}

/// What a path is answered that is no folder, or that cannot be listed.
pub open spec fn path_text(name: Seq<char>, target: Seq<char>, kind: PathKind) -> Seq<char> {
    match kind {
        PathKind::Missing => "Path does not exist: `"@ + target + "`"@,
        PathKind::File => name + " file:\n```text\n"@ + target + "\n```"@,
        PathKind::Other => "Path is not a directory: `"@ + target + "`"@,
        PathKind::Unreadable(why) => "Could not list `"@ + target + "`: "@ + why@,
        PathKind::Folder(_) => ""@,
    }
}

/// Tells what a path leads to.
pub fn list_agent_path_text(name: &str, target: &str, kind: &PathKind) -> (res: String)
    ensures
        match *kind {
            PathKind::Folder(entries) => exists|rows: Seq<ListRow>|
                rows_stand(rows, shown_entries(entries@)) && res@ == #[trigger] listing_text(
                    name@,
                    target@,
                    rows,
                ),
            _ => res@ == path_text(name@, target@, *kind),
        },
{
    match kind {
        PathKind::Missing => wrapped("Path does not exist: `", target, "`"),
        PathKind::File => {
            let mut out = name.to_owned();
            out.append(" file:\n```text\n");
            out.append(target);
            out.append("\n```");
            out
        },
        PathKind::Other => wrapped("Path is not a directory: `", target, "`"),
        PathKind::Unreadable(why) => {
            let mut out = String::from_str("Could not list `");
            out.append(target);
            out.append("`: ");
            out.append(why.as_str());
            out
        },
        PathKind::Folder(entries) => {
            let rows = listing_rows(entries);
            write_listing(name, target, rows)
        },
    }
}

// ---------------------------------------------------------------------------
// What holds of commands
// ---------------------------------------------------------------------------

/// A slot that moves to another folder forgets its session, and messages are
/// forgotten only together with the session.
pub proof fn moving_forgets_the_session(control: ControlView, slot: SlotView, facts: ControlFacts)
    ensures
        effect_of(control, slot, facts).workdir is Some ==> effect_of(
            control,
            slot,
            facts,
        ).forgets_session,
        effect_of(control, slot, facts).forgets_messages ==> effect_of(
            control,
            slot,
            facts,
        ).forgets_session,
{
}

/// A message is a command exactly where it starts with an exclamation mark,
/// white space aside.
pub proof fn commands_start_with_a_mark(body: Seq<char>, workdir: Seq<char>, home: Seq<char>)
    ensures
        control_of(body, workdir, home) is Some <==> text::has_prefix(text::trimmed(body), "!"@),
{
}

#[verifier::rlimit(50)]
#[verifier::spinoff_prover]
proof fn words_differ()
    ensures
        "help"@ != "list"@,
        "help"@ != "stop"@,
        "list"@ != "stop"@,
        "commands"@ != "overview"@,
        "commands"@ != "settings"@,
        "overview"@ != "settings"@,
        "slots"@ != "usage"@,
        "slots"@ != "model"@,
        "slots"@ != "fresh"@,
        "usage"@ != "model"@,
        "usage"@ != "fresh"@,
        "model"@ != "fresh"@,
        "pwd"@ != "new"@,
        "status"@ != "limits"@,
        "help"@.len() == 4,
        "list"@.len() == 4,
        "stop"@.len() == 4,
        "commands"@.len() == 8,
        "overview"@.len() == 8,
        "settings"@.len() == 8,
        "slots"@.len() == 5,
        "usage"@.len() == 5,
        "model"@.len() == 5,
        "fresh"@.len() == 5,
        "pwd"@.len() == 3,
        "new"@.len() == 3,
        "status"@.len() == 6,
        "limits"@.len() == 6,
        "stayfresh"@.len() == 9,
        "cd"@.len() == 2,
        "ls"@.len() == 2,
        "cd"@ != "ls"@,
        text::lowered("cd"@) == "cd"@,
        text::lowered("ls"@) == "ls"@,
{
    reveal_strlit("help");
    reveal_strlit("list");
    reveal_strlit("stop");
    reveal_strlit("commands");
    reveal_strlit("overview");
    reveal_strlit("settings");
    reveal_strlit("slots");
    reveal_strlit("usage");
    reveal_strlit("model");
    reveal_strlit("fresh");
    reveal_strlit("pwd");
    reveal_strlit("new");
    reveal_strlit("status");
    reveal_strlit("limits");
    reveal_strlit("stayfresh");
    reveal_strlit("cd");
    reveal_strlit("ls");
    assert("help"@[0] == 'h' && "list"@[0] == 'l' && "stop"@[0] == 's');
    assert("commands"@[0] == 'c' && "overview"@[0] == 'o' && "settings"@[0] == 's');
    assert("slots"@[0] == 's' && "usage"@[0] == 'u' && "model"@[0] == 'm' && "fresh"@[0] == 'f');
    assert("pwd"@[0] == 'p' && "new"@[0] == 'n');
    assert("status"@[0] == 's' && "limits"@[0] == 'l');
    assert("cd"@[0] == 'c' && "ls"@[0] == 'l');
    assert(text::lowered("cd"@) =~= "cd"@);
    assert(text::lowered("ls"@) =~= "ls"@);
}

proof fn the_mark_is_taken_off(body: Seq<char>, rest: Seq<char>)
    requires
        text::trimmed(body) == seq!['!'] + rest,
    ensures
        text::has_prefix(text::trimmed(body), "!"@),
        text::trimmed(body).skip("!"@.len() as int) == rest,
{
    reveal_strlit("!");
    let b = text::trimmed(body);
    assert(b.take(1) =~= "!"@);
    assert(b.skip(1) =~= rest);
}

/// A mark and a word, case and white space aside, are the command that the word
/// names.
pub proof fn each_word_names_its_command(
    body: Seq<char>,
    rest: Seq<char>,
    workdir: Seq<char>,
    home: Seq<char>,
)
    requires
        text::trimmed(body) == seq!['!'] + rest,
    ensures
        ({
            let word = text::lowered(text::trimmed(rest));
            let control = control_of(body, workdir, home);
            &&& word == "help"@ || word == "commands"@ ==> control == Some(ControlView::Help)
            &&& word == "slots"@ || word == "list"@ || word == "overview"@ ==> control == Some(
                ControlView::Slots,
            )
            &&& word == "pwd"@ ==> control == Some(ControlView::Pwd)
            &&& word == "status"@ ==> control == Some(ControlView::Status)
            &&& word == "usage"@ || word == "limits"@ ==> control == Some(ControlView::Usage)
            &&& word == "model"@ || word == "settings"@ ==> control == Some(ControlView::Model)
            &&& word == "fresh"@ || word == "new"@ ==> control == Some(
                ControlView::Fresh { keep_workdir: false },
            )
            &&& word == "stayfresh"@ ==> control == Some(ControlView::Fresh { keep_workdir: true })
            &&& word == "stop"@ ==> control == Some(ControlView::Stop)
            &&& word == "cd"@ ==> control == Some(ControlView::ChangeDir(home))
            &&& word == "ls"@ ==> control == Some(ControlView::List(workdir))
        }),
{
    words_differ();
    the_mark_is_taken_off(body, rest);
    let s = text::trimmed(rest);
    text::trimming_takes_runs_off_both_ends(rest, text::CharSet::Space);
    nothing_is_blank();
}

proof fn nothing_is_blank()
    ensures
        text::is_blank(""@),
{
    reveal_strlit("");
}

/// A command word that takes a path works on that path, seen from the slot's
/// folder, whatever the case of the word.
pub proof fn paths_follow_their_command(
    body: Seq<char>,
    word: Seq<char>,
    gap: char,
    path: Seq<char>,
    workdir: Seq<char>,
    home: Seq<char>,
)
    requires
        text::trimmed(body) == seq!['!'] + word + seq![gap] + path,
        text::is_space(gap),
    ensures
        text::lowered(word) == "cd"@ ==> control_of(body, workdir, home) == Some(
            ControlView::ChangeDir(paths::resolved(text::trimmed(path), workdir, home)),
        ),
        text::lowered(word) == "ls"@ ==> control_of(body, workdir, home) == Some(
            ControlView::List(paths::resolved(text::trimmed(path), workdir, home)),
        ),
{
    words_differ();
    let s = word + seq![gap] + path;
    assert(seq!['!'] + word + seq![gap] + path =~= seq!['!'] + s);
    the_mark_is_taken_off(body, s);
    if text::lowered(word) == "cd"@ || text::lowered(word) == "ls"@ {
        assert(word.len() == 2) by {
            assert(text::lowered(word).len() == word.len());
        }
        assert(s.take(2) =~= word);
        assert(s[2] == gap);
        assert(s.skip(2) =~= seq![gap] + path);
        assert((seq![gap] + path).skip(1) =~= path);
        assert(text::trimmed(s.skip(2)) == text::trimmed(path));
        text::trimming_takes_runs_off_both_ends(body, text::CharSet::Space);
        assert(text::trimmed(body).last() == s.last());
        assert(path.len() > 0 && path.last() == s.last());
        text::blank_texts_are_white_space(path);
        assert(!text::is_blank(path)) by {
            assert(!text::CharSet::Space.has(path[path.len() - 1]));
        }
        text::trimming_takes_runs_off_both_ends(path, text::CharSet::Space);
        text::lowering_changes_capitals_alone(word, 0);
        first_letters();
        assert(s[0] == word[0]);
        assert(text::trimmed_start(s, text::CharSet::Space) == s);
        spaces_part_words(s, gap);
    }
}

proof fn first_letters()
    ensures
        "cd"@[0] == 'c',
        "ls"@[0] == 'l',
{
    reveal_strlit("cd");
    reveal_strlit("ls");
}

#[verifier::rlimit(50)]
#[verifier::spinoff_prover]
proof fn spaces_part_words(s: Seq<char>, gap: char)
    requires
        s.len() > 3,
        s[2] == gap,
        text::is_space(gap),
    ensures
        text::lowered(s) != "help"@,
        text::lowered(s) != "list"@,
        text::lowered(s) != "stop"@,
        text::lowered(s) != "commands"@,
        text::lowered(s) != "overview"@,
        text::lowered(s) != "settings"@,
        text::lowered(s) != "slots"@,
        text::lowered(s) != "usage"@,
        text::lowered(s) != "model"@,
        text::lowered(s) != "fresh"@,
        text::lowered(s) != "pwd"@,
        text::lowered(s) != "new"@,
        text::lowered(s) != "status"@,
        text::lowered(s) != "limits"@,
        text::lowered(s) != "stayfresh"@,
{
    reveal_strlit("help");
    reveal_strlit("list");
    reveal_strlit("stop");
    reveal_strlit("commands");
    reveal_strlit("overview");
    reveal_strlit("settings");
    reveal_strlit("slots");
    reveal_strlit("usage");
    reveal_strlit("model");
    reveal_strlit("fresh");
    reveal_strlit("pwd");
    reveal_strlit("new");
    reveal_strlit("status");
    reveal_strlit("limits");
    reveal_strlit("stayfresh");
    let l = text::lowered(s);
    assert(l[2] == gap);
    assert("help"@[2] == 'l' && "list"@[2] == 's' && "stop"@[2] == 'o');
    assert("commands"@[2] == 'm' && "overview"@[2] == 'e' && "settings"@[2] == 't');
    assert("slots"@[2] == 'o' && "usage"@[2] == 'a' && "model"@[2] == 'd' && "fresh"@[2] == 'e');
    assert("pwd"@[2] == 'd' && "new"@[2] == 'w');
    assert("status"@[2] == 'a' && "limits"@[2] == 'm' && "stayfresh"@[2] == 'a');
}

/// A word that names no command is told back as it is.
pub proof fn other_words_are_told_back(
    body: Seq<char>,
    rest: Seq<char>,
    workdir: Seq<char>,
    home: Seq<char>,
    slot: SlotView,
    facts: ControlFacts,
)
    requires
        text::trimmed(body) == seq!['!'] + rest,
        ({
            let word = text::lowered(text::trimmed(rest));
            &&& word != "help"@ && word != "commands"@ && word != "slots"@ && word != "list"@ && word
                != "overview"@ && word != "pwd"@ && word != "status"@ && word != "usage"@ && word
                != "limits"@ && word != "model"@ && word != "settings"@ && word != "fresh"@ && word
                != "new"@ && word != "stayfresh"@ && word != "stop"@
            &&& !text::has_prefix(word, "cd"@) && !text::has_prefix(word, "ls"@)
                || word.len() > 2 && !text::is_space(word[2])
        }),
    ensures
        control_of(body, workdir, home) == Some(ControlView::Unknown(text::trimmed(rest))),
        effect_of(ControlView::Unknown(text::trimmed(rest)), slot, facts) == (EffectView {
            workdir: None,
            forgets_session: false,
            forgets_messages: false,
            reply: "Unknown Plugdeck agent command: `"@ + text::trimmed(rest)
                + "`. Type `!help` for commands."@,
        }),
{
    words_differ();
    the_mark_is_taken_off(body, rest);
    let s = text::trimmed(rest);
    text::trimming_takes_runs_off_both_ends(rest, text::CharSet::Space);
    let word = text::lowered(s);
    if word.len() > 2 {
        assert(text::lowered(s.take(2)) =~= word.take(2));
        text::lowering_changes_capitals_alone(s, 2);
    } else if word.len() == 2 {
        assert(word.take(2) =~= word);
    }
}

/// Starting anew forgets the session and the messages. It moves the slot to the
/// default folder, unless the folder is to be kept, and tells the folder that the
/// slot works in from then on.
pub proof fn starting_anew_forgets_all(
    body: Seq<char>,
    rest: Seq<char>,
    workdir: Seq<char>,
    home: Seq<char>,
    slot: SlotView,
    facts: ControlFacts,
)
    requires
        text::trimmed(body) == seq!['!'] + rest,
    ensures
        ({
            let word = text::lowered(text::trimmed(rest));
            let effect = effect_of(control_of(body, workdir, home).unwrap(), slot, facts);
            &&& word == "fresh"@ || word == "new"@ || word == "stayfresh"@
                ==> effect.forgets_session && effect.forgets_messages
            &&& word == "fresh"@ || word == "new"@ ==> effect.workdir == Some(
                facts.default_workdir@,
            ) && effect.reply == slot.name + " chat reset. "@ + "Folder reset to `"@
                + facts.default_workdir@ + "`."@ + if facts.stopped {
                " Stopped the current job."@
            } else {
                ""@
            } + " Your next message starts a new agent chat."@
            &&& word == "stayfresh"@ ==> effect.workdir is None && effect.reply == slot.name
                + " chat reset. "@ + "Folder kept at `"@ + slot.workdir + "`."@
                + if facts.stopped {
                " Stopped the current job."@
            } else {
                ""@
            } + " Your next message starts a new agent chat."@
        }),
{
    each_word_names_its_command(body, rest, workdir, home);
}

/// The commands that only ask change nothing, and are answered with what they ask
/// for.
pub proof fn asking_changes_nothing(
    body: Seq<char>,
    rest: Seq<char>,
    workdir: Seq<char>,
    home: Seq<char>,
    slot: SlotView,
    facts: ControlFacts,
)
    requires
        text::trimmed(body) == seq!['!'] + rest,
    ensures
        ({
            let word = text::lowered(text::trimmed(rest));
            let effect = effect_of(control_of(body, workdir, home).unwrap(), slot, facts);
            let asks = word == "help"@ || word == "commands"@ || word == "slots"@ || word == "list"@
                || word == "overview"@ || word == "pwd"@ || word == "status"@ || word == "usage"@
                || word == "limits"@ || word == "model"@ || word == "settings"@ || word == "stop"@
                || word == "ls"@;
            &&& asks ==> effect.workdir is None && !effect.forgets_session
                && !effect.forgets_messages
            &&& word == "pwd"@ ==> effect.reply == slot.name + " folder: `"@ + slot.workdir + "`"@
            &&& word == "status"@ ==> effect.reply == slot.name + " is "@ + facts.label@
                + ". Folder: `"@ + slot.workdir + "`\n"@ + facts.usage@
            &&& word == "usage"@ || word == "limits"@ ==> effect.reply == facts.usage@
            &&& word == "model"@ || word == "settings"@ ==> effect.reply == "Agent command: `"@
                + facts.command@ + "`"@
            &&& word == "ls"@ ==> effect.reply == facts.listing@
            &&& word == "stop"@ && facts.stopped ==> effect.reply == "Stop requested."@
            &&& word == "stop"@ && !facts.stopped ==> effect.reply == "This slot is not running."@
        }),
{
    each_word_names_its_command(body, rest, workdir, home);
}

/// A slot moves to a folder that is there, and forgets its session but not its
/// messages; a folder that is not there is told, and changes nothing.
pub proof fn slots_move_to_folders_that_exist(
    target: Seq<char>,
    slot: SlotView,
    facts: ControlFacts,
)
    ensures
        ({
            let effect = effect_of(ControlView::ChangeDir(target), slot, facts);
            &&& facts.is_dir ==> effect.workdir == Some(target) && effect.forgets_session
                && !effect.forgets_messages && effect.reply == slot.name + " folder set to `"@
                + target + "`"@
            &&& !facts.is_dir ==> effect.workdir is None && !effect.forgets_session
                && !effect.forgets_messages && effect.reply == "Folder does not exist: `"@ + target
                + "`"@
        }),
{
}

/// The list of the slots has a line for each, in their order, which says of a slot
/// that it runs exactly where one of its jobs does.
pub proof fn slots_are_listed_with_their_state(slots: Seq<SlotView>, running: Seq<i64>, i: int)
    requires
        0 <= i < slots.len(),
    ensures
        status_lines(slots, running).len() == slots.len(),
        (exists|k: int| 0 <= k < running.len() && running[k] == slots[i].id) ==> status_lines(
            slots,
            running,
        )[i] == slots[i].name + ": "@ + "running"@ + " | "@ + slots[i].workdir,
        !(exists|k: int| 0 <= k < running.len() && running[k] == slots[i].id) ==> status_lines(
            slots,
            running,
        )[i] == slots[i].name + ": "@ + "idle"@ + " | "@ + slots[i].workdir,
        help_lines(slots).last() == "- `"@ + slots.last().name + "` at `"@ + slots.last().workdir
            + "`"@,
        help_lines(slots).len() == 14 + slots.len(),
{
}

/// A log keeps its last eighty lines without the white space around them,
/// and no blank one.
pub proof fn logs_keep_their_last_lines(log: Seq<Seq<char>>, line: Seq<char>)
    requires
        log.len() <= 80,
    ensures
        text::is_blank(line) ==> with_line(log, line) == log,
        !text::is_blank(line) ==> with_line(log, line).last() == text::trimmed(line),
        !text::is_blank(line) && log.len() < 80 ==> with_line(log, line) == log.push(
            text::trimmed(line),
        ),
        !text::is_blank(line) && log.len() == 80 ==> with_line(log, line) == log.skip(1).push(
            text::trimmed(line),
        ),
        with_line(log, line).len() <= 80,
{
    if log.len() == 80 {
        let longer = log.push(text::trimmed(line));
        assert(longer.skip(1) =~= log.skip(1).push(text::trimmed(line)));
    }
}

/// The agents' page of a slot names the slot; any other is the page without one.
pub proof fn locations_name_slots(id: i64)
    ensures
        location(None) == "/agents"@,
        id <= 0 ==> location(Some(id)) == "/agents"@,
        id > 0 ==> location(Some(id)) == "/agents?slot="@ + decimal::decimal(id as int),
{
}

/// A slot's label is what its run does now, or the run's status where it does
/// nothing in particular; a slot without a run is idle.
pub proof fn labels_tell_what_runs(run: RunView)
    ensures
        runtime_label(None) == "idle"@,
        !text::is_blank(run.current) ==> runtime_label(Some(run)) == run.current,
        text::is_blank(run.current) ==> runtime_label(Some(run)) == run.status,
{
}

/// A listing leaves out the entries whose names start with a dot, keeps the
/// others in order, and shows folders with a stroke behind their names.
pub proof fn hidden_entries_are_left_out(
    entries: Seq<FolderEntry>,
    entry: FolderEntry,
    row: ListRow,
)
    requires
        row_stands(row, entry),
    ensures
        entry.name@.len() > 0 && entry.name@[0] == '.' ==> shown_entries(entries.push(entry))
            == shown_entries(entries),
        entry.name@.len() == 0 || entry.name@[0] != '.' ==> shown_entries(entries.push(entry))
            == shown_entries(entries).push(entry),
        shown_entries(Seq::empty()).len() == 0,
        entry.is_dir ==> row.shown@ == entry.name@ + "/"@ && !row.is_file,
        !entry.is_dir ==> row.shown@ == entry.name@ && row.is_file,
{
    reveal_strlit(".");
    assert(entries.push(entry).drop_last() =~= entries);
    if entry.name@.len() > 0 && entry.name@[0] == '.' {
        assert(entry.name@.take(1) =~= "."@);
    } else if text::has_prefix(entry.name@, "."@) {
        assert(entry.name@.take(1)[0] == '.');
    }
}

/// The help lists the commands and then the slots; the list of the slots stands
/// in a block of its own.
pub proof fn help_and_slots_are_listed(
    body: Seq<char>,
    rest: Seq<char>,
    workdir: Seq<char>,
    home: Seq<char>,
    slot: SlotView,
    facts: ControlFacts,
)
    requires
        text::trimmed(body) == seq!['!'] + rest,
    ensures
        ({
            let word = text::lowered(text::trimmed(rest));
            let effect = effect_of(control_of(body, workdir, home).unwrap(), slot, facts);
            let slots = slot_views(facts.slots@);
            &&& word == "help"@ || word == "commands"@ ==> effect.reply == text::joined(
                help_lines(slots),
                "\n"@,
            )
            &&& word == "slots"@ || word == "list"@ || word == "overview"@ ==> effect.reply
                == "Slots:\n```text\n"@ + text::joined(status_lines(slots, facts.running@), "\n"@)
                + "\n```"@
            &&& help_lines(slots).take(14) == seq![
                "Agent commands:"@,
                "- `!help` or `!commands`"@,
                "- `!slots`"@,
                "- `!pwd`"@,
                "- `!ls [path]`"@,
                "- `!cd [path]`"@,
                "- `!fresh`"@,
                "- `!stayfresh`"@,
                "- `!status`"@,
                "- `!usage`"@,
                "- `!stop`"@,
                "- `!model`"@,
                ""@,
                "Slots:"@,
            ]
            &&& forall|i: int|
                0 <= i < slots.len() ==> #[trigger] help_lines(slots)[14 + i] == "- `"@
                    + slots[i].name + "` at `"@ + slots[i].workdir + "`"@
        }),
{
    each_word_names_its_command(body, rest, workdir, home);
}

/// A listing shows folders before files, each by their names in small letters,
/// and at most a hundred and twenty of them; an empty folder says so.
pub proof fn folders_are_listed_first(
    a: ListRow,
    b: ListRow,
    rows: Seq<ListRow>,
    name: Seq<char>,
    target: Seq<char>,
)
    ensures
        !a.is_file && b.is_file ==> a.before(b) && !b.before(a),
        a.is_file == b.is_file && text::precedes(a.lower@, b.lower@) ==> a.before(b) && !b.before(
            a,
        ),
        a.is_file == b.is_file && a.lower@ == b.lower@ && text::precedes(a.shown@, b.shown@)
            ==> a.before(b) && !b.before(a),
        rows.len() == 0 ==> listing_text(name, target, rows) == name + " listing `"@ + target
            + "`:\n```text\n"@ + "(empty)"@ + "\n```"@,
        0 < rows.len() <= 120 ==> listing_text(name, target, rows) == name + " listing `"@ + target
            + "`:\n```text\n"@ + text::joined(
            sorting::arranged(rows).map_values(|row: ListRow| row.shown@),
            "\n"@,
        ) + "\n```"@,
        rows.len() > 120 ==> listing_text(name, target, rows) == name + " listing `"@ + target
            + "`:\n```text\n"@ + text::joined(
            sorting::arranged(rows).take(120).map_values(|row: ListRow| row.shown@),
            "\n"@,
        ) + "\n```"@,
{
    text::text_order_is_total(a.lower@, b.lower@);
    text::text_order_is_total(a.shown@, b.shown@);
    sorting::arranged_lists_are_in_order(rows);
    assert(text::joined(seq!["(empty)"@], "\n"@) == "(empty)"@);
}

/// A path that is no folder is told as what it is.
pub proof fn other_paths_are_told(name: Seq<char>, target: Seq<char>, why: String)
    ensures
        path_text(name, target, PathKind::Missing) == "Path does not exist: `"@ + target + "`"@,
        path_text(name, target, PathKind::File) == name + " file:\n```text\n"@ + target
            + "\n```"@,
        path_text(name, target, PathKind::Other) == "Path is not a directory: `"@ + target + "`"@,
        path_text(name, target, PathKind::Unreadable(why)) == "Could not list `"@ + target + "`: "@
            + why@,
{
}

/// The rows of a listing stand for its entries, one for each and in their order.
pub proof fn rows_stand_for_entries(rows: Seq<ListRow>, entries: Seq<FolderEntry>)
    ensures
        rows_stand(rows, entries) <==> rows.len() == entries.len() && forall|i: int|
            0 <= i < rows.len() ==> (#[trigger] rows[i]).is_file != entries[i].is_dir
                && rows[i].lower@ == outside::lower_case(entries[i].name@) && rows[i].shown@
                == entries[i].name@ + if entries[i].is_dir {
                "/"@
            } else {
                Seq::empty()
            },
{
    assert forall|i: int| 0 <= i < rows.len() && rows.len() == entries.len() implies row_stands(
        #[trigger] rows[i],
        entries[i],
    ) == ((rows[i]).is_file != entries[i].is_dir && rows[i].lower@ == outside::lower_case(
        entries[i].name@,
    ) && rows[i].shown@ == entries[i].name@ + if entries[i].is_dir {
        "/"@
    } else {
        Seq::empty()
    }) by {
        assert(entries[i].name@ + Seq::<char>::empty() =~= entries[i].name@);
    }
}

} // verus!
