//! Projects, the index of all conversations, and the drawer that lists them.

use vstd::prelude::*;
use vstd::string::StringExecFns;

use crate::codex;
use crate::codex::CodexConversation;
use crate::codex::CodexIndex;
use crate::codex::CodexProject;
use crate::codex::ConversationView;
use crate::codex::ProjectView;
use crate::codex::SessionContent;
use crate::codex_usage;
use crate::codex_usage::CodexUsageSnapshot;
use crate::codex_usage::UsageView;
use crate::decimal;
use crate::formats;
use crate::html;
use crate::json;
use crate::json::Json;
use crate::outside;
use crate::paths;
use crate::sorting;
use crate::tables;
use crate::tables::Toml;
use crate::tables::TomlView;
use crate::text;
use crate::times;
use crate::times::Moment;

verus! {

// ---------------------------------------------------------------------------
// Projects
// ---------------------------------------------------------------------------

/// The place of the project with a path.
pub open spec fn place_of(list: Seq<ProjectView>, path: Seq<char>) -> Option<int>
    decreases list.len(),
{
    if list.len() == 0 {
        None
    } else if list.last().path == path {
        Some(list.len() - 1)
    } else {
        place_of(list.drop_last(), path)
    }
}

/// The list with a project, in place of the one with its path.
pub open spec fn with_project(list: Seq<ProjectView>, project: ProjectView) -> Seq<ProjectView> {
    match place_of(list, project.path) {
        Some(i) => list.update(i, project),
        None => list.push(project),
    }
}

/// A project of the settings: its path, and whether it is trusted.
pub open spec fn configured_project(path: Seq<char>, trust: Option<Seq<char>>) -> ProjectView {
    ProjectView {
        path,
        name: paths::display_name(path),
        trusted: trust matches Some(level) && text::lowered(level) == text::lowered("trusted"@),
        conversation_count: 0,
    }
}

/// The projects of the settings.
pub open spec fn configured(entries: Seq<(Seq<char>, Option<Seq<char>>)>) -> Seq<ProjectView>
    decreases entries.len(),
{
    if entries.len() == 0 {
        Seq::empty()
    } else {
        with_project(
            configured(entries.drop_last()),
            configured_project(entries.last().0, entries.last().1),
        )
    }
}

/// The list after one more conversation in a folder.
pub open spec fn counted(list: Seq<ProjectView>, cwd: Seq<char>) -> Seq<ProjectView> {
    match place_of(list, cwd) {
        Some(i) => list.update(
            i,
            ProjectView { conversation_count: list[i].conversation_count + 1, ..list[i] },
        ),
        None => list.push(
            ProjectView {
                path: cwd,
                name: paths::display_name(cwd),
                trusted: false,
                conversation_count: 1,
            },
        ),
    }
}

/// The projects with the conversations in their folders; a folder that is no
/// project yet becomes one.
pub open spec fn tallied(list: Seq<ProjectView>, conversations: Seq<ConversationView>) -> Seq<
    ProjectView,
>
    decreases conversations.len(),
{
    if conversations.len() == 0 {
        list
    } else {
        counted(tallied(list, conversations.drop_last()), conversations.last().cwd)
    }
}

proof fn place_is_in_list(list: Seq<ProjectView>, path: Seq<char>)
    ensures
        place_of(list, path) matches Some(i) ==> 0 <= i < list.len() && list[i].path == path,
        place_of(list, path) is None ==> forall|j: int|
            0 <= j < list.len() ==> (#[trigger] list[j]).path != path,
    decreases list.len(),
{
    if list.len() > 0 {
        place_is_in_list(list.drop_last(), path);
        if place_of(list, path) is None {
            assert forall|j: int| 0 <= j < list.len() implies (#[trigger] list[j]).path != path by {
                if j < list.len() - 1 {
                    assert(list.drop_last()[j] == list[j]);
                }
            }
        }
    }
}

fn find_place(list: &Vec<CodexProject>, path: &str) -> (res: Option<usize>)
    ensures
        match res {
            Some(i) => i < list@.len() && place_of(codex::project_views(list@), path@) == Some(
                i as int,
            ),
            None => place_of(codex::project_views(list@), path@) is None,
        },
{
    let ghost all = codex::project_views(list@);
    let mut i: usize = list.len();
    assert(all.take(i as int) =~= all);
    while i > 0
        invariant
            i <= list@.len(),
            all == codex::project_views(list@),
            place_of(all.take(i as int), path@) == place_of(all, path@),
        decreases i,
    {
        assert(all.take(i as int).drop_last() =~= all.take(i - 1));
        i -= 1;
        if text::same(list[i].path.as_str(), path) {
            return Some(i);
        }
    }
    None
}

fn put_project(list: &mut Vec<CodexProject>, project: CodexProject)
    ensures
        codex::project_views(final(list)@) == with_project(
            codex::project_views(old(list)@),
            project@,
        ),
{
    match find_place(list, project.path.as_str()) {
        Some(i) => {
            list.set(i, project);
        },
        None => {
            list.push(project);
        },
    }
    assert(codex::project_views(list@) =~= with_project(
        codex::project_views(old(list)@),
        project@,
    ));
}

/// The keys of some entries and the levels of trust in their values.
pub open spec fn trust_levels(entries: Seq<(Seq<char>, TomlView)>) -> Seq<
    (Seq<char>, Option<Seq<char>>),
> {
    entries.map_values(|e: (Seq<char>, TomlView)| (e.0, e.1.text_at("trust_level"@)))
}

/// The projects that settings list: the entries of their table `projects`.
pub open spec fn projects_of(settings: TomlView) -> Seq<ProjectView> {
    match settings.get("projects"@) {
        Some(TomlView::Table(entries)) => configured(trust_levels(entries)),
        _ => Seq::empty(),
    }
}

fn projects_from_entries(entries: &Vec<(String, Toml)>) -> (res: Vec<CodexProject>)
    ensures
        codex::project_views(res@) == configured(trust_levels(tables::table_views(entries@))),
{
    let ghost all = trust_levels(tables::table_views(entries@));
    let mut list: Vec<CodexProject> = Vec::new();
    let mut i: usize = 0;
    assert(codex::project_views(list@) =~= configured(all.take(0)));
    while i < entries.len()
        invariant
            i <= entries@.len(),
            all == trust_levels(tables::table_views(entries@)),
            codex::project_views(list@) == configured(all.take(i as int)),
        decreases entries@.len() - i,
    {
        assert(all.take(i + 1).drop_last() =~= all.take(i as int));
        let path = entries[i].0.clone();
        let trusted = match entries[i].1.text_of("trust_level") {
            Some(level) => text::same_lower(level, "trusted"),
            None => false,
        };
        let name = paths::project_display_name(path.as_str());
        put_project(&mut list, CodexProject { path, name, trusted, conversation_count: 0 });
        i += 1;
    }
    assert(all.take(i as int) =~= all);
    list
}

/// The projects in the text of the agent's settings; none where there is no
/// such text or it cannot be read.
pub open spec fn projects_in(raw: Option<Seq<char>>) -> Seq<ProjectView> {
    match raw {
        Some(raw) => match outside::toml_document(raw) {
            Some(settings) => projects_of(settings),
            None => Seq::empty(),
        },
        None => Seq::empty(),
    }
}

/// The projects that settings list.
pub fn listed_projects(settings: &Toml) -> (res: Vec<CodexProject>)
    ensures
        codex::project_views(res@) == projects_of(settings.view()),
{
    if let Some(Toml::Table(entries)) = settings.get("projects") {
        assert(settings.view().get("projects"@) matches Some(TomlView::Table(seen)) && seen
            =~= tables::table_views(entries@));
        return projects_from_entries(entries);
    }
    let none: Vec<CodexProject> = Vec::new();
    assert(codex::project_views(none@) =~= Seq::empty());
    none
}

pub fn configured_codex_projects(raw: Option<&str>) -> (res: Vec<CodexProject>)
    ensures
        codex::project_views(res@) == projects_in(text::opt_str(raw)),
{
    if let Some(raw) = raw {
        if let Some(settings) = tables::parse_toml(raw) {
            return listed_projects(&settings);
        }
    }
    let none: Vec<CodexProject> = Vec::new();
    assert(codex::project_views(none@) =~= Seq::empty());
    none
}

proof fn counts_stay_small(list: Seq<ProjectView>, conversations: Seq<ConversationView>)
    requires
        forall|i: int| 0 <= i < list.len() ==> (#[trigger] list[i]).conversation_count == 0,
    ensures
        forall|i: int|
            0 <= i < tallied(list, conversations).len() ==> (#[trigger] tallied(
                list,
                conversations,
            )[i]).conversation_count <= conversations.len(),
    decreases conversations.len(),
{
    if conversations.len() > 0 {
        counts_stay_small(list, conversations.drop_last());
        place_is_in_list(tallied(list, conversations.drop_last()), conversations.last().cwd);
        let before = tallied(list, conversations.drop_last());
        let after = tallied(list, conversations);
        assert forall|i: int| 0 <= i < after.len() implies (#[trigger] after[i]).conversation_count
            <= conversations.len() by {
            if i < before.len() {
                assert(before[i].conversation_count <= conversations.len() - 1);
            }
        }
    }
}

/// Counts the conversations in the folder of each project.
pub fn tally_projects(projects: Vec<CodexProject>, conversations: &Vec<CodexConversation>) -> (res:
    Vec<CodexProject>)
    requires
        forall|i: int| 0 <= i < projects@.len() ==> (#[trigger] projects@[i]).conversation_count == 0,
    ensures
        codex::project_views(res@) == tallied(
            codex::project_views(projects@),
            codex::conversation_views(conversations@),
        ),
{
    let ghost first = codex::project_views(projects@);
    let ghost all = codex::conversation_views(conversations@);
    let mut list = projects;
    let mut i: usize = 0;
    assert(codex::project_views(list@) =~= tallied(first, all.take(0)));
    while i < conversations.len()
        invariant
            i <= conversations@.len(),
            all == codex::conversation_views(conversations@),
            forall|j: int| 0 <= j < first.len() ==> (#[trigger] first[j]).conversation_count == 0,
            codex::project_views(list@) == tallied(first, all.take(i as int)),
        decreases conversations@.len() - i,
    {
        assert(all.take(i + 1).drop_last() =~= all.take(i as int));
        let cwd = conversations[i].cwd.as_str();
        let ghost before = codex::project_views(list@);
        match find_place(&list, cwd) {
            Some(k) => {
                proof {
                    counts_stay_small(first, all.take(i as int));
                    assert(before[k as int].conversation_count <= i);
                }
                let project = CodexProject {
                    path: list[k].path.clone(),
                    name: list[k].name.clone(),
                    trusted: list[k].trusted,
                    conversation_count: list[k].conversation_count + 1,
                };
                list.set(k, project);
            },
            None => {
                list.push(
                    CodexProject {
                        path: cwd.to_owned(),
                        name: paths::project_display_name(cwd),
                        trusted: false,
                        conversation_count: 1,
                    },
                );
            },
        }
        assert(codex::project_views(list@) =~= counted(before, cwd@));
        i += 1;
    }
    assert(all.take(i as int) =~= all);
    list
}

// ---------------------------------------------------------------------------
// The index
// ---------------------------------------------------------------------------

/// The conversations in some session files.
pub open spec fn conversations_in(files: Seq<SessionContent>) -> Seq<CodexConversation>
    decreases files.len(),
{
    if files.len() == 0 {
        Seq::empty()
    } else {
        match files[0].conversation {
            Some(c) => seq![c] + conversations_in(files.skip(1)),
            None => conversations_in(files.skip(1)),
        }
    }
}

/// The latest usage in some session files; the first where times are equal.
pub open spec fn usage_in(files: Seq<SessionContent>) -> Option<UsageView>
    decreases files.len(),
{
    if files.len() == 0 {
        None
    } else {
        codex_usage::later(usage_in(files.drop_last()), codex_usage::opt_usage(files.last().usage))
    }
}

/// The conversations that are listed: the latest ones, latest first.
pub open spec fn listed(files: Seq<SessionContent>) -> Seq<CodexConversation> {
    sorting::first_of(
        sorting::arranged(conversations_in(files)),
        codex::MAX_CODEX_CONVERSATIONS as nat,
    )
}

proof fn conversations_in_parts(a: Seq<SessionContent>, b: Seq<SessionContent>)
    ensures
        conversations_in(a + b) == conversations_in(a) + conversations_in(b),
    decreases a.len(),
{
    if a.len() == 0 {
        assert(a + b =~= b);
        assert(conversations_in(a) + conversations_in(b) =~= conversations_in(b));
    } else {
        assert((a + b).skip(1) =~= a.skip(1) + b);
        conversations_in_parts(a.skip(1), b);
        assert((a + b)[0] == a[0]);
        assert(conversations_in(a + b) =~= conversations_in(a) + conversations_in(b));
    }
}

fn take_contents(files: Vec<SessionContent>) -> (res: (
    Vec<CodexConversation>,
    Option<CodexUsageSnapshot>,
))
    ensures
        res.0@ == conversations_in(files@),
        codex_usage::opt_usage(res.1) == usage_in(files@),
{
    let ghost all = files@;
    let mut rest = files;
    let mut turned: Vec<SessionContent> = Vec::new();
    while rest.len() > 0
        invariant
            rest@.len() + turned@.len() == all.len(),
            rest@ =~= all.take(rest@.len() as int),
            forall|j: int| 0 <= j < turned@.len() ==> #[trigger] turned@[j] == all[all.len() - 1 - j],
        decreases rest@.len(),
    {
        if let Some(content) = rest.pop() {
            turned.push(content);
        }
    }
    let mut conversations: Vec<CodexConversation> = Vec::new();
    let mut usage: Option<CodexUsageSnapshot> = None;
    assert(all.take(0) =~= Seq::empty());
    while turned.len() > 0
        invariant
            turned@.len() <= all.len(),
            forall|j: int| 0 <= j < turned@.len() ==> #[trigger] turned@[j] == all[all.len() - 1 - j],
            conversations@ == conversations_in(all.take(all.len() - turned@.len())),
            codex_usage::opt_usage(usage) == usage_in(all.take(all.len() - turned@.len())),
        decreases turned@.len(),
    {
        let ghost done = all.len() - turned@.len();
        if let Some(content) = turned.pop() {
            assert(content == all[done]);
            assert(all.take(done + 1).drop_last() =~= all.take(done));
            proof {
                assert(all.take(done + 1) =~= all.take(done) + seq![content]);
                conversations_in_parts(all.take(done), seq![content]);
                assert(seq![content].skip(1) =~= Seq::empty());
                assert(conversations_in(seq![content].skip(1)) =~= Seq::empty());
            }
            let ghost prior = conversations@;
            if let Some(conversation) = content.conversation {
                conversations.push(conversation);
                assert(conversations@ =~= prior + conversations_in(seq![content]));
            } else {
                assert(conversations@ =~= prior + conversations_in(seq![content]));
            }
            usage = codex_usage::later_usage(usage, content.usage);
        }
    }
    assert(all.take(all.len() as int) =~= all);
    (conversations, usage)
}

/// The index of the session files: the latest conversations; their projects
/// and those of the settings, by how many conversations they have; and the
/// usage, with what the service answered.
pub fn load_codex_index(
    files: Vec<SessionContent>,
    settings: Option<&str>,
    answer: Option<&Json>,
    now: &Moment,
) -> (res: CodexIndex)
    requires
        now.valid(),
    ensures
        res.conversations@ == listed(files@),
        exists|list: Seq<CodexProject>|
            codex::project_views(list) == tallied(
                projects_in(text::opt_str(settings)),
                codex::conversation_views(listed(files@)),
            ) && res.projects@ == #[trigger] sorting::arranged(list),
        codex_usage::opt_usage(res.usage) == codex_usage::merged(
            usage_in(files@),
            json::opt_json(answer),
            times::stamp(*now),
        ),
{
    let (found, usage) = take_contents(files);
    let conversations = sorting::limit(sorting::arrange(found), codex::MAX_CODEX_CONVERSATIONS);
    let configured = configured_codex_projects(settings);
    proof {
        projects_start_at_zero(text::opt_str(settings));
        assert forall|i: int| 0 <= i < configured@.len() implies (
        #[trigger] configured@[i]).conversation_count == 0 by {
            assert(codex::project_views(configured@)[i].conversation_count == 0);
        }
    }
    let projects = tally_projects(configured, &conversations);
    let projects = sorting::arrange(projects);
    let stamp = times::rfc3339(now);
    let usage = codex_usage::merge_codex_rate_limit_status(usage, answer, stamp.as_str());
    CodexIndex { conversations, projects, usage }
}

proof fn configured_start_at_zero(entries: Seq<(Seq<char>, Option<Seq<char>>)>)
    ensures
        forall|i: int|
            0 <= i < configured(entries).len() ==> (#[trigger] configured(
                entries,
            )[i]).conversation_count == 0,
        unique_paths(configured(entries)),
    decreases entries.len(),
{
    if entries.len() > 0 {
        let front = configured(entries.drop_last());
        configured_start_at_zero(entries.drop_last());
        let project = configured_project(entries.last().0, entries.last().1);
        place_is_in_list(front, project.path);
        let all = configured(entries);
        assert forall|i: int| 0 <= i < all.len() implies (#[trigger] all[i]).conversation_count
            == 0 by {
            if i < front.len() {
                assert(front[i].conversation_count == 0);
            }
        }
        assert forall|i: int, j: int| 0 <= i < j < all.len() implies (#[trigger] all[i]).path != (
        #[trigger] all[j]).path by {
            if j < front.len() {
                assert(front[i].path != front[j].path);
            } else {
                assert(front[i].path != project.path);
            }
        }
    }
}

proof fn projects_start_at_zero(raw: Option<Seq<char>>)
    ensures
        forall|i: int|
            0 <= i < projects_in(raw).len() ==> (#[trigger] projects_in(raw)[i]).conversation_count
                == 0,
        unique_paths(projects_in(raw)),
{
    if let Some(raw) = raw {
        if let Some(settings) = outside::toml_document(raw) {
            if let Some(TomlView::Table(entries)) = settings.get("projects"@) {
                configured_start_at_zero(trust_levels(entries));
            }
        }
    }
}

// ---------------------------------------------------------------------------
// What holds of projects
// ---------------------------------------------------------------------------

pub open spec fn unique_paths(list: Seq<ProjectView>) -> bool {
    forall|i: int, j: int|
        0 <= i < j < list.len() ==> (#[trigger] list[i]).path != (#[trigger] list[j]).path
}

/// How many conversations took place in a folder.
pub open spec fn count_in(conversations: Seq<ConversationView>, path: Seq<char>) -> nat
    decreases conversations.len(),
{
    if conversations.len() == 0 {
        0
    } else {
        count_in(conversations.drop_last(), path) + if conversations.last().cwd == path {
            1nat
        } else {
            0nat
        }
    }
}

/// Every folder is one project, whose count is the number of conversations in it,
/// and every conversation belongs to a project.
pub proof fn projects_count_their_conversations(
    list: Seq<ProjectView>,
    conversations: Seq<ConversationView>,
)
    requires
        unique_paths(list),
        forall|i: int| 0 <= i < list.len() ==> (#[trigger] list[i]).conversation_count == 0,
    ensures
        unique_paths(tallied(list, conversations)),
        forall|i: int|
            0 <= i < tallied(list, conversations).len() ==> (#[trigger] tallied(
                list,
                conversations,
            )[i]).conversation_count == count_in(
                conversations,
                tallied(list, conversations)[i].path,
            ),
        forall|k: int|
            0 <= k < conversations.len() ==> place_of(
                tallied(list, conversations),
                (#[trigger] conversations[k]).cwd,
            ) is Some,
    decreases conversations.len(),
{
    if conversations.len() > 0 {
        let front = conversations.drop_last();
        let cwd = conversations.last().cwd;
        projects_count_their_conversations(list, front);
        let before = tallied(list, front);
        let after = tallied(list, conversations);
        place_is_in_list(before, cwd);
        assert forall|i: int, j: int| 0 <= i < j < after.len() implies (#[trigger] after[i]).path != (
        #[trigger] after[j]).path by {
            if j < before.len() {
                assert(before[i].path != before[j].path);
            } else {
                assert(before[i].path != cwd);
            }
        }
        assert forall|i: int| 0 <= i < after.len() implies (#[trigger] after[i]).conversation_count
            == count_in(conversations, after[i].path) by {
            if i < before.len() {
                assert(before[i].conversation_count == count_in(front, before[i].path));
                if let Some(k) = place_of(before, cwd) {
                    if i < k {
                        assert(before[i].path != before[k].path);
                    } else if k < i {
                        assert(before[k].path != before[i].path);
                    }
                }
            } else {
                none_in_front(before, front, cwd);
            }
        }
        assert forall|k: int| 0 <= k < conversations.len() implies place_of(
            after,
            (#[trigger] conversations[k]).cwd,
        ) is Some by {
            place_is_in_list(after, conversations[k].cwd);
            if k < front.len() {
                assert(front[k] == conversations[k]);
                place_is_in_list(before, front[k].cwd);
                let p = place_of(before, front[k].cwd).unwrap();
                assert(after[p].path == front[k].cwd);
            } else {
                match place_of(before, cwd) {
                    Some(p) => {
                        assert(after[p].path == cwd);
                    },
                    None => {
                        assert(after[after.len() - 1].path == cwd);
                    },
                }
            }
        }
    }
}

proof fn none_in_front(list: Seq<ProjectView>, front: Seq<ConversationView>, cwd: Seq<char>)
    requires
        place_of(list, cwd) is None,
        forall|k: int|
            0 <= k < front.len() ==> place_of(list, (#[trigger] front[k]).cwd) is Some,
    ensures
        count_in(front, cwd) == 0,
    decreases front.len(),
{
    if front.len() > 0 {
        assert forall|k: int| 0 <= k < front.drop_last().len() implies place_of(
            list,
            (#[trigger] front.drop_last()[k]).cwd,
        ) is Some by {
            assert(front.drop_last()[k] == front[k]);
        }
        none_in_front(list, front.drop_last(), cwd);
        assert(place_of(list, front[front.len() - 1].cwd) is Some);
    }
}

// ---------------------------------------------------------------------------
// The drawer
// ---------------------------------------------------------------------------

/// The projects that have conversations.
pub open spec fn busy(projects: Seq<ProjectView>) -> Seq<ProjectView>
    decreases projects.len(),
{
    if projects.len() == 0 {
        projects
    } else if projects.last().conversation_count > 0 {
        busy(projects.drop_last()).push(projects.last())
    } else {
        busy(projects.drop_last())
    }
}

/// The conversations in a folder.
pub open spec fn chats_in(conversations: Seq<ConversationView>, path: Seq<char>) -> Seq<
    ConversationView,
>
    decreases conversations.len(),
{
    if conversations.len() == 0 {
        conversations
    } else if conversations.last().cwd == path {
        chats_in(conversations.drop_last(), path).push(conversations.last())
    } else {
        chats_in(conversations.drop_last(), path)
    }
}

/// The row of a conversation, given how its time is told.
pub open spec fn row_text(
    place: int,
    chat: ConversationView,
    slot_id: i64,
    active: Option<Seq<char>>,
    updated: Seq<char>,
) -> Seq<char> {
    "<form class=\"browser-conversation-row"@ + if active == Some(chat.id) {
        " active"@
    } else {
        ""@
    } + "\""@ + if place >= codex::CODEX_PROJECT_VISIBLE_CONVERSATIONS {
        " data-extra-conversation hidden"@
    } else {
        ""@
    } + " action=\"/agents/slots/"@ + decimal::decimal(slot_id as int)
        + "/conversation\" method=\"post\">\n  <input type=\"hidden\" name=\"thread_id\" value=\""@
        + html::escaped(chat.id)
        + "\">\n  <input type=\"hidden\" name=\"workdir\" value=\""@ + html::escaped(chat.cwd)
        + "\">\n  <button type=\"submit\"><strong>"@ + html::escaped(chat.title)
        + "</strong><span>"@ + html::escaped(updated) + " · "@ + decimal::decimal(
        chat.message_count as int,
    ) + " msgs · "@ + html::escaped(formats::truncated(chat.preview, 92))
        + "</span></button>\n</form>"@
}

/// How the time of a conversation is told.
pub open spec fn updated_text(chat: ConversationView, now: Moment) -> Seq<char> {
    times::short_time_text(chat.updated_at, times::read_moment(chat.updated_at), now)
}

pub open spec fn rows_text(
    chats: Seq<ConversationView>,
    slot_id: i64,
    active: Option<Seq<char>>,
    now: Moment,
) -> Seq<char>
    decreases chats.len(),
{
    if chats.len() == 0 {
        ""@
    } else {
        rows_text(chats.drop_last(), slot_id, active, now) + row_text(
            chats.len() - 1,
            chats.last(),
            slot_id,
            active,
            updated_text(chats.last(), now),
        )
    }
}

/// The group of a project, given the rows of its conversations.
pub open spec fn group_text(project: ProjectView, shown: int, rows: Seq<char>) -> Seq<char> {
    "<section class=\"browser-project\" data-project-group>\n  <div class=\"browser-project-head\" title=\""@
        + html::escaped(project.path) + "\"><strong>"@ + html::escaped(project.name)
        + "</strong><span>"@ + decimal::decimal(project.conversation_count as int) + " chats · "@
        + if project.trusted {
        "trusted"@
    } else {
        "project"@
    } + "</span></div>\n  <div class=\"browser-conversations\">"@ + rows + "</div>\n  "@ + if shown
        > codex::CODEX_PROJECT_VISIBLE_CONVERSATIONS {
        "<button type=\"button\" class=\"ghost browser-more\" data-load-more>Load more ("@
            + decimal::decimal(shown - codex::CODEX_PROJECT_VISIBLE_CONVERSATIONS) + ")</button>"@
    } else {
        ""@
    } + "\n</section>"@
}

/// The groups of some projects; a project of which no conversation is listed has none.
pub open spec fn groups_text(
    projects: Seq<ProjectView>,
    conversations: Seq<ConversationView>,
    slot_id: i64,
    active: Option<Seq<char>>,
    now: Moment,
) -> Seq<char>
    decreases projects.len(),
{
    if projects.len() == 0 {
        ""@
    } else {
        let before = groups_text(projects.drop_last(), conversations, slot_id, active, now);
        let project = projects.last();
        let chats = sorting::first_of(
            chats_in(conversations, project.path),
            codex::CODEX_PROJECT_CONVERSATION_LIMIT as nat,
        );
        if chats.len() == 0 {
            before
        } else {
            before + group_text(
                project,
                chats.len() as int,
                rows_text(chats, slot_id, active, now),
            )
        }
    }
}

/// The drawer, given the groups in it.
pub open spec fn drawer_text(groups: Seq<char>, loaded: bool) -> Seq<char> {
    "<dialog class=\"browser-drawer\" id=\"conversationDrawer\">\n  <header><div><strong>Conversations</strong><br><span>Projects with saved Codex sessions</span></div><button type=\"button\" class=\"icon\" data-browser-close aria-label=\"Close\">x</button></header>\n  <main class=\"browser-scroll\">"@
        + if !loaded {
        "<p class=\"empty\">Loading saved Codex conversations...</p>"@
    } else if groups.len() == 0 {
        "<p class=\"empty\">No saved Codex conversations found yet.</p>"@
    } else {
        groups
    } + "</main>\n</dialog>"@
}

/// Writes the row of a conversation, given how its time is told.
pub fn conversation_row_html(
    place: usize,
    chat: &CodexConversation,
    slot_id: i64,
    active: Option<&str>,
    updated: &str,
) -> (res: String)
    ensures
        res@ == row_text(place as int, chat@, slot_id, text::opt_str(active), updated@),
{
    let is_active = match active {
        Some(id) => text::same(id, chat.id.as_str()),
        None => false,
    };
    let mut out = String::from_str("<form class=\"browser-conversation-row");
    if is_active {
        out.append(" active");
    } else {
        out.append("");
    }
    out.append("\"");
    if place >= codex::CODEX_PROJECT_VISIBLE_CONVERSATIONS {
        out.append(" data-extra-conversation hidden");
    } else {
        out.append("");
    }
    out.append(" action=\"/agents/slots/");
    out.append(decimal::integer_text(slot_id).as_str());
    out.append(
        "/conversation\" method=\"post\">\n  <input type=\"hidden\" name=\"thread_id\" value=\"",
    );
    out.append(html::html_escape(chat.id.as_str()).as_str());
    out.append("\">\n  <input type=\"hidden\" name=\"workdir\" value=\"");
    out.append(html::html_escape(chat.cwd.as_str()).as_str());
    out.append("\">\n  <button type=\"submit\"><strong>");
    out.append(html::html_escape(chat.title.as_str()).as_str());
    out.append("</strong><span>");
    out.append(html::html_escape(updated).as_str());
    out.append(" · ");
    out.append(decimal::size_text(chat.message_count).as_str());
    out.append(" msgs · ");
    let preview = formats::truncate_text(chat.preview.as_str(), 92);
    out.append(html::html_escape(preview.as_str()).as_str());
    out.append("</span></button>\n</form>");
    out
}

/// Writes the group of a project, given the rows of its conversations.
pub fn project_group_html(project: &CodexProject, shown: usize, rows: &str) -> (res: String)
    ensures
        res@ == group_text(project@, shown as int, rows@),
{
    let mut out = String::from_str(
        "<section class=\"browser-project\" data-project-group>\n  <div class=\"browser-project-head\" title=\"",
    );
    out.append(html::html_escape(project.path.as_str()).as_str());
    out.append("\"><strong>");
    out.append(html::html_escape(project.name.as_str()).as_str());
    out.append("</strong><span>");
    out.append(decimal::size_text(project.conversation_count).as_str());
    out.append(" chats · ");
    if project.trusted {
        out.append("trusted");
    } else {
        out.append("project");
    }
    out.append("</span></div>\n  <div class=\"browser-conversations\">");
    out.append(rows);
    out.append("</div>\n  ");
    let more = if shown > codex::CODEX_PROJECT_VISIBLE_CONVERSATIONS {
        let mut more = String::from_str(
            "<button type=\"button\" class=\"ghost browser-more\" data-load-more>Load more (",
        );
        let hidden = shown - codex::CODEX_PROJECT_VISIBLE_CONVERSATIONS;
        more.append(decimal::size_text(hidden).as_str());
        more.append(")</button>");
        more
    } else {
        "".to_owned()
    };
    out.append(more.as_str());
    out.append("\n</section>");
    out
}

fn listed_chats<'a>(conversations: &'a Vec<CodexConversation>, path: &str) -> (res: Vec<
    &'a CodexConversation,
>)
    ensures
        res@.map_values(|c: &CodexConversation| c@) == sorting::first_of(
            chats_in(codex::conversation_views(conversations@), path@),
            codex::CODEX_PROJECT_CONVERSATION_LIMIT as nat,
        ),
{
    let ghost all = codex::conversation_views(conversations@);
    let mut chats: Vec<&'a CodexConversation> = Vec::new();
    let mut i: usize = 0;
    assert(chats@.map_values(|c: &CodexConversation| c@) =~= chats_in(all.take(0), path@));
    while i < conversations.len()
        invariant
            i <= conversations@.len(),
            all == codex::conversation_views(conversations@),
            chats@.map_values(|c: &CodexConversation| c@) == chats_in(all.take(i as int), path@),
        decreases conversations@.len() - i,
    {
        assert(all.take(i + 1).drop_last() =~= all.take(i as int));
        if text::same(conversations[i].cwd.as_str(), path) {
            let ghost prior = chats@;
            chats.push(&conversations[i]);
            assert(chats@.map_values(|c: &CodexConversation| c@) =~= prior.map_values(
                |c: &CodexConversation| c@,
            ).push(conversations@[i as int]@));
        }
        i += 1;
    }
    assert(all.take(i as int) =~= all);
    let ghost found = chats@;
    let res = sorting::limit(chats, codex::CODEX_PROJECT_CONVERSATION_LIMIT);
    assert(res@.map_values(|c: &CodexConversation| c@) =~= sorting::first_of(
        found.map_values(|c: &CodexConversation| c@),
        codex::CODEX_PROJECT_CONVERSATION_LIMIT as nat,
    ));
    res
}

fn rows_html(chats: &Vec<&CodexConversation>, slot_id: i64, active: Option<&str>, now: &Moment) -> (res:
    String)
    requires
        now.valid(),
    ensures
        res@ == rows_text(
            chats@.map_values(|c: &CodexConversation| c@),
            slot_id,
            text::opt_str(active),
            *now,
        ),
{
    let ghost all = chats@.map_values(|c: &CodexConversation| c@);
    let mut out = "".to_owned();
    let mut i: usize = 0;
    while i < chats.len()
        invariant
            i <= chats@.len(),
            now.valid(),
            all == chats@.map_values(|c: &CodexConversation| c@),
            out@ == rows_text(all.take(i as int), slot_id, text::opt_str(active), *now),
        decreases chats@.len() - i,
    {
        assert(all.take(i + 1).drop_last() =~= all.take(i as int));
        let updated = times::short_time_at(chats[i].updated_at.as_str(), now);
        out.append(
            conversation_row_html(i, chats[i], slot_id, active, updated.as_str()).as_str(),
        );
        i += 1;
    }
    assert(all.take(i as int) =~= all);
    out
}

fn busy_projects<'a>(projects: &'a Vec<CodexProject>) -> (res: Vec<&'a CodexProject>)
    ensures
        res@.map_values(|p: &CodexProject| p@) == sorting::first_of(
            busy(codex::project_views(projects@)),
            codex::CODEX_PROJECT_DRAWER_LIMIT as nat,
        ),
{
    let ghost all = codex::project_views(projects@);
    let mut list: Vec<&'a CodexProject> = Vec::new();
    let mut i: usize = 0;
    assert(list@.map_values(|p: &CodexProject| p@) =~= busy(all.take(0)));
    while i < projects.len()
        invariant
            i <= projects@.len(),
            all == codex::project_views(projects@),
            list@.map_values(|p: &CodexProject| p@) == busy(all.take(i as int)),
        decreases projects@.len() - i,
    {
        assert(all.take(i + 1).drop_last() =~= all.take(i as int));
        if projects[i].conversation_count > 0 {
            let ghost prior = list@;
            list.push(&projects[i]);
            assert(list@.map_values(|p: &CodexProject| p@) =~= prior.map_values(
                |p: &CodexProject| p@,
            ).push(projects@[i as int]@));
        }
        i += 1;
    }
    assert(all.take(i as int) =~= all);
    let ghost found = list@;
    let res = sorting::limit(list, codex::CODEX_PROJECT_DRAWER_LIMIT);
    assert(res@.map_values(|p: &CodexProject| p@) =~= sorting::first_of(
        found.map_values(|p: &CodexProject| p@),
        codex::CODEX_PROJECT_DRAWER_LIMIT as nat,
    ));
    res
}

/// Writes the drawer: for each of the first projects that have conversations,
/// its first conversations.
pub fn codex_browser_drawer_html(
    projects: &Vec<CodexProject>,
    conversations: &Vec<CodexConversation>,
    slot_id: i64,
    active_thread: Option<&str>,
    loaded: bool,
    now: &Moment,
) -> (res: String)
    requires
        now.valid(),
    ensures
        res@ == drawer_text(
            groups_text(
                sorting::first_of(
                    busy(codex::project_views(projects@)),
                    codex::CODEX_PROJECT_DRAWER_LIMIT as nat,
                ),
                codex::conversation_views(conversations@),
                slot_id,
                text::opt_str(active_thread),
                *now,
            ),
            loaded,
        ),
{
    let shown = busy_projects(projects);
    let ghost all = shown@.map_values(|p: &CodexProject| p@);
    let ghost chats_seen = codex::conversation_views(conversations@);
    let mut groups = "".to_owned();
    let mut i: usize = 0;
    while i < shown.len()
        invariant
            i <= shown@.len(),
            now.valid(),
            all == shown@.map_values(|p: &CodexProject| p@),
            chats_seen == codex::conversation_views(conversations@),
            groups@ == groups_text(
                all.take(i as int),
                chats_seen,
                slot_id,
                text::opt_str(active_thread),
                *now,
            ),
        decreases shown@.len() - i,
    {
        assert(all.take(i + 1).drop_last() =~= all.take(i as int));
        let chats = listed_chats(conversations, shown[i].path.as_str());
        if chats.len() > 0 {
            let rows = rows_html(&chats, slot_id, active_thread, now);
            groups.append(project_group_html(shown[i], chats.len(), rows.as_str()).as_str());
        }
        i += 1;
    }
    assert(all.take(i as int) =~= all);
    drawer_html(groups.as_str(), loaded)
}

/// Writes the drawer, given the groups in it.
pub fn drawer_html(groups: &str, loaded: bool) -> (res: String)
    ensures
        res@ == drawer_text(groups@, loaded),
{
    let mut out = String::from_str(
        "<dialog class=\"browser-drawer\" id=\"conversationDrawer\">\n  <header><div><strong>Conversations</strong><br><span>Projects with saved Codex sessions</span></div><button type=\"button\" class=\"icon\" data-browser-close aria-label=\"Close\">x</button></header>\n  <main class=\"browser-scroll\">",
    );
    if !loaded {
        out.append("<p class=\"empty\">Loading saved Codex conversations...</p>");
    } else if groups.is_empty() {
        out.append("<p class=\"empty\">No saved Codex conversations found yet.</p>");
    } else {
        out.append(groups);
    }
    out.append("</main>\n</dialog>");
    out
}

/// A place in a list of projects is one with the path, and there is none exactly
/// where no project has it.
pub proof fn places_are_found_by_path(list: Seq<ProjectView>, path: Seq<char>)
    ensures
        match place_of(list, path) {
            Some(i) => 0 <= i < list.len() && list[i].path == path,
            None => forall|k: int| 0 <= k < list.len() ==> (#[trigger] list[k]).path != path,
        },
    decreases list.len(),
{
    if list.len() > 0 && list.last().path != path {
        let front = list.drop_last();
        places_are_found_by_path(front, path);
        if place_of(front, path) is None {
            assert forall|k: int| 0 <= k < list.len() implies (#[trigger] list[k]).path != path by {
                if k < front.len() {
                    assert(front[k].path != path);
                }
            }
        }
    }
}

/// A project of the settings takes the place of one of its path, or comes last;
/// every other project stays where and as it is.
pub proof fn settings_add_or_replace_a_project(list: Seq<ProjectView>, project: ProjectView, k: int)
    requires
        unique_paths(list),
    ensures
        ({
            let all = with_project(list, project);
            &&& exists|i: int| 0 <= i < all.len() && #[trigger] all[i] == project
            &&& 0 <= k < list.len() && list[k].path != project.path ==> all[k] == list[k]
            &&& (exists|i: int| 0 <= i < list.len() && (#[trigger] list[i]).path == project.path)
                ==> all.len() == list.len()
            &&& (forall|i: int| 0 <= i < list.len() ==> (#[trigger] list[i]).path != project.path)
                ==> all == list.push(project)
        }),
{
    places_are_found_by_path(list, project.path);
    let all = with_project(list, project);
    match place_of(list, project.path) {
        Some(i) => {
            assert(all[i] == project);
            assert(list[i].path == project.path);
        },
        None => {
            assert(all[list.len() as int] == project);
        },
    }
}

/// A project of the settings is shown by the name of its folder, has no
/// conversations yet, and is trusted exactly where its level says so, in any case.
pub proof fn projects_are_trusted_by_their_level(path: Seq<char>, level: Seq<char>)
    ensures
        configured_project(path, Some(level)).path == path,
        configured_project(path, Some(level)).name == paths::display_name(path),
        configured_project(path, Some(level)).conversation_count == 0,
        configured_project(path, Some(level)).trusted <==> text::lowered(level) == "trusted"@,
        !configured_project(path, None).trusted,
{
    reveal_strlit("trusted");
    assert(text::lowered("trusted"@) =~= "trusted"@);
}

/// The projects of the settings are the entries of their table, in order; what
/// cannot be read, and settings without the table, have none.
pub proof fn projects_are_read_from_their_table(
    raw: Seq<char>,
    settings: TomlView,
    entries: Seq<(Seq<char>, TomlView)>,
    entry: (Seq<char>, TomlView),
)
    ensures
        projects_in(None).len() == 0,
        outside::toml_document(raw) is None ==> projects_in(Some(raw)).len() == 0,
        outside::toml_document(raw) == Some(settings) && !(settings.get("projects"@) matches Some(
            TomlView::Table(table),
        )) ==> projects_in(Some(raw)).len() == 0,
        outside::toml_document(raw) == Some(settings) && settings.get("projects"@) == Some(
            TomlView::Table(entries.push(entry)),
        ) ==> projects_in(Some(raw)) == with_project(
            configured(trust_levels(entries)),
            configured_project(entry.0, entry.1.text_at("trust_level"@)),
        ),
        configured(trust_levels(Seq::empty())).len() == 0,
{
    let all = trust_levels(entries.push(entry));
    assert(all.drop_last() =~= trust_levels(entries));
    assert(all.last() == (entry.0, entry.1.text_at("trust_level"@)));
}

/// A conversation is counted for the project of its folder; a folder that is no
/// project yet becomes one, untrusted, with this conversation alone. No other
/// project changes.
pub proof fn conversations_count_for_their_folder(list: Seq<ProjectView>, cwd: Seq<char>, k: int)
    requires
        unique_paths(list),
    ensures
        ({
            let all = counted(list, cwd);
            &&& 0 <= k < list.len() && list[k].path != cwd ==> all[k] == list[k]
            &&& 0 <= k < list.len() && list[k].path == cwd ==> all.len() == list.len() && all[k]
                == (ProjectView {
                conversation_count: list[k].conversation_count + 1,
                ..list[k]
            })
            &&& (forall|i: int| 0 <= i < list.len() ==> (#[trigger] list[i]).path != cwd) ==> all
                == list.push(
                (ProjectView {
                    path: cwd,
                    name: paths::display_name(cwd),
                    trusted: false,
                    conversation_count: 1,
                }),
            )
        }),
{
    places_are_found_by_path(list, cwd);
    if let Some(i) = place_of(list, cwd) {
        assert(list[i].path == cwd);
        if 0 <= k < list.len() && list[k].path == cwd && k != i {
            if k < i {
                assert(list[k].path != list[i].path);
            } else {
                assert(list[i].path != list[k].path);
            }
        }
    }
}

/// The conversations of the files are those that the files hold, in order, and
/// their usage is the latest that one of them tells.
pub proof fn files_hold_conversations_and_usage(
    file: SessionContent,
    files: Seq<SessionContent>,
    i: int,
)
    ensures
        file.conversation matches Some(c) ==> conversations_in(seq![file] + files) == seq![c]
            + conversations_in(files),
        file.conversation is None ==> conversations_in(seq![file] + files) == conversations_in(
            files,
        ),
        conversations_in(Seq::empty()).len() == 0,
        usage_in(Seq::empty()) is None,
        0 <= i < files.len() && files[i].usage is Some ==> usage_in(files) is Some
            && !text::precedes(
            usage_in(files).unwrap().observed_at,
            files[i].usage.unwrap()@.observed_at,
        ),
        usage_in(files) matches Some(u) ==> exists|k: int|
            0 <= k < files.len() && codex_usage::opt_usage((#[trigger] files[k]).usage) == Some(u),
    decreases files.len(),
{
    assert((seq![file] + files).skip(1) =~= files);
    if files.len() > 0 {
        let front = files.drop_last();
        let n = files.len() - 1;
        files_hold_conversations_and_usage(file, front, i);
        let first = usage_in(front);
        let last = codex_usage::opt_usage(files.last().usage);
        if 0 <= i < files.len() && files[i].usage is Some {
            let event = files[i].usage.unwrap()@.observed_at;
            if i < n {
                assert(front[i] == files[i]);
                if let Some(b) = last {
                    let a = first.unwrap();
                    if text::precedes(a.observed_at, b.observed_at) && text::precedes(
                        b.observed_at,
                        event,
                    ) {
                        text::text_order_is_transitive(a.observed_at, b.observed_at, event);
                    }
                }
            } else {
                text::text_order_is_total(event, event);
            }
        }
        if let Some(u) = usage_in(files) {
            if first == Some(u) {
                let k = choose|k: int|
                    0 <= k < front.len() && codex_usage::opt_usage((#[trigger] front[k]).usage)
                        == Some(u);
                assert(files[k] == front[k]);
            } else {
                assert(codex_usage::opt_usage(files[n].usage) == Some(u));
            }
        }
    }
}

/// At most a hundred and twenty conversations are listed, the latest first, and
/// none that is left out is later than one that is listed.
pub proof fn the_latest_conversations_are_listed(files: Seq<SessionContent>, i: int, j: int)
    ensures
        ({
            let all = sorting::arranged(conversations_in(files));
            let list = listed(files);
            &&& list.len() <= 120
            &&& conversations_in(files).len() <= 120 ==> list.len() == conversations_in(files).len()
            &&& all.to_multiset() == conversations_in(files).to_multiset()
            &&& 0 <= i < j < all.len() && i < list.len() ==> list[i] == all[i] && !text::precedes(
                list[i].updated_at@,
                all[j].updated_at@,
            )
        }),
{
    let all = sorting::arranged(conversations_in(files));
    sorting::arranged_lists_are_in_order(conversations_in(files));
    if 0 <= i < j < all.len() {
        assert(!sorting::Ranked::before(all[j], all[i]));
    }
}

/// The drawer shows the projects that have conversations, in order, and of each
/// the conversations of its folder, in order.
pub proof fn projects_show_their_conversations(
    projects: Seq<ProjectView>,
    project: ProjectView,
    chats: Seq<ConversationView>,
    chat: ConversationView,
    path: Seq<char>,
)
    ensures
        busy(Seq::empty()).len() == 0,
        project.conversation_count > 0 ==> busy(projects.push(project)) == busy(projects).push(
            project,
        ),
        project.conversation_count == 0 ==> busy(projects.push(project)) == busy(projects),
        chats_in(Seq::empty(), path).len() == 0,
        chat.cwd == path ==> chats_in(chats.push(chat), path) == chats_in(chats, path).push(chat),
        chat.cwd != path ==> chats_in(chats.push(chat), path) == chats_in(chats, path),
{
    assert(projects.push(project).drop_last() =~= projects);
    assert(chats.push(chat).drop_last() =~= chats);
}

/// A conversation's row is hidden from the fourth on, marked where it is the one
/// that is shown, and leads to its slot and its own id, folder and title, all
/// escaped.
pub proof fn rows_lead_to_their_conversation(
    place: int,
    chat: ConversationView,
    slot_id: i64,
    active: Option<Seq<char>>,
    updated: Seq<char>,
)
    ensures
        row_text(place, chat, slot_id, active, updated) == "<form class=\"browser-conversation-row"@
            + if active == Some(chat.id) {
            " active"@
        } else {
            ""@
        } + "\""@ + if place >= 3 {
            " data-extra-conversation hidden"@
        } else {
            ""@
        } + " action=\"/agents/slots/"@ + decimal::decimal(slot_id as int)
            + "/conversation\" method=\"post\">\n  <input type=\"hidden\" name=\"thread_id\" value=\""@
            + html::escaped(chat.id)
            + "\">\n  <input type=\"hidden\" name=\"workdir\" value=\""@ + html::escaped(chat.cwd)
            + "\">\n  <button type=\"submit\"><strong>"@ + html::escaped(chat.title)
            + "</strong><span>"@ + html::escaped(updated) + " · "@ + decimal::decimal(
            chat.message_count as int,
        ) + " msgs · "@ + html::escaped(formats::truncated(chat.preview, 92))
            + "</span></button>\n</form>"@,
{
}

/// Rows follow the order of the conversations.
pub proof fn rows_keep_their_order(
    chats: Seq<ConversationView>,
    chat: ConversationView,
    slot_id: i64,
    active: Option<Seq<char>>,
    now: Moment,
)
    ensures
        rows_text(Seq::empty(), slot_id, active, now) == ""@,
        rows_text(chats.push(chat), slot_id, active, now) == rows_text(chats, slot_id, active, now)
            + row_text(
            chats.len() as int,
            chat,
            slot_id,
            active,
            times::short_time_text(chat.updated_at, times::read_moment(chat.updated_at), now),
        ),
{
    assert(chats.push(chat).drop_last() =~= chats);
}

/// A project's group offers more exactly where more than three conversations are
/// in it, and says how many.
pub proof fn groups_offer_the_rest(project: ProjectView, shown: int, rows: Seq<char>)
    ensures
        ({
            let head = "<section class=\"browser-project\" data-project-group>\n  <div class=\"browser-project-head\" title=\""@
                + html::escaped(project.path) + "\"><strong>"@ + html::escaped(project.name)
                + "</strong><span>"@ + decimal::decimal(project.conversation_count as int)
                + " chats · "@ + if project.trusted {
                "trusted"@
            } else {
                "project"@
            } + "</span></div>\n  <div class=\"browser-conversations\">"@ + rows + "</div>\n  "@;
            &&& shown <= 3 ==> group_text(project, shown, rows) == head + ""@ + "\n</section>"@
            &&& shown > 3 ==> group_text(project, shown, rows) == head + (
            "<button type=\"button\" class=\"ghost browser-more\" data-load-more>Load more ("@
                + decimal::decimal(shown - 3) + ")</button>"@) + "\n</section>"@
        }),
{
}

/// A project whose folder has no conversations makes no group; any other makes
/// one, with at most twenty-four of its conversations.
pub proof fn groups_show_at_most_so_many(
    projects: Seq<ProjectView>,
    project: ProjectView,
    conversations: Seq<ConversationView>,
    slot_id: i64,
    active: Option<Seq<char>>,
    now: Moment,
)
    ensures
        ({
            let chats = chats_in(conversations, project.path);
            let before = groups_text(projects, conversations, slot_id, active, now);
            let after = groups_text(projects.push(project), conversations, slot_id, active, now);
            &&& chats.len() == 0 ==> after == before
            &&& 0 < chats.len() <= 24 ==> after == before + group_text(
                project,
                chats.len() as int,
                rows_text(chats, slot_id, active, now),
            )
            &&& chats.len() > 24 ==> after == before + group_text(
                project,
                24,
                rows_text(chats.take(24), slot_id, active, now),
            )
        }),
        groups_text(Seq::empty(), conversations, slot_id, active, now) == ""@,
{
    assert(projects.push(project).drop_last() =~= projects);
}

/// The drawer says that it loads, that there is nothing, or shows the groups.
pub proof fn drawers_say_what_is_there(groups: Seq<char>)
    ensures
        text::has_text(
            drawer_text(groups, false),
            "<p class=\"empty\">Loading saved Codex conversations...</p>"@,
        ),
        groups.len() == 0 ==> text::has_text(
            drawer_text(groups, true),
            "<p class=\"empty\">No saved Codex conversations found yet.</p>"@,
        ),
        groups.len() > 0 ==> text::has_text(drawer_text(groups, true), groups),
{
    let head = "<dialog class=\"browser-drawer\" id=\"conversationDrawer\">\n  <header><div><strong>Conversations</strong><br><span>Projects with saved Codex sessions</span></div><button type=\"button\" class=\"icon\" data-browser-close aria-label=\"Close\">x</button></header>\n  <main class=\"browser-scroll\">"@;
    let end = "</main>\n</dialog>"@;
    text::parts_of_a_text(
        head,
        "<p class=\"empty\">Loading saved Codex conversations...</p>"@,
        end,
    );
    text::parts_of_a_text(
        head,
        "<p class=\"empty\">No saved Codex conversations found yet.</p>"@,
        end,
    );
    text::parts_of_a_text(head, groups, end);
}

} // verus!
