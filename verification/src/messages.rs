//! The messages of an agent's chat.

use vstd::prelude::*;
use vstd::string::StringExecFns;

use crate::decimal;
use crate::html;
use crate::text;

verus! {

/// What opens a message in HTML.
pub const MESSAGE_MARK: &'static str = "<article class=\"message\">";

/// A file that came with a message.
#[derive(Debug)]
pub struct AgentAttachmentSummary {
    pub id: i64,
    pub name: String,
    pub content_type: String,
    pub size_bytes: i64,
    pub is_image: bool,
}

/// A message of a chat.
#[derive(Debug)]
pub struct AgentMessageRow {
    pub role: String,
    pub body: String,
    pub created_at: String,
    pub attachment: Option<AgentAttachmentSummary>,
}

#[verifier::ext_equal]
pub struct AttachmentView {
    pub id: i64,
    pub name: Seq<char>,
    pub content_type: Seq<char>,
    pub size_bytes: i64,
    pub is_image: bool,
}

#[verifier::ext_equal]
pub struct MessageView {
    pub role: Seq<char>,
    pub body: Seq<char>,
    pub created_at: Seq<char>,
    pub attachment: Option<AttachmentView>,
}

impl View for AgentAttachmentSummary {
    type V = AttachmentView;

    open spec fn view(&self) -> AttachmentView {
        AttachmentView {
            id: self.id,
            name: self.name@,
            content_type: self.content_type@,
            size_bytes: self.size_bytes,
            is_image: self.is_image,
        }
    }
}

impl View for AgentMessageRow {
    type V = MessageView;

    open spec fn view(&self) -> MessageView {
        MessageView {
            role: self.role@,
            body: self.body@,
            created_at: self.created_at@,
            attachment: match self.attachment {
                Some(attachment) => Some(attachment@),
                None => None,
            },
        }
    }
}

pub open spec fn message_views(rows: Seq<AgentMessageRow>) -> Seq<MessageView> {
    rows.map_values(|row: AgentMessageRow| row@)
}

/// Whether files of a type are shown as images.
pub open spec fn is_image_type(content_type: Seq<char>) -> bool {
    text::has_prefix(content_type, "image/"@)
}

/// A file as a message shows it.
pub fn attachment_summary(id: i64, name: String, content_type: String, size_bytes: i64) -> (res:
    AgentAttachmentSummary)
    ensures
        res@ == (AttachmentView {
            id,
            name: name@,
            content_type: content_type@,
            size_bytes,
            is_image: is_image_type(content_type@),
        }),
{
    let is_image = text::starts_with(content_type.as_str(), "image/");
    AgentAttachmentSummary { id, name, content_type, size_bytes, is_image }
}

pub open spec fn attachment_text(attachment: AttachmentView) -> Seq<char> {
    let link = "<a class=\"attachment-link\" href=\"/agents/attachments/"@ + decimal::decimal(
        attachment.id as int,
    ) + "\">"@ + html::escaped(attachment.name) + "</a>"@;
    if attachment.is_image {
        link + "<img class=\"message-image\" src=\"/agents/attachments/"@ + decimal::decimal(
            attachment.id as int,
        ) + "\" alt=\"\">"@
    } else {
        link
    }
}

pub open spec fn opt_attachment_text(attachment: Option<AttachmentView>) -> Seq<char> {
    match attachment {
        Some(attachment) => attachment_text(attachment),
        None => ""@,
    }
}

/// A message in HTML.
pub open spec fn article(message: MessageView) -> Seq<char> {
    MESSAGE_MARK@ + "\n  <div class=\"message-avatar\">"@ + if message.role == "user"@ {
        "U"@
    } else {
        "A"@
    } + "</div>\n  <div class=\"message-body\">\n    <div class=\"message-meta\"><strong>"@
        + html::escaped(message.role) + "</strong><span class=\"message-log\">"@ + html::escaped(
        message.created_at,
    ) + "</span></div>\n    "@ + html::paragraph(message.body) + opt_attachment_text(
        message.attachment,
    ) + "\n  </div>\n</article>"@
}

/// Messages in HTML, the last one first.
pub open spec fn articles(messages: Seq<MessageView>) -> Seq<char>
    decreases messages.len(),
{
    if messages.len() == 0 {
        ""@
    } else {
        articles(messages.skip(1)) + article(messages[0])
    }
}

/// A chat in HTML.
pub open spec fn chat_text(messages: Seq<MessageView>) -> Seq<char> {
    if messages.len() == 0 {
        "<p class=\"empty\">No messages in this slot yet.</p>"@
    } else {
        articles(messages)
    }
}

fn attachment_html(attachment: &AgentAttachmentSummary) -> (res: String)
    ensures
        res@ == attachment_text(attachment@),
{
    let mut out = String::from_str("<a class=\"attachment-link\" href=\"/agents/attachments/");
    out.append(decimal::integer_text(attachment.id).as_str());
    out.append("\">");
    out.append(html::html_escape(attachment.name.as_str()).as_str());
    out.append("</a>");
    if attachment.is_image {
        out.append("<img class=\"message-image\" src=\"/agents/attachments/");
        out.append(decimal::integer_text(attachment.id).as_str());
        out.append("\" alt=\"\">");
    }
    out
}

fn article_html(message: &AgentMessageRow) -> (res: String)
    ensures
        res@ == article(message@),
{
    let mut out = String::from_str(MESSAGE_MARK);
    out.append("\n  <div class=\"message-avatar\">");
    if text::same(message.role.as_str(), "user") {
        out.append("U");
    } else {
        out.append("A");
    }
    out.append("</div>\n  <div class=\"message-body\">\n    <div class=\"message-meta\"><strong>");
    out.append(html::html_escape(message.role.as_str()).as_str());
    out.append("</strong><span class=\"message-log\">");
    out.append(html::html_escape(message.created_at.as_str()).as_str());
    out.append("</span></div>\n    ");
    out.append(html::paragraph_html(message.body.as_str()).as_str());
    let attachment = match &message.attachment {
        Some(attachment) => attachment_html(attachment),
        None => "".to_owned(),
    };
    out.append(attachment.as_str());
    out.append("\n  </div>\n</article>");
    out
}

/// Writes a chat, whose newest message comes first in the list and last on the page.
pub fn agent_messages_html(messages: &Vec<AgentMessageRow>) -> (res: String)
    ensures
        res@ == chat_text(message_views(messages@)),
{
    if messages.len() == 0 {
        return "<p class=\"empty\">No messages in this slot yet.</p>".to_owned();
    }
    let ghost all = message_views(messages@);
    let mut out = "".to_owned();
    let mut i: usize = messages.len();
    assert(all.skip(i as int) =~= Seq::empty());
    while i > 0
        invariant
            i <= messages@.len(),
            all == message_views(messages@),
            out@ == articles(all.skip(i as int)),
        decreases i,
    {
        i -= 1;
        assert(all.skip(i as int).skip(1) =~= all.skip(i + 1));
        assert(all.skip(i as int)[0] == messages@[i as int]@);
        out.append(article_html(&messages[i]).as_str());
    }
    assert(all.skip(0) =~= all);
    out
}

/// How many messages a page shows, where it shows any.
pub open spec fn shown_count(html: Seq<char>) -> Option<nat> {
    let count = text::text_count(html, MESSAGE_MARK@);
    if count > 0 {
        Some(count)
    } else {
        None
    }
}

pub fn codex_transcript_count(html: &str) -> (res: Option<usize>)
    ensures
        match res {
            Some(count) => shown_count(html@) == Some(count as nat),
            None => shown_count(html@) is None,
        },
{
    proof {
        reveal_strlit("<article class=\"message\">");
    }
    let count = text::count_text(html, MESSAGE_MARK);
    if count > 0 {
        Some(count)
    } else {
        None
    }
}

// ---------------------------------------------------------------------------
// What holds of chats
// ---------------------------------------------------------------------------

/// No message opens in `s`, nor at its end: whatever opens there goes on
/// otherwise.
spec fn quiet(s: Seq<char>) -> bool {
    forall|i: int|
        0 <= i < s.len() && #[trigger] s[i] == '<' ==> i + 2 < s.len() && !(s[i + 1] == 'a' && s[i + 2]
            == 'r')
}

proof fn quiet_text_counts_nothing(s: Seq<char>, tail: Seq<char>)
    requires
        quiet(s),
    ensures
        text::text_count(s + tail, MESSAGE_MARK@) == text::text_count(tail, MESSAGE_MARK@),
    decreases s.len(),
{
    reveal_strlit("<article class=\"message\">");
    let mark = MESSAGE_MARK@;
    let all = s + tail;
    if s.len() == 0 {
        assert(all =~= tail);
    } else {
        assert(all[0] == s[0]);
        if text::has_prefix(all, mark) {
            assert(all.take(mark.len() as int)[0] == '<');
            assert(all.take(mark.len() as int)[1] == 'a');
            assert(all.take(mark.len() as int)[2] == 'r');
            assert(all[1] == s[1] && all[2] == s[2]);
        }
        assert(all.skip(1) =~= s.skip(1) + tail);
        assert forall|i: int| 0 <= i < s.skip(1).len() && #[trigger] s.skip(1)[i] == '<' implies i + 2
            < s.skip(1).len() && !(s.skip(1)[i + 1] == 'a' && s.skip(1)[i + 2] == 'r') by {
            assert(s[i + 1] == '<');
        }
        quiet_text_counts_nothing(s.skip(1), tail);
        counting_moves_on(all);
    }
}

proof fn counting_moves_on(s: Seq<char>)
    requires
        s.len() > 0,
        !text::has_prefix(s, MESSAGE_MARK@),
    ensures
        text::text_count(s, MESSAGE_MARK@) == text::text_count(s.skip(1), MESSAGE_MARK@),
{
    reveal_strlit("<article class=\"message\">");
    let mark = MESSAGE_MARK@;
    text::first_text_is_least(s, mark);
    text::first_text_is_least(s.skip(1), mark);
    if let Some(i) = text::first_text(s.skip(1), mark) {
        assert(s.skip(1).skip(i + mark.len()) =~= s.skip(i + 1 + mark.len()));
    }
}

proof fn a_mark_counts_once(tail: Seq<char>)
    ensures
        text::text_count(MESSAGE_MARK@ + tail, MESSAGE_MARK@) == 1 + text::text_count(
            tail,
            MESSAGE_MARK@,
        ),
{
    reveal_strlit("<article class=\"message\">");
    let all = MESSAGE_MARK@ + tail;
    assert(all.take(MESSAGE_MARK@.len() as int) =~= MESSAGE_MARK@);
    assert(all.skip(MESSAGE_MARK@.len() as int) =~= tail);
}

proof fn quiet_joins(a: Seq<char>, b: Seq<char>)
    requires
        quiet(a),
        quiet(b),
    ensures
        quiet(a + b),
{
    let s = a + b;
    assert forall|i: int| 0 <= i < s.len() && #[trigger] s[i] == '<' implies i + 2 < s.len() && !(s[i
        + 1] == 'a' && s[i + 2] == 'r') by {
        if i < a.len() {
            assert(a[i] == '<');
        } else {
            assert(b[i - a.len()] == '<');
        }
    }
}

proof fn literals_are_quiet()
    ensures
        quiet("\n  <div class=\"message-avatar\">"@),
        quiet("U"@),
        quiet("A"@),
        quiet("</div>\n  <div class=\"message-body\">\n    <div class=\"message-meta\"><strong>"@),
        quiet("</strong><span class=\"message-log\">"@),
        quiet("</span></div>\n    "@),
        quiet("\n  </div>\n</article>"@),
        quiet(""@),
        quiet("<p>"@),
        quiet("</p>"@),
        quiet("<br>"@),
        quiet("<a class=\"attachment-link\" href=\"/agents/attachments/"@),
        quiet("\">"@),
        quiet("</a>"@),
        quiet("<img class=\"message-image\" src=\"/agents/attachments/"@),
        quiet("\" alt=\"\">"@),
{
    reveal_strlit("\n  <div class=\"message-avatar\">");
    reveal_strlit("U");
    reveal_strlit("A");
    reveal_strlit("</div>\n  <div class=\"message-body\">\n    <div class=\"message-meta\"><strong>");
    reveal_strlit("</strong><span class=\"message-log\">");
    reveal_strlit("</span></div>\n    ");
    reveal_strlit("\n  </div>\n</article>");
    reveal_strlit("");
    reveal_strlit("<p>");
    reveal_strlit("</p>");
    reveal_strlit("<br>");
    reveal_strlit("<a class=\"attachment-link\" href=\"/agents/attachments/");
    reveal_strlit("\">");
    reveal_strlit("</a>");
    reveal_strlit("<img class=\"message-image\" src=\"/agents/attachments/");
    reveal_strlit("\" alt=\"\">");
}

proof fn escaped_is_quiet(s: Seq<char>)
    ensures
        quiet(html::escaped(s)),
{
    html::escaping_leaves_no_markup(s);
}

proof fn breaks_are_quiet(s: Seq<char>)
    requires
        forall|i: int| 0 <= i < s.len() ==> #[trigger] s[i] != '<',
    ensures
        quiet(text::replaced(s, '\n', "<br>"@)),
    decreases s.len(),
{
    literals_are_quiet();
    if s.len() > 0 {
        let front = s.drop_last();
        breaks_are_quiet(front);
        assert(s.last() != '<');
        if s.last() == '\n' {
            quiet_joins(text::replaced(front, '\n', "<br>"@), "<br>"@);
        } else {
            quiet_joins(text::replaced(front, '\n', "<br>"@), seq![s.last()]);
            assert(text::replaced(front, '\n', "<br>"@).push(s.last()) =~= text::replaced(
                front,
                '\n',
                "<br>"@,
            ) + seq![s.last()]);
        }
    }
}

proof fn paragraph_is_quiet(s: Seq<char>)
    ensures
        quiet(html::paragraph(s)),
{
    literals_are_quiet();
    html::escaping_leaves_no_markup(s);
    breaks_are_quiet(html::escaped(s));
    quiet_joins("<p>"@, html::escaped_lines(s));
    quiet_joins("<p>"@ + html::escaped_lines(s), "</p>"@);
}

proof fn decimal_is_quiet(v: int)
    ensures
        quiet(decimal::decimal(v)),
{
    if v < 0 {
        decimal::digits_denote((-v) as nat);
    } else {
        decimal::digits_denote(v as nat);
    }
    assert forall|i: int| 0 <= i < decimal::decimal(v).len() implies #[trigger] decimal::decimal(v)[i]
        != '<' by {
        let c = decimal::decimal(v)[i];
        assert(c == '-' || text::is_digit(c));
    }
}

proof fn attachment_is_quiet(attachment: Option<AttachmentView>)
    ensures
        quiet(opt_attachment_text(attachment)),
{
    literals_are_quiet();
    if let Some(a) = attachment {
        let id = decimal::decimal(a.id as int);
        decimal_is_quiet(a.id as int);
        escaped_is_quiet(a.name);
        let s1 = "<a class=\"attachment-link\" href=\"/agents/attachments/"@;
        quiet_joins(s1, id);
        quiet_joins(s1 + id, "\">"@);
        quiet_joins(s1 + id + "\">"@, html::escaped(a.name));
        quiet_joins(s1 + id + "\">"@ + html::escaped(a.name), "</a>"@);
        let link = s1 + id + "\">"@ + html::escaped(a.name) + "</a>"@;
        let s2 = "<img class=\"message-image\" src=\"/agents/attachments/"@;
        quiet_joins(link, s2);
        quiet_joins(link + s2, id);
        quiet_joins(link + s2 + id, "\" alt=\"\">"@);
    }
}

/// What follows the mark of a message.
spec fn article_rest(message: MessageView) -> Seq<char> {
    "\n  <div class=\"message-avatar\">"@ + if message.role == "user"@ {
        "U"@
    } else {
        "A"@
    } + "</div>\n  <div class=\"message-body\">\n    <div class=\"message-meta\"><strong>"@
        + html::escaped(message.role) + "</strong><span class=\"message-log\">"@ + html::escaped(
        message.created_at,
    ) + "</span></div>\n    "@ + html::paragraph(message.body) + opt_attachment_text(
        message.attachment,
    ) + "\n  </div>\n</article>"@
}

proof fn article_rest_is_quiet(m: MessageView)
    ensures
        quiet(article_rest(m)),
        article(m) == MESSAGE_MARK@ + article_rest(m),
{
    literals_are_quiet();
    escaped_is_quiet(m.role);
    escaped_is_quiet(m.created_at);
    paragraph_is_quiet(m.body);
    attachment_is_quiet(m.attachment);
    let a0 = "\n  <div class=\"message-avatar\">"@;
    let a1 = if m.role == "user"@ {
        "U"@
    } else {
        "A"@
    };
    let a2 = "</div>\n  <div class=\"message-body\">\n    <div class=\"message-meta\"><strong>"@;
    let a3 = html::escaped(m.role);
    let a4 = "</strong><span class=\"message-log\">"@;
    let a5 = html::escaped(m.created_at);
    let a6 = "</span></div>\n    "@;
    let a7 = html::paragraph(m.body);
    let a8 = opt_attachment_text(m.attachment);
    let a9 = "\n  </div>\n</article>"@;
    quiet_joins(a0, a1);
    quiet_joins(a0 + a1, a2);
    quiet_joins(a0 + a1 + a2, a3);
    quiet_joins(a0 + a1 + a2 + a3, a4);
    quiet_joins(a0 + a1 + a2 + a3 + a4, a5);
    quiet_joins(a0 + a1 + a2 + a3 + a4 + a5, a6);
    quiet_joins(a0 + a1 + a2 + a3 + a4 + a5 + a6, a7);
    quiet_joins(a0 + a1 + a2 + a3 + a4 + a5 + a6 + a7, a8);
    quiet_joins(a0 + a1 + a2 + a3 + a4 + a5 + a6 + a7 + a8, a9);
    assert(article(m) =~= MESSAGE_MARK@ + article_rest(m));
}

proof fn articles_count(messages: Seq<MessageView>, tail: Seq<char>)
    ensures
        text::text_count(articles(messages) + tail, MESSAGE_MARK@) == messages.len()
            + text::text_count(tail, MESSAGE_MARK@),
    decreases messages.len(),
{
    if messages.len() == 0 {
        reveal_strlit("");
        assert(articles(messages) + tail =~= tail);
    } else {
        let m = messages[0];
        let behind = article(m) + tail;
        assert(articles(messages) + tail =~= articles(messages.skip(1)) + behind);
        articles_count(messages.skip(1), behind);
        article_rest_is_quiet(m);
        assert(behind =~= MESSAGE_MARK@ + (article_rest(m) + tail));
        a_mark_counts_once(article_rest(m) + tail);
        quiet_text_counts_nothing(article_rest(m), tail);
    }
}

/// The count on a page of messages is the number of messages, whatever they say.
pub proof fn every_message_counts_once(messages: Seq<MessageView>)
    requires
        messages.len() > 0,
    ensures
        shown_count(chat_text(messages)) == Some(messages.len()),
{
    let none = Seq::<char>::empty();
    articles_count(messages, none);
    assert(articles(messages) + none =~= articles(messages));
}

/// A chat shows its messages in the order of time: the first of the list, which
/// is the latest, comes last.
pub proof fn the_latest_message_comes_last(
    later: Seq<MessageView>,
    earlier: Seq<MessageView>,
    message: MessageView,
)
    ensures
        articles(later + earlier) == articles(earlier) + articles(later),
        articles(seq![message]) == article(message),
        later.len() > 0 ==> chat_text(later) == articles(later),
        chat_text(Seq::empty()) == "<p class=\"empty\">No messages in this slot yet.</p>"@,
    decreases later.len(),
{
    reveal_strlit("");
    let none = Seq::<MessageView>::empty();
    assert(articles(none) =~= Seq::<char>::empty());
    assert(seq![message].skip(1) =~= none);
    assert(articles(seq![message]) =~= article(message));
    if later.len() == 0 {
        assert(later + earlier =~= earlier);
        assert(articles(earlier) + articles(later) =~= articles(earlier));
    } else {
        the_latest_message_comes_last(later.skip(1), earlier, message);
        assert((later + earlier).skip(1) =~= later.skip(1) + earlier);
        assert(articles(later + earlier) =~= articles(earlier) + articles(later));
    }
}

/// A message shows who wrote it, when and what, each escaped, and the file that
/// came with it; the user's mark stands by the user's messages alone.
#[verifier::rlimit(50)]
#[verifier::spinoff_prover]
pub proof fn messages_show_their_text(m: MessageView)
    ensures
        text::has_text(article(m), html::escaped(m.role)),
        text::has_text(article(m), html::escaped(m.created_at)),
        text::has_text(article(m), html::paragraph(m.body)),
        text::has_text(article(m), opt_attachment_text(m.attachment)),
        m.role == "user"@ ==> text::has_prefix(
            article(m),
            "<article class=\"message\">"@ + "\n  <div class=\"message-avatar\">"@ + "U"@,
        ),
        m.role != "user"@ ==> text::has_prefix(
            article(m),
            "<article class=\"message\">"@ + "\n  <div class=\"message-avatar\">"@ + "A"@,
        ),
{
    let p0 = "<article class=\"message\">"@ + "\n  <div class=\"message-avatar\">"@
        + if m.role == "user"@ {
        "U"@
    } else {
        "A"@
    };
    let meta = "</div>\n  <div class=\"message-body\">\n    <div class=\"message-meta\"><strong>"@;
    let role = html::escaped(m.role);
    let log = "</strong><span class=\"message-log\">"@;
    let time = html::escaped(m.created_at);
    let end = "</span></div>\n    "@;
    let body = html::paragraph(m.body);
    let file = opt_attachment_text(m.attachment);
    let close = "\n  </div>\n</article>"@;
    let p1 = p0 + meta;
    let p2 = p1 + role;
    let p3 = p2 + log;
    let p4 = p3 + time;
    let p5 = p4 + end;
    let p6 = p5 + body;
    let p7 = p6 + file;
    assert(article(m) == p7 + close);
    assert(p0.take(p0.len() as int) =~= p0);
    text::longer_texts_keep_their_parts(p0, p0, meta);
    text::longer_texts_keep_their_parts(p1, p0, role);
    text::longer_texts_keep_their_parts(p2, p0, log);
    text::longer_texts_keep_their_parts(p3, p0, time);
    text::longer_texts_keep_their_parts(p4, p0, end);
    text::longer_texts_keep_their_parts(p5, p0, body);
    text::longer_texts_keep_their_parts(p6, p0, file);
    text::longer_texts_keep_their_parts(p7, p0, close);
    text::longer_texts_keep_their_parts(p1, role, role);
    text::longer_texts_keep_their_parts(p2, role, log);
    text::longer_texts_keep_their_parts(p3, role, time);
    text::longer_texts_keep_their_parts(p4, role, end);
    text::longer_texts_keep_their_parts(p5, role, body);
    text::longer_texts_keep_their_parts(p6, role, file);
    text::longer_texts_keep_their_parts(p7, role, close);
    text::longer_texts_keep_their_parts(p3, time, time);
    text::longer_texts_keep_their_parts(p4, time, end);
    text::longer_texts_keep_their_parts(p5, time, body);
    text::longer_texts_keep_their_parts(p6, time, file);
    text::longer_texts_keep_their_parts(p7, time, close);
    text::longer_texts_keep_their_parts(p5, body, body);
    text::longer_texts_keep_their_parts(p6, body, file);
    text::longer_texts_keep_their_parts(p7, body, close);
    text::longer_texts_keep_their_parts(p6, file, file);
    text::longer_texts_keep_their_parts(p7, file, close);
}

/// A file that came with a message is linked by its number and shown by its name;
/// an image is shown too, and nothing but an image.
pub proof fn files_are_linked_and_images_shown(a: AttachmentView)
    ensures
        opt_attachment_text(None) == ""@,
        !a.is_image ==> opt_attachment_text(Some(a))
            == "<a class=\"attachment-link\" href=\"/agents/attachments/"@ + decimal::decimal(
            a.id as int,
        ) + "\">"@ + html::escaped(a.name) + "</a>"@,
        a.is_image ==> opt_attachment_text(Some(a)) == opt_attachment_text(
            Some(AttachmentView { is_image: false, ..a }),
        ) + "<img class=\"message-image\" src=\"/agents/attachments/"@ + decimal::decimal(
            a.id as int,
        ) + "\" alt=\"\">"@,
{
}

/// A file is an image exactly where its type starts as those of images do.
pub proof fn image_types_start_alike(rest: Seq<char>, other: Seq<char>)
    ensures
        is_image_type("image/"@ + rest),
        other.len() < 6 || other.take(6) != "image/"@ ==> !is_image_type(other),
{
    reveal_strlit("image/");
    text::parts_of_a_text(Seq::empty(), "image/"@, rest);
}

/// Messages are counted where there are any: what has no message in it has no
/// count.
pub proof fn only_messages_are_counted(shown: Seq<char>)
    ensures
        shown_count(shown) is Some <==> text::has_text(shown, "<article class=\"message\">"@),
        shown_count(shown) matches Some(n) ==> n > 0,
{
    text::first_text_is_least(shown, MESSAGE_MARK@);
    reveal_strlit("<article class=\"message\">");
    if let Some(i) = text::first_text(shown, MESSAGE_MARK@) {
        assert(text::occurs_at(shown, MESSAGE_MARK@, i));
    }
}

} // verus!
