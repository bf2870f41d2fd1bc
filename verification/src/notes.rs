//! Notes: channels, and the messages in them.

use vstd::prelude::*;
use vstd::string::StrSliceExecFns;
use vstd::string::StringExecFns;

use crate::decimal;
use crate::html;
use crate::text;
use crate::web;
use crate::web::Reply;
use crate::web::ReplyView;

verus! {

/// The channel that is always made.
pub const DEFAULT_CHANNEL: &'static str = "general";

/// How many bytes a note can have.
pub const MAX_NOTE_CHARS: usize = 262144;

/// How many bytes an image can have.
pub const MAX_IMAGE_BYTES: usize = 5242880;

/// How many characters the name of a channel can have.
pub const MAX_CHANNEL_CHARS: usize = 40;

#[derive(Debug)]
pub struct ChannelRow {
    pub id: i64,
    pub name: String,
}

#[derive(Debug)]
pub struct NoteRow {
    pub id: i64,
    pub channel: String,
    pub body: String,
    pub has_image: bool,
}

#[verifier::ext_equal]
pub struct ChannelView {
    pub id: i64,
    pub name: Seq<char>,
}

#[verifier::ext_equal]
pub struct NoteView {
    pub id: i64,
    pub channel: Seq<char>,
    pub body: Seq<char>,
    pub has_image: bool,
}

impl View for ChannelRow {
    type V = ChannelView;

    open spec fn view(&self) -> ChannelView {
        ChannelView { id: self.id, name: self.name@ }
    }
}

impl View for NoteRow {
    type V = NoteView;

    open spec fn view(&self) -> NoteView {
        NoteView {
            id: self.id,
            channel: self.channel@,
            body: self.body@,
            has_image: self.has_image,
        }
    }
}

pub open spec fn channel_views(channels: Seq<ChannelRow>) -> Seq<ChannelView> {
    channels.map_values(|c: ChannelRow| c@)
}

pub open spec fn note_views(notes: Seq<NoteRow>) -> Seq<NoteView> {
    notes.map_values(|n: NoteRow| n@)
}

// ---------------------------------------------------------------------------
// Places and limits
// ---------------------------------------------------------------------------

/// Where a channel is shown.
pub open spec fn location(channel_id: Option<i64>) -> Seq<char> {
    match channel_id {
        Some(id) => if id > 0 {
            "/notes?channel="@ + decimal::decimal(id as int)
        } else {
            "/notes"@
        },
        None => "/notes"@,
    }
}

pub fn notes_location(channel_id: Option<i64>) -> (res: String)
    ensures
        res@ == location(channel_id),
{
    match channel_id {
        Some(id) => if id > 0 {
            let mut out = String::from_str("/notes?channel=");
            out.append(decimal::integer_text(id).as_str());
            out
        } else {
            "/notes".to_owned()
        },
        None => "/notes".to_owned(),
    }
}

/// A type of images that is taken.
pub open spec fn image_type(value: Seq<char>) -> bool {
    value == "image/gif"@ || value == "image/jpeg"@ || value == "image/png"@ || value
        == "image/webp"@
}

pub fn allowed_image_type(value: &str) -> (res: bool)
    ensures
        res == image_type(value@),
{
    text::same(value, "image/gif") || text::same(value, "image/jpeg") || text::same(
        value,
        "image/png",
    ) || text::same(value, "image/webp")
}

/// The name of a channel that a text gives, unless it is blank or too long.
pub open spec fn channel_name(value: Seq<char>) -> Option<Seq<char>> {
    let name = text::trimmed(value);
    if 0 < name.len() <= MAX_CHANNEL_CHARS {
        Some(name)
    } else {
        None
    }
}

pub fn new_channel_name(value: &str) -> (res: Option<String>)
    ensures
        text::opt_text(res) == channel_name(value@),
{
    let name = text::trim(value);
    let length = name.unicode_len();
    if 0 < length && length <= MAX_CHANNEL_CHARS {
        Some(name.to_owned())
    } else {
        None
    }
}

/// Whether a channel can go: one always stays.
pub fn may_delete_channel(count: i64) -> (res: bool)
    ensures
        res == (count > 1),
{
    count > 1
}

// ---------------------------------------------------------------------------
// New notes
// ---------------------------------------------------------------------------

/// An image that came with a note.
pub struct NoteImage {
    pub content_type: String,
    pub bytes: Vec<u8>,
}

/// A note as far as it was read.
pub struct NoteForm {
    pub channel_id: Option<i64>,
    pub body: String,
    pub image: Option<NoteImage>,
}

/// What a part of a form is.
#[derive(Clone, Copy, Debug, PartialEq, Eq, Structural)]
pub enum NoteField {
    Channel,
    Body,
    Image,
    Other,
}

pub open spec fn field_of(name: Seq<char>) -> NoteField {
    if name == "channel_id"@ {
        NoteField::Channel
    } else if name == "body"@ {
        NoteField::Body
    } else if name == "image"@ {
        NoteField::Image
    } else {
        NoteField::Other
    }
}

pub fn note_field(name: &str) -> (res: NoteField)
    ensures
        res == field_of(name@),
{
    if text::same(name, "channel_id") {
        NoteField::Channel
    } else if text::same(name, "body") {
        NoteField::Body
    } else if text::same(name, "image") {
        NoteField::Image
    } else {
        NoteField::Other
    }
}

/// An image is taken if its type is, and if it is neither empty nor too large.
pub open spec fn takes_image(content_type: Option<Seq<char>>, size: nat) -> bool {
    content_type matches Some(kind) && image_type(kind) && 0 < size <= MAX_IMAGE_BYTES
}

/// A note says something and is not too long.
pub open spec fn note_accepted(body: Seq<char>, has_image: bool) -> bool {
    let body = text::trimmed(body);
    (body.len() > 0 || has_image) && vstd::utf8::encode_utf8(body).len() <= MAX_NOTE_CHARS
}

/// A note that is kept: its channel, its text and its image.
pub struct NewNote {
    pub channel_id: i64,
    pub body: String,
    pub image: Option<NoteImage>,
}

impl NoteForm {
    pub fn new() -> (res: NoteForm)
        ensures
            res.channel_id is None,
            res.body@ == ""@,
            res.image is None,
    {
        NoteForm { channel_id: None, body: "".to_owned(), image: None }
    }

    /// Takes the part that names the channel.
    pub fn take_channel(&mut self, value: &str)
        ensures
            final(self).channel_id == decimal::parsed_i64(text::trimmed(value@)),
            final(self).body == old(self).body,
            final(self).image == old(self).image,
    {
        self.channel_id = decimal::parse_integer(text::trim(value));
    }

    /// Takes the part with the text.
    pub fn take_body(&mut self, value: String)
        ensures
            final(self).body == value,
            final(self).channel_id == old(self).channel_id,
            final(self).image == old(self).image,
    {
        self.body = value;
    }

    /// Takes an image, unless its type or its size is refused.
    pub fn take_image(&mut self, content_type: Option<String>, bytes: Vec<u8>)
        ensures
            final(self).channel_id == old(self).channel_id,
            final(self).body == old(self).body,
            if takes_image(text::opt_text(content_type), bytes@.len()) {
                final(self).image matches Some(image) && Some(image.content_type) == content_type
                    && image.bytes == bytes
            } else {
                final(self).image == old(self).image
            },
    {
        if let Some(content_type) = content_type {
            if allowed_image_type(content_type.as_str()) && bytes.len() > 0 && bytes.len()
                <= MAX_IMAGE_BYTES {
                self.image = Some(NoteImage { content_type, bytes });
            }
        }
    }

    /// The channel of the note; the first one where none is named.
    pub fn channel(&self) -> (res: i64)
        ensures
            res == match self.channel_id {
                Some(id) => id,
                None => 1,
            },
    {
        match self.channel_id {
            Some(id) => id,
            None => 1,
        }
    }

    /// The note that is kept, if it is accepted and its channel exists.
    pub fn accept(self, channel_exists: bool) -> (res: Option<NewNote>)
        ensures
            match res {
                Some(note) => {
                    &&& note_accepted(self.body@, self.image is Some)
                    &&& channel_exists
                    &&& note.channel_id == match self.channel_id {
                        Some(id) => id,
                        None => 1,
                    }
                    &&& note.body@ == text::trimmed(self.body@)
                    &&& note.image == self.image
                },
                None => !note_accepted(self.body@, self.image is Some) || !channel_exists,
            },
    {
        let channel_id = self.channel();
        let body = text::trim(self.body.as_str());
        let says_something = body.unicode_len() > 0 || self.image.is_some();
        if says_something && body.as_bytes().len() <= MAX_NOTE_CHARS && channel_exists {
            let body = body.to_owned();
            Some(NewNote { channel_id, body, image: self.image })
        } else {
            None
        }
    }
}

/// What a request for an image is answered, by the size of the image where
/// there is one; nothing where it is shown.
pub open spec fn image_refusal(size: Option<nat>) -> Option<ReplyView> {
    match size {
        None => Some(ReplyView::Plain(404, "not found"@)),
        Some(size) => if size > MAX_IMAGE_BYTES {
            Some(ReplyView::Plain(413, "image too large"@))
        } else {
            None
        },
    }
}

pub fn refuse_image(bytes: Option<&Vec<u8>>) -> (res: Option<Reply>)
    ensures
        web::opt_reply(res) == image_refusal(match bytes {
            Some(bytes) => Some(bytes@.len()),
            None => None,
        }),
{
    match bytes {
        None => Some(web::plain(404, "not found")),
        Some(bytes) => if bytes.len() > MAX_IMAGE_BYTES {
            Some(web::plain(413, "image too large"))
        } else {
            None
        },
    }
}

/// The type under which an image is shown.
pub fn image_media_type(content_type: Option<String>) -> (res: String)
    ensures
        res@ == match content_type {
            Some(kind) => kind@,
            None => "application/octet-stream"@,
        },
{
    match content_type {
        Some(kind) => kind,
        None => "application/octet-stream".to_owned(),
    }
}

// ---------------------------------------------------------------------------
// The page
// ---------------------------------------------------------------------------

/// The channel that is shown: the one that was asked for, else the first one.
pub open spec fn active_channel(channels: Seq<ChannelView>, asked: Option<i64>) -> (i64, Seq<char>) {
    match asked_channel(channels, asked) {
        Some(channel) => (channel.id, channel.name),
        None => if channels.len() > 0 {
            (channels[0].id, channels[0].name)
        } else {
            (1, DEFAULT_CHANNEL@)
        },
    }
}

/// The first channel with the id that was asked for.
pub open spec fn asked_channel(channels: Seq<ChannelView>, asked: Option<i64>) -> Option<ChannelView>
    decreases channels.len(),
{
    if channels.len() == 0 {
        None
    } else if Some(channels[0].id) == asked {
        Some(channels[0])
    } else {
        asked_channel(channels.skip(1), asked)
    }
}

/// Finds the channel that is shown, and its name.
pub fn find_active_channel(channels: &Vec<ChannelRow>, asked: Option<i64>) -> (res: (i64, String))
    ensures
        (res.0, res.1@) == active_channel(channel_views(channels@), asked),
{
    let ghost all = channel_views(channels@);
    if let Some(id) = asked {
        let mut i: usize = 0;
        assert(all.skip(0) =~= all);
        while i < channels.len()
            invariant
                i <= channels@.len(),
                asked == Some(id),
                all == channel_views(channels@),
                asked_channel(all.skip(i as int), asked) == asked_channel(all, asked),
            decreases channels@.len() - i,
        {
            assert(all.skip(i as int)[0] == channels@[i as int]@);
            assert(all.skip(i as int).skip(1) =~= all.skip(i + 1));
            if channels[i].id == id {
                return (channels[i].id, channels[i].name.clone());
            }
            i += 1;
        }
    } else {
        proof {
            nothing_asked_nothing_found(all);
        }
    }
    if channels.len() > 0 {
        assert(all[0] == channels@[0]@);
        (channels[0].id, channels[0].name.clone())
    } else {
        (1, DEFAULT_CHANNEL.to_owned())
    }
}

proof fn nothing_asked_nothing_found(channels: Seq<ChannelView>)
    ensures
        asked_channel(channels, None) is None,
    decreases channels.len(),
{
    if channels.len() > 0 {
        nothing_asked_nothing_found(channels.skip(1));
    }
}

/// A channel in the list; the last one cannot be deleted.
pub open spec fn channel_text(channel: ChannelView, active: i64, several: bool) -> Seq<char> {
    "<div class=\"channel-row"@ + if channel.id == active {
        " active"@
    } else {
        ""@
    } + "\"><a class=\"channel-link\" href=\"/notes?channel="@ + decimal::decimal(
        channel.id as int,
    ) + "\"><span>#</span>"@ + html::escaped(channel.name) + "</a>"@ + if several {
        "<form action=\"/notes/channels/"@ + decimal::decimal(channel.id as int)
            + "/delete\" method=\"post\"><button class=\"icon danger-icon\" type=\"submit\" aria-label=\"Delete channel "@
            + html::escaped(channel.name) + "\">x</button></form>"@
    } else {
        ""@
    } + "</div>"@
}

pub open spec fn channels_text(channels: Seq<ChannelView>, active: i64, several: bool) -> Seq<char>
    decreases channels.len(),
{
    if channels.len() == 0 {
        ""@
    } else {
        channels_text(channels.drop_last(), active, several) + channel_text(
            channels.last(),
            active,
            several,
        )
    }
}

/// A note on the page.
pub open spec fn note_text(note: NoteView) -> Seq<char> {
    "<article class=\"message\">\n  <div class=\"message-avatar\">#</div>\n  <div class=\"message-body\">\n    <div class=\"message-meta\"><strong>"@
        + html::escaped(note.channel) + "</strong><form action=\"/notes/"@ + decimal::decimal(
        note.id as int,
    )
        + "/delete\" method=\"post\"><button class=\"icon danger-icon\" type=\"submit\" aria-label=\"Delete message\">x</button></form></div>\n    "@
        + html::paragraph(note.body) + if note.has_image {
        "<img class=\"message-image\" src=\"/notes/images/"@ + decimal::decimal(note.id as int)
            + "\" alt=\"\">"@
    } else {
        ""@
    } + "\n  </div>\n</article>"@
}

/// Notes on the page, the last one first.
pub open spec fn articles(notes: Seq<NoteView>) -> Seq<char>
    decreases notes.len(),
{
    if notes.len() == 0 {
        ""@
    } else {
        articles(notes.skip(1)) + note_text(notes[0])
    }
}

pub open spec fn notes_text(notes: Seq<NoteView>, channel: Seq<char>) -> Seq<char> {
    if notes.len() == 0 {
        "<p class=\"empty\">No messages in #"@ + html::escaped(channel) + " yet.</p>"@
    } else {
        articles(notes)
    }
}

/// The page of a channel.
pub open spec fn page_body(channels: Seq<ChannelView>, notes: Seq<NoteView>, id: i64, name: Seq<char>) -> Seq<
    char,
> {
    let label = html::escaped(name);
    "\n<nav><a href=\"/\">Plugdeck</a><strong>Notes</strong></nav>\n<main class=\"chat-shell\">\n  <aside class=\"channel-rail\" aria-label=\"Channels\">\n    <div class=\"rail-title\">Channels</div>\n    <div class=\"channel-list\">"@
        + channels_text(channels, id, channels.len() > 1)
        + "</div>\n    <details class=\"channel-add\">\n      <summary>Add channel</summary>\n      <form action=\"/notes/channels\" method=\"post\" class=\"channel-form\">\n        <input name=\"name\" maxlength=\"40\" placeholder=\"Channel name\" required>\n        <button type=\"submit\">Add</button>\n      </form>\n    </details>\n  </aside>\n  <section class=\"chat-pane\">\n    <header class=\"chat-head\"><strong># "@
        + label + "</strong><span>"@ + decimal::decimal(notes.len() as int)
        + " messages</span></header>\n    <div class=\"message-list\">"@ + notes_text(notes, name)
        + "</div>\n    <form action=\"/notes\" method=\"post\" enctype=\"multipart/form-data\" class=\"composer\">\n      <input name=\"channel_id\" type=\"hidden\" value=\""@
        + decimal::decimal(id as int)
        + "\">\n      <textarea name=\"body\" maxlength=\"262144\" placeholder=\"Message #"@ + label
        + "\"></textarea>\n      <label class=\"file-pill\"><input name=\"image\" type=\"file\" accept=\"image/png,image/jpeg,image/gif,image/webp\"><span>Image</span></label>\n      <button type=\"submit\">Send</button>\n    </form>\n  </section>\n</main>\n<script>\nconst messages = document.querySelector(\".message-list\");\nif (messages) messages.scrollTop = messages.scrollHeight;\n</script>\n"@
}

fn channel_html(channel: &ChannelRow, active: i64, several: bool) -> (res: String)
    ensures
        res@ == channel_text(channel@, active, several),
{
    let id = decimal::integer_text(channel.id);
    let name = html::html_escape(channel.name.as_str());
    let mut out = String::from_str("<div class=\"channel-row");
    if channel.id == active {
        out.append(" active");
    } else {
        out.append("");
    }
    out.append("\"><a class=\"channel-link\" href=\"/notes?channel=");
    out.append(id.as_str());
    out.append("\"><span>#</span>");
    out.append(name.as_str());
    out.append("</a>");
    let delete = if several {
        let mut form = String::from_str("<form action=\"/notes/channels/");
        form.append(id.as_str());
        form.append(
            "/delete\" method=\"post\"><button class=\"icon danger-icon\" type=\"submit\" aria-label=\"Delete channel ",
        );
        form.append(name.as_str());
        form.append("\">x</button></form>");
        form
    } else {
        "".to_owned()
    };
    out.append(delete.as_str());
    out.append("</div>");
    out
}

fn channels_html(channels: &Vec<ChannelRow>, active: i64) -> (res: String)
    ensures
        res@ == channels_text(channel_views(channels@), active, channels@.len() > 1),
{
    let ghost all = channel_views(channels@);
    let several = channels.len() > 1;
    let mut out = "".to_owned();
    let mut i: usize = 0;
    while i < channels.len()
        invariant
            i <= channels@.len(),
            all == channel_views(channels@),
            several == (channels@.len() > 1),
            out@ == channels_text(all.take(i as int), active, several),
        decreases channels@.len() - i,
    {
        assert(all.take(i + 1).drop_last() =~= all.take(i as int));
        out.append(channel_html(&channels[i], active, several).as_str());
        i += 1;
    }
    assert(all.take(i as int) =~= all);
    out
}

fn note_html(note: &NoteRow) -> (res: String)
    ensures
        res@ == note_text(note@),
{
    let id = decimal::integer_text(note.id);
    let mut out = String::from_str(
        "<article class=\"message\">\n  <div class=\"message-avatar\">#</div>\n  <div class=\"message-body\">\n    <div class=\"message-meta\"><strong>",
    );
    out.append(html::html_escape(note.channel.as_str()).as_str());
    out.append("</strong><form action=\"/notes/");
    out.append(id.as_str());
    out.append(
        "/delete\" method=\"post\"><button class=\"icon danger-icon\" type=\"submit\" aria-label=\"Delete message\">x</button></form></div>\n    ",
    );
    out.append(html::paragraph_html(note.body.as_str()).as_str());
    let image = if note.has_image {
        let mut image = String::from_str("<img class=\"message-image\" src=\"/notes/images/");
        image.append(id.as_str());
        image.append("\" alt=\"\">");
        image
    } else {
        "".to_owned()
    };
    out.append(image.as_str());
    out.append("\n  </div>\n</article>");
    out
}

fn notes_html(notes: &Vec<NoteRow>, channel: &str) -> (res: String)
    ensures
        res@ == notes_text(note_views(notes@), channel@),
{
    if notes.len() == 0 {
        let mut out = String::from_str("<p class=\"empty\">No messages in #");
        out.append(html::html_escape(channel).as_str());
        out.append(" yet.</p>");
        return out;
    }
    let ghost all = note_views(notes@);
    let mut out = "".to_owned();
    let mut i: usize = notes.len();
    assert(all.skip(i as int) =~= Seq::empty());
    while i > 0
        invariant
            i <= notes@.len(),
            all == note_views(notes@),
            out@ == articles(all.skip(i as int)),
        decreases i,
    {
        i -= 1;
        assert(all.skip(i as int).skip(1) =~= all.skip(i + 1));
        assert(all.skip(i as int)[0] == notes@[i as int]@);
        out.append(note_html(&notes[i]).as_str());
    }
    assert(all.skip(0) =~= all);
    out
}

/// The page of a channel, whose newest note comes first in the list and last on the page.
pub fn notes_page(channels: &Vec<ChannelRow>, notes: &Vec<NoteRow>, id: i64, name: &str) -> (res: Reply)
    ensures
        res@ == ReplyView::Page(
            "Notes"@,
            page_body(channel_views(channels@), note_views(notes@), id, name@),
        ),
{
    let label = html::html_escape(name);
    let mut out = String::from_str(
        "\n<nav><a href=\"/\">Plugdeck</a><strong>Notes</strong></nav>\n<main class=\"chat-shell\">\n  <aside class=\"channel-rail\" aria-label=\"Channels\">\n    <div class=\"rail-title\">Channels</div>\n    <div class=\"channel-list\">",
    );
    out.append(channels_html(channels, id).as_str());
    out.append(
        "</div>\n    <details class=\"channel-add\">\n      <summary>Add channel</summary>\n      <form action=\"/notes/channels\" method=\"post\" class=\"channel-form\">\n        <input name=\"name\" maxlength=\"40\" placeholder=\"Channel name\" required>\n        <button type=\"submit\">Add</button>\n      </form>\n    </details>\n  </aside>\n  <section class=\"chat-pane\">\n    <header class=\"chat-head\"><strong># ",
    );
    out.append(label.as_str());
    out.append("</strong><span>");
    out.append(decimal::size_text(notes.len()).as_str());
    out.append(" messages</span></header>\n    <div class=\"message-list\">");
    out.append(notes_html(notes, name).as_str());
    out.append(
        "</div>\n    <form action=\"/notes\" method=\"post\" enctype=\"multipart/form-data\" class=\"composer\">\n      <input name=\"channel_id\" type=\"hidden\" value=\"",
    );
    out.append(decimal::integer_text(id).as_str());
    out.append(
        "\">\n      <textarea name=\"body\" maxlength=\"262144\" placeholder=\"Message #",
    );
    out.append(label.as_str());
    out.append(
        "\"></textarea>\n      <label class=\"file-pill\"><input name=\"image\" type=\"file\" accept=\"image/png,image/jpeg,image/gif,image/webp\"><span>Image</span></label>\n      <button type=\"submit\">Send</button>\n    </form>\n  </section>\n</main>\n<script>\nconst messages = document.querySelector(\".message-list\");\nif (messages) messages.scrollTop = messages.scrollHeight;\n</script>\n",
    );
    Reply::Page("Notes".to_owned(), out)
}

// ---------------------------------------------------------------------------
// What holds of notes
// ---------------------------------------------------------------------------

/// The channel that is shown is one of the channels, wherever there are any.
pub proof fn the_active_channel_exists(channels: Seq<ChannelView>, asked: Option<i64>)
    requires
        channels.len() > 0,
    ensures
        exists|i: int|
            0 <= i < channels.len() && (#[trigger] channels[i]).id == active_channel(
                channels,
                asked,
            ).0 && channels[i].name == active_channel(channels, asked).1,
{
    found_channels_exist(channels, asked);
    match asked_channel(channels, asked) {
        Some(channel) => {
            let i = choose|i: int| 0 <= i < channels.len() && channels[i] == channel;
            assert(channels[i].id == channel.id);
        },
        None => {
            assert(channels[0].id == active_channel(channels, asked).0);
        },
    }
}

proof fn found_channels_exist(channels: Seq<ChannelView>, asked: Option<i64>)
    ensures
        asked_channel(channels, asked) matches Some(channel) ==> channels.contains(channel),
    decreases channels.len(),
{
    if channels.len() > 0 {
        found_channels_exist(channels.skip(1), asked);
        if Some(channels[0].id) == asked {
            assert(channels[0] == asked_channel(channels, asked).unwrap());
        } else if let Some(channel) = asked_channel(channels, asked) {
            let i = choose|i: int| 0 <= i < channels.skip(1).len() && channels.skip(1)[i] == channel;
            assert(channels[i + 1] == channel);
        }
    }
}

/// A note that is kept says something: it has a text or an image.
pub proof fn kept_notes_say_something(body: Seq<char>, has_image: bool)
    requires
        note_accepted(body, has_image),
    ensures
        !text::is_blank(body) || has_image,
{
}

/// The notes' page of a channel names the channel; any other is the page without
/// one.
pub proof fn locations_name_channels(id: i64)
    ensures
        location(None) == "/notes"@,
        id <= 0 ==> location(Some(id)) == "/notes"@,
        id > 0 ==> location(Some(id)) == "/notes?channel="@ + decimal::decimal(id as int),
{
}

/// A channel's name is kept without the white space around it, where it has from
/// one to forty characters.
pub proof fn channels_have_short_names(value: Seq<char>)
    ensures
        text::is_blank(value) ==> channel_name(value) is None,
        1 <= text::trimmed(value).len() <= 40 ==> channel_name(value) == Some(text::trimmed(value)),
        text::trimmed(value).len() > 40 ==> channel_name(value) is None,
{
}

/// An image is taken where it is of one of four kinds, not empty, and not larger
/// than five mebibytes.
pub proof fn images_of_four_kinds_are_taken(kind: Seq<char>, size: nat)
    ensures
        takes_image(Some(kind), size) <==> (kind == "image/gif"@ || kind == "image/jpeg"@ || kind
            == "image/png"@ || kind == "image/webp"@) && 1 <= size <= 5_242_880,
        !takes_image(None, size),
{
}

/// A note is taken where it says something or has an image, and is not too long,
/// white space around it aside.
pub proof fn notes_are_taken_up_to_their_length(body: Seq<char>, has_image: bool)
    ensures
        note_accepted(body, has_image) <==> (!text::is_blank(body) || has_image)
            && vstd::utf8::encode_utf8(text::trimmed(body)).len() <= 262_144,
{
}

/// An image is shown where it is there and not too large.
pub proof fn large_images_are_refused(size: nat)
    ensures
        image_refusal(None) == Some(ReplyView::Plain(404, "not found"@)),
        size <= 5_242_880 ==> image_refusal(Some(size)) is None,
        size > 5_242_880 ==> image_refusal(Some(size)) == Some(
            ReplyView::Plain(413, "image too large"@),
        ),
{
}

/// The fields of the form are known by their names.
pub proof fn fields_have_names(name: Seq<char>)
    ensures
        field_of(name) == NoteField::Channel <==> name == "channel_id"@,
        field_of(name) == NoteField::Body <==> name == "body"@,
        field_of(name) == NoteField::Image <==> name == "image"@,
{
    reveal_strlit("channel_id");
    reveal_strlit("body");
    reveal_strlit("image");
    assert("channel_id"@.len() == 10 && "body"@.len() == 4 && "image"@.len() == 5);
}

/// The channel that is asked for is shown where it is there; else the first is,
/// and without any the general one.
pub proof fn the_asked_channel_is_shown(channels: Seq<ChannelView>, asked: i64, i: int)
    requires
        0 <= i < channels.len(),
    ensures
        channels[i].id == asked && (forall|j: int|
            0 <= j < i ==> (#[trigger] channels[j]).id != asked) ==> active_channel(
            channels,
            Some(asked),
        ) == (channels[i].id, channels[i].name),
        (forall|j: int| 0 <= j < channels.len() ==> (#[trigger] channels[j]).id != asked)
            ==> active_channel(channels, Some(asked)) == (channels[0].id, channels[0].name),
        active_channel(channels, None) == (channels[0].id, channels[0].name),
        active_channel(Seq::empty(), Some(asked)) == (1i64, "general"@),
{
    asked_is_first(channels, asked, i);
    none_is_asked(channels);
}

proof fn none_is_asked(channels: Seq<ChannelView>)
    ensures
        asked_channel(channels, None) is None,
    decreases channels.len(),
{
    if channels.len() > 0 {
        none_is_asked(channels.skip(1));
    }
}

proof fn asked_is_first(channels: Seq<ChannelView>, asked: i64, i: int)
    ensures
        0 <= i < channels.len() && channels[i].id == asked && (forall|j: int|
            0 <= j < i ==> (#[trigger] channels[j]).id != asked) ==> asked_channel(
            channels,
            Some(asked),
        ) == Some(channels[i]),
        (forall|j: int| 0 <= j < channels.len() ==> (#[trigger] channels[j]).id != asked)
            ==> asked_channel(channels, Some(asked)) is None,
    decreases channels.len(),
{
    if channels.len() > 0 {
        let rest = channels.skip(1);
        asked_is_first(rest, asked, i - 1);
        if forall|j: int| 0 <= j < channels.len() ==> (#[trigger] channels[j]).id != asked {
            assert forall|j: int| 0 <= j < rest.len() implies (#[trigger] rest[j]).id != asked by {
                assert(rest[j] == channels[j + 1]);
            }
            assert(channels[0].id != asked);
        }
        if 0 < i < channels.len() && channels[i].id == asked && (forall|j: int|
            0 <= j < i ==> (#[trigger] channels[j]).id != asked) {
            assert(rest[i - 1] == channels[i]);
            assert(channels[0].id != asked);
            assert forall|j: int| 0 <= j < i - 1 implies (#[trigger] rest[j]).id != asked by {
                assert(rest[j] == channels[j + 1]);
            }
        }
    }
}

/// Notes are shown in the order of time: the first of the list, which is the
/// latest, comes last.
pub proof fn the_latest_note_comes_last(
    later: Seq<NoteView>,
    earlier: Seq<NoteView>,
    note: NoteView,
    channel: Seq<char>,
)
    ensures
        articles(later + earlier) == articles(earlier) + articles(later),
        articles(seq![note]) == note_text(note),
        later.len() > 0 ==> notes_text(later, channel) == articles(later),
        notes_text(Seq::empty(), channel) == "<p class=\"empty\">No messages in #"@ + html::escaped(
            channel,
        ) + " yet.</p>"@,
    decreases later.len(),
{
    reveal_strlit("");
    let none = Seq::<NoteView>::empty();
    assert(articles(none) =~= Seq::<char>::empty());
    assert(seq![note].skip(1) =~= none);
    assert(articles(seq![note]) =~= note_text(note));
    if later.len() == 0 {
        assert(later + earlier =~= earlier);
        assert(articles(earlier) + articles(later) =~= articles(earlier));
    } else {
        the_latest_note_comes_last(later.skip(1), earlier, note, channel);
        assert((later + earlier).skip(1) =~= later.skip(1) + earlier);
        assert(articles(later + earlier) =~= articles(earlier) + articles(later));
    }
}

/// A note shows its text, escaped, and its image where it has one, and can be
/// deleted by its number.
#[verifier::rlimit(50)]
#[verifier::spinoff_prover]
pub proof fn notes_show_their_text(note: NoteView)
    ensures
        text::has_text(note_text(note), html::paragraph(note.body)),
        text::has_text(note_text(note), html::escaped(note.channel)),
        text::has_text(note_text(note), decimal::decimal(note.id as int)),
        note.has_image ==> text::has_text(
            note_text(note),
            "<img class=\"message-image\" src=\"/notes/images/"@ + decimal::decimal(note.id as int)
                + "\" alt=\"\">"@,
        ),
        !note.has_image ==> note_text(NoteView { has_image: true, ..note }) != note_text(note),
{
    reveal_strlit("");
    let head = "<article class=\"message\">\n  <div class=\"message-avatar\">#</div>\n  <div class=\"message-body\">\n    <div class=\"message-meta\"><strong>"@;
    let channel = html::escaped(note.channel);
    let form = "</strong><form action=\"/notes/"@;
    let id = decimal::decimal(note.id as int);
    let button = "/delete\" method=\"post\"><button class=\"icon danger-icon\" type=\"submit\" aria-label=\"Delete message\">x</button></form></div>\n    "@;
    let body = html::paragraph(note.body);
    let shown = "<img class=\"message-image\" src=\"/notes/images/"@ + id + "\" alt=\"\">"@;
    let image = if note.has_image {
        shown
    } else {
        ""@
    };
    let end = "\n  </div>\n</article>"@;
    let p1 = head + channel;
    let p2 = p1 + form;
    let p3 = p2 + id;
    let p4 = p3 + button;
    let p5 = p4 + body;
    let p6 = p5 + image;
    assert(note_text(note) == p6 + end);
    text::longer_texts_keep_their_parts(head, channel, Seq::empty());
    text::longer_texts_keep_their_parts(p1, channel, form);
    text::longer_texts_keep_their_parts(p2, channel, id);
    text::longer_texts_keep_their_parts(p3, channel, button);
    text::longer_texts_keep_their_parts(p4, channel, body);
    text::longer_texts_keep_their_parts(p5, channel, image);
    text::longer_texts_keep_their_parts(p6, channel, end);
    text::longer_texts_keep_their_parts(p2, id, Seq::empty());
    text::longer_texts_keep_their_parts(p3, id, button);
    text::longer_texts_keep_their_parts(p4, id, body);
    text::longer_texts_keep_their_parts(p5, id, image);
    text::longer_texts_keep_their_parts(p6, id, end);
    text::longer_texts_keep_their_parts(p4, body, Seq::empty());
    text::longer_texts_keep_their_parts(p5, body, image);
    text::longer_texts_keep_their_parts(p6, body, end);
    text::longer_texts_keep_their_parts(p5, image, Seq::empty());
    text::longer_texts_keep_their_parts(p6, image, end);
    if !note.has_image {
        assert(note_text(note).len() == p5.len() + end.len());
        assert(note_text(NoteView { has_image: true, ..note }) == p5 + shown + end);
        assert(shown.len() > 0) by {
            reveal_strlit("\" alt=\"\">");
        }
    }
}

/// A channel is marked exactly where it is the one that is shown, and can be
/// deleted exactly where it is not the only one; channels keep their order.
pub proof fn channels_are_listed_in_order(
    channels: Seq<ChannelView>,
    channel: ChannelView,
    active: i64,
    several: bool,
)
    ensures
        channels_text(channels.push(channel), active, several) == channels_text(
            channels,
            active,
            several,
        ) + channel_text(channel, active, several),
        channels_text(Seq::empty(), active, several) == ""@,
        channel_text(channel, active, several) == "<div class=\"channel-row"@ + if channel.id
            == active {
            " active"@
        } else {
            ""@
        } + "\"><a class=\"channel-link\" href=\"/notes?channel="@ + decimal::decimal(
            channel.id as int,
        ) + "\"><span>#</span>"@ + html::escaped(channel.name) + "</a>"@ + if several {
            "<form action=\"/notes/channels/"@ + decimal::decimal(channel.id as int)
                + "/delete\" method=\"post\"><button class=\"icon danger-icon\" type=\"submit\" aria-label=\"Delete channel "@
                + html::escaped(channel.name) + "\">x</button></form>"@
        } else {
            ""@
        } + "</div>"@,
{
    assert(channels.push(channel).drop_last() =~= channels);
}

/// The page shows the channels, the notes and how many there are; a channel can
/// be deleted where there are several.
#[verifier::rlimit(50)]
#[verifier::spinoff_prover]
pub proof fn the_page_shows_channels_and_notes(
    channels: Seq<ChannelView>,
    notes: Seq<NoteView>,
    id: i64,
    name: Seq<char>,
)
    ensures
        ({
            let page = page_body(channels, notes, id, name);
            &&& channels.len() <= 1 ==> text::has_text(page, channels_text(channels, id, false))
            &&& channels.len() > 1 ==> text::has_text(page, channels_text(channels, id, true))
            &&& text::has_text(page, notes_text(notes, name))
            &&& text::has_text(page, decimal::decimal(notes.len() as int))
            &&& text::has_text(page, html::escaped(name))
            &&& text::has_text(page, decimal::decimal(id as int))
        }),
{
    let label = html::escaped(name);
    let p0 = "\n<nav><a href=\"/\">Plugdeck</a><strong>Notes</strong></nav>\n<main class=\"chat-shell\">\n  <aside class=\"channel-rail\" aria-label=\"Channels\">\n    <div class=\"rail-title\">Channels</div>\n    <div class=\"channel-list\">"@;
    let rail = channels_text(channels, id, channels.len() > 1);
    let p2 = "</div>\n    <details class=\"channel-add\">\n      <summary>Add channel</summary>\n      <form action=\"/notes/channels\" method=\"post\" class=\"channel-form\">\n        <input name=\"name\" maxlength=\"40\" placeholder=\"Channel name\" required>\n        <button type=\"submit\">Add</button>\n      </form>\n    </details>\n  </aside>\n  <section class=\"chat-pane\">\n    <header class=\"chat-head\"><strong># "@;
    let label1 = label;
    let p4 = "</strong><span>"@;
    let count = decimal::decimal(notes.len() as int);
    let p6 = " messages</span></header>\n    <div class=\"message-list\">"@;
    let list = notes_text(notes, name);
    let p8 = "</div>\n    <form action=\"/notes\" method=\"post\" enctype=\"multipart/form-data\" class=\"composer\">\n      <input name=\"channel_id\" type=\"hidden\" value=\""@;
    let number = decimal::decimal(id as int);
    let p10 = "\">\n      <textarea name=\"body\" maxlength=\"262144\" placeholder=\"Message #"@;
    let label2 = label;
    let p12 = "\"></textarea>\n      <label class=\"file-pill\"><input name=\"image\" type=\"file\" accept=\"image/png,image/jpeg,image/gif,image/webp\"><span>Image</span></label>\n      <button type=\"submit\">Send</button>\n    </form>\n  </section>\n</main>\n<script>\nconst messages = document.querySelector(\".message-list\");\nif (messages) messages.scrollTop = messages.scrollHeight;\n</script>\n"@;
    let t0 = p0;
    let t1 = t0 + rail;
    let t2 = t1 + p2;
    let t3 = t2 + label1;
    let t4 = t3 + p4;
    let t5 = t4 + count;
    let t6 = t5 + p6;
    let t7 = t6 + list;
    let t8 = t7 + p8;
    let t9 = t8 + number;
    let t10 = t9 + p10;
    let t11 = t10 + label2;
    let t12 = t11 + p12;
    assert(page_body(channels, notes, id, name) == t12);
    text::longer_texts_keep_their_parts(t0, rail, Seq::empty());
    text::longer_texts_keep_their_parts(t1, rail, p2);
    text::longer_texts_keep_their_parts(t2, rail, label1);
    text::longer_texts_keep_their_parts(t3, rail, p4);
    text::longer_texts_keep_their_parts(t4, rail, count);
    text::longer_texts_keep_their_parts(t5, rail, p6);
    text::longer_texts_keep_their_parts(t6, rail, list);
    text::longer_texts_keep_their_parts(t7, rail, p8);
    text::longer_texts_keep_their_parts(t8, rail, number);
    text::longer_texts_keep_their_parts(t9, rail, p10);
    text::longer_texts_keep_their_parts(t10, rail, label2);
    text::longer_texts_keep_their_parts(t11, rail, p12);
    text::longer_texts_keep_their_parts(t6, list, Seq::empty());
    text::longer_texts_keep_their_parts(t7, list, p8);
    text::longer_texts_keep_their_parts(t8, list, number);
    text::longer_texts_keep_their_parts(t9, list, p10);
    text::longer_texts_keep_their_parts(t10, list, label2);
    text::longer_texts_keep_their_parts(t11, list, p12);
    text::longer_texts_keep_their_parts(t4, count, Seq::empty());
    text::longer_texts_keep_their_parts(t5, count, p6);
    text::longer_texts_keep_their_parts(t6, count, list);
    text::longer_texts_keep_their_parts(t7, count, p8);
    text::longer_texts_keep_their_parts(t8, count, number);
    text::longer_texts_keep_their_parts(t9, count, p10);
    text::longer_texts_keep_their_parts(t10, count, label2);
    text::longer_texts_keep_their_parts(t11, count, p12);
    text::longer_texts_keep_their_parts(t2, label1, Seq::empty());
    text::longer_texts_keep_their_parts(t3, label1, p4);
    text::longer_texts_keep_their_parts(t4, label1, count);
    text::longer_texts_keep_their_parts(t5, label1, p6);
    text::longer_texts_keep_their_parts(t6, label1, list);
    text::longer_texts_keep_their_parts(t7, label1, p8);
    text::longer_texts_keep_their_parts(t8, label1, number);
    text::longer_texts_keep_their_parts(t9, label1, p10);
    text::longer_texts_keep_their_parts(t10, label1, label2);
    text::longer_texts_keep_their_parts(t11, label1, p12);
    text::longer_texts_keep_their_parts(t8, number, Seq::empty());
    text::longer_texts_keep_their_parts(t9, number, p10);
    text::longer_texts_keep_their_parts(t10, number, label2);
    text::longer_texts_keep_their_parts(t11, number, p12);
}

} // verus!
