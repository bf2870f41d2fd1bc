//! URLs, and what a request is answered.

use vstd::prelude::*;

use crate::outside;
use crate::text;

verus! {

/// The parts of a URL that the rules look at.
pub struct UrlParts {
    pub scheme: String,
    pub host: Option<String>,
    pub segments: Option<Vec<String>>,
    pub query: Vec<(String, String)>,
}

#[verifier::ext_equal]
pub struct UrlView {
    pub scheme: Seq<char>,
    pub host: Option<Seq<char>>,
    pub segments: Option<Seq<Seq<char>>>,
    pub query: Seq<(Seq<char>, Seq<char>)>,
}

pub open spec fn pair_views(pairs: Seq<(String, String)>) -> Seq<(Seq<char>, Seq<char>)> {
    pairs.map_values(|p: (String, String)| (p.0@, p.1@))
}

impl View for UrlParts {
    type V = UrlView;

    open spec fn view(&self) -> UrlView {
        UrlView {
            scheme: self.scheme@,
            host: text::opt_text(self.host),
            segments: match self.segments {
                Some(all) => Some(text::texts(all@)),
                None => None,
            },
            query: pair_views(self.query@),
        }
    }
}

/// A value as it stands in the query of a URL.
pub fn url_encode(value: &str) -> (res: String)
    ensures
        res@ == outside::form_text(vstd::utf8::encode_utf8(value@)),
{
    outside::form_encode(value)
}

/// What a request is answered.
pub enum Reply {
    /// Another place to look at.
    Redirect(String),
    /// A page: its title, and its body in HTML.
    Page(String, String),
    /// A plain text under a status code.
    Plain(u16, String),
}

#[verifier::ext_equal]
pub enum ReplyView {
    Redirect(Seq<char>),
    Page(Seq<char>, Seq<char>),
    Plain(u16, Seq<char>),
}

impl View for Reply {
    type V = ReplyView;

    open spec fn view(&self) -> ReplyView {
        match *self {
            Reply::Redirect(to) => ReplyView::Redirect(to@),
            Reply::Page(title, body) => ReplyView::Page(title@, body@),
            Reply::Plain(status, body) => ReplyView::Plain(status, body@),
        }
    }
}

pub open spec fn opt_reply(reply: Option<Reply>) -> Option<ReplyView> {
    match reply {
        Some(reply) => Some(reply@),
        None => None,
    }
}

pub fn redirect(to: &str) -> (res: Reply)
    ensures
        res@ == ReplyView::Redirect(to@),
{
    Reply::Redirect(to.to_owned())
}

pub fn plain(status: u16, body: &str) -> (res: Reply)
    ensures
        res@ == ReplyView::Plain(status, body@),
{
    Reply::Plain(status, body.to_owned())
}

} // verus!
