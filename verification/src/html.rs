//! Text on its way into HTML.

use vstd::prelude::*;
use vstd::string::StringExecFns;

use crate::text;

verus! {

/// What stands for one character in HTML.
pub open spec fn entity(c: char) -> Seq<char> {
    if c == '&' {
        "&amp;"@
    } else if c == '<' {
        "&lt;"@
    } else if c == '>' {
        "&gt;"@
    } else if c == '"' {
        "&quot;"@
    } else {
        seq![c]
    }
}

/// What stands for a text in HTML, in an element or in a quoted attribute.
pub open spec fn escaped(s: Seq<char>) -> Seq<char>
    decreases s.len(),
{
    if s.len() == 0 {
        s
    } else {
        escaped(s.drop_last()) + entity(s.last())
    }
}

pub fn html_escape(value: &str) -> (res: String)
    ensures
        res@ == escaped(value@),
{
    let chars = text::chars_of(value);
    let mut out: String = String::new();
    let mut i: usize = 0;
    assert(out@ =~= escaped(value@.take(0)));
    while i < chars.len()
        invariant
            i <= chars@.len(),
            chars@ == value@,
            out@ == escaped(value@.take(i as int)),
        decreases chars@.len() - i,
    {
        assert(value@.take(i + 1).drop_last() =~= value@.take(i as int));
        let c = chars[i];
        if c == '&' {
            out.append("&amp;");
        } else if c == '<' {
            out.append("&lt;");
        } else if c == '>' {
            out.append("&gt;");
        } else if c == '"' {
            out.append("&quot;");
        } else {
            let ghost before = out@;
            out.push(c);
            assert(out@ =~= before + entity(c));
        }
        i += 1;
    }
    assert(value@.take(i as int) =~= value@);
    out
}

/// A text in HTML with its line feeds as line breaks.
pub open spec fn escaped_lines(s: Seq<char>) -> Seq<char> {
    text::replaced(escaped(s), '\n', "<br>"@)
}

/// A paragraph of the text; nothing where the text is blank.
pub open spec fn paragraph(s: Seq<char>) -> Seq<char> {
    if text::is_blank(s) {
        ""@
    } else {
        "<p>"@ + escaped_lines(s) + "</p>"@
    }
}

pub fn paragraph_html(body: &str) -> (res: String)
    ensures
        res@ == paragraph(body@),
{
    if text::blank(body) {
        return "".to_owned();
    }
    let lines = text::replace(html_escape(body).as_str(), '\n', "<br>");
    let mut out = String::from_str("<p>");
    out.append(lines.as_str());
    out.append("</p>");
    out
}

// ---------------------------------------------------------------------------
// What holds of escaped text
// ---------------------------------------------------------------------------

/// A character that has a meaning of its own in HTML.
pub open spec fn is_markup(c: char) -> bool {
    c == '<' || c == '>' || c == '"'
}

/// The text that an escaped text stands for.
pub open spec fn unescaped(s: Seq<char>) -> Seq<char>
    decreases s.len(),
{
    proof {
        reveal_strlit("&amp;");
        reveal_strlit("&lt;");
        reveal_strlit("&gt;");
        reveal_strlit("&quot;");
    }
    if s.len() == 0 {
        s
    } else if text::has_prefix(s, "&amp;"@) {
        seq!['&'] + unescaped(s.skip(5))
    } else if text::has_prefix(s, "&lt;"@) {
        seq!['<'] + unescaped(s.skip(4))
    } else if text::has_prefix(s, "&gt;"@) {
        seq!['>'] + unescaped(s.skip(4))
    } else if text::has_prefix(s, "&quot;"@) {
        seq!['"'] + unescaped(s.skip(6))
    } else {
        seq![s[0]] + unescaped(s.skip(1))
    }
}

proof fn entity_shape(c: char)
    ensures
        forall|i: int| 0 <= i < entity(c).len() ==> !is_markup(#[trigger] entity(c)[i]),
        entity(c).len() > 0,
{
    reveal_strlit("&amp;");
    reveal_strlit("&lt;");
    reveal_strlit("&gt;");
    reveal_strlit("&quot;");
}

/// Escaped text holds no character with a meaning of its own: no text can open
/// or close an element or end an attribute.
pub proof fn escaping_leaves_no_markup(s: Seq<char>)
    ensures
        forall|i: int| 0 <= i < escaped(s).len() ==> !is_markup(#[trigger] escaped(s)[i]),
    decreases s.len(),
{
    if s.len() > 0 {
        escaping_leaves_no_markup(s.drop_last());
        entity_shape(s.last());
        let head = escaped(s.drop_last());
        assert forall|i: int| 0 <= i < escaped(s).len() implies !is_markup(
            #[trigger] escaped(s)[i],
        ) by {
            if i < head.len() {
                assert(escaped(s)[i] == head[i]);
            } else {
                assert(escaped(s)[i] == entity(s.last())[i - head.len()]);
            }
        }
    }
}

/// The escaped text of two texts in a row is their escaped texts in a row.
pub proof fn escaping_goes_piece_by_piece(a: Seq<char>, b: Seq<char>)
    ensures
        escaped(a + b) == escaped(a) + escaped(b),
    decreases b.len(),
{
    if b.len() == 0 {
        assert(a + b =~= a);
        assert(escaped(a) + escaped(b) =~= escaped(a));
    } else {
        assert((a + b).drop_last() =~= a + b.drop_last());
        escaping_goes_piece_by_piece(a, b.drop_last());
        assert(escaped(a) + (escaped(b.drop_last()) + entity(b.last())) =~= escaped(a) + escaped(
            b.drop_last(),
        ) + entity(b.last()));
    }
}

proof fn unescaping_an_entity(c: char, rest: Seq<char>)
    ensures
        unescaped(entity(c) + rest) == seq![c] + unescaped(rest),
{
    reveal_strlit("&amp;");
    reveal_strlit("&lt;");
    reveal_strlit("&gt;");
    reveal_strlit("&quot;");
    let s = entity(c) + rest;
    assert(s.skip(entity(c).len() as int) =~= rest);
    assert(s[0] == entity(c)[0]);
    if c == '&' {
        assert(s.take(5) =~= "&amp;"@);
    } else if c == '<' {
        assert(s.take(4) =~= "&lt;"@);
        if text::has_prefix(s, "&amp;"@) {
            assert(s.take(5)[1] == 'a');
        }
    } else if c == '>' {
        assert(s.take(4) =~= "&gt;"@);
        if text::has_prefix(s, "&amp;"@) {
            assert(s.take(5)[1] == 'a');
        }
        if text::has_prefix(s, "&lt;"@) {
            assert(s.take(4)[1] == 'l');
        }
    } else if c == '"' {
        assert(s.take(6) =~= "&quot;"@);
        if text::has_prefix(s, "&amp;"@) {
            assert(s.take(5)[1] == 'a');
        }
        if text::has_prefix(s, "&lt;"@) {
            assert(s.take(4)[1] == 'l');
        }
        if text::has_prefix(s, "&gt;"@) {
            assert(s.take(4)[1] == 'g');
        }
    } else {
        if text::has_prefix(s, "&amp;"@) {
            assert(s.take(5)[0] == '&');
        }
        if text::has_prefix(s, "&lt;"@) {
            assert(s.take(4)[0] == '&');
        }
        if text::has_prefix(s, "&gt;"@) {
            assert(s.take(4)[0] == '&');
        }
        if text::has_prefix(s, "&quot;"@) {
            assert(s.take(6)[0] == '&');
        }
    }
}

/// An escaped text shows as the text it was made from.
pub proof fn escaping_can_be_undone(s: Seq<char>)
    ensures
        unescaped(escaped(s)) == s,
    decreases s.len(),
{
    if s.len() > 0 {
        assert(s =~= seq![s[0]] + s.skip(1));
        escaping_goes_piece_by_piece(seq![s[0]], s.skip(1));
        assert(seq![s[0]].drop_last() =~= Seq::<char>::empty());
        assert(escaped(seq![s[0]].drop_last()) =~= Seq::<char>::empty());
        assert(escaped(seq![s[0]]) =~= entity(s[0]));
        unescaping_an_entity(s[0], escaped(s.skip(1)));
        escaping_can_be_undone(s.skip(1));
    }
}

/// The four characters of markup are written by their names; every other
/// character stands for itself.
pub proof fn markup_is_written_by_name(c: char)
    ensures
        escaped(seq!['&']) == "&amp;"@,
        escaped(seq!['<']) == "&lt;"@,
        escaped(seq!['>']) == "&gt;"@,
        escaped(seq!['"']) == "&quot;"@,
        c != '&' && c != '<' && c != '>' && c != '"' ==> escaped(seq![c]) == seq![c],
{
    one_is_escaped('&');
    one_is_escaped('<');
    one_is_escaped('>');
    one_is_escaped('"');
    one_is_escaped(c);
}

proof fn one_is_escaped(c: char)
    ensures
        escaped(seq![c]) == entity(c),
{
    let none = Seq::<char>::empty();
    assert(seq![c].drop_last() =~= none);
    assert(escaped(none) == none);
    assert(none + entity(c) =~= entity(c));
}

/// A paragraph holds its lines, escaped and with a break between two of them; a
/// blank text makes none.
pub proof fn paragraphs_break_their_lines(s: Seq<char>, a: Seq<char>, b: Seq<char>)
    ensures
        text::is_blank(s) ==> paragraph(s) == ""@,
        !text::is_blank(s) ==> paragraph(s) == "<p>"@ + escaped_lines(s) + "</p>"@,
        escaped_lines(a + seq!['\n'] + b) == escaped_lines(a) + "<br>"@ + escaped_lines(b),
        !escaped(a).contains('\n') ==> escaped_lines(a) == escaped(a),
{
    let n = seq!['\n'];
    escaping_goes_piece_by_piece(a + n, b);
    escaping_goes_piece_by_piece(a, n);
    one_is_escaped('\n');
    text::replacing_goes_by_characters(escaped(a) + n, escaped(b), '\n', "<br>"@, 'a');
    text::replacing_goes_by_characters(escaped(a), n, '\n', "<br>"@, 'a');
    if !escaped(a).contains('\n') {
        nothing_is_replaced(escaped(a), "<br>"@);
    }
}

proof fn nothing_is_replaced(s: Seq<char>, with: Seq<char>)
    requires
        !s.contains('\n'),
    ensures
        text::replaced(s, '\n', with) == s,
    decreases s.len(),
{
    if s.len() > 0 {
        let front = s.drop_last();
        assert forall|i: int| 0 <= i < front.len() implies front[i] != '\n' by {
            assert(s.contains(s[i]));
        }
        assert(s.contains(s[s.len() - 1]));
        nothing_is_replaced(front, with);
        assert(front + seq![s.last()] =~= s);
    } else {
        assert(text::replaced(s, '\n', with) =~= s);
    }
}

} // verus!
