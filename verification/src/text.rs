//! Text as character sequences: classes, trimming, searching, splitting, joining.
//!
//! A `str` or `String` is modelled by its view, a `Seq<char>`. Every executable
//! function here is stated over a spec function on such sequences.

use vstd::prelude::*;
use vstd::string::StrSliceExecFns;
use vstd::string::StringExecFns;

verus! {

/// `String::push` appends one character at the end.
pub assume_specification[ String::push ](s: &mut String, c: char)
    ensures
        final(s)@ == old(s)@.push(c),
;

// ---------------------------------------------------------------------------
// Character classes
// ---------------------------------------------------------------------------

/// The characters with the Unicode property `White_Space`.
pub open spec fn is_space(c: char) -> bool {
    ||| '\u{9}' <= c <= '\u{d}'
    ||| c == ' '
    ||| c == '\u{85}'
    ||| c == '\u{a0}'
    ||| c == '\u{1680}'
    ||| '\u{2000}' <= c <= '\u{200a}'
    ||| c == '\u{2028}'
    ||| c == '\u{2029}'
    ||| c == '\u{202f}'
    ||| c == '\u{205f}'
    ||| c == '\u{3000}'
}

pub open spec fn is_digit(c: char) -> bool {
    '0' <= c <= '9'
}

pub open spec fn is_alnum(c: char) -> bool {
    is_digit(c) || 'a' <= c <= 'z' || 'A' <= c <= 'Z'
}

pub open spec fn is_ascii_char(c: char) -> bool {
    c <= '\u{7f}'
}

pub open spec fn is_control(c: char) -> bool {
    c <= '\u{1f}' || c == '\u{7f}'
}

/// A set of characters, named by the rule that uses it.
#[derive(Clone, Copy, Debug, PartialEq, Eq, Structural)]
pub enum CharSet {
    /// White space.
    Space,
    /// One character.
    Only(char),
    /// Carriage return and line feed.
    LineEnd,
    /// Letters, digits, `-` and `_` of ASCII.
    SlotName,
    /// Letters, digits, `.`, `-` and `_` of ASCII.
    FileName,
    /// ASCII without the double quote.
    Unquoted,
    /// ASCII without the double quote and without control characters.
    Printable,
    /// ASCII digits and `.`.
    DigitDot,
}

impl CharSet {
    pub open spec fn has(self, c: char) -> bool {
        match self {
            CharSet::Space => is_space(c),
            CharSet::Only(d) => c == d,
            CharSet::LineEnd => c == '\r' || c == '\n',
            CharSet::SlotName => is_alnum(c) || c == '-' || c == '_',
            CharSet::FileName => is_alnum(c) || c == '.' || c == '-' || c == '_',
            CharSet::Unquoted => is_ascii_char(c) && c != '"',
            CharSet::Printable => is_ascii_char(c) && !is_control(c) && c != '"',
            CharSet::DigitDot => is_digit(c) || c == '.',
        }
    }

    pub fn holds(&self, c: char) -> (res: bool)
        ensures
            res == self.has(c),
    {
        let alnum = ('0' <= c && c <= '9') || ('a' <= c && c <= 'z') || ('A' <= c && c <= 'Z');
        match *self {
            CharSet::Space => space(c),
            CharSet::Only(d) => c == d,
            CharSet::LineEnd => c == '\r' || c == '\n',
            CharSet::SlotName => alnum || c == '-' || c == '_',
            CharSet::FileName => alnum || c == '.' || c == '-' || c == '_',
            CharSet::Unquoted => c <= '\u{7f}' && c != '"',
            CharSet::Printable => c <= '\u{7f}' && !(c <= '\u{1f}' || c == '\u{7f}') && c != '"',
            CharSet::DigitDot => ('0' <= c && c <= '9') || c == '.',
        }
    }
}

/// Whether a character is an ASCII digit.
pub fn digit(c: char) -> (res: bool)
    ensures
        res == is_digit(c),
{
    '0' <= c && c <= '9'
}

/// Whether a character is white space.
pub fn space(c: char) -> (res: bool)
    ensures
        res == is_space(c),
{
    ('\u{9}' <= c && c <= '\u{d}') || c == ' ' || c == '\u{85}' || c == '\u{a0}' || c == '\u{1680}'
        || ('\u{2000}' <= c && c <= '\u{200a}') || c == '\u{2028}' || c == '\u{2029}' || c
        == '\u{202f}' || c == '\u{205f}' || c == '\u{3000}'
}

/// Every character of `s` belongs to `set`.
pub open spec fn all_in(s: Seq<char>, set: CharSet) -> bool {
    forall|i: int| 0 <= i < s.len() ==> set.has(#[trigger] s[i])
}

/// The characters of `s` that belong to `set`, in order.
pub open spec fn kept(s: Seq<char>, set: CharSet) -> Seq<char>
    decreases s.len(),
{
    if s.len() == 0 {
        Seq::empty()
    } else if set.has(s.last()) {
        kept(s.drop_last(), set).push(s.last())
    } else {
        kept(s.drop_last(), set)
    }
}

/// What is kept of a text belongs to the set.
pub proof fn kept_belongs(s: Seq<char>, set: CharSet)
    ensures
        all_in(kept(s, set), set),
    decreases s.len(),
{
    if s.len() > 0 {
        kept_belongs(s.drop_last(), set);
    }
}

/// A text, or another where there is none.
pub open spec fn text_or(value: Option<Seq<char>>, other: Seq<char>) -> Seq<char> {
    match value {
        Some(value) => value,
        None => other,
    }
}

/// The list of one text where a condition holds, and of none otherwise.
pub open spec fn when(holds: bool, s: Seq<char>) -> Seq<Seq<char>> {
    if holds {
        seq![s]
    } else {
        Seq::empty()
    }
}

/// The ASCII lower case of one character.
pub open spec fn lower_char(c: char) -> char {
    if 'A' <= c <= 'Z' {
        ((c as u32) + 32) as char
    } else {
        c
    }
}

/// `s` with its ASCII upper-case letters in lower case.
pub open spec fn lowered(s: Seq<char>) -> Seq<char> {
    s.map_values(|c: char| lower_char(c))
}

// ---------------------------------------------------------------------------
// Between strings and character vectors
// ---------------------------------------------------------------------------

pub fn chars_of(s: &str) -> (res: Vec<char>)
    ensures
        res@ == s@,
{
    let mut out: Vec<char> = Vec::new();
    for c in it: s.chars()
        invariant
            out@ == it.seq().take(it.index()),
            it.seq() == s@,
    {
        out.push(c);
    }
    assert(out@ =~= s@);
    out
}

/// The string of the characters `from..to`.
pub fn text_of(chars: &Vec<char>, from: usize, to: usize) -> (res: String)
    requires
        from <= to <= chars@.len(),
    ensures
        res@ == chars@.subrange(from as int, to as int),
{
    let mut out: String = String::new();
    let mut i: usize = from;
    while i < to
        invariant
            from <= i <= to <= chars@.len(),
            out@ == chars@.subrange(from as int, i as int),
        decreases to - i,
    {
        out.push(chars[i]);
        i += 1;
        assert(out@ =~= chars@.subrange(from as int, i as int));
    }
    out
}

/// Equality of two strings.
pub fn same(a: &str, b: &str) -> (res: bool)
    ensures
        res == (a@ == b@),
{
    a.to_owned() == b.to_owned()
}

/// The views of a list of strings.
pub open spec fn texts(list: Seq<String>) -> Seq<Seq<char>> {
    list.map_values(|s: String| s@)
}

/// The view of an optional string.
pub open spec fn opt_text(s: Option<String>) -> Option<Seq<char>> {
    match s {
        Some(t) => Some(t@),
        None => None,
    }
}

/// The view of an optional string slice.
pub open spec fn opt_str(s: Option<&str>) -> Option<Seq<char>> {
    match s {
        Some(t) => Some(t@),
        None => None,
    }
}

/// Puts a text at the end of a list.
pub fn push_text(list: &mut Vec<String>, s: String)
    ensures
        texts(final(list)@) == texts(old(list)@).push(s@),
{
    list.push(s);
    assert(texts(list@) =~= texts(old(list)@).push(s@));
}

// ---------------------------------------------------------------------------
// Mapping and filtering
// ---------------------------------------------------------------------------

pub fn low(c: char) -> (res: char)
    ensures
        res == lower_char(c),
{
    if 'A' <= c && c <= 'Z' {
        ((c as u8) + 32) as char
    } else {
        c
    }
}

/// The string with its ASCII upper-case letters in lower case.
pub fn lower(s: &str) -> (res: String)
    ensures
        res@ == lowered(s@),
{
    let chars = chars_of(s);
    let mut out: String = String::new();
    let mut i: usize = 0;
    while i < chars.len()
        invariant
            i <= chars@.len(),
            chars@ == s@,
            out@ == lowered(s@.take(i as int)),
        decreases chars.len() - i,
    {
        out.push(low(chars[i]));
        i += 1;
        assert(out@ =~= lowered(s@.take(i as int)));
    }
    assert(s@.take(i as int) =~= s@);
    out
}

/// Whether two strings are equal up to ASCII case.
pub fn same_lower(a: &str, b: &str) -> (res: bool)
    ensures
        res == (lowered(a@) == lowered(b@)),
{
    lower(a) == lower(b)
}

/// The characters of the string that belong to `set`, in order.
pub fn keep(s: &str, set: CharSet) -> (res: String)
    ensures
        res@ == kept(s@, set),
{
    let chars = chars_of(s);
    let mut out: String = String::new();
    let mut i: usize = 0;
    while i < chars.len()
        invariant
            i <= chars@.len(),
            chars@ == s@,
            out@ == kept(s@.take(i as int), set),
        decreases chars.len() - i,
    {
        assert(s@.take(i + 1).drop_last() =~= s@.take(i as int));
        if set.holds(chars[i]) {
            out.push(chars[i]);
        }
        i += 1;
    }
    assert(s@.take(i as int) =~= s@);
    out
}

pub fn all_within(s: &str, set: CharSet) -> (res: bool)
    ensures
        res == all_in(s@, set),
{
    let chars = chars_of(s);
    let mut i: usize = 0;
    while i < chars.len()
        invariant
            i <= chars@.len(),
            chars@ == s@,
            forall|j: int| 0 <= j < i ==> set.has(#[trigger] s@[j]),
        decreases chars.len() - i,
    {
        if !set.holds(chars[i]) {
            return false;
        }
        i += 1;
    }
    true
}

// ---------------------------------------------------------------------------
// Trimming
// ---------------------------------------------------------------------------

/// `s` without its leading characters of `set`.
pub open spec fn trimmed_start(s: Seq<char>, set: CharSet) -> Seq<char>
    decreases s.len(),
{
    if s.len() > 0 && set.has(s[0]) {
        trimmed_start(s.skip(1), set)
    } else {
        s
    }
}

/// `s` without its trailing characters of `set`.
pub open spec fn trimmed_end(s: Seq<char>, set: CharSet) -> Seq<char>
    decreases s.len(),
{
    if s.len() > 0 && set.has(s.last()) {
        trimmed_end(s.drop_last(), set)
    } else {
        s
    }
}

/// `s` without its leading and trailing characters of `set`.
pub open spec fn trimmed_of(s: Seq<char>, set: CharSet) -> Seq<char> {
    trimmed_end(trimmed_start(s, set), set)
}

/// `s` without its leading and trailing white space.
pub open spec fn trimmed(s: Seq<char>) -> Seq<char> {
    trimmed_of(s, CharSet::Space)
}

/// Nothing but white space.
pub open spec fn is_blank(s: Seq<char>) -> bool {
    trimmed(s).len() == 0
}

pub fn trim_start<'a>(s: &'a str, set: CharSet) -> (res: &'a str)
    ensures
        res@ == trimmed_start(s@, set),
{
    let chars = chars_of(s);
    let mut i: usize = 0;
    assert(s@.skip(0) =~= s@);
    while i < chars.len() && set.holds(chars[i])
        invariant
            i <= chars@.len(),
            chars@ == s@,
            trimmed_start(s@, set) == trimmed_start(s@.skip(i as int), set),
        decreases chars.len() - i,
    {
        assert(s@.skip(i as int).skip(1) =~= s@.skip(i + 1));
        i += 1;
    }
    assert(s@.subrange(i as int, s@.len() as int) =~= s@.skip(i as int));
    s.substring_char(i, chars.len())
}

pub fn trim_end<'a>(s: &'a str, set: CharSet) -> (res: &'a str)
    ensures
        res@ == trimmed_end(s@, set),
{
    let chars = chars_of(s);
    let mut i: usize = chars.len();
    assert(s@.take(s@.len() as int) =~= s@);
    while i > 0 && set.holds(chars[i - 1])
        invariant
            i <= chars@.len(),
            chars@ == s@,
            trimmed_end(s@, set) == trimmed_end(s@.take(i as int), set),
        decreases i,
    {
        assert(s@.take(i as int).drop_last() =~= s@.take(i - 1));
        i -= 1;
    }
    assert(s@.subrange(0, i as int) =~= s@.take(i as int));
    s.substring_char(0, i)
}

pub fn trim_of<'a>(s: &'a str, set: CharSet) -> (res: &'a str)
    ensures
        res@ == trimmed_of(s@, set),
{
    trim_end(trim_start(s, set), set)
}

/// The string without the white space around it.
pub fn trim<'a>(s: &'a str) -> (res: &'a str)
    ensures
        res@ == trimmed(s@),
{
    trim_of(s, CharSet::Space)
}

/// Whether the string holds nothing but white space.
pub fn blank(s: &str) -> (res: bool)
    ensures
        res == is_blank(s@),
{
    trim(s).is_empty()
}

// ---------------------------------------------------------------------------
// Searching
// ---------------------------------------------------------------------------

pub open spec fn has_prefix(s: Seq<char>, p: Seq<char>) -> bool {
    p.len() <= s.len() && s.take(p.len() as int) == p
}

pub open spec fn has_suffix(s: Seq<char>, p: Seq<char>) -> bool {
    p.len() <= s.len() && s.skip(s.len() - p.len()) == p
}

/// `p` stands in `s` at `i`.
pub open spec fn occurs_at(s: Seq<char>, p: Seq<char>, i: int) -> bool {
    0 <= i && i + p.len() <= s.len() && s.subrange(i, i + p.len()) == p
}

/// `p` stands somewhere in `s`.
pub open spec fn has_text(s: Seq<char>, p: Seq<char>) -> bool {
    exists|i: int| occurs_at(s, p, i)
}

/// The place of the first `p` in `s`.
pub open spec fn first_text(s: Seq<char>, p: Seq<char>) -> Option<int>
    decreases s.len(),
{
    if occurs_at(s, p, 0) {
        Some(0)
    } else if s.len() == 0 {
        None
    } else {
        match first_text(s.skip(1), p) {
            Some(i) => Some(i + 1),
            None => None,
        }
    }
}

/// The place of the first `c` in `s`.
pub open spec fn first_char(s: Seq<char>, c: char) -> Option<int>
    decreases s.len(),
{
    if s.len() == 0 {
        None
    } else if s[0] == c {
        Some(0)
    } else {
        match first_char(s.skip(1), c) {
            Some(i) => Some(i + 1),
            None => None,
        }
    }
}

/// How often `p` stands in `s`, counted from the left without overlap.
pub open spec fn text_count(s: Seq<char>, p: Seq<char>) -> nat
    decreases s.len(),
{
    match first_text(s, p) {
        Some(i) => if 0 < p.len() && 0 <= i && i + p.len() <= s.len() {
            1 + text_count(s.skip(i + p.len()), p)
        } else {
            0
        },
        None => 0,
    }
}

/// `first_text` is the least place at which the text occurs.
pub proof fn first_text_is_least(s: Seq<char>, p: Seq<char>)
    ensures
        match first_text(s, p) {
            Some(i) => occurs_at(s, p, i) && forall|j: int| 0 <= j < i ==> !occurs_at(s, p, j),
            None => !has_text(s, p),
        },
    decreases s.len(),
{
    if occurs_at(s, p, 0) {
    } else if s.len() == 0 {
        assert forall|i: int| !occurs_at(s, p, i) by {
            if occurs_at(s, p, i) {
                assert(i == 0);
            }
        }
    } else {
        let t = s.skip(1);
        first_text_is_least(t, p);
        assert forall|j: int| 1 <= j implies occurs_at(s, p, j) == occurs_at(t, p, j - 1) by {
            if j + p.len() <= s.len() {
                assert(s.subrange(j, j + p.len()) =~= t.subrange(j - 1, j - 1 + p.len()));
            }
        }
        match first_text(t, p) {
            Some(i) => {
                assert(occurs_at(s, p, i + 1));
                assert forall|j: int| 0 <= j < i + 1 implies !occurs_at(s, p, j) by {
                    if j > 0 {
                        assert(!occurs_at(t, p, j - 1));
                    }
                }
            },
            None => {
                assert forall|j: int| !occurs_at(s, p, j) by {
                    if j > 0 {
                        assert(!occurs_at(t, p, j - 1));
                    }
                }
            },
        }
    }
}

/// `first_char` is the least place at which the character stands.
pub proof fn first_char_is_least(s: Seq<char>, c: char)
    ensures
        match first_char(s, c) {
            Some(i) => 0 <= i < s.len() && s[i] == c && forall|j: int|
                0 <= j < i ==> #[trigger] s[j] != c,
            None => forall|j: int| 0 <= j < s.len() ==> #[trigger] s[j] != c,
        },
    decreases s.len(),
{
    if s.len() > 0 && s[0] != c {
        let t = s.skip(1);
        first_char_is_least(t, c);
        assert forall|j: int| 1 <= j < s.len() implies #[trigger] s[j] == t[j - 1] by {}
    }
}

/// A least place at which the character stands is `first_char`.
pub proof fn first_char_at(s: Seq<char>, c: char, i: int)
    requires
        0 <= i < s.len(),
        s[i] == c,
        forall|j: int| 0 <= j < i ==> #[trigger] s[j] != c,
    ensures
        first_char(s, c) == Some(i),
{
    first_char_is_least(s, c);
}

pub fn starts_with(s: &str, p: &str) -> (res: bool)
    ensures
        res == has_prefix(s@, p@),
{
    let n = p.unicode_len();
    if n > s.unicode_len() {
        return false;
    }
    assert(s@.subrange(0, n as int) =~= s@.take(n as int));
    same(s.substring_char(0, n), p)
}

pub fn ends_with(s: &str, p: &str) -> (res: bool)
    ensures
        res == has_suffix(s@, p@),
{
    let n = p.unicode_len();
    let m = s.unicode_len();
    if n > m {
        return false;
    }
    assert(s@.subrange(m - n, m as int) =~= s@.skip(m - n));
    same(s.substring_char(m - n, m), p)
}

/// What follows the prefix `p`.
pub fn strip_prefix<'a>(s: &'a str, p: &str) -> (res: Option<&'a str>)
    ensures
        opt_str(res) == if has_prefix(s@, p@) {
            Some(s@.skip(p@.len() as int))
        } else {
            None
        },
{
    if !starts_with(s, p) {
        return None;
    }
    let n = p.unicode_len();
    let m = s.unicode_len();
    assert(s@.subrange(n as int, m as int) =~= s@.skip(n as int));
    Some(s.substring_char(n, m))
}

fn stands_at(s: &Vec<char>, p: &Vec<char>, at: usize) -> (res: bool)
    requires
        at <= s@.len(),
    ensures
        res == occurs_at(s@, p@, at as int),
{
    if p.len() > s.len() - at {
        return false;
    }
    let mut i: usize = 0;
    while i < p.len()
        invariant
            i <= p@.len(),
            at + p@.len() <= s@.len() <= usize::MAX,
            forall|j: int| 0 <= j < i ==> s@[at + j] == #[trigger] p@[j],
        decreases p.len() - i,
    {
        if s[at + i] != p[i] {
            assert(s@.subrange(at as int, at + p@.len())[i as int] != p@[i as int]);
            return false;
        }
        i += 1;
    }
    assert(s@.subrange(at as int, at + p@.len()) =~= p@);
    true
}

/// The place of the first `p` in `s`, in characters.
pub fn find(s: &str, p: &str) -> (res: Option<usize>)
    ensures
        match res {
            Some(i) => first_text(s@, p@) == Some(i as int) && occurs_at(s@, p@, i as int),
            None => first_text(s@, p@) is None,
        },
{
    let chars = chars_of(s);
    let needle = chars_of(p);
    let mut i: usize = 0;
    assert(s@.skip(0) =~= s@);
    loop
        invariant
            i <= chars@.len(),
            chars@ == s@,
            needle@ == p@,
            first_text(s@, p@) == match first_text(s@.skip(i as int), p@) {
                Some(k) => Some(k + i),
                None => None,
            },
        decreases chars.len() - i,
    {
        let ghost rest = s@.skip(i as int);
        proof {
            assert(occurs_at(rest, p@, 0) == occurs_at(s@, p@, i as int)) by {
                if i + p@.len() <= s@.len() {
                    assert(rest.subrange(0, p@.len() as int) =~= s@.subrange(
                        i as int,
                        i + p@.len(),
                    ));
                }
            }
            if i < s@.len() {
                assert(rest.skip(1) =~= s@.skip(i + 1));
            }
        }
        if stands_at(&chars, &needle, i) {
            return Some(i);
        }
        if i == chars.len() {
            return None;
        }
        i += 1;
    }
}

pub fn contains(s: &str, p: &str) -> (res: bool)
    ensures
        res == has_text(s@, p@),
{
    proof {
        first_text_is_least(s@, p@);
    }
    find(s, p).is_some()
}

/// The place of the first `c` in `s`, in characters.
pub fn find_char(s: &str, c: char) -> (res: Option<usize>)
    ensures
        match res {
            Some(i) => first_char(s@, c) == Some(i as int) && i < s@.len(),
            None => first_char(s@, c) is None,
        },
{
    let chars = chars_of(s);
    let mut i: usize = 0;
    while i < chars.len()
        invariant
            i <= chars@.len(),
            chars@ == s@,
            forall|j: int| 0 <= j < i ==> #[trigger] s@[j] != c,
        decreases chars.len() - i,
    {
        if chars[i] == c {
            proof {
                first_char_at(s@, c, i as int);
            }
            return Some(i);
        }
        i += 1;
    }
    proof {
        first_char_is_least(s@, c);
    }
    None
}

/// How often `p` stands in `s`, counted from the left without overlap.
pub fn count_text(s: &str, p: &str) -> (res: usize)
    requires
        p@.len() > 0,
    ensures
        res == text_count(s@, p@),
{
    let total = s.unicode_len();
    let step = p.unicode_len();
    let mut at: usize = 0;
    let mut n: usize = 0;
    assert(s@.skip(0) =~= s@);
    loop
        invariant
            p@.len() > 0,
            step == p@.len(),
            total == s@.len(),
            at <= total,
            n <= at,
            text_count(s@, p@) == n + text_count(s@.skip(at as int), p@),
        decreases total - at,
    {
        let rest = s.substring_char(at, total);
        assert(rest@ =~= s@.skip(at as int));
        match find(rest, p) {
            None => {
                return n;
            },
            Some(i) => {
                assert(rest@.skip(i + p@.len()) =~= s@.skip(at + i + p@.len()));
                n += 1;
                at = at + i + step;
            },
        }
    }
}

// ---------------------------------------------------------------------------
// Splitting
// ---------------------------------------------------------------------------

/// What stands before and after the first `c`.
pub open spec fn split_at_first(s: Seq<char>, c: char) -> Option<(Seq<char>, Seq<char>)> {
    match first_char(s, c) {
        Some(i) => Some((s.take(i), s.skip(i + 1))),
        None => None,
    }
}

/// The pieces of `s` between the characters `c`.
pub open spec fn split_on(s: Seq<char>, c: char) -> Seq<Seq<char>>
    decreases s.len(),
{
    match first_char(s, c) {
        Some(i) => if 0 <= i < s.len() {
            seq![s.take(i)] + split_on(s.skip(i + 1), c)
        } else {
            seq![s]
        },
        None => seq![s],
    }
}

/// What follows the last `c`, or all of `s` where there is none.
pub open spec fn after_last(s: Seq<char>, c: char) -> Seq<char>
    decreases s.len(),
{
    if s.len() == 0 || s.last() == c {
        Seq::empty()
    } else {
        after_last(s.drop_last(), c).push(s.last())
    }
}

/// The view of an optional pair of string slices.
pub open spec fn opt_pair(pair: Option<(&str, &str)>) -> Option<(Seq<char>, Seq<char>)> {
    match pair {
        Some((a, b)) => Some((a@, b@)),
        None => None,
    }
}

pub fn split_once<'a>(s: &'a str, c: char) -> (res: Option<(&'a str, &'a str)>)
    ensures
        opt_pair(res) == split_at_first(s@, c),
{
    match find_char(s, c) {
        Some(i) => {
            let n = s.unicode_len();
            assert(s@.subrange(0, i as int) =~= s@.take(i as int));
            assert(s@.subrange(i + 1, n as int) =~= s@.skip(i + 1));
            Some((s.substring_char(0, i), s.substring_char(i + 1, n)))
        },
        None => None,
    }
}

/// The pieces between the characters `c`.
pub fn split(s: &str, c: char) -> (res: Vec<String>)
    ensures
        texts(res@) == split_on(s@, c),
{
    let total = s.unicode_len();
    let mut out: Vec<String> = Vec::new();
    let mut at: usize = 0;
    assert(s@.skip(0) =~= s@);
    assert(texts(out@) + split_on(s@, c) =~= split_on(s@, c));
    loop
        invariant
            total == s@.len(),
            at <= total,
            split_on(s@, c) == texts(out@) + split_on(s@.skip(at as int), c),
        decreases total - at,
    {
        let rest = s.substring_char(at, total);
        assert(rest@ =~= s@.skip(at as int));
        let ghost before = out@;
        match find_char(rest, c) {
            None => {
                out.push(rest.to_owned());
                assert(texts(out@) =~= texts(before) + seq![rest@]);
                return out;
            },
            Some(i) => {
                let piece = rest.substring_char(0, i).to_owned();
                assert(piece@ =~= rest@.take(i as int));
                assert(rest@.skip(i + 1) =~= s@.skip(at + i + 1));
                out.push(piece);
                assert(texts(out@) =~= texts(before) + seq![rest@.take(i as int)]);
                assert(texts(out@) + split_on(s@.skip(at + i + 1), c) =~= texts(before) + (seq![
                    rest@.take(i as int),
                ] + split_on(s@.skip(at + i + 1), c)));
                at = at + i + 1;
            },
        }
    }
}

/// What follows the last `c`, or the whole string where there is none.
pub fn last_part<'a>(s: &'a str, c: char) -> (res: &'a str)
    ensures
        res@ == after_last(s@, c),
{
    let chars = chars_of(s);
    let n = chars.len();
    let mut i: usize = n;
    assert(s@.take(n as int) =~= s@);
    assert(after_last(s@, c) =~= after_last(s@, c) + s@.subrange(n as int, n as int));
    while i > 0 && chars[i - 1] != c
        invariant
            i <= n,
            n == chars@.len(),
            chars@ == s@,
            after_last(s@, c) == after_last(s@.take(i as int), c) + s@.subrange(i as int, n as int),
        decreases i,
    {
        let ghost head = s@.take(i as int);
        assert(head.drop_last() =~= s@.take(i - 1));
        assert(after_last(head.drop_last(), c).push(head.last()) + s@.subrange(i as int, n as int)
            =~= after_last(s@.take(i - 1), c) + s@.subrange(i - 1, n as int));
        i -= 1;
    }
    assert(after_last(s@.take(i as int), c) =~= Seq::<char>::empty());
    assert(after_last(s@, c) =~= s@.subrange(i as int, n as int));
    s.substring_char(i, n)
}

/// The number of leading characters outside `set`.
pub open spec fn run_outside(s: Seq<char>, set: CharSet) -> nat
    decreases s.len(),
{
    if s.len() > 0 && !set.has(s[0]) {
        1 + run_outside(s.skip(1), set)
    } else {
        0
    }
}

proof fn run_outside_fits(s: Seq<char>, set: CharSet)
    ensures
        run_outside(s, set) <= s.len(),
        s.len() > 0 && !set.has(s[0]) ==> run_outside(s, set) > 0,
    decreases s.len(),
{
    if s.len() > 0 && !set.has(s[0]) {
        run_outside_fits(s.skip(1), set);
    }
}

proof fn trimmed_start_fits(s: Seq<char>, set: CharSet)
    ensures
        trimmed_start(s, set).len() <= s.len(),
        trimmed_start(s, set).len() > 0 ==> !set.has(trimmed_start(s, set)[0]),
    decreases s.len(),
{
    if s.len() > 0 && set.has(s[0]) {
        trimmed_start_fits(s.skip(1), set);
    }
}

/// The words of `s`: its longest pieces without white space.
pub open spec fn words(s: Seq<char>) -> Seq<Seq<char>>
    decreases s.len(),
    via words_shrink
{
    let t = trimmed_start(s, CharSet::Space);
    let n = run_outside(t, CharSet::Space);
    if t.len() == 0 {
        Seq::empty()
    } else {
        seq![t.take(n as int)] + words(t.skip(n as int))
    }
}

#[via_fn]
proof fn words_shrink(s: Seq<char>) {
    let t = trimmed_start(s, CharSet::Space);
    trimmed_start_fits(s, CharSet::Space);
    run_outside_fits(t, CharSet::Space);
}

fn run_length(s: &str, set: CharSet) -> (res: usize)
    ensures
        res == run_outside(s@, set),
        res <= s@.len(),
{
    let chars = chars_of(s);
    let mut i: usize = 0;
    assert(s@.skip(0) =~= s@);
    while i < chars.len() && !set.holds(chars[i])
        invariant
            i <= chars@.len(),
            chars@ == s@,
            run_outside(s@, set) == i + run_outside(s@.skip(i as int), set),
        decreases chars.len() - i,
    {
        assert(s@.skip(i as int).skip(1) =~= s@.skip(i + 1));
        i += 1;
    }
    i
}

/// The words of the string.
pub fn split_words(s: &str) -> (res: Vec<String>)
    ensures
        texts(res@) == words(s@),
{
    let mut out: Vec<String> = Vec::new();
    let mut rest: &str = s;
    assert(texts(out@) + words(s@) =~= words(s@));
    loop
        invariant
            words(s@) == texts(out@) + words(rest@),
        decreases rest@.len(),
    {
        let t = trim_start(rest, CharSet::Space);
        proof {
            trimmed_start_fits(rest@, CharSet::Space);
            run_outside_fits(t@, CharSet::Space);
        }
        if t.is_empty() {
            assert(texts(out@) + words(rest@) =~= texts(out@));
            return out;
        }
        let n = run_length(t, CharSet::Space);
        let total = t.unicode_len();
        let ghost before = out@;
        let ghost tail = words(t@.skip(n as int));
        let word = t.substring_char(0, n).to_owned();
        assert(word@ =~= t@.take(n as int));
        out.push(word);
        assert(texts(out@) =~= texts(before) + seq![t@.take(n as int)]);
        assert(texts(out@) + tail =~= texts(before) + (seq![t@.take(n as int)] + tail));
        rest = t.substring_char(n, total);
        assert(rest@ =~= t@.skip(n as int));
    }
}

/// One line without the carriage return that may end it.
pub open spec fn without_return(line: Seq<char>) -> Seq<char> {
    if line.len() > 0 && line.last() == '\r' {
        line.drop_last()
    } else {
        line
    }
}

/// The lines of `s`. A line ends at a line feed, with or without a carriage
/// return before it; what follows the last line feed is a line if it is not empty.
pub open spec fn lines_of(s: Seq<char>) -> Seq<Seq<char>>
    decreases s.len(),
{
    match first_char(s, '\n') {
        Some(i) => if 0 <= i < s.len() {
            seq![without_return(s.take(i))] + lines_of(s.skip(i + 1))
        } else {
            Seq::empty()
        },
        None => if s.len() == 0 {
            Seq::empty()
        } else {
            seq![s]
        },
    }
}

fn drop_return<'a>(line: &'a str) -> (res: &'a str)
    ensures
        res@ == without_return(line@),
{
    let n = line.unicode_len();
    if n > 0 && line.get_char(n - 1) == '\r' {
        assert(line@.subrange(0, n - 1) =~= line@.drop_last());
        line.substring_char(0, n - 1)
    } else {
        line
    }
}

/// The lines of the string.
pub fn lines(s: &str) -> (res: Vec<String>)
    ensures
        texts(res@) == lines_of(s@),
{
    let total = s.unicode_len();
    let mut out: Vec<String> = Vec::new();
    let mut at: usize = 0;
    assert(s@.skip(0) =~= s@);
    assert(texts(out@) + lines_of(s@) =~= lines_of(s@));
    loop
        invariant
            total == s@.len(),
            at <= total,
            lines_of(s@) == texts(out@) + lines_of(s@.skip(at as int)),
        decreases total - at,
    {
        let rest = s.substring_char(at, total);
        assert(rest@ =~= s@.skip(at as int));
        let ghost before = out@;
        match find_char(rest, '\n') {
            None => {
                if rest.is_empty() {
                    assert(texts(out@) + lines_of(rest@) =~= texts(out@));
                } else {
                    out.push(rest.to_owned());
                    assert(texts(out@) =~= texts(before) + seq![rest@]);
                }
                return out;
            },
            Some(i) => {
                let ghost tail = lines_of(s@.skip(at + i + 1));
                let head = rest.substring_char(0, i);
                assert(head@ =~= rest@.take(i as int));
                assert(rest@.skip(i + 1) =~= s@.skip(at + i + 1));
                let line = drop_return(head).to_owned();
                out.push(line);
                assert(texts(out@) =~= texts(before) + seq![line@]);
                assert(texts(out@) + tail =~= texts(before) + (seq![line@] + tail));
                at = at + i + 1;
            },
        }
    }
}

// ---------------------------------------------------------------------------
// Replacing and joining
// ---------------------------------------------------------------------------

/// `s` with every `c` replaced by `with`.
pub open spec fn replaced(s: Seq<char>, c: char, with: Seq<char>) -> Seq<char>
    decreases s.len(),
{
    if s.len() == 0 {
        Seq::empty()
    } else {
        replaced(s.drop_last(), c, with) + if s.last() == c {
            with
        } else {
            seq![s.last()]
        }
    }
}

pub fn replace(s: &str, c: char, with: &str) -> (res: String)
    ensures
        res@ == replaced(s@, c, with@),
{
    let chars = chars_of(s);
    let mut out: String = String::new();
    let mut i: usize = 0;
    while i < chars.len()
        invariant
            i <= chars@.len(),
            chars@ == s@,
            out@ == replaced(s@.take(i as int), c, with@),
        decreases chars.len() - i,
    {
        assert(s@.take(i + 1).drop_last() =~= s@.take(i as int));
        let ghost before = out@;
        if chars[i] == c {
            out.append(with);
        } else {
            out.push(chars[i]);
            assert(out@ =~= before + seq![chars@[i as int]]);
        }
        i += 1;
    }
    assert(s@.take(i as int) =~= s@);
    out
}

/// The pieces in order, with `sep` between neighbours.
pub open spec fn joined(parts: Seq<Seq<char>>, sep: Seq<char>) -> Seq<char>
    decreases parts.len(),
{
    if parts.len() == 0 {
        Seq::empty()
    } else if parts.len() == 1 {
        parts[0]
    } else {
        joined(parts.drop_last(), sep) + sep + parts.last()
    }
}

pub fn join(parts: &Vec<String>, sep: &str) -> (res: String)
    ensures
        res@ == joined(texts(parts@), sep@),
{
    let mut out: String = String::new();
    let mut i: usize = 0;
    let ghost all = texts(parts@);
    while i < parts.len()
        invariant
            i <= parts@.len(),
            all == texts(parts@),
            out@ == joined(all.take(i as int), sep@),
        decreases parts.len() - i,
    {
        assert(all.take(i + 1).drop_last() =~= all.take(i as int));
        if i > 0 {
            out.append(sep);
            out.append(parts[i].as_str());
        } else {
            out = parts[i].clone();
        }
        i += 1;
    }
    assert(all.take(i as int) =~= all);
    out
}

/// The first `n` characters, or all of them where there are fewer.
pub open spec fn front(s: Seq<char>, n: nat) -> Seq<char> {
    if s.len() <= n {
        s
    } else {
        s.take(n as int)
    }
}

pub fn first_chars(s: &str, n: usize) -> (res: String)
    ensures
        res@ == front(s@, n as nat),
{
    let total = s.unicode_len();
    if total <= n {
        s.to_owned()
    } else {
        assert(s@.subrange(0, n as int) =~= s@.take(n as int));
        s.substring_char(0, n).to_owned()
    }
}

// ---------------------------------------------------------------------------
// Order
// ---------------------------------------------------------------------------

/// Lexicographic order by code point, which is also the order of the UTF-8 bytes.
pub open spec fn precedes(a: Seq<char>, b: Seq<char>) -> bool
    decreases a.len(),
{
    if b.len() == 0 {
        false
    } else if a.len() == 0 {
        true
    } else if a[0] != b[0] {
        a[0] < b[0]
    } else {
        precedes(a.skip(1), b.skip(1))
    }
}

pub fn before(a: &str, b: &str) -> (res: bool)
    ensures
        res == precedes(a@, b@),
{
    let x = chars_of(a);
    let y = chars_of(b);
    let mut i: usize = 0;
    assert(a@.skip(0) =~= a@);
    assert(b@.skip(0) =~= b@);
    loop
        invariant
            x@ == a@,
            y@ == b@,
            i <= x@.len(),
            i <= y@.len(),
            precedes(a@, b@) == precedes(a@.skip(i as int), b@.skip(i as int)),
        decreases x.len() - i,
    {
        if i == y.len() {
            return false;
        }
        if i == x.len() {
            return true;
        }
        if x[i] != y[i] {
            return x[i] < y[i];
        }
        assert(a@.skip(i as int).skip(1) =~= a@.skip(i + 1));
        assert(b@.skip(i as int).skip(1) =~= b@.skip(i + 1));
        i += 1;
    }
}

/// The order of texts is total: of two different texts one precedes the other,
/// never both, and no text precedes itself.
pub proof fn text_order_is_total(a: Seq<char>, b: Seq<char>)
    ensures
        !precedes(a, a),
        precedes(a, b) ==> !precedes(b, a),
        a != b ==> precedes(a, b) || precedes(b, a),
    decreases a.len(),
{
    if a.len() > 0 {
        if b.len() > 0 {
            text_order_is_total(a.skip(1), b.skip(1));
            if a[0] == b[0] && a.skip(1) == b.skip(1) {
                assert(a =~= seq![a[0]] + a.skip(1));
                assert(b =~= seq![b[0]] + b.skip(1));
            }
        } else {
            text_order_is_total(a.skip(1), b);
        }
    } else if b.len() == 0 {
        assert(a =~= b);
    }
}

/// The order of texts is transitive.
pub proof fn text_order_is_transitive(a: Seq<char>, b: Seq<char>, c: Seq<char>)
    requires
        precedes(a, b),
        precedes(b, c),
    ensures
        precedes(a, c),
    decreases a.len(),
{
    if a.len() > 0 && a[0] == b[0] && b[0] == c[0] {
        text_order_is_transitive(a.skip(1), b.skip(1), c.skip(1));
    }
}

/// What does not precede a text does not precede what that text does not precede.
pub proof fn not_preceding_is_transitive(a: Seq<char>, b: Seq<char>, c: Seq<char>)
    requires
        !precedes(b, a),
        !precedes(c, b),
    ensures
        !precedes(c, a),
{
    if precedes(c, a) {
        text_order_is_total(a, b);
        if a != b {
            text_order_is_transitive(c, a, b);
        }
    }
}

// ---------------------------------------------------------------------------
// What holds of texts
// ---------------------------------------------------------------------------

/// Trimming takes a run of the set's characters off each end, as long as there
/// is one: the text is such a run, what stays, and another such run, and what
/// stays neither starts nor ends with a character of the set.
pub proof fn trimming_takes_runs_off_both_ends(s: Seq<char>, set: CharSet)
    ensures
        exists|a: Seq<char>, b: Seq<char>|
            s == a + trimmed_of(s, set) + b && #[trigger] all_in(a, set) && #[trigger] all_in(
                b,
                set,
            ),
        trimmed_of(s, set).len() > 0 ==> !set.has(trimmed_of(s, set)[0]) && !set.has(
            trimmed_of(s, set).last(),
        ),
        trimmed_of(trimmed_of(s, set), set) == trimmed_of(s, set),
        all_in(s, set) ==> trimmed_of(s, set).len() == 0,
{
    let t = trimmed_start(s, set);
    trimming_the_start_takes_a_run(s, set);
    trimming_the_end_takes_a_run(t, set);
    let u = trimmed_of(s, set);
    let a = choose|a: Seq<char>| s == a + t && #[trigger] all_in(a, set);
    let b = choose|b: Seq<char>| t == u + b && #[trigger] all_in(b, set);
    assert(s =~= a + u + b);
    assert(all_in(a, set) && all_in(b, set));
    if u.len() > 0 {
        assert(u[0] == t[0]);
        assert(trimmed_start(u, set) == u);
    } else {
        assert(u =~= Seq::empty());
    }
    if all_in(s, set) && u.len() > 0 {
        assert(s[a.len() as int] == u[0]);
    }
}

/// Trimming the start takes the longest run of the set's characters off it.
pub proof fn trimming_the_start_takes_a_run(s: Seq<char>, set: CharSet)
    ensures
        exists|a: Seq<char>| s == a + trimmed_start(s, set) && #[trigger] all_in(a, set),
        trimmed_start(s, set).len() > 0 ==> !set.has(trimmed_start(s, set)[0]),
    decreases s.len(),
{
    if s.len() > 0 && set.has(s[0]) {
        trimming_the_start_takes_a_run(s.skip(1), set);
        let t = trimmed_start(s, set);
        let a = choose|a: Seq<char>| s.skip(1) == a + t && #[trigger] all_in(a, set);
        let whole = seq![s[0]] + a;
        assert(s =~= whole + t) by {
            assert(s =~= seq![s[0]] + s.skip(1));
        }
        assert(all_in(whole, set));
    } else {
        let none = Seq::<char>::empty();
        assert(s =~= none + s);
        assert(all_in(none, set));
    }
}

/// Trimming the end takes the longest run of the set's characters off it.
pub proof fn trimming_the_end_takes_a_run(s: Seq<char>, set: CharSet)
    ensures
        exists|b: Seq<char>| s == trimmed_end(s, set) + b && #[trigger] all_in(b, set),
        trimmed_end(s, set).len() > 0 ==> !set.has(trimmed_end(s, set).last()),
    decreases s.len(),
{
    if s.len() > 0 && set.has(s.last()) {
        trimming_the_end_takes_a_run(s.drop_last(), set);
        let t = trimmed_end(s, set);
        let b = choose|b: Seq<char>| s.drop_last() == t + b && #[trigger] all_in(b, set);
        let whole = b.push(s.last());
        assert(s =~= t + whole) by {
            assert(s =~= s.drop_last().push(s.last()));
        }
        assert(all_in(whole, set));
    } else {
        let none = Seq::<char>::empty();
        assert(s =~= s + none);
        assert(all_in(none, set));
    }
}

/// A text is blank exactly where all of it is white space.
pub proof fn blank_texts_are_white_space(s: Seq<char>)
    ensures
        is_blank(s) <==> all_in(s, CharSet::Space),
{
    trimming_takes_runs_off_both_ends(s, CharSet::Space);
    if is_blank(s) {
        let (a, b) = choose|a: Seq<char>, b: Seq<char>|
            s == a + trimmed_of(s, CharSet::Space) + b && #[trigger] all_in(a, CharSet::Space)
                && #[trigger] all_in(b, CharSet::Space);
        assert forall|i: int| 0 <= i < s.len() implies CharSet::Space.has(#[trigger] s[i]) by {
            if i < a.len() {
                assert(s[i] == a[i]);
            } else {
                assert(s[i] == b[i - a.len()]);
            }
        }
    }
}

/// Keeping a set's characters treats each one by itself: it stays, in its place,
/// exactly where the set has it.
pub proof fn keeping_goes_by_characters(a: Seq<char>, b: Seq<char>, c: char, set: CharSet)
    ensures
        kept(a + b, set) == kept(a, set) + kept(b, set),
        kept(seq![c], set) == if set.has(c) {
            seq![c]
        } else {
            Seq::empty()
        },
        all_in(a, set) ==> kept(a, set) == a,
    decreases b.len(), a.len(),
{
    assert(seq![c].drop_last() =~= Seq::<char>::empty());
    assert(kept(Seq::<char>::empty(), set) =~= Seq::<char>::empty());
    assert(kept(seq![c], set) =~= if set.has(c) {
        seq![c]
    } else {
        Seq::empty()
    });
    keeping_keeps_all(a, set);
    if b.len() == 0 {
        assert(a + b =~= a);
        assert(kept(a, set) + kept(b, set) =~= kept(a, set));
    } else {
        keeping_goes_by_characters(a, b.drop_last(), c, set);
        assert((a + b).drop_last() =~= a + b.drop_last());
        assert(kept(a + b, set) =~= kept(a, set) + kept(b, set));
    }
}

proof fn keeping_keeps_all(a: Seq<char>, set: CharSet)
    ensures
        all_in(a, set) ==> kept(a, set) == a,
    decreases a.len(),
{
    if all_in(a, set) && a.len() > 0 {
        assert forall|i: int| 0 <= i < a.drop_last().len() implies set.has(
            #[trigger] a.drop_last()[i],
        ) by {
            assert(a.drop_last()[i] == a[i]);
        }
        keeping_keeps_all(a.drop_last(), set);
        assert(set.has(a[a.len() - 1]));
        assert(a.drop_last().push(a.last()) =~= a);
    } else {
        assert(a.len() == 0 ==> kept(a, set) =~= a);
    }
}

/// Lowering a text turns its capital letters to small ones, changes nothing else,
/// and treats texts alike that differ in case alone.
pub proof fn lowering_changes_capitals_alone(s: Seq<char>, i: int)
    requires
        0 <= i < s.len(),
    ensures
        lowered(s).len() == s.len(),
        'A' <= s[i] <= 'Z' ==> lowered(s)[i] as u32 == s[i] as u32 + 32,
        !('A' <= s[i] <= 'Z') ==> lowered(s)[i] == s[i],
        lowered(lowered(s)) == lowered(s),
{
    assert(lowered(lowered(s)) =~= lowered(s));
}

/// A text starts with another exactly where it is that text and something after
/// it, ends with it where something stands before it, and has it where something
/// stands around it.
pub proof fn parts_of_a_text(a: Seq<char>, p: Seq<char>, b: Seq<char>)
    ensures
        has_prefix(p + b, p),
        has_suffix(a + p, p),
        has_text(a + p + b, p),
{
    assert((p + b).take(p.len() as int) =~= p);
    assert((a + p).skip((a + p).len() - p.len()) =~= p);
    assert((a + p + b).subrange(a.len() as int, (a.len() + p.len()) as int) =~= p);
    assert(occurs_at(a + p + b, p, a.len() as int));
}

/// A text that starts with, ends with or has another is made of it and what
/// stands around it.
pub proof fn a_part_leaves_the_rest(s: Seq<char>, p: Seq<char>)
    ensures
        has_prefix(s, p) ==> s == p + s.skip(p.len() as int),
        has_suffix(s, p) ==> s == s.take(s.len() - p.len()) + p,
        has_text(s, p) ==> exists|i: int|
            0 <= i <= s.len() - p.len() && s == #[trigger] s.take(i) + p + s.skip(i + p.len()),
{
    if has_prefix(s, p) {
        assert(s =~= s.take(p.len() as int) + s.skip(p.len() as int));
    }
    if has_suffix(s, p) {
        assert(s =~= s.take(s.len() - p.len()) + s.skip(s.len() - p.len()));
    }
    if has_text(s, p) {
        let i = choose|i: int| occurs_at(s, p, i);
        assert(s =~= s.take(i) + s.subrange(i, i + p.len()) + s.skip(i + p.len()));
        assert(s == s.take(i) + p + s.skip(i + p.len()));
    }
}

/// The parts between a character, joined by it again, are the text, and none of
/// them has the character.
pub proof fn splitting_is_undone_by_joining(s: Seq<char>, c: char)
    ensures
        joined(split_on(s, c), seq![c]) == s,
        split_on(s, c).len() > 0,
        forall|i: int| 0 <= i < split_on(s, c).len() ==> !(#[trigger] split_on(s, c)[i]).contains(c),
    decreases s.len(),
{
    first_char_is_least(s, c);
    match first_char(s, c) {
        Some(i) => {
            let rest = split_on(s.skip(i + 1), c);
            splitting_is_undone_by_joining(s.skip(i + 1), c);
            joining_goes_by_parts(s.take(i), rest, seq![c]);
            assert(s =~= s.take(i) + seq![c] + s.skip(i + 1));
            assert forall|k: int| 0 <= k < split_on(s, c).len() implies !(#[trigger] split_on(
                s,
                c,
            )[k]).contains(c) by {
                if k == 0 {
                    assert(split_on(s, c)[k] =~= s.take(i));
                    assert forall|j: int| 0 <= j < i implies s.take(i)[j] != c by {
                        assert(s[j] != c);
                    }
                } else {
                    assert(split_on(s, c)[k] == rest[k - 1]);
                }
            }
        },
        None => {
            assert(split_on(s, c) =~= seq![s]);
            assert(joined(seq![s], seq![c]) == s);
        },
    }
}

/// Joining puts the separator between two parts that follow each other, and
/// nothing else.
pub proof fn joining_goes_by_parts(first: Seq<char>, rest: Seq<Seq<char>>, sep: Seq<char>)
    ensures
        joined(Seq::empty(), sep) == Seq::<char>::empty(),
        joined(seq![first], sep) == first,
        rest.len() > 0 ==> joined(seq![first] + rest, sep) == first + sep + joined(rest, sep),
    decreases rest.len(),
{
    if rest.len() == 1 {
        assert((seq![first] + rest).drop_last() =~= seq![first]);
        assert(joined(seq![first], sep) == first);
    } else if rest.len() > 1 {
        joining_goes_by_parts(first, rest.drop_last(), sep);
        assert((seq![first] + rest).drop_last() =~= seq![first] + rest.drop_last());
        assert(joined(seq![first] + rest, sep) =~= first + sep + joined(rest, sep));
    }
}

/// Lines end at a line feed, with a carriage return before it taken off; what
/// follows the last line feed is a line where it is not empty.
pub proof fn lines_end_at_line_feeds(a: Seq<char>, b: Seq<char>)
    requires
        !a.contains('\n'),
    ensures
        lines_of(a + seq!['\n'] + b) == seq![without_return(a)] + lines_of(b),
        a.len() > 0 ==> lines_of(a) == seq![a],
        lines_of(Seq::empty()) == Seq::<Seq<char>>::empty(),
        without_return(a.push('\r')) == a,
{
    let s = a + seq!['\n'] + b;
    assert forall|j: int| 0 <= j < a.len() implies #[trigger] s[j] != '\n' by {
        assert(s[j] == a[j]);
    }
    assert(s[a.len() as int] == '\n');
    first_char_at(s, '\n', a.len() as int);
    assert(s.take(a.len() as int) =~= a);
    assert(s.skip(a.len() as int + 1) =~= b);
    first_char_is_least(a, '\n');
    assert(a.push('\r').drop_last() =~= a);
    first_char_is_least(Seq::empty(), '\n');
}

/// Words are the runs of characters between white space.
pub proof fn words_stand_between_white_space(a: Seq<char>, c: char, b: Seq<char>)
    requires
        a.len() > 0,
        forall|i: int| 0 <= i < a.len() ==> !is_space(#[trigger] a[i]),
        is_space(c),
    ensures
        words(a) == seq![a],
        words(a + seq![c] + b) == seq![a] + words(b),
        words(seq![c] + b) == words(b),
        words(Seq::empty()) == Seq::<Seq<char>>::empty(),
{
    let none = Seq::<char>::empty();
    assert(words(none) =~= Seq::<Seq<char>>::empty());
    assert((seq![c] + b).skip(1) =~= b);
    assert(trimmed_start(seq![c] + b, CharSet::Space) == trimmed_start(b, CharSet::Space));
    assert(words(seq![c] + b) == words(b));
    run_reaches(a, none, CharSet::Space);
    assert(a + none =~= a);
    assert(a.take(a.len() as int) =~= a);
    assert(a.skip(a.len() as int) =~= none);
    assert(words(a) =~= seq![a]);
    let tail = seq![c] + b;
    let s = a + tail;
    assert(a + seq![c] + b =~= s);
    run_reaches(a, tail, CharSet::Space);
    assert(s[0] == a[0]);
    assert(s.take(a.len() as int) =~= a);
    assert(s.skip(a.len() as int) =~= tail);
}

proof fn run_reaches(a: Seq<char>, tail: Seq<char>, set: CharSet)
    requires
        forall|i: int| 0 <= i < a.len() ==> !set.has(#[trigger] a[i]),
        tail.len() > 0 ==> set.has(tail[0]),
    ensures
        run_outside(a + tail, set) == a.len(),
    decreases a.len(),
{
    let s = a + tail;
    if a.len() == 0 {
        assert(s =~= tail);
    } else {
        assert(s[0] == a[0]);
        assert(s.skip(1) =~= a.skip(1) + tail);
        run_reaches(a.skip(1), tail, set);
    }
}

/// Replacing treats each character by itself.
pub proof fn replacing_goes_by_characters(a: Seq<char>, b: Seq<char>, c: char, with: Seq<char>, d: char)
    ensures
        replaced(a + b, c, with) == replaced(a, c, with) + replaced(b, c, with),
        replaced(seq![c], c, with) == with,
        d != c ==> replaced(seq![d], c, with) == seq![d],
    decreases b.len(),
{
    let none = Seq::<char>::empty();
    assert(seq![c].drop_last() =~= none);
    assert(seq![d].drop_last() =~= none);
    assert(replaced(none, c, with) =~= none);
    assert(replaced(seq![c], c, with) =~= with);
    assert(d != c ==> replaced(seq![d], c, with) =~= seq![d]);
    if b.len() == 0 {
        assert(a + b =~= a);
        assert(replaced(a, c, with) + replaced(b, c, with) =~= replaced(a, c, with));
    } else {
        replacing_goes_by_characters(a, b.drop_last(), c, with, d);
        assert((a + b).drop_last() =~= a + b.drop_last());
        assert(replaced(a + b, c, with) =~= replaced(a, c, with) + replaced(b, c, with));
    }
}

/// What follows the last occurrence of a character has none of it, and is the
/// whole text where the text has none.
pub proof fn nothing_follows_the_last(a: Seq<char>, c: char, b: Seq<char>)
    requires
        !b.contains(c),
    ensures
        after_last(b, c) == b,
        after_last(a + seq![c] + b, c) == b,
    decreases b.len(),
{
    let s = a + seq![c] + b;
    if b.len() == 0 {
        assert(s.last() == c);
        assert(after_last(s, c) =~= b);
        assert(after_last(b, c) =~= b);
    } else {
        let front = b.drop_last();
        assert forall|i: int| 0 <= i < front.len() implies front[i] != c by {
            assert(b.contains(b[i]));
        }
        assert(b.contains(b[b.len() - 1]));
        nothing_follows_the_last(a, c, front);
        assert(s.drop_last() =~= a + seq![c] + front);
        assert(front.push(b.last()) =~= b);
    }
}

/// One text precedes another where it is its beginning, or has the smaller
/// character at the first place at which they differ.
pub proof fn the_first_difference_orders_texts(p: Seq<char>, a: Seq<char>, b: Seq<char>)
    ensures
        b.len() > 0 ==> precedes(p, p + b),
        a.len() > 0 && b.len() > 0 && a[0] != b[0] ==> (precedes(p + a, p + b) <==> a[0] < b[0]),
        !precedes(p + a, p),
    decreases p.len(),
{
    if p.len() == 0 {
        assert(p + a =~= a);
        assert(p + b =~= b);
    } else {
        the_first_difference_orders_texts(p.skip(1), a, b);
        assert((p + a).skip(1) =~= p.skip(1) + a);
        assert((p + b).skip(1) =~= p.skip(1) + b);
    }
}

/// The first characters of a text are its beginning, and all of it where it is
/// short enough.
pub proof fn fronts_are_beginnings(s: Seq<char>, n: nat)
    ensures
        front(s, n).len() <= n,
        has_prefix(s, front(s, n)),
        s.len() <= n ==> front(s, n) == s,
        s.len() > n ==> front(s, n).len() == n,
{
    assert(s.take(s.len() as int) =~= s);
}

/// A text is split at the first occurrence of a character, and only where it has
/// one.
pub proof fn splits_are_at_the_first(a: Seq<char>, c: char, b: Seq<char>)
    requires
        !a.contains(c),
    ensures
        split_at_first(a + seq![c] + b, c) == Some((a, b)),
        split_at_first(a, c) is None,
{
    let s = a + seq![c] + b;
    assert forall|j: int| 0 <= j < a.len() implies #[trigger] s[j] != c by {
        assert(s[j] == a[j]);
        assert(a.contains(a[j]));
    }
    assert(s[a.len() as int] == c);
    first_char_at(s, c, a.len() as int);
    assert(s.take(a.len() as int) =~= a);
    assert(s.skip(a.len() as int + 1) =~= b);
    first_char_is_least(a, c);
}

/// A longer text has and starts with what a shorter one at its start does.
pub proof fn longer_texts_keep_their_parts(s: Seq<char>, p: Seq<char>, rest: Seq<char>)
    ensures
        has_text(s + p, p),
        has_text(s, p) ==> has_text(s + rest, p),
        has_prefix(s, p) ==> has_prefix(s + rest, p),
{
    parts_of_a_text(s, p, Seq::empty());
    assert(s + p + Seq::<char>::empty() =~= s + p);
    if has_text(s, p) {
        let i = choose|i: int| occurs_at(s, p, i);
        assert((s + rest).subrange(i, i + p.len()) =~= s.subrange(i, i + p.len()));
        assert(occurs_at(s + rest, p, i));
    }
    if has_prefix(s, p) {
        assert((s + rest).take(p.len() as int) =~= s.take(p.len() as int));
    }
}

/// Which characters the sets have.
pub proof fn sets_have_their_characters(c: char, d: char)
    ensures
        CharSet::Space.has(' ') && CharSet::Space.has('\t') && CharSet::Space.has('\n')
            && CharSet::Space.has('\r') && CharSet::Space.has('\u{3000}'),
        '!' <= c <= '~' ==> !CharSet::Space.has(c),
        CharSet::Only(d).has(c) <==> c == d,
        CharSet::LineEnd.has(c) <==> c == '\r' || c == '\n',
        CharSet::SlotName.has(c) <==> 'a' <= c <= 'z' || 'A' <= c <= 'Z' || '0' <= c <= '9' || c
            == '-' || c == '_',
        CharSet::FileName.has(c) <==> CharSet::SlotName.has(c) || c == '.',
        CharSet::DigitDot.has(c) <==> '0' <= c <= '9' || c == '.',
        CharSet::Unquoted.has(c) <==> c as u32 <= 127 && c != '"',
        CharSet::Printable.has(c) <==> 32 <= c as u32 <= 126 && c != '"',
{
}

} // verus!
