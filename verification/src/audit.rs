//! The audit of files that are about to become public: private paths, keys,
//! tokens, private addresses and terms of a local list.

use vstd::prelude::*;
use vstd::string::StrSliceExecFns;
use vstd::string::StringExecFns;

use crate::decimal;
use crate::paths;
use crate::text;
use crate::text::CharSet;

verus! {

/// The size in bytes above which a file is not read.
pub const MAX_AUDIT_BYTES: u64 = 1_000_000;

/// Something that should not become public, and where it stands.
#[derive(Debug)]
pub struct AuditFinding {
    pub path: String,
    pub line: Option<usize>,
    pub message: String,
}

/// A file that is on its way to become public. Its size and its text are
/// there as far as they can be had.
pub struct TrackedFile {
    pub path: String,
    pub size: Option<u64>,
    pub text: Option<String>,
}

#[verifier::ext_equal]
pub struct FindingView {
    pub path: Seq<char>,
    pub line: Option<int>,
    pub message: Seq<char>,
}

impl View for AuditFinding {
    type V = FindingView;

    open spec fn view(&self) -> FindingView {
        FindingView {
            path: self.path@,
            line: match self.line {
                Some(line) => Some(line as int),
                None => None,
            },
            message: self.message@,
        }
    }
}

pub open spec fn finding_views(findings: Seq<AuditFinding>) -> Seq<FindingView> {
    findings.map_values(|f: AuditFinding| f@)
}

// ---------------------------------------------------------------------------
// Paths
// ---------------------------------------------------------------------------

/// A name that no public file may have.
pub open spec fn denied_name(s: Seq<char>) -> bool {
    s == "AGENTS.md"@ || s == "plugdeck.local.toml"@ || s == ".env"@ || s == ".env.local"@ || s
        == "id_rsa"@ || s == "id_ed25519"@
}

/// An extension of databases, logs and keys.
pub open spec fn denied_extension(s: Seq<char>) -> bool {
    s == "db"@ || s == "sqlite"@ || s == "sqlite3"@ || s == "log"@ || s == "pid"@ || s == "pem"@ || s
        == "key"@ || s == "p12"@ || s == "pfx"@
}

/// A path of private files or of files that a running deck writes, from the top.
pub open spec fn denied_top(s: Seq<char>) -> bool {
    text::has_prefix(s, "docs/private/"@) || text::has_prefix(s, ".plugdeck/"@) || text::has_prefix(
        s,
        "backups/"@,
    ) || text::has_prefix(s, "data/"@) || text::has_prefix(s, "downloads/"@)
}

/// A path through a directory of runtime or secret data.
pub open spec fn denied_middle(s: Seq<char>) -> bool {
    text::has_text(s, "/data/"@) || text::has_text(s, "/cache/"@) || text::has_text(s, "/config/"@)
        || text::has_text(s, "/downloads/"@) || text::has_text(s, "/secrets/"@)
}

/// What is wrong with a path, backslashes taken as slashes.
pub open spec fn path_finding(path: Seq<char>) -> Option<Seq<char>> {
    let path = text::replaced(path, '\\', "/"@);
    let name = text::after_last(path, '/');
    if denied_name(path) || denied_name(name) {
        Some("private file path is tracked"@)
    } else if text::has_prefix(name, ".env."@) && name != ".env.example"@ {
        Some("private env file is tracked"@)
    } else if denied_top(path) {
        Some("ignored private/runtime path is tracked"@)
    } else if denied_middle(path) {
        Some("runtime or secret data path is tracked"@)
    } else {
        match paths::extension_of(name) {
            Some(ext) => if denied_extension(ext) {
                Some("private state or key-like file is tracked"@)
            } else {
                None
            },
            None => None,
        }
    }
}

fn is_denied_name(s: &str) -> (res: bool)
    ensures
        res == denied_name(s@),
{
    text::same(s, "AGENTS.md") || text::same(s, "plugdeck.local.toml") || text::same(s, ".env")
        || text::same(s, ".env.local") || text::same(s, "id_rsa") || text::same(s, "id_ed25519")
}

fn is_denied_extension(s: &str) -> (res: bool)
    ensures
        res == denied_extension(s@),
{
    text::same(s, "db") || text::same(s, "sqlite") || text::same(s, "sqlite3") || text::same(
        s,
        "log",
    ) || text::same(s, "pid") || text::same(s, "pem") || text::same(s, "key") || text::same(
        s,
        "p12",
    ) || text::same(s, "pfx")
}

/// What is wrong with a path, if anything.
pub fn audit_path(path: &str) -> (res: Option<String>)
    ensures
        text::opt_text(res) == path_finding(path@),
{
    let normalized = text::replace(path, '\\', "/");
    let path = normalized.as_str();
    let name = text::last_part(path, '/');
    if is_denied_name(path) || is_denied_name(name) {
        return Some("private file path is tracked".to_owned());
    }
    if text::starts_with(name, ".env.") && !text::same(name, ".env.example") {
        return Some("private env file is tracked".to_owned());
    }
    if text::starts_with(path, "docs/private/") || text::starts_with(path, ".plugdeck/")
        || text::starts_with(path, "backups/") || text::starts_with(path, "data/")
        || text::starts_with(path, "downloads/") {
        return Some("ignored private/runtime path is tracked".to_owned());
    }
    if text::contains(path, "/data/") || text::contains(path, "/cache/") || text::contains(
        path,
        "/config/",
    ) || text::contains(path, "/downloads/") || text::contains(path, "/secrets/") {
        return Some("runtime or secret data path is tracked".to_owned());
    }
    if let Some(ext) = paths::extension(name) {
        if is_denied_extension(ext.as_str()) {
            return Some("private state or key-like file is tracked".to_owned());
        }
    }
    None
}

// ---------------------------------------------------------------------------
// Secrets in assignments
// ---------------------------------------------------------------------------

/// A key, in lower case, that speaks of a secret.
pub open spec fn secret_key(key: Seq<char>) -> bool {
    text::has_text(key, "password"@) || text::has_text(key, "passwd"@) || text::has_text(
        key,
        "secret"@,
    ) || text::has_text(key, "token"@) || text::has_text(key, "api_key"@) || text::has_text(
        key,
        "apikey"@,
    ) || text::has_text(key, "access_key"@) || text::has_text(key, "client_secret"@)
        || text::has_text(key, "private_key"@)
}

/// A value, in lower case, that gives nothing away.
pub open spec fn plain_value(value: Seq<char>) -> bool {
    value == ""@ || value == "example"@ || value == "placeholder"@ || value == "changeme"@ || value
        == "change-me"@ || value == "redacted"@ || value == "dummy"@ || value == "none"@ || value
        == "null"@ || value == "false"@ || value == "true"@
}

/// A value that is a type, a placeholder or a call rather than a secret.
pub open spec fn placeholder(value: Seq<char>) -> bool {
    plain_value(text::lowered(value)) || value == "String"@ || text::has_prefix(value, "Option<"@)
        || text::has_prefix(value, "Vec<"@) || text::has_prefix(value, "${"@) || text::has_prefix(
        value,
        "<"@,
    ) || text::has_prefix(value, "your-"@) || text::has_text(value, "..."@) || text::has_prefix(
        value,
        "Some("@,
    ) || text::has_prefix(value, "vec!"@)
}

/// The two sides of an assignment: around the first `=`, or around the first
/// `:` where there is no `=`.
pub open spec fn assignment(line: Seq<char>) -> Option<(Seq<char>, Seq<char>)> {
    match text::split_at_first(line, '=') {
        Some(pair) => Some(pair),
        None => text::split_at_first(line, ':'),
    }
}

/// The value of an assignment without white space, quotes and a trailing comma around it.
pub open spec fn bare_value(value: Seq<char>) -> Seq<char> {
    text::trimmed(
        text::trimmed_end(
            text::trimmed_of(
                text::trimmed_of(text::trimmed(value), CharSet::Only('"')),
                CharSet::Only('\''),
            ),
            CharSet::Only(','),
        ),
    )
}

/// The line gives a key that speaks of a secret a value that is no placeholder.
pub open spec fn assigns_secret(line: Seq<char>) -> bool {
    if text::has_text(line, "::"@) {
        false
    } else {
        match assignment(line) {
            None => false,
            Some((left, right)) => {
                let key = text::lowered(text::trimmed(left));
                &&& 0 < key.len() <= 80
                &&& text::all_in(key, CharSet::FileName)
                &&& secret_key(key)
                &&& !placeholder(bare_value(right))
            },
        }
    }
}

fn is_secret_key(key: &str) -> (res: bool)
    ensures
        res == secret_key(key@),
{
    text::contains(key, "password") || text::contains(key, "passwd") || text::contains(key, "secret")
        || text::contains(key, "token") || text::contains(key, "api_key") || text::contains(
        key,
        "apikey",
    ) || text::contains(key, "access_key") || text::contains(key, "client_secret")
        || text::contains(key, "private_key")
}

fn is_plain_value(value: &str) -> (res: bool)
    ensures
        res == plain_value(value@),
{
    text::same(value, "") || text::same(value, "example") || text::same(value, "placeholder")
        || text::same(value, "changeme") || text::same(value, "change-me") || text::same(
        value,
        "redacted",
    ) || text::same(value, "dummy") || text::same(value, "none") || text::same(value, "null")
        || text::same(value, "false") || text::same(value, "true")
}

/// Whether a line looks like the assignment of a secret.
pub fn suspicious_secret_assignment(line: &str) -> (res: bool)
    ensures
        res == assigns_secret(line@),
{
    if text::contains(line, "::") {
        return false;
    }
    let pair = match text::split_once(line, '=') {
        Some(pair) => Some(pair),
        None => text::split_once(line, ':'),
    };
    let (key, value) = match pair {
        Some(pair) => pair,
        None => {
            return false;
        },
    };
    let key = text::lower(text::trim(key));
    let length = key.as_str().unicode_len();
    if length == 0 || length > 80 || !text::all_within(key.as_str(), CharSet::FileName) {
        return false;
    }
    if !is_secret_key(key.as_str()) {
        return false;
    }
    let value = text::trim_of(text::trim(value), CharSet::Only('"'));
    let value = text::trim_of(value, CharSet::Only('\''));
    let value = text::trim(text::trim_end(value, CharSet::Only(',')));
    if is_plain_value(text::lower(value).as_str()) {
        return false;
    }
    if text::same(value, "String") || text::starts_with(value, "Option<") || text::starts_with(
        value,
        "Vec<",
    ) {
        return false;
    }
    if text::starts_with(value, "${") || text::starts_with(value, "<") || text::starts_with(
        value,
        "your-",
    ) || text::contains(value, "...") || text::starts_with(value, "Some(") || text::starts_with(
        value,
        "vec!",
    ) {
        return false;
    }
    true
}

// ---------------------------------------------------------------------------
// Private addresses
// ---------------------------------------------------------------------------

/// The pieces of `s` between the characters outside `set`.
pub open spec fn pieces(s: Seq<char>, set: CharSet) -> Seq<Seq<char>>
    decreases s.len(),
{
    if s.len() == 0 {
        seq![Seq::empty()]
    } else {
        let before = pieces(s.drop_last(), set);
        if set.has(s.last()) {
            before.drop_last().push(before.last().push(s.last()))
        } else {
            before.push(Seq::empty())
        }
    }
}

/// The number of a part of an address.
pub open spec fn octet(part: Seq<char>) -> Option<int> {
    decimal::parsed_up_to(part, 255)
}

/// An IPv4 address of the shared range 100.64.0.0/10.
pub open spec fn shared_address(token: Seq<char>) -> bool {
    let parts = text::split_on(token, '.');
    &&& parts.len() == 4
    &&& octet(parts[0]) == Some(100int)
    &&& octet(parts[1]) matches Some(second) && 64 <= second <= 127
    &&& octet(parts[2]) is Some
    &&& octet(parts[3]) is Some
}

/// Somewhere in the line stands an address of the shared range.
pub open spec fn has_shared_address(line: Seq<char>) -> bool {
    exists|i: int|
        0 <= i < pieces(line, CharSet::DigitDot).len() && shared_address(
            #[trigger] pieces(line, CharSet::DigitDot)[i],
        )
}

fn cut_outside(s: &str, set: CharSet) -> (res: Vec<String>)
    ensures
        text::texts(res@) == pieces(s@, set),
{
    let chars = text::chars_of(s);
    let mut done: Vec<String> = Vec::new();
    let mut current: String = String::new();
    let mut i: usize = 0;
    assert(text::texts(done@).push(current@) =~= pieces(s@.take(0), set)) by {
        assert(current@ =~= Seq::<char>::empty());
    }
    while i < chars.len()
        invariant
            i <= chars@.len(),
            chars@ == s@,
            text::texts(done@).push(current@) == pieces(s@.take(i as int), set),
        decreases chars@.len() - i,
    {
        let ghost before = pieces(s@.take(i as int), set);
        assert(s@.take(i + 1).drop_last() =~= s@.take(i as int));
        assert(before.drop_last() =~= text::texts(done@));
        assert(before.last() == current@);
        if set.holds(chars[i]) {
            current.push(chars[i]);
        } else {
            let ghost prior = done@;
            let piece = current;
            done.push(piece);
            current = String::new();
            assert(text::texts(done@) =~= text::texts(prior).push(piece@));
            assert(current@ =~= Seq::<char>::empty());
        }
        i += 1;
    }
    assert(s@.take(i as int) =~= s@);
    let ghost prior = done@;
    done.push(current);
    assert(text::texts(done@) =~= text::texts(prior).push(current@));
    done
}

fn is_shared_address(token: &str) -> (res: bool)
    ensures
        res == shared_address(token@),
{
    let parts = text::split(token, '.');
    let ghost all = text::texts(parts@);
    if parts.len() != 4 {
        return false;
    }
    assert(all[0] == parts@[0]@ && all[1] == parts@[1]@ && all[2] == parts@[2]@ && all[3]
        == parts@[3]@);
    let first = decimal::parse_natural(parts[0].as_str(), 255);
    let second = decimal::parse_natural(parts[1].as_str(), 255);
    let third = decimal::parse_natural(parts[2].as_str(), 255);
    let fourth = decimal::parse_natural(parts[3].as_str(), 255);
    match (first, second, third, fourth) {
        (Some(a), Some(b), Some(_), Some(_)) => a == 100 && 64 <= b && b <= 127,
        _ => false,
    }
}

/// Whether an address of the shared range stands in a line.
pub fn contains_tailscale_ipv4(line: &str) -> (res: bool)
    ensures
        res == has_shared_address(line@),
{
    let tokens = cut_outside(line, CharSet::DigitDot);
    let ghost all = text::texts(tokens@);
    let mut i: usize = 0;
    while i < tokens.len()
        invariant
            i <= tokens@.len(),
            all == text::texts(tokens@),
            all == pieces(line@, CharSet::DigitDot),
            forall|j: int| 0 <= j < i ==> !shared_address(#[trigger] all[j]),
        decreases tokens@.len() - i,
    {
        assert(all[i as int] == tokens@[i as int]@);
        if is_shared_address(tokens[i].as_str()) {
            assert(shared_address(pieces(line@, CharSet::DigitDot)[i as int]));
            return true;
        }
        i += 1;
    }
    false
}

// ---------------------------------------------------------------------------
// Lines
// ---------------------------------------------------------------------------

/// What the tokens of well-known services begin with. Each one is put together
/// here, so that the audit of this file finds none.
pub open spec fn markers() -> Seq<Seq<char>> {
    seq![
        "github"@ + "_pat_"@,
        "gh"@ + "p_"@,
        "gh"@ + "o_"@,
        "gh"@ + "s_"@,
        "gh"@ + "u_"@,
        "s"@ + "k-"@,
        "xo"@ + "xb-"@,
        "xo"@ + "xp-"@,
    ]
}

fn glue(a: &str, b: &str) -> (res: String)
    ensures
        res@ == a@ + b@,
{
    let mut out = a.to_owned();
    out.append(b);
    out
}

pub fn token_markers() -> (res: Vec<String>)
    ensures
        text::texts(res@) == markers(),
{
    let mut list: Vec<String> = Vec::new();
    list.push(glue("github", "_pat_"));
    list.push(glue("gh", "p_"));
    list.push(glue("gh", "o_"));
    list.push(glue("gh", "s_"));
    list.push(glue("gh", "u_"));
    list.push(glue("s", "k-"));
    list.push(glue("xo", "xb-"));
    list.push(glue("xo", "xp-"));
    assert(text::texts(list@) =~= markers());
    list
}

/// A message for each of the markers that stands in the line.
pub open spec fn marker_findings(line: Seq<char>, list: Seq<Seq<char>>) -> Seq<Seq<char>>
    decreases list.len(),
{
    if list.len() == 0 {
        list
    } else {
        let before = marker_findings(line, list.drop_last());
        if text::has_text(line, list.last()) {
            before.push("token marker `"@ + list.last() + "`"@)
        } else {
            before
        }
    }
}

/// A message for each of the terms, none of them empty, that stands in the line.
pub open spec fn term_findings(lower: Seq<char>, terms: Seq<Seq<char>>) -> Seq<Seq<char>>
    decreases terms.len(),
{
    if terms.len() == 0 {
        terms
    } else {
        let before = term_findings(lower, terms.drop_last());
        if terms.last().len() > 0 && text::has_text(lower, terms.last()) {
            before.push("local denylist term"@)
        } else {
            before
        }
    }
}

/// A line that starts with `#`, white space aside.
pub open spec fn is_comment(line: Seq<char>) -> bool {
    text::has_prefix(text::trimmed_start(line, CharSet::Space), "#"@)
}

/// What is wrong with a line. Comments are passed over.
pub open spec fn line_findings(line: Seq<char>, terms: Seq<Seq<char>>) -> Seq<Seq<char>> {
    if is_comment(line) {
        Seq::empty()
    } else {
        text::when(
            text::has_text(line, "-----BEGIN "@) && text::has_text(line, "PRIVATE"@ + " KEY"@),
            "private key material"@,
        ) + marker_findings(line, markers()) + text::when(
            has_shared_address(line),
            "Tailscale/CGNAT private IP address"@,
        ) + text::when(assigns_secret(line), "non-placeholder secret-looking assignment"@) + term_findings(
            text::lowered(line),
            terms,
        )
    }
}

fn note(findings: &mut Vec<String>, found: bool, message: &str)
    ensures
        text::texts(final(findings)@) == text::texts(old(findings)@) + text::when(found, message@),
{
    if found {
        findings.push(message.to_owned());
    }
    assert(text::texts(findings@) =~= text::texts(old(findings)@) + text::when(found, message@));
}

fn note_markers(findings: &mut Vec<String>, line: &str, list: &Vec<String>)
    ensures
        text::texts(final(findings)@) == text::texts(old(findings)@) + marker_findings(
            line@,
            text::texts(list@),
        ),
{
    let ghost before = text::texts(findings@);
    let ghost all = text::texts(list@);
    let mut i: usize = 0;
    assert(before + marker_findings(line@, all.take(0)) =~= before);
    while i < list.len()
        invariant
            i <= list@.len(),
            all == text::texts(list@),
            text::texts(findings@) == before + marker_findings(line@, all.take(i as int)),
        decreases list@.len() - i,
    {
        assert(all.take(i + 1).drop_last() =~= all.take(i as int));
        assert(all[i as int] == list@[i as int]@);
        if text::contains(line, list[i].as_str()) {
            let mut message = String::from_str("token marker `");
            message.append(list[i].as_str());
            message.append("`");
            let ghost prior = findings@;
            findings.push(message);
            assert(text::texts(findings@) =~= text::texts(prior).push(message@));
            assert(before + marker_findings(line@, all.take(i + 1)) =~= (before + marker_findings(
                line@,
                all.take(i as int),
            )).push(message@));
        }
        i += 1;
    }
    assert(all.take(i as int) =~= all);
}

fn note_terms(findings: &mut Vec<String>, lower: &str, terms: &Vec<String>)
    ensures
        text::texts(final(findings)@) == text::texts(old(findings)@) + term_findings(
            lower@,
            text::texts(terms@),
        ),
{
    let ghost before = text::texts(findings@);
    let ghost all = text::texts(terms@);
    let mut i: usize = 0;
    assert(before + term_findings(lower@, all.take(0)) =~= before);
    while i < terms.len()
        invariant
            i <= terms@.len(),
            all == text::texts(terms@),
            text::texts(findings@) == before + term_findings(lower@, all.take(i as int)),
        decreases terms@.len() - i,
    {
        assert(all.take(i + 1).drop_last() =~= all.take(i as int));
        assert(all[i as int] == terms@[i as int]@);
        let term = terms[i].as_str();
        if term.unicode_len() > 0 && text::contains(lower, term) {
            let message = "local denylist term".to_owned();
            let ghost prior = findings@;
            findings.push(message);
            assert(text::texts(findings@) =~= text::texts(prior).push(message@));
            assert(before + term_findings(lower@, all.take(i + 1)) =~= (before + term_findings(
                lower@,
                all.take(i as int),
            )).push(message@));
        }
        i += 1;
    }
    assert(all.take(i as int) =~= all);
}

/// What is wrong with a line, for a list of terms in lower case.
pub fn audit_line(line: &str, private_terms: &Vec<String>) -> (res: Vec<String>)
    ensures
        text::texts(res@) == line_findings(line@, text::texts(private_terms@)),
{
    let mut findings: Vec<String> = Vec::new();
    assert(text::texts(findings@) =~= Seq::<Seq<char>>::empty());
    if text::starts_with(text::trim_start(line, CharSet::Space), "#") {
        return findings;
    }
    let key = glue("PRIVATE", " KEY");
    note(
        &mut findings,
        text::contains(line, "-----BEGIN ") && text::contains(line, key.as_str()),
        "private key material",
    );
    assert(Seq::<Seq<char>>::empty() + text::texts(findings@) =~= text::texts(findings@));
    let markers = token_markers();
    note_markers(&mut findings, line, &markers);
    note(&mut findings, contains_tailscale_ipv4(line), "Tailscale/CGNAT private IP address");
    note(
        &mut findings,
        suspicious_secret_assignment(line),
        "non-placeholder secret-looking assignment",
    );
    let lower = text::lower(line);
    note_terms(&mut findings, lower.as_str(), private_terms);
    findings
}

// ---------------------------------------------------------------------------
// Files
// ---------------------------------------------------------------------------

/// The messages as findings in one line of a file.
pub open spec fn numbered(path: Seq<char>, line: int, messages: Seq<Seq<char>>) -> Seq<FindingView> {
    messages.map_values(|m: Seq<char>| FindingView { path, line: Some(line), message: m })
}

/// What is wrong with the lines of a file, which are counted from one.
pub open spec fn text_findings(path: Seq<char>, lines: Seq<Seq<char>>, terms: Seq<Seq<char>>) -> Seq<
    FindingView,
>
    decreases lines.len(),
{
    if lines.len() == 0 {
        Seq::empty()
    } else {
        text_findings(path, lines.drop_last(), terms) + numbered(
            path,
            lines.len() as int,
            line_findings(lines.last(), terms),
        )
    }
}

/// A file is read only where its path is in order and its size is known to be
/// no larger than the limit, or is not known.
pub open spec fn is_read(path: Seq<char>, size: Option<u64>) -> bool {
    path_finding(path) is None && !(size matches Some(n) && n > MAX_AUDIT_BYTES)
}

/// What is wrong with a file.
pub open spec fn file_findings(file: TrackedFile, terms: Seq<Seq<char>>) -> Seq<FindingView> {
    match path_finding(file.path@) {
        Some(message) => seq![FindingView { path: file.path@, line: None, message }],
        None => if !is_read(file.path@, file.size) {
            Seq::empty()
        } else {
            match file.text {
                Some(content) => text_findings(file.path@, text::lines_of(content@), terms),
                None => Seq::empty(),
            }
        },
    }
}

/// What is wrong with any of the files.
pub open spec fn public_findings(files: Seq<TrackedFile>, terms: Seq<Seq<char>>) -> Seq<FindingView>
    decreases files.len(),
{
    if files.len() == 0 {
        Seq::empty()
    } else {
        public_findings(files.drop_last(), terms) + file_findings(files.last(), terms)
    }
}

/// Whether the text of a file is wanted.
pub fn wants_text(path: &str, size: Option<u64>) -> (res: bool)
    ensures
        res == is_read(path@, size),
{
    if audit_path(path).is_some() {
        return false;
    }
    match size {
        Some(n) => n <= MAX_AUDIT_BYTES,
        None => true,
    }
}

fn add_numbered(findings: &mut Vec<AuditFinding>, path: &str, line: usize, messages: &Vec<String>)
    ensures
        finding_views(final(findings)@) == finding_views(old(findings)@) + numbered(
            path@,
            line as int,
            text::texts(messages@),
        ),
{
    let ghost before = finding_views(findings@);
    let ghost all = text::texts(messages@);
    let mut i: usize = 0;
    while i < messages.len()
        invariant
            i <= messages@.len(),
            all == text::texts(messages@),
            finding_views(findings@) =~= before + numbered(path@, line as int, all.take(i as int)),
        decreases messages@.len() - i,
    {
        let finding = AuditFinding {
            path: path.to_owned(),
            line: Some(line),
            message: messages[i].clone(),
        };
        let ghost prior = findings@;
        findings.push(finding);
        assert(finding_views(findings@) =~= finding_views(prior).push(finding@));
        i += 1;
    }
    assert(all.take(i as int) =~= all);
}

fn add_text(findings: &mut Vec<AuditFinding>, path: &str, content: &str, terms: &Vec<String>)
    ensures
        finding_views(final(findings)@) == finding_views(old(findings)@) + text_findings(
            path@,
            text::lines_of(content@),
            text::texts(terms@),
        ),
{
    let lines = text::lines(content);
    let ghost before = finding_views(findings@);
    let ghost all = text::texts(lines@);
    let mut i: usize = 0;
    assert(before + text_findings(path@, all.take(0), text::texts(terms@)) =~= before);
    while i < lines.len()
        invariant
            i <= lines@.len(),
            all == text::texts(lines@),
            finding_views(findings@) == before + text_findings(
                path@,
                all.take(i as int),
                text::texts(terms@),
            ),
        decreases lines@.len() - i,
    {
        assert(all.take(i + 1).drop_last() =~= all.take(i as int));
        let messages = audit_line(lines[i].as_str(), terms);
        add_numbered(findings, path, i + 1, &messages);
        assert(before + text_findings(path@, all.take(i + 1), text::texts(terms@)) =~= (before
            + text_findings(path@, all.take(i as int), text::texts(terms@))) + numbered(
            path@,
            i + 1,
            text::texts(messages@),
        ));
        i += 1;
    }
    assert(all.take(i as int) =~= all);
}

fn add_file(findings: &mut Vec<AuditFinding>, file: &TrackedFile, terms: &Vec<String>)
    ensures
        finding_views(final(findings)@) == finding_views(old(findings)@) + file_findings(
            *file,
            text::texts(terms@),
        ),
{
    let ghost before = finding_views(findings@);
    if let Some(message) = audit_path(file.path.as_str()) {
        let finding = AuditFinding { path: file.path.clone(), line: None, message };
        let ghost prior = findings@;
        findings.push(finding);
        assert(finding_views(findings@) =~= finding_views(prior).push(finding@));
        assert(finding_views(findings@) =~= before + file_findings(*file, text::texts(terms@)));
        return;
    }
    if wants_text(file.path.as_str(), file.size) {
        if let Some(content) = &file.text {
            add_text(findings, file.path.as_str(), content.as_str(), terms);
            return;
        }
    }
    assert(before + file_findings(*file, text::texts(terms@)) =~= before);
}

/// What is wrong with any of the files, for a list of terms in lower case.
pub fn audit_public(files: &Vec<TrackedFile>, private_terms: &Vec<String>) -> (res: Vec<AuditFinding>)
    ensures
        finding_views(res@) == public_findings(files@, text::texts(private_terms@)),
{
    let mut findings: Vec<AuditFinding> = Vec::new();
    let mut i: usize = 0;
    assert(finding_views(findings@) =~= Seq::empty());
    while i < files.len()
        invariant
            i <= files@.len(),
            finding_views(findings@) == public_findings(
                files@.take(i as int),
                text::texts(private_terms@),
            ),
        decreases files@.len() - i,
    {
        assert(files@.take(i + 1).drop_last() =~= files@.take(i as int));
        add_file(&mut findings, &files[i], private_terms);
        i += 1;
    }
    assert(files@.take(i as int) =~= files@);
    findings
}

/// The terms of one list: its lines in lower case, but for blank ones and comments.
pub open spec fn listed_terms(lines: Seq<Seq<char>>) -> Seq<Seq<char>>
    decreases lines.len(),
{
    if lines.len() == 0 {
        lines
    } else {
        let before = listed_terms(lines.drop_last());
        let term = text::trimmed(lines.last());
        if term.len() == 0 || text::has_prefix(term, "#"@) {
            before
        } else {
            before.push(text::lowered(term))
        }
    }
}

/// Reads the terms of one list.
pub fn denylist_terms(content: &str) -> (res: Vec<String>)
    ensures
        text::texts(res@) == listed_terms(text::lines_of(content@)),
{
    let lines = text::lines(content);
    let ghost all = text::texts(lines@);
    let mut terms: Vec<String> = Vec::new();
    let mut i: usize = 0;
    assert(text::texts(terms@) =~= listed_terms(all.take(0)));
    while i < lines.len()
        invariant
            i <= lines@.len(),
            all == text::texts(lines@),
            text::texts(terms@) == listed_terms(all.take(i as int)),
        decreases lines@.len() - i,
    {
        assert(all.take(i + 1).drop_last() =~= all.take(i as int));
        assert(all[i as int] == lines@[i as int]@);
        let term = text::trim(lines[i].as_str());
        if !(term.unicode_len() == 0 || text::starts_with(term, "#")) {
            let lower = text::lower(term);
            let ghost prior = terms@;
            terms.push(lower);
            assert(text::texts(terms@) =~= text::texts(prior).push(lower@));
        }
        i += 1;
    }
    assert(all.take(i as int) =~= all);
    terms
}

/// The names in a list that puts a null character after each.
pub open spec fn listed_names(names: Seq<Seq<char>>) -> Seq<Seq<char>>
    decreases names.len(),
{
    if names.len() == 0 {
        names
    } else if names.last().len() == 0 {
        listed_names(names.drop_last())
    } else {
        listed_names(names.drop_last()).push(names.last())
    }
}

/// Reads a list of file names that puts a null character after each.
pub fn tracked_files(output: &str) -> (res: Vec<String>)
    ensures
        text::texts(res@) == listed_names(text::split_on(output@, '\0')),
{
    let names = text::split(output, '\0');
    let ghost all = text::texts(names@);
    let mut files: Vec<String> = Vec::new();
    let mut i: usize = 0;
    assert(text::texts(files@) =~= listed_names(all.take(0)));
    while i < names.len()
        invariant
            i <= names@.len(),
            all == text::texts(names@),
            text::texts(files@) == listed_names(all.take(i as int)),
        decreases names@.len() - i,
    {
        assert(all.take(i + 1).drop_last() =~= all.take(i as int));
        assert(all[i as int] == names@[i as int]@);
        if names[i].as_str().unicode_len() > 0 {
            let name = names[i].clone();
            let ghost prior = files@;
            files.push(name);
            assert(text::texts(files@) =~= text::texts(prior).push(name@));
        }
        i += 1;
    }
    assert(all.take(i as int) =~= all);
    files
}

/// A finding as it is reported.
pub open spec fn finding_text(finding: FindingView) -> Seq<char> {
    match finding.line {
        Some(line) => finding.path + ":"@ + decimal::decimal(line) + ": "@ + finding.message,
        None => finding.path + ": "@ + finding.message,
    }
}

/// Writes a finding as it is reported.
pub fn describe(finding: &AuditFinding) -> (res: String)
    ensures
        res@ == finding_text(finding@),
{
    let mut out = finding.path.clone();
    match finding.line {
        Some(line) => {
            out.append(":");
            out.append(decimal::size_text(line).as_str());
            out.append(": ");
        },
        None => {
            out.append(": ");
        },
    }
    out.append(finding.message.as_str());
    out
}

/// What an audit prints: a line of its own where all is well, else the number
/// of findings and each of them.
pub open spec fn report_of(findings: Seq<FindingView>) -> Seq<Seq<char>> {
    if findings.len() == 0 {
        seq!["audit-public: ok"@]
    } else {
        seq!["audit-public: found "@ + decimal::decimal(findings.len() as int) + " issue(s)"@]
            + findings.map_values(|f: FindingView| finding_text(f))
    }
}

/// Writes what an audit prints.
pub fn report(findings: &Vec<AuditFinding>) -> (res: Vec<String>)
    ensures
        text::texts(res@) == report_of(finding_views(findings@)),
{
    let mut lines: Vec<String> = Vec::new();
    if findings.len() == 0 {
        lines.push("audit-public: ok".to_owned());
        assert(text::texts(lines@) =~= report_of(finding_views(findings@)));
        return lines;
    }
    let mut head = String::from_str("audit-public: found ");
    head.append(decimal::size_text(findings.len()).as_str());
    head.append(" issue(s)");
    lines.push(head);
    let ghost all = report_of(finding_views(findings@));
    let mut i: usize = 0;
    assert(text::texts(lines@) =~= all.take(1));
    while i < findings.len()
        invariant
            i <= findings@.len(),
            findings@.len() > 0,
            all == report_of(finding_views(findings@)),
            text::texts(lines@) == all.take(i + 1),
        decreases findings@.len() - i,
    {
        let line = describe(&findings[i]);
        let ghost prior = lines@;
        lines.push(line);
        assert(text::texts(lines@) =~= text::texts(prior).push(line@));
        assert(all.take(i + 2) =~= all.take(i + 1).push(all[i + 1]));
        i += 1;
    }
    assert(all.take(i + 1) =~= all);
    lines
}

// ---------------------------------------------------------------------------
// What holds of the audit
// ---------------------------------------------------------------------------

/// Comments are never reported.
pub proof fn comments_are_passed_over(line: Seq<char>, terms: Seq<Seq<char>>)
    requires
        is_comment(line),
    ensures
        line_findings(line, terms).len() == 0,
{
}

proof fn a_term_gives_a_finding(lower: Seq<char>, terms: Seq<Seq<char>>, i: int)
    requires
        0 <= i < terms.len(),
        terms[i].len() > 0,
        text::has_text(lower, terms[i]),
    ensures
        term_findings(lower, terms).contains("local denylist term"@),
    decreases terms.len(),
{
    let before = term_findings(lower, terms.drop_last());
    if i < terms.len() - 1 {
        a_term_gives_a_finding(lower, terms.drop_last(), i);
        let k = choose|k: int| 0 <= k < before.len() && before[k] == "local denylist term"@;
        assert(term_findings(lower, terms)[k] == "local denylist term"@);
    } else {
        assert(term_findings(lower, terms)[before.len() as int] == "local denylist term"@);
    }
}

proof fn a_marker_gives_a_finding(line: Seq<char>, list: Seq<Seq<char>>, i: int)
    requires
        0 <= i < list.len(),
        text::has_text(line, list[i]),
    ensures
        marker_findings(line, list).contains("token marker `"@ + list[i] + "`"@),
    decreases list.len(),
{
    let before = marker_findings(line, list.drop_last());
    let message = "token marker `"@ + list[i] + "`"@;
    if i < list.len() - 1 {
        a_marker_gives_a_finding(line, list.drop_last(), i);
        let k = choose|k: int| 0 <= k < before.len() && before[k] == message;
        assert(marker_findings(line, list)[k] == message);
    } else {
        assert(marker_findings(line, list)[before.len() as int] == message);
    }
}

proof fn parts_are_contained<A>(a: Seq<A>, b: Seq<A>, x: A)
    requires
        a.contains(x) || b.contains(x),
    ensures
        (a + b).contains(x),
{
    if a.contains(x) {
        let k = choose|k: int| 0 <= k < a.len() && a[k] == x;
        assert((a + b)[k] == x);
    } else {
        let k = choose|k: int| 0 <= k < b.len() && b[k] == x;
        assert((a + b)[a.len() + k] == x);
    }
}

/// Outside comments, private key material, an address of the shared range and
/// an assigned secret are reported, each by its message.
pub proof fn secrets_are_reported(line: Seq<char>, terms: Seq<Seq<char>>)
    requires
        !is_comment(line),
    ensures
        text::has_text(line, "-----BEGIN "@) && text::has_text(line, "PRIVATE"@ + " KEY"@)
            ==> line_findings(line, terms).contains("private key material"@),
        has_shared_address(line) ==> line_findings(line, terms).contains(
            "Tailscale/CGNAT private IP address"@,
        ),
        assigns_secret(line) ==> line_findings(line, terms).contains(
            "non-placeholder secret-looking assignment"@,
        ),
{
    let keyed = text::has_text(line, "-----BEGIN "@) && text::has_text(line, "PRIVATE"@ + " KEY"@);
    let key = text::when(keyed, "private key material"@);
    let tokens = marker_findings(line, markers());
    let address = text::when(has_shared_address(line), "Tailscale/CGNAT private IP address"@);
    let secret = text::when(assigns_secret(line), "non-placeholder secret-looking assignment"@);
    let listed = term_findings(text::lowered(line), terms);
    if keyed {
        assert(key[0] == "private key material"@);
        parts_are_contained(key, tokens, "private key material"@);
        parts_are_contained(key + tokens, address, "private key material"@);
        parts_are_contained(key + tokens + address, secret, "private key material"@);
        parts_are_contained(key + tokens + address + secret, listed, "private key material"@);
    }
    if has_shared_address(line) {
        let message = "Tailscale/CGNAT private IP address"@;
        assert(address[0] == message);
        parts_are_contained(key + tokens, address, message);
        parts_are_contained(key + tokens + address, secret, message);
        parts_are_contained(key + tokens + address + secret, listed, message);
    }
    if assigns_secret(line) {
        let message = "non-placeholder secret-looking assignment"@;
        assert(secret[0] == message);
        parts_are_contained(key + tokens + address, secret, message);
        parts_are_contained(key + tokens + address + secret, listed, message);
    }
}

/// Outside comments, a token of a well-known service is reported by its marker.
pub proof fn tokens_are_reported(line: Seq<char>, terms: Seq<Seq<char>>, i: int)
    requires
        !is_comment(line),
        0 <= i < markers().len(),
        text::has_text(line, markers()[i]),
    ensures
        line_findings(line, terms).contains("token marker `"@ + markers()[i] + "`"@),
{
    let message = "token marker `"@ + markers()[i] + "`"@;
    let keyed = text::has_text(line, "-----BEGIN "@) && text::has_text(line, "PRIVATE"@ + " KEY"@);
    let key = text::when(keyed, "private key material"@);
    let tokens = marker_findings(line, markers());
    let address = text::when(has_shared_address(line), "Tailscale/CGNAT private IP address"@);
    let secret = text::when(assigns_secret(line), "non-placeholder secret-looking assignment"@);
    a_marker_gives_a_finding(line, markers(), i);
    parts_are_contained(key, tokens, message);
    parts_are_contained(key + tokens, address, message);
    parts_are_contained(key + tokens + address, secret, message);
    parts_are_contained(
        key + tokens + address + secret,
        term_findings(text::lowered(line), terms),
        message,
    );
}

/// A line outside comments that holds a term of the list, in upper or lower
/// case, is reported.
pub proof fn listed_terms_are_reported(line: Seq<char>, terms: Seq<Seq<char>>, i: int)
    requires
        !is_comment(line),
        0 <= i < terms.len(),
        terms[i].len() > 0,
        text::has_text(text::lowered(line), terms[i]),
    ensures
        line_findings(line, terms).contains("local denylist term"@),
{
    a_term_gives_a_finding(text::lowered(line), terms, i);
    let listed = term_findings(text::lowered(line), terms);
    let all = line_findings(line, terms);
    parts_are_contained(all.take(all.len() - listed.len()), listed, "local denylist term"@);
    assert(all =~= all.take(all.len() - listed.len()) + listed);
}

proof fn a_message_is_numbered(
    path: Seq<char>,
    lines: Seq<Seq<char>>,
    terms: Seq<Seq<char>>,
    j: int,
    message: Seq<char>,
)
    requires
        0 <= j < lines.len(),
        line_findings(lines[j], terms).contains(message),
    ensures
        text_findings(path, lines, terms).contains(
            (FindingView { path, line: Some(j + 1), message }),
        ),
    decreases lines.len(),
{
    let found = FindingView { path, line: Some(j + 1), message };
    let before = text_findings(path, lines.drop_last(), terms);
    let last = numbered(path, lines.len() as int, line_findings(lines.last(), terms));
    if j < lines.len() - 1 {
        a_message_is_numbered(path, lines.drop_last(), terms, j, message);
    } else {
        let messages = line_findings(lines.last(), terms);
        let k = choose|k: int| 0 <= k < messages.len() && messages[k] == message;
        assert(last[k] == found);
    }
    parts_are_contained(before, last, found);
}

proof fn a_finding_reaches_the_audit(
    files: Seq<TrackedFile>,
    terms: Seq<Seq<char>>,
    i: int,
    found: FindingView,
)
    requires
        0 <= i < files.len(),
        file_findings(files[i], terms).contains(found),
    ensures
        public_findings(files, terms).contains(found),
    decreases files.len(),
{
    if i < files.len() - 1 {
        a_finding_reaches_the_audit(files.drop_last(), terms, i, found);
    }
    parts_are_contained(
        public_findings(files.drop_last(), terms),
        file_findings(files.last(), terms),
        found,
    );
}

/// What is wrong with a line of a file that is read is reported with the file
/// and the number of the line.
pub proof fn flaws_are_reported_where_they_stand(
    files: Seq<TrackedFile>,
    terms: Seq<Seq<char>>,
    i: int,
    content: String,
    j: int,
    message: Seq<char>,
)
    requires
        0 <= i < files.len(),
        is_read(files[i].path@, files[i].size),
        files[i].text == Some(content),
        0 <= j < text::lines_of(content@).len(),
        line_findings(text::lines_of(content@)[j], terms).contains(message),
    ensures
        public_findings(files, terms).contains(
            (FindingView { path: files[i].path@, line: Some(j + 1), message }),
        ),
{
    let found = FindingView { path: files[i].path@, line: Some(j + 1), message };
    a_message_is_numbered(files[i].path@, text::lines_of(content@), terms, j, message);
    a_finding_reaches_the_audit(files, terms, i, found);
}

/// A file whose path is private is reported by its path.
pub proof fn private_paths_are_reported(files: Seq<TrackedFile>, terms: Seq<Seq<char>>, i: int)
    requires
        0 <= i < files.len(),
        path_finding(files[i].path@) is Some,
    ensures
        public_findings(files, terms).contains(
            (FindingView {
                path: files[i].path@,
                line: None,
                message: path_finding(files[i].path@)->0,
            }),
        ),
{
    let found = FindingView {
        path: files[i].path@,
        line: None,
        message: path_finding(files[i].path@)->0,
    };
    assert(file_findings(files[i], terms)[0] == found);
    a_finding_reaches_the_audit(files, terms, i, found);
}

/// The audit is content exactly where there is nothing wrong with any file.
pub proof fn only_clean_files_pass(files: Seq<TrackedFile>, terms: Seq<Seq<char>>)
    ensures
        public_findings(files, terms).len() == 0 <==> (forall|i: int|
            0 <= i < files.len() ==> (#[trigger] file_findings(files[i], terms)).len() == 0),
    decreases files.len(),
{
    if files.len() > 0 {
        let others = files.drop_last();
        only_clean_files_pass(others, terms);
        assert(forall|i: int| 0 <= i < others.len() ==> others[i] == files[i]);
        if public_findings(files, terms).len() == 0 {
            assert forall|i: int| 0 <= i < files.len() implies (#[trigger] file_findings(
                files[i],
                terms,
            )).len() == 0 by {
                if i < others.len() {
                    assert(file_findings(others[i], terms).len() == 0);
                }
            }
        } else if public_findings(others, terms).len() > 0 {
            let i = choose|i: int|
                0 <= i < others.len() && (#[trigger] file_findings(others[i], terms)).len() != 0;
            assert(file_findings(files[i], terms).len() != 0);
        } else {
            assert(file_findings(files[files.len() - 1], terms).len() != 0);
        }
    }
}

/// To assign a placeholder is never taken for a secret, whatever the key.
pub proof fn placeholders_are_allowed(key: Seq<char>, value: Seq<char>)
    requires
        forall|i: int| 0 <= i < key.len() ==> #[trigger] key[i] != '=',
        placeholder(bare_value(value)),
    ensures
        !assigns_secret(key + "="@ + value),
{
    reveal_strlit("=");
    let line = key + "="@ + value;
    text::first_char_at(line, '=', key.len() as int);
    assert(line.take(key.len() as int) =~= key);
    assert(line.skip((key.len() + 1) as int) =~= value);
}

/// The text of a file whose path is private is never looked at.
pub proof fn private_paths_are_reported_unread(file: TrackedFile, terms: Seq<Seq<char>>)
    requires
        path_finding(file.path@) is Some,
    ensures
        file_findings(file, terms).len() == 1,
        file_findings(file, terms)[0].line is None,
        !is_read(file.path@, file.size),
{
}

proof fn nothing_is_turned(s: Seq<char>)
    requires
        !s.contains('\\'),
    ensures
        text::replaced(s, '\\', "/"@) == s,
    decreases s.len(),
{
    if s.len() > 0 {
        let front = s.drop_last();
        assert forall|i: int| 0 <= i < front.len() implies front[i] != '\\' by {
            assert(s.contains(s[i]));
        }
        assert(s.contains(s[s.len() - 1]));
        nothing_is_turned(front);
        assert(front + seq![s.last()] =~= s);
    } else {
        assert(text::replaced(s, '\\', "/"@) =~= s);
    }
}

proof fn paths_keep_their_strokes(folder: Seq<char>, name: Seq<char>)
    requires
        !folder.contains('\\'),
        !name.contains('\\'),
    ensures
        text::replaced(folder + seq!['/'] + name, '\\', "/"@) == folder + seq!['/'] + name,
{
    let path = folder + seq!['/'] + name;
    assert forall|i: int| 0 <= i < path.len() implies path[i] != '\\' by {
        if i < folder.len() {
            assert(folder.contains(folder[i]));
        } else if i > folder.len() {
            assert(name.contains(name[i - folder.len() - 1]));
            assert(path[i] == name[i - folder.len() - 1]);
        }
    }
    nothing_is_turned(path);
}

#[verifier::rlimit(50)]
#[verifier::spinoff_prover]
proof fn private_names_are_plain()
    ensures
        forall|name: Seq<char>|
            denied_name(name) ==> #[trigger] name.len() > 0 && !name.contains('/') && !name.contains(
                '\\',
            ),
{
    reveal_strlit("AGENTS.md");
    reveal_strlit("plugdeck.local.toml");
    reveal_strlit(".env");
    reveal_strlit(".env.local");
    reveal_strlit("id_rsa");
    reveal_strlit("id_ed25519");
}

/// A file of one of the private names is found, in whatever folder it lies, and
/// whichever strokes its path is written with.
pub proof fn private_names_are_found_in_any_folder(folder: Seq<char>, name: Seq<char>)
    requires
        name == "AGENTS.md"@ || name == "plugdeck.local.toml"@ || name == ".env"@ || name
            == ".env.local"@ || name == "id_rsa"@ || name == "id_ed25519"@,
        !folder.contains('\\'),
    ensures
        path_finding(name) == Some("private file path is tracked"@),
        path_finding(folder + seq!['/'] + name) == Some("private file path is tracked"@),
{
    private_names_are_plain();
    assert(denied_name(name) && name.len() > 0);
    paths_keep_their_strokes(folder, name);
    nothing_is_turned(name);
    text::nothing_follows_the_last(folder, '/', name);
}

/// A path written with the other stroke is judged as the same path.
pub proof fn strokes_are_alike(a: Seq<char>, b: Seq<char>)
    ensures
        path_finding(a + seq!['\\'] + b) == path_finding(a + seq!['/'] + b),
{
    reveal_strlit("/");
    assert("/"@ =~= seq!['/']);
    let other = seq!['\\'];
    let stroke = seq!['/'];
    text::replacing_goes_by_characters(a + other, b, '\\', "/"@, '/');
    text::replacing_goes_by_characters(a, other, '\\', "/"@, '/');
    text::replacing_goes_by_characters(a + stroke, b, '\\', "/"@, '/');
    text::replacing_goes_by_characters(a, stroke, '\\', "/"@, '/');
}

/// A file of private variables is found in any folder, but for the example.
pub proof fn variables_are_found_in_any_folder(folder: Seq<char>, rest: Seq<char>)
    requires
        !folder.contains('\\'),
        !rest.contains('\\'),
        !rest.contains('/'),
        rest != "example"@,
    ensures
        path_finding(folder + seq!['/'] + (".env."@ + rest)) is Some,
{
    reveal_strlit(".env.");
    reveal_strlit(".env.example");
    reveal_strlit("example");
    let name = ".env."@ + rest;
    assert forall|i: int| 0 <= i < name.len() implies name[i] != '/' && name[i] != '\\' by {
        if i >= 5 {
            assert(rest.contains(rest[i - 5]));
            assert(name[i] == rest[i - 5]);
        }
    }
    paths_keep_their_strokes(folder, name);
    text::nothing_follows_the_last(folder, '/', name);
    text::parts_of_a_text(Seq::empty(), ".env."@, rest);
    if name == ".env.example"@ {
        assert(rest =~= name.skip(5));
        assert(name.skip(5) =~= "example"@);
    }
}

/// What lies in one of the deck's own folders, at the top or further down, is
/// found.
pub proof fn private_folders_are_found(a: Seq<char>, rest: Seq<char>)
    requires
        !a.contains('\\'),
        !rest.contains('\\'),
    ensures
        path_finding("docs/private/"@ + rest) is Some,
        path_finding(".plugdeck/"@ + rest) is Some,
        path_finding("backups/"@ + rest) is Some,
        path_finding("data/"@ + rest) is Some,
        path_finding("downloads/"@ + rest) is Some,
        path_finding(a + "/data/"@ + rest) is Some,
        path_finding(a + "/cache/"@ + rest) is Some,
        path_finding(a + "/config/"@ + rest) is Some,
        path_finding(a + "/downloads/"@ + rest) is Some,
        path_finding(a + "/secrets/"@ + rest) is Some,
{
    let none = Seq::<char>::empty();
    assert(!"docs/private/"@.contains('\\')) by {
        reveal_strlit("docs/private/");
    }
    a_private_folder_is_found(none, "docs/private/"@, rest);
    assert(none + "docs/private/"@ + rest =~= "docs/private/"@ + rest);
    assert(!".plugdeck/"@.contains('\\')) by {
        reveal_strlit(".plugdeck/");
    }
    a_private_folder_is_found(none, ".plugdeck/"@, rest);
    assert(none + ".plugdeck/"@ + rest =~= ".plugdeck/"@ + rest);
    assert(!"backups/"@.contains('\\')) by {
        reveal_strlit("backups/");
    }
    a_private_folder_is_found(none, "backups/"@, rest);
    assert(none + "backups/"@ + rest =~= "backups/"@ + rest);
    assert(!"data/"@.contains('\\')) by {
        reveal_strlit("data/");
    }
    a_private_folder_is_found(none, "data/"@, rest);
    assert(none + "data/"@ + rest =~= "data/"@ + rest);
    assert(!"downloads/"@.contains('\\')) by {
        reveal_strlit("downloads/");
    }
    a_private_folder_is_found(none, "downloads/"@, rest);
    assert(none + "downloads/"@ + rest =~= "downloads/"@ + rest);
    assert(!"/data/"@.contains('\\')) by {
        reveal_strlit("/data/");
    }
    a_private_folder_is_found(a, "/data/"@, rest);
    assert(!"/cache/"@.contains('\\')) by {
        reveal_strlit("/cache/");
    }
    a_private_folder_is_found(a, "/cache/"@, rest);
    assert(!"/config/"@.contains('\\')) by {
        reveal_strlit("/config/");
    }
    a_private_folder_is_found(a, "/config/"@, rest);
    assert(!"/downloads/"@.contains('\\')) by {
        reveal_strlit("/downloads/");
    }
    a_private_folder_is_found(a, "/downloads/"@, rest);
    assert(!"/secrets/"@.contains('\\')) by {
        reveal_strlit("/secrets/");
    }
    a_private_folder_is_found(a, "/secrets/"@, rest);
}

proof fn a_private_folder_is_found(a: Seq<char>, p: Seq<char>, rest: Seq<char>)
    requires
        !a.contains('\\'),
        !p.contains('\\'),
        !rest.contains('\\'),
        p == "/data/"@ || p == "/cache/"@ || p == "/config/"@ || p == "/downloads/"@ || p
            == "/secrets/"@ || (a.len() == 0 && (p == "docs/private/"@ || p == ".plugdeck/"@ || p
            == "backups/"@ || p == "data/"@ || p == "downloads/"@)),
    ensures
        path_finding(a + p + rest) is Some,
{
    a_part_is_unturned(a, p, rest);
}

proof fn a_part_is_unturned(a: Seq<char>, p: Seq<char>, rest: Seq<char>)
    requires
        !a.contains('\\'),
        !p.contains('\\'),
        !rest.contains('\\'),
    ensures
        text::replaced(a + p + rest, '\\', "/"@) == a + p + rest,
        text::has_text(a + p + rest, p),
        a.len() == 0 ==> a + p + rest == p + rest && text::has_prefix(p + rest, p),
{
    let s = a + p + rest;
    assert forall|i: int| 0 <= i < s.len() implies s[i] != '\\' by {
        if i < a.len() {
            assert(a.contains(a[i]));
        } else if i < a.len() + p.len() {
            assert(p.contains(p[i - a.len()]));
        } else {
            assert(rest.contains(rest[i - a.len() - p.len()]));
        }
    }
    nothing_is_turned(s);
    text::parts_of_a_text(a, p, rest);
    if a.len() == 0 {
        assert(s =~= p + rest);
    }
}

/// A file with one of the extensions of private state or keys is found.
#[verifier::rlimit(50)]
#[verifier::spinoff_prover]
pub proof fn private_extensions_are_found(folder: Seq<char>, stem: Seq<char>, ext: Seq<char>)
    requires
        !folder.contains('\\'),
        !stem.contains('\\'),
        !stem.contains('/'),
        stem.len() > 0,
        ext == "db"@ || ext == "sqlite"@ || ext == "sqlite3"@ || ext == "log"@ || ext == "pid"@ || ext
            == "pem"@ || ext == "key"@ || ext == "p12"@ || ext == "pfx"@,
    ensures
        path_finding(folder + seq!['/'] + (stem + seq!['.'] + ext)) is Some,
{
    reveal_strlit("db");
    reveal_strlit("sqlite");
    reveal_strlit("sqlite3");
    reveal_strlit("log");
    reveal_strlit("pid");
    reveal_strlit("pem");
    reveal_strlit("key");
    reveal_strlit("p12");
    reveal_strlit("pfx");
    reveal_strlit(".");
    reveal_strlit("..");
    let name = stem + seq!['.'] + ext;
    assert(!ext.contains('/') && !ext.contains('\\') && !ext.contains('.'));
    assert forall|i: int| 0 <= i < name.len() implies name[i] != '/' && name[i] != '\\' by {
        if i < stem.len() {
            assert(stem.contains(stem[i]));
        } else if i > stem.len() {
            assert(ext.contains(ext[i - stem.len() - 1]));
            assert(name[i] == ext[i - stem.len() - 1]);
        }
    }
    paths_keep_their_strokes(folder, name);
    text::nothing_follows_the_last(folder, '/', name);
    assert(name.len() > 2);
    paths::names_are_steps(Seq::empty(), name);
    text::nothing_follows_the_last(stem, '.', ext);
    assert(paths::name_of(name) == Some(name)) by {
        assert(paths::steps(name).last() == name);
    }
    assert(paths::extension_of(name) == Some(ext));
}

/// An ordinary name at the top, and the example of the variables, are no finding.
#[verifier::rlimit(50)]
#[verifier::spinoff_prover]
pub proof fn ordinary_names_are_no_finding(name: Seq<char>)
    requires
        !name.contains('/'),
        !name.contains('\\'),
        !name.contains('.'),
        name != "id_rsa"@,
        name != "id_ed25519"@,
    ensures
        path_finding(name) is None,
        path_finding(".env.example"@) is None,
{
    reveal_strlit("AGENTS.md");
    reveal_strlit("plugdeck.local.toml");
    reveal_strlit(".env");
    reveal_strlit(".env.local");
    reveal_strlit(".env.");
    reveal_strlit(".env.example");
    reveal_strlit("id_rsa");
    reveal_strlit("id_ed25519");
    reveal_strlit("example");
    strokes_are_needed(name);
    nothing_is_turned(name);
    text::nothing_follows_the_last(Seq::empty(), '/', name);
    assert("AGENTS.md"@[6] == '.' && "plugdeck.local.toml"@[8] == '.' && ".env"@[0] == '.'
        && ".env.local"@[0] == '.');
    if text::has_prefix(name, ".env."@) {
        assert(name.take(5)[0] == name[0]);
    }
    if paths::name_of(name) is Some {
        let all = paths::steps(name);
        if name.len() > 0 {
            paths::names_are_steps(Seq::empty(), name);
        } else {
            assert(name =~= Seq::empty());
            paths::names_are_steps(Seq::empty(), Seq::empty());
        }
        text::nothing_follows_the_last(Seq::empty(), '.', name);
    }
    let e = ".env.example"@;
    assert(!e.contains('/') && !e.contains('\\'));
    strokes_are_needed(e);
    nothing_is_turned(e);
    text::nothing_follows_the_last(Seq::empty(), '/', e);
    assert(e.len() == 12);
    reveal_strlit(".");
    reveal_strlit("..");
    paths::names_are_steps(Seq::empty(), e);
    assert(paths::name_of(e) == Some(e));
    let x = "example"@;
    assert(!x.contains('.'));
    assert(e =~= e.take(4) + seq!['.'] + x);
    text::nothing_follows_the_last(e.take(4), '.', x);
    reveal_strlit("db");
    reveal_strlit("sqlite");
    reveal_strlit("sqlite3");
    reveal_strlit("log");
    reveal_strlit("pid");
    reveal_strlit("pem");
    reveal_strlit("key");
    reveal_strlit("p12");
    reveal_strlit("pfx");
    assert("sqlite3"@[0] == 's' && x[0] == 'e');
}

proof fn strokes_are_needed(name: Seq<char>)
    requires
        !name.contains('/'),
    ensures
        !denied_top(name),
        !denied_middle(name),
{
    reveal_strlit("docs/private/");
    reveal_strlit(".plugdeck/");
    reveal_strlit("backups/");
    reveal_strlit("data/");
    reveal_strlit("downloads/");
    reveal_strlit("/data/");
    reveal_strlit("/cache/");
    reveal_strlit("/config/");
    reveal_strlit("/downloads/");
    reveal_strlit("/secrets/");
    no_stroke_no_part(name, "docs/private/"@, 4);
    no_stroke_no_part(name, ".plugdeck/"@, 9);
    no_stroke_no_part(name, "backups/"@, 7);
    no_stroke_no_part(name, "data/"@, 4);
    no_stroke_no_part(name, "downloads/"@, 9);
    no_stroke_no_part(name, "/data/"@, 0);
    no_stroke_no_part(name, "/cache/"@, 0);
    no_stroke_no_part(name, "/config/"@, 0);
    no_stroke_no_part(name, "/downloads/"@, 0);
    no_stroke_no_part(name, "/secrets/"@, 0);
}

proof fn no_stroke_no_part(name: Seq<char>, p: Seq<char>, k: int)
    requires
        !name.contains('/'),
        0 <= k < p.len(),
        p[k] == '/',
    ensures
        !text::has_prefix(name, p),
        !text::has_text(name, p),
{
    if text::has_prefix(name, p) {
        assert(name.take(p.len() as int)[k] == name[k]);
        assert(name.contains(name[k]));
    }
    if text::has_text(name, p) {
        let i = choose|i: int| text::occurs_at(name, p, i);
        assert(name.subrange(i, i + p.len())[k] == name[i + k]);
        assert(name.contains(name[i + k]));
    }
}

/// A key that holds one of the words for secrets, plain and in any case, and has
/// a value that is no placeholder behind an equals sign or a colon is reported.
#[verifier::rlimit(50)]
#[verifier::spinoff_prover]
pub proof fn secrets_are_found_in_assignments(
    a: Seq<char>,
    word: Seq<char>,
    b: Seq<char>,
    key: Seq<char>,
    value: Seq<char>,
)
    requires
        word == "password"@ || word == "passwd"@ || word == "secret"@ || word == "token"@ || word
            == "api_key"@ || word == "apikey"@ || word == "access_key"@ || word == "client_secret"@
            || word == "private_key"@,
        text::lowered(text::trimmed(key)) == a + word + b,
        (a + word + b).len() <= 80,
        text::all_in(a + word + b, CharSet::FileName),
        !key.contains('='),
        !key.contains(':'),
        !placeholder(bare_value(value)),
    ensures
        !text::has_text(key + seq!['='] + value, "::"@) ==> assigns_secret(key + seq!['='] + value),
        !value.contains('=') && !text::has_text(key + seq![':'] + value, "::"@) ==> assigns_secret(
            key + seq![':'] + value,
        ),
{
    reveal_strlit("password");
    reveal_strlit("passwd");
    reveal_strlit("secret");
    reveal_strlit("token");
    reveal_strlit("api_key");
    reveal_strlit("apikey");
    reveal_strlit("access_key");
    reveal_strlit("client_secret");
    reveal_strlit("private_key");
    text::parts_of_a_text(a, word, b);
    text::splits_are_at_the_first(key, '=', value);
    text::splits_are_at_the_first(key, ':', value);
    let line = key + seq![':'] + value;
    if !value.contains('=') {
        assert forall|i: int| 0 <= i < line.len() implies #[trigger] line[i] != '=' by {
            if i < key.len() {
                assert(key.contains(key[i]));
            } else if i > key.len() {
                assert(value.contains(value[i - key.len() - 1]));
                assert(line[i] == value[i - key.len() - 1]);
            }
        }
        text::first_char_is_least(line, '=');
    }
}

/// A key without one of those words is no secret, and neither is a line without
/// an assignment or one that names a path in a program.
pub proof fn other_lines_assign_no_secret(line: Seq<char>, key: Seq<char>, value: Seq<char>)
    requires
        !key.contains('='),
        !secret_key(text::lowered(text::trimmed(key))),
    ensures
        !assigns_secret(key + seq!['='] + value),
        !line.contains('=') && !line.contains(':') ==> !assigns_secret(line),
        text::has_text(line, "::"@) ==> !assigns_secret(line),
{
    text::splits_are_at_the_first(key, '=', value);
    if !line.contains('=') && !line.contains(':') {
        text::splits_are_at_the_first(line, '=', value);
        text::splits_are_at_the_first(line, ':', value);
    }
}

/// A key is one of a secret exactly where it holds one of the words.
pub proof fn secret_keys_hold_a_word(key: Seq<char>)
    ensures
        secret_key(key) <==> {
            ||| text::has_text(key, "password"@)
            ||| text::has_text(key, "passwd"@)
            ||| text::has_text(key, "secret"@)
            ||| text::has_text(key, "token"@)
            ||| text::has_text(key, "api_key"@)
            ||| text::has_text(key, "apikey"@)
            ||| text::has_text(key, "access_key"@)
            ||| text::has_text(key, "client_secret"@)
            ||| text::has_text(key, "private_key"@)
        },
{
}

/// A value is a placeholder exactly where it is one of the words for nothing, in
/// any case, or starts or looks like a form that is to be filled in.
pub proof fn placeholders_are_known(value: Seq<char>)
    ensures
        placeholder(value) <==> {
            let word = text::lowered(value);
            ||| word == ""@ || word == "example"@ || word == "placeholder"@ || word == "changeme"@
                || word == "change-me"@ || word == "redacted"@ || word == "dummy"@ || word
                == "none"@ || word == "null"@ || word == "false"@ || word == "true"@
            ||| value == "String"@
            ||| text::has_prefix(value, "Option<"@)
            ||| text::has_prefix(value, "Vec<"@)
            ||| text::has_prefix(value, "${"@)
            ||| text::has_prefix(value, "<"@)
            ||| text::has_prefix(value, "your-"@)
            ||| text::has_text(value, "..."@)
            ||| text::has_prefix(value, "Some("@)
            ||| text::has_prefix(value, "vec!"@)
        },
{
}

/// A value is judged without the quotes around it, and without the comma behind
/// a value that stands bare.
#[verifier::rlimit(50)]
#[verifier::spinoff_prover]
pub proof fn quotes_are_no_part_of_a_value(value: Seq<char>)
    requires
        value.len() > 0,
        text::all_in(value, CharSet::FileName),
    ensures
        bare_value(value) == value,
        bare_value(seq!['"'] + value + seq!['"']) == value,
        bare_value(seq!['\''] + value + seq!['\'']) == value,
        bare_value(value + seq![',']) == value,
        bare_value(seq![' '] + value) == value,
{
    let first = value[0];
    let last = value[value.len() - 1];
    assert(CharSet::FileName.has(first) && CharSet::FileName.has(last));
    let space = CharSet::Space;
    let double = CharSet::Only('"');
    let single = CharSet::Only('\'');
    let comma = CharSet::Only(',');
    ends_stay(value, space);
    ends_stay(value, double);
    ends_stay(value, single);
    ends_stay(value, comma);
    let d = seq!['"'] + value + seq!['"'];
    wrapped_is_bared(value, '"');
    wrapped_is_bared(value, '\'');
    ends_stay(d, space);
    let s = seq!['\''] + value + seq!['\''];
    ends_stay(s, space);
    ends_stay(s, double);
    let c = value + seq![','];
    assert(c[0] == first);
    ends_stay(c, space);
    ends_stay(c, double);
    ends_stay(c, single);
    assert(c.drop_last() =~= value);
    assert(text::trimmed_end(c, comma) == value);
    let w = seq![' '] + value;
    assert(w.skip(1) =~= value);
    assert(text::trimmed_start(value, space) == value);
    assert(text::trimmed_start(w, space) == value);
}

proof fn ends_stay(s: Seq<char>, set: CharSet)
    requires
        s.len() > 0,
        !set.has(s[0]),
        !set.has(s.last()),
    ensures
        text::trimmed_of(s, set) == s,
        text::trimmed_end(s, set) == s,
{
}

proof fn wrapped_is_bared(value: Seq<char>, q: char)
    requires
        value.len() > 0,
        value[0] != q,
        value.last() != q,
    ensures
        text::trimmed_of(seq![q] + value + seq![q], CharSet::Only(q)) == value,
{
    let set = CharSet::Only(q);
    let s = seq![q] + value + seq![q];
    let t = value + seq![q];
    assert(s.skip(1) =~= t);
    assert(t[0] == value[0]);
    assert(text::trimmed_start(t, set) == t);
    assert(text::trimmed_start(s, set) == t);
    assert(t.drop_last() =~= value);
    assert(text::trimmed_end(value, set) == value);
}

/// Four numbers of a byte each with dots between them are a shared address
/// exactly where the first is a hundred and the second lies from sixty-four to a
/// hundred and twenty-seven.
pub proof fn shared_addresses_lie_in_their_block(a: nat, b: nat, c: nat, d: nat)
    requires
        a <= 255,
        b <= 255,
        c <= 255,
        d <= 255,
    ensures
        shared_address(
            decimal::digits(a) + seq!['.'] + (decimal::digits(b) + seq!['.'] + (decimal::digits(c)
                + seq!['.'] + decimal::digits(d))),
        ) <==> a == 100 && 64 <= b <= 127,
{
    let da = decimal::digits(a);
    let db = decimal::digits(b);
    let dc = decimal::digits(c);
    let dd = decimal::digits(d);
    digits_have_no_dot(a);
    digits_have_no_dot(b);
    digits_have_no_dot(c);
    digits_have_no_dot(d);
    let t3 = dc + seq!['.'] + dd;
    let t2 = db + seq!['.'] + t3;
    let t1 = da + seq!['.'] + t2;
    a_part_is_split_off(dd, Seq::empty());
    a_part_is_split_off(dc, dd);
    a_part_is_split_off(db, t3);
    a_part_is_split_off(da, t2);
    let parts = text::split_on(t1, '.');
    assert(parts =~= seq![da, db, dc, dd]);
    let none = Seq::<char>::empty();
    decimal::numerals_are_read_up_to_the_largest(a, 255, none, 0);
    decimal::numerals_are_read_up_to_the_largest(b, 255, none, 0);
    decimal::numerals_are_read_up_to_the_largest(c, 255, none, 0);
    decimal::numerals_are_read_up_to_the_largest(d, 255, none, 0);
}

proof fn digits_have_no_dot(n: nat)
    ensures
        !decimal::digits(n).contains('.'),
{
    decimal::digits_denote(n);
    let s = decimal::digits(n);
    assert forall|i: int| 0 <= i < s.len() implies s[i] != '.' by {
        assert(text::is_digit(s[i]));
    }
}

proof fn a_part_is_split_off(first: Seq<char>, rest: Seq<char>)
    requires
        !first.contains('.'),
    ensures
        text::split_on(first, '.') == seq![first],
        text::split_on(first + seq!['.'] + rest, '.') == seq![first] + text::split_on(rest, '.'),
{
    let s = first + seq!['.'] + rest;
    assert forall|j: int| 0 <= j < first.len() implies #[trigger] s[j] != '.' by {
        assert(s[j] == first[j]);
        assert(first.contains(first[j]));
    }
    assert(s[first.len() as int] == '.');
    text::first_char_at(s, '.', first.len() as int);
    assert(s.take(first.len() as int) =~= first);
    assert(s.skip(first.len() as int + 1) =~= rest);
    text::first_char_is_least(first, '.');
    assert(text::split_on(first, '.') =~= seq![first]);
}

/// Fewer or more than four parts are no address.
pub proof fn addresses_have_four_parts(token: Seq<char>)
    requires
        text::split_on(token, '.').len() != 4,
    ensures
        !shared_address(token),
{
}

/// A line is taken apart at the characters that cannot stand in an address, so
/// that an address is found wherever it stands between such characters.
pub proof fn addresses_are_found_anywhere(a: Seq<char>, x: char, token: Seq<char>, y: char, b: Seq<char>)
    requires
        text::all_in(token, CharSet::DigitDot),
        shared_address(token),
        !CharSet::DigitDot.has(x),
        !CharSet::DigitDot.has(y),
    ensures
        has_shared_address(token),
        has_shared_address(a + seq![x] + token + seq![y] + b),
{
    let set = CharSet::DigitDot;
    pieces_of_a_run(token, set);
    assert(pieces(token, set)[0] == token);
    let front = a + seq![x];
    pieces_part_at(a, x, token, set);
    let left = a + seq![x] + token;
    pieces_part_at(left, y, b, set);
    let all = pieces(left + seq![y] + b, set);
    let n = pieces(a, set).len() as int;
    assert(pieces(left, set)[n] == token);
    assert(all[n] == token);
}

/// The pieces of a text on both sides of a character outside the set are those of
/// the text before it and those of the text behind it.
pub proof fn pieces_part_at(a: Seq<char>, x: char, b: Seq<char>, set: CharSet)
    requires
        !set.has(x),
    ensures
        pieces(a + seq![x] + b, set) == pieces(a, set) + pieces(b, set),
        pieces(a, set).len() > 0,
        pieces(b, set).len() > 0,
    decreases b.len(),
{
    let s = a + seq![x] + b;
    some_piece(a, set);
    some_piece(b, set);
    if b.len() == 0 {
        assert(s.drop_last() =~= a);
        assert(pieces(s, set) =~= pieces(a, set) + pieces(b, set));
    } else {
        let front = b.drop_last();
        pieces_part_at(a, x, front, set);
        assert(s.drop_last() =~= a + seq![x] + front);
        assert(s.last() == b.last());
        let p = pieces(a, set);
        let q = pieces(front, set);
        assert((p + q).last() == q.last());
        assert((p + q).drop_last() =~= p + q.drop_last());
        assert(pieces(s, set) =~= p + pieces(b, set));
    }
}

proof fn some_piece(s: Seq<char>, set: CharSet)
    ensures
        pieces(s, set).len() > 0,
    decreases s.len(),
{
    if s.len() > 0 {
        some_piece(s.drop_last(), set);
    }
}

/// A text of the set's characters alone is one piece.
pub proof fn pieces_of_a_run(s: Seq<char>, set: CharSet)
    requires
        text::all_in(s, set),
    ensures
        pieces(s, set) == seq![s],
    decreases s.len(),
{
    if s.len() > 0 {
        let front = s.drop_last();
        assert forall|i: int| 0 <= i < front.len() implies set.has(#[trigger] front[i]) by {
            assert(front[i] == s[i]);
        }
        pieces_of_a_run(front, set);
        assert(set.has(s[s.len() - 1]));
        assert(front.push(s.last()) =~= s);
        assert(pieces(s, set) =~= seq![s]);
    } else {
        assert(s =~= Seq::empty());
        assert(pieces(s, set) =~= seq![s]);
    }
}

/// The marks of known tokens.
pub proof fn token_marks_are_known()
    ensures
        markers().len() == 8,
        markers()[0] == "github"@ + "_pat_"@,
        markers()[1] == "gh"@ + "p_"@,
        markers()[2] == "gh"@ + "o_"@,
        markers()[3] == "gh"@ + "s_"@,
        markers()[4] == "gh"@ + "u_"@,
        markers()[5] == "s"@ + "k-"@,
        markers()[6] == "xo"@ + "xb-"@,
        markers()[7] == "xo"@ + "xp-"@,
{
}

proof fn marks_have_a_reason(line: Seq<char>, list: Seq<Seq<char>>, m: Seq<char>)
    requires
        marker_findings(line, list).contains(m),
    ensures
        exists|i: int|
            0 <= i < list.len() && text::has_text(line, #[trigger] list[i]) && m
                == "token marker `"@ + list[i] + "`"@,
    decreases list.len(),
{
    if list.len() > 0 {
        let front = list.drop_last();
        let before = marker_findings(line, front);
        let all = marker_findings(line, list);
        let k = choose|k: int| 0 <= k < all.len() && all[k] == m;
        if k < before.len() {
            assert(before[k] == m);
            assert(before.contains(m));
            marks_have_a_reason(line, front, m);
            let i = choose|i: int|
                0 <= i < front.len() && text::has_text(line, #[trigger] front[i]) && m
                    == "token marker `"@ + front[i] + "`"@;
            assert(list[i] == front[i]);
        } else {
            assert(text::has_text(line, list[list.len() - 1]));
        }
    }
}

proof fn terms_have_a_reason(lower: Seq<char>, terms: Seq<Seq<char>>, m: Seq<char>)
    requires
        term_findings(lower, terms).contains(m),
    ensures
        m == "local denylist term"@,
        exists|i: int|
            0 <= i < terms.len() && (#[trigger] terms[i]).len() > 0 && text::has_text(
                lower,
                terms[i],
            ),
    decreases terms.len(),
{
    if terms.len() > 0 {
        let front = terms.drop_last();
        let before = term_findings(lower, front);
        let all = term_findings(lower, terms);
        let k = choose|k: int| 0 <= k < all.len() && all[k] == m;
        if k < before.len() {
            assert(before[k] == m);
            assert(before.contains(m));
            terms_have_a_reason(lower, front, m);
            let i = choose|i: int|
                0 <= i < front.len() && (#[trigger] front[i]).len() > 0 && text::has_text(
                    lower,
                    front[i],
                );
            assert(terms[i] == front[i]);
        } else {
            assert(terms[terms.len() - 1].len() > 0);
        }
    }
}

/// Nothing is reported of a line without a reason in that line.
pub proof fn findings_have_a_reason(line: Seq<char>, terms: Seq<Seq<char>>, m: Seq<char>)
    requires
        line_findings(line, terms).contains(m),
    ensures
        !is_comment(line),
        ({
            ||| m == "private key material"@ && text::has_text(line, "-----BEGIN "@)
                && text::has_text(line, "PRIVATE"@ + " KEY"@)
            ||| exists|i: int|
                0 <= i < markers().len() && text::has_text(line, #[trigger] markers()[i]) && m
                    == "token marker `"@ + markers()[i] + "`"@
            ||| m == "Tailscale/CGNAT private IP address"@ && has_shared_address(line)
            ||| m == "non-placeholder secret-looking assignment"@ && assigns_secret(line)
            ||| m == "local denylist term"@ && exists|i: int|
                0 <= i < terms.len() && (#[trigger] terms[i]).len() > 0 && text::has_text(
                    text::lowered(line),
                    terms[i],
                )
        }),
{
    let all = line_findings(line, terms);
    if !is_comment(line) {
        let keyed = text::has_text(line, "-----BEGIN "@) && text::has_text(
            line,
            "PRIVATE"@ + " KEY"@,
        );
        let key = text::when(keyed, "private key material"@);
        let tokens = marker_findings(line, markers());
        let address = text::when(has_shared_address(line), "Tailscale/CGNAT private IP address"@);
        let secret = text::when(assigns_secret(line), "non-placeholder secret-looking assignment"@);
        let listed = term_findings(text::lowered(line), terms);
        let k = choose|k: int| 0 <= k < all.len() && all[k] == m;
        let n1 = key.len() as int;
        let n2 = n1 + tokens.len();
        let n3 = n2 + address.len();
        let n4 = n3 + secret.len();
        assert(all == key + tokens + address + secret + listed);
        if k < n1 {
            assert(m == key[k]);
        } else if k < n2 {
            assert(m == tokens[k - n1]);
            assert(tokens.contains(m));
            marks_have_a_reason(line, markers(), m);
        } else if k < n3 {
            assert(m == address[k - n2]);
        } else if k < n4 {
            assert(m == secret[k - n3]);
        } else {
            assert(m == listed[k - n4]);
            assert(listed.contains(m));
            terms_have_a_reason(text::lowered(line), terms, m);
        }
    } else {
        assert(all.len() == 0);
    }
}

/// A file is looked into exactly where its path is no finding and it is not
/// larger than a million bytes.
pub proof fn large_files_are_passed_over(path: Seq<char>, size: u64)
    ensures
        is_read(path, None) <==> path_finding(path) is None,
        is_read(path, Some(size)) <==> path_finding(path) is None && size <= 1_000_000,
{
}

/// The terms of the local list are its lines in small letters, without white
/// space around them, blank ones and comments; in the order of the lines.
pub proof fn terms_are_listed_by_line(lines: Seq<Seq<char>>, line: Seq<char>)
    ensures
        listed_terms(Seq::empty()).len() == 0,
        text::is_blank(line) || text::trimmed(line)[0] == '#' ==> listed_terms(lines.push(line))
            == listed_terms(lines),
        !text::is_blank(line) && text::trimmed(line)[0] != '#' ==> listed_terms(lines.push(line))
            == listed_terms(lines).push(text::lowered(text::trimmed(line))),
{
    reveal_strlit("#");
    assert(lines.push(line).drop_last() =~= lines);
    let t = text::trimmed(line);
    if t.len() > 0 {
        assert(t.take(1)[0] == t[0]);
        if t[0] == '#' {
            assert(t.take(1) =~= "#"@);
        }
    }
}

/// A comment starts with its sign, white space before it aside.
pub proof fn comments_start_with_their_sign(line: Seq<char>, rest: Seq<char>)
    ensures
        is_comment(seq!['#'] + rest),
        is_comment(seq![' '] + line) == is_comment(line),
        line.len() > 0 && !text::is_space(line[0]) && line[0] != '#' ==> !is_comment(line),
{
    reveal_strlit("#");
    assert((seq!['#'] + rest).take(1) =~= "#"@);
    assert((seq![' '] + line).skip(1) =~= line);
    if line.len() > 0 && !text::is_space(line[0]) && line[0] != '#' {
        assert(line.take(1)[0] != "#"@[0]);
    }
}

/// The names of files that are listed are those that are not empty, in order.
pub proof fn empty_names_are_not_listed(names: Seq<Seq<char>>, name: Seq<char>)
    ensures
        listed_names(Seq::empty()).len() == 0,
        name.len() == 0 ==> listed_names(names.push(name)) == listed_names(names),
        name.len() > 0 ==> listed_names(names.push(name)) == listed_names(names).push(name),
{
    assert(names.push(name).drop_last() =~= names);
}

/// The report of nothing is that all is well; any other tells the number of
/// findings first and then each one with its place.
pub proof fn reports_tell_every_finding(findings: Seq<FindingView>, i: int, f: FindingView, n: int)
    ensures
        report_of(Seq::empty()) == seq!["audit-public: ok"@],
        findings.len() > 0 ==> report_of(findings).len() == findings.len() + 1 && report_of(
            findings,
        )[0] == "audit-public: found "@ + decimal::decimal(findings.len() as int) + " issue(s)"@,
        0 <= i < findings.len() ==> report_of(findings)[i + 1] == finding_text(findings[i]),
        f.line is None ==> finding_text(f) == f.path + ": "@ + f.message,
        f.line == Some(n) ==> finding_text(f) == f.path + ":"@ + decimal::decimal(n) + ": "@
            + f.message,
{
}

} // verus!
