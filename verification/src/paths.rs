//! Unix paths as text.

use vstd::prelude::*;
use vstd::string::StrSliceExecFns;
use vstd::string::StringExecFns;

use crate::text;

verus! {

pub open spec fn absolute(path: Seq<char>) -> bool {
    path.len() > 0 && path[0] == '/'
}

/// `rest` as seen from `base`; an absolute path stands for itself.
pub open spec fn under(base: Seq<char>, rest: Seq<char>) -> Seq<char> {
    if absolute(rest) {
        rest
    } else if base.len() > 0 && base.last() != '/' {
        base + "/"@ + rest
    } else {
        base + rest
    }
}

/// The steps of a path: the names between the slashes. An empty name is no
/// step, and `.` is one only at the start of a relative path.
pub open spec fn steps(path: Seq<char>) -> Seq<Seq<char>> {
    steps_of(text::split_on(path, '/'))
}

pub open spec fn steps_of(names: Seq<Seq<char>>) -> Seq<Seq<char>>
    decreases names.len(),
{
    if names.len() == 0 {
        names
    } else if names.last().len() == 0 || (names.last() == "."@ && names.len() > 1) {
        steps_of(names.drop_last())
    } else {
        steps_of(names.drop_last()).push(names.last())
    }
}

/// `path` is `root` or lies below it. Every path lies below the empty one.
pub open spec fn within(path: Seq<char>, root: Seq<char>) -> bool {
    &&& absolute(path) == absolute(root) || (!absolute(root) && steps(root).len() == 0)
    &&& steps(root).len() <= steps(path).len()
    &&& steps(path).take(steps(root).len() as int) == steps(root)
}

/// The last step of a path, unless that is `..` or `.`.
pub open spec fn name_of(path: Seq<char>) -> Option<Seq<char>> {
    let all = steps(path);
    if all.len() == 0 || all.last() == ".."@ || all.last() == "."@ {
        None
    } else {
        Some(all.last())
    }
}

/// What follows the last dot of a file's name, where something stands before that dot.
pub open spec fn extension_of(path: Seq<char>) -> Option<Seq<char>> {
    match name_of(path) {
        Some(name) => name_extension(name),
        None => None,
    }
}

pub open spec fn name_extension(name: Seq<char>) -> Option<Seq<char>> {
    let ext = text::after_last(name, '.');
    if ext.len() + 1 < name.len() {
        Some(ext)
    } else {
        None
    }
}

pub fn is_absolute(path: &str) -> (res: bool)
    ensures
        res == absolute(path@),
{
    path.unicode_len() > 0 && path.get_char(0) == '/'
}

pub fn join(base: &str, rest: &str) -> (res: String)
    ensures
        res@ == under(base@, rest@),
{
    if is_absolute(rest) {
        return rest.to_owned();
    }
    let mut out = base.to_owned();
    let n = base.unicode_len();
    if n > 0 && base.get_char(n - 1) != '/' {
        out.append("/");
    }
    out.append(rest);
    out
}

fn path_steps(path: &str) -> (res: Vec<String>)
    ensures
        text::texts(res@) == steps(path@),
{
    let names = text::split(path, '/');
    let ghost all = text::texts(names@);
    let mut out: Vec<String> = Vec::new();
    let mut i: usize = 0;
    assert(text::texts(out@) =~= steps_of(all.take(0)));
    while i < names.len()
        invariant
            i <= names@.len(),
            all == text::texts(names@),
            text::texts(out@) == steps_of(all.take(i as int)),
        decreases names@.len() - i,
    {
        assert(all.take(i + 1).drop_last() =~= all.take(i as int));
        let name = names[i].as_str();
        if !(name.unicode_len() == 0 || (text::same(name, ".") && i > 0)) {
            let ghost prior = out@;
            let copy = name.to_owned();
            out.push(copy);
            assert(text::texts(out@) =~= text::texts(prior).push(name@));
        }
        i += 1;
    }
    assert(all.take(i as int) =~= all);
    out
}

/// Whether `path` is `root` or lies below it.
pub fn starts_with(path: &str, root: &str) -> (res: bool)
    ensures
        res == within(path@, root@),
{
    let a = path_steps(path);
    let b = path_steps(root);
    let ghost pa = text::texts(a@);
    let ghost pb = text::texts(b@);
    assert(pb.len() == b@.len());
    if is_absolute(path) != is_absolute(root) && (is_absolute(root) || b.len() > 0) {
        return false;
    }
    if b.len() > a.len() {
        return false;
    }
    let mut i: usize = 0;
    while i < b.len()
        invariant
            i <= b@.len() <= a@.len(),
            pa == text::texts(a@),
            pa == steps(path@),
            pb == text::texts(b@),
            pb == steps(root@),
            forall|j: int| 0 <= j < i ==> pa[j] == pb[j],
        decreases b@.len() - i,
    {
        if !text::same(a[i].as_str(), b[i].as_str()) {
            assert(pa.take(pb.len() as int)[i as int] != pb[i as int]);
            return false;
        }
        assert(pa[i as int] == pb[i as int]);
        i += 1;
    }
    assert(pa.take(pb.len() as int) =~= pb);
    true
}

pub fn file_name(path: &str) -> (res: Option<String>)
    ensures
        text::opt_text(res) == name_of(path@),
{
    let all = path_steps(path);
    if all.len() == 0 {
        return None;
    }
    let last = all[all.len() - 1].as_str();
    assert(text::texts(all@).last() == last@);
    if text::same(last, "..") || text::same(last, ".") {
        None
    } else {
        Some(last.to_owned())
    }
}

pub fn extension(path: &str) -> (res: Option<String>)
    ensures
        text::opt_text(res) == extension_of(path@),
{
    match file_name(path) {
        Some(name) => {
            let ext = text::last_part(name.as_str(), '.');
            let n = name.as_str().unicode_len();
            let k = ext.unicode_len();
            if n > 0 && k < n - 1 {
                Some(ext.to_owned())
            } else {
                None
            }
        },
        None => None,
    }
}

// ---------------------------------------------------------------------------
// Paths that users write
// ---------------------------------------------------------------------------

/// The path that a text means, where `home` is the home directory.
pub open spec fn expanded(value: Seq<char>, home: Seq<char>) -> Seq<char> {
    let value = text::trimmed(value);
    if value == "~"@ {
        home
    } else if text::has_prefix(value, "~/"@) {
        under(home, value.skip("~/"@.len() as int))
    } else if text::has_prefix(value, "$HOME/"@) {
        under(home, value.skip("$HOME/"@.len() as int))
    } else {
        value
    }
}

pub fn expand_local_path(value: &str, home: &str) -> (res: String)
    ensures
        res@ == expanded(value@, home@),
{
    let value = text::trim(value);
    if text::same(value, "~") {
        return home.to_owned();
    }
    if let Some(rest) = text::strip_prefix(value, "~/") {
        return join(home, rest);
    }
    if let Some(rest) = text::strip_prefix(value, "$HOME/") {
        return join(home, rest);
    }
    value.to_owned()
}

/// The path that a text means to an agent that works in `base`.
pub open spec fn resolved(raw: Seq<char>, base: Seq<char>, home: Seq<char>) -> Seq<char> {
    under(base, expanded(text::trimmed(raw), home))
}

pub fn resolve_agent_path(raw: &str, base: &str, home: &str) -> (res: String)
    ensures
        res@ == resolved(raw@, base@, home@),
{
    let path = expand_local_path(text::trim(raw), home);
    join(base, path.as_str())
}

/// The name that a project goes by: the last step of its path.
pub open spec fn display_name(path: Seq<char>) -> Seq<char> {
    let path = text::trimmed_end(path, text::CharSet::Only('/'));
    if path.len() == 0 {
        "/"@
    } else {
        match name_of(path) {
            Some(name) => name,
            None => path,
        }
    }
}

pub fn project_display_name(path: &str) -> (res: String)
    ensures
        res@ == display_name(path@),
{
    let path = text::trim_end(path, text::CharSet::Only('/'));
    if path.unicode_len() == 0 {
        return "/".to_owned();
    }
    match file_name(path) {
        Some(name) => name,
        None => path.to_owned(),
    }
}

/// The name under which a file can be kept: letters, digits, `.`, `-` and `_`,
/// others as `_`, no `_` at either end, and 120 characters at most.
pub open spec fn safe_name(value: Seq<char>) -> Seq<char> {
    let plain = text::trimmed(value).map_values(
        |c: char|
            if text::CharSet::FileName.has(c) {
                c
            } else {
                '_'
            },
    );
    let name = text::trimmed_of(plain, text::CharSet::Only('_'));
    if name.len() == 0 {
        "attachment"@
    } else {
        text::front(name, 120)
    }
}

pub fn sanitize_filename(value: &str) -> (res: String)
    ensures
        res@ == safe_name(value@),
{
    let value = text::trim(value);
    let chars = text::chars_of(value);
    let mut plain: String = String::new();
    let mut i: usize = 0;
    while i < chars.len()
        invariant
            i <= chars@.len(),
            chars@ == value@,
            plain@.len() == i,
            forall|j: int|
                0 <= j < i ==> #[trigger] plain@[j] == (if text::CharSet::FileName.has(value@[j]) {
                    value@[j]
                } else {
                    '_'
                }),
        decreases chars@.len() - i,
    {
        if text::CharSet::FileName.holds(chars[i]) {
            plain.push(chars[i]);
        } else {
            plain.push('_');
        }
        i += 1;
    }
    assert(plain@ =~= value@.map_values(
        |c: char|
            if text::CharSet::FileName.has(c) {
                c
            } else {
                '_'
            },
    ));
    let name = text::trim_of(plain.as_str(), text::CharSet::Only('_'));
    if name.unicode_len() == 0 {
        "attachment".to_owned()
    } else {
        text::first_chars(name, 120)
    }
}

// ---------------------------------------------------------------------------
// What holds of paths
// ---------------------------------------------------------------------------

proof fn trimmed_start_is_a_part(s: Seq<char>, set: text::CharSet)
    ensures
        text::has_text(s, text::trimmed_start(s, set)),
    decreases s.len(),
{
    let t = text::trimmed_start(s, set);
    if s.len() > 0 && set.has(s[0]) {
        trimmed_start_is_a_part(s.skip(1), set);
        let k = choose|k: int| text::occurs_at(s.skip(1), t, k);
        assert(s.subrange(k + 1, k + 1 + t.len()) =~= s.skip(1).subrange(k, k + t.len()));
        assert(text::occurs_at(s, t, k + 1));
    } else {
        assert(s.subrange(0, s.len() as int) =~= s);
        assert(text::occurs_at(s, t, 0));
    }
}

proof fn trimmed_end_is_a_part(s: Seq<char>, set: text::CharSet)
    ensures
        text::has_text(s, text::trimmed_end(s, set)),
    decreases s.len(),
{
    let t = text::trimmed_end(s, set);
    if s.len() > 0 && set.has(s.last()) {
        trimmed_end_is_a_part(s.drop_last(), set);
        let k = choose|k: int| text::occurs_at(s.drop_last(), t, k);
        assert(s.subrange(k, k + t.len()) =~= s.drop_last().subrange(k, k + t.len()));
        assert(text::occurs_at(s, t, k));
    } else {
        assert(s.subrange(0, s.len() as int) =~= s);
        assert(text::occurs_at(s, t, 0));
    }
}

proof fn parts_keep_their_characters(t: Seq<char>, s: Seq<char>, set: text::CharSet)
    requires
        text::has_text(s, t),
        text::all_in(s, set),
    ensures
        text::all_in(t, set),
{
    let k = choose|k: int| text::occurs_at(s, t, k);
    assert forall|i: int| 0 <= i < t.len() implies set.has(#[trigger] t[i]) by {
        assert(s.subrange(k, k + t.len())[i] == s[k + i]);
    }
}

/// A safe name is never empty, has no more than 120 characters, and holds
/// letters, digits, `.`, `-` and `_` only: no slash, no quote, no space.
pub proof fn safe_names_are_safe(value: Seq<char>)
    ensures
        0 < safe_name(value).len() <= 120,
        text::all_in(safe_name(value), text::CharSet::FileName),
{
    let plain = text::trimmed(value).map_values(
        |c: char|
            if text::CharSet::FileName.has(c) {
                c
            } else {
                '_'
            },
    );
    assert(text::all_in(plain, text::CharSet::FileName));
    let set = text::CharSet::Only('_');
    let start = text::trimmed_start(plain, set);
    trimmed_start_is_a_part(plain, set);
    parts_keep_their_characters(start, plain, text::CharSet::FileName);
    trimmed_end_is_a_part(start, set);
    parts_keep_their_characters(text::trimmed_end(start, set), start, text::CharSet::FileName);
    reveal_strlit("attachment");
}

/// What is joined to a directory with a relative path keeps the directory in
/// front, and an absolute path leaves it.
pub proof fn joining_keeps_the_base(base: Seq<char>, rest: Seq<char>)
    requires
        !absolute(rest),
    ensures
        text::has_prefix(under(base, rest), base),
        text::has_suffix(under(base, rest), rest),
        absolute(base) ==> absolute(under(base, rest)),
{
    reveal_strlit("/");
    let all = under(base, rest);
    assert(all.take(base.len() as int) =~= base);
    assert(all.skip(all.len() - rest.len()) =~= rest);
}

/// Every path lies within itself.
pub proof fn paths_lie_within_themselves(path: Seq<char>)
    ensures
        within(path, path),
{
    assert(steps(path).take(steps(path).len() as int) =~= steps(path));
}

/// A path within a directory that lies within another lies within that one.
pub proof fn within_is_transitive(a: Seq<char>, b: Seq<char>, c: Seq<char>)
    requires
        within(a, b),
        within(b, c),
    ensures
        within(a, c),
{
    let n = steps(c).len() as int;
    assert(steps(a).take(n) =~= steps(a).take(steps(b).len() as int).take(n));
}

/// A path that starts at the root stays what it is; any other is put behind the
/// base, with one stroke between them.
pub proof fn relative_paths_start_at_the_base(base: Seq<char>, rest: Seq<char>)
    ensures
        rest.len() > 0 && rest[0] == '/' ==> under(base, rest) == rest,
        (rest.len() == 0 || rest[0] != '/') && base.len() > 0 && base.last() != '/' ==> under(
            base,
            rest,
        ) == base + seq!['/'] + rest,
        (rest.len() == 0 || rest[0] != '/') && base.len() > 0 && base.last() == '/' ==> under(
            base,
            rest,
        ) == base + rest,
        (rest.len() == 0 || rest[0] != '/') && base.len() == 0 ==> under(base, rest) == rest,
{
    reveal_strlit("/");
    assert("/"@ =~= seq!['/']);
    assert(base.len() == 0 ==> base + rest =~= rest);
}

/// A tilde, alone or before a stroke, and the name of the home variable before a
/// stroke stand for the home folder; any other path stays what it is.
pub proof fn home_is_expanded(value: Seq<char>, rest: Seq<char>, home: Seq<char>)
    ensures
        text::trimmed(value) == "~"@ ==> expanded(value, home) == home,
        text::trimmed(value) == "~/"@ + rest ==> expanded(value, home) == under(home, rest),
        text::trimmed(value) == "$HOME/"@ + rest ==> expanded(value, home) == under(home, rest),
        text::trimmed(value).len() == 0 || (text::trimmed(value)[0] != '~' && text::trimmed(
            value,
        )[0] != '$') ==> expanded(value, home) == text::trimmed(value),
{
    reveal_strlit("~");
    reveal_strlit("~/");
    reveal_strlit("$HOME/");
    let v = text::trimmed(value);
    text::parts_of_a_text(Seq::empty(), "~/"@, rest);
    text::parts_of_a_text(Seq::empty(), "$HOME/"@, rest);
    assert(("~/"@ + rest).skip(2) =~= rest);
    assert(("$HOME/"@ + rest).skip(6) =~= rest);
    assert(("$HOME/"@ + rest)[0] == '$');
    if text::has_prefix(v, "~/"@) {
        assert(v.take(2)[0] == '~');
    }
    if text::has_prefix(v, "$HOME/"@) {
        assert(v.take(6)[0] == '$');
    }
    if v == "$HOME/"@ + rest {
        assert(v[0] == '$');
        assert("~"@[0] == '~');
    }
    if v == "~/"@ + rest {
        assert(v.len() >= 2);
    }
}

/// A path is seen from its base: one that starts at the root or at home is not
/// moved by it, any other lies under it.
pub proof fn paths_are_seen_from_their_base(raw: Seq<char>, base: Seq<char>, home: Seq<char>)
    requires
        absolute(home),
    ensures
        text::trimmed(raw) == "~"@ ==> resolved(raw, base, home) == home,
        text::trimmed(raw).len() > 0 && text::trimmed(raw)[0] == '/' ==> resolved(raw, base, home)
            == text::trimmed(raw),
        text::trimmed(raw).len() > 0 && text::trimmed(raw)[0] != '/' && text::trimmed(raw)[0]
            != '~' && text::trimmed(raw)[0] != '$' && base.len() > 0 && base.last() != '/'
            ==> resolved(raw, base, home) == base + seq!['/'] + text::trimmed(raw),
{
    text::trimming_takes_runs_off_both_ends(raw, text::CharSet::Space);
    let v = text::trimmed(raw);
    home_is_expanded(v, Seq::empty(), home);
    relative_paths_start_at_the_base(base, v);
    relative_paths_start_at_the_base(base, home);
}

proof fn splitting_ends_with_the_last(a: Seq<char>, c: char, b: Seq<char>)
    requires
        !b.contains(c),
    ensures
        text::split_on(a + seq![c] + b, c) == text::split_on(a, c).push(b),
        text::split_on(b, c) == seq![b],
    decreases a.len(),
{
    let s = a + seq![c] + b;
    text::first_char_is_least(a, c);
    text::first_char_is_least(b, c);
    assert(text::split_on(b, c) =~= seq![b]);
    match text::first_char(a, c) {
        Some(i) => {
            assert forall|j: int| 0 <= j < i implies #[trigger] s[j] != c by {
                assert(s[j] == a[j]);
            }
            assert(s[i] == a[i]);
            text::first_char_at(s, c, i);
            let r = a.skip(i + 1);
            splitting_ends_with_the_last(r, c, b);
            assert(s.take(i) =~= a.take(i));
            assert(s.skip(i + 1) =~= r + seq![c] + b);
            assert(text::split_on(s, c) =~= text::split_on(a, c).push(b));
        },
        None => {
            let i = a.len() as int;
            assert forall|j: int| 0 <= j < i implies #[trigger] s[j] != c by {
                assert(s[j] == a[j]);
            }
            assert(s[i] == c);
            text::first_char_at(s, c, i);
            assert(s.take(i) =~= a);
            assert(s.skip(i + 1) =~= b);
            assert(text::split_on(s, c) =~= seq![a, b]);
            assert(text::split_on(a, c) =~= seq![a]);
        },
    }
}

/// A path's steps are the names between its strokes: a name behind a stroke adds
/// a step, and neither a further stroke nor a dot does.
pub proof fn names_are_steps(path: Seq<char>, name: Seq<char>)
    requires
        !name.contains('/'),
    ensures
        name.len() > 0 && name != "."@ ==> steps(path + seq!['/'] + name) == steps(path).push(name),
        name.len() > 0 ==> steps(name) == seq![name],
        steps(path + seq!['/']) == steps(path),
        steps(path + seq!['/'] + "."@) == steps(path),
        steps(Seq::empty()).len() == 0,
{
    reveal_strlit(".");
    let none = Seq::<char>::empty();
    splitting_ends_with_the_last(path, '/', name);
    splitting_ends_with_the_last(path, '/', none);
    splitting_ends_with_the_last(path, '/', "."@);
    splitting_ends_with_the_last(none, '/', name);
    text::splitting_is_undone_by_joining(path, '/');
    assert(path + seq!['/'] + none =~= path + seq!['/']);
    let parts = text::split_on(path, '/');
    assert(parts.push(name).drop_last() =~= parts);
    assert(parts.push(none).drop_last() =~= parts);
    assert(parts.push("."@).drop_last() =~= parts);
    assert(seq![name].drop_last() =~= Seq::<Seq<char>>::empty());
    assert(steps_of(Seq::<Seq<char>>::empty()) == Seq::<Seq<char>>::empty());
    assert(steps_of(seq![name]) =~= if name.len() > 0 {
        seq![name]
    } else {
        Seq::empty()
    });
    assert(seq![none].drop_last() =~= Seq::<Seq<char>>::empty());
    assert(text::split_on(none, '/') =~= seq![none]);
}

/// A path's name is what follows its last stroke, with or without a stroke at the
/// end; and what follows the last dot of the name, but for a dot at its start, is
/// the extension.
pub proof fn names_end_paths(folder: Seq<char>, stem: Seq<char>, ext: Seq<char>, name: Seq<char>)
    requires
        !name.contains('/'),
        name.len() > 0,
        name != "."@,
        name != ".."@,
    ensures
        name_of(folder + seq!['/'] + name) == Some(name),
        name_of(folder + seq!['/'] + name + seq!['/']) == Some(name),
        name_of(name) == Some(name),
        name_of(folder + seq!['/'] + ".."@) is None,
        name == stem + seq!['.'] + ext && !ext.contains('.') && stem.len() > 0 ==> extension_of(
            folder + seq!['/'] + name,
        ) == Some(ext),
        name == seq!['.'] + ext && !ext.contains('.') ==> extension_of(folder + seq!['/'] + name)
            is None,
        !name.contains('.') ==> extension_of(folder + seq!['/'] + name) is None,
{
    reveal_strlit(".");
    reveal_strlit("..");
    names_are_steps(folder, name);
    names_are_steps(folder + seq!['/'] + name, name);
    let up = ".."@;
    assert(!up.contains('/'));
    assert(up.len() == 2 && "."@.len() == 1);
    names_are_steps(folder, up);
    if name == stem + seq!['.'] + ext && !ext.contains('.') {
        text::nothing_follows_the_last(stem, '.', ext);
    }
    if name == seq!['.'] + ext && !ext.contains('.') {
        assert(Seq::<char>::empty() + seq!['.'] + ext =~= name);
        text::nothing_follows_the_last(Seq::empty(), '.', ext);
    }
    if !name.contains('.') {
        text::nothing_follows_the_last(Seq::empty(), '.', name);
    }
}

/// What lies in a folder is within it, what lies beside it is not, however alike
/// their names are.
pub proof fn only_what_lies_in_a_folder_is_within_it(
    folder: Seq<char>,
    name: Seq<char>,
    other: Seq<char>,
    rest: Seq<char>,
)
    requires
        absolute(folder),
        !name.contains('/'),
        name.len() > 0,
        name != "."@,
        !other.contains('/'),
        other.len() > 0,
        other != "."@,
        other != name,
        !rest.contains('/'),
        rest.len() > 0,
        rest != "."@,
    ensures
        within(folder + seq!['/'] + name, folder),
        !within(folder, folder + seq!['/'] + name),
        !within(folder + seq!['/'] + other, folder + seq!['/'] + name),
        !within(folder + seq!['/'] + other + seq!['/'] + rest, folder + seq!['/'] + name),
{
    names_are_steps(folder, name);
    names_are_steps(folder, other);
    names_are_steps(folder + seq!['/'] + other, rest);
    let s = steps(folder);
    let n = s.len() as int;
    assert(s.push(name).take(n) =~= s);
    assert(s.push(other).take(n + 1)[n] == other);
    assert(s.push(other).push(rest).take(n + 1)[n] == other);
    assert(s.push(name)[n] == name);
    assert((folder + seq!['/'] + name)[0] == '/');
}

/// A folder is shown by its name, strokes at its end aside; the root is shown as
/// a stroke.
pub proof fn folders_are_shown_by_name(folder: Seq<char>, name: Seq<char>)
    requires
        !name.contains('/'),
        name.len() > 0,
        name != "."@,
        name != ".."@,
    ensures
        display_name(folder + seq!['/'] + name) == name,
        display_name(folder + seq!['/'] + name + seq!['/']) == name,
        display_name(seq!['/']) == "/"@,
        display_name(Seq::empty()) == "/"@,
{
    let s = folder + seq!['/'] + name;
    names_end_paths(folder, Seq::empty(), Seq::empty(), name);
    assert(s.last() == name.last());
    assert(name.contains(name[name.len() - 1]));
    let set = text::CharSet::Only('/');
    assert(text::trimmed_end(s, set) == s);
    let t = s + seq!['/'];
    assert(t.drop_last() =~= s);
    assert(text::trimmed_end(t, set) == s);
    let root = seq!['/'];
    assert(root.drop_last() =~= Seq::<char>::empty());
    assert(text::trimmed_end(Seq::<char>::empty(), set) =~= Seq::<char>::empty());
    assert(text::trimmed_end(root, set) == Seq::<char>::empty());
}

/// A name that is safe already, and not too long, is kept; of one that is too
/// long the first hundred and twenty characters are kept, and one of which
/// nothing is left gets the general name.
pub proof fn safe_names_are_kept(value: Seq<char>)
    requires
        value.len() > 0,
        text::all_in(value, text::CharSet::FileName),
        value[0] != '_',
        value.last() != '_',
    ensures
        value.len() <= 120 ==> safe_name(value) == value,
        value.len() > 120 ==> safe_name(value) == value.take(120),
        safe_name(Seq::empty()) == "attachment"@,
{
    let plain = value.map_values(
        |c: char|
            if text::CharSet::FileName.has(c) {
                c
            } else {
                '_'
            },
    );
    assert(plain =~= value) by {
        assert forall|i: int| 0 <= i < value.len() implies plain[i] == value[i] by {
            assert(text::CharSet::FileName.has(value[i]));
        }
    }
    assert(text::CharSet::FileName.has(value[0]));
    assert(text::CharSet::FileName.has(value[value.len() - 1]));
    assert(text::trimmed(value) == value);
    assert(text::trimmed_of(plain, text::CharSet::Only('_')) == value);
    let none = Seq::<char>::empty();
    assert(text::trimmed(none) == none);
    let nothing = none.map_values(
        |c: char|
            if text::CharSet::FileName.has(c) {
                c
            } else {
                '_'
            },
    );
    assert(nothing =~= none);
}

/// A tilde or a dollar sign that stands for nothing stays.
pub proof fn other_signs_stay(value: Seq<char>, home: Seq<char>)
    requires
        text::trimmed(value) != "~"@,
        !text::has_prefix(text::trimmed(value), "~/"@),
        !text::has_prefix(text::trimmed(value), "$HOME/"@),
    ensures
        expanded(value, home) == text::trimmed(value),
{
}

/// A path that does not start at the root is not within one that does, nor the
/// other way round.
pub proof fn roots_are_not_mixed(path: Seq<char>, root: Seq<char>)
    requires
        absolute(path) != absolute(root),
        steps(root).len() > 0,
    ensures
        !within(path, root),
{
}

/// A character that is not safe becomes a low line, in its place.
pub proof fn unsafe_characters_become_low_lines(a: Seq<char>, c: char, b: Seq<char>)
    requires
        a.len() > 0,
        b.len() > 0,
        a.len() + b.len() < 120,
        text::all_in(a, text::CharSet::FileName),
        text::all_in(b, text::CharSet::FileName),
        !text::CharSet::FileName.has(c),
        a[0] != '_',
        b.last() != '_',
    ensures
        safe_name(a + seq![c] + b) == a + seq!['_'] + b,
{
    let value = a + seq![c] + b;
    let wanted = a + seq!['_'] + b;
    let plain = value.map_values(
        |c: char|
            if text::CharSet::FileName.has(c) {
                c
            } else {
                '_'
            },
    );
    assert(text::CharSet::FileName.has(a[0]));
    assert(text::CharSet::FileName.has(b[b.len() - 1]));
    assert(value[0] == a[0] && value.last() == b.last());
    assert(text::trimmed(value) == value);
    assert(plain =~= wanted) by {
        assert forall|i: int| 0 <= i < value.len() implies plain[i] == wanted[i] by {
            if i < a.len() {
                assert(text::CharSet::FileName.has(a[i]));
            } else if i > a.len() {
                assert(text::CharSet::FileName.has(b[i - a.len() - 1]));
                assert(value[i] == b[i - a.len() - 1]);
                assert(wanted[i] == b[i - a.len() - 1]);
            }
        }
    }
    assert(wanted[0] == a[0] && wanted.last() == b.last());
    assert(text::trimmed_of(wanted, text::CharSet::Only('_')) == wanted);
}

} // verus!
