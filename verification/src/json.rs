//! JSON values as the rules read them.

use vstd::prelude::*;

use crate::outside;
use crate::text;

verus! {

/// The outermost layer of a JSON value. A number, a list or an object has the
/// text it is written as, and a number its value where that is a 64-bit integer.
pub enum JsonLayer<'a> {
    Null,
    Bool(bool),
    Number(Option<i64>, String),
    Text(String),
    List(&'a Vec<serde_json::Value>, String),
    Object(Vec<(&'a String, &'a serde_json::Value)>, String),
}

/// A JSON value. Numbers, lists and objects carry the text they are written as.
pub enum Json {
    Null,
    Bool(bool),
    Number(Option<i64>, String),
    Text(String),
    List(Vec<Json>, String),
    Object(Vec<(String, Json)>, String),
}

#[verifier::ext_equal]
pub enum JsonView {
    Null,
    Bool(bool),
    Number(Option<i64>, Seq<char>),
    Text(Seq<char>),
    List(Seq<JsonView>, Seq<char>),
    Object(Seq<(Seq<char>, JsonView)>, Seq<char>),
}

impl Json {
    pub open spec fn view(&self) -> JsonView
        decreases self,
    {
        match *self {
            Json::Null => JsonView::Null,
            Json::Bool(b) => JsonView::Bool(b),
            Json::Number(n, s) => JsonView::Number(n, s@),
            Json::Text(s) => JsonView::Text(s@),
            Json::List(items, s) => JsonView::List(
                Seq::new(
                    items@.len(),
                    |i: int|
                        if 0 <= i < items@.len() {
                            items@[i].view()
                        } else {
                            JsonView::Null
                        },
                ),
                s@,
            ),
            Json::Object(fields, s) => JsonView::Object(
                Seq::new(
                    fields@.len(),
                    |i: int|
                        if 0 <= i < fields@.len() {
                            (fields@[i].0@, fields@[i].1.view())
                        } else {
                            (Seq::empty(), JsonView::Null)
                        },
                ),
                s@,
            ),
        }
    }
}

pub open spec fn opt_json(value: Option<&Json>) -> Option<JsonView> {
    match value {
        Some(value) => Some(value.view()),
        None => None,
    }
}

impl JsonView {
    /// The value under a key of an object.
    pub open spec fn get(self, key: Seq<char>) -> Option<JsonView> {
        match self {
            JsonView::Object(fields, _) => field_of(fields, key),
            _ => None,
        }
    }

    pub open spec fn as_text(self) -> Option<Seq<char>> {
        match self {
            JsonView::Text(s) => Some(s),
            _ => None,
        }
    }

    pub open spec fn as_integer(self) -> Option<i64> {
        match self {
            JsonView::Number(n, _) => n,
            _ => None,
        }
    }

    /// The text under a key of an object, where it is one.
    pub open spec fn text_at(self, key: Seq<char>) -> Option<Seq<char>> {
        match self.get(key) {
            Some(value) => value.as_text(),
            None => None,
        }
    }

    /// The integer under a key of an object, where it is one.
    pub open spec fn integer_at(self, key: Seq<char>) -> Option<i64> {
        match self.get(key) {
            Some(value) => value.as_integer(),
            None => None,
        }
    }

    /// The value under a key of an object; null where there is none.
    pub open spec fn at(self, key: Seq<char>) -> JsonView {
        match self.get(key) {
            Some(value) => value,
            None => JsonView::Null,
        }
    }

    /// The value under the first of two keys that is there.
    pub open spec fn get_either(self, first: Seq<char>, second: Seq<char>) -> Option<JsonView> {
        match self.get(first) {
            Some(value) => Some(value),
            None => self.get(second),
        }
    }
}

/// The value of the first field with a key.
pub open spec fn field_of(fields: Seq<(Seq<char>, JsonView)>, key: Seq<char>) -> Option<JsonView>
    decreases fields.len(),
{
    if fields.len() == 0 {
        None
    } else if fields[0].0 == key {
        Some(fields[0].1)
    } else {
        field_of(fields.skip(1), key)
    }
}

impl Json {
    /// The value under a key of an object.
    pub fn get(&self, key: &str) -> (res: Option<&Json>)
        ensures
            opt_json(res) == self.view().get(key@),
    {
        match self {
            Json::Object(fields, _) => {
                let ghost all = Seq::new(
                    fields@.len(),
                    |i: int|
                        if 0 <= i < fields@.len() {
                            (fields@[i].0@, fields@[i].1.view())
                        } else {
                            (Seq::empty(), JsonView::Null)
                        },
                );
                assert(self.view() matches JsonView::Object(f, _) && f =~= all);
                let mut i: usize = 0;
                assert(all.skip(0) =~= all);
                while i < fields.len()
                    invariant
                        i <= fields@.len() == all.len(),
                        forall|j: int|
                            0 <= j < all.len() ==> #[trigger] all[j] == (
                                fields@[j].0@,
                                fields@[j].1.view(),
                            ),
                        field_of(all.skip(i as int), key@) == field_of(all, key@),
                        self.view().get(key@) == field_of(all, key@),
                    decreases fields@.len() - i,
                {
                    assert(all.skip(i as int)[0] == all[i as int]);
                    assert(all.skip(i as int).skip(1) =~= all.skip(i + 1));
                    if text::same(fields[i].0.as_str(), key) {
                        return Some(&fields[i].1);
                    }
                    i += 1;
                }
                None
            },
            _ => None,
        }
    }

    pub fn as_str(&self) -> (res: Option<&str>)
        ensures
            text::opt_str(res) == self.view().as_text(),
    {
        match self {
            Json::Text(s) => Some(s.as_str()),
            _ => None,
        }
    }

    pub fn as_i64(&self) -> (res: Option<i64>)
        ensures
            res == self.view().as_integer(),
    {
        match self {
            Json::Number(n, _) => *n,
            _ => None,
        }
    }

    pub fn text_of(&self, key: &str) -> (res: Option<&str>)
        ensures
            text::opt_str(res) == self.view().text_at(key@),
    {
        match self.get(key) {
            Some(value) => value.as_str(),
            None => None,
        }
    }

    pub fn integer_of(&self, key: &str) -> (res: Option<i64>)
        ensures
            res == self.view().integer_at(key@),
    {
        match self.get(key) {
            Some(value) => value.as_i64(),
            None => None,
        }
    }

    pub fn get_or(&self, first: &str, second: &str) -> (res: Option<&Json>)
        ensures
            opt_json(res) == self.view().get_either(first@, second@),
    {
        match self.get(first) {
            Some(value) => Some(value),
            None => self.get(second),
        }
    }
}

/// Whether a value has a text under a key, and that text is `wanted`.
pub fn text_is(value: &Json, key: &str, wanted: &str) -> (res: bool)
    ensures
        res == (value.view().text_at(key@) == Some(wanted@)),
{
    match value.text_of(key) {
        Some(s) => text::same(s, wanted),
        None => false,
    }
}

// ---------------------------------------------------------------------------
// Reading
// ---------------------------------------------------------------------------

/// The value that a text reads as.
pub open spec fn json_of(value: Seq<char>) -> Option<JsonView> {
    outside::json_value(value)
}

pub open spec fn list_views(items: Seq<Json>) -> Seq<JsonView> {
    Seq::new(items.len(), |i: int| items[i].view())
}

pub open spec fn field_views(fields: Seq<(String, Json)>) -> Seq<(Seq<char>, JsonView)> {
    Seq::new(fields.len(), |i: int| (fields[i].0@, fields[i].1.view()))
}

pub open spec fn opt_value(value: Option<Json>) -> Option<JsonView> {
    match value {
        Some(value) => Some(value.view()),
        None => None,
    }
}

/// The value as the rules read it.
fn take_value(value: &serde_json::Value) -> (res: Json)
    ensures
        res.view() == outside::json_contents(*value),
    decreases outside::json_contents(*value),
{
    let ghost whole = outside::json_contents(*value);
    match outside::open_json(value) {
        JsonLayer::Null => Json::Null,
        JsonLayer::Bool(b) => Json::Bool(b),
        JsonLayer::Number(n, s) => Json::Number(n, s),
        JsonLayer::Text(s) => Json::Text(s),
        JsonLayer::List(items, s) => {
            let ghost all = outside::contents_of(items@);
            let mut values: Vec<Json> = Vec::new();
            let mut i: usize = 0;
            assert(list_views(values@) =~= all.take(0));
            while i < items.len()
                invariant
                    i <= items@.len(),
                    all == outside::contents_of(items@),
                    whole == outside::json_contents(*value),
                    whole == JsonView::List(all, s@),
                    list_views(values@) == all.take(i as int),
                decreases items@.len() - i,
            {
                assert(decreases_to!(whole => whole->List_0));
                assert(decreases_to!(all => all[i as int]));
                let item = take_value(&items[i]);
                let ghost prior = values@;
                values.push(item);
                assert(list_views(values@) =~= list_views(prior).push(item.view()));
                assert(all.take(i + 1) =~= all.take(i as int).push(all[i as int]));
                i += 1;
            }
            assert(all.take(i as int) =~= all);
            let res = Json::List(values, s);
            assert(res.view() matches JsonView::List(v, _) && v =~= list_views(values@));
            res
        },
        JsonLayer::Object(fields, s) => {
            let ghost all = outside::fields_of(fields@);
            let mut values: Vec<(String, Json)> = Vec::new();
            let mut i: usize = 0;
            assert(field_views(values@) =~= all.take(0));
            while i < fields.len()
                invariant
                    i <= fields@.len(),
                    all == outside::fields_of(fields@),
                    whole == outside::json_contents(*value),
                    whole == JsonView::Object(all, s@),
                    field_views(values@) == all.take(i as int),
                decreases fields@.len() - i,
            {
                assert(decreases_to!(whole => whole->Object_0));
                assert(decreases_to!(all => all[i as int]));
                assert(decreases_to!(all[i as int] => all[i as int].1));
                let name = fields[i].0.clone();
                let field = take_value(fields[i].1);
                let ghost prior = values@;
                values.push((name, field));
                assert(field_views(values@) =~= field_views(prior).push((name@, field.view())));
                assert(all.take(i + 1) =~= all.take(i as int).push(all[i as int]));
                i += 1;
            }
            assert(all.take(i as int) =~= all);
            let res = Json::Object(values, s);
            assert(res.view() matches JsonView::Object(v, _) && v =~= field_views(values@));
            res
        },
    }
}

/// Reads a JSON text.
pub fn parse_json(value: &str) -> (res: Option<Json>)
    ensures
        opt_value(res) == json_of(value@),
{
    match outside::read_json(value) {
        Some(read) => Some(take_value(&read)),
        None => None,
    }
}

/// The values of the lines that can be read.
pub open spec fn line_values(lines: Seq<Seq<char>>) -> Seq<JsonView>
    decreases lines.len(),
{
    if lines.len() == 0 {
        Seq::empty()
    } else {
        let before = line_values(lines.drop_last());
        match json_of(lines.last()) {
            Some(value) => before.push(value),
            None => before,
        }
    }
}

/// Reads a list of JSON texts; those that cannot be read are passed over.
pub fn parse_lines(lines: &Vec<String>) -> (res: Vec<Json>)
    ensures
        list_views(res@) == line_values(text::texts(lines@)),
{
    let ghost all = text::texts(lines@);
    let mut values: Vec<Json> = Vec::new();
    let mut i: usize = 0;
    assert(list_views(values@) =~= Seq::empty());
    while i < lines.len()
        invariant
            i <= lines@.len(),
            all == text::texts(lines@),
            list_views(values@) == line_values(all.take(i as int)),
        decreases lines@.len() - i,
    {
        assert(all.take(i + 1).drop_last() =~= all.take(i as int));
        if let Some(value) = parse_json(lines[i].as_str()) {
            let ghost prior = values@;
            values.push(value);
            assert(list_views(values@) =~= list_views(prior).push(value.view()));
        }
        i += 1;
    }
    assert(all.take(i as int) =~= all);
    values
}

// ---------------------------------------------------------------------------
// What holds of values
// ---------------------------------------------------------------------------

/// The member of a key is the first that has it, and there is one exactly where
/// the object has the key.
pub proof fn members_are_found_by_key(fields: Seq<(Seq<char>, JsonView)>, key: Seq<char>)
    ensures
        match field_of(fields, key) {
            Some(v) => exists|k: int|
                0 <= k < fields.len() && #[trigger] fields[k] == (key, v) && forall|j: int|
                    0 <= j < k ==> (#[trigger] fields[j]).0 != key,
            None => forall|k: int| 0 <= k < fields.len() ==> (#[trigger] fields[k]).0 != key,
        },
    decreases fields.len(),
{
    if fields.len() > 0 && fields[0].0 != key {
        let rest = fields.skip(1);
        members_are_found_by_key(rest, key);
        match field_of(rest, key) {
            Some(v) => {
                let k = choose|k: int|
                    0 <= k < rest.len() && #[trigger] rest[k] == (key, v) && forall|j: int|
                        0 <= j < k ==> (#[trigger] rest[j]).0 != key;
                assert(fields[k + 1] == (key, v));
                assert forall|j: int| 0 <= j < k + 1 implies (#[trigger] fields[j]).0 != key by {
                    if j > 0 {
                        assert(rest[j - 1].0 != key);
                    }
                }
            },
            None => {
                assert forall|k: int| 0 <= k < fields.len() implies (#[trigger] fields[k]).0
                    != key by {
                    if k > 0 {
                        assert(rest[k - 1].0 != key);
                    }
                }
            },
        }
    } else if fields.len() > 0 {
        assert(fields[0] == (key, fields[0].1));
    }
}

/// Only objects have members; of two spellings of a key the first counts where it
/// is there; a text or an integer at a key is the member where it is one.
pub proof fn members_are_read_by_kind(
    value: JsonView,
    fields: Seq<(Seq<char>, JsonView)>,
    raw: Seq<char>,
    first: Seq<char>,
    second: Seq<char>,
)
    ensures
        JsonView::Object(fields, raw).get(first) == field_of(fields, first),
        !(value is Object) ==> value.get(first) is None,
        value.get(first) is Some ==> value.get_either(first, second) == value.get(first),
        value.get(first) is None ==> value.get_either(first, second) == value.get(second),
        value.get(first) matches Some(v) ==> value.at(first) == v,
        value.get(first) is None ==> value.at(first) == JsonView::Null,
        value.get(first) matches Some(JsonView::Text(s)) ==> value.text_at(first) == Some(s),
        !(value.get(first) matches Some(JsonView::Text(s))) ==> value.text_at(first) is None,
        value.get(first) matches Some(JsonView::Number(n, _)) ==> value.integer_at(first) == n,
        !(value.get(first) matches Some(JsonView::Number(n, s))) ==> value.integer_at(first)
            is None,
{
}

/// The values of lines are those of the lines that can be read, in their order;
/// what cannot be read is passed over.
pub proof fn unreadable_lines_are_passed_over(lines: Seq<Seq<char>>, line: Seq<char>)
    ensures
        line_values(Seq::empty()).len() == 0,
        json_of(line) matches Some(v) ==> line_values(lines.push(line)) == line_values(lines).push(
            v,
        ),
        json_of(line) is None ==> line_values(lines.push(line)) == line_values(lines),
{
    assert(lines.push(line).drop_last() =~= lines);
}

} // verus!
