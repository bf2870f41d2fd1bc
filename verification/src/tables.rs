//! TOML values as the rules read them.

use vstd::prelude::*;

use crate::outside;
use crate::text;

verus! {

/// The outermost layer of a TOML value: a text, the entries of a table in the
/// order of their keys, or a value of another kind.
pub enum TomlLayer<'a> {
    Text(String),
    Table(Vec<(&'a String, &'a toml::Value)>),
    Other,
}

/// A TOML value. Values that are neither texts nor tables are not told apart.
#[derive(Debug)]
pub enum Toml {
    Text(String),
    Table(Vec<(String, Toml)>),
    Other,
}

#[verifier::ext_equal]
pub enum TomlView {
    Text(Seq<char>),
    Table(Seq<(Seq<char>, TomlView)>),
    Other,
}

impl Toml {
    pub open spec fn view(&self) -> TomlView
        decreases self,
    {
        match *self {
            Toml::Text(s) => TomlView::Text(s@),
            Toml::Table(entries) => TomlView::Table(
                Seq::new(
                    entries@.len(),
                    |i: int|
                        if 0 <= i < entries@.len() {
                            (entries@[i].0@, entries@[i].1.view())
                        } else {
                            (Seq::empty(), TomlView::Other)
                        },
                ),
            ),
            Toml::Other => TomlView::Other,
        }
    }
}

pub open spec fn table_views(entries: Seq<(String, Toml)>) -> Seq<(Seq<char>, TomlView)> {
    Seq::new(entries.len(), |i: int| (entries[i].0@, entries[i].1.view()))
}

/// The value of the first entry with a key.
pub open spec fn entry_of(entries: Seq<(Seq<char>, TomlView)>, key: Seq<char>) -> Option<TomlView>
    decreases entries.len(),
{
    if entries.len() == 0 {
        None
    } else if entries[0].0 == key {
        Some(entries[0].1)
    } else {
        entry_of(entries.skip(1), key)
    }
}

impl TomlView {
    /// The value under a key of a table.
    pub open spec fn get(self, key: Seq<char>) -> Option<TomlView> {
        match self {
            TomlView::Table(entries) => entry_of(entries, key),
            _ => None,
        }
    }

    /// The text under a key of a table, where it is one.
    pub open spec fn text_at(self, key: Seq<char>) -> Option<Seq<char>> {
        match self.get(key) {
            Some(TomlView::Text(s)) => Some(s),
            _ => None,
        }
    }
}

pub open spec fn opt_toml(value: Option<&Toml>) -> Option<TomlView> {
    match value {
        Some(value) => Some(value.view()),
        None => None,
    }
}

impl Toml {
    /// The value under a key of a table.
    pub fn get(&self, key: &str) -> (res: Option<&Toml>)
        ensures
            opt_toml(res) == self.view().get(key@),
    {
        match self {
            Toml::Table(entries) => {
                let ghost all = table_views(entries@);
                assert(self.view() matches TomlView::Table(seen) && seen =~= all);
                let mut i: usize = 0;
                assert(all.skip(0) =~= all);
                while i < entries.len()
                    invariant
                        i <= entries@.len(),
                        all == table_views(entries@),
                        self.view() == TomlView::Table(all),
                        entry_of(all.skip(i as int), key@) == entry_of(all, key@),
                    decreases entries@.len() - i,
                {
                    assert(all.skip(i as int)[0] == all[i as int]);
                    assert(all.skip(i as int).skip(1) =~= all.skip(i + 1));
                    if text::same(entries[i].0.as_str(), key) {
                        return Some(&entries[i].1);
                    }
                    i += 1;
                }
                None
            },
            _ => None,
        }
    }

    /// The text under a key of a table, where it is one.
    pub fn text_of(&self, key: &str) -> (res: Option<&str>)
        ensures
            text::opt_str(res) == self.view().text_at(key@),
    {
        match self.get(key) {
            Some(Toml::Text(s)) => Some(s.as_str()),
            _ => None,
        }
    }
}

/// The value as the rules read it.
fn take_value(value: &toml::Value) -> (res: Toml)
    ensures
        res.view() == outside::toml_contents(*value),
    decreases outside::toml_contents(*value),
{
    let ghost whole = outside::toml_contents(*value);
    match outside::open_toml(value) {
        TomlLayer::Text(s) => Toml::Text(s),
        TomlLayer::Other => Toml::Other,
        TomlLayer::Table(entries) => {
            let ghost all = outside::table_contents(entries@);
            let mut values: Vec<(String, Toml)> = Vec::new();
            let mut i: usize = 0;
            assert(table_views(values@) =~= all.take(0));
            while i < entries.len()
                invariant
                    i <= entries@.len(),
                    all == outside::table_contents(entries@),
                    whole == outside::toml_contents(*value),
                    whole == TomlView::Table(all),
                    table_views(values@) == all.take(i as int),
                decreases entries@.len() - i,
            {
                assert(decreases_to!(whole => whole->Table_0));
                assert(decreases_to!(all => all[i as int]));
                assert(decreases_to!(all[i as int] => all[i as int].1));
                let key = entries[i].0.clone();
                let entry = take_value(entries[i].1);
                let ghost prior = values@;
                values.push((key, entry));
                assert(table_views(values@) =~= table_views(prior).push((key@, entry.view())));
                assert(all.take(i + 1) =~= all.take(i as int).push(all[i as int]));
                i += 1;
            }
            assert(all.take(i as int) =~= all);
            let res = Toml::Table(values);
            assert(res.view() matches TomlView::Table(v) && v =~= table_views(values@));
            res
        },
    }
}

/// Reads a TOML document.
pub fn parse_toml(raw: &str) -> (res: Option<Toml>)
    ensures
        match res {
            Some(document) => outside::toml_document(raw@) == Some(document.view()),
            None => outside::toml_document(raw@) is None,
        },
{
    match outside::read_toml(raw) {
        Some(document) => Some(take_value(&document)),
        None => None,
    }
}

/// The entry of a key is the first that has it, and there is one exactly where
/// the table has the key.
pub proof fn entries_are_found_by_key(entries: Seq<(Seq<char>, TomlView)>, key: Seq<char>)
    ensures
        match entry_of(entries, key) {
            Some(v) => exists|k: int|
                0 <= k < entries.len() && #[trigger] entries[k] == (key, v) && forall|j: int|
                    0 <= j < k ==> (#[trigger] entries[j]).0 != key,
            None => forall|k: int| 0 <= k < entries.len() ==> (#[trigger] entries[k]).0 != key,
        },
    decreases entries.len(),
{
    if entries.len() > 0 && entries[0].0 != key {
        let rest = entries.skip(1);
        entries_are_found_by_key(rest, key);
        match entry_of(rest, key) {
            Some(v) => {
                let k = choose|k: int|
                    0 <= k < rest.len() && #[trigger] rest[k] == (key, v) && forall|j: int|
                        0 <= j < k ==> (#[trigger] rest[j]).0 != key;
                assert(entries[k + 1] == (key, v));
                assert forall|j: int| 0 <= j < k + 1 implies (#[trigger] entries[j]).0 != key by {
                    if j > 0 {
                        assert(rest[j - 1].0 != key);
                    }
                }
            },
            None => {
                assert forall|k: int| 0 <= k < entries.len() implies (#[trigger] entries[k]).0
                    != key by {
                    if k > 0 {
                        assert(rest[k - 1].0 != key);
                    }
                }
            },
        }
    } else if entries.len() > 0 {
        assert(entries[0] == (key, entries[0].1));
    }
}

/// Only tables have entries, and only texts are read as texts.
pub proof fn entries_are_read_by_kind(value: TomlView, key: Seq<char>)
    ensures
        !(value is Table) ==> value.get(key) is None,
        value.get(key) matches Some(TomlView::Text(s)) ==> value.text_at(key) == Some(s),
        !(value.get(key) matches Some(TomlView::Text(s))) ==> value.text_at(key) is None,
{
}

} // verus!
