//! JSON documents as plain data.
//!
//! [`Json`] is the tree that the storage commands read and change. Its view,
//! [`JsonView`], is the mathematical document: an object is a map from member
//! names to documents, however its members are laid out in memory.

use crate::codec::number_text;
use crate::text::same_text;
use vstd::prelude::*;

verus! {

/// A JSON document.
///
/// An object holds its members in the order in which they were added. Where a
/// name occurs twice the later member counts, as it does for a parser that
/// reads the members one after the other into a map.
#[derive(Debug, PartialEq)]
pub enum Json {
    Null,
    Bool(bool),
    Number(serde_json::Number),
    String(String),
    Array(Vec<Json>),
    Object(Vec<(String, Json)>),
}

impl Clone for Json {
    /// A copy of the whole document.
    fn clone(&self) -> (copy: Json)
        ensures
            copy@ == self@,
    {
        self.duplicate()
    }
}

/// The mathematical value of a [`Json`] document. A number is held as the
/// numeral that stands for it in JSON text.
pub enum JsonView {
    Null,
    Bool(bool),
    Number(Seq<char>),
    String(Seq<char>),
    Array(Seq<JsonView>),
    Object(Map<Seq<char>, JsonView>),
}

/// The views of a sequence of documents, item by item.
pub open spec fn items_view(items: Seq<Json>) -> Seq<JsonView>
    decreases items,
{
    Seq::new(
        items.len(),
        |i: int|
            if 0 <= i < items.len() {
                items[i].view()
            } else {
                JsonView::Null
            },
    )
}

/// The map that a list of named documents stands for: each entry is entered
/// in turn, so a later entry replaces an earlier one of the same name.
pub open spec fn entries_map(entries: Seq<(Seq<char>, JsonView)>) -> Map<Seq<char>, JsonView>
    decreases entries.len(),
{
    if entries.len() == 0 {
        Map::empty()
    } else {
        entries_map(entries.drop_last()).insert(entries.last().0, entries.last().1)
    }
}

/// The members of an object as plain values, one by one.
pub open spec fn member_entries(members: Seq<(String, Json)>) -> Seq<(Seq<char>, JsonView)>
    decreases members,
{
    Seq::new(
        members.len(),
        |i: int|
            if 0 <= i < members.len() {
                (members[i].0@, members[i].1.view())
            } else {
                (Seq::empty(), JsonView::Null)
            },
    )
}

impl View for Json {
    type V = JsonView;

    open spec fn view(&self) -> JsonView
        decreases self,
    {
        match self {
            Json::Null => JsonView::Null,
            Json::Bool(b) => JsonView::Bool(*b),
            Json::Number(n) => JsonView::Number(number_text(*n)),
            Json::String(s) => JsonView::String(s@),
            Json::Array(items) => JsonView::Array(items_view(items@)),
            Json::Object(members) => JsonView::Object(entries_map(member_entries(members@))),
        }
    }
}

/// The object without members.
pub open spec fn empty_object() -> JsonView {
    JsonView::Object(Map::empty())
}

impl JsonView {
    /// The text of a string document; `None` for every other document.
    pub open spec fn as_str(self) -> Option<Seq<char>> {
        match self {
            JsonView::String(s) => Some(s),
            _ => None,
        }
    }

    /// The items of an array; `None` for every other document.
    pub open spec fn as_array(self) -> Option<Seq<JsonView>> {
        match self {
            JsonView::Array(items) => Some(items),
            _ => None,
        }
    }

    /// The member `key` of an object; `None` where the object has no such
    /// member and for every document that is no object.
    pub open spec fn field(self, key: Seq<char>) -> Option<JsonView> {
        match self {
            JsonView::Object(members) => if members.contains_key(key) {
                Some(members[key])
            } else {
                None
            },
            _ => None,
        }
    }

    /// The text of the member `key`, where that member is a string.
    pub open spec fn str_field(self, key: Seq<char>) -> Option<Seq<char>> {
        match self.field(key) {
            Some(value) => value.as_str(),
            None => None,
        }
    }

    /// The member `key`, or `null` where there is none.
    pub open spec fn field_or_null(self, key: Seq<char>) -> JsonView {
        match self.field(key) {
            Some(value) => value,
            None => JsonView::Null,
        }
    }

    /// The object with the member `key` set to `value`. A document that is no
    /// object stays as it is.
    pub open spec fn with_field(self, key: Seq<char>, value: JsonView) -> JsonView {
        match self {
            JsonView::Object(members) => JsonView::Object(members.insert(key, value)),
            _ => self,
        }
    }
}

/// Whether `at` is the place of the last entry named `key`.
pub open spec fn is_last_entry(entries: Seq<(Seq<char>, JsonView)>, key: Seq<char>, at: int) -> bool {
    &&& 0 <= at < entries.len()
    &&& entries[at].0 == key
    &&& forall|j: int| at < j < entries.len() ==> (#[trigger] entries[j]).0 != key
}

/// Whether no entry is named `key`.
pub open spec fn no_entry(entries: Seq<(Seq<char>, JsonView)>, key: Seq<char>) -> bool {
    forall|j: int| 0 <= j < entries.len() ==> (#[trigger] entries[j]).0 != key
}

/// Whether no two entries have one name.
pub open spec fn distinct_names(entries: Seq<(Seq<char>, JsonView)>) -> bool {
    forall|i: int, j: int|
        0 <= i < j < entries.len() ==> (#[trigger] entries[i]).0 != (#[trigger] entries[j]).0
}

/// The last entry of a name is the one that the map holds.
pub proof fn lemma_entry_found(entries: Seq<(Seq<char>, JsonView)>, key: Seq<char>, at: int)
    requires
        is_last_entry(entries, key, at),
    ensures
        entries_map(entries).contains_key(key),
        entries_map(entries)[key] == entries[at].1,
    decreases entries.len(),
{
    let rest = entries.drop_last();
    if at < entries.len() - 1 {
        assert(is_last_entry(rest, key, at)) by {
            assert forall|j: int| at < j < rest.len() implies (#[trigger] rest[j]).0 != key by {
                assert(rest[j] == entries[j]);
            }
        }
        lemma_entry_found(rest, key, at);
        assert(entries.last().0 != key);
        assert(rest[at] == entries[at]);
    } else {
        assert(entries.last() == entries[at]);
    }
}

/// A name that no entry has is not in the map.
pub proof fn lemma_entry_absent(entries: Seq<(Seq<char>, JsonView)>, key: Seq<char>)
    requires
        no_entry(entries, key),
    ensures
        !entries_map(entries).contains_key(key),
    decreases entries.len(),
{
    if entries.len() > 0 {
        let rest = entries.drop_last();
        assert(no_entry(rest, key)) by {
            assert forall|j: int| 0 <= j < rest.len() implies (#[trigger] rest[j]).0 != key by {
                assert(rest[j] == entries[j]);
            }
        }
        lemma_entry_absent(rest, key);
        assert(entries.last().0 != key);
    }
}

/// Replacing the last entry of a name enters the new value under that name.
pub proof fn lemma_entry_replaced(
    entries: Seq<(Seq<char>, JsonView)>,
    at: int,
    entry: (Seq<char>, JsonView),
)
    requires
        is_last_entry(entries, entry.0, at),
    ensures
        entries_map(entries.update(at, entry)) == entries_map(entries).insert(entry.0, entry.1),
    decreases entries.len(),
{
    let key = entry.0;
    let next = entries.update(at, entry);
    let rest = entries.drop_last();
    if at == entries.len() - 1 {
        assert(next.drop_last() =~= rest);
        assert(entries_map(next) =~= entries_map(entries).insert(key, entry.1));
    } else {
        assert(is_last_entry(rest, key, at)) by {
            assert forall|j: int| at < j < rest.len() implies (#[trigger] rest[j]).0 != key by {
                assert(rest[j] == entries[j]);
            }
        }
        lemma_entry_replaced(rest, at, entry);
        assert(next.drop_last() =~= rest.update(at, entry));
        assert(next.last() == entries.last());
        assert(entries.last().0 != key);
        assert(entries_map(next) =~= entries_map(entries).insert(key, entry.1));
    }
}

/// Adding an entry at the end enters its value under its name.
pub proof fn lemma_entry_added(entries: Seq<(Seq<char>, JsonView)>, entry: (Seq<char>, JsonView))
    ensures
        entries_map(entries.push(entry)) == entries_map(entries).insert(entry.0, entry.1),
{
    assert(entries.push(entry).drop_last() =~= entries);
}

/// A list of entries stands for a map with finitely many names.
pub proof fn lemma_entries_finite(entries: Seq<(Seq<char>, JsonView)>)
    ensures
        entries_map(entries).dom().finite(),
    decreases entries.len(),
{
    if entries.len() > 0 {
        lemma_entries_finite(entries.drop_last());
    }
}

/// Where no two entries have one name, the map holds every entry.
pub proof fn lemma_distinct_entry_found(entries: Seq<(Seq<char>, JsonView)>, at: int)
    requires
        distinct_names(entries),
        0 <= at < entries.len(),
    ensures
        entries_map(entries).contains_key(entries[at].0),
        entries_map(entries)[entries[at].0] == entries[at].1,
{
    lemma_entry_found(entries, entries[at].0, at);
}

/// The place of the last member named `key`.
fn last_member(members: &Vec<(String, Json)>, key: &str) -> (found: Option<usize>)
    ensures
        match found {
            Some(at) => is_last_entry(member_entries(members@), key@, at as int),
            None => no_entry(member_entries(members@), key@),
        },
{
    let mut i: usize = members.len();
    while i > 0
        invariant
            i <= members.len(),
            forall|j: int|
                i <= j < members.len() ==> (#[trigger] member_entries(members@)[j]).0 != key@,
        decreases i,
    {
        i = i - 1;
        if same_text(members[i].0.as_str(), key) {
            return Some(i);
        }
    }
    None
}

impl Json {
    /// The object without members.
    pub fn object() -> (empty: Json)
        ensures
            empty@ == empty_object(),
    {
        let members: Vec<(String, Json)> = Vec::new();
        assert(member_entries(members@) =~= Seq::<(Seq<char>, JsonView)>::empty());
        Json::Object(members)
    }

    /// The array without items.
    pub fn array() -> (empty: Json)
        ensures
            empty@ == JsonView::Array(Seq::empty()),
    {
        let items: Vec<Json> = Vec::new();
        assert(items_view(items@) =~= Seq::<JsonView>::empty());
        Json::Array(items)
    }

    /// The string document with the given text.
    pub fn string(text: &str) -> (doc: Json)
        ensures
            doc@ == JsonView::String(text@),
    {
        Json::String(String::from_str(text))
    }

    /// The member `key` of an object.
    pub fn get(&self, key: &str) -> (found: Option<&Json>)
        ensures
            match found {
                Some(value) => self@.field(key@) == Some(value@),
                None => self@.field(key@) is None,
            },
    {
        match self {
            Json::Object(members) => {
                match last_member(members, key) {
                    Some(at) => {
                        proof {
                            lemma_entry_found(member_entries(members@), key@, at as int);
                        }
                        Some(&members[at].1)
                    },
                    None => {
                        proof {
                            lemma_entry_absent(member_entries(members@), key@);
                        }
                        None
                    },
                }
            },
            _ => None,
        }
    }

    /// Whether the document is an object.
    pub fn is_object(&self) -> (object: bool)
        ensures
            object == (self@ is Object),
    {
        match self {
            Json::Object(_) => true,
            _ => false,
        }
    }

    /// The text of a string document.
    pub fn as_str(&self) -> (text: Option<&str>)
        ensures
            match text {
                Some(s) => self@.as_str() == Some(s@),
                None => self@.as_str() is None,
            },
    {
        match self {
            Json::String(s) => Some(s.as_str()),
            _ => None,
        }
    }

    /// The items of an array.
    pub fn as_array(&self) -> (items: Option<&Vec<Json>>)
        ensures
            match items {
                Some(list) => self@.as_array() == Some(items_view(list@)),
                None => self@.as_array() is None,
            },
    {
        match self {
            Json::Array(items) => Some(items),
            _ => None,
        }
    }

    /// The text of the member `key`, where that member is a string.
    pub fn str_field(&self, key: &str) -> (text: Option<&str>)
        ensures
            match text {
                Some(s) => self@.str_field(key@) == Some(s@),
                None => self@.str_field(key@) is None,
            },
    {
        match self.get(key) {
            Some(value) => value.as_str(),
            None => None,
        }
    }

    /// A copy of the member `key`, or `null` where there is none.
    pub fn field_or_null(&self, key: &str) -> (value: Json)
        ensures
            value@ == self@.field_or_null(key@),
    {
        match self.get(key) {
            Some(found) => found.duplicate(),
            None => Json::Null,
        }
    }

    /// Sets the member `key` of an object to `value`: an existing member is
    /// replaced where it stands, a new one is added at the end. A document
    /// that is no object is handed back unchanged.
    pub fn with_field(self, key: String, value: Json) -> (next: Json)
        ensures
            next@ == self@.with_field(key@, value@),
    {
        match self {
            Json::Object(mut members) => {
                let ghost before = member_entries(members@);
                let ghost entry = (key@, value@);
                match last_member(&members, key.as_str()) {
                    Some(at) => {
                        members.set(at, (key, value));
                        proof {
                            assert(member_entries(members@) =~= before.update(at as int, entry));
                            lemma_entry_replaced(before, at as int, entry);
                        }
                    },
                    None => {
                        members.push((key, value));
                        proof {
                            assert(member_entries(members@) =~= before.push(entry));
                            lemma_entry_added(before, entry);
                        }
                    },
                }
                Json::Object(members)
            },
            other => other,
        }
    }

    /// A copy of the whole document.
    pub fn duplicate(&self) -> (copy: Json)
        ensures
            copy@ == self@,
        decreases self,
    {
        match self {
            Json::Null => Json::Null,
            Json::Bool(b) => Json::Bool(*b),
            Json::Number(n) => Json::Number(n.clone()),
            Json::String(s) => Json::String(s.clone()),
            Json::Array(items) => {
                let mut out: Vec<Json> = Vec::new();
                let mut i: usize = 0;
                while i < items.len()
                    invariant
                        *self == Json::Array(*items),
                        i <= items.len(),
                        out@.len() == i,
                        forall|j: int| 0 <= j < i ==> (#[trigger] out@[j])@ == items@[j]@,
                    decreases items.len() - i,
                {
                    proof {
                        vstd::std_specs::vec::axiom_vec_index_decreases(*items, i as int);
                        assert(*self is Array && self->Array_0 == *items);
                    }
                    out.push(items[i].duplicate());
                    i = i + 1;
                }
                assert(items_view(out@) =~= items_view(items@));
                Json::Array(out)
            },
            Json::Object(members) => {
                let mut out: Vec<(String, Json)> = Vec::new();
                let mut i: usize = 0;
                while i < members.len()
                    invariant
                        *self == Json::Object(*members),
                        i <= members.len(),
                        out@.len() == i,
                        forall|j: int|
                            0 <= j < i ==> (#[trigger] out@[j]).0@ == members@[j].0@ && out@[j].1@
                                == members@[j].1@,
                    decreases members.len() - i,
                {
                    proof {
                        vstd::std_specs::vec::axiom_vec_index_decreases(*members, i as int);
                        assert(*self is Object && self->Object_0 == *members);
                    }
                    out.push((members[i].0.clone(), members[i].1.duplicate()));
                    i = i + 1;
                }
                assert(member_entries(out@) =~= member_entries(members@));
                Json::Object(out)
            },
        }
    }
}

} // verus!

