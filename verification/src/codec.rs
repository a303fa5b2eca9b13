//! Reading and writing JSON text with `serde_json`.
//!
//! Nothing here is proved about `serde_json` itself. What it reads from a text
//! and what it writes for a document are given names ([`parsed`],
//! [`compact_text`], [`pretty_text`]); the functions of this module say how
//! their results relate to those names, and the rest of the library is stated
//! over them.
//!
//! A `serde_json::Value` is taken apart and built one level at a time by two
//! functions that are taken on trust. The walk over the whole tree, from a
//! value to a [`Json`] and back, is verified.

use crate::json::{
    distinct_names, entries_map, items_view, lemma_distinct_entry_found, lemma_entries_finite,
    member_entries, Json, JsonView,
};
use crate::text::decimal_text;
use vstd::prelude::*;

verus! {

/// `serde_json::Value`, carried through as it is: what it holds is known
/// only by [`value_view`].
#[verifier::external_type_specification]
#[verifier::external_body]
pub struct ExValue(serde_json::Value);

/// `serde_json::Number`, carried through as it is: what it holds is known
/// only by [`number_text`].
#[verifier::external_type_specification]
#[verifier::external_body]
pub struct ExNumber(serde_json::Number);

/// `serde_json::Error`, carried through as it is.
#[verifier::external_type_specification]
#[verifier::external_body]
pub struct ExError(serde_json::Error);

/// The numeral that `serde_json` prints for a number.
pub uninterp spec fn number_text(number: serde_json::Number) -> Seq<char>;

/// The document that a `serde_json::Value` holds.
pub uninterp spec fn value_view(value: serde_json::Value) -> JsonView;

/// The document that `serde_json::from_str` reads from a text, `None` where
/// it refuses the text.
pub uninterp spec fn parsed(text: Seq<char>) -> Option<JsonView>;

/// The text that `serde_json::to_string` writes for a document, on one line;
/// `None` where it gives up.
pub uninterp spec fn compact_text(doc: JsonView) -> Option<Seq<char>>;

/// The text that `serde_json::to_string_pretty` writes for a document, one
/// member or item to a line; `None` where it gives up.
pub uninterp spec fn pretty_text(doc: JsonView) -> Option<Seq<char>>;

/// `Clone` for `serde_json::Number`: the copy prints as the number it was
/// made from.
pub assume_specification[ <serde_json::Number as Clone>::clone ](
    number: &serde_json::Number,
) -> (copy: serde_json::Number)
    ensures
        number_text(copy) == number_text(*number),
;

/// `serde_json::Number::from` on a `u64`: the number is that integer, and
/// prints as its decimal numeral.
#[verifier::external_body]
pub(crate) fn whole_number(n: u64) -> (number: serde_json::Number)
    ensures
        number_text(number) == decimal_text(n as nat),
{
    serde_json::Number::from(n)
}

/// `serde_json::from_str` at the type `serde_json::Value`: the whole text is
/// read as one document, or refused.
#[verifier::external_body]
fn read_value(text: &str) -> (read: Result<serde_json::Value, serde_json::Error>)
    ensures
        match read {
            Ok(value) => parsed(text@) == Some(value_view(value)),
            Err(_) => parsed(text@) is None,
        },
{
    serde_json::from_str::<serde_json::Value>(text)
}

/// One level of a `serde_json::Value`, borrowed: which variant it is, and
/// what that variant holds.
enum Level<'a> {
    Null,
    Bool(bool),
    Number(&'a serde_json::Number),
    String(&'a String),
    Array(&'a Vec<serde_json::Value>),
    Object(Vec<(&'a String, &'a serde_json::Value)>),
}

/// One level of a `serde_json::Value`, owned: what to build it from.
enum Parts {
    Null,
    Bool(bool),
    Number(serde_json::Number),
    String(String),
    Array(Vec<serde_json::Value>),
    Object(Vec<(String, serde_json::Value)>),
}

/// The documents that a sequence of values holds, one by one.
pub open spec fn values_view(values: Seq<serde_json::Value>) -> Seq<JsonView> {
    Seq::new(values.len(), |i: int| value_view(values[i]))
}

/// Borrowed members as plain entries, one by one.
spec fn borrowed_entries(members: Seq<(&String, &serde_json::Value)>) -> Seq<(Seq<char>, JsonView)> {
    Seq::new(members.len(), |i: int| (members[i].0@, value_view(*members[i].1)))
}

/// Owned members as plain entries, one by one.
spec fn owned_entries(members: Seq<(String, serde_json::Value)>) -> Seq<(Seq<char>, JsonView)> {
    Seq::new(members.len(), |i: int| (members[i].0@, value_view(members[i].1)))
}

/// The document that a borrowed level stands for.
spec fn level_view(level: Level) -> JsonView {
    match level {
        Level::Null => JsonView::Null,
        Level::Bool(b) => JsonView::Bool(b),
        Level::Number(n) => JsonView::Number(number_text(*n)),
        Level::String(s) => JsonView::String(s@),
        Level::Array(items) => JsonView::Array(values_view(items@)),
        Level::Object(members) => JsonView::Object(entries_map(borrowed_entries(members@))),
    }
}

/// The document that owned parts stand for.
spec fn parts_view(parts: Parts) -> JsonView {
    match parts {
        Parts::Null => JsonView::Null,
        Parts::Bool(b) => JsonView::Bool(b),
        Parts::Number(n) => JsonView::Number(number_text(n)),
        Parts::String(s) => JsonView::String(s@),
        Parts::Array(items) => JsonView::Array(values_view(items@)),
        Parts::Object(members) => JsonView::Object(entries_map(owned_entries(members@))),
    }
}

/// Tells the variants of a `serde_json::Value` apart and hands out what the
/// variant holds. The members of an object come as its `serde_json::Map`
/// iterates over them: each name once.
#[verifier::external_body]
fn unpack<'a>(value: &'a serde_json::Value) -> (level: Level<'a>)
    ensures
        level_view(level) == value_view(*value),
        level matches Level::Object(members) ==> distinct_names(borrowed_entries(members@)),
{
    match value {
        serde_json::Value::Null => Level::Null,
        serde_json::Value::Bool(b) => Level::Bool(*b),
        serde_json::Value::Number(n) => Level::Number(n),
        serde_json::Value::String(s) => Level::String(s),
        serde_json::Value::Array(items) => Level::Array(items),
        serde_json::Value::Object(members) => Level::Object(members.iter().collect()),
    }
}

/// Builds a `serde_json::Value` of the variant that the parts name. The
/// members of an object are entered into a `serde_json::Map` one after the
/// other with `insert`, which keeps the later of two members of one name.
#[verifier::external_body]
fn pack(parts: Parts) -> (value: serde_json::Value)
    ensures
        value_view(value) == parts_view(parts),
{
    match parts {
        Parts::Null => serde_json::Value::Null,
        Parts::Bool(b) => serde_json::Value::Bool(b),
        Parts::Number(n) => serde_json::Value::Number(n),
        Parts::String(s) => serde_json::Value::String(s),
        Parts::Array(items) => serde_json::Value::Array(items),
        Parts::Object(members) => {
            let mut map = serde_json::Map::new();
            members.into_iter().for_each(|(name, member)| { map.insert(name, member); });
            serde_json::Value::Object(map)
        },
    }
}

/// The [`Json`] with the content of a `serde_json::Value`.
fn decode(value: &serde_json::Value) -> (doc: Json)
    ensures
        doc@ == value_view(*value),
    decreases value_view(*value),
{
    match unpack(value) {
        Level::Null => Json::Null,
        Level::Bool(b) => Json::Bool(b),
        Level::Number(n) => Json::Number(n.clone()),
        Level::String(s) => Json::String(s.clone()),
        Level::Array(items) => {
            let mut out: Vec<Json> = Vec::new();
            let mut i: usize = 0;
            while i < items.len()
                invariant
                    value_view(*value) == JsonView::Array(values_view(items@)),
                    i <= items.len(),
                    out@.len() == i,
                    forall|j: int| 0 <= j < i ==> (#[trigger] out@[j])@ == value_view(items@[j]),
                decreases items.len() - i,
            {
                proof {
                    let below = value_view(*value)->Array_0;
                    assert(below[i as int] == value_view(items@[i as int]));
                }
                out.push(decode(&items[i]));
                i = i + 1;
            }
            assert(items_view(out@) =~= values_view(items@));
            Json::Array(out)
        },
        Level::Object(members) => {
            let ghost entries = borrowed_entries(members@);
            let mut out: Vec<(String, Json)> = Vec::new();
            let mut i: usize = 0;
            while i < members.len()
                invariant
                    entries == borrowed_entries(members@),
                    distinct_names(entries),
                    value_view(*value) == JsonView::Object(entries_map(entries)),
                    i <= members.len(),
                    out@.len() == i,
                    forall|j: int|
                        0 <= j < i ==> (#[trigger] out@[j]).0@ == entries[j].0 && out@[j].1@
                            == entries[j].1,
                decreases members.len() - i,
            {
                proof {
                    let below = value_view(*value)->Object_0;
                    lemma_entries_finite(entries);
                    lemma_distinct_entry_found(entries, i as int);
                    assert(below[entries[i as int].0] == value_view(*members@[i as int].1));
                }
                out.push((members[i].0.clone(), decode(members[i].1)));
                i = i + 1;
            }
            assert(member_entries(out@) =~= entries);
            Json::Object(out)
        },
    }
}

/// The `serde_json::Value` with the content of a [`Json`].
fn encode(doc: &Json) -> (value: serde_json::Value)
    ensures
        value_view(value) == doc@,
    decreases doc,
{
    match doc {
        Json::Null => pack(Parts::Null),
        Json::Bool(b) => pack(Parts::Bool(*b)),
        Json::Number(n) => pack(Parts::Number(n.clone())),
        Json::String(s) => pack(Parts::String(s.clone())),
        Json::Array(items) => {
            let mut out: Vec<serde_json::Value> = Vec::new();
            let mut i: usize = 0;
            while i < items.len()
                invariant
                    *doc is Array && doc->Array_0 == *items,
                    i <= items.len(),
                    out@.len() == i,
                    forall|j: int| 0 <= j < i ==> value_view(#[trigger] out@[j]) == items@[j]@,
                decreases items.len() - i,
            {
                out.push(encode(&items[i]));
                i = i + 1;
            }
            assert(values_view(out@) =~= items_view(items@));
            pack(Parts::Array(out))
        },
        Json::Object(members) => {
            let mut out: Vec<(String, serde_json::Value)> = Vec::new();
            let mut i: usize = 0;
            while i < members.len()
                invariant
                    *doc is Object && doc->Object_0 == *members,
                    i <= members.len(),
                    out@.len() == i,
                    forall|j: int|
                        0 <= j < i ==> (#[trigger] out@[j]).0@ == members@[j].0@ && value_view(
                            out@[j].1,
                        ) == members@[j].1@,
                decreases members.len() - i,
            {
                out.push((members[i].0.clone(), encode(&members[i].1)));
                i = i + 1;
            }
            assert(owned_entries(out@) =~= member_entries(members@));
            pack(Parts::Object(out))
        },
    }
}

/// `serde_json::to_string` on a `serde_json::Value`. With the features this
/// crate builds `serde_json` with, an object is written with its members
/// sorted by name, so the text depends on the document alone.
#[verifier::external_body]
fn write_value(value: &serde_json::Value) -> (written: Result<String, serde_json::Error>)
    ensures
        match written {
            Ok(text) => compact_text(value_view(*value)) == Some(text@),
            Err(_) => compact_text(value_view(*value)) is None,
        },
{
    serde_json::to_string(value)
}

/// `serde_json::to_string_pretty` on a `serde_json::Value`. As for
/// `to_string`, the text depends on the document alone.
#[verifier::external_body]
fn write_value_pretty(value: &serde_json::Value) -> (written: Result<String, serde_json::Error>)
    ensures
        match written {
            Ok(text) => pretty_text(value_view(*value)) == Some(text@),
            Err(_) => pretty_text(value_view(*value)) is None,
        },
{
    serde_json::to_string_pretty(value)
}

/// The message of a `serde_json::Error`, as its `Display` gives it. Nothing
/// is claimed of the wording.
#[verifier::external_body]
fn error_text(error: &serde_json::Error) -> (message: String) {
    error.to_string()
}

/// Reads a JSON text. On refusal the parser's message is handed back.
pub fn parse(text: &str) -> (read: Result<Json, String>)
    ensures
        match read {
            Ok(doc) => parsed(text@) == Some(doc@),
            Err(_) => parsed(text@) is None,
        },
{
    match read_value(text) {
        Ok(value) => Ok(decode(&value)),
        Err(error) => Err(error_text(&error)),
    }
}

/// Writes a document as JSON text on one line. Where the writer gives up its
/// message is handed back.
pub fn to_text(doc: &Json) -> (written: Result<String, String>)
    ensures
        match written {
            Ok(text) => compact_text(doc@) == Some(text@),
            Err(_) => compact_text(doc@) is None,
        },
{
    let value = encode(doc);
    match write_value(&value) {
        Ok(text) => Ok(text),
        Err(error) => Err(error_text(&error)),
    }
}

/// Writes a document as indented JSON text. Where the writer gives up its
/// message is handed back.
pub fn to_pretty_text(doc: &Json) -> (written: Result<String, String>)
    ensures
        match written {
            Ok(text) => pretty_text(doc@) == Some(text@),
            Err(_) => pretty_text(doc@) is None,
        },
{
    let value = encode(doc);
    match write_value_pretty(&value) {
        Ok(text) => Ok(text),
        Err(error) => Err(error_text(&error)),
    }
}

} // verus!
