//! An index file as text.
//!
//! Design packs, projects, learner profiles and quick checks are each kept in
//! one file that holds a JSON array. The commands of this module take what
//! such a file holds now (`None` where there is no file) and hand back what
//! it shall hold next. A file that cannot be read as a JSON array counts as
//! an empty list.

use crate::codec::{compact_text, parse, parsed, pretty_text, to_pretty_text, to_text};
use crate::error::{outcome, Fault, StorageError};
use crate::json::{items_view, Json, JsonView};
use crate::records::{
    find_by_id, first_with_id, having, remove_by_id, select_by_field, upsert, upserted, without_id,
};
use crate::text::texts;
use vstd::prelude::*;

verus! {

/// The words by which one kind of record differs from the others.
#[derive(Debug, Clone, Copy, PartialEq, Eq)]
pub struct Kind {
    /// The name under which a document carries its identifier.
    pub key: &'static str,
    /// What a document is called where its text is refused.
    pub invalid: &'static str,
    /// The message for a document without an identifier.
    pub missing: &'static str,
    /// What a document is called where none is found.
    pub absent: &'static str,
    /// What the whole list is called where it cannot be written.
    pub list: &'static str,
    /// What one document is called where it cannot be written.
    pub one: &'static str,
}

/// What a command that may rewrite the file hands back, seen as plain values:
/// the new text, `None` where nothing is to be written, or the fault.
pub open spec fn rewrite_outcome(result: Result<Option<String>, StorageError>) -> Result<
    Option<Seq<char>>,
    Fault,
> {
    match result {
        Ok(Some(text)) => Ok(Some(text@)),
        Ok(None) => Ok(None),
        Err(error) => Err(error@),
    }
}

/// The list that a stored file holds: the items of the array it parses to,
/// and no items where there is no file or the file holds anything else.
pub open spec fn stored_items(stored: Option<Seq<char>>) -> Seq<JsonView> {
    match stored {
        Some(text) => match parsed(text) {
            Some(JsonView::Array(items)) => items,
            _ => Seq::empty(),
        },
        None => Seq::empty(),
    }
}

/// What listing hands back: the file as it is, `[]` where there is none.
pub open spec fn listed(stored: Option<Seq<char>>) -> Seq<char> {
    match stored {
        Some(text) => text,
        None => "[]"@,
    }
}

/// The identifier that a text carries, or why it carries none.
pub open spec fn identified(kind: Kind, text: Seq<char>) -> Result<Seq<char>, Fault> {
    match parsed(text) {
        None => Err(Fault::InvalidJson { what: kind.invalid@ }),
        Some(doc) => match doc.str_field(kind.key@) {
            Some(id) => Ok(id),
            None => Err(Fault::MissingId { rule: kind.missing@ }),
        },
    }
}

/// What checking a text hands back: the text itself where it is JSON.
pub open spec fn checked_text(what: Seq<char>, text: Seq<char>) -> Result<Seq<char>, Fault> {
    match parsed(text) {
        Some(_) => Ok(text),
        None => Err(Fault::InvalidJson { what }),
    }
}

/// The indented text of a list, or the fault where the writer gives up.
pub open spec fn written_list(what: Seq<char>, items: Seq<JsonView>) -> Result<Seq<char>, Fault> {
    match pretty_text(JsonView::Array(items)) {
        Some(text) => Ok(text),
        None => Err(Fault::Serialize { what }),
    }
}

/// The one-line text of a list, or the fault where the writer gives up.
pub open spec fn written_line(what: Seq<char>, items: Seq<JsonView>) -> Result<Seq<char>, Fault> {
    match compact_text(JsonView::Array(items)) {
        Some(text) => Ok(text),
        None => Err(Fault::Serialize { what }),
    }
}

/// What saving hands back: the file with the document saved into its list.
/// A text that is no JSON and a document without an identifier are refused.
pub open spec fn saved(kind: Kind, stored: Option<Seq<char>>, text: Seq<char>) -> Result<
    Seq<char>,
    Fault,
> {
    match parsed(text) {
        None => Err(Fault::InvalidJson { what: kind.invalid@ }),
        Some(doc) => if doc.str_field(kind.key@) is None {
            Err(Fault::MissingId { rule: kind.missing@ })
        } else {
            written_list(kind.list@, upserted(stored_items(stored), kind.key@, doc))
        },
    }
}

/// What deleting hands back: nothing to write where there is no file, else
/// the file without the documents of that identifier.
pub open spec fn deleted(kind: Kind, stored: Option<Seq<char>>, id: Seq<char>) -> Result<
    Option<Seq<char>>,
    Fault,
> {
    match stored {
        None => Ok(None),
        Some(_) => match written_list(kind.list@, without_id(stored_items(stored), kind.key@, id)) {
            Ok(text) => Ok(Some(text)),
            Err(fault) => Err(fault),
        },
    }
}

/// What looking up one document hands back: the first document of that
/// identifier on one line, or that there is none.
pub open spec fn found(kind: Kind, stored: Option<Seq<char>>, id: Seq<char>) -> Result<
    Seq<char>,
    Fault,
> {
    let items = stored_items(stored);
    match first_with_id(items, kind.key@, id) {
        Some(at) => match compact_text(items[at]) {
            Some(text) => Ok(text),
            None => Err(Fault::Serialize { what: kind.one@ }),
        },
        None => Err(Fault::NotFound { what: kind.absent@, id }),
    }
}

/// What selecting hands back: `[]` where there is no file, else the
/// documents that carry `value` under `key`, on one line.
pub open spec fn selected(
    what: Seq<char>,
    stored: Option<Seq<char>>,
    key: Seq<char>,
    value: Seq<char>,
) -> Result<Seq<char>, Fault> {
    match stored {
        None => Ok("[]"@),
        Some(_) => written_line(what, having(stored_items(stored), key, value)),
    }
}

/// Reads the list that a stored file holds.
pub fn read_items(stored: &Option<String>) -> (items: Vec<Json>)
    ensures
        items_view(items@) == stored_items(texts(*stored)),
{
    match stored {
        Some(text) => match parse(text.as_str()) {
            Ok(Json::Array(items)) => items,
            _ => {
                let items: Vec<Json> = Vec::new();
                assert(items_view(items@) =~= Seq::<JsonView>::empty());
                items
            },
        },
        None => {
            let items: Vec<Json> = Vec::new();
            assert(items_view(items@) =~= Seq::<JsonView>::empty());
            items
        },
    }
}

/// Writes a list as indented text.
pub fn write_list(what: &'static str, items: Vec<Json>) -> (written: Result<String, StorageError>)
    ensures
        outcome(written) == written_list(what@, items_view(items@)),
{
    match to_pretty_text(&Json::Array(items)) {
        Ok(text) => Ok(text),
        Err(reason) => Err(StorageError::Serialize { what, reason }),
    }
}

/// Writes a list on one line.
pub fn write_line(what: &'static str, items: Vec<Json>) -> (written: Result<String, StorageError>)
    ensures
        outcome(written) == written_line(what@, items_view(items@)),
{
    match to_text(&Json::Array(items)) {
        Ok(text) => Ok(text),
        Err(reason) => Err(StorageError::Serialize { what, reason }),
    }
}

/// Lists all records: the stored file as it is, `[]` where there is none.
pub fn list_all(stored: Option<String>) -> (text: String)
    ensures
        text@ == listed(texts(stored)),
        stored is None ==> text@ == "[]"@,
{
    match stored {
        Some(text) => text,
        None => String::from_str("[]"),
    }
}

/// Checks that a text is JSON and hands it back as it is.
pub fn check_text(what: &'static str, text: String) -> (checked: Result<String, StorageError>)
    ensures
        outcome(checked) == checked_text(what@, text@),
{
    match parse(text.as_str()) {
        Ok(_) => Ok(text),
        Err(reason) => Err(StorageError::InvalidJson { what, reason }),
    }
}

/// Reads the identifier out of the text of a document.
pub fn document_id(kind: &Kind, text: &str) -> (id: Result<String, StorageError>)
    ensures
        outcome(id) == identified(*kind, text@),
{
    match parse(text) {
        Ok(doc) => match doc.str_field(kind.key) {
            Some(id) => Ok(String::from_str(id)),
            None => Err(StorageError::MissingId { rule: kind.missing }),
        },
        Err(reason) => Err(StorageError::InvalidJson { what: kind.invalid, reason }),
    }
}

/// Saves a document into the stored list and hands back the new file.
pub fn save_one(kind: &Kind, stored: Option<String>, text: &str) -> (next: Result<
    String,
    StorageError,
>)
    ensures
        outcome(next) == saved(*kind, texts(stored), text@),
{
    match parse(text) {
        Ok(doc) => {
            let mut items = read_items(&stored);
            if upsert(&mut items, kind.key, doc) {
                write_list(kind.list, items)
            } else {
                Err(StorageError::MissingId { rule: kind.missing })
            }
        },
        Err(reason) => Err(StorageError::InvalidJson { what: kind.invalid, reason }),
    }
}

/// Deletes the documents of an identifier from the stored list and hands
/// back the new file; `None` where there is no file to rewrite.
pub fn delete_one(kind: &Kind, stored: Option<String>, id: &str) -> (next: Result<
    Option<String>,
    StorageError,
>)
    ensures
        rewrite_outcome(next) == deleted(*kind, texts(stored), id@),
        stored is None ==> next == Ok::<Option<String>, StorageError>(None),
{
    if stored.is_none() {
        return Ok(None);
    }
    let items = read_items(&stored);
    let kept = remove_by_id(&items, kind.key, id);
    match write_list(kind.list, kept) {
        Ok(text) => Ok(Some(text)),
        Err(error) => Err(error),
    }
}

/// Looks up the first document of an identifier and hands it back as text
/// on one line.
pub fn find_one(kind: &Kind, stored: Option<String>, id: String) -> (doc: Result<
    String,
    StorageError,
>)
    ensures
        outcome(doc) == found(*kind, texts(stored), id@),
{
    let items = read_items(&stored);
    match find_by_id(&items, kind.key, id.as_str()) {
        Some(at) => match to_text(&items[at]) {
            Ok(text) => Ok(text),
            Err(reason) => Err(StorageError::Serialize { what: kind.one, reason }),
        },
        None => Err(StorageError::NotFound { what: kind.absent, id }),
    }
}

/// Hands back, as text on one line, the stored documents that carry `value`
/// under `key`; `[]` where there is no file.
pub fn select(what: &'static str, stored: Option<String>, key: &str, value: &str) -> (chosen: Result<
    String,
    StorageError,
>)
    ensures
        outcome(chosen) == selected(what@, texts(stored), key@, value@),
        stored is None ==> outcome(chosen) == Ok::<Seq<char>, Fault>("[]"@),
{
    if stored.is_none() {
        return Ok(String::from_str("[]"));
    }
    let items = read_items(&stored);
    write_line(what, select_by_field(&items, key, value))
}

} // verus!
