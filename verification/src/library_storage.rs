//! The content library: an index of artifacts, and one file for each
//! artifact.
//!
//! The index is a JSON object with the members `version`, `lastUpdated` and
//! `artifacts`. `artifacts` lists, for every stored artifact, an entry with
//! its descriptive members and without its content. Saving and deleting an
//! artifact keep that list in step with the artifact files; searching reads
//! the list alone.

use crate::clock::timestamp;
use crate::codec::{
    compact_text, parse, parsed, pretty_text, to_pretty_text, to_text, whole_number,
};
use crate::error::{outcome, Fault, StorageError};
use crate::index_file::{
    check_text, checked_text, document_id, identified, rewrite_outcome, write_line, written_line,
    Kind,
};
use crate::json::{empty_object, items_view, Json, JsonView};
use crate::records::{
    any_is_text, count_with_id, has_id, having, holds_id, holds_text, law_delete_absent,
    law_delete_idempotent, lemma_filter_step, none_with_id, remove_by_id, without_id,
};
use crate::std_text::{lowercase, to_lowercase};
use crate::text::{contains_text, decimal_text, joined, occurs_in, texts};
use vstd::prelude::*;

verus! {

/// The directory of the library, below the data directory.
pub const LIBRARY_DIR: &'static str = "library";

/// The index file of the library, in its directory.
pub const INDEX_FILE: &'static str = "index.json";

/// The directory of the artifact files, in the directory of the library.
pub const ARTIFACTS_DIR: &'static str = "artifacts";

/// The words for artifacts.
pub open spec fn artifact_kind() -> Kind {
    Kind {
        key: "artifactId",
        invalid: "artifact",
        missing: "Artifact must have an artifactId",
        absent: "Artifact",
        list: "index",
        one: "artifact",
    }
}

/// The words for artifacts.
pub fn artifacts() -> (kind: Kind)
    ensures
        kind == artifact_kind(),
{
    Kind {
        key: "artifactId",
        invalid: "artifact",
        missing: "Artifact must have an artifactId",
        absent: "Artifact",
        list: "index",
        one: "artifact",
    }
}

/// The index of a library that holds nothing yet.
pub open spec fn default_index(now: Seq<char>) -> JsonView {
    empty_object().with_field("version"@, JsonView::Number(decimal_text(1))).with_field(
        "lastUpdated"@,
        JsonView::String(now),
    ).with_field("artifacts"@, JsonView::Array(Seq::empty()))
}

/// The entry that the index keeps of an artifact: ten of its members, each
/// `null` where the artifact lacks it, and nothing else.
pub open spec fn index_entry(artifact: JsonView) -> JsonView {
    empty_object().with_field("artifactId"@, artifact.field_or_null("artifactId"@)).with_field(
        "projectId"@,
        artifact.field_or_null("projectId"@),
    ).with_field("jobId"@, artifact.field_or_null("jobId"@)).with_field(
        "type"@,
        artifact.field_or_null("type"@),
    ).with_field("title"@, artifact.field_or_null("title"@)).with_field(
        "grade"@,
        artifact.field_or_null("grade"@),
    ).with_field("subject"@, artifact.field_or_null("subject"@)).with_field(
        "objectiveTags"@,
        artifact.field_or_null("objectiveTags"@),
    ).with_field("designPackId"@, artifact.field_or_null("designPackId"@)).with_field(
        "createdAt"@,
        artifact.field_or_null("createdAt"@),
    )
}

/// The index that a stored file holds: the document it parses to, and the
/// index of an empty library where there is no file or it is no JSON.
pub open spec fn stored_index(stored: Option<Seq<char>>, now: Seq<char>) -> JsonView {
    match stored {
        Some(text) => match parsed(text) {
            Some(index) => index,
            None => default_index(now),
        },
        None => default_index(now),
    }
}

/// The index stamped with the time `now`. An index that is no object stays
/// as it is.
pub open spec fn stamped(index: JsonView, now: Seq<char>) -> JsonView {
    index.with_field("lastUpdated"@, JsonView::String(now))
}

/// The index after an artifact was saved: the entries with its identifier
/// leave the list, its new entry goes to the end, and the index is stamped.
/// An index without a list of artifacts is only stamped.
pub open spec fn index_with_artifact(
    index: JsonView,
    entry: JsonView,
    id: Seq<char>,
    now: Seq<char>,
) -> JsonView {
    let listed = match index.field("artifacts"@) {
        Some(JsonView::Array(entries)) => index.with_field(
            "artifacts"@,
            JsonView::Array(without_id(entries, "artifactId"@, id).push(entry)),
        ),
        _ => index,
    };
    stamped(listed, now)
}

/// The index after an artifact was deleted: the entries with its identifier
/// leave the list, and the index is stamped. An index without a list of
/// artifacts is only stamped.
pub open spec fn index_without_artifact(index: JsonView, id: Seq<char>, now: Seq<char>) -> JsonView {
    let listed = match index.field("artifacts"@) {
        Some(JsonView::Array(entries)) => index.with_field(
            "artifacts"@,
            JsonView::Array(without_id(entries, "artifactId"@, id)),
        ),
        _ => index,
    };
    stamped(listed, now)
}

/// The indented text of an index, or the fault where the writer gives up.
pub open spec fn written_index(index: JsonView) -> Result<Seq<char>, Fault> {
    match pretty_text(index) {
        Some(text) => Ok(text),
        None => Err(Fault::Serialize { what: "index"@ }),
    }
}

/// What reading the index hands back: the stored file as it is, and the
/// index of an empty library, on one line, where there is no file.
pub open spec fn library_index(stored: Option<Seq<char>>, now: Seq<char>) -> Result<
    Seq<char>,
    Fault,
> {
    match stored {
        Some(text) => Ok(text),
        None => match compact_text(default_index(now)) {
            Some(text) => Ok(text),
            None => Err(Fault::Serialize { what: "index"@ }),
        },
    }
}

/// What reading an artifact hands back: its file as it is.
pub open spec fn artifact_text(stored: Option<Seq<char>>, id: Seq<char>) -> Result<
    Seq<char>,
    Fault,
> {
    match stored {
        Some(text) => Ok(text),
        None => Err(Fault::NotFound { what: "Artifact"@, id }),
    }
}

/// What saving an artifact at the time `now` hands back: the new index.
pub open spec fn saved_artifact(
    stored: Option<Seq<char>>,
    artifact: Seq<char>,
    now: Seq<char>,
) -> Result<Seq<char>, Fault> {
    match parsed(artifact) {
        None => Err(Fault::InvalidJson { what: "artifact"@ }),
        Some(doc) => match doc.str_field("artifactId"@) {
            None => Err(Fault::MissingId { rule: "Artifact must have an artifactId"@ }),
            Some(id) => written_index(
                index_with_artifact(stored_index(stored, now), index_entry(doc), id, now),
            ),
        },
    }
}

/// What deleting an artifact at the time `now` hands back: the new index,
/// and nothing to write where there is no index.
pub open spec fn deleted_artifact(stored: Option<Seq<char>>, id: Seq<char>, now: Seq<char>) -> Result<
    Option<Seq<char>>,
    Fault,
> {
    match stored {
        None => Ok(None),
        Some(_) => match written_index(index_without_artifact(stored_index(stored, now), id, now)) {
            Ok(text) => Ok(Some(text)),
            Err(fault) => Err(fault),
        },
    }
}

/// A criterion on a member that entry and query call by one name: where the
/// query gives a string under `key`, the entry has the same string there.
pub open spec fn text_criterion(entry: JsonView, query: JsonView, key: Seq<char>) -> bool {
    match query.str_field(key) {
        Some(wanted) => entry.str_field(key) == Some(wanted),
        None => true,
    }
}

/// Whether the entry lists `tag` among its objective tags.
pub open spec fn carries_tag(entry: JsonView, tag: Seq<char>) -> bool {
    match entry.field("objectiveTags"@) {
        Some(JsonView::Array(tags)) => any_is_text(tags, tag),
        _ => false,
    }
}

/// The criterion on objective tags: where the query gives an `objectiveTag`,
/// the entry lists it.
pub open spec fn tag_criterion(entry: JsonView, query: JsonView) -> bool {
    match query.str_field("objectiveTag"@) {
        Some(tag) => carries_tag(entry, tag),
        None => true,
    }
}

/// Whether the title of the entry holds `text`, letter case aside.
pub open spec fn title_holds(entry: JsonView, text: Seq<char>) -> bool {
    match entry.str_field("title"@) {
        Some(title) => occurs_in(lowercase(text), lowercase(title)),
        None => false,
    }
}

/// The criterion on the title: where the query gives a `searchText`, the
/// entry has a title that holds it, letter case aside.
pub open spec fn title_criterion(entry: JsonView, query: JsonView) -> bool {
    match query.str_field("searchText"@) {
        Some(text) => title_holds(entry, text),
        None => true,
    }
}

/// Whether an entry meets a query: it meets every criterion that the query
/// gives. A criterion that the query does not give excludes nothing.
pub open spec fn matches_query(entry: JsonView, query: JsonView) -> bool {
    &&& text_criterion(entry, query, "projectId"@)
    &&& text_criterion(entry, query, "grade"@)
    &&& text_criterion(entry, query, "subject"@)
    &&& text_criterion(entry, query, "type"@)
    &&& tag_criterion(entry, query)
    &&& text_criterion(entry, query, "designPackId"@)
    &&& title_criterion(entry, query)
}

/// The entries that meet the query, in order.
pub open spec fn matching(entries: Seq<JsonView>, query: JsonView) -> Seq<JsonView> {
    entries.filter(|entry: JsonView| matches_query(entry, query))
}

/// The entries that an index lists: `None` where it has no list of
/// artifacts.
pub open spec fn entries_of(index: JsonView) -> Option<Seq<JsonView>> {
    match index.field("artifacts"@) {
        Some(JsonView::Array(entries)) => Some(entries),
        _ => None,
    }
}

/// The entries that a stored index lists: none where the file is no JSON,
/// and `None` where it is JSON without a list of artifacts.
pub open spec fn listed_entries(text: Seq<char>) -> Option<Seq<JsonView>> {
    match parsed(text) {
        Some(index) => entries_of(index),
        None => Some(Seq::empty()),
    }
}

/// What searching hands back: `[]` where there is no index, whatever the
/// query; else the listed entries that meet the query, on one line.
pub open spec fn searched(stored: Option<Seq<char>>, query: Seq<char>) -> Result<Seq<char>, Fault> {
    match stored {
        None => Ok("[]"@),
        Some(text) => match parsed(query) {
            None => Err(Fault::InvalidJson { what: "query"@ }),
            Some(wanted) => match listed_entries(text) {
                Some(entries) => written_line("results"@, matching(entries, wanted)),
                None => Ok("[]"@),
            },
        },
    }
}

/// The index of a library that holds nothing yet.
pub fn new_index(now: &str) -> (index: Json)
    ensures
        index@ == default_index(now@),
{
    Json::object().with_field(String::from_str("version"), Json::Number(whole_number(1))).with_field(
        String::from_str("lastUpdated"),
        Json::string(now),
    ).with_field(String::from_str("artifacts"), Json::array())
}

/// The entry that the index keeps of an artifact.
pub fn entry_of(artifact: &Json) -> (entry: Json)
    ensures
        entry@ == index_entry(artifact@),
{
    Json::object().with_field(String::from_str("artifactId"), artifact.field_or_null("artifactId")).with_field(String::from_str("projectId"), artifact.field_or_null("projectId")).with_field(
        String::from_str("jobId"),
        artifact.field_or_null("jobId"),
    ).with_field(String::from_str("type"), artifact.field_or_null("type")).with_field(
        String::from_str("title"),
        artifact.field_or_null("title"),
    ).with_field(String::from_str("grade"), artifact.field_or_null("grade")).with_field(
        String::from_str("subject"),
        artifact.field_or_null("subject"),
    ).with_field(
        String::from_str("objectiveTags"),
        artifact.field_or_null("objectiveTags"),
    ).with_field(
        String::from_str("designPackId"),
        artifact.field_or_null("designPackId"),
    ).with_field(String::from_str("createdAt"), artifact.field_or_null("createdAt"))
}

/// The entries that an index lists, without those identified by `id`;
/// `None` where the index has no list of artifacts.
fn entries_without(index: &Json, id: &str) -> (kept: Option<Vec<Json>>)
    ensures
        match kept {
            Some(list) => index@.field("artifacts"@) matches Some(JsonView::Array(entries))
                && items_view(list@) == without_id(entries, "artifactId"@, id@),
            None => !(index@.field("artifacts"@) matches Some(JsonView::Array(_))),
        },
{
    match index.get("artifacts") {
        Some(list) => match list.as_array() {
            Some(entries) => Some(remove_by_id(entries, "artifactId", id)),
            None => None,
        },
        None => None,
    }
}

/// Enters an artifact into an index: see [`index_with_artifact`].
pub fn put_artifact(index: Json, artifact: &Json, id: &str, now: &str) -> (next: Json)
    ensures
        next@ == index_with_artifact(index@, index_entry(artifact@), id@, now@),
{
    let listed = match entries_without(&index, id) {
        Some(mut entries) => {
            let ghost before = entries@;
            let entry = entry_of(artifact);
            entries.push(entry);
            assert(items_view(entries@) =~= items_view(before).push(entry@));
            index.with_field(String::from_str("artifacts"), Json::Array(entries))
        },
        None => index,
    };
    listed.with_field(String::from_str("lastUpdated"), Json::string(now))
}

/// Takes an artifact out of an index: see [`index_without_artifact`].
pub fn drop_artifact(index: Json, id: &str, now: &str) -> (next: Json)
    ensures
        next@ == index_without_artifact(index@, id@, now@),
{
    let listed = match entries_without(&index, id) {
        Some(entries) => index.with_field(String::from_str("artifacts"), Json::Array(entries)),
        None => index,
    };
    listed.with_field(String::from_str("lastUpdated"), Json::string(now))
}

/// Reads the index that a stored file holds.
fn read_index(stored: &Option<String>, now: &str) -> (index: Json)
    ensures
        index@ == stored_index(texts(*stored), now@),
{
    match stored {
        Some(text) => match parse(text.as_str()) {
            Ok(index) => index,
            Err(_) => new_index(now),
        },
        None => new_index(now),
    }
}

/// Writes an index as indented text.
fn write_index(index: &Json) -> (written: Result<String, StorageError>)
    ensures
        outcome(written) == written_index(index@),
{
    match to_pretty_text(index) {
        Ok(text) => Ok(text),
        Err(reason) => Err(StorageError::Serialize { what: "index", reason }),
    }
}

/// Whether the entry meets the criterion on the member `key`.
fn meets_text_criterion(entry: &Json, query: &Json, key: &str) -> (met: bool)
    ensures
        met == text_criterion(entry@, query@, key@),
{
    match query.str_field(key) {
        Some(wanted) => has_id(entry, key, wanted),
        None => true,
    }
}

/// Whether the entry meets the criterion on objective tags.
fn meets_tag_criterion(entry: &Json, query: &Json) -> (met: bool)
    ensures
        met == tag_criterion(entry@, query@),
{
    match query.str_field("objectiveTag") {
        Some(tag) => match entry.get("objectiveTags") {
            Some(list) => match list.as_array() {
                Some(tags) => holds_text(tags, tag),
                None => false,
            },
            None => false,
        },
        None => true,
    }
}

/// Whether the entry meets the criterion on the title.
fn meets_title_criterion(entry: &Json, query: &Json) -> (met: bool)
    ensures
        met == title_criterion(entry@, query@),
{
    match query.str_field("searchText") {
        Some(text) => match entry.str_field("title") {
            Some(title) => {
                let wanted = to_lowercase(text);
                let given = to_lowercase(title);
                contains_text(given.as_str(), wanted.as_str())
            },
            None => false,
        },
        None => true,
    }
}

/// Whether an entry meets a query.
pub fn meets_query(entry: &Json, query: &Json) -> (met: bool)
    ensures
        met == matches_query(entry@, query@),
{
    meets_text_criterion(entry, query, "projectId") && meets_text_criterion(entry, query, "grade")
        && meets_text_criterion(entry, query, "subject") && meets_text_criterion(
        entry,
        query,
        "type",
    ) && meets_tag_criterion(entry, query) && meets_text_criterion(entry, query, "designPackId")
        && meets_title_criterion(entry, query)
}

/// A copy of the entries that meet the query, in order.
pub fn search(entries: &Vec<Json>, query: &Json) -> (hits: Vec<Json>)
    ensures
        items_view(hits@) == matching(items_view(entries@), query@),
{
    let ghost all = items_view(entries@);
    let ghost keep = |entry: JsonView| matches_query(entry, query@);
    let mut hits: Vec<Json> = Vec::new();
    let mut i: usize = 0;
    proof {
        reveal(Seq::filter);
        assert(all.take(0).filter(keep) =~= Seq::<JsonView>::empty());
        assert(items_view(hits@) =~= Seq::<JsonView>::empty());
    }
    while i < entries.len()
        invariant
            i <= entries.len(),
            all == items_view(entries@),
            keep == |entry: JsonView| matches_query(entry, query@),
            items_view(hits@) == all.take(i as int).filter(keep),
        decreases entries.len() - i,
    {
        proof {
            lemma_filter_step(all, keep, i as int);
        }
        if meets_query(&entries[i], query) {
            let ghost before = hits@;
            hits.push(entries[i].duplicate());
            assert(items_view(hits@) =~= items_view(before).push(all[i as int]));
        }
        i = i + 1;
    }
    assert(all.take(entries.len() as int) =~= all);
    hits
}

/// The name of the file that holds the artifact `artifact_id`.
pub fn artifact_file_name(artifact_id: &str) -> (name: String)
    ensures
        name@ == artifact_id@ + ".json"@,
{
    joined(artifact_id, ".json")
}

/// Reads the identifier out of the text of an artifact.
pub fn artifact_id(artifact: &str) -> (id: Result<String, StorageError>)
    ensures
        outcome(id) == identified(artifact_kind(), artifact@),
{
    document_id(&artifacts(), artifact)
}

/// Reads the index at the time `now`: the stored file as it is, and the
/// index of an empty library where there is no file.
pub fn get_library_index_at(stored: Option<String>, now: &str) -> (index: Result<
    String,
    StorageError,
>)
    ensures
        outcome(index) == library_index(texts(stored), now@),
{
    match stored {
        Some(text) => Ok(text),
        None => match to_text(&new_index(now)) {
            Ok(text) => Ok(text),
            Err(reason) => Err(StorageError::Serialize { what: "index", reason }),
        },
    }
}

/// Reads the index: the stored file as it is, and the index of an empty
/// library, stamped with the present time, where there is no file.
pub fn get_library_index(stored: Option<String>) -> (index: Result<String, StorageError>)
    ensures
        exists|now: Seq<char>| outcome(index) == #[trigger] library_index(texts(stored), now),
        stored matches Some(text) ==> outcome(index) == Ok::<Seq<char>, Fault>(text@),
{
    let now = timestamp();
    get_library_index_at(stored, now.as_str())
}

/// Checks a whole index before it is stored: any JSON text is accepted and
/// handed back as it is.
pub fn save_library_index(index: String) -> (checked: Result<String, StorageError>)
    ensures
        outcome(checked) == checked_text("index"@, index@),
{
    check_text("index", index)
}

/// Reads an artifact: its file as it is, or that there is none.
pub fn get_artifact(stored: Option<String>, artifact_id: String) -> (artifact: Result<
    String,
    StorageError,
>)
    ensures
        outcome(artifact) == artifact_text(texts(stored), artifact_id@),
{
    match stored {
        Some(text) => Ok(text),
        None => Err(StorageError::NotFound { what: "Artifact", id: artifact_id }),
    }
}

/// Saves an artifact at the time `now` and hands back the new index.
pub fn save_artifact_at(stored_index: Option<String>, artifact: String, now: &str) -> (next: Result<
    String,
    StorageError,
>)
    ensures
        outcome(next) == saved_artifact(texts(stored_index), artifact@, now@),
{
    match parse(artifact.as_str()) {
        Ok(doc) => match doc.str_field("artifactId") {
            Some(id) => {
                let index = read_index(&stored_index, now);
                let next = put_artifact(index, &doc, id, now);
                write_index(&next)
            },
            None => Err(StorageError::MissingId { rule: "Artifact must have an artifactId" }),
        },
        Err(reason) => Err(StorageError::InvalidJson { what: "artifact", reason }),
    }
}

/// Saves an artifact, stamping the index with the present time, and hands
/// back the new index.
pub fn save_artifact(stored_index: Option<String>, artifact: String) -> (next: Result<
    String,
    StorageError,
>)
    ensures
        exists|now: Seq<char>|
            outcome(next) == #[trigger] saved_artifact(texts(stored_index), artifact@, now),
{
    let now = timestamp();
    save_artifact_at(stored_index, artifact, now.as_str())
}

/// Deletes an artifact from the index at the time `now` and hands back the
/// new index; `None` where there is no index to rewrite.
pub fn delete_artifact_at(stored_index: Option<String>, artifact_id: String, now: &str) -> (next:
    Result<Option<String>, StorageError>)
    ensures
        rewrite_outcome(next) == deleted_artifact(texts(stored_index), artifact_id@, now@),
{
    if stored_index.is_none() {
        return Ok(None);
    }
    let index = read_index(&stored_index, now);
    let next = drop_artifact(index, artifact_id.as_str(), now);
    match write_index(&next) {
        Ok(text) => Ok(Some(text)),
        Err(error) => Err(error),
    }
}

/// Deletes an artifact from the index, stamping it with the present time,
/// and hands back the new index; `None` where there is no index to rewrite.
pub fn delete_artifact(stored_index: Option<String>, artifact_id: String) -> (next: Result<
    Option<String>,
    StorageError,
>)
    ensures
        exists|now: Seq<char>|
            rewrite_outcome(next) == #[trigger] deleted_artifact(
                texts(stored_index),
                artifact_id@,
                now,
            ),
{
    let now = timestamp();
    delete_artifact_at(stored_index, artifact_id, now.as_str())
}

/// Searches the index: hands back, on one line, the listed entries that meet
/// every criterion of the query.
pub fn search_artifacts(stored_index: Option<String>, query: String) -> (hits: Result<
    String,
    StorageError,
>)
    ensures
        outcome(hits) == searched(texts(stored_index), query@),
        stored_index is None ==> outcome(hits) == Ok::<Seq<char>, Fault>("[]"@),
{
    let text = match stored_index {
        Some(text) => text,
        None => {
            return Ok(String::from_str("[]"));
        },
    };
    let wanted = match parse(query.as_str()) {
        Ok(wanted) => wanted,
        Err(reason) => {
            return Err(StorageError::InvalidJson { what: "query", reason });
        },
    };
    match parse(text.as_str()) {
        Ok(index) => match index.get("artifacts") {
            Some(list) => match list.as_array() {
                Some(entries) => write_line("results", search(entries, &wanted)),
                None => Ok(String::from_str("[]")),
            },
            None => Ok(String::from_str("[]")),
        },
        Err(_) => {
            let none: Vec<Json> = Vec::new();
            proof {
                reveal(Seq::filter);
                assert(items_view(none@) =~= Seq::<JsonView>::empty());
                assert(matching(Seq::<JsonView>::empty(), wanted@) =~= Seq::<JsonView>::empty());
            }
            write_line("results", none)
        },
    }
}

/// Whether, under the name `key`, the query `both` asks for what the queries
/// `a` and `b` ask for together. Where both of them ask they ask for the
/// same.
pub open spec fn asks_both(both: JsonView, a: JsonView, b: JsonView, key: Seq<char>) -> bool {
    &&& both.str_field(key) == if a.str_field(key) is Some {
        a.str_field(key)
    } else {
        b.str_field(key)
    }
    &&& a.str_field(key) is Some && b.str_field(key) is Some ==> a.str_field(key) == b.str_field(
        key,
    )
}

/// Whether the query `both` gives exactly the criteria of `a` and of `b`.
pub open spec fn combines(both: JsonView, a: JsonView, b: JsonView) -> bool {
    &&& asks_both(both, a, b, "projectId"@)
    &&& asks_both(both, a, b, "grade"@)
    &&& asks_both(both, a, b, "subject"@)
    &&& asks_both(both, a, b, "type"@)
    &&& asks_both(both, a, b, "objectiveTag"@)
    &&& asks_both(both, a, b, "designPackId"@)
    &&& asks_both(both, a, b, "searchText"@)
}

/// Whether the query gives no criterion at all.
pub open spec fn asks_nothing(query: JsonView) -> bool {
    &&& query.str_field("projectId"@) is None
    &&& query.str_field("grade"@) is None
    &&& query.str_field("subject"@) is None
    &&& query.str_field("type"@) is None
    &&& query.str_field("objectiveTag"@) is None
    &&& query.str_field("designPackId"@) is None
    &&& query.str_field("searchText"@) is None
}

/// Filtering twice is filtering once by both conditions.
proof fn lemma_filter_twice(
    items: Seq<JsonView>,
    first: spec_fn(JsonView) -> bool,
    second: spec_fn(JsonView) -> bool,
    both: spec_fn(JsonView) -> bool,
)
    requires
        forall|item: JsonView| #[trigger] both(item) == (first(item) && second(item)),
    ensures
        items.filter(first).filter(second) == items.filter(both),
    decreases items.len(),
{
    reveal(Seq::filter);
    if items.len() > 0 {
        let rest = items.drop_last();
        let last = items.last();
        lemma_filter_twice(rest, first, second, both);
        assert(both(last) == (first(last) && second(last)));
        if first(last) {
            assert(rest.filter(first).push(last).drop_last() =~= rest.filter(first));
        }
    }
}

/// The criteria of a query are joined by "and": an entry meets a query that
/// gives the criteria of two queries exactly when it meets both of them.
pub proof fn law_search_conjunctive(entry: JsonView, both: JsonView, a: JsonView, b: JsonView)
    requires
        combines(both, a, b),
    ensures
        matches_query(entry, both) == (matches_query(entry, a) && matches_query(entry, b)),
{
}

/// Searching with the criteria of two queries at once finds what searching
/// with the one and then, among its hits, with the other finds.
pub proof fn law_search_narrows(entries: Seq<JsonView>, both: JsonView, a: JsonView, b: JsonView)
    requires
        combines(both, a, b),
    ensures
        matching(entries, both) == matching(matching(entries, a), b),
{
    let first = |entry: JsonView| matches_query(entry, a);
    let second = |entry: JsonView| matches_query(entry, b);
    let joint = |entry: JsonView| matches_query(entry, both);
    assert forall|entry: JsonView| #[trigger] joint(entry) == (first(entry) && second(entry)) by {
        law_search_conjunctive(entry, both, a, b);
    }
    lemma_filter_twice(entries, first, second, joint);
}

/// A query without criteria finds every entry.
pub proof fn law_search_without_criteria(entries: Seq<JsonView>, query: JsonView)
    requires
        asks_nothing(query),
    ensures
        matching(entries, query) == entries,
    decreases entries.len(),
{
    reveal(Seq::filter);
    if entries.len() > 0 {
        law_search_without_criteria(entries.drop_last(), query);
        assert(matches_query(entries.last(), query));
        assert(entries.drop_last().push(entries.last()) =~= entries);
    }
}

/// The entry of an artifact carries the artifact's identifier.
proof fn lemma_entry_keeps_id(artifact: JsonView, id: Seq<char>)
    requires
        holds_id(artifact, "artifactId"@, id),
    ensures
        holds_id(index_entry(artifact), "artifactId"@, id),
{
    reveal_strlit("artifactId");
    reveal_strlit("projectId");
    reveal_strlit("jobId");
    reveal_strlit("type");
    reveal_strlit("title");
    reveal_strlit("grade");
    reveal_strlit("subject");
    reveal_strlit("objectiveTags");
    reveal_strlit("designPackId");
    reveal_strlit("createdAt");
    assert("artifactId"@.len() == 10);
    assert("projectId"@.len() == 9);
    assert("jobId"@.len() == 5);
    assert("type"@.len() == 4);
    assert("title"@.len() == 5);
    assert("grade"@.len() == 5);
    assert("subject"@.len() == 7);
    assert("objectiveTags"@.len() == 13);
    assert("designPackId"@.len() == 12);
    assert("createdAt"@.len() == 9);
}

/// Stamping an index does not touch its list of artifacts.
proof fn lemma_stamp_keeps_entries(index: JsonView, now: Seq<char>)
    ensures
        stamped(index, now).field("artifacts"@) == index.field("artifacts"@),
{
    reveal_strlit("artifacts");
    reveal_strlit("lastUpdated");
    assert("artifacts"@.len() == 9);
    assert("lastUpdated"@.len() == 11);
}

/// After an artifact was saved the index lists exactly one entry with its
/// identifier, the entry of the artifact just saved, whatever it listed
/// before.
pub proof fn law_save_artifact_one_entry(
    index: JsonView,
    artifact: JsonView,
    id: Seq<char>,
    now: Seq<char>,
)
    requires
        entries_of(index) is Some,
        holds_id(artifact, "artifactId"@, id),
    ensures
        entries_of(index_with_artifact(index, index_entry(artifact), id, now)) is Some,
        having(
            entries_of(index_with_artifact(index, index_entry(artifact), id, now))->0,
            "artifactId"@,
            id,
        ) == seq![index_entry(artifact)],
        count_with_id(
            entries_of(index_with_artifact(index, index_entry(artifact), id, now))->0,
            "artifactId"@,
            id,
        ) == 1,
{
    let key = "artifactId"@;
    let entry = index_entry(artifact);
    let entries = entries_of(index)->0;
    let kept = without_id(entries, key, id);
    let listed = index.with_field("artifacts"@, JsonView::Array(kept.push(entry)));
    lemma_entry_keeps_id(artifact, id);
    lemma_stamp_keeps_entries(listed, now);
    law_delete_idempotent(entries, key, id);
    let holds = |doc: JsonView| holds_id(doc, key, id);
    assert(kept.push(entry).filter(holds) =~= seq![entry]) by {
        reveal(Seq::filter);
        assert(kept.push(entry).drop_last() =~= kept);
        lemma_none_kept(kept, key, id);
    }
}

/// A list in which no document holds an identifier has no documents that
/// hold it.
proof fn lemma_none_kept(items: Seq<JsonView>, key: Seq<char>, id: Seq<char>)
    requires
        none_with_id(items, key, id),
    ensures
        having(items, key, id) == Seq::<JsonView>::empty(),
    decreases items.len(),
{
    reveal(Seq::filter);
    if items.len() > 0 {
        let rest = items.drop_last();
        assert forall|j: int| 0 <= j < rest.len() implies !holds_id(#[trigger] rest[j], key, id) by {
            assert(rest[j] == items[j]);
        }
        lemma_none_kept(rest, key, id);
        assert(!holds_id(items[items.len() - 1], key, id));
    } else {
        assert(having(items, key, id) =~= Seq::<JsonView>::empty());
    }
}

/// Of two savings of one artifact the later one is what the index holds: it
/// is the index that the later saving alone would have left.
pub proof fn law_save_artifact_latest(
    index: JsonView,
    earlier: JsonView,
    later: JsonView,
    id: Seq<char>,
    then: Seq<char>,
    now: Seq<char>,
)
    requires
        holds_id(earlier, "artifactId"@, id),
    ensures
        index_with_artifact(
            index_with_artifact(index, index_entry(earlier), id, then),
            index_entry(later),
            id,
            now,
        ) == index_with_artifact(index, index_entry(later), id, now),
{
    let key = "artifactId"@;
    let first = index_entry(earlier);
    let second = index_entry(later);
    let once = index_with_artifact(index, first, id, then);
    lemma_entry_keeps_id(earlier, id);
    match index {
        JsonView::Object(members) => {
            match entries_of(index) {
                Some(entries) => {
                    let kept = without_id(entries, key, id);
                    let listed = index.with_field("artifacts"@, JsonView::Array(kept.push(first)));
                    lemma_stamp_keeps_entries(listed, then);
                    law_delete_idempotent(entries, key, id);
                    assert(without_id(kept.push(first), key, id) =~= kept) by {
                        reveal(Seq::filter);
                        assert(kept.push(first).drop_last() =~= kept);
                    }
                    let twice = index_with_artifact(once, second, id, now);
                    let alone = index_with_artifact(index, second, id, now);
                    assert(twice->Object_0 =~= alone->Object_0);
                },
                None => {
                    lemma_stamp_keeps_entries(index, then);
                    let twice = index_with_artifact(once, second, id, now);
                    let alone = index_with_artifact(index, second, id, now);
                    assert(twice->Object_0 =~= alone->Object_0);
                },
            }
        },
        _ => {},
    }
}

/// Deleting an artifact that the index does not list leaves its list as it
/// is: the index is only stamped.
pub proof fn law_delete_absent_artifact(index: JsonView, id: Seq<char>, now: Seq<char>)
    requires
        entries_of(index) matches Some(entries) ==> none_with_id(entries, "artifactId"@, id),
    ensures
        index_without_artifact(index, id, now) == stamped(index, now),
{
    match entries_of(index) {
        Some(entries) => {
            law_delete_absent(entries, "artifactId"@, id);
            let listed = index.with_field("artifacts"@, JsonView::Array(entries));
            assert(listed->Object_0 =~= index->Object_0);
        },
        None => {},
    }
}

} // verus!
