//! Learners: their profiles in one index file, and for each learner a
//! directory with a mastery record and a history of quick checks.

use crate::clock::timestamp;
use crate::codec::{compact_text, parse, parsed, pretty_text, to_pretty_text, to_text};
use crate::error::{outcome, Fault, StorageError};
use crate::index_file::{
    check_text, checked_text, delete_one, deleted, list_all, listed, read_items, rewrite_outcome,
    save_one, saved, select, selected, stored_items, write_list, written_list, Kind,
};
use crate::json::{empty_object, items_view, Json, JsonView};
use crate::text::texts;
use vstd::prelude::*;

verus! {

/// The directory of the learners, below the data directory.
pub const LEARNERS_DIR: &'static str = "learners";

/// The index file of the profiles, in the directory of the learners.
pub const PROFILES_FILE: &'static str = "profiles.json";

/// The mastery record, in a learner's own directory.
pub const MASTERY_FILE: &'static str = "mastery.json";

/// The history of quick checks, in a learner's own directory.
pub const QUICK_CHECKS_FILE: &'static str = "quick-checks.json";

/// The words for learner profiles.
pub open spec fn profile_kind() -> Kind {
    Kind {
        key: "learnerId",
        invalid: "profile",
        missing: "Profile must have a learnerId",
        absent: "Profile",
        list: "profiles",
        one: "profile",
    }
}

/// The words for learner profiles.
pub fn profiles() -> (kind: Kind)
    ensures
        kind == profile_kind(),
{
    Kind {
        key: "learnerId",
        invalid: "profile",
        missing: "Profile must have a learnerId",
        absent: "Profile",
        list: "profiles",
        one: "profile",
    }
}

/// The words for the mastery records of single objectives.
pub open spec fn objective_kind() -> Kind {
    Kind {
        key: "objectiveId",
        invalid: "mastery",
        missing: "Mastery must have an objectiveId",
        absent: "Objective",
        list: "mastery data",
        one: "mastery",
    }
}

/// The words for the mastery records of single objectives.
pub fn objectives() -> (kind: Kind)
    ensures
        kind == objective_kind(),
{
    Kind {
        key: "objectiveId",
        invalid: "mastery",
        missing: "Mastery must have an objectiveId",
        absent: "Objective",
        list: "mastery data",
        one: "mastery",
    }
}

/// The mastery record of a learner of whom nothing is recorded yet.
pub open spec fn default_mastery(learner_id: Seq<char>) -> JsonView {
    empty_object().with_field("learnerId"@, JsonView::String(learner_id)).with_field(
        "objectives"@,
        empty_object(),
    ).with_field("lastSessionDate"@, JsonView::Null)
}

/// The mastery record that a stored file holds: the document it parses to,
/// and the empty record where there is no file or it is no JSON.
pub open spec fn stored_mastery(stored: Option<Seq<char>>, learner_id: Seq<char>) -> JsonView {
    match stored {
        Some(text) => match parsed(text) {
            Some(mastery) => mastery,
            None => default_mastery(learner_id),
        },
        None => default_mastery(learner_id),
    }
}

/// The mastery record after the record of one objective was saved: it is
/// entered among the `objectives` under the objective's identifier, and the
/// date of the last session is set to `now`. Where `objectives` is missing
/// or no object only the date is set.
pub open spec fn with_objective(
    mastery: JsonView,
    objective_id: Seq<char>,
    record: JsonView,
    now: Seq<char>,
) -> JsonView {
    let entered = match mastery.field("objectives"@) {
        Some(JsonView::Object(objectives)) => mastery.with_field(
            "objectives"@,
            JsonView::Object(objectives.insert(objective_id, record)),
        ),
        _ => mastery,
    };
    entered.with_field("lastSessionDate"@, JsonView::String(now))
}

/// What reading a learner's mastery hands back: the stored file as it is,
/// and the empty record, on one line, where there is no file.
pub open spec fn learner_mastery(stored: Option<Seq<char>>, learner_id: Seq<char>) -> Result<
    Seq<char>,
    Fault,
> {
    match stored {
        Some(text) => Ok(text),
        None => match compact_text(default_mastery(learner_id)) {
            Some(text) => Ok(text),
            None => Err(Fault::Serialize { what: "mastery data"@ }),
        },
    }
}

/// What saving the record of one objective at the time `now` hands back: the
/// new mastery file.
pub open spec fn saved_objective(
    stored: Option<Seq<char>>,
    learner_id: Seq<char>,
    objective_mastery: Seq<char>,
    now: Seq<char>,
) -> Result<Seq<char>, Fault> {
    match parsed(objective_mastery) {
        None => Err(Fault::InvalidJson { what: "mastery"@ }),
        Some(record) => match record.str_field("objectiveId"@) {
            None => Err(Fault::MissingId { rule: "Mastery must have an objectiveId"@ }),
            Some(objective_id) => match pretty_text(
                with_objective(stored_mastery(stored, learner_id), objective_id, record, now),
            ) {
                Some(text) => Ok(text),
                None => Err(Fault::Serialize { what: "mastery data"@ }),
            },
        },
    }
}

/// What reading the history of quick checks hands back: `[]` where there is
/// no file; the file as it is where no objective is asked for; else the
/// results for that objective, on one line.
pub open spec fn quick_check_history(
    stored: Option<Seq<char>>,
    objective_id: Option<Seq<char>>,
) -> Result<Seq<char>, Fault> {
    match stored {
        None => Ok("[]"@),
        Some(text) => match objective_id {
            None => Ok(text),
            Some(id) => selected("filtered history"@, stored, "objectiveId"@, id),
        },
    }
}

/// What saving the result of a quick check hands back: the history with the
/// result at its end.
pub open spec fn saved_quick_check(stored: Option<Seq<char>>, result: Seq<char>) -> Result<
    Seq<char>,
    Fault,
> {
    match parsed(result) {
        None => Err(Fault::InvalidJson { what: "result"@ }),
        Some(doc) => written_list("history"@, stored_items(stored).push(doc)),
    }
}

/// Lists all learner profiles: the index file as it is, `[]` where there is
/// none.
pub fn get_learner_profiles(stored: Option<String>) -> (text: String)
    ensures
        text@ == listed(texts(stored)),
        stored is None ==> text@ == "[]"@,
{
    list_all(stored)
}

/// Saves a learner profile, new or known, and hands back the new index file.
pub fn save_learner_profile(stored: Option<String>, profile: String) -> (next: Result<
    String,
    StorageError,
>)
    ensures
        outcome(next) == saved(profile_kind(), texts(stored), profile@),
{
    save_one(&profiles(), stored, profile.as_str())
}

/// Deletes the profile of the learner `learner_id` and hands back the new
/// index file; `None` where there is no index file to rewrite.
pub fn delete_learner_profile(stored: Option<String>, learner_id: String) -> (next: Result<
    Option<String>,
    StorageError,
>)
    ensures
        rewrite_outcome(next) == deleted(profile_kind(), texts(stored), learner_id@),
        stored is None ==> next == Ok::<Option<String>, StorageError>(None),
{
    delete_one(&profiles(), stored, learner_id.as_str())
}

/// The mastery record of a learner of whom nothing is recorded yet.
pub fn new_mastery(learner_id: &str) -> (mastery: Json)
    ensures
        mastery@ == default_mastery(learner_id@),
{
    Json::object().with_field(String::from_str("learnerId"), Json::string(learner_id)).with_field(
        String::from_str("objectives"),
        Json::object(),
    ).with_field(String::from_str("lastSessionDate"), Json::Null)
}

/// Enters the record of one objective into a mastery record: see
/// [`with_objective`].
pub fn put_objective(mastery: Json, objective_id: &str, record: Json, now: &str) -> (next: Json)
    ensures
        next@ == with_objective(mastery@, objective_id@, record@, now@),
{
    let objectives: Option<Json> = match mastery.get("objectives") {
        Some(objectives) => if objectives.is_object() {
            Some(objectives.duplicate())
        } else {
            None
        },
        None => None,
    };
    let entered = match objectives {
        Some(objectives) => mastery.with_field(
            String::from_str("objectives"),
            objectives.with_field(String::from_str(objective_id), record),
        ),
        None => mastery,
    };
    entered.with_field(String::from_str("lastSessionDate"), Json::string(now))
}

/// Reads the mastery of the learner `learner_id`: the stored file as it is,
/// and the empty record where there is no file.
pub fn get_learner_mastery(stored: Option<String>, learner_id: String) -> (mastery: Result<
    String,
    StorageError,
>)
    ensures
        outcome(mastery) == learner_mastery(texts(stored), learner_id@),
{
    match stored {
        Some(text) => Ok(text),
        None => match to_text(&new_mastery(learner_id.as_str())) {
            Ok(text) => Ok(text),
            Err(reason) => Err(StorageError::Serialize { what: "mastery data", reason }),
        },
    }
}

/// Saves the record of one objective at the time `now` and hands back the
/// new mastery file.
pub fn save_objective_mastery_at(
    stored: Option<String>,
    learner_id: String,
    objective_mastery: String,
    now: &str,
) -> (next: Result<String, StorageError>)
    ensures
        outcome(next) == saved_objective(texts(stored), learner_id@, objective_mastery@, now@),
{
    let record = match parse(objective_mastery.as_str()) {
        Ok(record) => record,
        Err(reason) => {
            return Err(StorageError::InvalidJson { what: "mastery", reason });
        },
    };
    let objective_id = match record.str_field("objectiveId") {
        Some(id) => String::from_str(id),
        None => {
            return Err(StorageError::MissingId { rule: "Mastery must have an objectiveId" });
        },
    };
    let mastery = match &stored {
        Some(text) => match parse(text.as_str()) {
            Ok(mastery) => mastery,
            Err(_) => new_mastery(learner_id.as_str()),
        },
        None => new_mastery(learner_id.as_str()),
    };
    let next = put_objective(mastery, objective_id.as_str(), record, now);
    match to_pretty_text(&next) {
        Ok(text) => Ok(text),
        Err(reason) => Err(StorageError::Serialize { what: "mastery data", reason }),
    }
}

/// Saves the record of one objective, with the present time as the date of
/// the last session, and hands back the new mastery file.
pub fn save_objective_mastery(
    stored: Option<String>,
    learner_id: String,
    objective_mastery: String,
) -> (next: Result<String, StorageError>)
    ensures
        exists|now: Seq<char>|
            outcome(next) == #[trigger] saved_objective(
                texts(stored),
                learner_id@,
                objective_mastery@,
                now,
            ),
{
    let now = timestamp();
    save_objective_mastery_at(stored, learner_id, objective_mastery, now.as_str())
}

/// Checks a whole mastery record before it is stored: any JSON text is
/// accepted and handed back as it is.
pub fn save_learner_mastery(mastery_data: String) -> (checked: Result<String, StorageError>)
    ensures
        outcome(checked) == checked_text("mastery"@, mastery_data@),
{
    check_text("mastery", mastery_data)
}

/// Reads the history of quick checks, all of it or the results for one
/// objective.
pub fn get_quick_check_history(stored: Option<String>, objective_id: Option<String>) -> (history:
    Result<String, StorageError>)
    ensures
        outcome(history) == quick_check_history(texts(stored), texts(objective_id)),
        stored is None ==> outcome(history) == Ok::<Seq<char>, Fault>("[]"@),
{
    match objective_id {
        Some(id) => select("filtered history", stored, "objectiveId", id.as_str()),
        None => Ok(list_all(stored)),
    }
}

/// Adds the result of a quick check to the history and hands back the new
/// history file.
pub fn save_quick_check_result(stored: Option<String>, result: String) -> (next: Result<
    String,
    StorageError,
>)
    ensures
        outcome(next) == saved_quick_check(texts(stored), result@),
{
    match parse(result.as_str()) {
        Ok(doc) => {
            let mut history = read_items(&stored);
            let ghost before = history@;
            history.push(doc);
            assert(items_view(history@) =~= items_view(before).push(doc@));
            write_list("history", history)
        },
        Err(reason) => Err(StorageError::InvalidJson { what: "result", reason }),
    }
}

} // verus!
