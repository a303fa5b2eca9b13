//! Local projects: one list in one index file, told apart by `projectId`.

use crate::clock::timestamp;
use crate::error::{outcome, Fault, StorageError};
use crate::index_file::{
    delete_one, deleted, find_one, found, list_all, listed, read_items, rewrite_outcome, save_one,
    saved, select, selected, stored_items, write_list, written_list, Kind,
};
use crate::json::{items_view, Json, JsonView};
use crate::records::{any_is_text, find_by_id, first_with_id, holds_text};
use crate::text::texts;
use vstd::prelude::*;

verus! {

/// The directory of the projects, below the data directory.
pub const PROJECTS_DIR: &'static str = "projects";

/// The index file of the projects, in their directory.
pub const INDEX_FILE: &'static str = "projects.json";

/// The words for projects.
pub open spec fn project_kind() -> Kind {
    Kind {
        key: "projectId",
        invalid: "project",
        missing: "Project must have a projectId",
        absent: "Project",
        list: "projects",
        one: "project",
    }
}

/// The words for projects.
pub fn projects() -> (kind: Kind)
    ensures
        kind == project_kind(),
{
    Kind {
        key: "projectId",
        invalid: "project",
        missing: "Project must have a projectId",
        absent: "Project",
        list: "projects",
        one: "project",
    }
}

/// The project with `artifact_id` among its `artifactIds`: the list is made
/// where the project has none, and grows by the identifier where it does not
/// hold it yet. A member `artifactIds` that is no list is left alone.
pub open spec fn with_artifact_id(project: JsonView, artifact_id: Seq<char>) -> JsonView {
    match project.field("artifactIds"@) {
        None => project.with_field(
            "artifactIds"@,
            JsonView::Array(seq![JsonView::String(artifact_id)]),
        ),
        Some(JsonView::Array(ids)) => if any_is_text(ids, artifact_id) {
            project
        } else {
            project.with_field("artifactIds"@, JsonView::Array(ids.push(JsonView::String(artifact_id))))
        },
        Some(_) => project,
    }
}

/// The project after an artifact was added to it: the identifier is among
/// its `artifactIds`, and the two dates are set, `lastActivityDate` to
/// `active` and `updatedAt` to `updated`.
pub open spec fn touched(
    project: JsonView,
    artifact_id: Seq<char>,
    active: Seq<char>,
    updated: Seq<char>,
) -> JsonView {
    with_artifact_id(project, artifact_id).with_field(
        "lastActivityDate"@,
        JsonView::String(active),
    ).with_field("updatedAt"@, JsonView::String(updated))
}

/// What adding an artifact to a project hands back: the index file with the
/// first project of that identifier changed, or that there is none.
pub open spec fn added_artifact(
    stored: Option<Seq<char>>,
    project_id: Seq<char>,
    artifact_id: Seq<char>,
    active: Seq<char>,
    updated: Seq<char>,
) -> Result<Seq<char>, Fault> {
    let items = stored_items(stored);
    match first_with_id(items, "projectId"@, project_id) {
        Some(at) => written_list(
            "projects"@,
            items.update(at, touched(items[at], artifact_id, active, updated)),
        ),
        None => Err(Fault::NotFound { what: "Project"@, id: project_id }),
    }
}

/// Lists all projects: the index file as it is, `[]` where there is none.
pub fn get_local_projects(stored: Option<String>) -> (text: String)
    ensures
        text@ == listed(texts(stored)),
        stored is None ==> text@ == "[]"@,
{
    list_all(stored)
}

/// Looks up the project `project_id` and hands it back on one line.
pub fn get_local_project(stored: Option<String>, project_id: String) -> (project: Result<
    String,
    StorageError,
>)
    ensures
        outcome(project) == found(project_kind(), texts(stored), project_id@),
{
    find_one(&projects(), stored, project_id)
}

/// Saves a project, new or known, and hands back the new index file.
pub fn save_local_project(stored: Option<String>, project: String) -> (next: Result<
    String,
    StorageError,
>)
    ensures
        outcome(next) == saved(project_kind(), texts(stored), project@),
{
    save_one(&projects(), stored, project.as_str())
}

/// Deletes the project `project_id` and hands back the new index file;
/// `None` where there is no index file, and so nothing to do.
pub fn delete_local_project(stored: Option<String>, project_id: String) -> (next: Result<
    Option<String>,
    StorageError,
>)
    ensures
        rewrite_outcome(next) == deleted(project_kind(), texts(stored), project_id@),
        stored is None ==> next == Ok::<Option<String>, StorageError>(None),
{
    delete_one(&projects(), stored, project_id.as_str())
}

/// Hands back, on one line, the projects whose `type` is `project_type`;
/// `[]` where there is no index file.
pub fn get_projects_by_type(stored: Option<String>, project_type: String) -> (chosen: Result<
    String,
    StorageError,
>)
    ensures
        outcome(chosen) == selected("projects"@, texts(stored), "type"@, project_type@),
        stored is None ==> outcome(chosen) == Ok::<Seq<char>, Fault>("[]"@),
{
    select("projects", stored, "type", project_type.as_str())
}

/// Puts `artifact_id` among the `artifactIds` of a project.
pub fn add_artifact_id(project: Json, artifact_id: &str) -> (next: Json)
    ensures
        next@ == with_artifact_id(project@, artifact_id@),
{
    let grown: Option<Vec<Json>> = match project.get("artifactIds") {
        None => {
            let ids: Vec<Json> = Vec::new();
            assert(items_view(ids@) =~= Seq::<JsonView>::empty());
            Some(ids)
        },
        Some(list) => match list.as_array() {
            Some(ids) => if holds_text(ids, artifact_id) {
                None
            } else {
                match list.duplicate() {
                    Json::Array(copy) => Some(copy),
                    _ => None,
                }
            },
            None => None,
        },
    };
    match grown {
        Some(mut ids) => {
            let ghost before = ids@;
            let id = Json::string(artifact_id);
            ids.push(id);
            assert(items_view(ids@) =~= items_view(before).push(id@));
            assert(Seq::<JsonView>::empty().push(id@) =~= seq![id@]);
            project.with_field(String::from_str("artifactIds"), Json::Array(ids))
        },
        None => project,
    }
}

/// Adds an artifact to a project and sets its two dates: see [`touched`].
pub fn touch(project: Json, artifact_id: &str, active: &str, updated: &str) -> (next: Json)
    ensures
        next@ == touched(project@, artifact_id@, active@, updated@),
{
    add_artifact_id(project, artifact_id).with_field(
        String::from_str("lastActivityDate"),
        Json::string(active),
    ).with_field(String::from_str("updatedAt"), Json::string(updated))
}

/// Adds an artifact to the project `project_id` and hands back the new index
/// file. `active` is written as the project's `lastActivityDate`, `updated`
/// as its `updatedAt`.
pub fn add_artifact_to_project_at(
    stored: Option<String>,
    project_id: String,
    artifact_id: String,
    active: &str,
    updated: &str,
) -> (next: Result<String, StorageError>)
    ensures
        outcome(next) == added_artifact(
            texts(stored),
            project_id@,
            artifact_id@,
            active@,
            updated@,
        ),
{
    let mut items = read_items(&stored);
    match find_by_id(&items, "projectId", project_id.as_str()) {
        Some(at) => {
            let ghost before = items@;
            let project = touch(items[at].duplicate(), artifact_id.as_str(), active, updated);
            items.set(at, project);
            assert(items_view(items@) =~= items_view(before).update(at as int, project@));
            write_list("projects", items)
        },
        None => Err(StorageError::NotFound { what: "Project", id: project_id }),
    }
}

/// Adds an artifact to the project `project_id`, with the present time as
/// its two dates, and hands back the new index file.
pub fn add_artifact_to_project(stored: Option<String>, project_id: String, artifact_id: String) -> (next:
    Result<String, StorageError>)
    ensures
        exists|active: Seq<char>, updated: Seq<char>|
            outcome(next) == #[trigger] added_artifact(
                texts(stored),
                project_id@,
                artifact_id@,
                active,
                updated,
            ),
{
    let active = timestamp();
    let updated = timestamp();
    add_artifact_to_project_at(stored, project_id, artifact_id, active.as_str(), updated.as_str())
}

} // verus!
