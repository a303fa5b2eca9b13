use learning_backend::codec::parse;
use learning_backend::error::StorageError;
use learning_backend::json::Json;
use learning_backend::project_storage::{
    add_artifact_id, add_artifact_to_project, add_artifact_to_project_at, delete_local_project,
    get_local_project, get_local_projects, get_projects_by_type, save_local_project, touch,
    INDEX_FILE, PROJECTS_DIR,
};

const PROJECTS: &str = r#"[
  {"projectId":"a","type":"learning_path","title":"Fractions"},
  {"projectId":"b","type":"quick_create","title":"Poster","artifactIds":["x1"]},
  {"projectId":"c","type":"learning_path","title":"Decimals","artifactIds":"none"}
]"#;

fn text(s: &str) -> Json {
    Json::String(s.to_string())
}

fn object(members: Vec<(&str, Json)>) -> Json {
    Json::Object(members.into_iter().map(|(k, v)| (k.to_string(), v)).collect())
}

#[test]
fn projects_live_in_their_own_directory() {
    assert_eq!(PROJECTS_DIR, "projects");
    assert_eq!(INDEX_FILE, "projects.json");
}

#[test]
fn a_missing_projects_file_yields_the_empty_list() {
    assert_eq!(get_local_projects(None), "[]");
    assert_eq!(get_projects_by_type(None, "learning_path".to_string()), Ok("[]".to_string()));
    assert_eq!(delete_local_project(None, "a".to_string()), Ok(None));
}

#[test]
fn get_local_projects_hands_back_the_file_as_it_is() {
    assert_eq!(get_local_projects(Some(PROJECTS.to_string())), PROJECTS);
}

#[test]
fn get_local_project_hands_back_the_project_on_one_line() {
    assert_eq!(
        get_local_project(Some(PROJECTS.to_string()), "a".to_string()),
        Ok(r#"{"projectId":"a","title":"Fractions","type":"learning_path"}"#.to_string())
    );
}

#[test]
fn get_local_project_reports_a_project_that_is_not_there() {
    let missing = get_local_project(Some(PROJECTS.to_string()), "zz".to_string()).unwrap_err();
    assert_eq!(missing.message(), "Project not found: zz");
    assert_eq!(get_local_project(None, "a".to_string()).unwrap_err().message(), "Project not found: a");
}

#[test]
fn save_local_project_upserts_by_project_id() {
    let stored = r#"[{"projectId":"a","title":"Old"},{"projectId":"b"}]"#;
    let next = save_local_project(Some(stored.to_string()), r#"{"projectId":"a","title":"New"}"#.to_string());
    let expected = "[\n  {\n    \"projectId\": \"a\",\n    \"title\": \"New\"\n  },\n  {\n    \"projectId\": \"b\"\n  }\n]";
    assert_eq!(next, Ok(expected.to_string()));
}

#[test]
fn save_local_project_refuses_bad_input() {
    let invalid = save_local_project(None, "oops".to_string()).unwrap_err();
    assert!(matches!(invalid, StorageError::InvalidJson { what: "project", .. }));
    assert!(invalid.message().starts_with("Invalid project JSON: "));
    let nameless = save_local_project(None, "{}".to_string()).unwrap_err();
    assert_eq!(nameless.message(), "Project must have a projectId");
}

#[test]
fn delete_local_project_takes_the_project_out() {
    let stored = r#"[{"projectId":"a"},{"projectId":"b"}]"#;
    assert_eq!(
        delete_local_project(Some(stored.to_string()), "a".to_string()),
        Ok(Some("[\n  {\n    \"projectId\": \"b\"\n  }\n]".to_string()))
    );
    assert_eq!(
        delete_local_project(Some(stored.to_string()), "zz".to_string()),
        Ok(Some("[\n  {\n    \"projectId\": \"a\"\n  },\n  {\n    \"projectId\": \"b\"\n  }\n]".to_string()))
    );
}

#[test]
fn get_projects_by_type_keeps_the_projects_of_the_type() {
    let chosen = get_projects_by_type(Some(PROJECTS.to_string()), "learning_path".to_string()).unwrap();
    assert_eq!(
        chosen,
        r#"[{"projectId":"a","title":"Fractions","type":"learning_path"},{"artifactIds":"none","projectId":"c","title":"Decimals","type":"learning_path"}]"#
    );
    assert_eq!(get_projects_by_type(Some(PROJECTS.to_string()), "other".to_string()), Ok("[]".to_string()));
    assert_eq!(get_projects_by_type(Some("{".to_string()), "other".to_string()), Ok("[]".to_string()));
}

#[test]
fn add_artifact_id_makes_the_list_where_there_is_none() {
    let project = object(vec![("projectId", text("a"))]);
    assert_eq!(
        add_artifact_id(project, "x1"),
        object(vec![("projectId", text("a")), ("artifactIds", Json::Array(vec![text("x1")]))])
    );
}

#[test]
fn add_artifact_id_appends_an_identifier_that_is_new() {
    let project = object(vec![("artifactIds", Json::Array(vec![text("x1")])), ("projectId", text("a"))]);
    assert_eq!(
        add_artifact_id(project, "x2"),
        object(vec![("artifactIds", Json::Array(vec![text("x1"), text("x2")])), ("projectId", text("a"))])
    );
}

#[test]
fn add_artifact_id_does_not_add_an_identifier_twice() {
    let project = object(vec![("artifactIds", Json::Array(vec![text("x1"), text("x2")]))]);
    assert_eq!(
        add_artifact_id(project, "x1"),
        object(vec![("artifactIds", Json::Array(vec![text("x1"), text("x2")]))])
    );
}

#[test]
fn add_artifact_id_leaves_a_member_that_is_no_list_alone() {
    let project = object(vec![("artifactIds", text("none"))]);
    assert_eq!(add_artifact_id(project, "x1"), object(vec![("artifactIds", text("none"))]));
    assert_eq!(add_artifact_id(Json::Null, "x1"), Json::Null);
}

#[test]
fn touch_sets_both_dates() {
    let project = object(vec![("projectId", text("a")), ("updatedAt", text("old"))]);
    assert_eq!(
        touch(project, "x1", "T1", "T2"),
        object(vec![
            ("projectId", text("a")),
            ("updatedAt", text("T2")),
            ("artifactIds", Json::Array(vec![text("x1")])),
            ("lastActivityDate", text("T1")),
        ])
    );
}

#[test]
fn add_artifact_to_project_at_changes_the_project_in_the_file() {
    let next = add_artifact_to_project_at(
        Some(PROJECTS.to_string()),
        "b".to_string(),
        "x2".to_string(),
        "2024-01-01T00:00:00+00:00",
        "2024-01-01T00:00:01+00:00",
    )
    .unwrap();
    let expected = [
        "[\n",
        "  {\n    \"projectId\": \"a\",\n    \"title\": \"Fractions\",\n    \"type\": \"learning_path\"\n  },\n",
        "  {\n    \"artifactIds\": [\n      \"x1\",\n      \"x2\"\n    ],\n",
        "    \"lastActivityDate\": \"2024-01-01T00:00:00+00:00\",\n",
        "    \"projectId\": \"b\",\n    \"title\": \"Poster\",\n    \"type\": \"quick_create\",\n",
        "    \"updatedAt\": \"2024-01-01T00:00:01+00:00\"\n  },\n",
        "  {\n    \"artifactIds\": \"none\",\n    \"projectId\": \"c\",\n    \"title\": \"Decimals\",\n    \"type\": \"learning_path\"\n  }\n",
        "]",
    ]
    .concat();
    assert_eq!(next, expected);
}

#[test]
fn add_artifact_to_project_at_still_sets_the_dates_where_the_list_is_unusable() {
    let next = add_artifact_to_project_at(
        Some(PROJECTS.to_string()),
        "c".to_string(),
        "x2".to_string(),
        "T1",
        "T2",
    )
    .unwrap();
    let doc = parse(&next).unwrap();
    let third = &doc.as_array().unwrap()[2];
    assert_eq!(third.str_field("artifactIds"), Some("none"));
    assert_eq!(third.str_field("lastActivityDate"), Some("T1"));
    assert_eq!(third.str_field("updatedAt"), Some("T2"));
}

#[test]
fn add_artifact_to_project_reports_a_project_that_is_not_there() {
    let missing = add_artifact_to_project_at(Some(PROJECTS.to_string()), "zz".to_string(), "x".to_string(), "T", "T");
    assert_eq!(missing, Err(StorageError::NotFound { what: "Project", id: "zz".to_string() }));
    let no_file = add_artifact_to_project(None, "a".to_string(), "x".to_string()).unwrap_err();
    assert_eq!(no_file.message(), "Project not found: a");
}

#[test]
fn add_artifact_to_project_stamps_the_present_time() {
    let before = chrono::Utc::now();
    let next = add_artifact_to_project(Some(PROJECTS.to_string()), "a".to_string(), "x9".to_string()).unwrap();
    let after = chrono::Utc::now();
    let doc = parse(&next).unwrap();
    let first = &doc.as_array().unwrap()[0];
    assert_eq!(first.get("artifactIds"), Some(&Json::Array(vec![text("x9")])));
    for key in ["lastActivityDate", "updatedAt"] {
        let stamp = chrono::DateTime::parse_from_rfc3339(first.str_field(key).unwrap()).unwrap();
        assert!(before <= stamp && stamp <= after, "{} out of range", key);
    }
}
