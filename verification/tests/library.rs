use learning_backend::codec::{parse, to_text};
use learning_backend::error::StorageError;
use learning_backend::json::Json;
use learning_backend::library_storage::{
    artifact_file_name, artifact_id, delete_artifact, delete_artifact_at, drop_artifact, entry_of,
    get_artifact, get_library_index, get_library_index_at, meets_query, new_index, put_artifact,
    save_artifact, save_artifact_at, save_library_index, search, search_artifacts,
};

const ARTIFACT: &str = r#"{
  "artifactId": "a1",
  "projectId": "pk1",
  "jobId": "j1",
  "type": "worksheet",
  "title": "Adding Fractions",
  "grade": "5",
  "subject": "math",
  "objectiveTags": ["5.NF.1", "5.NF.2"],
  "designPackId": "d1",
  "createdAt": "2024-01-01T00:00:00Z",
  "html": "<html>a lot of content</html>"
}"#;

const INDEX: &str = r#"{
  "version": 1,
  "lastUpdated": "2024-01-01T00:00:00+00:00",
  "artifacts": [
    {"artifactId":"a1","projectId":"pk1","type":"worksheet","title":"Adding Fractions","grade":"5","subject":"math","objectiveTags":["5.NF.1","5.NF.2"],"designPackId":"d1"},
    {"artifactId":"a2","projectId":"pk1","type":"quiz","title":"Fractions Quiz","grade":"5","subject":"math","objectiveTags":["5.NF.2"],"designPackId":"d2"},
    {"artifactId":"a3","projectId":"pk2","type":"worksheet","title":"Plant Cells","grade":"6","subject":"science","objectiveTags":[],"designPackId":"d1"},
    {"artifactId":"a4","projectId":"pk2","type":"lesson","grade":"6","subject":"science","objectiveTags":"5.NF.1"}
  ]
}"#;

fn text(s: &str) -> Json {
    Json::String(s.to_string())
}

fn ids(found: &str) -> Vec<String> {
    let doc = parse(found).unwrap();
    doc.as_array()
        .unwrap()
        .iter()
        .map(|entry| entry.str_field("artifactId").unwrap().to_string())
        .collect()
}

fn search_ids(query: &str) -> Vec<String> {
    ids(&search_artifacts(Some(INDEX.to_string()), query.to_string()).unwrap())
}

#[test]
fn get_library_index_at_gives_the_index_of_an_empty_library() {
    assert_eq!(
        get_library_index_at(None, "2024-03-03T03:03:03+00:00"),
        Ok(r#"{"artifacts":[],"lastUpdated":"2024-03-03T03:03:03+00:00","version":1}"#.to_string())
    );
}

#[test]
fn get_library_index_hands_back_the_file_as_it_is() {
    assert_eq!(get_library_index(Some(INDEX.to_string())), Ok(INDEX.to_string()));
    assert_eq!(get_library_index_at(Some("junk".to_string()), "T"), Ok("junk".to_string()));
}

#[test]
fn get_library_index_stamps_the_present_time_where_there_is_no_file() {
    let before = chrono::Utc::now();
    let index = get_library_index(None).unwrap();
    let after = chrono::Utc::now();
    let doc = parse(&index).unwrap();
    assert_eq!(doc.get("artifacts"), Some(&Json::Array(vec![])));
    assert_eq!(doc.get("version"), Some(&Json::Number(serde_json::Number::from(1u64))));
    let stamp = chrono::DateTime::parse_from_rfc3339(doc.str_field("lastUpdated").unwrap()).unwrap();
    assert!(before <= stamp && stamp <= after);
}

#[test]
fn new_index_has_the_three_members() {
    assert_eq!(
        new_index("T"),
        Json::Object(vec![
            ("version".to_string(), Json::Number(serde_json::Number::from(1u64))),
            ("lastUpdated".to_string(), text("T")),
            ("artifacts".to_string(), Json::Array(vec![])),
        ])
    );
}

#[test]
fn save_library_index_accepts_any_json_and_hands_it_back() {
    assert_eq!(save_library_index(INDEX.to_string()), Ok(INDEX.to_string()));
    assert_eq!(save_library_index("[]".to_string()), Ok("[]".to_string()));
    let refused = save_library_index("{\"version\":".to_string()).unwrap_err();
    assert!(matches!(refused, StorageError::InvalidJson { what: "index", .. }));
    assert!(refused.message().starts_with("Invalid index JSON: "));
}

#[test]
fn get_artifact_hands_back_the_file_or_reports_that_there_is_none() {
    assert_eq!(get_artifact(Some(ARTIFACT.to_string()), "a1".to_string()), Ok(ARTIFACT.to_string()));
    let missing = get_artifact(None, "a1".to_string()).unwrap_err();
    assert_eq!(missing, StorageError::NotFound { what: "Artifact", id: "a1".to_string() });
    assert_eq!(missing.message(), "Artifact not found: a1");
}

#[test]
fn an_artifact_is_kept_in_a_file_named_after_it() {
    assert_eq!(artifact_file_name("a1"), "a1.json");
    assert_eq!(artifact_file_name(""), ".json");
    assert_eq!(artifact_id(ARTIFACT), Ok("a1".to_string()));
    assert_eq!(artifact_id("{}").unwrap_err().message(), "Artifact must have an artifactId");
    assert!(artifact_id("{").unwrap_err().message().starts_with("Invalid artifact JSON: "));
}

#[test]
fn entry_of_keeps_the_ten_descriptive_members() {
    let artifact = parse(ARTIFACT).unwrap();
    let entry = entry_of(&artifact);
    assert_eq!(
        to_text(&entry).unwrap(),
        r#"{"artifactId":"a1","createdAt":"2024-01-01T00:00:00Z","designPackId":"d1","grade":"5","jobId":"j1","objectiveTags":["5.NF.1","5.NF.2"],"projectId":"pk1","subject":"math","title":"Adding Fractions","type":"worksheet"}"#
    );
}

#[test]
fn entry_of_writes_null_for_what_the_artifact_lacks() {
    let artifact = parse(r#"{"artifactId":"a1","title":"T","html":"x"}"#).unwrap();
    assert_eq!(
        to_text(&entry_of(&artifact)).unwrap(),
        r#"{"artifactId":"a1","createdAt":null,"designPackId":null,"grade":null,"jobId":null,"objectiveTags":null,"projectId":null,"subject":null,"title":"T","type":null}"#
    );
}

#[test]
fn save_artifact_at_starts_an_index_where_there_is_no_file() {
    let next = save_artifact_at(None, r#"{"artifactId":"a1","title":"T"}"#.to_string(), "NOW").unwrap();
    let expected = [
        "{\n",
        "  \"artifacts\": [\n",
        "    {\n",
        "      \"artifactId\": \"a1\",\n",
        "      \"createdAt\": null,\n",
        "      \"designPackId\": null,\n",
        "      \"grade\": null,\n",
        "      \"jobId\": null,\n",
        "      \"objectiveTags\": null,\n",
        "      \"projectId\": null,\n",
        "      \"subject\": null,\n",
        "      \"title\": \"T\",\n",
        "      \"type\": null\n",
        "    }\n",
        "  ],\n",
        "  \"lastUpdated\": \"NOW\",\n",
        "  \"version\": 1\n",
        "}",
    ]
    .concat();
    assert_eq!(next, expected);
}

#[test]
fn save_artifact_at_moves_a_known_artifact_to_the_end() {
    let next = save_artifact_at(Some(INDEX.to_string()), ARTIFACT.to_string(), "NOW").unwrap();
    let doc = parse(&next).unwrap();
    assert_eq!(doc.str_field("lastUpdated"), Some("NOW"));
    let entries = doc.get("artifacts").unwrap().as_array().unwrap();
    let order: Vec<&str> = entries.iter().map(|e| e.str_field("artifactId").unwrap()).collect();
    assert_eq!(order, vec!["a2", "a3", "a4", "a1"]);
    assert_eq!(to_text(&entries[3]), to_text(&entry_of(&parse(ARTIFACT).unwrap())));
    assert_eq!(entries[3].get("html"), None);
    assert_eq!(entries[3].str_field("jobId"), Some("j1"));
}

#[test]
fn saving_the_same_artifact_twice_yields_one_entry_with_the_latest_content() {
    let once = save_artifact_at(Some(INDEX.to_string()), ARTIFACT.to_string(), "T1").unwrap();
    let newer = ARTIFACT.replace("Adding Fractions", "Adding Fractions II");
    let twice = save_artifact_at(Some(once), newer.clone(), "T2").unwrap();
    let doc = parse(&twice).unwrap();
    let entries = doc.get("artifacts").unwrap().as_array().unwrap();
    let held: Vec<&Json> = entries.iter().filter(|e| e.str_field("artifactId") == Some("a1")).collect();
    assert_eq!(held.len(), 1);
    assert_eq!(held[0].str_field("title"), Some("Adding Fractions II"));
    let thrice = save_artifact_at(Some(twice.clone()), newer, "T2").unwrap();
    assert_eq!(thrice, twice);
}

#[test]
fn save_artifact_at_starts_afresh_from_an_unreadable_index() {
    let fresh = save_artifact_at(None, r#"{"artifactId":"a1"}"#.to_string(), "NOW").unwrap();
    let healed = save_artifact_at(Some("{{".to_string()), r#"{"artifactId":"a1"}"#.to_string(), "NOW").unwrap();
    assert_eq!(healed, fresh);
}

#[test]
fn save_artifact_at_only_stamps_an_index_without_a_list() {
    let next = save_artifact_at(Some(r#"{"artifacts":{},"n":1}"#.to_string()), r#"{"artifactId":"a1"}"#.to_string(), "NOW");
    assert_eq!(next, Ok("{\n  \"artifacts\": {},\n  \"lastUpdated\": \"NOW\",\n  \"n\": 1\n}".to_string()));
    let list = save_artifact_at(Some("[1]".to_string()), r#"{"artifactId":"a1"}"#.to_string(), "NOW");
    assert_eq!(list, Ok("[\n  1\n]".to_string()));
}

#[test]
fn save_artifact_refuses_bad_input() {
    let invalid = save_artifact_at(Some(INDEX.to_string()), "<html>".to_string(), "T").unwrap_err();
    assert!(matches!(invalid, StorageError::InvalidJson { what: "artifact", .. }));
    assert!(invalid.message().starts_with("Invalid artifact JSON: "));
    let nameless = save_artifact_at(None, r#"{"title":"T"}"#.to_string(), "T").unwrap_err();
    assert_eq!(nameless, StorageError::MissingId { rule: "Artifact must have an artifactId" });
}

#[test]
fn save_artifact_stamps_the_present_time() {
    let before = chrono::Utc::now();
    let next = save_artifact(None, ARTIFACT.to_string()).unwrap();
    let after = chrono::Utc::now();
    let doc = parse(&next).unwrap();
    let stamp = chrono::DateTime::parse_from_rfc3339(doc.str_field("lastUpdated").unwrap()).unwrap();
    assert!(before <= stamp && stamp <= after);
    assert_eq!(ids(&to_text(doc.get("artifacts").unwrap()).unwrap()), vec!["a1"]);
}

#[test]
fn put_artifact_and_drop_artifact_work_on_the_index_itself() {
    let artifact = parse(r#"{"artifactId":"a1","title":"T"}"#).unwrap();
    let with = put_artifact(new_index("T0"), &artifact, "a1", "T1");
    assert_eq!(with.str_field("lastUpdated"), Some("T1"));
    assert_eq!(with.get("artifacts"), Some(&Json::Array(vec![entry_of(&artifact)])));
    let without = drop_artifact(with, "a1", "T2");
    assert_eq!(without.str_field("lastUpdated"), Some("T2"));
    assert_eq!(without.get("artifacts"), Some(&Json::Array(vec![])));
}

#[test]
fn delete_artifact_does_nothing_where_there_is_no_index() {
    assert_eq!(delete_artifact(None, "a1".to_string()), Ok(None));
    assert_eq!(delete_artifact_at(None, "a1".to_string(), "T"), Ok(None));
}

#[test]
fn delete_artifact_at_takes_the_entry_out_and_stamps_the_index() {
    let next = delete_artifact_at(Some(INDEX.to_string()), "a2".to_string(), "NOW").unwrap().unwrap();
    let doc = parse(&next).unwrap();
    assert_eq!(doc.str_field("lastUpdated"), Some("NOW"));
    assert_eq!(ids(&to_text(doc.get("artifacts").unwrap()).unwrap()), vec!["a1", "a3", "a4"]);
}

#[test]
fn deleting_an_absent_artifact_leaves_the_list_as_it_is() {
    let next = delete_artifact_at(Some(INDEX.to_string()), "zz".to_string(), "NOW").unwrap().unwrap();
    let doc = parse(&next).unwrap();
    let before = parse(INDEX).unwrap();
    assert_eq!(doc.get("artifacts"), before.get("artifacts"));
    assert_eq!(doc.str_field("lastUpdated"), Some("NOW"));
}

#[test]
fn delete_artifact_stamps_the_present_time() {
    let before = chrono::Utc::now();
    let next = delete_artifact(Some(INDEX.to_string()), "a1".to_string()).unwrap().unwrap();
    let after = chrono::Utc::now();
    let doc = parse(&next).unwrap();
    let stamp = chrono::DateTime::parse_from_rfc3339(doc.str_field("lastUpdated").unwrap()).unwrap();
    assert!(before <= stamp && stamp <= after);
}

#[test]
fn a_missing_index_yields_no_hits_whatever_the_query() {
    assert_eq!(search_artifacts(None, "{}".to_string()), Ok("[]".to_string()));
    assert_eq!(search_artifacts(None, "not even json".to_string()), Ok("[]".to_string()));
}

#[test]
fn search_artifacts_refuses_a_query_that_is_no_json() {
    let refused = search_artifacts(Some(INDEX.to_string()), "grade=5".to_string()).unwrap_err();
    assert!(matches!(refused, StorageError::InvalidJson { what: "query", .. }));
    assert!(refused.message().starts_with("Invalid query JSON: "));
}

#[test]
fn an_index_without_a_list_yields_no_hits() {
    assert_eq!(search_artifacts(Some("{}".to_string()), "{}".to_string()), Ok("[]".to_string()));
    assert_eq!(search_artifacts(Some(r#"{"artifacts":7}"#.to_string()), "{}".to_string()), Ok("[]".to_string()));
    assert_eq!(search_artifacts(Some("[]".to_string()), "{}".to_string()), Ok("[]".to_string()));
    assert_eq!(search_artifacts(Some("{{".to_string()), "{}".to_string()), Ok("[]".to_string()));
}

#[test]
fn a_query_without_criteria_finds_every_entry() {
    assert_eq!(search_ids("{}"), vec!["a1", "a2", "a3", "a4"]);
    assert_eq!(search_ids("[]"), vec!["a1", "a2", "a3", "a4"]);
    assert_eq!(search_ids(r#"{"grade":5,"unknown":"x"}"#), vec!["a1", "a2", "a3", "a4"]);
}

#[test]
fn each_criterion_filters_on_its_own() {
    assert_eq!(search_ids(r#"{"projectId":"pk2"}"#), vec!["a3", "a4"]);
    assert_eq!(search_ids(r#"{"grade":"5"}"#), vec!["a1", "a2"]);
    assert_eq!(search_ids(r#"{"subject":"science"}"#), vec!["a3", "a4"]);
    assert_eq!(search_ids(r#"{"type":"worksheet"}"#), vec!["a1", "a3"]);
    assert_eq!(search_ids(r#"{"objectiveTag":"5.NF.2"}"#), vec!["a1", "a2"]);
    assert_eq!(search_ids(r#"{"objectiveTag":"5.NF.1"}"#), vec!["a1"]);
    assert_eq!(search_ids(r#"{"designPackId":"d1"}"#), vec!["a1", "a3"]);
    assert_eq!(search_ids(r#"{"searchText":"fractions"}"#), vec!["a1", "a2"]);
}

#[test]
fn the_title_is_searched_without_regard_to_letter_case() {
    assert_eq!(search_ids(r#"{"searchText":"PLANT"}"#), vec!["a3"]);
    assert_eq!(search_ids(r#"{"searchText":"ing Fra"}"#), vec!["a1"]);
    assert_eq!(search_ids(r#"{"searchText":""}"#), vec!["a1", "a2", "a3"]);
    assert_eq!(search_ids(r#"{"searchText":"fractionsx"}"#), Vec::<String>::new());
}

#[test]
fn search_filters_are_conjunctive() {
    assert_eq!(search_ids(r#"{"grade":"5","type":"quiz"}"#), vec!["a2"]);
    assert_eq!(search_ids(r#"{"projectId":"pk1","designPackId":"d1"}"#), vec!["a1"]);
    assert_eq!(search_ids(r#"{"subject":"math","objectiveTag":"5.NF.2","searchText":"quiz"}"#), vec!["a2"]);
    assert_eq!(search_ids(r#"{"grade":"6","subject":"math"}"#), Vec::<String>::new());
    assert_eq!(
        search_ids(r#"{"projectId":"pk1","grade":"5","subject":"math","type":"worksheet","objectiveTag":"5.NF.1","designPackId":"d1","searchText":"add"}"#),
        vec!["a1"]
    );
}

#[test]
fn searching_with_two_criteria_is_searching_with_one_among_the_hits_of_the_other() {
    let index = parse(INDEX).unwrap();
    let entries = index.get("artifacts").unwrap().as_array().unwrap();
    let both = parse(r#"{"grade":"5","objectiveTag":"5.NF.1"}"#).unwrap();
    let one = parse(r#"{"grade":"5"}"#).unwrap();
    let other = parse(r#"{"objectiveTag":"5.NF.1"}"#).unwrap();
    let at_once = search(entries, &both);
    let in_turn = search(&search(entries, &one), &other);
    assert_eq!(at_once, in_turn);
    for entry in entries {
        assert_eq!(meets_query(entry, &both), meets_query(entry, &one) && meets_query(entry, &other));
    }
}

#[test]
fn hits_are_written_on_one_line_in_the_order_of_the_index() {
    let hits = search_artifacts(Some(INDEX.to_string()), r#"{"type":"lesson"}"#.to_string());
    assert_eq!(
        hits,
        Ok(r#"[{"artifactId":"a4","grade":"6","objectiveTags":"5.NF.1","projectId":"pk2","subject":"science","type":"lesson"}]"#.to_string())
    );
}
