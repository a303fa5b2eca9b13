use learning_backend::codec::parse;
use learning_backend::error::StorageError;
use learning_backend::index_file::document_id;
use learning_backend::json::Json;
use learning_backend::learner_storage::{
    delete_learner_profile, get_learner_mastery, get_learner_profiles, get_quick_check_history,
    new_mastery, profiles, put_objective, save_learner_mastery, save_learner_profile,
    save_objective_mastery, save_objective_mastery_at, save_quick_check_result, LEARNERS_DIR,
    MASTERY_FILE, PROFILES_FILE, QUICK_CHECKS_FILE,
};

fn text(s: &str) -> Json {
    Json::String(s.to_string())
}

fn object(members: Vec<(&str, Json)>) -> Json {
    Json::Object(members.into_iter().map(|(k, v)| (k.to_string(), v)).collect())
}

#[test]
fn learners_live_in_their_own_directory() {
    assert_eq!(LEARNERS_DIR, "learners");
    assert_eq!(PROFILES_FILE, "profiles.json");
    assert_eq!(MASTERY_FILE, "mastery.json");
    assert_eq!(QUICK_CHECKS_FILE, "quick-checks.json");
}

#[test]
fn a_missing_profiles_file_yields_the_empty_list() {
    assert_eq!(get_learner_profiles(None), "[]");
    assert_eq!(get_quick_check_history(None, None), Ok("[]".to_string()));
    assert_eq!(get_quick_check_history(None, Some("o1".to_string())), Ok("[]".to_string()));
    assert_eq!(delete_learner_profile(None, "l1".to_string()), Ok(None));
}

#[test]
fn save_learner_profile_upserts_by_learner_id() {
    let first = save_learner_profile(None, r#"{"learnerId":"l1","name":"Ada"}"#.to_string()).unwrap();
    assert_eq!(first, "[\n  {\n    \"learnerId\": \"l1\",\n    \"name\": \"Ada\"\n  }\n]");
    let second = save_learner_profile(Some(first), r#"{"learnerId":"l2","name":"Bo"}"#.to_string()).unwrap();
    let third = save_learner_profile(Some(second), r#"{"learnerId":"l1","name":"Ada L."}"#.to_string()).unwrap();
    assert_eq!(
        third,
        "[\n  {\n    \"learnerId\": \"l1\",\n    \"name\": \"Ada L.\"\n  },\n  {\n    \"learnerId\": \"l2\",\n    \"name\": \"Bo\"\n  }\n]"
    );
}

#[test]
fn save_learner_profile_refuses_bad_input() {
    let invalid = save_learner_profile(None, "".to_string()).unwrap_err();
    assert!(matches!(invalid, StorageError::InvalidJson { what: "profile", .. }));
    let nameless = save_learner_profile(None, r#"{"name":"Ada"}"#.to_string()).unwrap_err();
    assert_eq!(nameless.message(), "Profile must have a learnerId");
    assert_eq!(document_id(&profiles(), r#"{"learnerId":"l7"}"#), Ok("l7".to_string()));
}

#[test]
fn delete_learner_profile_takes_the_profile_out() {
    let stored = r#"[{"learnerId":"l1"},{"learnerId":"l2"}]"#;
    assert_eq!(
        delete_learner_profile(Some(stored.to_string()), "l2".to_string()),
        Ok(Some("[\n  {\n    \"learnerId\": \"l1\"\n  }\n]".to_string()))
    );
}

#[test]
fn get_learner_mastery_gives_the_empty_record_where_there_is_no_file() {
    assert_eq!(
        get_learner_mastery(None, "l1".to_string()),
        Ok(r#"{"lastSessionDate":null,"learnerId":"l1","objectives":{}}"#.to_string())
    );
}

#[test]
fn get_learner_mastery_hands_back_the_file_as_it_is() {
    assert_eq!(get_learner_mastery(Some("anything".to_string()), "l1".to_string()), Ok("anything".to_string()));
}

#[test]
fn new_mastery_has_the_three_members() {
    assert_eq!(
        new_mastery("l1"),
        object(vec![
            ("learnerId", text("l1")),
            ("objectives", Json::Object(vec![])),
            ("lastSessionDate", Json::Null),
        ])
    );
}

#[test]
fn put_objective_enters_the_record_and_sets_the_date() {
    let record = object(vec![("objectiveId", text("o1")), ("level", text("high"))]);
    let next = put_objective(new_mastery("l1"), "o1", record.duplicate(), "NOW");
    assert_eq!(
        next,
        object(vec![
            ("learnerId", text("l1")),
            ("objectives", object(vec![("o1", record)])),
            ("lastSessionDate", text("NOW")),
        ])
    );
}

#[test]
fn put_objective_only_sets_the_date_where_there_are_no_objectives() {
    let odd = object(vec![("objectives", Json::Array(vec![]))]);
    assert_eq!(
        put_objective(odd, "o1", Json::Null, "NOW"),
        object(vec![("objectives", Json::Array(vec![])), ("lastSessionDate", text("NOW"))])
    );
    let bare = object(vec![("learnerId", text("l1"))]);
    assert_eq!(
        put_objective(bare, "o1", Json::Null, "NOW"),
        object(vec![("learnerId", text("l1")), ("lastSessionDate", text("NOW"))])
    );
    assert_eq!(put_objective(Json::Array(vec![]), "o1", Json::Null, "NOW"), Json::Array(vec![]));
}

#[test]
fn save_objective_mastery_at_starts_a_record_where_there_is_no_file() {
    let next = save_objective_mastery_at(
        None,
        "l1".to_string(),
        r#"{"objectiveId":"o1","level":2}"#.to_string(),
        "2024-05-05T10:00:00+00:00",
    );
    let expected = [
        "{\n",
        "  \"lastSessionDate\": \"2024-05-05T10:00:00+00:00\",\n",
        "  \"learnerId\": \"l1\",\n",
        "  \"objectives\": {\n",
        "    \"o1\": {\n      \"level\": 2,\n      \"objectiveId\": \"o1\"\n    }\n",
        "  }\n",
        "}",
    ]
    .concat();
    assert_eq!(next, Ok(expected));
}

#[test]
fn save_objective_mastery_at_replaces_the_record_of_a_known_objective() {
    let stored = r#"{"learnerId":"l1","objectives":{"o1":{"objectiveId":"o1","level":1},"o2":{"objectiveId":"o2"}},"lastSessionDate":"old"}"#;
    let next = save_objective_mastery_at(
        Some(stored.to_string()),
        "ignored".to_string(),
        r#"{"objectiveId":"o1","level":5}"#.to_string(),
        "new",
    )
    .unwrap();
    assert_eq!(
        parse(&next),
        parse(r#"{"learnerId":"l1","objectives":{"o1":{"objectiveId":"o1","level":5},"o2":{"objectiveId":"o2"}},"lastSessionDate":"new"}"#)
    );
}

#[test]
fn save_objective_mastery_at_starts_afresh_from_an_unreadable_file() {
    let next = save_objective_mastery_at(
        Some("{{".to_string()),
        "l9".to_string(),
        r#"{"objectiveId":"o1"}"#.to_string(),
        "T",
    )
    .unwrap();
    assert_eq!(
        parse(&next),
        parse(r#"{"learnerId":"l9","objectives":{"o1":{"objectiveId":"o1"}},"lastSessionDate":"T"}"#)
    );
}

#[test]
fn save_objective_mastery_refuses_bad_input() {
    let invalid = save_objective_mastery_at(None, "l1".to_string(), "x".to_string(), "T").unwrap_err();
    assert!(matches!(invalid, StorageError::InvalidJson { what: "mastery", .. }));
    assert!(invalid.message().starts_with("Invalid mastery JSON: "));
    let nameless = save_objective_mastery_at(None, "l1".to_string(), "{}".to_string(), "T").unwrap_err();
    assert_eq!(nameless.message(), "Mastery must have an objectiveId");
}

#[test]
fn save_objective_mastery_stamps_the_present_time() {
    let before = chrono::Utc::now();
    let next = save_objective_mastery(None, "l1".to_string(), r#"{"objectiveId":"o1"}"#.to_string()).unwrap();
    let after = chrono::Utc::now();
    let doc = parse(&next).unwrap();
    let stamp = chrono::DateTime::parse_from_rfc3339(doc.str_field("lastSessionDate").unwrap()).unwrap();
    assert!(before <= stamp && stamp <= after);
    assert_eq!(doc.str_field("learnerId"), Some("l1"));
}

#[test]
fn save_learner_mastery_accepts_any_json_and_hands_it_back() {
    let data = " { \"learnerId\" : \"l1\" } ";
    assert_eq!(save_learner_mastery(data.to_string()), Ok(data.to_string()));
    assert_eq!(save_learner_mastery("[1]".to_string()), Ok("[1]".to_string()));
    let refused = save_learner_mastery("{".to_string()).unwrap_err();
    assert!(matches!(refused, StorageError::InvalidJson { what: "mastery", .. }));
}

#[test]
fn get_quick_check_history_hands_back_the_file_where_no_objective_is_asked_for() {
    let stored = "[ {\"objectiveId\":\"o1\"} ]";
    assert_eq!(get_quick_check_history(Some(stored.to_string()), None), Ok(stored.to_string()));
    assert_eq!(get_quick_check_history(Some("junk".to_string()), None), Ok("junk".to_string()));
}

#[test]
fn get_quick_check_history_keeps_the_results_of_one_objective() {
    let stored = r#"[{"objectiveId":"o1","score":1},{"objectiveId":"o2","score":2},{"objectiveId":"o1","score":3},{"score":4}]"#;
    assert_eq!(
        get_quick_check_history(Some(stored.to_string()), Some("o1".to_string())),
        Ok(r#"[{"objectiveId":"o1","score":1},{"objectiveId":"o1","score":3}]"#.to_string())
    );
    assert_eq!(get_quick_check_history(Some(stored.to_string()), Some("o9".to_string())), Ok("[]".to_string()));
    assert_eq!(get_quick_check_history(Some("junk".to_string()), Some("o1".to_string())), Ok("[]".to_string()));
}

#[test]
fn save_quick_check_result_appends_to_the_history() {
    let first = save_quick_check_result(None, r#"{"objectiveId":"o1","score":1}"#.to_string()).unwrap();
    assert_eq!(first, "[\n  {\n    \"objectiveId\": \"o1\",\n    \"score\": 1\n  }\n]");
    let second = save_quick_check_result(Some(first), r#"{"objectiveId":"o1","score":1}"#.to_string()).unwrap();
    assert_eq!(
        second,
        "[\n  {\n    \"objectiveId\": \"o1\",\n    \"score\": 1\n  },\n  {\n    \"objectiveId\": \"o1\",\n    \"score\": 1\n  }\n]"
    );
    let any = save_quick_check_result(Some("[]".to_string()), "17".to_string());
    assert_eq!(any, Ok("[\n  17\n]".to_string()));
}

#[test]
fn save_quick_check_result_refuses_what_is_no_json() {
    let refused = save_quick_check_result(None, "{".to_string()).unwrap_err();
    assert!(matches!(refused, StorageError::InvalidJson { what: "result", .. }));
    assert!(refused.message().starts_with("Invalid result JSON: "));
}
