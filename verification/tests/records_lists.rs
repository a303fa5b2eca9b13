use learning_backend::json::Json;
use learning_backend::records::{
    find_by_id, has_id, holds_text, remove_by_id, select_by_field, upsert,
};

fn text(s: &str) -> Json {
    Json::String(s.to_string())
}

fn pack(id: &str, name: &str) -> Json {
    Json::Object(vec![
        ("packId".to_string(), text(id)),
        ("name".to_string(), text(name)),
    ])
}

#[test]
fn has_id_compares_the_string_under_the_key() {
    let doc = pack("pk1", "Warm");
    assert!(has_id(&doc, "packId", "pk1"));
    assert!(!has_id(&doc, "packId", "pk2"));
    assert!(!has_id(&doc, "projectId", "pk1"));
    assert!(!has_id(&Json::Null, "packId", "pk1"));
    let numbered = Json::Object(vec![(
        "packId".to_string(),
        Json::Number(serde_json::Number::from(1u64)),
    )]);
    assert!(!has_id(&numbered, "packId", "1"));
}

#[test]
fn find_by_id_gives_the_first_place() {
    let items = vec![pack("a", "1"), pack("b", "2"), pack("a", "3")];
    assert_eq!(find_by_id(&items, "packId", "a"), Some(0));
    assert_eq!(find_by_id(&items, "packId", "b"), Some(1));
    assert_eq!(find_by_id(&items, "packId", "c"), None);
    assert_eq!(find_by_id(&Vec::new(), "packId", "a"), None);
}

#[test]
fn upsert_adds_a_new_document_at_the_end() {
    let mut items = vec![pack("a", "1")];
    assert!(upsert(&mut items, "packId", pack("b", "2")));
    assert_eq!(items, vec![pack("a", "1"), pack("b", "2")]);
}

#[test]
fn upsert_replaces_a_known_document_where_it_stands() {
    let mut items = vec![pack("a", "1"), pack("b", "2"), pack("c", "3")];
    assert!(upsert(&mut items, "packId", pack("b", "new")));
    assert_eq!(items, vec![pack("a", "1"), pack("b", "new"), pack("c", "3")]);
}

#[test]
fn upsert_replaces_the_first_of_several_documents_with_one_id() {
    let mut items = vec![pack("a", "1"), pack("a", "2")];
    assert!(upsert(&mut items, "packId", pack("a", "new")));
    assert_eq!(items, vec![pack("a", "new"), pack("a", "2")]);
}

#[test]
fn upsert_does_not_save_a_document_without_an_id() {
    let mut items = vec![pack("a", "1")];
    let nameless = Json::Object(vec![("name".to_string(), text("x"))]);
    assert!(!upsert(&mut items, "packId", nameless));
    assert!(!upsert(&mut items, "packId", Json::Null));
    assert_eq!(items, vec![pack("a", "1")]);
}

#[test]
fn saving_the_same_document_twice_yields_one_entry_with_the_latest_content() {
    let mut once = vec![pack("a", "1")];
    upsert(&mut once, "packId", pack("b", "first"));
    upsert(&mut once, "packId", pack("b", "second"));
    assert_eq!(once, vec![pack("a", "1"), pack("b", "second")]);
    assert_eq!(select_by_field(&once, "packId", "b"), vec![pack("b", "second")]);

    let mut twice = vec![pack("a", "1")];
    upsert(&mut twice, "packId", pack("b", "second"));
    let after_one = twice.iter().map(|doc| doc.duplicate()).collect::<Vec<Json>>();
    upsert(&mut twice, "packId", pack("b", "second"));
    assert_eq!(twice, after_one);
}

#[test]
fn remove_by_id_drops_every_document_with_the_id() {
    let items = vec![pack("a", "1"), pack("b", "2"), pack("a", "3"), Json::Null];
    assert_eq!(remove_by_id(&items, "packId", "a"), vec![pack("b", "2"), Json::Null]);
    assert_eq!(remove_by_id(&items, "packId", "b"), vec![pack("a", "1"), pack("a", "3"), Json::Null]);
}

#[test]
fn removing_an_id_that_is_absent_changes_nothing() {
    let items = vec![pack("a", "1"), pack("b", "2")];
    assert_eq!(remove_by_id(&items, "packId", "zzz"), items);
    assert_eq!(remove_by_id(&Vec::new(), "packId", "a"), Vec::<Json>::new());
    let once = remove_by_id(&items, "packId", "a");
    assert_eq!(remove_by_id(&once, "packId", "a"), once);
}

#[test]
fn select_by_field_keeps_the_documents_with_the_value_in_order() {
    let items = vec![pack("a", "x"), pack("b", "y"), pack("c", "x")];
    assert_eq!(select_by_field(&items, "name", "x"), vec![pack("a", "x"), pack("c", "x")]);
    assert_eq!(select_by_field(&items, "name", "z"), Vec::<Json>::new());
    assert_eq!(select_by_field(&items, "colour", "x"), Vec::<Json>::new());
}

#[test]
fn holds_text_looks_for_a_string_among_the_items() {
    let items = vec![Json::Null, text("a"), Json::Array(vec![text("b")])];
    assert!(holds_text(&items, "a"));
    assert!(!holds_text(&items, "b"));
    assert!(!holds_text(&Vec::new(), "a"));
}
