use learning_backend::error::StorageError;

#[test]
fn an_invalid_text_is_reported_with_the_reason() {
    let error = StorageError::InvalidJson { what: "profile", reason: "expected value at line 1 column 1".to_string() };
    assert_eq!(error.message(), "Invalid profile JSON: expected value at line 1 column 1");
}

#[test]
fn a_missing_identifier_is_reported_by_its_rule() {
    let error = StorageError::MissingId { rule: "Mastery must have an objectiveId" };
    assert_eq!(error.message(), "Mastery must have an objectiveId");
}

#[test]
fn a_missing_record_is_reported_with_its_identifier() {
    let error = StorageError::NotFound { what: "Project", id: "abc-1".to_string() };
    assert_eq!(error.message(), "Project not found: abc-1");
}

#[test]
fn a_failed_writing_is_reported_with_the_reason() {
    let error = StorageError::Serialize { what: "design packs", reason: "boom".to_string() };
    assert_eq!(error.message(), "Failed to serialize design packs: boom");
}
