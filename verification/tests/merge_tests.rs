use ttdigirpg::database::Database;
use ttdigirpg::upsert::ApplyError;

fn stored_data(db: &Database, name: &str, game: &str) -> Option<String> {
    db.get_character(name, game).unwrap().unwrap().3
}

#[test]
fn test_apply_creates_character_on_absence() {
    let mut db = Database::new(":memory:").unwrap();

    let uuid = db
        .apply_partial_update("Hero", "Game1", "a", "1")
        .expect("create-on-absence should succeed");
    assert!(uuid::Uuid::parse_str(&uuid).is_ok());

    assert_eq!(stored_data(&db, "Hero", "Game1").unwrap(), r#"{"a":1}"#);
}

#[test]
fn test_apply_returns_existing_identity() {
    let mut db = Database::new(":memory:").unwrap();

    let created = db.insert_character("Hero", "Game1", None).unwrap();
    let updated = db.apply_partial_update("Hero", "Game1", "a", "1").unwrap();
    assert_eq!(created, updated);
}

#[test]
fn test_apply_distinct_keys_keeps_both() {
    let mut db = Database::new(":memory:").unwrap();

    db.apply_partial_update("Hero", "Game1", "a", "1").unwrap();
    db.apply_partial_update("Hero", "Game1", "b", "2").unwrap();

    let data = stored_data(&db, "Hero", "Game1").unwrap();
    let got: serde_json::Value = serde_json::from_str(&data).unwrap();
    assert_eq!(got["a"], 1);
    assert_eq!(got["b"], 2);
}

#[test]
fn test_apply_distinct_keys_other_order() {
    let mut db = Database::new(":memory:").unwrap();

    db.apply_partial_update("Hero", "Game1", "b", "2").unwrap();
    db.apply_partial_update("Hero", "Game1", "a", "1").unwrap();

    let data = stored_data(&db, "Hero", "Game1").unwrap();
    let got: serde_json::Value = serde_json::from_str(&data).unwrap();
    assert_eq!(got["a"], 1);
    assert_eq!(got["b"], 2);
}

#[test]
fn test_apply_same_key_overwrites() {
    let mut db = Database::new(":memory:").unwrap();

    db.apply_partial_update("Hero", "Game1", "a", "1").unwrap();
    db.apply_partial_update("Hero", "Game1", "a", "2").unwrap();

    assert_eq!(stored_data(&db, "Hero", "Game1").unwrap(), r#"{"a":2}"#);
}

#[test]
fn test_apply_preserves_sibling_structure() {
    let mut db = Database::new(":memory:").unwrap();

    db.insert_character(
        "Hero",
        "Game1",
        Some(r#"{"stats":{"level":5,"class":"mage"},"notes":["a","b"]}"#),
    )
    .unwrap();

    db.apply_partial_update("Hero", "Game1", "notes", r#"["c"]"#).unwrap();

    let data = stored_data(&db, "Hero", "Game1").unwrap();
    let got: serde_json::Value = serde_json::from_str(&data).unwrap();
    assert_eq!(got["stats"]["level"], 5);
    assert_eq!(got["stats"]["class"], "mage");
    assert_eq!(got["notes"].as_array().unwrap().len(), 1);
}

#[test]
fn test_apply_normalizes_value_text() {
    let mut db = Database::new(":memory:").unwrap();

    db.apply_partial_update("Hero", "Game1", "a", "  [1,   2]  ").unwrap();

    assert_eq!(stored_data(&db, "Hero", "Game1").unwrap(), r#"{"a":[1,2]}"#);
}

#[test]
fn test_apply_rejects_invalid_value() {
    let mut db = Database::new(":memory:").unwrap();

    let err = db.apply_partial_update("Hero", "Game1", "a", "not json").unwrap_err();
    assert!(matches!(err, ApplyError::InvalidValue));
    assert!(db.get_character("Hero", "Game1").unwrap().is_none(), "nothing was written");
}

#[test]
fn test_apply_rejects_corrupt_stored_payload() {
    let mut db = Database::new(":memory:").unwrap();

    db.insert_character("Hero", "Game1", Some("{broken")).unwrap();
    let err = db.apply_partial_update("Hero", "Game1", "a", "1").unwrap_err();
    assert!(matches!(err, ApplyError::CorruptPayload));
    assert_eq!(stored_data(&db, "Hero", "Game1").unwrap(), "{broken");
}

#[test]
fn test_apply_rejects_non_object_stored_payload() {
    let mut db = Database::new(":memory:").unwrap();

    db.insert_character("Hero", "Game1", Some("[1,2,3]")).unwrap();
    let err = db.apply_partial_update("Hero", "Game1", "a", "1").unwrap_err();
    assert!(matches!(err, ApplyError::CorruptPayload));
}

#[test]
fn test_apply_treats_missing_data_as_empty_document() {
    let mut db = Database::new(":memory:").unwrap();

    db.insert_character("Hero", "Game1", None).unwrap();
    db.apply_partial_update("Hero", "Game1", "a", "true").unwrap();

    assert_eq!(stored_data(&db, "Hero", "Game1").unwrap(), r#"{"a":true}"#);
}

#[test]
fn test_apply_keeps_field_order_on_overwrite() {
    let mut db = Database::new(":memory:").unwrap();

    db.insert_character("Hero", "Game1", Some(r#"{"a":1,"b":2,"c":3}"#)).unwrap();
    db.apply_partial_update("Hero", "Game1", "b", "9").unwrap();

    assert_eq!(stored_data(&db, "Hero", "Game1").unwrap(), r#"{"a":1,"b":9,"c":3}"#);
}
