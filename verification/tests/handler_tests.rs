use ttdigirpg::database::Database;
use ttdigirpg::handlers::{update_controls, UpdateControlsFailure};
use ttdigirpg::models::{ControlItem, UpdateControlsRequest};

fn item(num: i32, name: &str, item_type: &str, info: &str) -> ControlItem {
    ControlItem {
        num,
        name: name.to_string(),
        item_type: item_type.to_string(),
        info: info.to_string(),
    }
}

fn request(name: &str, game: &str, controls: Vec<ControlItem>) -> UpdateControlsRequest {
    UpdateControlsRequest {
        character_name: name.to_string(),
        game: game.to_string(),
        controls,
    }
}

fn stored_data(db: &Database, name: &str, game: &str) -> Option<String> {
    db.get_character(name, game).unwrap().unwrap().3
}

#[test]
fn test_create_character_with_controls() {
    let mut db = Database::new(":memory:").unwrap();

    let req = request(
        "Test Hero",
        "Test Campaign",
        vec![item(1, "Test Building", "building", "A test building")],
    );
    let uuid = update_controls(&mut db, &req).expect("update should succeed");
    assert!(uuid::Uuid::parse_str(&uuid).is_ok());

    let data = stored_data(&db, "Test Hero", "Test Campaign").expect("document stored");
    let got: serde_json::Value = serde_json::from_str(&data).unwrap();
    let want: serde_json::Value = serde_json::from_str(
        r#"{"controls":[{"num":1,"name":"Test Building","type":"building","info":"A test building"}]}"#,
    )
    .unwrap();
    assert_eq!(got, want);
}

#[test]
fn test_update_existing_character_controls() {
    let mut db = Database::new(":memory:").unwrap();

    let first = request(
        "Test Hero",
        "Test Campaign",
        vec![item(1, "First Building", "building", "First version")],
    );
    let uuid1 = update_controls(&mut db, &first).expect("first update should succeed");

    let second = request(
        "Test Hero",
        "Test Campaign",
        vec![
            item(1, "Updated Building", "building", "Updated version"),
            item(2, "Second Building", "building", "New building"),
        ],
    );
    let uuid2 = update_controls(&mut db, &second).expect("second update should succeed");
    assert_eq!(uuid1, uuid2, "The identity is stable across updates");

    let data = stored_data(&db, "Test Hero", "Test Campaign").expect("document stored");
    let got: serde_json::Value = serde_json::from_str(&data).unwrap();
    assert_eq!(got["controls"].as_array().unwrap().len(), 2);
    assert_eq!(got["controls"][0]["name"], "Updated Building");
    assert_eq!(got["controls"][1]["info"], "New building");
}

#[test]
fn test_validation_empty_character_name() {
    let mut db = Database::new(":memory:").unwrap();

    let req = request("", "Test Campaign", vec![]);
    let err = update_controls(&mut db, &req).unwrap_err();
    match err {
        UpdateControlsFailure::BadRequest(resp) => {
            assert!(!resp.success);
            assert!(resp.error.contains("Character name cannot be empty"));
        }
        other => panic!("expected a validation rejection, got {:?}", other),
    }
    assert!(db.get_character("", "Test Campaign").unwrap().is_none(), "no row was written");
}

#[test]
fn test_validation_empty_game_name() {
    let mut db = Database::new(":memory:").unwrap();

    let req = request("Test Hero", "", vec![]);
    let err = update_controls(&mut db, &req).unwrap_err();
    match err {
        UpdateControlsFailure::BadRequest(resp) => {
            assert!(!resp.success);
            assert!(resp.error.contains("Game name cannot be empty"));
        }
        other => panic!("expected a validation rejection, got {:?}", other),
    }
}

#[test]
fn test_validation_oversized_controls() {
    let mut db = Database::new(":memory:").unwrap();

    let mut controls = Vec::new();
    for i in 0..101 {
        controls.push(item(i, &format!("Control {}", i), "building", "Test"));
    }
    let req = request("Test Hero", "Test Campaign", controls);
    let err = update_controls(&mut db, &req).unwrap_err();
    match err {
        UpdateControlsFailure::BadRequest(resp) => {
            assert!(!resp.success);
            assert!(resp.error.contains("Too many controls"));
        }
        other => panic!("expected a validation rejection, got {:?}", other),
    }
}

#[test]
fn test_validation_empty_control_name() {
    let mut db = Database::new(":memory:").unwrap();

    let req = request(
        "Test Hero",
        "Test Campaign",
        vec![item(1, "", "building", "Test")],
    );
    let err = update_controls(&mut db, &req).unwrap_err();
    match err {
        UpdateControlsFailure::BadRequest(resp) => {
            assert!(!resp.success);
            assert!(resp.error.contains("Control name cannot be empty"));
        }
        other => panic!("expected a validation rejection, got {:?}", other),
    }
}

#[test]
fn test_validation_character_name_too_long() {
    let mut db = Database::new(":memory:").unwrap();

    let req = request(&"a".repeat(101), "Test Campaign", vec![]);
    let err = update_controls(&mut db, &req).unwrap_err();
    match err {
        UpdateControlsFailure::BadRequest(resp) => {
            assert!(!resp.success);
            assert!(resp.error.contains("Character name exceeds maximum length"));
        }
        other => panic!("expected a validation rejection, got {:?}", other),
    }
}

#[test]
fn test_validation_failure_writes_nothing_even_on_retry() {
    let mut db = Database::new(":memory:").unwrap();

    let req = request("", "Test Campaign", vec![]);
    assert!(update_controls(&mut db, &req).is_err());
    assert!(update_controls(&mut db, &req).is_err());
    assert!(db.get_character("", "Test Campaign").unwrap().is_none());
}

#[test]
fn test_corrupt_stored_payload_is_reported() {
    let mut db = Database::new(":memory:").unwrap();
    db.insert_character("Test Hero", "Test Campaign", Some("this is not json"))
        .unwrap();

    let req = request("Test Hero", "Test Campaign", vec![item(1, "T", "b", "i")]);
    let err = update_controls(&mut db, &req).unwrap_err();
    match err {
        UpdateControlsFailure::Internal(resp, cause) => {
            assert!(!resp.success);
            assert!(resp.error.contains("Failed to parse existing character data"));
            assert!(matches!(cause, ttdigirpg::upsert::ApplyError::CorruptPayload));
        }
        other => panic!("expected a corrupt-payload failure, got {:?}", other),
    }
    let data = stored_data(&db, "Test Hero", "Test Campaign").unwrap();
    assert_eq!(data, "this is not json", "nothing was overwritten");
}

#[test]
fn test_controls_replacement_scenario() {
    let mut db = Database::new(":memory:").unwrap();

    db.insert_character("Hero", "Game1", None).unwrap();
    assert_eq!(stored_data(&db, "Hero", "Game1"), None, "no payload yet");

    let with_tower = request(
        "Hero",
        "Game1",
        vec![item(1, "Tower", "building", "x")],
    );
    update_controls(&mut db, &with_tower).expect("first update should succeed");
    assert_eq!(
        stored_data(&db, "Hero", "Game1").unwrap(),
        r#"{"controls":[{"num":1,"name":"Tower","type":"building","info":"x"}]}"#
    );

    let emptied = request("Hero", "Game1", vec![]);
    update_controls(&mut db, &emptied).expect("second update should succeed");
    assert_eq!(
        stored_data(&db, "Hero", "Game1").unwrap(),
        r#"{"controls":[]}"#,
        "replacement, not append"
    );
}
