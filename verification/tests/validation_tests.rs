use ttdigirpg::models::{ControlItem, UpdateControlsRequest};

fn item(num: i32, name: &str, item_type: &str, info: &str) -> ControlItem {
    ControlItem {
        num,
        name: name.to_string(),
        item_type: item_type.to_string(),
        info: info.to_string(),
    }
}

#[test]
fn test_validate_accepts_well_formed_request() {
    let req = UpdateControlsRequest {
        character_name: "Hero".to_string(),
        game: "Game1".to_string(),
        controls: vec![item(1, "Tower", "building", "x")],
    };
    assert!(req.validate().is_ok());
}

#[test]
fn test_validate_rejects_blank_character_name() {
    let req = UpdateControlsRequest {
        character_name: "   ".to_string(),
        game: "Game1".to_string(),
        controls: vec![],
    };
    assert_eq!(req.validate().unwrap_err(), "Character name cannot be empty");
}

#[test]
fn test_validate_rejects_long_character_name() {
    let req = UpdateControlsRequest {
        character_name: "a".repeat(101),
        game: "Game1".to_string(),
        controls: vec![],
    };
    assert_eq!(
        req.validate().unwrap_err(),
        "Character name exceeds maximum length (100)"
    );
}

#[test]
fn test_validate_rejects_blank_game() {
    let req = UpdateControlsRequest {
        character_name: "Hero".to_string(),
        game: "".to_string(),
        controls: vec![],
    };
    assert_eq!(req.validate().unwrap_err(), "Game name cannot be empty");
}

#[test]
fn test_validate_rejects_long_game() {
    let req = UpdateControlsRequest {
        character_name: "Hero".to_string(),
        game: "g".repeat(101),
        controls: vec![],
    };
    assert_eq!(req.validate().unwrap_err(), "Game name exceeds maximum length (100)");
}

#[test]
fn test_validate_rejects_oversized_list() {
    let mut controls = Vec::new();
    for i in 0..101 {
        controls.push(item(i, "Control", "building", "Test"));
    }
    let req = UpdateControlsRequest {
        character_name: "Hero".to_string(),
        game: "Game1".to_string(),
        controls,
    };
    assert_eq!(req.validate().unwrap_err(), "Too many controls (maximum 100)");
}

#[test]
fn test_validate_reports_first_failing_item_with_position() {
    let req = UpdateControlsRequest {
        character_name: "Hero".to_string(),
        game: "Game1".to_string(),
        controls: vec![
            item(1, "Fine", "building", "ok"),
            item(2, "", "building", "ok"),
            item(3, "", "building", "ok"),
        ],
    };
    assert_eq!(req.validate().unwrap_err(), "Control 2: Control name cannot be empty");
}

#[test]
fn test_item_validate_rejects_blank_name() {
    let c = item(1, " ", "building", "ok");
    assert_eq!(c.validate().unwrap_err(), "Control name cannot be empty");
}

#[test]
fn test_item_validate_rejects_long_name() {
    let c = item(1, &"n".repeat(201), "building", "ok");
    assert_eq!(c.validate().unwrap_err(), "Control name too long (max 200)");
}

#[test]
fn test_item_validate_rejects_blank_type() {
    let c = item(1, "Tower", "\t", "ok");
    assert_eq!(c.validate().unwrap_err(), "Control type cannot be empty");
}

#[test]
fn test_item_validate_rejects_long_info() {
    let c = item(1, "Tower", "building", &"i".repeat(1001));
    assert_eq!(c.validate().unwrap_err(), "Control info too long (max 1000)");
}

#[test]
fn test_item_validate_accepts_boundary_lengths() {
    let c = item(1, &"n".repeat(200), "building", &"i".repeat(1000));
    assert!(c.validate().is_ok());
}
