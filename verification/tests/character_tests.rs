use ttdigirpg::character::Character;

#[test]
fn test_new_character_defaults() {
    let character = Character::new("Test Character".to_string());

    assert_eq!(character.physical, 1);
    assert_eq!(character.social, 1);
    assert_eq!(character.mental, 1);

    assert_eq!(character.athletics, 1);
    assert_eq!(character.awareness, 1);
    assert_eq!(character.brawl, 1);
    assert_eq!(character.streetwise, 1);

    assert_eq!(character.combat, 1);
    assert_eq!(character.stealth, 1);
    assert_eq!(character.survival, 1);
    assert_eq!(character.performance, 1);

    assert_eq!(character.academics, 1);
    assert_eq!(character.science, 1);
    assert_eq!(character.investigation, 1);
    assert_eq!(character.occult, 1);
}

#[test]
fn test_character_modification() {
    let mut character = Character::new("Skilled Fighter".to_string());

    character.physical = 4;
    character.combat = 5;
    character.brawl = 3;

    assert_eq!(character.physical, 4);
    assert_eq!(character.combat, 5);
    assert_eq!(character.brawl, 3);
}

#[test]
fn test_format_dots_renders_value() {
    let character = Character::new("Sheet".to_string());
    assert_eq!(character.format_dots(3), "\u{25CF}\u{25CF}\u{25CF} (3)");
    assert_eq!(character.format_dots(0), " (0)");
}
