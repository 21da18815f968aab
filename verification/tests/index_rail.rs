use thrustr::components::index_rail::{
    index_rail_position, letter_available, letter_state, IndexRail, LetterState,
    INDEX_RAIL_LETTERS,
};

#[test]
fn labels_find_their_place() {
    assert_eq!(index_rail_position("#"), Some(0));
    assert_eq!(index_rail_position("A"), Some(1));
    assert_eq!(index_rail_position("Z"), Some(26));
    assert_eq!(index_rail_position("a"), None);
    assert_eq!(index_rail_position("AB"), None);
    assert_eq!(index_rail_position(""), None);
    assert_eq!(index_rail_position("É"), None);
    for (i, letter) in INDEX_RAIL_LETTERS.iter().enumerate() {
        assert_eq!(index_rail_position(letter), Some(i));
    }
}

#[test]
fn letters_show_current_available_or_not() {
    let mask = 0b101;
    assert!(letter_available(mask, 0));
    assert!(!letter_available(mask, 1));
    assert!(letter_available(mask, 2));
    assert_eq!(letter_state(mask, Some(1), 1), LetterState::Current);
    assert_eq!(letter_state(mask, Some(1), 0), LetterState::Available);
    assert_eq!(letter_state(mask, None, 1), LetterState::Unavailable);
}

#[test]
fn rail_builder_sets_its_fields() {
    let rail = IndexRail::new().available(0b11).current(Some(1));
    assert_eq!(rail.available, 0b11);
    assert_eq!(rail.current, Some(1));
    let rail = IndexRail::default();
    assert_eq!(rail.available, 0);
    assert_eq!(rail.current, None);
}
