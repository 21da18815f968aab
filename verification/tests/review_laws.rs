use thrustr::components::index_rail::{index_rail_position, INDEX_RAIL_LETTERS};
use thrustr::components::input::field::input;
use thrustr::components::input::history::{Change, History};
use thrustr::components::input::state::InputState;
use thrustr::components::input::text_ops::TextOps;
use thrustr::components::sidebar::emits_change;
use thrustr::components::tooltip::is_warm_at;
use thrustr::components::title_bar::{title_bar_behavior, PlatformStyle, TitleBarBehavior};

#[test]
fn grapheme_steps_find_the_neighbouring_clusters() {
    let text = "e\u{301}x";
    assert_eq!(TextOps::previous_boundary(text, 3), 0);
    assert_eq!(TextOps::previous_boundary(text, 4), 3);
    assert_eq!(TextOps::previous_boundary("日本", 6), 3);
    assert_eq!(TextOps::previous_boundary("", 0), 0);
    assert_eq!(TextOps::next_boundary(text, 0), 3);
    assert_eq!(TextOps::next_boundary(text, 1), 3);
    assert_eq!(TextOps::next_boundary(text, 3), 4);
    assert_eq!(TextOps::next_boundary(text, 9), 4);
    for g in [0, 3] {
        assert_eq!(TextOps::previous_boundary(text, TextOps::next_boundary(text, g)), g);
    }
    assert_eq!(TextOps::snap_to_grapheme_boundary(text, 2), 0);
    assert_eq!(TextOps::snap_to_grapheme_boundary(text, 3), 3);
}

#[test]
fn utf16_offsets_count_code_units_before() {
    assert_eq!(TextOps::offset_to_utf16("a👋b", 5), 3);
    assert_eq!(TextOps::offset_to_utf16("a👋b", 2), 3);
    assert_eq!(TextOps::offset_to_utf16("a👋b", 6), 4);
}

#[test]
fn word_steps_over_whitespace_reach_the_ends() {
    assert_eq!(TextOps::previous_word_boundary("   ", 3), 0);
    assert_eq!(TextOps::previous_word_boundary("ab  ", 4), 0);
    assert_eq!(TextOps::previous_word_boundary("ab cd", 5), 3);
    assert_eq!(TextOps::next_word_boundary("ab   ", 2), 5);
    assert_eq!(TextOps::next_word_boundary("ab cd", 2), 5);
    assert_eq!(TextOps::next_word_boundary("ab", 7), 2);
}

#[test]
fn rail_labels_are_found_at_their_table_index() {
    for (i, letter) in INDEX_RAIL_LETTERS.iter().enumerate() {
        assert_eq!(index_rail_position(letter), Some(i));
    }
    assert_eq!(index_rail_position("AB"), None);
    assert_eq!(index_rail_position("a"), None);
    assert_eq!(index_rail_position(""), None);
}

#[test]
fn edits_elsewhere_stay_separate_undo_steps() {
    let mut h = History::new();
    h.push(Change::Insert { range: 0..0, text: "ab".to_string() });
    h.push(Change::Insert { range: 5..5, text: "c".to_string() });
    assert!(matches!(h.undo(), Some(Change::Delete { range, .. }) if range == (5..6)));
    assert!(matches!(h.undo(), Some(Change::Delete { range, .. }) if range == (0..2)));
    assert!(h.undo().is_none());
}

#[test]
fn undoing_a_deletion_selects_the_restored_text() {
    let mut state = InputState::new();
    state.set_value(Some("Hello World!".to_string()));
    state.move_to(5);
    assert!(state.try_replace_text_in_range(Some(0..5), "").unwrap_or(false));
    assert_eq!(state.value(), " World!");
    assert!(state.try_undo());
    assert_eq!(state.value(), "Hello World!");
    assert_eq!(state.selected_range(), 0..5);
    assert!(state.try_redo());
    assert_eq!(state.value(), " World!");
}

#[test]
fn clamped_value_setting_keeps_the_selection_valid() {
    let mut state = InputState::new();
    state.set_value_clamped(Some("héllo".to_string()));
    assert_eq!(state.value(), "héllo");
    state.move_to(6);
    state.set_value_clamped(Some("hi".to_string()));
    assert_eq!(state.value(), "hi");
    assert_eq!(state.selected_range(), 2..2);
    state.set_value_clamped(Some("hé".to_string()));
    assert_eq!(state.selected_range(), 3..3);
    state.set_value_clamped(Some("é".to_string()));
    assert_eq!(state.value(), "é");
    assert_eq!(state.selected_range(), 2..2);
    state.move_to(0);
    state.set_value_clamped(Some("longer text".to_string()));
    assert_eq!(state.selected_range(), 0..0);
    state.set_value_clamped(None);
    assert_eq!(state.value(), "longer text");
    state.move_to(11);
    input().value("ab".to_string()).placeholder("p".to_string()).sync_state_clamped(&mut state);
    assert_eq!(state.value(), "ab");
    assert_eq!(state.placeholder(), "p");
    assert_eq!(state.selected_range(), 2..2);
}

#[test]
fn a_tooltip_is_warm_while_open_or_just_closed() {
    assert!(is_warm_at(true, None));
    assert!(is_warm_at(true, Some(5000)));
    assert!(!is_warm_at(false, None));
    assert!(is_warm_at(false, Some(0)));
    assert!(is_warm_at(false, Some(299)));
    assert!(!is_warm_at(false, Some(300)));
    assert!(!is_warm_at(false, Some(10_000)));
}

#[test]
fn choosing_the_current_value_calls_nothing() {
    assert!(emits_change(None));
    assert!(emits_change(Some(false)));
    assert!(!emits_change(Some(true)));
}

#[test]
fn title_bar_behaviour_by_platform() {
    assert_eq!(
        title_bar_behavior(PlatformStyle::Windows, false, true, true),
        TitleBarBehavior { app_moves_window: false, leading_pad: false, window_menu: false }
    );
    assert_eq!(
        title_bar_behavior(PlatformStyle::Macos, false, false, false),
        TitleBarBehavior { app_moves_window: true, leading_pad: true, window_menu: false }
    );
    assert!(!title_bar_behavior(PlatformStyle::Macos, true, false, false).leading_pad);
    assert!(title_bar_behavior(PlatformStyle::Linux, false, true, true).window_menu);
    assert!(!title_bar_behavior(PlatformStyle::Linux, false, false, true).window_menu);
    assert!(!title_bar_behavior(PlatformStyle::Linux, false, true, false).window_menu);
}
