use thrustr::components::input::state::{create_text_runs, InputState, DEFAULT_MASK};

fn field(text: &str) -> InputState {
    let mut s = InputState::new();
    s.replace_text_in_range(None, text);
    s
}

#[test]
fn a_new_field_is_empty_with_the_default_mask() {
    let s = InputState::new();
    assert_eq!(s.value(), "");
    assert_eq!(s.selected_range(), 0..0);
    assert_eq!(s.mask(), DEFAULT_MASK);
    assert_eq!(s.mask(), "•");
    assert!(!s.is_masked());
    assert_eq!(s.max_length(), None);
}

#[test]
fn typing_puts_the_caret_after_the_text() {
    let mut s = InputState::new();
    assert!(s.replace_text_in_range(None, "héllo"));
    assert_eq!(s.value(), "héllo");
    assert_eq!(s.selected_range(), 6..6);
    assert!(s.should_auto_scroll());
}

#[test]
fn typing_replaces_the_selection() {
    let mut s = field("hello world");
    s.move_to(0);
    s.select_to(5);
    s.replace_text_in_range(None, "HEY");
    assert_eq!(s.value(), "HEY world");
    assert_eq!(s.selected_range(), 3..3);
}

#[test]
fn utf16_range_picks_the_replaced_text() {
    let mut s = field("a👋b");
    // UTF-16 range 1..3 covers the emoji.
    s.replace_text_in_range(Some(1..3), "x");
    assert_eq!(s.value(), "axb");
    assert_eq!(s.selected_range(), 2..2);
}

#[test]
fn caret_moves_by_graphemes_and_words() {
    let mut s = field("日x word");
    s.home();
    assert_eq!(s.cursor_offset(), 0);
    s.right();
    assert_eq!(s.cursor_offset(), 3);
    s.left();
    assert_eq!(s.cursor_offset(), 0);
    s.word_right();
    assert_eq!(s.cursor_offset(), 4);
    s.end();
    assert_eq!(s.cursor_offset(), 9);
    s.word_left();
    assert_eq!(s.cursor_offset(), 5);
}

#[test]
fn move_to_clamps_past_the_end() {
    let mut s = field("abc");
    s.move_to(100);
    assert_eq!(s.selected_range(), 3..3);
}

#[test]
fn left_and_right_collapse_a_selection() {
    let mut s = field("abcdef");
    s.move_to(1);
    s.select_to(4);
    s.left();
    assert_eq!(s.selected_range(), 1..1);
    s.select_to(4);
    s.right();
    assert_eq!(s.selected_range(), 4..4);
}

#[test]
fn selection_turns_around_its_anchor() {
    let mut s = field("abcdef");
    s.move_to(3);
    s.select_left();
    assert_eq!(s.selected_range(), 2..3);
    assert!(s.selection_reversed());
    s.select_right();
    s.select_right();
    assert_eq!(s.selected_range(), 3..4);
    assert!(!s.selection_reversed());
    s.select_all();
    assert_eq!(s.selected_range(), 0..6);
    s.select_to_beginning();
    assert_eq!(s.selected_range(), 0..0);
}

#[test]
fn backspace_and_delete_remove_one_grapheme() {
    let mut s = field("ae\u{301}b");
    s.move_to(4);
    s.backspace();
    assert_eq!(s.value(), "ab");
    assert_eq!(s.selected_range(), 1..1);
    s.delete();
    assert_eq!(s.value(), "a");
    s.backspace();
    assert_eq!(s.value(), "");
    s.backspace();
    assert_eq!(s.value(), "");
}

#[test]
fn word_deletes_remove_whole_words() {
    let mut s = field("hello big world");
    s.move_to(9);
    s.delete_word_left();
    assert_eq!(s.value(), "hello  world");
    s.delete_word_right();
    assert_eq!(s.value(), "hello ");
    assert!(s.try_delete_word_left());
    assert_eq!(s.value(), "");
}

#[test]
fn deletes_to_the_ends() {
    let mut s = field("hello world");
    s.move_to(5);
    s.delete_to_end();
    assert_eq!(s.value(), "hello");
    s.move_to(2);
    s.delete_to_beginning();
    assert_eq!(s.value(), "llo");
    assert_eq!(s.selected_range(), 0..0);
}

#[test]
fn copy_and_cut_give_the_selected_text() {
    let mut s = field("hello world");
    assert_eq!(s.copy(), None);
    s.move_to(6);
    s.select_to_end();
    assert_eq!(s.copy(), Some("world".to_string()));
    assert_eq!(s.cut(), Some("world".to_string()));
    assert_eq!(s.value(), "hello ");
    assert_eq!(s.cut(), None);
}

#[test]
fn paste_turns_line_feeds_into_spaces() {
    let mut s = InputState::new();
    assert_eq!(s.paste("one\ntwo\n"), Some(true));
    assert_eq!(s.value(), "one two ");
}

#[test]
fn typing_undoes_and_redoes_as_one_step() {
    let mut s = InputState::new();
    for ch in ["a", "b", "c"] {
        s.replace_text_in_range(None, ch);
    }
    s.undo();
    assert_eq!(s.value(), "");
    s.redo();
    assert_eq!(s.value(), "abc");
    assert_eq!(s.selected_range(), 3..3);
}

#[test]
fn undo_selects_the_text_it_brings_back() {
    let mut s = field("hello world");
    s.move_to(0);
    s.select_to(5);
    s.cut();
    assert_eq!(s.value(), " world");
    s.undo();
    assert_eq!(s.value(), "hello world");
    assert_eq!(s.selected_range(), 0..5);
    s.redo();
    assert_eq!(s.value(), " world");
}

#[test]
fn set_value_clears_the_history() {
    let mut s = field("abc");
    s.move_to(0);
    s.set_value(Some("xyz".to_string()));
    assert_eq!(s.value(), "xyz");
    s.undo();
    assert_eq!(s.value(), "xyz");
    assert_eq!(s.on_change(), None);
}

#[test]
fn changes_are_reported_once() {
    let mut s = field("abc");
    assert_eq!(s.on_change(), Some("abc".to_string()));
    assert_eq!(s.enter(), None);
    s.replace_text_in_range(None, "d");
    assert_eq!(s.on_blur(false), Some("abcd".to_string()));
    assert_eq!(s.selected_range(), 0..0);
    assert_eq!(s.on_blur(false), None);
}

#[test]
fn focus_selects_everything_unless_clicked() {
    let mut s = field("abc");
    s.on_focus();
    assert_eq!(s.selected_range(), 0..3);
    s.on_mouse_down(1, false, 1);
    assert_eq!(s.selected_range(), 1..1);
    s.on_focus();
    assert_eq!(s.selected_range(), 1..1);
    s.on_focus();
    assert_eq!(s.selected_range(), 0..3);
}

#[test]
fn clicks_place_select_and_extend() {
    let mut s = field("hello big world");
    assert!(s.on_mouse_down(2, false, 7));
    assert_eq!(s.selected_range(), 6..9);
    assert!(s.on_mouse_down(3, false, 7));
    assert_eq!(s.selected_range(), 0..15);
    assert!(s.on_mouse_down(1, false, 2));
    assert_eq!(s.selected_range(), 2..2);
    s.on_mouse_move(5);
    assert_eq!(s.selected_range(), 2..5);
    s.on_mouse_up();
    s.on_mouse_move(8);
    assert_eq!(s.selected_range(), 2..5);
    assert!(s.on_mouse_down(1, true, 8));
    assert_eq!(s.selected_range(), 2..8);
}

#[test]
fn max_length_cuts_typed_text_by_graphemes() {
    let mut s = InputState::new();
    s.set_max_length(Some(4));
    assert!(s.replace_text_in_range(None, "ab"));
    assert!(s.replace_text_in_range(None, "e\u{301}cdef"));
    assert_eq!(s.value(), "abe\u{301}c");
    assert!(!s.replace_text_in_range(None, "z"));
    assert_eq!(s.value(), "abe\u{301}c");
    // Replacing a selection frees its graphemes.
    s.move_to(0);
    s.select_to(2);
    assert!(s.replace_text_in_range(None, "XYZ"));
    assert_eq!(s.value(), "XYe\u{301}c");
}

#[test]
fn max_length_refuses_uncountable_replacements() {
    // A joiner and the emoji after it count as two clusters on their own,
    // but the whole family is one.
    let mut s = field("👨\u{200d}👩");
    s.set_max_length(Some(5));
    s.move_to(4);
    s.select_to_end();
    assert_eq!(s.try_replace_text_in_range(None, "x"), None);
    assert_eq!(s.value(), "👨\u{200d}👩");
}

#[test]
fn composing_marks_the_text_until_committed() {
    let mut s = field("ab");
    assert!(s.replace_and_mark_text_in_range(None, "´", None));
    assert_eq!(s.value(), "ab´");
    assert_eq!(s.marked_range(), Some(2..4));
    assert_eq!(s.marked_text_range(), Some(2..3));
    assert!(s.replace_text_in_range(None, "á"));
    assert_eq!(s.value(), "abá");
    assert_eq!(s.marked_range(), None);
    s.undo();
    assert_eq!(s.value(), "");
}

#[test]
fn composing_places_the_given_selection() {
    let mut s = InputState::new();
    assert_eq!(
        s.try_replace_and_mark_text_in_range(None, "abc", Some(1..2)),
        Some(true)
    );
    assert_eq!(s.selected_range(), 1..2);
    s.unmark_text();
    assert_eq!(s.marked_range(), None);
    assert_eq!(s.value(), "abc");
}

#[test]
fn text_for_range_reports_what_it_took() {
    let s = field("a👋b");
    let mut actual = None;
    assert_eq!(s.text_for_range(0..2, &mut actual), Some("a👋".to_string()));
    assert_eq!(actual, Some(0..3));
    let sel = s.selected_text_range().unwrap();
    assert_eq!(sel.range, 4..4);
    assert!(!sel.reversed);
}

#[test]
fn masked_offsets_count_graphemes() {
    let mut s = field("ae\u{301}日");
    s.set_masked(true);
    // Three graphemes, each shown as the three bytes of "•".
    assert_eq!(s.actual_to_display_offset(0), 0);
    assert_eq!(s.actual_to_display_offset(1), 3);
    assert_eq!(s.actual_to_display_offset(4), 6);
    assert_eq!(s.actual_to_display_offset(7), 9);
    assert_eq!(s.display_to_actual_offset(0), 0);
    assert_eq!(s.display_to_actual_offset(3), 1);
    assert_eq!(s.display_to_actual_offset(5), 1);
    assert_eq!(s.display_to_actual_offset(6), 4);
    assert_eq!(s.display_to_actual_offset(100), 7);
    assert_eq!(s.display_cursor_offset(), 9);
    let (text, placeholder) = s.prepare_display_text();
    assert_eq!(text, "•••");
    assert!(!placeholder);
}

#[test]
fn unmasked_offsets_are_the_same() {
    let s = field("abc");
    assert_eq!(s.actual_to_display_offset(2), 2);
    assert_eq!(s.display_to_actual_offset(2), 2);
    assert_eq!(s.display_selection_range(), 3..3);
    assert_eq!(s.prepare_display_text(), ("abc".to_string(), false));
}

#[test]
fn empty_fields_show_the_placeholder() {
    let mut s = InputState::new();
    s.set_placeholder(Some("Search".to_string()));
    assert_eq!(s.prepare_display_text(), ("Search".to_string(), true));
    s.set_placeholder(None);
    assert_eq!(s.placeholder(), "");
}

#[test]
fn masks_can_be_changed_and_restored() {
    let mut s = field("ab");
    s.set_masked(true);
    s.set_mask(Some("*".to_string()));
    assert_eq!(s.prepare_display_text().0, "**");
    s.set_mask(Some(String::new()));
    assert_eq!(s.prepare_display_text().0, "");
    s.set_mask(None);
    assert_eq!(s.prepare_display_text().0, "••");
}

#[test]
fn composed_text_gets_an_underlined_run() {
    let runs = create_text_runs("abcdef", 6, Some(2..4), false);
    let spans: Vec<(usize, bool)> = runs.iter().map(|r| (r.len, r.underlined)).collect();
    assert_eq!(spans, vec![(2, false), (2, true), (2, false)]);
    let runs = create_text_runs("abcd", 4, Some(0..4), false);
    let spans: Vec<(usize, bool)> = runs.iter().map(|r| (r.len, r.underlined)).collect();
    assert_eq!(spans, vec![(4, true)]);
    let runs = create_text_runs("abcd", 4, Some(2..3), true);
    let spans: Vec<(usize, bool)> = runs.iter().map(|r| (r.len, r.underlined)).collect();
    assert_eq!(spans, vec![(4, false)]);
    let runs = create_text_runs("abcd", 4, Some(4..5), false);
    let spans: Vec<(usize, bool)> = runs.iter().map(|r| (r.len, r.underlined)).collect();
    assert_eq!(spans, vec![(4, false)]);
}
