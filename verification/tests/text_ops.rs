use thrustr::components::input::text_ops::TextOps;

/// `expected[i]` is the snapped result for byte offset `i` including
/// one past the end of `text`.
fn check_snap(text: &str, expected: &[usize]) {
    let actual: Vec<usize> = (0..=text.len() + 1)
        .map(|offset| TextOps::snap_to_grapheme_boundary(text, offset))
        .collect();
    assert_eq!(actual, expected, "snapping every offset of {text:?}");
}

#[test]
fn snap_clamps_offsets_past_end() {
    check_snap("abc", &[0, 1, 2, 3, 3]);
    check_snap("", &[0, 0]);
}

#[test]
fn snap_moves_offsets_inside_multibyte_char_to_start() {
    check_snap("日本", &[0, 0, 0, 3, 3, 3, 6, 6]);
}

#[test]
fn snap_keeps_combining_marks_with_base() {
    check_snap("e\u{301}x", &[0, 0, 0, 3, 4, 4]);
}

/// `fixture` is the text annotated with `|` at the cursor and `[` and `]`
/// at the expected previous and next word boundaries.
fn check_word_boundaries(fixture: &str) {
    let mut text = String::new();
    let mut cursor = None;
    for ch in fixture.chars() {
        match ch {
            '|' => cursor = Some(text.len()),
            '[' | ']' => {}
            _ => text.push(ch),
        }
    }
    let cursor = cursor.expect("fixture should contain a `|` cursor");

    let prev = TextOps::previous_word_boundary(&text, cursor);
    let next = TextOps::next_word_boundary(&text, cursor);

    let mut marks = [(cursor, '|'), (prev, '['), (next, ']')];
    // Highest offset first; equal offsets keep their order.
    marks.sort_by_key(|&(offset, _)| usize::MAX - offset);
    let mut actual = text;
    for (offset, mark) in marks {
        actual.insert(offset, mark);
    }

    assert_eq!(actual, fixture);
}

#[test]
fn word_boundaries_split_on_whitespace() {
    check_word_boundaries("[|hello] world");
    check_word_boundaries("[hello| world]");
    check_word_boundaries("[hello |world]");
    check_word_boundaries("[|hello]  world");
    check_word_boundaries("[hello|  world]");
    check_word_boundaries("[hello | world]");
    check_word_boundaries("[|  hello] world  ");
    check_word_boundaries("  [hell|o] world  ");
    check_word_boundaries("  [hello| world]  ");
}

#[test]
fn whitespace_only_text_skips_to_ends() {
    check_word_boundaries("[|   ]");
}

#[test]
fn punctuation_runs_form_separate_words() {
    check_word_boundaries("[|hello], world!");
    check_word_boundaries("[hello|,] world!");
    check_word_boundaries("hello[,| world]!");
    check_word_boundaries("hello[.|..] world!");
    check_word_boundaries("[|hello]@world.com");
    check_word_boundaries("[hello|@]world.com");
    check_word_boundaries("hello[@|world].com");
}

#[test]
fn underscores_join_words_hyphens_split() {
    check_word_boundaries("[|hello]-world_test");
    check_word_boundaries("[hello|-]world_test");
    check_word_boundaries("hello[-|world_test]");
}

#[test]
fn decimal_numbers_stay_together() {
    check_word_boundaries("[|123] 456");
    check_word_boundaries("[12|3] 456");
    check_word_boundaries("[123| 456]");
    check_word_boundaries("[|123.456]");
    check_word_boundaries("[12|3.456]");
    check_word_boundaries("[123|.456]");
    check_word_boundaries("[1.23e|10]");
}

#[test]
fn emojis_are_separate_words() {
    check_word_boundaries("[|hello] 👋 world");
    check_word_boundaries("[hello| 👋] world");
    check_word_boundaries("[hello |👋] world");
    check_word_boundaries("[|👋] hello world");
    check_word_boundaries("[👋| hello] world");
    check_word_boundaries("👋 [he|llo] world");
}

#[test]
fn identifiers_split_on_punctuation() {
    check_word_boundaries("[|file_name_v2]-final.txt");
    check_word_boundaries("[file_name_v2|-]final.txt");
    check_word_boundaries("file_name_v2[-|final].txt");
    check_word_boundaries("file_name_v2-[final|.]txt");
    check_word_boundaries("file_name_v2-final[.|txt]");
    check_word_boundaries("[|the] quick-brown_fox42 jumps!");
    check_word_boundaries("[the| quick]-brown_fox42 jumps!");
    check_word_boundaries("the [quick|-]brown_fox42 jumps!");
    check_word_boundaries("the quick[-|brown_fox42] jumps!");
    check_word_boundaries("the quick-[brown_fox42| jumps]!");
    check_word_boundaries("the quick-brown_fox42 [jumps|!]");
}

#[test]
fn grapheme_steps_skip_whole_clusters() {
    let text = "e\u{301}x";
    assert_eq!(TextOps::next_boundary(text, 0), 3);
    assert_eq!(TextOps::next_boundary(text, 3), 4);
    assert_eq!(TextOps::next_boundary(text, 4), 4);
    assert_eq!(TextOps::previous_boundary(text, 4), 3);
    assert_eq!(TextOps::previous_boundary(text, 3), 0);
    assert_eq!(TextOps::previous_boundary(text, 0), 0);
}

#[test]
fn next_then_previous_lands_on_snapped_offset() {
    let text = "a👋e\u{301}日";
    for offset in 0..text.len() {
        let back = TextOps::previous_boundary(text, TextOps::next_boundary(text, offset));
        assert_eq!(back, TextOps::snap_to_grapheme_boundary(text, offset));
    }
}

#[test]
fn snapping_twice_changes_nothing() {
    let text = "日e\u{301}👋";
    for offset in 0..=text.len() + 2 {
        let once = TextOps::snap_to_grapheme_boundary(text, offset);
        assert_eq!(TextOps::snap_to_grapheme_boundary(text, once), once);
    }
}

#[test]
fn grapheme_offsets_map_to_bytes() {
    let text = "a日e\u{301}";
    assert_eq!(TextOps::grapheme_offset_to_byte_offset(text, 0), 0);
    assert_eq!(TextOps::grapheme_offset_to_byte_offset(text, 1), 1);
    assert_eq!(TextOps::grapheme_offset_to_byte_offset(text, 2), 4);
    assert_eq!(TextOps::grapheme_offset_to_byte_offset(text, 3), 7);
    assert_eq!(TextOps::grapheme_offset_to_byte_offset(text, 9), 7);
}

#[test]
fn utf16_offsets_round_trip() {
    let text = "a👋日";
    // 'a' is 1 byte / 1 unit, the emoji 4 bytes / 2 units, '日' 3 bytes / 1 unit.
    assert_eq!(TextOps::offset_to_utf16(text, 0), 0);
    assert_eq!(TextOps::offset_to_utf16(text, 1), 1);
    assert_eq!(TextOps::offset_to_utf16(text, 5), 3);
    assert_eq!(TextOps::offset_to_utf16(text, 8), 4);
    assert_eq!(TextOps::offset_to_utf16(text, 3), 3);
    assert_eq!(TextOps::offset_from_utf16(text, 3), 5);
    assert_eq!(TextOps::offset_from_utf16(text, 2), 5);
    assert_eq!(TextOps::offset_from_utf16(text, 100), 8);
    for offset in [0, 1, 5, 8] {
        let u = TextOps::offset_to_utf16(text, offset);
        assert_eq!(TextOps::offset_from_utf16(text, u), offset);
    }
    assert_eq!(TextOps::range_to_utf16(text, &(1..5)), 1..3);
    assert_eq!(TextOps::range_from_utf16(text, &(1..3)), 1..5);
}
