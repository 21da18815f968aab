use std::ops::Range;
use thrustr::components::input::history::{Change, History};

struct Editor {
    value: String,
    selection: Range<usize>,
    marked: Option<Range<usize>>,
    history: History,
}

impl Editor {
    fn new(text: &str) -> Self {
        Self {
            value: text.to_string(),
            selection: text.len()..text.len(),
            marked: None,
            history: History::new(),
        }
    }

    fn select(&mut self, range: Range<usize>) {
        self.history.prevent_merge();
        self.selection = range;
    }

    fn type_text(&mut self, text: &str) {
        for ch in text.chars() {
            self.replace(self.selection.clone(), ch.encode_utf8(&mut [0; 4]));
        }
    }

    fn backspace(&mut self) {
        if self.selection.is_empty() {
            let end = self.selection.end;
            let start = self.value[..end]
                .chars()
                .next_back()
                .map_or(end, |ch| end - ch.len_utf8());
            self.selection = start..end;
        }
        self.replace(self.selection.clone(), "");
    }

    fn delete(&mut self) {
        if self.selection.is_empty() {
            let start = self.selection.start;
            let end = self.value[start..]
                .chars()
                .next()
                .map_or(start, |ch| start + ch.len_utf8());
            self.selection = start..end;
        }
        self.replace(self.selection.clone(), "");
    }

    fn cut(&mut self) {
        self.history.prevent_merge();
        self.replace(self.selection.clone(), "");
    }

    fn paste(&mut self, text: &str) {
        self.history.prevent_merge();
        self.replace(self.selection.clone(), text);
    }

    fn compose(&mut self, text: &str) {
        let range = self.marked.clone().unwrap_or(self.selection.clone());
        self.replace(range.clone(), text);
        self.marked = Some(range.start..range.start + text.len());
    }

    fn commit(&mut self, text: &str) {
        let range = self.marked.clone().unwrap_or(self.selection.clone());
        self.replace(range, text);
        self.marked = None;
    }

    fn undo(&mut self) -> String {
        self.try_undo().expect("there should be something to undo")
    }

    fn try_undo(&mut self) -> Option<String> {
        let change = self.history.undo()?;
        self.apply(&change);
        self.selection = change.selection_range();
        Some(self.render())
    }

    fn redo(&mut self) -> String {
        self.try_redo().expect("there should be something to redo")
    }

    fn try_redo(&mut self) -> Option<String> {
        let change = self.history.redo()?;
        self.apply(&change);
        Some(self.render())
    }

    fn replace(&mut self, range: Range<usize>, text: &str) {
        let change = if range.is_empty() {
            Change::Insert {
                range: range.clone(),
                text: text.to_string(),
            }
        } else if text.is_empty() {
            Change::Delete {
                range: range.clone(),
                text: self.value[range.clone()].to_string(),
            }
        } else {
            Change::Replace {
                range: range.clone(),
                old_text: self.value[range.clone()].to_string(),
                new_text: text.to_string(),
                marked: self.marked.is_some(),
            }
        };
        self.history.push(change);

        self.value.replace_range(range.clone(), text);
        let cursor = range.start + text.len();
        self.selection = cursor..cursor;
    }

    fn apply(&mut self, change: &Change) {
        self.value.replace_range(change.range(), &change.text());
        let cursor = change.range().start + change.text().len();
        self.selection = cursor..cursor;
        self.marked = None;
    }

    /// Renders the value with `|` at the cursor or `[...]` around the selection.
    fn render(&self) -> String {
        let Range { start, end } = self.selection.clone();
        if start == end {
            format!("{}|{}", &self.value[..start], &self.value[start..])
        } else {
            format!(
                "{}[{}]{}",
                &self.value[..start],
                &self.value[start..end],
                &self.value[end..]
            )
        }
    }
}

fn strip_selection(rendered: &str) -> String {
    rendered.replace(['|', '[', ']'], "")
}

/// Starts from `initial` with an empty history and runs `edit`. Then undoes everything,
/// checking the state after each step, and redoes everything.
fn check(initial: &str, edit: impl FnOnce(&mut Editor), undo_states: &[&str]) {
    let mut editor = Editor::new(initial);
    edit(&mut editor);
    let edited = editor.value.clone();

    for expected in undo_states {
        assert_eq!(editor.undo(), *expected);
    }
    assert_eq!(editor.try_undo(), None, "undo history should be exhausted");

    let redo_values = undo_states
        .iter()
        .rev()
        .skip(1)
        .map(|state| strip_selection(state))
        .chain([edited]);
    for expected in redo_values {
        editor.redo();
        assert_eq!(editor.value, expected);
    }
    assert_eq!(editor.try_redo(), None, "redo history should be exhausted");
}

#[test]
fn type_undoes_as_one_step() {
    check("", |e| e.type_text("Hello World!"), &["|"]);
}

#[test]
fn type_over_selection_undoes_as_one_step() {
    check(
        "",
        |e| {
            e.type_text("abcdef");
            e.select(2..4);
            e.type_text("XY");
        },
        &["ab[cd]ef", "|"],
    );

    check(
        "",
        |e| {
            e.type_text("important note");
            e.select(0..14);
            e.type_text("REMOVED");
        },
        &["[important note]", "|"],
    );
}

#[test]
fn cut_and_paste_undo_separately() {
    check(
        "",
        |e| {
            e.type_text("quick brown fox");
            e.select(6..12);
            e.cut();
            e.select(0..0);
            e.paste("brown ");
        },
        &["|quick fox", "quick [brown ]fox", "|"],
    );
}

#[test]
fn repeated_backspaces_merge_on_undo() {
    check(
        "abcdef",
        |e| {
            e.select(4..4);
            e.backspace();
            e.backspace();
        },
        &["ab[cd]ef"],
    );
}

#[test]
fn repeated_forward_deletes_merge_on_undo() {
    check(
        "abcdef",
        |e| {
            e.select(2..2);
            e.delete();
            e.delete();
        },
        &["ab[cd]ef"],
    );
}

#[test]
fn delete_and_retype_undoes_as_replacement() {
    check(
        "",
        |e| {
            e.type_text("world");
            e.backspace();
            e.backspace();
            e.type_text("ldwide");
        },
        &["wor[ld]", "|"],
    );
}

#[test]
fn multibyte_chars_undo_on_char_boundaries() {
    check(
        "",
        |e| {
            e.type_text("hello 👋 world");
            e.select(6..10);
            e.paste("🌍");
        },
        &["hello [👋] world", "|"],
    );
}

#[test]
fn composed_char_undoes_as_one_step() {
    check(
        "",
        |e| {
            e.compose("´");
            e.commit("á");
        },
        &["|"],
    );
}

#[test]
fn composing_merges_with_typing() {
    check(
        "",
        |e| {
            e.type_text("hello w");
            e.compose("´");
            e.commit("ó");
            e.type_text("rld");
        },
        &["|"],
    );
}

#[test]
fn compose_over_selection_undoes_as_replacement() {
    check(
        "",
        |e| {
            e.type_text("hello fucking world");
            e.select(6..13);
            e.compose("´");
            e.commit("á");
            e.type_text("wesome");
        },
        &["hello [fucking] world", "|"],
    );
}

#[test]
fn undo_and_redo_toggle_the_same_edit() {
    let mut editor = Editor::new("Hello World!");
    editor.select(0..5);
    editor.cut();

    assert_eq!(editor.undo(), "[Hello] World!");
    assert_eq!(editor.redo(), "| World!");
    assert_eq!(editor.undo(), "[Hello] World!");
}

#[test]
fn new_edit_after_undo_discards_redo_history() {
    let mut editor = Editor::new("tree");
    editor.select(2..2);
    editor.backspace();
    assert_eq!(editor.undo(), "t[r]ee");

    editor.select(4..4);
    editor.type_text("s");
    assert_eq!(editor.try_redo(), None);
}

#[test]
fn history_keeps_at_most_its_capacity() {
    let mut history = History::with_max_size(2);
    for i in 0..5 {
        history.prevent_merge();
        history.push(Change::Insert {
            range: i..i,
            text: "x".to_string(),
        });
    }
    assert!(history.undo().is_some());
    assert!(history.undo().is_some());
    assert!(history.undo().is_none());
}

#[test]
fn undo_with_empty_history_gives_nothing() {
    let mut history = History::new();
    assert!(history.undo().is_none());
    assert!(history.redo().is_none());
}

#[test]
fn inverse_of_insert_deletes_the_inserted_text() {
    let mut history = History::new();
    history.push(Change::Insert {
        range: 3..3,
        text: "日本".to_string(),
    });
    let undo = history.undo().unwrap();
    assert_eq!(undo.range(), 3..9);
    assert_eq!(undo.text(), "");
    assert_eq!(undo.selection_range(), 3..3);
    let redo = history.redo().unwrap();
    assert_eq!(redo.range(), 3..3);
    assert_eq!(redo.text(), "日本");
    assert_eq!(redo.selection_range(), 3..9);
}

#[test]
fn clear_drops_both_stacks() {
    let mut history = History::default();
    history.push(Change::Insert {
        range: 0..0,
        text: "a".to_string(),
    });
    history.undo();
    history.clear();
    assert!(history.undo().is_none());
    assert!(history.redo().is_none());
}
