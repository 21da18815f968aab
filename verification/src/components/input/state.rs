//! Editing state of a single-line text field: the text, the selection, the
//! text an input method is composing, masking for secrets, and undo history.
//!
//! Offsets are byte offsets into the UTF-8 encoding of the value unless a
//! name says UTF-16 or display.
use crate::components::input::history::{law_push_keeps_newest_steps, law_undo_after_push, Change, ChangeView, History, HistoryView};
use crate::components::input::text_ops::{
    byte_slice, chars_before, lemma_chars_before_boundary, lemma_grapheme_results, grapheme_count, grapheme_starts, grapheme_starts_well_formed,
    grapheme_to_byte_spec, lemma_grapheme_count, offset_from_utf16_spec, offset_to_utf16_spec,
    law_offset_to_utf16_monotone, law_utf16_round_trip, lemma_boundary_index, lemma_boundary_span, next_boundary_spec,
    next_word_boundary_spec, previous_boundary_spec, previous_word_boundary_spec, TextOps,
};
use crate::unicode::{
    byte_len, byte_offset, char_table, is_char_boundary_of, lemma_byte_len_concat, lemma_positive_len,
    lemma_ends_are_boundaries, lemma_prefix_monotone, text_len,
};
use std::ops::Range;
use vstd::prelude::*;
use vstd::string::StringExecFns;
use vstd::string::StrSliceExecFns;

verus! {

/// The mask shown in place of each grapheme of a masked value.
pub const DEFAULT_MASK: &'static str = "•";

/// The mathematical value of an [`InputState`].
pub struct InputView {
    pub value: Seq<char>,
    /// The value last reported as changed.
    pub emitted_value: Seq<char>,
    pub placeholder: Seq<char>,
    /// Start and end of the selection; a caret when they are equal.
    pub selected: (int, int),
    /// Whether the caret sits at the start of the selection.
    pub reversed: bool,
    /// The range of text an input method is composing.
    pub marked: Option<(int, int)>,
    pub selecting: bool,
    pub auto_scroll: bool,
    pub masked: bool,
    pub mask: Seq<char>,
    pub max_length: Option<int>,
    pub history: HistoryView,
    pub ignore_history: bool,
    pub focus_select: bool,
}

/// `r` is an ordered byte range of `s` whose ends are character boundaries.
pub open spec fn range_of(s: Seq<char>, r: (int, int)) -> bool {
    &&& 0 <= r.0 <= r.1 <= byte_len(s)
    &&& is_char_boundary_of(s, r.0)
    &&& is_char_boundary_of(s, r.1)
}

impl InputView {
    /// The selection and the composed range lie on character boundaries of
    /// the value, and the history is well formed.
    pub open spec fn wf(self) -> bool {
        &&& range_of(self.value, self.selected)
        &&& (self.marked matches Some(m) ==> range_of(self.value, m))
        &&& self.history.well_formed()
    }

    /// Where the caret is: the start of a reversed selection, else its end.
    pub open spec fn cursor(self) -> int {
        if self.reversed {
            self.selected.0
        } else {
            self.selected.1
        }
    }

    pub open spec fn no_merge(self) -> InputView {
        InputView { history: HistoryView { can_merge: false, ..self.history }, ..self }
    }

    /// The state after putting the caret at `offset`, clamped to the value.
    pub open spec fn move_to(self, offset: int) -> InputView {
        let o = if offset > byte_len(self.value) {
            byte_len(self.value) as int
        } else {
            offset
        };
        if o != self.cursor() {
            InputView { selected: (o, o), auto_scroll: true, ..self.no_merge() }
        } else {
            InputView { selected: (o, o), ..self }
        }
    }

    /// The state after `set_placeholder`.
    pub open spec fn with_placeholder(self, placeholder: Option<Seq<char>>) -> InputView {
        InputView {
            placeholder: match placeholder {
                Some(p) => p,
                None => Seq::empty(),
            },
            ..self
        }
    }

    /// The state after `set_value`: a new value is also the value last
    /// reported, and clears the undo history.
    pub open spec fn with_value(self, value: Option<Seq<char>>) -> InputView {
        match value {
            Some(v) => if v != self.value {
                InputView {
                    value: v,
                    emitted_value: v,
                    history: HistoryView { undo: Seq::empty(), redo: Seq::empty(), ..self.history },
                    ..self
                }
            } else {
                self
            },
            None => self,
        }
    }

    /// The state after `set_masked`.
    pub open spec fn with_masked(self, masked: bool) -> InputView {
        if self.masked != masked {
            InputView { masked, auto_scroll: true, ..self }
        } else {
            self
        }
    }

    /// The state after `set_mask`.
    pub open spec fn with_mask(self, mask: Option<Seq<char>>) -> InputView {
        match mask {
            Some(m) => if m != self.mask {
                InputView { mask: m, auto_scroll: self.auto_scroll || self.masked, ..self }
            } else {
                self
            },
            None => InputView { mask: DEFAULT_MASK@, ..self },
        }
    }

    /// The state after `set_max_length`.
    pub open spec fn with_max_length(self, max_length: Option<usize>) -> InputView {
        InputView {
            max_length: match max_length {
                Some(n) => Some(n as int),
                None => None,
            },
            ..self
        }
    }

    /// A new value keeps the selection and the composed range inside it.
    pub open spec fn value_fits(self, value: Option<Seq<char>>) -> bool {
        value matches Some(v) ==> (range_of(v, self.selected) && (self.marked matches Some(m)
            ==> range_of(v, m)))
    }

    /// The state after `set_value_clamped`: as [`InputView::with_value`],
    /// except that a selection which does not lie on character boundaries of
    /// the new value becomes a caret at its end, and such a composed range
    /// is dropped.
    pub open spec fn with_value_clamped(self, value: Option<Seq<char>>) -> InputView {
        match value {
            Some(v) => InputView {
                selected: if range_of(v, self.selected) {
                    self.selected
                } else {
                    (byte_len(v) as int, byte_len(v) as int)
                },
                marked: match self.marked {
                    Some(m) => if range_of(v, m) {
                        Some(m)
                    } else {
                        None
                    },
                    None => None,
                },
                ..self
            }.with_value(value),
            None => self,
        }
    }

    /// The state after moving the caret end of the selection to `offset`;
    /// the selection turns around when the caret passes its other end.
    pub open spec fn select_to(self, offset: int) -> InputView {
        let (s, e) = if self.reversed {
            (offset, self.selected.1)
        } else {
            (self.selected.0, offset)
        };
        if e < s {
            InputView { selected: (e, s), reversed: !self.reversed, auto_scroll: true, ..self }
        } else {
            InputView { selected: (s, e), auto_scroll: true, ..self }
        }
    }
}


/// The characters of `s` between two byte offsets.
pub open spec fn span(s: Seq<char>, r: (int, int)) -> Seq<char> {
    s.subrange(chars_before(s, r.0) as int, chars_before(s, r.1) as int)
}

/// The number of grapheme clusters of the text between two byte offsets of `s`.
pub open spec fn graphemes_in(s: Seq<char>, r: (int, int)) -> int {
    grapheme_starts(span(s, r)).len() as int
}

/// `s` with the byte range `r` replaced by `t`.
pub open spec fn splice(s: Seq<char>, r: (int, int), t: Seq<char>) -> Seq<char> {
    s.take(chars_before(s, r.0) as int) + t + s.skip(chars_before(s, r.1) as int)
}

impl InputView {
    /// The byte range an edit replaces: the given UTF-16 range, else the
    /// composed text, else the selection.
    pub open spec fn target_range(self, range_utf16: Option<(int, int)>) -> (int, int) {
        match range_utf16 {
            Some(r) => (
                offset_from_utf16_spec(self.value, r.0),
                offset_from_utf16_spec(self.value, r.1),
            ),
            None => match self.marked {
                Some(m) => m,
                None => self.selected,
            },
        }
    }

    /// Whether the grapheme counts that a length limit compares can be taken:
    /// the replaced text does not count more graphemes than the whole value.
    pub open spec fn counts_fit(self, r: (int, int), t: Seq<char>) -> bool {
        (self.max_length is Some && t.len() > 0 && !self.ignore_history) ==> graphemes_in(
            self.value,
            r,
        ) <= grapheme_starts(self.value).len()
    }

    /// What of `t` is entered in place of `r`: all of it, or, under a length
    /// limit, its leading graphemes that fit; `None` when nothing fits.
    pub open spec fn fitted_text(self, r: (int, int), t: Seq<char>) -> Option<Seq<char>> {
        match self.max_length {
            Some(max) => if t.len() > 0 && !self.ignore_history {
                let current = grapheme_starts(self.value).len() - graphemes_in(self.value, r);
                if current + grapheme_starts(t).len() > max {
                    let available = if max > current {
                        max - current
                    } else {
                        0
                    };
                    if available == 0 {
                        None
                    } else {
                        Some(t.take(chars_before(t, grapheme_to_byte_spec(t, available)) as int))
                    }
                } else {
                    Some(t)
                }
            } else {
                Some(t)
            },
            None => Some(t),
        }
    }

    /// The undo step that records replacing `r` by `t`.
    pub open spec fn change_for(self, r: (int, int), t: Seq<char>) -> ChangeView {
        if r.0 == r.1 {
            ChangeView::Insert { start: r.0, end: r.1, text: t }
        } else if t.len() == 0 {
            ChangeView::Delete { start: r.0, end: r.1, text: span(self.value, r) }
        } else {
            ChangeView::Replace {
                start: r.0,
                end: r.1,
                old_text: span(self.value, r),
                new_text: t,
                marked: self.marked is Some,
            }
        }
    }

    /// Whether replacing `r` by `t` is recorded: not while undoing or
    /// redoing, and not for an empty edit at the start.
    pub open spec fn records(self, r: (int, int), t: Seq<char>) -> bool {
        !self.ignore_history && !(r.0 == 0 && r.1 == 0 && t.len() == 0)
    }

    pub open spec fn history_after(self, r: (int, int), t: Seq<char>) -> HistoryView {
        if self.records(r, t) {
            self.history.push(self.change_for(r, t))
        } else {
            self.history
        }
    }

    /// The history can record the edit with its offsets within `usize`.
    pub open spec fn accepts_edit(self, r: (int, int), t: Seq<char>) -> bool {
        self.records(r, t) ==> self.history.accepts(self.change_for(r, t))
    }

    /// The state after `r` was replaced by `t`: caret after the new text,
    /// nothing composed, the edit recorded.
    pub open spec fn replaced(self, r: (int, int), t: Seq<char>) -> InputView {
        InputView {
            value: splice(self.value, r, t),
            selected: (r.0 + byte_len(t), r.0 + byte_len(t)),
            marked: None,
            auto_scroll: true,
            history: self.history_after(r, t),
            ..self
        }
    }

    /// The state after `replace_text_in_range`.
    pub open spec fn after_replace(self, range_utf16: Option<(int, int)>, t: Seq<char>) -> InputView {
        let r = self.target_range(range_utf16);
        match self.fitted_text(r, t) {
            Some(f) => self.replaced(r, f),
            None => self,
        }
    }

    /// The inputs on which `replace_text_in_range` works: an ordered UTF-16
    /// range, a result that fits in memory, countable graphemes and an
    /// edit the history can record.
    pub open spec fn replace_ok(self, range_utf16: Option<(int, int)>, t: Seq<char>) -> bool {
        let r = self.target_range(range_utf16);
        &&& (range_utf16 matches Some(u) ==> u.0 <= u.1)
        &&& byte_len(self.value) + byte_len(t) <= usize::MAX
        &&& self.counts_fit(r, t)
        &&& self.accepts_edit(r, t)
    }
}

/// Replacing a range by `t` leaves the text before it in place and puts `t`
/// right after it.
pub proof fn lemma_splice(s: Seq<char>, r: (int, int), t: Seq<char>)
    requires
        range_of(s, r),
    ensures
        byte_len(splice(s, r, t)) == byte_len(s) - (r.1 - r.0) + byte_len(t),
        range_of(splice(s, r, t), (r.0, r.0 + byte_len(t))),
        span(splice(s, r, t), (r.0, r.0 + byte_len(t))) == t,
        chars_before(splice(s, r, t), r.0) == chars_before(s, r.0),
{
    lemma_boundary_span(s, r.0, r.1);
    let ka = chars_before(s, r.0) as int;
    let kb = chars_before(s, r.1) as int;
    let p = s.take(ka);
    let q = s.skip(kb);
    let n = splice(s, r, t);
    assert(n == p + t + q);
    lemma_byte_len_concat(p, t);
    lemma_byte_len_concat(p + t, q);
    assert(n.take(p.len() as int) =~= p);
    assert(n.take((p.len() + t.len()) as int) =~= p + t);
    assert(byte_offset(n, p.len() as int) == r.0);
    assert(byte_offset(n, (p.len() + t.len()) as int) == r.0 + byte_len(t));
    lemma_chars_before_boundary(n, p.len() as int);
    lemma_chars_before_boundary(n, (p.len() + t.len()) as int);
    assert(n.subrange(p.len() as int, (p.len() + t.len()) as int) =~= t);
}

/// The text that a length limit lets through is a non-empty prefix of what
/// was typed, so the history can record it whenever it could record all of it.
proof fn lemma_fitted_accepted(v: InputView, r: (int, int), t: Seq<char>)
    requires
        v.accepts_edit(r, t),
        v.fitted_text(r, t) is Some,
        grapheme_starts_well_formed(t, grapheme_starts(t)),
    ensures
        v.accepts_edit(r, v.fitted_text(r, t).unwrap()),
        byte_len(v.fitted_text(r, t).unwrap()) <= byte_len(t),
{
    let f = v.fitted_text(r, t).unwrap();
    if f != t {
        let st = grapheme_starts(t);
        let current = grapheme_starts(v.value).len() - graphemes_in(v.value, r);
        let max = v.max_length.unwrap();
        let available = if max > current {
            max - current
        } else {
            0
        };
        let g = grapheme_to_byte_spec(t, available);
        assert(t.len() > 0);
        lemma_positive_len(t);
        assert(g > 0) by {
            if available < st.len() {
                assert(st[0] < st[available]);
            }
        }
        assert(chars_before(t, g) >= 1);
        let k = chars_before(t, g) as int;
        assert(k <= t.len()) by {
            lemma_grapheme_results(t, available);
            lemma_boundary_index(t, g);
        }
        lemma_prefix_monotone(t, k, t.len() as int);
        assert(t.take(t.len() as int) =~= t);
        assert(f == t.take(k));
        assert(f.len() > 0);
        if v.records(r, f) && v.history.merges(v.change_for(r, f)) {
            let last = v.history.undo.last();
            match last {
                ChangeView::Insert { text: t1, .. } => {
                    if r.0 != r.1 {
                        let o2 = span(v.value, r);
                        let h = t1.subrange(0, t1.len() - o2.len());
                        lemma_byte_len_concat(h, f);
                        lemma_byte_len_concat(h, t);
                    } else {
                        lemma_byte_len_concat(t1, f);
                        lemma_byte_len_concat(t1, t);
                    }
                },
                ChangeView::Delete { .. } => {},
                ChangeView::Replace { new_text: n1, .. } => {
                    if r.0 != r.1 {
                        let o2 = span(v.value, r);
                        let h = n1.subrange(0, n1.len() - o2.len());
                        lemma_byte_len_concat(h, f);
                        lemma_byte_len_concat(h, t);
                    } else {
                        lemma_byte_len_concat(n1, f);
                        lemma_byte_len_concat(n1, t);
                    }
                },
            }
        }
    }
}

/// `s` with the byte range `start..end` replaced by `new_text`.
/// Whether a character of `text` starts at byte offset `i`, or `i` is its end.
fn on_char_boundary(text: &str, i: usize) -> (b: bool)
    ensures
        b == is_char_boundary_of(text@, i as int),
{
    let (_chars, offs) = char_table(text);
    let mut k: usize = 0;
    while k < offs.len()
        invariant
            k <= offs.len(),
            offs.len() == text@.len() + 1,
            forall|m: int| 0 <= m <= text@.len() ==> offs[m] == byte_offset(text@, m),
            forall|m: int| 0 <= m < k ==> byte_offset(text@, m) != i,
        decreases offs.len() - k,
    {
        if offs[k] == i {
            assert(byte_offset(text@, k as int) == i);
            return true;
        }
        k += 1;
    }
    false
}

/// Whether the byte range `r` lies on character boundaries of `text`.
fn fits_range(text: &str, r: &Range<usize>) -> (b: bool)
    ensures
        b == range_of(text@, range_view(*r)),
{
    let len = text_len(text);
    r.start <= r.end && r.end <= len && on_char_boundary(text, r.start) && on_char_boundary(text, r.end)
}

fn splice_text(value: &str, start: usize, end: usize, new_text: &str) -> (r: String)
    requires
        range_of(value@, (start as int, end as int)),
    ensures
        r@ == splice(value@, (start as int, end as int), new_text@),
{
    proof {
        lemma_ends_are_boundaries(value@);
        lemma_chars_before_boundary(value@, value@.len() as int);
    }
    let len = text_len(value);
    let head = byte_slice(value, 0, start);
    let tail = byte_slice(value, end, len);
    let mut r = String::from_str(head);
    r.append(new_text);
    r.append(tail);
    proof {
        assert(head@ =~= value@.take(chars_before(value@, start as int) as int));
        assert(tail@ =~= value@.skip(chars_before(value@, end as int) as int));
    }
    r
}

/// `t` with each line feed replaced by a space.
pub open spec fn single_line(t: Seq<char>) -> Seq<char> {
    t.map_values(|c: char| if c == '\n' { ' ' } else { c })
}

impl InputView {
    /// The state after deleting the composed text, or else the selection.
    pub open spec fn delete_selection(self) -> InputView {
        self.replaced(self.target_range(None), Seq::empty())
    }

    /// The history can record deleting the composed text, or else the selection.
    pub open spec fn can_delete_selection(self) -> bool {
        self.accepts_edit(self.target_range(None), Seq::empty())
    }

    /// The selection is extended to `offset` when it is only a caret.
    pub open spec fn extend_caret(self, offset: int) -> InputView {
        if self.selected.0 == self.selected.1 {
            self.select_to(offset)
        } else {
            self
        }
    }

    /// A caret becomes the selection `r`; a selection stays.
    pub open spec fn caret_to_range(self, r: (int, int)) -> InputView {
        if self.selected.0 == self.selected.1 {
            InputView { selected: r, ..self }
        } else {
            self
        }
    }

    /// The state after `c` is applied without being recorded, as undo and
    /// redo apply it: its range goes through UTF-16 offsets of the value.
    pub open spec fn apply_unrecorded(self, c: ChangeView) -> InputView {
        let r = self.target_range(
            Some(
                (
                    offset_to_utf16_spec(self.value, c.start()),
                    offset_to_utf16_spec(self.value, c.end()),
                ),
            ),
        );
        InputView {
            value: splice(self.value, r, c.text()),
            selected: (r.0 + byte_len(c.text()), r.0 + byte_len(c.text())),
            marked: None,
            auto_scroll: true,
            ..self
        }
    }

    /// The state after an undo: the last step is reverted and its text
    /// selected again.
    pub open spec fn undo_result(self) -> InputView {
        let h = self.history.undo().0;
        match self.history.undo().1 {
            Some(c) => InputView {
                selected: c.selection(),
                ..InputView { history: h, ..self }.apply_unrecorded(c)
            },
            None => InputView { history: h, ..self },
        }
    }

    /// The state after a redo: the undone step is applied again.
    pub open spec fn redo_result(self) -> InputView {
        let h = self.history.redo().0;
        match self.history.redo().1 {
            Some(c) => InputView { history: h, ..self }.apply_unrecorded(c),
            None => InputView { history: h, ..self },
        }
    }

    /// Undo works on this state: the reverted text fits in memory and the
    /// selection it restores lies on character boundaries of the result.
    pub open spec fn undo_ok(self) -> bool {
        match self.history.undo().1 {
            Some(c) => {
                &&& byte_len(self.value) + byte_len(c.text()) <= usize::MAX
                &&& range_of(
                    InputView { history: self.history.undo().0, ..self }.apply_unrecorded(c).value,
                    c.selection(),
                )
            },
            None => true,
        }
    }

    /// Redo works on this state: the text it puts back fits in memory.
    pub open spec fn redo_ok(self) -> bool {
        match self.history.redo().1 {
            Some(c) => byte_len(self.value) + byte_len(c.text()) <= usize::MAX,
            None => true,
        }
    }
}

/// Replacing line feeds by spaces keeps the byte length.
proof fn lemma_single_line_len(t: Seq<char>)
    ensures
        byte_len(single_line(t)) == byte_len(t),
        single_line(t).len() == t.len(),
    decreases t.len(),
{
    if t.len() > 0 {
        lemma_single_line_len(t.drop_last());
        assert(single_line(t).drop_last() =~= single_line(t.drop_last()));
    }
}

/// `text` with each line feed replaced by a space, as
/// `text.replace('\n', " ")` gives it.
fn to_single_line(text: &str) -> (r: String)
    ensures
        r@ == single_line(text@),
{
    let n = text.unicode_len();
    let mut r = String::new();
    let mut seg: usize = 0;
    let mut i: usize = 0;
    proof {
        reveal_strlit(" ");
    }
    while i < n
        invariant
            n == text@.len(),
            seg <= i <= n,
            r@ + text@.subrange(seg as int, i as int) == single_line(text@.take(i as int)),
            forall|k: int| seg <= k < i ==> text@[k] != '\n',
        decreases n - i,
    {
        let c = text.get_char(i);
        let ghost prev = r@ + text@.subrange(seg as int, i as int);
        assert(text@.take(i + 1) =~= text@.take(i as int).push(c));
        assert(single_line(text@.take(i + 1)) =~= single_line(text@.take(i as int)).push(
            if c == '\n' {
                ' '
            } else {
                c
            },
        ));
        if c == '\n' {
            r.append(text.substring_char(seg, i));
            assert(r@ =~= prev);
            r.append(" ");
            proof {
                reveal_strlit(" ");
            }
            assert(" "@ =~= seq![' ']);
            seg = i + 1;
            assert(r@ + text@.subrange(seg as int, (i + 1) as int) =~= prev.push(' '));
        } else {
            assert(text@.subrange(seg as int, (i + 1) as int) =~= text@.subrange(
                seg as int,
                i as int,
            ).push(c));
            assert(r@ + text@.subrange(seg as int, (i + 1) as int) =~= prev.push(c));
        }
        i += 1;
    }
    r.append(text.substring_char(seg, n));
    assert(text@.take(n as int) =~= text@);
    r
}

impl InputView {
    /// The selection after composing `f` in place of `r`: the given UTF-16
    /// range, taken in the new value and moved by the start of `r`, or else
    /// a caret after `f`.
    pub open spec fn mark_selection(self, r: (int, int), f: Seq<char>, sel: Option<(int, int)>) -> (int, int) {
        let v = splice(self.value, r, f);
        match sel {
            Some(u) => (offset_from_utf16_spec(v, u.0) + r.0, offset_from_utf16_spec(v, u.1) + r.0),
            None => (r.0 + byte_len(f), r.0 + byte_len(f)),
        }
    }

    /// The state after composing `f` in place of `r`: `f` becomes the
    /// composed text (none when it is empty).
    pub open spec fn replaced_and_marked(self, r: (int, int), f: Seq<char>, sel: Option<(int, int)>) -> InputView {
        InputView {
            value: splice(self.value, r, f),
            marked: if f.len() > 0 {
                Some((r.0, r.0 + byte_len(f)))
            } else {
                None
            },
            selected: self.mark_selection(r, f, sel),
            auto_scroll: true,
            history: self.history_after(r, f),
            ..self
        }
    }

    /// The state after `replace_and_mark_text_in_range`.
    pub open spec fn after_replace_and_mark(
        self,
        range_utf16: Option<(int, int)>,
        t: Seq<char>,
        sel: Option<(int, int)>,
    ) -> InputView {
        let r = self.target_range(range_utf16);
        match self.fitted_text(r, t) {
            Some(f) => self.replaced_and_marked(r, f, sel),
            None => self,
        }
    }

    /// The selection that composing leaves lies on character boundaries of
    /// the new value.
    pub open spec fn mark_selection_ok(
        self,
        range_utf16: Option<(int, int)>,
        t: Seq<char>,
        sel: Option<(int, int)>,
    ) -> bool {
        let r = self.target_range(range_utf16);
        self.fitted_text(r, t) matches Some(f) ==> range_of(
            splice(self.value, r, f),
            self.mark_selection(r, f, sel),
        )
    }
}

/// Whether byte offset `offset` is a character boundary of `text`.
fn is_boundary(text: &str, offset: usize) -> (b: bool)
    ensures
        b == is_char_boundary_of(text@, offset as int),
{
    let (chars, offs) = char_table(text);
    let n = chars.len();
    let mut k: usize = 0;
    while k <= n
        invariant
            k <= n + 1,
            n == text@.len(),
            offs.len() == n + 1,
            forall|i: int| 0 <= i <= n ==> offs[i] == byte_offset(text@, i),
            forall|i: int| 0 <= i < k ==> byte_offset(text@, i) != offset,
        decreases n + 1 - k,
    {
        if offs[k] == offset {
            return true;
        }
        k += 1;
    }
    false
}

pub open spec fn min_int(a: int, b: int) -> int {
    if a < b {
        a
    } else {
        b
    }
}

impl InputView {
    /// The state after a press of the mouse button `click_count` times at
    /// `offset`: a double click selects the word there, a triple click
    /// everything, and a single click places the caret, or with shift
    /// extends the selection.
    pub open spec fn mouse_down(self, click_count: int, shift: bool, offset: int) -> InputView {
        let v = InputView { selecting: true, focus_select: false, ..self };
        if click_count > 1 {
            if click_count % 2 == 0 {
                InputView {
                    selected: (
                        previous_word_boundary_spec(self.value, offset),
                        next_word_boundary_spec(self.value, offset),
                    ),
                    reversed: false,
                    ..v
                }
            } else {
                v.move_to(0).select_to(byte_len(self.value) as int)
            }
        } else if shift {
            v.select_to(offset)
        } else {
            v.move_to(offset)
        }
    }

    /// A masked value shown in full fits in `usize`, even with every grapheme a single byte.
    pub open spec fn display_fits(self) -> bool {
        byte_len(self.value) * (byte_len(self.mask) + 1) <= usize::MAX
    }

    /// Offset in the shown text of offset `a` of the value: unmasked the
    /// same; masked, each grapheme counts as one mask, and composed text
    /// counts as itself.
    pub open spec fn actual_to_display(self, a: int) -> int {
        if !self.masked {
            a
        } else {
            let ml = byte_len(self.mask) as int;
            match self.marked {
                Some(m) => if a <= m.0 {
                    graphemes_in(self.value, (0, a)) * ml
                } else if a <= m.1 {
                    graphemes_in(self.value, (0, m.0)) * ml + (a - m.0)
                } else {
                    graphemes_in(self.value, (0, m.0)) * ml + (m.1 - m.0) + graphemes_in(
                        self.value,
                        (m.1, a),
                    ) * ml
                },
                None => graphemes_in(self.value, (0, a)) * ml,
            }
        }
    }

    /// Offset of the value shown at offset `d`: masked, the grapheme
    /// boundary under the mask that `d` falls in (offsets past the end go
    /// to the end), composed text counting as itself.
    pub open spec fn display_to_actual(self, d: int) -> int {
        if !self.masked || self.mask.len() == 0 {
            d
        } else {
            let ml = byte_len(self.mask) as int;
            match self.marked {
                Some(m) => {
                    let before = graphemes_in(self.value, (0, m.0));
                    let masked_before_end = before * ml;
                    let marked_end = masked_before_end + (m.1 - m.0);
                    if d <= masked_before_end {
                        grapheme_to_byte_spec(self.value, min_int(d / ml, before))
                    } else if d <= marked_end {
                        m.0 + (d - masked_before_end)
                    } else {
                        let suffix = span(self.value, (m.1, byte_len(self.value) as int));
                        m.1 + grapheme_to_byte_spec(
                            suffix,
                            min_int((d - marked_end) / ml, grapheme_starts(suffix).len() as int),
                        )
                    }
                },
                None => grapheme_to_byte_spec(
                    self.value,
                    min_int(d / ml, grapheme_starts(self.value).len() as int),
                ),
            }
        }
    }
}

/// A byte range in UTF-16 offsets, and whether the caret is at its start.
pub struct Utf16Selection {
    pub range: Range<usize>,
    pub reversed: bool,
}

/// `t` repeated `n` times.
pub open spec fn repeat_text(t: Seq<char>, n: nat) -> Seq<char>
    decreases n,
{
    if n == 0 {
        Seq::empty()
    } else {
        repeat_text(t, (n - 1) as nat) + t
    }
}

impl InputView {
    /// The text to show, and whether it is the placeholder: the placeholder
    /// for an empty value, the value itself unmasked, and masked one mask
    /// per grapheme outside the composed text.
    pub open spec fn display_text(self) -> (Seq<char>, bool) {
        if self.value.len() == 0 {
            (self.placeholder, true)
        } else if !self.masked {
            (self.value, false)
        } else if self.mask.len() == 0 {
            (Seq::empty(), false)
        } else {
            let n = match self.marked {
                Some(m) => graphemes_in(self.value, (0, m.0)) + graphemes_in(
                    self.value,
                    (m.1, byte_len(self.value) as int),
                ),
                None => grapheme_starts(self.value).len() as int,
            };
            (repeat_text(self.mask, n as nat), false)
        }
    }
}

/// A run of the shown text, by length, and whether it is underlined as
/// composed text.
pub struct TextRunSpan {
    pub len: usize,
    pub underlined: bool,
}

pub open spec fn run_view(r: TextRunSpan) -> (int, bool) {
    (r.len as int, r.underlined)
}

/// The runs a line of `display_len` bytes is drawn in: one plain run of
/// `base_len` when masked, with nothing composed, or with the composed
/// range outside the text; else the text before, inside and after the
/// composed range, the inside underlined, empty runs left out.
pub open spec fn text_runs_spec(
    display_len: int,
    base_len: int,
    marked: Option<(int, int)>,
    masked: bool,
) -> Seq<(int, bool)> {
    match marked {
        Some(m) => if masked || m.0 >= display_len || m.1 > display_len {
            seq![(base_len, false)]
        } else {
            (if m.0 > 0 {
                seq![(m.0, false)]
            } else {
                Seq::empty()
            }) + (if m.1 - m.0 > 0 {
                seq![(m.1 - m.0, true)]
            } else {
                Seq::empty()
            }) + (if display_len - m.1 > 0 {
                seq![(display_len - m.1, false)]
            } else {
                Seq::empty()
            })
        },
        None => seq![(base_len, false)],
    }
}

/// Bounds the products that masking computes.
proof fn lemma_masked_fits(b: int, a: int, extra: int, len: int, ml: int)
    requires
        0 <= b,
        0 <= a,
        0 <= extra,
        0 <= ml,
        b + a + extra <= len,
        len * (ml + 1) <= usize::MAX,
    ensures
        0 <= b * ml,
        0 <= a * ml,
        b * ml + extra + a * ml <= usize::MAX,
        b * ml + a * ml <= len * ml,
{
    assert(b * ml + a * ml == (b + a) * ml) by (nonlinear_arith);
    assert((b + a) * ml <= len * ml) by (nonlinear_arith)
        requires
            b + a <= len,
            0 <= ml,
    ;
    assert(len * (ml + 1) == len * ml + len) by (nonlinear_arith);
    assert(0 <= b * ml) by (nonlinear_arith)
        requires
            0 <= b,
            0 <= ml,
    ;
    assert(0 <= a * ml) by (nonlinear_arith)
        requires
            0 <= a,
            0 <= ml,
    ;
}

/// `text` repeated `n` times.
fn repeat_str(text: &str, n: usize) -> (r: String)
    requires
        byte_len(text@) * n <= usize::MAX,
    ensures
        r@ == repeat_text(text@, n as nat),
{
    let mut r = String::new();
    let mut i: usize = 0;
    while i < n
        invariant
            i <= n,
            r@ == repeat_text(text@, i as nat),
        decreases n - i,
    {
        r.append(text);
        i += 1;
    }
    r
}

/// The runs the shown text is drawn in, as lengths with the composed part
/// underlined.
pub fn create_text_runs(
    display_text: &str,
    base_len: usize,
    marked_range: Option<Range<usize>>,
    is_masked: bool,
) -> (runs: Vec<TextRunSpan>)
    requires
        marked_range matches Some(m) ==> m.start <= m.end,
    ensures
        runs@.map_values(|r: TextRunSpan| run_view(r)) == text_runs_spec(
            byte_len(display_text@) as int,
            base_len as int,
            option_range_view(marked_range),
            is_masked,
        ),
{
    let display_len = text_len(display_text);
    let mut runs: Vec<TextRunSpan> = Vec::new();
    match marked_range {
        Some(m) => {
            if is_masked || m.start >= display_len || m.end > display_len {
                runs.push(TextRunSpan { len: base_len, underlined: false });
            } else {
                if m.start > 0 {
                    runs.push(TextRunSpan { len: m.start, underlined: false });
                }
                if m.end - m.start > 0 {
                    runs.push(TextRunSpan { len: m.end - m.start, underlined: true });
                }
                if display_len - m.end > 0 {
                    runs.push(TextRunSpan { len: display_len - m.end, underlined: false });
                }
            }
        },
        None => {
            runs.push(TextRunSpan { len: base_len, underlined: false });
        },
    }
    assert(runs@.map_values(|r: TextRunSpan| run_view(r)) =~= text_runs_spec(
        display_len as int,
        base_len as int,
        option_range_view(marked_range),
        is_masked,
    ));
    runs
}

/// Replacing the text just put in place of `r` by what `r` held gives the
/// text back.
proof fn lemma_splice_back(s: Seq<char>, r: (int, int), t: Seq<char>)
    requires
        range_of(s, r),
    ensures
        splice(splice(s, r, t), (r.0, r.0 + byte_len(t)), span(s, r)) == s,
{
    lemma_boundary_span(s, r.0, r.1);
    lemma_splice(s, r, t);
    let ka = chars_before(s, r.0) as int;
    let kb = chars_before(s, r.1) as int;
    let p = s.take(ka);
    let q = s.skip(kb);
    let n = splice(s, r, t);
    assert(n == p + t + q);
    lemma_byte_len_concat(p, t);
    assert(n.take((p.len() + t.len()) as int) =~= p + t);
    assert(byte_offset(n, (p.len() + t.len()) as int) == r.0 + byte_len(t));
    lemma_chars_before_boundary(n, (p.len() + t.len()) as int);
    assert(n.take(ka) =~= p);
    assert(n.skip((p.len() + t.len()) as int) =~= q);
    assert(p + s.subrange(ka, kb) + q =~= s);
}

/// Unmasked, offsets in the shown text are offsets of the value, both ways.
pub proof fn law_unmasked_display_identity(v: InputView, a: int, d: int)
    requires
        !v.masked,
    ensures
        v.actual_to_display(a) == a,
        v.display_to_actual(d) == d,
        v.display_to_actual(v.actual_to_display(a)) == a,
{
}

/// Every edit that changes something, made while not undoing or redoing,
/// is recorded: the history is the old one with the edit pushed, so there
/// is a step to undo (with room for one) and nothing left to redo.
pub proof fn law_nonempty_edit_recorded(v: InputView, r: (int, int), t: Seq<char>)
    requires
        !v.ignore_history,
        r.0 < r.1 || t.len() > 0,
    ensures
        v.replaced(r, t).history == v.history.push(v.change_for(r, t)),
        v.history.max_size > 0 ==> v.replaced(r, t).history.undo.len() > 0,
        v.replaced(r, t).history.redo.len() == 0,
{
    let c = v.change_for(r, t);
    law_push_keeps_newest_steps(v.history, c);
    if v.history.max_size > 0 && !v.history.merges(c) {
        if v.history.undo.len() >= v.history.max_size {
            assert(v.history.push(c).undo.len() == v.history.undo.len());
        }
    }
}

/// Undoing an edit that changes something and starts an undo step of its
/// own gives back the value from before it, with the replaced text
/// selected; redo right after puts the edit back.
pub proof fn law_undo_reverts_nonempty_edit(v: InputView, r: (int, int), t: Seq<char>)
    requires
        v.wf(),
        range_of(v.value, r),
        !v.ignore_history,
        r.0 < r.1 || t.len() > 0,
        !v.history.merges(v.change_for(r, t)),
        v.history.max_size > 0,
    ensures
        v.replaced(r, t).undo_result().value == v.value,
        v.replaced(r, t).undo_result().selected == r,
        v.replaced(r, t).undo_result().redo_result().value == splice(v.value, r, t),
{
    law_undo_reverts_edit(v, r, t);
    law_redo_restores_edit(v, r, t);
}

/// Undoing an edit that started an undo step of its own gives back the
/// value from before the edit, with the replaced text selected.
pub proof fn law_undo_reverts_edit(v: InputView, r: (int, int), t: Seq<char>)
    requires
        v.wf(),
        range_of(v.value, r),
        v.records(r, t),
        !v.history.merges(v.change_for(r, t)),
        v.history.max_size > 0,
    ensures
        v.replaced(r, t).undo_result().value == v.value,
        v.replaced(r, t).undo_result().selected == r,
{
    let c = v.change_for(r, t);
    let e = v.replaced(r, t);
    law_undo_after_push(v.history, c);
    assert(e.history.undo().1 == Some(c.inverse()));
    let inv = c.inverse();
    lemma_boundary_span(v.value, r.0, r.1);
    lemma_splice(v.value, r, t);
    assert(inv.start() == r.0);
    assert(inv.end() == r.0 + byte_len(t));
    assert(inv.text() == span(v.value, r)) by {
        if r.0 == r.1 {
            assert(span(v.value, r) =~= Seq::<char>::empty());
        }
    }
    let n = e.value;
    law_utf16_round_trip(n, r.0);
    law_utf16_round_trip(n, r.0 + byte_len(t));
    lemma_splice_back(v.value, r, t);
}

/// Redo right after such an undo puts the edit back.
pub proof fn law_redo_restores_edit(v: InputView, r: (int, int), t: Seq<char>)
    requires
        v.wf(),
        range_of(v.value, r),
        v.records(r, t),
        !v.history.merges(v.change_for(r, t)),
        v.history.max_size > 0,
    ensures
        v.replaced(r, t).undo_result().redo_result().value == splice(v.value, r, t),
{
    let c = v.change_for(r, t);
    let e = v.replaced(r, t);
    law_undo_reverts_edit(v, r, t);
    let u = e.undo_result();
    law_undo_after_push(v.history, c);
    let h1 = e.history.undo().0;
    assert(u.history == h1);
    assert(h1.redo.last() == e.history.undo.last());
    let hp = v.history.push(c);
    let up = v.history.undo.push(c);
    if up.len() > v.history.max_size {
        assert(up.drop_first().last() == c);
    }
    assert(hp.undo.last() == c);
    assert(u.history.redo().1 == Some(c));
    law_utf16_round_trip(v.value, r.0);
    law_utf16_round_trip(v.value, r.1);
    assert(c.text() == t);
}

/// State of a single-line text field.
pub struct InputState {
    value: String,
    emitted_value: String,
    placeholder: String,
    selected_range: Range<usize>,
    selection_reversed: bool,
    marked_range: Option<Range<usize>>,
    selecting: bool,
    should_auto_scroll: bool,
    masked: bool,
    mask: String,
    max_length: Option<usize>,
    history: History,
    ignore_history: bool,
    focus_select: bool,
}

pub open spec fn option_text(o: Option<String>) -> Option<Seq<char>> {
    match o {
        Some(s) => Some(s@),
        None => None,
    }
}

pub open spec fn range_view(r: Range<usize>) -> (int, int) {
    (r.start as int, r.end as int)
}

pub open spec fn option_range_view(r: Option<Range<usize>>) -> Option<(int, int)> {
    match r {
        Some(r) => Some(range_view(r)),
        None => None,
    }
}

impl View for InputState {
    type V = InputView;

    closed spec fn view(&self) -> InputView {
        InputView {
            value: self.value@,
            emitted_value: self.emitted_value@,
            placeholder: self.placeholder@,
            selected: range_view(self.selected_range),
            reversed: self.selection_reversed,
            marked: option_range_view(self.marked_range),
            selecting: self.selecting,
            auto_scroll: self.should_auto_scroll,
            masked: self.masked,
            mask: self.mask@,
            max_length: match self.max_length {
                Some(n) => Some(n as int),
                None => None,
            },
            history: self.history@,
            ignore_history: self.ignore_history,
            focus_select: self.focus_select,
        }
    }
}

impl InputState {
    pub open spec fn wf(&self) -> bool {
        self@.wf()
    }

    /// An empty field: caret at 0, no mask applied yet, an empty history
    /// of 100 steps, and selection of everything on focus.
    pub fn new() -> (s: Self)
        ensures
            s.wf(),
            s@ == (InputView {
                value: Seq::empty(),
                emitted_value: Seq::empty(),
                placeholder: Seq::empty(),
                selected: (0, 0),
                reversed: false,
                marked: None,
                selecting: false,
                auto_scroll: false,
                masked: false,
                mask: DEFAULT_MASK@,
                max_length: None,
                history: HistoryView {
                    undo: Seq::empty(),
                    redo: Seq::empty(),
                    max_size: 100,
                    can_merge: true,
                },
                ignore_history: false,
                focus_select: true,
            }),
    {
        let s = Self {
            value: String::new(),
            emitted_value: String::new(),
            placeholder: String::new(),
            selected_range: 0..0,
            selection_reversed: false,
            marked_range: None,
            selecting: false,
            should_auto_scroll: false,
            masked: false,
            mask: String::from_str(DEFAULT_MASK),
            max_length: None,
            history: History::new(),
            ignore_history: false,
            focus_select: true,
        };
        proof {
            lemma_ends_are_boundaries(s.value@);
            assert(s@.history.undo =~= Seq::<ChangeView>::empty());
            assert(s@.history.redo =~= Seq::<ChangeView>::empty());
        }
        s
    }

    pub fn value(&self) -> (r: &str)
        ensures
            r@ == self@.value,
    {
        self.value.as_str()
    }

    pub fn placeholder(&self) -> (r: &str)
        ensures
            r@ == self@.placeholder,
    {
        self.placeholder.as_str()
    }

    pub fn mask(&self) -> (r: &str)
        ensures
            r@ == self@.mask,
    {
        self.mask.as_str()
    }

    pub fn is_masked(&self) -> (r: bool)
        ensures
            r == self@.masked,
    {
        self.masked
    }

    pub fn selected_range(&self) -> (r: Range<usize>)
        ensures
            range_view(r) == self@.selected,
    {
        self.selected_range.start..self.selected_range.end
    }

    pub fn selection_reversed(&self) -> (r: bool)
        ensures
            r == self@.reversed,
    {
        self.selection_reversed
    }

    pub fn marked_range(&self) -> (r: Option<Range<usize>>)
        ensures
            option_range_view(r) == self@.marked,
    {
        match &self.marked_range {
            Some(m) => Some(m.start..m.end),
            None => None,
        }
    }

    pub fn should_auto_scroll(&self) -> (r: bool)
        ensures
            r == self@.auto_scroll,
    {
        self.should_auto_scroll
    }

    pub fn max_length(&self) -> (r: Option<usize>)
        ensures
            match r {
                Some(n) => self@.max_length == Some(n as int),
                None => self@.max_length is None,
            },
    {
        self.max_length
    }

    /// Limit the value to `max_length` graphemes; typed or pasted text
    /// that does not fit is cut.
    pub fn set_max_length(&mut self, max_length: Option<usize>)
        requires
            old(self).wf(),
        ensures
            final(self).wf(),
            final(self)@ == old(self)@.with_max_length(max_length),
    {
        self.max_length = max_length;
    }

    /// Set the placeholder text; `None` clears it.
    pub fn set_placeholder(&mut self, placeholder: Option<String>)
        requires
            old(self).wf(),
        ensures
            final(self).wf(),
            final(self)@ == old(self)@.with_placeholder(option_text(placeholder)),
    {
        match placeholder {
            Some(p) => {
                self.placeholder = p;
            },
            None => {
                self.placeholder = String::new();
            },
        }
    }

    /// Set the value of the text field. A new value also becomes the value
    /// last reported as changed, and clears the undo history; the same
    /// value, or `None`, changes nothing.
    pub fn set_value(&mut self, value: Option<String>)
        requires
            old(self).wf(),
            old(self)@.value_fits(option_text(value)),
        ensures
            final(self).wf(),
            final(self)@ == old(self)@.with_value(option_text(value)),
    {
        if let Some(value) = value {
            if value != self.value {
                self.emitted_value = value.clone();
                self.value = value;
                self.history.clear();
            }
        }
    }

    /// Set the value as `set_value` does, whatever the selection: a
    /// selection that the new value cuts through becomes a caret at its end,
    /// and such a composed range is dropped.
    pub fn set_value_clamped(&mut self, value: Option<String>)
        requires
            old(self).wf(),
        ensures
            final(self).wf(),
            final(self)@ == old(self)@.with_value_clamped(option_text(value)),
    {
        if let Some(v) = value {
            if !fits_range(v.as_str(), &self.selected_range) {
                let n = text_len(v.as_str());
                proof {
                    lemma_ends_are_boundaries(v@);
                }
                self.selected_range = n..n;
            }
            let keep = match &self.marked_range {
                Some(m) => fits_range(v.as_str(), m),
                None => true,
            };
            if !keep {
                self.marked_range = None;
            }
            if v != self.value {
                self.emitted_value = v.clone();
                self.value = v;
                self.history.clear();
            }
        }
    }

    /// Mask or unmask the text field (e.g., for passwords)
    pub fn set_masked(&mut self, masked: bool)
        requires
            old(self).wf(),
        ensures
            final(self).wf(),
            final(self)@ == old(self)@.with_masked(masked),
    {
        if self.masked != masked {
            self.masked = masked;
            self.should_auto_scroll = true;
        }
    }

    /// Set the mask string to use when masking is enabled
    ///
    /// Each grapheme of the actual text is shown as the entire mask string
    /// when masking is enabled. `None` restores the default mask.
    pub fn set_mask(&mut self, mask: Option<String>)
        requires
            old(self).wf(),
        ensures
            final(self).wf(),
            final(self)@ == old(self)@.with_mask(option_text(mask)),
    {
        match mask {
            Some(mask) => {
                if self.mask != mask {
                    self.mask = mask;
                    if self.masked {
                        self.should_auto_scroll = true;
                    }
                }
            },
            None => {
                self.mask = String::from_str(DEFAULT_MASK);
            },
        }
    }

    /// Get the current cursor offset
    pub fn cursor_offset(&self) -> (r: usize)
        ensures
            r == self@.cursor(),
    {
        if self.selection_reversed {
            self.selected_range.start
        } else {
            self.selected_range.end
        }
    }

    /// Move cursor to a specific offset, clamped to the value's length.
    pub fn move_to(&mut self, offset: usize)
        requires
            old(self).wf(),
            is_char_boundary_of(old(self)@.value, offset as int) || offset >= byte_len(
                old(self)@.value,
            ),
        ensures
            final(self).wf(),
            final(self)@ == old(self)@.move_to(offset as int),
    {
        proof {
            lemma_ends_are_boundaries(self@.value);
        }
        let len = text_len(self.value.as_str());
        let offset = if offset > len {
            len
        } else {
            offset
        };
        if offset != self.cursor_offset() {
            self.should_auto_scroll = true;
            self.history.prevent_merge();
        }
        self.selected_range = offset..offset;
    }

    /// Extend selection to a specific offset
    pub fn select_to(&mut self, offset: usize)
        requires
            old(self).wf(),
            is_char_boundary_of(old(self)@.value, offset as int),
        ensures
            final(self).wf(),
            final(self)@ == old(self)@.select_to(offset as int),
    {
        proof {
            lemma_boundary_index(self@.value, offset as int);
        }
        if self.selection_reversed {
            self.selected_range.start = offset;
        } else {
            self.selected_range.end = offset;
        }
        if self.selected_range.end < self.selected_range.start {
            self.selection_reversed = !self.selection_reversed;
            self.selected_range = self.selected_range.end..self.selected_range.start;
        }
        self.should_auto_scroll = true;
    }

    /// Move cursor left by one grapheme cluster, or to the start of the selection
    pub fn left(&mut self)
        requires
            old(self).wf(),
        ensures
            final(self).wf(),
            final(self)@ == if old(self)@.selected.0 == old(self)@.selected.1 {
                old(self)@.move_to(previous_boundary_spec(old(self)@.value, old(self)@.cursor()))
            } else {
                old(self)@.move_to(old(self)@.selected.0)
            },
    {
        if self.selected_range.start == self.selected_range.end {
            let offset = TextOps::previous_boundary(self.value.as_str(), self.cursor_offset());
            self.move_to(offset);
        } else {
            let offset = self.selected_range.start;
            self.move_to(offset);
        }
    }

    /// Move cursor right by one grapheme cluster, or to the end of the selection
    pub fn right(&mut self)
        requires
            old(self).wf(),
        ensures
            final(self).wf(),
            final(self)@ == if old(self)@.selected.0 == old(self)@.selected.1 {
                old(self)@.move_to(next_boundary_spec(old(self)@.value, old(self)@.selected.1))
            } else {
                old(self)@.move_to(old(self)@.selected.1)
            },
    {
        if self.selected_range.start == self.selected_range.end {
            let offset = TextOps::next_boundary(self.value.as_str(), self.selected_range.end);
            self.move_to(offset);
        } else {
            let offset = self.selected_range.end;
            self.move_to(offset);
        }
    }

    /// Move cursor left by one word
    pub fn word_left(&mut self)
        requires
            old(self).wf(),
        ensures
            final(self).wf(),
            final(self)@ == old(self)@.move_to(
                previous_word_boundary_spec(old(self)@.value, old(self)@.cursor()),
            ),
    {
        let offset = TextOps::previous_word_boundary(self.value.as_str(), self.cursor_offset());
        self.move_to(offset);
    }

    /// Move cursor right by one word
    pub fn word_right(&mut self)
        requires
            old(self).wf(),
        ensures
            final(self).wf(),
            final(self)@ == old(self)@.move_to(
                next_word_boundary_spec(old(self)@.value, old(self)@.cursor()),
            ),
    {
        let offset = TextOps::next_word_boundary(self.value.as_str(), self.cursor_offset());
        self.move_to(offset);
    }

    /// Move cursor to the beginning of the field
    pub fn home(&mut self)
        requires
            old(self).wf(),
        ensures
            final(self).wf(),
            final(self)@ == old(self)@.move_to(0),
    {
        proof {
            lemma_ends_are_boundaries(self@.value);
        }
        self.move_to(0);
    }

    /// Move cursor to the end of the field
    pub fn end(&mut self)
        requires
            old(self).wf(),
        ensures
            final(self).wf(),
            final(self)@ == old(self)@.move_to(byte_len(old(self)@.value) as int),
    {
        let len = text_len(self.value.as_str());
        self.move_to(len);
    }

    /// Extend selection left by one grapheme cluster
    pub fn select_left(&mut self)
        requires
            old(self).wf(),
        ensures
            final(self).wf(),
            final(self)@ == old(self)@.select_to(
                previous_boundary_spec(old(self)@.value, old(self)@.cursor()),
            ),
    {
        let offset = TextOps::previous_boundary(self.value.as_str(), self.cursor_offset());
        self.select_to(offset);
    }

    /// Extend selection right by one grapheme cluster
    pub fn select_right(&mut self)
        requires
            old(self).wf(),
        ensures
            final(self).wf(),
            final(self)@ == old(self)@.select_to(
                next_boundary_spec(old(self)@.value, old(self)@.cursor()),
            ),
    {
        let offset = TextOps::next_boundary(self.value.as_str(), self.cursor_offset());
        self.select_to(offset);
    }

    /// Extend selection left by one word; the next edit starts a new undo step.
    pub fn select_word_left(&mut self)
        requires
            old(self).wf(),
        ensures
            final(self).wf(),
            final(self)@ == old(self)@.no_merge().select_to(
                previous_word_boundary_spec(old(self)@.value, old(self)@.cursor()),
            ),
    {
        let offset = TextOps::previous_word_boundary(self.value.as_str(), self.cursor_offset());
        self.history.prevent_merge();
        self.select_to(offset);
    }

    /// Extend selection right by one word; the next edit starts a new undo step.
    pub fn select_word_right(&mut self)
        requires
            old(self).wf(),
        ensures
            final(self).wf(),
            final(self)@ == old(self)@.no_merge().select_to(
                next_word_boundary_spec(old(self)@.value, old(self)@.cursor()),
            ),
    {
        let offset = TextOps::next_word_boundary(self.value.as_str(), self.cursor_offset());
        self.history.prevent_merge();
        self.select_to(offset);
    }

    /// Select from cursor to beginning of field
    pub fn select_to_beginning(&mut self)
        requires
            old(self).wf(),
        ensures
            final(self).wf(),
            final(self)@ == old(self)@.select_to(0),
    {
        proof {
            lemma_ends_are_boundaries(self@.value);
        }
        self.select_to(0);
    }

    /// Select from cursor to end of field
    pub fn select_to_end(&mut self)
        requires
            old(self).wf(),
        ensures
            final(self).wf(),
            final(self)@ == old(self)@.select_to(byte_len(old(self)@.value) as int),
    {
        proof {
            lemma_ends_are_boundaries(self@.value);
        }
        let len = text_len(self.value.as_str());
        self.select_to(len);
    }

    /// Select all text in the field
    pub fn select_all(&mut self)
        requires
            old(self).wf(),
        ensures
            final(self).wf(),
            final(self)@ == old(self)@.move_to(0).select_to(byte_len(old(self)@.value) as int),
    {
        proof {
            lemma_ends_are_boundaries(self@.value);
        }
        self.move_to(0);
        let len = text_len(self.value.as_str());
        self.select_to(len);
    }

    /// Records replacing `range` by `new_text` in the undo history, unless
    /// undoing or redoing, or the edit is empty at the start.
    fn push_history(&mut self, new_text: &str, range: &Range<usize>)
        requires
            old(self).wf(),
            range_of(old(self)@.value, range_view(*range)),
            old(self)@.accepts_edit(range_view(*range), new_text@),
        ensures
            final(self).wf(),
            final(self)@ == (InputView {
                history: old(self)@.history_after(range_view(*range), new_text@),
                ..old(self)@
            }),
    {
        if self.ignore_history {
            return ;
        }
        if range.start == 0 && range.end == 0 && new_text.is_empty() {
            return ;
        }
        let marked = self.marked_range.is_some();
        if range.start == range.end {
            self.history.push(
                Change::Insert { range: range.start..range.end, text: String::from_str(new_text) },
            );
        } else if new_text.is_empty() {
            let old_text = byte_slice(self.value.as_str(), range.start, range.end);
            self.history.push(
                Change::Delete { range: range.start..range.end, text: String::from_str(old_text) },
            );
        } else {
            let old_text = byte_slice(self.value.as_str(), range.start, range.end);
            self.history.push(
                Change::Replace {
                    range: range.start..range.end,
                    old_text: String::from_str(old_text),
                    new_text: String::from_str(new_text),
                    marked,
                },
            );
        }
    }

    /// The text to enter, the value after entering it, and the range it
    /// replaces; `None` when a length limit leaves no room.
    fn plan_replace(&self, range_utf16: &Option<Range<usize>>, new_text: &str) -> (res: Option<
        (String, String, Range<usize>),
    >)
        requires
            self.wf(),
            self@.replace_ok(option_range_view(*range_utf16), new_text@),
        ensures
            match res {
                Some(p) => {
                    &&& self@.fitted_text(
                        self@.target_range(option_range_view(*range_utf16)),
                        new_text@,
                    ) == Some(p.0@)
                    &&& range_view(p.2) == self@.target_range(option_range_view(*range_utf16))
                    &&& range_of(self@.value, range_view(p.2))
                    &&& p.1@ == splice(self@.value, range_view(p.2), p.0@)
                    &&& byte_len(p.0@) <= byte_len(new_text@)
                    &&& self@.accepts_edit(range_view(p.2), p.0@)
                },
                None => self@.fitted_text(
                    self@.target_range(option_range_view(*range_utf16)),
                    new_text@,
                ) is None,
            },
    {
        let range: Range<usize> = match range_utf16 {
            Some(r) => TextOps::range_from_utf16(self.value.as_str(), r),
            None => match &self.marked_range {
                Some(m) => m.start..m.end,
                None => self.selected_range.start..self.selected_range.end,
            },
        };
        let ghost r = range_view(range);
        let _ = grapheme_count(new_text);
        let fitted: &str = if let Some(max_length) = self.max_length {
            if !new_text.is_empty() && !self.ignore_history {
                let total_len = grapheme_count(self.value.as_str());
                let range_len = grapheme_count(
                    byte_slice(self.value.as_str(), range.start, range.end),
                );
                let new_len = grapheme_count(new_text);
                let current_len = total_len - range_len;
                if current_len + new_len > max_length {
                    let available = if max_length > current_len {
                        max_length - current_len
                    } else {
                        0
                    };
                    if available == 0 {
                        return None;
                    }
                    let byte_offset = TextOps::grapheme_offset_to_byte_offset(new_text, available);
                    proof {
                        lemma_ends_are_boundaries(new_text@);
                    }
                    let head = byte_slice(new_text, 0, byte_offset);
                    assert(head@ =~= new_text@.take(
                        chars_before(new_text@, byte_offset as int) as int,
                    ));
                    head
                } else {
                    new_text
                }
            } else {
                new_text
            }
        } else {
            new_text
        };
        proof {
            lemma_fitted_accepted(self@, r, new_text@);
        }
        let new_value = splice_text(self.value.as_str(), range.start, range.end, fitted);
        Some((String::from_str(fitted), new_value, range))
    }

    /// Replace the text in a UTF-16 range (else the composed text, else the
    /// selection) by `new_text`, cut to a length limit, and record the edit.
    /// Returns whether anything was entered.
    pub fn replace_text_in_range(&mut self, range_utf16: Option<Range<usize>>, new_text: &str) -> (applied: bool)
        requires
            old(self).wf(),
            old(self)@.replace_ok(option_range_view(range_utf16), new_text@),
        ensures
            final(self).wf(),
            final(self)@ == old(self)@.after_replace(option_range_view(range_utf16), new_text@),
            applied == (old(self)@.fitted_text(
                old(self)@.target_range(option_range_view(range_utf16)),
                new_text@,
            ) is Some),
    {
        match self.plan_replace(&range_utf16, new_text) {
            None => false,
            Some((t, v, range)) => {
                proof {
                    lemma_splice(self@.value, range_view(range), t@);
                }
                self.push_history(t.as_str(), &range);
                let new_cursor_pos = range.start + text_len(t.as_str());
                self.value = v;
                self.selected_range = new_cursor_pos..new_cursor_pos;
                self.marked_range = None;
                self.should_auto_scroll = true;
                true
            },
        }
    }

    /// Delete the composed text, or else the selection.
    fn delete_selected(&mut self)
        requires
            old(self).wf(),
            old(self)@.can_delete_selection(),
        ensures
            final(self).wf(),
            final(self)@ == old(self)@.delete_selection(),
    {
        let _ = text_len(self.value.as_str());
        proof {
            reveal_strlit("");
        }
        assert(""@ =~= Seq::<char>::empty());
        self.replace_text_in_range(None, "");
    }

    /// Delete the grapheme before the cursor, or the selection
    pub fn backspace(&mut self)
        requires
            old(self).wf(),
            old(self)@.extend_caret(
                previous_boundary_spec(old(self)@.value, old(self)@.cursor()),
            ).can_delete_selection(),
        ensures
            final(self).wf(),
            final(self)@ == old(self)@.extend_caret(
                previous_boundary_spec(old(self)@.value, old(self)@.cursor()),
            ).delete_selection(),
    {
        if self.selected_range.start == self.selected_range.end {
            let offset = TextOps::previous_boundary(self.value.as_str(), self.cursor_offset());
            self.select_to(offset);
        }
        self.delete_selected();
    }

    /// Delete the grapheme after the cursor, or the selection
    pub fn delete(&mut self)
        requires
            old(self).wf(),
            old(self)@.extend_caret(
                next_boundary_spec(old(self)@.value, old(self)@.cursor()),
            ).can_delete_selection(),
        ensures
            final(self).wf(),
            final(self)@ == old(self)@.extend_caret(
                next_boundary_spec(old(self)@.value, old(self)@.cursor()),
            ).delete_selection(),
    {
        if self.selected_range.start == self.selected_range.end {
            let offset = TextOps::next_boundary(self.value.as_str(), self.cursor_offset());
            self.select_to(offset);
        }
        self.delete_selected();
    }

    /// Delete the word before the cursor, or the selection, as a step of
    /// its own in the history.
    pub fn delete_word_left(&mut self)
        requires
            old(self).wf(),
            old(self)@.selected.0 == old(self)@.selected.1 ==> previous_word_boundary_spec(
                old(self)@.value,
                old(self)@.cursor(),
            ) <= old(self)@.cursor(),
            old(self)@.caret_to_range(
                (
                    previous_word_boundary_spec(old(self)@.value, old(self)@.cursor()),
                    old(self)@.cursor(),
                ),
            ).no_merge().can_delete_selection(),
        ensures
            final(self).wf(),
            final(self)@ == old(self)@.caret_to_range(
                (
                    previous_word_boundary_spec(old(self)@.value, old(self)@.cursor()),
                    old(self)@.cursor(),
                ),
            ).no_merge().delete_selection(),
    {
        if self.selected_range.start == self.selected_range.end {
            let cursor_pos = self.cursor_offset();
            let word_start = TextOps::previous_word_boundary(self.value.as_str(), cursor_pos);
            self.selected_range = word_start..cursor_pos;
        }
        self.history.prevent_merge();
        self.delete_selected();
    }

    /// Delete the word after the cursor, or the selection, as a step of its
    /// own in the history.
    #[verifier::rlimit(40)]
    pub fn delete_word_right(&mut self)
        requires
            old(self).wf(),
            old(self)@.caret_to_range(
                (
                    old(self)@.cursor(),
                    next_word_boundary_spec(old(self)@.value, old(self)@.cursor()),
                ),
            ).no_merge().can_delete_selection(),
        ensures
            final(self).wf(),
            final(self)@ == old(self)@.caret_to_range(
                (
                    old(self)@.cursor(),
                    next_word_boundary_spec(old(self)@.value, old(self)@.cursor()),
                ),
            ).no_merge().delete_selection(),
    {
        if self.selected_range.start == self.selected_range.end {
            let cursor_pos = self.cursor_offset();
            let word_end = TextOps::next_word_boundary(self.value.as_str(), cursor_pos);
            self.selected_range = cursor_pos..word_end;
        }
        self.history.prevent_merge();
        self.delete_selected();
    }

    /// Delete from cursor to beginning of text field
    pub fn delete_to_beginning(&mut self)
        requires
            old(self).wf(),
            old(self)@.caret_to_range((0, old(self)@.cursor())).can_delete_selection(),
        ensures
            final(self).wf(),
            final(self)@ == old(self)@.caret_to_range((0, old(self)@.cursor())).delete_selection(),
    {
        proof {
            lemma_ends_are_boundaries(self@.value);
        }
        if self.selected_range.start == self.selected_range.end {
            let cursor_pos = self.cursor_offset();
            self.selected_range = 0..cursor_pos;
        }
        self.delete_selected();
    }

    /// Delete from cursor to end of text field
    pub fn delete_to_end(&mut self)
        requires
            old(self).wf(),
            old(self)@.caret_to_range(
                (old(self)@.cursor(), byte_len(old(self)@.value) as int),
            ).can_delete_selection(),
        ensures
            final(self).wf(),
            final(self)@ == old(self)@.caret_to_range(
                (old(self)@.cursor(), byte_len(old(self)@.value) as int),
            ).delete_selection(),
    {
        proof {
            lemma_ends_are_boundaries(self@.value);
        }
        if self.selected_range.start == self.selected_range.end {
            let cursor_pos = self.cursor_offset();
            let len = text_len(self.value.as_str());
            self.selected_range = cursor_pos..len;
        }
        self.delete_selected();
    }

    /// The selected text, for the clipboard; `None` when nothing is selected.
    pub fn copy(&self) -> (r: Option<String>)
        requires
            self.wf(),
        ensures
            match r {
                Some(t) => self@.selected.0 < self@.selected.1 && t@ == span(
                    self@.value,
                    self@.selected,
                ),
                None => self@.selected.0 == self@.selected.1,
            },
    {
        if self.selected_range.start < self.selected_range.end {
            let text = byte_slice(
                self.value.as_str(),
                self.selected_range.start,
                self.selected_range.end,
            );
            Some(String::from_str(text))
        } else {
            None
        }
    }

    /// Take the selected text out, for the clipboard, as a step of its own
    /// in the history; `None` when nothing is selected.
    pub fn cut(&mut self) -> (r: Option<String>)
        requires
            old(self).wf(),
        ensures
            final(self).wf(),
            match r {
                Some(t) => {
                    &&& old(self)@.selected.0 < old(self)@.selected.1
                    &&& t@ == span(old(self)@.value, old(self)@.selected)
                    &&& final(self)@ == old(self)@.no_merge().delete_selection()
                },
                None => old(self)@.selected.0 == old(self)@.selected.1 && final(self)@ == old(
                    self,
                )@,
            },
    {
        if self.selected_range.start < self.selected_range.end {
            let text = String::from_str(
                byte_slice(self.value.as_str(), self.selected_range.start, self.selected_range.end),
            );
            let _ = text_len(self.value.as_str());
            self.history.prevent_merge();
            self.delete_selected();
            Some(text)
        } else {
            None
        }
    }

    /// Paste `text` with its line feeds turned into spaces, as a step of its
    /// own in the history. `None`, with nothing changed, when a length limit
    /// applies and the replaced text counts more graphemes than the whole
    /// value; else whether anything was entered.
    pub fn paste(&mut self, text: &str) -> (r: Option<bool>)
        requires
            old(self).wf(),
            byte_len(old(self)@.value) + byte_len(text@) <= usize::MAX,
        ensures
            final(self).wf(),
            match r {
                Some(applied) => {
                    &&& old(self)@.counts_fit(old(self)@.target_range(None), single_line(text@))
                    &&& final(self)@ == old(self)@.no_merge().after_replace(None, single_line(text@))
                    &&& applied == (old(self)@.fitted_text(
                        old(self)@.target_range(None),
                        single_line(text@),
                    ) is Some)
                },
                None => !old(self)@.counts_fit(old(self)@.target_range(None), single_line(text@))
                    && final(self)@ == old(self)@,
            },
    {
        let line = to_single_line(text);
        proof {
            lemma_single_line_len(text@);
        }
        if !self.counts_fit_now(line.as_str()) {
            return None;
        }
        self.history.prevent_merge();
        Some(self.replace_text_in_range(None, line.as_str()))
    }

    /// Whether the grapheme counts compared under a length limit can be
    /// taken for replacing the composed text, or else the selection, by `t`.
    fn counts_fit_now(&self, t: &str) -> (b: bool)
        requires
            self.wf(),
        ensures
            b == self@.counts_fit(self@.target_range(None), t@),
    {
        if self.max_length.is_some() && !t.is_empty() && !self.ignore_history {
            let range = match &self.marked_range {
                Some(m) => m.start..m.end,
                None => self.selected_range.start..self.selected_range.end,
            };
            let total_len = grapheme_count(self.value.as_str());
            let range_len = grapheme_count(byte_slice(self.value.as_str(), range.start, range.end));
            range_len <= total_len
        } else {
            true
        }
    }

    /// Revert the last undo step and select the text it brings back.
    pub fn undo(&mut self)
        requires
            old(self).wf(),
            !old(self)@.ignore_history,
            old(self)@.undo_ok(),
        ensures
            final(self).wf(),
            final(self)@ == old(self)@.undo_result(),
    {
        self.ignore_history = true;
        let ghost pre = self@;
        if let Some(change) = self.history.undo() {
            proof {
                assert(Some(change@) == pre.history.undo().1);
            }
            let range = change.range();
            proof {
                law_offset_to_utf16_monotone(self@.value, range.start as int, range.end as int);
            }
            let range_utf16 = TextOps::range_to_utf16(self.value.as_str(), &range);
            let text = change.text();
            self.replace_text_in_range(Some(range_utf16), text.as_str());
            let _ = text_len(self.value.as_str());
            self.selected_range = change.selection_range();
        }
        self.ignore_history = false;
    }

    /// Undo when the state allows it (see `undo_ok`); returns whether it
    /// did, and otherwise leaves the state as it is.
    pub fn try_undo(&mut self) -> (done: bool)
        requires
            old(self).wf(),
        ensures
            final(self).wf(),
            done == (!old(self)@.ignore_history && old(self)@.undo_ok()),
            done ==> final(self)@ == old(self)@.undo_result(),
            !done ==> final(self)@ == old(self)@,
    {
        if self.ignore_history {
            return false;
        }
        let ok = match self.history.next_undo() {
            None => true,
            Some(c) => {
                let t = c.text();
                let len = text_len(self.value.as_str());
                let tl = text_len(t.as_str());
                if len > usize::MAX - tl {
                    false
                } else {
                    let range = c.range();
                    proof {
                        law_offset_to_utf16_monotone(self@.value, range.start as int, range.end as int);
                    }
                    let u = TextOps::range_to_utf16(self.value.as_str(), &range);
                    let r = self.target_range_now(&Some(u));
                    let nv = splice_text(self.value.as_str(), r.start, r.end, t.as_str());
                    let _ = text_len(nv.as_str());
                    if range.start > usize::MAX - tl {
                        false
                    } else {
                        let sel = range.start..range.start + tl;
                        fits_range(nv.as_str(), &sel)
                    }
                }
            },
        };
        if ok {
            self.undo();
        }
        ok
    }

    /// Redo when the state allows it (see `redo_ok`); returns whether it
    /// did, and otherwise leaves the state as it is.
    pub fn try_redo(&mut self) -> (done: bool)
        requires
            old(self).wf(),
        ensures
            final(self).wf(),
            done == (!old(self)@.ignore_history && old(self)@.redo_ok()),
            done ==> final(self)@ == old(self)@.redo_result(),
            !done ==> final(self)@ == old(self)@,
    {
        if self.ignore_history {
            return false;
        }
        let ok = match self.history.next_redo() {
            None => true,
            Some(c) => {
                let t = c.text();
                let len = text_len(self.value.as_str());
                let tl = text_len(t.as_str());
                len <= usize::MAX - tl
            },
        };
        if ok {
            self.redo();
        }
        ok
    }

    /// Apply the last undone step again.
    pub fn redo(&mut self)
        requires
            old(self).wf(),
            !old(self)@.ignore_history,
            old(self)@.redo_ok(),
        ensures
            final(self).wf(),
            final(self)@ == old(self)@.redo_result(),
    {
        self.ignore_history = true;
        if let Some(change) = self.history.redo() {
            let range = change.range();
            proof {
                law_offset_to_utf16_monotone(self@.value, range.start as int, range.end as int);
            }
            let range_utf16 = TextOps::range_to_utf16(self.value.as_str(), &range);
            let text = change.text();
            self.replace_text_in_range(Some(range_utf16), text.as_str());
        }
        self.ignore_history = false;
    }

    /// Replace the text in a UTF-16 range (else the composed text, else the
    /// selection) by `new_text`, cut to a length limit, record the edit, and
    /// mark the entered text as being composed. The selection becomes
    /// `new_selected_range_utf16`, taken in the new value and moved by the
    /// start of the replaced range, or a caret after the entered text.
    /// Returns whether anything was entered.
    pub fn replace_and_mark_text_in_range(
        &mut self,
        range_utf16: Option<Range<usize>>,
        new_text: &str,
        new_selected_range_utf16: Option<Range<usize>>,
    ) -> (applied: bool)
        requires
            old(self).wf(),
            old(self)@.replace_ok(option_range_view(range_utf16), new_text@),
            old(self)@.mark_selection_ok(
                option_range_view(range_utf16),
                new_text@,
                option_range_view(new_selected_range_utf16),
            ),
        ensures
            final(self).wf(),
            final(self)@ == old(self)@.after_replace_and_mark(
                option_range_view(range_utf16),
                new_text@,
                option_range_view(new_selected_range_utf16),
            ),
            applied == (old(self)@.fitted_text(
                old(self)@.target_range(option_range_view(range_utf16)),
                new_text@,
            ) is Some),
    {
        match self.plan_replace(&range_utf16, new_text) {
            None => false,
            Some((t, v, range)) => {
                self.commit_mark(t, v, range, &new_selected_range_utf16);
                true
            },
        }
    }

    /// Enter a planned composition: record it, take the new value, mark the
    /// entered text and place the selection.
    fn commit_mark(&mut self, t: String, v: String, range: Range<usize>, sel: &Option<Range<usize>>)
        requires
            old(self).wf(),
            range_of(old(self)@.value, range_view(range)),
            v@ == splice(old(self)@.value, range_view(range), t@),
            old(self)@.accepts_edit(range_view(range), t@),
            range_of(v@, old(self)@.mark_selection(range_view(range), t@, option_range_view(*sel))),
        ensures
            final(self).wf(),
            final(self)@ == old(self)@.replaced_and_marked(
                range_view(range),
                t@,
                option_range_view(*sel),
            ),
    {
        proof {
            lemma_splice(self@.value, range_view(range), t@);
            if t@.len() > 0 {
                lemma_positive_len(t@);
            }
        }
        self.push_history(t.as_str(), &range);
        self.value = v;
        let len = text_len(self.value.as_str());
        let tlen = text_len(t.as_str());
        if tlen > 0 {
            self.marked_range = Some(range.start..range.start + tlen);
        } else {
            self.marked_range = None;
        }
        self.selected_range = match sel {
            Some(r) => {
                let nr = TextOps::range_from_utf16(self.value.as_str(), r);
                (nr.start + range.start)..(nr.end + range.start)
            },
            None => {
                let pos = range.start + tlen;
                pos..pos
            },
        };
        self.should_auto_scroll = true;
    }

    /// The byte range an edit replaces: the given UTF-16 range, else the
    /// composed text, else the selection.
    fn target_range_now(&self, range_utf16: &Option<Range<usize>>) -> (r: Range<usize>)
        requires
            self.wf(),
            range_utf16 matches Some(u) ==> u.start <= u.end,
        ensures
            range_view(r) == self@.target_range(option_range_view(*range_utf16)),
            range_of(self@.value, range_view(r)),
    {
        match range_utf16 {
            Some(r) => TextOps::range_from_utf16(self.value.as_str(), r),
            None => match &self.marked_range {
                Some(m) => m.start..m.end,
                None => self.selected_range.start..self.selected_range.end,
            },
        }
    }

    /// Whether the grapheme counts compared under a length limit can be
    /// taken for replacing `range` by `t`.
    fn counts_fit_at(&self, range: &Range<usize>, t: &str) -> (b: bool)
        requires
            self.wf(),
            range_of(self@.value, range_view(*range)),
        ensures
            b == self@.counts_fit(range_view(*range), t@),
    {
        if self.max_length.is_some() && !t.is_empty() && !self.ignore_history {
            let total_len = grapheme_count(self.value.as_str());
            let range_len = grapheme_count(byte_slice(self.value.as_str(), range.start, range.end));
            range_len <= total_len
        } else {
            true
        }
    }

    /// `replace_text_in_range` where the grapheme counts can be compared;
    /// `None`, with nothing changed, where a length limit applies and the
    /// replaced text counts more graphemes than the whole value.
    pub fn try_replace_text_in_range(&mut self, range_utf16: Option<Range<usize>>, new_text: &str) -> (r: Option<bool>)
        requires
            old(self).wf(),
            range_utf16 matches Some(u) ==> u.start <= u.end,
            byte_len(old(self)@.value) + byte_len(new_text@) <= usize::MAX,
            old(self)@.accepts_edit(old(self)@.target_range(option_range_view(range_utf16)), new_text@),
        ensures
            final(self).wf(),
            match r {
                Some(applied) => {
                    &&& old(self)@.counts_fit(old(self)@.target_range(option_range_view(range_utf16)), new_text@)
                    &&& final(self)@ == old(self)@.after_replace(option_range_view(range_utf16), new_text@)
                    &&& applied == (old(self)@.fitted_text(
                        old(self)@.target_range(option_range_view(range_utf16)),
                        new_text@,
                    ) is Some)
                },
                None => !old(self)@.counts_fit(old(self)@.target_range(option_range_view(range_utf16)), new_text@)
                    && final(self)@ == old(self)@,
            },
    {
        let range = self.target_range_now(&range_utf16);
        if !self.counts_fit_at(&range, new_text) {
            return None;
        }
        Some(self.replace_text_in_range(range_utf16, new_text))
    }

    /// `replace_and_mark_text_in_range` where it can work; `None`, with
    /// nothing changed, where a length limit applies and the replaced text
    /// counts more graphemes than the whole value, or where the selection it
    /// would leave is not an ordered range of character boundaries.
    pub fn try_replace_and_mark_text_in_range(
        &mut self,
        range_utf16: Option<Range<usize>>,
        new_text: &str,
        new_selected_range_utf16: Option<Range<usize>>,
    ) -> (r: Option<bool>)
        requires
            old(self).wf(),
            range_utf16 matches Some(u) ==> u.start <= u.end,
            byte_len(old(self)@.value) + byte_len(new_text@) <= usize::MAX,
            old(self)@.accepts_edit(old(self)@.target_range(option_range_view(range_utf16)), new_text@),
        ensures
            final(self).wf(),
            match r {
                Some(applied) => {
                    &&& old(self)@.counts_fit(old(self)@.target_range(option_range_view(range_utf16)), new_text@)
                    &&& old(self)@.mark_selection_ok(
                        option_range_view(range_utf16),
                        new_text@,
                        option_range_view(new_selected_range_utf16),
                    )
                    &&& final(self)@ == old(self)@.after_replace_and_mark(
                        option_range_view(range_utf16),
                        new_text@,
                        option_range_view(new_selected_range_utf16),
                    )
                    &&& applied == (old(self)@.fitted_text(
                        old(self)@.target_range(option_range_view(range_utf16)),
                        new_text@,
                    ) is Some)
                },
                None => final(self)@ == old(self)@ && !(old(self)@.counts_fit(
                    old(self)@.target_range(option_range_view(range_utf16)),
                    new_text@,
                ) && old(self)@.mark_selection_ok(
                    option_range_view(range_utf16),
                    new_text@,
                    option_range_view(new_selected_range_utf16),
                )),
            },
    {
        let range = self.target_range_now(&range_utf16);
        if !self.counts_fit_at(&range, new_text) {
            return None;
        }
        match self.plan_replace(&range_utf16, new_text) {
            None => Some(false),
            Some((t, v, range)) => {
                proof {
                    lemma_splice(self@.value, range_view(range), t@);
                }
                let sel_ok = match &new_selected_range_utf16 {
                    Some(u) => {
                        let nr = TextOps::range_from_utf16(v.as_str(), u);
                        let len = text_len(v.as_str());
                        if nr.start <= nr.end && nr.end <= len - range.start {
                            is_boundary(v.as_str(), nr.start + range.start) && is_boundary(
                                v.as_str(),
                                nr.end + range.start,
                            )
                        } else {
                            false
                        }
                    },
                    None => true,
                };
                if !sel_ok {
                    return None;
                }
                self.commit_mark(t, v, range, &new_selected_range_utf16);
                Some(true)
            },
        }
    }

    /// Select the word at the given offset
    fn select_word(&mut self, offset: usize)
        requires
            old(self).wf(),
            previous_word_boundary_spec(old(self)@.value, offset as int) <= next_word_boundary_spec(
                old(self)@.value,
                offset as int,
            ),
        ensures
            final(self).wf(),
            final(self)@ == (InputView {
                selected: (
                    previous_word_boundary_spec(old(self)@.value, offset as int),
                    next_word_boundary_spec(old(self)@.value, offset as int),
                ),
                reversed: false,
                ..old(self)@
            }),
    {
        let start = TextOps::previous_word_boundary(self.value.as_str(), offset);
        let end = TextOps::next_word_boundary(self.value.as_str(), offset);
        self.selected_range = start..end;
        self.selection_reversed = false;
    }

    /// Handle a press of the mouse button at `offset` of the value, the
    /// `click_count`-th in a row. Returns false, with nothing changed, for a
    /// double click where the word boundaries around `offset` come out in
    /// reverse order (possible inside a grapheme cluster).
    pub fn on_mouse_down(&mut self, click_count: usize, shift: bool, offset: usize) -> (r: bool)
        requires
            old(self).wf(),
            is_char_boundary_of(old(self)@.value, offset as int),
        ensures
            final(self).wf(),
            r == !(click_count > 1 && click_count % 2 == 0 && previous_word_boundary_spec(
                old(self)@.value,
                offset as int,
            ) > next_word_boundary_spec(old(self)@.value, offset as int)),
            r ==> final(self)@ == old(self)@.mouse_down(click_count as int, shift, offset as int),
            !r ==> final(self)@ == old(self)@,
    {
        if click_count > 1 && click_count % 2 == 0 {
            let start = TextOps::previous_word_boundary(self.value.as_str(), offset);
            let end = TextOps::next_word_boundary(self.value.as_str(), offset);
            if start > end {
                return false;
            }
        }
        self.selecting = true;
        self.focus_select = false;
        if click_count > 1 {
            if click_count % 2 == 0 {
                self.select_word(offset);
            } else {
                self.select_all();
            }
            return true;
        }
        if shift {
            self.select_to(offset);
        } else {
            self.move_to(offset);
        }
        true
    }

    /// Handle the release of the mouse button
    pub fn on_mouse_up(&mut self)
        requires
            old(self).wf(),
        ensures
            final(self).wf(),
            final(self)@ == (InputView { selecting: false, ..old(self)@ }),
    {
        self.selecting = false;
    }

    /// Handle the mouse moving over `offset` of the value: while the button
    /// is down, the selection follows it.
    pub fn on_mouse_move(&mut self, offset: usize)
        requires
            old(self).wf(),
            is_char_boundary_of(old(self)@.value, offset as int),
        ensures
            final(self).wf(),
            final(self)@ == if old(self)@.selecting {
                old(self)@.select_to(offset as int)
            } else {
                old(self)@
            },
    {
        if self.selecting {
            self.select_to(offset);
        }
    }

    /// The field got focus: everything is selected unless a click brought
    /// the focus, and the next focus selects again.
    pub fn on_focus(&mut self)
        requires
            old(self).wf(),
        ensures
            final(self).wf(),
            final(self)@ == (InputView {
                selected: if old(self)@.focus_select {
                    (0, byte_len(old(self)@.value) as int)
                } else {
                    old(self)@.selected
                },
                focus_select: true,
                ..old(self)@
            }),
    {
        proof {
            lemma_ends_are_boundaries(self@.value);
        }
        if self.focus_select {
            let len = text_len(self.value.as_str());
            self.selected_range = 0..len;
        }
        self.focus_select = true;
    }

    /// The field lost focus (`focused` tells whether the window still
    /// focuses it): the selection goes and the next edit starts a new undo
    /// step; a changed value is reported.
    pub fn on_blur(&mut self, focused: bool) -> (r: Option<String>)
        requires
            old(self).wf(),
        ensures
            final(self).wf(),
            ({
                let v = if focused {
                    old(self)@
                } else {
                    InputView { selected: (0, 0), ..old(self)@.no_merge() }
                };
                &&& final(self)@ == InputView { emitted_value: v.value, ..v }
                &&& match r {
                    Some(value) => value@ == v.value && v.value != v.emitted_value,
                    None => v.value == v.emitted_value,
                }
            }),
    {
        proof {
            lemma_ends_are_boundaries(self@.value);
        }
        if !focused {
            self.selected_range = 0..0;
            self.history.prevent_merge();
        }
        self.on_change()
    }

    /// Report the value when it differs from the value last reported.
    pub fn on_change(&mut self) -> (r: Option<String>)
        requires
            old(self).wf(),
        ensures
            final(self).wf(),
            final(self)@ == (InputView { emitted_value: old(self)@.value, ..old(self)@ }),
            match r {
                Some(value) => value@ == old(self)@.value && old(self)@.value
                    != old(self)@.emitted_value,
                None => old(self)@.value == old(self)@.emitted_value,
            },
    {
        if self.value == self.emitted_value {
            return None;
        }
        self.emitted_value = self.value.clone();
        Some(self.value.clone())
    }

    /// Enter reports a changed value.
    pub fn enter(&mut self) -> (r: Option<String>)
        requires
            old(self).wf(),
        ensures
            final(self).wf(),
            final(self)@ == (InputView { emitted_value: old(self)@.value, ..old(self)@ }),
            match r {
                Some(value) => value@ == old(self)@.value && old(self)@.value
                    != old(self)@.emitted_value,
                None => old(self)@.value == old(self)@.emitted_value,
            },
    {
        self.on_change()
    }

    /// `delete_word_left` where the word start lies at or before the caret;
    /// false, with nothing changed, where it lies after (possible inside a
    /// grapheme cluster).
    pub fn try_delete_word_left(&mut self) -> (r: bool)
        requires
            old(self).wf(),
            old(self)@.caret_to_range(
                (
                    previous_word_boundary_spec(old(self)@.value, old(self)@.cursor()),
                    old(self)@.cursor(),
                ),
            ).no_merge().can_delete_selection(),
        ensures
            final(self).wf(),
            r == !(old(self)@.selected.0 == old(self)@.selected.1 && previous_word_boundary_spec(
                old(self)@.value,
                old(self)@.cursor(),
            ) > old(self)@.cursor()),
            r ==> final(self)@ == old(self)@.caret_to_range(
                (
                    previous_word_boundary_spec(old(self)@.value, old(self)@.cursor()),
                    old(self)@.cursor(),
                ),
            ).no_merge().delete_selection(),
            !r ==> final(self)@ == old(self)@,
    {
        if self.selected_range.start == self.selected_range.end {
            let cursor_pos = self.cursor_offset();
            let word_start = TextOps::previous_word_boundary(self.value.as_str(), cursor_pos);
            if word_start > cursor_pos {
                return false;
            }
        }
        self.delete_word_left();
        true
    }

    /// The text in a UTF-16 range of the value; `actual_range` receives the
    /// UTF-16 range of the character boundaries it was taken between.
    pub fn text_for_range(&self, range_utf16: Range<usize>, actual_range: &mut Option<Range<usize>>) -> (r: Option<String>)
        requires
            self.wf(),
            range_utf16.start <= range_utf16.end,
        ensures
            ({
                let a = offset_from_utf16_spec(self@.value, range_utf16.start as int);
                let b = offset_from_utf16_spec(self@.value, range_utf16.end as int);
                &&& option_range_view(*final(actual_range)) == Some(
                    (offset_to_utf16_spec(self@.value, a), offset_to_utf16_spec(self@.value, b)),
                )
                &&& r matches Some(t) && t@ == span(self@.value, (a, b))
            }),
    {
        let range = TextOps::range_from_utf16(self.value.as_str(), &range_utf16);
        *actual_range = Some(TextOps::range_to_utf16(self.value.as_str(), &range));
        Some(String::from_str(byte_slice(self.value.as_str(), range.start, range.end)))
    }

    /// The selection in UTF-16 offsets.
    pub fn selected_text_range(&self) -> (r: Option<Utf16Selection>)
        requires
            self.wf(),
        ensures
            r matches Some(sel) && range_view(sel.range) == (
                offset_to_utf16_spec(self@.value, self@.selected.0),
                offset_to_utf16_spec(self@.value, self@.selected.1),
            ) && sel.reversed == self@.reversed,
    {
        Some(
            Utf16Selection {
                range: TextOps::range_to_utf16(self.value.as_str(), &self.selected_range),
                reversed: self.selection_reversed,
            },
        )
    }

    /// The composed text's range in UTF-16 offsets.
    pub fn marked_text_range(&self) -> (r: Option<Range<usize>>)
        requires
            self.wf(),
        ensures
            option_range_view(r) == match self@.marked {
                Some(m) => Some(
                    (offset_to_utf16_spec(self@.value, m.0), offset_to_utf16_spec(self@.value, m.1)),
                ),
                None => None,
            },
    {
        match &self.marked_range {
            Some(m) => Some(TextOps::range_to_utf16(self.value.as_str(), m)),
            None => None,
        }
    }

    /// End composing: the composed text stays as entered.
    pub fn unmark_text(&mut self)
        requires
            old(self).wf(),
        ensures
            final(self).wf(),
            final(self)@ == (InputView { marked: None, ..old(self)@ }),
    {
        self.marked_range = None;
    }

    /// Convert an offset of the value to an offset of the shown text
    pub fn actual_to_display_offset(&self, actual_offset: usize) -> (r: usize)
        requires
            self.wf(),
            self@.display_fits(),
            self@.masked ==> is_char_boundary_of(self@.value, actual_offset as int),
        ensures
            r == self@.actual_to_display(actual_offset as int),
    {
        if !self.masked {
            return actual_offset;
        }
        let ml = text_len(self.mask.as_str());
        let v = self.value.as_str();
        let len = text_len(v);
        proof {
            lemma_ends_are_boundaries(self@.value);
            lemma_boundary_index(self@.value, actual_offset as int);
        }
        match &self.marked_range {
            Some(m) => {
                if actual_offset <= m.start {
                    let c = grapheme_count(byte_slice(v, 0, actual_offset));
                    proof {
                        lemma_masked_fits(c as int, 0, 0, len as int, ml as int);
                    }
                    c * ml
                } else if actual_offset <= m.end {
                    let before = grapheme_count(byte_slice(v, 0, m.start));
                    proof {
                        lemma_masked_fits(
                            before as int,
                            0,
                            actual_offset - m.start,
                            len as int,
                            ml as int,
                        );
                    }
                    before * ml + (actual_offset - m.start)
                } else {
                    let before = grapheme_count(byte_slice(v, 0, m.start));
                    let after = grapheme_count(byte_slice(v, m.end, actual_offset));
                    proof {
                        lemma_masked_fits(
                            before as int,
                            after as int,
                            m.end - m.start,
                            len as int,
                            ml as int,
                        );
                    }
                    before * ml + (m.end - m.start) + after * ml
                }
            },
            None => {
                let c = grapheme_count(byte_slice(v, 0, actual_offset));
                proof {
                    lemma_masked_fits(c as int, 0, 0, len as int, ml as int);
                }
                c * ml
            },
        }
    }

    /// Convert an offset of the shown text back to an offset of the value
    pub fn display_to_actual_offset(&self, display_offset: usize) -> (r: usize)
        requires
            self.wf(),
            self@.display_fits(),
        ensures
            r == self@.display_to_actual(display_offset as int),
    {
        if !self.masked || self.mask.as_str().is_empty() {
            return display_offset;
        }
        let ml = text_len(self.mask.as_str());
        let v = self.value.as_str();
        let len = text_len(v);
        proof {
            lemma_ends_are_boundaries(self@.value);
            lemma_positive_len(self@.mask);
        }
        match &self.marked_range {
            Some(m) => {
                let before = grapheme_count(byte_slice(v, 0, m.start));
                proof {
                    lemma_masked_fits(before as int, 0, m.end - m.start, len as int, ml as int);
                }
                let masked_before_end = before * ml;
                let marked_end = masked_before_end + (m.end - m.start);
                if display_offset <= masked_before_end {
                    let target = display_offset / ml;
                    let g = if target < before {
                        target
                    } else {
                        before
                    };
                    TextOps::grapheme_offset_to_byte_offset(v, g)
                } else if display_offset <= marked_end {
                    m.start + (display_offset - masked_before_end)
                } else {
                    let target_after = (display_offset - marked_end) / ml;
                    let suffix = byte_slice(v, m.end, len);
                    let after = grapheme_count(suffix);
                    let g = if target_after < after {
                        target_after
                    } else {
                        after
                    };
                    m.end + TextOps::grapheme_offset_to_byte_offset(suffix, g)
                }
            },
            None => {
                let target = display_offset / ml;
                let total = grapheme_count(v);
                let g = if target < total {
                    target
                } else {
                    total
                };
                TextOps::grapheme_offset_to_byte_offset(v, g)
            },
        }
    }

    /// The caret's offset in the shown text
    pub fn display_cursor_offset(&self) -> (r: usize)
        requires
            self.wf(),
            self@.display_fits(),
        ensures
            r == self@.actual_to_display(self@.cursor()),
    {
        self.actual_to_display_offset(self.cursor_offset())
    }

    /// The selection in offsets of the shown text
    pub fn display_selection_range(&self) -> (r: Range<usize>)
        requires
            self.wf(),
            self@.display_fits(),
        ensures
            range_view(r) == (
                self@.actual_to_display(self@.selected.0),
                self@.actual_to_display(self@.selected.1),
            ),
    {
        let start = self.actual_to_display_offset(self.selected_range.start);
        let end = self.actual_to_display_offset(self.selected_range.end);
        start..end
    }

    /// The text to show and whether it is the placeholder.
    pub fn prepare_display_text(&self) -> (r: (String, bool))
        requires
            self.wf(),
            self@.display_fits(),
        ensures
            (r.0@, r.1) == self@.display_text(),
    {
        if self.value.as_str().is_empty() {
            return (self.placeholder.clone(), true);
        }
        if !self.masked {
            return (self.value.clone(), false);
        }
        if self.mask.as_str().is_empty() {
            return (String::new(), false);
        }
        let v = self.value.as_str();
        let len = text_len(v);
        let ml = text_len(self.mask.as_str());
        proof {
            lemma_ends_are_boundaries(self@.value);
        }
        let count = match &self.marked_range {
            Some(m) => {
                let before = grapheme_count(byte_slice(v, 0, m.start));
                let after = grapheme_count(byte_slice(v, m.end, len));
                before + after
            },
            None => grapheme_count(v),
        };
        proof {
            lemma_masked_fits(count as int, 0, 0, len as int, ml as int);
            assert(ml * count == count * ml) by (nonlinear_arith);
        }
        (repeat_str(self.mask.as_str(), count), false)
    }
}

} // verus!
