//! Undo and redo for a single-line text field, with consecutive edits
//! merged into one undo step.
use crate::components::input::text_ops::{
    chars_before, lemma_boundary_index, lemma_boundary_span, lemma_chars_before_boundary,
    lemma_chars_before_monotone,
};
use crate::unicode::{
    utf8_width, byte_len, byte_offset, ends_with, ends_with_spec, is_char_boundary_of, lemma_byte_len_concat,
    text_len,
};
use std::collections::VecDeque;
use std::ops::Range;
use vstd::prelude::*;
use vstd::string::StrSliceExecFns;
use vstd::string::StringExecFns;

verus! {

/// One edit of the text. Ranges are byte ranges of the text the edit
/// applies to.
#[derive(Debug)]
pub enum Change {
    Insert { range: Range<usize>, text: String },
    Delete { range: Range<usize>, text: String },
    Replace { range: Range<usize>, old_text: String, new_text: String, marked: bool },
}

/// The mathematical value of a [`Change`]: offsets as integers, texts as
/// character sequences.
pub enum ChangeView {
    Insert { start: int, end: int, text: Seq<char> },
    Delete { start: int, end: int, text: Seq<char> },
    Replace { start: int, end: int, old_text: Seq<char>, new_text: Seq<char>, marked: bool },
}

impl View for Change {
    type V = ChangeView;

    open spec fn view(&self) -> ChangeView {
        match self {
            Change::Insert { range, text } => ChangeView::Insert {
                start: range.start as int,
                end: range.end as int,
                text: text@,
            },
            Change::Delete { range, text } => ChangeView::Delete {
                start: range.start as int,
                end: range.end as int,
                text: text@,
            },
            Change::Replace { range, old_text, new_text, marked } => ChangeView::Replace {
                start: range.start as int,
                end: range.end as int,
                old_text: old_text@,
                new_text: new_text@,
                marked: *marked,
            },
        }
    }
}

impl ChangeView {
    pub open spec fn start(self) -> int {
        match self {
            ChangeView::Insert { start, .. } => start,
            ChangeView::Delete { start, .. } => start,
            ChangeView::Replace { start, .. } => start,
        }
    }

    pub open spec fn end(self) -> int {
        match self {
            ChangeView::Insert { end, .. } => end,
            ChangeView::Delete { end, .. } => end,
            ChangeView::Replace { end, .. } => end,
        }
    }

    /// The text that the change puts in place of its range.
    pub open spec fn text(self) -> Seq<char> {
        match self {
            ChangeView::Insert { text, .. } => text,
            ChangeView::Delete { .. } => Seq::empty(),
            ChangeView::Replace { new_text, .. } => new_text,
        }
    }

    /// The range is ordered, the offsets fit in `usize`, and so does the
    /// end of the inserted text.
    pub open spec fn wf(self) -> bool {
        &&& 0 <= self.start() <= self.end()
        &&& self.start() <= usize::MAX
        &&& 0 <= self.end() <= usize::MAX
        &&& self.start() + byte_len(self.text()) <= usize::MAX
    }

    /// The change that takes the text back to how it was.
    pub open spec fn inverse(self) -> ChangeView {
        match self {
            ChangeView::Insert { start, end, text } => ChangeView::Delete {
                start,
                end: start + byte_len(text),
                text: Seq::empty(),
            },
            ChangeView::Delete { start, end, text } => ChangeView::Insert {
                start,
                end: start,
                text,
            },
            ChangeView::Replace { start, end, old_text, new_text, marked } => ChangeView::Replace {
                start,
                end: start + byte_len(new_text),
                old_text: new_text,
                new_text: old_text,
                marked,
            },
        }
    }

    /// The selection after the change: its inserted text, or a caret where it deleted.
    pub open spec fn selection(self) -> (int, int) {
        (self.start(), self.start() + byte_len(self.text()))
    }

    /// One change that stands for `self` followed by `other`, where the two
    /// belong to one undo step.
    pub open spec fn merge(self, other: ChangeView) -> Option<ChangeView> {
        match self {
            ChangeView::Insert { start: s1, end: e1, text: t1 } => match other {
                ChangeView::Insert { start: s2, text: t2, .. } => if s1 + byte_len(t1) == s2 {
                    Some(ChangeView::Insert { start: s1, end: s1, text: t1 + t2 })
                } else {
                    None
                },
                ChangeView::Replace { old_text: o2, new_text: n2, marked: true, .. } => if ends_with_spec(
                    t1,
                    o2,
                ) {
                    Some(
                        ChangeView::Insert {
                            start: s1,
                            end: e1,
                            text: t1.subrange(0, t1.len() - o2.len()) + n2,
                        },
                    )
                } else {
                    None
                },
                _ => None,
            },
            ChangeView::Delete { start: s1, end: e1, text: t1 } => match other {
                ChangeView::Insert { start: s2, text: t2, .. } => if s1 == s2 {
                    Some(
                        ChangeView::Replace {
                            start: s1,
                            end: e1,
                            old_text: t1,
                            new_text: t2,
                            marked: false,
                        },
                    )
                } else {
                    None
                },
                ChangeView::Delete { start: s2, end: e2, text: t2 } => if s1 == e2 {
                    Some(ChangeView::Delete { start: s2, end: e1, text: t2 + t1 })
                } else if s1 == s2 {
                    Some(
                        ChangeView::Delete {
                            start: s1,
                            end: s1 + byte_len(t1 + t2),
                            text: t1 + t2,
                        },
                    )
                } else {
                    None
                },
                _ => None,
            },
            ChangeView::Replace { start: s1, end: e1, old_text: o1, new_text: n1, .. } => match other {
                ChangeView::Insert { text: t2, .. } => Some(
                    ChangeView::Replace {
                        start: s1,
                        end: e1,
                        old_text: o1,
                        new_text: n1 + t2,
                        marked: false,
                    },
                ),
                ChangeView::Replace { old_text: o2, new_text: n2, marked: true, .. } => if ends_with_spec(
                    n1,
                    o2,
                ) {
                    Some(
                        ChangeView::Replace {
                            start: s1,
                            end: e1,
                            old_text: o1,
                            new_text: n1.subrange(0, n1.len() - o2.len()) + n2,
                            marked: false,
                        },
                    )
                } else {
                    None
                },
                _ => None,
            },
        }
    }
}


/// The width of the first character and the rest make up a text's byte length.
proof fn lemma_byte_len_first(p: Seq<char>)
    requires
        p.len() > 0,
    ensures
        byte_len(p) == utf8_width(p[0]) + byte_len(p.drop_first()),
{
    let one = seq![p[0]];
    assert(p =~= one + p.drop_first());
    lemma_byte_len_concat(one, p.drop_first());
    assert(one.drop_last() =~= Seq::<char>::empty());
    assert(one.last() == p[0]);
    assert(byte_len(one.drop_last()) == 0);
    assert(byte_len(one) == utf8_width(p[0]));
}

/// Counting characters before an offset inside a prefix only looks at the prefix.
proof fn lemma_chars_before_prefix(p: Seq<char>, q: Seq<char>, o: int)
    requires
        o <= byte_len(p),
    ensures
        chars_before(p + q, o) == chars_before(p, o),
    decreases p.len(),
{
    if p.len() > 0 && o > 0 {
        lemma_byte_len_first(p);
        assert((p + q).drop_first() =~= p.drop_first() + q);
        assert((p + q)[0] == p[0]);
        lemma_chars_before_prefix(p.drop_first(), q, o - utf8_width(p[0]));
    }
}

/// Counting characters before an offset past a prefix counts all of the
/// prefix and then goes on in the rest.
proof fn lemma_chars_before_suffix(p: Seq<char>, q: Seq<char>, o: int)
    requires
        o >= byte_len(p),
    ensures
        chars_before(p + q, o) == p.len() + chars_before(q, o - byte_len(p)),
    decreases p.len(),
{
    if p.len() == 0 {
        assert(p + q =~= q);
    } else {
        lemma_byte_len_first(p);
        crate::unicode::lemma_positive_len(p);
        assert((p + q).drop_first() =~= p.drop_first() + q);
        assert((p + q)[0] == p[0]);
        lemma_chars_before_suffix(p.drop_first(), q, o - utf8_width(p[0]));
    }
}

/// The whole of a text lies before its byte length.
proof fn lemma_chars_before_all(p: Seq<char>)
    ensures
        chars_before(p, byte_len(p) as int) == p.len(),
{
    crate::unicode::lemma_ends_are_boundaries(p);
    lemma_chars_before_boundary(p, p.len() as int);
}

/// The text after applying `c` to `s`: the byte range of `c` replaced by
/// the text of `c`.
pub open spec fn apply(s: Seq<char>, c: ChangeView) -> Seq<char> {
    s.take(chars_before(s, c.start()) as int) + c.text() + s.skip(chars_before(s, c.end()) as int)
}

/// `c` is an edit of `s` as an editor records it: its range runs between
/// character boundaries of `s`, an insertion's range is empty, and the old
/// text of a deletion or replacement is what its range covers.
pub open spec fn consistent(s: Seq<char>, c: ChangeView) -> bool {
    &&& is_char_boundary_of(s, c.start())
    &&& is_char_boundary_of(s, c.end())
    &&& c.start() <= c.end()
    &&& match c {
        ChangeView::Insert { start, end, .. } => start == end,
        ChangeView::Delete { text, .. } => text == s.subrange(
            chars_before(s, c.start()) as int,
            chars_before(s, c.end()) as int,
        ),
        ChangeView::Replace { old_text, .. } => old_text == s.subrange(
            chars_before(s, c.start()) as int,
            chars_before(s, c.end()) as int,
        ),
    }
}

/// Undoing a recorded edit selects what it put back: the restored old text,
/// or a caret where an insertion was taken out.
pub proof fn law_inverse_selects_range(s: Seq<char>, c: ChangeView)
    requires
        consistent(s, c),
    ensures
        c.inverse().selection() == (c.start(), c.end()),
{
    if !(c is Insert) {
        lemma_boundary_span(s, c.start(), c.end());
    }
}

/// When two edits do not merge into one undo step: a deletion after
/// anything but a deletion; anything but an insertion or deletion after a
/// deletion; an unmarked replacement; an insertion not right after an
/// insertion; an insertion after a deletion elsewhere than where it
/// deleted; a deletion that neither ends nor starts where the previous
/// deletion started; a marked replacement whose old text does not end the
/// previous edit's text.
pub open spec fn merge_refused(a: ChangeView, b: ChangeView) -> bool {
    ||| (b is Delete && !(a is Delete))
    ||| (a is Delete && b is Replace)
    ||| (b matches ChangeView::Replace { marked: false, .. })
    ||| (a is Insert && b is Insert && b.start() != a.start() + byte_len(a.text()))
    ||| (a is Delete && b is Insert && b.start() != a.start())
    ||| (a is Delete && b is Delete && a.start() != b.end() && a.start() != b.start())
    ||| (b matches ChangeView::Replace { old_text: o2, marked: true, .. } && !(a is Delete) && !ends_with_spec(
        a.text(),
        o2,
    ))
}

/// Two edits merge exactly when none of the refusals holds.
pub proof fn law_merge_refused(a: ChangeView, b: ChangeView)
    ensures
        a.merge(b) is None <==> merge_refused(a, b),
{
}

/// Applying a recorded edit and then its inverse gives back the text.
pub proof fn law_inverse_restores(s: Seq<char>, c: ChangeView)
    requires
        consistent(s, c),
    ensures
        apply(apply(s, c), c.inverse()) == s,
{
    let ks = choose|k: int| 0 <= k <= s.len() && #[trigger] byte_offset(s, k) == c.start();
    let ke = choose|k: int| 0 <= k <= s.len() && #[trigger] byte_offset(s, k) == c.end();
    lemma_chars_before_boundary(s, ks);
    lemma_chars_before_boundary(s, ke);
    if ke < ks {
        crate::unicode::lemma_prefix_monotone(s, ke, ks);
    }
    let p = s.take(ks);
    let m = s.subrange(ks, ke);
    let q = s.skip(ke);
    let t = c.text();
    let s2 = apply(s, c);
    assert(s2 =~= p + t + q);
    assert(s =~= p + m + q);
    lemma_byte_len_concat(p, t);
    lemma_byte_len_concat(p + t, q);
    assert(s2.take(p.len() as int) =~= p);
    assert(s2.take((p.len() + t.len()) as int) =~= p + t);
    assert(byte_offset(s2, p.len() as int) == byte_len(p));
    assert(byte_offset(s2, (p.len() + t.len()) as int) == byte_len(p) + byte_len(t));
    assert(byte_len(p) == c.start());
    lemma_chars_before_boundary(s2, p.len() as int);
    lemma_chars_before_boundary(s2, (p.len() + t.len()) as int);
    let inv = c.inverse();
    assert(inv.start() == byte_len(p));
    assert(inv.end() == byte_len(p) + byte_len(t));
    assert(inv.text() == m) by {
        if c is Insert {
            assert(m =~= Seq::<char>::empty());
        }
    }
    assert(s2.subrange(p.len() as int, (p.len() + t.len()) as int) =~= t);
    assert(s2.skip((p.len() + t.len()) as int) =~= q);
    assert(apply(s2, inv) =~= s);
}


/// The edits that one merged undo step stands for exactly: `b` follows right
/// after what `a` put in. Typing and deleting give such pairs by the merge
/// conditions alone; a typed character after a replacement must follow its
/// text, and a composed character must replace the end of the text before it.
pub open spec fn adjacent(a: ChangeView, b: ChangeView) -> bool {
    match (a, b) {
        (ChangeView::Replace { start: s1, new_text: n1, .. }, ChangeView::Insert { start: s2, .. }) => s2
            == s1 + byte_len(n1),
        (ChangeView::Insert { start: s1, text: t1, .. }, ChangeView::Replace { end: e2, .. }) => e2
            == s1 + byte_len(t1),
        (ChangeView::Replace { start: s1, new_text: n1, .. }, ChangeView::Replace { end: e2, .. }) => e2
            == s1 + byte_len(n1),
        _ => true,
    }
}

/// The shape of an applied edit: the text before its range, its text, and
/// the text after its range.
proof fn lemma_apply_shape(s: Seq<char>, c: ChangeView)
    requires
        consistent(s, c),
    ensures
        apply(s, c) == s.take(chars_before(s, c.start()) as int) + c.text() + s.skip(
            chars_before(s, c.end()) as int,
        ),
        byte_len(s.take(chars_before(s, c.start()) as int)) == c.start(),
        byte_len(s.take(chars_before(s, c.end()) as int)) == c.end(),
        chars_before(s, c.start()) <= chars_before(s, c.end()) <= s.len(),
        byte_len(s.subrange(chars_before(s, c.start()) as int, chars_before(s, c.end()) as int))
            == c.end() - c.start(),
{
    lemma_boundary_span(s, c.start(), c.end());
    lemma_boundary_span(s, c.end(), c.end());
}

/// In `p + m + q`, the offset where `m` ends is reached after `p` and `m`.
proof fn lemma_offset_after(p: Seq<char>, m: Seq<char>, q: Seq<char>)
    ensures
        chars_before(p + m + q, byte_len(p + m) as int) == p.len() + m.len(),
        byte_len(p + m) == byte_len(p) + byte_len(m),
        chars_before(p + m + q, byte_len(p) as int) == p.len(),
{
    lemma_byte_len_concat(p, m);
    lemma_chars_before_prefix(p + m, q, byte_len(p + m) as int);
    lemma_chars_before_all(p + m);
    assert(p + m + q =~= p + (m + q));
    lemma_chars_before_prefix(p, m + q, byte_len(p) as int);
    lemma_chars_before_all(p);
}

/// What a merged pair needs: `a` an edit of `s`, `b` an edit of the result,
/// merging, and right after `a`.
pub open spec fn merge_pair(s: Seq<char>, a: ChangeView, b: ChangeView) -> bool {
    &&& consistent(s, a)
    &&& consistent(apply(s, a), b)
    &&& a.merge(b) is Some
    &&& adjacent(a, b)
}

/// The merged step's effect and consistency, shown for one pair.
pub open spec fn merge_holds(s: Seq<char>, a: ChangeView, b: ChangeView) -> bool {
    &&& apply(s, a.merge(b).unwrap()) == apply(apply(s, a), b)
    &&& consistent(s, a.merge(b).unwrap())
}

/// Text typed after an insertion, or composed over its end.
proof fn lemma_merge_after_insert(s: Seq<char>, a: ChangeView, b: ChangeView)
    requires
        merge_pair(s, a, b),
        a is Insert,
    ensures
        merge_holds(s, a, b),
{
    let n = apply(s, a);
    let m = a.merge(b).unwrap();
    lemma_apply_shape(s, a);
    let ka = chars_before(s, a.start()) as int;
    let p = s.take(ka);
    let q = s.skip(ka);
    let t = a.text();
    assert(n == p + t + q);
    lemma_offset_after(p, t, q);
    lemma_apply_shape(n, b);
    match b {
        ChangeView::Insert { .. } => {
            assert(n.take((p.len() + t.len()) as int) =~= p + t);
            assert(n.skip((p.len() + t.len()) as int) =~= q);
            assert(apply(n, b) =~= p + m.text() + q);
            assert(apply(s, m) =~= p + m.text() + q);
        },
        ChangeView::Replace { old_text: o2, new_text: n2, .. } => {
            let h = t.subrange(0, t.len() - o2.len());
            let j = chars_before(n, b.start());
            assert(n.subrange(j as int, (p.len() + t.len()) as int) == o2);
            assert(j == p.len() + h.len());
            assert(n.take(j as int) =~= p + h);
            assert(n.skip((p.len() + t.len()) as int) =~= q);
            assert(apply(n, b) =~= p + (h + n2) + q);
            assert(apply(s, m) =~= p + (h + n2) + q);
        },
        _ => {},
    }
}

/// Text typed after a replacement, or composed over the end of its text.
proof fn lemma_merge_after_replace(s: Seq<char>, a: ChangeView, b: ChangeView)
    requires
        merge_pair(s, a, b),
        a is Replace,
    ensures
        merge_holds(s, a, b),
{
    let n = apply(s, a);
    let m = a.merge(b).unwrap();
    lemma_apply_shape(s, a);
    let ka = chars_before(s, a.start()) as int;
    let kb = chars_before(s, a.end()) as int;
    let p = s.take(ka);
    let q = s.skip(kb);
    let t = a.text();
    assert(n == p + t + q);
    lemma_offset_after(p, t, q);
    lemma_apply_shape(n, b);
    match b {
        ChangeView::Insert { .. } => {
            assert(n.take((p.len() + t.len()) as int) =~= p + t);
            assert(n.skip((p.len() + t.len()) as int) =~= q);
            assert(apply(n, b) =~= p + (t + b.text()) + q);
            assert(apply(s, m) =~= p + (t + b.text()) + q);
        },
        ChangeView::Replace { old_text: o2, new_text: n2, .. } => {
            let h = t.subrange(0, t.len() - o2.len());
            let j = chars_before(n, b.start());
            assert(n.subrange(j as int, (p.len() + t.len()) as int) == o2);
            assert(j == p.len() + h.len());
            assert(n.take(j as int) =~= p + h);
            assert(n.skip((p.len() + t.len()) as int) =~= q);
            assert(apply(n, b) =~= p + (h + n2) + q);
            assert(apply(s, m) =~= p + (h + n2) + q);
        },
        _ => {},
    }
}

/// Text typed where a deletion was: one replacement.
proof fn lemma_merge_retype(s: Seq<char>, a: ChangeView, b: ChangeView)
    requires
        merge_pair(s, a, b),
        a is Delete,
        b is Insert,
    ensures
        merge_holds(s, a, b),
{
    let n = apply(s, a);
    let m = a.merge(b).unwrap();
    lemma_apply_shape(s, a);
    let ka = chars_before(s, a.start()) as int;
    let kb = chars_before(s, a.end()) as int;
    let p = s.take(ka);
    let q = s.skip(kb);
    assert(a.text() =~= Seq::<char>::empty());
    assert(n =~= p + q);
    lemma_offset_after(p, Seq::<char>::empty(), q);
    assert(p + Seq::<char>::empty() =~= p);
    lemma_apply_shape(n, b);
    assert(n.take(p.len() as int) =~= p);
    assert(n.skip(p.len() as int) =~= q);
    assert(apply(n, b) =~= p + b.text() + q);
    assert(apply(s, m) =~= p + b.text() + q);
}

/// A deletion just before the previous one (backspace after backspace).
proof fn lemma_merge_backspace(s: Seq<char>, a: ChangeView, b: ChangeView)
    requires
        merge_pair(s, a, b),
        a is Delete,
        b is Delete,
        a.start() == b.end(),
    ensures
        merge_holds(s, a, b),
{
    let n = apply(s, a);
    let m = a.merge(b).unwrap();
    lemma_apply_shape(s, a);
    let ka = chars_before(s, a.start()) as int;
    let kb = chars_before(s, a.end()) as int;
    let p = s.take(ka);
    let q = s.skip(kb);
    assert(a.text() =~= Seq::<char>::empty());
    assert(n =~= p + q);
    lemma_offset_after(p, Seq::<char>::empty(), q);
    assert(p + Seq::<char>::empty() =~= p);
    lemma_apply_shape(n, b);
    let s2 = b.start();
    lemma_chars_before_prefix(p, q, s2);
    let j = chars_before(n, s2) as int;
    lemma_chars_before_monotone(p, s2, byte_len(p) as int);
    lemma_chars_before_all(p);
    assert(j <= p.len());
    assert(s =~= p + s.skip(ka));
    lemma_chars_before_prefix(p, s.skip(ka), s2);
    assert(chars_before(s, s2) == j);
    lemma_boundary_index(n, s2);
    assert(n.take(j) =~= s.take(j));
    assert(byte_offset(s, j) == s2);
    assert(is_char_boundary_of(s, s2));
    assert(b.text() =~= Seq::<char>::empty());
    assert(apply(n, b) =~= s.take(j) + q);
    assert(apply(s, m) =~= s.take(j) + q);
    match (a, b) {
        (ChangeView::Delete { text: t1, .. }, ChangeView::Delete { text: t2, .. }) => {
            assert(t2 =~= s.subrange(j, ka));
            assert(t2 + t1 =~= s.subrange(j, kb));
        },
        _ => {},
    }
}

/// A deletion right where the previous one was (delete after delete).
proof fn lemma_merge_forward_delete(s: Seq<char>, a: ChangeView, b: ChangeView)
    requires
        merge_pair(s, a, b),
        a is Delete,
        b is Delete,
        a.start() != b.end(),
    ensures
        merge_holds(s, a, b),
{
    let n = apply(s, a);
    let m = a.merge(b).unwrap();
    lemma_apply_shape(s, a);
    let ka = chars_before(s, a.start()) as int;
    let kb = chars_before(s, a.end()) as int;
    let p = s.take(ka);
    let q = s.skip(kb);
    assert(a.text() =~= Seq::<char>::empty());
    assert(n =~= p + q);
    lemma_offset_after(p, Seq::<char>::empty(), q);
    assert(p + Seq::<char>::empty() =~= p);
    lemma_apply_shape(n, b);
    let s2 = b.start();
    let e2 = b.end();
    assert(a.start() == s2);
    lemma_chars_before_suffix(p, q, e2);
    let jq = chars_before(q, e2 - a.start()) as int;
    assert(chars_before(n, e2) == p.len() + jq);
    lemma_boundary_span(n, s2, e2);
    let sk = s.take(kb);
    assert(s =~= sk + q);
    match (a, b) {
        (ChangeView::Delete { text: t1, .. }, ChangeView::Delete { text: t2, .. }) => {
            assert(t2 =~= q.take(jq));
            assert(byte_len(t2) == e2 - s2);
            assert(t1 == s.subrange(ka, kb));
            assert(byte_len(t1) == a.end() - a.start());
            lemma_byte_len_concat(t1, t2);
            let me = m.end();
            assert(me == a.end() + (e2 - s2));
            lemma_chars_before_suffix(sk, q, me);
            assert(chars_before(s, me) == kb + jq);
            assert(s.skip(kb + jq) =~= q.skip(jq));
            assert(n.skip(p.len() + jq) =~= q.skip(jq));
            assert(n.take(p.len() as int) =~= p);
            assert(apply(n, b) =~= p + q.skip(jq));
            assert(apply(s, m) =~= p + q.skip(jq));
            assert(s.take(kb + jq) =~= sk + q.take(jq));
            lemma_byte_len_concat(sk, q.take(jq));
            assert(byte_offset(s, kb + jq) == me);
            lemma_chars_before_monotone(q, 0, e2 - a.start());
            assert(is_char_boundary_of(s, me));
            assert(t1 + t2 =~= s.subrange(ka, kb + jq));
        },
        _ => {},
    }
}

/// An edit that merges into the previous undo step, right after it, has
/// the effect of the merged step, and the merged step is an edit of the
/// text from before both.
pub proof fn law_merged_step_applies_both(s: Seq<char>, a: ChangeView, b: ChangeView)
    requires
        consistent(s, a),
        consistent(apply(s, a), b),
        a.merge(b) is Some,
        adjacent(a, b),
    ensures
        apply(s, a.merge(b).unwrap()) == apply(apply(s, a), b),
        consistent(s, a.merge(b).unwrap()),
{
    if a is Insert {
        lemma_merge_after_insert(s, a, b);
    } else if a is Replace {
        lemma_merge_after_replace(s, a, b);
    } else if b is Insert {
        lemma_merge_retype(s, a, b);
    } else if a.start() == b.end() {
        lemma_merge_backspace(s, a, b);
    } else {
        lemma_merge_forward_delete(s, a, b);
    }
}

/// Undoing a merged step after both its edits gives back the text from
/// before them.
pub proof fn law_undo_merged_step(s: Seq<char>, a: ChangeView, b: ChangeView)
    requires
        consistent(s, a),
        consistent(apply(s, a), b),
        a.merge(b) is Some,
        adjacent(a, b),
    ensures
        apply(apply(apply(s, a), b), a.merge(b).unwrap().inverse()) == s,
{
    law_merged_step_applies_both(s, a, b);
    law_inverse_restores(s, a.merge(b).unwrap());
}

/// Concatenation of two texts.
fn concat(a: &str, b: &str) -> (r: String)
    ensures
        r@ == a@ + b@,
{
    let mut r = String::new();
    r.append(a);
    r.append(b);
    r
}

impl Clone for Change {
    fn clone(&self) -> (r: Self)
        ensures
            r == *self,
    {
        match self {
            Change::Insert { range, text } => Change::Insert {
                range: range.start..range.end,
                text: text.clone(),
            },
            Change::Delete { range, text } => Change::Delete {
                range: range.start..range.end,
                text: text.clone(),
            },
            Change::Replace { range, old_text, new_text, marked } => Change::Replace {
                range: range.start..range.end,
                old_text: old_text.clone(),
                new_text: new_text.clone(),
                marked: *marked,
            },
        }
    }
}

impl Change {
    fn inverse(&self) -> (r: Change)
        requires
            self@.wf(),
        ensures
            r@ == self@.inverse(),
    {
        match self {
            Change::Insert { range, text } => Change::Delete {
                range: range.start..range.start + text_len(text.as_str()),
                text: String::new(),
            },
            Change::Delete { range, text } => Change::Insert {
                range: range.start..range.start,
                text: text.clone(),
            },
            Change::Replace { range, old_text, new_text, marked } => Change::Replace {
                range: range.start..range.start + text_len(new_text.as_str()),
                old_text: new_text.clone(),
                new_text: old_text.clone(),
                marked: *marked,
            },
        }
    }

    pub fn text(&self) -> (r: String)
        ensures
            r@ == self@.text(),
    {
        match self {
            Change::Insert { text, .. } => text.clone(),
            Change::Delete { .. } => String::new(),
            Change::Replace { new_text, .. } => new_text.clone(),
        }
    }

    pub fn range(&self) -> (r: Range<usize>)
        ensures
            r.start == self@.start(),
            r.end == self@.end(),
    {
        match self {
            Change::Insert { range, .. } => range.start..range.end,
            Change::Delete { range, .. } => range.start..range.end,
            Change::Replace { range, .. } => range.start..range.end,
        }
    }

    pub fn selection_range(&self) -> (r: Range<usize>)
        requires
            self@.wf(),
        ensures
            (r.start as int, r.end as int) == self@.selection(),
    {
        match self {
            Change::Insert { range, text } => range.start..range.start + text_len(text.as_str()),
            Change::Delete { range, .. } => range.start..range.start,
            Change::Replace { range, new_text, .. } => range.start..range.start + text_len(
                new_text.as_str(),
            ),
        }
    }

    /// `text` without its last `n` characters.
    fn drop_suffix(text: &String, n: usize) -> (r: &str)
        requires
            n <= text@.len(),
        ensures
            r@ == text@.subrange(0, text@.len() - n),
    {
        let len = text.as_str().unicode_len();
        text.as_str().substring_char(0, len - n)
    }

    fn merge_with(&self, other: &Change) -> (r: Option<Change>)
        requires
            self@.wf(),
            other@.wf(),
            self@.merge(other@) matches Some(m) ==> m.wf(),
        ensures
            match r {
                Some(m) => self@.merge(other@) == Some(m@),
                None => self@.merge(other@) is None,
            },
    {
        match (self, other) {
            (Change::Insert { range: r1, text: t1 }, Change::Insert { range: r2, text: t2 }) => {
                if r1.start + text_len(t1.as_str()) == r2.start {
                    Some(
                        Change::Insert {
                            range: r1.start..r1.start,
                            text: concat(t1.as_str(), t2.as_str()),
                        },
                    )
                } else {
                    None
                }
            },
            (Change::Delete { range: r1, text: t1 }, Change::Insert { range: r2, text: t2 }) => {
                if r1.start == r2.start {
                    Some(
                        Change::Replace {
                            range: r1.start..r1.end,
                            old_text: t1.clone(),
                            new_text: t2.clone(),
                            marked: false,
                        },
                    )
                } else {
                    None
                }
            },
            (Change::Delete { range: r1, text: t1 }, Change::Delete { range: r2, text: t2 }) => {
                if r1.start == r2.end {
                    Some(
                        Change::Delete {
                            range: r2.start..r1.end,
                            text: concat(t2.as_str(), t1.as_str()),
                        },
                    )
                } else if r1.start == r2.start {
                    let text = concat(t1.as_str(), t2.as_str());
                    let end = r1.start + text_len(text.as_str());
                    Some(Change::Delete { range: r1.start..end, text })
                } else {
                    None
                }
            },
            (
                Change::Replace { range: r1, old_text, new_text: t1, .. },
                Change::Insert { text: t2, .. },
            ) => Some(
                Change::Replace {
                    range: r1.start..r1.end,
                    old_text: old_text.clone(),
                    new_text: concat(t1.as_str(), t2.as_str()),
                    marked: false,
                },
            ),
            (
                Change::Insert { range: r1, text: t1 },
                Change::Replace { old_text, new_text, marked: true, .. },
            ) => {
                if ends_with(t1.as_str(), old_text.as_str()) {
                    let n = old_text.as_str().unicode_len();
                    let head = Self::drop_suffix(t1, n);
                    Some(
                        Change::Insert {
                            range: r1.start..r1.end,
                            text: concat(head, new_text.as_str()),
                        },
                    )
                } else {
                    None
                }
            },
            (
                Change::Replace { range: r1, new_text: nt1, old_text: ot1, .. },
                Change::Replace { new_text: nt2, old_text: ot2, marked: true, .. },
            ) => {
                if ends_with(nt1.as_str(), ot2.as_str()) {
                    let n = ot2.as_str().unicode_len();
                    let head = Self::drop_suffix(nt1, n);
                    Some(
                        Change::Replace {
                            range: r1.start..r1.end,
                            old_text: ot1.clone(),
                            new_text: concat(head, nt2.as_str()),
                            marked: false,
                        },
                    )
                } else {
                    None
                }
            },
            _ => None,
        }
    }
}

pub struct HistoryEntry {
    pub change: Change,
}

impl Clone for HistoryEntry {
    fn clone(&self) -> (r: Self)
        ensures
            r == *self,
    {
        HistoryEntry { change: self.change.clone() }
    }
}

/// The mathematical value of a [`History`]: the undo and redo stacks, most
/// recent last.
pub struct HistoryView {
    pub undo: Seq<ChangeView>,
    pub redo: Seq<ChangeView>,
    pub max_size: nat,
    pub can_merge: bool,
}

pub open spec fn changes_of(entries: Seq<HistoryEntry>) -> Seq<ChangeView> {
    entries.map_values(|e: HistoryEntry| e.change@)
}

pub open spec fn all_wf(changes: Seq<ChangeView>) -> bool {
    forall|i: int| 0 <= i < changes.len() ==> (#[trigger] changes[i]).wf()
}

impl HistoryView {
    pub open spec fn well_formed(self) -> bool {
        all_wf(self.undo) && all_wf(self.redo)
    }

    /// Whether `change` would merge into the last undo step.
    pub open spec fn merges(self, change: ChangeView) -> bool {
        self.can_merge && self.undo.len() > 0 && self.undo.last().merge(change) is Some
    }

    /// The inputs on which `push` does its arithmetic within `usize`: the
    /// change and the merged change, if any, fit.
    pub open spec fn accepts(self, change: ChangeView) -> bool {
        &&& change.wf()
        &&& self.merges(change) ==> self.undo.last().merge(change).unwrap().wf()
    }

    /// History after recording `change`: the redo stack is dropped; the
    /// change merges into the last step when merging is allowed and the two
    /// combine, and otherwise becomes a new step, the oldest step going when
    /// there are more than `max_size`.
    pub open spec fn push(self, change: ChangeView) -> HistoryView {
        if self.merges(change) {
            HistoryView {
                undo: self.undo.update(
                    self.undo.len() - 1,
                    self.undo.last().merge(change).unwrap(),
                ),
                redo: Seq::empty(),
                ..self
            }
        } else {
            let undo = self.undo.push(change);
            HistoryView {
                undo: if undo.len() > self.max_size {
                    undo.drop_first()
                } else {
                    undo
                },
                redo: Seq::empty(),
                can_merge: true,
                ..self
            }
        }
    }

    /// History after an undo, and the change that reverts the last step.
    pub open spec fn undo(self) -> (HistoryView, Option<ChangeView>) {
        if self.undo.len() == 0 {
            (HistoryView { can_merge: false, ..self }, None)
        } else {
            (
                HistoryView {
                    undo: self.undo.drop_last(),
                    redo: self.redo.push(self.undo.last()),
                    can_merge: false,
                    ..self
                },
                Some(self.undo.last().inverse()),
            )
        }
    }

    /// History after a redo, and the change to apply again.
    pub open spec fn redo(self) -> (HistoryView, Option<ChangeView>) {
        if self.redo.len() == 0 {
            (HistoryView { can_merge: false, ..self }, None)
        } else {
            (
                HistoryView {
                    undo: self.undo.push(self.redo.last()),
                    redo: self.redo.drop_last(),
                    can_merge: false,
                    ..self
                },
                Some(self.redo.last()),
            )
        }
    }
}

/// Redo right after undo takes back the undone step and returns it, and
/// both stacks are as before.
pub proof fn law_redo_after_undo(h: HistoryView)
    requires
        h.undo.len() > 0,
    ensures
        h.undo().0.redo() == (HistoryView { can_merge: false, ..h }, Some(h.undo.last())),
{
    let h1 = h.undo().0;
    assert(h1.redo.last() == h.undo.last());
    assert(h1.redo.drop_last() =~= h.redo);
    assert(h1.undo.push(h1.redo.last()) =~= h.undo);
}

/// Undo right after redo reverts the redone step, and both stacks are as before.
pub proof fn law_undo_after_redo(h: HistoryView)
    requires
        h.redo.len() > 0,
    ensures
        h.redo().0.undo() == (HistoryView { can_merge: false, ..h }, Some(h.redo.last().inverse())),
{
    let h1 = h.redo().0;
    assert(h1.undo.last() == h.redo.last());
    assert(h1.undo.drop_last() =~= h.undo);
    assert(h1.redo.push(h1.undo.last()) =~= h.redo);
}

/// A new edit discards everything that could be redone.
pub proof fn law_push_discards_redo(h: HistoryView, c: ChangeView)
    ensures
        h.push(c).redo.len() == 0,
{
}

/// An edit that does not merge becomes its own step: the next undo
/// returns its inverse.
pub proof fn law_undo_after_push(h: HistoryView, c: ChangeView)
    requires
        !h.merges(c),
        h.max_size > 0,
    ensures
        h.push(c).undo().1 == Some(c.inverse()),
{
    let u = h.undo.push(c);
    if u.len() > h.max_size {
        assert(u.drop_first().last() == c);
    }
}

/// Recording an edit that does not merge puts it on top of the undo stack;
/// when the stack is full, the oldest step, and only it, is dropped, so
/// every other step stays in order. An edit that merges replaces the top
/// step by the merged one. Either way nothing is left to redo.
pub proof fn law_push_keeps_newest_steps(h: HistoryView, c: ChangeView)
    ensures
        !h.merges(c) && h.undo.len() < h.max_size ==> h.push(c).undo == h.undo.push(c),
        !h.merges(c) && h.undo.len() >= h.max_size ==> h.push(c).undo == h.undo.push(c).drop_first(),
        !h.merges(c) && h.undo.len() >= h.max_size ==> forall|i: int|
            0 <= i < h.undo.len() ==> #[trigger] h.push(c).undo[i] == h.undo.push(c)[i + 1],
        h.merges(c) ==> h.push(c).undo == h.undo.drop_last().push(h.undo.last().merge(c).unwrap()),
        h.push(c).redo.len() == 0,
        h.push(c).max_size == h.max_size,
{
    if h.merges(c) {
        assert(h.push(c).undo =~= h.undo.drop_last().push(h.undo.last().merge(c).unwrap()));
    }
}

/// Recording an edit never grows the undo stack past its capacity.
pub proof fn law_push_respects_capacity(h: HistoryView, c: ChangeView)
    requires
        h.undo.len() <= h.max_size,
    ensures
        h.push(c).undo.len() <= h.max_size,
{
}

/// Undo with nothing to undo returns nothing and keeps both stacks.
pub proof fn law_undo_empty(h: HistoryView)
    requires
        h.undo.len() == 0,
    ensures
        h.undo() == (HistoryView { can_merge: false, ..h }, None::<ChangeView>),
{
}

pub open spec fn option_view(o: Option<Change>) -> Option<ChangeView> {
    match o {
        Some(c) => Some(c@),
        None => None,
    }
}

/// The undo and redo stacks of a text field.
pub struct History {
    undo_stack: VecDeque<HistoryEntry>,
    redo_stack: VecDeque<HistoryEntry>,
    max_size: usize,
    can_merge: bool,
}

impl View for History {
    type V = HistoryView;

    closed spec fn view(&self) -> HistoryView {
        HistoryView {
            undo: changes_of(self.undo_stack@),
            redo: changes_of(self.redo_stack@),
            max_size: self.max_size as nat,
            can_merge: self.can_merge,
        }
    }
}

impl History {
    pub open spec fn well_formed(&self) -> bool {
        self@.well_formed()
    }

    pub fn new() -> (h: Self)
        ensures
            h.well_formed(),
            h@.undo.len() == 0,
            h@.redo.len() == 0,
            h@.max_size == 100,
            h@.can_merge,
    {
        Self::with_max_size(100)
    }

    pub fn with_max_size(max_size: usize) -> (h: Self)
        ensures
            h.well_formed(),
            h@.undo.len() == 0,
            h@.redo.len() == 0,
            h@.max_size == max_size,
            h@.can_merge,
    {
        let h = Self {
            undo_stack: VecDeque::new(),
            redo_stack: VecDeque::new(),
            max_size,
            can_merge: true,
        };
        assert(changes_of(h.undo_stack@) =~= Seq::<ChangeView>::empty());
        assert(changes_of(h.redo_stack@) =~= Seq::<ChangeView>::empty());
        h
    }

    pub fn push(&mut self, change: Change)
        requires
            old(self).well_formed(),
            old(self)@.accepts(change@),
        ensures
            final(self).well_formed(),
            final(self)@ == old(self)@.push(change@),
    {
        let ghost pre = self@;
        self.redo_stack.clear();
        if self.can_merge && self.undo_stack.len() > 0 {
            let last = self.undo_stack.pop_back().unwrap();
            assert(last.change@ == pre.undo.last());
            match last.change.merge_with(&change) {
                Some(merged) => {
                    self.undo_stack.push_back(HistoryEntry { change: merged });
                    assert(changes_of(self.undo_stack@) =~= pre.undo.update(
                        pre.undo.len() - 1,
                        pre.undo.last().merge(change@).unwrap(),
                    ));
                    assert(changes_of(self.redo_stack@) =~= Seq::<ChangeView>::empty());
                    return ;
                },
                None => {
                    self.undo_stack.push_back(last);
                    assert(changes_of(self.undo_stack@) =~= pre.undo);
                },
            }
        }
        self.undo_stack.push_back(HistoryEntry { change });
        assert(changes_of(self.undo_stack@) =~= pre.undo.push(change@));
        if self.undo_stack.len() > self.max_size {
            self.undo_stack.pop_front();
            assert(changes_of(self.undo_stack@) =~= pre.undo.push(change@).drop_first());
        }
        self.can_merge = true;
        assert(changes_of(self.redo_stack@) =~= Seq::<ChangeView>::empty());
    }

    pub fn undo(&mut self) -> (r: Option<Change>)
        requires
            old(self).well_formed(),
        ensures
            final(self).well_formed(),
            (final(self)@, option_view(r)) == old(self)@.undo(),
    {
        let ghost pre = self@;
        self.prevent_merge();
        if let Some(entry) = self.undo_stack.pop_back() {
            assert(entry.change@ == pre.undo.last());
            let inverse_change = entry.change.inverse();
            self.redo_stack.push_back(entry);
            assert(changes_of(self.undo_stack@) =~= pre.undo.drop_last());
            assert(changes_of(self.redo_stack@) =~= pre.redo.push(pre.undo.last()));
            Some(inverse_change)
        } else {
            None
        }
    }

    /// The change that an undo would apply now, leaving the history as it is.
    pub fn next_undo(&self) -> (r: Option<Change>)
        requires
            self.well_formed(),
        ensures
            option_view(r) == self@.undo().1,
    {
        let n = self.undo_stack.len();
        if n == 0 {
            None
        } else {
            let entry = &self.undo_stack[n - 1];
            assert(entry.change@ == self@.undo.last());
            Some(entry.change.inverse())
        }
    }

    /// The change that a redo would apply now, leaving the history as it is.
    pub fn next_redo(&self) -> (r: Option<Change>)
        requires
            self.well_formed(),
        ensures
            option_view(r) == self@.redo().1,
    {
        let n = self.redo_stack.len();
        if n == 0 {
            None
        } else {
            let entry = &self.redo_stack[n - 1];
            assert(entry.change@ == self@.redo.last());
            Some(entry.change.clone())
        }
    }

    pub fn redo(&mut self) -> (r: Option<Change>)
        requires
            old(self).well_formed(),
        ensures
            final(self).well_formed(),
            (final(self)@, option_view(r)) == old(self)@.redo(),
    {
        let ghost pre = self@;
        self.prevent_merge();
        if let Some(entry) = self.redo_stack.pop_back() {
            assert(entry.change@ == pre.redo.last());
            let change = entry.change.clone();
            self.undo_stack.push_back(entry);
            assert(changes_of(self.redo_stack@) =~= pre.redo.drop_last());
            assert(changes_of(self.undo_stack@) =~= pre.undo.push(pre.redo.last()));
            Some(change)
        } else {
            None
        }
    }

    pub fn clear(&mut self)
        requires
            old(self).well_formed(),
        ensures
            final(self).well_formed(),
            final(self)@ == (HistoryView { undo: Seq::empty(), redo: Seq::empty(), ..old(self)@ }),
    {
        self.undo_stack.clear();
        self.redo_stack.clear();
        assert(changes_of(self.undo_stack@) =~= Seq::<ChangeView>::empty());
        assert(changes_of(self.redo_stack@) =~= Seq::<ChangeView>::empty());
    }

    pub fn prevent_merge(&mut self)
        requires
            old(self).well_formed(),
        ensures
            final(self).well_formed(),
            final(self)@ == (HistoryView { can_merge: false, ..old(self)@ }),
    {
        self.can_merge = false;
    }
}

impl Default for History {
    fn default() -> (h: Self)
        ensures
            h.well_formed(),
            h@.undo.len() == 0,
            h@.redo.len() == 0,
            h@.max_size == 100,
            h@.can_merge,
    {
        Self::new()
    }
}

} // verus!
