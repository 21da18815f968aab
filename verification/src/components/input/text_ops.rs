//! Cursor motion over single-line text: grapheme, word and UTF-16 offsets.
//!
//! Offsets are byte offsets into the UTF-8 encoding of the text unless a
//! name says UTF-16.
use crate::unicode::{
    byte_len, byte_offset, char_table, chars_of, text_len, is_char_boundary_of, len_utf16, len_utf8, lemma_prefix_monotone,
    lemma_byte_len_concat, lemma_ends_are_boundaries, lemma_prefix_step, lemma_str_len, lemma_utf16_le_bytes, utf16_len, utf16_width, utf8_width,
};
use std::ops::Range;
use unicode_segmentation::UnicodeSegmentation;
use vstd::prelude::*;
use vstd::string::StringSliceAdditionalSpecFns;
use vstd::string::StrSliceExecFns;

verus! {

/// Byte offsets at which `UnicodeSegmentation::grapheme_indices(text, true)`
/// starts each extended grapheme cluster of `text`, in order.
pub uninterp spec fn grapheme_starts(text: Seq<char>) -> Seq<usize>;

/// What the segmentation always gives: the clusters cut the text into
/// non-empty pieces, in order, each starting on a character.
pub open spec fn grapheme_starts_well_formed(text: Seq<char>, starts: Seq<usize>) -> bool {
    &&& (starts.len() == 0 <==> text.len() == 0)
    &&& (starts.len() > 0 ==> starts[0] == 0)
    &&& forall|i: int, j: int| 0 <= i < j < starts.len() ==> starts[i] < starts[j]
    &&& forall|i: int|
        0 <= i < starts.len() ==> starts[i] < byte_len(text) && is_char_boundary_of(
            text,
            #[trigger] starts[i] as int,
        )
}

/// The start offsets of the extended grapheme clusters of `text`, as
/// `unicode_segmentation`'s `grapheme_indices(text, true)` reports them.
///
/// Trusted: the contract claims that the result is the sequence named
/// `grapheme_starts` for this text (the segmentation rules of UAX #29 are
/// not restated), and that the clusters partition the text: offsets
/// increase, the first is 0, each starts a character and lies inside the
/// text, and there are none exactly when the text is empty.
#[verifier::external_body]
pub(crate) fn grapheme_offsets(text: &str) -> (starts: Vec<usize>)
    ensures
        starts@ == grapheme_starts(text@),
        grapheme_starts_well_formed(text@, starts@),
{
    text.grapheme_indices(true).map(|(i, _)| i).collect()
}

/// Whether `char::is_whitespace` holds of a character (the Unicode
/// `White_Space` property).
pub uninterp spec fn char_is_whitespace(c: char) -> bool;

/// Whether `char::is_alphanumeric` holds of a character (Unicode
/// `Alphabetic` or `Numeric`).
pub uninterp spec fn char_is_alphanumeric(c: char) -> bool;

/// Calls `char::is_whitespace`; trusted to return the named property of `c`.
#[verifier::external_body]
pub(crate) fn is_whitespace(c: char) -> (b: bool)
    ensures
        b == char_is_whitespace(c),
{
    c.is_whitespace()
}

/// Calls `char::is_alphanumeric`; trusted to return the named property of `c`.
#[verifier::external_body]
fn is_alphanumeric(c: char) -> (b: bool)
    ensures
        b == char_is_alphanumeric(c),
{
    c.is_alphanumeric()
}

/// `'0'..='9'`.
pub open spec fn is_ascii_digit_spec(c: char) -> bool {
    0x30 <= (c as u32) <= 0x39
}

fn is_ascii_digit(c: char) -> (b: bool)
    ensures
        b == is_ascii_digit_spec(c),
{
    let v = c as u32;
    0x30 <= v && v <= 0x39
}

/// Character classes for word motion.
#[derive(Debug, Clone, Copy, PartialEq, Eq, Structural)]
pub enum CharType {
    Whitespace,
    Word,
    Punctuation,
}

/// The class of `ch` given its neighbours: whitespace; word characters
/// (alphanumerics, `_`, and a `.` between two ASCII digits); punctuation.
pub open spec fn char_type_spec(ch: char, next: Option<char>, prev: Option<char>) -> CharType {
    if char_is_whitespace(ch) {
        CharType::Whitespace
    } else if char_is_alphanumeric(ch) || ch == '_' || (ch == '.' && (prev matches Some(c)
        && is_ascii_digit_spec(c)) && (next matches Some(c) && is_ascii_digit_spec(c))) {
        CharType::Word
    } else {
        CharType::Punctuation
    }
}

/// The class of the character at index `k` of `s`.
pub open spec fn kind_at(s: Seq<char>, k: int) -> CharType {
    char_type_spec(
        s[k],
        if k + 1 < s.len() {
            Some(s[k + 1])
        } else {
            None
        },
        if k > 0 {
            Some(s[k - 1])
        } else {
            None
        },
    )
}

/// Number of characters of `s` that start before byte offset `offset`.
pub open spec fn chars_before(s: Seq<char>, offset: int) -> nat
    decreases s.len(),
{
    if s.len() == 0 || offset <= 0 {
        0
    } else {
        1 + chars_before(s.drop_first(), offset - utf8_width(s[0]))
    }
}

/// Number of characters of `s` that start before UTF-16 offset `offset`.
pub open spec fn chars_before_utf16(s: Seq<char>, offset: int) -> nat
    decreases s.len(),
{
    if s.len() == 0 || offset <= 0 {
        0
    } else {
        1 + chars_before_utf16(s.drop_first(), offset - utf16_width(s[0]))
    }
}

/// The largest element of `st` below `bound`, or 0 when there is none.
pub open spec fn last_below(st: Seq<usize>, bound: int) -> int
    decreases st.len(),
{
    if st.len() == 0 {
        0
    } else if st.last() < bound {
        st.last() as int
    } else {
        last_below(st.drop_last(), bound)
    }
}

/// The first element of `st` above `bound`, or `default` when there is none.
pub open spec fn first_above(st: Seq<usize>, bound: int, default: int) -> int
    decreases st.len(),
{
    if st.len() == 0 {
        default
    } else if st[0] > bound {
        st[0] as int
    } else {
        first_above(st.drop_first(), bound, default)
    }
}

/// The grapheme boundary before `offset` (0 at the start).
pub open spec fn previous_boundary_spec(text: Seq<char>, offset: int) -> int {
    if offset == 0 {
        0
    } else {
        last_below(grapheme_starts(text), offset)
    }
}

/// The grapheme boundary after `offset` (the text's length at the end).
pub open spec fn next_boundary_spec(text: Seq<char>, offset: int) -> int {
    if offset >= byte_len(text) {
        byte_len(text) as int
    } else {
        first_above(grapheme_starts(text), offset, byte_len(text) as int)
    }
}

/// The largest index `j < k` whose character is not whitespace, or -1.
pub open spec fn last_non_whitespace(s: Seq<char>, k: int) -> int
    decreases k,
{
    if k <= 0 {
        -1
    } else if kind_at(s, k - 1) != CharType::Whitespace {
        k - 1
    } else {
        last_non_whitespace(s, k - 1)
    }
}

/// The largest index `i < k` whose class differs from `t`, or -1.
pub open spec fn last_other_kind(s: Seq<char>, k: int, t: CharType) -> int
    decreases k,
{
    if k <= 0 {
        -1
    } else if kind_at(s, k - 1) != t {
        k - 1
    } else {
        last_other_kind(s, k - 1, t)
    }
}

/// The smallest index `j >= k` whose character is not whitespace, or `s.len()`.
pub open spec fn first_non_whitespace(s: Seq<char>, k: int) -> int
    decreases s.len() - k,
{
    if k >= s.len() {
        s.len() as int
    } else if kind_at(s, k) != CharType::Whitespace {
        k
    } else {
        first_non_whitespace(s, k + 1)
    }
}

/// The smallest index `i >= k` whose class differs from `t`, or `s.len()`.
pub open spec fn first_other_kind(s: Seq<char>, k: int, t: CharType) -> int
    decreases s.len() - k,
{
    if k >= s.len() {
        s.len() as int
    } else if kind_at(s, k) != t {
        k
    } else {
        first_other_kind(s, k + 1, t)
    }
}

/// Start of the word before `offset`: skip whitespace backwards, then the
/// run of characters of the same class; the boundary is the grapheme
/// boundary after the character that ends the run (0 if the run reaches
/// the start).
pub open spec fn previous_word_boundary_spec(text: Seq<char>, offset: int) -> int {
    if offset == 0 {
        0
    } else {
        let j = last_non_whitespace(text, chars_before(text, offset) as int);
        if j < 0 {
            0
        } else {
            let i = last_other_kind(text, j, kind_at(text, j));
            if i < 0 {
                0
            } else {
                next_boundary_spec(text, byte_offset(text, i) as int)
            }
        }
    }
}

/// End of the word after `offset`: skip whitespace forwards, then the run
/// of characters of the same class; the boundary is where the next class
/// starts (the text's length if the run reaches the end).
pub open spec fn next_word_boundary_spec(text: Seq<char>, offset: int) -> int {
    if offset >= byte_len(text) {
        byte_len(text) as int
    } else {
        let j = first_non_whitespace(text, chars_before(text, offset) as int);
        if j >= text.len() {
            byte_len(text) as int
        } else {
            let i = first_other_kind(text, j + 1, kind_at(text, j));
            if i >= text.len() {
                byte_len(text) as int
            } else {
                byte_offset(text, i) as int
            }
        }
    }
}

/// The grapheme boundary at or before `offset`; offsets past the end give
/// the text's length.
pub open spec fn snap_spec(text: Seq<char>, offset: int) -> int {
    if offset >= byte_len(text) {
        byte_len(text) as int
    } else {
        last_below(grapheme_starts(text), offset + 1)
    }
}

/// Byte offset of grapheme number `n`, or the text's length past the last one.
pub open spec fn grapheme_to_byte_spec(text: Seq<char>, n: int) -> int {
    if 0 <= n < grapheme_starts(text).len() {
        grapheme_starts(text)[n] as int
    } else {
        byte_len(text) as int
    }
}

/// UTF-16 offset of the character boundary reached from byte offset `offset`
/// (the first character starting at or after it).
pub open spec fn offset_to_utf16_spec(text: Seq<char>, offset: int) -> int {
    utf16_len(text.take(chars_before(text, offset) as int)) as int
}

/// Byte offset of the character boundary reached from UTF-16 offset `offset`.
pub open spec fn offset_from_utf16_spec(text: Seq<char>, offset: int) -> int {
    byte_len(text.take(chars_before_utf16(text, offset) as int)) as int
}

proof fn lemma_last_below(st: Seq<usize>, bound: int)
    ensures
        last_below(st, bound) == 0 || exists|i: int|
            0 <= i < st.len() && #[trigger] st[i] == last_below(st, bound) && st[i] < bound,
    decreases st.len(),
{
    if st.len() > 0 && st.last() >= bound {
        lemma_last_below(st.drop_last(), bound);
        if last_below(st.drop_last(), bound) != 0 {
            let i = choose|i: int|
                0 <= i < st.drop_last().len() && #[trigger] st.drop_last()[i] == last_below(
                    st.drop_last(),
                    bound,
                ) && st.drop_last()[i] < bound;
            assert(st[i] == st.drop_last()[i]);
        }
    } else if st.len() > 0 {
        assert(st[st.len() - 1] == st.last());
    }
}

proof fn lemma_first_above(st: Seq<usize>, bound: int, default: int)
    ensures
        first_above(st, bound, default) == default || exists|i: int|
            0 <= i < st.len() && #[trigger] st[i] == first_above(st, bound, default) && st[i]
                > bound,
    decreases st.len(),
{
    if st.len() > 0 && st[0] <= bound {
        lemma_first_above(st.drop_first(), bound, default);
        if first_above(st.drop_first(), bound, default) != default {
            let i = choose|i: int|
                0 <= i < st.drop_first().len() && #[trigger] st.drop_first()[i] == first_above(
                    st.drop_first(),
                    bound,
                    default,
                ) && st.drop_first()[i] > bound;
            assert(st[i + 1] == st.drop_first()[i]);
        }
    }
}

/// What the grapheme searches return lies on character boundaries of the text.
pub proof fn lemma_grapheme_results(text: Seq<char>, offset: int)
    requires
        grapheme_starts_well_formed(text, grapheme_starts(text)),
        0 <= offset,
    ensures
        is_char_boundary_of(text, previous_boundary_spec(text, offset)),
        previous_boundary_spec(text, offset) <= byte_len(text),
        offset > 0 ==> previous_boundary_spec(text, offset) < offset,
        offset == 0 ==> previous_boundary_spec(text, offset) == 0,
        is_char_boundary_of(text, next_boundary_spec(text, offset)),
        next_boundary_spec(text, offset) <= byte_len(text),
        offset < byte_len(text) ==> offset < next_boundary_spec(text, offset),
        is_char_boundary_of(text, snap_spec(text, offset)),
        snap_spec(text, offset) <= byte_len(text),
        offset < byte_len(text) ==> snap_spec(text, offset) <= offset,
        is_char_boundary_of(text, grapheme_to_byte_spec(text, offset)),
        grapheme_to_byte_spec(text, offset) <= byte_len(text),
{
    let st = grapheme_starts(text);
    lemma_ends_are_boundaries(text);
    lemma_last_below(st, offset);
    lemma_last_below(st, offset + 1);
    lemma_first_above(st, offset, byte_len(text) as int);
    if 0 <= offset < st.len() {
        assert(is_char_boundary_of(text, st[offset] as int));
    }
}

proof fn lemma_offset_shift(s: Seq<char>, i: int)
    requires
        0 <= i < s.len(),
    ensures
        byte_offset(s, i + 1) == utf8_width(s[0]) + byte_offset(s.drop_first(), i),
        utf16_len(s.take(i + 1)) == utf16_width(s[0]) + utf16_len(s.drop_first().take(i)),
{
    let one = seq![s[0]];
    assert(s.take(i + 1) =~= one + s.drop_first().take(i));
    lemma_byte_len_concat(one, s.drop_first().take(i));
    assert(one.drop_last() =~= Seq::<char>::empty());
    assert(one.last() == s[0]);
    assert(byte_len(one.drop_last()) == 0);
    assert(utf16_len(one.drop_last()) == 0);
    assert(byte_len(one) == utf8_width(s[0]));
    assert(utf16_len(one) == utf16_width(s[0]));
}

/// `chars_before` counts the leading characters that start before `offset`.
proof fn lemma_chars_before(s: Seq<char>, offset: int, k: int)
    requires
        0 <= k <= s.len(),
        forall|i: int| 0 <= i < k ==> byte_offset(s, i) < offset,
        k < s.len() ==> byte_offset(s, k) >= offset,
    ensures
        chars_before(s, offset) == k,
    decreases s.len(),
{
    assert(s.take(0) =~= Seq::<char>::empty());
    if s.len() == 0 || offset <= 0 {
        if k > 0 {
            assert(byte_offset(s, 0) < offset);
        }
    } else {
        if k == 0 {
            assert(byte_offset(s, 0) >= offset);
        }
        let t = s.drop_first();
        let o2 = offset - utf8_width(s[0]);
        assert forall|i: int| 0 <= i < k - 1 implies byte_offset(t, i) < o2 by {
            lemma_offset_shift(s, i);
            assert(byte_offset(s, i + 1) < offset);
        }
        if k - 1 < t.len() {
            lemma_offset_shift(s, k - 1);
        }
        lemma_chars_before(t, o2, k - 1);
    }
}

/// `chars_before_utf16` counts the leading characters that start before UTF-16 offset `offset`.
proof fn lemma_chars_before_utf16(s: Seq<char>, offset: int, k: int)
    requires
        0 <= k <= s.len(),
        forall|i: int| 0 <= i < k ==> utf16_len(s.take(i)) < offset,
        k < s.len() ==> utf16_len(s.take(k)) >= offset,
    ensures
        chars_before_utf16(s, offset) == k,
    decreases s.len(),
{
    assert(s.take(0) =~= Seq::<char>::empty());
    if s.len() == 0 || offset <= 0 {
        if k > 0 {
            assert(utf16_len(s.take(0)) < offset);
        }
    } else {
        if k == 0 {
            assert(utf16_len(s.take(0)) >= offset);
        }
        let t = s.drop_first();
        let o2 = offset - utf16_width(s[0]);
        assert forall|i: int| 0 <= i < k - 1 implies utf16_len(t.take(i)) < o2 by {
            lemma_offset_shift(s, i);
            assert(utf16_len(s.take(i + 1)) < offset);
        }
        if k - 1 < t.len() {
            lemma_offset_shift(s, k - 1);
        }
        lemma_chars_before_utf16(t, o2, k - 1);
    }
}

/// The number of characters of `text` that start before `offset`, found by scanning
/// the offset table.
fn count_before(offs: &Vec<usize>, n: usize, offset: usize, Ghost(text): Ghost<Seq<char>>) -> (k: usize)
    requires
        n == text.len(),
        offs.len() == n + 1,
        forall|i: int| 0 <= i <= n ==> offs[i] == byte_offset(text, i),
    ensures
        k == chars_before(text, offset as int),
        k <= n,
        k < n ==> byte_offset(text, k as int) >= offset,
{
    let mut k: usize = 0;
    while k < n && offs[k] < offset
        invariant
            k <= n,
            n == text.len(),
            offs.len() == n + 1,
            forall|i: int| 0 <= i <= n ==> offs[i] == byte_offset(text, i),
            forall|i: int| 0 <= i < k ==> byte_offset(text, i) < offset,
        decreases n - k,
    {
        k += 1;
    }
    proof {
        lemma_chars_before(text, offset as int, k as int);
    }
    k
}

/// The class of every character of `chars`.
fn kinds_of(chars: &Vec<char>) -> (kinds: Vec<CharType>)
    ensures
        kinds.len() == chars.len(),
        forall|k: int| 0 <= k < chars.len() ==> kinds[k] == kind_at(chars@, k),
{
    let n = chars.len();
    let mut kinds: Vec<CharType> = Vec::new();
    let mut k: usize = 0;
    while k < n
        invariant
            n == chars.len(),
            k <= n,
            kinds.len() == k,
            forall|i: int| 0 <= i < k ==> kinds[i] == kind_at(chars@, i),
        decreases n - k,
    {
        let next = if k + 1 < n {
            Some(chars[k + 1])
        } else {
            None
        };
        let prev = if k > 0 {
            Some(chars[k - 1])
        } else {
            None
        };
        kinds.push(TextOps::char_type(chars[k], next, prev));
        k += 1;
    }
    kinds
}

/// At the start of character `k`, exactly `k` characters start before.
pub proof fn lemma_chars_before_boundary(s: Seq<char>, k: int)
    requires
        0 <= k <= s.len(),
    ensures
        chars_before(s, byte_offset(s, k) as int) == k,
{
    let offset = byte_offset(s, k) as int;
    assert forall|i: int| 0 <= i < k implies byte_offset(s, i) < offset by {
        lemma_prefix_monotone(s, i, k);
    }
    lemma_chars_before(s, offset, k);
}

/// Converting a character boundary to UTF-16 and back gives it back.
pub proof fn law_utf16_round_trip(text: Seq<char>, offset: int)
    requires
        is_char_boundary_of(text, offset),
    ensures
        offset_from_utf16_spec(text, offset_to_utf16_spec(text, offset)) == offset,
{
    let k = choose|k: int| 0 <= k <= text.len() && #[trigger] byte_offset(text, k) == offset;
    assert forall|i: int| 0 <= i < k implies byte_offset(text, i) < offset by {
        lemma_prefix_monotone(text, i, k);
    }
    if k < text.len() {
        lemma_prefix_monotone(text, k, k);
    }
    lemma_chars_before(text, offset, k);
    let u = utf16_len(text.take(k)) as int;
    assert forall|i: int| 0 <= i < k implies utf16_len(text.take(i)) < u by {
        lemma_prefix_monotone(text, i, k);
    }
    lemma_chars_before_utf16(text, u, k);
}

/// Converting a UTF-16 character boundary to bytes and back gives it back.
pub proof fn law_utf16_round_trip_from_utf16(text: Seq<char>, k: int)
    requires
        0 <= k <= text.len(),
    ensures
        offset_to_utf16_spec(text, offset_from_utf16_spec(text, utf16_len(text.take(k)) as int))
            == utf16_len(text.take(k)),
{
    let u = utf16_len(text.take(k)) as int;
    assert forall|i: int| 0 <= i < k implies utf16_len(text.take(i)) < u by {
        lemma_prefix_monotone(text, i, k);
    }
    lemma_chars_before_utf16(text, u, k);
    let o = byte_offset(text, k) as int;
    assert forall|i: int| 0 <= i < k implies byte_offset(text, i) < o by {
        lemma_prefix_monotone(text, i, k);
    }
    lemma_chars_before(text, o, k);
}

/// `chars_before_utf16` grows with the offset.
proof fn lemma_chars_before_utf16_monotone(s: Seq<char>, a: int, b: int)
    requires
        a <= b,
    ensures
        chars_before_utf16(s, a) <= chars_before_utf16(s, b),
    decreases s.len(),
{
    if s.len() > 0 && a > 0 {
        lemma_chars_before_utf16_monotone(s.drop_first(), a - utf16_width(s[0]), b - utf16_width(
            s[0],
        ));
    }
}

/// `chars_before_utf16` never exceeds the number of characters.
proof fn lemma_chars_before_utf16_bound(s: Seq<char>, a: int)
    ensures
        chars_before_utf16(s, a) <= s.len(),
    decreases s.len(),
{
    if s.len() > 0 && a > 0 {
        lemma_chars_before_utf16_bound(s.drop_first(), a - utf16_width(s[0]));
    }
}

/// Converting from UTF-16 keeps the order of offsets.
pub proof fn law_offset_from_utf16_monotone(text: Seq<char>, a: int, b: int)
    requires
        a <= b,
    ensures
        offset_from_utf16_spec(text, a) <= offset_from_utf16_spec(text, b),
{
    lemma_chars_before_utf16_monotone(text, a, b);
    lemma_chars_before_utf16_bound(text, b);
    lemma_prefix_monotone(text, chars_before_utf16(text, a) as int, chars_before_utf16(text, b) as int);
}


/// `chars_before` grows with the offset.
pub proof fn lemma_chars_before_monotone(s: Seq<char>, a: int, b: int)
    requires
        a <= b,
    ensures
        chars_before(s, a) <= chars_before(s, b),
        chars_before(s, b) <= s.len(),
    decreases s.len(),
{
    if s.len() > 0 && b > 0 {
        if a > 0 {
            lemma_chars_before_monotone(s.drop_first(), a - utf8_width(s[0]), b - utf8_width(s[0]));
        } else {
            lemma_chars_before_monotone(s.drop_first(), b - utf8_width(s[0]), b - utf8_width(s[0]));
        }
    }
}

/// Converting to UTF-16 keeps the order of offsets.
pub proof fn law_offset_to_utf16_monotone(text: Seq<char>, a: int, b: int)
    requires
        a <= b,
    ensures
        offset_to_utf16_spec(text, a) <= offset_to_utf16_spec(text, b),
{
    lemma_chars_before_monotone(text, a, b);
    lemma_prefix_monotone(text, chars_before(text, a) as int, chars_before(text, b) as int);
}

/// In an increasing sequence, `last_below` is the last element below the
/// bound, with every later element at or above it.
proof fn lemma_last_below_sorted(st: Seq<usize>, bound: int)
    requires
        forall|i: int, j: int| 0 <= i < j < st.len() ==> st[i] < st[j],
    ensures
        (forall|j: int| 0 <= j < st.len() ==> st[j] >= bound) || exists|i: int|
            0 <= i < st.len() && #[trigger] st[i] == last_below(st, bound) && st[i] < bound
                && forall|j: int| i < j < st.len() ==> st[j] >= bound,
    decreases st.len(),
{
    if st.len() > 0 {
        if st.last() < bound {
            assert(st[st.len() - 1] == last_below(st, bound));
        } else {
            let d = st.drop_last();
            lemma_last_below_sorted(d, bound);
            if !(forall|j: int| 0 <= j < st.len() ==> st[j] >= bound) {
                if forall|j: int| 0 <= j < d.len() ==> d[j] >= bound {
                    assert forall|j: int| 0 <= j < st.len() implies st[j] >= bound by {
                        if j < d.len() {
                            assert(d[j] == st[j]);
                        }
                    }
                }
                let i = choose|i: int|
                    0 <= i < d.len() && #[trigger] d[i] == last_below(d, bound) && d[i] < bound
                        && forall|j: int| i < j < d.len() ==> d[j] >= bound;
                assert(st[i] == d[i]);
                assert forall|j: int| i < j < st.len() implies st[j] >= bound by {
                    if j < d.len() {
                        assert(d[j] == st[j]);
                    }
                }
            }
        }
    }
}

/// When element `i` is below `bound` and all later ones are not, `last_below` is element `i`.
proof fn lemma_last_below_at(st: Seq<usize>, bound: int, i: int)
    requires
        0 <= i < st.len(),
        st[i] < bound,
        forall|j: int| i < j < st.len() ==> st[j] >= bound,
    ensures
        last_below(st, bound) == st[i],
    decreases st.len(),
{
    if i < st.len() - 1 {
        let d = st.drop_last();
        assert(d[i] == st[i]);
        lemma_last_below_at(d, bound, i);
    }
}

/// Snapping an offset that is already snapped leaves it where it is.
pub proof fn law_snap_idempotent(text: Seq<char>, offset: int)
    requires
        grapheme_starts_well_formed(text, grapheme_starts(text)),
        0 <= offset,
    ensures
        snap_spec(text, snap_spec(text, offset)) == snap_spec(text, offset),
{
    let st = grapheme_starts(text);
    if offset < byte_len(text) {
        lemma_last_below_sorted(st, offset + 1);
        assert(st.len() > 0) by {
            if text.len() == 0 {
                assert(byte_len(text) == 0);
            }
        }
        assert(st[0] < offset + 1);
        let i = choose|i: int|
            0 <= i < st.len() && #[trigger] st[i] == last_below(st, offset + 1) && st[i]
                < offset + 1 && forall|j: int| i < j < st.len() ==> st[j] >= offset + 1;
        let r = st[i] as int;
        assert(r < byte_len(text));
        lemma_last_below_at(st, r + 1, i);
    }
}

/// Stepping one grapheme right and then one left lands on the grapheme
/// boundary at or before the starting offset.
pub proof fn law_next_then_previous(text: Seq<char>, offset: int)
    requires
        grapheme_starts_well_formed(text, grapheme_starts(text)),
        0 <= offset < byte_len(text),
    ensures
        previous_boundary_spec(text, next_boundary_spec(text, offset)) == snap_spec(text, offset),
{
    let st = grapheme_starts(text);
    let n = next_boundary_spec(text, offset);
    lemma_grapheme_results(text, offset);
    assert(st.len() > 0) by {
        if text.len() == 0 {
            assert(byte_len(text) == 0);
        }
    }
    assert(st[0] < offset + 1);
    lemma_last_below_sorted(st, offset + 1);
    let i = choose|i: int|
        0 <= i < st.len() && #[trigger] st[i] == last_below(st, offset + 1) && st[i] < offset + 1
            && forall|j: int| i < j < st.len() ==> st[j] >= offset + 1;
    lemma_first_above_sorted(st, offset, byte_len(text) as int, i + 1);
    lemma_last_below_at(st, n, i);
}

/// In an increasing sequence, every element below the bound is at most `last_below`.
proof fn lemma_last_below_greatest(st: Seq<usize>, bound: int)
    requires
        forall|a: int, b: int| 0 <= a < b < st.len() ==> st[a] < st[b],
    ensures
        forall|j: int| 0 <= j < st.len() && st[j] < bound ==> st[j] <= last_below(st, bound),
    decreases st.len(),
{
    if st.len() > 0 {
        let d = st.drop_last();
        lemma_last_below_greatest(d, bound);
        assert forall|j: int| 0 <= j < st.len() && st[j] < bound implies st[j] <= last_below(st, bound) by {
            if st.last() < bound {
                if j < st.len() - 1 {
                    assert(st[j] < st[st.len() - 1]);
                }
            } else {
                assert(j < st.len() - 1);
                assert(d[j] == st[j]);
            }
        }
    }
}

/// In an increasing sequence, `first_above` is at most every element above
/// the bound, and is either one of them or `default` when there is none.
proof fn lemma_first_above_least(st: Seq<usize>, bound: int, default: int)
    requires
        forall|a: int, b: int| 0 <= a < b < st.len() ==> st[a] < st[b],
    ensures
        forall|j: int| 0 <= j < st.len() && st[j] > bound ==> st[j] >= first_above(st, bound, default),
        (first_above(st, bound, default) == default && forall|j: int| 0 <= j < st.len() ==> st[j] <= bound)
            || exists|i: int| 0 <= i < st.len() && st[i] == first_above(st, bound, default) && st[i] > bound,
    decreases st.len(),
{
    if st.len() > 0 {
        let d = st.drop_first();
        assert forall|a: int, b: int| 0 <= a < b < d.len() implies d[a] < d[b] by {
            assert(d[a] == st[a + 1] && d[b] == st[b + 1]);
        }
        lemma_first_above_least(d, bound, default);
        if st[0] > bound {
            assert forall|j: int| 0 <= j < st.len() && #[trigger] st[j] > bound implies st[j] >= st[0] by {
                if j > 0 {
                    assert(st[0] < st[j]);
                }
            }
        } else {
            assert forall|j: int| 0 <= j < st.len() && st[j] > bound implies st[j] >= first_above(st, bound, default) by {
                assert(j > 0);
                assert(d[j - 1] == st[j]);
            }
            if first_above(d, bound, default) == default && forall|j: int| 0 <= j < d.len() ==> d[j] <= bound {
                assert forall|j: int| 0 <= j < st.len() implies st[j] <= bound by {
                    if j > 0 {
                        assert(d[j - 1] == st[j]);
                    }
                }
            } else {
                let i = choose|i: int| 0 <= i < d.len() && d[i] == first_above(d, bound, default) && d[i] > bound;
                assert(st[i + 1] == d[i]);
            }
        }
    }
}

/// Whether byte offset `b` is a grapheme boundary of `text`: the start of a
/// cluster, or the end of the text.
pub open spec fn is_grapheme_boundary(text: Seq<char>, b: int) -> bool {
    b == byte_len(text) || exists|i: int| 0 <= i < grapheme_starts(text).len() && grapheme_starts(text)[i] == b
}

/// Snapping gives the closest grapheme boundary at or before the offset;
/// offsets at or past the end give the text's length.
pub proof fn law_snap_closest(text: Seq<char>, offset: int)
    requires
        grapheme_starts_well_formed(text, grapheme_starts(text)),
        0 <= offset,
    ensures
        offset >= byte_len(text) ==> snap_spec(text, offset) == byte_len(text),
        offset < byte_len(text) ==> {
            &&& snap_spec(text, offset) <= offset
            &&& is_grapheme_boundary(text, snap_spec(text, offset))
            &&& forall|j: int| 0 <= j < grapheme_starts(text).len() && grapheme_starts(text)[j] <= offset
                ==> grapheme_starts(text)[j] <= snap_spec(text, offset)
        },
{
    let st = grapheme_starts(text);
    if offset < byte_len(text) {
        assert(st.len() > 0) by {
            if text.len() == 0 {
                assert(byte_len(text) == 0);
            }
        }
        assert(st[0] < offset + 1);
        lemma_last_below_sorted(st, offset + 1);
        lemma_last_below_greatest(st, offset + 1);
        let i = choose|i: int|
            0 <= i < st.len() && #[trigger] st[i] == last_below(st, offset + 1) && st[i] < offset + 1
                && forall|j: int| i < j < st.len() ==> st[j] >= offset + 1;
        assert(st[i] == snap_spec(text, offset));
    }
}

/// The previous grapheme boundary is the largest cluster start below the
/// offset; at the start of the text, or in an empty text, it is 0.
pub proof fn law_previous_boundary_greatest(text: Seq<char>, offset: int)
    requires
        grapheme_starts_well_formed(text, grapheme_starts(text)),
        0 <= offset,
    ensures
        offset == 0 || text.len() == 0 ==> previous_boundary_spec(text, offset) == 0,
        offset > 0 && text.len() > 0 ==> {
            &&& previous_boundary_spec(text, offset) < offset
            &&& exists|i: int| 0 <= i < grapheme_starts(text).len()
                && grapheme_starts(text)[i] == previous_boundary_spec(text, offset)
            &&& forall|j: int| 0 <= j < grapheme_starts(text).len() && grapheme_starts(text)[j] < offset
                ==> grapheme_starts(text)[j] <= previous_boundary_spec(text, offset)
        },
{
    let st = grapheme_starts(text);
    if offset > 0 && text.len() > 0 {
        assert(st.len() > 0);
        assert(st[0] < offset);
        lemma_last_below_sorted(st, offset);
        lemma_last_below_greatest(st, offset);
    }
}

/// The next grapheme boundary is the smallest cluster start above the
/// offset, or the text's length when there is none; at or past the end it
/// is the text's length.
pub proof fn law_next_boundary_least(text: Seq<char>, offset: int)
    requires
        grapheme_starts_well_formed(text, grapheme_starts(text)),
        0 <= offset,
    ensures
        offset >= byte_len(text) ==> next_boundary_spec(text, offset) == byte_len(text),
        offset < byte_len(text) ==> {
            &&& offset < next_boundary_spec(text, offset) <= byte_len(text)
            &&& is_grapheme_boundary(text, next_boundary_spec(text, offset))
            &&& forall|j: int| 0 <= j < grapheme_starts(text).len() && grapheme_starts(text)[j] > offset
                ==> grapheme_starts(text)[j] >= next_boundary_spec(text, offset)
        },
{
    let st = grapheme_starts(text);
    if offset < byte_len(text) {
        lemma_grapheme_results(text, offset);
        lemma_first_above_least(st, offset, byte_len(text) as int);
    }
}

/// From a cluster start, a step right and a step left come back to it.
pub proof fn law_start_next_then_previous(text: Seq<char>, i: int)
    requires
        grapheme_starts_well_formed(text, grapheme_starts(text)),
        0 <= i < grapheme_starts(text).len(),
    ensures
        previous_boundary_spec(text, next_boundary_spec(text, grapheme_starts(text)[i] as int))
            == grapheme_starts(text)[i],
{
    let st = grapheme_starts(text);
    let g = st[i] as int;
    law_next_then_previous(text, g);
    assert forall|j: int| i < j < st.len() implies st[j] >= g + 1 by {
        assert(st[i] < st[j]);
    }
    lemma_last_below_at(st, g + 1, i);
}

/// At the start of character `k`, the UTF-16 offset is the UTF-16 length of
/// the first `k` characters.
pub proof fn law_offset_to_utf16_prefix(text: Seq<char>, k: int)
    requires
        0 <= k <= text.len(),
    ensures
        offset_to_utf16_spec(text, byte_offset(text, k) as int) == utf16_len(text.take(k)),
{
    lemma_chars_before_boundary(text, k);
}

/// The characters counted by `chars_before` start before the offset, and
/// the next one, if any, at or after it.
proof fn lemma_chars_before_bounds(s: Seq<char>, offset: int)
    ensures
        chars_before(s, offset) <= s.len(),
        forall|i: int| 0 <= i < chars_before(s, offset) ==> #[trigger] byte_offset(s, i) < offset,
        chars_before(s, offset) < s.len() ==> byte_offset(s, chars_before(s, offset) as int) >= offset,
    decreases s.len(),
{
    assert(s.take(0) =~= Seq::<char>::empty());
    if s.len() > 0 && offset > 0 {
        let t = s.drop_first();
        let o2 = offset - utf8_width(s[0]);
        lemma_chars_before_bounds(t, o2);
        let cb = chars_before(s, offset);
        assert forall|i: int| 0 <= i < cb implies #[trigger] byte_offset(s, i) < offset by {
            if i > 0 {
                lemma_offset_shift(s, i - 1);
                assert(byte_offset(t, i - 1) < o2);
            }
        }
        if cb < s.len() {
            lemma_offset_shift(s, cb - 1);
        }
    }
}

/// `last_non_whitespace` lies below `k`, and is -1 when every character
/// below `k` is whitespace.
proof fn lemma_last_non_whitespace_range(s: Seq<char>, k: int)
    requires
        0 <= k <= s.len(),
    ensures
        -1 <= last_non_whitespace(s, k) < k,
        (forall|m: int| 0 <= m < k ==> char_is_whitespace(#[trigger] s[m])) ==> last_non_whitespace(s, k) == -1,
    decreases k,
{
    if k > 0 {
        lemma_last_non_whitespace_range(s, k - 1);
    }
}

/// `last_other_kind` lies below `k`.
proof fn lemma_last_other_kind_range(s: Seq<char>, k: int, t: CharType)
    ensures
        -1 <= last_other_kind(s, k, t) < if k > 0 { k } else { 0 },
    decreases k,
{
    if k > 0 {
        lemma_last_other_kind_range(s, k - 1, t);
    }
}

/// `first_non_whitespace` lies between `k` and the end, and is the end when
/// every character from `k` on is whitespace.
proof fn lemma_first_non_whitespace_range(s: Seq<char>, k: int)
    requires
        0 <= k <= s.len(),
    ensures
        k <= first_non_whitespace(s, k) <= s.len(),
        (forall|m: int| k <= m < s.len() ==> char_is_whitespace(#[trigger] s[m])) ==> first_non_whitespace(s, k)
            == s.len(),
    decreases s.len() - k,
{
    if k < s.len() {
        lemma_first_non_whitespace_range(s, k + 1);
    }
}

/// `first_other_kind` lies between `k` and the end.
proof fn lemma_first_other_kind_range(s: Seq<char>, k: int, t: CharType)
    requires
        0 <= k <= s.len(),
    ensures
        k <= first_other_kind(s, k, t) <= s.len(),
    decreases s.len() - k,
{
    if k < s.len() {
        lemma_first_other_kind_range(s, k + 1, t);
    }
}

/// From a grapheme boundary, the previous word boundary lies at or before
/// it, is 0 or a grapheme boundary, and is 0 when only whitespace comes
/// before the offset.
pub proof fn law_previous_word_boundary(text: Seq<char>, offset: int)
    requires
        grapheme_starts_well_formed(text, grapheme_starts(text)),
        is_grapheme_boundary(text, offset),
    ensures
        previous_word_boundary_spec(text, offset) <= offset,
        previous_word_boundary_spec(text, offset) == 0 || is_grapheme_boundary(
            text,
            previous_word_boundary_spec(text, offset),
        ),
        (forall|m: int| 0 <= m < chars_before(text, offset) ==> char_is_whitespace(#[trigger] text[m]))
            ==> previous_word_boundary_spec(text, offset) == 0,
{
    let st = grapheme_starts(text);
    lemma_ends_are_boundaries(text);
    if offset != byte_len(text) {
        let m = choose|m: int| 0 <= m < st.len() && st[m] == offset;
        assert(st[m] < byte_len(text));
    }
    if offset > 0 {
        let n0 = chars_before(text, offset) as int;
        lemma_chars_before_bounds(text, offset);
        lemma_last_non_whitespace_range(text, n0);
        let j = last_non_whitespace(text, n0);
        if j >= 0 {
            let i = last_other_kind(text, j, kind_at(text, j));
            lemma_last_other_kind_range(text, j, kind_at(text, j));
            if i >= 0 {
                let b = byte_offset(text, i) as int;
                assert(b < offset);
                law_next_boundary_least(text, b);
                lemma_grapheme_results(text, b);
                if offset != byte_len(text) {
                    let m = choose|m: int| 0 <= m < st.len() && st[m] == offset;
                    assert(st[m] > b);
                }
            }
        }
    }
}

/// The next word boundary of an offset before the end lies after it, on a
/// character boundary, and is the end when only whitespace comes from the
/// offset on; at or past the end it is the text's length.
pub proof fn law_next_word_boundary(text: Seq<char>, offset: int)
    requires
        0 <= offset,
    ensures
        offset >= byte_len(text) ==> next_word_boundary_spec(text, offset) == byte_len(text),
        offset < byte_len(text) ==> {
            &&& offset <= next_word_boundary_spec(text, offset) <= byte_len(text)
            &&& is_char_boundary_of(text, next_word_boundary_spec(text, offset))
        },
        offset < byte_len(text) && (forall|m: int| chars_before(text, offset) <= m < text.len() ==> char_is_whitespace(
            #[trigger] text[m],
        )) ==> next_word_boundary_spec(text, offset) == byte_len(text),
{
    lemma_ends_are_boundaries(text);
    if offset < byte_len(text) {
        let c0 = chars_before(text, offset) as int;
        lemma_chars_before_bounds(text, offset);
        lemma_first_non_whitespace_range(text, c0);
        let j = first_non_whitespace(text, c0);
        if j < text.len() {
            lemma_first_other_kind_range(text, j + 1, kind_at(text, j));
            let i = first_other_kind(text, j + 1, kind_at(text, j));
            if i < text.len() {
                lemma_prefix_monotone(text, c0, i);
                lemma_prefix_monotone(text, i, text.len() as int);
                assert(is_char_boundary_of(text, byte_offset(text, i) as int));
            }
        }
    }
}

/// At or past the end of the text, the UTF-16 offset is the text's whole
/// UTF-16 length.
pub proof fn law_offset_to_utf16_past_end(text: Seq<char>, offset: int)
    requires
        offset >= byte_len(text),
    ensures
        offset_to_utf16_spec(text, offset) == utf16_len(text),
{
    lemma_chars_before_bounds(text, offset);
    let cb = chars_before(text, offset) as int;
    if cb < text.len() {
        lemma_prefix_monotone(text, cb, text.len() as int);
        lemma_ends_are_boundaries(text);
    }
    assert(text.take(text.len() as int) =~= text);
}

/// In an increasing sequence whose elements from `i` on lie above `bound`
/// and before `i` do not, `first_above` is element `i` (or `default` past the end).
proof fn lemma_first_above_sorted(st: Seq<usize>, bound: int, default: int, i: int)
    requires
        forall|a: int, b: int| 0 <= a < b < st.len() ==> st[a] < st[b],
        0 <= i <= st.len(),
        forall|j: int| 0 <= j < i ==> st[j] <= bound,
        forall|j: int| i <= j < st.len() ==> st[j] > bound,
        default > bound,
    ensures
        first_above(st, bound, default) == if i < st.len() {
            st[i] as int
        } else {
            default
        },
        forall|j: int| i <= j < st.len() ==> st[j] >= first_above(st, bound, default),
        first_above(st, bound, default) > bound,
    decreases st.len(),
{
    if st.len() > 0 && i > 0 {
        let d = st.drop_first();
        assert forall|j: int| 0 <= j < i - 1 implies d[j] <= bound by {
            assert(d[j] == st[j + 1]);
        }
        assert forall|j: int| i - 1 <= j < d.len() implies d[j] > bound by {
            assert(d[j] == st[j + 1]);
        }
        assert forall|a: int, b: int| 0 <= a < b < d.len() implies d[a] < d[b] by {
            assert(d[a] == st[a + 1] && d[b] == st[b + 1]);
        }
        lemma_first_above_sorted(d, bound, default, i - 1);
        assert forall|j: int| i <= j < st.len() implies st[j] >= first_above(st, bound, default) by {
            assert(st[j] == d[j - 1]);
        }
    }
}

/// The largest element of `st` below `bound`, or 0, scanning from the end.
fn scan_last_below(st: &Vec<usize>, bound: usize) -> (r: usize)
    ensures
        r == last_below(st@, bound as int),
{
    let mut i = st.len();
    assert(st@.take(i as int) =~= st@);
    while i > 0 && st[i - 1] >= bound
        invariant
            i <= st.len(),
            last_below(st@, bound as int) == last_below(st@.take(i as int), bound as int),
        decreases i,
    {
        assert(st@.take(i as int).drop_last() =~= st@.take(i - 1));
        i -= 1;
    }
    if i > 0 {
        assert(st@.take(i as int).last() == st[i - 1]);
        st[i - 1]
    } else {
        assert(st@.take(0).len() == 0);
        0
    }
}

/// The first element of `st` above `bound`, or `default`, scanning from the start.
fn scan_first_above(st: &Vec<usize>, bound: usize, default: usize) -> (r: usize)
    ensures
        r == first_above(st@, bound as int, default as int),
{
    let mut i: usize = 0;
    assert(st@.subrange(0, st@.len() as int) =~= st@);
    while i < st.len() && st[i] <= bound
        invariant
            i <= st.len(),
            first_above(st@, bound as int, default as int) == first_above(
                st@.subrange(i as int, st@.len() as int),
                bound as int,
                default as int,
            ),
        decreases st.len() - i,
    {
        assert(st@.subrange(i as int, st@.len() as int).drop_first() =~= st@.subrange(
            i + 1,
            st@.len() as int,
        ));
        i += 1;
    }
    if i < st.len() {
        st[i]
    } else {
        default
    }
}

/// A character boundary is where character number `chars_before` starts.
pub proof fn lemma_boundary_index(s: Seq<char>, offset: int)
    requires
        is_char_boundary_of(s, offset),
    ensures
        chars_before(s, offset) <= s.len(),
        byte_offset(s, chars_before(s, offset) as int) == offset,
        0 <= offset <= byte_len(s),
{
    let k = choose|k: int| 0 <= k <= s.len() && #[trigger] byte_offset(s, k) == offset;
    lemma_chars_before_boundary(s, k);
    lemma_prefix_monotone(s, k, s.len() as int);
    assert(s.take(s.len() as int) =~= s);
}

/// Between two character boundaries lie as many bytes as their distance,
/// and the characters keep the boundaries' order.
pub proof fn lemma_boundary_span(s: Seq<char>, a: int, b: int)
    requires
        is_char_boundary_of(s, a),
        is_char_boundary_of(s, b),
        a <= b,
    ensures
        chars_before(s, a) <= chars_before(s, b) <= s.len(),
        byte_len(s.subrange(chars_before(s, a) as int, chars_before(s, b) as int)) == b - a,
        byte_len(s.take(chars_before(s, a) as int)) == a,
        byte_len(s.skip(chars_before(s, b) as int)) == byte_len(s) - b,
{
    lemma_boundary_index(s, a);
    lemma_boundary_index(s, b);
    let ka = chars_before(s, a) as int;
    let kb = chars_before(s, b) as int;
    if ka > kb {
        lemma_prefix_monotone(s, kb, ka);
    }
    lemma_prefix_monotone(s, ka, kb);
    assert(s =~= s.take(kb) + s.skip(kb));
    lemma_byte_len_concat(s.take(kb), s.skip(kb));
}

/// A sequence of increasing offsets starting at 0 has its element `i` at least `i`.
proof fn lemma_increasing_at_least_index(st: Seq<usize>, i: int)
    requires
        forall|a: int, b: int| 0 <= a < b < st.len() ==> st[a] < st[b],
        0 <= i < st.len(),
    ensures
        st[i] >= i,
    decreases i,
{
    if i > 0 {
        lemma_increasing_at_least_index(st, i - 1);
    }
}

/// A text has no more grapheme clusters than bytes.
pub proof fn lemma_grapheme_count(text: Seq<char>)
    requires
        grapheme_starts_well_formed(text, grapheme_starts(text)),
    ensures
        grapheme_starts(text).len() <= byte_len(text),
{
    let st = grapheme_starts(text);
    if st.len() > 0 {
        lemma_increasing_at_least_index(st, st.len() - 1);
    }
}

/// The number of extended grapheme clusters of `text`, as
/// `text.graphemes(true).count()` gives it.
pub fn grapheme_count(text: &str) -> (n: usize)
    ensures
        n == grapheme_starts(text@).len(),
        n <= byte_len(text@),
        grapheme_starts_well_formed(text@, grapheme_starts(text@)),
{
    let starts = grapheme_offsets(text);
    proof {
        lemma_grapheme_count(text@);
    }
    starts.len()
}

/// The characters of `text` between two byte offsets on character
/// boundaries, as `&text[start..end]` gives them.
pub fn byte_slice(text: &str, start: usize, end: usize) -> (r: &str)
    requires
        start <= end,
        is_char_boundary_of(text@, start as int),
        is_char_boundary_of(text@, end as int),
    ensures
        r@ == text@.subrange(
            chars_before(text@, start as int) as int,
            chars_before(text@, end as int) as int,
        ),
        byte_len(r@) == end - start,
{
    proof {
        lemma_boundary_span(text@, start as int, end as int);
    }
    let (chars, offs) = char_table(text);
    let n = chars.len();
    let a = count_before(&offs, n, start, Ghost(text@));
    let b = count_before(&offs, n, end, Ghost(text@));
    text.substring_char(a, b)
}

pub struct TextOps;

impl TextOps {
    /// Get the previous grapheme boundary from the given offset
    pub fn previous_boundary(text: &str, offset: usize) -> (r: usize)
        ensures
            r == previous_boundary_spec(text@, offset as int),
            is_char_boundary_of(text@, r as int),
            r <= byte_len(text@),
            offset > 0 ==> r < offset,
            grapheme_starts_well_formed(text@, grapheme_starts(text@)),
    {
        let starts = grapheme_offsets(text);
        if offset == 0 {
            proof {
                lemma_ends_are_boundaries(text@);
            }
            return 0;
        }
        proof {
            lemma_grapheme_results(text@, offset as int);
        }
        scan_last_below(&starts, offset)
    }

    /// Get the next grapheme boundary from the given offset
    pub fn next_boundary(text: &str, offset: usize) -> (r: usize)
        ensures
            r == next_boundary_spec(text@, offset as int),
            is_char_boundary_of(text@, r as int),
            r <= byte_len(text@),
            offset < byte_len(text@) ==> offset < r,
            grapheme_starts_well_formed(text@, grapheme_starts(text@)),
    {
        let starts = grapheme_offsets(text);
        let len = text_len(text);
        if offset >= len {
            proof {
                lemma_ends_are_boundaries(text@);
            }
            return len;
        }
        proof {
            lemma_grapheme_results(text@, offset as int);
        }
        scan_first_above(&starts, offset, len)
    }

    /// Get the previous word boundary from the given offset
    pub fn previous_word_boundary(text: &str, offset: usize) -> (r: usize)
        ensures
            r == previous_word_boundary_spec(text@, offset as int),
            is_char_boundary_of(text@, r as int),
            r <= byte_len(text@),
    {
        proof {
            lemma_ends_are_boundaries(text@);
        }
        if offset == 0 {
            return 0;
        }
        let (chars, offs) = char_table(text);
        let n = chars.len();
        let kinds = kinds_of(&chars);
        let before = count_before(&offs, n, offset, Ghost(text@));
        let mut j = before;
        while j > 0 && kinds[j - 1] == CharType::Whitespace
            invariant
                j <= before <= n,
                n == chars.len(),
                chars@ == text@,
                kinds.len() == n,
                forall|k: int| 0 <= k < n ==> kinds[k] == kind_at(text@, k),
                last_non_whitespace(text@, before as int) == last_non_whitespace(text@, j as int),
            decreases j,
        {
            j -= 1;
        }
        if j == 0 {
            return 0;
        }
        let j = j - 1;
        let t = kinds[j];
        let mut i = j;
        while i > 0 && kinds[i - 1] == t
            invariant
                i <= j < n,
                n == chars.len(),
                kinds.len() == n,
                forall|k: int| 0 <= k < n ==> kinds[k] == kind_at(text@, k),
                last_other_kind(text@, j as int, t) == last_other_kind(text@, i as int, t),
            decreases i,
        {
            i -= 1;
        }
        if i == 0 {
            return 0;
        }
        Self::next_boundary(text, offs[i - 1])
    }

    /// Get the next word boundary from the given offset
    pub fn next_word_boundary(text: &str, offset: usize) -> (r: usize)
        ensures
            r == next_word_boundary_spec(text@, offset as int),
            is_char_boundary_of(text@, r as int),
            r <= byte_len(text@),
            offset < byte_len(text@) ==> offset < r,
    {
        proof {
            lemma_ends_are_boundaries(text@);
        }
        let len = text_len(text);
        if offset >= len {
            return len;
        }
        let (chars, offs) = char_table(text);
        let n = chars.len();
        let kinds = kinds_of(&chars);
        let before = count_before(&offs, n, offset, Ghost(text@));
        let mut j = before;
        while j < n && kinds[j] == CharType::Whitespace
            invariant
                before <= j <= n,
                n == chars.len(),
                chars@ == text@,
                kinds.len() == n,
                forall|k: int| 0 <= k < n ==> kinds[k] == kind_at(text@, k),
                first_non_whitespace(text@, before as int) == first_non_whitespace(
                    text@,
                    j as int,
                ),
            decreases n - j,
        {
            j += 1;
        }
        if j >= n {
            return len;
        }
        let t = kinds[j];
        let mut i = j + 1;
        while i < n && kinds[i] == t
            invariant
                j < i <= n,
                n == chars.len(),
                kinds.len() == n,
                forall|k: int| 0 <= k < n ==> kinds[k] == kind_at(text@, k),
                first_other_kind(text@, j + 1, t) == first_other_kind(text@, i as int, t),
            decreases n - i,
        {
            i += 1;
        }
        if i >= n {
            return len;
        }
        proof {
            lemma_prefix_monotone(text@, before as int, i as int);
            lemma_prefix_monotone(text@, i as int, n as int);
            assert(is_char_boundary_of(text@, byte_offset(text@, i as int) as int));
        }
        offs[i]
    }

    /// Determine the character type for word boundary detection
    fn char_type(ch: char, next: Option<char>, prev: Option<char>) -> (t: CharType)
        ensures
            t == char_type_spec(ch, next, prev),
    {
        if is_whitespace(ch) {
            CharType::Whitespace
        } else if is_alphanumeric(ch) || ch == '_' || (ch == '.' && match prev {
            Some(c) => is_ascii_digit(c),
            None => false,
        } && match next {
            Some(c) => is_ascii_digit(c),
            None => false,
        }) {
            CharType::Word
        } else {
            CharType::Punctuation
        }
    }

    /// Snap a byte offset to the closest grapheme boundary at or before it
    ///
    /// Offsets past the end of the text are clamped to `text.len()`.
    pub fn snap_to_grapheme_boundary(text: &str, offset: usize) -> (r: usize)
        ensures
            r == snap_spec(text@, offset as int),
            is_char_boundary_of(text@, r as int),
            r <= byte_len(text@),
            offset < byte_len(text@) ==> r <= offset,
            grapheme_starts_well_formed(text@, grapheme_starts(text@)),
    {
        let starts = grapheme_offsets(text);
        let len = text_len(text);
        if offset >= len {
            proof {
                lemma_ends_are_boundaries(text@);
            }
            return len;
        }
        proof {
            lemma_grapheme_results(text@, offset as int);
        }
        scan_last_below(&starts, offset + 1)
    }

    /// Convert a grapheme offset to a byte offset
    pub fn grapheme_offset_to_byte_offset(text: &str, grapheme_offset: usize) -> (r: usize)
        ensures
            r == grapheme_to_byte_spec(text@, grapheme_offset as int),
            is_char_boundary_of(text@, r as int),
            r <= byte_len(text@),
            grapheme_starts_well_formed(text@, grapheme_starts(text@)),
    {
        let starts = grapheme_offsets(text);
        proof {
            lemma_grapheme_results(text@, grapheme_offset as int);
        }
        if grapheme_offset < starts.len() {
            starts[grapheme_offset]
        } else {
            text_len(text)
        }
    }

    /// Convert offset to UTF-16 code units
    pub fn offset_to_utf16(text: &str, offset: usize) -> (r: usize)
        ensures
            r == offset_to_utf16_spec(text@, offset as int),
            r <= utf16_len(text@),
    {
        let total = text_len(text);
        let (chars, offs) = char_table(text);
        let n = chars.len();
        let mut k: usize = 0;
        let mut utf16_offset: usize = 0;
        assert(text@.take(0) =~= Seq::<char>::empty());
        while k < n && offs[k] < offset
            invariant
                k <= n,
                n == chars.len(),
                chars@ == text@,
                offs.len() == n + 1,
                total == byte_len(text@),
                forall|i: int| 0 <= i <= n ==> offs[i] == byte_offset(text@, i),
                forall|i: int| 0 <= i < k ==> byte_offset(text@, i) < offset,
                utf16_offset == utf16_len(text@.take(k as int)),
            decreases n - k,
        {
            proof {
                lemma_prefix_step(text@, k as int);
                lemma_utf16_le_bytes(text@.take(k + 1));
                lemma_prefix_monotone(text@, k + 1, n as int);
                assert(text@.take(n as int) =~= text@);
            }
            utf16_offset = utf16_offset + len_utf16(chars[k]);
            k += 1;
        }
        proof {
            lemma_chars_before(text@, offset as int, k as int);
            lemma_prefix_monotone(text@, k as int, n as int);
            assert(text@.take(n as int) =~= text@);
        }
        utf16_offset
    }

    /// Convert UTF-16 offset to byte offset
    pub fn offset_from_utf16(text: &str, utf16_offset: usize) -> (r: usize)
        ensures
            r == offset_from_utf16_spec(text@, utf16_offset as int),
            is_char_boundary_of(text@, r as int),
            r <= byte_len(text@),
    {
        let total = text_len(text);
        let (chars, offs) = char_table(text);
        let n = chars.len();
        let mut k: usize = 0;
        let mut current: usize = 0;
        assert(text@.take(0) =~= Seq::<char>::empty());
        while k < n && current < utf16_offset
            invariant
                k <= n,
                n == chars.len(),
                chars@ == text@,
                offs.len() == n + 1,
                total == byte_len(text@),
                forall|i: int| 0 <= i <= n ==> offs[i] == byte_offset(text@, i),
                forall|i: int| 0 <= i < k ==> utf16_len(text@.take(i)) < utf16_offset,
                current == utf16_len(text@.take(k as int)),
            decreases n - k,
        {
            proof {
                lemma_prefix_step(text@, k as int);
                lemma_utf16_le_bytes(text@.take(k + 1));
                lemma_prefix_monotone(text@, k + 1, n as int);
                assert(text@.take(n as int) =~= text@);
            }
            current = current + len_utf16(chars[k]);
            k += 1;
        }
        proof {
            lemma_chars_before_utf16(text@, utf16_offset as int, k as int);
            lemma_prefix_monotone(text@, k as int, n as int);
            lemma_ends_are_boundaries(text@);
            assert(is_char_boundary_of(text@, byte_offset(text@, k as int) as int));
        }
        offs[k]
    }

    /// Convert a byte range to UTF-16 range
    pub fn range_to_utf16(text: &str, range: &Range<usize>) -> (r: Range<usize>)
        ensures
            r.start == offset_to_utf16_spec(text@, range.start as int),
            r.end == offset_to_utf16_spec(text@, range.end as int),
    {
        Self::offset_to_utf16(text, range.start)..Self::offset_to_utf16(text, range.end)
    }

    /// Convert a UTF-16 range to byte range
    pub fn range_from_utf16(text: &str, range: &Range<usize>) -> (r: Range<usize>)
        ensures
            r.start == offset_from_utf16_spec(text@, range.start as int),
            r.end == offset_from_utf16_spec(text@, range.end as int),
            is_char_boundary_of(text@, r.start as int),
            is_char_boundary_of(text@, r.end as int),
            r.start <= byte_len(text@),
            r.end <= byte_len(text@),
            range.start <= range.end ==> r.start <= r.end,
    {
        proof {
            if range.start <= range.end {
                law_offset_from_utf16_monotone(text@, range.start as int, range.end as int);
            }
        }
        Self::offset_from_utf16(text, range.start)..Self::offset_from_utf16(text, range.end)
    }
}

} // verus!
