use vstd::prelude::*;
use vstd::utf8::*;
use vstd::std_specs::iter::IteratorSpec;
use vstd::string::StringSliceAdditionalSpecFns;

verus! {

/// Number of bytes in the UTF-8 encoding of `c`.
pub open spec fn utf8_width(c: char) -> nat {
    if (c as u32) <= 0x7F {
        1
    } else if (c as u32) <= 0x7FF {
        2
    } else if (c as u32) <= 0xFFFF {
        3
    } else {
        4
    }
}

/// Number of UTF-16 code units in the encoding of `c`.
pub open spec fn utf16_width(c: char) -> nat {
    if (c as u32) <= 0xFFFF {
        1
    } else {
        2
    }
}

/// Byte length of the UTF-8 encoding of a character sequence.
pub open spec fn byte_len(s: Seq<char>) -> nat
    decreases s.len(),
{
    if s.len() == 0 {
        0
    } else {
        byte_len(s.drop_last()) + utf8_width(s.last())
    }
}

/// Number of UTF-16 code units needed for a character sequence.
pub open spec fn utf16_len(s: Seq<char>) -> nat
    decreases s.len(),
{
    if s.len() == 0 {
        0
    } else {
        utf16_len(s.drop_last()) + utf16_width(s.last())
    }
}

/// Byte offset at which the character with index `k` starts.
pub open spec fn byte_offset(s: Seq<char>, k: int) -> nat {
    byte_len(s.take(k))
}

/// True when byte offset `i` is where some character of `s` starts, or the end of `s`.
pub open spec fn is_char_boundary_of(s: Seq<char>, i: int) -> bool {
    exists|k: int| 0 <= k <= s.len() && #[trigger] byte_offset(s, k) == i
}

/// The start and the end of a text are character boundaries.
pub proof fn lemma_ends_are_boundaries(s: Seq<char>)
    ensures
        is_char_boundary_of(s, 0),
        is_char_boundary_of(s, byte_len(s) as int),
        byte_offset(s, 0) == 0,
        byte_offset(s, s.len() as int) == byte_len(s),
{
    assert(s.take(0) =~= Seq::<char>::empty());
    assert(s.take(s.len() as int) =~= s);
    assert(byte_offset(s, 0) == 0);
    assert(byte_offset(s, s.len() as int) == byte_len(s));
}

pub proof fn lemma_encode_scalar_len(c: char)
    ensures
        encode_scalar(c as u32).len() == utf8_width(c),
{
    char_is_scalar(c);
}

pub proof fn lemma_encode_concat(a: Seq<char>, b: Seq<char>)
    ensures
        encode_utf8(a + b) == encode_utf8(a) + encode_utf8(b),
    decreases a.len(),
{
    if a.len() == 0 {
        assert(a + b =~= b);
        assert(encode_utf8(a) =~= Seq::<u8>::empty());
        assert(encode_utf8(a) + encode_utf8(b) =~= encode_utf8(b));
    } else {
        assert((a + b).drop_first() =~= a.drop_first() + b);
        assert((a + b)[0] == a[0]);
        lemma_encode_concat(a.drop_first(), b);
        assert(encode_utf8(a + b) =~= encode_scalar(a[0] as u32) + (encode_utf8(a.drop_first())
            + encode_utf8(b)));
    }
}

pub proof fn lemma_byte_len_concat(a: Seq<char>, b: Seq<char>)
    ensures
        byte_len(a + b) == byte_len(a) + byte_len(b),
        utf16_len(a + b) == utf16_len(a) + utf16_len(b),
    decreases b.len(),
{
    if b.len() == 0 {
        assert(a + b =~= a);
    } else {
        assert((a + b).drop_last() =~= a + b.drop_last());
        lemma_byte_len_concat(a, b.drop_last());
    }
}

pub proof fn lemma_encode_len(s: Seq<char>)
    ensures
        encode_utf8(s).len() == byte_len(s),
    decreases s.len(),
{
    if s.len() > 0 {
        let a = s.drop_last();
        let c = seq![s.last()];
        assert(s =~= a + c);
        lemma_encode_concat(a, c);
        lemma_encode_len(a);
        lemma_encode_scalar_len(s.last());
        assert(c.drop_first() =~= Seq::<char>::empty());
        assert(c[0] == s.last());
        assert(encode_utf8(c.drop_first()).len() == 0);
        assert(encode_utf8(c) == encode_scalar(c[0] as u32) + encode_utf8(c.drop_first()));
    }
}

/// The byte length that `str::len` reports is the sum of the characters' UTF-8 widths.
pub proof fn lemma_str_len(text: &str)
    ensures
        text.spec_bytes().len() == byte_len(text@),
{
    lemma_encode_len(text@);
}

pub proof fn lemma_utf16_le_bytes(s: Seq<char>)
    ensures
        utf16_len(s) <= byte_len(s),
    decreases s.len(),
{
    if s.len() > 0 {
        lemma_utf16_le_bytes(s.drop_last());
    }
}

/// Prefix lengths grow with the prefix.
pub proof fn lemma_prefix_monotone(s: Seq<char>, j: int, k: int)
    requires
        0 <= j <= k <= s.len(),
    ensures
        byte_len(s.take(j)) <= byte_len(s.take(k)),
        utf16_len(s.take(j)) <= utf16_len(s.take(k)),
        byte_len(s.take(j)) + byte_len(s.subrange(j, k)) == byte_len(s.take(k)),
        utf16_len(s.take(j)) + utf16_len(s.subrange(j, k)) == utf16_len(s.take(k)),
        j < k ==> byte_len(s.take(j)) < byte_len(s.take(k)),
        j < k ==> utf16_len(s.take(j)) < utf16_len(s.take(k)),
{
    assert(s.take(k) =~= s.take(j) + s.subrange(j, k));
    lemma_byte_len_concat(s.take(j), s.subrange(j, k));
    if j < k {
        lemma_positive_len(s.subrange(j, k));
    }
}

pub proof fn lemma_positive_len(s: Seq<char>)
    requires
        s.len() > 0,
    ensures
        byte_len(s) >= s.len(),
        utf16_len(s) >= s.len(),
    decreases s.len(),
{
    if s.len() > 1 {
        lemma_positive_len(s.drop_last());
    }
}

/// One step of a prefix: the prefix of `k + 1` characters adds the width of character `k`.
pub proof fn lemma_prefix_step(s: Seq<char>, k: int)
    requires
        0 <= k < s.len(),
    ensures
        byte_len(s.take(k + 1)) == byte_len(s.take(k)) + utf8_width(s[k]),
        utf16_len(s.take(k + 1)) == utf16_len(s.take(k)) + utf16_width(s[k]),
{
    assert(s.take(k + 1).drop_last() =~= s.take(k));
}

/// Width of `c` in UTF-8 bytes.
pub fn len_utf8(c: char) -> (n: usize)
    ensures
        n == utf8_width(c),
{
    let v = c as u32;
    if v <= 0x7F {
        1
    } else if v <= 0x7FF {
        2
    } else if v <= 0xFFFF {
        3
    } else {
        4
    }
}

/// Width of `c` in UTF-16 code units.
pub fn len_utf16(c: char) -> (n: usize)
    ensures
        n == utf16_width(c),
{
    if (c as u32) <= 0xFFFF {
        1
    } else {
        2
    }
}

/// Byte length of `text`, as `str::len` reports it.
pub fn text_len(text: &str) -> (n: usize)
    ensures
        n == byte_len(text@),
{
    let b = text.as_bytes();
    proof {
        lemma_str_len(text);
    }
    b.len()
}

/// The characters of `text`, and the byte offset at which each one starts
/// followed by the text's length.
pub fn char_table(text: &str) -> (res: (Vec<char>, Vec<usize>))
    ensures
        res.0@ == text@,
        res.1.len() == text@.len() + 1,
        forall|k: int| 0 <= k <= text@.len() ==> res.1[k] == byte_offset(text@, k),
{
    let total = text_len(text);
    let chars = chars_of(text);
    let mut offs: Vec<usize> = Vec::new();
    let mut off: usize = 0;
    offs.push(0);
    let n = chars.len();
    assert(text@.take(0) =~= Seq::<char>::empty());
    let mut k: usize = 0;
    while k < n
        invariant
            chars@ == text@,
            n == chars.len(),
            0 <= k <= n,
            offs.len() == k + 1,
            off == byte_offset(text@, k as int),
            forall|i: int| 0 <= i <= k ==> offs[i] == byte_offset(text@, i),
            total == byte_len(text@),
        decreases n - k,
    {
        proof {
            lemma_prefix_step(text@, k as int);
            lemma_prefix_monotone(text@, k + 1, n as int);
            assert(text@.take(n as int) =~= text@);
        }
        off = off + len_utf8(chars[k]);
        offs.push(off);
        k += 1;
    }
    (chars, offs)
}

/// True when `suffix` is how `text` ends.
pub open spec fn ends_with_spec(text: Seq<char>, suffix: Seq<char>) -> bool {
    suffix.len() <= text.len() && text.subrange(text.len() - suffix.len(), text.len() as int)
        == suffix
}

/// Whether `text` ends with `suffix`.
pub fn ends_with(text: &str, suffix: &str) -> (b: bool)
    ensures
        b == ends_with_spec(text@, suffix@),
{
    let t = chars_of(text);
    let p = chars_of(suffix);
    if p.len() > t.len() {
        return false;
    }
    let shift = t.len() - p.len();
    let mut i: usize = 0;
    while i < p.len()
        invariant
            t@ == text@,
            p@ == suffix@,
            p.len() <= t.len(),
            shift == t.len() - p.len(),
            i <= p.len(),
            forall|j: int| 0 <= j < i ==> t@[shift + j] == p@[j],
        decreases p.len() - i,
    {
        if t[shift + i] != p[i] {
            assert(text@.subrange(shift as int, text@.len() as int)[i as int] != suffix@[i as int]);
            return false;
        }
        i += 1;
    }
    assert(text@.subrange(shift as int, text@.len() as int) =~= suffix@);
    true
}

/// Returns every character of `text`, in order.
pub fn chars_of(text: &str) -> (v: Vec<char>)
    ensures
        v@ == text@,
{
    let mut v: Vec<char> = Vec::new();
    let mut it = text.chars();
    proof {
        vstd::string::axiom_spec_iter(text);
    }
    loop
        invariant
            v@ + it.remaining() == text@,
            it.obeys_prophetic_iter_laws(),
            it.decrease() is Some,
        ensures
            v@ == text@,
        decreases it.decrease()->0,
    {
        match it.next() {
            Some(c) => v.push(c),
            None => break,
        }
    }
    v
}

} // verus!
