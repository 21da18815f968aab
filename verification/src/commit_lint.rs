//! The check a commit message must pass: its first line starts with a
//! known type, followed by `:` or by a scope in parentheses.
use crate::components::input::text_ops::{char_is_whitespace, is_whitespace};
use vstd::prelude::*;
use vstd::string::StrSliceExecFns;

verus! {

/// The commit types, each with what it is for.
pub const VALID_TYPES: [(&'static str, &'static str); 8] = [
    ("feat", "A new feature"),
    ("fix", "A bug fix"),
    ("docs", "Documentation changes only"),
    ("chore", "Maintenance tasks, tooling, dependencies"),
    ("refactor", "Code change that neither fixes a bug nor adds a feature"),
    ("test", "Adding or updating tests"),
    ("style", "Formatting, whitespace, missing semicolons, etc."),
    ("ci", "CI/CD configuration and scripts"),
];

/// The index of the first line feed in `s`, or its length.
pub open spec fn line_end(s: Seq<char>) -> int
    decreases s.len(),
{
    if s.len() == 0 {
        0
    } else if s[0] == '\n' {
        0
    } else {
        1 + line_end(s.drop_first())
    }
}

/// The number of leading whitespace characters of `s`.
pub open spec fn leading_ws(s: Seq<char>) -> int
    decreases s.len(),
{
    if s.len() > 0 && char_is_whitespace(s[0]) {
        1 + leading_ws(s.drop_first())
    } else {
        0
    }
}

/// The number of trailing whitespace characters of `s`.
pub open spec fn trailing_ws(s: Seq<char>) -> int
    decreases s.len(),
{
    if s.len() > 0 && char_is_whitespace(s.last()) {
        1 + trailing_ws(s.drop_last())
    } else {
        0
    }
}

/// `s` without whitespace at either end, as `str::trim` gives it.
pub open spec fn trim_spec(s: Seq<char>) -> Seq<char> {
    let a = leading_ws(s);
    let rest = s.skip(a);
    rest.take(rest.len() - trailing_ws(rest))
}

/// The first line of a message, trimmed: what comes before the first line
/// feed, without whitespace at either end (a carriage return included).
pub open spec fn first_line_spec(msg: Seq<char>) -> Seq<char> {
    trim_spec(msg.take(line_end(msg)))
}

proof fn lemma_line_end(s: Seq<char>, i: int)
    requires
        0 <= i <= s.len(),
        forall|k: int| 0 <= k < i ==> s[k] != '\n',
        i < s.len() ==> s[i] == '\n',
    ensures
        line_end(s) == i,
    decreases i,
{
    if i > 0 {
        lemma_line_end(s.drop_first(), i - 1);
    }
}

proof fn lemma_leading(s: Seq<char>, i: int)
    requires
        0 <= i <= s.len(),
        forall|k: int| 0 <= k < i ==> char_is_whitespace(s[k]),
        i < s.len() ==> !char_is_whitespace(s[i]),
    ensures
        leading_ws(s) == i,
    decreases i,
{
    if i > 0 {
        lemma_leading(s.drop_first(), i - 1);
    }
}

proof fn lemma_trailing(s: Seq<char>, j: int)
    requires
        0 <= j <= s.len(),
        forall|k: int| j <= k < s.len() ==> char_is_whitespace(s[k]),
        j > 0 ==> !char_is_whitespace(s[j - 1]),
    ensures
        trailing_ws(s) == s.len() - j,
    decreases s.len() - j,
{
    if j < s.len() {
        lemma_trailing(s.drop_last(), j);
    }
}

/// The first line of a commit message, trimmed.
pub fn first_line(msg: &str) -> (r: &str)
    ensures
        r@ == first_line_spec(msg@),
{
    let n = msg.unicode_len();
    let mut end: usize = 0;
    while end < n && msg.get_char(end) != '\n'
        invariant
            n == msg@.len(),
            end <= n,
            forall|k: int| 0 <= k < end ==> msg@[k] != '\n',
        decreases n - end,
    {
        end += 1;
    }
    proof {
        lemma_line_end(msg@, end as int);
    }
    let line = msg.substring_char(0, end);
    assert(line@ =~= msg@.take(line_end(msg@)));
    let mut a: usize = 0;
    while a < end && is_whitespace(line.get_char(a))
        invariant
            end == line@.len(),
            a <= end,
            forall|k: int| 0 <= k < a ==> char_is_whitespace(line@[k]),
        decreases end - a,
    {
        a += 1;
    }
    proof {
        lemma_leading(line@, a as int);
    }
    let rest = line.substring_char(a, end);
    let m = end - a;
    assert(rest@ =~= line@.skip(a as int));
    let mut b: usize = m;
    while b > 0 && is_whitespace(rest.get_char(b - 1))
        invariant
            m == rest@.len(),
            b <= m,
            forall|k: int| b <= k < m ==> char_is_whitespace(rest@[k]),
        decreases b,
    {
        b -= 1;
    }
    proof {
        lemma_trailing(rest@, b as int);
    }
    let r = rest.substring_char(0, b);
    assert(r@ =~= rest@.take(rest@.len() - trailing_ws(rest@)));
    r
}

/// The prefixes that make a first line valid: a type and `:`, or a type
/// and `(`.
pub open spec fn valid_prefixes() -> Seq<Seq<char>> {
    seq![
        "feat:"@, "feat("@, "fix:"@, "fix("@, "docs:"@, "docs("@, "chore:"@, "chore("@,
        "refactor:"@, "refactor("@, "test:"@, "test("@, "style:"@, "style("@, "ci:"@, "ci("@,
    ]
}

/// A first line is valid when it starts with one of the valid prefixes.
pub open spec fn valid_first_line(line: Seq<char>) -> bool {
    exists|i: int|
        0 <= i < valid_prefixes().len() && #[trigger] valid_prefixes()[i].len() <= line.len()
            && line.take(valid_prefixes()[i].len() as int) == valid_prefixes()[i]
}

/// Whether `line` starts with `prefix`.
fn starts_with(line: &str, prefix: &str) -> (r: bool)
    ensures
        r == (prefix@.len() <= line@.len() && line@.take(prefix@.len() as int) == prefix@),
{
    let n = prefix.unicode_len();
    if n > line.unicode_len() {
        return false;
    }
    let mut i: usize = 0;
    while i < n
        invariant
            n == prefix@.len(),
            n <= line@.len(),
            i <= n,
            forall|k: int| 0 <= k < i ==> line@[k] == prefix@[k],
        decreases n - i,
    {
        if line.get_char(i) != prefix.get_char(i) {
            assert(line@.take(n as int)[i as int] != prefix@[i as int]);
            return false;
        }
        i += 1;
    }
    assert(line@.take(n as int) =~= prefix@);
    true
}

/// Whether a commit message's first line (trimmed) has a valid type prefix.
pub fn is_valid_first_line(line: &str) -> (r: bool)
    ensures
        r == valid_first_line(line@),
{
    let prefixes: [&'static str; 16] = [
        "feat:",
        "feat(",
        "fix:",
        "fix(",
        "docs:",
        "docs(",
        "chore:",
        "chore(",
        "refactor:",
        "refactor(",
        "test:",
        "test(",
        "style:",
        "style(",
        "ci:",
        "ci(",
    ];
    assert(prefixes@.map_values(|p: &str| p@) =~= valid_prefixes());
    let mut i: usize = 0;
    while i < 16
        invariant
            i <= 16,
            prefixes@.map_values(|p: &str| p@) == valid_prefixes(),
            forall|k: int|
                0 <= k < i ==> !(valid_prefixes()[k].len() <= line@.len() && line@.take(
                    valid_prefixes()[k].len() as int,
                ) == valid_prefixes()[k]),
        decreases 16 - i,
    {
        assert(prefixes@[i as int]@ == valid_prefixes()[i as int]);
        if starts_with(line, prefixes[i]) {
            return true;
        }
        i += 1;
    }
    false
}

/// Whether a commit message passes: its first line, trimmed, has a valid
/// type prefix.
pub fn is_valid_commit_message(msg: &str) -> (r: bool)
    ensures
        r == valid_first_line(first_line_spec(msg@)),
{
    is_valid_first_line(first_line(msg))
}

} // verus!
