//! The alphabetical index beside a list: which letter a section label
//! belongs to, and how each letter is shown.
use vstd::prelude::*;
use vstd::string::StrSliceExecFns;

verus! {

/// The letters of the rail, `#` first for everything that does not start
/// with a letter.
pub const INDEX_RAIL_LETTERS: [&'static str; 27] = [
    "#", "A", "B", "C", "D", "E", "F", "G", "H", "I", "J", "K", "L", "M", "N", "O", "P", "Q", "R",
    "S", "T", "U", "V", "W", "X", "Y", "Z",
];

/// The place of a section label on the rail: `#` first, then the capital
/// letters A to Z; no place for any other label.
pub open spec fn index_rail_position_spec(label: Seq<char>) -> Option<int> {
    if label.len() == 1 && label[0] == '#' {
        Some(0)
    } else if label.len() == 1 && 'A' <= label[0] <= 'Z' {
        Some(1 + (label[0] as int - 'A' as int))
    } else {
        None
    }
}

pub fn index_rail_position(label: &str) -> (r: Option<usize>)
    ensures
        match r {
            Some(i) => index_rail_position_spec(label@) == Some(i as int),
            None => index_rail_position_spec(label@) is None,
        },
{
    if label.unicode_len() != 1 {
        return None;
    }
    let c = label.get_char(0);
    if c == '#' {
        Some(0)
    } else if 'A' <= c && c <= 'Z' {
        Some(1 + (c as u32 - 'A' as u32) as usize)
    } else {
        None
    }
}

/// Each letter of the rail is the label of its own place.
pub proof fn law_letters_find_their_place(i: int)
    requires
        0 <= i < 27,
    ensures
        index_rail_position_spec(INDEX_RAIL_LETTERS@[i]@) == Some(i),
{
    reveal_strlit("#");
    reveal_strlit("A");
    reveal_strlit("B");
    reveal_strlit("C");
    reveal_strlit("D");
    reveal_strlit("E");
    reveal_strlit("F");
    reveal_strlit("G");
    reveal_strlit("H");
    reveal_strlit("I");
    reveal_strlit("J");
    reveal_strlit("K");
    reveal_strlit("L");
    reveal_strlit("M");
    reveal_strlit("N");
    reveal_strlit("O");
    reveal_strlit("P");
    reveal_strlit("Q");
    reveal_strlit("R");
    reveal_strlit("S");
    reveal_strlit("T");
    reveal_strlit("U");
    reveal_strlit("V");
    reveal_strlit("W");
    reveal_strlit("X");
    reveal_strlit("Y");
    reveal_strlit("Z");
}

/// A label's place is the index of the letter equal to it in
/// [`INDEX_RAIL_LETTERS`], and a label equal to none of them has no place.
pub proof fn law_position_in_table(label: Seq<char>, i: int)
    ensures
        (0 <= i < 27 && INDEX_RAIL_LETTERS@[i]@ == label) <==> index_rail_position_spec(label) == Some(i),
{
    if index_rail_position_spec(label) == Some(i) {
        law_letters_find_their_place(i);
        let l = INDEX_RAIL_LETTERS@[i]@;
        assert(l[0] as int == label[0] as int);
        assert(l =~= label);
    }
    if 0 <= i < 27 && INDEX_RAIL_LETTERS@[i]@ == label {
        law_letters_find_their_place(i);
    }
}

/// How a letter of the rail is shown.
#[derive(Debug, Clone, Copy, PartialEq, Eq, Structural)]
pub enum LetterState {
    /// The letter of the section in view.
    Current,
    /// A letter with a section to jump to.
    Available,
    /// A letter without a section.
    Unavailable,
}

/// Whether bit `i` of `mask` marks letter `i` as having a section.
pub open spec fn letter_available_spec(mask: u32, i: u32) -> bool {
    mask & (1u32 << i) != 0
}

/// Whether the letter at `i` has a section, by the bitmask over
/// [`INDEX_RAIL_LETTERS`]; only such a letter reacts to a click.
pub fn letter_available(mask: u32, i: u32) -> (r: bool)
    requires
        i < 32,
    ensures
        r == letter_available_spec(mask, i),
{
    mask & (1u32 << i) != 0
}

/// How the letter at `i` is shown: the current one stands out, the others
/// show whether they have a section.
pub fn letter_state(mask: u32, current: Option<usize>, i: u32) -> (r: LetterState)
    requires
        i < 32,
    ensures
        r == if current == Some(i as usize) {
            LetterState::Current
        } else if letter_available_spec(mask, i) {
            LetterState::Available
        } else {
            LetterState::Unavailable
        },
{
    match current {
        Some(c) => {
            if c == i as usize {
                return LetterState::Current;
            }
        },
        None => {},
    }
    if letter_available(mask, i) {
        LetterState::Available
    } else {
        LetterState::Unavailable
    }
}

/// The rail: which letters have a section, and which one is in view.
pub struct IndexRail {
    pub available: u32,
    pub current: Option<usize>,
}

impl IndexRail {
    /// A rail with no section and none in view.
    pub fn new() -> (r: Self)
        ensures
            r.available == 0,
            r.current is None,
    {
        Self { available: 0, current: None }
    }

    /// Bitmask over [`INDEX_RAIL_LETTERS`] marking which sections currently exist.
    pub fn available(self, mask: u32) -> (r: Self)
        ensures
            r.available == mask,
            r.current == self.current,
    {
        Self { available: mask, ..self }
    }

    pub fn current(self, index: Option<usize>) -> (r: Self)
        ensures
            r.available == self.available,
            r.current == index,
    {
        Self { current: index, ..self }
    }
}

impl Default for IndexRail {
    fn default() -> (r: Self)
        ensures
            r.available == 0,
            r.current is None,
    {
        Self::new()
    }
}

} // verus!
