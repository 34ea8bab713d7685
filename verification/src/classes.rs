//! Character classes, and maximal runs of one class in a text.

use vstd::prelude::*;

verus! {

/// Letters that may stand in a word: `a` to `z` and the underscore.
#[verifier::allow_in_spec]
pub fn is_word_char(c: char) -> bool
    returns
        ('a' <= c && c <= 'z') || c == '_',
{
    ('a' <= c && c <= 'z') || c == '_'
}

/// The ten decimal digits.
#[verifier::allow_in_spec]
pub fn is_digit(c: char) -> bool
    returns
        '0' <= c && c <= '9',
{
    '0' <= c && c <= '9'
}

/// A set of characters that a sub-scanner consumes greedily.
#[derive(Debug, Clone, Copy, PartialEq, Eq, Structural)]
pub enum CharClass {
    /// Word characters: see [`is_word_char`].
    Word,
    /// Digits and the decimal point.
    Numeric,
    /// Every character but the given one: the inside of a quoted literal.
    Except(char),
}

impl CharClass {
    /// Whether `c` belongs to the class.
    #[verifier::allow_in_spec]
    pub fn contains(self, c: char) -> bool
        returns
            match self {
                CharClass::Word => is_word_char(c),
                CharClass::Numeric => is_digit(c) || c == '.',
                CharClass::Except(d) => c != d,
            },
    {
        match self {
            CharClass::Word => is_word_char(c),
            CharClass::Numeric => is_digit(c) || c == '.',
            CharClass::Except(d) => c != d,
        }
    }
}

/// Where the run of `class` characters that starts at `pos` ends: the first position from
/// `pos` on whose character is outside the class, or the end of the text.
pub open spec fn run_end(text: Seq<char>, class: CharClass, pos: int) -> int
    decreases text.len() - pos,
{
    if 0 <= pos < text.len() && class.contains(text[pos]) {
        run_end(text, class, pos + 1)
    } else {
        pos
    }
}

/// Whether `end` closes a maximal run of `class` characters that starts at `pos`: every
/// character in between belongs to the class, and the run cannot be extended.
pub open spec fn is_maximal_run(text: Seq<char>, class: CharClass, pos: int, end: int) -> bool {
    &&& pos <= end <= text.len()
    &&& forall|i: int| pos <= i < end ==> class.contains(#[trigger] text[i])
    &&& end < text.len() ==> !class.contains(text[end])
}

/// `run_end` is the end of the maximal run.
pub proof fn lemma_run_end_is_maximal(text: Seq<char>, class: CharClass, pos: int)
    requires
        0 <= pos <= text.len(),
    ensures
        is_maximal_run(text, class, pos, run_end(text, class, pos)),
    decreases text.len() - pos,
{
    if pos < text.len() && class.contains(text[pos]) {
        lemma_run_end_is_maximal(text, class, pos + 1);
    }
}

/// A maximal run has one end only: whatever closes it is `run_end`.
pub proof fn lemma_maximal_run_is_unique(text: Seq<char>, class: CharClass, pos: int, end: int)
    requires
        0 <= pos,
        is_maximal_run(text, class, pos, end),
    ensures
        end == run_end(text, class, pos),
    decreases end - pos,
{
    if pos < end {
        assert(class.contains(text[pos]));
        lemma_maximal_run_is_unique(text, class, pos + 1, end);
    }
}

} // verus!
