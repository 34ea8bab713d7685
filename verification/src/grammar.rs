//! The lexical grammar: what the scanner does at one position of a text, and what a whole
//! pass over the text yields.

use crate::classes::{is_digit, is_word_char, lemma_run_end_is_maximal, run_end, CharClass};
use crate::error::ScanFailure;
use crate::number::number_kind;
use crate::token::{category_of, TokenKind, TokenView};
use crate::word::word_kind;
use vstd::prelude::*;

verus! {

/// What the scanner does at one position.
pub ghost enum Step {
    /// It emits a token of this kind and moves on by `len` characters.
    Emit { kind: TokenKind, len: int },
    /// It emits nothing and moves on by one character.
    Skip,
    /// It gives up.
    Fail(ScanFailure),
}

/// The character at `pos`, if the text has one there.
pub open spec fn char_at(text: Seq<char>, pos: int) -> Option<char> {
    if 0 <= pos < text.len() {
        Some(text[pos])
    } else {
        None
    }
}

/// The separator or operator that starts with `c`, given the character `next` that follows
/// it, and how many characters it takes. Two-character operators win over their
/// one-character prefixes.
pub open spec fn symbol(c: char, next: Option<char>) -> Option<(TokenKind, int)> {
    if c == ',' {
        Some((TokenKind::Comma, 1))
    } else if c == ':' {
        Some((TokenKind::Colon, 1))
    } else if c == '(' {
        Some((TokenKind::OpeningBracket, 1))
    } else if c == ')' {
        Some((TokenKind::ClosingBracket, 1))
    } else if c == '[' {
        Some((TokenKind::OpeningSquareBracket, 1))
    } else if c == ']' {
        Some((TokenKind::ClosingSquareBracket, 1))
    } else if c == '\t' {
        Some((TokenKind::Tab, 1))
    } else if c == '%' {
        Some((TokenKind::Mod, 1))
    } else if c == '+' {
        if next == Some('+') {
            Some((TokenKind::PlusPlus, 2))
        } else if next == Some('=') {
            Some((TokenKind::PlusEquals, 2))
        } else {
            Some((TokenKind::Plus, 1))
        }
    } else if c == '-' {
        if next == Some('-') {
            Some((TokenKind::MinusMinus, 2))
        } else if next == Some('=') {
            Some((TokenKind::MinusEquals, 2))
        } else {
            Some((TokenKind::Minus, 1))
        }
    } else if c == '*' {
        if next == Some('=') {
            Some((TokenKind::MultiplyEquals, 2))
        } else {
            Some((TokenKind::Multiply, 1))
        }
    } else if c == '/' {
        if next == Some('=') {
            Some((TokenKind::DivideEquals, 2))
        } else {
            Some((TokenKind::Divide, 1))
        }
    } else if c == '=' {
        if next == Some('=') {
            Some((TokenKind::EqualsEquals, 2))
        } else {
            Some((TokenKind::Equals, 1))
        }
    } else if c == '>' {
        if next == Some('=') {
            Some((TokenKind::MoreThanEquals, 2))
        } else {
            Some((TokenKind::MoreThan, 1))
        }
    } else if c == '<' {
        if next == Some('=') {
            Some((TokenKind::LessThanEquals, 2))
        } else {
            Some((TokenKind::LessThan, 1))
        }
    } else {
        None
    }
}

/// A word at `pos`: the longest run of word characters from there, read as a keyword or an
/// identifier.
pub open spec fn word_step(text: Seq<char>, pos: int) -> Step {
    let end = run_end(text, CharClass::Word, pos);
    Step::Emit { kind: word_kind(text.subrange(pos, end)), len: end - pos }
}

/// A number at `pos`: the minus sign there and the longest run of digits and decimal points
/// behind it, read as a number where that text denotes one.
pub open spec fn number_step(text: Seq<char>, pos: int) -> Step {
    let end = run_end(text, CharClass::Numeric, pos + 1);
    let lexeme = text.subrange(pos, end);
    match number_kind(lexeme) {
        Some(kind) => Step::Emit { kind, len: end - pos },
        None => Step::Fail(ScanFailure::MalformedNumber { text: lexeme, position: pos }),
    }
}

/// A quoted literal at `pos`: everything between the quote there and the next occurrence of
/// the same quote, taken as it stands. With no closing quote the scan fails.
pub open spec fn literal_step(text: Seq<char>, pos: int, delimiter: char) -> Step {
    let close = run_end(text, CharClass::Except(delimiter), pos + 1);
    let inner = text.subrange(pos + 1, close);
    if close >= text.len() {
        Step::Fail(ScanFailure::UnterminatedLiteral { delimiter, position: pos })
    } else if delimiter == '"' {
        Step::Emit { kind: TokenKind::String(inner), len: close - pos + 1 }
    } else {
        Step::Emit { kind: TokenKind::Char(inner), len: close - pos + 1 }
    }
}

/// What the scanner does at `pos`, decided by the character there and the one after it.
pub open spec fn step_at(text: Seq<char>, pos: int) -> Step
    recommends
        0 <= pos < text.len(),
{
    let c = text[pos];
    let next = char_at(text, pos + 1);
    if is_word_char(c) {
        word_step(text, pos)
    } else if c == '"' || c == '\'' {
        literal_step(text, pos, c)
    } else if c == '-' && next is Some && is_digit(next->0) {
        number_step(text, pos)
    } else {
        match symbol(c, next) {
            Some((kind, len)) => Step::Emit { kind, len },
            None => Step::Skip,
        }
    }
}

impl Step {
    /// How far the step moves the scanner: by the token's length, by one for a skip, not at
    /// all where it fails.
    pub open spec fn len(self) -> int {
        match self {
            Step::Emit { len, .. } => len,
            Step::Skip => 1,
            Step::Fail(_) => 0,
        }
    }

    /// Why the step fails, if it does.
    pub open spec fn failure(self) -> Option<ScanFailure> {
        match self {
            Step::Fail(failure) => Some(failure),
            _ => None,
        }
    }
}

/// A token together with the span of source text it was read from.
pub ghost struct Lexeme {
    pub start: int,
    pub len: int,
    pub kind: TokenKind,
}

impl Lexeme {
    /// The position just behind the lexeme.
    pub open spec fn end(self) -> int {
        self.start + self.len
    }

    /// The token that the lexeme stands for.
    pub open spec fn token(self) -> TokenView {
        TokenView { kind: self.kind, category: category_of(self.kind) }
    }
}

/// The outcome of scanning a text from some position on.
pub ghost struct Pass {
    /// The tokens emitted, in the order of emission, each with its span.
    pub lexemes: Seq<Lexeme>,
    /// How many characters were skipped.
    pub skipped: int,
    /// Where the scan stopped.
    pub stop: int,
    /// Why it stopped, if not for the end of the text.
    pub failure: Option<ScanFailure>,
}

impl Pass {
    /// The tokens emitted, without their spans.
    pub open spec fn tokens(self) -> Seq<TokenView> {
        Seq::new(self.lexemes.len(), |i: int| self.lexemes[i].token())
    }
}

/// Scanning `text` from `pos`: steps are taken one after the other, each where the one
/// before it left off, until the text ends or a step fails.
pub open spec fn pass_from(text: Seq<char>, pos: int) -> Pass
    decreases text.len() - pos,
    via pass_from_terminates
{
    if pos < 0 || pos >= text.len() {
        Pass { lexemes: Seq::empty(), skipped: 0, stop: pos, failure: None }
    } else {
        match step_at(text, pos) {
            Step::Fail(failure) => Pass {
                lexemes: Seq::empty(),
                skipped: 0,
                stop: pos,
                failure: Some(failure),
            },
            Step::Skip => {
                let rest = pass_from(text, pos + 1);
                Pass {
                    lexemes: rest.lexemes,
                    skipped: rest.skipped + 1,
                    stop: rest.stop,
                    failure: rest.failure,
                }
            },
            Step::Emit { kind, len } => {
                let rest = pass_from(text, pos + len);
                Pass {
                    lexemes: seq![Lexeme { start: pos, len, kind }] + rest.lexemes,
                    skipped: rest.skipped,
                    stop: rest.stop,
                    failure: rest.failure,
                }
            },
        }
    }
}

#[via_fn]
proof fn pass_from_terminates(text: Seq<char>, pos: int) {
    if 0 <= pos < text.len() {
        lemma_step_advances(text, pos);
    }
}

/// The sum of the lengths of the given lexemes.
pub open spec fn total_len(lexemes: Seq<Lexeme>) -> int
    decreases lexemes.len(),
{
    if lexemes.len() == 0 {
        0
    } else {
        lexemes.first().len + total_len(lexemes.drop_first())
    }
}

/// Forward progress: a step that does not fail moves the scanner on by at least one
/// character, and never beyond the end of the text.
pub proof fn lemma_step_advances(text: Seq<char>, pos: int)
    requires
        0 <= pos < text.len(),
    ensures
        !(step_at(text, pos) is Fail) ==> 1 <= step_at(text, pos).len() <= text.len() - pos,
{
    lemma_run_end_is_maximal(text, CharClass::Word, pos);
    lemma_run_end_is_maximal(text, CharClass::Word, pos + 1);
    lemma_run_end_is_maximal(text, CharClass::Numeric, pos + 1);
    lemma_run_end_is_maximal(text, CharClass::Except('"'), pos + 1);
    lemma_run_end_is_maximal(text, CharClass::Except('\''), pos + 1);
}

} // verus!
