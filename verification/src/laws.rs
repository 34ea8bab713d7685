//! What holds of every pass over every text.

use crate::classes::{is_digit, is_maximal_run, is_word_char, lemma_run_end_is_maximal, CharClass};
use crate::error::ScanFailure;
use crate::grammar::{lemma_step_advances, pass_from, step_at, total_len, Lexeme, Step};
use crate::number::{is_number_lexeme, number_kind};
use crate::token::TokenKind;
use crate::word::word_kind;
use vstd::prelude::*;

verus! {

/// Total coverage: a pass stops inside the text, and at its end unless a lexeme failed;
/// the lengths of the tokens emitted and the characters skipped add up to the distance
/// covered. So a pass from the start that does not fail consumes the whole text.
pub proof fn lemma_pass_covers_text(text: Seq<char>, pos: int)
    requires
        0 <= pos <= text.len(),
    ensures
        pos <= pass_from(text, pos).stop <= text.len(),
        pass_from(text, pos).failure is None ==> pass_from(text, pos).stop == text.len(),
        pass_from(text, pos).skipped >= 0,
        total_len(pass_from(text, pos).lexemes) + pass_from(text, pos).skipped == pass_from(
            text,
            pos,
        ).stop - pos,
    decreases text.len() - pos,
{
    if pos < text.len() {
        lemma_step_advances(text, pos);
        match step_at(text, pos) {
            Step::Fail(_) => {},
            Step::Skip => {
                lemma_pass_covers_text(text, pos + 1);
            },
            Step::Emit { kind, len } => {
                lemma_pass_covers_text(text, pos + len);
                let rest = pass_from(text, pos + len).lexemes;
                let first = Lexeme { start: pos, len, kind };
                assert((seq![first] + rest).drop_first() =~= rest);
            },
        }
    }
}

/// A pass that fails stops at the lexeme that failed: the step there is the failure that
/// the pass reports.
pub proof fn lemma_pass_stops_at_failure(text: Seq<char>, pos: int)
    requires
        0 <= pos <= text.len(),
    ensures
        pass_from(text, pos).failure matches Some(failure) ==> {
            &&& pass_from(text, pos).stop < text.len()
            &&& step_at(text, pass_from(text, pos).stop) == Step::Fail(failure)
        },
    decreases text.len() - pos,
{
    if pos < text.len() {
        lemma_step_advances(text, pos);
        match step_at(text, pos) {
            Step::Fail(_) => {},
            Step::Skip => {
                lemma_pass_stops_at_failure(text, pos + 1);
            },
            Step::Emit { kind, len } => {
                lemma_pass_stops_at_failure(text, pos + len);
            },
        }
    }
}

/// Order preservation: the tokens of a pass come in source order. Each spans at least one
/// character between the start of the pass and its stop, and each ends before the next
/// begins, so the spans increase strictly and do not overlap.
pub proof fn lemma_pass_in_source_order(text: Seq<char>, pos: int)
    requires
        0 <= pos <= text.len(),
    ensures
        forall|i: int|
            0 <= i < pass_from(text, pos).lexemes.len() ==> {
                let lexeme = #[trigger] pass_from(text, pos).lexemes[i];
                pos <= lexeme.start < lexeme.end() <= pass_from(text, pos).stop
            },
        forall|i: int, j: int|
            0 <= i < j < pass_from(text, pos).lexemes.len() ==> (#[trigger] pass_from(
                text,
                pos,
            ).lexemes[i]).end() <= (#[trigger] pass_from(text, pos).lexemes[j]).start,
    decreases text.len() - pos,
{
    if pos < text.len() {
        lemma_step_advances(text, pos);
        match step_at(text, pos) {
            Step::Fail(_) => {},
            Step::Skip => {
                lemma_pass_in_source_order(text, pos + 1);
            },
            Step::Emit { kind, len } => {
                lemma_pass_in_source_order(text, pos + len);
                lemma_pass_covers_text(text, pos + len);
                let rest = pass_from(text, pos + len).lexemes;
                let all = pass_from(text, pos).lexemes;
                assert(all.len() == rest.len() + 1);
                assert forall|i: int| 0 < i < all.len() implies all[i] == rest[i - 1] by {}
            },
        }
    }
}

/// Every token of a pass is what the scanner emits at the start of its span.
pub proof fn lemma_pass_lexemes_are_steps(text: Seq<char>, pos: int)
    requires
        0 <= pos <= text.len(),
    ensures
        forall|i: int|
            0 <= i < pass_from(text, pos).lexemes.len() ==> {
                let lexeme = #[trigger] pass_from(text, pos).lexemes[i];
                step_at(text, lexeme.start) == Step::Emit { kind: lexeme.kind, len: lexeme.len }
            },
    decreases text.len() - pos,
{
    if pos < text.len() {
        lemma_step_advances(text, pos);
        match step_at(text, pos) {
            Step::Fail(_) => {},
            Step::Skip => {
                lemma_pass_lexemes_are_steps(text, pos + 1);
            },
            Step::Emit { kind, len } => {
                lemma_pass_lexemes_are_steps(text, pos + len);
                let rest = pass_from(text, pos + len).lexemes;
                let all = pass_from(text, pos).lexemes;
                assert(all.len() == rest.len() + 1);
                assert forall|i: int| 0 < i < all.len() implies all[i] == rest[i - 1] by {}
            },
        }
    }
}

/// Maximal munch for words: at a word character the scanner emits one token for the
/// longest run of word characters from there, a keyword only where the whole run is one.
pub proof fn lemma_word_is_longest(text: Seq<char>, pos: int)
    requires
        0 <= pos < text.len(),
        is_word_char(text[pos]),
    ensures
        step_at(text, pos) matches Step::Emit { kind, len } && {
            &&& is_maximal_run(text, CharClass::Word, pos, pos + len)
            &&& kind == word_kind(text.subrange(pos, pos + len))
        },
{
    lemma_run_end_is_maximal(text, CharClass::Word, pos);
}

/// At a quote the scanner emits the text up to the next quote of the same kind, which the
/// token's span includes; it fails if and only if no such quote follows.
pub proof fn lemma_literal_is_delimited(text: Seq<char>, pos: int)
    requires
        0 <= pos < text.len(),
        text[pos] == '"' || text[pos] == '\'',
    ensures
        match step_at(text, pos) {
            Step::Emit { kind, len } => {
                &&& 2 <= len <= text.len() - pos
                &&& text[pos + len - 1] == text[pos]
                &&& forall|i: int| pos < i < pos + len - 1 ==> #[trigger] text[i] != text[pos]
                &&& text[pos] == '"' ==> kind == TokenKind::String(
                    text.subrange(pos + 1, pos + len - 1),
                )
                &&& text[pos] == '\'' ==> kind == TokenKind::Char(
                    text.subrange(pos + 1, pos + len - 1),
                )
            },
            Step::Fail(failure) => {
                &&& failure == ScanFailure::UnterminatedLiteral {
                    delimiter: text[pos],
                    position: pos,
                }
                &&& forall|i: int| pos < i < text.len() ==> #[trigger] text[i] != text[pos]
            },
            Step::Skip => false,
        },
{
    lemma_run_end_is_maximal(text, CharClass::Except(text[pos]), pos + 1);
}

/// At a minus sign before a digit the scanner reads the sign and the longest run of digits
/// and decimal points behind it: it emits the number that this lexeme denotes, and fails,
/// naming the lexeme, if and only if it denotes none.
pub proof fn lemma_number_is_longest(text: Seq<char>, pos: int)
    requires
        0 <= pos,
        pos + 1 < text.len(),
        text[pos] == '-',
        is_digit(text[pos + 1]),
    ensures
        match step_at(text, pos) {
            Step::Emit { kind, len } => {
                &&& is_maximal_run(text, CharClass::Numeric, pos + 1, pos + len)
                &&& is_number_lexeme(text.subrange(pos, pos + len))
                &&& number_kind(text.subrange(pos, pos + len)) == Some(kind)
            },
            Step::Fail(failure) => {
                &&& failure matches ScanFailure::MalformedNumber { text: lexeme, position }
                &&& position == pos
                &&& lexeme == text.subrange(pos, pos + lexeme.len())
                &&& is_maximal_run(text, CharClass::Numeric, pos + 1, pos + lexeme.len())
                &&& is_number_lexeme(lexeme)
                &&& number_kind(lexeme) is None
            },
            Step::Skip => false,
        },
{
    lemma_run_end_is_maximal(text, CharClass::Numeric, pos + 1);
}

/// No step emits the `Power` operator: the grammar has no lexeme for it.
pub proof fn lemma_power_is_never_emitted(text: Seq<char>, pos: int)
    requires
        0 <= pos < text.len(),
    ensures
        step_at(text, pos) matches Step::Emit { kind, .. } ==> kind != TokenKind::Power,
{
}

} // verus!
