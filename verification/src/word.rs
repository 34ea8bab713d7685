//! Words: the five reserved words, and identifiers.

use crate::token::{TokenKind, TokenType};
use vstd::prelude::*;
use vstd::string::StrSliceExecFns;

verus! {

/// What a word denotes: its keyword if it is one of the reserved words `func`, `if`,
/// `while`, `for` and `var`, letter for letter; else the identifier of that name.
pub open spec fn word_kind(text: Seq<char>) -> TokenKind {
    if text == seq!['f', 'u', 'n', 'c'] {
        TokenKind::Func
    } else if text == seq!['i', 'f'] {
        TokenKind::If
    } else if text == seq!['w', 'h', 'i', 'l', 'e'] {
        TokenKind::While
    } else if text == seq!['f', 'o', 'r'] {
        TokenKind::For
    } else if text == seq!['v', 'a', 'r'] {
        TokenKind::Var
    } else {
        TokenKind::Identifier(text)
    }
}

/// Whether two texts hold the same characters.
pub fn same_text(a: &str, b: &str) -> (same: bool)
    ensures
        same == (a@ == b@),
{
    let n = a.unicode_len();
    if b.unicode_len() != n {
        return false;
    }
    let mut i: usize = 0;
    while i < n
        invariant
            i <= n,
            n == a@.len(),
            n == b@.len(),
            forall|j: int| 0 <= j < i ==> a@[j] == b@[j],
        decreases n - i,
    {
        if a.get_char(i) != b.get_char(i) {
            return false;
        }
        i = i + 1;
    }
    assert(a@ =~= b@);
    true
}

/// Reads a word: the keyword or identifier that `text` denotes.
pub fn word_token(text: &str) -> (token: TokenType)
    ensures
        token@ == word_kind(text@),
{
    proof {
        reveal_strlit("func");
        reveal_strlit("if");
        reveal_strlit("while");
        reveal_strlit("for");
        reveal_strlit("var");
        assert("func"@ =~= seq!['f', 'u', 'n', 'c']);
        assert("if"@ =~= seq!['i', 'f']);
        assert("while"@ =~= seq!['w', 'h', 'i', 'l', 'e']);
        assert("for"@ =~= seq!['f', 'o', 'r']);
        assert("var"@ =~= seq!['v', 'a', 'r']);
    }
    if same_text(text, "func") {
        TokenType::Func
    } else if same_text(text, "if") {
        TokenType::If
    } else if same_text(text, "while") {
        TokenType::While
    } else if same_text(text, "for") {
        TokenType::For
    } else if same_text(text, "var") {
        TokenType::Var
    } else {
        TokenType::Identifier(text.to_owned())
    }
}

} // verus!
