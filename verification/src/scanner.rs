//! The scanner: a cursor over a source text, and the sub-scanners that move it.

use crate::classes::{is_digit, is_word_char, lemma_run_end_is_maximal, run_end, CharClass};
use crate::error::{ScanError, ScanFailure};
use crate::grammar::{
    char_at, lemma_step_advances, literal_step, number_step, pass_from, step_at, symbol,
    word_step, Pass, Step,
};
use crate::number::number_token;
use crate::token::{category_of, Token, TokenCategory, TokenType, TokenView};
use crate::word::word_token;
use vstd::prelude::*;
use vstd::string::StrSliceExecFns;

verus! {

/// The state of one scan: the source, the cursor, and the tokens emitted so far.
pub struct Context {
    /// A label for the source. Stored, never read.
    pub file_name: String,
    /// The cursor: the index of the next character to look at.
    pub file_pointer: usize,
    /// The length of `buffer`, in characters.
    pub file_end: usize,
    /// The source text.
    pub buffer: String,
    /// The tokens emitted so far, in source order.
    pub tokens: Vec<Token>,
}

/// `after` is `before` with tokens appended whose values are `added`, in that order.
/// Nothing that was in `before` is removed or changed.
pub open spec fn extends(before: Seq<Token>, after: Seq<Token>, added: Seq<TokenView>) -> bool {
    &&& after.len() == before.len() + added.len()
    &&& after.take(before.len() as int) == before
    &&& forall|i: int|
        before.len() <= i < after.len() ==> (#[trigger] after[i])@ == added[i - before.len()]
}

/// The failure that a result reports, if any.
pub open spec fn failure_of(result: Result<(), ScanError>) -> Option<ScanFailure> {
    match result {
        Ok(_) => None,
        Err(error) => Some(error@),
    }
}

impl Context {
    /// The cursor lies within the text, and `file_end` is the text's length.
    pub open spec fn wf(&self) -> bool {
        &&& self.file_end == self.buffer@.len()
        &&& self.file_pointer <= self.file_end
    }

    /// What the scanner does at the cursor.
    pub open spec fn step(&self) -> Step
        recommends
            self.file_pointer < self.file_end,
    {
        step_at(self.buffer@, self.file_pointer as int)
    }

    /// What scanning from the cursor to the end yields.
    pub open spec fn pass(&self) -> Pass {
        pass_from(self.buffer@, self.file_pointer as int)
    }

    /// `self` and `other` are states of a scan of the same source.
    pub open spec fn same_source(&self, other: &Context) -> bool {
        &&& self.file_name == other.file_name
        &&& self.buffer == other.buffer
        &&& self.file_end == other.file_end
    }

    /// `self` is what `before` becomes when `step` is taken at its cursor: the cursor moves
    /// on by the step's length, and the token that the step emits, if any, is appended.
    /// A step that fails changes nothing.
    pub open spec fn follows(&self, before: &Context, step: Step) -> bool {
        &&& self.same_source(before)
        &&& self.file_pointer == before.file_pointer + step.len()
        &&& match step {
            Step::Emit { kind, len } => extends(
                before.tokens@,
                self.tokens@,
                seq![TokenView { kind, category: category_of(kind) }],
            ),
            _ => self.tokens@ == before.tokens@,
        }
    }

    /// A context at the start of `buffer`, with no tokens yet.
    pub fn new(file_name: String, buffer: String) -> (context: Context)
        ensures
            context.wf(),
            context.file_name == file_name,
            context.buffer == buffer,
            context.file_pointer == 0,
            context.tokens@.len() == 0,
    {
        let file_end = buffer.as_str().unicode_len();
        Context { file_name, file_pointer: 0, file_end, buffer, tokens: Vec::new() }
    }
}

/// The character at `index`, or `None` from the end of the text on.
pub fn get_char(context: &Context, index: usize) -> (c: Option<char>)
    requires
        context.wf(),
    ensures
        c == char_at(context.buffer@, index as int),
{
    if index >= context.file_end {
        return None;
    }
    Some(context.buffer.as_str().get_char(index))
}

/// Appends a token of the given kind and category, and moves the cursor on by
/// `token_length`.
pub fn add_token(
    context: &mut Context,
    token_type: TokenType,
    token_category: TokenCategory,
    token_length: usize,
)
    requires
        old(context).wf(),
        old(context).file_pointer + token_length <= old(context).file_end,
    ensures
        final(context).wf(),
        final(context).same_source(old(context)),
        final(context).file_pointer == old(context).file_pointer + token_length,
        final(context).tokens@ == old(context).tokens@.push(Token { token_type, token_category }),
{
    let token = Token { token_type, token_category };
    context.file_pointer += token_length;
    context.tokens.push(token);
}

/// Finds where the run of `class` characters that starts at `from` ends.
pub fn scan_run(context: &Context, class: CharClass, from: usize) -> (end: usize)
    requires
        context.wf(),
        from <= context.file_end,
    ensures
        end == run_end(context.buffer@, class, from as int),
{
    let mut current_pointer = from;
    while current_pointer < context.file_end && class.contains(
        get_char(context, current_pointer).unwrap(),
    )
        invariant
            context.wf(),
            from <= current_pointer <= context.file_end,
            run_end(context.buffer@, class, from as int) == run_end(
                context.buffer@,
                class,
                current_pointer as int,
            ),
        decreases context.file_end - current_pointer,
    {
        current_pointer += 1;
    }
    current_pointer
}

/// Scans the word at the cursor and emits its keyword or identifier.
pub fn scan_word(context: &mut Context)
    requires
        old(context).wf(),
        old(context).file_pointer < old(context).file_end,
        is_word_char(old(context).buffer@[old(context).file_pointer as int]),
    ensures
        final(context).wf(),
        final(context).follows(
            old(context),
            word_step(old(context).buffer@, old(context).file_pointer as int),
        ),
        old(context).file_pointer < final(context).file_pointer,
{
    let start_pointer = context.file_pointer;
    let current_pointer = scan_run(context, CharClass::Word, start_pointer);
    proof {
        lemma_run_end_is_maximal(context.buffer@, CharClass::Word, start_pointer as int);
    }
    let word = context.buffer.as_str().substring_char(start_pointer, current_pointer);
    let length = current_pointer - start_pointer;
    let token_type = word_token(word);
    let token_category = match token_type {
        TokenType::Identifier(_) => TokenCategory::Identifier,
        _ => TokenCategory::Keyword,
    };
    add_token(context, token_type, token_category, length);
    proof {
        lemma_extends_by_push(old(context).tokens@, context.tokens@.last());
    }
}

/// Scans the number that starts with the minus sign at the cursor and emits it, or fails
/// where the lexeme denotes no number.
pub fn scan_number(context: &mut Context) -> (result: Result<(), ScanError>)
    requires
        old(context).wf(),
        old(context).file_pointer + 1 < old(context).file_end,
        old(context).buffer@[old(context).file_pointer as int] == '-',
        is_digit(old(context).buffer@[old(context).file_pointer + 1]),
    ensures
        final(context).wf(),
        final(context).follows(
            old(context),
            number_step(old(context).buffer@, old(context).file_pointer as int),
        ),
        failure_of(result) == number_step(
            old(context).buffer@,
            old(context).file_pointer as int,
        ).failure(),
        result is Ok ==> old(context).file_pointer < final(context).file_pointer,
{
    let start_pointer = context.file_pointer;
    let current_pointer = scan_run(context, CharClass::Numeric, start_pointer + 1);
    proof {
        lemma_run_end_is_maximal(context.buffer@, CharClass::Numeric, start_pointer + 1);
    }
    let number = context.buffer.as_str().substring_char(start_pointer, current_pointer);
    let length = current_pointer - start_pointer;
    match number_token(number) {
        Some(token_type) => {
            add_token(context, token_type, TokenCategory::Number, length);
            proof {
                lemma_extends_by_push(old(context).tokens@, context.tokens@.last());
            }
            Ok(())
        },
        None => Err(ScanError::MalformedNumber { text: number.to_owned(), position: start_pointer }),
    }
}

/// Scans the quoted literal that opens with `character` at the cursor and emits what stands
/// between the quotes, or fails where no closing quote follows.
pub fn scan_word_between(context: &mut Context, character: char) -> (result: Result<
    (),
    ScanError,
>)
    requires
        old(context).wf(),
        old(context).file_pointer < old(context).file_end,
        old(context).buffer@[old(context).file_pointer as int] == character,
        character == '"' || character == '\'',
    ensures
        final(context).wf(),
        final(context).follows(
            old(context),
            literal_step(old(context).buffer@, old(context).file_pointer as int, character),
        ),
        failure_of(result) == literal_step(
            old(context).buffer@,
            old(context).file_pointer as int,
            character,
        ).failure(),
        result is Ok ==> old(context).file_pointer < final(context).file_pointer,
{
    let start_pointer = context.file_pointer + 1;
    let current_pointer = scan_run(context, CharClass::Except(character), start_pointer);
    proof {
        lemma_run_end_is_maximal(
            context.buffer@,
            CharClass::Except(character),
            start_pointer as int,
        );
    }
    if current_pointer >= context.file_end {
        return Err(
            ScanError::UnterminatedLiteral {
                delimiter: character,
                position: context.file_pointer,
            },
        );
    }
    let word = context.buffer.as_str().substring_char(start_pointer, current_pointer);
    let length = current_pointer - start_pointer + 2;
    let token_type = if character == '"' {
        TokenType::String(word.to_owned())
    } else {
        TokenType::Char(word.to_owned())
    };
    add_token(context, token_type, TokenCategory::Literal, length);
    proof {
        lemma_extends_by_push(old(context).tokens@, context.tokens@.last());
    }
    Ok(())
}

/// Reads the separator or operator that starts with `c`, given the character `next` that
/// follows it: the token and its length, or `None` where `c` starts neither.
pub fn symbol_token(c: char, next: Option<char>) -> (found: Option<(Token, usize)>)
    ensures
        match found {
            Some((token, length)) => symbol(c, next) == Some((token.token_type@, length as int))
                && token.token_category == category_of(token.token_type@),
            None => symbol(c, next) is None,
        },
{
    let followed_by_equals = next == Some('=');
    let (token_type, token_category, length): (TokenType, TokenCategory, usize) = match c {
        ',' => (TokenType::Comma, TokenCategory::Separator, 1),
        ':' => (TokenType::Colon, TokenCategory::Separator, 1),
        '(' => (TokenType::OpeningBracket, TokenCategory::Separator, 1),
        ')' => (TokenType::ClosingBracket, TokenCategory::Separator, 1),
        '[' => (TokenType::OpeningSquareBracket, TokenCategory::Separator, 1),
        ']' => (TokenType::ClosingSquareBracket, TokenCategory::Separator, 1),
        '\t' => (TokenType::Tab, TokenCategory::Separator, 1),
        '%' => (TokenType::Mod, TokenCategory::Operation, 1),
        '+' => {
            if next == Some('+') {
                (TokenType::PlusPlus, TokenCategory::Operation, 2)
            } else if followed_by_equals {
                (TokenType::PlusEquals, TokenCategory::Operation, 2)
            } else {
                (TokenType::Plus, TokenCategory::Operation, 1)
            }
        },
        '-' => {
            if next == Some('-') {
                (TokenType::MinusMinus, TokenCategory::Operation, 2)
            } else if followed_by_equals {
                (TokenType::MinusEquals, TokenCategory::Operation, 2)
            } else {
                (TokenType::Minus, TokenCategory::Operation, 1)
            }
        },
        '*' => {
            if followed_by_equals {
                (TokenType::MultiplyEquals, TokenCategory::Operation, 2)
            } else {
                (TokenType::Multiply, TokenCategory::Operation, 1)
            }
        },
        '/' => {
            if followed_by_equals {
                (TokenType::DivideEquals, TokenCategory::Operation, 2)
            } else {
                (TokenType::Divide, TokenCategory::Operation, 1)
            }
        },
        '=' => {
            if followed_by_equals {
                (TokenType::EqualsEquals, TokenCategory::Operation, 2)
            } else {
                (TokenType::Equals, TokenCategory::Operation, 1)
            }
        },
        '>' => {
            if followed_by_equals {
                (TokenType::MoreThanEquals, TokenCategory::Operation, 2)
            } else {
                (TokenType::MoreThan, TokenCategory::Operation, 1)
            }
        },
        '<' => {
            if followed_by_equals {
                (TokenType::LessThanEquals, TokenCategory::Operation, 2)
            } else {
                (TokenType::LessThan, TokenCategory::Operation, 1)
            }
        },
        _ => {
            return None;
        },
    };
    Some((Token { token_type, token_category }, length))
}

/// Takes one step at the cursor: looks at the character there and the one after it, and
/// lets the sub-scanner that they call for do its work. Any character that starts no
/// lexeme is skipped.
pub fn scan_token(context: &mut Context) -> (result: Result<(), ScanError>)
    requires
        old(context).wf(),
        old(context).file_pointer < old(context).file_end,
    ensures
        final(context).wf(),
        final(context).follows(old(context), old(context).step()),
        failure_of(result) == old(context).step().failure(),
        result is Ok ==> old(context).file_pointer < final(context).file_pointer,
{
    proof {
        lemma_step_advances(context.buffer@, context.file_pointer as int);
    }
    let character = get_char(context, context.file_pointer).unwrap();
    let next = get_char(context, context.file_pointer + 1);
    if is_word_char(character) {
        scan_word(context);
        return Ok(());
    }
    if character == '"' || character == '\'' {
        return scan_word_between(context, character);
    }
    let number_follows = match next {
        Some(digit) => character == '-' && is_digit(digit),
        None => false,
    };
    if number_follows {
        return scan_number(context);
    }
    match symbol_token(character, next) {
        Some((token, length)) => {
            add_token(context, token.token_type, token.token_category, length);
            proof {
                lemma_extends_by_push(old(context).tokens@, context.tokens@.last());
            }
        },
        None => {
            context.file_pointer += 1;
        },
    }
    Ok(())
}

/// Scans from the cursor to the end of the source, appending every token on the way, or
/// stops at the first lexeme that fails and reports why. On success the cursor is at the
/// end; on failure it is at the start of the failing lexeme, and the tokens before it have
/// been appended.
pub fn scan_tokens(context: &mut Context) -> (result: Result<(), ScanError>)
    requires
        old(context).wf(),
    ensures
        final(context).wf(),
        final(context).same_source(old(context)),
        final(context).file_pointer == old(context).pass().stop,
        extends(old(context).tokens@, final(context).tokens@, old(context).pass().tokens()),
        failure_of(result) == old(context).pass().failure,
        old(context).file_pointer <= final(context).file_pointer,
        result is Ok ==> final(context).file_pointer == final(context).file_end,
{
    let ghost text = context.buffer@;
    let ghost whole = pass_from(text, context.file_pointer as int);
    let ghost emitted = Seq::<TokenView>::empty();
    proof {
        lemma_extends_by_nothing(context.tokens@);
        assert(emitted + whole.tokens() =~= whole.tokens());
    }
    while context.file_pointer < context.file_end
        invariant
            context.wf(),
            context.same_source(old(context)),
            old(context).file_pointer <= context.file_pointer,
            text == context.buffer@,
            whole == old(context).pass(),
            extends(old(context).tokens@, context.tokens@, emitted),
            whole.tokens() == emitted + pass_from(text, context.file_pointer as int).tokens(),
            whole.stop == pass_from(text, context.file_pointer as int).stop,
            whole.failure == pass_from(text, context.file_pointer as int).failure,
        decreases context.file_end - context.file_pointer,
    {
        let ghost before = *context;
        let ghost here = context.file_pointer as int;
        let ghost step = step_at(text, here);
        let ghost rest = pass_from(text, here);
        let stepped = scan_token(context);
        proof {
            lemma_step_advances(text, here);
            match step {
                Step::Emit { kind, len } => {
                    let token = TokenView { kind, category: category_of(kind) };
                    assert(rest.tokens() =~= seq![token] + pass_from(text, here + len).tokens());
                    lemma_extends_further(
                        old(context).tokens@,
                        before.tokens@,
                        context.tokens@,
                        emitted,
                        seq![token],
                    );
                    assert(whole.tokens() =~= (emitted + seq![token]) + pass_from(
                        text,
                        here + len,
                    ).tokens());
                    emitted = emitted + seq![token];
                },
                Step::Skip => {},
                Step::Fail(_) => {
                    assert(rest.tokens() =~= Seq::<TokenView>::empty());
                    assert(whole.tokens() =~= emitted);
                },
            }
        }
        match stepped {
            Ok(_) => {},
            Err(error) => {
                return Err(error);
            },
        }
    }
    proof {
        assert(pass_from(text, context.file_pointer as int).tokens() =~= Seq::<
            TokenView,
        >::empty());
        assert(whole.tokens() =~= emitted);
    }
    Ok(())
}

/// A sequence extends itself by nothing.
proof fn lemma_extends_by_nothing(tokens: Seq<Token>)
    ensures
        extends(tokens, tokens, Seq::empty()),
{
    assert(tokens.take(tokens.len() as int) =~= tokens);
}

/// Extending an extension extends the first sequence by both additions, one after the other.
proof fn lemma_extends_further(
    before: Seq<Token>,
    middle: Seq<Token>,
    after: Seq<Token>,
    first: Seq<TokenView>,
    second: Seq<TokenView>,
)
    requires
        extends(before, middle, first),
        extends(middle, after, second),
    ensures
        extends(before, after, first + second),
{
    let n = before.len() as int;
    let m = middle.len() as int;
    assert(after.take(n) =~= before) by {
        assert forall|i: int| 0 <= i < n implies after.take(n)[i] == before[i] by {
            assert(after.take(m)[i] == middle[i]);
            assert(middle.take(n)[i] == before[i]);
        }
    }
    assert forall|i: int| n <= i < after.len() implies (#[trigger] after[i])@ == (first
        + second)[i - n] by {
        if i < m {
            assert(after.take(m)[i] == middle[i]);
        }
    }
}

/// Pushing one token extends a sequence by that token's value.
proof fn lemma_extends_by_push(before: Seq<Token>, token: Token)
    ensures
        extends(before, before.push(token), seq![token@]),
{
    assert(before.push(token).take(before.len() as int) =~= before);
}

} // verus!
