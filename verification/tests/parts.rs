use titan_scanner::classes::{is_digit, is_word_char, CharClass};
use titan_scanner::error::ScanError;
use titan_scanner::number::number_token;
use titan_scanner::scanner::{
    add_token, get_char, scan_number, scan_run, scan_token, scan_word, scan_word_between,
    symbol_token, Context,
};
use titan_scanner::token::{Token, TokenCategory, TokenType};
use titan_scanner::word::{same_text, word_token};

fn context_at(source: &str, cursor: usize) -> Context {
    let mut context = Context::new("parts.titan".to_string(), source.to_string());
    assert!(cursor <= context.file_end);
    context.file_pointer = cursor;
    context
}

#[test]
fn new_context_measures_characters() {
    let context = Context::new("name".to_string(), "a\u{e9}\u{4e16}b".to_string());
    assert_eq!(context.file_name, "name");
    assert_eq!(context.buffer, "a\u{e9}\u{4e16}b");
    assert_eq!(context.file_pointer, 0);
    assert_eq!(context.file_end, 4);
    assert!(context.tokens.is_empty());
}

#[test]
fn word_characters() {
    for c in 'a'..='z' {
        assert!(is_word_char(c));
    }
    assert!(is_word_char('_'));
    for c in ['A', 'Z', '0', '9', ' ', '-', '`', '{', '\u{e9}'] {
        assert!(!is_word_char(c));
    }
}

#[test]
fn digits() {
    for c in '0'..='9' {
        assert!(is_digit(c));
    }
    for c in ['/', ':', 'a', '.', '-', '\u{663}'] {
        assert!(!is_digit(c));
    }
}

#[test]
fn class_membership() {
    assert!(CharClass::Word.contains('q'));
    assert!(!CharClass::Word.contains('7'));
    assert!(CharClass::Numeric.contains('7'));
    assert!(CharClass::Numeric.contains('.'));
    assert!(!CharClass::Numeric.contains('-'));
    assert!(!CharClass::Numeric.contains('e'));
    assert!(CharClass::Except('"').contains('\''));
    assert!(CharClass::Except('"').contains('x'));
    assert!(!CharClass::Except('"').contains('"'));
}

#[test]
fn get_char_reads_by_character_index() {
    let context = context_at("a\u{e9}c", 0);
    assert_eq!(get_char(&context, 0), Some('a'));
    assert_eq!(get_char(&context, 1), Some('\u{e9}'));
    assert_eq!(get_char(&context, 2), Some('c'));
}

#[test]
fn get_char_has_nothing_from_the_end_on() {
    let context = context_at("abc", 0);
    assert_eq!(get_char(&context, 3), None);
    assert_eq!(get_char(&context, 4), None);
    assert_eq!(get_char(&context, usize::MAX), None);
    let empty = context_at("", 0);
    assert_eq!(get_char(&empty, 0), None);
}

#[test]
fn add_token_appends_and_advances() {
    let mut context = context_at("abcdef", 1);
    add_token(&mut context, TokenType::Comma, TokenCategory::Separator, 2);
    assert_eq!(context.file_pointer, 3);
    add_token(&mut context, TokenType::IntNumber(-3), TokenCategory::Number, 3);
    assert_eq!(context.file_pointer, 6);
    assert_eq!(
        context.tokens,
        vec![
            Token { token_type: TokenType::Comma, token_category: TokenCategory::Separator },
            Token { token_type: TokenType::IntNumber(-3), token_category: TokenCategory::Number },
        ]
    );
    assert_eq!(context.buffer, "abcdef");
    assert_eq!(context.file_end, 6);
}

#[test]
fn add_token_stores_the_category_it_is_given() {
    let mut context = context_at("x", 0);
    add_token(&mut context, TokenType::Plus, TokenCategory::Literal, 0);
    assert_eq!(context.file_pointer, 0);
    assert_eq!(context.tokens[0].token_category, TokenCategory::Literal);
}

#[test]
fn runs_are_maximal() {
    let context = context_at("abc_d9 -12.5.x \"q r\"", 0);
    assert_eq!(scan_run(&context, CharClass::Word, 0), 5);
    assert_eq!(scan_run(&context, CharClass::Word, 3), 5);
    assert_eq!(scan_run(&context, CharClass::Word, 5), 5);
    assert_eq!(scan_run(&context, CharClass::Numeric, 8), 13);
    assert_eq!(scan_run(&context, CharClass::Numeric, 7), 7);
    assert_eq!(scan_run(&context, CharClass::Except('"'), 16), 19);
    assert_eq!(scan_run(&context, CharClass::Except('\''), 16), 20);
    assert_eq!(scan_run(&context, CharClass::Word, 20), 20);
}

#[test]
fn scan_word_takes_the_longest_word() {
    let mut context = context_at("a whilex+", 2);
    scan_word(&mut context);
    assert_eq!(context.file_pointer, 8);
    assert_eq!(
        context.tokens,
        vec![Token {
            token_type: TokenType::Identifier("whilex".to_string()),
            token_category: TokenCategory::Identifier,
        }]
    );
}

#[test]
fn scan_word_from_the_middle_of_a_word() {
    let mut context = context_at("xif", 1);
    scan_word(&mut context);
    assert_eq!(context.file_pointer, 3);
    assert_eq!(
        context.tokens,
        vec![Token { token_type: TokenType::If, token_category: TokenCategory::Keyword }]
    );
}

#[test]
fn scan_number_reads_integers_and_decimals() {
    let mut context = context_at("-15 -2.50", 0);
    assert_eq!(scan_number(&mut context), Ok(()));
    assert_eq!(context.file_pointer, 3);
    context.file_pointer = 4;
    assert_eq!(scan_number(&mut context), Ok(()));
    assert_eq!(context.file_pointer, 9);
    assert_eq!(
        context.tokens,
        vec![
            Token { token_type: TokenType::IntNumber(-15), token_category: TokenCategory::Number },
            Token {
                token_type: TokenType::DecimalNumber("-2.50".to_string()),
                token_category: TokenCategory::Number,
            },
        ]
    );
}

#[test]
fn scan_number_failure_leaves_the_context_alone() {
    let mut context = context_at("a -3.1.4 b", 2);
    assert_eq!(
        scan_number(&mut context),
        Err(ScanError::MalformedNumber { text: "-3.1.4".to_string(), position: 2 })
    );
    assert_eq!(context.file_pointer, 2);
    assert!(context.tokens.is_empty());
}

#[test]
fn scan_word_between_reads_both_quotes() {
    let mut context = context_at("'it' \"is\"", 0);
    assert_eq!(scan_word_between(&mut context, '\''), Ok(()));
    assert_eq!(context.file_pointer, 4);
    context.file_pointer = 5;
    assert_eq!(scan_word_between(&mut context, '"'), Ok(()));
    assert_eq!(context.file_pointer, 9);
    assert_eq!(
        context.tokens,
        vec![
            Token {
                token_type: TokenType::Char("it".to_string()),
                token_category: TokenCategory::Literal,
            },
            Token {
                token_type: TokenType::String("is".to_string()),
                token_category: TokenCategory::Literal,
            },
        ]
    );
}

#[test]
fn scan_word_between_fails_without_a_closing_quote() {
    let mut context = context_at("x 'abc\"", 2);
    assert_eq!(
        scan_word_between(&mut context, '\''),
        Err(ScanError::UnterminatedLiteral { delimiter: '\'', position: 2 })
    );
    assert_eq!(context.file_pointer, 2);
    assert!(context.tokens.is_empty());
}

#[test]
fn scan_token_takes_one_step() {
    let mut context = context_at("if x<=-3 ", 0);
    let mut cursors = Vec::new();
    while context.file_pointer < context.file_end {
        assert_eq!(scan_token(&mut context), Ok(()));
        cursors.push(context.file_pointer);
    }
    assert_eq!(cursors, vec![2, 3, 4, 6, 8, 9]);
    assert_eq!(
        context.tokens.iter().map(|t| t.token_type.clone()).collect::<Vec<_>>(),
        vec![
            TokenType::If,
            TokenType::Identifier("x".to_string()),
            TokenType::LessThanEquals,
            TokenType::IntNumber(-3),
        ]
    );
}

#[test]
fn scan_token_reports_the_failure_of_its_sub_scanner() {
    let mut context = context_at("\"", 0);
    assert_eq!(
        scan_token(&mut context),
        Err(ScanError::UnterminatedLiteral { delimiter: '"', position: 0 })
    );
    let mut context = context_at("-1.1.", 0);
    assert_eq!(
        scan_token(&mut context),
        Err(ScanError::MalformedNumber { text: "-1.1.".to_string(), position: 0 })
    );
}

#[test]
fn symbol_table() {
    let separator = |t| Token { token_type: t, token_category: TokenCategory::Separator };
    let operation = |t| Token { token_type: t, token_category: TokenCategory::Operation };
    assert_eq!(symbol_token(',', None), Some((separator(TokenType::Comma), 1)));
    assert_eq!(symbol_token(':', Some(':')), Some((separator(TokenType::Colon), 1)));
    assert_eq!(symbol_token('(', None), Some((separator(TokenType::OpeningBracket), 1)));
    assert_eq!(symbol_token(')', None), Some((separator(TokenType::ClosingBracket), 1)));
    assert_eq!(symbol_token('[', None), Some((separator(TokenType::OpeningSquareBracket), 1)));
    assert_eq!(symbol_token(']', None), Some((separator(TokenType::ClosingSquareBracket), 1)));
    assert_eq!(symbol_token('\t', None), Some((separator(TokenType::Tab), 1)));
    assert_eq!(symbol_token('%', Some('=')), Some((operation(TokenType::Mod), 1)));
    assert_eq!(symbol_token('+', Some('+')), Some((operation(TokenType::PlusPlus), 2)));
    assert_eq!(symbol_token('+', Some('=')), Some((operation(TokenType::PlusEquals), 2)));
    assert_eq!(symbol_token('+', Some('-')), Some((operation(TokenType::Plus), 1)));
    assert_eq!(symbol_token('+', None), Some((operation(TokenType::Plus), 1)));
    assert_eq!(symbol_token('-', Some('-')), Some((operation(TokenType::MinusMinus), 2)));
    assert_eq!(symbol_token('-', Some('=')), Some((operation(TokenType::MinusEquals), 2)));
    assert_eq!(symbol_token('-', Some('+')), Some((operation(TokenType::Minus), 1)));
    assert_eq!(symbol_token('-', None), Some((operation(TokenType::Minus), 1)));
    assert_eq!(symbol_token('*', Some('=')), Some((operation(TokenType::MultiplyEquals), 2)));
    assert_eq!(symbol_token('*', Some('*')), Some((operation(TokenType::Multiply), 1)));
    assert_eq!(symbol_token('/', Some('=')), Some((operation(TokenType::DivideEquals), 2)));
    assert_eq!(symbol_token('/', Some('/')), Some((operation(TokenType::Divide), 1)));
    assert_eq!(symbol_token('=', Some('=')), Some((operation(TokenType::EqualsEquals), 2)));
    assert_eq!(symbol_token('=', Some('>')), Some((operation(TokenType::Equals), 1)));
    assert_eq!(symbol_token('>', Some('=')), Some((operation(TokenType::MoreThanEquals), 2)));
    assert_eq!(symbol_token('>', Some('>')), Some((operation(TokenType::MoreThan), 1)));
    assert_eq!(symbol_token('<', Some('=')), Some((operation(TokenType::LessThanEquals), 2)));
    assert_eq!(symbol_token('<', None), Some((operation(TokenType::LessThan), 1)));
    for c in [' ', '\n', 'a', '5', '^', '"', '\'', '{', '.', ';', '!'] {
        assert_eq!(symbol_token(c, Some('=')), None);
    }
}

#[test]
fn word_tokens() {
    assert_eq!(word_token("func"), TokenType::Func);
    assert_eq!(word_token("if"), TokenType::If);
    assert_eq!(word_token("while"), TokenType::While);
    assert_eq!(word_token("for"), TokenType::For);
    assert_eq!(word_token("var"), TokenType::Var);
    for word in ["fun", "funcs", "f", "", "iff", "fo", "Func", "var_", "whale", "rof"] {
        assert_eq!(word_token(word), TokenType::Identifier(word.to_string()));
    }
}

#[test]
fn same_text_compares_character_by_character() {
    assert!(same_text("", ""));
    assert!(same_text("abc", "abc"));
    assert!(same_text("h\u{e9}", "h\u{e9}"));
    assert!(!same_text("abc", "abd"));
    assert!(!same_text("abc", "ab"));
    assert!(!same_text("ab", "abc"));
    assert!(!same_text("", "a"));
    assert!(!same_text("\u{e9}", "e"));
}

#[test]
fn number_tokens() {
    assert_eq!(number_token("-42"), Some(TokenType::IntNumber(-42)));
    assert_eq!(number_token("-0"), Some(TokenType::IntNumber(0)));
    assert_eq!(number_token("-2147483648"), Some(TokenType::IntNumber(-2147483648)));
    assert_eq!(number_token("-2147483649"), None);
    assert_eq!(number_token("-4.2"), Some(TokenType::DecimalNumber("-4.2".to_string())));
    assert_eq!(number_token("-4."), Some(TokenType::DecimalNumber("-4.".to_string())));
    assert_eq!(number_token("-4.2.1"), None);
    assert_eq!(number_token("-4.."), None);
}

#[test]
fn texts_of_another_shape_denote_no_number() {
    for text in ["", "-", "42", "4.2", "+42", "--4", "-.5", "-x", "-4x", "-4 ", "-4e3", " -4"] {
        assert_eq!(number_token(text), None);
    }
}

#[test]
fn integers_agree_with_the_standard_parser() {
    let texts = [
        "-0",
        "-1",
        "-9",
        "-10",
        "-000",
        "-0123",
        "-999999999",
        "-2147483647",
        "-2147483648",
        "-2147483649",
        "-2147483650",
        "-3000000000",
        "-9999999999",
        "-21474836480",
        "-00000000002147483648",
        "-00000000002147483649",
        "-18446744073709551616",
        "-9223372036854775808",
        "-9223372036854775809",
        "-99999999999999999999999999999999999999999",
    ];
    for text in texts {
        let expected = text.parse::<i32>().ok().map(TokenType::IntNumber);
        assert_eq!(number_token(text), expected);
    }
}

#[test]
fn decimals_are_accepted_exactly_where_they_parse() {
    let texts = ["-1.5", "-1.", "-0.0", "-10.25", "-1..5", "-1.2.3", "-1...", "-9.9.", "-123456789012345678901234567890.5"];
    for text in texts {
        let parses = text.parse::<f32>().is_ok();
        assert_eq!(number_token(text).is_some(), parses);
        if parses {
            assert_eq!(number_token(text), Some(TokenType::DecimalNumber(text.to_string())));
        }
    }
}
