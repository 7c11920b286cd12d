use wlang::lexer::{Lexer, Token};

fn tokens_of(input: &str) -> Vec<Token> {
    let mut lexer = Lexer::new(input.to_string());
    let mut tokens = Vec::new();
    while let Some(token) = lexer.next_token() {
        tokens.push(token);
    }
    tokens
}

#[test]
fn colon_and_define_are_told_apart() {
    assert_eq!(tokens_of("a: b := c"), vec![
        Token::Identifier("a".to_string()),
        Token::Colon,
        Token::Identifier("b".to_string()),
        Token::Define,
        Token::Identifier("c".to_string()),
    ]);
}

#[test]
fn comparison_operators_need_their_second_character() {
    assert_eq!(tokens_of("1 == 2 != 3 < 4 > 5"), vec![
        Token::Number(1),
        Token::Equals,
        Token::Number(2),
        Token::NotEquals,
        Token::Number(3),
        Token::LessThan,
        Token::Number(4),
        Token::GreaterThan,
        Token::Number(5),
    ]);
}

#[test]
fn lone_equals_yields_no_token_and_is_passed_over() {
    let mut lexer = Lexer::new("= 5".to_string());
    assert_eq!(lexer.next_token(), None);
    assert_eq!(lexer.next_token(), Some(Token::Number(5)));
    assert_eq!(lexer.next_token(), None);
}

#[test]
fn lone_bang_yields_no_token_and_is_passed_over() {
    let mut lexer = Lexer::new("!x".to_string());
    assert_eq!(lexer.next_token(), None);
    assert_eq!(lexer.next_token(), Some(Token::Identifier("x".to_string())));
}

#[test]
fn unrecognized_character_ends_the_stream_where_it_stands() {
    let mut lexer = Lexer::new("1 @ 2".to_string());
    assert_eq!(lexer.next_token(), Some(Token::Number(1)));
    assert_eq!(lexer.next_token(), None);
    assert_eq!(lexer.next_token(), None);
}

#[test]
fn arithmetic_operator_tokens() {
    assert_eq!(tokens_of("+ - * / ^"), vec![
        Token::Plus,
        Token::Minus,
        Token::Multiply,
        Token::Divide,
        Token::Power,
    ]);
}

#[test]
fn brackets_braces_and_parentheses() {
    assert_eq!(tokens_of("[]{}()"), vec![
        Token::LeftBracket,
        Token::RightBracket,
        Token::LeftBrace,
        Token::RightBrace,
        Token::LeftParen,
        Token::RightParen,
    ]);
}

#[test]
fn number_at_the_32_bit_limit() {
    assert_eq!(tokens_of("2147483647"), vec![Token::Number(2147483647)]);
}

#[test]
fn number_beyond_the_32_bit_limit_is_zero() {
    assert_eq!(tokens_of("2147483648"), vec![Token::Number(0)]);
    assert_eq!(tokens_of("99999999999999999999999999"), vec![Token::Number(0)]);
}

#[test]
fn number_with_leading_zeros() {
    assert_eq!(tokens_of("007"), vec![Token::Number(7)]);
    assert_eq!(tokens_of("0000000000000000000012"), vec![Token::Number(12)]);
}

#[test]
fn digits_then_letters_are_two_tokens() {
    assert_eq!(tokens_of("12ab"), vec![Token::Number(12), Token::Identifier("ab".to_string())]);
}

#[test]
fn string_without_escapes() {
    assert_eq!(tokens_of("\"a\\n b\""), vec![Token::String("a\\n b".to_string())]);
}

#[test]
fn empty_string_literal() {
    assert_eq!(tokens_of("\"\""), vec![Token::String(String::new())]);
}

#[test]
fn unterminated_string_runs_to_the_end() {
    assert_eq!(tokens_of("\"abc"), vec![Token::String("abc".to_string())]);
}

#[test]
fn string_keeps_non_ascii_characters() {
    assert_eq!(tokens_of("\"h\u{e9}llo \u{4e16}\""), vec![Token::String("h\u{e9}llo \u{4e16}".to_string())]);
}

#[test]
fn keywords_and_booleans() {
    assert_eq!(tokens_of("LogDebug LogInfo LogWarn LogError true false None Some Ok Err"), vec![
        Token::LogDebug,
        Token::LogInfo,
        Token::LogWarn,
        Token::LogError,
        Token::Boolean(true),
        Token::Boolean(false),
        Token::KeywordNone,
        Token::KeywordSome,
        Token::KeywordOk,
        Token::KeywordErr,
    ]);
}

#[test]
fn keyword_prefix_is_an_identifier() {
    assert_eq!(tokens_of("Somewhere trueish"), vec![
        Token::Identifier("Somewhere".to_string()),
        Token::Identifier("trueish".to_string()),
    ]);
}

#[test]
fn identifier_with_digits_and_underscores() {
    assert_eq!(tokens_of("a_1b"), vec![Token::Identifier("a_1b".to_string())]);
}

#[test]
fn leading_underscore_is_the_wildcard() {
    assert_eq!(tokens_of("_x"), vec![Token::Underscore, Token::Identifier("x".to_string())]);
}

#[test]
fn identifier_of_non_ascii_letters() {
    assert_eq!(tokens_of("\u{e9}t\u{e9}1 x"), vec![
        Token::Identifier("\u{e9}t\u{e9}1".to_string()),
        Token::Identifier("x".to_string()),
    ]);
}

#[test]
fn all_kinds_of_white_space_are_skipped() {
    assert_eq!(tokens_of(" \t\r\n\u{a0}\u{2003}x"), vec![Token::Identifier("x".to_string())]);
}

#[test]
fn comments_are_skipped() {
    assert_eq!(tokens_of("(* one *) 1 (* two *)(* three *) 2"), vec![Token::Number(1), Token::Number(2)]);
}

#[test]
fn comment_ends_at_the_first_closer() {
    assert_eq!(tokens_of("(* a (* b *) c *)"), vec![
        Token::Identifier("c".to_string()),
        Token::Multiply,
        Token::RightParen,
    ]);
}

#[test]
fn unclosed_comment_leaves_its_last_character() {
    assert_eq!(tokens_of("(* abc"), vec![Token::Identifier("c".to_string())]);
}

#[test]
fn comment_opener_alone_at_the_end() {
    assert_eq!(tokens_of("x (*"), vec![Token::Identifier("x".to_string())]);
}

#[test]
fn parenthesis_before_another_character_is_no_comment() {
    assert_eq!(tokens_of("(+"), vec![Token::LeftParen, Token::Plus]);
}

#[test]
fn peek_does_not_consume() {
    let mut lexer = Lexer::new("a b".to_string());
    assert_eq!(lexer.peek_token(), Some(Token::Identifier("a".to_string())));
    assert_eq!(lexer.peek_token(), Some(Token::Identifier("a".to_string())));
    assert_eq!(lexer.next_token(), Some(Token::Identifier("a".to_string())));
    assert_eq!(lexer.peek_token(), Some(Token::Identifier("b".to_string())));
    assert_eq!(lexer.next_token(), Some(Token::Identifier("b".to_string())));
    assert_eq!(lexer.peek_token(), None);
}

#[test]
fn empty_input_has_no_token() {
    assert_eq!(tokens_of(""), Vec::<Token>::new());
    assert_eq!(tokens_of("   \n"), Vec::<Token>::new());
}
