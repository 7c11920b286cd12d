//! The lexer: turns source text into tokens, one at a time.
//!
//! [`lex`] defines the token that starts at a position of the input and the
//! position behind it; [`Lexer::next_token`] is proved to compute it.
use vstd::prelude::*;
use vstd::string::*;
use crate::text::{
    char_is_alphabetic, char_is_digit, char_is_whitespace, chars_of, is_alphabetic, is_digit,
    is_whitespace, is_word, push_char,
};

verus! {

/// The tokens of the language.
#[derive(Debug, PartialEq)]
pub enum Token {
    /// A name.
    Identifier(String),
    /// `[`
    LeftBracket,
    /// `]`
    RightBracket,
    /// `{`
    LeftBrace,
    /// `}`
    RightBrace,
    /// `(`
    LeftParen,
    /// `)`
    RightParen,
    /// `,`
    Comma,
    /// `:`
    Colon,
    /// `:=`
    Define,
    /// An integer literal.
    Number(i32),
    /// A floating-point literal, kept as its decimal text.
    Float(String),
    /// A string literal, without its quotes.
    String(String),
    /// `true` or `false`
    Boolean(bool),
    /// `+`
    Plus,
    /// `-`
    Minus,
    /// `*`
    Multiply,
    /// `/`
    Divide,
    /// `^`
    Power,
    /// `==`
    Equals,
    /// `!=`
    NotEquals,
    /// `<`
    LessThan,
    /// `>`
    GreaterThan,
    LogDebug,
    LogInfo,
    LogWarn,
    LogError,
    /// The keyword `None`.
    KeywordNone,
    /// The keyword `Some`.
    KeywordSome,
    /// The keyword `Ok`.
    KeywordOk,
    /// The keyword `Err`.
    KeywordErr,
    /// `_`, the wildcard.
    Underscore,
}

/// Model of a [`Token`].
pub enum TokenView {
    Identifier(Seq<char>),
    LeftBracket,
    RightBracket,
    LeftBrace,
    RightBrace,
    LeftParen,
    RightParen,
    Comma,
    Colon,
    Define,
    Number(i32),
    Float(Seq<char>),
    String(Seq<char>),
    Boolean(bool),
    Plus,
    Minus,
    Multiply,
    Divide,
    Power,
    Equals,
    NotEquals,
    LessThan,
    GreaterThan,
    LogDebug,
    LogInfo,
    LogWarn,
    LogError,
    KeywordNone,
    KeywordSome,
    KeywordOk,
    KeywordErr,
    Underscore,
}

impl View for Token {
    type V = TokenView;

    open spec fn view(&self) -> TokenView {
        match self {
            Token::Identifier(s) => TokenView::Identifier(s@),
            Token::LeftBracket => TokenView::LeftBracket,
            Token::RightBracket => TokenView::RightBracket,
            Token::LeftBrace => TokenView::LeftBrace,
            Token::RightBrace => TokenView::RightBrace,
            Token::LeftParen => TokenView::LeftParen,
            Token::RightParen => TokenView::RightParen,
            Token::Comma => TokenView::Comma,
            Token::Colon => TokenView::Colon,
            Token::Define => TokenView::Define,
            Token::Number(n) => TokenView::Number(*n),
            Token::Float(s) => TokenView::Float(s@),
            Token::String(s) => TokenView::String(s@),
            Token::Boolean(b) => TokenView::Boolean(*b),
            Token::Plus => TokenView::Plus,
            Token::Minus => TokenView::Minus,
            Token::Multiply => TokenView::Multiply,
            Token::Divide => TokenView::Divide,
            Token::Power => TokenView::Power,
            Token::Equals => TokenView::Equals,
            Token::NotEquals => TokenView::NotEquals,
            Token::LessThan => TokenView::LessThan,
            Token::GreaterThan => TokenView::GreaterThan,
            Token::LogDebug => TokenView::LogDebug,
            Token::LogInfo => TokenView::LogInfo,
            Token::LogWarn => TokenView::LogWarn,
            Token::LogError => TokenView::LogError,
            Token::KeywordNone => TokenView::KeywordNone,
            Token::KeywordSome => TokenView::KeywordSome,
            Token::KeywordOk => TokenView::KeywordOk,
            Token::KeywordErr => TokenView::KeywordErr,
            Token::Underscore => TokenView::Underscore,
        }
    }
}

impl Clone for Token {
    fn clone(&self) -> (r: Self)
        ensures
            r@ == self@,
    {
        match self {
            Token::Identifier(s) => Token::Identifier(s.clone()),
            Token::Number(n) => Token::Number(*n),
            Token::Float(s) => Token::Float(s.clone()),
            Token::String(s) => Token::String(s.clone()),
            Token::Boolean(b) => Token::Boolean(*b),
            Token::LeftBracket => Token::LeftBracket,
            Token::RightBracket => Token::RightBracket,
            Token::LeftBrace => Token::LeftBrace,
            Token::RightBrace => Token::RightBrace,
            Token::LeftParen => Token::LeftParen,
            Token::RightParen => Token::RightParen,
            Token::Comma => Token::Comma,
            Token::Colon => Token::Colon,
            Token::Define => Token::Define,
            Token::Plus => Token::Plus,
            Token::Minus => Token::Minus,
            Token::Multiply => Token::Multiply,
            Token::Divide => Token::Divide,
            Token::Power => Token::Power,
            Token::Equals => Token::Equals,
            Token::NotEquals => Token::NotEquals,
            Token::LessThan => Token::LessThan,
            Token::GreaterThan => Token::GreaterThan,
            Token::LogDebug => Token::LogDebug,
            Token::LogInfo => Token::LogInfo,
            Token::LogWarn => Token::LogWarn,
            Token::LogError => Token::LogError,
            Token::KeywordNone => Token::KeywordNone,
            Token::KeywordSome => Token::KeywordSome,
            Token::KeywordOk => Token::KeywordOk,
            Token::KeywordErr => Token::KeywordErr,
            Token::Underscore => Token::Underscore,
        }
    }
}

/// The view of an optional token.
pub open spec fn token_view(t: Option<Token>) -> Option<TokenView> {
    match t {
        Some(t) => Some(t@),
        None => None,
    }
}

/// The position behind the comment whose body starts at `pos`: behind the
/// first `*)`, or where fewer than two characters are left.
pub open spec fn comment_end(input: Seq<char>, pos: int) -> int
    decreases input.len() - pos,
{
    if 0 <= pos && pos + 1 < input.len() {
        if input[pos] == '*' && input[pos + 1] == ')' {
            pos + 2
        } else {
            comment_end(input, pos + 1)
        }
    } else {
        pos
    }
}

/// The first position from `pos` on that starts neither white space nor a
/// `(* ... *)` comment.
pub open spec fn skip_blank(input: Seq<char>, pos: int) -> int
    decreases input.len() - pos,
{
    if 0 <= pos < input.len() && is_whitespace(input[pos]) {
        skip_blank(input, pos + 1)
    } else if 0 <= pos && pos + 1 < input.len() && input[pos] == '(' && input[pos + 1] == '*'
        && pos < comment_end(input, pos + 2) <= input.len() {
        skip_blank(input, comment_end(input, pos + 2))
    } else {
        pos
    }
}

/// The end of the longest run of characters from `pos` on that satisfy `accept`.
pub open spec fn run_end(input: Seq<char>, pos: int, accept: spec_fn(char) -> bool) -> int
    decreases input.len() - pos,
{
    if 0 <= pos < input.len() && accept(input[pos]) {
        run_end(input, pos + 1, accept)
    } else {
        pos
    }
}

/// Whether `c` can continue an identifier: a letter, a digit or an underscore.
pub open spec fn is_identifier_char(c: char) -> bool {
    is_alphabetic(c) || is_digit(c) || c == '_'
}

/// The value of a decimal digit; 0 for any other character.
pub open spec fn digit_value(c: char) -> nat {
    if is_digit(c) {
        (c as u32 - 48) as nat
    } else {
        0
    }
}

/// The characters that continue an identifier.
pub open spec fn identifier_chars() -> spec_fn(char) -> bool {
    |c: char| is_identifier_char(c)
}

/// The decimal digits.
pub open spec fn digit_chars() -> spec_fn(char) -> bool {
    |c: char| is_digit(c)
}

/// The characters of a string literal's body: all but the quote.
pub open spec fn string_chars() -> spec_fn(char) -> bool {
    |c: char| c != '"'
}

/// The number that a string of decimal digits denotes.
pub open spec fn decimal_value(digits: Seq<char>) -> nat
    decreases digits.len(),
{
    if digits.len() == 0 {
        0
    } else {
        decimal_value(digits.drop_last()) * 10 + digit_value(digits.last())
    }
}

/// The value of an integer literal: the number it denotes where that fits in
/// 32 bits with sign, and 0 otherwise.
pub open spec fn number_value(digits: Seq<char>) -> i32 {
    if decimal_value(digits) <= i32::MAX {
        decimal_value(digits) as i32
    } else {
        0
    }
}

/// The token of a word: a keyword, a boolean literal or an identifier.
pub open spec fn word_token(w: Seq<char>) -> TokenView {
    if w == "LogDebug"@ {
        TokenView::LogDebug
    } else if w == "LogInfo"@ {
        TokenView::LogInfo
    } else if w == "LogWarn"@ {
        TokenView::LogWarn
    } else if w == "LogError"@ {
        TokenView::LogError
    } else if w == "true"@ {
        TokenView::Boolean(true)
    } else if w == "false"@ {
        TokenView::Boolean(false)
    } else if w == "None"@ {
        TokenView::KeywordNone
    } else if w == "Some"@ {
        TokenView::KeywordSome
    } else if w == "Ok"@ {
        TokenView::KeywordOk
    } else if w == "Err"@ {
        TokenView::KeywordErr
    } else {
        TokenView::Identifier(w)
    }
}

/// The token of a single punctuation or operator character.
pub open spec fn single_char_token(c: char) -> Option<TokenView> {
    if c == '[' {
        Some(TokenView::LeftBracket)
    } else if c == ']' {
        Some(TokenView::RightBracket)
    } else if c == '{' {
        Some(TokenView::LeftBrace)
    } else if c == '}' {
        Some(TokenView::RightBrace)
    } else if c == '(' {
        Some(TokenView::LeftParen)
    } else if c == ')' {
        Some(TokenView::RightParen)
    } else if c == ',' {
        Some(TokenView::Comma)
    } else if c == '+' {
        Some(TokenView::Plus)
    } else if c == '-' {
        Some(TokenView::Minus)
    } else if c == '*' {
        Some(TokenView::Multiply)
    } else if c == '/' {
        Some(TokenView::Divide)
    } else if c == '^' {
        Some(TokenView::Power)
    } else if c == '<' {
        Some(TokenView::LessThan)
    } else if c == '>' {
        Some(TokenView::GreaterThan)
    } else if c == '_' {
        Some(TokenView::Underscore)
    } else {
        None
    }
}

/// Whether the character at `pos` is `c`.
pub open spec fn char_at(input: Seq<char>, pos: int, c: char) -> bool {
    0 <= pos < input.len() && input[pos] == c
}

/// The token that starts exactly at `pos` and the position behind it.
///
/// There is no token at the end of the input, at a character that starts
/// none (the position stays), and at a lone `=` or `!` (which is passed over).
/// A string runs to the next `"` or to the end of the input.
pub open spec fn token_at(input: Seq<char>, pos: int) -> (Option<TokenView>, int) {
    if pos < 0 || pos >= input.len() {
        (None, pos)
    } else if single_char_token(input[pos]) is Some {
        (single_char_token(input[pos]), pos + 1)
    } else if input[pos] == ':' {
        if char_at(input, pos + 1, '=') {
            (Some(TokenView::Define), pos + 2)
        } else {
            (Some(TokenView::Colon), pos + 1)
        }
    } else if input[pos] == '=' {
        if char_at(input, pos + 1, '=') {
            (Some(TokenView::Equals), pos + 2)
        } else {
            (None, pos + 1)
        }
    } else if input[pos] == '!' {
        if char_at(input, pos + 1, '=') {
            (Some(TokenView::NotEquals), pos + 2)
        } else {
            (None, pos + 1)
        }
    } else if input[pos] == '"' {
        let end = run_end(input, pos + 1, string_chars());
        (
            Some(TokenView::String(input.subrange(pos + 1, end))),
            if end < input.len() {
                end + 1
            } else {
                end
            },
        )
    } else if is_alphabetic(input[pos]) {
        let end = run_end(input, pos, identifier_chars());
        (Some(word_token(input.subrange(pos, end))), end)
    } else if is_digit(input[pos]) {
        let end = run_end(input, pos, digit_chars());
        (Some(TokenView::Number(number_value(input.subrange(pos, end)))), end)
    } else {
        (None, pos)
    }
}

/// The next token from `pos` on, after white space and comments, and the
/// position behind it.
pub open spec fn lex(input: Seq<char>, pos: int) -> (Option<TokenView>, int) {
    token_at(input, skip_blank(input, pos))
}

/// A comment ends at or behind the start of its body, within the input.
pub proof fn lemma_comment_end_bounds(input: Seq<char>, pos: int)
    requires
        0 <= pos <= input.len(),
    ensures
        pos <= comment_end(input, pos) <= input.len(),
    decreases input.len() - pos,
{
    if pos + 1 < input.len() && !(input[pos] == '*' && input[pos + 1] == ')') {
        lemma_comment_end_bounds(input, pos + 1);
    }
}

/// Skipping blanks moves forward, within the input.
pub proof fn lemma_skip_blank_bounds(input: Seq<char>, pos: int)
    requires
        0 <= pos <= input.len(),
    ensures
        pos <= skip_blank(input, pos) <= input.len(),
    decreases input.len() - pos,
{
    if pos < input.len() && is_whitespace(input[pos]) {
        lemma_skip_blank_bounds(input, pos + 1);
    } else if pos + 1 < input.len() && input[pos] == '(' && input[pos + 1] == '*' {
        lemma_comment_end_bounds(input, pos + 2);
        lemma_skip_blank_bounds(input, comment_end(input, pos + 2));
    }
}

/// A run ends at or behind its start, within the input.
pub proof fn lemma_run_end_bounds(input: Seq<char>, pos: int, accept: spec_fn(char) -> bool)
    requires
        0 <= pos <= input.len(),
    ensures
        pos <= run_end(input, pos, accept) <= input.len(),
        pos < input.len() && accept(input[pos]) ==> pos < run_end(input, pos, accept),
    decreases input.len() - pos,
{
    if pos < input.len() && accept(input[pos]) {
        lemma_run_end_bounds(input, pos + 1, accept);
    }
}

/// Lexing moves forward within the input, and a token takes at least one character.
pub proof fn lemma_lex_progress(input: Seq<char>, pos: int)
    requires
        0 <= pos <= input.len(),
    ensures
        pos <= lex(input, pos).1 <= input.len(),
        lex(input, pos).0 is Some ==> pos < lex(input, pos).1,
{
    lemma_skip_blank_bounds(input, pos);
    let p = skip_blank(input, pos);
    if p < input.len() {
        lemma_run_end_bounds(input, p + 1, string_chars());
        lemma_run_end_bounds(input, p, identifier_chars());
        lemma_run_end_bounds(input, p, digit_chars());
    }
}


/// Appending a digit to a string of digits multiplies its value by ten and adds the digit.
proof fn lemma_decimal_value_step(input: Seq<char>, start: int, pos: int)
    requires
        0 <= start <= pos < input.len(),
    ensures
        decimal_value(input.subrange(start, pos + 1)) == decimal_value(input.subrange(start, pos))
            * 10 + digit_value(input[pos]),
{
    assert(input.subrange(start, pos + 1).drop_last() =~= input.subrange(start, pos));
}

/// The lexer: the input as characters and the position of the next one to read.
pub struct Lexer {
    input: Vec<char>,
    position: usize,
}

impl Lexer {
    /// The whole input.
    pub closed spec fn input(&self) -> Seq<char> {
        self.input@
    }

    /// The position of the next character to read.
    pub closed spec fn position(&self) -> int {
        self.position as int
    }

    #[verifier::type_invariant]
    spec fn in_bounds(&self) -> bool {
        self.position <= self.input.len()
    }

    /// A lexer at the start of `input`.
    pub fn new(input: String) -> (r: Self)
        ensures
            r.input() == input@,
            r.position() == 0,
    {
        Lexer { input: chars_of(input.as_str()), position: 0 }
    }

    /// The position of the next character to read, which never lies behind
    /// the end of the input.
    pub fn offset(&self) -> (r: usize)
        ensures
            r == self.position(),
            r <= self.input().len(),
    {
        proof {
            use_type_invariant(self);
        }
        self.position
    }

    /// The next token, without consuming it.
    pub fn peek_token(&self) -> (r: Option<Token>)
        ensures
            token_view(r) == lex(self.input(), self.position()).0,
    {
        proof {
            use_type_invariant(self);
        }
        self.scan(self.position).0
    }

    /// Consumes and returns the next token. `None` is the end of the input, or
    /// a character that starts no token.
    pub fn next_token(&mut self) -> (r: Option<Token>)
        ensures
            token_view(r) == lex(old(self).input(), old(self).position()).0,
            final(self).position() == lex(old(self).input(), old(self).position()).1,
            final(self).input() == old(self).input(),
            old(self).position() <= final(self).position() <= final(self).input().len(),
    {
        proof {
            use_type_invariant(&*self);
        }
        let (token, end) = self.scan(self.position);
        self.position = end;
        token
    }

    /// The next token from `start` on and the position behind it.
    #[verifier::rlimit(40)]
    fn scan(&self, start: usize) -> (r: (Option<Token>, usize))
        requires
            start <= self.input.len(),
        ensures
            token_view(r.0) == lex(self.input@, start as int).0,
            r.1 == lex(self.input@, start as int).1,
            start <= r.1 <= self.input.len(),
    {
        proof {
            lemma_lex_progress(self.input@, start as int);
        }
        let pos = self.skip_whitespace(start);
        let len = self.input.len();
        if pos >= len {
            return (None, pos);
        }
        let c = self.input[pos];
        let followed_by_equals = pos + 1 < len && self.input[pos + 1] == '=';
        if c == '[' {
            (Some(Token::LeftBracket), pos + 1)
        } else if c == ']' {
            (Some(Token::RightBracket), pos + 1)
        } else if c == '{' {
            (Some(Token::LeftBrace), pos + 1)
        } else if c == '}' {
            (Some(Token::RightBrace), pos + 1)
        } else if c == '(' {
            (Some(Token::LeftParen), pos + 1)
        } else if c == ')' {
            (Some(Token::RightParen), pos + 1)
        } else if c == ',' {
            (Some(Token::Comma), pos + 1)
        } else if c == '+' {
            (Some(Token::Plus), pos + 1)
        } else if c == '-' {
            (Some(Token::Minus), pos + 1)
        } else if c == '*' {
            (Some(Token::Multiply), pos + 1)
        } else if c == '/' {
            (Some(Token::Divide), pos + 1)
        } else if c == '^' {
            (Some(Token::Power), pos + 1)
        } else if c == '<' {
            (Some(Token::LessThan), pos + 1)
        } else if c == '>' {
            (Some(Token::GreaterThan), pos + 1)
        } else if c == '_' {
            (Some(Token::Underscore), pos + 1)
        } else if c == ':' {
            if followed_by_equals {
                (Some(Token::Define), pos + 2)
            } else {
                (Some(Token::Colon), pos + 1)
            }
        } else if c == '=' {
            if followed_by_equals {
                (Some(Token::Equals), pos + 2)
            } else {
                (None, pos + 1)
            }
        } else if c == '!' {
            if followed_by_equals {
                (Some(Token::NotEquals), pos + 2)
            } else {
                (None, pos + 1)
            }
        } else if c == '"' {
            let (text, end) = self.read_string(pos);
            (Some(Token::String(text)), end)
        } else if char_is_alphabetic(c) {
            let (word, end) = self.read_identifier(pos);
            let token = if is_word(&word, "LogDebug") {
                Token::LogDebug
            } else if is_word(&word, "LogInfo") {
                Token::LogInfo
            } else if is_word(&word, "LogWarn") {
                Token::LogWarn
            } else if is_word(&word, "LogError") {
                Token::LogError
            } else if is_word(&word, "true") {
                Token::Boolean(true)
            } else if is_word(&word, "false") {
                Token::Boolean(false)
            } else if is_word(&word, "None") {
                Token::KeywordNone
            } else if is_word(&word, "Some") {
                Token::KeywordSome
            } else if is_word(&word, "Ok") {
                Token::KeywordOk
            } else if is_word(&word, "Err") {
                Token::KeywordErr
            } else {
                Token::Identifier(word)
            };
            (Some(token), end)
        } else if char_is_digit(c) {
            let (value, end) = self.read_number(pos);
            (Some(Token::Number(value)), end)
        } else {
            (None, pos)
        }
    }

    /// The first position from `start` on that starts neither white space nor a comment.
    #[verifier::rlimit(40)]
    fn skip_whitespace(&self, start: usize) -> (end: usize)
        requires
            start <= self.input.len(),
        ensures
            end == skip_blank(self.input@, start as int),
            start <= end <= self.input.len(),
    {
        let len = self.input.len();
        let mut pos = start;
        loop
            invariant
                len == self.input.len(),
                start <= pos <= len,
                skip_blank(self.input@, start as int) == skip_blank(self.input@, pos as int),
            decreases len - pos,
        {
            if pos < len && char_is_whitespace(self.input[pos]) {
                pos += 1;
            } else if len - pos > 1 && self.input[pos] == '(' && self.input[pos + 1] == '*' {
                let ghost body = pos + 2;
                let mut scan: usize = pos + 2;
                let mut closed = false;
                while !closed && len - scan > 1
                    invariant
                        len == self.input.len(),
                        body <= scan <= len,
                        comment_end(self.input@, body as int) == if closed {
                            scan as int
                        } else {
                            comment_end(self.input@, scan as int)
                        },
                    decreases len - scan + if closed { 0int } else { 1int },
                {
                    if self.input[scan] == '*' && self.input[scan + 1] == ')' {
                        scan += 2;
                        closed = true;
                    } else {
                        scan += 1;
                    }
                }
                pos = scan;
            } else {
                return pos;
            }
        }
    }

    /// The word that starts at `start`, and the position behind it.
    fn read_identifier(&self, start: usize) -> (r: (String, usize))
        requires
            start <= self.input.len(),
        ensures
            r.1 == run_end(self.input@, start as int, identifier_chars()),
            r.0@ == self.input@.subrange(start as int, r.1 as int),
            start <= r.1 <= self.input.len(),
    {
        let mut identifier = String::new();
        let mut pos = start;
        while pos < self.input.len() && (char_is_alphabetic(self.input[pos]) || char_is_digit(
            self.input[pos],
        ) || self.input[pos] == '_')
            invariant
                start <= pos <= self.input.len(),
                run_end(self.input@, start as int, identifier_chars()) == run_end(
                    self.input@,
                    pos as int,
                    identifier_chars(),
                ),
                identifier@ == self.input@.subrange(start as int, pos as int),
            decreases self.input.len() - pos,
        {
            assert(identifier_chars()(self.input@[pos as int]));
            push_char(&mut identifier, self.input[pos]);
            assert(self.input@.subrange(start as int, pos as int).push(self.input@[pos as int])
                =~= self.input@.subrange(start as int, pos + 1));
            pos += 1;
        }
        assert(pos < self.input.len() ==> !identifier_chars()(self.input@[pos as int]));
        (identifier, pos)
    }

    /// The value of the integer literal that starts at `start`, and the position behind it.
    fn read_number(&self, start: usize) -> (r: (i32, usize))
        requires
            start <= self.input.len(),
        ensures
            r.1 == run_end(self.input@, start as int, digit_chars()),
            r.0 == number_value(self.input@.subrange(start as int, r.1 as int)),
            start <= r.1 <= self.input.len(),
    {
        let mut value: u64 = 0;
        let mut overflow = false;
        let mut pos = start;
        assert(self.input@.subrange(start as int, start as int) =~= Seq::<char>::empty());
        while pos < self.input.len() && char_is_digit(self.input[pos])
            invariant
                start <= pos <= self.input.len(),
                run_end(self.input@, start as int, digit_chars()) == run_end(
                    self.input@,
                    pos as int,
                    digit_chars(),
                ),
                !overflow ==> value == decimal_value(self.input@.subrange(start as int, pos as int))
                    && value <= i32::MAX,
                overflow ==> decimal_value(self.input@.subrange(start as int, pos as int))
                    > i32::MAX,
            decreases self.input.len() - pos,
        {
            assert(digit_chars()(self.input@[pos as int]));
            proof {
                lemma_decimal_value_step(self.input@, start as int, pos as int);
            }
            if !overflow {
                let digit: u64 = (self.input[pos] as u32 - 48) as u64;
                value = value * 10 + digit;
                if value > 2147483647 {
                    overflow = true;
                }
            }
            pos += 1;
        }
        assert(pos < self.input.len() ==> !digit_chars()(self.input@[pos as int]));
        if overflow {
            (0, pos)
        } else {
            (value as i32, pos)
        }
    }

    /// The body of the string literal whose opening quote is at `start`, and
    /// the position behind its closing quote.
    fn read_string(&self, start: usize) -> (r: (String, usize))
        requires
            start < self.input.len(),
        ensures
            r.0@ == self.input@.subrange(start + 1, run_end(self.input@, start + 1, string_chars())),
            r.1 == if run_end(self.input@, start + 1, string_chars()) < self.input.len() {
                run_end(self.input@, start + 1, string_chars()) + 1
            } else {
                run_end(self.input@, start + 1, string_chars())
            },
            r.1 <= self.input.len(),
    {
        let mut text = String::new();
        let mut pos = start + 1;
        assert(self.input@.subrange(start + 1, start + 1) =~= Seq::<char>::empty());
        while pos < self.input.len() && self.input[pos] != '"'
            invariant
                start < pos <= self.input.len(),
                run_end(self.input@, start + 1, string_chars()) == run_end(
                    self.input@,
                    pos as int,
                    string_chars(),
                ),
                text@ == self.input@.subrange(start + 1, pos as int),
            decreases self.input.len() - pos,
        {
            assert(string_chars()(self.input@[pos as int]));
            push_char(&mut text, self.input[pos]);
            assert(self.input@.subrange(start + 1, pos as int).push(self.input@[pos as int])
                =~= self.input@.subrange(start + 1, pos + 1));
            pos += 1;
        }
        assert(pos < self.input.len() ==> !string_chars()(self.input@[pos as int]));
        if pos < self.input.len() {
            (text, pos + 1)
        } else {
            (text, pos)
        }
    }
}

} // verus!
