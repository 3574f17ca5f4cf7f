use marwood::lexer::{tokenize, LexError, Token, TokenType};

/// Map tokens to a vector of (text, type) pairs.
fn expand(tokens: Vec<Token>, text: &str) -> Vec<(&str, TokenType)> {
    tokens
        .into_iter()
        .map(|token| (token.span_text(text), token.token_type))
        .collect()
}

/// The whole of `text` lexes as one token of the given type.
fn lexes_as(text: &str, token_type: TokenType) {
    assert_eq!(
        expand(tokenize(text).unwrap(), text).iter().next().unwrap(),
        &(text, token_type)
    );
}

#[test]
fn parens() {
    lexes_as("(", TokenType::LeftParen);
    lexes_as(")", TokenType::RightParen);
}

#[test]
fn symbols() {
    lexes_as("foo", TokenType::Symbol);
}

#[test]
fn numbers() {
    lexes_as("5", TokenType::Number);
    lexes_as("10", TokenType::Number);
    lexes_as("10.5", TokenType::Number);
    lexes_as("10..5", TokenType::Number);
    lexes_as("-42", TokenType::Number);
    lexes_as("+42", TokenType::Number);
    lexes_as("-10.5", TokenType::Number);
}

#[test]
fn dot() {
    let text = "(foo . bar)";
    assert_eq!(
        expand(tokenize(text).unwrap(), text),
        vec![
            ("(", TokenType::LeftParen),
            ("foo", TokenType::Symbol),
            (".", TokenType::Dot),
            ("bar", TokenType::Symbol),
            (")", TokenType::RightParen),
        ]
    );
}

#[test]
fn multiple_expressions() {
    let text = "42.0 '((1024)('baz))";
    assert_eq!(
        expand(tokenize(text).unwrap(), text),
        vec![
            ("42.0", TokenType::Number),
            ("'", TokenType::SingleQuote),
            ("(", TokenType::LeftParen),
            ("(", TokenType::LeftParen),
            ("1024", TokenType::Number),
            (")", TokenType::RightParen),
            ("(", TokenType::LeftParen),
            ("'", TokenType::SingleQuote),
            ("baz", TokenType::Symbol),
            (")", TokenType::RightParen),
            (")", TokenType::RightParen),
        ]
    );
}

#[test]
fn boolean_tokens() {
    lexes_as("#t", TokenType::True);
    lexes_as("#f", TokenType::False);
}

#[test]
fn boolean_spans_two_bytes() {
    assert_eq!(
        tokenize(" #t #f").unwrap(),
        vec![
            Token::new((1, 3), TokenType::True),
            Token::new((4, 6), TokenType::False),
        ]
    );
}

#[test]
fn unknown_character_is_an_error() {
    assert_eq!(tokenize("(foo ] bar)"), Err(LexError { offset: 5 }));
    assert_eq!(tokenize("#"), Err(LexError { offset: 0 }));
    assert_eq!(tokenize("ab #q"), Err(LexError { offset: 3 }));
    assert_eq!(tokenize("\"open"), Err(LexError { offset: 0 }));
    assert_eq!(tokenize("#x"), Err(LexError { offset: 0 }));
    assert_eq!(tokenize("(#e)"), Err(LexError { offset: 1 }));
    assert_eq!(tokenize("#\\"), Err(LexError { offset: 0 }));
    assert_eq!(
        tokenize("#x1").unwrap(),
        vec![Token::new((0, 3), TokenType::Number)]
    );
}

#[test]
fn spans_are_byte_offsets() {
    let text = "λx (é)";
    assert_eq!(
        tokenize(text).unwrap(),
        vec![
            Token::new((0, 3), TokenType::Symbol),
            Token::new((4, 5), TokenType::LeftParen),
            Token::new((5, 7), TokenType::Symbol),
            Token::new((7, 8), TokenType::RightParen),
        ]
    );
}

#[test]
fn literal_tokens() {
    let text = "#\\a #\\space #\\) \"a \\\" b\" #(1) #xff";
    assert_eq!(
        expand(tokenize(text).unwrap(), text),
        vec![
            ("#\\a", TokenType::Char),
            ("#\\space", TokenType::Char),
            ("#\\)", TokenType::Char),
            ("\"a \\\" b\"", TokenType::String),
            ("#(", TokenType::VectorOpen),
            ("1", TokenType::Number),
            (")", TokenType::RightParen),
            ("#xff", TokenType::Number),
        ]
    );
}
