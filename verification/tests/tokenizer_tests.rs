use lang_front::tokenizer::{Token, TokenType, Tokenizer, TokenizerError};

fn tok(s: &str, tt: TokenType) -> Token {
    Token::new(String::from(s), tt)
}

// The raw tokenizer reads words, numbers and operators from a flat
// character stream.
#[test]
fn tokenizer_basic_stream() {
    let mut t = Tokenizer::new(String::from("x := foo(1) + 2"));
    let toks = t.tokenize().unwrap();
    assert_eq!(
        toks,
        vec![
            tok("x", TokenType::Identifier),
            tok(":=", TokenType::Walrus),
            tok("foo", TokenType::Identifier),
            tok("(", TokenType::LParen),
            tok("1", TokenType::Int),
            tok(")", TokenType::RParen),
            tok("+", TokenType::Add),
            tok("2", TokenType::Int),
        ]
    );
}

// Its keyword table differs from the lexer's: `for`, `in` and `range` are
// keywords here.
#[test]
fn tokenizer_keywords() {
    assert_eq!(Tokenizer::get_keyword(&String::from("for")), Some(TokenType::For));
    assert_eq!(Tokenizer::get_keyword(&String::from("in")), Some(TokenType::In));
    assert_eq!(Tokenizer::get_keyword(&String::from("range")), Some(TokenType::Range));
    assert_eq!(Tokenizer::get_keyword(&String::from("return")), Some(TokenType::Return));
    assert_eq!(Tokenizer::get_keyword(&String::from("other")), None);

    let mut t = Tokenizer::new(String::from("for i in range"));
    let toks = t.tokenize().unwrap();
    assert_eq!(
        toks,
        vec![
            tok("for", TokenType::For),
            tok("i", TokenType::Identifier),
            tok("in", TokenType::In),
            tok("range", TokenType::Range),
        ]
    );
}

// Structural characters: newline and tab become their own tokens.
#[test]
fn tokenizer_structure_tokens() {
    let mut t = Tokenizer::new(String::from("a\n\tb"));
    let toks = t.tokenize().unwrap();
    assert_eq!(
        toks,
        vec![
            tok("a", TokenType::Identifier),
            tok("\n", TokenType::Newline),
            tok("\t", TokenType::Indent),
            tok("b", TokenType::Identifier),
        ]
    );
}

// Two-character operators, including the pipe forms.
#[test]
fn tokenizer_compound_operators() {
    let mut t = Tokenizer::new(String::from("|> | != == -> :="));
    let toks = t.tokenize().unwrap();
    assert_eq!(
        toks,
        vec![
            tok("|>", TokenType::Pipe),
            tok("|", TokenType::Bar),
            tok("!=", TokenType::NotEq),
            tok("==", TokenType::Eq),
            tok("->", TokenType::Arrow),
            tok(":=", TokenType::Walrus),
        ]
    );
}

// A character that starts no token fails the whole run.
#[test]
fn tokenizer_invalid_char() {
    let mut t = Tokenizer::new(String::from("a $ b"));
    assert_eq!(t.tokenize(), Err(TokenizerError::InvalidChar));
}

// Word runs stop at digits: letters and underscores only.
#[test]
fn tokenizer_word_runs() {
    let mut t = Tokenizer::new(String::from("ab1"));
    let toks = t.tokenize().unwrap();
    assert_eq!(toks, vec![tok("ab", TokenType::Identifier), tok("1", TokenType::Int)]);
}

// `next_char_is` looks one character ahead without consuming.
#[test]
fn tokenizer_next_char_is() {
    let t = Tokenizer::new(String::from("ab"));
    assert!(t.next_char_is('b'));
    assert!(!t.next_char_is('a'));
}
