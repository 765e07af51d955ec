use lang_front::lexer::{LexErr, Lexer};
use lang_front::token::Token;

fn collect(src: &str) -> (Vec<(usize, Token)>, Option<LexErr>) {
    let mut lexer = Lexer::new(src);
    let mut toks = Vec::new();
    loop {
        match lexer.next() {
            None => return (toks, None),
            Some(Err(e)) => return (toks, Some(e)),
            Some(Ok(t)) => toks.push(t),
        }
    }
}

fn ident(s: &str) -> Token {
    Token::Ident(String::from(s))
}

// Example: one leading level then a dedent to zero yields
// `Indent, <line-1 tokens>, Newline, Dedent, <line-2 tokens>`.
#[test]
fn example_indent_then_dedent() {
    let mut lexer = Lexer::new("    x\ny");
    assert_eq!(lexer.next(), Some(Ok((0, Token::Indent))));
    assert_eq!(lexer.next(), Some(Ok((4, ident("x")))));
    assert_eq!(lexer.next(), Some(Ok((5, Token::Newline))));
    assert_eq!(lexer.next(), Some(Ok((6, Token::Dedent))));
    assert_eq!(lexer.next(), Some(Ok((6, ident("y")))));
    assert_eq!(lexer.next(), None);
}

// Indentation balance on a nested source: indents minus dedents never goes
// negative and each nesting level opens and closes once.
#[test]
fn indentation_balance() {
    let (toks, err) = collect("if a:\n    if b:\n        c\nd\n");
    assert_eq!(err, None);
    let mut level: i64 = 0;
    let mut max_level: i64 = 0;
    for (_, t) in &toks {
        match t {
            Token::Indent => level += 1,
            Token::Dedent => level -= 1,
            _ => {}
        }
        assert!(level >= 0);
        max_level = max_level.max(level);
    }
    assert_eq!(level, 0);
    assert_eq!(max_level, 2);
}

// Keywords are recognized over the generic identifier classification.
#[test]
fn keywords_and_identifiers() {
    let (toks, err) = collect("and or not mut return if else def struct other");
    assert_eq!(err, None);
    let kinds: Vec<Token> = toks.into_iter().map(|(_, t)| t).collect();
    assert_eq!(
        kinds,
        vec![
            Token::And,
            Token::Or,
            Token::Not,
            Token::Mut,
            Token::Return,
            Token::If,
            Token::Else,
            Token::Def,
            Token::Struct,
            ident("other"),
        ]
    );
}

// Two-character operators are recognized by one character of lookahead.
#[test]
fn compound_operators() {
    let (toks, err) = collect("+ += - -= -> * *= / /= ! != = ==");
    assert_eq!(err, None);
    let kinds: Vec<Token> = toks.into_iter().map(|(_, t)| t).collect();
    assert_eq!(
        kinds,
        vec![
            Token::Add,
            Token::AddEq,
            Token::Sub,
            Token::SubEq,
            Token::Arrow,
            Token::Mul,
            Token::MulEq,
            Token::Div,
            Token::DivEq,
            Token::Bang,
            Token::BangEq,
            Token::Eq,
            Token::DoubleEq,
        ]
    );
}

// Punctuation, literals, and byte offsets.
#[test]
fn punctuation_and_literals() {
    let (toks, err) = collect("f(10, \"hi\"): ;.");
    assert_eq!(err, None);
    assert_eq!(
        toks,
        vec![
            (0, ident("f")),
            (1, Token::LParen),
            (2, Token::IntLiteral(10)),
            (4, Token::Comma),
            (6, Token::StrLiteral(String::from("hi"))),
            (10, Token::RParen),
            (11, Token::Colon),
            (13, Token::Semicolon),
            (14, Token::Dot),
        ]
    );
}

// Byte offsets count encoded bytes, not characters.
#[test]
fn multibyte_offsets() {
    let (toks, err) = collect("\"héllo\" x");
    assert_eq!(err, None);
    assert_eq!(toks[0], (0, Token::StrLiteral(String::from("héllo"))));
    // The string spans bytes 0..=7 because `é` takes two bytes.
    assert_eq!(toks[1], (9, ident("x")));
}

// A character that starts no token is an unknown-token error.
#[test]
fn unknown_character() {
    let (toks, err) = collect("a ?");
    assert_eq!(toks, vec![(0, ident("a"))]);
    assert_eq!(err, Some(LexErr::UnknownToken(2, None)));
}

// A leading run of spaces that is not a multiple of four is rejected.
#[test]
fn misaligned_indent() {
    let (_, err) = collect("x\n  y\n");
    assert_eq!(err, Some(LexErr::MisalignedIndent(2)));
}

// A jump of two or more levels at once is rejected.
#[test]
fn over_deep_indent() {
    let (_, err) = collect("x\n        y\n");
    assert_eq!(err, Some(LexErr::OverDeepIndent(2)));
}

// An integer literal that does not fit a 32-bit signed integer, or that
// holds an underscore, is rejected.
#[test]
fn invalid_int_literals() {
    let (_, err) = collect("9999999999");
    assert_eq!(err, Some(LexErr::InvalidIntLiteral(0)));
    let (_, err) = collect("1_0");
    assert_eq!(err, Some(LexErr::InvalidIntLiteral(0)));
    let (toks, err) = collect("2147483647");
    assert_eq!(err, None);
    assert_eq!(toks, vec![(0, Token::IntLiteral(2147483647))]);
}

// Mid-line spaces are skipped without affecting indent levels.
#[test]
fn interior_spaces_are_skipped() {
    let (toks, err) = collect("a     +      b");
    assert_eq!(err, None);
    let kinds: Vec<Token> = toks.into_iter().map(|(_, t)| t).collect();
    assert_eq!(kinds, vec![ident("a"), Token::Add, ident("b")]);
}

// A line with zero leading spaces closes every open level, one dedent per
// pull, without consuming input.
#[test]
fn dedents_cascade_at_column_zero() {
    let (toks, err) = collect("if a:\n    if b:\n        c\nd\n");
    assert_eq!(err, None);
    let kinds: Vec<Token> = toks.into_iter().map(|(_, t)| t).collect();
    let dedent_run: Vec<&Token> =
        kinds.iter().filter(|t| matches!(t, Token::Dedent)).collect();
    assert_eq!(dedent_run.len(), 2);
}

// A line that keeps leading spaces while closing several levels emits one
// dedent per pull, at the line's first character, until the level matches
// the line's indent.
#[test]
fn dedents_cascade_on_spaced_line() {
    let (toks, err) = collect("if a:\n    if b:\n        if c:\n            d\n    e\n");
    assert_eq!(err, None);
    // The line `    e` sits two levels below the `d` line: two dedents,
    // both at the line's start, then `e` after the consumed run.
    let e_pos = toks
        .iter()
        .position(|(_, t)| *t == ident("e"))
        .expect("e not lexed");
    assert_eq!(toks[e_pos - 1].1, Token::Dedent);
    assert_eq!(toks[e_pos - 2].1, Token::Dedent);
    assert_eq!(toks[e_pos - 3].1, Token::Newline);
    let line_start = toks[e_pos - 1].0;
    assert_eq!(toks[e_pos - 2].0, line_start);
    assert_eq!(toks[e_pos].0, line_start + 4);
    let mut level: i64 = 0;
    for (_, t) in &toks {
        match t {
            Token::Indent => level += 1,
            Token::Dedent => level -= 1,
            _ => {}
        }
        assert!(level >= 0);
    }
    assert_eq!(level, 1);
}
