//! A simpler, single-pass tokenizer over a character buffer: no synthetic
//! indent structure beyond literal tab tokens, and a wider set of raw
//! token types. It predates the indentation-sensitive [`crate::lexer`] and
//! is kept as an alternative front end for flat token streams.
//!
//! As elsewhere, `tokenize` is specified against a functional model
//! ([`spec_tokenize_from`]) and proved to return exactly what it says.

use vstd::prelude::*;

use crate::text::{chars_of_str, chars_to_string, push_char, range_matches_str};

verus! {

broadcast use vstd::seq::group_seq_axioms, vstd::std_specs::vec::group_vec_axioms;

/// The raw token classification this tokenizer knows.
#[derive(Debug, Clone, Copy, PartialEq, Eq, Structural)]
pub enum TokenType {
    Add,
    AddEq,
    Sub,
    SubEq,
    Mul,
    MulEq,
    Div,
    DivEq,
    Eq,
    NotEq,
    Or,
    And,
    Int,
    Identifier,
    LParen,
    RParen,
    LSquare,
    RSquare,
    LBrace,
    RBrace,
    Arrow,
    Bang,
    Assignment,
    Pipe,
    Bar,
    For,
    Return,
    Def,
    Walrus,
    Colon,
    Indent,
    Newline,
    If,
    In,
    Range,
}

/// A tokenizing failure.
#[derive(Debug, Clone, Copy, PartialEq, Eq, Structural)]
pub enum TokenizerError {
    InvalidChar,
}

/// A classified lexeme: its text and its type.
#[derive(Debug, PartialEq)]
pub struct Token {
    val: String,
    ttype: TokenType,
}

/// Model of [`Token`]: its characters and its type.
pub closed spec fn legacy_token_model(t: Token) -> (Seq<char>, TokenType) {
    (t.val@, t.ttype)
}

/// Model of a sequence of tokens.
pub open spec fn legacy_tokens_view(ts: Seq<Token>) -> Seq<(Seq<char>, TokenType)> {
    Seq::new(
        ts.len(),
        |i: int|
            if 0 <= i < ts.len() {
                legacy_token_model(ts[i])
            } else {
                vstd::pervasive::arbitrary()
            },
    )
}

impl Token {
    /// A token over the given text and type.
    pub fn new(literal: String, ttype: TokenType) -> (t: Token)
        ensures
            legacy_token_model(t) == (literal@, ttype),
    {
        Token { val: literal, ttype }
    }
}

/// Whether `c` is an ASCII letter or underscore, the characters an
/// identifier is made of here.
pub open spec fn is_word_char(c: char) -> bool {
    (97 <= c as u32 && c as u32 <= 122) || (65 <= c as u32 && c as u32 <= 90) || c == '_'
}

/// End of the run of identifier characters starting at `i`.
pub open spec fn word_run_end(s: Seq<char>, i: int) -> int
    decreases s.len() - i,
{
    if i < 0 || i >= s.len() {
        i
    } else if is_word_char(s[i]) {
        word_run_end(s, i + 1)
    } else {
        i
    }
}

/// End of the run of ASCII digits starting at `i`.
pub open spec fn digit_run_end(s: Seq<char>, i: int) -> int
    decreases s.len() - i,
{
    if i < 0 || i >= s.len() {
        i
    } else if 48 <= s[i] as u32 && s[i] as u32 <= 57 {
        digit_run_end(s, i + 1)
    } else {
        i
    }
}

/// The keyword type a word stands for, if any.
pub open spec fn spec_keyword_type(s: Seq<char>) -> Option<TokenType> {
    if s == "for"@ {
        Some(TokenType::For)
    } else if s == "def"@ {
        Some(TokenType::Def)
    } else if s == "or"@ {
        Some(TokenType::Or)
    } else if s == "and"@ {
        Some(TokenType::And)
    } else if s == "if"@ {
        Some(TokenType::If)
    } else if s == "in"@ {
        Some(TokenType::In)
    } else if s == "range"@ {
        Some(TokenType::Range)
    } else if s == "return"@ {
        Some(TokenType::Return)
    } else {
        None
    }
}

/// Whether position `i + 1` holds the character `ch`.
pub open spec fn spec_next_char_is(s: Seq<char>, i: int, ch: char) -> bool {
    i + 1 < s.len() && s[i + 1] == ch
}

/// The tokens from position `r` to the end of the source, or the first
/// failure. Spaces are skipped; newlines and tabs become structural
/// tokens; one- and two-character operators are read directly; digit runs
/// become `Int` tokens and word runs identifiers or keywords.
pub open spec fn spec_tokenize_from(s: Seq<char>, r: int) -> Result<
    Seq<(Seq<char>, TokenType)>,
    TokenizerError,
>
    decreases s.len() - r,
{
    if r < 0 || r >= s.len() {
        Ok(Seq::empty())
    } else {
        let c = s[r];
        if c == ' ' {
            spec_tokenize_from(s, r + 1)
        } else {
            let step: Result<((Seq<char>, TokenType), int), TokenizerError> = if c == '\n' {
                Ok(((seq!['\n'], TokenType::Newline), r + 1))
            } else if c == '\t' {
                Ok(((seq!['\t'], TokenType::Indent), r + 1))
            } else if c == '(' {
                Ok(((seq!['('], TokenType::LParen), r + 1))
            } else if c == ')' {
                Ok(((seq![')'], TokenType::RParen), r + 1))
            } else if c == '[' {
                Ok(((seq!['['], TokenType::LSquare), r + 1))
            } else if c == ']' {
                Ok(((seq![']'], TokenType::RSquare), r + 1))
            } else if c == '{' {
                Ok(((seq!['{'], TokenType::RSquare), r + 1))
            } else if c == '}' {
                Ok(((seq!['}'], TokenType::RSquare), r + 1))
            } else if c == '+' {
                if spec_next_char_is(s, r, '=') {
                    Ok(((s.subrange(r, r + 2), TokenType::AddEq), r + 2))
                } else {
                    Ok(((seq!['+'], TokenType::Add), r + 1))
                }
            } else if c == '-' {
                if spec_next_char_is(s, r, '=') {
                    Ok(((s.subrange(r, r + 2), TokenType::SubEq), r + 2))
                } else if spec_next_char_is(s, r, '>') {
                    Ok(((s.subrange(r, r + 2), TokenType::Arrow), r + 2))
                } else {
                    Ok(((seq!['-'], TokenType::Sub), r + 1))
                }
            } else if c == '*' {
                if spec_next_char_is(s, r, '=') {
                    Ok(((s.subrange(r, r + 2), TokenType::MulEq), r + 2))
                } else {
                    Ok(((seq!['*'], TokenType::Mul), r + 1))
                }
            } else if c == '/' {
                if spec_next_char_is(s, r, '=') {
                    Ok(((s.subrange(r, r + 2), TokenType::DivEq), r + 2))
                } else {
                    Ok(((seq!['/'], TokenType::Div), r + 1))
                }
            } else if c == '=' {
                if spec_next_char_is(s, r, '=') {
                    Ok(((s.subrange(r, r + 2), TokenType::Eq), r + 2))
                } else {
                    Ok(((seq!['='], TokenType::Assignment), r + 1))
                }
            } else if c == ':' {
                if spec_next_char_is(s, r, '=') {
                    Ok(((s.subrange(r, r + 2), TokenType::Walrus), r + 2))
                } else {
                    Ok(((seq![':'], TokenType::Colon), r + 1))
                }
            } else if c == '|' {
                if spec_next_char_is(s, r, '>') {
                    Ok(((s.subrange(r, r + 2), TokenType::Pipe), r + 2))
                } else {
                    Ok(((seq!['|'], TokenType::Bar), r + 1))
                }
            } else if c == '!' {
                if spec_next_char_is(s, r, '=') {
                    Ok(((s.subrange(r, r + 2), TokenType::NotEq), r + 2))
                } else {
                    Ok(((seq!['!'], TokenType::Bang), r + 1))
                }
            } else if 48 <= c as u32 && c as u32 <= 57 {
                let j = digit_run_end(s, r);
                Ok(((s.subrange(r, j), TokenType::Int), j))
            } else if is_word_char(c) {
                let j = word_run_end(s, r);
                let text = s.subrange(r, j);
                let tt = match spec_keyword_type(text) {
                    Some(t) => t,
                    None => TokenType::Identifier,
                };
                Ok(((text, tt), j))
            } else {
                Err(TokenizerError::InvalidChar)
            };
            match step {
                Err(e) => Err(e),
                Ok((tok, r2)) => if r < r2 <= s.len() {
                    match spec_tokenize_from(s, r2) {
                        Err(e) => Err(e),
                        Ok(rest) => Ok(seq![tok] + rest),
                    }
                } else {
                    Err(TokenizerError::InvalidChar)
                },
            }
        }
    }
}

/// Bounds of a word run.
proof fn lemma_word_run_bounds(s: Seq<char>, i: int)
    requires
        0 <= i <= s.len(),
    ensures
        i <= word_run_end(s, i) <= s.len(),
    decreases s.len() - i,
{
    if i < s.len() && is_word_char(s[i]) {
        lemma_word_run_bounds(s, i + 1);
    }
}

/// Bounds of a digit run.
proof fn lemma_digit_run_bounds(s: Seq<char>, i: int)
    requires
        0 <= i <= s.len(),
    ensures
        i <= digit_run_end(s, i) <= s.len(),
    decreases s.len() - i,
{
    if i < s.len() && 48 <= s[i] as u32 && s[i] as u32 <= 57 {
        lemma_digit_run_bounds(s, i + 1);
    }
}

/// The single-pass tokenizer: a character buffer with a lexeme-start and a
/// cursor index.
pub struct Tokenizer {
    src: Vec<char>,
    l: usize,
    r: usize,
}

impl Tokenizer {
    /// The source characters.
    pub closed spec fn src_chars(&self) -> Seq<char> {
        self.src@
    }

    /// The cursor: the index of the next unread character.
    pub closed spec fn cursor(&self) -> int {
        self.r as int
    }

    /// The start of the lexeme being scanned.
    pub closed spec fn lexeme_start(&self) -> int {
        self.l as int
    }

    /// A tokenizer at the start of the given source.
    pub fn new(src: String) -> (t: Tokenizer)
        ensures
            t.src_chars() == src@,
            t.cursor() == 0,
            t.lexeme_start() == 0,
    {
        Tokenizer { src: chars_of_str(src.as_str()), l: 0, r: 0 }
    }

    /// Whether the character after the cursor is `ch`.
    pub fn next_char_is(&self, ch: char) -> (r: bool)
        ensures
            r == spec_next_char_is(self.src_chars(), self.cursor(), ch),
    {
        let n = self.src.len();
        if self.r >= n {
            false
        } else {
            self.r + 1 < n && self.src[self.r + 1] == ch
        }
    }

    /// The keyword type a word stands for, if any.
    pub fn get_keyword(literal: &String) -> (r: Option<TokenType>)
        ensures
            r == spec_keyword_type(literal@),
    {
        let chars = chars_of_str(literal.as_str());
        let n = chars.len();
        proof {
            assert(chars@.subrange(0, n as int) =~= literal@);
        }
        if range_matches_str(&chars, 0, n, "for") {
            Some(TokenType::For)
        } else if range_matches_str(&chars, 0, n, "def") {
            Some(TokenType::Def)
        } else if range_matches_str(&chars, 0, n, "or") {
            Some(TokenType::Or)
        } else if range_matches_str(&chars, 0, n, "and") {
            Some(TokenType::And)
        } else if range_matches_str(&chars, 0, n, "if") {
            Some(TokenType::If)
        } else if range_matches_str(&chars, 0, n, "in") {
            Some(TokenType::In)
        } else if range_matches_str(&chars, 0, n, "range") {
            Some(TokenType::Range)
        } else if range_matches_str(&chars, 0, n, "return") {
            Some(TokenType::Return)
        } else {
            None
        }
    }

    /// Scan the word at the cursor into an identifier or keyword token.
    pub fn get_alpha_literal(&mut self) -> (t: Token)
        requires
            old(self).lexeme_start() <= old(self).cursor()
                <= old(self).src_chars().len(),
        ensures
            final(self).src_chars() == old(self).src_chars(),
            final(self).cursor() == word_run_end(old(self).src_chars(), old(self).cursor()),
            final(self).lexeme_start() == final(self).cursor(),
            old(self).cursor() <= final(self).cursor() <= old(self).src_chars().len(),
            old(self).cursor() < old(self).src_chars().len() && is_word_char(
                old(self).src_chars()[old(self).cursor()],
            ) ==> final(self).cursor() > old(self).cursor(),
            ({
                let text = old(self).src_chars().subrange(
                    old(self).lexeme_start(),
                    final(self).cursor(),
                );
                legacy_token_model(t) == (
                    text,
                    match spec_keyword_type(text) {
                        Some(tt) => tt,
                        None => TokenType::Identifier,
                    },
                )
            }),
    {
        let n = self.src.len();
        loop
            invariant
                old(self).cursor() <= self.r <= n,
                n == self.src@.len(),
                self.src@ == old(self).src_chars(),
                self.l == old(self).l,
                word_run_end(self.src@, old(self).cursor()) == word_run_end(
                    self.src@,
                    self.r as int,
                ),
            ensures
                self.r <= n,
                self.src@ == old(self).src_chars(),
                self.l == old(self).l,
                self.r as int == word_run_end(self.src@, old(self).cursor()),
            decreases n - self.r,
        {
            if self.r >= n {
                proof {
                    assert(word_run_end(self.src@, self.r as int) == self.r as int);
                }
                break;
            }
            let c = self.src[self.r];
            let u = c as u32;
            if !((97 <= u && u <= 122) || (65 <= u && u <= 90) || c == '_') {
                proof {
                    assert(!is_word_char(self.src@[self.r as int]));
                    assert(word_run_end(self.src@, self.r as int) == self.r as int);
                }
                break;
            }
            self.r = self.r + 1;
        }
        proof {
            let s = self.src@;
            let r0 = old(self).cursor();
            if r0 < s.len() && is_word_char(s[r0]) {
                lemma_word_run_bounds(s, r0 + 1);
                assert(word_run_end(s, r0) == word_run_end(s, r0 + 1));
            }
        }
        let literal = chars_to_string(&self.src, self.l, self.r);
        self.l = self.r;
        let tt = match Tokenizer::get_keyword(&literal) {
            Some(t) => t,
            None => TokenType::Identifier,
        };
        Token::new(literal, tt)
    }

    /// Scan the digit run at the cursor into an `Int` token.
    pub fn get_numerical_literal(&mut self) -> (t: Token)
        requires
            old(self).lexeme_start() <= old(self).cursor()
                <= old(self).src_chars().len(),
        ensures
            final(self).src_chars() == old(self).src_chars(),
            final(self).cursor() == digit_run_end(old(self).src_chars(), old(self).cursor()),
            final(self).lexeme_start() == final(self).cursor(),
            old(self).cursor() <= final(self).cursor() <= old(self).src_chars().len(),
            old(self).cursor() < old(self).src_chars().len() && 48 <= old(self).src_chars()[
                old(self).cursor()
            ] as u32 <= 57 ==> final(self).cursor() > old(self).cursor(),
            legacy_token_model(t) == (
                old(self).src_chars().subrange(old(self).lexeme_start(), final(self).cursor()),
                TokenType::Int,
            ),
    {
        let n = self.src.len();
        loop
            invariant
                old(self).cursor() <= self.r <= n,
                n == self.src@.len(),
                self.src@ == old(self).src_chars(),
                self.l == old(self).l,
                digit_run_end(self.src@, old(self).cursor()) == digit_run_end(
                    self.src@,
                    self.r as int,
                ),
            ensures
                self.r <= n,
                self.src@ == old(self).src_chars(),
                self.l == old(self).l,
                self.r as int == digit_run_end(self.src@, old(self).cursor()),
            decreases n - self.r,
        {
            if self.r >= n {
                proof {
                    assert(digit_run_end(self.src@, self.r as int) == self.r as int);
                }
                break;
            }
            let u = self.src[self.r] as u32;
            if !(48 <= u && u <= 57) {
                proof {
                    assert(digit_run_end(self.src@, self.r as int) == self.r as int);
                }
                break;
            }
            self.r = self.r + 1;
        }
        proof {
            let s = self.src@;
            let r0 = old(self).cursor();
            if r0 < s.len() && 48 <= s[r0] as u32 <= 57 {
                lemma_digit_run_bounds(s, r0 + 1);
                assert(digit_run_end(s, r0) == digit_run_end(s, r0 + 1));
            }
        }
        let literal = chars_to_string(&self.src, self.l, self.r);
        self.l = self.r;
        Token::new(literal, TokenType::Int)
    }

    /// Consume the two-character operator at the cursor.
    pub fn get_long_op(&mut self, tt: TokenType) -> (t: Token)
        requires
            old(self).cursor() + 1 < old(self).src_chars().len(),
        ensures
            final(self).src_chars() == old(self).src_chars(),
            final(self).cursor() == old(self).cursor() + 2,
            final(self).lexeme_start() == final(self).cursor(),
            legacy_token_model(t) == (
                old(self).src_chars().subrange(old(self).cursor(), old(self).cursor() + 2),
                tt,
            ),
    {
        let n = self.src.len();
        let literal = chars_to_string(&self.src, self.r, self.r + 2);
        self.r = self.r + 1;
        self.r = self.r + 1;
        self.l = self.r;
        Token::new(literal, tt)
    }

    /// Consume the single character `ch` at the cursor.
    pub fn get_char_op(&mut self, ch: char, tt: TokenType) -> (t: Token)
        requires
            old(self).cursor() < old(self).src_chars().len(),
        ensures
            final(self).src_chars() == old(self).src_chars(),
            final(self).cursor() == old(self).cursor() + 1,
            final(self).lexeme_start() == final(self).cursor(),
            legacy_token_model(t) == (seq![ch], tt),
    {
        let n = self.src.len();
        self.r = self.r + 1;
        self.l = self.r;
        let mut literal = String::new();
        push_char(&mut literal, ch);
        proof {
            assert(literal@ =~= seq![ch]);
        }
        Token::new(literal, tt)
    }

    /// Scan the whole source into raw tokens, or fail on the first
    /// character that starts none. Returns exactly what
    /// [`spec_tokenize_from`] says, starting at the cursor.
    pub fn tokenize(&mut self) -> (r: Result<Vec<Token>, TokenizerError>)
        requires
            old(self).lexeme_start() == old(self).cursor(),
            old(self).cursor() <= old(self).src_chars().len(),
        ensures
            final(self).src_chars() == old(self).src_chars(),
            ({
                let mr = spec_tokenize_from(old(self).src_chars(), old(self).cursor());
                match (r, mr) {
                    (Ok(v), Ok(ms)) => legacy_tokens_view(v@) == ms,
                    (Err(e1), Err(e2)) => e1 == e2,
                    _ => false,
                }
            }),
    {
        let ghost s = self.src@;
        let ghost r0 = self.r as int;
        let mut tokens: Vec<Token> = Vec::new();
        loop
            invariant_except_break
                self.l == self.r,
                self.r <= self.src@.len(),
                self.src@ == s,
                ({
                    let full = spec_tokenize_from(s, r0);
                    match spec_tokenize_from(s, self.r as int) {
                        Ok(rest) => full == Ok::<_, TokenizerError>(
                            legacy_tokens_view(tokens@) + rest,
                        ),
                        Err(e) => full == Err::<Seq<(Seq<char>, TokenType)>, _>(e),
                    }
                }),
            invariant
                self.src@ == s,
                s == old(self).src_chars(),
                r0 == old(self).cursor(),
            ensures
                ({
                    let full = spec_tokenize_from(s, r0);
                    match full {
                        Ok(ms) => legacy_tokens_view(tokens@) == ms,
                        Err(_) => false,
                    }
                }),
            decreases self.src@.len() - self.r,
        {
            if self.r >= self.src.len() {
                proof {
                    assert(legacy_tokens_view(tokens@) + Seq::<(Seq<char>, TokenType)>::empty()
                        =~= legacy_tokens_view(tokens@));
                }
                break;
            }
            let ch = self.src[self.r];
            if ch == ' ' {
                self.r = self.r + 1;
                self.l = self.r;
                continue;
            }
            let ghost rpre = self.r as int;
            let u = ch as u32;
            let tok: Token = if ch == '\n' {
                self.get_char_op(ch, TokenType::Newline)
            } else if ch == '\t' {
                self.get_char_op(ch, TokenType::Indent)
            } else if ch == '(' {
                self.get_char_op(ch, TokenType::LParen)
            } else if ch == ')' {
                self.get_char_op(ch, TokenType::RParen)
            } else if ch == '[' {
                self.get_char_op(ch, TokenType::LSquare)
            } else if ch == ']' {
                self.get_char_op(ch, TokenType::RSquare)
            } else if ch == '{' {
                self.get_char_op(ch, TokenType::RSquare)
            } else if ch == '}' {
                self.get_char_op(ch, TokenType::RSquare)
            } else if ch == '+' {
                if self.next_char_is('=') {
                    self.get_long_op(TokenType::AddEq)
                } else {
                    self.get_char_op(ch, TokenType::Add)
                }
            } else if ch == '-' {
                if self.next_char_is('=') {
                    self.get_long_op(TokenType::SubEq)
                } else if self.next_char_is('>') {
                    self.get_long_op(TokenType::Arrow)
                } else {
                    self.get_char_op(ch, TokenType::Sub)
                }
            } else if ch == '*' {
                if self.next_char_is('=') {
                    self.get_long_op(TokenType::MulEq)
                } else {
                    self.get_char_op(ch, TokenType::Mul)
                }
            } else if ch == '/' {
                if self.next_char_is('=') {
                    self.get_long_op(TokenType::DivEq)
                } else {
                    self.get_char_op(ch, TokenType::Div)
                }
            } else if ch == '=' {
                if self.next_char_is('=') {
                    self.get_long_op(TokenType::Eq)
                } else {
                    self.get_char_op(ch, TokenType::Assignment)
                }
            } else if ch == ':' {
                if self.next_char_is('=') {
                    self.get_long_op(TokenType::Walrus)
                } else {
                    self.get_char_op(ch, TokenType::Colon)
                }
            } else if ch == '|' {
                if self.next_char_is('>') {
                    self.get_long_op(TokenType::Pipe)
                } else {
                    self.get_char_op(ch, TokenType::Bar)
                }
            } else if ch == '!' {
                if self.next_char_is('=') {
                    self.get_long_op(TokenType::NotEq)
                } else {
                    self.get_char_op(ch, TokenType::Bang)
                }
            } else if 48 <= u && u <= 57 {
                self.get_numerical_literal()
            } else if (97 <= u && u <= 122) || (65 <= u && u <= 90) || ch == '_' {
                self.get_alpha_literal()
            } else {
                return Err(TokenizerError::InvalidChar);
            };
            let ghost seen = legacy_tokens_view(tokens@);
            let ghost tm = legacy_token_model(tok);
            tokens.push(tok);
            proof {
                if is_word_char(s[rpre]) {
                    lemma_word_run_bounds(s, rpre + 1);
                }
                if 48 <= s[rpre] as u32 <= 57 {
                    lemma_digit_run_bounds(s, rpre + 1);
                }
                assert(legacy_tokens_view(tokens@) =~= seen.push(tm));
                let full = spec_tokenize_from(s, r0);
                match spec_tokenize_from(s, self.r as int) {
                    Ok(rest) => {
                        assert(seen.push(tm) + rest =~= seen + (seq![tm] + rest));
                    },
                    Err(_) => {},
                }
            }
        }
        Ok(tokens)
    }
}

} // verus!
