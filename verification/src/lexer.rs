//! The indentation-sensitive lexer: a pull scanner that turns source text
//! into `(byte offset, Token)` pairs, synthesizing `Indent`/`Dedent` tokens
//! from 4-space units at the start of each line.
//!
//! The behaviour is specified by the functional model [`lex_next`] over a
//! [`LexState`]; `Lexer::next` is proved to return exactly what the model
//! says and to leave the scanner in exactly the model's next state.

use vstd::prelude::*;

use crate::text::{
    byte_len, char_is_alphabetic, char_is_alphanumeric, char_is_numeric, char_utf8_len,
    chars_of_str, chars_to_string, is_alphabetic_char, is_alphanumeric_char, is_numeric_char,
    lemma_byte_len_take_bounds, lemma_byte_len_take_step, range_matches_str, utf8_len_of_char,
};
use crate::token::{Token, TokenModel};

verus! {

/// A lexing failure. Every variant carries the byte offset at which the
/// offending lexeme starts.
#[derive(Debug, PartialEq, Eq, Clone, Copy)]
pub enum LexErr {
    /// A character that starts no token.
    UnknownToken(usize, Option<usize>),
    /// A string literal with no closing quote before end of input.
    UnterminatedString(usize),
    /// A line whose leading run of spaces is not a multiple of four.
    MisalignedIndent(usize),
    /// A line that jumps in by two or more indent levels at once.
    OverDeepIndent(usize),
    /// A numeric run that does not parse as a 32-bit signed integer.
    InvalidIntLiteral(usize),
}

/// An error paired with the source it arose in.
pub struct WithSrcErr<'src, 'err, E> {
    pub src: &'src str,
    pub err: &'err E,
}

/// The mathematical state of the scanner: the source characters, the index
/// of the next unread character, whether the scanner is at the start of a
/// line, and the current indent level in 4-space units. The byte offset of
/// position `p` is `byte_len(chars.take(p))`.
pub struct LexState {
    pub chars: Seq<char>,
    pub pos: int,
    pub just_after_newline: bool,
    pub indent_level: int,
}

/// The scanner state at the start of the given source. The start of input
/// counts as the start of a line.
pub open spec fn init_state(chars: Seq<char>) -> LexState {
    LexState { chars, pos: 0, just_after_newline: true, indent_level: 0 }
}

/// End of the run of spaces starting at `i`.
pub open spec fn space_run_end(s: Seq<char>, i: int) -> int
    decreases s.len() - i,
{
    if i < 0 || i >= s.len() {
        i
    } else if s[i] == ' ' {
        space_run_end(s, i + 1)
    } else {
        i
    }
}

/// End of the run of identifier characters (alphanumerics and `_`)
/// starting at `i`.
pub open spec fn ident_run_end(s: Seq<char>, i: int) -> int
    decreases s.len() - i,
{
    if i < 0 || i >= s.len() {
        i
    } else if s[i] == '_' || is_alphanumeric_char(s[i]) {
        ident_run_end(s, i + 1)
    } else {
        i
    }
}

/// End of the run of numeric-literal characters (numerics and `_`)
/// starting at `i`.
pub open spec fn num_run_end(s: Seq<char>, i: int) -> int
    decreases s.len() - i,
{
    if i < 0 || i >= s.len() {
        i
    } else if is_numeric_char(s[i]) || s[i] == '_' {
        num_run_end(s, i + 1)
    } else {
        i
    }
}

/// Index of the first `"` at or after `i`, if any.
pub open spec fn quote_index(s: Seq<char>, i: int) -> Option<int>
    decreases s.len() - i,
{
    if i < 0 || i >= s.len() {
        None
    } else if s[i] == '"' {
        Some(i)
    } else {
        quote_index(s, i + 1)
    }
}

/// Whether `c` is an ASCII decimal digit.
pub open spec fn is_ascii_digit(c: char) -> bool {
    48 <= c as u32 && c as u32 <= 57
}

/// The value of one ASCII digit.
pub open spec fn digit_val(c: char) -> int {
    c as u32 - 48
}

/// Whether every character of `s` is an ASCII decimal digit.
pub open spec fn all_digits(s: Seq<char>) -> bool {
    forall|i: int| 0 <= i < s.len() ==> is_ascii_digit(s[i])
}

/// The value of a run of ASCII decimal digits.
pub open spec fn digits_val(s: Seq<char>) -> int
    decreases s.len(),
{
    if s.len() == 0 {
        0
    } else {
        digits_val(s.drop_last()) * 10 + digit_val(s.last())
    }
}

/// The keyword token an identifier run stands for, if any.
pub open spec fn spec_keyword(s: Seq<char>) -> Option<TokenModel> {
    if s == "and"@ {
        Some(TokenModel::And)
    } else if s == "or"@ {
        Some(TokenModel::Or)
    } else if s == "not"@ {
        Some(TokenModel::Not)
    } else if s == "mut"@ {
        Some(TokenModel::Mut)
    } else if s == "return"@ {
        Some(TokenModel::Return)
    } else if s == "if"@ {
        Some(TokenModel::If)
    } else if s == "else"@ {
        Some(TokenModel::Else)
    } else if s == "def"@ {
        Some(TokenModel::Def)
    } else if s == "struct"@ {
        Some(TokenModel::Struct)
    } else {
        None
    }
}

/// One pull of the scanner: the next state, and `None` at end of input, or
/// the next token with its byte offset, or the first lex error.
///
/// On entering a line (`just_after_newline`), open levels above the
/// line's indent are closed one `Dedent` per pull, without consuming
/// input, the line being re-evaluated until the level matches; a leading
/// run of spaces must be a multiple of four and may open at most one new
/// level. Elsewhere spaces are skipped, `\n` is `Newline`, punctuation and
/// one- or two-character operators are read directly, `"..."` is a string
/// literal, a digit starts an integer literal, and an alphabetic character
/// starts an identifier or keyword.
pub open spec fn lex_next(st: LexState) -> (LexState, Option<Result<(int, TokenModel), LexErr>>)
    decreases st.chars.len() - st.pos,
{
    let s = st.chars;
    if st.pos < 0 || st.pos >= s.len() {
        (st, None)
    } else {
        let c = s[st.pos];
        let b0 = byte_len(s.take(st.pos));
        if st.indent_level > 0 && st.just_after_newline && c != ' ' && c != '\n' {
            (
                LexState { indent_level: st.indent_level - 1, ..st },
                Some(Ok((b0, TokenModel::Dedent))),
            )
        } else if c == ' ' && !st.just_after_newline {
            lex_next(LexState { pos: st.pos + 1, ..st })
        } else if c == '\n' {
            (
                LexState { pos: st.pos + 1, just_after_newline: true, ..st },
                Some(Ok((b0, TokenModel::Newline))),
            )
        } else {
            let st1 = LexState { pos: st.pos + 1, just_after_newline: false, ..st };
            if c == '(' {
                (st1, Some(Ok((b0, TokenModel::LParen))))
            } else if c == ')' {
                (st1, Some(Ok((b0, TokenModel::RParen))))
            } else if c == ':' {
                (st1, Some(Ok((b0, TokenModel::Colon))))
            } else if c == ';' {
                (st1, Some(Ok((b0, TokenModel::Semicolon))))
            } else if c == ',' {
                (st1, Some(Ok((b0, TokenModel::Comma))))
            } else if c == '.' {
                (st1, Some(Ok((b0, TokenModel::Dot))))
            } else if c == '-' {
                if st.pos + 1 < s.len() && s[st.pos + 1] == '=' {
                    (LexState { pos: st.pos + 2, ..st1 }, Some(Ok((b0, TokenModel::SubEq))))
                } else if st.pos + 1 < s.len() && s[st.pos + 1] == '>' {
                    (LexState { pos: st.pos + 2, ..st1 }, Some(Ok((b0, TokenModel::Arrow))))
                } else {
                    (st1, Some(Ok((b0, TokenModel::Sub))))
                }
            } else if c == '+' || c == '*' || c == '/' || c == '!' || c == '=' {
                let plain = if c == '+' {
                    TokenModel::Add
                } else if c == '*' {
                    TokenModel::Mul
                } else if c == '/' {
                    TokenModel::Div
                } else if c == '!' {
                    TokenModel::Bang
                } else {
                    TokenModel::Eq
                };
                let long = if c == '+' {
                    TokenModel::AddEq
                } else if c == '*' {
                    TokenModel::MulEq
                } else if c == '/' {
                    TokenModel::DivEq
                } else if c == '!' {
                    TokenModel::BangEq
                } else {
                    TokenModel::DoubleEq
                };
                if st.pos + 1 < s.len() && s[st.pos + 1] == '=' {
                    (LexState { pos: st.pos + 2, ..st1 }, Some(Ok((b0, long))))
                } else {
                    (st1, Some(Ok((b0, plain))))
                }
            } else if c == ' ' {
                // Reached only just after a newline: the leading indent run.
                let j = space_run_end(s, st.pos);
                let run_len = j - st.pos;
                if run_len % 4 != 0 {
                    (st1, Some(Err(LexErr::MisalignedIndent(b0 as usize))))
                } else {
                    let indent = run_len / 4;
                    if indent == st.indent_level {
                        lex_next(st1)
                    } else if indent < st.indent_level {
                        // One level is closed per pull, without consuming:
                        // the same line is re-evaluated until the level
                        // matches its indent.
                        (
                            LexState { indent_level: st.indent_level - 1, ..st },
                            Some(Ok((b0, TokenModel::Dedent))),
                        )
                    } else if indent == st.indent_level + 1 {
                        (
                            LexState {
                                pos: st.pos + 4,
                                just_after_newline: false,
                                indent_level: st.indent_level + 1,
                                ..st
                            },
                            Some(Ok((b0, TokenModel::Indent))),
                        )
                    } else {
                        (st1, Some(Err(LexErr::OverDeepIndent(b0 as usize))))
                    }
                }
            } else if c == '"' {
                match quote_index(s, st.pos + 1) {
                    Some(j) => (
                        LexState { pos: j + 1, ..st1 },
                        Some(Ok((b0, TokenModel::StrLiteral(s.subrange(st.pos + 1, j))))),
                    ),
                    None => (st1, Some(Err(LexErr::UnterminatedString(b0 as usize)))),
                }
            } else if is_ascii_digit(c) {
                let j = num_run_end(s, st.pos + 1);
                let run = s.subrange(st.pos, j);
                let st2 = LexState { pos: j, ..st1 };
                if all_digits(run) && digits_val(run) <= i32::MAX {
                    (st2, Some(Ok((b0, TokenModel::IntLiteral(digits_val(run) as i32)))))
                } else {
                    (st2, Some(Err(LexErr::InvalidIntLiteral(b0 as usize))))
                }
            } else if is_alphabetic_char(c) {
                let j = ident_run_end(s, st.pos + 1);
                let text = s.subrange(st.pos, j);
                let tok = match spec_keyword(text) {
                    Some(k) => k,
                    None => TokenModel::Ident(text),
                };
                (LexState { pos: j, ..st1 }, Some(Ok((b0, tok))))
            } else {
                (st1, Some(Err(LexErr::UnknownToken(b0 as usize, None))))
            }
        }
    }
}

/// Whether an executable pull result stands for a model pull result.
pub open spec fn result_models(
    r: Option<Result<(usize, Token), LexErr>>,
    m: Option<Result<(int, TokenModel), LexErr>>,
) -> bool {
    match (r, m) {
        (None, None) => true,
        (Some(Err(e1)), Some(Err(e2))) => e1 == e2,
        (Some(Ok((o1, t1))), Some(Ok((o2, t2)))) => o1 as int == o2 && t1@ == t2,
        _ => false,
    }
}

/// The pull scanner. `next` yields the tokens of the source given to `new`,
/// one per call, exactly as the model [`lex_next`] describes.
pub struct Lexer {
    chars: Vec<char>,
    pos: usize,
    byte: usize,
    just_after_newline: bool,
    indent_level: usize,
}

impl View for Lexer {
    type V = LexState;

    closed spec fn view(&self) -> LexState {
        LexState {
            chars: self.chars@,
            pos: self.pos as int,
            just_after_newline: self.just_after_newline,
            indent_level: self.indent_level as int,
        }
    }
}

impl Lexer {
    /// The scanner's bookkeeping is sound: the read position is within the
    /// source and the byte offset is the byte length of what was read.
    pub closed spec fn wf(&self) -> bool {
        &&& self.pos <= self.chars@.len()
        &&& self.byte == byte_len(self.chars@.take(self.pos as int))
        &&& byte_len(self.chars@) <= usize::MAX
    }

    /// A scanner at the start of the given source.
    pub fn new(src: &str) -> (r: Lexer)
        ensures
            r@ == init_state(src@),
            r.wf(),
    {
        let chars = chars_of_str(src);
        let r = Lexer { chars, pos: 0, byte: 0, just_after_newline: true, indent_level: 0 };
        proof {
            assert(r.chars@.take(0) =~= Seq::<char>::empty());
        }
        r
    }

    /// Consume one character, keeping the byte offset in step.
    fn bump(&mut self)
        requires
            old(self).wf(),
            old(self)@.pos < old(self)@.chars.len(),
        ensures
            final(self).wf(),
            final(self)@ == (LexState { pos: old(self)@.pos + 1, ..old(self)@ }),
            final(self).byte_at() == old(self).byte_at() + char_utf8_len(
                old(self)@.chars[old(self)@.pos],
            ),
    {
        proof {
            lemma_byte_len_take_step(self.chars@, self.pos as int);
            lemma_byte_len_take_bounds(self.chars@, self.pos + 1);
        }
        let n = self.chars.len();
        let c = self.chars[self.pos];
        self.byte = self.byte + utf8_len_of_char(c);
        self.pos = self.pos + 1;
    }

    /// The byte offset of the next unread character.
    pub closed spec fn byte_at(&self) -> int {
        self.byte as int
    }

    /// Consume characters up to position `to`.
    fn advance_to(&mut self, to: usize)
        requires
            old(self).wf(),
            old(self)@.pos <= to <= old(self)@.chars.len(),
        ensures
            final(self).wf(),
            final(self)@ == (LexState { pos: to as int, ..old(self)@ }),
        decreases to - old(self)@.pos,
    {
        if self.pos < to {
            self.bump();
            self.advance_to(to);
        }
    }

    /// Whether the next unread character is `ch`.
    fn peek_is(&self, ch: char) -> (r: bool)
        ensures
            r == (self@.pos < self@.chars.len() && self@.chars[self@.pos] == ch),
    {
        self.pos < self.chars.len() && self.chars[self.pos] == ch
    }

    /// Pull the next token: `None` at end of input, otherwise the token
    /// with the byte offset of its first character, or the first lex
    /// error. Returns exactly what the model [`lex_next`] says.
    pub fn next(&mut self) -> (r: Option<Result<(usize, Token), LexErr>>)
        requires
            old(self).wf(),
        ensures
            final(self).wf(),
            ({
                let (st2, m) = lex_next(old(self)@);
                final(self)@ == st2 && result_models(r, m)
            }),
        decreases self@.chars.len() - self@.pos,
    {
        let n = self.chars.len();
        if self.pos >= n {
            return None;
        }
        proof {
            lemma_byte_len_take_bounds(self.chars@, self.chars@.len() as int);
        }
        let c = self.chars[self.pos];
        if self.indent_level > 0 && self.just_after_newline && c != ' ' && c != '\n' {
            self.indent_level = self.indent_level - 1;
            return Some(Ok((self.byte, Token::Dedent)));
        }
        if c == ' ' && !self.just_after_newline {
            self.bump();
            return self.next();
        }
        if c == ' ' {
            // Just after a newline: the leading indent run.
            let c_at = self.byte;
            let start = self.pos;
            let j = space_run_exec(&self.chars, start);
            proof {
                lemma_space_run_bounds(self.chars@, start + 1);
            }
            let run_len = j - start;
            if run_len % 4 != 0 {
                self.bump();
                self.just_after_newline = false;
                return Some(Err(LexErr::MisalignedIndent(c_at)));
            }
            let indent = run_len / 4;
            proof {
                assert(run_len >= 1 && run_len % 4 == 0 ==> run_len >= 4);
            }
            if indent == self.indent_level {
                self.bump();
                self.just_after_newline = false;
                return self.next();
            }
            if indent < self.indent_level {
                // One level per pull, consuming nothing: the line is
                // re-evaluated until the level matches its indent.
                self.indent_level = self.indent_level - 1;
                return Some(Ok((c_at, Token::Dedent)));
            }
            if indent - self.indent_level == 1 {
                self.bump();
                self.just_after_newline = false;
                self.advance_to(start + 4);
                self.indent_level = indent;
                return Some(Ok((c_at, Token::Indent)));
            }
            self.bump();
            self.just_after_newline = false;
            return Some(Err(LexErr::OverDeepIndent(c_at)));
        }
        let c_at = self.byte;
        let ghost p0 = self@.pos;
        self.bump();
        if c == '\n' {
            self.just_after_newline = true;
            return Some(Ok((c_at, Token::Newline)));
        }
        self.just_after_newline = false;
        match c {
            '(' => Some(Ok((c_at, Token::LParen))),
            ')' => Some(Ok((c_at, Token::RParen))),
            ':' => Some(Ok((c_at, Token::Colon))),
            ';' => Some(Ok((c_at, Token::Semicolon))),
            ',' => Some(Ok((c_at, Token::Comma))),
            '.' => Some(Ok((c_at, Token::Dot))),
            '-' => {
                if self.peek_is('=') {
                    self.bump();
                    Some(Ok((c_at, Token::SubEq)))
                } else if self.peek_is('>') {
                    self.bump();
                    Some(Ok((c_at, Token::Arrow)))
                } else {
                    Some(Ok((c_at, Token::Sub)))
                }
            },
            '+' => {
                if self.peek_is('=') {
                    self.bump();
                    Some(Ok((c_at, Token::AddEq)))
                } else {
                    Some(Ok((c_at, Token::Add)))
                }
            },
            '*' => {
                if self.peek_is('=') {
                    self.bump();
                    Some(Ok((c_at, Token::MulEq)))
                } else {
                    Some(Ok((c_at, Token::Mul)))
                }
            },
            '/' => {
                if self.peek_is('=') {
                    self.bump();
                    Some(Ok((c_at, Token::DivEq)))
                } else {
                    Some(Ok((c_at, Token::Div)))
                }
            },
            '!' => {
                if self.peek_is('=') {
                    self.bump();
                    Some(Ok((c_at, Token::BangEq)))
                } else {
                    Some(Ok((c_at, Token::Bang)))
                }
            },
            '=' => {
                if self.peek_is('=') {
                    self.bump();
                    Some(Ok((c_at, Token::DoubleEq)))
                } else {
                    Some(Ok((c_at, Token::Eq)))
                }
            },
            '"' => {
                let start = self.pos - 1;
                match find_quote(&self.chars, self.pos) {
                    Some(j) => {
                        let text = chars_to_string(&self.chars, self.pos, j);
                        self.advance_to(j + 1);
                        Some(Ok((c_at, Token::StrLiteral(text))))
                    },
                    None => Some(Err(LexErr::UnterminatedString(c_at))),
                }
            },
            _ => {
                if (c as u32) >= 48 && (c as u32) <= 57 {
                    let start = self.pos - 1;
                    let j = num_run_exec(&self.chars, self.pos);
                    let v = parse_digits(&self.chars, start, j);
                    self.advance_to(j);
                    match v {
                        Some(value) => Some(Ok((c_at, Token::IntLiteral(value)))),
                        None => Some(Err(LexErr::InvalidIntLiteral(c_at))),
                    }
                } else if char_is_alphabetic(c) {
                    let start = self.pos - 1;
                    let j = ident_run_exec(&self.chars, self.pos);
                    let tok = keyword_or_ident(&self.chars, start, j);
                    self.advance_to(j);
                    Some(Ok((c_at, tok)))
                } else {
                    Some(Err(LexErr::UnknownToken(c_at, None)))
                }
            },
        }
    }
}

/// Bounds of a run: the run end stays between its start and the end of the
/// sequence.
proof fn lemma_space_run_bounds(s: Seq<char>, i: int)
    requires
        0 <= i <= s.len(),
    ensures
        i <= space_run_end(s, i) <= s.len(),
    decreases s.len() - i,
{
    if i < s.len() && s[i] == ' ' {
        lemma_space_run_bounds(s, i + 1);
    }
}

/// End of the run of spaces starting at `i`, computed.
fn space_run_exec(chars: &Vec<char>, i: usize) -> (r: usize)
    requires
        i <= chars@.len(),
    ensures
        r == space_run_end(chars@, i as int),
        i <= r <= chars@.len(),
{
    proof {
        lemma_space_run_bounds(chars@, i as int);
    }
    let n = chars.len();
    let mut j = i;
    while j < n && chars[j] == ' '
        invariant
            i <= j <= n,
            n == chars@.len(),
            space_run_end(chars@, i as int) == space_run_end(chars@, j as int),
        decreases n - j,
    {
        j = j + 1;
    }
    j
}

/// End of the run of identifier characters starting at `i`, computed.
fn ident_run_exec(chars: &Vec<char>, i: usize) -> (r: usize)
    requires
        i <= chars@.len(),
    ensures
        r == ident_run_end(chars@, i as int),
        i <= r <= chars@.len(),
{
    let n = chars.len();
    let mut j = i;
    loop
        invariant
            i <= j <= n,
            n == chars@.len(),
            ident_run_end(chars@, i as int) == ident_run_end(chars@, j as int),
        decreases n - j,
    {
        if j >= n {
            return j;
        }
        let c = chars[j];
        if !(c == '_' || char_is_alphanumeric(c)) {
            return j;
        }
        j = j + 1;
    }
}

/// End of the run of numeric-literal characters starting at `i`, computed.
fn num_run_exec(chars: &Vec<char>, i: usize) -> (r: usize)
    requires
        i <= chars@.len(),
    ensures
        r == num_run_end(chars@, i as int),
        i <= r <= chars@.len(),
{
    let n = chars.len();
    let mut j = i;
    loop
        invariant
            i <= j <= n,
            n == chars@.len(),
            num_run_end(chars@, i as int) == num_run_end(chars@, j as int),
        decreases n - j,
    {
        if j >= n {
            return j;
        }
        let c = chars[j];
        if !(char_is_numeric(c) || c == '_') {
            return j;
        }
        j = j + 1;
    }
}

/// Index of the first `"` at or after `i`, computed.
fn find_quote(chars: &Vec<char>, i: usize) -> (r: Option<usize>)
    requires
        i <= chars@.len(),
    ensures
        match r {
            Some(j) => quote_index(chars@, i as int) == Some(j as int) && i <= j
                < chars@.len(),
            None => quote_index(chars@, i as int) is None,
        },
{
    let n = chars.len();
    let mut j = i;
    loop
        invariant
            i <= j <= n,
            n == chars@.len(),
            quote_index(chars@, i as int) == quote_index(chars@, j as int),
        decreases n - j,
    {
        if j >= n {
            return None;
        }
        if chars[j] == '"' {
            return Some(j);
        }
        j = j + 1;
    }
}

/// `digits_val` only grows as digits are appended.
proof fn lemma_digits_val_nonneg(s: Seq<char>)
    requires
        all_digits(s),
    ensures
        digits_val(s) >= 0,
    decreases s.len(),
{
    if s.len() > 0 {
        assert(all_digits(s.drop_last()));
        lemma_digits_val_nonneg(s.drop_last());
    }
}

/// Appending a digit multiplies the value by ten and adds the digit.
proof fn lemma_digits_val_step(s: Seq<char>, i: int)
    requires
        0 <= i < s.len(),
    ensures
        digits_val(s.take(i + 1)) == digits_val(s.take(i)) * 10 + digit_val(s[i]),
{
    assert(s.take(i + 1).drop_last() =~= s.take(i));
    assert(s.take(i + 1).last() == s[i]);
}

/// A prefix of a digit run never exceeds the whole run's value.
proof fn lemma_digits_val_prefix(s: Seq<char>, i: int)
    requires
        0 <= i <= s.len(),
        all_digits(s),
    ensures
        digits_val(s.take(i)) <= digits_val(s),
    decreases s.len() - i,
{
    if i == s.len() {
        assert(s.take(i) =~= s);
    } else {
        lemma_digits_val_step(s, i);
        assert(all_digits(s.take(i))) by {
            assert(forall|k: int| 0 <= k < i ==> s.take(i)[k] == s[k]);
        }
        lemma_digits_val_nonneg(s.take(i));
        lemma_digits_val_prefix(s, i + 1);
    }
}

/// Parse the digit run `chars[from..to]` as a 32-bit signed integer:
/// `Some` exactly when every character is an ASCII digit and the value
/// fits.
fn parse_digits(chars: &Vec<char>, from: usize, to: usize) -> (r: Option<i32>)
    requires
        from <= to <= chars@.len(),
    ensures
        ({
            let run = chars@.subrange(from as int, to as int);
            if all_digits(run) && digits_val(run) <= i32::MAX {
                r == Some(digits_val(run) as i32)
            } else {
                r is None
            }
        }),
{
    let ghost run = chars@.subrange(from as int, to as int);
    let mut acc: u64 = 0;
    let mut i = from;
    while i < to
        invariant
            from <= i <= to <= chars@.len(),
            run == chars@.subrange(from as int, to as int),
            all_digits(run.take(i - from)),
            acc == digits_val(run.take(i - from)),
            acc <= i32::MAX,
        decreases to - i,
    {
        let c = chars[i];
        let u = c as u32;
        if !(48 <= u && u <= 57) {
            proof {
                assert(run[i - from] == chars@[i as int]);
                assert(!all_digits(run));
            }
            return None;
        }
        let d = (u - 48) as u64;
        proof {
            lemma_digits_val_step(run, i - from);
            assert(run.take(i - from + 1) == run.take((i + 1 - from) as int));
        }
        let next = acc * 10 + d;
        if next > i32::MAX as u64 {
            proof {
                if all_digits(run) {
                    lemma_digits_val_prefix(run, i - from + 1);
                }
            }
            return None;
        }
        acc = next;
        i = i + 1;
    }
    proof {
        assert(run.take(to - from) =~= run);
    }
    Some(acc as i32)
}

/// The keyword or identifier token spelled by `chars[from..to]`.
fn keyword_or_ident(chars: &Vec<char>, from: usize, to: usize) -> (t: Token)
    requires
        from <= to <= chars@.len(),
    ensures
        ({
            let text = chars@.subrange(from as int, to as int);
            t@ == match spec_keyword(text) {
                Some(k) => k,
                None => TokenModel::Ident(text),
            }
        }),
{
    if range_matches_str(chars, from, to, "and") {
        Token::And
    } else if range_matches_str(chars, from, to, "or") {
        Token::Or
    } else if range_matches_str(chars, from, to, "not") {
        Token::Not
    } else if range_matches_str(chars, from, to, "mut") {
        Token::Mut
    } else if range_matches_str(chars, from, to, "return") {
        Token::Return
    } else if range_matches_str(chars, from, to, "if") {
        Token::If
    } else if range_matches_str(chars, from, to, "else") {
        Token::Else
    } else if range_matches_str(chars, from, to, "def") {
        Token::Def
    } else if range_matches_str(chars, from, to, "struct") {
        Token::Struct
    } else {
        Token::Ident(chars_to_string(chars, from, to))
    }
}


/// The scanner only moves forward: a pull never un-reads a character, keeps
/// within the source, and either consumes input or (for a synthesized
/// `Dedent`) lowers the indent level.
pub proof fn lemma_lex_next_progress(st: LexState)
    ensures
        ({
            let (st2, r) = lex_next(st);
            &&& st2.chars == st.chars
            &&& st.pos <= st2.pos
            &&& (0 <= st.pos && st.pos <= st.chars.len() ==> st2.pos <= st.chars.len())
            &&& (r is Some ==> (st2.pos > st.pos || (st2.pos == st.pos && 0 <= st2.indent_level
                < st.indent_level)))
        }),
    decreases st.chars.len() - st.pos,
{
    let s = st.chars;
    if 0 <= st.pos < s.len() {
        let c = s[st.pos];
        if st.indent_level > 0 && st.just_after_newline && c != ' ' && c != '\n' {
        } else if c == ' ' && !st.just_after_newline {
            lemma_lex_next_progress(LexState { pos: st.pos + 1, ..st });
        } else if c == ' ' {
            lemma_space_run_bounds(s, st.pos);
            lemma_space_run_bounds(s, st.pos + 1);
            let j = space_run_end(s, st.pos);
            let run_len = j - st.pos;
            if run_len % 4 == 0 && run_len / 4 == st.indent_level {
                lemma_lex_next_progress(LexState { pos: st.pos + 1, just_after_newline: false, ..st });
            }
        } else if c == '"' {
            lemma_quote_index_bounds(s, st.pos + 1);
        } else {
            lemma_ident_run_bounds(s, st.pos + 1);
            lemma_num_run_bounds(s, st.pos + 1);
        }
    }
}

/// Bounds of an identifier run.
proof fn lemma_ident_run_bounds(s: Seq<char>, i: int)
    requires
        0 <= i <= s.len(),
    ensures
        i <= ident_run_end(s, i) <= s.len(),
    decreases s.len() - i,
{
    if i < s.len() && (s[i] == '_' || is_alphanumeric_char(s[i])) {
        lemma_ident_run_bounds(s, i + 1);
    }
}

/// Bounds of a numeric run.
proof fn lemma_num_run_bounds(s: Seq<char>, i: int)
    requires
        0 <= i <= s.len(),
    ensures
        i <= num_run_end(s, i) <= s.len(),
    decreases s.len() - i,
{
    if i < s.len() && (is_numeric_char(s[i]) || s[i] == '_') {
        lemma_num_run_bounds(s, i + 1);
    }
}

/// Bounds of a quote search.
proof fn lemma_quote_index_bounds(s: Seq<char>, i: int)
    requires
        0 <= i <= s.len(),
    ensures
        match quote_index(s, i) {
            Some(j) => i <= j < s.len(),
            None => true,
        },
    decreases s.len() - i,
{
    if i < s.len() && s[i] != '"' {
        lemma_quote_index_bounds(s, i + 1);
    }
}

/// All tokens of a scanner run to completion: pull until end of input or
/// the first lex error, which is returned beside the tokens.
pub open spec fn lex_all(st: LexState) -> (Seq<(int, TokenModel)>, Option<LexErr>)
    decreases st.chars.len() - st.pos, st.indent_level,
    via lex_all_decreases
{
    let (st2, r) = lex_next(st);
    match r {
        None => (Seq::empty(), None),
        Some(Err(e)) => (Seq::empty(), Some(e)),
        Some(Ok(t)) => {
            let (rest, err) = lex_all(st2);
            (seq![t] + rest, err)
        },
    }
}

#[via_fn]
proof fn lex_all_decreases(st: LexState) {
    lemma_lex_next_progress(st);
}

/// The tokens of the first `n` pulls of the scanner, stopping early at end
/// of input or a lex error, with the state the pulls end in.
pub open spec fn lex_run(st: LexState, n: nat) -> (Seq<(int, TokenModel)>, LexState)
    decreases n,
{
    if n == 0 {
        (Seq::empty(), st)
    } else {
        let (st2, r) = lex_next(st);
        match r {
            Some(Ok(t)) => {
                let (rest, stf) = lex_run(st2, (n - 1) as nat);
                (seq![t] + rest, stf)
            },
            _ => (Seq::empty(), st2),
        }
    }
}

/// How many of the given tokens are `Indent`.
pub open spec fn count_indents(ts: Seq<(int, TokenModel)>) -> int
    decreases ts.len(),
{
    if ts.len() == 0 {
        0
    } else {
        (if ts[0].1 is Indent {
            1int
        } else {
            0int
        }) + count_indents(ts.drop_first())
    }
}

/// How many of the given tokens are `Dedent`.
pub open spec fn count_dedents(ts: Seq<(int, TokenModel)>) -> int
    decreases ts.len(),
{
    if ts.len() == 0 {
        0
    } else {
        (if ts[0].1 is Dedent {
            1int
        } else {
            0int
        }) + count_dedents(ts.drop_first())
    }
}

/// One pull moves the indent level exactly with the token it emits: up one
/// for `Indent`, down one for `Dedent`, not at all otherwise, and never
/// below zero.
proof fn lemma_lex_next_level(st: LexState)
    requires
        st.indent_level >= 0,
    ensures
        ({
            let (st2, r) = lex_next(st);
            &&& st2.indent_level >= 0
            &&& match r {
                Some(Ok((off, t))) => st2.indent_level == st.indent_level + (
                    if t is Indent {
                        1int
                    } else if t is Dedent {
                        -1int
                    } else {
                        0int
                    }
                ),
                _ => st2.indent_level == st.indent_level,
            }
        }),
    decreases st.chars.len() - st.pos,
{
    let s = st.chars;
    if 0 <= st.pos < s.len() {
        let c = s[st.pos];
        if st.indent_level > 0 && st.just_after_newline && c != ' ' && c != '\n' {
        } else if c == ' ' && !st.just_after_newline {
            lemma_lex_next_level(LexState { pos: st.pos + 1, ..st });
        } else if c == ' ' {
            lemma_space_run_bounds(s, st.pos);
            lemma_space_run_bounds(s, st.pos + 1);
            let j = space_run_end(s, st.pos);
            let run_len = j - st.pos;
            if run_len % 4 == 0 && run_len / 4 == st.indent_level {
                lemma_lex_next_level(LexState { pos: st.pos + 1, just_after_newline: false, ..st });
            }
        }
    }
}

/// Balance over a run from any non-negative level: the final level is the
/// starting level plus the indents minus the dedents, and stays
/// non-negative.
proof fn lemma_lex_balance_from(st: LexState, n: nat)
    requires
        st.indent_level >= 0,
    ensures
        ({
            let (toks, stf) = lex_run(st, n);
            &&& stf.indent_level == st.indent_level + count_indents(toks) - count_dedents(toks)
            &&& stf.indent_level >= 0
        }),
    decreases n,
{
    lemma_lex_next_level(st);
    if n > 0 {
        let (st2, r) = lex_next(st);
        match r {
            Some(Ok(t)) => {
                lemma_lex_balance_from(st2, (n - 1) as nat);
                let (rest, stf) = lex_run(st2, (n - 1) as nat);
                assert((seq![t] + rest).drop_first() =~= rest);
            },
            _ => {},
        }
    }
}

/// Dedent cascade: on entering a line whose indent `found` sits below the
/// current level, the next `level - found` pulls each yield one `Dedent`
/// at the offset of the line's first character, consuming no input, and
/// the level then equals the line's indent.
pub proof fn lemma_dedent_cascade(st: LexState, found: int)
    requires
        st.just_after_newline,
        0 <= st.pos < st.chars.len(),
        0 <= found < st.indent_level,
        found == 0 ==> st.chars[st.pos] != ' ' && st.chars[st.pos] != '\n',
        found > 0 ==> st.chars[st.pos] == ' ' && space_run_end(st.chars, st.pos) - st.pos == 4
            * found,
    ensures
        ({
            let (toks, stf) = lex_run(st, (st.indent_level - found) as nat);
            &&& toks.len() == st.indent_level - found
            &&& (forall|i: int|
                0 <= i < toks.len() ==> (#[trigger] toks[i]).1 is Dedent && toks[i].0 == byte_len(
                    st.chars.take(st.pos),
                ))
            &&& stf == (LexState { indent_level: found, ..st })
        }),
    decreases st.indent_level - found,
{
    let (st2, r) = lex_next(st);
    let b0 = byte_len(st.chars.take(st.pos));
    if found > 0 {
        lemma_space_run_bounds(st.chars, st.pos + 1);
    }
    assert(st2 == (LexState { indent_level: st.indent_level - 1, ..st }));
    assert(r == Some(Ok::<(int, TokenModel), LexErr>((b0, TokenModel::Dedent))));
    let n = (st.indent_level - found) as nat;
    let (toks, stf) = lex_run(st, n);
    let (rest, stf2) = lex_run(st2, (n - 1) as nat);
    assert(toks =~= seq![(b0, TokenModel::Dedent)] + rest);
    if st.indent_level - 1 == found {
        assert(rest =~= Seq::<(int, TokenModel)>::empty());
        assert(stf == st2);
    } else {
        lemma_dedent_cascade(st2, found);
    }
    assert forall|i: int| 0 <= i < toks.len() implies (#[trigger] toks[i]).1 is Dedent
        && toks[i].0 == b0 by {
        if i > 0 {
            assert(toks[i] == rest[i - 1]);
        }
    }
}

/// Indentation invariant: scanning any source from its start, after any
/// number of pulls the number of `Indent` tokens emitted so far minus the
/// number of `Dedent` tokens equals the scanner's indent level, and that
/// level never goes negative.
pub proof fn lemma_indentation_balance(chars: Seq<char>, n: nat)
    ensures
        ({
            let (toks, stf) = lex_run(init_state(chars), n);
            &&& stf.indent_level == count_indents(toks) - count_dedents(toks)
            &&& stf.indent_level >= 0
        }),
{
    lemma_lex_balance_from(init_state(chars), n);
}

} // verus!
