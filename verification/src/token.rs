//! The token model: the closed set of lexical symbols, the reduced operator
//! classification, and the four-level precedence order that governs how
//! binary expressions group.

use vstd::prelude::*;

use crate::text::{spec_render_int, render_int};
use vstd::string::{StrSliceExecFns, StringExecFns};

verus! {

/// A classified lexeme. Tokens that carry text (`Ident`, `StrLiteral`) own a
/// copy of the characters they were scanned from.
#[derive(Debug, PartialEq, Eq)]
pub enum Token {
    Indent,
    Dedent,
    IntLiteral(i32),
    StrLiteral(String),
    Ident(String),
    Newline,
    LParen,
    RParen,
    Add,
    Sub,
    Mul,
    Div,
    AddEq,
    SubEq,
    MulEq,
    DivEq,
    Bang,
    BangEq,
    Eq,
    DoubleEq,
    Not,
    And,
    Or,
    Arrow,
    Colon,
    Semicolon,
    Comma,
    Dot,
    Mut,
    If,
    Else,
    Return,
    Def,
    Struct,
}

/// The mathematical shape of a token: text payloads abstracted to their
/// character sequences. The lexer's contracts speak of these.
pub enum TokenModel {
    Indent,
    Dedent,
    IntLiteral(i32),
    StrLiteral(Seq<char>),
    Ident(Seq<char>),
    Newline,
    LParen,
    RParen,
    Add,
    Sub,
    Mul,
    Div,
    AddEq,
    SubEq,
    MulEq,
    DivEq,
    Bang,
    BangEq,
    Eq,
    DoubleEq,
    Not,
    And,
    Or,
    Arrow,
    Colon,
    Semicolon,
    Comma,
    Dot,
    Mut,
    If,
    Else,
    Return,
    Def,
    Struct,
}

impl View for Token {
    type V = TokenModel;

    open spec fn view(&self) -> TokenModel {
        match self {
            Token::Indent => TokenModel::Indent,
            Token::Dedent => TokenModel::Dedent,
            Token::IntLiteral(i) => TokenModel::IntLiteral(*i),
            Token::StrLiteral(s) => TokenModel::StrLiteral(s@),
            Token::Ident(s) => TokenModel::Ident(s@),
            Token::Newline => TokenModel::Newline,
            Token::LParen => TokenModel::LParen,
            Token::RParen => TokenModel::RParen,
            Token::Add => TokenModel::Add,
            Token::Sub => TokenModel::Sub,
            Token::Mul => TokenModel::Mul,
            Token::Div => TokenModel::Div,
            Token::AddEq => TokenModel::AddEq,
            Token::SubEq => TokenModel::SubEq,
            Token::MulEq => TokenModel::MulEq,
            Token::DivEq => TokenModel::DivEq,
            Token::Bang => TokenModel::Bang,
            Token::BangEq => TokenModel::BangEq,
            Token::Eq => TokenModel::Eq,
            Token::DoubleEq => TokenModel::DoubleEq,
            Token::Not => TokenModel::Not,
            Token::And => TokenModel::And,
            Token::Or => TokenModel::Or,
            Token::Arrow => TokenModel::Arrow,
            Token::Colon => TokenModel::Colon,
            Token::Semicolon => TokenModel::Semicolon,
            Token::Comma => TokenModel::Comma,
            Token::Dot => TokenModel::Dot,
            Token::Mut => TokenModel::Mut,
            Token::If => TokenModel::If,
            Token::Else => TokenModel::Else,
            Token::Return => TokenModel::Return,
            Token::Def => TokenModel::Def,
            Token::Struct => TokenModel::Struct,
        }
    }
}

/// The reduced classification of the tokens that may stand between two
/// expressions.
#[derive(Debug, PartialEq, Eq, Clone, Copy)]
pub enum Operator {
    Add,
    Sub,
    Div,
    Mul,
    Equals,
}

/// The four precedence levels, ordered `Lowest < AddSub < MulDiv < Equality`.
#[derive(Copy, Clone, Debug, PartialEq, Eq, PartialOrd, Ord)]
pub enum Precedence {
    Lowest,
    AddSub,
    MulDiv,
    Equality,
}

/// Numeric rank of a precedence level; the order on `Precedence` is the
/// order of these ranks.
pub open spec fn precedence_rank(p: Precedence) -> int {
    match p {
        Precedence::Lowest => 0,
        Precedence::AddSub => 1,
        Precedence::MulDiv => 2,
        Precedence::Equality => 3,
    }
}

/// The operator a token stands for, if any.
pub open spec fn spec_as_operator(t: TokenModel) -> Option<Operator> {
    match t {
        TokenModel::Add => Some(Operator::Add),
        TokenModel::Sub => Some(Operator::Sub),
        TokenModel::Mul => Some(Operator::Mul),
        TokenModel::Div => Some(Operator::Div),
        TokenModel::DoubleEq => Some(Operator::Equals),
        _ => None,
    }
}

/// The precedence level of an operator.
pub open spec fn spec_precedence(op: Operator) -> Precedence {
    match op {
        Operator::Add | Operator::Sub => Precedence::AddSub,
        Operator::Mul | Operator::Div => Precedence::MulDiv,
        Operator::Equals => Precedence::Equality,
    }
}

/// The textual rendering of a token, as tooling prints it: literals and
/// identifiers print their text, structural tokens print a fixed name, and
/// punctuation prints itself.
pub open spec fn spec_render_token(t: TokenModel) -> Seq<char> {
    match t {
        TokenModel::IntLiteral(i) => spec_render_int(i as int),
        TokenModel::StrLiteral(s) => s,
        TokenModel::Ident(s) => s,
        TokenModel::Indent => "INDENT"@,
        TokenModel::Dedent => "DEDENT"@,
        TokenModel::Newline => "\\n"@,
        TokenModel::LParen => "("@,
        TokenModel::RParen => ")"@,
        TokenModel::Add => "+"@,
        TokenModel::Sub => "-"@,
        TokenModel::Mul => "*"@,
        TokenModel::Div => "/"@,
        TokenModel::AddEq => "+="@,
        TokenModel::SubEq => "-="@,
        TokenModel::MulEq => "*="@,
        TokenModel::DivEq => "/="@,
        TokenModel::Eq => "="@,
        TokenModel::DoubleEq => "=="@,
        TokenModel::Bang => "!"@,
        TokenModel::BangEq => "!="@,
        TokenModel::Not => "not"@,
        TokenModel::And => "and"@,
        TokenModel::Or => "or"@,
        TokenModel::Comma => ","@,
        TokenModel::Arrow => "->"@,
        TokenModel::Colon => ":"@,
        TokenModel::Semicolon => ";"@,
        TokenModel::Dot => "."@,
        TokenModel::Mut => "mut"@,
        TokenModel::If => "If"@,
        TokenModel::Else => "Else"@,
        TokenModel::Return => "return"@,
        TokenModel::Def => "def"@,
        TokenModel::Struct => "struct"@,
    }
}

/// The length in characters of a token's rendering.
pub open spec fn spec_src_len(t: TokenModel) -> int {
    spec_render_token(t).len() as int
}

impl Token {
    /// The textual rendering of this token.
    pub fn render(&self) -> (r: String)
        ensures
            r@ == spec_render_token(self@),
    {
        match self {
            Token::IntLiteral(i) => render_int(*i),
            Token::StrLiteral(s) => s.clone(),
            Token::Ident(s) => s.clone(),
            Token::Indent => String::from_str("INDENT"),
            Token::Dedent => String::from_str("DEDENT"),
            Token::Newline => String::from_str("\\n"),
            Token::LParen => String::from_str("("),
            Token::RParen => String::from_str(")"),
            Token::Add => String::from_str("+"),
            Token::Sub => String::from_str("-"),
            Token::Mul => String::from_str("*"),
            Token::Div => String::from_str("/"),
            Token::AddEq => String::from_str("+="),
            Token::SubEq => String::from_str("-="),
            Token::MulEq => String::from_str("*="),
            Token::DivEq => String::from_str("/="),
            Token::Eq => String::from_str("="),
            Token::DoubleEq => String::from_str("=="),
            Token::Bang => String::from_str("!"),
            Token::BangEq => String::from_str("!="),
            Token::Not => String::from_str("not"),
            Token::And => String::from_str("and"),
            Token::Or => String::from_str("or"),
            Token::Comma => String::from_str(","),
            Token::Arrow => String::from_str("->"),
            Token::Colon => String::from_str(":"),
            Token::Semicolon => String::from_str(";"),
            Token::Dot => String::from_str("."),
            Token::Mut => String::from_str("mut"),
            Token::If => String::from_str("If"),
            Token::Else => String::from_str("Else"),
            Token::Return => String::from_str("return"),
            Token::Def => String::from_str("def"),
            Token::Struct => String::from_str("struct"),
        }
    }

    /// The length in characters of this token's rendering, used to size the
    /// highlighted span in diagnostics.
    pub fn src_len(&self) -> (r: usize)
        ensures
            r == spec_src_len(self@),
    {
        let s = self.render();
        s.as_str().unicode_len()
    }

    /// The operator this token stands for, if any.
    pub fn as_operator(&self) -> (r: Option<Operator>)
        ensures
            r == spec_as_operator(self@),
    {
        match self {
            Token::Add => Some(Operator::Add),
            Token::Sub => Some(Operator::Sub),
            Token::Mul => Some(Operator::Mul),
            Token::Div => Some(Operator::Div),
            Token::DoubleEq => Some(Operator::Equals),
            _ => None,
        }
    }
}

impl Operator {
    /// The precedence level this operator binds at.
    pub fn precedence(&self) -> (r: Precedence)
        ensures
            r == spec_precedence(*self),
    {
        match self {
            Operator::Add | Operator::Sub => Precedence::AddSub,
            Operator::Mul | Operator::Div => Precedence::MulDiv,
            Operator::Equals => Precedence::Equality,
        }
    }
}

/// The textual rendering of an operator.
pub open spec fn spec_render_operator(op: Operator) -> Seq<char> {
    match op {
        Operator::Add => "+"@,
        Operator::Sub => "-"@,
        Operator::Mul => "*"@,
        Operator::Div => "/"@,
        Operator::Equals => "=="@,
    }
}

impl Operator {
    /// The textual rendering of this operator.
    pub fn render(&self) -> (r: String)
        ensures
            r@ == spec_render_operator(*self),
    {
        match self {
            Operator::Add => String::from_str("+"),
            Operator::Sub => String::from_str("-"),
            Operator::Mul => String::from_str("*"),
            Operator::Div => String::from_str("/"),
            Operator::Equals => String::from_str("=="),
        }
    }
}

impl Precedence {
    /// Whether `self` binds strictly less tightly than `other`; agrees with
    /// the derived order on `Precedence`.
    pub fn is_below(&self, other: Precedence) -> (r: bool)
        ensures
            r == (precedence_rank(*self) < precedence_rank(other)),
    {
        let a: u8 = match self {
            Precedence::Lowest => 0,
            Precedence::AddSub => 1,
            Precedence::MulDiv => 2,
            Precedence::Equality => 3,
        };
        let b: u8 = match other {
            Precedence::Lowest => 0,
            Precedence::AddSub => 1,
            Precedence::MulDiv => 2,
            Precedence::Equality => 3,
        };
        a < b
    }
}

} // verus!
