//! The recursive-descent, precedence-climbing parser: it consumes a buffered
//! token stream with one token of lookahead and builds the AST, resolving
//! the grammar's ambiguities through an explicit [`ParseContext`].
//!
//! Every parsing function is specified against a functional model over
//! [`StreamModel`]; the executable code is proved to return exactly the
//! model's result and to leave the stream in exactly the model's state.

use vstd::prelude::*;

use crate::ast::{
    AstBinExpr, AstBinExprModel, AstBlock, AstBlockModel, AstCallExpr, AstCallExprModel,
    AstConditional, AstConditionalModel, AstExpr, AstExprModel, AstLiteral, AstLiteralModel,
    AstStmt, AstStmtModel, AttrAccess, AttrAccessModel, CallArg, CallArgModel, FnDef, FnDefModel,
    TypeAnnotation, TypeAnnotationModel,
};
use crate::token::{precedence_rank, spec_as_operator, spec_precedence, Operator};
use crate::lexer::LexErr;
use crate::token::{spec_src_len, Token, TokenModel};

verus! {

broadcast use vstd::seq::group_seq_axioms, vstd::std_specs::vec::group_vec_axioms;

/// The four precedence levels, ordered `Lowest < AddSub < MulDiv <
/// Equality`; re-exported beside the parser that climbs them.
pub use crate::token::Precedence;

/// A parsing failure. Position-carrying variants hold the byte offset of
/// the offending token and the length in characters of its rendering.
#[derive(Debug, PartialEq, Eq)]
pub enum ParseErr {
    /// A lex error met while pulling the next token.
    LexErr(LexErr),
    /// A token that cannot start an expression.
    InvalidExpressionStart(usize, usize),
    /// End of input where a token was expected.
    UnexpectedEnd,
    /// Indentation where a statement was expected.
    UnexpectedIndent(usize, usize, usize),
    /// A statement after a semicolon-less tail expression.
    UnexpectedStmt(usize, usize),
    /// A token that is no type annotation where one was expected.
    ExpectedTypeAnnotation(usize, usize),
    /// A missing newline.
    ExpectedNewline(usize, usize),
    /// A missing semicolon.
    ExpectedSemi(usize, usize),
    /// A missing colon.
    ExpectedColon(usize, usize),
    /// A missing function or struct name.
    ExpectedFnName(usize, usize),
    /// A second mutability qualifier in one type annotation.
    UnexpectedMut(usize, usize),
    /// A missing token, carrying the token that was expected.
    ExpectedToken(usize, usize, Token),
}

/// The context flags threaded through recursive parse calls: whether a
/// colon after an identifier may start a type annotation, and whether the
/// parser is inside an explicit parenthesis (so an unmatched `)` is left
/// for the enclosing caller).
#[derive(Debug, Clone, Copy, PartialEq, Eq, Structural)]
pub struct ParseContext {
    pub can_parse_annotation: bool,
    pub is_in_paren_block: bool,
}

impl ParseContext {
    /// The context at a statement's start: annotations allowed, not inside
    /// parentheses.
    pub fn new() -> (r: ParseContext)
        ensures
            r == (ParseContext { can_parse_annotation: true, is_in_paren_block: false }),
    {
        ParseContext { can_parse_annotation: true, is_in_paren_block: false }
    }

    /// The same context, inside an explicit parenthesis.
    pub fn entering_parens(self) -> (r: ParseContext)
        ensures
            r == (ParseContext { is_in_paren_block: true, ..self }),
    {
        ParseContext { is_in_paren_block: true, ..self }
    }

    /// The same context, outside any explicit parenthesis.
    pub fn exiting_parens(self) -> (r: ParseContext)
        ensures
            r == (ParseContext { is_in_paren_block: false, ..self }),
    {
        ParseContext { is_in_paren_block: false, ..self }
    }

    /// The same context, with type annotations allowed.
    pub fn with_annotation_parsing(self) -> (r: ParseContext)
        ensures
            r == (ParseContext { can_parse_annotation: true, ..self }),
    {
        ParseContext { can_parse_annotation: true, ..self }
    }

    /// The same context, with type annotations suppressed.
    pub fn without_annotation_parsing(self) -> (r: ParseContext)
        ensures
            r == (ParseContext { can_parse_annotation: false, ..self }),
    {
        ParseContext { can_parse_annotation: false, ..self }
    }
}

/// The mathematical state of the token stream: the tokens not yet
/// consumed, each with its byte offset, and the lex error that ended
/// lexing, if one did.
pub struct StreamModel {
    pub toks: Seq<(usize, Token)>,
    pub trailing: Option<LexErr>,
}

/// Pull one token: the front token, or past the last token the trailing
/// lex error (wrapped), or the end-of-input error.
pub open spec fn spec_get_next_token(m: StreamModel) -> (Result<(usize, Token), ParseErr>, StreamModel) {
    if m.toks.len() > 0 {
        (Ok(m.toks[0]), StreamModel { toks: m.toks.drop_first(), ..m })
    } else {
        match m.trailing {
            Some(e) => (Err(ParseErr::LexErr(e)), m),
            None => (Err(ParseErr::UnexpectedEnd), m),
        }
    }
}

/// Pull one token and demand that it render equal to `expected`.
pub open spec fn spec_eat(m: StreamModel, expected: Token) -> (Result<(), ParseErr>, StreamModel) {
    let (r, m2) = spec_get_next_token(m);
    match r {
        Err(e) => (Err(e), m2),
        Ok((ix, tok)) => if tok@ == expected@ {
            (Ok(()), m2)
        } else {
            (Err(ParseErr::ExpectedToken(ix, spec_src_len(tok@) as usize, expected)), m2)
        },
    }
}

/// Skip any run of `Newline` tokens at the front of the stream.
pub open spec fn spec_skip_newlines(m: StreamModel) -> StreamModel
    decreases m.toks.len(),
{
    if m.toks.len() > 0 && m.toks[0].1 is Newline {
        spec_skip_newlines(StreamModel { toks: m.toks.drop_first(), ..m })
    } else {
        m
    }
}

/// Parse a type declaration: an optional `mut` qualifier followed by a
/// named type. A second `mut` is an error of its own; anything else that
/// is not an identifier fails as a missing type annotation.
pub open spec fn spec_parse_type_decl(m: StreamModel) -> (Result<TypeAnnotationModel, ParseErr>, StreamModel) {
    let is_mut = m.toks.len() > 0 && m.toks[0].1 is Mut;
    let m1 = if is_mut {
        StreamModel { toks: m.toks.drop_first(), ..m }
    } else {
        m
    };
    let (r, m2) = spec_get_next_token(m1);
    match r {
        Err(e) => (Err(e), m2),
        Ok((ix, tok)) => match tok {
            Token::Ident(id) => {
                let ty = TypeAnnotationModel::Dynamic(id@);
                if is_mut {
                    (Ok(TypeAnnotationModel::Mut(Box::new(ty))), m2)
                } else {
                    (Ok(ty), m2)
                }
            },
            Token::Mut => (Err(ParseErr::UnexpectedMut(ix, spec_src_len(tok@) as usize)), m2),
            _ => (Err(ParseErr::ExpectedTypeAnnotation(ix, spec_src_len(tok@) as usize)), m2),
        },
    }
}

/// Parse a type annotation: a colon followed by a type declaration.
pub open spec fn spec_parse_annotation(m: StreamModel) -> (Result<TypeAnnotationModel, ParseErr>, StreamModel) {
    let (r, m1) = spec_eat(m, Token::Colon);
    match r {
        Err(e) => (Err(e), m1),
        Ok(_) => spec_parse_type_decl(m1),
    }
}

/// The outcome of a recursion the grammar can never reach: every recursive
/// step of the parser consumes at least one token (the executable functions
/// prove as much), so the model guards each recursive call on the stream
/// having shrunk and falls back to this, keeping its recursion visibly
/// well-founded.
pub open spec fn no_progress<T>(m: StreamModel) -> (Result<T, ParseErr>, StreamModel) {
    (Err(ParseErr::UnexpectedEnd), m)
}

/// Parse an attribute access after `lhs`: a dot followed by an identifier,
/// which becomes the attribute name.
pub open spec fn spec_parse_attr_access(lhs: AstExprModel, m: StreamModel) -> (Result<
    AttrAccessModel,
    ParseErr,
>, StreamModel) {
    let (er, m1) = spec_eat(m, Token::Dot);
    match er {
        Err(e) => (Err(e), m1),
        Ok(_) => {
            let (tr, m2) = spec_get_next_token(m1);
            match tr {
                Err(e) => (Err(e), m2),
                Ok((ix, tok)) => match tok {
                    Token::Ident(_) => (
                        Ok(
                            AttrAccessModel {
                                expr: Box::new(lhs),
                                attribute: AstLiteralModel::Ident(tok@),
                            },
                        ),
                        m2,
                    ),
                    _ => (Err(ParseErr::InvalidExpressionStart(ix, spec_src_len(tok@) as usize)), m2),
                },
            }
        },
    }
}

/// Parse the typed parameter list of a function definition, up to and
/// including the closing parenthesis.
pub open spec fn spec_parse_fn_args(m: StreamModel, acc: Seq<AstLiteralModel>) -> (Result<
    Seq<AstLiteralModel>,
    ParseErr,
>, StreamModel)
    decreases m.toks.len(),
{
    if m.toks.len() > 0 && m.toks[0].1 is Ident {
        let (ix, tok) = m.toks[0];
        let m1 = StreamModel { toks: m.toks.drop_first(), ..m };
        let (ar, m2) = spec_parse_annotation(m1);
        match ar {
            Err(e) => (Err(e), m2),
            Ok(ty) => {
                let acc2 = acc.push(AstLiteralModel::TypedIdent { name: tok@, type_annotation: ty });
                let has_comma = m2.toks.len() > 0 && m2.toks[0].1 is Comma;
                let m3 = if has_comma {
                    StreamModel { toks: m2.toks.drop_first(), ..m2 }
                } else {
                    m2
                };
                if m3.toks.len() < m.toks.len() {
                    spec_parse_fn_args(m3, acc2)
                } else {
                    no_progress(m3)
                }
            },
        }
    } else {
        let (er, m1) = spec_eat(m, Token::RParen);
        match er {
            Err(e) => (Err(e), m1),
            Ok(_) => (Ok(acc), m1),
        }
    }
}

/// Parse the typed field list of a struct definition: `name: type` lines.
pub open spec fn spec_parse_struct_fields(m: StreamModel, acc: Seq<AstLiteralModel>) -> (Result<
    Seq<AstLiteralModel>,
    ParseErr,
>, StreamModel)
    decreases m.toks.len(),
{
    if m.toks.len() > 0 && m.toks[0].1 is Ident {
        let (ix, tok) = m.toks[0];
        let m1 = StreamModel { toks: m.toks.drop_first(), ..m };
        let (ar, m2) = spec_parse_annotation(m1);
        match ar {
            Err(e) => (Err(e), m2),
            Ok(ty) => {
                let acc2 = acc.push(AstLiteralModel::TypedIdent { name: tok@, type_annotation: ty });
                let (nr, m3) = spec_eat(m2, Token::Newline);
                match nr {
                    Err(e) => (Err(e), m3),
                    Ok(_) => if m3.toks.len() < m.toks.len() {
                        spec_parse_struct_fields(m3, acc2)
                    } else {
                        no_progress(m3)
                    },
                }
            },
        }
    } else {
        (Ok(acc), m)
    }
}

/// Parse a primary expression: a parenthesized expression, a conditional,
/// an identifier (possibly with a type annotation), or an integer or
/// string literal, followed by its postfix operators.
pub open spec fn spec_parse_primary_expr(m: StreamModel, indent: usize, context: ParseContext) -> (Result<
    AstExprModel,
    ParseErr,
>, StreamModel)
    decreases m.toks.len(), 0int,
{
    let (r, m1) = spec_get_next_token(m);
    match r {
        Err(e) => (Err(e), m1),
        Ok((ix, tok)) => match tok {
            Token::LParen => spec_parse_expr(m1, Precedence::Lowest, indent, context),
            Token::If => {
                let (cr, m2) = spec_parse_conditional(m1, indent);
                match cr {
                    Err(e) => (Err(e), m2),
                    Ok(c) => (Ok(AstExprModel::ConditionalExpr(c)), m2),
                }
            },
            Token::Ident(_) => {
                let is_typed = m1.toks.len() > 0 && m1.toks[0].1 is Colon
                    && context.can_parse_annotation;
                if is_typed {
                    let (ar, m2) = spec_parse_annotation(m1);
                    match ar {
                        Err(e) => (Err(e), m2),
                        Ok(ty) => {
                            let lit = AstLiteralModel::TypedIdent {
                                name: tok@,
                                type_annotation: ty,
                            };
                            if m2.toks.len() < m.toks.len() {
                                spec_parse_postfix_expr(AstExprModel::LitExpr(lit), m2)
                            } else {
                                no_progress(m2)
                            }
                        },
                    }
                } else {
                    spec_parse_postfix_expr(
                        AstExprModel::LitExpr(AstLiteralModel::Ident(tok@)),
                        m1,
                    )
                }
            },
            Token::IntLiteral(_) => spec_parse_postfix_expr(
                AstExprModel::LitExpr(AstLiteralModel::Int(tok@)),
                m1,
            ),
            Token::StrLiteral(_) => spec_parse_postfix_expr(
                AstExprModel::LitExpr(AstLiteralModel::Str(tok@)),
                m1,
            ),
            _ => (Err(ParseErr::InvalidExpressionStart(ix, spec_src_len(tok@) as usize)), m1),
        },
    }
}

/// Parse a conditional after its `if` token: condition (with annotations
/// suppressed), colon, block, and optional `else` branch, itself either a
/// chained conditional or a block.
pub open spec fn spec_parse_conditional(m: StreamModel, indent: usize) -> (Result<
    AstConditionalModel,
    ParseErr,
>, StreamModel)
    decreases m.toks.len(), 5int,
{
    let ctx = ParseContext { can_parse_annotation: false, is_in_paren_block: false };
    let (cr, m1) = spec_parse_expr(m, Precedence::Lowest, indent, ctx);
    match cr {
        Err(e) => (Err(e), m1),
        Ok(condition) => {
            let (tr, m2) = spec_get_next_token(m1);
            match tr {
                Err(e) => (Err(e), m2),
                Ok((ix, tok)) => if !(tok is Colon) {
                    (Err(ParseErr::ExpectedColon(ix, spec_src_len(tok@) as usize)), m2)
                } else {
                    let has_newline = m2.toks.len() > 0 && m2.toks[0].1 is Newline;
                    let (ir, m3) = if has_newline {
                        spec_eat(StreamModel { toks: m2.toks.drop_first(), ..m2 }, Token::Indent)
                    } else {
                        (Ok(()), m2)
                    };
                    match ir {
                        Err(e) => (Err(e), m3),
                        Ok(_) => if m3.toks.len() < m.toks.len() {
                            let (br, m4) = spec_parse_block(m3, (indent + 1) as usize);
                            match br {
                                Err(e) => (Err(e), m4),
                                Ok(if_block) => {
                                    let has_else = m4.toks.len() > 0 && m4.toks[0].1 is Else;
                                    if !has_else {
                                        (
                                            Ok(
                                                AstConditionalModel {
                                                    condition: Box::new(condition),
                                                    if_block,
                                                    else_block: None,
                                                },
                                            ),
                                            m4,
                                        )
                                    } else {
                                        let m5 = StreamModel {
                                            toks: m4.toks.drop_first(),
                                            ..m4
                                        };
                                        let (er, m6) = spec_get_next_token(m5);
                                        match er {
                                            Err(e) => (Err(e), m6),
                                            Ok((ix2, tok2)) => match tok2 {
                                                Token::If => if m6.toks.len() < m.toks.len() {
                                                    let (c2r, m7) = spec_parse_conditional(
                                                        m6,
                                                        indent,
                                                    );
                                                    match c2r {
                                                        Err(e) => (Err(e), m7),
                                                        Ok(c2) => (
                                                            Ok(
                                                                AstConditionalModel {
                                                                    condition: Box::new(condition),
                                                                    if_block,
                                                                    else_block: Some(
                                                                        Box::new(
                                                                            AstExprModel::ConditionalExpr(c2),
                                                                        ),
                                                                    ),
                                                                },
                                                            ),
                                                            m7,
                                                        ),
                                                    }
                                                } else {
                                                    no_progress(m6)
                                                },
                                                Token::Colon => {
                                                    let (nr, m7) = spec_eat(m6, Token::Newline);
                                                    match nr {
                                                        Err(e) => (Err(e), m7),
                                                        Ok(_) => {
                                                            let (ir2, m8) = spec_eat(
                                                                m7,
                                                                Token::Indent,
                                                            );
                                                            match ir2 {
                                                                Err(e) => (Err(e), m8),
                                                                Ok(_) => if m8.toks.len()
                                                                    < m.toks.len() {
                                                                    let (b2r, m9) =
                                                                        spec_parse_block(
                                                                        m8,
                                                                        (indent + 1) as usize,
                                                                    );
                                                                    match b2r {
                                                                        Err(e) => (Err(e), m9),
                                                                        Ok(else_bl) => (
                                                                            Ok(
                                                                                AstConditionalModel {
                                                                                    condition: Box::new(condition),
                                                                                    if_block,
                                                                                    else_block: Some(
                                                                                        Box::new(
                                                                                            AstExprModel::BlockExpr(else_bl),
                                                                                        ),
                                                                                    ),
                                                                                },
                                                                            ),
                                                                            m9,
                                                                        ),
                                                                    }
                                                                } else {
                                                                    no_progress(m8)
                                                                },
                                                            }
                                                        },
                                                    }
                                                },
                                                _ => (
                                                    Err(
                                                        ParseErr::ExpectedColon(
                                                            ix2,
                                                            spec_src_len(tok2@) as usize,
                                                        ),
                                                    ),
                                                    m6,
                                                ),
                                            },
                                        }
                                    }
                                },
                            }
                        } else {
                            no_progress(m3)
                        },
                    }
                },
            }
        },
    }
}

/// Parse an expression at the given minimum precedence: a primary
/// expression extended by infix operators.
pub open spec fn spec_parse_expr(
    m: StreamModel,
    precedence: Precedence,
    indent: usize,
    context: ParseContext,
) -> (Result<AstExprModel, ParseErr>, StreamModel)
    decreases m.toks.len(), 4int,
{
    let (pr, m1) = spec_parse_primary_expr(m, indent, context);
    match pr {
        Err(e) => (Err(e), m1),
        Ok(lhs) => if m1.toks.len() <= m.toks.len() {
            spec_parse_expr_with(lhs, m1, precedence, indent, context)
        } else {
            no_progress(m1)
        },
    }
}

/// Extend an already-parsed expression with postfix operators and then
/// with infix operators.
pub open spec fn spec_parse_expr_with(
    lhs: AstExprModel,
    m: StreamModel,
    precedence: Precedence,
    indent: usize,
    context: ParseContext,
) -> (Result<AstExprModel, ParseErr>, StreamModel)
    decreases m.toks.len(), 3int,
{
    let (pr, m1) = spec_parse_postfix_expr(lhs, m);
    match pr {
        Err(e) => (Err(e), m1),
        Ok(lhs1) => if m1.toks.len() <= m.toks.len() {
            spec_parse_expr_loop(lhs1, m1, precedence, indent, context)
        } else {
            no_progress(m1)
        },
    }
}

/// Absorb infix operators into `lhs` while their precedence stays at or
/// above the minimum. Stops before a lower-precedence operator, at a
/// semicolon, or at an unmatched closing parenthesis (consuming it unless
/// inside an explicit parenthesis); equal-precedence operators group to
/// the right, because the right-hand side is parsed at the same minimum
/// precedence rather than one above. On every way out, postfix operators
/// are taken up once more.
pub open spec fn spec_parse_expr_loop(
    lhs: AstExprModel,
    m: StreamModel,
    precedence: Precedence,
    indent: usize,
    context: ParseContext,
) -> (Result<AstExprModel, ParseErr>, StreamModel)
    decreases m.toks.len(), 2int,
{
    if m.toks.len() == 0 {
        spec_parse_postfix_expr(lhs, m)
    } else {
        let tok = m.toks[0].1;
        if tok is Semicolon {
            spec_parse_postfix_expr(lhs, m)
        } else if tok is RParen {
            let m1 = if !context.is_in_paren_block {
                StreamModel { toks: m.toks.drop_first(), ..m }
            } else {
                m
            };
            spec_parse_postfix_expr(lhs, m1)
        } else {
            match spec_as_operator(tok@) {
                None => spec_parse_postfix_expr(lhs, m),
                Some(op) => if precedence_rank(spec_precedence(op)) < precedence_rank(precedence) {
                    spec_parse_postfix_expr(lhs, m)
                } else {
                    let m1 = StreamModel { toks: m.toks.drop_first(), ..m };
                    let (rr, m2) = spec_parse_expr(m1, spec_precedence(op), indent, context);
                    match rr {
                        Err(e) => (Err(e), m2),
                        Ok(rhs) => {
                            let combined = AstExprModel::BinExpr(
                                AstBinExprModel { op, l: Box::new(lhs), r: Box::new(rhs) },
                            );
                            if m2.toks.len() < m.toks.len() {
                                let (pr2, m3) = spec_parse_postfix_expr(combined, m2);
                                match pr2 {
                                    Err(e) => (Err(e), m3),
                                    Ok(lhs2) => if m3.toks.len() < m.toks.len() {
                                        spec_parse_expr_loop(lhs2, m3, precedence, indent, context)
                                    } else {
                                        no_progress(m3)
                                    },
                                }
                            } else {
                                no_progress(m2)
                            }
                        },
                    }
                },
            }
        }
    }
}

/// Greedily absorb postfix operators into `lhs`: a parenthesis starts a
/// call, a dot an attribute access.
pub open spec fn spec_parse_postfix_expr(lhs: AstExprModel, m: StreamModel) -> (Result<
    AstExprModel,
    ParseErr,
>, StreamModel)
    decreases m.toks.len(), 1int,
{
    if m.toks.len() > 0 && m.toks[0].1 is LParen {
        let (cr, m1) = spec_parse_call_expr(lhs, m);
        match cr {
            Err(e) => (Err(e), m1),
            Ok(c) => if m1.toks.len() < m.toks.len() {
                spec_parse_postfix_expr(AstExprModel::CallExpr(c), m1)
            } else {
                no_progress(m1)
            },
        }
    } else if m.toks.len() > 0 && m.toks[0].1 is Dot {
        let (ar, m1) = spec_parse_attr_access(lhs, m);
        match ar {
            Err(e) => (Err(e), m1),
            Ok(a) => if m1.toks.len() < m.toks.len() {
                spec_parse_postfix_expr(AstExprModel::AttrExpr(a), m1)
            } else {
                no_progress(m1)
            },
        }
    } else {
        (Ok(lhs), m)
    }
}

/// Parse a call's argument list after the opening parenthesis. Arguments
/// may be laid out inline or vertically (one per line inside an indented
/// block); each may be named (`name = expr`).
pub open spec fn spec_parse_call_args(
    m: StreamModel,
    is_vertical: bool,
    acc: Seq<CallArgModel>,
) -> (Result<Seq<CallArgModel>, ParseErr>, StreamModel)
    decreases m.toks.len(), 5int,
{
    let stop = m.toks.len() > 0 && (m.toks[0].1 is RParen || m.toks[0].1 is Dedent);
    if stop {
        (Ok(acc), m)
    } else {
        let ctx = ParseContext { can_parse_annotation: true, is_in_paren_block: true };
        let (er, m1) = spec_parse_expr(m, Precedence::Lowest, 0usize, ctx);
        match er {
            Err(e) => (Err(e), m1),
            Ok(expr) => {
                let is_named = expr is LitExpr && m1.toks.len() > 0 && m1.toks[0].1 is Eq;
                if is_named {
                    let (eqr, m2) = spec_eat(m1, Token::Eq);
                    match eqr {
                        Err(e) => (Err(e), m2),
                        Ok(_) => if m2.toks.len() < m.toks.len() {
                            let (e2r, m3) = spec_parse_expr(m2, Precedence::Lowest, 0usize, ctx);
                            match e2r {
                                Err(e) => (Err(e), m3),
                                Ok(expr2) => spec_call_args_tail(
                                    m,
                                    m3,
                                    is_vertical,
                                    acc.push(CallArgModel { name: Some(expr), expr: expr2 }),
                                ),
                            }
                        } else {
                            no_progress(m2)
                        },
                    }
                } else {
                    spec_call_args_tail(
                        m,
                        m1,
                        is_vertical,
                        acc.push(CallArgModel { name: None, expr }),
                    )
                }
            },
        }
    }
}

/// After one parsed argument: stop unless a comma follows; consume the
/// comma (and, vertically, the newline) and go on with the next argument.
pub open spec fn spec_call_args_tail(
    m_entry: StreamModel,
    m: StreamModel,
    is_vertical: bool,
    acc: Seq<CallArgModel>,
) -> (Result<Seq<CallArgModel>, ParseErr>, StreamModel)
    decreases m_entry.toks.len(), 4int,
{
    let has_comma = m.toks.len() > 0 && m.toks[0].1 is Comma;
    if !has_comma {
        (Ok(acc), m)
    } else {
        let (cr, m1) = spec_eat(m, Token::Comma);
        match cr {
            Err(e) => (Err(e), m1),
            Ok(_) => {
                let (nr, m2) = if is_vertical {
                    spec_eat(m1, Token::Newline)
                } else {
                    (Ok(()), m1)
                };
                match nr {
                    Err(e) => (Err(e), m2),
                    Ok(_) => if m2.toks.len() < m_entry.toks.len() {
                        spec_parse_call_args(m2, is_vertical, acc)
                    } else {
                        no_progress(m2)
                    },
                }
            },
        }
    }
}

/// Parse a call expression on `fexpr`: the parenthesized, possibly
/// vertical, argument list.
pub open spec fn spec_parse_call_expr(fexpr: AstExprModel, m: StreamModel) -> (Result<
    AstCallExprModel,
    ParseErr,
>, StreamModel)
    decreases m.toks.len(), 0int,
{
    let (lr, m1) = spec_eat(m, Token::LParen);
    match lr {
        Err(e) => (Err(e), m1),
        Ok(_) => {
            let is_vertical = m1.toks.len() > 0 && m1.toks[0].1 is Newline;
            let m2 = if is_vertical {
                StreamModel { toks: m1.toks.drop_first(), ..m1 }
            } else {
                m1
            };
            let (ir, m3) = if is_vertical {
                spec_eat(m2, Token::Indent)
            } else {
                (Ok(()), m2)
            };
            match ir {
                Err(e) => (Err(e), m3),
                Ok(_) => if m3.toks.len() < m.toks.len() {
                    let (ar, m4) = spec_parse_call_args(m3, is_vertical, Seq::empty());
                    match ar {
                        Err(e) => (Err(e), m4),
                        Ok(args) => {
                            let (dr, m5) = if is_vertical {
                                spec_eat(m4, Token::Dedent)
                            } else {
                                (Ok(()), m4)
                            };
                            match dr {
                                Err(e) => (Err(e), m5),
                                Ok(_) => {
                                    let (rr, m6) = spec_eat(m5, Token::RParen);
                                    match rr {
                                        Err(e) => (Err(e), m6),
                                        Ok(_) => (
                                            Ok(
                                                AstCallExprModel {
                                                    called_expr: Box::new(fexpr),
                                                    args,
                                                },
                                            ),
                                            m6,
                                        ),
                                    }
                                },
                            }
                        },
                    }
                } else {
                    no_progress(m3)
                },
            }
        },
    }
}

/// Parse a function definition: `def name(params) -> type:` and an
/// indented body one level in.
pub open spec fn spec_parse_fn_def(m: StreamModel, indent: usize) -> (Result<FnDefModel, ParseErr>, StreamModel)
    decreases m.toks.len(), 0int,
{
    let (dr, m1) = spec_eat(m, Token::Def);
    match dr {
        Err(e) => (Err(e), m1),
        Ok(_) => {
            let (tr, m2) = spec_get_next_token(m1);
            match tr {
                Err(e) => (Err(e), m2),
                Ok((ix, tok)) => if !(tok is Ident) {
                    (Err(ParseErr::ExpectedFnName(ix, spec_src_len(tok@) as usize)), m2)
                } else {
                    let name = AstLiteralModel::Ident(tok@);
                    let (lr, m3) = spec_eat(m2, Token::LParen);
                    match lr {
                        Err(e) => (Err(e), m3),
                        Ok(_) => {
                            let (ar, m4) = spec_parse_fn_args(m3, Seq::empty());
                            match ar {
                                Err(e) => (Err(e), m4),
                                Ok(args) => {
                                    let (arr, m5) = spec_eat(m4, Token::Arrow);
                                    match arr {
                                        Err(e) => (Err(e), m5),
                                        Ok(_) => {
                                            let (tyr, m6) = spec_parse_type_decl(m5);
                                            match tyr {
                                                Err(e) => (Err(e), m6),
                                                Ok(return_type) => {
                                                    let (cr, m7) = spec_eat(m6, Token::Colon);
                                                    match cr {
                                                        Err(e) => (Err(e), m7),
                                                        Ok(_) => {
                                                            let (nr, m8) = spec_eat(
                                                                m7,
                                                                Token::Newline,
                                                            );
                                                            match nr {
                                                                Err(e) => (Err(e), m8),
                                                                Ok(_) => {
                                                                    let (ir, m9) = spec_eat(
                                                                        m8,
                                                                        Token::Indent,
                                                                    );
                                                                    match ir {
                                                                        Err(e) => (Err(e), m9),
                                                                        Ok(_) => if m9.toks.len()
                                                                            < m.toks.len() {
                                                                            let (br, m10) =
                                                                                spec_parse_block(
                                                                                m9,
                                                                                (indent + 1) as usize,
                                                                            );
                                                                            match br {
                                                                                Err(e) => (
                                                                                    Err(e),
                                                                                    m10,
                                                                                ),
                                                                                Ok(body) => (
                                                                                    Ok(
                                                                                        FnDefModel {
                                                                                            name,
                                                                                            args,
                                                                                            body,
                                                                                            return_type,
                                                                                        },
                                                                                    ),
                                                                                    m10,
                                                                                ),
                                                                            }
                                                                        } else {
                                                                            no_progress(m9)
                                                                        },
                                                                    }
                                                                },
                                                            }
                                                        },
                                                    }
                                                },
                                            }
                                        },
                                    }
                                },
                            }
                        },
                    }
                },
            }
        },
    }
}

/// Parse the methods of a struct definition: zero or more function
/// definitions.
pub open spec fn spec_parse_struct_methods(m: StreamModel, acc: Seq<FnDefModel>) -> (Result<
    Seq<FnDefModel>,
    ParseErr,
>, StreamModel)
    decreases m.toks.len(), 1int,
{
    if m.toks.len() > 0 && m.toks[0].1 is Def {
        let (fr, m1) = spec_parse_fn_def(m, 0usize);
        match fr {
            Err(e) => (Err(e), m1),
            Ok(f) => if m1.toks.len() < m.toks.len() {
                spec_parse_struct_methods(m1, acc.push(f))
            } else {
                no_progress(m1)
            },
        }
    } else {
        (Ok(acc), m)
    }
}

/// Parse a struct definition: `struct name:`, an indented run of typed
/// fields, then methods, with blank lines permitted between the sections.
pub open spec fn spec_parse_struct_def(m: StreamModel, indent: usize) -> (Result<
    AstStmtModel,
    ParseErr,
>, StreamModel)
    decreases m.toks.len(), 2int,
{
    let (sr, m1) = spec_eat(m, Token::Struct);
    match sr {
        Err(e) => (Err(e), m1),
        Ok(_) => {
            let (tr, m2) = spec_get_next_token(m1);
            match tr {
                Err(e) => (Err(e), m2),
                Ok((ix, tok)) => if !(tok is Ident) {
                    (Err(ParseErr::ExpectedFnName(ix, spec_src_len(tok@) as usize)), m2)
                } else {
                    let name = AstLiteralModel::Ident(tok@);
                    let (cr, m3) = spec_eat(m2, Token::Colon);
                    match cr {
                        Err(e) => (Err(e), m3),
                        Ok(_) => {
                            let (nr, m4) = spec_eat(m3, Token::Newline);
                            match nr {
                                Err(e) => (Err(e), m4),
                                Ok(_) => {
                                    let (ir, m5) = spec_eat(m4, Token::Indent);
                                    match ir {
                                        Err(e) => (Err(e), m5),
                                        Ok(_) => {
                                            let (fr, m6) = spec_parse_struct_fields(
                                                m5,
                                                Seq::empty(),
                                            );
                                            match fr {
                                                Err(e) => (Err(e), m6),
                                                Ok(fields) => {
                                                    let m7 = spec_skip_newlines(m6);
                                                    if m7.toks.len() < m.toks.len() {
                                                        let (mr, m8) = spec_parse_struct_methods(
                                                            m7,
                                                            Seq::empty(),
                                                        );
                                                        match mr {
                                                            Err(e) => (Err(e), m8),
                                                            Ok(methods) => {
                                                                let m9 = spec_skip_newlines(m8);
                                                                let (der, m10) = spec_eat(
                                                                    m9,
                                                                    Token::Dedent,
                                                                );
                                                                match der {
                                                                    Err(e) => (Err(e), m10),
                                                                    Ok(_) => (
                                                                        Ok(
                                                                            AstStmtModel::StructDef {
                                                                                name,
                                                                                fields,
                                                                                methods,
                                                                            },
                                                                        ),
                                                                        m10,
                                                                    ),
                                                                }
                                                            },
                                                        }
                                                    } else {
                                                        no_progress(m7)
                                                    }
                                                },
                                            }
                                        },
                                    }
                                },
                            }
                        },
                    }
                },
            }
        },
    }
}

/// Parse one statement, dispatching on the leading token: `return`, `def`,
/// `struct`, an assignment, or an expression statement.
pub open spec fn spec_parse_stmt(m: StreamModel, indent: usize) -> (Result<AstStmtModel, ParseErr>, StreamModel)
    decreases m.toks.len(), 6int,
{
    let ctx = ParseContext { can_parse_annotation: true, is_in_paren_block: false };
    if m.toks.len() > 0 && m.toks[0].1 is Return {
        let m1 = StreamModel { toks: m.toks.drop_first(), ..m };
        let (er, m2) = spec_parse_expr(m1, Precedence::Lowest, indent, ctx);
        match er {
            Err(e) => (Err(e), m2),
            Ok(expr) => {
                let (sr, m3) = spec_eat(m2, Token::Semicolon);
                match sr {
                    Err(e) => (Err(e), m3),
                    Ok(_) => (Ok(AstStmtModel::Return(expr)), m3),
                }
            },
        }
    } else if m.toks.len() > 0 && m.toks[0].1 is Def {
        let (fr, m1) = spec_parse_fn_def(m, indent);
        match fr {
            Err(e) => (Err(e), m1),
            Ok(f) => (Ok(AstStmtModel::FnDef(f)), m1),
        }
    } else if m.toks.len() > 0 && m.toks[0].1 is Struct {
        spec_parse_struct_def(m, indent)
    } else {
        let (pr, m1) = spec_parse_primary_expr(m, indent, ctx);
        match pr {
            Err(e) => (Err(e), m1),
            Ok(primary) => {
                let is_assign = m1.toks.len() > 0 && m1.toks[0].1 is Eq;
                if is_assign {
                    let m2 = StreamModel { toks: m1.toks.drop_first(), ..m1 };
                    if m2.toks.len() < m.toks.len() {
                        let (ar, m3) = spec_parse_expr(m2, Precedence::Lowest, indent, ctx);
                        match ar {
                            Err(e) => (Err(e), m3),
                            Ok(assigned) => {
                                let (sr, m4) = spec_eat(m3, Token::Semicolon);
                                match sr {
                                    Err(e) => (Err(e), m4),
                                    Ok(_) => (
                                        Ok(
                                            AstStmtModel::Assignment {
                                                target: primary,
                                                assigned,
                                            },
                                        ),
                                        m4,
                                    ),
                                }
                            },
                        }
                    } else {
                        no_progress(m2)
                    }
                } else {
                    if m1.toks.len() <= m.toks.len() {
                        let (er, m2) = spec_parse_expr_with(
                            primary,
                            m1,
                            Precedence::Lowest,
                            indent,
                            ctx,
                        );
                        match er {
                            Err(e) => (Err(e), m2),
                            Ok(expr) => {
                                let has_semi_next = m2.toks.len() > 0 && m2.toks[0].1 is Semicolon;
                                let m3 = if has_semi_next {
                                    StreamModel { toks: m2.toks.drop_first(), ..m2 }
                                } else {
                                    m2
                                };
                                let has_semi = crate::ast::spec_expr_has_semi(expr, has_semi_next);
                                (Ok(AstStmtModel::Expr { expr, has_semi }), m3)
                            },
                        }
                    } else {
                        no_progress(m1)
                    }
                }
            },
        }
    }
}

/// Parse the statements of one block until a dedent or the end of input,
/// skipping blank lines. At most one statement may be a semicolon-less
/// expression statement, and it must be the last.
pub open spec fn spec_parse_block_items(
    m: StreamModel,
    indent: usize,
    stmts: Seq<AstStmtModel>,
    has_no_semi: bool,
) -> (Result<AstBlockModel, ParseErr>, StreamModel)
    decreases m.toks.len(), 7int,
{
    if m.toks.len() == 0 {
        match m.trailing {
            Some(e) => (Err(ParseErr::LexErr(e)), m),
            None => (
                Ok(AstBlockModel { indent: indent as int, stmts, has_semi: !has_no_semi }),
                m,
            ),
        }
    } else {
        let (ix, tok) = m.toks[0];
        let m1 = StreamModel { toks: m.toks.drop_first(), ..m };
        if tok is Newline {
            spec_parse_block_items(m1, indent, stmts, has_no_semi)
        } else if tok is Indent {
            (Err(ParseErr::UnexpectedIndent(ix, spec_src_len(tok@) as usize, 0)), m1)
        } else if tok is Dedent {
            (
                Ok(AstBlockModel { indent: indent as int, stmts, has_semi: !has_no_semi }),
                m1,
            )
        } else if has_no_semi {
            (Err(ParseErr::UnexpectedStmt(ix, spec_src_len(tok@) as usize)), m)
        } else {
            let (sr, m2) = spec_parse_stmt(m, indent);
            match sr {
                Err(e) => (Err(e), m2),
                Ok(stmt) => {
                    let no_semi = stmt matches AstStmtModel::Expr { has_semi: false, .. };
                    if m2.toks.len() < m.toks.len() {
                        spec_parse_block_items(m2, indent, stmts.push(stmt), no_semi)
                    } else {
                        no_progress(m2)
                    }
                },
            }
        }
    }
}

/// Parse a block at the given indent level.
pub open spec fn spec_parse_block(m: StreamModel, indent: usize) -> (Result<
    AstBlockModel,
    ParseErr,
>, StreamModel)
    decreases m.toks.len(), 8int,
{
    spec_parse_block_items(m, indent, Seq::empty(), false)
}

/// Parse a whole program: its top-level block.
pub open spec fn spec_parse(m: StreamModel) -> Result<AstBlockModel, ParseErr> {
    spec_parse_block(m, 0usize).0
}

/// The buffered token stream the parser consumes: the tokens of one source,
/// in order, and the lex error that ended lexing if one did. One token of
/// lookahead (`peek`) is available.
pub struct TokenStream {
    rev: Vec<(usize, Token)>,
    trailing: Option<LexErr>,
}

impl View for TokenStream {
    type V = StreamModel;

    closed spec fn view(&self) -> StreamModel {
        StreamModel { toks: self.rev@.reverse(), trailing: self.trailing }
    }
}

impl TokenStream {
    /// A stream over the given tokens, ending in the given lex error if
    /// one ended lexing.
    pub fn new(toks: Vec<(usize, Token)>, trailing: Option<LexErr>) -> (r: TokenStream)
        ensures
            r@.toks == toks@,
            r@.trailing == trailing,
    {
        let ghost orig = toks@;
        let mut src = toks;
        let mut rev: Vec<(usize, Token)> = Vec::new();
        proof {
            assert(src@ =~= orig.take(src@.len() as int));
            assert(rev@ =~= orig.skip(src@.len() as int).reverse());
        }
        while src.len() > 0
            invariant
                src@.len() <= orig.len(),
                src@ == orig.take(src@.len() as int),
                rev@ == orig.skip(src@.len() as int).reverse(),
            decreases src@.len(),
        {
            let l = src.len();
            let t = src.pop().unwrap();
            rev.push(t);
            proof {
                assert(t == orig[l - 1]);
                assert(src@ =~= orig.take(l - 1));
                assert(rev@ =~= orig.skip(l - 1).reverse());
            }
        }
        let r = TokenStream { rev, trailing };
        proof {
            assert(r@.toks =~= orig);
        }
        r
    }

    /// Whether a token is available to pull.
    pub fn has_token(&self) -> (r: bool)
        ensures
            r == (self@.toks.len() > 0),
    {
        self.rev.len() > 0
    }

    /// The front token and its offset, without consuming it.
    pub fn peek(&self) -> (t: &(usize, Token))
        requires
            self@.toks.len() > 0,
        ensures
            *t == self@.toks[0],
    {
        &self.rev[self.rev.len() - 1]
    }

    /// Pull the front token and its offset.
    pub fn take_next(&mut self) -> (t: (usize, Token))
        requires
            old(self)@.toks.len() > 0,
        ensures
            t == old(self)@.toks[0],
            final(self)@.toks == old(self)@.toks.drop_first(),
            final(self)@.trailing == old(self)@.trailing,
    {
        let t = self.rev.pop().unwrap();
        proof {
            assert(final(self)@.toks =~= old(self)@.toks.drop_first());
        }
        t
    }

    /// The lex error that ended lexing, if one did.
    pub fn trailing_err(&self) -> (r: Option<LexErr>)
        ensures
            r == self@.trailing,
    {
        self.trailing
    }

    /// How many tokens are left to pull.
    pub fn remaining(&self) -> (r: usize)
        ensures
            r == self@.toks.len(),
    {
        self.rev.len()
    }
}

/// A number telling the variants of a token apart.
spec fn spec_token_kind(t: TokenModel) -> int {
    match t {
        TokenModel::IntLiteral(_) => 0,
        TokenModel::StrLiteral(_) => 1,
        TokenModel::Ident(_) => 2,
        TokenModel::Indent => 3,
        TokenModel::Dedent => 4,
        TokenModel::Newline => 5,
        TokenModel::LParen => 6,
        TokenModel::RParen => 7,
        TokenModel::Add => 8,
        TokenModel::Sub => 9,
        TokenModel::Mul => 10,
        TokenModel::Div => 11,
        TokenModel::AddEq => 12,
        TokenModel::SubEq => 13,
        TokenModel::MulEq => 14,
        TokenModel::DivEq => 15,
        TokenModel::Bang => 16,
        TokenModel::BangEq => 17,
        TokenModel::Eq => 18,
        TokenModel::DoubleEq => 19,
        TokenModel::Not => 20,
        TokenModel::And => 21,
        TokenModel::Or => 22,
        TokenModel::Arrow => 23,
        TokenModel::Colon => 24,
        TokenModel::Semicolon => 25,
        TokenModel::Comma => 26,
        TokenModel::Dot => 27,
        TokenModel::Mut => 28,
        TokenModel::If => 29,
        TokenModel::Else => 30,
        TokenModel::Return => 31,
        TokenModel::Def => 32,
        TokenModel::Struct => 33,
    }
}

/// The kind number of a token.
fn token_kind_of(t: &Token) -> (k: u8)
    ensures
        k == spec_token_kind(t@),
{
    match t {
        Token::IntLiteral(_) => 0,
        Token::StrLiteral(_) => 1,
        Token::Ident(_) => 2,
        Token::Indent => 3,
        Token::Dedent => 4,
        Token::Newline => 5,
        Token::LParen => 6,
        Token::RParen => 7,
        Token::Add => 8,
        Token::Sub => 9,
        Token::Mul => 10,
        Token::Div => 11,
        Token::AddEq => 12,
        Token::SubEq => 13,
        Token::MulEq => 14,
        Token::DivEq => 15,
        Token::Bang => 16,
        Token::BangEq => 17,
        Token::Eq => 18,
        Token::DoubleEq => 19,
        Token::Not => 20,
        Token::And => 21,
        Token::Or => 22,
        Token::Arrow => 23,
        Token::Colon => 24,
        Token::Semicolon => 25,
        Token::Comma => 26,
        Token::Dot => 27,
        Token::Mut => 28,
        Token::If => 29,
        Token::Else => 30,
        Token::Return => 31,
        Token::Def => 32,
        Token::Struct => 33,
    }
}

/// Whether two tokens are equal, including their text.
fn token_eq(a: &Token, b: &Token) -> (r: bool)
    ensures
        r == (a@ == b@),
{
    let ka = token_kind_of(a);
    let kb = token_kind_of(b);
    if ka != kb {
        return false;
    }
    match (a, b) {
        (Token::IntLiteral(x), Token::IntLiteral(y)) => *x == *y,
        (Token::StrLiteral(x), Token::StrLiteral(y)) => *x == *y,
        (Token::Ident(x), Token::Ident(y)) => *x == *y,
        _ => true,
    }
}

/// Pull the next token, wrapping a trailing lex error and reporting end of
/// input. Returns exactly what [`spec_get_next_token`] says.
pub fn get_next_token(tokens: &mut TokenStream) -> (r: Result<(usize, Token), ParseErr>)
    ensures
        ({
            let (mr, m2) = spec_get_next_token(old(tokens)@);
            r == mr && final(tokens)@ == m2
        }),
        final(tokens)@.toks.len() <= old(tokens)@.toks.len(),
        r is Ok ==> final(tokens)@.toks.len() == old(tokens)@.toks.len() - 1,
{
    if tokens.has_token() {
        Ok(tokens.take_next())
    } else {
        match tokens.trailing_err() {
            Some(e) => Err(ParseErr::LexErr(e)),
            None => Err(ParseErr::UnexpectedEnd),
        }
    }
}

/// Pull the next token and demand it equal `expected_type`. Returns exactly
/// what [`spec_eat`] says.
fn eat(tokens: &mut TokenStream, expected_type: Token) -> (r: Result<(), ParseErr>)
    ensures
        ({
            let (mr, m2) = spec_eat(old(tokens)@, expected_type);
            r == mr && final(tokens)@ == m2
        }),
        final(tokens)@.toks.len() <= old(tokens)@.toks.len(),
        r is Ok ==> final(tokens)@.toks.len() == old(tokens)@.toks.len() - 1,
{
    let (ix, tok) = match get_next_token(tokens) {
        Ok(t) => t,
        Err(e) => {
            return Err(e);
        },
    };
    if token_eq(&tok, &expected_type) {
        Ok(())
    } else {
        Err(ParseErr::ExpectedToken(ix, tok.src_len(), expected_type))
    }
}

/// Skip any run of `Newline` tokens. Leaves the stream exactly as
/// [`spec_skip_newlines`] says.
pub fn skip_newlines(tokens: &mut TokenStream)
    ensures
        final(tokens)@ == spec_skip_newlines(old(tokens)@),
        final(tokens)@.toks.len() <= old(tokens)@.toks.len(),
    decreases tokens@.toks.len(),
{
    if tokens.has_token() {
        let is_newline = matches!(&tokens.peek().1, Token::Newline);
        if is_newline {
            let _ = tokens.take_next();
            skip_newlines(tokens);
        }
    }
}

/// Parse a type declaration: an optional `mut` qualifier followed by a
/// named type. Returns exactly what [`spec_parse_type_decl`] says.
fn parse_type_decl(tokens: &mut TokenStream) -> (r: Result<TypeAnnotation, ParseErr>)
    ensures
        ({
            let (mr, m2) = spec_parse_type_decl(old(tokens)@);
            final(tokens)@ == m2 && match (r, mr) {
                (Ok(t), Ok(mt)) => t.deep_view() == mt,
                (Err(e1), Err(e2)) => e1 == e2,
                _ => false,
            }
        }),
        final(tokens)@.toks.len() <= old(tokens)@.toks.len(),
{
    let mut is_mut = false;
    if tokens.has_token() {
        if matches!(&tokens.peek().1, Token::Mut) {
            let _ = tokens.take_next();
            is_mut = true;
        }
    }
    let (ix, tok) = match get_next_token(tokens) {
        Ok(t) => t,
        Err(e) => {
            return Err(e);
        },
    };
    match tok {
        Token::Ident(id) => {
            let ghost id_model = id@;
            let ty = TypeAnnotation::Dynamic(id);
            proof {
                assert(ty.deep_view() == TypeAnnotationModel::Dynamic(id_model));
            }
            if is_mut {
                let wrapped = TypeAnnotation::Mut(Box::new(ty));
                proof {
                    assert(wrapped.deep_view() == TypeAnnotationModel::Mut(
                        Box::new(TypeAnnotationModel::Dynamic(id_model)),
                    ));
                }
                Ok(wrapped)
            } else {
                Ok(ty)
            }
        },
        Token::Mut => Err(ParseErr::UnexpectedMut(ix, tok.src_len())),
        _ => Err(ParseErr::ExpectedTypeAnnotation(ix, tok.src_len())),
    }
}

/// Parse an attribute access after `lhs`: a dot followed by an identifier.
/// Returns exactly what [`spec_parse_attr_access`] says.
fn parse_attr_access(lhs: AstExpr, tokens: &mut TokenStream) -> (r: Result<AttrAccess, ParseErr>)
    ensures
        ({
            let (mr, m2) = spec_parse_attr_access(lhs.deep_view(), old(tokens)@);
            final(tokens)@ == m2 && match (r, mr) {
                (Ok(a), Ok(ma)) => a.deep_view() == ma,
                (Err(e1), Err(e2)) => e1 == e2,
                _ => false,
            }
        }),
        final(tokens)@.toks.len() <= old(tokens)@.toks.len(),
        r is Ok ==> final(tokens)@.toks.len() < old(tokens)@.toks.len(),
{
    let ghost lhs_model = lhs.deep_view();
    match eat(tokens, Token::Dot) {
        Ok(_) => {},
        Err(e) => {
            return Err(e);
        },
    }
    let (ix, attr_tok) = match get_next_token(tokens) {
        Ok(t) => t,
        Err(e) => {
            return Err(e);
        },
    };
    if matches!(attr_tok, Token::Ident(_)) {
        let r = AttrAccess { expr: Box::new(lhs), attribute: AstLiteral::Ident(attr_tok) };
        proof {
            assert(r.deep_view() == (AttrAccessModel {
                expr: Box::new(lhs_model),
                attribute: AstLiteralModel::Ident(r.attribute->Ident_0@),
            }));
        }
        Ok(r)
    } else {
        Err(ParseErr::InvalidExpressionStart(ix, attr_tok.src_len()))
    }
}

/// Parse the typed parameter list of a function definition, up to and
/// including the closing parenthesis. Returns exactly what
/// [`spec_parse_fn_args`] says.
fn parse_fn_args(tokens: &mut TokenStream, args: Vec<AstLiteral>) -> (r: Result<
    Vec<AstLiteral>,
    ParseErr,
>)
    ensures
        ({
            let (mr, m2) = spec_parse_fn_args(old(tokens)@, crate::ast::lits_view(args@));
            final(tokens)@ == m2 && match (r, mr) {
                (Ok(v), Ok(ms)) => crate::ast::lits_view(v@) == ms,
                (Err(e1), Err(e2)) => e1 == e2,
                _ => false,
            }
        }),
        final(tokens)@.toks.len() <= old(tokens)@.toks.len(),
    decreases tokens@.toks.len(),
{
    let mut args = args;
    let starts_ident = tokens.has_token() && matches!(&tokens.peek().1, Token::Ident(_));
    if starts_ident {
        let (_, tok) = tokens.take_next();
        let ghost tok_model = tok@;
        let ty = match parse_annotation(tokens) {
            Ok(t) => t,
            Err(e) => {
                return Err(e);
            },
        };
        let ghost ty_model = ty.deep_view();
        let lit = AstLiteral::TypedIdent { name: tok, type_annotation: ty };
        proof {
            assert(lit.deep_view() == (AstLiteralModel::TypedIdent {
                name: tok_model,
                type_annotation: ty_model,
            }));
            crate::ast::lemma_lits_view_push(args@, lit);
        }
        args.push(lit);
        let has_comma = tokens.has_token() && matches!(&tokens.peek().1, Token::Comma);
        if has_comma {
            let _ = tokens.take_next();
        }
        parse_fn_args(tokens, args)
    } else {
        match eat(tokens, Token::RParen) {
            Ok(_) => Ok(args),
            Err(e) => Err(e),
        }
    }
}

/// Parse the typed field list of a struct definition, extending `fields`.
fn parse_struct_fields_into(tokens: &mut TokenStream, fields: Vec<AstLiteral>) -> (r: Result<
    Vec<AstLiteral>,
    ParseErr,
>)
    ensures
        ({
            let (mr, m2) = spec_parse_struct_fields(old(tokens)@, crate::ast::lits_view(fields@));
            final(tokens)@ == m2 && match (r, mr) {
                (Ok(v), Ok(ms)) => crate::ast::lits_view(v@) == ms,
                (Err(e1), Err(e2)) => e1 == e2,
                _ => false,
            }
        }),
        final(tokens)@.toks.len() <= old(tokens)@.toks.len(),
    decreases tokens@.toks.len(),
{
    let mut fields = fields;
    let starts_ident = tokens.has_token() && matches!(&tokens.peek().1, Token::Ident(_));
    if starts_ident {
        let (_, tok) = tokens.take_next();
        let ghost tok_model = tok@;
        let ty = match parse_annotation(tokens) {
            Ok(t) => t,
            Err(e) => {
                return Err(e);
            },
        };
        let ghost ty_model = ty.deep_view();
        let lit = AstLiteral::TypedIdent { name: tok, type_annotation: ty };
        proof {
            assert(lit.deep_view() == (AstLiteralModel::TypedIdent {
                name: tok_model,
                type_annotation: ty_model,
            }));
            crate::ast::lemma_lits_view_push(fields@, lit);
        }
        fields.push(lit);
        match eat(tokens, Token::Newline) {
            Ok(_) => {},
            Err(e) => {
                return Err(e);
            },
        }
        parse_struct_fields_into(tokens, fields)
    } else {
        Ok(fields)
    }
}

/// Parse a type annotation: a colon followed by a type declaration.
/// Returns exactly what [`spec_parse_annotation`] says.
fn parse_annotation(tokens: &mut TokenStream) -> (r: Result<TypeAnnotation, ParseErr>)
    ensures
        ({
            let (mr, m2) = spec_parse_annotation(old(tokens)@);
            final(tokens)@ == m2 && match (r, mr) {
                (Ok(t), Ok(mt)) => t.deep_view() == mt,
                (Err(e1), Err(e2)) => e1 == e2,
                _ => false,
            }
        }),
        final(tokens)@.toks.len() <= old(tokens)@.toks.len(),
{
    match eat(tokens, Token::Colon) {
        Ok(_) => parse_type_decl(tokens),
        Err(e) => Err(e),
    }
}


/// Parse a primary expression: a parenthesized expression, a conditional,
/// an identifier (possibly typed), or a literal, with its postfix
/// operators. Returns exactly what [`spec_parse_primary_expr`] says.
fn parse_primary_expr(tokens: &mut TokenStream, indent: usize, context: ParseContext) -> (r:
    Result<AstExpr, ParseErr>)
    requires
        indent + old(tokens)@.toks.len() <= usize::MAX,
    ensures
        ({
            let (mr, m2) = spec_parse_primary_expr(old(tokens)@, indent, context);
            final(tokens)@ == m2 && match (r, mr) {
                (Ok(e), Ok(me)) => e.deep_view() == me,
                (Err(e1), Err(e2)) => e1 == e2,
                _ => false,
            }
        }),
        final(tokens)@.toks.len() <= old(tokens)@.toks.len(),
        r is Ok ==> final(tokens)@.toks.len() < old(tokens)@.toks.len(),
    decreases tokens@.toks.len(), 0int,
{
    let (ix, tok) = match get_next_token(tokens) {
        Ok(t) => t,
        Err(e) => {
            return Err(e);
        },
    };
    match tok {
        Token::LParen => parse_expr(tokens, Precedence::Lowest, indent, context),
        Token::If => {
            match parse_conditional(tokens, indent) {
                Ok(c) => {
                    let ghost c_model = c.deep_view();
                    let e = AstExpr::ConditionalExpr(c);
                    proof {
                        assert(e.deep_view() == AstExprModel::ConditionalExpr(c_model));
                    }
                    Ok(e)
                },
                Err(e) => Err(e),
            }
        },
        Token::Ident(_) => {
            let ghost tok_model = tok@;
            let is_typed = context.can_parse_annotation && tokens.has_token() && matches!(
                &tokens.peek().1,
                Token::Colon,
            );
            if is_typed {
                let ty = match parse_annotation(tokens) {
                    Ok(t) => t,
                    Err(e) => {
                        return Err(e);
                    },
                };
                let ghost ty_model = ty.deep_view();
                let lit = AstLiteral::TypedIdent { name: tok, type_annotation: ty };
                let e = AstExpr::LitExpr(lit);
                proof {
                    assert(e.deep_view() == AstExprModel::LitExpr(
                        AstLiteralModel::TypedIdent { name: tok_model, type_annotation: ty_model },
                    ));
                }
                parse_postfix_expr(e, tokens)
            } else {
                let e = AstExpr::LitExpr(AstLiteral::Ident(tok));
                proof {
                    assert(e.deep_view() == AstExprModel::LitExpr(
                        AstLiteralModel::Ident(tok_model),
                    ));
                }
                parse_postfix_expr(e, tokens)
            }
        },
        Token::IntLiteral(_) => {
            let ghost tok_model = tok@;
            let e = AstExpr::LitExpr(AstLiteral::Int(tok));
            proof {
                assert(e.deep_view() == AstExprModel::LitExpr(AstLiteralModel::Int(tok_model)));
            }
            parse_postfix_expr(e, tokens)
        },
        Token::StrLiteral(_) => {
            let ghost tok_model = tok@;
            let e = AstExpr::LitExpr(AstLiteral::Str(tok));
            proof {
                assert(e.deep_view() == AstExprModel::LitExpr(AstLiteralModel::Str(tok_model)));
            }
            parse_postfix_expr(e, tokens)
        },
        _ => Err(ParseErr::InvalidExpressionStart(ix, tok.src_len())),
    }
}

/// Parse a conditional after its `if` token: condition, colon, block, and
/// optional `else` branch. Returns exactly what [`spec_parse_conditional`]
/// says.
fn parse_conditional(tokens: &mut TokenStream, indent: usize) -> (r: Result<
    AstConditional,
    ParseErr,
>)
    requires
        indent + old(tokens)@.toks.len() <= usize::MAX,
    ensures
        ({
            let (mr, m2) = spec_parse_conditional(old(tokens)@, indent);
            final(tokens)@ == m2 && match (r, mr) {
                (Ok(c), Ok(mc)) => c.deep_view() == mc,
                (Err(e1), Err(e2)) => e1 == e2,
                _ => false,
            }
        }),
        final(tokens)@.toks.len() <= old(tokens)@.toks.len(),
    decreases tokens@.toks.len(), 5int,
{
    let ctx = ParseContext::new().without_annotation_parsing();
    let cond_expr = match parse_expr(tokens, Precedence::Lowest, indent, ctx) {
        Ok(e) => e,
        Err(e) => {
            return Err(e);
        },
    };
    let ghost cond_model = cond_expr.deep_view();
    let condition = Box::new(cond_expr);
    let (ix, tok) = match get_next_token(tokens) {
        Ok(t) => t,
        Err(e) => {
            return Err(e);
        },
    };
    if !matches!(tok, Token::Colon) {
        return Err(ParseErr::ExpectedColon(ix, tok.src_len()));
    }
    let has_newline = tokens.has_token() && matches!(&tokens.peek().1, Token::Newline);
    if has_newline {
        let _ = tokens.take_next();
        match eat(tokens, Token::Indent) {
            Ok(_) => {},
            Err(e) => {
                return Err(e);
            },
        }
    }
    let if_block = match parse_block(tokens, indent + 1) {
        Ok(b) => b,
        Err(e) => {
            return Err(e);
        },
    };
    let ghost if_block_model = if_block.deep_view();
    let has_else = tokens.has_token() && matches!(&tokens.peek().1, Token::Else);
    if !has_else {
        let c = AstConditional { condition, if_block, else_block: None };
        proof {
            assert(c.deep_view() == (AstConditionalModel {
                condition: Box::new(cond_model),
                if_block: if_block_model,
                else_block: None,
            }));
        }
        return Ok(c);
    }
    let _ = tokens.take_next();
    let (ix2, tok2) = match get_next_token(tokens) {
        Ok(t) => t,
        Err(e) => {
            return Err(e);
        },
    };
    match tok2 {
        Token::If => {
            let c2 = match parse_conditional(tokens, indent) {
                Ok(c) => c,
                Err(e) => {
                    return Err(e);
                },
            };
            let ghost c2_model = c2.deep_view();
            let else_expr = AstExpr::ConditionalExpr(c2);
            let c = AstConditional {
                condition,
                if_block,
                else_block: Some(Box::new(else_expr)),
            };
            proof {
                assert(c.deep_view() == (AstConditionalModel {
                    condition: Box::new(cond_model),
                    if_block: if_block_model,
                    else_block: Some(Box::new(AstExprModel::ConditionalExpr(c2_model))),
                }));
            }
            Ok(c)
        },
        Token::Colon => {
            match eat(tokens, Token::Newline) {
                Ok(_) => {},
                Err(e) => {
                    return Err(e);
                },
            }
            match eat(tokens, Token::Indent) {
                Ok(_) => {},
                Err(e) => {
                    return Err(e);
                },
            }
            let else_bl = match parse_block(tokens, indent + 1) {
                Ok(b) => b,
                Err(e) => {
                    return Err(e);
                },
            };
            let ghost else_bl_model = else_bl.deep_view();
            let else_expr = AstExpr::BlockExpr(else_bl);
            let c = AstConditional {
                condition,
                if_block,
                else_block: Some(Box::new(else_expr)),
            };
            proof {
                assert(c.deep_view() == (AstConditionalModel {
                    condition: Box::new(cond_model),
                    if_block: if_block_model,
                    else_block: Some(Box::new(AstExprModel::BlockExpr(else_bl_model))),
                }));
            }
            Ok(c)
        },
        _ => Err(ParseErr::ExpectedColon(ix2, tok2.src_len())),
    }
}

/// Parse an expression at the given minimum precedence. Returns exactly
/// what [`spec_parse_expr`] says.
pub fn parse_expr(
    tokens: &mut TokenStream,
    precedence: Precedence,
    indent: usize,
    context: ParseContext,
) -> (r: Result<AstExpr, ParseErr>)
    requires
        indent + old(tokens)@.toks.len() <= usize::MAX,
    ensures
        ({
            let (mr, m2) = spec_parse_expr(old(tokens)@, precedence, indent, context);
            final(tokens)@ == m2 && match (r, mr) {
                (Ok(e), Ok(me)) => e.deep_view() == me,
                (Err(e1), Err(e2)) => e1 == e2,
                _ => false,
            }
        }),
        final(tokens)@.toks.len() <= old(tokens)@.toks.len(),
        r is Ok ==> final(tokens)@.toks.len() < old(tokens)@.toks.len(),
    decreases tokens@.toks.len(), 4int,
{
    let lhs = match parse_primary_expr(tokens, indent, context) {
        Ok(e) => e,
        Err(e) => {
            return Err(e);
        },
    };
    parse_expr_with(lhs, tokens, precedence, indent, context)
}

/// Extend an already-parsed expression with postfix and infix operators.
/// Returns exactly what [`spec_parse_expr_with`] says.
fn parse_expr_with(
    parsed_expr: AstExpr,
    tokens: &mut TokenStream,
    precedence: Precedence,
    indent: usize,
    context: ParseContext,
) -> (r: Result<AstExpr, ParseErr>)
    requires
        indent + old(tokens)@.toks.len() <= usize::MAX,
    ensures
        ({
            let (mr, m2) = spec_parse_expr_with(
                parsed_expr.deep_view(),
                old(tokens)@,
                precedence,
                indent,
                context,
            );
            final(tokens)@ == m2 && match (r, mr) {
                (Ok(e), Ok(me)) => e.deep_view() == me,
                (Err(e1), Err(e2)) => e1 == e2,
                _ => false,
            }
        }),
        final(tokens)@.toks.len() <= old(tokens)@.toks.len(),
    decreases tokens@.toks.len(), 3int,
{
    let lhs = match parse_postfix_expr(parsed_expr, tokens) {
        Ok(e) => e,
        Err(e) => {
            return Err(e);
        },
    };
    parse_expr_loop(lhs, tokens, precedence, indent, context)
}

/// Absorb infix operators into `lhs` while their precedence allows, taking
/// up postfix operators on every way out. Returns exactly what
/// [`spec_parse_expr_loop`] says.
fn parse_expr_loop(
    lhs: AstExpr,
    tokens: &mut TokenStream,
    precedence: Precedence,
    indent: usize,
    context: ParseContext,
) -> (r: Result<AstExpr, ParseErr>)
    requires
        indent + old(tokens)@.toks.len() <= usize::MAX,
    ensures
        ({
            let (mr, m2) = spec_parse_expr_loop(
                lhs.deep_view(),
                old(tokens)@,
                precedence,
                indent,
                context,
            );
            final(tokens)@ == m2 && match (r, mr) {
                (Ok(e), Ok(me)) => e.deep_view() == me,
                (Err(e1), Err(e2)) => e1 == e2,
                _ => false,
            }
        }),
        final(tokens)@.toks.len() <= old(tokens)@.toks.len(),
    decreases tokens@.toks.len(), 2int,
{
    if !tokens.has_token() {
        return parse_postfix_expr(lhs, tokens);
    }
    if matches!(&tokens.peek().1, Token::Semicolon) {
        return parse_postfix_expr(lhs, tokens);
    }
    if matches!(&tokens.peek().1, Token::RParen) {
        if !context.is_in_paren_block {
            let _ = tokens.take_next();
        }
        return parse_postfix_expr(lhs, tokens);
    }
    let op_opt = tokens.peek().1.as_operator();
    match op_opt {
        None => parse_postfix_expr(lhs, tokens),
        Some(op) => {
            let encountered_precedence = op.precedence();
            if encountered_precedence.is_below(precedence) {
                return parse_postfix_expr(lhs, tokens);
            }
            let _ = tokens.take_next();
            let ghost lhs_model = lhs.deep_view();
            let rhs = match parse_expr(tokens, encountered_precedence, indent, context) {
                Ok(e) => e,
                Err(e) => {
                    return Err(e);
                },
            };
            let ghost rhs_model = rhs.deep_view();
            let combined = AstExpr::BinExpr(
                AstBinExpr { op, l: Box::new(lhs), r: Box::new(rhs) },
            );
            proof {
                assert(combined.deep_view() == AstExprModel::BinExpr(
                    AstBinExprModel {
                        op,
                        l: Box::new(lhs_model),
                        r: Box::new(rhs_model),
                    },
                ));
            }
            let lhs2 = match parse_postfix_expr(combined, tokens) {
                Ok(e) => e,
                Err(e) => {
                    return Err(e);
                },
            };
            parse_expr_loop(lhs2, tokens, precedence, indent, context)
        },
    }
}

/// Greedily absorb postfix operators into `lhs`: calls and attribute
/// accesses. Returns exactly what [`spec_parse_postfix_expr`] says.
fn parse_postfix_expr(lhs: AstExpr, tokens: &mut TokenStream) -> (r: Result<AstExpr, ParseErr>)
    requires
        old(tokens)@.toks.len() <= usize::MAX,
    ensures
        ({
            let (mr, m2) = spec_parse_postfix_expr(lhs.deep_view(), old(tokens)@);
            final(tokens)@ == m2 && match (r, mr) {
                (Ok(e), Ok(me)) => e.deep_view() == me,
                (Err(e1), Err(e2)) => e1 == e2,
                _ => false,
            }
        }),
        final(tokens)@.toks.len() <= old(tokens)@.toks.len(),
    decreases tokens@.toks.len(), 1int,
{
    let is_lparen = tokens.has_token() && matches!(&tokens.peek().1, Token::LParen);
    if is_lparen {
        match parse_call_expr(lhs, tokens) {
            Ok(c) => {
                let ghost c_model = c.deep_view();
                let e = AstExpr::CallExpr(c);
                proof {
                    assert(e.deep_view() == AstExprModel::CallExpr(c_model));
                }
                parse_postfix_expr(e, tokens)
            },
            Err(e) => Err(e),
        }
    } else {
        let is_dot = tokens.has_token() && matches!(&tokens.peek().1, Token::Dot);
        if is_dot {
            match parse_attr_access(lhs, tokens) {
                Ok(a) => {
                    let ghost a_model = a.deep_view();
                    let e = AstExpr::AttrExpr(a);
                    proof {
                        assert(e.deep_view() == AstExprModel::AttrExpr(a_model));
                    }
                    parse_postfix_expr(e, tokens)
                },
                Err(e) => Err(e),
            }
        } else {
            Ok(lhs)
        }
    }
}

/// Parse a call expression on `fn_expr`: its parenthesized, possibly
/// vertical, argument list. Returns exactly what [`spec_parse_call_expr`]
/// says.
fn parse_call_expr(fn_expr: AstExpr, tokens: &mut TokenStream) -> (r: Result<AstCallExpr, ParseErr>)
    requires
        old(tokens)@.toks.len() <= usize::MAX,
    ensures
        ({
            let (mr, m2) = spec_parse_call_expr(fn_expr.deep_view(), old(tokens)@);
            final(tokens)@ == m2 && match (r, mr) {
                (Ok(c), Ok(mc)) => c.deep_view() == mc,
                (Err(e1), Err(e2)) => e1 == e2,
                _ => false,
            }
        }),
        final(tokens)@.toks.len() <= old(tokens)@.toks.len(),
        r is Ok ==> final(tokens)@.toks.len() < old(tokens)@.toks.len(),
    decreases tokens@.toks.len(), 0int,
{
    let ghost fn_model = fn_expr.deep_view();
    match eat(tokens, Token::LParen) {
        Ok(_) => {},
        Err(e) => {
            return Err(e);
        },
    }
    let is_vertical = tokens.has_token() && matches!(&tokens.peek().1, Token::Newline);
    if is_vertical {
        let _ = tokens.take_next();
        match eat(tokens, Token::Indent) {
            Ok(_) => {},
            Err(e) => {
                return Err(e);
            },
        }
    }
    let empty_args: Vec<CallArg> = Vec::new();
    proof {
        assert(crate::ast::args_view(empty_args@) =~= Seq::<CallArgModel>::empty());
    }
    let call_args = match parse_call_args(tokens, is_vertical, empty_args) {
        Ok(a) => a,
        Err(e) => {
            return Err(e);
        },
    };
    if is_vertical {
        match eat(tokens, Token::Dedent) {
            Ok(_) => {},
            Err(e) => {
                return Err(e);
            },
        }
    }
    match eat(tokens, Token::RParen) {
        Ok(_) => {},
        Err(e) => {
            return Err(e);
        },
    }
    let ghost args_model = crate::ast::args_view(call_args@);
    let c = AstCallExpr { called_expr: Box::new(fn_expr), args: call_args };
    proof {
        assert(c.deep_view() == (AstCallExprModel {
            called_expr: Box::new(fn_model),
            args: args_model,
        }));
    }
    Ok(c)
}

/// Parse a call's argument list after the opening parenthesis. Returns
/// exactly what [`spec_parse_call_args`] says.
fn parse_call_args(tokens: &mut TokenStream, is_vertical: bool, args: Vec<CallArg>) -> (r: Result<
    Vec<CallArg>,
    ParseErr,
>)
    requires
        old(tokens)@.toks.len() <= usize::MAX,
    ensures
        ({
            let (mr, m2) = spec_parse_call_args(
                old(tokens)@,
                is_vertical,
                crate::ast::args_view(args@),
            );
            final(tokens)@ == m2 && match (r, mr) {
                (Ok(v), Ok(ms)) => crate::ast::args_view(v@) == ms,
                (Err(e1), Err(e2)) => e1 == e2,
                _ => false,
            }
        }),
        final(tokens)@.toks.len() <= old(tokens)@.toks.len(),
    decreases tokens@.toks.len(), 5int,
{
    let ghost m_entry = tokens@;
    let mut args = args;
    let stop = tokens.has_token() && (matches!(&tokens.peek().1, Token::RParen) || matches!(
        &tokens.peek().1,
        Token::Dedent,
    ));
    if stop {
        return Ok(args);
    }
    let ctx = ParseContext::new().entering_parens();
    let expr = match parse_expr(tokens, Precedence::Lowest, 0, ctx) {
        Ok(e) => e,
        Err(e) => {
            return Err(e);
        },
    };
    let is_named = matches!(expr, AstExpr::LitExpr(_)) && tokens.has_token() && matches!(
        &tokens.peek().1,
        Token::Eq,
    );
    if is_named {
        match eat(tokens, Token::Eq) {
            Ok(_) => {},
            Err(e) => {
                return Err(e);
            },
        }
        let expr2 = match parse_expr(tokens, Precedence::Lowest, 0, ctx) {
            Ok(e) => e,
            Err(e) => {
                return Err(e);
            },
        };
        let arg = CallArg { name: Some(expr), expr: expr2 };
        proof {
            crate::ast::lemma_args_view_push(args@, arg);
        }
        args.push(arg);
        parse_call_args_tail(tokens, is_vertical, args, Ghost(m_entry))
    } else {
        let arg = CallArg { name: None, expr };
        proof {
            crate::ast::lemma_args_view_push(args@, arg);
        }
        args.push(arg);
        parse_call_args_tail(tokens, is_vertical, args, Ghost(m_entry))
    }
}

/// After one parsed argument: stop unless a comma follows; consume the
/// comma (and, vertically, the newline) and go on. Returns exactly what
/// [`spec_call_args_tail`] says.
fn parse_call_args_tail(
    tokens: &mut TokenStream,
    is_vertical: bool,
    args: Vec<CallArg>,
    Ghost(m_entry): Ghost<StreamModel>,
) -> (r: Result<Vec<CallArg>, ParseErr>)
    requires
        old(tokens)@.toks.len() <= m_entry.toks.len(),
        m_entry.toks.len() <= usize::MAX,
    ensures
        ({
            let (mr, m2) = spec_call_args_tail(
                m_entry,
                old(tokens)@,
                is_vertical,
                crate::ast::args_view(args@),
            );
            final(tokens)@ == m2 && match (r, mr) {
                (Ok(v), Ok(ms)) => crate::ast::args_view(v@) == ms,
                (Err(e1), Err(e2)) => e1 == e2,
                _ => false,
            }
        }),
        final(tokens)@.toks.len() <= old(tokens)@.toks.len(),
    decreases m_entry.toks.len(), 4int,
{
    let has_comma = tokens.has_token() && matches!(&tokens.peek().1, Token::Comma);
    if !has_comma {
        return Ok(args);
    }
    match eat(tokens, Token::Comma) {
        Ok(_) => {},
        Err(e) => {
            return Err(e);
        },
    }
    if is_vertical {
        match eat(tokens, Token::Newline) {
            Ok(_) => {},
            Err(e) => {
                return Err(e);
            },
        }
    }
    parse_call_args(tokens, is_vertical, args)
}


/// Parse one statement, dispatching on the leading token. Returns exactly
/// what [`spec_parse_stmt`] says.
pub fn parse_stmt(tokens: &mut TokenStream, indent: usize) -> (r: Result<AstStmt, ParseErr>)
    requires
        indent + old(tokens)@.toks.len() <= usize::MAX,
    ensures
        ({
            let (mr, m2) = spec_parse_stmt(old(tokens)@, indent);
            final(tokens)@ == m2 && match (r, mr) {
                (Ok(s), Ok(ms)) => s.deep_view() == ms,
                (Err(e1), Err(e2)) => e1 == e2,
                _ => false,
            }
        }),
        final(tokens)@.toks.len() <= old(tokens)@.toks.len(),
        r is Ok ==> final(tokens)@.toks.len() < old(tokens)@.toks.len(),
    decreases tokens@.toks.len(), 6int,
{
    let context = ParseContext::new();
    if tokens.has_token() && matches!(&tokens.peek().1, Token::Return) {
        let _ = tokens.take_next();
        let expr = match parse_expr(tokens, Precedence::Lowest, indent, context) {
            Ok(e) => e,
            Err(e) => {
                return Err(e);
            },
        };
        match eat(tokens, Token::Semicolon) {
            Ok(_) => {},
            Err(e) => {
                return Err(e);
            },
        }
        let ghost expr_model = expr.deep_view();
        let s = AstStmt::Return(expr);
        proof {
            assert(s.deep_view() == AstStmtModel::Return(expr_model));
        }
        return Ok(s);
    }
    if tokens.has_token() && matches!(&tokens.peek().1, Token::Def) {
        let f = match parse_fn_def(tokens, indent) {
            Ok(f) => f,
            Err(e) => {
                return Err(e);
            },
        };
        let ghost f_model = f.deep_view();
        let s = AstStmt::FnDef(f);
        proof {
            assert(s.deep_view() == AstStmtModel::FnDef(f_model));
        }
        return Ok(s);
    }
    if tokens.has_token() && matches!(&tokens.peek().1, Token::Struct) {
        return parse_struct_def(tokens, indent);
    }
    let primary_expr = match parse_primary_expr(tokens, indent, context) {
        Ok(e) => e,
        Err(e) => {
            return Err(e);
        },
    };
    let is_assign = tokens.has_token() && matches!(&tokens.peek().1, Token::Eq);
    if is_assign {
        let _ = tokens.take_next();
        let to_assign = match parse_expr(tokens, Precedence::Lowest, indent, context) {
            Ok(e) => e,
            Err(e) => {
                return Err(e);
            },
        };
        match eat(tokens, Token::Semicolon) {
            Ok(_) => {},
            Err(e) => {
                return Err(e);
            },
        }
        let ghost target_model = primary_expr.deep_view();
        let ghost assigned_model = to_assign.deep_view();
        let s = AstStmt::Assignment { target: primary_expr, assigned: to_assign };
        proof {
            assert(s.deep_view() == (AstStmtModel::Assignment {
                target: target_model,
                assigned: assigned_model,
            }));
        }
        return Ok(s);
    }
    let expr = match parse_expr_with(primary_expr, tokens, Precedence::Lowest, indent, context) {
        Ok(e) => e,
        Err(e) => {
            return Err(e);
        },
    };
    let has_semi_next = tokens.has_token() && matches!(&tokens.peek().1, Token::Semicolon);
    if has_semi_next {
        let _ = tokens.take_next();
    }
    let has_semi = crate::ast::expr_has_semi(&expr, has_semi_next);
    let ghost expr_model = expr.deep_view();
    let s = AstStmt::Expr { expr, has_semi };
    proof {
        assert(s.deep_view() == (AstStmtModel::Expr { expr: expr_model, has_semi }));
    }
    Ok(s)
}

/// Parse the statements of one block until a dedent or the end of input.
/// Returns exactly what [`spec_parse_block_items`] says.
fn parse_block_items(
    tokens: &mut TokenStream,
    indent: usize,
    stmts: Vec<AstStmt>,
    has_no_semi: bool,
) -> (r: Result<AstBlock, ParseErr>)
    requires
        indent + old(tokens)@.toks.len() <= usize::MAX,
    ensures
        ({
            let (mr, m2) = spec_parse_block_items(
                old(tokens)@,
                indent,
                crate::ast::stmts_view(stmts@),
                has_no_semi,
            );
            final(tokens)@ == m2 && match (r, mr) {
                (Ok(b), Ok(mb)) => b.deep_view() == mb,
                (Err(e1), Err(e2)) => e1 == e2,
                _ => false,
            }
        }),
        final(tokens)@.toks.len() <= old(tokens)@.toks.len(),
    decreases tokens@.toks.len(), 7int,
{
    let mut stmts = stmts;
    if !tokens.has_token() {
        match tokens.trailing_err() {
            Some(e) => {
                return Err(ParseErr::LexErr(e));
            },
            None => {
                let b = AstBlock { indent, stmts, has_semi: !has_no_semi };
                return Ok(b);
            },
        }
    }
    if matches!(&tokens.peek().1, Token::Newline) {
        let _ = tokens.take_next();
        return parse_block_items(tokens, indent, stmts, has_no_semi);
    }
    if matches!(&tokens.peek().1, Token::Indent) {
        let (ix, tok) = tokens.take_next();
        return Err(ParseErr::UnexpectedIndent(ix, tok.src_len(), 0));
    }
    if matches!(&tokens.peek().1, Token::Dedent) {
        let _ = tokens.take_next();
        let b = AstBlock { indent, stmts, has_semi: !has_no_semi };
        return Ok(b);
    }
    if has_no_semi {
        let t = tokens.peek();
        return Err(ParseErr::UnexpectedStmt(t.0, t.1.src_len()));
    }
    let stmt = match parse_stmt(tokens, indent) {
        Ok(s) => s,
        Err(e) => {
            return Err(e);
        },
    };
    let no_semi = matches!(stmt, AstStmt::Expr { has_semi: false, .. });
    proof {
        crate::ast::lemma_stmts_view_push(stmts@, stmt);
    }
    stmts.push(stmt);
    parse_block_items(tokens, indent, stmts, no_semi)
}

/// Parse a block at the given indent level: statements until a dedent or
/// the end of input, skipping blank lines, with at most one semicolon-less
/// tail expression, which must come last. Returns exactly what
/// [`spec_parse_block`] says.
pub fn parse_block(tokens: &mut TokenStream, indent: usize) -> (r: Result<AstBlock, ParseErr>)
    requires
        indent + old(tokens)@.toks.len() <= usize::MAX,
    ensures
        ({
            let (mr, m2) = spec_parse_block(old(tokens)@, indent);
            final(tokens)@ == m2 && match (r, mr) {
                (Ok(b), Ok(mb)) => b.deep_view() == mb,
                (Err(e1), Err(e2)) => e1 == e2,
                _ => false,
            }
        }),
        final(tokens)@.toks.len() <= old(tokens)@.toks.len(),
    decreases tokens@.toks.len(), 8int,
{
    let stmts: Vec<AstStmt> = Vec::new();
    proof {
        assert(crate::ast::stmts_view(stmts@) =~= Seq::<AstStmtModel>::empty());
    }
    parse_block_items(tokens, indent, stmts, false)
}

/// Parse a function definition: `def name(params) -> type:` and an
/// indented body. Returns exactly what [`spec_parse_fn_def`] says.
pub fn parse_fn_def(tokens: &mut TokenStream, indent: usize) -> (r: Result<FnDef, ParseErr>)
    requires
        indent + old(tokens)@.toks.len() <= usize::MAX,
    ensures
        ({
            let (mr, m2) = spec_parse_fn_def(old(tokens)@, indent);
            final(tokens)@ == m2 && match (r, mr) {
                (Ok(f), Ok(mf)) => f.deep_view() == mf,
                (Err(e1), Err(e2)) => e1 == e2,
                _ => false,
            }
        }),
        final(tokens)@.toks.len() <= old(tokens)@.toks.len(),
        r is Ok ==> final(tokens)@.toks.len() < old(tokens)@.toks.len(),
    decreases tokens@.toks.len(), 0int,
{
    match eat(tokens, Token::Def) {
        Ok(_) => {},
        Err(e) => {
            return Err(e);
        },
    }
    let (ix, fn_name) = match get_next_token(tokens) {
        Ok(t) => t,
        Err(e) => {
            return Err(e);
        },
    };
    if !matches!(fn_name, Token::Ident(_)) {
        return Err(ParseErr::ExpectedFnName(ix, fn_name.src_len()));
    }
    let ghost name_model = fn_name@;
    let name = AstLiteral::Ident(fn_name);
    match eat(tokens, Token::LParen) {
        Ok(_) => {},
        Err(e) => {
            return Err(e);
        },
    }
    let empty_args: Vec<AstLiteral> = Vec::new();
    proof {
        assert(crate::ast::lits_view(empty_args@) =~= Seq::<AstLiteralModel>::empty());
    }
    let args = match parse_fn_args(tokens, empty_args) {
        Ok(a) => a,
        Err(e) => {
            return Err(e);
        },
    };
    match eat(tokens, Token::Arrow) {
        Ok(_) => {},
        Err(e) => {
            return Err(e);
        },
    }
    let return_type = match parse_type_decl(tokens) {
        Ok(t) => t,
        Err(e) => {
            return Err(e);
        },
    };
    match eat(tokens, Token::Colon) {
        Ok(_) => {},
        Err(e) => {
            return Err(e);
        },
    }
    match eat(tokens, Token::Newline) {
        Ok(_) => {},
        Err(e) => {
            return Err(e);
        },
    }
    match eat(tokens, Token::Indent) {
        Ok(_) => {},
        Err(e) => {
            return Err(e);
        },
    }
    let body = match parse_block(tokens, indent + 1) {
        Ok(b) => b,
        Err(e) => {
            return Err(e);
        },
    };
    let ghost args_model = crate::ast::lits_view(args@);
    let ghost body_model = body.deep_view();
    let ghost rt_model = return_type.deep_view();
    let f = FnDef { name, args, body, return_type };
    proof {
        assert(f.deep_view() == (FnDefModel {
            name: AstLiteralModel::Ident(name_model),
            args: args_model,
            body: body_model,
            return_type: rt_model,
        }));
    }
    Ok(f)
}

/// Parse the methods of a struct definition, extending `methods`.
fn parse_struct_methods_into(tokens: &mut TokenStream, methods: Vec<FnDef>) -> (r: Result<
    Vec<FnDef>,
    ParseErr,
>)
    requires
        old(tokens)@.toks.len() <= usize::MAX,
    ensures
        ({
            let (mr, m2) = spec_parse_struct_methods(old(tokens)@, crate::ast::fns_view(methods@));
            final(tokens)@ == m2 && match (r, mr) {
                (Ok(v), Ok(ms)) => crate::ast::fns_view(v@) == ms,
                (Err(e1), Err(e2)) => e1 == e2,
                _ => false,
            }
        }),
        final(tokens)@.toks.len() <= old(tokens)@.toks.len(),
    decreases tokens@.toks.len(), 1int,
{
    let mut methods = methods;
    if tokens.has_token() && matches!(&tokens.peek().1, Token::Def) {
        let f = match parse_fn_def(tokens, 0) {
            Ok(f) => f,
            Err(e) => {
                return Err(e);
            },
        };
        proof {
            crate::ast::lemma_fns_view_push(methods@, f);
        }
        methods.push(f);
        parse_struct_methods_into(tokens, methods)
    } else {
        Ok(methods)
    }
}

/// Parse the typed field list of a struct definition: `name: type` lines.
/// Returns exactly what [`spec_parse_struct_fields`] says, starting from
/// no fields.
pub fn parse_struct_fields(tokens: &mut TokenStream) -> (r: Result<Vec<AstLiteral>, ParseErr>)
    ensures
        ({
            let (mr, m2) = spec_parse_struct_fields(old(tokens)@, Seq::empty());
            final(tokens)@ == m2 && match (r, mr) {
                (Ok(v), Ok(ms)) => crate::ast::lits_view(v@) == ms,
                (Err(e1), Err(e2)) => e1 == e2,
                _ => false,
            }
        }),
        final(tokens)@.toks.len() <= old(tokens)@.toks.len(),
{
    let fields: Vec<AstLiteral> = Vec::new();
    proof {
        assert(crate::ast::lits_view(fields@) =~= Seq::<AstLiteralModel>::empty());
    }
    parse_struct_fields_into(tokens, fields)
}

/// Parse the methods of a struct definition: zero or more function
/// definitions. Returns exactly what [`spec_parse_struct_methods`] says,
/// starting from no methods.
pub fn parse_struct_methods(tokens: &mut TokenStream) -> (r: Result<Vec<FnDef>, ParseErr>)
    requires
        old(tokens)@.toks.len() <= usize::MAX,
    ensures
        ({
            let (mr, m2) = spec_parse_struct_methods(old(tokens)@, Seq::empty());
            final(tokens)@ == m2 && match (r, mr) {
                (Ok(v), Ok(ms)) => crate::ast::fns_view(v@) == ms,
                (Err(e1), Err(e2)) => e1 == e2,
                _ => false,
            }
        }),
        final(tokens)@.toks.len() <= old(tokens)@.toks.len(),
{
    let methods: Vec<FnDef> = Vec::new();
    proof {
        assert(crate::ast::fns_view(methods@) =~= Seq::<FnDefModel>::empty());
    }
    parse_struct_methods_into(tokens, methods)
}

/// Parse a struct definition: `struct name:`, indented typed fields, then
/// methods. Returns exactly what [`spec_parse_struct_def`] says.
pub fn parse_struct_def(tokens: &mut TokenStream, indent: usize) -> (r: Result<AstStmt, ParseErr>)
    requires
        old(tokens)@.toks.len() <= usize::MAX,
    ensures
        ({
            let (mr, m2) = spec_parse_struct_def(old(tokens)@, indent);
            final(tokens)@ == m2 && match (r, mr) {
                (Ok(s), Ok(ms)) => s.deep_view() == ms,
                (Err(e1), Err(e2)) => e1 == e2,
                _ => false,
            }
        }),
        final(tokens)@.toks.len() <= old(tokens)@.toks.len(),
        r is Ok ==> final(tokens)@.toks.len() < old(tokens)@.toks.len(),
    decreases tokens@.toks.len(), 2int,
{
    match eat(tokens, Token::Struct) {
        Ok(_) => {},
        Err(e) => {
            return Err(e);
        },
    }
    let (ix, struct_name) = match get_next_token(tokens) {
        Ok(t) => t,
        Err(e) => {
            return Err(e);
        },
    };
    if !matches!(struct_name, Token::Ident(_)) {
        return Err(ParseErr::ExpectedFnName(ix, struct_name.src_len()));
    }
    let ghost name_model = struct_name@;
    let name = AstLiteral::Ident(struct_name);
    match eat(tokens, Token::Colon) {
        Ok(_) => {},
        Err(e) => {
            return Err(e);
        },
    }
    match eat(tokens, Token::Newline) {
        Ok(_) => {},
        Err(e) => {
            return Err(e);
        },
    }
    match eat(tokens, Token::Indent) {
        Ok(_) => {},
        Err(e) => {
            return Err(e);
        },
    }
    let empty_fields: Vec<AstLiteral> = Vec::new();
    proof {
        assert(crate::ast::lits_view(empty_fields@) =~= Seq::<AstLiteralModel>::empty());
    }
    let fields = match parse_struct_fields_into(tokens, empty_fields) {
        Ok(f) => f,
        Err(e) => {
            return Err(e);
        },
    };
    skip_newlines(tokens);
    let empty_methods: Vec<FnDef> = Vec::new();
    proof {
        assert(crate::ast::fns_view(empty_methods@) =~= Seq::<FnDefModel>::empty());
    }
    let methods = match parse_struct_methods_into(tokens, empty_methods) {
        Ok(m) => m,
        Err(e) => {
            return Err(e);
        },
    };
    skip_newlines(tokens);
    match eat(tokens, Token::Dedent) {
        Ok(_) => {},
        Err(e) => {
            return Err(e);
        },
    }
    let ghost fields_model = crate::ast::lits_view(fields@);
    let ghost methods_model = crate::ast::fns_view(methods@);
    let s = AstStmt::StructDef { name, fields, methods };
    proof {
        assert(s.deep_view() == (AstStmtModel::StructDef {
            name: AstLiteralModel::Ident(name_model),
            fields: fields_model,
            methods: methods_model,
        }));
    }
    Ok(s)
}

/// Parse a whole program: its top-level block, at indent level zero.
/// Returns exactly what [`spec_parse`] says.
pub fn parse(tokens: TokenStream) -> (r: Result<AstBlock, ParseErr>)
    ensures
        match (r, spec_parse(tokens@)) {
            (Ok(b), Ok(mb)) => b.deep_view() == mb,
            (Err(e1), Err(e2)) => e1 == e2,
            _ => false,
        },
{
    let mut tokens = tokens;
    let _ = tokens.remaining();
    parse_block(&mut tokens, 0)
}


/// Scan a whole source into a token stream: all its tokens in order, and
/// the first lex error if one ended scanning. The stream holds exactly the
/// tokens of the model run [`lex_all`] from the start of the source.
pub fn tokenize(src: &str) -> (r: TokenStream)
    ensures
        ({
            let (mtoks, merr) = crate::lexer::lex_all(crate::lexer::init_state(src@));
            &&& r@.trailing == merr
            &&& r@.toks.len() == mtoks.len()
            &&& forall|i: int|
                0 <= i < mtoks.len() ==> #[trigger] r@.toks[i].0 as int == mtoks[i].0
                    && r@.toks[i].1@ == mtoks[i].1
        }),
{
    let ghost init = crate::lexer::init_state(src@);
    let mut lexer = crate::lexer::Lexer::new(src);
    let mut toks: Vec<(usize, Token)> = Vec::new();
    let mut trailing: Option<LexErr> = None;
    loop
        invariant_except_break
            trailing is None,
            ({
                let (mtoks, merr) = crate::lexer::lex_all(init);
                let (rest, rerr) = crate::lexer::lex_all(lexer@);
                &&& merr == rerr
                &&& mtoks.len() == toks@.len() + rest.len()
                &&& forall|j: int|
                    0 <= j < rest.len() ==> #[trigger] mtoks[toks@.len() + j] == rest[j]
            }),
        invariant
            lexer.wf(),
            ({
                let (mtoks, merr) = crate::lexer::lex_all(init);
                &&& toks@.len() <= mtoks.len()
                &&& forall|i: int|
                    0 <= i < toks@.len() ==> #[trigger] toks@[i].0 as int == mtoks[i].0
                        && toks@[i].1@ == mtoks[i].1
            }),
        ensures
            ({
                let (mtoks, merr) = crate::lexer::lex_all(init);
                &&& mtoks.len() == toks@.len()
                &&& merr == trailing
            }),
        decreases lexer@.chars.len() - lexer@.pos, lexer@.indent_level,
    {
        let ghost pre = lexer@;
        proof {
            crate::lexer::lemma_lex_next_progress(pre);
        }
        match lexer.next() {
            None => {
                proof {
                    let (rest_pre, rerr_pre) = crate::lexer::lex_all(pre);
                    assert(rest_pre =~= Seq::<(int, TokenModel)>::empty());
                }
                break;
            },
            Some(Err(e)) => {
                proof {
                    let (rest_pre, rerr_pre) = crate::lexer::lex_all(pre);
                    assert(rest_pre =~= Seq::<(int, TokenModel)>::empty());
                }
                trailing = Some(e);
                break;
            },
            Some(Ok(t)) => {
                let ghost n0 = toks@.len() as int;
                proof {
                    let (st2, rmo) = crate::lexer::lex_next(pre);
                    let (mtoks, merr) = crate::lexer::lex_all(init);
                    let (rest_pre, rerr_pre) = crate::lexer::lex_all(pre);
                    let (rest_post, rerr_post) = crate::lexer::lex_all(st2);
                    let mt = rmo->Some_0->Ok_0;
                    assert(rest_pre =~= seq![mt] + rest_post);
                    assert(rest_pre[0] == mt);
                    assert(mtoks[n0 + 0] == rest_pre[0]);
                    assert(mtoks[n0] == mt);
                    assert(t.0 as int == mt.0 && t.1@ == mt.1);
                    assert forall|j: int| 0 <= j < rest_post.len() implies mtoks[n0 + 1 + j]
                        == rest_post[j] by {
                        assert(mtoks[n0 + (j + 1)] == rest_pre[j + 1]);
                        assert(rest_pre[j + 1] == (seq![mt] + rest_post)[j + 1]);
                    }
                }
                let ghost pre_toks = toks@;
                toks.push(t);
                proof {
                    let (mtoks, merr) = crate::lexer::lex_all(init);
                    assert forall|i: int| 0 <= i < toks@.len() implies #[trigger] toks@[i].0 as int
                        == mtoks[i].0 && toks@[i].1@ == mtoks[i].1 by {
                        if i == n0 {
                            assert(toks@[i] == t);
                        } else {
                            assert(toks@[i] == pre_toks[i]);
                            assert(pre_toks[i].0 as int == mtoks[i].0 && pre_toks[i].1@
                                == mtoks[i].1);
                        }
                    }
                }
            },
        }
    }
    let r = TokenStream::new(toks, trailing);
    r
}


/// The token stream `a OP1 b OP2 c`, with nothing after it.
pub open spec fn three_chain(
    a: Token,
    t1: Token,
    b: Token,
    t2: Token,
    c: Token,
) -> StreamModel {
    StreamModel {
        toks: seq![(0usize, a), (1usize, t1), (2usize, b), (3usize, t2), (4usize, c)],
        trailing: None,
    }
}

/// A literal-identifier expression node.
pub open spec fn ident_expr(t: Token) -> AstExprModel {
    AstExprModel::LitExpr(AstLiteralModel::Ident(t@))
}

/// A binary expression node.
pub open spec fn bin_expr(l: AstExprModel, op: Operator, r: AstExprModel) -> AstExprModel {
    AstExprModel::BinExpr(AstBinExprModel { op, l: Box::new(l), r: Box::new(r) })
}

/// Precedence invariant, right half: in a chain `a OP1 b OP2 c` where the
/// second operator binds at least as tightly as the first — in particular
/// whenever both sit on the same precedence level — the chain groups to
/// the right, as `a OP1 (b OP2 c)`. Equal-precedence operators therefore
/// associate right-to-left.
pub proof fn lemma_chain_groups_right(a: Token, t1: Token, b: Token, t2: Token, c: Token, o1: Operator, o2: Operator)
    requires
        a is Ident,
        b is Ident,
        c is Ident,
        spec_as_operator(t1@) == Some(o1),
        spec_as_operator(t2@) == Some(o2),
        precedence_rank(spec_precedence(o2)) >= precedence_rank(spec_precedence(o1)),
    ensures
        ({
            let ctx = ParseContext { can_parse_annotation: true, is_in_paren_block: false };
            spec_parse_expr(three_chain(a, t1, b, t2, c), Precedence::Lowest, 0, ctx).0
                == Ok::<AstExprModel, ParseErr>(
                bin_expr(ident_expr(a), o1, bin_expr(ident_expr(b), o2, ident_expr(c))),
            )
        }),
{
    let ctx = ParseContext { can_parse_annotation: true, is_in_paren_block: false };
    let m0 = three_chain(a, t1, b, t2, c);
    let m1 = StreamModel { toks: seq![(1usize, t1), (2usize, b), (3usize, t2), (4usize, c)], trailing: None };
    let m2 = StreamModel { toks: seq![(2usize, b), (3usize, t2), (4usize, c)], trailing: None };
    let m3 = StreamModel { toks: seq![(3usize, t2), (4usize, c)], trailing: None };
    let m4 = StreamModel { toks: seq![(4usize, c)], trailing: None };
    let m5 = StreamModel { toks: Seq::empty(), trailing: None };
    assert(m0.toks.drop_first() =~= m1.toks);
    assert(m1.toks.drop_first() =~= m2.toks);
    assert(m2.toks.drop_first() =~= m3.toks);
    assert(m3.toks.drop_first() =~= m4.toks);
    assert(m4.toks.drop_first() =~= m5.toks);
    let ea = ident_expr(a);
    let eb = ident_expr(b);
    let ec = ident_expr(c);
    assert(t1 is Add || t1 is Sub || t1 is Mul || t1 is Div || t1 is DoubleEq);
    assert(t2 is Add || t2 is Sub || t2 is Mul || t2 is Div || t2 is DoubleEq);
    assert(precedence_rank(spec_precedence(o1)) >= 1);
    assert(precedence_rank(spec_precedence(o2)) >= 1);
    let po1 = spec_precedence(o1);
    let po2 = spec_precedence(o2);
    assert(spec_parse_postfix_expr(ec, m5) == (Ok::<AstExprModel, ParseErr>(ec), m5));
    assert(spec_parse_primary_expr(m4, 0, ctx) == (Ok::<AstExprModel, ParseErr>(ec), m5));
    assert(spec_parse_expr_loop(ec, m5, po2, 0, ctx) == (Ok::<AstExprModel, ParseErr>(ec), m5));
    assert(spec_parse_expr_with(ec, m5, po2, 0, ctx) == (Ok::<AstExprModel, ParseErr>(ec), m5));
    assert(spec_parse_expr(m4, po2, 0, ctx) == (Ok::<AstExprModel, ParseErr>(ec), m5));
    let ebc = bin_expr(eb, o2, ec);
    assert(spec_parse_postfix_expr(ebc, m5) == (Ok::<AstExprModel, ParseErr>(ebc), m5));
    assert(spec_parse_expr_loop(ebc, m5, po1, 0, ctx) == (Ok::<AstExprModel, ParseErr>(ebc), m5));
    assert(spec_parse_expr_loop(eb, m3, po1, 0, ctx) == (Ok::<AstExprModel, ParseErr>(ebc), m5));
    assert(spec_parse_postfix_expr(eb, m3) == (Ok::<AstExprModel, ParseErr>(eb), m3));
    assert(spec_parse_expr_with(eb, m3, po1, 0, ctx) == (Ok::<AstExprModel, ParseErr>(ebc), m5));
    assert(spec_parse_primary_expr(m2, 0, ctx) == (Ok::<AstExprModel, ParseErr>(eb), m3));
    assert(spec_parse_expr(m2, po1, 0, ctx) == (Ok::<AstExprModel, ParseErr>(ebc), m5));
    let result = bin_expr(ea, o1, ebc);
    assert(spec_parse_postfix_expr(result, m5) == (Ok::<AstExprModel, ParseErr>(result), m5));
    assert(spec_parse_expr_loop(result, m5, Precedence::Lowest, 0, ctx) == (
        Ok::<AstExprModel, ParseErr>(result),
        m5,
    ));
    assert(spec_parse_expr_loop(ea, m1, Precedence::Lowest, 0, ctx) == (
        Ok::<AstExprModel, ParseErr>(result),
        m5,
    ));
    assert(spec_parse_postfix_expr(ea, m1) == (Ok::<AstExprModel, ParseErr>(ea), m1));
    assert(spec_parse_expr_with(ea, m1, Precedence::Lowest, 0, ctx) == (
        Ok::<AstExprModel, ParseErr>(result),
        m5,
    ));
    assert(spec_parse_primary_expr(m0, 0, ctx) == (Ok::<AstExprModel, ParseErr>(ea), m1));
    assert(spec_parse_expr(m0, Precedence::Lowest, 0, ctx) == (
        Ok::<AstExprModel, ParseErr>(result),
        m5,
    ));
}

/// Precedence invariant, left half: in a chain `a OP1 b OP2 c` where the
/// first operator binds strictly more tightly than the second, the chain
/// groups to the left, as `(a OP1 b) OP2 c`: a higher-precedence operator
/// binds tighter regardless of its position.
pub proof fn lemma_chain_groups_left(a: Token, t1: Token, b: Token, t2: Token, c: Token, o1: Operator, o2: Operator)
    requires
        a is Ident,
        b is Ident,
        c is Ident,
        spec_as_operator(t1@) == Some(o1),
        spec_as_operator(t2@) == Some(o2),
        precedence_rank(spec_precedence(o2)) < precedence_rank(spec_precedence(o1)),
    ensures
        ({
            let ctx = ParseContext { can_parse_annotation: true, is_in_paren_block: false };
            spec_parse_expr(three_chain(a, t1, b, t2, c), Precedence::Lowest, 0, ctx).0
                == Ok::<AstExprModel, ParseErr>(
                bin_expr(bin_expr(ident_expr(a), o1, ident_expr(b)), o2, ident_expr(c)),
            )
        }),
{
    let ctx = ParseContext { can_parse_annotation: true, is_in_paren_block: false };
    let m0 = three_chain(a, t1, b, t2, c);
    let m1 = StreamModel { toks: seq![(1usize, t1), (2usize, b), (3usize, t2), (4usize, c)], trailing: None };
    let m2 = StreamModel { toks: seq![(2usize, b), (3usize, t2), (4usize, c)], trailing: None };
    let m3 = StreamModel { toks: seq![(3usize, t2), (4usize, c)], trailing: None };
    let m4 = StreamModel { toks: seq![(4usize, c)], trailing: None };
    let m5 = StreamModel { toks: Seq::empty(), trailing: None };
    assert(m0.toks.drop_first() =~= m1.toks);
    assert(m1.toks.drop_first() =~= m2.toks);
    assert(m2.toks.drop_first() =~= m3.toks);
    assert(m3.toks.drop_first() =~= m4.toks);
    assert(m4.toks.drop_first() =~= m5.toks);
    let ea = ident_expr(a);
    let eb = ident_expr(b);
    let ec = ident_expr(c);
    assert(t1 is Add || t1 is Sub || t1 is Mul || t1 is Div || t1 is DoubleEq);
    assert(t2 is Add || t2 is Sub || t2 is Mul || t2 is Div || t2 is DoubleEq);
    assert(precedence_rank(spec_precedence(o1)) >= 1);
    assert(precedence_rank(spec_precedence(o2)) >= 1);
    let po1 = spec_precedence(o1);
    let po2 = spec_precedence(o2);
    assert(spec_parse_postfix_expr(ec, m5) == (Ok::<AstExprModel, ParseErr>(ec), m5));
    assert(spec_parse_primary_expr(m4, 0, ctx) == (Ok::<AstExprModel, ParseErr>(ec), m5));
    assert(spec_parse_expr_loop(ec, m5, po2, 0, ctx) == (Ok::<AstExprModel, ParseErr>(ec), m5));
    assert(spec_parse_expr_with(ec, m5, po2, 0, ctx) == (Ok::<AstExprModel, ParseErr>(ec), m5));
    assert(spec_parse_expr(m4, po2, 0, ctx) == (Ok::<AstExprModel, ParseErr>(ec), m5));
    assert(spec_parse_postfix_expr(eb, m3) == (Ok::<AstExprModel, ParseErr>(eb), m3));
    assert(spec_parse_expr_loop(eb, m3, po1, 0, ctx) == (Ok::<AstExprModel, ParseErr>(eb), m3));
    assert(spec_parse_expr_with(eb, m3, po1, 0, ctx) == (Ok::<AstExprModel, ParseErr>(eb), m3));
    assert(spec_parse_primary_expr(m2, 0, ctx) == (Ok::<AstExprModel, ParseErr>(eb), m3));
    assert(spec_parse_expr(m2, po1, 0, ctx) == (Ok::<AstExprModel, ParseErr>(eb), m3));
    let eab = bin_expr(ea, o1, eb);
    assert(spec_parse_postfix_expr(eab, m3) == (Ok::<AstExprModel, ParseErr>(eab), m3));
    let result = bin_expr(eab, o2, ec);
    assert(spec_parse_postfix_expr(result, m5) == (Ok::<AstExprModel, ParseErr>(result), m5));
    assert(spec_parse_expr_loop(result, m5, Precedence::Lowest, 0, ctx) == (
        Ok::<AstExprModel, ParseErr>(result),
        m5,
    ));
    assert(spec_parse_expr_loop(eab, m3, Precedence::Lowest, 0, ctx) == (
        Ok::<AstExprModel, ParseErr>(result),
        m5,
    ));
    assert(spec_parse_expr_loop(ea, m1, Precedence::Lowest, 0, ctx) == (
        Ok::<AstExprModel, ParseErr>(result),
        m5,
    ));
    assert(spec_parse_postfix_expr(ea, m1) == (Ok::<AstExprModel, ParseErr>(ea), m1));
    assert(spec_parse_expr_with(ea, m1, Precedence::Lowest, 0, ctx) == (
        Ok::<AstExprModel, ParseErr>(result),
        m5,
    ));
    assert(spec_parse_primary_expr(m0, 0, ctx) == (Ok::<AstExprModel, ParseErr>(ea), m1));
    assert(spec_parse_expr(m0, Precedence::Lowest, 0, ctx) == (
        Ok::<AstExprModel, ParseErr>(result),
        m5,
    ));
}


/// A single binary application: `a OP b` parses to the binary expression
/// `(a OP b)` over the two identifiers, whatever the operator.
pub proof fn lemma_single_operator(a: Token, t1: Token, b: Token, o1: Operator)
    requires
        a is Ident,
        b is Ident,
        spec_as_operator(t1@) == Some(o1),
    ensures
        ({
            let m = StreamModel {
                toks: seq![(0usize, a), (1usize, t1), (2usize, b)],
                trailing: None,
            };
            let ctx = ParseContext { can_parse_annotation: true, is_in_paren_block: false };
            spec_parse_expr(m, Precedence::Lowest, 0, ctx).0 == Ok::<AstExprModel, ParseErr>(
                bin_expr(ident_expr(a), o1, ident_expr(b)),
            )
        }),
{
    let ctx = ParseContext { can_parse_annotation: true, is_in_paren_block: false };
    let m0 = StreamModel { toks: seq![(0usize, a), (1usize, t1), (2usize, b)], trailing: None };
    let m1 = StreamModel { toks: seq![(1usize, t1), (2usize, b)], trailing: None };
    let m2 = StreamModel { toks: seq![(2usize, b)], trailing: None };
    let m3 = StreamModel { toks: Seq::empty(), trailing: None };
    assert(m0.toks.drop_first() =~= m1.toks);
    assert(m1.toks.drop_first() =~= m2.toks);
    assert(m2.toks.drop_first() =~= m3.toks);
    let ea = ident_expr(a);
    let eb = ident_expr(b);
    assert(t1 is Add || t1 is Sub || t1 is Mul || t1 is Div || t1 is DoubleEq);
    assert(precedence_rank(spec_precedence(o1)) >= 1);
    let po1 = spec_precedence(o1);
    assert(spec_parse_postfix_expr(eb, m3) == (Ok::<AstExprModel, ParseErr>(eb), m3));
    assert(spec_parse_primary_expr(m2, 0, ctx) == (Ok::<AstExprModel, ParseErr>(eb), m3));
    assert(spec_parse_expr_loop(eb, m3, po1, 0, ctx) == (Ok::<AstExprModel, ParseErr>(eb), m3));
    assert(spec_parse_expr_with(eb, m3, po1, 0, ctx) == (Ok::<AstExprModel, ParseErr>(eb), m3));
    assert(spec_parse_expr(m2, po1, 0, ctx) == (Ok::<AstExprModel, ParseErr>(eb), m3));
    let result = bin_expr(ea, o1, eb);
    assert(spec_parse_postfix_expr(result, m3) == (Ok::<AstExprModel, ParseErr>(result), m3));
    assert(spec_parse_expr_loop(result, m3, Precedence::Lowest, 0, ctx) == (
        Ok::<AstExprModel, ParseErr>(result),
        m3,
    ));
    assert(spec_parse_expr_loop(ea, m1, Precedence::Lowest, 0, ctx) == (
        Ok::<AstExprModel, ParseErr>(result),
        m3,
    ));
    assert(spec_parse_postfix_expr(ea, m1) == (Ok::<AstExprModel, ParseErr>(ea), m1));
    assert(spec_parse_expr_with(ea, m1, Precedence::Lowest, 0, ctx) == (
        Ok::<AstExprModel, ParseErr>(result),
        m3,
    ));
    assert(spec_parse_primary_expr(m0, 0, ctx) == (Ok::<AstExprModel, ParseErr>(ea), m1));
    assert(spec_parse_expr(m0, Precedence::Lowest, 0, ctx) == (
        Ok::<AstExprModel, ParseErr>(result),
        m3,
    ));
}

} // verus!
