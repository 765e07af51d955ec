//! The abstract syntax tree: closed unions for expressions and statements,
//! each with a mathematical model (`...Model`) that abstracts owned text to
//! character sequences and vectors to sequences. The parser's contracts are
//! stated over the models through `deep_view`.

use vstd::prelude::*;

use crate::token::{spec_render_token, Operator, Token, TokenModel};
use vstd::string::{StrSliceExecFns, StringExecFns};

verus! {

broadcast use vstd::seq::group_seq_axioms, vstd::std_specs::vec::group_vec_axioms;

/// A type annotation: a base type, a named not-yet-resolved type, or one
/// `Mut` wrapper around such a type.
#[derive(Debug, PartialEq, Eq)]
pub enum TypeAnnotation {
    Int,
    Str,
    Bool,
    Dynamic(String),
    Mut(Box<TypeAnnotation>),
}

/// Model of [`TypeAnnotation`].
pub enum TypeAnnotationModel {
    Int,
    Str,
    Bool,
    Dynamic(Seq<char>),
    Mut(Box<TypeAnnotationModel>),
}

/// A literal expression: an integer or string literal, an identifier, or an
/// identifier with a type annotation. The wrapped tokens are the ones the
/// lexer produced.
#[derive(Debug, PartialEq)]
pub enum AstLiteral {
    Int(Token),
    Str(Token),
    Ident(Token),
    TypedIdent { name: Token, type_annotation: TypeAnnotation },
}

/// Model of [`AstLiteral`].
pub enum AstLiteralModel {
    Int(TokenModel),
    Str(TokenModel),
    Ident(TokenModel),
    TypedIdent { name: TokenModel, type_annotation: TypeAnnotationModel },
}

/// A binary expression: an operator and its two owned sub-expressions.
#[derive(Debug, PartialEq)]
pub struct AstBinExpr {
    pub op: Operator,
    pub l: Box<AstExpr>,
    pub r: Box<AstExpr>,
}

/// Model of [`AstBinExpr`].
pub struct AstBinExprModel {
    pub op: Operator,
    pub l: Box<AstExprModel>,
    pub r: Box<AstExprModel>,
}

/// A conditional expression: `if` condition, block, and optional `else`
/// expression (a nested conditional or a plain block).
#[derive(Debug, PartialEq)]
pub struct AstConditional {
    pub condition: Box<AstExpr>,
    pub if_block: AstBlock,
    pub else_block: Option<Box<AstExpr>>,
}

/// Model of [`AstConditional`].
pub struct AstConditionalModel {
    pub condition: Box<AstExprModel>,
    pub if_block: AstBlockModel,
    pub else_block: Option<Box<AstExprModel>>,
}

/// One call argument, optionally named (`name = expr`).
#[derive(Debug, PartialEq)]
pub struct CallArg {
    pub name: Option<AstExpr>,
    pub expr: AstExpr,
}

/// Model of [`CallArg`].
pub struct CallArgModel {
    pub name: Option<AstExprModel>,
    pub expr: AstExprModel,
}

/// A call expression: the called expression and its ordered arguments.
#[derive(Debug, PartialEq)]
pub struct AstCallExpr {
    pub called_expr: Box<AstExpr>,
    pub args: Vec<CallArg>,
}

/// Model of [`AstCallExpr`].
pub struct AstCallExprModel {
    pub called_expr: Box<AstExprModel>,
    pub args: Seq<CallArgModel>,
}

/// An attribute access: `base.attribute`.
#[derive(Debug, PartialEq)]
pub struct AttrAccess {
    pub expr: Box<AstExpr>,
    pub attribute: AstLiteral,
}

/// Model of [`AttrAccess`].
pub struct AttrAccessModel {
    pub expr: Box<AstExprModel>,
    pub attribute: AstLiteralModel,
}

/// An expression.
#[derive(Debug, PartialEq)]
pub enum AstExpr {
    BinExpr(AstBinExpr),
    LitExpr(AstLiteral),
    ConditionalExpr(AstConditional),
    BlockExpr(AstBlock),
    CallExpr(AstCallExpr),
    AttrExpr(AttrAccess),
}

/// Model of [`AstExpr`].
pub enum AstExprModel {
    BinExpr(AstBinExprModel),
    LitExpr(AstLiteralModel),
    ConditionalExpr(AstConditionalModel),
    BlockExpr(AstBlockModel),
    CallExpr(AstCallExprModel),
    AttrExpr(AttrAccessModel),
}

/// A function definition: name, typed parameters, body, and return type.
#[derive(Debug, PartialEq)]
pub struct FnDef {
    pub name: AstLiteral,
    pub args: Vec<AstLiteral>,
    pub body: AstBlock,
    pub return_type: TypeAnnotation,
}

/// Model of [`FnDef`].
pub struct FnDefModel {
    pub name: AstLiteralModel,
    pub args: Seq<AstLiteralModel>,
    pub body: AstBlockModel,
    pub return_type: TypeAnnotationModel,
}

/// A statement.
#[derive(Debug, PartialEq)]
pub enum AstStmt {
    /// An expression statement, recording whether its value is sealed off by
    /// a semicolon.
    Expr { expr: AstExpr, has_semi: bool },
    Return(AstExpr),
    Assignment { target: AstExpr, assigned: AstExpr },
    FnDef(FnDef),
    StructDef { name: AstLiteral, fields: Vec<AstLiteral>, methods: Vec<FnDef> },
}

/// Model of [`AstStmt`].
pub enum AstStmtModel {
    Expr { expr: AstExprModel, has_semi: bool },
    Return(AstExprModel),
    Assignment { target: AstExprModel, assigned: AstExprModel },
    FnDef(FnDefModel),
    StructDef {
        name: AstLiteralModel,
        fields: Seq<AstLiteralModel>,
        methods: Seq<FnDefModel>,
    },
}

/// A block: an ordered sequence of statements at one indent level. The
/// `has_semi` flag is false exactly when the block ends in a semicolon-less
/// tail expression whose value is the block's value.
#[derive(Debug, PartialEq)]
pub struct AstBlock {
    pub indent: usize,
    pub stmts: Vec<AstStmt>,
    pub has_semi: bool,
}

/// Model of [`AstBlock`].
pub struct AstBlockModel {
    pub indent: int,
    pub stmts: Seq<AstStmtModel>,
    pub has_semi: bool,
}

/// Model of a type annotation.
pub open spec fn type_view(t: TypeAnnotation) -> TypeAnnotationModel
    decreases t,
{
    match t {
        TypeAnnotation::Int => TypeAnnotationModel::Int,
        TypeAnnotation::Str => TypeAnnotationModel::Str,
        TypeAnnotation::Bool => TypeAnnotationModel::Bool,
        TypeAnnotation::Dynamic(s) => TypeAnnotationModel::Dynamic(s@),
        TypeAnnotation::Mut(inner) => TypeAnnotationModel::Mut(Box::new(type_view(*inner))),
    }
}

/// Model of a literal.
pub open spec fn lit_view(l: AstLiteral) -> AstLiteralModel
    decreases l,
{
    match l {
        AstLiteral::Int(t) => AstLiteralModel::Int(t@),
        AstLiteral::Str(t) => AstLiteralModel::Str(t@),
        AstLiteral::Ident(t) => AstLiteralModel::Ident(t@),
        AstLiteral::TypedIdent { name, type_annotation } => AstLiteralModel::TypedIdent {
            name: name@,
            type_annotation: type_view(type_annotation),
        },
    }
}

/// Model of a sequence of literals.
pub open spec fn lits_view(s: Seq<AstLiteral>) -> Seq<AstLiteralModel>
    decreases s,
{
    Seq::new(
        s.len(),
        |i: int|
            if 0 <= i < s.len() {
                lit_view(s[i])
            } else {
                vstd::pervasive::arbitrary()
            },
    )
}

/// Model of an expression.
pub open spec fn expr_view(e: AstExpr) -> AstExprModel
    decreases e,
{
    match e {
        AstExpr::BinExpr(b) => AstExprModel::BinExpr(
            AstBinExprModel {
                op: b.op,
                l: Box::new(expr_view(*b.l)),
                r: Box::new(expr_view(*b.r)),
            },
        ),
        AstExpr::LitExpr(l) => AstExprModel::LitExpr(lit_view(l)),
        AstExpr::ConditionalExpr(c) => AstExprModel::ConditionalExpr(cond_view(c)),
        AstExpr::BlockExpr(b) => AstExprModel::BlockExpr(block_view(b)),
        AstExpr::CallExpr(c) => AstExprModel::CallExpr(
            AstCallExprModel {
                called_expr: Box::new(expr_view(*c.called_expr)),
                args: args_view(c.args@),
            },
        ),
        AstExpr::AttrExpr(a) => AstExprModel::AttrExpr(
            AttrAccessModel { expr: Box::new(expr_view(*a.expr)), attribute: lit_view(a.attribute) },
        ),
    }
}

/// Model of a conditional.
pub open spec fn cond_view(c: AstConditional) -> AstConditionalModel
    decreases c,
{
    AstConditionalModel {
        condition: Box::new(expr_view(*c.condition)),
        if_block: block_view(c.if_block),
        else_block: match c.else_block {
            Some(e) => Some(Box::new(expr_view(*e))),
            None => None,
        },
    }
}

/// Model of one call argument.
pub open spec fn arg_view(a: CallArg) -> CallArgModel
    decreases a,
{
    CallArgModel {
        name: match a.name {
            Some(n) => Some(expr_view(n)),
            None => None,
        },
        expr: expr_view(a.expr),
    }
}

/// Model of a sequence of call arguments.
pub open spec fn args_view(s: Seq<CallArg>) -> Seq<CallArgModel>
    decreases s,
{
    Seq::new(
        s.len(),
        |i: int|
            if 0 <= i < s.len() {
                arg_view(s[i])
            } else {
                vstd::pervasive::arbitrary()
            },
    )
}

/// Model of a function definition.
pub open spec fn fn_view(f: FnDef) -> FnDefModel
    decreases f,
{
    FnDefModel {
        name: lit_view(f.name),
        args: lits_view(f.args@),
        body: block_view(f.body),
        return_type: type_view(f.return_type),
    }
}

/// Model of a sequence of function definitions.
pub open spec fn fns_view(s: Seq<FnDef>) -> Seq<FnDefModel>
    decreases s,
{
    Seq::new(
        s.len(),
        |i: int|
            if 0 <= i < s.len() {
                fn_view(s[i])
            } else {
                vstd::pervasive::arbitrary()
            },
    )
}

/// Model of a statement.
pub open spec fn stmt_view(s: AstStmt) -> AstStmtModel
    decreases s,
{
    match s {
        AstStmt::Expr { expr, has_semi } => AstStmtModel::Expr {
            expr: expr_view(expr),
            has_semi,
        },
        AstStmt::Return(e) => AstStmtModel::Return(expr_view(e)),
        AstStmt::Assignment { target, assigned } => AstStmtModel::Assignment {
            target: expr_view(target),
            assigned: expr_view(assigned),
        },
        AstStmt::FnDef(f) => AstStmtModel::FnDef(fn_view(f)),
        AstStmt::StructDef { name, fields, methods } => AstStmtModel::StructDef {
            name: lit_view(name),
            fields: lits_view(fields@),
            methods: fns_view(methods@),
        },
    }
}

/// Model of a sequence of statements.
pub open spec fn stmts_view(s: Seq<AstStmt>) -> Seq<AstStmtModel>
    decreases s,
{
    Seq::new(
        s.len(),
        |i: int|
            if 0 <= i < s.len() {
                stmt_view(s[i])
            } else {
                vstd::pervasive::arbitrary()
            },
    )
}

/// Model of a block.
pub open spec fn block_view(b: AstBlock) -> AstBlockModel
    decreases b,
{
    AstBlockModel {
        indent: b.indent as int,
        stmts: stmts_view(b.stmts@),
        has_semi: b.has_semi,
    }
}

impl DeepView for TypeAnnotation {
    type V = TypeAnnotationModel;

    open spec fn deep_view(&self) -> TypeAnnotationModel {
        type_view(*self)
    }
}

impl DeepView for AstLiteral {
    type V = AstLiteralModel;

    open spec fn deep_view(&self) -> AstLiteralModel {
        lit_view(*self)
    }
}

impl DeepView for AstExpr {
    type V = AstExprModel;

    open spec fn deep_view(&self) -> AstExprModel {
        expr_view(*self)
    }
}

impl DeepView for AstConditional {
    type V = AstConditionalModel;

    open spec fn deep_view(&self) -> AstConditionalModel {
        cond_view(*self)
    }
}

impl DeepView for CallArg {
    type V = CallArgModel;

    open spec fn deep_view(&self) -> CallArgModel {
        arg_view(*self)
    }
}

impl DeepView for AstCallExpr {
    type V = AstCallExprModel;

    open spec fn deep_view(&self) -> AstCallExprModel {
        AstCallExprModel {
            called_expr: Box::new(expr_view(*self.called_expr)),
            args: args_view(self.args@),
        }
    }
}

impl DeepView for AttrAccess {
    type V = AttrAccessModel;

    open spec fn deep_view(&self) -> AttrAccessModel {
        AttrAccessModel {
            expr: Box::new(expr_view(*self.expr)),
            attribute: lit_view(self.attribute),
        }
    }
}

impl DeepView for AstBinExpr {
    type V = AstBinExprModel;

    open spec fn deep_view(&self) -> AstBinExprModel {
        AstBinExprModel {
            op: self.op,
            l: Box::new(expr_view(*self.l)),
            r: Box::new(expr_view(*self.r)),
        }
    }
}

impl DeepView for FnDef {
    type V = FnDefModel;

    open spec fn deep_view(&self) -> FnDefModel {
        fn_view(*self)
    }
}

impl DeepView for AstStmt {
    type V = AstStmtModel;

    open spec fn deep_view(&self) -> AstStmtModel {
        stmt_view(*self)
    }
}

impl DeepView for AstBlock {
    type V = AstBlockModel;

    open spec fn deep_view(&self) -> AstBlockModel {
        block_view(*self)
    }
}

/// A top-level node.
#[derive(Debug, PartialEq)]
pub enum AstNode {
    Expr(AstExpr),
}

/// Model of [`AstNode`].
pub enum AstNodeModel {
    Expr(AstExprModel),
}

impl DeepView for AstNode {
    type V = AstNodeModel;

    open spec fn deep_view(&self) -> AstNodeModel {
        match self {
            AstNode::Expr(e) => AstNodeModel::Expr(expr_view(*e)),
        }
    }
}

/// Appending to a literal list appends to its model.
pub proof fn lemma_lits_view_push(s: Seq<AstLiteral>, x: AstLiteral)
    ensures
        lits_view(s.push(x)) == lits_view(s).push(lit_view(x)),
{
    assert(lits_view(s.push(x)) =~= lits_view(s).push(lit_view(x)));
}

/// Appending to an argument list appends to its model.
pub proof fn lemma_args_view_push(s: Seq<CallArg>, x: CallArg)
    ensures
        args_view(s.push(x)) == args_view(s).push(arg_view(x)),
{
    assert(args_view(s.push(x)) =~= args_view(s).push(arg_view(x)));
}

/// Appending to a definition list appends to its model.
pub proof fn lemma_fns_view_push(s: Seq<FnDef>, x: FnDef)
    ensures
        fns_view(s.push(x)) == fns_view(s).push(fn_view(x)),
{
    assert(fns_view(s.push(x)) =~= fns_view(s).push(fn_view(x)));
}

/// Appending to a statement list appends to its model.
pub proof fn lemma_stmts_view_push(s: Seq<AstStmt>, x: AstStmt)
    ensures
        stmts_view(s.push(x)) == stmts_view(s).push(stmt_view(x)),
{
    assert(stmts_view(s.push(x)) =~= stmts_view(s).push(stmt_view(x)));
}

impl From<AstLiteral> for AstExpr {
    /// Wrap a literal as an expression.
    fn from(value: AstLiteral) -> (r: AstExpr) {
        AstExpr::LitExpr(value)
    }
}

impl vstd::std_specs::convert::FromSpecImpl<AstLiteral> for AstExpr {
    open spec fn obeys_from_spec() -> bool {
        true
    }

    open spec fn from_spec(value: AstLiteral) -> AstExpr {
        AstExpr::LitExpr(value)
    }
}

impl From<AstConditional> for AstExpr {
    /// Wrap a conditional as an expression.
    fn from(value: AstConditional) -> (r: AstExpr) {
        AstExpr::ConditionalExpr(value)
    }
}

impl vstd::std_specs::convert::FromSpecImpl<AstConditional> for AstExpr {
    open spec fn obeys_from_spec() -> bool {
        true
    }

    open spec fn from_spec(value: AstConditional) -> AstExpr {
        AstExpr::ConditionalExpr(value)
    }
}

impl From<AstCallExpr> for AstExpr {
    /// Wrap a call as an expression.
    fn from(value: AstCallExpr) -> (r: AstExpr) {
        AstExpr::CallExpr(value)
    }
}

impl vstd::std_specs::convert::FromSpecImpl<AstCallExpr> for AstExpr {
    open spec fn obeys_from_spec() -> bool {
        true
    }

    open spec fn from_spec(value: AstCallExpr) -> AstExpr {
        AstExpr::CallExpr(value)
    }
}

impl From<(AstExpr, Operator, AstExpr)> for AstExpr {
    /// Combine two expressions under a binary operator.
    fn from(value: (AstExpr, Operator, AstExpr)) -> (r: AstExpr) {
        let (l, op, r) = value;
        AstExpr::BinExpr(AstBinExpr { op, l: Box::new(l), r: Box::new(r) })
    }
}

impl vstd::std_specs::convert::FromSpecImpl<(AstExpr, Operator, AstExpr)> for AstExpr {
    open spec fn obeys_from_spec() -> bool {
        true
    }

    open spec fn from_spec(value: (AstExpr, Operator, AstExpr)) -> AstExpr {
        AstExpr::BinExpr(AstBinExpr { op: value.1, l: Box::new(value.0), r: Box::new(value.2) })
    }
}

impl From<(Token, Operator, Token)> for AstBinExpr {
    /// A binary expression over two identifier tokens.
    fn from(value: (Token, Operator, Token)) -> (r: AstBinExpr) {
        let (l, op, r) = value;
        AstBinExpr {
            op,
            l: Box::new(AstExpr::LitExpr(AstLiteral::Ident(l))),
            r: Box::new(AstExpr::LitExpr(AstLiteral::Ident(r))),
        }
    }
}

impl vstd::std_specs::convert::FromSpecImpl<(Token, Operator, Token)> for AstBinExpr {
    open spec fn obeys_from_spec() -> bool {
        true
    }

    open spec fn from_spec(value: (Token, Operator, Token)) -> AstBinExpr {
        AstBinExpr {
            op: value.1,
            l: Box::new(AstExpr::LitExpr(AstLiteral::Ident(value.0))),
            r: Box::new(AstExpr::LitExpr(AstLiteral::Ident(value.2))),
        }
    }
}

impl From<AstExpr> for AstNode {
    /// Wrap an expression as a node.
    fn from(value: AstExpr) -> (r: AstNode) {
        AstNode::Expr(value)
    }
}

impl vstd::std_specs::convert::FromSpecImpl<AstExpr> for AstNode {
    open spec fn obeys_from_spec() -> bool {
        true
    }

    open spec fn from_spec(value: AstExpr) -> AstNode {
        AstNode::Expr(value)
    }
}

/// The effective `has_semi` of an expression standing as a statement: a
/// block's own flag; a conditional's comes from its `else` branch if
/// present, otherwise from its `if` block; anything else takes whether a
/// semicolon followed.
pub open spec fn spec_expr_has_semi(expr: AstExprModel, has_semi_next: bool) -> bool
    decreases expr,
{
    match expr {
        AstExprModel::BlockExpr(b) => b.has_semi,
        AstExprModel::ConditionalExpr(c) => match c.else_block {
            Some(eb) => spec_expr_has_semi(*eb, has_semi_next),
            None => c.if_block.has_semi,
        },
        _ => has_semi_next,
    }
}

/// The effective `has_semi` of an expression standing as a statement.
pub fn expr_has_semi(expr: &AstExpr, has_semi_next: bool) -> (r: bool)
    ensures
        r == spec_expr_has_semi(expr.deep_view(), has_semi_next),
    decreases expr,
{
    match expr {
        AstExpr::BlockExpr(b) => {
            proof {
                assert(expr.deep_view() == AstExprModel::BlockExpr(block_view(*b)));
            }
            b.has_semi
        },
        AstExpr::ConditionalExpr(c) => {
            proof {
                assert(expr.deep_view() == AstExprModel::ConditionalExpr(cond_view(*c)));
            }
            match &c.else_block {
                Some(eb) => {
                    proof {
                        assert(cond_view(*c).else_block == Some(Box::new(expr_view(**eb))));
                    }
                    expr_has_semi(eb, has_semi_next)
                },
                None => c.if_block.has_semi,
            }
        },
        AstExpr::BinExpr(_) => has_semi_next,
        AstExpr::LitExpr(_) => has_semi_next,
        AstExpr::CallExpr(_) => has_semi_next,
        AstExpr::AttrExpr(_) => has_semi_next,
    }
}


/// A run of spaces.
pub open spec fn spec_spaces(n: int) -> Seq<char>
    decreases n,
{
    if n <= 0 {
        Seq::empty()
    } else {
        spec_spaces(n - 1).push(' ')
    }
}

/// The rendering of a type annotation.
pub open spec fn spec_render_type(t: TypeAnnotationModel) -> Seq<char>
    decreases t,
{
    match t {
        TypeAnnotationModel::Int => "int"@,
        TypeAnnotationModel::Str => "str"@,
        TypeAnnotationModel::Bool => "bool"@,
        TypeAnnotationModel::Dynamic(d) => d,
        TypeAnnotationModel::Mut(inner) => "mut "@ + spec_render_type(*inner),
    }
}

/// The rendering of a literal: its token's text, with `name: type` for a
/// typed identifier.
pub open spec fn spec_render_lit(l: AstLiteralModel) -> Seq<char>
    decreases l,
{
    match l {
        AstLiteralModel::Int(t) => spec_render_token(t),
        AstLiteralModel::Str(t) => spec_render_token(t),
        AstLiteralModel::Ident(t) => spec_render_token(t),
        AstLiteralModel::TypedIdent { name, type_annotation } => spec_render_token(name) + ": "@
            + spec_render_type(type_annotation),
    }
}

/// The rendering of an expression: binary expressions parenthesized as
/// `(L OP R)`, calls as `CALLED(ARGS)`, attribute accesses as `BASE.ATTR`.
pub open spec fn spec_render_expr(e: AstExprModel) -> Seq<char>
    decreases e, 0int,
{
    match e {
        AstExprModel::BinExpr(b) => "("@ + spec_render_expr(*b.l) + " "@
            + crate::token::spec_render_operator(b.op) + " "@ + spec_render_expr(*b.r)
            + ")"@,
        AstExprModel::LitExpr(l) => spec_render_lit(l),
        AstExprModel::ConditionalExpr(c) => spec_render_cond(c),
        AstExprModel::BlockExpr(b) => spec_render_block(b),
        AstExprModel::CallExpr(c) => spec_render_expr(*c.called_expr) + "("@
            + spec_render_call_args_from(c.args, 0) + ")"@,
        AstExprModel::AttrExpr(a) => spec_render_expr(*a.expr) + "."@
            + spec_render_lit(a.attribute),
    }
}

/// The rendering of a conditional: `if COND:` and its block, then the
/// `else:` branch, indented one level out, if present.
pub open spec fn spec_render_cond(c: AstConditionalModel) -> Seq<char>
    decreases c, 1int,
{
    let else_part = match c.else_block {
        Some(e) => {
            let lvl = if c.if_block.indent > 0 {
                c.if_block.indent - 1
            } else {
                0
            };
            spec_spaces(4 * lvl) + "else:\n"@ + spec_render_expr(*e)
        },
        None => Seq::empty(),
    };
    "if "@ + spec_render_expr(*c.condition) + ":\n"@ + spec_render_block(c.if_block) + else_part
}

/// The rendering of one call argument: `NAME=EXPR` when named.
pub open spec fn spec_render_call_arg(a: CallArgModel) -> Seq<char>
    decreases a, 1int,
{
    match a.name {
        Some(n) => spec_render_expr(n) + "="@ + spec_render_expr(a.expr),
        None => spec_render_expr(a.expr),
    }
}

/// The rendering of the call arguments from index `i` on, joined by
/// commas.
pub open spec fn spec_render_call_args_from(args: Seq<CallArgModel>, i: int) -> Seq<char>
    decreases args, args.len() - i,
{
    if i < 0 || i >= args.len() {
        Seq::empty()
    } else {
        spec_render_call_arg(args[i]) + (
            if i + 1 < args.len() {
                ","@
            } else {
                Seq::empty()
            }
        ) + spec_render_call_args_from(args, i + 1)
    }
}

/// The rendering of a function definition's parameters from index `i` on,
/// joined by `", "`.
pub open spec fn spec_render_params_from(args: Seq<AstLiteralModel>, i: int) -> Seq<char>
    decreases args.len() - i,
{
    if i < 0 || i >= args.len() {
        Seq::empty()
    } else {
        spec_render_lit(args[i]) + (
            if i + 1 < args.len() {
                ", "@
            } else {
                Seq::empty()
            }
        ) + spec_render_params_from(args, i + 1)
    }
}

/// The rendering of a struct's fields from index `i` on: each indented
/// four spaces, joined by newlines.
pub open spec fn spec_render_fields_from(fields: Seq<AstLiteralModel>, i: int) -> Seq<char>
    decreases fields.len() - i,
{
    if i < 0 || i >= fields.len() {
        Seq::empty()
    } else {
        "    "@ + spec_render_lit(fields[i]) + (
            if i + 1 < fields.len() {
                "\n"@
            } else {
                Seq::empty()
            }
        ) + spec_render_fields_from(fields, i + 1)
    }
}

/// The rendering of a function definition:
/// `def NAME(PARAMS) -> TYPE:` then the body and a closing semicolon.
pub open spec fn spec_render_fn_def(f: FnDefModel) -> Seq<char>
    decreases f, 2int,
{
    "def "@ + spec_render_lit(f.name) + "("@ + spec_render_params_from(f.args, 0) + ") -> "@
        + spec_render_type(f.return_type) + ":\n"@ + spec_render_block(f.body) + ";"@
}

/// The rendering of a statement.
pub open spec fn spec_render_stmt(s: AstStmtModel) -> Seq<char>
    decreases s, 3int,
{
    match s {
        AstStmtModel::StructDef { name, fields, methods } => "struct "@ + spec_render_lit(name)
            + ":\n"@ + spec_render_fields_from(fields, 0),
        AstStmtModel::FnDef(f) => spec_render_fn_def(f),
        AstStmtModel::Assignment { target, assigned } => spec_render_expr(target) + " = "@
            + spec_render_expr(assigned) + ";"@,
        AstStmtModel::Expr { expr, has_semi } => spec_render_expr(expr) + (
            if has_semi {
                ";"@
            } else {
                Seq::empty()
            }
        ),
        AstStmtModel::Return(e) => "return "@ + spec_render_expr(e) + ";"@,
    }
}

/// The rendering of a block's statements from index `i` on: each on its
/// own line, indented four spaces per level.
pub open spec fn spec_render_stmts_from(stmts: Seq<AstStmtModel>, i: int, indent: int) -> Seq<char>
    decreases stmts, stmts.len() - i,
{
    if i < 0 || i >= stmts.len() {
        Seq::empty()
    } else {
        spec_spaces(4 * indent) + spec_render_stmt(stmts[i]) + "\n"@
            + spec_render_stmts_from(stmts, i + 1, indent)
    }
}

/// The rendering of a block: its statements, newline-joined, each indented
/// by four spaces per nesting level.
pub open spec fn spec_render_block(b: AstBlockModel) -> Seq<char>
    decreases b, 4int,
{
    spec_render_stmts_from(b.stmts, 0, b.indent)
}

/// A run of `4 * indent` spaces.
fn spaces_for(indent: usize) -> (r: String)
    ensures
        r@ == spec_spaces(4 * indent as int),
{
    let mut s = String::new();
    let mut j: usize = 0;
    while j < indent
        invariant
            j <= indent,
            s@ == spec_spaces(4 * j as int),
        decreases indent - j,
    {
        s.append("    ");
        proof {
            reveal_strlit("    ");
            assert(spec_spaces(4 * j + 1) == spec_spaces(4 * j as int).push(' '));
            assert(spec_spaces(4 * j + 2) == spec_spaces(4 * j + 1).push(' '));
            assert(spec_spaces(4 * j + 3) == spec_spaces(4 * j + 2).push(' '));
            assert(spec_spaces(4 * j + 4) == spec_spaces(4 * j + 3).push(' '));
            assert(s@ =~= spec_spaces(4 * (j + 1)));
        }
        j = j + 1;
    }
    s
}

impl TypeAnnotation {
    /// The textual rendering of this type annotation.
    pub fn render(&self) -> (r: String)
        ensures
            r@ == spec_render_type(self.deep_view()),
        decreases self,
    {
        match self {
            TypeAnnotation::Int => String::from_str("int"),
            TypeAnnotation::Str => String::from_str("str"),
            TypeAnnotation::Bool => String::from_str("bool"),
            TypeAnnotation::Dynamic(d) => d.clone(),
            TypeAnnotation::Mut(inner) => {
                let s = String::from_str("mut ").concat(inner.render().as_str());
                s
            },
        }
    }
}

impl AstLiteral {
    /// The textual rendering of this literal.
    pub fn render(&self) -> (r: String)
        ensures
            r@ == spec_render_lit(self.deep_view()),
    {
        match self {
            AstLiteral::Int(t) => t.render(),
            AstLiteral::Str(t) => t.render(),
            AstLiteral::Ident(t) => t.render(),
            AstLiteral::TypedIdent { name, type_annotation } => {
                let r = name.render().concat(": ").concat(type_annotation.render().as_str());
                proof {
                    assert(r@ =~= spec_render_lit(self.deep_view()));
                }
                r
            },
        }
    }
}

impl AstExpr {
    /// The textual rendering of this expression.
    pub fn render(&self) -> (r: String)
        ensures
            r@ == spec_render_expr(self.deep_view()),
        decreases self, 0int,
    {
        match self {
            AstExpr::BinExpr(b) => {
                let r = String::from_str("(").concat(b.l.render().as_str()).concat(" ").concat(
                    b.op.render().as_str(),
                ).concat(" ").concat(b.r.render().as_str()).concat(")");
                proof {
                    assert(r@ =~= spec_render_expr(self.deep_view()));
                }
                r
            },
            AstExpr::LitExpr(l) => l.render(),
            AstExpr::ConditionalExpr(c) => c.render(),
            AstExpr::BlockExpr(b) => b.render(),
            AstExpr::CallExpr(c) => {
                let r = c.called_expr.render().concat("(").concat(
                    render_call_args_from(&c.args, 0).as_str(),
                ).concat(")");
                proof {
                    assert(r@ =~= spec_render_expr(self.deep_view()));
                }
                r
            },
            AstExpr::AttrExpr(a) => {
                let r = a.expr.render().concat(".").concat(a.attribute.render().as_str());
                proof {
                    assert(r@ =~= spec_render_expr(self.deep_view()));
                }
                r
            },
        }
    }
}

impl AstConditional {
    /// The textual rendering of this conditional.
    pub fn render(&self) -> (r: String)
        ensures
            r@ == spec_render_cond(self.deep_view()),
        decreases self, 1int,
    {
        let mut s = String::from_str("if ").concat(self.condition.render().as_str()).concat(
            ":\n",
        ).concat(self.if_block.render().as_str());
        match &self.else_block {
            Some(e) => {
                let lvl = if self.if_block.indent > 0 {
                    self.if_block.indent - 1
                } else {
                    0
                };
                let r = s.concat(spaces_for(lvl).as_str()).concat("else:\n").concat(
                    e.render().as_str(),
                );
                proof {
                    assert(r@ =~= spec_render_cond(self.deep_view()));
                }
                r
            },
            None => {
                proof {
                    assert(s@ =~= spec_render_cond(self.deep_view()));
                }
                s
            },
        }
    }
}

impl CallArg {
    /// The textual rendering of this call argument.
    pub fn render(&self) -> (r: String)
        ensures
            r@ == spec_render_call_arg(self.deep_view()),
        decreases self, 1int,
    {
        match &self.name {
            Some(n) => {
                let r = n.render().concat("=").concat(self.expr.render().as_str());
                proof {
                    assert(r@ =~= spec_render_call_arg(self.deep_view()));
                }
                r
            },
            None => self.expr.render(),
        }
    }
}

/// The rendering of the call arguments from index `i` on, joined by
/// commas.
fn render_call_args_from(args: &Vec<CallArg>, i: usize) -> (r: String)
    requires
        i <= args@.len(),
    ensures
        r@ == spec_render_call_args_from(crate::ast::args_view(args@), i as int),
    decreases args, args@.len() - i,
{
    if i >= args.len() {
        String::new()
    } else {
        let mut s = args[i].render();
        if i + 1 < args.len() {
            s = s.concat(",");
        }
        let r = s.concat(render_call_args_from(args, i + 1).as_str());
        proof {
            assert(args_view(args@)[i as int] == arg_view(args@[i as int]));
            assert(r@ =~= spec_render_call_args_from(args_view(args@), i as int));
        }
        r
    }
}

/// The rendering of a parameter list from index `i` on, joined by `", "`.
fn render_params_from(args: &Vec<AstLiteral>, i: usize) -> (r: String)
    requires
        i <= args@.len(),
    ensures
        r@ == spec_render_params_from(crate::ast::lits_view(args@), i as int),
    decreases args@.len() - i,
{
    if i >= args.len() {
        String::new()
    } else {
        let mut s = args[i].render();
        if i + 1 < args.len() {
            s = s.concat(", ");
        }
        let r = s.concat(render_params_from(args, i + 1).as_str());
        proof {
            assert(lits_view(args@)[i as int] == lit_view(args@[i as int]));
            assert(r@ =~= spec_render_params_from(lits_view(args@), i as int));
        }
        r
    }
}

/// The rendering of a field list from index `i` on: each indented four
/// spaces, joined by newlines.
fn render_fields_from(fields: &Vec<AstLiteral>, i: usize) -> (r: String)
    requires
        i <= fields@.len(),
    ensures
        r@ == spec_render_fields_from(crate::ast::lits_view(fields@), i as int),
    decreases fields@.len() - i,
{
    if i >= fields.len() {
        String::new()
    } else {
        let mut s = String::from_str("    ").concat(fields[i].render().as_str());
        if i + 1 < fields.len() {
            s = s.concat("\n");
        }
        let r = s.concat(render_fields_from(fields, i + 1).as_str());
        proof {
            assert(lits_view(fields@)[i as int] == lit_view(fields@[i as int]));
            assert(r@ =~= spec_render_fields_from(lits_view(fields@), i as int));
        }
        r
    }
}

impl FnDef {
    /// The textual rendering of this function definition.
    pub fn render(&self) -> (r: String)
        ensures
            r@ == spec_render_fn_def(self.deep_view()),
        decreases self, 2int,
    {
        let r = String::from_str("def ").concat(self.name.render().as_str()).concat("(").concat(
            render_params_from(&self.args, 0).as_str(),
        ).concat(") -> ").concat(self.return_type.render().as_str()).concat(":\n").concat(
            self.body.render().as_str(),
        ).concat(";");
        proof {
            assert(r@ =~= spec_render_fn_def(self.deep_view()));
        }
        r
    }
}

impl AstStmt {
    /// The textual rendering of this statement.
    pub fn render(&self) -> (r: String)
        ensures
            r@ == spec_render_stmt(self.deep_view()),
        decreases self, 3int,
    {
        match self {
            AstStmt::StructDef { name, fields, methods } => {
                let r = String::from_str("struct ").concat(name.render().as_str()).concat(
                    ":\n",
                ).concat(render_fields_from(fields, 0).as_str());
                proof {
                    assert(r@ =~= spec_render_stmt(self.deep_view()));
                }
                r
            },
            AstStmt::FnDef(f) => f.render(),
            AstStmt::Assignment { target, assigned } => {
                let r = target.render().concat(" = ").concat(assigned.render().as_str()).concat(
                    ";",
                );
                proof {
                    assert(r@ =~= spec_render_stmt(self.deep_view()));
                }
                r
            },
            AstStmt::Expr { expr, has_semi } => {
                let mut r = expr.render();
                if *has_semi {
                    r = r.concat(";");
                }
                proof {
                    assert(r@ =~= spec_render_stmt(self.deep_view()));
                }
                r
            },
            AstStmt::Return(e) => {
                let r = String::from_str("return ").concat(e.render().as_str()).concat(";");
                proof {
                    assert(r@ =~= spec_render_stmt(self.deep_view()));
                }
                r
            },
        }
    }
}

/// The rendering of a block's statements from index `i` on.
fn render_stmts_from(stmts: &Vec<AstStmt>, i: usize, indent: usize) -> (r: String)
    requires
        i <= stmts@.len(),
    ensures
        r@ == spec_render_stmts_from(crate::ast::stmts_view(stmts@), i as int, indent as int),
    decreases stmts, stmts@.len() - i,
{
    if i >= stmts.len() {
        String::new()
    } else {
        let r = spaces_for(indent).concat(stmts[i].render().as_str()).concat("\n").concat(
            render_stmts_from(stmts, i + 1, indent).as_str(),
        );
        proof {
            assert(stmts_view(stmts@)[i as int] == stmt_view(stmts@[i as int]));
            assert(r@ =~= spec_render_stmts_from(stmts_view(stmts@), i as int, indent as int));
        }
        r
    }
}

impl AstBlock {
    /// The textual rendering of this block: statements newline-joined,
    /// each indented four spaces per nesting level.
    pub fn render(&self) -> (r: String)
        ensures
            r@ == spec_render_block(self.deep_view()),
        decreases self, 4int,
    {
        render_stmts_from(&self.stmts, 0, self.indent)
    }
}

impl AstNode {
    /// The textual rendering of this node.
    pub fn render(&self) -> (r: String)
        ensures
            ({
                let AstNodeModel::Expr(e) = self.deep_view();
                r@ == spec_render_expr(e)
            }),
    {
        match self {
            AstNode::Expr(e) => e.render(),
        }
    }
}

} // verus!
