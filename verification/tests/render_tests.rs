use lang_front::ast::{AstBinExpr, AstExpr, AstLiteral, TypeAnnotation};
use lang_front::token::{Operator, Precedence, Token};

fn ident(s: &str) -> Token {
    Token::Ident(String::from(s))
}

// Token rendering: literals print their text, structural tokens a fixed
// name, punctuation itself.
#[test]
fn token_rendering() {
    assert_eq!(Token::Indent.render(), "INDENT");
    assert_eq!(Token::Dedent.render(), "DEDENT");
    assert_eq!(Token::Newline.render(), "\\n");
    assert_eq!(Token::IntLiteral(42).render(), "42");
    assert_eq!(Token::IntLiteral(-12).render(), "-12");
    assert_eq!(Token::IntLiteral(i32::MIN).render(), "-2147483648");
    assert_eq!(Token::StrLiteral(String::from("hi")).render(), "hi");
    assert_eq!(ident("name").render(), "name");
    assert_eq!(Token::Arrow.render(), "->");
    assert_eq!(Token::DoubleEq.render(), "==");
    assert_eq!(Token::Mut.render(), "mut");
    assert_eq!(Token::Struct.render(), "struct");
}

// The rendered length in characters sizes the highlighted span.
#[test]
fn token_src_len() {
    assert_eq!(Token::Indent.src_len(), 6);
    assert_eq!(Token::Newline.src_len(), 2);
    assert_eq!(Token::IntLiteral(-12).src_len(), 3);
    assert_eq!(ident("abc").src_len(), 3);
    assert_eq!(Token::AddEq.src_len(), 2);
}

// Operator classification and precedence ordering.
#[test]
fn operator_classification() {
    assert_eq!(Token::Add.as_operator(), Some(Operator::Add));
    assert_eq!(Token::DoubleEq.as_operator(), Some(Operator::Equals));
    assert_eq!(Token::Colon.as_operator(), None);
    assert_eq!(Operator::Add.precedence(), Precedence::AddSub);
    assert_eq!(Operator::Div.precedence(), Precedence::MulDiv);
    assert_eq!(Operator::Equals.precedence(), Precedence::Equality);
    assert!(Precedence::Lowest < Precedence::AddSub);
    assert!(Precedence::AddSub < Precedence::MulDiv);
    assert!(Precedence::MulDiv < Precedence::Equality);
}

// Type annotations render with at most one `mut` qualifier in front.
#[test]
fn type_annotation_rendering() {
    assert_eq!(TypeAnnotation::Int.render(), "int");
    assert_eq!(TypeAnnotation::Str.render(), "str");
    assert_eq!(TypeAnnotation::Bool.render(), "bool");
    assert_eq!(TypeAnnotation::Dynamic(String::from("P")).render(), "P");
    assert_eq!(
        TypeAnnotation::Mut(Box::new(TypeAnnotation::Dynamic(String::from("int")))).render(),
        "mut int"
    );
}

// Binary expressions render fully parenthesized.
#[test]
fn binary_expression_rendering() {
    let e: AstBinExpr = (ident("a"), Operator::Mul, ident("b")).into();
    assert_eq!(AstExpr::BinExpr(e).render(), "(a * b)");
}

// Typed identifiers render as `name: type`.
#[test]
fn typed_ident_rendering() {
    let lit = AstLiteral::TypedIdent {
        name: ident("x"),
        type_annotation: TypeAnnotation::Dynamic(String::from("int")),
    };
    assert_eq!(lit.render(), "x: int");
}

// Rendering of definitions: parameters joined by commas, fields indented.
#[test]
fn definition_rendering() {
    let block = lang_front::parser::parse(lang_front::parser::tokenize(
        "def f(a: int) -> int:\n    return a;\n",
    ))
    .unwrap();
    assert_eq!(block.render(), "def f(a: int) -> int:\n    return a;\n;\n");

    let block = lang_front::parser::parse(lang_front::parser::tokenize(
        "struct P:\n    x: int\n    y: str\nz;\n",
    ))
    .unwrap();
    assert_eq!(block.render(), "struct P:\n    x: int\n    y: str\nz;\n");
}
