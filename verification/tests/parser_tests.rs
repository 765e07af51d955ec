use lang_front::ast::{AstBinExpr, AstExpr, AstLiteral, AstStmt};
use lang_front::lexer::LexErr;
use lang_front::parser::{
    parse, parse_expr, tokenize, ParseContext, ParseErr, Precedence, TokenStream,
};
use lang_front::token::{Operator, Token};

fn ident(s: &str) -> Token {
    Token::Ident(String::from(s))
}

#[test]
fn test_parse_add() {
    let toks = vec![(0, ident("a")), (1, Token::Add), (2, ident("b"))];
    let mut stream = TokenStream::new(toks, None);

    let expected: AstBinExpr = (ident("a"), Operator::Add, ident("b")).into();
    assert_eq!(
        parse_expr(&mut stream, Precedence::Lowest, 0, ParseContext::new()),
        Ok(AstExpr::BinExpr(expected))
    );
}

#[test]
fn test_parse_add_multi() {
    let toks = vec![
        (0, ident("a")),
        (1, Token::Add),
        (2, ident("b")),
        (3, Token::Add),
        (4, ident("c")),
    ];
    let mut stream = TokenStream::new(toks, None);

    let r = AstExpr::BinExpr((ident("b"), Operator::Add, ident("c")).into());
    let expected = AstBinExpr {
        l: Box::new(AstExpr::LitExpr(AstLiteral::Ident(ident("a")))),
        op: Operator::Add,
        r: Box::new(r),
    };
    assert_eq!(
        parse_expr(&mut stream, Precedence::Lowest, 0, ParseContext::new()),
        Ok(AstExpr::BinExpr(expected))
    );
}

// Example: `a + b` parses to the binary expression `(a + b)`.
#[test]
fn example_simple_addition() {
    let mut stream = tokenize("a + b");
    let expected: AstBinExpr = (ident("a"), Operator::Add, ident("b")).into();
    assert_eq!(
        parse_expr(&mut stream, Precedence::Lowest, 0, ParseContext::new()),
        Ok(AstExpr::BinExpr(expected))
    );
}

// Example: `a + b + c` groups to the right, as `(a + (b + c))`.
#[test]
fn example_addition_groups_right() {
    let mut stream = tokenize("a + b + c");
    let e = parse_expr(&mut stream, Precedence::Lowest, 0, ParseContext::new()).unwrap();
    assert_eq!(e.render(), "(a + (b + c))");
}

// Mixed precedence: the higher-precedence operator binds tighter on either
// side.
#[test]
fn precedence_binds_tighter() {
    let mut stream = tokenize("a + b * c");
    let e = parse_expr(&mut stream, Precedence::Lowest, 0, ParseContext::new()).unwrap();
    assert_eq!(e.render(), "(a + (b * c))");

    let mut stream = tokenize("a * b + c");
    let e = parse_expr(&mut stream, Precedence::Lowest, 0, ParseContext::new()).unwrap();
    assert_eq!(e.render(), "((a * b) + c)");
}

// Example: an `if` with no `else` parses to a conditional whose else block
// is absent, and a semicolon-less tail makes every enclosing `has_semi`
// false.
#[test]
fn example_conditional_without_else() {
    let block = parse(tokenize("if x == 90:\n    y\n")).unwrap();
    assert!(!block.has_semi);
    assert_eq!(block.stmts.len(), 1);
    match &block.stmts[0] {
        AstStmt::Expr { expr: AstExpr::ConditionalExpr(c), has_semi } => {
            assert!(!*has_semi);
            assert!(c.else_block.is_none());
            assert_eq!(c.if_block.indent, 1);
            assert!(!c.if_block.has_semi);
            assert_eq!(c.if_block.stmts.len(), 1);
            match &c.if_block.stmts[0] {
                AstStmt::Expr { has_semi, .. } => assert!(!*has_semi),
                other => panic!("unexpected statement {:?}", other),
            }
        }
        other => panic!("unexpected statement {:?}", other),
    }
}

// Example: a semicolon-less expression may only end its block; a further
// statement is rejected where it starts.
#[test]
fn example_statement_after_tail_expression() {
    let r = parse(tokenize("a;\nb\nc;\n"));
    assert_eq!(r, Err(ParseErr::UnexpectedStmt(5, 1)));
}

// Example: an unterminated string literal fails at the opening quote's
// byte offset, and the parser surfaces the lex error.
#[test]
fn example_unterminated_string() {
    let stream = tokenize("\"abc");
    assert_eq!(stream.trailing_err(), Some(LexErr::UnterminatedString(0)));
    let r = parse(tokenize("\"abc"));
    assert_eq!(r, Err(ParseErr::LexErr(LexErr::UnterminatedString(0))));
}

// Assignments end in semicolons and carry their target and value.
#[test]
fn assignment_statement() {
    let block = parse(tokenize("x = 1 + 2;\n")).unwrap();
    assert_eq!(block.stmts.len(), 1);
    assert_eq!(block.render(), "x = (1 + 2);\n");
}

// A `return` statement requires its semicolon.
#[test]
fn return_requires_semicolon() {
    let r = parse(tokenize("return 1\n"));
    assert_eq!(r, Err(ParseErr::ExpectedToken(8, 2, Token::Semicolon)));
    let ok = parse(tokenize("return 1;\n")).unwrap();
    assert_eq!(ok.render(), "return 1;\n");
}

// Indentation must be introduced by a colon-terminated construct.
#[test]
fn bare_indent_is_rejected() {
    let r = parse(tokenize("    x\n"));
    assert_eq!(r, Err(ParseErr::UnexpectedIndent(0, 6, 0)));
}

// A function definition: typed parameters, return type, indented body.
#[test]
fn function_definition() {
    let block = parse(tokenize("def f(a: int, b: str) -> int:\n    return a;\n")).unwrap();
    assert_eq!(block.stmts.len(), 1);
    match &block.stmts[0] {
        AstStmt::FnDef(f) => {
            assert_eq!(f.name, AstLiteral::Ident(ident("f")));
            assert_eq!(f.args.len(), 2);
            assert_eq!(f.body.stmts.len(), 1);
        }
        other => panic!("unexpected statement {:?}", other),
    }
}

// A struct definition: fields, then methods, then the closing dedent.
#[test]
fn struct_definition() {
    let src = "struct P:\n    x: int\n    y: int\nz;\n";
    let block = parse(tokenize(src)).unwrap();
    assert_eq!(block.stmts.len(), 2);
    match &block.stmts[0] {
        AstStmt::StructDef { name, fields, methods } => {
            assert_eq!(*name, AstLiteral::Ident(ident("P")));
            assert_eq!(fields.len(), 2);
            assert_eq!(methods.len(), 0);
        }
        other => panic!("unexpected statement {:?}", other),
    }
}

// A struct definition with a method.
#[test]
fn struct_definition_with_method() {
    let src = "struct P:\n    x: int\n    def get(self: P) -> int:\n        return y;\nz;\n";
    let block = parse(tokenize(src)).unwrap();
    match &block.stmts[0] {
        AstStmt::StructDef { fields, methods, .. } => {
            assert_eq!(fields.len(), 1);
            assert_eq!(methods.len(), 1);
            assert_eq!(methods[0].name, AstLiteral::Ident(ident("get")));
        }
        other => panic!("unexpected statement {:?}", other),
    }
}

// Call expressions: inline arguments, named arguments, attribute access.
#[test]
fn calls_and_attributes() {
    let block = parse(tokenize("f(a, 1);\n")).unwrap();
    assert_eq!(block.render(), "f(a,1);\n");

    let block = parse(tokenize("f(a=1, b);\n")).unwrap();
    assert_eq!(block.render(), "f(a=1,b);\n");

    let block = parse(tokenize("p.x;\n")).unwrap();
    assert_eq!(block.render(), "p.x;\n");
}

// Vertical call layout: one argument per line inside an indented block.
#[test]
fn vertical_call_arguments() {
    let block = parse(tokenize("f(\n    a,\n    b,\n);\n")).unwrap();
    assert_eq!(block.render(), "f(a,b);\n");
}

// A type annotation admits one `mut` qualifier; a second is rejected.
#[test]
fn double_mut_is_rejected() {
    let ok = parse(tokenize("def f(a: mut int) -> int:\n    return a;\n")).unwrap();
    assert_eq!(ok.stmts.len(), 1);
    let r = parse(tokenize("def f(a: mut mut int) -> int:\n    return a;\n"));
    assert_eq!(r, Err(ParseErr::UnexpectedMut(13, 3)));
}

// A parenthesized expression is transparent: no extra node is built.
#[test]
fn parentheses_are_transparent() {
    let mut stream = tokenize("(a + b)");
    let e = parse_expr(&mut stream, Precedence::Lowest, 0, ParseContext::new()).unwrap();
    assert_eq!(e.render(), "(a + b)");
}

// Re-rendering the produced tree and re-parsing it yields a structurally
// equal tree.
#[test]
fn round_trip_is_stable() {
    for src in [
        "a + b + c;\n",
        "x = 1 + 2 * y;\n",
        "if x == 90:\n    y\nelse:\n    z\n",
        "f(a=1, b).attr;\n",
        "not_a_keyword;\nreturn 2;\n",
    ] {
        let first = parse(tokenize(src)).unwrap();
        let rendered = first.render();
        let second = parse(tokenize(rendered.as_str())).unwrap();
        assert_eq!(first, second, "round trip diverged for {:?}", src);
    }
}

// An `else if` chain nests as a conditional in the else branch.
#[test]
fn else_if_chains() {
    let block = parse(tokenize("if a:\n    b\nelse if c:\n    d\nelse:\n    e\n")).unwrap();
    match &block.stmts[0] {
        AstStmt::Expr { expr: AstExpr::ConditionalExpr(c), .. } => {
            match c.else_block.as_deref() {
                Some(AstExpr::ConditionalExpr(inner)) => {
                    assert!(inner.else_block.is_some());
                }
                other => panic!("unexpected else branch {:?}", other),
            }
        }
        other => panic!("unexpected statement {:?}", other),
    }
}

// A token that cannot start an expression is rejected where it stands.
#[test]
fn invalid_expression_start() {
    let r = parse(tokenize("+;\n"));
    assert_eq!(r, Err(ParseErr::InvalidExpressionStart(0, 1)));
}

// A missing colon after an `if` condition is its own error.
#[test]
fn expected_colon() {
    let r = parse(tokenize("if a\n"));
    assert_eq!(r, Err(ParseErr::ExpectedColon(4, 2)));
}

// A definition must be named by an identifier.
#[test]
fn expected_function_name() {
    let r = parse(tokenize("def 1() -> int:\n    return 1;\n"));
    assert_eq!(r, Err(ParseErr::ExpectedFnName(4, 1)));
}

// A type annotation must name a type.
#[test]
fn expected_type_annotation() {
    let r = parse(tokenize("def f(a: 1) -> int:\n    return 1;\n"));
    assert_eq!(r, Err(ParseErr::ExpectedTypeAnnotation(9, 1)));
}

// Reaching the end of input where a token was expected.
#[test]
fn unexpected_end() {
    let r = parse(tokenize("return 1"));
    assert_eq!(r, Err(ParseErr::UnexpectedEnd));
}

// A spaced line that closes two levels at once attaches its statement to
// the right block: `d` below belongs to the outermost conditional's block,
// not to an inner one.
#[test]
fn spaced_dedent_closes_each_level() {
    let src = "if a:\n    if b:\n        if c:\n            x;\n    d;\n";
    let block = parse(tokenize(src)).unwrap();
    assert_eq!(block.stmts.len(), 1);
    match &block.stmts[0] {
        AstStmt::Expr { expr: AstExpr::ConditionalExpr(outer), .. } => {
            assert_eq!(outer.if_block.stmts.len(), 2);
            assert!(matches!(
                &outer.if_block.stmts[0],
                AstStmt::Expr { expr: AstExpr::ConditionalExpr(_), .. }
            ));
            match &outer.if_block.stmts[1] {
                AstStmt::Expr { expr, has_semi } => {
                    assert!(*has_semi);
                    assert_eq!(expr.render(), "d");
                }
                other => panic!("unexpected statement {:?}", other),
            }
        }
        other => panic!("unexpected statement {:?}", other),
    }
}
