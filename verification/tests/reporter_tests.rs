use lang_front::parser::{parse, tokenize};
use lang_front::reporter::{extract_line, highlight_line, print_err, report, underline_line};

// A successful parse passes through the reporter unchanged.
#[test]
fn report_passes_success_through() {
    let src = "a + b;\n";
    let parsed = parse(tokenize(src)).unwrap();
    let again = parse(tokenize(src));
    assert_eq!(report(again, src), Ok(parsed));
}

// Line extraction: the line around a byte offset, its 1-based number, and
// the column within the line.
#[test]
fn extract_line_finds_the_line() {
    let src = "first\nsecond\nthird";
    assert_eq!(extract_line(src, 0), (String::from("first"), 1, 0));
    assert_eq!(extract_line(src, 7), (String::from("second"), 2, 1));
    assert_eq!(extract_line(src, 13), (String::from("third"), 3, 0));
}

// Column arithmetic works over characters even when earlier bytes are
// multi-byte.
#[test]
fn extract_line_multibyte() {
    let src = "é x";
    // Byte 3 is the `x`: `é` occupies bytes 0..2.
    let (line, no, col) = extract_line(src, 3);
    assert_eq!(line, "é x");
    assert_eq!(no, 1);
    assert_eq!(col, 2);
}

// Highlighting wraps the span in color codes; spans past the end clamp,
// in the underline's caret run too.
#[test]
fn highlight_and_underline() {
    assert_eq!(highlight_line("abcd", 1, 2), "a\u{1b}[91mbc\u{1b}[0md");
    assert_eq!(underline_line("abcd", 1, 2), " \u{1b}[91m^^\u{1b}[0m ");
    assert_eq!(highlight_line("ab", 1, 5), "a\u{1b}[91mb\u{1b}[0m");
    assert_eq!(underline_line("ab", 1, 5), " \u{1b}[91m^\u{1b}[0m");
}

// The full diagnostic paragraph, exactly.
#[test]
fn print_err_format() {
    let msg = print_err("?;", "Lex Err", 0, 1);
    assert_eq!(
        msg,
        "\n\u{1b}[1mError: Lex Err 1:0:\u{1b}[0m\n\n\t\u{1b}[91m?\u{1b}[0m;\n\t\u{1b}[91m^\u{1b}[0m \n\n"
    );
}

// A lex failure reaches the reporter as a rendered paragraph.
#[test]
fn report_renders_lex_error() {
    let src = "?;";
    let msg = report(parse(tokenize(src)), src).unwrap_err();
    assert!(msg.contains("Error: Lex Err 1:0:"));
    assert!(msg.contains("\u{1b}[91m?\u{1b}[0m;"));
}

// End of input has its own message, with no span to point at.
#[test]
fn report_unexpected_end() {
    let src = "return 1";
    let msg = report(parse(tokenize(src)), src).unwrap_err();
    assert_eq!(msg, "Reached Unexpected End Of Input");
}

// A missing-token failure names the expected token.
#[test]
fn report_expected_token() {
    let src = "return 1\n";
    let msg = report(parse(tokenize(src)), src).unwrap_err();
    assert!(msg.contains("Expected ';' at Position"));
}

// The statement-after-tail-expression failure points at the extra
// statement.
#[test]
fn report_unexpected_statement() {
    let src = "a;\nb\nc;\n";
    let msg = report(parse(tokenize(src)), src).unwrap_err();
    assert!(msg.contains("Unexpected Statement (Previous statement may be missing a semicolon)"));
    assert!(msg.contains(" 3:5:"));
}
