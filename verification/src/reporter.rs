//! The diagnostic reporter: passes a successful parse through unchanged and
//! renders any failure as a one-paragraph message against the original
//! source, with the offending span colorized and underlined.
//!
//! All line and column arithmetic works over character indices; the byte
//! offset carried by an error is first mapped to the character it falls on.

use vstd::prelude::*;

use crate::ast::AstBlock;
use crate::lexer::LexErr;
use crate::parser::ParseErr;
use crate::text::{
    byte_len, char_utf8_len, chars_of_str, chars_to_string, lemma_byte_len_nonneg,
    lemma_byte_len_take_bounds, render_nat, spec_render_nat,
};
use crate::token::{spec_render_token, spec_src_len};
use vstd::string::{StrSliceExecFns, StringExecFns};

verus! {

broadcast use vstd::seq::group_seq_axioms, vstd::std_specs::vec::group_vec_axioms;

/// A run of one repeated character.
pub open spec fn spec_repeat(c: char, n: int) -> Seq<char>
    decreases n,
{
    if n <= 0 {
        Seq::empty()
    } else {
        spec_repeat(c, n - 1).push(c)
    }
}

/// The index of the character that byte offset `b` falls on, scanning from
/// character `i`: the first character whose encoding reaches past `b`, or
/// the end of the text.
pub open spec fn char_index_from(s: Seq<char>, i: int, b: int) -> int
    decreases s.len() - i,
{
    if i < 0 || i >= s.len() {
        i
    } else if b < char_utf8_len(s[i]) {
        i
    } else {
        char_index_from(s, i + 1, b - char_utf8_len(s[i]))
    }
}

/// The start of the line character `ci` lies on: the index just after the
/// previous newline, or the start of the text.
pub open spec fn line_start(s: Seq<char>, ci: int) -> int
    decreases ci,
{
    if ci <= 0 {
        0
    } else if s[ci - 1] == '\n' {
        ci
    } else {
        line_start(s, ci - 1)
    }
}

/// The end of the line character `ci` lies on: the index of the next
/// newline, or the end of the text.
pub open spec fn line_end(s: Seq<char>, ci: int) -> int
    decreases s.len() - ci,
{
    if ci < 0 || ci >= s.len() {
        s.len() as int
    } else if s[ci] == '\n' {
        ci
    } else {
        line_end(s, ci + 1)
    }
}

/// How many newlines lie in the first `i` characters.
pub open spec fn count_newlines(s: Seq<char>, i: int) -> int
    decreases i,
{
    if i <= 0 {
        0
    } else {
        count_newlines(s, i - 1) + (
            if 0 <= i - 1 < s.len() && s[i - 1] == '\n' {
                1int
            } else {
                0int
            }
        )
    }
}

/// The line that byte offset `ix` of `src` falls on, as characters.
pub open spec fn spec_line_of(src: Seq<char>, ix: int) -> Seq<char> {
    let ci = char_index_from(src, 0, ix);
    src.subrange(line_start(src, ci), line_end(src, ci))
}

/// The 1-based number of the line that byte offset `ix` falls on. The
/// addition saturates only for a source that fills the whole address
/// space.
pub open spec fn spec_line_number(src: Seq<char>, ix: int) -> int {
    let n = count_newlines(src, char_index_from(src, 0, ix));
    if n < usize::MAX {
        n + 1
    } else {
        usize::MAX as int
    }
}

/// The character index, within its line, that byte offset `ix` falls on.
pub open spec fn spec_column_of(src: Seq<char>, ix: int) -> int {
    let ci = char_index_from(src, 0, ix);
    ci - line_start(src, ci)
}

/// A line with the span of `token_len` characters starting at character
/// `ix` wrapped in the color codes; a span past the end of the line is
/// clamped.
pub open spec fn spec_highlight_line(line: Seq<char>, ix: int, token_len: int) -> Seq<char> {
    let n = line.len() as int;
    let cs = if ix < n { ix } else { n };
    let ce = if ix + token_len < n { ix + token_len } else { n };
    line.take(cs) + "\x1b[91m"@ + line.subrange(cs, ce) + "\x1b[0m"@ + line.skip(ce)
}

/// A line of spaces with a colorized run of carets standing under the span
/// of `token_len` characters starting at character `ix`; a span that would
/// run past the line's end is clamped to the line's length.
pub open spec fn spec_underline_line(line: Seq<char>, ix: int, token_len: int) -> Seq<char> {
    let n = line.len() as int;
    let cs = if ix < n { ix } else { n };
    let ce = if ix + token_len < n { ix + token_len } else { n };
    spec_repeat(' ', cs) + "\x1b[91m"@ + spec_repeat('^', ce - cs) + "\x1b[0m"@ + spec_repeat(
        ' ',
        n - ce,
    )
}

/// A full diagnostic paragraph: the message, the 1-based line number and
/// byte offset, then the highlighted line over its underline.
pub open spec fn spec_print_err(src: Seq<char>, err_msg: Seq<char>, ix: int, len: int) -> Seq<char> {
    let line = spec_line_of(src, ix);
    let col = spec_column_of(src, ix);
    "\n\x1b[1mError: "@ + err_msg + " "@ + spec_render_nat(spec_line_number(src, ix)) + ":"@
        + spec_render_nat(ix) + ":\x1b[0m\n\n\t"@ + spec_highlight_line(line, col, len)
        + "\n\t"@ + spec_underline_line(line, col, len) + "\n\n"@
}

/// The rendered message for one parse error.
pub open spec fn spec_report_err(e: ParseErr, src: Seq<char>) -> Seq<char> {
    match e {
        ParseErr::InvalidExpressionStart(ix, len) => spec_print_err(
            src,
            "Expected Expression at Position"@,
            ix as int,
            len as int,
        ),
        ParseErr::ExpectedSemi(ix, len) => spec_print_err(
            src,
            "Expected Semicolon at Position"@,
            ix as int,
            len as int,
        ),
        ParseErr::ExpectedTypeAnnotation(ix, len) => spec_print_err(
            src,
            "Expected Valid Type In Annotation at Position"@,
            ix as int,
            len as int,
        ),
        ParseErr::ExpectedColon(ix, len) => spec_print_err(
            src,
            "Expected Colon Starting Block"@,
            ix as int,
            len as int,
        ),
        ParseErr::UnexpectedStmt(ix, len) => spec_print_err(
            src,
            "Unexpected Statement (Previous statement may be missing a semicolon)"@,
            ix as int,
            len as int,
        ),
        ParseErr::UnexpectedIndent(ix, len, expected_level) => spec_print_err(
            src,
            "Unexpected Indent Level At Position (Expected "@ + spec_render_nat(
                expected_level as int,
            ) + ")"@,
            ix as int,
            len as int,
        ),
        ParseErr::ExpectedToken(ix, len, t) => spec_print_err(
            src,
            "Expected '"@ + spec_render_token(t@) + "' at Position"@,
            ix as int,
            len as int,
        ),
        ParseErr::UnexpectedMut(ix, len) => spec_print_err(
            src,
            "Unexpected `mut` - Only One Is Allowed Per Type. Encountered at Position"@,
            ix as int,
            len as int,
        ),
        ParseErr::UnexpectedEnd => "Reached Unexpected End Of Input"@,
        ParseErr::LexErr(le) => match le {
            LexErr::UnknownToken(ix, _) => spec_print_err(src, "Lex Err"@, ix as int, 1),
            LexErr::UnterminatedString(ix) => spec_print_err(src, "Lex Err"@, ix as int, 1),
            LexErr::MisalignedIndent(ix) => spec_print_err(src, "Lex Err"@, ix as int, 1),
            LexErr::OverDeepIndent(ix) => spec_print_err(src, "Lex Err"@, ix as int, 1),
            LexErr::InvalidIntLiteral(ix) => spec_print_err(src, "Lex Err"@, ix as int, 1),
        },
        ParseErr::ExpectedFnName(ix, len) => spec_print_err(
            src,
            "Expected Function Name at Position"@,
            ix as int,
            len as int,
        ),
        ParseErr::ExpectedNewline(ix, len) => spec_print_err(
            src,
            "Expected Newline at Position"@,
            ix as int,
            len as int,
        ),
    }
}

/// A run of one repeated character, computed.
fn repeat_char(c: char, n: usize) -> (r: String)
    ensures
        r@ == spec_repeat(c, n as int),
{
    let mut s = String::new();
    let mut j: usize = 0;
    while j < n
        invariant
            j <= n,
            s@ == spec_repeat(c, j as int),
        decreases n - j,
    {
        crate::text::push_char(&mut s, c);
        j = j + 1;
    }
    s
}

/// The index of the character that byte offset `b` falls on, computed.
fn char_index_exec(chars: &Vec<char>, i: usize, b: usize) -> (r: usize)
    requires
        i <= chars@.len(),
    ensures
        r == char_index_from(chars@, i as int, b as int),
        i <= r <= chars@.len(),
        r - i <= b,
    decreases chars@.len() - i,
{
    if i >= chars.len() {
        return i;
    }
    let w = crate::text::utf8_len_of_char(chars[i]);
    if b < w {
        i
    } else {
        char_index_exec(chars, i + 1, b - w)
    }
}

/// The start of the line character `ci` lies on, computed.
fn line_start_exec(chars: &Vec<char>, ci: usize) -> (r: usize)
    requires
        ci <= chars@.len(),
    ensures
        r == line_start(chars@, ci as int),
        r <= ci,
    decreases ci,
{
    if ci == 0 {
        0
    } else if chars[ci - 1] == '\n' {
        ci
    } else {
        line_start_exec(chars, ci - 1)
    }
}

/// The end of the line character `ci` lies on, computed.
fn line_end_exec(chars: &Vec<char>, ci: usize) -> (r: usize)
    requires
        ci <= chars@.len(),
    ensures
        r == line_end(chars@, ci as int),
        ci <= r <= chars@.len(),
    decreases chars@.len() - ci,
{
    if ci >= chars.len() {
        chars.len()
    } else if chars[ci] == '\n' {
        ci
    } else {
        line_end_exec(chars, ci + 1)
    }
}

/// How many newlines lie in the first `i` characters, computed.
fn count_newlines_exec(chars: &Vec<char>, i: usize) -> (r: usize)
    requires
        i <= chars@.len(),
    ensures
        r == count_newlines(chars@, i as int),
        r <= i,
    decreases i,
{
    if i == 0 {
        0
    } else {
        let rest = count_newlines_exec(chars, i - 1);
        if chars[i - 1] == '\n' {
            rest + 1
        } else {
            rest
        }
    }
}

/// The line that byte offset `ix` of `src` falls on, its 1-based line
/// number, and the character index of the offset within the line.
pub fn extract_line(s: &str, ix: usize) -> (r: (String, usize, usize))
    ensures
        r.0@ == spec_line_of(s@, ix as int),
        r.1 == spec_line_number(s@, ix as int),
        r.2 == spec_column_of(s@, ix as int),
{
    let chars = chars_of_str(s);
    let ci = char_index_exec(&chars, 0, ix);
    let start = line_start_exec(&chars, ci);
    let end = line_end_exec(&chars, ci);
    proof {
        lemma_line_start_le_end(chars@, ci as int);
    }
    let line = chars_to_string(&chars, start, end);
    let count = count_newlines_exec(&chars, ci);
    let line_no = if count < usize::MAX {
        count + 1
    } else {
        count
    };
    (line, line_no, ci - start)
}

/// A line's start never lies past its end.
proof fn lemma_line_start_le_end(s: Seq<char>, ci: int)
    requires
        0 <= ci <= s.len(),
    ensures
        line_start(s, ci) <= line_end(s, ci),
        0 <= line_start(s, ci) <= ci,
        ci <= line_end(s, ci) <= s.len(),
    decreases s.len() + ci,
{
    if ci > 0 && s[ci - 1] != '\n' {
        lemma_line_start_le_end_start(s, ci);
    }
    lemma_line_end_bounds(s, ci);
    lemma_line_start_bounds(s, ci);
}

/// Bounds of `line_start`.
proof fn lemma_line_start_bounds(s: Seq<char>, ci: int)
    requires
        0 <= ci,
    ensures
        0 <= line_start(s, ci) <= ci,
    decreases ci,
{
    if ci > 0 && s[ci - 1] != '\n' {
        lemma_line_start_bounds(s, ci - 1);
    }
}

/// Bounds of `line_end`.
proof fn lemma_line_end_bounds(s: Seq<char>, ci: int)
    requires
        0 <= ci <= s.len(),
    ensures
        ci <= line_end(s, ci) <= s.len(),
    decreases s.len() - ci,
{
    if ci < s.len() && s[ci] != '\n' {
        lemma_line_end_bounds(s, ci + 1);
    }
}

/// Helper for `lemma_line_start_le_end`.
proof fn lemma_line_start_le_end_start(s: Seq<char>, ci: int)
    requires
        0 <= ci <= s.len(),
    ensures
        line_start(s, ci) <= line_end(s, ci),
    decreases ci,
{
    lemma_line_start_bounds(s, ci);
    lemma_line_end_bounds(s, ci);
}

/// The line with the error span wrapped in color codes, computed.
pub fn highlight_line(line: &str, ix: usize, token_len: usize) -> (r: String)
    ensures
        r@ == spec_highlight_line(line@, ix as int, token_len as int),
{
    let chars = chars_of_str(line);
    let n = chars.len();
    let cs = if ix < n {
        ix
    } else {
        n
    };
    let ce = if ix <= n && token_len <= n - cs && ix + token_len < n {
        ix + token_len
    } else {
        n
    };
    proof {
        assert(ce == ({
            let m = line@.len() as int;
            if ix + token_len < m {
                ix + token_len
            } else {
                m
            }
        }));
    }
    let r = chars_to_string(&chars, 0, cs).concat("\x1b[91m").concat(
        chars_to_string(&chars, cs, ce).as_str(),
    ).concat("\x1b[0m").concat(chars_to_string(&chars, ce, n).as_str());
    proof {
        assert(r@ =~= spec_highlight_line(line@, ix as int, token_len as int));
    }
    r
}

/// The underline for the error span: spaces, then colorized carets,
/// clamped to the line, computed.
pub fn underline_line(line: &str, ix: usize, token_len: usize) -> (r: String)
    ensures
        r@ == spec_underline_line(line@, ix as int, token_len as int),
{
    let n = line.unicode_len();
    let cs = if ix < n {
        ix
    } else {
        n
    };
    let ce = if ix <= n && token_len <= n - cs && ix + token_len < n {
        ix + token_len
    } else {
        n
    };
    proof {
        assert(ce == ({
            let m = line@.len() as int;
            if ix + token_len < m {
                ix + token_len
            } else {
                m
            }
        }));
    }
    let r = repeat_char(' ', cs).concat("\x1b[91m").concat(
        repeat_char('^', ce - cs).as_str(),
    ).concat("\x1b[0m").concat(repeat_char(' ', n - ce).as_str());
    proof {
        assert(r@ =~= spec_underline_line(line@, ix as int, token_len as int));
    }
    r
}

/// One full diagnostic paragraph for a span of `len` characters at byte
/// offset `ix`, computed.
pub fn print_err(src: &str, err_msg: &str, ix: usize, len: usize) -> (r: String)
    ensures
        r@ == spec_print_err(src@, err_msg@, ix as int, len as int),
{
    let (line, line_no, ix_in_line) = extract_line(src, ix);
    let line_w_underline = underline_line(line.as_str(), ix_in_line, len);
    let hl_line = highlight_line(line.as_str(), ix_in_line, len);
    let r = String::from_str("\n\x1b[1mError: ").concat(err_msg).concat(" ").concat(
        render_nat(line_no as u64).as_str(),
    ).concat(":").concat(render_nat(ix as u64).as_str()).concat(":\x1b[0m\n\n\t").concat(
        hl_line.as_str(),
    ).concat("\n\t").concat(line_w_underline.as_str()).concat("\n\n");
    proof {
        assert(r@ =~= spec_print_err(src@, err_msg@, ix as int, len as int));
    }
    r
}

/// Pass a successful parse through unchanged; render any failure as a
/// human-readable diagnostic against the source.
pub fn report(parsed: Result<AstBlock, ParseErr>, src: &str) -> (r: Result<AstBlock, String>)
    ensures
        match (parsed, r) {
            (Ok(b), Ok(rb)) => rb == b,
            (Err(e), Err(s)) => s@ == spec_report_err(e, src@),
            _ => false,
        },
{
    let err = match parsed {
        Err(e) => e,
        Ok(r) => {
            return Ok(r);
        },
    };
    let msg: String = match &err {
        ParseErr::InvalidExpressionStart(ix, len) => print_err(
            src,
            "Expected Expression at Position",
            *ix,
            *len,
        ),
        ParseErr::ExpectedSemi(ix, len) => print_err(src, "Expected Semicolon at Position", *ix, *len),
        ParseErr::ExpectedTypeAnnotation(ix, len) => print_err(
            src,
            "Expected Valid Type In Annotation at Position",
            *ix,
            *len,
        ),
        ParseErr::ExpectedColon(ix, len) => print_err(src, "Expected Colon Starting Block", *ix, *len),
        ParseErr::UnexpectedStmt(ix, len) => print_err(
            src,
            "Unexpected Statement (Previous statement may be missing a semicolon)",
            *ix,
            *len,
        ),
        ParseErr::UnexpectedIndent(ix, len, expected_level) => {
            let m = String::from_str("Unexpected Indent Level At Position (Expected ").concat(
                render_nat(*expected_level as u64).as_str(),
            ).concat(")");
            print_err(src, m.as_str(), *ix, *len)
        },
        ParseErr::ExpectedToken(ix, len, t) => {
            let m = String::from_str("Expected '").concat(t.render().as_str()).concat(
                "' at Position",
            );
            print_err(src, m.as_str(), *ix, *len)
        },
        ParseErr::UnexpectedMut(ix, len) => print_err(
            src,
            "Unexpected `mut` - Only One Is Allowed Per Type. Encountered at Position",
            *ix,
            *len,
        ),
        ParseErr::UnexpectedEnd => String::from_str("Reached Unexpected End Of Input"),
        ParseErr::LexErr(le) => match le {
            LexErr::UnknownToken(ix, _) => print_err(src, "Lex Err", *ix, 1),
            LexErr::UnterminatedString(ix) => print_err(src, "Lex Err", *ix, 1),
            LexErr::MisalignedIndent(ix) => print_err(src, "Lex Err", *ix, 1),
            LexErr::OverDeepIndent(ix) => print_err(src, "Lex Err", *ix, 1),
            LexErr::InvalidIntLiteral(ix) => print_err(src, "Lex Err", *ix, 1),
        },
        ParseErr::ExpectedFnName(ix, len) => print_err(
            src,
            "Expected Function Name at Position",
            *ix,
            *len,
        ),
        ParseErr::ExpectedNewline(ix, len) => print_err(src, "Expected Newline at Position", *ix, *len),
    };
    Err(msg)
}

} // verus!
