//! Character classification, UTF-8 byte accounting, and small string
//! builders shared by the lexer, the renderers and the reporter.

use vstd::prelude::*;
use vstd::string::StrSliceExecFns;
use vstd::string::StringExecFns;

verus! {

/// What `char::is_alphabetic` returns: a function of the character alone.
pub uninterp spec fn is_alphabetic_char(c: char) -> bool;

/// What `char::is_alphanumeric` returns: a function of the character alone.
pub uninterp spec fn is_alphanumeric_char(c: char) -> bool;

/// What `char::is_numeric` returns: a function of the character alone.
pub uninterp spec fn is_numeric_char(c: char) -> bool;

/// Relies on char::is_alphabetic: whether the character has the Unicode
/// `Alphabetic` property; the result depends on the character alone.
#[verifier::external_body]
pub fn char_is_alphabetic(c: char) -> (r: bool)
    ensures
        r == is_alphabetic_char(c),
{
    c.is_alphabetic()
}

/// Relies on char::is_alphanumeric: whether the character is alphabetic or
/// numeric in Unicode; the result depends on the character alone.
#[verifier::external_body]
pub fn char_is_alphanumeric(c: char) -> (r: bool)
    ensures
        r == is_alphanumeric_char(c),
{
    c.is_alphanumeric()
}

/// Relies on char::is_numeric: whether the character has a Unicode numeric
/// general category; the result depends on the character alone.
#[verifier::external_body]
pub fn char_is_numeric(c: char) -> (r: bool)
    ensures
        r == is_numeric_char(c),
{
    c.is_numeric()
}

/// Relies on String::push: appends exactly one character at the end.
#[verifier::external_body]
pub fn push_char(s: &mut String, c: char)
    ensures
        final(s)@ == old(s)@.push(c),
{
    s.push(c);
}

/// Length in bytes of the UTF-8 encoding of one character.
pub open spec fn char_utf8_len(c: char) -> int {
    if (c as u32) < 0x80 {
        1
    } else if (c as u32) < 0x800 {
        2
    } else if (c as u32) < 0x10000 {
        3
    } else {
        4
    }
}

/// Length in bytes of the UTF-8 encoding of a character sequence.
pub open spec fn byte_len(s: Seq<char>) -> int
    decreases s.len(),
{
    if s.len() == 0 {
        0
    } else {
        char_utf8_len(s[0]) + byte_len(s.drop_first())
    }
}

/// The byte length of one encoded character agrees with `char_utf8_len`.
proof fn lemma_char_encode_len(c: char)
    ensures
        vstd::utf8::encode_scalar(c as u32).len() == char_utf8_len(c),
{
    let u = c as u32;
    assert(!(0xD800 <= u && u <= 0xDFFF));
    if u < 0x80 {
        assert(vstd::utf8::encode_scalar(u).len() == 1);
    } else if u < 0x800 {
        assert(vstd::utf8::encode_scalar(u).len() == 2);
    } else if u < 0x10000 {
        assert(vstd::utf8::encode_scalar(u).len() == 3);
    } else {
        assert(vstd::utf8::encode_scalar(u).len() == 4);
    }
}

/// `byte_len` agrees with the byte length of vstd's UTF-8 encoding.
pub proof fn lemma_byte_len_encode(s: Seq<char>)
    ensures
        byte_len(s) == vstd::utf8::encode_utf8(s).len(),
    decreases s.len(),
{
    if s.len() > 0 {
        lemma_char_encode_len(s[0]);
        lemma_byte_len_encode(s.drop_first());
    }
}

/// `byte_len` of a sequence with one character appended.
pub proof fn lemma_byte_len_push(s: Seq<char>, c: char)
    ensures
        byte_len(s.push(c)) == byte_len(s) + char_utf8_len(c),
    decreases s.len(),
{
    if s.len() == 0 {
        assert(s.push(c).drop_first() =~= s);
    } else {
        assert(s.push(c).drop_first() =~= s.drop_first().push(c));
        lemma_byte_len_push(s.drop_first(), c);
    }
}

/// Extending a prefix by one character adds that character's byte length.
pub proof fn lemma_byte_len_take_step(s: Seq<char>, i: int)
    requires
        0 <= i < s.len(),
    ensures
        byte_len(s.take(i + 1)) == byte_len(s.take(i)) + char_utf8_len(s[i]),
{
    assert(s.take(i + 1) =~= s.take(i).push(s[i]));
    lemma_byte_len_push(s.take(i), s[i]);
}

/// Byte lengths are non-negative and monotone in the prefix taken.
pub proof fn lemma_byte_len_take_bounds(s: Seq<char>, i: int)
    requires
        0 <= i <= s.len(),
    ensures
        0 <= byte_len(s.take(i)) <= byte_len(s),
    decreases s.len() - i,
{
    if i == s.len() {
        assert(s.take(i) =~= s);
        lemma_byte_len_nonneg(s);
    } else {
        lemma_byte_len_take_step(s, i);
        lemma_byte_len_nonneg(s.take(i));
        lemma_byte_len_take_bounds(s, i + 1);
    }
}

/// A byte length is never negative.
pub proof fn lemma_byte_len_nonneg(s: Seq<char>)
    ensures
        byte_len(s) >= 0,
    decreases s.len(),
{
    if s.len() > 0 {
        lemma_byte_len_nonneg(s.drop_first());
    }
}

/// Length in bytes of the UTF-8 encoding of one character.
pub fn utf8_len_of_char(c: char) -> (r: usize)
    ensures
        r == char_utf8_len(c),
{
    let u = c as u32;
    if u < 0x80 {
        1
    } else if u < 0x800 {
        2
    } else if u < 0x10000 {
        3
    } else {
        4
    }
}

/// The characters of a string slice, as a vector.
pub fn chars_of_str(s: &str) -> (r: Vec<char>)
    ensures
        r@ == s@,
        byte_len(s@) <= usize::MAX,
{
    proof {
        lemma_byte_len_encode(s@);
    }
    let bytes = s.as_bytes();
    let _total = bytes.len();
    let n = s.unicode_len();
    let mut v: Vec<char> = Vec::new();
    let mut i: usize = 0;
    while i < n
        invariant
            i <= n,
            n == s@.len(),
            v@ =~= s@.take(i as int),
        decreases n - i,
    {
        v.push(s.get_char(i));
        i += 1;
    }
    proof {
        assert(v@ =~= s@);
    }
    v
}

/// The characters `chars[from..to]`, copied into an owned string.
pub fn chars_to_string(chars: &Vec<char>, from: usize, to: usize) -> (r: String)
    requires
        from <= to <= chars@.len(),
    ensures
        r@ == chars@.subrange(from as int, to as int),
{
    let mut s = String::new();
    let mut i: usize = from;
    while i < to
        invariant
            from <= i <= to <= chars@.len(),
            s@ =~= chars@.subrange(from as int, i as int),
        decreases to - i,
    {
        push_char(&mut s, chars[i]);
        proof {
            assert(s@ =~= chars@.subrange(from as int, i + 1 as int));
        }
        i += 1;
    }
    s
}

/// Whether `chars[from..to]` spells exactly the characters of `lit`.
pub fn range_matches_str(chars: &Vec<char>, from: usize, to: usize, lit: &str) -> (r: bool)
    requires
        from <= to <= chars@.len(),
    ensures
        r == (chars@.subrange(from as int, to as int) == lit@),
{
    let n = lit.unicode_len();
    if to - from != n {
        proof {
            assert(chars@.subrange(from as int, to as int).len() != lit@.len());
        }
        return false;
    }
    let mut i: usize = 0;
    while i < n
        invariant
            i <= n,
            n == lit@.len(),
            from + n <= to <= chars@.len(),
            to - from == n,
            forall|j: int| 0 <= j < i ==> chars@[from + j] == lit@[j],
        decreases n - i,
    {
        if chars[from + i] != lit.get_char(i) {
            proof {
                assert(chars@.subrange(from as int, to as int)[i as int] != lit@[i as int]);
            }
            return false;
        }
        i += 1;
    }
    proof {
        assert(chars@.subrange(from as int, to as int) =~= lit@);
    }
    true
}

/// The character for one decimal digit.
pub open spec fn spec_digit_char(d: int) -> char {
    if d == 0 {
        '0'
    } else if d == 1 {
        '1'
    } else if d == 2 {
        '2'
    } else if d == 3 {
        '3'
    } else if d == 4 {
        '4'
    } else if d == 5 {
        '5'
    } else if d == 6 {
        '6'
    } else if d == 7 {
        '7'
    } else if d == 8 {
        '8'
    } else {
        '9'
    }
}

/// The decimal rendering of a non-negative integer, without sign.
pub open spec fn spec_render_nat(n: int) -> Seq<char>
    decreases n,
{
    if n < 10 {
        seq![spec_digit_char(n)]
    } else {
        spec_render_nat(n / 10).push(spec_digit_char(n % 10))
    }
}

/// The decimal rendering of a signed 32-bit integer.
pub open spec fn spec_render_int(i: int) -> Seq<char> {
    if i < 0 {
        seq!['-'] + spec_render_nat(-i)
    } else {
        spec_render_nat(i)
    }
}

fn digit_char(d: u64) -> (r: char)
    requires
        d < 10,
    ensures
        r == spec_digit_char(d as int),
{
    match d {
        0 => '0',
        1 => '1',
        2 => '2',
        3 => '3',
        4 => '4',
        5 => '5',
        6 => '6',
        7 => '7',
        8 => '8',
        _ => '9',
    }
}

/// The decimal rendering of a non-negative number.
pub fn render_nat(n: u64) -> (r: String)
    ensures
        r@ == spec_render_nat(n as int),
    decreases n,
{
    if n < 10 {
        let mut s = String::new();
        push_char(&mut s, digit_char(n));
        proof {
            assert(s@ =~= spec_render_nat(n as int));
        }
        s
    } else {
        let mut s = render_nat(n / 10);
        push_char(&mut s, digit_char(n % 10));
        s
    }
}

/// The decimal rendering of a signed 32-bit integer, as `{}` formatting
/// would print it.
pub fn render_int(i: i32) -> (r: String)
    ensures
        r@ == spec_render_int(i as int),
{
    if i < 0 {
        let mag: u64 = (-(i as i64)) as u64;
        let mut s = String::new();
        push_char(&mut s, '-');
        let digits = render_nat(mag);
        let out = s.concat(digits.as_str());
        proof {
            assert(out@ =~= spec_render_int(i as int));
        }
        out
    } else {
        render_nat(i as u64)
    }
}

} // verus!
