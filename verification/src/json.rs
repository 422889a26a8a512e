//! Shared JSON machinery: escaping of string values, decimal printing of
//! integers, and the low-level scanning primitives that the response
//! decoders are built from.
//!
//! The emitting side carries exact contracts: the produced characters are
//! pinned down by spec functions. The scanning side is a plain
//! recursive-descent reader over a character vector; its contracts state
//! the bounds that callers rely on.

use vstd::prelude::*;

verus! {

/// Relies on `alloc::string::String::push`: appends one character at the
/// end of the string, as its standard-library documentation states.
pub assume_specification[ String::push ](s: &mut String, ch: char)
    ensures
        final(s)@ == old(s)@.push(ch),
;

/// The code point of a character.
pub open spec fn code_of(c: char) -> int {
    c as int
}

/// The character with the given code point.
pub open spec fn char_of(cp: int) -> char {
    choose|c: char| code_of(c) == cp
}

/// Relies on `core::char::from_u32`: returns the character with the given
/// code point (`char_of`), or `None` when the value is a surrogate or
/// above the Unicode maximum, as its standard-library documentation
/// states.
pub assume_specification[ char::from_u32 ](i: u32) -> (r: Option<char>)
    ensures
        r is Some <==> (i < 0xD800 || (0xE000 <= i && i <= 0x10FFFF)),
        r matches Some(c) ==> c as u32 == i && c == char_of(i as int),
;

/// The decimal digit character for a value below ten.
pub open spec fn digit_char(d: int) -> char {
    if d == 0 {
        '0'
    } else if d == 1 {
        '1'
    } else if d == 2 {
        '2'
    } else if d == 3 {
        '3'
    } else if d == 4 {
        '4'
    } else if d == 5 {
        '5'
    } else if d == 6 {
        '6'
    } else if d == 7 {
        '7'
    } else if d == 8 {
        '8'
    } else {
        '9'
    }
}

/// The decimal digits of a nonnegative integer, most significant first,
/// with no leading zeros (a single zero for zero itself).
pub open spec fn dec_digits(n: nat) -> Seq<char>
    decreases n,
{
    if n < 10 {
        seq![digit_char(n as int)]
    } else {
        dec_digits(n / 10).push(digit_char((n % 10) as int))
    }
}

/// The decimal form of an integer: the digits, with a leading minus sign
/// when the value is negative.
pub open spec fn int_digits(n: int) -> Seq<char> {
    if n < 0 {
        seq!['-'] + dec_digits((-n) as nat)
    } else {
        dec_digits(n as nat)
    }
}

/// The lowercase hexadecimal digit character for a value below sixteen.
pub open spec fn hex_char(d: int) -> char {
    if d < 10 {
        digit_char(d)
    } else if d == 10 {
        'a'
    } else if d == 11 {
        'b'
    } else if d == 12 {
        'c'
    } else if d == 13 {
        'd'
    } else if d == 14 {
        'e'
    } else {
        'f'
    }
}

/// How one character appears inside a JSON string value: quotes and
/// backslashes are escaped, the named control characters take their short
/// escapes, the remaining control characters take the four-digit form,
/// and every other character stands as itself.
pub open spec fn escape_char(c: char) -> Seq<char> {
    if c == '"' {
        "\\\""@
    } else if c == '\\' {
        "\\\\"@
    } else if c == '\u{8}' {
        "\\b"@
    } else if c == '\t' {
        "\\t"@
    } else if c == '\n' {
        "\\n"@
    } else if c == '\u{c}' {
        "\\f"@
    } else if c == '\r' {
        "\\r"@
    } else if (c as int) < 0x20 {
        "\\u00"@ + seq![hex_char(c as int / 16), hex_char(c as int % 16)]
    } else {
        seq![c]
    }
}

/// The escaped form of a whole string value, character by character.
pub open spec fn escape_seq(s: Seq<char>) -> Seq<char>
    decreases s.len(),
{
    if s.len() == 0 {
        Seq::empty()
    } else {
        escape_seq(s.drop_last()) + escape_char(s.last())
    }
}

/// A quoted JSON string value: the escaped characters between two quotes.
pub open spec fn json_string(s: Seq<char>) -> Seq<char> {
    "\""@ + escape_seq(s) + "\""@
}

fn digit_of(d: u32) -> (c: char)
    requires
        d < 10,
    ensures
        c == digit_char(d as int),
{
    if d == 0 {
        '0'
    } else if d == 1 {
        '1'
    } else if d == 2 {
        '2'
    } else if d == 3 {
        '3'
    } else if d == 4 {
        '4'
    } else if d == 5 {
        '5'
    } else if d == 6 {
        '6'
    } else if d == 7 {
        '7'
    } else if d == 8 {
        '8'
    } else {
        '9'
    }
}

fn hex_of(d: u32) -> (c: char)
    requires
        d < 16,
    ensures
        c == hex_char(d as int),
{
    if d < 10 {
        digit_of(d)
    } else if d == 10 {
        'a'
    } else if d == 11 {
        'b'
    } else if d == 12 {
        'c'
    } else if d == 13 {
        'd'
    } else if d == 14 {
        'e'
    } else {
        'f'
    }
}

/// Prints an unsigned integer in decimal.
pub fn u32_digits(n: u32) -> (r: String)
    ensures
        r@ == dec_digits(n as nat),
    decreases n,
{
    if n < 10 {
        let mut s = String::new();
        s.push(digit_of(n));
        proof {
            assert(s@ =~= dec_digits(n as nat));
        }
        s
    } else {
        let mut s = u32_digits(n / 10);
        s.push(digit_of(n % 10));
        s
    }
}

/// Prints a signed byte-sized integer in decimal.
pub fn i8_digits(n: i8) -> (r: String)
    ensures
        r@ == int_digits(n as int),
{
    if n < 0 {
        let wide: i32 = n as i32;
        let mag: u32 = (-wide) as u32;
        let mut s = String::new();
        s.push('-');
        let d = u32_digits(mag);
        s.append(d.as_str());
        proof {
            assert(s@ =~= int_digits(n as int));
        }
        s
    } else {
        u32_digits(n as u32)
    }
}

fn append_escaped(out: &mut String, c: char)
    ensures
        final(out)@ == old(out)@ + escape_char(c),
{
    if c == '"' {
        out.append("\\\"");
    } else if c == '\\' {
        out.append("\\\\");
    } else if c == '\u{8}' {
        out.append("\\b");
    } else if c == '\t' {
        out.append("\\t");
    } else if c == '\n' {
        out.append("\\n");
    } else if c == '\u{c}' {
        out.append("\\f");
    } else if c == '\r' {
        out.append("\\r");
    } else {
        let u = c as u32;
        if u < 0x20 {
            out.append("\\u00");
            out.push(hex_of(u / 16));
            out.push(hex_of(u % 16));
            proof {
                assert(out@ =~= old(out)@ + escape_char(c));
            }
        } else {
            out.push(c);
            proof {
                assert(out@ =~= old(out)@ + escape_char(c));
            }
        }
    }
}

/// Appends the quoted, escaped JSON form of a string value.
pub fn append_json_string(out: &mut String, s: &str)
    ensures
        final(out)@ == old(out)@ + json_string(s@),
{
    let n = s.unicode_len();
    out.append("\"");
    let mut i: usize = 0;
    while i < n
        invariant
            i <= n,
            n == s@.len(),
            out@ == old(out)@ + "\""@ + escape_seq(s@.subrange(0, i as int)),
        decreases n - i,
    {
        let c = s.get_char(i);
        append_escaped(out, c);
        proof {
            let pre = s@.subrange(0, i as int);
            let ext = s@.subrange(0, i as int + 1);
            assert(ext.drop_last() =~= pre);
            assert(ext.last() == s@[i as int]);
        }
        i += 1;
    }
    proof {
        assert(s@.subrange(0, n as int) =~= s@);
    }
    out.append("\"");
    proof {
        assert(out@ =~= old(out)@ + json_string(s@));
    }
}

/// The characters of a string, in order, as a vector.
pub fn chars_of(s: &str) -> (r: Vec<char>)
    ensures
        r@ == s@,
{
    let n = s.unicode_len();
    let mut v: Vec<char> = Vec::new();
    let mut i: usize = 0;
    while i < n
        invariant
            i <= n,
            n == s@.len(),
            v@ == s@.subrange(0, i as int),
        decreases n - i,
    {
        v.push(s.get_char(i));
        proof {
            assert(v@ =~= s@.subrange(0, i as int + 1));
        }
        i += 1;
    }
    proof {
        assert(s@.subrange(0, n as int) =~= s@);
    }
    v
}

/// Whether a character is a decimal digit.
pub open spec fn is_digit_spec(c: char) -> bool {
    48 <= c as int <= 57
}

pub fn is_digit_exec(c: char) -> (b: bool)
    ensures
        b == is_digit_spec(c),
{
    let u = c as u32;
    48 <= u && u <= 57
}

/// Whether a character is JSON whitespace.
pub open spec fn is_ws(c: char) -> bool {
    c == ' ' || c == '\t' || c == '\n' || c == '\r'
}

/// The position after the run of whitespace that starts at `i`.
pub open spec fn sskip_ws(v: Seq<char>, i: int) -> int
    decreases v.len() - i,
{
    if 0 <= i && i < v.len() && is_ws(v[i]) {
        sskip_ws(v, i + 1)
    } else {
        i
    }
}

/// Advances past the JSON whitespace characters.
pub fn skip_ws(v: &Vec<char>, i: usize) -> (j: usize)
    requires
        i <= v@.len(),
    ensures
        i <= j <= v@.len(),
        j as int == sskip_ws(v@, i as int),
    decreases v@.len() - i,
{
    if i < v.len() {
        let c = v[i];
        if c == ' ' || c == '\t' || c == '\n' || c == '\r' {
            return skip_ws(v, i + 1);
        }
    }
    i
}

/// The value of one hexadecimal digit character.
pub open spec fn shex(c: char) -> Option<u32> {
    let u = c as int;
    if 48 <= u && u <= 57 {
        Some((u - 48) as u32)
    } else if 97 <= u && u <= 102 {
        Some((u - 87) as u32)
    } else if 65 <= u && u <= 70 {
        Some((u - 55) as u32)
    } else {
        None
    }
}

fn hex_val(c: char) -> (r: Option<u32>)
    ensures
        r == shex(c),
{
    let u = c as u32;
    if 48 <= u && u <= 57 {
        Some(u - 48)
    } else if 97 <= u && u <= 102 {
        Some(u - 87)
    } else if 65 <= u && u <= 70 {
        Some(u - 55)
    } else {
        None
    }
}

/// The code point written by four hexadecimal digit characters.
pub open spec fn shex4(v: Seq<char>, i: int) -> Option<u32> {
    if !(0 <= i && i + 4 <= v.len()) {
        None
    } else {
        match (shex(v[i]), shex(v[i + 1]), shex(v[i + 2]), shex(v[i + 3])) {
            (Some(h0), Some(h1), Some(h2), Some(h3)) => Some(
                (h0 * 4096 + h1 * 256 + h2 * 16 + h3) as u32,
            ),
            _ => None,
        }
    }
}

fn parse_hex4(v: &Vec<char>, i: usize) -> (r: Option<u32>)
    requires
        i + 4 <= v@.len() <= usize::MAX,
    ensures
        r == shex4(v@, i as int),
        r matches Some(cp) ==> cp < 0x10000,
{
    let h0 = match hex_val(v[i]) {
        Some(d) => d,
        None => {
            return None;
        },
    };
    let h1 = match hex_val(v[i + 1]) {
        Some(d) => d,
        None => {
            return None;
        },
    };
    let h2 = match hex_val(v[i + 2]) {
        Some(d) => d,
        None => {
            return None;
        },
    };
    let h3 = match hex_val(v[i + 3]) {
        Some(d) => d,
        None => {
            return None;
        },
    };
    Some(h0 * 4096 + h1 * 256 + h2 * 16 + h3)
}

/// The decoded characters and end position of the quoted JSON string
/// whose opening quote stands at `i`, or `None` where the input is not
/// a JSON string: unterminated, a raw control character, a bad escape,
/// or an unpaired surrogate escape.
pub open spec fn sstring(v: Seq<char>, i: int) -> Option<(Seq<char>, int)> {
    if 0 <= i && i < v.len() && v[i] == '"' {
        sstring_tail(v, i + 1, Seq::empty())
    } else {
        None
    }
}

/// The remainder of a JSON string from inside the quotes, with the
/// characters decoded so far.
pub open spec fn sstring_tail(v: Seq<char>, j: int, out: Seq<char>) -> Option<(Seq<char>, int)>
    decreases v.len() - j,
{
    if !(0 <= j && j < v.len()) {
        None
    } else {
        let c = v[j];
        if c == '"' {
            Some((out, j + 1))
        } else if c == '\\' {
            if j + 2 > v.len() {
                None
            } else {
                let e = v[j + 1];
                if e == '"' {
                    sstring_tail(v, j + 2, out.push('"'))
                } else if e == '\\' {
                    sstring_tail(v, j + 2, out.push('\\'))
                } else if e == '/' {
                    sstring_tail(v, j + 2, out.push('/'))
                } else if e == 'b' {
                    sstring_tail(v, j + 2, out.push('\u{8}'))
                } else if e == 'f' {
                    sstring_tail(v, j + 2, out.push('\u{c}'))
                } else if e == 'n' {
                    sstring_tail(v, j + 2, out.push('\n'))
                } else if e == 'r' {
                    sstring_tail(v, j + 2, out.push('\r'))
                } else if e == 't' {
                    sstring_tail(v, j + 2, out.push('\t'))
                } else if e == 'u' {
                    if j + 6 > v.len() {
                        None
                    } else {
                        match shex4(v, j + 2) {
                            None => None,
                            Some(cp) => {
                                if 0xD800 <= cp && cp < 0xDC00 {
                                    if j + 12 > v.len() {
                                        None
                                    } else if v[j + 6] != '\\' || v[j + 7] != 'u' {
                                        None
                                    } else {
                                        match shex4(v, j + 8) {
                                            None => None,
                                            Some(lo) => {
                                                if !(0xDC00 <= lo && lo < 0xE000) {
                                                    None
                                                } else {
                                                    sstring_tail(
                                                        v,
                                                        j + 12,
                                                        out.push(
                                                            char_of(
                                                                0x10000 + (cp - 0xD800) * 1024 + (
                                                                lo - 0xDC00),
                                                            ),
                                                        ),
                                                    )
                                                }
                                            },
                                        }
                                    }
                                } else if 0xDC00 <= cp && cp < 0xE000 {
                                    None
                                } else {
                                    sstring_tail(v, j + 6, out.push(char_of(cp as int)))
                                }
                            },
                        }
                    }
                } else {
                    None
                }
            }
        } else if (c as u32) < 0x20 {
            None
        } else {
            sstring_tail(v, j + 1, out.push(c))
        }
    }
}

fn parse_string_tail(v: &Vec<char>, j: usize, out: String) -> (r: Option<(String, usize)>)
    requires
        j <= v@.len(),
    ensures
        r is Some <==> sstring_tail(v@, j as int, out@) is Some,
        r matches Some(p) ==> (sstring_tail(v@, j as int, out@) == Some((p.0@, p.1 as int)) && j
            < p.1 <= v@.len()),
    decreases v@.len() - j,
{
    if j >= v.len() {
        return None;
    }
    let c = v[j];
    if c == '"' {
        Some((out, j + 1))
    } else if c == '\\' {
        if v.len() - j < 2 {
            return None;
        }
        let e = v[j + 1];
        let mut out = out;
        if e == '"' {
            out.push('"');
            parse_string_tail(v, j + 2, out)
        } else if e == '\\' {
            out.push('\\');
            parse_string_tail(v, j + 2, out)
        } else if e == '/' {
            out.push('/');
            parse_string_tail(v, j + 2, out)
        } else if e == 'b' {
            out.push('\u{8}');
            parse_string_tail(v, j + 2, out)
        } else if e == 'f' {
            out.push('\u{c}');
            parse_string_tail(v, j + 2, out)
        } else if e == 'n' {
            out.push('\n');
            parse_string_tail(v, j + 2, out)
        } else if e == 'r' {
            out.push('\r');
            parse_string_tail(v, j + 2, out)
        } else if e == 't' {
            out.push('\t');
            parse_string_tail(v, j + 2, out)
        } else if e == 'u' {
            if v.len() - j < 6 {
                return None;
            }
            let cp = match parse_hex4(v, j + 2) {
                Some(x) => x,
                None => {
                    return None;
                },
            };
            if 0xD800 <= cp && cp < 0xDC00 {
                if v.len() - j < 12 {
                    return None;
                }
                if v[j + 6] != '\\' || v[j + 7] != 'u' {
                    return None;
                }
                let lo = match parse_hex4(v, j + 8) {
                    Some(x) => x,
                    None => {
                        return None;
                    },
                };
                if !(0xDC00 <= lo && lo < 0xE000) {
                    return None;
                }
                let code = 0x10000 + (cp - 0xD800) * 1024 + (lo - 0xDC00);
                match char::from_u32(code) {
                    Some(ch) => {
                        proof {
                            assert(ch == char_of(code as int));
                        }
                        out.push(ch);
                        parse_string_tail(v, j + 12, out)
                    },
                    None => {
                        proof {
                            assert(false);
                        }
                        None
                    },
                }
            } else if 0xDC00 <= cp && cp < 0xE000 {
                None
            } else {
                match char::from_u32(cp) {
                    Some(ch) => {
                        proof {
                            assert(ch == char_of(cp as int));
                        }
                        out.push(ch);
                        parse_string_tail(v, j + 6, out)
                    },
                    None => {
                        proof {
                            assert(false);
                        }
                        None
                    },
                }
            }
        } else {
            None
        }
    } else if (c as u32) < 0x20 {
        None
    } else {
        let mut out = out;
        out.push(c);
        parse_string_tail(v, j + 1, out)
    }
}

/// Reads a quoted JSON string starting at `i`, resolving escapes, and
/// returns exactly the decoded value and end position that `sstring`
/// gives, or `None` exactly where `sstring` gives `None`.
pub fn parse_string(v: &Vec<char>, i: usize) -> (r: Option<(String, usize)>)
    requires
        i <= v@.len(),
    ensures
        r is Some <==> sstring(v@, i as int) is Some,
        r matches Some(p) ==> (sstring(v@, i as int) == Some((p.0@, p.1 as int)) && i < p.1
            <= v@.len()),
{
    if i >= v.len() || v[i] != '"' {
        return None;
    }
    parse_string_tail(v, i + 1, String::new())
}

/// The position after the run of decimal digits that starts at `j`.
pub open spec fn sskip_digits(v: Seq<char>, j: int) -> int
    decreases v.len() - j,
{
    if 0 <= j && j < v.len() && is_digit_spec(v[j]) {
        sskip_digits(v, j + 1)
    } else {
        j
    }
}

fn skip_digits(v: &Vec<char>, j: usize) -> (k: usize)
    requires
        j <= v@.len(),
    ensures
        j <= k <= v@.len(),
        k as int == sskip_digits(v@, j as int),
        j < v@.len() && is_digit_spec(v@[j as int]) ==> k > j,
    decreases v@.len() - j,
{
    if j < v.len() && is_digit_exec(v[j]) {
        skip_digits(v, j + 1)
    } else {
        j
    }
}

/// The end position of the JSON number that starts at `i`, or `None`
/// where the text there does not follow the JSON number grammar.
pub open spec fn sscan_number(v: Seq<char>, i: int) -> Option<int> {
    let j0 = if 0 <= i && i < v.len() && v[i] == '-' {
        i + 1
    } else {
        i
    };
    if !(0 <= j0 && j0 < v.len() && is_digit_spec(v[j0])) {
        None
    } else {
        let j1 = if v[j0] == '0' {
            j0 + 1
        } else {
            sskip_digits(v, j0)
        };
        let j2o = if j1 < v.len() && v[j1] == '.' {
            if j1 + 1 < v.len() && is_digit_spec(v[j1 + 1]) {
                Some(sskip_digits(v, j1 + 1))
            } else {
                None
            }
        } else {
            Some(j1)
        };
        match j2o {
            None => None,
            Some(j2) => {
                if j2 < v.len() && (v[j2] == 'e' || v[j2] == 'E') {
                    let j3 = if j2 + 1 < v.len() && (v[j2 + 1] == '+' || v[j2 + 1] == '-') {
                        j2 + 2
                    } else {
                        j2 + 1
                    };
                    if j3 < v.len() && is_digit_spec(v[j3]) {
                        Some(sskip_digits(v, j3))
                    } else {
                        None
                    }
                } else {
                    Some(j2)
                }
            },
        }
    }
}

/// Advances past one JSON number; the result is exactly `sscan_number`.
pub fn scan_number(v: &Vec<char>, i: usize) -> (r: Option<usize>)
    requires
        i <= v@.len(),
    ensures
        r is Some <==> sscan_number(v@, i as int) is Some,
        r matches Some(j) ==> (sscan_number(v@, i as int) == Some(j as int) && i < j <= v@.len()),
{
    let j0 = if i < v.len() && v[i] == '-' {
        i + 1
    } else {
        i
    };
    if j0 >= v.len() || !is_digit_exec(v[j0]) {
        return None;
    }
    let j1 = if v[j0] == '0' {
        j0 + 1
    } else {
        skip_digits(v, j0)
    };
    let j2 = if j1 < v.len() && v[j1] == '.' {
        if j1 + 1 < v.len() && is_digit_exec(v[j1 + 1]) {
            skip_digits(v, j1 + 1)
        } else {
            return None;
        }
    } else {
        j1
    };
    if j2 < v.len() && (v[j2] == 'e' || v[j2] == 'E') {
        let j3 = if j2 + 1 < v.len() && (v[j2 + 1] == '+' || v[j2 + 1] == '-') {
            j2 + 2
        } else {
            j2 + 1
        };
        if j3 < v.len() && is_digit_exec(v[j3]) {
            Some(skip_digits(v, j3))
        } else {
            None
        }
    } else {
        Some(j2)
    }
}

/// The value and end position of a digit run read as an unsigned
/// integer, continuing with the given accumulator; `None` on overflow or
/// where a fraction or exponent follows.
pub open spec fn su64_tail(v: Seq<char>, j: int, acc: u64) -> Option<(u64, int)>
    decreases v.len() - j,
{
    if 0 <= j && j < v.len() && is_digit_spec(v[j]) {
        let d = v[j] as int - 48;
        if acc as int * 10 + d > u64::MAX as int {
            None
        } else {
            su64_tail(v, j + 1, (acc as int * 10 + d) as u64)
        }
    } else if 0 <= j && j < v.len() && (v[j] == '.' || v[j] == 'e' || v[j] == 'E') {
        None
    } else {
        Some((acc, j))
    }
}

/// The value and end position of the JSON number at `i` read as an
/// unsigned integer, or `None` where it is signed, fractional, has an
/// exponent or a leading zero, or does not fit.
pub open spec fn su64(v: Seq<char>, i: int) -> Option<(u64, int)> {
    if !(0 <= i && i < v.len() && is_digit_spec(v[i])) {
        None
    } else if v[i] == '0' {
        if i + 1 < v.len() && (is_digit_spec(v[i + 1]) || v[i + 1] == '.' || v[i + 1] == 'e' || v[i
            + 1] == 'E') {
            None
        } else {
            Some((0, i + 1))
        }
    } else {
        su64_tail(v, i, 0)
    }
}

fn u64_tail(v: &Vec<char>, j: usize, acc: u64) -> (r: Option<(u64, usize)>)
    requires
        j <= v@.len(),
    ensures
        r is Some <==> su64_tail(v@, j as int, acc) is Some,
        r matches Some(p) ==> (su64_tail(v@, j as int, acc) == Some((p.0, p.1 as int)) && j <= p.1
            <= v@.len()),
        r matches Some(p) ==> (j < v@.len() && is_digit_spec(v@[j as int]) ==> p.1 > j),
    decreases v@.len() - j,
{
    if j < v.len() && is_digit_exec(v[j]) {
        let d: u64 = (v[j] as u64) - 48;
        match acc.checked_mul(10) {
            Some(x) => match x.checked_add(d) {
                Some(y) => u64_tail(v, j + 1, y),
                None => None,
            },
            None => None,
        }
    } else if j < v.len() && (v[j] == '.' || v[j] == 'e' || v[j] == 'E') {
        None
    } else {
        Some((acc, j))
    }
}

/// Reads a JSON number that must be a nonnegative integer; the result is
/// exactly `su64`.
pub fn parse_u64(v: &Vec<char>, i: usize) -> (r: Option<(u64, usize)>)
    requires
        i <= v@.len(),
    ensures
        r is Some <==> su64(v@, i as int) is Some,
        r matches Some(p) ==> (su64(v@, i as int) == Some((p.0, p.1 as int)) && i < p.1
            <= v@.len()),
{
    if i >= v.len() || !is_digit_exec(v[i]) {
        return None;
    }
    if v[i] == '0' {
        if i + 1 < v.len() && (is_digit_exec(v[i + 1]) || v[i + 1] == '.' || v[i + 1] == 'e' || v[i
            + 1] == 'E') {
            return None;
        }
        return Some((0, i + 1));
    }
    u64_tail(v, i, 0)
}

/// The end position of the JSON value of any shape that starts at `i`,
/// or `None` where no value stands there.
pub open spec fn sskip_value(v: Seq<char>, i: int) -> Option<int>
    decreases v.len() - i, 1int,
{
    if !(0 <= i && i < v.len()) {
        None
    } else {
        let c = v[i];
        if c == '"' {
            match sstring(v, i) {
                Some(p) => Some(p.1),
                None => None,
            }
        } else if c == 't' {
            if i + 4 <= v.len() && v[i + 1] == 'r' && v[i + 2] == 'u' && v[i + 3] == 'e' {
                Some(i + 4)
            } else {
                None
            }
        } else if c == 'f' {
            if i + 5 <= v.len() && v[i + 1] == 'a' && v[i + 2] == 'l' && v[i + 3] == 's' && v[i + 4]
                == 'e' {
                Some(i + 5)
            } else {
                None
            }
        } else if c == 'n' {
            if i + 4 <= v.len() && v[i + 1] == 'u' && v[i + 2] == 'l' && v[i + 3] == 'l' {
                Some(i + 4)
            } else {
                None
            }
        } else if c == '-' || is_digit_spec(c) {
            sscan_number(v, i)
        } else if c == '[' {
            sskip_list(v, i + 1)
        } else if c == '{' {
            sskip_obj(v, i + 1)
        } else {
            None
        }
    }
}

/// The end position of a JSON array read from just after its bracket.
pub open spec fn sskip_list(v: Seq<char>, j0: int) -> Option<int>
    decreases v.len() - j0, 3int,
{
    let j = sskip_ws(v, j0);
    if !(j0 <= j && j <= v.len()) {
        None
    } else if j < v.len() && v[j] == ']' {
        Some(j + 1)
    } else {
        sskip_list_item(v, j)
    }
}

/// The end position of a JSON array read from its next element on.
pub open spec fn sskip_list_item(v: Seq<char>, j: int) -> Option<int>
    decreases v.len() - j, 2int,
{
    match sskip_value(v, j) {
        None => None,
        Some(e) => {
            if !(j <= e && e <= v.len()) {
                None
            } else {
                let k = sskip_ws(v, e);
                if !(e <= k && k <= v.len()) {
                    None
                } else if k < v.len() && v[k] == ',' {
                    let m = sskip_ws(v, k + 1);
                    if !(k + 1 <= m && m <= v.len()) {
                        None
                    } else {
                        sskip_list_item(v, m)
                    }
                } else if k < v.len() && v[k] == ']' {
                    Some(k + 1)
                } else {
                    None
                }
            }
        },
    }
}

/// The end position of a JSON object read from just after its brace.
pub open spec fn sskip_obj(v: Seq<char>, j0: int) -> Option<int>
    decreases v.len() - j0, 3int,
{
    let j = sskip_ws(v, j0);
    if !(j0 <= j && j <= v.len()) {
        None
    } else if j < v.len() && v[j] == '}' {
        Some(j + 1)
    } else {
        sskip_obj_item(v, j)
    }
}

/// The end position of a JSON object read from its next member on.
pub open spec fn sskip_obj_item(v: Seq<char>, j: int) -> Option<int>
    decreases v.len() - j, 2int,
{
    match sstring(v, j) {
        None => None,
        Some(p) => {
            if !(j < p.1 && p.1 <= v.len()) {
                None
            } else {
                let k1 = sskip_ws(v, p.1);
                if !(p.1 <= k1 && k1 <= v.len()) {
                    None
                } else if k1 < v.len() && v[k1] == ':' {
                    let k2 = sskip_ws(v, k1 + 1);
                    if !(k1 + 1 <= k2 && k2 <= v.len()) {
                        None
                    } else {
                        match sskip_value(v, k2) {
                            None => None,
                            Some(e) => {
                                if !(k2 <= e && e <= v.len()) {
                                    None
                                } else {
                                    let k3 = sskip_ws(v, e);
                                    if !(e <= k3 && k3 <= v.len()) {
                                        None
                                    } else if k3 < v.len() && v[k3] == ',' {
                                        let m = sskip_ws(v, k3 + 1);
                                        if !(k3 + 1 <= m && m <= v.len()) {
                                            None
                                        } else {
                                            sskip_obj_item(v, m)
                                        }
                                    } else if k3 < v.len() && v[k3] == '}' {
                                        Some(k3 + 1)
                                    } else {
                                        None
                                    }
                                }
                            },
                        }
                    }
                } else {
                    None
                }
            }
        },
    }
}

/// Advances past one JSON value of any shape; the result is exactly
/// `sskip_value`.
pub fn skip_value(v: &Vec<char>, i: usize) -> (r: Option<usize>)
    requires
        i <= v@.len(),
    ensures
        r is Some <==> sskip_value(v@, i as int) is Some,
        r matches Some(j) ==> (sskip_value(v@, i as int) == Some(j as int) && i < j <= v@.len()),
    decreases v@.len() - i, 1int,
{
    if i >= v.len() {
        return None;
    }
    let c = v[i];
    if c == '"' {
        match parse_string(v, i) {
            Some(p) => Some(p.1),
            None => None,
        }
    } else if c == 't' {
        if v.len() - i >= 4 && v[i + 1] == 'r' && v[i + 2] == 'u' && v[i + 3] == 'e' {
            Some(i + 4)
        } else {
            None
        }
    } else if c == 'f' {
        if v.len() - i >= 5 && v[i + 1] == 'a' && v[i + 2] == 'l' && v[i + 3] == 's' && v[i + 4]
            == 'e' {
            Some(i + 5)
        } else {
            None
        }
    } else if c == 'n' {
        if v.len() - i >= 4 && v[i + 1] == 'u' && v[i + 2] == 'l' && v[i + 3] == 'l' {
            Some(i + 4)
        } else {
            None
        }
    } else if c == '-' || is_digit_exec(c) {
        scan_number(v, i)
    } else if c == '[' {
        skip_list(v, i + 1)
    } else if c == '{' {
        skip_obj(v, i + 1)
    } else {
        None
    }
}

fn skip_list(v: &Vec<char>, j0: usize) -> (r: Option<usize>)
    requires
        j0 <= v@.len(),
    ensures
        r is Some <==> sskip_list(v@, j0 as int) is Some,
        r matches Some(j) ==> (sskip_list(v@, j0 as int) == Some(j as int) && j0 <= j
            <= v@.len()),
    decreases v@.len() - j0, 3int,
{
    let j = skip_ws(v, j0);
    if j < v.len() && v[j] == ']' {
        Some(j + 1)
    } else {
        skip_list_item(v, j)
    }
}

fn skip_list_item(v: &Vec<char>, j: usize) -> (r: Option<usize>)
    requires
        j <= v@.len(),
    ensures
        r is Some <==> sskip_list_item(v@, j as int) is Some,
        r matches Some(k) ==> (sskip_list_item(v@, j as int) == Some(k as int) && j < k
            <= v@.len()),
    decreases v@.len() - j, 2int,
{
    let e = match skip_value(v, j) {
        Some(e) => e,
        None => {
            return None;
        },
    };
    let k = skip_ws(v, e);
    if k < v.len() && v[k] == ',' {
        let m = skip_ws(v, k + 1);
        skip_list_item(v, m)
    } else if k < v.len() && v[k] == ']' {
        Some(k + 1)
    } else {
        None
    }
}

fn skip_obj(v: &Vec<char>, j0: usize) -> (r: Option<usize>)
    requires
        j0 <= v@.len(),
    ensures
        r is Some <==> sskip_obj(v@, j0 as int) is Some,
        r matches Some(j) ==> (sskip_obj(v@, j0 as int) == Some(j as int) && j0 <= j <= v@.len()),
    decreases v@.len() - j0, 3int,
{
    let j = skip_ws(v, j0);
    if j < v.len() && v[j] == '}' {
        Some(j + 1)
    } else {
        skip_obj_item(v, j)
    }
}

fn skip_obj_item(v: &Vec<char>, j: usize) -> (r: Option<usize>)
    requires
        j <= v@.len(),
    ensures
        r is Some <==> sskip_obj_item(v@, j as int) is Some,
        r matches Some(k) ==> (sskip_obj_item(v@, j as int) == Some(k as int) && j < k
            <= v@.len()),
    decreases v@.len() - j, 2int,
{
    let p = match parse_string(v, j) {
        Some(p) => p,
        None => {
            return None;
        },
    };
    let k1 = skip_ws(v, p.1);
    if k1 < v.len() && v[k1] == ':' {
        let k2 = skip_ws(v, k1 + 1);
        let e = match skip_value(v, k2) {
            Some(e) => e,
            None => {
                return None;
            },
        };
        let k3 = skip_ws(v, e);
        if k3 < v.len() && v[k3] == ',' {
            let m = skip_ws(v, k3 + 1);
            skip_obj_item(v, m)
        } else if k3 < v.len() && v[k3] == '}' {
            Some(k3 + 1)
        } else {
            None
        }
    } else {
        None
    }
}

/// Collects the raw characters of one JSON number; accepted and ended
/// exactly as `sscan_number` says.
pub fn parse_number_literal(v: &Vec<char>, i: usize) -> (r: Option<(String, usize)>)
    requires
        i <= v@.len(),
    ensures
        r is Some <==> sscan_number(v@, i as int) is Some,
        r matches Some(p) ==> (sscan_number(v@, i as int) == Some(p.1 as int) && i < p.1
            <= v@.len()),
{
    let j = match scan_number(v, i) {
        Some(j) => j,
        None => {
            return None;
        },
    };
    let mut out = String::new();
    let mut k = i;
    while k < j
        invariant
            i <= k <= j <= v@.len(),
        decreases j - k,
    {
        out.push(v[k]);
        k += 1;
    }
    Some((out, j))
}

} // verus!
