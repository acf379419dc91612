//! A JSON text parser: recursive descent over the characters of a
//! document, producing the document tree. Numbers keep their source text;
//! duplicate object keys keep their first position and their last value.

use vstd::prelude::*;
use crate::json::{
    json_view, lemma_views_of_fields, lemma_views_of_seq, views_of_fields, views_of_fields_rec,
    views_of_seq, views_of_seq_rec, Json, JsonV,
};
use crate::strings::{chars_of, string_from_chars};

verus! {

/// Relies on `char::from_u32`: it returns the character with the given
/// code point exactly when the value is not a surrogate and is at most
/// 0x10FFFF.
pub assume_specification[ char::from_u32 ](i: u32) -> (r: Option<char>)
    ensures
        (r is Some) == (!(0xD800 <= i <= 0xDFFF) && i <= 0x10FFFF),
        r is Some ==> ((r->0) as int) == i as int,
;

/// JSON insignificant whitespace.
pub open spec fn is_json_ws(c: char) -> bool {
    c == ' ' || c == '\t' || c == '\n' || c == '\r'
}

/// The position of the first non-whitespace character at or after `i`.
pub open spec fn ws_end(s: Seq<char>, i: int) -> int
    decreases s.len() - i,
{
    if 0 <= i < s.len() && is_json_ws(s[i]) {
        ws_end(s, i + 1)
    } else {
        i
    }
}

/// The position of the first non-whitespace character at or after `i`.
#[verifier::loop_isolation(false)]
fn skip_ws(text: &Vec<char>, i: usize) -> (j: usize)
    requires
        i <= text@.len(),
    ensures
        i <= j <= text@.len(),
        j == ws_end(text@, i as int),
        forall|k: int| i <= k < j ==> is_json_ws(#[trigger] text@[k]),
        j < text@.len() ==> !is_json_ws(text@[j as int]),
{
    proof {
        assert(text.len() == text@.len());
    }
    let mut j: usize = i;
    while j < text.len() && (text[j] == ' ' || text[j] == '\t' || text[j] == '\n' || text[j]
        == '\r')
        invariant
            i <= j <= text@.len(),
            ws_end(text@, i as int) == ws_end(text@, j as int),
            forall|k: int| i <= k < j ==> is_json_ws(#[trigger] text@[k]),
        decreases text@.len() - j,
    {
        j += 1;
    }
    j
}

/// The value of a hexadecimal digit, or nothing.
pub open spec fn spec_hex_val(c: char) -> Option<int> {
    if '0' <= c <= '9' {
        Option::Some(c as int - '0' as int)
    } else if 'a' <= c <= 'f' {
        Option::Some(c as int - 'a' as int + 10)
    } else if 'A' <= c <= 'F' {
        Option::Some(c as int - 'A' as int + 10)
    } else {
        Option::None
    }
}

/// The decimal value of a hexadecimal digit, or nothing.
fn hex_value(c: char) -> (r: Option<u32>)
    ensures
        match spec_hex_val(c) {
            Option::Some(v) => r == Option::Some(v as u32) && v < 16,
            Option::None => r is None,
        },
{
    if '0' <= c && c <= '9' {
        Option::Some((c as u32) - ('0' as u32))
    } else if 'a' <= c && c <= 'f' {
        Option::Some((c as u32) - ('a' as u32) + 10)
    } else if 'A' <= c && c <= 'F' {
        Option::Some((c as u32) - ('A' as u32) + 10)
    } else {
        Option::None
    }
}

/// The value of the four hexadecimal digits at `i`, or nothing when one is
/// missing or not a digit.
pub open spec fn spec_hex4(s: Seq<char>, i: int) -> Option<int> {
    if !(0 <= i && i + 4 <= s.len()) {
        Option::None
    } else {
        match (spec_hex_val(s[i]), spec_hex_val(s[i + 1]), spec_hex_val(s[i + 2]), spec_hex_val(
            s[i + 3],
        )) {
            (Option::Some(a), Option::Some(b), Option::Some(c), Option::Some(d)) => Option::Some(
                a * 4096 + b * 256 + c * 16 + d,
            ),
            _ => Option::None,
        }
    }
}

/// Reads the four hexadecimal digits of a unicode escape.
fn parse_hex4(text: &Vec<char>, i: usize) -> (r: Result<(u32, usize), String>)
    requires
        i <= text@.len(),
    ensures
        match spec_hex4(text@, i as int) {
            Option::Some(v) => r matches Ok(p) && p.0 == v && p.1 == i + 4,
            Option::None => r is Err,
        },
        r matches Ok(p) ==> i <= p.1 <= text@.len() && p.0 <= 0xFFFF,
{
    proof {
        assert(text.len() == text@.len());
    }
    if text.len() - i < 4 {
        return Result::Err(String::from_str("unterminated unicode escape"));
    }
    match (
        hex_value(text[i]),
        hex_value(text[i + 1]),
        hex_value(text[i + 2]),
        hex_value(text[i + 3]),
    ) {
        (Option::Some(a), Option::Some(b), Option::Some(c), Option::Some(d)) => Result::Ok(
            (a * 4096 + b * 256 + c * 16 + d, i + 4),
        ),
        _ => Result::Err(String::from_str("invalid unicode escape")),
    }
}

/// A character's code point.
pub open spec fn char_code(c: char) -> int {
    c as int
}

/// The character with the given code point; for a surrogate or
/// out-of-range value no character carries the code, and the result means
/// nothing.
pub open spec fn char_of_code(code: int) -> char {
    code as char
}

/// Prepends one decoded character to the rest of a string body.
pub open spec fn str_cons(c: char, rest: Option<(Seq<char>, int)>) -> Option<(Seq<char>, int)> {
    match rest {
        Option::Some((t, e)) => Option::Some((seq![c] + t, e)),
        Option::None => Option::None,
    }
}

/// The body of a JSON string read from `j` (just past the opening quote):
/// its decoded content and the position just past the closing quote, or
/// nothing when the text to the closing quote is not a valid string body.
pub open spec fn spec_str_tail(s: Seq<char>, j: int) -> Option<(Seq<char>, int)>
    decreases s.len() - j,
{
    if !(0 <= j < s.len()) {
        Option::None
    } else {
        let c = s[j];
        if c == '"' {
            Option::Some((Seq::empty(), j + 1))
        } else if c == '\\' {
            if j + 1 >= s.len() {
                Option::None
            } else {
                let e = s[j + 1];
                if e == '"' || e == '\\' || e == '/' {
                    str_cons(e, spec_str_tail(s, j + 2))
                } else if e == 'b' {
                    str_cons('\u{8}', spec_str_tail(s, j + 2))
                } else if e == 'f' {
                    str_cons('\u{c}', spec_str_tail(s, j + 2))
                } else if e == 'n' {
                    str_cons('\n', spec_str_tail(s, j + 2))
                } else if e == 'r' {
                    str_cons('\r', spec_str_tail(s, j + 2))
                } else if e == 't' {
                    str_cons('\t', spec_str_tail(s, j + 2))
                } else if e == 'u' {
                    match spec_hex4(s, j + 2) {
                        Option::None => Option::None,
                        Option::Some(hi) => if 0xD800 <= hi <= 0xDBFF {
                            if j + 8 > s.len() || s[j + 6] != '\\' || s[j + 7] != 'u' {
                                Option::None
                            } else {
                                match spec_hex4(s, j + 8) {
                                    Option::None => Option::None,
                                    Option::Some(lo) => if !(0xDC00 <= lo <= 0xDFFF) {
                                        Option::None
                                    } else {
                                        let code = 0x10000 + (hi - 0xD800) * 0x400 + (lo
                                            - 0xDC00);
                                        str_cons(char_of_code(code), spec_str_tail(s, j + 12))
                                    },
                                }
                            }
                        } else if 0xDC00 <= hi <= 0xDFFF {
                            Option::None
                        } else {
                            str_cons(char_of_code(hi), spec_str_tail(s, j + 6))
                        },
                    }
                } else {
                    Option::None
                }
            }
        } else if ' ' > c {
            Option::None
        } else {
            str_cons(c, spec_str_tail(s, j + 1))
        }
    }
}

/// Reads a quoted JSON string starting at the opening quote, handling the
/// escape forms and surrogate pairs.
#[verifier::loop_isolation(false)]
#[verifier::rlimit(100)]
fn parse_string(text: &Vec<char>, i: usize) -> (r: Result<(String, usize), String>)
    requires
        i < text@.len(),
    ensures
        text@[i as int] == '"' ==> match spec_str_tail(text@, i + 1) {
            Option::Some((content, end)) => r matches Ok(p) && p.0@ == content && p.1 == end,
            Option::None => r is Err,
        },
        text@[i as int] != '"' ==> r is Err,
        r matches Ok(p) ==> i + 1 < p.1 <= text@.len(),
{
    proof {
        assert(text.len() == text@.len());
    }
    if text[i] != '"' {
        return Result::Err(String::from_str("expected a string"));
    }
    let ghost s = text@;
    let mut out: Vec<char> = Vec::new();
    let mut j: usize = i + 1;
    proof {
        assert(out@ + Seq::<char>::empty() =~= out@);
    }
    loop
        invariant
            i < j <= s.len(),
            s == text@,
            text@[i as int] == '"',
            (match spec_str_tail(s, j as int) {
                Option::Some((t, e)) => spec_str_tail(s, i + 1) == Option::Some((out@ + t, e)),
                Option::None => spec_str_tail(s, i + 1) is None,
            }),
        decreases s.len() - j,
    {
        if j >= text.len() {
            return Result::Err(String::from_str("unterminated string"));
        }
        let c = text[j];
        if c == '"' {
            proof {
                assert(out@ + Seq::<char>::empty() =~= out@);
            }
            return Result::Ok((string_from_chars(&out), j + 1));
        }
        if c == '\\' {
            if j + 1 >= text.len() {
                return Result::Err(String::from_str("unterminated escape"));
            }
            let e = text[j + 1];
            let step: (char, usize);
            if e == '"' || e == '\\' || e == '/' {
                step = (e, j + 2);
            } else if e == 'b' {
                step = ('\u{8}', j + 2);
            } else if e == 'f' {
                step = ('\u{c}', j + 2);
            } else if e == 'n' {
                step = ('\n', j + 2);
            } else if e == 'r' {
                step = ('\r', j + 2);
            } else if e == 't' {
                step = ('\t', j + 2);
            } else if e == 'u' {
                let (hi, after_hi) = match parse_hex4(text, j + 2) {
                    Result::Ok(p) => p,
                    Result::Err(m) => {
                        return Result::Err(m);
                    }
                };
                if 0xD800 <= hi && hi <= 0xDBFF {
                    if text.len() - after_hi < 2 || text[after_hi] != '\\' || text[after_hi + 1]
                        != 'u' {
                        return Result::Err(String::from_str("unpaired surrogate"));
                    }
                    let (lo, after_lo) = match parse_hex4(text, after_hi + 2) {
                        Result::Ok(p) => p,
                        Result::Err(m) => {
                            return Result::Err(m);
                        }
                    };
                    if !(0xDC00 <= lo && lo <= 0xDFFF) {
                        return Result::Err(String::from_str("unpaired surrogate"));
                    }
                    let code: u32 = 0x10000 + (hi - 0xD800) * 0x400 + (lo - 0xDC00);
                    let fr = char::from_u32(code);
                    proof {
                        assert(fr is Some);
                    }
                    match fr {
                        Option::Some(ch) => {
                            proof {
                                assert(char_code(ch) == code as int);
                                assert(char_of_code(code as int) == ch);
                            }
                            step = (ch, after_lo);
                        }
                        Option::None => {
                            proof {
                                assert(false);
                            }
                            return Result::Err(String::from_str("invalid unicode escape"));
                        }
                    }
                } else {
                    match char::from_u32(hi) {
                        Option::Some(ch) => {
                            proof {
                                assert(char_code(ch) == hi as int);
                                assert(char_of_code(hi as int) == ch);
                            }
                            step = (ch, after_hi);
                        }
                        Option::None => {
                            return Result::Err(String::from_str("invalid unicode escape"));
                        }
                    }
                }
            } else {
                return Result::Err(String::from_str("invalid escape"));
            }
            let ghost prev = out@;
            out.push(step.0);
            proof {
                assert(spec_str_tail(s, j as int) == str_cons(
                    step.0,
                    spec_str_tail(s, step.1 as int),
                ));
                match spec_str_tail(s, step.1 as int) {
                    Option::Some((t, e)) => {
                        assert(prev + (seq![step.0] + t) =~= out@ + t);
                    }
                    Option::None => {}
                }
            }
            j = step.1;
        } else if ' ' > c {
            return Result::Err(String::from_str("control character in string"));
        } else {
            let ghost prev = out@;
            out.push(c);
            proof {
                assert(spec_str_tail(s, j as int) == str_cons(c, spec_str_tail(s, j + 1)));
                match spec_str_tail(s, j + 1) {
                    Option::Some((t, e)) => {
                        assert(prev + (seq![c] + t) =~= out@ + t);
                    }
                    Option::None => {}
                }
            }
            j += 1;
        }
    }
}

/// A decimal digit.
fn is_digit(c: char) -> (r: bool)
    ensures
        r == ('0' <= c && c <= '9'),
{
    '0' <= c && c <= '9'
}

/// A run of decimal digits.
pub open spec fn all_digits(s: Seq<char>) -> bool {
    forall|i: int| 0 <= i < s.len() ==> '0' <= #[trigger] s[i] <= '9'
}

/// A JSON integer part: `0` alone, or digits not starting with `0`.
pub open spec fn int_part_ok(s: Seq<char>) -> bool {
    s.len() >= 1 && all_digits(s) && (s[0] != '0' || s.len() == 1)
}

/// A JSON mantissa: an integer part with an optional leading minus.
pub open spec fn mantissa_ok(s: Seq<char>) -> bool {
    if s.len() >= 1 && s[0] == '-' {
        int_part_ok(s.skip(1))
    } else {
        int_part_ok(s)
    }
}

/// A JSON fraction: empty, or a point followed by digits.
pub open spec fn frac_ok(s: Seq<char>) -> bool {
    s.len() == 0 || (s.len() >= 2 && s[0] == '.' && all_digits(s.skip(1)))
}

/// A JSON exponent: empty, or `e`/`E`, an optional sign, and digits.
pub open spec fn exp_ok(s: Seq<char>) -> bool {
    ||| s.len() == 0
    ||| ((s[0] == 'e' || s[0] == 'E') && exp_tail_ok(s.skip(1)))
}

/// The part of an exponent after its marker.
pub open spec fn exp_tail_ok(s: Seq<char>) -> bool {
    if s.len() >= 1 && (s[0] == '+' || s[0] == '-') {
        s.len() >= 2 && all_digits(s.skip(1))
    } else {
        s.len() >= 1 && all_digits(s)
    }
}

/// A token of the JSON number grammar: a mantissa, then an optional
/// fraction, then an optional exponent.
pub open spec fn is_json_number(s: Seq<char>) -> bool {
    exists|a: int, b: int|
        {
            &&& 0 <= a <= b <= s.len()
            &&& mantissa_ok(s.subrange(0, a))
            &&& frac_ok(s.subrange(a, b))
            &&& exp_ok(s.subrange(b, s.len() as int))
        }
}

/// The end of the run of decimal digits starting at `i`.
pub open spec fn digits_end(s: Seq<char>, i: int) -> int
    decreases s.len() - i,
{
    if 0 <= i < s.len() && '0' <= s[i] <= '9' {
        digits_end(s, i + 1)
    } else {
        i
    }
}

/// The position just past the JSON number token starting at `i`, or
/// nothing when no number token starts there.
pub open spec fn spec_number_end(s: Seq<char>, i: int) -> Option<int> {
    let d = if 0 <= i < s.len() && s[i] == '-' {
        i + 1
    } else {
        i
    };
    if !(0 <= d < s.len() && '0' <= s[d] <= '9') {
        Option::None
    } else {
        let m = if s[d] == '0' {
            d + 1
        } else {
            digits_end(s, d)
        };
        let f = if m < s.len() && s[m] == '.' {
            if m + 1 < s.len() && '0' <= s[m + 1] <= '9' {
                digits_end(s, m + 1)
            } else {
                -1
            }
        } else {
            m
        };
        if f < 0 {
            Option::None
        } else if f < s.len() && (s[f] == 'e' || s[f] == 'E') {
            let g = if f + 1 < s.len() && (s[f + 1] == '+' || s[f + 1] == '-') {
                f + 2
            } else {
                f + 1
            };
            if g < s.len() && '0' <= s[g] <= '9' {
                Option::Some(digits_end(s, g))
            } else {
                Option::None
            }
        } else {
            Option::Some(f)
        }
    }
}

/// Reads a JSON number token starting at `i`, keeping its source text: the
/// returned token is exactly the consumed slice of the input, ending just
/// where the number grammar says the token ends, and it matches the JSON
/// number grammar.
#[verifier::loop_isolation(false)]
#[verifier::rlimit(100)]
fn parse_number(text: &Vec<char>, i: usize) -> (r: Result<(String, usize), String>)
    requires
        i < text@.len(),
    ensures
        r matches Ok(p) ==> {
            &&& i < p.1 <= text@.len()
            &&& p.0@ == text@.subrange(i as int, p.1 as int)
            &&& is_json_number(p.0@)
        },
        (match spec_number_end(text@, i as int) {
            Option::Some(e) => r matches Ok(p) && p.1 == e,
            Option::None => r is Err,
        }),
{
    proof {
        assert(text.len() == text@.len());
    }
    let ghost s = text@;
    let mut j: usize = i;
    if text[j] == '-' {
        j += 1;
    }
    let ghost digits_from = j as int;
    if j >= text.len() || !is_digit(text[j]) {
        proof {
            assert(spec_number_end(s, i as int) is None);
        }
        return Result::Err(String::from_str("expected a number"));
    }
    let leading_zero = text[j] == '0';
    if leading_zero {
        j += 1;
    } else {
        j += 1;
        while j < text.len() && is_digit(text[j])
            invariant
                i < j <= text@.len(),
                digits_from < j,
                digits_end(s, digits_from) == digits_end(s, j as int),
                forall|k: int| digits_from <= k < j ==> '0' <= #[trigger] text@[k] <= '9',
            decreases text@.len() - j,
        {
            j += 1;
        }
    }
    let ghost mantissa_end = j as int;
    proof {
        lemma_number_mantissa(text@, i as int, digits_from, mantissa_end, leading_zero);
        if !leading_zero {
            assert(digits_end(s, j as int) == j as int);
        }
        assert(mantissa_end == (if s[digits_from] == '0' {
            digits_from + 1
        } else {
            digits_end(s, digits_from)
        }));
    }
    let mut has_frac = false;
    if j < text.len() && text[j] == '.' {
        has_frac = true;
        j += 1;
        if j >= text.len() || !is_digit(text[j]) {
            proof {
                assert(spec_number_end(s, i as int) is None);
            }
            return Result::Err(String::from_str("expected digits after the decimal point"));
        }
        j += 1;
        while j < text.len() && is_digit(text[j])
            invariant
                mantissa_end + 1 < j <= text@.len(),
                digits_end(s, mantissa_end + 1) == digits_end(s, j as int),
                forall|k: int| mantissa_end + 1 <= k < j ==> '0' <= #[trigger] text@[k] <= '9',
            decreases text@.len() - j,
        {
            j += 1;
        }
        proof {
            assert(digits_end(s, j as int) == j as int);
        }
    }
    let ghost frac_end = j as int;
    proof {
        assert(frac_end == (if mantissa_end < s.len() && s[mantissa_end] == '.' {
            digits_end(s, mantissa_end + 1)
        } else {
            mantissa_end
        }));
    }
    proof {
        let f = text@.subrange(mantissa_end, frac_end);
        if has_frac {
            assert(f[0] == '.');
            assert(forall|k: int|
                0 <= k < f.skip(1).len() ==> f.skip(1)[k] == text@[mantissa_end + 1 + k]);
        }
        assert(frac_ok(f));
    }
    if j < text.len() && (text[j] == 'e' || text[j] == 'E') {
        j += 1;
        let mut signed = false;
        if j < text.len() && (text[j] == '+' || text[j] == '-') {
            signed = true;
            j += 1;
        }
        if j >= text.len() || !is_digit(text[j]) {
            proof {
                assert(spec_number_end(s, i as int) is None);
            }
            return Result::Err(String::from_str("expected digits in the exponent"));
        }
        let ghost exp_sign_end = j as int;
        j += 1;
        while j < text.len() && is_digit(text[j])
            invariant
                exp_sign_end < j <= text@.len(),
                digits_end(s, exp_sign_end) == digits_end(s, j as int),
                forall|k: int| exp_sign_end <= k < j ==> '0' <= #[trigger] text@[k] <= '9',
            decreases text@.len() - j,
        {
            j += 1;
        }
        proof {
            assert(digits_end(s, j as int) == j as int);
            assert(j as int == digits_end(s, exp_sign_end));
            assert(spec_number_end(s, i as int) == Option::Some(j as int));
            let e = text@.subrange(frac_end, j as int);
            assert(e[0] == 'e' || e[0] == 'E');
            let t = e.skip(1);
            assert(forall|k: int| 0 <= k < t.len() ==> t[k] == text@[frac_end + 1 + k]);
            if signed {
                assert(forall|k: int|
                    0 <= k < t.skip(1).len() ==> t.skip(1)[k] == text@[frac_end + 2 + k]);
            }
            assert(exp_tail_ok(t));
            assert(exp_ok(e));
        }
    } else {
        proof {
            assert(spec_number_end(s, i as int) == Option::Some(j as int));
            assert(text@.subrange(frac_end, j as int).len() == 0);
        }
    }
    let token = crate::strings::sub_chars(text, i, j);
    proof {
        lemma_number_token(text@, i as int, mantissa_end, frac_end, j as int);
    }
    Result::Ok((string_from_chars(&token), j))
}

/// The consumed mantissa slice meets the grammar.
proof fn lemma_number_mantissa(
    text: Seq<char>,
    i: int,
    digits_from: int,
    mantissa_end: int,
    leading_zero: bool,
)
    requires
        0 <= i <= digits_from <= text.len(),
        digits_from == i || (digits_from == i + 1 && text[i] == '-'),
        digits_from < mantissa_end <= text.len(),
        forall|k: int| digits_from <= k < mantissa_end ==> '0' <= #[trigger] text[k] <= '9',
        leading_zero == (text[digits_from] == '0'),
        leading_zero ==> mantissa_end == digits_from + 1,
    ensures
        mantissa_ok(text.subrange(i, mantissa_end)),
{
    let m = text.subrange(i, mantissa_end);
    if digits_from == i + 1 {
        assert(m[0] == '-');
        let d = m.skip(1);
        assert(forall|k: int| 0 <= k < d.len() ==> d[k] == text[i + 1 + k]);
        assert(int_part_ok(d));
    } else {
        assert(forall|k: int| 0 <= k < m.len() ==> m[k] == text[i + k]);
        assert(int_part_ok(m));
    }
}

/// The whole consumed slice meets the grammar, split at the recorded
/// mantissa and fraction boundaries.
proof fn lemma_number_token(text: Seq<char>, i: int, mantissa_end: int, frac_end: int, j: int)
    requires
        0 <= i <= mantissa_end <= frac_end <= j <= text.len(),
        mantissa_ok(text.subrange(i, mantissa_end)),
        frac_ok(text.subrange(mantissa_end, frac_end)),
        exp_ok(text.subrange(frac_end, j)),
    ensures
        is_json_number(text.subrange(i, j)),
{
    let s = text.subrange(i, j);
    let a = mantissa_end - i;
    let b = frac_end - i;
    assert(s.subrange(0, a) =~= text.subrange(i, mantissa_end));
    assert(s.subrange(a, b) =~= text.subrange(mantissa_end, frac_end));
    assert(s.subrange(b, s.len() as int) =~= text.subrange(frac_end, j));
}

/// Checks that the literal `word` stands at `i`.
#[verifier::loop_isolation(false)]
fn expect_word(text: &Vec<char>, i: usize, word: &Vec<char>) -> (r: bool)
    requires
        i <= text@.len(),
    ensures
        r == (i + word@.len() <= text@.len() && text@.subrange(i as int, i + word@.len())
            == word@),
{
    proof {
        assert(text.len() == text@.len());
        assert(word.len() == word@.len());
    }
    if word.len() > text.len() - i {
        return false;
    }
    let mut k: usize = 0;
    while k < word.len()
        invariant
            k <= word@.len(),
            i + word@.len() <= text@.len(),
            forall|k2: int| 0 <= k2 < k ==> text@[i + k2] == word@[k2],
        decreases word@.len() - k,
    {
        if text[i + k] != word[k] {
            proof {
                assert(text@.subrange(i as int, i + word@.len())[k as int] == text@[i + k]);
            }
            return false;
        }
        k += 1;
    }
    proof {
        assert(text@.subrange(i as int, i + word@.len()) =~= word@);
    }
    true
}

/// A member stored in an object under construction: the last value for a
/// repeated key wins, at the key's first position.
pub open spec fn spec_insert_member(
    fields: Seq<(Seq<char>, JsonV)>,
    k: Seq<char>,
    v: JsonV,
) -> Seq<(Seq<char>, JsonV)>
    decreases fields,
{
    if fields.len() == 0 {
        seq![(k, v)]
    } else if fields[0].0 == k {
        seq![(fields[0].0, v)] + fields.drop_first()
    } else {
        seq![fields[0]] + spec_insert_member(fields.drop_first(), k, v)
    }
}

proof fn lemma_insert_member_at(
    fields: Seq<(Seq<char>, JsonV)>,
    k: Seq<char>,
    v: JsonV,
    idx: int,
)
    requires
        0 <= idx < fields.len(),
        fields[idx].0 == k,
        forall|j: int| 0 <= j < idx ==> (#[trigger] fields[j]).0 != k,
    ensures
        spec_insert_member(fields, k, v) == fields.update(idx, (fields[idx].0, v)),
    decreases idx,
{
    if idx == 0 {
        assert(spec_insert_member(fields, k, v) =~= fields.update(0, (fields[0].0, v)));
    } else {
        lemma_insert_member_at(fields.drop_first(), k, v, idx - 1);
        assert(spec_insert_member(fields, k, v) =~= fields.update(idx, (fields[idx].0, v)));
    }
}

proof fn lemma_insert_member_absent(fields: Seq<(Seq<char>, JsonV)>, k: Seq<char>, v: JsonV)
    requires
        forall|j: int| 0 <= j < fields.len() ==> (#[trigger] fields[j]).0 != k,
    ensures
        spec_insert_member(fields, k, v) == fields.push((k, v)),
    decreases fields,
{
    if fields.len() == 0 {
        assert(spec_insert_member(fields, k, v) =~= fields.push((k, v)));
    } else {
        lemma_insert_member_absent(fields.drop_first(), k, v);
        assert(spec_insert_member(fields, k, v) =~= fields.push((k, v)));
    }
}

/// Stores `value` under `key` in an object under construction: the last
/// value for a repeated key wins, at the key's first position.
#[verifier::loop_isolation(false)]
fn insert_member(fields: &mut Vec<(String, Json)>, key: String, value: Json)
    ensures
        views_of_fields(final(fields)@) == spec_insert_member(
            views_of_fields(old(fields)@),
            key@,
            value@,
        ),
        (exists|idx: int|
            {
                &&& 0 <= idx < old(fields)@.len()
                &&& final(fields)@ == old(fields)@.update(
                    idx,
                    ((#[trigger] old(fields)@[idx]).0, value),
                )
            }) || final(fields)@ == old(fields)@.push((key, value)),
{
    let ghost m0 = views_of_fields(old(fields)@);
    let mut k: usize = 0;
    while k < fields.len()
        invariant
            k <= fields@.len(),
            *fields == *old(fields),
            forall|j: int| 0 <= j < k ==> (#[trigger] m0[j]).0 != key@,
        decreases fields@.len() - k,
    {
        if fields[k].0 == key {
            proof {
                lemma_insert_member_at(m0, key@, value@, k as int);
            }
            fields[k].1 = value;
            proof {
                assert(fields@ =~= old(fields)@.update(
                    k as int,
                    (old(fields)@[k as int].0, value),
                ));
                assert(views_of_fields(fields@) =~= m0.update(
                    k as int,
                    (m0[k as int].0, value@),
                ));
            }
            return;
        }
        k += 1;
    }
    proof {
        lemma_insert_member_absent(m0, key@, value@);
    }
    fields.push((key, value));
    proof {
        assert(views_of_fields(fields@) =~= m0.push((key@, value@)));
    }
}

/// Every number in the document, at any depth, matches the JSON number
/// grammar.
pub open spec fn nums_wf(v: JsonV) -> bool
    decreases v,
{
    match v {
        JsonV::Num(s) => is_json_number(s),
        JsonV::Arr(elems) => forall|i: int|
            0 <= i < elems.len() ==> nums_wf(#[trigger] elems[i]),
        JsonV::Obj(fields) => forall|i: int|
            0 <= i < fields.len() ==> nums_wf((#[trigger] fields[i]).1),
        _ => true,
    }
}

/// A parse position put back in its window: every position a real parse
/// step yields already lies between `lo` and `len`, so the guard changes
/// nothing there; it only makes the recursion below visibly decrease.
pub open spec fn bounded_pos(lo: int, n: int, len: int) -> int {
    if lo <= n <= len {
        n
    } else {
        lo
    }
}

/// The value read from `i` (after leading whitespace) and the position
/// just past it, or nothing when no JSON value stands there.
pub open spec fn spec_parse_value(s: Seq<char>, i: int) -> Option<(JsonV, int)>
    decreases s.len() - i, 1int,
{
    let len = s.len() as int;
    let j = bounded_pos(i, ws_end(s, i), len);
    if j >= len {
        Option::None
    } else {
        let c = s[j];
        if c == 'n' {
            if j + 4 <= len && s.subrange(j, j + 4) == seq!['n', 'u', 'l', 'l'] {
                Option::Some((JsonV::Null, j + 4))
            } else {
                Option::None
            }
        } else if c == 't' {
            if j + 4 <= len && s.subrange(j, j + 4) == seq!['t', 'r', 'u', 'e'] {
                Option::Some((JsonV::Bool(true), j + 4))
            } else {
                Option::None
            }
        } else if c == 'f' {
            if j + 5 <= len && s.subrange(j, j + 5) == seq!['f', 'a', 'l', 's', 'e'] {
                Option::Some((JsonV::Bool(false), j + 5))
            } else {
                Option::None
            }
        } else if c == '"' {
            match spec_str_tail(s, j + 1) {
                Option::Some((content, e)) => Option::Some((JsonV::Str(content), e)),
                Option::None => Option::None,
            }
        } else if c == '-' || '0' <= c <= '9' {
            match spec_number_end(s, j) {
                Option::Some(e) => Option::Some((JsonV::Num(s.subrange(j, e)), e)),
                Option::None => Option::None,
            }
        } else if c == '[' {
            let k = bounded_pos(j + 1, ws_end(s, j + 1), len);
            if k < len && s[k] == ']' {
                Option::Some((JsonV::Arr(Seq::empty()), k + 1))
            } else {
                match spec_arr_rest(s, k) {
                    Option::Some((elems, e)) => Option::Some((JsonV::Arr(elems), e)),
                    Option::None => Option::None,
                }
            }
        } else if c == '{' {
            let k = bounded_pos(j + 1, ws_end(s, j + 1), len);
            if k < len && s[k] == '}' {
                Option::Some((JsonV::Obj(Seq::empty()), k + 1))
            } else {
                match spec_obj_rest(s, k, Seq::empty()) {
                    Option::Some((fields, e)) => Option::Some((JsonV::Obj(fields), e)),
                    Option::None => Option::None,
                }
            }
        } else {
            Option::None
        }
    }
}

/// The elements of a non-empty array read from `i` (at the first element)
/// to the closing bracket, and the position just past it.
pub open spec fn spec_arr_rest(s: Seq<char>, i: int) -> Option<(Seq<JsonV>, int)>
    decreases s.len() - i, 2int,
{
    let len = s.len() as int;
    match spec_parse_value(s, i) {
        Option::None => Option::None,
        Option::Some((v, after0)) => {
            let after = bounded_pos(i + 1, after0, len);
            let aw = bounded_pos(after, ws_end(s, after), len);
            if aw >= len {
                Option::None
            } else if s[aw] == ']' {
                Option::Some((seq![v], aw + 1))
            } else if s[aw] != ',' {
                Option::None
            } else {
                let k2 = bounded_pos(aw + 1, ws_end(s, aw + 1), len);
                match spec_arr_rest(s, k2) {
                    Option::Some((rest, e)) => Option::Some((seq![v] + rest, e)),
                    Option::None => Option::None,
                }
            }
        }
    }
}

/// The members of a non-empty object read from `i` (at the first key) to
/// the closing brace, folded onto `acc` with `spec_insert_member`, and the
/// position just past it.
pub open spec fn spec_obj_rest(
    s: Seq<char>,
    i: int,
    acc: Seq<(Seq<char>, JsonV)>,
) -> Option<(Seq<(Seq<char>, JsonV)>, int)>
    decreases s.len() - i, 2int,
{
    let len = s.len() as int;
    if !(0 <= i < len) || s[i] != '"' {
        Option::None
    } else {
        match spec_str_tail(s, i + 1) {
            Option::None => Option::None,
            Option::Some((key, ak0)) => {
                let ak = bounded_pos(i + 2, ak0, len);
                let colon = bounded_pos(ak, ws_end(s, ak), len);
                if colon >= len || s[colon] != ':' {
                    Option::None
                } else {
                    match spec_parse_value(s, colon + 1) {
                        Option::None => Option::None,
                        Option::Some((v, after0)) => {
                            let after = bounded_pos(colon + 2, after0, len);
                            let acc2 = spec_insert_member(acc, key, v);
                            let aw = bounded_pos(after, ws_end(s, after), len);
                            if aw >= len {
                                Option::None
                            } else if s[aw] == '}' {
                                Option::Some((acc2, aw + 1))
                            } else if s[aw] != ',' {
                                Option::None
                            } else {
                                let k2 = bounded_pos(aw + 1, ws_end(s, aw + 1), len);
                                spec_obj_rest(s, k2, acc2)
                            }
                        }
                    }
                }
            }
        }
    }
}

/// The document a whole JSON text denotes: one value, possibly surrounded
/// by whitespace, with nothing after it; or nothing when the text is not a
/// well-formed JSON document.
pub open spec fn spec_parse_json(s: Seq<char>) -> Option<JsonV> {
    match spec_parse_value(s, 0) {
        Option::Some((v, e)) => if ws_end(s, e) == s.len() {
            Option::Some(v)
        } else {
            Option::None
        },
        Option::None => Option::None,
    }
}

/// An array of well-formed elements is well-formed.
proof fn lemma_arr_wf(elems: Seq<Json>)
    requires
        forall|k: int| 0 <= k < elems.len() ==> nums_wf(json_view(#[trigger] elems[k])),
    ensures
        nums_wf(JsonV::Arr(views_of_seq_rec(elems))),
{
    lemma_views_of_seq(elems);
    assert forall|k: int| 0 <= k < views_of_seq(elems).len() implies nums_wf(
        #[trigger] views_of_seq(elems)[k],
    ) by {
        assert(views_of_seq(elems)[k] == json_view(elems[k]));
    }
}

/// An object of well-formed member values is well-formed.
proof fn lemma_obj_wf(fields: Seq<(String, Json)>)
    requires
        forall|k: int| 0 <= k < fields.len() ==> nums_wf(json_view((#[trigger] fields[k]).1)),
    ensures
        nums_wf(JsonV::Obj(views_of_fields_rec(fields))),
{
    lemma_views_of_fields(fields);
    assert forall|k: int| 0 <= k < views_of_fields(fields).len() implies nums_wf(
        (#[trigger] views_of_fields(fields)[k]).1,
    ) by {
        assert(views_of_fields(fields)[k] == (fields[k].0@, json_view(fields[k].1)));
    }
}

/// Reads one JSON value starting at or after `i`, skipping leading
/// whitespace, and returns it with the position just past it: exactly the
/// value and end position that `spec_parse_value` gives the text, with an
/// error exactly where it gives nothing. Every number in the result
/// matches the JSON number grammar.
#[verifier::loop_isolation(false)]
#[verifier::rlimit(100)]
fn parse_value(text: &Vec<char>, i: usize) -> (r: Result<(Json, usize), String>)
    requires
        i <= text@.len(),
    ensures
        (match spec_parse_value(text@, i as int) {
            Option::Some(p2) => r matches Ok(p) && p.0@ == p2.0 && p.1 == p2.1,
            Option::None => r is Err,
        }),
        r matches Ok(p) ==> i < p.1 <= text@.len() && nums_wf(p.0@),
    decreases text@.len() - i, 1int,
{
    proof {
        assert(text.len() == text@.len());
    }
    let ghost s = text@;
    let j = skip_ws(text, i);
    proof {
        assert(bounded_pos(i as int, ws_end(s, i as int), s.len() as int) == j as int);
    }
    if j >= text.len() {
        return Result::Err(String::from_str("unexpected end of document"));
    }
    let c = text[j];
    if c == 'n' {
        let mut word: Vec<char> = Vec::new();
        word.push('n');
        word.push('u');
        word.push('l');
        word.push('l');
        proof {
            assert(word@ =~= seq!['n', 'u', 'l', 'l']);
        }
        if expect_word(text, j, &word) {
            Result::Ok((Json::Null, j + 4))
        } else {
            Result::Err(String::from_str("invalid literal"))
        }
    } else if c == 't' {
        let mut word: Vec<char> = Vec::new();
        word.push('t');
        word.push('r');
        word.push('u');
        word.push('e');
        proof {
            assert(word@ =~= seq!['t', 'r', 'u', 'e']);
        }
        if expect_word(text, j, &word) {
            Result::Ok((Json::Bool(true), j + 4))
        } else {
            Result::Err(String::from_str("invalid literal"))
        }
    } else if c == 'f' {
        let mut word: Vec<char> = Vec::new();
        word.push('f');
        word.push('a');
        word.push('l');
        word.push('s');
        word.push('e');
        proof {
            assert(word@ =~= seq!['f', 'a', 'l', 's', 'e']);
        }
        if expect_word(text, j, &word) {
            Result::Ok((Json::Bool(false), j + 5))
        } else {
            Result::Err(String::from_str("invalid literal"))
        }
    } else if c == '"' {
        match parse_string(text, j) {
            Result::Ok((s, after)) => Result::Ok((Json::Str(s), after)),
            Result::Err(m) => Result::Err(m),
        }
    } else if c == '-' || ('0' <= c && c <= '9') {
        match parse_number(text, j) {
            Result::Ok((s, after)) => Result::Ok((Json::Num(s), after)),
            Result::Err(m) => Result::Err(m),
        }
    } else if c == '[' {
        let mut elems: Vec<Json> = Vec::new();
        let mut k = skip_ws(text, j + 1);
        proof {
            assert(bounded_pos(j + 1, ws_end(s, j + 1), s.len() as int) == k as int);
        }
        if k < text.len() && text[k] == ']' {
            proof {
                lemma_arr_wf(elems@);
                lemma_views_of_seq(elems@);
                assert(views_of_seq_rec(elems@) =~= Seq::<JsonV>::empty());
            }
            return Result::Ok((Json::Arr(elems), k + 1));
        }
        let ghost k0 = k as int;
        proof {
            assert(views_of_seq(elems@) + Seq::<JsonV>::empty() =~= views_of_seq(elems@));
        }
        loop
            invariant
                j < k <= s.len(),
                s == text@,
                !(k0 < s.len() && s[k0] == ']'),
                (match spec_arr_rest(s, k as int) {
                    Option::Some((rest, e)) => spec_arr_rest(s, k0) == Option::Some(
                        (views_of_seq(elems@) + rest, e),
                    ),
                    Option::None => spec_arr_rest(s, k0) is None,
                }),
                forall|k2: int|
                    0 <= k2 < elems@.len() ==> nums_wf(json_view(#[trigger] elems@[k2])),
            decreases text@.len() - k,
        {
            let (v, after) = match parse_value(text, k) {
                Result::Ok(p) => p,
                Result::Err(m) => {
                    return Result::Err(m);
                }
            };
            let ghost prev = elems@;
            elems.push(v);
            proof {
                assert(views_of_seq(elems@) =~= views_of_seq(prev) + seq![json_view(v)]);
            }
            let after_ws = skip_ws(text, after);
            proof {
                assert(bounded_pos(k + 1, after as int, s.len() as int) == after as int);
                assert(bounded_pos(after as int, ws_end(s, after as int), s.len() as int)
                    == after_ws as int);
            }
            if after_ws >= text.len() {
                return Result::Err(String::from_str("unterminated array"));
            }
            if text[after_ws] == ']' {
                proof {
                    assert(spec_arr_rest(s, k as int) == Option::Some(
                        (seq![json_view(v)], after_ws + 1),
                    ));
                    assert(views_of_seq(prev) + seq![json_view(v)] =~= views_of_seq(elems@));
                    lemma_arr_wf(elems@);
                    lemma_views_of_seq(elems@);
                }
                return Result::Ok((Json::Arr(elems), after_ws + 1));
            }
            if text[after_ws] != ',' {
                return Result::Err(String::from_str("expected a comma or a closing bracket"));
            }
            let ghost k_prev = k as int;
            k = skip_ws(text, after_ws + 1);
            proof {
                assert(bounded_pos(after_ws + 1, ws_end(s, after_ws + 1), s.len() as int)
                    == k as int);
                match spec_arr_rest(s, k as int) {
                    Option::Some((rest, e)) => {
                        assert(spec_arr_rest(s, k_prev) == Option::Some(
                            (seq![json_view(v)] + rest, e),
                        ));
                        assert(views_of_seq(prev) + (seq![json_view(v)] + rest)
                            =~= views_of_seq(elems@) + rest);
                    }
                    Option::None => {}
                }
            }
        }
    } else if c == '{' {
        let mut fields: Vec<(String, Json)> = Vec::new();
        let mut k = skip_ws(text, j + 1);
        proof {
            assert(bounded_pos(j + 1, ws_end(s, j + 1), s.len() as int) == k as int);
        }
        if k < text.len() && text[k] == '}' {
            proof {
                lemma_obj_wf(fields@);
                lemma_views_of_fields(fields@);
                assert(views_of_fields_rec(fields@) =~= Seq::<(Seq<char>, JsonV)>::empty());
            }
            return Result::Ok((Json::Obj(fields), k + 1));
        }
        let ghost k0 = k as int;
        proof {
            assert(views_of_fields(fields@) =~= Seq::<(Seq<char>, JsonV)>::empty());
        }
        loop
            invariant
                j < k <= s.len(),
                s == text@,
                !(k0 < s.len() && s[k0] == '}'),
                spec_obj_rest(s, k0, Seq::empty()) == spec_obj_rest(
                    s,
                    k as int,
                    views_of_fields(fields@),
                ),
                forall|k2: int|
                    0 <= k2 < fields@.len() ==> nums_wf(json_view((#[trigger] fields@[k2]).1)),
            decreases text@.len() - k,
        {
            if k >= text.len() {
                return Result::Err(String::from_str("unterminated object"));
            }
            let (key, after_key) = match parse_string(text, k) {
                Result::Ok(p) => p,
                Result::Err(m) => {
                    return Result::Err(m);
                }
            };
            proof {
                assert(bounded_pos(k + 2, after_key as int, s.len() as int) == after_key as int);
            }
            let colon = skip_ws(text, after_key);
            proof {
                assert(bounded_pos(after_key as int, ws_end(s, after_key as int), s.len() as int)
                    == colon as int);
            }
            if colon >= text.len() || text[colon] != ':' {
                return Result::Err(String::from_str("expected a colon"));
            }
            let (v, after) = match parse_value(text, colon + 1) {
                Result::Ok(p) => p,
                Result::Err(m) => {
                    return Result::Err(m);
                }
            };
            proof {
                assert(bounded_pos(colon + 2, after as int, s.len() as int) == after as int);
            }
            let ghost prev_fields = fields@;
            let ghost acc_prev = views_of_fields(fields@);
            insert_member(&mut fields, key, v);
            proof {
                assert(views_of_fields(fields@) == spec_insert_member(
                    acc_prev,
                    key@,
                    json_view(v),
                ));
            }
            proof {
                assert forall|k2: int| 0 <= k2 < fields@.len() implies nums_wf(
                    json_view((#[trigger] fields@[k2]).1),
                ) by {
                    if exists|idx: int|
                        {
                            &&& 0 <= idx < prev_fields.len()
                            &&& fields@ == prev_fields.update(
                                idx,
                                ((#[trigger] prev_fields[idx]).0, v),
                            )
                        } {
                        let idx = choose|idx: int|
                            {
                                &&& 0 <= idx < prev_fields.len()
                                &&& fields@ == prev_fields.update(
                                    idx,
                                    ((#[trigger] prev_fields[idx]).0, v),
                                )
                            };
                        if k2 != idx {
                            assert(fields@[k2] == prev_fields[k2]);
                        }
                    }
                }
            }
            let after_ws = skip_ws(text, after);
            proof {
                assert(bounded_pos(after as int, ws_end(s, after as int), s.len() as int)
                    == after_ws as int);
            }
            if after_ws >= text.len() {
                return Result::Err(String::from_str("unterminated object"));
            }
            if text[after_ws] == '}' {
                proof {
                    assert(spec_obj_rest(s, k as int, acc_prev) == Option::Some(
                        (views_of_fields(fields@), after_ws + 1),
                    ));
                    lemma_obj_wf(fields@);
                    lemma_views_of_fields(fields@);
                }
                return Result::Ok((Json::Obj(fields), after_ws + 1));
            }
            if text[after_ws] != ',' {
                return Result::Err(String::from_str("expected a comma or a closing brace"));
            }
            let ghost k_prev = k as int;
            k = skip_ws(text, after_ws + 1);
            proof {
                assert(bounded_pos(after_ws + 1, ws_end(s, after_ws + 1), s.len() as int)
                    == k as int);
                assert(spec_obj_rest(s, k_prev, acc_prev) == spec_obj_rest(
                    s,
                    k as int,
                    views_of_fields(fields@),
                ));
            }
        }
    } else {
        Result::Err(String::from_str("unexpected character"))
    }
}

/// Parses a whole JSON document: one value, possibly surrounded by
/// whitespace, with nothing after it. Every number in the result matches
/// the JSON number grammar.
pub fn parse_json(data: &str) -> (r: Result<Json, String>)
    ensures
        (match spec_parse_json(data@) {
            Option::Some(v) => r matches Ok(rv) && rv@ == v,
            Option::None => r is Err,
        }),
        r matches Ok(v) ==> nums_wf(v@),
{
    let text = chars_of(data);
    match parse_value(&text, 0) {
        Result::Ok((v, after)) => {
            let end = skip_ws(&text, after);
            if end == text.len() {
                Result::Ok(v)
            } else {
                Result::Err(String::from_str("trailing characters after the document"))
            }
        }
        Result::Err(m) => Result::Err(m),
    }
}

} // verus!
