use vstd::prelude::*;

use super::chars::{is_ws, is_digit, is_hex, digit_val, hex_val, is_control, hex_char,
    digit_char, lemma_hex_char_val, ws_char, digit_char_test, hex_char_test, digit_value,
    hex_value};
use super::print::{esc_char, escape_string, dec_digits};
use super::value::{JsonVal, JsonValue};

verus! {

broadcast use vstd::seq_lib::lemma_seq_skip_of_skip;

/// Relies on char::from_u32: it yields the character with the given code
/// exactly for codes below the surrogate range or between it and the last
/// code point.
pub assume_specification[ char::from_u32 ](n: u32) -> (r: Option<char>)
    ensures
        r is Some <==> (n < 0xD800 || (0xE000 <= n && n <= 0x10FFFF)),
        r matches Some(c) ==> c as u32 == n,
;

/// The suffix after any leading whitespace.
pub open spec fn skip_ws(s: Seq<char>) -> Seq<char>
    decreases s.len(),
{
    if s.len() > 0 && is_ws(s[0]) {
        skip_ws(s.skip(1))
    } else {
        s
    }
}

/// The character a two-character escape stands for, if the second character is
/// a valid short escape.
pub open spec fn short_escape(e: char) -> Option<char> {
    if e == '"' {
        Some('"')
    } else if e == '\\' {
        Some('\\')
    } else if e == '/' {
        Some('/')
    } else if e == 'b' {
        Some('\u{8}')
    } else if e == 'f' {
        Some('\u{c}')
    } else if e == 'n' {
        Some('\n')
    } else if e == 'r' {
        Some('\r')
    } else if e == 't' {
        Some('\t')
    } else {
        None
    }
}

/// The value of four hexadecimal digits at the head of `s`.
pub open spec fn hex4_val(s: Seq<char>) -> int {
    hex_val(s[0]) * 0x1000 + hex_val(s[1]) * 0x100 + hex_val(s[2]) * 0x10 + hex_val(s[3])
}

pub open spec fn hex4_at(s: Seq<char>, i: int) -> bool {
    is_hex(s[i]) && is_hex(s[i + 1]) && is_hex(s[i + 2]) && is_hex(s[i + 3])
}

/// Parses the body of a string literal, the opening quote already consumed:
/// yields the decoded characters and the suffix after the closing quote.
/// Escapes are decoded, a surrogate pair of `u`-escapes becomes one character,
/// a lone surrogate or a raw control character fails.
pub open spec fn parse_string_body(s: Seq<char>) -> Option<(Seq<char>, Seq<char>)>
    decreases s.len(),
{
    if s.len() == 0 {
        None
    } else if s[0] == '"' {
        Some((Seq::empty(), s.skip(1)))
    } else if s[0] == '\\' {
        if s.len() < 2 {
            None
        } else if s[1] == 'u' {
            if s.len() >= 6 && hex4_at(s, 2) {
                let code = hex4_val(s.skip(2));
                if 0xD800 <= code <= 0xDBFF {
                    if s.len() >= 12 && s[6] == '\\' && s[7] == 'u' && hex4_at(s, 8) {
                        let low = hex4_val(s.skip(8));
                        if 0xDC00 <= low <= 0xDFFF {
                            let cp = 0x10000 + (code - 0xD800) * 0x400 + (low - 0xDC00);
                            match parse_string_body(s.skip(12)) {
                                Some((t, r)) => Some((seq![(cp as u32) as char] + t, r)),
                                None => None,
                            }
                        } else {
                            None
                        }
                    } else {
                        None
                    }
                } else if 0xDC00 <= code <= 0xDFFF {
                    None
                } else {
                    match parse_string_body(s.skip(6)) {
                        Some((t, r)) => Some((seq![(code as u32) as char] + t, r)),
                        None => None,
                    }
                }
            } else {
                None
            }
        } else {
            match short_escape(s[1]) {
                Some(c) => match parse_string_body(s.skip(2)) {
                    Some((t, r)) => Some((seq![c] + t, r)),
                    None => None,
                },
                None => None,
            }
        }
    } else if (s[0] as u32) < 0x20 {
        None
    } else {
        match parse_string_body(s.skip(1)) {
            Some((t, r)) => Some((seq![s[0]] + t, r)),
            None => None,
        }
    }
}

/// Splits the longest leading run of decimal digits from the rest.
pub open spec fn parse_digits(s: Seq<char>) -> (Seq<char>, Seq<char>)
    decreases s.len(),
{
    if s.len() > 0 && is_digit(s[0]) {
        let (d, r) = parse_digits(s.skip(1));
        (seq![s[0]] + d, r)
    } else {
        (Seq::empty(), s)
    }
}

/// The value of a run of decimal digits, most significant first.
pub open spec fn digits_val(d: Seq<char>) -> int
    decreases d.len(),
{
    if d.len() == 0 {
        0
    } else {
        digits_val(d.drop_last()) * 10 + digit_val(d.last())
    }
}

/// Parses a number literal: an optional minus sign, an integer part without
/// leading zeros, an optional fraction and an optional exponent. Yields
/// `UInt` exactly for a bare integer part that fits 64 bits, `NumOther` for
/// every other well-formed literal.
pub open spec fn parse_number(s: Seq<char>) -> Option<(JsonVal, Seq<char>)> {
    let neg = s.len() > 0 && s[0] == '-';
    let s1 = if neg {
        s.skip(1)
    } else {
        s
    };
    if s1.len() == 0 || !is_digit(s1[0]) {
        None
    } else {
        let (d, s2) = if s1[0] == '0' {
            (seq![s1[0]], s1.skip(1))
        } else {
            parse_digits(s1)
        };
        let has_frac = s2.len() > 0 && s2[0] == '.';
        if has_frac && (s2.len() < 2 || !is_digit(s2[1])) {
            None
        } else {
            let s3 = if has_frac {
                parse_digits(s2.skip(1)).1
            } else {
                s2
            };
            let has_exp = s3.len() > 0 && (s3[0] == 'e' || s3[0] == 'E');
            if has_exp {
                let s4 = if s3.len() >= 2 && (s3[1] == '+' || s3[1] == '-') {
                    s3.skip(2)
                } else {
                    s3.skip(1)
                };
                if s4.len() == 0 || !is_digit(s4[0]) {
                    None
                } else {
                    Some((JsonVal::NumOther, parse_digits(s4).1))
                }
            } else if neg || has_frac || digits_val(d) > u64::MAX {
                Some((JsonVal::NumOther, s3))
            } else {
                Some((JsonVal::UInt(digits_val(d) as nat), s3))
            }
        }
    }
}

/// Parses one value. `fuel` bounds the recursion into nested containers; the
/// decoder's entry point supplies more than any input can use.
pub open spec fn parse_value(s: Seq<char>, fuel: nat) -> Option<(JsonVal, Seq<char>)>
    decreases fuel,
{
    if fuel == 0 || s.len() == 0 {
        None
    } else if s[0] == '"' {
        match parse_string_body(s.skip(1)) {
            Some((t, r)) => Some((JsonVal::Str(t), r)),
            None => None,
        }
    } else if s[0] == '-' || is_digit(s[0]) {
        parse_number(s)
    } else if s[0] == 't' {
        if s.len() >= 4 && s[1] == 'r' && s[2] == 'u' && s[3] == 'e' {
            Some((JsonVal::Bool(true), s.skip(4)))
        } else {
            None
        }
    } else if s[0] == 'f' {
        if s.len() >= 5 && s[1] == 'a' && s[2] == 'l' && s[3] == 's' && s[4] == 'e' {
            Some((JsonVal::Bool(false), s.skip(5)))
        } else {
            None
        }
    } else if s[0] == 'n' {
        if s.len() >= 4 && s[1] == 'u' && s[2] == 'l' && s[3] == 'l' {
            Some((JsonVal::Null, s.skip(4)))
        } else {
            None
        }
    } else if s[0] == '{' {
        match skip_object_members(s.skip(1), true, (fuel - 1) as nat) {
            Some(r) => Some((JsonVal::Composite, r)),
            None => None,
        }
    } else if s[0] == '[' {
        match skip_array_items(s.skip(1), true, (fuel - 1) as nat) {
            Some(r) => Some((JsonVal::Composite, r)),
            None => None,
        }
    } else {
        None
    }
}

/// Consumes the members of an object being skipped, the opening brace already
/// consumed, and yields the suffix after the closing brace.
pub open spec fn skip_object_members(s: Seq<char>, first: bool, fuel: nat) -> Option<Seq<char>>
    decreases fuel,
{
    if fuel == 0 {
        None
    } else {
        let s1 = skip_ws(s);
        if first && s1.len() > 0 && s1[0] == '}' {
            Some(s1.skip(1))
        } else if s1.len() == 0 || s1[0] != '"' {
            None
        } else {
            match parse_string_body(s1.skip(1)) {
                None => None,
                Some((_k, s2)) => {
                    let s3 = skip_ws(s2);
                    if s3.len() == 0 || s3[0] != ':' {
                        None
                    } else {
                        match parse_value(skip_ws(s3.skip(1)), (fuel - 1) as nat) {
                            None => None,
                            Some((_v, s4)) => {
                                let s5 = skip_ws(s4);
                                if s5.len() == 0 {
                                    None
                                } else if s5[0] == ',' {
                                    skip_object_members(s5.skip(1), false, (fuel - 1) as nat)
                                } else if s5[0] == '}' {
                                    Some(s5.skip(1))
                                } else {
                                    None
                                }
                            },
                        }
                    }
                },
            }
        }
    }
}

/// Consumes the items of an array being skipped, the opening bracket already
/// consumed, and yields the suffix after the closing bracket.
pub open spec fn skip_array_items(s: Seq<char>, first: bool, fuel: nat) -> Option<Seq<char>>
    decreases fuel,
{
    if fuel == 0 {
        None
    } else {
        let s1 = skip_ws(s);
        if first && s1.len() > 0 && s1[0] == ']' {
            Some(s1.skip(1))
        } else {
            match parse_value(s1, (fuel - 1) as nat) {
                None => None,
                Some((_v, s2)) => {
                    let s3 = skip_ws(s2);
                    if s3.len() == 0 {
                        None
                    } else if s3[0] == ',' {
                        skip_array_items(s3.skip(1), false, (fuel - 1) as nat)
                    } else if s3[0] == ']' {
                        Some(s3.skip(1))
                    } else {
                        None
                    }
                },
            }
        }
    }
}

/// The index after any whitespace at `i`.
pub fn ws_end(v: &Vec<char>, i: usize) -> (j: usize)
    requires
        i <= v@.len(),
    ensures
        i <= j <= v@.len(),
        v@.skip(j as int) == skip_ws(v@.skip(i as int)),
{
    let n = v.len();
    let mut j = i;
    while j < n && ws_char(v[j])
        invariant
            i <= j <= n,
            n == v@.len(),
            skip_ws(v@.skip(i as int)) == skip_ws(v@.skip(j as int)),
        decreases n - j,
    {
        proof {
            assert(v@.skip(j as int)[0] == v@[j as int]);
        }
        j = j + 1;
    }
    proof {
        if j < n {
            assert(v@.skip(j as int)[0] == v@[j as int]);
        }
        assert(skip_ws(v@.skip(j as int)) == v@.skip(j as int));
    }
    j
}

/// Exec mirror of `short_escape`.
fn short_escape_of(e: char) -> (r: Option<char>)
    ensures
        r == short_escape(e),
{
    if e == '"' {
        Some('"')
    } else if e == '\\' {
        Some('\\')
    } else if e == '/' {
        Some('/')
    } else if e == 'b' {
        Some('\u{8}')
    } else if e == 'f' {
        Some('\u{c}')
    } else if e == 'n' {
        Some('\n')
    } else if e == 'r' {
        Some('\r')
    } else if e == 't' {
        Some('\t')
    } else {
        None
    }
}

/// Reads four hexadecimal digits at `i`, if they are there.
fn hex4_value(v: &Vec<char>, i: usize) -> (r: Option<u32>)
    requires
        i <= v@.len(),
    ensures
        r is Some <==> (v@.len() >= i + 4 && hex4_at(v@.skip(i as int), 0)),
        r matches Some(n) ==> n == hex4_val(v@.skip(i as int)) && n < 0x10000,
{
    let n = v.len();
    if n < 4 || i > n - 4 {
        return None;
    }
    let c0 = v[i];
    let c1 = v[i + 1];
    let c2 = v[i + 2];
    let c3 = v[i + 3];
    proof {
        assert(v@.skip(i as int)[0] == v@[i as int]);
        assert(v@.skip(i as int)[1] == v@[i as int + 1]);
        assert(v@.skip(i as int)[2] == v@[i as int + 2]);
        assert(v@.skip(i as int)[3] == v@[i as int + 3]);
    }
    if hex_char_test(c0) && hex_char_test(c1) && hex_char_test(c2) && hex_char_test(c3) {
        Some(hex_value(c0) * 0x1000 + hex_value(c1) * 0x100 + hex_value(c2) * 0x10 + hex_value(c3))
    } else {
        None
    }
}

/// Scans the body of a string literal starting at `i`, the opening quote
/// already consumed.
pub fn scan_string_body(v: &Vec<char>, i: usize) -> (r: Option<(Vec<char>, usize)>)
    requires
        i <= v@.len(),
    ensures
        match r {
            Some(tj) => i <= tj.1 <= v@.len() && parse_string_body(v@.skip(i as int)) == Some(
                (tj.0@, v@.skip(tj.1 as int)),
            ),
            None => parse_string_body(v@.skip(i as int)) is None,
        },
{
    let n = v.len();
    let mut acc: Vec<char> = Vec::new();
    let mut j = i;
    loop
        invariant
            i <= j <= n,
            n == v@.len(),
            parse_string_body(v@.skip(i as int)) == (match parse_string_body(v@.skip(j as int)) {
                Some((t, r)) => Some((acc@ + t, r)),
                None => None::<(Seq<char>, Seq<char>)>,
            }),
        decreases n - j,
    {
        let ghost s = v@.skip(j as int);
        if j == n {
            return None;
        }
        let c = v[j];
        proof {
            assert(s[0] == v@[j as int]);
        }
        if c == '"' {
            proof {
                assert(acc@ + Seq::<char>::empty() =~= acc@);
            }
            return Some((acc, j + 1));
        } else if c == '\\' {
            if j + 1 == n {
                return None;
            }
            let e = v[j + 1];
            proof {
                assert(s[1] == v@[j as int + 1]);
            }
            if e == 'u' {
                match hex4_value(v, j + 2) {
                    None => {
                        proof {
                            if s.len() >= 6 {
                                assert(s.skip(2) =~= v@.skip(j as int + 2));
                                assert(hex4_at(s, 2) ==> hex4_at(v@.skip(j as int + 2), 0));
                            }
                        }
                        return None;
                    },
                    Some(code) => {
                        proof {
                            assert(s.skip(2) =~= v@.skip(j as int + 2));
                            assert(hex4_at(v@.skip(j as int + 2), 0) ==> hex4_at(s, 2));
                            assert(hex4_val(s.skip(2)) == code);
                        }
                        if 0xD800 <= code && code <= 0xDBFF {
                            // a low surrogate escape must follow
                            if n - j <= 7 || !(v[j + 6] == '\\' && v[j + 7] == 'u') {
                                proof {
                                    if s.len() >= 12 {
                                        assert(s[6] == v@[j as int + 6]);
                                        assert(s[7] == v@[j as int + 7]);
                                    }
                                }
                                return None;
                            }
                            proof {
                                assert(s[6] == v@[j as int + 6]);
                                assert(s[7] == v@[j as int + 7]);
                            }
                            match hex4_value(v, j + 8) {
                                None => {
                                    proof {
                                        if s.len() >= 12 {
                                            assert(s.skip(8) =~= v@.skip(j as int + 8));
                                            assert(hex4_at(s, 8) ==> hex4_at(
                                                v@.skip(j as int + 8),
                                                0,
                                            ));
                                        }
                                    }
                                    return None;
                                },
                                Some(low) => {
                                    proof {
                                        assert(s.skip(8) =~= v@.skip(j as int + 8));
                                        assert(hex4_at(v@.skip(j as int + 8), 0) ==> hex4_at(s, 8));
                                        assert(hex4_val(s.skip(8)) == low);
                                    }
                                    if !(0xDC00 <= low && low <= 0xDFFF) {
                                        return None;
                                    }
                                    let cp: u32 = 0x10000 + (code - 0xD800) * 0x400 + (low
                                        - 0xDC00);
                                    let c2 = char::from_u32(cp).unwrap();
                                    let ghost old_acc = acc@;
                                    acc.push(c2);
                                    proof {
                                        vstd::utf8::char_u32_cast(c2, cp);
                                        assert(s.skip(12) =~= v@.skip(j as int + 12));
                                        assert(forall|t: Seq<char>|
                                            old_acc + (#[trigger] (seq![c2] + t)) =~= acc@ + t);
                                    }
                                    j = j + 12;
                                },
                            }
                        } else if 0xDC00 <= code && code <= 0xDFFF {
                            return None;
                        } else {
                            let c2 = char::from_u32(code).unwrap();
                            let ghost old_acc = acc@;
                            acc.push(c2);
                            proof {
                                vstd::utf8::char_u32_cast(c2, code);
                                assert(s.skip(6) =~= v@.skip(j as int + 6));
                                assert(forall|t: Seq<char>|
                                    old_acc + (#[trigger] (seq![c2] + t)) =~= acc@ + t);
                            }
                            j = j + 6;
                        }
                    },
                }
            } else {
                match short_escape_of(e) {
                    Some(c2) => {
                        let ghost old_acc = acc@;
                        acc.push(c2);
                        proof {
                            assert(s.skip(2) =~= v@.skip(j as int + 2));
                            assert(forall|t: Seq<char>|
                                old_acc + (#[trigger] (seq![c2] + t)) =~= acc@ + t);
                        }
                        j = j + 2;
                    },
                    None => {
                        return None;
                    },
                }
            }
        } else if (c as u32) < 0x20 {
            return None;
        } else {
            let ghost old_acc = acc@;
            acc.push(c);
            proof {
                assert(s.skip(1) =~= v@.skip(j as int + 1));
                assert(forall|t: Seq<char>|
                    old_acc + (#[trigger] (seq![c] + t)) =~= acc@ + t);
            }
            j = j + 1;
        }
    }
}

/// Every character of the digit run that `parse_digits` splits off is a digit.
pub proof fn lemma_parse_digits_are_digits(s: Seq<char>)
    ensures
        forall|k: int|
            0 <= k < parse_digits(s).0.len() ==> is_digit(#[trigger] parse_digits(s).0[k]),
    decreases s.len(),
{
    if s.len() > 0 && is_digit(s[0]) {
        lemma_parse_digits_are_digits(s.skip(1));
        let d2 = parse_digits(s.skip(1)).0;
        assert forall|k: int| 0 <= k < parse_digits(s).0.len() implies is_digit(
            #[trigger] parse_digits(s).0[k],
        ) by {
            if k > 0 {
                assert(parse_digits(s).0[k] == d2[k - 1]);
                assert(is_digit(d2[k - 1]));
            }
        }
    }
}

/// Scans the longest run of digits starting at `i`.
pub fn scan_digits(v: &Vec<char>, i: usize) -> (r: (Vec<char>, usize))
    requires
        i <= v@.len(),
    ensures
        i <= r.1 <= v@.len(),
        parse_digits(v@.skip(i as int)) == (r.0@, v@.skip(r.1 as int)),
{
    let n = v.len();
    let mut acc: Vec<char> = Vec::new();
    let mut j = i;
    while j < n && digit_char_test(v[j])
        invariant
            i <= j <= n,
            n == v@.len(),
            parse_digits(v@.skip(i as int)) == (
                acc@ + parse_digits(v@.skip(j as int)).0,
                parse_digits(v@.skip(j as int)).1,
            ),
        decreases n - j,
    {
        let c = v[j];
        proof {
            assert(v@.skip(j as int)[0] == v@[j as int]);
        }
        let ghost old_acc = acc@;
        acc.push(c);
        proof {
            assert(v@.skip(j as int).skip(1) =~= v@.skip(j as int + 1));
            assert(forall|t: Seq<char>| old_acc + (#[trigger] (seq![c] + t)) =~= acc@ + t);
        }
        j = j + 1;
    }
    proof {
        if j < n {
            assert(v@.skip(j as int)[0] == v@[j as int]);
        }
        assert(parse_digits(v@.skip(j as int)) == (Seq::<char>::empty(), v@.skip(j as int)));
        assert(acc@ + Seq::<char>::empty() =~= acc@);
    }
    (acc, j)
}

/// The value of a digit run, or `None` when it exceeds 64 bits.
pub fn digits_to_u64(d: &Vec<char>) -> (r: Option<u64>)
    requires
        forall|k: int| 0 <= k < d@.len() ==> is_digit(#[trigger] d@[k]),
    ensures
        match r {
            Some(x) => x as int == digits_val(d@),
            None => digits_val(d@) > u64::MAX,
        },
{
    let n = d.len();
    let mut acc: u64 = 0;
    let mut too_big = false;
    let mut k: usize = 0;
    while k < n
        invariant
            0 <= k <= n,
            n == d@.len(),
            forall|m: int| 0 <= m < d@.len() ==> is_digit(#[trigger] d@[m]),
            digits_val(d@.take(k as int)) >= 0,
            too_big <==> digits_val(d@.take(k as int)) > u64::MAX,
            !too_big ==> acc as int == digits_val(d@.take(k as int)),
        decreases n - k,
    {
        let ghost vk = digits_val(d@.take(k as int));
        let c = d[k];
        let dv = digit_value(c);
        proof {
            assert(d@.take(k as int + 1).drop_last() =~= d@.take(k as int));
            assert(d@.take(k as int + 1).last() == d@[k as int]);
            assert(digits_val(d@.take(k as int + 1)) == vk * 10 + digit_val(c));
        }
        if too_big {
            proof {
                assert(vk * 10 + digit_val(c) >= vk + digit_val(c)) by (nonlinear_arith)
                    requires
                        vk >= 0,
                ;
            }
        } else {
            let threshold = (u64::MAX - dv as u64) / 10;
            proof {
                vstd::arithmetic::div_mod::lemma_fundamental_div_mod(
                    u64::MAX - digit_val(c),
                    10,
                );
                vstd::arithmetic::div_mod::lemma_mod_bound(u64::MAX - digit_val(c), 10);
            }
            if acc > threshold {
                too_big = true;
            } else {
                acc = acc * 10 + dv as u64;
            }
        }
        k = k + 1;
    }
    proof {
        assert(d@.take(n as int) =~= d@);
    }
    if too_big {
        None
    } else {
        Some(acc)
    }
}

/// Scans a number literal starting at `i`.
pub fn scan_number(v: &Vec<char>, i: usize) -> (r: Option<(JsonValue, usize)>)
    requires
        i <= v@.len(),
    ensures
        match r {
            Some(pj) => i <= pj.1 <= v@.len() && parse_number(v@.skip(i as int)) == Some(
                (pj.0@, v@.skip(pj.1 as int)),
            ),
            None => parse_number(v@.skip(i as int)) is None,
        },
{
    let n = v.len();
    let ghost s = v@.skip(i as int);
    proof {
        if i < n {
            assert(s[0] == v@[i as int]);
        }
    }
    let neg = i < n && v[i] == '-';
    let j1 = if neg {
        i + 1
    } else {
        i
    };
    proof {
        assert(v@.skip(j1 as int) =~= (if neg {
            s.skip(1)
        } else {
            s
        }));
        if j1 < n {
            assert(v@.skip(j1 as int)[0] == v@[j1 as int]);
        }
    }
    if j1 == n || !digit_char_test(v[j1]) {
        return None;
    }
    let (d, j2) = if v[j1] == '0' {
        let mut dv: Vec<char> = Vec::new();
        dv.push('0');
        proof {
            assert(dv@ =~= seq!['0']);
            assert(v@.skip(j1 as int).skip(1) =~= v@.skip(j1 as int + 1));
        }
        (dv, j1 + 1)
    } else {
        scan_digits(v, j1)
    };
    proof {
        if j2 < n {
            assert(v@.skip(j2 as int)[0] == v@[j2 as int]);
        }
    }
    let has_frac = j2 < n && v[j2] == '.';
    if has_frac && (j2 + 1 == n || !digit_char_test(v[j2 + 1])) {
        proof {
            assert(v@.skip(j2 as int).len() >= 2 ==> v@.skip(j2 as int)[1] == v@[j2 as int + 1]);
        }
        return None;
    }
    proof {
        if has_frac {
            assert(v@.skip(j2 as int)[1] == v@[j2 as int + 1]);
        }
    }
    let j3 = if has_frac {
        proof {
            assert(v@.skip(j2 as int).skip(1) =~= v@.skip(j2 as int + 1));
        }
        scan_digits(v, j2 + 1).1
    } else {
        j2
    };
    proof {
        if j3 < n {
            assert(v@.skip(j3 as int)[0] == v@[j3 as int]);
        }
    }
    let has_exp = j3 < n && (v[j3] == 'e' || v[j3] == 'E');
    if has_exp {
        let has_sign = j3 + 1 < n && (v[j3 + 1] == '+' || v[j3 + 1] == '-');
        proof {
            if j3 + 1 < n {
                assert(v@.skip(j3 as int)[1] == v@[j3 as int + 1]);
            }
            assert(v@.skip(j3 as int).skip(1) =~= v@.skip(j3 as int + 1));
            if j3 + 2 <= n {
                assert(v@.skip(j3 as int).skip(2) =~= v@.skip(j3 as int + 2));
            }
        }
        let j4 = if has_sign {
            j3 + 2
        } else {
            j3 + 1
        };
        proof {
            if j4 < n {
                assert(v@.skip(j4 as int)[0] == v@[j4 as int]);
            }
        }
        if j4 == n || !digit_char_test(v[j4]) {
            return None;
        }
        let j5 = scan_digits(v, j4).1;
        return Some((JsonValue::NumOther, j5));
    }
    if neg || has_frac {
        return Some((JsonValue::NumOther, j3));
    }
    proof {
        if v@[j1 as int] != '0' {
            lemma_parse_digits_are_digits(v@.skip(j1 as int));
        }
    }
    match digits_to_u64(&d) {
        Some(x) => Some((JsonValue::UInt(x), j3)),
        None => Some((JsonValue::NumOther, j3)),
    }
}

/// Scans one value starting at `i`, with `fuel` bounding container nesting.
pub fn scan_value(v: &Vec<char>, i: usize, fuel: u128) -> (r: Option<(JsonValue, usize)>)
    requires
        i <= v@.len(),
    ensures
        match r {
            Some(pj) => i <= pj.1 <= v@.len() && parse_value(v@.skip(i as int), fuel as nat)
                == Some((pj.0@, v@.skip(pj.1 as int))),
            None => parse_value(v@.skip(i as int), fuel as nat) is None,
        },
    decreases fuel, 1int,
{
    let n = v.len();
    let ghost s = v@.skip(i as int);
    if fuel == 0 || i == n {
        return None;
    }
    let c = v[i];
    proof {
        assert(s[0] == v@[i as int]);
        assert(s.skip(1) =~= v@.skip(i as int + 1));
    }
    if c == '"' {
        match scan_string_body(v, i + 1) {
            Some((t, j)) => Some((JsonValue::Str(t), j)),
            None => None,
        }
    } else if c == '-' || digit_char_test(c) {
        scan_number(v, i)
    } else if c == 't' {
        proof {
            if n - i >= 4 {
                assert(s[1] == v@[i as int + 1]);
                assert(s[2] == v@[i as int + 2]);
                assert(s[3] == v@[i as int + 3]);
                assert(s.skip(4) =~= v@.skip(i as int + 4));
            }
        }
        if n - i >= 4 && v[i + 1] == 'r' && v[i + 2] == 'u' && v[i + 3] == 'e' {
            Some((JsonValue::Bool(true), i + 4))
        } else {
            None
        }
    } else if c == 'f' {
        proof {
            if n - i >= 5 {
                assert(s[1] == v@[i as int + 1]);
                assert(s[2] == v@[i as int + 2]);
                assert(s[3] == v@[i as int + 3]);
                assert(s[4] == v@[i as int + 4]);
                assert(s.skip(5) =~= v@.skip(i as int + 5));
            }
        }
        if n - i >= 5 && v[i + 1] == 'a' && v[i + 2] == 'l' && v[i + 3] == 's' && v[i + 4] == 'e' {
            Some((JsonValue::Bool(false), i + 5))
        } else {
            None
        }
    } else if c == 'n' {
        proof {
            if n - i >= 4 {
                assert(s[1] == v@[i as int + 1]);
                assert(s[2] == v@[i as int + 2]);
                assert(s[3] == v@[i as int + 3]);
                assert(s.skip(4) =~= v@.skip(i as int + 4));
            }
        }
        if n - i >= 4 && v[i + 1] == 'u' && v[i + 2] == 'l' && v[i + 3] == 'l' {
            Some((JsonValue::Null, i + 4))
        } else {
            None
        }
    } else if c == '{' {
        match scan_object_skip(v, i + 1, true, fuel - 1) {
            Some(j) => Some((JsonValue::Composite, j)),
            None => None,
        }
    } else if c == '[' {
        match scan_array_skip(v, i + 1, true, fuel - 1) {
            Some(j) => Some((JsonValue::Composite, j)),
            None => None,
        }
    } else {
        None
    }
}

/// Consumes the members of an object being skipped, starting after its opening
/// brace.
pub fn scan_object_skip(v: &Vec<char>, i: usize, first: bool, fuel: u128) -> (r: Option<usize>)
    requires
        i <= v@.len(),
    ensures
        match r {
            Some(j) => i <= j <= v@.len() && skip_object_members(
                v@.skip(i as int),
                first,
                fuel as nat,
            ) == Some(v@.skip(j as int)),
            None => skip_object_members(v@.skip(i as int), first, fuel as nat) is None,
        },
    decreases fuel, 0int,
{
    let n = v.len();
    let mut j = i;
    let mut cur_first = first;
    let mut cur_fuel = fuel;
    loop
        invariant
            i <= j <= n,
            n == v@.len(),
            cur_fuel <= fuel,
            skip_object_members(v@.skip(i as int), first, fuel as nat) == skip_object_members(
                v@.skip(j as int),
                cur_first,
                cur_fuel as nat,
            ),
        decreases cur_fuel,
    {
        if cur_fuel == 0 {
            return None;
        }
        let j1 = ws_end(v, j);
        proof {
            if j1 < n {
                assert(v@.skip(j1 as int)[0] == v@[j1 as int]);
            }
        }
        if cur_first && j1 < n && v[j1] == '}' {
            proof {
                assert(v@.skip(j1 as int).skip(1) =~= v@.skip(j1 as int + 1));
            }
            return Some(j1 + 1);
        }
        if j1 == n || v[j1] != '"' {
            return None;
        }
        proof {
            assert(v@.skip(j1 as int).skip(1) =~= v@.skip(j1 as int + 1));
        }
        let key = scan_string_body(v, j1 + 1);
        match key {
            None => {
                return None;
            },
            Some((_k, j2)) => {
                let j3 = ws_end(v, j2);
                proof {
                    if j3 < n {
                        assert(v@.skip(j3 as int)[0] == v@[j3 as int]);
                    }
                }
                if j3 == n || v[j3] != ':' {
                    return None;
                }
                proof {
                    assert(v@.skip(j3 as int).skip(1) =~= v@.skip(j3 as int + 1));
                }
                let j4 = ws_end(v, j3 + 1);
                match scan_value(v, j4, cur_fuel - 1) {
                    None => {
                        return None;
                    },
                    Some((_val, j5)) => {
                        let j6 = ws_end(v, j5);
                        proof {
                            if j6 < n {
                                assert(v@.skip(j6 as int)[0] == v@[j6 as int]);
                            }
                        }
                        if j6 == n {
                            return None;
                        }
                        if v[j6] == ',' {
                            proof {
                                assert(v@.skip(j6 as int).skip(1) =~= v@.skip(j6 as int + 1));
                            }
                            j = j6 + 1;
                            cur_first = false;
                            cur_fuel = cur_fuel - 1;
                        } else if v[j6] == '}' {
                            proof {
                                assert(v@.skip(j6 as int).skip(1) =~= v@.skip(j6 as int + 1));
                            }
                            return Some(j6 + 1);
                        } else {
                            return None;
                        }
                    },
                }
            },
        }
    }
}

/// Consumes the items of an array being skipped, starting after its opening
/// bracket.
pub fn scan_array_skip(v: &Vec<char>, i: usize, first: bool, fuel: u128) -> (r: Option<usize>)
    requires
        i <= v@.len(),
    ensures
        match r {
            Some(j) => i <= j <= v@.len() && skip_array_items(
                v@.skip(i as int),
                first,
                fuel as nat,
            ) == Some(v@.skip(j as int)),
            None => skip_array_items(v@.skip(i as int), first, fuel as nat) is None,
        },
    decreases fuel, 0int,
{
    let n = v.len();
    let mut j = i;
    let mut cur_first = first;
    let mut cur_fuel = fuel;
    loop
        invariant
            i <= j <= n,
            n == v@.len(),
            cur_fuel <= fuel,
            skip_array_items(v@.skip(i as int), first, fuel as nat) == skip_array_items(
                v@.skip(j as int),
                cur_first,
                cur_fuel as nat,
            ),
        decreases cur_fuel,
    {
        if cur_fuel == 0 {
            return None;
        }
        let j1 = ws_end(v, j);
        proof {
            if j1 < n {
                assert(v@.skip(j1 as int)[0] == v@[j1 as int]);
            }
        }
        if cur_first && j1 < n && v[j1] == ']' {
            proof {
                assert(v@.skip(j1 as int).skip(1) =~= v@.skip(j1 as int + 1));
            }
            return Some(j1 + 1);
        }
        match scan_value(v, j1, cur_fuel - 1) {
            None => {
                return None;
            },
            Some((_val, j2)) => {
                let j3 = ws_end(v, j2);
                proof {
                    if j3 < n {
                        assert(v@.skip(j3 as int)[0] == v@[j3 as int]);
                    }
                }
                if j3 == n {
                    return None;
                }
                if v[j3] == ',' {
                    proof {
                        assert(v@.skip(j3 as int).skip(1) =~= v@.skip(j3 as int + 1));
                    }
                    j = j3 + 1;
                    cur_first = false;
                    cur_fuel = cur_fuel - 1;
                } else if v[j3] == ']' {
                    proof {
                        assert(v@.skip(j3 as int).skip(1) =~= v@.skip(j3 as int + 1));
                    }
                    return Some(j3 + 1);
                } else {
                    return None;
                }
            },
        }
    }
}

/// One direction of the codec's round trip, at the level of string literals:
/// the printed body of a string, followed by its closing quote, parses back to
/// exactly the original characters, leaving the rest untouched.
pub proof fn lemma_parse_escaped_string(t: Seq<char>, rest: Seq<char>)
    ensures
        parse_string_body(escape_string(t) + seq!['"'] + rest) == Some((t, rest)),
    decreases t.len(),
{
    let q = seq!['"'];
    let s = escape_string(t) + q + rest;
    if t.len() == 0 {
        assert(s =~= q + rest);
        assert(s[0] == '"');
        assert(s.skip(1) =~= rest);
    } else {
        let c = t[0];
        let t2 = t.drop_first();
        let e = esc_char(c);
        let tail = escape_string(t2) + q + rest;
        assert(escape_string(t) == e + escape_string(t2));
        assert(s =~= e + tail);
        lemma_parse_escaped_string(t2, rest);
        assert(seq![c] + t2 =~= t);
        if c == '"' {
            assert(s[0] == '\\');
            assert(s[1] == '"');
            assert(s.skip(2) =~= tail);
        } else if c == '\\' {
            assert(s[0] == '\\');
            assert(s[1] == '\\');
            assert(s.skip(2) =~= tail);
        } else if is_control(c) {
            let hi = (c as u32) / 16 as u32;
            let lo = (c as u32) % 16 as u32;
            assert(s[0] == '\\');
            assert(s[1] == 'u');
            assert(s[2] == '0');
            assert(s[3] == '0');
            assert(s[4] == hex_char(hi as int));
            assert(s[5] == hex_char(lo as int));
            lemma_hex_char_val(hi as int);
            lemma_hex_char_val(lo as int);
            assert(hex_val('0') == 0);
            assert(hex4_at(s, 2));
            assert(s.skip(2)[0] == s[2]);
            assert(s.skip(2)[1] == s[3]);
            assert(s.skip(2)[2] == s[4]);
            assert(s.skip(2)[3] == s[5]);
            let code = hex4_val(s.skip(2));
            assert(code == hi * 16 + lo);
            assert(code == c as u32);
            assert(0 <= code < 0x20);
            vstd::utf8::char_u32_cast(c, c as u32);
            assert((code as u32) as char == c);
            assert(s.skip(6) =~= tail);
        } else {
            assert(s[0] == c);
            assert(s.skip(1) =~= tail);
        }
    }
}

/// The decimal printer yields at least one digit, only digits, no leading
/// zero except for zero itself, and a text whose value is the number printed.
pub proof fn lemma_dec_digits_props(n: nat)
    ensures
        dec_digits(n).len() >= 1,
        forall|k: int| 0 <= k < dec_digits(n).len() ==> is_digit(#[trigger] dec_digits(n)[k]),
        digits_val(dec_digits(n)) == n,
        n > 0 ==> dec_digits(n)[0] != '0',
        n == 0 ==> dec_digits(n) == seq!['0'],
    decreases n,
{
    if n < 10 {
        let dd = dec_digits(n);
        assert(dd == seq![digit_char(n as int)]);
        assert(dd.drop_last() =~= Seq::<char>::empty());
        assert(dd.last() == digit_char(n as int));
        assert(digit_val(digit_char(n as int)) == n);
        assert(digits_val(dd) == digits_val(dd.drop_last()) * 10 + digit_val(dd.last()));
    } else {
        lemma_dec_digits_props(n / 10);
        let x = dec_digits(n / 10);
        let d = dec_digits(n).last();
        assert(dec_digits(n) == x.push(d));
        assert(x.push(d).drop_last() =~= x);
        vstd::arithmetic::div_mod::lemma_fundamental_div_mod(n as int, 10);
        assert forall|k: int| 0 <= k < dec_digits(n).len() implies is_digit(
            #[trigger] dec_digits(n)[k],
        ) by {
            if k < x.len() {
                assert(dec_digits(n)[k] == x[k]);
            }
        }
        assert(dec_digits(n)[0] == x[0]);
    }
}

/// Splitting digits off a text that starts with exactly those digits yields
/// them back.
pub proof fn lemma_parse_digits_concat(d: Seq<char>, rest: Seq<char>)
    requires
        forall|k: int| 0 <= k < d.len() ==> is_digit(#[trigger] d[k]),
        rest.len() == 0 || !is_digit(rest[0]),
    ensures
        parse_digits(d + rest) == (d, rest),
    decreases d.len(),
{
    let s = d + rest;
    if d.len() == 0 {
        assert(s =~= rest);
    } else {
        assert(s[0] == d[0]);
        assert(s.skip(1) =~= d.drop_first() + rest);
        lemma_parse_digits_concat(d.drop_first(), rest);
        assert(seq![s[0]] + d.drop_first() =~= d);
    }
}

/// One direction of the codec's round trip, at the level of numbers: a printed
/// integer, followed by anything that cannot extend a number literal, parses
/// back to exactly that integer.
pub proof fn lemma_parse_printed_number(n: u64, rest: Seq<char>)
    requires
        rest.len() == 0 || (!is_digit(rest[0]) && rest[0] != '.' && rest[0] != 'e' && rest[0]
            != 'E'),
    ensures
        parse_number(dec_digits(n as nat) + rest) == Some((JsonVal::UInt(n as nat), rest)),
{
    let dd = dec_digits(n as nat);
    let s = dd + rest;
    lemma_dec_digits_props(n as nat);
    assert(s[0] == dd[0]);
    assert(is_digit(s[0]));
    assert(s[0] != '-');
    if n == 0 {
        assert(s[0] == '0');
        assert(s.skip(1) =~= rest);
        assert(digits_val(seq![s[0]]) == digits_val(Seq::<char>::empty()) * 10 + digit_val('0'));
    } else {
        assert(s[0] != '0');
        lemma_parse_digits_concat(dd, rest);
    }
}

} // verus!
