//! Unescaping of the string literal that a room page embeds its data in:
//! `\uXXXX`, `\n`, `\r`, `\t`, `\"`, `\\` and `\/`.

use vstd::prelude::*;
use crate::error::Error;
use crate::text::{chars_of, string_of};

verus! {

/// An ASCII hexadecimal digit.
pub open spec fn is_hex_digit(c: char) -> bool {
    ('0' <= c && c <= '9') || ('a' <= c && c <= 'f') || ('A' <= c && c <= 'F')
}

pub open spec fn hex_digit_value(c: char) -> nat {
    if '0' <= c && c <= '9' {
        (c as u32 - '0' as u32) as nat
    } else if 'a' <= c && c <= 'f' {
        (c as u32 - 'a' as u32 + 10) as nat
    } else {
        (c as u32 - 'A' as u32 + 10) as nat
    }
}

/// The number that a run of hexadecimal digits spells, most significant first.
pub open spec fn hex_value(s: Seq<char>) -> nat
    decreases s.len(),
{
    if s.len() == 0 {
        0
    } else {
        hex_value(s.drop_last()) * 16 + hex_digit_value(s.last())
    }
}

pub open spec fn all_hex(s: Seq<char>) -> bool {
    forall|i: int| 0 <= i < s.len() ==> is_hex_digit(#[trigger] s[i])
}

/// A base-16 number as `u32::from_str_radix` reads it from at most four
/// characters: an optional `+`, then one or more hexadecimal digits.
pub open spec fn hex_code(s: Seq<char>) -> Option<nat> {
    let digits = if s.len() > 0 && s[0] == '+' { s.drop_first() } else { s };
    if digits.len() > 0 && all_hex(digits) {
        Some(hex_value(digits))
    } else {
        None
    }
}

/// Whether `code` is a Unicode scalar value, that is a valid `char`.
pub open spec fn is_scalar(code: nat) -> bool {
    code < 0xD800 || (0xE000 <= code && code <= 0x10FFFF)
}

/// Relies on `char::from_u32`: the character whose scalar value is `code`,
/// none where `code` is a surrogate or above `0x10FFFF`.
#[verifier::external_body]
fn char_from_code(code: u32) -> (r: Option<char>)
    ensures
        match r {
            Some(c) => is_scalar(code as nat) && c as u32 == code,
            None => !is_scalar(code as nat),
        },
{
    char::from_u32(code)
}

/// The characters of an escaped literal after unescaping. A backslash
/// followed by `u` takes the next four characters (fewer at the end) as a
/// hexadecimal code, and yields its character when the code is a valid one,
/// nothing otherwise; before `n`, `r`, `t`, `"`, `\` or `/` it yields the
/// character meant; before anything else, or at the end, it stays as it is.
pub open spec fn unescape(s: Seq<char>) -> Seq<char>
    decreases s.len(),
{
    if s.len() == 0 {
        Seq::empty()
    } else if s[0] != '\\' || s.len() == 1 {
        seq![s[0]] + unescape(s.drop_first())
    } else {
        let c = s[1];
        if c == 'u' {
            let end: int = if s.len() < 6 { s.len() as int } else { 6 };
            let rest = s.subrange(end, s.len() as int);
            match hex_code(s.subrange(2, end)) {
                Some(code) => if is_scalar(code) {
                    seq![(code as u32) as char] + unescape(rest)
                } else {
                    unescape(rest)
                },
                None => unescape(rest),
            }
        } else if c == 'n' || c == 'r' || c == 't' || c == '"' || c == '\\' || c == '/' {
            let ch = if c == 'n' {
                '\n'
            } else if c == 'r' {
                '\r'
            } else if c == 't' {
                '\t'
            } else {
                c
            };
            seq![ch] + unescape(s.subrange(2, s.len() as int))
        } else {
            seq!['\\'] + unescape(s.drop_first())
        }
    }
}

/// Reads an optional `+` and one or more hexadecimal digits, at most four characters.
fn parse_hex_code(cs: &Vec<char>, from: usize, to: usize) -> (r: Option<u32>)
    requires
        from <= to <= cs@.len(),
        to - from <= 4,
    ensures
        match r {
            Some(v) => hex_code(cs@.subrange(from as int, to as int)) == Some(v as nat),
            None => hex_code(cs@.subrange(from as int, to as int)) is None,
        },
{
    let ghost s = cs@.subrange(from as int, to as int);
    let mut start = from;
    if from < to && cs[from] == '+' {
        start = from + 1;
    }
    let ghost digits = cs@.subrange(start as int, to as int);
    proof {
        if from < to && cs@[from as int] == '+' {
            assert(s.drop_first() == digits);
        } else {
            assert(s == digits);
        }
    }
    if start == to {
        return None;
    }
    let mut value: u32 = 0;
    let mut i = start;
    proof {
        assert(digits.subrange(0, 0).len() == 0);
    }
    while i < to
        invariant
            start <= i <= to,
            to - start <= 4,
            to <= cs@.len(),
            digits == cs@.subrange(start as int, to as int),
            all_hex(digits.subrange(0, i - start)),
            value as nat == hex_value(digits.subrange(0, i - start)),
            value < pow16((i - start) as nat),
            hex_code(cs@.subrange(from as int, to as int)) == (if digits.len() > 0 && all_hex(
                digits,
            ) {
                Some(hex_value(digits))
            } else {
                None
            }),
        decreases to - i,
    {
        let c = cs[i];
        let d: u32 = if '0' <= c && c <= '9' {
            c as u32 - '0' as u32
        } else if 'a' <= c && c <= 'f' {
            c as u32 - 'a' as u32 + 10
        } else if 'A' <= c && c <= 'F' {
            c as u32 - 'A' as u32 + 10
        } else {
            proof {
                assert(digits[i - start] == c);
                assert(!all_hex(digits));
            }
            return None;
        };
        proof {
            let pre = digits.subrange(0, i - start);
            let next = digits.subrange(0, i - start + 1);
            assert(next.drop_last() == pre);
            assert(next.last() == c);
            assert(digits[i - start] == c);
            assert forall|j: int| 0 <= j < next.len() implies is_hex_digit(#[trigger] next[j]) by {
                if j < pre.len() {
                    assert(next[j] == pre[j]);
                }
            }
            lemma_pow16_step((i - start) as nat, value as nat, d as nat);
        }
        value = value * 16 + d;
        i = i + 1;
    }
    proof {
        assert(digits.subrange(0, to - start) == digits);
    }
    Some(value)
}

pub open spec fn pow16(n: nat) -> nat
    decreases n,
{
    if n == 0 {
        1
    } else {
        16 * pow16((n - 1) as nat)
    }
}

proof fn lemma_pow16_step(n: nat, v: nat, d: nat)
    requires
        n < 4,
        v < pow16(n),
        d < 16,
    ensures
        v * 16 + d < pow16(n + 1),
        pow16(n + 1) <= 65536,
{
    reveal_with_fuel(pow16, 5);
    assert(v * 16 + d < pow16(n) * 16) by (nonlinear_arith)
        requires
            v < pow16(n),
            d < 16,
    ;
}

/// Undoes the escapes of an embedded string literal (see `unescape`).
pub fn decode_unicode_escapes(input: &str) -> (r: Result<String, Error>)
    ensures
        r matches Ok(s) && s@ == unescape(input@),
{
    let cs = chars_of(input);
    let n = cs.len();
    let mut out: Vec<char> = Vec::new();
    let mut i: usize = 0;
    proof {
        assert(cs@.subrange(0, n as int) == cs@);
    }
    while i < n
        invariant
            i <= n,
            n == cs@.len(),
            out@ + unescape(cs@.subrange(i as int, n as int)) == unescape(cs@),
        decreases n - i,
    {
        let ghost s = cs@.subrange(i as int, n as int);
        let ghost prev_out = out@;
        let c = cs[i];
        assert(s[0] == c);
        if c != '\\' || i + 1 == n {
            proof {
                assert(s.drop_first() == cs@.subrange(i + 1, n as int));
            }
            out.push(c);
            i = i + 1;
        } else {
            let e = cs[i + 1];
            assert(s[1] == e);
            if e == 'u' {
                let end: usize = if n - i < 6 { n } else { i + 6 };
                proof {
                    assert(s.subrange(2, end - i) == cs@.subrange(i + 2, end as int));
                    assert(s.subrange(end - i, s.len() as int) == cs@.subrange(end as int, n as int));
                }
                match parse_hex_code(&cs, i + 2, end) {
                    Some(code) => {
                        match char_from_code(code) {
                            Some(ch) => {
                                proof {
                                    vstd::utf8::char_u32_cast(ch, code);
                                }
                                out.push(ch);
                            },
                            None => {},
                        }
                    },
                    None => {},
                }
                i = end;
            } else if e == 'n' || e == 'r' || e == 't' || e == '"' || e == '\\' || e == '/' {
                let ch = if e == 'n' {
                    '\n'
                } else if e == 'r' {
                    '\r'
                } else if e == 't' {
                    '\t'
                } else {
                    e
                };
                proof {
                    assert(s.subrange(2, s.len() as int) == cs@.subrange(i + 2, n as int));
                }
                out.push(ch);
                i = i + 2;
            } else {
                proof {
                    assert(s.drop_first() == cs@.subrange(i + 1, n as int));
                }
                out.push('\\');
                i = i + 1;
            }
        }
        proof {
            let rest = cs@.subrange(i as int, n as int);
            let added = out@.subrange(prev_out.len() as int, out@.len() as int);
            assert(out@ == prev_out + added);
            assert(unescape(s) == added + unescape(rest));
            assert(out@ + unescape(rest) =~= prev_out + (added + unescape(rest)));
        }
    }
    proof {
        assert(cs@.subrange(n as int, n as int).len() == 0);
        assert(out@ + Seq::<char>::empty() == out@);
        assert(cs@.subrange(0, n as int) == cs@);
    }
    Ok(string_of(&out))
}

} // verus!
