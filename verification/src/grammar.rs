//! The grammar, as a total mathematical model.
//!
//! Each function here is the ghost twin of one production of the parser:
//! it takes the input sequence and a cursor position and returns the parsed
//! fragment (or the first error) together with the position after the
//! production.  Positions count consumed characters: position `0` is the
//! synthetic start state whose lookahead is a space, positions `1` to
//! `len` look at the character just consumed, and `len + 1` is past the
//! end.  Every production is entered with its first character as the
//! current one and, on success, leaves the first character after its text
//! as the current one.
//!
//! The executable parser in [`crate::de`] is proved equal to this model,
//! so these definitions — not the executable code — are the authoritative
//! statement of what the parser accepts and builds.
//!
//! Two idioms keep the recursion of these total functions well founded.
//! Where a recursive call's position comes out of another production, it
//! is first clamped forward (`if q <= p { p + 1 } else { q }`); on states
//! the parser can reach the clamp never fires, since productions only
//! move forward.  And where a production would recurse at a position that
//! might lie past the end, it first looks at the lookahead there and
//! returns the very error the callee would return for it.

use vstd::prelude::*;

use crate::error::Expected;
use crate::error::NumberError;
use crate::error::ParseError;
use crate::value::depth_le;
use crate::value::elems_depth_le;
use crate::value::entries_depth_le;
use crate::value::lemma_upsert_preserves_depth;
use crate::value::lemma_upsert_preserves_wf;
use crate::value::spec_upsert;
use crate::value::unique_keys;
use crate::value::wf_elems;
use crate::value::wf_entries;
use crate::value::wf_value;
use crate::value::FloatLit;
use crate::value::Number;
use crate::value::SpecValue;

verus! {

/// Whitespace skipped between tokens.
pub open spec fn is_ws(c: char) -> bool {
    c == ' ' || c == '\t' || c == '\n' || c == '\r'
}

/// A decimal digit.
pub open spec fn is_digit(c: char) -> bool {
    48 <= c as u32 <= 57
}

/// The value of a decimal digit.
pub open spec fn digit_val(c: char) -> u64 {
    (c as u32 - 48) as u64
}

/// A hexadecimal digit (both cases accepted).
pub open spec fn is_hex(c: char) -> bool {
    is_digit(c) || 97 <= c as u32 <= 102 || 65 <= c as u32 <= 70
}

/// The value of a hexadecimal digit.
pub open spec fn hex_val(c: char) -> u32 {
    if is_digit(c) {
        (c as u32 - 48) as u32
    } else if 97 <= c as u32 {
        (c as u32 - 87) as u32
    } else {
        (c as u32 - 55) as u32
    }
}

/// A unicode scalar value: any code point except the surrogate range.
pub open spec fn valid_scalar(u: u32) -> bool {
    u < 0xD800 || (0xE000 <= u && u <= 0x10FFFF)
}

/// The lookahead at position `p`.
pub open spec fn peek_of(s: Seq<char>, p: int) -> Option<char> {
    if p == 0 {
        Some(' ')
    } else if 1 <= p <= s.len() {
        Some(s[p - 1])
    } else {
        None
    }
}

/// The position after consuming one more character.
pub open spec fn next_pos(s: Seq<char>, p: int) -> int {
    if p <= s.len() {
        p + 1
    } else {
        p
    }
}

/// The offset reported for the character at position `p`.
pub open spec fn off(s: Seq<char>, p: int) -> usize {
    if p >= 1 {
        (p - 1) as usize
    } else {
        0
    }
}

/// The position after skipping the run of whitespace that starts at the
/// current character.
pub open spec fn skip_ws(s: Seq<char>, p: int) -> int
    decreases s.len() + 1 - p,
{
    match peek_of(s, p) {
        Some(c) => if is_ws(c) {
            skip_ws(s, next_pos(s, p))
        } else {
            p
        },
        None => p,
    }
}

/// Whether `char::is_alphabetic` classifies `c` as alphabetic.  The
/// classification is a large unicode table, so it is named rather than
/// written out; the wrapper around `char::is_alphabetic` ties the name to
/// the call.
pub uninterp spec fn alpha_of(c: char) -> bool;

/// The probe for one specific character at the current position; it never
/// moves the cursor.
pub open spec fn spec_char_probe(s: Seq<char>, p: int, ic: char) -> Result<char, ParseError> {
    match peek_of(s, p) {
        Some(c) => if c == ic {
            Ok(c)
        } else {
            Err(
                ParseError::UnexpectedCharacter {
                    expected: Expected::Char(ic),
                    found: c,
                    offset: off(s, p),
                },
            )
        },
        None => Err(ParseError::UnexpectedEnd { offset: s.len() as usize }),
    }
}

/// The probe for a decimal digit at the current position.
pub open spec fn spec_digit_probe(s: Seq<char>, p: int) -> Result<char, ParseError> {
    match peek_of(s, p) {
        Some(c) => if is_digit(c) {
            Ok(c)
        } else {
            Err(
                ParseError::UnexpectedCharacter {
                    expected: Expected::Digit,
                    found: c,
                    offset: off(s, p),
                },
            )
        },
        None => Err(ParseError::UnexpectedEnd { offset: s.len() as usize }),
    }
}

/// The probe for an alphabetic character at the current position.
pub open spec fn spec_letter_probe(s: Seq<char>, p: int) -> Result<char, ParseError> {
    match peek_of(s, p) {
        Some(c) => if alpha_of(c) {
            Ok(c)
        } else {
            Err(
                ParseError::UnexpectedCharacter {
                    expected: Expected::Letter,
                    found: c,
                    offset: off(s, p),
                },
            )
        },
        None => Err(ParseError::UnexpectedEnd { offset: s.len() as usize }),
    }
}

/// One character of a literal: the current character must be `c`.  `st`
/// is the offset of the literal's first character, reported so that a
/// diagnostic can show the candidate consumed so far.
pub open spec fn lit_step(s: Seq<char>, p: int, c: char, st: usize) -> Result<(), ParseError> {
    match peek_of(s, p) {
        Some(x) => if x == c {
            Ok(())
        } else {
            Err(ParseError::InvalidLiteral { start: st, offset: off(s, p) })
        },
        None => Err(ParseError::InvalidLiteral { start: st, offset: s.len() as usize }),
    }
}

/// The literal `true`, entered at its `t`.
pub open spec fn spec_true(s: Seq<char>, p: int) -> (Result<bool, ParseError>, int) {
    let st = off(s, p);
    match lit_step(s, p, 't', st) {
        Err(e) => (Err(e), p),
        Ok(_) => {
            let p1 = next_pos(s, p);
            match lit_step(s, p1, 'r', st) {
                Err(e) => (Err(e), p1),
                Ok(_) => {
                    let p2 = next_pos(s, p1);
                    match lit_step(s, p2, 'u', st) {
                        Err(e) => (Err(e), p2),
                        Ok(_) => {
                            let p3 = next_pos(s, p2);
                            match lit_step(s, p3, 'e', st) {
                                Err(e) => (Err(e), p3),
                                Ok(_) => (Ok(true), next_pos(s, p3)),
                            }
                        },
                    }
                },
            }
        },
    }
}

/// The literal `false`, entered at its `f`.
pub open spec fn spec_false(s: Seq<char>, p: int) -> (Result<bool, ParseError>, int) {
    let st = off(s, p);
    match lit_step(s, p, 'f', st) {
        Err(e) => (Err(e), p),
        Ok(_) => {
            let p1 = next_pos(s, p);
            match lit_step(s, p1, 'a', st) {
                Err(e) => (Err(e), p1),
                Ok(_) => {
                    let p2 = next_pos(s, p1);
                    match lit_step(s, p2, 'l', st) {
                        Err(e) => (Err(e), p2),
                        Ok(_) => {
                            let p3 = next_pos(s, p2);
                            match lit_step(s, p3, 's', st) {
                                Err(e) => (Err(e), p3),
                                Ok(_) => {
                                    let p4 = next_pos(s, p3);
                                    match lit_step(s, p4, 'e', st) {
                                        Err(e) => (Err(e), p4),
                                        Ok(_) => (Ok(false), next_pos(s, p4)),
                                    }
                                },
                            }
                        },
                    }
                },
            }
        },
    }
}

/// The literal `null`, entered at its `n`.
pub open spec fn spec_null(s: Seq<char>, p: int) -> (Result<(), ParseError>, int) {
    let st = off(s, p);
    match lit_step(s, p, 'n', st) {
        Err(e) => (Err(e), p),
        Ok(_) => {
            let p1 = next_pos(s, p);
            match lit_step(s, p1, 'u', st) {
                Err(e) => (Err(e), p1),
                Ok(_) => {
                    let p2 = next_pos(s, p1);
                    match lit_step(s, p2, 'l', st) {
                        Err(e) => (Err(e), p2),
                        Ok(_) => {
                            let p3 = next_pos(s, p2);
                            match lit_step(s, p3, 'l', st) {
                                Err(e) => (Err(e), p3),
                                Ok(_) => (Ok(()), next_pos(s, p3)),
                            }
                        },
                    }
                },
            }
        },
    }
}

/// One hexadecimal digit of a `\u` escape, probed at the current character.
pub open spec fn hex_step(s: Seq<char>, p: int) -> Result<u32, ParseError> {
    match peek_of(s, p) {
        Some(c) => if is_hex(c) {
            Ok(hex_val(c))
        } else {
            Err(ParseError::InvalidEscape { offset: off(s, p) })
        },
        None => Err(ParseError::UnexpectedEnd { offset: s.len() as usize }),
    }
}

/// The four hexadecimal digits of a `\u` escape, entered at the `u`.
/// A code in the surrogate range is rejected: it is no unicode scalar.
pub open spec fn spec_hex4(s: Seq<char>, p: int) -> (Result<char, ParseError>, int) {
    let p1 = next_pos(s, p);
    match hex_step(s, p1) {
        Err(e) => (Err(e), p1),
        Ok(h1) => {
            let p2 = next_pos(s, p1);
            match hex_step(s, p2) {
                Err(e) => (Err(e), p2),
                Ok(h2) => {
                    let p3 = next_pos(s, p2);
                    match hex_step(s, p3) {
                        Err(e) => (Err(e), p3),
                        Ok(h3) => {
                            let p4 = next_pos(s, p3);
                            match hex_step(s, p4) {
                                Err(e) => (Err(e), p4),
                                Ok(h4) => {
                                    let code = (h1 * 4096 + h2 * 256 + h3 * 16 + h4) as u32;
                                    if valid_scalar(code) {
                                        (Ok(code as char), p4)
                                    } else {
                                        (Err(ParseError::InvalidEscape { offset: off(s, p4) }), p4)
                                    }
                                },
                            }
                        },
                    }
                },
            }
        },
    }
}

/// An escape sequence, entered at its backslash.  On success the current
/// character is the last character of the escape.
pub open spec fn spec_escape(s: Seq<char>, p: int) -> (Result<char, ParseError>, int) {
    let q = next_pos(s, p);
    match peek_of(s, q) {
        None => (Err(ParseError::UnexpectedEnd { offset: s.len() as usize }), q),
        Some(c) => if c == '"' {
            (Ok('"'), q)
        } else if c == '\\' {
            (Ok('\\'), q)
        } else if c == '/' {
            (Ok('/'), q)
        } else if c == 'b' {
            (Ok('\u{8}'), q)
        } else if c == 'f' {
            (Ok('\u{C}'), q)
        } else if c == 'n' {
            (Ok('\n'), q)
        } else if c == 'r' {
            (Ok('\r'), q)
        } else if c == 't' {
            (Ok('\t'), q)
        } else if c == 'u' {
            spec_hex4(s, q)
        } else {
            (Err(ParseError::InvalidEscape { offset: off(s, q) }), q)
        },
    }
}

/// The characters of a string body after the opening quote, with `acc` the
/// characters decoded so far.  On success the current character is one past
/// the closing quote.
pub open spec fn spec_string_rest(s: Seq<char>, p: int, acc: Seq<char>) -> (Result<
    Seq<char>,
    ParseError,
>, int)
    decreases s.len() + 1 - p,
{
    let q = next_pos(s, p);
    match peek_of(s, q) {
        None => (Err(ParseError::UnexpectedEnd { offset: s.len() as usize }), q),
        Some(c) => if c == '"' {
            (Ok(acc), next_pos(s, q))
        } else if c == '\\' {
            let r = spec_escape(s, q);
            match r.0 {
                Err(e) => (Err(e), r.1),
                Ok(ec) => {
                    let q2 = if r.1 <= p { p + 1 } else {
                        r.1
                    };
                    spec_string_rest(s, q2, acc.push(ec))
                },
            }
        } else {
            spec_string_rest(s, q, acc.push(c))
        },
    }
}

/// A string, entered at its opening quote.
pub open spec fn spec_string(s: Seq<char>, p: int) -> (Result<Seq<char>, ParseError>, int) {
    match peek_of(s, p) {
        None => (Err(ParseError::UnexpectedEnd { offset: s.len() as usize }), p),
        Some(c) => if c == '"' {
            spec_string_rest(s, p, Seq::empty())
        } else {
            (
                Err(
                    ParseError::UnexpectedCharacter {
                        expected: Expected::Char('"'),
                        found: c,
                        offset: off(s, p),
                    },
                ),
                p,
            )
        },
    }
}

/// Digits after the first one, with `acc` their value and `count` how many
/// were consumed.  Stops at the first non-digit, which becomes the current
/// character; an accumulation that would overflow is an error.
pub open spec fn spec_digits(s: Seq<char>, p: int, acc: u64, count: usize) -> (Result<
    (u64, usize),
    ParseError,
>, int)
    decreases s.len() + 1 - p,
{
    let q = next_pos(s, p);
    match peek_of(s, q) {
        Some(c) => if is_digit(c) {
            if acc > (u64::MAX - digit_val(c)) / 10 {
                (Err(ParseError::InvalidNumber { offset: off(s, q), reason: NumberError::Overflow }), q)
            } else {
                spec_digits(s, q, (acc * 10 + digit_val(c)) as u64, (count + 1) as usize)
            }
        } else {
            (Ok((acc, count)), q)
        },
        None => (Ok((acc, count)), q),
    }
}

/// A run of one or more digits, entered at its first digit; yields the
/// accumulated value and the number of digits.
pub open spec fn spec_integer(s: Seq<char>, p: int) -> (Result<(u64, usize), ParseError>, int) {
    match peek_of(s, p) {
        Some(c) => if is_digit(c) {
            spec_digits(s, p, digit_val(c), 1)
        } else {
            (Err(ParseError::InvalidNumber { offset: off(s, p), reason: NumberError::MissingDigits }), p)
        },
        None => (Err(ParseError::UnexpectedEnd { offset: s.len() as usize }), p),
    }
}

/// The optional exponent part and the final classification of a number.
/// `p` looks at the first character after the integer and fraction parts.
pub open spec fn spec_number_tail(
    s: Seq<char>,
    p: int,
    neg: bool,
    whole: u64,
    frac: u64,
    frac_len: usize,
    has_frac: bool,
) -> (Result<Number, ParseError>, int) {
    let has_exp = peek_of(s, p) == Some('e') || peek_of(s, p) == Some('E');
    if has_exp {
        let q = next_pos(s, p);
        let exp_neg = peek_of(s, q) == Some('-');
        let q1 = if exp_neg || peek_of(s, q) == Some('+') {
            next_pos(s, q)
        } else {
            q
        };
        let r = spec_integer(s, q1);
        match r.0 {
            Err(e) => (Err(e), r.1),
            Ok(ec) => (
                Ok(Number::Float(FloatLit { neg, whole, frac, frac_len, exp_neg, exp: ec.0 })),
                r.1,
            ),
        }
    } else if has_frac {
        (
            Ok(Number::Float(FloatLit { neg, whole, frac, frac_len, exp_neg: false, exp: 0 })),
            p,
        )
    } else if neg {
        if whole <= i64::MAX as u64 {
            (Ok(Number::NegInt((-(whole as int)) as i64)), p)
        } else if whole == i64::MAX as u64 + 1 {
            (Ok(Number::NegInt(i64::MIN)), p)
        } else {
            (
                Err(ParseError::InvalidNumber { offset: off(s, p), reason: NumberError::Overflow }),
                p,
            )
        }
    } else {
        (Ok(Number::PosInt(whole)), p)
    }
}

/// A number, entered at its `-` or first digit.  On success the current
/// character is the first one after the number's text.
pub open spec fn spec_number(s: Seq<char>, p: int) -> (Result<Number, ParseError>, int) {
    let neg = peek_of(s, p) == Some('-');
    let p1 = if neg {
        next_pos(s, p)
    } else {
        p
    };
    let ri = spec_integer(s, p1);
    match ri.0 {
        Err(e) => (Err(e), ri.1),
        Ok(w) => {
            if peek_of(s, ri.1) == Some('.') {
                let rf = spec_integer(s, next_pos(s, ri.1));
                match rf.0 {
                    Err(e) => (Err(e), rf.1),
                    Ok(f) => spec_number_tail(s, rf.1, neg, w.0, f.0, f.1, true),
                }
            } else {
                spec_number_tail(s, ri.1, neg, w.0, 0, 0, false)
            }
        },
    }
}

/// A value, entered at its first character; dispatches on that character.
pub open spec fn spec_value(s: Seq<char>, p: int, depth: nat) -> (Result<SpecValue, ParseError>, int)
    decreases s.len() + 1 - p, 2int,
{
    match peek_of(s, p) {
        None => (Err(ParseError::UnexpectedEnd { offset: s.len() as usize }), p),
        Some(c) => if c == '{' {
            spec_object(s, p, depth)
        } else if c == '[' {
            spec_array(s, p, depth)
        } else if c == '"' {
            let r = spec_string(s, p);
            match r.0 {
                Err(e) => (Err(e), r.1),
                Ok(t) => (Ok(SpecValue::Str(t)), r.1),
            }
        } else if c == 't' {
            let r = spec_true(s, p);
            match r.0 {
                Err(e) => (Err(e), r.1),
                Ok(b) => (Ok(SpecValue::Bool(b)), r.1),
            }
        } else if c == 'f' {
            let r = spec_false(s, p);
            match r.0 {
                Err(e) => (Err(e), r.1),
                Ok(b) => (Ok(SpecValue::Bool(b)), r.1),
            }
        } else if c == 'n' {
            let r = spec_null(s, p);
            match r.0 {
                Err(e) => (Err(e), r.1),
                Ok(_) => (Ok(SpecValue::Null), r.1),
            }
        } else if c == '-' || is_digit(c) {
            let r = spec_number(s, p);
            match r.0 {
                Err(e) => (Err(e), r.1),
                Ok(n) => (Ok(SpecValue::Num(n)), r.1),
            }
        } else {
            (
                Err(
                    ParseError::UnexpectedCharacter {
                        expected: Expected::Value,
                        found: c,
                        offset: off(s, p),
                    },
                ),
                p,
            )
        },
    }
}

/// An object, entered at its `{`.  The nesting guard is checked here.
pub open spec fn spec_object(s: Seq<char>, p: int, depth: nat) -> (Result<
    SpecValue,
    ParseError,
>, int)
    decreases s.len() + 1 - p, 1int,
{
    match spec_char_probe(s, p, '{') {
        Err(e) => (Err(e), p),
        Ok(_) => spec_object_body(s, p, depth),
    }
}

/// The body of an object after its `{` has been seen as the current
/// character.
pub open spec fn spec_object_body(s: Seq<char>, p: int, depth: nat) -> (Result<
    SpecValue,
    ParseError,
>, int)
    decreases s.len() + 1 - p, 0int,
{
    if depth == 0 {
        (Err(ParseError::MaxDepthExceeded), p)
    } else {
        let p0 = skip_ws(s, next_pos(s, p));
        let p1 = if p0 <= p { p + 1 } else {
            p0
        };
        match peek_of(s, p1) {
            None => (Err(ParseError::UnexpectedEnd { offset: s.len() as usize }), p1),
            Some(c) => if c == '}' {
                (Ok(SpecValue::Obj(Seq::empty())), next_pos(s, p1))
            } else {
                let r = spec_members(s, p1, (depth - 1) as nat, Seq::empty());
                match r.0 {
                    Err(e) => (Err(e), r.1),
                    Ok(entries) => (Ok(SpecValue::Obj(entries)), next_pos(s, r.1)),
                }
            },
        }
    }
}

/// The members of a non-empty object, entered at the first character of a
/// key, with `acc` the entries parsed so far (last-write-wins).  On success
/// the current character is the closing `}`.
pub open spec fn spec_members(
    s: Seq<char>,
    p: int,
    depth: nat,
    acc: Seq<(Seq<char>, SpecValue)>,
) -> (Result<Seq<(Seq<char>, SpecValue)>, ParseError>, int)
    decreases s.len() + 1 - p, 4int,
{
    let r = spec_member(s, p, depth);
    match r.0 {
        Err(e) => (Err(e), r.1),
        Ok(kv) => {
            let acc1 = spec_upsert(acc, kv.0, kv.1);
            match peek_of(s, r.1) {
                None => (Err(ParseError::UnexpectedEnd { offset: s.len() as usize }), r.1),
                Some(c) => if c == ',' {
                    let p0 = skip_ws(s, next_pos(s, r.1));
                    let p1 = if p0 <= p { p + 1 } else {
                        p0
                    };
                    match peek_of(s, p1) {
                        None => (Err(ParseError::UnexpectedEnd { offset: s.len() as usize }), p1),
                        Some(_) => spec_members(s, p1, depth, acc1),
                    }
                } else if c == '}' {
                    (Ok(acc1), r.1)
                } else {
                    (
                        Err(
                            ParseError::UnexpectedCharacter {
                                expected: Expected::Char('}'),
                                found: c,
                                offset: off(s, r.1),
                            },
                        ),
                        r.1,
                    )
                },
            }
        },
    }
}

/// One `key : element` member, entered at the first character of its key.
pub open spec fn spec_member(s: Seq<char>, p: int, depth: nat) -> (Result<
    (Seq<char>, SpecValue),
    ParseError,
>, int)
    decreases s.len() + 1 - p, 3int,
{
    let rk = spec_string(s, p);
    match rk.0 {
        Err(e) => (Err(e), rk.1),
        Ok(key) => {
            let p0 = skip_ws(s, rk.1);
            match peek_of(s, p0) {
                None => (Err(ParseError::UnexpectedEnd { offset: s.len() as usize }), p0),
                Some(c) => if c == ':' {
                    let p1 = next_pos(s, p0);
                    let p2 = if p1 <= p { p + 1 } else {
                        p1
                    };
                    let rv = spec_element(s, p2, depth);
                    match rv.0 {
                        Err(e) => (Err(e), rv.1),
                        Ok(v) => (Ok((key, v)), rv.1),
                    }
                } else {
                    (
                        Err(
                            ParseError::UnexpectedCharacter {
                                expected: Expected::Char(':'),
                                found: c,
                                offset: off(s, p0),
                            },
                        ),
                        p0,
                    )
                },
            }
        },
    }
}

/// An array, entered at its `[`.  The nesting guard is checked here.
pub open spec fn spec_array(s: Seq<char>, p: int, depth: nat) -> (Result<
    SpecValue,
    ParseError,
>, int)
    decreases s.len() + 1 - p, 1int,
{
    match spec_char_probe(s, p, '[') {
        Err(e) => (Err(e), p),
        Ok(_) => spec_array_body(s, p, depth),
    }
}

/// The body of an array after its `[` has been seen as the current
/// character.
pub open spec fn spec_array_body(s: Seq<char>, p: int, depth: nat) -> (Result<
    SpecValue,
    ParseError,
>, int)
    decreases s.len() + 1 - p, 0int,
{
    if depth == 0 {
        (Err(ParseError::MaxDepthExceeded), p)
    } else {
        let p0 = skip_ws(s, next_pos(s, p));
        let p1 = if p0 <= p { p + 1 } else {
            p0
        };
        match peek_of(s, p1) {
            None => (Err(ParseError::UnexpectedEnd { offset: s.len() as usize }), p1),
            Some(c) => if c == ']' {
                (Ok(SpecValue::Arr(Seq::empty())), next_pos(s, p1))
            } else {
                let r = spec_elements(s, p1, (depth - 1) as nat, Seq::empty());
                match r.0 {
                    Err(e) => (Err(e), r.1),
                    Ok(elems) => (Ok(SpecValue::Arr(elems)), next_pos(s, r.1)),
                }
            },
        }
    }
}

/// The elements of a non-empty array, entered at the first character of an
/// element, with `acc` the elements parsed so far.  On success the current
/// character is the closing `]`.
pub open spec fn spec_elements(s: Seq<char>, p: int, depth: nat, acc: Seq<SpecValue>) -> (Result<
    Seq<SpecValue>,
    ParseError,
>, int)
    decreases s.len() + 1 - p, 4int,
{
    let r = spec_element(s, p, depth);
    match r.0 {
        Err(e) => (Err(e), r.1),
        Ok(v) => {
            let acc1 = acc.push(v);
            match peek_of(s, r.1) {
                None => (Err(ParseError::UnexpectedEnd { offset: s.len() as usize }), r.1),
                Some(c) => if c == ',' {
                    let p0 = next_pos(s, r.1);
                    let p1 = if p0 <= p { p + 1 } else {
                        p0
                    };
                    match peek_of(s, p1) {
                        None => (Err(ParseError::UnexpectedEnd { offset: s.len() as usize }), p1),
                        Some(_) => spec_elements(s, p1, depth, acc1),
                    }
                } else if c == ']' {
                    (Ok(acc1), r.1)
                } else {
                    (
                        Err(
                            ParseError::UnexpectedCharacter {
                                expected: Expected::Char(']'),
                                found: c,
                                offset: off(s, r.1),
                            },
                        ),
                        r.1,
                    )
                },
            }
        },
    }
}

/// One `ws value ws` element, entered at the first character after the
/// construct that precedes it.
pub open spec fn spec_element(s: Seq<char>, p: int, depth: nat) -> (Result<
    SpecValue,
    ParseError,
>, int)
    decreases s.len() + 1 - p, 3int,
{
    let p0 = skip_ws(s, p);
    let p1 = if p0 < p { p } else {
        p0
    };
    match peek_of(s, p1) {
        None => (Err(ParseError::UnexpectedEnd { offset: s.len() as usize }), p1),
        Some(_) => {
            let r = spec_value(s, p1, depth);
            match r.0 {
                Err(e) => (Err(e), r.1),
                Ok(v) => {
                    let p2 = skip_ws(s, r.1);
                    (Ok(v), p2)
                },
            }
        },
    }
}

/// A whole input from position `p` on: one element, then the end of the
/// input.
pub open spec fn spec_parse_at(s: Seq<char>, p: int, depth: nat) -> Result<SpecValue, ParseError> {
    let r = spec_element(s, p, depth);
    match r.0 {
        Err(e) => Err(e),
        Ok(v) => match peek_of(s, r.1) {
            None => Ok(v),
            Some(c) => Err(
                ParseError::UnexpectedCharacter {
                    expected: Expected::End,
                    found: c,
                    offset: off(s, r.1),
                },
            ),
        },
    }
}

/// A whole input: one element, then the end of the input.  This is the
/// model of the top-level entry point.
pub open spec fn spec_parse(s: Seq<char>, depth: nat) -> Result<SpecValue, ParseError> {
    spec_parse_at(s, 0, depth)
}

/// Every value the grammar produces is well formed — objects never hold
/// duplicate keys — and nests at most `depth` container levels deep.
pub proof fn lemma_value_wf(s: Seq<char>, p: int, depth: nat)
    ensures
        spec_value(s, p, depth).0 matches Ok(v) ==> wf_value(v) && depth_le(v, depth),
    decreases s.len() + 1 - p, 2int,
{
    match peek_of(s, p) {
        None => {},
        Some(c) => {
            if c == '{' {
                lemma_object_wf(s, p, depth);
            } else if c == '[' {
                lemma_array_wf(s, p, depth);
            } else {
            }
        },
    }
}

/// Every object the grammar produces is well formed and within the
/// nesting bound.
pub proof fn lemma_object_wf(s: Seq<char>, p: int, depth: nat)
    ensures
        spec_object(s, p, depth).0 matches Ok(v) ==> wf_value(v) && depth_le(v, depth),
    decreases s.len() + 1 - p, 1int,
{
    match spec_char_probe(s, p, '{') {
        Err(_) => {},
        Ok(_) => {
            if depth > 0 {
                let p0 = skip_ws(s, next_pos(s, p));
                let p1 = if p0 <= p { p + 1 } else {
                    p0
                };
                match peek_of(s, p1) {
                    None => {},
                    Some(c) => {
                        if c != '}' {
                            lemma_members_wf(s, p1, (depth - 1) as nat, Seq::empty());
                        }
                    },
                }
            }
        },
    }
}

/// Accumulated object members stay well formed and within the nesting
/// bound.
pub proof fn lemma_members_wf(
    s: Seq<char>,
    p: int,
    depth: nat,
    acc: Seq<(Seq<char>, SpecValue)>,
)
    requires
        unique_keys(acc),
        wf_entries(acc),
        entries_depth_le(acc, depth),
    ensures
        spec_members(s, p, depth, acc).0 matches Ok(e) ==> unique_keys(e) && wf_entries(e)
            && entries_depth_le(e, depth),
    decreases s.len() + 1 - p, 4int,
{
    let r = spec_member(s, p, depth);
    lemma_member_wf(s, p, depth);
    match r.0 {
        Err(_) => {},
        Ok(kv) => {
            let acc1 = spec_upsert(acc, kv.0, kv.1);
            lemma_upsert_preserves_wf(acc, kv.0, kv.1);
            lemma_upsert_preserves_depth(acc, kv.0, kv.1, depth);
            match peek_of(s, r.1) {
                None => {},
                Some(c) => {
                    if c == ',' {
                        let p0 = skip_ws(s, next_pos(s, r.1));
                        let p1 = if p0 <= p { p + 1 } else {
                            p0
                        };
                        match peek_of(s, p1) {
                            None => {},
                            Some(_) => {
                                lemma_members_wf(s, p1, depth, acc1);
                            },
                        }
                    }
                },
            }
        },
    }
}

/// The value of every parsed member is well formed and within the
/// nesting bound.
pub proof fn lemma_member_wf(s: Seq<char>, p: int, depth: nat)
    ensures
        spec_member(s, p, depth).0 matches Ok(kv) ==> wf_value(kv.1) && depth_le(kv.1, depth),
    decreases s.len() + 1 - p, 3int,
{
    let rk = spec_string(s, p);
    match rk.0 {
        Err(_) => {},
        Ok(_) => {
            let p0 = skip_ws(s, rk.1);
            match peek_of(s, p0) {
                None => {},
                Some(c) => {
                    if c == ':' {
                        let p1 = next_pos(s, p0);
                        let p2 = if p1 <= p { p + 1 } else {
                            p1
                        };
                        lemma_element_wf(s, p2, depth);
                    }
                },
            }
        },
    }
}

/// Every array the grammar produces is well formed and within the
/// nesting bound.
pub proof fn lemma_array_wf(s: Seq<char>, p: int, depth: nat)
    ensures
        spec_array(s, p, depth).0 matches Ok(v) ==> wf_value(v) && depth_le(v, depth),
    decreases s.len() + 1 - p, 1int,
{
    match spec_char_probe(s, p, '[') {
        Err(_) => {},
        Ok(_) => {
            if depth > 0 {
                let p0 = skip_ws(s, next_pos(s, p));
                let p1 = if p0 <= p { p + 1 } else {
                    p0
                };
                match peek_of(s, p1) {
                    None => {},
                    Some(c) => {
                        if c != ']' {
                            lemma_elements_wf(s, p1, (depth - 1) as nat, Seq::empty());
                        }
                    },
                }
            }
        },
    }
}

/// Accumulated array elements stay well formed and within the nesting
/// bound.
pub proof fn lemma_elements_wf(s: Seq<char>, p: int, depth: nat, acc: Seq<SpecValue>)
    requires
        wf_elems(acc),
        elems_depth_le(acc, depth),
    ensures
        spec_elements(s, p, depth, acc).0 matches Ok(es) ==> wf_elems(es) && elems_depth_le(
            es,
            depth,
        ),
    decreases s.len() + 1 - p, 4int,
{
    let r = spec_element(s, p, depth);
    lemma_element_wf(s, p, depth);
    match r.0 {
        Err(_) => {},
        Ok(v) => {
            let acc1 = acc.push(v);
            assert forall|i: int| 0 <= i < acc1.len() implies wf_value(#[trigger] acc1[i])
                && depth_le(acc1[i], depth) by {
                if i < acc.len() {
                    assert(acc1[i] == acc[i]);
                }
            }
            match peek_of(s, r.1) {
                None => {},
                Some(c) => {
                    if c == ',' {
                        let p0 = next_pos(s, r.1);
                        let p1 = if p0 <= p { p + 1 } else {
                            p0
                        };
                        match peek_of(s, p1) {
                            None => {},
                            Some(_) => {
                                lemma_elements_wf(s, p1, depth, acc1);
                            },
                        }
                    }
                },
            }
        },
    }
}

/// Every parsed element is well formed and within the nesting bound.
pub proof fn lemma_element_wf(s: Seq<char>, p: int, depth: nat)
    ensures
        spec_element(s, p, depth).0 matches Ok(v) ==> wf_value(v) && depth_le(v, depth),
    decreases s.len() + 1 - p, 3int,
{
    let p0 = skip_ws(s, p);
    let p1 = if p0 < p { p } else {
        p0
    };
    match peek_of(s, p1) {
        None => {},
        Some(_) => {
            lemma_value_wf(s, p1, depth);
        },
    }
}

/// Objects never contain duplicate keys at rest: every tree that a whole
/// parse yields is well formed at every nesting level, whatever the input
/// and the depth bound.
pub proof fn lemma_parse_wf(s: Seq<char>, depth: nat)
    ensures
        spec_parse(s, depth) matches Ok(v) ==> wf_value(v),
{
    lemma_element_wf(s, 0, depth);
}

/// The nesting guard is effective: whatever the input, a parse with
/// depth bound `depth` never returns a tree whose containers nest more
/// than `depth` levels deep.  An input nested beyond the bound therefore
/// never parses successfully; it is answered with an ordinary error.
pub proof fn lemma_parse_depth_bounded(s: Seq<char>, depth: nat)
    ensures
        spec_parse(s, depth) matches Ok(v) ==> depth_le(v, depth),
{
    lemma_element_wf(s, 0, depth);
}

} // verus!
