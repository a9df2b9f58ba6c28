//! The deserializer: a one-character-lookahead cursor and the recursive
//! descent productions over it.
//!
//! [`De`] owns the input characters, the cursor position and the remaining
//! nesting budget.  The lookahead starts in a synthetic state distinct from
//! any real character, so the first advance reads the first real input
//! character.  Every production is proved equal to its ghost twin in
//! [`crate::grammar`].

use vstd::prelude::*;
use vstd::std_specs::iter::IteratorSpec;

use crate::error::Expected;
use crate::error::NumberError;
use crate::error::ParseError;
use crate::grammar::alpha_of;
use crate::grammar::digit_val;
use crate::grammar::hex_step;
use crate::grammar::is_digit;
use crate::grammar::is_ws;
use crate::grammar::lit_step;
use crate::grammar::next_pos;
use crate::grammar::off;
use crate::grammar::peek_of;
use crate::grammar::skip_ws;
use crate::grammar::spec_array;
use crate::grammar::spec_char_probe;
use crate::grammar::spec_digit_probe;
use crate::grammar::spec_digits;
use crate::grammar::spec_element;
use crate::grammar::spec_elements;
use crate::grammar::spec_escape;
use crate::grammar::spec_false;
use crate::grammar::spec_hex4;
use crate::grammar::spec_integer;
use crate::grammar::spec_letter_probe;
use crate::grammar::spec_member;
use crate::grammar::spec_members;
use crate::grammar::spec_null;
use crate::grammar::spec_number;
use crate::grammar::spec_number_tail;
use crate::grammar::spec_object;
use crate::grammar::spec_parse;
use crate::grammar::spec_parse_at;
use crate::grammar::spec_string;
use crate::grammar::spec_string_rest;
use crate::grammar::spec_true;
use crate::grammar::spec_value;
use crate::grammar::valid_scalar;
use crate::value::entries_deep;
use crate::value::lemma_find_key;
use crate::value::lemma_find_key_first;
use crate::value::seq_deep;
use crate::value::spec_upsert;
use crate::value::FloatLit;
use crate::value::Number;
use crate::value::SpecValue;
use crate::value::Value;

verus! {

broadcast use vstd::string::group_string_axioms;

/// The default maximum nesting depth of objects and arrays.
pub const DEFAULT_DEPTH: usize = 128;

/// Relies on `String::push`: appends one character at the end of the string.
#[verifier::external_body]
fn push_char(s: &mut String, c: char)
    ensures
        final(s)@ == old(s)@.push(c),
{
    s.push(c);
}

/// Relies on `char::from_u32`: returns `Some` exactly for unicode scalar
/// values (anything up to 0x10FFFF outside the surrogate range).
#[verifier::external_body]
fn char_from_code(u: u32) -> (r: Option<char>)
    ensures
        r == (if valid_scalar(u) {
            Some(u as char)
        } else {
            None::<char>
        }),
{
    char::from_u32(u)
}

/// Relies on `char::is_alphabetic`: the classification depends on the
/// character alone, so its result carries the name `alpha_of`.
#[verifier::external_body]
fn is_alphabetic_char(c: char) -> (r: bool)
    ensures
        r == alpha_of(c),
{
    c.is_alphabetic()
}

/// Whether `c` is a decimal digit.
fn is_digit_exec(c: char) -> (r: bool)
    ensures
        r == is_digit(c),
{
    let u = c as u32;
    48 <= u && u <= 57
}

/// The value of the digit `c`.
fn digit_value(c: char) -> (r: u64)
    requires
        is_digit(c),
    ensures
        r == digit_val(c),
        r <= 9,
{
    (c as u32 - 48) as u64
}

/// Replaces the first entry with `key` (last-write-wins) or appends a new
/// one; keys that were unique stay unique.
fn upsert(entries: &mut Vec<(String, Value)>, key: String, val: Value)
    ensures
        entries_deep(final(entries)@) == spec_upsert(entries_deep(old(entries)@), key@, val@),
{
    let ghost e0 = entries_deep(entries@);
    let mut i: usize = 0;
    while i < entries.len()
        invariant
            i <= entries@.len(),
            e0 == entries_deep(entries@),
            e0 == entries_deep(old(entries)@),
            forall|j: int| 0 <= j < i ==> e0[j].0 != key@,
        decreases entries@.len() - i,
    {
        let hit = entries[i].0 == key;
        if hit {
            proof {
                assert(e0[i as int] == (entries@[i as int].0@, entries@[i as int].1.deep()));
                lemma_find_key_first(e0, key@, i as int);
            }
            entries[i] = (key, val);
            proof {
                assert(entries_deep(entries@) =~= e0.update(i as int, (key@, val@)));
            }
            return ;
        }
        i += 1;
    }
    proof {
        lemma_find_key(e0, key@);
    }
    entries.push((key, val));
    proof {
        assert(entries_deep(entries@) =~= e0.push((key@, val@)));
    }
}

/// The cursor and recursive-descent grammar matcher.
pub struct De {
    text: Vec<char>,
    pos: usize,
    peek: Option<char>,
    depth: usize,
}

impl De {
    /// The input characters.
    pub closed spec fn text(self) -> Seq<char> {
        self.text@
    }

    /// The cursor position: the number of characters consumed, with
    /// `len + 1` standing for "advanced past the end".
    pub closed spec fn spec_pos(self) -> int {
        if self.peek is Some {
            self.pos as int
        } else {
            self.text@.len() as int + 1
        }
    }

    /// The remaining nesting budget.
    pub closed spec fn depth_left(self) -> nat {
        self.depth as nat
    }

    /// The cursor invariant: the lookahead agrees with the position.
    pub closed spec fn wf(self) -> bool {
        &&& self.pos <= self.text@.len()
        &&& (self.peek is None ==> self.pos == self.text@.len())
        &&& self.peek == peek_of(self.text@, self.spec_pos())
    }

    /// A new matcher over `str` with the default nesting budget.
    pub fn new(str: &String) -> (de: De)
        ensures
            de.wf(),
            de.text() == str@,
            de.spec_pos() == 0,
            de.depth_left() == DEFAULT_DEPTH as nat,
    {
        De::with_depth(str, DEFAULT_DEPTH)
    }

    /// A new matcher over `str` that allows at most `depth` levels of
    /// object or array nesting.
    pub fn with_depth(str: &String, depth: usize) -> (de: De)
        ensures
            de.wf(),
            de.text() == str@,
            de.spec_pos() == 0,
            de.depth_left() == depth as nat,
    {
        let s = str.as_str();
        let mut it = s.chars();
        let mut text: Vec<char> = Vec::new();
        proof {
            assert(text@ + it.remaining() =~= str@);
        }
        loop
            invariant
                it.decrease() is Some,
                text@ + it.remaining() == str@,
            ensures
                text@ == str@,
            decreases (it.decrease()->0),
        {
            match it.next() {
                Some(c) => {
                    text.push(c);
                    proof {
                        assert(text@ + it.remaining() =~= str@);
                    }
                },
                None => {
                    proof {
                        assert(text@ =~= str@);
                    }
                    break ;
                },
            }
        }
        De { text, pos: 0, peek: Some(' '), depth }
    }

    /// The offset that an error at the current position reports.
    fn cur_off(&self) -> (o: usize)
        requires
            self.wf(),
        ensures
            o == off(self.text(), self.spec_pos()),
    {
        match self.peek {
            Some(_) => if self.pos >= 1 {
                self.pos - 1
            } else {
                0
            },
            None => self.text.len(),
        }
    }

    /// Consumes and returns the next character, or `None` at the end of
    /// the input.
    pub fn next(&mut self) -> (r: Option<char>)
        requires
            old(self).wf(),
        ensures
            final(self).wf(),
            final(self).text() == old(self).text(),
            final(self).depth_left() == old(self).depth_left(),
            final(self).spec_pos() == next_pos(old(self).text(), old(self).spec_pos()),
            r == peek_of(final(self).text(), final(self).spec_pos()),
    {
        if self.pos < self.text.len() {
            self.peek = Some(self.text[self.pos]);
            self.pos = self.pos + 1;
        } else {
            self.peek = None;
        }
        self.peek
    }

    /// Advances past the run of whitespace that starts at the current
    /// character.
    /// Whether the current character is whitespace.
    fn at_ws(&self) -> (r: bool)
        requires
            self.wf(),
        ensures
            r == (match peek_of(self.text(), self.spec_pos()) {
                Some(c) => is_ws(c),
                None => false,
            }),
    {
        match self.peek {
            Some(c) => c == ' ' || c == '\t' || c == '\n' || c == '\r',
            None => false,
        }
    }

    pub fn ignore_space(&mut self)
        requires
            old(self).wf(),
        ensures
            final(self).wf(),
            final(self).text() == old(self).text(),
            final(self).depth_left() == old(self).depth_left(),
            final(self).spec_pos() == skip_ws(old(self).text(), old(self).spec_pos()),
            final(self).spec_pos() >= old(self).spec_pos(),
    {
        while self.at_ws()
            invariant
                self.wf(),
                self.text() == old(self).text(),
                self.depth_left() == old(self).depth_left(),
                self.spec_pos() >= old(self).spec_pos(),
                skip_ws(self.text(), self.spec_pos()) == skip_ws(
                    old(self).text(),
                    old(self).spec_pos(),
                ),
            decreases self.text().len() + 1 - self.spec_pos(),
        {
            self.next();
        }
    }

    /// Probes whether the current character is `ic`, without advancing.
    pub fn match_spec_char(&mut self, ic: char) -> (r: Result<char, ParseError>)
        requires
            old(self).wf(),
        ensures
            *final(self) == *old(self),
            r == spec_char_probe(old(self).text(), old(self).spec_pos(), ic),
    {
        match self.peek {
            Some(c) => if c == ic {
                Ok(c)
            } else {
                Err(
                    ParseError::UnexpectedCharacter {
                        expected: Expected::Char(ic),
                        found: c,
                        offset: self.cur_off(),
                    },
                )
            },
            None => Err(ParseError::UnexpectedEnd { offset: self.text.len() }),
        }
    }

    /// Probes whether the current character is a decimal digit, without
    /// advancing.
    pub fn match_digit(&mut self) -> (r: Result<char, ParseError>)
        requires
            old(self).wf(),
        ensures
            *final(self) == *old(self),
            r == spec_digit_probe(old(self).text(), old(self).spec_pos()),
    {
        match self.peek {
            Some(c) => if is_digit_exec(c) {
                Ok(c)
            } else {
                Err(
                    ParseError::UnexpectedCharacter {
                        expected: Expected::Digit,
                        found: c,
                        offset: self.cur_off(),
                    },
                )
            },
            None => Err(ParseError::UnexpectedEnd { offset: self.text.len() }),
        }
    }

    /// Probes whether the current character is alphabetic, without
    /// advancing.
    pub fn match_letter(&mut self) -> (r: Result<char, ParseError>)
        requires
            old(self).wf(),
        ensures
            *final(self) == *old(self),
            r == spec_letter_probe(old(self).text(), old(self).spec_pos()),
    {
        match self.peek {
            Some(c) => {
                if is_alphabetic_char(c) {
                    Ok(c)
                } else {
                    Err(
                        ParseError::UnexpectedCharacter {
                            expected: Expected::Letter,
                            found: c,
                            offset: self.cur_off(),
                        },
                    )
                }
            },
            None => Err(ParseError::UnexpectedEnd { offset: self.text.len() }),
        }
    }

    /// Probes one character of a literal, without advancing.
    fn lit_char(&self, c: char, st: usize) -> (r: Result<(), ParseError>)
        requires
            self.wf(),
        ensures
            r == lit_step(self.text(), self.spec_pos(), c, st),
    {
        match self.peek {
            Some(x) => if x == c {
                Ok(())
            } else {
                Err(ParseError::InvalidLiteral { start: st, offset: self.cur_off() })
            },
            None => Err(ParseError::InvalidLiteral { start: st, offset: self.text.len() }),
        }
    }

    /// Matches the literal `true`, entered at its `t`.
    pub fn match_true(&mut self) -> (r: Result<bool, ParseError>)
        requires
            old(self).wf(),
        ensures
            final(self).wf(),
            final(self).text() == old(self).text(),
            final(self).depth_left() == old(self).depth_left(),
            ({
                let rq = spec_true(old(self).text(), old(self).spec_pos());
                match r {
                    Ok(b) => rq.0 == Ok::<bool, ParseError>(b) && final(self).spec_pos() == rq.1
                        && final(self).spec_pos() > old(self).spec_pos(),
                    Err(e) => rq.0 == Err::<bool, ParseError>(e) && final(self).spec_pos() == rq.1,
                }
            }),
    {
        let st: usize = self.cur_off();
        match self.lit_char('t', st) {
            Err(e) => return Err(e),
            Ok(_) => {},
        }
        self.next();
        match self.lit_char('r', st) {
            Err(e) => return Err(e),
            Ok(_) => {},
        }
        self.next();
        match self.lit_char('u', st) {
            Err(e) => return Err(e),
            Ok(_) => {},
        }
        self.next();
        match self.lit_char('e', st) {
            Err(e) => return Err(e),
            Ok(_) => {},
        }
        self.next();
        Ok(true)
    }

    /// Matches the literal `false`, entered at its `f`.
    pub fn match_false(&mut self) -> (r: Result<bool, ParseError>)
        requires
            old(self).wf(),
        ensures
            final(self).wf(),
            final(self).text() == old(self).text(),
            final(self).depth_left() == old(self).depth_left(),
            ({
                let rq = spec_false(old(self).text(), old(self).spec_pos());
                match r {
                    Ok(b) => rq.0 == Ok::<bool, ParseError>(b) && final(self).spec_pos() == rq.1
                        && final(self).spec_pos() > old(self).spec_pos(),
                    Err(e) => rq.0 == Err::<bool, ParseError>(e) && final(self).spec_pos() == rq.1,
                }
            }),
    {
        let st: usize = self.cur_off();
        match self.lit_char('f', st) {
            Err(e) => return Err(e),
            Ok(_) => {},
        }
        self.next();
        match self.lit_char('a', st) {
            Err(e) => return Err(e),
            Ok(_) => {},
        }
        self.next();
        match self.lit_char('l', st) {
            Err(e) => return Err(e),
            Ok(_) => {},
        }
        self.next();
        match self.lit_char('s', st) {
            Err(e) => return Err(e),
            Ok(_) => {},
        }
        self.next();
        match self.lit_char('e', st) {
            Err(e) => return Err(e),
            Ok(_) => {},
        }
        self.next();
        Ok(false)
    }

    /// Matches the literal `null`, entered at its `n`.
    pub fn match_null(&mut self) -> (r: Result<(), ParseError>)
        requires
            old(self).wf(),
        ensures
            final(self).wf(),
            final(self).text() == old(self).text(),
            final(self).depth_left() == old(self).depth_left(),
            ({
                let rq = spec_null(old(self).text(), old(self).spec_pos());
                match r {
                    Ok(_) => rq.0 is Ok && final(self).spec_pos() == rq.1
                        && final(self).spec_pos() > old(self).spec_pos(),
                    Err(e) => rq.0 == Err::<(), ParseError>(e) && final(self).spec_pos() == rq.1,
                }
            }),
    {
        let st: usize = self.cur_off();
        match self.lit_char('n', st) {
            Err(e) => return Err(e),
            Ok(_) => {},
        }
        self.next();
        match self.lit_char('u', st) {
            Err(e) => return Err(e),
            Ok(_) => {},
        }
        self.next();
        match self.lit_char('l', st) {
            Err(e) => return Err(e),
            Ok(_) => {},
        }
        self.next();
        match self.lit_char('l', st) {
            Err(e) => return Err(e),
            Ok(_) => {},
        }
        self.next();
        Ok(())
    }

    /// Probes the current character as a hexadecimal digit, without
    /// advancing.
    fn hex_probe(&self) -> (r: Result<u32, ParseError>)
        requires
            self.wf(),
        ensures
            r == hex_step(self.text(), self.spec_pos()),
            r matches Ok(h) ==> h <= 15,
    {
        match self.peek {
            Some(c) => {
                let u = c as u32;
                if 48 <= u && u <= 57 {
                    Ok(u - 48)
                } else if 97 <= u && u <= 102 {
                    Ok(u - 87)
                } else if 65 <= u && u <= 70 {
                    Ok(u - 55)
                } else {
                    Err(ParseError::InvalidEscape { offset: self.cur_off() })
                }
            },
            None => Err(ParseError::UnexpectedEnd { offset: self.text.len() }),
        }
    }

    /// Matches the four hexadecimal digits of a `\u` escape, entered at
    /// the `u`; yields the decoded character.
    fn match_hex4(&mut self) -> (r: Result<char, ParseError>)
        requires
            old(self).wf(),
        ensures
            final(self).wf(),
            final(self).text() == old(self).text(),
            final(self).depth_left() == old(self).depth_left(),
            ({
                let rq = spec_hex4(old(self).text(), old(self).spec_pos());
                match r {
                    Ok(c) => rq.0 == Ok::<char, ParseError>(c) && final(self).spec_pos() == rq.1
                        && final(self).spec_pos() > old(self).spec_pos(),
                    Err(e) => rq.0 == Err::<char, ParseError>(e) && final(self).spec_pos() == rq.1,
                }
            }),
    {
        self.next();
        let h1 = match self.hex_probe() {
            Err(e) => return Err(e),
            Ok(h) => h,
        };
        self.next();
        let h2 = match self.hex_probe() {
            Err(e) => return Err(e),
            Ok(h) => h,
        };
        self.next();
        let h3 = match self.hex_probe() {
            Err(e) => return Err(e),
            Ok(h) => h,
        };
        self.next();
        let h4 = match self.hex_probe() {
            Err(e) => return Err(e),
            Ok(h) => h,
        };
        let code: u32 = h1 * 4096 + h2 * 256 + h3 * 16 + h4;
        match char_from_code(code) {
            Some(ch) => Ok(ch),
            None => Err(ParseError::InvalidEscape { offset: self.cur_off() }),
        }
    }

    /// Matches one escape sequence, entered at its backslash; on success
    /// the current character is the last character of the escape.
    fn match_escape(&mut self) -> (r: Result<char, ParseError>)
        requires
            old(self).wf(),
        ensures
            final(self).wf(),
            final(self).text() == old(self).text(),
            final(self).depth_left() == old(self).depth_left(),
            ({
                let rq = spec_escape(old(self).text(), old(self).spec_pos());
                match r {
                    Ok(c) => rq.0 == Ok::<char, ParseError>(c) && final(self).spec_pos() == rq.1
                        && final(self).spec_pos() > old(self).spec_pos(),
                    Err(e) => rq.0 == Err::<char, ParseError>(e) && final(self).spec_pos() == rq.1,
                }
            }),
    {
        self.next();
        match self.peek {
            None => Err(ParseError::UnexpectedEnd { offset: self.text.len() }),
            Some(c) => {
                if c == '"' {
                    Ok('"')
                } else if c == '\\' {
                    Ok('\\')
                } else if c == '/' {
                    Ok('/')
                } else if c == 'b' {
                    Ok('\u{8}')
                } else if c == 'f' {
                    Ok('\u{C}')
                } else if c == 'n' {
                    Ok('\n')
                } else if c == 'r' {
                    Ok('\r')
                } else if c == 't' {
                    Ok('\t')
                } else if c == 'u' {
                    self.match_hex4()
                } else {
                    Err(ParseError::InvalidEscape { offset: self.cur_off() })
                }
            },
        }
    }

    /// Matches the rest of a string body, with `acc` the characters
    /// decoded so far; on success the current character is one past the
    /// closing quote.
    fn string_rest(&mut self, acc: String) -> (r: Result<String, ParseError>)
        requires
            old(self).wf(),
        ensures
            final(self).wf(),
            final(self).text() == old(self).text(),
            final(self).depth_left() == old(self).depth_left(),
            ({
                let rq = spec_string_rest(old(self).text(), old(self).spec_pos(), acc@);
                match r {
                    Ok(t) => rq.0 == Ok::<Seq<char>, ParseError>(t@) && final(self).spec_pos()
                        == rq.1 && final(self).spec_pos() > old(self).spec_pos(),
                    Err(e) => rq.0 == Err::<Seq<char>, ParseError>(e) && final(self).spec_pos() == rq.1,
                }
            }),
    {
        let mut acc2 = acc;
        loop
            invariant
                self.wf(),
                self.text() == old(self).text(),
                self.depth_left() == old(self).depth_left(),
                self.spec_pos() >= old(self).spec_pos(),
                spec_string_rest(self.text(), self.spec_pos(), acc2@) == spec_string_rest(
                    old(self).text(),
                    old(self).spec_pos(),
                    acc@,
                ),
            decreases self.text().len() + 1 - self.spec_pos(),
        {
            self.next();
            match self.peek {
                None => {
                    return Err(ParseError::UnexpectedEnd { offset: self.text.len() });
                },
                Some(c) => {
                    if c == '"' {
                        self.next();
                        return Ok(acc2);
                    } else if c == '\\' {
                        match self.match_escape() {
                            Err(e) => {
                                return Err(e);
                            },
                            Ok(ec) => {
                                push_char(&mut acc2, ec);
                            },
                        }
                    } else {
                        push_char(&mut acc2, c);
                    }
                },
            }
        }
    }

    /// Matches a string, entered at its opening quote; on success the
    /// current character is one past the closing quote.
    pub fn match_string(&mut self) -> (r: Result<String, ParseError>)
        requires
            old(self).wf(),
        ensures
            final(self).wf(),
            final(self).text() == old(self).text(),
            final(self).depth_left() == old(self).depth_left(),
            ({
                let rq = spec_string(old(self).text(), old(self).spec_pos());
                match r {
                    Ok(t) => rq.0 == Ok::<Seq<char>, ParseError>(t@) && final(self).spec_pos()
                        == rq.1 && final(self).spec_pos() > old(self).spec_pos(),
                    Err(e) => rq.0 == Err::<Seq<char>, ParseError>(e) && final(self).spec_pos() == rq.1,
                }
            }),
    {
        match self.peek {
            None => Err(ParseError::UnexpectedEnd { offset: self.text.len() }),
            Some(c) => {
                if c == '"' {
                    self.string_rest(String::new())
                } else {
                    Err(
                        ParseError::UnexpectedCharacter {
                            expected: Expected::Char('"'),
                            found: c,
                            offset: self.cur_off(),
                        },
                    )
                }
            },
        }
    }

    /// Accumulates digits after the first one; stops at the first
    /// non-digit, which becomes the current character.
    fn digits_rest(&mut self, acc: u64, count: usize) -> (r: Result<(u64, usize), ParseError>)
        requires
            old(self).wf(),
            count as int <= old(self).spec_pos(),
            old(self).spec_pos() <= old(self).text().len(),
        ensures
            final(self).wf(),
            final(self).text() == old(self).text(),
            final(self).depth_left() == old(self).depth_left(),
            ({
                let rq = spec_digits(old(self).text(), old(self).spec_pos(), acc, count);
                match r {
                    Ok(v) => rq.0 == Ok::<(u64, usize), ParseError>(v) && final(self).spec_pos()
                        == rq.1 && final(self).spec_pos() > old(self).spec_pos(),
                    Err(e) => rq.0 == Err::<(u64, usize), ParseError>(e) && final(self).spec_pos() == rq.1,
                }
            }),
    {
        let mut acc2: u64 = acc;
        let mut count2: usize = count;
        loop
            invariant
                self.wf(),
                self.text() == old(self).text(),
                self.depth_left() == old(self).depth_left(),
                count2 as int <= self.spec_pos(),
                old(self).spec_pos() <= self.spec_pos() <= self.text().len(),
                spec_digits(self.text(), self.spec_pos(), acc2, count2) == spec_digits(
                    old(self).text(),
                    old(self).spec_pos(),
                    acc,
                    count,
                ),
            decreases self.text().len() + 1 - self.spec_pos(),
        {
            self.next();
            match self.peek {
                Some(c) => {
                    if is_digit_exec(c) {
                        let d = digit_value(c);
                        if acc2 > (u64::MAX - d) / 10 {
                            return Err(
                                ParseError::InvalidNumber {
                                    offset: self.cur_off(),
                                    reason: NumberError::Overflow,
                                },
                            );
                        }
                        acc2 = acc2 * 10 + d;
                        count2 = count2 + 1;
                    } else {
                        return Ok((acc2, count2));
                    }
                },
                None => {
                    return Ok((acc2, count2));
                },
            }
        }
    }

    /// Matches a run of one or more digits, entered at its first digit;
    /// yields the accumulated value and the number of digits.
    pub fn match_integer(&mut self) -> (r: Result<(u64, usize), ParseError>)
        requires
            old(self).wf(),
        ensures
            final(self).wf(),
            final(self).text() == old(self).text(),
            final(self).depth_left() == old(self).depth_left(),
            ({
                let rq = spec_integer(old(self).text(), old(self).spec_pos());
                match r {
                    Ok(v) => rq.0 == Ok::<(u64, usize), ParseError>(v) && final(self).spec_pos()
                        == rq.1 && final(self).spec_pos() > old(self).spec_pos(),
                    Err(e) => rq.0 == Err::<(u64, usize), ParseError>(e) && final(self).spec_pos() == rq.1,
                }
            }),
    {
        match self.peek {
            None => Err(ParseError::UnexpectedEnd { offset: self.text.len() }),
            Some(c) => {
                if is_digit_exec(c) {
                    let d = digit_value(c);
                    self.digits_rest(d, 1)
                } else {
                    Err(
                        ParseError::InvalidNumber {
                            offset: self.cur_off(),
                            reason: NumberError::MissingDigits,
                        },
                    )
                }
            },
        }
    }

    /// Matches the optional exponent part and classifies the number.
    fn number_tail(
        &mut self,
        neg: bool,
        whole: u64,
        frac: u64,
        frac_len: usize,
        has_frac: bool,
    ) -> (r: Result<Number, ParseError>)
        requires
            old(self).wf(),
        ensures
            final(self).wf(),
            final(self).text() == old(self).text(),
            final(self).depth_left() == old(self).depth_left(),
            ({
                let rq = spec_number_tail(
                    old(self).text(),
                    old(self).spec_pos(),
                    neg,
                    whole,
                    frac,
                    frac_len,
                    has_frac,
                );
                match r {
                    Ok(n) => rq.0 == Ok::<Number, ParseError>(n) && final(self).spec_pos() == rq.1
                        && final(self).spec_pos() >= old(self).spec_pos(),
                    Err(e) => rq.0 == Err::<Number, ParseError>(e) && final(self).spec_pos() == rq.1,
                }
            }),
    {
        let has_exp = match self.peek {
            Some(c) => c == 'e' || c == 'E',
            None => false,
        };
        if has_exp {
            self.next();
            let exp_neg = match self.peek {
                Some(c) => c == '-',
                None => false,
            };
            let plus = match self.peek {
                Some(c) => c == '+',
                None => false,
            };
            if exp_neg || plus {
                self.next();
            }
            match self.match_integer() {
                Err(e) => Err(e),
                Ok((exp, _edigits)) => Ok(
                    Number::Float(FloatLit { neg, whole, frac, frac_len, exp_neg, exp }),
                ),
            }
        } else if has_frac {
            Ok(Number::Float(FloatLit { neg, whole, frac, frac_len, exp_neg: false, exp: 0 }))
        } else if neg {
            if whole <= 9_223_372_036_854_775_807u64 {
                Ok(Number::NegInt(-(whole as i64)))
            } else if whole == 9_223_372_036_854_775_808u64 {
                Ok(Number::NegInt(i64::MIN))
            } else {
                Err(
                    ParseError::InvalidNumber {
                        offset: self.cur_off(),
                        reason: NumberError::Overflow,
                    },
                )
            }
        } else {
            Ok(Number::PosInt(whole))
        }
    }

    /// Matches a number, entered at its `-` or first digit; on success the
    /// current character is the first one after the number's text.
    pub fn match_number(&mut self) -> (r: Result<Number, ParseError>)
        requires
            old(self).wf(),
        ensures
            final(self).wf(),
            final(self).text() == old(self).text(),
            final(self).depth_left() == old(self).depth_left(),
            ({
                let rq = spec_number(old(self).text(), old(self).spec_pos());
                match r {
                    Ok(n) => rq.0 == Ok::<Number, ParseError>(n) && final(self).spec_pos() == rq.1
                        && final(self).spec_pos() > old(self).spec_pos(),
                    Err(e) => rq.0 == Err::<Number, ParseError>(e) && final(self).spec_pos() == rq.1,
                }
            }),
    {
        let neg = match self.peek {
            Some(c) => c == '-',
            None => false,
        };
        if neg {
            self.next();
        }
        match self.match_integer() {
            Err(e) => Err(e),
            Ok((whole, _wdigits)) => {
                let has_frac = match self.peek {
                    Some(c) => c == '.',
                    None => false,
                };
                if has_frac {
                    self.next();
                    match self.match_integer() {
                        Err(e) => Err(e),
                        Ok((frac, frac_len)) => self.number_tail(neg, whole, frac, frac_len, true),
                    }
                } else {
                    self.number_tail(neg, whole, 0, 0, false)
                }
            },
        }
    }

    /// Matches a value, entered at its first character; dispatches on
    /// that character.
    pub fn match_value(&mut self) -> (r: Result<Value, ParseError>)
        requires
            old(self).wf(),
        ensures
            final(self).wf(),
            final(self).text() == old(self).text(),
            final(self).depth_left() == old(self).depth_left(),
            ({
                let rq = spec_value(old(self).text(), old(self).spec_pos(), old(self).depth_left());
                match r {
                    Ok(v) => rq.0 == Ok::<SpecValue, ParseError>(v@) && final(self).spec_pos()
                        == rq.1 && final(self).spec_pos() > old(self).spec_pos(),
                    Err(e) => rq.0 == Err::<SpecValue, ParseError>(e) && final(self).spec_pos() == rq.1,
                }
            }),
        decreases self.text().len() + 1 - self.spec_pos(), 2int,
    {
        match self.peek {
            None => Err(ParseError::UnexpectedEnd { offset: self.text.len() }),
            Some(c) => {
                if c == '{' {
                    self.match_object()
                } else if c == '[' {
                    self.match_array()
                } else if c == '"' {
                    match self.match_string() {
                        Err(e) => Err(e),
                        Ok(t) => Ok(Value::String(t)),
                    }
                } else if c == 't' {
                    match self.match_true() {
                        Err(e) => Err(e),
                        Ok(b) => Ok(Value::Boolean(b)),
                    }
                } else if c == 'f' {
                    match self.match_false() {
                        Err(e) => Err(e),
                        Ok(b) => Ok(Value::Boolean(b)),
                    }
                } else if c == 'n' {
                    match self.match_null() {
                        Err(e) => Err(e),
                        Ok(_) => Ok(Value::Null),
                    }
                } else if c == '-' || is_digit_exec(c) {
                    match self.match_number() {
                        Err(e) => Err(e),
                        Ok(n) => Ok(Value::Number(n)),
                    }
                } else {
                    Err(
                        ParseError::UnexpectedCharacter {
                            expected: Expected::Value,
                            found: c,
                            offset: self.cur_off(),
                        },
                    )
                }
            },
        }
    }

    /// Matches an object, entered at its `{`; on success the current
    /// character is one past the closing brace.
    pub fn match_object(&mut self) -> (r: Result<Value, ParseError>)
        requires
            old(self).wf(),
        ensures
            final(self).wf(),
            final(self).text() == old(self).text(),
            final(self).depth_left() == old(self).depth_left(),
            ({
                let rq = spec_object(
                    old(self).text(),
                    old(self).spec_pos(),
                    old(self).depth_left(),
                );
                match r {
                    Ok(v) => rq.0 == Ok::<SpecValue, ParseError>(v@) && final(self).spec_pos()
                        == rq.1 && final(self).spec_pos() > old(self).spec_pos(),
                    Err(e) => rq.0 == Err::<SpecValue, ParseError>(e) && final(self).spec_pos() == rq.1,
                }
            }),
        decreases self.text().len() + 1 - self.spec_pos(), 1int,
    {
        match self.match_spec_char('{') {
            Err(e) => return Err(e),
            Ok(_) => {},
        }
        if self.depth == 0 {
            return Err(ParseError::MaxDepthExceeded);
        }
        self.depth = self.depth - 1;
        self.next();
        self.ignore_space();
        match self.peek {
            None => {
                self.depth = self.depth + 1;
                return Err(ParseError::UnexpectedEnd { offset: self.text.len() });
            },
            Some(c) => {
                if c == '}' {
                    self.next();
                    self.depth = self.depth + 1;
                    let entries: Vec<(String, Value)> = Vec::new();
                    proof {
                        assert(entries_deep(entries@) =~= Seq::<(Seq<char>, SpecValue)>::empty());
                    }
                    return Ok(Value::Object(entries));
                }
            },
        }
        let acc: Vec<(String, Value)> = Vec::new();
        proof {
            assert(entries_deep(acc@) =~= Seq::<(Seq<char>, SpecValue)>::empty());
        }
        match self.members_rest(acc) {
            Err(e) => {
                self.depth = self.depth + 1;
                Err(e)
            },
            Ok(entries) => {
                self.next();
                self.depth = self.depth + 1;
                Ok(Value::Object(entries))
            },
        }
    }

    /// Matches the members of a non-empty object, with `acc` the entries
    /// collected so far (last-write-wins); on success the current
    /// character is the closing brace.
    fn members_rest(&mut self, acc: Vec<(String, Value)>) -> (r: Result<
        Vec<(String, Value)>,
        ParseError,
    >)
        requires
            old(self).wf(),
        ensures
            final(self).wf(),
            final(self).text() == old(self).text(),
            final(self).depth_left() == old(self).depth_left(),
            ({
                let rq = spec_members(
                    old(self).text(),
                    old(self).spec_pos(),
                    old(self).depth_left(),
                    entries_deep(acc@),
                );
                match r {
                    Ok(v) => rq.0 == Ok::<Seq<(Seq<char>, SpecValue)>, ParseError>(
                        entries_deep(v@),
                    ) && final(self).spec_pos() == rq.1 && final(self).spec_pos() > old(self).spec_pos(),
                    Err(e) => rq.0 == Err::<Seq<(Seq<char>, SpecValue)>, ParseError>(e) && final(self).spec_pos() == rq.1,
                }
            }),
        decreases self.text().len() + 1 - self.spec_pos(), 4int,
    {
        let mut acc2 = acc;
        loop
            invariant
                self.wf(),
                self.text() == old(self).text(),
                self.depth_left() == old(self).depth_left(),
                self.spec_pos() >= old(self).spec_pos(),
                spec_members(
                    self.text(),
                    self.spec_pos(),
                    self.depth_left(),
                    entries_deep(acc2@),
                ) == spec_members(
                    old(self).text(),
                    old(self).spec_pos(),
                    old(self).depth_left(),
                    entries_deep(acc@),
                ),
            decreases self.text().len() + 1 - self.spec_pos(),
        {
            match self.match_member() {
                Err(e) => {
                    return Err(e);
                },
                Ok((key, val)) => {
                    upsert(&mut acc2, key, val);
                    match self.peek {
                        None => {
                            return Err(ParseError::UnexpectedEnd { offset: self.text.len() });
                        },
                        Some(c) => {
                            if c == ',' {
                                self.next();
                                self.ignore_space();
                                match self.peek {
                                    None => {
                                        return Err(
                                            ParseError::UnexpectedEnd {
                                                offset: self.text.len(),
                                            },
                                        );
                                    },
                                    Some(_) => {},
                                }
                            } else if c == '}' {
                                return Ok(acc2);
                            } else {
                                return Err(
                                    ParseError::UnexpectedCharacter {
                                        expected: Expected::Char('}'),
                                        found: c,
                                        offset: self.cur_off(),
                                    },
                                );
                            }
                        },
                    }
                },
            }
        }
    }

    /// Matches the members of a non-empty object from the first key on;
    /// on success the current character is the closing brace.
    pub fn match_members(&mut self) -> (r: Result<Vec<(String, Value)>, ParseError>)
        requires
            old(self).wf(),
        ensures
            final(self).wf(),
            final(self).text() == old(self).text(),
            final(self).depth_left() == old(self).depth_left(),
            ({
                let rq = spec_members(
                    old(self).text(),
                    old(self).spec_pos(),
                    old(self).depth_left(),
                    Seq::empty(),
                );
                match r {
                    Ok(v) => rq.0 == Ok::<Seq<(Seq<char>, SpecValue)>, ParseError>(
                        entries_deep(v@),
                    ) && final(self).spec_pos() == rq.1,
                    Err(e) => rq.0 == Err::<Seq<(Seq<char>, SpecValue)>, ParseError>(e) && final(self).spec_pos() == rq.1,
                }
            }),
    {
        let acc: Vec<(String, Value)> = Vec::new();
        proof {
            assert(entries_deep(acc@) =~= Seq::<(Seq<char>, SpecValue)>::empty());
        }
        self.members_rest(acc)
    }

    /// Matches one `key : element` member, entered at the first character
    /// of its key.
    pub fn match_member(&mut self) -> (r: Result<(String, Value), ParseError>)
        requires
            old(self).wf(),
        ensures
            final(self).wf(),
            final(self).text() == old(self).text(),
            final(self).depth_left() == old(self).depth_left(),
            ({
                let rq = spec_member(
                    old(self).text(),
                    old(self).spec_pos(),
                    old(self).depth_left(),
                );
                match r {
                    Ok(kv) => rq.0 == Ok::<(Seq<char>, SpecValue), ParseError>((kv.0@, kv.1@))
                        && final(self).spec_pos() == rq.1 && final(self).spec_pos() > old(self).spec_pos(),
                    Err(e) => rq.0 == Err::<(Seq<char>, SpecValue), ParseError>(e) && final(self).spec_pos() == rq.1,
                }
            }),
        decreases self.text().len() + 1 - self.spec_pos(), 3int,
    {
        match self.match_string() {
            Err(e) => Err(e),
            Ok(key) => {
                self.ignore_space();
                match self.match_spec_char(':') {
                    Err(e) => Err(e),
                    Ok(_) => {
                        self.next();
                        match self.match_element() {
                            Err(e) => Err(e),
                            Ok(v) => Ok((key, v)),
                        }
                    },
                }
            },
        }
    }

    /// Matches an array, entered at its `[`; on success the current
    /// character is one past the closing bracket.
    pub fn match_array(&mut self) -> (r: Result<Value, ParseError>)
        requires
            old(self).wf(),
        ensures
            final(self).wf(),
            final(self).text() == old(self).text(),
            final(self).depth_left() == old(self).depth_left(),
            ({
                let rq = spec_array(
                    old(self).text(),
                    old(self).spec_pos(),
                    old(self).depth_left(),
                );
                match r {
                    Ok(v) => rq.0 == Ok::<SpecValue, ParseError>(v@) && final(self).spec_pos()
                        == rq.1 && final(self).spec_pos() > old(self).spec_pos(),
                    Err(e) => rq.0 == Err::<SpecValue, ParseError>(e) && final(self).spec_pos() == rq.1,
                }
            }),
        decreases self.text().len() + 1 - self.spec_pos(), 1int,
    {
        match self.match_spec_char('[') {
            Err(e) => return Err(e),
            Ok(_) => {},
        }
        if self.depth == 0 {
            return Err(ParseError::MaxDepthExceeded);
        }
        self.depth = self.depth - 1;
        self.next();
        self.ignore_space();
        match self.peek {
            None => {
                self.depth = self.depth + 1;
                return Err(ParseError::UnexpectedEnd { offset: self.text.len() });
            },
            Some(c) => {
                if c == ']' {
                    self.next();
                    self.depth = self.depth + 1;
                    let elems: Vec<Value> = Vec::new();
                    proof {
                        assert(seq_deep(elems@) =~= Seq::<SpecValue>::empty());
                    }
                    return Ok(Value::Array(elems));
                }
            },
        }
        let acc: Vec<Value> = Vec::new();
        proof {
            assert(seq_deep(acc@) =~= Seq::<SpecValue>::empty());
        }
        match self.elements_rest(acc) {
            Err(e) => {
                self.depth = self.depth + 1;
                Err(e)
            },
            Ok(elems) => {
                self.next();
                self.depth = self.depth + 1;
                Ok(Value::Array(elems))
            },
        }
    }

    /// Matches the elements of a non-empty array, with `acc` the elements
    /// collected so far; on success the current character is the closing
    /// bracket.
    fn elements_rest(&mut self, acc: Vec<Value>) -> (r: Result<Vec<Value>, ParseError>)
        requires
            old(self).wf(),
        ensures
            final(self).wf(),
            final(self).text() == old(self).text(),
            final(self).depth_left() == old(self).depth_left(),
            ({
                let rq = spec_elements(
                    old(self).text(),
                    old(self).spec_pos(),
                    old(self).depth_left(),
                    seq_deep(acc@),
                );
                match r {
                    Ok(v) => rq.0 == Ok::<Seq<SpecValue>, ParseError>(seq_deep(v@)) && final(self).spec_pos() == rq.1 && final(self).spec_pos() > old(self).spec_pos(),
                    Err(e) => rq.0 == Err::<Seq<SpecValue>, ParseError>(e) && final(self).spec_pos() == rq.1,
                }
            }),
        decreases self.text().len() + 1 - self.spec_pos(), 4int,
    {
        let mut acc2 = acc;
        loop
            invariant
                self.wf(),
                self.text() == old(self).text(),
                self.depth_left() == old(self).depth_left(),
                self.spec_pos() >= old(self).spec_pos(),
                spec_elements(self.text(), self.spec_pos(), self.depth_left(), seq_deep(acc2@))
                    == spec_elements(
                    old(self).text(),
                    old(self).spec_pos(),
                    old(self).depth_left(),
                    seq_deep(acc@),
                ),
            decreases self.text().len() + 1 - self.spec_pos(),
        {
            match self.match_element() {
                Err(e) => {
                    return Err(e);
                },
                Ok(v) => {
                    let ghost ga = acc2@;
                    acc2.push(v);
                    proof {
                        assert(seq_deep(acc2@) =~= seq_deep(ga).push(v@));
                    }
                    match self.peek {
                        None => {
                            return Err(ParseError::UnexpectedEnd { offset: self.text.len() });
                        },
                        Some(c) => {
                            if c == ',' {
                                self.next();
                                match self.peek {
                                    None => {
                                        return Err(
                                            ParseError::UnexpectedEnd {
                                                offset: self.text.len(),
                                            },
                                        );
                                    },
                                    Some(_) => {},
                                }
                            } else if c == ']' {
                                return Ok(acc2);
                            } else {
                                return Err(
                                    ParseError::UnexpectedCharacter {
                                        expected: Expected::Char(']'),
                                        found: c,
                                        offset: self.cur_off(),
                                    },
                                );
                            }
                        },
                    }
                },
            }
        }
    }

    /// Matches the elements of a non-empty array from the first element
    /// on; on success the current character is the closing bracket.
    pub fn match_elements(&mut self) -> (r: Result<Vec<Value>, ParseError>)
        requires
            old(self).wf(),
        ensures
            final(self).wf(),
            final(self).text() == old(self).text(),
            final(self).depth_left() == old(self).depth_left(),
            ({
                let rq = spec_elements(
                    old(self).text(),
                    old(self).spec_pos(),
                    old(self).depth_left(),
                    Seq::empty(),
                );
                match r {
                    Ok(v) => rq.0 == Ok::<Seq<SpecValue>, ParseError>(seq_deep(v@)) && final(self).spec_pos() == rq.1,
                    Err(e) => rq.0 == Err::<Seq<SpecValue>, ParseError>(e) && final(self).spec_pos() == rq.1,
                }
            }),
    {
        let acc: Vec<Value> = Vec::new();
        proof {
            assert(seq_deep(acc@) =~= Seq::<SpecValue>::empty());
        }
        self.elements_rest(acc)
    }

    /// Matches one `ws value ws` element.
    pub fn match_element(&mut self) -> (r: Result<Value, ParseError>)
        requires
            old(self).wf(),
        ensures
            final(self).wf(),
            final(self).text() == old(self).text(),
            final(self).depth_left() == old(self).depth_left(),
            ({
                let rq = spec_element(
                    old(self).text(),
                    old(self).spec_pos(),
                    old(self).depth_left(),
                );
                match r {
                    Ok(v) => rq.0 == Ok::<SpecValue, ParseError>(v@) && final(self).spec_pos()
                        == rq.1 && final(self).spec_pos() > old(self).spec_pos(),
                    Err(e) => rq.0 == Err::<SpecValue, ParseError>(e) && final(self).spec_pos() == rq.1,
                }
            }),
        decreases self.text().len() + 1 - self.spec_pos(), 3int,
    {
        self.ignore_space();
        match self.peek {
            None => Err(ParseError::UnexpectedEnd { offset: self.text.len() }),
            Some(_) => {
                match self.match_value() {
                    Err(e) => Err(e),
                    Ok(v) => {
                        self.ignore_space();
                        Ok(v)
                    },
                }
            },
        }
    }

    /// Parses the whole remaining input as one element and requires the
    /// end of the input after it.
    pub fn deserialization(&mut self) -> (r: Result<Value, ParseError>)
        requires
            old(self).wf(),
        ensures
            final(self).wf(),
            final(self).text() == old(self).text(),
            final(self).depth_left() == old(self).depth_left(),
            ({
                let rq = spec_parse_at(
                    old(self).text(),
                    old(self).spec_pos(),
                    old(self).depth_left(),
                );
                match r {
                    Ok(v) => rq == Ok::<SpecValue, ParseError>(v@),
                    Err(e) => rq == Err::<SpecValue, ParseError>(e) && final(self).spec_pos()
                        == spec_element(
                        old(self).text(),
                        old(self).spec_pos(),
                        old(self).depth_left(),
                    ).1,
                }
            }),
    {
        match self.match_element() {
            Err(e) => Err(e),
            Ok(v) => {
                match self.peek {
                    None => Ok(v),
                    Some(c) => Err(
                        ParseError::UnexpectedCharacter {
                            expected: Expected::End,
                            found: c,
                            offset: self.cur_off(),
                        },
                    ),
                }
            },
        }
    }
}

/// Parses `text` as one complete value with the default nesting budget.
pub fn parse(text: &String) -> (r: Result<Value, ParseError>)
    ensures
        match r {
            Ok(v) => spec_parse(text@, DEFAULT_DEPTH as nat) == Ok::<SpecValue, ParseError>(v@),
            Err(e) => spec_parse(text@, DEFAULT_DEPTH as nat) == Err::<SpecValue, ParseError>(e),
        },
{
    let mut de = De::new(text);
    de.deserialization()
}

/// Parses `text` as one complete value, allowing at most `depth` levels
/// of object or array nesting.
pub fn parse_with_depth(text: &String, depth: usize) -> (r: Result<Value, ParseError>)
    ensures
        match r {
            Ok(v) => spec_parse(text@, depth as nat) == Ok::<SpecValue, ParseError>(v@),
            Err(e) => spec_parse(text@, depth as nat) == Err::<SpecValue, ParseError>(e),
        },
{
    let mut de = De::with_depth(text, depth);
    de.deserialization()
}

} // verus!
