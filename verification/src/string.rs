//! Escape sequences of string and character literals, and integer digits.
use vstd::prelude::*;

use crate::chars::{
    char_width, chars_of, is_ascii_hexdigit, is_digit, is_hex_digit, len_utf8, lemma_newlines_bound,
    lemma_offset_mono, lemma_offset_step, lemma_text_len_full, newlines, offset, text_len,
};
use crate::error::{IntErrorKind, ParseError, ParseErrorKind};
use crate::lexer::{char_index_of, lemma_char_index_in, lemma_char_index_unique};
use crate::tokens::Span;

verus! {

/// The character a simple escape sequence `\c` stands for.
pub open spec fn escape_of(c: char) -> Option<char> {
    if c == 'a' {
        Some(7u8 as char)
    } else if c == 'b' {
        Some(8u8 as char)
    } else if c == 'e' {
        Some(0x1Bu8 as char)
    } else if c == 'f' {
        Some(0x0Cu8 as char)
    } else if c == 'n' {
        Some(0x0Au8 as char)
    } else if c == 'r' {
        Some(0x0Du8 as char)
    } else if c == 't' {
        Some(0x09u8 as char)
    } else if c == 'v' {
        Some(0x0Bu8 as char)
    } else if c == '\\' {
        Some(0x5Cu8 as char)
    } else if c == '\'' {
        Some(0x27u8 as char)
    } else if c == '"' {
        Some(0x22u8 as char)
    } else if c == '?' {
        Some(0x3Fu8 as char)
    } else {
        None
    }
}

pub fn char_escape_sequence_map(char: char) -> (r: Option<char>)
    ensures
        r == escape_of(char),
{
    if char == 'a' {
        Some(7u8 as char)
    } else if char == 'b' {
        Some(8u8 as char)
    } else if char == 'e' {
        Some(0x1Bu8 as char)
    } else if char == 'f' {
        Some(0x0Cu8 as char)
    } else if char == 'n' {
        Some(0x0Au8 as char)
    } else if char == 'r' {
        Some(0x0Du8 as char)
    } else if char == 't' {
        Some(0x09u8 as char)
    } else if char == 'v' {
        Some(0x0Bu8 as char)
    } else if char == '\\' {
        Some(0x5Cu8 as char)
    } else if char == '\'' {
        Some(0x27u8 as char)
    } else if char == '"' {
        Some(0x22u8 as char)
    } else if char == '?' {
        Some(0x3Fu8 as char)
    } else {
        None
    }
}

/// The character that the simple escape `raw` (a backslash and one
/// character) stands for.
pub open spec fn simple_escape_value(raw: Seq<char>) -> Option<char> {
    if raw.len() < 2 {
        None
    } else {
        escape_of(raw[1])
    }
}

/// The simple escape spelled by `str` (a backslash and one character):
/// what its second character stands for.
pub fn char_escape_sequence_map_str(str: &str) -> (r: Option<char>)
    ensures
        r == simple_escape_value(str@),
{
    let cs = chars_of(str);
    if cs.len() < 2 {
        None
    } else {
        char_escape_sequence_map(cs[1])
    }
}

/// The value of `c` as a digit of `radix`.
pub open spec fn digit_value(c: char, radix: u32) -> Option<nat> {
    let v: int = if '0' <= c && c <= '9' {
        (c as int) - ('0' as int)
    } else if 'a' <= c && c <= 'z' {
        (c as int) - ('a' as int) + 10
    } else if 'A' <= c && c <= 'Z' {
        (c as int) - ('A' as int) + 10
    } else {
        100
    };
    if v < radix {
        Some(v as nat)
    } else {
        None
    }
}

/// The value of the digits `s` in `radix`, or the error found first when
/// reading them from the left; values above `max` overflow.
pub open spec fn digits_value(s: Seq<char>, radix: u32, max: nat) -> Result<nat, IntErrorKind>
    decreases s.len(),
{
    if s.len() == 0 {
        Ok(0nat)
    } else {
        match digits_value(s.drop_last(), radix, max) {
            Err(e) => Err(e),
            Ok(v) => match digit_value(s.last(), radix) {
                None => Err(IntErrorKind::InvalidDigit),
                Some(d) => if v * radix > max || v * radix + d > max {
                    Err(IntErrorKind::PosOverflow)
                } else {
                    Ok((v * radix + d) as nat)
                },
            },
        }
    }
}

/// What `from_str_radix` gives for an unsigned type whose largest value is
/// `max`: an optional `+` followed by digits.
pub open spec fn radix_value(s: Seq<char>, radix: u32, max: nat) -> Result<nat, IntErrorKind> {
    if s.len() == 0 {
        Err(IntErrorKind::Empty)
    } else if (s[0] == '+' || s[0] == '-') && s.len() == 1 {
        Err(IntErrorKind::InvalidDigit)
    } else if s[0] == '+' {
        digits_value(s.drop_first(), radix, max)
    } else {
        digits_value(s, radix, max)
    }
}

pub fn digit_of(c: char, radix: u32) -> (r: Option<u32>)
    requires
        2 <= radix <= 36,
    ensures
        r matches Some(d) ==> digit_value(c, radix) == Some(d as nat),
        r is None ==> digit_value(c, radix) is None,
{
    let v: u32 = if '0' <= c && c <= '9' {
        (c as u32) - ('0' as u32)
    } else if 'a' <= c && c <= 'z' {
        (c as u32) - ('a' as u32) + 10
    } else if 'A' <= c && c <= 'Z' {
        (c as u32) - ('A' as u32) + 10
    } else {
        100
    };
    if v < radix {
        Some(v)
    } else {
        None
    }
}

/// Reads the characters `cs[start..end]` as an unsigned number in `radix`
/// no larger than `max`, as `from_str_radix` does.
pub fn parse_radix(cs: &Vec<char>, start: usize, end: usize, radix: u32, max: u128) -> (r: Result<
    u128,
    IntErrorKind,
>)
    requires
        start <= end <= cs@.len(),
        2 <= radix <= 36,
        max >= 36,
    ensures
        r matches Ok(v) ==> radix_value(cs@.subrange(start as int, end as int), radix, max as nat)
            == Ok::<nat, IntErrorKind>(v as nat),
        r matches Err(e) ==> radix_value(cs@.subrange(start as int, end as int), radix, max as nat)
            == Err::<nat, IntErrorKind>(e),
{
    let ghost s = cs@.subrange(start as int, end as int);
    if start == end {
        return Err(IntErrorKind::Empty);
    }
    let first = cs[start];
    proof {
        assert(s[0] == first);
    }
    if (first == '+' || first == '-') && end - start == 1 {
        return Err(IntErrorKind::InvalidDigit);
    }
    let mut i = if first == '+' {
        start + 1
    } else {
        start
    };
    let ghost digits = cs@.subrange(i as int, end as int);
    proof {
        if first == '+' {
            assert(digits =~= s.drop_first());
        } else {
            assert(digits =~= s);
        }
        assert(digits.take(0) =~= Seq::<char>::empty());
    }
    let d0 = i;
    let mut acc: u128 = 0;
    while i < end
        invariant
            d0 <= i <= end <= cs@.len(),
            2 <= radix <= 36,
            digits == cs@.subrange(d0 as int, end as int),
            digits_value(digits.take(i - d0), radix, max as nat) == Ok::<nat, IntErrorKind>(
                acc as nat,
            ),
            acc <= max,
            max >= 36,
            s == cs@.subrange(start as int, end as int),
            s.len() >= 1,
            first == '+' ==> digits == s.drop_first(),
            first != '+' ==> digits == s,
            s[0] == first,
            !((first == '+' || first == '-') && s.len() == 1),
        decreases end - i,
    {
        proof {
            assert(digits.take(i - d0 + 1).drop_last() =~= digits.take(i - d0));
            assert(digits[i - d0] == cs@[i as int]);
        }
        let d = match digit_of(cs[i], radix) {
            Some(d) => d,
            None => {
                proof {
                    lemma_digits_err(digits, i - d0 + 1, radix, max as nat);
                }
                return Err(IntErrorKind::InvalidDigit);
            },
        };
        proof {
            lemma_overflow_cases(acc as nat, radix as nat, d as nat, max as nat);
        }
        if acc > max / (radix as u128) {
            proof {
                lemma_digits_err(digits, i - d0 + 1, radix, max as nat);
            }
            return Err(IntErrorKind::PosOverflow);
        }
        let m = acc * (radix as u128);
        if m > max - (d as u128) {
            proof {
                lemma_digits_err(digits, i - d0 + 1, radix, max as nat);
            }
            return Err(IntErrorKind::PosOverflow);
        }
        acc = m + (d as u128);
        i = i + 1;
    }
    proof {
        assert(digits.take(i - d0) =~= digits);
    }
    Ok(acc)
}

proof fn lemma_overflow_cases(acc: nat, radix: nat, d: nat, max: nat)
    requires
        2 <= radix,
        acc <= max,
        d < radix,
    ensures
        (acc > max / radix || acc * radix > max - d) <==> (acc * radix > max || acc * radix + d
            > max),
        !(acc > max / radix || acc * radix > max - d) ==> acc * radix + d <= max,
        acc <= max / radix ==> acc * radix <= max,
{
    assert(acc <= max / radix ==> acc * radix <= max) by (nonlinear_arith)
        requires
            2 <= radix,
    {
        if acc <= max / radix {
            assert(acc * radix <= (max / radix) * radix);
        }
    }
    assert(acc > max / radix <==> acc * radix > max) by (nonlinear_arith)
        requires
            2 <= radix,
    {
        if acc > max / radix {
            assert(acc >= max / radix + 1);
            assert(acc * radix >= (max / radix + 1) * radix);
        } else {
            assert(acc * radix <= (max / radix) * radix);
        }
    }
}

proof fn lemma_digits_err(s: Seq<char>, k: int, radix: u32, max: nat)
    requires
        0 < k <= s.len(),
        digits_value(s.take(k), radix, max) is Err,
    ensures
        digits_value(s, radix, max) == digits_value(s.take(k), radix, max),
    decreases s.len() - k,
{
    if k < s.len() {
        assert(s.take(k + 1).drop_last() =~= s.take(k));
        lemma_digits_err(s, k + 1, radix, max);
    } else {
        assert(s.take(k) =~= s);
    }
}

/// The character whose code is `u`, if `u` is a Unicode scalar value.
pub open spec fn scalar_char(u: u32) -> Option<char> {
    if vstd::utf8::is_scalar(u) {
        Some(u as char)
    } else {
        None
    }
}

/// Calls `char::from_u32`, which gives the character of a Unicode scalar
/// value and `None` for surrogates and values above `0x10FFFF`.
#[verifier::external_body]
pub(crate) fn char_from_u32(u: u32) -> (r: Option<char>)
    ensures
        r == scalar_char(u),
{
    char::from_u32(u)
}

/// The character that the hexadecimal escape `raw` stands for: the
/// characters from its third byte on, read as hexadecimal digits.
pub open spec fn hex_escape_value(raw: Seq<char>) -> Option<char> {
    match char_index_of(raw, 2) {
        Some(i) => match radix_value(raw.subrange(i, raw.len() as int), 16, 0xFFFF_FFFF) {
            Ok(v) => scalar_char(v as u32),
            Err(_) => None,
        },
        None => None,
    }
}

/// The index of the character of `cs` that starts at byte `b`, if one does.
pub(crate) fn char_at_byte(cs: &Vec<char>, b: usize) -> (r: Option<usize>)
    requires
        b <= 8,
    ensures
        r == (match char_index_of(cs@, b as int) {
            Some(i) => Some(i as usize),
            None => None::<usize>,
        }),
{
    let mut i: usize = 0;
    let mut n: usize = 0;
    while i < cs.len() && n < b
        invariant
            i <= cs@.len(),
            n == offset(cs@, i as int),
            b <= 8,
            forall|j: int| 0 <= j < i ==> offset(cs@, j) < b,
        decreases cs@.len() - i,
    {
        proof {
            lemma_offset_step(cs@, i as int);
        }
        n = n + len_utf8(cs[i]);
        i = i + 1;
    }
    if n == b {
        proof {
            lemma_char_index_unique(cs@, i as int, b as int);
        }
        Some(i)
    } else {
        proof {
            if exists|j: int| 0 <= j <= cs@.len() && offset(cs@, j) == b {
                let j = choose|j: int| 0 <= j <= cs@.len() && offset(cs@, j) == b;
                if j > i {
                    lemma_offset_mono(cs@, i as int, j);
                    if i == cs@.len() {
                        assert(false);
                    }
                } else if j == i {
                    assert(false);
                }
            }
        }
        None
    }
}

/// The character a hexadecimal escape (`\x..`, `\u....`, `\U........`)
/// stands for; its digits start at its third byte, after the backslash and
/// the letter. The third byte must start a character.
pub fn hex_escape_sequence(raw: &str) -> (r: Option<char>)
    requires
        char_index_of(raw@, 2) is Some,
    ensures
        r == hex_escape_value(raw@),
{
    let cs = chars_of(raw);
    match char_at_byte(&cs, 2) {
        Some(i) => {
            proof {
                lemma_char_index_in(cs@, 2);
                assert(cs@.subrange(i as int, cs@.len() as int) =~= raw@.subrange(i as int, raw@.len() as int));
            }
            match parse_radix(&cs, i, cs.len(), 16, 0xFFFF_FFFF) {
                Ok(u) => char_from_u32(u as u32),
                Err(_) => None,
            }
        },
        None => None,
    }
}


/// Calls `String::push`, which appends `c` to the end of `s`.
#[verifier::external_body]
pub(crate) fn push_char(s: &mut String, c: char)
    ensures
        final(s)@ == old(s)@.push(c),
{
    s.push(c);
}

/// The position after `consume_n_times_while(n, is_ascii_hexdigit)`: up to
/// `n` characters are taken, the first one that is no digit included.
pub open spec fn spec_n_while_hex(cs: Seq<char>, p: int, n: nat) -> int
    decreases n,
{
    if n == 0 || p < 0 || p >= cs.len() {
        p
    } else if !is_hex_digit(cs[p]) {
        p + 1
    } else {
        spec_n_while_hex(cs, p + 1, (n - 1) as nat)
    }
}

/// The character that a hexadecimal escape with the digits `digits` stands for.
pub open spec fn hex_char(digits: Seq<char>) -> Option<char> {
    match radix_value(digits, 16, 0xFFFF_FFFF) {
        Ok(v) => scalar_char(v as u32),
        Err(_) => None,
    }
}

/// The escape whose letter is at `k` (just after a backslash): the
/// character it stands for and the position after it.
pub open spec fn spec_escape(cs: Seq<char>, k: int) -> (Option<char>, int) {
    let c = cs[k];
    if c == 'u' {
        let j = spec_n_while_hex(cs, k + 1, 4);
        (hex_char(cs.subrange(k + 1, j)), j)
    } else if c == 'U' {
        let j = spec_n_while_hex(cs, k + 1, 8);
        (hex_char(cs.subrange(k + 1, j)), j)
    } else if c == 'x' {
        let j = crate::lexer::skip_hex(cs, k + 1, 4);
        (hex_char(cs.subrange(k + 1, j)), j)
    } else {
        (escape_of(c), k + 1)
    }
}

/// One step of unescaping from `p`: the character produced (if any), the
/// position after it, and whether a backslash ended the text.
pub open spec fn spec_unescape_step(cs: Seq<char>, p: int) -> (Option<char>, int, bool) {
    if p < 0 || p >= cs.len() {
        (None, p, false)
    } else if cs[p] != '\\' {
        (Some(cs[p]), p + 1, false)
    } else if p + 1 >= cs.len() {
        (None, p + 1, true)
    } else {
        let (c, q) = spec_escape(cs, p + 1);
        (c, q, false)
    }
}

pub proof fn lemma_n_while_hex(cs: Seq<char>, p: int, n: nat)
    requires
        0 <= p <= cs.len(),
    ensures
        p <= spec_n_while_hex(cs, p, n) <= cs.len(),
    decreases n,
{
    if n > 0 && p < cs.len() && is_hex_digit(cs[p]) {
        lemma_n_while_hex(cs, p + 1, (n - 1) as nat);
    }
}

pub proof fn lemma_skip_hex(cs: Seq<char>, p: int, n: nat)
    requires
        0 <= p <= cs.len(),
    ensures
        p <= crate::lexer::skip_hex(cs, p, n) <= cs.len(),
    decreases n,
{
    if n > 0 && p < cs.len() && is_hex_digit(cs[p]) {
        lemma_skip_hex(cs, p + 1, (n - 1) as nat);
    }
}

pub proof fn lemma_step_progress(cs: Seq<char>, p: int)
    requires
        0 <= p < cs.len(),
    ensures
        p < spec_unescape_step(cs, p).1 <= cs.len(),
{
    if cs[p] == '\\' && p + 1 < cs.len() {
        lemma_n_while_hex(cs, p + 2, 4);
        lemma_n_while_hex(cs, p + 2, 8);
        lemma_skip_hex(cs, p + 2, 4);
    }
}

/// The characters that unescaping the text from `p` produces, and whether
/// it stopped at a backslash that ended the text. Unescaping stops at the
/// first escape that stands for no character.
pub open spec fn spec_unescape(cs: Seq<char>, p: int) -> (Seq<char>, bool)
    decreases cs.len() - p,
{
    if p < 0 || p >= cs.len() {
        (Seq::<char>::empty(), false)
    } else {
        let (c, q, e) = spec_unescape_step(cs, p);
        match c {
            None => (Seq::<char>::empty(), e),
            Some(ch) => {
                proof {
                    lemma_step_progress(cs, p);
                }
                let (rest, e2) = spec_unescape(cs, q);
                (seq![ch] + rest, e2)
            },
        }
    }
}

/// The position at which unescaping from `p` stops.
pub open spec fn spec_unescape_end(cs: Seq<char>, p: int) -> int
    decreases cs.len() - p,
{
    if p < 0 || p >= cs.len() {
        p
    } else {
        let (c, q, e) = spec_unescape_step(cs, p);
        match c {
            None => q,
            Some(ch) => {
                proof {
                    lemma_step_progress(cs, p);
                }
                spec_unescape_end(cs, q)
            },
        }
    }
}

/// Turns the body of a string literal into the characters it stands for.
#[derive(Debug)]
pub struct UnescapedStringBuilder {
    chars: Vec<char>,
    pos: usize,
    current: usize,
    line: usize,
    first_line: usize,
}

impl UnescapedStringBuilder {
    pub closed spec fn text(&self) -> Seq<char> {
        self.chars@
    }

    pub closed spec fn position(&self) -> int {
        self.pos as int
    }

    pub closed spec fn start_line(&self) -> int {
        self.first_line as int
    }

    pub closed spec fn wf(&self) -> bool {
        &&& self.pos <= self.chars@.len()
        &&& self.current == offset(self.chars@, self.pos as int)
        &&& self.line == self.first_line + newlines(self.chars@.take(self.pos as int))
        &&& text_len(self.chars@) + self.first_line <= usize::MAX
    }

    /// A builder at the start of `input`, whose first line is `line`.
    pub fn new(input: &str, line: usize) -> (r: Self)
        requires
            text_len(input@) + line <= usize::MAX,
        ensures
            r.wf(),
            r.text() == input@,
            r.position() == 0,
            r.start_line() == line,
    {
        let chars = chars_of(input);
        proof {
            assert(chars@.take(0) =~= Seq::<char>::empty());
        }
        UnescapedStringBuilder { chars, pos: 0, current: 0, line, first_line: line }
    }

    proof fn lemma_bounds(&self, i: int)
        requires
            self.wf(),
            0 <= i < self.chars@.len(),
        ensures
            offset(self.chars@, i + 1) == offset(self.chars@, i) + char_width(self.chars@[i]),
            offset(self.chars@, i + 1) <= text_len(self.chars@),
            self.first_line + newlines(self.chars@.take(i + 1)) <= usize::MAX,
    {
        lemma_offset_step(self.chars@, i);
        lemma_offset_mono(self.chars@, i + 1, self.chars@.len() as int);
        lemma_text_len_full(self.chars@);
        lemma_newlines_bound(self.chars@, i + 1);
        lemma_offset_mono(self.chars@, 0, i + 1);
        assert(self.chars@.take(0) =~= Seq::<char>::empty());
    }

    fn consume_char(&mut self) -> (r: Option<char>)
        requires
            old(self).wf(),
        ensures
            final(self).wf(),
            final(self).text() == old(self).text(),
            final(self).start_line() == old(self).start_line(),
            r == (if old(self).position() < old(self).text().len() {
                Some(old(self).text()[old(self).position()])
            } else {
                None::<char>
            }),
            final(self).position() == if r is Some {
                old(self).position() + 1
            } else {
                old(self).position()
            },
    {
        if self.pos < self.chars.len() {
            let c = self.chars[self.pos];
            proof {
                self.lemma_bounds(self.pos as int);
                assert(self.chars@.take(self.pos + 1).drop_last() =~= self.chars@.take(self.pos as int));
                assert(self.chars@[self.pos as int] == c);
            }
            self.current = self.current + len_utf8(c);
            if c == '\n' {
                self.line = self.line + 1;
            }
            self.pos = self.pos + 1;
            Some(c)
        } else {
            None
        }
    }

    fn consume_n_times_while_hex(&mut self, n: usize) -> (b: bool)
        requires
            old(self).wf(),
        ensures
            final(self).wf(),
            final(self).text() == old(self).text(),
            final(self).start_line() == old(self).start_line(),
            final(self).position() == spec_n_while_hex(
                old(self).text(),
                old(self).position(),
                n as nat,
            ),
    {
        let ghost p0 = self.pos as int;
        let mut i: usize = 0;
        loop
            invariant_except_break
                self.wf(),
                self.chars@ == old(self).chars@,
                self.first_line == old(self).first_line,
                p0 == old(self).pos,
                i <= n,
                spec_n_while_hex(self.chars@, self.pos as int, (n - i) as nat) == spec_n_while_hex(
                    self.chars@,
                    p0,
                    n as nat,
                ),
            ensures
                self.wf(),
                self.chars@ == old(self).chars@,
                self.first_line == old(self).first_line,
                self.pos == spec_n_while_hex(self.chars@, p0, n as nat),
            decreases n - i,
        {
            if i >= n {
                break ;
            }
            let ghost before = self.pos as int;
            match self.consume_char() {
                Some(c) => {
                    if !is_ascii_hexdigit(c) {
                        assert(self.chars@[before] == c);
                        assert(spec_n_while_hex(self.chars@, before, (n - i) as nat) == before + 1);
                        return false;
                    }
                },
                None => {
                    return false;
                },
            }
            i = i + 1;
        }
        true
    }

    fn hex_while(&mut self) -> (r: ())
        requires
            old(self).wf(),
        ensures
            final(self).wf(),
            final(self).text() == old(self).text(),
            final(self).start_line() == old(self).start_line(),
            final(self).position() == crate::lexer::skip_hex(
                old(self).text(),
                old(self).position(),
                4,
            ),
    {
        let ghost p0 = self.pos as int;
        let mut i: usize = 0;
        while i < 4 && self.pos < self.chars.len() && is_ascii_hexdigit(self.chars[self.pos])
            invariant
                self.wf(),
                self.chars@ == old(self).chars@,
                self.first_line == old(self).first_line,
                i <= 4,
                crate::lexer::skip_hex(self.chars@, self.pos as int, (4 - i) as nat)
                    == crate::lexer::skip_hex(self.chars@, p0, 4),
            decreases 4 - i,
        {
            self.consume_char();
            i = i + 1;
        }
    }

    /// Parses the hexadecimal digits from `prev` to the current position.
    fn hex_value(&self, prev: usize) -> (r: Option<char>)
        requires
            self.wf(),
            prev <= self.pos,
        ensures
            r == hex_char(self.chars@.subrange(prev as int, self.pos as int)),
    {
        match parse_radix(&self.chars, prev, self.pos, 16, 0xFFFF_FFFF) {
            Ok(u) => char_from_u32(u as u32),
            Err(_) => None,
        }
    }

    fn escape_seq(&mut self) -> (r: Option<char>)
        requires
            old(self).wf(),
            old(self).position() < old(self).text().len(),
        ensures
            final(self).wf(),
            final(self).text() == old(self).text(),
            final(self).start_line() == old(self).start_line(),
            (r, final(self).position()) == spec_escape(old(self).text(), old(self).position()),
    {
        let c = match self.consume_char() {
            Some(c) => c,
            None => return None,
        };
        let prev = self.pos;
        proof {
            lemma_n_while_hex(self.chars@, prev as int, 4);
            lemma_n_while_hex(self.chars@, prev as int, 8);
            lemma_skip_hex(self.chars@, prev as int, 4);
        }
        if c == 'u' {
            self.consume_n_times_while_hex(4);
            self.hex_value(prev)
        } else if c == 'U' {
            self.consume_n_times_while_hex(8);
            self.hex_value(prev)
        } else if c == 'x' {
            self.hex_while();
            self.hex_value(prev)
        } else {
            char_escape_sequence_map(c)
        }
    }

    /// The next character of the unescaped string. At a backslash that ends
    /// the text, an `EmptyEscapeSequence` error is recorded.
    pub fn next(&mut self, errors: &mut Vec<ParseError>) -> (r: Option<char>)
        requires
            old(self).wf(),
        ensures
            final(self).wf(),
            final(self).text() == old(self).text(),
            final(self).start_line() == old(self).start_line(),
            ({
                let (c, q, e) = spec_unescape_step(old(self).text(), old(self).position());
                &&& r == c
                &&& final(self).position() == q
                &&& final(errors)@ == if e {
                    old(errors)@.push(empty_escape_error(old(self).text(), old(self).position(), old(self).start_line()))
                } else {
                    old(errors)@
                }
            }),
    {
        let p = self.pos;
        match self.consume_char() {
            Some(c) => {
                if c == '\\' {
                    if self.pos < self.chars.len() {
                        self.escape_seq()
                    } else {
                        proof {
                            lemma_offset_step(self.chars@, p as int);
                        }
                        let span = Span { start: self.current - 1, end: self.current - 1 };
                        errors.push(
                            ParseError::new(ParseErrorKind::EmptyEscapeSequence, span, self.line),
                        );
                        None
                    }
                } else {
                    Some(c)
                }
            },
            None => None,
        }
    }

    /// All the characters of the unescaped string, up to the first escape
    /// that stands for no character.
    pub fn collect_string(&mut self, errors: &mut Vec<ParseError>) -> (r: String)
        requires
            old(self).wf(),
        ensures
            final(self).wf(),
            final(self).text() == old(self).text(),
            final(self).position() == spec_unescape_end(old(self).text(), old(self).position()),
            r@ == spec_unescape(old(self).text(), old(self).position()).0,
            final(errors)@ == if spec_unescape(old(self).text(), old(self).position()).1 {
                old(errors)@.push(
                    empty_escape_error(
                        old(self).text(),
                        spec_unescape_end(old(self).text(), old(self).position()) - 1,
                        old(self).start_line(),
                    ),
                )
            } else {
                old(errors)@
            },
    {
        let mut out = String::new();
        let ghost p0 = self.pos as int;
        let ghost cs = self.chars@;
        loop
            invariant_except_break
                self.wf(),
                self.chars@ == cs,
                self.first_line == old(self).first_line,
                errors@ == old(errors)@,
                out@ + spec_unescape(cs, self.pos as int).0 == spec_unescape(cs, p0).0,
                spec_unescape(cs, self.pos as int).1 == spec_unescape(cs, p0).1,
                spec_unescape_end(cs, self.pos as int) == spec_unescape_end(cs, p0),
            ensures
                self.wf(),
                self.chars@ == cs,
                self.first_line == old(self).first_line,
                out@ == spec_unescape(cs, p0).0,
                self.pos == spec_unescape_end(cs, p0),
                errors@ == if spec_unescape(cs, p0).1 {
                    old(errors)@.push(
                        empty_escape_error(cs, spec_unescape_end(cs, p0) - 1, self.first_line as int),
                    )
                } else {
                    old(errors)@
                },
            decreases cs.len() - self.pos,
        {
            let p = self.pos;
            proof {
                if p < cs.len() {
                    lemma_step_progress(cs, p as int);
                }
            }
            match self.next(errors) {
                Some(c) => {
                    push_char(&mut out, c);
                    proof {
                        assert(out@ + spec_unescape(cs, self.pos as int).0 =~= spec_unescape(
                            cs,
                            p0,
                        ).0);
                    }
                },
                None => {
                    proof {
                        assert(out@ =~= spec_unescape(cs, p0).0);
                    }
                    break ;
                },
            }
        }
        out
    }
}

/// Text without a backslash is its own unescaped value, with no error.
pub proof fn lemma_unescape_plain(cs: Seq<char>, p: int)
    requires
        0 <= p <= cs.len(),
        forall|i: int| p <= i < cs.len() ==> cs[i] != '\\',
    ensures
        spec_unescape(cs, p) == (cs.subrange(p, cs.len() as int), false),
    decreases cs.len() - p,
{
    if p < cs.len() {
        lemma_unescape_plain(cs, p + 1);
        assert(seq![cs[p]] + cs.subrange(p + 1, cs.len() as int) =~= cs.subrange(p, cs.len() as int));
    } else {
        assert(cs.subrange(p, cs.len() as int) =~= Seq::<char>::empty());
    }
}

/// The error for a backslash at `p` that ends the text.
pub open spec fn empty_escape_error(cs: Seq<char>, p: int, first_line: int) -> ParseError {
    ParseError {
        kind: ParseErrorKind::EmptyEscapeSequence,
        span: Span { start: offset(cs, p) as usize, end: offset(cs, p) as usize },
        line: (first_line + newlines(cs.take(p + 1))) as usize,
    }
}

/// Every character of `s` is a decimal digit.
pub open spec fn all_digits(s: Seq<char>) -> bool {
    forall|i: int| 0 <= i < s.len() ==> is_digit(#[trigger] s[i])
}

/// The index of the first `a` or `b` in `s`, or the length of `s`.
pub open spec fn first_index_of(s: Seq<char>, a: char, b: char) -> int
    decreases s.len(),
{
    if s.len() == 0 {
        0
    } else if s[0] == a || s[0] == b {
        0
    } else {
        1 + first_index_of(s.drop_first(), a, b)
    }
}

/// `s` without a leading `+` or `-`.
pub open spec fn unsigned(s: Seq<char>) -> Seq<char> {
    if s.len() > 0 && (s[0] == '+' || s[0] == '-') {
        s.drop_first()
    } else {
        s
    }
}

/// `c` is the lower-case ASCII letter `lower`, in either case.
pub open spec fn same_letter(c: char, lower: char) -> bool {
    c == lower || (c as u32) + 32 == (lower as u32)
}

/// `u` spells the lower-case word `w` in any case.
pub open spec fn word_ci(u: Seq<char>, w: Seq<char>) -> bool {
    &&& u.len() == w.len()
    &&& forall|i: int| 0 <= i < u.len() ==> same_letter(#[trigger] u[i], w[i])
}

/// Decimal digits with at most one `.`, and at least one digit.
pub open spec fn mantissa_ok(m: Seq<char>) -> bool {
    let d = first_index_of(m, '.', '.');
    &&& m.len() >= 1
    &&& all_digits(m.take(d))
    &&& (d < m.len() ==> m.len() >= 2 && all_digits(m.skip(d + 1)))
}

/// The text of a number as `f64::from_str` accepts it: an optional sign,
/// then `inf`, `infinity` or `nan` in any case, or a mantissa with an
/// optional exponent (`e` or `E`, an optional sign and digits).
pub open spec fn float_text_ok(s: Seq<char>) -> bool {
    let u = unsigned(s);
    let e = first_index_of(u, 'e', 'E');
    ||| word_ci(u, seq!['i', 'n', 'f'])
    ||| word_ci(u, seq!['i', 'n', 'f', 'i', 'n', 'i', 't', 'y'])
    ||| word_ci(u, seq!['n', 'a', 'n'])
    ||| {
        &&& mantissa_ok(u.take(e))
        &&& (e < u.len() ==> unsigned(u.skip(e + 1)).len() >= 1 && all_digits(
            unsigned(u.skip(e + 1)),
        ))
    }
}

proof fn lemma_first_index_bounds(s: Seq<char>, a: char, b: char)
    ensures
        0 <= first_index_of(s, a, b) <= s.len(),
        first_index_of(s, a, b) < s.len() ==> (s[first_index_of(s, a, b)] == a || s[first_index_of(s, a, b)] == b),
    decreases s.len(),
{
    if s.len() > 0 && !(s[0] == a || s[0] == b) {
        lemma_first_index_bounds(s.drop_first(), a, b);
    }
}

/// The index of the first `a` or `b` in `cs[start..end]`, or `end`.
fn find_either(cs: &Vec<char>, start: usize, end: usize, a: char, b: char) -> (r: usize)
    requires
        start <= end <= cs@.len(),
    ensures
        start <= r <= end,
        r == start + first_index_of(cs@.subrange(start as int, end as int), a, b),
{
    let mut i = start;
    while i < end && cs[i] != a && cs[i] != b
        invariant
            start <= i <= end <= cs@.len(),
            first_index_of(cs@.subrange(start as int, end as int), a, b) == (i - start)
                + first_index_of(cs@.subrange(i as int, end as int), a, b),
        decreases end - i,
    {
        proof {
            assert(cs@.subrange(i as int, end as int).drop_first() =~= cs@.subrange(
                i + 1,
                end as int,
            ));
        }
        i = i + 1;
    }
    i
}

/// Whether `cs[start..end]` holds decimal digits only.
fn digits_only(cs: &Vec<char>, start: usize, end: usize) -> (r: bool)
    requires
        start <= end <= cs@.len(),
    ensures
        r == all_digits(cs@.subrange(start as int, end as int)),
{
    let mut i = start;
    while i < end
        invariant
            start <= i <= end <= cs@.len(),
            all_digits(cs@.subrange(start as int, i as int)),
        decreases end - i,
    {
        if !crate::chars::is_ascii_digit(cs[i]) {
            proof {
                assert(cs@.subrange(start as int, end as int)[i - start] == cs@[i as int]);
            }
            return false;
        }
        proof {
            assert forall|k: int| 0 <= k < i + 1 - start implies is_digit(
                #[trigger] cs@.subrange(start as int, i + 1)[k],
            ) by {
                if k < i - start {
                    assert(cs@.subrange(start as int, i + 1)[k] == cs@.subrange(start as int, i as int)[k]);
                }
            }
        }
        i = i + 1;
    }
    true
}

/// Whether `cs[start..]` spells the lower-case word `w` in any case.
fn word_at(cs: &Vec<char>, start: usize, w: &Vec<char>) -> (r: bool)
    requires
        start <= cs@.len(),
    ensures
        r == word_ci(cs@.subrange(start as int, cs@.len() as int), w@),
{
    let len = cs.len();
    if len - start != w.len() {
        return false;
    }
    let mut i: usize = 0;
    while i < w.len()
        invariant
            start + w@.len() == cs@.len(),
            len == cs@.len(),
            i <= w@.len(),
            forall|k: int| 0 <= k < i ==> same_letter(cs@[start + k], w@[k]),
        decreases w@.len() - i,
    {
        assert(start + i < cs@.len());
        let c = cs[start + i];
        let l = w[i];
        if !(c == l || ((l as u32) >= 32 && (c as u32) == (l as u32) - 32)) {
            proof {
                assert(cs@.subrange(start as int, cs@.len() as int)[i as int] == c);
            }
            return false;
        }
        i = i + 1;
    }
    proof {
        assert forall|k: int| 0 <= k < w@.len() implies same_letter(
            #[trigger] cs@.subrange(start as int, cs@.len() as int)[k],
            w@[k],
        ) by {
            assert(cs@.subrange(start as int, cs@.len() as int)[k] == cs@[start + k]);
        }
    }
    true
}

/// Whether `f64::from_str` accepts the text `cs`.
pub fn float_text_valid(cs: &Vec<char>) -> (r: bool)
    ensures
        r == float_text_ok(cs@),
{
    let n = cs.len();
    let s0: usize = if n > 0 && (cs[0] == '+' || cs[0] == '-') {
        1
    } else {
        0
    };
    let ghost u = cs@.subrange(s0 as int, n as int);
    proof {
        assert(unsigned(cs@) =~= u);
    }
    let inf = vec!['i', 'n', 'f'];
    let infinity = vec!['i', 'n', 'f', 'i', 'n', 'i', 't', 'y'];
    let nan = vec!['n', 'a', 'n'];
    proof {
        assert(inf@ =~= seq!['i', 'n', 'f']);
        assert(infinity@ =~= seq!['i', 'n', 'f', 'i', 'n', 'i', 't', 'y']);
        assert(nan@ =~= seq!['n', 'a', 'n']);
    }
    if word_at(cs, s0, &inf) || word_at(cs, s0, &infinity) || word_at(cs, s0, &nan) {
        return true;
    }
    let e = find_either(cs, s0, n, 'e', 'E');
    let ghost m = cs@.subrange(s0 as int, e as int);
    proof {
        assert(u.take(e - s0) =~= m);
    }
    let d = find_either(cs, s0, e, '.', '.');
    proof {
        assert(m.take(d - s0) =~= cs@.subrange(s0 as int, d as int));
        assert(d < e ==> m.skip(d - s0 + 1) =~= cs@.subrange(d + 1, e as int));
    }
    let mantissa = e - s0 >= 1 && digits_only(cs, s0, d) && (d == e || (e - s0 >= 2
        && digits_only(cs, d + 1, e)));
    if !mantissa {
        return false;
    }
    if e == n {
        return true;
    }
    let x0 = e + 1;
    let x1 = if x0 < n && (cs[x0] == '+' || cs[x0] == '-') {
        x0 + 1
    } else {
        x0
    };
    proof {
        lemma_first_index_bounds(u, 'e', 'E');
        assert(u.skip(e - s0 + 1) =~= cs@.subrange(x0 as int, n as int));
        assert(unsigned(cs@.subrange(x0 as int, n as int)) =~= cs@.subrange(x1 as int, n as int));
    }
    x1 < n && digits_only(cs, x1, n)
}


/// What the simple escapes stand for. An escape of a character other than a
/// letter stands for that character itself (`\\`, `\'`, `\"`, `\?`). An
/// escape of a letter stands for a control character: `\a` bell, `\b`
/// backspace, `\e` escape, `\f` form feed, `\n` line feed, `\r` carriage
/// return, `\t` tab, `\v` vertical tab. No other character escapes.
pub proof fn lemma_simple_escapes(c: char)
    ensures
        escape_of(c) is Some <==> (c == 'a' || c == 'b' || c == 'e' || c == 'f' || c == 'n' || c == 'r'
            || c == 't' || c == 'v' || c == '\\' || c == '\'' || c == '"' || c == '?'),
        escape_of(c) is Some && !crate::chars::is_ascii_alpha(c) ==> escape_of(c) == Some(c),
        escape_of(c) is Some && crate::chars::is_ascii_alpha(c) ==> (escape_of(c)->0 as u32) < 0x20,
        escape_of('n') == Some('\n'),
        escape_of('r') == Some('\r'),
        escape_of('t') == Some('\t'),
        escape_of('\'') == Some('\''),
        escape_of('"') == Some('"'),
        escape_of('\\') == Some('\\'),
        escape_of('a') == Some('\u{7}'),
        escape_of('b') == Some('\u{8}'),
        escape_of('e') == Some('\u{1b}'),
        escape_of('f') == Some('\u{c}'),
        escape_of('v') == Some('\u{b}'),
{
}

} // verus!
