//! Character classes and UTF-8 widths used by the lexer.
use vstd::prelude::*;
use vstd::std_specs::iter::IteratorSpec;

verus! {

/// Whether `c` has the Unicode property XID_Start.
pub uninterp spec fn xid_start(c: char) -> bool;

/// Whether `c` has the Unicode property XID_Continue.
pub uninterp spec fn xid_continue(c: char) -> bool;

/// Whether `c` has the Unicode property White_Space.
pub open spec fn white_space(c: char) -> bool {
    let u = c as u32;
    ||| 0x09 <= u <= 0x0D
    ||| u == 0x20
    ||| u == 0x85
    ||| u == 0xA0
    ||| u == 0x1680
    ||| 0x2000 <= u <= 0x200A
    ||| u == 0x2028
    ||| u == 0x2029
    ||| u == 0x202F
    ||| u == 0x205F
    ||| u == 0x3000
}

pub open spec fn is_ascii_alpha(c: char) -> bool {
    ('a' <= c && c <= 'z') || ('A' <= c && c <= 'Z')
}

/// The value of `c` as a digit: `0`-`9` are 0 to 9, and the letters `a`-`f`
/// and `A`-`F` are 10 to 15; -1 for any other character.
pub open spec fn char_digit(c: char) -> int {
    if '0' <= c && c <= '9' {
        c as int - '0' as int
    } else if 'a' <= c && c <= 'f' {
        c as int - 'a' as int + 10
    } else if 'A' <= c && c <= 'F' {
        c as int - 'A' as int + 10
    } else {
        -1
    }
}

/// Whether `c` is a digit of base `b` (for a base up to 16).
pub open spec fn is_base_digit(c: char, b: nat) -> bool {
    0 <= char_digit(c) < b
}

/// Whether `c` can start an identifier: an ASCII letter, or beyond ASCII a
/// character with XID_Start.
pub open spec fn ident_start(c: char) -> bool {
    if (c as u32) < 0x80 {
        is_ascii_alpha(c)
    } else {
        xid_start(c)
    }
}

/// Whether `c` can continue an identifier: an ASCII letter, digit or `_`,
/// or beyond ASCII a character with XID_Continue.
pub open spec fn ident_continue(c: char) -> bool {
    if (c as u32) < 0x80 {
        is_ascii_alpha(c) || is_digit(c) || c == '_'
    } else {
        xid_continue(c)
    }
}

pub open spec fn is_digit(c: char) -> bool {
    '0' <= c && c <= '9'
}

pub open spec fn is_hex_digit(c: char) -> bool {
    is_digit(c) || ('a' <= c && c <= 'f') || ('A' <= c && c <= 'F')
}

/// Calls `unicode_ident::is_xid_start`. Its result is named `xid_start`; for
/// an ASCII character the crate's table holds exactly the ASCII letters.
#[verifier::external_body]
pub(crate) fn is_xid_start(c: char) -> (b: bool)
    ensures
        b == xid_start(c),
        (c as u32) < 128 ==> (b <==> is_ascii_alpha(c)),
{
    unicode_ident::is_xid_start(c)
}

/// Calls `unicode_ident::is_xid_continue`. Its result is named `xid_continue`;
/// for an ASCII character the crate's table holds exactly the ASCII letters,
/// the digits and `_`.
#[verifier::external_body]
pub(crate) fn is_xid_continue(c: char) -> (b: bool)
    ensures
        b == xid_continue(c),
        (c as u32) < 128 ==> (b <==> (is_ascii_alpha(c) || is_digit(c) || c == '_')),
{
    unicode_ident::is_xid_continue(c)
}

/// Whether `c` is whitespace, as `char::is_whitespace` tells: the
/// characters with the Unicode property White_Space.
pub fn is_whitespace(c: char) -> (b: bool)
    ensures
        b == white_space(c),
{
    let u = c as u32;
    (0x09 <= u && u <= 0x0D) || u == 0x20 || u == 0x85 || u == 0xA0 || u == 0x1680 || (0x2000 <= u
        && u <= 0x200A) || u == 0x2028 || u == 0x2029 || u == 0x202F || u == 0x205F || u == 0x3000
}

pub fn is_ascii_digit(c: char) -> (b: bool)
    ensures
        b == is_digit(c),
{
    '0' <= c && c <= '9'
}

pub fn is_ascii_hexdigit(c: char) -> (b: bool)
    ensures
        b == is_hex_digit(c),
{
    ('0' <= c && c <= '9') || ('a' <= c && c <= 'f') || ('A' <= c && c <= 'F')
}

/// The number of bytes of the UTF-8 encoding of `c`.
pub open spec fn char_width(c: char) -> nat {
    if (c as u32) < 0x80 {
        1
    } else if (c as u32) < 0x800 {
        2
    } else if (c as u32) < 0x10000 {
        3
    } else {
        4
    }
}

/// The number of bytes of the UTF-8 encoding of `c` (what `char::len_utf8` gives).
pub fn len_utf8(c: char) -> (w: usize)
    ensures
        w == char_width(c),
        w == vstd::utf8::encode_utf8(seq![c]).len(),
{
    proof {
        vstd::utf8::char_is_scalar(c);
        let e = vstd::utf8::encode_utf8(seq![c]);
        assert(seq![c].drop_first() =~= Seq::<char>::empty());
        assert(e =~= vstd::utf8::encode_scalar(c as u32) + vstd::utf8::encode_utf8(Seq::<char>::empty()));
    }
    let u = c as u32;
    if u < 0x80 {
        1
    } else if u < 0x800 {
        2
    } else if u < 0x10000 {
        3
    } else {
        4
    }
}

/// The byte length of the UTF-8 encoding of `s`.
pub open spec fn text_len(s: Seq<char>) -> nat
    decreases s.len(),
{
    if s.len() == 0 {
        0
    } else {
        text_len(s.drop_last()) + char_width(s.last())
    }
}

/// The byte offset of the `i`-th character of `cs`.
pub open spec fn offset(cs: Seq<char>, i: int) -> nat {
    text_len(cs.take(i))
}

/// The number of line feeds in `s`.
pub open spec fn newlines(s: Seq<char>) -> nat
    decreases s.len(),
{
    if s.len() == 0 {
        0
    } else {
        newlines(s.drop_last()) + if s.last() == '\n' {
            1nat
        } else {
            0nat
        }
    }
}

pub proof fn lemma_offset_step(cs: Seq<char>, i: int)
    requires
        0 <= i < cs.len(),
    ensures
        offset(cs, i + 1) == offset(cs, i) + char_width(cs[i]),
        newlines(cs.take(i + 1)) == newlines(cs.take(i)) + if cs[i] == '\n' {
            1nat
        } else {
            0nat
        },
{
    assert(cs.take(i + 1).drop_last() =~= cs.take(i));
}

pub proof fn lemma_offset_mono(cs: Seq<char>, i: int, j: int)
    requires
        0 <= i <= j <= cs.len(),
    ensures
        offset(cs, i) <= offset(cs, j),
        offset(cs, i) + (j - i) <= offset(cs, j),
        newlines(cs.take(i)) <= newlines(cs.take(j)),
    decreases j - i,
{
    if i < j {
        lemma_offset_step(cs, j - 1);
        lemma_offset_mono(cs, i, j - 1);
    }
}

pub proof fn lemma_newlines_bound(cs: Seq<char>, i: int)
    requires
        0 <= i <= cs.len(),
    ensures
        newlines(cs.take(i)) <= i,
    decreases i,
{
    if i > 0 {
        lemma_offset_step(cs, i - 1);
        lemma_newlines_bound(cs, i - 1);
    }
}

pub proof fn lemma_text_len_full(cs: Seq<char>)
    ensures
        offset(cs, cs.len() as int) == text_len(cs),
{
    assert(cs.take(cs.len() as int) =~= cs);
}

/// The characters of `s`, in order.
pub fn chars_of(s: &str) -> (r: Vec<char>)
    ensures
        r@ == s@,
{
    let mut r: Vec<char> = Vec::new();
    let mut it = s.chars();
    broadcast use vstd::string::group_string_axioms;
    loop
        invariant
            r@ + it.remaining() == s@,
            it.decrease() is Some,
        ensures
            r@ == s@,
        decreases it.decrease()->0,
    {
        let ghost before = it.remaining();
        match it.next() {
            Some(c) => {
                r.push(c);
                assert(r@ + it.remaining() =~= s@);
            },
            None => {
                assert(r@ =~= s@);
                break ;
            },
        }
    }
    r
}

/// Whether the UTF-8 encoding of `s` takes at most `limit` bytes.
pub fn text_len_within(s: &str, limit: usize) -> (r: bool)
    ensures
        r == (text_len(s@) <= limit),
{
    let cs = chars_of(s);
    let mut n: usize = 0;
    let mut i: usize = 0;
    while i < cs.len()
        invariant
            i <= cs@.len(),
            n == offset(cs@, i as int),
            n <= limit,
            cs@ == s@,
        decreases cs@.len() - i,
    {
        proof {
            lemma_offset_step(cs@, i as int);
        }
        let w = len_utf8(cs[i]);
        if w > limit - n {
            proof {
                lemma_offset_mono(cs@, i + 1, cs@.len() as int);
                lemma_text_len_full(cs@);
            }
            return false;
        }
        n = n + w;
        i = i + 1;
    }
    proof {
        lemma_text_len_full(cs@);
    }
    true
}

} // verus!
