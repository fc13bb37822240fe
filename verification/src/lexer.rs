//! The lexer: turns source text into a stream of tokens.
//!
//! The stream reads the text one character at a time. Its behaviour is
//! stated by the spec functions of this module, which describe, for a
//! position in the text, which token comes next and where the lexer
//! stops after it.
use vstd::prelude::*;

use crate::chars::{
    char_width, char_digit, is_base_digit, is_ascii_alpha, is_ascii_digit, is_ascii_hexdigit, is_digit, is_hex_digit, is_whitespace,
    is_xid_continue, is_xid_start, lemma_newlines_bound, lemma_offset_mono, lemma_offset_step,
    lemma_text_len_full, len_utf8, chars_of, newlines, offset, text_len, white_space, ident_continue, ident_start,
};
use crate::tokens::{
    kind_text, string_options_of, BaseN, CharacterEscapeType, Span, StringOptions, Token, TokenKind,
};

verus! {

/// The classes of characters that the lexer consumes in runs.
#[derive(Clone, Copy, Debug, PartialEq, Eq, Structural)]
pub enum CharClass {
    Whitespace,
    XidContinue,
    Dot,
    Colon,
    Number(BaseN, bool),
}

/// The characters a number literal of `base` continues with; after the dot
/// of a decimal literal (`mantissa`) an exponent may follow.
pub open spec fn number_pattern(c: char, base: BaseN, mantissa: bool) -> bool {
    match base {
        BaseN::Bin => '0' <= c && c <= '1',
        BaseN::Octal => '0' <= c && c <= '7',
        BaseN::Decimal => if mantissa {
            is_digit(c) || c == 'E' || c == 'e' || c == '+' || c == '-'
        } else {
            is_digit(c)
        },
        BaseN::Hex => is_hex_digit(c),
    }
}

pub open spec fn class_holds(class: CharClass, c: char) -> bool {
    match class {
        CharClass::Whitespace => white_space(c),
        CharClass::XidContinue => ident_continue(c),
        CharClass::Dot => c == '.',
        CharClass::Colon => c == ':',
        CharClass::Number(base, mantissa) => number_pattern(c, base, mantissa),
    }
}

/// The character at `i`, with its byte offset, if there is one.
pub open spec fn peek_at(cs: Seq<char>, i: int) -> Option<(usize, char)> {
    if 0 <= i < cs.len() {
        Some((offset(cs, i) as usize, cs[i]))
    } else {
        None
    }
}

/// The first position at or after `i` whose character is not in `class`.
pub open spec fn skip_while(cs: Seq<char>, i: int, class: CharClass) -> int
    decreases cs.len() - i,
{
    if 0 <= i < cs.len() && class_holds(class, cs[i]) {
        skip_while(cs, i + 1, class)
    } else {
        i
    }
}

/// The first position at or after `i`, and at most `n` further, whose
/// character is not a hexadecimal digit.
pub open spec fn skip_hex(cs: Seq<char>, i: int, n: nat) -> int
    decreases n,
{
    if n > 0 && 0 <= i < cs.len() && is_hex_digit(cs[i]) {
        skip_hex(cs, i + 1, (n - 1) as nat)
    } else {
        i
    }
}

/// The bytes of the characters from `i` to `j`, if there are any.
pub open spec fn consumed_span(cs: Seq<char>, i: int, j: int) -> Option<Span> {
    if j == i {
        None
    } else {
        Some(Span { start: offset(cs, i) as usize, end: offset(cs, j) as usize })
    }
}

/// Up to `n` characters from `p`: their span (whose end is its start when
/// only one character was taken) and the position after them.
pub open spec fn spec_consume_n(cs: Seq<char>, p: int, n: nat) -> (Option<Span>, int) {
    if n == 0 || p >= cs.len() {
        (None, p)
    } else {
        let k = if p + n <= cs.len() {
            p + n
        } else {
            cs.len() as int
        };
        let start = offset(cs, p) as usize;
        let end = if k == p + 1 {
            start
        } else {
            offset(cs, k) as usize
        };
        (Some(Span { start, end }), k)
    }
}

/// If the character at `p` is `ch`: `kind`, ending one byte after it.
pub open spec fn spec_tokenize_if(cs: Seq<char>, p: int, ch: char, kind: TokenKind) -> (
    Option<(TokenKind, Option<usize>)>,
    int,
) {
    match peek_at(cs, p) {
        Some((i, c)) => if c == ch {
            (Some((kind, Some((i + 1) as usize))), p + 1)
        } else {
            (None, p)
        },
        None => (None, p),
    }
}

/// A one-character operator `k0` that may be followed by `a` (giving `ka`)
/// or by `b` (giving `kb`).
pub open spec fn spec_operator(
    cs: Seq<char>,
    p: int,
    a: char,
    ka: TokenKind,
    b: Option<char>,
    kb: TokenKind,
    k0: TokenKind,
) -> (TokenKind, Option<usize>, int) {
    match spec_tokenize_if(cs, p, a, ka) {
        (Some((k, e)), q) => (k, e, q),
        (None, q) => match b {
            Some(bc) => match spec_tokenize_if(cs, q, bc, kb) {
                (Some((k, e)), q2) => (k, e, q2),
                (None, q2) => (k0, None, q2),
            },
            None => (k0, None, q),
        },
    }
}

/// A run of dots starting at the byte `start`.
pub open spec fn spec_try_dots(cs: Seq<char>, p: int, start: usize) -> (TokenKind, Option<usize>, int) {
    let j = skip_while(cs, p, CharClass::Dot);
    let count = if j == p {
        0int
    } else {
        offset(cs, j) - offset(cs, p)
    };
    if count == 0 {
        (TokenKind::Dot, None, j)
    } else if count == 1 {
        (TokenKind::DotDot, Some((start + 2) as usize), j)
    } else if count == 2 {
        (TokenKind::DotDotDot, Some((start + 3) as usize), j)
    } else {
        (TokenKind::Unknown, Some((start + count + 1) as usize), j)
    }
}

/// A run of colons starting at the byte `start`.
pub open spec fn spec_try_colons(cs: Seq<char>, p: int, start: usize) -> (
    TokenKind,
    Option<usize>,
    int,
) {
    let j = skip_while(cs, p, CharClass::Colon);
    let count = if j == p {
        0int
    } else {
        offset(cs, j) - offset(cs, p)
    };
    if count == 0 {
        (TokenKind::Colon, None, j)
    } else if count == 1 {
        (TokenKind::ColonColon, Some((start + 2) as usize), j)
    } else {
        (TokenKind::Unknown, Some((start + count + 2) as usize), j)
    }
}

/// `<`, `<=`, `<<` and `<<=` (or the same with `>`).
pub open spec fn spec_angle(
    cs: Seq<char>,
    p: int,
    ch: char,
    single: TokenKind,
    equals: TokenKind,
    double: TokenKind,
    compound: TokenKind,
) -> (TokenKind, Option<usize>, int) {
    match peek_at(cs, p) {
        Some((i, c)) => if c == '=' {
            (equals, Some((i + 1) as usize), p + 1)
        } else if c == ch {
            match spec_tokenize_if(cs, p + 1, '=', compound) {
                (Some((k, e)), q) => (k, e, q),
                (None, q) => (double, Some((i + 1) as usize), q),
            }
        } else {
            (single, None, p)
        },
        None => (single, None, p),
    }
}

/// The rest of a number literal: its end, whether it is floating, and the
/// position after it.
pub open spec fn spec_number_sequence(cs: Seq<char>, p: int, base: BaseN, mantissa: bool) -> (
    Option<usize>,
    bool,
    int,
) {
    let j = skip_while(cs, p, CharClass::Number(base, mantissa));
    if j == p {
        (None, mantissa, p)
    } else if mantissa {
        (Some(offset(cs, j) as usize), true, j)
    } else if base == BaseN::Decimal && j < cs.len() && cs[j] == '.' {
        let k = skip_while(cs, j + 1, CharClass::Number(BaseN::Decimal, true));
        if k == j + 1 {
            (Some(offset(cs, j) as usize), true, k)
        } else {
            (Some(offset(cs, k) as usize), true, k)
        }
    } else {
        (Some(offset(cs, j) as usize), false, j)
    }
}

/// A number literal whose first digit `c` was at `s`.
pub open spec fn spec_number(cs: Seq<char>, s: int, c: char) -> (TokenKind, Option<usize>, int) {
    let k = s + 1;
    let pk = peek_at(cs, k);
    if pk is None {
        (TokenKind::NumberLiteral { base: BaseN::Decimal, is_floating: false }, None, k)
    } else {
        let n = pk.unwrap().1;
        let (base, floating, p) = if c == '0' && (n == 'b' || n == 'B') {
            (BaseN::Bin, false, k + 1)
        } else if c == '0' && (n == 'o' || n == 'O') {
            (BaseN::Octal, false, k + 1)
        } else if c == '0' && (n == 'x' || n == 'X') {
            (BaseN::Hex, false, k + 1)
        } else if n == '.' {
            (BaseN::Decimal, true, k + 1)
        } else {
            (BaseN::Decimal, false, k)
        };
        let (end, is_floating, q) = spec_number_sequence(cs, p, base, floating);
        (TokenKind::NumberLiteral { base, is_floating }, end, q)
    }
}

/// The body of a string literal from `p`: whether it is terminated, where
/// it ends (`end` so far) and the position after it.
pub open spec fn spec_string_body(
    cs: Seq<char>,
    p: int,
    options: StringOptions,
    end: Option<usize>,
) -> (bool, Option<usize>, int)
    decreases cs.len() - p,
{
    if p < 0 || p >= cs.len() {
        (false, end, p)
    } else {
        let i = offset(cs, p);
        let c = cs[p];
        if c == '"' {
            if options.bits & 2 == 2 {
                if p + 1 >= cs.len() {
                    (false, Some((i + 1) as usize), p + 1)
                } else if cs[p + 1] == 'm' || cs[p + 1] == 'M' {
                    (true, Some((i + 2) as usize), p + 2)
                } else {
                    spec_string_body(cs, p + 1, options, end)
                }
            } else {
                (true, Some((i + 1) as usize), p + 1)
            }
        } else if c == '\n' && options.bits & 2 != 2 {
            (false, Some(i as usize), p + 1)
        } else if c == '\\' && options.bits & 1 != 1 {
            if p + 1 < cs.len() && cs[p + 1] == '"' {
                spec_string_body(cs, p + 2, options, Some((i + 2) as usize))
            } else {
                spec_string_body(cs, p + 1, options, Some((i + 1) as usize))
            }
        } else {
            spec_string_body(cs, p + 1, options, Some((i + char_width(c)) as usize))
        }
    }
}

/// A string literal whose opening quote is at the byte `quote_start`.
pub open spec fn spec_string_sequence(
    cs: Seq<char>,
    p: int,
    quote_start: usize,
    options: StringOptions,
) -> (TokenKind, Option<usize>, int) {
    let (terminated, end, q) = spec_string_body(cs, p, options, None);
    let ending_line = newlines(cs.take(q)) as usize;
    (TokenKind::StringLiteral { options, quote_start, terminated, ending_line }, end, q)
}

/// What follows the backslash of an escaped character literal.
pub open spec fn spec_escaped(cs: Seq<char>, q: int) -> (Option<(CharacterEscapeType, usize)>, int) {
    if q < 0 || q >= cs.len() {
        (None, q)
    } else {
        let i = offset(cs, q);
        let c = cs[q];
        if c == 'x' {
            let j = skip_hex(cs, q + 1, 4);
            if j == q + 1 {
                (Some((CharacterEscapeType::Hex, (i + 1) as usize)), j)
            } else {
                (Some((CharacterEscapeType::Hex, offset(cs, j) as usize)), j)
            }
        } else if c == 'u' {
            match spec_consume_n(cs, q + 1, 4) {
                (Some(sp), j) => (Some((CharacterEscapeType::Utf16, sp.end)), j),
                (None, j) => (Some((CharacterEscapeType::Utf16, (i + 1) as usize)), j),
            }
        } else if c == 'U' {
            match spec_consume_n(cs, q + 1, 8) {
                (Some(sp), j) => (Some((CharacterEscapeType::Utf32, sp.end)), j),
                (None, j) => (Some((CharacterEscapeType::Utf32, (i + 1) as usize)), j),
            }
        } else {
            (Some((CharacterEscapeType::Simple, (i + char_width(c)) as usize)), q + 1)
        }
    }
}

/// The character of a character literal that starts at `p`.
pub open spec fn spec_char_sequence(cs: Seq<char>, p: int) -> (
    Option<(CharacterEscapeType, Span)>,
    int,
) {
    if p < 0 || p >= cs.len() {
        (None, p)
    } else {
        let start = offset(cs, p) as usize;
        let c = cs[p];
        if c == '\\' {
            let (esc, q) = spec_escaped(cs, p + 1);
            let (ty, end) = match esc {
                Some(x) => x,
                None => (CharacterEscapeType::Simple, (start + 1) as usize),
            };
            (Some((ty, Span { start, end })), q)
        } else {
            (
                Some((CharacterEscapeType::Unescaped, Span { start, end: (start + char_width(c)) as usize })),
                p + 1,
            )
        }
    }
}

/// A character literal whose opening quote came just before `p`.
pub open spec fn spec_char_literal(cs: Seq<char>, p: int) -> (TokenKind, Option<usize>, int) {
    match spec_char_sequence(cs, p) {
        (Some((escape_type, range)), q) => if q < cs.len() && cs[q] == '\'' {
            (
                TokenKind::CharacterLiteral { escape_type, terminated: true },
                Some((offset(cs, q) + 1) as usize),
                q + 1,
            )
        } else {
            (TokenKind::CharacterLiteral { escape_type, terminated: false }, Some(range.end), q)
        },
        (None, q) => (TokenKind::Unknown, None, q),
    }
}

/// The keyword that `s` spells, if it is one.
pub open spec fn keyword_of(s: Seq<char>) -> Option<TokenKind> {
    if s =~= seq!['e', 'n', 'u', 'm'] {
        Some(TokenKind::EnumKeyword)
    } else if s =~= seq!['s', 't', 'r', 'u', 'c', 't'] {
        Some(TokenKind::StructKeyword)
    } else if s =~= seq!['c', 'o', 'n', 'f', 'i', 'g'] {
        Some(TokenKind::ConfigKeyword)
    } else if s =~= seq!['c', 'o', 'n', 's', 't'] {
        Some(TokenKind::ConstKeyword)
    } else if s =~= seq!['f', 'l', 'a', 'g', 's'] {
        Some(TokenKind::FlagsKeyword)
    } else if s =~= seq!['s', 'e', 'l', 'f'] {
        Some(TokenKind::SelfKeyword)
    } else if s =~= seq!['f', 'u', 'n', 'c'] {
        Some(TokenKind::FuncKeyword)
    } else if s =~= seq!['m', 'a', 't', 'c', 'h'] {
        Some(TokenKind::MatchKeyword)
    } else if s =~= seq!['l', 'e', 't'] {
        Some(TokenKind::LetKeyword)
    } else if s =~= seq!['i', 'f'] {
        Some(TokenKind::IfKeyword)
    } else if s =~= seq!['e', 'l', 's', 'e'] {
        Some(TokenKind::ElseKeyword)
    } else if s =~= seq!['w', 'h', 'i', 'l', 'e'] {
        Some(TokenKind::WhileKeyword)
    } else if s =~= seq!['f', 'o', 'r'] {
        Some(TokenKind::ForKeyword)
    } else if s =~= seq!['i', 'n'] {
        Some(TokenKind::InKeyword)
    } else if s =~= seq!['s', 'i', 'g'] {
        Some(TokenKind::SigKeyword)
    } else if s =~= seq!['n', 'e', 'w'] {
        Some(TokenKind::NewKeyword)
    } else if s =~= seq!['r', 'e', 't', 'u', 'r', 'n'] {
        Some(TokenKind::ReturnKeyword)
    } else if s =~= seq!['t', 'r', 'u', 'e'] {
        Some(TokenKind::TrueKeyword)
    } else if s =~= seq!['f', 'a', 'l', 's', 'e'] {
        Some(TokenKind::FalseKeyword)
    } else if s =~= seq!['n', 'u', 'l', 'l'] {
        Some(TokenKind::NullKeyword)
    } else if s =~= seq!['f', 'e', 'a', 't', 'u', 'r', 'e'] {
        Some(TokenKind::FeatureKeyword)
    } else if s =~= seq!['i', 'm', 'p', 'o', 'r', 't'] {
        Some(TokenKind::ImportKeyword)
    } else if s =~= seq!['c', 'o', 'n', 't', 'i', 'n', 'u', 'e'] {
        Some(TokenKind::ContinueKeyword)
    } else if s =~= seq!['b', 'r', 'e', 'a', 'k'] {
        Some(TokenKind::BreakKeyword)
    } else if s =~= seq!['w', 'h', 'e', 'r', 'e'] {
        Some(TokenKind::WhereKeyword)
    } else if s =~= seq!['a', 's'] {
        Some(TokenKind::AsKeyword)
    } else if s =~= seq!['p', 'u', 'b'] {
        Some(TokenKind::PubKeyword)
    } else if s =~= seq!['l', 'o', 'c', 'a', 'l'] {
        Some(TokenKind::LocalKeyword)
    } else {
        None
    }
}

/// A word (identifier, keyword or string prefix) whose first character was at `s`.
pub open spec fn spec_word(cs: Seq<char>, s: int) -> (TokenKind, Option<usize>, int) {
    let j = skip_while(cs, s + 1, CharClass::XidContinue);
    let word = cs.subrange(s, j);
    if j < cs.len() && cs[j] == '"' {
        let quote_start = offset(cs, j) as usize;
        match string_options_of(word) {
            Some(bits) => spec_string_sequence(cs, j + 1, quote_start, StringOptions { bits }),
            None => (TokenKind::Unknown, Some((quote_start + 1) as usize), j + 1),
        }
    } else {
        match keyword_of(word) {
            Some(k) => (k, Some(offset(cs, j) as usize), j),
            None => (TokenKind::Identifier, Some(offset(cs, j) as usize), j),
        }
    }
}

/// `@`, `$` or `_`: a bare sign, or the start of an identifier.
pub open spec fn spec_sigil(cs: Seq<char>, p: int, bare: TokenKind) -> (TokenKind, Option<usize>, int) {
    if p < cs.len() && ident_continue(cs[p]) {
        let j = skip_while(cs, p, CharClass::XidContinue);
        (TokenKind::Identifier, Some(offset(cs, j) as usize), j)
    } else {
        (bare, None, p)
    }
}

/// The token whose first character is at `s`: its kind, its end when it
/// is not one byte after its first character, and the position after it.
pub open spec fn spec_match_token(cs: Seq<char>, s: int) -> (TokenKind, Option<usize>, int) {
    let c = cs[s];
    let start = offset(cs, s) as usize;
    let p = s + 1;
    if c == '{' {
        (TokenKind::CurlyBracketLeft, None, p)
    } else if c == '}' {
        (TokenKind::CurlyBracketRight, None, p)
    } else if c == '(' {
        (TokenKind::ParanthesisLeft, None, p)
    } else if c == ')' {
        (TokenKind::ParanthesisRight, None, p)
    } else if c == '[' {
        (TokenKind::SquareBracketLeft, None, p)
    } else if c == ']' {
        (TokenKind::SquareBracketRight, None, p)
    } else if c == '.' {
        spec_try_dots(cs, p, start)
    } else if c == ';' {
        (TokenKind::Semicolon, None, p)
    } else if c == ':' {
        spec_try_colons(cs, p, start)
    } else if c == ',' {
        (TokenKind::Comma, None, p)
    } else if c == '<' {
        spec_angle(
            cs,
            p,
            '<',
            TokenKind::LessThan,
            TokenKind::LessThanEquals,
            TokenKind::BitwiseLeft,
            TokenKind::BitwiseLeftCompound,
        )
    } else if c == '>' {
        spec_angle(
            cs,
            p,
            '>',
            TokenKind::GreaterThan,
            TokenKind::GreaterThanEquals,
            TokenKind::BitwiseRight,
            TokenKind::BitwiseRightCompound,
        )
    } else if c == '=' {
        spec_operator(
            cs,
            p,
            '=',
            TokenKind::EqualsEquals,
            Some('>'),
            TokenKind::FatArrow,
            TokenKind::Equals,
        )
    } else if c == '!' {
        spec_operator(cs, p, '=', TokenKind::NotEquals, None, TokenKind::Not, TokenKind::Not)
    } else if c == '&' {
        spec_operator(cs, p, '=', TokenKind::AndEquals, Some('&'), TokenKind::AndAnd, TokenKind::And)
    } else if c == '^' {
        spec_operator(cs, p, '=', TokenKind::CaretEquals, None, TokenKind::Caret, TokenKind::Caret)
    } else if c == '~' {
        spec_operator(cs, p, '=', TokenKind::TildeEquals, None, TokenKind::Tilde, TokenKind::Tilde)
    } else if c == '|' {
        spec_operator(cs, p, '=', TokenKind::OrEquals, Some('|'), TokenKind::OrOr, TokenKind::Or)
    } else if c == '*' {
        spec_operator(cs, p, '=', TokenKind::StarEquals, None, TokenKind::Star, TokenKind::Star)
    } else if c == '/' {
        spec_operator(cs, p, '=', TokenKind::SlashEquals, None, TokenKind::Slash, TokenKind::Slash)
    } else if c == '%' {
        spec_operator(
            cs,
            p,
            '=',
            TokenKind::PercentEquals,
            None,
            TokenKind::Percent,
            TokenKind::Percent,
        )
    } else if c == '+' {
        spec_operator(cs, p, '+', TokenKind::PlusPlus, Some('='), TokenKind::PlusEquals, TokenKind::Plus)
    } else if c == '-' {
        spec_operator(
            cs,
            p,
            '-',
            TokenKind::MinusMinus,
            Some('='),
            TokenKind::MinusEquals,
            TokenKind::Minus,
        )
    } else if c == '#' {
        (TokenKind::Tag, None, p)
    } else if c == '@' {
        spec_sigil(cs, p, TokenKind::At)
    } else if c == '$' {
        spec_sigil(cs, p, TokenKind::Dollar)
    } else if c == '\\' {
        (TokenKind::Backslash, None, p)
    } else if c == '?' {
        (TokenKind::QuestionMark, None, p)
    } else if c == '_' {
        spec_sigil(cs, p, TokenKind::Underscore)
    } else if c == '"' {
        spec_string_sequence(cs, p, start, StringOptions { bits: 0 })
    } else if c == '\'' {
        spec_char_literal(cs, p)
    } else if ident_start(c) {
        spec_word(cs, s)
    } else if is_digit(c) {
        spec_number(cs, s, c)
    } else {
        (TokenKind::Unknown, None, p)
    }
}

/// The next token from position `pos` and the position after it; `None`
/// when only whitespace is left.
pub open spec fn spec_next_token(cs: Seq<char>, pos: int) -> (Option<Token>, int) {
    if pos < 0 || pos >= cs.len() {
        (None, pos)
    } else {
        let s = if white_space(cs[pos]) {
            skip_while(cs, pos + 1, CharClass::Whitespace)
        } else {
            pos
        };
        if s >= cs.len() {
            (None, s)
        } else {
            let c = cs[s];
            let line = newlines(cs.take(s + 1)) as usize;
            let (kind, end, p) = spec_match_token(cs, s);
            let start = offset(cs, s) as usize;
            let e = match end {
                Some(e) => e,
                None => (start + char_width(c)) as usize,
            };
            (Some(Token { kind, span: Span { start, end: e }, line }), p)
        }
    }
}

/// The character-level reader under a [`TokenStream`].
#[derive(Debug)]
pub struct TokenStreamInner {
    chars: Vec<char>,
    offsets: Vec<usize>,
    pos: usize,
    line: usize,
}

impl TokenStreamInner {
    pub closed spec fn text(&self) -> Seq<char> {
        self.chars@
    }

    pub closed spec fn position(&self) -> int {
        self.pos as int
    }

    pub closed spec fn wf(&self) -> bool {
        &&& self.offsets@.len() == self.chars@.len() + 1
        &&& forall|i: int|
            0 <= i <= self.chars@.len() ==> #[trigger] self.offsets@[i] == offset(self.chars@, i)
        &&& offset(self.chars@, self.chars@.len() as int) < usize::MAX
        &&& self.pos <= self.chars@.len()
        &&& self.line == newlines(self.chars@.take(self.pos as int))
    }

    pub closed spec fn same_text(&self, other: &Self) -> bool {
        &&& self.chars@ == other.chars@
        &&& self.offsets@ == other.offsets@
    }

    pub closed spec fn current_line(&self) -> int {
        self.line as int
    }

    pub proof fn lemma_wf_facts(&self)
        requires
            self.wf(),
        ensures
            0 <= self.position() <= self.text().len(),
            self.current_line() == newlines(self.text().take(self.position())),
            text_len(self.text()) < usize::MAX,
    {
        lemma_text_len_full(self.chars@);
    }

    proof fn lemma_skip_facts(&self, i: int, class: CharClass)
        requires
            self.wf(),
            0 <= i <= self.chars@.len(),
        ensures
            i <= skip_while(self.chars@, i, class) <= self.chars@.len(),
        decreases self.chars@.len() - i,
    {
        if i < self.chars@.len() && class_holds(class, self.chars@[i]) {
            self.lemma_skip_facts(i + 1, class);
        }
    }

    proof fn lemma_offset_bounds(&self, i: int)
        requires
            self.wf(),
            0 <= i <= self.chars@.len(),
        ensures
            offset(self.chars@, i) <= offset(self.chars@, self.chars@.len() as int),
            offset(self.chars@, i) + (self.chars@.len() - i) <= offset(
                self.chars@,
                self.chars@.len() as int,
            ),
    {
        lemma_offset_mono(self.chars@, i, self.chars@.len() as int);
    }

    /// A reader at the start of `raw`.
    pub fn new(raw: &str) -> (r: Self)
        requires
            text_len(raw@) < usize::MAX,
        ensures
            r.wf(),
            r.text() == raw@,
            r.position() == 0,
    {
        let chars = chars_of(raw);
        let mut offsets: Vec<usize> = Vec::new();
        let mut acc: usize = 0;
        let mut i: usize = 0;
        proof {
            lemma_text_len_full(chars@);
        }
        while i < chars.len()
            invariant
                chars@ == raw@,
                i <= chars@.len(),
                offsets@.len() == i,
                acc == offset(chars@, i as int),
                forall|k: int| 0 <= k < i ==> #[trigger] offsets@[k] == offset(chars@, k),
                offset(chars@, chars@.len() as int) < usize::MAX,
            decreases chars@.len() - i,
        {
            proof {
                lemma_offset_step(chars@, i as int);
                lemma_offset_mono(chars@, i as int + 1, chars@.len() as int);
            }
            offsets.push(acc);
            acc = acc + len_utf8(chars[i]);
            i = i + 1;
        }
        offsets.push(acc);
        proof {
            assert(chars@.take(0) =~= Seq::<char>::empty());
        }
        TokenStreamInner { chars, offsets, pos: 0, line: 0 }
    }

    fn peek_char(&self) -> (r: Option<(usize, char)>)
        requires
            self.wf(),
        ensures
            r == peek_at(self.text(), self.position()),
    {
        if self.pos < self.chars.len() {
            Some((self.offsets[self.pos], self.chars[self.pos]))
        } else {
            None
        }
    }

    fn consume_char(&mut self) -> (r: Option<(usize, char)>)
        requires
            old(self).wf(),
        ensures
            final(self).wf(),
            final(self).same_text(old(self)),
            old(self).position() <= final(self).position(),
            r == peek_at(old(self).text(), old(self).position()),
            final(self).position() == if r is Some {
                old(self).position() + 1
            } else {
                old(self).position()
            },
    {
        if self.pos < self.chars.len() {
            let c = self.chars[self.pos];
            let i = self.offsets[self.pos];
            proof {
                lemma_offset_step(self.chars@, self.pos as int);
                lemma_newlines_bound(self.chars@, self.pos as int + 1);
            }
            if c == '\n' {
                self.line = self.line + 1;
            }
            self.pos = self.pos + 1;
            Some((i, c))
        } else {
            None
        }
    }

    /// Consumes the next character when it is `ch`.
    fn consume_if(&mut self, ch: char) -> (r: Option<(usize, char)>)
        requires
            old(self).wf(),
        ensures
            final(self).wf(),
            final(self).same_text(old(self)),
            old(self).position() <= final(self).position(),
            r == (match peek_at(old(self).text(), old(self).position()) {
                Some((i, c)) => if c == ch {
                    Some((i, c))
                } else {
                    None
                },
                None => None,
            }),
            final(self).position() == if r is Some {
                old(self).position() + 1
            } else {
                old(self).position()
            },
    {
        match self.peek_char() {
            Some((_, c)) => {
                if c == ch {
                    self.consume_char()
                } else {
                    None
                }
            },
            None => None,
        }
    }

    fn tokenize_if(&mut self, ch: char, kind: TokenKind) -> (r: Option<(TokenKind, Option<usize>)>)
        requires
            old(self).wf(),
        ensures
            final(self).wf(),
            final(self).same_text(old(self)),
            old(self).position() <= final(self).position(),
            (r, final(self).position()) == spec_tokenize_if(
                old(self).text(),
                old(self).position(),
                ch,
                kind,
            ),
    {
        match self.peek_char() {
            Some((i, c)) => {
                if c == ch {
                    proof {
                        self.lemma_offset_bounds(self.pos as int + 1);
                        lemma_offset_step(self.chars@, self.pos as int);
                    }
                    self.consume_char();
                    Some((kind, Some(i + 1)))
                } else {
                    None
                }
            },
            None => None,
        }
    }

    fn operator(
        &mut self,
        a: char,
        ka: TokenKind,
        b: Option<char>,
        kb: TokenKind,
        k0: TokenKind,
    ) -> (r: (TokenKind, Option<usize>))
        requires
            old(self).wf(),
        ensures
            final(self).wf(),
            final(self).same_text(old(self)),
            old(self).position() <= final(self).position(),
            (r.0, r.1, final(self).position()) == spec_operator(
                old(self).text(),
                old(self).position(),
                a,
                ka,
                b,
                kb,
                k0,
            ),
    {
        match self.tokenize_if(a, ka) {
            Some(t) => t,
            None => match b {
                Some(bc) => match self.tokenize_if(bc, kb) {
                    Some(t) => t,
                    None => (k0, None),
                },
                None => (k0, None),
            },
        }
    }

    fn eq_s(&mut self) -> (r: (TokenKind, Option<usize>))
        requires
            old(self).wf(),
        ensures
            final(self).wf(),
            final(self).same_text(old(self)),
            old(self).position() <= final(self).position(),
            (r.0, r.1, final(self).position()) == spec_operator(
                old(self).text(),
                old(self).position(),
                '=',
                TokenKind::EqualsEquals,
                Some('>'),
                TokenKind::FatArrow,
                TokenKind::Equals,
            ),
    {
        self.operator('=', TokenKind::EqualsEquals, Some('>'), TokenKind::FatArrow, TokenKind::Equals)
    }

    fn plus(&mut self) -> (r: (TokenKind, Option<usize>))
        requires
            old(self).wf(),
        ensures
            final(self).wf(),
            final(self).same_text(old(self)),
            old(self).position() <= final(self).position(),
            (r.0, r.1, final(self).position()) == spec_operator(
                old(self).text(),
                old(self).position(),
                '+',
                TokenKind::PlusPlus,
                Some('='),
                TokenKind::PlusEquals,
                TokenKind::Plus,
            ),
    {
        self.operator('+', TokenKind::PlusPlus, Some('='), TokenKind::PlusEquals, TokenKind::Plus)
    }

    fn minus(&mut self) -> (r: (TokenKind, Option<usize>))
        requires
            old(self).wf(),
        ensures
            final(self).wf(),
            final(self).same_text(old(self)),
            old(self).position() <= final(self).position(),
            (r.0, r.1, final(self).position()) == spec_operator(
                old(self).text(),
                old(self).position(),
                '-',
                TokenKind::MinusMinus,
                Some('='),
                TokenKind::MinusEquals,
                TokenKind::Minus,
            ),
    {
        self.operator('-', TokenKind::MinusMinus, Some('='), TokenKind::MinusEquals, TokenKind::Minus)
    }
}


/// Whether `c` belongs to `class`.
fn class_matches(class: CharClass, c: char) -> (b: bool)
    ensures
        b == class_holds(class, c),
{
    match class {
        CharClass::Whitespace => is_whitespace(c),
        CharClass::XidContinue => is_xid_continue(c),
        CharClass::Dot => c == '.',
        CharClass::Colon => c == ':',
        CharClass::Number(base, mantissa) => match base {
            BaseN::Bin => '0' <= c && c <= '1',
            BaseN::Octal => '0' <= c && c <= '7',
            BaseN::Decimal => if mantissa {
                is_ascii_digit(c) || c == 'E' || c == 'e' || c == '+' || c == '-'
            } else {
                is_ascii_digit(c)
            },
            BaseN::Hex => is_ascii_hexdigit(c),
        },
    }
}

impl TokenStreamInner {
    fn consume_while_procedure(&mut self, class: CharClass) -> (r: Option<Span>)
        requires
            old(self).wf(),
        ensures
            final(self).wf(),
            final(self).same_text(old(self)),
            old(self).position() <= final(self).position(),
            final(self).position() == skip_while(old(self).text(), old(self).position(), class),
            r == consumed_span(old(self).text(), old(self).position(), final(self).position()),
    {
        let start = self.pos;
        let ghost first = *self;
        while self.pos < self.chars.len() && class_matches(class, self.chars[self.pos])
            invariant
                self.wf(),
                self.same_text(&first),
                first.wf(),
                first.pos == start,
                start <= self.pos,
                skip_while(self.chars@, self.pos as int, class) == skip_while(
                    self.chars@,
                    start as int,
                    class,
                ),
            decreases self.chars@.len() - self.pos,
        {
            self.consume_char();
        }
        if self.pos == start {
            None
        } else {
            Some(Span { start: self.offsets[start], end: self.offsets[self.pos] })
        }
    }

    /// Consumes up to `n` hexadecimal digits.
    fn consume_hex(&mut self, n: usize) -> (r: Option<Span>)
        requires
            old(self).wf(),
        ensures
            final(self).wf(),
            final(self).same_text(old(self)),
            old(self).position() <= final(self).position(),
            final(self).position() == skip_hex(old(self).text(), old(self).position(), n as nat),
            r == consumed_span(old(self).text(), old(self).position(), final(self).position()),
    {
        let start = self.pos;
        let ghost first = *self;
        let mut count: usize = 0;
        while count < n && self.pos < self.chars.len() && is_ascii_hexdigit(self.chars[self.pos])
            invariant
                self.wf(),
                self.same_text(&first),
                first.pos == start,
                count <= n,
                self.pos == start + count,
                skip_hex(self.chars@, self.pos as int, (n - count) as nat) == skip_hex(
                    self.chars@,
                    start as int,
                    n as nat,
                ),
            decreases n - count,
        {
            self.consume_char();
            count = count + 1;
        }
        if self.pos == start {
            None
        } else {
            Some(Span { start: self.offsets[start], end: self.offsets[self.pos] })
        }
    }

    fn consume_n_times(&mut self, n: usize) -> (r: Option<Span>)
        requires
            old(self).wf(),
        ensures
            final(self).wf(),
            final(self).same_text(old(self)),
            old(self).position() <= final(self).position(),
            (r, final(self).position()) == spec_consume_n(
                old(self).text(),
                old(self).position(),
                n as nat,
            ),
    {
        if n == 0 {
            return None;
        }
        let p = self.pos;
        proof {
            assert(self.offsets@[p as int] == offset(self.chars@, p as int));
        }
        let start = match self.consume_char() {
            Some((i, _)) => i,
            None => return None,
        };
        let ghost first = *self;
        let mut end = start;
        let mut k: usize = 1;
        loop
            invariant
                self.wf(),
                self.same_text(&first),
                1 <= k <= n,
                self.pos == p + k,
                start == offset(self.chars@, p as int),
                end == if k == 1 {
                    start
                } else {
                    offset(self.chars@, self.pos as int) as usize
                },
            ensures
                self.wf(),
                self.same_text(&first),
                self.pos == if p + n <= self.chars@.len() {
                    p + n
                } else {
                    self.chars@.len() as int
                },
                end == if self.pos == p + 1 {
                    start
                } else {
                    offset(self.chars@, self.pos as int) as usize
                },
            decreases n - k,
        {
            if k >= n {
                break ;
            }
            match self.consume_char() {
                Some((i, c)) => {
                    proof {
                        lemma_offset_step(self.chars@, self.pos - 1);
                        self.lemma_offset_bounds(self.pos as int);
                    }
                    end = i + len_utf8(c);
                },
                None => break ,
            }
            k = k + 1;
        }
        Some(Span { start, end })
    }

    fn try_dots(&mut self, start: usize) -> (r: (TokenKind, Option<usize>))
        requires
            old(self).wf(),
            1 <= old(self).position(),
            start == offset(old(self).text(), old(self).position() - 1),
            char_width(old(self).text()[old(self).position() - 1]) == 1,
        ensures
            final(self).wf(),
            final(self).same_text(old(self)),
            old(self).position() <= final(self).position(),
            (r.0, r.1, final(self).position()) == spec_try_dots(
                old(self).text(),
                old(self).position(),
                start,
            ),
    {
        let p = self.pos;
        proof {
            lemma_offset_step(self.chars@, p - 1);
        }
        proof {
            self.lemma_skip_facts(p as int, CharClass::Dot);
        }
        let dots_range = match self.consume_while_procedure(CharClass::Dot) {
            Some(c) => {
                proof {
                    lemma_offset_mono(self.chars@, p as int, self.pos as int);
                    self.lemma_offset_bounds(self.pos as int);
                }
                c.end - c.start
            },
            None => 0,
        };
        match dots_range {
            0 => (TokenKind::Dot, None),
            1 => (TokenKind::DotDot, Some(start + 2)),
            2 => (TokenKind::DotDotDot, Some(start + 3)),
            r => (TokenKind::Unknown, Some(start + r + 1)),
        }
    }

    fn try_colons(&mut self, start: usize) -> (r: (TokenKind, Option<usize>))
        requires
            old(self).wf(),
            1 <= old(self).position(),
            start == offset(old(self).text(), old(self).position() - 1),
            char_width(old(self).text()[old(self).position() - 1]) == 1,
        ensures
            final(self).wf(),
            final(self).same_text(old(self)),
            old(self).position() <= final(self).position(),
            (r.0, r.1, final(self).position()) == spec_try_colons(
                old(self).text(),
                old(self).position(),
                start,
            ),
    {
        let p = self.pos;
        proof {
            lemma_offset_step(self.chars@, p - 1);
        }
        proof {
            self.lemma_skip_facts(p as int, CharClass::Colon);
        }
        let count = match self.consume_while_procedure(CharClass::Colon) {
            Some(r) => {
                proof {
                    lemma_offset_mono(self.chars@, p as int, self.pos as int);
                    self.lemma_offset_bounds(self.pos as int);
                }
                r.end - r.start
            },
            None => 0,
        };
        match count {
            0 => (TokenKind::Colon, None),
            1 => (TokenKind::ColonColon, Some(start + 2)),
            r => (TokenKind::Unknown, Some(start + r + 2)),
        }
    }

    fn angle(
        &mut self,
        ch: char,
        single: TokenKind,
        equals: TokenKind,
        double: TokenKind,
        compound: TokenKind,
    ) -> (r: (TokenKind, Option<usize>))
        requires
            old(self).wf(),
        ensures
            final(self).wf(),
            final(self).same_text(old(self)),
            old(self).position() <= final(self).position(),
            (r.0, r.1, final(self).position()) == spec_angle(
                old(self).text(),
                old(self).position(),
                ch,
                single,
                equals,
                double,
                compound,
            ),
    {
        match self.peek_char() {
            Some((i, c)) => {
                proof {
                    lemma_offset_step(self.chars@, self.pos as int);
                    self.lemma_offset_bounds(self.pos as int + 1);
                }
                if c == '=' {
                    self.consume_char();
                    (equals, Some(i + 1))
                } else if c == ch {
                    self.consume_char();
                    match self.tokenize_if('=', compound) {
                        Some(t) => t,
                        None => (double, Some(i + 1)),
                    }
                } else {
                    (single, None)
                }
            },
            None => (single, None),
        }
    }

    fn lt(&mut self) -> (r: (TokenKind, Option<usize>))
        requires
            old(self).wf(),
        ensures
            final(self).wf(),
            final(self).same_text(old(self)),
            old(self).position() <= final(self).position(),
            (r.0, r.1, final(self).position()) == spec_angle(
                old(self).text(),
                old(self).position(),
                '<',
                TokenKind::LessThan,
                TokenKind::LessThanEquals,
                TokenKind::BitwiseLeft,
                TokenKind::BitwiseLeftCompound,
            ),
    {
        self.angle(
            '<',
            TokenKind::LessThan,
            TokenKind::LessThanEquals,
            TokenKind::BitwiseLeft,
            TokenKind::BitwiseLeftCompound,
        )
    }

    fn gt(&mut self) -> (r: (TokenKind, Option<usize>))
        requires
            old(self).wf(),
        ensures
            final(self).wf(),
            final(self).same_text(old(self)),
            old(self).position() <= final(self).position(),
            (r.0, r.1, final(self).position()) == spec_angle(
                old(self).text(),
                old(self).position(),
                '>',
                TokenKind::GreaterThan,
                TokenKind::GreaterThanEquals,
                TokenKind::BitwiseRight,
                TokenKind::BitwiseRightCompound,
            ),
    {
        self.angle(
            '>',
            TokenKind::GreaterThan,
            TokenKind::GreaterThanEquals,
            TokenKind::BitwiseRight,
            TokenKind::BitwiseRightCompound,
        )
    }

    fn number_sequence(&mut self, base_n: BaseN, mantissa: &mut bool) -> (r: Option<usize>)
        requires
            old(self).wf(),
        ensures
            final(self).wf(),
            final(self).same_text(old(self)),
            old(self).position() <= final(self).position(),
            (r, *final(mantissa), final(self).position()) == spec_number_sequence(
                old(self).text(),
                old(self).position(),
                base_n,
                *old(mantissa),
            ),
    {
        let exponent_range = match self.consume_while_procedure(
            CharClass::Number(base_n, *mantissa),
        ) {
            Some(r) => r,
            None => return None,
        };
        if *mantissa {
            return Some(exponent_range.end);
        }
        if base_n == BaseN::Decimal {
            if let Some((dot_range, _)) = self.consume_if('.') {
                *mantissa = true;
                return match self.consume_while_procedure(CharClass::Number(BaseN::Decimal, true)) {
                    Some(c) => Some(c.end),
                    None => Some(dot_range),
                };
            }
        }
        Some(exponent_range.end)
    }
}


impl TokenStreamInner {
    fn string_sequence(&mut self, quote_start: usize, options: StringOptions) -> (r: (
        TokenKind,
        Option<usize>,
    ))
        requires
            old(self).wf(),
        ensures
            final(self).wf(),
            final(self).same_text(old(self)),
            old(self).position() <= final(self).position(),
            (r.0, r.1, final(self).position()) == spec_string_sequence(
                old(self).text(),
                old(self).position(),
                quote_start,
                options,
            ),
    {
        let ghost first = *self;
        let ghost target = spec_string_body(self.chars@, self.pos as int, options, None);
        let mut end: Option<usize> = None;
        let mut terminated = false;
        loop
            invariant_except_break
                self.wf(),
                self.same_text(&first),
                first.pos <= self.pos,
                spec_string_body(self.chars@, self.pos as int, options, end) == target,
            ensures
                self.wf(),
                self.same_text(&first),
                first.pos <= self.pos,
                (terminated, end, self.pos as int) == target,
            decreases self.chars@.len() - self.pos,
        {
            let p = self.pos;
            proof {
                if p < self.chars@.len() {
                    lemma_offset_step(self.chars@, p as int);
                    self.lemma_offset_bounds(p as int + 1);
                    assert(self.offsets@[p as int] == offset(self.chars@, p as int));
                }
                if p + 1 < self.chars@.len() {
                    lemma_offset_step(self.chars@, p as int + 1);
                    self.lemma_offset_bounds(p as int + 2);
                }
            }
            match self.consume_char() {
                Some((i, c)) => {
                    if c == '"' {
                        if options.contains(StringOptions::multiline_str()) {
                            match self.peek_char() {
                                None => {
                                    end = Some(i + 1);
                                    terminated = false;
                                    break ;
                                },
                                Some((_, m)) => {
                                    if m == 'm' || m == 'M' {
                                        self.consume_char();
                                        end = Some(i + 2);
                                        terminated = true;
                                        break ;
                                    }
                                },
                            }
                        } else {
                            end = Some(i + 1);
                            terminated = true;
                            break ;
                        }
                    } else if c == '\n' && !options.contains(StringOptions::multiline_str()) {
                        end = Some(i);
                        terminated = false;
                        break ;
                    } else if c == '\\' && !options.contains(StringOptions::rawstr()) {
                        match self.peek_char() {
                            Some((_, q)) => {
                                if q == '"' {
                                    self.consume_char();
                                    end = Some(i + 2);
                                } else {
                                    end = Some(i + 1);
                                }
                            },
                            None => {
                                end = Some(i + 1);
                            },
                        }
                    } else {
                        end = Some(i + len_utf8(c));
                    }
                },
                None => {
                    terminated = false;
                    break ;
                },
            }
        }
        let ending_line = self.line;
        (TokenKind::StringLiteral { options, quote_start, terminated, ending_line }, end)
    }

    fn escaped(&mut self) -> (r: Option<(CharacterEscapeType, usize)>)
        requires
            old(self).wf(),
        ensures
            final(self).wf(),
            final(self).same_text(old(self)),
            old(self).position() <= final(self).position(),
            (r, final(self).position()) == spec_escaped(old(self).text(), old(self).position()),
    {
        let q = self.pos;
        proof {
            if q < self.chars@.len() {
                lemma_offset_step(self.chars@, q as int);
                self.lemma_offset_bounds(q as int + 1);
                assert(self.offsets@[q as int] == offset(self.chars@, q as int));
            }
        }
        let (i, c) = match self.consume_char() {
            Some(x) => x,
            None => return None,
        };
        if c == 'x' {
            match self.consume_hex(4) {
                Some(c) => Some((CharacterEscapeType::Hex, c.end)),
                None => Some((CharacterEscapeType::Hex, i + 1)),
            }
        } else if c == 'u' {
            match self.consume_n_times(4) {
                Some(c) => Some((CharacterEscapeType::Utf16, c.end)),
                None => Some((CharacterEscapeType::Utf16, i + 1)),
            }
        } else if c == 'U' {
            match self.consume_n_times(8) {
                Some(c) => Some((CharacterEscapeType::Utf32, c.end)),
                None => Some((CharacterEscapeType::Utf32, i + 1)),
            }
        } else {
            Some((CharacterEscapeType::Simple, i + len_utf8(c)))
        }
    }

    fn char_sequence(&mut self) -> (r: Option<(CharacterEscapeType, Span)>)
        requires
            old(self).wf(),
        ensures
            final(self).wf(),
            final(self).same_text(old(self)),
            old(self).position() <= final(self).position(),
            (r, final(self).position()) == spec_char_sequence(
                old(self).text(),
                old(self).position(),
            ),
    {
        let p = self.pos;
        proof {
            if p < self.chars@.len() {
                lemma_offset_step(self.chars@, p as int);
                self.lemma_offset_bounds(p as int + 1);
                assert(self.offsets@[p as int] == offset(self.chars@, p as int));
            }
        }
        let (start, c) = match self.consume_char() {
            Some(x) => x,
            None => return None,
        };
        let (char_type, end) = if c == '\\' {
            match self.escaped() {
                Some(x) => x,
                None => (CharacterEscapeType::Simple, start + 1),
            }
        } else {
            (CharacterEscapeType::Unescaped, start + len_utf8(c))
        };
        Some((char_type, Span { start, end }))
    }

    fn char_literal(&mut self) -> (r: (TokenKind, Option<usize>))
        requires
            old(self).wf(),
        ensures
            final(self).wf(),
            final(self).same_text(old(self)),
            old(self).position() <= final(self).position(),
            (r.0, r.1, final(self).position()) == spec_char_literal(
                old(self).text(),
                old(self).position(),
            ),
    {
        match self.char_sequence() {
            Some((escape_type, char_range)) => {
                proof {
                    if self.pos < self.chars@.len() {
                        self.lemma_offset_bounds(self.pos as int + 1);
                        lemma_offset_step(self.chars@, self.pos as int);
                        assert(self.offsets@[self.pos as int] == offset(
                            self.chars@,
                            self.pos as int,
                        ));
                    }
                }
                match self.consume_if('\'') {
                    Some((quote_end, _)) => (
                        TokenKind::CharacterLiteral { escape_type, terminated: true },
                        Some(quote_end + 1),
                    ),
                    None => (
                        TokenKind::CharacterLiteral { escape_type, terminated: false },
                        Some(char_range.end),
                    ),
                }
            },
            None => (TokenKind::Unknown, None),
        }
    }

    /// Whether the characters from `s` to `j` spell `w`.
    fn word_is(&self, s: usize, j: usize, w: &[char]) -> (b: bool)
        requires
            self.wf(),
            s <= j <= self.chars@.len(),
        ensures
            b == (self.chars@.subrange(s as int, j as int) =~= w@),
    {
        if j - s != w.len() {
            return false;
        }
        let mut k: usize = 0;
        while k < w.len()
            invariant
                self.wf(),
                s <= j <= self.chars@.len(),
                j - s == w@.len(),
                k <= w@.len(),
                forall|m: int| 0 <= m < k ==> self.chars@[s + m] == w@[m],
            decreases w@.len() - k,
        {
            if self.chars[s + k] != w[k] {
                return false;
            }
            k = k + 1;
        }
        true
    }

    fn keywords(&self, s: usize, j: usize) -> (r: Result<TokenKind, ()>)
        requires
            self.wf(),
            s <= j <= self.chars@.len(),
        ensures
            r matches Ok(k) ==> keyword_of(self.chars@.subrange(s as int, j as int)) == Some(k),
            r is Err ==> keyword_of(self.chars@.subrange(s as int, j as int)) is None,
    {
        let keyword = if self.word_is(s, j, &['e', 'n', 'u', 'm']) {
            TokenKind::EnumKeyword
        } else if self.word_is(s, j, &['s', 't', 'r', 'u', 'c', 't']) {
            TokenKind::StructKeyword
        } else if self.word_is(s, j, &['c', 'o', 'n', 'f', 'i', 'g']) {
            TokenKind::ConfigKeyword
        } else if self.word_is(s, j, &['c', 'o', 'n', 's', 't']) {
            TokenKind::ConstKeyword
        } else if self.word_is(s, j, &['f', 'l', 'a', 'g', 's']) {
            TokenKind::FlagsKeyword
        } else if self.word_is(s, j, &['s', 'e', 'l', 'f']) {
            TokenKind::SelfKeyword
        } else if self.word_is(s, j, &['f', 'u', 'n', 'c']) {
            TokenKind::FuncKeyword
        } else if self.word_is(s, j, &['m', 'a', 't', 'c', 'h']) {
            TokenKind::MatchKeyword
        } else if self.word_is(s, j, &['l', 'e', 't']) {
            TokenKind::LetKeyword
        } else if self.word_is(s, j, &['i', 'f']) {
            TokenKind::IfKeyword
        } else if self.word_is(s, j, &['e', 'l', 's', 'e']) {
            TokenKind::ElseKeyword
        } else if self.word_is(s, j, &['w', 'h', 'i', 'l', 'e']) {
            TokenKind::WhileKeyword
        } else if self.word_is(s, j, &['f', 'o', 'r']) {
            TokenKind::ForKeyword
        } else if self.word_is(s, j, &['i', 'n']) {
            TokenKind::InKeyword
        } else if self.word_is(s, j, &['s', 'i', 'g']) {
            TokenKind::SigKeyword
        } else if self.word_is(s, j, &['n', 'e', 'w']) {
            TokenKind::NewKeyword
        } else if self.word_is(s, j, &['r', 'e', 't', 'u', 'r', 'n']) {
            TokenKind::ReturnKeyword
        } else if self.word_is(s, j, &['t', 'r', 'u', 'e']) {
            TokenKind::TrueKeyword
        } else if self.word_is(s, j, &['f', 'a', 'l', 's', 'e']) {
            TokenKind::FalseKeyword
        } else if self.word_is(s, j, &['n', 'u', 'l', 'l']) {
            TokenKind::NullKeyword
        } else if self.word_is(s, j, &['f', 'e', 'a', 't', 'u', 'r', 'e']) {
            TokenKind::FeatureKeyword
        } else if self.word_is(s, j, &['i', 'm', 'p', 'o', 'r', 't']) {
            TokenKind::ImportKeyword
        } else if self.word_is(s, j, &['c', 'o', 'n', 't', 'i', 'n', 'u', 'e']) {
            TokenKind::ContinueKeyword
        } else if self.word_is(s, j, &['b', 'r', 'e', 'a', 'k']) {
            TokenKind::BreakKeyword
        } else if self.word_is(s, j, &['w', 'h', 'e', 'r', 'e']) {
            TokenKind::WhereKeyword
        } else if self.word_is(s, j, &['a', 's']) {
            TokenKind::AsKeyword
        } else if self.word_is(s, j, &['p', 'u', 'b']) {
            TokenKind::PubKeyword
        } else if self.word_is(s, j, &['l', 'o', 'c', 'a', 'l']) {
            TokenKind::LocalKeyword
        } else {
            return Err(());
        };
        Ok(keyword)
    }
}


impl TokenStreamInner {
    /// The flags spelled by the characters from `s` to `j`.
    fn string_options_between(&self, s: usize, j: usize) -> (r: Option<StringOptions>)
        requires
            self.wf(),
            s <= j <= self.chars@.len(),
        ensures
            r matches Some(o) ==> string_options_of(self.chars@.subrange(s as int, j as int))
                == Some(o.bits),
            r is None ==> string_options_of(self.chars@.subrange(s as int, j as int)) is None,
    {
        let ghost word = self.chars@.subrange(s as int, j as int);
        let mut bits: u8 = 0;
        let mut k: usize = s;
        proof {
            assert(word.take(0) =~= Seq::<char>::empty());
        }
        while k < j
            invariant
                self.wf(),
                s <= k <= j <= self.chars@.len(),
                word == self.chars@.subrange(s as int, j as int),
                string_options_of(word.take(k - s)) == Some(bits),
            decreases j - k,
        {
            proof {
                assert(word.take(k - s + 1).drop_last() =~= word.take(k - s));
                assert(word[k - s] == self.chars@[k as int]);
            }
            match crate::tokens::string_option_step(bits, self.chars[k]) {
                Some(b) => bits = b,
                None => {
                    proof {
                        crate::tokens::lemma_string_options_none(word, k - s + 1);
                    }
                    return None;
                },
            }
            k = k + 1;
        }
        proof {
            assert(word.take(k - s) =~= word);
        }
        Some(StringOptions { bits })
    }

    fn word(&mut self, s: usize) -> (r: (TokenKind, Option<usize>))
        requires
            old(self).wf(),
            old(self).position() == s + 1,
        ensures
            final(self).wf(),
            final(self).same_text(old(self)),
            old(self).position() <= final(self).position(),
            (r.0, r.1, final(self).position()) == spec_word(old(self).text(), s as int),
    {
        proof {
            self.lemma_skip_facts(s as int + 1, CharClass::XidContinue);
        }
        self.consume_while_procedure(CharClass::XidContinue);
        let j = self.pos;
        proof {
            assert(self.offsets@[j as int] == offset(self.chars@, j as int));
            if j < self.chars@.len() {
                lemma_offset_step(self.chars@, j as int);
                self.lemma_offset_bounds(j as int + 1);
            }
        }
        match self.peek_char() {
            Some((quote_start, c)) => {
                if c == '"' {
                    self.consume_char();
                    return match self.string_options_between(s, j) {
                        Some(options) => self.string_sequence(quote_start, options),
                        None => (TokenKind::Unknown, Some(quote_start + 1)),
                    };
                }
            },
            None => {},
        }
        match self.keywords(s, j) {
            Ok(k) => (k, Some(self.offsets[j])),
            Err(_) => (TokenKind::Identifier, Some(self.offsets[j])),
        }
    }

    fn sigil(&mut self, bare: TokenKind) -> (r: (TokenKind, Option<usize>))
        requires
            old(self).wf(),
        ensures
            final(self).wf(),
            final(self).same_text(old(self)),
            old(self).position() <= final(self).position(),
            (r.0, r.1, final(self).position()) == spec_sigil(
                old(self).text(),
                old(self).position(),
                bare,
            ),
    {
        match self.peek_char() {
            Some((_, ch)) => {
                if is_xid_continue(ch) {
                    proof {
                        self.lemma_skip_facts(self.pos as int, CharClass::XidContinue);
                    }
                    self.consume_while_procedure(CharClass::XidContinue);
                    proof {
                        assert(self.offsets@[self.pos as int] == offset(
                            self.chars@,
                            self.pos as int,
                        ));
                    }
                    (TokenKind::Identifier, Some(self.offsets[self.pos]))
                } else {
                    (bare, None)
                }
            },
            None => (bare, None),
        }
    }

    fn number(&mut self, c: char) -> (r: (TokenKind, Option<usize>))
        requires
            old(self).wf(),
            old(self).position() >= 1,
        ensures
            final(self).wf(),
            final(self).same_text(old(self)),
            old(self).position() <= final(self).position(),
            (r.0, r.1, final(self).position()) == spec_number(
                old(self).text(),
                old(self).position() - 1,
                c,
            ),
    {
        let (base, mut is_floating) = match self.peek_char() {
            None => {
                return (TokenKind::NumberLiteral { base: BaseN::Decimal, is_floating: false }, None);
            },
            Some((_, n)) => {
                if c == '0' && (n == 'b' || n == 'B') {
                    self.consume_char();
                    (BaseN::Bin, false)
                } else if c == '0' && (n == 'o' || n == 'O') {
                    self.consume_char();
                    (BaseN::Octal, false)
                } else if c == '0' && (n == 'x' || n == 'X') {
                    self.consume_char();
                    (BaseN::Hex, false)
                } else if n == '.' {
                    self.consume_char();
                    (BaseN::Decimal, true)
                } else {
                    (BaseN::Decimal, false)
                }
            },
        };
        let end = self.number_sequence(base, &mut is_floating);
        (TokenKind::NumberLiteral { base, is_floating }, end)
    }

    fn match_token(&mut self, start: usize, current_char: char) -> (r: (TokenKind, Option<usize>))
        requires
            old(self).wf(),
            old(self).position() >= 1,
            current_char == old(self).text()[old(self).position() - 1],
            start == offset(old(self).text(), old(self).position() - 1),
        ensures
            final(self).wf(),
            final(self).same_text(old(self)),
            old(self).position() <= final(self).position(),
            (r.0, r.1, final(self).position()) == spec_match_token(
                old(self).text(),
                old(self).position() - 1,
            ),
    {
        let c = current_char;
        if c == '{' {
            (TokenKind::CurlyBracketLeft, None)
        } else if c == '}' {
            (TokenKind::CurlyBracketRight, None)
        } else if c == '(' {
            (TokenKind::ParanthesisLeft, None)
        } else if c == ')' {
            (TokenKind::ParanthesisRight, None)
        } else if c == '[' {
            (TokenKind::SquareBracketLeft, None)
        } else if c == ']' {
            (TokenKind::SquareBracketRight, None)
        } else if c == '.' {
            self.try_dots(start)
        } else if c == ';' {
            (TokenKind::Semicolon, None)
        } else if c == ':' {
            self.try_colons(start)
        } else if c == ',' {
            (TokenKind::Comma, None)
        } else if c == '<' {
            self.lt()
        } else if c == '>' {
            self.gt()
        } else if c == '=' {
            self.eq_s()
        } else if c == '!' {
            self.operator('=', TokenKind::NotEquals, None, TokenKind::Not, TokenKind::Not)
        } else if c == '&' {
            self.operator('=', TokenKind::AndEquals, Some('&'), TokenKind::AndAnd, TokenKind::And)
        } else if c == '^' {
            self.operator('=', TokenKind::CaretEquals, None, TokenKind::Caret, TokenKind::Caret)
        } else if c == '~' {
            self.operator('=', TokenKind::TildeEquals, None, TokenKind::Tilde, TokenKind::Tilde)
        } else if c == '|' {
            self.operator('=', TokenKind::OrEquals, Some('|'), TokenKind::OrOr, TokenKind::Or)
        } else if c == '*' {
            self.operator('=', TokenKind::StarEquals, None, TokenKind::Star, TokenKind::Star)
        } else if c == '/' {
            self.operator('=', TokenKind::SlashEquals, None, TokenKind::Slash, TokenKind::Slash)
        } else if c == '%' {
            self.operator(
                '=',
                TokenKind::PercentEquals,
                None,
                TokenKind::Percent,
                TokenKind::Percent,
            )
        } else if c == '+' {
            self.plus()
        } else if c == '-' {
            self.minus()
        } else if c == '#' {
            (TokenKind::Tag, None)
        } else if c == '@' {
            self.sigil(TokenKind::At)
        } else if c == '$' {
            self.sigil(TokenKind::Dollar)
        } else if c == '\\' {
            (TokenKind::Backslash, None)
        } else if c == '?' {
            (TokenKind::QuestionMark, None)
        } else if c == '_' {
            self.sigil(TokenKind::Underscore)
        } else if c == '"' {
            self.string_sequence(start, StringOptions::empty())
        } else if c == '\'' {
            self.char_literal()
        } else if is_xid_start(c) {
            self.word(self.pos - 1)
        } else if is_ascii_digit(c) {
            self.number(c)
        } else {
            (TokenKind::Unknown, None)
        }
    }

    /// The next token, or `None` when only whitespace is left.
    pub fn next(&mut self) -> (r: Option<Token>)
        requires
            old(self).wf(),
        ensures
            final(self).wf(),
            final(self).same_text(old(self)),
            old(self).position() <= final(self).position(),
            (r, final(self).position()) == spec_next_token(old(self).text(), old(self).position()),
            r is Some ==> old(self).position() < final(self).position(),
    {
        let p = self.pos;
        let (start, ch) = match self.consume_char() {
            Some(x) => x,
            None => return None,
        };
        let (start, ch) = if is_whitespace(ch) {
            proof {
                self.lemma_skip_facts(p as int + 1, CharClass::Whitespace);
            }
            self.consume_while_procedure(CharClass::Whitespace);
            let s = self.pos;
            proof {
                if s < self.chars@.len() {
                    assert(self.offsets@[s as int] == offset(self.chars@, s as int));
                }
            }
            match self.consume_char() {
                Some(x) => x,
                None => return None,
            }
        } else {
            proof {
                assert(self.offsets@[p as int] == offset(self.chars@, p as int));
            }
            (start, ch)
        };
        proof {
            lemma_offset_step(self.chars@, self.pos - 1);
            self.lemma_offset_bounds(self.pos as int);
        }
        let line = self.line;
        let (kind, end) = self.match_token(start, ch);
        let end = match end {
            Some(e) => e,
            None => start + len_utf8(ch),
        };
        Some(Token { kind, span: Span { start, end }, line })
    }
}


/// What a [`TokenStream`] holds: the text, the position of the reader in it
/// and the token taken out ahead of time by a look-ahead, if any.
pub struct StreamState {
    pub text: Seq<char>,
    pub pos: int,
    pub peeked: Option<Option<Token>>,
}

/// The next token of `cs` from character `pos`, and the position after it.
/// Outside this module it is known by the properties proved of it here.
pub closed spec fn next_token_at(cs: Seq<char>, pos: int) -> (Option<Token>, int) {
    spec_next_token(cs, pos)
}

/// The token `next` hands out, and the state after it.
pub open spec fn stream_next(st: StreamState) -> (StreamState, Option<Token>) {
    match st.peeked {
        Some(t) => (StreamState { text: st.text, pos: st.pos, peeked: None }, t),
        None => {
            let (t, p) = next_token_at(st.text, st.pos);
            (StreamState { text: st.text, pos: p, peeked: None }, t)
        },
    }
}

/// The token `peek` shows, and the state after it.
pub open spec fn stream_peek(st: StreamState) -> (StreamState, Option<Token>) {
    match st.peeked {
        Some(t) => (st, t),
        None => {
            let (t, p) = next_token_at(st.text, st.pos);
            (StreamState { text: st.text, pos: p, peeked: Some(t) }, t)
        },
    }
}

/// Peeking does not change the token `next` hands out, nor the state after
/// it; peeking again shows the same token.
pub proof fn lemma_stream_peek_next(st: StreamState)
    ensures
        stream_next(stream_peek(st).0) == stream_next(st),
        stream_peek(stream_peek(st).0) == stream_peek(st),
{
}

/// A measure of the tokens left: it falls whenever a token is taken.
pub open spec fn stream_measure(st: StreamState) -> int {
    2 * (st.text.len() - st.pos) + if st.peeked matches Some(Some(_)) {
        1int
    } else {
        0int
    }
}

/// The stream of tokens of a source text.
#[derive(Debug)]
pub struct TokenStream {
    inner: TokenStreamInner,
    peek: Option<Option<Token>>,
}

impl View for TokenStream {
    type V = StreamState;

    closed spec fn view(&self) -> StreamState {
        StreamState { text: self.inner.text(), pos: self.inner.position(), peeked: self.peek }
    }
}

impl TokenStream {
    pub closed spec fn wf(&self) -> bool {
        self.inner.wf()
    }

    /// The line the reader is on: the number of line feeds it has read.
    pub closed spec fn spec_line(&self) -> int {
        self.inner.current_line()
    }

    pub proof fn lemma_wf(&self)
        requires
            self.wf(),
        ensures
            0 <= self@.pos <= self@.text.len(),
            self.spec_line() == newlines(self@.text.take(self@.pos)),
            self.spec_line() <= self@.pos,
            text_len(self@.text) < usize::MAX,
    {
        self.inner.lemma_wf_facts();
        lemma_newlines_bound(self@.text, self@.pos);
    }

    pub fn new(input: &str) -> (r: Self)
        requires
            text_len(input@) < usize::MAX,
        ensures
            r.wf(),
            r@ == (StreamState { text: input@, pos: 0, peeked: None }),
    {
        TokenStream { inner: TokenStreamInner::new(input), peek: None }
    }

    pub fn line(&self) -> (r: usize)
        requires
            self.wf(),
        ensures
            r == self.spec_line(),
    {
        self.inner.line
    }

    /// Hands out the next token.
    pub fn next(&mut self) -> (r: Option<Token>)
        requires
            old(self).wf(),
        ensures
            final(self).wf(),
            (final(self)@, r) == stream_next(old(self)@),
            final(self).spec_line() == newlines(final(self)@.text.take(final(self)@.pos)),
            stream_measure(final(self)@) <= stream_measure(old(self)@),
            r is Some ==> stream_measure(final(self)@) < stream_measure(old(self)@),
    {
        match self.peek.take() {
            Some(t) => t,
            None => self.inner.next(),
        }
    }

    /// Shows the next token without handing it out.
    pub fn peek(&mut self) -> (r: Option<Token>)
        requires
            old(self).wf(),
        ensures
            final(self).wf(),
            (final(self)@, r) == stream_peek(old(self)@),
            final(self).spec_line() == newlines(final(self)@.text.take(final(self)@.pos)),
            stream_measure(final(self)@) <= stream_measure(old(self)@),
    {
        match self.peek {
            Some(t) => t,
            None => {
                let t = self.inner.next();
                self.peek = Some(t);
                t
            },
        }
    }

    /// Whether the next token is of `kind`.
    pub fn is_next(&mut self, kind: TokenKind) -> (b: bool)
        requires
            old(self).wf(),
        ensures
            final(self).wf(),
            final(self)@ == stream_peek(old(self)@).0,
            b == (stream_peek(old(self)@).1 matches Some(t) && t.kind == kind),
            final(self).spec_line() == newlines(final(self)@.text.take(final(self)@.pos)),
            stream_measure(final(self)@) <= stream_measure(old(self)@),
    {
        match self.peek() {
            Some(t) => t.kind == kind,
            None => false,
        }
    }

    /// Whether no token is left.
    pub fn reached_eof(&mut self) -> (b: bool)
        requires
            old(self).wf(),
        ensures
            final(self).wf(),
            final(self)@ == stream_peek(old(self)@).0,
            b == stream_peek(old(self)@).1 is None,
            final(self).spec_line() == newlines(final(self)@.text.take(final(self)@.pos)),
            stream_measure(final(self)@) <= stream_measure(old(self)@),
    {
        self.peek().is_none()
    }

    /// Hands out the next token if `f` accepts it; otherwise keeps it for later.
    pub fn next_if(&mut self, f: impl FnOnce(&Token) -> bool) -> (r: Option<Token>)
        requires
            old(self).wf(),
            forall|t: Token| f.requires((&t,)),
        ensures
            final(self).wf(),
            ({
                let (st, t) = stream_next(old(self)@);
                match t {
                    None => r is None && final(self)@ == StreamState {
                        text: st.text,
                        pos: st.pos,
                        peeked: Some(None),
                    },
                    Some(tok) => (r == Some(tok) && f.ensures((&tok,), true) && final(self)@
                        == st) || (r is None && f.ensures((&tok,), false) && final(self)@
                        == StreamState { text: st.text, pos: st.pos, peeked: Some(Some(tok)) }),
                }
            }),
    {
        match self.next() {
            Some(t) => {
                if f(&t) {
                    Some(t)
                } else {
                    self.peek = Some(Some(t));
                    None
                }
            },
            None => {
                self.peek = Some(None);
                None
            },
        }
    }

    /// Hands the next token (or its absence) to `f`; what `f` gives back
    /// in `Err` is kept as the next token.
    pub fn next_if_map<T>(&mut self, f: impl FnOnce(Option<Token>) -> Result<T, Option<Token>>) -> (r:
        Option<T>)
        requires
            old(self).wf(),
            forall|t: Option<Token>| f.requires((t,)),
        ensures
            final(self).wf(),
            ({
                let (st, t) = stream_next(old(self)@);
                (exists|v: T|
                    f.ensures((t,), Ok::<T, Option<Token>>(v)) && r == Some(v) && final(self)@
                        == st) || (exists|back: Option<Token>|
                    f.ensures((t,), Err::<T, Option<Token>>(back)) && r is None && final(self)@
                        == StreamState { text: st.text, pos: st.pos, peeked: Some(back) })
            }),
    {
        let t = self.next();
        match f(t) {
            Ok(v) => Some(v),
            Err(back) => {
                self.peek = Some(back);
                None
            },
        }
    }
}


impl TokenStream {
    /// Puts `t` back as the token the next look-ahead shows.
    pub(crate) fn put_back(&mut self, t: Option<Token>)
        requires
            old(self).wf(),
        ensures
            final(self).wf(),
            final(self)@ == (StreamState { text: old(self)@.text, pos: old(self)@.pos, peeked: Some(t) }),
            final(self).spec_line() == old(self).spec_line(),
    {
        self.peek = Some(t);
    }

    /// The length of the text in bytes.
    pub fn input_len(&self) -> (r: usize)
        requires
            self.wf(),
        ensures
            r == text_len(self@.text),
    {
        proof {
            lemma_text_len_full(self.inner.chars@);
        }
        self.inner.offsets[self.inner.chars.len()]
    }

    /// The index of the character that starts at byte `b`, if one does.
    pub fn char_index(&self, b: usize) -> (r: Option<usize>)
        requires
            self.wf(),
        ensures
            r == (match char_index_of(self@.text, b as int) {
                Some(i) => Some(i as usize),
                None => None::<usize>,
            }),
    {
        let ghost cs = self.inner.chars@;
        let n = self.inner.chars.len();
        let mut lo: usize = 0;
        let mut hi: usize = self.inner.offsets.len();
        while lo < hi
            invariant
                self.wf(),
                cs == self.inner.chars@,
                n == cs.len(),
                lo <= hi <= n + 1,
                forall|i: int| 0 <= i < lo ==> offset(cs, i) < b,
                forall|i: int| hi <= i <= n ==> offset(cs, i) > b,
            decreases hi - lo,
        {
            let mid = lo + (hi - lo) / 2;
            let o = self.inner.offsets[mid];
            if o == b {
                proof {
                    lemma_char_index_unique(cs, mid as int, b as int);
                }
                return Some(mid);
            } else if o < b {
                proof {
                    assert forall|i: int| 0 <= i < mid + 1 implies offset(cs, i) < b by {
                        lemma_offset_mono(cs, i, mid as int);
                    }
                }
                lo = mid + 1;
            } else {
                proof {
                    assert forall|i: int| mid <= i <= n implies offset(cs, i) > b by {
                        lemma_offset_mono(cs, mid as int, i);
                    }
                }
                hi = mid;
            }
        }
        proof {
            assert(!(exists|i: int| 0 <= i <= cs.len() && offset(cs, i) == b)) by {
                if exists|i: int| 0 <= i <= cs.len() && offset(cs, i) == b {
                    let i = choose|i: int| 0 <= i <= cs.len() && offset(cs, i) == b;
                    assert(offset(cs, i) == b);
                }
            }
        }
        None
    }
}

/// The index of the character of `cs` that starts at byte `b` (the length
/// of `cs` for the end of the text), if there is one.
pub open spec fn char_index_of(cs: Seq<char>, b: int) -> Option<int> {
    if exists|i: int| 0 <= i <= cs.len() && offset(cs, i) == b {
        Some(choose|i: int| 0 <= i <= cs.len() && offset(cs, i) == b)
    } else {
        None
    }
}

/// The characters between the bytes `start` and `end`; nothing when either
/// is not the start of a character or they are out of order.
pub open spec fn text_between(cs: Seq<char>, start: int, end: int) -> Seq<char> {
    match (char_index_of(cs, start), char_index_of(cs, end)) {
        (Some(i), Some(j)) => if i <= j {
            cs.subrange(i, j)
        } else {
            Seq::empty()
        },
        _ => Seq::empty(),
    }
}

/// A character index found for a byte lies within the text.
pub proof fn lemma_char_index_in(cs: Seq<char>, b: int)
    ensures
        char_index_of(cs, b) matches Some(i) ==> 0 <= i <= cs.len(),
{
}

/// No character starts at a byte outside the text.
pub proof fn lemma_char_index_out(cs: Seq<char>, b: int)
    requires
        b < 0 || b > text_len(cs),
    ensures
        char_index_of(cs, b) is None,
{
    if exists|i: int| 0 <= i <= cs.len() && offset(cs, i) == b {
        let i = choose|i: int| 0 <= i <= cs.len() && offset(cs, i) == b;
        lemma_offset_mono(cs, i, cs.len() as int);
        lemma_text_len_full(cs);
    }
}

pub proof fn lemma_char_index_unique(cs: Seq<char>, i: int, b: int)
    requires
        0 <= i <= cs.len(),
        offset(cs, i) == b,
    ensures
        char_index_of(cs, b) == Some(i),
{
    let j = choose|j: int| 0 <= j <= cs.len() && offset(cs, j) == b;
    if j < i {
        lemma_offset_mono(cs, j, i);
    } else if i < j {
        lemma_offset_mono(cs, i, j);
    }
}


/// `e`, when there is one, is the byte where a character between the
/// positions `lo` and `hi` of `cs` starts.
spec fn ends_at_char(cs: Seq<char>, e: Option<usize>, lo: int, hi: int) -> bool {
    e matches Some(x) ==> exists|j: int| lo <= j <= hi && #[trigger] offset(cs, j) == x
}

proof fn lemma_skip_while(cs: Seq<char>, i: int, class: CharClass)
    requires
        0 <= i <= cs.len(),
    ensures
        i <= skip_while(cs, i, class) <= cs.len(),
        forall|k: int| i <= k < skip_while(cs, i, class) ==> class_holds(class, #[trigger] cs[k]),
        skip_while(cs, i, class) < cs.len() ==> !class_holds(class, cs[skip_while(cs, i, class)]),
    decreases cs.len() - i,
{
    if i < cs.len() && class_holds(class, cs[i]) {
        lemma_skip_while(cs, i + 1, class);
    }
}

proof fn lemma_skip_hex(cs: Seq<char>, i: int, n: nat)
    requires
        0 <= i <= cs.len(),
    ensures
        i <= skip_hex(cs, i, n) <= cs.len(),
        skip_hex(cs, i, n) <= i + n,
    decreases n,
{
    if n > 0 && i < cs.len() && is_hex_digit(cs[i]) {
        lemma_skip_hex(cs, i + 1, (n - 1) as nat);
    }
}

/// Over a run of ASCII characters the byte offset grows by one per character.
proof fn lemma_ascii_run(cs: Seq<char>, i: int, j: int)
    requires
        0 <= i <= j <= cs.len(),
        forall|k: int| i <= k < j ==> (#[trigger] cs[k] as u32) < 0x80,
    ensures
        offset(cs, j) == offset(cs, i) + (j - i),
    decreases j - i,
{
    if i < j {
        lemma_ascii_run(cs, i, j - 1);
        lemma_offset_step(cs, j - 1);
    }
}

/// Every offset of a text that fits in memory fits in a `usize`.
proof fn lemma_offset_fits(cs: Seq<char>, i: int)
    requires
        0 <= i <= cs.len(),
        text_len(cs) < usize::MAX,
    ensures
        offset(cs, i) <= text_len(cs),
{
    lemma_offset_mono(cs, i, cs.len() as int);
    lemma_text_len_full(cs);
}

/// The byte after an ASCII character at `i`.
proof fn lemma_ascii_step(cs: Seq<char>, i: int)
    requires
        0 <= i < cs.len(),
        (cs[i] as u32) < 0x80,
        text_len(cs) < usize::MAX,
    ensures
        offset(cs, i + 1) == offset(cs, i) + 1,
        offset(cs, i + 1) <= text_len(cs),
{
    lemma_offset_step(cs, i);
    lemma_offset_fits(cs, i + 1);
}

proof fn lemma_tokenize_if(cs: Seq<char>, p: int, ch: char, kind: TokenKind)
    requires
        0 <= p <= cs.len(),
        (ch as u32) < 0x80,
        text_len(cs) < usize::MAX,
    ensures
        ({
            let (r, q) = spec_tokenize_if(cs, p, ch, kind);
            ||| r is None && q == p
            ||| p < cs.len() && q == p + 1 && offset(cs, p + 1) < usize::MAX && r == Some(
                (kind, Some(offset(cs, p + 1) as usize)),
            )
        }),
{
    if p < cs.len() {
        lemma_offset_fits(cs, p);
        if cs[p] == ch {
            lemma_ascii_step(cs, p);
        }
    }
}

proof fn lemma_operator(
    cs: Seq<char>,
    p: int,
    a: char,
    ka: TokenKind,
    b: Option<char>,
    kb: TokenKind,
    k0: TokenKind,
)
    requires
        0 <= p <= cs.len(),
        (a as u32) < 0x80,
        b matches Some(bc) ==> (bc as u32) < 0x80,
        text_len(cs) < usize::MAX,
    ensures
        ({
            let (k, e, q) = spec_operator(cs, p, a, ka, b, kb, k0);
            p <= q <= cs.len() && ends_at_char(cs, e, p, q)
        }),
{
    lemma_tokenize_if(cs, p, a, ka);
    if let Some(bc) = b {
        lemma_tokenize_if(cs, p, bc, kb);
    }
    let (k, e, q) = spec_operator(cs, p, a, ka, b, kb, k0);
    if e is Some {
        assert(offset(cs, p + 1) == e->0);
    }
}

proof fn lemma_angle(
    cs: Seq<char>,
    p: int,
    ch: char,
    single: TokenKind,
    equals: TokenKind,
    double: TokenKind,
    compound: TokenKind,
)
    requires
        0 <= p <= cs.len(),
        (ch as u32) < 0x80,
        text_len(cs) < usize::MAX,
    ensures
        ({
            let (k, e, q) = spec_angle(cs, p, ch, single, equals, double, compound);
            p <= q <= cs.len() && ends_at_char(cs, e, p, q)
        }),
{
    if p < cs.len() {
        lemma_offset_fits(cs, p);
        let c = cs[p];
        if c == '=' || c == ch {
            lemma_ascii_step(cs, p);
            assert(offset(cs, p + 1) == offset(cs, p) + 1);
        }
        if c != '=' && c == ch {
            lemma_tokenize_if(cs, p + 1, '=', compound);
            let (r, q) = spec_tokenize_if(cs, p + 1, '=', compound);
            if let Some((_, Some(x))) = r {
                assert(offset(cs, p + 2) == x);
            }
        }
    }
}

proof fn lemma_try_dots(cs: Seq<char>, p: int, start: usize)
    requires
        1 <= p <= cs.len(),
        cs[p - 1] == '.',
        start == offset(cs, p - 1),
        text_len(cs) < usize::MAX,
    ensures
        ({
            let (k, e, q) = spec_try_dots(cs, p, start);
            p <= q <= cs.len() && ends_at_char(cs, e, p, q)
        }),
{
    let j = skip_while(cs, p, CharClass::Dot);
    lemma_skip_while(cs, p, CharClass::Dot);
    assert forall|k: int| p - 1 <= k < j implies (#[trigger] cs[k] as u32) < 0x80 by {
        if k >= p {
            assert(class_holds(CharClass::Dot, cs[k]));
        }
    }
    lemma_ascii_run(cs, p - 1, j);
    lemma_ascii_run(cs, p, j);
    lemma_offset_fits(cs, j);
    assert(offset(cs, j) == start + (j - p) + 1);
}

proof fn lemma_try_colons(cs: Seq<char>, p: int, start: usize)
    requires
        1 <= p <= cs.len(),
        cs[p - 1] == ':',
        start == offset(cs, p - 1),
        text_len(cs) < usize::MAX,
    ensures
        ({
            let (k, e, q) = spec_try_colons(cs, p, start);
            &&& p <= q <= cs.len()
            &&& k == TokenKind::Unknown ==> e == Some((offset(cs, q) + 1) as usize)
            &&& k != TokenKind::Unknown ==> ends_at_char(cs, e, p, q)
        }),
{
    let j = skip_while(cs, p, CharClass::Colon);
    lemma_skip_while(cs, p, CharClass::Colon);
    assert forall|k: int| p - 1 <= k < j implies (#[trigger] cs[k] as u32) < 0x80 by {
        if k >= p {
            assert(class_holds(CharClass::Colon, cs[k]));
        }
    }
    lemma_ascii_run(cs, p - 1, j);
    lemma_ascii_run(cs, p, j);
    lemma_offset_fits(cs, j);
    assert(offset(cs, j) == start + (j - p) + 1);
}



proof fn lemma_number_sequence(cs: Seq<char>, p: int, base: BaseN, mantissa: bool)
    requires
        0 <= p <= cs.len(),
        text_len(cs) < usize::MAX,
    ensures
        ({
            let (e, f, q) = spec_number_sequence(cs, p, base, mantissa);
            p <= q <= cs.len() && ends_at_char(cs, e, p, q)
        }),
{
    let j = skip_while(cs, p, CharClass::Number(base, mantissa));
    lemma_skip_while(cs, p, CharClass::Number(base, mantissa));
    lemma_offset_fits(cs, j);
    if !mantissa && base == BaseN::Decimal && j < cs.len() && cs[j] == '.' {
        let k = skip_while(cs, j + 1, CharClass::Number(BaseN::Decimal, true));
        lemma_skip_while(cs, j + 1, CharClass::Number(BaseN::Decimal, true));
        lemma_offset_fits(cs, k);
    }
}

proof fn lemma_number(cs: Seq<char>, s: int, c: char)
    requires
        0 <= s < cs.len(),
        text_len(cs) < usize::MAX,
    ensures
        ({
            let (k, e, q) = spec_number(cs, s, c);
            s + 1 <= q <= cs.len() && ends_at_char(cs, e, s + 1, q)
        }),
{
    let k = s + 1;
    if k < cs.len() {
        lemma_number_sequence(cs, k, BaseN::Decimal, false);
        lemma_number_sequence(cs, k + 1, BaseN::Decimal, true);
        lemma_number_sequence(cs, k + 1, BaseN::Bin, false);
        lemma_number_sequence(cs, k + 1, BaseN::Octal, false);
        lemma_number_sequence(cs, k + 1, BaseN::Hex, false);
    }
}

proof fn lemma_consume_n(cs: Seq<char>, p: int, n: nat)
    requires
        0 <= p <= cs.len(),
        text_len(cs) < usize::MAX,
    ensures
        ({
            let (r, k) = spec_consume_n(cs, p, n);
            &&& p <= k <= cs.len()
            &&& r matches Some(sp) ==> p < k && ends_at_char(cs, Some(sp.end), p, k)
        }),
{
    if n > 0 && p < cs.len() {
        let k = if p + n <= cs.len() {
            p + n
        } else {
            cs.len() as int
        };
        lemma_offset_fits(cs, p);
        lemma_offset_fits(cs, k);
        let (r, k2) = spec_consume_n(cs, p, n);
        if k == p + 1 {
            assert(offset(cs, p) == r->0.end);
        } else {
            assert(offset(cs, k) == r->0.end);
        }
    }
}

proof fn lemma_escaped(cs: Seq<char>, q: int)
    requires
        0 <= q <= cs.len(),
        text_len(cs) < usize::MAX,
    ensures
        ({
            let (esc, r) = spec_escaped(cs, q);
            &&& q <= r <= cs.len()
            &&& esc matches Some(x) ==> q < r && ends_at_char(cs, Some(x.1), q, r)
        }),
{
    if q < cs.len() {
        let c = cs[q];
        lemma_offset_fits(cs, q);
        lemma_offset_step(cs, q);
        lemma_offset_fits(cs, q + 1);
        if c == 'x' {
            let j = skip_hex(cs, q + 1, 4);
            lemma_skip_hex(cs, q + 1, 4);
            lemma_offset_fits(cs, j);
            if j == q + 1 {
                assert(offset(cs, q + 1) == offset(cs, q) + 1);
            } else {
                assert(offset(cs, j) == offset(cs, j) as usize);
            }
        } else if c == 'u' || c == 'U' {
            lemma_consume_n(cs, q + 1, 4);
            lemma_consume_n(cs, q + 1, 8);
            assert(offset(cs, q + 1) == offset(cs, q) + 1);
        } else {
            assert(offset(cs, q + 1) == offset(cs, q) + char_width(c));
        }
    }
}

proof fn lemma_char_sequence(cs: Seq<char>, p: int)
    requires
        0 <= p <= cs.len(),
        text_len(cs) < usize::MAX,
    ensures
        ({
            let (r, q) = spec_char_sequence(cs, p);
            &&& p <= q <= cs.len()
            &&& r matches Some(x) ==> p < q && ends_at_char(cs, Some(x.1.end), p, q)
        }),
{
    if p < cs.len() {
        lemma_offset_fits(cs, p);
        lemma_offset_step(cs, p);
        lemma_offset_fits(cs, p + 1);
        if cs[p] == '\\' {
            lemma_escaped(cs, p + 1);
            assert(offset(cs, p + 1) == offset(cs, p) + 1);
        } else {
            assert(offset(cs, p + 1) == offset(cs, p) + char_width(cs[p]));
        }
    }
}

proof fn lemma_char_literal(cs: Seq<char>, p: int)
    requires
        0 <= p <= cs.len(),
        text_len(cs) < usize::MAX,
    ensures
        ({
            let (k, e, q) = spec_char_literal(cs, p);
            p <= q <= cs.len() && ends_at_char(cs, e, p, q)
        }),
{
    lemma_char_sequence(cs, p);
    let (r, q) = spec_char_sequence(cs, p);
    if r is Some && q < cs.len() && cs[q] == '\'' {
        lemma_ascii_step(cs, q);
        assert(offset(cs, q + 1) == offset(cs, q) + 1);
    }
}

proof fn lemma_string_body(cs: Seq<char>, p: int, options: StringOptions, end: Option<usize>, lo: int)
    requires
        0 <= lo <= p <= cs.len(),
        text_len(cs) < usize::MAX,
        ends_at_char(cs, end, lo, p),
    ensures
        ({
            let (t, e, q) = spec_string_body(cs, p, options, end);
            p <= q <= cs.len() && ends_at_char(cs, e, lo, q)
        }),
    decreases cs.len() - p,
{
    if p < cs.len() {
        let c = cs[p];
        lemma_offset_fits(cs, p);
        lemma_offset_step(cs, p);
        lemma_offset_fits(cs, p + 1);
        assert(offset(cs, p + 1) == offset(cs, p) + char_width(c));
        if c == '"' {
            if options.bits & 2 == 2 {
                if p + 1 < cs.len() {
                    if cs[p + 1] == 'm' || cs[p + 1] == 'M' {
                        lemma_ascii_step(cs, p + 1);
                        assert(offset(cs, p + 2) == offset(cs, p) + 2);
                    } else {
                        lemma_string_body(cs, p + 1, options, end, lo);
                    }
                }
            }
        } else if c == '\n' && options.bits & 2 != 2 {
            assert(offset(cs, p) == offset(cs, p) as usize);
        } else if c == '\\' && options.bits & 1 != 1 {
            if p + 1 < cs.len() && cs[p + 1] == '"' {
                lemma_ascii_step(cs, p + 1);
                assert(offset(cs, p + 2) == offset(cs, p) + 2);
                lemma_string_body(cs, p + 2, options, Some((offset(cs, p) + 2) as usize), lo);
            } else {
                lemma_string_body(cs, p + 1, options, Some((offset(cs, p) + 1) as usize), lo);
            }
        } else {
            lemma_string_body(cs, p + 1, options, Some((offset(cs, p) + char_width(c)) as usize), lo);
        }
    }
}

proof fn lemma_word(cs: Seq<char>, s: int)
    requires
        0 <= s < cs.len(),
        text_len(cs) < usize::MAX,
    ensures
        ({
            let (k, e, q) = spec_word(cs, s);
            s + 1 <= q <= cs.len() && ends_at_char(cs, e, s + 1, q)
        }),
{
    let j = skip_while(cs, s + 1, CharClass::XidContinue);
    lemma_skip_while(cs, s + 1, CharClass::XidContinue);
    lemma_offset_fits(cs, j);
    if j < cs.len() && cs[j] == '"' {
        lemma_ascii_step(cs, j);
        assert(offset(cs, j + 1) == offset(cs, j) + 1);
        let word = cs.subrange(s, j);
        if let Some(bits) = string_options_of(word) {
            lemma_string_body(cs, j + 1, StringOptions { bits }, None, j + 1);
        }
    }
}

proof fn lemma_sigil(cs: Seq<char>, p: int, bare: TokenKind)
    requires
        0 <= p <= cs.len(),
        text_len(cs) < usize::MAX,
    ensures
        ({
            let (k, e, q) = spec_sigil(cs, p, bare);
            p <= q <= cs.len() && ends_at_char(cs, e, p, q)
        }),
{
    if p < cs.len() && ident_continue(cs[p]) {
        let j = skip_while(cs, p, CharClass::XidContinue);
        lemma_skip_while(cs, p, CharClass::XidContinue);
        lemma_offset_fits(cs, j);
    }
}



#[verifier::rlimit(50)]
proof fn lemma_match_token(cs: Seq<char>, s: int)
    requires
        0 <= s < cs.len(),
        text_len(cs) < usize::MAX,
    ensures
        ({
            let (k, e, q) = spec_match_token(cs, s);
            &&& s + 1 <= q <= cs.len()
            &&& (ends_at_char(cs, e, s + 1, q) || (k == TokenKind::Unknown && cs[s] == ':' && e == Some(
                (offset(cs, q) + 1) as usize,
            )))
        }),
{
    let c = cs[s];
    let start = offset(cs, s) as usize;
    let p = s + 1;
    lemma_offset_fits(cs, s);
    if c == '.' {
        lemma_try_dots(cs, p, start);
    } else if c == ':' {
        lemma_try_colons(cs, p, start);
    } else if c == '<' {
        lemma_angle(
            cs,
            p,
            '<',
            TokenKind::LessThan,
            TokenKind::LessThanEquals,
            TokenKind::BitwiseLeft,
            TokenKind::BitwiseLeftCompound,
        );
    } else if c == '>' {
        lemma_angle(
            cs,
            p,
            '>',
            TokenKind::GreaterThan,
            TokenKind::GreaterThanEquals,
            TokenKind::BitwiseRight,
            TokenKind::BitwiseRightCompound,
        );
    } else if c == '=' {
        lemma_operator(cs, p, '=', TokenKind::EqualsEquals, Some('>'), TokenKind::FatArrow, TokenKind::Equals);
    } else if c == '!' {
        lemma_operator(cs, p, '=', TokenKind::NotEquals, None, TokenKind::Not, TokenKind::Not);
    } else if c == '&' {
        lemma_operator(cs, p, '=', TokenKind::AndEquals, Some('&'), TokenKind::AndAnd, TokenKind::And);
    } else if c == '^' {
        lemma_operator(cs, p, '=', TokenKind::CaretEquals, None, TokenKind::Caret, TokenKind::Caret);
    } else if c == '~' {
        lemma_operator(cs, p, '=', TokenKind::TildeEquals, None, TokenKind::Tilde, TokenKind::Tilde);
    } else if c == '|' {
        lemma_operator(cs, p, '=', TokenKind::OrEquals, Some('|'), TokenKind::OrOr, TokenKind::Or);
    } else if c == '*' {
        lemma_operator(cs, p, '=', TokenKind::StarEquals, None, TokenKind::Star, TokenKind::Star);
    } else if c == '/' {
        lemma_operator(cs, p, '=', TokenKind::SlashEquals, None, TokenKind::Slash, TokenKind::Slash);
    } else if c == '%' {
        lemma_operator(cs, p, '=', TokenKind::PercentEquals, None, TokenKind::Percent, TokenKind::Percent);
    } else if c == '+' {
        lemma_operator(cs, p, '+', TokenKind::PlusPlus, Some('='), TokenKind::PlusEquals, TokenKind::Plus);
    } else if c == '-' {
        lemma_operator(cs, p, '-', TokenKind::MinusMinus, Some('='), TokenKind::MinusEquals, TokenKind::Minus);
    } else if c == '@' {
        lemma_sigil(cs, p, TokenKind::At);
    } else if c == '$' {
        lemma_sigil(cs, p, TokenKind::Dollar);
    } else if c == '_' {
        lemma_sigil(cs, p, TokenKind::Underscore);
    } else if c == '"' {
        lemma_string_body(cs, p, StringOptions { bits: 0 }, None, p);
    } else if c == '\'' {
        lemma_char_literal(cs, p);
    } else if ident_start(c) {
        lemma_word(cs, s);
    } else if is_digit(c) {
        lemma_number(cs, s, c);
    }
}

/// The next token of a text from a position is the one `spec_next_token`
/// describes.
pub proof fn lemma_next_token_at(cs: Seq<char>, pos: int)
    ensures
        next_token_at(cs, pos) == spec_next_token(cs, pos),
{
}

/// The next token from any position of a text lies within the text: it
/// starts at a character at or after that position and ends where a later
/// character (or the end of the text) starts, no later than the position
/// after the token, which has moved forward. The one exception is the end
/// of an unknown token made of three or more colons, which lies one byte
/// past the colons. The token's line is the number of line feeds before
/// its first character. When no token is left the position is the end of
/// the text.
pub proof fn lemma_next_token_in_text(cs: Seq<char>, pos: int)
    requires
        0 <= pos <= cs.len(),
        text_len(cs) < usize::MAX,
    ensures
        ({
            let (t, p) = next_token_at(cs, pos);
            &&& pos <= p <= cs.len()
            &&& t is None ==> p == cs.len()
            &&& t matches Some(tok) ==> pos < p && exists|i: int, j: int|
                #![trigger offset(cs, i), offset(cs, j)]
                pos <= i < j <= p && offset(cs, i) == tok.span.start && tok.line == newlines(cs.take(i))
                    && (offset(cs, j) == tok.span.end || (tok.kind == TokenKind::Unknown && cs[i] == ':'
                    && offset(cs, j) + 1 == tok.span.end))
        }),
{
    if pos < cs.len() {
        let s = if white_space(cs[pos]) {
            skip_while(cs, pos + 1, CharClass::Whitespace)
        } else {
            pos
        };
        lemma_skip_while(cs, pos + 1, CharClass::Whitespace);
        if s < cs.len() {
            let c = cs[s];
            assert(!white_space(c));
            lemma_match_token(cs, s);
            lemma_offset_fits(cs, s);
            lemma_offset_step(cs, s);
            lemma_offset_fits(cs, s + 1);
            lemma_newlines_bound(cs, s + 1);
            lemma_offset_mono(cs, 0, s + 1);
            let (kind, end, q) = spec_match_token(cs, s);
            let (t, p) = spec_next_token(cs, pos);
            let tok = t->0;
            assert(offset(cs, s) == tok.span.start);
            assert(tok.line == newlines(cs.take(s)));
            match end {
                Some(e) => {
                    if ends_at_char(cs, end, s + 1, q) {
                        let j = choose|j: int| s + 1 <= j <= q && #[trigger] offset(cs, j) == e;
                        assert(offset(cs, j) == tok.span.end);
                    } else {
                        lemma_offset_fits(cs, q);
                        assert(offset(cs, q) + 1 == tok.span.end);
                    }
                },
                None => {
                    assert(offset(cs, s + 1) == tok.span.end);
                },
            }
        }
    }
}

/// Once no token is left, none ever is: from the end the next token is
/// nothing again and the position stays. For a stream that holds no
/// look-ahead, `next` keeps handing out nothing.
pub proof fn lemma_no_token_stays_none(st: StreamState)
    requires
        0 <= st.pos <= st.text.len(),
        text_len(st.text) < usize::MAX,
        st.peeked is None,
    ensures
        next_token_at(st.text, st.pos).0 is None ==> next_token_at(st.text, next_token_at(st.text, st.pos).1)
            == next_token_at(st.text, st.pos),
        stream_next(st).1 is None ==> stream_next(stream_next(st).0) == stream_next(st),
{
    lemma_next_token_in_text(st.text, st.pos);
}


/// Whether a token kind stands for a fixed symbol or keyword.
pub open spec fn has_fixed_text(k: TokenKind) -> bool {
    !(k is StringLiteral || k is NumberLiteral || k is CharacterLiteral || k is Identifier || k is Unknown)
}

/// `kind_text(k)`, lexed alone, is one token of kind `k` that covers it,
/// and nothing follows.
pub open spec fn lexes_back(k: TokenKind) -> bool {
    let cs = kind_text(k);
    &&& next_token_at(cs, 0) == (
        Some(Token { kind: k, span: Span { start: 0, end: cs.len() as usize }, line: 0 }),
        cs.len() as int,
    )
    &&& next_token_at(cs, cs.len() as int).0 is None
}

pub open spec fn is_keyword_kind(k: TokenKind) -> bool {
    k == TokenKind::EnumKeyword || k == TokenKind::StructKeyword || k == TokenKind::ConfigKeyword || k == TokenKind::ConstKeyword || k == TokenKind::FlagsKeyword || k == TokenKind::SelfKeyword || k == TokenKind::FuncKeyword || k == TokenKind::MatchKeyword || k == TokenKind::LetKeyword || k == TokenKind::IfKeyword || k == TokenKind::ElseKeyword || k == TokenKind::WhileKeyword || k == TokenKind::ForKeyword || k == TokenKind::InKeyword || k == TokenKind::SigKeyword || k == TokenKind::NewKeyword || k == TokenKind::ReturnKeyword || k == TokenKind::TrueKeyword || k == TokenKind::NullKeyword || k == TokenKind::FalseKeyword || k == TokenKind::FeatureKeyword || k == TokenKind::ImportKeyword || k == TokenKind::ContinueKeyword || k == TokenKind::WhereKeyword || k == TokenKind::AsKeyword || k == TokenKind::PubKeyword || k == TokenKind::LocalKeyword
}

#[verifier::rlimit(100)]
#[verifier::spinoff_prover]
proof fn lemma_symbol_texts(k: TokenKind)
    requires
        has_fixed_text(k),
        !is_keyword_kind(k),
        k != TokenKind::BitwiseLeftCompound,
        k != TokenKind::BreakKeyword,
    ensures
        lexes_back(k),
{
    reveal_with_fuel(skip_while, 4);
    reveal_with_fuel(crate::chars::text_len, 4);
    reveal_with_fuel(newlines, 2);
    match k {
        TokenKind::CurlyBracketLeft => {
            reveal_strlit("{");
        },
        TokenKind::CurlyBracketRight => {
            reveal_strlit("}");
        },
        TokenKind::ParanthesisLeft => {
            reveal_strlit("(");
        },
        TokenKind::ParanthesisRight => {
            reveal_strlit(")");
        },
        TokenKind::SquareBracketLeft => {
            reveal_strlit("[");
        },
        TokenKind::SquareBracketRight => {
            reveal_strlit("]");
        },
        TokenKind::Dot => {
            reveal_strlit(".");
        },
        TokenKind::DotDot => {
            reveal_strlit("..");
        },
        TokenKind::DotDotDot => {
            reveal_strlit("...");
        },
        TokenKind::Semicolon => {
            reveal_strlit(";");
        },
        TokenKind::Colon => {
            reveal_strlit(":");
        },
        TokenKind::ColonColon => {
            reveal_strlit("::");
        },
        TokenKind::Comma => {
            reveal_strlit(",");
        },
        TokenKind::LessThan => {
            reveal_strlit("<");
        },
        TokenKind::BitwiseLeft => {
            reveal_strlit("<<");
        },
        TokenKind::LessThanEquals => {
            reveal_strlit("<=");
        },
        TokenKind::GreaterThan => {
            reveal_strlit(">");
        },
        TokenKind::BitwiseRight => {
            reveal_strlit(">>");
        },
        TokenKind::BitwiseRightCompound => {
            reveal_strlit(">>=");
        },
        TokenKind::GreaterThanEquals => {
            reveal_strlit(">=");
        },
        TokenKind::Equals => {
            reveal_strlit("=");
        },
        TokenKind::EqualsEquals => {
            reveal_strlit("==");
        },
        TokenKind::Not => {
            reveal_strlit("!");
        },
        TokenKind::NotEquals => {
            reveal_strlit("!=");
        },
        TokenKind::And => {
            reveal_strlit("&");
        },
        TokenKind::AndAnd => {
            reveal_strlit("&&");
        },
        TokenKind::AndEquals => {
            reveal_strlit("&=");
        },
        TokenKind::Caret => {
            reveal_strlit("^");
        },
        TokenKind::CaretEquals => {
            reveal_strlit("^=");
        },
        TokenKind::Tilde => {
            reveal_strlit("~");
        },
        TokenKind::TildeEquals => {
            reveal_strlit("~=");
        },
        TokenKind::Or => {
            reveal_strlit("|");
        },
        TokenKind::OrEquals => {
            reveal_strlit("|=");
        },
        TokenKind::OrOr => {
            reveal_strlit("||");
        },
        TokenKind::Star => {
            reveal_strlit("*");
        },
        TokenKind::StarEquals => {
            reveal_strlit("*=");
        },
        TokenKind::Slash => {
            reveal_strlit("/");
        },
        TokenKind::SlashEquals => {
            reveal_strlit("/=");
        },
        TokenKind::Percent => {
            reveal_strlit("%");
        },
        TokenKind::PercentEquals => {
            reveal_strlit("%=");
        },
        TokenKind::Plus => {
            reveal_strlit("+");
        },
        TokenKind::PlusEquals => {
            reveal_strlit("+=");
        },
        TokenKind::PlusPlus => {
            reveal_strlit("++");
        },
        TokenKind::Minus => {
            reveal_strlit("-");
        },
        TokenKind::MinusEquals => {
            reveal_strlit("-=");
        },
        TokenKind::MinusMinus => {
            reveal_strlit("--");
        },
        TokenKind::At => {
            reveal_strlit("@");
        },
        TokenKind::Dollar => {
            reveal_strlit("$");
        },
        TokenKind::Backslash => {
            reveal_strlit("\\");
        },
        TokenKind::QuestionMark => {
            reveal_strlit("?");
        },
        TokenKind::Underscore => {
            reveal_strlit("_");
        },
        TokenKind::Tag => {
            reveal_strlit("#");
        },
        TokenKind::FatArrow => {
            reveal_strlit("=>");
        },
        _ => {},
    }
}

/// A word of ASCII letters, alone, lexes to one token: its keyword, or an
/// identifier.
proof fn lemma_word_alone(cs: Seq<char>)
    requires
        cs.len() > 0,
        forall|i: int| 0 <= i < cs.len() ==> is_ascii_alpha(#[trigger] cs[i]),
    ensures
        next_token_at(cs, 0) == (
            Some(
                Token {
                    kind: match keyword_of(cs) {
                        Some(k) => k,
                        None => TokenKind::Identifier,
                    },
                    span: Span { start: 0, end: cs.len() as usize },
                    line: 0,
                },
            ),
            cs.len() as int,
        ),
        next_token_at(cs, cs.len() as int).0 is None,
{
    let n = cs.len() as int;
    lemma_skip_while(cs, 1, CharClass::XidContinue);
    let j = skip_while(cs, 1, CharClass::XidContinue);
    if j < n {
        assert(is_ascii_alpha(cs[j]));
    }
    assert(j == n);
    assert(cs.subrange(0, n) =~= cs);
    assert forall|k: int| 0 <= k < n implies (#[trigger] cs[k] as u32) < 0x80 by {
        assert(is_ascii_alpha(cs[k]));
    }
    lemma_ascii_run(cs, 0, n);
    assert(cs.take(0) =~= Seq::<char>::empty());
    assert(offset(cs, 0) == 0);
    lemma_offset_step(cs, 0);
    assert(is_ascii_alpha(cs[0]));
}

proof fn lemma_keyword_texts_0(k: TokenKind)
    requires
        k == TokenKind::EnumKeyword || k == TokenKind::StructKeyword || k == TokenKind::ConfigKeyword || k == TokenKind::ConstKeyword || k == TokenKind::FlagsKeyword || k == TokenKind::SelfKeyword || k == TokenKind::FuncKeyword,
    ensures
        lexes_back(k),
{
    match k {
        TokenKind::EnumKeyword => {
            reveal_strlit("enum");
            assert(keyword_of(kind_text(k)) == Some(k));
        },
        TokenKind::StructKeyword => {
            reveal_strlit("struct");
            assert(keyword_of(kind_text(k)) == Some(k));
        },
        TokenKind::ConfigKeyword => {
            reveal_strlit("config");
            assert(keyword_of(kind_text(k)) == Some(k));
        },
        TokenKind::ConstKeyword => {
            reveal_strlit("const");
            assert(keyword_of(kind_text(k)) == Some(k));
        },
        TokenKind::FlagsKeyword => {
            reveal_strlit("flags");
            assert(keyword_of(kind_text(k)) == Some(k));
        },
        TokenKind::SelfKeyword => {
            reveal_strlit("self");
            assert(keyword_of(kind_text(k)) == Some(k));
        },
        TokenKind::FuncKeyword => {
            reveal_strlit("func");
            assert(keyword_of(kind_text(k)) == Some(k));
        },
        _ => {},
    }
    lemma_word_alone(kind_text(k));
}

proof fn lemma_keyword_texts_1(k: TokenKind)
    requires
        k == TokenKind::MatchKeyword || k == TokenKind::LetKeyword || k == TokenKind::IfKeyword || k == TokenKind::ElseKeyword || k == TokenKind::WhileKeyword || k == TokenKind::ForKeyword || k == TokenKind::InKeyword,
    ensures
        lexes_back(k),
{
    match k {
        TokenKind::MatchKeyword => {
            reveal_strlit("match");
            assert(keyword_of(kind_text(k)) == Some(k));
        },
        TokenKind::LetKeyword => {
            reveal_strlit("let");
            assert(keyword_of(kind_text(k)) == Some(k));
        },
        TokenKind::IfKeyword => {
            reveal_strlit("if");
            assert(keyword_of(kind_text(k)) == Some(k));
        },
        TokenKind::ElseKeyword => {
            reveal_strlit("else");
            assert(keyword_of(kind_text(k)) == Some(k));
        },
        TokenKind::WhileKeyword => {
            reveal_strlit("while");
            assert(keyword_of(kind_text(k)) == Some(k));
        },
        TokenKind::ForKeyword => {
            reveal_strlit("for");
            assert(keyword_of(kind_text(k)) == Some(k));
        },
        TokenKind::InKeyword => {
            reveal_strlit("in");
            assert(keyword_of(kind_text(k)) == Some(k));
        },
        _ => {},
    }
    lemma_word_alone(kind_text(k));
}

proof fn lemma_keyword_texts_2(k: TokenKind)
    requires
        k == TokenKind::SigKeyword || k == TokenKind::NewKeyword || k == TokenKind::ReturnKeyword || k == TokenKind::TrueKeyword || k == TokenKind::NullKeyword || k == TokenKind::FalseKeyword || k == TokenKind::FeatureKeyword,
    ensures
        lexes_back(k),
{
    match k {
        TokenKind::SigKeyword => {
            reveal_strlit("sig");
            assert(keyword_of(kind_text(k)) == Some(k));
        },
        TokenKind::NewKeyword => {
            reveal_strlit("new");
            assert(keyword_of(kind_text(k)) == Some(k));
        },
        TokenKind::ReturnKeyword => {
            reveal_strlit("return");
            assert(keyword_of(kind_text(k)) == Some(k));
        },
        TokenKind::TrueKeyword => {
            reveal_strlit("true");
            assert(keyword_of(kind_text(k)) == Some(k));
        },
        TokenKind::NullKeyword => {
            reveal_strlit("null");
            assert(keyword_of(kind_text(k)) == Some(k));
        },
        TokenKind::FalseKeyword => {
            reveal_strlit("false");
            assert(keyword_of(kind_text(k)) == Some(k));
        },
        TokenKind::FeatureKeyword => {
            reveal_strlit("feature");
            assert(keyword_of(kind_text(k)) == Some(k));
        },
        _ => {},
    }
    lemma_word_alone(kind_text(k));
}

proof fn lemma_keyword_texts_3(k: TokenKind)
    requires
        k == TokenKind::ImportKeyword || k == TokenKind::ContinueKeyword || k == TokenKind::WhereKeyword || k == TokenKind::AsKeyword || k == TokenKind::PubKeyword || k == TokenKind::LocalKeyword,
    ensures
        lexes_back(k),
{
    match k {
        TokenKind::ImportKeyword => {
            reveal_strlit("import");
            assert(keyword_of(kind_text(k)) == Some(k));
        },
        TokenKind::ContinueKeyword => {
            reveal_strlit("continue");
            assert(keyword_of(kind_text(k)) == Some(k));
        },
        TokenKind::WhereKeyword => {
            reveal_strlit("where");
            assert(keyword_of(kind_text(k)) == Some(k));
        },
        TokenKind::AsKeyword => {
            reveal_strlit("as");
            assert(keyword_of(kind_text(k)) == Some(k));
        },
        TokenKind::PubKeyword => {
            reveal_strlit("pub");
            assert(keyword_of(kind_text(k)) == Some(k));
        },
        TokenKind::LocalKeyword => {
            reveal_strlit("local");
            assert(keyword_of(kind_text(k)) == Some(k));
        },
        _ => {},
    }
    lemma_word_alone(kind_text(k));
}

proof fn lemma_keyword_texts(k: TokenKind)
    requires
        is_keyword_kind(k),
    ensures
        lexes_back(k),
{
    if k == TokenKind::EnumKeyword || k == TokenKind::StructKeyword || k == TokenKind::ConfigKeyword || k == TokenKind::ConstKeyword || k == TokenKind::FlagsKeyword || k == TokenKind::SelfKeyword || k == TokenKind::FuncKeyword {
        lemma_keyword_texts_0(k);
    }
    if k == TokenKind::MatchKeyword || k == TokenKind::LetKeyword || k == TokenKind::IfKeyword || k == TokenKind::ElseKeyword || k == TokenKind::WhileKeyword || k == TokenKind::ForKeyword || k == TokenKind::InKeyword {
        lemma_keyword_texts_1(k);
    }
    if k == TokenKind::SigKeyword || k == TokenKind::NewKeyword || k == TokenKind::ReturnKeyword || k == TokenKind::TrueKeyword || k == TokenKind::NullKeyword || k == TokenKind::FalseKeyword || k == TokenKind::FeatureKeyword {
        lemma_keyword_texts_2(k);
    }
    if k == TokenKind::ImportKeyword || k == TokenKind::ContinueKeyword || k == TokenKind::WhereKeyword || k == TokenKind::AsKeyword || k == TokenKind::PubKeyword || k == TokenKind::LocalKeyword {
        lemma_keyword_texts_3(k);
    }
}

/// The text by which a kind with a fixed symbol or keyword is shown lexes
/// back, alone, to exactly one token of that kind covering the whole text.
/// `<<=`, shown as `>>=`, and `break`, shown as `continue`, are the
/// exceptions.
pub proof fn lemma_kind_text_lexes_back(k: TokenKind)
    requires
        has_fixed_text(k),
        k != TokenKind::BitwiseLeftCompound,
        k != TokenKind::BreakKeyword,
    ensures
        lexes_back(k),
{
    if is_keyword_kind(k) {
        lemma_keyword_texts(k);
    } else {
        lemma_symbol_texts(k);
    }
}


/// The line a stream's reader is on: the line feeds before its position.
pub open spec fn stream_line(st: StreamState) -> nat {
    newlines(st.text.take(st.pos))
}

/// Neither `next` nor `peek` moves the reader back, so the line it is on
/// never decreases; the reader stays within the text.
pub proof fn lemma_line_never_decreases(st: StreamState)
    requires
        0 <= st.pos <= st.text.len(),
        text_len(st.text) < usize::MAX,
    ensures
        st.pos <= stream_next(st).0.pos <= st.text.len(),
        st.pos <= stream_peek(st).0.pos <= st.text.len(),
        stream_line(st) <= stream_line(stream_next(st).0),
        stream_line(st) <= stream_line(stream_peek(st).0),
{
    lemma_next_token_in_text(st.text, st.pos);
    let p = next_token_at(st.text, st.pos).1;
    lemma_offset_mono(st.text, st.pos, p);
}

/// The stream after `n` calls of `next`.
pub open spec fn stream_after(st: StreamState, n: nat) -> StreamState
    decreases n,
{
    if n == 0 {
        st
    } else {
        stream_next(stream_after(st, (n - 1) as nat)).0
    }
}

/// Where a stream stands after `n` calls of `next` from the start: it keeps
/// no token back, and either it has moved at least `n` characters or it has
/// reached the end of the text, where no token is left.
spec fn reached_after(text: Seq<char>, n: nat) -> bool {
    let st = stream_after(StreamState { text, pos: 0, peeked: None }, n);
    &&& st.text == text
    &&& st.peeked is None
    &&& 0 <= st.pos <= text.len()
    &&& (n <= st.pos || (st.pos == text.len() && next_token_at(text, st.pos).0 is None))
}

proof fn lemma_reached_after(text: Seq<char>, n: nat)
    requires
        text_len(text) < usize::MAX,
    ensures
        reached_after(text, n),
    decreases n,
{
    if n > 0 {
        let m = (n - 1) as nat;
        lemma_reached_after(text, m);
        let st = stream_after(StreamState { text, pos: 0, peeked: None }, m);
        lemma_next_token_in_text(text, st.pos);
        let p = next_token_at(text, st.pos).1;
        if next_token_at(text, st.pos).0 is None {
            lemma_next_token_in_text(text, p);
        }
    }
}

/// From a fresh stream, the `n`-th call of `next` (counting from 0) hands
/// out a token only while `n` is below the number of characters of the
/// text, so at most that many tokens come out; once it hands out nothing
/// it ends at the end of the text, with every line feed behind it, and
/// every later call hands out nothing. Each token it hands out starts at a
/// character of the text, and its line is the number of line feeds before
/// that character.
pub proof fn lemma_fresh_stream_tokens(text: Seq<char>, n: nat)
    requires
        text_len(text) < usize::MAX,
    ensures
        ({
            let st = stream_after(StreamState { text, pos: 0, peeked: None }, n);
            &&& stream_next(st).1 is Some ==> n < text.len()
            &&& stream_next(st).1 is None ==> stream_next(st).0.pos == text.len()
                && stream_line(stream_next(st).0) == newlines(text)
                && stream_next(stream_next(st).0).1 is None
            &&& stream_next(st).1 matches Some(tok) ==> exists|i: int|
                0 <= i < text.len() && #[trigger] offset(text, i) == tok.span.start && tok.line
                    == newlines(text.take(i))
        }),
{
    lemma_reached_after(text, n);
    let st = stream_after(StreamState { text, pos: 0, peeked: None }, n);
    lemma_next_token_in_text(text, st.pos);
    let p = next_token_at(text, st.pos).1;
    assert(text.take(text.len() as int) =~= text);
    if next_token_at(text, st.pos).0 is None {
        lemma_next_token_in_text(text, p);
    } else {
        let tok = next_token_at(text, st.pos).0->0;
        let (i, j) = choose|i: int, j: int|
            #![trigger offset(text, i), offset(text, j)]
            st.pos <= i < j <= p && offset(text, i) == tok.span.start && tok.line == newlines(text.take(i))
                && (offset(text, j) == tok.span.end || (tok.kind == TokenKind::Unknown && text[i] == ':'
                && offset(text, j) + 1 == tok.span.end));
        assert(offset(text, i) == tok.span.start);
    }
}


/// A text made of `0`, the letter of a base (`x` or `X` for 16, `o` or `O`
/// for 8, `b` or `B` for 2) and a non-empty run of digits of that base
/// lexes to a single number literal of that base covering the whole text,
/// on the first line, and nothing follows.
pub proof fn lemma_prefixed_number_lexes_whole(cs: Seq<char>, base: BaseN, b: nat)
    requires
        3 <= cs.len() < usize::MAX,
        cs[0] == '0',
        (base == BaseN::Hex && b == 16 && (cs[1] == 'x' || cs[1] == 'X')) || (base == BaseN::Octal && b
            == 8 && (cs[1] == 'o' || cs[1] == 'O')) || (base == BaseN::Bin && b == 2 && (cs[1] == 'b'
            || cs[1] == 'B')),
        forall|i: int| 2 <= i < cs.len() ==> is_base_digit(#[trigger] cs[i], b),
    ensures
        next_token_at(cs, 0) == (
            Some(
                Token {
                    kind: TokenKind::NumberLiteral { base, is_floating: false },
                    span: Span { start: 0, end: cs.len() as usize },
                    line: 0,
                },
            ),
            cs.len() as int,
        ),
        next_token_at(cs, cs.len() as int).0 is None,
{
    let n = cs.len() as int;
    let class = CharClass::Number(base, false);
    lemma_skip_while(cs, 2, class);
    let j = skip_while(cs, 2, class);
    if j < n {
        assert(is_base_digit(cs[j], b));
        assert(class_holds(class, cs[j]));
    }
    assert(j == n);
    assert forall|k: int| 0 <= k < n implies (#[trigger] cs[k] as u32) < 0x80 by {
        if k >= 2 {
            assert(is_base_digit(cs[k], b));
        }
    }
    lemma_ascii_run(cs, 0, n);
    assert(cs.take(0) =~= Seq::<char>::empty());
    assert(offset(cs, 0) == 0);
    lemma_offset_step(cs, 0);
    assert(newlines(cs.take(1)) == 0);
    assert(spec_number_sequence(cs, 2, base, false) == (Some(n as usize), false, n));
}

} // verus!
