//! Tokens produced by the lexer, with the byte spans they cover.
use vstd::prelude::*;

verus! {

/// A half-open range of byte offsets into the source text.
#[derive(Clone, Copy, Debug, PartialEq, Eq, Structural)]
pub struct Span {
    pub start: usize,
    pub end: usize,
}

/// Constructors and accessors shared by span-like types.
pub trait SpanImpl: Sized {
    spec fn lo(&self) -> int;

    spec fn hi(&self) -> int;

    fn new(start: usize, end: usize) -> (r: Self)
        ensures
            r.lo() == start,
            r.hi() == end,
    ;

    fn empty_from_start(start: usize) -> (r: Self)
        ensures
            r.lo() == start,
            r.hi() == start,
    ;

    fn new_spanned(start_span: Self, end_span: Self) -> (r: Self)
        ensures
            r.lo() == start_span.lo(),
            r.hi() == end_span.hi(),
    ;

    fn start(&self) -> (r: usize)
        ensures
            r == self.lo(),
    ;

    fn end(&self) -> (r: usize)
        ensures
            r == self.hi(),
    ;

    fn shift_start_right(self, l: usize) -> (r: Self)
        requires
            self.lo() + l <= usize::MAX,
        ensures
            r.lo() == self.lo() + l,
            r.hi() == self.hi(),
    ;

    fn shift_end_left(self, r: usize) -> (res: Self)
        requires
            self.hi() - r >= 0,
        ensures
            res.lo() == self.lo(),
            res.hi() == self.hi() - r,
    ;

    fn is_empty(&self) -> (b: bool)
        ensures
            b == (self.lo() == self.hi()),
    ;
}

impl SpanImpl for Span {
    open spec fn lo(&self) -> int {
        self.start as int
    }

    open spec fn hi(&self) -> int {
        self.end as int
    }

    fn new(start: usize, end: usize) -> (r: Self) {
        Span { start, end }
    }

    fn empty_from_start(start: usize) -> (r: Self) {
        Span { start, end: start }
    }

    fn new_spanned(start_span: Self, end_span: Self) -> (r: Self) {
        Span { start: start_span.start, end: end_span.end }
    }

    fn start(&self) -> (r: usize) {
        self.start
    }

    fn end(&self) -> (r: usize) {
        self.end
    }

    fn shift_start_right(self, l: usize) -> (r: Self) {
        Span { start: self.start + l, end: self.end }
    }

    fn shift_end_left(self, r: usize) -> (res: Self) {
        Span { start: self.start, end: self.end - r }
    }

    fn is_empty(&self) -> (b: bool) {
        self.start == self.end
    }
}

/// A value together with the span of source text it came from.
#[derive(Clone, Copy, Debug, PartialEq, Eq)]
pub struct Spanned<T> {
    pub data: T,
    pub span: Span,
}

impl<T> Spanned<T> {
    pub fn new(data: T, span: Span) -> (r: Self)
        ensures
            r.data == data,
            r.span == span,
    {
        Spanned { data, span }
    }

    pub fn data(&self) -> (r: &T)
        ensures
            *r == self.data,
    {
        &self.data
    }

    pub fn span(&self) -> (r: Span)
        ensures
            r == self.span,
    {
        self.span
    }
}

/// A token: its kind, the bytes it covers and the line it starts on.
#[derive(Clone, Copy, Debug, PartialEq, Eq, Structural)]
pub struct Token {
    pub kind: TokenKind,
    pub span: Span,
    pub line: usize,
}

impl Token {
    pub fn new(kind: TokenKind, span: Span, line: usize) -> (r: Self)
        ensures
            r == (Token { kind, span, line }),
    {
        Token { kind, span, line }
    }

    pub fn kind(&self) -> (r: &TokenKind)
        ensures
            *r == self.kind,
    {
        &self.kind
    }

    /// The lexeme slice handed back is the empty slice at the token's start,
    /// and it is only handed back when the text extends past the token's end;
    /// the token's start must then be the start of a character of the text.
    pub fn lexeme<'s>(&self, str: &'s str) -> (r: Option<&'s str>)
        requires
            str.len() > self.span.end ==> crate::lexer::char_index_of(str@, self.span.start as int) is Some,
        ensures
            r.is_some() == (str.len() > self.span.end),
            r matches Some(s) ==> s@ == Seq::<char>::empty(),
    {
        if str.len() > self.span.end {
            proof {
                reveal_strlit("");
            }
            Some("")
        } else {
            None
        }
    }
}

/// The kinds of tokens of the language.
#[derive(Clone, Copy, Debug, PartialEq, Eq, Structural)]
pub enum TokenKind {
    CurlyBracketLeft,
    CurlyBracketRight,
    ParanthesisLeft,
    ParanthesisRight,
    SquareBracketLeft,
    SquareBracketRight,
    Dot,
    DotDot,
    DotDotDot,
    Semicolon,
    Colon,
    ColonColon,
    Comma,
    LessThan,
    BitwiseLeft,
    BitwiseLeftCompound,
    LessThanEquals,
    GreaterThan,
    BitwiseRight,
    BitwiseRightCompound,
    GreaterThanEquals,
    Equals,
    EqualsEquals,
    Not,
    NotEquals,
    And,
    AndEquals,
    AndAnd,
    Caret,
    CaretEquals,
    Tilde,
    TildeEquals,
    Or,
    OrEquals,
    OrOr,
    Star,
    StarEquals,
    Slash,
    SlashEquals,
    Percent,
    PercentEquals,
    Plus,
    PlusEquals,
    PlusPlus,
    Minus,
    MinusEquals,
    MinusMinus,
    At,
    Dollar,
    Backslash,
    QuestionMark,
    Underscore,
    Tag,
    FatArrow,
    EnumKeyword,
    StructKeyword,
    ConfigKeyword,
    ConstKeyword,
    FlagsKeyword,
    SelfKeyword,
    FuncKeyword,
    MatchKeyword,
    LetKeyword,
    IfKeyword,
    ElseKeyword,
    WhileKeyword,
    ForKeyword,
    InKeyword,
    SigKeyword,
    NewKeyword,
    ReturnKeyword,
    TrueKeyword,
    NullKeyword,
    FalseKeyword,
    FeatureKeyword,
    ImportKeyword,
    ContinueKeyword,
    BreakKeyword,
    WhereKeyword,
    AsKeyword,
    PubKeyword,
    LocalKeyword,
    StringLiteral { options: StringOptions, quote_start: usize, terminated: bool, ending_line: usize },
    NumberLiteral { base: BaseN, is_floating: bool },
    CharacterLiteral { escape_type: CharacterEscapeType, terminated: bool },
    Identifier,
    Unknown,
}

impl TokenKind {
    pub fn is_string_literal(&self) -> (b: bool)
        ensures
            b == (*self is StringLiteral),
    {
        matches!(self, TokenKind::StringLiteral { .. })
    }

    pub fn is_number_literal(&self) -> (b: bool)
        ensures
            b == (*self is NumberLiteral),
    {
        matches!(self, TokenKind::NumberLiteral { .. })
    }

    pub fn is_character_literal(&self) -> (b: bool)
        ensures
            b == (*self is CharacterLiteral),
    {
        matches!(self, TokenKind::CharacterLiteral { .. })
    }
}

/// The text by which a token kind is shown in messages: the symbol or
/// keyword it stands for, or a placeholder in angle brackets for the kinds
/// that carry text of their own. `<<=` is shown as `>>=` and `break` as
/// `continue`.
pub open spec fn kind_text(k: TokenKind) -> Seq<char> {
    match k {
        TokenKind::CurlyBracketLeft => "{"@,
        TokenKind::CurlyBracketRight => "}"@,
        TokenKind::ParanthesisLeft => "("@,
        TokenKind::ParanthesisRight => ")"@,
        TokenKind::SquareBracketLeft => "["@,
        TokenKind::SquareBracketRight => "]"@,
        TokenKind::Dot => "."@,
        TokenKind::DotDot => ".."@,
        TokenKind::DotDotDot => "..."@,
        TokenKind::Semicolon => ";"@,
        TokenKind::Colon => ":"@,
        TokenKind::ColonColon => "::"@,
        TokenKind::Comma => ","@,
        TokenKind::LessThan => "<"@,
        TokenKind::BitwiseLeft => "<<"@,
        TokenKind::BitwiseLeftCompound => ">>="@,
        TokenKind::LessThanEquals => "<="@,
        TokenKind::GreaterThan => ">"@,
        TokenKind::BitwiseRight => ">>"@,
        TokenKind::BitwiseRightCompound => ">>="@,
        TokenKind::GreaterThanEquals => ">="@,
        TokenKind::Equals => "="@,
        TokenKind::EqualsEquals => "=="@,
        TokenKind::Not => "!"@,
        TokenKind::NotEquals => "!="@,
        TokenKind::And => "&"@,
        TokenKind::AndAnd => "&&"@,
        TokenKind::AndEquals => "&="@,
        TokenKind::Caret => "^"@,
        TokenKind::CaretEquals => "^="@,
        TokenKind::Tilde => "~"@,
        TokenKind::TildeEquals => "~="@,
        TokenKind::Or => "|"@,
        TokenKind::OrEquals => "|="@,
        TokenKind::OrOr => "||"@,
        TokenKind::Star => "*"@,
        TokenKind::StarEquals => "*="@,
        TokenKind::Slash => "/"@,
        TokenKind::SlashEquals => "/="@,
        TokenKind::Percent => "%"@,
        TokenKind::PercentEquals => "%="@,
        TokenKind::Plus => "+"@,
        TokenKind::PlusEquals => "+="@,
        TokenKind::PlusPlus => "++"@,
        TokenKind::Minus => "-"@,
        TokenKind::MinusEquals => "-="@,
        TokenKind::MinusMinus => "--"@,
        TokenKind::At => "@"@,
        TokenKind::Dollar => "$"@,
        TokenKind::Backslash => "\\"@,
        TokenKind::QuestionMark => "?"@,
        TokenKind::Underscore => "_"@,
        TokenKind::Tag => "#"@,
        TokenKind::FatArrow => "=>"@,
        TokenKind::EnumKeyword => "enum"@,
        TokenKind::StructKeyword => "struct"@,
        TokenKind::ConfigKeyword => "config"@,
        TokenKind::ConstKeyword => "const"@,
        TokenKind::FlagsKeyword => "flags"@,
        TokenKind::SelfKeyword => "self"@,
        TokenKind::FuncKeyword => "func"@,
        TokenKind::MatchKeyword => "match"@,
        TokenKind::LetKeyword => "let"@,
        TokenKind::IfKeyword => "if"@,
        TokenKind::ElseKeyword => "else"@,
        TokenKind::WhileKeyword => "while"@,
        TokenKind::ForKeyword => "for"@,
        TokenKind::InKeyword => "in"@,
        TokenKind::SigKeyword => "sig"@,
        TokenKind::NewKeyword => "new"@,
        TokenKind::ReturnKeyword => "return"@,
        TokenKind::TrueKeyword => "true"@,
        TokenKind::NullKeyword => "null"@,
        TokenKind::FalseKeyword => "false"@,
        TokenKind::FeatureKeyword => "feature"@,
        TokenKind::ImportKeyword => "import"@,
        TokenKind::ContinueKeyword => "continue"@,
        TokenKind::BreakKeyword => "continue"@,
        TokenKind::WhereKeyword => "where"@,
        TokenKind::AsKeyword => "as"@,
        TokenKind::PubKeyword => "pub"@,
        TokenKind::LocalKeyword => "local"@,
        TokenKind::StringLiteral { .. } => "<STRING>"@,
        TokenKind::NumberLiteral { .. } => "<NUMBER>"@,
        TokenKind::CharacterLiteral { .. } => "<CHARACTER>"@,
        TokenKind::Identifier => "<IDENTIFIER>"@,
        TokenKind::Unknown => "<UNKNOWN>"@,
    }
}

impl TokenKind {
    /// The text by which this kind is shown in messages.
    pub fn to_string(&self) -> (r: String)
        ensures
            r@ == kind_text(*self),
    {
        let text: &str = match self {
            TokenKind::CurlyBracketLeft => "{",
            TokenKind::CurlyBracketRight => "}",
            TokenKind::ParanthesisLeft => "(",
            TokenKind::ParanthesisRight => ")",
            TokenKind::SquareBracketLeft => "[",
            TokenKind::SquareBracketRight => "]",
            TokenKind::Dot => ".",
            TokenKind::DotDot => "..",
            TokenKind::DotDotDot => "...",
            TokenKind::Semicolon => ";",
            TokenKind::Colon => ":",
            TokenKind::ColonColon => "::",
            TokenKind::Comma => ",",
            TokenKind::LessThan => "<",
            TokenKind::BitwiseLeft => "<<",
            TokenKind::BitwiseLeftCompound => ">>=",
            TokenKind::LessThanEquals => "<=",
            TokenKind::GreaterThan => ">",
            TokenKind::BitwiseRight => ">>",
            TokenKind::BitwiseRightCompound => ">>=",
            TokenKind::GreaterThanEquals => ">=",
            TokenKind::Equals => "=",
            TokenKind::EqualsEquals => "==",
            TokenKind::Not => "!",
            TokenKind::NotEquals => "!=",
            TokenKind::And => "&",
            TokenKind::AndAnd => "&&",
            TokenKind::AndEquals => "&=",
            TokenKind::Caret => "^",
            TokenKind::CaretEquals => "^=",
            TokenKind::Tilde => "~",
            TokenKind::TildeEquals => "~=",
            TokenKind::Or => "|",
            TokenKind::OrEquals => "|=",
            TokenKind::OrOr => "||",
            TokenKind::Star => "*",
            TokenKind::StarEquals => "*=",
            TokenKind::Slash => "/",
            TokenKind::SlashEquals => "/=",
            TokenKind::Percent => "%",
            TokenKind::PercentEquals => "%=",
            TokenKind::Plus => "+",
            TokenKind::PlusEquals => "+=",
            TokenKind::PlusPlus => "++",
            TokenKind::Minus => "-",
            TokenKind::MinusEquals => "-=",
            TokenKind::MinusMinus => "--",
            TokenKind::At => "@",
            TokenKind::Dollar => "$",
            TokenKind::Backslash => "\\",
            TokenKind::QuestionMark => "?",
            TokenKind::Underscore => "_",
            TokenKind::Tag => "#",
            TokenKind::FatArrow => "=>",
            TokenKind::EnumKeyword => "enum",
            TokenKind::StructKeyword => "struct",
            TokenKind::ConfigKeyword => "config",
            TokenKind::ConstKeyword => "const",
            TokenKind::FlagsKeyword => "flags",
            TokenKind::SelfKeyword => "self",
            TokenKind::FuncKeyword => "func",
            TokenKind::MatchKeyword => "match",
            TokenKind::LetKeyword => "let",
            TokenKind::IfKeyword => "if",
            TokenKind::ElseKeyword => "else",
            TokenKind::WhileKeyword => "while",
            TokenKind::ForKeyword => "for",
            TokenKind::InKeyword => "in",
            TokenKind::SigKeyword => "sig",
            TokenKind::NewKeyword => "new",
            TokenKind::ReturnKeyword => "return",
            TokenKind::TrueKeyword => "true",
            TokenKind::NullKeyword => "null",
            TokenKind::FalseKeyword => "false",
            TokenKind::FeatureKeyword => "feature",
            TokenKind::ImportKeyword => "import",
            TokenKind::ContinueKeyword => "continue",
            TokenKind::BreakKeyword => "continue",
            TokenKind::WhereKeyword => "where",
            TokenKind::AsKeyword => "as",
            TokenKind::PubKeyword => "pub",
            TokenKind::LocalKeyword => "local",
            TokenKind::StringLiteral { .. } => "<STRING>",
            TokenKind::NumberLiteral { .. } => "<NUMBER>",
            TokenKind::CharacterLiteral { .. } => "<CHARACTER>",
            TokenKind::Identifier => "<IDENTIFIER>",
            TokenKind::Unknown => "<UNKNOWN>",
        };
        String::from_str(text)
    }
}

/// The radix of a number literal.
#[derive(Clone, Copy, Debug, PartialEq, Eq, Structural)]
pub enum BaseN {
    Bin,
    Octal,
    Decimal,
    Hex,
}

impl BaseN {
    pub open spec fn radix(self) -> u32 {
        match self {
            BaseN::Bin => 2,
            BaseN::Octal => 8,
            BaseN::Decimal => 10,
            BaseN::Hex => 16,
        }
    }

    /// The numeric radix of the base.
    pub fn as_radix(&self) -> (r: u32)
        ensures
            r == self.radix(),
    {
        match self {
            BaseN::Bin => 2,
            BaseN::Octal => 8,
            BaseN::Decimal => 10,
            BaseN::Hex => 16,
        }
    }
}

/// How a character literal spells its character.
#[derive(Clone, Copy, Debug, PartialEq, Eq, Structural)]
pub enum CharacterEscapeType {
    Unescaped,
    Simple,
    Hex,
    Utf16,
    Utf32,
}

/// The prefix flags of a string literal (`r` raw, `m` multiline).
#[derive(Clone, Copy, Debug, PartialEq, Eq, Structural)]
pub struct StringOptions {
    pub bits: u8,
}

impl StringOptions {
    /// The `r` flag: escapes are kept as written.
    pub fn rawstr() -> (r: Self)
        ensures
            r.bits == 1,
    {
        StringOptions { bits: 1 }
    }

    /// The `m` flag: the literal may span lines and ends with `"m`.
    pub fn multiline_str() -> (r: Self)
        ensures
            r.bits == 2,
    {
        StringOptions { bits: 2 }
    }

    pub open spec fn has(self, other: StringOptions) -> bool {
        self.bits & other.bits == other.bits
    }

    pub fn empty() -> (r: Self)
        ensures
            r.bits == 0,
    {
        StringOptions { bits: 0 }
    }

    pub fn contains(&self, other: StringOptions) -> (b: bool)
        ensures
            b == self.has(other),
    {
        self.bits & other.bits == other.bits
    }

    pub fn union(self, other: StringOptions) -> (r: Self)
        ensures
            r.bits == self.bits | other.bits,
    {
        StringOptions { bits: self.bits | other.bits }
    }
}

impl vstd::std_specs::ops::BitOrSpecImpl for StringOptions {
    open spec fn obeys_bitor_spec() -> bool {
        true
    }

    open spec fn bitor_req(self, rhs: Self) -> bool {
        true
    }

    open spec fn bitor_spec(self, rhs: Self) -> Self {
        StringOptions { bits: self.bits | rhs.bits }
    }
}

impl core::ops::BitOr for StringOptions {
    type Output = Self;

    fn bitor(self, rhs: Self) -> (r: Self)
        ensures
            r.bits == self.bits | rhs.bits,
    {
        StringOptions { bits: self.bits | rhs.bits }
    }
}

/// The union of two sets of flags contains each of them; every set of
/// flags contains itself and the empty set.
pub proof fn lemma_string_options_union(a: StringOptions, b: StringOptions)
    ensures
        (StringOptions { bits: a.bits | b.bits }).has(a),
        (StringOptions { bits: a.bits | b.bits }).has(b),
        a.has(a),
        a.has((StringOptions { bits: 0 })),
{
    let x = a.bits;
    let y = b.bits;
    assert((x | y) & x == x) by (bit_vector);
    assert((x | y) & y == y) by (bit_vector);
    assert(x & x == x) by (bit_vector);
    assert(x & 0u8 == 0u8) by (bit_vector);
}

/// The flags a string prefix spells, if every character of it is a flag.
pub open spec fn string_options_of(s: Seq<char>) -> Option<u8>
    decreases s.len(),
{
    if s.len() == 0 {
        Some(0u8)
    } else {
        match string_options_of(s.drop_last()) {
            Some(b) => if s.last() == 'r' || s.last() == 'R' {
                Some(b | 1u8)
            } else if s.last() == 'm' || s.last() == 'M' {
                Some(b | 2u8)
            } else {
                None
            },
            None => None,
        }
    }
}

pub proof fn lemma_string_options_none(s: Seq<char>, k: int)
    requires
        0 <= k <= s.len(),
        string_options_of(s.take(k)) is None,
    ensures
        string_options_of(s) is None,
    decreases s.len() - k,
{
    if k < s.len() {
        assert(s.take(k + 1).drop_last() =~= s.take(k));
        lemma_string_options_none(s, k + 1);
    } else {
        assert(s.take(k) =~= s);
    }
}

/// Checks one more character of a string prefix.
pub fn string_option_step(bits: u8, c: char) -> (r: Option<u8>)
    ensures
        r == (if c == 'r' || c == 'R' {
            Some(bits | 1u8)
        } else if c == 'm' || c == 'M' {
            Some(bits | 2u8)
        } else {
            None::<u8>
        }),
{
    if c == 'r' || c == 'R' {
        Some(bits | 1)
    } else if c == 'm' || c == 'M' {
        Some(bits | 2)
    } else {
        None
    }
}

impl StringOptions {
    /// The flags spelled by a string prefix such as `r`, `m` or `RM`; the
    /// prefix itself comes back when one of its characters is no flag.
    pub fn try_from<'c>(value: &'c str) -> (r: Result<StringOptions, &'c str>)
        ensures
            r matches Ok(o) ==> string_options_of(value@) == Some(o.bits),
            r matches Err(v) ==> v == value && string_options_of(value@) is None,
            r is Ok <==> string_options_of(value@) is Some,
    {
        let cs = crate::chars::chars_of(value);
        let mut bits: u8 = 0;
        let mut i: usize = 0;
        proof {
            assert(cs@.take(0) =~= Seq::<char>::empty());
        }
        while i < cs.len()
            invariant
                cs@ == value@,
                i <= cs@.len(),
                string_options_of(cs@.take(i as int)) == Some(bits),
            decreases cs@.len() - i,
        {
            proof {
                assert(cs@.take(i + 1).drop_last() =~= cs@.take(i as int));
            }
            match string_option_step(bits, cs[i]) {
                Some(b) => bits = b,
                None => {
                    proof {
                        lemma_string_options_none(cs@, i + 1);
                    }
                    return Err(value);
                },
            }
            i = i + 1;
        }
        proof {
            assert(cs@.take(i as int) =~= cs@);
        }
        Ok(StringOptions { bits })
    }
}

} // verus!
