//! The tokenizer: from the text of a query to its tokens, or to the
//! diagnostic of the first place where the text is no token.

use crate::diagnostic::Diagnostic;
use crate::diagnostic::DiagnosticLevel;
use crate::diagnostic::DiagnosticView;
use crate::text::byte_offset;
use crate::text::decimal_string;
use crate::text::decimal_text;
use crate::text::digit_of;
use crate::text::digits_between;
use crate::text::is_digit;
use crate::text::is_letter;
use crate::text::is_radix_digit;
use crate::text::is_word_char;
use crate::text::letter;
use crate::text::digit;
use crate::text::lower_text;
use crate::text::lower_text_between;
use crate::text::numeral_value;
use crate::text::parse_numeral;
use crate::text::same_text;
use crate::text::strip_underscores;
use crate::text::text_between;
use crate::text::to_chars;
use crate::text::word_char;
use crate::text::SourceText;
use vstd::prelude::*;

verus! {

/// What a token is: a reserved word, an operator or a punctuation mark, or
/// one of the atoms `Symbol`, `GlobalVariable`, `Integer`, `Float` and
/// `String`.
#[derive(PartialEq, Eq, Clone, Copy, Debug, Structural)]
pub enum TokenKind {
    Do,
    SetKeyword,
    Select,
    Distinct,
    From,
    Group,
    Where,
    Having,
    Limit,
    Offset,
    Order,
    Using,
    By,
    In,
    Is,
    On,
    Not,
    Like,
    Glob,
    Describe,
    Show,
    RegExp,
    Benchmark,
    Join,
    Left,
    Right,
    Cross,
    Inner,
    Outer,
    Case,
    When,
    Then,
    Else,
    End,
    Into,
    Outfile,
    Dumpfile,
    Lines,
    Fields,
    Enclosed,
    Terminated,
    Between,
    DotDot,
    Greater,
    GreaterEqual,
    Less,
    LessEqual,
    Equal,
    Bang,
    BangEqual,
    NullSafeEqual,
    AtRightArrow,
    As,
    With,
    Rollup,
    LeftParen,
    RightParen,
    LeftBracket,
    RightBracket,
    OrOr,
    AndAnd,
    LogicalXor,
    BitwiseNot,
    BitwiseXor,
    BitwiseOr,
    BitwiseAnd,
    BitwiseRightShift,
    BitwiseLeftShift,
    Symbol,
    GlobalVariable,
    Integer,
    Float,
    String,
    Array,
    True,
    False,
    Null,
    Infinity,
    NaN,
    Colon,
    ColonEqual,
    Plus,
    Minus,
    Star,
    Slash,
    Percentage,
    Caret,
    Comma,
    Dot,
    Semicolon,
    Ascending,
    Descending,
}

/// A span of the query text, in bytes: from `start` up to `end`.
#[derive(Copy, Clone, Debug, PartialEq, Eq, Structural)]
pub struct Location {
    pub start: usize,
    pub end: usize,
}

/// A lexical atom of a query: where it stands, what it is, and its text in
/// canonical form.
#[derive(Clone, Debug)]
pub struct Token {
    pub location: Location,
    pub kind: TokenKind,
    pub literal: String,
}

/// The mathematical value of a [`Token`].
pub struct TokenView {
    pub start: int,
    pub end: int,
    pub kind: TokenKind,
    pub literal: Seq<char>,
}

impl View for Token {
    type V = TokenView;

    open spec fn view(&self) -> TokenView {
        TokenView {
            start: self.location.start as int,
            end: self.location.end as int,
            kind: self.kind,
            literal: self.literal@,
        }
    }
}

/// The values of a sequence of tokens.
pub open spec fn token_views(tokens: Seq<Token>) -> Seq<TokenView> {
    tokens.map_values(|t: Token| t@)
}

/// A class of characters that a token is made of.
#[derive(Clone, Copy, Debug)]
pub enum CharClass {
    /// Letters, digits and `_`.
    Word,
    /// The digits of the given base, and `_`.
    Numeral(u8),
    /// Every character but the given one.
    Except(char),
}

/// The character `c` belongs to `class`.
pub open spec fn in_class(c: char, class: CharClass) -> bool {
    match class {
        CharClass::Word => is_word_char(c),
        CharClass::Numeral(radix) => is_radix_digit(c, radix as nat) || c == '_',
        CharClass::Except(stop) => c != stop,
    }
}

/// The first position from `p` on whose character is not in `class`, or the
/// length of `s` where there is none.
pub open spec fn run_end(s: Seq<char>, p: int, class: CharClass) -> int
    decreases s.len() - p,
{
    if 0 <= p < s.len() && in_class(s[p], class) {
        run_end(s, p + 1, class)
    } else {
        p
    }
}

/// The first position from `p` on at which `*/` stands, or, where it stands
/// nowhere, the last position of `s` (`p` itself if that lies before it).
pub open spec fn comment_close(s: Seq<char>, p: int) -> int
    decreases s.len() - p,
{
    if 0 <= p && p + 1 < s.len() && !(s[p] == '*' && s[p + 1] == '/') {
        comment_close(s, p + 1)
    } else {
        p
    }
}

/// The character at `p`, if `s` has one there.
pub open spec fn char_at(s: Seq<char>, p: int) -> Option<char> {
    if 0 <= p < s.len() {
        Some(s[p])
    } else {
        None
    }
}

/// The kind of the word `word`, which is in lower case: that of a reserved
/// word, or `Symbol`.
#[verifier::opaque]
pub open spec fn keyword_kind(word: Seq<char>) -> TokenKind {
    if word == "do"@ {
        TokenKind::Do
    } else if word == "set"@ {
        TokenKind::SetKeyword
    } else if word == "select"@ {
        TokenKind::Select
    } else if word == "distinct"@ {
        TokenKind::Distinct
    } else if word == "from"@ {
        TokenKind::From
    } else if word == "where"@ {
        TokenKind::Where
    } else if word == "limit"@ {
        TokenKind::Limit
    } else if word == "offset"@ {
        TokenKind::Offset
    } else if word == "order"@ {
        TokenKind::Order
    } else if word == "using"@ {
        TokenKind::Using
    } else if word == "case"@ {
        TokenKind::Case
    } else if word == "when"@ {
        TokenKind::When
    } else if word == "then"@ {
        TokenKind::Then
    } else if word == "else"@ {
        TokenKind::Else
    } else if word == "end"@ {
        TokenKind::End
    } else if word == "between"@ {
        TokenKind::Between
    } else if word == "in"@ {
        TokenKind::In
    } else if word == "is"@ {
        TokenKind::Is
    } else if word == "on"@ {
        TokenKind::On
    } else if word == "not"@ {
        TokenKind::Not
    } else if word == "like"@ {
        TokenKind::Like
    } else if word == "glob"@ {
        TokenKind::Glob
    } else if word == "describe"@ {
        TokenKind::Describe
    } else if word == "show"@ {
        TokenKind::Show
    } else if word == "regexp"@ {
        TokenKind::RegExp
    } else if word == "benchmark"@ {
        TokenKind::Benchmark
    } else if word == "into"@ {
        TokenKind::Into
    } else if word == "outfile"@ {
        TokenKind::Outfile
    } else if word == "dumpfile"@ {
        TokenKind::Dumpfile
    } else if word == "lines"@ {
        TokenKind::Lines
    } else if word == "fields"@ {
        TokenKind::Fields
    } else if word == "enclosed"@ {
        TokenKind::Enclosed
    } else if word == "terminated"@ {
        TokenKind::Terminated
    } else if word == "join"@ {
        TokenKind::Join
    } else if word == "left"@ {
        TokenKind::Left
    } else if word == "right"@ {
        TokenKind::Right
    } else if word == "cross"@ {
        TokenKind::Cross
    } else if word == "inner"@ {
        TokenKind::Inner
    } else if word == "outer"@ {
        TokenKind::Outer
    } else if word == "group"@ {
        TokenKind::Group
    } else if word == "by"@ {
        TokenKind::By
    } else if word == "having"@ {
        TokenKind::Having
    } else if word == "with"@ {
        TokenKind::With
    } else if word == "rollup"@ {
        TokenKind::Rollup
    } else if word == "div"@ {
        TokenKind::Slash
    } else if word == "mod"@ {
        TokenKind::Percentage
    } else if word == "or"@ {
        TokenKind::OrOr
    } else if word == "and"@ {
        TokenKind::AndAnd
    } else if word == "xor"@ {
        TokenKind::LogicalXor
    } else if word == "true"@ {
        TokenKind::True
    } else if word == "false"@ {
        TokenKind::False
    } else if word == "null"@ {
        TokenKind::Null
    } else if word == "infinity"@ {
        TokenKind::Infinity
    } else if word == "nan"@ {
        TokenKind::NaN
    } else if word == "as"@ {
        TokenKind::As
    } else if word == "asc"@ {
        TokenKind::Ascending
    } else if word == "desc"@ {
        TokenKind::Descending
    } else if word == "array"@ {
        TokenKind::Array
    } else {
        TokenKind::Symbol
    }}

/// What stands at one position of a query.
pub enum Scan {
    /// A token, and the position behind it.
    Token { token: TokenView, next: int },
    /// Blank space or a comment, and the position behind it.
    Skip { next: int },
    /// Nothing that the language knows.
    Fail { error: DiagnosticView },
}

/// The token of kind `kind` and text `literal` that the characters of `s`
/// from `from` up to `to` make.
pub open spec fn token_at(
    s: Seq<char>,
    from: int,
    to: int,
    kind: TokenKind,
    literal: Seq<char>,
) -> TokenView {
    TokenView { start: byte_offset(s, from) as int, end: byte_offset(s, to) as int, kind, literal }
}

/// The error `message` about the characters of `s` from `from` up to `to`.
pub open spec fn error_at(
    s: Seq<char>,
    from: int,
    to: int,
    message: Seq<char>,
    helps: Seq<Seq<char>>,
) -> DiagnosticView {
    DiagnosticView {
        level: DiagnosticLevel::Error,
        message,
        helps,
        location: Some((byte_offset(s, from) as int, byte_offset(s, to) as int)),
    }
}

/// An identifier or reserved word that began at `start` and goes on at `pos`.
pub open spec fn identifier_scan(s: Seq<char>, start: int, pos: int) -> Scan {
    let end = run_end(s, pos, CharClass::Word);
    let word = lower_text(s.subrange(start, end));
    Scan::Token { token: token_at(s, start, end, keyword_kind(word), word), next: end }
}

/// A global variable whose `@` stands at `pos`, in a token that began at `start`.
pub open spec fn global_variable_scan(s: Seq<char>, start: int, pos: int) -> Scan {
    let first = pos + 1;
    if first < s.len() && is_letter(s[first]) {
        let end = run_end(s, first, CharClass::Word);
        Scan::Token {
            token: token_at(
                s,
                start,
                end,
                TokenKind::GlobalVariable,
                lower_text(s.subrange(start, end)),
            ),
            next: end,
        }
    } else {
        Scan::Fail {
            error: error_at(
                s,
                start,
                first,
                "Global variable name must start with alphabetic character"@,
                seq!["Add at least one alphabetic character after @"@],
            ),
        }
    }
}

/// A decimal number that began at `start` and goes on at `pos`.
pub open spec fn number_scan(s: Seq<char>, start: int, pos: int) -> Scan {
    let whole = run_end(s, pos, CharClass::Numeral(10));
    if whole < s.len() && s[whole] == '.' {
        let end = run_end(s, whole + 1, CharClass::Numeral(10));
        Scan::Token {
            token: token_at(
                s,
                start,
                end,
                TokenKind::Float,
                strip_underscores(s.subrange(start, end)),
            ),
            next: end,
        }
    } else {
        Scan::Token {
            token: token_at(
                s,
                start,
                whole,
                TokenKind::Integer,
                strip_underscores(s.subrange(start, whole)),
            ),
            next: whole,
        }
    }
}

/// The digits `digits` write a number of base `radix` that a token can hold.
pub open spec fn is_numeral(digits: Seq<char>, radix: nat) -> bool {
    &&& digits.len() > 0
    &&& forall|i: int| 0 <= i < digits.len() ==> is_radix_digit(digits[i], radix)
    &&& numeral_value(digits, radix) <= i64::MAX
}

/// The digits of a number of base `radix`, behind its prefix: they began at
/// `start` and go on at `pos`.
pub open spec fn radix_scan(
    s: Seq<char>,
    start: int,
    pos: int,
    radix: u8,
    missing_helps: Seq<Seq<char>>,
    invalid: Seq<char>,
) -> Scan {
    let end = run_end(s, pos, CharClass::Numeral(radix));
    let digits = strip_underscores(s.subrange(start, end));
    if end == pos {
        Scan::Fail {
            error: error_at(
                s,
                start,
                pos,
                "Missing digits after the integer base prefix"@,
                missing_helps,
            ),
        }
    } else if !is_numeral(digits, radix as nat) {
        Scan::Fail { error: error_at(s, start, end, invalid, Seq::empty()) }
    } else {
        Scan::Token {
            token: token_at(
                s,
                start,
                end,
                TokenKind::Integer,
                decimal_text(numeral_value(digits, radix as nat)),
            ),
            next: end,
        }
    }
}

/// The digits of a binary number, behind the prefix `0b`.
pub open spec fn binary_scan(s: Seq<char>, start: int, pos: int) -> Scan {
    radix_scan(
        s,
        start,
        pos,
        2,
        seq![
            "Expect at least one binary digits after the prefix 0b"@,
            "Binary digit mean 0 or 1"@,
        ],
        "Invalid binary number"@,
    )
}

/// The digits of an octal number, behind the prefix `0o`.
pub open spec fn octal_scan(s: Seq<char>, start: int, pos: int) -> Scan {
    radix_scan(
        s,
        start,
        pos,
        8,
        seq![
            "Expect at least one octal digits after the prefix 0o"@,
            "Octal digit mean 0 to 8 number"@,
        ],
        "Invalid octal number"@,
    )
}

/// The digits of a hexadecimal number, behind the prefix `0x`.
pub open spec fn hex_scan(s: Seq<char>, start: int, pos: int) -> Scan {
    radix_scan(
        s,
        start,
        pos,
        16,
        seq![
            "Expect at least one hex digits after the prefix 0x"@,
            "Hex digit mean 0 to 9 and a to f"@,
        ],
        "Invalid hex decimal number"@,
    )
}

/// The number whose first digit stands at `p`: behind `0x`, `0b` or `0o` one
/// of that base, whose span begins behind the prefix; else a decimal one.
pub open spec fn numeral_scan(s: Seq<char>, p: int) -> Scan {
    let d = char_at(s, p + 1);
    if s[p] == '0' && d == Some('x') {
        hex_scan(s, p + 2, p + 2)
    } else if s[p] == '0' && d == Some('b') {
        binary_scan(s, p + 2, p + 2)
    } else if s[p] == '0' && d == Some('o') {
        octal_scan(s, p + 2, p + 2)
    } else {
        number_scan(s, p, p)
    }
}

/// A text between two `quote` characters, the first of which stands at
/// `pos`, in a token that began at `start`.
pub open spec fn quoted_scan(
    s: Seq<char>,
    start: int,
    pos: int,
    quote: char,
    kind: TokenKind,
    message: Seq<char>,
    help: Seq<char>,
) -> Scan {
    let close = run_end(s, pos + 1, CharClass::Except(quote));
    if close >= s.len() {
        Scan::Fail { error: error_at(s, start, close, message, seq![help]) }
    } else {
        Scan::Token {
            token: token_at(s, start, close + 1, kind, s.subrange(start + 1, close)),
            next: close + 1,
        }
    }
}

/// A string between two `'`.
pub open spec fn single_quoted_scan(s: Seq<char>, start: int, pos: int) -> Scan {
    quoted_scan(
        s,
        start,
        pos,
        '\'',
        TokenKind::String,
        "Unterminated single quote string"@,
        "Add ' at the end of the String literal"@,
    )
}

/// A string between two `"`.
pub open spec fn double_quoted_scan(s: Seq<char>, start: int, pos: int) -> Scan {
    quoted_scan(
        s,
        start,
        pos,
        '"',
        TokenKind::String,
        "Unterminated double quote string"@,
        "Add \" at the end of the String literal"@,
    )
}

/// An identifier between two backticks.
pub open spec fn backticks_scan(s: Seq<char>, start: int, pos: int) -> Scan {
    quoted_scan(
        s,
        start,
        pos,
        '`',
        TokenKind::Symbol,
        "Unterminated backticks"@,
        "Add ` at the end of the identifier"@,
    )
}

/// The position behind the comment that begins with `--` at `pos`: behind
/// the end of its line, or the end of `s`.
pub open spec fn line_comment_end(s: Seq<char>, pos: int) -> int {
    let end = run_end(s, pos + 2, CharClass::Except('\n'));
    if end < s.len() {
        end + 1
    } else {
        end
    }
}

/// The comment that begins with `/*` at `pos`.
pub open spec fn block_comment_scan(s: Seq<char>, pos: int) -> Scan {
    let close = comment_close(s, pos + 2);
    if close + 2 > s.len() {
        Scan::Fail {
            error: error_at(
                s,
                close,
                close,
                "C Style comment must end with */"@,
                seq!["Add */ at the end of C Style comments"@],
            ),
        }
    } else {
        Scan::Skip { next: close + 2 }
    }
}

/// The operator or punctuation mark that begins at `p`: its kind, its text
/// and the number of characters that it takes.
#[verifier::opaque]
pub open spec fn operator_at(s: Seq<char>, p: int) -> Option<(TokenKind, Seq<char>, int)> {
    let c = s[p];
    let d = char_at(s, p + 1);
    let e = char_at(s, p + 2);
    if c == '+' {
        Some((TokenKind::Plus, "+"@, 1))
    } else if c == '-' {
        Some((TokenKind::Minus, "-"@, 1))
    } else if c == '*' {
        Some((TokenKind::Star, "*"@, 1))
    } else if c == '/' {
        Some((TokenKind::Slash, "/"@, 1))
    } else if c == '%' {
        Some((TokenKind::Percentage, "%"@, 1))
    } else if c == '^' {
        Some((TokenKind::Caret, "^"@, 1))
    } else if c == '~' {
        Some((TokenKind::BitwiseNot, "~"@, 1))
    } else if c == '|' {
        if d == Some('|') {
            Some((TokenKind::OrOr, "||"@, 2))
        } else {
            Some((TokenKind::BitwiseOr, "|"@, 1))
        }
    } else if c == '&' {
        if d == Some('&') {
            Some((TokenKind::AndAnd, "&&"@, 2))
        } else {
            Some((TokenKind::BitwiseAnd, "&"@, 1))
        }
    } else if c == '#' {
        Some((TokenKind::BitwiseXor, "#"@, 1))
    } else if c == ',' {
        Some((TokenKind::Comma, ","@, 1))
    } else if c == '.' {
        if d == Some('.') {
            Some((TokenKind::DotDot, ".."@, 2))
        } else {
            Some((TokenKind::Dot, "."@, 1))
        }
    } else if c == '>' {
        if d == Some('=') {
            Some((TokenKind::GreaterEqual, ">="@, 2))
        } else if d == Some('>') {
            Some((TokenKind::BitwiseRightShift, ">>"@, 2))
        } else {
            Some((TokenKind::Greater, ">"@, 1))
        }
    } else if c == '<' {
        if d == Some('=') {
            if e == Some('>') {
                Some((TokenKind::NullSafeEqual, "<=>"@, 3))
            } else {
                Some((TokenKind::LessEqual, "<="@, 2))
            }
        } else if d == Some('<') {
            Some((TokenKind::BitwiseLeftShift, "<<"@, 2))
        } else if d == Some('>') {
            Some((TokenKind::BangEqual, "<>"@, 2))
        } else {
            Some((TokenKind::Less, "<"@, 1))
        }
    } else if c == '=' {
        Some((TokenKind::Equal, "="@, 1))
    } else if c == ':' {
        if d == Some('=') {
            Some((TokenKind::ColonEqual, ":="@, 2))
        } else {
            Some((TokenKind::Colon, ":"@, 1))
        }
    } else if c == '!' {
        if d == Some('=') {
            Some((TokenKind::BangEqual, "!="@, 2))
        } else {
            Some((TokenKind::Bang, "!"@, 1))
        }
    } else if c == '(' {
        Some((TokenKind::LeftParen, "("@, 1))
    } else if c == ')' {
        Some((TokenKind::RightParen, ")"@, 1))
    } else if c == '[' {
        Some((TokenKind::LeftBracket, "["@, 1))
    } else if c == ']' {
        Some((TokenKind::RightBracket, "]"@, 1))
    } else if c == ';' {
        Some((TokenKind::Semicolon, ";"@, 1))
    } else {
        None
    }
}

/// Space, tab and line feed.
pub open spec fn is_blank(c: char) -> bool {
    c == ' ' || c == '\n' || c == '\t'
}

/// What stands at position `p` of `s`, where `0 <= p < s.len()`.
///
/// An operator is located by the position of its first character alone:
/// its span is empty. The one exception is `@>`, whose text is `@`.
pub open spec fn scan_at(s: Seq<char>, p: int) -> Scan {
    let c = s[p];
    let d = char_at(s, p + 1);
    if is_letter(c) {
        identifier_scan(s, p, p)
    } else if c == '@' {
        if d == Some('>') {
            Scan::Token {
                token: token_at(s, p, p + 2, TokenKind::AtRightArrow, "@"@),
                next: p + 2,
            }
        } else {
            global_variable_scan(s, p, p)
        }
    } else if is_digit(c) {
        numeral_scan(s, p)
    } else if c == '\'' {
        single_quoted_scan(s, p, p)
    } else if c == '"' {
        double_quoted_scan(s, p, p)
    } else if c == '`' {
        backticks_scan(s, p, p)
    } else if c == '-' && d == Some('-') {
        Scan::Skip { next: line_comment_end(s, p) }
    } else if c == '/' && d == Some('*') {
        block_comment_scan(s, p)
    } else if is_blank(c) {
        Scan::Skip { next: p + 1 }
    } else {
        match operator_at(s, p) {
            Some((kind, literal, width)) => Scan::Token {
                token: token_at(s, p, p, kind, literal),
                next: p + width,
            },
            None => Scan::Fail {
                error: error_at(s, p, p, "Unexpected character"@, Seq::empty()),
            },
        }
    }
}

/// `tokens` in front of what `rest` holds, or the error of `rest`.
pub open spec fn prepend(
    tokens: Seq<TokenView>,
    rest: Result<Seq<TokenView>, DiagnosticView>,
) -> Result<Seq<TokenView>, DiagnosticView> {
    match rest {
        Ok(more) => Ok(tokens + more),
        Err(error) => Err(error),
    }
}

/// The tokens of `s` from position `p` on, or the first error.
pub open spec fn tokens_from(s: Seq<char>, p: int) -> Result<Seq<TokenView>, DiagnosticView>
    decreases s.len() - p,
{
    if p < 0 || p >= s.len() {
        Ok(Seq::empty())
    } else {
        match scan_at(s, p) {
            Scan::Token { token, next } => if p < next <= s.len() {
                prepend(seq![token], tokens_from(s, next))
            } else {
                Ok(Seq::empty())
            },
            Scan::Skip { next } => if p < next <= s.len() {
                tokens_from(s, next)
            } else {
                Ok(Seq::empty())
            },
            Scan::Fail { error } => Err(error),
        }
    }
}

/// The tokens of the query `s`, or the first error in it.
pub open spec fn tokens_of(s: Seq<char>) -> Result<Seq<TokenView>, DiagnosticView> {
    tokens_from(s, 0)
}

/// `result` and the position `next` that was reached with it say what `scan` says.
pub open spec fn is_scan(result: Result<Token, Box<Diagnostic>>, next: int, scan: Scan) -> bool {
    match result {
        Ok(token) => scan == (Scan::Token { token: token@, next }),
        Err(error) => scan == (Scan::Fail { error: error@ }),
    }
}

/// A run of characters of one class lies inside the text, holds only
/// characters of the class, and cannot be extended.
pub proof fn lemma_run_end(s: Seq<char>, p: int, class: CharClass)
    requires
        0 <= p <= s.len(),
    ensures
        p <= run_end(s, p, class) <= s.len(),
        forall|i: int| p <= i < run_end(s, p, class) ==> in_class(#[trigger] s[i], class),
        run_end(s, p, class) < s.len() ==> !in_class(s[run_end(s, p, class)], class),
        p < s.len() && in_class(s[p], class) ==> p < run_end(s, p, class),
    decreases s.len() - p,
{
    if p < s.len() && in_class(s[p], class) {
        lemma_run_end(s, p + 1, class);
    }
}

/// The end of the run of characters of `class` that begins at `from`.
pub fn scan_run(chars: &[char], from: usize, class: CharClass) -> (end: usize)
    requires
        from <= chars@.len(),
    ensures
        end == run_end(chars@, from as int, class),
        from <= end <= chars@.len(),
{
    let mut pos: usize = from;
    loop
        invariant
            from <= pos <= chars@.len(),
            run_end(chars@, from as int, class) == run_end(chars@, pos as int, class),
        ensures
            from <= pos <= chars@.len(),
            pos == run_end(chars@, from as int, class),
        decreases chars@.len() - pos,
    {
        if pos >= chars.len() {
            break;
        }
        let c = chars[pos];
        let inside = match class {
            CharClass::Word => word_char(c),
            CharClass::Numeral(radix) => digit_of(c) < radix || c == '_',
            CharClass::Except(stop) => c != stop,
        };
        if !inside {
            break;
        }
        pos += 1;
    }
    pos
}

/// The span in bytes of the characters of `source` from `from` up to `to`.
pub fn locate(source: &SourceText, from: usize, to: usize) -> (location: Location)
    requires
        source.wf(),
        from <= source.chars@.len(),
        to <= source.chars@.len(),
    ensures
        location.start == byte_offset(source.chars@, from as int),
        location.end == byte_offset(source.chars@, to as int),
{
    Location { start: source.offsets[from], end: source.offsets[to] }
}

/// The kind of the word `literal`, whatever the case of its letters: that
/// of a reserved word, or `Symbol`.
pub fn resolve_symbol_kind(literal: String) -> (kind: TokenKind)
    ensures
        kind == keyword_kind(lower_text(literal@)),
{
    let chars = to_chars(literal.as_str());
    let lowered = lower_text_between(chars.as_slice(), 0, chars.len());
    assert(chars@.subrange(0, chars@.len() as int) =~= chars@);
    keyword_of(lowered.as_str())
}

/// The kind of the word `word`, which is in lower case.
fn keyword_of(word: &str) -> (kind: TokenKind)
    ensures
        kind == keyword_kind(word@),
{
    reveal(keyword_kind);
    if same_text(word, "do") {
        TokenKind::Do
    } else if same_text(word, "set") {
        TokenKind::SetKeyword
    } else if same_text(word, "select") {
        TokenKind::Select
    } else if same_text(word, "distinct") {
        TokenKind::Distinct
    } else if same_text(word, "from") {
        TokenKind::From
    } else if same_text(word, "where") {
        TokenKind::Where
    } else if same_text(word, "limit") {
        TokenKind::Limit
    } else if same_text(word, "offset") {
        TokenKind::Offset
    } else if same_text(word, "order") {
        TokenKind::Order
    } else if same_text(word, "using") {
        TokenKind::Using
    } else if same_text(word, "case") {
        TokenKind::Case
    } else if same_text(word, "when") {
        TokenKind::When
    } else if same_text(word, "then") {
        TokenKind::Then
    } else if same_text(word, "else") {
        TokenKind::Else
    } else if same_text(word, "end") {
        TokenKind::End
    } else if same_text(word, "between") {
        TokenKind::Between
    } else if same_text(word, "in") {
        TokenKind::In
    } else if same_text(word, "is") {
        TokenKind::Is
    } else if same_text(word, "on") {
        TokenKind::On
    } else if same_text(word, "not") {
        TokenKind::Not
    } else if same_text(word, "like") {
        TokenKind::Like
    } else if same_text(word, "glob") {
        TokenKind::Glob
    } else if same_text(word, "describe") {
        TokenKind::Describe
    } else if same_text(word, "show") {
        TokenKind::Show
    } else if same_text(word, "regexp") {
        TokenKind::RegExp
    } else if same_text(word, "benchmark") {
        TokenKind::Benchmark
    } else if same_text(word, "into") {
        TokenKind::Into
    } else if same_text(word, "outfile") {
        TokenKind::Outfile
    } else if same_text(word, "dumpfile") {
        TokenKind::Dumpfile
    } else if same_text(word, "lines") {
        TokenKind::Lines
    } else if same_text(word, "fields") {
        TokenKind::Fields
    } else if same_text(word, "enclosed") {
        TokenKind::Enclosed
    } else if same_text(word, "terminated") {
        TokenKind::Terminated
    } else if same_text(word, "join") {
        TokenKind::Join
    } else if same_text(word, "left") {
        TokenKind::Left
    } else if same_text(word, "right") {
        TokenKind::Right
    } else if same_text(word, "cross") {
        TokenKind::Cross
    } else if same_text(word, "inner") {
        TokenKind::Inner
    } else if same_text(word, "outer") {
        TokenKind::Outer
    } else if same_text(word, "group") {
        TokenKind::Group
    } else if same_text(word, "by") {
        TokenKind::By
    } else if same_text(word, "having") {
        TokenKind::Having
    } else if same_text(word, "with") {
        TokenKind::With
    } else if same_text(word, "rollup") {
        TokenKind::Rollup
    } else if same_text(word, "div") {
        TokenKind::Slash
    } else if same_text(word, "mod") {
        TokenKind::Percentage
    } else if same_text(word, "or") {
        TokenKind::OrOr
    } else if same_text(word, "and") {
        TokenKind::AndAnd
    } else if same_text(word, "xor") {
        TokenKind::LogicalXor
    } else if same_text(word, "true") {
        TokenKind::True
    } else if same_text(word, "false") {
        TokenKind::False
    } else if same_text(word, "null") {
        TokenKind::Null
    } else if same_text(word, "infinity") {
        TokenKind::Infinity
    } else if same_text(word, "nan") {
        TokenKind::NaN
    } else if same_text(word, "as") {
        TokenKind::As
    } else if same_text(word, "asc") {
        TokenKind::Ascending
    } else if same_text(word, "desc") {
        TokenKind::Descending
    } else if same_text(word, "array") {
        TokenKind::Array
    } else {
        TokenKind::Symbol
    }}

/// The identifier or reserved word that began at `start` and goes on at
/// `pos`: it ends where the letters, digits and underscores end, and its
/// text is in lower case.
pub fn consume_identifier(source: &SourceText, pos: &mut usize, start: &mut usize) -> (token: Token)
    requires
        source.wf(),
        *old(start) <= *old(pos) <= source.chars@.len(),
    ensures
        identifier_scan(source.chars@, *old(start) as int, *old(pos) as int) == (Scan::Token {
            token: token@,
            next: *final(pos) as int,
        }),
        *old(pos) <= *final(pos) <= source.chars@.len(),
        *final(start) == *old(start),
{
    *pos = scan_run(source.chars.as_slice(), *pos, CharClass::Word);
    let literal = lower_text_between(source.chars.as_slice(), *start, *pos);
    let location = locate(source, *start, *pos);
    Token { location, kind: keyword_of(literal.as_str()), literal }
}

/// The global variable whose `@` stands at `pos`. A letter must follow.
pub fn consume_global_variable_name(source: &SourceText, pos: &mut usize, start: &mut usize) -> (result:
    Result<Token, Box<Diagnostic>>)
    requires
        source.wf(),
        *old(start) <= *old(pos) < source.chars@.len(),
    ensures
        is_scan(
            result,
            *final(pos) as int,
            global_variable_scan(source.chars@, *old(start) as int, *old(pos) as int),
        ),
        *old(pos) < *final(pos) <= source.chars@.len(),
        *final(start) == *old(start),
        result is Err ==> *final(pos) == *old(pos) + 1,
{
    let len: usize = source.chars.len();
    *pos += 1;
    if *pos >= len || !letter(source.chars[*pos]) {
        let location = locate(source, *start, *pos);
        let error = Diagnostic::error("Global variable name must start with alphabetic character")
            .add_help("Add at least one alphabetic character after @").with_location_span(
            location.start,
            location.end,
        );
        assert(error@.helps =~= seq!["Add at least one alphabetic character after @"@]);
        return Err(error.as_boxed());
    }
    *pos = scan_run(source.chars.as_slice(), *pos, CharClass::Word);
    let literal = lower_text_between(source.chars.as_slice(), *start, *pos);
    let location = locate(source, *start, *pos);
    Ok(Token { location, kind: TokenKind::GlobalVariable, literal })
}

/// The text of the digits `digits`.
fn text_of(digits: &Vec<char>) -> (t: String)
    ensures
        t@ == digits@,
{
    let t = text_between(digits.as_slice(), 0, digits.len());
    assert(digits@.subrange(0, digits@.len() as int) =~= digits@);
    t
}

/// The decimal number that began at `start` and goes on at `pos`: digits
/// and underscores, then, where a `.` follows, the `.` and further digits
/// and underscores. Its text holds no underscore. It never fails.
pub fn consume_number(source: &SourceText, pos: &mut usize, start: &mut usize) -> (result: Result<
    Token,
    Box<Diagnostic>,
>)
    requires
        source.wf(),
        *old(start) <= *old(pos) <= source.chars@.len(),
    ensures
        result is Ok,
        is_scan(
            result,
            *final(pos) as int,
            number_scan(source.chars@, *old(start) as int, *old(pos) as int),
        ),
        *old(pos) <= *final(pos) <= source.chars@.len(),
        *final(start) == *old(start),
{
    let mut kind = TokenKind::Integer;
    *pos = scan_run(source.chars.as_slice(), *pos, CharClass::Numeral(10));
    if *pos < source.chars.len() && source.chars[*pos] == '.' {
        kind = TokenKind::Float;
        *pos = scan_run(source.chars.as_slice(), *pos + 1, CharClass::Numeral(10));
    }
    let digits = digits_between(source.chars.as_slice(), *start, *pos);
    let location = locate(source, *start, *pos);
    Ok(Token { location, kind, literal: text_of(&digits) })
}

/// The digits of a number of base `radix`, behind its prefix.
fn consume_radix_number(
    source: &SourceText,
    pos: &mut usize,
    start: &mut usize,
    radix: u8,
    first_help: &str,
    second_help: &str,
    invalid: &str,
) -> (result: Result<Token, Box<Diagnostic>>)
    requires
        source.wf(),
        *old(start) <= *old(pos) <= source.chars@.len(),
        2 <= radix <= 16,
    ensures
        is_scan(
            result,
            *final(pos) as int,
            radix_scan(
                source.chars@,
                *old(start) as int,
                *old(pos) as int,
                radix,
                seq![first_help@, second_help@],
                invalid@,
            ),
        ),
        *old(pos) <= *final(pos) <= source.chars@.len(),
        *final(start) == *old(start),
        *final(pos) == run_end(source.chars@, *old(pos) as int, CharClass::Numeral(radix)),
{
    let end = scan_run(source.chars.as_slice(), *pos, CharClass::Numeral(radix));
    if end == *pos {
        let location = locate(source, *start, *pos);
        let error = Diagnostic::error("Missing digits after the integer base prefix").add_help(
            first_help,
        ).add_help(second_help).with_location_span(location.start, location.end);
        assert(error@.helps =~= seq![first_help@, second_help@]);
        return Err(error.as_boxed());
    }
    *pos = end;
    let digits = digits_between(source.chars.as_slice(), *start, *pos);
    let location = locate(source, *start, *pos);
    if digits.len() == 0 {
        return Err(
            Diagnostic::error(invalid).with_location_span(location.start, location.end).as_boxed(),
        );
    }
    match parse_numeral(digits.as_slice(), radix) {
        Some(value) => {
            let literal = decimal_string(value as u64);
            Ok(Token { location, kind: TokenKind::Integer, literal })
        },
        None => Err(
            Diagnostic::error(invalid).with_location_span(location.start, location.end).as_boxed(),
        ),
    }
}

/// The binary number whose digits begin at `pos`, behind the prefix `0b`:
/// its text is the number in decimal. Whether it is one or not, `pos` ends
/// behind the digits and underscores, and so stays where none stands.
pub fn consume_binary_number(source: &SourceText, pos: &mut usize, start: &mut usize) -> (result:
    Result<Token, Box<Diagnostic>>)
    requires
        source.wf(),
        *old(start) <= *old(pos) <= source.chars@.len(),
    ensures
        is_scan(
            result,
            *final(pos) as int,
            binary_scan(source.chars@, *old(start) as int, *old(pos) as int),
        ),
        *old(pos) <= *final(pos) <= source.chars@.len(),
        *final(start) == *old(start),
        *final(pos) == run_end(source.chars@, *old(pos) as int, CharClass::Numeral(2)),
{
    consume_radix_number(
        source,
        pos,
        start,
        2,
        "Expect at least one binary digits after the prefix 0b",
        "Binary digit mean 0 or 1",
        "Invalid binary number",
    )
}

/// The octal number whose digits begin at `pos`, behind the prefix `0o`:
/// its text is the number in decimal. Whether it is one or not, `pos` ends
/// behind the digits and underscores, and so stays where none stands.
pub fn consume_octal_number(source: &SourceText, pos: &mut usize, start: &mut usize) -> (result:
    Result<Token, Box<Diagnostic>>)
    requires
        source.wf(),
        *old(start) <= *old(pos) <= source.chars@.len(),
    ensures
        is_scan(
            result,
            *final(pos) as int,
            octal_scan(source.chars@, *old(start) as int, *old(pos) as int),
        ),
        *old(pos) <= *final(pos) <= source.chars@.len(),
        *final(start) == *old(start),
        *final(pos) == run_end(source.chars@, *old(pos) as int, CharClass::Numeral(8)),
{
    consume_radix_number(
        source,
        pos,
        start,
        8,
        "Expect at least one octal digits after the prefix 0o",
        "Octal digit mean 0 to 8 number",
        "Invalid octal number",
    )
}

/// The hexadecimal number whose digits begin at `pos`, behind the prefix
/// `0x`: its text is the number in decimal. Whether it is one or not, `pos`
/// ends behind the digits and underscores, and so stays where none stands.
pub fn consume_hex_number(source: &SourceText, pos: &mut usize, start: &mut usize) -> (result:
    Result<Token, Box<Diagnostic>>)
    requires
        source.wf(),
        *old(start) <= *old(pos) <= source.chars@.len(),
    ensures
        is_scan(
            result,
            *final(pos) as int,
            hex_scan(source.chars@, *old(start) as int, *old(pos) as int),
        ),
        *old(pos) <= *final(pos) <= source.chars@.len(),
        *final(start) == *old(start),
        *final(pos) == run_end(source.chars@, *old(pos) as int, CharClass::Numeral(16)),
{
    consume_radix_number(
        source,
        pos,
        start,
        16,
        "Expect at least one hex digits after the prefix 0x",
        "Hex digit mean 0 to 9 and a to f",
        "Invalid hex decimal number",
    )
}

/// The text between the `quote` at `pos` and the next one.
fn consume_quoted(
    source: &SourceText,
    pos: &mut usize,
    start: &mut usize,
    quote: char,
    kind: TokenKind,
    message: &str,
    help: &str,
) -> (result: Result<Token, Box<Diagnostic>>)
    requires
        source.wf(),
        *old(start) <= *old(pos) < source.chars@.len(),
    ensures
        is_scan(
            result,
            *final(pos) as int,
            quoted_scan(
                source.chars@,
                *old(start) as int,
                *old(pos) as int,
                quote,
                kind,
                message@,
                help@,
            ),
        ),
        *old(pos) < *final(pos) <= source.chars@.len(),
        *final(start) == *old(start),
        result is Err ==> *final(pos) == source.chars@.len(),
{
    let len: usize = source.chars.len();
    *pos = scan_run(source.chars.as_slice(), *pos + 1, CharClass::Except(quote));
    if *pos >= len {
        let location = locate(source, *start, *pos);
        let error = Diagnostic::error(message).add_help(help).with_location_span(
            location.start,
            location.end,
        );
        assert(error@.helps =~= seq![help@]);
        return Err(error.as_boxed());
    }
    *pos += 1;
    let literal = text_between(source.chars.as_slice(), *start + 1, *pos - 1);
    let location = locate(source, *start, *pos);
    Ok(Token { location, kind, literal })
}

/// The string whose opening `'` stands at `pos`: it ends at the next `'`,
/// and its text is what stands between the two.
pub fn consume_string_in_single_quotes(
    source: &SourceText,
    pos: &mut usize,
    start: &mut usize,
) -> (result: Result<Token, Box<Diagnostic>>)
    requires
        source.wf(),
        *old(start) <= *old(pos) < source.chars@.len(),
    ensures
        is_scan(
            result,
            *final(pos) as int,
            single_quoted_scan(source.chars@, *old(start) as int, *old(pos) as int),
        ),
        *old(pos) < *final(pos) <= source.chars@.len(),
        *final(start) == *old(start),
        result is Err ==> *final(pos) == source.chars@.len(),
{
    consume_quoted(
        source,
        pos,
        start,
        '\'',
        TokenKind::String,
        "Unterminated single quote string",
        "Add ' at the end of the String literal",
    )
}

/// The string whose opening `"` stands at `pos`: it ends at the next `"`,
/// and its text is what stands between the two.
pub fn consume_string_in_double_quotes(
    source: &SourceText,
    pos: &mut usize,
    start: &mut usize,
) -> (result: Result<Token, Box<Diagnostic>>)
    requires
        source.wf(),
        *old(start) <= *old(pos) < source.chars@.len(),
    ensures
        is_scan(
            result,
            *final(pos) as int,
            double_quoted_scan(source.chars@, *old(start) as int, *old(pos) as int),
        ),
        *old(pos) < *final(pos) <= source.chars@.len(),
        *final(start) == *old(start),
        result is Err ==> *final(pos) == source.chars@.len(),
{
    consume_quoted(
        source,
        pos,
        start,
        '"',
        TokenKind::String,
        "Unterminated double quote string",
        "Add \" at the end of the String literal",
    )
}

/// The identifier whose opening backtick stands at `pos`: it ends at the
/// next backtick, and its text is what stands between the two, unchanged.
pub fn consume_backticks_identifier(
    source: &SourceText,
    pos: &mut usize,
    start: &mut usize,
) -> (result: Result<Token, Box<Diagnostic>>)
    requires
        source.wf(),
        *old(start) <= *old(pos) < source.chars@.len(),
    ensures
        is_scan(
            result,
            *final(pos) as int,
            backticks_scan(source.chars@, *old(start) as int, *old(pos) as int),
        ),
        *old(pos) < *final(pos) <= source.chars@.len(),
        *final(start) == *old(start),
        result is Err ==> *final(pos) == source.chars@.len(),
{
    consume_quoted(
        source,
        pos,
        start,
        '`',
        TokenKind::Symbol,
        "Unterminated backticks",
        "Add ` at the end of the identifier",
    )
}

/// Moves `pos` from the `--` of a comment to behind the end of its line.
pub fn ignore_single_line_comment(source: &SourceText, pos: &mut usize)
    requires
        *old(pos) + 2 <= source.chars@.len(),
    ensures
        *final(pos) == line_comment_end(source.chars@, *old(pos) as int),
        *old(pos) + 2 <= *final(pos) <= source.chars@.len(),
{
    let len: usize = source.chars.len();
    *pos = scan_run(source.chars.as_slice(), *pos + 2, CharClass::Except('\n'));
    if *pos < len {
        *pos += 1;
    }
}

/// Moves `pos` from the `/*` of a comment to behind the first `*/` that
/// follows; fails where none follows.
pub fn ignore_c_style_comment(source: &SourceText, pos: &mut usize) -> (result: Result<
    (),
    Box<Diagnostic>,
>)
    requires
        source.wf(),
        *old(pos) + 2 <= source.chars@.len(),
    ensures
        match result {
            Ok(_) => block_comment_scan(source.chars@, *old(pos) as int) == (Scan::Skip {
                next: *final(pos) as int,
            }),
            Err(error) => block_comment_scan(source.chars@, *old(pos) as int) == (Scan::Fail {
                error: error@,
            }),
        },
        *old(pos) + 2 <= *final(pos) <= source.chars@.len(),
        result is Err ==> *final(pos) == comment_close(source.chars@, *old(pos) + 2),
{
    let len: usize = source.chars.len();
    let ghost begin = *pos + 2;
    *pos += 2;
    loop
        invariant
            len == source.chars@.len(),
            2 <= begin <= *pos <= len,
            comment_close(source.chars@, begin as int) == comment_close(
                source.chars@,
                *pos as int,
            ),
        ensures
            2 <= begin <= *pos <= len,
            *pos == comment_close(source.chars@, begin as int),
        decreases len - *pos,
    {
        if *pos >= len - 1 {
            break;
        }
        if source.chars[*pos] == '*' && source.chars[*pos + 1] == '/' {
            break;
        }
        *pos += 1;
    }
    if *pos > len - 2 {
        let location = locate(source, *pos, *pos);
        let error = Diagnostic::error("C Style comment must end with */").add_help(
            "Add */ at the end of C Style comments",
        ).with_location_span(location.start, location.end);
        assert(error@.helps =~= seq!["Add */ at the end of C Style comments"@]);
        return Err(error.as_boxed());
    }
    *pos += 2;
    Ok(())
}

/// The token of an operator that stands at `at`.
fn operator_token(source: &SourceText, at: usize, kind: TokenKind, literal: &str) -> (token: Token)
    requires
        source.wf(),
        at <= source.chars@.len(),
    ensures
        token@ == token_at(source.chars@, at as int, at as int, kind, literal@),
{
    Token { location: locate(source, at, at), kind, literal: literal.to_owned() }
}

/// The operator or punctuation mark that begins at `pos`, if one does: the
/// longest that the characters there make.
pub fn consume_operator(source: &SourceText, pos: &mut usize) -> (result: Option<Token>)
    requires
        source.wf(),
        *old(pos) < source.chars@.len(),
    ensures
        match operator_at(source.chars@, *old(pos) as int) {
            Some((kind, literal, width)) => {
                &&& result matches Some(token)
                &&& token@ == token_at(
                    source.chars@,
                    *old(pos) as int,
                    *old(pos) as int,
                    kind,
                    literal,
                )
                &&& *final(pos) == *old(pos) + width
                &&& 1 <= width
            },
            None => result is None && *final(pos) == *old(pos),
        },
        *final(pos) <= source.chars@.len(),
{
    reveal(operator_at);
    let at: usize = *pos;
    let len: usize = source.chars.len();
    let c = source.chars[at];
    let second = at + 1 < len;
    let d = if second {
        source.chars[at + 1]
    } else {
        c
    };
    let third = second && at + 2 < len && source.chars[at + 2] == '>';
    let (kind, literal, width): (TokenKind, &str, usize) = if c == '+' {
        (TokenKind::Plus, "+", 1)
    } else if c == '-' {
        (TokenKind::Minus, "-", 1)
    } else if c == '*' {
        (TokenKind::Star, "*", 1)
    } else if c == '/' {
        (TokenKind::Slash, "/", 1)
    } else if c == '%' {
        (TokenKind::Percentage, "%", 1)
    } else if c == '^' {
        (TokenKind::Caret, "^", 1)
    } else if c == '~' {
        (TokenKind::BitwiseNot, "~", 1)
    } else if c == '|' {
        if second && d == '|' {
            (TokenKind::OrOr, "||", 2)
        } else {
            (TokenKind::BitwiseOr, "|", 1)
        }
    } else if c == '&' {
        if second && d == '&' {
            (TokenKind::AndAnd, "&&", 2)
        } else {
            (TokenKind::BitwiseAnd, "&", 1)
        }
    } else if c == '#' {
        (TokenKind::BitwiseXor, "#", 1)
    } else if c == ',' {
        (TokenKind::Comma, ",", 1)
    } else if c == '.' {
        if second && d == '.' {
            (TokenKind::DotDot, "..", 2)
        } else {
            (TokenKind::Dot, ".", 1)
        }
    } else if c == '>' {
        if second && d == '=' {
            (TokenKind::GreaterEqual, ">=", 2)
        } else if second && d == '>' {
            (TokenKind::BitwiseRightShift, ">>", 2)
        } else {
            (TokenKind::Greater, ">", 1)
        }
    } else if c == '<' {
        if second && d == '=' {
            if third {
                (TokenKind::NullSafeEqual, "<=>", 3)
            } else {
                (TokenKind::LessEqual, "<=", 2)
            }
        } else if second && d == '<' {
            (TokenKind::BitwiseLeftShift, "<<", 2)
        } else if second && d == '>' {
            (TokenKind::BangEqual, "<>", 2)
        } else {
            (TokenKind::Less, "<", 1)
        }
    } else if c == '=' {
        (TokenKind::Equal, "=", 1)
    } else if c == ':' {
        if second && d == '=' {
            (TokenKind::ColonEqual, ":=", 2)
        } else {
            (TokenKind::Colon, ":", 1)
        }
    } else if c == '!' {
        if second && d == '=' {
            (TokenKind::BangEqual, "!=", 2)
        } else {
            (TokenKind::Bang, "!", 1)
        }
    } else if c == '(' {
        (TokenKind::LeftParen, "(", 1)
    } else if c == ')' {
        (TokenKind::RightParen, ")", 1)
    } else if c == '[' {
        (TokenKind::LeftBracket, "[", 1)
    } else if c == ']' {
        (TokenKind::RightBracket, "]", 1)
    } else if c == ';' {
        (TokenKind::Semicolon, ";", 1)
    } else {
        return None;
    };
    *pos = at + width;
    Some(operator_token(source, at, kind, literal))
}

/// Adding a token behind those that were found keeps what the whole text holds.
proof fn lemma_prepend_push(
    before: Seq<TokenView>,
    token: TokenView,
    rest: Result<Seq<TokenView>, DiagnosticView>,
)
    ensures
        prepend(before, prepend(seq![token], rest)) == prepend(before.push(token), rest),
{
    match rest {
        Ok(more) => {
            assert(before + (seq![token] + more) =~= before.push(token) + more);
        },
        Err(_) => {},
    }
}

/// The number whose first digit stands at `pos`.
fn consume_numeral(source: &SourceText, pos: &mut usize) -> (result: Result<Token, Box<Diagnostic>>)
    requires
        source.wf(),
        *old(pos) < source.chars@.len(),
        is_digit(source.chars@[*old(pos) as int]),
    ensures
        is_scan(result, *final(pos) as int, numeral_scan(source.chars@, *old(pos) as int)),
        result is Ok ==> (*old(pos) < *final(pos) <= source.chars@.len()),
{
    let len: usize = source.chars.len();
    let mut start: usize = *pos;
    let c = source.chars[*pos];
    let d = if *pos + 1 < len {
        Some(source.chars[*pos + 1])
    } else {
        None
    };
    proof {
        assert(in_class(c, CharClass::Numeral(10)));
        lemma_run_end(source.chars@, *pos as int, CharClass::Numeral(10));
        let whole = run_end(source.chars@, *pos as int, CharClass::Numeral(10));
        if whole < len {
            lemma_run_end(source.chars@, whole + 1, CharClass::Numeral(10));
        }
    }
    if c == '0' && d == Some('x') {
        *pos += 2;
        start += 2;
        consume_hex_number(source, pos, &mut start)
    } else if c == '0' && d == Some('b') {
        *pos += 2;
        start += 2;
        consume_binary_number(source, pos, &mut start)
    } else if c == '0' && d == Some('o') {
        *pos += 2;
        start += 2;
        consume_octal_number(source, pos, &mut start)
    } else {
        consume_number(source, pos, &mut start)
    }
}

/// What `result` and the position `next` that was reached with it say.
pub open spec fn is_step(result: Result<Option<Token>, Box<Diagnostic>>, next: int, scan: Scan) -> bool {
    match result {
        Ok(Some(token)) => scan == (Scan::Token { token: token@, next }),
        Ok(None) => scan == (Scan::Skip { next }),
        Err(error) => scan == (Scan::Fail { error: error@ }),
    }
}

/// The step that `scanned` and a position make.
fn token_step(scanned: Result<Token, Box<Diagnostic>>) -> (result: Result<
    Option<Token>,
    Box<Diagnostic>,
>)
    ensures
        forall|next: int, scan: Scan|
            is_scan(scanned, next, scan) ==> is_step(result, next, scan),
{
    match scanned {
        Ok(token) => Ok(Some(token)),
        Err(error) => Err(error),
    }
}

/// What stands at `position`: a token, or blank space or a comment, which
/// leave none, with `position` moved behind it; or an error, with
/// `position` left where it was.
pub fn scan_step(source: &SourceText, position: &mut usize) -> (result: Result<
    Option<Token>,
    Box<Diagnostic>,
>)
    requires
        source.wf(),
        *old(position) < source.chars@.len(),
    ensures
        is_step(result, *final(position) as int, scan_at(source.chars@, *old(position) as int)),
        result is Ok ==> (*old(position) < *final(position) <= source.chars@.len()),
        result is Err ==> *final(position) == *old(position),
{
    let at: usize = *position;
    let result = scan_forward(source, position);
    if result.is_err() {
        *position = at;
    }
    result
}

/// What stands at `position`, with `position` moved on as far as was read.
fn scan_forward(source: &SourceText, position: &mut usize) -> (result: Result<
    Option<Token>,
    Box<Diagnostic>,
>)
    requires
        source.wf(),
        *old(position) < source.chars@.len(),
    ensures
        is_step(result, *final(position) as int, scan_at(source.chars@, *old(position) as int)),
        result is Ok ==> (*old(position) < *final(position) <= source.chars@.len()),
{
    let len: usize = source.chars.len();
    let mut column_start: usize = *position;
    let c = source.chars[*position];
    let d = if *position + 1 < len {
        Some(source.chars[*position + 1])
    } else {
        None
    };
    proof {
        lemma_run_end(source.chars@, *position as int, CharClass::Word);
    }
    if letter(c) {
        Ok(Some(consume_identifier(source, position, &mut column_start)))
    } else if c == '@' {
        if d == Some('>') {
            *position += 2;
            Ok(
                Some(
                    Token {
                        location: locate(source, column_start, *position),
                        kind: TokenKind::AtRightArrow,
                        literal: "@".to_owned(),
                    },
                ),
            )
        } else {
            token_step(consume_global_variable_name(source, position, &mut column_start))
        }
    } else if digit(c) {
        token_step(consume_numeral(source, position))
    } else if c == '\'' {
        token_step(consume_string_in_single_quotes(source, position, &mut column_start))
    } else if c == '"' {
        token_step(consume_string_in_double_quotes(source, position, &mut column_start))
    } else if c == '`' {
        token_step(consume_backticks_identifier(source, position, &mut column_start))
    } else if c == '-' && d == Some('-') {
        ignore_single_line_comment(source, position);
        Ok(None)
    } else if c == '/' && d == Some('*') {
        match ignore_c_style_comment(source, position) {
            Ok(_) => Ok(None),
            Err(error) => Err(error),
        }
    } else if c == ' ' || c == '\n' || c == '\t' {
        *position += 1;
        Ok(None)
    } else {
        match consume_operator(source, position) {
            Some(token) => Ok(Some(token)),
            None => {
                let location = locate(source, column_start, column_start);
                Err(
                    Diagnostic::error("Unexpected character").with_location_span(
                        location.start,
                        location.end,
                    ).as_boxed(),
                )
            },
        }
    }
}

/// The tokens of the query `script`, in the order in which they stand, or
/// the diagnostic of the first place at which the text is no token.
///
/// Blank space and comments separate tokens and leave none. Every span is
/// in bytes of `script`.
pub fn tokenize(script: String) -> (result: Result<Vec<Token>, Box<Diagnostic>>)
    ensures
        match result {
            Ok(tokens) => tokens_of(script@) == Ok::<Seq<TokenView>, DiagnosticView>(
                token_views(tokens@),
            ),
            Err(error) => tokens_of(script@) == Err::<Seq<TokenView>, DiagnosticView>(error@),
        },
{
    let source = SourceText::new(script.as_str());
    let len: usize = source.chars.len();
    let mut tokens: Vec<Token> = Vec::new();
    let mut position: usize = 0;
    assert(token_views(tokens@) =~= Seq::<TokenView>::empty());
    assert(prepend(Seq::<TokenView>::empty(), tokens_from(script@, 0)) == tokens_from(script@, 0))
        by {
        match tokens_from(script@, 0) {
            Ok(more) => {
                assert(Seq::<TokenView>::empty() + more =~= more);
            },
            Err(_) => {},
        }
    }
    while position < len
        invariant
            source.wf(),
            source.chars@ == script@,
            len == script@.len(),
            position <= len,
            tokens_of(script@) == prepend(
                token_views(tokens@),
                tokens_from(script@, position as int),
            ),
        decreases len - position,
    {
        let ghost before = tokens@;
        match scan_step(&source, &mut position) {
            Ok(Some(token)) => {
                proof {
                    lemma_prepend_push(
                        token_views(before),
                        token@,
                        tokens_from(script@, position as int),
                    );
                    assert(token_views(before.push(token)) =~= token_views(before).push(token@));
                }
                tokens.push(token);
            },
            Ok(None) => {},
            Err(error) => {
                return Err(error);
            },
        }
    }
    assert(prepend(token_views(tokens@), Ok(Seq::empty())) == Ok::<
        Seq<TokenView>,
        DiagnosticView,
    >(token_views(tokens@))) by {
        assert(token_views(tokens@) + Seq::<TokenView>::empty() =~= token_views(tokens@));
    }
    Ok(tokens)
}

} // verus!
