//! Tokens written out as text again, and what reading that text gives.

use crate::text::decimal_text;
use crate::text::is_digit;
use crate::text::is_letter;
use crate::text::is_word_char;
use crate::text::lower;
use crate::text::lower_text;
use crate::text::strip_underscores;
use crate::tokenizer::char_at;
use crate::tokenizer::global_variable_scan;
use crate::tokenizer::identifier_scan;
use crate::tokenizer::number_scan;
use crate::tokenizer::quoted_scan;
use crate::tokenizer::radix_scan;
use crate::tokenizer::in_class;
use crate::tokenizer::is_blank;
use crate::tokenizer::keyword_kind;
use crate::tokenizer::lemma_run_end;
use crate::tokenizer::operator_at;
use crate::tokenizer::run_end;
use crate::tokenizer::scan_at;
use crate::tokenizer::token_views;
use crate::tokenizer::tokens_from;
use crate::tokenizer::tokens_of;
use crate::tokenizer::CharClass;
use crate::tokenizer::Scan;
use crate::tokenizer::Token;
use crate::tokenizer::TokenKind;
use crate::tokenizer::TokenView;
use vstd::prelude::*;
use vstd::string::StringExecFns;

verus! {

/// The quote to write a string between: `'`, or `"` where the string
/// holds a `'`.
pub open spec fn quote_for(literal: Seq<char>) -> char {
    if literal.contains('\'') {
        '"'
    } else {
        '\''
    }
}

/// A token as text: a symbol between backticks, a string between quotes,
/// `@>` for the token of that kind, and every other token as its text.
pub open spec fn token_text(kind: TokenKind, literal: Seq<char>) -> Seq<char> {
    match kind {
        TokenKind::Symbol => seq!['`'] + literal + seq!['`'],
        TokenKind::String => seq![quote_for(literal)] + literal + seq![quote_for(literal)],
        TokenKind::AtRightArrow => seq!['@', '>'],
        _ => literal,
    }
}

/// Tokens as text, in order, with one space between each two.
pub open spec fn render(tokens: Seq<TokenView>) -> Seq<char>
    decreases tokens.len(),
{
    if tokens.len() == 0 {
        Seq::empty()
    } else if tokens.len() == 1 {
        token_text(tokens[0].kind, tokens[0].literal)
    } else {
        token_text(tokens[0].kind, tokens[0].literal) + seq![' '] + render(tokens.drop_first())
    }
}

/// The two sequences hold tokens of the same kinds and texts, in order.
pub open spec fn same_kinds_and_texts(x: Seq<TokenView>, y: Seq<TokenView>) -> bool {
    &&& x.len() == y.len()
    &&& forall|i: int|
        0 <= i < x.len() ==> (#[trigger] x[i]).kind == y[i].kind && x[i].literal == y[i].literal
}

/// A word in lower case: a letter, then letters, digits and underscores.
pub open spec fn is_lower_word(w: Seq<char>) -> bool {
    &&& w.len() > 0
    &&& is_letter(w[0])
    &&& forall|i: int| 0 <= i < w.len() ==> is_word_char(#[trigger] w[i]) && lower(w[i]) == w[i]
}

/// Digits only.
pub open spec fn is_digits(w: Seq<char>) -> bool {
    forall|i: int| 0 <= i < w.len() ==> is_digit(#[trigger] w[i])
}

/// `literal` is the text of the operator of kind `kind`: it is read as
/// that operator where a space follows it.
pub open spec fn is_operator(kind: TokenKind, literal: Seq<char>) -> bool {
    operator_at(literal + seq![' '], 0) == Some((kind, literal, literal.len() as int))
}

/// What the text of a token of each kind looks like.
pub open spec fn token_shape(kind: TokenKind, literal: Seq<char>) -> bool {
    match kind {
        TokenKind::Symbol => !literal.contains('`'),
        TokenKind::String => !literal.contains('\'') || !literal.contains('"'),
        TokenKind::GlobalVariable => literal.len() >= 2 && literal[0] == '@' && is_lower_word(
            literal.skip(1),
        ),
        TokenKind::Integer => literal.len() > 0 && is_digits(literal),
        TokenKind::Float => exists|k: int|
            0 < k < literal.len() && literal[k] == '.' && is_digits(#[trigger] literal.take(k))
                && is_digits(literal.skip(k + 1)),
        TokenKind::AtRightArrow => literal == "@"@,
        _ => (is_lower_word(literal) && keyword_kind(literal) == kind) || is_operator(
            kind,
            literal,
        ),
    }
}

/// Every token of `tokens` has the shape of its kind.
pub open spec fn all_shaped(tokens: Seq<TokenView>) -> bool {
    forall|i: int| 0 <= i < tokens.len() ==> token_shape(#[trigger] tokens[i].kind, tokens[i].literal)
}

/// A word is of the kind of a reserved word, or a symbol.
pub proof fn lemma_keyword_kinds(word: Seq<char>)
    ensures
        !(keyword_kind(word) is String),
        !(keyword_kind(word) is GlobalVariable),
        !(keyword_kind(word) is Integer),
        !(keyword_kind(word) is Float),
        !(keyword_kind(word) is AtRightArrow),
{
    reveal(keyword_kind);
}

/// The numeral of a number holds digits only, and at least one.
pub proof fn lemma_decimal_text(n: nat)
    ensures
        decimal_text(n).len() > 0,
        is_digits(decimal_text(n)),
    decreases n,
{
    if n >= 10 {
        lemma_decimal_text(n / 10);
    }
}

/// Taking the underscores out of two texts in a row is taking them out of each.
pub proof fn lemma_strip_concat(x: Seq<char>, y: Seq<char>)
    ensures
        strip_underscores(x + y) == strip_underscores(x) + strip_underscores(y),
    decreases y.len(),
{
    if y.len() == 0 {
        assert(x + y =~= x);
        assert(strip_underscores(x) + strip_underscores(y) =~= strip_underscores(x));
    } else {
        lemma_strip_concat(x, y.drop_last());
        assert((x + y).drop_last() =~= x + y.drop_last());
        assert((x + y).last() == y.last());
        if y.last() != '_' {
            assert(strip_underscores(x + y) =~= strip_underscores(x) + strip_underscores(y));
        }
    }
}

/// What is left of digits and underscores without the underscores is digits.
pub proof fn lemma_strip_digits(x: Seq<char>)
    requires
        forall|i: int| 0 <= i < x.len() ==> in_class(#[trigger] x[i], CharClass::Numeral(10)),
    ensures
        is_digits(strip_underscores(x)),
        x.len() > 0 && is_digit(x[0]) ==> strip_underscores(x).len() > 0,
        is_digits(x) ==> strip_underscores(x) == x,
    decreases x.len(),
{
    if x.len() > 0 {
        lemma_strip_digits(x.drop_last());
        assert(in_class(x.last(), CharClass::Numeral(10)));
        if is_digits(x) {
            assert(is_digit(x.last()));
            assert forall|i: int| 0 <= i < x.drop_last().len() implies is_digit(
                #[trigger] x.drop_last()[i],
            ) by {
                assert(is_digit(x[i]));
            }
            assert(strip_underscores(x) =~= x);
        }
        if x.len() > 1 {
            assert(x.drop_last()[0] == x[0]);
        }
    }
}

/// The text of an operator that the tokenizer finds is the text of that operator.
pub proof fn lemma_operator_shape(s: Seq<char>, p: int)
    requires
        0 <= p < s.len(),
        operator_at(s, p) is Some,
    ensures
        match operator_at(s, p) {
            Some((kind, literal, width)) => is_operator(kind, literal) && width == literal.len()
                && 1 <= width <= 3,
            None => true,
        },
{
    reveal(operator_at);
    reveal_strlit("+");
    reveal_strlit("-");
    reveal_strlit("*");
    reveal_strlit("/");
    reveal_strlit("%");
    reveal_strlit("^");
    reveal_strlit("~");
    reveal_strlit("||");
    reveal_strlit("|");
    reveal_strlit("&&");
    reveal_strlit("&");
    reveal_strlit("#");
    reveal_strlit(",");
    reveal_strlit("..");
    reveal_strlit(".");
    reveal_strlit(">=");
    reveal_strlit(">>");
    reveal_strlit(">");
    reveal_strlit("<=>");
    reveal_strlit("<=");
    reveal_strlit("<<");
    reveal_strlit("<>");
    reveal_strlit("<");
    reveal_strlit("=");
    reveal_strlit(":=");
    reveal_strlit(":");
    reveal_strlit("!=");
    reveal_strlit("!");
    reveal_strlit("(");
    reveal_strlit(")");
    reveal_strlit("[");
    reveal_strlit("]");
    reveal_strlit(";");
    let (kind, literal, width) = operator_at(s, p).unwrap();
    let t = literal + seq![' '];
    assert(t[0] == literal[0]);
    if literal.len() >= 2 {
        assert(t[1] == literal[1]);
    } else {
        assert(t[1] == ' ');
    }
    if literal.len() >= 3 {
        assert(t[2] == literal[2]);
    } else if literal.len() == 2 {
        assert(t[2] == ' ');
    }
}


/// The token that a scan found has the shape of its kind.
pub open spec fn scan_shaped(scan: Scan) -> bool {
    match scan {
        Scan::Token { token, next } => token_shape(token.kind, token.literal),
        _ => true,
    }
}

/// A word that the tokenizer reads has the shape of a word.
proof fn lemma_identifier_shape(s: Seq<char>, p: int)
    requires
        0 <= p < s.len(),
        is_letter(s[p]),
    ensures
        scan_shaped(identifier_scan(s, p, p)),
{
    lemma_run_end(s, p, CharClass::Word);
    let end = run_end(s, p, CharClass::Word);
    let word = lower_text(s.subrange(p, end));
    assert(word[0] == lower(s[p]));
    assert forall|i: int| 0 <= i < word.len() implies is_word_char(#[trigger] word[i]) && lower(
        word[i],
    ) == word[i] && word[i] != '`' by {
        assert(in_class(s[p + i], CharClass::Word));
        assert(word[i] == lower(s[p + i]));
    }
    assert(is_lower_word(word));
    assert(!word.contains('`'));
    lemma_keyword_kinds(word);
}

/// A global variable that the tokenizer reads has the shape of one.
proof fn lemma_global_variable_shape(s: Seq<char>, p: int)
    requires
        0 <= p < s.len(),
        s[p] == '@',
    ensures
        scan_shaped(global_variable_scan(s, p, p)),
{
    if p + 1 < s.len() && is_letter(s[p + 1]) {
        lemma_run_end(s, p + 1, CharClass::Word);
        let end = run_end(s, p + 1, CharClass::Word);
        let literal = lower_text(s.subrange(p, end));
        let word = literal.skip(1);
        assert(literal[0] == lower(s[p]));
        assert(word[0] == lower(s[p + 1]));
        assert forall|i: int| 0 <= i < word.len() implies is_word_char(#[trigger] word[i])
            && lower(word[i]) == word[i] by {
            assert(in_class(s[p + 1 + i], CharClass::Word));
            assert(word[i] == lower(s[p + 1 + i]));
        }
    }
}

/// A decimal number that the tokenizer reads has the shape of one.
proof fn lemma_number_shape(s: Seq<char>, p: int)
    requires
        0 <= p < s.len(),
        is_digit(s[p]),
    ensures
        scan_shaped(number_scan(s, p, p)),
{
    let class = CharClass::Numeral(10);
    lemma_run_end(s, p, class);
    let whole = run_end(s, p, class);
    assert(in_class(s[p], class));
    let front = s.subrange(p, whole);
    assert forall|i: int| 0 <= i < front.len() implies in_class(#[trigger] front[i], class) by {
        assert(in_class(s[p + i], class));
    }
    lemma_strip_digits(front);
    assert(front[0] == s[p]);
    if whole < s.len() && s[whole] == '.' {
        lemma_run_end(s, whole + 1, class);
        let end = run_end(s, whole + 1, class);
        let back = s.subrange(whole + 1, end);
        assert forall|i: int| 0 <= i < back.len() implies in_class(#[trigger] back[i], class) by {
            assert(in_class(s[whole + 1 + i], class));
        }
        lemma_strip_digits(back);
        let dot = seq!['.'];
        assert(s.subrange(p, end) =~= front + dot + back);
        lemma_strip_concat(front + dot, back);
        lemma_strip_concat(front, dot);
        assert(strip_underscores(dot) =~= dot) by {
            assert(dot.drop_last() =~= Seq::<char>::empty());
            reveal_with_fuel(strip_underscores, 2);
        }
        let literal = strip_underscores(s.subrange(p, end));
        let k = strip_underscores(front).len() as int;
        assert(literal =~= strip_underscores(front) + dot + strip_underscores(back));
        assert(literal.take(k) =~= strip_underscores(front));
        assert(literal.skip(k + 1) =~= strip_underscores(back));
        assert(literal[k] == '.');
    }
}

/// A number of another base that the tokenizer reads has the shape of a number.
proof fn lemma_radix_shape(
    s: Seq<char>,
    p: int,
    radix: u8,
    helps: Seq<Seq<char>>,
    invalid: Seq<char>,
)
    ensures
        scan_shaped(radix_scan(s, p, p, radix, helps, invalid)),
{
    let end = run_end(s, p, CharClass::Numeral(radix));
    let digits = strip_underscores(s.subrange(p, end));
    lemma_decimal_text(crate::text::numeral_value(digits, radix as nat));
}

/// A text between quotes that the tokenizer reads does not hold the quote.
proof fn lemma_quoted_shape(
    s: Seq<char>,
    p: int,
    quote: char,
    kind: TokenKind,
    message: Seq<char>,
    help: Seq<char>,
)
    requires
        0 <= p < s.len(),
    ensures
        match quoted_scan(s, p, p, quote, kind, message, help) {
            Scan::Token { token, next } => !token.literal.contains(quote),
            _ => true,
        },
{
    let class = CharClass::Except(quote);
    lemma_run_end(s, p + 1, class);
    let close = run_end(s, p + 1, class);
    if close < s.len() {
        let literal = s.subrange(p + 1, close);
        assert forall|i: int| 0 <= i < literal.len() implies literal[i] != quote by {
            assert(in_class(s[p + 1 + i], class));
        }
    }
}

/// Every token that the tokenizer finds has the shape of its kind.
pub proof fn lemma_scan_shape(s: Seq<char>, p: int)
    requires
        0 <= p < s.len(),
    ensures
        scan_shaped(scan_at(s, p)),
{
    let c = s[p];
    let d = char_at(s, p + 1);
    if is_letter(c) {
        lemma_identifier_shape(s, p);
    } else if c == '@' {
        if d != Some('>') {
            lemma_global_variable_shape(s, p);
        }
    } else if is_digit(c) {
        lemma_number_shape(s, p);
        lemma_radix_shape(
            s,
            p + 2,
            16,
            seq![
                "Expect at least one hex digits after the prefix 0x"@,
                "Hex digit mean 0 to 9 and a to f"@,
            ],
            "Invalid hex decimal number"@,
        );
        lemma_radix_shape(
            s,
            p + 2,
            2,
            seq![
                "Expect at least one binary digits after the prefix 0b"@,
                "Binary digit mean 0 or 1"@,
            ],
            "Invalid binary number"@,
        );
        lemma_radix_shape(
            s,
            p + 2,
            8,
            seq![
                "Expect at least one octal digits after the prefix 0o"@,
                "Octal digit mean 0 to 8 number"@,
            ],
            "Invalid octal number"@,
        );
    } else if c == '\'' {
        lemma_quoted_shape(
            s,
            p,
            '\'',
            TokenKind::String,
            "Unterminated single quote string"@,
            "Add ' at the end of the String literal"@,
        );
    } else if c == '"' {
        lemma_quoted_shape(
            s,
            p,
            '"',
            TokenKind::String,
            "Unterminated double quote string"@,
            "Add \" at the end of the String literal"@,
        );
    } else if c == '`' {
        lemma_quoted_shape(
            s,
            p,
            '`',
            TokenKind::Symbol,
            "Unterminated backticks"@,
            "Add ` at the end of the identifier"@,
        );
    } else if (c == '-' && d == Some('-')) || (c == '/' && d == Some('*')) || is_blank(c) {
    } else {
        if operator_at(s, p) is Some {
            lemma_operator_shape(s, p);
            lemma_operator_kinds(s, p);
        }
    }
}

/// An operator is of the kind of an operator.
proof fn lemma_operator_kinds(s: Seq<char>, p: int)
    ensures
        match operator_at(s, p) {
            Some((kind, literal, width)) => !(kind is Symbol) && !(kind is String) && !(kind
                is GlobalVariable) && !(kind is Integer) && !(kind is Float) && !(kind
                is AtRightArrow),
            None => true,
        },
{
    reveal(operator_at);
}

/// Where a text has tokens, each of them has the shape of its kind.
pub proof fn lemma_tokens_shape(s: Seq<char>, p: int)
    requires
        tokens_from(s, p) is Ok,
    ensures
        all_shaped(tokens_from(s, p)->Ok_0),
    decreases s.len() - p,
{
    if 0 <= p < s.len() {
        lemma_scan_shape(s, p);
        match scan_at(s, p) {
            Scan::Token { token, next } => {
                if p < next <= s.len() {
                    lemma_tokens_shape(s, next);
                    let rest = tokens_from(s, next)->Ok_0;
                    let all = tokens_from(s, p)->Ok_0;
                    assert(all =~= seq![token] + rest);
                    assert forall|i: int| 0 <= i < all.len() implies token_shape(
                        #[trigger] all[i].kind,
                        all[i].literal,
                    ) by {
                        if i > 0 {
                            assert(all[i] == rest[i - 1]);
                        }
                    }
                }
            },
            Scan::Skip { next } => {
                if p < next <= s.len() {
                    lemma_tokens_shape(s, next);
                }
            },
            Scan::Fail { error } => {},
        }
    }
}


/// `r` holds the text `t` at `p`, and behind it a space or nothing.
pub open spec fn stands_at(r: Seq<char>, p: int, t: Seq<char>) -> bool {
    &&& 0 <= p
    &&& p + t.len() <= r.len()
    &&& r.subrange(p, p + t.len()) == t
    &&& (p + t.len() == r.len() || r[p + t.len()] == ' ')
}

/// What was found at a position is a token of kind `kind` and text
/// `literal` that ends at `next`.
pub open spec fn reads_as(scan: Scan, kind: TokenKind, literal: Seq<char>, next: int) -> bool {
    match scan {
        Scan::Token { token, next: end } => token.kind == kind && token.literal == literal && end
            == next,
        _ => false,
    }
}

/// A run of `n` characters of a class that cannot be extended ends behind them.
pub proof fn lemma_run_exact(s: Seq<char>, p: int, n: int, class: CharClass)
    requires
        0 <= p,
        0 <= n,
        p + n <= s.len(),
        forall|i: int| p <= i < p + n ==> in_class(#[trigger] s[i], class),
        p + n == s.len() || !in_class(s[p + n], class),
    ensures
        run_end(s, p, class) == p + n,
    decreases n,
{
    if n > 0 {
        assert(in_class(s[p], class));
        lemma_run_exact(s, p + 1, n - 1, class);
    }
}

/// The character of `r` at position `i` of the text that stands at `p`.
proof fn lemma_stands_at(r: Seq<char>, p: int, t: Seq<char>, i: int)
    requires
        stands_at(r, p, t),
        0 <= i < t.len(),
    ensures
        r[p + i] == t[i],
{
    assert(r.subrange(p, p + t.len())[i] == r[p + i]);
}

/// A reserved word is read back as it was written.
proof fn lemma_read_word(kind: TokenKind, literal: Seq<char>, r: Seq<char>, p: int)
    requires
        is_lower_word(literal),
        keyword_kind(literal) == kind,
        stands_at(r, p, literal),
    ensures
        reads_as(scan_at(r, p), kind, literal, p + literal.len()),
{
    let n = literal.len() as int;
    assert forall|i: int| p <= i < p + n implies in_class(#[trigger] r[i], CharClass::Word) by {
        lemma_stands_at(r, p, literal, i - p);
        assert(is_word_char(literal[i - p]));
    }
    lemma_stands_at(r, p, literal, 0);
    lemma_run_exact(r, p, n, CharClass::Word);
    assert(lower_text(literal) =~= literal);
}

/// An operator is read back as it was written.
proof fn lemma_read_operator(kind: TokenKind, literal: Seq<char>, r: Seq<char>, p: int)
    requires
        is_operator(kind, literal),
        stands_at(r, p, literal),
    ensures
        reads_as(scan_at(r, p), kind, literal, p + literal.len()),
{
    reveal(operator_at);
    let t = literal + seq![' '];
    let n = literal.len() as int;
    assert(n >= 1) by {
        if n == 0 {
            assert(t[0] == ' ');
        }
    }
    lemma_stands_at(r, p, literal, 0);
    assert(t[0] == literal[0]);
    if n >= 2 {
        lemma_stands_at(r, p, literal, 1);
        assert(t[1] == literal[1]);
    } else {
        assert(t[1] == ' ');
    }
    if n >= 3 {
        lemma_stands_at(r, p, literal, 2);
        assert(t[2] == literal[2]);
    } else if n == 2 {
        assert(t[2] == ' ');
    }
    assert(operator_at(r, p) == operator_at(t, 0));
}

/// A text between quotes is read back as it was written.
proof fn lemma_read_quoted(
    literal: Seq<char>,
    r: Seq<char>,
    p: int,
    quote: char,
    kind: TokenKind,
    message: Seq<char>,
    help: Seq<char>,
)
    requires
        !literal.contains(quote),
        stands_at(r, p, seq![quote] + literal + seq![quote]),
    ensures
        reads_as(
            quoted_scan(r, p, p, quote, kind, message, help),
            kind,
            literal,
            p + literal.len() + 2,
        ),
{
    let t = seq![quote] + literal + seq![quote];
    let n = literal.len() as int;
    let class = CharClass::Except(quote);
    assert forall|i: int| p + 1 <= i < p + 1 + n implies in_class(#[trigger] r[i], class) by {
        lemma_stands_at(r, p, t, i - p);
        assert(t[i - p] == literal[i - p - 1]);
        assert(literal.contains(literal[i - p - 1]));
    }
    lemma_stands_at(r, p, t, n + 1);
    lemma_run_exact(r, p + 1, n, class);
    assert(r.subrange(p + 1, p + 1 + n) =~= literal) by {
        assert forall|i: int| 0 <= i < n implies r[p + 1 + i] == literal[i] by {
            lemma_stands_at(r, p, t, i + 1);
        }
    }
}

/// A global variable is read back as it was written.
proof fn lemma_read_global_variable(literal: Seq<char>, r: Seq<char>, p: int)
    requires
        token_shape(TokenKind::GlobalVariable, literal),
        stands_at(r, p, literal),
    ensures
        reads_as(scan_at(r, p), TokenKind::GlobalVariable, literal, p + literal.len()),
{
    let n = literal.len() as int;
    let word = literal.skip(1);
    lemma_stands_at(r, p, literal, 0);
    lemma_stands_at(r, p, literal, 1);
    assert(word[0] == literal[1]);
    assert forall|i: int| p + 1 <= i < p + n implies in_class(#[trigger] r[i], CharClass::Word) by {
        lemma_stands_at(r, p, literal, i - p);
        assert(word[i - p - 1] == literal[i - p]);
        assert(is_word_char(word[i - p - 1]));
    }
    lemma_run_exact(r, p + 1, n - 1, CharClass::Word);
    assert(lower_text(literal) =~= literal) by {
        assert forall|i: int| 0 <= i < n implies lower(literal[i]) == literal[i] by {
            if i > 0 {
                assert(word[i - 1] == literal[i]);
            }
        }
    }
}

/// A whole number is read back as it was written.
proof fn lemma_read_integer(literal: Seq<char>, r: Seq<char>, p: int)
    requires
        token_shape(TokenKind::Integer, literal),
        stands_at(r, p, literal),
    ensures
        reads_as(scan_at(r, p), TokenKind::Integer, literal, p + literal.len()),
{
    let n = literal.len() as int;
    let class = CharClass::Numeral(10);
    lemma_stands_at(r, p, literal, 0);
    assert(is_digit(literal[0]));
    if n >= 2 {
        lemma_stands_at(r, p, literal, 1);
        assert(is_digit(literal[1]));
    }
    assert forall|i: int| p <= i < p + n implies in_class(#[trigger] r[i], class) by {
        lemma_stands_at(r, p, literal, i - p);
        assert(is_digit(literal[i - p]));
    }
    lemma_run_exact(r, p, n, class);
    assert forall|i: int| 0 <= i < n implies in_class(#[trigger] literal[i], class) by {
        assert(is_digit(literal[i]));
    }
    lemma_strip_digits(literal);
}

/// A number with a fraction is read back as it was written.
proof fn lemma_read_float(literal: Seq<char>, r: Seq<char>, p: int)
    requires
        token_shape(TokenKind::Float, literal),
        stands_at(r, p, literal),
    ensures
        reads_as(scan_at(r, p), TokenKind::Float, literal, p + literal.len()),
{
    let n = literal.len() as int;
    let class = CharClass::Numeral(10);
    let k = choose|k: int|
        0 < k < literal.len() && literal[k] == '.' && is_digits(#[trigger] literal.take(k))
            && is_digits(literal.skip(k + 1));
    let front = literal.take(k);
    let back = literal.skip(k + 1);
    let dot = seq!['.'];
    assert forall|i: int| 0 <= i < k implies is_digit(literal[i]) by {
        assert(front[i] == literal[i]);
    }
    assert forall|i: int| k < i < n implies is_digit(literal[i]) by {
        assert(back[i - k - 1] == literal[i]);
    }
    lemma_stands_at(r, p, literal, 0);
    lemma_stands_at(r, p, literal, 1);
    lemma_stands_at(r, p, literal, k);
    assert forall|i: int| p <= i < p + k implies in_class(#[trigger] r[i], class) by {
        lemma_stands_at(r, p, literal, i - p);
    }
    lemma_run_exact(r, p, k, class);
    assert forall|i: int| p + k + 1 <= i < p + n implies in_class(#[trigger] r[i], class) by {
        lemma_stands_at(r, p, literal, i - p);
    }
    lemma_run_exact(r, p + k + 1, n - k - 1, class);
    assert(literal =~= front + dot + back);
    lemma_strip_concat(front + dot, back);
    lemma_strip_concat(front, dot);
    assert(strip_underscores(dot) =~= dot) by {
        assert(dot.drop_last() =~= Seq::<char>::empty());
        reveal_with_fuel(strip_underscores, 2);
    }
    assert forall|i: int| 0 <= i < front.len() implies in_class(#[trigger] front[i], class) by {
        assert(is_digit(front[i]));
    }
    assert forall|i: int| 0 <= i < back.len() implies in_class(#[trigger] back[i], class) by {
        assert(is_digit(back[i]));
    }
    lemma_strip_digits(front);
    lemma_strip_digits(back);
    assert(strip_underscores(literal) =~= literal);
}

/// A token of the shape of its kind is read back as it was written: where
/// its text stands, with a space or nothing behind it, the tokenizer
/// finds a token of the same kind and text, and goes on behind it.
pub proof fn lemma_read_back(kind: TokenKind, literal: Seq<char>, r: Seq<char>, p: int)
    requires
        token_shape(kind, literal),
        stands_at(r, p, token_text(kind, literal)),
    ensures
        reads_as(scan_at(r, p), kind, literal, p + token_text(kind, literal).len()),
        token_text(kind, literal).len() > 0,
{
    let t = token_text(kind, literal);
    match kind {
        TokenKind::Symbol => {
            lemma_stands_at(r, p, t, 0);
            lemma_read_quoted(
                literal,
                r,
                p,
                '`',
                TokenKind::Symbol,
                "Unterminated backticks"@,
                "Add ` at the end of the identifier"@,
            );
        },
        TokenKind::String => {
            lemma_stands_at(r, p, t, 0);
            if quote_for(literal) == '\'' {
                lemma_read_quoted(
                    literal,
                    r,
                    p,
                    '\'',
                    TokenKind::String,
                    "Unterminated single quote string"@,
                    "Add ' at the end of the String literal"@,
                );
            } else {
                lemma_read_quoted(
                    literal,
                    r,
                    p,
                    '"',
                    TokenKind::String,
                    "Unterminated double quote string"@,
                    "Add \" at the end of the String literal"@,
                );
            }
        },
        TokenKind::AtRightArrow => {
            lemma_stands_at(r, p, t, 0);
            lemma_stands_at(r, p, t, 1);
        },
        TokenKind::GlobalVariable => {
            lemma_read_global_variable(literal, r, p);
        },
        TokenKind::Integer => {
            lemma_read_integer(literal, r, p);
        },
        TokenKind::Float => {
            lemma_read_float(literal, r, p);
        },
        _ => {
            if is_lower_word(literal) && keyword_kind(literal) == kind {
                lemma_read_word(kind, literal, r, p);
            } else {
                lemma_read_operator(kind, literal, r, p);
                reveal(operator_at);
                assert((literal + seq![' '])[0] == ' ' || literal.len() > 0);
            }
        },
    }
}

/// Tokens of the shape of their kinds are read back as they were written,
/// whatever stands before them.
#[verifier::rlimit(40)]
pub proof fn lemma_read_rendered(before: Seq<char>, tokens: Seq<TokenView>)
    requires
        all_shaped(tokens),
    ensures
        tokens_from(before + render(tokens), before.len() as int) is Ok,
        same_kinds_and_texts(
            tokens_from(before + render(tokens), before.len() as int)->Ok_0,
            tokens,
        ),
    decreases tokens.len(),
{
    let r = before + render(tokens);
    let p = before.len() as int;
    if tokens.len() == 0 {
        assert(r =~= before);
    } else {
        let first = tokens[0];
        let t = token_text(first.kind, first.literal);
        let rest = tokens.drop_first();
        assert(token_shape(first.kind, first.literal));
        assert(r.subrange(p, p + t.len()) =~= t);
        if tokens.len() > 1 {
            assert(r[p + t.len()] == ' ');
        }
        lemma_read_back(first.kind, first.literal, r, p);
        let next = p + t.len();
        let found = scan_at(r, p)->Token_token;
        if tokens.len() == 1 {
            let all = tokens_from(r, p)->Ok_0;
            assert(all =~= seq![found]);
        } else {
            let further = before + t + seq![' '];
            assert(r =~= further + render(rest));
            assert forall|i: int| 0 <= i < rest.len() implies token_shape(
                #[trigger] rest[i].kind,
                rest[i].literal,
            ) by {
                assert(rest[i] == tokens[i + 1]);
            }
            lemma_read_rendered(further, rest);
            assert(is_blank(r[next]));
            assert(scan_at(r, next) == (Scan::Skip { next: next + 1 }));
            assert(tokens_from(r, next) == tokens_from(r, next + 1));
            let others = tokens_from(r, next + 1)->Ok_0;
            let all = tokens_from(r, p)->Ok_0;
            assert(all =~= seq![found] + others);
            assert forall|i: int| 0 <= i < all.len() implies (#[trigger] all[i]).kind
                == tokens[i].kind && all[i].literal == tokens[i].literal by {
                if i > 0 {
                    assert(all[i] == others[i - 1]);
                    assert(rest[i - 1] == tokens[i]);
                }
            }
        }
    }
}

/// Writing the tokens of a query out, with one space between each two, and
/// reading them again gives tokens of the same kinds and texts.
pub proof fn lemma_round_trip(s: Seq<char>)
    requires
        tokens_of(s) is Ok,
    ensures
        tokens_of(render(tokens_of(s)->Ok_0)) is Ok,
        same_kinds_and_texts(tokens_of(render(tokens_of(s)->Ok_0))->Ok_0, tokens_of(s)->Ok_0),
{
    let tokens = tokens_of(s)->Ok_0;
    lemma_tokens_shape(s, 0);
    lemma_read_rendered(Seq::empty(), tokens);
    assert(Seq::<char>::empty() + render(tokens) =~= render(tokens));
}


/// The text of tokens and one more is the text of the tokens, a space, and
/// the text of the further one.
pub proof fn lemma_render_push(tokens: Seq<TokenView>, token: TokenView)
    ensures
        render(tokens.push(token)) == if tokens.len() == 0 {
            token_text(token.kind, token.literal)
        } else {
            render(tokens) + seq![' '] + token_text(token.kind, token.literal)
        },
    decreases tokens.len(),
{
    let all = tokens.push(token);
    if tokens.len() == 0 {
    } else {
        assert(all.drop_first() =~= tokens.drop_first().push(token));
        lemma_render_push(tokens.drop_first(), token);
        if tokens.len() == 1 {
            assert(tokens.drop_first().len() == 0);
            assert(render(all) =~= render(tokens) + seq![' '] + token_text(
                token.kind,
                token.literal,
            ));
        } else {
            assert(render(all) =~= render(tokens) + seq![' '] + token_text(
                token.kind,
                token.literal,
            ));
        }
    }
}

/// Whether `text` holds the character `c`.
fn holds(text: &str, c: char) -> (r: bool)
    ensures
        r == text@.contains(c),
{
    let chars = crate::text::to_chars(text);
    let mut i: usize = 0;
    while i < chars.len()
        invariant
            i <= chars@.len(),
            chars@ == text@,
            forall|j: int| 0 <= j < i ==> chars@[j] != c,
        decreases chars@.len() - i,
    {
        if chars[i] == c {
            return true;
        }
        i += 1;
    }
    false
}

/// The token as text: a symbol between backticks, a string between quotes,
/// `@>` for the token of that kind, and every other token as its text.
pub fn render_token(token: &Token) -> (text: String)
    ensures
        text@ == token_text(token@.kind, token@.literal),
{
    match token.kind {
        TokenKind::Symbol => {
            let mut text = String::new();
            text.push('`');
            text.append(token.literal.as_str());
            text.push('`');
            assert(text@ =~= seq!['`'] + token@.literal + seq!['`']);
            text
        },
        TokenKind::String => {
            let quote = if holds(token.literal.as_str(), '\'') {
                '"'
            } else {
                '\''
            };
            let mut text = String::new();
            text.push(quote);
            text.append(token.literal.as_str());
            text.push(quote);
            assert(text@ =~= seq![quote] + token@.literal + seq![quote]);
            text
        },
        TokenKind::AtRightArrow => {
            let mut text = String::new();
            text.push('@');
            text.push('>');
            assert(text@ =~= seq!['@', '>']);
            text
        },
        _ => token.literal.clone(),
    }
}

/// The tokens as text, in order, with one space between each two.
pub fn render_tokens(tokens: &Vec<Token>) -> (text: String)
    ensures
        text@ == render(token_views(tokens@)),
{
    let mut text = String::new();
    let mut i: usize = 0;
    assert(token_views(tokens@).take(0) =~= Seq::<TokenView>::empty());
    while i < tokens.len()
        invariant
            i <= tokens@.len(),
            text@ == render(token_views(tokens@).take(i as int)),
        decreases tokens@.len() - i,
    {
        proof {
            lemma_render_push(token_views(tokens@).take(i as int), tokens@[i as int]@);
            assert(token_views(tokens@).take(i + 1) =~= token_views(tokens@).take(i as int).push(
                tokens@[i as int]@,
            ));
        }
        if i > 0 {
            text.push(' ');
        }
        let one = render_token(&tokens[i]);
        text.append(one.as_str());
        i += 1;
    }
    assert(token_views(tokens@).take(i as int) =~= token_views(tokens@));
    text
}

} // verus!
