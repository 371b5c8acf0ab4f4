//! The tokens of a query do not depend on the case in which its words are
//! written.

use crate::text::byte_offset;
use crate::text::char_width;
use crate::text::digit_value;
use crate::text::is_digit;
use crate::text::is_letter;
use crate::text::is_word_char;
use crate::text::lemma_byte_offset_step;
use crate::text::lower;
use crate::text::lower_text;
use crate::text::numeral_value;
use crate::text::strip_underscores;
use crate::tokenizer::CharClass;
use crate::tokenizer::Scan;
use crate::tokenizer::TokenKind;
use crate::tokenizer::char_at;
use crate::tokenizer::comment_close;
use crate::tokenizer::in_class;
use crate::tokenizer::block_comment_scan;
use crate::tokenizer::global_variable_scan;
use crate::tokenizer::identifier_scan;
use crate::tokenizer::is_blank;
use crate::tokenizer::line_comment_end;
use crate::tokenizer::number_scan;
use crate::tokenizer::numeral_scan;
use crate::tokenizer::is_numeral;
use crate::tokenizer::lemma_run_end;
use crate::tokenizer::operator_at;
use crate::tokenizer::quoted_scan;
use crate::tokenizer::radix_scan;
use crate::tokenizer::run_end;
use crate::tokenizer::scan_at;
use crate::tokenizer::tokens_from;
use crate::tokenizer::tokens_of;
use vstd::prelude::*;

verus! {

/// `a` and `b` are one text but for the case of letters.
pub open spec fn same_but_case(a: Seq<char>, b: Seq<char>) -> bool {
    &&& a.len() == b.len()
    &&& forall|i: int| 0 <= i < a.len() ==> lower(#[trigger] a[i]) == lower(b[i])
}

/// Position `i` of `s` lies in an identifier or a reserved word that the
/// tokens of `s` from position `p` on hold.
pub open spec fn in_word(s: Seq<char>, p: int, i: int) -> bool
    decreases s.len() - p,
{
    if p < 0 || p >= s.len() {
        false
    } else {
        match scan_at(s, p) {
            Scan::Token { token, next } => if p < next <= s.len() {
                (is_letter(s[p]) && p <= i < next) || in_word(s, next, i)
            } else {
                false
            },
            Scan::Skip { next } => if p < next <= s.len() {
                in_word(s, next, i)
            } else {
                false
            },
            Scan::Fail { error } => false,
        }
    }
}

/// `a` and `b` are one text but for the case of letters in identifiers and
/// reserved words.
pub open spec fn same_but_case_of_words(a: Seq<char>, b: Seq<char>) -> bool {
    &&& same_but_case(a, b)
    &&& forall|i: int|
        0 <= i < a.len() && #[trigger] a[i] != b[i] ==> in_word(a, 0, i) && in_word(b, 0, i)
}

/// What two characters share that are one but for their case.
pub proof fn lemma_lower_eq(c: char, d: char)
    requires
        lower(c) == lower(d),
    ensures
        is_letter(c) == is_letter(d),
        !is_letter(c) ==> c == d,
        is_digit(c) == is_digit(d),
        is_word_char(c) == is_word_char(d),
        digit_value(c) == digit_value(d),
        char_width(c) == char_width(d),
        forall|class: CharClass|
            (class matches CharClass::Except(stop) ==> !is_letter(stop)) ==> in_class(c, class)
                == in_class(d, class),
{
    assert forall|class: CharClass|
        (class matches CharClass::Except(stop) ==> !is_letter(stop)) implies in_class(c, class)
        == in_class(d, class) by {
        match class {
            CharClass::Word => {},
            CharClass::Numeral(radix) => {},
            CharClass::Except(stop) => {},
        }
    }
}

/// A class of characters that the tokenizer reads.
pub open spec fn plain(class: CharClass) -> bool {
    match class {
        CharClass::Except(stop) => !is_letter(stop),
        _ => true,
    }
}

/// A run ends at one place in both texts.
pub proof fn lemma_run_end_case(a: Seq<char>, b: Seq<char>, p: int, class: CharClass)
    requires
        same_but_case(a, b),
        plain(class),
        0 <= p <= a.len(),
    ensures
        run_end(a, p, class) == run_end(b, p, class),
    decreases a.len() - p,
{
    if p < a.len() {
        assert(lower(a[p]) == lower(b[p]));
        lemma_lower_eq(a[p], b[p]);
        if in_class(a[p], class) {
            lemma_run_end_case(a, b, p + 1, class);
        }
    }
}

/// A comment closes at one place in both texts.
pub proof fn lemma_comment_close_case(a: Seq<char>, b: Seq<char>, p: int)
    requires
        same_but_case(a, b),
        0 <= p <= a.len(),
    ensures
        comment_close(a, p) == comment_close(b, p),
    decreases a.len() - p,
{
    if p + 1 < a.len() {
        assert(lower(a[p]) == lower(b[p]));
        assert(lower(a[p + 1]) == lower(b[p + 1]));
        lemma_lower_eq(a[p], b[p]);
        lemma_lower_eq(a[p + 1], b[p + 1]);
        if !(a[p] == '*' && a[p + 1] == '/') {
            lemma_comment_close_case(a, b, p + 1);
        }
    }
}

/// Every position has one byte offset in both texts.
pub proof fn lemma_byte_offset_case(a: Seq<char>, b: Seq<char>, i: int)
    requires
        same_but_case(a, b),
        0 <= i <= a.len(),
    ensures
        byte_offset(a, i) == byte_offset(b, i),
    decreases i,
{
    if i == 0 {
        assert(a.take(0) =~= b.take(0));
    } else {
        lemma_byte_offset_case(a, b, i - 1);
        lemma_byte_offset_step(a, i - 1);
        lemma_byte_offset_step(b, i - 1);
        assert(lower(a[i - 1]) == lower(b[i - 1]));
        lemma_lower_eq(a[i - 1], b[i - 1]);
    }
}

/// Taking the underscores out and putting letters in lower case can be done
/// in either order.
pub proof fn lemma_strip_lower(x: Seq<char>)
    ensures
        strip_underscores(lower_text(x)) == lower_text(strip_underscores(x)),
    decreases x.len(),
{
    if x.len() == 0 {
        assert(lower_text(x) =~= x);
        assert(strip_underscores(x) =~= x);
    } else {
        lemma_strip_lower(x.drop_last());
        assert(lower_text(x).drop_last() =~= lower_text(x.drop_last()));
        assert(lower_text(x).last() == lower(x.last()));
        if x.last() == '_' {
        } else {
            assert(lower_text(strip_underscores(x.drop_last()).push(x.last())) =~= lower_text(
                strip_underscores(x.drop_last()),
            ).push(lower(x.last())));
        }
    }
}

/// The case of its digits does not change what a numeral is worth, nor
/// whether it is one.
pub proof fn lemma_numeral_lower(x: Seq<char>, radix: nat)
    ensures
        numeral_value(lower_text(x), radix) == numeral_value(x, radix),
        is_numeral(lower_text(x), radix) == is_numeral(x, radix),
    decreases x.len(),
{
    if x.len() > 0 {
        lemma_numeral_lower(x.drop_last(), radix);
        assert(lower_text(x).drop_last() =~= lower_text(x.drop_last()));
        lemma_lower_eq(lower(x.last()), x.last());
    }
    assert forall|i: int| 0 <= i < x.len() implies digit_value(#[trigger] lower_text(x)[i])
        == digit_value(x[i]) by {
        lemma_lower_eq(lower(x[i]), x[i]);
    }
    if is_numeral(x, radix) {
        assert(is_numeral(lower_text(x), radix));
    }
    if is_numeral(lower_text(x), radix) {
        assert forall|i: int| 0 <= i < x.len() implies crate::text::is_radix_digit(
            x[i],
            radix,
        ) by {
            assert(crate::text::is_radix_digit(lower_text(x)[i], radix));
        }
        assert(is_numeral(x, radix));
    }
}

/// The digits of a number of another base make one token in both texts.
pub proof fn lemma_radix_scan_case(
    a: Seq<char>,
    b: Seq<char>,
    start: int,
    pos: int,
    radix: u8,
    helps: Seq<Seq<char>>,
    invalid: Seq<char>,
)
    requires
        same_but_case(a, b),
        0 <= start <= pos <= a.len(),
    ensures
        radix_scan(a, start, pos, radix, helps, invalid) == radix_scan(
            b,
            start,
            pos,
            radix,
            helps,
            invalid,
        ),
{
    let class = CharClass::Numeral(radix);
    lemma_run_end_case(a, b, pos, class);
    lemma_run_end(a, pos, class);
    let end = run_end(a, pos, class);
    lemma_byte_offset_case(a, b, start);
    lemma_byte_offset_case(a, b, pos);
    lemma_byte_offset_case(a, b, end);
    let xa = a.subrange(start, end);
    let xb = b.subrange(start, end);
    assert(lower_text(xa) =~= lower_text(xb)) by {
        assert forall|i: int| 0 <= i < xa.len() implies lower(xa[i]) == lower(xb[i]) by {
            assert(lower(a[start + i]) == lower(b[start + i]));
        }
    }
    lemma_strip_lower(xa);
    lemma_strip_lower(xb);
    lemma_numeral_lower(strip_underscores(xa), radix as nat);
    lemma_numeral_lower(strip_underscores(xb), radix as nat);
}

/// A position in a word does not lie before the place from which words
/// are looked for, nor behind the text.
pub proof fn lemma_in_word_bounds(s: Seq<char>, p: int, i: int)
    requires
        in_word(s, p, i),
    ensures
        p <= i < s.len(),
    decreases s.len() - p,
{
    if 0 <= p < s.len() {
        match scan_at(s, p) {
            Scan::Token { token, next } => {
                if !(is_letter(s[p]) && p <= i < next) {
                    lemma_in_word_bounds(s, next, i);
                }
            },
            Scan::Skip { next } => {
                lemma_in_word_bounds(s, next, i);
            },
            Scan::Fail { error } => {},
        }
    }
}

/// What `scan` found ends at or before position `i`.
pub open spec fn ends_by(scan: Scan, i: int) -> bool {
    match scan {
        Scan::Token { token, next } => next <= i,
        Scan::Skip { next } => next <= i,
        Scan::Fail { error } => false,
    }
}

/// Where `s` holds, at `p`, a token that is no word and ends at `next`, no
/// position before `next` lies in a word from `p` on.
pub proof fn lemma_not_in_word(s: Seq<char>, p: int, i: int)
    requires
        0 <= p < s.len(),
        !is_letter(s[p]),
        in_word(s, p, i),
    ensures
        ends_by(scan_at(s, p), i),
{
    match scan_at(s, p) {
        Scan::Token { token, next } => {
            lemma_in_word_bounds(s, next, i);
        },
        Scan::Skip { next } => {
            lemma_in_word_bounds(s, next, i);
        },
        Scan::Fail { error } => {},
    }
}

/// A text between quotes makes one token in both texts.
proof fn lemma_quoted_scan_case(
    a: Seq<char>,
    b: Seq<char>,
    p: int,
    quote: char,
    kind: TokenKind,
    message: Seq<char>,
    help: Seq<char>,
)
    requires
        same_but_case(a, b),
        0 <= p < a.len(),
        !is_letter(quote),
        forall|i: int|
            p <= i < a.len() && #[trigger] a[i] != b[i] ==> ends_by(
                quoted_scan(a, p, p, quote, kind, message, help),
                i,
            ),
    ensures
        quoted_scan(a, p, p, quote, kind, message, help) == quoted_scan(
            b,
            p,
            p,
            quote,
            kind,
            message,
            help,
        ),
{
    let class = CharClass::Except(quote);
    lemma_run_end_case(a, b, p + 1, class);
    lemma_run_end(a, p + 1, class);
    let close = run_end(a, p + 1, class);
    lemma_byte_offset_case(a, b, p);
    lemma_byte_offset_case(a, b, close);
    if close < a.len() {
        lemma_byte_offset_case(a, b, close + 1);
        assert(a.subrange(p + 1, close) =~= b.subrange(p + 1, close)) by {
            assert forall|i: int| p + 1 <= i < close implies a[i] == b[i] by {
                if a[i] != b[i] {
                    assert(false);
                }
            }
        }
    }
}

/// A word makes one token in both texts.
proof fn lemma_identifier_scan_case(a: Seq<char>, b: Seq<char>, p: int)
    requires
        same_but_case(a, b),
        0 <= p < a.len(),
    ensures
        identifier_scan(a, p, p) == identifier_scan(b, p, p),
{
    lemma_byte_offset_case(a, b, p);
    lemma_run_end_case(a, b, p, CharClass::Word);
    lemma_run_end(a, p, CharClass::Word);
    let end = run_end(a, p, CharClass::Word);
    lemma_byte_offset_case(a, b, end);
    assert(lower_text(a.subrange(p, end)) =~= lower_text(b.subrange(p, end))) by {
        assert forall|i: int| 0 <= i < end - p implies lower(a.subrange(p, end)[i]) == lower(
            b.subrange(p, end)[i],
        ) by {
            assert(lower(a[p + i]) == lower(b[p + i]));
        }
    }
}

/// A global variable makes one token in both texts.
proof fn lemma_global_variable_scan_case(a: Seq<char>, b: Seq<char>, p: int)
    requires
        same_but_case(a, b),
        0 <= p < a.len(),
    ensures
        global_variable_scan(a, p, p) == global_variable_scan(b, p, p),
{
    lemma_byte_offset_case(a, b, p);
    if p + 1 <= a.len() {
        lemma_byte_offset_case(a, b, p + 1);
    }
    if p + 1 < a.len() {
        assert(lower(a[p + 1]) == lower(b[p + 1]));
        lemma_lower_eq(a[p + 1], b[p + 1]);
        if is_letter(a[p + 1]) {
            lemma_run_end_case(a, b, p + 1, CharClass::Word);
            lemma_run_end(a, p + 1, CharClass::Word);
            let end = run_end(a, p + 1, CharClass::Word);
            lemma_byte_offset_case(a, b, end);
            assert(lower_text(a.subrange(p, end)) =~= lower_text(b.subrange(p, end))) by {
                assert forall|i: int| 0 <= i < end - p implies lower(a.subrange(p, end)[i])
                    == lower(b.subrange(p, end)[i]) by {
                    assert(lower(a[p + i]) == lower(b[p + i]));
                }
            }
        }
    }
}

/// A decimal number makes one token in both texts.
proof fn lemma_number_scan_case(a: Seq<char>, b: Seq<char>, p: int)
    requires
        same_but_case(a, b),
        0 <= p < a.len(),
    ensures
        number_scan(a, p, p) == number_scan(b, p, p),
{
    let class = CharClass::Numeral(10);
    lemma_byte_offset_case(a, b, p);
    lemma_run_end_case(a, b, p, class);
    lemma_run_end(a, p, class);
    let whole = run_end(a, p, class);
    lemma_byte_offset_case(a, b, whole);
    assert forall|i: int| p <= i < whole implies a[i] == b[i] by {
        assert(in_class(a[i], class));
        assert(lower(a[i]) == lower(b[i]));
        lemma_lower_eq(a[i], b[i]);
    }
    if whole < a.len() {
        assert(lower(a[whole]) == lower(b[whole]));
        lemma_lower_eq(a[whole], b[whole]);
    }
    if whole < a.len() && a[whole] == '.' {
        lemma_run_end_case(a, b, whole + 1, class);
        lemma_run_end(a, whole + 1, class);
        let end = run_end(a, whole + 1, class);
        lemma_byte_offset_case(a, b, end);
        assert forall|i: int| whole + 1 <= i < end implies a[i] == b[i] by {
            assert(in_class(a[i], class));
            assert(lower(a[i]) == lower(b[i]));
            lemma_lower_eq(a[i], b[i]);
        }
        assert(a.subrange(p, end) =~= b.subrange(p, end));
    } else {
        assert(a.subrange(p, whole) =~= b.subrange(p, whole));
    }
}

/// A number makes one token in both texts, where the letter that names its
/// base is the same in both.
proof fn lemma_numeral_scan_case(a: Seq<char>, b: Seq<char>, p: int)
    requires
        same_but_case(a, b),
        0 <= p < a.len(),
        a[p] == b[p],
        char_at(a, p + 1) == char_at(b, p + 1) || !(a[p] == '0' && (char_at(a, p + 1) == Some('x')
            || char_at(a, p + 1) == Some('b') || char_at(a, p + 1) == Some('o') || char_at(
            b,
            p + 1,
        ) == Some('x') || char_at(b, p + 1) == Some('b') || char_at(b, p + 1) == Some('o'))),
    ensures
        numeral_scan(a, p) == numeral_scan(b, p),
{
    let d = char_at(a, p + 1);
    if a[p] == '0' && (d == Some('x') || d == Some('b') || d == Some('o')) {
        lemma_radix_scan_case(
            a,
            b,
            p + 2,
            p + 2,
            16,
            seq![
                "Expect at least one hex digits after the prefix 0x"@,
                "Hex digit mean 0 to 9 and a to f"@,
            ],
            "Invalid hex decimal number"@,
        );
        lemma_radix_scan_case(
            a,
            b,
            p + 2,
            p + 2,
            2,
            seq![
                "Expect at least one binary digits after the prefix 0b"@,
                "Binary digit mean 0 or 1"@,
            ],
            "Invalid binary number"@,
        );
        lemma_radix_scan_case(
            a,
            b,
            p + 2,
            p + 2,
            8,
            seq![
                "Expect at least one octal digits after the prefix 0o"@,
                "Octal digit mean 0 to 8 number"@,
            ],
            "Invalid octal number"@,
        );
    } else {
        lemma_number_scan_case(a, b, p);
    }
}

/// The letter behind a leading `0` that names a base is no part of a word.
proof fn lemma_prefix_not_in_word(s: Seq<char>, p: int)
    requires
        0 <= p < s.len(),
        s[p] == '0',
        char_at(s, p + 1) == Some('x') || char_at(s, p + 1) == Some('b') || char_at(s, p + 1)
            == Some('o'),
    ensures
        !in_word(s, p, p + 1),
{
    if in_word(s, p, p + 1) {
        lemma_not_in_word(s, p, p + 1);
        lemma_run_end(s, p + 2, CharClass::Numeral(16));
        lemma_run_end(s, p + 2, CharClass::Numeral(8));
        lemma_run_end(s, p + 2, CharClass::Numeral(2));
    }
}

/// An operator is one in both texts.
proof fn lemma_operator_case(a: Seq<char>, b: Seq<char>, p: int)
    requires
        same_but_case(a, b),
        0 <= p < a.len(),
        a[p] == b[p],
    ensures
        operator_at(a, p) == operator_at(b, p),
{
    reveal(operator_at);
    if p + 1 < a.len() {
        assert(lower(a[p + 1]) == lower(b[p + 1]));
        lemma_lower_eq(a[p + 1], b[p + 1]);
    }
    if p + 2 < a.len() {
        assert(lower(a[p + 2]) == lower(b[p + 2]));
        lemma_lower_eq(a[p + 2], b[p + 2]);
    }
    let da = char_at(a, p + 1);
    let db = char_at(b, p + 1);
    let ea = char_at(a, p + 2);
    let eb = char_at(b, p + 2);
    assert(da == Some('|') <==> db == Some('|'));
    assert(da == Some('&') <==> db == Some('&'));
    assert(da == Some('.') <==> db == Some('.'));
    assert(da == Some('=') <==> db == Some('='));
    assert(da == Some('>') <==> db == Some('>'));
    assert(da == Some('<') <==> db == Some('<'));
    assert(ea == Some('>') <==> eb == Some('>'));
}

/// A comment ends at one place in both texts.
proof fn lemma_comment_case(a: Seq<char>, b: Seq<char>, p: int)
    requires
        same_but_case(a, b),
        0 <= p,
        p + 2 <= a.len(),
    ensures
        line_comment_end(a, p) == line_comment_end(b, p),
        block_comment_scan(a, p) == block_comment_scan(b, p),
{
    lemma_run_end_case(a, b, p + 2, CharClass::Except('\n'));
    lemma_comment_close_case(a, b, p + 2);
    let close = comment_close(a, p + 2);
    lemma_comment_close_bounds(a, p + 2);
    lemma_byte_offset_case(a, b, close);
}

/// At a position that both texts reach, both hold the same.
proof fn lemma_scan_case(a: Seq<char>, b: Seq<char>, p: int)
    requires
        same_but_case(a, b),
        0 <= p < a.len(),
        forall|i: int|
            p <= i < a.len() && #[trigger] a[i] != b[i] ==> in_word(a, p, i) && in_word(b, p, i),
    ensures
        scan_at(a, p) == scan_at(b, p),
{
    let c = a[p];
    assert(lower(a[p]) == lower(b[p]));
    lemma_lower_eq(a[p], b[p]);
    lemma_byte_offset_case(a, b, p);
    if p + 1 < a.len() {
        assert(lower(a[p + 1]) == lower(b[p + 1]));
        lemma_lower_eq(a[p + 1], b[p + 1]);
    }
    if p + 2 <= a.len() {
        lemma_byte_offset_case(a, b, p + 2);
    }
    let da = char_at(a, p + 1);
    let db = char_at(b, p + 1);
    if is_letter(c) {
        lemma_identifier_scan_case(a, b, p);
    } else if c == '@' {
        lemma_global_variable_scan_case(a, b, p);
    } else if is_digit(c) {
        if da != db {
            assert(a[p + 1] != b[p + 1]);
            assert(in_word(a, p, p + 1) && in_word(b, p, p + 1));
            if c == '0' && (da == Some('x') || da == Some('b') || da == Some('o')) {
                lemma_prefix_not_in_word(a, p);
            }
            if c == '0' && (db == Some('x') || db == Some('b') || db == Some('o')) {
                lemma_prefix_not_in_word(b, p);
            }
        }
        lemma_numeral_scan_case(a, b, p);
    } else if c == '\'' || c == '"' || c == '`' {
        assert forall|i: int| p <= i < a.len() && #[trigger] a[i] != b[i] implies ends_by(
            scan_at(a, p),
            i,
        ) by {
            lemma_not_in_word(a, p, i);
        }
        if c == '\'' {
            lemma_quoted_scan_case(
                a,
                b,
                p,
                '\'',
                TokenKind::String,
                "Unterminated single quote string"@,
                "Add ' at the end of the String literal"@,
            );
        } else if c == '"' {
            lemma_quoted_scan_case(
                a,
                b,
                p,
                '"',
                TokenKind::String,
                "Unterminated double quote string"@,
                "Add \" at the end of the String literal"@,
            );
        } else {
            lemma_quoted_scan_case(
                a,
                b,
                p,
                '`',
                TokenKind::Symbol,
                "Unterminated backticks"@,
                "Add ` at the end of the identifier"@,
            );
        }
    } else if (c == '-' && da == Some('-')) || (c == '/' && da == Some('*')) {
        lemma_comment_case(a, b, p);
    } else if is_blank(c) {
    } else {
        lemma_operator_case(a, b, p);
    }
}

/// The place at which a comment closes lies in the text.
pub proof fn lemma_comment_close_bounds(s: Seq<char>, p: int)
    requires
        0 <= p <= s.len(),
    ensures
        p <= comment_close(s, p) <= s.len(),
    decreases s.len() - p,
{
    if p + 1 < s.len() && !(s[p] == '*' && s[p + 1] == '/') {
        lemma_comment_close_bounds(s, p + 1);
    }
}

/// From a position that both texts reach, both hold the same tokens.
proof fn lemma_tokens_case(a: Seq<char>, b: Seq<char>, p: int)
    requires
        same_but_case(a, b),
        0 <= p <= a.len(),
        forall|i: int|
            p <= i < a.len() && #[trigger] a[i] != b[i] ==> in_word(a, p, i) && in_word(b, p, i),
    ensures
        tokens_from(a, p) == tokens_from(b, p),
    decreases a.len() - p,
{
    if p < a.len() {
        lemma_scan_case(a, b, p);
        match scan_at(a, p) {
            Scan::Token { token, next } => {
                if p < next <= a.len() {
                    assert forall|i: int| next <= i < a.len() && #[trigger] a[i] != b[i] implies in_word(
                        a,
                        next,
                        i,
                    ) && in_word(b, next, i) by {
                        assert(in_word(a, p, i) && in_word(b, p, i));
                    }
                    lemma_tokens_case(a, b, next);
                }
            },
            Scan::Skip { next } => {
                if p < next <= a.len() {
                    assert forall|i: int| next <= i < a.len() && #[trigger] a[i] != b[i] implies in_word(
                        a,
                        next,
                        i,
                    ) && in_word(b, next, i) by {
                        assert(in_word(a, p, i) && in_word(b, p, i));
                    }
                    lemma_tokens_case(a, b, next);
                }
            },
            Scan::Fail { error } => {},
        }
    }
}

/// Reserved words and identifiers are read whatever the case of their
/// letters: two queries that are one text but for the case of letters in
/// reserved words and identifiers have the same tokens, or fail with the
/// same error.
pub proof fn lemma_case_insensitive(a: Seq<char>, b: Seq<char>)
    requires
        same_but_case_of_words(a, b),
    ensures
        tokens_of(a) == tokens_of(b),
{
    lemma_tokens_case(a, b, 0);
}

} // verus!
