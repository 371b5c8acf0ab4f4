//! Characters and text: the character classes of the query language,
//! lower-casing, numerals, and the byte offset of each character of a query.

use vstd::prelude::*;
use vstd::std_specs::iter::IteratorSpec;
use vstd::utf8::encode_scalar;
use vstd::utf8::encode_utf8;

verus! {

/// `String::push` appends one character at the end of the string.
pub assume_specification[ std::string::String::push ](s: &mut std::string::String, ch: char)
    ensures
        final(s)@ == old(s)@.push(ch),
;

/// `a` to `z` and `A` to `Z`.
pub open spec fn is_letter(c: char) -> bool {
    ('a' <= c && c <= 'z') || ('A' <= c && c <= 'Z')
}

/// `0` to `9`.
pub open spec fn is_digit(c: char) -> bool {
    '0' <= c && c <= '9'
}

/// What may follow the first letter of an identifier: a letter, a digit or `_`.
pub open spec fn is_word_char(c: char) -> bool {
    is_letter(c) || is_digit(c) || c == '_'
}

/// The value of `c` as a digit in bases up to 16, or 16 if it is none.
pub open spec fn digit_value(c: char) -> nat {
    if '0' <= c && c <= '9' {
        (c as u32 - '0' as u32) as nat
    } else if 'a' <= c && c <= 'f' {
        (c as u32 - 'a' as u32 + 10) as nat
    } else if 'A' <= c && c <= 'F' {
        (c as u32 - 'A' as u32 + 10) as nat
    } else {
        16
    }
}

/// `c` is a digit of base `radix`.
pub open spec fn is_radix_digit(c: char, radix: nat) -> bool {
    digit_value(c) < radix
}

/// The lower-case form of an ASCII letter; any other character unchanged.
pub open spec fn lower(c: char) -> char {
    if 'A' <= c && c <= 'Z' {
        ((c as u8) + 32) as char
    } else {
        c
    }
}

/// `s` with every ASCII letter in lower case.
pub open spec fn lower_text(s: Seq<char>) -> Seq<char> {
    s.map_values(|c: char| lower(c))
}

/// `s` without its underscores.
pub open spec fn strip_underscores(s: Seq<char>) -> Seq<char>
    decreases s.len(),
{
    if s.len() == 0 {
        s
    } else if s.last() == '_' {
        strip_underscores(s.drop_last())
    } else {
        strip_underscores(s.drop_last()).push(s.last())
    }
}

/// The number that the digits `s` write in base `radix`, most significant first.
pub open spec fn numeral_value(s: Seq<char>, radix: nat) -> nat
    decreases s.len(),
{
    if s.len() == 0 {
        0
    } else {
        numeral_value(s.drop_last(), radix) * radix + digit_value(s.last())
    }
}

/// The decimal digit for `d`, where `d < 10`.
pub open spec fn decimal_digit(d: nat) -> char {
    (48u8 + (d as u8)) as char
}

/// The decimal numeral of `n`, without leading zeros.
pub open spec fn decimal_text(n: nat) -> Seq<char>
    decreases n,
{
    if n < 10 {
        seq![decimal_digit(n)]
    } else {
        decimal_text(n / 10).push(decimal_digit(n % 10))
    }
}

/// The number of bytes that the first `i` characters of `s` take in UTF-8.
pub open spec fn byte_offset(s: Seq<char>, i: int) -> nat {
    encode_utf8(s.take(i)).len()
}

/// The number of bytes that `c` takes in UTF-8.
pub open spec fn char_width(c: char) -> nat {
    if (c as u32) < 0x80 {
        1
    } else if (c as u32) < 0x800 {
        2
    } else if (c as u32) < 0x10000 {
        3
    } else {
        4
    }
}

/// Whether `c` is a letter from `a` to `z` or from `A` to `Z`.
pub fn letter(c: char) -> (r: bool)
    ensures
        r == is_letter(c),
{
    ('a' <= c && c <= 'z') || ('A' <= c && c <= 'Z')
}

/// Whether `c` is a digit from `0` to `9`.
pub fn digit(c: char) -> (r: bool)
    ensures
        r == is_digit(c),
{
    '0' <= c && c <= '9'
}

/// Whether `c` is a letter, a digit or `_`.
pub fn word_char(c: char) -> (r: bool)
    ensures
        r == is_word_char(c),
{
    letter(c) || digit(c) || c == '_'
}

/// The value of `c` as a digit, or 16 if it is none.
pub fn digit_of(c: char) -> (d: u8)
    ensures
        d == digit_value(c),
        d <= 16,
{
    if '0' <= c && c <= '9' {
        (c as u32 - '0' as u32) as u8
    } else if 'a' <= c && c <= 'f' {
        (c as u32 - 'a' as u32 + 10) as u8
    } else if 'A' <= c && c <= 'F' {
        (c as u32 - 'A' as u32 + 10) as u8
    } else {
        16
    }
}

/// The lower-case form of an ASCII letter; any other character unchanged.
pub fn to_lower(c: char) -> (r: char)
    ensures
        r == lower(c),
{
    if 'A' <= c && c <= 'Z' {
        ((c as u8) + 32) as char
    } else {
        c
    }
}

/// The number of bytes that `c` takes in UTF-8.
pub fn width_of(c: char) -> (w: usize)
    ensures
        w == char_width(c),
{
    let v: u32 = c as u32;
    if v < 0x80 {
        1
    } else if v < 0x800 {
        2
    } else if v < 0x10000 {
        3
    } else {
        4
    }
}

/// The characters of `s`, in order.
pub fn to_chars(s: &str) -> (v: Vec<char>)
    ensures
        v@ == s@,
{
    let mut v: Vec<char> = Vec::new();
    for c in it: s.chars()
        invariant
            v@ == it.seq().take(it.index() as int),
            it.seq() == s@,
    {
        v.push(c);
        assert(it.seq().take(it.index() + 1) =~= it.seq().take(it.index() as int).push(c));
    }
    assert(v@ =~= s@);
    v
}

/// The characters of `chars` from `from` up to `to`, as a string.
pub fn text_between(chars: &[char], from: usize, to: usize) -> (t: String)
    requires
        from <= to <= chars@.len(),
    ensures
        t@ == chars@.subrange(from as int, to as int),
{
    let mut t = String::new();
    let mut i: usize = from;
    while i < to
        invariant
            from <= i <= to <= chars@.len(),
            t@ == chars@.subrange(from as int, i as int),
        decreases to - i,
    {
        t.push(chars[i]);
        assert(chars@.subrange(from as int, i + 1) =~= chars@.subrange(from as int, i as int).push(
            chars@[i as int],
        ));
        i += 1;
    }
    t
}

/// The characters of `chars` from `from` up to `to` in lower case, as a string.
pub fn lower_text_between(chars: &[char], from: usize, to: usize) -> (t: String)
    requires
        from <= to <= chars@.len(),
    ensures
        t@ == lower_text(chars@.subrange(from as int, to as int)),
{
    let mut t = String::new();
    let mut i: usize = from;
    while i < to
        invariant
            from <= i <= to <= chars@.len(),
            t@ == lower_text(chars@.subrange(from as int, i as int)),
        decreases to - i,
    {
        t.push(to_lower(chars[i]));
        assert(lower_text(chars@.subrange(from as int, i + 1)) =~= lower_text(
            chars@.subrange(from as int, i as int),
        ).push(lower(chars@[i as int])));
        i += 1;
    }
    t
}

/// The characters of `chars` from `from` up to `to` that are no underscores.
pub fn digits_between(chars: &[char], from: usize, to: usize) -> (t: Vec<char>)
    requires
        from <= to <= chars@.len(),
    ensures
        t@ == strip_underscores(chars@.subrange(from as int, to as int)),
{
    let mut t: Vec<char> = Vec::new();
    let mut i: usize = from;
    while i < to
        invariant
            from <= i <= to <= chars@.len(),
            t@ == strip_underscores(chars@.subrange(from as int, i as int)),
        decreases to - i,
    {
        let c = chars[i];
        if c != '_' {
            t.push(c);
        }
        assert(chars@.subrange(from as int, i + 1).drop_last() =~= chars@.subrange(
            from as int,
            i as int,
        ));
        i += 1;
    }
    t
}

/// Reads `digits` as a number in base `radix`; `None` if a character is no
/// digit of that base or the number is above `i64::MAX`.
pub fn parse_numeral(digits: &[char], radix: u8) -> (r: Option<i64>)
    requires
        2 <= radix <= 16,
    ensures
        match r {
            Some(n) => {
                &&& n == numeral_value(digits@, radix as nat)
                &&& forall|i: int| 0 <= i < digits@.len() ==> is_radix_digit(digits@[i], radix as nat)
            },
            None => {
                ||| numeral_value(digits@, radix as nat) > i64::MAX
                ||| exists|i: int| 0 <= i < digits@.len() && !is_radix_digit(digits@[i], radix as nat)
            },
        },
{
    let mut value: i64 = 0;
    let mut fits = true;
    let mut i: usize = 0;
    while i < digits.len()
        invariant
            2 <= radix <= 16,
            i <= digits@.len(),
            forall|j: int| 0 <= j < i ==> is_radix_digit(digits@[j], radix as nat),
            fits ==> 0 <= value && value == numeral_value(digits@.take(i as int), radix as nat),
            !fits ==> numeral_value(digits@.take(i as int), radix as nat) > i64::MAX,
        decreases digits@.len() - i,
    {
        let d = digit_of(digits[i]);
        if d >= radix {
            return None;
        }
        proof {
            assert(digits@.take(i + 1).drop_last() =~= digits@.take(i as int));
            let before = numeral_value(digits@.take(i as int), radix as nat);
            assert(numeral_value(digits@.take(i + 1), radix as nat) == before * (radix as nat)
                + d as nat);
            assert(before * (radix as nat) >= before) by (nonlinear_arith)
                requires
                    radix >= 2,
            ;
        }
        if fits {
            if value > (i64::MAX - d as i64) / (radix as i64) {
                fits = false;
                proof {
                    let v = value as int;
                    let r = radix as int;
                    let dd = d as int;
                    assert(v * r + dd > i64::MAX) by (nonlinear_arith)
                        requires
                            v > (i64::MAX - dd) / r,
                            r >= 2,
                            0 <= dd <= 16,
                    ;
                }
            } else {
                proof {
                    let v = value as int;
                    let r = radix as int;
                    let dd = d as int;
                    assert(0 <= v * r + dd <= i64::MAX) by (nonlinear_arith)
                        requires
                            0 <= v <= (i64::MAX - dd) / r,
                            r >= 2,
                            0 <= dd <= 16,
                    ;
                }
                value = value * (radix as i64) + d as i64;
            }
        }
        i += 1;
    }
    assert(digits@.take(i as int) =~= digits@);
    if fits {
        Some(value)
    } else {
        None
    }
}

/// The decimal numeral of `n`.
pub fn decimal_string(n: u64) -> (t: String)
    ensures
        t@ == decimal_text(n as nat),
    decreases n,
{
    if n < 10 {
        let mut t = String::new();
        t.push((48u8 + n as u8) as char);
        assert(t@ =~= seq![decimal_digit(n as nat)]);
        t
    } else {
        let mut t = decimal_string(n / 10);
        t.push((48u8 + (n % 10) as u8) as char);
        t
    }
}

/// The UTF-8 encoding of a concatenation is the concatenation of the encodings.
pub proof fn lemma_encode_concat(a: Seq<char>, b: Seq<char>)
    ensures
        encode_utf8(a + b) == encode_utf8(a) + encode_utf8(b),
    decreases a.len(),
{
    if a.len() == 0 {
        assert(a + b =~= b);
        assert(encode_utf8(a) + encode_utf8(b) =~= encode_utf8(b));
    } else {
        assert((a + b).drop_first() =~= a.drop_first() + b);
        lemma_encode_concat(a.drop_first(), b);
        assert(encode_utf8(a + b) =~= encode_utf8(a) + encode_utf8(b));
    }
}

/// Each further character moves the byte offset on by its width, and no
/// offset lies beyond the length of the encoded text.
pub proof fn lemma_byte_offset_step(s: Seq<char>, i: int)
    requires
        0 <= i < s.len(),
    ensures
        byte_offset(s, i + 1) == byte_offset(s, i) + char_width(s[i]),
        byte_offset(s, i + 1) <= encode_utf8(s).len(),
        byte_offset(s, 0) == 0,
{
    let c = s[i];
    assert(s.take(i + 1) =~= s.take(i) + seq![c]);
    lemma_encode_concat(s.take(i), seq![c]);
    assert(seq![c].drop_first() =~= Seq::<char>::empty());
    assert(encode_utf8(seq![c]) =~= encode_scalar(c as u32)) by {
        reveal_with_fuel(encode_utf8, 2);
    }
    vstd::utf8::char_is_scalar(c);
    assert(encode_scalar(c as u32).len() == char_width(c));
    assert(s =~= s.take(i + 1) + s.skip(i + 1));
    lemma_encode_concat(s.take(i + 1), s.skip(i + 1));
    assert(s.take(0) =~= Seq::<char>::empty());
}

/// Strings are equal when their characters are.
pub fn same_text(a: &str, b: &str) -> (r: bool)
    ensures
        r == (a@ == b@),
{
    broadcast use vstd::utf8::encode_utf8_decode_utf8;

    let x = a.as_bytes();
    let y = b.as_bytes();
    if x.len() != y.len() {
        return false;
    }
    let mut i: usize = 0;
    while i < x.len()
        invariant
            x@.len() == y@.len(),
            i <= x@.len(),
            x@ == encode_utf8(a@),
            y@ == encode_utf8(b@),
            forall|j: int| 0 <= j < i ==> x@[j] == y@[j],
        decreases x@.len() - i,
    {
        if x[i] != y[i] {
            return false;
        }
        i += 1;
    }
    assert(x@ =~= y@);
    assert(vstd::utf8::decode_utf8(encode_utf8(a@)) == a@);
    assert(vstd::utf8::decode_utf8(encode_utf8(b@)) == b@);
    true
}

/// The text of a query: its characters, and for each of them, and for the
/// end of the text, the byte offset at which it stands.
pub struct SourceText {
    pub chars: Vec<char>,
    pub offsets: Vec<usize>,
}

impl SourceText {
    /// The offsets are those of the characters.
    pub open spec fn wf(&self) -> bool {
        &&& self.offsets@.len() == self.chars@.len() + 1
        &&& forall|i: int|
            0 <= i <= self.chars@.len() ==> #[trigger] self.offsets@[i] == byte_offset(
                self.chars@,
                i,
            )
    }

    /// The text of `script`.
    pub fn new(script: &str) -> (t: SourceText)
        ensures
            t.wf(),
            t.chars@ == script@,
    {
        let chars = to_chars(script);
        let total: usize = script.as_bytes().len();
        let mut offsets: Vec<usize> = Vec::new();
        offsets.push(0);
        assert(chars@.take(0) =~= Seq::<char>::empty());
        let mut i: usize = 0;
        while i < chars.len()
            invariant
                i <= chars@.len(),
                offsets@.len() == i + 1,
                total == encode_utf8(chars@).len(),
                forall|j: int| 0 <= j <= i ==> #[trigger] offsets@[j] == byte_offset(chars@, j),
            decreases chars@.len() - i,
        {
            proof {
                lemma_byte_offset_step(chars@, i as int);
            }
            let next: usize = offsets[i] + width_of(chars[i]);
            offsets.push(next);
            i += 1;
        }
        SourceText { chars, offsets }
    }
}

} // verus!
