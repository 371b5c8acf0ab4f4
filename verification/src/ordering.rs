//! The order of values: that by which rows are sorted, and that which the
//! comparisons of the query language ask for.

use crate::text::to_chars;
use crate::value::Value;
use crate::value::ValueView;
use vstd::prelude::*;

verus! {

/// `a` stands before `b`, or is `b`, where texts are ordered character by
/// character, and a text before every text that it begins.
pub open spec fn text_le(a: Seq<char>, b: Seq<char>) -> bool
    decreases a.len(),
{
    if a.len() == 0 {
        true
    } else if b.len() == 0 {
        false
    } else if a[0] != b[0] {
        a[0] < b[0]
    } else {
        text_le(a.drop_first(), b.drop_first())
    }
}

/// What a value is sorted by: `NULL` behind every other value; among the
/// others, a number by its size, a truth value with false before true, a
/// date by its moment, and a text by its characters.
pub struct SortKey {
    pub null: bool,
    pub number: i64,
    pub text: Seq<char>,
}

/// What the value `v` is sorted by.
pub open spec fn sort_key(v: ValueView) -> SortKey {
    match v {
        ValueView::Integer(n) => SortKey { null: false, number: n, text: Seq::empty() },
        ValueView::Boolean(b) => SortKey {
            null: false,
            number: if b {
                1
            } else {
                0
            },
            text: Seq::empty(),
        },
        ValueView::Date(d) => SortKey { null: false, number: d, text: Seq::empty() },
        ValueView::DateTime(d) => SortKey { null: false, number: d, text: Seq::empty() },
        ValueView::Text(t) => SortKey { null: false, number: 0, text: t },
        ValueView::Time(t) => SortKey { null: false, number: 0, text: t },
        ValueView::Range(_, _, _) => SortKey { null: false, number: 0, text: Seq::empty() },
        ValueView::Null => SortKey { null: true, number: 0, text: Seq::empty() },
    }
}

/// The key `a` stands before the key `b`, or is as `b`.
pub open spec fn key_le(a: SortKey, b: SortKey) -> bool {
    if a.null != b.null {
        b.null
    } else if a.number != b.number {
        a.number < b.number
    } else {
        text_le(a.text, b.text)
    }
}

/// The value `a` is sorted before the value `b`, or as `b`.
pub open spec fn value_le(a: ValueView, b: ValueView) -> bool {
    key_le(sort_key(a), sort_key(b))
}

/// Of two texts, one stands before the other, or they are one.
pub proof fn lemma_text_le_total(a: Seq<char>, b: Seq<char>)
    ensures
        text_le(a, b) || text_le(b, a),
        text_le(a, b) && text_le(b, a) ==> a == b,
        text_le(a, a),
    decreases a.len(),
{
    if a.len() > 0 {
        lemma_text_le_total(a.drop_first(), a.drop_first());
    }
    if a.len() > 0 && b.len() > 0 && a[0] == b[0] {
        lemma_text_le_total(a.drop_first(), b.drop_first());
        if text_le(a, b) && text_le(b, a) {
            assert(a =~= seq![a[0]] + a.drop_first());
            assert(b =~= seq![b[0]] + b.drop_first());
        }
    } else if a.len() == 0 && b.len() == 0 {
        assert(a =~= b);
    }
}

/// What stands before a text stands before what that text stands before.
pub proof fn lemma_text_le_transitive(a: Seq<char>, b: Seq<char>, c: Seq<char>)
    requires
        text_le(a, b),
        text_le(b, c),
    ensures
        text_le(a, c),
    decreases a.len(),
{
    if a.len() > 0 && b.len() > 0 && c.len() > 0 && a[0] == b[0] && b[0] == c[0] {
        lemma_text_le_transitive(a.drop_first(), b.drop_first(), c.drop_first());
    }
}

/// The order of values is total: of two values, one is sorted before the
/// other or as the other; and what is sorted before a value is sorted
/// before what that value is sorted before.
pub proof fn lemma_value_le(a: ValueView, b: ValueView, c: ValueView)
    ensures
        value_le(a, b) || value_le(b, a),
        value_le(a, a),
        value_le(a, b) && value_le(b, c) ==> value_le(a, c),
{
    lemma_text_le_total(sort_key(a).text, sort_key(b).text);
    lemma_text_le_total(sort_key(a).text, sort_key(a).text);
    if value_le(a, b) && value_le(b, c) {
        let x = sort_key(a);
        let y = sort_key(b);
        let z = sort_key(c);
        if x.null == y.null && y.null == z.null && x.number == y.number && y.number == z.number {
            lemma_text_le_transitive(x.text, y.text, z.text);
        }
    }
}

/// Whether the text `a` stands before the text `b`, or is `b`.
pub fn text_precedes(a: &str, b: &str) -> (r: bool)
    ensures
        r == text_le(a@, b@),
{
    let x = to_chars(a);
    let y = to_chars(b);
    let mut i: usize = 0;
    assert(x@.skip(0) =~= x@);
    assert(y@.skip(0) =~= y@);
    loop
        invariant
            x@ == a@,
            y@ == b@,
            i <= x@.len(),
            i <= y@.len(),
            text_le(a@, b@) == text_le(x@.skip(i as int), y@.skip(i as int)),
        decreases x@.len() - i,
    {
        if i >= x.len() {
            return true;
        }
        if i >= y.len() {
            return false;
        }
        if x[i] != y[i] {
            return x[i] < y[i];
        }
        assert(x@.skip(i as int).drop_first() =~= x@.skip(i + 1));
        assert(y@.skip(i as int).drop_first() =~= y@.skip(i + 1));
        i += 1;
    }
}

/// The number by which a value is sorted.
fn key_number(v: &Value) -> (n: i64)
    ensures
        n == sort_key(v@).number,
{
    match v {
        Value::Integer(n) => *n,
        Value::Boolean(b) => if *b {
            1
        } else {
            0
        },
        Value::Date(d) => *d,
        Value::DateTime(d) => *d,
        _ => 0,
    }
}

/// Whether the value `a` is sorted before the value `b`, or as `b`.
pub fn value_precedes(a: &Value, b: &Value) -> (r: bool)
    ensures
        r == value_le(a@, b@),
{
    let a_null = a.is_null();
    let b_null = b.is_null();
    if a_null != b_null {
        return b_null;
    }
    let m = key_number(a);
    let n = key_number(b);
    if m != n {
        return m < n;
    }
    let empty = String::new();
    let s = match a {
        Value::Text(t) => t,
        Value::Time(t) => t,
        _ => &empty,
    };
    let t = match b {
        Value::Text(t) => t,
        Value::Time(t) => t,
        _ => &empty,
    };
    text_precedes(s.as_str(), t.as_str())
}

} // verus!
