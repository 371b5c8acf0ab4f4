//! The aggregate functions: each computes one value from one column of the
//! rows of a group.

use crate::object::object_views;
use crate::object::GQLObject;
use crate::object::GQLObjectView;
use crate::text::same_text;
use crate::types::DataType;
use crate::types::DataTypeView;
use crate::value::number_of;
use crate::value::Value;
use crate::value::ValueView;
use vstd::prelude::*;
use vstd::wrapping::i64_specs::wrapping_add;

verus! {

/// What an aggregate function takes and gives.
#[derive(Debug)]
pub struct AggregationPrototype {
    pub parameter: DataType,
    pub result: DataType,
}

/// A row of `objects` holds nothing under `field`.
pub open spec fn lacks(objects: Seq<GQLObjectView>, field: Seq<char>) -> bool {
    exists|i: int| 0 <= i < objects.len() && (#[trigger] objects[i]).get(field) is None
}

/// The numbers of the column `field` of `objects`, row by row, where every
/// row holds the column. What is no integer counts as 0.
pub open spec fn column(objects: Seq<GQLObjectView>, field: Seq<char>) -> Seq<i64> {
    objects.map_values(|o: GQLObjectView| number_of(o.value_of(field)))
}

/// The sum of `numbers`.
pub open spec fn total(numbers: Seq<i64>) -> int
    decreases numbers.len(),
{
    if numbers.len() == 0 {
        0
    } else {
        total(numbers.drop_last()) + numbers.last()
    }
}

/// The sum of `numbers` as 64-bit addition yields it: where a sum leaves
/// the range of `i64`, it wraps around. It is the sum itself wherever that
/// lies in the range of `i64`.
pub open spec fn wrapped_total(numbers: Seq<i64>) -> i64
    decreases numbers.len(),
{
    if numbers.len() == 0 {
        0
    } else {
        wrapping_add(wrapped_total(numbers.drop_last()), numbers.last())
    }
}

/// `a` divided by `b`, rounded towards zero.
pub open spec fn quotient(a: int, b: int) -> int
    recommends
        b > 0,
{
    if a >= 0 {
        a / b
    } else {
        -((-a) / b)
    }
}

/// `m` is the greatest of `numbers`.
pub open spec fn is_maximum(numbers: Seq<i64>, m: i64) -> bool {
    &&& exists|i: int| 0 <= i < numbers.len() && numbers[i] == m
    &&& forall|i: int| 0 <= i < numbers.len() ==> numbers[i] <= m
}

/// `m` is the least of `numbers`.
pub open spec fn is_minimum(numbers: Seq<i64>, m: i64) -> bool {
    &&& exists|i: int| 0 <= i < numbers.len() && numbers[i] == m
    &&& forall|i: int| 0 <= i < numbers.len() ==> m <= numbers[i]
}

/// The greatest of `numbers`, which are not none.
pub open spec fn maximum(numbers: Seq<i64>) -> i64
    decreases numbers.len(),
{
    if numbers.len() <= 1 {
        numbers[0]
    } else if maximum(numbers.drop_last()) >= numbers.last() {
        maximum(numbers.drop_last())
    } else {
        numbers.last()
    }
}

/// The least of `numbers`, which are not none.
pub open spec fn minimum(numbers: Seq<i64>) -> i64
    decreases numbers.len(),
{
    if numbers.len() <= 1 {
        numbers[0]
    } else if minimum(numbers.drop_last()) <= numbers.last() {
        minimum(numbers.drop_last())
    } else {
        numbers.last()
    }
}

/// `maximum` is the greatest and `minimum` the least of numbers that are
/// not none, and no other number is.
pub proof fn lemma_extremes(numbers: Seq<i64>)
    requires
        numbers.len() > 0,
    ensures
        is_maximum(numbers, maximum(numbers)),
        is_minimum(numbers, minimum(numbers)),
        forall|m: i64| is_maximum(numbers, m) ==> m == maximum(numbers),
        forall|m: i64| is_minimum(numbers, m) ==> m == minimum(numbers),
    decreases numbers.len(),
{
    if numbers.len() > 1 {
        let front = numbers.drop_last();
        lemma_extremes(front);
        let i = choose|i: int| 0 <= i < front.len() && front[i] == maximum(front);
        assert(numbers[i] == front[i]);
        let j = choose|j: int| 0 <= j < front.len() && front[j] == minimum(front);
        assert(numbers[j] == front[j]);
        assert(numbers[numbers.len() - 1] == numbers.last());
        assert forall|k: int| 0 <= k < numbers.len() implies numbers[k] <= maximum(numbers)
            && minimum(numbers) <= numbers[k] by {
            if k < front.len() {
                assert(front[k] == numbers[k]);
            }
        }
    } else {
        assert(numbers[0] == maximum(numbers));
    }
    assert forall|m: i64| is_maximum(numbers, m) implies m == maximum(numbers) by {
        let i = choose|i: int| 0 <= i < numbers.len() && numbers[i] == m;
        let k = choose|k: int| 0 <= k < numbers.len() && numbers[k] == maximum(numbers);
        assert(numbers[i] <= maximum(numbers));
        assert(numbers[k] <= m);
    }
    assert forall|m: i64| is_minimum(numbers, m) implies m == minimum(numbers) by {
        let i = choose|i: int| 0 <= i < numbers.len() && numbers[i] == m;
        let k = choose|k: int| 0 <= k < numbers.len() && numbers[k] == minimum(numbers);
        assert(minimum(numbers) <= numbers[i]);
        assert(m <= numbers[k]);
    }
}

/// The value of the aggregate function `name` on `numbers`: for `max` the
/// greatest and for `min` the least of them, for `sum` their sum as 64-bit
/// addition yields it, for `avg` their mean rounded towards zero, for
/// `count` their number; `NULL` for `max`, `min` and `avg` of no numbers.
/// `None` where `name` names no aggregate function.
pub open spec fn aggregate_value(name: Seq<char>, numbers: Seq<i64>) -> Option<ValueView> {
    if name == "max"@ {
        Some(
            if numbers.len() == 0 {
                ValueView::Null
            } else {
                ValueView::Integer(maximum(numbers))
            },
        )
    } else if name == "min"@ {
        Some(
            if numbers.len() == 0 {
                ValueView::Null
            } else {
                ValueView::Integer(minimum(numbers))
            },
        )
    } else if name == "sum"@ {
        Some(ValueView::Integer(wrapped_total(numbers)))
    } else if name == "avg"@ {
        Some(average_of(numbers))
    } else if name == "count"@ {
        Some(count_of(numbers.len()))
    } else {
        None
    }
}

/// The value of the aggregate function `name` on the column `field` of
/// `objects`. `count` is the number of rows, whatever they hold. Every
/// other function is `NULL` where a row holds nothing under `field`.
/// `None` where `name` names no aggregate function.
pub open spec fn aggregate_of(name: Seq<char>, objects: Seq<GQLObjectView>, field: Seq<char>) -> Option<
    ValueView,
> {
    if name != "count"@ && is_aggregation(name) && lacks(objects, field) {
        Some(ValueView::Null)
    } else {
        aggregate_value(name, column(objects, field))
    }
}

/// `v` is the greatest of `numbers`, or `NULL` where there is none.
pub open spec fn is_max_of(numbers: Seq<i64>, v: ValueView) -> bool {
    if numbers.len() == 0 {
        v is Null
    } else {
        v is Integer && is_maximum(numbers, v->Integer_0)
    }
}

/// `v` is the least of `numbers`, or `NULL` where there is none.
pub open spec fn is_min_of(numbers: Seq<i64>, v: ValueView) -> bool {
    if numbers.len() == 0 {
        v is Null
    } else {
        v is Integer && is_minimum(numbers, v->Integer_0)
    }
}

/// The mean of `numbers`, rounded towards zero; `NULL` where there is none.
pub open spec fn average_of(numbers: Seq<i64>) -> ValueView {
    if numbers.len() == 0 {
        ValueView::Null
    } else {
        ValueView::Integer(quotient(total(numbers), numbers.len() as int) as i64)
    }
}

/// The count `n` as a value: `n` itself, or the greatest `i64` where `n`
/// is above it.
pub open spec fn count_of(n: nat) -> ValueView {
    if n <= i64::MAX {
        ValueView::Integer(n as i64)
    } else {
        ValueView::Integer(i64::MAX)
    }
}

/// `name` is the name of an aggregate function.
pub open spec fn is_aggregation(name: Seq<char>) -> bool {
    name == "max"@ || name == "min"@ || name == "sum"@ || name == "avg"@ || name == "count"@
}

/// `v` is what the aggregate function `name` yields on `numbers`.
pub open spec fn is_aggregate(name: Seq<char>, numbers: Seq<i64>, v: ValueView) -> bool {
    if name == "max"@ {
        is_max_of(numbers, v)
    } else if name == "min"@ {
        is_min_of(numbers, v)
    } else if name == "sum"@ {
        v == ValueView::Integer(wrapped_total(numbers))
    } else if name == "avg"@ {
        v == average_of(numbers)
    } else if name == "count"@ {
        v == count_of(numbers.len())
    } else {
        false
    }
}

/// What the aggregate function `name` takes and what it gives.
pub open spec fn prototype_of(name: Seq<char>) -> Option<(DataTypeView, DataTypeView)> {
    if name == "max"@ || name == "min"@ {
        Some((DataTypeView::Number, DataTypeView::Number))
    } else if name == "sum"@ || name == "avg"@ || name == "count"@ {
        Some((DataTypeView::Any, DataTypeView::Number))
    } else {
        None
    }
}

/// The sum as 64-bit addition yields it differs from the sum by `k` times
/// the number of values of 64 bits.
pub proof fn lemma_wrapped_total_offset(numbers: Seq<i64>) -> (k: int)
    ensures
        wrapped_total(numbers) == total(numbers) + k * 0x1_0000_0000_0000_0000,
    decreases numbers.len(),
{
    if numbers.len() == 0 {
        0
    } else {
        let before = lemma_wrapped_total_offset(numbers.drop_last());
        let w = wrapped_total(numbers.drop_last());
        let x = numbers.last();
        let c: int = if w + x > i64::MAX {
            -1
        } else if w + x < i64::MIN {
            1
        } else {
            0
        };
        assert(wrapped_total(numbers) == w + x + c * 0x1_0000_0000_0000_0000);
        assert((before + c) * 0x1_0000_0000_0000_0000 == before * 0x1_0000_0000_0000_0000 + c
            * 0x1_0000_0000_0000_0000) by (nonlinear_arith);
        before + c
    }
}

/// Two numbers in the range of `i64` that differ by a multiple of the
/// number of values of 64 bits are one number.
proof fn lemma_same_in_range(a: int, b: int, k: int)
    requires
        i64::MIN <= a <= i64::MAX,
        i64::MIN <= b <= i64::MAX,
        a == b + k * 0x1_0000_0000_0000_0000,
    ensures
        a == b,
{
    assert(k == 0) by (nonlinear_arith)
        requires
            -0x1_0000_0000_0000_0000 < k * 0x1_0000_0000_0000_0000 < 0x1_0000_0000_0000_0000,
    ;
}

/// Where the sum lies in the range of `i64`, wrapping changes nothing,
/// whatever the sums on the way.
pub proof fn lemma_wrapped_total(numbers: Seq<i64>)
    requires
        i64::MIN <= total(numbers) <= i64::MAX,
    ensures
        wrapped_total(numbers) == total(numbers),
{
    let k = lemma_wrapped_total_offset(numbers);
    lemma_same_in_range(wrapped_total(numbers) as int, total(numbers), k);
}

/// The sum of two sequences in a row is the sum of their sums.
pub proof fn lemma_total_concat(a: Seq<i64>, b: Seq<i64>)
    ensures
        total(a + b) == total(a) + total(b),
        wrapped_total(a + b) == wrapping_add(wrapped_total(a), wrapped_total(b)),
    decreases b.len(),
{
    if b.len() == 0 {
        assert(a + b =~= a);
    } else {
        lemma_total_concat(a, b.drop_last());
        assert((a + b).drop_last() =~= a + b.drop_last());
        assert((a + b).last() == b.last());
        let ka = lemma_wrapped_total_offset(a);
        let kb = lemma_wrapped_total_offset(b);
        let kab = lemma_wrapped_total_offset(a + b);
        let wa = wrapped_total(a);
        let wb = wrapped_total(b);
        let c: int = if wa + wb > i64::MAX {
            -1
        } else if wa + wb < i64::MIN {
            1
        } else {
            0
        };
        assert(wrapping_add(wa, wb) == wa + wb + c * 0x1_0000_0000_0000_0000);
        assert((kab - ka - kb - c) * 0x1_0000_0000_0000_0000 == kab * 0x1_0000_0000_0000_0000 - ka
            * 0x1_0000_0000_0000_0000 - kb * 0x1_0000_0000_0000_0000 - c
            * 0x1_0000_0000_0000_0000) by (nonlinear_arith);
        lemma_same_in_range(
            wrapped_total(a + b) as int,
            wrapping_add(wa, wb) as int,
            kab - ka - kb - c,
        );
    }
}

/// The sum of a sequence is that of the sequence without one of its
/// numbers, and that number.
pub proof fn lemma_total_remove(numbers: Seq<i64>, i: int)
    requires
        0 <= i < numbers.len(),
    ensures
        total(numbers) == total(numbers.remove(i)) + numbers[i],
    decreases numbers.len(),
{
    if i == numbers.len() - 1 {
        assert(numbers.remove(i) =~= numbers.drop_last());
    } else {
        lemma_total_remove(numbers.drop_last(), i);
        assert(numbers.remove(i).drop_last() =~= numbers.drop_last().remove(i));
        assert(numbers.remove(i).last() == numbers.last());
    }
}

/// The sum does not depend on the order: two sequences that hold the same
/// numbers, each as often in the one as in the other, have one sum, also
/// as 64-bit addition yields it.
pub proof fn lemma_total_rearranged(p: Seq<i64>, q: Seq<i64>)
    requires
        p.to_multiset() == q.to_multiset(),
    ensures
        total(p) == total(q),
        wrapped_total(p) == wrapped_total(q),
    decreases p.len(),
{
    broadcast use vstd::seq_lib::to_multiset_len;

    assert(p.len() == q.len()) by {
        assert(p.to_multiset().len() == p.len());
        assert(q.to_multiset().len() == q.len());
    }
    if p.len() > 0 {
        let x = p.last();
        let front = p.drop_last();
        assert(p =~= front.push(x));
        vstd::seq_lib::to_multiset_build(front, x);
        vstd::seq_lib::to_multiset_contains(q, x);
        assert(q.to_multiset().count(x) > 0);
        let i = choose|i: int| 0 <= i < q.len() && q[i] == x;
        vstd::seq_lib::to_multiset_remove(q, i);
        assert(front.to_multiset() =~= q.remove(i).to_multiset());
        lemma_total_rearranged(front, q.remove(i));
        lemma_total_remove(q, i);
    }
    let kp = lemma_wrapped_total_offset(p);
    let kq = lemma_wrapped_total_offset(q);
    assert((kp - kq) * 0x1_0000_0000_0000_0000 == kp * 0x1_0000_0000_0000_0000 - kq
        * 0x1_0000_0000_0000_0000) by (nonlinear_arith);
    lemma_same_in_range(wrapped_total(p) as int, wrapped_total(q) as int, kp - kq);
}

/// The column of rows in a row is the columns of the two in a row.
pub proof fn lemma_column_concat(a: Seq<GQLObjectView>, b: Seq<GQLObjectView>, field: Seq<char>)
    ensures
        column(a + b, field) == column(a, field) + column(b, field),
{
    assert(column(a + b, field) =~= column(a, field) + column(b, field));
}

/// The sum of `numbers` lies between `numbers.len()` times the least and
/// the greatest `i64`.
pub proof fn lemma_total_bounds(numbers: Seq<i64>)
    ensures
        numbers.len() * i64::MIN <= total(numbers) <= numbers.len() * i64::MAX,
    decreases numbers.len(),
{
    if numbers.len() > 0 {
        lemma_total_bounds(numbers.drop_last());
        assert(numbers.drop_last().len() == numbers.len() - 1);
        assert((numbers.len() - 1) * i64::MIN + i64::MIN == numbers.len() * i64::MIN)
            by (nonlinear_arith);
        assert((numbers.len() - 1) * i64::MAX + i64::MAX == numbers.len() * i64::MAX)
            by (nonlinear_arith);
    }
}

/// Whether a row of `objects` holds nothing under `field_name`.
pub fn lacks_column(field_name: &String, objects: &Vec<GQLObject>) -> (r: bool)
    ensures
        r == lacks(object_views(objects@), field_name@),
{
    let mut i: usize = 0;
    while i < objects.len()
        invariant
            i <= objects@.len(),
            forall|j: int| 0 <= j < i ==> (#[trigger] object_views(objects@)[j]).get(field_name@) is Some,
        decreases objects@.len() - i,
    {
        if objects[i].get(field_name.as_str()).is_none() {
            assert(object_views(objects@)[i as int].get(field_name@) is None);
            return true;
        }
        assert(object_views(objects@)[i as int] == objects@[i as int]@);
        i += 1;
    }
    false
}

/// The number that `object` holds in the column `field_name`.
fn number_at(object: &GQLObject, field_name: &String) -> (n: i64)
    ensures
        n == number_of(object@.value_of(field_name@)),
{
    match object.get(field_name.as_str()) {
        Some(value) => value.as_number(),
        None => 0,
    }
}

/// The greatest number of the column `field_name`; `NULL` where there is no
/// row, and where a row holds nothing under `field_name`.
pub fn aggregation_max(field_name: &String, objects: &Vec<GQLObject>) -> (result: Value)
    ensures
        lacks(object_views(objects@), field_name@) ==> result@ is Null,
        !lacks(object_views(objects@), field_name@) ==> is_max_of(
            column(object_views(objects@), field_name@),
            result@,
        ),
{
    if lacks_column(field_name, objects) {
        return Value::Null;
    }
    if objects.len() == 0 {
        return Value::Null;
    }
    let ghost numbers = column(object_views(objects@), field_name@);
    let mut best: i64 = number_at(&objects[0], field_name);
    let ghost mut witness: int = 0;
    let mut i: usize = 1;
    while i < objects.len()
        invariant
            1 <= i <= objects@.len(),
            numbers == column(object_views(objects@), field_name@),
            0 <= witness < i,
            numbers[witness] == best,
            forall|j: int| 0 <= j < i ==> numbers[j] <= best,
        decreases objects@.len() - i,
    {
        let n = number_at(&objects[i], field_name);
        if n > best {
            best = n;
            proof {
                witness = i as int;
            }
        }
        i += 1;
    }
    Value::Integer(best)
}

/// The least number of the column `field_name`; `NULL` where there is no
/// row, and where a row holds nothing under `field_name`.
pub fn aggregation_min(field_name: &String, objects: &Vec<GQLObject>) -> (result: Value)
    ensures
        lacks(object_views(objects@), field_name@) ==> result@ is Null,
        !lacks(object_views(objects@), field_name@) ==> is_min_of(
            column(object_views(objects@), field_name@),
            result@,
        ),
{
    if lacks_column(field_name, objects) {
        return Value::Null;
    }
    if objects.len() == 0 {
        return Value::Null;
    }
    let ghost numbers = column(object_views(objects@), field_name@);
    let mut best: i64 = number_at(&objects[0], field_name);
    let ghost mut witness: int = 0;
    let mut i: usize = 1;
    while i < objects.len()
        invariant
            1 <= i <= objects@.len(),
            numbers == column(object_views(objects@), field_name@),
            0 <= witness < i,
            numbers[witness] == best,
            forall|j: int| 0 <= j < i ==> best <= numbers[j],
        decreases objects@.len() - i,
    {
        let n = number_at(&objects[i], field_name);
        if n < best {
            best = n;
            proof {
                witness = i as int;
            }
        }
        i += 1;
    }
    Value::Integer(best)
}

/// The sum of the column `field_name`, as 64-bit addition yields it: 0
/// where there is no row, and the true sum wherever that lies in the range
/// of `i64`. `NULL` where a row holds nothing under `field_name`.
pub fn aggregation_sum(field_name: &String, objects: &Vec<GQLObject>) -> (result: Value)
    ensures
        lacks(object_views(objects@), field_name@) ==> result@ is Null,
        !lacks(object_views(objects@), field_name@) ==> result@ == ValueView::Integer(
            wrapped_total(column(object_views(objects@), field_name@)),
        ),
        !lacks(object_views(objects@), field_name@) && i64::MIN <= total(
            column(object_views(objects@), field_name@),
        ) <= i64::MAX ==> result@->Integer_0 == total(
            column(object_views(objects@), field_name@),
        ),
{
    if lacks_column(field_name, objects) {
        return Value::Null;
    }
    let ghost numbers = column(object_views(objects@), field_name@);
    let mut sum: i64 = 0;
    let mut i: usize = 0;
    while i < objects.len()
        invariant
            i <= objects@.len(),
            numbers == column(object_views(objects@), field_name@),
            sum == wrapped_total(numbers.take(i as int)),
        decreases objects@.len() - i,
    {
        let n = number_at(&objects[i], field_name);
        assert(numbers.take(i + 1).drop_last() =~= numbers.take(i as int));
        sum = sum.wrapping_add(n);
        i += 1;
    }
    assert(numbers.take(i as int) =~= numbers);
    proof {
        if i64::MIN <= total(numbers) <= i64::MAX {
            lemma_wrapped_total(numbers);
        }
    }
    Value::Integer(sum)
}

/// The mean of the column `field_name`, rounded towards zero; `NULL` where
/// there is no row, and where a row holds nothing under `field_name`.
pub fn aggregation_average(field_name: &String, objects: &Vec<GQLObject>) -> (result: Value)
    ensures
        lacks(object_views(objects@), field_name@) ==> result@ is Null,
        !lacks(object_views(objects@), field_name@) ==> result@ == average_of(
            column(object_views(objects@), field_name@),
        ),
{
    if lacks_column(field_name, objects) {
        return Value::Null;
    }
    if objects.len() == 0 {
        return Value::Null;
    }
    let ghost numbers = column(object_views(objects@), field_name@);
    let mut sum: i128 = 0;
    let mut i: usize = 0;
    while i < objects.len()
        invariant
            i <= objects@.len(),
            numbers == column(object_views(objects@), field_name@),
            sum == total(numbers.take(i as int)),
        decreases objects@.len() - i,
    {
        let n = number_at(&objects[i], field_name);
        proof {
            assert(numbers.take(i + 1).drop_last() =~= numbers.take(i as int));
            lemma_total_bounds(numbers.take(i + 1));
            assert((i + 1) * i64::MIN >= usize::MAX * i64::MIN) by (nonlinear_arith)
                requires
                    i + 1 <= usize::MAX,
            ;
            assert((i + 1) * i64::MAX <= usize::MAX * i64::MAX) by (nonlinear_arith)
                requires
                    i + 1 <= usize::MAX,
            ;
        }
        sum = sum + n as i128;
        i += 1;
    }
    assert(numbers.take(i as int) =~= numbers);
    let count: i128 = objects.len() as i128;
    proof {
        lemma_total_bounds(numbers);
        assert(count * i64::MIN >= usize::MAX * i64::MIN) by (nonlinear_arith)
            requires
                count <= usize::MAX,
        ;
    }
    let mean: i128 = if sum >= 0 {
        sum / count
    } else {
        -((-sum) / count)
    };
    proof {
        lemma_total_bounds(numbers);
        let s = sum as int;
        let c = count as int;
        if s >= 0 {
            assert(0 <= s / c <= i64::MAX) by (nonlinear_arith)
                requires
                    0 <= s <= c * i64::MAX,
                    c > 0,
            ;
        } else {
            assert(0 <= (-s) / c <= -i64::MIN) by (nonlinear_arith)
                requires
                    0 < -s <= c * (-i64::MIN),
                    c > 0,
            ;
        }
    }
    Value::Integer(mean as i64)
}

/// The number of rows, whatever they hold.
pub fn aggregation_count(_field_name: &String, objects: &Vec<GQLObject>) -> (result: Value)
    ensures
        result@ == count_of(objects@.len()),
{
    let n: usize = objects.len();
    if n as u64 <= 0x7fff_ffff_ffff_ffffu64 {
        Value::Integer(n as i64)
    } else {
        Value::Integer(i64::MAX)
    }
}

/// What the aggregate function `name` takes and gives: `max` and `min` take
/// numbers, `sum`, `avg` and `count` take anything, and all give a number.
/// `None` for every other name.
pub fn aggregation_prototype(name: &str) -> (prototype: Option<AggregationPrototype>)
    ensures
        match prototype {
            Some(p) => prototype_of(name@) == Some((p.parameter@, p.result@)),
            None => prototype_of(name@) is None,
        },
{
    if same_text(name, "max") || same_text(name, "min") {
        Some(AggregationPrototype { parameter: DataType::Number, result: DataType::Number })
    } else if same_text(name, "sum") || same_text(name, "avg") || same_text(name, "count") {
        Some(AggregationPrototype { parameter: DataType::Any, result: DataType::Number })
    } else {
        None
    }
}

/// The value of the aggregate function `name` on the column `field_name` of
/// `objects`; `None` where no aggregate function has that name. Every
/// function but `count` is `NULL` where a row holds nothing under
/// `field_name`.
pub fn aggregate(name: &str, field_name: &String, objects: &Vec<GQLObject>) -> (result: Option<
    Value,
>)
    ensures
        match result {
            Some(v) => aggregate_of(name@, object_views(objects@), field_name@) == Some(v@),
            None => aggregate_of(name@, object_views(objects@), field_name@) is None,
        },
        result is Some <==> is_aggregation(name@),
        !lacks(object_views(objects@), field_name@) ==> match result {
            Some(v) => is_aggregate(name@, column(object_views(objects@), field_name@), v@),
            None => true,
        },
{
    proof {
        if objects@.len() > 0 {
            lemma_extremes(column(object_views(objects@), field_name@));
        }
        reveal_strlit("max");
        reveal_strlit("min");
        reveal_strlit("sum");
        reveal_strlit("avg");
        reveal_strlit("count");
        assert("max"@[0] == 'm' && "max"@[1] == 'a');
        assert("min"@[0] == 'm' && "min"@[1] == 'i');
        assert("sum"@[0] == 's');
        assert("avg"@[0] == 'a');
        assert("count"@[0] == 'c');
    }
    if same_text(name, "max") {
        Some(aggregation_max(field_name, objects))
    } else if same_text(name, "min") {
        Some(aggregation_min(field_name, objects))
    } else if same_text(name, "sum") {
        Some(aggregation_sum(field_name, objects))
    } else if same_text(name, "avg") {
        Some(aggregation_average(field_name, objects))
    } else if same_text(name, "count") {
        Some(aggregation_count(field_name, objects))
    } else {
        None
    }
}

/// On no rows, `count` and `sum` give 0, and `max`, `min` and `avg` give `NULL`.
pub proof fn lemma_aggregate_of_nothing(name: Seq<char>, v: ValueView)
    requires
        is_aggregate(name, Seq::empty(), v),
    ensures
        (name == "count"@ || name == "sum"@) ==> v == ValueView::Integer(0),
        (name == "max"@ || name == "min"@ || name == "avg"@) ==> v is Null,
{
    reveal_strlit("max");
    reveal_strlit("min");
    reveal_strlit("sum");
    reveal_strlit("avg");
    reveal_strlit("count");
    assert("max"@[0] == 'm' && "max"@[1] == 'a');
    assert("min"@[0] == 'm' && "min"@[1] == 'i');
    assert("sum"@[0] == 's');
    assert("avg"@[0] == 'a');
    assert("count"@[0] == 'c');
}

} // verus!
