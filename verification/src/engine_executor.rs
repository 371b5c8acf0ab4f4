//! The statements of a query, carried out on rows one after the other.

use crate::aggregation::aggregate;
use crate::aggregation::aggregate_value;
use crate::aggregation::column;
use crate::aggregation::lacks;
use crate::aggregation::lacks_column;
use crate::engine_evaluator::evaluate_expression;
use crate::engine_evaluator::expression_value;
use crate::engine_evaluator::RuntimeError;
use crate::engine_function::output_name;
use crate::expression::ExpressionNode;
use crate::name_map::find_name;
use crate::name_map::names_view;
use crate::name_map::position_of;
use crate::name_map::NameMap;
use crate::object::empty_row;
use crate::object::object_views;
use crate::object::put;
use crate::object::row_views;
use crate::object::GQLObject;
use crate::object::GQLObjectView;
use crate::object::Row;
use crate::ordering::lemma_value_le;
use crate::ordering::value_le;
use crate::ordering::value_precedes;
use crate::signature::Function;
use crate::statement::AggregateFunction;
use crate::statement::AggregationFunctionsStatement;
use crate::statement::GroupByStatement;
use crate::statement::HavingStatement;
use crate::statement::LimitStatement;
use crate::statement::OffsetStatement;
use crate::statement::OrderByStatement;
use crate::statement::SelectStatement;
use crate::statement::WhereStatement;
use crate::value::value_views;
use crate::value::Value;
use crate::value::ValueView;
use vstd::prelude::*;

verus! {

/// Every row of `rows` is well formed.
pub open spec fn all_wf(rows: Seq<GQLObject>) -> bool {
    forall|i: int| 0 <= i < rows.len() ==> (#[trigger] rows[i]).wf()
}

/// The rows of `rows` for which `condition` is true, in their order; the
/// first error where the condition of a row has no value. A condition
/// that is `NULL` for a row is not true for it.
pub open spec fn kept_rows(
    rows: Seq<GQLObjectView>,
    condition: ExpressionNode,
    functions: &NameMap<Function>,
) -> Result<Seq<GQLObjectView>, RuntimeError>
    decreases rows.len(),
{
    if rows.len() == 0 {
        Ok(Seq::empty())
    } else {
        match kept_rows(rows.drop_last(), condition, functions) {
            Err(error) => Err(error),
            Ok(kept) => match expression_value(condition, rows.last(), functions) {
                Err(error) => Err(error),
                Ok(v) => if v == ValueView::Boolean(true) {
                    Ok(kept.push(rows.last()))
                } else {
                    Ok(kept)
                },
            },
        }
    }
}

/// `result` holds what `outcome` says.
pub open spec fn are_rows(
    result: Result<Vec<GQLObject>, RuntimeError>,
    outcome: Result<Seq<GQLObjectView>, RuntimeError>,
) -> bool {
    match result {
        Ok(rows) => outcome == Ok::<Seq<GQLObjectView>, RuntimeError>(object_views(rows@)) && all_wf(
            rows@,
        ),
        Err(error) => outcome == Err::<Seq<GQLObjectView>, RuntimeError>(error),
    }
}

/// The rows of `rows` for which `condition` is true.
pub fn filter_rows(condition: &ExpressionNode, rows: Vec<GQLObject>, functions: &NameMap<Function>) -> (result:
    Result<Vec<GQLObject>, RuntimeError>)
    requires
        all_wf(rows@),
    ensures
        are_rows(result, kept_rows(object_views(rows@), *condition, functions)),
{
    let ghost all = object_views(rows@);
    let ghost given = rows@;
    let mut kept: Vec<GQLObject> = Vec::new();
    assert(all.take(0) =~= Seq::empty());
    assert(object_views(kept@) =~= Seq::empty());
    for row in it: rows
        invariant
            it.seq() == given,
            all == object_views(given),
            all_wf(given),
            all_wf(kept@),
            kept_rows(all.take(it.index() as int), *condition, functions) == Ok::<
                Seq<GQLObjectView>,
                RuntimeError,
            >(object_views(kept@)),
    {
        let ghost i = it.index() as int;
        proof {
            assert(all.take(i + 1).drop_last() =~= all.take(i));
            assert(all.take(i + 1).last() == row@);
        }
        match evaluate_expression(condition, &row, functions) {
            Err(error) => {
                proof {
                    lemma_kept_rows_error(all, i + 1, *condition, functions);
                }
                return Err(error);
            },
            Ok(v) => {
                if v.as_bool() {
                    let ghost before = kept@;
                    kept.push(row);
                    assert(object_views(kept@) =~= object_views(before).push(row@));
                }
            },
        }
    }
    assert(all.take(given.len() as int) =~= all);
    Ok(kept)
}

/// An error among the first rows is an error among all rows.
pub proof fn lemma_kept_rows_error(
    rows: Seq<GQLObjectView>,
    n: int,
    condition: ExpressionNode,
    functions: &NameMap<Function>,
)
    requires
        0 <= n <= rows.len(),
        kept_rows(rows.take(n), condition, functions) is Err,
    ensures
        kept_rows(rows, condition, functions) == kept_rows(rows.take(n), condition, functions),
    decreases rows.len() - n,
{
    if n < rows.len() {
        assert(rows.take(n + 1).drop_last() =~= rows.take(n));
        lemma_kept_rows_error(rows, n + 1, condition, functions);
    } else {
        assert(rows.take(n) =~= rows);
    }
}

/// Keeps the rows for which the condition of the statement is true.
pub fn execute_where_statement(
    statement: &WhereStatement,
    rows: Vec<GQLObject>,
    functions: &NameMap<Function>,
) -> (result: Result<Vec<GQLObject>, RuntimeError>)
    requires
        all_wf(rows@),
    ensures
        are_rows(result, kept_rows(object_views(rows@), *statement.condition, functions)),
{
    filter_rows(&statement.condition, rows, functions)
}

/// Keeps the rows for which the condition of the statement is true.
pub fn execute_having_statement(
    statement: &HavingStatement,
    rows: Vec<GQLObject>,
    functions: &NameMap<Function>,
) -> (result: Result<Vec<GQLObject>, RuntimeError>)
    requires
        all_wf(rows@),
    ensures
        are_rows(result, kept_rows(object_views(rows@), *statement.condition, functions)),
{
    filter_rows(&statement.condition, rows, functions)
}

/// `rows` without its first `count` rows: nothing where it holds no more.
pub open spec fn after_offset<T>(rows: Seq<T>, count: nat) -> Seq<T> {
    if count >= rows.len() {
        Seq::empty()
    } else {
        rows.skip(count as int)
    }
}

/// The first `count` rows of `rows`: all of them where it holds no more.
pub open spec fn within_limit<T>(rows: Seq<T>, count: nat) -> Seq<T> {
    if count >= rows.len() {
        rows
    } else {
        rows.take(count as int)
    }
}

/// Leaves out the first rows, as many as the statement says.
pub fn execute_offset_statement(statement: &OffsetStatement, rows: Vec<GQLObject>) -> (result: Vec<
    GQLObject,
>)
    ensures
        result@ == after_offset(rows@, statement.count as nat),
{
    let mut rows = rows;
    let ghost given = rows@;
    if statement.count >= rows.len() {
        Vec::new()
    } else {
        let rest = rows.split_off(statement.count);
        assert(rest@ =~= after_offset(given, statement.count as nat));
        rest
    }
}

/// Keeps the first rows, as many as the statement says.
pub fn execute_limit_statement(statement: &LimitStatement, rows: Vec<GQLObject>) -> (result: Vec<
    GQLObject,
>)
    ensures
        result@ == within_limit(rows@, statement.count as nat),
{
    let mut rows = rows;
    let ghost given = rows@;
    rows.truncate(statement.count);
    assert(rows@ =~= within_limit(given, statement.count as nat));
    rows
}

/// After an offset and a limit, as many rows are left as the limit allows
/// of those that the offset leaves.
pub proof fn lemma_paging_length<T>(rows: Seq<T>, offset: nat, limit: nat)
    ensures
        within_limit(after_offset(rows, offset), limit).len() == if rows.len() - offset <= 0 {
            0
        } else if limit <= rows.len() - offset {
            limit as int
        } else {
            rows.len() - offset
        },
{
}


/// The value at position `a` of `keys` may stand before that at `b`: it is
/// sorted before it or as it, in the direction asked for.
pub open spec fn goes_first(keys: Seq<ValueView>, ascending: bool, a: int, b: int) -> bool {
    if ascending {
        value_le(keys[a], keys[b])
    } else {
        value_le(keys[b], keys[a])
    }
}

/// `order` with the position `x` put in: behind the last position whose
/// value may stand before that of `x`.
pub open spec fn inserted(order: Seq<int>, x: int, keys: Seq<ValueView>, ascending: bool) -> Seq<
    int,
>
    decreases order.len(),
{
    if order.len() == 0 {
        seq![x]
    } else if goes_first(keys, ascending, order.last(), x) {
        order.push(x)
    } else {
        inserted(order.drop_last(), x, keys, ascending).push(order.last())
    }
}

/// The first `n` positions of `keys` in the order of their values: each
/// put in, one after the other, behind those that may stand before it.
pub open spec fn sorted_order(keys: Seq<ValueView>, ascending: bool, n: nat) -> Seq<int>
    decreases n,
{
    if n == 0 {
        Seq::empty()
    } else {
        inserted(sorted_order(keys, ascending, (n - 1) as nat), n - 1, keys, ascending)
    }
}

/// `order` holds positions of `keys` below `n`, none of them twice, such
/// that of two of them the first may stand before the second, and stood
/// before it in `keys` where the second may stand before the first as well.
pub open spec fn is_stable_order(order: Seq<int>, keys: Seq<ValueView>, ascending: bool, n: int) -> bool {
    &&& forall|p: int| 0 <= p < order.len() ==> 0 <= #[trigger] order[p] < n
    &&& forall|p: int, q: int|
        0 <= p < q < order.len() ==> goes_first(keys, ascending, #[trigger] order[p], #[trigger] order[q])
            && order[p] != order[q] && (goes_first(keys, ascending, order[q], order[p])
            ==> order[p] < order[q])
}

/// Putting a further position into a stable order gives a stable order of
/// one position more, which holds that position and what the order held.
pub proof fn lemma_inserted(order: Seq<int>, x: int, keys: Seq<ValueView>, ascending: bool)
    requires
        0 <= x < keys.len(),
        is_stable_order(order, keys, ascending, x),
    ensures
        is_stable_order(inserted(order, x, keys, ascending), keys, ascending, x + 1),
        inserted(order, x, keys, ascending).len() == order.len() + 1,
        forall|e: int|
            #![trigger inserted(order, x, keys, ascending).contains(e)]
            inserted(order, x, keys, ascending).contains(e) <==> (order.contains(e) || e == x),
    decreases order.len(),
{
    let result = inserted(order, x, keys, ascending);
    if order.len() == 0 {
        assert(result[0] == x);
        assert forall|e: int| #![trigger result.contains(e)] result.contains(e) <==> (order.contains(e) || e == x) by {
            if e == x {
                assert(result[0] == e);
            }
        }
    } else {
        let last = order.last();
        assert(last == order[order.len() - 1]);
        if goes_first(keys, ascending, last, x) {
            assert forall|p: int, q: int| 0 <= p < q < result.len() implies goes_first(
                keys,
                ascending,
                #[trigger] result[p],
                #[trigger] result[q],
            ) && result[p] != result[q] && (goes_first(keys, ascending, result[q], result[p])
                ==> result[p] < result[q]) by {
                if q == order.len() {
                    assert(result[p] == order[p]);
                    if p < order.len() - 1 {
                        assert(goes_first(keys, ascending, order[p], order[order.len() - 1]));
                    }
                    lemma_value_le(keys[order[p]], keys[last], keys[x]);
                    lemma_value_le(keys[x], keys[last], keys[order[p]]);
                } else {
                    assert(result[p] == order[p] && result[q] == order[q]);
                }
            }
            assert forall|e: int| #![trigger result.contains(e)] result.contains(e) <==> (order.contains(e) || e == x) by {
                if order.contains(e) {
                    let i = choose|i: int| 0 <= i < order.len() && order[i] == e;
                    assert(result[i] == e);
                }
                if e == x {
                    assert(result[order.len() as int] == e);
                }
                if result.contains(e) {
                    let i = choose|i: int| 0 <= i < result.len() && result[i] == e;
                    if i < order.len() {
                        assert(order[i] == e);
                    }
                }
            }
        } else {
            let front = order.drop_last();
            assert forall|p: int, q: int| 0 <= p < q < front.len() implies goes_first(
                keys,
                ascending,
                #[trigger] front[p],
                #[trigger] front[q],
            ) && front[p] != front[q] && (goes_first(keys, ascending, front[q], front[p])
                ==> front[p] < front[q]) by {
                assert(front[p] == order[p] && front[q] == order[q]);
            }
            assert forall|p: int| 0 <= p < front.len() implies 0 <= #[trigger] front[p] < x by {
                assert(front[p] == order[p]);
            }
            lemma_inserted(front, x, keys, ascending);
            let inner = inserted(front, x, keys, ascending);
            lemma_value_le(keys[last], keys[x], keys[x]);
            assert forall|p: int| 0 <= p < result.len() implies 0 <= #[trigger] result[p] < x
                + 1 by {
                if p < inner.len() {
                    assert(result[p] == inner[p]);
                }
            }
            assert forall|p: int, q: int| 0 <= p < q < result.len() implies goes_first(
                keys,
                ascending,
                #[trigger] result[p],
                #[trigger] result[q],
            ) && result[p] != result[q] && (goes_first(keys, ascending, result[q], result[p])
                ==> result[p] < result[q]) by {
                if q == inner.len() {
                    assert(result[q] == last);
                    assert(result[p] == inner[p]);
                    assert(inner.contains(inner[p]));
                    if inner[p] != x {
                        assert(front.contains(inner[p]));
                        let i = choose|i: int| 0 <= i < front.len() && front[i] == inner[p];
                        assert(order[i] == front[i]);
                        assert(goes_first(keys, ascending, order[i], order[order.len() - 1]));
                    }
                } else {
                    assert(result[p] == inner[p] && result[q] == inner[q]);
                }
            }
            assert forall|e: int| #![trigger result.contains(e)] result.contains(e) <==> (order.contains(e) || e == x) by {
                if result.contains(e) {
                    let i = choose|i: int| 0 <= i < result.len() && result[i] == e;
                    if i < inner.len() {
                        assert(inner[i] == e);
                        assert(inner.contains(e));
                        if e != x {
                            assert(front.contains(e));
                            let j = choose|j: int| 0 <= j < front.len() && front[j] == e;
                            assert(order[j] == e);
                        }
                    } else {
                        assert(order[order.len() - 1] == e);
                    }
                }
                if order.contains(e) {
                    let i = choose|i: int| 0 <= i < order.len() && order[i] == e;
                    if i < front.len() {
                        assert(front[i] == e);
                        assert(front.contains(e));
                        assert(inner.contains(e));
                        let j = choose|j: int| 0 <= j < inner.len() && inner[j] == e;
                        assert(result[j] == e);
                    } else {
                        assert(result[inner.len() as int] == e);
                    }
                }
                if e == x {
                    assert(inner.contains(x));
                    let j = choose|j: int| 0 <= j < inner.len() && inner[j] == x;
                    assert(result[j] == e);
                }
            }
        }
    }
}

/// Sorting is stable: the order of the first `n` positions holds each of
/// them once; of two positions in it, the value of the first is sorted
/// before that of the second, or as it; and where two values are sorted
/// alike, the position that stood first stands first.
pub proof fn lemma_sorted_order(keys: Seq<ValueView>, ascending: bool, n: nat)
    requires
        n <= keys.len(),
    ensures
        sorted_order(keys, ascending, n).len() == n,
        is_stable_order(sorted_order(keys, ascending, n), keys, ascending, n as int),
        forall|e: int| 0 <= e < n ==> sorted_order(keys, ascending, n).contains(e),
    decreases n,
{
    if n > 0 {
        let before = sorted_order(keys, ascending, (n - 1) as nat);
        lemma_sorted_order(keys, ascending, (n - 1) as nat);
        lemma_inserted(before, n - 1, keys, ascending);
        assert forall|e: int| 0 <= e < n implies sorted_order(keys, ascending, n).contains(e) by {
            if e < n - 1 {
                assert(before.contains(e));
            }
            assert(inserted(before, n - 1, keys, ascending).contains(e));
        }
    }
}

/// Putting a position in is putting it at the place behind which every
/// value must stand behind its value, and before which the last value may
/// stand before it.
pub proof fn lemma_inserted_at(
    order: Seq<int>,
    x: int,
    keys: Seq<ValueView>,
    ascending: bool,
    p: int,
)
    requires
        0 <= p <= order.len(),
        forall|q: int| p <= q < order.len() ==> !goes_first(keys, ascending, #[trigger] order[q], x),
        p > 0 ==> goes_first(keys, ascending, order[p - 1], x),
    ensures
        inserted(order, x, keys, ascending) == order.insert(p, x),
    decreases order.len() - p,
{
    if order.len() == 0 {
        assert(order.insert(0, x) =~= seq![x]);
    } else if p == order.len() {
        assert(order.insert(p, x) =~= order.push(x));
    } else {
        let front = order.drop_last();
        assert(!goes_first(keys, ascending, order[order.len() - 1], x));
        assert forall|q: int| p <= q < front.len() implies !goes_first(
            keys,
            ascending,
            #[trigger] front[q],
            x,
        ) by {
            assert(front[q] == order[q]);
        }
        lemma_inserted_at(front, x, keys, ascending, p);
        assert(order.insert(p, x) =~= front.insert(p, x).push(order.last()));
    }
}

/// The positions in a vector, as numbers.
pub open spec fn positions(order: Seq<usize>) -> Seq<int> {
    order.map_values(|i: usize| i as int)
}

/// Whether the value at position `a` of `keys` may stand before that at `b`.
fn may_stand_before(keys: &Vec<Value>, ascending: bool, a: usize, b: usize) -> (r: bool)
    requires
        a < keys@.len(),
        b < keys@.len(),
    ensures
        r == goes_first(value_views(keys@), ascending, a as int, b as int),
{
    if ascending {
        value_precedes(&keys[a], &keys[b])
    } else {
        value_precedes(&keys[b], &keys[a])
    }
}

/// The positions of `keys` in the order of their values, ascending or
/// descending; positions of values that are sorted alike keep their order.
pub fn sort_order(keys: &Vec<Value>, ascending: bool) -> (order: Vec<usize>)
    ensures
        positions(order@) == sorted_order(value_views(keys@), ascending, keys@.len()),
        order@.len() == keys@.len(),
        forall|p: int| 0 <= p < order@.len() ==> #[trigger] order@[p] < keys@.len(),
{
    let ghost views = value_views(keys@);
    let mut order: Vec<usize> = Vec::new();
    let mut i: usize = 0;
    assert(positions(order@) =~= sorted_order(views, ascending, 0));
    while i < keys.len()
        invariant
            i <= keys@.len(),
            views == value_views(keys@),
            order@.len() == i,
            positions(order@) == sorted_order(views, ascending, i as nat),
            forall|p: int| 0 <= p < order@.len() ==> #[trigger] order@[p] < i,
        decreases keys@.len() - i,
    {
        let mut p: usize = order.len();
        loop
            invariant
                p <= order@.len(),
                i < keys@.len(),
                views == value_views(keys@),
                forall|q: int| 0 <= q < order@.len() ==> #[trigger] order@[q] < i,
                forall|q: int|
                    p <= q < order@.len() ==> !goes_first(
                        views,
                        ascending,
                        #[trigger] positions(order@)[q],
                        i as int,
                    ),
            ensures
                p <= order@.len(),
                forall|q: int|
                    p <= q < order@.len() ==> !goes_first(
                        views,
                        ascending,
                        #[trigger] positions(order@)[q],
                        i as int,
                    ),
                p > 0 ==> goes_first(views, ascending, positions(order@)[p - 1], i as int),
            decreases p,
        {
            if p == 0 {
                break;
            }
            if may_stand_before(keys, ascending, order[p - 1], i) {
                break;
            }
            p -= 1;
        }
        proof {
            lemma_inserted_at(positions(order@), i as int, views, ascending, p as int);
            assert(positions(order@.insert(p as int, i)) =~= positions(order@).insert(
                p as int,
                i as int,
            ));
        }
        order.insert(p, i);
        i += 1;
    }
    order
}

/// The value of each of `rows` under `field`, `NULL` where it has none.
pub open spec fn keys_of(rows: Seq<GQLObjectView>, field: Seq<char>) -> Seq<ValueView> {
    rows.map_values(|r: GQLObjectView| r.value_of(field))
}

/// `rows` in the order of their values under `field`, ascending or
/// descending; rows whose values are sorted alike keep their order.
pub open spec fn ordered(rows: Seq<GQLObjectView>, field: Seq<char>, ascending: bool) -> Seq<
    GQLObjectView,
> {
    let order = sorted_order(keys_of(rows, field), ascending, rows.len());
    Seq::new(rows.len(), |i: int| rows[order[i]])
}

/// The value of each of `rows` under `field`.
pub fn row_keys(rows: &Vec<GQLObject>, field: &str) -> (keys: Vec<Value>)
    ensures
        value_views(keys@) == keys_of(object_views(rows@), field@),
        keys@.len() == rows@.len(),
{
    let mut keys: Vec<Value> = Vec::new();
    let mut i: usize = 0;
    while i < rows.len()
        invariant
            i <= rows@.len(),
            keys@.len() == i,
            forall|j: int| 0 <= j < i ==> (#[trigger] keys@[j])@ == rows@[j]@.value_of(field@),
        decreases rows@.len() - i,
    {
        let key = match rows[i].get(field) {
            Some(v) => v.duplicate(),
            None => Value::Null,
        };
        keys.push(key);
        i += 1;
    }
    assert(value_views(keys@) =~= keys_of(object_views(rows@), field@));
    keys
}

/// Puts the rows in the order of their values in the column of the
/// statement, in its direction. Rows whose values are sorted alike keep
/// their order.
pub fn execute_order_by_statement(statement: &OrderByStatement, rows: Vec<GQLObject>) -> (result:
    Vec<GQLObject>)
    requires
        all_wf(rows@),
    ensures
        object_views(result@) == ordered(
            object_views(rows@),
            statement.field_name@,
            statement.is_ascending,
        ),
        all_wf(result@),
{
    let keys = row_keys(&rows, statement.field_name.as_str());
    let order = sort_order(&keys, statement.is_ascending);
    let ghost spec_order = sorted_order(
        keys_of(object_views(rows@), statement.field_name@),
        statement.is_ascending,
        rows@.len(),
    );
    let mut result: Vec<GQLObject> = Vec::new();
    let mut i: usize = 0;
    while i < order.len()
        invariant
            i <= order@.len(),
            order@.len() == rows@.len(),
            result@.len() == i,
            all_wf(rows@),
            all_wf(result@),
            positions(order@) == spec_order,
            forall|p: int| 0 <= p < order@.len() ==> #[trigger] order@[p] < rows@.len(),
            forall|j: int| 0 <= j < i ==> (#[trigger] result@[j])@ == rows@[spec_order[j]]@,
        decreases order@.len() - i,
    {
        assert(positions(order@)[i as int] == order@[i as int] as int);
        result.push(rows[order[i]].duplicate());
        i += 1;
    }
    assert(object_views(result@) =~= ordered(
        object_views(rows@),
        statement.field_name@,
        statement.is_ascending,
    ));
    result
}


/// The values of `keys` without repetition, in the order in which each
/// comes first.
pub open spec fn first_seen(keys: Seq<ValueView>) -> Seq<ValueView>
    decreases keys.len(),
{
    if keys.len() == 0 {
        Seq::empty()
    } else {
        let before = first_seen(keys.drop_last());
        if before.contains(keys.last()) {
            before
        } else {
            before.push(keys.last())
        }
    }
}

/// The rows of `rows` whose value under `field` is `key`, in their order.
pub open spec fn rows_with_key(rows: Seq<GQLObjectView>, field: Seq<char>, key: ValueView) -> Seq<
    GQLObjectView,
>
    decreases rows.len(),
{
    if rows.len() == 0 {
        Seq::empty()
    } else {
        let before = rows_with_key(rows.drop_last(), field, key);
        if rows.last().value_of(field) == key {
            before.push(rows.last())
        } else {
            before
        }
    }
}

/// The groups of `rows` by their values under `field`: one group for each
/// value, in the order in which the values come first, and in each group
/// the rows of that value, in their order.
pub open spec fn grouped(rows: Seq<GQLObjectView>, field: Seq<char>) -> Seq<Seq<GQLObjectView>> {
    let keys = first_seen(keys_of(rows, field));
    Seq::new(keys.len(), |k: int| rows_with_key(rows, field, keys[k]))
}

/// The values of groups of rows.
pub open spec fn group_views(groups: Seq<Vec<GQLObject>>) -> Seq<Seq<GQLObjectView>> {
    groups.map_values(|g: Vec<GQLObject>| object_views(g@))
}

/// Every row of every group is well formed.
pub open spec fn all_groups_wf(groups: Seq<Vec<GQLObject>>) -> bool {
    forall|k: int| 0 <= k < groups.len() ==> all_wf(#[trigger] groups[k]@)
}

/// The number of rows in all of `groups`.
pub open spec fn rows_in(groups: Seq<Seq<GQLObjectView>>) -> nat
    decreases groups.len(),
{
    if groups.len() == 0 {
        0
    } else {
        rows_in(groups.drop_last()) + groups.last().len()
    }
}

/// The position of `key` among `keys`, if it is there.
fn find_key(keys: &Vec<Value>, key: &Value) -> (at: Option<usize>)
    ensures
        match at {
            Some(k) => k < keys@.len() && keys@[k as int]@ == key@,
            None => !value_views(keys@).contains(key@),
        },
{
    let mut k: usize = 0;
    while k < keys.len()
        invariant
            k <= keys@.len(),
            forall|j: int| 0 <= j < k ==> keys@[j]@ != key@,
        decreases keys@.len() - k,
    {
        if keys[k].equals(key) {
            return Some(k);
        }
        k += 1;
    }
    assert forall|j: int| 0 <= j < value_views(keys@).len() implies value_views(keys@)[j]
        != key@ by {
        assert(value_views(keys@)[j] == keys@[j]@);
    }
    None
}

/// Makes groups of the rows by their values in the column of the
/// statement: one group for each value, in the order in which the values
/// come first; a row that has no value there counts as `NULL`.
pub fn execute_group_by_statement(statement: &GroupByStatement, rows: Vec<GQLObject>) -> (groups:
    Vec<Vec<GQLObject>>)
    requires
        all_wf(rows@),
    ensures
        group_views(groups@) == grouped(object_views(rows@), statement.field_name@),
        all_groups_wf(groups@),
{
    let ghost all = object_views(rows@);
    let ghost given = rows@;
    let ghost field = statement.field_name@;
    let mut keys: Vec<Value> = Vec::new();
    let mut groups: Vec<Vec<GQLObject>> = Vec::new();
    proof {
        assert(all.take(0) =~= Seq::empty());
        assert(keys_of(all.take(0), field) =~= Seq::empty());
        assert(value_views(keys@) =~= Seq::empty());
    }
    for row in it: rows
        invariant
            it.seq() == given,
            all == object_views(given),
            field == statement.field_name@,
            all_wf(given),
            all_groups_wf(groups@),
            groups@.len() == keys@.len(),
            value_views(keys@) == first_seen(keys_of(all.take(it.index() as int), field)),
            forall|a: int, b: int| 0 <= a < b < keys@.len() ==> keys@[a]@ != keys@[b]@,
            forall|k: int|
                0 <= k < groups@.len() ==> object_views((#[trigger] groups@[k])@) == rows_with_key(
                    all.take(it.index() as int),
                    field,
                    keys@[k]@,
                ),
    {
        let ghost i = it.index() as int;
        let ghost before_keys = keys@;
        let ghost before_groups = groups@;
        let key = match row.get(statement.field_name.as_str()) {
            Some(v) => v.duplicate(),
            None => Value::Null,
        };
        proof {
            assert(all.take(i + 1).drop_last() =~= all.take(i));
            assert(all.take(i + 1).last() == row@);
            assert(keys_of(all.take(i + 1), field).drop_last() =~= keys_of(all.take(i), field));
            assert(keys_of(all.take(i + 1), field).last() == key@);
        }
        match find_key(&keys, &key) {
            Some(k) => {
                let ghost old_group = groups@[k as int]@;
                let mut group: Vec<GQLObject> = Vec::new();
                std::mem::swap(&mut group, &mut groups[k]);
                group.push(row);
                groups[k] = group;
                proof {
                    assert(value_views(keys@)[k as int] == key@);
                    assert(value_views(keys@).contains(key@));
                    assert(object_views(groups@[k as int]@) =~= object_views(old_group).push(row@));
                    assert forall|j: int| 0 <= j < groups@.len() implies object_views(
                        (#[trigger] groups@[j])@,
                    ) == rows_with_key(all.take(i + 1), field, keys@[j]@) by {
                        if j != k {
                            assert(groups@[j] == before_groups[j]);
                        }
                    }
                }
            },
            None => {
                let mut group: Vec<GQLObject> = Vec::new();
                group.push(row);
                keys.push(key);
                groups.push(group);
                proof {
                    assert(value_views(keys@) =~= value_views(before_keys).push(key@));
                    assert forall|a: int, b: int| 0 <= a < b < keys@.len() implies keys@[a]@
                        != keys@[b]@ by {
                        if b == before_keys.len() {
                            assert(value_views(before_keys)[a] == before_keys[a]@);
                        }
                    }
                    lemma_rows_without_key(all.take(i), field, key@);
                    assert(object_views(group@) =~= seq![row@]);
                    assert forall|j: int| 0 <= j < groups@.len() implies object_views(
                        (#[trigger] groups@[j])@,
                    ) == rows_with_key(all.take(i + 1), field, keys@[j]@) by {
                        if j < before_groups.len() {
                            assert(groups@[j] == before_groups[j]);
                            assert(value_views(before_keys)[j] == before_keys[j]@);
                        }
                    }
                }
            },
        }
    }
    proof {
        assert(all.take(given.len() as int) =~= all);
        assert(group_views(groups@) =~= grouped(all, field)) by {
            assert forall|k: int| 0 <= k < groups@.len() implies group_views(groups@)[k] == grouped(
                all,
                field,
            )[k] by {
                assert(value_views(keys@)[k] == keys@[k]@);
            }
        }
    }
    groups
}

/// A value that is not among the first-seen values of rows is the value of
/// none of them.
pub proof fn lemma_rows_without_key(rows: Seq<GQLObjectView>, field: Seq<char>, key: ValueView)
    requires
        !first_seen(keys_of(rows, field)).contains(key),
    ensures
        rows_with_key(rows, field, key) == Seq::<GQLObjectView>::empty(),
    decreases rows.len(),
{
    if rows.len() > 0 {
        let keys = keys_of(rows, field);
        assert(keys.drop_last() =~= keys_of(rows.drop_last(), field));
        assert(keys.last() == rows.last().value_of(field));
        let before = first_seen(keys.drop_last());
        if before.contains(key) {
            let j = choose|j: int| 0 <= j < before.len() && before[j] == key;
            assert(first_seen(keys)[j] == key);
        }
        if keys.last() == key {
            if before.contains(key) {
            } else {
                assert(first_seen(keys)[before.len() as int] == key);
            }
        }
        lemma_rows_without_key(rows.drop_last(), field, key);
    }
}


/// `key` comes first at position `i` of `keys`.
pub open spec fn is_first_at(keys: Seq<ValueView>, key: ValueView, i: int) -> bool {
    &&& 0 <= i < keys.len()
    &&& keys[i] == key
    &&& forall|j: int| 0 <= j < i ==> keys[j] != key
}

/// `key` stands somewhere in `keys`.
pub open spec fn comes_in(keys: Seq<ValueView>, key: ValueView) -> bool {
    exists|i: int| is_first_at(keys, key, i)
}

/// The first-seen values of `keys` are those of `keys`, each once, in the
/// order in which each comes first.
pub proof fn lemma_first_seen(keys: Seq<ValueView>)
    ensures
        forall|a: int, b: int|
            0 <= a < b < first_seen(keys).len() ==> first_seen(keys)[a] != first_seen(keys)[b],
        forall|i: int| 0 <= i < keys.len() ==> first_seen(keys).contains(#[trigger] keys[i]),
        forall|a: int|
            0 <= a < first_seen(keys).len() ==> comes_in(keys, #[trigger] first_seen(keys)[a]),
        forall|a: int, b: int, i: int, j: int|
            0 <= a < b < first_seen(keys).len() && is_first_at(keys, first_seen(keys)[a], i)
                && is_first_at(keys, first_seen(keys)[b], j) ==> i < j,
    decreases keys.len(),
{
    let all = first_seen(keys);
    if keys.len() > 0 {
        let front = keys.drop_last();
        let before = first_seen(front);
        let last = keys.last();
        lemma_first_seen(front);
        assert forall|i: int| 0 <= i < keys.len() implies all.contains(#[trigger] keys[i]) by {
            if i < front.len() {
                assert(front[i] == keys[i]);
                assert(before.contains(front[i]));
                let a = choose|a: int| 0 <= a < before.len() && before[a] == keys[i];
                assert(all[a] == keys[i]);
            } else if before.contains(last) {
            } else {
                assert(all[before.len() as int] == last);
            }
        }
        assert forall|a: int| 0 <= a < all.len() implies comes_in(keys, #[trigger] all[a]) by {
            if a < before.len() {
                assert(all[a] == before[a]);
                let i = choose|i: int| is_first_at(front, before[a], i);
                assert(is_first_at(keys, all[a], i)) by {
                    assert(keys[i] == front[i]);
                    assert forall|j: int| 0 <= j < i implies keys[j] != all[a] by {
                        assert(keys[j] == front[j]);
                    }
                }
            } else {
                assert(all[a] == last);
                let i = keys.len() - 1;
                assert(is_first_at(keys, last, i)) by {
                    assert forall|j: int| 0 <= j < i implies keys[j] != last by {
                        assert(front[j] == keys[j]);
                        assert(before.contains(front[j]));
                    }
                }
            }
        }
        assert forall|a: int, b: int, i: int, j: int|
            0 <= a < b < all.len() && is_first_at(keys, all[a], i) && is_first_at(
                keys,
                all[b],
                j,
            ) implies i < j by {
            assert(all[a] == before[a]);
            let i0 = choose|i0: int| is_first_at(front, before[a], i0);
            assert(keys[i0] == front[i0]);
            if i0 < i {
                assert(keys[i0] != all[a]);
            }
            if i < i0 {
                assert(front[i] == keys[i]);
            }
            assert(i == i0);
            if b < before.len() {
                assert(all[b] == before[b]);
                let j0 = choose|j0: int| is_first_at(front, before[b], j0);
                assert(keys[j0] == front[j0]);
                if j0 < j {
                    assert(keys[j0] != all[b]);
                }
                if j < j0 {
                    assert(front[j] == keys[j]);
                }
                assert(j == j0);
            } else {
                assert(all[b] == last);
                if j < front.len() {
                    assert(front[j] == keys[j]);
                    assert(before.contains(front[j]));
                }
            }
        }
        assert forall|a: int, b: int| 0 <= a < b < all.len() implies all[a] != all[b] by {
            if b < before.len() {
                assert(all[a] == before[a] && all[b] == before[b]);
            } else {
                assert(all[a] == before[a]);
                assert(before.contains(before[a]));
            }
        }
    }
}

/// The rows of one value are rows of that value, and every row of that
/// value is among them.
pub proof fn lemma_rows_with_key(rows: Seq<GQLObjectView>, field: Seq<char>, key: ValueView)
    ensures
        forall|j: int|
            0 <= j < rows_with_key(rows, field, key).len() ==> (#[trigger] rows_with_key(
                rows,
                field,
                key,
            )[j]).value_of(field) == key,
        forall|i: int|
            0 <= i < rows.len() && (#[trigger] rows[i]).value_of(field) == key ==> rows_with_key(
                rows,
                field,
                key,
            ).contains(rows[i]),
        rows_with_key(rows, field, key).len() <= rows.len(),
    decreases rows.len(),
{
    let found = rows_with_key(rows, field, key);
    if rows.len() > 0 {
        let front = rows.drop_last();
        let before = rows_with_key(front, field, key);
        lemma_rows_with_key(front, field, key);
        assert forall|j: int| 0 <= j < found.len() implies (#[trigger] found[j]).value_of(field)
            == key by {
            if j < before.len() {
                assert(found[j] == before[j]);
            }
        }
        assert forall|i: int|
            0 <= i < rows.len() && (#[trigger] rows[i]).value_of(field) == key implies found.contains(
            rows[i],
        ) by {
            if i < front.len() {
                assert(front[i] == rows[i]);
                assert(before.contains(front[i]));
                let j = choose|j: int| 0 <= j < before.len() && before[j] == rows[i];
                assert(found[j] == rows[i]);
            } else {
                assert(found[before.len() as int] == rows[i]);
            }
        }
    }
}

/// Grouping parts the rows: every row stands in exactly one group, that
/// of its value; a group holds the rows of its value only; and the groups
/// stand in the order in which their values come first.
pub proof fn lemma_grouped(rows: Seq<GQLObjectView>, field: Seq<char>)
    ensures
        grouped(rows, field).len() == first_seen(keys_of(rows, field)).len(),
        forall|i: int|
            0 <= i < rows.len() ==> exists|k: int|
                0 <= k < grouped(rows, field).len() && first_seen(keys_of(rows, field))[k]
                    == (#[trigger] rows[i]).value_of(field) && grouped(rows, field)[k].contains(
                    rows[i],
                ),
        forall|k: int, j: int|
            0 <= k < grouped(rows, field).len() && 0 <= j < grouped(rows, field)[k].len() ==> (
            #[trigger] grouped(rows, field)[k][j]).value_of(field) == first_seen(
                keys_of(rows, field),
            )[k],
        forall|a: int, b: int|
            0 <= a < b < grouped(rows, field).len() ==> first_seen(keys_of(rows, field))[a]
                != first_seen(keys_of(rows, field))[b],
        forall|a: int, b: int, i: int, j: int|
            0 <= a < b < grouped(rows, field).len() && is_first_at(
                keys_of(rows, field),
                first_seen(keys_of(rows, field))[a],
                i,
            ) && is_first_at(keys_of(rows, field), first_seen(keys_of(rows, field))[b], j) ==> i
                < j,
{
    let all = keys_of(rows, field);
    let keys = first_seen(all);
    let groups = grouped(rows, field);
    lemma_first_seen(all);
    assert forall|i: int| 0 <= i < rows.len() implies exists|k: int|
        0 <= k < groups.len() && keys[k] == (#[trigger] rows[i]).value_of(field)
            && groups[k].contains(rows[i]) by {
        assert(all[i] == rows[i].value_of(field));
        assert(keys.contains(all[i]));
        let k = choose|k: int| 0 <= k < keys.len() && keys[k] == all[i];
        lemma_rows_with_key(rows, field, keys[k]);
        assert(groups[k].contains(rows[i]));
    }
    assert forall|k: int, j: int| 0 <= k < groups.len() && 0 <= j < groups[k].len() implies (
    #[trigger] groups[k][j]).value_of(field) == keys[k] by {
        lemma_rows_with_key(rows, field, keys[k]);
    }
}

/// The groups of `rows` for the values `keys`: for each of them the rows
/// of that value.
pub open spec fn groups_by(rows: Seq<GQLObjectView>, field: Seq<char>, keys: Seq<ValueView>) -> Seq<
    Seq<GQLObjectView>,
> {
    Seq::new(keys.len(), |k: int| rows_with_key(rows, field, keys[k]))
}

/// Groups that differ in the size of at most one group, which is one row
/// larger in the second, hold one row more in the second, or as many.
pub proof fn lemma_rows_in_one_more(
    a: Seq<Seq<GQLObjectView>>,
    b: Seq<Seq<GQLObjectView>>,
    k: int,
)
    requires
        a.len() == b.len(),
        forall|j: int| 0 <= j < a.len() && j != k ==> (#[trigger] a[j]).len() == b[j].len(),
        0 <= k < a.len() ==> b[k].len() == a[k].len() + 1,
    ensures
        rows_in(b) == rows_in(a) + if 0 <= k < a.len() {
            1nat
        } else {
            0nat
        },
    decreases a.len(),
{
    if a.len() > 0 {
        let last = a.len() - 1;
        assert(a.last() == a[last] && b.last() == b[last]);
        assert forall|j: int| 0 <= j < a.drop_last().len() && j != k implies (
        #[trigger] a.drop_last()[j]).len() == b.drop_last()[j].len() by {
            assert(a.drop_last()[j] == a[j] && b.drop_last()[j] == b[j]);
        }
        if 0 <= k < last {
            assert(a.drop_last()[k] == a[k] && b.drop_last()[k] == b[k]);
        }
        lemma_rows_in_one_more(a.drop_last(), b.drop_last(), k);
    }
}

/// Groups without rows hold no row.
pub proof fn lemma_rows_in_none(groups: Seq<Seq<GQLObjectView>>)
    requires
        forall|j: int| 0 <= j < groups.len() ==> (#[trigger] groups[j]).len() == 0,
    ensures
        rows_in(groups) == 0,
    decreases groups.len(),
{
    if groups.len() > 0 {
        assert(groups.last() == groups[groups.len() - 1]);
        assert forall|j: int| 0 <= j < groups.drop_last().len() implies (
        #[trigger] groups.drop_last()[j]).len() == 0 by {
            assert(groups.drop_last()[j] == groups[j]);
        }
        lemma_rows_in_none(groups.drop_last());
    }
}

/// The groups of the first `n` rows for values that differ, among which
/// the value of each of these rows is, hold `n` rows together.
pub proof fn lemma_groups_hold_all(
    rows: Seq<GQLObjectView>,
    field: Seq<char>,
    keys: Seq<ValueView>,
    n: int,
)
    requires
        0 <= n <= rows.len(),
        forall|a: int, b: int| 0 <= a < b < keys.len() ==> keys[a] != keys[b],
        forall|i: int| 0 <= i < n ==> keys.contains((#[trigger] rows[i]).value_of(field)),
    ensures
        rows_in(groups_by(rows.take(n), field, keys)) == n,
    decreases n,
{
    let now = groups_by(rows.take(n), field, keys);
    if n == 0 {
        lemma_rows_in_none(now);
    } else {
        let before = groups_by(rows.take(n - 1), field, keys);
        lemma_groups_hold_all(rows, field, keys, n - 1);
        let key = rows[n - 1].value_of(field);
        assert(rows.take(n).drop_last() =~= rows.take(n - 1));
        assert(rows.take(n).last() == rows[n - 1]);
        assert(keys.contains(key));
        let k = choose|k: int| 0 <= k < keys.len() && keys[k] == key;
        assert forall|j: int| 0 <= j < before.len() && j != k implies (#[trigger] before[j]).len()
            == now[j].len() by {
            assert(keys[j] != key);
        }
        lemma_rows_in_one_more(before, now, k);
    }
}

/// Grouping loses no row and makes none: the groups hold as many rows
/// together as there are rows, and every group holds at least one.
pub proof fn lemma_group_sizes(rows: Seq<GQLObjectView>, field: Seq<char>)
    ensures
        rows_in(grouped(rows, field)) == rows.len(),
        forall|k: int|
            0 <= k < grouped(rows, field).len() ==> (#[trigger] grouped(rows, field)[k]).len() >= 1,
{
    let all = keys_of(rows, field);
    let keys = first_seen(all);
    lemma_first_seen(all);
    assert forall|i: int| 0 <= i < rows.len() implies keys.contains(
        (#[trigger] rows[i]).value_of(field),
    ) by {
        assert(all[i] == rows[i].value_of(field));
    }
    lemma_groups_hold_all(rows, field, keys, rows.len() as int);
    assert(rows.take(rows.len() as int) =~= rows);
    assert(groups_by(rows, field, keys) =~= grouped(rows, field));
    assert forall|k: int| 0 <= k < grouped(rows, field).len() implies (#[trigger] grouped(
        rows,
        field,
    )[k]).len() >= 1 by {
        assert(comes_in(all, keys[k]));
        let i = choose|i: int| is_first_at(all, keys[k], i);
        assert(rows[i].value_of(field) == keys[k]);
        lemma_rows_with_key(rows, field, keys[k]);
        assert(rows_with_key(rows, field, keys[k]).contains(rows[i]));
    }
}

/// The row that stands for a group: its first row, or a row without
/// columns where it holds none.
pub open spec fn representative(group: Seq<GQLObjectView>) -> GQLObjectView {
    if group.len() == 0 {
        empty_row()
    } else {
        group[0]
    }
}

/// A call of an aggregate function: the name of the column that takes
/// its value, the name of the function, and the column that it reads.
pub struct AggregateCall {
    pub alias: Seq<char>,
    pub function_name: Seq<char>,
    pub argument: Seq<char>,
}

/// The calls that `aggregations` holds, in order.
pub open spec fn calls_of(aggregations: &NameMap<AggregateFunction>) -> Seq<AggregateCall> {
    Seq::new(
        if aggregations.names@.len() <= aggregations.items@.len() {
            aggregations.names@.len()
        } else {
            aggregations.items@.len()
        },
        |i: int|
            AggregateCall {
                alias: aggregations.names@[i]@,
                function_name: aggregations.items@[i].function_name@,
                argument: aggregations.items@[i].argument@,
            },
    )
}

/// The row that stands for `group`, with the values of the first `n` of
/// `calls` put in, each under its name, and each computed from the rows
/// of the group. An aggregate function that does not exist is an error.
pub open spec fn with_aggregates(group: Seq<GQLObjectView>, calls: Seq<AggregateCall>, n: nat) -> Result<
    GQLObjectView,
    RuntimeError,
>
    decreases n,
{
    if n == 0 || n > calls.len() {
        Ok(representative(group))
    } else {
        match with_aggregates(group, calls, (n - 1) as nat) {
            Err(error) => Err(error),
            Ok(row) => {
                let call = calls[n - 1];
                match aggregate_value(call.function_name, column(group, call.argument)) {
                    Some(v) => Ok(put(row, call.alias, v)),
                    None => Err(RuntimeError::UnknownFunction),
                }
            },
        }
    }
}

/// A row of `group` holds nothing under a column that one of `calls` reads.
pub open spec fn lacks_argument(group: Seq<GQLObjectView>, calls: Seq<AggregateCall>) -> bool {
    exists|j: int| 0 <= j < calls.len() && lacks(group, (#[trigger] calls[j]).argument)
}

/// The row that stands for `group`, with the values of `calls`. A row of
/// the group that holds nothing under a column that one of `calls` reads
/// is an error, whatever else holds; where every row holds every such
/// column, an aggregate function that does not exist is the only error.
pub open spec fn group_row(group: Seq<GQLObjectView>, calls: Seq<AggregateCall>) -> Result<
    GQLObjectView,
    RuntimeError,
> {
    if lacks_argument(group, calls) {
        Err(RuntimeError::MissingColumn)
    } else {
        with_aggregates(group, calls, calls.len())
    }
}

/// Where putting in the values of aggregate functions fails, an aggregate
/// function does not exist.
pub proof fn lemma_with_aggregates_fails(group: Seq<GQLObjectView>, calls: Seq<AggregateCall>, n: nat)
    ensures
        with_aggregates(group, calls, n) is Err ==> with_aggregates(group, calls, n)
            == Err::<GQLObjectView, RuntimeError>(RuntimeError::UnknownFunction),
    decreases n,
{
    if n > 0 && n <= calls.len() {
        lemma_with_aggregates_fails(group, calls, (n - 1) as nat);
    }
}

/// The rows that stand for `groups`, one for each group in their order,
/// with the values of the aggregate functions; or the first error.
pub open spec fn aggregated(groups: Seq<Seq<GQLObjectView>>, calls: Seq<AggregateCall>) -> Result<
    Seq<GQLObjectView>,
    RuntimeError,
>
    decreases groups.len(),
{
    if groups.len() == 0 {
        Ok(Seq::empty())
    } else {
        match aggregated(groups.drop_last(), calls) {
            Err(error) => Err(error),
            Ok(rows) => match group_row(groups.last(), calls) {
                Err(error) => Err(error),
                Ok(row) => Ok(rows.push(row)),
            },
        }
    }
}

/// An error among the first groups is an error among all groups.
pub proof fn lemma_aggregated_error(
    groups: Seq<Seq<GQLObjectView>>,
    n: int,
    calls: Seq<AggregateCall>,
)
    requires
        0 <= n <= groups.len(),
        aggregated(groups.take(n), calls) is Err,
    ensures
        aggregated(groups, calls) == aggregated(groups.take(n), calls),
    decreases groups.len() - n,
{
    if n < groups.len() {
        assert(groups.take(n + 1).drop_last() =~= groups.take(n));
        lemma_aggregated_error(groups, n + 1, calls);
    } else {
        assert(groups.take(n) =~= groups);
    }
}

/// An error among the first aggregate functions is an error among all.
pub proof fn lemma_with_aggregates_error(
    group: Seq<GQLObjectView>,
    calls: Seq<AggregateCall>,
    n: nat,
    m: nat,
)
    requires
        n <= m <= calls.len(),
        with_aggregates(group, calls, n) is Err,
    ensures
        with_aggregates(group, calls, m) == with_aggregates(group, calls, n),
    decreases m - n,
{
    if n < m {
        lemma_with_aggregates_error(group, calls, n, (m - 1) as nat);
    }
}

/// The row that stands for `group`, with the values of the aggregate
/// functions of `aggregations`. It fails with `MissingColumn` if and only
/// if a row of the group holds nothing under a column that one of the
/// functions reads; else with `UnknownFunction` if and only if one of the
/// functions does not exist.
pub fn aggregate_group(group: &Vec<GQLObject>, aggregations: &NameMap<AggregateFunction>) -> (result:
    Result<GQLObject, RuntimeError>)
    requires
        all_wf(group@),
    ensures
        match result {
            Ok(row) => group_row(object_views(group@), calls_of(aggregations)) == Ok::<
                GQLObjectView,
                RuntimeError,
            >(row@) && row.wf(),
            Err(error) => group_row(object_views(group@), calls_of(aggregations)) == Err::<
                GQLObjectView,
                RuntimeError,
            >(error),
        },
        result == Err::<GQLObject, RuntimeError>(RuntimeError::MissingColumn) <==> lacks_argument(
            object_views(group@),
            calls_of(aggregations),
        ),
        result is Err ==> result->Err_0 == RuntimeError::MissingColumn || result->Err_0
            == RuntimeError::UnknownFunction,
{
    let ghost views = object_views(group@);
    let ghost calls = calls_of(aggregations);
    let count: usize = if aggregations.names.len() <= aggregations.items.len() {
        aggregations.names.len()
    } else {
        aggregations.items.len()
    };
    let mut j: usize = 0;
    while j < count
        invariant
            j <= count,
            count == calls.len(),
            calls == calls_of(aggregations),
            views == object_views(group@),
            forall|k: int| 0 <= k < j ==> !lacks(views, (#[trigger] calls[k]).argument),
        decreases count - j,
    {
        assert(calls[j as int].argument == aggregations.items@[j as int].argument@);
        if lacks_column(&aggregations.items[j].argument, group) {
            return Err(RuntimeError::MissingColumn);
        }
        j += 1;
    }
    proof {
        lemma_with_aggregates_fails(views, calls, calls.len());
    }
    let mut row = if group.len() == 0 {
        GQLObject::new()
    } else {
        group[0].duplicate()
    };
    assert(row@ == representative(views));
    let mut n: usize = 0;
    while n < count
        invariant
            n <= count,
            count == calls.len(),
            calls == calls_of(aggregations),
            views == object_views(group@),
            row.wf(),
            !lacks_argument(views, calls),
            with_aggregates(views, calls, n as nat) == Ok::<GQLObjectView, RuntimeError>(row@),
        decreases count - n,
    {
        let call = &aggregations.items[n];
        assert(calls[n as int].function_name == call.function_name@);
        assert(!lacks(views, calls[n as int].argument));
        match aggregate(call.function_name.as_str(), &call.argument, group) {
            Some(v) => {
                row.insert(aggregations.names[n].clone(), v);
            },
            None => {
                proof {
                    lemma_with_aggregates_error(views, calls, (n + 1) as nat, count as nat);
                }
                return Err(RuntimeError::UnknownFunction);
            },
        }
        n += 1;
    }
    Ok(row)
}

/// Computes the aggregate functions of the statement for each group, and
/// lets one row stand for the group: its first row, with the value of
/// each aggregate function under the name of that function's column.
pub fn execute_aggregation_function_statement(
    statement: &AggregationFunctionsStatement,
    groups: Vec<Vec<GQLObject>>,
) -> (result: Result<Vec<GQLObject>, RuntimeError>)
    requires
        all_groups_wf(groups@),
    ensures
        are_rows(result, aggregated(group_views(groups@), calls_of(&statement.aggregations))),
{
    let ghost views = group_views(groups@);
    let ghost calls = calls_of(&statement.aggregations);
    let mut rows: Vec<GQLObject> = Vec::new();
    let mut k: usize = 0;
    proof {
        assert(views.take(0) =~= Seq::empty());
        assert(object_views(rows@) =~= Seq::empty());
    }
    while k < groups.len()
        invariant
            k <= groups@.len(),
            views == group_views(groups@),
            calls == calls_of(&statement.aggregations),
            all_groups_wf(groups@),
            all_wf(rows@),
            aggregated(views.take(k as int), calls) == Ok::<Seq<GQLObjectView>, RuntimeError>(
                object_views(rows@),
            ),
        decreases groups@.len() - k,
    {
        proof {
            assert(views.take(k + 1).drop_last() =~= views.take(k as int));
            assert(views.take(k + 1).last() == object_views(groups@[k as int]@));
        }
        match aggregate_group(&groups[k], &statement.aggregations) {
            Ok(row) => {
                let ghost before = rows@;
                rows.push(row);
                assert(object_views(rows@) =~= object_views(before).push(row@));
            },
            Err(error) => {
                proof {
                    lemma_aggregated_error(views, k + 1, calls);
                }
                return Err(error);
            },
        }
        k += 1;
    }
    assert(views.take(k as int) =~= views);
    Ok(rows)
}

/// Those of `fields` that `hidden` does not name, in their order.
pub open spec fn visible(fields: Seq<Seq<char>>, hidden: Seq<Seq<char>>) -> Seq<Seq<char>>
    decreases fields.len(),
{
    if fields.len() == 0 {
        Seq::empty()
    } else if position_of(hidden, fields.last()) < hidden.len() {
        visible(fields.drop_last(), hidden)
    } else {
        visible(fields.drop_last(), hidden).push(fields.last())
    }
}

/// The titles of a result: the names under which the columns that are
/// selected and not hidden are handed out, in the order of the selection.
pub open spec fn titles_of(
    fields: Seq<Seq<char>>,
    hidden: Seq<Seq<char>>,
    alias_table: &NameMap<String>,
) -> Seq<Seq<char>> {
    visible(fields, hidden).map_values(|f: Seq<char>| output_name(alias_table, f))
}

/// The values of `row` under `titles`, in their order; `NULL` where the
/// row holds nothing under a title.
pub open spec fn projected_row(row: GQLObjectView, titles: Seq<Seq<char>>) -> Seq<ValueView> {
    titles.map_values(|t: Seq<char>| row.value_of(t))
}

/// The values of each of `rows` under `titles`.
pub open spec fn projected(rows: Seq<GQLObjectView>, titles: Seq<Seq<char>>) -> Seq<Seq<ValueView>> {
    rows.map_values(|r: GQLObjectView| projected_row(r, titles))
}

/// The titles of the result of a selection, of which `hidden` are not shown.
pub fn select_titles(statement: &SelectStatement, hidden: &Vec<String>) -> (titles: Vec<String>)
    ensures
        names_view(titles@) == titles_of(
            names_view(statement.fields@),
            names_view(hidden@),
            &statement.alias_table,
        ),
{
    let ghost fields = names_view(statement.fields@);
    let mut titles: Vec<String> = Vec::new();
    let mut i: usize = 0;
    proof {
        assert(fields.take(0) =~= Seq::empty());
        assert(names_view(titles@) =~= Seq::empty());
    }
    while i < statement.fields.len()
        invariant
            i <= statement.fields@.len(),
            fields == names_view(statement.fields@),
            names_view(titles@) == titles_of(
                fields.take(i as int),
                names_view(hidden@),
                &statement.alias_table,
            ),
        decreases statement.fields@.len() - i,
    {
        let field = &statement.fields[i];
        proof {
            assert(fields.take(i + 1).drop_last() =~= fields.take(i as int));
            assert(fields.take(i + 1).last() == field@);
        }
        if find_name(hidden, field.as_str()).is_none() {
            let title = match statement.alias_table.get(field.as_str()) {
                Some(alias) => alias.clone(),
                None => field.clone(),
            };
            let ghost before = titles@;
            titles.push(title);
            assert(names_view(titles@) =~= names_view(before).push(title@));
            assert(titles_of(fields.take(i + 1), names_view(hidden@), &statement.alias_table)
                =~= titles_of(
                fields.take(i as int),
                names_view(hidden@),
                &statement.alias_table,
            ).push(output_name(&statement.alias_table, field@)));
        }
        i += 1;
    }
    assert(fields.take(i as int) =~= fields);
    titles
}

/// The rows of a result: for each of `rows` its values under `titles`.
pub fn project_rows(titles: &Vec<String>, rows: &Vec<GQLObject>) -> (result: Vec<Row>)
    ensures
        row_views(result@) == projected(object_views(rows@), names_view(titles@)),
{
    let mut result: Vec<Row> = Vec::new();
    let mut i: usize = 0;
    while i < rows.len()
        invariant
            i <= rows@.len(),
            result@.len() == i,
            forall|j: int|
                0 <= j < i ==> (#[trigger] result@[j])@ == projected_row(
                    rows@[j]@,
                    names_view(titles@),
                ),
        decreases rows@.len() - i,
    {
        let row = &rows[i];
        let mut values: Vec<Value> = Vec::new();
        let mut t: usize = 0;
        while t < titles.len()
            invariant
                t <= titles@.len(),
                values@.len() == t,
                forall|j: int|
                    0 <= j < t ==> (#[trigger] values@[j])@ == row@.value_of(titles@[j]@),
            decreases titles@.len() - t,
        {
            let value = match row.get(titles[t].as_str()) {
                Some(v) => v.duplicate(),
                None => Value::Null,
            };
            values.push(value);
            t += 1;
        }
        let line = Row { values };
        assert(line@ =~= projected_row(row@, names_view(titles@)));
        result.push(line);
        i += 1;
    }
    assert(row_views(result@) =~= projected(object_views(rows@), names_view(titles@)));
    result
}

/// A result has as many titles as columns are selected and not hidden,
/// and each of its rows has as many values as it has titles.
pub proof fn lemma_projection(
    rows: Seq<GQLObjectView>,
    fields: Seq<Seq<char>>,
    hidden: Seq<Seq<char>>,
    alias_table: &NameMap<String>,
)
    ensures
        titles_of(fields, hidden, alias_table).len() == visible(fields, hidden).len(),
        projected(rows, titles_of(fields, hidden, alias_table)).len() == rows.len(),
        forall|i: int|
            0 <= i < rows.len() ==> (#[trigger] projected(
                rows,
                titles_of(fields, hidden, alias_table),
            )[i]).len() == visible(fields, hidden).len(),
        forall|t: int|
            0 <= t < visible(fields, hidden).len() ==> #[trigger] titles_of(
                fields,
                hidden,
                alias_table,
            )[t] == output_name(alias_table, visible(fields, hidden)[t]),
{
}

} // verus!
