//! A query carried out on the rows of its table.

use crate::engine_evaluator::RuntimeError;
use crate::engine_executor::after_offset;
use crate::engine_executor::aggregated;
use crate::engine_executor::all_wf;
use crate::engine_executor::calls_of;
use crate::engine_executor::execute_aggregation_function_statement;
use crate::engine_executor::execute_group_by_statement;
use crate::engine_executor::execute_having_statement;
use crate::engine_executor::execute_limit_statement;
use crate::engine_executor::execute_offset_statement;
use crate::engine_executor::execute_order_by_statement;
use crate::engine_executor::execute_where_statement;
use crate::engine_executor::group_views;
use crate::engine_executor::grouped;
use crate::engine_executor::kept_rows;
use crate::engine_executor::lemma_paging_length;
use crate::engine_executor::ordered;
use crate::engine_executor::project_rows;
use crate::engine_executor::projected;
use crate::engine_executor::select_titles;
use crate::engine_executor::titles_of;
use crate::engine_executor::visible;
use crate::engine_executor::within_limit;
use crate::name_map::names_view;
use crate::name_map::NameMap;
use crate::object::object_views;
use crate::object::GQLObject;
use crate::object::GQLObjectView;
use crate::object::GitQLObject;
use crate::object::GitQLObjectView;
use crate::object::Group;
use crate::signature::Function;
use crate::statement::AggregateFunction;
use crate::statement::AggregationFunctionsStatement;
use crate::statement::GQLQuery;
use crate::statement::GroupByStatement;
use crate::statement::HavingStatement;
use crate::statement::LimitStatement;
use crate::statement::OffsetStatement;
use crate::statement::OrderByStatement;
use crate::statement::SelectStatement;
use crate::statement::StatementNode;
use crate::statement::WhereStatement;
use vstd::prelude::*;

verus! {

/// Rows, or the reason why there are none.
pub type Rows = Result<Seq<GQLObjectView>, RuntimeError>;

/// The statement of `query` that says what is selected, which stands
/// under `select`.
pub open spec fn select_of(query: &GQLQuery) -> Option<SelectStatement> {
    match query.statements.item("select"@) {
        Some(StatementNode::Select(s)) => Some(s),
        _ => None,
    }
}

/// The statement of `query` under `where`.
pub open spec fn where_of(query: &GQLQuery) -> Option<WhereStatement> {
    match query.statements.item("where"@) {
        Some(StatementNode::Where(s)) => Some(s),
        _ => None,
    }
}

/// The statement of `query` under `group`.
pub open spec fn group_by_of(query: &GQLQuery) -> Option<GroupByStatement> {
    match query.statements.item("group"@) {
        Some(StatementNode::GroupBy(s)) => Some(s),
        _ => None,
    }
}

/// The statement of `query` under `aggregation`.
pub open spec fn aggregations_of(query: &GQLQuery) -> Option<AggregationFunctionsStatement> {
    match query.statements.item("aggregation"@) {
        Some(StatementNode::AggregateFunction(s)) => Some(s),
        _ => None,
    }
}

/// The statement of `query` under `having`.
pub open spec fn having_of(query: &GQLQuery) -> Option<HavingStatement> {
    match query.statements.item("having"@) {
        Some(StatementNode::Having(s)) => Some(s),
        _ => None,
    }
}

/// The statement of `query` under `order`.
pub open spec fn order_by_of(query: &GQLQuery) -> Option<OrderByStatement> {
    match query.statements.item("order"@) {
        Some(StatementNode::OrderBy(s)) => Some(s),
        _ => None,
    }
}

/// The statement of `query` under `offset`.
pub open spec fn offset_of(query: &GQLQuery) -> Option<OffsetStatement> {
    match query.statements.item("offset"@) {
        Some(StatementNode::Offset(s)) => Some(s),
        _ => None,
    }
}

/// The statement of `query` under `limit`.
pub open spec fn limit_of(query: &GQLQuery) -> Option<LimitStatement> {
    match query.statements.item("limit"@) {
        Some(StatementNode::Limit(s)) => Some(s),
        _ => None,
    }
}

/// The rows that meet the condition under `where`; all rows where the
/// query has none.
pub open spec fn after_where(query: &GQLQuery, rows: Seq<GQLObjectView>, functions: &NameMap<Function>) -> Rows {
    match where_of(query) {
        Some(statement) => kept_rows(rows, *statement.condition, functions),
        None => Ok(rows),
    }
}

/// The groups of the rows: by the column that the query groups by; one
/// group of all rows where it groups by none.
pub open spec fn groups_of(query: &GQLQuery, rows: Seq<GQLObjectView>) -> Seq<Seq<GQLObjectView>> {
    match group_by_of(query) {
        Some(statement) => grouped(rows, statement.field_name@),
        None => seq![rows],
    }
}

/// The rows after grouping and aggregation. A query that neither groups
/// nor aggregates keeps its rows. Any other query keeps one row for each
/// group, with the values of its aggregate functions, whether it is said
/// to select aggregated values only or not; it fails where a row of a
/// group holds nothing under a column that an aggregate function reads.
pub open spec fn after_grouping(query: &GQLQuery, rows: Seq<GQLObjectView>) -> Rows {
    match aggregations_of(query) {
        Some(statement) => aggregated(groups_of(query, rows), calls_of(&statement.aggregations)),
        None => match group_by_of(query) {
            Some(_) => aggregated(groups_of(query, rows), Seq::empty()),
            None => Ok(rows),
        },
    }
}

/// The rows that meet the condition under `having`; all rows where the
/// query has none.
pub open spec fn after_having(query: &GQLQuery, rows: Seq<GQLObjectView>, functions: &NameMap<Function>) -> Rows {
    match having_of(query) {
        Some(statement) => kept_rows(rows, *statement.condition, functions),
        None => Ok(rows),
    }
}

/// The rows in the order that the query asks for; as they stand where it
/// asks for none.
pub open spec fn after_order(query: &GQLQuery, rows: Seq<GQLObjectView>) -> Seq<GQLObjectView> {
    match order_by_of(query) {
        Some(statement) => ordered(rows, statement.field_name@, statement.is_ascending),
        None => rows,
    }
}

/// The number of rows that the query leaves out at the start.
pub open spec fn offset_count(query: &GQLQuery) -> nat {
    match offset_of(query) {
        Some(statement) => statement.count as nat,
        None => 0,
    }
}

/// The rows without those that the query leaves out at the start, and of
/// these no more than the query allows.
pub open spec fn after_paging(query: &GQLQuery, rows: Seq<GQLObjectView>) -> Seq<GQLObjectView> {
    let rest = after_offset(rows, offset_count(query));
    match limit_of(query) {
        Some(statement) => within_limit(rest, statement.count as nat),
        None => rest,
    }
}

/// The titles of the result of the query.
pub open spec fn result_titles(query: &GQLQuery) -> Seq<Seq<char>> {
    match select_of(query) {
        Some(statement) => titles_of(
            names_view(statement.fields@),
            names_view(query.hidden_selections@),
            &statement.alias_table,
        ),
        None => Seq::empty(),
    }
}

/// The rows of the query before their columns are chosen: filtered,
/// grouped and aggregated, filtered again, ordered and paged.
pub open spec fn chosen_rows(query: &GQLQuery, rows: Seq<GQLObjectView>, functions: &NameMap<Function>) -> Rows {
    match after_where(query, rows, functions) {
        Err(error) => Err(error),
        Ok(filtered) => match after_grouping(query, filtered) {
            Err(error) => Err(error),
            Ok(aggregated) => match after_having(query, aggregated, functions) {
                Err(error) => Err(error),
                Ok(kept) => Ok(after_paging(query, after_order(query, kept))),
            },
        },
    }
}

/// The result of `query` on `rows`: its titles, and one group of rows,
/// each with its values under the titles; or the first error on the way.
pub open spec fn evaluation(query: &GQLQuery, rows: Seq<GQLObjectView>, functions: &NameMap<Function>) -> Result<
    GitQLObjectView,
    RuntimeError,
> {
    match chosen_rows(query, rows, functions) {
        Err(error) => Err(error),
        Ok(chosen) => Ok(
            GitQLObjectView {
                titles: result_titles(query),
                groups: seq![projected(chosen, result_titles(query))],
            },
        ),
    }
}

/// `result` is what `outcome` says.
pub open spec fn is_evaluation(
    result: Result<GitQLObject, RuntimeError>,
    outcome: Result<GitQLObjectView, RuntimeError>,
) -> bool {
    match result {
        Ok(object) => outcome == Ok::<GitQLObjectView, RuntimeError>(object@),
        Err(error) => outcome == Err::<GitQLObjectView, RuntimeError>(error),
    }
}

/// Carries out `query` on `rows`, the rows of its table: keeps the rows
/// that meet the condition under `where`; groups them and computes the
/// aggregate functions; keeps the rows that meet the condition under
/// `having`; orders them; leaves out those before the offset and beyond
/// the limit; and hands out, under the titles of the selection, the values
/// of each row that is left.
///
/// A query that groups or aggregates keeps one row for each group,
/// whether `select_aggregations_only` is set or not: the flag says what
/// the selection of a query that aggregates without grouping must look
/// like, and a query whose selection is otherwise is refused before it is
/// made. So the flag is not read here, and the result does not depend on
/// it.
///
/// The query fails with the first error on the way: that of a condition;
/// `MissingColumn` where a row of a group holds nothing under a column
/// that an aggregate function reads; `UnknownFunction` where an aggregate
/// function does not exist.
pub fn evaluate(query: &GQLQuery, rows: Vec<GQLObject>, functions: &NameMap<Function>) -> (result:
    Result<GitQLObject, RuntimeError>)
    requires
        all_wf(rows@),
    ensures
        is_evaluation(result, evaluation(query, object_views(rows@), functions)),
{
    let ghost given = object_views(rows@);
    let filtered = match query.statements.get("where") {
        Some(StatementNode::Where(statement)) => match execute_where_statement(
            statement,
            rows,
            functions,
        ) {
            Ok(kept) => kept,
            Err(error) => {
                return Err(error);
            },
        },
        _ => rows,
    };
    assert(after_where(query, given, functions) == Ok::<Seq<GQLObjectView>, RuntimeError>(
        object_views(filtered@),
    ));
    let ghost filtered_view = object_views(filtered@);
    let group_by = match query.statements.get("group") {
        Some(StatementNode::GroupBy(statement)) => Some(statement),
        _ => None,
    };
    let aggregations = match query.statements.get("aggregation") {
        Some(StatementNode::AggregateFunction(statement)) => Some(statement),
        _ => None,
    };
    let aggregated = if group_by.is_some() || aggregations.is_some() {
        let groups = match group_by {
            Some(statement) => execute_group_by_statement(statement, filtered),
            None => {
                let mut groups: Vec<Vec<GQLObject>> = Vec::new();
                groups.push(filtered);
                assert(group_views(groups@) =~= seq![filtered_view]);
                groups
            },
        };
        let outcome = match aggregations {
            Some(statement) => execute_aggregation_function_statement(statement, groups),
            None => {
                let none = AggregationFunctionsStatement { aggregations: NameMap::new() };
                assert(calls_of(&none.aggregations) =~= Seq::empty());
                execute_aggregation_function_statement(&none, groups)
            },
        };
        match outcome {
            Ok(rows) => rows,
            Err(error) => {
                return Err(error);
            },
        }
    } else {
        filtered
    };
    assert(after_grouping(query, filtered_view) == Ok::<Seq<GQLObjectView>, RuntimeError>(
        object_views(aggregated@),
    ));
    let ghost aggregated_view = object_views(aggregated@);
    let kept = match query.statements.get("having") {
        Some(StatementNode::Having(statement)) => match execute_having_statement(
            statement,
            aggregated,
            functions,
        ) {
            Ok(kept) => kept,
            Err(error) => {
                return Err(error);
            },
        },
        _ => aggregated,
    };
    assert(after_having(query, aggregated_view, functions) == Ok::<
        Seq<GQLObjectView>,
        RuntimeError,
    >(object_views(kept@)));
    let ghost kept_view = object_views(kept@);
    let sorted = match query.statements.get("order") {
        Some(StatementNode::OrderBy(statement)) => execute_order_by_statement(statement, kept),
        _ => kept,
    };
    assert(object_views(sorted@) == after_order(query, kept_view));
    let ghost sorted_view = object_views(sorted@);
    let rest = match query.statements.get("offset") {
        Some(StatementNode::Offset(statement)) => {
            let rest = execute_offset_statement(statement, sorted);
            assert(object_views(rest@) =~= after_offset(sorted_view, statement.count as nat));
            rest
        },
        _ => {
            assert(after_offset(sorted_view, 0) =~= sorted_view);
            sorted
        },
    };
    let ghost rest_view = object_views(rest@);
    let chosen = match query.statements.get("limit") {
        Some(StatementNode::Limit(statement)) => {
            let chosen = execute_limit_statement(statement, rest);
            assert(object_views(chosen@) =~= within_limit(rest_view, statement.count as nat));
            chosen
        },
        _ => rest,
    };
    assert(object_views(chosen@) == after_paging(query, sorted_view));
    let titles = match query.statements.get("select") {
        Some(StatementNode::Select(statement)) => select_titles(
            statement,
            &query.hidden_selections,
        ),
        _ => Vec::new(),
    };
    assert(names_view(titles@) =~= result_titles(query));
    let lines = project_rows(&titles, &chosen);
    let mut groups: Vec<Group> = Vec::new();
    groups.push(Group { rows: lines });
    let object = GitQLObject { titles, groups };
    assert(object@.groups =~= seq![projected(object_views(chosen@), result_titles(query))]);
    Ok(object)
}

/// One query on the same rows has one result: what `evaluate` hands out is
/// determined by the query, the rows and the functions.
pub proof fn lemma_same_query_same_result(
    query: &GQLQuery,
    rows: Seq<GQLObjectView>,
    functions: &NameMap<Function>,
    first: Result<GitQLObject, RuntimeError>,
    second: Result<GitQLObject, RuntimeError>,
)
    requires
        is_evaluation(first, evaluation(query, rows, functions)),
        is_evaluation(second, evaluation(query, rows, functions)),
    ensures
        first is Ok <==> second is Ok,
        first is Ok ==> first->Ok_0@ == second->Ok_0@,
        first is Err ==> first->Err_0 == second->Err_0,
{
}

/// A result has as many titles as the query selects columns that it does
/// not hide, one group, and in each row as many values as titles.
pub proof fn lemma_result_shape(
    query: &GQLQuery,
    rows: Seq<GQLObjectView>,
    functions: &NameMap<Function>,
)
    requires
        evaluation(query, rows, functions) is Ok,
        select_of(query) is Some,
    ensures
        evaluation(query, rows, functions)->Ok_0.titles.len() == visible(
            names_view(select_of(query)->0.fields@),
            names_view(query.hidden_selections@),
        ).len(),
        evaluation(query, rows, functions)->Ok_0.groups.len() == 1,
        forall|i: int|
            0 <= i < evaluation(query, rows, functions)->Ok_0.groups[0].len() ==> (
            #[trigger] evaluation(query, rows, functions)->Ok_0.groups[0][i]).len() == evaluation(
                query,
                rows,
                functions,
            )->Ok_0.titles.len(),
{
}

/// After ordering, a query keeps as many rows as its limit allows of those
/// that its offset leaves.
pub proof fn lemma_paging(query: &GQLQuery, rows: Seq<GQLObjectView>)
    requires
        limit_of(query) is Some,
    ensures
        after_paging(query, rows).len() == if rows.len() - offset_count(query) <= 0 {
            0
        } else if limit_of(query)->0.count <= rows.len() - offset_count(query) {
            limit_of(query)->0.count as int
        } else {
            rows.len() - offset_count(query)
        },
{
    lemma_paging_length(rows, offset_count(query), limit_of(query)->0.count as nat);
}

} // verus!
