use gitql::engine::evaluate;
use gitql::engine_evaluator::RuntimeError;
use gitql::engine_executor::aggregate_group;
use gitql::engine_executor::execute_aggregation_function_statement;
use gitql::engine_executor::execute_group_by_statement;
use gitql::engine_executor::execute_having_statement;
use gitql::engine_executor::execute_limit_statement;
use gitql::engine_executor::execute_offset_statement;
use gitql::engine_executor::execute_order_by_statement;
use gitql::engine_executor::execute_where_statement;
use gitql::engine_executor::filter_rows;
use gitql::engine_executor::project_rows;
use gitql::engine_executor::row_keys;
use gitql::engine_executor::select_titles;
use gitql::engine_executor::sort_order;
use gitql::expression::CallExpression;
use gitql::expression::CheckExpression;
use gitql::expression::CheckOperator;
use gitql::expression::ComparisonExpression;
use gitql::expression::ComparisonOperator;
use gitql::expression::ExpressionNode;
use gitql::expression::NumberExpression;
use gitql::expression::StringExpression;
use gitql::expression::SymbolExpression;
use gitql::name_map::NameMap;
use gitql::object::GQLObject;
use gitql::object::GitQLObject;
use gitql::signature::Function;
use gitql::statement::AggregateFunction;
use gitql::statement::AggregationFunctionsStatement;
use gitql::statement::GQLQuery;
use gitql::statement::GroupByStatement;
use gitql::statement::HavingStatement;
use gitql::statement::LimitStatement;
use gitql::statement::OffsetStatement;
use gitql::statement::OrderByStatement;
use gitql::statement::SelectStatement;
use gitql::statement::Statement;
use gitql::statement::StatementKind;
use gitql::statement::StatementNode;
use gitql::statement::WhereStatement;
use gitql::types::DataType;
use gitql::value::Value;

fn text(s: &str) -> Value {
    Value::Text(s.to_string())
}

fn row(columns: &[(&str, Value)]) -> GQLObject {
    let mut row = GQLObject::new();
    for (name, value) in columns {
        row.insert(name.to_string(), value.duplicate());
    }
    row
}

fn strings(items: &[&str]) -> Vec<String> {
    items.iter().map(|s| s.to_string()).collect()
}

fn select(table: &str, fields: &[&str]) -> StatementNode {
    StatementNode::Select(SelectStatement {
        table_name: table.to_string(),
        fields: strings(fields),
        alias_table: NameMap::new(),
    })
}

fn query(statements: Vec<(&str, StatementNode)>) -> GQLQuery {
    let mut map = NameMap::new();
    for (name, statement) in statements {
        map.insert(name.to_string(), statement);
    }
    GQLQuery { statements: map, select_aggregations_only: false, hidden_selections: vec![] }
}

fn symbol(s: &str) -> ExpressionNode {
    ExpressionNode::Symbol(SymbolExpression { value: s.to_string() })
}

fn string(s: &str) -> ExpressionNode {
    ExpressionNode::String(StringExpression { value: s.to_string() })
}

fn number(n: i64) -> ExpressionNode {
    ExpressionNode::Number(NumberExpression { value: n })
}

fn compare(l: ExpressionNode, op: ComparisonOperator, r: ExpressionNode) -> ExpressionNode {
    ExpressionNode::Comparison(ComparisonExpression {
        left: Box::new(l),
        operator: op,
        right: Box::new(r),
    })
}

fn order_by(field: &str, ascending: bool) -> OrderByStatement {
    OrderByStatement {
        field_name: field.to_string(),
        is_ascending: ascending,
        field_type: DataType::Any,
    }
}

fn aggregations(calls: &[(&str, &str, &str)]) -> AggregationFunctionsStatement {
    let mut map = NameMap::new();
    for (alias, function, argument) in calls {
        map.insert(
            alias.to_string(),
            AggregateFunction { function_name: function.to_string(), argument: argument.to_string() },
        );
    }
    AggregationFunctionsStatement { aggregations: map }
}

fn none() -> NameMap<Function> {
    NameMap::new()
}

fn titles(object: &GitQLObject) -> Vec<String> {
    object.titles.clone()
}

fn table(object: &GitQLObject) -> Vec<Vec<String>> {
    assert_eq!(object.groups.len(), 1);
    object.groups[0].rows.iter().map(|r| r.values.iter().map(|v| v.literal()).collect()).collect()
}

fn column(rows: &[GQLObject], name: &str) -> Vec<String> {
    rows.iter().map(|r| r.get(name).map(|v| v.literal()).unwrap_or("-".to_string())).collect()
}

fn refs() -> Vec<GQLObject> {
    vec![
        row(&[("name", text("main")), ("type", text("branch"))]),
        row(&[("name", text("dev")), ("type", text("tag"))]),
        row(&[("name", text("v1")), ("type", text("remote"))]),
    ]
}

fn commits() -> Vec<GQLObject> {
    vec![
        row(&[("name", text("Ada")), ("email", text("b@x")), ("commit_id", text("1"))]),
        row(&[("name", text("Bo")), ("email", text("a@x")), ("commit_id", text("2"))]),
        row(&[("name", text("Ada")), ("email", text("a@x")), ("commit_id", text("3"))]),
    ]
}

fn numbered(numbers: &[i64]) -> Vec<GQLObject> {
    numbers
        .iter()
        .enumerate()
        .map(|(i, n)| row(&[("n", Value::Integer(*n)), ("at", Value::Integer(i as i64))]))
        .collect()
}

#[test]
fn select_with_a_limit() {
    let q = query(vec![
        ("select", select("refs", &["name"])),
        ("limit", StatementNode::Limit(LimitStatement { count: 2 })),
    ]);
    let result = evaluate(&q, refs(), &none()).unwrap();
    assert_eq!(titles(&result), vec!["name"]);
    assert_eq!(table(&result), vec![vec!["main"], vec!["dev"]]);
}

#[test]
fn select_where_and_order() {
    let condition = compare(symbol("name"), ComparisonOperator::Equal, string("Ada"));
    let q = query(vec![
        ("select", select("commits", &["name", "email"])),
        ("where", StatementNode::Where(WhereStatement { condition: Box::new(condition) })),
        ("order", StatementNode::OrderBy(order_by("email", true))),
    ]);
    let result = evaluate(&q, commits(), &none()).unwrap();
    assert_eq!(titles(&result), vec!["name", "email"]);
    assert_eq!(table(&result), vec![vec!["Ada", "a@x"], vec!["Ada", "b@x"]]);
}

#[test]
fn count_of_all_rows() {
    let branches = vec![
        row(&[("name", text("a"))]),
        row(&[("name", text("b"))]),
        row(&[("name", text("c"))]),
        row(&[("name", text("d"))]),
    ];
    let mut q = query(vec![
        ("select", select("branches", &["count"])),
        ("aggregation", StatementNode::AggregateFunction(aggregations(&[("count", "count", "name")]))),
    ]);
    q.select_aggregations_only = true;
    let result = evaluate(&q, branches, &none()).unwrap();
    assert_eq!(titles(&result), vec!["count"]);
    assert_eq!(table(&result), vec![vec!["4"]]);
}

#[test]
fn count_of_no_rows() {
    let q = query(vec![
        ("select", select("branches", &["count", "total", "most"])),
        (
            "aggregation",
            StatementNode::AggregateFunction(aggregations(&[
                ("count", "count", "name"),
                ("total", "sum", "name"),
                ("most", "max", "name"),
            ])),
        ),
    ]);
    let result = evaluate(&q, vec![], &none()).unwrap();
    assert_eq!(table(&result), vec![vec!["0", "0", "Null"]]);
}

#[test]
fn count_by_group() {
    let rows = vec![
        row(&[("name", text("A")), ("commit_id", text("1"))]),
        row(&[("name", text("A")), ("commit_id", text("2"))]),
        row(&[("name", text("B")), ("commit_id", text("3"))]),
    ];
    let q = query(vec![
        ("select", select("commits", &["name", "count"])),
        (
            "group",
            StatementNode::GroupBy(GroupByStatement { field_name: "name".to_string() }),
        ),
        (
            "aggregation",
            StatementNode::AggregateFunction(aggregations(&[("count", "count", "commit_id")])),
        ),
    ]);
    let result = evaluate(&q, rows, &none()).unwrap();
    assert_eq!(titles(&result), vec!["name", "count"]);
    assert_eq!(table(&result), vec![vec!["A", "2"], vec!["B", "1"]]);
}

#[test]
fn select_where_a_text_begins_with_another() {
    let begins = ExpressionNode::Check(CheckExpression {
        left: Box::new(symbol("type")),
        operator: CheckOperator::StartsWith,
        right: Box::new(string("br")),
    });
    let q = query(vec![
        ("select", select("refs", &["name"])),
        ("where", StatementNode::Where(WhereStatement { condition: Box::new(begins) })),
    ]);
    let result = evaluate(&q, refs(), &none()).unwrap();
    assert_eq!(table(&result), vec![vec!["main"]]);
    let matches = ExpressionNode::Check(CheckExpression {
        left: Box::new(symbol("type")),
        operator: CheckOperator::Matches,
        right: Box::new(string("^br.*$")),
    });
    let q = query(vec![
        ("select", select("refs", &["name"])),
        ("where", StatementNode::Where(WhereStatement { condition: Box::new(matches) })),
    ]);
    let result = evaluate(&q, refs(), &none()).unwrap();
    assert_eq!(table(&result), vec![vec!["main"]]);
}

#[test]
fn a_query_without_statements_keeps_all_rows() {
    let q = query(vec![("select", select("refs", &["type", "name"]))]);
    let result = evaluate(&q, refs(), &none()).unwrap();
    assert_eq!(titles(&result), vec!["type", "name"]);
    assert_eq!(
        table(&result),
        vec![vec!["branch", "main"], vec!["tag", "dev"], vec!["remote", "v1"]]
    );
    let empty = evaluate(&q, vec![], &none()).unwrap();
    assert_eq!(empty.groups.len(), 1);
    assert!(empty.groups[0].rows.is_empty());
    let nothing_selected = evaluate(&query(vec![]), refs(), &none()).unwrap();
    assert!(nothing_selected.titles.is_empty());
    assert_eq!(table(&nothing_selected), vec![Vec::<String>::new(); 3]);
}

#[test]
fn the_same_query_has_the_same_result() {
    let condition = compare(symbol("name"), ComparisonOperator::NotEqual, string("Bo"));
    let q = query(vec![
        ("select", select("commits", &["email", "name"])),
        ("where", StatementNode::Where(WhereStatement { condition: Box::new(condition) })),
        ("order", StatementNode::OrderBy(order_by("email", false))),
        ("limit", StatementNode::Limit(LimitStatement { count: 5 })),
    ]);
    let first = evaluate(&q, commits(), &none()).unwrap();
    let second = evaluate(&q, commits(), &none()).unwrap();
    assert_eq!(titles(&first), titles(&second));
    assert_eq!(table(&first), table(&second));
    assert_eq!(table(&first), vec![vec!["b@x", "Ada"], vec!["a@x", "Ada"]]);
}

#[test]
fn hidden_columns_are_not_shown() {
    let mut q = query(vec![
        ("select", select("commits", &["name", "email"])),
        ("order", StatementNode::OrderBy(order_by("email", true))),
    ]);
    q.hidden_selections = strings(&["email"]);
    let result = evaluate(&q, commits(), &none()).unwrap();
    assert_eq!(titles(&result), vec!["name"]);
    assert_eq!(table(&result), vec![vec!["Bo"], vec!["Ada"], vec!["Ada"]]);
}

#[test]
fn titles_are_the_names_that_columns_are_handed_out_under() {
    let mut alias_table = NameMap::new();
    alias_table.insert("name".to_string(), "author".to_string());
    let statement = SelectStatement {
        table_name: "commits".to_string(),
        fields: strings(&["name", "email", "commit_id"]),
        alias_table,
    };
    assert_eq!(
        select_titles(&statement, &strings(&["email"])),
        vec!["author", "commit_id"]
    );
    assert_eq!(select_titles(&statement, &vec![]), vec!["author", "email", "commit_id"]);
    let rows = vec![row(&[("author", text("Ada")), ("commit_id", text("1"))])];
    let lines = project_rows(&strings(&["commit_id", "author", "other"]), &rows);
    assert_eq!(lines.len(), 1);
    let values: Vec<String> = lines[0].values.iter().map(|v| v.literal()).collect();
    assert_eq!(values, vec!["1", "Ada", "Null"]);
}

#[test]
fn every_row_has_as_many_values_as_there_are_titles() {
    let q = query(vec![("select", select("refs", &["name", "nowhere", "type"]))]);
    let result = evaluate(&q, refs(), &none()).unwrap();
    assert_eq!(result.titles.len(), 3);
    assert_eq!(result.groups[0].rows.len(), 3);
    for line in &result.groups[0].rows {
        assert_eq!(line.values.len(), 3);
        assert!(line.values[1].is_null());
    }
}

#[test]
fn rows_that_tie_keep_their_order() {
    let rows = numbered(&[2, 1, 2, 1, 3, 1]);
    let sorted = execute_order_by_statement(&order_by("n", true), rows);
    assert_eq!(column(&sorted, "n"), vec!["1", "1", "1", "2", "2", "3"]);
    assert_eq!(column(&sorted, "at"), vec!["1", "3", "5", "0", "2", "4"]);
    let rows = numbered(&[2, 1, 2, 1, 3, 1]);
    let sorted = execute_order_by_statement(&order_by("n", false), rows);
    assert_eq!(column(&sorted, "n"), vec!["3", "2", "2", "1", "1", "1"]);
    assert_eq!(column(&sorted, "at"), vec!["4", "0", "2", "1", "3", "5"]);
}

#[test]
fn null_is_sorted_last_and_first() {
    let rows = vec![
        row(&[("n", Value::Null), ("at", Value::Integer(0))]),
        row(&[("n", Value::Integer(2)), ("at", Value::Integer(1))]),
        row(&[("at", Value::Integer(2))]),
        row(&[("n", Value::Integer(1)), ("at", Value::Integer(3))]),
    ];
    let ascending = execute_order_by_statement(&order_by("n", true), rows);
    assert_eq!(column(&ascending, "at"), vec!["3", "1", "0", "2"]);
    let descending = execute_order_by_statement(&order_by("n", false), ascending);
    assert_eq!(column(&descending, "at"), vec!["0", "2", "1", "3"]);
}

#[test]
fn the_order_of_values() {
    let keys = vec![text("b"), text("a"), text("c"), text("a")];
    assert_eq!(sort_order(&keys, true), vec![1, 3, 0, 2]);
    assert_eq!(sort_order(&keys, false), vec![2, 0, 1, 3]);
    assert!(sort_order(&vec![], true).is_empty());
    assert_eq!(sort_order(&vec![Value::Null], false), vec![0]);
    let keys = row_keys(&refs(), "type");
    let literals: Vec<String> = keys.iter().map(|v| v.literal()).collect();
    assert_eq!(literals, vec!["branch", "tag", "remote"]);
}

#[test]
fn offset_and_limit() {
    for (offset, limit, expected) in [
        (0usize, 0usize, 0usize),
        (0, 3, 3),
        (0, 10, 5),
        (2, 2, 2),
        (2, 10, 3),
        (4, 1, 1),
        (5, 1, 0),
        (9, 3, 0),
    ] {
        let q = query(vec![
            ("select", select("t", &["n"])),
            ("offset", StatementNode::Offset(OffsetStatement { count: offset })),
            ("limit", StatementNode::Limit(LimitStatement { count: limit })),
        ]);
        let result = evaluate(&q, numbered(&[10, 11, 12, 13, 14]), &none()).unwrap();
        assert_eq!(result.groups[0].rows.len(), expected, "{} {}", offset, limit);
        assert_eq!(expected, limit.min(5usize.saturating_sub(offset)));
    }
    let rest = execute_offset_statement(&OffsetStatement { count: 3 }, numbered(&[1, 2, 3, 4]));
    assert_eq!(column(&rest, "n"), vec!["4"]);
    let all = execute_offset_statement(&OffsetStatement { count: 0 }, numbered(&[1, 2]));
    assert_eq!(column(&all, "n"), vec!["1", "2"]);
    let first = execute_limit_statement(&LimitStatement { count: 1 }, numbered(&[1, 2, 3]));
    assert_eq!(column(&first, "n"), vec!["1"]);
}

#[test]
fn offset_comes_before_limit_and_both_after_the_order() {
    let q = query(vec![
        ("select", select("t", &["n"])),
        ("limit", StatementNode::Limit(LimitStatement { count: 2 })),
        ("offset", StatementNode::Offset(OffsetStatement { count: 1 })),
        ("order", StatementNode::OrderBy(order_by("n", true))),
    ]);
    let result = evaluate(&q, numbered(&[5, 3, 4, 1, 2]), &none()).unwrap();
    assert_eq!(table(&result), vec![vec!["2"], vec!["3"]]);
}

#[test]
fn groups_stand_in_the_order_in_which_their_values_come_first() {
    let rows = vec![
        row(&[("k", text("b")), ("at", Value::Integer(0))]),
        row(&[("k", text("a")), ("at", Value::Integer(1))]),
        row(&[("k", text("b")), ("at", Value::Integer(2))]),
        row(&[("at", Value::Integer(3))]),
        row(&[("k", text("a")), ("at", Value::Integer(4))]),
        row(&[("k", Value::Null), ("at", Value::Integer(5))]),
    ];
    let groups = execute_group_by_statement(
        &GroupByStatement { field_name: "k".to_string() },
        rows,
    );
    assert_eq!(groups.len(), 3);
    assert_eq!(column(&groups[0], "at"), vec!["0", "2"]);
    assert_eq!(column(&groups[1], "at"), vec!["1", "4"]);
    assert_eq!(column(&groups[2], "at"), vec!["3", "5"]);
    let total: usize = groups.iter().map(|g| g.len()).sum();
    assert_eq!(total, 6);
    let no_groups =
        execute_group_by_statement(&GroupByStatement { field_name: "k".to_string() }, vec![]);
    assert!(no_groups.is_empty());
}

#[test]
fn a_group_without_aggregate_functions_keeps_its_first_row() {
    let q = query(vec![
        ("select", select("commits", &["name", "commit_id"])),
        ("group", StatementNode::GroupBy(GroupByStatement { field_name: "name".to_string() })),
    ]);
    let result = evaluate(&q, commits(), &none()).unwrap();
    assert_eq!(table(&result), vec![vec!["Ada", "1"], vec!["Bo", "2"]]);
}

#[test]
fn aggregate_functions_of_each_group() {
    let groups = vec![numbered(&[1, 5, 3]), numbered(&[]), numbered(&[-4])];
    let statement = aggregations(&[("hi", "max", "n"), ("lo", "min", "n"), ("n", "sum", "n")]);
    let rows = execute_aggregation_function_statement(&statement, groups).unwrap();
    assert_eq!(rows.len(), 3);
    assert_eq!(column(&rows, "hi"), vec!["5", "Null", "-4"]);
    assert_eq!(column(&rows, "lo"), vec!["1", "Null", "-4"]);
    assert_eq!(column(&rows, "n"), vec!["9", "0", "-4"]);
    assert_eq!(column(&rows, "at"), vec!["0", "-", "0"]);
    let unknown = aggregations(&[("x", "median", "n")]);
    assert_eq!(
        execute_aggregation_function_statement(&unknown, vec![numbered(&[1])]).unwrap_err(),
        RuntimeError::UnknownFunction
    );
    assert!(execute_aggregation_function_statement(&unknown, vec![]).unwrap().is_empty());
}

#[test]
fn having_filters_the_rows_of_the_groups() {
    let more_than_one = compare(symbol("count"), ComparisonOperator::Greater, number(1));
    let q = query(vec![
        ("select", select("commits", &["name", "count"])),
        ("group", StatementNode::GroupBy(GroupByStatement { field_name: "name".to_string() })),
        (
            "aggregation",
            StatementNode::AggregateFunction(aggregations(&[("count", "count", "commit_id")])),
        ),
        ("having", StatementNode::Having(HavingStatement { condition: Box::new(more_than_one) })),
    ]);
    let result = evaluate(&q, commits(), &none()).unwrap();
    assert_eq!(table(&result), vec![vec!["Ada", "2"]]);
}

#[test]
fn a_condition_that_is_null_keeps_no_row() {
    let rows = vec![
        row(&[("n", Value::Integer(1))]),
        row(&[("n", Value::Null)]),
        row(&[("m", Value::Integer(1))]),
        row(&[("n", Value::Integer(2))]),
    ];
    let condition = compare(symbol("n"), ComparisonOperator::GreaterEqual, number(1));
    let kept = filter_rows(&condition, rows, &none()).unwrap();
    assert_eq!(column(&kept, "n"), vec!["1", "2"]);
    let statement = WhereStatement { condition: Box::new(symbol("n")) };
    let kept = execute_where_statement(&statement, numbered(&[1, 2]), &none()).unwrap();
    assert!(kept.is_empty());
    let statement = HavingStatement {
        condition: Box::new(compare(symbol("n"), ComparisonOperator::NullSafeEqual, number(2))),
    };
    let kept = execute_having_statement(&statement, numbered(&[1, 2, 2]), &none()).unwrap();
    assert_eq!(column(&kept, "at"), vec!["1", "2"]);
}

#[test]
fn an_error_in_a_condition_ends_the_query() {
    let call = ExpressionNode::Call(CallExpression {
        function_name: "nothing".to_string(),
        arguments: vec![],
    });
    let q = query(vec![
        ("select", select("refs", &["name"])),
        ("where", StatementNode::Where(WhereStatement { condition: Box::new(call) })),
    ]);
    assert_eq!(evaluate(&q, refs(), &none()).unwrap_err(), RuntimeError::UnknownFunction);
    assert!(evaluate(&q, vec![], &none()).is_ok());
    let pattern = ExpressionNode::Check(CheckExpression {
        left: Box::new(symbol("name")),
        operator: CheckOperator::Matches,
        right: Box::new(string("[")),
    });
    let q = query(vec![
        ("select", select("refs", &["name"])),
        ("where", StatementNode::Where(WhereStatement { condition: Box::new(pattern) })),
    ]);
    assert_eq!(evaluate(&q, refs(), &none()).unwrap_err(), RuntimeError::InvalidPattern);
}

#[test]
fn a_statement_under_the_name_of_another_kind_is_left_out() {
    let q = query(vec![
        ("select", select("refs", &["name"])),
        ("where", StatementNode::Limit(LimitStatement { count: 1 })),
        ("limit", StatementNode::Offset(OffsetStatement { count: 1 })),
    ]);
    let result = evaluate(&q, refs(), &none()).unwrap();
    assert_eq!(result.groups[0].rows.len(), 3);
}

#[test]
fn statements_know_their_kind() {
    let condition = || Box::new(symbol("a"));
    let statements = vec![
        (select("t", &[]), StatementKind::Select),
        (StatementNode::Where(WhereStatement { condition: condition() }), StatementKind::Where),
        (StatementNode::Having(HavingStatement { condition: condition() }), StatementKind::Having),
        (StatementNode::Limit(LimitStatement { count: 1 }), StatementKind::Limit),
        (StatementNode::Offset(OffsetStatement { count: 1 }), StatementKind::Offset),
        (StatementNode::OrderBy(order_by("a", true)), StatementKind::OrderBy),
        (
            StatementNode::GroupBy(GroupByStatement { field_name: "a".to_string() }),
            StatementKind::GroupBy,
        ),
        (StatementNode::AggregateFunction(aggregations(&[])), StatementKind::AggregateFunction),
    ];
    for (statement, kind) in statements {
        assert_eq!(statement.get_statement_kind(), kind);
    }
    assert_eq!(LimitStatement { count: 3 }.get_statement_kind(), StatementKind::Limit);
    assert_eq!(order_by("a", false).get_statement_kind(), StatementKind::OrderBy);
}

#[test]
fn a_row_without_an_aggregated_column_is_an_error() {
    let mut rows = numbered(&[1, 2, 3]);
    rows.push(row(&[("at", Value::Integer(3))]));
    let sum = aggregations(&[("total", "sum", "n")]);
    assert_eq!(
        aggregate_group(&rows, &sum.aggregations).unwrap_err(),
        RuntimeError::MissingColumn
    );
    let count = aggregations(&[("count", "count", "n")]);
    assert_eq!(
        aggregate_group(&rows, &count.aggregations).unwrap_err(),
        RuntimeError::MissingColumn
    );
    let both = aggregations(&[("x", "median", "at"), ("total", "sum", "n")]);
    assert_eq!(
        aggregate_group(&rows, &both.aggregations).unwrap_err(),
        RuntimeError::MissingColumn
    );
    let unknown = aggregations(&[("x", "median", "at")]);
    assert_eq!(
        aggregate_group(&rows, &unknown.aggregations).unwrap_err(),
        RuntimeError::UnknownFunction
    );
    let held = aggregations(&[("most", "max", "at"), ("count", "count", "at")]);
    let stood = aggregate_group(&rows, &held.aggregations).unwrap();
    assert_eq!(stood.get("most").unwrap().literal(), "3");
    assert_eq!(stood.get("count").unwrap().literal(), "4");
    let nothing = aggregate_group(&vec![], &sum.aggregations).unwrap();
    assert_eq!(nothing.get("total").unwrap().literal(), "0");

    let q = query(vec![
        ("select", select("t", &["total"])),
        ("aggregation", StatementNode::AggregateFunction(aggregations(&[("total", "sum", "n")]))),
    ]);
    let mut rows = numbered(&[1, 2, 3]);
    rows.push(row(&[("at", Value::Integer(3))]));
    assert_eq!(evaluate(&q, rows, &none()).unwrap_err(), RuntimeError::MissingColumn);
    assert_eq!(table(&evaluate(&q, numbered(&[1, 2, 3]), &none()).unwrap()), vec![vec!["6"]]);
}

#[test]
fn a_row_that_is_filtered_out_is_not_aggregated() {
    let condition = compare(symbol("n"), ComparisonOperator::GreaterEqual, number(0));
    let q = query(vec![
        ("select", select("t", &["total"])),
        ("where", StatementNode::Where(WhereStatement { condition: Box::new(condition) })),
        ("aggregation", StatementNode::AggregateFunction(aggregations(&[("total", "sum", "n")]))),
    ]);
    let mut rows = numbered(&[1, 2, 3]);
    rows.push(row(&[("at", Value::Integer(3))]));
    assert_eq!(table(&evaluate(&q, rows, &none()).unwrap()), vec![vec!["6"]]);
}

#[test]
fn the_groups_hold_all_rows_and_each_at_least_one() {
    let rows = vec![
        row(&[("k", text("A")), ("id", Value::Integer(1))]),
        row(&[("k", text("A")), ("id", Value::Integer(2))]),
        row(&[("k", text("B")), ("id", Value::Integer(3))]),
    ];
    let groups =
        execute_group_by_statement(&GroupByStatement { field_name: "k".to_string() }, rows);
    let counts = execute_aggregation_function_statement(
        &aggregations(&[("count", "count", "id")]),
        groups,
    )
    .unwrap();
    assert_eq!(column(&counts, "count"), vec!["2", "1"]);
    let total: i64 = counts.iter().map(|r| r.get("count").unwrap().as_number()).sum();
    assert_eq!(total, 3);
    assert!(counts.iter().all(|r| r.get("count").unwrap().as_number() >= 1));
}

#[test]
fn the_flag_for_aggregated_selections_changes_nothing() {
    let statements = || {
        vec![
            ("select", select("t", &["total"])),
            (
                "aggregation",
                StatementNode::AggregateFunction(aggregations(&[("total", "sum", "n")])),
            ),
        ]
    };
    let mut set = query(statements());
    set.select_aggregations_only = true;
    let unset = query(statements());
    let first = evaluate(&set, numbered(&[1, 2]), &none()).unwrap();
    let second = evaluate(&unset, numbered(&[1, 2]), &none()).unwrap();
    assert_eq!(table(&first), vec![vec!["3"]]);
    assert_eq!(table(&first), table(&second));
}
