use gitql::engine_evaluator::are_comparable;
use gitql::engine_evaluator::check_result;
use gitql::engine_evaluator::evaluate_arithmetic;
use gitql::engine_evaluator::evaluate_between;
use gitql::engine_evaluator::evaluate_bitwise;
use gitql::engine_evaluator::evaluate_check;
use gitql::engine_evaluator::evaluate_comparison;
use gitql::engine_evaluator::evaluate_expression;
use gitql::engine_evaluator::evaluate_logical;
use gitql::engine_evaluator::evaluate_prefix_unary;
use gitql::engine_evaluator::truth;
use gitql::engine_evaluator::RuntimeError;
use gitql::expression::ArithmeticExpression;
use gitql::expression::ArithmeticOperator;
use gitql::expression::BetweenExpression;
use gitql::expression::BitwiseExpression;
use gitql::expression::BitwiseOperator;
use gitql::expression::BooleanExpression;
use gitql::expression::CallExpression;
use gitql::expression::CaseExpression;
use gitql::expression::CheckExpression;
use gitql::expression::CheckOperator;
use gitql::expression::ComparisonExpression;
use gitql::expression::ComparisonOperator;
use gitql::expression::Environment;
use gitql::expression::Expression;
use gitql::expression::ExpressionKind;
use gitql::expression::ExpressionNode;
use gitql::expression::LogicalExpression;
use gitql::expression::LogicalOperator;
use gitql::expression::NumberExpression;
use gitql::expression::PrefixUnary;
use gitql::expression::PrefixUnaryOperator;
use gitql::expression::StringExpression;
use gitql::expression::SymbolExpression;
use gitql::name_map::NameMap;
use gitql::object::GQLObject;
use gitql::range::register_std_range_function_signatures;
use gitql::range::register_std_range_functions;
use gitql::signature::Function;
use gitql::types::DataType;
use gitql::value::Value;

fn whole(n: i64) -> Value {
    Value::Integer(n)
}

fn text(s: &str) -> Value {
    Value::Text(s.to_string())
}

fn yes() -> Value {
    Value::Boolean(true)
}

fn no() -> Value {
    Value::Boolean(false)
}

fn number(n: i64) -> ExpressionNode {
    ExpressionNode::Number(NumberExpression { value: n })
}

fn string(s: &str) -> ExpressionNode {
    ExpressionNode::String(StringExpression { value: s.to_string() })
}

fn symbol(s: &str) -> ExpressionNode {
    ExpressionNode::Symbol(SymbolExpression { value: s.to_string() })
}

fn boolean(b: bool) -> ExpressionNode {
    ExpressionNode::Boolean(BooleanExpression { is_true: b })
}

fn arithmetic(l: ExpressionNode, op: ArithmeticOperator, r: ExpressionNode) -> ExpressionNode {
    ExpressionNode::Arithmetic(ArithmeticExpression {
        left: Box::new(l),
        operator: op,
        right: Box::new(r),
    })
}

fn comparison(l: ExpressionNode, op: ComparisonOperator, r: ExpressionNode) -> ExpressionNode {
    ExpressionNode::Comparison(ComparisonExpression {
        left: Box::new(l),
        operator: op,
        right: Box::new(r),
    })
}

fn check(l: ExpressionNode, op: CheckOperator, r: ExpressionNode) -> ExpressionNode {
    ExpressionNode::Check(CheckExpression { left: Box::new(l), operator: op, right: Box::new(r) })
}

fn functions() -> NameMap<Function> {
    let mut functions = NameMap::new();
    register_std_range_functions(&mut functions);
    functions
}

fn row() -> GQLObject {
    let mut row = GQLObject::new();
    row.insert("name".to_string(), text("Ada"));
    row.insert("age".to_string(), whole(36));
    row.insert("type".to_string(), text("branch"));
    row.insert("gone".to_string(), Value::Null);
    row
}

fn value_of(expression: &ExpressionNode) -> Value {
    evaluate_expression(expression, &row(), &functions()).unwrap()
}

#[test]
fn prefix_operators() {
    assert!(evaluate_prefix_unary(PrefixUnaryOperator::Minus, &whole(5)).equals(&whole(-5)));
    assert!(evaluate_prefix_unary(PrefixUnaryOperator::Minus, &whole(-5)).equals(&whole(5)));
    assert!(evaluate_prefix_unary(PrefixUnaryOperator::Minus, &whole(i64::MIN))
        .equals(&whole(i64::MIN)));
    assert!(evaluate_prefix_unary(PrefixUnaryOperator::Minus, &text("5")).is_null());
    assert!(evaluate_prefix_unary(PrefixUnaryOperator::Bang, &yes()).equals(&no()));
    assert!(evaluate_prefix_unary(PrefixUnaryOperator::Bang, &no()).equals(&yes()));
    assert!(evaluate_prefix_unary(PrefixUnaryOperator::Bang, &Value::Null).is_null());
    assert!(evaluate_prefix_unary(PrefixUnaryOperator::Bang, &whole(0)).is_null());
}

#[test]
fn arithmetic_on_integers() {
    assert!(evaluate_arithmetic(ArithmeticOperator::Plus, &whole(2), &whole(3)).equals(&whole(5)));
    assert!(evaluate_arithmetic(ArithmeticOperator::Minus, &whole(2), &whole(3)).equals(&whole(-1)));
    assert!(evaluate_arithmetic(ArithmeticOperator::Star, &whole(-2), &whole(3)).equals(&whole(-6)));
    assert!(evaluate_arithmetic(ArithmeticOperator::Slash, &whole(7), &whole(2)).equals(&whole(3)));
    assert!(evaluate_arithmetic(ArithmeticOperator::Slash, &whole(-7), &whole(2)).equals(&whole(-3)));
    assert!(evaluate_arithmetic(ArithmeticOperator::Slash, &whole(7), &whole(-2)).equals(&whole(-3)));
    assert!(evaluate_arithmetic(ArithmeticOperator::Modulus, &whole(7), &whole(3)).equals(&whole(1)));
    assert!(evaluate_arithmetic(ArithmeticOperator::Modulus, &whole(-7), &whole(3)).equals(&whole(-1)));
    assert!(evaluate_arithmetic(ArithmeticOperator::Modulus, &whole(7), &whole(-3)).equals(&whole(1)));
}

#[test]
fn division_by_zero_is_null() {
    assert!(evaluate_arithmetic(ArithmeticOperator::Slash, &whole(7), &whole(0)).is_null());
    assert!(evaluate_arithmetic(ArithmeticOperator::Modulus, &whole(7), &whole(0)).is_null());
    assert!(evaluate_arithmetic(ArithmeticOperator::Slash, &whole(0), &whole(0)).is_null());
}

#[test]
fn arithmetic_wraps_round() {
    assert!(evaluate_arithmetic(ArithmeticOperator::Plus, &whole(i64::MAX), &whole(1))
        .equals(&whole(i64::MIN)));
    assert!(evaluate_arithmetic(ArithmeticOperator::Minus, &whole(i64::MIN), &whole(1))
        .equals(&whole(i64::MAX)));
    assert!(evaluate_arithmetic(ArithmeticOperator::Star, &whole(i64::MAX), &whole(2))
        .equals(&whole(-2)));
    assert!(evaluate_arithmetic(ArithmeticOperator::Slash, &whole(i64::MIN), &whole(-1))
        .equals(&whole(i64::MIN)));
    assert!(evaluate_arithmetic(ArithmeticOperator::Modulus, &whole(i64::MIN), &whole(-1))
        .equals(&whole(0)));
}

#[test]
fn arithmetic_on_what_is_no_integer_is_null() {
    assert!(evaluate_arithmetic(ArithmeticOperator::Plus, &text("1"), &whole(1)).is_null());
    assert!(evaluate_arithmetic(ArithmeticOperator::Plus, &whole(1), &Value::Null).is_null());
    assert!(evaluate_arithmetic(ArithmeticOperator::Star, &Value::Null, &Value::Null).is_null());
}

#[test]
fn null_safe_equality_is_never_null() {
    let op = ComparisonOperator::NullSafeEqual;
    assert!(evaluate_comparison(op, &Value::Null, &Value::Null).equals(&yes()));
    assert!(evaluate_comparison(op, &whole(1), &Value::Null).equals(&no()));
    assert!(evaluate_comparison(op, &Value::Null, &text("a")).equals(&no()));
    assert!(evaluate_comparison(op, &whole(1), &whole(1)).equals(&yes()));
    assert!(evaluate_comparison(op, &whole(1), &whole(2)).equals(&no()));
    assert!(evaluate_comparison(op, &whole(1), &text("1")).equals(&no()));
}

#[test]
fn equality_with_null_is_null() {
    assert!(evaluate_comparison(ComparisonOperator::Equal, &whole(1), &Value::Null).is_null());
    assert!(evaluate_comparison(ComparisonOperator::Equal, &Value::Null, &whole(1)).is_null());
    assert!(evaluate_comparison(ComparisonOperator::Equal, &Value::Null, &Value::Null).is_null());
    assert!(evaluate_comparison(ComparisonOperator::NotEqual, &Value::Null, &whole(1)).is_null());
    assert!(evaluate_comparison(ComparisonOperator::Less, &Value::Null, &whole(1)).is_null());
    assert!(evaluate_comparison(ComparisonOperator::GreaterEqual, &whole(1), &Value::Null).is_null());
}

#[test]
fn comparisons_of_values_of_one_type() {
    assert!(evaluate_comparison(ComparisonOperator::Equal, &text("Ada"), &text("Ada"))
        .equals(&yes()));
    assert!(evaluate_comparison(ComparisonOperator::Equal, &text("Ada"), &text("Bo"))
        .equals(&no()));
    assert!(evaluate_comparison(ComparisonOperator::NotEqual, &whole(1), &whole(2)).equals(&yes()));
    assert!(evaluate_comparison(ComparisonOperator::Less, &whole(1), &whole(2)).equals(&yes()));
    assert!(evaluate_comparison(ComparisonOperator::Less, &whole(2), &whole(2)).equals(&no()));
    assert!(evaluate_comparison(ComparisonOperator::LessEqual, &whole(2), &whole(2)).equals(&yes()));
    assert!(evaluate_comparison(ComparisonOperator::Greater, &whole(3), &whole(2)).equals(&yes()));
    assert!(evaluate_comparison(ComparisonOperator::Greater, &whole(2), &whole(2)).equals(&no()));
    assert!(evaluate_comparison(ComparisonOperator::GreaterEqual, &whole(2), &whole(2))
        .equals(&yes()));
    assert!(evaluate_comparison(ComparisonOperator::Less, &text("a"), &text("b")).equals(&yes()));
    assert!(evaluate_comparison(ComparisonOperator::Greater, &no(), &yes()).equals(&no()));
    assert!(evaluate_comparison(ComparisonOperator::Less, &Value::Date(1), &Value::Date(2))
        .equals(&yes()));
}

#[test]
fn comparisons_by_size_of_values_of_two_types_are_null() {
    assert!(evaluate_comparison(ComparisonOperator::Less, &whole(1), &text("2")).is_null());
    assert!(evaluate_comparison(ComparisonOperator::Greater, &Value::Date(1), &whole(0)).is_null());
    assert!(evaluate_comparison(ComparisonOperator::Equal, &whole(1), &text("1")).equals(&no()));
    assert!(evaluate_comparison(ComparisonOperator::NotEqual, &whole(1), &text("1")).equals(&yes()));
    assert!(are_comparable(&whole(1), &whole(2)));
    assert!(!are_comparable(&whole(1), &text("a")));
    assert!(!are_comparable(&Value::Null, &Value::Null));
}

#[test]
fn connectives_know_three_truths() {
    let null = Value::Null;
    let and = LogicalOperator::And;
    assert!(evaluate_logical(and, &yes(), &yes()).equals(&yes()));
    assert!(evaluate_logical(and, &yes(), &no()).equals(&no()));
    assert!(evaluate_logical(and, &no(), &null).equals(&no()));
    assert!(evaluate_logical(and, &null, &no()).equals(&no()));
    assert!(evaluate_logical(and, &yes(), &null).is_null());
    assert!(evaluate_logical(and, &null, &null).is_null());
    let or = LogicalOperator::Or;
    assert!(evaluate_logical(or, &no(), &no()).equals(&no()));
    assert!(evaluate_logical(or, &no(), &yes()).equals(&yes()));
    assert!(evaluate_logical(or, &yes(), &null).equals(&yes()));
    assert!(evaluate_logical(or, &null, &yes()).equals(&yes()));
    assert!(evaluate_logical(or, &no(), &null).is_null());
    assert!(evaluate_logical(or, &null, &null).is_null());
    let xor = LogicalOperator::Xor;
    assert!(evaluate_logical(xor, &yes(), &no()).equals(&yes()));
    assert!(evaluate_logical(xor, &yes(), &yes()).equals(&no()));
    assert!(evaluate_logical(xor, &no(), &no()).equals(&no()));
    assert!(evaluate_logical(xor, &yes(), &null).is_null());
    assert!(evaluate_logical(xor, &null, &no()).is_null());
    assert_eq!(truth(&yes()), Some(true));
    assert_eq!(truth(&no()), Some(false));
    assert_eq!(truth(&null), None);
    assert_eq!(truth(&whole(1)), None);
}

#[test]
fn bitwise_operators() {
    assert!(evaluate_bitwise(BitwiseOperator::Or, &whole(0b1100), &whole(0b1010))
        .equals(&whole(0b1110)));
    assert!(evaluate_bitwise(BitwiseOperator::And, &whole(0b1100), &whole(0b1010))
        .equals(&whole(0b1000)));
    assert!(evaluate_bitwise(BitwiseOperator::LeftShift, &whole(3), &whole(4)).equals(&whole(48)));
    assert!(evaluate_bitwise(BitwiseOperator::RightShift, &whole(48), &whole(4)).equals(&whole(3)));
    assert!(evaluate_bitwise(BitwiseOperator::RightShift, &whole(-8), &whole(1)).equals(&whole(-4)));
    assert!(evaluate_bitwise(BitwiseOperator::LeftShift, &whole(1), &whole(63))
        .equals(&whole(i64::MIN)));
    assert!(evaluate_bitwise(BitwiseOperator::LeftShift, &whole(1), &whole(0)).equals(&whole(1)));
    assert!(evaluate_bitwise(BitwiseOperator::LeftShift, &whole(1), &whole(-1)).is_null());
    assert!(evaluate_bitwise(BitwiseOperator::RightShift, &whole(1), &whole(64)).is_null());
    assert!(evaluate_bitwise(BitwiseOperator::Or, &whole(1), &Value::Null).is_null());
    assert!(evaluate_bitwise(BitwiseOperator::And, &text("1"), &whole(1)).is_null());
}

#[test]
fn tests_of_texts() {
    let branch = text("branch");
    assert!(evaluate_check(CheckOperator::Contains, &branch, &text("anc"))
        .unwrap()
        .equals(&yes()));
    assert!(evaluate_check(CheckOperator::Contains, &branch, &text("branch"))
        .unwrap()
        .equals(&yes()));
    assert!(evaluate_check(CheckOperator::Contains, &branch, &text("")).unwrap().equals(&yes()));
    assert!(evaluate_check(CheckOperator::Contains, &branch, &text("xyz"))
        .unwrap()
        .equals(&no()));
    assert!(evaluate_check(CheckOperator::Contains, &branch, &text("branches"))
        .unwrap()
        .equals(&no()));
    assert!(evaluate_check(CheckOperator::StartsWith, &branch, &text("br"))
        .unwrap()
        .equals(&yes()));
    assert!(evaluate_check(CheckOperator::StartsWith, &branch, &text("ra"))
        .unwrap()
        .equals(&no()));
    assert!(evaluate_check(CheckOperator::EndsWith, &branch, &text("ch"))
        .unwrap()
        .equals(&yes()));
    assert!(evaluate_check(CheckOperator::EndsWith, &branch, &text("br"))
        .unwrap()
        .equals(&no()));
    assert!(evaluate_check(CheckOperator::EndsWith, &branch, &text("a branch"))
        .unwrap()
        .equals(&no()));
    assert!(evaluate_check(CheckOperator::Contains, &branch, &whole(1)).unwrap().is_null());
    assert!(evaluate_check(CheckOperator::Matches, &Value::Null, &text("a")).unwrap().is_null());
}

#[test]
fn matches_against_regular_expressions() {
    let branch = text("branch");
    assert!(evaluate_check(CheckOperator::Matches, &branch, &text("^br.*h$"))
        .unwrap()
        .equals(&yes()));
    assert!(evaluate_check(CheckOperator::Matches, &branch, &text("^ranch"))
        .unwrap()
        .equals(&no()));
    assert!(evaluate_check(CheckOperator::Matches, &branch, &text("an"))
        .unwrap()
        .equals(&yes()));
    assert!(evaluate_check(CheckOperator::Matches, &text("tag"), &text("^br"))
        .unwrap()
        .equals(&no()));
    assert!(evaluate_check(CheckOperator::Matches, &text("^br"), &text("^br"))
        .unwrap()
        .equals(&no()));
    assert_eq!(
        evaluate_check(CheckOperator::Matches, &branch, &text("(")).unwrap_err(),
        RuntimeError::InvalidPattern
    );
}

#[test]
fn the_outcome_of_a_search_decides_a_match() {
    let a = text("a");
    assert!(check_result(CheckOperator::Matches, &a, &a, Some(true)).unwrap().equals(&yes()));
    assert!(check_result(CheckOperator::Matches, &a, &a, Some(false)).unwrap().equals(&no()));
    assert_eq!(
        check_result(CheckOperator::Matches, &a, &a, None).unwrap_err(),
        RuntimeError::InvalidPattern
    );
    assert!(check_result(CheckOperator::Matches, &a, &whole(1), None).unwrap().is_null());
    assert!(check_result(CheckOperator::Contains, &a, &a, None).unwrap().equals(&yes()));
}

#[test]
fn between_includes_its_bounds() {
    assert!(evaluate_between(&whole(5), &whole(1), &whole(10)).equals(&yes()));
    assert!(evaluate_between(&whole(1), &whole(1), &whole(10)).equals(&yes()));
    assert!(evaluate_between(&whole(10), &whole(1), &whole(10)).equals(&yes()));
    assert!(evaluate_between(&whole(0), &whole(1), &whole(10)).equals(&no()));
    assert!(evaluate_between(&whole(11), &whole(1), &whole(10)).equals(&no()));
    assert!(evaluate_between(&text("b"), &text("a"), &text("c")).equals(&yes()));
    assert!(evaluate_between(&Value::Null, &whole(1), &whole(10)).is_null());
    assert!(evaluate_between(&whole(5), &Value::Null, &whole(10)).is_null());
    assert!(evaluate_between(&whole(5), &whole(1), &Value::Null).is_null());
    assert!(evaluate_between(&whole(5), &text("1"), &whole(10)).is_null());
}

#[test]
fn one_plus_two_times_three() {
    let product = arithmetic(number(2), ArithmeticOperator::Star, number(3));
    let sum = arithmetic(number(1), ArithmeticOperator::Plus, product);
    assert!(value_of(&sum).equals(&whole(7)));
}

#[test]
fn sixteen_plus_two() {
    let sum = arithmetic(number(0x10), ArithmeticOperator::Plus, number(0b10));
    assert!(value_of(&sum).equals(&whole(18)));
}

#[test]
fn literals_and_columns() {
    assert!(value_of(&string("x")).equals(&text("x")));
    assert!(value_of(&number(-3)).equals(&whole(-3)));
    assert!(value_of(&boolean(true)).equals(&yes()));
    assert!(value_of(&symbol("name")).equals(&text("Ada")));
    assert!(value_of(&symbol("age")).equals(&whole(36)));
    assert!(value_of(&symbol("gone")).is_null());
    assert!(value_of(&symbol("nowhere")).is_null());
}

#[test]
fn nested_expressions() {
    let older = comparison(symbol("age"), ComparisonOperator::Greater, number(30));
    let named = comparison(symbol("name"), ComparisonOperator::Equal, string("Ada"));
    let both = ExpressionNode::Logical(LogicalExpression {
        left: Box::new(older),
        operator: LogicalOperator::And,
        right: Box::new(named),
    });
    assert!(value_of(&both).equals(&yes()));
    let not = ExpressionNode::PrefixUnary(PrefixUnary {
        right: Box::new(both),
        op: PrefixUnaryOperator::Bang,
    });
    assert!(value_of(&not).equals(&no()));
    let bits = ExpressionNode::Bitwise(BitwiseExpression {
        left: Box::new(symbol("age")),
        operator: BitwiseOperator::And,
        right: Box::new(number(4)),
    });
    assert!(value_of(&bits).equals(&whole(4)));
    let starts = check(symbol("type"), CheckOperator::StartsWith, string("br"));
    assert!(value_of(&starts).equals(&yes()));
    let between = ExpressionNode::Between(BetweenExpression {
        value: Box::new(symbol("age")),
        range_start: Box::new(number(30)),
        range_end: Box::new(number(40)),
    });
    assert!(value_of(&between).equals(&yes()));
    let equal_to_null = comparison(symbol("gone"), ComparisonOperator::Equal, symbol("gone"));
    assert!(value_of(&equal_to_null).is_null());
    let safe = comparison(symbol("gone"), ComparisonOperator::NullSafeEqual, symbol("gone"));
    assert!(value_of(&safe).equals(&yes()));
}

#[test]
fn a_case_takes_the_first_condition_that_is_true() {
    let case = |age: i64, otherwise: Option<Box<ExpressionNode>>| {
        ExpressionNode::Case(CaseExpression {
            conditions: vec![
                comparison(number(age), ComparisonOperator::Less, number(18)),
                comparison(number(age), ComparisonOperator::Less, number(65)),
            ],
            values: vec![string("young"), string("adult")],
            default_value: otherwise,
            values_type: DataType::Text,
        })
    };
    assert!(value_of(&case(10, None)).equals(&text("young")));
    assert!(value_of(&case(30, None)).equals(&text("adult")));
    assert!(value_of(&case(70, None)).is_null());
    assert!(value_of(&case(70, Some(Box::new(string("old"))))).equals(&text("old")));
    let unknown = ExpressionNode::Case(CaseExpression {
        conditions: vec![symbol("gone"), boolean(true)],
        values: vec![number(1), number(2)],
        default_value: None,
        values_type: DataType::Number,
    });
    assert!(value_of(&unknown).equals(&whole(2)));
}

#[test]
fn calls_of_functions() {
    let call = |name: &str, arguments: Vec<ExpressionNode>| {
        ExpressionNode::Call(CallExpression { function_name: name.to_string(), arguments })
    };
    let range = call("int4range", vec![number(1), symbol("age")]);
    assert!(value_of(&range).equals(&Value::Range(
        DataType::Integer,
        Box::new(whole(1)),
        Box::new(whole(36))
    )));
    let empty = call("isempty", vec![call("int4range", vec![number(2), number(2)])]);
    assert!(value_of(&empty).equals(&yes()));
    let unknown = call("nothing", vec![]);
    assert_eq!(
        evaluate_expression(&unknown, &row(), &functions()).unwrap_err(),
        RuntimeError::UnknownFunction
    );
    let missing = call("int4range", vec![number(1)]);
    assert_eq!(
        evaluate_expression(&missing, &row(), &functions()).unwrap_err(),
        RuntimeError::MissingArguments
    );
}

#[test]
fn the_first_error_is_the_outcome() {
    let bad_pattern = check(string("a"), CheckOperator::Matches, string("("));
    let unknown = ExpressionNode::Call(CallExpression {
        function_name: "nothing".to_string(),
        arguments: vec![],
    });
    let left_first = arithmetic(
        ExpressionNode::Call(CallExpression {
            function_name: "nothing".to_string(),
            arguments: vec![],
        }),
        ArithmeticOperator::Plus,
        check(string("a"), CheckOperator::Matches, string("(")),
    );
    assert_eq!(
        evaluate_expression(&left_first, &row(), &functions()).unwrap_err(),
        RuntimeError::UnknownFunction
    );
    let right_first = arithmetic(bad_pattern, ArithmeticOperator::Plus, unknown);
    assert_eq!(
        evaluate_expression(&right_first, &row(), &functions()).unwrap_err(),
        RuntimeError::InvalidPattern
    );
}

#[test]
fn expressions_know_their_kind_and_type() {
    let mut fields: NameMap<DataType> = NameMap::new();
    fields.insert("name".to_string(), DataType::Text);
    fields.insert("time".to_string(), DataType::Date);
    let mut signatures = NameMap::new();
    register_std_range_function_signatures(&mut signatures);
    let env = Environment { fields, functions: signatures };
    let cases: Vec<(ExpressionNode, ExpressionKind, DataType)> = vec![
        (string("a"), ExpressionKind::String, DataType::Text),
        (symbol("name"), ExpressionKind::Symbol, DataType::Text),
        (symbol("time"), ExpressionKind::Symbol, DataType::Date),
        (symbol("nowhere"), ExpressionKind::Symbol, DataType::Null),
        (number(1), ExpressionKind::Number, DataType::Number),
        (boolean(false), ExpressionKind::Boolean, DataType::Boolean),
        (
            ExpressionNode::PrefixUnary(PrefixUnary {
                right: Box::new(number(1)),
                op: PrefixUnaryOperator::Minus,
            }),
            ExpressionKind::PrefixUnary,
            DataType::Number,
        ),
        (
            ExpressionNode::PrefixUnary(PrefixUnary {
                right: Box::new(boolean(true)),
                op: PrefixUnaryOperator::Bang,
            }),
            ExpressionKind::PrefixUnary,
            DataType::Boolean,
        ),
        (
            arithmetic(number(1), ArithmeticOperator::Plus, number(2)),
            ExpressionKind::Arithmetic,
            DataType::Number,
        ),
        (
            comparison(number(1), ComparisonOperator::Less, number(2)),
            ExpressionKind::Comparison,
            DataType::Boolean,
        ),
        (
            check(string("a"), CheckOperator::Contains, string("b")),
            ExpressionKind::Check,
            DataType::Boolean,
        ),
        (
            ExpressionNode::Logical(LogicalExpression {
                left: Box::new(boolean(true)),
                operator: LogicalOperator::Or,
                right: Box::new(boolean(false)),
            }),
            ExpressionKind::Logical,
            DataType::Boolean,
        ),
        (
            ExpressionNode::Bitwise(BitwiseExpression {
                left: Box::new(number(1)),
                operator: BitwiseOperator::Or,
                right: Box::new(number(2)),
            }),
            ExpressionKind::Bitwise,
            DataType::Number,
        ),
        (
            ExpressionNode::Call(CallExpression {
                function_name: "daterange".to_string(),
                arguments: vec![],
            }),
            ExpressionKind::Call,
            DataType::Range(Box::new(DataType::Date)),
        ),
        (
            ExpressionNode::Call(CallExpression {
                function_name: "nothing".to_string(),
                arguments: vec![],
            }),
            ExpressionKind::Call,
            DataType::Undefined,
        ),
        (
            ExpressionNode::Between(BetweenExpression {
                value: Box::new(number(1)),
                range_start: Box::new(number(0)),
                range_end: Box::new(number(2)),
            }),
            ExpressionKind::Between,
            DataType::Boolean,
        ),
        (
            ExpressionNode::Case(CaseExpression {
                conditions: vec![],
                values: vec![],
                default_value: None,
                values_type: DataType::Time,
            }),
            ExpressionKind::Case,
            DataType::Time,
        ),
    ];
    for (expression, kind, data_type) in cases {
        assert_eq!(expression.get_expression_kind(), kind);
        assert!(expression.expr_type(&env).equals(&data_type), "{:?}", kind);
    }
    let one = NumberExpression { value: 1 };
    assert_eq!(one.get_expression_kind(), ExpressionKind::Number);
    assert!(one.expr_type(&env).equals(&DataType::Number));
}
