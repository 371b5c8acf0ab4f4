//! The values of expressions.

use crate::expression::ArithmeticOperator;
use crate::expression::BitwiseOperator;
use crate::expression::CheckOperator;
use crate::expression::ComparisonOperator;
use crate::expression::ExpressionNode;
use crate::expression::LogicalOperator;
use crate::expression::PrefixUnaryOperator;
use crate::name_map::NameMap;
use crate::object::GQLObject;
use crate::object::GQLObjectView;
use crate::ordering::value_le;
use crate::ordering::value_precedes;
use crate::range::arity;
use crate::range::call_range_function;
use crate::range::result_of;
use crate::signature::Function;
use crate::text::to_chars;
use crate::value::type_of;
use crate::value::value_views;
use crate::value::Value;
use crate::value::ValueView;
use vstd::prelude::*;
use vstd::wrapping::i64_specs::wrapping_add;
use vstd::wrapping::i64_specs::wrapping_mul;
use vstd::wrapping::i64_specs::wrapping_shl;
use vstd::wrapping::i64_specs::wrapping_shr;
use vstd::wrapping::i64_specs::wrapping_sub;

verus! {

/// Why a query has no result.
#[derive(Clone, Copy, Debug, PartialEq, Eq, Structural)]
pub enum RuntimeError {
    /// The pattern of a match is no regular expression.
    InvalidPattern,
    /// No function has the name that is called.
    UnknownFunction,
    /// A function is called with fewer arguments than it reads.
    MissingArguments,
    /// A row holds nothing under a column that an aggregate function reads.
    MissingColumn,
    /// No table has the name that rows are asked of.
    UnknownTable,
}

/// What a search for the regular expression `pattern` in `text` finds:
/// whether it matches somewhere in `text`, or `None` where `pattern` is no
/// regular expression that can be built.
pub uninterp spec fn regex_search(pattern: Seq<char>, text: Seq<char>) -> Option<bool>;

/// `regex::Regex::new` followed by `Regex::is_match`: builds the regular
/// expression `pattern`, and says whether it matches somewhere in `text`.
/// `None` where `Regex::new` fails: `pattern` is no regular expression, or
/// one that is larger than the size limit. Both depend on `pattern` and
/// `text` alone.
#[verifier::external_body]
fn search(pattern: &str, text: &str) -> (found: Option<bool>)
    ensures
        found == regex_search(pattern@, text@),
{
    match regex::Regex::new(pattern) {
        Ok(expression) => Some(expression.is_match(text)),
        Err(_) => None,
    }
}

/// `part` stands in `text` at position `at`.
pub open spec fn occurs_at(text: Seq<char>, part: Seq<char>, at: int) -> bool {
    0 <= at && at + part.len() <= text.len() && text.subrange(at, at + part.len()) == part
}

/// `part` stands somewhere in `text`.
pub open spec fn occurs_in(text: Seq<char>, part: Seq<char>) -> bool {
    exists|at: int| occurs_at(text, part, at)
}

/// The truth that a value stands for in a condition: that of a truth
/// value; none for `NULL` and for every other value.
pub open spec fn truth_of(v: ValueView) -> Option<bool> {
    match v {
        ValueView::Boolean(b) => Some(b),
        _ => None,
    }
}

/// The two values can be compared by size: they are of one type, and that
/// type is ordered.
pub open spec fn comparable(a: ValueView, b: ValueView) -> bool {
    type_of(a) == type_of(b) && (a is Integer || a is Text || a is Boolean || a is Date || a is Time
        || a is DateTime)
}

/// What a prefix operator makes of a value: `-` the negative of an
/// integer, which wraps round at the least one; `!` the opposite of a
/// truth value; `NULL` of every other value.
pub open spec fn prefix_value(op: PrefixUnaryOperator, v: ValueView) -> ValueView {
    match op {
        PrefixUnaryOperator::Minus => match v {
            ValueView::Integer(n) => ValueView::Integer(wrapping_sub(0, n)),
            _ => ValueView::Null,
        },
        PrefixUnaryOperator::Bang => match v {
            ValueView::Boolean(b) => ValueView::Boolean(!b),
            _ => ValueView::Null,
        },
    }
}

/// `a` divided by `b`, rounded towards zero; `NULL` where `b` is 0. The
/// least integer divided by -1 wraps round to itself.
pub open spec fn division(a: i64, b: i64) -> ValueView {
    if b == 0 {
        ValueView::Null
    } else {
        match a.checked_div(b) {
            Some(q) => ValueView::Integer(q),
            None => ValueView::Integer(i64::MIN),
        }
    }
}

/// What `a` leaves when divided by `b`, with the sign of `a`; `NULL` where
/// `b` is 0.
pub open spec fn remainder(a: i64, b: i64) -> ValueView {
    if b == 0 {
        ValueView::Null
    } else {
        match a.checked_rem(b) {
            Some(r) => ValueView::Integer(r),
            None => ValueView::Integer(0),
        }
    }
}

/// What an arithmetic operator makes of two values: of two integers an
/// integer, which wraps round where it leaves the range of `i64`; `NULL`
/// where one of the two is no integer, and where the divisor is 0.
pub open spec fn arithmetic_value(op: ArithmeticOperator, l: ValueView, r: ValueView) -> ValueView {
    match (l, r) {
        (ValueView::Integer(a), ValueView::Integer(b)) => match op {
            ArithmeticOperator::Plus => ValueView::Integer(wrapping_add(a, b)),
            ArithmeticOperator::Minus => ValueView::Integer(wrapping_sub(a, b)),
            ArithmeticOperator::Star => ValueView::Integer(wrapping_mul(a, b)),
            ArithmeticOperator::Slash => division(a, b),
            ArithmeticOperator::Modulus => remainder(a, b),
        },
        _ => ValueView::Null,
    }
}

/// What a comparison makes of two values. `<=>` says whether the two are
/// the same, `NULL` included, and is never `NULL`. Every other comparison
/// is `NULL` where one of the two is `NULL`; `=` and `!=` say whether the
/// two are the same; the comparisons by size are `NULL` where the two
/// cannot be compared by size.
pub open spec fn comparison_value(op: ComparisonOperator, l: ValueView, r: ValueView) -> ValueView {
    if op == ComparisonOperator::NullSafeEqual {
        ValueView::Boolean(l == r)
    } else if l is Null || r is Null {
        ValueView::Null
    } else if op == ComparisonOperator::Equal {
        ValueView::Boolean(l == r)
    } else if op == ComparisonOperator::NotEqual {
        ValueView::Boolean(l != r)
    } else if !comparable(l, r) {
        ValueView::Null
    } else {
        match op {
            ComparisonOperator::Greater => ValueView::Boolean(!value_le(l, r)),
            ComparisonOperator::GreaterEqual => ValueView::Boolean(value_le(r, l)),
            ComparisonOperator::Less => ValueView::Boolean(!value_le(r, l)),
            _ => ValueView::Boolean(value_le(l, r)),
        }
    }
}

/// What a connective makes of two values, where what is no truth value
/// counts as unknown. `AND` is false where one is false, true where both
/// are true; `OR` is true where one is true, false where both are false;
/// `XOR` says whether two truth values differ. Everything else is `NULL`.
pub open spec fn logical_value(op: LogicalOperator, l: ValueView, r: ValueView) -> ValueView {
    let a = truth_of(l);
    let b = truth_of(r);
    match op {
        LogicalOperator::And => if a == Some(false) || b == Some(false) {
            ValueView::Boolean(false)
        } else if a == Some(true) && b == Some(true) {
            ValueView::Boolean(true)
        } else {
            ValueView::Null
        },
        LogicalOperator::Or => if a == Some(true) || b == Some(true) {
            ValueView::Boolean(true)
        } else if a == Some(false) && b == Some(false) {
            ValueView::Boolean(false)
        } else {
            ValueView::Null
        },
        LogicalOperator::Xor => match (a, b) {
            (Some(x), Some(y)) => ValueView::Boolean(x != y),
            _ => ValueView::Null,
        },
    }
}

/// What a bitwise operator makes of two values: of two integers an
/// integer, where a shift is by 0 to 63 places; `NULL` otherwise.
pub open spec fn bitwise_value(op: BitwiseOperator, l: ValueView, r: ValueView) -> ValueView {
    match (l, r) {
        (ValueView::Integer(a), ValueView::Integer(b)) => match op {
            BitwiseOperator::Or => ValueView::Integer(a | b),
            BitwiseOperator::And => ValueView::Integer(a & b),
            BitwiseOperator::RightShift => if 0 <= b < 64 {
                ValueView::Integer(wrapping_shr(a, b as u32))
            } else {
                ValueView::Null
            },
            BitwiseOperator::LeftShift => if 0 <= b < 64 {
                ValueView::Integer(wrapping_shl(a, b as u32))
            } else {
                ValueView::Null
            },
        },
        _ => ValueView::Null,
    }
}

/// What a test of one text against another comes to, given what a search
/// for the second as a regular expression in the first has found. `NULL`
/// where one of the two is no text. A match against what is no regular
/// expression is an error.
pub open spec fn check_value(
    op: CheckOperator,
    l: ValueView,
    r: ValueView,
    found: Option<bool>,
) -> Result<ValueView, RuntimeError> {
    match (l, r) {
        (ValueView::Text(text), ValueView::Text(part)) => match op {
            CheckOperator::Contains => Ok(ValueView::Boolean(occurs_in(text, part))),
            CheckOperator::StartsWith => Ok(ValueView::Boolean(occurs_at(text, part, 0))),
            CheckOperator::EndsWith => Ok(
                ValueView::Boolean(occurs_at(text, part, text.len() - part.len())),
            ),
            CheckOperator::Matches => match found {
                Some(b) => Ok(ValueView::Boolean(b)),
                None => Err(RuntimeError::InvalidPattern),
            },
        },
        _ => Ok(ValueView::Null),
    }
}

/// Whether `v` lies between `low` and `high`, both included; `NULL` where
/// one of the three is `NULL` or `v` cannot be compared with both bounds.
pub open spec fn between_value(v: ValueView, low: ValueView, high: ValueView) -> ValueView {
    if v is Null || low is Null || high is Null {
        ValueView::Null
    } else if !comparable(v, low) || !comparable(v, high) {
        ValueView::Null
    } else {
        ValueView::Boolean(value_le(low, v) && value_le(v, high))
    }
}

/// What a prefix operator makes of a value.
pub fn evaluate_prefix_unary(op: PrefixUnaryOperator, v: &Value) -> (result: Value)
    ensures
        result@ == prefix_value(op, v@),
{
    match op {
        PrefixUnaryOperator::Minus => match v {
            Value::Integer(n) => Value::Integer(0i64.wrapping_sub(*n)),
            _ => Value::Null,
        },
        PrefixUnaryOperator::Bang => match v {
            Value::Boolean(b) => Value::Boolean(!*b),
            _ => Value::Null,
        },
    }
}

/// What an arithmetic operator makes of two values.
pub fn evaluate_arithmetic(op: ArithmeticOperator, l: &Value, r: &Value) -> (result: Value)
    ensures
        result@ == arithmetic_value(op, l@, r@),
{
    match l {
        Value::Integer(a) => match r {
            Value::Integer(b) => match op {
                ArithmeticOperator::Plus => Value::Integer(a.wrapping_add(*b)),
                ArithmeticOperator::Minus => Value::Integer(a.wrapping_sub(*b)),
                ArithmeticOperator::Star => Value::Integer(a.wrapping_mul(*b)),
                ArithmeticOperator::Slash => if *b == 0 {
                    Value::Null
                } else {
                    match a.checked_div(*b) {
                        Some(q) => Value::Integer(q),
                        None => Value::Integer(i64::MIN),
                    }
                },
                ArithmeticOperator::Modulus => if *b == 0 {
                    Value::Null
                } else {
                    match a.checked_rem(*b) {
                        Some(q) => Value::Integer(q),
                        None => Value::Integer(0),
                    }
                },
            },
            _ => Value::Null,
        },
        _ => Value::Null,
    }
}

/// Whether the two values can be compared by size.
pub fn are_comparable(a: &Value, b: &Value) -> (r: bool)
    ensures
        r == comparable(a@, b@),
{
    match a {
        Value::Integer(_) => matches!(b, Value::Integer(_)),
        Value::Text(_) => matches!(b, Value::Text(_)),
        Value::Boolean(_) => matches!(b, Value::Boolean(_)),
        Value::Date(_) => matches!(b, Value::Date(_)),
        Value::Time(_) => matches!(b, Value::Time(_)),
        Value::DateTime(_) => matches!(b, Value::DateTime(_)),
        _ => false,
    }
}

/// What a comparison makes of two values.
pub fn evaluate_comparison(op: ComparisonOperator, l: &Value, r: &Value) -> (result: Value)
    ensures
        result@ == comparison_value(op, l@, r@),
{
    match op {
        ComparisonOperator::NullSafeEqual => Value::Boolean(l.equals(r)),
        _ => {
            if l.is_null() || r.is_null() {
                return Value::Null;
            }
            match op {
                ComparisonOperator::Equal => Value::Boolean(l.equals(r)),
                ComparisonOperator::NotEqual => Value::Boolean(!l.equals(r)),
                _ => {
                    if !are_comparable(l, r) {
                        return Value::Null;
                    }
                    match op {
                        ComparisonOperator::Greater => Value::Boolean(!value_precedes(l, r)),
                        ComparisonOperator::GreaterEqual => Value::Boolean(value_precedes(r, l)),
                        ComparisonOperator::Less => Value::Boolean(!value_precedes(r, l)),
                        _ => Value::Boolean(value_precedes(l, r)),
                    }
                },
            }
        },
    }
}

/// The truth that a value stands for in a condition.
pub fn truth(v: &Value) -> (t: Option<bool>)
    ensures
        t == truth_of(v@),
{
    match v {
        Value::Boolean(b) => Some(*b),
        _ => None,
    }
}

/// What a connective makes of two values.
pub fn evaluate_logical(op: LogicalOperator, l: &Value, r: &Value) -> (result: Value)
    ensures
        result@ == logical_value(op, l@, r@),
{
    let a = truth(l);
    let b = truth(r);
    match op {
        LogicalOperator::And => if a == Some(false) || b == Some(false) {
            Value::Boolean(false)
        } else if a == Some(true) && b == Some(true) {
            Value::Boolean(true)
        } else {
            Value::Null
        },
        LogicalOperator::Or => if a == Some(true) || b == Some(true) {
            Value::Boolean(true)
        } else if a == Some(false) && b == Some(false) {
            Value::Boolean(false)
        } else {
            Value::Null
        },
        LogicalOperator::Xor => match (a, b) {
            (Some(x), Some(y)) => Value::Boolean(x != y),
            _ => Value::Null,
        },
    }
}

/// What a bitwise operator makes of two values.
pub fn evaluate_bitwise(op: BitwiseOperator, l: &Value, r: &Value) -> (result: Value)
    ensures
        result@ == bitwise_value(op, l@, r@),
{
    match l {
        Value::Integer(a) => match r {
            Value::Integer(b) => match op {
                BitwiseOperator::Or => Value::Integer(*a | *b),
                BitwiseOperator::And => Value::Integer(*a & *b),
                BitwiseOperator::RightShift => if 0 <= *b && *b < 64 {
                    Value::Integer(a.wrapping_shr(*b as u32))
                } else {
                    Value::Null
                },
                BitwiseOperator::LeftShift => if 0 <= *b && *b < 64 {
                    Value::Integer(a.wrapping_shl(*b as u32))
                } else {
                    Value::Null
                },
            },
            _ => Value::Null,
        },
        _ => Value::Null,
    }
}

/// Whether `part` stands in `text` at position `at`.
fn stands_at(text: &Vec<char>, part: &Vec<char>, at: usize) -> (r: bool)
    ensures
        r == occurs_at(text@, part@, at as int),
{
    if part.len() > text.len() || at > text.len() - part.len() {
        return false;
    }
    let n: usize = text.len();
    let mut i: usize = 0;
    while i < part.len()
        invariant
            i <= part@.len(),
            n == text@.len(),
            at + part@.len() <= n,
            forall|j: int| 0 <= j < i ==> text@[at + j] == part@[j],
        decreases part@.len() - i,
    {
        if text[at + i] != part[i] {
            assert(text@.subrange(at as int, at + part@.len())[i as int] != part@[i as int]);
            return false;
        }
        i += 1;
    }
    assert(text@.subrange(at as int, at + part@.len()) =~= part@);
    true
}

/// Whether `part` stands somewhere in `text`.
fn stands_in(text: &Vec<char>, part: &Vec<char>) -> (r: bool)
    ensures
        r == occurs_in(text@, part@),
{
    if part.len() > text.len() {
        return false;
    }
    let last: usize = text.len() - part.len();
    let mut at: usize = 0;
    loop
        invariant
            last == text@.len() - part@.len(),
            at <= last,
            forall|j: int| 0 <= j < at ==> !occurs_at(text@, part@, j),
        decreases last - at,
    {
        if stands_at(text, part, at) {
            return true;
        }
        if at == last {
            return false;
        }
        at += 1;
    }
}

/// What a test of one text against another comes to, given what a search
/// for the second as a regular expression in the first has found.
pub fn check_result(op: CheckOperator, l: &Value, r: &Value, found: Option<bool>) -> (result: Result<
    Value,
    RuntimeError,
>)
    ensures
        match result {
            Ok(v) => check_value(op, l@, r@, found) == Ok::<ValueView, RuntimeError>(v@),
            Err(e) => check_value(op, l@, r@, found) == Err::<ValueView, RuntimeError>(e),
        },
{
    match l {
        Value::Text(a) => match r {
            Value::Text(b) => {
                let text = to_chars(a.as_str());
                let part = to_chars(b.as_str());
                match op {
                    CheckOperator::Contains => Ok(Value::Boolean(stands_in(&text, &part))),
                    CheckOperator::StartsWith => Ok(Value::Boolean(stands_at(&text, &part, 0))),
                    CheckOperator::EndsWith => if part.len() > text.len() {
                        Ok(Value::Boolean(false))
                    } else {
                        Ok(Value::Boolean(stands_at(&text, &part, text.len() - part.len())))
                    },
                    CheckOperator::Matches => match found {
                        Some(b) => Ok(Value::Boolean(b)),
                        None => Err(RuntimeError::InvalidPattern),
                    },
                }
            },
            _ => Ok(Value::Null),
        },
        _ => Ok(Value::Null),
    }
}

/// What is searched for a test of `l` against `r`: for a match of two
/// texts, the second as a regular expression in the first; else nothing.
pub open spec fn search_for(op: CheckOperator, l: ValueView, r: ValueView) -> Option<bool> {
    match (op, l, r) {
        (CheckOperator::Matches, ValueView::Text(text), ValueView::Text(pattern)) => regex_search(
            pattern,
            text,
        ),
        _ => None,
    }
}

/// The value of a test of one text against another: whether the first
/// holds the second, begins with it, ends with it, or is matched by it as
/// a regular expression.
pub fn evaluate_check(op: CheckOperator, l: &Value, r: &Value) -> (result: Result<
    Value,
    RuntimeError,
>)
    ensures
        match result {
            Ok(v) => check_value(op, l@, r@, search_for(op, l@, r@)) == Ok::<
                ValueView,
                RuntimeError,
            >(v@),
            Err(e) => check_value(op, l@, r@, search_for(op, l@, r@)) == Err::<
                ValueView,
                RuntimeError,
            >(e),
        },
{
    let found = match op {
        CheckOperator::Matches => match l {
            Value::Text(text) => match r {
                Value::Text(pattern) => search(pattern.as_str(), text.as_str()),
                _ => None,
            },
            _ => None,
        },
        _ => None,
    };
    check_result(op, l, r, found)
}

/// Whether `v` lies between `low` and `high`, both included.
pub fn evaluate_between(v: &Value, low: &Value, high: &Value) -> (result: Value)
    ensures
        result@ == between_value(v@, low@, high@),
{
    if v.is_null() || low.is_null() || high.is_null() {
        Value::Null
    } else if !are_comparable(v, low) || !are_comparable(v, high) {
        Value::Null
    } else {
        Value::Boolean(value_precedes(low, v) && value_precedes(v, high))
    }
}

/// `<=>` is never `NULL`, and `=` with `NULL` is `NULL`.
pub proof fn lemma_null_safe_equality(x: ValueView, y: ValueView)
    ensures
        comparison_value(ComparisonOperator::NullSafeEqual, x, y) is Boolean,
        comparison_value(ComparisonOperator::NullSafeEqual, ValueView::Null, ValueView::Null)
            == ValueView::Boolean(true),
        !(x is Null) ==> comparison_value(ComparisonOperator::NullSafeEqual, x, ValueView::Null)
            == ValueView::Boolean(false),
        comparison_value(ComparisonOperator::Equal, x, ValueView::Null) is Null,
        comparison_value(ComparisonOperator::Equal, ValueView::Null, x) is Null,
{
}


/// What an expression comes to: a value, or the reason why it has none.
pub type Outcome = Result<ValueView, RuntimeError>;

/// The first error among `outcomes`, if there is one.
pub open spec fn first_error(outcomes: Seq<Outcome>) -> Option<RuntimeError>
    decreases outcomes.len(),
{
    if outcomes.len() == 0 {
        None
    } else {
        match outcomes[0] {
            Err(e) => Some(e),
            Ok(_) => first_error(outcomes.drop_first()),
        }
    }
}

/// The values among `outcomes`, with `NULL` in the place of an error.
pub open spec fn values_among(outcomes: Seq<Outcome>) -> Seq<ValueView> {
    Seq::new(
        outcomes.len(),
        |i: int|
            match outcomes[i] {
                Ok(v) => v,
                Err(_) => ValueView::Null,
            },
    )
}

/// The value of a choice among cases, from case `i` on: the value of the
/// first case whose condition is true, or `otherwise` where none is. An
/// error in a condition that is reached is the outcome.
pub open spec fn case_value(
    conditions: Seq<Outcome>,
    values: Seq<Outcome>,
    otherwise: Outcome,
    i: int,
) -> Outcome
    decreases conditions.len() - i,
{
    if i < 0 || i >= conditions.len() || i >= values.len() {
        otherwise
    } else {
        match conditions[i] {
            Err(e) => Err(e),
            Ok(c) => if c == ValueView::Boolean(true) {
                values[i]
            } else {
                case_value(conditions, values, otherwise, i + 1)
            },
        }
    }
}

/// The outcome of an operation on one operand.
pub open spec fn apply_prefix(op: PrefixUnaryOperator, right: Outcome) -> Outcome {
    match right {
        Ok(v) => Ok(prefix_value(op, v)),
        Err(e) => Err(e),
    }
}

/// The two operands of an operation, or the first error among them.
pub open spec fn operands(left: Outcome, right: Outcome) -> Result<
    (ValueView, ValueView),
    RuntimeError,
> {
    match left {
        Err(e) => Err(e),
        Ok(l) => match right {
            Err(e) => Err(e),
            Ok(r) => Ok((l, r)),
        },
    }
}

/// The outcome of a call of the function that `found` holds on the
/// arguments `arguments`.
pub open spec fn call_value(found: Option<Function>, arguments: Seq<Outcome>) -> Outcome {
    match found {
        None => Err(RuntimeError::UnknownFunction),
        Some(function) => match first_error(arguments) {
            Some(e) => Err(e),
            None => if arguments.len() < arity(function) {
                Err(RuntimeError::MissingArguments)
            } else {
                Ok(result_of(function, values_among(arguments)))
            },
        },
    }
}

/// The value of `expression` for the row `row`, with the functions
/// `functions`: a text, a number or a truth value stands for itself; the
/// name of a column for what the row holds under it, `NULL` where it
/// holds nothing; every other expression for what its operator makes of
/// the values of its parts. The first error among the parts, from left to
/// right, is the outcome.
pub open spec fn expression_value(
    expression: ExpressionNode,
    row: GQLObjectView,
    functions: &NameMap<Function>,
) -> Outcome
    decreases expression,
{
    match expression {
        ExpressionNode::String(e) => Ok(ValueView::Text(e.value@)),
        ExpressionNode::Symbol(e) => Ok(row.value_of(e.value@)),
        ExpressionNode::Number(e) => Ok(ValueView::Integer(e.value)),
        ExpressionNode::Boolean(e) => Ok(ValueView::Boolean(e.is_true)),
        ExpressionNode::PrefixUnary(e) => apply_prefix(
            e.op,
            expression_value(*e.right, row, functions),
        ),
        ExpressionNode::Arithmetic(e) => arithmetic_outcome(
            &e,
            expression_value(*e.left, row, functions),
            expression_value(*e.right, row, functions),
        ),
        ExpressionNode::Comparison(e) => comparison_outcome(
            &e,
            expression_value(*e.left, row, functions),
            expression_value(*e.right, row, functions),
        ),
        ExpressionNode::Check(e) => check_outcome(
            &e,
            expression_value(*e.left, row, functions),
            expression_value(*e.right, row, functions),
        ),
        ExpressionNode::Logical(e) => logical_outcome(
            &e,
            expression_value(*e.left, row, functions),
            expression_value(*e.right, row, functions),
        ),
        ExpressionNode::Bitwise(e) => bitwise_outcome(
            &e,
            expression_value(*e.left, row, functions),
            expression_value(*e.right, row, functions),
        ),
        ExpressionNode::Call(e) => call_value(
            functions.item(e.function_name@),
            outcomes_of(e.arguments@, row, functions),
        ),
        ExpressionNode::Between(e) => between_outcome(
            expression_value(*e.value, row, functions),
            expression_value(*e.range_start, row, functions),
            expression_value(*e.range_end, row, functions),
        ),
        ExpressionNode::Case(e) => case_value(
            outcomes_of(e.conditions@, row, functions),
            outcomes_of(e.values@, row, functions),
            match e.default_value {
                Some(otherwise) => expression_value(*otherwise, row, functions),
                None => Ok(ValueView::Null),
            },
            0,
        ),
    }
}

/// The outcome of the expression for when no case holds.
pub open spec fn default_outcome(
    otherwise: Option<Box<ExpressionNode>>,
    row: GQLObjectView,
    functions: &NameMap<Function>,
) -> Outcome {
    match otherwise {
        Some(expression) => expression_value(*expression, row, functions),
        None => Ok(ValueView::Null),
    }
}

/// `result` is the outcome `outcome`.
pub open spec fn is_outcome(result: Result<Value, RuntimeError>, outcome: Outcome) -> bool {
    match result {
        Ok(v) => outcome == Ok::<ValueView, RuntimeError>(v@),
        Err(e) => outcome == Err::<ValueView, RuntimeError>(e),
    }
}

/// Where the outcomes before position `i` are values, the first error is
/// that at `i`, if there is one there, and none where `i` is the end.
pub proof fn lemma_first_error(outcomes: Seq<Outcome>, i: int)
    requires
        0 <= i <= outcomes.len(),
        forall|j: int| 0 <= j < i ==> (#[trigger] outcomes[j]) is Ok,
    ensures
        i == outcomes.len() ==> first_error(outcomes) is None,
        i < outcomes.len() && outcomes[i] is Err ==> first_error(outcomes) == Some(
            outcomes[i]->Err_0,
        ),
    decreases outcomes.len(),
{
    if outcomes.len() > 0 && i > 0 {
        assert(outcomes[0] is Ok);
        assert forall|j: int| 0 <= j < i - 1 implies (#[trigger] outcomes.drop_first()[j]) is Ok by {
            assert(outcomes[j + 1] is Ok);
        }
        lemma_first_error(outcomes.drop_first(), i - 1);
    }
}

/// The outcomes of `expressions` for the row `row`, one by one.
pub open spec fn outcomes_of(
    expressions: Seq<ExpressionNode>,
    row: GQLObjectView,
    functions: &NameMap<Function>,
) -> Seq<Outcome>
    decreases expressions,
{
    Seq::new(
        expressions.len(),
        |i: int|
            if 0 <= i < expressions.len() {
                expression_value(expressions[i], row, functions)
            } else {
                Ok(ValueView::Null)
            },
    )
}

/// The value of a call for the row `object`.
fn evaluate_call(
    e: &crate::expression::CallExpression,
    object: &GQLObject,
    functions: &NameMap<Function>,
) -> (result: Result<Value, RuntimeError>)
    ensures
        is_outcome(
            result,
            call_value(
                functions.item(e.function_name@),
                outcomes_of(e.arguments@, object@, functions),
            ),
        ),
    decreases e,
{
    let function = match functions.get(e.function_name.as_str()) {
        Some(function) => *function,
        None => {
            return Err(RuntimeError::UnknownFunction);
        },
    };
    let ghost outcomes = outcomes_of(e.arguments@, object@, functions);
    let mut arguments: Vec<Value> = Vec::new();
    let mut i: usize = 0;
    while i < e.arguments.len()
        invariant
            i <= e.arguments@.len(),
            arguments@.len() == i,
            outcomes == outcomes_of(e.arguments@, object@, functions),
            functions.item(e.function_name@) == Some(function),
            forall|j: int|
                0 <= j < i ==> (#[trigger] outcomes[j]) == Ok::<ValueView, RuntimeError>(
                    arguments@[j]@,
                ),
        decreases e.arguments@.len() - i,
    {
        proof {
            vstd::std_specs::vec::axiom_vec_index_decreases(e.arguments, i as int);
        }
        match evaluate_expression(&e.arguments[i], object, functions) {
            Ok(v) => {
                arguments.push(v);
            },
            Err(error) => {
                proof {
                    assert(outcomes[i as int] == Err::<ValueView, RuntimeError>(error));
                    lemma_first_error(outcomes, i as int);
                }
                return Err(error);
            },
        }
        assert(outcomes[i as int] == Ok::<ValueView, RuntimeError>(arguments@[i as int]@));
        i += 1;
    }
    proof {
        lemma_first_error(outcomes, i as int);
        assert(values_among(outcomes) =~= value_views(arguments@));
    }
    match call_range_function(function, arguments.as_slice()) {
        Some(v) => Ok(v),
        None => Err(RuntimeError::MissingArguments),
    }
}

/// The value of a choice among cases for the row `object`.
fn evaluate_case(
    e: &crate::expression::CaseExpression,
    object: &GQLObject,
    functions: &NameMap<Function>,
) -> (result: Result<Value, RuntimeError>)
    ensures
        is_outcome(
            result,
            case_value(
                outcomes_of(e.conditions@, object@, functions),
                outcomes_of(e.values@, object@, functions),
                default_outcome(e.default_value, object@, functions),
                0,
            ),
        ),
    decreases e,
{
    let ghost conditions = outcomes_of(e.conditions@, object@, functions);
    let ghost values = outcomes_of(e.values@, object@, functions);
    let ghost otherwise = default_outcome(e.default_value, object@, functions);
    let mut i: usize = 0;
    while i < e.conditions.len() && i < e.values.len()
        invariant
            i <= e.conditions@.len(),
            i <= e.values@.len(),
            conditions == outcomes_of(e.conditions@, object@, functions),
            values == outcomes_of(e.values@, object@, functions),
            otherwise == default_outcome(e.default_value, object@, functions),
            case_value(conditions, values, otherwise, 0) == case_value(
                conditions,
                values,
                otherwise,
                i as int,
            ),
        decreases e.conditions@.len() - i,
    {
        proof {
            vstd::std_specs::vec::axiom_vec_index_decreases(e.conditions, i as int);
            vstd::std_specs::vec::axiom_vec_index_decreases(e.values, i as int);
        }
        let condition = match evaluate_expression(&e.conditions[i], object, functions) {
            Ok(v) => v,
            Err(error) => {
                assert(conditions[i as int] == Err::<ValueView, RuntimeError>(error));
                return Err(error);
            },
        };
        assert(conditions[i as int] == Ok::<ValueView, RuntimeError>(condition@));
        if condition.as_bool() {
            let value = evaluate_expression(&e.values[i], object, functions);
            assert(is_outcome(value, values[i as int]));
            return value;
        }
        i += 1;
    }
    match &e.default_value {
        Some(d) => evaluate_expression(d, object, functions),
        None => Ok(Value::Null),
    }
}

/// The outcome of an arithmetic operation on the outcomes of its two operands.
pub open spec fn arithmetic_outcome(e: &crate::expression::ArithmeticExpression, left: Outcome, right: Outcome) -> Outcome {
    match operands(left, right) {
        Ok((l, r)) => Ok(arithmetic_value(e.operator, l, r)),
        Err(error) => Err(error),
    }
}

/// The value of an arithmetic operation for the row `object`.
fn evaluate_arithmetic_expression(
    e: &crate::expression::ArithmeticExpression,
    object: &GQLObject,
    functions: &NameMap<Function>,
) -> (result: Result<Value, RuntimeError>)
    ensures
        is_outcome(
            result,
            arithmetic_outcome(
                e,
                expression_value(*e.left, object@, functions),
                expression_value(*e.right, object@, functions),
            ),
        ),
    decreases e,
{
    let l = match evaluate_expression(&e.left, object, functions) {
        Ok(v) => v,
        Err(error) => {
            return Err(error);
        },
    };
    let r = match evaluate_expression(&e.right, object, functions) {
        Ok(v) => v,
        Err(error) => {
            return Err(error);
        },
    };
    Ok(evaluate_arithmetic(e.operator, &l, &r))
}

/// The outcome of a comparison on the outcomes of its two operands.
pub open spec fn comparison_outcome(e: &crate::expression::ComparisonExpression, left: Outcome, right: Outcome) -> Outcome {
    match operands(left, right) {
        Ok((l, r)) => Ok(comparison_value(e.operator, l, r)),
        Err(error) => Err(error),
    }
}

/// The value of a comparison for the row `object`.
fn evaluate_comparison_expression(
    e: &crate::expression::ComparisonExpression,
    object: &GQLObject,
    functions: &NameMap<Function>,
) -> (result: Result<Value, RuntimeError>)
    ensures
        is_outcome(
            result,
            comparison_outcome(
                e,
                expression_value(*e.left, object@, functions),
                expression_value(*e.right, object@, functions),
            ),
        ),
    decreases e,
{
    let l = match evaluate_expression(&e.left, object, functions) {
        Ok(v) => v,
        Err(error) => {
            return Err(error);
        },
    };
    let r = match evaluate_expression(&e.right, object, functions) {
        Ok(v) => v,
        Err(error) => {
            return Err(error);
        },
    };
    Ok(evaluate_comparison(e.operator, &l, &r))
}

/// The outcome of a test of texts on the outcomes of its two operands.
pub open spec fn check_outcome(e: &crate::expression::CheckExpression, left: Outcome, right: Outcome) -> Outcome {
    match operands(left, right) {
        Ok((l, r)) => check_value(e.operator, l, r, search_for(e.operator, l, r)),
        Err(error) => Err(error),
    }
}

/// The value of a test of texts for the row `object`.
fn evaluate_check_expression(
    e: &crate::expression::CheckExpression,
    object: &GQLObject,
    functions: &NameMap<Function>,
) -> (result: Result<Value, RuntimeError>)
    ensures
        is_outcome(
            result,
            check_outcome(
                e,
                expression_value(*e.left, object@, functions),
                expression_value(*e.right, object@, functions),
            ),
        ),
    decreases e,
{
    let l = match evaluate_expression(&e.left, object, functions) {
        Ok(v) => v,
        Err(error) => {
            return Err(error);
        },
    };
    let r = match evaluate_expression(&e.right, object, functions) {
        Ok(v) => v,
        Err(error) => {
            return Err(error);
        },
    };
    evaluate_check(e.operator, &l, &r)
}

/// The outcome of a connective on the outcomes of its two operands.
pub open spec fn logical_outcome(e: &crate::expression::LogicalExpression, left: Outcome, right: Outcome) -> Outcome {
    match operands(left, right) {
        Ok((l, r)) => Ok(logical_value(e.operator, l, r)),
        Err(error) => Err(error),
    }
}

/// The value of a connective for the row `object`.
fn evaluate_logical_expression(
    e: &crate::expression::LogicalExpression,
    object: &GQLObject,
    functions: &NameMap<Function>,
) -> (result: Result<Value, RuntimeError>)
    ensures
        is_outcome(
            result,
            logical_outcome(
                e,
                expression_value(*e.left, object@, functions),
                expression_value(*e.right, object@, functions),
            ),
        ),
    decreases e,
{
    let l = match evaluate_expression(&e.left, object, functions) {
        Ok(v) => v,
        Err(error) => {
            return Err(error);
        },
    };
    let r = match evaluate_expression(&e.right, object, functions) {
        Ok(v) => v,
        Err(error) => {
            return Err(error);
        },
    };
    Ok(evaluate_logical(e.operator, &l, &r))
}

/// The outcome of a bitwise operation on the outcomes of its two operands.
pub open spec fn bitwise_outcome(e: &crate::expression::BitwiseExpression, left: Outcome, right: Outcome) -> Outcome {
    match operands(left, right) {
        Ok((l, r)) => Ok(bitwise_value(e.operator, l, r)),
        Err(error) => Err(error),
    }
}

/// The value of a bitwise operation for the row `object`.
fn evaluate_bitwise_expression(
    e: &crate::expression::BitwiseExpression,
    object: &GQLObject,
    functions: &NameMap<Function>,
) -> (result: Result<Value, RuntimeError>)
    ensures
        is_outcome(
            result,
            bitwise_outcome(
                e,
                expression_value(*e.left, object@, functions),
                expression_value(*e.right, object@, functions),
            ),
        ),
    decreases e,
{
    let l = match evaluate_expression(&e.left, object, functions) {
        Ok(v) => v,
        Err(error) => {
            return Err(error);
        },
    };
    let r = match evaluate_expression(&e.right, object, functions) {
        Ok(v) => v,
        Err(error) => {
            return Err(error);
        },
    };
    Ok(evaluate_bitwise(e.operator, &l, &r))
}

/// The outcome of a test of a value against two bounds on the outcomes of
/// the three.
pub open spec fn between_outcome(value: Outcome, low: Outcome, high: Outcome) -> Outcome {
    match value {
        Err(error) => Err(error),
        Ok(v) => match operands(low, high) {
            Ok((l, h)) => Ok(between_value(v, l, h)),
            Err(error) => Err(error),
        },
    }
}

/// The value of a test of a value against two bounds for the row `object`.
fn evaluate_between_expression(
    e: &crate::expression::BetweenExpression,
    object: &GQLObject,
    functions: &NameMap<Function>,
) -> (result: Result<Value, RuntimeError>)
    ensures
        is_outcome(
            result,
            between_outcome(
                expression_value(*e.value, object@, functions),
                expression_value(*e.range_start, object@, functions),
                expression_value(*e.range_end, object@, functions),
            ),
        ),
    decreases e,
{
    let v = match evaluate_expression(&e.value, object, functions) {
        Ok(v) => v,
        Err(error) => {
            return Err(error);
        },
    };
    let low = match evaluate_expression(&e.range_start, object, functions) {
        Ok(v) => v,
        Err(error) => {
            return Err(error);
        },
    };
    let high = match evaluate_expression(&e.range_end, object, functions) {
        Ok(v) => v,
        Err(error) => {
            return Err(error);
        },
    };
    Ok(evaluate_between(&v, &low, &high))
}

/// The value of `expression` for the row `object`, with the functions `functions`.
pub fn evaluate_expression(
    expression: &ExpressionNode,
    object: &GQLObject,
    functions: &NameMap<Function>,
) -> (result: Result<Value, RuntimeError>)
    ensures
        is_outcome(result, expression_value(*expression, object@, functions)),
    decreases expression,
{
    match expression {
        ExpressionNode::String(e) => Ok(Value::Text(e.value.clone())),
        ExpressionNode::Symbol(e) => match object.get(e.value.as_str()) {
            Some(v) => Ok(v.duplicate()),
            None => Ok(Value::Null),
        },
        ExpressionNode::Number(e) => Ok(Value::Integer(e.value)),
        ExpressionNode::Boolean(e) => Ok(Value::Boolean(e.is_true)),
        ExpressionNode::PrefixUnary(e) => match evaluate_expression(&e.right, object, functions) {
            Ok(v) => Ok(evaluate_prefix_unary(e.op, &v)),
            Err(error) => Err(error),
        },
        ExpressionNode::Arithmetic(e) => evaluate_arithmetic_expression(e, object, functions),
        ExpressionNode::Comparison(e) => evaluate_comparison_expression(e, object, functions),
        ExpressionNode::Check(e) => evaluate_check_expression(e, object, functions),
        ExpressionNode::Logical(e) => evaluate_logical_expression(e, object, functions),
        ExpressionNode::Bitwise(e) => evaluate_bitwise_expression(e, object, functions),
        ExpressionNode::Call(e) => evaluate_call(e, object, functions),
        ExpressionNode::Between(e) => evaluate_between_expression(e, object, functions),
        ExpressionNode::Case(e) => evaluate_case(e, object, functions),
    }
}

} // verus!
