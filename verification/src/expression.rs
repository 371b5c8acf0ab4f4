//! The expressions of a query, as a tree.

use crate::name_map::NameMap;
use crate::signature::Signature;
use crate::types::DataType;
use crate::types::DataTypeView;
use vstd::prelude::*;

verus! {

/// What an expression is.
#[derive(PartialEq, Eq, Clone, Copy, Debug, Structural)]
pub enum ExpressionKind {
    String,
    Symbol,
    Number,
    Boolean,
    PrefixUnary,
    Arithmetic,
    Comparison,
    Check,
    Logical,
    Bitwise,
    Call,
    Between,
    Case,
}

/// What the types of expressions are read from: the type of each column of
/// the table in use, and the signature of each function.
#[derive(Debug)]
pub struct Environment {
    pub fields: NameMap<DataType>,
    pub functions: NameMap<Signature>,
}

/// The type of the column `name`; `Null` where the table has no such column.
pub open spec fn symbol_type(name: Seq<char>, env: &Environment) -> DataTypeView {
    match env.fields.item(name) {
        Some(t) => t@,
        None => DataTypeView::Null,
    }
}

/// The type of what the function `name` gives; `Undefined` where there is
/// no such function.
pub open spec fn call_type(name: Seq<char>, env: &Environment) -> DataTypeView {
    match env.functions.item(name) {
        Some(signature) => signature.return_type@,
        None => DataTypeView::Undefined,
    }
}

/// The type of what a prefix operator gives: `!` a boolean, `-` a number.
pub open spec fn prefix_type(op: PrefixUnaryOperator) -> DataTypeView {
    match op {
        PrefixUnaryOperator::Bang => DataTypeView::Boolean,
        PrefixUnaryOperator::Minus => DataTypeView::Number,
    }
}

/// What every expression can say of itself.
pub trait Expression {
    /// What this expression is.
    spec fn kind(&self) -> ExpressionKind;

    /// The type of this expression in `env`.
    spec fn type_in(&self, env: &Environment) -> DataTypeView;

    fn get_expression_kind(&self) -> (kind: ExpressionKind)
        ensures
            kind == self.kind(),
    ;

    fn expr_type(&self, env: &Environment) -> (t: DataType)
        ensures
            t@ == self.type_in(env),
    ;
}

/// An expression of any kind.
#[derive(Debug)]
pub enum ExpressionNode {
    String(StringExpression),
    Symbol(SymbolExpression),
    Number(NumberExpression),
    Boolean(BooleanExpression),
    PrefixUnary(PrefixUnary),
    Arithmetic(ArithmeticExpression),
    Comparison(ComparisonExpression),
    Check(CheckExpression),
    Logical(LogicalExpression),
    Bitwise(BitwiseExpression),
    Call(CallExpression),
    Between(BetweenExpression),
    Case(CaseExpression),
}

/// A text between quotes.
#[derive(Debug)]
pub struct StringExpression {
    pub value: String,
}

impl Expression for StringExpression {
    open spec fn kind(&self) -> ExpressionKind {
        ExpressionKind::String
    }

    open spec fn type_in(&self, env: &Environment) -> DataTypeView {
        DataTypeView::Text
    }

    fn get_expression_kind(&self) -> (kind: ExpressionKind) {
        ExpressionKind::String
    }

    fn expr_type(&self, env: &Environment) -> (t: DataType) {
        DataType::Text
    }
}

/// The name of a column.
#[derive(Debug)]
pub struct SymbolExpression {
    pub value: String,
}

impl Expression for SymbolExpression {
    open spec fn kind(&self) -> ExpressionKind {
        ExpressionKind::Symbol
    }

    open spec fn type_in(&self, env: &Environment) -> DataTypeView {
        symbol_type(self.value@, env)
    }

    fn get_expression_kind(&self) -> (kind: ExpressionKind) {
        ExpressionKind::Symbol
    }

    fn expr_type(&self, env: &Environment) -> (t: DataType) {
        match env.fields.get(self.value.as_str()) {
            Some(t) => t.clone(),
            None => DataType::Null,
        }
    }
}

/// A whole number.
#[derive(Debug)]
pub struct NumberExpression {
    pub value: i64,
}

impl Expression for NumberExpression {
    open spec fn kind(&self) -> ExpressionKind {
        ExpressionKind::Number
    }

    open spec fn type_in(&self, env: &Environment) -> DataTypeView {
        DataTypeView::Number
    }

    fn get_expression_kind(&self) -> (kind: ExpressionKind) {
        ExpressionKind::Number
    }

    fn expr_type(&self, env: &Environment) -> (t: DataType) {
        DataType::Number
    }
}

/// `TRUE` or `FALSE`.
#[derive(Debug)]
pub struct BooleanExpression {
    pub is_true: bool,
}

impl Expression for BooleanExpression {
    open spec fn kind(&self) -> ExpressionKind {
        ExpressionKind::Boolean
    }

    open spec fn type_in(&self, env: &Environment) -> DataTypeView {
        DataTypeView::Boolean
    }

    fn get_expression_kind(&self) -> (kind: ExpressionKind) {
        ExpressionKind::Boolean
    }

    fn expr_type(&self, env: &Environment) -> (t: DataType) {
        DataType::Boolean
    }
}

/// The operators that stand in front of their operand.
#[derive(PartialEq, Eq, Clone, Copy, Debug, Structural)]
pub enum PrefixUnaryOperator {
    Minus,
    Bang,
}

/// An operator in front of its operand.
#[derive(Debug)]
pub struct PrefixUnary {
    pub right: Box<ExpressionNode>,
    pub op: PrefixUnaryOperator,
}

impl Expression for PrefixUnary {
    open spec fn kind(&self) -> ExpressionKind {
        ExpressionKind::PrefixUnary
    }

    open spec fn type_in(&self, env: &Environment) -> DataTypeView {
        prefix_type(self.op)
    }

    fn get_expression_kind(&self) -> (kind: ExpressionKind) {
        ExpressionKind::PrefixUnary
    }

    fn expr_type(&self, env: &Environment) -> (t: DataType) {
        match self.op {
            PrefixUnaryOperator::Bang => DataType::Boolean,
            PrefixUnaryOperator::Minus => DataType::Number,
        }
    }
}

/// The operators of arithmetic.
#[derive(PartialEq, Eq, Clone, Copy, Debug, Structural)]
pub enum ArithmeticOperator {
    Plus,
    Minus,
    Star,
    Slash,
    Modulus,
}

/// Two operands and an arithmetic operator between them.
#[derive(Debug)]
pub struct ArithmeticExpression {
    pub left: Box<ExpressionNode>,
    pub operator: ArithmeticOperator,
    pub right: Box<ExpressionNode>,
}

impl Expression for ArithmeticExpression {
    open spec fn kind(&self) -> ExpressionKind {
        ExpressionKind::Arithmetic
    }

    open spec fn type_in(&self, env: &Environment) -> DataTypeView {
        DataTypeView::Number
    }

    fn get_expression_kind(&self) -> (kind: ExpressionKind) {
        ExpressionKind::Arithmetic
    }

    fn expr_type(&self, env: &Environment) -> (t: DataType) {
        DataType::Number
    }
}

/// The comparisons. `NullSafeEqual` is the equality that holds of `NULL`
/// and `NULL`.
#[derive(PartialEq, Eq, Clone, Copy, Debug, Structural)]
pub enum ComparisonOperator {
    Greater,
    GreaterEqual,
    Less,
    LessEqual,
    Equal,
    NotEqual,
    NullSafeEqual,
}

/// Two operands and a comparison between them.
#[derive(Debug)]
pub struct ComparisonExpression {
    pub left: Box<ExpressionNode>,
    pub operator: ComparisonOperator,
    pub right: Box<ExpressionNode>,
}

impl Expression for ComparisonExpression {
    open spec fn kind(&self) -> ExpressionKind {
        ExpressionKind::Comparison
    }

    open spec fn type_in(&self, env: &Environment) -> DataTypeView {
        DataTypeView::Boolean
    }

    fn get_expression_kind(&self) -> (kind: ExpressionKind) {
        ExpressionKind::Comparison
    }

    fn expr_type(&self, env: &Environment) -> (t: DataType) {
        DataType::Boolean
    }
}

/// The tests of a text against another text.
#[derive(PartialEq, Eq, Clone, Copy, Debug, Structural)]
pub enum CheckOperator {
    Contains,
    StartsWith,
    EndsWith,
    Matches,
}

/// A test of a text against another text.
#[derive(Debug)]
pub struct CheckExpression {
    pub left: Box<ExpressionNode>,
    pub operator: CheckOperator,
    pub right: Box<ExpressionNode>,
}

impl Expression for CheckExpression {
    open spec fn kind(&self) -> ExpressionKind {
        ExpressionKind::Check
    }

    open spec fn type_in(&self, env: &Environment) -> DataTypeView {
        DataTypeView::Boolean
    }

    fn get_expression_kind(&self) -> (kind: ExpressionKind) {
        ExpressionKind::Check
    }

    fn expr_type(&self, env: &Environment) -> (t: DataType) {
        DataType::Boolean
    }
}

/// The connectives of conditions.
#[derive(PartialEq, Eq, Clone, Copy, Debug, Structural)]
pub enum LogicalOperator {
    Or,
    And,
    Xor,
}

/// Two conditions and a connective between them.
#[derive(Debug)]
pub struct LogicalExpression {
    pub left: Box<ExpressionNode>,
    pub operator: LogicalOperator,
    pub right: Box<ExpressionNode>,
}

impl Expression for LogicalExpression {
    open spec fn kind(&self) -> ExpressionKind {
        ExpressionKind::Logical
    }

    open spec fn type_in(&self, env: &Environment) -> DataTypeView {
        DataTypeView::Boolean
    }

    fn get_expression_kind(&self) -> (kind: ExpressionKind) {
        ExpressionKind::Logical
    }

    fn expr_type(&self, env: &Environment) -> (t: DataType) {
        DataType::Boolean
    }
}

/// The operators on the bits of integers.
#[derive(PartialEq, Eq, Clone, Copy, Debug, Structural)]
pub enum BitwiseOperator {
    Or,
    And,
    RightShift,
    LeftShift,
}

/// Two operands and a bitwise operator between them.
#[derive(Debug)]
pub struct BitwiseExpression {
    pub left: Box<ExpressionNode>,
    pub operator: BitwiseOperator,
    pub right: Box<ExpressionNode>,
}

impl Expression for BitwiseExpression {
    open spec fn kind(&self) -> ExpressionKind {
        ExpressionKind::Bitwise
    }

    open spec fn type_in(&self, env: &Environment) -> DataTypeView {
        DataTypeView::Number
    }

    fn get_expression_kind(&self) -> (kind: ExpressionKind) {
        ExpressionKind::Bitwise
    }

    fn expr_type(&self, env: &Environment) -> (t: DataType) {
        DataType::Number
    }
}

/// A call of a function by its name.
#[derive(Debug)]
pub struct CallExpression {
    pub function_name: String,
    pub arguments: Vec<ExpressionNode>,
}

impl Expression for CallExpression {
    open spec fn kind(&self) -> ExpressionKind {
        ExpressionKind::Call
    }

    open spec fn type_in(&self, env: &Environment) -> DataTypeView {
        call_type(self.function_name@, env)
    }

    fn get_expression_kind(&self) -> (kind: ExpressionKind) {
        ExpressionKind::Call
    }

    fn expr_type(&self, env: &Environment) -> (t: DataType) {
        match env.functions.get(self.function_name.as_str()) {
            Some(signature) => signature.return_type.clone(),
            None => DataType::Undefined,
        }
    }
}

/// A test that a value lies between two others, both included.
#[derive(Debug)]
pub struct BetweenExpression {
    pub value: Box<ExpressionNode>,
    pub range_start: Box<ExpressionNode>,
    pub range_end: Box<ExpressionNode>,
}

impl Expression for BetweenExpression {
    open spec fn kind(&self) -> ExpressionKind {
        ExpressionKind::Between
    }

    open spec fn type_in(&self, env: &Environment) -> DataTypeView {
        DataTypeView::Boolean
    }

    fn get_expression_kind(&self) -> (kind: ExpressionKind) {
        ExpressionKind::Between
    }

    fn expr_type(&self, env: &Environment) -> (t: DataType) {
        DataType::Boolean
    }
}

/// Conditions with a value each, and a value for when none holds.
#[derive(Debug)]
pub struct CaseExpression {
    pub conditions: Vec<ExpressionNode>,
    pub values: Vec<ExpressionNode>,
    pub default_value: Option<Box<ExpressionNode>>,
    pub values_type: DataType,
}

impl Expression for CaseExpression {
    open spec fn kind(&self) -> ExpressionKind {
        ExpressionKind::Case
    }

    open spec fn type_in(&self, env: &Environment) -> DataTypeView {
        self.values_type@
    }

    fn get_expression_kind(&self) -> (kind: ExpressionKind) {
        ExpressionKind::Case
    }

    fn expr_type(&self, env: &Environment) -> (t: DataType) {
        self.values_type.clone()
    }
}

/// The kind of an expression of any kind.
pub open spec fn node_kind(node: &ExpressionNode) -> ExpressionKind {
    match node {
        ExpressionNode::String(_) => ExpressionKind::String,
        ExpressionNode::Symbol(_) => ExpressionKind::Symbol,
        ExpressionNode::Number(_) => ExpressionKind::Number,
        ExpressionNode::Boolean(_) => ExpressionKind::Boolean,
        ExpressionNode::PrefixUnary(_) => ExpressionKind::PrefixUnary,
        ExpressionNode::Arithmetic(_) => ExpressionKind::Arithmetic,
        ExpressionNode::Comparison(_) => ExpressionKind::Comparison,
        ExpressionNode::Check(_) => ExpressionKind::Check,
        ExpressionNode::Logical(_) => ExpressionKind::Logical,
        ExpressionNode::Bitwise(_) => ExpressionKind::Bitwise,
        ExpressionNode::Call(_) => ExpressionKind::Call,
        ExpressionNode::Between(_) => ExpressionKind::Between,
        ExpressionNode::Case(_) => ExpressionKind::Case,
    }
}

/// The type of an expression of any kind in `env`.
pub open spec fn node_type(node: &ExpressionNode, env: &Environment) -> DataTypeView {
    match node {
        ExpressionNode::String(_) => DataTypeView::Text,
        ExpressionNode::Symbol(e) => symbol_type(e.value@, env),
        ExpressionNode::Number(_) => DataTypeView::Number,
        ExpressionNode::Boolean(_) => DataTypeView::Boolean,
        ExpressionNode::PrefixUnary(e) => prefix_type(e.op),
        ExpressionNode::Arithmetic(_) => DataTypeView::Number,
        ExpressionNode::Comparison(_) => DataTypeView::Boolean,
        ExpressionNode::Check(_) => DataTypeView::Boolean,
        ExpressionNode::Logical(_) => DataTypeView::Boolean,
        ExpressionNode::Bitwise(_) => DataTypeView::Number,
        ExpressionNode::Call(e) => call_type(e.function_name@, env),
        ExpressionNode::Between(_) => DataTypeView::Boolean,
        ExpressionNode::Case(e) => e.values_type@,
    }
}

impl Expression for ExpressionNode {
    open spec fn kind(&self) -> ExpressionKind {
        node_kind(self)
    }

    open spec fn type_in(&self, env: &Environment) -> DataTypeView {
        node_type(self, env)
    }

    fn get_expression_kind(&self) -> (kind: ExpressionKind) {
        match self {
            ExpressionNode::String(e) => e.get_expression_kind(),
            ExpressionNode::Symbol(e) => e.get_expression_kind(),
            ExpressionNode::Number(e) => e.get_expression_kind(),
            ExpressionNode::Boolean(e) => e.get_expression_kind(),
            ExpressionNode::PrefixUnary(e) => e.get_expression_kind(),
            ExpressionNode::Arithmetic(e) => e.get_expression_kind(),
            ExpressionNode::Comparison(e) => e.get_expression_kind(),
            ExpressionNode::Check(e) => e.get_expression_kind(),
            ExpressionNode::Logical(e) => e.get_expression_kind(),
            ExpressionNode::Bitwise(e) => e.get_expression_kind(),
            ExpressionNode::Call(e) => e.get_expression_kind(),
            ExpressionNode::Between(e) => e.get_expression_kind(),
            ExpressionNode::Case(e) => e.get_expression_kind(),
        }
    }

    fn expr_type(&self, env: &Environment) -> (t: DataType) {
        match self {
            ExpressionNode::String(e) => e.expr_type(env),
            ExpressionNode::Symbol(e) => e.expr_type(env),
            ExpressionNode::Number(e) => e.expr_type(env),
            ExpressionNode::Boolean(e) => e.expr_type(env),
            ExpressionNode::PrefixUnary(e) => e.expr_type(env),
            ExpressionNode::Arithmetic(e) => e.expr_type(env),
            ExpressionNode::Comparison(e) => e.expr_type(env),
            ExpressionNode::Check(e) => e.expr_type(env),
            ExpressionNode::Logical(e) => e.expr_type(env),
            ExpressionNode::Bitwise(e) => e.expr_type(env),
            ExpressionNode::Call(e) => e.expr_type(env),
            ExpressionNode::Between(e) => e.expr_type(env),
            ExpressionNode::Case(e) => e.expr_type(env),
        }
    }
}

} // verus!
