//! The statements of a query.

use crate::expression::ExpressionNode;
use crate::name_map::NameMap;
use crate::types::DataType;
use vstd::prelude::*;

verus! {

/// What a statement is.
#[derive(PartialEq, Eq, Clone, Copy, Debug, Structural)]
pub enum StatementKind {
    Select,
    Where,
    Having,
    Limit,
    Offset,
    OrderBy,
    GroupBy,
    AggregateFunction,
}

/// What every statement can say of itself.
pub trait Statement {
    /// What this statement is.
    spec fn kind(&self) -> StatementKind;

    fn get_statement_kind(&self) -> (kind: StatementKind)
        ensures
            kind == self.kind(),
    ;
}

/// A statement of any kind.
#[derive(Debug)]
pub enum StatementNode {
    Select(SelectStatement),
    Where(WhereStatement),
    Having(HavingStatement),
    Limit(LimitStatement),
    Offset(OffsetStatement),
    OrderBy(OrderByStatement),
    GroupBy(GroupByStatement),
    AggregateFunction(AggregationFunctionsStatement),
}

/// A query: its statements, each under the name of its kind; whether it
/// selects aggregated values only; and the columns that it reads without
/// showing them.
#[derive(Debug)]
pub struct GQLQuery {
    pub statements: NameMap<StatementNode>,
    /// Every selected column that is no literal is the value of an
    /// aggregate function. This is what a selection is held to where a
    /// query aggregates without grouping; carrying the query out does not
    /// depend on it.
    pub select_aggregations_only: bool,
    pub hidden_selections: Vec<String>,
}

/// The table to read, the columns to read from it, and the name under
/// which each renamed column is handed out.
#[derive(Debug)]
pub struct SelectStatement {
    pub table_name: String,
    pub fields: Vec<String>,
    pub alias_table: NameMap<String>,
}

impl Statement for SelectStatement {
    open spec fn kind(&self) -> StatementKind {
        StatementKind::Select
    }

    fn get_statement_kind(&self) -> (kind: StatementKind) {
        StatementKind::Select
    }
}

/// The condition that a row must meet to be kept.
#[derive(Debug)]
pub struct WhereStatement {
    pub condition: Box<ExpressionNode>,
}

impl Statement for WhereStatement {
    open spec fn kind(&self) -> StatementKind {
        StatementKind::Where
    }

    fn get_statement_kind(&self) -> (kind: StatementKind) {
        StatementKind::Where
    }
}

/// The condition that a row must meet after grouping to be kept.
#[derive(Debug)]
pub struct HavingStatement {
    pub condition: Box<ExpressionNode>,
}

impl Statement for HavingStatement {
    open spec fn kind(&self) -> StatementKind {
        StatementKind::Having
    }

    fn get_statement_kind(&self) -> (kind: StatementKind) {
        StatementKind::Having
    }
}

/// The number of rows to keep at most.
#[derive(Debug)]
pub struct LimitStatement {
    pub count: usize,
}

impl Statement for LimitStatement {
    open spec fn kind(&self) -> StatementKind {
        StatementKind::Limit
    }

    fn get_statement_kind(&self) -> (kind: StatementKind) {
        StatementKind::Limit
    }
}

/// The number of rows to leave out at the start.
#[derive(Debug)]
pub struct OffsetStatement {
    pub count: usize,
}

impl Statement for OffsetStatement {
    open spec fn kind(&self) -> StatementKind {
        StatementKind::Offset
    }

    fn get_statement_kind(&self) -> (kind: StatementKind) {
        StatementKind::Offset
    }
}

/// The column to order the rows by, and the direction.
#[derive(Debug)]
pub struct OrderByStatement {
    pub field_name: String,
    pub is_ascending: bool,
    pub field_type: DataType,
}

impl Statement for OrderByStatement {
    open spec fn kind(&self) -> StatementKind {
        StatementKind::OrderBy
    }

    fn get_statement_kind(&self) -> (kind: StatementKind) {
        StatementKind::OrderBy
    }
}

/// The column whose values make the groups.
#[derive(Debug)]
pub struct GroupByStatement {
    pub field_name: String,
}

impl Statement for GroupByStatement {
    open spec fn kind(&self) -> StatementKind {
        StatementKind::GroupBy
    }

    fn get_statement_kind(&self) -> (kind: StatementKind) {
        StatementKind::GroupBy
    }
}

/// A call of an aggregate function on a column.
#[derive(Debug)]
pub struct AggregateFunction {
    pub function_name: String,
    pub argument: String,
}

/// The aggregate functions to compute, each under the name of the column that
/// takes its value.
#[derive(Debug)]
pub struct AggregationFunctionsStatement {
    pub aggregations: NameMap<AggregateFunction>,
}

impl Statement for AggregationFunctionsStatement {
    open spec fn kind(&self) -> StatementKind {
        StatementKind::AggregateFunction
    }

    fn get_statement_kind(&self) -> (kind: StatementKind) {
        StatementKind::AggregateFunction
    }
}

/// The kind of a statement of any kind.
pub open spec fn node_kind(node: &StatementNode) -> StatementKind {
    match node {
        StatementNode::Select(_) => StatementKind::Select,
        StatementNode::Where(_) => StatementKind::Where,
        StatementNode::Having(_) => StatementKind::Having,
        StatementNode::Limit(_) => StatementKind::Limit,
        StatementNode::Offset(_) => StatementKind::Offset,
        StatementNode::OrderBy(_) => StatementKind::OrderBy,
        StatementNode::GroupBy(_) => StatementKind::GroupBy,
        StatementNode::AggregateFunction(_) => StatementKind::AggregateFunction,
    }
}

impl Statement for StatementNode {
    open spec fn kind(&self) -> StatementKind {
        node_kind(self)
    }

    fn get_statement_kind(&self) -> (kind: StatementKind) {
        match self {
            StatementNode::Select(s) => s.get_statement_kind(),
            StatementNode::Where(s) => s.get_statement_kind(),
            StatementNode::Having(s) => s.get_statement_kind(),
            StatementNode::Limit(s) => s.get_statement_kind(),
            StatementNode::Offset(s) => s.get_statement_kind(),
            StatementNode::OrderBy(s) => s.get_statement_kind(),
            StatementNode::GroupBy(s) => s.get_statement_kind(),
            StatementNode::AggregateFunction(s) => s.get_statement_kind(),
        }
    }
}

} // verus!
