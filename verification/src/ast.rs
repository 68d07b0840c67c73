use vstd::prelude::*;

verus! {

use crate::catalog::TableSchema;
use crate::value::{Value, ValueV};

/// A comparison operator of an expression.
#[derive(Clone, Copy, PartialEq, Eq, Structural, Debug)]
pub enum CmpOp {
    Eq,
    Ne,
    Lt,
    Le,
    Gt,
    Ge,
}

/// A pure expression over one row: a column reference, a literal, a
/// comparison, or a boolean combinator. A filter is such an expression
/// that evaluates to a boolean.
#[derive(Debug)]
pub enum Expr {
    Column(String),
    Literal(Value),
    Cmp(CmpOp, Box<Expr>, Box<Expr>),
    And(Box<Expr>, Box<Expr>),
    Or(Box<Expr>, Box<Expr>),
    Not(Box<Expr>),
}

/// One value of an inserted row: a literal, or a fresh UUID drawn from the
/// engine's generator when the row is built.
#[derive(Debug)]
pub enum ValueExpr {
    Literal(Value),
    GenerateUuid,
}

/// One SET clause of an update: the column and the expression whose value,
/// evaluated against the row as it stood before the update, replaces it.
#[derive(Debug)]
pub struct Assignment {
    pub column: String,
    pub value: Expr,
}

/// The intermediate representation of one statement, produced by the
/// builder front end and consumed by the executor.
#[derive(Debug)]
pub enum Statement {
    /// Registers a table. An empty `columns` list in the schema is refused.
    CreateTable { schema: TableSchema, if_not_exists: bool },
    /// Appends rows. An empty `columns` list means the schema's own column
    /// order; otherwise each value row aligns with `columns`, and unnamed
    /// columns are filled with nulls.
    Insert { table: String, columns: Vec<String>, rows: Vec<Vec<ValueExpr>> },
    /// Reads rows. `projection: None` means every column in schema order.
    Select { table: String, filter: Option<Expr>, projection: Option<Vec<String>> },
    /// Rewrites the rows the filter accepts; no filter means every row.
    Update { table: String, assignments: Vec<Assignment>, filter: Option<Expr> },
    /// Removes the rows the filter accepts; no filter means every row.
    Delete { table: String, filter: Option<Expr> },
}

/// The uniform success value of one executed statement.
#[derive(Clone, PartialEq, Debug)]
pub enum Payload {
    Create,
    Insert(usize),
    Select { labels: Vec<String>, rows: Vec<Vec<Value>> },
    Update(usize),
    Delete(usize),
}

/// The model of a payload.
pub enum PayloadV {
    Create,
    Insert(int),
    Select { labels: Seq<Seq<char>>, rows: Seq<Seq<ValueV>> },
    Update(int),
    Delete(int),
}

/// The model of a row: the models of its cells.
pub open spec fn row_v(r: Seq<Value>) -> Seq<ValueV> {
    r.map_values(|v: Value| v@)
}

/// The model of a row set.
pub open spec fn rows_v(rs: Seq<Vec<Value>>) -> Seq<Seq<ValueV>> {
    rs.map_values(|r: Vec<Value>| row_v(r@))
}

/// The model of a list of names.
pub open spec fn strs_v(ss: Seq<String>) -> Seq<Seq<char>> {
    ss.map_values(|s: String| s@)
}

/// The model of a payload value.
pub open spec fn payload_v(p: Payload) -> PayloadV {
    match p {
        Payload::Create => PayloadV::Create,
        Payload::Insert(n) => PayloadV::Insert(n as int),
        Payload::Select { labels, rows } => PayloadV::Select {
            labels: strs_v(labels@),
            rows: rows_v(rows@),
        },
        Payload::Update(n) => PayloadV::Update(n as int),
        Payload::Delete(n) => PayloadV::Delete(n as int),
    }
}

/// The model of an execution outcome.
pub open spec fn res_pay_v(
    r: Result<Payload, crate::error::EngineError>,
) -> Result<PayloadV, crate::error::EngineError> {
    match r {
        Ok(p) => Ok(payload_v(p)),
        Err(e) => Err(e),
    }
}

} // verus!
