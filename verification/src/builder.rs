use vstd::prelude::*;

verus! {

use crate::ast::{Assignment, CmpOp, Expr, Payload, Statement, ValueExpr, res_pay_v};
use crate::catalog::{ColumnDef, TableSchema};
use crate::engine::{Glue, step};
use crate::error::EngineError;
use crate::value::{DataType, Value};

/// A column reference, for filters and assignments.
pub fn col(name: &str) -> (r: Expr)
    ensures
        r == Expr::Column(r->Column_0),
        r->Column_0@ == name@,
{
    Expr::Column(name.to_owned())
}

/// A text literal expression.
pub fn text(s: &str) -> (r: Expr)
    ensures
        r matches Expr::Literal(v) && v@ == crate::value::ValueV::Str(s@),
{
    Expr::Literal(Value::Str(s.to_owned()))
}

/// An integer literal expression.
pub fn num(n: i64) -> (r: Expr)
    ensures
        r == Expr::Literal(Value::I64(n)),
{
    Expr::Literal(Value::I64(n))
}

/// A text literal as an inserted value.
pub fn text_value(s: &str) -> (r: ValueExpr)
    ensures
        r matches ValueExpr::Literal(v) && v@ == crate::value::ValueV::Str(s@),
{
    ValueExpr::Literal(Value::Str(s.to_owned()))
}

/// A timestamp literal as an inserted value: the text is parsed when the
/// statement coerces it into a TIMESTAMP column.
pub fn timestamp(s: &str) -> (r: ValueExpr)
    ensures
        r matches ValueExpr::Literal(v) && v@ == crate::value::ValueV::Str(s@),
{
    ValueExpr::Literal(Value::Str(s.to_owned()))
}

/// A fresh UUID, drawn from the engine's generator when the row is built.
pub fn generate_uuid() -> (r: ValueExpr)
    ensures
        r == ValueExpr::GenerateUuid,
{
    ValueExpr::GenerateUuid
}

impl Expr {
    /// The comparison `self = other`.
    pub fn eq_expr(self, other: Expr) -> (r: Expr)
        ensures
            r == Expr::Cmp(CmpOp::Eq, Box::new(self), Box::new(other)),
    {
        Expr::Cmp(CmpOp::Eq, Box::new(self), Box::new(other))
    }

    /// The comparison `self < other`.
    pub fn lt_expr(self, other: Expr) -> (r: Expr)
        ensures
            r == Expr::Cmp(CmpOp::Lt, Box::new(self), Box::new(other)),
    {
        Expr::Cmp(CmpOp::Lt, Box::new(self), Box::new(other))
    }

    /// The conjunction `self AND other`.
    pub fn and_expr(self, other: Expr) -> (r: Expr)
        ensures
            r == Expr::And(Box::new(self), Box::new(other)),
    {
        Expr::And(Box::new(self), Box::new(other))
    }
}

/// The root of the fluent front end: names the table one statement will
/// touch, and turns into that statement's builder.
pub struct TableBuilder {
    name: String,
}

/// Builds a CREATE TABLE statement, column by column.
pub struct CreateTableBuilder {
    name: String,
    columns: Vec<ColumnDef>,
    if_not_exists: bool,
}

/// Builds an INSERT statement: a column list and value rows.
pub struct InsertBuilder {
    name: String,
    columns: Vec<String>,
    rows: Vec<Vec<ValueExpr>>,
}

/// Builds a SELECT statement: an optional filter and projection.
pub struct SelectBuilder {
    name: String,
    filter: Option<Expr>,
    projection: Option<Vec<String>>,
}

/// Builds an UPDATE statement: SET clauses and an optional filter.
pub struct UpdateBuilder {
    name: String,
    assignments: Vec<Assignment>,
    filter: Option<Expr>,
}

/// Builds a DELETE statement: an optional filter.
pub struct DeleteBuilder {
    name: String,
    filter: Option<Expr>,
}

/// Starts a statement against the table of this name.
pub fn table(name: &str) -> (r: TableBuilder)
    ensures
        r.spec_name() == name@,
{
    TableBuilder { name: name.to_owned() }
}

impl TableBuilder {
    pub closed spec fn spec_name(&self) -> Seq<char> {
        self.name@
    }

    /// Begins CREATE TABLE.
    pub fn create_table(self) -> (r: CreateTableBuilder)
        ensures
            r.spec_parts() == (self.spec_name(), Seq::<ColumnDef>::empty(), false),
    {
        CreateTableBuilder { name: self.name, columns: Vec::new(), if_not_exists: false }
    }

    /// Begins CREATE TABLE IF NOT EXISTS.
    pub fn create_table_if_not_exists(self) -> (r: CreateTableBuilder)
        ensures
            r.spec_parts() == (self.spec_name(), Seq::<ColumnDef>::empty(), true),
    {
        CreateTableBuilder { name: self.name, columns: Vec::new(), if_not_exists: true }
    }

    /// Begins INSERT.
    pub fn insert(self) -> (r: InsertBuilder)
        ensures
            r.spec_parts() == (
                self.spec_name(),
                Seq::<String>::empty(),
                Seq::<Vec<ValueExpr>>::empty(),
            ),
    {
        InsertBuilder { name: self.name, columns: Vec::new(), rows: Vec::new() }
    }

    /// Begins SELECT.
    pub fn select(self) -> (r: SelectBuilder)
        ensures
            r.spec_parts() == (self.spec_name(), None::<Expr>, None::<Vec<String>>),
    {
        SelectBuilder { name: self.name, filter: None, projection: None }
    }

    /// Begins UPDATE.
    pub fn update(self) -> (r: UpdateBuilder)
        ensures
            r.spec_parts() == (self.spec_name(), Seq::<Assignment>::empty(), None::<Expr>),
    {
        UpdateBuilder { name: self.name, assignments: Vec::new(), filter: None }
    }

    /// Begins DELETE.
    pub fn delete(self) -> (r: DeleteBuilder)
        ensures
            r.spec_parts() == (self.spec_name(), None::<Expr>),
    {
        DeleteBuilder { name: self.name, filter: None }
    }
}

impl CreateTableBuilder {
    pub closed spec fn spec_parts(&self) -> (Seq<char>, Seq<ColumnDef>, bool) {
        (self.name@, self.columns@, self.if_not_exists)
    }

    /// The statement this builder stands for.
    pub closed spec fn spec_stmt(&self) -> Statement {
        Statement::CreateTable {
            schema: TableSchema { name: self.name, columns: self.columns },
            if_not_exists: self.if_not_exists,
        }
    }

    /// Adds one column declaration.
    pub fn add_column(self, c: ColumnDef) -> (r: CreateTableBuilder)
        ensures
            r.spec_parts() == (self.spec_parts().0, self.spec_parts().1.push(c), self.spec_parts().2),
    {
        let mut columns = self.columns;
        columns.push(c);
        CreateTableBuilder { name: self.name, columns, if_not_exists: self.if_not_exists }
    }

    /// The statement this builder has built.
    pub fn build(self) -> (r: Statement)
        ensures
            r == self.spec_stmt(),
            r matches Statement::CreateTable { schema, if_not_exists } && schema.name@
                == self.spec_parts().0 && schema.columns@ == self.spec_parts().1 && if_not_exists
                == self.spec_parts().2,
    {
        Statement::CreateTable {
            schema: TableSchema { name: self.name, columns: self.columns },
            if_not_exists: self.if_not_exists,
        }
    }

    /// Builds the statement and executes it.
    pub fn execute(self, glue: &mut Glue) -> (r: Result<Payload, EngineError>)
        requires
            old(glue).wf(),
        ensures
            final(glue).wf(),
            final(glue)@ == step(old(glue)@, self.spec_stmt()).glue,
            res_pay_v(r) == step(old(glue)@, self.spec_stmt()).result,
    {
        let stmt = self.build();
        glue.execute(&stmt)
    }
}

impl InsertBuilder {
    pub closed spec fn spec_parts(&self) -> (Seq<char>, Seq<String>, Seq<Vec<ValueExpr>>) {
        (self.name@, self.columns@, self.rows@)
    }

    /// The statement this builder stands for.
    pub closed spec fn spec_stmt(&self) -> Statement {
        Statement::Insert { table: self.name, columns: self.columns, rows: self.rows }
    }

    /// Names the columns the value rows align with.
    pub fn columns(self, cols: Vec<String>) -> (r: InsertBuilder)
        ensures
            r.spec_parts() == (self.spec_parts().0, cols@, self.spec_parts().2),
    {
        InsertBuilder { name: self.name, columns: cols, rows: self.rows }
    }

    /// Adds value rows.
    pub fn values(self, rows: Vec<Vec<ValueExpr>>) -> (r: InsertBuilder)
        ensures
            r.spec_parts() == (self.spec_parts().0, self.spec_parts().1, self.spec_parts().2 + rows@),
    {
        let mut all = self.rows;
        let mut rest = rows;
        all.append(&mut rest);
        InsertBuilder { name: self.name, columns: self.columns, rows: all }
    }

    /// The statement this builder has built.
    pub fn build(self) -> (r: Statement)
        ensures
            r == self.spec_stmt(),
            r matches Statement::Insert { table, columns, rows } && table@ == self.spec_parts().0
                && columns@ == self.spec_parts().1 && rows@ == self.spec_parts().2,
    {
        Statement::Insert { table: self.name, columns: self.columns, rows: self.rows }
    }

    /// Builds the statement and executes it.
    pub fn execute(self, glue: &mut Glue) -> (r: Result<Payload, EngineError>)
        requires
            old(glue).wf(),
        ensures
            final(glue).wf(),
            final(glue)@ == step(old(glue)@, self.spec_stmt()).glue,
            res_pay_v(r) == step(old(glue)@, self.spec_stmt()).result,
    {
        let stmt = self.build();
        glue.execute(&stmt)
    }
}

impl SelectBuilder {
    pub closed spec fn spec_parts(&self) -> (Seq<char>, Option<Expr>, Option<Vec<String>>) {
        (self.name@, self.filter, self.projection)
    }

    /// The statement this builder stands for.
    pub closed spec fn spec_stmt(&self) -> Statement {
        Statement::Select { table: self.name, filter: self.filter, projection: self.projection }
    }

    /// Keeps only the rows this filter accepts.
    pub fn filter(self, f: Expr) -> (r: SelectBuilder)
        ensures
            r.spec_parts() == (self.spec_parts().0, Some(f), self.spec_parts().2),
    {
        SelectBuilder { name: self.name, filter: Some(f), projection: self.projection }
    }

    /// Returns only these columns, in this order.
    pub fn project(self, cols: Vec<String>) -> (r: SelectBuilder)
        ensures
            r.spec_parts() == (self.spec_parts().0, self.spec_parts().1, Some(cols)),
    {
        SelectBuilder { name: self.name, filter: self.filter, projection: Some(cols) }
    }

    /// The statement this builder has built.
    pub fn build(self) -> (r: Statement)
        ensures
            r == self.spec_stmt(),
            r matches Statement::Select { table, filter, projection } && table@
                == self.spec_parts().0 && filter == self.spec_parts().1 && projection
                == self.spec_parts().2,
    {
        Statement::Select { table: self.name, filter: self.filter, projection: self.projection }
    }

    /// Builds the statement and executes it.
    pub fn execute(self, glue: &mut Glue) -> (r: Result<Payload, EngineError>)
        requires
            old(glue).wf(),
        ensures
            final(glue).wf(),
            final(glue)@ == step(old(glue)@, self.spec_stmt()).glue,
            res_pay_v(r) == step(old(glue)@, self.spec_stmt()).result,
    {
        let stmt = self.build();
        glue.execute(&stmt)
    }
}

impl UpdateBuilder {
    pub closed spec fn spec_parts(&self) -> (Seq<char>, Seq<Assignment>, Option<Expr>) {
        (self.name@, self.assignments@, self.filter)
    }

    /// The statement this builder stands for.
    pub closed spec fn spec_stmt(&self) -> Statement {
        Statement::Update { table: self.name, assignments: self.assignments, filter: self.filter }
    }

    /// Adds one SET clause.
    pub fn set(self, column: &str, value: Expr) -> (r: UpdateBuilder)
        ensures
            r.spec_parts().0 == self.spec_parts().0,
            r.spec_parts().2 == self.spec_parts().2,
            r.spec_parts().1.len() == self.spec_parts().1.len() + 1,
            r.spec_parts().1.last().column@ == column@,
            r.spec_parts().1.last().value == value,
            r.spec_parts().1.drop_last() == self.spec_parts().1,
    {
        let mut assignments = self.assignments;
        assignments.push(Assignment { column: column.to_owned(), value });
        UpdateBuilder { name: self.name, assignments, filter: self.filter }
    }

    /// Rewrites only the rows this filter accepts.
    pub fn filter(self, f: Expr) -> (r: UpdateBuilder)
        ensures
            r.spec_parts() == (self.spec_parts().0, self.spec_parts().1, Some(f)),
    {
        UpdateBuilder { name: self.name, assignments: self.assignments, filter: Some(f) }
    }

    /// The statement this builder has built.
    pub fn build(self) -> (r: Statement)
        ensures
            r == self.spec_stmt(),
            r matches Statement::Update { table, assignments, filter } && table@
                == self.spec_parts().0 && assignments@ == self.spec_parts().1 && filter
                == self.spec_parts().2,
    {
        Statement::Update { table: self.name, assignments: self.assignments, filter: self.filter }
    }

    /// Builds the statement and executes it.
    pub fn execute(self, glue: &mut Glue) -> (r: Result<Payload, EngineError>)
        requires
            old(glue).wf(),
        ensures
            final(glue).wf(),
            final(glue)@ == step(old(glue)@, self.spec_stmt()).glue,
            res_pay_v(r) == step(old(glue)@, self.spec_stmt()).result,
    {
        let stmt = self.build();
        glue.execute(&stmt)
    }
}

impl DeleteBuilder {
    pub closed spec fn spec_parts(&self) -> (Seq<char>, Option<Expr>) {
        (self.name@, self.filter)
    }

    /// The statement this builder stands for.
    pub closed spec fn spec_stmt(&self) -> Statement {
        Statement::Delete { table: self.name, filter: self.filter }
    }

    /// Removes only the rows this filter accepts.
    pub fn filter(self, f: Expr) -> (r: DeleteBuilder)
        ensures
            r.spec_parts() == (self.spec_parts().0, Some(f)),
    {
        DeleteBuilder { name: self.name, filter: Some(f) }
    }

    /// The statement this builder has built.
    pub fn build(self) -> (r: Statement)
        ensures
            r == self.spec_stmt(),
            r matches Statement::Delete { table, filter } && table@ == self.spec_parts().0 && filter
                == self.spec_parts().1,
    {
        Statement::Delete { table: self.name, filter: self.filter }
    }

    /// Builds the statement and executes it.
    pub fn execute(self, glue: &mut Glue) -> (r: Result<Payload, EngineError>)
        requires
            old(glue).wf(),
        ensures
            final(glue).wf(),
            final(glue)@ == step(old(glue)@, self.spec_stmt()).glue,
            res_pay_v(r) == step(old(glue)@, self.spec_stmt()).result,
    {
        let stmt = self.build();
        glue.execute(&stmt)
    }
}

/// One column declaration, for the CREATE TABLE builder.
pub fn col_def(name: &str, data_type: DataType) -> (r: ColumnDef)
    ensures
        r@.name == name@,
        r@.data_type == data_type,
        !r@.primary_key,
        !r@.unique,
        !r@.not_null,
{
    ColumnDef { name: name.to_owned(), data_type, primary_key: false, unique: false, not_null: false }
}

impl ColumnDef {
    /// Marks the column PRIMARY KEY.
    pub fn primary_key(self) -> (r: ColumnDef)
        ensures
            r@ == (crate::catalog::ColumnDefV { primary_key: true, ..self@ }),
    {
        ColumnDef { primary_key: true, ..self }
    }

    /// Marks the column UNIQUE.
    pub fn unique(self) -> (r: ColumnDef)
        ensures
            r@ == (crate::catalog::ColumnDefV { unique: true, ..self@ }),
    {
        ColumnDef { unique: true, ..self }
    }

    /// Marks the column NOT NULL.
    pub fn not_null(self) -> (r: ColumnDef)
        ensures
            r@ == (crate::catalog::ColumnDefV { not_null: true, ..self@ }),
    {
        ColumnDef { not_null: true, ..self }
    }
}

} // verus!
