use vstd::prelude::*;

verus! {

use crate::ast::{
    Assignment, Expr, Payload, PayloadV, Statement, ValueExpr, res_pay_v, row_v, rows_v, strs_v,
};
use crate::catalog::{
    ColumnDef, ColumnDefV, TableSchema, clone_schema, col_idx, cols_v, find_column,
    lemma_col_idx_props, schema_wf, schema_wf_check,
};
use crate::error::EngineError;
use crate::eval::{eval_s, evaluate};
use crate::storage::{
    MemStorage, TableV, cell_fits, clone_row, db_wf, lemma_tab_idx_props, row_fits, tab_idx,
    table_wf,
};
use crate::value::{Value, ValueV, clone_value, coerce, coerce_s, res_v, value_eq};

/// The model of the engine: the committed catalog with its rows, and the
/// state of the UUID generator.
pub struct GlueV {
    pub db: Seq<TableV>,
    pub next_uuid: u128,
}

/// The model of one statement's execution: the engine after it, and the
/// statement's outcome.
pub struct StepResult {
    pub glue: GlueV,
    pub result: Result<PayloadV, EngineError>,
}

/// The UUID generator's state after one draw; the drawn value is the state
/// itself, and the space wraps around at its end.
pub open spec fn uuid_next(u: u128) -> u128 {
    if u == u128::MAX {
        0
    } else {
        (u + 1) as u128
    }
}

/// The values of one inserted row, left to right: a literal stays itself,
/// and each GenerateUuid takes the generator's next value.
pub open spec fn resolve_vals_s(vals: Seq<ValueExpr>, i: int, u: u128, acc: Seq<ValueV>) -> (
    Seq<ValueV>,
    u128,
)
    decreases vals.len() - i,
{
    if i < 0 || i >= vals.len() {
        (acc, u)
    } else {
        match vals[i] {
            ValueExpr::Literal(v) => resolve_vals_s(vals, i + 1, u, acc.push(v@)),
            ValueExpr::GenerateUuid => resolve_vals_s(
                vals,
                i + 1,
                uuid_next(u),
                acc.push(ValueV::Uuid(u)),
            ),
        }
    }
}

/// Coerces a value to a column: the declared type's coercion, then the
/// null rule — a null may not sit under a NOT NULL or PRIMARY KEY column.
pub open spec fn coerce_cell_s(v: ValueV, c: ColumnDefV) -> Result<ValueV, EngineError> {
    match coerce_s(v, c.data_type) {
        Err(e) => Err(e),
        Ok(w) => if w is Null && (c.not_null || c.primary_key) {
            Err(EngineError::TypeMismatch)
        } else {
            Ok(w)
        },
    }
}

/// A cell that coercion accepted fits its column.
pub proof fn lemma_coerce_cell_fits(v: ValueV, c: ColumnDefV)
    ensures
        match coerce_cell_s(v, c) {
            Ok(w) => cell_fits(w, c),
            Err(_) => true,
        },
{
}

/// The index of the first name at or after `i` equal to `n`, and -1 when
/// there is none.
pub open spec fn name_idx_from(names: Seq<Seq<char>>, n: Seq<char>, i: int) -> int
    decreases names.len() - i,
{
    if i < 0 || i >= names.len() {
        -1
    } else if names[i] == n {
        i
    } else {
        name_idx_from(names, n, i + 1)
    }
}

/// The index of the first name equal to `n`, and -1 when there is none.
pub open spec fn name_idx(names: Seq<Seq<char>>, n: Seq<char>) -> int {
    name_idx_from(names, n, 0)
}

/// What `name_idx_from` means: -1 exactly when no name at or after `i`
/// equals `n`, and otherwise the first such index.
pub proof fn lemma_name_idx_from_props(names: Seq<Seq<char>>, n: Seq<char>, i: int)
    requires
        0 <= i <= names.len(),
    ensures
        name_idx_from(names, n, i) != -1 ==> i <= name_idx_from(names, n, i) < names.len()
            && names[name_idx_from(names, n, i)] == n,
        name_idx_from(names, n, i) == -1 ==> forall|j: int| i <= j < names.len() ==> names[j] != n,
    decreases names.len() - i,
{
    if i < names.len() && names[i] != n {
        lemma_name_idx_from_props(names, n, i + 1);
    }
}

/// Validates a list of column names against the schema, left to right: the
/// first unknown name is the whole list's error.
pub open spec fn check_names_s(cols: Seq<ColumnDefV>, names: Seq<Seq<char>>, i: int) -> Result<
    (),
    EngineError,
>
    decreases names.len() - i,
{
    if i < 0 || i >= names.len() {
        Ok(())
    } else if col_idx(cols, names[i]) == -1 {
        Err(EngineError::ColumnNotFound)
    } else {
        check_names_s(cols, names, i + 1)
    }
}

/// Builds one full stored row, column by column of the schema, from column
/// `j` on: a column named in the list takes the value under the name's
/// first occurrence, an unnamed column a null, and each cell is coerced to
/// its column; an empty list means the values stand in schema order. The
/// leftmost failing column's error is the row's error.
pub open spec fn build_row_s(
    cols: Seq<ColumnDefV>,
    names: Seq<Seq<char>>,
    vals: Seq<ValueV>,
    j: int,
    acc: Seq<ValueV>,
) -> Result<Seq<ValueV>, EngineError>
    decreases cols.len() - j,
{
    if j < 0 || j >= cols.len() {
        Ok(acc)
    } else {
        let p = if names.len() == 0 {
            j
        } else {
            name_idx(names, cols[j].name)
        };
        let raw = if 0 <= p < vals.len() {
            vals[p]
        } else {
            ValueV::Null
        };
        match coerce_cell_s(raw, cols[j]) {
            Err(e) => Err(e),
            Ok(w) => build_row_s(cols, names, vals, j + 1, acc.push(w)),
        }
    }
}

/// A row that `build_row_s` accepted lies in the table's layout.
pub proof fn lemma_build_row_fits(
    cols: Seq<ColumnDefV>,
    names: Seq<Seq<char>>,
    vals: Seq<ValueV>,
    j: int,
    acc: Seq<ValueV>,
)
    requires
        0 <= j <= cols.len(),
        acc.len() == j,
        forall|m: int| 0 <= m < j ==> cell_fits(#[trigger] acc[m], cols[m]),
    ensures
        match build_row_s(cols, names, vals, j, acc) {
            Ok(nr) => row_fits(nr, cols),
            Err(_) => true,
        },
    decreases cols.len() - j,
{
    if j < cols.len() {
        let p = if names.len() == 0 {
            j
        } else {
            name_idx(names, cols[j].name)
        };
        let raw = if 0 <= p < vals.len() {
            vals[p]
        } else {
            ValueV::Null
        };
        match coerce_cell_s(raw, cols[j]) {
            Err(_) => {},
            Ok(w) => {
                lemma_coerce_cell_fits(raw, cols[j]);
                lemma_build_row_fits(cols, names, vals, j + 1, acc.push(w));
            },
        }
    }
}

/// Whether a new row collides with no present row on any PRIMARY KEY or
/// UNIQUE column; a null never collides.
pub open spec fn unique_ok(rows: Seq<Seq<ValueV>>, cols: Seq<ColumnDefV>, nr: Seq<ValueV>) -> bool {
    forall|j: int, k: int|
        0 <= j < cols.len() && 0 <= k < rows.len() && (cols[j].primary_key || cols[j].unique) && !(
        nr[j] is Null) ==> #[trigger] rows[k][j] != nr[j]
}

/// Whether a rewritten row collides with no other row on any PRIMARY KEY
/// or UNIQUE column, its own position `i` excepted.
pub open spec fn unique_ok_excl(
    rows: Seq<Seq<ValueV>>,
    cols: Seq<ColumnDefV>,
    nr: Seq<ValueV>,
    i: int,
) -> bool {
    forall|j: int, k: int|
        0 <= j < cols.len() && 0 <= k < rows.len() && k != i && (cols[j].primary_key
            || cols[j].unique) && !(nr[j] is Null) ==> #[trigger] rows[k][j] != nr[j]
}

/// Inserts the value rows from row `r` on into the table, left to right:
/// each row must have the column list's arity, builds a full stored row,
/// must not collide with any committed row nor with a row inserted earlier
/// in the same statement, and is then appended. The first failing row's
/// error is the statement's error.
pub open spec fn insert_rows_s(
    t: TableV,
    rowset: Seq<Vec<ValueExpr>>,
    names: Seq<Seq<char>>,
    r: int,
    u: u128,
) -> Result<(TableV, u128), EngineError>
    decreases rowset.len() - r,
{
    if r < 0 || r >= rowset.len() {
        Ok((t, u))
    } else {
        let vals = rowset[r]@;
        let arity = if names.len() == 0 {
            t.schema.columns.len() as int
        } else {
            names.len() as int
        };
        if vals.len() != arity {
            Err(EngineError::ParseError)
        } else {
            let rv = resolve_vals_s(vals, 0, u, Seq::empty());
            match build_row_s(t.schema.columns, names, rv.0, 0, Seq::empty()) {
                Err(e) => Err(e),
                Ok(nr) => if !unique_ok(t.rows, t.schema.columns, nr) {
                    Err(EngineError::UniqueViolation)
                } else {
                    insert_rows_s(
                        TableV { schema: t.schema, rows: t.rows.push(nr) },
                        rowset,
                        names,
                        r + 1,
                        rv.1,
                    )
                },
            }
        }
    }
}

/// Whether the filter accepts a row: no filter accepts every row; a filter
/// must evaluate to a boolean, anything else is a type mismatch.
pub open spec fn row_passes_s(f: Option<Expr>, cols: Seq<ColumnDefV>, row: Seq<ValueV>) -> Result<
    bool,
    EngineError,
> {
    match f {
        None => Ok(true),
        Some(e) => match eval_s(e, cols, row) {
            Err(er) => Err(er),
            Ok(ValueV::Bool(b)) => Ok(b),
            Ok(_) => Err(EngineError::TypeMismatch),
        },
    }
}

/// The cells of a row under a projection's column positions.
pub open spec fn project_row_s(row: Seq<ValueV>, idxs: Seq<int>) -> Seq<ValueV> {
    idxs.map_values(
        |j: int|
            if 0 <= j < row.len() {
                row[j]
            } else {
                ValueV::Null
            },
    )
}

/// The column positions of a projection list, left to right: the first
/// unknown name is the projection's error.
pub open spec fn proj_idxs_s(
    cols: Seq<ColumnDefV>,
    names: Seq<Seq<char>>,
    i: int,
    acc: Seq<int>,
) -> Result<Seq<int>, EngineError>
    decreases names.len() - i,
{
    if i < 0 || i >= names.len() {
        Ok(acc)
    } else {
        let j = col_idx(cols, names[i]);
        if j == -1 {
            Err(EngineError::ColumnNotFound)
        } else {
            proj_idxs_s(cols, names, i + 1, acc.push(j))
        }
    }
}

/// The identity projection: every column position in schema order.
pub open spec fn all_idxs(n: int) -> Seq<int> {
    Seq::new(n as nat, |j: int| j)
}

/// Selects from the rows from row `i` on, in scan order: a row the filter
/// accepts contributes its projected cells; a row's evaluation error is
/// the statement's error.
pub open spec fn select_rows_s(
    rows: Seq<Seq<ValueV>>,
    i: int,
    f: Option<Expr>,
    cols: Seq<ColumnDefV>,
    idxs: Seq<int>,
    acc: Seq<Seq<ValueV>>,
) -> Result<Seq<Seq<ValueV>>, EngineError>
    decreases rows.len() - i,
{
    if i < 0 || i >= rows.len() {
        Ok(acc)
    } else {
        match row_passes_s(f, cols, rows[i]) {
            Err(e) => Err(e),
            Ok(true) => select_rows_s(
                rows,
                i + 1,
                f,
                cols,
                idxs,
                acc.push(project_row_s(rows[i], idxs)),
            ),
            Ok(false) => select_rows_s(rows, i + 1, f, cols, idxs, acc),
        }
    }
}

/// Deletes from the rows from row `i` on, in scan order: a row the filter
/// accepts is dropped and counted, the rest are kept in order; a row's
/// evaluation error is the statement's error.
pub open spec fn delete_rows_s(
    rows: Seq<Seq<ValueV>>,
    i: int,
    f: Option<Expr>,
    cols: Seq<ColumnDefV>,
    kept: Seq<Seq<ValueV>>,
    cnt: int,
) -> Result<(Seq<Seq<ValueV>>, int), EngineError>
    decreases rows.len() - i,
{
    if i < 0 || i >= rows.len() {
        Ok((kept, cnt))
    } else {
        match row_passes_s(f, cols, rows[i]) {
            Err(e) => Err(e),
            Ok(true) => delete_rows_s(rows, i + 1, f, cols, kept, cnt + 1),
            Ok(false) => delete_rows_s(rows, i + 1, f, cols, kept.push(rows[i]), cnt),
        }
    }
}

/// Applies the SET clauses from clause `k` on to a row: each clause's
/// expression is evaluated against the row as it stood before the update,
/// its value coerced to the clause's column, and written at that column's
/// position into `mid`. The first failing clause's error is the row's
/// error.
pub open spec fn apply_asgs_s(
    cols: Seq<ColumnDefV>,
    asgs: Seq<Assignment>,
    row: Seq<ValueV>,
    k: int,
    mid: Seq<ValueV>,
) -> Result<Seq<ValueV>, EngineError>
    decreases asgs.len() - k,
{
    if k < 0 || k >= asgs.len() {
        Ok(mid)
    } else {
        let j = col_idx(cols, asgs[k].column@);
        if j == -1 {
            Err(EngineError::ColumnNotFound)
        } else {
            match eval_s(asgs[k].value, cols, row) {
                Err(e) => Err(e),
                Ok(v) => match coerce_cell_s(v, cols[j]) {
                    Err(e) => Err(e),
                    Ok(w) => apply_asgs_s(cols, asgs, row, k + 1, mid.update(j, w)),
                },
            }
        }
    }
}

/// A row that `apply_asgs_s` rewrote still lies in the table's layout.
pub proof fn lemma_apply_asgs_fits(
    cols: Seq<ColumnDefV>,
    asgs: Seq<Assignment>,
    row: Seq<ValueV>,
    k: int,
    mid: Seq<ValueV>,
)
    requires
        row_fits(mid, cols),
    ensures
        match apply_asgs_s(cols, asgs, row, k, mid) {
            Ok(nr) => row_fits(nr, cols),
            Err(_) => true,
        },
    decreases asgs.len() - k,
{
    if 0 <= k < asgs.len() {
        let j = col_idx(cols, asgs[k].column@);
        if j != -1 {
            lemma_col_idx_props(cols, asgs[k].column@);
            match eval_s(asgs[k].value, cols, row) {
                Err(_) => {},
                Ok(v) => match coerce_cell_s(v, cols[j]) {
                    Err(_) => {},
                    Ok(w) => {
                        lemma_coerce_cell_fits(v, cols[j]);
                        lemma_apply_asgs_fits(cols, asgs, row, k + 1, mid.update(j, w));
                    },
                },
            }
        }
    }
}

/// Rewrites the rows from row `i` on, in scan order: a row the filter
/// accepts is rewritten by the SET clauses and counted, and the rewritten
/// row must not collide with any other row as the table stands at that
/// point — the rows before it already rewritten, the rows after it not
/// yet — on any PRIMARY KEY or UNIQUE column.
pub open spec fn update_rows_s(
    rows: Seq<Seq<ValueV>>,
    i: int,
    f: Option<Expr>,
    cols: Seq<ColumnDefV>,
    asgs: Seq<Assignment>,
    cnt: int,
) -> Result<(Seq<Seq<ValueV>>, int), EngineError>
    decreases rows.len() - i,
{
    if i < 0 || i >= rows.len() {
        Ok((rows, cnt))
    } else {
        match row_passes_s(f, cols, rows[i]) {
            Err(e) => Err(e),
            Ok(false) => update_rows_s(rows, i + 1, f, cols, asgs, cnt),
            Ok(true) => match apply_asgs_s(cols, asgs, rows[i], 0, rows[i]) {
                Err(e) => Err(e),
                Ok(nr) => if !unique_ok_excl(rows, cols, nr, i) {
                    Err(EngineError::UniqueViolation)
                } else {
                    update_rows_s(rows.update(i, nr), i + 1, f, cols, asgs, cnt + 1)
                },
            },
        }
    }
}

/// What CREATE TABLE does: a malformed schema is refused; a present name
/// with IF NOT EXISTS is a no-op success, without it an error; otherwise
/// the schema is registered with no rows.
pub open spec fn step_create(g: GlueV, schema: TableSchema, if_not_exists: bool) -> StepResult {
    if !schema_wf(schema@) {
        StepResult { glue: g, result: Err(EngineError::ParseError) }
    } else {
        let ti = tab_idx(g.db, schema@.name);
        if ti != -1 {
            if if_not_exists {
                StepResult { glue: g, result: Ok(PayloadV::Create) }
            } else {
                StepResult { glue: g, result: Err(EngineError::TableAlreadyExists) }
            }
        } else {
            StepResult {
                glue: GlueV {
                    db: g.db.push(TableV { schema: schema@, rows: Seq::empty() }),
                    next_uuid: g.next_uuid,
                },
                result: Ok(PayloadV::Create),
            }
        }
    }
}

/// What INSERT does: the table must exist and the column list resolve;
/// the value rows are inserted left to right, all or none.
pub open spec fn step_insert(
    g: GlueV,
    name: Seq<char>,
    names: Seq<Seq<char>>,
    rowset: Seq<Vec<ValueExpr>>,
) -> StepResult {
    let ti = tab_idx(g.db, name);
    if ti == -1 {
        StepResult { glue: g, result: Err(EngineError::TableNotFound) }
    } else {
        match check_names_s(g.db[ti].schema.columns, names, 0) {
            Err(e) => StepResult { glue: g, result: Err(e) },
            Ok(_) => match insert_rows_s(g.db[ti], rowset, names, 0, g.next_uuid) {
                Err(e) => StepResult { glue: g, result: Err(e) },
                Ok(tu) => StepResult {
                    glue: GlueV { db: g.db.update(ti, tu.0), next_uuid: tu.1 },
                    result: Ok(PayloadV::Insert(rowset.len() as int)),
                },
            },
        }
    }
}

/// What SELECT does: the table must exist and the projection resolve; the
/// filtered rows come back projected, in scan order, under the projection's
/// labels — the schema's own column names when there is no projection —
/// and storage is untouched.
pub open spec fn step_select(
    g: GlueV,
    name: Seq<char>,
    f: Option<Expr>,
    projection: Option<Vec<String>>,
) -> StepResult {
    let ti = tab_idx(g.db, name);
    if ti == -1 {
        StepResult { glue: g, result: Err(EngineError::TableNotFound) }
    } else {
        let cols = g.db[ti].schema.columns;
        let idxs_r = match projection {
            None => Ok(all_idxs(cols.len() as int)),
            Some(p) => proj_idxs_s(cols, strs_v(p@), 0, Seq::empty()),
        };
        match idxs_r {
            Err(e) => StepResult { glue: g, result: Err(e) },
            Ok(idxs) => {
                let labels = match projection {
                    None => cols.map_values(|c: ColumnDefV| c.name),
                    Some(p) => strs_v(p@),
                };
                match select_rows_s(g.db[ti].rows, 0, f, cols, idxs, Seq::empty()) {
                    Err(e) => StepResult { glue: g, result: Err(e) },
                    Ok(rows) => StepResult {
                        glue: g,
                        result: Ok(PayloadV::Select { labels, rows }),
                    },
                }
            },
        }
    }
}

/// What UPDATE does: the table must exist and every SET column resolve;
/// the filtered rows are rewritten in scan order, all or none, and the
/// count of rewritten rows comes back.
pub open spec fn step_update(
    g: GlueV,
    name: Seq<char>,
    asgs: Seq<Assignment>,
    f: Option<Expr>,
) -> StepResult {
    let ti = tab_idx(g.db, name);
    if ti == -1 {
        StepResult { glue: g, result: Err(EngineError::TableNotFound) }
    } else {
        let cols = g.db[ti].schema.columns;
        match check_names_s(cols, asgs.map_values(|a: Assignment| a.column@), 0) {
            Err(e) => StepResult { glue: g, result: Err(e) },
            Ok(_) => match update_rows_s(g.db[ti].rows, 0, f, cols, asgs, 0) {
                Err(e) => StepResult { glue: g, result: Err(e) },
                Ok(rc) => StepResult {
                    glue: GlueV {
                        db: g.db.update(ti, TableV { schema: g.db[ti].schema, rows: rc.0 }),
                        next_uuid: g.next_uuid,
                    },
                    result: Ok(PayloadV::Update(rc.1)),
                },
            },
        }
    }
}

/// What DELETE does: the table must exist; the filtered rows are dropped
/// in scan order, all or none, and the count of dropped rows comes back.
pub open spec fn step_delete(g: GlueV, name: Seq<char>, f: Option<Expr>) -> StepResult {
    let ti = tab_idx(g.db, name);
    if ti == -1 {
        StepResult { glue: g, result: Err(EngineError::TableNotFound) }
    } else {
        let cols = g.db[ti].schema.columns;
        match delete_rows_s(g.db[ti].rows, 0, f, cols, Seq::empty(), 0) {
            Err(e) => StepResult { glue: g, result: Err(e) },
            Ok(rc) => StepResult {
                glue: GlueV {
                    db: g.db.update(ti, TableV { schema: g.db[ti].schema, rows: rc.0 }),
                    next_uuid: g.next_uuid,
                },
                result: Ok(PayloadV::Delete(rc.1)),
            },
        }
    }
}

/// What one statement does: the engine's next state and the statement's
/// outcome. A failed statement leaves the engine exactly as it was.
pub open spec fn step(g: GlueV, stmt: Statement) -> StepResult {
    match stmt {
        Statement::CreateTable { schema, if_not_exists } => step_create(g, schema, if_not_exists),
        Statement::Insert { table, columns, rows } => step_insert(
            g,
            table@,
            strs_v(columns@),
            rows@,
        ),
        Statement::Select { table, filter, projection } => step_select(
            g,
            table@,
            filter,
            projection,
        ),
        Statement::Update { table, assignments, filter } => step_update(
            g,
            table@,
            assignments@,
            filter,
        ),
        Statement::Delete { table, filter } => step_delete(g, table@, filter),
    }
}


/// The positions of a projection as integers.
pub open spec fn idxs_v(idxs: Seq<usize>) -> Seq<int> {
    idxs.map_values(|u: usize| u as int)
}

/// Coerces a value to a column.
fn coerce_cell(v: &Value, c: &ColumnDef) -> (r: Result<Value, EngineError>)
    ensures
        res_v(r) == coerce_cell_s(v@, c@),
{
    match coerce(v, c.data_type) {
        Err(e) => Err(e),
        Ok(w) => if matches!(w, Value::Null) && (c.not_null || c.primary_key) {
            Err(EngineError::TypeMismatch)
        } else {
            Ok(w)
        },
    }
}

/// The position of the first name equal to `n`.
fn find_name(names: &Vec<String>, n: &String) -> (r: Option<usize>)
    ensures
        match r {
            Some(i) => name_idx(strs_v(names@), n@) == i as int,
            None => name_idx(strs_v(names@), n@) == -1,
        },
{
    let ln = names.len();
    let mut i: usize = 0;
    loop
        invariant
            ln == names@.len(),
            i <= ln,
            strs_v(names@).len() == ln,
            name_idx(strs_v(names@), n@) == name_idx_from(strs_v(names@), n@, i as int),
        decreases ln - i,
    {
        if i == ln {
            return None;
        }
        if names[i].eq(n) {
            return Some(i);
        }
        i += 1;
    }
}

/// A copy of a list of names with the same model.
fn clone_strings(ss: &Vec<String>) -> (out: Vec<String>)
    ensures
        strs_v(out@) == strs_v(ss@),
{
    let mut out: Vec<String> = Vec::new();
    let n = ss.len();
    let mut i: usize = 0;
    while i < n
        invariant
            n == ss@.len(),
            i <= n,
            out@.len() == i,
            forall|j: int| 0 <= j < i ==> out@[j]@ == ss@[j]@,
        decreases n - i,
    {
        out.push(ss[i].clone());
        i += 1;
    }
    proof {
        assert(strs_v(out@) =~= strs_v(ss@));
    }
    out
}

/// The values of one inserted row, each GenerateUuid drawn from the
/// generator, together with the generator's state after them.
fn resolve_row(vals: &Vec<ValueExpr>, u0: u128) -> (r: (Vec<Value>, u128))
    ensures
        ({
            let rv = resolve_vals_s(vals@, 0, u0, Seq::empty());
            row_v(r.0@) == rv.0 && r.1 == rv.1
        }),
{
    let mut out: Vec<Value> = Vec::new();
    let mut u: u128 = u0;
    let n = vals.len();
    let mut i: usize = 0;
    proof {
        assert(row_v(out@) =~= Seq::<ValueV>::empty());
    }
    while i < n
        invariant
            n == vals@.len(),
            i <= n,
            resolve_vals_s(vals@, 0, u0, Seq::empty()) == resolve_vals_s(
                vals@,
                i as int,
                u,
                row_v(out@),
            ),
        decreases n - i,
    {
        let ghost acc0 = row_v(out@);
        match &vals[i] {
            ValueExpr::Literal(v) => {
                let c = clone_value(v);
                out.push(c);
                proof {
                    assert(row_v(out@) =~= acc0.push(vals@[i as int]->Literal_0@));
                }
            },
            ValueExpr::GenerateUuid => {
                out.push(Value::Uuid(u));
                proof {
                    assert(row_v(out@) =~= acc0.push(ValueV::Uuid(u)));
                }
                u = if u == u128::MAX {
                    0
                } else {
                    u + 1
                };
            },
        }
        i += 1;
    }
    (out, u)
}

/// One full stored row built from the given values.
fn build_row(cols: &Vec<ColumnDef>, names: &Vec<String>, vals: &Vec<Value>) -> (r: Result<
    Vec<Value>,
    EngineError,
>)
    ensures
        match r {
            Ok(nr) => build_row_s(cols_v(cols@), strs_v(names@), row_v(vals@), 0, Seq::empty())
                == Ok::<Seq<ValueV>, EngineError>(row_v(nr@)),
            Err(e) => build_row_s(cols_v(cols@), strs_v(names@), row_v(vals@), 0, Seq::empty())
                == Err::<Seq<ValueV>, EngineError>(e),
        },
{
    let mut out: Vec<Value> = Vec::new();
    let nc = cols.len();
    let mut j: usize = 0;
    proof {
        assert(row_v(out@) =~= Seq::<ValueV>::empty());
    }
    while j < nc
        invariant
            nc == cols@.len(),
            j <= nc,
            build_row_s(cols_v(cols@), strs_v(names@), row_v(vals@), 0, Seq::empty())
                == build_row_s(cols_v(cols@), strs_v(names@), row_v(vals@), j as int, row_v(out@)),
        decreases nc - j,
    {
        let p_opt: Option<usize> = if names.len() == 0 {
            Some(j)
        } else {
            find_name(names, &cols[j].name)
        };
        let raw: Value = match p_opt {
            Some(p) => {
                if p < vals.len() {
                    clone_value(&vals[p])
                } else {
                    Value::Null
                }
            },
            None => Value::Null,
        };
        proof {
            let pspec = if strs_v(names@).len() == 0 {
                j as int
            } else {
                name_idx(strs_v(names@), cols_v(cols@)[j as int].name)
            };
            if strs_v(names@).len() != 0 {
                lemma_name_idx_from_props(strs_v(names@), cols_v(cols@)[j as int].name, 0);
            }
            assert(raw@ == (if 0 <= pspec < row_v(vals@).len() {
                row_v(vals@)[pspec]
            } else {
                ValueV::Null
            }));
        }
        let ghost acc0 = row_v(out@);
        match coerce_cell(&raw, &cols[j]) {
            Err(e) => {
                return Err(e);
            },
            Ok(w) => {
                out.push(w);
                proof {
                    assert(row_v(out@) =~= acc0.push(row_v(out@).last()));
                }
            },
        }
        j += 1;
    }
    Ok(out)
}

/// Whether a new row collides with no present row on a PRIMARY KEY or
/// UNIQUE column.
fn check_unique(rows: &Vec<Vec<Value>>, cols: &Vec<ColumnDef>, nr: &Vec<Value>) -> (r: bool)
    requires
        nr@.len() == cols@.len(),
        forall|k: int| 0 <= k < rows@.len() ==> (#[trigger] rows@[k])@.len() == cols@.len(),
    ensures
        r == unique_ok(rows_v(rows@), cols_v(cols@), row_v(nr@)),
{
    let nc = cols.len();
    let nrows = rows.len();
    let mut j: usize = 0;
    while j < nc
        invariant
            nc == cols@.len(),
            nrows == rows@.len(),
            nr@.len() == nc,
            forall|k: int| 0 <= k < rows@.len() ==> (#[trigger] rows@[k])@.len() == cols@.len(),
            j <= nc,
            forall|jj: int, k: int|
                0 <= jj < j && 0 <= k < nrows && (cols_v(cols@)[jj].primary_key || cols_v(
                    cols@,
                )[jj].unique) && !(row_v(nr@)[jj] is Null) ==> #[trigger] rows_v(rows@)[k][jj]
                    != row_v(nr@)[jj],
        decreases nc - j,
    {
        if (cols[j].primary_key || cols[j].unique) && !matches!(nr[j], Value::Null) {
            let mut k: usize = 0;
            while k < nrows
                invariant
                    nc == cols@.len(),
                    nrows == rows@.len(),
                    nr@.len() == nc,
                    j < nc,
                    forall|kk: int| 0 <= kk < rows@.len() ==> (#[trigger] rows@[kk])@.len()
                        == cols@.len(),
                    k <= nrows,
                    cols_v(cols@)[j as int].primary_key || cols_v(cols@)[j as int].unique,
                    !(row_v(nr@)[j as int] is Null),
                    forall|kk: int|
                        0 <= kk < k ==> #[trigger] rows_v(rows@)[kk][j as int] != row_v(
                            nr@,
                        )[j as int],
                decreases nrows - k,
            {
                if value_eq(&rows[k][j], &nr[j]) {
                    proof {
                        assert(rows_v(rows@)[k as int][j as int] == row_v(nr@)[j as int]);
                        assert(!unique_ok(rows_v(rows@), cols_v(cols@), row_v(nr@)));
                    }
                    return false;
                }
                k += 1;
            }
        }
        j += 1;
    }
    true
}

/// Whether a rewritten row collides with no other row, its own position
/// excepted.
fn check_unique_excl(
    rows: &Vec<Vec<Value>>,
    cols: &Vec<ColumnDef>,
    nr: &Vec<Value>,
    excl: usize,
) -> (r: bool)
    requires
        nr@.len() == cols@.len(),
        forall|k: int| 0 <= k < rows@.len() ==> (#[trigger] rows@[k])@.len() == cols@.len(),
    ensures
        r == unique_ok_excl(rows_v(rows@), cols_v(cols@), row_v(nr@), excl as int),
{
    let nc = cols.len();
    let nrows = rows.len();
    let mut j: usize = 0;
    while j < nc
        invariant
            nc == cols@.len(),
            nrows == rows@.len(),
            nr@.len() == nc,
            forall|k: int| 0 <= k < rows@.len() ==> (#[trigger] rows@[k])@.len() == cols@.len(),
            j <= nc,
            forall|jj: int, k: int|
                0 <= jj < j && 0 <= k < nrows && k != excl && (cols_v(cols@)[jj].primary_key
                    || cols_v(cols@)[jj].unique) && !(row_v(nr@)[jj] is Null) ==> #[trigger] rows_v(
                    rows@,
                )[k][jj] != row_v(nr@)[jj],
        decreases nc - j,
    {
        if (cols[j].primary_key || cols[j].unique) && !matches!(nr[j], Value::Null) {
            let mut k: usize = 0;
            while k < nrows
                invariant
                    nc == cols@.len(),
                    nrows == rows@.len(),
                    nr@.len() == nc,
                    j < nc,
                    forall|kk: int| 0 <= kk < rows@.len() ==> (#[trigger] rows@[kk])@.len()
                        == cols@.len(),
                    k <= nrows,
                    cols_v(cols@)[j as int].primary_key || cols_v(cols@)[j as int].unique,
                    !(row_v(nr@)[j as int] is Null),
                    forall|kk: int|
                        0 <= kk < k && kk != excl ==> #[trigger] rows_v(rows@)[kk][j as int]
                            != row_v(nr@)[j as int],
                decreases nrows - k,
            {
                if k != excl {
                    if value_eq(&rows[k][j], &nr[j]) {
                        proof {
                            assert(rows_v(rows@)[k as int][j as int] == row_v(nr@)[j as int]);
                            assert(!unique_ok_excl(
                                rows_v(rows@),
                                cols_v(cols@),
                                row_v(nr@),
                                excl as int,
                            ));
                        }
                        return false;
                    }
                }
                k += 1;
            }
        }
        j += 1;
    }
    true
}

/// The cells of a row under a projection.
fn project_row(row: &Vec<Value>, idxs: &Vec<usize>) -> (out: Vec<Value>)
    requires
        forall|m: int| 0 <= m < idxs@.len() ==> (#[trigger] idxs@[m]) < row@.len(),
    ensures
        row_v(out@) == project_row_s(row_v(row@), idxs_v(idxs@)),
{
    let mut out: Vec<Value> = Vec::new();
    let n = idxs.len();
    let mut m: usize = 0;
    while m < n
        invariant
            n == idxs@.len(),
            m <= n,
            out@.len() == m,
            forall|q: int| 0 <= q < idxs@.len() ==> (#[trigger] idxs@[q]) < row@.len(),
            forall|q: int| 0 <= q < m ==> out@[q]@ == row@[idxs@[q] as int]@,
        decreases n - m,
    {
        out.push(clone_value(&row[idxs[m]]));
        m += 1;
    }
    proof {
        assert(row_v(out@) =~= project_row_s(row_v(row@), idxs_v(idxs@)));
    }
    out
}


/// The engine: the storage it owns and the UUID generator's state. One
/// statement executes at a time, inside one storage transaction, and either
/// commits whole or leaves the committed state untouched.
#[derive(Debug)]
pub struct Glue {
    storage: MemStorage,
    next_uuid: u128,
}

impl View for Glue {
    type V = GlueV;

    closed spec fn view(&self) -> GlueV {
        GlueV { db: self.storage.committed(), next_uuid: self.next_uuid }
    }
}

impl Glue {
    /// Between statements no transaction is open and the committed catalog
    /// is well formed.
    pub closed spec fn wf(&self) -> bool {
        &&& !self.storage.in_txn()
        &&& db_wf(self@.db)
    }

    /// An engine over an empty backend.
    pub fn new() -> (r: Glue)
        ensures
            r.wf(),
            r@.db == Seq::<TableV>::empty(),
            r@.next_uuid == 1,
    {
        let r = Glue { storage: MemStorage::new(), next_uuid: 1 };
        proof {
            assert(r@.db =~= Seq::<TableV>::empty());
        }
        r
    }

    fn exec_create(&mut self, schema: &TableSchema, if_not_exists: bool) -> (r: Result<
        Payload,
        EngineError,
    >)
        requires
            old(self).wf(),
        ensures
            final(self).wf(),
            final(self)@ == step_create(old(self)@, *schema, if_not_exists).glue,
            res_pay_v(r) == step_create(old(self)@, *schema, if_not_exists).result,
    {
        proof {
            self.storage.lemma_no_txn();
        }
        if !schema_wf_check(schema) {
            return Err(EngineError::ParseError);
        }
        match self.storage.find_table(&schema.name) {
            Some(_) => {
                if if_not_exists {
                    Ok(Payload::Create)
                } else {
                    Err(EngineError::TableAlreadyExists)
                }
            },
            None => {
                self.storage.begin();
                let sc = clone_schema(schema);
                self.storage.insert_schema(sc);
                self.storage.commit();
                proof {
                    let db0 = old(self)@.db;
                    let t = TableV { schema: schema@, rows: Seq::empty() };
                    lemma_tab_idx_props(db0, schema@.name);
                    assert(self@.db == db0.push(t));
                    assert forall|i: int, jj: int|
                        0 <= i < jj < self@.db.len() implies self@.db[i].schema.name
                        != self@.db[jj].schema.name by {
                        if jj < db0.len() {
                            assert(self@.db[i] == db0[i] && self@.db[jj] == db0[jj]);
                        } else {
                            assert(self@.db[i] == db0[i] && self@.db[jj] == t);
                        }
                    }
                    assert forall|i: int| 0 <= i < self@.db.len() implies table_wf(
                        #[trigger] self@.db[i],
                    ) by {
                        if i < db0.len() {
                            assert(self@.db[i] == db0[i]);
                        } else {
                            assert(self@.db[i] == t);
                        }
                    }
                }
                Ok(Payload::Create)
            },
        }
    }

    #[verifier::loop_isolation(false)]
    fn exec_select(&self, table: &String, filter: &Option<Expr>, projection: &Option<Vec<String>>)
        -> (r: Result<Payload, EngineError>)
        requires
            self.wf(),
        ensures
            res_pay_v(r) == step_select(self@, table@, *filter, *projection).result,
    {
        proof {
            self.storage.lemma_no_txn();
        }
        let ti = match self.storage.find_table(table) {
            None => {
                return Err(EngineError::TableNotFound);
            },
            Some(t) => t,
        };
        proof {
            lemma_tab_idx_props(self@.db, table@);
        }
        let schema = match self.storage.fetch_schema(table) {
            Some(s) => s,
            None => {
                return Err(EngineError::TableNotFound);
            },
        };
        let ghost cols = self@.db[ti as int].schema.columns;
        let nc = schema.columns.len();
        let mut idxs: Vec<usize> = Vec::new();
        let mut labels: Vec<String> = Vec::new();
        match projection {
            None => {
                let mut j: usize = 0;
                while j < nc
                    invariant
                        nc == schema.columns@.len(),
                        schema@ == self@.db[ti as int].schema,
                        cols == self@.db[ti as int].schema.columns,
                        j <= nc,
                        idxs@.len() == j,
                        labels@.len() == j,
                        forall|m: int| 0 <= m < j ==> idxs@[m] == m,
                        forall|m: int| 0 <= m < j ==> labels@[m]@ == cols[m].name,
                    decreases nc - j,
                {
                    idxs.push(j);
                    labels.push(schema.columns[j].name.clone());
                    j += 1;
                }
                proof {
                    assert(idxs_v(idxs@) =~= all_idxs(cols.len() as int));
                    assert(strs_v(labels@) =~= cols.map_values(|c: ColumnDefV| c.name));
                }
            },
            Some(p) => {
                proof {
                    assert((*projection) == Some(*p));
                    assert(idxs_v(idxs@) =~= Seq::<int>::empty());
                }
                let np = p.len();
                let mut i: usize = 0;
                while i < np
                    invariant
                        np == p@.len(),
                        schema@ == self@.db[ti as int].schema,
                        cols == self@.db[ti as int].schema.columns,
                        i <= np,
                        idxs@.len() == i,
                        forall|m: int| 0 <= m < i ==> (#[trigger] idxs@[m]) < cols.len(),
                        proj_idxs_s(cols, strs_v(p@), 0, Seq::empty()) == proj_idxs_s(
                            cols,
                            strs_v(p@),
                            i as int,
                            idxs_v(idxs@),
                        ),
                    decreases np - i,
                {
                    match find_column(&schema.columns, &p[i]) {
                        None => {
                            return Err(EngineError::ColumnNotFound);
                        },
                        Some(j) => {
                            proof {
                                lemma_col_idx_props(cols, strs_v(p@)[i as int]);
                            }
                            let ghost acc0 = idxs_v(idxs@);
                            idxs.push(j);
                            proof {
                                assert(idxs_v(idxs@) =~= acc0.push(j as int));
                            }
                        },
                    }
                    i += 1;
                }
                labels = clone_strings(p);
            },
        }
        let ghost idv = if (*projection) is Some {
            idxs_v(idxs@)
        } else {
            all_idxs(cols.len() as int)
        };
        proof {
            assert(idxs_v(idxs@) == idv);
            assert(forall|m: int| 0 <= m < idxs@.len() ==> (#[trigger] idxs@[m]) < cols.len());
        }
        let stored = self.storage.scan(table);
        let ghost stored_v = rows_v(stored@);
        proof {
            assert(stored_v == self@.db[ti as int].rows);
            assert(table_wf(self@.db[ti as int]));
            assert forall|k: int| 0 <= k < stored@.len() implies (#[trigger] stored@[k])@.len()
                == schema.columns@.len() by {
                assert(row_fits(stored_v[k], cols));
                assert(stored_v[k].len() == row_v(stored@[k]@).len());
            }
        }
        let n = stored.len();
        let mut out: Vec<Vec<Value>> = Vec::new();
        let mut i: usize = 0;
        proof {
            assert(rows_v(out@) =~= Seq::<Seq<ValueV>>::empty());
        }
        while i < n
            invariant
                n == stored@.len(),
                i <= n,
                schema@ == self@.db[ti as int].schema,
                cols == self@.db[ti as int].schema.columns,
                stored_v == rows_v(stored@),
                stored_v == self@.db[ti as int].rows,
                forall|k: int| 0 <= k < stored@.len() ==> (#[trigger] stored@[k])@.len()
                    == schema.columns@.len(),
                forall|m: int| 0 <= m < idxs@.len() ==> (#[trigger] idxs@[m]) < cols.len(),
                idxs_v(idxs@) == idv,
                select_rows_s(stored_v, 0, *filter, cols, idv, Seq::empty()) == select_rows_s(
                    stored_v,
                    i as int,
                    *filter,
                    cols,
                    idv,
                    rows_v(out@),
                ),
            decreases n - i,
        {
            let pass = match filter {
                None => true,
                Some(e) => {
                    proof {
                        assert((*filter) == Some(*e));
                    }
                    match evaluate(e, &schema.columns, &stored[i]) {
                        Err(er) => {
                            return Err(er);
                        },
                        Ok(Value::Bool(b)) => b,
                        Ok(_) => {
                            return Err(EngineError::TypeMismatch);
                        },
                    }
                },
            };
            if pass {
                let ghost acc0 = rows_v(out@);
                let pr = project_row(&stored[i], &idxs);
                out.push(pr);
                proof {
                    assert(rows_v(out@) =~= acc0.push(project_row_s(stored_v[i as int], idv)));
                }
            }
            i += 1;
        }
        Ok(Payload::Select { labels, rows: out })
    }

    #[verifier::loop_isolation(false)]
    fn exec_delete(&mut self, table: &String, filter: &Option<Expr>) -> (r: Result<
        Payload,
        EngineError,
    >)
        requires
            old(self).wf(),
        ensures
            final(self).wf(),
            final(self)@ == step_delete(old(self)@, table@, *filter).glue,
            res_pay_v(r) == step_delete(old(self)@, table@, *filter).result,
    {
        proof {
            self.storage.lemma_no_txn();
        }
        let ti = match self.storage.find_table(table) {
            None => {
                return Err(EngineError::TableNotFound);
            },
            Some(t) => t,
        };
        proof {
            lemma_tab_idx_props(old(self)@.db, table@);
        }
        let schema = match self.storage.fetch_schema(table) {
            Some(s) => s,
            None => {
                return Err(EngineError::TableNotFound);
            },
        };
        let ghost db0 = old(self)@.db;
        let ghost cols = db0[ti as int].schema.columns;
        let orig = self.storage.scan(table);
        let ghost orig_v = rows_v(orig@);
        proof {
            assert(table_wf(db0[ti as int]));
            assert forall|k: int| 0 <= k < orig@.len() implies (#[trigger] orig@[k])@.len()
                == schema.columns@.len() by {
                assert(row_fits(orig_v[k], cols));
                assert(orig_v[k].len() == row_v(orig@[k]@).len());
            }
        }
        self.storage.begin();
        let n = orig.len();
        let mut i: usize = 0;
        let mut kept_len: usize = 0;
        let mut cnt: usize = 0;
        let ghost mut kept: Seq<Seq<ValueV>> = Seq::empty();
        proof {
            assert(kept + orig_v.skip(0) =~= orig_v);
            assert(db0.update(
                ti as int,
                TableV { schema: db0[ti as int].schema, rows: kept + orig_v.skip(0) },
            ) =~= db0);
        }
        while i < n
            invariant
                self.storage.in_txn(),
                self.storage.committed() == db0,
                self.next_uuid == old(self).next_uuid,
                i <= n,
                kept_len <= i,
                kept.len() == kept_len,
                cnt == i - kept_len,
                self.storage.cur() == db0.update(
                    ti as int,
                    TableV {
                        schema: db0[ti as int].schema,
                        rows: kept + orig_v.skip(i as int),
                    },
                ),
                delete_rows_s(orig_v, 0, *filter, cols, Seq::empty(), 0) == delete_rows_s(
                    orig_v,
                    i as int,
                    *filter,
                    cols,
                    kept,
                    cnt as int,
                ),
                forall|m: int| 0 <= m < kept.len() ==> row_fits(#[trigger] kept[m], cols),
            decreases n - i,
        {
            let pass = match filter {
                None => true,
                Some(e) => {
                    proof {
                        assert((*filter) == Some(*e));
                    }
                    match evaluate(e, &schema.columns, &orig[i]) {
                        Err(er) => {
                            self.storage.rollback();
                            return Err(er);
                        },
                        Ok(Value::Bool(b)) => b,
                        Ok(_) => {
                            self.storage.rollback();
                            return Err(EngineError::TypeMismatch);
                        },
                    }
                },
            };
            let ghost cur0 = self.storage.cur();
            if pass {
                proof {
                    crate::storage::lemma_tab_idx_same_names(cur0, db0, table@, 0);
                    assert((kept + orig_v.skip(i as int)).len() == kept.len() + (n - i));
                }
                self.storage.delete_row(table, kept_len);
                cnt += 1;
                proof {
                    assert((kept + orig_v.skip(i as int)).remove(kept_len as int) =~= kept
                        + orig_v.skip(i + 1));
                    assert(self.storage.cur() =~= db0.update(
                        ti as int,
                        TableV {
                            schema: db0[ti as int].schema,
                            rows: kept + orig_v.skip(i + 1),
                        },
                    ));
                }
            } else {
                kept_len += 1;
                proof {
                    let kept0 = kept;
                    kept = kept.push(orig_v[i as int]);
                    assert(kept + orig_v.skip(i + 1) =~= kept0 + orig_v.skip(i as int));
                    assert(row_fits(orig_v[i as int], cols));
                }
            }
            i += 1;
        }
        self.storage.commit();
        proof {
            assert(kept + orig_v.skip(n as int) =~= kept);
            assert(self@.db == db0.update(
                ti as int,
                TableV { schema: db0[ti as int].schema, rows: kept },
            ));
            let t2 = TableV { schema: db0[ti as int].schema, rows: kept };
            assert(table_wf(t2));
            assert forall|a: int, b: int|
                0 <= a < b < self@.db.len() implies self@.db[a].schema.name
                != self@.db[b].schema.name by {
                assert(self@.db[a].schema.name == db0[a].schema.name);
                assert(self@.db[b].schema.name == db0[b].schema.name);
            }
            assert forall|a: int| 0 <= a < self@.db.len() implies table_wf(
                #[trigger] self@.db[a],
            ) by {
                if a != ti as int {
                    assert(self@.db[a] == db0[a]);
                }
            }
        }
        Ok(Payload::Delete(cnt))
    }

    #[verifier::loop_isolation(false)]
    fn exec_insert(
        &mut self,
        table: &String,
        columns: &Vec<String>,
        rowset: &Vec<Vec<ValueExpr>>,
    ) -> (r: Result<Payload, EngineError>)
        requires
            old(self).wf(),
        ensures
            final(self).wf(),
            final(self)@ == step_insert(old(self)@, table@, strs_v(columns@), rowset@).glue,
            res_pay_v(r) == step_insert(old(self)@, table@, strs_v(columns@), rowset@).result,
    {
        proof {
            self.storage.lemma_no_txn();
        }
        let ti = match self.storage.find_table(table) {
            None => {
                return Err(EngineError::TableNotFound);
            },
            Some(t) => t,
        };
        proof {
            lemma_tab_idx_props(old(self)@.db, table@);
        }
        let schema = match self.storage.fetch_schema(table) {
            Some(s) => s,
            None => {
                return Err(EngineError::TableNotFound);
            },
        };
        let ghost db0 = old(self)@.db;
        let ghost cols = db0[ti as int].schema.columns;
        let ncn = columns.len();
        let mut ci: usize = 0;
        while ci < ncn
            invariant
                ci <= ncn,
                check_names_s(cols, strs_v(columns@), 0) == check_names_s(
                    cols,
                    strs_v(columns@),
                    ci as int,
                ),
            decreases ncn - ci,
        {
            match find_column(&schema.columns, &columns[ci]) {
                None => {
                    return Err(EngineError::ColumnNotFound);
                },
                Some(_) => {},
            }
            ci += 1;
        }
        let orig = self.storage.scan(table);
        let ghost orig_v = rows_v(orig@);
        proof {
            assert(table_wf(db0[ti as int]));
        }
        self.storage.begin();
        let mut cur_rows = orig;
        let mut u: u128 = self.next_uuid;
        let nrows = rowset.len();
        let mut ri: usize = 0;
        while ri < nrows
            invariant
                self.storage.in_txn(),
                self.storage.committed() == db0,
                self.next_uuid == old(self).next_uuid,
                ri <= nrows,
                self.storage.cur() == db0.update(
                    ti as int,
                    TableV { schema: db0[ti as int].schema, rows: rows_v(cur_rows@) },
                ),
                insert_rows_s(
                    db0[ti as int],
                    rowset@,
                    strs_v(columns@),
                    0,
                    old(self).next_uuid,
                ) == insert_rows_s(
                    TableV { schema: db0[ti as int].schema, rows: rows_v(cur_rows@) },
                    rowset@,
                    strs_v(columns@),
                    ri as int,
                    u,
                ),
                forall|m: int| 0 <= m < cur_rows@.len() ==> row_fits(
                    #[trigger] rows_v(cur_rows@)[m],
                    cols,
                ),
            decreases nrows - ri,
        {
            let vals = &rowset[ri];
            let arity = if columns.len() == 0 {
                schema.columns.len()
            } else {
                columns.len()
            };
            if vals.len() != arity {
                self.storage.rollback();
                return Err(EngineError::ParseError);
            }
            let rvu = resolve_row(vals, u);
            let rv = rvu.0;
            let u2 = rvu.1;
            match build_row(&schema.columns, columns, &rv) {
                Err(e) => {
                    self.storage.rollback();
                    return Err(e);
                },
                Ok(nr) => {
                    proof {
                        lemma_build_row_fits(cols, strs_v(columns@), row_v(rv@), 0, Seq::empty());
                        assert(row_fits(row_v(nr@), cols));
                        assert forall|m: int| 0 <= m < cur_rows@.len() implies (
                        #[trigger] cur_rows@[m])@.len() == schema.columns@.len() by {
                            assert(row_fits(rows_v(cur_rows@)[m], cols));
                            assert(rows_v(cur_rows@)[m].len() == row_v(cur_rows@[m]@).len());
                        }
                    }
                    if !check_unique(&cur_rows, &schema.columns, &nr) {
                        self.storage.rollback();
                        return Err(EngineError::UniqueViolation);
                    }
                    let nr2 = clone_row(&nr);
                    let ghost cur0 = self.storage.cur();
                    let ghost rows0 = rows_v(cur_rows@);
                    proof {
                        crate::storage::lemma_tab_idx_same_names(cur0, db0, table@, 0);
                    }
                    self.storage.insert_row(table, nr2);
                    cur_rows.push(nr);
                    u = u2;
                    proof {
                        assert(rows_v(cur_rows@) =~= rows0.push(row_v(nr@)));
                        assert(self.storage.cur() =~= db0.update(
                            ti as int,
                            TableV {
                                schema: db0[ti as int].schema,
                                rows: rows_v(cur_rows@),
                            },
                        ));
                    }
                },
            }
            ri += 1;
        }
        self.storage.commit();
        self.next_uuid = u;
        proof {
            let t2 = TableV { schema: db0[ti as int].schema, rows: rows_v(cur_rows@) };
            assert(self@.db == db0.update(ti as int, t2));
            assert(table_wf(t2));
            assert forall|a: int, b: int|
                0 <= a < b < self@.db.len() implies self@.db[a].schema.name
                != self@.db[b].schema.name by {
                assert(self@.db[a].schema.name == db0[a].schema.name);
                assert(self@.db[b].schema.name == db0[b].schema.name);
            }
            assert forall|a: int| 0 <= a < self@.db.len() implies table_wf(
                #[trigger] self@.db[a],
            ) by {
                if a != ti as int {
                    assert(self@.db[a] == db0[a]);
                }
            }
        }
        Ok(Payload::Insert(rowset.len()))
    }

    #[verifier::loop_isolation(false)]
    fn exec_update(
        &mut self,
        table: &String,
        assignments: &Vec<Assignment>,
        filter: &Option<Expr>,
    ) -> (r: Result<Payload, EngineError>)
        requires
            old(self).wf(),
        ensures
            final(self).wf(),
            final(self)@ == step_update(old(self)@, table@, assignments@, *filter).glue,
            res_pay_v(r) == step_update(old(self)@, table@, assignments@, *filter).result,
    {
        proof {
            self.storage.lemma_no_txn();
        }
        let ti = match self.storage.find_table(table) {
            None => {
                return Err(EngineError::TableNotFound);
            },
            Some(t) => t,
        };
        proof {
            lemma_tab_idx_props(old(self)@.db, table@);
        }
        let schema = match self.storage.fetch_schema(table) {
            Some(s) => s,
            None => {
                return Err(EngineError::TableNotFound);
            },
        };
        let ghost db0 = old(self)@.db;
        let ghost cols = db0[ti as int].schema.columns;
        let ghost asg_names = assignments@.map_values(|a: Assignment| a.column@);
        let na = assignments.len();
        let mut ci: usize = 0;
        while ci < na
            invariant
                ci <= na,
                check_names_s(cols, asg_names, 0) == check_names_s(cols, asg_names, ci as int),
            decreases na - ci,
        {
            match find_column(&schema.columns, &assignments[ci].column) {
                None => {
                    return Err(EngineError::ColumnNotFound);
                },
                Some(_) => {},
            }
            ci += 1;
        }
        let orig = self.storage.scan(table);
        proof {
            assert(table_wf(db0[ti as int]));
        }
        self.storage.begin();
        let mut cur_rows = orig;
        let mut cnt: usize = 0;
        let n = cur_rows.len();
        let mut i: usize = 0;
        while i < n
            invariant
                self.storage.in_txn(),
                self.storage.committed() == db0,
                self.next_uuid == old(self).next_uuid,
                i <= n,
                cnt <= i,
                cur_rows@.len() == n,
                self.storage.cur() == db0.update(
                    ti as int,
                    TableV { schema: db0[ti as int].schema, rows: rows_v(cur_rows@) },
                ),
                update_rows_s(db0[ti as int].rows, 0, *filter, cols, assignments@, 0)
                    == update_rows_s(
                    rows_v(cur_rows@),
                    i as int,
                    *filter,
                    cols,
                    assignments@,
                    cnt as int,
                ),
                forall|m: int| 0 <= m < cur_rows@.len() ==> row_fits(
                    #[trigger] rows_v(cur_rows@)[m],
                    cols,
                ),
            decreases n - i,
        {
            proof {
                assert(row_fits(rows_v(cur_rows@)[i as int], cols));
                assert(rows_v(cur_rows@)[i as int].len() == row_v(cur_rows@[i as int]@).len());
            }
            let pass = match filter {
                None => true,
                Some(e) => {
                    proof {
                        assert((*filter) == Some(*e));
                    }
                    match evaluate(e, &schema.columns, &cur_rows[i]) {
                        Err(er) => {
                            self.storage.rollback();
                            return Err(er);
                        },
                        Ok(Value::Bool(b)) => b,
                        Ok(_) => {
                            self.storage.rollback();
                            return Err(EngineError::TypeMismatch);
                        },
                    }
                },
            };
            if pass {
                match apply_asgs(&schema.columns, assignments, &cur_rows[i]) {
                    Err(e) => {
                        self.storage.rollback();
                        return Err(e);
                    },
                    Ok(nrow) => {
                        proof {
                            lemma_apply_asgs_fits(
                                cols,
                                assignments@,
                                row_v(cur_rows@[i as int]@),
                                0,
                                row_v(cur_rows@[i as int]@),
                            );
                            assert(row_fits(row_v(nrow@), cols));
                            assert forall|m: int| 0 <= m < cur_rows@.len() implies (
                            #[trigger] cur_rows@[m])@.len() == schema.columns@.len() by {
                                assert(row_fits(rows_v(cur_rows@)[m], cols));
                                assert(rows_v(cur_rows@)[m].len() == row_v(cur_rows@[m]@).len());
                            }
                        }
                        if !check_unique_excl(&cur_rows, &schema.columns, &nrow, i) {
                            self.storage.rollback();
                            return Err(EngineError::UniqueViolation);
                        }
                        let nrow2 = clone_row(&nrow);
                        let ghost cur0 = self.storage.cur();
                        let ghost rows0 = rows_v(cur_rows@);
                        proof {
                            crate::storage::lemma_tab_idx_same_names(cur0, db0, table@, 0);
                        }
                        self.storage.update_row(table, i, nrow2);
                        cur_rows.remove(i);
                        cur_rows.insert(i, nrow);
                        cnt += 1;
                        proof {
                            assert(rows_v(cur_rows@) =~= rows0.update(i as int, row_v(nrow@)));
                            assert(self.storage.cur() =~= db0.update(
                                ti as int,
                                TableV {
                                    schema: db0[ti as int].schema,
                                    rows: rows_v(cur_rows@),
                                },
                            ));
                        }
                    },
                }
            }
            i += 1;
        }
        self.storage.commit();
        proof {
            let t2 = TableV { schema: db0[ti as int].schema, rows: rows_v(cur_rows@) };
            assert(self@.db == db0.update(ti as int, t2));
            assert(table_wf(t2));
            assert forall|a: int, b: int|
                0 <= a < b < self@.db.len() implies self@.db[a].schema.name
                != self@.db[b].schema.name by {
                assert(self@.db[a].schema.name == db0[a].schema.name);
                assert(self@.db[b].schema.name == db0[b].schema.name);
            }
            assert forall|a: int| 0 <= a < self@.db.len() implies table_wf(
                #[trigger] self@.db[a],
            ) by {
                if a != ti as int {
                    assert(self@.db[a] == db0[a]);
                }
            }
        }
        Ok(Payload::Update(cnt))
    }

    /// The schema registered under this name, when there is one.
    pub fn get_table(&self, name: &String) -> (r: Option<TableSchema>)
        requires
            self.wf(),
        ensures
            match r {
                Some(s) => tab_idx(self@.db, name@) != -1 && s@ == self@.db[tab_idx(
                    self@.db,
                    name@,
                )].schema,
                None => tab_idx(self@.db, name@) == -1,
            },
    {
        proof {
            self.storage.lemma_no_txn();
        }
        self.storage.fetch_schema(name)
    }

    /// Removes the table of this name, schema and rows together.
    pub fn drop_table(&mut self, name: &String) -> (r: Result<(), EngineError>)
        requires
            old(self).wf(),
        ensures
            final(self).wf(),
            tab_idx(old(self)@.db, name@) == -1 ==> r == Err::<(), EngineError>(
                EngineError::TableNotFound,
            ) && final(self)@ == old(self)@,
            tab_idx(old(self)@.db, name@) != -1 ==> r == Ok::<(), EngineError>(())
                && final(self)@ == (GlueV {
                db: old(self)@.db.remove(tab_idx(old(self)@.db, name@)),
                next_uuid: old(self)@.next_uuid,
            }),
    {
        proof {
            self.storage.lemma_no_txn();
        }
        match self.storage.find_table(name) {
            None => Err(EngineError::TableNotFound),
            Some(_) => {
                proof {
                    lemma_tab_idx_props(old(self)@.db, name@);
                }
                self.storage.begin();
                self.storage.delete_schema(name);
                self.storage.commit();
                proof {
                    let db0 = old(self)@.db;
                    let ti = tab_idx(db0, name@);
                    assert(self@.db == db0.remove(ti));
                    assert forall|a: int, b: int|
                        0 <= a < b < self@.db.len() implies self@.db[a].schema.name
                        != self@.db[b].schema.name by {
                        let a0: int = if a < ti {
                            a
                        } else {
                            a + 1
                        };
                        let b0: int = if b < ti {
                            b
                        } else {
                            b + 1
                        };
                        assert(self@.db[a] == db0[a0] && self@.db[b] == db0[b0]);
                    }
                    assert forall|a: int| 0 <= a < self@.db.len() implies table_wf(
                        #[trigger] self@.db[a],
                    ) by {
                        let a0: int = if a < ti {
                            a
                        } else {
                            a + 1
                        };
                        assert(self@.db[a] == db0[a0]);
                    }
                }
                Ok(())
            },
        }
    }

    /// Executes one statement against the engine: validates it, enforces
    /// the constraints, applies it inside one storage transaction, and
    /// returns its payload. A failed statement returns its error and
    /// leaves the committed state exactly as it was.
    pub fn execute(&mut self, stmt: &Statement) -> (r: Result<Payload, EngineError>)
        requires
            old(self).wf(),
        ensures
            final(self).wf(),
            final(self)@ == step(old(self)@, *stmt).glue,
            res_pay_v(r) == step(old(self)@, *stmt).result,
    {
        match stmt {
            Statement::CreateTable { schema, if_not_exists } => self.exec_create(
                schema,
                *if_not_exists,
            ),
            Statement::Insert { table, columns, rows } => self.exec_insert(table, columns, rows),
            Statement::Select { table, filter, projection } => self.exec_select(
                table,
                filter,
                projection,
            ),
            Statement::Update { table, assignments, filter } => self.exec_update(
                table,
                assignments,
                filter,
            ),
            Statement::Delete { table, filter } => self.exec_delete(table, filter),
        }
    }
}

/// One applying helper of the executor: the row a SET list makes of one
/// existing row.
fn apply_asgs(cols: &Vec<ColumnDef>, asgs: &Vec<Assignment>, row: &Vec<Value>) -> (r: Result<
    Vec<Value>,
    EngineError,
>)
    requires
        row@.len() == cols@.len(),
    ensures
        match r {
            Ok(nr) => apply_asgs_s(cols_v(cols@), asgs@, row_v(row@), 0, row_v(row@))
                == Ok::<Seq<ValueV>, EngineError>(row_v(nr@)),
            Err(e) => apply_asgs_s(cols_v(cols@), asgs@, row_v(row@), 0, row_v(row@))
                == Err::<Seq<ValueV>, EngineError>(e),
        },
{
    let mut nr = clone_row(row);
    proof {
        assert(nr@.len() == row_v(nr@).len());
    }
    let na = asgs.len();
    let mut k: usize = 0;
    #[verifier::loop_isolation(false)]
    while k < na
        invariant
            k <= na,
            nr@.len() == cols@.len(),
            apply_asgs_s(cols_v(cols@), asgs@, row_v(row@), 0, row_v(row@)) == apply_asgs_s(
                cols_v(cols@),
                asgs@,
                row_v(row@),
                k as int,
                row_v(nr@),
            ),
        decreases na - k,
    {
        let j = match find_column(cols, &asgs[k].column) {
            None => {
                return Err(EngineError::ColumnNotFound);
            },
            Some(j) => {
                proof {
                    lemma_col_idx_props(cols_v(cols@), asgs@[k as int].column@);
                }
                j
            },
        };
        let v = match evaluate(&asgs[k].value, cols, row) {
            Err(e) => {
                return Err(e);
            },
            Ok(v) => v,
        };
        match coerce_cell(&v, &cols[j]) {
            Err(e) => {
                return Err(e);
            },
            Ok(w) => {
                let ghost prev = row_v(nr@);
                nr.remove(j);
                nr.insert(j, w);
                proof {
                    assert(row_v(nr@) =~= prev.update(j as int, w@));
                }
            },
        }
        k += 1;
    }
    Ok(nr)
}

} // verus!
