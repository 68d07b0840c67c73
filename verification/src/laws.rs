use vstd::prelude::*;

verus! {

use crate::ast::{Assignment, CmpOp, Expr, PayloadV, ValueExpr};
use crate::catalog::{ColumnDefV, TableSchema, schema_wf};
use crate::catalog::{col_idx, lemma_col_idx_props};
use crate::engine::{
    GlueV, all_idxs, apply_asgs_s, build_row_s, check_names_s, coerce_cell_s, delete_rows_s,
    insert_rows_s, project_row_s, resolve_vals_s, row_passes_s, select_rows_s, step_create,
    step_delete, step_insert, step_select, step_update, unique_ok, unique_ok_excl, update_rows_s,
};
use crate::error::EngineError;
use crate::storage::{
    TableV, cell_fits, db_wf, lemma_tab_idx_props, lemma_tab_idx_same_names, row_fits, tab_idx,
    table_wf,
};
use crate::value::{Value, ValueOrder, ValueV, compare_s, lex_bytes, lex_chars};

/// Creating a table with IF NOT EXISTS twice never fails: both calls
/// return the Create payload, and the second call leaves the catalog, the
/// rows and the generator exactly as the first call left them.
pub proof fn lemma_create_if_not_exists_idempotent(g: GlueV, schema: TableSchema)
    requires
        schema_wf(schema@),
    ensures
        ({
            let s1 = step_create(g, schema, true);
            let s2 = step_create(s1.glue, schema, true);
            &&& s1.result == Ok::<PayloadV, EngineError>(PayloadV::Create)
            &&& s2.result == Ok::<PayloadV, EngineError>(PayloadV::Create)
            &&& s2.glue == s1.glue
        }),
{
    let ti = tab_idx(g.db, schema@.name);
    if ti == -1 {
        let db1 = g.db.push(TableV { schema: schema@, rows: Seq::empty() });
        lemma_tab_idx_props(db1, schema@.name);
        assert(db1[g.db.len() as int].schema.name == schema@.name);
    }
}

/// `delete_rows_s` over a suffix no row of which the filter accepts keeps
/// every row and counts nothing.
proof fn lemma_delete_none(
    rows: Seq<Seq<ValueV>>,
    f: Expr,
    cols: Seq<ColumnDefV>,
    kept: Seq<Seq<ValueV>>,
    cnt: int,
    i: int,
)
    requires
        0 <= i <= rows.len(),
        forall|m: int|
            i <= m < rows.len() ==> row_passes_s(Some(f), cols, #[trigger] rows[m]) == Ok::<
                bool,
                EngineError,
            >(false),
    ensures
        delete_rows_s(rows, i, Some(f), cols, kept, cnt) == Ok::<
            (Seq<Seq<ValueV>>, int),
            EngineError,
        >((kept + rows.skip(i), cnt)),
    decreases rows.len() - i,
{
    if i == rows.len() {
        assert(kept + rows.skip(i) =~= kept);
    } else {
        lemma_delete_none(rows, f, cols, kept.push(rows[i]), cnt, i + 1);
        assert(kept.push(rows[i]) + rows.skip(i + 1) =~= kept + rows.skip(i));
    }
}

/// Deleting with a filter no stored row satisfies returns `Delete(0)` and
/// leaves the engine — catalog, rows and generator — exactly as it was.
pub proof fn lemma_delete_no_match_is_noop(g: GlueV, name: Seq<char>, f: Expr)
    requires
        tab_idx(g.db, name) != -1,
        ({
            let t = g.db[tab_idx(g.db, name)];
            forall|m: int|
                0 <= m < t.rows.len() ==> row_passes_s(Some(f), t.schema.columns, #[trigger] t.rows[m])
                    == Ok::<bool, EngineError>(false)
        }),
    ensures
        step_delete(g, name, Some(f)).result == Ok::<PayloadV, EngineError>(PayloadV::Delete(0)),
        step_delete(g, name, Some(f)).glue == g,
{
    let ti = tab_idx(g.db, name);
    lemma_tab_idx_props(g.db, name);
    let t = g.db[ti];
    lemma_delete_none(t.rows, f, t.schema.columns, Seq::empty(), 0, 0);
    assert(Seq::<Seq<ValueV>>::empty() + t.rows.skip(0) =~= t.rows);
    assert(TableV { schema: t.schema, rows: t.rows } == t);
    assert(g.db.update(ti, t) =~= g.db);
}

/// `select_rows_s` with no filter and the identity projection returns
/// every row, in order, appended to the accumulator.
proof fn lemma_select_all(
    rows: Seq<Seq<ValueV>>,
    cols: Seq<ColumnDefV>,
    acc: Seq<Seq<ValueV>>,
    i: int,
)
    requires
        0 <= i <= rows.len(),
        forall|m: int| 0 <= m < rows.len() ==> (#[trigger] rows[m]).len() == cols.len(),
    ensures
        select_rows_s(rows, i, None::<Expr>, cols, all_idxs(cols.len() as int), acc) == Ok::<
            Seq<Seq<ValueV>>,
            EngineError,
        >(acc + rows.skip(i)),
    decreases rows.len() - i,
{
    if i == rows.len() {
        assert(acc + rows.skip(i) =~= acc);
    } else {
        assert(project_row_s(rows[i], all_idxs(cols.len() as int)) =~= rows[i]);
        lemma_select_all(rows, cols, acc.push(rows[i]), i + 1);
        assert(acc.push(rows[i]) + rows.skip(i + 1) =~= acc + rows.skip(i));
    }
}

/// Round trip: after an insert of one row succeeds, an unfiltered and
/// unprojected SELECT returns the table's prior rows with the new row
/// last, each in the schema's declared column order, under the schema's
/// own column names as labels. The new row is the given values resolved
/// and coerced by the insert itself.
pub proof fn lemma_insert_select_round_trip(
    g: GlueV,
    name: Seq<char>,
    names: Seq<Seq<char>>,
    vals: Vec<ValueExpr>,
)
    requires
        db_wf(g.db),
        step_insert(g, name, names, seq![vals]).result is Ok,
    ensures
        ({
            let ti = tab_idx(g.db, name);
            let t = g.db[ti];
            let rv = resolve_vals_s(vals@, 0, g.next_uuid, Seq::empty());
            let nr = build_row_s(t.schema.columns, names, rv.0, 0, Seq::empty())->Ok_0;
            let g1 = step_insert(g, name, names, seq![vals]).glue;
            let sel = step_select(g1, name, None::<Expr>, None::<Vec<String>>);
            &&& g1.db[ti].rows == t.rows.push(nr)
            &&& sel.result == Ok::<PayloadV, EngineError>(
                PayloadV::Select {
                    labels: t.schema.columns.map_values(|c: ColumnDefV| c.name),
                    rows: t.rows.push(nr),
                },
            )
        }),
{
    let ti = tab_idx(g.db, name);
    let t = g.db[ti];
    let rowset = seq![vals];
    assert(rowset[0] == vals);
    let rv = resolve_vals_s(vals@, 0, g.next_uuid, Seq::empty());
    let nr = build_row_s(t.schema.columns, names, rv.0, 0, Seq::empty())->Ok_0;
    let t2 = TableV { schema: t.schema, rows: t.rows.push(nr) };
    assert(insert_rows_s(t2, rowset, names, 1, rv.1) == Ok::<(TableV, u128), EngineError>(
        (t2, rv.1),
    ));
    let g1 = step_insert(g, name, names, rowset).glue;
    assert(g1.db == g.db.update(ti, t2));
    lemma_tab_idx_props(g.db, name);
    lemma_tab_idx_same_names(g1.db, g.db, name, 0);
    assert(tab_idx(g1.db, name) == ti);
    assert(g1.db[ti] == t2);
    crate::engine::lemma_build_row_fits(t.schema.columns, names, rv.0, 0, Seq::empty());
    assert(table_wf(t));
    assert forall|m: int| 0 <= m < t2.rows.len() implies (#[trigger] t2.rows[m]).len()
        == t.schema.columns.len() by {
        if m < t.rows.len() {
            assert(row_fits(t.rows[m], t.schema.columns));
        } else {
            assert(t2.rows[m] == nr);
        }
    }
    lemma_select_all(t2.rows, t.schema.columns, Seq::empty(), 0);
    assert(Seq::<Seq<ValueV>>::empty() + t2.rows.skip(0) =~= t2.rows);
}

/// Inserting a row that repeats, in a PRIMARY KEY or UNIQUE column, a
/// non-null value some stored row already holds there fails with
/// UniqueViolation and leaves the engine — the table's row count too —
/// exactly as it was.
pub proof fn lemma_insert_duplicate_unique_rejected(
    g: GlueV,
    name: Seq<char>,
    names: Seq<Seq<char>>,
    vals: Vec<ValueExpr>,
    j: int,
    k: int,
)
    requires
        tab_idx(g.db, name) != -1,
        ({
            let t = g.db[tab_idx(g.db, name)];
            let cols = t.schema.columns;
            let rv = resolve_vals_s(vals@, 0, g.next_uuid, Seq::empty());
            &&& check_names_s(cols, names, 0) == Ok::<(), EngineError>(())
            &&& vals@.len() == (if names.len() == 0 {
                cols.len() as int
            } else {
                names.len() as int
            })
            &&& build_row_s(cols, names, rv.0, 0, Seq::empty()) is Ok
            &&& 0 <= j < cols.len()
            &&& (cols[j].primary_key || cols[j].unique)
            &&& 0 <= k < t.rows.len()
            &&& !(build_row_s(cols, names, rv.0, 0, Seq::empty())->Ok_0[j] is Null)
            &&& t.rows[k][j] == build_row_s(cols, names, rv.0, 0, Seq::empty())->Ok_0[j]
        }),
    ensures
        step_insert(g, name, names, seq![vals]).result == Err::<PayloadV, EngineError>(
            EngineError::UniqueViolation,
        ),
        step_insert(g, name, names, seq![vals]).glue == g,
{
    let ti = tab_idx(g.db, name);
    let t = g.db[ti];
    let cols = t.schema.columns;
    let rowset = seq![vals];
    assert(rowset[0] == vals);
    let rv = resolve_vals_s(vals@, 0, g.next_uuid, Seq::empty());
    let nr = build_row_s(cols, names, rv.0, 0, Seq::empty())->Ok_0;
    assert(t.rows[k][j] == nr[j]);
    assert(!unique_ok(t.rows, cols, nr));
    assert(insert_rows_s(t, rowset, names, 0, g.next_uuid) == Err::<
        (TableV, u128),
        EngineError,
    >(EngineError::UniqueViolation));
}


/// Lexicographic order of character sequences reports Equal exactly on
/// equal sequences.
proof fn lemma_lex_chars_eq(a: Seq<char>, b: Seq<char>)
    ensures
        (lex_chars(a, b) == ValueOrder::Equal) <==> (a == b),
    decreases a.len(),
{
    if a.len() == 0 && b.len() == 0 {
        assert(a =~= b);
    } else if a.len() == 0 || b.len() == 0 {
    } else if a[0] as int == b[0] as int {
        assert(a[0] == b[0]);
        lemma_lex_chars_eq(a.skip(1), b.skip(1));
        if a.skip(1) == b.skip(1) {
            assert forall|k: int| 0 <= k < a.len() implies a[k] == b[k] by {
                if k >= 1 {
                    assert(a[k] == a.skip(1)[k - 1]);
                    assert(b[k] == b.skip(1)[k - 1]);
                }
            }
            assert(a =~= b);
        }
        if a == b {
            assert(a.skip(1) =~= b.skip(1));
        }
    } else {
        if a == b {
            assert(a[0] == b[0]);
        }
    }
}

/// Lexicographic order of byte sequences reports Equal exactly on equal
/// sequences.
proof fn lemma_lex_bytes_eq(a: Seq<u8>, b: Seq<u8>)
    ensures
        (lex_bytes(a, b) == ValueOrder::Equal) <==> (a == b),
    decreases a.len(),
{
    if a.len() == 0 && b.len() == 0 {
        assert(a =~= b);
    } else if a.len() == 0 || b.len() == 0 {
    } else if a[0] == b[0] {
        lemma_lex_bytes_eq(a.skip(1), b.skip(1));
        if a.skip(1) == b.skip(1) {
            assert forall|k: int| 0 <= k < a.len() implies a[k] == b[k] by {
                if k >= 1 {
                    assert(a[k] == a.skip(1)[k - 1]);
                    assert(b[k] == b.skip(1)[k - 1]);
                }
            }
            assert(a =~= b);
        }
        if a == b {
            assert(a.skip(1) =~= b.skip(1));
        }
    } else {
        if a == b {
            assert(a[0] == b[0]);
        }
    }
}

/// A comparison that succeeds reports Equal exactly on equal values.
proof fn lemma_compare_eq(a: ValueV, b: ValueV)
    requires
        compare_s(a, b) is Ok,
    ensures
        (compare_s(a, b) == Ok::<ValueOrder, EngineError>(ValueOrder::Equal)) <==> (a == b),
{
    match (a, b) {
        (ValueV::Str(x), ValueV::Str(y)) => lemma_lex_chars_eq(x, y),
        (ValueV::Bytes(x), ValueV::Bytes(y)) => lemma_lex_bytes_eq(x, y),
        _ => {},
    }
}

/// Under distinct column names, a column resolves to its own position.
proof fn lemma_col_idx_self(cols: Seq<ColumnDefV>, c: int)
    requires
        0 <= c < cols.len(),
        forall|m: int| 0 <= m < c ==> cols[m].name != cols[c].name,
    ensures
        col_idx(cols, cols[c].name) == c,
{
    lemma_col_idx_props(cols, cols[c].name);
}

/// The filter `column = literal`, for a filled literal whose variant is
/// the column's own: it accepts exactly the rows whose cell there equals
/// the literal, and never fails on a row in the table's layout.
proof fn lemma_eval_eq_filter(
    cols: Seq<ColumnDefV>,
    c: int,
    cname: String,
    vlit: Value,
    row: Seq<ValueV>,
)
    requires
        0 <= c < cols.len(),
        cname@ == cols[c].name,
        forall|m: int| 0 <= m < c ==> cols[m].name != cols[c].name,
        row_fits(row, cols),
        cell_fits(vlit@, cols[c]),
        !(vlit@ is Null),
    ensures
        row_passes_s(
            Some(
                Expr::Cmp(
                    CmpOp::Eq,
                    Box::new(Expr::Column(cname)),
                    Box::new(Expr::Literal(vlit)),
                ),
            ),
            cols,
            row,
        ) == Ok::<bool, EngineError>(row[c] == vlit@),
{
    lemma_col_idx_self(cols, c);
    let x = row[c];
    assert(cell_fits(x, cols[c]));
    if !(x is Null) {
        match x {
            ValueV::Null => {},
            ValueV::Bool(_) => {
                assert(vlit@ is Bool);
            },
            ValueV::I64(_) => {
                assert(vlit@ is I64);
            },
            ValueV::Str(_) => {
                assert(vlit@ is Str);
            },
            ValueV::Uuid(_) => {
                assert(vlit@ is Uuid);
            },
            ValueV::Timestamp(_) => {
                assert(vlit@ is Timestamp);
            },
            ValueV::Bytes(_) => {
                assert(vlit@ is Bytes);
            },
        }
        assert(compare_s(x, vlit@) is Ok);
        lemma_compare_eq(x, vlit@);
    }
    assert(crate::eval::eval_s(Expr::Column(cname), cols, row) == Ok::<ValueV, EngineError>(
        row[c],
    ));
    assert(crate::eval::eval_s(Expr::Literal(vlit), cols, row) == Ok::<ValueV, EngineError>(
        vlit@,
    ));
    assert(crate::eval::eval_s(eq_filter(cname, vlit), cols, row) == Ok::<ValueV, EngineError>(
        ValueV::Bool(row[c] == vlit@),
    ));
}

/// The index of the first row at or after `i` whose cell in column `c`
/// equals `v`, and -1 when there is none.
pub open spec fn first_match(rows: Seq<Seq<ValueV>>, c: int, v: ValueV, i: int) -> int
    decreases rows.len() - i,
{
    if i < 0 || i >= rows.len() {
        -1
    } else if rows[i][c] == v {
        i
    } else {
        first_match(rows, c, v, i + 1)
    }
}

/// The one SET clause `column := literal`.
pub open spec fn set_asgs(cname2: String, nlit: Value) -> Seq<Assignment> {
    seq![Assignment { column: cname2, value: Expr::Literal(nlit) }]
}

/// The filter `column = literal`.
pub open spec fn eq_filter(cname: String, vlit: Value) -> Expr {
    Expr::Cmp(CmpOp::Eq, Box::new(Expr::Column(cname)), Box::new(Expr::Literal(vlit)))
}

/// The shared premises of the update laws: the assignment column is `c`
/// of a layout with distinct names up to `c`, every row lies in the
/// layout, the old and the new literal are filled values of the column's
/// variant and differ, no row already holds the new value there, at most
/// one row holds the old one, and values in PRIMARY KEY or UNIQUE columns
/// are pairwise distinct where filled.
pub open spec fn update_law_premises(
    rows: Seq<Seq<ValueV>>,
    cols: Seq<ColumnDefV>,
    c: int,
    cname: String,
    cname2: String,
    olit: Value,
    nlit: Value,
) -> bool {
    &&& 0 <= c < cols.len()
    &&& cname@ == cols[c].name
    &&& cname2@ == cols[c].name
    &&& (forall|m: int| 0 <= m < c ==> cols[m].name != cols[c].name)
    &&& (forall|m: int| 0 <= m < rows.len() ==> row_fits(#[trigger] rows[m], cols))
    &&& cell_fits(olit@, cols[c])
    &&& !(olit@ is Null)
    &&& cell_fits(nlit@, cols[c])
    &&& !(nlit@ is Null)
    &&& nlit@ != olit@
    &&& (forall|k: int| 0 <= k < rows.len() ==> #[trigger] rows[k][c] != nlit@)
    &&& (forall|k: int, l: int|
        0 <= k < rows.len() && 0 <= l < rows.len() && #[trigger] rows[k][c] == olit@
            && #[trigger] rows[l][c] == olit@ ==> k == l)
    &&& (forall|j: int, k: int, l: int|
        0 <= j < cols.len() && (cols[j].primary_key || cols[j].unique) && 0 <= k < l < rows.len()
            && !(#[trigger] rows[k][j] is Null) ==> rows[k][j] != #[trigger] rows[l][j])
}

/// `update_rows_s` over a suffix in which no row holds the old value
/// rewrites nothing.
proof fn lemma_update_no_more(
    cur: Seq<Seq<ValueV>>,
    cols: Seq<ColumnDefV>,
    c: int,
    cname: String,
    cname2: String,
    olit: Value,
    nlit: Value,
    i: int,
    cnt: int,
)
    requires
        0 <= c < cols.len(),
        cname@ == cols[c].name,
        forall|m: int| 0 <= m < c ==> cols[m].name != cols[c].name,
        forall|m: int| 0 <= m < cur.len() ==> row_fits(#[trigger] cur[m], cols),
        cell_fits(olit@, cols[c]),
        !(olit@ is Null),
        0 <= i <= cur.len(),
        forall|m: int| i <= m < cur.len() ==> #[trigger] cur[m][c] != olit@,
    ensures
        update_rows_s(cur, i, Some(eq_filter(cname, olit)), cols, set_asgs(cname2, nlit), cnt)
            == Ok::<(Seq<Seq<ValueV>>, int), EngineError>((cur, cnt)),
    decreases cur.len() - i,
{
    if i < cur.len() {
        lemma_eval_eq_filter(cols, c, cname, olit, cur[i]);
        lemma_update_no_more(cur, cols, c, cname, cname2, olit, nlit, i + 1, cnt);
    }
}

/// `update_rows_s` under the update-law premises: it succeeds, rewrites
/// the one row that holds the old value — when there is one — to hold
/// the new value, and counts it.
proof fn lemma_update_seek(
    rows: Seq<Seq<ValueV>>,
    cols: Seq<ColumnDefV>,
    c: int,
    cname: String,
    cname2: String,
    olit: Value,
    nlit: Value,
    i: int,
)
    requires
        update_law_premises(rows, cols, c, cname, cname2, olit, nlit),
        0 <= i <= rows.len(),
        forall|m: int| 0 <= m < i ==> #[trigger] rows[m][c] != olit@,
    ensures
        ({
            let m = first_match(rows, c, olit@, i);
            let r = update_rows_s(
                rows,
                i,
                Some(eq_filter(cname, olit)),
                cols,
                set_asgs(cname2, nlit),
                0,
            );
            if m == -1 {
                r == Ok::<(Seq<Seq<ValueV>>, int), EngineError>((rows, 0))
            } else {
                r == Ok::<(Seq<Seq<ValueV>>, int), EngineError>(
                    (rows.update(m, rows[m].update(c, nlit@)), 1),
                )
            }
        }),
    decreases rows.len() - i,
{
    if i < rows.len() {
        lemma_eval_eq_filter(cols, c, cname, olit, rows[i]);
        if rows[i][c] == olit@ {
            lemma_col_idx_self(cols, c);
            let nr = rows[i].update(c, nlit@);
            assert(coerce_cell_s(nlit@, cols[c]) == Ok::<ValueV, EngineError>(nlit@));
            assert(apply_asgs_s(cols, set_asgs(cname2, nlit), rows[i], 0, rows[i]) == Ok::<
                Seq<ValueV>,
                EngineError,
            >(nr)) by {
                assert(set_asgs(cname2, nlit)[0].column@ == cols[c].name);
                assert(apply_asgs_s(cols, set_asgs(cname2, nlit), rows[i], 1, nr) == Ok::<
                    Seq<ValueV>,
                    EngineError,
                >(nr));
            }
            assert(unique_ok_excl(rows, cols, nr, i)) by {
                assert forall|j: int, k: int|
                    0 <= j < cols.len() && 0 <= k < rows.len() && k != i && (cols[j].primary_key
                        || cols[j].unique) && !(nr[j] is Null) implies #[trigger] rows[k][j]
                    != nr[j] by {
                    if j == c {
                        assert(rows[k][c] != nlit@);
                    } else {
                        assert(nr[j] == rows[i][j]);
                        if !(rows[k][j] is Null) {
                            if k < i {
                                assert(rows[k][j] != rows[i][j]);
                            } else {
                                assert(rows[i][j] != rows[k][j]);
                            }
                        }
                    }
                }
            }
            let cur2 = rows.update(i, nr);
            assert forall|m: int| 0 <= m < cur2.len() implies row_fits(#[trigger] cur2[m], cols) by {
                if m != i {
                    assert(cur2[m] == rows[m]);
                } else {
                    assert forall|q: int| 0 <= q < cols.len() implies cell_fits(
                        #[trigger] nr[q],
                        cols[q],
                    ) by {
                        if q != c {
                            assert(nr[q] == rows[i][q]);
                            assert(cell_fits(rows[i][q], cols[q]));
                        }
                    }
                }
            }
            assert forall|m: int| i + 1 <= m < cur2.len() implies #[trigger] cur2[m][c]
                != olit@ by {
                assert(cur2[m] == rows[m]);
                if rows[m][c] == olit@ {
                    assert(m == i);
                }
            }
            lemma_update_no_more(cur2, cols, c, cname, cname2, olit, nlit, i + 1, 1);
        } else {
            lemma_update_seek(rows, cols, c, cname, cname2, olit, nlit, i + 1);
        }
    }
}


/// The rows at or after `i` whose cell in column `c` equals `v`, in scan
/// order.
pub open spec fn rows_with(rows: Seq<Seq<ValueV>>, c: int, v: ValueV, i: int) -> Seq<Seq<ValueV>>
    decreases rows.len() - i,
{
    if i < 0 || i >= rows.len() {
        Seq::empty()
    } else if rows[i][c] == v {
        seq![rows[i]] + rows_with(rows, c, v, i + 1)
    } else {
        rows_with(rows, c, v, i + 1)
    }
}

/// An unprojected SELECT with the filter `column = literal` returns
/// exactly the rows whose cell there equals the literal.
proof fn lemma_select_filtered(
    rows: Seq<Seq<ValueV>>,
    cols: Seq<ColumnDefV>,
    c: int,
    cname: String,
    vlit: Value,
    acc: Seq<Seq<ValueV>>,
    i: int,
)
    requires
        0 <= c < cols.len(),
        cname@ == cols[c].name,
        forall|m: int| 0 <= m < c ==> cols[m].name != cols[c].name,
        forall|m: int| 0 <= m < rows.len() ==> row_fits(#[trigger] rows[m], cols),
        cell_fits(vlit@, cols[c]),
        !(vlit@ is Null),
        0 <= i <= rows.len(),
    ensures
        select_rows_s(rows, i, Some(eq_filter(cname, vlit)), cols, all_idxs(cols.len() as int), acc)
            == Ok::<Seq<Seq<ValueV>>, EngineError>(acc + rows_with(rows, c, vlit@, i)),
    decreases rows.len() - i,
{
    if i == rows.len() {
        assert(acc + rows_with(rows, c, vlit@, i) =~= acc);
    } else {
        lemma_eval_eq_filter(cols, c, cname, vlit, rows[i]);
        if rows[i][c] == vlit@ {
            assert(project_row_s(rows[i], all_idxs(cols.len() as int)) =~= rows[i]);
            lemma_select_filtered(rows, cols, c, cname, vlit, acc.push(rows[i]), i + 1);
            assert(acc.push(rows[i]) + rows_with(rows, c, vlit@, i + 1) =~= acc + (seq![rows[i]]
                + rows_with(rows, c, vlit@, i + 1)));
        } else {
            lemma_select_filtered(rows, cols, c, cname, vlit, acc, i + 1);
        }
    }
}

/// When no row at or after `i` holds the value, the selection there is
/// empty.
proof fn lemma_rows_with_none(rows: Seq<Seq<ValueV>>, c: int, v: ValueV, i: int)
    requires
        0 <= i <= rows.len(),
        forall|k: int| i <= k < rows.len() ==> #[trigger] rows[k][c] != v,
    ensures
        rows_with(rows, c, v, i) == Seq::<Seq<ValueV>>::empty(),
    decreases rows.len() - i,
{
    if i < rows.len() {
        lemma_rows_with_none(rows, c, v, i + 1);
    }
}

/// When exactly one row at or after `i` holds the value, the selection
/// there is that row alone.
proof fn lemma_rows_with_single(rows: Seq<Seq<ValueV>>, c: int, v: ValueV, i: int, m: int)
    requires
        0 <= i <= m < rows.len(),
        rows[m][c] == v,
        forall|k: int| 0 <= k < rows.len() && k != m ==> #[trigger] rows[k][c] != v,
    ensures
        rows_with(rows, c, v, i) == seq![rows[m]],
    decreases rows.len() - i,
{
    if i == m {
        lemma_rows_with_none(rows, c, v, i + 1);
        assert(seq![rows[m]] + Seq::<Seq<ValueV>>::empty() =~= seq![rows[m]]);
    } else {
        lemma_rows_with_single(rows, c, v, i + 1, m);
    }
}

/// Update followed by select: setting column `c` to a fresh value `nv` on
/// the rows a `c = ov` filter accepts succeeds and rewrites the one such
/// row when there is one; selecting afterwards with `c = nv` as filter
/// returns exactly the rewritten rows, and selecting with `c = ov`
/// returns none.
pub proof fn lemma_update_select_moves_rows(
    g: GlueV,
    name: Seq<char>,
    c: int,
    cname: String,
    cname2: String,
    olit: Value,
    nlit: Value,
)
    requires
        tab_idx(g.db, name) != -1,
        ({
            let t = g.db[tab_idx(g.db, name)];
            update_law_premises(t.rows, t.schema.columns, c, cname, cname2, olit, nlit)
        }),
    ensures
        ({
            let ti = tab_idx(g.db, name);
            let t = g.db[ti];
            let m = first_match(t.rows, c, olit@, 0);
            let su = step_update(g, name, set_asgs(cname2, nlit), Some(eq_filter(cname, olit)));
            let labels = t.schema.columns.map_values(|cd: ColumnDefV| cd.name);
            let sel_new = step_select(
                su.glue,
                name,
                Some(eq_filter(cname, nlit)),
                None::<Vec<String>>,
            );
            let sel_old = step_select(
                su.glue,
                name,
                Some(eq_filter(cname, olit)),
                None::<Vec<String>>,
            );
            &&& su.result == Ok::<PayloadV, EngineError>(
                PayloadV::Update(if m == -1 { 0int } else { 1int }),
            )
            &&& sel_new.result == Ok::<PayloadV, EngineError>(
                PayloadV::Select {
                    labels,
                    rows: if m == -1 {
                        Seq::empty()
                    } else {
                        seq![t.rows[m].update(c, nlit@)]
                    },
                },
            )
            &&& sel_old.result == Ok::<PayloadV, EngineError>(
                PayloadV::Select { labels, rows: Seq::empty() },
            )
        }),
{
    let ti = tab_idx(g.db, name);
    lemma_tab_idx_props(g.db, name);
    let t = g.db[ti];
    let cols = t.schema.columns;
    let rows = t.rows;
    let ov = olit@;
    let nv = nlit@;
    let m = first_match(rows, c, ov, 0);
    lemma_col_idx_self(cols, c);
    assert(check_names_s(cols, set_asgs(cname2, nlit).map_values(|a: Assignment| a.column@), 0)
        == Ok::<(), EngineError>(())) by {
        let ns = set_asgs(cname2, nlit).map_values(|a: Assignment| a.column@);
        assert(ns[0] == cols[c].name);
        assert(check_names_s(cols, ns, 1) == Ok::<(), EngineError>(()));
    }
    lemma_update_seek(rows, cols, c, cname, cname2, olit, nlit, 0);
    let su = step_update(g, name, set_asgs(cname2, nlit), Some(eq_filter(cname, olit)));
    let nrows = if m == -1 {
        rows
    } else {
        rows.update(m, rows[m].update(c, nv))
    };
    assert(su.glue.db == g.db.update(ti, TableV { schema: t.schema, rows: nrows }));
    lemma_tab_idx_same_names(su.glue.db, g.db, name, 0);
    assert(tab_idx(su.glue.db, name) == ti);
    assert(su.glue.db[ti].rows == nrows);
    assert(su.glue.db[ti].schema == t.schema);
    lemma_first_match_props(rows, c, ov, 0);
    assert forall|q: int| 0 <= q < nrows.len() implies row_fits(#[trigger] nrows[q], cols) by {
        if m != -1 && q == m {
            assert forall|w: int| 0 <= w < cols.len() implies cell_fits(
                #[trigger] nrows[q][w],
                cols[w],
            ) by {
                if w != c {
                    assert(nrows[q][w] == rows[m][w]);
                    assert(cell_fits(rows[m][w], cols[w]));
                }
            }
        } else {
            assert(nrows[q] == rows[q]);
        }
    }
    // select with the new value
    lemma_select_filtered(nrows, cols, c, cname, nlit, Seq::empty(), 0);
    if m == -1 {
        lemma_rows_with_none(nrows, c, nv, 0);
    } else {
        assert(nrows[m][c] == nv);
        assert forall|k: int| 0 <= k < nrows.len() && k != m implies #[trigger] nrows[k][c]
            != nv by {
            assert(nrows[k] == rows[k]);
        }
        lemma_rows_with_single(nrows, c, nv, 0, m);
    }
    assert(Seq::<Seq<ValueV>>::empty() + rows_with(nrows, c, nv, 0) =~= rows_with(nrows, c, nv, 0));
    // select with the old value
    lemma_select_filtered(nrows, cols, c, cname, olit, Seq::empty(), 0);
    assert forall|k: int| 0 <= k < nrows.len() implies #[trigger] nrows[k][c] != ov by {
        if m != -1 && k == m {
            assert(nrows[k][c] == nv);
        } else {
            assert(nrows[k] == rows[k]);
            if rows[k][c] == ov {
                assert(first_match(rows, c, ov, 0) != -1);
            }
        }
    }
    lemma_rows_with_none(nrows, c, ov, 0);
    assert(Seq::<Seq<ValueV>>::empty() + rows_with(nrows, c, ov, 0) =~= rows_with(nrows, c, ov, 0));
}

/// What `first_match` means: -1 exactly when no row at or after `i` holds
/// the value, and otherwise the first position that does.
pub proof fn lemma_first_match_props(rows: Seq<Seq<ValueV>>, c: int, v: ValueV, i: int)
    requires
        0 <= i <= rows.len(),
    ensures
        first_match(rows, c, v, i) == -1 ==> forall|k: int|
            i <= k < rows.len() ==> #[trigger] rows[k][c] != v,
        first_match(rows, c, v, i) != -1 ==> {
            &&& i <= first_match(rows, c, v, i) < rows.len()
            &&& rows[first_match(rows, c, v, i)][c] == v
            &&& forall|k: int| i <= k < first_match(rows, c, v, i) ==> #[trigger] rows[k][c] != v
        },
    decreases rows.len() - i,
{
    if i < rows.len() && rows[i][c] != v {
        lemma_first_match_props(rows, c, v, i + 1);
    }
}


/// Atomicity: a statement that fails — whatever the statement and
/// whatever the error — leaves the engine exactly as it was: no partial
/// row or schema effect survives.
pub proof fn lemma_failed_statement_changes_nothing(g: GlueV, stmt: crate::ast::Statement)
    ensures
        crate::engine::step(g, stmt).result is Err ==> crate::engine::step(g, stmt).glue == g,
{
}

} // verus!
