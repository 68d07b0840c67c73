use vstd::prelude::*;

verus! {

use crate::ast::{row_v, rows_v};
use crate::catalog::{
    ColumnDefV, SchemaV, TableSchema, clone_schema, schema_wf,
};
use crate::value::{DataType, Value, ValueV, clone_value};

/// One table held in memory: its schema and its rows, in insertion order.
#[derive(Debug)]
pub struct Table {
    pub schema: TableSchema,
    pub rows: Vec<Vec<Value>>,
}

/// The model of one table.
pub struct TableV {
    pub schema: SchemaV,
    pub rows: Seq<Seq<ValueV>>,
}

impl View for Table {
    type V = TableV;

    open spec fn view(&self) -> TableV {
        TableV { schema: self.schema@, rows: rows_v(self.rows@) }
    }
}

/// The model of the whole catalog with its rows.
pub open spec fn tables_v(ts: Seq<Table>) -> Seq<TableV> {
    ts.map_values(|t: Table| t@)
}

/// The index of the first table at or after `i` of this name, and -1 when
/// there is none.
pub open spec fn tab_idx_from(db: Seq<TableV>, name: Seq<char>, i: int) -> int
    decreases db.len() - i,
{
    if i < 0 || i >= db.len() {
        -1
    } else if db[i].schema.name == name {
        i
    } else {
        tab_idx_from(db, name, i + 1)
    }
}

/// The index of the table of this name, and -1 when there is none.
pub open spec fn tab_idx(db: Seq<TableV>, name: Seq<char>) -> int {
    tab_idx_from(db, name, 0)
}

/// What `tab_idx_from` means: -1 exactly when no table at or after `i`
/// has the name, and otherwise the first such index.
pub proof fn lemma_tab_idx_from_props(db: Seq<TableV>, name: Seq<char>, i: int)
    requires
        0 <= i <= db.len(),
    ensures
        tab_idx_from(db, name, i) == -1 ==> forall|j: int|
            i <= j < db.len() ==> db[j].schema.name != name,
        tab_idx_from(db, name, i) != -1 ==> {
            &&& i <= tab_idx_from(db, name, i) < db.len()
            &&& db[tab_idx_from(db, name, i)].schema.name == name
            &&& forall|j: int| i <= j < tab_idx_from(db, name, i) ==> db[j].schema.name != name
        },
    decreases db.len() - i,
{
    if i < db.len() && db[i].schema.name != name {
        lemma_tab_idx_from_props(db, name, i + 1);
    }
}

/// What `tab_idx` means: -1 exactly when no table has the name, and
/// otherwise the index of the table that has it.
pub proof fn lemma_tab_idx_props(db: Seq<TableV>, name: Seq<char>)
    ensures
        tab_idx(db, name) == -1 ==> forall|j: int|
            0 <= j < db.len() ==> db[j].schema.name != name,
        tab_idx(db, name) != -1 ==> {
            &&& 0 <= tab_idx(db, name) < db.len()
            &&& db[tab_idx(db, name)].schema.name == name
            &&& forall|j: int| 0 <= j < tab_idx(db, name) ==> db[j].schema.name != name
        },
{
    lemma_tab_idx_from_props(db, name, 0);
}

/// Two catalogs whose tables carry the same names in the same order
/// resolve every name to the same index.
pub proof fn lemma_tab_idx_same_names(a: Seq<TableV>, b: Seq<TableV>, name: Seq<char>, i: int)
    requires
        a.len() == b.len(),
        forall|m: int| 0 <= m < a.len() ==> a[m].schema.name == b[m].schema.name,
        0 <= i <= a.len(),
    ensures
        tab_idx_from(a, name, i) == tab_idx_from(b, name, i),
    decreases a.len() - i,
{
    if i < a.len() && a[i].schema.name != name {
        lemma_tab_idx_same_names(a, b, name, i + 1);
    }
}

/// Whether a cell value may sit under a column: its variant matches the
/// declared type, or it is a null and the column tolerates nulls.
pub open spec fn cell_fits(v: ValueV, c: ColumnDefV) -> bool {
    match v {
        ValueV::Null => !(c.not_null || c.primary_key),
        ValueV::Bool(_) => c.data_type == DataType::Bool,
        ValueV::I64(_) => c.data_type == DataType::Int,
        ValueV::Str(_) => c.data_type == DataType::Text,
        ValueV::Uuid(_) => c.data_type == DataType::Uuid,
        ValueV::Timestamp(_) => c.data_type == DataType::Timestamp,
        ValueV::Bytes(_) => c.data_type == DataType::Bytea,
    }
}

/// Whether a row lies in the table's layout: one cell per column, each of
/// its column's declared type.
pub open spec fn row_fits(r: Seq<ValueV>, cols: Seq<ColumnDefV>) -> bool {
    r.len() == cols.len() && forall|j: int| 0 <= j < cols.len() ==> cell_fits(#[trigger] r[j], cols[j])
}

/// A well-formed table: a well-formed schema, every row in its layout.
pub open spec fn table_wf(t: TableV) -> bool {
    &&& schema_wf(t.schema)
    &&& forall|i: int| 0 <= i < t.rows.len() ==> row_fits(#[trigger] t.rows[i], t.schema.columns)
}

/// A well-formed catalog: distinct table names, every table well formed.
pub open spec fn db_wf(db: Seq<TableV>) -> bool {
    &&& forall|i: int, j: int|
        0 <= i < j < db.len() ==> db[i].schema.name != db[j].schema.name
    &&& forall|i: int| 0 <= i < db.len() ==> table_wf(#[trigger] db[i])
}

/// A copy of a row with the same model.
pub fn clone_row(r: &Vec<Value>) -> (out: Vec<Value>)
    ensures
        row_v(out@) == row_v(r@),
{
    let mut out: Vec<Value> = Vec::new();
    let n = r.len();
    let mut i: usize = 0;
    while i < n
        invariant
            n == r@.len(),
            i <= n,
            out@.len() == i,
            forall|j: int| 0 <= j < i ==> out@[j]@ == r@[j]@,
        decreases n - i,
    {
        out.push(clone_value(&r[i]));
        i += 1;
    }
    proof {
        assert(row_v(out@) =~= row_v(r@));
    }
    out
}

/// A copy of a row set with the same model.
pub fn clone_rows(rs: &Vec<Vec<Value>>) -> (out: Vec<Vec<Value>>)
    ensures
        rows_v(out@) == rows_v(rs@),
{
    let mut out: Vec<Vec<Value>> = Vec::new();
    let n = rs.len();
    let mut i: usize = 0;
    while i < n
        invariant
            n == rs@.len(),
            i <= n,
            out@.len() == i,
            forall|j: int| 0 <= j < i ==> row_v(#[trigger] out@[j]@) == row_v(rs@[j]@),
        decreases n - i,
    {
        out.push(clone_row(&rs[i]));
        i += 1;
    }
    proof {
        assert(rows_v(out@) =~= rows_v(rs@));
    }
    out
}

/// A copy of a table with the same model.
pub fn clone_table(t: &Table) -> (out: Table)
    ensures
        out@ == t@,
{
    Table { schema: clone_schema(&t.schema), rows: clone_rows(&t.rows) }
}

/// A copy of the whole catalog with the same model.
pub fn clone_tables(ts: &Vec<Table>) -> (out: Vec<Table>)
    ensures
        tables_v(out@) == tables_v(ts@),
{
    let mut out: Vec<Table> = Vec::new();
    let n = ts.len();
    let mut i: usize = 0;
    while i < n
        invariant
            n == ts@.len(),
            i <= n,
            out@.len() == i,
            forall|j: int| 0 <= j < i ==> (#[trigger] out@[j])@ == ts@[j]@,
        decreases n - i,
    {
        out.push(clone_table(&ts[i]));
        i += 1;
    }
    proof {
        assert(tables_v(out@) =~= tables_v(ts@));
    }
    out
}

/// The in-memory transactional backend. It holds the committed state and,
/// while a transaction is open, the snapshot the transaction started from;
/// schema and row mutations act on the working state and become visible to
/// later statements only at commit, and rollback discards them all.
#[derive(Debug)]
pub struct MemStorage {
    tables: Vec<Table>,
    base: Option<Vec<Table>>,
}

impl MemStorage {
    /// The working state: what the open transaction sees and mutates.
    pub closed spec fn cur(&self) -> Seq<TableV> {
        tables_v(self.tables@)
    }

    /// The committed state: what the last commit left.
    pub closed spec fn committed(&self) -> Seq<TableV> {
        match self.base {
            Some(b) => tables_v(b@),
            None => tables_v(self.tables@),
        }
    }

    /// Whether a transaction is open.
    pub closed spec fn in_txn(&self) -> bool {
        self.base is Some
    }

    /// With no transaction open, the working and the committed state are
    /// one.
    pub proof fn lemma_no_txn(&self)
        requires
            !self.in_txn(),
        ensures
            self.cur() == self.committed(),
    {
    }

    /// An empty backend: no tables, no open transaction.
    pub fn new() -> (r: MemStorage)
        ensures
            !r.in_txn(),
            r.committed() =~= Seq::<TableV>::empty(),
            r.cur() =~= Seq::<TableV>::empty(),
    {
        let r = MemStorage { tables: Vec::new(), base: None };
        proof {
            assert(r.cur() =~= Seq::<TableV>::empty());
        }
        r
    }

    /// Opens a transaction: the working state starts from the committed one.
    pub fn begin(&mut self)
        requires
            !old(self).in_txn(),
        ensures
            final(self).in_txn(),
            final(self).cur() == old(self).cur(),
            final(self).committed() == old(self).committed(),
    {
        let snap = clone_tables(&self.tables);
        self.base = Some(snap);
    }

    /// Commits the open transaction: the working state becomes committed.
    pub fn commit(&mut self)
        requires
            old(self).in_txn(),
        ensures
            !final(self).in_txn(),
            final(self).cur() == old(self).cur(),
            final(self).committed() == old(self).cur(),
    {
        self.base = None;
    }

    /// Rolls the open transaction back: the working state is discarded and
    /// the committed state stands untouched.
    pub fn rollback(&mut self)
        requires
            old(self).in_txn(),
        ensures
            !final(self).in_txn(),
            final(self).cur() == old(self).committed(),
            final(self).committed() == old(self).committed(),
    {
        let mut base = None;
        core::mem::swap(&mut base, &mut self.base);
        match base {
            Some(b) => {
                self.tables = b;
            },
            None => {},
        }
    }

    /// The position of the table of this name in the working state.
    pub fn find_table(&self, name: &String) -> (r: Option<usize>)
        ensures
            match r {
                Some(i) => tab_idx(self.cur(), name@) == i as int,
                None => tab_idx(self.cur(), name@) == -1,
            },
    {
        let n = self.tables.len();
        let mut i: usize = 0;
        loop
            invariant
                n == self.tables@.len(),
                i <= n,
                self.cur().len() == n,
                tab_idx(self.cur(), name@) == tab_idx_from(self.cur(), name@, i as int),
            decreases n - i,
        {
            if i == n {
                return None;
            }
            if self.tables[i].schema.name.eq(name) {
                return Some(i);
            }
            i += 1;
        }
    }

    /// The schema of the table of this name, when there is one.
    pub fn fetch_schema(&self, name: &String) -> (r: Option<TableSchema>)
        ensures
            match r {
                Some(s) => tab_idx(self.cur(), name@) != -1 && s@ == self.cur()[tab_idx(
                    self.cur(),
                    name@,
                )].schema,
                None => tab_idx(self.cur(), name@) == -1,
            },
    {
        match self.find_table(name) {
            None => None,
            Some(i) => {
                proof {
                    lemma_tab_idx_props(self.cur(), name@);
                }
                Some(clone_schema(&self.tables[i].schema))
            },
        }
    }

    /// Registers a schema under its name, as a table with no rows.
    pub fn insert_schema(&mut self, schema: TableSchema)
        requires
            old(self).in_txn(),
            tab_idx(old(self).cur(), schema@.name) == -1,
        ensures
            final(self).in_txn(),
            final(self).cur() == old(self).cur().push(
                TableV { schema: schema@, rows: Seq::empty() },
            ),
            final(self).committed() == old(self).committed(),
    {
        let t = Table { schema, rows: Vec::new() };
        proof {
            assert(t@.rows =~= Seq::<Seq<ValueV>>::empty());
        }
        self.tables.push(t);
        proof {
            assert(self.cur() =~= old(self).cur().push(
                TableV { schema: t.schema@, rows: Seq::empty() },
            ));
        }
    }

    /// Removes the table of this name, schema and rows together.
    pub fn delete_schema(&mut self, name: &String)
        requires
            old(self).in_txn(),
            tab_idx(old(self).cur(), name@) != -1,
        ensures
            final(self).in_txn(),
            final(self).cur() == old(self).cur().remove(tab_idx(old(self).cur(), name@)),
            final(self).committed() == old(self).committed(),
    {
        proof {
            lemma_tab_idx_props(self.cur(), name@);
        }
        match self.find_table(name) {
            Some(i) => {
                self.tables.remove(i);
                proof {
                    assert(self.cur() =~= old(self).cur().remove(i as int));
                }
            },
            None => {},
        }
    }

    /// Every row of the table of this name, in insertion order, the row at
    /// position `i` of the result being the row with RowId `i`.
    pub fn scan(&self, name: &String) -> (out: Vec<Vec<Value>>)
        requires
            tab_idx(self.cur(), name@) != -1,
        ensures
            rows_v(out@) == self.cur()[tab_idx(self.cur(), name@)].rows,
    {
        proof {
            lemma_tab_idx_props(self.cur(), name@);
        }
        match self.find_table(name) {
            Some(i) => clone_rows(&self.tables[i].rows),
            None => Vec::new(),
        }
    }

    /// Appends a row to the table of this name; its RowId is the prior row
    /// count.
    pub fn insert_row(&mut self, name: &String, row: Vec<Value>)
        requires
            old(self).in_txn(),
            tab_idx(old(self).cur(), name@) != -1,
        ensures
            final(self).in_txn(),
            final(self).cur() == ({
                let ti = tab_idx(old(self).cur(), name@);
                old(self).cur().update(
                    ti,
                    TableV {
                        schema: old(self).cur()[ti].schema,
                        rows: old(self).cur()[ti].rows.push(row_v(row@)),
                    },
                )
            }),
            final(self).committed() == old(self).committed(),
    {
        proof {
            lemma_tab_idx_props(self.cur(), name@);
        }
        match self.find_table(name) {
            Some(i) => {
                let mut t = self.tables.remove(i);
                t.rows.push(row);
                proof {
                    assert(rows_v(t.rows@) =~= old(self).cur()[i as int].rows.push(row_v(row@)));
                }
                self.tables.insert(i, t);
                proof {
                    assert(self.cur() =~= old(self).cur().update(
                        i as int,
                        TableV {
                            schema: old(self).cur()[i as int].schema,
                            rows: old(self).cur()[i as int].rows.push(row_v(row@)),
                        },
                    ));
                }
            },
            None => {},
        }
    }

    /// Replaces the row with RowId `i` of the table of this name.
    pub fn update_row(&mut self, name: &String, i: usize, row: Vec<Value>)
        requires
            old(self).in_txn(),
            tab_idx(old(self).cur(), name@) != -1,
            i < old(self).cur()[tab_idx(old(self).cur(), name@)].rows.len(),
        ensures
            final(self).in_txn(),
            final(self).cur() == ({
                let ti = tab_idx(old(self).cur(), name@);
                old(self).cur().update(
                    ti,
                    TableV {
                        schema: old(self).cur()[ti].schema,
                        rows: old(self).cur()[ti].rows.update(i as int, row_v(row@)),
                    },
                )
            }),
            final(self).committed() == old(self).committed(),
    {
        proof {
            lemma_tab_idx_props(self.cur(), name@);
        }
        match self.find_table(name) {
            Some(t_i) => {
                let mut t = self.tables.remove(t_i);
                if i < t.rows.len() {
                    t.rows.remove(i);
                    t.rows.insert(i, row);
                }
                proof {
                    assert(rows_v(t.rows@) =~= old(self).cur()[t_i as int].rows.update(
                        i as int,
                        row_v(row@),
                    ));
                }
                self.tables.insert(t_i, t);
                proof {
                    assert(self.cur() =~= old(self).cur().update(
                        t_i as int,
                        TableV {
                            schema: old(self).cur()[t_i as int].schema,
                            rows: old(self).cur()[t_i as int].rows.update(i as int, row_v(row@)),
                        },
                    ));
                }
            },
            None => {},
        }
    }

    /// Removes the row with RowId `i` of the table of this name; later rows
    /// shift down by one.
    pub fn delete_row(&mut self, name: &String, i: usize)
        requires
            old(self).in_txn(),
            tab_idx(old(self).cur(), name@) != -1,
            i < old(self).cur()[tab_idx(old(self).cur(), name@)].rows.len(),
        ensures
            final(self).in_txn(),
            final(self).cur() == ({
                let ti = tab_idx(old(self).cur(), name@);
                old(self).cur().update(
                    ti,
                    TableV {
                        schema: old(self).cur()[ti].schema,
                        rows: old(self).cur()[ti].rows.remove(i as int),
                    },
                )
            }),
            final(self).committed() == old(self).committed(),
    {
        proof {
            lemma_tab_idx_props(self.cur(), name@);
        }
        match self.find_table(name) {
            Some(t_i) => {
                let mut t = self.tables.remove(t_i);
                if i < t.rows.len() {
                    t.rows.remove(i);
                }
                proof {
                    assert(rows_v(t.rows@) =~= old(self).cur()[t_i as int].rows.remove(i as int));
                }
                self.tables.insert(t_i, t);
                proof {
                    assert(self.cur() =~= old(self).cur().update(
                        t_i as int,
                        TableV {
                            schema: old(self).cur()[t_i as int].schema,
                            rows: old(self).cur()[t_i as int].rows.remove(i as int),
                        },
                    ));
                }
            },
            None => {},
        }
    }
}

} // verus!
