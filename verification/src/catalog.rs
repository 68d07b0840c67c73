use vstd::prelude::*;

verus! {

use crate::value::DataType;

/// One column declaration: its name, declared type, and constraint flags.
/// A PRIMARY KEY column is also implicitly UNIQUE and NOT NULL when
/// constraints are enforced.
#[derive(Clone, Debug)]
pub struct ColumnDef {
    pub name: String,
    pub data_type: DataType,
    pub primary_key: bool,
    pub unique: bool,
    pub not_null: bool,
}

/// The model of a column declaration.
pub struct ColumnDefV {
    pub name: Seq<char>,
    pub data_type: DataType,
    pub primary_key: bool,
    pub unique: bool,
    pub not_null: bool,
}

impl View for ColumnDef {
    type V = ColumnDefV;

    open spec fn view(&self) -> ColumnDefV {
        ColumnDefV {
            name: self.name@,
            data_type: self.data_type,
            primary_key: self.primary_key,
            unique: self.unique,
            not_null: self.not_null,
        }
    }
}

/// The model of a column list.
pub open spec fn cols_v(cs: Seq<ColumnDef>) -> Seq<ColumnDefV> {
    cs.map_values(|c: ColumnDef| c@)
}

/// A table schema: the table's name and its ordered column declarations.
/// The column order defines the row layout and the default projection order.
#[derive(Clone, Debug)]
pub struct TableSchema {
    pub name: String,
    pub columns: Vec<ColumnDef>,
}

/// The model of a table schema.
pub struct SchemaV {
    pub name: Seq<char>,
    pub columns: Seq<ColumnDefV>,
}

impl View for TableSchema {
    type V = SchemaV;

    open spec fn view(&self) -> SchemaV {
        SchemaV { name: self.name@, columns: cols_v(self.columns@) }
    }
}

/// The index of the first column at or after `i` of this name, and -1
/// when there is none.
pub open spec fn col_idx_from(cols: Seq<ColumnDefV>, name: Seq<char>, i: int) -> int
    decreases cols.len() - i,
{
    if i < 0 || i >= cols.len() {
        -1
    } else if cols[i].name == name {
        i
    } else {
        col_idx_from(cols, name, i + 1)
    }
}

/// The index of the first column of this name, and -1 when there is none.
pub open spec fn col_idx(cols: Seq<ColumnDefV>, name: Seq<char>) -> int {
    col_idx_from(cols, name, 0)
}

/// What `col_idx_from` means: -1 exactly when no column at or after `i`
/// has the name, and otherwise the first such index.
pub proof fn lemma_col_idx_from_props(cols: Seq<ColumnDefV>, name: Seq<char>, i: int)
    requires
        0 <= i <= cols.len(),
    ensures
        col_idx_from(cols, name, i) == -1 ==> forall|j: int|
            i <= j < cols.len() ==> cols[j].name != name,
        col_idx_from(cols, name, i) != -1 ==> {
            &&& i <= col_idx_from(cols, name, i) < cols.len()
            &&& cols[col_idx_from(cols, name, i)].name == name
            &&& forall|j: int| i <= j < col_idx_from(cols, name, i) ==> cols[j].name != name
        },
    decreases cols.len() - i,
{
    if i < cols.len() && cols[i].name != name {
        lemma_col_idx_from_props(cols, name, i + 1);
    }
}

/// What `col_idx` means: -1 exactly when no column has the name, and
/// otherwise the first index whose column has it.
pub proof fn lemma_col_idx_props(cols: Seq<ColumnDefV>, name: Seq<char>)
    ensures
        col_idx(cols, name) == -1 ==> forall|j: int|
            0 <= j < cols.len() ==> cols[j].name != name,
        col_idx(cols, name) != -1 ==> {
            &&& 0 <= col_idx(cols, name) < cols.len()
            &&& cols[col_idx(cols, name)].name == name
            &&& forall|j: int| 0 <= j < col_idx(cols, name) ==> cols[j].name != name
        },
{
    lemma_col_idx_from_props(cols, name, 0);
}

/// A well-formed schema: at least one column, no repeated column name, and
/// at most one PRIMARY KEY column.
pub open spec fn schema_wf(s: SchemaV) -> bool {
    &&& s.columns.len() >= 1
    &&& forall|i: int, j: int|
        0 <= i < j < s.columns.len() ==> s.columns[i].name != s.columns[j].name
    &&& forall|i: int, j: int|
        0 <= i < j < s.columns.len() ==> !(s.columns[i].primary_key
            && s.columns[j].primary_key)
}

/// Whether a schema is well formed.
pub fn schema_wf_check(s: &TableSchema) -> (r: bool)
    ensures
        r == schema_wf(s@),
{
    let n = s.columns.len();
    if n == 0 {
        return false;
    }
    let mut i: usize = 0;
    while i < n
        invariant
            n == s.columns@.len(),
            i <= n,
            forall|p: int, q: int|
                0 <= p < q < i ==> s@.columns[p].name != s@.columns[q].name,
            forall|p: int, q: int|
                0 <= p < q < i ==> !(s@.columns[p].primary_key && s@.columns[q].primary_key),
        decreases n - i,
    {
        let mut j: usize = 0;
        while j < i
            invariant
                i < n,
                n == s.columns@.len(),
                j <= i,
                forall|q: int| 0 <= q < j ==> s@.columns[q].name != s@.columns[i as int].name,
                forall|q: int|
                    0 <= q < j ==> !(s@.columns[q].primary_key
                        && s@.columns[i as int].primary_key),
            decreases i - j,
        {
            if s.columns[j].name.eq(&s.columns[i].name) {
                proof {
                    assert(s@.columns[j as int].name == s@.columns[i as int].name);
                }
                return false;
            }
            if s.columns[j].primary_key && s.columns[i].primary_key {
                proof {
                    assert(s@.columns[j as int].primary_key && s@.columns[i as int].primary_key);
                }
                return false;
            }
            j += 1;
        }
        i += 1;
    }
    true
}

/// The index of the first column of this name.
pub fn find_column(cols: &Vec<ColumnDef>, name: &String) -> (r: Option<usize>)
    ensures
        match r {
            Some(i) => col_idx(cols_v(cols@), name@) == i as int,
            None => col_idx(cols_v(cols@), name@) == -1,
        },
{
    let n = cols.len();
    let mut i: usize = 0;
    loop
        invariant
            n == cols@.len(),
            i <= n,
            cols_v(cols@).len() == n,
            col_idx(cols_v(cols@), name@) == col_idx_from(cols_v(cols@), name@, i as int),
        decreases n - i,
    {
        if i == n {
            return None;
        }
        if cols[i].name.eq(name) {
            return Some(i);
        }
        i += 1;
    }
}

/// A copy of a column declaration with the same model.
pub fn clone_column(c: &ColumnDef) -> (r: ColumnDef)
    ensures
        r@ == c@,
{
    ColumnDef {
        name: c.name.clone(),
        data_type: c.data_type,
        primary_key: c.primary_key,
        unique: c.unique,
        not_null: c.not_null,
    }
}

/// A copy of a schema with the same model.
pub fn clone_schema(s: &TableSchema) -> (r: TableSchema)
    ensures
        r@ == s@,
{
    let mut columns: Vec<ColumnDef> = Vec::new();
    let n = s.columns.len();
    let mut i: usize = 0;
    while i < n
        invariant
            n == s.columns@.len(),
            i <= n,
            columns@.len() == i,
            forall|j: int| 0 <= j < i ==> columns@[j]@ == s.columns@[j]@,
        decreases n - i,
    {
        columns.push(clone_column(&s.columns[i]));
        i += 1;
    }
    let r = TableSchema { name: s.name.clone(), columns };
    proof {
        assert(r@.columns =~= s@.columns);
    }
    r
}

} // verus!
