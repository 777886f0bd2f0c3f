//! The command set and the executor.
//!
//! [`execute`] applies one [`Command`] to a [`Database`] and returns a
//! [`QueryResult`]. Its contract pins both down exactly: the database
//! afterwards equals [`run_state`] of the database before, and the result's
//! view equals [`run_result`], two spec-level functions that state schema
//! validation, atomic row insertion and where-clause filtering in full.

use vstd::prelude::*;

use crate::db::ColumnType;
use crate::db::ColumnV;
use crate::db::DataType;
use crate::db::Database;
use crate::db::Row;
use crate::db::RowV;
use crate::db::TableV;
use crate::db::Column;
use crate::db::ValueV;
use crate::db::cols_view;
use crate::db::find_col;
use crate::db::find_table;
use crate::db::lemma_find_table_props;
use crate::db::row_get;
use crate::db::rows_view;
use crate::db::spec_create_table;
use crate::db::Table;
use crate::db::tables_view;
use crate::text::fmt_no_such_column;
use crate::text::fmt_no_such_table;
use crate::text::fmt_row_inserted;
use crate::text::fmt_table_created;
use crate::text::fmt_table_not_found;
use crate::text::fmt_type_mismatch;
use crate::text::i32_to_string;
use crate::text::int_to_dec;
use crate::text::msg_no_such_column;
use crate::text::msg_no_such_table;
use crate::text::msg_row_inserted;
use crate::text::msg_table_created;
use crate::text::msg_table_not_found;
use crate::text::msg_type_mismatch;
use vstd::pervasive::unreached;

verus! {

/// A single column/value equality predicate filtering rows on select.
pub struct WhereClause {
    pub column: String,
    pub value: String,
}

/// A structured request against the store, produced by a parsing layer
/// outside this crate.
pub enum Command {
    CreateTable { table_name: String, columns: Vec<Column> },
    Insert { table_name: String, row: Row },
    Select { table_name: String, fields: Vec<String>, where_clause: Option<WhereClause> },
}

/// The executor's outcome: a success message, the matched rows, or an
/// error description.
#[derive(PartialEq, Eq, Debug)]
pub enum QueryResult {
    Message(String),
    Rows(Vec<Row>),
    Error(String),
}

/// The mathematical value of a [`WhereClause`].
pub struct WhereClauseV {
    pub column: Seq<char>,
    pub value: Seq<char>,
}

/// The mathematical value of a [`Command`].
pub enum CommandV {
    CreateTable { table_name: Seq<char>, columns: Seq<ColumnV> },
    Insert { table_name: Seq<char>, row: RowV },
    Select { table_name: Seq<char>, fields: Seq<Seq<char>>, where_clause: Option<WhereClauseV> },
}

/// The mathematical value of a [`QueryResult`].
pub enum QueryResultV {
    Message(Seq<char>),
    Rows(Seq<RowV>),
    Error(Seq<char>),
}

impl View for WhereClause {
    type V = WhereClauseV;

    open spec fn view(&self) -> WhereClauseV {
        WhereClauseV { column: self.column@, value: self.value@ }
    }
}

impl View for Command {
    type V = CommandV;

    open spec fn view(&self) -> CommandV {
        match self {
            Command::CreateTable { table_name, columns } => CommandV::CreateTable {
                table_name: table_name@,
                columns: cols_view(columns@),
            },
            Command::Insert { table_name, row } => CommandV::Insert {
                table_name: table_name@,
                row: row@,
            },
            Command::Select { table_name, fields, where_clause } => CommandV::Select {
                table_name: table_name@,
                fields: fields@.map_values(|s: String| s@),
                where_clause: match where_clause {
                    None => None,
                    Some(w) => Some(w@),
                },
            },
        }
    }
}

impl View for QueryResult {
    type V = QueryResultV;

    open spec fn view(&self) -> QueryResultV {
        match self {
            QueryResult::Message(m) => QueryResultV::Message(m@),
            QueryResult::Rows(rs) => QueryResultV::Rows(rows_view(rs@)),
            QueryResult::Error(e) => QueryResultV::Error(e@),
        }
    }
}

/// Whether a value's variant agrees with a column's declared type.
pub open spec fn type_matches(t: ColumnType, v: ValueV) -> bool {
    match (t, v) {
        (ColumnType::Integer, ValueV::Integer(_)) => true,
        (ColumnType::Text, ValueV::Text(_)) => true,
        _ => false,
    }
}

/// Whether one row entry passes validation against a column list: its key
/// names a declared column and its value's variant agrees with that
/// column's type.
pub open spec fn pair_ok(cols: Seq<ColumnV>, p: (Seq<char>, ValueV)) -> bool {
    match find_col(cols, p.0) {
        None => false,
        Some(c) => type_matches(c.col_type, p.1),
    }
}

/// Whether every entry of a row passes validation against a column list.
pub open spec fn row_ok(cols: Seq<ColumnV>, r: RowV) -> bool {
    forall|k: int| 0 <= k < r.len() ==> pair_ok(cols, #[trigger] r[k])
}

/// The error reported for one failing row entry: an unknown column, or a
/// type mismatch against the column found.
pub open spec fn pair_error(cols: Seq<ColumnV>, p: (Seq<char>, ValueV), tname: Seq<char>) -> Seq<
    char,
> {
    match find_col(cols, p.0) {
        None => msg_no_such_column(p.0, tname),
        Some(c) => msg_type_mismatch(p.0, c.col_type, p.1),
    }
}

/// The validation outcome for a whole row: the error of its first failing
/// entry, or nothing when every entry passes.
pub open spec fn row_error(cols: Seq<ColumnV>, r: RowV, tname: Seq<char>) -> Option<Seq<char>>
    decreases r.len(),
{
    if r.len() == 0 {
        None
    } else if !pair_ok(cols, r[0]) {
        Some(pair_error(cols, r[0], tname))
    } else {
        row_error(cols, r.skip(1), tname)
    }
}

/// A row validates as a whole exactly when no entry reports an error.
pub proof fn lemma_row_error_iff_ok(cols: Seq<ColumnV>, r: RowV, tname: Seq<char>)
    ensures
        (row_error(cols, r, tname) is None) <==> row_ok(cols, r),
    decreases r.len(),
{
    if r.len() > 0 {
        lemma_row_error_iff_ok(cols, r.skip(1), tname);
        if pair_ok(cols, r[0]) {
            if row_error(cols, r, tname) is None {
                assert forall|k: int| 0 <= k < r.len() implies pair_ok(cols, #[trigger] r[k]) by {
                    if k > 0 {
                        assert(r.skip(1)[k - 1] == r[k]);
                        assert(pair_ok(cols, r.skip(1)[k - 1]));
                    }
                }
            } else {
                assert(!row_ok(cols, r.skip(1)));
                let k = choose|k: int|
                    0 <= k < r.skip(1).len() && !pair_ok(cols, #[trigger] r.skip(1)[k]);
                assert(r.skip(1)[k] == r[k + 1]);
                assert(!pair_ok(cols, r[k + 1]));
            }
        }
    }
}

/// The first failing entry determines the row's validation error.
pub proof fn lemma_row_error_at(cols: Seq<ColumnV>, r: RowV, tname: Seq<char>, k: int)
    requires
        0 <= k < r.len(),
        !pair_ok(cols, r[k]),
        forall|j: int| 0 <= j < k ==> pair_ok(cols, #[trigger] r[j]),
    ensures
        row_error(cols, r, tname) == Some(pair_error(cols, r[k], tname)),
    decreases r.len(),
{
    if k > 0 {
        assert(r.skip(1)[k - 1] == r[k]);
        assert forall|j: int| 0 <= j < k - 1 implies pair_ok(cols, #[trigger] r.skip(1)[j]) by {
            assert(r.skip(1)[j] == r[j + 1]);
        }
        lemma_row_error_at(cols, r.skip(1), tname, k - 1);
    }
}

/// All entries passing leaves no validation error.
pub proof fn lemma_row_error_none(cols: Seq<ColumnV>, r: RowV, tname: Seq<char>)
    requires
        forall|j: int| 0 <= j < r.len() ==> pair_ok(cols, #[trigger] r[j]),
    ensures
        row_error(cols, r, tname) is None,
    decreases r.len(),
{
    if r.len() > 0 {
        assert forall|j: int| 0 <= j < r.skip(1).len() implies pair_ok(
            cols,
            #[trigger] r.skip(1)[j],
        ) by {
            assert(r.skip(1)[j] == r[j + 1]);
        }
        lemma_row_error_none(cols, r.skip(1), tname);
    }
}

/// Whether a row passes a where clause: it holds an entry for the clause's
/// column, and that value — a text as it stands, an integer by its base-10
/// rendering — equals the clause's value string.
pub open spec fn where_matches(r: RowV, wc: WhereClauseV) -> bool {
    match row_get(r, wc.column) {
        None => false,
        Some(ValueV::Text(t)) => t == wc.value,
        Some(ValueV::Integer(i)) => int_to_dec(i) == wc.value,
    }
}

/// The rows passing a where clause, in their original order.
pub open spec fn matching_rows(rows: Seq<RowV>, wc: WhereClauseV) -> Seq<RowV>
    decreases rows.len(),
{
    if rows.len() == 0 {
        Seq::empty()
    } else if where_matches(rows.last(), wc) {
        matching_rows(rows.drop_last(), wc).push(rows.last())
    } else {
        matching_rows(rows.drop_last(), wc)
    }
}

/// What a select returns of a row sequence: everything without a where
/// clause, the matching rows with one.
pub open spec fn filter_rows(rows: Seq<RowV>, w: Option<WhereClauseV>) -> Seq<RowV> {
    match w {
        None => rows,
        Some(wc) => matching_rows(rows, wc),
    }
}

/// Every row a where clause keeps passes it, and every row passing it is
/// kept.
pub proof fn lemma_matching_rows_props(rows: Seq<RowV>, wc: WhereClauseV)
    ensures
        forall|i: int|
            0 <= i < matching_rows(rows, wc).len() ==> where_matches(
                #[trigger] matching_rows(rows, wc)[i],
                wc,
            ),
        forall|j: int|
            0 <= j < rows.len() && where_matches(#[trigger] rows[j], wc) ==> matching_rows(
                rows,
                wc,
            ).contains(rows[j]),
    decreases rows.len(),
{
    if rows.len() > 0 {
        lemma_matching_rows_props(rows.drop_last(), wc);
        let m = matching_rows(rows, wc);
        let mrest = matching_rows(rows.drop_last(), wc);
        assert forall|j: int|
            0 <= j < rows.len() && where_matches(#[trigger] rows[j], wc) implies m.contains(
            rows[j],
        ) by {
            if j < rows.len() - 1 {
                assert(rows.drop_last()[j] == rows[j]);
                assert(mrest.contains(rows[j]));
                let w = choose|w: int| 0 <= w < mrest.len() && mrest[w] == rows[j];
                assert(m[w] == rows[j]);
            } else {
                assert(rows[j] == rows.last());
                assert(m[m.len() - 1] == rows.last());
            }
        }
    }
}

/// What executing one command leaves the database as: a create registers a
/// fresh name, an insert of a fully valid row appends it to its table, and
/// everything else leaves the database unchanged.
pub open spec fn run_state(db: Seq<TableV>, c: CommandV) -> Seq<TableV> {
    match c {
        CommandV::CreateTable { table_name, columns } => spec_create_table(
            db,
            table_name,
            columns,
        ),
        CommandV::Insert { table_name, row } => match find_table(db, table_name) {
            None => db,
            Some(i) => if row_ok(db[i].columns, row) {
                db.update(
                    i,
                    TableV {
                        name: db[i].name,
                        columns: db[i].columns,
                        rows: db[i].rows.push(row),
                    },
                )
            } else {
                db
            },
        },
        CommandV::Select { .. } => db,
    }
}

/// What executing one command returns: a create is always confirmed, an
/// insert is confirmed or reports the unknown table or its first failing
/// entry, and a select reports the unknown table or the matching rows.
pub open spec fn run_result(db: Seq<TableV>, c: CommandV) -> QueryResultV {
    match c {
        CommandV::CreateTable { table_name, .. } => QueryResultV::Message(
            msg_table_created(table_name),
        ),
        CommandV::Insert { table_name, row } => match find_table(db, table_name) {
            None => QueryResultV::Error(msg_no_such_table(table_name)),
            Some(i) => match row_error(db[i].columns, row, table_name) {
                None => QueryResultV::Message(msg_row_inserted(table_name)),
                Some(e) => QueryResultV::Error(e),
            },
        },
        CommandV::Select { table_name, where_clause, .. } => match find_table(db, table_name) {
            None => QueryResultV::Error(msg_table_not_found(table_name)),
            Some(i) => QueryResultV::Rows(filter_rows(db[i].rows, where_clause)),
        },
    }
}

/// Table names are unique within a database view.
pub open spec fn names_unique(db: Seq<TableV>) -> bool {
    forall|i: int, j: int|
        0 <= i < j < db.len() ==> (#[trigger] db[i]).name != (#[trigger] db[j]).name
}

/// Every stored row of a table passes validation against its column list:
/// each entry names a declared column and its value matches that column's
/// declared type.
pub open spec fn table_rows_ok(t: TableV) -> bool {
    forall|k: int| 0 <= k < t.rows.len() ==> row_ok(t.columns, #[trigger] t.rows[k])
}

/// Every table of a database view holds only validated rows.
pub open spec fn db_rows_ok(db: Seq<TableV>) -> bool {
    forall|i: int| 0 <= i < db.len() ==> table_rows_ok(#[trigger] db[i])
}

/// Executing any command preserves the store's invariants: table names
/// stay unique, and every stored value keeps matching its column's
/// declared type. Both hold of the empty database, so they hold forever.
pub proof fn lemma_run_state_preserves_invariants(db: Seq<TableV>, c: CommandV)
    requires
        names_unique(db),
        db_rows_ok(db),
    ensures
        names_unique(run_state(db, c)),
        db_rows_ok(run_state(db, c)),
{
    let db2 = run_state(db, c);
    match c {
        CommandV::CreateTable { table_name, columns } => {
            if find_table(db, table_name) is None {
                lemma_find_table_props(db, table_name);
                assert forall|i: int, j: int| 0 <= i < j < db2.len() implies (
                #[trigger] db2[i]).name != (#[trigger] db2[j]).name by {
                    if j < db.len() {
                        assert(db2[i] == db[i] && db2[j] == db[j]);
                    } else {
                        assert(db2[i] == db[i] && db2[j].name == table_name);
                    }
                }
                assert forall|i: int| 0 <= i < db2.len() implies table_rows_ok(
                    #[trigger] db2[i],
                ) by {
                    if i < db.len() {
                        assert(db2[i] == db[i]);
                    } else {
                        assert(db2[i].rows.len() == 0);
                    }
                }
            }
        },
        CommandV::Insert { table_name, row } => {
            if find_table(db, table_name) is Some {
                lemma_find_table_props(db, table_name);
                let t = find_table(db, table_name).unwrap();
                if row_ok(db[t].columns, row) {
                    assert forall|i: int, j: int| 0 <= i < j < db2.len() implies (
                    #[trigger] db2[i]).name != (#[trigger] db2[j]).name by {
                        assert(db2[i].name == db[i].name && db2[j].name == db[j].name);
                    }
                    assert forall|i: int| 0 <= i < db2.len() implies table_rows_ok(
                        #[trigger] db2[i],
                    ) by {
                        if i == t {
                            assert(table_rows_ok(db[t]));
                            assert forall|k: int| 0 <= k < db2[i].rows.len() implies row_ok(
                                db2[i].columns,
                                #[trigger] db2[i].rows[k],
                            ) by {
                                if k < db[t].rows.len() {
                                    assert(db2[i].rows[k] == db[t].rows[k]);
                                } else {
                                    assert(db2[i].rows[k] == row);
                                }
                            }
                        } else {
                            assert(db2[i] == db[i]);
                        }
                    }
                }
            }
        },
        CommandV::Select { .. } => {},
    }
}

/// A row that fails validation has a first failing entry, and that entry
/// determines the reported error.
pub proof fn lemma_row_error_first(cols: Seq<ColumnV>, r: RowV, tname: Seq<char>) -> (k: int)
    requires
        !row_ok(cols, r),
    ensures
        0 <= k < r.len(),
        !pair_ok(cols, r[k]),
        forall|j: int| 0 <= j < k ==> pair_ok(cols, #[trigger] r[j]),
        row_error(cols, r, tname) == Some(pair_error(cols, r[k], tname)),
    decreases r.len(),
{
    if !pair_ok(cols, r[0]) {
        0
    } else {
        let w = choose|w: int| 0 <= w < r.len() && !pair_ok(cols, #[trigger] r[w]);
        assert(r.skip(1)[w - 1] == r[w]);
        assert(!row_ok(cols, r.skip(1)));
        let k0 = lemma_row_error_first(cols, r.skip(1), tname);
        assert(r.skip(1)[k0] == r[k0 + 1]);
        assert forall|j: int| 0 <= j < k0 + 1 implies pair_ok(cols, #[trigger] r[j]) by {
            if j > 0 {
                assert(r.skip(1)[j - 1] == r[j]);
                assert(pair_ok(cols, r.skip(1)[j - 1]));
            }
        }
        k0 + 1
    }
}

/// Re-creating a table under an existing name — with any other column
/// list — is a no-op: the database keeps the table exactly as the first
/// creation left it, its original column list included.
pub proof fn lemma_recreate_keeps_columns(
    db: Seq<TableV>,
    name: Seq<char>,
    cols1: Seq<ColumnV>,
    cols2: Seq<ColumnV>,
)
    requires
        find_table(db, name) is None,
    ensures
        ({
            let db1 = run_state(db, CommandV::CreateTable { table_name: name, columns: cols1 });
            let db2 = run_state(db1, CommandV::CreateTable { table_name: name, columns: cols2 });
            &&& db2 == db1
            &&& find_table(db1, name) == Some(db.len() as int)
            &&& db1[db.len() as int].columns == cols1
            &&& db1[db.len() as int].rows == Seq::<RowV>::empty()
        }),
{
    let t = TableV { name: name, columns: cols1, rows: Seq::empty() };
    let db1 = db.push(t);
    lemma_find_table_props(db, name);
    assert forall|j: int| 0 <= j < db.len() implies db1[j].name != name by {
        assert(db1[j] == db[j]);
    }
    crate::db::lemma_find_table_at(db1, name, db.len() as int);
}

/// A successful insert grows its table's row sequence by exactly one, the
/// inserted row standing last in row order; every other table, and the
/// table's own name and columns, are untouched.
pub proof fn lemma_insert_appends(db: Seq<TableV>, name: Seq<char>, row: RowV)
    requires
        run_result(db, CommandV::Insert { table_name: name, row }) is Message,
    ensures
        find_table(db, name) is Some,
        ({
            let i = find_table(db, name).unwrap();
            let db2 = run_state(db, CommandV::Insert { table_name: name, row });
            &&& db2.len() == db.len()
            &&& db2[i].rows.len() == db[i].rows.len() + 1
            &&& db2[i].rows.last() == row
            &&& db2[i].rows.drop_last() == db[i].rows
            &&& db2[i].name == db[i].name
            &&& db2[i].columns == db[i].columns
            &&& forall|j: int| 0 <= j < db.len() && j != i ==> db2[j] == db[j]
        }),
{
    lemma_find_table_props(db, name);
    let i = find_table(db, name).unwrap();
    lemma_row_error_iff_ok(db[i].columns, row, name);
    let db2 = run_state(db, CommandV::Insert { table_name: name, row });
    assert(db2[i].rows.drop_last() =~= db[i].rows);
}

/// Inserting a row holding a key that names no declared column — with no
/// other entry mismatching its column's type — is rejected with the
/// unknown-column error of the first such key, and leaves the database,
/// and so every table's row count, unchanged.
pub proof fn lemma_insert_unknown_column_rejected(db: Seq<TableV>, name: Seq<char>, row: RowV)
    requires
        find_table(db, name) is Some,
        exists|k: int|
            0 <= k < row.len() && find_col(
                db[find_table(db, name).unwrap()].columns,
                (#[trigger] row[k]).0,
            ) is None,
        forall|k: int|
            0 <= k < row.len() ==> match find_col(
                db[find_table(db, name).unwrap()].columns,
                (#[trigger] row[k]).0,
            ) {
                Some(c) => type_matches(c.col_type, row[k].1),
                None => true,
            },
    ensures
        run_state(db, CommandV::Insert { table_name: name, row }) == db,
        exists|k: int|
            {
                &&& 0 <= k < row.len()
                &&& find_col(db[find_table(db, name).unwrap()].columns, (#[trigger] row[k]).0)
                    is None
                &&& forall|j: int|
                    0 <= j < k ==> pair_ok(db[find_table(db, name).unwrap()].columns, #[trigger] row[j])
                &&& run_result(db, CommandV::Insert { table_name: name, row })
                    == QueryResultV::Error(msg_no_such_column(row[k].0, name))
            },
{
    lemma_find_table_props(db, name);
    let i = find_table(db, name).unwrap();
    let cols = db[i].columns;
    let w = choose|k: int| 0 <= k < row.len() && find_col(cols, (#[trigger] row[k]).0) is None;
    assert(!pair_ok(cols, row[w]));
    let k = lemma_row_error_first(cols, row, name);
    assert(find_col(cols, row[k].0) is None);
    lemma_row_error_iff_ok(cols, row, name);
    assert({
        &&& 0 <= k < row.len()
        &&& find_col(cols, (#[trigger] row[k]).0) is None
        &&& forall|j: int| 0 <= j < k ==> pair_ok(cols, #[trigger] row[j])
        &&& run_result(db, CommandV::Insert { table_name: name, row }) == QueryResultV::Error(
            msg_no_such_column(row[k].0, name),
        )
    });
}

/// Inserting a row holding a value whose variant disagrees with its
/// column's declared type — with every key naming a declared column — is
/// rejected with the type-mismatch error of the first such entry, and
/// leaves the database, and so every table's row count, unchanged.
pub proof fn lemma_insert_type_mismatch_rejected(db: Seq<TableV>, name: Seq<char>, row: RowV)
    requires
        find_table(db, name) is Some,
        exists|k: int|
            0 <= k < row.len() && !pair_ok(
                db[find_table(db, name).unwrap()].columns,
                #[trigger] row[k],
            ),
        forall|k: int|
            0 <= k < row.len() ==> find_col(
                db[find_table(db, name).unwrap()].columns,
                (#[trigger] row[k]).0,
            ) is Some,
    ensures
        run_state(db, CommandV::Insert { table_name: name, row }) == db,
        exists|k: int|
            {
                &&& 0 <= k < row.len()
                &&& match find_col(db[find_table(db, name).unwrap()].columns, (#[trigger] row[k]).0) {
                    Some(c) => {
                        &&& !type_matches(c.col_type, row[k].1)
                        &&& run_result(db, CommandV::Insert { table_name: name, row })
                            == QueryResultV::Error(msg_type_mismatch(row[k].0, c.col_type, row[k].1))
                    },
                    None => false,
                }
                &&& forall|j: int|
                    0 <= j < k ==> pair_ok(db[find_table(db, name).unwrap()].columns, #[trigger] row[j])
            },
{
    lemma_find_table_props(db, name);
    let i = find_table(db, name).unwrap();
    let cols = db[i].columns;
    let k = lemma_row_error_first(cols, row, name);
    lemma_row_error_iff_ok(cols, row, name);
    assert(find_col(cols, row[k].0) is Some);
    assert({
        &&& 0 <= k < row.len()
        &&& match find_col(cols, (#[trigger] row[k]).0) {
            Some(c) => {
                &&& !type_matches(c.col_type, row[k].1)
                &&& run_result(db, CommandV::Insert { table_name: name, row })
                    == QueryResultV::Error(msg_type_mismatch(row[k].0, c.col_type, row[k].1))
            },
            None => false,
        }
        &&& forall|j: int| 0 <= j < k ==> pair_ok(cols, #[trigger] row[j])
    });
}

/// A select without a where clause returns the table's full row sequence,
/// in insertion order, and leaves the database unchanged.
pub proof fn lemma_select_without_clause_returns_all(
    db: Seq<TableV>,
    name: Seq<char>,
    fields: Seq<Seq<char>>,
)
    requires
        find_table(db, name) is Some,
    ensures
        run_result(db, CommandV::Select { table_name: name, fields, where_clause: None })
            == QueryResultV::Rows(db[find_table(db, name).unwrap()].rows),
        run_state(db, CommandV::Select { table_name: name, fields, where_clause: None }) == db,
{
    lemma_find_table_props(db, name);
}

/// A select with a where clause returns rows that all pass the clause,
/// keeps every stored row that passes it, and leaves the database
/// unchanged.
pub proof fn lemma_select_with_clause_filters(
    db: Seq<TableV>,
    name: Seq<char>,
    fields: Seq<Seq<char>>,
    wc: WhereClauseV,
)
    requires
        find_table(db, name) is Some,
    ensures
        ({
            let i = find_table(db, name).unwrap();
            let res = matching_rows(db[i].rows, wc);
            &&& run_result(db, CommandV::Select { table_name: name, fields, where_clause: Some(wc) })
                == QueryResultV::Rows(res)
            &&& forall|p: int| 0 <= p < res.len() ==> where_matches(#[trigger] res[p], wc)
            &&& forall|j: int|
                0 <= j < db[i].rows.len() && where_matches(#[trigger] db[i].rows[j], wc)
                    ==> res.contains(db[i].rows[j])
            &&& run_state(db, CommandV::Select { table_name: name, fields, where_clause: Some(wc) })
                == db
        }),
{
    lemma_find_table_props(db, name);
    let i = find_table(db, name).unwrap();
    lemma_matching_rows_props(db[i].rows, wc);
}

/// Validates every entry of `row` against `columns`: returns the error of
/// the first failing entry, or nothing when the whole row passes.
fn validate_row(columns: &Vec<Column>, row: &Row, table_name: &String) -> (r: Option<String>)
    ensures
        match r {
            None => row_error(cols_view(columns@), row@, table_name@) is None,
            Some(e) => row_error(cols_view(columns@), row@, table_name@) == Some(e@),
        },
{
    let n = row.entries.len();
    let mut j: usize = 0;
    while j < n
        invariant
            n == row.entries.len(),
            j <= n,
            forall|k: int| 0 <= k < j ==> pair_ok(cols_view(columns@), #[trigger] row@[k]),
        decreases n - j,
    {
        let name = &row.entries[j].0;
        let value = &row.entries[j].1;
        match crate::db::find_column(columns, name) {
            Some(col) => {
                let ok = match (&col.col_type, value) {
                    (ColumnType::Integer, DataType::Integer(_)) => true,
                    (ColumnType::Text, DataType::Text(_)) => true,
                    _ => false,
                };
                if !ok {
                    proof {
                        assert(!pair_ok(cols_view(columns@), row@[j as int]));
                        lemma_row_error_at(cols_view(columns@), row@, table_name@, j as int);
                    }
                    return Some(fmt_type_mismatch(name.as_str(), &col.col_type, value));
                }
                proof {
                    assert(pair_ok(cols_view(columns@), row@[j as int]));
                }
            },
            None => {
                proof {
                    assert(!pair_ok(cols_view(columns@), row@[j as int]));
                    lemma_row_error_at(cols_view(columns@), row@, table_name@, j as int);
                }
                return Some(fmt_no_such_column(name.as_str(), table_name.as_str()));
            },
        }
        j += 1;
    }
    proof {
        lemma_row_error_none(cols_view(columns@), row@, table_name@);
    }
    None
}

/// Whether `row` passes the where clause `w`.
fn exec_where_matches(row: &Row, w: &WhereClause) -> (b: bool)
    ensures
        b == where_matches(row@, w@),
{
    match row.get(w.column.as_str()) {
        None => false,
        Some(v) => match v {
            DataType::Text(t) => *t == w.value,
            DataType::Integer(i) => {
                let d = i32_to_string(*i);
                d == w.value
            },
        },
    }
}

/// Applies `command` to `db`. The database afterwards equals
/// [`run_state`] of the database before, and the result [`run_result`]:
/// a create-table always succeeds (a duplicate name is a no-op), an
/// insert validates the whole row before any mutation and appends it
/// atomically, and a select returns the matching rows in insertion order.
pub fn execute(db: &mut Database, command: Command) -> (r: QueryResult)
    ensures
        final(db)@ == run_state(old(db)@, command@),
        r@ == run_result(old(db)@, command@),
{
    match command {
        Command::CreateTable { table_name, columns } => {
            db.create_table(table_name.clone(), columns);
            QueryResult::Message(fmt_table_created(table_name.as_str()))
        },
        Command::Insert { table_name, row } => {
            let ghost tnv = table_name@;
            let ghost rowv = row@;
            let err: Option<String> = match db.get_table(table_name.as_str()) {
                None => Some(fmt_no_such_table(table_name.as_str())),
                Some(table) => validate_row(&table.columns, &row, &table_name),
            };
            match err {
                Some(e) => {
                    proof {
                        let dbv = old(db)@;
                        lemma_find_table_props(dbv, tnv);
                        if find_table(dbv, tnv) is Some {
                            let i = find_table(dbv, tnv).unwrap();
                            lemma_row_error_iff_ok(dbv[i].columns, rowv, tnv);
                        }
                        assert(db@ =~~= run_state(old(db)@, CommandV::Insert {
                            table_name: tnv,
                            row: rowv,
                        }));
                    }
                    QueryResult::Error(e)
                },
                None => {
                    match db.get_table_mut(table_name.as_str()) {
                        Some(table) => {
                            table.insert(row);
                            proof {
                                let dbv = old(db)@;
                                lemma_find_table_props(dbv, tnv);
                                let i = find_table(dbv, tnv).unwrap();
                                lemma_row_error_iff_ok(dbv[i].columns, rowv, tnv);
                                assert forall|t: Table| #[trigger] tables_view(
                                    old(db).tables@.update(i, t),
                                ) == tables_view(old(db).tables@).update(i, t@) by {
                                    assert(tables_view(old(db).tables@.update(i, t)) =~= tables_view(
                                        old(db).tables@,
                                    ).update(i, t@));
                                }
                                assert(db@ =~~= run_state(old(db)@, CommandV::Insert {
                                    table_name: tnv,
                                    row: rowv,
                                }));
                            }
                            QueryResult::Message(fmt_row_inserted(table_name.as_str()))
                        },
                        None => unreached(),
                    }
                },
            }
        },
        Command::Select { table_name, fields: _, where_clause } => {
            let ghost wv: Option<WhereClauseV> = match &where_clause {
                None => None,
                Some(w) => Some(w@),
            };
            match db.get_table(table_name.as_str()) {
                None => QueryResult::Error(fmt_table_not_found(table_name.as_str())),
                Some(table) => {
                    let n = table.rows.len();
                    let mut result_rows: Vec<Row> = Vec::new();
                    let mut k: usize = 0;
                    while k < n
                        invariant
                            n == table.rows.len(),
                            k <= n,
                            wv == (match where_clause {
                                None => None,
                                Some(w) => Some(w@),
                            }),
                            rows_view(result_rows@) == filter_rows(
                                table@.rows.subrange(0, k as int),
                                wv,
                            ),
                        decreases n - k,
                    {
                        let row_ref = &table.rows[k];
                        let keep = match &where_clause {
                            None => true,
                            Some(w) => exec_where_matches(row_ref, w),
                        };
                        proof {
                            assert(table@.rows.subrange(0, k + 1).drop_last() =~= table@
                                .rows.subrange(0, k as int));
                            assert(table@.rows.subrange(0, k + 1).last() == table@.rows[k as int]);
                        }
                        if keep {
                            result_rows.push(row_ref.clone());
                            proof {
                                assert(rows_view(result_rows@) =~= filter_rows(
                                    table@.rows.subrange(0, k + 1),
                                    wv,
                                ));
                            }
                        } else {
                            proof {
                                assert(rows_view(result_rows@) =~= filter_rows(
                                    table@.rows.subrange(0, k + 1),
                                    wv,
                                ));
                            }
                        }
                        k += 1;
                    }
                    proof {
                        assert(table@.rows.subrange(0, n as int) =~= table@.rows);
                    }
                    QueryResult::Rows(result_rows)
                },
            }
        },
    }
}

} // verus!

