//! The storage model: values, columns, rows, tables and the database.
//!
//! A [`Row`] is a list of column-name/value pairs, a [`Table`] an ordered
//! column list plus an append-only row sequence, and a [`Database`] a list
//! of tables looked up by name. Every type has a mathematical view, and
//! each lookup is specified as the first match in that view.

use vstd::prelude::*;

verus! {

/// The declared shape of the values a column accepts.
#[derive(Clone, Copy, PartialEq, Eq, Debug)]
pub enum ColumnType {
    Integer,
    Text,
}

/// A storable value: exactly one variant is active per instance.
#[derive(PartialEq, Eq, Debug)]
pub enum DataType {
    Integer(i32),
    Text(String),
}

/// A named, typed slot declared once per table.
#[derive(Debug)]
pub struct Column {
    pub name: String,
    pub col_type: ColumnType,
}

/// A collection of named values, validated against a table's columns on
/// insert. Keys set through [`Row::set`] stay unique; lookups take the
/// first entry with a matching name.
#[derive(PartialEq, Eq, Debug)]
pub struct Row {
    pub entries: Vec<(String, DataType)>,
}

/// An ordered column list plus an append-only sequence of rows.
#[derive(Debug)]
pub struct Table {
    pub name: String,
    pub columns: Vec<Column>,
    pub rows: Vec<Row>,
}

/// A registry of tables; names registered through
/// [`Database::create_table`] stay unique.
#[derive(Debug)]
pub struct Database {
    pub tables: Vec<Table>,
}

/// The mathematical value of a [`DataType`].
pub enum ValueV {
    Integer(int),
    Text(Seq<char>),
}

/// The mathematical value of a [`Column`].
#[verifier::ext_equal]
pub struct ColumnV {
    pub name: Seq<char>,
    pub col_type: ColumnType,
}

/// The mathematical value of a [`Row`]: its name/value pairs in order.
pub type RowV = Seq<(Seq<char>, ValueV)>;

/// The mathematical value of a [`Table`].
#[verifier::ext_equal]
pub struct TableV {
    pub name: Seq<char>,
    pub columns: Seq<ColumnV>,
    pub rows: Seq<RowV>,
}

impl View for DataType {
    type V = ValueV;

    open spec fn view(&self) -> ValueV {
        match self {
            DataType::Integer(i) => ValueV::Integer(*i as int),
            DataType::Text(s) => ValueV::Text(s@),
        }
    }
}

impl View for Column {
    type V = ColumnV;

    open spec fn view(&self) -> ColumnV {
        ColumnV { name: self.name@, col_type: self.col_type }
    }
}

impl View for Row {
    type V = RowV;

    open spec fn view(&self) -> RowV {
        self.entries@.map_values(|p: (String, DataType)| (p.0@, p.1@))
    }
}

/// The views of a column list, in order.
pub open spec fn cols_view(cs: Seq<Column>) -> Seq<ColumnV> {
    cs.map_values(|c: Column| c@)
}

/// The views of a row list, in order.
pub open spec fn rows_view(rs: Seq<Row>) -> Seq<RowV> {
    rs.map_values(|r: Row| r@)
}

/// The views of a table list, in order.
pub open spec fn tables_view(ts: Seq<Table>) -> Seq<TableV> {
    ts.map_values(|t: Table| t@)
}

impl View for Table {
    type V = TableV;

    open spec fn view(&self) -> TableV {
        TableV { name: self.name@, columns: cols_view(self.columns@), rows: rows_view(self.rows@) }
    }
}

impl View for Database {
    type V = Seq<TableV>;

    open spec fn view(&self) -> Seq<TableV> {
        tables_view(self.tables@)
    }
}

impl Clone for DataType {
    /// A clone of a value equals the original.
    fn clone(&self) -> (r: Self)
        ensures
            r == *self,
    {
        match self {
            DataType::Integer(i) => DataType::Integer(*i),
            DataType::Text(s) => DataType::Text(s.clone()),
        }
    }
}

impl Clone for Column {
    /// A clone of a column equals the original.
    fn clone(&self) -> (r: Self)
        ensures
            r == *self,
    {
        Column { name: self.name.clone(), col_type: self.col_type }
    }
}

impl Clone for Row {
    /// A clone of a row has the same view as the original.
    fn clone(&self) -> (r: Self)
        ensures
            r@ == self@,
    {
        let mut entries: Vec<(String, DataType)> = Vec::new();
        let n = self.entries.len();
        let mut i: usize = 0;
        while i < n
            invariant
                n == self.entries.len(),
                i <= n,
                entries@.len() == i,
                forall|k: int|
                    0 <= k < i ==> ((#[trigger] entries@[k]).0@, entries@[k].1@) == self@[k],
            decreases n - i,
        {
            let (name, value) = &self.entries[i];
            entries.push((name.clone(), value.clone()));
            i += 1;
        }
        let r = Row { entries };
        proof {
            assert(r@ =~= self@);
        }
        r
    }
}

/// The first index in `ts` holding a table named `name`, if any.
pub open spec fn find_table(ts: Seq<TableV>, name: Seq<char>) -> Option<int>
    decreases ts.len(),
{
    if ts.len() == 0 {
        None
    } else if ts[0].name == name {
        Some(0int)
    } else {
        match find_table(ts.skip(1), name) {
            None => None,
            Some(i) => Some(i + 1),
        }
    }
}

/// What `find_table` finds: the first index whose table carries `name`,
/// or nothing when no table does.
pub proof fn lemma_find_table_props(ts: Seq<TableV>, name: Seq<char>)
    ensures
        match find_table(ts, name) {
            None => forall|j: int| 0 <= j < ts.len() ==> ts[j].name != name,
            Some(i) => 0 <= i < ts.len() && ts[i].name == name && (forall|j: int|
                0 <= j < i ==> ts[j].name != name),
        },
    decreases ts.len(),
{
    if ts.len() > 0 && ts[0].name != name {
        lemma_find_table_props(ts.skip(1), name);
        match find_table(ts.skip(1), name) {
            None => {
                assert forall|j: int| 0 <= j < ts.len() implies ts[j].name != name by {
                    if j > 0 {
                        assert(ts.skip(1)[j - 1] == ts[j]);
                    }
                }
            },
            Some(i) => {
                assert(ts.skip(1)[i] == ts[i + 1]);
                assert forall|j: int| 0 <= j < i + 1 implies ts[j].name != name by {
                    if j > 0 {
                        assert(ts.skip(1)[j - 1] == ts[j]);
                    }
                }
            },
        }
    }
}

/// A first match characterizes `find_table`.
pub proof fn lemma_find_table_at(ts: Seq<TableV>, name: Seq<char>, i: int)
    requires
        0 <= i < ts.len(),
        ts[i].name == name,
        forall|j: int| 0 <= j < i ==> ts[j].name != name,
    ensures
        find_table(ts, name) == Some(i),
    decreases ts.len(),
{
    if i > 0 {
        assert(ts.skip(1)[i - 1] == ts[i]);
        assert forall|j: int| 0 <= j < i - 1 implies ts.skip(1)[j].name != name by {
            assert(ts.skip(1)[j] == ts[j + 1]);
        }
        lemma_find_table_at(ts.skip(1), name, i - 1);
    }
}

/// No matching name characterizes an empty `find_table`.
pub proof fn lemma_find_table_absent(ts: Seq<TableV>, name: Seq<char>)
    requires
        forall|j: int| 0 <= j < ts.len() ==> ts[j].name != name,
    ensures
        find_table(ts, name) is None,
    decreases ts.len(),
{
    if ts.len() > 0 {
        assert forall|j: int| 0 <= j < ts.skip(1).len() implies ts.skip(1)[j].name != name by {
            assert(ts.skip(1)[j] == ts[j + 1]);
        }
        lemma_find_table_absent(ts.skip(1), name);
    }
}

/// The first column in `cols` named `name`, if any.
pub open spec fn find_col(cols: Seq<ColumnV>, name: Seq<char>) -> Option<ColumnV>
    decreases cols.len(),
{
    if cols.len() == 0 {
        None
    } else if cols[0].name == name {
        Some(cols[0])
    } else {
        find_col(cols.skip(1), name)
    }
}

/// A first match characterizes `find_col`.
pub proof fn lemma_find_col_at(cols: Seq<ColumnV>, name: Seq<char>, i: int)
    requires
        0 <= i < cols.len(),
        cols[i].name == name,
        forall|j: int| 0 <= j < i ==> cols[j].name != name,
    ensures
        find_col(cols, name) == Some(cols[i]),
    decreases cols.len(),
{
    if i > 0 {
        assert(cols.skip(1)[i - 1] == cols[i]);
        assert forall|j: int| 0 <= j < i - 1 implies cols.skip(1)[j].name != name by {
            assert(cols.skip(1)[j] == cols[j + 1]);
        }
        lemma_find_col_at(cols.skip(1), name, i - 1);
    }
}

/// No matching name characterizes an empty `find_col`.
pub proof fn lemma_find_col_absent(cols: Seq<ColumnV>, name: Seq<char>)
    requires
        forall|j: int| 0 <= j < cols.len() ==> cols[j].name != name,
    ensures
        find_col(cols, name) is None,
    decreases cols.len(),
{
    if cols.len() > 0 {
        assert forall|j: int| 0 <= j < cols.skip(1).len() implies cols.skip(1)[j].name != name by {
            assert(cols.skip(1)[j] == cols[j + 1]);
        }
        lemma_find_col_absent(cols.skip(1), name);
    }
}

/// The value under the first entry of `r` keyed by `key`, if any.
pub open spec fn row_get(r: RowV, key: Seq<char>) -> Option<ValueV>
    decreases r.len(),
{
    if r.len() == 0 {
        None
    } else if r[0].0 == key {
        Some(r[0].1)
    } else {
        row_get(r.skip(1), key)
    }
}

/// A first match characterizes `row_get`.
pub proof fn lemma_row_get_at(r: RowV, key: Seq<char>, i: int)
    requires
        0 <= i < r.len(),
        r[i].0 == key,
        forall|j: int| 0 <= j < i ==> r[j].0 != key,
    ensures
        row_get(r, key) == Some(r[i].1),
    decreases r.len(),
{
    if i > 0 {
        assert(r.skip(1)[i - 1] == r[i]);
        assert forall|j: int| 0 <= j < i - 1 implies r.skip(1)[j].0 != key by {
            assert(r.skip(1)[j] == r[j + 1]);
        }
        lemma_row_get_at(r.skip(1), key, i - 1);
    }
}

/// No entry keyed by `key` characterizes an empty `row_get`.
pub proof fn lemma_row_get_absent(r: RowV, key: Seq<char>)
    requires
        forall|j: int| 0 <= j < r.len() ==> r[j].0 != key,
    ensures
        row_get(r, key) is None,
    decreases r.len(),
{
    if r.len() > 0 {
        assert forall|j: int| 0 <= j < r.skip(1).len() implies r.skip(1)[j].0 != key by {
            assert(r.skip(1)[j] == r[j + 1]);
        }
        lemma_row_get_absent(r.skip(1), key);
    }
}

impl Row {
    /// An empty row.
    pub fn new() -> (r: Row)
        ensures
            r@ == Seq::<(Seq<char>, ValueV)>::empty(),
    {
        let r = Row { entries: Vec::new() };
        proof {
            assert(r@ =~= Seq::<(Seq<char>, ValueV)>::empty());
        }
        r
    }

    /// How many entries the row holds.
    pub fn len(&self) -> (n: usize)
        ensures
            n == self@.len(),
    {
        self.entries.len()
    }

    /// Binds `name` to `value`: replaces the value of the first entry
    /// already keyed by `name`, or appends a new entry.
    pub fn set(&mut self, name: String, value: DataType)
        ensures
            match find_entry(old(self)@, name@) {
                Some(i) => final(self)@ == old(self)@.update(i, (name@, value@)),
                None => final(self)@ == old(self)@.push((name@, value@)),
            },
    {
        let n = self.entries.len();
        let mut i: usize = 0;
        while i < n
            invariant
                n == self.entries.len(),
                i <= n,
                *self == *old(self),
                forall|j: int| 0 <= j < i ==> self@[j].0 != name@,
            decreases n - i,
        {
            if self.entries[i].0 == name {
                proof {
                    lemma_find_entry_at(self@, name@, i as int);
                }
                self.entries[i] = (name, value);
                proof {
                    assert(self@ =~= old(self)@.update(i as int, (name@, value@)));
                }
                return ;
            }
            i += 1;
        }
        proof {
            lemma_find_entry_absent(self@, name@);
        }
        self.entries.push((name, value));
        proof {
            assert(self@ =~= old(self)@.push((name@, value@)));
        }
    }

    /// The value bound to `name`, if any.
    pub fn get(&self, name: &str) -> (r: Option<&DataType>)
        ensures
            match r {
                None => row_get(self@, name@) is None,
                Some(v) => row_get(self@, name@) == Some(v@),
            },
    {
        let key: String = name.to_owned();
        let n = self.entries.len();
        let mut i: usize = 0;
        while i < n
            invariant
                n == self.entries.len(),
                key@ == name@,
                i <= n,
                forall|j: int| 0 <= j < i ==> self@[j].0 != name@,
            decreases n - i,
        {
            if self.entries[i].0 == key {
                proof {
                    lemma_row_get_at(self@, name@, i as int);
                }
                return Some(&self.entries[i].1);
            }
            i += 1;
        }
        proof {
            lemma_row_get_absent(self@, name@);
        }
        None
    }
}

/// The first index of an entry of `r` keyed by `key`, if any.
pub open spec fn find_entry(r: RowV, key: Seq<char>) -> Option<int>
    decreases r.len(),
{
    if r.len() == 0 {
        None
    } else if r[0].0 == key {
        Some(0int)
    } else {
        match find_entry(r.skip(1), key) {
            None => None,
            Some(i) => Some(i + 1),
        }
    }
}

/// A first match characterizes `find_entry`.
pub proof fn lemma_find_entry_at(r: RowV, key: Seq<char>, i: int)
    requires
        0 <= i < r.len(),
        r[i].0 == key,
        forall|j: int| 0 <= j < i ==> r[j].0 != key,
    ensures
        find_entry(r, key) == Some(i),
    decreases r.len(),
{
    if i > 0 {
        assert(r.skip(1)[i - 1] == r[i]);
        assert forall|j: int| 0 <= j < i - 1 implies r.skip(1)[j].0 != key by {
            assert(r.skip(1)[j] == r[j + 1]);
        }
        lemma_find_entry_at(r.skip(1), key, i - 1);
    }
}

/// No matching entry characterizes an empty `find_entry`.
pub proof fn lemma_find_entry_absent(r: RowV, key: Seq<char>)
    requires
        forall|j: int| 0 <= j < r.len() ==> r[j].0 != key,
    ensures
        find_entry(r, key) is None,
    decreases r.len(),
{
    if r.len() > 0 {
        assert forall|j: int| 0 <= j < r.skip(1).len() implies r.skip(1)[j].0 != key by {
            assert(r.skip(1)[j] == r[j + 1]);
        }
        lemma_find_entry_absent(r.skip(1), key);
    }
}

impl Table {
    /// An empty table carrying the given name and column list.
    pub fn new(name: String, columns: Vec<Column>) -> (t: Table)
        ensures
            t@ == (TableV {
                name: name@,
                columns: cols_view(columns@),
                rows: Seq::<RowV>::empty(),
            }),
    {
        let t = Table { name, columns, rows: Vec::new() };
        proof {
            assert(t@.rows =~= Seq::<RowV>::empty());
            assert(t@ =~= (TableV {
                name: t.name@,
                columns: cols_view(t.columns@),
                rows: Seq::<RowV>::empty(),
            }));
        }
        t
    }

    /// Appends `row` unconditionally; validation is the executor's duty.
    pub fn insert(&mut self, row: Row)
        ensures
            final(self)@.name == old(self)@.name,
            final(self)@.columns == old(self)@.columns,
            final(self)@.rows == old(self)@.rows.push(row@),
    {
        self.rows.push(row);
        proof {
            assert(self@.rows =~= old(self)@.rows.push(self.rows@.last()@));
        }
    }
}

/// The first column of `columns` named `name`, if any.
pub fn find_column<'a>(columns: &'a Vec<Column>, name: &String) -> (r: Option<&'a Column>)
    ensures
        match r {
            None => find_col(cols_view(columns@), name@) is None,
            Some(c) => find_col(cols_view(columns@), name@) == Some(c@),
        },
{
    let n = columns.len();
    let mut i: usize = 0;
    while i < n
        invariant
            n == columns.len(),
            i <= n,
            forall|j: int| 0 <= j < i ==> cols_view(columns@)[j].name != name@,
        decreases n - i,
    {
        if columns[i].name == *name {
            proof {
                lemma_find_col_at(cols_view(columns@), name@, i as int);
            }
            return Some(&columns[i]);
        }
        i += 1;
    }
    proof {
        lemma_find_col_absent(cols_view(columns@), name@);
    }
    None
}

impl Database {
    /// An empty database.
    pub fn new() -> (d: Database)
        ensures
            d@ == Seq::<TableV>::empty(),
    {
        let d = Database { tables: Vec::new() };
        proof {
            assert(d@ =~= Seq::<TableV>::empty());
        }
        d
    }

    /// Registers an empty table under `table_name` with the given column
    /// list; a name already registered leaves the database untouched.
    pub fn create_table(&mut self, table_name: String, columns: Vec<Column>)
        ensures
            final(self)@ == spec_create_table(old(self)@, table_name@, cols_view(columns@)),
    {
        let n = self.tables.len();
        let mut i: usize = 0;
        while i < n
            invariant
                n == self.tables.len(),
                i <= n,
                *self == *old(self),
                forall|j: int| 0 <= j < i ==> self@[j].name != table_name@,
            decreases n - i,
        {
            if self.tables[i].name == table_name {
                proof {
                    lemma_find_table_at(self@, table_name@, i as int);
                }
                return ;
            }
            i += 1;
        }
        proof {
            lemma_find_table_absent(self@, table_name@);
        }
        let table = Table::new(table_name, columns);
        self.tables.push(table);
        proof {
            assert(self@ =~= old(self)@.push(self.tables@.last()@));
        }
    }

    /// A shared borrow of the table named `table_name`, if any.
    pub fn get_table(&self, table_name: &str) -> (r: Option<&Table>)
        ensures
            match r {
                None => find_table(self@, table_name@) is None,
                Some(t) => {
                    &&& find_table(self@, table_name@) matches Some(i)
                    &&& t@ == self@[find_table(self@, table_name@).unwrap()]
                },
            },
    {
        let key: String = table_name.to_owned();
        let n = self.tables.len();
        let mut i: usize = 0;
        while i < n
            invariant
                n == self.tables.len(),
                key@ == table_name@,
                i <= n,
                forall|j: int| 0 <= j < i ==> self@[j].name != table_name@,
            decreases n - i,
        {
            if self.tables[i].name == key {
                proof {
                    lemma_find_table_at(self@, table_name@, i as int);
                }
                return Some(&self.tables[i]);
            }
            i += 1;
        }
        proof {
            lemma_find_table_absent(self@, table_name@);
        }
        None
    }

    /// A mutable borrow of the table named `table_name`, if any; the
    /// database afterwards holds whatever the borrow was left as, in
    /// place of that table.
    pub fn get_table_mut(&mut self, table_name: &str) -> (r: Option<&mut Table>)
        ensures
            match find_table(old(self)@, table_name@) {
                None => r is None && *final(self) == *old(self),
                Some(i) => r is Some && (*r.unwrap())@ == old(self)@[i] && final(self).tables@
                    == old(self).tables@.update(i, *final(r.unwrap())),
            },
    {
        let key: String = table_name.to_owned();
        let n = self.tables.len();
        let mut i: usize = 0;
        let mut found: Option<usize> = None;
        while i < n && found.is_none()
            invariant
                n == self.tables.len(),
                key@ == table_name@,
                i <= n,
                *self == *old(self),
                match found {
                    None => forall|j: int| 0 <= j < i ==> self@[j].name != table_name@,
                    Some(k) => k < n && k <= i && self@[k as int].name == table_name@ && (forall|
                        j: int,
                    | 0 <= j < k ==> self@[j].name != table_name@),
                },
            decreases n - i + (if found is None {
                1int
            } else {
                0int
            }),
        {
            if self.tables[i].name == key {
                found = Some(i);
            } else {
                i += 1;
            }
        }
        match found {
            Some(k) => {
                proof {
                    lemma_find_table_at(self@, table_name@, k as int);
                }
                Some(&mut self.tables[k])
            },
            None => {
                proof {
                    lemma_find_table_absent(self@, table_name@);
                }
                None
            },
        }
    }
}

/// What registering a table does to the database view: a name already
/// present leaves it unchanged, a fresh one appends an empty table.
pub open spec fn spec_create_table(
    db: Seq<TableV>,
    name: Seq<char>,
    cols: Seq<ColumnV>,
) -> Seq<TableV> {
    if find_table(db, name) is Some {
        db
    } else {
        db.push(TableV { name: name, columns: cols, rows: Seq::<RowV>::empty() })
    }
}

} // verus!
