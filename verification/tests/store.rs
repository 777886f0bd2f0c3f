use fool_database::db::{Column, ColumnType, DataType, Database, Row, Table};
use fool_database::sql::{execute, Command, QueryResult, WhereClause};

fn users_columns() -> Vec<Column> {
    vec![
        Column { name: "id".to_string(), col_type: ColumnType::Integer },
        Column { name: "name".to_string(), col_type: ColumnType::Text },
    ]
}

fn users_db() -> Database {
    let mut db = Database::new();
    let r = execute(
        &mut db,
        Command::CreateTable { table_name: "users".to_string(), columns: users_columns() },
    );
    assert_eq!(r, QueryResult::Message("Table 'users' created successfully.".to_string()));
    db
}

fn bob_row() -> Row {
    let mut row = Row::new();
    row.set("id".to_string(), DataType::Integer(5));
    row.set("name".to_string(), DataType::Text("Bob".to_string()));
    row
}

fn users_db_with_bob() -> Database {
    let mut db = users_db();
    let r = execute(
        &mut db,
        Command::Insert { table_name: "users".to_string(), row: bob_row() },
    );
    assert_eq!(r, QueryResult::Message("Row inserted into table 'users'.".to_string()));
    db
}

fn select_all(db: &mut Database, table: &str) -> QueryResult {
    execute(
        db,
        Command::Select { table_name: table.to_string(), fields: vec![], where_clause: None },
    )
}

fn select_where(db: &mut Database, table: &str, column: &str, value: &str) -> QueryResult {
    execute(
        db,
        Command::Select {
            table_name: table.to_string(),
            fields: vec![],
            where_clause: Some(WhereClause {
                column: column.to_string(),
                value: value.to_string(),
            }),
        },
    )
}

#[test]
fn create_table_reports_success() {
    users_db();
}

#[test]
fn insert_row_reports_success_and_counts_one() {
    let mut db = users_db_with_bob();
    assert_eq!(db.get_table("users").unwrap().rows.len(), 1);
    let _ = &mut db;
}

#[test]
fn insert_type_mismatch_names_column_and_keeps_count() {
    let mut db = users_db_with_bob();
    let mut row = Row::new();
    row.set("id".to_string(), DataType::Text("five".to_string()));
    let r = execute(&mut db, Command::Insert { table_name: "users".to_string(), row });
    assert_eq!(
        r,
        QueryResult::Error(
            "Type mismatch for column 'id'. Expected Integer, got Text(\"five\")".to_string()
        )
    );
    assert_eq!(db.get_table("users").unwrap().rows.len(), 1);
}

#[test]
fn select_where_matching_integer_returns_row() {
    let mut db = users_db_with_bob();
    let r = select_where(&mut db, "users", "id", "5");
    assert_eq!(r, QueryResult::Rows(vec![bob_row()]));
}

#[test]
fn select_where_no_match_returns_empty() {
    let mut db = users_db_with_bob();
    let r = select_where(&mut db, "users", "id", "6");
    assert_eq!(r, QueryResult::Rows(vec![]));
}

#[test]
fn select_missing_table_reports_not_found() {
    let mut db = users_db_with_bob();
    let r = select_all(&mut db, "ghost");
    assert_eq!(r, QueryResult::Error("Table 'ghost' not found.".to_string()));
}

#[test]
fn duplicate_create_keeps_original_columns() {
    let mut db = users_db_with_bob();
    let other = vec![Column { name: "age".to_string(), col_type: ColumnType::Integer }];
    let r = execute(
        &mut db,
        Command::CreateTable { table_name: "users".to_string(), columns: other },
    );
    assert_eq!(r, QueryResult::Message("Table 'users' created successfully.".to_string()));
    let t = db.get_table("users").unwrap();
    assert_eq!(t.columns.len(), 2);
    assert_eq!(t.columns[0].name, "id");
    assert_eq!(t.columns[0].col_type, ColumnType::Integer);
    assert_eq!(t.columns[1].name, "name");
    assert_eq!(t.columns[1].col_type, ColumnType::Text);
    assert_eq!(t.rows.len(), 1);
}

#[test]
fn insert_into_missing_table_reports_error() {
    let mut db = users_db();
    let r = execute(
        &mut db,
        Command::Insert { table_name: "ghost".to_string(), row: bob_row() },
    );
    assert_eq!(r, QueryResult::Error("Table 'ghost' does not exist.".to_string()));
}

#[test]
fn insert_unknown_column_names_both_and_keeps_count() {
    let mut db = users_db_with_bob();
    let mut row = Row::new();
    row.set("age".to_string(), DataType::Integer(44));
    let r = execute(&mut db, Command::Insert { table_name: "users".to_string(), row });
    assert_eq!(
        r,
        QueryResult::Error("Column 'age' does not exist in table 'users'.".to_string())
    );
    assert_eq!(db.get_table("users").unwrap().rows.len(), 1);
}

#[test]
fn insert_partial_row_is_accepted() {
    let mut db = users_db_with_bob();
    let mut row = Row::new();
    row.set("name".to_string(), DataType::Text("Eve".to_string()));
    let r = execute(&mut db, Command::Insert { table_name: "users".to_string(), row });
    assert_eq!(r, QueryResult::Message("Row inserted into table 'users'.".to_string()));
    assert_eq!(db.get_table("users").unwrap().rows.len(), 2);
}

#[test]
fn select_without_clause_returns_all_in_insertion_order() {
    let mut db = users_db_with_bob();
    let mut second = Row::new();
    second.set("id".to_string(), DataType::Integer(6));
    second.set("name".to_string(), DataType::Text("Ada".to_string()));
    let r = execute(
        &mut db,
        Command::Insert { table_name: "users".to_string(), row: second.clone() },
    );
    assert_eq!(r, QueryResult::Message("Row inserted into table 'users'.".to_string()));
    let r = select_all(&mut db, "users");
    assert_eq!(r, QueryResult::Rows(vec![bob_row(), second]));
}

#[test]
fn select_where_excludes_rows_missing_the_column() {
    let mut db = users_db_with_bob();
    let mut nameless = Row::new();
    nameless.set("id".to_string(), DataType::Integer(5));
    execute(&mut db, Command::Insert { table_name: "users".to_string(), row: nameless.clone() });
    let mut idless = Row::new();
    idless.set("name".to_string(), DataType::Text("Eve".to_string()));
    execute(&mut db, Command::Insert { table_name: "users".to_string(), row: idless });
    let r = select_where(&mut db, "users", "id", "5");
    assert_eq!(r, QueryResult::Rows(vec![bob_row(), nameless]));
}

#[test]
fn select_where_matches_text_exactly() {
    let mut db = users_db_with_bob();
    let r = select_where(&mut db, "users", "name", "Bob");
    assert_eq!(r, QueryResult::Rows(vec![bob_row()]));
    let r = select_where(&mut db, "users", "name", "bob");
    assert_eq!(r, QueryResult::Rows(vec![]));
}

#[test]
fn select_where_matches_negative_and_extreme_integers() {
    let mut db = users_db();
    let mut row = Row::new();
    row.set("id".to_string(), DataType::Integer(-7));
    execute(&mut db, Command::Insert { table_name: "users".to_string(), row: row.clone() });
    let mut edge = Row::new();
    edge.set("id".to_string(), DataType::Integer(i32::MIN));
    execute(&mut db, Command::Insert { table_name: "users".to_string(), row: edge.clone() });
    let mut top = Row::new();
    top.set("id".to_string(), DataType::Integer(i32::MAX));
    execute(&mut db, Command::Insert { table_name: "users".to_string(), row: top.clone() });
    let mut zero = Row::new();
    zero.set("id".to_string(), DataType::Integer(0));
    execute(&mut db, Command::Insert { table_name: "users".to_string(), row: zero.clone() });
    assert_eq!(select_where(&mut db, "users", "id", "-7"), QueryResult::Rows(vec![row]));
    assert_eq!(
        select_where(&mut db, "users", "id", "-2147483648"),
        QueryResult::Rows(vec![edge])
    );
    assert_eq!(
        select_where(&mut db, "users", "id", "2147483647"),
        QueryResult::Rows(vec![top])
    );
    assert_eq!(select_where(&mut db, "users", "id", "0"), QueryResult::Rows(vec![zero]));
}

#[test]
fn mismatch_message_renders_integer_value() {
    let mut db = users_db();
    let mut row = Row::new();
    row.set("name".to_string(), DataType::Integer(-12));
    let r = execute(&mut db, Command::Insert { table_name: "users".to_string(), row });
    assert_eq!(
        r,
        QueryResult::Error(
            "Type mismatch for column 'name'. Expected Text, got Integer(-12)".to_string()
        )
    );
}

#[test]
fn first_failing_entry_decides_the_error() {
    let mut db = users_db();
    let mut row = Row::new();
    row.set("id".to_string(), DataType::Text("x".to_string()));
    row.set("age".to_string(), DataType::Integer(3));
    let r = execute(&mut db, Command::Insert { table_name: "users".to_string(), row });
    assert_eq!(
        r,
        QueryResult::Error(
            "Type mismatch for column 'id'. Expected Integer, got Text(\"x\")".to_string()
        )
    );
    assert_eq!(db.get_table("users").unwrap().rows.len(), 0);
}

#[test]
fn select_where_compares_integer_rendering_not_numeric_value() {
    let mut db = users_db_with_bob();
    assert_eq!(select_where(&mut db, "users", "id", "05"), QueryResult::Rows(vec![]));
    assert_eq!(select_where(&mut db, "users", "id", "+5"), QueryResult::Rows(vec![]));
    assert_eq!(select_where(&mut db, "users", "id", "5 "), QueryResult::Rows(vec![]));
}

#[test]
fn select_accepts_fields_but_returns_whole_rows() {
    let mut db = users_db_with_bob();
    let r = execute(
        &mut db,
        Command::Select {
            table_name: "users".to_string(),
            fields: vec!["id".to_string()],
            where_clause: None,
        },
    );
    assert_eq!(r, QueryResult::Rows(vec![bob_row()]));
}

#[test]
fn row_set_replaces_an_existing_key() {
    let mut row = Row::new();
    row.set("id".to_string(), DataType::Integer(1));
    row.set("id".to_string(), DataType::Integer(2));
    assert_eq!(row.len(), 1);
    assert_eq!(row.get("id"), Some(&DataType::Integer(2)));
    assert_eq!(row.get("name"), None);
}

#[test]
fn table_new_and_insert_are_a_dumb_container() {
    let mut t = Table::new("t".to_string(), users_columns());
    assert_eq!(t.rows.len(), 0);
    let mut row = Row::new();
    row.set("whatever".to_string(), DataType::Integer(9));
    t.insert(row);
    assert_eq!(t.rows.len(), 1);
}

#[test]
fn get_table_mut_finds_by_exact_name() {
    let mut db = users_db_with_bob();
    assert!(db.get_table_mut("user").is_none());
    let t = db.get_table_mut("users").unwrap();
    assert_eq!(t.name, "users");
    t.insert(bob_row());
    assert_eq!(db.get_table("users").unwrap().rows.len(), 2);
}
