use silo::column::{SqlColumn, SqlColumnType};
use silo::interner::StaticStringStorage;
use silo::database::{column_positions, reported_index, reported_row};
use silo::schema::{
    column_type_of, compare_columns, judge_table, live_columns, mark_all_unique, mark_unique,
    table_alterations, unique_index_names, TableAlteration, TableInfoRow,
};

fn column(name: &'static str, sql_type: SqlColumnType) -> SqlColumn {
    SqlColumn { name, sql_type, is_primary: false, is_unique: false }
}

#[test]
fn the_same_columns_need_no_migration() {
    let expected = [column("x", SqlColumnType::Integer), column("y", SqlColumnType::Text)];
    let live = [column("y", SqlColumnType::OptionalText), column("x", SqlColumnType::OptionalInteger)];
    assert!(table_alterations(&live, &expected).is_empty());
    assert!(!compare_columns(&live, &expected));
    assert!(!compare_columns(&[], &[]));
}

#[test]
fn a_missing_column_is_inserted() {
    let expected = [column("a", SqlColumnType::Integer), column("c", SqlColumnType::Text)];
    let live = [column("a", SqlColumnType::OptionalInteger)];
    let found = table_alterations(&live, &expected);
    assert_eq!(found.len(), 1);
    assert!(matches!(found[0], TableAlteration::InsertColumn(c) if c.name == "c"));
    assert!(compare_columns(&live, &expected));
}

#[test]
fn an_unexpected_column_is_deleted() {
    let expected = [column("a", SqlColumnType::Integer)];
    let live = [column("old", SqlColumnType::OptionalText), column("a", SqlColumnType::OptionalInteger)];
    let found = table_alterations(&live, &expected);
    assert_eq!(found.len(), 1);
    assert!(matches!(found[0], TableAlteration::DeleteColumn("old")));
    assert!(compare_columns(&live, &expected));
}

#[test]
fn changed_flags_and_types_are_reported_in_order() {
    let expected = [
        column("a", SqlColumnType::Integer),
        SqlColumn { name: "id", sql_type: SqlColumnType::Text, is_primary: true, is_unique: true },
    ];
    let live = [column("id", SqlColumnType::OptionalInteger), column("a", SqlColumnType::OptionalInteger)];
    let found = table_alterations(&live, &expected);
    assert_eq!(found.len(), 3);
    assert!(matches!(found[0], TableAlteration::ChangeIsPrimary(1, true)));
    assert!(matches!(found[1], TableAlteration::ChangeIsUnique(1, true)));
    assert!(matches!(found[2], TableAlteration::ChangeType(1, SqlColumnType::Text)));
}

#[test]
fn declared_types_are_read_with_their_nullability() {
    assert_eq!(column_type_of("TEXT", true), Some(SqlColumnType::Text));
    assert_eq!(column_type_of("TEXT", false), Some(SqlColumnType::OptionalText));
    assert_eq!(column_type_of("INTEGER", true), Some(SqlColumnType::Integer));
    assert_eq!(column_type_of("INTEGER", false), Some(SqlColumnType::OptionalInteger));
    assert_eq!(column_type_of("REAL", true), Some(SqlColumnType::Float));
    assert_eq!(column_type_of("REAL", false), Some(SqlColumnType::OptionalFloat));
    assert_eq!(column_type_of("BLOB", true), Some(SqlColumnType::Blob));
    assert_eq!(column_type_of("BLOB", false), Some(SqlColumnType::OptionalBlob));
    assert_eq!(column_type_of("NULL", true), Some(SqlColumnType::Null));
    assert_eq!(column_type_of("NULL", false), Some(SqlColumnType::Null));
    assert_eq!(column_type_of("VARCHAR(20)", false), None);
    assert_eq!(column_type_of("text", false), None);
    assert_eq!(column_type_of("", false), None);
}

fn info(name: &str, declared_as: &str, not_null: bool, primary: bool) -> TableInfoRow {
    TableInfoRow { name: name.to_string(), declared_as: declared_as.to_string(), not_null, primary }
}

#[test]
fn reported_columns_become_descriptors() {
    let mut storage = StaticStringStorage::new();
    let report = vec![info("id", "INTEGER", false, true), info("name", "TEXT", true, false)];
    let columns = live_columns(&mut storage, &report).unwrap();
    assert_eq!(
        columns,
        vec![
            SqlColumn {
                name: "id",
                sql_type: SqlColumnType::OptionalInteger,
                is_primary: true,
                is_unique: false
            },
            SqlColumn {
                name: "name",
                sql_type: SqlColumnType::Text,
                is_primary: false,
                is_unique: false
            },
        ]
    );
    assert_eq!(storage.len(), 2);
    assert_eq!(storage.get("id").map(|s| s.as_ptr()), Some(columns[0].name.as_ptr()));
}

#[test]
fn an_unknown_declared_type_fails_the_table() {
    let mut storage = StaticStringStorage::new();
    let report = vec![info("id", "INTEGER", false, true), info("when", "DATETIME", false, false)];
    let error = live_columns(&mut storage, &report).unwrap_err();
    assert_eq!(error.position, 1);
    assert_eq!(error.declared_as, "DATETIME");
}

#[test]
fn unique_indices_mark_their_columns() {
    let mut columns = vec![
        column("a", SqlColumnType::Integer),
        column("b", SqlColumnType::Integer),
        column("c", SqlColumnType::Integer),
    ];
    assert!(mark_unique(&mut columns, 1));
    assert!(!mark_unique(&mut columns, 3));
    assert_eq!(columns.iter().map(|c| c.is_unique).collect::<Vec<_>>(), vec![false, true, false]);
    mark_all_unique(&mut columns, &vec![2, 7, 2]);
    assert_eq!(columns.iter().map(|c| c.is_unique).collect::<Vec<_>>(), vec![false, true, true]);
    assert_eq!(columns[2].name, "c");
}

#[test]
fn a_table_is_judged_by_what_is_reported_of_it() {
    let mut storage = StaticStringStorage::new();
    let report = vec![info("id", "INTEGER", false, true), info("code", "TEXT", false, false)];
    let expected = [
        SqlColumn { name: "id", sql_type: SqlColumnType::Integer, is_primary: true, is_unique: false },
        SqlColumn { name: "code", sql_type: SqlColumnType::Text, is_primary: false, is_unique: true },
    ];
    assert!(judge_table(&mut storage, &report, &vec![1], &expected).unwrap().is_none());
    let live = judge_table(&mut storage, &report, &vec![], &expected).unwrap().expect("columns");
    assert_eq!(live.len(), 2);
    assert!(!live[1].is_unique);
    assert_eq!(live[1].name, "code");
    let live = judge_table(&mut storage, &report, &vec![0, 1], &expected).unwrap().expect("columns");
    assert!(live[0].is_unique && live[1].is_unique);
    let odd = vec![info("id", "NUMERIC", false, true)];
    assert_eq!(judge_table(&mut storage, &odd, &vec![], &expected).unwrap_err().position, 0);
    assert!(judge_table(&mut storage, &vec![], &vec![], &[]).unwrap().is_none());
}

#[test]
fn readings_of_a_column_make_its_report() {
    let row = reported_row(Ok("id".to_string()), Ok("INTEGER".to_string()), Ok(0), Ok(1)).unwrap();
    assert_eq!(row.name, "id");
    assert_eq!(row.declared_as, "INTEGER");
    assert!(!row.not_null);
    assert!(row.primary);
    let row = reported_row(Ok("n".to_string()), Ok("".to_string()), Ok(1), Ok(0)).unwrap();
    assert!(row.not_null && !row.primary);
    let row = reported_row(Ok("k".to_string()), Ok("TEXT".to_string()), Ok(-1), Ok(2)).unwrap();
    assert!(row.not_null && row.primary);
}

#[test]
fn the_first_failed_reading_fails_the_report() {
    let first = || silo::rusqlite::Error::InvalidColumnName("name".to_string());
    let second = || silo::rusqlite::Error::InvalidColumnName("type".to_string());
    let third = || silo::rusqlite::Error::InvalidColumnIndex(3);
    let fourth = || silo::rusqlite::Error::InvalidQuery;
    let failed = reported_row(Err(first()), Err(second()), Err(third()), Err(fourth()));
    assert_eq!(failed.unwrap_err(), first());
    let failed = reported_row(Ok("a".to_string()), Err(second()), Err(third()), Ok(1));
    assert_eq!(failed.unwrap_err(), second());
    let failed = reported_row(Ok("a".to_string()), Ok("b".to_string()), Err(third()), Err(fourth()));
    assert_eq!(failed.unwrap_err(), third());
    let failed = reported_row(Ok("a".to_string()), Ok("b".to_string()), Ok(0), Err(fourth()));
    assert_eq!(failed.unwrap_err(), fourth());
    assert_eq!(reported_index(Err(first()), Err(fourth())).unwrap_err(), first());
    assert_eq!(reported_index(Ok("i".to_string()), Err(fourth())).unwrap_err(), fourth());
}

#[test]
fn only_unique_indices_are_consulted() {
    assert_eq!(reported_index(Ok("one".to_string()), Ok(1)).unwrap(), ("one".to_string(), true));
    assert_eq!(reported_index(Ok("two".to_string()), Ok(0)).unwrap(), ("two".to_string(), false));
    let listing = vec![
        ("a".to_string(), false),
        ("b".to_string(), true),
        ("c".to_string(), false),
        ("d".to_string(), true),
    ];
    assert_eq!(unique_index_names(&listing), vec!["b", "d"]);
    assert!(unique_index_names(&vec![]).is_empty());
    assert_eq!(column_positions(&vec![2, -1, 0, -2, 5]), vec![2, 0, 5]);
}
