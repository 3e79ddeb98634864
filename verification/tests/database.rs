use rusqlite::types::Value;
use rusqlite::Connection;
use silo::column::{SqlColumn, SqlColumnType};
use silo::convert::text_value;
use silo::database::{create_statement, creation_for, CheckError, Database};
use silo::filter::{FieldFilter, GenericFilter, SqlColumnFilter};
use silo::migration::{
    reconcile_rows, Backfill, Migration, MigrationAction, MigrationEvent, MigrationHandler,
    MigrationStage, Transpose,
};
use silo::order::GenericOrder;
use silo::partial::PartialValue;
use silo::row::{decode_row, must_be_equal, row_fits};
use silo::statement::{
    delete_sql, filter_within, insert_sql, select_sql, update_statement, SqlFailureBehavior,
};
use silo::value::SqlValue;
use silo::vector::{FromRowType, RowRecord, ToRows, VecEntity};

fn bind(value: &SqlValue) -> Value {
    match value {
        SqlValue::Float(literal) => Value::Real(literal.parse::<f64>().expect("a number")),
        SqlValue::Integer(i) => Value::Integer(*i),
        SqlValue::Null => Value::Null,
        SqlValue::Text(t) => Value::Text(t.clone()),
        SqlValue::Blob(b) => Value::Blob(b.clone()),
    }
}

fn unbind(value: Value) -> SqlValue {
    match value {
        Value::Real(x) => SqlValue::Float(x.to_string()),
        Value::Integer(i) => SqlValue::Integer(i),
        Value::Null => SqlValue::Null,
        Value::Text(t) => SqlValue::Text(t),
        Value::Blob(b) => SqlValue::Blob(b),
    }
}

fn run(connection: &Connection, sql: &str, parameters: &[SqlValue]) -> rusqlite::Result<usize> {
    connection.execute(sql, rusqlite::params_from_iter(parameters.iter().map(bind)))
}

fn read(connection: &Connection, sql: &str) -> rusqlite::Result<Vec<Vec<SqlValue>>> {
    let mut statement = connection.prepare(sql)?;
    let width = statement.column_count();
    let rows = statement.query_map([], |row| {
        (0..width).map(|i| row.get::<_, Value>(i).map(unbind)).collect::<rusqlite::Result<Vec<_>>>()
    })?;
    rows.collect()
}

fn column(name: &'static str, sql_type: SqlColumnType) -> SqlColumn {
    SqlColumn { name, sql_type, is_primary: false, is_unique: false }
}

fn point_columns() -> [SqlColumn; 2] {
    [column("x", SqlColumnType::Integer), column("y", SqlColumnType::Integer)]
}

fn insert(database: &Database, table: &str, columns: &[SqlColumn], row: &[SqlValue]) {
    assert!(row_fits(columns, &row.to_vec()));
    let sql = insert_sql(SqlFailureBehavior::Abort, table, columns, true);
    run(database.connection(), &sql, row).expect("an insert");
}

fn filter(
    database: &Database,
    table: &str,
    columns: &[SqlColumn],
    filter: &GenericFilter,
) -> Vec<Vec<SqlValue>> {
    assert!(filter.is_compilable());
    assert!(filter_within(filter, columns));
    let sql = select_sql(table, columns, filter, &GenericOrder::default());
    read(database.connection(), &sql)
        .expect("a query")
        .iter()
        .map(|row| decode_row(columns, columns, row).expect("a row of the entity"))
        .collect()
}

fn x_is(database: &mut Database, x: i32) -> GenericFilter {
    let typed = FieldFilter::Fields(vec![
        ("x", FieldFilter::Column(SqlColumnFilter::MustBeEqual(x).into_generic())),
        ("y", FieldFilter::Column(SqlColumnFilter::Ignored)),
    ]);
    database.compile_filter(&typed)
}

#[test]
fn a_point_is_found_by_its_x() {
    let mut database = Database::create_in_memory().unwrap();
    database.load("PointTable", &point_columns()).unwrap();
    insert(&database, "PointTable", &point_columns(), &[SqlValue::Integer(12), SqlValue::Integer(42)]);
    let twelve = x_is(&mut database, 12);
    let found = filter(&database, "PointTable", &point_columns(), &twelve);
    assert!(found == vec![vec![SqlValue::Integer(12), SqlValue::Integer(42)]]);
    let thirteen = x_is(&mut database, 13);
    let found = filter(&database, "PointTable", &point_columns(), &thirteen);
    assert!(found.is_empty());
}

#[test]
fn an_entity_is_found_by_the_filter_that_asks_for_it() {
    let database = Database::create_in_memory().unwrap();
    let columns = [
        column("name", SqlColumnType::Text),
        column("gender", SqlColumnType::OptionalInteger),
        column("score", SqlColumnType::Float),
    ];
    database.load("CastTable", &columns).unwrap();
    let entity = vec![text_value("O'Neil"), SqlValue::Null, SqlValue::Float("13324.3124".to_string())];
    insert(&database, "CastTable", &columns, &entity);
    let found = filter(&database, "CastTable", &columns, &must_be_equal(&columns, &entity));
    assert!(found == vec![entity.clone()]);
    let everything = filter(&database, "CastTable", &columns, &GenericFilter::default());
    assert!(everything == vec![entity]);
}

#[test]
fn an_open_filter_returns_every_row() {
    let mut database = Database::create_in_memory().unwrap();
    database.load("PointTable", &point_columns()).unwrap();
    for i in 0..5 {
        insert(&database, "PointTable", &point_columns(), &[SqlValue::Integer(i), SqlValue::Integer(-i)]);
    }
    let open = FieldFilter::Fields(vec![
        ("x", FieldFilter::Column(SqlColumnFilter::Ignored)),
        ("y", FieldFilter::Column(SqlColumnFilter::Ignored)),
    ]);
    let generic = database.compile_filter(&open);
    assert_eq!(generic.to_sql(), "");
    assert_eq!(filter(&database, "PointTable", &point_columns(), &generic).len(), 5);
}

#[test]
fn containment_matches_substrings() {
    let database = Database::create_in_memory().unwrap();
    let columns = [column("title", SqlColumnType::Text)];
    database.load("MovieTable", &columns).unwrap();
    for title in ["Bananas", "Cabana", "Apple"] {
        insert(&database, "MovieTable", &columns, &[text_value(title)]);
    }
    let mut generic = GenericFilter::default();
    generic.insert("title", SqlColumnFilter::Contains(text_value("ana")));
    let found = filter(&database, "MovieTable", &columns, &generic);
    assert!(found == vec![vec![text_value("Bananas")], vec![text_value("Cabana")]]);
}

#[test]
fn lib_test() {
    let x: f64 = 430.0;
    let y: f64 = 13324.3124;
    let mut database = Database::create_in_memory().unwrap();
    let columns = [column("x", SqlColumnType::Float), column("y", SqlColumnType::Float)];
    database.load("CoordTable", &columns).unwrap();
    let coord = vec![SqlValue::float(x.to_string()).unwrap(), SqlValue::float(y.to_string()).unwrap()];
    insert(&database, "CoordTable", &columns, &coord);
    let y_should_be = FieldFilter::Fields(vec![
        ("x", FieldFilter::Column(SqlColumnFilter::Ignored)),
        (
            "y",
            FieldFilter::Column(SqlColumnFilter::MustBeEqual(SqlValue::float(y.to_string()).unwrap())),
        ),
    ]);
    let generic = database.compile_filter(&y_should_be);
    assert_eq!(generic.to_sql(), "WHERE y  = 13324.3124");
    let coords = filter(&database, "CoordTable", &columns, &generic);
    assert!(coords == vec![coord]);
    let read: Vec<f64> = coords[0]
        .iter()
        .map(|v| match v {
            SqlValue::Float(literal) => literal.parse().unwrap(),
            _ => panic!("a float was expected"),
        })
        .collect();
    assert_eq!(read, vec![430.0, 13324.3124]);
}

#[test]
fn a_table_is_created_where_it_is_missing() {
    assert_eq!(creation_for(true, "PointTable", &point_columns()), None);
    assert_eq!(
        creation_for(false, "PointTable", &point_columns()),
        Some("CREATE TABLE IF NOT EXISTS PointTable (\"x\" INTEGER,\"y\" INTEGER);".to_string())
    );
    assert_eq!(creation_for(true, "T", &[]), None);
    assert_eq!(creation_for(false, "T", &[]), Some("CREATE TABLE IF NOT EXISTS T ();".to_string()));
}

#[test]
fn a_table_is_created_once() {
    let database = Database::create_in_memory().unwrap();
    assert_eq!(
        create_statement("PointTable", &point_columns()),
        "CREATE TABLE IF NOT EXISTS PointTable (\"x\" INTEGER,\"y\" INTEGER);"
    );
    database.load("PointTable", &point_columns()).unwrap();
    insert(&database, "PointTable", &point_columns(), &[SqlValue::Integer(1), SqlValue::Integer(2)]);
    database.load("PointTable", &[column("other", SqlColumnType::Text)]).unwrap();
    let rows = read(database.connection(), "SELECT x, y from PointTable").unwrap();
    assert_eq!(rows.len(), 1);
}

#[test]
fn rows_are_deleted_by_filter() {
    let mut database = Database::create_in_memory().unwrap();
    database.load("PointTable", &point_columns()).unwrap();
    for x in [12, 12, 13] {
        insert(&database, "PointTable", &point_columns(), &[SqlValue::Integer(x), SqlValue::Integer(0)]);
    }
    let twelve = x_is(&mut database, 12);
    assert_eq!(delete_sql("PointTable", &twelve), "DELETE FROM PointTable WHERE x  = 12");
    assert_eq!(database.delete_table_filtered("PointTable", &twelve).unwrap(), 2);
    assert_eq!(database.delete_table_filtered("PointTable", &twelve).unwrap(), 0);
    assert_eq!(database.delete_table_filtered("PointTable", &GenericFilter::default()).unwrap(), 1);
    assert!(database.delete_table_filtered("NoSuchTable", &twelve).is_err());
}

#[test]
fn a_partial_update_leaves_other_fields_alone() {
    let mut database = Database::create_in_memory().unwrap();
    database.load("PointTable", &point_columns()).unwrap();
    insert(&database, "PointTable", &point_columns(), &[SqlValue::Integer(12), SqlValue::Integer(42)]);
    insert(&database, "PointTable", &point_columns(), &[SqlValue::Integer(13), SqlValue::Integer(43)]);
    let twelve = x_is(&mut database, 12);
    let only_y = vec![PartialValue::Fields(vec![
        ("x", PartialValue::Leaf { value: None, required: true }),
        ("y", PartialValue::Leaf { value: Some(SqlValue::Integer(7)), required: true }),
    ])];
    let statement = update_statement("PointTable", &twelve, &only_y).expect("a statement");
    assert_eq!(statement.sql, "UPDATE PointTable SET y = ?1 WHERE x  = 12");
    for parameters in &statement.parameters {
        assert_eq!(run(database.connection(), &statement.sql, parameters).unwrap(), 1);
    }
    let rows = filter(&database, "PointTable", &point_columns(), &GenericFilter::default());
    assert!(
        rows == vec![
            vec![SqlValue::Integer(12), SqlValue::Integer(7)],
            vec![SqlValue::Integer(13), SqlValue::Integer(43)]
        ]
    );
    let nothing = vec![PartialValue::Fields(vec![
        ("x", PartialValue::Leaf { value: None, required: true }),
        ("y", PartialValue::Leaf { value: None, required: true }),
    ])];
    assert!(update_statement("PointTable", &twelve, &nothing).is_none());
}

#[test]
fn a_fresh_table_needs_no_migration() {
    let mut database = Database::create_in_memory().unwrap();
    let columns = [
        SqlColumn { name: "id", sql_type: SqlColumnType::Integer, is_primary: true, is_unique: false },
        SqlColumn { name: "code", sql_type: SqlColumnType::Text, is_primary: false, is_unique: true },
        column("note", SqlColumnType::OptionalText),
    ];
    database.load("TestTable", &columns).unwrap();
    assert!(matches!(database.check("TestTable", &columns), Ok(None)));
}

#[test]
fn a_changed_entity_needs_a_migration() {
    let mut database = Database::create_in_memory().unwrap();
    database.load("PointTable", &point_columns()).unwrap();
    let wider = [
        column("x", SqlColumnType::Integer),
        column("y", SqlColumnType::Integer),
        column("z", SqlColumnType::Integer),
    ];
    let live = database.check("PointTable", &wider).unwrap().expect("the live columns");
    assert_eq!(
        live,
        vec![column("x", SqlColumnType::OptionalInteger), column("y", SqlColumnType::OptionalInteger)]
    );
    let unique_y = [
        column("x", SqlColumnType::Integer),
        SqlColumn { name: "y", sql_type: SqlColumnType::Integer, is_primary: false, is_unique: true },
    ];
    assert!(database.check("PointTable", &unique_y).unwrap().is_some());
    let narrower = [column("x", SqlColumnType::Integer)];
    assert!(database.check("PointTable", &narrower).unwrap().is_some());
    let retyped = [column("x", SqlColumnType::Text), column("y", SqlColumnType::Integer)];
    assert!(database.check("PointTable", &retyped).unwrap().is_some());
}

#[test]
fn an_unknown_declared_type_is_reported() {
    let mut database = Database::create_in_memory().unwrap();
    run(database.connection(), "CREATE TABLE Odd (x INTEGER, y DATETIME)", &[]).unwrap();
    match database.check("Odd", &point_columns()) {
        Err(CheckError::UnknownColumnType(e)) => {
            assert_eq!(e.position, 1);
            assert_eq!(e.declared_as, "DATETIME");
        }
        _ => panic!("an unknown type was expected"),
    }
}

fn migrate<H: MigrationHandler>(
    database: &Database,
    table: &'static str,
    columns: &[SqlColumn],
    live: &[SqlColumn],
    handler: H,
) -> MigrationStage {
    let connection = database.connection();
    let mut migration = Migration::new(table, columns.to_vec());
    let mut event = MigrationEvent::Begin;
    loop {
        event = match migration.step(event) {
            MigrationAction::Execute(sql) => match run(connection, &sql, &[]) {
                Ok(_) => MigrationEvent::Executed,
                Err(_) => MigrationEvent::Failed,
            },
            MigrationAction::Query(sql) => match read(connection, &sql) {
                Ok(rows) => MigrationEvent::Rows(rows),
                Err(_) => MigrationEvent::Failed,
            },
            MigrationAction::Reconcile(rows) => {
                MigrationEvent::Reconciled(reconcile_rows(&handler, columns, live, &rows))
            }
            MigrationAction::Insert { sql, rows } => {
                if rows.iter().all(|row| run(connection, &sql, row).is_ok()) {
                    MigrationEvent::Executed
                } else {
                    MigrationEvent::Failed
                }
            }
            MigrationAction::Finish | MigrationAction::Abort => return migration.stage,
        };
    }
}

fn old_columns() -> [SqlColumn; 2] {
    [column("a", SqlColumnType::Integer), column("b", SqlColumnType::Text)]
}

fn new_columns() -> [SqlColumn; 3] {
    [
        column("a", SqlColumnType::Integer),
        column("b", SqlColumnType::Text),
        column("c", SqlColumnType::Integer),
    ]
}

fn old_table() -> Database {
    let database = Database::create_in_memory().unwrap();
    database.load("Things", &old_columns()).unwrap();
    for (a, b) in [(1, "one"), (2, "two"), (3, "three")] {
        insert(&database, "Things", &old_columns(), &[SqlValue::Integer(a), text_value(b)]);
    }
    database
}

#[test]
fn migration_preserves_data() {
    let mut database = old_table();
    let live = database.check("Things", &new_columns()).unwrap().expect("the live columns");
    let handler = Backfill { defaults: vec![None, None, Some(SqlValue::Integer(55))] };
    assert_eq!(migrate(&database, "Things", &new_columns(), &live, handler), MigrationStage::Done);
    let rows = filter(&database, "Things", &new_columns(), &GenericFilter::default());
    assert!(
        rows == vec![
            vec![SqlValue::Integer(1), text_value("one"), SqlValue::Integer(55)],
            vec![SqlValue::Integer(2), text_value("two"), SqlValue::Integer(55)],
            vec![SqlValue::Integer(3), text_value("three"), SqlValue::Integer(55)],
        ]
    );
    assert!(matches!(database.check("Things", &new_columns()), Ok(None)));
    assert!(read(database.connection(), "SELECT * FROM temporary").is_err());
}

#[test]
fn migration_drops_incompatible_rows() {
    let mut database = old_table();
    run(database.connection(), "INSERT INTO Things (a, b) VALUES (NULL, 'no key')", &[]).unwrap();
    let live = database.check("Things", &new_columns()).unwrap().expect("the live columns");
    let handler = Backfill { defaults: vec![None, None, Some(SqlValue::Integer(0))] };
    assert_eq!(migrate(&database, "Things", &new_columns(), &live, handler), MigrationStage::Done);
    let rows = filter(&database, "Things", &new_columns(), &GenericFilter::default());
    assert_eq!(rows.len(), 3);
    let narrower = [column("a", SqlColumnType::Integer), column("d", SqlColumnType::Text)];
    let live = database.check("Things", &narrower).unwrap().expect("the live columns");
    assert_eq!(migrate(&database, "Things", &narrower, &live, Transpose), MigrationStage::Done);
    assert!(filter(&database, "Things", &narrower, &GenericFilter::default()).is_empty());
}

#[test]
fn migration_passes_over_rows_that_violate_uniqueness() {
    let mut database = old_table();
    insert(&database, "Things", &old_columns(), &[SqlValue::Integer(4), text_value("one")]);
    let unique_b = [
        column("a", SqlColumnType::Integer),
        SqlColumn { name: "b", sql_type: SqlColumnType::Text, is_primary: false, is_unique: true },
    ];
    let live = database.check("Things", &unique_b).unwrap().expect("the live columns");
    assert_eq!(migrate(&database, "Things", &unique_b, &live, Transpose), MigrationStage::Done);
    let rows = filter(&database, "Things", &unique_b, &GenericFilter::default());
    assert_eq!(rows.len(), 3);
    assert!(rows[0] == vec![SqlValue::Integer(1), text_value("one")]);
    assert!(matches!(database.check("Things", &unique_b), Ok(None)));
}

#[test]
fn a_failed_migration_leaves_the_temporary_table() {
    let database = old_table();
    assert_eq!(
        migrate(&database, "Missing", &new_columns(), &old_columns(), Transpose),
        MigrationStage::Aborted
    );
    assert!(read(database.connection(), "SELECT * FROM temporary").is_ok());
    assert_eq!(read(database.connection(), "SELECT a, b from Things").unwrap().len(), 3);
}

#[test]
fn names_are_interned_in_the_store() {
    let mut database = Database::create_in_memory().unwrap();
    let first = database.store(&["parent", "_", "child"]);
    let second = database.store(&["parent", "_", "child"]);
    assert_eq!(first, "parent_child");
    assert_eq!(first.as_ptr(), second.as_ptr());
    let nested = database.prefixed_columns("parent", &[column("child", SqlColumnType::Text)]);
    assert_eq!(nested, vec![column("parent_child", SqlColumnType::Text)]);
    assert_eq!(nested[0].name.as_ptr(), first.as_ptr());
    let layout = database.vector_columns(
        &column("id", SqlColumnType::Integer),
        &[],
        &[column("tags", SqlColumnType::Text)],
    );
    assert_eq!(
        layout,
        vec![
            column("id", SqlColumnType::Integer),
            column("tags", SqlColumnType::OptionalText),
            column("tags_silo_remaining_elements", SqlColumnType::Integer),
        ]
    );
}

#[test]
fn vectors_round_trip_through_a_table() {
    let database = Database::create_in_memory().unwrap();
    let columns = [
        column("the_id", SqlColumnType::Integer),
        column("non_vec_field", SqlColumnType::Text),
        column("keywords", SqlColumnType::OptionalText),
        column("little_list", SqlColumnType::OptionalInteger),
        column("keywords_silo_remaining_elements", SqlColumnType::Integer),
        column("little_list_silo_remaining_elements", SqlColumnType::Integer),
    ];
    database.load("FooWithVecTable", &columns).unwrap();
    let entities = [
        VecEntity {
            key: SqlValue::Integer(31),
            scalars: vec![text_value("Do not duplicate data needlessly")],
            vectors: vec![
                vec![text_value("hello"), text_value("world"), text_value("test")],
                vec![SqlValue::Integer(42)],
            ],
        },
        VecEntity {
            key: SqlValue::Integer(32),
            scalars: vec![text_value("second")],
            vectors: vec![vec![], vec![SqlValue::Integer(1), SqlValue::Integer(2)]],
        },
    ];
    for entity in entities {
        let rows: Vec<RowRecord> = entity.to_rows();
        for row in rows.iter().rev() {
            insert(&database, "FooWithVecTable", &columns, &row.as_params().expect("a row"));
        }
    }
    let order = GenericOrder::by_counters(&[
        "keywords_silo_remaining_elements",
        "little_list_silo_remaining_elements",
    ]);
    let mut by_key = GenericOrder::default();
    by_key.add("the_id", silo::order::ColumnOrdering::default());
    by_key.columns.extend(order.columns);
    let sql = select_sql("FooWithVecTable", &columns, &GenericFilter::default(), &by_key);
    let records: Vec<RowRecord> = read(database.connection(), &sql)
        .unwrap()
        .iter()
        .map(|row| RowRecord::try_from_row(row, 1, 2).expect("a row record"))
        .collect();
    assert_eq!(records.len(), 5);
    let back = VecEntity::from_row_type(records);
    assert_eq!(back.len(), 2);
    assert!(back[0].vectors[0] == vec![text_value("hello"), text_value("world"), text_value("test")]);
    assert!(back[0].vectors[1] == vec![SqlValue::Integer(42)]);
    assert!(back[1].vectors[0].is_empty());
    assert!(back[1].vectors[1] == vec![SqlValue::Integer(1), SqlValue::Integer(2)]);
    assert!(back[1].scalars == vec![text_value("second")]);
}

#[test]
fn a_vector_entity_is_read_back_in_the_default_order() {
    let mut database = Database::create_in_memory().unwrap();
    let columns = database.vector_columns(
        &column("id", SqlColumnType::Integer),
        &[column("title", SqlColumnType::Text)],
        &[column("a", SqlColumnType::OptionalText), column("b", SqlColumnType::Integer)],
    );
    database.load("PairTable", &columns).unwrap();
    let entity = || VecEntity {
        key: SqlValue::Integer(7),
        scalars: vec![text_value("pair")],
        vectors: vec![
            vec![text_value("a0"), SqlValue::Null, text_value("a2")],
            vec![SqlValue::Integer(10)],
        ],
    };
    let rows = entity().to_table_rows().expect("rows");
    assert_eq!(rows.len(), 3);
    for row in [&rows[1], &rows[2], &rows[0]] {
        insert(&database, "PairTable", &columns, row);
    }
    let counters = silo::column::counter_names(&columns, 2).expect("counters");
    assert_eq!(counters, vec!["a_silo_remaining_elements", "b_silo_remaining_elements"]);
    let order = GenericOrder::by_counters(&counters);
    let sql = select_sql("PairTable", &columns, &GenericFilter::default(), &order);
    let stored = read(database.connection(), &sql).unwrap();
    assert!(stored == rows);
    let back = VecEntity::from_table_rows(&stored, 1, 2).expect("entities");
    assert_eq!(back.len(), 1);
    assert!(back[0].key == entity().key);
    assert!(back[0].scalars == entity().scalars);
    assert!(back[0].vectors == entity().vectors);
    assert!(back[0].vectors[1] == vec![SqlValue::Integer(10)]);
}
