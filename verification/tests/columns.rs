use silo::column::{
    counter_columns, counter_names, create_table_sql, define_column, find_by_name,
    has_distinct_names, prefixed_columns, scalar_count, vector_columns, SqlColumn, SqlColumnType,
};
use silo::interner::StaticStringStorage;
use silo::value::SqlValue;

fn column(name: &'static str, sql_type: SqlColumnType) -> SqlColumn {
    SqlColumn { name, sql_type, is_primary: false, is_unique: false }
}

#[test]
fn types_are_declared_without_nullability() {
    assert_eq!(SqlColumnType::Float.as_sql(), "REAL");
    assert_eq!(SqlColumnType::OptionalFloat.as_sql(), "REAL");
    assert_eq!(SqlColumnType::Integer.as_sql(), "INTEGER");
    assert_eq!(SqlColumnType::OptionalInteger.as_sql(), "INTEGER");
    assert_eq!(SqlColumnType::Text.as_sql(), "TEXT");
    assert_eq!(SqlColumnType::OptionalText.as_sql(), "TEXT");
    assert_eq!(SqlColumnType::Blob.as_sql(), "BLOB");
    assert_eq!(SqlColumnType::OptionalBlob.as_sql(), "BLOB");
    assert_eq!(SqlColumnType::Null.as_sql(), "NULL");
}

#[test]
fn every_type_has_a_nullable_form() {
    assert_eq!(SqlColumnType::to_optional(SqlColumnType::Float), SqlColumnType::OptionalFloat);
    assert_eq!(SqlColumnType::to_optional(SqlColumnType::Integer), SqlColumnType::OptionalInteger);
    assert_eq!(SqlColumnType::to_optional(SqlColumnType::Text), SqlColumnType::OptionalText);
    assert_eq!(SqlColumnType::to_optional(SqlColumnType::Blob), SqlColumnType::OptionalBlob);
    assert_eq!(SqlColumnType::to_optional(SqlColumnType::Null), SqlColumnType::Null);
    assert_eq!(
        SqlColumnType::to_optional(SqlColumnType::OptionalText),
        SqlColumnType::OptionalText
    );
    assert!(SqlColumnType::Text.is_required());
    assert!(!SqlColumnType::OptionalText.is_required());
    assert!(!SqlColumnType::Null.is_required());
}

#[test]
fn types_admit_their_own_storage_class() {
    assert!(SqlColumnType::Integer.accepts(&SqlValue::Integer(1)));
    assert!(!SqlColumnType::Integer.accepts(&SqlValue::Null));
    assert!(SqlColumnType::OptionalInteger.accepts(&SqlValue::Null));
    assert!(!SqlColumnType::OptionalInteger.accepts(&SqlValue::Text("1".to_string())));
    assert!(SqlColumnType::Float.accepts(&SqlValue::Float("1.5".to_string())));
    assert!(SqlColumnType::OptionalBlob.accepts(&SqlValue::Blob(vec![])));
    assert!(SqlColumnType::Null.accepts(&SqlValue::Null));
    assert!(!SqlColumnType::Null.accepts(&SqlValue::Integer(0)));
}

#[test]
fn columns_are_defined_with_their_flags() {
    assert_eq!(define_column(&column("x", SqlColumnType::Integer)), "\"x\" INTEGER");
    let key = SqlColumn {
        name: "id",
        sql_type: SqlColumnType::Integer,
        is_primary: true,
        is_unique: false,
    };
    assert_eq!(define_column(&key), "\"id\" INTEGER PRIMARY KEY");
    let both = SqlColumn {
        name: "code",
        sql_type: SqlColumnType::OptionalText,
        is_primary: true,
        is_unique: true,
    };
    assert_eq!(define_column(&both), "\"code\" TEXT UNIQUE PRIMARY KEY");
}

#[test]
fn tables_are_created_with_all_columns() {
    let columns = [column("x", SqlColumnType::Float), column("y", SqlColumnType::Float)];
    assert_eq!(
        create_table_sql("CREATE TABLE temporary", &columns),
        "CREATE TABLE temporary (\"x\" REAL,\"y\" REAL);"
    );
    assert_eq!(create_table_sql("CREATE TABLE t", &[]), "CREATE TABLE t ();");
}

#[test]
fn columns_are_found_by_name() {
    let columns = [
        column("a", SqlColumnType::Integer),
        column("b", SqlColumnType::Text),
        column("a", SqlColumnType::Text),
    ];
    assert_eq!(find_by_name(&columns, "a"), Some(0));
    assert_eq!(find_by_name(&columns, "b"), Some(1));
    assert_eq!(find_by_name(&columns, "c"), None);
    assert_eq!(find_by_name(&[], "a"), None);
}

#[test]
fn nested_columns_take_the_field_as_prefix() {
    let mut storage = StaticStringStorage::new();
    let point = [column("x", SqlColumnType::Integer), column("y", SqlColumnType::Integer)];
    let nested = prefixed_columns("value1", &point, &mut storage);
    assert_eq!(nested.len(), 2);
    assert_eq!(nested[0].name, "value1_x");
    assert_eq!(nested[1].name, "value1_y");
    assert_eq!(nested[1].sql_type, SqlColumnType::Integer);
    assert_eq!(storage.len(), 2);
    let deeper = prefixed_columns("outer", &nested, &mut storage);
    assert_eq!(deeper[0].name, "outer_value1_x");
}

#[test]
fn vector_fields_get_counter_columns() {
    let mut storage = StaticStringStorage::new();
    let vectors = [column("url", SqlColumnType::Text), column("little_list", SqlColumnType::Integer)];
    let counters = counter_columns(&vectors, &mut storage);
    assert_eq!(counters.len(), 2);
    assert_eq!(counters[0].name, "url_silo_remaining_elements");
    assert_eq!(counters[1].name, "little_list_silo_remaining_elements");
    assert_eq!(counters[0].sql_type, SqlColumnType::Integer);
    assert!(!counters[0].is_primary && !counters[0].is_unique);
}

#[test]
fn names_must_be_distinct_within_a_table() {
    assert!(has_distinct_names(&[]));
    assert!(has_distinct_names(&[column("a", SqlColumnType::Text)]));
    assert!(has_distinct_names(&[
        column("a", SqlColumnType::Text),
        column("b", SqlColumnType::Text),
        column("c", SqlColumnType::Text)
    ]));
    assert!(!has_distinct_names(&[
        column("a", SqlColumnType::Text),
        column("b", SqlColumnType::Text),
        column("a", SqlColumnType::Integer)
    ]));
}

#[test]
fn an_entity_with_vectors_has_its_own_layout() {
    let mut storage = StaticStringStorage::new();
    let key = SqlColumn {
        name: "the_id",
        sql_type: SqlColumnType::Integer,
        is_primary: true,
        is_unique: false,
    };
    let scalars = [SqlColumn {
        name: "non_vec_field",
        sql_type: SqlColumnType::Text,
        is_primary: false,
        is_unique: true,
    }];
    let vectors = [column("keywords", SqlColumnType::Text), column("little_list", SqlColumnType::Integer)];
    let layout = vector_columns(&key, &scalars, &vectors, &mut storage);
    assert_eq!(
        layout,
        vec![
            column("the_id", SqlColumnType::Integer),
            column("non_vec_field", SqlColumnType::Text),
            column("keywords", SqlColumnType::OptionalText),
            column("little_list", SqlColumnType::OptionalInteger),
            column("keywords_silo_remaining_elements", SqlColumnType::Integer),
            column("little_list_silo_remaining_elements", SqlColumnType::Integer),
        ]
    );
    assert!(has_distinct_names(&layout));
}

#[test]
fn the_counters_are_the_last_columns() {
    let mut storage = StaticStringStorage::new();
    let key = column("the_id", SqlColumnType::Integer);
    let scalars = [column("a", SqlColumnType::Text), column("b", SqlColumnType::Text)];
    let vectors = [column("keywords", SqlColumnType::Text), column("little_list", SqlColumnType::Integer)];
    let layout = vector_columns(&key, &scalars, &vectors, &mut storage);
    assert_eq!(
        counter_names(&layout, 2),
        Some(vec!["keywords_silo_remaining_elements", "little_list_silo_remaining_elements"])
    );
    assert_eq!(scalar_count(&layout, 2), Some(2));
    assert_eq!(counter_names(&layout, 0), Some(vec![]));
    assert_eq!(scalar_count(&layout, 0), Some(6));
    assert_eq!(layout.len(), 7);
    assert_eq!(
        counter_names(&layout, 3),
        Some(vec![
            "little_list",
            "keywords_silo_remaining_elements",
            "little_list_silo_remaining_elements"
        ])
    );
    assert_eq!(scalar_count(&layout, 3), Some(0));
    assert_eq!(counter_names(&layout, 4), None);
    assert_eq!(scalar_count(&layout, 4), None);
    assert_eq!(counter_names(&layout[..5], 2), Some(vec!["keywords", "little_list"]));
    assert_eq!(scalar_count(&layout[..5], 2), Some(0));
    assert_eq!(counter_names(&layout[..4], 2), None);
    assert_eq!(counter_names(&[], 0), None);
    assert_eq!(scalar_count(&[], 0), None);
    assert_eq!(counter_names(&[], usize::MAX), None);
    assert_eq!(scalar_count(&layout, usize::MAX), None);
}
