use silo::convert::text_value;
use silo::filter::{set_entry, FieldFilter, GenericFilter, SqlColumnFilter};
use silo::interner::StaticStringStorage;
use silo::order::{ColumnOrdering, GenericOrder, OrderingAscDesc, OrderingNulls};
use silo::statement::{
    delete_sql, filter_within, insert_sql, select_sql, SqlFailureBehavior,
};
use silo::column::{SqlColumn, SqlColumnType};
use silo::value::SqlValue;

#[test]
fn equality_compares_with_the_literal() {
    assert_eq!(SqlColumnFilter::MustBeEqual(SqlValue::Integer(12)).to_sql(), " = 12");
    assert_eq!(SqlColumnFilter::MustBeEqual(text_value("it's")).to_sql(), " = 'it''s'");
    assert_eq!(SqlColumnFilter::MustBeEqual(SqlValue::Null).to_sql(), " = NULL");
    assert_eq!(
        SqlColumnFilter::MustBeEqual(SqlValue::Float("13324.3124".to_string())).to_sql(),
        " = 13324.3124"
    );
}

#[test]
fn containment_is_a_pattern_for_text_only() {
    assert_eq!(SqlColumnFilter::Contains(text_value("Ban")).to_sql(), " LIKE '%Ban%'");
    assert_eq!(SqlColumnFilter::Contains(text_value("")).to_sql(), " LIKE '%%'");
    assert_eq!(SqlColumnFilter::Contains(text_value("o'n")).to_sql(), " LIKE '%o''n%'");
    assert_eq!(SqlColumnFilter::Contains(SqlValue::Integer(12)).to_sql(), " = 12");
    assert_eq!(SqlColumnFilter::Contains(SqlValue::Null).to_sql(), " = NULL");
    assert_eq!(
        SqlColumnFilter::Contains(SqlValue::Float("1.5".to_string())).to_sql(),
        " = 1.5"
    );
}

#[test]
fn filters_say_whether_they_compile() {
    assert!(!SqlColumnFilter::<SqlValue>::Ignored.is_compilable());
    assert!(SqlColumnFilter::MustBeEqual(SqlValue::Integer(1)).is_compilable());
    assert!(!SqlColumnFilter::MustBeEqual(SqlValue::Blob(vec![1])).is_compilable());
    assert!(!SqlColumnFilter::Contains(SqlValue::Blob(vec![1])).is_compilable());
    let mut filter = GenericFilter::default();
    filter.insert("a", SqlColumnFilter::Ignored);
    filter.insert("b", SqlColumnFilter::MustBeEqual(SqlValue::Integer(1)));
    assert!(filter.is_compilable());
    filter.insert("c", SqlColumnFilter::Contains(SqlValue::Blob(vec![])));
    assert!(!filter.is_compilable());
}

#[test]
fn typed_filters_become_generic() {
    match SqlColumnFilter::MustBeEqual(12i32).into_generic() {
        SqlColumnFilter::MustBeEqual(v) => assert!(v == SqlValue::Integer(12)),
        _ => panic!("an equality filter was expected"),
    }
    match SqlColumnFilter::Contains("abc".to_string()).into_generic() {
        SqlColumnFilter::Contains(v) => assert!(v == text_value("abc")),
        _ => panic!("a containment filter was expected"),
    }
    assert!(matches!(SqlColumnFilter::<u8>::Ignored.into_generic(), SqlColumnFilter::Ignored));
    assert!(matches!(SqlColumnFilter::<u8>::default(), SqlColumnFilter::Ignored));
}

#[test]
fn an_open_filter_has_no_where_clause() {
    assert_eq!(GenericFilter::default().to_sql(), "");
    let mut filter = GenericFilter::default();
    filter.insert("x", SqlColumnFilter::Ignored);
    filter.insert("y", SqlColumnFilter::Ignored);
    assert_eq!(filter.to_sql(), "");
}

#[test]
fn conditions_are_joined_by_and() {
    let mut filter = GenericFilter::default();
    filter.insert("x", SqlColumnFilter::MustBeEqual(SqlValue::Integer(12)));
    assert_eq!(filter.to_sql(), "WHERE x  = 12");
    filter.insert("skipped", SqlColumnFilter::Ignored);
    filter.insert("name", SqlColumnFilter::Contains(text_value("an")));
    assert_eq!(filter.to_sql(), "WHERE x  = 12 AND name  LIKE '%an%'");
}

#[test]
fn setting_a_name_again_replaces_its_entry() {
    let mut filter = GenericFilter::default();
    filter.insert("x", SqlColumnFilter::MustBeEqual(SqlValue::Integer(1)));
    filter.insert("y", SqlColumnFilter::MustBeEqual(SqlValue::Integer(2)));
    filter.insert("x", SqlColumnFilter::MustBeEqual(SqlValue::Integer(3)));
    assert_eq!(filter.columns.len(), 2);
    assert_eq!(filter.to_sql(), "WHERE x  = 3 AND y  = 2");
    let twice = FieldFilter::Fields(vec![
        ("x", FieldFilter::Column(SqlColumnFilter::MustBeEqual(SqlValue::Integer(1)))),
        ("x", FieldFilter::Column(SqlColumnFilter::MustBeEqual(SqlValue::Integer(2)))),
    ]);
    let generic = twice.into_generic(&mut StaticStringStorage::new(), None);
    assert_eq!(generic.columns.len(), 1);
    assert_eq!(generic.to_sql(), "WHERE x  = 2");
    let mut columns = Vec::new();
    set_entry(&mut columns, "a", SqlColumnFilter::Ignored);
    set_entry(&mut columns, "a", SqlColumnFilter::MustBeEqual(SqlValue::Null));
    assert_eq!(columns.len(), 1);
    assert!(matches!(columns[0].1, SqlColumnFilter::MustBeEqual(SqlValue::Null)));
}

fn nested() -> FieldFilter {
    FieldFilter::Fields(vec![
        ("id", FieldFilter::Column(SqlColumnFilter::Ignored)),
        (
            "value1",
            FieldFilter::Fields(vec![
                ("x", FieldFilter::Column(SqlColumnFilter::MustBeEqual(SqlValue::Integer(12)))),
                ("y", FieldFilter::Column(SqlColumnFilter::Ignored)),
            ]),
        ),
        ("value2", FieldFilter::Column(SqlColumnFilter::Contains(text_value("eps")))),
    ])
}

#[test]
fn nested_filters_flatten_with_prefixed_names() {
    let mut storage = StaticStringStorage::new();
    let generic = nested().into_generic(&mut storage, None);
    assert_eq!(generic.columns.len(), 2);
    assert_eq!(generic.columns[0].0, "value1_x");
    assert_eq!(generic.columns[1].0, "value2");
    assert_eq!(generic.to_sql(), "WHERE value1_x  = 12 AND value2  LIKE '%eps%'");
}

#[test]
fn a_filter_below_a_column_name_is_prefixed_throughout() {
    let mut storage = StaticStringStorage::new();
    let entries = nested().into_sql_column_filter("child", &mut storage);
    assert_eq!(entries.len(), 2);
    assert_eq!(entries[0].0, "child_value1_x");
    assert_eq!(entries[1].0, "child_value2");
    let generic = nested().into_generic(&mut storage, Some("child"));
    assert_eq!(generic.columns[0].0, "child_value1_x");
    assert_eq!(generic.columns[0].0.as_ptr(), entries[0].0.as_ptr());
    let single = FieldFilter::Column(SqlColumnFilter::MustBeEqual(SqlValue::Integer(1)));
    let generic = single.into_generic(&mut storage, Some("age"));
    assert_eq!(generic.to_sql(), "WHERE age  = 1");
}

#[test]
fn flattened_entries_are_set_among_the_columns() {
    let mut storage = StaticStringStorage::new();
    let mut columns = Vec::new();
    set_entry(&mut columns, "p_x", SqlColumnFilter::MustBeEqual(SqlValue::Integer(0)));
    let point = FieldFilter::Fields(vec![
        ("x", FieldFilter::Column(SqlColumnFilter::MustBeEqual(SqlValue::Integer(1)))),
        ("y", FieldFilter::Column(SqlColumnFilter::MustBeEqual(SqlValue::Integer(2)))),
    ]);
    GenericFilter::insert_into_columns("p", &mut columns, &point, &mut storage);
    let filter = GenericFilter { columns };
    assert_eq!(filter.to_sql(), "WHERE p_x  = 1 AND p_y  = 2");
}

#[test]
fn an_empty_order_has_no_clause() {
    assert_eq!(GenericOrder::default().to_sql(), "");
}

#[test]
fn sort_keys_are_written_in_order() {
    let mut order = GenericOrder::default();
    order.add("a", ColumnOrdering::default());
    assert_eq!(order.to_sql(), "ORDER BY a");
    order.add(
        "b",
        ColumnOrdering { asc_desc: Some(OrderingAscDesc::Ascending), nulls: None },
    );
    order.add(
        "c",
        ColumnOrdering {
            asc_desc: Some(OrderingAscDesc::Descending),
            nulls: Some(OrderingNulls::NullsFirst),
        },
    );
    order.add("d", ColumnOrdering { asc_desc: None, nulls: Some(OrderingNulls::NullsLast) });
    assert_eq!(order.to_sql(), "ORDER BY a, b ASC, c DESC NULLS FIRST, d NULLS LAST");
}

#[test]
fn counters_sort_descending_with_nulls_last() {
    let order = GenericOrder::by_counters(&["url_silo_remaining_elements", "tags_silo_remaining_elements"]);
    assert_eq!(
        order.to_sql(),
        "ORDER BY url_silo_remaining_elements DESC NULLS LAST, tags_silo_remaining_elements DESC NULLS LAST"
    );
    assert_eq!(GenericOrder::by_counters(&[]).to_sql(), "");
}

#[test]
fn a_conflict_policy_is_chosen_by_one_flag() {
    assert_eq!(
        SqlFailureBehavior::chosen(false, false, false, false, false),
        Some(SqlFailureBehavior::Abort)
    );
    assert_eq!(
        SqlFailureBehavior::chosen(true, false, false, false, false),
        Some(SqlFailureBehavior::Abort)
    );
    assert_eq!(
        SqlFailureBehavior::chosen(false, true, false, false, false),
        Some(SqlFailureBehavior::Fail)
    );
    assert_eq!(
        SqlFailureBehavior::chosen(false, false, true, false, false),
        Some(SqlFailureBehavior::Ignore)
    );
    assert_eq!(
        SqlFailureBehavior::chosen(false, false, false, true, false),
        Some(SqlFailureBehavior::Replace)
    );
    assert_eq!(
        SqlFailureBehavior::chosen(false, false, false, false, true),
        Some(SqlFailureBehavior::Rollback)
    );
    assert_eq!(SqlFailureBehavior::chosen(true, false, false, false, true), None);
    assert_eq!(SqlFailureBehavior::chosen(false, true, true, false, false), None);
    assert_eq!(SqlFailureBehavior::default(), SqlFailureBehavior::Abort);
    assert_eq!(SqlFailureBehavior::Rollback.to_string(), "ROLLBACK");
    assert_eq!(SqlFailureBehavior::Abort.to_string(), "ABORT");
    assert_eq!(SqlFailureBehavior::Fail.to_string(), "FAIL");
    assert_eq!(SqlFailureBehavior::Ignore.to_string(), "IGNORE");
    assert_eq!(SqlFailureBehavior::Replace.to_string(), "REPLACE");
}

fn plain(name: &'static str) -> SqlColumn {
    SqlColumn { name, sql_type: SqlColumnType::Integer, is_primary: false, is_unique: false }
}

#[test]
fn statements_are_written_in_full() {
    let columns = [plain("x"), plain("y")];
    assert_eq!(
        insert_sql(SqlFailureBehavior::Replace, "PointTable", &columns, true),
        "INSERT OR REPLACE INTO PointTable (\"x\", \"y\") VALUES (?1, ?2)"
    );
    assert_eq!(
        insert_sql(SqlFailureBehavior::Ignore, "temporary", &columns, false),
        "INSERT OR IGNORE INTO temporary (x, y) VALUES (?1, ?2)"
    );
    let eleven: Vec<SqlColumn> = (0..11).map(|_| plain("c")).collect();
    assert!(insert_sql(SqlFailureBehavior::Abort, "T", &eleven, false)
        .ends_with("VALUES (?1, ?2, ?3, ?4, ?5, ?6, ?7, ?8, ?9, ?10, ?11)"));
    let mut filter = GenericFilter::default();
    filter.insert("x", SqlColumnFilter::MustBeEqual(SqlValue::Integer(12)));
    let mut order = GenericOrder::default();
    order.add("y", ColumnOrdering { asc_desc: Some(OrderingAscDesc::Descending), nulls: None });
    assert_eq!(
        select_sql("PointTable", &columns, &filter, &order),
        "SELECT x, y from PointTable WHERE x  = 12 ORDER BY y DESC"
    );
    assert_eq!(
        select_sql("PointTable", &columns, &GenericFilter::default(), &GenericOrder::default()),
        "SELECT x, y from PointTable  "
    );
    assert_eq!(delete_sql("PointTable", &filter), "DELETE FROM PointTable WHERE x  = 12");
    assert_eq!(delete_sql("PointTable", &GenericFilter::default()), "DELETE FROM PointTable ");
    assert!(filter_within(&filter, &columns));
    filter.insert("z", SqlColumnFilter::Ignored);
    assert!(!filter_within(&filter, &columns));
}
