use silo::column::{SqlColumn, SqlColumnType};
use silo::convert::text_value;
use silo::partial::PartialValue;
use silo::row::{
    decode_leaves, decode_partial, decode_row, decode_rows, find_primary, must_be_equal,
    must_contain, row_fits, DecodeFailure,
};
use silo::value::SqlValue;
use silo::variant::{variant_columns, EnumLayout};

fn column(name: &'static str, sql_type: SqlColumnType) -> SqlColumn {
    SqlColumn { name, sql_type, is_primary: false, is_unique: false }
}

fn point() -> [SqlColumn; 2] {
    [column("x", SqlColumnType::Integer), column("y", SqlColumnType::Integer)]
}

#[test]
fn an_entity_round_trips_through_its_row() {
    let columns = [
        column("id", SqlColumnType::Integer),
        column("name", SqlColumnType::Text),
        column("gender", SqlColumnType::OptionalInteger),
        column("score", SqlColumnType::Float),
    ];
    let values = vec![
        SqlValue::Integer(3),
        text_value("Ada"),
        SqlValue::Null,
        SqlValue::Float("0.5".to_string()),
    ];
    assert!(row_fits(&columns, &values));
    assert!(decode_row(&columns, &columns, &values).unwrap() == values);
}

#[test]
fn columns_are_read_by_name_not_by_place() {
    let live = [
        column("extra", SqlColumnType::Text),
        column("y", SqlColumnType::Integer),
        column("x", SqlColumnType::Integer),
    ];
    let stored = vec![text_value("?"), SqlValue::Integer(42), SqlValue::Integer(12)];
    let read = decode_row(&point(), &live, &stored).unwrap();
    assert!(read == vec![SqlValue::Integer(12), SqlValue::Integer(42)]);
}

#[test]
fn a_row_that_does_not_fit_names_its_column() {
    let live = [column("x", SqlColumnType::Integer)];
    let error = decode_row(&point(), &live, &vec![SqlValue::Integer(1)]).unwrap_err();
    assert_eq!(error.column, "y");
    assert_eq!(error.failure, DecodeFailure::Missing);
    let error =
        decode_row(&point(), &point(), &vec![text_value("12"), SqlValue::Integer(1)]).unwrap_err();
    assert_eq!(error.column, "x");
    assert_eq!(error.failure, DecodeFailure::Mismatch);
    let error = decode_row(&point(), &point(), &vec![SqlValue::Integer(1), SqlValue::Null]).unwrap_err();
    assert_eq!(error.column, "y");
    assert_eq!(error.failure, DecodeFailure::Mismatch);
    let error = decode_row(&point(), &point(), &vec![SqlValue::Integer(1)]).unwrap_err();
    assert_eq!(error.column, "y");
    assert_eq!(error.failure, DecodeFailure::Missing);
    assert!(!row_fits(&point(), &vec![SqlValue::Integer(1)]));
    assert!(!row_fits(&point(), &vec![SqlValue::Integer(1), SqlValue::Null]));
}

#[test]
fn a_partial_is_read_permissively() {
    let expected = [
        column("x", SqlColumnType::Integer),
        column("y", SqlColumnType::Integer),
        column("age", SqlColumnType::OptionalFloat),
    ];
    let live = [column("x", SqlColumnType::Integer), column("age", SqlColumnType::Integer)];
    let stored = vec![SqlValue::Integer(12), SqlValue::Integer(30)];
    let leaves = decode_leaves(&expected, &live, &stored);
    assert!(leaves == vec![Some(SqlValue::Integer(12)), None, None]);
    match decode_partial(&expected, &live, &stored) {
        PartialValue::Fields(fields) => {
            assert_eq!(fields.len(), 3);
            assert_eq!(fields[1].0, "y");
            assert!(matches!(
                &fields[0].1,
                PartialValue::Leaf { value: Some(SqlValue::Integer(12)), required: true }
            ));
            assert!(matches!(&fields[1].1, PartialValue::Leaf { value: None, required: true }));
            assert!(matches!(&fields[2].1, PartialValue::Leaf { value: None, required: false }));
        }
        _ => panic!("a composite was expected"),
    }
}

#[test]
fn an_entity_with_a_key_is_asked_for_by_its_key() {
    let columns = [
        column("title", SqlColumnType::Text),
        SqlColumn {
            name: "id",
            sql_type: SqlColumnType::Integer,
            is_primary: true,
            is_unique: false,
        },
    ];
    assert_eq!(find_primary(&columns), Some(1));
    assert_eq!(find_primary(&point()), None);
    let values = vec![text_value("Hello"), SqlValue::Integer(9)];
    assert_eq!(must_be_equal(&columns, &values).to_sql(), "WHERE id  = 9");
    assert_eq!(
        must_contain(&columns, &values).to_sql(),
        "WHERE title  LIKE '%Hello%' AND id  = 9"
    );
}

#[test]
fn an_entity_without_a_key_is_asked_for_by_every_value() {
    let columns = [
        column("x", SqlColumnType::Integer),
        column("note", SqlColumnType::OptionalText),
        column("y", SqlColumnType::Integer),
    ];
    let values = vec![SqlValue::Integer(12), SqlValue::Null, SqlValue::Integer(42)];
    assert_eq!(must_be_equal(&columns, &values).to_sql(), "WHERE x  = 12 AND y  = 42");
}

fn fruit() -> EnumLayout {
    EnumLayout::new(vec![("Apple", 1), ("Pear", 0), ("Banana", 2)]).expect("a layout")
}

#[test]
fn a_variant_fills_its_own_columns() {
    let layout = fruit();
    assert_eq!(layout.param_count(), 4);
    assert_eq!(layout.empty_columns_before(0), 1);
    assert_eq!(layout.empty_columns_before(1), 2);
    assert_eq!(layout.empty_columns_before(2), 2);
    assert_eq!(layout.empty_columns_before(3), 4);
    assert_eq!(layout.variant_name(2), Some("Banana"));
    assert_eq!(layout.variant_name(3), None);
    let apple = layout.as_params(0, &vec![SqlValue::Integer(5)]).unwrap();
    assert!(apple == vec![text_value("Apple"), SqlValue::Integer(5), SqlValue::Null, SqlValue::Null]);
    let pear = layout.as_params(1, &vec![]).unwrap();
    assert!(pear == vec![text_value("Pear"), SqlValue::Null, SqlValue::Null, SqlValue::Null]);
    let banana = layout.as_params(2, &vec![text_value("Very"), SqlValue::Integer(1)]).unwrap();
    assert!(
        banana == vec![text_value("Banana"), SqlValue::Null, text_value("Very"), SqlValue::Integer(1)]
    );
    assert!(layout.as_params(2, &vec![text_value("Very")]).is_none());
    assert!(layout.as_params(3, &vec![]).is_none());
}

#[test]
fn a_variant_round_trips_through_its_row() {
    let layout = fruit();
    let fields = vec![text_value("Very"), SqlValue::Integer(1)];
    let row = layout.as_params(2, &fields).unwrap();
    assert!(layout.try_from_row(&row) == Some((2, fields)));
    let row = layout.as_params(1, &vec![]).unwrap();
    assert!(layout.try_from_row(&row) == Some((1, vec![])));
    assert!(layout.try_from_row(&vec![text_value("Kiwi"), SqlValue::Null, SqlValue::Null, SqlValue::Null]).is_none());
    assert!(layout.try_from_row(&vec![text_value("Pear")]).is_none());
    assert!(layout.try_from_row(&vec![SqlValue::Integer(1), SqlValue::Null, SqlValue::Null, SqlValue::Null]).is_none());
    assert_eq!(layout.find_variant("Pear"), Some(1));
    assert_eq!(layout.find_variant("pear"), None);
    assert!(EnumLayout::new(vec![("A", usize::MAX)]).is_none());
    assert!(EnumLayout::new(vec![("A", usize::MAX - 1)]).is_some());
}

#[test]
fn a_query_result_fails_with_its_first_bad_row() {
    let good = vec![SqlValue::Integer(1), SqlValue::Integer(2)];
    let rows = vec![good.clone(), good.clone()];
    assert!(decode_rows("PointTable", &point(), &point(), &rows).unwrap() == rows);
    assert!(decode_rows("PointTable", &point(), &point(), &vec![]).unwrap().is_empty());
    let rows = vec![
        good.clone(),
        vec![SqlValue::Integer(1), text_value("two")],
        vec![SqlValue::Null, SqlValue::Null],
    ];
    let error = decode_rows("PointTable", &point(), &point(), &rows).unwrap_err();
    assert_eq!(error.table, "PointTable");
    assert_eq!(error.row, 1);
    assert_eq!(error.column, "y");
    assert_eq!(error.failure, DecodeFailure::Mismatch);
}

#[test]
fn a_tagged_union_has_a_variant_column() {
    let members = [column("unnamed0", SqlColumnType::Float), column("ripeness", SqlColumnType::Text)];
    assert_eq!(
        variant_columns(&members),
        vec![
            column("variant", SqlColumnType::OptionalText),
            column("unnamed0", SqlColumnType::OptionalFloat),
            column("ripeness", SqlColumnType::OptionalText),
        ]
    );
    assert_eq!(variant_columns(&[]), vec![column("variant", SqlColumnType::OptionalText)]);
}
