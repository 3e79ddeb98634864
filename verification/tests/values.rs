use silo::column::SqlColumnType;
use silo::convert::{text_value, MustBeEqual, RelatedSqlColumnType};
use silo::filter::SqlColumnFilter;
use silo::text::{push_decimal, push_digits, push_escaped, push_quoted, same_text};
use silo::value::{clone_values, SqlValue};

fn rendered(i: i64) -> String {
    let mut out = String::new();
    push_decimal(&mut out, i);
    out
}

#[test]
fn integers_render_in_decimal() {
    assert_eq!(rendered(0), "0");
    assert_eq!(rendered(7), "7");
    assert_eq!(rendered(10), "10");
    assert_eq!(rendered(-1), "-1");
    assert_eq!(rendered(13324), "13324");
    assert_eq!(rendered(i64::MAX), "9223372036854775807");
    assert_eq!(rendered(i64::MIN), "-9223372036854775808");
}

#[test]
fn digits_append_to_what_is_there() {
    let mut out = String::from("?");
    push_digits(&mut out, 120);
    assert_eq!(out, "?120");
    push_digits(&mut out, u64::MAX);
    assert_eq!(out, "?12018446744073709551615");
}

#[test]
fn quotes_are_doubled() {
    let mut out = String::new();
    push_escaped(&mut out, "it's 'so'");
    assert_eq!(out, "it''s ''so''");
    let mut quoted = String::new();
    push_quoted(&mut quoted, "O'Neil");
    assert_eq!(quoted, "'O''Neil'");
    let mut empty = String::new();
    push_quoted(&mut empty, "");
    assert_eq!(empty, "''");
}

#[test]
fn text_is_compared_by_characters() {
    assert!(same_text("abc", "abc"));
    assert!(!same_text("abc", "abd"));
    assert!(!same_text("abc", "ab"));
    assert!(same_text("", ""));
}

#[test]
fn values_render_as_literals() {
    assert_eq!(SqlValue::Integer(12).to_sql(), "12");
    assert_eq!(SqlValue::Integer(-5).to_sql(), "-5");
    assert_eq!(SqlValue::Null.to_sql(), "NULL");
    assert_eq!(SqlValue::Text("f32::EPSILON".to_string()).to_sql(), "'f32::EPSILON'");
    assert_eq!(SqlValue::Text("don't".to_string()).to_sql(), "'don''t'");
    assert_eq!(SqlValue::Float("13324.3124".to_string()).to_sql(), "13324.3124");
}

#[test]
fn blobs_have_no_literal() {
    assert!(!SqlValue::Blob(vec![1, 2, 3]).renders());
    assert!(SqlValue::Null.renders());
    assert!(SqlValue::Text(String::new()).renders());
}

#[test]
fn float_literals_are_checked() {
    let x: f64 = 13324.3124;
    assert!(SqlValue::float(x.to_string()) == Some(SqlValue::Float("13324.3124".to_string())));
    assert!(SqlValue::float((-0.5f64).to_string()).is_some());
    assert!(SqlValue::float(f64::NAN.to_string()).is_some());
    assert!(SqlValue::float(f64::NEG_INFINITY.to_string()).is_some());
    assert!(SqlValue::float(String::new()).is_none());
    assert!(SqlValue::float("1; DROP TABLE x".to_string()).is_none());
    assert!(SqlValue::float("'1'".to_string()).is_none());
}

#[test]
fn values_are_equal_by_content() {
    assert!(SqlValue::Integer(1) == SqlValue::Integer(1));
    assert!(SqlValue::Integer(1) != SqlValue::Integer(2));
    assert!(SqlValue::Integer(1) != SqlValue::Text("1".to_string()));
    assert!(SqlValue::Text("a".to_string()) == SqlValue::Text("a".to_string()));
    assert!(SqlValue::Text("a".to_string()) != SqlValue::Float("a".to_string()));
    assert!(SqlValue::Blob(vec![1, 2]) == SqlValue::Blob(vec![1, 2]));
    assert!(SqlValue::Blob(vec![1, 2]) != SqlValue::Blob(vec![1, 3]));
    assert!(SqlValue::Blob(vec![1, 2]) != SqlValue::Blob(vec![1]));
    assert!(SqlValue::Null == SqlValue::Null);
    assert!(SqlValue::Null != SqlValue::Integer(0));
}

#[test]
fn clones_hold_the_same_values() {
    let values = vec![SqlValue::Integer(3), SqlValue::Text("x".to_string()), SqlValue::Null];
    assert!(clone_values(&values) == values);
    assert!(SqlValue::Blob(vec![9]).clone() == SqlValue::Blob(vec![9]));
}

#[test]
fn scalars_convert_into_values() {
    assert!(SqlValue::from(12i32) == SqlValue::Integer(12));
    assert!(SqlValue::from(-3i8) == SqlValue::Integer(-3));
    assert!(SqlValue::from(65535u16) == SqlValue::Integer(65535));
    assert!(SqlValue::from(true) == SqlValue::Integer(1));
    assert!(SqlValue::from(false) == SqlValue::Integer(0));
    assert!(SqlValue::from(u64::MAX) == SqlValue::Integer(-1));
    assert!(SqlValue::from(7usize) == SqlValue::Integer(7));
    assert!(SqlValue::from("a".to_string()) == SqlValue::Text("a".to_string()));
    assert!(text_value("b") == SqlValue::Text("b".to_string()));
    let converted: SqlValue = 42u32.into();
    assert!(converted == SqlValue::Integer(42));
}

#[test]
fn scalar_types_have_column_types() {
    assert_eq!(<i32 as RelatedSqlColumnType>::sql_column_type(), SqlColumnType::Integer);
    assert_eq!(<bool as RelatedSqlColumnType>::sql_column_type(), SqlColumnType::Integer);
    assert_eq!(<String as RelatedSqlColumnType>::sql_column_type(), SqlColumnType::Text);
    assert_eq!(
        <Option<String> as RelatedSqlColumnType>::sql_column_type(),
        SqlColumnType::OptionalText
    );
    assert_eq!(
        <Option<Option<u8>> as RelatedSqlColumnType>::sql_column_type(),
        SqlColumnType::OptionalInteger
    );
}

#[test]
fn a_value_asks_for_itself() {
    assert!(matches!(SqlValue::Null.must_be_equal(), SqlColumnFilter::Ignored));
    assert!(matches!(SqlValue::Null.must_contain(), SqlColumnFilter::Ignored));
    match SqlValue::Integer(4).must_be_equal() {
        SqlColumnFilter::MustBeEqual(v) => assert!(v == SqlValue::Integer(4)),
        _ => panic!("an equality filter was expected"),
    }
    match text_value("x").must_contain() {
        SqlColumnFilter::Contains(v) => assert!(v == text_value("x")),
        _ => panic!("a containment filter was expected"),
    }
}
