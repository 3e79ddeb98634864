//! Conversions into generic values and column types: how the scalars of an
//! entity are boxed.

use crate::column::SqlColumnType;
use crate::filter::SqlColumnFilter;
use crate::value::{SqlValue, SqlValueView};
use vstd::prelude::*;
use vstd::std_specs::convert::FromSpecImpl;

verus! {

impl From<i8> for SqlValue {
    fn from(v: i8) -> (r: SqlValue) {
        SqlValue::Integer(v as i64)
    }
}

impl FromSpecImpl<i8> for SqlValue {
    open spec fn obeys_from_spec() -> bool {
        true
    }

    open spec fn from_spec(v: i8) -> SqlValue {
        SqlValue::Integer(v as i64)
    }
}

impl From<i16> for SqlValue {
    fn from(v: i16) -> (r: SqlValue) {
        SqlValue::Integer(v as i64)
    }
}

impl FromSpecImpl<i16> for SqlValue {
    open spec fn obeys_from_spec() -> bool {
        true
    }

    open spec fn from_spec(v: i16) -> SqlValue {
        SqlValue::Integer(v as i64)
    }
}

impl From<i32> for SqlValue {
    fn from(v: i32) -> (r: SqlValue) {
        SqlValue::Integer(v as i64)
    }
}

impl FromSpecImpl<i32> for SqlValue {
    open spec fn obeys_from_spec() -> bool {
        true
    }

    open spec fn from_spec(v: i32) -> SqlValue {
        SqlValue::Integer(v as i64)
    }
}

impl From<i64> for SqlValue {
    fn from(v: i64) -> (r: SqlValue) {
        SqlValue::Integer(v)
    }
}

impl FromSpecImpl<i64> for SqlValue {
    open spec fn obeys_from_spec() -> bool {
        true
    }

    open spec fn from_spec(v: i64) -> SqlValue {
        SqlValue::Integer(v)
    }
}

impl From<u8> for SqlValue {
    fn from(v: u8) -> (r: SqlValue) {
        SqlValue::Integer(v as i64)
    }
}

impl FromSpecImpl<u8> for SqlValue {
    open spec fn obeys_from_spec() -> bool {
        true
    }

    open spec fn from_spec(v: u8) -> SqlValue {
        SqlValue::Integer(v as i64)
    }
}

impl From<u16> for SqlValue {
    fn from(v: u16) -> (r: SqlValue) {
        SqlValue::Integer(v as i64)
    }
}

impl FromSpecImpl<u16> for SqlValue {
    open spec fn obeys_from_spec() -> bool {
        true
    }

    open spec fn from_spec(v: u16) -> SqlValue {
        SqlValue::Integer(v as i64)
    }
}

impl From<u32> for SqlValue {
    fn from(v: u32) -> (r: SqlValue) {
        SqlValue::Integer(v as i64)
    }
}

impl FromSpecImpl<u32> for SqlValue {
    open spec fn obeys_from_spec() -> bool {
        true
    }

    open spec fn from_spec(v: u32) -> SqlValue {
        SqlValue::Integer(v as i64)
    }
}

/// A number beyond the database's integers wraps around.
impl From<isize> for SqlValue {
    fn from(v: isize) -> (r: SqlValue) {
        SqlValue::Integer(#[verifier::truncate] (v as i64))
    }
}

impl FromSpecImpl<isize> for SqlValue {
    open spec fn obeys_from_spec() -> bool {
        true
    }

    open spec fn from_spec(v: isize) -> SqlValue {
        SqlValue::Integer(v as i64)
    }
}

/// A number beyond the database's integers wraps around.
impl From<usize> for SqlValue {
    fn from(v: usize) -> (r: SqlValue) {
        SqlValue::Integer(#[verifier::truncate] (v as i64))
    }
}

impl FromSpecImpl<usize> for SqlValue {
    open spec fn obeys_from_spec() -> bool {
        true
    }

    open spec fn from_spec(v: usize) -> SqlValue {
        SqlValue::Integer(v as i64)
    }
}

/// A number beyond the database's integers wraps around.
impl From<u64> for SqlValue {
    fn from(v: u64) -> (r: SqlValue) {
        SqlValue::Integer(#[verifier::truncate] (v as i64))
    }
}

impl FromSpecImpl<u64> for SqlValue {
    open spec fn obeys_from_spec() -> bool {
        true
    }

    open spec fn from_spec(v: u64) -> SqlValue {
        SqlValue::Integer(v as i64)
    }
}

/// `true` is one, `false` is zero.
impl From<bool> for SqlValue {
    fn from(v: bool) -> (r: SqlValue) {
        if v {
            SqlValue::Integer(1)
        } else {
            SqlValue::Integer(0)
        }
    }
}

impl FromSpecImpl<bool> for SqlValue {
    open spec fn obeys_from_spec() -> bool {
        true
    }

    open spec fn from_spec(v: bool) -> SqlValue {
        if v {
            SqlValue::Integer(1)
        } else {
            SqlValue::Integer(0)
        }
    }
}

impl From<String> for SqlValue {
    fn from(v: String) -> (r: SqlValue) {
        SqlValue::Text(v)
    }
}

impl FromSpecImpl<String> for SqlValue {
    open spec fn obeys_from_spec() -> bool {
        true
    }

    open spec fn from_spec(v: String) -> SqlValue {
        SqlValue::Text(v)
    }
}

/// Text by its characters.
pub fn text_value(v: &str) -> (r: SqlValue)
    ensures
        r@ == SqlValueView::Text(v@),
{
    SqlValue::Text(v.to_owned())
}

/// The column type that holds the values of a scalar type.
pub trait RelatedSqlColumnType {
    spec fn column_type() -> SqlColumnType;

    fn sql_column_type() -> (r: SqlColumnType)
        ensures
            r == Self::column_type(),
    ;
}

impl<T: RelatedSqlColumnType> RelatedSqlColumnType for Option<T> {
    open spec fn column_type() -> SqlColumnType {
        T::column_type().nullable()
    }

    fn sql_column_type() -> (r: SqlColumnType) {
        SqlColumnType::to_optional(T::sql_column_type())
    }
}

impl RelatedSqlColumnType for String {
    open spec fn column_type() -> SqlColumnType {
        SqlColumnType::Text
    }

    fn sql_column_type() -> (r: SqlColumnType) {
        SqlColumnType::Text
    }
}

impl RelatedSqlColumnType for bool {
    open spec fn column_type() -> SqlColumnType {
        SqlColumnType::Integer
    }

    fn sql_column_type() -> (r: SqlColumnType) {
        SqlColumnType::Integer
    }
}

impl RelatedSqlColumnType for i8 {
    open spec fn column_type() -> SqlColumnType {
        SqlColumnType::Integer
    }

    fn sql_column_type() -> (r: SqlColumnType) {
        SqlColumnType::Integer
    }
}

impl RelatedSqlColumnType for i16 {
    open spec fn column_type() -> SqlColumnType {
        SqlColumnType::Integer
    }

    fn sql_column_type() -> (r: SqlColumnType) {
        SqlColumnType::Integer
    }
}

impl RelatedSqlColumnType for i32 {
    open spec fn column_type() -> SqlColumnType {
        SqlColumnType::Integer
    }

    fn sql_column_type() -> (r: SqlColumnType) {
        SqlColumnType::Integer
    }
}

impl RelatedSqlColumnType for i64 {
    open spec fn column_type() -> SqlColumnType {
        SqlColumnType::Integer
    }

    fn sql_column_type() -> (r: SqlColumnType) {
        SqlColumnType::Integer
    }
}

impl RelatedSqlColumnType for u8 {
    open spec fn column_type() -> SqlColumnType {
        SqlColumnType::Integer
    }

    fn sql_column_type() -> (r: SqlColumnType) {
        SqlColumnType::Integer
    }
}

impl RelatedSqlColumnType for u16 {
    open spec fn column_type() -> SqlColumnType {
        SqlColumnType::Integer
    }

    fn sql_column_type() -> (r: SqlColumnType) {
        SqlColumnType::Integer
    }
}

impl RelatedSqlColumnType for u32 {
    open spec fn column_type() -> SqlColumnType {
        SqlColumnType::Integer
    }

    fn sql_column_type() -> (r: SqlColumnType) {
        SqlColumnType::Integer
    }
}

impl RelatedSqlColumnType for isize {
    open spec fn column_type() -> SqlColumnType {
        SqlColumnType::Integer
    }

    fn sql_column_type() -> (r: SqlColumnType) {
        SqlColumnType::Integer
    }
}

impl RelatedSqlColumnType for usize {
    open spec fn column_type() -> SqlColumnType {
        SqlColumnType::Integer
    }

    fn sql_column_type() -> (r: SqlColumnType) {
        SqlColumnType::Integer
    }
}

impl RelatedSqlColumnType for u64 {
    open spec fn column_type() -> SqlColumnType {
        SqlColumnType::Integer
    }

    fn sql_column_type() -> (r: SqlColumnType) {
        SqlColumnType::Integer
    }
}

/// What can be turned into the filter that asks for exactly it.
pub trait MustBeEqual<T> {
    fn must_be_equal(&self) -> T;
}

impl MustBeEqual<SqlColumnFilter<SqlValue>> for SqlValue {
    /// The predicate that asks a column to equal this value; the null value
    /// asks nothing.
    fn must_be_equal(&self) -> (r: SqlColumnFilter<SqlValue>)
        ensures
            r.deep_view() == (if self@ is Null {
                SqlColumnFilter::Ignored
            } else {
                SqlColumnFilter::MustBeEqual(self@)
            }),
    {
        match self {
            SqlValue::Null => SqlColumnFilter::Ignored,
            _ => SqlColumnFilter::MustBeEqual(self.clone()),
        }
    }
}

impl SqlValue {
    /// The predicate that asks a column to contain this value; the null
    /// value asks nothing.
    pub fn must_contain(&self) -> (r: SqlColumnFilter<SqlValue>)
        ensures
            r.deep_view() == (if self@ is Null {
                SqlColumnFilter::Ignored
            } else {
                SqlColumnFilter::Contains(self@)
            }),
    {
        match self {
            SqlValue::Null => SqlColumnFilter::Ignored,
            _ => SqlColumnFilter::Contains(self.clone()),
        }
    }
}

} // verus!
