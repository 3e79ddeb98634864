//! The generic value: the common currency of filters, rows and migrated data.

use crate::text::{decimal, push_decimal, push_quoted, quoted};
use vstd::prelude::*;
use vstd::std_specs::cmp::PartialEqSpecImpl;
use vstd::string::*;

verus! {

/// One scalar as SQLite stores it.
///
/// A `Float` holds the number's decimal literal (`13324.3124`, `-0.5`, `NaN`):
/// the engine copies it into statements and never computes with it.
#[derive(Debug)]
pub enum SqlValue {
    Float(String),
    Integer(i64),
    Null,
    Text(String),
    Blob(Vec<u8>),
}

/// The mathematical content of a [`SqlValue`].
pub enum SqlValueView {
    Float(Seq<char>),
    Integer(int),
    Null,
    Text(Seq<char>),
    Blob(Seq<u8>),
}

impl View for SqlValue {
    type V = SqlValueView;

    open spec fn view(&self) -> SqlValueView {
        match self {
            SqlValue::Float(t) => SqlValueView::Float(t@),
            SqlValue::Integer(i) => SqlValueView::Integer(*i as int),
            SqlValue::Null => SqlValueView::Null,
            SqlValue::Text(t) => SqlValueView::Text(t@),
            SqlValue::Blob(b) => SqlValueView::Blob(b@),
        }
    }
}

impl DeepView for SqlValue {
    type V = SqlValueView;

    open spec fn deep_view(&self) -> SqlValueView {
        self@
    }
}

/// Whether a character can stand in the decimal literal of a number: a
/// digit, the sign, the point, or a letter of `NaN` and `inf`.
pub open spec fn is_number_char(c: char) -> bool {
    ('0' <= c <= '9') || c == '-' || c == '.' || c == 'N' || c == 'a' || c == 'i' || c == 'n'
        || c == 'f'
}

/// Whether text can be the decimal literal of a number: it is not empty and
/// holds nothing but the characters of such literals.
pub open spec fn number_text(s: Seq<char>) -> bool {
    s.len() > 0 && forall|i: int| 0 <= i < s.len() ==> is_number_char(#[trigger] s[i])
}

impl SqlValueView {
    /// Whether the value is well formed: a float holds a number's literal.
    pub open spec fn wf(self) -> bool {
        self matches SqlValueView::Float(t) ==> number_text(t)
    }
}

/// How a value is written inside a statement: numbers bare, text quoted with
/// its quotes doubled, the null value as `NULL`. Blobs have no literal form.
pub open spec fn sql_literal(v: SqlValueView) -> Seq<char> {
    match v {
        SqlValueView::Float(t) => t,
        SqlValueView::Integer(i) => decimal(i),
        SqlValueView::Null => "NULL"@,
        SqlValueView::Text(t) => quoted(t),
        SqlValueView::Blob(_) => Seq::empty(),
    }
}

impl Clone for SqlValue {
    fn clone(&self) -> (res: Self)
        ensures
            res@ == self@,
    {
        match self {
            SqlValue::Float(t) => SqlValue::Float(t.clone()),
            SqlValue::Integer(i) => SqlValue::Integer(*i),
            SqlValue::Null => SqlValue::Null,
            SqlValue::Text(t) => SqlValue::Text(t.clone()),
            SqlValue::Blob(b) => SqlValue::Blob(b.clone()),
        }
    }
}

fn same_bytes(a: &Vec<u8>, b: &Vec<u8>) -> (r: bool)
    ensures
        r == (a@ == b@),
{
    if a.len() != b.len() {
        return false;
    }
    let mut i: usize = 0;
    while i < a.len()
        invariant
            a.len() == b.len(),
            i <= a.len(),
            a@.take(i as int) == b@.take(i as int),
        decreases a.len() - i,
    {
        if a[i] != b[i] {
            return false;
        }
        assert(a@.take(i + 1) =~= a@.take(i as int).push(a[i as int]));
        assert(b@.take(i + 1) =~= b@.take(i as int).push(b[i as int]));
        i += 1;
    }
    assert(a@ =~= a@.take(a.len() as int));
    assert(b@ =~= b@.take(b.len() as int));
    true
}

impl PartialEq for SqlValue {
    fn eq(&self, other: &SqlValue) -> (r: bool) {
        match (self, other) {
            (SqlValue::Float(a), SqlValue::Float(b)) => a.eq(b),
            (SqlValue::Integer(a), SqlValue::Integer(b)) => *a == *b,
            (SqlValue::Null, SqlValue::Null) => true,
            (SqlValue::Text(a), SqlValue::Text(b)) => a.eq(b),
            (SqlValue::Blob(a), SqlValue::Blob(b)) => same_bytes(a, b),
            _ => false,
        }
    }
}

impl PartialEqSpecImpl for SqlValue {
    open spec fn obeys_eq_spec() -> bool {
        true
    }

    open spec fn eq_spec(&self, other: &SqlValue) -> bool {
        self@ == other@
    }
}

impl SqlValue {
    /// The float with the given decimal literal; none where the text cannot
    /// be the literal of a number.
    pub fn float(literal: String) -> (r: Option<SqlValue>)
        ensures
            r is Some <==> number_text(literal@),
            r matches Some(v) ==> v@ == SqlValueView::Float(literal@) && v@.wf(),
    {
        for c in it: literal.as_str().chars()
            invariant
                it.seq() == literal@,
                forall|i: int| 0 <= i < it.index() ==> is_number_char(#[trigger] literal@[i]),
        {
            let fine = (c >= '0' && c <= '9') || c == '-' || c == '.' || c == 'N' || c == 'a'
                || c == 'i' || c == 'n' || c == 'f';
            if !fine {
                assert(!is_number_char(literal@[it.index()]));
                return None;
            }
        }
        if literal.as_str().unicode_len() == 0 {
            return None;
        }
        Some(SqlValue::Float(literal))
    }

    /// Whether the value has a literal form, that is, whether it is no blob.
    pub fn renders(&self) -> (r: bool)
        ensures
            r == !(self@ is Blob),
    {
        match self {
            SqlValue::Blob(_) => false,
            _ => true,
        }
    }

    /// The value as it is written inside a statement.
    pub fn to_sql(&self) -> (r: String)
        requires
            !(self@ is Blob),
        ensures
            r@ == sql_literal(self@),
    {
        let mut out = String::new();
        match self {
            SqlValue::Float(t) => {
                out.push_str(t.as_str());
            },
            SqlValue::Integer(i) => {
                push_decimal(&mut out, *i);
            },
            SqlValue::Null => {
                out.push_str("NULL");
            },
            SqlValue::Text(t) => {
                push_quoted(&mut out, t.as_str());
            },
            SqlValue::Blob(_) => {},
        }
        assert(out@ =~= sql_literal(self@));
        out
    }
}

/// A copy of `values` that holds the same values in the same order.
pub fn clone_values(values: &Vec<SqlValue>) -> (r: Vec<SqlValue>)
    ensures
        r.deep_view() == values.deep_view(),
{
    let mut out: Vec<SqlValue> = Vec::new();
    let mut i: usize = 0;
    while i < values.len()
        invariant
            i <= values.len(),
            out.deep_view() == values.deep_view().take(i as int),
        decreases values.len() - i,
    {
        let ghost before = out.deep_view();
        let item = values[i].clone();
        out.push(item);
        assert(out.deep_view() =~= before.push(item@));
        assert(out.deep_view() =~= values.deep_view().take(i + 1));
        i += 1;
    }
    assert(values.deep_view().take(values.len() as int) =~= values.deep_view());
    out
}

} // verus!
