//! The column catalogue: scalar types in their required and nullable forms,
//! and the descriptor of one column of a physical table.

use crate::interner::{interned_all, joined_two, StaticStringStorage};
use crate::text::{push_separated, same_text, separated};
use crate::value::{SqlValue, SqlValueView};
use vstd::prelude::*;

verus! {

/// The scalar storage classes a column can be declared with, each in a
/// required and a nullable form.
#[derive(Debug, Clone, Copy, PartialEq, Eq, Structural)]
pub enum SqlColumnType {
    Float,
    Integer,
    Null,
    Text,
    Blob,
    OptionalFloat,
    OptionalInteger,
    OptionalText,
    OptionalBlob,
}

impl SqlColumnType {
    /// The nullable form of a type: the type itself where it already admits
    /// the null value.
    pub open spec fn nullable(self) -> SqlColumnType {
        match self {
            SqlColumnType::OptionalFloat | SqlColumnType::Float => SqlColumnType::OptionalFloat,
            SqlColumnType::OptionalInteger | SqlColumnType::Integer => SqlColumnType::OptionalInteger,
            SqlColumnType::Null => SqlColumnType::Null,
            SqlColumnType::OptionalText | SqlColumnType::Text => SqlColumnType::OptionalText,
            SqlColumnType::OptionalBlob | SqlColumnType::Blob => SqlColumnType::OptionalBlob,
        }
    }

    /// Whether a column of this type must hold a value in every row.
    pub open spec fn required(self) -> bool {
        self == SqlColumnType::Float || self == SqlColumnType::Integer || self
            == SqlColumnType::Text || self == SqlColumnType::Blob
    }

    /// The name under which SQLite declares the type.
    pub open spec fn declared_name(self) -> Seq<char> {
        match self {
            SqlColumnType::OptionalFloat | SqlColumnType::Float => "REAL"@,
            SqlColumnType::OptionalInteger | SqlColumnType::Integer => "INTEGER"@,
            SqlColumnType::OptionalText | SqlColumnType::Text => "TEXT"@,
            SqlColumnType::OptionalBlob | SqlColumnType::Blob => "BLOB"@,
            SqlColumnType::Null => "NULL"@,
        }
    }

    /// Whether a column of this type can hold `value`: a value of the type's
    /// own storage class, or the null value where the type is nullable.
    pub open spec fn admits(self, value: SqlValueView) -> bool {
        match self {
            SqlColumnType::Float => value is Float,
            SqlColumnType::Integer => value is Integer,
            SqlColumnType::Text => value is Text,
            SqlColumnType::Blob => value is Blob,
            SqlColumnType::Null => value is Null,
            SqlColumnType::OptionalFloat => value is Float || value is Null,
            SqlColumnType::OptionalInteger => value is Integer || value is Null,
            SqlColumnType::OptionalText => value is Text || value is Null,
            SqlColumnType::OptionalBlob => value is Blob || value is Null,
        }
    }

    /// The name under which the type is declared. Nullability is not
    /// declared: both forms of a type are declared alike.
    pub fn as_sql(&self) -> (r: &'static str)
        ensures
            r@ == self.declared_name(),
    {
        match self {
            SqlColumnType::OptionalFloat | SqlColumnType::Float => "REAL",
            SqlColumnType::OptionalInteger | SqlColumnType::Integer => "INTEGER",
            SqlColumnType::OptionalText | SqlColumnType::Text => "TEXT",
            SqlColumnType::OptionalBlob | SqlColumnType::Blob => "BLOB",
            SqlColumnType::Null => "NULL",
        }
    }

    /// The nullable form of a type.
    pub fn to_optional(this: SqlColumnType) -> (r: SqlColumnType)
        ensures
            r == this.nullable(),
    {
        match this {
            SqlColumnType::OptionalFloat | SqlColumnType::Float => SqlColumnType::OptionalFloat,
            SqlColumnType::OptionalInteger | SqlColumnType::Integer => SqlColumnType::OptionalInteger,
            SqlColumnType::Null => SqlColumnType::Null,
            SqlColumnType::OptionalText | SqlColumnType::Text => SqlColumnType::OptionalText,
            SqlColumnType::OptionalBlob | SqlColumnType::Blob => SqlColumnType::OptionalBlob,
        }
    }

    /// Whether a column of this type must hold a value in every row.
    pub fn is_required(&self) -> (r: bool)
        ensures
            r == self.required(),
    {
        match self {
            SqlColumnType::Float | SqlColumnType::Integer | SqlColumnType::Text | SqlColumnType::Blob => true,
            _ => false,
        }
    }

    /// Whether a column of this type can hold `value`.
    pub fn accepts(&self, value: &SqlValue) -> (r: bool)
        ensures
            r == self.admits(value@),
    {
        match (self, value) {
            (SqlColumnType::Float, SqlValue::Float(_)) => true,
            (SqlColumnType::Integer, SqlValue::Integer(_)) => true,
            (SqlColumnType::Text, SqlValue::Text(_)) => true,
            (SqlColumnType::Blob, SqlValue::Blob(_)) => true,
            (SqlColumnType::Null, SqlValue::Null) => true,
            (SqlColumnType::OptionalFloat, SqlValue::Float(_)) => true,
            (SqlColumnType::OptionalFloat, SqlValue::Null) => true,
            (SqlColumnType::OptionalInteger, SqlValue::Integer(_)) => true,
            (SqlColumnType::OptionalInteger, SqlValue::Null) => true,
            (SqlColumnType::OptionalText, SqlValue::Text(_)) => true,
            (SqlColumnType::OptionalText, SqlValue::Null) => true,
            (SqlColumnType::OptionalBlob, SqlValue::Blob(_)) => true,
            (SqlColumnType::OptionalBlob, SqlValue::Null) => true,
            _ => false,
        }
    }
}

/// Taking the nullable form twice is taking it once, and a nullable form is
/// never required.
pub proof fn nullable_is_idempotent(t: SqlColumnType)
    ensures
        t.nullable().nullable() == t.nullable(),
        !t.nullable().required(),
        t.nullable().declared_name() == t.declared_name(),
{
}

/// One column of a physical table.
#[derive(Debug, Clone, Copy, PartialEq, Eq)]
pub struct SqlColumn {
    pub name: &'static str,
    pub sql_type: SqlColumnType,
    pub is_primary: bool,
    pub is_unique: bool,
}

/// The mathematical content of a [`SqlColumn`].
pub struct SqlColumnView {
    pub name: Seq<char>,
    pub sql_type: SqlColumnType,
    pub is_primary: bool,
    pub is_unique: bool,
}

impl View for SqlColumn {
    type V = SqlColumnView;

    open spec fn view(&self) -> SqlColumnView {
        SqlColumnView {
            name: self.name@,
            sql_type: self.sql_type,
            is_primary: self.is_primary,
            is_unique: self.is_unique,
        }
    }
}

impl DeepView for SqlColumn {
    type V = SqlColumnView;

    open spec fn deep_view(&self) -> SqlColumnView {
        self@
    }
}

/// The names of the columns, in order.
pub open spec fn names_of(columns: Seq<SqlColumnView>) -> Seq<Seq<char>> {
    columns.map_values(|c: SqlColumnView| c.name)
}

/// Whether the columns can stand together in one table: no name occurs twice.
pub open spec fn names_distinct(columns: Seq<SqlColumnView>) -> bool {
    forall|i: int, j: int| 0 <= i < j < columns.len() ==> columns[i].name != columns[j].name
}

/// The position of the first column called `name`, if there is one.
pub open spec fn position_of(columns: Seq<SqlColumnView>, name: Seq<char>) -> Option<int>
    decreases columns.len(),
{
    if columns.len() == 0 {
        None
    } else {
        match position_of(columns.drop_last(), name) {
            Some(i) => Some(i),
            None => if columns.last().name == name {
                Some(columns.len() - 1)
            } else {
                None
            },
        }
    }
}

/// `position_of` finds the first column of that name, and only fails where
/// no column has it.
pub proof fn position_of_is_first(columns: Seq<SqlColumnView>, name: Seq<char>)
    ensures
        match position_of(columns, name) {
            Some(i) => 0 <= i < columns.len() && columns[i].name == name && forall|j: int|
                0 <= j < i ==> columns[j].name != name,
            None => forall|j: int| 0 <= j < columns.len() ==> columns[j].name != name,
        },
    decreases columns.len(),
{
    if columns.len() > 0 {
        let front = columns.drop_last();
        position_of_is_first(front, name);
        assert(forall|j: int| 0 <= j < front.len() ==> front[j] == columns[j]);
    }
}

/// The position of the first column called `name`, if there is one.
pub fn find_by_name(columns: &[SqlColumn], name: &str) -> (r: Option<usize>)
    ensures
        match r {
            Some(i) => position_of(columns.deep_view(), name@) == Some(i as int) && i
                < columns.len() && columns[i as int].name@ == name@,
            None => position_of(columns.deep_view(), name@) is None,
        },
{
    let ghost all = columns.deep_view();
    let mut i: usize = 0;
    while i < columns.len()
        invariant
            i <= columns.len(),
            all == columns.deep_view(),
            position_of(all.take(i as int), name@) is None,
        decreases columns.len() - i,
    {
        proof {
            assert(all.take(i + 1).drop_last() =~= all.take(i as int));
            assert(all.take(i + 1).last() == columns[i as int]@);
        }
        if same_text(columns[i].name, name) {
            proof {
                position_found_stays(all.take(i + 1), all, name@);
            }
            return Some(i);
        }
        i += 1;
    }
    assert(all.take(columns.len() as int) =~= all);
    None
}

/// A column found among the first columns is found at the same place among
/// all of them.
pub proof fn position_found_stays(
    front: Seq<SqlColumnView>,
    columns: Seq<SqlColumnView>,
    name: Seq<char>,
)
    requires
        front.is_prefix_of(columns),
        position_of(front, name) is Some,
    ensures
        position_of(columns, name) == position_of(front, name),
    decreases columns.len(),
{
    if columns.len() > front.len() {
        assert(front.is_prefix_of(columns.drop_last()));
        position_found_stays(front, columns.drop_last(), name);
    } else {
        assert(front =~= columns);
    }
}

/// How one column is declared inside `CREATE TABLE`: its quoted name, its
/// type, then `UNIQUE` and `PRIMARY KEY` where they apply.
pub open spec fn column_definition(c: SqlColumnView) -> Seq<char> {
    "\""@ + c.name + "\""@ + " "@ + c.sql_type.declared_name() + (if c.is_unique {
        " UNIQUE"@
    } else {
        Seq::empty()
    }) + (if c.is_primary {
        " PRIMARY KEY"@
    } else {
        Seq::empty()
    })
}

/// The statement that creates a table: `head`, which says which table and
/// how, then the column definitions in parentheses.
pub open spec fn create_table_text(head: Seq<char>, columns: Seq<SqlColumnView>) -> Seq<char> {
    head + " ("@ + separated(columns.map_values(|c: SqlColumnView| column_definition(c)), ","@)
        + ");"@
}

/// The definition of one column.
pub fn define_column(c: &SqlColumn) -> (r: String)
    ensures
        r@ == column_definition(c@),
{
    let mut out = String::new();
    out.push_str("\"");
    out.push_str(c.name);
    out.push_str("\"");
    out.push_str(" ");
    out.push_str(c.sql_type.as_sql());
    if c.is_unique {
        out.push_str(" UNIQUE");
    }
    if c.is_primary {
        out.push_str(" PRIMARY KEY");
    }
    assert(out@ =~= column_definition(c@));
    out
}

/// The `CREATE TABLE` statement that begins with `head` and declares
/// `columns`.
pub fn create_table_sql(head: &str, columns: &[SqlColumn]) -> (r: String)
    ensures
        r@ == create_table_text(head@, columns.deep_view()),
{
    let ghost definitions = columns.deep_view().map_values(|c: SqlColumnView| column_definition(c));
    let mut items: Vec<String> = Vec::new();
    let mut i: usize = 0;
    while i < columns.len()
        invariant
            i <= columns.len(),
            definitions == columns.deep_view().map_values(|c: SqlColumnView| column_definition(c)),
            items.deep_view() == definitions.take(i as int),
        decreases columns.len() - i,
    {
        let ghost before = items.deep_view();
        let item = define_column(&columns[i]);
        assert(definitions[i as int] == item@) by {
            assert(columns.deep_view()[i as int] == columns[i as int]@);
        }
        items.push(item);
        assert(items.deep_view() =~= before.push(item@));
        assert(items.deep_view() =~= definitions.take(i + 1));
        i += 1;
    }
    assert(definitions.take(columns.len() as int) =~= definitions);
    let mut out = String::new();
    out.push_str(head);
    out.push_str(" (");
    push_separated(&mut out, &items, ",");
    out.push_str(");");
    assert(out@ =~= create_table_text(head@, columns.deep_view()));
    out
}

/// The columns of a composite field as they stand in the table of the
/// entity that holds it: each is renamed to the field's name, an underscore
/// and its own name; types and flags stay.
pub open spec fn prefixed(prefix: Seq<char>, columns: Seq<SqlColumnView>) -> Seq<SqlColumnView> {
    columns.map_values(
        |c: SqlColumnView|
            SqlColumnView {
                name: prefix + "_"@ + c.name,
                sql_type: c.sql_type,
                is_primary: c.is_primary,
                is_unique: c.is_unique,
            },
    )
}

/// The columns of a composite field, renamed with the field's name as
/// prefix.
pub fn prefixed_columns(
    prefix: &'static str,
    columns: &[SqlColumn],
    string_storage: &mut StaticStringStorage,
) -> (r: Vec<SqlColumn>)
    ensures
        r.deep_view() == prefixed(prefix@, columns.deep_view()),
        final(string_storage)@ == interned_all(
            old(string_storage)@,
            names_of(prefixed(prefix@, columns.deep_view())),
        ),
{
    let ghost want = prefixed(prefix@, columns.deep_view());
    let ghost names = names_of(want);
    let mut out: Vec<SqlColumn> = Vec::new();
    assert(out.deep_view() =~= want.take(0));
    let mut i: usize = 0;
    while i < columns.len()
        invariant
            i <= columns.len(),
            want == prefixed(prefix@, columns.deep_view()),
            names == names_of(want),
            out.deep_view() == want.take(i as int),
            string_storage@ == interned_all(old(string_storage)@, names.take(i as int)),
        decreases columns.len() - i,
    {
        let ghost before = out.deep_view();
        let column = columns[i];
        assert(columns.deep_view()[i as int] == column@);
        let parts = [prefix, "_", column.name];
        let slice = parts.as_slice();
        let name = string_storage.store(slice);
        proof {
            assert(slice.deep_view() =~= seq![prefix@, "_"@, column.name@]);
            assert(seq![prefix@, "_"@, column.name@].drop_last() =~= seq![prefix@, "_"@]);
            joined_two(prefix@, "_"@);
            assert(names.take(i + 1).drop_last() =~= names.take(i as int));
            assert(names.take(i + 1).last() == name@);
        }
        let renamed = SqlColumn {
            name,
            sql_type: column.sql_type,
            is_primary: column.is_primary,
            is_unique: column.is_unique,
        };
        out.push(renamed);
        assert(out.deep_view() =~= before.push(renamed@));
        assert(out.deep_view() =~= want.take(i + 1));
        i += 1;
    }
    assert(want.take(columns.len() as int) =~= want);
    assert(names.take(columns.len() as int) =~= names);
    out
}

/// Columns that stood together stand together under one prefix: renaming
/// keeps distinct names distinct.
pub proof fn prefixing_keeps_names_distinct(prefix: Seq<char>, columns: Seq<SqlColumnView>)
    requires
        names_distinct(columns),
    ensures
        names_distinct(prefixed(prefix, columns)),
{
    let renamed = prefixed(prefix, columns);
    let head = prefix + "_"@;
    assert forall|i: int, j: int| 0 <= i < j < renamed.len() implies renamed[i].name
        != renamed[j].name by {
        if renamed[i].name == renamed[j].name {
            assert(renamed[i].name =~= head + columns[i].name);
            assert(renamed[j].name =~= head + columns[j].name);
            assert((head + columns[i].name).subrange(
                head.len() as int,
                (head + columns[i].name).len() as int,
            ) =~= columns[i].name);
            assert((head + columns[j].name).subrange(
                head.len() as int,
                (head + columns[j].name).len() as int,
            ) =~= columns[j].name);
        }
    }
}

/// The counter columns of the vector fields: for each field one integer
/// column, named after the field.
pub open spec fn counters_of(vectors: Seq<SqlColumnView>) -> Seq<SqlColumnView> {
    vectors.map_values(
        |c: SqlColumnView|
            SqlColumnView {
                name: c.name + "_silo_remaining_elements"@,
                sql_type: SqlColumnType::Integer,
                is_primary: false,
                is_unique: false,
            },
    )
}

/// The counter columns of the vector fields.
pub fn counter_columns(vectors: &[SqlColumn], string_storage: &mut StaticStringStorage) -> (r: Vec<
    SqlColumn,
>)
    ensures
        r.deep_view() == counters_of(vectors.deep_view()),
        final(string_storage)@ == interned_all(
            old(string_storage)@,
            names_of(counters_of(vectors.deep_view())),
        ),
{
    let ghost want = counters_of(vectors.deep_view());
    let ghost names = names_of(want);
    let mut out: Vec<SqlColumn> = Vec::new();
    assert(out.deep_view() =~= want.take(0));
    let mut i: usize = 0;
    while i < vectors.len()
        invariant
            i <= vectors.len(),
            want == counters_of(vectors.deep_view()),
            names == names_of(want),
            out.deep_view() == want.take(i as int),
            string_storage@ == interned_all(old(string_storage)@, names.take(i as int)),
        decreases vectors.len() - i,
    {
        let ghost before = out.deep_view();
        let column = vectors[i];
        assert(vectors.deep_view()[i as int] == column@);
        let parts = [column.name, "_silo_remaining_elements"];
        let slice = parts.as_slice();
        let name = string_storage.store(slice);
        proof {
            assert(slice.deep_view() =~= seq![column.name@, "_silo_remaining_elements"@]);
            joined_two(column.name@, "_silo_remaining_elements"@);
            assert(names.take(i + 1).drop_last() =~= names.take(i as int));
            assert(names.take(i + 1).last() == name@);
        }
        let counter = SqlColumn {
            name,
            sql_type: SqlColumnType::Integer,
            is_primary: false,
            is_unique: false,
        };
        out.push(counter);
        assert(out.deep_view() =~= before.push(counter@));
        assert(out.deep_view() =~= want.take(i + 1));
        i += 1;
    }
    assert(want.take(vectors.len() as int) =~= want);
    assert(names.take(vectors.len() as int) =~= names);
    out
}

/// Whether no two of the columns share a name.
pub fn has_distinct_names(columns: &[SqlColumn]) -> (r: bool)
    ensures
        r == names_distinct(columns.deep_view()),
{
    let ghost all = columns.deep_view();
    let mut j: usize = 0;
    while j < columns.len()
        invariant
            j <= columns.len(),
            all == columns.deep_view(),
            forall|a: int, b: int| 0 <= a < b < j ==> all[a].name != all[b].name,
        decreases columns.len() - j,
    {
        let mut i: usize = 0;
        while i < j
            invariant
                i <= j < columns.len(),
                all == columns.deep_view(),
                forall|a: int| 0 <= a < i ==> all[a].name != all[j as int].name,
            decreases j - i,
        {
            assert(all[i as int] == columns[i as int]@);
            assert(all[j as int] == columns[j as int]@);
            if same_text(columns[i].name, columns[j].name) {
                return false;
            }
            i += 1;
        }
        j += 1;
    }
    true
}

/// The columns of the table of an entity with vector fields: the key, the
/// scalar fields, one column per vector field for the element that a row
/// carries, and one counter per vector field. A key has many rows here, so
/// no column is a primary key or unique; the element columns are nullable,
/// for the rows that carry no element.
pub open spec fn vector_layout(
    key: SqlColumnView,
    scalars: Seq<SqlColumnView>,
    vectors: Seq<SqlColumnView>,
) -> Seq<SqlColumnView> {
    seq![plain(key)] + scalars.map_values(|c: SqlColumnView| plain(c)) + vectors.map_values(
        |c: SqlColumnView|
            SqlColumnView {
                name: c.name,
                sql_type: c.sql_type.nullable(),
                is_primary: false,
                is_unique: false,
            },
    ) + counters_of(vectors)
}

/// The column without its flags.
pub open spec fn plain(c: SqlColumnView) -> SqlColumnView {
    SqlColumnView { name: c.name, sql_type: c.sql_type, is_primary: false, is_unique: false }
}

/// The columns of the table of an entity with vector fields.
pub fn vector_columns(
    key: &SqlColumn,
    scalars: &[SqlColumn],
    vectors: &[SqlColumn],
    string_storage: &mut StaticStringStorage,
) -> (r: Vec<SqlColumn>)
    ensures
        r.deep_view() == vector_layout(key@, scalars.deep_view(), vectors.deep_view()),
        r.len() == 1 + scalars.len() + 2 * vectors.len(),
        final(string_storage)@ == interned_all(
            old(string_storage)@,
            names_of(counters_of(vectors.deep_view())),
        ),
{
    let ghost fields = scalars.deep_view().map_values(|c: SqlColumnView| plain(c));
    let ghost cells = vectors.deep_view().map_values(
        |c: SqlColumnView|
            SqlColumnView {
                name: c.name,
                sql_type: c.sql_type.nullable(),
                is_primary: false,
                is_unique: false,
            },
    );
    let mut out: Vec<SqlColumn> = Vec::new();
    let first = SqlColumn {
        name: key.name,
        sql_type: key.sql_type,
        is_primary: false,
        is_unique: false,
    };
    out.push(first);
    assert(out.deep_view() =~= seq![plain(key@)] + fields.take(0));
    let mut i: usize = 0;
    while i < scalars.len()
        invariant
            i <= scalars.len(),
            fields == scalars.deep_view().map_values(|c: SqlColumnView| plain(c)),
            out.deep_view() == seq![plain(key@)] + fields.take(i as int),
        decreases scalars.len() - i,
    {
        let ghost before = out.deep_view();
        let c = scalars[i];
        assert(scalars.deep_view()[i as int] == c@);
        let column = SqlColumn {
            name: c.name,
            sql_type: c.sql_type,
            is_primary: false,
            is_unique: false,
        };
        out.push(column);
        assert(out.deep_view() =~= before.push(column@));
        assert(out.deep_view() =~= seq![plain(key@)] + fields.take(i + 1));
        i += 1;
    }
    assert(fields.take(scalars.len() as int) =~= fields);
    let ghost head = out.deep_view();
    assert(out.deep_view() =~= head + cells.take(0));
    let mut f: usize = 0;
    while f < vectors.len()
        invariant
            f <= vectors.len(),
            cells == vectors.deep_view().map_values(
                |c: SqlColumnView|
                    SqlColumnView {
                        name: c.name,
                        sql_type: c.sql_type.nullable(),
                        is_primary: false,
                        is_unique: false,
                    },
            ),
            out.deep_view() == head + cells.take(f as int),
        decreases vectors.len() - f,
    {
        let ghost before = out.deep_view();
        let c = vectors[f];
        assert(vectors.deep_view()[f as int] == c@);
        let column = SqlColumn {
            name: c.name,
            sql_type: SqlColumnType::to_optional(c.sql_type),
            is_primary: false,
            is_unique: false,
        };
        out.push(column);
        assert(out.deep_view() =~= before.push(column@));
        assert(out.deep_view() =~= head + cells.take(f + 1));
        f += 1;
    }
    assert(cells.take(vectors.len() as int) =~= cells);
    let ghost body = out.deep_view();
    let mut counters = counter_columns(vectors, string_storage);
    let ghost tail = counters.deep_view();
    out.append(&mut counters);
    assert(out.deep_view() =~= body + tail);
    assert(out.deep_view() =~= vector_layout(key@, scalars.deep_view(), vectors.deep_view()));
    out
}

/// The names of the counter columns of a table that is laid out for so many
/// vector fields: the names of its last columns, one per vector field. There
/// are none where the table has too few columns for a key, an element
/// column and a counter per vector field.
pub fn counter_names(columns: &[SqlColumn], vectors: usize) -> (r: Option<Vec<&'static str>>)
    ensures
        r is Some <==> columns.len() >= 1 + 2 * vectors,
        r matches Some(names) ==> names.deep_view() == names_of(
            columns.deep_view().subrange(columns.len() - vectors, columns.len() as int),
        ),
{
    if vectors > columns.len() || columns.len() - vectors <= vectors {
        return None;
    }
    let start = columns.len() - vectors;
    let ghost want = names_of(columns.deep_view().subrange(start as int, columns.len() as int));
    let mut names: Vec<&'static str> = Vec::new();
    assert(names.deep_view() =~= want.take(0));
    let mut i: usize = 0;
    while i < vectors
        invariant
            i <= vectors,
            start + vectors == columns.len(),
            want == names_of(columns.deep_view().subrange(start as int, columns.len() as int)),
            names.deep_view() == want.take(i as int),
        decreases vectors - i,
    {
        let ghost before = names.deep_view();
        let name = columns[start + i].name;
        assert(columns.deep_view()[start + i] == columns[start + i]@);
        names.push(name);
        assert(names.deep_view() =~= before.push(name@));
        assert(names.deep_view() =~= want.take(i + 1));
        i += 1;
    }
    assert(want.take(vectors as int) =~= want);
    Some(names)
}

/// The number of scalar fields of an entity whose table is laid out for so
/// many vector fields: what is left of the columns beside the key, the
/// element columns and the counters. There is none where the table has too
/// few columns.
pub fn scalar_count(columns: &[SqlColumn], vectors: usize) -> (r: Option<usize>)
    ensures
        r is Some <==> columns.len() >= 1 + 2 * vectors,
        r matches Some(n) ==> n == columns.len() - 1 - 2 * vectors,
{
    if vectors > columns.len() || columns.len() - vectors <= vectors {
        None
    } else {
        Some(columns.len() - vectors - 1 - vectors)
    }
}

/// In the layout of an entity with vector fields the counters stand last:
/// the last columns, one per vector field, are the counter columns, and
/// what stands between the key and the element columns are the scalar
/// fields.
pub proof fn counters_stand_last(
    key: SqlColumnView,
    scalars: Seq<SqlColumnView>,
    vectors: Seq<SqlColumnView>,
)
    ensures
        vector_layout(key, scalars, vectors).len() == 1 + scalars.len() + 2 * vectors.len(),
        vector_layout(key, scalars, vectors).subrange(
            (1 + scalars.len() + vectors.len()) as int,
            (1 + scalars.len() + 2 * vectors.len()) as int,
        ) == counters_of(vectors),
{
    let layout = vector_layout(key, scalars, vectors);
    assert(layout.subrange(
        (1 + scalars.len() + vectors.len()) as int,
        (1 + scalars.len() + 2 * vectors.len()) as int,
    ) =~= counters_of(vectors));
}

} // verus!
