//! The store: one SQLite connection and the name pool that its tables
//! share.

use crate::column::{
    create_table_sql, create_table_text, prefixed, prefixed_columns, vector_columns, vector_layout,
    SqlColumn,
};
use crate::filter::{all_compile, one_entry_per_name, with_entries, FieldFilter, GenericFilter};
use crate::column::{counters_of, names_of};
use crate::interner::{
    interned, interned_all, interned_names_are_held, interning_only_grows, joined,
    StaticStringStorage,
};
use crate::schema::{live_schema, reported_column, reported_names};
use crate::schema::{
    judge_table, same_schema, unique_index_names, TableInfoRow, UnknownColumnType,
};
use crate::statement::delete_sql;
use vstd::prelude::*;

verus! {

/// `rusqlite::Connection`, a connection to a SQLite database; nothing is
/// known of what it holds.
#[verifier::external_type_specification]
#[verifier::external_body]
pub struct ExConnection(rusqlite::Connection);

/// `rusqlite::Error`, the failure of a call into the database; it is only
/// passed on.
#[verifier::external_type_specification]
#[verifier::external_body]
pub struct ExError(rusqlite::Error);

/// Opens a database in memory with `rusqlite::Connection::open_in_memory`.
/// Nothing is promised of the outcome: the call fails when SQLite cannot
/// open the database.
#[verifier::external_body]
fn open_memory() -> (r: Result<rusqlite::Connection, rusqlite::Error>) {
    rusqlite::Connection::open_in_memory()
}

/// Runs one statement without parameters through
/// `rusqlite::Connection::execute` and hands back the number of rows it
/// changed. Nothing is promised of the outcome: it depends on what the
/// database holds.
#[verifier::external_body]
fn execute(connection: &rusqlite::Connection, sql: &str) -> (r: Result<usize, rusqlite::Error>) {
    connection.execute(sql, ())
}

/// Asks `rusqlite::Connection::table_exists` whether any attached database
/// has a table of that name. Nothing is promised of the outcome.
#[verifier::external_body]
fn table_exists(connection: &rusqlite::Connection, table: &str) -> (r: Result<
    bool,
    rusqlite::Error,
>) {
    connection.table_exists(None, table)
}

/// `rusqlite::Row`, one row of a running query; it is only read through
/// `text_at` and `integer_at`.
#[verifier::external_type_specification]
#[verifier::external_body]
pub struct ExRow<'a>(rusqlite::Row<'a>);

/// Reads the text in the named column of a row with `rusqlite::Row::get`.
/// Nothing is promised of the outcome: the call fails where the row has no
/// such column or holds no text in it.
#[verifier::external_body]
fn text_at(row: &rusqlite::Row<'_>, column: &str) -> (r: Result<String, rusqlite::Error>) {
    row.get(column)
}

/// Reads the integer in the named column of a row with
/// `rusqlite::Row::get`. Nothing is promised of the outcome: the call fails
/// where the row has no such column or holds no integer in it.
#[verifier::external_body]
fn integer_at(row: &rusqlite::Row<'_>, column: &str) -> (r: Result<i64, rusqlite::Error>) {
    row.get(column)
}

/// Runs a pragma on `subject` through `rusqlite::Connection::pragma` and
/// collects what `read` makes of each row that the pragma gives, in order;
/// the first row that `read` fails on fails the call. `read` is called on
/// rows of the database's choosing, so it must take every row. Nothing is
/// promised of the outcome: it depends on what the database holds.
#[verifier::external_body]
fn pragma_rows<T, F: Fn(&rusqlite::Row<'_>) -> Result<T, rusqlite::Error>>(
    connection: &rusqlite::Connection,
    pragma: &str,
    subject: &str,
    read: F,
) -> (r: Result<Vec<T>, rusqlite::Error>)
    requires
        forall|row: &rusqlite::Row<'_>| #[trigger] call_requires(read, (row,)),
{
    let mut rows = Vec::new();
    connection.pragma(None, pragma, subject, |row| {
        rows.push(read(row)?);
        Ok(())
    })?;
    Ok(rows)
}

/// What four readings of a row of `PRAGMA table_info` report of a column.
/// Where all four succeeded, the column has the name and the declared type
/// that were read, is `NOT NULL` where that integer is not zero, and belongs
/// to the primary key where its rank in the key is not zero. Where one
/// failed, the first failure, in the order name, type, `NOT NULL`, rank, is
/// the outcome.
pub open spec fn table_info_report(
    name: Result<String, rusqlite::Error>,
    declared_as: Result<String, rusqlite::Error>,
    not_null: Result<i64, rusqlite::Error>,
    rank: Result<i64, rusqlite::Error>,
) -> Result<TableInfoRow, rusqlite::Error> {
    match name {
        Err(e) => Err(e),
        Ok(name) => match declared_as {
            Err(e) => Err(e),
            Ok(declared_as) => match not_null {
                Err(e) => Err(e),
                Ok(flag) => match rank {
                    Err(e) => Err(e),
                    Ok(rank) => Ok(
                        TableInfoRow { name, declared_as, not_null: flag != 0, primary: rank != 0 },
                    ),
                },
            },
        },
    }
}

/// What four readings of a row of `PRAGMA table_info` report of a column.
pub fn reported_row(
    name: Result<String, rusqlite::Error>,
    declared_as: Result<String, rusqlite::Error>,
    not_null: Result<i64, rusqlite::Error>,
    rank: Result<i64, rusqlite::Error>,
) -> (r: Result<TableInfoRow, rusqlite::Error>)
    ensures
        r == table_info_report(name, declared_as, not_null, rank),
{
    let name = match name {
        Ok(name) => name,
        Err(e) => {
            return Err(e);
        },
    };
    let declared_as = match declared_as {
        Ok(declared_as) => declared_as,
        Err(e) => {
            return Err(e);
        },
    };
    let not_null = match not_null {
        Ok(flag) => flag != 0,
        Err(e) => {
            return Err(e);
        },
    };
    match rank {
        Ok(rank) => Ok(TableInfoRow { name, declared_as, not_null, primary: rank != 0 }),
        Err(e) => Err(e),
    }
}

/// What two readings of a row of `PRAGMA index_list` report of an index.
/// Where both succeeded, the index has the name that was read and is unique
/// where that integer is not zero. Where one failed, the first failure, in
/// the order name, uniqueness, is the outcome.
pub open spec fn index_list_report(
    name: Result<String, rusqlite::Error>,
    unique: Result<i64, rusqlite::Error>,
) -> Result<(String, bool), rusqlite::Error> {
    match name {
        Err(e) => Err(e),
        Ok(name) => match unique {
            Err(e) => Err(e),
            Ok(flag) => Ok((name, flag != 0)),
        },
    }
}

/// What two readings of a row of `PRAGMA index_list` report of an index.
pub fn reported_index(
    name: Result<String, rusqlite::Error>,
    unique: Result<i64, rusqlite::Error>,
) -> (r: Result<(String, bool), rusqlite::Error>)
    ensures
        r == index_list_report(name, unique),
{
    let name = match name {
        Ok(name) => name,
        Err(e) => {
            return Err(e);
        },
    };
    match unique {
        Ok(flag) => Ok((name, flag != 0)),
        Err(e) => Err(e),
    }
}

/// What a row of `PRAGMA table_info` reports of a column: its name, its
/// declared type, whether it is `NOT NULL`, and whether it belongs to the
/// primary key. The four columns are read, and `reported_row` makes the
/// outcome of the readings.
fn table_info_row(row: &rusqlite::Row<'_>) -> (r: Result<TableInfoRow, rusqlite::Error>) {
    reported_row(
        text_at(row, "name"),
        text_at(row, "type"),
        integer_at(row, "notnull"),
        integer_at(row, "pk"),
    )
}

/// What a row of `PRAGMA index_list` reports of an index: its name, and
/// whether it is unique. The two columns are read, and `reported_index`
/// makes the outcome of the readings.
fn index_list_row(row: &rusqlite::Row<'_>) -> (r: Result<(String, bool), rusqlite::Error>) {
    reported_index(text_at(row, "name"), integer_at(row, "unique"))
}

/// What a row of `PRAGMA index_info` reports of an indexed column: its
/// position within the table, negative for what is no column of the table.
fn index_info_row(row: &rusqlite::Row<'_>) -> (r: Result<i64, rusqlite::Error>) {
    integer_at(row, "cid")
}

/// The positions among `cids` that are positions of columns: those that
/// are not negative, in order.
pub open spec fn positions(cids: Seq<i64>) -> Seq<usize>
    decreases cids.len(),
{
    if cids.len() == 0 {
        Seq::empty()
    } else if 0 <= cids.last() <= usize::MAX {
        positions(cids.drop_last()).push(cids.last() as usize)
    } else {
        positions(cids.drop_last())
    }
}

/// The positions among `cids` that are positions of columns.
pub fn column_positions(cids: &Vec<i64>) -> (r: Vec<usize>)
    ensures
        r@ == positions(cids@),
{
    let mut out: Vec<usize> = Vec::new();
    let mut i: usize = 0;
    while i < cids.len()
        invariant
            i <= cids.len(),
            out@ == positions(cids@.take(i as int)),
        decreases cids.len() - i,
    {
        proof {
            assert(cids@.take(i + 1).drop_last() =~= cids@.take(i as int));
            assert(cids@.take(i + 1).last() == cids[i as int]);
        }
        let cid = cids[i];
        if cid >= 0 && cid as u64 <= usize::MAX as u64 {
            out.push(cid as usize);
        }
        i += 1;
    }
    assert(cids@.take(cids.len() as int) =~= cids@);
    out
}

/// Why the columns of a table could not be checked.
#[derive(Debug)]
pub enum CheckError {
    /// The database failed.
    Database(rusqlite::Error),
    /// The table declares a column with a type that the engine does not
    /// know.
    UnknownColumnType(UnknownColumnType),
}

/// A store: the connection, and the names interned for its tables.
pub struct Database {
    connection: rusqlite::Connection,
    static_string_storage: StaticStringStorage,
}

/// The head of the statement that creates `table` where it is missing.
pub open spec fn create_head(table: Seq<char>) -> Seq<char> {
    "CREATE TABLE IF NOT EXISTS "@ + table
}

/// The statement that creates `table` with the given columns where it is
/// missing.
pub fn create_statement(table: &str, columns: &[SqlColumn]) -> (r: String)
    ensures
        r@ == create_table_text(create_head(table@), columns.deep_view()),
{
    let mut head = String::new();
    head.push_str("CREATE TABLE IF NOT EXISTS ");
    head.push_str(table);
    create_table_sql(head.as_str(), columns)
}

/// What is to be run for a table, given whether the database has it: the
/// statement that creates it with the given columns where it is missing,
/// nothing where it is there. A table that is there is left as it is,
/// whatever its columns.
pub fn creation_for(exists: bool, table: &str, columns: &[SqlColumn]) -> (r: Option<String>)
    ensures
        r is None <==> exists,
        r matches Some(sql) ==> sql@ == create_table_text(
            create_head(table@),
            columns.deep_view(),
        ),
{
    if exists {
        None
    } else {
        Some(create_statement(table, columns))
    }
}

impl Database {
    /// The names interned so far.
    pub closed spec fn names(&self) -> Seq<Seq<char>> {
        self.static_string_storage@
    }

    /// The connection that the store is on.
    pub closed spec fn connection_of(&self) -> rusqlite::Connection {
        self.connection
    }

    /// A store on an open connection, with no name interned yet. A table
    /// left over by a migration that was cut short is dropped.
    pub fn new_from_connection(connection: rusqlite::Connection) -> (r: Result<
        Self,
        rusqlite::Error,
    >)
        ensures
            r matches Ok(database) ==> database.names() == Seq::<Seq<char>>::empty()
                && database.connection_of() == connection,
    {
        match execute(&connection, "DROP TABLE IF EXISTS temporary") {
            Ok(_) => Ok(Database { connection, static_string_storage: StaticStringStorage::new() }),
            Err(e) => Err(e),
        }
    }

    /// A store in memory.
    pub fn create_in_memory() -> (r: Result<Self, rusqlite::Error>)
        ensures
            r matches Ok(database) ==> database.names() == Seq::<Seq<char>>::empty(),
    {
        match open_memory() {
            Ok(connection) => Database::new_from_connection(connection),
            Err(e) => Err(e),
        }
    }

    /// The connection that the store is on, for the statements that carry
    /// parameters.
    pub fn connection(&self) -> (r: &rusqlite::Connection)
        ensures
            *r == self.connection_of(),
    {
        &self.connection
    }

    /// Interns the name made of `parts`.
    pub fn store(&mut self, parts: &[&'static str]) -> (r: &'static str)
        ensures
            r@ == joined(parts.deep_view()),
            final(self).names() == interned(old(self).names(), joined(parts.deep_view())),
    {
        self.static_string_storage.store(parts)
    }

    /// The columns of a composite field, renamed with the field's name as
    /// prefix, the new names interned in this store.
    pub fn prefixed_columns(&mut self, prefix: &'static str, columns: &[SqlColumn]) -> (r: Vec<
        SqlColumn,
    >)
        ensures
            r.deep_view() == prefixed(prefix@, columns.deep_view()),
            final(self).names() == interned_all(
                old(self).names(),
                names_of(prefixed(prefix@, columns.deep_view())),
            ),
    {
        prefixed_columns(prefix, columns, &mut self.static_string_storage)
    }

    /// The columns of the table of an entity with vector fields, the names
    /// of the counters interned in this store.
    pub fn vector_columns(
        &mut self,
        key: &SqlColumn,
        scalars: &[SqlColumn],
        vectors: &[SqlColumn],
    ) -> (r: Vec<SqlColumn>)
        ensures
            r.deep_view() == vector_layout(key@, scalars.deep_view(), vectors.deep_view()),
            r.len() == 1 + scalars.len() + 2 * vectors.len(),
            final(self).names() == interned_all(
                old(self).names(),
                names_of(counters_of(vectors.deep_view())),
            ),
    {
        vector_columns(key, scalars, vectors, &mut self.static_string_storage)
    }

    /// The flat filter of a typed filter, with the composed names interned
    /// in this store.
    pub fn compile_filter(&mut self, filter: &FieldFilter) -> (r: GenericFilter)
        requires
            *filter is Fields,
        ensures
            r@ == with_entries(Seq::empty(), filter.flat(None)),
            one_entry_per_name(r@),
            final(self).names() == interned_all(old(self).names(), filter.composed(None)),
    {
        filter.into_generic(&mut self.static_string_storage, None)
    }

    /// Makes sure that `table` exists. The database is asked whether it has
    /// a table of that name, and what `creation_for` makes of the answer is
    /// run: the statement that creates the table with the given columns
    /// where it has none, nothing where it has one.
    pub fn load(&self, table: &str, columns: &[SqlColumn]) -> (r: Result<(), rusqlite::Error>) {
        match table_exists(&self.connection, table) {
            Ok(exists) => match creation_for(exists, table, columns) {
                Some(sql) => match execute(&self.connection, sql.as_str()) {
                    Ok(_) => Ok(()),
                    Err(e) => Err(e),
                },
                None => Ok(()),
            },
            Err(e) => Err(e),
        }
    }

    /// Reads what the database reports of `table`: its columns, its indices,
    /// and for each index that `unique_index_names` picks the positions that
    /// `column_positions` keeps of what it covers. The table is then judged
    /// as `judge_table` says. Where the table has to be migrated, its columns
    /// are handed back; where it serves as it is, nothing is. The connection
    /// stays the store's own.
    pub fn check(&mut self, table: &str, expected: &[SqlColumn]) -> (r: Result<
        Option<Vec<SqlColumn>>,
        CheckError,
    >)
        ensures
            r matches Ok(Some(live)) ==> !same_schema(live.deep_view(), expected.deep_view()),
            r matches Ok(Some(live)) ==> forall|i: int|
                0 <= i < live.len() ==> final(self).names().contains((#[trigger] live[i]).name@),
            old(self).names().is_prefix_of(final(self).names()),
            final(self).connection_of() == old(self).connection_of(),
    {
        let info = match pragma_rows(&self.connection, "table_info", table, table_info_row) {
            Ok(info) => info,
            Err(e) => {
                return Err(CheckError::Database(e));
            },
        };
        let indices = match pragma_rows(&self.connection, "index_list", table, index_list_row) {
            Ok(indices) => indices,
            Err(e) => {
                return Err(CheckError::Database(e));
            },
        };
        let consulted = unique_index_names(&indices);
        let mut unique: Vec<usize> = Vec::new();
        let mut i: usize = 0;
        while i < consulted.len()
            invariant
                i <= consulted.len(),
            decreases consulted.len() - i,
        {
            match pragma_rows(
                &self.connection,
                "index_info",
                consulted[i].as_str(),
                index_info_row,
            ) {
                Ok(cids) => {
                    let mut covered = column_positions(&cids);
                    unique.append(&mut covered);
                },
                Err(e) => {
                    return Err(CheckError::Database(e));
                },
            }
            i += 1;
        }
        let verdict = judge_table(&mut self.static_string_storage, &info, &unique, expected);
        proof {
            interning_only_grows(old(self).names(), reported_names(info@));
            if verdict is Ok && verdict->Ok_0 is Some {
                let live = verdict->Ok_0->Some_0;
                interned_names_are_held(old(self).names(), reported_names(info@));
                assert forall|i: int| 0 <= i < live.len() implies self.names().contains(
                    (#[trigger] live[i]).name@,
                ) by {
                    assert(live.deep_view()[i] == live_schema(info@, unique@)[i]);
                    assert(reported_column(info[i]) is Some);
                    assert(live[i].name@ == reported_names(info@)[i]);
                }
            }
            if verdict is Err {
                interning_only_grows(
                    old(self).names(),
                    reported_names(info@).take(verdict->Err_0.position as int),
                );
            }
        }
        match verdict {
            Ok(verdict) => Ok(verdict),
            Err(e) => Err(CheckError::UnknownColumnType(e)),
        }
    }

    /// Deletes the rows of `table` that the filter lets through, and says
    /// how many there were.
    pub fn delete_table_filtered(&self, table: &str, filter: &GenericFilter) -> (r: Result<
        usize,
        rusqlite::Error,
    >)
        requires
            all_compile(filter@),
    {
        execute(&self.connection, delete_sql(table, filter).as_str())
    }
}

} // verus!
