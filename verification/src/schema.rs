//! Schema introspection: the columns a table has, read from what the
//! database reports of it, and what separates them from the columns the
//! entity expects.

use crate::column::{find_by_name, position_of, SqlColumn, SqlColumnType, SqlColumnView};
use crate::interner::{interned_all, StaticStringStorage};
use crate::text::same_text;
use vstd::prelude::*;

verus! {

/// One difference between the columns a table has and the columns it should
/// have. Positions count the expected columns.
#[derive(Debug, Clone, Copy)]
pub enum TableAlteration {
    InsertColumn(SqlColumn),
    ChangeType(usize, SqlColumnType),
    ChangeIsPrimary(usize, bool),
    ChangeIsUnique(usize, bool),
    DeleteColumn(&'static str),
}

/// The mathematical content of a [`TableAlteration`].
pub enum AlterationView {
    InsertColumn(SqlColumnView),
    ChangeType(int, SqlColumnType),
    ChangeIsPrimary(int, bool),
    ChangeIsUnique(int, bool),
    DeleteColumn(Seq<char>),
}

impl View for TableAlteration {
    type V = AlterationView;

    open spec fn view(&self) -> AlterationView {
        match self {
            TableAlteration::InsertColumn(c) => AlterationView::InsertColumn(c@),
            TableAlteration::ChangeType(i, t) => AlterationView::ChangeType(*i as int, *t),
            TableAlteration::ChangeIsPrimary(i, b) => AlterationView::ChangeIsPrimary(
                *i as int,
                *b,
            ),
            TableAlteration::ChangeIsUnique(i, b) => AlterationView::ChangeIsUnique(*i as int, *b),
            TableAlteration::DeleteColumn(name) => AlterationView::DeleteColumn(name@),
        }
    }
}

impl DeepView for TableAlteration {
    type V = AlterationView;

    open spec fn deep_view(&self) -> AlterationView {
        self@
    }
}

/// What has to change for the expected column at position `i`: the column
/// is inserted where the table lacks it; else its primary key flag, its
/// uniqueness and its type are changed where they differ, the types being
/// compared in their nullable form.
pub open spec fn changes_for(actual: Seq<SqlColumnView>, column: SqlColumnView, i: int) -> Seq<
    AlterationView,
> {
    match position_of(actual, column.name) {
        Some(at) => {
            let live = actual[at];
            (if live.is_primary != column.is_primary {
                seq![AlterationView::ChangeIsPrimary(i, column.is_primary)]
            } else {
                Seq::empty()
            }) + (if live.is_unique != column.is_unique {
                seq![AlterationView::ChangeIsUnique(i, column.is_unique)]
            } else {
                Seq::empty()
            }) + (if live.sql_type.nullable() != column.sql_type.nullable() {
                seq![AlterationView::ChangeType(i, column.sql_type)]
            } else {
                Seq::empty()
            })
        },
        None => seq![AlterationView::InsertColumn(column)],
    }
}

/// The changes for the first `n` expected columns, in order.
pub open spec fn changes_upto(
    actual: Seq<SqlColumnView>,
    expected: Seq<SqlColumnView>,
    n: nat,
) -> Seq<AlterationView>
    decreases n,
{
    if n == 0 || n > expected.len() {
        Seq::empty()
    } else {
        changes_upto(actual, expected, (n - 1) as nat) + changes_for(
            actual,
            expected[n - 1],
            n - 1,
        )
    }
}

/// The deletions among the first `n` columns of the table: one for each
/// column that is not expected.
pub open spec fn deletions_upto(
    actual: Seq<SqlColumnView>,
    expected: Seq<SqlColumnView>,
    n: nat,
) -> Seq<AlterationView>
    decreases n,
{
    if n == 0 || n > actual.len() {
        Seq::empty()
    } else {
        let front = deletions_upto(actual, expected, (n - 1) as nat);
        if position_of(expected, actual[n - 1].name) is None {
            front.push(AlterationView::DeleteColumn(actual[n - 1].name))
        } else {
            front
        }
    }
}

/// Everything that separates the table from the entity: the changes for
/// the expected columns, then the deletions of the columns that are not
/// expected.
pub open spec fn alterations(actual: Seq<SqlColumnView>, expected: Seq<SqlColumnView>) -> Seq<
    AlterationView,
> {
    changes_upto(actual, expected, expected.len()) + deletions_upto(
        actual,
        expected,
        actual.len(),
    )
}

/// Whether the table holds the expected column as it should be: under its
/// name, with the same flags and the same type up to nullability.
pub open spec fn holds_column(actual: Seq<SqlColumnView>, column: SqlColumnView) -> bool {
    match position_of(actual, column.name) {
        Some(at) => actual[at].is_primary == column.is_primary && actual[at].is_unique
            == column.is_unique && actual[at].sql_type.nullable() == column.sql_type.nullable(),
        None => false,
    }
}

/// Whether the table serves the entity as it is: it holds every expected
/// column as it should be, and no column besides.
pub open spec fn same_schema(actual: Seq<SqlColumnView>, expected: Seq<SqlColumnView>) -> bool {
    &&& forall|i: int| 0 <= i < expected.len() ==> holds_column(actual, #[trigger] expected[i])
    &&& forall|j: int|
        0 <= j < actual.len() ==> position_of(expected, (#[trigger] actual[j]).name) is Some
}

/// Everything that separates the table from the entity.
pub fn table_alterations(actual: &[SqlColumn], expected: &[SqlColumn]) -> (r: Vec<TableAlteration>)
    ensures
        r.deep_view() == alterations(actual.deep_view(), expected.deep_view()),
{
    let ghost live = actual.deep_view();
    let ghost wanted = expected.deep_view();
    let mut necessary: Vec<TableAlteration> = Vec::new();
    assert(necessary.deep_view() =~= Seq::<AlterationView>::empty());
    let mut index: usize = 0;
    while index < expected.len()
        invariant
            index <= expected.len(),
            live == actual.deep_view(),
            wanted == expected.deep_view(),
            necessary.deep_view() == changes_upto(live, wanted, index as nat),
        decreases expected.len() - index,
    {
        let ghost before = necessary.deep_view();
        let column = expected[index];
        assert(wanted[index as int] == column@);
        match find_by_name(actual, column.name) {
            Some(at) => {
                let found = actual[at];
                assert(live[at as int] == found@);
                if found.is_primary != column.is_primary {
                    necessary.push(TableAlteration::ChangeIsPrimary(index, column.is_primary));
                }
                if found.is_unique != column.is_unique {
                    necessary.push(TableAlteration::ChangeIsUnique(index, column.is_unique));
                }
                if SqlColumnType::to_optional(found.sql_type) != SqlColumnType::to_optional(
                    column.sql_type,
                ) {
                    necessary.push(TableAlteration::ChangeType(index, column.sql_type));
                }
            },
            None => {
                necessary.push(TableAlteration::InsertColumn(column));
            },
        }
        assert(necessary.deep_view() =~= before + changes_for(live, column@, index as int));
        index += 1;
    }
    let ghost changes = necessary.deep_view();
    let mut at: usize = 0;
    while at < actual.len()
        invariant
            at <= actual.len(),
            live == actual.deep_view(),
            wanted == expected.deep_view(),
            necessary.deep_view() == changes + deletions_upto(live, wanted, at as nat),
        decreases actual.len() - at,
    {
        let ghost before = necessary.deep_view();
        let column = actual[at];
        assert(live[at as int] == column@);
        if find_by_name(expected, column.name).is_none() {
            necessary.push(TableAlteration::DeleteColumn(column.name));
            assert(necessary.deep_view() =~= before.push(AlterationView::DeleteColumn(column.name@)));
        }
        at += 1;
    }
    necessary
}

/// Whether the table has to be migrated before it can serve the entity.
pub fn compare_columns(actual: &[SqlColumn], expected: &[SqlColumn]) -> (r: bool)
    ensures
        r == (alterations(actual.deep_view(), expected.deep_view()).len() > 0),
        r == !same_schema(actual.deep_view(), expected.deep_view()),
{
    proof {
        nothing_to_alter_iff_same_schema(actual.deep_view(), expected.deep_view());
    }
    let necessary = table_alterations(actual, expected);
    necessary.len() > 0
}

/// A table needs no migration exactly where it serves the entity as it is.
pub proof fn nothing_to_alter_iff_same_schema(
    actual: Seq<SqlColumnView>,
    expected: Seq<SqlColumnView>,
)
    ensures
        alterations(actual, expected).len() == 0 <==> same_schema(actual, expected),
{
    changes_count(actual, expected, expected.len());
    deletions_count(actual, expected, actual.len());
}

/// Nothing has to change for an expected column exactly where the table
/// holds it as it should be.
pub proof fn no_change_iff_held(actual: Seq<SqlColumnView>, column: SqlColumnView, i: int)
    ensures
        changes_for(actual, column, i).len() == 0 <==> holds_column(actual, column),
{
}

proof fn changes_count(actual: Seq<SqlColumnView>, expected: Seq<SqlColumnView>, n: nat)
    requires
        n <= expected.len(),
    ensures
        changes_upto(actual, expected, n).len() == 0 <==> forall|i: int|
            0 <= i < n ==> holds_column(actual, #[trigger] expected[i]),
    decreases n,
{
    if n > 0 {
        changes_count(actual, expected, (n - 1) as nat);
        no_change_iff_held(actual, expected[n - 1], n - 1);
        let front = changes_upto(actual, expected, (n - 1) as nat);
        let last = changes_for(actual, expected[n - 1], n - 1);
        assert(changes_upto(actual, expected, n) == front + last);
        assert((front + last).len() == front.len() + last.len());
        if last.len() == 0 && front.len() == 0 {
            assert forall|i: int| 0 <= i < n implies holds_column(
                actual,
                #[trigger] expected[i],
            ) by {
                if i == n - 1 {
                } else {
                    assert(0 <= i < n - 1);
                }
            }
        } else if last.len() > 0 {
            assert(!holds_column(actual, expected[n - 1]));
        }
    }
}

proof fn deletions_count(actual: Seq<SqlColumnView>, expected: Seq<SqlColumnView>, n: nat)
    requires
        n <= actual.len(),
    ensures
        deletions_upto(actual, expected, n).len() == 0 <==> forall|j: int|
            0 <= j < n ==> position_of(expected, (#[trigger] actual[j]).name) is Some,
    decreases n,
{
    if n > 0 {
        deletions_count(actual, expected, (n - 1) as nat);
    }
}

/// What the database reports of one column of a table.
#[derive(Debug)]
pub struct TableInfoRow {
    pub name: String,
    pub declared_as: String,
    pub not_null: bool,
    pub primary: bool,
}

/// The column type that a declared type name stands for, in its required
/// form where the column is declared `NOT NULL` and in its nullable form
/// where it is not. There is none for a name that the engine does not
/// declare.
pub open spec fn declared_type(declared_as: Seq<char>, not_null: bool) -> Option<SqlColumnType> {
    if declared_as == "TEXT"@ {
        Some(if not_null { SqlColumnType::Text } else { SqlColumnType::OptionalText })
    } else if declared_as == "INTEGER"@ {
        Some(if not_null { SqlColumnType::Integer } else { SqlColumnType::OptionalInteger })
    } else if declared_as == "REAL"@ {
        Some(if not_null { SqlColumnType::Float } else { SqlColumnType::OptionalFloat })
    } else if declared_as == "BLOB"@ {
        Some(if not_null { SqlColumnType::Blob } else { SqlColumnType::OptionalBlob })
    } else if declared_as == "NULL"@ {
        Some(SqlColumnType::Null)
    } else {
        None
    }
}

/// The column type that a declared type name stands for.
pub fn column_type_of(declared_as: &str, not_null: bool) -> (r: Option<SqlColumnType>)
    ensures
        r == declared_type(declared_as@, not_null),
{
    if same_text(declared_as, "TEXT") {
        Some(if not_null { SqlColumnType::Text } else { SqlColumnType::OptionalText })
    } else if same_text(declared_as, "INTEGER") {
        Some(if not_null { SqlColumnType::Integer } else { SqlColumnType::OptionalInteger })
    } else if same_text(declared_as, "REAL") {
        Some(if not_null { SqlColumnType::Float } else { SqlColumnType::OptionalFloat })
    } else if same_text(declared_as, "BLOB") {
        Some(if not_null { SqlColumnType::Blob } else { SqlColumnType::OptionalBlob })
    } else if same_text(declared_as, "NULL") {
        Some(SqlColumnType::Null)
    } else {
        None
    }
}

/// A table whose columns could not be read: the column at `position` is
/// declared with a type name that the engine does not know.
#[derive(Debug)]
pub struct UnknownColumnType {
    pub position: usize,
    pub declared_as: String,
}

/// The column that one reported row describes; uniqueness is reported
/// apart, so the column is not unique yet.
pub open spec fn reported_column(row: TableInfoRow) -> Option<SqlColumnView> {
    match declared_type(row.declared_as@, row.not_null) {
        Some(sql_type) => Some(
            SqlColumnView {
                name: row.name@,
                sql_type,
                is_primary: row.primary,
                is_unique: false,
            },
        ),
        None => None,
    }
}

/// The names of the reported columns, in order.
pub open spec fn reported_names(info: Seq<TableInfoRow>) -> Seq<Seq<char>> {
    Seq::new(info.len(), |i: int| info[i].name@)
}

/// The columns of a table as the database reports them, in order, with
/// their names interned. The first column whose declared type is unknown
/// fails the table; the names of the columns before it have been interned
/// by then.
pub fn live_columns(string_storage: &mut StaticStringStorage, info: &Vec<TableInfoRow>) -> (r:
    Result<Vec<SqlColumn>, UnknownColumnType>)
    ensures
        r matches Ok(columns) ==> {
            &&& columns.len() == info.len()
            &&& forall|i: int|
                0 <= i < info.len() ==> reported_column(info[i]) == Some((#[trigger] columns[i])@)
        },
        r matches Err(e) ==> {
            &&& e.position < info.len()
            &&& reported_column(info[e.position as int]) is None
            &&& e.declared_as@ == info[e.position as int].declared_as@
            &&& forall|i: int| 0 <= i < e.position ==> (#[trigger] reported_column(info[i])) is Some
        },
        final(string_storage)@ == interned_all(
            old(string_storage)@,
            match r {
                Ok(_) => reported_names(info@),
                Err(e) => reported_names(info@).take(e.position as int),
            },
        ),
{
    let ghost names = reported_names(info@);
    let mut columns: Vec<SqlColumn> = Vec::new();
    let mut i: usize = 0;
    while i < info.len()
        invariant
            i <= info.len(),
            columns.len() == i,
            names == reported_names(info@),
            forall|j: int| 0 <= j < i ==> reported_column(info[j]) == Some((#[trigger] columns[j])@),
            string_storage@ == interned_all(old(string_storage)@, names.take(i as int)),
        decreases info.len() - i,
    {
        let row = &info[i];
        match column_type_of(row.declared_as.as_str(), row.not_null) {
            Some(sql_type) => {
                let name = string_storage.store_heaped(row.name.clone());
                proof {
                    assert(names.take(i + 1).drop_last() =~= names.take(i as int));
                    assert(names.take(i + 1).last() == row.name@);
                }
                columns.push(
                    SqlColumn { name, sql_type, is_primary: row.primary, is_unique: false },
                );
            },
            None => {
                assert forall|k: int| 0 <= k < i implies (#[trigger] reported_column(info[k]))
                    is Some by {
                    assert(reported_column(info[k]) == Some(columns[k]@));
                }
                return Err(UnknownColumnType { position: i, declared_as: row.declared_as.clone() });
            },
        }
        i += 1;
    }
    assert(names.take(info.len() as int) =~= names);
    Ok(columns)
}

/// Marks the column at position `cid` unique. A position that the table
/// does not have changes nothing, and `false` is returned.
pub fn mark_unique(columns: &mut Vec<SqlColumn>, cid: usize) -> (r: bool)
    ensures
        r == (cid < old(columns).len()),
        r ==> final(columns)@ == old(columns)@.update(
            cid as int,
            SqlColumn {
                name: old(columns)[cid as int].name,
                sql_type: old(columns)[cid as int].sql_type,
                is_primary: old(columns)[cid as int].is_primary,
                is_unique: true,
            },
        ),
        !r ==> final(columns)@ == old(columns)@,
{
    if cid < columns.len() {
        let column = columns[cid];
        columns.set(
            cid,
            SqlColumn {
                name: column.name,
                sql_type: column.sql_type,
                is_primary: column.is_primary,
                is_unique: true,
            },
        );
        true
    } else {
        false
    }
}

/// The columns with every column unique whose position is among `cids`.
pub open spec fn with_unique(columns: Seq<SqlColumnView>, cids: Seq<usize>) -> Seq<SqlColumnView> {
    Seq::new(
        columns.len(),
        |i: int|
            SqlColumnView {
                name: columns[i].name,
                sql_type: columns[i].sql_type,
                is_primary: columns[i].is_primary,
                is_unique: columns[i].is_unique || exists|k: int|
                    0 <= k < cids.len() && cids[k] == i,
            },
    )
}

/// Marks every column unique whose position is among `cids`; a position
/// that the table does not have is passed over.
pub fn mark_all_unique(columns: &mut Vec<SqlColumn>, cids: &Vec<usize>)
    ensures
        final(columns).deep_view() == with_unique(old(columns).deep_view(), cids@),
{
    let ghost start = columns.deep_view();
    assert(columns.deep_view() =~= with_unique(start, cids@.take(0)));
    let mut k: usize = 0;
    while k < cids.len()
        invariant
            k <= cids.len(),
            columns.deep_view() == with_unique(start, cids@.take(k as int)),
        decreases cids.len() - k,
    {
        let ghost before = columns.deep_view();
        let ghost plain = columns@;
        assert(plain.len() == before.len() == start.len());
        let marked = mark_unique(columns, cids[k]);
        assert(columns@.len() == plain.len());
        assert(columns.deep_view() =~= with_unique(start, cids@.take(k + 1))) by {
            let next = cids@.take(k + 1);
            assert(next[k as int] == cids[k as int]);
            assert forall|i: int| 0 <= i < start.len() implies columns.deep_view()[i]
                == with_unique(start, next)[i] by {
                assert(before[i] == plain[i]@);
                assert(columns.deep_view()[i] == columns@[i]@);
                if cids[k as int] == i {
                    assert(next[k as int] == i);
                } else {
                    if exists|j: int| 0 <= j < next.len() && next[j] == i {
                        let j = choose|j: int| 0 <= j < next.len() && next[j] == i;
                        assert(cids@.take(k as int)[j] == i);
                    }
                    if exists|j: int| 0 <= j < k && cids@.take(k as int)[j] == i {
                        let j = choose|j: int| 0 <= j < k && cids@.take(k as int)[j] == i;
                        assert(next[j] == i);
                    }
                }
            }
        }
        k += 1;
    }
    assert(cids@.take(cids.len() as int) =~= cids@);
}

/// Whether every reported column is declared with a type that the engine
/// knows.
pub open spec fn all_known(info: Seq<TableInfoRow>) -> bool {
    forall|i: int| 0 <= i < info.len() ==> (#[trigger] reported_column(info[i])) is Some
}

/// The columns that the reported rows describe, in order.
pub open spec fn reported_columns(info: Seq<TableInfoRow>) -> Seq<SqlColumnView> {
    Seq::new(info.len(), |i: int| reported_column(info[i])->Some_0)
}

/// The columns that a table has, from what the database reports of it: the
/// reported columns, each unique where a unique index covers it.
pub open spec fn live_schema(info: Seq<TableInfoRow>, unique: Seq<usize>) -> Seq<SqlColumnView> {
    with_unique(reported_columns(info), unique)
}

/// Judges a table by what the database reports of it: its columns, and the
/// positions of the columns that its unique indices cover. Where the table
/// has to be migrated before it can serve the entity, the columns that it
/// has are handed back; where it serves as it is, nothing is. A column
/// declared with an unknown type fails the table.
pub fn judge_table(
    string_storage: &mut StaticStringStorage,
    info: &Vec<TableInfoRow>,
    unique: &Vec<usize>,
    expected: &[SqlColumn],
) -> (r: Result<Option<Vec<SqlColumn>>, UnknownColumnType>)
    ensures
        r is Err <==> !all_known(info@),
        r matches Err(e) ==> {
            &&& e.position < info.len()
            &&& reported_column(info[e.position as int]) is None
            &&& e.declared_as@ == info[e.position as int].declared_as@
            &&& forall|i: int| 0 <= i < e.position ==> (#[trigger] reported_column(info[i])) is Some
        },
        r matches Ok(None) ==> same_schema(live_schema(info@, unique@), expected.deep_view()),
        r matches Ok(Some(live)) ==> live.deep_view() == live_schema(info@, unique@) && !same_schema(
            live.deep_view(),
            expected.deep_view(),
        ),
        final(string_storage)@ == interned_all(
            old(string_storage)@,
            match r {
                Ok(_) => reported_names(info@),
                Err(e) => reported_names(info@).take(e.position as int),
            },
        ),
{
    let mut columns = match live_columns(string_storage, info) {
        Ok(columns) => columns,
        Err(e) => {
            return Err(e);
        },
    };
    assert(all_known(info@)) by {
        assert forall|i: int| 0 <= i < info.len() implies (#[trigger] reported_column(info[i]))
            is Some by {
            assert(reported_column(info[i]) == Some(columns[i]@));
        }
    }
    assert(columns.deep_view() =~= reported_columns(info@)) by {
        assert forall|i: int| 0 <= i < info.len() implies columns.deep_view()[i]
            == reported_columns(info@)[i] by {
            assert(reported_column(info[i]) == Some(columns[i]@));
        }
    }
    mark_all_unique(&mut columns, unique);
    if compare_columns(columns.as_slice(), expected) {
        Ok(Some(columns))
    } else {
        Ok(None)
    }
}

/// The names of the indices that are unique, in the order of the listing:
/// only these say which columns are unique.
pub open spec fn unique_names(indices: Seq<(Seq<char>, bool)>) -> Seq<Seq<char>>
    decreases indices.len(),
{
    if indices.len() == 0 {
        Seq::empty()
    } else if indices.last().1 {
        unique_names(indices.drop_last()).push(indices.last().0)
    } else {
        unique_names(indices.drop_last())
    }
}

/// The names of the indices that an index listing reports as unique.
pub fn unique_index_names(indices: &Vec<(String, bool)>) -> (r: Vec<String>)
    ensures
        r.deep_view() == unique_names(indices.deep_view()),
{
    let ghost all = indices.deep_view();
    let mut names: Vec<String> = Vec::new();
    assert(names.deep_view() =~= unique_names(all.take(0)));
    let mut i: usize = 0;
    while i < indices.len()
        invariant
            i <= indices.len(),
            all == indices.deep_view(),
            names.deep_view() == unique_names(all.take(i as int)),
        decreases indices.len() - i,
    {
        proof {
            assert(all.take(i + 1).drop_last() =~= all.take(i as int));
            assert(all.take(i + 1).last() == indices[i as int].deep_view());
        }
        if indices[i].1 {
            let ghost before = names.deep_view();
            let name = indices[i].0.clone();
            names.push(name);
            assert(names.deep_view() =~= before.push(name@));
        }
        i += 1;
    }
    assert(all.take(indices.len() as int) =~= all);
    names
}

} // verus!
