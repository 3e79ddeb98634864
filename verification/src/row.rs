//! Rows: how an entity's values stand in the columns of a table, and how
//! they are read back by column name.

use crate::column::{
    find_by_name, names_distinct, position_of, position_of_is_first, SqlColumn, SqlColumnView,
};
use crate::filter::{EntryView, GenericFilter, SqlColumnFilter};
use crate::partial::PartialValue;
use crate::value::{SqlValue, SqlValueView};
use vstd::prelude::*;

verus! {

/// Why a row could not be read as the entity.
#[derive(Debug, Clone, Copy, PartialEq, Eq, Structural)]
pub enum DecodeFailure {
    /// The row has no column of that name.
    Missing,
    /// The column holds a value that its type does not admit.
    Mismatch,
}

/// A row that could not be read, with the column that failed.
#[derive(Debug, Clone, Copy)]
pub struct RowDecodeError {
    pub column: &'static str,
    pub failure: DecodeFailure,
}

/// Whether the values can stand in the columns: one value per column, each
/// admitted by its column's type.
pub open spec fn fits(columns: Seq<SqlColumnView>, values: Seq<SqlValueView>) -> bool {
    &&& values.len() == columns.len()
    &&& forall|i: int| 0 <= i < columns.len() ==> columns[i].sql_type.admits(values[i])
}

/// The value that a row holds under `name`: the row's values stand in the
/// order of the `live` columns.
pub open spec fn value_under(
    live: Seq<SqlColumnView>,
    values: Seq<SqlValueView>,
    name: Seq<char>,
) -> Option<SqlValueView> {
    match position_of(live, name) {
        Some(i) => if i < values.len() {
            Some(values[i])
        } else {
            None
        },
        None => None,
    }
}

/// The first `n` columns of the entity read from a row: the values found
/// under the columns' names, or the first column that fails and why.
pub open spec fn decoded_upto(
    columns: Seq<SqlColumnView>,
    live: Seq<SqlColumnView>,
    values: Seq<SqlValueView>,
    n: nat,
) -> Result<Seq<SqlValueView>, (int, DecodeFailure)>
    decreases n,
{
    if n == 0 || n > columns.len() {
        Ok(Seq::empty())
    } else {
        match decoded_upto(columns, live, values, (n - 1) as nat) {
            Err(e) => Err(e),
            Ok(front) => match value_under(live, values, columns[n - 1].name) {
                None => Err((n - 1, DecodeFailure::Missing)),
                Some(v) => if columns[n - 1].sql_type.admits(v) {
                    Ok(front.push(v))
                } else {
                    Err((n - 1, DecodeFailure::Mismatch))
                },
            },
        }
    }
}

/// The entity read from a row by column name.
pub open spec fn decoded(
    columns: Seq<SqlColumnView>,
    live: Seq<SqlColumnView>,
    values: Seq<SqlValueView>,
) -> Result<Seq<SqlValueView>, (int, DecodeFailure)> {
    decoded_upto(columns, live, values, columns.len())
}

/// Whether the values can stand in the columns.
pub fn row_fits(columns: &[SqlColumn], values: &Vec<SqlValue>) -> (r: bool)
    ensures
        r == fits(columns.deep_view(), values.deep_view()),
{
    if values.len() != columns.len() {
        return false;
    }
    let mut i: usize = 0;
    while i < columns.len()
        invariant
            i <= columns.len(),
            values.len() == columns.len(),
            forall|j: int|
                0 <= j < i ==> columns.deep_view()[j].sql_type.admits(values.deep_view()[j]),
        decreases columns.len() - i,
    {
        assert(columns.deep_view()[i as int] == columns[i as int]@);
        assert(values.deep_view()[i as int] == values[i as int]@);
        if !columns[i].sql_type.accepts(&values[i]) {
            return false;
        }
        i += 1;
    }
    true
}

/// Reads the entity with the given columns from a row whose values stand in
/// the order of the `live` columns. Each column is looked up by name; a
/// column that the row lacks, or whose value its type does not admit, fails
/// the row and is named in the error.
pub fn decode_row(columns: &[SqlColumn], live: &[SqlColumn], values: &Vec<SqlValue>) -> (r: Result<
    Vec<SqlValue>,
    RowDecodeError,
>)
    ensures
        match decoded(columns.deep_view(), live.deep_view(), values.deep_view()) {
            Ok(row) => r matches Ok(v) && v.deep_view() == row,
            Err((k, failure)) => r matches Err(e) && 0 <= k < columns.len() && e.column@
                == columns[k].name@ && e.failure == failure,
        },
{
    let ghost cols = columns.deep_view();
    let ghost lives = live.deep_view();
    let ghost vals = values.deep_view();
    let mut row: Vec<SqlValue> = Vec::new();
    assert(row.deep_view() =~= Seq::<SqlValueView>::empty());
    let mut i: usize = 0;
    while i < columns.len()
        invariant
            i <= columns.len(),
            cols == columns.deep_view(),
            lives == live.deep_view(),
            vals == values.deep_view(),
            decoded_upto(cols, lives, vals, i as nat) == Ok::<
                Seq<SqlValueView>,
                (int, DecodeFailure),
            >(row.deep_view()),
        decreases columns.len() - i,
    {
        let ghost before = row.deep_view();
        assert(cols[i as int] == columns[i as int]@);
        let failure = match find_by_name(live, columns[i].name) {
            Some(at) => {
                if at < values.len() {
                    assert(vals[at as int] == values[at as int]@);
                    if columns[i].sql_type.accepts(&values[at]) {
                        let item = values[at].clone();
                        row.push(item);
                        assert(row.deep_view() =~= before.push(item@));
                        None
                    } else {
                        Some(DecodeFailure::Mismatch)
                    }
                } else {
                    Some(DecodeFailure::Missing)
                }
            },
            None => Some(DecodeFailure::Missing),
        };
        match failure {
            Some(failure) => {
                proof {
                    decode_failure_is_final(cols, lives, vals, (i + 1) as nat);
                }
                return Err(RowDecodeError { column: columns[i].name, failure });
            },
            None => {},
        }
        i += 1;
    }
    Ok(row)
}

/// Once a column has failed, the row has failed with that column.
pub proof fn decode_failure_is_final(
    columns: Seq<SqlColumnView>,
    live: Seq<SqlColumnView>,
    values: Seq<SqlValueView>,
    n: nat,
)
    requires
        n <= columns.len(),
        decoded_upto(columns, live, values, n) is Err,
    ensures
        decoded(columns, live, values) == decoded_upto(columns, live, values, n),
    decreases columns.len() - n,
{
    if n < columns.len() {
        assert(decoded_upto(columns, live, values, n + 1) == decoded_upto(
            columns,
            live,
            values,
            n,
        ));
        decode_failure_is_final(columns, live, values, n + 1);
    }
}

/// The round trip of an entity without vector fields: values that fit the
/// columns, written under the columns' names and read back by name, are the
/// values that were written. It rests on the names being distinct.
pub proof fn decode_after_encode(columns: Seq<SqlColumnView>, values: Seq<SqlValueView>)
    requires
        names_distinct(columns),
        fits(columns, values),
    ensures
        decoded(columns, columns, values) == Ok::<Seq<SqlValueView>, (int, DecodeFailure)>(
            values,
        ),
{
    round_trip_upto(columns, values, columns.len());
    assert(values.take(columns.len() as int) =~= values);
}

proof fn round_trip_upto(columns: Seq<SqlColumnView>, values: Seq<SqlValueView>, n: nat)
    requires
        names_distinct(columns),
        fits(columns, values),
        n <= columns.len(),
    ensures
        decoded_upto(columns, columns, values, n) == Ok::<
            Seq<SqlValueView>,
            (int, DecodeFailure),
        >(values.take(n as int)),
    decreases n,
{
    if n == 0 {
        assert(values.take(0) =~= Seq::<SqlValueView>::empty());
    } else {
        round_trip_upto(columns, values, (n - 1) as nat);
        position_of_is_first(columns, columns[n - 1].name);
        assert(position_of(columns, columns[n - 1].name) == Some(n - 1));
        assert(values.take(n - 1).push(values[n - 1]) =~= values.take(n as int));
    }
}

/// The leaf that a row gives for a column when it is read permissively: the
/// value under the column's name where the column's type admits it and it is
/// not the null value; unset where the row lacks the column or holds
/// something else in it.
pub open spec fn leaf_under(
    column: SqlColumnView,
    live: Seq<SqlColumnView>,
    values: Seq<SqlValueView>,
) -> Option<SqlValueView> {
    match value_under(live, values, column.name) {
        Some(v) => if column.sql_type.admits(v) && !(v is Null) {
            Some(v)
        } else {
            None
        },
        None => None,
    }
}

/// Whether a column's leaf is required: the column is the primary key, or
/// its type is not nullable.
pub open spec fn leaf_required(column: SqlColumnView) -> bool {
    column.is_primary || column.sql_type.required()
}

/// Whether `p` is the partial value of the columns with the given leaves:
/// one leaf per column, under the column's name.
pub open spec fn is_partial_of(
    p: PartialValue,
    columns: Seq<SqlColumnView>,
    leaves: Seq<Option<SqlValueView>>,
) -> bool {
    &&& leaves.len() == columns.len()
    &&& p matches PartialValue::Fields(fields)
    &&& fields.len() == columns.len()
    &&& forall|i: int|
        0 <= i < columns.len() ==> {
            &&& (#[trigger] fields[i]).0@ == columns[i].name
            &&& fields[i].1 matches PartialValue::Leaf { value, required }
            &&& value.deep_view() == leaves[i]
            &&& required == leaf_required(columns[i])
        }
}

/// The leaves that a row gives for the columns when it is read
/// permissively.
pub open spec fn leaves_under(
    columns: Seq<SqlColumnView>,
    live: Seq<SqlColumnView>,
    values: Seq<SqlValueView>,
) -> Seq<Option<SqlValueView>> {
    columns.map_values(|c: SqlColumnView| leaf_under(c, live, values))
}

/// Reads the partial value of the entity from a row whose values stand in
/// the order of the `live` columns. Nothing fails: a column that the row
/// lacks, or whose value does not fit, leaves its leaf unset.
pub fn decode_partial(columns: &[SqlColumn], live: &[SqlColumn], values: &Vec<SqlValue>) -> (r:
    PartialValue)
    ensures
        is_partial_of(
            r,
            columns.deep_view(),
            leaves_under(columns.deep_view(), live.deep_view(), values.deep_view()),
        ),
{
    let ghost cols = columns.deep_view();
    let ghost leaves = leaves_under(cols, live.deep_view(), values.deep_view());
    let mut fields: Vec<(&'static str, PartialValue)> = Vec::new();
    let mut i: usize = 0;
    while i < columns.len()
        invariant
            i <= columns.len(),
            cols == columns.deep_view(),
            leaves == leaves_under(cols, live.deep_view(), values.deep_view()),
            fields.len() == i,
            forall|j: int|
                0 <= j < i ==> {
                    &&& (#[trigger] fields[j]).0@ == cols[j].name
                    &&& fields[j].1 matches PartialValue::Leaf { value, required }
                    &&& value.deep_view() == leaves[j]
                    &&& required == leaf_required(cols[j])
                },
        decreases columns.len() - i,
    {
        assert(cols[i as int] == columns[i as int]@);
        let value = match find_by_name(live, columns[i].name) {
            Some(at) => {
                if at < values.len() {
                    assert(values.deep_view()[at as int] == values[at as int]@);
                    let is_null = match &values[at] {
                        SqlValue::Null => true,
                        _ => false,
                    };
                    if columns[i].sql_type.accepts(&values[at]) && !is_null {
                        Some(values[at].clone())
                    } else {
                        None
                    }
                } else {
                    None
                }
            },
            None => None,
        };
        let required = columns[i].is_primary || columns[i].sql_type.is_required();
        fields.push((columns[i].name, PartialValue::Leaf { value, required }));
        i += 1;
    }
    PartialValue::Fields(fields)
}

/// Reads the leaves of the entity from a row whose values stand in the order
/// of the `live` columns, one leaf per column: the partial value of a
/// stored row. Nothing fails: a column that the row lacks, or whose value
/// does not fit, leaves its leaf unset.
pub fn decode_leaves(columns: &[SqlColumn], live: &[SqlColumn], values: &Vec<SqlValue>) -> (r: Vec<
    Option<SqlValue>,
>)
    ensures
        r.deep_view() == leaves_under(columns.deep_view(), live.deep_view(), values.deep_view()),
{
    let ghost cols = columns.deep_view();
    let ghost leaves = leaves_under(cols, live.deep_view(), values.deep_view());
    let mut out: Vec<Option<SqlValue>> = Vec::new();
    let mut i: usize = 0;
    while i < columns.len()
        invariant
            i <= columns.len(),
            cols == columns.deep_view(),
            leaves == leaves_under(cols, live.deep_view(), values.deep_view()),
            out.deep_view() == leaves.take(i as int),
        decreases columns.len() - i,
    {
        let ghost before = out.deep_view();
        assert(cols[i as int] == columns[i as int]@);
        let value = match find_by_name(live, columns[i].name) {
            Some(at) => {
                if at < values.len() {
                    assert(values.deep_view()[at as int] == values[at as int]@);
                    let is_null = match &values[at] {
                        SqlValue::Null => true,
                        _ => false,
                    };
                    if columns[i].sql_type.accepts(&values[at]) && !is_null {
                        Some(values[at].clone())
                    } else {
                        None
                    }
                } else {
                    None
                }
            },
            None => None,
        };
        out.push(value);
        assert(out.deep_view() =~= before.push(value.deep_view()));
        assert(out.deep_view() =~= leaves.take(i + 1));
        i += 1;
    }
    assert(leaves.take(columns.len() as int) =~= leaves);
    out
}

/// What the partial value of the columns completes into: the leaves in
/// order, an unset leaf as the null value; nothing where a required leaf is
/// unset.
pub open spec fn completed_leaves(
    columns: Seq<SqlColumnView>,
    leaves: Seq<Option<SqlValueView>>,
) -> Option<Seq<SqlValueView>> {
    if exists|i: int| 0 <= i < columns.len() && leaf_required(columns[i]) && leaves[i] is None {
        None
    } else {
        Some(
            Seq::new(
                columns.len(),
                |i: int|
                    match leaves[i] {
                        Some(v) => v,
                        None => SqlValueView::Null,
                    },
            ),
        )
    }
}

/// The partial value of the columns completes as [`completed_leaves`] says.
pub proof fn partial_of_columns_completes(
    p: PartialValue,
    columns: Seq<SqlColumnView>,
    leaves: Seq<Option<SqlValueView>>,
)
    requires
        is_partial_of(p, columns, leaves),
    ensures
        p.completed() == completed_leaves(columns, leaves),
{
    completes_upto(p, columns, leaves, columns.len());
    match completed_leaves(columns, leaves) {
        Some(all) => {
            assert(completed_leaves(columns.take(columns.len() as int), leaves.take(columns.len() as int))
                == Some(all)) by {
                assert(columns.take(columns.len() as int) =~= columns);
                assert(leaves.take(columns.len() as int) =~= leaves);
            }
        },
        None => {
            assert(columns.take(columns.len() as int) =~= columns);
            assert(leaves.take(columns.len() as int) =~= leaves);
        },
    }
}

proof fn completes_upto(
    p: PartialValue,
    columns: Seq<SqlColumnView>,
    leaves: Seq<Option<SqlValueView>>,
    n: nat,
)
    requires
        is_partial_of(p, columns, leaves),
        n <= columns.len(),
    ensures
        p.completed_upto(n) == completed_leaves(columns.take(n as int), leaves.take(n as int)),
    decreases n,
{
    let fields = p->Fields_0;
    let cols = columns.take(n as int);
    let some = leaves.take(n as int);
    if n == 0 {
        assert(completed_leaves(cols, some)->Some_0 =~= Seq::<SqlValueView>::empty());
    } else {
        completes_upto(p, columns, leaves, (n - 1) as nat);
        let front_cols = columns.take(n - 1);
        let front = leaves.take(n - 1);
        let last = fields[n - 1];
        assert(last.1.completed_upto(last.1.width()) == if leaf_required(columns[n - 1])
            && leaves[n - 1] is None {
            None::<Seq<SqlValueView>>
        } else {
            Some(
                seq![
                    match leaves[n - 1] {
                        Some(v) => v,
                        None => SqlValueView::Null,
                    },
                ],
            )
        });
        if exists|i: int| 0 <= i < front_cols.len() && leaf_required(front_cols[i]) && front[i] is None {
            let i = choose|i: int|
                0 <= i < front_cols.len() && leaf_required(front_cols[i]) && front[i] is None;
            assert(leaf_required(cols[i]) && some[i] is None);
        } else if leaf_required(columns[n - 1]) && leaves[n - 1] is None {
            assert(leaf_required(cols[n - 1]) && some[n - 1] is None);
        } else {
            assert forall|i: int| 0 <= i < cols.len() implies !(leaf_required(cols[i]) && some[i] is None) by {
                if i < n - 1 {
                    assert(cols[i] == front_cols[i] && some[i] == front[i]);
                }
            }
            assert(completed_leaves(cols, some)->Some_0 =~= completed_leaves(
                front_cols,
                front,
            )->Some_0 + last.1.completed_upto(last.1.width())->Some_0);
        }
    }
}

/// The filter that asks for exactly this entity: where there is a primary
/// key, the key's column must equal the key; else every column that holds a
/// value must equal it, and the columns that hold the null value are left
/// open.
pub open spec fn equal_to(columns: Seq<SqlColumnView>, values: Seq<SqlValueView>) -> Seq<
    EntryView,
> {
    match primary_of(columns) {
        Some(k) => seq![(columns[k].name, SqlColumnFilter::MustBeEqual(values[k]))],
        None => bound_upto(columns, values, columns.len(), false),
    }
}

/// The filter that asks every column that holds a value to contain it.
pub open spec fn containing(columns: Seq<SqlColumnView>, values: Seq<SqlValueView>) -> Seq<
    EntryView,
> {
    bound_upto(columns, values, columns.len(), true)
}

/// The entries for the first `n` columns: one per column that holds a
/// value, asking for containment or for equality.
pub open spec fn bound_upto(
    columns: Seq<SqlColumnView>,
    values: Seq<SqlValueView>,
    n: nat,
    contain: bool,
) -> Seq<EntryView>
    decreases n,
{
    if n == 0 || n > columns.len() {
        Seq::empty()
    } else {
        let front = bound_upto(columns, values, (n - 1) as nat, contain);
        if values[n - 1] is Null {
            front
        } else if contain {
            front.push((columns[n - 1].name, SqlColumnFilter::Contains(values[n - 1])))
        } else {
            front.push((columns[n - 1].name, SqlColumnFilter::MustBeEqual(values[n - 1])))
        }
    }
}

/// The position of the first primary key column, if there is one.
pub open spec fn primary_of(columns: Seq<SqlColumnView>) -> Option<int>
    decreases columns.len(),
{
    if columns.len() == 0 {
        None
    } else {
        match primary_of(columns.drop_last()) {
            Some(i) => Some(i),
            None => if columns.last().is_primary {
                Some(columns.len() - 1)
            } else {
                None
            },
        }
    }
}

/// The primary key column is a column, and it is a primary key.
pub proof fn primary_is_primary(columns: Seq<SqlColumnView>)
    ensures
        match primary_of(columns) {
            Some(k) => 0 <= k < columns.len() && columns[k].is_primary,
            None => forall|i: int| 0 <= i < columns.len() ==> !columns[i].is_primary,
        },
    decreases columns.len(),
{
    if columns.len() > 0 {
        let front = columns.drop_last();
        primary_is_primary(front);
        assert(forall|i: int| 0 <= i < front.len() ==> front[i] == columns[i]);
    }
}

/// The position of the first primary key column, if there is one.
pub fn find_primary(columns: &[SqlColumn]) -> (r: Option<usize>)
    ensures
        r is Some <==> primary_of(columns.deep_view()) is Some,
        r matches Some(k) ==> primary_of(columns.deep_view()) == Some(k as int) && k
            < columns.len(),
{
    let ghost all = columns.deep_view();
    let mut i: usize = 0;
    while i < columns.len()
        invariant
            i <= columns.len(),
            all == columns.deep_view(),
            primary_of(all.take(i as int)) is None,
        decreases columns.len() - i,
    {
        proof {
            assert(all.take(i + 1).drop_last() =~= all.take(i as int));
            assert(all.take(i + 1).last() == columns[i as int]@);
        }
        if columns[i].is_primary {
            proof {
                primary_found_stays(all.take(i + 1), all);
            }
            return Some(i);
        }
        i += 1;
    }
    assert(all.take(columns.len() as int) =~= all);
    None
}

/// A primary key found among the first columns is the primary key of all of
/// them.
pub proof fn primary_found_stays(front: Seq<SqlColumnView>, columns: Seq<SqlColumnView>)
    requires
        front.is_prefix_of(columns),
        primary_of(front) is Some,
    ensures
        primary_of(columns) == primary_of(front),
    decreases columns.len(),
{
    if columns.len() > front.len() {
        assert(front.is_prefix_of(columns.drop_last()));
        primary_found_stays(front, columns.drop_last());
    } else {
        assert(front =~= columns);
    }
}

fn bind_columns(columns: &[SqlColumn], values: &Vec<SqlValue>, contain: bool) -> (r: GenericFilter)
    requires
        values.len() == columns.len(),
    ensures
        r@ == bound_upto(columns.deep_view(), values.deep_view(), columns.len() as nat, contain),
{
    let ghost cols = columns.deep_view();
    let ghost vals = values.deep_view();
    let mut entries: Vec<(&'static str, SqlColumnFilter<SqlValue>)> = Vec::new();
    assert(entries.deep_view() =~= Seq::<EntryView>::empty());
    let mut i: usize = 0;
    while i < columns.len()
        invariant
            i <= columns.len(),
            values.len() == columns.len(),
            cols == columns.deep_view(),
            vals == values.deep_view(),
            entries.deep_view() == bound_upto(cols, vals, i as nat, contain),
        decreases columns.len() - i,
    {
        let ghost before = entries.deep_view();
        assert(cols[i as int] == columns[i as int]@);
        assert(vals[i as int] == values[i as int]@);
        let is_null = match &values[i] {
            SqlValue::Null => true,
            _ => false,
        };
        if !is_null {
            let item = values[i].clone();
            let entry = if contain {
                (columns[i].name, SqlColumnFilter::Contains(item))
            } else {
                (columns[i].name, SqlColumnFilter::MustBeEqual(item))
            };
            entries.push(entry);
            assert(entries.deep_view() =~= before.push(entry.deep_view()));
        }
        i += 1;
    }
    GenericFilter { columns: entries }
}

/// The filter that asks for exactly this entity.
pub fn must_be_equal(columns: &[SqlColumn], values: &Vec<SqlValue>) -> (r: GenericFilter)
    requires
        values.len() == columns.len(),
    ensures
        r@ == equal_to(columns.deep_view(), values.deep_view()),
{
    match find_primary(columns) {
        Some(k) => {
            let item = values[k].clone();
            assert(columns.deep_view()[k as int] == columns[k as int]@);
            assert(values.deep_view()[k as int] == values[k as int]@);
            let mut entries: Vec<(&'static str, SqlColumnFilter<SqlValue>)> = Vec::new();
            let entry = (columns[k].name, SqlColumnFilter::MustBeEqual(item));
            entries.push(entry);
            assert(entries.deep_view() =~= seq![entry.deep_view()]);
            GenericFilter { columns: entries }
        },
        None => bind_columns(columns, values, false),
    }
}

/// The filter that asks every column that holds a value to contain it.
pub fn must_contain(columns: &[SqlColumn], values: &Vec<SqlValue>) -> (r: GenericFilter)
    requires
        values.len() == columns.len(),
    ensures
        r@ == containing(columns.deep_view(), values.deep_view()),
{
    bind_columns(columns, values, true)
}

/// Whether a row meets the equalities of a filter: under every column that
/// the filter asks to equal a value, the row holds that value. What a filter
/// asks by containment is the database's to judge.
pub open spec fn meets_equalities(
    filter: Seq<EntryView>,
    columns: Seq<SqlColumnView>,
    values: Seq<SqlValueView>,
) -> bool {
    forall|i: int|
        0 <= i < filter.len() ==> ((#[trigger] filter[i]).1 matches SqlColumnFilter::MustBeEqual(
            v,
        ) ==> value_under(columns, values, filter[i].0) == Some(v))
}

/// Whether an entry asks a column to equal a value that is not the null
/// value.
pub open spec fn asks_for_a_value(entry: EntryView) -> bool {
    entry.1 matches SqlColumnFilter::MustBeEqual(v) && !(v is Null)
}

/// An entity meets the filter that asks for it, and that filter asks by
/// equality only and never for the null value, which equals nothing. An
/// open filter is met by every row.
pub proof fn entity_meets_its_own_filter(columns: Seq<SqlColumnView>, values: Seq<SqlValueView>)
    requires
        names_distinct(columns),
        values.len() == columns.len(),
    ensures
        meets_equalities(equal_to(columns, values), columns, values),
        primary_of(columns) is None ==> forall|i: int|
            0 <= i < equal_to(columns, values).len() ==> asks_for_a_value(
                #[trigger] equal_to(columns, values)[i],
            ),
        meets_equalities(Seq::empty(), columns, values),
{
    match primary_of(columns) {
        Some(k) => {
            primary_is_primary(columns);
            position_of_is_first(columns, columns[k].name);
            assert(position_of(columns, columns[k].name) == Some(k));
        },
        None => {
            bound_entries_hold(columns, values, columns.len());
        },
    }
}

proof fn bound_entries_hold(columns: Seq<SqlColumnView>, values: Seq<SqlValueView>, n: nat)
    requires
        names_distinct(columns),
        values.len() == columns.len(),
        n <= columns.len(),
    ensures
        meets_equalities(bound_upto(columns, values, n, false), columns, values),
        forall|i: int|
            0 <= i < bound_upto(columns, values, n, false).len() ==> asks_for_a_value(
                #[trigger] bound_upto(columns, values, n, false)[i],
            ),
    decreases n,
{
    if n > 0 {
        bound_entries_hold(columns, values, (n - 1) as nat);
        let front = bound_upto(columns, values, (n - 1) as nat, false);
        let all = bound_upto(columns, values, n, false);
        if !(values[n - 1] is Null) {
            position_of_is_first(columns, columns[n - 1].name);
            assert(position_of(columns, columns[n - 1].name) == Some(n - 1));
            assert forall|i: int| 0 <= i < all.len() implies ((#[trigger] all[i]).1 matches SqlColumnFilter::MustBeEqual(
                v,
            ) ==> value_under(columns, values, all[i].0) == Some(v)) by {
                if i < front.len() {
                    assert(all[i] == front[i]);
                }
            }
            assert forall|i: int| 0 <= i < all.len() implies asks_for_a_value(
                #[trigger] all[i],
            ) by {
                if i < front.len() {
                    assert(all[i] == front[i]);
                }
            }
        }
    }
}

/// A query result that could not be read: the table that was read, the row
/// that failed, counted from zero, and the column that failed in it.
#[derive(Debug, Clone, Copy)]
pub struct ResultDecodeError {
    pub table: &'static str,
    pub row: usize,
    pub column: &'static str,
    pub failure: DecodeFailure,
}

/// The first `n` rows of a query result read as entities: the entities in
/// order, or the first row that fails, with its column and the reason.
pub open spec fn decoded_rows_upto(
    columns: Seq<SqlColumnView>,
    live: Seq<SqlColumnView>,
    rows: Seq<Seq<SqlValueView>>,
    n: nat,
) -> Result<Seq<Seq<SqlValueView>>, (int, int, DecodeFailure)>
    decreases n,
{
    if n == 0 || n > rows.len() {
        Ok(Seq::empty())
    } else {
        match decoded_rows_upto(columns, live, rows, (n - 1) as nat) {
            Err(e) => Err(e),
            Ok(front) => match decoded(columns, live, rows[n - 1]) {
                Ok(entity) => Ok(front.push(entity)),
                Err((column, failure)) => Err((n - 1, column, failure)),
            },
        }
    }
}

/// Reads every row of a query result on `table` as an entity, each by
/// column name from values that stand in the order of the `live` columns.
/// The first row that cannot be read fails the result, and is named in the
/// error with the table and its column.
pub fn decode_rows(
    table: &'static str,
    columns: &[SqlColumn],
    live: &[SqlColumn],
    rows: &Vec<Vec<SqlValue>>,
) -> (r: Result<Vec<Vec<SqlValue>>, ResultDecodeError>)
    ensures
        match decoded_rows_upto(
            columns.deep_view(),
            live.deep_view(),
            rows.deep_view(),
            rows.len() as nat,
        ) {
            Ok(entities) => r matches Ok(read) && read.deep_view() == entities,
            Err((row, column, failure)) => r matches Err(e) && e.table == table && e.row == row
                && 0 <= column < columns.len() && e.column@ == columns[column].name@ && e.failure
                == failure,
        },
{
    let ghost cols = columns.deep_view();
    let ghost lives = live.deep_view();
    let ghost all = rows.deep_view();
    let mut entities: Vec<Vec<SqlValue>> = Vec::new();
    assert(entities.deep_view() =~= Seq::<Seq<SqlValueView>>::empty());
    let mut i: usize = 0;
    while i < rows.len()
        invariant
            i <= rows.len(),
            cols == columns.deep_view(),
            lives == live.deep_view(),
            all == rows.deep_view(),
            decoded_rows_upto(cols, lives, all, i as nat) == Ok::<
                Seq<Seq<SqlValueView>>,
                (int, int, DecodeFailure),
            >(entities.deep_view()),
        decreases rows.len() - i,
    {
        let ghost before = entities.deep_view();
        assert(all[i as int] == rows[i as int].deep_view());
        match decode_row(columns, live, &rows[i]) {
            Ok(entity) => {
                entities.push(entity);
                assert(entities.deep_view() =~= before.push(entity.deep_view()));
            },
            Err(e) => {
                proof {
                    result_failure_is_final(cols, lives, all, (i + 1) as nat);
                }
                return Err(
                    ResultDecodeError { table, row: i, column: e.column, failure: e.failure },
                );
            },
        }
        i += 1;
    }
    Ok(entities)
}

/// Once a row has failed, the result has failed with that row.
pub proof fn result_failure_is_final(
    columns: Seq<SqlColumnView>,
    live: Seq<SqlColumnView>,
    rows: Seq<Seq<SqlValueView>>,
    n: nat,
)
    requires
        n <= rows.len(),
        decoded_rows_upto(columns, live, rows, n) is Err,
    ensures
        decoded_rows_upto(columns, live, rows, rows.len()) == decoded_rows_upto(
            columns,
            live,
            rows,
            n,
        ),
    decreases rows.len() - n,
{
    if n < rows.len() {
        assert(decoded_rows_upto(columns, live, rows, n + 1) == decoded_rows_upto(
            columns,
            live,
            rows,
            n,
        ));
        result_failure_is_final(columns, live, rows, n + 1);
    }
}

/// A full entity survives the way through its partial value: the leaves
/// read from an entity's own row complete into that entity, where the names
/// are distinct, the values fit, and no required column holds the null
/// value.
pub proof fn partial_of_entity_completes(columns: Seq<SqlColumnView>, values: Seq<SqlValueView>)
    requires
        names_distinct(columns),
        fits(columns, values),
        forall|i: int| 0 <= i < columns.len() ==> !(leaf_required(columns[i]) && values[i] is Null),
    ensures
        completed_leaves(columns, leaves_under(columns, columns, values)) == Some(values),
{
    let leaves = leaves_under(columns, columns, values);
    assert forall|i: int| 0 <= i < columns.len() implies leaves[i] == (if values[i] is Null {
        None
    } else {
        Some(values[i])
    }) by {
        position_of_is_first(columns, columns[i].name);
        assert(position_of(columns, columns[i].name) == Some(i));
    }
    assert(completed_leaves(columns, leaves)->Some_0 =~= values);
}

} // verus!
