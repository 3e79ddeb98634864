//! Statement synthesis: the text of the statements that read and write a
//! table.

use crate::column::{find_by_name, names_of, position_of, SqlColumn, SqlColumnView};
use crate::filter::{all_compile, where_text, EntryView, GenericFilter};
use crate::order::{order_text, GenericOrder};
use crate::partial::{HasValue, PartialValue};
use crate::text::{digits, push_digits, push_separated, separated};
use crate::value::SqlValue;
use vstd::prelude::*;

verus! {

/// What an insert does with a row that violates a constraint.
#[derive(Debug, Clone, Copy, PartialEq, Eq, Structural)]
pub enum SqlFailureBehavior {
    Abort,
    Fail,
    Ignore,
    Replace,
    Rollback,
}

impl Default for SqlFailureBehavior {
    fn default() -> (r: Self)
        ensures
            r == SqlFailureBehavior::Abort,
    {
        SqlFailureBehavior::Abort
    }
}

impl SqlFailureBehavior {
    /// The keyword that stands behind `INSERT OR`.
    pub open spec fn keyword(self) -> Seq<char> {
        match self {
            SqlFailureBehavior::Abort => "ABORT"@,
            SqlFailureBehavior::Fail => "FAIL"@,
            SqlFailureBehavior::Ignore => "IGNORE"@,
            SqlFailureBehavior::Replace => "REPLACE"@,
            SqlFailureBehavior::Rollback => "ROLLBACK"@,
        }
    }

    /// The policy that an entity's flags choose: `Abort` where none is set,
    /// the policy of the flag where one is, and none where the flags
    /// contradict each other.
    pub open spec fn choice(abort: bool, fail: bool, ignore: bool, replace: bool, rollback: bool) -> Option<
        SqlFailureBehavior,
    > {
        let set = (if abort { 1int } else { 0 }) + (if fail { 1int } else { 0 }) + (if ignore {
            1int
        } else {
            0
        }) + (if replace { 1int } else { 0 }) + (if rollback { 1int } else { 0 });
        if set > 1 {
            None
        } else if fail {
            Some(SqlFailureBehavior::Fail)
        } else if ignore {
            Some(SqlFailureBehavior::Ignore)
        } else if replace {
            Some(SqlFailureBehavior::Replace)
        } else if rollback {
            Some(SqlFailureBehavior::Rollback)
        } else {
            Some(SqlFailureBehavior::Abort)
        }
    }

    /// The policy that an entity's flags choose; only one can be chosen.
    pub fn chosen(abort: bool, fail: bool, ignore: bool, replace: bool, rollback: bool) -> (r: Option<
        SqlFailureBehavior,
    >)
        ensures
            r == Self::choice(abort, fail, ignore, replace, rollback),
    {
        let mut set: u8 = 0;
        if abort {
            set += 1;
        }
        if fail {
            set += 1;
        }
        if ignore {
            set += 1;
        }
        if replace {
            set += 1;
        }
        if rollback {
            set += 1;
        }
        if set > 1 {
            None
        } else if fail {
            Some(SqlFailureBehavior::Fail)
        } else if ignore {
            Some(SqlFailureBehavior::Ignore)
        } else if replace {
            Some(SqlFailureBehavior::Replace)
        } else if rollback {
            Some(SqlFailureBehavior::Rollback)
        } else {
            Some(SqlFailureBehavior::Abort)
        }
    }

    /// The keyword of the policy, as it stands behind `INSERT OR`.
    pub fn to_string(&self) -> (r: String)
        ensures
            r@ == self.keyword(),
    {
        let word = match self {
            SqlFailureBehavior::Abort => "ABORT",
            SqlFailureBehavior::Fail => "FAIL",
            SqlFailureBehavior::Ignore => "IGNORE",
            SqlFailureBehavior::Replace => "REPLACE",
            SqlFailureBehavior::Rollback => "ROLLBACK",
        };
        word.to_owned()
    }
}

/// The parameter that stands for the value at position `i`: a question mark
/// and the position counted from one.
pub open spec fn placeholder(i: int) -> Seq<char> {
    "?"@ + digits((i + 1) as nat)
}

/// The parameters for `n` values, separated by commas.
pub open spec fn placeholders(n: nat) -> Seq<char> {
    separated(Seq::new(n, |i: int| placeholder(i)), ", "@)
}

/// A name between double quotes.
pub open spec fn in_quotes(name: Seq<char>) -> Seq<char> {
    "\""@ + name + "\""@
}

/// The names separated by commas, each between double quotes where `quote`
/// is set.
pub open spec fn name_list(names: Seq<Seq<char>>, quote: bool) -> Seq<char> {
    separated(
        names.map_values(
            |name: Seq<char>|
                if quote {
                    in_quotes(name)
                } else {
                    name
                },
        ),
        ", "@,
    )
}

/// The statement that inserts one row into `table`: the columns by name, and
/// one parameter per column.
pub open spec fn insert_text(
    behavior: SqlFailureBehavior,
    table: Seq<char>,
    names: Seq<Seq<char>>,
    quote: bool,
) -> Seq<char> {
    "INSERT OR "@ + behavior.keyword() + " INTO "@ + table + " ("@ + name_list(names, quote)
        + ") VALUES ("@ + placeholders(names.len()) + ")"@
}

/// The statement that selects the columns of the rows of `table` that the
/// filter lets through, in the given order.
pub open spec fn select_text(
    table: Seq<char>,
    names: Seq<Seq<char>>,
    filter: Seq<EntryView>,
    order: Seq<(Seq<char>, crate::order::ColumnOrdering)>,
) -> Seq<char> {
    "SELECT "@ + name_list(names, false) + " from "@ + table + " "@ + where_text(filter) + " "@
        + order_text(order)
}

/// The statement that deletes the rows of `table` that the filter lets
/// through.
pub open spec fn delete_text(table: Seq<char>, filter: Seq<EntryView>) -> Seq<char> {
    "DELETE FROM "@ + table + " "@ + where_text(filter)
}

/// One assignment of an update: the column, and the parameter at its
/// position.
pub open spec fn assignment(name: Seq<char>, i: int) -> Seq<char> {
    name + " = "@ + placeholder(i)
}

/// The statement that writes the named columns of the rows of `table` that
/// the filter lets through; no other column is written.
pub open spec fn update_text(table: Seq<char>, names: Seq<Seq<char>>, filter: Seq<EntryView>) -> Seq<
    char,
> {
    "UPDATE "@ + table + " SET "@ + separated(
        Seq::new(names.len(), |i: int| assignment(names[i], i)),
        ", "@,
    ) + " "@ + where_text(filter)
}

/// Whether every column that the filter names is a column of the table.
pub open spec fn names_known(filter: Seq<EntryView>, columns: Seq<SqlColumnView>) -> bool {
    forall|i: int| 0 <= i < filter.len() ==> position_of(columns, filter[i].0) is Some
}

/// Whether every column that the filter names is among `columns`.
pub fn filter_within(filter: &GenericFilter, columns: &[SqlColumn]) -> (r: bool)
    ensures
        r == names_known(filter@, columns.deep_view()),
{
    let mut i: usize = 0;
    while i < filter.columns.len()
        invariant
            i <= filter.columns.len(),
            forall|j: int| 0 <= j < i ==> position_of(columns.deep_view(), filter@[j].0) is Some,
        decreases filter.columns.len() - i,
    {
        assert(filter@[i as int] == filter.columns[i as int].deep_view());
        if find_by_name(columns, filter.columns[i].0).is_none() {
            return false;
        }
        i += 1;
    }
    true
}

fn write_placeholder(i: usize) -> (r: String)
    requires
        i < usize::MAX,
    ensures
        r@ == placeholder(i as int),
{
    let mut out = String::new();
    out.push_str("?");
    push_digits(&mut out, (i + 1) as u64);
    out
}

fn write_placeholders(n: usize) -> (r: String)
    ensures
        r@ == placeholders(n as nat),
{
    let ghost want = Seq::new(n as nat, |i: int| placeholder(i));
    let mut items: Vec<String> = Vec::new();
    let mut i: usize = 0;
    while i < n
        invariant
            i <= n,
            want == Seq::new(n as nat, |i: int| placeholder(i)),
            items.deep_view() == want.take(i as int),
        decreases n - i,
    {
        let ghost before = items.deep_view();
        let item = write_placeholder(i);
        items.push(item);
        assert(items.deep_view() =~= before.push(item@));
        assert(items.deep_view() =~= want.take(i + 1));
        i += 1;
    }
    assert(want.take(n as int) =~= want);
    let mut out = String::new();
    push_separated(&mut out, &items, ", ");
    assert(out@ =~= placeholders(n as nat));
    out
}

fn write_names(columns: &[SqlColumn], quote: bool) -> (r: String)
    ensures
        r@ == name_list(names_of(columns.deep_view()), quote),
{
    let ghost want = names_of(columns.deep_view()).map_values(
        |name: Seq<char>|
            if quote {
                in_quotes(name)
            } else {
                name
            },
    );
    let mut items: Vec<String> = Vec::new();
    let mut i: usize = 0;
    while i < columns.len()
        invariant
            i <= columns.len(),
            want == names_of(columns.deep_view()).map_values(
                |name: Seq<char>|
                    if quote {
                        in_quotes(name)
                    } else {
                        name
                    },
            ),
            items.deep_view() == want.take(i as int),
        decreases columns.len() - i,
    {
        let ghost before = items.deep_view();
        assert(columns.deep_view()[i as int] == columns[i as int]@);
        let mut item = String::new();
        if quote {
            item.push_str("\"");
            item.push_str(columns[i].name);
            item.push_str("\"");
        } else {
            item.push_str(columns[i].name);
        }
        assert(item@ =~= want[i as int]);
        items.push(item);
        assert(items.deep_view() =~= before.push(item@));
        assert(items.deep_view() =~= want.take(i + 1));
        i += 1;
    }
    assert(want.take(columns.len() as int) =~= want);
    let mut out = String::new();
    push_separated(&mut out, &items, ", ");
    assert(out@ =~= name_list(names_of(columns.deep_view()), quote));
    out
}

/// The statement that inserts one row of the given columns into `table`.
pub fn insert_sql(behavior: SqlFailureBehavior, table: &str, columns: &[SqlColumn], quote: bool) -> (r:
    String)
    ensures
        r@ == insert_text(behavior, table@, names_of(columns.deep_view()), quote),
{
    let mut out = String::new();
    out.push_str("INSERT OR ");
    out.push_str(behavior.to_string().as_str());
    out.push_str(" INTO ");
    out.push_str(table);
    out.push_str(" (");
    out.push_str(write_names(columns, quote).as_str());
    out.push_str(") VALUES (");
    out.push_str(write_placeholders(columns.len()).as_str());
    out.push_str(")");
    assert(names_of(columns.deep_view()).len() == columns.len());
    assert(out@ =~= insert_text(behavior, table@, names_of(columns.deep_view()), quote));
    out
}

/// The statement that selects the rows of `table` that the filter lets
/// through, in the given order.
pub fn select_sql(table: &str, columns: &[SqlColumn], filter: &GenericFilter, order: &GenericOrder) -> (r:
    String)
    requires
        all_compile(filter@),
        names_known(filter@, columns.deep_view()),
    ensures
        r@ == select_text(table@, names_of(columns.deep_view()), filter@, order@),
{
    let mut out = String::new();
    out.push_str("SELECT ");
    out.push_str(write_names(columns, false).as_str());
    out.push_str(" from ");
    out.push_str(table);
    out.push_str(" ");
    out.push_str(filter.to_sql().as_str());
    out.push_str(" ");
    out.push_str(order.to_sql().as_str());
    assert(out@ =~= select_text(table@, names_of(columns.deep_view()), filter@, order@));
    out
}

/// The statement that deletes the rows of `table` that the filter lets
/// through.
pub fn delete_sql(table: &str, filter: &GenericFilter) -> (r: String)
    requires
        all_compile(filter@),
    ensures
        r@ == delete_text(table@, filter@),
{
    let mut out = String::new();
    out.push_str("DELETE FROM ");
    out.push_str(table);
    out.push_str(" ");
    out.push_str(filter.to_sql().as_str());
    assert(out@ =~= delete_text(table@, filter@));
    out
}

/// An update that is ready to run: its text, and for each partial value the
/// parameters to bind, in the order of the assignments.
#[derive(Debug)]
pub struct UpdateStatement {
    pub sql: String,
    pub parameters: Vec<Vec<SqlValue>>,
}

/// The update that writes the set leaves of the partial values into the rows
/// of `table` that the filter lets through. The columns to write are those
/// that the first partial value sets. There is no statement where there is
/// no partial value or where the first one sets no leaf: such an update
/// writes nothing.
pub fn update_statement(table: &str, filter: &GenericFilter, values: &Vec<PartialValue>) -> (r:
    Option<UpdateStatement>)
    requires
        all_compile(filter@),
        values.len() > 0 ==> values[0].nameable(None),
    ensures
        r is None <==> values.len() == 0 || !values[0].any_set(),
        r matches Some(statement) ==> {
            &&& statement.sql@ == update_text(table@, values[0].set_names(None), filter@)
            &&& statement.parameters.len() == values.len()
            &&& forall|i: int|
                0 <= i < values.len() ==> (#[trigger] statement.parameters[i]).deep_view()
                    == values[i].set_values()
        },
{
    if values.len() == 0 {
        return None;
    }
    if !values[0].has_values() {
        return None;
    }
    let names = values[0].used_column_names(None);
    let ghost wanted = values[0].set_names(None);
    let ghost want = Seq::new(wanted.len(), |i: int| assignment(wanted[i], i));
    let mut items: Vec<String> = Vec::new();
    let mut i: usize = 0;
    while i < names.len()
        invariant
            i <= names.len(),
            wanted == names.deep_view(),
            want == Seq::new(wanted.len(), |i: int| assignment(wanted[i], i)),
            items.deep_view() == want.take(i as int),
        decreases names.len() - i,
    {
        let ghost before = items.deep_view();
        assert(wanted[i as int] == names[i as int]@);
        let mut item = String::new();
        item.push_str(names[i].as_str());
        item.push_str(" = ");
        item.push_str(write_placeholder(i).as_str());
        assert(item@ =~= want[i as int]);
        items.push(item);
        assert(items.deep_view() =~= before.push(item@));
        assert(items.deep_view() =~= want.take(i + 1));
        i += 1;
    }
    assert(want.take(names.len() as int) =~= want);
    let mut sql = String::new();
    sql.push_str("UPDATE ");
    sql.push_str(table);
    sql.push_str(" SET ");
    push_separated(&mut sql, &items, ", ");
    sql.push_str(" ");
    sql.push_str(filter.to_sql().as_str());
    assert(sql@ =~= update_text(table@, wanted, filter@));
    let mut parameters: Vec<Vec<SqlValue>> = Vec::new();
    let mut k: usize = 0;
    while k < values.len()
        invariant
            k <= values.len(),
            parameters.len() == k,
            forall|j: int|
                0 <= j < k ==> (#[trigger] parameters[j]).deep_view() == values[j].set_values(),
        decreases values.len() - k,
    {
        parameters.push(values[k].used_values());
        k += 1;
    }
    Some(UpdateStatement { sql, parameters })
}

} // verus!
