//! Filters: per-column predicates, the flat filter that a query is compiled
//! from, and the `WHERE` clause it compiles to.

use crate::interner::{
    interned_all, interned_all_in_two_runs, interned_all_of_one, joined_three,
    StaticStringStorage,
};
use crate::text::{digits_are_digits, push_separated, same_text, separated};
use crate::value::{sql_literal, SqlValue, SqlValueView};
use vstd::prelude::*;
use vstd::std_specs::convert::IntoSpec;
use vstd::string::*;

verus! {

/// What a filter asks of one column.
#[derive(Debug)]
pub enum SqlColumnFilter<T> {
    /// Nothing: the column is left out of the `WHERE` clause.
    Ignored,
    MustBeEqual(T),
    /// The column's text contains the value; for a value that is no text,
    /// the same as `MustBeEqual`.
    Contains(T),
}

impl<T: DeepView> DeepView for SqlColumnFilter<T> {
    type V = SqlColumnFilter<T::V>;

    open spec fn deep_view(&self) -> SqlColumnFilter<T::V> {
        match self {
            SqlColumnFilter::Ignored => SqlColumnFilter::Ignored,
            SqlColumnFilter::MustBeEqual(v) => SqlColumnFilter::MustBeEqual(v.deep_view()),
            SqlColumnFilter::Contains(v) => SqlColumnFilter::Contains(v.deep_view()),
        }
    }
}

impl<T> Default for SqlColumnFilter<T> {
    fn default() -> (r: Self)
        ensures
            r is Ignored,
    {
        SqlColumnFilter::Ignored
    }
}

impl<T: Clone> Clone for SqlColumnFilter<T> {
    fn clone(&self) -> (r: Self)
        ensures
            match (*self, r) {
                (SqlColumnFilter::Ignored, SqlColumnFilter::Ignored) => true,
                (SqlColumnFilter::MustBeEqual(a), SqlColumnFilter::MustBeEqual(b)) => cloned(a, b),
                (SqlColumnFilter::Contains(a), SqlColumnFilter::Contains(b)) => cloned(a, b),
                _ => false,
            },
    {
        match self {
            SqlColumnFilter::Ignored => SqlColumnFilter::Ignored,
            SqlColumnFilter::MustBeEqual(v) => SqlColumnFilter::MustBeEqual(v.clone()),
            SqlColumnFilter::Contains(v) => SqlColumnFilter::Contains(v.clone()),
        }
    }
}

/// A per-column predicate over generic values, by its content.
pub type FilterView = SqlColumnFilter<SqlValueView>;

/// Whether rendered text is a quoted literal: it begins and ends with a
/// single quote.
pub open spec fn is_quoted(s: Seq<char>) -> bool {
    s.len() >= 2 && s.first() == '\'' && s.last() == '\''
}

/// A comparison with a literal: ` = ` and the literal.
pub open spec fn equality_text(literal: Seq<char>) -> Seq<char> {
    " = "@ + literal
}

/// The comparison a predicate compiles to. Equality compares with the
/// value's literal. Containment is a `LIKE` pattern around the text where the
/// literal is quoted, and equality where it is not.
pub open spec fn condition_text(f: FilterView) -> Seq<char> {
    match f {
        SqlColumnFilter::Ignored => Seq::empty(),
        SqlColumnFilter::MustBeEqual(v) => equality_text(sql_literal(v)),
        SqlColumnFilter::Contains(v) => {
            let literal = sql_literal(v);
            if is_quoted(literal) {
                " LIKE '%"@ + literal.subrange(1, literal.len() - 1) + "%'"@
            } else {
                equality_text(literal)
            }
        },
    }
}

/// Whether a predicate can be compiled: it is not `Ignored`, and its value
/// has a literal form.
pub open spec fn compiles(f: FilterView) -> bool {
    match f {
        SqlColumnFilter::Ignored => false,
        SqlColumnFilter::MustBeEqual(v) => !(v is Blob),
        SqlColumnFilter::Contains(v) => !(v is Blob),
    }
}

impl<T> SqlColumnFilter<T> {
    /// The same predicate over the generic value that `T` converts into.
    pub fn into_generic(self) -> (r: SqlColumnFilter<SqlValue>) where T: Into<SqlValue>
        ensures
            self is Ignored <==> r is Ignored,
            self is MustBeEqual <==> r is MustBeEqual,
            self is Contains <==> r is Contains,
            T::obeys_into_spec() ==> match self {
                SqlColumnFilter::Ignored => true,
                SqlColumnFilter::MustBeEqual(v) => r->MustBeEqual_0 == v.into_spec(),
                SqlColumnFilter::Contains(v) => r->Contains_0 == v.into_spec(),
            },
    {
        match self {
            SqlColumnFilter::Ignored => SqlColumnFilter::Ignored,
            SqlColumnFilter::MustBeEqual(it) => SqlColumnFilter::MustBeEqual(it.into()),
            SqlColumnFilter::Contains(it) => SqlColumnFilter::Contains(it.into()),
        }
    }
}

impl SqlColumnFilter<SqlValue> {
    /// Whether the predicate can be compiled.
    pub fn is_compilable(&self) -> (r: bool)
        ensures
            r == compiles(self.deep_view()),
    {
        match self {
            SqlColumnFilter::Ignored => false,
            SqlColumnFilter::MustBeEqual(v) => v.renders(),
            SqlColumnFilter::Contains(v) => v.renders(),
        }
    }

    /// A copy of the predicate.
    pub fn copy(&self) -> (r: Self)
        ensures
            r.deep_view() == self.deep_view(),
    {
        match self {
            SqlColumnFilter::Ignored => SqlColumnFilter::Ignored,
            SqlColumnFilter::MustBeEqual(v) => SqlColumnFilter::MustBeEqual(v.clone()),
            SqlColumnFilter::Contains(v) => SqlColumnFilter::Contains(v.clone()),
        }
    }

    /// The comparison that the predicate compiles to, to be written behind
    /// the column's name.
    pub fn to_sql(&self) -> (r: String)
        requires
            compiles(self.deep_view()),
        ensures
            r@ == condition_text(self.deep_view()),
    {
        let mut out = String::new();
        match self {
            SqlColumnFilter::Ignored => {},
            SqlColumnFilter::MustBeEqual(v) => {
                out.push_str(" = ");
                out.push_str(v.to_sql().as_str());
            },
            SqlColumnFilter::Contains(v) => {
                let literal = v.to_sql();
                let n = literal.as_str().unicode_len();
                if n >= 2 && literal.as_str().get_char(0) == '\'' && literal.as_str().get_char(
                    n - 1,
                ) == '\'' {
                    out.push_str(" LIKE '%");
                    out.push_str(literal.as_str().substring_char(1, n - 1));
                    out.push_str("%'");
                } else {
                    out.push_str(" = ");
                    out.push_str(literal.as_str());
                }
            },
        }
        assert(out@ =~= condition_text(self.deep_view()));
        out
    }
}

/// A flat filter: per fully qualified column name one predicate, in the
/// order in which the columns were first named. The conditions are joined by
/// `AND`, so the order only fixes the text of the clause.
#[derive(Debug)]
pub struct GenericFilter {
    pub columns: Vec<(&'static str, SqlColumnFilter<SqlValue>)>,
}

/// One entry of a flat filter, by its content.
pub type EntryView = (Seq<char>, FilterView);

impl View for GenericFilter {
    type V = Seq<EntryView>;

    open spec fn view(&self) -> Seq<EntryView> {
        self.columns.deep_view()
    }
}

/// The place of the entry for `name`, if the filter has one.
pub open spec fn entry_of(entries: Seq<EntryView>, name: Seq<char>) -> Option<int>
    decreases entries.len(),
{
    if entries.len() == 0 {
        None
    } else {
        match entry_of(entries.drop_last(), name) {
            Some(i) => Some(i),
            None => if entries.last().0 == name {
                Some(entries.len() - 1)
            } else {
                None
            },
        }
    }
}

/// The filter with `name` set to `f`: the entry for `name` is replaced where
/// it stands, a new name is added at the end.
pub open spec fn with_entry(entries: Seq<EntryView>, name: Seq<char>, f: FilterView) -> Seq<
    EntryView,
> {
    match entry_of(entries, name) {
        Some(i) => entries.update(i, (name, f)),
        None => entries.push((name, f)),
    }
}

/// The filter with each of `more` set in turn.
pub open spec fn with_entries(entries: Seq<EntryView>, more: Seq<EntryView>) -> Seq<EntryView>
    decreases more.len(),
{
    if more.len() == 0 {
        entries
    } else {
        with_entry(with_entries(entries, more.drop_last()), more.last().0, more.last().1)
    }
}

/// Whether no name has two entries.
pub open spec fn one_entry_per_name(entries: Seq<EntryView>) -> bool {
    forall|i: int, j: int| 0 <= i < j < entries.len() ==> entries[i].0 != entries[j].0
}

/// The condition that one entry contributes: the column's name between
/// spaces, then the comparison.
pub open spec fn entry_text(entry: EntryView) -> Seq<char> {
    " "@ + entry.0 + " "@ + condition_text(entry.1)
}

/// The conditions of the entries that are not `Ignored`, in order.
pub open spec fn conditions(entries: Seq<EntryView>) -> Seq<Seq<char>>
    decreases entries.len(),
{
    if entries.len() == 0 {
        Seq::empty()
    } else if entries.last().1 is Ignored {
        conditions(entries.drop_last())
    } else {
        conditions(entries.drop_last()).push(entry_text(entries.last()))
    }
}

/// The `WHERE` clause of a filter: nothing where every entry is `Ignored`,
/// else the conditions joined by `AND`.
pub open spec fn where_text(entries: Seq<EntryView>) -> Seq<char> {
    if conditions(entries).len() == 0 {
        Seq::empty()
    } else {
        "WHERE"@ + separated(conditions(entries), " AND"@)
    }
}

/// Whether every entry that is not `Ignored` can be compiled.
pub open spec fn all_compile(entries: Seq<EntryView>) -> bool {
    forall|i: int| 0 <= i < entries.len() ==> entries[i].1 is Ignored || compiles(entries[i].1)
}

impl Default for GenericFilter {
    fn default() -> (r: Self)
        ensures
            r@ == Seq::<EntryView>::empty(),
    {
        let r = GenericFilter { columns: Vec::new() };
        assert(r@ =~= Seq::<EntryView>::empty());
        r
    }
}

/// Sets `name` to `filter` among `columns`, as a map does: the entry for the
/// name is replaced where it stands, a new name is added at the end.
pub fn set_entry(
    columns: &mut Vec<(&'static str, SqlColumnFilter<SqlValue>)>,
    name: &'static str,
    filter: SqlColumnFilter<SqlValue>,
)
    ensures
        final(columns).deep_view() == with_entry(
            old(columns).deep_view(),
            name@,
            filter.deep_view(),
        ),
{
    let ghost all = columns.deep_view();
    let mut i: usize = 0;
    while i < columns.len()
        invariant
            i <= columns.len(),
            all == columns.deep_view(),
            columns == old(columns),
            entry_of(all.take(i as int), name@) is None,
        decreases columns.len() - i,
    {
        proof {
            assert(all.take(i + 1).drop_last() =~= all.take(i as int));
            assert(all.take(i + 1).last() == columns[i as int].deep_view());
        }
        if same_text(columns[i].0, name) {
            proof {
                entry_found_stays(all.take(i + 1), all, name@);
            }
            columns.set(i, (name, filter));
            assert(columns.deep_view() =~= all.update(i as int, (name@, filter.deep_view())));
            return ;
        }
        i += 1;
    }
    assert(all.take(columns.len() as int) =~= all);
    columns.push((name, filter));
    assert(columns.deep_view() =~= all.push((name@, filter.deep_view())));
}

/// An entry found among the first entries is found at the same place among
/// all of them.
pub proof fn entry_found_stays(front: Seq<EntryView>, entries: Seq<EntryView>, name: Seq<char>)
    requires
        front.is_prefix_of(entries),
        entry_of(front, name) is Some,
    ensures
        entry_of(entries, name) == entry_of(front, name),
    decreases entries.len(),
{
    if entries.len() > front.len() {
        assert(front.is_prefix_of(entries.drop_last()));
        entry_found_stays(front, entries.drop_last(), name);
    } else {
        assert(front =~= entries);
    }
}

impl GenericFilter {
    /// Sets the predicate of one column. A filter in which no name has two
    /// entries stays such a filter.
    pub fn insert(&mut self, name: &'static str, filter: SqlColumnFilter<SqlValue>)
        ensures
            final(self)@ == with_entry(old(self)@, name@, filter.deep_view()),
            one_entry_per_name(old(self)@) ==> one_entry_per_name(final(self)@),
    {
        proof {
            if one_entry_per_name(self@) {
                setting_keeps_one_entry_per_name(self@, name@, filter.deep_view());
            }
        }
        set_entry(&mut self.columns, name, filter);
    }

    /// Whether every predicate that is not `Ignored` can be compiled.
    pub fn is_compilable(&self) -> (r: bool)
        ensures
            r == all_compile(self@),
    {
        let mut i: usize = 0;
        while i < self.columns.len()
            invariant
                i <= self.columns.len(),
                forall|j: int| 0 <= j < i ==> self@[j].1 is Ignored || compiles(self@[j].1),
            decreases self.columns.len() - i,
        {
            assert(self@[i as int] == self.columns[i as int].deep_view());
            let ignored = match &self.columns[i].1 {
                SqlColumnFilter::Ignored => true,
                _ => false,
            };
            if !ignored && !self.columns[i].1.is_compilable() {
                return false;
            }
            i += 1;
        }
        true
    }

    /// The `WHERE` clause: empty where no column is constrained.
    pub fn to_sql(&self) -> (r: String)
        requires
            all_compile(self@),
        ensures
            r@ == where_text(self@),
    {
        let ghost all = self@;
        let mut items: Vec<String> = Vec::new();
        let mut i: usize = 0;
        while i < self.columns.len()
            invariant
                i <= self.columns.len(),
                all == self@,
                all_compile(all),
                items.deep_view() == conditions(all.take(i as int)),
            decreases self.columns.len() - i,
        {
            proof {
                assert(all.take(i + 1).drop_last() =~= all.take(i as int));
                assert(all.take(i + 1).last() == self.columns[i as int].deep_view());
                assert(all[i as int] == self.columns[i as int].deep_view());
            }
            let ignored = match &self.columns[i].1 {
                SqlColumnFilter::Ignored => true,
                _ => false,
            };
            if !ignored {
                let ghost before = items.deep_view();
                let mut item = String::new();
                item.push_str(" ");
                item.push_str(self.columns[i].0);
                item.push_str(" ");
                item.push_str(self.columns[i].1.to_sql().as_str());
                assert(item@ =~= entry_text(all[i as int]));
                items.push(item);
                assert(items.deep_view() =~= before.push(item@));
            }
            i += 1;
        }
        assert(all.take(self.columns.len() as int) =~= all);
        let mut out = String::new();
        if items.len() > 0 {
            out.push_str("WHERE");
            push_separated(&mut out, &items, " AND");
        }
        assert(out@ =~= where_text(all));
        out
    }
}

/// A typed filter as an entity declares it: a predicate on one column, or
/// one filter per field of a composite.
#[derive(Debug)]
pub enum FieldFilter {
    Column(SqlColumnFilter<SqlValue>),
    Fields(Vec<(&'static str, FieldFilter)>),
}

/// The name of a field below `prefix`: the prefix, an underscore and the
/// field's name; the field's name alone where there is no prefix.
pub open spec fn qualified(prefix: Option<Seq<char>>, field: Seq<char>) -> Seq<char> {
    match prefix {
        Some(p) => p + "_"@ + field,
        None => field,
    }
}

impl FieldFilter {
    /// How many fields the filter has; none for a single column.
    pub open spec fn width(self) -> nat {
        match self {
            FieldFilter::Column(_) => 0,
            FieldFilter::Fields(fields) => fields.len() as nat,
        }
    }

    /// The entries of the first `n` fields, see [`FieldFilter::flat`].
    pub open spec fn flat_upto(self, name: Option<Seq<char>>, n: nat) -> Seq<EntryView>
        decreases self, n,
    {
        match self {
            FieldFilter::Column(f) => match name {
                Some(column) => if f is Ignored {
                    Seq::empty()
                } else {
                    seq![(column, f.deep_view())]
                },
                None => Seq::empty(),
            },
            FieldFilter::Fields(fields) => if n == 0 || n > fields.len() {
                Seq::empty()
            } else {
                let field = fields[n - 1];
                self.flat_upto(name, (n - 1) as nat) + field.1.flat_upto(
                    Some(qualified(name, field.0@)),
                    field.1.width(),
                )
            },
        }
    }

    /// The filter flattened under `name`: a column gives one entry under that
    /// name, or none where it is `Ignored`; a composite gives the entries of
    /// its fields in order, each field flattened under its qualified name.
    pub open spec fn flat(self, name: Option<Seq<char>>) -> Seq<EntryView> {
        self.flat_upto(name, self.width())
    }

    /// The names composed for the first `n` fields, see
    /// [`FieldFilter::composed`].
    pub open spec fn composed_upto(self, name: Option<Seq<char>>, n: nat) -> Seq<Seq<char>>
        decreases self, n,
    {
        match self {
            FieldFilter::Column(_) => Seq::empty(),
            FieldFilter::Fields(fields) => if n == 0 || n > fields.len() {
                Seq::empty()
            } else {
                let field = fields[n - 1];
                let own = qualified(name, field.0@);
                self.composed_upto(name, (n - 1) as nat) + (if name is Some {
                    seq![own]
                } else {
                    Seq::empty()
                }) + field.1.composed_upto(Some(own), field.1.width())
            },
        }
    }

    /// The names that are composed while the filter is flattened under
    /// `name`, in the order in which they are interned: for each field its
    /// qualified name, where it has a prefix, then the names composed below
    /// it.
    pub open spec fn composed(self, name: Option<Seq<char>>) -> Seq<Seq<char>> {
        self.composed_upto(name, self.width())
    }

    /// The entries of the filter under the column name `name`.
    pub fn into_sql_column_filter(
        &self,
        name: &'static str,
        string_storage: &mut StaticStringStorage,
    ) -> (r: Vec<(&'static str, SqlColumnFilter<SqlValue>)>)
        ensures
            r.deep_view() == self.flat(Some(name@)),
            final(string_storage)@ == interned_all(
                old(string_storage)@,
                self.composed(Some(name@)),
            ),
        decreases self,
    {
        match self {
            FieldFilter::Column(f) => {
                let mut result: Vec<(&'static str, SqlColumnFilter<SqlValue>)> = Vec::new();
                match f {
                    SqlColumnFilter::Ignored => {
                        assert(result.deep_view() =~= self.flat(Some(name@)));
                    },
                    _ => {
                        let entry = (name, f.copy());
                        result.push(entry);
                        assert(result.deep_view() =~= self.flat(Some(name@)));
                    },
                }
                result
            },
            FieldFilter::Fields(fields) => {
                let mut result: Vec<(&'static str, SqlColumnFilter<SqlValue>)> = Vec::new();
                assert(result.deep_view() =~= self.flat_upto(Some(name@), 0));
                let mut i: usize = 0;
                while i < fields.len()
                    invariant
                        i <= fields.len(),
                        *self == FieldFilter::Fields(*fields),
                        result.deep_view() == self.flat_upto(Some(name@), i as nat),
                        string_storage@ == interned_all(
                            old(string_storage)@,
                            self.composed_upto(Some(name@), i as nat),
                        ),
                    decreases fields.len() - i,
                {
                    let ghost before = result.deep_view();
                    let ghost sofar = self.composed_upto(Some(name@), i as nat);
                    let parts = [name, "_", fields[i].0];
                    let slice = parts.as_slice();
                    let column_name = string_storage.store(slice);
                    proof {
                        joined_three(name@, "_"@, fields[i as int].0@);
                        assert(slice.deep_view() =~= seq![name@, "_"@, fields[i as int].0@]);
                        interned_all_of_one(
                            interned_all(old(string_storage)@, sofar),
                            column_name@,
                        );
                        interned_all_in_two_runs(old(string_storage)@, sofar, seq![column_name@]);
                        interned_all_in_two_runs(
                            old(string_storage)@,
                            sofar + seq![column_name@],
                            fields[i as int].1.composed(Some(column_name@)),
                        );
                    }
                    assert(decreases_to!(*self => fields@[i as int].1)) by {
                        assert(self->Fields_0 == *fields);
                    }
                    let mut more = fields[i].1.into_sql_column_filter(column_name, string_storage);
                    let ghost tail = more.deep_view();
                    result.append(&mut more);
                    assert(result.deep_view() =~= before + tail);
                    i += 1;
                }
                result
            },
        }
    }
}

/// Sets each of `more` among `columns`, in order.
pub fn set_entries(
    columns: &mut Vec<(&'static str, SqlColumnFilter<SqlValue>)>,
    more: &Vec<(&'static str, SqlColumnFilter<SqlValue>)>,
)
    ensures
        final(columns).deep_view() == with_entries(old(columns).deep_view(), more.deep_view()),
{
    let ghost start = columns.deep_view();
    let ghost all = more.deep_view();
    let mut i: usize = 0;
    while i < more.len()
        invariant
            i <= more.len(),
            all == more.deep_view(),
            columns.deep_view() == with_entries(start, all.take(i as int)),
        decreases more.len() - i,
    {
        proof {
            assert(all.take(i + 1).drop_last() =~= all.take(i as int));
            assert(all.take(i + 1).last() == more[i as int].deep_view());
        }
        set_entry(columns, more[i].0, more[i].1.copy());
        i += 1;
    }
    assert(all.take(more.len() as int) =~= all);
}

/// Setting entries in two runs is setting them in one.
pub proof fn with_entries_in_two_runs(
    entries: Seq<EntryView>,
    first: Seq<EntryView>,
    second: Seq<EntryView>,
)
    ensures
        with_entries(entries, first + second) == with_entries(
            with_entries(entries, first),
            second,
        ),
    decreases second.len(),
{
    if second.len() == 0 {
        assert(first + second =~= first);
    } else {
        assert((first + second).drop_last() =~= first + second.drop_last());
        assert((first + second).last() == second.last());
        with_entries_in_two_runs(entries, first, second.drop_last());
    }
}

impl GenericFilter {
    /// Flattens `value` under the column name `name` and sets its entries
    /// among `columns`.
    pub fn insert_into_columns(
        name: &'static str,
        columns: &mut Vec<(&'static str, SqlColumnFilter<SqlValue>)>,
        value: &FieldFilter,
        string_storage: &mut StaticStringStorage,
    )
        ensures
            final(columns).deep_view() == with_entries(
                old(columns).deep_view(),
                value.flat(Some(name@)),
            ),
            final(string_storage)@ == interned_all(
                old(string_storage)@,
                value.composed(Some(name@)),
            ),
    {
        let values = value.into_sql_column_filter(name, string_storage);
        set_entries(columns, &values);
    }
}

impl FieldFilter {
    /// The flat filter of the entity: the entries of the typed filter,
    /// flattened under `column_name`, set in order. A single column needs a
    /// name to stand under.
    pub fn into_generic(
        &self,
        string_storage: &mut StaticStringStorage,
        column_name: Option<&'static str>,
    ) -> (r: GenericFilter)
        requires
            *self is Column ==> column_name is Some,
        ensures
            r@ == with_entries(Seq::empty(), self.flat(column_name.deep_view())),
            one_entry_per_name(r@),
            final(string_storage)@ == interned_all(
                old(string_storage)@,
                self.composed(column_name.deep_view()),
            ),
    {
        let ghost prefix = column_name.deep_view();
        proof {
            setting_many_keeps_one_entry_per_name(Seq::empty(), self.flat(prefix));
        }
        let mut columns: Vec<(&'static str, SqlColumnFilter<SqlValue>)> = Vec::new();
        assert(columns.deep_view() =~= Seq::<EntryView>::empty());
        match self {
            FieldFilter::Column(_) => {
                match column_name {
                    Some(name) => {
                        GenericFilter::insert_into_columns(name, &mut columns, self, string_storage);
                    },
                    None => {},
                }
            },
            FieldFilter::Fields(fields) => {
                assert(self.flat_upto(prefix, 0) =~= Seq::<EntryView>::empty());
                let mut i: usize = 0;
                while i < fields.len()
                    invariant
                        i <= fields.len(),
                        *self == FieldFilter::Fields(*fields),
                        prefix == column_name.deep_view(),
                        columns.deep_view() == with_entries(
                            Seq::empty(),
                            self.flat_upto(prefix, i as nat),
                        ),
                        string_storage@ == interned_all(
                            old(string_storage)@,
                            self.composed_upto(prefix, i as nat),
                        ),
                    decreases fields.len() - i,
                {
                    let ghost sofar = self.composed_upto(prefix, i as nat);
                    let ghost own = qualified(prefix, fields[i as int].0@);
                    let actual_column_name = match column_name {
                        Some(c) => {
                            let parts = [c, "_", fields[i].0];
                            let slice = parts.as_slice();
                            let stored = string_storage.store(slice);
                            proof {
                                joined_three(c@, "_"@, fields[i as int].0@);
                                assert(slice.deep_view() =~= seq![c@, "_"@, fields[i as int].0@]);
                                interned_all_of_one(
                                    interned_all(old(string_storage)@, sofar),
                                    stored@,
                                );
                                interned_all_in_two_runs(
                                    old(string_storage)@,
                                    sofar,
                                    seq![stored@],
                                );
                            }
                            stored
                        },
                        None => {
                            assert(sofar + Seq::<Seq<char>>::empty() =~= sofar);
                            fields[i].0
                        },
                    };
                    assert(actual_column_name@ == own);
                    proof {
                        interned_all_in_two_runs(
                            old(string_storage)@,
                            sofar + (if prefix is Some {
                                seq![own]
                            } else {
                                Seq::empty()
                            }),
                            fields[i as int].1.composed(Some(own)),
                        );
                        with_entries_in_two_runs(
                            Seq::empty(),
                            self.flat_upto(prefix, i as nat),
                            fields[i as int].1.flat(Some(actual_column_name@)),
                        );
                    }
                    GenericFilter::insert_into_columns(
                        actual_column_name,
                        &mut columns,
                        &fields[i].1,
                        string_storage,
                    );
                    i += 1;
                }
            },
        }
        GenericFilter { columns }
    }
}

/// A filter constrains nothing exactly where every entry is `Ignored`: then,
/// and only then, its `WHERE` clause is empty, and every row is returned.
pub proof fn where_is_empty_iff_all_ignored(entries: Seq<EntryView>)
    ensures
        where_text(entries).len() == 0 <==> forall|i: int|
            0 <= i < entries.len() ==> entries[i].1 is Ignored,
    decreases entries.len(),
{
    reveal_strlit("WHERE");
    conditions_count(entries);
}

/// There are as many conditions as entries that are not `Ignored`; none
/// exactly where every entry is `Ignored`.
pub proof fn conditions_count(entries: Seq<EntryView>)
    ensures
        conditions(entries).len() <= entries.len(),
        conditions(entries).len() == 0 <==> forall|i: int|
            0 <= i < entries.len() ==> entries[i].1 is Ignored,
    decreases entries.len(),
{
    if entries.len() > 0 {
        let front = entries.drop_last();
        conditions_count(front);
        assert(forall|i: int| 0 <= i < front.len() ==> front[i] == entries[i]);
        if entries.last().1 is Ignored {
            assert(entries[entries.len() - 1].1 is Ignored);
        } else {
            assert(!(entries[entries.len() - 1].1 is Ignored));
        }
    }
}

/// Setting a name keeps a filter a map: where no name had two entries
/// before, none has two afterwards, the name that was set holds the new
/// predicate, and every other name holds what it held.
pub proof fn setting_keeps_one_entry_per_name(
    entries: Seq<EntryView>,
    name: Seq<char>,
    f: FilterView,
)
    requires
        one_entry_per_name(entries),
    ensures
        one_entry_per_name(with_entry(entries, name, f)),
        entry_of(with_entry(entries, name, f), name) is Some,
        with_entry(entries, name, f)[entry_of(with_entry(entries, name, f), name).unwrap()].1 == f,
        forall|i: int|
            0 <= i < entries.len() && entries[i].0 != name ==> with_entry(entries, name, f)[i]
                == entries[i],
{
    let after = with_entry(entries, name, f);
    entry_of_is_first(entries, name);
    entry_of_is_first(after, name);
    match entry_of(entries, name) {
        Some(i) => {
            assert(after[i].0 == name);
        },
        None => {
            assert(after[entries.len() as int].0 == name);
        },
    }
}

/// A filter that is built by setting entries is a map: whatever is set
/// among entries of which no name has two, no name has two afterwards.
pub proof fn setting_many_keeps_one_entry_per_name(entries: Seq<EntryView>, more: Seq<EntryView>)
    requires
        one_entry_per_name(entries),
    ensures
        one_entry_per_name(with_entries(entries, more)),
    decreases more.len(),
{
    if more.len() > 0 {
        setting_many_keeps_one_entry_per_name(entries, more.drop_last());
        setting_keeps_one_entry_per_name(
            with_entries(entries, more.drop_last()),
            more.last().0,
            more.last().1,
        );
    }
}

/// `entry_of` finds the first entry of that name, and only fails where no
/// entry has it.
pub proof fn entry_of_is_first(entries: Seq<EntryView>, name: Seq<char>)
    ensures
        match entry_of(entries, name) {
            Some(i) => 0 <= i < entries.len() && entries[i].0 == name && forall|j: int|
                0 <= j < i ==> entries[j].0 != name,
            None => forall|j: int| 0 <= j < entries.len() ==> entries[j].0 != name,
        },
    decreases entries.len(),
{
    if entries.len() > 0 {
        let front = entries.drop_last();
        entry_of_is_first(front, name);
        assert(forall|j: int| 0 <= j < front.len() ==> front[j] == entries[j]);
    }
}

/// Containment is a substring match for text and for nothing else: the
/// literal of a well-formed value is quoted exactly where the value is
/// text, so that for a number or the null value `Contains` compiles to the
/// equality that `MustBeEqual` compiles to.
pub proof fn containment_is_a_pattern_only_for_text(v: SqlValueView)
    requires
        v.wf(),
        !(v is Blob),
    ensures
        is_quoted(sql_literal(v)) <==> v is Text,
        !(v is Text) ==> condition_text(SqlColumnFilter::Contains(v)) == condition_text(
            SqlColumnFilter::MustBeEqual(v),
        ),
{
    match v {
        SqlValueView::Float(t) => {
            assert(crate::value::is_number_char(t[0]));
        },
        SqlValueView::Integer(i) => {
            if i < 0 {
                digits_are_digits((-i) as nat);
            } else {
                digits_are_digits(i as nat);
                assert('0' <= crate::text::digits(i as nat)[0] <= '9');
            }
        },
        SqlValueView::Null => {
            reveal_strlit("NULL");
        },
        SqlValueView::Text(t) => {},
        SqlValueView::Blob(_) => {},
    }
}

} // verus!
