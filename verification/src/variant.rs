//! Tagged unions in one table: a row holds the name of its variant, then
//! the columns of every variant side by side, with only those of its own
//! variant filled.

use crate::column::{SqlColumn, SqlColumnType, SqlColumnView};
use crate::text::same_text;
use crate::value::{SqlValue, SqlValueView};
use vstd::prelude::*;

verus! {

/// The number of columns that the first `k` variants take together.
pub open spec fn columns_upto(variants: Seq<(Seq<char>, usize)>, k: int) -> int
    decreases k,
{
    if k <= 0 || k > variants.len() {
        0
    } else {
        columns_upto(variants, k - 1) + variants[k - 1].1
    }
}

/// The columns of a row that stand before those of variant `k`: the column
/// of the variant's name, and the columns of the variants before it.
pub open spec fn columns_before(variants: Seq<(Seq<char>, usize)>, k: int) -> int {
    1 + columns_upto(variants, k)
}

/// The number of columns of a row: one for the variant's name, and those of
/// every variant.
pub open spec fn row_width(variants: Seq<(Seq<char>, usize)>) -> int {
    1 + columns_upto(variants, variants.len() as int)
}

/// So many null values.
pub open spec fn nulls(n: int) -> Seq<SqlValueView> {
    Seq::new(
        if n < 0 {
            0
        } else {
            n as nat
        },
        |i: int| SqlValueView::Null,
    )
}

/// The row of a value of variant `k` with the given fields: the variant's
/// name, the fields in the columns of their variant, and the null value in
/// the columns of every other variant.
pub open spec fn variant_row(
    variants: Seq<(Seq<char>, usize)>,
    k: int,
    fields: Seq<SqlValueView>,
) -> Seq<SqlValueView> {
    seq![SqlValueView::Text(variants[k].0)] + nulls(columns_upto(variants, k)) + fields + nulls(
        columns_upto(variants, variants.len() as int) - columns_upto(variants, k + 1),
    )
}

/// The first variant called `name`, if there is one.
pub open spec fn variant_called(variants: Seq<(Seq<char>, usize)>, name: Seq<char>) -> Option<int>
    decreases variants.len(),
{
    if variants.len() == 0 {
        None
    } else {
        match variant_called(variants.drop_last(), name) {
            Some(k) => Some(k),
            None => if variants.last().0 == name {
                Some(variants.len() - 1)
            } else {
                None
            },
        }
    }
}

/// The variant and the fields that a row stands for: the row must have the
/// width of the layout and begin with the name of a variant; the fields are
/// what stands in that variant's columns.
pub open spec fn variant_of_row(variants: Seq<(Seq<char>, usize)>, values: Seq<SqlValueView>) -> Option<
    (int, Seq<SqlValueView>),
> {
    if values.len() == row_width(variants) && values[0] is Text {
        match variant_called(variants, values[0]->Text_0) {
            Some(k) => Some(
                (
                    k,
                    values.subrange(
                        columns_before(variants, k),
                        columns_before(variants, k) + variants[k].1,
                    ),
                ),
            ),
            None => None,
        }
    } else {
        None
    }
}

/// The variants of a tagged union, each with its name and the number of
/// columns that its fields take.
pub struct EnumLayout {
    variants: Vec<(&'static str, usize)>,
}

impl View for EnumLayout {
    type V = Seq<(Seq<char>, usize)>;

    closed spec fn view(&self) -> Seq<(Seq<char>, usize)> {
        self.variants.deep_view()
    }
}

/// The counts grow with the number of variants counted.
pub proof fn columns_upto_grows(variants: Seq<(Seq<char>, usize)>, j: int, k: int)
    requires
        0 <= j <= k <= variants.len(),
    ensures
        0 <= columns_upto(variants, j) <= columns_upto(variants, k),
    decreases k,
{
    if j < k {
        columns_upto_grows(variants, j, k - 1);
    } else if k > 0 {
        columns_upto_grows(variants, j - 1, k - 1);
    }
}

impl EnumLayout {
    #[verifier::type_invariant]
    spec fn fits_a_row(&self) -> bool {
        row_width(self.variants.deep_view()) <= usize::MAX
    }

    /// The layout of the given variants; none where a row would have more
    /// columns than can be counted.
    pub fn new(variants: Vec<(&'static str, usize)>) -> (r: Option<Self>)
        ensures
            r is Some <==> row_width(variants.deep_view()) <= usize::MAX,
            r matches Some(layout) ==> layout@ == variants.deep_view(),
    {
        let ghost all = variants.deep_view();
        let mut width: usize = 1;
        let mut k: usize = 0;
        while k < variants.len()
            invariant
                k <= variants.len(),
                all == variants.deep_view(),
                width == columns_before(all, k as int),
            decreases variants.len() - k,
        {
            assert(all[k as int].1 == variants[k as int].1);
            if variants[k].1 > usize::MAX - width {
                proof {
                    columns_upto_grows(all, k + 1, all.len() as int);
                }
                return None;
            }
            width = width + variants[k].1;
            k += 1;
        }
        Some(EnumLayout { variants })
    }

    /// The number of columns of a row.
    pub fn param_count(&self) -> (n: usize)
        ensures
            n == row_width(self@),
    {
        self.empty_columns_before(self.variants.len())
    }

    /// The number of columns that stand before those of variant `k`, the
    /// column of the variant's name among them; the width of a row where
    /// `k` is no variant.
    pub fn empty_columns_before(&self, k: usize) -> (n: usize)
        ensures
            k <= self@.len() ==> n == columns_before(self@, k as int),
            k > self@.len() ==> n == row_width(self@),
    {
        proof {
            use_type_invariant(self);
        }
        let ghost all = self.variants.deep_view();
        let end = if k < self.variants.len() {
            k
        } else {
            self.variants.len()
        };
        let mut width: usize = 1;
        let mut j: usize = 0;
        while j < end
            invariant
                j <= end <= self.variants.len(),
                all == self.variants.deep_view(),
                row_width(all) <= usize::MAX,
                width == columns_before(all, j as int),
            decreases end - j,
        {
            proof {
                assert(all[j as int].1 == self.variants[j as int].1);
                columns_upto_grows(all, j + 1, all.len() as int);
            }
            width = width + self.variants[j].1;
            j += 1;
        }
        width
    }

    /// The name of variant `k`, if there is such a variant.
    pub fn variant_name(&self, k: usize) -> (r: Option<&'static str>)
        ensures
            r is Some <==> k < self@.len(),
            r matches Some(name) ==> name@ == self@[k as int].0,
    {
        if k < self.variants.len() {
            assert(self.variants.deep_view()[k as int].0 == self.variants[k as int].0@);
            Some(self.variants[k].0)
        } else {
            None
        }
    }

    /// The row of a value of variant `k` with the given fields; none where
    /// there is no such variant, or where it has another number of fields.
    pub fn as_params(&self, k: usize, fields: &Vec<SqlValue>) -> (r: Option<Vec<SqlValue>>)
        ensures
            r is Some <==> k < self@.len() && fields.len() == self@[k as int].1,
            r matches Some(row) ==> row.deep_view() == variant_row(
                self@,
                k as int,
                fields.deep_view(),
            ),
    {
        if k >= self.variants.len() {
            return None;
        }
        let ghost all = self.variants.deep_view();
        assert(all[k as int] == self.variants[k as int].deep_view());
        if fields.len() != self.variants[k].1 {
            return None;
        }
        let before = self.empty_columns_before(k);
        let width = self.param_count();
        proof {
            columns_upto_grows(all, k as int, k + 1);
            columns_upto_grows(all, k + 1, all.len() as int);
        }
        let mut row: Vec<SqlValue> = Vec::new();
        let name = SqlValue::Text(self.variants[k].0.to_owned());
        row.push(name);
        assert(row.deep_view() =~= seq![SqlValueView::Text(all[k as int].0)]);
        let ghost head = row.deep_view();
        while row.len() < before
            invariant
                1 <= row.len() <= before,
                row.deep_view() == head + nulls(row.len() - 1),
            decreases before - row.len(),
        {
            let ghost was = row.deep_view();
            row.push(SqlValue::Null);
            assert(row.deep_view() =~= was.push(SqlValueView::Null));
            assert(row.deep_view() =~= head + nulls(row.len() - 1));
        }
        let ghost front = row.deep_view();
        let mut i: usize = 0;
        while i < fields.len()
            invariant
                i <= fields.len(),
                row.len() == before + i,
                before + fields.len() <= width,
                row.deep_view() == front + fields.deep_view().take(i as int),
            decreases fields.len() - i,
        {
            let ghost was = row.deep_view();
            let item = fields[i].clone();
            assert(fields.deep_view()[i as int] == item@);
            row.push(item);
            assert(row.deep_view() =~= was.push(item@));
            assert(row.deep_view() =~= front + fields.deep_view().take(i + 1));
            i += 1;
        }
        assert(fields.deep_view().take(fields.len() as int) =~= fields.deep_view());
        let ghost filled = row.deep_view();
        let ghost start = row.len();
        while row.len() < width
            invariant
                start <= row.len() <= width,
                row.deep_view() == filled + nulls(row.len() - start),
            decreases width - row.len(),
        {
            let ghost was = row.deep_view();
            row.push(SqlValue::Null);
            assert(row.deep_view() =~= was.push(SqlValueView::Null));
            assert(row.deep_view() =~= filled + nulls(row.len() - start));
        }
        assert(row.deep_view() =~= variant_row(all, k as int, fields.deep_view()));
        Some(row)
    }

    /// The first variant called `name`, if there is one.
    pub fn find_variant(&self, name: &str) -> (r: Option<usize>)
        ensures
            r is Some <==> variant_called(self@, name@) is Some,
            r matches Some(k) ==> variant_called(self@, name@) == Some(k as int) && k
                < self@.len(),
    {
        let ghost all = self.variants.deep_view();
        let mut k: usize = 0;
        while k < self.variants.len()
            invariant
                k <= self.variants.len(),
                all == self.variants.deep_view(),
                variant_called(all.take(k as int), name@) is None,
            decreases self.variants.len() - k,
        {
            proof {
                assert(all.take(k + 1).drop_last() =~= all.take(k as int));
                assert(all.take(k + 1).last() == self.variants[k as int].deep_view());
            }
            if same_text(self.variants[k].0, name) {
                proof {
                    variant_found_stays(all.take(k + 1), all, name@);
                }
                return Some(k);
            }
            k += 1;
        }
        assert(all.take(self.variants.len() as int) =~= all);
        None
    }

    /// The variant and the fields that a row stands for.
    pub fn try_from_row(&self, values: &Vec<SqlValue>) -> (r: Option<(usize, Vec<SqlValue>)>)
        ensures
            match variant_of_row(self@, values.deep_view()) {
                Some((k, fields)) => r matches Some((at, read)) && at == k && read.deep_view()
                    == fields,
                None => r is None,
            },
    {
        let ghost all = self.variants.deep_view();
        let width = self.param_count();
        if values.len() != width {
            return None;
        }
        proof {
            columns_upto_grows(all, 0, all.len() as int);
        }
        assert(values.deep_view()[0] == values[0]@);
        let k = match &values[0] {
            SqlValue::Text(name) => match self.find_variant(name.as_str()) {
                Some(k) => k,
                None => {
                    return None;
                },
            },
            _ => {
                return None;
            },
        };
        let before = self.empty_columns_before(k);
        assert(all[k as int] == self.variants[k as int].deep_view());
        let count = self.variants[k].1;
        proof {
            columns_upto_grows(all, k + 1, all.len() as int);
        }
        let ghost want = values.deep_view().subrange(before as int, before + count);
        let mut fields: Vec<SqlValue> = Vec::new();
        let mut i: usize = 0;
        while i < count
            invariant
                i <= count,
                before + count <= values.len(),
                want == values.deep_view().subrange(before as int, before + count),
                fields.deep_view() == want.take(i as int),
            decreases count - i,
        {
            let ghost was = fields.deep_view();
            let item = values[before + i].clone();
            assert(values.deep_view()[before + i] == item@);
            fields.push(item);
            assert(fields.deep_view() =~= was.push(item@));
            assert(fields.deep_view() =~= want.take(i + 1));
            i += 1;
        }
        assert(want.take(count as int) =~= want);
        Some((k, fields))
    }
}

/// A variant found among the first variants is found at the same place
/// among all of them.
pub proof fn variant_found_stays(
    front: Seq<(Seq<char>, usize)>,
    variants: Seq<(Seq<char>, usize)>,
    name: Seq<char>,
)
    requires
        front.is_prefix_of(variants),
        variant_called(front, name) is Some,
    ensures
        variant_called(variants, name) == variant_called(front, name),
    decreases variants.len(),
{
    if variants.len() > front.len() {
        assert(front.is_prefix_of(variants.drop_last()));
        variant_found_stays(front, variants.drop_last(), name);
    } else {
        assert(front =~= variants);
    }
}

/// `variant_called` finds the first variant of that name.
pub proof fn variant_called_is_first(variants: Seq<(Seq<char>, usize)>, name: Seq<char>)
    ensures
        match variant_called(variants, name) {
            Some(k) => 0 <= k < variants.len() && variants[k].0 == name && forall|j: int|
                0 <= j < k ==> variants[j].0 != name,
            None => forall|j: int| 0 <= j < variants.len() ==> variants[j].0 != name,
        },
    decreases variants.len(),
{
    if variants.len() > 0 {
        let front = variants.drop_last();
        variant_called_is_first(front, name);
        assert(forall|j: int| 0 <= j < front.len() ==> front[j] == variants[j]);
    }
}

/// The round trip of a tagged union: where no two variants share a name, a
/// value of variant `k` is read back from its own row as variant `k` with
/// the fields it had.
pub proof fn variant_round_trip(
    variants: Seq<(Seq<char>, usize)>,
    k: int,
    fields: Seq<SqlValueView>,
)
    requires
        0 <= k < variants.len(),
        fields.len() == variants[k].1,
        forall|i: int, j: int| 0 <= i < j < variants.len() ==> variants[i].0 != variants[j].0,
    ensures
        variant_of_row(variants, variant_row(variants, k, fields)) == Some((k, fields)),
{
    let row = variant_row(variants, k, fields);
    columns_upto_grows(variants, k, k + 1);
    columns_upto_grows(variants, k + 1, variants.len() as int);
    columns_upto_grows(variants, 0, k);
    assert(row.len() == row_width(variants));
    assert(row[0] == SqlValueView::Text(variants[k].0));
    variant_called_is_first(variants, variants[k].0);
    assert(variant_called(variants, variants[k].0) == Some(k));
    assert(row.subrange(columns_before(variants, k), columns_before(variants, k) + variants[k].1)
        =~= fields);
}

/// The columns of the table of a tagged union: the column of the variant's
/// name, then the columns of the fields of every variant, each nullable, for
/// the rows of the other variants.
pub open spec fn variant_layout(members: Seq<SqlColumnView>) -> Seq<SqlColumnView> {
    seq![
        SqlColumnView {
            name: "variant"@,
            sql_type: SqlColumnType::OptionalText,
            is_primary: false,
            is_unique: false,
        },
    ] + members.map_values(
        |c: SqlColumnView|
            SqlColumnView {
                name: c.name,
                sql_type: c.sql_type.nullable(),
                is_primary: c.is_primary,
                is_unique: c.is_unique,
            },
    )
}

/// The columns of the table of a tagged union whose variants have the
/// given fields, in the order of the variants.
pub fn variant_columns(members: &[SqlColumn]) -> (r: Vec<SqlColumn>)
    ensures
        r.deep_view() == variant_layout(members.deep_view()),
{
    let ghost want = variant_layout(members.deep_view());
    let mut out: Vec<SqlColumn> = Vec::new();
    let tag = SqlColumn {
        name: "variant",
        sql_type: SqlColumnType::OptionalText,
        is_primary: false,
        is_unique: false,
    };
    out.push(tag);
    assert(out.deep_view() =~= want.take(1));
    let mut i: usize = 0;
    while i < members.len()
        invariant
            i <= members.len(),
            want == variant_layout(members.deep_view()),
            out.deep_view() == want.take(1 + i),
        decreases members.len() - i,
    {
        let ghost before = out.deep_view();
        let c = members[i];
        assert(members.deep_view()[i as int] == c@);
        let column = SqlColumn {
            name: c.name,
            sql_type: SqlColumnType::to_optional(c.sql_type),
            is_primary: c.is_primary,
            is_unique: c.is_unique,
        };
        out.push(column);
        assert(out.deep_view() =~= before.push(column@));
        assert(out.deep_view() =~= want.take(2 + i));
        i += 1;
    }
    assert(want.take(1 + members.len()) =~= want);
    out
}

} // verus!
