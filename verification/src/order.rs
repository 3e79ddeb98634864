//! Row order: which columns a query sorts by, and how.

use crate::text::{push_separated, separated};
use vstd::prelude::*;

verus! {

/// The direction in which a column is sorted.
#[derive(Debug, Clone, Copy, PartialEq, Eq, Structural)]
pub enum OrderingAscDesc {
    Ascending,
    Descending,
}

/// Where the rows stand that hold no value in the sorted column.
#[derive(Debug, Clone, Copy, PartialEq, Eq, Structural)]
pub enum OrderingNulls {
    NullsFirst,
    NullsLast,
}

/// How one column is sorted: an optional direction and an optional place for
/// the rows that hold no value in it.
#[derive(Debug, Clone, Copy, PartialEq, Eq, Structural)]
pub struct ColumnOrdering {
    pub asc_desc: Option<OrderingAscDesc>,
    pub nulls: Option<OrderingNulls>,
}

impl Default for ColumnOrdering {
    fn default() -> (r: Self)
        ensures
            r.asc_desc is None,
            r.nulls is None,
    {
        ColumnOrdering { asc_desc: None, nulls: None }
    }
}

/// The columns a query sorts by, the most significant first.
#[derive(Debug)]
pub struct GenericOrder {
    pub columns: Vec<(&'static str, ColumnOrdering)>,
}

impl View for GenericOrder {
    type V = Seq<(Seq<char>, ColumnOrdering)>;

    open spec fn view(&self) -> Seq<(Seq<char>, ColumnOrdering)> {
        Seq::new(self.columns.len() as nat, |i: int| (self.columns[i].0@, self.columns[i].1))
    }
}

/// How one sort key is written: the column, then `ASC` or `DESC`, then
/// `NULLS FIRST` or `NULLS LAST`, each where it is asked for.
pub open spec fn order_term(key: (Seq<char>, ColumnOrdering)) -> Seq<char> {
    " "@ + key.0 + (match key.1.asc_desc {
        Some(OrderingAscDesc::Ascending) => " ASC"@,
        Some(OrderingAscDesc::Descending) => " DESC"@,
        None => Seq::empty(),
    }) + (match key.1.nulls {
        Some(OrderingNulls::NullsFirst) => " NULLS FIRST"@,
        Some(OrderingNulls::NullsLast) => " NULLS LAST"@,
        None => Seq::empty(),
    })
}

/// The `ORDER BY` clause for the keys: nothing where there is no key, else
/// the keys' terms with commas between them.
pub open spec fn order_text(keys: Seq<(Seq<char>, ColumnOrdering)>) -> Seq<char> {
    if keys.len() == 0 {
        Seq::empty()
    } else {
        "ORDER BY"@ + separated(
            keys.map_values(|key: (Seq<char>, ColumnOrdering)| order_term(key)),
            ","@,
        )
    }
}

/// The order that keeps the rows of an entity with vector fields together
/// and in place: every counter column, largest first, rows without a counter
/// last.
pub open spec fn counters_first(counters: Seq<Seq<char>>) -> Seq<(Seq<char>, ColumnOrdering)> {
    counters.map_values(
        |name: Seq<char>|
            (
                name,
                ColumnOrdering {
                    asc_desc: Some(OrderingAscDesc::Descending),
                    nulls: Some(OrderingNulls::NullsLast),
                },
            ),
    )
}

impl Default for GenericOrder {
    fn default() -> (r: Self)
        ensures
            r@ == Seq::<(Seq<char>, ColumnOrdering)>::empty(),
    {
        let r = GenericOrder { columns: Vec::new() };
        assert(r@ =~= Seq::<(Seq<char>, ColumnOrdering)>::empty());
        r
    }
}

fn write_term(column: &str, order: &ColumnOrdering) -> (r: String)
    ensures
        r@ == order_term((column@, *order)),
{
    let mut out = String::new();
    out.push_str(" ");
    out.push_str(column);
    match order.asc_desc {
        Some(OrderingAscDesc::Ascending) => {
            out.push_str(" ASC");
        },
        Some(OrderingAscDesc::Descending) => {
            out.push_str(" DESC");
        },
        None => {},
    }
    match order.nulls {
        Some(OrderingNulls::NullsFirst) => {
            out.push_str(" NULLS FIRST");
        },
        Some(OrderingNulls::NullsLast) => {
            out.push_str(" NULLS LAST");
        },
        None => {},
    }
    assert(out@ =~= order_term((column@, *order)));
    out
}

impl GenericOrder {
    /// Adds a sort key behind those already there.
    pub fn add(&mut self, column: &'static str, order: ColumnOrdering)
        ensures
            final(self)@ == old(self)@.push((column@, order)),
    {
        self.columns.push((column, order));
        assert(self@ =~= old(self)@.push((column@, order)));
    }

    /// The `ORDER BY` clause, empty where there is no sort key.
    pub fn to_sql(&self) -> (r: String)
        ensures
            r@ == order_text(self@),
    {
        if self.columns.len() == 0 {
            return String::new();
        }
        let ghost terms = self@.map_values(|key: (Seq<char>, ColumnOrdering)| order_term(key));
        let mut items: Vec<String> = Vec::new();
        let mut i: usize = 0;
        while i < self.columns.len()
            invariant
                i <= self.columns.len(),
                terms == self@.map_values(|key: (Seq<char>, ColumnOrdering)| order_term(key)),
                items.deep_view() == terms.take(i as int),
            decreases self.columns.len() - i,
        {
            let ghost before = items.deep_view();
            let item = write_term(self.columns[i].0, &self.columns[i].1);
            assert(terms[i as int] == item@);
            items.push(item);
            assert(items.deep_view() =~= before.push(item@));
            assert(items.deep_view() =~= terms.take(i + 1));
            i += 1;
        }
        assert(terms.take(self.columns.len() as int) =~= terms);
        let mut out = String::new();
        out.push_str("ORDER BY");
        push_separated(&mut out, &items, ",");
        assert(out@ =~= order_text(self@));
        out
    }

    /// The order by the given counter columns, each largest first with the
    /// rows that hold none last.
    pub fn by_counters(counters: &[&'static str]) -> (r: GenericOrder)
        ensures
            r@ == counters_first(counters.deep_view()),
    {
        let mut r = GenericOrder { columns: Vec::new() };
        let mut i: usize = 0;
        while i < counters.len()
            invariant
                i <= counters.len(),
                r@ == counters_first(counters.deep_view()).take(i as int),
            decreases counters.len() - i,
        {
            let ghost before = r@;
            let order = ColumnOrdering {
                asc_desc: Some(OrderingAscDesc::Descending),
                nulls: Some(OrderingNulls::NullsLast),
            };
            assert(counters.deep_view()[i as int] == counters[i as int]@);
            r.add(counters[i], order);
            assert(r@ =~= counters_first(counters.deep_view()).take(i + 1));
            i += 1;
        }
        assert(counters_first(counters.deep_view()).take(counters.len() as int)
            =~= counters_first(counters.deep_view()));
        r
    }
}

} // verus!
