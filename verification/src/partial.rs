//! Partial values: the mirror of an entity in which every leaf may be
//! unset, used for column-selective updates and for reconciling migrated
//! rows.

use crate::filter::qualified;
use crate::value::{SqlValue, SqlValueView};
use vstd::prelude::*;

verus! {

/// What can tell whether it carries any value.
pub trait HasValue {
    fn has_values(&self) -> bool;
}

impl<T> HasValue for Option<T> {
    fn has_values(&self) -> (r: bool)
        ensures
            r == (self is Some),
    {
        self.is_some()
    }
}

impl<T> HasValue for Vec<T> {
    fn has_values(&self) -> (r: bool)
        ensures
            r == (self.len() > 0),
    {
        self.len() > 0
    }
}

/// What may be completed into a `T`.
pub trait PartialType<T> {
    fn transpose(self) -> Option<T>;
}

impl<T> PartialType<T> for Option<T> {
    fn transpose(self) -> (r: Option<T>)
        ensures
            r == self,
    {
        self
    }
}

impl<T> PartialType<Vec<T>> for Vec<T> {
    fn transpose(self) -> (r: Option<Vec<T>>)
        ensures
            r == Some(self),
    {
        Some(self)
    }
}

/// What has a partial form, which can be empty and can tell whether it is.
pub trait HasPartialRepresentation: Sized {
    type Partial: HasValue + Default;
}

impl<T: HasValue + Default> HasPartialRepresentation for T {
    type Partial = T;
}

/// A partial value: one leaf that may be unset, or one partial value per
/// field of a composite. A leaf is required where the entity cannot do
/// without it: a primary key, a scalar that is not optional.
#[derive(Debug)]
pub enum PartialValue {
    Leaf { value: Option<SqlValue>, required: bool },
    Fields(Vec<(&'static str, PartialValue)>),
}

impl PartialValue {
    /// How many fields the value has; none for a leaf.
    pub open spec fn width(self) -> nat {
        match self {
            PartialValue::Leaf { .. } => 0,
            PartialValue::Fields(fields) => fields.len() as nat,
        }
    }

    /// Whether a leaf among the first `n` fields is set, see
    /// [`PartialValue::any_set`].
    pub open spec fn any_set_upto(self, n: nat) -> bool
        decreases self, n,
    {
        match self {
            PartialValue::Leaf { value, .. } => value is Some,
            PartialValue::Fields(fields) => if n == 0 || n > fields.len() {
                false
            } else {
                self.any_set_upto((n - 1) as nat) || fields[n - 1].1.any_set_upto(
                    fields[n - 1].1.width(),
                )
            },
        }
    }

    /// Whether at least one leaf is set.
    pub open spec fn any_set(self) -> bool {
        self.any_set_upto(self.width())
    }

    /// The values of the first `n` fields, see [`PartialValue::completed`].
    pub open spec fn completed_upto(self, n: nat) -> Option<Seq<SqlValueView>>
        decreases self, n,
    {
        match self {
            PartialValue::Leaf { value, required } => match value {
                Some(v) => Some(seq![v@]),
                None => if required {
                    None
                } else {
                    Some(seq![SqlValueView::Null])
                },
            },
            PartialValue::Fields(fields) => if n == 0 || n > fields.len() {
                Some(Seq::empty())
            } else {
                match (
                    self.completed_upto((n - 1) as nat),
                    fields[n - 1].1.completed_upto(fields[n - 1].1.width()),
                ) {
                    (Some(front), Some(last)) => Some(front + last),
                    _ => None,
                }
            },
        }
    }

    /// The full entity, as the values of its leaves in order: a set leaf
    /// gives its value, an unset optional leaf the null value. There is no
    /// full entity where a required leaf is unset.
    pub open spec fn completed(self) -> Option<Seq<SqlValueView>> {
        self.completed_upto(self.width())
    }

    /// The column names of the set leaves among the first `n` fields, see
    /// [`PartialValue::set_names`].
    pub open spec fn set_names_upto(self, name: Option<Seq<char>>, n: nat) -> Seq<Seq<char>>
        decreases self, n,
    {
        match self {
            PartialValue::Leaf { value, .. } => match (value, name) {
                (Some(_), Some(column)) => seq![column],
                _ => Seq::empty(),
            },
            PartialValue::Fields(fields) => if n == 0 || n > fields.len() {
                Seq::empty()
            } else {
                self.set_names_upto(name, (n - 1) as nat) + fields[n - 1].1.set_names_upto(
                    Some(qualified(name, fields[n - 1].0@)),
                    fields[n - 1].1.width(),
                )
            },
        }
    }

    /// The fully qualified column names of the leaves that are set, in
    /// order; an unset leaf gives none.
    pub open spec fn set_names(self, name: Option<Seq<char>>) -> Seq<Seq<char>> {
        self.set_names_upto(name, self.width())
    }

    /// The values of the set leaves among the first `n` fields, see
    /// [`PartialValue::set_values`].
    pub open spec fn set_values_upto(self, n: nat) -> Seq<SqlValueView>
        decreases self, n,
    {
        match self {
            PartialValue::Leaf { value, .. } => match value {
                Some(v) => seq![v@],
                None => Seq::empty(),
            },
            PartialValue::Fields(fields) => if n == 0 || n > fields.len() {
                Seq::empty()
            } else {
                self.set_values_upto((n - 1) as nat) + fields[n - 1].1.set_values_upto(
                    fields[n - 1].1.width(),
                )
            },
        }
    }

    /// The values of the leaves that are set, in order.
    pub open spec fn set_values(self) -> Seq<SqlValueView> {
        self.set_values_upto(self.width())
    }

    /// Whether the value can be named under `name`: a set leaf needs a
    /// column name of its own.
    pub open spec fn nameable(self, name: Option<Seq<char>>) -> bool {
        self matches PartialValue::Leaf { value, .. } ==> value is None || name is Some
    }

    /// The fully qualified column names of the leaves that are set.
    pub fn used_column_names(&self, column_name: Option<String>) -> (r: Vec<String>)
        requires
            self.nameable(column_name.deep_view()),
        ensures
            r.deep_view() == self.set_names(column_name.deep_view()),
        decreases self,
    {
        let ghost prefix = column_name.deep_view();
        let mut result: Vec<String> = Vec::new();
        match self {
            PartialValue::Leaf { value, .. } => {
                match (value, column_name) {
                    (Some(_), Some(column)) => {
                        result.push(column);
                        assert(result.deep_view() =~= self.set_names(prefix));
                    },
                    _ => {
                        assert(result.deep_view() =~= self.set_names(prefix));
                    },
                }
            },
            PartialValue::Fields(fields) => {
                assert(result.deep_view() =~= self.set_names_upto(prefix, 0));
                let mut i: usize = 0;
                while i < fields.len()
                    invariant
                        i <= fields.len(),
                        *self == PartialValue::Fields(*fields),
                        prefix == column_name.deep_view(),
                        result.deep_view() == self.set_names_upto(prefix, i as nat),
                    decreases fields.len() - i,
                {
                    let ghost before = result.deep_view();
                    let mut name = String::new();
                    match &column_name {
                        Some(c) => {
                            name.push_str(c.as_str());
                            name.push_str("_");
                        },
                        None => {},
                    }
                    name.push_str(fields[i].0);
                    assert(name@ =~= qualified(prefix, fields[i as int].0@));
                    assert(decreases_to!(*self => fields@[i as int].1)) by {
                        assert(self->Fields_0 == *fields);
                    }
                    let mut more = fields[i].1.used_column_names(Some(name));
                    let ghost tail = more.deep_view();
                    result.append(&mut more);
                    assert(result.deep_view() =~= before + tail);
                    i += 1;
                }
            },
        }
        result
    }

    /// The values of the leaves that are set, parallel to
    /// [`PartialValue::used_column_names`].
    pub fn used_values(&self) -> (r: Vec<SqlValue>)
        ensures
            r.deep_view() == self.set_values(),
        decreases self,
    {
        let mut result: Vec<SqlValue> = Vec::new();
        match self {
            PartialValue::Leaf { value, .. } => {
                match value {
                    Some(v) => {
                        let item = v.clone();
                        result.push(item);
                        assert(result.deep_view() =~= self.set_values());
                    },
                    None => {
                        assert(result.deep_view() =~= self.set_values());
                    },
                }
            },
            PartialValue::Fields(fields) => {
                assert(result.deep_view() =~= self.set_values_upto(0));
                let mut i: usize = 0;
                while i < fields.len()
                    invariant
                        i <= fields.len(),
                        *self == PartialValue::Fields(*fields),
                        result.deep_view() == self.set_values_upto(i as nat),
                    decreases fields.len() - i,
                {
                    let ghost before = result.deep_view();
                    assert(decreases_to!(*self => fields@[i as int].1)) by {
                        assert(self->Fields_0 == *fields);
                    }
                    let mut more = fields[i].1.used_values();
                    let ghost tail = more.deep_view();
                    result.append(&mut more);
                    assert(result.deep_view() =~= before + tail);
                    i += 1;
                }
            },
        }
        result
    }

    /// The values of all leaves, if every required leaf is set.
    pub fn complete(&self) -> (r: Option<Vec<SqlValue>>)
        ensures
            r.deep_view() == self.completed(),
        decreases self,
    {
        let mut result: Vec<SqlValue> = Vec::new();
        match self {
            PartialValue::Leaf { value, required } => {
                match value {
                    Some(v) => {
                        let item = v.clone();
                        result.push(item);
                        assert(result.deep_view() =~= seq![v@]);
                    },
                    None => {
                        if *required {
                            return None;
                        }
                        result.push(SqlValue::Null);
                        assert(result.deep_view() =~= seq![SqlValueView::Null]);
                    },
                }
            },
            PartialValue::Fields(fields) => {
                assert(result.deep_view() =~= Seq::<SqlValueView>::empty());
                let mut i: usize = 0;
                while i < fields.len()
                    invariant
                        i <= fields.len(),
                        *self == PartialValue::Fields(*fields),
                        self.completed_upto(i as nat) == Some(result.deep_view()),
                    decreases fields.len() - i,
                {
                    let ghost before = result.deep_view();
                    assert(decreases_to!(*self => fields@[i as int].1)) by {
                        assert(self->Fields_0 == *fields);
                    }
                    match fields[i].1.complete() {
                        Some(more) => {
                            let mut more = more;
                            let ghost tail = more.deep_view();
                            result.append(&mut more);
                            assert(result.deep_view() =~= before + tail);
                        },
                        None => {
                            proof {
                                failure_is_final(*self, (i + 1) as nat);
                            }
                            return None;
                        },
                    }
                    i += 1;
                }
            },
        }
        Some(result)
    }
}

/// Once a field cannot be completed, no more fields help: completion stops
/// at the first leaf that fails.
pub proof fn failure_is_final(p: PartialValue, n: nat)
    requires
        n <= p.width(),
        p.completed_upto(n) is None,
    ensures
        p.completed() is None,
    decreases p.width() - n,
{
    if n < p.width() {
        assert(p.completed_upto(n + 1) is None);
        failure_is_final(p, n + 1);
    }
}

impl Default for PartialValue {
    /// The partial value of an entity without fields: nothing is set.
    fn default() -> (r: Self)
        ensures
            r matches PartialValue::Fields(fields) && fields.len() == 0,
    {
        PartialValue::Fields(Vec::new())
    }
}

impl HasValue for PartialValue {
    /// Whether at least one leaf is set.
    fn has_values(&self) -> (r: bool)
        ensures
            r == self.any_set(),
        decreases self,
    {
        match self {
            PartialValue::Leaf { value, .. } => value.is_some(),
            PartialValue::Fields(fields) => {
                let mut i: usize = 0;
                while i < fields.len()
                    invariant
                        i <= fields.len(),
                        *self == PartialValue::Fields(*fields),
                        !self.any_set_upto(i as nat),
                    decreases fields.len() - i,
                {
                    assert(decreases_to!(*self => fields@[i as int].1)) by {
                        assert(self->Fields_0 == *fields);
                    }
                    if fields[i].1.has_values() {
                        proof {
                            found_stays_found(*self, (i + 1) as nat);
                        }
                        return true;
                    }
                    i += 1;
                }
                false
            },
        }
    }
}

/// A set leaf among the first fields is a set leaf of the whole value.
pub proof fn found_stays_found(p: PartialValue, n: nat)
    requires
        n <= p.width(),
        p.any_set_upto(n),
    ensures
        p.any_set(),
    decreases p.width() - n,
{
    if n < p.width() {
        assert(p.any_set_upto(n + 1));
        found_stays_found(p, n + 1);
    }
}

impl PartialType<Vec<SqlValue>> for PartialValue {
    /// The full entity, if every required leaf is set.
    fn transpose(self) -> (r: Option<Vec<SqlValue>>)
        ensures
            r.deep_view() == self.completed(),
    {
        self.complete()
    }
}

impl PartialValue {
    /// Whether a required leaf among the first `n` fields is unset, see
    /// [`PartialValue::lacks_required`].
    pub open spec fn lacks_required_upto(self, n: nat) -> bool
        decreases self, n,
    {
        match self {
            PartialValue::Leaf { value, required } => required && value is None,
            PartialValue::Fields(fields) => if n == 0 || n > fields.len() {
                false
            } else {
                self.lacks_required_upto((n - 1) as nat) || fields[n - 1].1.lacks_required_upto(
                    fields[n - 1].1.width(),
                )
            },
        }
    }

    /// Whether some required leaf is unset.
    pub open spec fn lacks_required(self) -> bool {
        self.lacks_required_upto(self.width())
    }
}

/// A partial value completes into the full entity exactly where no required
/// leaf is unset.
pub proof fn completes_iff_nothing_required_is_unset(p: PartialValue)
    ensures
        p.completed() is Some <==> !p.lacks_required(),
{
    completion_upto(p, p.width());
}

proof fn completion_upto(p: PartialValue, n: nat)
    requires
        n <= p.width(),
    ensures
        p.completed_upto(n) is Some <==> !p.lacks_required_upto(n),
    decreases p, n,
{
    match p {
        PartialValue::Leaf { .. } => {},
        PartialValue::Fields(fields) => {
            if n > 0 {
                completion_upto(p, (n - 1) as nat);
                completion_upto(fields[n - 1].1, fields[n - 1].1.width());
            }
        },
    }
}

/// The names and the values of the set leaves are parallel lists, and there
/// is a set leaf exactly where they are not empty: with no leaf set, an
/// update has nothing to write.
pub proof fn names_and_values_are_parallel(p: PartialValue, name: Seq<char>)
    ensures
        p.set_names(Some(name)).len() == p.set_values().len(),
        p.any_set() <==> p.set_values().len() > 0,
{
    parallel_upto(p, name, p.width());
}

proof fn parallel_upto(p: PartialValue, name: Seq<char>, n: nat)
    requires
        n <= p.width(),
    ensures
        p.set_names_upto(Some(name), n).len() == p.set_values_upto(n).len(),
        p.any_set_upto(n) <==> p.set_values_upto(n).len() > 0,
    decreases p, n,
{
    match p {
        PartialValue::Leaf { .. } => {},
        PartialValue::Fields(fields) => {
            if n > 0 {
                parallel_upto(p, name, (n - 1) as nat);
                parallel_upto(
                    fields[n - 1].1,
                    qualified(Some(name), fields[n - 1].0@),
                    fields[n - 1].1.width(),
                );
            }
        },
    }
}

/// The fields of a composite, flattened without a name of their own, are
/// parallel to their values as well.
pub proof fn fields_are_parallel(p: PartialValue)
    requires
        p is Fields,
    ensures
        p.set_names(None).len() == p.set_values().len(),
{
    fields_parallel_upto(p, p.width());
}

proof fn fields_parallel_upto(p: PartialValue, n: nat)
    requires
        p is Fields,
        n <= p.width(),
    ensures
        p.set_names_upto(None, n).len() == p.set_values_upto(n).len(),
    decreases n,
{
    if n > 0 {
        let fields = p->Fields_0;
        fields_parallel_upto(p, (n - 1) as nat);
        parallel_upto(fields[n - 1].1, fields[n - 1].0@, fields[n - 1].1.width());
    }
}

} // verus!
