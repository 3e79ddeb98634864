//! Vector-valued fields: an entity with one-to-many fields is written as a
//! family of physical rows that share its primary key, and read back by
//! regrouping consecutive rows.

use crate::value::{clone_values, SqlValue, SqlValueView};
use vstd::prelude::*;

verus! {

/// An entity with vector-valued fields: its primary key, its scalar fields,
/// and one list of elements per vector field.
#[derive(Debug)]
pub struct VecEntity {
    pub key: SqlValue,
    pub scalars: Vec<SqlValue>,
    pub vectors: Vec<Vec<SqlValue>>,
}

/// One physical row of such an entity: the key and the scalar fields, one
/// element (or none) of each vector field, and for each vector field the
/// number of its elements that this row and the rows after it still carry.
#[derive(Debug)]
pub struct RowRecord {
    pub key: SqlValue,
    pub scalars: Vec<SqlValue>,
    pub elements: Vec<Option<SqlValue>>,
    pub remaining: Vec<usize>,
}

/// The mathematical content of a [`VecEntity`].
pub struct EntityView {
    pub key: SqlValueView,
    pub scalars: Seq<SqlValueView>,
    pub vectors: Seq<Seq<SqlValueView>>,
}

/// The mathematical content of a [`RowRecord`].
pub struct RecordView {
    pub key: SqlValueView,
    pub scalars: Seq<SqlValueView>,
    pub elements: Seq<Option<SqlValueView>>,
    pub remaining: Seq<usize>,
}

impl View for VecEntity {
    type V = EntityView;

    open spec fn view(&self) -> EntityView {
        EntityView {
            key: self.key@,
            scalars: self.scalars.deep_view(),
            vectors: self.vectors.deep_view(),
        }
    }
}

impl DeepView for VecEntity {
    type V = EntityView;

    open spec fn deep_view(&self) -> EntityView {
        self@
    }
}

impl View for RowRecord {
    type V = RecordView;

    open spec fn view(&self) -> RecordView {
        RecordView {
            key: self.key@,
            scalars: self.scalars.deep_view(),
            elements: self.elements.deep_view(),
            remaining: self.remaining@,
        }
    }
}

impl DeepView for RowRecord {
    type V = RecordView;

    open spec fn deep_view(&self) -> RecordView {
        self@
    }
}

/// The length of the longest vector field; zero where there is none.
pub open spec fn longest(vectors: Seq<Seq<SqlValueView>>) -> nat
    decreases vectors.len(),
{
    if vectors.len() == 0 {
        0
    } else {
        let front = longest(vectors.drop_last());
        if vectors.last().len() > front {
            vectors.last().len()
        } else {
            front
        }
    }
}

/// The element that row `i` carries for a vector field: the field's element
/// `i`, or none once the field has run out.
pub open spec fn element_at(field: Seq<SqlValueView>, i: int) -> Option<SqlValueView> {
    if 0 <= i < field.len() {
        Some(field[i])
    } else {
        None
    }
}

/// The counter that row `i` carries for a vector field: how many of the
/// field's elements are still to come, this row's included; zero once the
/// field has run out.
pub open spec fn remaining_at(field: Seq<SqlValueView>, i: int) -> usize {
    if 0 <= i < field.len() {
        (field.len() - i) as usize
    } else {
        0
    }
}

/// Row `i` of an entity.
pub open spec fn record_at(e: EntityView, i: int) -> RecordView {
    RecordView {
        key: e.key,
        scalars: e.scalars,
        elements: e.vectors.map_values(|field: Seq<SqlValueView>| element_at(field, i)),
        remaining: e.vectors.map_values(|field: Seq<SqlValueView>| remaining_at(field, i)),
    }
}

/// The rows of an entity: as many as its longest vector field has elements.
pub open spec fn flattened(e: EntityView) -> Seq<RecordView> {
    Seq::new(longest(e.vectors), |i: int| record_at(e, i))
}

/// The longest vector field is at least as long as every vector field, and
/// where there is a vector field, one of them has that length.
pub proof fn longest_is_maximum(vectors: Seq<Seq<SqlValueView>>)
    ensures
        forall|f: int| 0 <= f < vectors.len() ==> vectors[f].len() <= longest(vectors),
        vectors.len() > 0 ==> exists|f: int| 0 <= f < vectors.len() && vectors[f].len() == longest(
            vectors,
        ),
        vectors.len() == 0 ==> longest(vectors) == 0,
    decreases vectors.len(),
{
    if vectors.len() > 0 {
        let front = vectors.drop_last();
        longest_is_maximum(front);
        assert(forall|f: int| 0 <= f < front.len() ==> front[f] == vectors[f]);
        if vectors.last().len() > longest(front) {
            assert(vectors[vectors.len() - 1].len() == longest(vectors));
        } else if front.len() > 0 {
            let f = choose|f: int| 0 <= f < front.len() && front[f].len() == longest(front);
            assert(vectors[f].len() == longest(vectors));
        } else {
            assert(vectors[vectors.len() - 1].len() == longest(vectors));
        }
    }
}

impl VecEntity {
    /// The length of the longest vector field.
    pub fn longest_len(&self) -> (n: usize)
        ensures
            n == longest(self@.vectors),
    {
        let ghost all = self.vectors.deep_view();
        let mut n: usize = 0;
        let mut f: usize = 0;
        while f < self.vectors.len()
            invariant
                f <= self.vectors.len(),
                all == self.vectors.deep_view(),
                n == longest(all.take(f as int)),
            decreases self.vectors.len() - f,
        {
            proof {
                assert(all.take(f + 1).drop_last() =~= all.take(f as int));
                assert(all.take(f + 1).last().len() == self.vectors[f as int].len());
            }
            if self.vectors[f].len() > n {
                n = self.vectors[f].len();
            }
            f += 1;
        }
        assert(all.take(self.vectors.len() as int) =~= all);
        n
    }

    /// Row `i` of the entity.
    pub fn record(&self, i: usize) -> (r: RowRecord)
        ensures
            r@ == record_at(self@, i as int),
    {
        let ghost all = self.vectors.deep_view();
        let ghost want = record_at(self@, i as int);
        let mut elements: Vec<Option<SqlValue>> = Vec::new();
        let mut remaining: Vec<usize> = Vec::new();
        let mut f: usize = 0;
        while f < self.vectors.len()
            invariant
                f <= self.vectors.len(),
                all == self.vectors.deep_view(),
                want == record_at(self@, i as int),
                elements.deep_view() == want.elements.take(f as int),
                remaining@ == want.remaining.take(f as int),
            decreases self.vectors.len() - f,
        {
            let ghost before = elements.deep_view();
            let field = &self.vectors[f];
            assert(all[f as int] == field.deep_view());
            if i < field.len() {
                let item = field[i].clone();
                assert(field.deep_view()[i as int] == item@);
                elements.push(Some(item));
                remaining.push(field.len() - i);
                assert(elements.deep_view() =~= before.push(Some(item@)));
            } else {
                elements.push(None);
                remaining.push(0);
                assert(elements.deep_view() =~= before.push(None));
            }
            assert(elements.deep_view() =~= want.elements.take(f + 1));
            assert(remaining@ =~= want.remaining.take(f + 1));
            f += 1;
        }
        assert(want.elements.take(self.vectors.len() as int) =~= want.elements);
        assert(want.remaining.take(self.vectors.len() as int) =~= want.remaining);
        RowRecord {
            key: self.key.clone(),
            scalars: clone_values(&self.scalars),
            elements,
            remaining,
        }
    }
}

/// A vector field with the element of one more row appended, where the row
/// carries one.
pub open spec fn appended(field: Seq<SqlValueView>, element: Option<SqlValueView>) -> Seq<
    SqlValueView,
> {
    match element {
        Some(v) => field.push(v),
        None => field,
    }
}

/// The entity that a group's first row opens: the row's key and scalar
/// fields, and in each vector field the row's element, if it carries one.
pub open spec fn opened(r: RecordView) -> EntityView {
    EntityView {
        key: r.key,
        scalars: r.scalars,
        vectors: r.elements.map_values(|x: Option<SqlValueView>| appended(Seq::empty(), x)),
    }
}

/// The entity with one more row of its group taken in: the key and the
/// scalar fields stay those of the group's first row, each vector field
/// gains the row's element, if the row carries one.
pub open spec fn extended(e: EntityView, r: RecordView) -> EntityView {
    EntityView {
        key: e.key,
        scalars: e.scalars,
        vectors: Seq::new(
            e.vectors.len(),
            |f: int| appended(e.vectors[f], if f < r.elements.len() {
                r.elements[f]
            } else {
                None
            }),
        ),
    }
}

/// The entities that a run of rows stands for, read front to back: a row
/// whose key is that of the group before it joins that group, any other row
/// opens a new one.
pub open spec fn regrouped(rows: Seq<RecordView>) -> Seq<EntityView>
    decreases rows.len(),
{
    if rows.len() == 0 {
        Seq::empty()
    } else {
        let front = regrouped(rows.drop_last());
        if front.len() > 0 && front.last().key == rows.last().key {
            front.drop_last().push(extended(front.last(), rows.last()))
        } else {
            front.push(opened(rows.last()))
        }
    }
}

/// What is turned into physical rows.
pub trait ToRows<T> {
    fn to_rows(self) -> Vec<T>;
}

impl<T> ToRows<T> for Vec<T> {
    fn to_rows(self) -> (r: Vec<T>)
        ensures
            r == self,
    {
        self
    }
}

impl ToRows<RowRecord> for VecEntity {
    /// The rows of the entity, in order: as many as its longest vector field
    /// has elements, and none where every vector field is empty.
    fn to_rows(self) -> (r: Vec<RowRecord>)
        ensures
            r.deep_view() == flattened(self@),
    {
        let count = self.longest_len();
        let mut rows: Vec<RowRecord> = Vec::new();
        let mut i: usize = 0;
        while i < count
            invariant
                i <= count,
                count == longest(self@.vectors),
                rows.deep_view() == flattened(self@).take(i as int),
            decreases count - i,
        {
            let ghost before = rows.deep_view();
            let row = self.record(i);
            rows.push(row);
            assert(rows.deep_view() =~= before.push(row@));
            assert(rows.deep_view() =~= flattened(self@).take(i + 1));
            i += 1;
        }
        assert(flattened(self@).take(count as int) =~= flattened(self@));
        rows
    }
}

/// What is read back from physical rows.
pub trait FromRowType<T>: Sized {
    fn from_row_type(value: Vec<T>) -> Vec<Self>;
}

impl FromRowType<Vec<SqlValue>> for Vec<SqlValue> {
    /// An entity without vector fields is its own row: the rows are the
    /// entities.
    fn from_row_type(value: Vec<Vec<SqlValue>>) -> (r: Vec<Vec<SqlValue>>)
        ensures
            r == value,
    {
        value
    }
}

impl RowRecord {
    /// The entity that this row opens as the first of its group.
    pub fn open(&self) -> (e: VecEntity)
        ensures
            e@ == opened(self@),
    {
        let ghost want = opened(self@).vectors;
        let mut vectors: Vec<Vec<SqlValue>> = Vec::new();
        let mut f: usize = 0;
        while f < self.elements.len()
            invariant
                f <= self.elements.len(),
                want == opened(self@).vectors,
                vectors.deep_view() == want.take(f as int),
            decreases self.elements.len() - f,
        {
            let ghost before = vectors.deep_view();
            let mut field: Vec<SqlValue> = Vec::new();
            assert(self.elements.deep_view()[f as int] == self.elements[f as int].deep_view());
            match &self.elements[f] {
                Some(v) => {
                    let item = v.clone();
                    field.push(item);
                    assert(field.deep_view() =~= seq![item@]);
                    assert(field.deep_view() =~= want[f as int]);
                },
                None => {
                    assert(field.deep_view() =~= want[f as int]);
                },
            }
            vectors.push(field);
            assert(vectors.deep_view() =~= before.push(field.deep_view()));
            assert(vectors.deep_view() =~= want.take(f + 1));
            f += 1;
        }
        assert(want.take(self.elements.len() as int) =~= want);
        VecEntity { key: self.key.clone(), scalars: clone_values(&self.scalars), vectors }
    }
}

impl VecEntity {
    /// Takes one more row of the entity's group in.
    pub fn extend(self, row: &RowRecord) -> (e: VecEntity)
        ensures
            e@ == extended(self@, row@),
    {
        let ghost want = extended(self@, row@).vectors;
        let ghost old_vectors = self.vectors.deep_view();
        let VecEntity { key, scalars, vectors } = self;
        let mut vectors = vectors;
        let mut f: usize = 0;
        while f < vectors.len()
            invariant
                f <= vectors.len(),
                vectors.len() == old_vectors.len(),
                want.len() == old_vectors.len(),
                forall|g: int| 0 <= g < f ==> vectors.deep_view()[g] == want[g],
                forall|g: int| f <= g < vectors.len() ==> vectors.deep_view()[g] == old_vectors[g],
                forall|g: int|
                    0 <= g < want.len() ==> want[g] == appended(
                        old_vectors[g],
                        if g < row@.elements.len() {
                            row@.elements[g]
                        } else {
                            None
                        },
                    ),
            decreases vectors.len() - f,
        {
            if f < row.elements.len() {
                assert(row.elements.deep_view()[f as int] == row.elements[f as int].deep_view());
                match &row.elements[f] {
                    Some(v) => {
                        let ghost before = vectors.deep_view();
                        let item = v.clone();
                        vectors[f].push(item);
                        assert(vectors[f as int].deep_view() =~= before[f as int].push(item@));
                        assert(vectors.deep_view() =~= before.update(
                            f as int,
                            before[f as int].push(item@),
                        ));
                    },
                    None => {},
                }
            }
            f += 1;
        }
        let e = VecEntity { key, scalars, vectors };
        assert(e@.vectors =~= want);
        e
    }
}

impl FromRowType<RowRecord> for VecEntity {
    /// The entities that the rows stand for: consecutive rows of one key make
    /// one entity, whose key and scalar fields are those of the first row and
    /// whose vector fields hold the rows' elements in row order.
    fn from_row_type(value: Vec<RowRecord>) -> (r: Vec<VecEntity>)
        ensures
            r.deep_view() == regrouped(value.deep_view()),
    {
        let ghost all = value.deep_view();
        let mut result: Vec<VecEntity> = Vec::new();
        let mut current: Option<VecEntity> = None;
        let mut i: usize = 0;
        while i < value.len()
            invariant
                i <= value.len(),
                all == value.deep_view(),
                match current {
                    Some(c) => regrouped(all.take(i as int)) == result.deep_view().push(c@),
                    None => i == 0 && result.deep_view() == Seq::<EntityView>::empty(),
                },
            decreases value.len() - i,
        {
            proof {
                assert(all.take(i + 1).drop_last() =~= all.take(i as int));
                assert(all.take(i + 1).last() == value[i as int]@);
                if i == 0 {
                    assert(regrouped(all.take(0)) =~= Seq::<EntityView>::empty());
                }
            }
            let ghost before = result.deep_view();
            let row = &value[i];
            match current {
                Some(c) => {
                    assert(before.push(c@).last() == c@);
                    assert(before.push(c@).drop_last() =~= before);
                    if c.key.eq(&row.key) {
                        current = Some(c.extend(row));
                    } else {
                        result.push(c);
                        assert(result.deep_view() =~= before.push(c@));
                        current = Some(row.open());
                    }
                },
                None => {
                    current = Some(row.open());
                },
            }
            i += 1;
        }
        assert(all.take(value.len() as int) =~= all);
        match current {
            Some(c) => {
                let ghost before = result.deep_view();
                result.push(c);
                assert(result.deep_view() =~= before.push(c@));
            },
            None => {
                assert(regrouped(all) =~= Seq::<EntityView>::empty());
            },
        }
        result
    }
}

/// The entity cut down to what its first `k` rows carry: each vector field
/// keeps its first `k` elements.
pub open spec fn truncated(e: EntityView, k: int) -> EntityView {
    EntityView {
        key: e.key,
        scalars: e.scalars,
        vectors: e.vectors.map_values(
            |field: Seq<SqlValueView>|
                if k < field.len() {
                    field.take(k)
                } else {
                    field
                },
        ),
    }
}

/// Rows that are read are never lost: where there is a row there is a group,
/// and the last group has the key of the last row.
pub proof fn last_group_has_last_key(rows: Seq<RecordView>)
    requires
        rows.len() > 0,
    ensures
        regrouped(rows).len() > 0,
        regrouped(rows).last().key == rows.last().key,
    decreases rows.len(),
{
    if rows.len() > 1 {
        last_group_has_last_key(rows.drop_last());
    }
}

proof fn regroup_prefix(rows: Seq<RecordView>, e: EntityView, k: int)
    requires
        1 <= k <= longest(e.vectors),
        rows.len() > 0 ==> rows.last().key != e.key,
    ensures
        regrouped(rows + flattened(e).take(k)) == regrouped(rows).push(truncated(e, k)),
    decreases k,
{
    let run = rows + flattened(e).take(k);
    let row = record_at(e, k - 1);
    assert(run.last() == row);
    if k == 1 {
        assert(run.drop_last() =~= rows);
        if rows.len() > 0 {
            last_group_has_last_key(rows);
        }
        assert(opened(row).vectors =~= truncated(e, 1).vectors) by {
            assert forall|f: int| 0 <= f < e.vectors.len() implies opened(row).vectors[f]
                == truncated(e, 1).vectors[f] by {
                let field = e.vectors[f];
                assert(row.elements[f] == element_at(field, 0));
                if field.len() == 0 {
                    assert(Seq::<SqlValueView>::empty() =~= field);
                } else if field.len() == 1 {
                    assert(Seq::<SqlValueView>::empty().push(field[0]) =~= field);
                } else {
                    assert(Seq::<SqlValueView>::empty().push(field[0]) =~= field.take(1));
                }
            }
        }
    } else {
        assert(run.drop_last() =~= rows + flattened(e).take(k - 1));
        regroup_prefix(rows, e, k - 1);
        let front = regrouped(rows).push(truncated(e, k - 1));
        assert(front.last() == truncated(e, k - 1));
        assert(front.drop_last() =~= regrouped(rows));
        assert(extended(truncated(e, k - 1), row).vectors =~= truncated(e, k).vectors) by {
            assert forall|f: int| 0 <= f < e.vectors.len() implies extended(
                truncated(e, k - 1),
                row,
            ).vectors[f] == truncated(e, k).vectors[f] by {
                let field = e.vectors[f];
                if k - 1 < field.len() {
                    assert(field.take(k - 1).push(field[k - 1]) =~= field.take(k));
                    if k == field.len() {
                        assert(field.take(k) =~= field);
                    }
                }
            }
        }
    }
}

/// Reading back what was written: behind any rows that end in another key,
/// the rows of an entity with at least one element are regrouped into that
/// entity, with every vector field in the order and length it had.
pub proof fn regroup_after_flatten(rows: Seq<RecordView>, e: EntityView)
    requires
        longest(e.vectors) > 0,
        rows.len() > 0 ==> rows.last().key != e.key,
    ensures
        regrouped(rows + flattened(e)) == regrouped(rows).push(e),
{
    let count = longest(e.vectors) as int;
    regroup_prefix(rows, e, count);
    longest_is_maximum(e.vectors);
    assert(flattened(e).take(count) =~= flattened(e));
    assert(truncated(e, count).vectors =~= e.vectors);
}

/// The vector round trip: an entity with at least one element in some vector
/// field is read back from its own rows unchanged, whatever the lengths of
/// its vector fields; an entity whose vector fields are all empty has no
/// rows, and nothing is read back for it.
pub proof fn vector_round_trip(e: EntityView)
    ensures
        longest(e.vectors) > 0 ==> regrouped(flattened(e)) == seq![e],
        longest(e.vectors) == 0 ==> flattened(e).len() == 0 && regrouped(flattened(e)).len() == 0,
{
    if longest(e.vectors) > 0 {
        let none = Seq::<RecordView>::empty();
        regroup_after_flatten(none, e);
        assert(none + flattened(e) =~= flattened(e));
        assert(regrouped(none).push(e) =~= seq![e]);
    }
}

/// Within the rows of one entity every counter falls from row to row or
/// stays at zero, and the counter of a longest vector field falls in every
/// step: sorting by the counters, largest first, restores the row order.
pub proof fn counters_descend(e: EntityView, i: int, j: int)
    requires
        0 <= i < j < longest(e.vectors),
        forall|f: int| 0 <= f < e.vectors.len() ==> e.vectors[f].len() <= usize::MAX,
    ensures
        forall|f: int|
            0 <= f < e.vectors.len() ==> record_at(e, i).remaining[f] >= record_at(
                e,
                j,
            ).remaining[f],
        exists|f: int|
            0 <= f < e.vectors.len() && record_at(e, i).remaining[f] > record_at(e, j).remaining[f],
{
    longest_is_maximum(e.vectors);
    let top = choose|f: int| 0 <= f < e.vectors.len() && e.vectors[f].len() == longest(e.vectors);
    assert(record_at(e, i).remaining[top] > record_at(e, j).remaining[top]);
}

/// The first entity with the given key, if there is one.
pub open spec fn group_of(entities: Seq<EntityView>, key: SqlValueView) -> Option<int>
    decreases entities.len(),
{
    if entities.len() == 0 {
        None
    } else {
        match group_of(entities.drop_last(), key) {
            Some(g) => Some(g),
            None => if entities.last().key == key {
                Some(entities.len() - 1)
            } else {
                None
            },
        }
    }
}

/// The entities that rows stand for when they are grouped by key, wherever
/// in the run the rows of a key stand: a row joins the entity of its key,
/// or opens one behind the others where its key is new.
pub open spec fn grouped(rows: Seq<RecordView>) -> Seq<EntityView>
    decreases rows.len(),
{
    if rows.len() == 0 {
        Seq::empty()
    } else {
        let front = grouped(rows.drop_last());
        match group_of(front, rows.last().key) {
            Some(g) => front.update(g, extended(front[g], rows.last())),
            None => front.push(opened(rows.last())),
        }
    }
}

/// `group_of` finds the first entity of that key, and only fails where no
/// entity has it.
pub proof fn group_of_is_first(entities: Seq<EntityView>, key: SqlValueView)
    ensures
        match group_of(entities, key) {
            Some(g) => 0 <= g < entities.len() && entities[g].key == key && forall|j: int|
                0 <= j < g ==> entities[j].key != key,
            None => forall|j: int| 0 <= j < entities.len() ==> entities[j].key != key,
        },
    decreases entities.len(),
{
    if entities.len() > 0 {
        let front = entities.drop_last();
        group_of_is_first(front, key);
        assert(forall|j: int| 0 <= j < front.len() ==> front[j] == entities[j]);
    }
}

fn find_group(entities: &Vec<VecEntity>, key: &SqlValue) -> (r: Option<usize>)
    ensures
        r is Some <==> group_of(entities.deep_view(), key@) is Some,
        r matches Some(g) ==> group_of(entities.deep_view(), key@) == Some(g as int) && g
            < entities.len(),
{
    let ghost all = entities.deep_view();
    let mut g: usize = 0;
    while g < entities.len()
        invariant
            g <= entities.len(),
            all == entities.deep_view(),
            forall|j: int| 0 <= j < g ==> all[j].key != key@,
        decreases entities.len() - g,
    {
        assert(all[g as int] == entities[g as int]@);
        if entities[g].key.eq(key) {
            proof {
                group_of_is_first(all, key@);
            }
            return Some(g);
        }
        g += 1;
    }
    proof {
        group_of_is_first(all, key@);
    }
    None
}

/// The entities that the rows stand for, grouped by key, as a map from key
/// to entity would: no two entities share a key. The rows of one entity need
/// not stand together; within one key they are taken in their order of
/// arrival, and the entities stand in the order in which their keys first
/// arrive.
pub fn group_by_key(rows: &Vec<RowRecord>) -> (r: Vec<VecEntity>)
    ensures
        r.deep_view() == grouped(rows.deep_view()),
        keys_distinct(r.deep_view()),
{
    let ghost all = rows.deep_view();
    proof {
        grouping_ignores_interleaving(all, SqlValueView::Null);
    }
    let mut result: Vec<VecEntity> = Vec::new();
    assert(result.deep_view() =~= grouped(all.take(0)));
    let mut i: usize = 0;
    while i < rows.len()
        invariant
            i <= rows.len(),
            all == rows.deep_view(),
            result.deep_view() == grouped(all.take(i as int)),
        decreases rows.len() - i,
    {
        proof {
            assert(all.take(i + 1).drop_last() =~= all.take(i as int));
            assert(all.take(i + 1).last() == rows[i as int]@);
        }
        let ghost before = result.deep_view();
        let row = &rows[i];
        match find_group(&result, &row.key) {
            Some(g) => {
                let entity = result.remove(g);
                assert(entity@ == before[g as int]);
                let ghost without = result.deep_view();
                assert(without =~= before.remove(g as int));
                let joined = entity.extend(row);
                result.insert(g, joined);
                assert(result.deep_view() =~= without.insert(g as int, joined@));
                assert(result.deep_view() =~= before.update(g as int, joined@));
            },
            None => {
                let entity = row.open();
                result.push(entity);
                assert(result.deep_view() =~= before.push(entity@));
            },
        }
        i += 1;
    }
    assert(all.take(rows.len() as int) =~= all);
    result
}

proof fn group_prefix(rows: Seq<RecordView>, e: EntityView, k: int)
    requires
        1 <= k <= longest(e.vectors),
        group_of(grouped(rows), e.key) is None,
    ensures
        grouped(rows + flattened(e).take(k)) == grouped(rows).push(truncated(e, k)),
    decreases k,
{
    let run = rows + flattened(e).take(k);
    let row = record_at(e, k - 1);
    assert(run.last() == row);
    if k == 1 {
        assert(run.drop_last() =~= rows);
        assert(opened(row).vectors =~= truncated(e, 1).vectors) by {
            assert forall|f: int| 0 <= f < e.vectors.len() implies opened(row).vectors[f]
                == truncated(e, 1).vectors[f] by {
                let field = e.vectors[f];
                assert(row.elements[f] == element_at(field, 0));
                if field.len() == 0 {
                    assert(Seq::<SqlValueView>::empty() =~= field);
                } else if field.len() == 1 {
                    assert(Seq::<SqlValueView>::empty().push(field[0]) =~= field);
                } else {
                    assert(Seq::<SqlValueView>::empty().push(field[0]) =~= field.take(1));
                }
            }
        }
    } else {
        assert(run.drop_last() =~= rows + flattened(e).take(k - 1));
        group_prefix(rows, e, k - 1);
        let front = grouped(rows).push(truncated(e, k - 1));
        let at = grouped(rows).len() as int;
        group_of_is_first(grouped(rows), e.key);
        group_of_is_first(front, e.key);
        assert(front[at].key == e.key);
        assert(group_of(front, e.key) == Some(at));
        assert(extended(truncated(e, k - 1), row).vectors =~= truncated(e, k).vectors) by {
            assert forall|f: int| 0 <= f < e.vectors.len() implies extended(
                truncated(e, k - 1),
                row,
            ).vectors[f] == truncated(e, k).vectors[f] by {
                let field = e.vectors[f];
                if k - 1 < field.len() {
                    assert(field.take(k - 1).push(field[k - 1]) =~= field.take(k));
                    if k == field.len() {
                        assert(field.take(k) =~= field);
                    }
                }
            }
        }
        assert(front.update(at, truncated(e, k)) =~= grouped(rows).push(truncated(e, k)));
    }
}

/// Reading back by key what was written: behind any rows of other keys, the
/// rows of an entity with at least one element are grouped into that
/// entity, with every vector field in the order and length it had.
pub proof fn group_after_flatten(rows: Seq<RecordView>, e: EntityView)
    requires
        longest(e.vectors) > 0,
        group_of(grouped(rows), e.key) is None,
    ensures
        grouped(rows + flattened(e)) == grouped(rows).push(e),
{
    let count = longest(e.vectors) as int;
    group_prefix(rows, e, count);
    longest_is_maximum(e.vectors);
    assert(flattened(e).take(count) =~= flattened(e));
    assert(truncated(e, count).vectors =~= e.vectors);
}

/// How a row stands in a table: the key, the scalar fields, one column per
/// vector field with the row's element or the null value, then one counter
/// per vector field.
pub open spec fn record_values(r: RecordView) -> Seq<SqlValueView> {
    seq![r.key] + r.scalars + r.elements.map_values(
        |x: Option<SqlValueView>|
            match x {
                Some(v) => v,
                None => SqlValueView::Null,
            },
    ) + r.remaining.map_values(|n: usize| SqlValueView::Integer(n as int))
}

/// Whether a value is a counter: an integer that counts elements.
pub open spec fn is_counter(v: SqlValueView) -> bool {
    v matches SqlValueView::Integer(n) && 0 <= n <= usize::MAX
}

/// The row that the values of a table row stand for, given how many scalar
/// and how many vector fields the entity has. The counter of a vector field
/// says whether the row carries an element of it: what stands in the
/// field's column is the element where the counter is not zero, and is
/// passed over where it is. There is none where the number of values is
/// another, or where a counter is no count.
pub open spec fn record_of_values(values: Seq<SqlValueView>, scalars: nat, vectors: nat) -> Option<
    RecordView,
> {
    if values.len() == 1 + scalars + 2 * vectors && forall|f: int|
        0 <= f < vectors ==> is_counter(#[trigger] values[1 + scalars + vectors + f]) {
        Some(
            RecordView {
                key: values[0],
                scalars: values.subrange(1, 1 + scalars as int),
                elements: Seq::new(
                    vectors,
                    |f: int|
                        if values[1 + scalars + vectors + f]->Integer_0 > 0 {
                            Some(values[1 + scalars + f])
                        } else {
                            None
                        },
                ),
                remaining: Seq::new(
                    vectors,
                    |f: int| values[1 + scalars + vectors + f]->Integer_0 as usize,
                ),
            },
        )
    } else {
        None
    }
}

/// Whether the counters of a row agree with its elements: there is one
/// counter per vector field, and it is zero exactly where the row carries no
/// element of the field.
pub open spec fn counters_agree(r: RecordView) -> bool {
    &&& r.remaining.len() == r.elements.len()
    &&& forall|f: int| 0 <= f < r.elements.len() ==> (r.elements[f] is Some <==> r.remaining[f] > 0)
}

/// A row whose counters agree with its elements is read back from its own
/// values as it was, whatever its elements are.
pub proof fn record_round_trip(r: RecordView)
    requires
        counters_agree(r),
    ensures
        record_of_values(record_values(r), r.scalars.len(), r.elements.len()) == Some(r),
{
    let values = record_values(r);
    let scalars = r.scalars.len();
    let vectors = r.elements.len();
    assert(values.len() == 1 + scalars + 2 * vectors);
    assert forall|f: int| 0 <= f < vectors implies is_counter(
        #[trigger] values[1 + scalars + vectors + f],
    ) by {
        assert(values[1 + scalars + vectors + f] == SqlValueView::Integer(r.remaining[f] as int));
    }
    let back = record_of_values(values, scalars, vectors)->Some_0;
    assert(back.scalars =~= r.scalars);
    assert(back.elements =~= r.elements) by {
        assert forall|f: int| 0 <= f < vectors implies back.elements[f] == r.elements[f] by {
            assert(values[1 + scalars + f] == match r.elements[f] {
                Some(v) => v,
                None => SqlValueView::Null,
            });
            assert(values[1 + scalars + vectors + f] == SqlValueView::Integer(
                r.remaining[f] as int,
            ));
        }
    }
    assert(back.remaining =~= r.remaining) by {
        assert forall|f: int| 0 <= f < vectors implies back.remaining[f] == r.remaining[f] by {
            assert(values[1 + scalars + vectors + f] == SqlValueView::Integer(
                r.remaining[f] as int,
            ));
        }
    }
}

impl RowRecord {
    /// The values of the row as they stand in the table; none where a
    /// counter is too large for the database's integers.
    pub fn as_params(&self) -> (r: Option<Vec<SqlValue>>)
        ensures
            r is Some <==> forall|f: int|
                0 <= f < self.remaining.len() ==> self.remaining[f] <= i64::MAX,
            r matches Some(values) ==> values.deep_view() == record_values(self@),
    {
        let ghost want = record_values(self@);
        let mut values: Vec<SqlValue> = Vec::new();
        values.push(self.key.clone());
        let mut i: usize = 0;
        assert(values.deep_view() =~= seq![self@.key] + self@.scalars.take(0));
        while i < self.scalars.len()
            invariant
                i <= self.scalars.len(),
                values.deep_view() == seq![self@.key] + self@.scalars.take(i as int),
            decreases self.scalars.len() - i,
        {
            let ghost was = values.deep_view();
            let item = self.scalars[i].clone();
            assert(self.scalars.deep_view()[i as int] == item@);
            values.push(item);
            assert(values.deep_view() =~= was.push(item@));
            assert(values.deep_view() =~= seq![self@.key] + self@.scalars.take(i + 1));
            i += 1;
        }
        assert(self@.scalars.take(self.scalars.len() as int) =~= self@.scalars);
        let ghost head = values.deep_view();
        let ghost cells = self@.elements.map_values(
            |x: Option<SqlValueView>|
                match x {
                    Some(v) => v,
                    None => SqlValueView::Null,
                },
        );
        let mut f: usize = 0;
        assert(values.deep_view() =~= head + cells.take(0));
        while f < self.elements.len()
            invariant
                f <= self.elements.len(),
                cells == self@.elements.map_values(
                    |x: Option<SqlValueView>|
                        match x {
                            Some(v) => v,
                            None => SqlValueView::Null,
                        },
                ),
                values.deep_view() == head + cells.take(f as int),
            decreases self.elements.len() - f,
        {
            let ghost was = values.deep_view();
            assert(self.elements.deep_view()[f as int] == self.elements[f as int].deep_view());
            let item = match &self.elements[f] {
                Some(v) => v.clone(),
                None => SqlValue::Null,
            };
            values.push(item);
            assert(values.deep_view() =~= was.push(item@));
            assert(values.deep_view() =~= head + cells.take(f + 1));
            f += 1;
        }
        assert(cells.take(self.elements.len() as int) =~= cells);
        let ghost body = values.deep_view();
        let ghost counters = self@.remaining.map_values(
            |n: usize| SqlValueView::Integer(n as int),
        );
        let mut c: usize = 0;
        assert(values.deep_view() =~= body + counters.take(0));
        while c < self.remaining.len()
            invariant
                c <= self.remaining.len(),
                counters == self@.remaining.map_values(|n: usize| SqlValueView::Integer(n as int)),
                values.deep_view() == body + counters.take(c as int),
                forall|g: int| 0 <= g < c ==> self.remaining[g] <= i64::MAX,
            decreases self.remaining.len() - c,
        {
            let ghost was = values.deep_view();
            let n = self.remaining[c];
            if n as u64 > i64::MAX as u64 {
                return None;
            }
            let item = SqlValue::Integer(n as i64);
            values.push(item);
            assert(values.deep_view() =~= was.push(item@));
            assert(values.deep_view() =~= body + counters.take(c + 1));
            c += 1;
        }
        assert(counters.take(self.remaining.len() as int) =~= counters);
        assert(values.deep_view() =~= want);
        Some(values)
    }
}

impl RowRecord {
    /// The row that the values of a table row stand for, for an entity with
    /// so many scalar and so many vector fields.
    pub fn try_from_row(values: &Vec<SqlValue>, scalars: usize, vectors: usize) -> (r: Option<
        RowRecord,
    >)
        ensures
            r.deep_view() == record_of_values(values.deep_view(), scalars as nat, vectors as nat),
    {
        let ghost all = values.deep_view();
        if values.len() as u128 != 1u128 + scalars as u128 + 2 * (vectors as u128) {
            return None;
        }
        let ghost want = RecordView {
            key: all[0],
            scalars: all.subrange(1, 1 + scalars as int),
            elements: Seq::new(
                vectors as nat,
                |f: int|
                    if all[1 + scalars + vectors + f]->Integer_0 > 0 {
                        Some(all[1 + scalars + f])
                    } else {
                        None
                    },
            ),
            remaining: Seq::new(
                vectors as nat,
                |f: int| all[1 + scalars + vectors + f]->Integer_0 as usize,
            ),
        };
        let mut remaining: Vec<usize> = Vec::new();
        let mut c: usize = 0;
        while c < vectors
            invariant
                c <= vectors,
                values.len() == 1 + scalars + 2 * vectors,
                all == values.deep_view(),
                want.remaining == Seq::new(
                    vectors as nat,
                    |f: int| all[1 + scalars + vectors + f]->Integer_0 as usize,
                ),
                remaining@ == want.remaining.take(c as int),
                forall|f: int| 0 <= f < c ==> is_counter(#[trigger] all[1 + scalars + vectors + f]),
            decreases vectors - c,
        {
            assert(all[1 + scalars + vectors + c] == values[1 + scalars + vectors + c]@);
            match &values[1 + scalars + vectors + c] {
                SqlValue::Integer(n) => {
                    if *n < 0 || *n as u64 > usize::MAX as u64 {
                        assert(!is_counter(all[1 + scalars + vectors + c]));
                        return None;
                    }
                    let ghost was = remaining@;
                    remaining.push(*n as usize);
                    assert(all[1 + scalars + vectors + c] == SqlValueView::Integer(*n as int));
                    assert(want.remaining[c as int] == *n as usize);
                    assert(remaining@ =~= was.push(want.remaining[c as int]));
                    assert(remaining@ =~= want.remaining.take(c + 1));
                },
                _ => {
                    assert(!is_counter(all[1 + scalars + vectors + c]));
                    return None;
                },
            }
            c += 1;
        }
        assert(want.remaining.take(vectors as int) =~= want.remaining);
        let mut kept: Vec<SqlValue> = Vec::new();
        let mut i: usize = 0;
        assert(kept.deep_view() =~= want.scalars.take(0));
        while i < scalars
            invariant
                i <= scalars,
                values.len() == 1 + scalars + 2 * vectors,
                all == values.deep_view(),
                want.scalars == all.subrange(1, 1 + scalars as int),
                kept.deep_view() == want.scalars.take(i as int),
            decreases scalars - i,
        {
            let ghost was = kept.deep_view();
            let item = values[1 + i].clone();
            assert(all[1 + i] == item@);
            kept.push(item);
            assert(kept.deep_view() =~= was.push(item@));
            assert(kept.deep_view() =~= want.scalars.take(i + 1));
            i += 1;
        }
        assert(want.scalars.take(scalars as int) =~= want.scalars);
        let mut elements: Vec<Option<SqlValue>> = Vec::new();
        let mut f: usize = 0;
        assert(elements.deep_view() =~= want.elements.take(0));
        while f < vectors
            invariant
                f <= vectors,
                values.len() == 1 + scalars + 2 * vectors,
                all == values.deep_view(),
                want.elements == Seq::new(
                    vectors as nat,
                    |f: int|
                        if all[1 + scalars + vectors + f]->Integer_0 > 0 {
                            Some(all[1 + scalars + f])
                        } else {
                            None
                        },
                ),
                remaining.len() == vectors,
                forall|g: int|
                    0 <= g < vectors ==> is_counter(#[trigger] all[1 + scalars + vectors + g])
                        && remaining[g] == all[1 + scalars + vectors + g]->Integer_0,
                elements.deep_view() == want.elements.take(f as int),
            decreases vectors - f,
        {
            let ghost was = elements.deep_view();
            assert(all[1 + scalars + f] == values[1 + scalars + f]@);
            assert(is_counter(all[1 + scalars + vectors + f]));
            let item = if remaining[f] > 0 {
                Some(values[1 + scalars + f].clone())
            } else {
                None
            };
            elements.push(item);
            assert(elements.deep_view() =~= was.push(item.deep_view()));
            assert(elements.deep_view() =~= want.elements.take(f + 1));
            f += 1;
        }
        assert(want.elements.take(vectors as int) =~= want.elements);
        assert(all[0] == values[0]@);
        Some(RowRecord { key: values[0].clone(), scalars: kept, elements, remaining })
    }
}

/// The table rows of the first `n` row records, see [`table_rows`].
pub open spec fn table_rows_upto(records: Seq<RecordView>, n: nat) -> Seq<Seq<SqlValueView>>
    decreases n,
{
    if n == 0 || n > records.len() {
        Seq::empty()
    } else {
        table_rows_upto(records, (n - 1) as nat).push(record_values(records[n - 1]))
    }
}

/// The rows of an entity as they stand in its table, in order.
pub open spec fn table_rows(e: EntityView) -> Seq<Seq<SqlValueView>> {
    table_rows_upto(flattened(e), flattened(e).len())
}

/// The row records that the first `n` table rows stand for; none where one
/// of them is no row of such an entity.
pub open spec fn records_upto(
    rows: Seq<Seq<SqlValueView>>,
    scalars: nat,
    vectors: nat,
    n: nat,
) -> Option<Seq<RecordView>>
    decreases n,
{
    if n == 0 || n > rows.len() {
        Some(Seq::empty())
    } else {
        match (
            records_upto(rows, scalars, vectors, (n - 1) as nat),
            record_of_values(rows[n - 1], scalars, vectors),
        ) {
            (Some(front), Some(record)) => Some(front.push(record)),
            _ => None,
        }
    }
}

/// The entities that table rows stand for, for entities with so many scalar
/// and so many vector fields: the rows are read as row records and
/// regrouped. There are none where a row is no row of such an entity.
pub open spec fn entities_of(rows: Seq<Seq<SqlValueView>>, scalars: nat, vectors: nat) -> Option<
    Seq<EntityView>,
> {
    match records_upto(rows, scalars, vectors, rows.len()) {
        Some(records) => Some(regrouped(records)),
        None => None,
    }
}

impl VecEntity {
    /// The rows of the entity as they stand in its table; none where a
    /// vector field is too long for the database to count.
    pub fn to_table_rows(self) -> (r: Option<Vec<Vec<SqlValue>>>)
        ensures
            r is Some <==> forall|f: int|
                0 <= f < self.vectors.len() ==> self.vectors[f].len() <= i64::MAX,
            r matches Some(rows) ==> rows.deep_view() == table_rows(self@),
    {
        let ghost view = self@;
        let records: Vec<RowRecord> = self.to_rows();
        let ghost all = records.deep_view();
        let mut rows: Vec<Vec<SqlValue>> = Vec::new();
        assert(rows.deep_view() =~= table_rows_upto(all, 0));
        proof {
            longest_is_maximum(view.vectors);
            assert forall|f: int| 0 <= f < self.vectors.len() implies view.vectors[f].len()
                == self.vectors[f].len() by {
                assert(view.vectors[f] == self.vectors[f].deep_view());
            }
        }
        let mut i: usize = 0;
        while i < records.len()
            invariant
                i <= records.len(),
                all == records.deep_view(),
                all == flattened(view),
                view == self@,
                rows.deep_view() == table_rows_upto(all, i as nat),
                forall|f: int|
                    0 <= f < self.vectors.len() ==> view.vectors[f].len() == self.vectors[f].len(),
                view.vectors.len() == self.vectors.len(),
                forall|f: int| 0 <= f < view.vectors.len() ==> view.vectors[f].len() <= all.len(),
                i > 0 ==> forall|f: int|
                    0 <= f < self.vectors.len() ==> self.vectors[f].len() <= i64::MAX,
            decreases records.len() - i,
        {
            let ghost before = rows.deep_view();
            assert(all[i as int] == records[i as int]@);
            match records[i].as_params() {
                Some(values) => {
                    rows.push(values);
                    assert(rows.deep_view() =~= before.push(values.deep_view()));
                    assert forall|f: int| 0 <= f < self.vectors.len() implies self.vectors[f].len()
                        <= i64::MAX by {
                        if i == 0 {
                            assert(all[0] == record_at(view, 0));
                            assert(records[0].remaining[f] == remaining_at(view.vectors[f], 0));
                        }
                    }
                },
                None => {
                    proof {
                        let f = choose|f: int|
                            0 <= f < records[i as int].remaining.len() && records[i as int].remaining[f]
                                > i64::MAX;
                        assert(all[i as int] == record_at(view, i as int));
                        assert(record_at(view, i as int).remaining[f] == remaining_at(
                            view.vectors[f],
                            i as int,
                        ));
                        assert(view.vectors[f] == self.vectors[f].deep_view());
                    }
                    return None;
                },
            }
            i += 1;
        }
        assert forall|f: int| 0 <= f < self.vectors.len() implies self.vectors[f].len()
            <= i64::MAX by {
            if i == 0 {
                assert(view.vectors[f].len() <= all.len());
            }
        }
        Some(rows)
    }

    /// The entities that table rows stand for, for entities with so many
    /// scalar and so many vector fields, where the rows of each entity stand
    /// together; none where a row is no row of such an entity.
    pub fn from_table_rows(rows: &Vec<Vec<SqlValue>>, scalars: usize, vectors: usize) -> (r: Option<
        Vec<VecEntity>,
    >)
        ensures
            r.deep_view() == entities_of(rows.deep_view(), scalars as nat, vectors as nat),
    {
        match read_records(rows, scalars, vectors) {
            Some(records) => Some(VecEntity::from_row_type(records)),
            None => None,
        }
    }
}

/// The row records that table rows stand for, for entities with so many
/// scalar and so many vector fields; none where a row is no row of such an
/// entity.
pub fn read_records(rows: &Vec<Vec<SqlValue>>, scalars: usize, vectors: usize) -> (r: Option<
    Vec<RowRecord>,
>)
    ensures
        r.deep_view() == records_upto(
            rows.deep_view(),
            scalars as nat,
            vectors as nat,
            rows.len() as nat,
        ),
{
    let ghost all = rows.deep_view();
    let mut records: Vec<RowRecord> = Vec::new();
    assert(records.deep_view() =~= Seq::<RecordView>::empty());
    let mut i: usize = 0;
    while i < rows.len()
        invariant
            i <= rows.len(),
            all == rows.deep_view(),
            records_upto(all, scalars as nat, vectors as nat, i as nat) == Some(
                records.deep_view(),
            ),
        decreases rows.len() - i,
    {
        let ghost before = records.deep_view();
        assert(all[i as int] == rows[i as int].deep_view());
        match RowRecord::try_from_row(&rows[i], scalars, vectors) {
            Some(record) => {
                records.push(record);
                assert(records.deep_view() =~= before.push(record@));
            },
            None => {
                proof {
                    unreadable_row_is_final(all, scalars as nat, vectors as nat, (i + 1) as nat);
                }
                return None;
            },
        }
        i += 1;
    }
    Some(records)
}

/// Once a row cannot be read, the rows cannot be read.
pub proof fn unreadable_row_is_final(
    rows: Seq<Seq<SqlValueView>>,
    scalars: nat,
    vectors: nat,
    n: nat,
)
    requires
        n <= rows.len(),
        records_upto(rows, scalars, vectors, n) is None,
    ensures
        records_upto(rows, scalars, vectors, rows.len()) is None,
    decreases rows.len() - n,
{
    if n < rows.len() {
        assert(records_upto(rows, scalars, vectors, n + 1) is None);
        unreadable_row_is_final(rows, scalars, vectors, n + 1);
    }
}

/// The vector round trip through a table: an entity with at least one
/// element is read back unchanged from the rows that it is stored as,
/// whatever the lengths of its vector fields and whatever its elements are:
/// the counters say where each field ends.
pub proof fn table_round_trip(e: EntityView)
    requires
        longest(e.vectors) > 0,
        forall|f: int| 0 <= f < e.vectors.len() ==> e.vectors[f].len() <= usize::MAX,
    ensures
        entities_of(table_rows(e), e.scalars.len(), e.vectors.len()) == Some(seq![e]),
{
    let records = flattened(e);
    records_read_back(e, records.len());
    assert(records.take(records.len() as int) =~= records);
    assert(table_rows_upto(records, records.len()).len() == records.len()) by {
        table_rows_count(records, records.len());
    }
    vector_round_trip(e);
}

proof fn table_rows_count(records: Seq<RecordView>, n: nat)
    requires
        n <= records.len(),
    ensures
        table_rows_upto(records, n).len() == n,
        forall|i: int| 0 <= i < n ==> table_rows_upto(records, n)[i] == record_values(records[i]),
    decreases n,
{
    if n > 0 {
        table_rows_count(records, (n - 1) as nat);
    }
}

/// The counters of every row of an entity agree with its elements.
pub proof fn flattened_counters_agree(e: EntityView, i: int)
    requires
        forall|f: int| 0 <= f < e.vectors.len() ==> e.vectors[f].len() <= usize::MAX,
    ensures
        counters_agree(record_at(e, i)),
{
    let record = record_at(e, i);
    assert forall|f: int| 0 <= f < record.elements.len() implies (record.elements[f] is Some
        <==> record.remaining[f] > 0) by {
        assert(record.elements[f] == element_at(e.vectors[f], i));
        assert(record.remaining[f] == remaining_at(e.vectors[f], i));
    }
}

proof fn records_read_back(e: EntityView, n: nat)
    requires
        n <= flattened(e).len(),
        forall|f: int| 0 <= f < e.vectors.len() ==> e.vectors[f].len() <= usize::MAX,
    ensures
        records_upto(
            table_rows_upto(flattened(e), flattened(e).len()),
            e.scalars.len(),
            e.vectors.len(),
            n,
        ) == Some(flattened(e).take(n as int)),
    decreases n,
{
    let records = flattened(e);
    let rows = table_rows_upto(records, records.len());
    table_rows_count(records, records.len());
    if n == 0 {
        assert(records.take(0) =~= Seq::<RecordView>::empty());
    } else {
        records_read_back(e, (n - 1) as nat);
        let record = records[n - 1];
        assert(record == record_at(e, n - 1));
        flattened_counters_agree(e, n - 1);
        record_round_trip(record);
        assert(rows[n - 1] == record_values(record));
        assert(records.take(n - 1).push(record) =~= records.take(n as int));
    }
}

/// The first place at which two lists of counters differ; their length
/// where they do not.
pub open spec fn first_difference(a: Seq<usize>, b: Seq<usize>) -> int
    decreases a.len(),
{
    if a.len() == 0 || b.len() == 0 {
        0
    } else if a[0] != b[0] {
        0
    } else {
        1 + first_difference(a.drop_first(), b.drop_first())
    }
}

proof fn first_difference_is_first(a: Seq<usize>, b: Seq<usize>)
    requires
        a.len() == b.len(),
    ensures
        0 <= first_difference(a, b) <= a.len(),
        forall|g: int| 0 <= g < first_difference(a, b) ==> a[g] == b[g],
        first_difference(a, b) < a.len() ==> a[first_difference(a, b)] != b[first_difference(
            a,
            b,
        )],
    decreases a.len(),
{
    if a.len() > 0 && a[0] == b[0] {
        first_difference_is_first(a.drop_first(), b.drop_first());
        assert forall|g: int| 0 <= g < first_difference(a, b) implies a[g] == b[g] by {
            if g > 0 {
                assert(a.drop_first()[g - 1] == a[g]);
                assert(b.drop_first()[g - 1] == b[g]);
            }
        }
        let d = first_difference(a.drop_first(), b.drop_first());
        if d < a.drop_first().len() {
            assert(a.drop_first()[d] == a[d + 1]);
            assert(b.drop_first()[d] == b[d + 1]);
        }
    }
}

/// Sorting by the counters restores the order of an entity's rows: of two
/// rows of one entity the earlier has the greater counter at the first place
/// where their counters differ, and there is such a place. So the rows come
/// back in order when the counters are the sort keys, largest first.
pub proof fn counters_order_rows(e: EntityView, i: int, j: int)
    requires
        0 <= i < j < longest(e.vectors),
        forall|f: int| 0 <= f < e.vectors.len() ==> e.vectors[f].len() <= usize::MAX,
    ensures
        first_difference(record_at(e, i).remaining, record_at(e, j).remaining) < e.vectors.len(),
        record_at(e, i).remaining[first_difference(
            record_at(e, i).remaining,
            record_at(e, j).remaining,
        )] > record_at(e, j).remaining[first_difference(
            record_at(e, i).remaining,
            record_at(e, j).remaining,
        )],
{
    let a = record_at(e, i).remaining;
    let b = record_at(e, j).remaining;
    counters_descend(e, i, j);
    first_difference_is_first(a, b);
    let f = first_difference(a, b);
    let top = choose|f: int| 0 <= f < e.vectors.len() && a[f] > b[f];
    if f >= e.vectors.len() {
        assert(a[top] == b[top]);
    }
}

/// The rows that have the key `key`, in order.
pub open spec fn rows_of_key(rows: Seq<RecordView>, key: SqlValueView) -> Seq<RecordView>
    decreases rows.len(),
{
    if rows.len() == 0 {
        Seq::empty()
    } else if rows.last().key == key {
        rows_of_key(rows.drop_last(), key).push(rows.last())
    } else {
        rows_of_key(rows.drop_last(), key)
    }
}

/// Whether no two entities share a key.
pub open spec fn keys_distinct(entities: Seq<EntityView>) -> bool {
    forall|i: int, j: int| 0 <= i < j < entities.len() ==> entities[i].key != entities[j].key
}

proof fn rows_of_key_have_the_key(rows: Seq<RecordView>, key: SqlValueView)
    ensures
        forall|i: int|
            0 <= i < rows_of_key(rows, key).len() ==> (#[trigger] rows_of_key(rows, key)[i]).key
                == key,
    decreases rows.len(),
{
    if rows.len() > 0 {
        rows_of_key_have_the_key(rows.drop_last(), key);
    }
}

proof fn one_key_is_one_group(rows: Seq<RecordView>, key: SqlValueView)
    requires
        rows.len() > 0,
        forall|i: int| 0 <= i < rows.len() ==> (#[trigger] rows[i]).key == key,
    ensures
        regrouped(rows).len() == 1,
        regrouped(rows)[0].key == key,
    decreases rows.len(),
{
    let front = rows.drop_last();
    assert(rows.last() == rows[rows.len() - 1]);
    if rows.len() > 1 {
        assert forall|i: int| 0 <= i < front.len() implies (#[trigger] front[i]).key == key by {
            assert(front[i] == rows[i]);
        }
        one_key_is_one_group(front, key);
        let groups = regrouped(front);
        assert(groups.last() == groups[0]);
        assert(regrouped(rows) == groups.drop_last().push(extended(groups.last(), rows.last())));
    } else {
        assert(front =~= Seq::<RecordView>::empty());
        assert(regrouped(front).len() == 0);
        assert(regrouped(rows) == regrouped(front).push(opened(rows.last())));
    }
}

/// Grouping by key does not depend on how the rows of different entities
/// are interleaved: no two entities share a key, there is an entity for a
/// key exactly where there is a row of that key, and it is the entity that
/// the rows of that key, taken alone and in their order, regroup into.
pub proof fn grouping_ignores_interleaving(rows: Seq<RecordView>, key: SqlValueView)
    ensures
        keys_distinct(grouped(rows)),
        match group_of(grouped(rows), key) {
            Some(g) => rows_of_key(rows, key).len() > 0 && regrouped(rows_of_key(rows, key))
                == seq![grouped(rows)[g]],
            None => rows_of_key(rows, key).len() == 0,
        },
    decreases rows.len(),
{
    if rows.len() > 0 {
        let front = rows.drop_last();
        let last = rows.last();
        let before = grouped(front);
        let after = grouped(rows);
        grouping_ignores_interleaving(front, key);
        grouping_ignores_interleaving(front, last.key);
        group_of_is_first(before, last.key);
        group_of_is_first(before, key);
        group_of_is_first(after, key);
        let own = rows_of_key(front, key);
        rows_of_key_have_the_key(front, key);
        match group_of(before, last.key) {
            Some(at) => {
                assert(after == before.update(at, extended(before[at], last)));
                assert(forall|i: int|
                    0 <= i < after.len() ==> (#[trigger] after[i]).key == before[i].key);
                if last.key == key {
                    assert(after[at].key == key);
                    assert forall|j: int| 0 <= j < at implies after[j].key != key by {
                        assert(after[j].key == before[j].key);
                    }
                    assert(group_of(after, key) == Some(at));
                    one_key_is_one_group(own, key);
                    let all = own.push(last);
                    assert(all.drop_last() =~= own);
                    assert(regrouped(all) =~= seq![extended(before[at], last)]);
                } else {
                    match group_of(before, key) {
                        Some(g) => {
                            assert(after[g] == before[g]);
                            assert(group_of(after, key) == Some(g));
                        },
                        None => {},
                    }
                }
            },
            None => {
                assert(after == before.push(opened(last)));
                assert(forall|i: int| 0 <= i < before.len() ==> after[i] == before[i]);
                if last.key == key {
                    assert(after[before.len() as int].key == key);
                    assert(group_of(after, key) == Some(before.len() as int));
                    let all = own.push(last);
                    assert(all.drop_last() =~= own);
                    assert(regrouped(own) =~= Seq::<EntityView>::empty());
                    assert(regrouped(all) =~= seq![opened(last)]);
                } else {
                    match group_of(before, key) {
                        Some(g) => {
                            assert(after[g] == before[g]);
                            assert(group_of(after, key) == Some(g));
                        },
                        None => {},
                    }
                }
            },
        }
    }
}

/// Whether a row stands before another in the default order: at the first
/// counter in which the two differ, it has the greater.
pub open spec fn stands_before(a: RecordView, b: RecordView) -> bool {
    let d = first_difference(a.remaining, b.remaining);
    d < a.remaining.len() && d < b.remaining.len() && a.remaining[d] > b.remaining[d]
}

/// Whether rows stand in the default order: sorted by their counters, the
/// largest first.
pub open spec fn in_default_order(rows: Seq<RecordView>) -> bool {
    forall|i: int, j: int| 0 <= i < j < rows.len() ==> stands_before(rows[i], rows[j])
}

proof fn first_difference_is_symmetric(a: Seq<usize>, b: Seq<usize>)
    ensures
        first_difference(a, b) == first_difference(b, a),
    decreases a.len(),
{
    if a.len() > 0 && b.len() > 0 && a[0] == b[0] {
        first_difference_is_symmetric(a.drop_first(), b.drop_first());
    }
}

proof fn places_reach_their_index(places: Seq<int>, i: int)
    requires
        0 <= i < places.len(),
        forall|k: int| 0 <= k < places.len() ==> 0 <= #[trigger] places[k] < places.len(),
        forall|k: int, l: int| 0 <= k < l < places.len() ==> places[k] < places[l],
    ensures
        places[i] >= i,
    decreases i,
{
    if i > 0 {
        places_reach_their_index(places, i - 1);
    }
}

proof fn places_keep_to_their_index(places: Seq<int>, i: int)
    requires
        0 <= i < places.len(),
        forall|k: int| 0 <= k < places.len() ==> 0 <= #[trigger] places[k] < places.len(),
        forall|k: int, l: int| 0 <= k < l < places.len() ==> places[k] < places[l],
    ensures
        places[i] <= i,
    decreases places.len() - i,
{
    if i + 1 < places.len() {
        places_keep_to_their_index(places, i + 1);
    }
}

/// The default order makes reading independent of how the rows of an
/// entity were stored. Let `rows` be the rows of `e` in any order, each row
/// once (`places` says which row stands where). Where they stand in the
/// default order, they stand in the order of the entity, and are regrouped
/// into it: each vector field comes back with its elements in order,
/// whatever the lengths of the fields.
pub proof fn default_order_restores_rows(e: EntityView, rows: Seq<RecordView>, places: Seq<int>)
    requires
        forall|f: int| 0 <= f < e.vectors.len() ==> e.vectors[f].len() <= usize::MAX,
        rows.len() == flattened(e).len(),
        places.len() == rows.len(),
        forall|i: int|
            0 <= i < rows.len() ==> 0 <= #[trigger] places[i] < rows.len() && rows[i] == flattened(
                e,
            )[places[i]],
        forall|i: int, j: int| 0 <= i < j < rows.len() ==> places[i] != places[j],
        in_default_order(rows),
    ensures
        rows == flattened(e),
        longest(e.vectors) > 0 ==> regrouped(rows) == seq![e],
{
    let stored = flattened(e);
    assert forall|i: int, j: int| 0 <= i < j < places.len() implies places[i] < places[j] by {
        if places[i] > places[j] {
            counters_order_rows(e, places[j], places[i]);
            assert(stored[places[j]] == record_at(e, places[j]));
            assert(stored[places[i]] == record_at(e, places[i]));
            assert(stands_before(rows[i], rows[j]));
            first_difference_is_symmetric(rows[i].remaining, rows[j].remaining);
        }
    }
    assert forall|i: int| 0 <= i < rows.len() implies rows[i] == stored[i] by {
        places_reach_their_index(places, i);
        places_keep_to_their_index(places, i);
    }
    assert(rows =~= stored);
    vector_round_trip(e);
}

} // verus!
