//! The name pool: composed column names are allocated once and live as long
//! as the process does.

use crate::text::same_text;
use vstd::prelude::*;

verus! {

/// What the pool holds after `name` has been interned into `values`: the
/// pool itself where the name is already in it, else the pool with the name
/// appended.
pub open spec fn interned(values: Seq<Seq<char>>, name: Seq<char>) -> Seq<Seq<char>> {
    if values.contains(name) {
        values
    } else {
        values.push(name)
    }
}

/// What the pool holds after each of `names` has been interned in turn.
pub open spec fn interned_all(values: Seq<Seq<char>>, names: Seq<Seq<char>>) -> Seq<Seq<char>>
    decreases names.len(),
{
    if names.len() == 0 {
        values
    } else {
        interned(interned_all(values, names.drop_last()), names.last())
    }
}

/// The characters of all parts, one part after the other.
pub open spec fn joined(parts: Seq<Seq<char>>) -> Seq<char>
    decreases parts.len(),
{
    if parts.len() == 0 {
        Seq::empty()
    } else {
        joined(parts.drop_last()) + parts.last()
    }
}

/// Whether no name occurs twice.
pub open spec fn distinct(values: Seq<Seq<char>>) -> bool {
    forall|i: int, j: int| 0 <= i < j < values.len() ==> values[i] != values[j]
}

/// A pool of names that hands out `'static` handles. A name is allocated the
/// first time it is stored and never freed: the pool only grows.
pub struct StaticStringStorage {
    values: Vec<&'static str>,
}

/// Gives `value` the lifetime of the process through `String::leak`: the
/// handle returned holds the characters of `value`.
#[verifier::external_body]
fn retain(value: String) -> (r: &'static str)
    ensures
        r@ == value@,
{
    value.leak()
}

impl View for StaticStringStorage {
    type V = Seq<Seq<char>>;

    /// The names held, oldest first.
    closed spec fn view(&self) -> Seq<Seq<char>> {
        self.values.deep_view()
    }
}

impl StaticStringStorage {
    #[verifier::type_invariant]
    spec fn no_name_twice(&self) -> bool {
        distinct(self.values.deep_view())
    }

    /// An empty pool.
    pub fn new() -> (r: Self)
        ensures
            r@ == Seq::<Seq<char>>::empty(),
    {
        let r = Self { values: Vec::new() };
        assert(r.values.deep_view() =~= Seq::<Seq<char>>::empty());
        r
    }

    /// How many names the pool holds; no name is held twice.
    pub fn len(&self) -> (n: usize)
        ensures
            n == self@.len(),
            distinct(self@),
    {
        proof {
            use_type_invariant(self);
        }
        self.values.len()
    }

    /// The handle of `value`, if the pool holds it.
    pub fn get(&self, value: &str) -> (r: Option<&'static str>)
        ensures
            r is Some <==> self@.contains(value@),
            r matches Some(handle) ==> handle@ == value@,
    {
        let mut i: usize = 0;
        while i < self.values.len()
            invariant
                i <= self.values.len(),
                forall|j: int| 0 <= j < i ==> self.values.deep_view()[j] != value@,
            decreases self.values.len() - i,
        {
            if same_text(self.values[i], value) {
                assert(self.values.deep_view()[i as int] == value@);
                return Some(self.values[i]);
            }
            i += 1;
        }
        None
    }

    /// Interns `value`: hands back the handle the pool already holds for these
    /// characters, or allocates one.
    pub fn store_heaped(&mut self, value: String) -> (r: &'static str)
        ensures
            r@ == value@,
            final(self)@ == interned(old(self)@, value@),
    {
        proof {
            use_type_invariant(&*self);
        }
        match self.get(value.as_str()) {
            Some(handle) => handle,
            None => {
                let ghost before = self.values.deep_view();
                let handle = retain(value);
                let mut taken = StaticStringStorage { values: Vec::new() };
                assert(taken.values.deep_view() =~= Seq::<Seq<char>>::empty());
                core::mem::swap(self, &mut taken);
                let mut values = taken.values;
                values.push(handle);
                assert(values.deep_view() =~= before.push(handle@));
                *self = StaticStringStorage { values };
                handle
            },
        }
    }

    /// Interns the name made of `parts`, one after the other.
    pub fn store(&mut self, parts: &[&'static str]) -> (r: &'static str)
        ensures
            r@ == joined(parts.deep_view()),
            final(self)@ == interned(old(self)@, joined(parts.deep_view())),
    {
        let mut value = String::new();
        let mut i: usize = 0;
        while i < parts.len()
            invariant
                i <= parts.len(),
                value@ == joined(parts.deep_view().take(i as int)),
            decreases parts.len() - i,
        {
            value.push_str(parts[i]);
            proof {
                let next = parts.deep_view().take(i + 1);
                assert(next.drop_last() =~= parts.deep_view().take(i as int));
                assert(next.last() == parts[i as int]@);
            }
            i += 1;
        }
        assert(parts.deep_view().take(parts.len() as int) =~= parts.deep_view());
        self.store_heaped(value)
    }
}

/// Interning is stable: a second interning of the same name changes nothing,
/// the name is in the pool afterwards, and no name that was in the pool
/// before has moved.
pub proof fn interning_is_stable(values: Seq<Seq<char>>, name: Seq<char>)
    ensures
        interned(interned(values, name), name) == interned(values, name),
        interned(values, name).contains(name),
        values.is_prefix_of(interned(values, name)),
        distinct(values) ==> distinct(interned(values, name)),
{
    let after = interned(values, name);
    if !values.contains(name) {
        assert(after[values.len() as int] == name);
    }
}

/// Two parts joined are the two parts one after the other.
pub proof fn joined_two(a: Seq<char>, b: Seq<char>)
    ensures
        joined(seq![a, b]) == a + b,
{
    assert(seq![a, b].drop_last() =~= seq![a]);
    assert(seq![a].drop_last() =~= Seq::<Seq<char>>::empty());
    assert(joined(Seq::<Seq<char>>::empty()) =~= Seq::<char>::empty());
    assert(joined(seq![a]) =~= joined(seq![a].drop_last()) + a);
    assert(joined(seq![a]) =~= a);
}

/// Three parts joined are the three parts one after the other.
pub proof fn joined_three(a: Seq<char>, b: Seq<char>, c: Seq<char>)
    ensures
        joined(seq![a, b, c]) == a + b + c,
{
    let all = seq![a, b, c];
    assert(all.drop_last() =~= seq![a, b]);
    assert(seq![a, b].drop_last() =~= seq![a]);
    assert(seq![a].drop_last() =~= Seq::<Seq<char>>::empty());
    assert(joined(Seq::<Seq<char>>::empty()) =~= Seq::<char>::empty());
    assert(joined(seq![a]) =~= joined(seq![a].drop_last()) + a);
    assert(joined(seq![a]) =~= a);
    assert(joined(seq![a, b]) =~= a + b);
}

/// Interning names in two runs is interning them in one.
pub proof fn interned_all_in_two_runs(
    values: Seq<Seq<char>>,
    first: Seq<Seq<char>>,
    second: Seq<Seq<char>>,
)
    ensures
        interned_all(values, first + second) == interned_all(interned_all(values, first), second),
    decreases second.len(),
{
    if second.len() == 0 {
        assert(first + second =~= first);
    } else {
        assert((first + second).drop_last() =~= first + second.drop_last());
        assert((first + second).last() == second.last());
        interned_all_in_two_runs(values, first, second.drop_last());
    }
}

/// Interning one name is interning the list of that name alone.
pub proof fn interned_all_of_one(values: Seq<Seq<char>>, name: Seq<char>)
    ensures
        interned_all(values, seq![name]) == interned(values, name),
{
    assert(seq![name].drop_last() =~= Seq::<Seq<char>>::empty());
    assert(interned_all(values, Seq::<Seq<char>>::empty()) == values);
}

/// The pool only grows: whatever is interned, the names that were in the
/// pool stay where they were, and no name comes to stand in it twice.
pub proof fn interning_only_grows(values: Seq<Seq<char>>, names: Seq<Seq<char>>)
    ensures
        values.is_prefix_of(interned_all(values, names)),
        distinct(values) ==> distinct(interned_all(values, names)),
    decreases names.len(),
{
    if names.len() > 0 {
        interning_only_grows(values, names.drop_last());
        interning_is_stable(interned_all(values, names.drop_last()), names.last());
    }
}

/// Whatever was interned is in the pool.
pub proof fn interned_names_are_held(values: Seq<Seq<char>>, names: Seq<Seq<char>>)
    ensures
        forall|i: int|
            0 <= i < names.len() ==> interned_all(values, names).contains(#[trigger] names[i]),
    decreases names.len(),
{
    if names.len() > 0 {
        let front = names.drop_last();
        let before = interned_all(values, front);
        interned_names_are_held(values, front);
        interning_is_stable(before, names.last());
        let after = interned_all(values, names);
        assert forall|i: int| 0 <= i < names.len() implies after.contains(#[trigger] names[i]) by {
            if i < front.len() {
                assert(front[i] == names[i]);
                assert(before.contains(front[i]));
                let at = choose|at: int| 0 <= at < before.len() && before[at] == front[i];
                assert(after[at] == names[i]);
            }
        }
    }
}

} // verus!
