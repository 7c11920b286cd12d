//! A table from names to values in which a later entry for a name replaces an
//! earlier one.
use vstd::prelude::*;

verus! {

/// Entries in the order in which they were inserted. The table's view is the
/// map that results from inserting them one after another.
pub struct NameTable<V> {
    pub entries: Vec<(String, V)>,
}

/// The map that inserting `entries` in order produces.
pub open spec fn map_of<V: DeepView>(entries: Seq<(String, V)>) -> Map<Seq<char>, V::V>
    decreases entries.len(),
{
    if entries.len() == 0 {
        Map::empty()
    } else {
        map_of(entries.drop_last()).insert(entries.last().0@, entries.last().1.deep_view())
    }
}

/// An entry that no later entry overrides decides the lookup of its name.
pub proof fn lemma_map_of_last_match<V: DeepView>(entries: Seq<(String, V)>, i: int, name: Seq<char>)
    requires
        0 <= i < entries.len(),
        entries[i].0@ == name,
        forall|j: int| i < j < entries.len() ==> entries[j].0@ != name,
    ensures
        map_of(entries).contains_key(name),
        map_of(entries)[name] == entries[i].1.deep_view(),
    decreases entries.len(),
{
    if i < entries.len() - 1 {
        lemma_map_of_last_match(entries.drop_last(), i, name);
    }
}

/// A name that no entry carries is absent from the map.
pub proof fn lemma_map_of_no_match<V: DeepView>(entries: Seq<(String, V)>, name: Seq<char>)
    requires
        forall|j: int| 0 <= j < entries.len() ==> entries[j].0@ != name,
    ensures
        !map_of(entries).contains_key(name),
    decreases entries.len(),
{
    if entries.len() > 0 {
        lemma_map_of_no_match(entries.drop_last(), name);
    }
}

/// Tables whose entries agree in names and in value views, position by position, have the same map.
pub proof fn lemma_map_of_same_views<V: DeepView>(a: Seq<(String, V)>, b: Seq<(String, V)>)
    requires
        a.len() == b.len(),
        forall|j: int|
            0 <= j < a.len() ==> a[j].0@ == b[j].0@ && a[j].1.deep_view() == b[j].1.deep_view(),
    ensures
        map_of(a) == map_of(b),
    decreases a.len(),
{
    if a.len() > 0 {
        lemma_map_of_same_views(a.drop_last(), b.drop_last());
    }
}

impl<V: DeepView> View for NameTable<V> {
    type V = Map<Seq<char>, V::V>;

    open spec fn view(&self) -> Map<Seq<char>, V::V> {
        map_of(self.entries@)
    }
}

impl<V: DeepView> NameTable<V> {
    /// The empty table.
    pub fn new() -> (r: Self)
        ensures
            r@ == Map::<Seq<char>, V::V>::empty(),
    {
        NameTable { entries: Vec::new() }
    }

    /// Binds `name` to `value`, replacing what the name was bound to.
    pub fn insert(&mut self, name: String, value: V)
        ensures
            final(self)@ == old(self)@.insert(name@, value.deep_view()),
    {
        self.entries.push((name, value));
        assert(self.entries@.drop_last() =~= old(self).entries@);
    }

    /// The value that `name` is bound to, if any.
    pub fn get(&self, name: &String) -> (r: Option<&V>)
        ensures
            r is Some <==> self@.contains_key(name@),
            r is Some ==> r->0.deep_view() == self@[name@],
    {
        let mut i: usize = self.entries.len();
        while i > 0
            invariant
                0 <= i <= self.entries.len(),
                forall|j: int| i <= j < self.entries.len() ==> self.entries[j].0@ != name@,
            decreases i,
        {
            i -= 1;
            if self.entries[i].0 == *name {
                proof {
                    lemma_map_of_last_match(self.entries@, i as int, name@);
                }
                return Some(&self.entries[i].1);
            }
        }
        proof {
            lemma_map_of_no_match(self.entries@, name@);
        }
        None
    }

    /// Whether `name` is bound.
    pub fn contains(&self, name: &String) -> (b: bool)
        ensures
            b == self@.contains_key(name@),
    {
        self.get(name).is_some()
    }
}

} // verus!
