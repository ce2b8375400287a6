//! Finite maps from names to values.

use crate::value::Value;
use vstd::prelude::*;

verus! {

/// A finite map from names to values, kept as a list of bindings in which
/// the last binding of a name is the one that counts.
#[derive(Debug)]
pub struct Table {
    entries: Vec<(String, Value)>,
}

/// The map that a list of bindings stands for.
pub open spec fn bindings(entries: Seq<(String, Value)>) -> Map<Seq<char>, Value>
    decreases entries.len(),
{
    if entries.len() == 0 {
        Map::empty()
    } else {
        bindings(entries.drop_last()).insert(entries.last().0@, entries.last().1)
    }
}

/// No binding after position `after` is for `name`.
pub open spec fn unbound_after(entries: Seq<(String, Value)>, name: Seq<char>, after: int) -> bool {
    forall|j: int| after < j < entries.len() ==> (#[trigger] entries[j]).0@ != name
}

/// A name with no binding at all is not in the map.
proof fn lemma_unbound(entries: Seq<(String, Value)>, name: Seq<char>)
    requires
        unbound_after(entries, name, -1),
    ensures
        !bindings(entries).contains_key(name),
    decreases entries.len(),
{
    if entries.len() > 0 {
        assert(entries.last() == entries[entries.len() - 1]);
        assert forall|j: int| -1 < j < entries.drop_last().len() implies (
        #[trigger] entries.drop_last()[j]).0@ != name by {
            assert(entries.drop_last()[j] == entries[j]);
        }
        lemma_unbound(entries.drop_last(), name);
    }
}

/// The last binding of a name gives its value in the map.
proof fn lemma_bound(entries: Seq<(String, Value)>, name: Seq<char>, at: int)
    requires
        0 <= at < entries.len(),
        entries[at].0@ == name,
        unbound_after(entries, name, at),
    ensures
        bindings(entries).contains_key(name),
        bindings(entries)[name] == entries[at].1,
    decreases entries.len(),
{
    if at < entries.len() - 1 {
        assert(entries.last() == entries[entries.len() - 1]);
        assert forall|j: int| at < j < entries.drop_last().len() implies (
        #[trigger] entries.drop_last()[j]).0@ != name by {
            assert(entries.drop_last()[j] == entries[j]);
        }
        lemma_bound(entries.drop_last(), name, at);
    }
}

/// Replacing the last binding of a name rebinds the name in the map.
proof fn lemma_rebound(entries: Seq<(String, Value)>, at: int, entry: (String, Value))
    requires
        0 <= at < entries.len(),
        entries[at].0@ == entry.0@,
        unbound_after(entries, entry.0@, at),
    ensures
        bindings(entries.update(at, entry)) == bindings(entries).insert(entry.0@, entry.1),
    decreases entries.len(),
{
    let updated = entries.update(at, entry);
    if at == entries.len() - 1 {
        assert(updated.drop_last() =~= entries.drop_last());
        assert(bindings(updated) =~= bindings(entries).insert(entry.0@, entry.1));
    } else {
        assert(entries.last() == entries[entries.len() - 1]);
        assert(updated.drop_last() =~= entries.drop_last().update(at, entry));
        assert forall|j: int| at < j < entries.drop_last().len() implies (
        #[trigger] entries.drop_last()[j]).0@ != entry.0@ by {
            assert(entries.drop_last()[j] == entries[j]);
        }
        lemma_rebound(entries.drop_last(), at, entry);
        assert(bindings(updated) =~= bindings(entries).insert(entry.0@, entry.1));
    }
}

impl View for Table {
    type V = Map<Seq<char>, Value>;

    closed spec fn view(&self) -> Map<Seq<char>, Value> {
        bindings(self.entries@)
    }
}

impl Table {
    /// The empty map.
    pub fn new() -> (table: Self)
        ensures
            table@ == Map::<Seq<char>, Value>::empty(),
    {
        Table { entries: Vec::new() }
    }

    /// The position of the last binding of `name`, if it has one.
    fn position(&self, name: &String) -> (at: Option<usize>)
        ensures
            match at {
                Some(i) => i < self.entries@.len() && self.entries@[i as int].0@ == name@
                    && unbound_after(self.entries@, name@, i as int),
                None => unbound_after(self.entries@, name@, -1),
            },
    {
        let mut i: usize = self.entries.len();
        while i > 0
            invariant
                i <= self.entries@.len(),
                unbound_after(self.entries@, name@, i as int - 1),
            decreases i,
        {
            i -= 1;
            if self.entries[i].0 == *name {
                return Some(i);
            }
        }
        None
    }

    /// The value bound to `name`, if any.
    pub fn get(&self, name: &String) -> (value: Option<Value>)
        ensures
            value == if self@.contains_key(name@) {
                Some(self@[name@])
            } else {
                None
            },
    {
        match self.position(name) {
            Some(i) => {
                proof {
                    lemma_bound(self.entries@, name@, i as int);
                }
                Some(self.entries[i].1)
            },
            None => {
                proof {
                    lemma_unbound(self.entries@, name@);
                }
                None
            },
        }
    }

    /// Mutable access to the value bound to `name`, if any: what is written
    /// through it is what the name is bound to afterwards.
    pub fn get_mut(&mut self, name: &String) -> (value: Option<&mut Value>)
        ensures
            match value {
                Some(value) => old(self)@.contains_key(name@) && *value == old(self)@[name@]
                    && final(self)@ == old(self)@.insert(name@, *final(value)),
                None => !old(self)@.contains_key(name@) && final(self)@ == old(self)@,
            },
    {
        match self.position(name) {
            Some(i) => {
                proof {
                    let entries = self.entries@;
                    lemma_bound(entries, name@, i as int);
                    assert forall|value: Value| #[trigger]
                        bindings(entries.update(i as int, (entries[i as int].0, value)))
                            == bindings(entries).insert(name@, value) by {
                        lemma_rebound(entries, i as int, (entries[i as int].0, value));
                    }
                }
                Some(&mut self.entries[i].1)
            },
            None => {
                proof {
                    lemma_unbound(self.entries@, name@);
                }
                None
            },
        }
    }

    /// Whether `name` is bound.
    pub fn contains_key(&self, name: &String) -> (bound: bool)
        ensures
            bound == self@.contains_key(name@),
    {
        self.get(name).is_some()
    }

    /// Binds `name` to `value`, in place of any earlier binding of it.
    pub fn insert(&mut self, name: String, value: Value)
        ensures
            final(self)@ == old(self)@.insert(name@, value),
    {
        match self.position(&name) {
            Some(i) => {
                proof {
                    lemma_rebound(self.entries@, i as int, (name, value));
                }
                self.entries.set(i, (name, value));
            },
            None => {
                self.entries.push((name, value));
                assert(self.entries@.drop_last() =~= old(self).entries@);
            },
        }
    }
}

} // verus!
