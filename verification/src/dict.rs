//! A map from names to values, kept as a list of entries.

use vstd::prelude::*;

use crate::text;

verus! {

/// A map from names to values. No order of the entries can be observed.
#[derive(Debug, Clone)]
pub struct Dict<V> {
    entries: Vec<(String, V)>,
}

/// The value of the first entry of that name.
closed spec fn first<V>(entries: Seq<(String, V)>, name: Seq<char>) -> Option<V>
    decreases entries.len(),
{
    if entries.len() == 0 {
        None
    } else if entries.first().0@ == name {
        Some(entries.first().1)
    } else {
        first(entries.drop_first(), name)
    }
}

impl<V> View for Dict<V> {
    type V = Map<Seq<char>, V>;

    closed spec fn view(&self) -> Map<Seq<char>, V> {
        Map::new(
            |name: Seq<char>| first(self.entries@, name) is Some,
            |name: Seq<char>| first(self.entries@, name)->0,
        )
    }
}

/// A borrowed value as a value.
pub open spec fn lent<V>(r: Option<&V>) -> Option<V> {
    match r {
        Some(v) => Some(*v),
        None => None,
    }
}

/// An entry that is reached without meeting its name before is the first one.
proof fn lemma_first_at<V>(entries: Seq<(String, V)>, name: Seq<char>, i: int)
    requires
        0 <= i <= entries.len(),
        forall|j: int| 0 <= j < i ==> entries[j].0@ != name,
    ensures
        first(entries, name) == first(entries.skip(i), name),
    decreases i,
{
    if i == 0 {
        assert(entries.skip(0) =~= entries);
    } else {
        lemma_first_at(entries.drop_first(), name, i - 1);
        assert(entries.drop_first().skip(i - 1) =~= entries.skip(i));
    }
}

/// Removing an entry leaves the first entries of other names.
proof fn lemma_first_remove<V>(entries: Seq<(String, V)>, name: Seq<char>, i: int)
    requires
        0 <= i < entries.len(),
        entries[i].0@ != name,
    ensures
        first(entries.remove(i), name) == first(entries, name),
    decreases i,
{
    if i == 0 {
        assert(entries.remove(0) =~= entries.drop_first());
    } else {
        lemma_first_remove(entries.drop_first(), name, i - 1);
        assert(entries.remove(i).drop_first() =~= entries.drop_first().remove(i - 1));
    }
}

/// Setting an entry leaves the first entries of other names.
proof fn lemma_first_update<V>(entries: Seq<(String, V)>, name: Seq<char>, i: int, e: (String, V))
    requires
        0 <= i < entries.len(),
        entries[i].0@ != name,
        e.0@ != name,
    ensures
        first(entries.update(i, e), name) == first(entries, name),
    decreases i,
{
    if i == 0 {
        assert(entries.update(0, e).drop_first() =~= entries.drop_first());
    } else {
        lemma_first_update(entries.drop_first(), name, i - 1, e);
        assert(entries.update(i, e).drop_first() =~= entries.drop_first().update(i - 1, e));
    }
}

/// Appending an entry gives its name a value where it had none and changes no
/// other name.
proof fn lemma_first_push<V>(entries: Seq<(String, V)>, name: Seq<char>, e: (String, V))
    ensures
        first(entries.push(e), name) == match first(entries, name) {
            Some(v) => Some(v),
            None => if e.0@ == name {
                Some(e.1)
            } else {
                None
            },
        },
    decreases entries.len(),
{
    reveal_with_fuel(first, 2);
    if entries.len() == 0 {
        assert(entries.push(e).drop_first() =~= entries);
    } else {
        lemma_first_push(entries.drop_first(), name, e);
        assert(entries.push(e).drop_first() =~= entries.drop_first().push(e));
    }
}

impl<V> Dict<V> {
    /// The map without entries.
    pub fn new() -> (d: Dict<V>)
        ensures
            d@ == Map::<Seq<char>, V>::empty(),
    {
        let d = Dict { entries: Vec::new() };
        assert(d@ =~= Map::<Seq<char>, V>::empty());
        d
    }

    /// The index of the first entry of that name, or the number of entries.
    fn position(&self, name: &str) -> (i: usize)
        ensures
            i <= self.entries.len(),
            forall|j: int| 0 <= j < i ==> self.entries@[j].0@ != name@,
            i < self.entries.len() ==> self.entries@[i as int].0@ == name@,
            self@.get(name@) == if i < self.entries.len() {
                Some(self.entries@[i as int].1)
            } else {
                None
            },
    {
        let mut i: usize = 0;
        while i < self.entries.len() && !text::same(self.entries[i].0.as_str(), name)
            invariant
                i <= self.entries.len(),
                forall|j: int| 0 <= j < i ==> self.entries@[j].0@ != name@,
            decreases self.entries.len() - i,
        {
            i += 1;
        }
        proof {
            lemma_first_at(self.entries@, name@, i as int);
        }
        i
    }

    /// The value of that name, where there is one.
    pub fn get(&self, name: &str) -> (r: Option<&V>)
        ensures
            lent(r) == self@.get(name@),
    {
        let i = self.position(name);
        if i < self.entries.len() {
            Some(&self.entries[i].1)
        } else {
            None
        }
    }

    /// Gives the name a value, in place of the one it had.
    pub fn insert(&mut self, name: String, value: V)
        ensures
            final(self)@ == old(self)@.insert(name@, value),
    {
        let i = self.position(name.as_str());
        let ghost before = self.entries@;
        let ghost e = (name, value);
        if i < self.entries.len() {
            self.entries[i] = (name, value);
            proof {
                lemma_first_at(self.entries@, e.0@, i as int);
                assert forall|k: Seq<char>| k != e.0@ implies first(self.entries@, k) == first(
                    before,
                    k,
                ) by {
                    lemma_first_update(before, k, i as int, e);
                }
            }
        } else {
            self.entries.push((name, value));
            proof {
                lemma_first_push(before, e.0@, e);
                assert forall|k: Seq<char>| k != e.0@ implies first(self.entries@, k) == first(
                    before,
                    k,
                ) by {
                    lemma_first_push(before, k, e);
                }
            }
        }
        assert(self@ =~= old(self)@.insert(e.0@, e.1));
    }

    /// Takes the name out of the map, with the value it had.
    pub fn remove(&mut self, name: &str) -> (r: Option<V>)
        ensures
            r == old(self)@.get(name@),
            final(self)@ == old(self)@.remove(name@),
    {
        let mut taken: Option<V> = None;
        loop
            invariant
                forall|k: Seq<char>|
                    k != name@ ==> first(self.entries@, k) == first(old(self).entries@, k),
                match taken {
                    Some(v) => old(self)@.get(name@) == Some(v),
                    None => self@.get(name@) == old(self)@.get(name@),
                },
            decreases self.entries.len(),
        {
            let i = self.position(name);
            if i == self.entries.len() {
                proof {
                    assert(self@.get(name@) is None);
                    assert(first(self.entries@, name@) is None) by {
                        if first(self.entries@, name@) is Some {
                            assert(self@.contains_key(name@));
                        }
                    }
                }
                assert(self@ =~= old(self)@.remove(name@));
                return taken;
            }
            proof {
                assert forall|k: Seq<char>| k != name@ implies first(
                    self.entries@.remove(i as int),
                    k,
                ) == first(self.entries@, k) by {
                    lemma_first_remove(self.entries@, k, i as int);
                }
            }
            let (_, value) = self.entries.remove(i);
            if taken.is_none() {
                taken = Some(value);
            }
        }
    }

    /// Takes every name out of the map.
    pub fn clear(&mut self)
        ensures
            final(self)@ == Map::<Seq<char>, V>::empty(),
    {
        self.entries.clear();
        assert(self@ =~= Map::<Seq<char>, V>::empty());
    }
}

/// What each name of an optional map of display names is shown as.
pub open spec fn display_names(labels: Option<&Dict<String>>) -> Map<Seq<char>, Seq<char>> {
    match labels {
        Some(d) => d@.map_values(|s: String| s@),
        None => Map::empty(),
    }
}

/// The display name of a name: the one the map gives it, else the name itself.
pub open spec fn shown(labels: Map<Seq<char>, Seq<char>>, name: Seq<char>) -> Seq<char> {
    if labels.contains_key(name) {
        labels[name]
    } else {
        name
    }
}

/// The display name of a name.
pub fn display_name<'a>(labels: Option<&'a Dict<String>>, name: &'a str) -> (r: &'a str)
    ensures
        r@ == shown(display_names(labels), name@),
{
    match labels {
        Some(d) => match d.get(name) {
            Some(s) => s.as_str(),
            None => name,
        },
        None => name,
    }
}

} // verus!
