//! Named tile templates for map generation.

use vstd::prelude::*;
use crate::tile::Tile;

verus! {

/// Tile templates by name. A name holds at most one template: registering a
/// name again replaces its template.
#[derive(Debug)]
pub struct TileCatalog<T: Tile> {
    entries: Vec<(String, T)>,
}

/// `i` is the first entry with the given name.
pub open spec fn is_first_entry<T>(entries: Seq<(String, T)>, name: Seq<char>, i: int) -> bool {
    &&& 0 <= i < entries.len()
    &&& entries[i].0@ == name
    &&& forall|j: int| 0 <= j < i ==> (#[trigger] entries[j]).0@ != name
}

/// The templates that a list of entries stands for: each name with the
/// template of its first entry.
pub open spec fn templates<T: Tile>(entries: Seq<(String, T)>) -> Map<Seq<char>, T::V> {
    Map::new(
        |name: Seq<char>| exists|i: int| is_first_entry(entries, name, i),
        |name: Seq<char>| entries[choose|i: int| is_first_entry(entries, name, i)].1@,
    )
}

impl<T: Tile> View for TileCatalog<T> {
    type V = Map<Seq<char>, T::V>;

    closed spec fn view(&self) -> Map<Seq<char>, T::V> {
        templates::<T>(self.entries@)
    }
}

impl<T: Tile> TileCatalog<T> {
    /// An empty catalog.
    pub fn new() -> (c: Self)
        ensures
            c@ == Map::<Seq<char>, T::V>::empty(),
    {
        let c = TileCatalog { entries: Vec::new() };
        assert(c@ =~= Map::<Seq<char>, T::V>::empty());
        c
    }

    /// Position of the first entry named `name`.
    fn position(&self, name: &String) -> (r: Option<usize>)
        ensures
            match r {
                Some(i) => is_first_entry(self.entries@, name@, i as int),
                None => forall|i: int|
                    0 <= i < self.entries@.len() ==> (#[trigger] self.entries@[i]).0@ != name@,
            },
    {
        let mut i: usize = 0;
        while i < self.entries.len()
            invariant
                i <= self.entries@.len(),
                forall|k: int| 0 <= k < i ==> (#[trigger] self.entries@[k]).0@ != name@,
            decreases self.entries.len() - i,
        {
            if self.entries[i].0 == *name {
                return Some(i);
            }
            i = i + 1;
        }
        None
    }

    /// Registers `tile` under `name`, replacing the template of that name.
    pub fn insert(&mut self, name: String, tile: T)
        ensures
            final(self)@ == old(self)@.insert(name@, tile@),
    {
        let ghost before = self.entries@;
        let ghost key = name@;
        let ghost value = tile@;
        let found = self.position(&name);
        match found {
            Some(i) => {
                self.entries[i] = (name, tile);
            },
            None => {
                self.entries.push((name, tile));
            },
        }
        proof {
            let after = self.entries@;
            let at = match found {
                Some(i) => i as int,
                None => before.len() as int,
            };
            assert(is_first_entry(after, key, at));
            assert forall|n: Seq<char>, i: int| n != key implies (is_first_entry(before, n, i)
                <==> is_first_entry(after, n, i)) by {
                if is_first_entry(before, n, i) {
                    assert(after[i] == before[i]);
                    assert forall|j: int| 0 <= j < i implies (#[trigger] after[j]).0@ != n by {
                        if j != at {
                            assert(after[j] == before[j]);
                        }
                    }
                }
                if is_first_entry(after, n, i) {
                    assert(i != at);
                    assert(after[i] == before[i]);
                    assert forall|j: int| 0 <= j < i implies (#[trigger] before[j]).0@ != n by {
                        if j != at {
                            assert(after[j] == before[j]);
                        } else {
                            assert(before[j].0@ == key);
                        }
                    }
                }
            }
            let expected = templates::<T>(before).insert(key, value);
            assert forall|n: Seq<char>|
                templates::<T>(after).contains_key(n) == expected.contains_key(n) by {
                if n != key {
                    if templates::<T>(after).contains_key(n) {
                        let i = choose|i: int| is_first_entry(after, n, i);
                        assert(is_first_entry(before, n, i));
                    }
                    if templates::<T>(before).contains_key(n) {
                        let i = choose|i: int| is_first_entry(before, n, i);
                        assert(is_first_entry(after, n, i));
                    }
                }
            }
            assert forall|n: Seq<char>| templates::<T>(after).contains_key(n) implies templates::<
                T,
            >(after)[n] == expected[n] by {
                let i = choose|i: int| is_first_entry(after, n, i);
                if n == key {
                    lemma_first_entry_unique(after, n, i, at);
                } else {
                    assert(is_first_entry(before, n, i));
                    let i0 = choose|i0: int| is_first_entry(before, n, i0);
                    lemma_first_entry_unique(before, n, i, i0);
                    assert(after[i] == before[i]);
                }
            }
            assert(templates::<T>(after) =~= expected);
        }
    }

    /// The template registered under `name`, if any.
    pub fn get(&self, name: &str) -> (r: Option<&T>)
        ensures
            match r {
                Some(tile) => self@.contains_key(name@) && tile@ == self@[name@],
                None => !self@.contains_key(name@),
            },
    {
        let owned = name.to_owned();
        match self.position(&owned) {
            Some(i) => {
                proof {
                    let k = choose|k: int| is_first_entry(self.entries@, name@, k);
                    lemma_first_entry_unique(self.entries@, name@, k, i as int);
                }
                Some(&self.entries[i].1)
            },
            None => None,
        }
    }
}

/// A name has one first entry.
pub proof fn lemma_first_entry_unique<T>(entries: Seq<(String, T)>, name: Seq<char>, i: int, j: int)
    requires
        is_first_entry(entries, name, i),
        is_first_entry(entries, name, j),
    ensures
        i == j,
{
    if i < j {
        assert(entries[i].0@ != name);
    }
    if j < i {
        assert(entries[j].0@ != name);
    }
}

} // verus!
