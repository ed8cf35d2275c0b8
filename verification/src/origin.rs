//! Origins, and maps that are keyed by them.

use vstd::prelude::*;

verus! {

/// The host and port that identify a server for the per-origin transport state.
#[derive(Debug, PartialEq, Eq, Hash)]
pub struct Origin {
    /// Host name or address.
    pub host: String,
    /// TCP port of the origin.
    pub port: u16,
}

impl View for Origin {
    type V = (Seq<char>, u16);

    open spec fn view(&self) -> (Seq<char>, u16) {
        (self.host@, self.port)
    }
}

impl Clone for Origin {
    fn clone(&self) -> (r: Self)
        ensures
            r == *self,
    {
        Origin { host: self.host.clone(), port: self.port }
    }
}

impl Origin {
    /// Whether the two name the same host and port.
    pub fn same(&self, other: &Origin) -> (r: bool)
        ensures
            r == (self@ == other@),
    {
        self.port == other.port && self.host == other.host
    }
}

/// A map from origins to values. No origin has two values. Its view is the map
/// from the views of the origins to those of the values.
#[derive(Debug)]
pub struct OriginMap<V> {
    entries: Vec<(Origin, V)>,
}

/// Whether `key` is the key of the entry `i`.
spec fn is_key<V>(entries: Seq<(Origin, V)>, key: (Seq<char>, u16), i: int) -> bool {
    0 <= i < entries.len() && entries[i].0@ == key
}

/// Whether no key stands in two entries.
spec fn unique_keys<V>(entries: Seq<(Origin, V)>) -> bool {
    forall|i: int, j: int|
        0 <= i < j < entries.len() ==> (#[trigger] entries[i]).0@ != (#[trigger] entries[j]).0@
}

/// The map that a list of entries stands for.
spec fn entry_map<V: View>(entries: Seq<(Origin, V)>) -> Map<(Seq<char>, u16), V::V> {
    Map::new(
        |key: (Seq<char>, u16)| exists|i: int| is_key(entries, key, i),
        |key: (Seq<char>, u16)| entries[choose|i: int| is_key(entries, key, i)].1@,
    )
}

/// A key has the value of the entry that it stands in.
proof fn lemma_entry<V: View>(entries: Seq<(Origin, V)>, i: int)
    requires
        unique_keys(entries),
        0 <= i < entries.len(),
    ensures
        entry_map(entries).contains_key(entries[i].0@),
        entry_map(entries)[entries[i].0@] == entries[i].1@,
{
    let key = entries[i].0@;
    assert(is_key(entries, key, i));
    let j = choose|j: int| is_key(entries, key, j);
    assert(is_key(entries, key, j));
}

/// What two lists of entries stand for is the same for a key that stands in
/// both with the same value, or in neither.
proof fn lemma_same_entry<V: View>(
    a: Seq<(Origin, V)>,
    b: Seq<(Origin, V)>,
    key: (Seq<char>, u16),
    i: int,
    j: int,
)
    requires
        unique_keys(a),
        unique_keys(b),
        is_key(a, key, i),
        is_key(b, key, j),
        a[i].1@ == b[j].1@,
    ensures
        entry_map(a).contains_key(key),
        entry_map(b).contains_key(key),
        entry_map(a)[key] == entry_map(b)[key],
{
    lemma_entry(a, i);
    lemma_entry(b, j);
}

impl<V: View> View for OriginMap<V> {
    type V = Map<(Seq<char>, u16), V::V>;

    closed spec fn view(&self) -> Map<(Seq<char>, u16), V::V> {
        entry_map(self.entries@)
    }
}

impl<V> OriginMap<V> {
    #[verifier::type_invariant]
    spec fn no_duplicates(self) -> bool {
        unique_keys(self.entries@)
    }
}

impl<V: View> OriginMap<V> {
    /// A map without entries.
    pub fn new() -> (r: OriginMap<V>)
        ensures
            r@ == Map::<(Seq<char>, u16), V::V>::empty(),
    {
        let r = OriginMap { entries: Vec::new() };
        assert(r@ =~= Map::<(Seq<char>, u16), V::V>::empty());
        r
    }

    /// The index of the entry of `origin`.
    fn find(&self, origin: &Origin) -> (r: Option<usize>)
        ensures
            match r {
                Some(i) => is_key(self.entries@, origin@, i as int),
                None => forall|i: int| !is_key(self.entries@, origin@, i),
            },
    {
        let mut i: usize = 0;
        while i < self.entries.len()
            invariant
                i <= self.entries.len(),
                forall|j: int| 0 <= j < i ==> !is_key(self.entries@, origin@, j),
            decreases self.entries.len() - i,
        {
            if self.entries[i].0.same(origin) {
                return Some(i);
            }
            i = i + 1;
        }
        None
    }

    /// The value of `origin`.
    pub fn get(&self, origin: &Origin) -> (r: Option<&V>)
        ensures
            match r {
                Some(value) => self@.contains_key(origin@) && value@ == self@[origin@],
                None => !self@.contains_key(origin@),
            },
    {
        proof {
            use_type_invariant(&*self);
        }
        match self.find(origin) {
            Some(i) => {
                proof {
                    lemma_entry(self.entries@, i as int);
                }
                Some(&self.entries[i].1)
            },
            None => None,
        }
    }

    /// Whether `origin` has a value.
    pub fn contains_key(&self, origin: &Origin) -> (r: bool)
        ensures
            r == self@.contains_key(origin@),
    {
        self.get(origin).is_some()
    }

    /// Takes the value of `origin` out.
    pub fn remove(&mut self, origin: &Origin)
        ensures
            final(self)@ == old(self)@.remove(origin@),
    {
        proof {
            use_type_invariant(&*self);
        }
        let ghost before = self.entries@;
        match self.find(origin) {
            Some(i) => {
                let mut entries: Vec<(Origin, V)> = Vec::new();
                std::mem::swap(&mut entries, &mut self.entries);
                entries.remove(i);
                let ghost after = entries@;
                proof {
                    assert(after == before.remove(i as int));
                    assert forall|key: (Seq<char>, u16)|
                        #[trigger] entry_map(after).contains_key(key) <==> entry_map(
                            before,
                        ).contains_key(key) && key != origin@ by {
                        if entry_map(after).contains_key(key) {
                            let j = choose|j: int| is_key(after, key, j);
                            let k = if j < i { j } else { j + 1 };
                            assert(after[j] == before[k]);
                            assert(is_key(before, key, k));
                        }
                        if entry_map(before).contains_key(key) && key != origin@ {
                            let k = choose|k: int| is_key(before, key, k);
                            let j = if k < i { k } else { k - 1 };
                            assert(after[j] == before[k]);
                            assert(is_key(after, key, j));
                        }
                    }
                    assert forall|key: (Seq<char>, u16)|
                        entry_map(after).contains_key(key) implies #[trigger] entry_map(after)[key]
                        == entry_map(before)[key] by {
                        let j = choose|j: int| is_key(after, key, j);
                        let k = if j < i { j } else { j + 1 };
                        assert(after[j] == before[k]);
                        lemma_same_entry(after, before, key, j, k);
                    }
                    assert(entry_map(after) =~= entry_map(before).remove(origin@));
                }
                self.entries = entries;
            },
            None => {
                assert(entry_map(before) =~= entry_map(before).remove(origin@));
            },
        }
    }

    /// Makes `value` the value of `origin`.
    pub fn insert(&mut self, origin: Origin, value: V)
        ensures
            final(self)@ == old(self)@.insert(origin@, value@),
    {
        self.remove(&origin);
        proof {
            use_type_invariant(&*self);
        }
        let ghost before = self.entries@;
        let mut entries: Vec<(Origin, V)> = Vec::new();
        std::mem::swap(&mut entries, &mut self.entries);
        entries.push((origin, value));
        let ghost after = entries@;
        proof {
            assert forall|i: int| 0 <= i < before.len() implies (#[trigger] before[i]).0@
                != origin@ by {
                lemma_entry(before, i);
            }
            assert forall|key: (Seq<char>, u16)|
                #[trigger] entry_map(after).contains_key(key) <==> entry_map(before).contains_key(
                    key,
                ) || key == origin@ by {
                if entry_map(after).contains_key(key) && key != origin@ {
                    let j = choose|j: int| is_key(after, key, j);
                    assert(is_key(before, key, j));
                }
                if entry_map(before).contains_key(key) {
                    let k = choose|k: int| is_key(before, key, k);
                    assert(is_key(after, key, k));
                }
                assert(is_key(after, origin@, before.len() as int));
            }
            assert forall|key: (Seq<char>, u16)|
                entry_map(after).contains_key(key) implies #[trigger] entry_map(after)[key]
                == entry_map(before).insert(origin@, value@)[key] by {
                if key == origin@ {
                    lemma_entry(after, before.len() as int);
                } else {
                    let k = choose|k: int| is_key(before, key, k);
                    lemma_same_entry(after, before, key, k, k);
                }
            }
            assert(entry_map(after) =~= entry_map(before).insert(origin@, value@));
            assert(entry_map(before).insert(origin@, value@) =~= old(self)@.insert(
                origin@,
                value@,
            ));
        }
        self.entries = entries;
    }
}

/// What is said of an origin is its host and its port.
pub proof fn law_view_of_an_origin(origin: Origin, other: Origin)
    ensures
        origin@ == other@ <==> origin.host@ == other.host@ && origin.port == other.port,
{
}

} // verus!
