//! A small map whose keys are compared by what they stand for.

use vstd::prelude::*;

verus! {

/// A key that stands for something.
pub trait Keyed {
    /// What it stands for.
    type Id;

    /// What it stands for.
    spec fn id(&self) -> Self::Id;

    /// Whether the two stand for the same.
    fn same(&self, other: &Self) -> (same: bool)
        ensures
            same == (self.id() == other.id()),
    ;
}

/// A map with few entries.
#[derive(Debug)]
pub struct KeyedMap<K, V> {
    entries: Vec<(K, V)>,
}

/// Some entry stands for `id`.
pub open spec fn holds_id<K: Keyed, V>(entries: Seq<(K, V)>, id: K::Id) -> bool {
    exists|k: int| 0 <= k < entries.len() && (#[trigger] entries[k]).0.id() == id
}

/// No two entries stand for the same.
pub open spec fn ids_distinct<K: Keyed, V>(entries: Seq<(K, V)>) -> bool {
    forall|a: int, b: int|
        0 <= a < b < entries.len() ==> (#[trigger] entries[a]).0.id() != (
        #[trigger] entries[b]).0.id()
}

/// The map that `entries` spell out.
pub open spec fn map_of<K: Keyed, V>(entries: Seq<(K, V)>) -> Map<K::Id, V>
    decreases entries.len(),
{
    if entries.len() == 0 {
        Map::empty()
    } else {
        map_of(entries.drop_last()).insert(entries.last().0.id(), entries.last().1)
    }
}

/// What the map has is what some entry stands for.
pub proof fn lemma_map_of<K: Keyed, V>(entries: Seq<(K, V)>)
    requires
        ids_distinct(entries),
    ensures
        forall|id: K::Id| #[trigger] map_of(entries).dom().contains(id) <==> holds_id(entries, id),
        forall|k: int|
            0 <= k < entries.len() ==> map_of(entries)[(#[trigger] entries[k]).0.id()]
                == entries[k].1,
        map_of(entries).dom().finite(),
        map_of(entries).dom().len() == entries.len(),
    decreases entries.len(),
{
    if entries.len() > 0 {
        let rest = entries.drop_last();
        assert(ids_distinct(rest)) by {
            assert forall|a: int, b: int| 0 <= a < b < rest.len() implies (
            #[trigger] rest[a]).0.id() != (#[trigger] rest[b]).0.id() by {
                assert(entries[a].0.id() != entries[b].0.id());
            }
        }
        lemma_map_of(rest);
        let last = entries.last();
        assert(!holds_id(rest, last.0.id())) by {
            if holds_id(rest, last.0.id()) {
                let k = choose|k: int|
                    0 <= k < rest.len() && (#[trigger] rest[k]).0.id() == last.0.id();
                assert(entries[k].0.id() != entries[entries.len() - 1].0.id());
            }
        }
        assert forall|id: K::Id| #[trigger] map_of(entries).dom().contains(id) <==> holds_id(
            entries,
            id,
        ) by {
            if holds_id(rest, id) {
                let k = choose|k: int| 0 <= k < rest.len() && (#[trigger] rest[k]).0.id() == id;
                assert(entries[k].0.id() == id);
            }
            if id == last.0.id() {
                assert(entries[entries.len() - 1].0.id() == id);
            }
            if holds_id(entries, id) {
                let k = choose|k: int|
                    0 <= k < entries.len() && (#[trigger] entries[k]).0.id() == id;
                if k < rest.len() {
                    assert(rest[k].0.id() == id);
                }
            }
        }
        assert forall|k: int| 0 <= k < entries.len() implies map_of(entries)[(
        #[trigger] entries[k]).0.id()] == entries[k].1 by {
            if k < rest.len() {
                assert(rest[k] == entries[k]);
                assert(entries[k].0.id() != entries[entries.len() - 1].0.id());
            }
        }
        assert(map_of(entries).dom() =~= map_of(rest).dom().insert(last.0.id()));
    } else {
        assert(map_of(entries).dom() =~= Set::<K::Id>::empty());
    }
}

proof fn lemma_map_removed<K: Keyed, V>(entries: Seq<(K, V)>, at: int)
    requires
        ids_distinct(entries),
        0 <= at < entries.len(),
    ensures
        ids_distinct(entries.remove(at)),
        map_of(entries.remove(at)) == map_of(entries).remove(entries[at].0.id()),
{
    let rest = entries.remove(at);
    let gone = entries[at].0.id();
    assert forall|a: int, b: int| 0 <= a < b < rest.len() implies (#[trigger] rest[a]).0.id() != (
    #[trigger] rest[b]).0.id() by {
        let i = if a < at { a } else { a + 1 };
        let j = if b < at { b } else { b + 1 };
        assert(rest[a] == entries[i]);
        assert(rest[b] == entries[j]);
    }
    lemma_map_of(entries);
    lemma_map_of(rest);
    assert forall|id: K::Id| holds_id(rest, id) <==> (holds_id(entries, id) && id != gone) by {
        if holds_id(rest, id) {
            let k = choose|k: int| 0 <= k < rest.len() && (#[trigger] rest[k]).0.id() == id;
            let i = if k < at { k } else { k + 1 };
            assert(entries[i] == rest[k]);
            if id == gone {
                if i < at {
                    assert(entries[i].0.id() != entries[at].0.id());
                } else {
                    assert(entries[at].0.id() != entries[i].0.id());
                }
            }
        }
        if holds_id(entries, id) && id != gone {
            let i = choose|i: int| 0 <= i < entries.len() && (#[trigger] entries[i]).0.id() == id;
            let k = if i < at { i } else { i - 1 };
            assert(rest[k] == entries[i]);
        }
    }
    assert forall|id: K::Id| map_of(rest).dom().contains(id) implies #[trigger] map_of(rest)[id]
        == map_of(entries)[id] by {
        let k = choose|k: int| 0 <= k < rest.len() && (#[trigger] rest[k]).0.id() == id;
        let i = if k < at { k } else { k + 1 };
        assert(entries[i] == rest[k]);
        assert(map_of(rest)[rest[k].0.id()] == rest[k].1);
        assert(map_of(entries)[entries[i].0.id()] == entries[i].1);
    }
    assert(map_of(rest) =~= map_of(entries).remove(gone));
}

impl<K: Keyed, V> View for KeyedMap<K, V> {
    type V = Map<K::Id, V>;

    closed spec fn view(&self) -> Map<K::Id, V> {
        map_of(self.entries@)
    }
}

impl<K: Keyed, V> KeyedMap<K, V> {
    /// No two entries stand for the same.
    pub closed spec fn wf(self) -> bool {
        ids_distinct(self.entries@)
    }

    /// An empty map.
    pub fn new() -> (map: KeyedMap<K, V>)
        ensures
            map.wf(),
            map@ == Map::<K::Id, V>::empty(),
    {
        KeyedMap { entries: Vec::new() }
    }

    fn position(&self, key: &K) -> (found: Option<usize>)
        ensures
            match found {
                Some(k) => k < self.entries@.len() && self.entries@[k as int].0.id() == key.id(),
                None => !holds_id(self.entries@, key.id()),
            },
    {
        let mut k: usize = 0;
        while k < self.entries.len()
            invariant
                k <= self.entries@.len(),
                forall|j: int| 0 <= j < k ==> (#[trigger] self.entries@[j]).0.id() != key.id(),
            decreases self.entries@.len() - k,
        {
            if self.entries[k].0.same(key) {
                return Some(k);
            }
            k += 1;
        }
        None
    }

    /// How many entries the map has.
    pub fn len(&self) -> (len: usize)
        requires
            self.wf(),
        ensures
            len == self@.dom().len(),
            self@.dom().finite(),
    {
        proof {
            lemma_map_of(self.entries@);
        }
        self.entries.len()
    }

    /// The value under `key`.
    pub fn get(&self, key: &K) -> (value: Option<&V>)
        requires
            self.wf(),
        ensures
            match value {
                Some(value) => self@.dom().contains(key.id()) && *value == self@[key.id()],
                None => !self@.dom().contains(key.id()),
            },
    {
        proof {
            lemma_map_of(self.entries@);
        }
        match self.position(key) {
            Some(k) => Some(&self.entries[k].1),
            None => None,
        }
    }

    /// Whether there is a value under `key`.
    pub fn contains_key(&self, key: &K) -> (held: bool)
        requires
            self.wf(),
        ensures
            held == self@.dom().contains(key.id()),
    {
        self.get(key).is_some()
    }

    /// Take the value under `key` out.
    pub fn remove(&mut self, key: &K) -> (value: Option<V>)
        requires
            old(self).wf(),
        ensures
            final(self).wf(),
            final(self)@ == old(self)@.remove(key.id()),
            match value {
                Some(value) => old(self)@.dom().contains(key.id()) && value == old(
                    self,
                )@[key.id()],
                None => !old(self)@.dom().contains(key.id()),
            },
    {
        proof {
            lemma_map_of(self.entries@);
        }
        match self.position(key) {
            Some(k) => {
                proof {
                    lemma_map_removed(self.entries@, k as int);
                }
                let entry = self.entries.remove(k);
                Some(entry.1)
            },
            None => {
                assert(self@ =~= self@.remove(key.id()));
                None
            },
        }
    }

    /// Put `value` under `key`, in place of what was there.
    pub fn insert(&mut self, key: K, value: V)
        requires
            old(self).wf(),
        ensures
            final(self).wf(),
            final(self)@ == old(self)@.insert(key.id(), value),
    {
        let _ = self.remove(&key);
        let ghost before = self.entries@;
        proof {
            lemma_map_of(before);
        }
        let ghost id = key.id();
        self.entries.push((key, value));
        proof {
            assert(self.entries@.drop_last() =~= before);
            assert(!map_of(before).dom().contains(id));
            assert(!holds_id(before, id));
            assert forall|a: int, b: int| 0 <= a < b < self.entries@.len() implies (
            #[trigger] self.entries@[a]).0.id() != (#[trigger] self.entries@[b]).0.id() by {
                assert(self.entries@[a] == before[a]);
                if b == before.len() {
                    assert(before[a].0.id() != id);
                } else {
                    assert(self.entries@[b] == before[b]);
                }
            }
            assert(self@ =~= old(self)@.insert(id, value));
        }
    }

    /// Drop every entry.
    pub fn clear(&mut self)
        ensures
            final(self).wf(),
            final(self)@ == Map::<K::Id, V>::empty(),
    {
        self.entries.clear();
    }

    /// Take every entry out.
    pub fn take_entries(&mut self) -> (entries: Vec<(K, V)>)
        requires
            old(self).wf(),
        ensures
            final(self).wf(),
            final(self)@ == Map::<K::Id, V>::empty(),
            ids_distinct(entries@),
            map_of(entries@) == old(self)@,
    {
        let mut entries: Vec<(K, V)> = Vec::new();
        std::mem::swap(&mut entries, &mut self.entries);
        entries
    }

    /// The map has as many entries as spell it out.
    pub proof fn lemma_counted(entries: Seq<(K, V)>)
        requires
            ids_distinct(entries),
        ensures
            map_of(entries).dom().finite(),
            map_of(entries).dom().len() == entries.len(),
    {
        lemma_map_of(entries);
    }

    /// The entries spell out the map.
    pub proof fn lemma_spelled(entries: Seq<(K, V)>)
        requires
            ids_distinct(entries),
        ensures
            forall|id: K::Id| #[trigger]
                map_of(entries).dom().contains(id) <==> holds_id(entries, id),
            forall|k: int|
                0 <= k < entries.len() ==> map_of(entries)[(#[trigger] entries[k]).0.id()]
                    == entries[k].1,
    {
        lemma_map_of(entries);
    }
}

/// A pair put behind the others replaces what stood for the same and leaves the rest.
pub proof fn law_the_last_of_a_key_counts<K: Keyed, V>(
    entries: Seq<(K, V)>,
    entry: (K, V),
    id: K::Id,
)
    ensures
        map_of(Seq::<(K, V)>::empty()) == Map::<K::Id, V>::empty(),
        map_of(entries.push(entry)).dom().contains(entry.0.id()),
        map_of(entries.push(entry))[entry.0.id()] == entry.1,
        id != entry.0.id() ==> (map_of(entries.push(entry)).dom().contains(id) <==> map_of(
            entries,
        ).dom().contains(id)),
        id != entry.0.id() && map_of(entries).dom().contains(id) ==> map_of(entries.push(entry))[id]
            == map_of(entries)[id],
        holds_id(entries.push(entry), id) <==> holds_id(entries, id) || entry.0.id() == id,
        !holds_id(Seq::<(K, V)>::empty(), id),
{
    let more = entries.push(entry);
    assert(more.drop_last() =~= entries);
    assert(more[entries.len() as int] == entry);
    if holds_id(entries, id) {
        let k = choose|k: int| 0 <= k < entries.len() && (#[trigger] entries[k]).0.id() == id;
        assert(more[k] == entries[k]);
    }
    if holds_id(more, id) {
        let k = choose|k: int| 0 <= k < more.len() && (#[trigger] more[k]).0.id() == id;
        if k < entries.len() {
            assert(entries[k] == more[k]);
        }
    }
}

} // verus!
