//! Images kept for reuse under what they are.

use vstd::prelude::*;

verus! {

/// What an image is kept under.
pub trait PoolKey: Copy {
    /// Whether the two are equal.
    fn same(&self, other: &Self) -> (same: bool)
        ensures
            same == (*self == *other),
    ;
}

/// How often a pool gave an image out, had none to give, and took one back.
#[derive(Clone, Copy, Debug, PartialEq, Eq, Structural)]
pub struct PoolStats {
    /// Takes that found an image.
    pub hits: u64,
    /// Takes that found none, so that one was created.
    pub allocs: u64,
    /// Images taken back.
    pub admits: u64,
    /// Images dropped for want of room; none ever is.
    pub cap_drops: u64,
}

/// The counters of a pool that was never asked.
pub open spec fn no_uses() -> PoolStats {
    PoolStats { hits: 0, allocs: 0, admits: 0, cap_drops: 0 }
}

/// Images kept for reuse, oldest first.
#[derive(Debug)]
pub struct FreePool<K, V> {
    entries: Vec<(K, V)>,
    stats: PoolStats,
}

/// How many of `entries` are kept under `key`.
pub open spec fn count_under<K, V>(entries: Seq<(K, V)>, key: K) -> nat
    decreases entries.len(),
{
    if entries.len() == 0 {
        0
    } else {
        count_under(entries.drop_last(), key) + if entries.last().0 == key {
            1nat
        } else {
            0nat
        }
    }
}

/// The youngest of `entries` under `key` is at `at`.
pub open spec fn youngest_under<K, V>(entries: Seq<(K, V)>, key: K, at: int) -> bool {
    &&& 0 <= at < entries.len()
    &&& entries[at].0 == key
    &&& forall|k: int| at < k < entries.len() ==> (#[trigger] entries[k]).0 != key
}

/// None of `entries` is under `key`.
pub open spec fn none_under<K, V>(entries: Seq<(K, V)>, key: K) -> bool {
    forall|k: int| 0 <= k < entries.len() ==> (#[trigger] entries[k]).0 != key
}

/// What asking a pool for the youngest image under `key` does: it gives the
/// image out and counts a hit, or it has none and counts that one is made.
pub open spec fn took_out<K: PoolKey, V>(
    before: FreePool<K, V>,
    after: FreePool<K, V>,
    key: K,
    taken: Option<V>,
) -> bool {
    match taken {
        Some(value) => {
            &&& after.counted() == (PoolStats {
                hits: before.counted().hits.wrapping_add(1),
                ..before.counted()
            })
            &&& exists|at: int| #[trigger]
                youngest_under(before.entries(), key, at) && value == before.entries()[at].1
                    && after.entries() == before.entries().remove(at)
        },
        None => {
            &&& none_under(before.entries(), key)
            &&& after.entries() == before.entries()
            &&& after.counted() == (PoolStats {
                allocs: before.counted().allocs.wrapping_add(1),
                ..before.counted()
            })
        },
    }
}

impl<K: PoolKey, V> FreePool<K, V> {
    /// The images, oldest first, with what each is kept under.
    pub closed spec fn entries(self) -> Seq<(K, V)> {
        self.entries@
    }

    /// The counters.
    pub closed spec fn counted(self) -> PoolStats {
        self.stats
    }

    /// An empty pool.
    pub fn new() -> (pool: FreePool<K, V>)
        ensures
            pool.entries() == Seq::<(K, V)>::empty(),
            pool.counted() == no_uses(),
    {
        FreePool {
            entries: Vec::new(),
            stats: PoolStats { hits: 0, allocs: 0, admits: 0, cap_drops: 0 },
        }
    }

    /// How many images the pool keeps.
    pub fn len(&self) -> (len: usize)
        ensures
            len == self.entries().len(),
    {
        self.entries.len()
    }

    /// The counters.
    pub fn stats(&self) -> (stats: PoolStats)
        ensures
            stats == self.counted(),
    {
        self.stats
    }

    /// How many images the pool keeps under `key`.
    pub fn count_for(&self, key: &K) -> (count: usize)
        ensures
            count == count_under(self.entries(), *key),
    {
        let mut count: usize = 0;
        let mut k: usize = 0;
        while k < self.entries.len()
            invariant
                k <= self.entries@.len(),
                count <= k,
                count == count_under(self.entries@.take(k as int), *key),
            decreases self.entries@.len() - k,
        {
            assert(self.entries@.take(k + 1).drop_last() =~= self.entries@.take(k as int));
            if self.entries[k].0.same(key) {
                count += 1;
            }
            k += 1;
        }
        assert(self.entries@.take(k as int) =~= self.entries@);
        count
    }

    /// Give out the youngest image under `key`, and count whether there was one.
    pub fn take(&mut self, key: &K) -> (taken: Option<V>)
        ensures
            took_out(*old(self), *final(self), *key, taken),
    {
        let ghost before = self.entries@;
        let mut k: usize = self.entries.len();
        while k > 0
            invariant
                k <= self.entries@.len(),
                *self == *old(self),
                before == self.entries@,
                forall|j: int| k <= j < self.entries@.len() ==> (#[trigger] self.entries@[j]).0 != *key,
            decreases k,
        {
            k -= 1;
            if self.entries[k].0.same(key) {
                assert(youngest_under(before, *key, k as int));
                let entry = self.entries.remove(k);
                self.stats.hits = self.stats.hits.wrapping_add(1);
                assert(youngest_under(old(self).entries(), *key, k as int));
                assert(self.entries() =~= old(self).entries().remove(k as int));
                return Some(entry.1);
            }
        }
        self.stats.allocs = self.stats.allocs.wrapping_add(1);
        None
    }

    /// Take an image back, and count it.
    pub fn recycle(&mut self, key: K, value: V)
        ensures
            final(self).entries() == old(self).entries().push((key, value)),
            final(self).counted() == (PoolStats {
                admits: old(self).counted().admits.wrapping_add(1),
                ..old(self).counted()
            }),
    {
        self.entries.push((key, value));
        self.stats.admits = self.stats.admits.wrapping_add(1);
    }

    /// Take an image back without counting it.
    pub fn push_uncapped(&mut self, key: K, value: V)
        ensures
            final(self).entries() == old(self).entries().push((key, value)),
            final(self).counted() == old(self).counted(),
    {
        self.entries.push((key, value));
    }

    /// Give up the youngest image, whatever it is kept under.
    pub fn pop_any(&mut self) -> (popped: Option<V>)
        ensures
            final(self).counted() == old(self).counted(),
            match popped {
                Some(value) => old(self).entries().len() > 0 && value == old(self).entries().last().1
                    && final(self).entries() == old(self).entries().drop_last(),
                None => old(self).entries().len() == 0 && final(self).entries() == old(
                    self,
                ).entries(),
            },
    {
        match self.entries.pop() {
            Some(entry) => Some(entry.1),
            None => None,
        }
    }

    /// Give up every image, oldest first.
    pub fn drain(&mut self) -> (values: Vec<V>)
        ensures
            final(self).entries() == Seq::<(K, V)>::empty(),
            final(self).counted() == old(self).counted(),
            values@ == values_of(old(self).entries()),
    {
        let mut values: Vec<V> = Vec::new();
        let ghost before = self.entries@;
        while self.entries.len() > 0
            invariant
                self.stats == old(self).stats,
                before == old(self).entries@,
                values@.len() + self.entries@.len() == before.len(),
                self.entries@ == before.skip(values@.len() as int),
                values@ == values_of(before).take(values@.len() as int),
            decreases self.entries@.len(),
        {
            let ghost taken: int = values@.len() as int;
            let entry = self.entries.remove(0);
            values.push(entry.1);
            assert(self.entries@ =~= before.skip(taken + 1));
            assert(entry == before[taken]);
            assert(values@ =~= values_of(before).take(taken + 1));
        }
        assert(values@ =~= values_of(before));
        assert(self.entries@ =~= Seq::<(K, V)>::empty());
        values
    }
}

/// What `entries` keep, oldest first.
pub open spec fn values_of<K, V>(entries: Seq<(K, V)>) -> Seq<V> {
    Seq::new(entries.len(), |k: int| entries[k].1)
}

/// An image taken back is the next one given out for its key: a steady stream
/// of one shape creates nothing.
pub proof fn law_admitted_image_is_reused<K, V>(entries: Seq<(K, V)>, key: K, value: V)
    ensures
        youngest_under(entries.push((key, value)), key, entries.len() as int),
        entries.push((key, value)).remove(entries.len() as int) == entries,
{
    assert(entries.push((key, value)).remove(entries.len() as int) =~= entries);
}

/// What is taken out of a pool is the youngest image under the key, and nothing
/// else leaves; where there is none, nothing does. A hit is counted or a making,
/// never both.
pub proof fn law_taking_gives_the_youngest_or_nothing<K: PoolKey, V>(
    before: FreePool<K, V>,
    after: FreePool<K, V>,
    key: K,
    taken: Option<V>,
)
    requires
        took_out(before, after, key, taken),
    ensures
        taken is None <==> forall|k: int|
            0 <= k < before.entries().len() ==> (#[trigger] before.entries()[k]).0 != key,
        taken is None ==> after.entries() == before.entries(),
        taken matches Some(value) ==> exists|at: int|
            0 <= at < before.entries().len() && #[trigger] before.entries()[at] == (key, value)
                && after.entries() == before.entries().remove(at) && forall|k: int|
                at < k < before.entries().len() ==> (#[trigger] before.entries()[k]).0 != key,
        after.counted().admits == before.counted().admits,
        after.counted().cap_drops == before.counted().cap_drops,
        after.counted().hits == if taken is Some {
            before.counted().hits.wrapping_add(1)
        } else {
            before.counted().hits
        },
        after.counted().allocs == if taken is Some {
            before.counted().allocs
        } else {
            before.counted().allocs.wrapping_add(1)
        },
{
    if let Some(value) = taken {
        let at = choose|at: int| #[trigger]
            youngest_under(before.entries(), key, at) && value == before.entries()[at].1
                && after.entries() == before.entries().remove(at);
        assert(before.entries()[at] == (key, value));
    }
}

/// One more image under a key is one more counted under it and under no other.
pub proof fn law_images_are_counted_under_their_key<K, V>(
    entries: Seq<(K, V)>,
    entry: (K, V),
    key: K,
)
    ensures
        count_under(Seq::<(K, V)>::empty(), key) == 0,
        count_under(entries.push(entry), key) == count_under(entries, key) + if entry.0 == key {
            1int
        } else {
            0
        },
        count_under(entries, key) <= entries.len(),
        count_under(entries, key) == 0 <==> none_under(entries, key),
        none_under(entries, key) <==> forall|k: int|
            0 <= k < entries.len() ==> (#[trigger] entries[k]).0 != key,
    decreases entries.len(),
{
    assert(entries.push(entry).drop_last() =~= entries);
    if entries.len() > 0 {
        law_images_are_counted_under_their_key(entries.drop_last(), entries.last(), key);
        let front = entries.drop_last();
        assert(front.push(entries.last()) =~= entries);
        if none_under(entries, key) {
            assert forall|k: int| 0 <= k < front.len() implies (#[trigger] front[k]).0 != key by {
                assert(front[k] == entries[k]);
            }
            assert(entries.last() == entries[entries.len() - 1]);
        }
        if count_under(entries, key) == 0 {
            assert forall|k: int| 0 <= k < entries.len() implies (#[trigger] entries[k]).0
                != key by {
                if k < front.len() {
                    assert(front[k] == entries[k]);
                }
            }
        }
    }
}

/// What a pool keeps is given up in the order it came in.
pub proof fn law_values_come_in_order<K, V>(entries: Seq<(K, V)>, k: int)
    requires
        0 <= k < entries.len(),
    ensures
        values_of(entries).len() == entries.len(),
        values_of(entries)[k] == entries[k].1,
{
}

/// A pool that was never asked has counted nothing.
pub proof fn law_an_unused_pool_has_counted_nothing()
    ensures
        no_uses().hits == 0,
        no_uses().allocs == 0,
        no_uses().admits == 0,
        no_uses().cap_drops == 0,
{
}

} // verus!
