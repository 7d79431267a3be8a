//! Buffers kept for reuse in power-of-two size buckets.

use crate::pools::slots::BufferSlot;
use vstd::arithmetic::power2::{lemma2_to64, lemma_pow2_pos, lemma_pow2_unfold, pow2};
use vstd::prelude::*;

verus! {

/// `bucket` is the smallest power of two, from 64 on, that holds `size`.
pub open spec fn is_bucket_of(bucket: nat, size: nat) -> bool {
    exists|e: nat| #[trigger]
        pow2(e) == bucket && e >= 6 && size <= bucket && (e > 6 ==> pow2((e - 1) as nat) < size)
}

/// The size bucket of a request: the smallest power of two, from 64 on, that
/// holds it, or the largest size where no power of two does.
pub open spec fn bucket_of(size: u64) -> u64 {
    if size > 0x8000_0000_0000_0000 {
        u64::MAX
    } else {
        choose|bucket: u64| is_bucket_of(bucket as nat, size as nat)
    }
}

/// The size bucket of a request: the smallest power of two, from 64 on, that
/// holds it, or the largest size where no power of two does.
pub fn buffer_bucket(size: u64) -> (bucket: u64)
    ensures
        bucket == bucket_of(size),
        size <= bucket,
        size <= 0x8000_0000_0000_0000 ==> is_bucket_of(bucket as nat, size as nat),
{
    let mut bucket: u64 = 64;
    let ghost mut e: nat = 6;
    proof {
        lemma_high_powers();
    }
    while bucket < size
        invariant
            bucket == pow2(e),
            6 <= e <= 63,
            e > 6 ==> pow2((e - 1) as nat) < size,
        decreases u64::MAX - bucket,
    {
        proof {
            lemma_high_powers();
            lemma_pow2_unfold(e + 1);
            lemma_pow2_monotone(6, e);
            if e < 63 {
                lemma_pow2_monotone(e, 62);
            }
        }
        if bucket > u64::MAX / 2 {
            return u64::MAX;
        }
        bucket = bucket * 2;
        proof {
            e = e + 1;
        }
    }
    proof {
        lemma_high_powers();
        lemma_pow2_monotone(e, 63);
        assert(pow2(e) == bucket);
        assert(is_bucket_of(bucket as nat, size as nat));
        law_bucket_is_its_own_bucket(bucket as nat, bucket_of(size) as nat, size as nat);
    }
    bucket
}

proof fn lemma_high_powers()
    ensures
        pow2(6) == 64,
        pow2(62) == 0x4000_0000_0000_0000,
        pow2(63) == 0x8000_0000_0000_0000,
{
    lemma2_to64();
    lemma_pow2_unfold(64);
    lemma_pow2_unfold(63);
}

proof fn lemma_pow2_monotone(a: nat, b: nat)
    requires
        a <= b,
    ensures
        pow2(a) <= pow2(b),
    decreases b - a,
{
    if a < b {
        lemma_pow2_monotone(a, (b - 1) as nat);
        lemma_pow2_unfold(b);
        lemma_pow2_pos((b - 1) as nat);
    }
}

/// A size has one bucket, and the bucket of a bucket is itself: a buffer goes
/// back to the list it was taken from.
pub proof fn law_bucket_is_its_own_bucket(bucket: nat, other: nat, size: nat)
    requires
        is_bucket_of(bucket, size),
    ensures
        is_bucket_of(bucket, bucket),
        is_bucket_of(other, size) ==> other == bucket,
{
    let e = choose|e: nat| #[trigger]
        pow2(e) == bucket && e >= 6 && size <= bucket && (e > 6 ==> pow2((e - 1) as nat) < size);
    assert(pow2(e) == bucket);
    if e > 6 {
        lemma_pow2_unfold(e);
        lemma_pow2_pos((e - 1) as nat);
    }
    if is_bucket_of(other, size) {
        let f = choose|f: nat| #[trigger]
            pow2(f) == other && f >= 6 && size <= other && (f > 6 ==> pow2((f - 1) as nat) < size);
        if f < e {
            lemma_pow2_monotone(f, (e - 1) as nat);
        }
        if e < f {
            lemma_pow2_monotone(e, (f - 1) as nat);
        }
    }
}

/// The buffers that belong to the bucket `size`, in order.
pub open spec fn in_bucket(slots: Seq<BufferSlot>, size: u64) -> Seq<BufferSlot> {
    slots.filter(|slot: BufferSlot| bucket_of(slot.size) == size)
}

/// The buffers of one size.
#[derive(Debug)]
pub struct Bucket {
    /// The size.
    pub size: u64,
    /// The buffers, oldest first.
    pub slots: Vec<BufferSlot>,
}

/// Buffers kept for reuse, by bucket.
#[derive(Debug)]
pub struct BucketPool {
    buckets: Vec<Bucket>,
}

impl BucketPool {
    /// Every size has one list.
    pub closed spec fn wf(self) -> bool {
        forall|a: int, b: int|
            0 <= a < b < self.buckets@.len() ==> (#[trigger] self.buckets@[a]).size != (
            #[trigger] self.buckets@[b]).size
    }

    closed spec fn place(self, size: u64) -> Option<int> {
        if exists|k: int| 0 <= k < self.buckets@.len() && (#[trigger] self.buckets@[k]).size == size {
            Some(
                choose|k: int| 0 <= k < self.buckets@.len() && (#[trigger] self.buckets@[k]).size
                    == size,
            )
        } else {
            None
        }
    }

    /// The buffers kept for `size`, oldest first.
    pub closed spec fn kept(self, size: u64) -> Seq<BufferSlot> {
        match self.place(size) {
            Some(k) => self.buckets@[k].slots@,
            None => Seq::empty(),
        }
    }

    proof fn lemma_kept_at(self, k: int)
        requires
            self.wf(),
            0 <= k < self.buckets@.len(),
        ensures
            self.kept(self.buckets@[k].size) == self.buckets@[k].slots@,
    {
        let size = self.buckets@[k].size;
        let j = choose|j: int| 0 <= j < self.buckets@.len() && (#[trigger] self.buckets@[j]).size
            == size;
        assert(self.buckets@[k].size == size);
        assert(j == k);
    }

    proof fn lemma_kept_nowhere(self, size: u64)
        requires
            forall|k: int| 0 <= k < self.buckets@.len() ==> (#[trigger] self.buckets@[k]).size != size,
        ensures
            self.kept(size) == Seq::<BufferSlot>::empty(),
    {
    }

    /// An empty pool.
    pub fn new() -> (pool: BucketPool)
        ensures
            pool.wf(),
            forall|size: u64| #[trigger] pool.kept(size) == Seq::<BufferSlot>::empty(),
            pool.all() == Seq::<BufferSlot>::empty(),
            pool.shape() == Seq::<(u64, nat)>::empty(),
    {
        let pool = BucketPool { buckets: Vec::new() };
        assert(pool.shape() =~= Seq::<(u64, nat)>::empty());
        assert forall|size: u64| #[trigger] pool.kept(size) == Seq::<BufferSlot>::empty() by {
            pool.lemma_kept_nowhere(size);
        }
        pool
    }

    fn position(&self, size: u64) -> (found: Option<usize>)
        ensures
            match found {
                Some(k) => k < self.buckets@.len() && self.buckets@[k as int].size == size,
                None => forall|k: int|
                    0 <= k < self.buckets@.len() ==> (#[trigger] self.buckets@[k]).size != size,
            },
    {
        let mut k: usize = 0;
        while k < self.buckets.len()
            invariant
                k <= self.buckets@.len(),
                forall|j: int| 0 <= j < k ==> (#[trigger] self.buckets@[j]).size != size,
            decreases self.buckets@.len() - k,
        {
            if self.buckets[k].size == size {
                return Some(k);
            }
            k += 1;
        }
        None
    }

    /// Give out the youngest buffer of `size`.
    pub fn take(&mut self, size: u64) -> (taken: Option<BufferSlot>)
        requires
            old(self).wf(),
        ensures
            final(self).wf(),
            match taken {
                Some(slot) => old(self).kept(size).len() > 0 && slot == old(self).kept(size).last()
                    && forall|other: u64| #[trigger]
                    final(self).kept(other) == if other == size {
                        old(self).kept(size).drop_last()
                    } else {
                        old(self).kept(other)
                    },
                None => old(self).kept(size).len() == 0 && forall|other: u64| #[trigger]
                    final(self).kept(other) == old(self).kept(other),
            },
            taken is Some ==> final(self).all().len() + 1 == old(self).all().len(),
    {
        match self.position(size) {
            Some(k) => {
                proof {
                    self.lemma_kept_at(k as int);
                }
                let taken = self.buckets[k].slots.pop();
                proof {
                    assert forall|j: int| 0 <= j < self.buckets@.len() implies (
                    #[trigger] self.buckets@[j]).size == old(self).buckets@[j].size by {}
                    lemma_one_bucket_changed(*old(self), *self, k as int);
                    if taken is None {
                        assert forall|other: u64| #[trigger]
                            self.kept(other) == old(self).kept(other) by {}
                    } else {
                        lemma_one_fewer(old(self).buckets@, self.buckets@, k as int);
                    }
                }
                taken
            },
            None => {
                proof {
                    self.lemma_kept_nowhere(size);
                }
                None
            },
        }
    }

    /// Keep a buffer for reuse under `size`.
    pub fn put(&mut self, size: u64, slot: BufferSlot)
        requires
            old(self).wf(),
        ensures
            final(self).wf(),
            forall|other: u64| #[trigger]
                final(self).kept(other) == if other == size {
                    old(self).kept(size).push(slot)
                } else {
                    old(self).kept(other)
                },
    {
        match self.position(size) {
            Some(k) => {
                proof {
                    self.lemma_kept_at(k as int);
                }
                self.buckets[k].slots.push(slot);
                proof {
                    assert forall|j: int| 0 <= j < self.buckets@.len() implies (
                    #[trigger] self.buckets@[j]).size == old(self).buckets@[j].size by {}
                    lemma_one_bucket_changed(*old(self), *self, k as int);
                }
            },
            None => {
                let mut slots: Vec<BufferSlot> = Vec::new();
                slots.push(slot);
                self.buckets.push(Bucket { size, slots });
                proof {
                    old(self).lemma_kept_nowhere(size);
                    lemma_bucket_added(*old(self), *self);
                    assert(slots@ =~= Seq::<BufferSlot>::empty().push(slot));
                }
            },
        }
    }

    /// Keep buffers for reuse, each under the bucket of its own size.
    pub fn put_all(&mut self, slots: Vec<BufferSlot>)
        requires
            old(self).wf(),
        ensures
            final(self).wf(),
            forall|size: u64| #[trigger]
                final(self).kept(size) == old(self).kept(size) + in_bucket(slots@, size),
    {
        let mut k: usize = 0;
        proof {
            assert forall|size: u64| #[trigger]
                self.kept(size) == old(self).kept(size) + in_bucket(slots@.take(0), size) by {
                assert(slots@.take(0) =~= Seq::empty());
                assert(in_bucket(slots@.take(0), size) =~= Seq::empty()) by {
                    reveal(Seq::filter);
                }
                assert(self.kept(size) =~= self.kept(size) + Seq::empty());
            }
        }
        while k < slots.len()
            invariant
                k <= slots@.len(),
                self.wf(),
                forall|size: u64| #[trigger]
                    self.kept(size) == old(self).kept(size) + in_bucket(
                        slots@.take(k as int),
                        size,
                    ),
            decreases slots@.len() - k,
        {
            let ghost before = *self;
            let slot: BufferSlot = slots[k];
            self.put(buffer_bucket(slot.size), slot);
            proof {
                let done = slots@.take(k as int);
                let next = slots@.take(k + 1);
                assert(next.drop_last() =~= done);
                assert forall|size: u64| #[trigger]
                    self.kept(size) == old(self).kept(size) + in_bucket(next, size) by {
                    reveal(Seq::filter);
                    assert(before.kept(size) == old(self).kept(size) + in_bucket(done, size));
                    assert(self.kept(size) =~= old(self).kept(size) + in_bucket(next, size));
                }
            }
            k += 1;
        }
        assert(slots@.take(k as int) =~= slots@);
    }

    /// Give up the youngest buffer of the largest size that has one.
    pub fn pop_largest(&mut self) -> (popped: Option<BufferSlot>)
        requires
            old(self).wf(),
        ensures
            final(self).wf(),
            match popped {
                Some(slot) => exists|size: u64|
                    #![trigger old(self).kept(size)]
                    {
                        &&& old(self).kept(size).len() > 0
                        &&& slot == old(self).kept(size).last()
                        &&& forall|larger: u64|
                            larger > size ==> (#[trigger] old(self).kept(larger)).len() == 0
                        &&& forall|other: u64| #[trigger]
                            final(self).kept(other) == if other == size {
                                old(self).kept(size).drop_last()
                            } else {
                                old(self).kept(other)
                            }
                    },
                None => *final(self) == *old(self) && forall|size: u64| #[trigger]
                    old(self).kept(size).len() == 0,
            },
            popped is Some ==> final(self).all().len() + 1 == old(self).all().len(),
    {
        let mut best: Option<u64> = None;
        let mut k: usize = 0;
        while k < self.buckets.len()
            invariant
                *self == *old(self),
                self.wf(),
                k <= self.buckets@.len(),
                match best {
                    Some(size) => self.kept(size).len() > 0 && forall|j: int|
                        0 <= j < k && (#[trigger] self.buckets@[j]).slots@.len() > 0
                            ==> self.buckets@[j].size <= size,
                    None => forall|j: int|
                        0 <= j < k ==> (#[trigger] self.buckets@[j]).slots@.len() == 0,
                },
            decreases self.buckets@.len() - k,
        {
            proof {
                self.lemma_kept_at(k as int);
            }
            if self.buckets[k].slots.len() > 0 {
                let size: u64 = self.buckets[k].size;
                match best {
                    Some(held) => {
                        if size > held {
                            best = Some(size);
                        }
                    },
                    None => {
                        best = Some(size);
                    },
                }
            }
            k += 1;
        }
        proof {
            assert forall|size: u64| (#[trigger] self.kept(size)).len() > 0 implies exists|j: int|
                0 <= j < self.buckets@.len() && (#[trigger] self.buckets@[j]).size == size
                    && self.buckets@[j].slots@.len() > 0 by {
                let j = self.place(size)->0;
                assert(self.buckets@[j].slots@ == self.kept(size));
            }
        }
        match best {
            Some(size) => {
                proof {
                    assert forall|larger: u64| larger > size implies (
                    #[trigger] self.kept(larger)).len() == 0 by {
                        if self.kept(larger).len() > 0 {
                            let j = choose|j: int|
                                0 <= j < self.buckets@.len() && (#[trigger] self.buckets@[j]).size
                                    == larger && self.buckets@[j].slots@.len() > 0;
                            assert(self.buckets@[j].size <= size);
                        }
                    }
                }
                self.take(size)
            },
            None => {
                proof {
                    assert forall|size: u64| #[trigger] self.kept(size).len() == 0 by {
                        if self.kept(size).len() > 0 {
                            let j = choose|j: int|
                                0 <= j < self.buckets@.len() && (#[trigger] self.buckets@[j]).size
                                    == size && self.buckets@[j].slots@.len() > 0;
                            assert(self.buckets@[j].slots@.len() == 0);
                        }
                    }
                }
                None
            },
        }
    }

    /// How many buffers the pool keeps for `size`.
    pub fn count_for(&self, size: u64) -> (count: usize)
        requires
            self.wf(),
        ensures
            count == self.kept(size).len(),
    {
        match self.position(size) {
            Some(k) => {
                proof {
                    self.lemma_kept_at(k as int);
                }
                self.buckets[k].slots.len()
            },
            None => {
                proof {
                    self.lemma_kept_nowhere(size);
                }
                0
            },
        }
    }

    /// The sizes that have a bucket and how many buffers each keeps, in the
    /// order the buckets came up.
    pub closed spec fn shape(self) -> Seq<(u64, nat)> {
        self.buckets@.map_values(|bucket: Bucket| (bucket.size, bucket.slots@.len()))
    }

    /// The sizes that have a bucket and how many buffers each keeps.
    pub fn census(&self) -> (counts: Vec<(u64, usize)>)
        ensures
            counts@.map_values(|count: (u64, usize)| (count.0, count.1 as nat)) == self.shape(),
    {
        let mut counts: Vec<(u64, usize)> = Vec::new();
        let mut k: usize = 0;
        while k < self.buckets.len()
            invariant
                k <= self.buckets@.len(),
                counts@.len() == k,
                forall|i: int|
                    0 <= i < k ==> (#[trigger] counts@[i]).0 == self.buckets@[i].size
                        && counts@[i].1 == self.buckets@[i].slots@.len(),
            decreases self.buckets@.len() - k,
        {
            counts.push((self.buckets[k].size, self.buckets[k].slots.len()));
            k += 1;
        }
        assert(counts@.map_values(|count: (u64, usize)| (count.0, count.1 as nat))
            =~= self.shape());
        counts
    }

    /// Every buffer, bucket by bucket in the order the buckets came up, each
    /// bucket oldest first.
    pub closed spec fn all(self) -> Seq<BufferSlot> {
        flattened(self.buckets@)
    }

    /// Give up every buffer.
    pub fn drain(&mut self) -> (slots: Vec<BufferSlot>)
        requires
            old(self).wf(),
        ensures
            final(self).wf(),
            slots@ == old(self).all(),
            forall|size: u64| #[trigger] final(self).kept(size) == Seq::<BufferSlot>::empty(),
    {
        let mut slots: Vec<BufferSlot> = Vec::new();
        let mut k: usize = 0;
        while k < self.buckets.len()
            invariant
                *self == *old(self),
                k <= self.buckets@.len(),
                slots@ == flattened(self.buckets@.take(k as int)),
            decreases self.buckets@.len() - k,
        {
            let ghost taken = slots@;
            let bucket = &self.buckets[k];
            let mut j: usize = 0;
            while j < bucket.slots.len()
                invariant
                    j <= bucket.slots@.len(),
                    slots@ == taken + bucket.slots@.take(j as int),
                decreases bucket.slots@.len() - j,
            {
                slots.push(bucket.slots[j]);
                j += 1;
                assert(slots@ =~= taken + bucket.slots@.take(j as int));
            }
            assert(bucket.slots@.take(j as int) =~= bucket.slots@);
            assert(self.buckets@.take(k + 1).drop_last() =~= self.buckets@.take(k as int));
            k += 1;
        }
        assert(self.buckets@.take(k as int) =~= self.buckets@);
        self.buckets = Vec::new();
        proof {
            assert forall|size: u64| #[trigger] self.kept(size) == Seq::<BufferSlot>::empty() by {
                self.lemma_kept_nowhere(size);
            }
        }
        slots
    }
}

/// The buffers of `buckets`, one bucket after the other.
pub open spec fn flattened(buckets: Seq<Bucket>) -> Seq<BufferSlot>
    decreases buckets.len(),
{
    if buckets.len() == 0 {
        Seq::empty()
    } else {
        flattened(buckets.drop_last()) + buckets.last().slots@
    }
}

/// The census counts every kept buffer once, under its size.
pub proof fn law_census_counts_what_is_kept(pool: BucketPool, size: u64)
    requires
        pool.wf(),
    ensures
        forall|k: int|
            0 <= k < pool.shape().len() && (#[trigger] pool.shape()[k]).0 == size
                ==> pool.shape()[k].1 == pool.kept(size).len(),
        pool.kept(size).len() > 0 ==> exists|k: int|
            0 <= k < pool.shape().len() && (#[trigger] pool.shape()[k]).0 == size,
{
    assert forall|k: int| 0 <= k < pool.shape().len() && (#[trigger] pool.shape()[k]).0
        == size implies pool.shape()[k].1 == pool.kept(size).len() by {
        pool.lemma_kept_at(k);
    }
    if pool.kept(size).len() > 0 {
        let k = pool.place(size)->0;
        assert(pool.shape()[k].0 == size);
    }
}

/// Every buffer that a pool keeps for some size is given up when the pool is
/// drained, and nothing else is.
pub proof fn law_drain_gives_up_everything(pool: BucketPool, slot: BufferSlot)
    requires
        pool.wf(),
    ensures
        pool.all().contains(slot) <==> exists|size: u64| (#[trigger] pool.kept(size)).contains(slot),
{
    lemma_flattened_contains(pool.buckets@, slot);
    if pool.all().contains(slot) {
        let k = choose|k: int|
            0 <= k < pool.buckets@.len() && (#[trigger] pool.buckets@[k]).slots@.contains(slot);
        pool.lemma_kept_at(k);
        assert(pool.kept(pool.buckets@[k].size).contains(slot));
    }
    if exists|size: u64| (#[trigger] pool.kept(size)).contains(slot) {
        let size = choose|size: u64| (#[trigger] pool.kept(size)).contains(slot);
        let k = pool.place(size)->0;
        assert(pool.buckets@[k].slots@.contains(slot));
    }
}

proof fn lemma_flattened_contains(buckets: Seq<Bucket>, slot: BufferSlot)
    ensures
        flattened(buckets).contains(slot) <==> exists|k: int|
            0 <= k < buckets.len() && (#[trigger] buckets[k]).slots@.contains(slot),
    decreases buckets.len(),
{
    if buckets.len() > 0 {
        let rest = buckets.drop_last();
        lemma_flattened_contains(rest, slot);
        let front = flattened(rest);
        let back = buckets.last().slots@;
        if flattened(buckets).contains(slot) {
            let at = choose|at: int| 0 <= at < flattened(buckets).len() && flattened(buckets)[at]
                == slot;
            if at < front.len() {
                assert(front[at] == slot);
                let k = choose|k: int|
                    0 <= k < rest.len() && (#[trigger] rest[k]).slots@.contains(slot);
                assert(buckets[k].slots@.contains(slot));
            } else {
                assert(back[at - front.len()] == slot);
                assert(buckets[buckets.len() - 1].slots@.contains(slot));
            }
        }
        if exists|k: int|
            0 <= k < buckets.len() && (#[trigger] buckets[k]).slots@.contains(slot) {
            let k = choose|k: int|
                0 <= k < buckets.len() && (#[trigger] buckets[k]).slots@.contains(slot);
            if k < rest.len() {
                assert(rest[k].slots@.contains(slot));
                let at = choose|at: int| 0 <= at < front.len() && front[at] == slot;
                assert(flattened(buckets)[at] == slot);
            } else {
                let at = choose|at: int| 0 <= at < back.len() && back[at] == slot;
                assert(flattened(buckets)[front.len() + at] == slot);
            }
        }
    }
}

proof fn lemma_one_fewer(before: Seq<Bucket>, after: Seq<Bucket>, k: int)
    requires
        0 <= k < before.len(),
        after.len() == before.len(),
        after[k].slots@.len() + 1 == before[k].slots@.len(),
        forall|j: int| 0 <= j < before.len() && j != k ==> #[trigger] after[j] == before[j],
    ensures
        flattened(after).len() + 1 == flattened(before).len(),
    decreases before.len(),
{
    if k == before.len() - 1 {
        assert(after.drop_last() =~= before.drop_last());
    } else {
        assert(after.last() == before.last());
        lemma_one_fewer(before.drop_last(), after.drop_last(), k);
    }
}

proof fn lemma_one_bucket_changed(before: BucketPool, after: BucketPool, k: int)
    requires
        before.wf(),
        0 <= k < before.buckets@.len(),
        after.buckets@.len() == before.buckets@.len(),
        forall|j: int|
            0 <= j < before.buckets@.len() ==> (#[trigger] after.buckets@[j]).size
                == before.buckets@[j].size,
        forall|j: int|
            0 <= j < before.buckets@.len() && j != k ==> #[trigger] after.buckets@[j]
                == before.buckets@[j],
    ensures
        after.wf(),
        forall|other: u64| #[trigger]
            after.kept(other) == if other == before.buckets@[k].size {
                after.buckets@[k].slots@
            } else {
                before.kept(other)
            },
{
    assert(after.wf()) by {
        assert forall|a: int, b: int| 0 <= a < b < after.buckets@.len() implies (
        #[trigger] after.buckets@[a]).size != (#[trigger] after.buckets@[b]).size by {
            assert(before.buckets@[a].size != before.buckets@[b].size);
        }
    }
    assert forall|other: u64| #[trigger]
        after.kept(other) == if other == before.buckets@[k].size {
            after.buckets@[k].slots@
        } else {
            before.kept(other)
        } by {
        if exists|j: int| 0 <= j < before.buckets@.len() && (#[trigger] before.buckets@[j]).size
            == other {
            let j = choose|j: int|
                0 <= j < before.buckets@.len() && (#[trigger] before.buckets@[j]).size == other;
            assert(after.buckets@[j].size == other);
            before.lemma_kept_at(j);
            after.lemma_kept_at(j);
            before.lemma_kept_at(k);
        } else {
            before.lemma_kept_nowhere(other);
            assert forall|j: int| 0 <= j < after.buckets@.len() implies (
            #[trigger] after.buckets@[j]).size != other by {
                assert(before.buckets@[j].size != other);
            }
            after.lemma_kept_nowhere(other);
            assert(before.buckets@[k].size != other);
        }
    }
}

proof fn lemma_bucket_added(before: BucketPool, after: BucketPool)
    requires
        before.wf(),
        after.buckets@.len() == before.buckets@.len() + 1,
        forall|j: int|
            0 <= j < before.buckets@.len() ==> #[trigger] after.buckets@[j] == before.buckets@[j],
        forall|j: int|
            0 <= j < before.buckets@.len() ==> (#[trigger] before.buckets@[j]).size
                != after.buckets@.last().size,
    ensures
        after.wf(),
        forall|other: u64| #[trigger]
            after.kept(other) == if other == after.buckets@.last().size {
                after.buckets@.last().slots@
            } else {
                before.kept(other)
            },
{
    assert(after.wf()) by {
        assert forall|a: int, b: int| 0 <= a < b < after.buckets@.len() implies (
        #[trigger] after.buckets@[a]).size != (#[trigger] after.buckets@[b]).size by {
            assert(after.buckets@[a] == before.buckets@[a]);
            if b < before.buckets@.len() {
                assert(after.buckets@[b] == before.buckets@[b]);
            }
        }
    }
    assert forall|other: u64| #[trigger]
        after.kept(other) == if other == after.buckets@.last().size {
            after.buckets@.last().slots@
        } else {
            before.kept(other)
        } by {
        if other == after.buckets@.last().size {
            after.lemma_kept_at(after.buckets@.len() - 1);
        } else if exists|j: int|
            0 <= j < before.buckets@.len() && (#[trigger] before.buckets@[j]).size == other {
            let j = choose|j: int|
                0 <= j < before.buckets@.len() && (#[trigger] before.buckets@[j]).size == other;
            assert(after.buckets@[j] == before.buckets@[j]);
            before.lemma_kept_at(j);
            after.lemma_kept_at(j);
        } else {
            before.lemma_kept_nowhere(other);
            assert forall|j: int| 0 <= j < after.buckets@.len() implies (
            #[trigger] after.buckets@[j]).size != other by {
                if j < before.buckets@.len() {
                    assert(after.buckets@[j] == before.buckets@[j]);
                }
            }
            after.lemma_kept_nowhere(other);
        }
    }
}

/// A bucket is a power of two from 64 on that holds its sizes, and no smaller one
/// would: less than half of it is wasted beyond the least.
pub proof fn law_a_bucket_is_the_least_that_holds_its_size(bucket: nat, size: nat)
    requires
        is_bucket_of(bucket, size),
    ensures
        exists|e: nat| #[trigger] pow2(e) == bucket,
        bucket >= 64,
        size <= bucket,
        bucket > 64 ==> bucket < 2 * size,
        forall|other: nat| #[trigger] is_bucket_of(other, size) ==> other == bucket,
{
    let e = choose|e: nat| #[trigger]
        pow2(e) == bucket && e >= 6 && size <= bucket && (e > 6 ==> pow2((e - 1) as nat) < size);
    assert(pow2(e) == bucket);
    lemma_high_powers();
    lemma_pow2_monotone(6, e);
    if e > 6 {
        lemma_pow2_unfold(e);
    }
    assert forall|other: nat| #[trigger] is_bucket_of(other, size) implies other == bucket by {
        law_bucket_is_its_own_bucket(bucket, other, size);
    }
}

/// Every size has a bucket that holds it; beyond the largest power of two that
/// is the largest size.
pub proof fn law_every_size_has_a_bucket(size: u64)
    ensures
        size <= bucket_of(size),
        size <= 0x8000_0000_0000_0000 ==> is_bucket_of(bucket_of(size) as nat, size as nat),
        size > 0x8000_0000_0000_0000 ==> bucket_of(size) == u64::MAX,
        size <= 64 ==> bucket_of(size) == 64,
        64 < size <= 0x8000_0000_0000_0000 ==> bucket_of(size) < 2 * size,
{
    lemma_high_powers();
    if size <= 0x8000_0000_0000_0000 {
        lemma_bucket_exists(size, 6);
        let bucket = bucket_of(size);
        assert(is_bucket_of(bucket as nat, size as nat));
        law_a_bucket_is_the_least_that_holds_its_size(bucket as nat, size as nat);
        if size <= 64 {
            assert(pow2(6) == 64);
            assert(is_bucket_of(64, size as nat));
        }
    }
}

proof fn lemma_bucket_exists(size: u64, e: nat)
    requires
        6 <= e <= 63,
        size <= 0x8000_0000_0000_0000,
        e > 6 ==> pow2((e - 1) as nat) < size,
    ensures
        exists|bucket: u64| is_bucket_of(bucket as nat, size as nat),
    decreases 63 - e,
{
    lemma_high_powers();
    lemma_pow2_monotone(e, 63);
    if size <= pow2(e) {
        let bucket = pow2(e) as u64;
        assert(pow2(e) == bucket as nat);
        assert(is_bucket_of(bucket as nat, size as nat));
    } else {
        lemma_bucket_exists(size, e + 1);
    }
}

/// A buffer goes to the bucket of its size and to no other, and buffers of one
/// bucket keep their order.
pub proof fn law_a_buffer_goes_to_the_bucket_of_its_size(
    slots: Seq<BufferSlot>,
    slot: BufferSlot,
    size: u64,
)
    ensures
        in_bucket(Seq::<BufferSlot>::empty(), size).len() == 0,
        in_bucket(slots.push(slot), size) == if bucket_of(slot.size) == size {
            in_bucket(slots, size).push(slot)
        } else {
            in_bucket(slots, size)
        },
{
    let keep = |held: BufferSlot| bucket_of(held.size) == size;
    reveal(Seq::filter);
    assert(slots.push(slot).drop_last() =~= slots);
    assert(slots.push(slot).last() == slot);
}

} // verus!
