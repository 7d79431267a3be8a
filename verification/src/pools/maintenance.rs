//! Giving memory back while the guest is quiet.

use crate::pools::buckets::BucketPool;
use crate::pools::encoder::EncoderPools;
use crate::pools::free_pool::{FreePool, PoolKey};
use crate::pools::limits::{IDLE_RECYCLE_TRIM_PER_PASS, SETTLED_PASSES_FOR_BUFFER_TRIM};
use crate::pools::resource::ResourcePools;
use crate::pools::sampled_cache::{released, LiveOwners};
use crate::pools::shared::{disposed_sampled, SharedPools};
use crate::pools::slots::{
    BufferSlot, DeferredHandle, FreeTargetImage, SampledSlot, StorageImageSlot,
};
use vstd::prelude::*;

verus! {

/// What a maintenance pass gives up.
#[derive(Debug)]
pub struct Trim {
    /// The images to destroy.
    pub destroy: Vec<DeferredHandle>,
    /// The buffers to release.
    pub release: Vec<BufferSlot>,
    /// How many they are.
    pub trimmed: usize,
    /// Whether the traffic has settled, so that memory blocks with nothing in
    /// them may go back too.
    pub settled: bool,
}

/// The smaller of two.
pub open spec fn least(a: int, b: int) -> int {
    if a < b {
        a
    } else {
        b
    }
}

/// The youngest `n` of `entries`, youngest first.
pub open spec fn youngest<K, V>(entries: Seq<(K, V)>, n: int) -> Seq<V> {
    Seq::new(n as nat, |i: int| entries[entries.len() - 1 - i].1)
}

/// The pool gave up the youngest buffer of its largest size.
pub open spec fn gave_largest(before: BucketPool, after: BucketPool, slot: BufferSlot) -> bool {
    exists|size: u64|
        #![trigger before.kept(size)]
        {
            &&& before.kept(size).len() > 0
            &&& slot == before.kept(size).last()
            &&& forall|larger: u64| larger > size ==> (#[trigger] before.kept(larger)).len() == 0
            &&& forall|other: u64| #[trigger]
                after.kept(other) == if other == size {
                    before.kept(size).drop_last()
                } else {
                    before.kept(other)
                }
        }
}

/// The pool went through `steps`, and gave up the youngest buffer of its largest
/// size at each.
pub open spec fn gave_in_steps(steps: Seq<BucketPool>, out: Seq<BufferSlot>) -> bool {
    &&& steps.len() == out.len() + 1
    &&& forall|i: int|
        0 <= i < out.len() ==> gave_largest(steps[i], steps[i + 1], #[trigger] out[i])
}

/// The pool keeps nothing.
pub open spec fn keeps_nothing(pool: BucketPool) -> bool {
    forall|size: u64| #[trigger] pool.kept(size).len() == 0
}

/// The pool gave up its largest buffers one after the other, until there were
/// `max` or none was left.
pub open spec fn gave_largest_first(
    before: BucketPool,
    after: BucketPool,
    out: Seq<BufferSlot>,
    max: int,
) -> bool {
    &&& out.len() <= max
    &&& out.len() < max ==> keeps_nothing(after)
    &&& exists|steps: Seq<BucketPool>| #[trigger]
        gave_in_steps(steps, out) && steps[0] == before && steps.last() == after
}

/// Give up the youngest images of a pool, at most `max`.
fn pop_up_to<K: PoolKey, V>(pool: &mut FreePool<K, V>, max: usize) -> (out: Vec<V>)
    ensures
        out@.len() == least(max as int, old(pool).entries().len() as int),
        out@ == youngest(old(pool).entries(), out@.len() as int),
        final(pool).entries() == old(pool).entries().take(
            old(pool).entries().len() - out@.len(),
        ),
        final(pool).counted() == old(pool).counted(),
{
    let mut out: Vec<V> = Vec::new();
    let ghost all = pool.entries();
    assert(all.take(all.len() as int) =~= all);
    while out.len() < max
        invariant_except_break
            out@.len() <= max,
            all == old(pool).entries(),
            out@.len() <= all.len(),
            pool.entries() == all.take(all.len() - out@.len()),
            pool.counted() == old(pool).counted(),
            forall|i: int| 0 <= i < out@.len() ==> out@[i] == all[all.len() - 1 - i].1,
        ensures
            all == old(pool).entries(),
            out@.len() <= all.len(),
            out@.len() == max || (out@.len() < max && out@.len() == all.len()),
            pool.entries() == all.take(all.len() - out@.len()),
            pool.counted() == old(pool).counted(),
            forall|i: int| 0 <= i < out@.len() ==> out@[i] == all[all.len() - 1 - i].1,
        decreases max - out@.len(),
    {
        let ghost before = pool.entries();
        match pool.pop_any() {
            Some(value) => {
                assert(before.drop_last() =~= all.take(all.len() - out@.len() - 1));
                out.push(value);
            },
            None => {
                assert(before.len() == 0);
                assert(pool.entries() =~= all.take(all.len() - out@.len()));
                break;
            },
        }
    }
    assert(out@ =~= youngest(all, out@.len() as int));
    out
}

/// Give up the largest buffers of a pool, at most `max`.
fn pop_largest_up_to(pool: &mut BucketPool, max: usize) -> (out: Vec<BufferSlot>)
    requires
        old(pool).wf(),
    ensures
        final(pool).wf(),
        gave_largest_first(*old(pool), *final(pool), out@, max as int),
        final(pool).all().len() + out@.len() == old(pool).all().len(),
{
    let mut out: Vec<BufferSlot> = Vec::new();
    let ghost mut steps: Seq<BucketPool> = seq![*pool];
    while out.len() < max
        invariant_except_break
            pool.wf(),
            out@.len() <= max,
            pool.all().len() + out@.len() == old(pool).all().len(),
            gave_in_steps(steps, out@),
            steps[0] == *old(pool),
            steps.last() == *pool,
        ensures
            pool.wf(),
            out@.len() <= max,
            out@.len() < max ==> keeps_nothing(*pool),
            pool.all().len() + out@.len() == old(pool).all().len(),
            gave_in_steps(steps, out@),
            steps[0] == *old(pool),
            steps.last() == *pool,
        decreases max - out@.len(),
    {
        let ghost before = *pool;
        match pool.pop_largest() {
            Some(slot) => {
                let ghost given = out@;
                let ghost walked = steps;
                out.push(slot);
                proof {
                    steps = steps.push(*pool);
                    assert(gave_largest(before, *pool, slot));
                    assert forall|i: int| 0 <= i < out@.len() implies gave_largest(
                        steps[i],
                        steps[i + 1],
                        #[trigger] out@[i],
                    ) by {
                        if i < given.len() {
                            assert(out@[i] == given[i]);
                            assert(gave_largest(walked[i], walked[i + 1], given[i]));
                            assert(steps[i] == walked[i] && steps[i + 1] == walked[i + 1]);
                        } else {
                            assert(steps[i] == before);
                        }
                    }
                }
            },
            None => {
                break;
            },
        }
    }
    out
}

/// The images that a list of sampled images becomes when they are destroyed.
pub open spec fn as_sampled(slots: Seq<SampledSlot>) -> Seq<DeferredHandle> {
    slots.map_values(|slot: SampledSlot| DeferredHandle::RecycleSampled(slot))
}

/// The images that a list of target images becomes when they are destroyed.
pub open spec fn as_images(images: Seq<FreeTargetImage>) -> Seq<DeferredHandle> {
    images.map_values(
        |image: FreeTargetImage|
            DeferredHandle::Image { image: image.image, view: image.view, memory: image.memory },
    )
}

/// The images that a list of storage images becomes when they are destroyed.
pub open spec fn as_storage(slots: Seq<StorageImageSlot>) -> Seq<DeferredHandle> {
    slots.map_values(|slot: StorageImageSlot| DeferredHandle::StorageImage(slot))
}

/// How many images and buffers the pools keep for reuse.
pub open spec fn idle(pools: ResourcePools) -> nat {
    pools.shared.attachment_snapshot_free.entries().len()
        + pools.shared.sampled_free.entries().len() + pools.shared.target_free.entries().len()
        + pools.shared.storage_image_free.entries().len() + pools.encoder.staging_free.all().len()
        + pools.encoder.readback_free.all().len() + pools.encoder.gather_free.all().len()
}

/// What a maintenance pass does that gives up at most `max` of each kind.
pub open spec fn trims(
    before: ResourcePools,
    after: ResourcePools,
    max: int,
    trim_buffers: bool,
    trim: Trim,
) -> bool {
    let snapshots = before.shared.attachment_snapshot_free.entries();
    let sampled = before.shared.sampled_free.entries();
    let targets = before.shared.target_free.entries();
    let storage = before.shared.storage_image_free.entries();
    let a = least(max, snapshots.len() as int);
    let b = least(max - a, sampled.len() as int);
    let c = least(max - a - b, targets.len() as int);
    let d = if trim_buffers {
        least(max, storage.len() as int)
    } else {
        0
    };
    &&& after.encoder == (EncoderPools {
        staging_free: after.encoder.staging_free,
        readback_free: after.encoder.readback_free,
        gather_free: after.encoder.gather_free,
        ..before.encoder
    })
    &&& after.shared == (SharedPools {
        attachment_snapshot_free: after.shared.attachment_snapshot_free,
        sampled_free: after.shared.sampled_free,
        target_free: after.shared.target_free,
        storage_image_free: after.shared.storage_image_free,
        ..before.shared
    })
    &&& trim.destroy@ == as_sampled(youngest(snapshots, a)) + as_sampled(youngest(sampled, b))
        + as_images(youngest(targets, c)) + as_storage(youngest(storage, d))
    &&& after.shared.attachment_snapshot_free.entries() == snapshots.take(snapshots.len() - a)
    &&& after.shared.sampled_free.entries() == sampled.take(sampled.len() - b)
    &&& after.shared.target_free.entries() == targets.take(targets.len() - c)
    &&& after.shared.storage_image_free.entries() == storage.take(storage.len() - d)
    &&& after.shared.attachment_snapshot_free.counted()
        == before.shared.attachment_snapshot_free.counted()
    &&& after.shared.sampled_free.counted() == before.shared.sampled_free.counted()
    &&& after.shared.target_free.counted() == before.shared.target_free.counted()
    &&& after.shared.storage_image_free.counted() == before.shared.storage_image_free.counted()
    &&& trim.trimmed == trim.destroy@.len() + trim.release@.len()
    &&& trim.settled == trim_buffers
    &&& !trim_buffers ==> trim.release@.len() == 0 && after.encoder == before.encoder
    &&& trim_buffers ==> exists|staging: Seq<BufferSlot>,
        readback: Seq<BufferSlot>,
        gather: Seq<BufferSlot>|
        #![trigger staging + readback + gather]
        {
            &&& trim.release@ == staging + readback + gather
            &&& gave_largest_first(
                before.encoder.staging_free,
                after.encoder.staging_free,
                staging,
                max,
            )
            &&& gave_largest_first(
                before.encoder.readback_free,
                after.encoder.readback_free,
                readback,
                max - staging.len(),
            )
            &&& gave_largest_first(
                before.encoder.gather_free,
                after.encoder.gather_free,
                gather,
                max - staging.len() - readback.len(),
            )
        }
}

/// How many quiet maintenance passes in a row there were, after one more.
pub open spec fn quiet_passes(pools: ResourcePools) -> u32 {
    if pools.encoder.staging_hits.wrapping_add(pools.encoder.staging_misses)
        != pools.encoder.settled_staging_mark {
        0
    } else if pools.shared.settled_maintenance_passes == u32::MAX {
        u32::MAX
    } else {
        (pools.shared.settled_maintenance_passes + 1) as u32
    }
}

/// The pools after it was noted whether uploads ran.
pub open spec fn noted(pools: ResourcePools) -> ResourcePools {
    ResourcePools {
        encoder: EncoderPools {
            settled_staging_mark: pools.encoder.staging_hits.wrapping_add(
                pools.encoder.staging_misses,
            ),
            ..pools.encoder
        },
        shared: SharedPools { settled_maintenance_passes: quiet_passes(pools), ..pools.shared },
    }
}

impl ResourcePools {
    /// Note whether uploads ran since the last maintenance pass, and say whether
    /// the buffer pools may shrink: only after several quiet passes in a row.
    pub fn note_maintenance_settled(&mut self) -> (settled: bool)
        ensures
            settled == (quiet_passes(*old(self)) >= SETTLED_PASSES_FOR_BUFFER_TRIM),
            *final(self) == noted(*old(self)),
            old(self).wf() ==> final(self).wf(),
    {
        let acquires: u64 = self.encoder.staging_hits.wrapping_add(self.encoder.staging_misses);
        let uploads_ran = acquires != self.encoder.settled_staging_mark;
        self.encoder.settled_staging_mark = acquires;
        if !uploads_ran {
            self.shared.settled_maintenance_passes =
            self.shared.settled_maintenance_passes.saturating_add(1);
        } else {
            self.shared.settled_maintenance_passes = 0;
        }
        self.shared.settled_maintenance_passes >= SETTLED_PASSES_FOR_BUFFER_TRIM
    }

    /// Give up at most `max` images that no one uses: attachment snapshots first,
    /// then sampled images, then target images. With `trim_buffers`, give up at
    /// most `max` buffers besides, the largest of each pool first: upload,
    /// readback, gather; and at most `max` storage images.
    pub fn trim_recycle_pools(&mut self, max: usize, trim_buffers: bool) -> (trim: Trim)
        requires
            old(self).wf(),
            3 * max <= usize::MAX || idle(*old(self)) <= usize::MAX,
        ensures
            final(self).wf(),
            trims(*old(self), *final(self), max as int, trim_buffers, trim),
    {
        let mut destroy: Vec<DeferredHandle> = Vec::new();
        let snapshots = pop_up_to(&mut self.shared.attachment_snapshot_free, max);
        push_sampled(&mut destroy, &snapshots);
        let left: usize = max - snapshots.len();
        let sampled = pop_up_to(&mut self.shared.sampled_free, left);
        push_sampled(&mut destroy, &sampled);
        let left: usize = left - sampled.len();
        let targets = pop_up_to(&mut self.shared.target_free, left);
        push_images(&mut destroy, &targets);
        let mut release: Vec<BufferSlot> = Vec::new();
        let mut storage: Vec<StorageImageSlot> = Vec::new();
        if trim_buffers {
            let mut staging = pop_largest_up_to(&mut self.encoder.staging_free, max);
            let left: usize = max - staging.len();
            let mut readback = pop_largest_up_to(&mut self.encoder.readback_free, left);
            let left: usize = left - readback.len();
            let mut gather = pop_largest_up_to(&mut self.encoder.gather_free, left);
            let ghost (x, y, z) = (staging@, readback@, gather@);
            release.append(&mut staging);
            release.append(&mut readback);
            release.append(&mut gather);
            assert(release@ =~= x + y + z);
            storage = pop_up_to(&mut self.shared.storage_image_free, max);
        } else {
            proof {
                let kept = self.shared.storage_image_free.entries();
                assert(kept =~= kept.take(kept.len() as int));
                assert(storage@ =~= youngest(kept, 0));
            }
        }
        push_storage(&mut destroy, &storage);
        let trimmed: usize = destroy.len() + release.len();
        Trim { destroy, release, trimmed, settled: trim_buffers }
    }

    /// Begin a maintenance pass, if one is due: cached images that no resource
    /// owns any more are given up.
    pub fn start_maintenance(&mut self, now_ms: u64, live: &LiveOwners) -> (destroy: Option<
        Vec<DeferredHandle>,
    >)
        requires
            old(self).wf(),
        ensures
            final(self).wf(),
            final(self).encoder == old(self).encoder,
            ({
                let now = if now_ms > old(self).shared.idle_clock_ms {
                    now_ms
                } else {
                    old(self).shared.idle_clock_ms
                };
                let due = now >= crate::pools::limits::IDLE_MAINTENANCE_START_MS && now - old(
                    self,
                ).shared.last_maintenance_ms >= crate::pools::limits::MAINTENANCE_INTERVAL_MS;
                &&& destroy is Some <==> due
                &&& final(self).shared.idle_clock_ms == now
                &&& !due ==> final(self).shared == (SharedPools {
                    idle_clock_ms: now,
                    ..old(self).shared
                })
                &&& due ==> {
                    let (kept, out) = released(old(self).shared.sampled_cache@, *live);
                    &&& final(self).shared.sampled_cache@ == kept
                    &&& old(self).shared.sampled_cache.exact()
                        ==> final(self).shared.sampled_cache.exact()
                    &&& disposed_sampled(
                        (SharedPools {
                            idle_clock_ms: now,
                            last_maintenance_ms: now,
                            sampled_cache: final(self).shared.sampled_cache,
                            ..old(self).shared
                        }),
                        final(self).shared,
                        out,
                        destroy->0@,
                    )
                }
            }),
    {
        if !self.shared.plan_idle_maintenance(now_ms) {
            return None;
        }
        let slots = self.shared.sampled_cache.take_released_sampled_entries(live);
        Some(self.shared.dispose_sampled(slots))
    }

    /// End a maintenance pass: shrink the pools by at most a fixed number each.
    pub fn finish_maintenance(&mut self) -> (trim: Trim)
        requires
            old(self).wf(),
        ensures
            final(self).wf(),
            trims(
                noted(*old(self)),
                *final(self),
                IDLE_RECYCLE_TRIM_PER_PASS as int,
                quiet_passes(*old(self)) >= SETTLED_PASSES_FOR_BUFFER_TRIM,
                trim,
            ),
    {
        let trim_buffers = self.note_maintenance_settled();
        self.trim_recycle_pools(IDLE_RECYCLE_TRIM_PER_PASS, trim_buffers)
    }
}

fn push_sampled(out: &mut Vec<DeferredHandle>, slots: &Vec<SampledSlot>)
    ensures
        final(out)@ == old(out)@ + as_sampled(slots@),
{
    let mut k: usize = 0;
    assert(out@ =~= out@ + as_sampled(slots@).take(0));
    while k < slots.len()
        invariant
            k <= slots@.len(),
            out@ == old(out)@ + as_sampled(slots@).take(k as int),
        decreases slots@.len() - k,
    {
        out.push(DeferredHandle::RecycleSampled(slots[k]));
        k += 1;
        assert(out@ =~= old(out)@ + as_sampled(slots@).take(k as int));
    }
    assert(as_sampled(slots@).take(k as int) =~= as_sampled(slots@));
}

fn push_images(out: &mut Vec<DeferredHandle>, images: &Vec<FreeTargetImage>)
    ensures
        final(out)@ == old(out)@ + as_images(images@),
{
    let mut k: usize = 0;
    assert(out@ =~= out@ + as_images(images@).take(0));
    while k < images.len()
        invariant
            k <= images@.len(),
            out@ == old(out)@ + as_images(images@).take(k as int),
        decreases images@.len() - k,
    {
        out.push(
            DeferredHandle::Image {
                image: images[k].image,
                view: images[k].view,
                memory: images[k].memory,
            },
        );
        k += 1;
        assert(out@ =~= old(out)@ + as_images(images@).take(k as int));
    }
    assert(as_images(images@).take(k as int) =~= as_images(images@));
}

fn push_storage(out: &mut Vec<DeferredHandle>, slots: &Vec<StorageImageSlot>)
    ensures
        final(out)@ == old(out)@ + as_storage(slots@),
{
    let mut k: usize = 0;
    assert(out@ =~= out@ + as_storage(slots@).take(0));
    while k < slots.len()
        invariant
            k <= slots@.len(),
            out@ == old(out)@ + as_storage(slots@).take(k as int),
        decreases slots@.len() - k,
    {
        out.push(DeferredHandle::StorageImage(slots[k]));
        k += 1;
        assert(out@ =~= old(out)@ + as_storage(slots@).take(k as int));
    }
    assert(as_storage(slots@).take(k as int) =~= as_storage(slots@));
}

/// What is given up of a pool of images is its youngest, youngest first.
pub proof fn law_the_youngest_images_go_first<K, V>(entries: Seq<(K, V)>, n: int, i: int)
    requires
        0 <= i < n <= entries.len(),
    ensures
        youngest(entries, n).len() == n,
        youngest(entries, n)[i] == entries[entries.len() - 1 - i].1,
        youngest(entries, n)[0] == entries.last().1,
{
}

/// A buffer pool gives up a buffer that it kept, of a size than which it kept no
/// larger, and keeps all others.
pub proof fn law_the_largest_buffer_goes_first(
    before: BucketPool,
    after: BucketPool,
    slot: BufferSlot,
)
    requires
        gave_largest(before, after, slot),
    ensures
        exists|size: u64|
            #![trigger before.kept(size)]
            {
                &&& before.kept(size).len() > 0
                &&& before.kept(size).last() == slot
                &&& after.kept(size) == before.kept(size).drop_last()
                &&& forall|other: u64|
                    other != size ==> #[trigger] after.kept(other) == before.kept(other)
                &&& forall|larger: u64|
                    larger > size ==> (#[trigger] before.kept(larger)).len() == 0
            },
{
    let size = choose|size: u64|
        #![trigger before.kept(size)]
        {
            &&& before.kept(size).len() > 0
            &&& slot == before.kept(size).last()
            &&& forall|larger: u64| larger > size ==> (#[trigger] before.kept(larger)).len() == 0
            &&& forall|other: u64| #[trigger]
                after.kept(other) == if other == size {
                    before.kept(size).drop_last()
                } else {
                    before.kept(other)
                }
        };
    assert(after.kept(size) == before.kept(size).drop_last());
}

/// A pool gives up no more than it may, and stops early only where it keeps nothing.
pub proof fn law_a_pool_stops_early_only_when_empty(
    before: BucketPool,
    after: BucketPool,
    out: Seq<BufferSlot>,
    max: int,
    size: u64,
)
    requires
        gave_largest_first(before, after, out, max),
    ensures
        out.len() <= max,
        out.len() < max ==> after.kept(size).len() == 0,
        out.len() == 0 ==> after == before,
        out.len() > 0 ==> exists|next: BucketPool| #[trigger] gave_largest(before, next, out[0]),
{
    let steps = choose|steps: Seq<BucketPool>| #[trigger]
        gave_in_steps(steps, out) && steps[0] == before && steps.last() == after;
    if out.len() > 0 {
        assert(gave_largest(steps[0], steps[1], out[0]));
    }
}

/// A pass gives up at most `max` of the images that draws use, the copies of attachments
/// first, then the sampled images, then the targets; and buffers and storage images only
/// where uploads have settled. What it does not give up it keeps.
pub proof fn law_a_pass_gives_up_a_bounded_number(
    before: ResourcePools,
    after: ResourcePools,
    max: int,
    trim_buffers: bool,
    trim: Trim,
)
    requires
        0 <= max,
        trims(before, after, max, trim_buffers, trim),
    ensures
        ({
            let snapshots = before.shared.attachment_snapshot_free.entries().len()
                - after.shared.attachment_snapshot_free.entries().len();
            let sampled = before.shared.sampled_free.entries().len()
                - after.shared.sampled_free.entries().len();
            let targets = before.shared.target_free.entries().len()
                - after.shared.target_free.entries().len();
            let storage = before.shared.storage_image_free.entries().len()
                - after.shared.storage_image_free.entries().len();
            &&& 0 <= snapshots && 0 <= sampled && 0 <= targets && 0 <= storage
            &&& snapshots + sampled + targets <= max
            &&& storage <= max
            &&& trim.destroy@.len() == snapshots + sampled + targets + storage
            &&& sampled + targets > 0
                ==> after.shared.attachment_snapshot_free.entries().len() == 0
            &&& targets > 0 ==> after.shared.sampled_free.entries().len() == 0
            &&& snapshots + sampled + targets < max ==> after.shared.target_free.entries().len()
                == 0 && after.shared.sampled_free.entries().len() == 0
                && after.shared.attachment_snapshot_free.entries().len() == 0
            &&& !trim_buffers ==> storage == 0
            &&& trim_buffers && storage < max
                ==> after.shared.storage_image_free.entries().len() == 0
        }),
        trim.settled == trim_buffers,
        trim.trimmed == trim.destroy@.len() + trim.release@.len(),
        !trim_buffers ==> trim.release@.len() == 0 && after.encoder == before.encoder,
        trim.release@.len() <= max,
        after.shared.targets == before.shared.targets,
        after.shared.sampled_cache == before.shared.sampled_cache,
        after.shared.graveyard == before.shared.graveyard,
        after.encoder.staging_live == before.encoder.staging_live,
        after.encoder.slots == before.encoder.slots,
{
}

/// What is given up is destroyed as what it is.
pub proof fn law_images_are_given_up_as_what_they_are(
    sampled: Seq<SampledSlot>,
    images: Seq<FreeTargetImage>,
    storage: Seq<StorageImageSlot>,
    k: int,
)
    ensures
        as_sampled(sampled).len() == sampled.len(),
        as_images(images).len() == images.len(),
        as_storage(storage).len() == storage.len(),
        0 <= k < sampled.len() ==> as_sampled(sampled)[k] == DeferredHandle::RecycleSampled(
            sampled[k],
        ),
        0 <= k < images.len() ==> as_images(images)[k] == (DeferredHandle::Image {
            image: images[k].image,
            view: images[k].view,
            memory: images[k].memory,
        }),
        0 <= k < storage.len() ==> as_storage(storage)[k] == DeferredHandle::StorageImage(
            storage[k],
        ),
{
}

/// A pass is quiet where no upload asked for a buffer since the last one, and one that
/// is not begins the count anew. What is noted is the number of uploads so far.
pub proof fn law_an_upload_breaks_the_quiet(pools: ResourcePools)
    ensures
        ({
            let uploads = pools.encoder.staging_hits.wrapping_add(pools.encoder.staging_misses);
            &&& uploads != pools.encoder.settled_staging_mark ==> quiet_passes(pools) == 0
            &&& uploads == pools.encoder.settled_staging_mark ==> quiet_passes(pools) == if
                pools.shared.settled_maintenance_passes < u32::MAX {
                pools.shared.settled_maintenance_passes + 1
            } else {
                u32::MAX as int
            }
            &&& noted(pools).encoder.settled_staging_mark == uploads
            &&& noted(pools).shared.settled_maintenance_passes == quiet_passes(pools)
            &&& noted(pools).encoder.staging_free == pools.encoder.staging_free
            &&& noted(pools).encoder.slots == pools.encoder.slots
            &&& noted(pools).shared.sampled_free == pools.shared.sampled_free
            &&& noted(pools).shared.targets == pools.shared.targets
        }),
        quiet_passes(noted(pools)) > 0,
{
}

/// Of two, the least is one of them and no larger than either.
pub proof fn law_the_least_is_no_larger_than_either(a: int, b: int)
    ensures
        least(a, b) <= a,
        least(a, b) <= b,
        least(a, b) == a || least(a, b) == b,
{
}

/// What is idle is every kept image and every kept buffer, each counted once: with the pools
/// empty nothing is idle, and one more kept anywhere is one more idle.
pub proof fn law_everything_kept_is_idle(pools: ResourcePools)
    ensures
        idle(pools) == pools.shared.sampled_free.entries().len()
            + pools.shared.attachment_snapshot_free.entries().len()
            + pools.shared.storage_image_free.entries().len()
            + pools.shared.target_free.entries().len() + pools.encoder.gather_free.all().len()
            + pools.encoder.readback_free.all().len() + pools.encoder.staging_free.all().len(),
{
}

/// Giving idle images up is no use of a pool: no hit, no creation, no return is counted, and
/// nothing that is not idle changes.
pub proof fn law_trimming_counts_no_use(
    before: ResourcePools,
    after: ResourcePools,
    max: int,
    trim_buffers: bool,
    trim: Trim,
)
    requires
        trims(before, after, max, trim_buffers, trim),
    ensures
        after.shared.attachment_snapshot_free.counted()
            == before.shared.attachment_snapshot_free.counted(),
        after.shared.sampled_free.counted() == before.shared.sampled_free.counted(),
        after.shared.target_free.counted() == before.shared.target_free.counted(),
        after.shared.storage_image_free.counted() == before.shared.storage_image_free.counted(),
        after.shared.targets == before.shared.targets,
        after.shared.sampled_cache == before.shared.sampled_cache,
        after.shared.registry == before.shared.registry,
        after.shared.graveyard == before.shared.graveyard,
        after.encoder.slots == before.encoder.slots,
        after.encoder.recording == before.encoder.recording,
        after.encoder.staging_live == before.encoder.staging_live,
        after.encoder.readback_leased == before.encoder.readback_leased,
        trim.trimmed == trim.destroy@.len() + trim.release@.len(),
        trim.settled <==> trim_buffers,
{
}

} // verus!
