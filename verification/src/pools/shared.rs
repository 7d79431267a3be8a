//! What several encoders use together: the recording order, the objects that
//! wait for it, the free lists of images and the registries.

use crate::pools::entry::taken;
use crate::pools::free_pool::{no_uses, took_out, FreePool, PoolStats};
use crate::pools::limits::{IDLE_MAINTENANCE_START_MS, MAINTENANCE_INTERVAL_MS};
use crate::pools::sampled_cache::SampledCache;
use crate::pools::slots::{
    ComputeStorageResidencyKey, DeferredHandle, FreeTargetImage, ImportId, SampledKey, SampledSlot,
    StorageImageKey, StorageImageSlot, TargetIdentity, TargetRecycleKey,
};
use crate::retirement::{RecordingLease, RecordingPoint, RecordingSequenceExhausted, RetirementOrder};
use crate::vk::{DeviceMemory, Format, Framebuffer, Image, ImageView, Pipeline, PipelineLayout, RenderPass};
use vstd::prelude::*;

verus! {

/// What two scratch targets must share for one to stand in for the other.
#[derive(Clone, Copy, Debug, PartialEq, Eq, Structural)]
pub struct TargetKey {
    /// Texels per row.
    pub width: u32,
    /// Rows.
    pub height: u32,
    /// Whether it can be copied to.
    pub with_transfer_dst: bool,
}

/// A scratch target.
#[derive(Clone, Copy, Debug, PartialEq, Eq, Structural)]
pub struct TargetSlot {
    /// The image.
    pub image: Image,
    /// Its memory.
    pub memory: DeviceMemory,
    /// Its view.
    pub view: ImageView,
    /// Its framebuffer.
    pub framebuffer: Framebuffer,
}

/// A scratch target with what it is kept under.
#[derive(Clone, Copy, Debug, PartialEq, Eq, Structural)]
pub struct PooledTarget {
    /// Its shape.
    pub key: TargetKey,
    /// The render pass that its framebuffer is for.
    pub render_pass: RenderPass,
    /// The target.
    pub slot: TargetSlot,
}

/// What a multisample source is made for.
#[derive(Clone, Copy, Debug, PartialEq, Eq, Structural)]
pub struct MultisampleTargetKey {
    /// Texels per row.
    pub width: u32,
    /// Rows.
    pub height: u32,
    /// Samples per texel.
    pub samples: u32,
    /// Its format.
    pub format: Format,
    /// What it is resolved into.
    pub resolve_view: ImageView,
    /// The depth attachment beside it.
    pub depth_view: Option<ImageView>,
    /// Whether the depth attachment is the pass's own.
    pub transient_depth: bool,
}

/// A multisample source.
#[derive(Clone, Copy, Debug, PartialEq, Eq, Structural)]
pub struct MultisampleTargetSlot {
    /// The target.
    pub slot: TargetSlot,
    /// What it is made for.
    pub key: MultisampleTargetKey,
}

/// An image that its heap owns.
#[derive(Clone, Copy, Debug, PartialEq, Eq, Structural)]
pub struct HeapPlacement {
    /// The image.
    pub image: Image,
    /// Its memory.
    pub memory: DeviceMemory,
}

/// A target of the guest that stays on the device.
#[derive(Debug)]
pub struct ResidentTarget {
    /// What it is to the guest.
    pub identity: TargetIdentity,
    /// The image.
    pub image: Image,
    /// Its view.
    pub view: ImageView,
    /// Further views.
    pub alternate_views: Vec<ImageView>,
    /// Its framebuffer.
    pub framebuffer: Framebuffer,
}

/// A compute result of the guest that stays on the device.
#[derive(Clone, Copy, Debug, PartialEq, Eq, Structural)]
pub struct ResidentStorage {
    /// What it is to the guest.
    pub identity: ComputeStorageResidencyKey,
    /// The image.
    pub slot: StorageImageSlot,
}

/// The kernel that scatters guest pages.
#[derive(Clone, Copy, Debug, PartialEq, Eq, Structural)]
pub struct ScatterPipeline {
    /// The pipeline.
    pub pipeline: Pipeline,
    /// Its layout.
    pub layout: PipelineLayout,
}

/// What several encoders use together.
pub struct SharedPools {
    /// The recording order.
    pub retirement: RetirementOrder,
    /// The objects that wait for every recording up to a point.
    pub graveyard: Vec<(RecordingPoint, DeferredHandle)>,
    /// The scratch targets, oldest first.
    pub targets: Vec<PooledTarget>,
    /// The multisample source.
    pub multisample_target: Option<MultisampleTargetSlot>,
    /// Framebuffers over attachments that others own.
    pub ad_hoc_framebuffers: Vec<Framebuffer>,
    /// Sampled images that no command buffer uses.
    pub sampled_free: FreePool<SampledKey, SampledSlot>,
    /// Attachment snapshots that no command buffer uses.
    pub attachment_snapshot_free: FreePool<SampledKey, SampledSlot>,
    /// Storage images that no command buffer uses.
    pub storage_image_free: FreePool<StorageImageKey, StorageImageSlot>,
    /// Target images that no resident uses.
    pub target_free: FreePool<TargetRecycleKey, FreeTargetImage>,
    /// Sampled images under their bytes.
    pub sampled_cache: SampledCache,
    /// Compute residents.
    pub compute_storage_registry: Vec<ResidentStorage>,
    /// Images that heaps own.
    pub heap_placement_memory: Vec<HeapPlacement>,
    /// Target residents.
    pub registry: Vec<ResidentTarget>,
    /// The latest time that was told.
    pub idle_clock_ms: u64,
    /// When maintenance last ran.
    pub last_maintenance_ms: u64,
    /// How many maintenance passes in a row found no upload.
    pub settled_maintenance_passes: u32,
    /// The scatter kernel.
    pub scatter: Option<ScatterPipeline>,
    /// The driver refused the scatter kernel.
    pub scatter_refused: bool,
    /// Imported allocations whose use has ended.
    pub completed_guest_imports: Vec<ImportId>,
}

/// The objects of `graveyard` that wait for no recording after `prefix`, in
/// order.
pub open spec fn ready(graveyard: Seq<(RecordingPoint, DeferredHandle)>, prefix: u64) -> Seq<
    DeferredHandle,
>
    decreases graveyard.len(),
{
    if graveyard.len() == 0 {
        Seq::empty()
    } else {
        let (point, handle) = graveyard.last();
        let before = ready(graveyard.drop_last(), prefix);
        if point.0 <= prefix {
            before.push(handle)
        } else {
            before
        }
    }
}

/// The objects of `graveyard` that wait for a recording after `prefix`, in
/// order.
pub open spec fn waiting(graveyard: Seq<(RecordingPoint, DeferredHandle)>, prefix: u64) -> Seq<
    (RecordingPoint, DeferredHandle),
>
    decreases graveyard.len(),
{
    if graveyard.len() == 0 {
        Seq::empty()
    } else {
        let before = waiting(graveyard.drop_last(), prefix);
        if graveyard.last().0.0 <= prefix {
            before
        } else {
            before.push(graveyard.last())
        }
    }
}

/// The sampled images among `handles` that are used again, in order.
pub open spec fn sampled_in(handles: Seq<DeferredHandle>) -> Seq<(SampledKey, SampledSlot)>
    decreases handles.len(),
{
    if handles.len() == 0 {
        Seq::empty()
    } else {
        let before = sampled_in(handles.drop_last());
        match handles.last() {
            DeferredHandle::RecycleSampled(slot) => before.push((slot.shape, slot)),
            _ => before,
        }
    }
}

/// The target images among `handles` that are used again, in order.
pub open spec fn targets_in(handles: Seq<DeferredHandle>) -> Seq<
    (TargetRecycleKey, FreeTargetImage),
>
    decreases handles.len(),
{
    if handles.len() == 0 {
        Seq::empty()
    } else {
        let before = targets_in(handles.drop_last());
        match handles.last() {
            DeferredHandle::RecycleTarget(image) => before.push((image.shape, image)),
            _ => before,
        }
    }
}

/// The objects among `handles` that are not used again, in order.
pub open spec fn destroyed_in(handles: Seq<DeferredHandle>) -> Seq<DeferredHandle>
    decreases handles.len(),
{
    if handles.len() == 0 {
        Seq::empty()
    } else {
        let before = destroyed_in(handles.drop_last());
        match handles.last() {
            DeferredHandle::RecycleSampled(_) => before,
            DeferredHandle::RecycleTarget(_) => before,
            other => before.push(other),
        }
    }
}

/// What giving up one object does. While a recording that could name it is not
/// over, it waits in the graveyard; else it is dealt with at once. Whatever else
/// can leave the graveyard does so first.
pub open spec fn disposed_one(
    before: SharedPools,
    after: SharedPools,
    handle: DeferredHandle,
    destroy: Seq<DeferredHandle>,
) -> bool {
    let order = before.retirement@;
    let left = ready(before.graveyard@, order.prefix());
    let stay = waiting(before.graveyard@, order.prefix());
    let parks = order.prefix() < order.issued();
    let handles = if parks {
        left
    } else {
        left.push(handle)
    };
    &&& after == (SharedPools {
        graveyard: after.graveyard,
        sampled_free: after.sampled_free,
        target_free: after.target_free,
        ..before
    })
    &&& after.graveyard@ == if parks {
        stay.push((RecordingPoint(order.issued()), handle))
    } else {
        stay
    }
    &&& took_back(before.sampled_free, after.sampled_free, sampled_in(handles))
    &&& took_back(before.target_free, after.target_free, targets_in(handles))
    &&& destroy == destroyed_in(handles)
}

/// What giving up the objects `given` does. While a recording that could name
/// them is not over, they wait in the graveyard; else images are kept for reuse
/// and the others are destroyed. Whatever else can leave the graveyard does so
/// first.
pub open spec fn disposed(
    before: SharedPools,
    after: SharedPools,
    given: Seq<DeferredHandle>,
    destroy: Seq<DeferredHandle>,
) -> bool {
    let order = before.retirement@;
    let left = ready(before.graveyard@, order.prefix());
    let stay = waiting(before.graveyard@, order.prefix());
    let parks = order.prefix() < order.issued();
    let handles = if parks {
        left
    } else {
        left + given
    };
    &&& after == (SharedPools {
        graveyard: after.graveyard,
        sampled_free: after.sampled_free,
        target_free: after.target_free,
        ..before
    })
    &&& given.len() == 0 ==> destroy.len() == 0 && after == before
    &&& given.len() > 0 ==> {
        &&& after.graveyard@ == if parks {
            stay + given.map_values(
                |handle: DeferredHandle| (RecordingPoint(order.issued()), handle),
            )
        } else {
            stay
        }
        &&& took_back(before.sampled_free, after.sampled_free, sampled_in(handles))
        &&& took_back(before.target_free, after.target_free, targets_in(handles))
        &&& destroy == destroyed_in(handles)
    }
}

/// What dealing with every object of the graveyard does that no recording can
/// name any more.
pub open spec fn graveyard_released(
    before: SharedPools,
    after: SharedPools,
    destroy: Seq<DeferredHandle>,
) -> bool {
    let handles = ready(before.graveyard@, before.retirement@.prefix());
    &&& after == (SharedPools {
        graveyard: after.graveyard,
        sampled_free: after.sampled_free,
        target_free: after.target_free,
        ..before
    })
    &&& took_back(before.sampled_free, after.sampled_free, sampled_in(handles))
    &&& took_back(before.target_free, after.target_free, targets_in(handles))
    &&& destroy == destroyed_in(handles)
    &&& after.graveyard@ == waiting(before.graveyard@, before.retirement@.prefix())
}

/// What giving up the images `slots` does. While a recording that could name
/// them is not over, they wait in the graveyard; else they are kept for reuse.
/// Whatever else can leave the graveyard does so first.
pub open spec fn disposed_sampled(
    before: SharedPools,
    after: SharedPools,
    slots: Seq<SampledSlot>,
    destroy: Seq<DeferredHandle>,
) -> bool {
    let order = before.retirement@;
    let left = ready(before.graveyard@, order.prefix());
    let stay = waiting(before.graveyard@, order.prefix());
    let given = slots.map_values(|slot: SampledSlot| DeferredHandle::RecycleSampled(slot));
    &&& after == (SharedPools {
        graveyard: after.graveyard,
        sampled_free: after.sampled_free,
        target_free: after.target_free,
        ..before
    })
    &&& slots.len() == 0 ==> destroy.len() == 0 && after == before
    &&& slots.len() > 0 ==> {
        &&& destroy == destroyed_in(left)
        &&& took_back(before.target_free, after.target_free, targets_in(left))
        &&& if order.prefix() < order.issued() {
            &&& after.graveyard@ == stay + given.map_values(
                |handle: DeferredHandle| (RecordingPoint(order.issued()), handle),
            )
            &&& took_back(before.sampled_free, after.sampled_free, sampled_in(left))
        } else {
            &&& after.graveyard@ == stay
            &&& took_back(before.sampled_free, after.sampled_free, sampled_in(left + given))
        }
    }
}

/// `pool` after it took the entries `more` back: each is kept, and each is
/// counted.
pub open spec fn took_back<K: crate::pools::free_pool::PoolKey, V>(
    before: FreePool<K, V>,
    after: FreePool<K, V>,
    more: Seq<(K, V)>,
) -> bool {
    &&& after.entries() == before.entries() + more
    &&& after.counted() == (PoolStats { admits: after.counted().admits, ..before.counted() })
    &&& after.counted().admits == (before.counted().admits + more.len()) % 0x1_0000_0000_0000_0000
}

proof fn lemma_took_one_more<K: crate::pools::free_pool::PoolKey, V>(
    before: FreePool<K, V>,
    middle: FreePool<K, V>,
    after: FreePool<K, V>,
    more: Seq<(K, V)>,
    one: (K, V),
)
    requires
        took_back(before, middle, more),
        after.entries() == middle.entries().push(one),
        after.counted() == (PoolStats {
            admits: middle.counted().admits.wrapping_add(1),
            ..middle.counted()
        }),
    ensures
        took_back(before, after, more.push(one)),
{
    assert(after.entries() =~= before.entries() + more.push(one));
}

/// The entries that a list of sampled images is kept under.
pub open spec fn keyed_sampled(slots: Seq<SampledSlot>) -> Seq<(SampledKey, SampledSlot)> {
    slots.map_values(|slot: SampledSlot| (slot.shape, slot))
}

/// The entries that a list of storage images is kept under.
pub open spec fn keyed_storage(slots: Seq<StorageImageSlot>) -> Seq<
    (StorageImageKey, StorageImageSlot),
> {
    slots.map_values(|slot: StorageImageSlot| (slot.key, slot))
}

/// Take sampled images back into `pool`.
pub(crate) fn recycle_all_sampled(
    pool: &mut FreePool<SampledKey, SampledSlot>,
    slots: &Vec<SampledSlot>,
)
    ensures
        took_back(*old(pool), *final(pool), keyed_sampled(slots@)),
{
    let mut k: usize = 0;
    assert(pool.entries() =~= pool.entries() + keyed_sampled(slots@.take(0)));
    while k < slots.len()
        invariant
            k <= slots@.len(),
            took_back(*old(pool), *pool, keyed_sampled(slots@.take(k as int))),
        decreases slots@.len() - k,
    {
        let ghost middle = *pool;
        let slot: SampledSlot = slots[k];
        pool.recycle(slot.key(), slot);
        proof {
            let done = keyed_sampled(slots@.take(k as int));
            lemma_took_one_more(*old(pool), middle, *pool, done, (slot.shape, slot));
            assert(keyed_sampled(slots@.take(k + 1)) =~= done.push((slot.shape, slot)));
        }
        k += 1;
    }
    assert(slots@.take(k as int) =~= slots@);
}

/// Take storage images back into `pool`.
pub(crate) fn recycle_all_storage(
    pool: &mut FreePool<StorageImageKey, StorageImageSlot>,
    slots: &Vec<StorageImageSlot>,
)
    ensures
        took_back(*old(pool), *final(pool), keyed_storage(slots@)),
{
    let mut k: usize = 0;
    assert(pool.entries() =~= pool.entries() + keyed_storage(slots@.take(0)));
    while k < slots.len()
        invariant
            k <= slots@.len(),
            took_back(*old(pool), *pool, keyed_storage(slots@.take(k as int))),
        decreases slots@.len() - k,
    {
        let ghost middle = *pool;
        let slot: StorageImageSlot = slots[k];
        pool.recycle(slot.key, slot);
        proof {
            let done = keyed_storage(slots@.take(k as int));
            lemma_took_one_more(*old(pool), middle, *pool, done, (slot.key, slot));
            assert(keyed_storage(slots@.take(k + 1)) =~= done.push((slot.key, slot)));
        }
        k += 1;
    }
    assert(slots@.take(k as int) =~= slots@);
}

impl SharedPools {
    /// The recording order is well formed, and every object in the graveyard
    /// waits for a point that was issued.
    pub open spec fn wf(self) -> bool {
        &&& self.retirement@.wf()
        &&& forall|i: int|
            0 <= i < self.graveyard@.len() ==> 1 <= (#[trigger] self.graveyard@[i]).0.0
                <= self.retirement@.issued()
    }

    /// Nothing was made, recorded or counted yet.
    pub open spec fn is_fresh(self) -> bool {
        &&& self.retirement@.issued() == 0
        &&& self.retirement@.prefix() == 0
        &&& self.graveyard@.len() == 0
        &&& self.targets@.len() == 0
        &&& self.multisample_target is None
        &&& self.ad_hoc_framebuffers@.len() == 0
        &&& self.sampled_free.entries().len() == 0
        &&& self.sampled_free.counted() == no_uses()
        &&& self.attachment_snapshot_free.entries().len() == 0
        &&& self.attachment_snapshot_free.counted() == no_uses()
        &&& self.storage_image_free.entries().len() == 0
        &&& self.storage_image_free.counted() == no_uses()
        &&& self.target_free.entries().len() == 0
        &&& self.target_free.counted() == no_uses()
        &&& self.sampled_cache@.len() == 0
        &&& self.sampled_cache.exact()
        &&& self.compute_storage_registry@.len() == 0
        &&& self.heap_placement_memory@.len() == 0
        &&& self.registry@.len() == 0
        &&& self.idle_clock_ms == 0
        &&& self.last_maintenance_ms == 0
        &&& self.settled_maintenance_passes == 0
        &&& self.scatter is None
        &&& !self.scatter_refused
        &&& self.completed_guest_imports@.len() == 0
    }

    /// Nothing is shared yet.
    pub fn new() -> (shared: SharedPools)
        ensures
            shared.wf(),
            shared.is_fresh(),
    {
        SharedPools {
            retirement: RetirementOrder::new(),
            graveyard: Vec::new(),
            targets: Vec::new(),
            multisample_target: None,
            ad_hoc_framebuffers: Vec::new(),
            sampled_free: FreePool::new(),
            attachment_snapshot_free: FreePool::new(),
            storage_image_free: FreePool::new(),
            target_free: FreePool::new(),
            sampled_cache: SampledCache::new(),
            compute_storage_registry: Vec::new(),
            heap_placement_memory: Vec::new(),
            registry: Vec::new(),
            idle_clock_ms: 0,
            last_maintenance_ms: 0,
            settled_maintenance_passes: 0,
            scatter: None,
            scatter_refused: false,
            completed_guest_imports: Vec::new(),
        }
    }

    /// Issue the point that an encoder must hold before it reads what is shared.
    pub fn checkout_recording(&mut self) -> (lease: Result<
        RecordingLease,
        RecordingSequenceExhausted,
    >)
        requires
            old(self).wf(),
        ensures
            final(self).wf(),
            *final(self) == (SharedPools { retirement: final(self).retirement, ..*old(self) }),
            final(self).retirement@.prefix() == old(self).retirement@.prefix(),
            forall|point: int|
                final(self).retirement@.is_terminal(point) == old(self).retirement@.is_terminal(
                    point,
                ),
            match lease {
                Ok(lease) => {
                    &&& old(self).retirement@.issued() < u64::MAX
                    &&& lease@ == old(self).retirement@.issued() + 1
                    &&& final(self).retirement@.issued() == lease@
                    &&& final(self).retirement@.is_live(lease@ as int)
                },
                Err(_) => {
                    &&& old(self).retirement@.issued() == u64::MAX
                    &&& *final(self) == *old(self)
                },
            },
    {
        self.retirement.reserve()
    }

    /// Take the objects out of the graveyard that no recording can name any
    /// more.
    pub fn take_released_graveyard(&mut self) -> (handles: Vec<DeferredHandle>)
        requires
            old(self).wf(),
        ensures
            final(self).wf(),
            *final(self) == (SharedPools { graveyard: final(self).graveyard, ..*old(self) }),
            handles@ == ready(old(self).graveyard@, old(self).retirement@.prefix()),
            final(self).graveyard@ == waiting(
                old(self).graveyard@,
                old(self).retirement@.prefix(),
            ),
    {
        let all: Vec<(RecordingPoint, DeferredHandle)> = taken(&mut self.graveyard);
        let mut handles: Vec<DeferredHandle> = Vec::new();
        let mut rest: Vec<(RecordingPoint, DeferredHandle)> = Vec::new();
        let ghost prefix = self.retirement@.prefix();
        let mut k: usize = 0;
        assert(all@.take(0) =~= Seq::empty());
        while k < all.len()
            invariant
                k <= all@.len(),
                self.retirement@.wf(),
                prefix == self.retirement@.prefix(),
                handles@ == ready(all@.take(k as int), prefix),
                rest@ == waiting(all@.take(k as int), prefix),
                forall|i: int|
                    0 <= i < rest@.len() ==> 1 <= (#[trigger] rest@[i]).0.0
                        <= self.retirement@.issued(),
                forall|i: int|
                    0 <= i < all@.len() ==> 1 <= (#[trigger] all@[i]).0.0
                        <= self.retirement@.issued(),
            decreases all@.len() - k,
        {
            assert(all@.take(k + 1).drop_last() =~= all@.take(k as int));
            let entry: (RecordingPoint, DeferredHandle) = all[k];
            if self.retirement.retired(entry.0) {
                handles.push(entry.1);
            } else {
                rest.push(entry);
            }
            k += 1;
        }
        assert(all@.take(k as int) =~= all@);
        self.graveyard = rest;
        handles
    }

    /// Deal with objects that no recording can name any more: images are kept
    /// for reuse, and everything else is given back to be destroyed.
    pub fn destroy_or_recycle(&mut self, handles: Vec<DeferredHandle>) -> (destroy: Vec<
        DeferredHandle,
    >)
        ensures
            *final(self) == (SharedPools {
                sampled_free: final(self).sampled_free,
                target_free: final(self).target_free,
                ..*old(self)
            }),
            took_back(old(self).sampled_free, final(self).sampled_free, sampled_in(handles@)),
            took_back(old(self).target_free, final(self).target_free, targets_in(handles@)),
            destroy@ == destroyed_in(handles@),
            old(self).wf() ==> final(self).wf(),
    {
        let mut destroy: Vec<DeferredHandle> = Vec::new();
        let mut k: usize = 0;
        proof {
            assert(handles@.take(0) =~= Seq::empty());
            assert(self.sampled_free.entries() =~= self.sampled_free.entries() + sampled_in(
                handles@.take(0),
            ));
            assert(self.target_free.entries() =~= self.target_free.entries() + targets_in(
                handles@.take(0),
            ));
        }
        while k < handles.len()
            invariant
                k <= handles@.len(),
                *self == (SharedPools {
                    sampled_free: self.sampled_free,
                    target_free: self.target_free,
                    ..*old(self)
                }),
                took_back(
                    old(self).sampled_free,
                    self.sampled_free,
                    sampled_in(handles@.take(k as int)),
                ),
                took_back(
                    old(self).target_free,
                    self.target_free,
                    targets_in(handles@.take(k as int)),
                ),
                destroy@ == destroyed_in(handles@.take(k as int)),
            decreases handles@.len() - k,
        {
            let ghost done = handles@.take(k as int);
            let ghost middle = *self;
            assert(handles@.take(k + 1).drop_last() =~= done);
            let handle: DeferredHandle = handles[k];
            match handle {
                DeferredHandle::RecycleSampled(slot) => {
                    self.sampled_free.recycle(slot.key(), slot);
                    proof {
                        lemma_took_one_more(
                            old(self).sampled_free,
                            middle.sampled_free,
                            self.sampled_free,
                            sampled_in(done),
                            (slot.shape, slot),
                        );
                    }
                },
                DeferredHandle::RecycleTarget(image) => {
                    self.target_free.recycle(image.key(), image);
                    proof {
                        lemma_took_one_more(
                            old(self).target_free,
                            middle.target_free,
                            self.target_free,
                            targets_in(done),
                            (image.shape, image),
                        );
                    }
                },
                other => {
                    destroy.push(other);
                },
            }
            k += 1;
        }
        assert(handles@.take(k as int) =~= handles@);
        destroy
    }

    /// Deal with every object of the graveyard that no recording can name any
    /// more.
    pub fn release_ready_graveyard(&mut self) -> (destroy: Vec<DeferredHandle>)
        requires
            old(self).wf(),
        ensures
            final(self).wf(),
            graveyard_released(*old(self), *final(self), destroy@),
    {
        let handles = self.take_released_graveyard();
        self.destroy_or_recycle(handles)
    }

    /// Deal with every object of the graveyard, whatever it waits for: no
    /// command buffer is left.
    pub fn release_all_graveyard(&mut self) -> (destroy: Vec<DeferredHandle>)
        ensures
            *final(self) == (SharedPools {
                graveyard: final(self).graveyard,
                sampled_free: final(self).sampled_free,
                target_free: final(self).target_free,
                ..*old(self)
            }),
            ({
                let handles = old(self).graveyard@.map_values(
                    |entry: (RecordingPoint, DeferredHandle)| entry.1,
                );
                &&& took_back(old(self).sampled_free, final(self).sampled_free, sampled_in(handles))
                &&& took_back(old(self).target_free, final(self).target_free, targets_in(handles))
                &&& destroy@ == destroyed_in(handles)
            }),
            final(self).graveyard@.len() == 0,
            old(self).wf() ==> final(self).wf(),
    {
        let all: Vec<(RecordingPoint, DeferredHandle)> = taken(&mut self.graveyard);
        let mut handles: Vec<DeferredHandle> = Vec::new();
        let mut k: usize = 0;
        while k < all.len()
            invariant
                k <= all@.len(),
                handles@.len() == k,
                forall|i: int| 0 <= i < k ==> handles@[i] == all@[i].1,
            decreases all@.len() - k,
        {
            handles.push(all[k].1);
            k += 1;
        }
        assert(handles@ =~= all@.map_values(|entry: (RecordingPoint, DeferredHandle)| entry.1));
        self.destroy_or_recycle(handles)
    }

    /// Give up an object. While a recording that could name it is not over, it
    /// waits in the graveyard; else it is dealt with at once. Whatever else can
    /// leave the graveyard does so first.
    pub fn dispose(&mut self, handle: DeferredHandle) -> (destroy: Vec<DeferredHandle>)
        requires
            old(self).wf(),
        ensures
            final(self).wf(),
            disposed_one(*old(self), *final(self), handle, destroy@),
    {
        let mut handles = self.take_released_graveyard();
        let parked: Option<RecordingPoint> = match self.retirement.latest() {
            Some(point) => if self.retirement.retired(point) {
                None
            } else {
                Some(point)
            },
            None => None,
        };
        proof {
            crate::retirement::lemma_prefix_within(self.retirement@);
        }
        match parked {
            Some(point) => {
                self.graveyard.push((point, handle));
            },
            None => {
                handles.push(handle);
            },
        }
        self.destroy_or_recycle(handles)
    }

    /// Give up several objects, one after the other.
    pub fn dispose_all(&mut self, given: Vec<DeferredHandle>) -> (destroy: Vec<DeferredHandle>)
        requires
            old(self).wf(),
        ensures
            final(self).wf(),
            disposed(*old(self), *final(self), given@, destroy@),
    {
        if given.len() == 0 {
            return Vec::new();
        }
        let mut handles = self.take_released_graveyard();
        let ghost left = handles@;
        let ghost stay = self.graveyard@;
        let parked: Option<RecordingPoint> = match self.retirement.latest() {
            Some(point) => if self.retirement.retired(point) {
                None
            } else {
                Some(point)
            },
            None => None,
        };
        proof {
            crate::retirement::lemma_prefix_within(self.retirement@);
        }
        let ghost order = self.retirement@;
        let mut k: usize = 0;
        while k < given.len()
            invariant
                k <= given@.len(),
                order == self.retirement@,
                order == old(self).retirement@,
                self.wf(),
                *self == (SharedPools { graveyard: self.graveyard, ..*old(self) }),
                match parked {
                    Some(point) => {
                        &&& point.0 == order.issued()
                        &&& 1 <= point.0
                        &&& self.graveyard@ == stay + given@.take(k as int).map_values(
                            |handle: DeferredHandle| (RecordingPoint(order.issued()), handle),
                        )
                        &&& handles@ == left
                    },
                    None => self.graveyard@ == stay && handles@ == left + given@.take(k as int),
                },
            decreases given@.len() - k,
        {
            let handle: DeferredHandle = given[k];
            match parked {
                Some(point) => {
                    self.graveyard.push((point, handle));
                    assert(self.graveyard@ =~= stay + given@.take(k + 1).map_values(
                        |handle: DeferredHandle| (RecordingPoint(order.issued()), handle),
                    ));
                },
                None => {
                    handles.push(handle);
                    assert(handles@ =~= left + given@.take(k + 1));
                },
            }
            k += 1;
        }
        assert(given@.take(k as int) =~= given@);
        self.destroy_or_recycle(handles)
    }

    /// Give up several sampled images, one after the other.
    pub fn dispose_sampled(&mut self, slots: Vec<SampledSlot>) -> (destroy: Vec<DeferredHandle>)
        requires
            old(self).wf(),
        ensures
            final(self).wf(),
            disposed_sampled(*old(self), *final(self), slots@, destroy@),
    {
        let mut given: Vec<DeferredHandle> = Vec::new();
        let mut k: usize = 0;
        while k < slots.len()
            invariant
                k <= slots@.len(),
                given@.len() == k,
                forall|i: int|
                    0 <= i < k ==> given@[i] == DeferredHandle::RecycleSampled(slots@[i]),
            decreases slots@.len() - k,
        {
            given.push(DeferredHandle::RecycleSampled(slots[k]));
            k += 1;
        }
        proof {
            assert(given@ =~= slots@.map_values(
                |slot: SampledSlot| DeferredHandle::RecycleSampled(slot),
            ));
            lemma_only_sampled(ready(self.graveyard@, self.retirement@.prefix()), given@);
        }
        self.dispose_all(given)
    }

    /// A target image that no resident uses, of the shape asked for.
    pub fn take_free_target(
        &mut self,
        width: u32,
        height: u32,
        sample_count: u32,
        format: Format,
    ) -> (taken: Option<FreeTargetImage>)
        ensures
            *final(self) == (SharedPools { target_free: final(self).target_free, ..*old(self) }),
            old(self).wf() ==> final(self).wf(),
            took_out(
                old(self).target_free,
                final(self).target_free,
                TargetRecycleKey { width, height, sample_count, format },
                taken,
            ),
    {
        let key = TargetRecycleKey { width, height, sample_count, format };
        self.target_free.take(&key)
    }

    /// The counters of the free target images.
    pub fn target_recycle_stats(&self) -> (stats: PoolStats)
        ensures
            stats == self.target_free.counted(),
    {
        self.target_free.stats()
    }

    /// The counters of the free sampled images and attachment snapshots
    /// together.
    pub fn recycle_stats(&self) -> (stats: PoolStats)
        requires
            self.sampled_free.counted().hits + self.attachment_snapshot_free.counted().hits
                <= u64::MAX,
            self.sampled_free.counted().allocs + self.attachment_snapshot_free.counted().allocs
                <= u64::MAX,
            self.sampled_free.counted().admits + self.attachment_snapshot_free.counted().admits
                <= u64::MAX,
            self.sampled_free.counted().cap_drops
                + self.attachment_snapshot_free.counted().cap_drops <= u64::MAX,
        ensures
            ({
                let sampled = self.sampled_free.counted();
                let snapshots = self.attachment_snapshot_free.counted();
                &&& stats.hits == sampled.hits + snapshots.hits
                &&& stats.allocs == sampled.allocs + snapshots.allocs
                &&& stats.admits == sampled.admits + snapshots.admits
                &&& stats.cap_drops == sampled.cap_drops + snapshots.cap_drops
            }),
    {
        let sampled: PoolStats = self.sampled_free.stats();
        let snapshots: PoolStats = self.attachment_snapshot_free.stats();
        PoolStats {
            hits: sampled.hits + snapshots.hits,
            allocs: sampled.allocs + snapshots.allocs,
            admits: sampled.admits + snapshots.admits,
            cap_drops: sampled.cap_drops + snapshots.cap_drops,
        }
    }

    /// Advance the clock to `now_ms` and say whether a maintenance pass is due.
    /// The clock never goes back.
    pub fn plan_idle_maintenance(&mut self, now_ms: u64) -> (due: bool)
        ensures
            ({
                let now = if now_ms > old(self).idle_clock_ms {
                    now_ms
                } else {
                    old(self).idle_clock_ms
                };
                &&& due <==> now >= IDLE_MAINTENANCE_START_MS && now - old(
                    self,
                ).last_maintenance_ms >= MAINTENANCE_INTERVAL_MS
                &&& *final(self) == (SharedPools {
                    idle_clock_ms: now,
                    last_maintenance_ms: if due {
                        now
                    } else {
                        old(self).last_maintenance_ms
                    },
                    ..*old(self)
                })
            }),
            old(self).wf() ==> final(self).wf(),
    {
        if now_ms > self.idle_clock_ms {
            self.idle_clock_ms = now_ms;
        }
        let now: u64 = self.idle_clock_ms;
        if now < IDLE_MAINTENANCE_START_MS || now.saturating_sub(self.last_maintenance_ms)
            < MAINTENANCE_INTERVAL_MS {
            return false;
        }
        self.last_maintenance_ms = now;
        true
    }

    /// The scatter kernel, or whether it is to be made: once the driver refused
    /// it, it is not asked again.
    pub fn scatter_pipeline(&self) -> (have: (Option<ScatterPipeline>, bool))
        ensures
            have.0 == self.scatter,
            have.1 == (self.scatter is None && !self.scatter_refused),
    {
        match self.scatter {
            Some(kernel) => (Some(kernel), false),
            None => (None, !self.scatter_refused),
        }
    }

    /// The driver answered the request for the scatter kernel: nothing means
    /// that it refused.
    pub fn scatter_made(&mut self, made: Option<ScatterPipeline>)
        ensures
            *final(self) == match made {
                Some(_) => (SharedPools { scatter: made, ..*old(self) }),
                None => (SharedPools { scatter_refused: true, ..*old(self) }),
            },
            old(self).wf() ==> final(self).wf(),
    {
        match made {
            Some(kernel) => {
                self.scatter = Some(kernel);
            },
            None => {
                self.scatter_refused = true;
            },
        }
    }

    /// The imported allocations whose use has ended since they were last taken.
    pub fn take_completed_guest_imports(&mut self) -> (ended: Vec<ImportId>)
        ensures
            *final(self) == (SharedPools {
                completed_guest_imports: final(self).completed_guest_imports,
                ..*old(self)
            }),
            ended@ == old(self).completed_guest_imports@,
            final(self).completed_guest_imports@.len() == 0,
            old(self).wf() ==> final(self).wf(),
    {
        taken(&mut self.completed_guest_imports)
    }

    /// End the use of one imported allocation. Where something imported still
    /// lives in it, only the end is put on record.
    pub fn retire_guest_import(&mut self, import: ImportId, retired: ParentRetire) -> (destroy: Vec<
        DeferredHandle,
    >)
        requires
            old(self).wf(),
        ensures
            final(self).wf(),
            retired is NotImported ==> {
                &&& destroy@.len() == 0
                &&& *final(self) == (SharedPools {
                    completed_guest_imports: final(self).completed_guest_imports,
                    ..*old(self)
                })
                &&& final(self).completed_guest_imports@ == old(
                    self,
                ).completed_guest_imports@.push(import)
            },
            !(retired is NotImported) ==> disposed_one(
                *old(self),
                *final(self),
                if retired is Ready {
                    DeferredHandle::GuestAllocation(import)
                } else {
                    DeferredHandle::GuestAllocationBarrier(import)
                },
                destroy@,
            ),
    {
        match retired {
            ParentRetire::Ready => self.dispose(DeferredHandle::GuestAllocation(import)),
            ParentRetire::WaitingForChildren => self.dispose(
                DeferredHandle::GuestAllocationBarrier(import),
            ),
            ParentRetire::NotImported => {
                self.completed_guest_imports.push(import);
                Vec::new()
            },
        }
    }
}

/// What came of ending the use of an imported allocation.
#[derive(Clone, Copy, Debug, PartialEq, Eq, Structural)]
pub enum ParentRetire {
    /// Nothing imported lives in it.
    Ready,
    /// Something imported still does.
    WaitingForChildren,
    /// It was never imported.
    NotImported,
}

/// Sampled images are never destroyed and are no target images.
proof fn lemma_only_sampled(left: Seq<DeferredHandle>, given: Seq<DeferredHandle>)
    requires
        forall|i: int| 0 <= i < given.len() ==> (#[trigger] given[i]) is RecycleSampled,
    ensures
        destroyed_in(left + given) == destroyed_in(left),
        targets_in(left + given) == targets_in(left),
    decreases given.len(),
{
    if given.len() == 0 {
        assert(left + given =~= left);
    } else {
        assert((left + given).drop_last() =~= left + given.drop_last());
        assert((left + given).last() == given.last());
        lemma_only_sampled(left, given.drop_last());
    }
}

/// Nothing leaves the graveyard while a recording that may name it is not over,
/// and everything leaves it once none is left.
pub proof fn law_an_object_outlives_every_recording_that_may_name_it(
    graveyard: Seq<(RecordingPoint, DeferredHandle)>,
    prefix: u64,
    at: int,
)
    requires
        0 <= at < graveyard.len(),
    ensures
        graveyard[at].0.0 > prefix ==> waiting(graveyard, prefix).contains(graveyard[at]),
        graveyard[at].0.0 <= prefix ==> ready(graveyard, prefix).contains(graveyard[at].1),
        ready(graveyard, prefix).len() + waiting(graveyard, prefix).len() == graveyard.len(),
        forall|i: int|
            0 <= i < waiting(graveyard, prefix).len() ==> (#[trigger] waiting(
                graveyard,
                prefix,
            )[i]).0.0 > prefix,
    decreases graveyard.len(),
{
    lemma_partition(graveyard, prefix);
    let rest = graveyard.drop_last();
    if at == graveyard.len() - 1 {
        if graveyard[at].0.0 > prefix {
            assert(waiting(graveyard, prefix).last() == graveyard[at]);
        } else {
            assert(ready(graveyard, prefix).last() == graveyard[at].1);
        }
    } else {
        law_an_object_outlives_every_recording_that_may_name_it(rest, prefix, at);
        assert(rest[at] == graveyard[at]);
        if graveyard[at].0.0 > prefix {
            let i = choose|i: int|
                0 <= i < waiting(rest, prefix).len() && waiting(rest, prefix)[i] == graveyard[at];
            assert(waiting(graveyard, prefix)[i] == graveyard[at]);
        } else {
            let i = choose|i: int|
                0 <= i < ready(rest, prefix).len() && ready(rest, prefix)[i] == graveyard[at].1;
            assert(ready(graveyard, prefix)[i] == graveyard[at].1);
        }
    }
}

proof fn lemma_partition(graveyard: Seq<(RecordingPoint, DeferredHandle)>, prefix: u64)
    ensures
        ready(graveyard, prefix).len() + waiting(graveyard, prefix).len() == graveyard.len(),
        forall|i: int|
            0 <= i < waiting(graveyard, prefix).len() ==> (#[trigger] waiting(
                graveyard,
                prefix,
            )[i]).0.0 > prefix,
    decreases graveyard.len(),
{
    if graveyard.len() > 0 {
        lemma_partition(graveyard.drop_last(), prefix);
    }
}

/// An object that waits for a recording leaves the graveyard exactly once that
/// recording and all before it are over, behind those that came before it.
pub proof fn law_an_object_waits_for_its_own_recording(
    graveyard: Seq<(RecordingPoint, DeferredHandle)>,
    point: RecordingPoint,
    handle: DeferredHandle,
    prefix: u64,
)
    ensures
        ready(Seq::<(RecordingPoint, DeferredHandle)>::empty(), prefix).len() == 0,
        waiting(Seq::<(RecordingPoint, DeferredHandle)>::empty(), prefix).len() == 0,
        point.0 <= prefix ==> ready(graveyard.push((point, handle)), prefix) == ready(
            graveyard,
            prefix,
        ).push(handle) && waiting(graveyard.push((point, handle)), prefix) == waiting(
            graveyard,
            prefix,
        ),
        point.0 > prefix ==> ready(graveyard.push((point, handle)), prefix) == ready(
            graveyard,
            prefix,
        ) && waiting(graveyard.push((point, handle)), prefix) == waiting(graveyard, prefix).push(
            (point, handle),
        ),
{
    assert(graveyard.push((point, handle)).drop_last() =~= graveyard);
}

/// Every object that leaves the graveyard goes one way: a sampled image and a target
/// image are kept for reuse under their own shape, and anything else is destroyed.
pub proof fn law_every_object_goes_one_way(handles: Seq<DeferredHandle>, handle: DeferredHandle)
    ensures
        sampled_in(Seq::<DeferredHandle>::empty()).len() == 0,
        targets_in(Seq::<DeferredHandle>::empty()).len() == 0,
        destroyed_in(Seq::<DeferredHandle>::empty()).len() == 0,
        match handle {
            DeferredHandle::RecycleSampled(slot) => {
                &&& sampled_in(handles.push(handle)) == sampled_in(handles).push((slot.shape, slot))
                &&& targets_in(handles.push(handle)) == targets_in(handles)
                &&& destroyed_in(handles.push(handle)) == destroyed_in(handles)
            },
            DeferredHandle::RecycleTarget(image) => {
                &&& sampled_in(handles.push(handle)) == sampled_in(handles)
                &&& targets_in(handles.push(handle)) == targets_in(handles).push(
                    (image.shape, image),
                )
                &&& destroyed_in(handles.push(handle)) == destroyed_in(handles)
            },
            _ => {
                &&& sampled_in(handles.push(handle)) == sampled_in(handles)
                &&& targets_in(handles.push(handle)) == targets_in(handles)
                &&& destroyed_in(handles.push(handle)) == destroyed_in(handles).push(handle)
            },
        },
{
    assert(handles.push(handle).drop_last() =~= handles);
}

/// Nothing is lost on the way: as many objects are kept or destroyed as there were.
pub proof fn law_no_object_is_lost(handles: Seq<DeferredHandle>)
    ensures
        sampled_in(handles).len() + targets_in(handles).len() + destroyed_in(handles).len()
            == handles.len(),
        forall|k: int|
            0 <= k < destroyed_in(handles).len() ==> !(#[trigger] destroyed_in(
                handles,
            )[k] is RecycleSampled) && !(destroyed_in(handles)[k] is RecycleTarget),
        forall|k: int|
            0 <= k < sampled_in(handles).len() ==> (#[trigger] sampled_in(handles)[k]).0
                == sampled_in(handles)[k].1.shape,
        forall|k: int|
            0 <= k < targets_in(handles).len() ==> (#[trigger] targets_in(handles)[k]).0
                == targets_in(handles)[k].1.shape,
    decreases handles.len(),
{
    if handles.len() > 0 {
        law_no_object_is_lost(handles.drop_last());
    }
}

/// An object that is given up while some recording is not over waits for the last one
/// that may name it, and is neither destroyed nor used again meanwhile; else it is
/// dealt with at once.
pub proof fn law_an_object_given_up_waits_for_every_recording(
    before: SharedPools,
    after: SharedPools,
    handle: DeferredHandle,
    destroy: Seq<DeferredHandle>,
)
    requires
        disposed_one(before, after, handle, destroy),
    ensures
        before.retirement@.prefix() < before.retirement@.issued() ==> {
            &&& after.graveyard@.len() > 0
            &&& after.graveyard@.last().1 == handle
            &&& after.graveyard@.last().0.0 == before.retirement@.issued()
            &&& destroy == destroyed_in(ready(before.graveyard@, before.retirement@.prefix()))
        },
        before.retirement@.prefix() >= before.retirement@.issued() ==> {
            &&& after.graveyard@ == waiting(before.graveyard@, before.retirement@.prefix())
            &&& handle matches DeferredHandle::RecycleSampled(slot) ==> {
                &&& after.sampled_free.entries().len() > before.sampled_free.entries().len()
                &&& after.sampled_free.entries().last() == (slot.shape, slot)
            }
            &&& handle matches DeferredHandle::RecycleTarget(image) ==> {
                &&& after.target_free.entries().len() > before.target_free.entries().len()
                &&& after.target_free.entries().last() == (image.shape, image)
            }
            &&& !(handle is RecycleSampled) && !(handle is RecycleTarget) ==> destroy.len() > 0
                && destroy.last() == handle
        },
        after.retirement == before.retirement,
        after.targets == before.targets,
        after.sampled_cache == before.sampled_cache,
        after.attachment_snapshot_free == before.attachment_snapshot_free,
        after.storage_image_free == before.storage_image_free,
        after.multisample_target == before.multisample_target,
{
    let left = ready(before.graveyard@, before.retirement@.prefix());
    law_every_object_goes_one_way(left, handle);
}

/// Objects that are given up together wait together, each for the last recording
/// that may name it.
pub proof fn law_objects_given_up_wait_together(
    before: SharedPools,
    after: SharedPools,
    given: Seq<DeferredHandle>,
    destroy: Seq<DeferredHandle>,
    k: int,
)
    requires
        disposed(before, after, given, destroy),
        0 <= k < given.len(),
    ensures
        before.retirement@.prefix() < before.retirement@.issued() ==> {
            let stayed = waiting(before.graveyard@, before.retirement@.prefix()).len();
            &&& after.graveyard@.len() == stayed + given.len()
            &&& after.graveyard@[stayed + k].1 == given[k]
            &&& after.graveyard@[stayed + k].0.0 == before.retirement@.issued()
            &&& destroy == destroyed_in(ready(before.graveyard@, before.retirement@.prefix()))
        },
        before.retirement@.prefix() >= before.retirement@.issued() ==> {
            &&& after.graveyard@ == waiting(before.graveyard@, before.retirement@.prefix())
            &&& destroy == destroyed_in(
                ready(before.graveyard@, before.retirement@.prefix()) + given,
            )
            &&& after.sampled_free.entries() == before.sampled_free.entries() + sampled_in(
                ready(before.graveyard@, before.retirement@.prefix()) + given,
            )
            &&& after.target_free.entries() == before.target_free.entries() + targets_in(
                ready(before.graveyard@, before.retirement@.prefix()) + given,
            )
        },
        after.retirement == before.retirement,
        after.targets == before.targets,
        after.sampled_cache == before.sampled_cache,
{
}

/// Sampled images that are given up are used again, never destroyed: at once, or
/// when the last recording that may name them is over.
pub proof fn law_sampled_images_given_up_are_used_again(
    before: SharedPools,
    after: SharedPools,
    slots: Seq<SampledSlot>,
    destroy: Seq<DeferredHandle>,
    k: int,
)
    requires
        disposed_sampled(before, after, slots, destroy),
        0 <= k < slots.len(),
    ensures
        destroy == destroyed_in(ready(before.graveyard@, before.retirement@.prefix())),
        before.retirement@.prefix() < before.retirement@.issued() ==> {
            let stayed = waiting(before.graveyard@, before.retirement@.prefix()).len();
            &&& after.graveyard@.len() == stayed + slots.len()
            &&& after.graveyard@[stayed + k].1 == DeferredHandle::RecycleSampled(slots[k])
            &&& after.graveyard@[stayed + k].0.0 == before.retirement@.issued()
        },
        before.retirement@.prefix() >= before.retirement@.issued() ==> after.graveyard@ == waiting(
            before.graveyard@,
            before.retirement@.prefix(),
        ),
        after.retirement == before.retirement,
        after.targets == before.targets,
{
}

/// Letting the graveyard go takes out what no recording can name any more, and
/// leaves the rest.
pub proof fn law_the_graveyard_keeps_what_may_still_be_named(
    before: SharedPools,
    after: SharedPools,
    destroy: Seq<DeferredHandle>,
    k: int,
)
    requires
        graveyard_released(before, after, destroy),
    ensures
        after.retirement == before.retirement,
        0 <= k < before.graveyard@.len() && before.graveyard@[k].0.0 > before.retirement@.prefix()
            ==> after.graveyard@.contains(before.graveyard@[k]),
        forall|i: int|
            0 <= i < after.graveyard@.len() ==> (#[trigger] after.graveyard@[i]).0.0
                > before.retirement@.prefix(),
        destroy.len() + (after.sampled_free.entries().len() - before.sampled_free.entries().len())
            + (after.target_free.entries().len() - before.target_free.entries().len())
            + after.graveyard@.len() == before.graveyard@.len(),
{
    let prefix = before.retirement@.prefix();
    law_no_object_is_lost(ready(before.graveyard@, prefix));
    if 0 <= k < before.graveyard@.len() {
        law_an_object_outlives_every_recording_that_may_name_it(before.graveyard@, prefix, k);
    } else if before.graveyard@.len() > 0 {
        law_an_object_outlives_every_recording_that_may_name_it(before.graveyard@, prefix, 0);
    }
}

/// What a pool takes back it keeps, behind what it kept, and counts; nothing else of
/// it changes.
pub proof fn law_a_pool_keeps_what_it_takes_back<K: crate::pools::free_pool::PoolKey, V>(
    before: FreePool<K, V>,
    after: FreePool<K, V>,
    more: Seq<(K, V)>,
    k: int,
)
    requires
        took_back(before, after, more),
        0 <= k < more.len(),
    ensures
        after.entries().len() == before.entries().len() + more.len(),
        after.entries()[before.entries().len() + k] == more[k],
        forall|i: int|
            0 <= i < before.entries().len() ==> #[trigger] after.entries()[i]
                == before.entries()[i],
        after.counted().hits == before.counted().hits,
        after.counted().allocs == before.counted().allocs,
        after.counted().cap_drops == before.counted().cap_drops,
        before.counted().admits + more.len() <= u64::MAX ==> after.counted().admits
            == before.counted().admits + more.len(),
{
}

/// An image is kept under its own shape.
pub proof fn law_images_are_kept_under_their_own_shape(
    sampled: Seq<SampledSlot>,
    storage: Seq<StorageImageSlot>,
    k: int,
)
    ensures
        keyed_sampled(sampled).len() == sampled.len(),
        keyed_storage(storage).len() == storage.len(),
        0 <= k < sampled.len() ==> keyed_sampled(sampled)[k] == (sampled[k].shape, sampled[k]),
        0 <= k < storage.len() ==> keyed_storage(storage)[k] == (storage[k].key, storage[k]),
{
}

/// Fresh pools hold nothing: no image, no target, nothing kept, nothing waiting, and no point
/// issued.
pub proof fn law_fresh_pools_hold_nothing(pools: SharedPools)
    requires
        pools.is_fresh(),
    ensures
        pools.retirement@.issued() == 0,
        pools.graveyard@.len() == 0,
        pools.targets@.len() == 0,
        pools.multisample_target is None,
        pools.ad_hoc_framebuffers@.len() == 0,
        pools.sampled_free.entries().len() == 0,
        pools.attachment_snapshot_free.entries().len() == 0,
        pools.storage_image_free.entries().len() == 0,
        pools.target_free.entries().len() == 0,
        pools.sampled_cache@.len() == 0,
        pools.sampled_cache.bytes == 0,
        pools.compute_storage_registry@.len() == 0,
        pools.heap_placement_memory@.len() == 0,
        pools.registry@.len() == 0,
        pools.scatter is None,
        !pools.scatter_refused,
        pools.completed_guest_imports@.len() == 0,
        pools.idle_clock_ms == 0,
        pools.last_maintenance_ms == 0,
        pools.settled_maintenance_passes == 0,
        pools.sampled_free.counted().hits == 0,
        pools.sampled_free.counted().allocs == 0,
        pools.target_free.counted().hits == 0,
        pools.storage_image_free.counted().admits == 0,
{
}

/// Where nothing is given up nothing happens, and whatever is given up, only the graveyard and
/// the kept images change.
pub proof fn law_giving_up_nothing_changes_nothing(
    before: SharedPools,
    after: SharedPools,
    given: Seq<DeferredHandle>,
    destroy: Seq<DeferredHandle>,
)
    requires
        disposed(before, after, given, destroy),
    ensures
        given.len() == 0 ==> after == before && destroy.len() == 0,
        after.storage_image_free == before.storage_image_free,
        after.attachment_snapshot_free == before.attachment_snapshot_free,
        after.registry == before.registry,
        after.multisample_target == before.multisample_target,
        after.compute_storage_registry == before.compute_storage_registry,
        after.heap_placement_memory == before.heap_placement_memory,
        after.retirement == before.retirement,
{
}

} // verus!
