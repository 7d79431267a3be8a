//! Taking everything down. The order is the point of it: the command buffers
//! end first, what they hold joins what is held anyway, and everything native
//! goes in one fixed order, each object before what it rests on.

use crate::decline::fields_text;
use crate::pools::encoder::{lemma_pending_update, slot_wf, EncoderPools, LeasedReadback};
use crate::pools::entry::{submit_return, taken};
use crate::pools::free_pool::values_of;
use crate::pools::graphics::GraphicsView;
use crate::pools::guest_debt::AbortedWork;
use crate::pools::readback::given_back;
use crate::pools::resource::{
    admission_slots, held_point, lemma_points_by_slot, lemma_slot_let_go, reclaimed, settled,
    Released, ResourcePools,
};
use crate::pools::sampled_cache::CachedImage;
use crate::pools::shared::{
    destroyed_in, sampled_in, targets_in, HeapPlacement, PooledTarget, ResidentStorage,
    ResidentTarget, ScatterPipeline, SharedPools, TargetSlot,
};
use crate::pools::slots::{
    BufferSlot, CmdSlot, DeferredHandle, DescriptorRef, FreeTargetImage, GuestWriteToken,
    PendingGpuCleanup, SampledSlot, SlotSpan, SlotSubmission, StorageImageBacking, StorageImageSlot,
};
use crate::pools::visibility::CbGuestVisibility;
use crate::retirement::RecordingPoint;
use crate::text::{decimal, decimal_text};
use crate::types::{VkCall, VkOp};
use crate::vk::{CommandPool, DeviceMemory, Fence, Framebuffer, Image, ImageView, VkResult};
use vstd::prelude::*;

verus! {

/// How long the holders of lent readback buffers are waited for, in
/// milliseconds.
pub const LEASE_QUIESCE_MS: u64 = 500;

/// A native object to let go of.
#[derive(Clone, Copy, Debug, PartialEq, Eq, Structural)]
pub enum NativeRelease {
    /// An object that had waited for a recording.
    Deferred(DeferredHandle),
    /// A buffer with its memory.
    Buffer(BufferSlot),
    /// A framebuffer.
    Framebuffer(Framebuffer),
    /// A view.
    View(ImageView),
    /// An image.
    Image(Image),
    /// An allocation.
    Memory(DeviceMemory),
    /// Every imported allocation of the guest.
    GuestImports,
    /// Every shared block that images are bound to.
    ImageBlocks,
    /// Every shared block that buffers are bound to.
    BufferBlocks,
    /// A fence.
    Fence(Fence),
    /// A descriptor set.
    Descriptors(DescriptorRef),
    /// The scatter kernel.
    Scatter(ScatterPipeline),
    /// The descriptor arena.
    Arena,
    /// A command pool.
    CommandPool(CommandPool),
}

/// What letting go of `buffers` takes.
pub open spec fn buffer_releases(buffers: Seq<BufferSlot>) -> Seq<NativeRelease> {
    buffers.map_values(|slot: BufferSlot| NativeRelease::Buffer(slot))
}

/// What letting go of sampled images takes: each view, then its image. The
/// memory belongs to shared blocks.
pub open spec fn sampled_releases(slots: Seq<SampledSlot>) -> Seq<NativeRelease>
    decreases slots.len(),
{
    if slots.len() == 0 {
        Seq::empty()
    } else {
        sampled_releases(slots.drop_last()) + seq![
            NativeRelease::View(slots.last().view),
            NativeRelease::Image(slots.last().image),
        ]
    }
}

/// What letting go of free target images takes.
pub open spec fn free_target_releases(images: Seq<FreeTargetImage>) -> Seq<NativeRelease>
    decreases images.len(),
{
    if images.len() == 0 {
        Seq::empty()
    } else {
        free_target_releases(images.drop_last()) + seq![
            NativeRelease::View(images.last().view),
            NativeRelease::Image(images.last().image),
        ]
    }
}

/// What letting go of one storage image takes: its view, and the image with its
/// memory where no heap owns them.
pub open spec fn storage_release(slot: StorageImageSlot) -> Seq<NativeRelease> {
    match slot.backing {
        StorageImageBacking::Dedicated(memory) => seq![
            NativeRelease::View(slot.view),
            NativeRelease::Image(slot.image),
            NativeRelease::Memory(memory),
        ],
        StorageImageBacking::HeapPlacement { .. } => seq![NativeRelease::View(slot.view)],
    }
}

/// What letting go of storage images takes.
pub open spec fn storage_releases(slots: Seq<StorageImageSlot>) -> Seq<NativeRelease>
    decreases slots.len(),
{
    if slots.len() == 0 {
        Seq::empty()
    } else {
        storage_releases(slots.drop_last()) + storage_release(slots.last())
    }
}

/// What letting go of images that heaps own takes.
pub open spec fn heap_releases(placements: Seq<HeapPlacement>) -> Seq<NativeRelease>
    decreases placements.len(),
{
    if placements.len() == 0 {
        Seq::empty()
    } else {
        heap_releases(placements.drop_last()) + seq![
            NativeRelease::Image(placements.last().image),
            NativeRelease::Memory(placements.last().memory),
        ]
    }
}

/// What letting go of one scratch target takes: its framebuffer, its view and
/// its image.
pub open spec fn target_release(slot: TargetSlot) -> Seq<NativeRelease> {
    seq![
        NativeRelease::Framebuffer(slot.framebuffer),
        NativeRelease::View(slot.view),
        NativeRelease::Image(slot.image),
    ]
}

/// What letting go of scratch targets takes.
pub open spec fn target_releases(targets: Seq<PooledTarget>) -> Seq<NativeRelease>
    decreases targets.len(),
{
    if targets.len() == 0 {
        Seq::empty()
    } else {
        target_releases(targets.drop_last()) + target_release(targets.last().slot)
    }
}

/// What letting go of one resident takes: its framebuffer, its further views,
/// its view and its image.
pub open spec fn resident_release(resident: ResidentTarget) -> Seq<NativeRelease> {
    seq![NativeRelease::Framebuffer(resident.framebuffer)]
        + resident.alternate_views@.map_values(|view: ImageView| NativeRelease::View(view)) + seq![
        NativeRelease::View(resident.view),
        NativeRelease::Image(resident.image),
    ]
}

/// What letting go of residents takes.
pub open spec fn resident_releases(residents: Seq<ResidentTarget>) -> Seq<NativeRelease>
    decreases residents.len(),
{
    if residents.len() == 0 {
        Seq::empty()
    } else {
        resident_releases(residents.drop_last()) + resident_release(residents.last())
    }
}

fn release_buffers_of(out: &mut Vec<NativeRelease>, slots: &Vec<BufferSlot>)
    ensures
        final(out)@ == old(out)@ + buffer_releases(slots@),
{
    let mut k: usize = 0;
    while k < slots.len()
        invariant
            k <= slots@.len(),
            out@ == old(out)@ + buffer_releases(slots@.take(k as int)),
        decreases slots@.len() - k,
    {
        out.push(NativeRelease::Buffer(slots[k]));
        k += 1;
        assert(out@ =~= old(out)@ + buffer_releases(slots@.take(k as int)));
    }
    assert(slots@.take(k as int) =~= slots@);
}

fn release_sampled(out: &mut Vec<NativeRelease>, slots: &Vec<SampledSlot>)
    ensures
        final(out)@ == old(out)@ + sampled_releases(slots@),
{
    let mut k: usize = 0;
    while k < slots.len()
        invariant
            k <= slots@.len(),
            out@ == old(out)@ + sampled_releases(slots@.take(k as int)),
        decreases slots@.len() - k,
    {
        assert(slots@.take(k + 1).drop_last() =~= slots@.take(k as int));
        out.push(NativeRelease::View(slots[k].view));
        out.push(NativeRelease::Image(slots[k].image));
        k += 1;
        assert(out@ =~= old(out)@ + sampled_releases(slots@.take(k as int)));
    }
    assert(slots@.take(k as int) =~= slots@);
}

fn release_free_targets(out: &mut Vec<NativeRelease>, images: &Vec<FreeTargetImage>)
    ensures
        final(out)@ == old(out)@ + free_target_releases(images@),
{
    let mut k: usize = 0;
    while k < images.len()
        invariant
            k <= images@.len(),
            out@ == old(out)@ + free_target_releases(images@.take(k as int)),
        decreases images@.len() - k,
    {
        assert(images@.take(k + 1).drop_last() =~= images@.take(k as int));
        out.push(NativeRelease::View(images[k].view));
        out.push(NativeRelease::Image(images[k].image));
        k += 1;
        assert(out@ =~= old(out)@ + free_target_releases(images@.take(k as int)));
    }
    assert(images@.take(k as int) =~= images@);
}

fn release_storage(out: &mut Vec<NativeRelease>, slots: &Vec<StorageImageSlot>)
    ensures
        final(out)@ == old(out)@ + storage_releases(slots@),
{
    let mut k: usize = 0;
    while k < slots.len()
        invariant
            k <= slots@.len(),
            out@ == old(out)@ + storage_releases(slots@.take(k as int)),
        decreases slots@.len() - k,
    {
        assert(slots@.take(k + 1).drop_last() =~= slots@.take(k as int));
        let slot: StorageImageSlot = slots[k];
        out.push(NativeRelease::View(slot.view));
        match slot.backing {
            StorageImageBacking::Dedicated(memory) => {
                out.push(NativeRelease::Image(slot.image));
                out.push(NativeRelease::Memory(memory));
            },
            StorageImageBacking::HeapPlacement { .. } => {},
        }
        k += 1;
        assert(out@ =~= old(out)@ + storage_releases(slots@.take(k as int)));
    }
    assert(slots@.take(k as int) =~= slots@);
}

fn release_heaps(out: &mut Vec<NativeRelease>, placements: &Vec<HeapPlacement>)
    ensures
        final(out)@ == old(out)@ + heap_releases(placements@),
{
    let mut k: usize = 0;
    while k < placements.len()
        invariant
            k <= placements@.len(),
            out@ == old(out)@ + heap_releases(placements@.take(k as int)),
        decreases placements@.len() - k,
    {
        assert(placements@.take(k + 1).drop_last() =~= placements@.take(k as int));
        out.push(NativeRelease::Image(placements[k].image));
        out.push(NativeRelease::Memory(placements[k].memory));
        k += 1;
        assert(out@ =~= old(out)@ + heap_releases(placements@.take(k as int)));
    }
    assert(placements@.take(k as int) =~= placements@);
}

fn release_target(out: &mut Vec<NativeRelease>, slot: &TargetSlot)
    ensures
        final(out)@ == old(out)@ + target_release(*slot),
{
    out.push(NativeRelease::Framebuffer(slot.framebuffer));
    out.push(NativeRelease::View(slot.view));
    out.push(NativeRelease::Image(slot.image));
    assert(out@ =~= old(out)@ + target_release(*slot));
}

fn release_targets(out: &mut Vec<NativeRelease>, targets: &Vec<PooledTarget>)
    ensures
        final(out)@ == old(out)@ + target_releases(targets@),
{
    let mut k: usize = 0;
    while k < targets.len()
        invariant
            k <= targets@.len(),
            out@ == old(out)@ + target_releases(targets@.take(k as int)),
        decreases targets@.len() - k,
    {
        assert(targets@.take(k + 1).drop_last() =~= targets@.take(k as int));
        release_target(out, &targets[k].slot);
        k += 1;
        assert(out@ =~= old(out)@ + target_releases(targets@.take(k as int)));
    }
    assert(targets@.take(k as int) =~= targets@);
}

fn release_residents(out: &mut Vec<NativeRelease>, residents: &Vec<ResidentTarget>)
    ensures
        final(out)@ == old(out)@ + resident_releases(residents@),
{
    let mut k: usize = 0;
    while k < residents.len()
        invariant
            k <= residents@.len(),
            out@ == old(out)@ + resident_releases(residents@.take(k as int)),
        decreases residents@.len() - k,
    {
        assert(residents@.take(k + 1).drop_last() =~= residents@.take(k as int));
        let ghost before = out@;
        let resident = &residents[k];
        let ghost views = resident.alternate_views@.map_values(
            |view: ImageView| NativeRelease::View(view),
        );
        out.push(NativeRelease::Framebuffer(resident.framebuffer));
        let mut j: usize = 0;
        while j < resident.alternate_views.len()
            invariant
                j <= resident.alternate_views@.len(),
                views == resident.alternate_views@.map_values(
                    |view: ImageView| NativeRelease::View(view),
                ),
                out@ == before + (seq![NativeRelease::Framebuffer(resident.framebuffer)]
                    + views.take(j as int)),
            decreases resident.alternate_views@.len() - j,
        {
            out.push(NativeRelease::View(resident.alternate_views[j]));
            j += 1;
            assert(out@ =~= before + (seq![NativeRelease::Framebuffer(resident.framebuffer)]
                + views.take(j as int)));
        }
        assert(views.take(j as int) =~= views);
        out.push(NativeRelease::View(resident.view));
        out.push(NativeRelease::Image(resident.image));
        k += 1;
        assert(out@ =~= before + resident_release(*resident));
        assert(out@ =~= old(out)@ + resident_releases(residents@.take(k as int)));
    }
    assert(residents@.take(k as int) =~= residents@);
}

/// What getting slot `index` back from a hand-over does. A sealed entry never
/// reached the queue: it is given up like any other that the queue refused.
pub open spec fn recovers(
    before: ResourcePools,
    after: ResourcePools,
    index: int,
    released: Option<Released>,
) -> bool {
    match before.encoder.slots@[index].submission {
        SlotSubmission::SealedWaitingCommit(sealed) => {
            &&& released is Some
            &&& settled(
                before.shared,
                after.shared,
                sealed.cleanup.shared.sampled@ + admission_slots(sealed.admissions@),
                sealed.cleanup.shared.attachment_snapshots@,
                sealed.cleanup.shared.storage_images@,
                sealed.recording@,
                released->0.destroy@,
            )
            &&& released->0.tokens == sealed.cleanup.visibility.guest_write_tokens
            &&& released->0.unpin_residents == sealed.cleanup.shared.unpin_residents
            &&& released->0.unpin_compute_residents
                == sealed.cleanup.shared.unpin_compute_residents
            &&& released->0.free_sets == sealed.cleanup.encoder.dsets
            &&& after.encoder == (EncoderPools {
                slots: after.encoder.slots,
                scatter_dset_free: after.encoder.scatter_dset_free,
                staging_free: after.encoder.staging_free,
                gather_free: after.encoder.gather_free,
                readback_free: after.encoder.readback_free,
                ..before.encoder
            })
            &&& after.encoder.slots@ == before.encoder.slots@.update(
                index,
                CmdSlot {
                    submission: SlotSubmission::HostOwned,
                    span: SlotSpan::Idle,
                    readback_span_armed: false,
                    pass_spans: 0,
                    ..before.encoder.slots@[index]
                },
            )
            &&& reclaimed(before.encoder, after.encoder, sealed.cleanup.encoder)
        },
        _ => released is None && after == before,
    }
}

/// `steps` are the states between which slot after slot was got back.
pub open spec fn recovers_all(steps: Seq<ResourcePools>, released: Seq<Option<Released>>) -> bool {
    &&& steps.len() == released.len() + 1
    &&& forall|i: int|
        0 <= i < released.len() ==> recovers(
            steps[i],
            steps[i + 1],
            i,
            #[trigger] released[i],
        )
}

/// The fences that must signal: of every slot that is submitted, but for those
/// that the queue failed.
pub open spec fn fences_due(slots: Seq<CmdSlot>) -> Seq<Fence>
    decreases slots.len(),
{
    if slots.len() == 0 {
        Seq::empty()
    } else {
        let before = fences_due(slots.drop_last());
        if slots.last().pending is Some && !(slots.last().submission is Failed) {
            before.push(slots.last().fence)
        } else {
            before
        }
    }
}

/// What the slots of a ring hold.
pub open spec fn held_by(slots: Seq<CmdSlot>) -> Seq<PendingGpuCleanup>
    decreases slots.len(),
{
    if slots.len() == 0 {
        Seq::empty()
    } else {
        let before = held_by(slots.drop_last());
        match slots.last().pending {
            Some(pending) => before.push(pending),
            None => before,
        }
    }
}

/// The guest writes of what was held.
pub open spec fn held_tokens(held: Seq<PendingGpuCleanup>) -> Seq<GuestWriteToken>
    decreases held.len(),
{
    if held.len() == 0 {
        Seq::empty()
    } else {
        held_tokens(held.drop_last()) + held.last().visibility.guest_write_tokens@
    }
}

/// The upload buffers of what was held.
pub open spec fn held_staging(held: Seq<PendingGpuCleanup>) -> Seq<BufferSlot>
    decreases held.len(),
{
    if held.len() == 0 {
        Seq::empty()
    } else {
        held_staging(held.drop_last()) + held.last().encoder.staging@
    }
}

/// The gather buffers of what was held.
pub open spec fn held_gather(held: Seq<PendingGpuCleanup>) -> Seq<BufferSlot>
    decreases held.len(),
{
    if held.len() == 0 {
        Seq::empty()
    } else {
        held_gather(held.drop_last()) + held.last().encoder.gather@
    }
}

/// The readback buffers of what was held.
pub open spec fn held_readback(held: Seq<PendingGpuCleanup>) -> Seq<BufferSlot>
    decreases held.len(),
{
    if held.len() == 0 {
        Seq::empty()
    } else {
        held_readback(held.drop_last()) + held.last().encoder.readback@
    }
}

/// The sampled images of what was held.
pub open spec fn held_sampled(held: Seq<PendingGpuCleanup>) -> Seq<SampledSlot>
    decreases held.len(),
{
    if held.len() == 0 {
        Seq::empty()
    } else {
        held_sampled(held.drop_last()) + held.last().shared.sampled@
    }
}

/// The attachment snapshots of what was held.
pub open spec fn held_snapshots(held: Seq<PendingGpuCleanup>) -> Seq<SampledSlot>
    decreases held.len(),
{
    if held.len() == 0 {
        Seq::empty()
    } else {
        held_snapshots(held.drop_last()) + held.last().shared.attachment_snapshots@
    }
}

/// The storage images of what was held.
pub open spec fn held_storage(held: Seq<PendingGpuCleanup>) -> Seq<StorageImageSlot>
    decreases held.len(),
{
    if held.len() == 0 {
        Seq::empty()
    } else {
        held_storage(held.drop_last()) + held.last().shared.storage_images@
    }
}

/// No slot is being handed to the queue.
pub open spec fn nothing_sealed(encoder: EncoderPools) -> bool {
    forall|i: int|
        0 <= i < encoder.slots@.len() ==> !((#[trigger] encoder.slots@[i]).submission
            is SealedWaitingCommit)
}

/// No command buffer is submitted.
pub open spec fn nothing_submitted(encoder: EncoderPools) -> bool {
    forall|i: int| 0 <= i < encoder.slots@.len() ==> (#[trigger] encoder.slots@[i]).pending is None
}

/// What giving up the recording under way does.
pub open spec fn began(before: ResourcePools, after: ResourcePools, aborted: AbortedWork) -> bool {
    &&& crate::pools::entry::in_token_order(aborted.tokens@)
    &&& crate::pools::entry::lists_tokens(
        before.encoder.guest_write_tokens_live@,
        aborted.tokens@,
    )
    &&& aborted.unpin_residents == before.encoder.resident_pins_live
    &&& aborted.unpin_compute_residents == before.encoder.compute_write_pins_live
    &&& after.encoder == (EncoderPools {
        open_batch: None,
        recording: None,
        guest_write_tokens_live: after.encoder.guest_write_tokens_live,
        resident_pins_live: after.encoder.resident_pins_live,
        compute_write_pins_live: after.encoder.compute_write_pins_live,
        open_pass: None,
        last_pass: None,
        cb_graphics: after.encoder.cb_graphics,
        cb_guest_visibility: CbGuestVisibility::nothing(),
        ..before.encoder
    })
    &&& after.encoder.guest_write_tokens_live@ == Map::<Set<u64>, GuestWriteToken>::empty()
    &&& after.encoder.resident_pins_live@.len() == 0
    &&& after.encoder.compute_write_pins_live@.len() == 0
    &&& after.encoder.cb_graphics@ == GraphicsView::nothing(None)
    &&& after.shared == (SharedPools {
        retirement: after.shared.retirement,
        ..before.shared
    })
    &&& after.shared.retirement@.issued() == before.shared.retirement@.issued()
    &&& forall|p: int|
        after.shared.retirement@.is_terminal(p) == (before.shared.retirement@.is_terminal(p) || (before.encoder.recording matches Some(lease) && p == lease@))
}

/// What getting slot `index` back from the queue does.
pub open spec fn receipt_taken(
    before: ResourcePools,
    after: ResourcePools,
    index: usize,
    received: Option<Result<(), VkResult>>,
    report: Option<VkCall>,
) -> bool {
    &&& after.shared == before.shared
    &&& after.encoder == (EncoderPools {
        slots: after.encoder.slots,
        ..before.encoder
    })
    &&& ({
        let slot = before.encoder.slots@[index as int];
        match submit_return(slot.submission, received) {
            Ok(_) => {
                &&& report is None
                &&& after.encoder.slots@ == before.encoder.slots@.update(
                    index as int,
                    (CmdSlot { submission: SlotSubmission::HostOwned, ..slot }),
                )
            },
            Err(result) => {
                &&& report == Some(VkCall { op: VkOp::PoolsWaitFencesDestroy, result })
                &&& after.encoder.slots@ == before.encoder.slots@.update(
                    index as int,
                    (CmdSlot { submission: SlotSubmission::Failed(result), ..slot }),
                )
            },
        }
    })
}

/// What joining everything held does.
pub open spec fn collected(before: ResourcePools, after: ResourcePools, tokens: Seq<GuestWriteToken>) -> bool {
    &&& after.shared == before.shared
    &&& after.encoder == (EncoderPools {
        slots: after.encoder.slots,
        in_flight: 0,
        staging_live: after.encoder.staging_live,
        gather_live: after.encoder.gather_live,
        readback_multi_live: after.encoder.readback_multi_live,
        sampled_live: after.encoder.sampled_live,
        attachment_snapshot_live: after.encoder.attachment_snapshot_live,
        storage_image_live: after.encoder.storage_image_live,
        ..before.encoder
    })
    &&& ({
        let held = held_by(before.encoder.slots@);
        &&& tokens == held_tokens(held)
        &&& after.encoder.staging_live@ == before.encoder.staging_live@ + held_staging(held)
        &&& after.encoder.gather_live@ == before.encoder.gather_live@ + held_gather(held)
        &&& after.encoder.readback_multi_live@ == before.encoder.readback_multi_live@ + held_readback(held)
        &&& after.encoder.sampled_live@ == before.encoder.sampled_live@ + held_sampled(held)
        &&& after.encoder.attachment_snapshot_live@ == before.encoder.attachment_snapshot_live@
            + held_snapshots(held)
        &&& after.encoder.storage_image_live@ == before.encoder.storage_image_live@ + held_storage(held)
    })
    &&& after.encoder.slots@.len() == before.encoder.slots@.len()
    &&& forall|i: int|
        0 <= i < after.encoder.slots@.len() ==> (#[trigger] after.encoder.slots@[i]) == (CmdSlot {
            pending: None,
            retirement: None,
            ..before.encoder.slots@[i]
        })
}

impl ResourcePools {
    /// Begin to take everything down: no command of the command buffer under way
    /// will be submitted, so an open pass is dropped with it.
    pub fn begin_teardown(&mut self) -> (aborted: AbortedWork)
        requires
            old(self).wf(),
        ensures
            final(self).wf(),
            began(*old(self), *final(self), aborted),
    {
        self.discard_open_batch();
        let aborted = self.abort_recorded_guest_work();
        self.encoder.open_pass = None;
        self.encoder.forget_recorded();
        aborted
    }

    /// Get slot `index` back where it was being handed to the queue.
    pub fn recover_sealed(&mut self, index: usize) -> (released: Option<Released>)
        requires
            old(self).wf(),
            index < old(self).encoder.slots@.len(),
        ensures
            final(self).wf(),
            recovers(*old(self), *final(self), index as int, released),
    {
        let waits: bool = matches!(
            self.encoder.slots[index].submission,
            SlotSubmission::SealedWaitingCommit(_)
        );
        if !waits {
            return None;
        }
        let mut submission = SlotSubmission::HostOwned;
        std::mem::swap(&mut submission, &mut self.encoder.slots[index].submission);
        match submission {
            SlotSubmission::SealedWaitingCommit(sealed) => {
                proof {
                    let slot = self.encoder.slots@[index as int];
                    assert(self.encoder.slots@ =~= old(self).encoder.slots@.update(
                        index as int,
                        slot,
                    ));
                    lemma_pending_update(old(self).encoder.slots@, index as int, slot);
                    assert(slot_wf(old(self).encoder.slots@[index as int]));
                    lemma_slots_stay(old(self).encoder, self.encoder, index as int);
                    lemma_slot_let_go(
                        old(self).encoder,
                        self.encoder,
                        index as int,
                        self.shared.retirement@,
                    );
                }
                let released = self.abort_sealed_entry(index, sealed);
                assert(self.encoder.slots@ =~= old(self).encoder.slots@.update(
                    index as int,
                    CmdSlot {
                        submission: SlotSubmission::HostOwned,
                        span: SlotSpan::Idle,
                        readback_span_armed: false,
                        pass_spans: 0,
                        ..old(self).encoder.slots@[index as int]
                    },
                ));
                Some(released)
            },
            _ => None,
        }
    }

    /// Get every slot back that was being handed to the queue, one after the
    /// other.
    pub fn recover_all_sealed(&mut self) -> (released: Vec<Option<Released>>)
        requires
            old(self).wf(),
        ensures
            final(self).wf(),
            final(self).encoder.slots@.len() == old(self).encoder.slots@.len(),
            final(self).encoder.recording == old(self).encoder.recording,
            final(self).encoder.open_batch == old(self).encoder.open_batch,
            released@.len() == old(self).encoder.slots@.len(),
            exists|steps: Seq<ResourcePools>| #[trigger]
                recovers_all(steps, released@) && steps[0] == *old(self) && steps.last() == *final(self),
            nothing_sealed(final(self).encoder),
    {
        let mut released: Vec<Option<Released>> = Vec::new();
        let ghost mut steps: Seq<ResourcePools> = seq![*self];
        let mut k: usize = 0;
        while k < self.encoder.slots.len()
            invariant
                k <= self.encoder.slots@.len(),
                self.wf(),
                self.encoder.slots@.len() == old(self).encoder.slots@.len(),
                self.encoder.recording == old(self).encoder.recording,
                self.encoder.open_batch == old(self).encoder.open_batch,
                released@.len() == k,
                recovers_all(steps, released@),
                steps[0] == *old(self),
                steps.last() == *self,
                forall|i: int|
                    0 <= i < k ==> !((#[trigger] self.encoder.slots@[i]).submission
                        is SealedWaitingCommit),
            decreases self.encoder.slots@.len() - k,
        {
            let ghost before = *self;
            let ghost told = released@;
            let one = self.recover_sealed(k);
            released.push(one);
            proof {
                let next = steps.push(*self);
                assert forall|i: int| 0 <= i < released@.len() implies recovers(
                    next[i],
                    next[i + 1],
                    i,
                    #[trigger] released@[i],
                ) by {
                    if i < told.len() {
                        assert(released@[i] == told[i]);
                    } else {
                        assert(next[i] == before);
                        assert(next[i + 1] == *self);
                    }
                }
                steps = next;
                assert forall|i: int| 0 <= i < k + 1 implies !((
                #[trigger] self.encoder.slots@[i]).submission is SealedWaitingCommit) by {
                    if i < k {
                        assert(!(before.encoder.slots@[i].submission is SealedWaitingCommit));
                    }
                }
            }
            k += 1;
        }
        assert(recovers_all(steps, released@));
        released
    }

    /// Get slot `index` back from the queue. `received` is what its receipt gave,
    /// where the queue owned it. A failure is reported, and the slot's fence is
    /// never waited for.
    pub fn take_receipt(
        &mut self,
        index: usize,
        received: Option<Result<(), VkResult>>,
    ) -> (report: Option<VkCall>)
        requires
            old(self).wf(),
            old(self).encoder.recording is None,
            index < old(self).encoder.slots@.len(),
            !(old(self).encoder.slots@[index as int].submission is SealedWaitingCommit),
        ensures
            final(self).wf(),
            receipt_taken(*old(self), *final(self), index, received, report),
    {
        let mut submission = SlotSubmission::HostOwned;
        std::mem::swap(&mut submission, &mut self.encoder.slots[index].submission);
        let result: Result<(), VkResult> = match submission {
            SlotSubmission::HostOwned => Ok(()),
            SlotSubmission::SealedWaitingCommit(_) => Ok(()),
            SlotSubmission::QueueOwned(receipt) => receipt.wait(received),
            SlotSubmission::Failed(error) => Err(error),
        };
        let report: Option<VkCall> = match result {
            Ok(()) => None,
            Err(error) => {
                self.encoder.slots[index].submission = SlotSubmission::Failed(error);
                Some(VkCall::new(VkOp::PoolsWaitFencesDestroy, error))
            },
        };
        proof {
            let slot = self.encoder.slots@[index as int];
            assert(self.encoder.slots@ =~= old(self).encoder.slots@.update(index as int, slot));
            lemma_pending_update(old(self).encoder.slots@, index as int, slot);
            assert(slot_wf(old(self).encoder.slots@[index as int]));
            lemma_slots_stay(old(self).encoder, self.encoder, index as int);
            lemma_points_by_slot(
                old(self).encoder,
                self.encoder,
                index as int,
                self.shared.retirement@,
            );
        }
        report
    }

    /// The fences to wait for before anything goes.
    pub fn fences_to_wait(&self) -> (fences: Vec<Fence>)
        ensures
            fences@ == fences_due(self.encoder.slots@),
    {
        let mut fences: Vec<Fence> = Vec::new();
        let mut k: usize = 0;
        while k < self.encoder.slots.len()
            invariant
                k <= self.encoder.slots@.len(),
                fences@ == fences_due(self.encoder.slots@.take(k as int)),
            decreases self.encoder.slots@.len() - k,
        {
            assert(self.encoder.slots@.take(k + 1).drop_last() =~= self.encoder.slots@.take(
                k as int,
            ));
            let slot = &self.encoder.slots[k];
            let failed: bool = matches!(slot.submission, SlotSubmission::Failed(_));
            if slot.pending.is_some() && !failed {
                fences.push(slot.fence);
            }
            k += 1;
        }
        assert(self.encoder.slots@.take(k as int) =~= self.encoder.slots@);
        fences
    }

    /// Let what the submitted command buffers hold join what is held anyway. No
    /// command buffer is left. The guest writes that are over are given back.
    pub fn collect_held(&mut self) -> (tokens: Vec<GuestWriteToken>)
        requires
            old(self).wf(),
            old(self).encoder.recording is None,
            nothing_sealed(old(self).encoder),
        ensures
            final(self).wf(),
            collected(*old(self), *final(self), tokens@),
    {
        let mut tokens: Vec<GuestWriteToken> = Vec::new();
        let ghost before = self.encoder;
        let ghost ring = before.slots@;
        let mut k: usize = 0;
        proof {
            assert(ring.take(0) =~= Seq::empty());
            let none = held_by(ring.take(0));
            assert(before.staging_live@ =~= before.staging_live@ + held_staging(none));
            assert(before.gather_live@ =~= before.gather_live@ + held_gather(none));
            assert(before.readback_multi_live@ =~= before.readback_multi_live@ + held_readback(
                none,
            ));
            assert(before.sampled_live@ =~= before.sampled_live@ + held_sampled(none));
            assert(before.attachment_snapshot_live@ =~= before.attachment_snapshot_live@
                + held_snapshots(none));
            assert(before.storage_image_live@ =~= before.storage_image_live@ + held_storage(none));
        }
        while k < self.encoder.slots.len()
            invariant
                k <= self.encoder.slots@.len(),
                self.encoder.slots@.len() == ring.len(),
                ring == before.slots@,
                self.shared == old(self).shared,
                self.encoder == (EncoderPools {
                    slots: self.encoder.slots,
                    staging_live: self.encoder.staging_live,
                    gather_live: self.encoder.gather_live,
                    readback_multi_live: self.encoder.readback_multi_live,
                    sampled_live: self.encoder.sampled_live,
                    attachment_snapshot_live: self.encoder.attachment_snapshot_live,
                    storage_image_live: self.encoder.storage_image_live,
                    ..before
                }),
                forall|i: int|
                    0 <= i < k ==> (#[trigger] self.encoder.slots@[i]) == (CmdSlot {
                        pending: None,
                        retirement: None,
                        ..ring[i]
                    }),
                forall|i: int|
                    k <= i < ring.len() ==> (#[trigger] self.encoder.slots@[i]) == ring[i],
                ({
                    let held = held_by(ring.take(k as int));
                    &&& tokens@ == held_tokens(held)
                    &&& self.encoder.staging_live@ == before.staging_live@ + held_staging(held)
                    &&& self.encoder.gather_live@ == before.gather_live@ + held_gather(held)
                    &&& self.encoder.readback_multi_live@ == before.readback_multi_live@
                        + held_readback(held)
                    &&& self.encoder.sampled_live@ == before.sampled_live@ + held_sampled(held)
                    &&& self.encoder.attachment_snapshot_live@ == before.attachment_snapshot_live@
                        + held_snapshots(held)
                    &&& self.encoder.storage_image_live@ == before.storage_image_live@
                        + held_storage(held)
                }),
            decreases self.encoder.slots@.len() - k,
        {
            let ghost held = held_by(ring.take(k as int));
            assert(ring.take(k + 1).drop_last() =~= ring.take(k as int));
            assert(self.encoder.slots@[k as int] == ring[k as int]);
            let mut pending: Option<PendingGpuCleanup> = None;
            std::mem::swap(&mut pending, &mut self.encoder.slots[k].pending);
            self.encoder.slots[k].retirement = None;
            match pending {
                Some(cleanup) => {
                    proof {
                        let next = held_by(ring.take(k + 1));
                        assert(next == held.push(cleanup));
                        assert(next.drop_last() =~= held);
                    }
                    let PendingGpuCleanup { encoder, visibility, shared } = cleanup;
                    append_all(&mut tokens, visibility.guest_write_tokens);
                    append_all(&mut self.encoder.staging_live, encoder.staging);
                    append_all(&mut self.encoder.gather_live, encoder.gather);
                    append_all(&mut self.encoder.readback_multi_live, encoder.readback);
                    append_all(&mut self.encoder.sampled_live, shared.sampled);
                    append_all(
                        &mut self.encoder.attachment_snapshot_live,
                        shared.attachment_snapshots,
                    );
                    append_all(&mut self.encoder.storage_image_live, shared.storage_images);
                    proof {
                        let next = held_by(ring.take(k + 1));
                        assert(self.encoder.staging_live@ =~= before.staging_live@ + held_staging(
                            next,
                        ));
                        assert(self.encoder.gather_live@ =~= before.gather_live@ + held_gather(
                            next,
                        ));
                        assert(self.encoder.readback_multi_live@ =~= before.readback_multi_live@
                            + held_readback(next));
                        assert(self.encoder.sampled_live@ =~= before.sampled_live@ + held_sampled(
                            next,
                        ));
                        assert(self.encoder.attachment_snapshot_live@
                            =~= before.attachment_snapshot_live@ + held_snapshots(next));
                        assert(self.encoder.storage_image_live@ =~= before.storage_image_live@
                            + held_storage(next));
                    }
                },
                None => {},
            }
            k += 1;
        }
        assert(ring.take(k as int) =~= ring);
        self.encoder.in_flight = 0;
        proof {
            lemma_nothing_pending(self.encoder.slots@);
            assert forall|i: int| 0 <= i < self.encoder.slots@.len() implies slot_wf(
                #[trigger] self.encoder.slots@[i],
            ) by {
                assert(!(ring[i].submission is SealedWaitingCommit));
            }
            assert forall|i: int| 0 <= i < self.encoder.slots@.len() implies held_point(
                #[trigger] self.encoder.slots@[i],
            ) is None by {
                assert(!(ring[i].submission is SealedWaitingCommit));
            }
        }
        tokens
    }
}

/// Append `more` to `list`.
fn append_all<T>(list: &mut Vec<T>, more: Vec<T>)
    ensures
        final(list)@ == old(list)@ + more@,
{
    let mut more = more;
    list.append(&mut more);
}

proof fn lemma_nothing_pending(slots: Seq<CmdSlot>)
    requires
        forall|i: int| 0 <= i < slots.len() ==> (#[trigger] slots[i]).pending is None,
    ensures
        crate::pools::encoder::pending_count(slots) == 0,
    decreases slots.len(),
{
    if slots.len() > 0 {
        lemma_nothing_pending(slots.drop_last());
    }
}

proof fn lemma_slots_stay(before: EncoderPools, after: EncoderPools, at: int)
    requires
        before.wf(),
        0 <= at < before.slots@.len(),
        after == (EncoderPools { slots: after.slots, ..before }),
        after.slots@ == before.slots@.update(at, after.slots@[at]),
        after.slots@[at].pending == before.slots@[at].pending,
        after.slots@[at].retirement == before.slots@[at].retirement,
        !(after.slots@[at].submission is SealedWaitingCommit),
        after.recording is Some && at == after.cur ==> after.slots@[at].submission is HostOwned,
    ensures
        after.wf(),
{
    lemma_pending_update(before.slots@, at, after.slots@[at]);
    assert forall|i: int| 0 <= i < after.slots@.len() implies slot_wf(
        #[trigger] after.slots@[i],
    ) by {
        assert(slot_wf(before.slots@[i]));
    }
}

/// The objects that had waited for a recording.
pub open spec fn deferred_releases(handles: Seq<DeferredHandle>) -> Seq<NativeRelease> {
    handles.map_values(|handle: DeferredHandle| NativeRelease::Deferred(handle))
}

/// Every object of a graveyard, whatever it waits for.
pub open spec fn buried(graveyard: Seq<(RecordingPoint, DeferredHandle)>) -> Seq<DeferredHandle> {
    graveyard.map_values(|entry: (RecordingPoint, DeferredHandle)| entry.1)
}

/// The buffer of an optional slot.
pub open spec fn optional_buffer(slot: Option<BufferSlot>) -> Seq<BufferSlot> {
    match slot {
        Some(slot) => seq![slot],
        None => seq![],
    }
}

/// The buffers of an encoder, in the order in which they go. The lent ones are
/// not among them.
pub open spec fn buffers_of(encoder: EncoderPools) -> Seq<BufferSlot> {
    encoder.staging_free.all() + encoder.staging_live@ + encoder.gather_free.all()
        + encoder.gather_live@ + encoder.readback_free.all() + optional_buffer(
        encoder.readback_live,
    ) + encoder.readback_multi_live@
}

/// The buffers that are still lent out.
pub open spec fn lent(leased: Seq<LeasedReadback>) -> Seq<BufferSlot> {
    leased.map_values(|lease: LeasedReadback| lease.slot)
}

/// The images in the cache.
pub open spec fn cached_slots(entries: Seq<CachedImage>) -> Seq<SampledSlot> {
    entries.map_values(|entry: CachedImage| entry.slot)
}

/// The images of compute residents.
pub open spec fn resident_slots(residents: Seq<ResidentStorage>) -> Seq<StorageImageSlot> {
    residents.map_values(|resident: ResidentStorage| resident.slot)
}

/// The release of an optional multisample source.
pub open spec fn optional_target_release(slot: Option<TargetSlot>) -> Seq<NativeRelease> {
    match slot {
        Some(slot) => target_release(slot),
        None => seq![],
    }
}

/// Everything with texels, in the order in which it goes: first the framebuffers
/// over attachments that others own, then the images.
pub open spec fn image_releases(pools: ResourcePools) -> Seq<NativeRelease> {
    pools.shared.ad_hoc_framebuffers@.map_values(
        |framebuffer: Framebuffer| NativeRelease::Framebuffer(framebuffer),
    ) + sampled_image_releases(pools) + storage_image_releases(pools) + target_image_releases(pools)
}

/// The sampled images and the free target images, in the order in which they go.
pub open spec fn sampled_image_releases(pools: ResourcePools) -> Seq<NativeRelease> {
    sampled_releases(values_of(pools.shared.sampled_free.entries())) + sampled_releases(
        values_of(pools.shared.attachment_snapshot_free.entries()),
    ) + free_target_releases(values_of(pools.shared.target_free.entries())) + sampled_releases(
        pools.encoder.sampled_live@,
    ) + sampled_releases(pools.encoder.attachment_snapshot_live@) + sampled_releases(
        cached_slots(pools.shared.sampled_cache@),
    )
}

/// The storage images, in the order in which they go.
pub open spec fn storage_image_releases(pools: ResourcePools) -> Seq<NativeRelease> {
    storage_releases(values_of(pools.shared.storage_image_free.entries())) + storage_releases(
        pools.encoder.storage_image_live@,
    ) + storage_releases(resident_slots(pools.shared.compute_storage_registry@)) + heap_releases(
        pools.shared.heap_placement_memory@,
    )
}

/// The render targets, in the order in which they go.
pub open spec fn target_image_releases(pools: ResourcePools) -> Seq<NativeRelease> {
    target_releases(pools.shared.targets@) + optional_target_release(
        match pools.shared.multisample_target {
            Some(source) => Some(source.slot),
            None => None,
        },
    ) + resident_releases(pools.shared.registry@)
}

/// What everything rested on, in the order in which it goes: the memory, the
/// fences, the descriptor sets and the command buffers.
pub open spec fn ring_releases(pools: ResourcePools) -> Seq<NativeRelease> {
    seq![NativeRelease::GuestImports, NativeRelease::ImageBlocks, NativeRelease::BufferBlocks]
        + pools.encoder.slots@.map_values(|slot: CmdSlot| NativeRelease::Fence(slot.fence))
        + (pools.encoder.scatter_dsets@ + pools.encoder.scatter_dset_free@).map_values(
        |set: DescriptorRef| NativeRelease::Descriptors(set),
    ) + match pools.shared.scatter {
        Some(kernel) => seq![NativeRelease::Scatter(kernel)],
        None => seq![],
    } + seq![NativeRelease::Arena] + if pools.encoder.cmd_pool != CommandPool(0) {
        seq![NativeRelease::CommandPool(pools.encoder.cmd_pool)]
    } else {
        seq![]
    }
}

/// How the wait for the holders of lent readback buffers goes on.
#[derive(Clone, Copy, Debug, PartialEq, Eq, Structural)]
pub enum LeaseWait {
    /// Every buffer came back.
    Over,
    /// Look again.
    Again,
    /// Too long: go on without, and report it.
    Expired(ReadbackLeaseQuiesceExpired),
}

/// A lent readback buffer did not come back in time.
#[derive(Clone, Copy, Debug, PartialEq, Eq, Structural)]
pub struct ReadbackLeaseQuiesceExpired {
    /// How many are still out.
    pub outstanding: usize,
    /// How long they were waited for, in milliseconds.
    pub waited_ms: u64,
}

impl ReadbackLeaseQuiesceExpired {
    /// The name of the report.
    pub fn slug(&self) -> (slug: &'static str)
        ensures
            slug@ == "readback_lease_quiesce_expired"@,
    {
        "readback_lease_quiesce_expired"
    }

    /// The values that bear on it.
    pub open spec fn fields_spec(self) -> Seq<(Seq<char>, Seq<char>)> {
        seq![
            ("outstanding"@, decimal(self.outstanding as nat)),
            ("waited_ms"@, decimal(self.waited_ms as nat)),
        ]
    }

    /// The values that bear on it.
    pub fn fields(&self) -> (fields: Vec<(&'static str, String)>)
        ensures
            fields_text(fields@) == self.fields_spec(),
    {
        let fields: Vec<(&'static str, String)> = vec![
            ("outstanding", decimal_text(self.outstanding as u64)),
            ("waited_ms", decimal_text(self.waited_ms)),
        ];
        assert(fields_text(fields@) =~= self.fields_spec());
        fields
    }
}

/// What to do after `waited_ms` milliseconds with `outstanding` buffers lent
/// out.
pub open spec fn waiting_for(outstanding: usize, waited_ms: u64) -> LeaseWait {
    if outstanding == 0 {
        LeaseWait::Over
    } else if waited_ms >= LEASE_QUIESCE_MS {
        LeaseWait::Expired(
            ReadbackLeaseQuiesceExpired { outstanding, waited_ms: LEASE_QUIESCE_MS },
        )
    } else {
        LeaseWait::Again
    }
}

/// What to do after `waited_ms` milliseconds with `outstanding` buffers lent
/// out.
pub fn lease_wait(outstanding: usize, waited_ms: u64) -> (wait: LeaseWait)
    ensures
        wait == waiting_for(outstanding, waited_ms),
{
    if outstanding == 0 {
        return LeaseWait::Over;
    }
    if waited_ms >= LEASE_QUIESCE_MS {
        return LeaseWait::Expired(
            ReadbackLeaseQuiesceExpired { outstanding, waited_ms: LEASE_QUIESCE_MS },
        );
    }
    LeaseWait::Again
}

/// What letting go of the buffers does.
pub open spec fn buffers_released(before: ResourcePools, after: ResourcePools, out: Seq<NativeRelease>) -> bool {
    &&& out == deferred_releases(destroyed_in(buried(before.shared.graveyard@)))
        + buffer_releases(buffers_of(before.encoder))
    &&& after.shared == (SharedPools {
        graveyard: after.shared.graveyard,
        sampled_free: after.shared.sampled_free,
        target_free: after.shared.target_free,
        ..before.shared
    })
    &&& after.shared.graveyard@.len() == 0
    &&& crate::pools::shared::took_back(
        before.shared.sampled_free,
        after.shared.sampled_free,
        sampled_in(buried(before.shared.graveyard@)),
    )
    &&& crate::pools::shared::took_back(
        before.shared.target_free,
        after.shared.target_free,
        targets_in(buried(before.shared.graveyard@)),
    )
    &&& after.encoder == (EncoderPools {
        staging_free: after.encoder.staging_free,
        staging_live: after.encoder.staging_live,
        gather_free: after.encoder.gather_free,
        gather_live: after.encoder.gather_live,
        readback_free: after.encoder.readback_free,
        readback_live: None,
        readback_multi_live: after.encoder.readback_multi_live,
        ..before.encoder
    })
    &&& forall|size: u64| #[trigger] after.encoder.staging_free.kept(size).len() == 0
    &&& forall|size: u64| #[trigger] after.encoder.gather_free.kept(size).len() == 0
    &&& forall|size: u64| #[trigger] after.encoder.readback_free.kept(size).len() == 0
    &&& after.encoder.staging_live@.len() == 0
    &&& after.encoder.gather_live@.len() == 0
    &&& after.encoder.readback_multi_live@.len() == 0
}

/// What letting go of everything else does.
pub open spec fn rest_released(
    before: ResourcePools,
    after: ResourcePools,
    returned: Seq<u64>,
    out: Seq<NativeRelease>,
) -> bool {
    &&& out == buffer_releases(
        given_back(before.encoder.readback_leased@, returned).1,
    ) + buffer_releases(
        lent(given_back(before.encoder.readback_leased@, returned).0),
    ) + image_releases(before) + ring_releases(before)
    &&& after.encoder == (EncoderPools {
        readback_leased: after.encoder.readback_leased,
        sampled_live: after.encoder.sampled_live,
        attachment_snapshot_live: after.encoder.attachment_snapshot_live,
        storage_image_live: after.encoder.storage_image_live,
        slots: after.encoder.slots,
        cur: 0,
        in_flight: 0,
        scatter_dsets: after.encoder.scatter_dsets,
        scatter_dset_free: after.encoder.scatter_dset_free,
        cmd_pool: CommandPool(0),
        initialized: false,
        ..before.encoder
    })
    &&& after.encoder.readback_leased@.len() == 0
    &&& after.encoder.sampled_live@.len() == 0
    &&& after.encoder.attachment_snapshot_live@.len() == 0
    &&& after.encoder.storage_image_live@.len() == 0
    &&& after.encoder.slots@.len() == 0
    &&& after.encoder.scatter_dsets@.len() == 0
    &&& after.encoder.scatter_dset_free@.len() == 0
    &&& after.shared == (SharedPools {
        ad_hoc_framebuffers: after.shared.ad_hoc_framebuffers,
        sampled_free: after.shared.sampled_free,
        attachment_snapshot_free: after.shared.attachment_snapshot_free,
        target_free: after.shared.target_free,
        sampled_cache: after.shared.sampled_cache,
        storage_image_free: after.shared.storage_image_free,
        compute_storage_registry: after.shared.compute_storage_registry,
        heap_placement_memory: after.shared.heap_placement_memory,
        targets: after.shared.targets,
        multisample_target: None,
        registry: after.shared.registry,
        scatter: None,
        scatter_refused: false,
        ..before.shared
    })
    &&& after.shared.ad_hoc_framebuffers@.len() == 0
    &&& after.shared.sampled_free.entries().len() == 0
    &&& after.shared.attachment_snapshot_free.entries().len() == 0
    &&& after.shared.target_free.entries().len() == 0
    &&& after.shared.sampled_free.counted() == before.shared.sampled_free.counted()
    &&& after.shared.attachment_snapshot_free.counted() == before.shared.attachment_snapshot_free.counted()
    &&& after.shared.target_free.counted() == before.shared.target_free.counted()
    &&& after.shared.sampled_cache@.len() == 0
    &&& after.shared.sampled_cache.exact()
    &&& after.shared.storage_image_free.entries().len() == 0
    &&& after.shared.storage_image_free.counted() == before.shared.storage_image_free.counted()
    &&& after.shared.compute_storage_registry@.len() == 0
    &&& after.shared.heap_placement_memory@.len() == 0
    &&& after.shared.targets@.len() == 0
    &&& after.shared.registry@.len() == 0
}

impl ResourcePools {
    /// Let go of what waited for a recording and of every buffer that is not
    /// lent out. No command buffer is left.
    pub fn release_buffers(&mut self) -> (out: Vec<NativeRelease>)
        requires
            old(self).wf(),
            nothing_submitted(old(self).encoder),
        ensures
            final(self).wf(),
            buffers_released(*old(self), *final(self), out@),
    {
        let ghost before = self.encoder;
        let destroy = self.shared.release_all_graveyard();
        let mut out: Vec<NativeRelease> = Vec::new();
        let mut k: usize = 0;
        while k < destroy.len()
            invariant
                k <= destroy@.len(),
                out@ == deferred_releases(destroy@.take(k as int)),
            decreases destroy@.len() - k,
        {
            out.push(NativeRelease::Deferred(destroy[k]));
            k += 1;
            assert(out@ =~= deferred_releases(destroy@.take(k as int)));
        }
        assert(destroy@.take(k as int) =~= destroy@);
        let mut buffers = self.encoder.staging_free.drain();
        append_all(&mut buffers, taken(&mut self.encoder.staging_live));
        append_all(&mut buffers, self.encoder.gather_free.drain());
        append_all(&mut buffers, taken(&mut self.encoder.gather_live));
        append_all(&mut buffers, self.encoder.readback_free.drain());
        let ghost so_far = buffers@;
        if let Some(slot) = self.encoder.readback_live {
            buffers.push(slot);
        }
        assert(buffers@ =~= so_far + optional_buffer(before.readback_live));
        self.encoder.readback_live = None;
        append_all(&mut buffers, taken(&mut self.encoder.readback_multi_live));
        assert(buffers@ =~= buffers_of(before));
        release_buffers_of(&mut out, &buffers);
        assert(self.encoder.slots == before.slots);
        out
    }

    /// Let go of everything else. `returned` are the lent buffers that came back
    /// meanwhile: they go first, and then those that did not come back in time.
    pub fn release_rest(&mut self, returned: &Vec<u64>) -> (out: Vec<NativeRelease>)
        requires
            old(self).wf(),
            old(self).encoder.recording is None,
            old(self).encoder.open_batch is None,
            nothing_submitted(old(self).encoder),
        ensures
            final(self).wf(),
            rest_released(*old(self), *final(self), returned@, out@),
    {
        let mut out: Vec<NativeRelease> = Vec::new();
        let back = self.encoder.take_returned_leases(returned);
        release_buffers_of(&mut out, &back);
        let ghost came_back = out@;
        assert(came_back =~= buffer_releases(back@));
        let leased = taken(&mut self.encoder.readback_leased);
        let mut k: usize = 0;
        assert(out@ =~= came_back + buffer_releases(lent(leased@.take(0))));
        while k < leased.len()
            invariant
                k <= leased@.len(),
                out@ == came_back + buffer_releases(lent(leased@.take(k as int))),
            decreases leased@.len() - k,
        {
            out.push(NativeRelease::Buffer(leased[k].slot));
            k += 1;
            assert(out@ =~= came_back + buffer_releases(lent(leased@.take(k as int))));
        }
        assert(leased@.take(k as int) =~= leased@);
        self.release_images(&mut out);
        self.release_ring(&mut out);
        out
    }

    #[verifier::spinoff_prover]
    #[verifier::rlimit(60)]
    fn release_images(&mut self, out: &mut Vec<NativeRelease>)
        requires
            old(self).wf(),
        ensures
            final(self).wf(),
            final(out)@ == old(out)@ + image_releases(*old(self)),
            final(self).encoder == (EncoderPools {
                sampled_live: final(self).encoder.sampled_live,
                attachment_snapshot_live: final(self).encoder.attachment_snapshot_live,
                storage_image_live: final(self).encoder.storage_image_live,
                ..old(self).encoder
            }),
            final(self).encoder.sampled_live@.len() == 0,
            final(self).encoder.attachment_snapshot_live@.len() == 0,
            final(self).encoder.storage_image_live@.len() == 0,
            final(self).shared == (SharedPools {
                ad_hoc_framebuffers: final(self).shared.ad_hoc_framebuffers,
                sampled_free: final(self).shared.sampled_free,
                attachment_snapshot_free: final(self).shared.attachment_snapshot_free,
                target_free: final(self).shared.target_free,
                sampled_cache: final(self).shared.sampled_cache,
                storage_image_free: final(self).shared.storage_image_free,
                compute_storage_registry: final(self).shared.compute_storage_registry,
                heap_placement_memory: final(self).shared.heap_placement_memory,
                targets: final(self).shared.targets,
                multisample_target: None,
                registry: final(self).shared.registry,
                ..old(self).shared
            }),
            final(self).shared.ad_hoc_framebuffers@.len() == 0,
            final(self).shared.sampled_free.entries().len() == 0,
            final(self).shared.attachment_snapshot_free.entries().len() == 0,
            final(self).shared.target_free.entries().len() == 0,
            final(self).shared.sampled_free.counted() == old(self).shared.sampled_free.counted(),
            final(self).shared.attachment_snapshot_free.counted() == old(self).shared.attachment_snapshot_free.counted(),
            final(self).shared.target_free.counted() == old(self).shared.target_free.counted(),
            final(self).shared.sampled_cache@.len() == 0,
            final(self).shared.sampled_cache.exact(),
            final(self).shared.storage_image_free.entries().len() == 0,
            final(self).shared.storage_image_free.counted() == old(self).shared.storage_image_free.counted(),
            final(self).shared.compute_storage_registry@.len() == 0,
            final(self).shared.heap_placement_memory@.len() == 0,
            final(self).shared.targets@.len() == 0,
            final(self).shared.registry@.len() == 0,
    {
        let ghost start = out@;
        let ghost old_pools = *self;
        let framebuffers = taken(&mut self.shared.ad_hoc_framebuffers);
        let ghost named = framebuffers@.map_values(
            |framebuffer: Framebuffer| NativeRelease::Framebuffer(framebuffer),
        );
        let mut k: usize = 0;
        while k < framebuffers.len()
            invariant
                k <= framebuffers@.len(),
                named == framebuffers@.map_values(
                    |framebuffer: Framebuffer| NativeRelease::Framebuffer(framebuffer),
                ),
                out@ == start + named.take(k as int),
            decreases framebuffers@.len() - k,
        {
            out.push(NativeRelease::Framebuffer(framebuffers[k]));
            k += 1;
            assert(out@ =~= start + named.take(k as int));
        }
        assert(named.take(k as int) =~= named);

        let ghost a = out@;
        release_sampled(out, &self.shared.sampled_free.drain());
        release_sampled(out, &self.shared.attachment_snapshot_free.drain());
        release_free_targets(out, &self.shared.target_free.drain());
        release_sampled(out, &taken(&mut self.encoder.sampled_live));
        release_sampled(out, &taken(&mut self.encoder.attachment_snapshot_live));
        release_sampled(out, &self.shared.sampled_cache.drain());
        assert(out@ =~= a + sampled_image_releases(old_pools));

        let ghost b = out@;
        release_storage(out, &self.shared.storage_image_free.drain());
        release_storage(out, &taken(&mut self.encoder.storage_image_live));
        let residents = taken(&mut self.shared.compute_storage_registry);
        let mut slots: Vec<StorageImageSlot> = Vec::new();
        let mut j: usize = 0;
        while j < residents.len()
            invariant
                j <= residents@.len(),
                slots@ == resident_slots(residents@.take(j as int)),
            decreases residents@.len() - j,
        {
            slots.push(residents[j].slot);
            j += 1;
            assert(slots@ =~= resident_slots(residents@.take(j as int)));
        }
        assert(residents@.take(j as int) =~= residents@);
        release_storage(out, &slots);
        release_heaps(out, &taken(&mut self.shared.heap_placement_memory));
        assert(out@ =~= b + storage_image_releases(old_pools));

        let ghost c = out@;
        release_targets(out, &taken(&mut self.shared.targets));
        let ghost d = out@;
        if let Some(source) = self.shared.multisample_target {
            release_target(out, &source.slot);
        }
        assert(out@ =~= d + optional_target_release(
            match old_pools.shared.multisample_target {
                Some(source) => Some(source.slot),
                None => None,
            },
        ));
        self.shared.multisample_target = None;
        release_residents(out, &taken(&mut self.shared.registry));
        assert(out@ =~= c + target_image_releases(old_pools));
        assert(out@ =~= start + image_releases(old_pools));
    }

    fn release_ring(&mut self, out: &mut Vec<NativeRelease>)
        requires
            old(self).wf(),
            old(self).encoder.recording is None,
            old(self).encoder.open_batch is None,
        ensures
            final(self).wf(),
            final(out)@ == old(out)@ + ring_releases(*old(self)),
            final(self).encoder == (EncoderPools {
                slots: final(self).encoder.slots,
                cur: 0,
                in_flight: 0,
                scatter_dsets: final(self).encoder.scatter_dsets,
                scatter_dset_free: final(self).encoder.scatter_dset_free,
                cmd_pool: CommandPool(0),
                initialized: false,
                ..old(self).encoder
            }),
            final(self).encoder.slots@.len() == 0,
            final(self).encoder.scatter_dsets@.len() == 0,
            final(self).encoder.scatter_dset_free@.len() == 0,
            final(self).shared == (SharedPools {
                scatter: None,
                scatter_refused: false,
                ..old(self).shared
            }),
    {
        let ghost start = out@;
        let ghost old_pools = *self;
        out.push(NativeRelease::GuestImports);
        out.push(NativeRelease::ImageBlocks);
        out.push(NativeRelease::BufferBlocks);
        let ghost a = out@;
        let slots = taken(&mut self.encoder.slots);
        let ghost fences = slots@.map_values(|slot: CmdSlot| NativeRelease::Fence(slot.fence));
        let mut k: usize = 0;
        while k < slots.len()
            invariant
                k <= slots@.len(),
                fences == slots@.map_values(|slot: CmdSlot| NativeRelease::Fence(slot.fence)),
                out@ == a + fences.take(k as int),
            decreases slots@.len() - k,
        {
            out.push(NativeRelease::Fence(slots[k].fence));
            k += 1;
            assert(out@ =~= a + fences.take(k as int));
        }
        assert(fences.take(k as int) =~= fences);
        self.encoder.cur = 0;
        self.encoder.in_flight = 0;
        let ghost b = out@;
        let mut owed = taken(&mut self.encoder.scatter_dsets);
        append_all(&mut owed, taken(&mut self.encoder.scatter_dset_free));
        let ghost sets = owed@.map_values(|set: DescriptorRef| NativeRelease::Descriptors(set));
        let mut j: usize = 0;
        while j < owed.len()
            invariant
                j <= owed@.len(),
                sets == owed@.map_values(|set: DescriptorRef| NativeRelease::Descriptors(set)),
                out@ == b + sets.take(j as int),
            decreases owed@.len() - j,
        {
            out.push(NativeRelease::Descriptors(owed[j]));
            j += 1;
            assert(out@ =~= b + sets.take(j as int));
        }
        assert(sets.take(j as int) =~= sets);
        if let Some(kernel) = self.shared.scatter {
            out.push(NativeRelease::Scatter(kernel));
        }
        self.shared.scatter = None;
        self.shared.scatter_refused = false;
        out.push(NativeRelease::Arena);
        if self.encoder.cmd_pool != CommandPool(0) {
            out.push(NativeRelease::CommandPool(self.encoder.cmd_pool));
            self.encoder.cmd_pool = CommandPool(0);
        }
        self.encoder.initialized = false;
        assert(out@ =~= start + ring_releases(old_pools));
    }
}

/// How far the teardown has come.
#[derive(Clone, Copy, Debug, PartialEq, Eq, Structural)]
pub enum TeardownStage {
    /// Nothing is done yet.
    Start,
    /// The slots before this one are back from the queue.
    Receipts(usize),
    /// Every slot is back, and the fences are waited for.
    Fences,
    /// The buffers are gone, and the holders of lent ones are waited for.
    Leases,
    /// The wait for them is over.
    Rest,
    /// Everything is gone.
    Over,
}

/// What happened outside since the last step.
#[derive(Debug)]
pub enum TeardownEvent {
    /// Nothing that matters.
    Nothing,
    /// What the slot's receipt gave, where the queue owned it.
    Receipt(Option<Result<(), VkResult>>),
    /// How the waits for the fences ended.
    Waited(Vec<Result<(), VkResult>>),
    /// How many buffers are lent out, and how long they were waited for.
    Lent {
        /// How many.
        outstanding: usize,
        /// How long, in milliseconds.
        waited_ms: u64,
    },
    /// The lent buffers that came back.
    Returned(Vec<u64>),
}

/// What to do outside before the next step.
#[derive(Debug)]
pub enum TeardownAction {
    /// Undo what the recordings that were given up had begun.
    GiveUp {
        /// Of the recording under way.
        aborted: AbortedWork,
        /// Of each slot that was being handed to the queue.
        recovered: Vec<Option<Released>>,
    },
    /// Report a failure of the queue, if there was one.
    Report(Option<VkCall>),
    /// Wait for the fences.
    Wait(Vec<Fence>),
    /// Report the waits that failed, end the guest writes and let go of the
    /// objects, in order.
    Release {
        /// The failures.
        reports: Vec<VkCall>,
        /// The guest writes.
        tokens: Vec<GuestWriteToken>,
        /// The objects.
        objects: Vec<NativeRelease>,
    },
    /// Look at the lent buffers again, or report that they took too long.
    Leases(LeaseWait),
    /// There is nothing more to do.
    Done,
}

/// `event` is what `stage` waits for.
pub open spec fn awaited(stage: TeardownStage, event: TeardownEvent) -> bool {
    match stage {
        TeardownStage::Start => event is Nothing,
        TeardownStage::Receipts(_) => event is Receipt,
        TeardownStage::Fences => event is Waited,
        TeardownStage::Leases => event is Lent,
        TeardownStage::Rest => event is Returned,
        TeardownStage::Over => event is Nothing,
    }
}

/// What holds when `stage` is reached.
pub open spec fn reached(pools: ResourcePools, stage: TeardownStage) -> bool {
    &&& pools.wf()
    &&& stage != TeardownStage::Start ==> {
        &&& pools.encoder.recording is None
        &&& pools.encoder.open_batch is None
        &&& nothing_sealed(pools.encoder)
    }
    &&& stage is Leases || stage is Rest ==> {
        &&& nothing_submitted(pools.encoder)
        &&& pools.shared.graveyard@.len() == 0
    }
}

/// The failures among the answers to waits.
pub open spec fn failures(waited: Seq<Result<(), VkResult>>) -> Seq<VkCall>
    decreases waited.len(),
{
    if waited.len() == 0 {
        Seq::empty()
    } else {
        let before = failures(waited.drop_last());
        match waited.last() {
            Ok(_) => before,
            Err(result) => before.push(VkCall { op: VkOp::PoolsWaitFencesDestroy, result }),
        }
    }
}

/// The recording under way was given up, and every slot that was being handed to
/// the queue was got back.
pub open spec fn given_up_all(
    before: ResourcePools,
    after: ResourcePools,
    aborted: AbortedWork,
    recovered: Seq<Option<Released>>,
) -> bool {
    exists|steps: Seq<ResourcePools>| #[trigger]
        recovers_all(steps, recovered) && began(before, steps[0], aborted) && steps.last() == after
}

/// Everything held was joined, and the buffers went.
pub open spec fn let_go_of_buffers(
    before: ResourcePools,
    after: ResourcePools,
    tokens: Seq<GuestWriteToken>,
    objects: Seq<NativeRelease>,
) -> bool {
    exists|middle: ResourcePools| #[trigger]
        collected(before, middle, tokens) && buffers_released(middle, after, objects)
}

impl ResourcePools {
    /// Take everything down, one step after the other. A failure of the queue or
    /// of a wait is reported, and nothing stops for it.
    pub fn destroy_all(&mut self, stage: TeardownStage, event: TeardownEvent) -> (step: (
        TeardownStage,
        TeardownAction,
    ))
        requires
            reached(*old(self), stage),
            awaited(stage, event),
        ensures
            reached(*final(self), step.0),
            match (stage, event) {
                (TeardownStage::Start, _) => {
                    &&& step.0 == TeardownStage::Receipts(0)
                    &&& step.1 matches TeardownAction::GiveUp { aborted, recovered }
                    &&& given_up_all(*old(self), *final(self), aborted, recovered@)
                },
                (TeardownStage::Receipts(index), TeardownEvent::Receipt(received)) => if index
                    < old(self).encoder.slots@.len() {
                    &&& step.0 == TeardownStage::Receipts((index + 1) as usize)
                    &&& step.1 matches TeardownAction::Report(report)
                    &&& receipt_taken(*old(self), *final(self), index, received, report)
                } else {
                    &&& step.0 == TeardownStage::Fences
                    &&& step.1 matches TeardownAction::Wait(fences)
                    &&& fences@ == fences_due(old(self).encoder.slots@)
                    &&& *final(self) == *old(self)
                },
                (TeardownStage::Fences, TeardownEvent::Waited(waited)) => {
                    &&& step.0 == TeardownStage::Leases
                    &&& step.1 matches TeardownAction::Release { reports, tokens, objects }
                    &&& reports@ == failures(waited@)
                    &&& let_go_of_buffers(*old(self), *final(self), tokens@, objects@)
                },
                (TeardownStage::Leases, TeardownEvent::Lent { outstanding, waited_ms }) => {
                    &&& step.0 == if outstanding > 0 && waited_ms < LEASE_QUIESCE_MS {
                        TeardownStage::Leases
                    } else {
                        TeardownStage::Rest
                    }
                    &&& step.1 == TeardownAction::Leases(waiting_for(outstanding, waited_ms))
                    &&& *final(self) == *old(self)
                },
                (TeardownStage::Rest, TeardownEvent::Returned(returned)) => {
                    &&& step.0 == TeardownStage::Over
                    &&& step.1 matches TeardownAction::Release { reports, tokens, objects }
                    &&& reports@.len() == 0
                    &&& tokens@.len() == 0
                    &&& rest_released(*old(self), *final(self), returned@, objects@)
                },
                _ => {
                    &&& step.0 == TeardownStage::Over
                    &&& step.1 == TeardownAction::Done
                    &&& *final(self) == *old(self)
                },
            },
    {
        match (stage, event) {
            (TeardownStage::Start, _) => {
                let aborted = self.begin_teardown();
                let recovered = self.recover_all_sealed();
                assert(given_up_all(*old(self), *self, aborted, recovered@));
                (TeardownStage::Receipts(0), TeardownAction::GiveUp { aborted, recovered })
            },
            (TeardownStage::Receipts(index), TeardownEvent::Receipt(received)) => {
                if index < self.encoder.slots.len() {
                    let report = self.take_receipt(index, received);
                    (TeardownStage::Receipts(index + 1), TeardownAction::Report(report))
                } else {
                    (TeardownStage::Fences, TeardownAction::Wait(self.fences_to_wait()))
                }
            },
            (TeardownStage::Fences, TeardownEvent::Waited(waited)) => {
                let mut reports: Vec<VkCall> = Vec::new();
                let mut k: usize = 0;
                while k < waited.len()
                    invariant
                        k <= waited@.len(),
                        reports@ == failures(waited@.take(k as int)),
                    decreases waited@.len() - k,
                {
                    assert(waited@.take(k + 1).drop_last() =~= waited@.take(k as int));
                    match waited[k] {
                        Ok(()) => {},
                        Err(result) => {
                            reports.push(VkCall::new(VkOp::PoolsWaitFencesDestroy, result));
                        },
                    }
                    k += 1;
                }
                assert(waited@.take(k as int) =~= waited@);
                let tokens = self.collect_held();
                let ghost middle = *self;
                let objects = self.release_buffers();
                assert(collected(*old(self), middle, tokens@));
                (TeardownStage::Leases, TeardownAction::Release { reports, tokens, objects })
            },
            (TeardownStage::Leases, TeardownEvent::Lent { outstanding, waited_ms }) => {
                let wait = lease_wait(outstanding, waited_ms);
                let next = match wait {
                    LeaseWait::Again => TeardownStage::Leases,
                    _ => TeardownStage::Rest,
                };
                (next, TeardownAction::Leases(wait))
            },
            (TeardownStage::Rest, TeardownEvent::Returned(returned)) => {
                let objects = self.release_rest(&returned);
                let action = TeardownAction::Release {
                    reports: Vec::new(),
                    tokens: Vec::new(),
                    objects,
                };
                (TeardownStage::Over, action)
            },
            _ => (TeardownStage::Over, TeardownAction::Done),
        }
    }
}

/// Once everything is gone, the encoder is as new where it counts: it has no
/// ring, records nothing and holds no buffer or image, neither of a command
/// buffer nor for the next one. That holds of lent buffers too, whenever they came
/// back.
pub proof fn law_teardown_leaves_nothing_held(
    before: ResourcePools,
    middle: ResourcePools,
    after: ResourcePools,
    tokens: Seq<GuestWriteToken>,
    buffers: Seq<NativeRelease>,
    returned: Seq<u64>,
    objects: Seq<NativeRelease>,
)
    requires
        reached(before, TeardownStage::Fences),
        let_go_of_buffers(before, middle, tokens, buffers),
        rest_released(middle, after, returned, objects),
    ensures
        !after.encoder.initialized,
        after.encoder.slots@.len() == 0,
        after.encoder.in_flight == 0,
        after.encoder.recording is None,
        after.encoder.open_batch is None,
        after.encoder.staging_live@.len() == 0,
        after.encoder.gather_live@.len() == 0,
        after.encoder.readback_live is None,
        after.encoder.readback_multi_live@.len() == 0,
        after.encoder.readback_leased@.len() == 0,
        forall|size: u64| #[trigger] after.encoder.staging_free.kept(size).len() == 0,
        forall|size: u64| #[trigger] after.encoder.gather_free.kept(size).len() == 0,
        forall|size: u64| #[trigger] after.encoder.readback_free.kept(size).len() == 0,
        after.encoder.sampled_live@.len() == 0,
        after.encoder.attachment_snapshot_live@.len() == 0,
        after.encoder.storage_image_live@.len() == 0,
        after.shared.graveyard@.len() == 0,
        after.shared.targets@.len() == 0,
        after.shared.registry@.len() == 0,
        after.shared.sampled_cache@.len() == 0,
{
}

/// Nothing outlives what it rests on: the framebuffers over attachments that
/// others own go before every view and image, and the shared memory goes after
/// all of them.
pub proof fn law_nothing_outlives_what_it_rests_on(pools: ResourcePools)
    ensures
        forall|i: int|
            0 <= i < pools.shared.ad_hoc_framebuffers@.len() ==> #[trigger] image_releases(
                pools,
            )[i] == NativeRelease::Framebuffer(pools.shared.ad_hoc_framebuffers@[i]),
        forall|i: int|
            0 <= i < ring_releases(pools).len() ==> {
                let one = #[trigger] ring_releases(pools)[i];
                !(one is Framebuffer || one is View || one is Image || one is Memory
                    || one is Buffer)
            },
        ring_releases(pools)[1] == NativeRelease::ImageBlocks,
        ring_releases(pools)[2] == NativeRelease::BufferBlocks,
{
}

/// Every buffer is let go of once, in order.
pub proof fn law_every_buffer_is_let_go_of(buffers: Seq<BufferSlot>, k: int)
    requires
        0 <= k < buffers.len(),
    ensures
        buffer_releases(buffers).len() == buffers.len(),
        buffer_releases(buffers)[k] == NativeRelease::Buffer(buffers[k]),
{
}

/// Letting go of one more sampled image takes its view and then the image itself, and
/// not its memory, which belongs to shared blocks.
pub proof fn law_a_sampled_image_goes_after_its_view(slots: Seq<SampledSlot>, slot: SampledSlot)
    ensures
        sampled_releases(Seq::<SampledSlot>::empty()).len() == 0,
        sampled_releases(slots.push(slot)) == sampled_releases(slots).push(
            NativeRelease::View(slot.view),
        ).push(NativeRelease::Image(slot.image)),
        sampled_releases(slots).len() == 2 * slots.len(),
    decreases slots.len(),
{
    assert(slots.push(slot).drop_last() =~= slots);
    assert(sampled_releases(slots.push(slot)) =~= sampled_releases(slots).push(
        NativeRelease::View(slot.view),
    ).push(NativeRelease::Image(slot.image)));
    if slots.len() > 0 {
        law_a_sampled_image_goes_after_its_view(slots.drop_last(), slots.last());
        assert(slots.drop_last().push(slots.last()) =~= slots);
    }
}

/// Letting go of one more free target image takes its view and then the image.
pub proof fn law_a_free_target_goes_after_its_view(
    images: Seq<FreeTargetImage>,
    image: FreeTargetImage,
)
    ensures
        free_target_releases(Seq::<FreeTargetImage>::empty()).len() == 0,
        free_target_releases(images.push(image)) == free_target_releases(images).push(
            NativeRelease::View(image.view),
        ).push(NativeRelease::Image(image.image)),
{
    assert(images.push(image).drop_last() =~= images);
    assert(free_target_releases(images.push(image)) =~= free_target_releases(images).push(
        NativeRelease::View(image.view),
    ).push(NativeRelease::Image(image.image)));
}

/// A storage image goes with its view, and with its memory where that is its own; one that
/// a heap owns goes with the heap.
pub proof fn law_a_storage_image_goes_with_its_own_memory(
    slots: Seq<StorageImageSlot>,
    slot: StorageImageSlot,
)
    ensures
        storage_release(slot).len() > 0,
        storage_release(slot)[0] == NativeRelease::View(slot.view),
        slot.backing matches StorageImageBacking::Dedicated(memory) ==> {
            &&& storage_release(slot).len() == 3
            &&& storage_release(slot)[1] == NativeRelease::Image(slot.image)
            &&& storage_release(slot)[2] == NativeRelease::Memory(memory)
        },
        slot.backing is HeapPlacement ==> storage_release(slot).len() == 1,
        storage_releases(Seq::<StorageImageSlot>::empty()).len() == 0,
        storage_releases(slots.push(slot)) == storage_releases(slots) + storage_release(slot),
{
    assert(slots.push(slot).drop_last() =~= slots);
}

/// An image that a heap owns goes with the heap's memory behind it.
pub proof fn law_a_heap_image_goes_before_its_memory(
    placements: Seq<HeapPlacement>,
    placement: HeapPlacement,
)
    ensures
        heap_releases(Seq::<HeapPlacement>::empty()).len() == 0,
        heap_releases(placements.push(placement)) == heap_releases(placements).push(
            NativeRelease::Image(placement.image),
        ).push(NativeRelease::Memory(placement.memory)),
{
    assert(placements.push(placement).drop_last() =~= placements);
    assert(heap_releases(placements.push(placement)) =~= heap_releases(placements).push(
        NativeRelease::Image(placement.image),
    ).push(NativeRelease::Memory(placement.memory)));
}

/// A target goes from the top: its framebuffer, its view, its image.
pub proof fn law_a_target_goes_from_its_framebuffer_down(
    targets: Seq<PooledTarget>,
    target: PooledTarget,
    slot: TargetSlot,
)
    ensures
        target_release(slot).len() == 3,
        target_release(slot)[0] == NativeRelease::Framebuffer(slot.framebuffer),
        target_release(slot)[1] == NativeRelease::View(slot.view),
        target_release(slot)[2] == NativeRelease::Image(slot.image),
        target_releases(Seq::<PooledTarget>::empty()).len() == 0,
        target_releases(targets.push(target)) == target_releases(targets) + target_release(
            target.slot,
        ),
        optional_target_release(None).len() == 0,
        optional_target_release(Some(slot)) == target_release(slot),
{
    assert(targets.push(target).drop_last() =~= targets);
}

/// A resident goes from the top: its framebuffer, its further views, its view, its image.
pub proof fn law_a_resident_goes_with_all_its_views(
    residents: Seq<ResidentTarget>,
    resident: ResidentTarget,
    k: int,
)
    ensures
        ({
            let out = resident_release(resident);
            let views = resident.alternate_views@;
            &&& out.len() == views.len() + 3
            &&& out[0] == NativeRelease::Framebuffer(resident.framebuffer)
            &&& 0 <= k < views.len() ==> out[1 + k] == NativeRelease::View(views[k])
            &&& out[1 + views.len() as int] == NativeRelease::View(resident.view)
            &&& out.last() == NativeRelease::Image(resident.image)
        }),
        resident_releases(Seq::<ResidentTarget>::empty()).len() == 0,
        resident_releases(residents.push(resident)) == resident_releases(residents)
            + resident_release(resident),
{
    assert(residents.push(resident).drop_last() =~= residents);
}

/// A fence is waited for exactly where its slot is submitted and the queue took it.
pub proof fn law_fences_of_submitted_slots_are_waited_for(slots: Seq<CmdSlot>, slot: CmdSlot)
    ensures
        fences_due(Seq::<CmdSlot>::empty()).len() == 0,
        slot.pending is Some && !(slot.submission is Failed) ==> fences_due(slots.push(slot))
            == fences_due(slots).push(slot.fence),
        slot.pending is None || slot.submission is Failed ==> fences_due(slots.push(slot))
            == fences_due(slots),
{
    assert(slots.push(slot).drop_last() =~= slots);
}

/// Everything that a slot holds is joined: its cleanup with all its lists.
pub proof fn law_what_slots_hold_is_joined(
    slots: Seq<CmdSlot>,
    slot: CmdSlot,
    held: Seq<PendingGpuCleanup>,
    one: PendingGpuCleanup,
)
    ensures
        held_by(Seq::<CmdSlot>::empty()).len() == 0,
        slot.pending matches Some(pending) ==> held_by(slots.push(slot)) == held_by(slots).push(
            pending,
        ),
        slot.pending is None ==> held_by(slots.push(slot)) == held_by(slots),
        held_tokens(Seq::<PendingGpuCleanup>::empty()).len() == 0,
        held_tokens(held.push(one)) == held_tokens(held) + one.visibility.guest_write_tokens@,
        held_staging(Seq::<PendingGpuCleanup>::empty()).len() == 0,
        held_staging(held.push(one)) == held_staging(held) + one.encoder.staging@,
        held_gather(Seq::<PendingGpuCleanup>::empty()).len() == 0,
        held_gather(held.push(one)) == held_gather(held) + one.encoder.gather@,
        held_readback(Seq::<PendingGpuCleanup>::empty()).len() == 0,
        held_readback(held.push(one)) == held_readback(held) + one.encoder.readback@,
        held_sampled(Seq::<PendingGpuCleanup>::empty()).len() == 0,
        held_sampled(held.push(one)) == held_sampled(held) + one.shared.sampled@,
        held_snapshots(Seq::<PendingGpuCleanup>::empty()).len() == 0,
        held_snapshots(held.push(one)) == held_snapshots(held) + one.shared.attachment_snapshots@,
        held_storage(Seq::<PendingGpuCleanup>::empty()).len() == 0,
        held_storage(held.push(one)) == held_storage(held) + one.shared.storage_images@,
{
    assert(slots.push(slot).drop_last() =~= slots);
    assert(held.push(one).drop_last() =~= held);
}

/// Beginning a teardown gives up the recording under way: its point is over, its pins are
/// given back, and nothing is known of its command buffer. Nothing that it holds goes yet.
pub proof fn law_a_teardown_gives_the_recording_up(
    before: ResourcePools,
    after: ResourcePools,
    aborted: AbortedWork,
)
    requires
        began(before, after, aborted),
    ensures
        after.encoder.recording is None,
        after.encoder.open_batch is None,
        after.encoder.open_pass is None,
        after.encoder.last_pass is None,
        aborted.unpin_residents@ == before.encoder.resident_pins_live@,
        aborted.unpin_compute_residents@ == before.encoder.compute_write_pins_live@,
        after.encoder.resident_pins_live@.len() == 0,
        after.encoder.compute_write_pins_live@.len() == 0,
        after.encoder.guest_write_tokens_live@.dom() == Set::<Set<u64>>::empty(),
        after.encoder.slots == before.encoder.slots,
        after.encoder.in_flight == before.encoder.in_flight,
        after.encoder.staging_live == before.encoder.staging_live,
        after.encoder.gather_live == before.encoder.gather_live,
        after.encoder.sampled_live == before.encoder.sampled_live,
        after.encoder.readback_live == before.encoder.readback_live,
        after.encoder.readback_multi_live == before.encoder.readback_multi_live,
        after.shared.graveyard == before.shared.graveyard,
        after.shared.sampled_free == before.shared.sampled_free,
        before.encoder.recording matches Some(lease) ==> after.shared.retirement@.is_terminal(
            lease@ as int,
        ),
{
    assert(forall|q: int|
        after.shared.retirement@.is_terminal(q) == (before.shared.retirement@.is_terminal(q) || (
        before.encoder.recording matches Some(held) && q == held@)));
    if let Some(lease) = before.encoder.recording {
        let p = lease@ as int;
        assert(after.shared.retirement@.is_terminal(p) == (before.shared.retirement@.is_terminal(p)
            || (before.encoder.recording matches Some(held) && p == held@)));
    }
}

/// A slot that was being handed over is got back like one that the queue refused: its
/// package goes back whole, its point is over, and it is the host's. Any other slot is left
/// alone.
pub proof fn law_a_sealed_slot_is_got_back(
    before: ResourcePools,
    after: ResourcePools,
    index: int,
    released: Option<Released>,
    other: int,
)
    requires
        0 <= index < before.encoder.slots@.len(),
        recovers(before, after, index, released),
    ensures
        released is Some <==> before.encoder.slots@[index].submission is SealedWaitingCommit,
        released is None ==> after == before,
        before.encoder.slots@[index].submission matches SlotSubmission::SealedWaitingCommit(sealed)
            ==> {
            &&& after.encoder.slots@[index].submission is HostOwned
            &&& after.encoder.slots@[index].span is Idle
            &&& after.encoder.slots@[index].pending == before.encoder.slots@[index].pending
            &&& after.encoder.slots@[index].fence == before.encoder.slots@[index].fence
            &&& after.shared.retirement@.is_terminal(sealed.recording@ as int)
            &&& released->0.tokens@ == sealed.cleanup.visibility.guest_write_tokens@
            &&& released->0.free_sets@ == sealed.cleanup.encoder.dsets@
            &&& released->0.unpin_residents@ == sealed.cleanup.shared.unpin_residents@
            &&& released->0.unpin_compute_residents@
                == sealed.cleanup.shared.unpin_compute_residents@
            &&& after.encoder.scatter_dset_free@ == before.encoder.scatter_dset_free@
                + sealed.cleanup.encoder.scatter_dsets@
            &&& after.shared.storage_image_free.entries().len()
                == before.shared.storage_image_free.entries().len()
                + sealed.cleanup.shared.storage_images@.len()
        },
        0 <= other < before.encoder.slots@.len() && other != index ==> after.encoder.slots@[other]
            == before.encoder.slots@[other],
        after.encoder.in_flight == before.encoder.in_flight,
{
}

/// A receipt in teardown makes its slot the host's, or failed and reported with what the
/// driver said.
pub proof fn law_a_failed_receipt_is_reported(
    before: ResourcePools,
    after: ResourcePools,
    index: usize,
    received: Option<Result<(), VkResult>>,
    report: Option<VkCall>,
    other: int,
)
    requires
        index < before.encoder.slots@.len(),
        receipt_taken(before, after, index, received, report),
    ensures
        ({
            let submission = before.encoder.slots@[index as int].submission;
            let told = after.encoder.slots@[index as int].submission;
            &&& submission is QueueOwned && (received matches Some(Ok(_))) ==> report is None
                && told is HostOwned
            &&& submission is QueueOwned && received is None ==> report == Some(
                VkCall { op: VkOp::PoolsWaitFencesDestroy, result: VkResult(-4i32) },
            ) && told == SlotSubmission::Failed(VkResult(-4i32))
            &&& submission is QueueOwned ==> (received matches Some(Err(error)) ==> report == Some(
                VkCall { op: VkOp::PoolsWaitFencesDestroy, result: error },
            ) && told == SlotSubmission::Failed(error))
            &&& submission is HostOwned ==> report is None && told is HostOwned
        }),
        after.encoder.slots@[index as int].pending == before.encoder.slots@[index as int].pending,
        0 <= other < before.encoder.slots@.len() && other != index ==> after.encoder.slots@[other]
            == before.encoder.slots@[other],
        after.shared == before.shared,
{
}

/// Joining what is held leaves every slot free and loses nothing: each list of the encoder
/// grows by what the slots held of it.
pub proof fn law_joining_frees_every_slot(
    before: ResourcePools,
    after: ResourcePools,
    tokens: Seq<GuestWriteToken>,
    i: int,
)
    requires
        collected(before, after, tokens),
        0 <= i < before.encoder.slots@.len(),
    ensures
        after.encoder.slots@[i].pending is None,
        after.encoder.slots@[i].retirement is None,
        after.encoder.slots@[i].fence == before.encoder.slots@[i].fence,
        after.encoder.slots@[i].cmd_buf == before.encoder.slots@[i].cmd_buf,
        after.encoder.in_flight == 0,
        ({
            let held = held_by(before.encoder.slots@);
            &&& tokens == held_tokens(held)
            &&& after.encoder.staging_live@ == before.encoder.staging_live@ + held_staging(held)
            &&& after.encoder.gather_live@ == before.encoder.gather_live@ + held_gather(held)
            &&& after.encoder.readback_multi_live@ == before.encoder.readback_multi_live@
                + held_readback(held)
            &&& after.encoder.sampled_live@ == before.encoder.sampled_live@ + held_sampled(held)
            &&& after.encoder.attachment_snapshot_live@
                == before.encoder.attachment_snapshot_live@ + held_snapshots(held)
            &&& after.encoder.storage_image_live@ == before.encoder.storage_image_live@
                + held_storage(held)
        }),
        after.encoder.readback_live == before.encoder.readback_live,
        after.encoder.staging_free == before.encoder.staging_free,
        after.shared == before.shared,
{
}

/// Every buffer that an encoder keeps or uses is among those that go.
pub proof fn law_every_buffer_of_an_encoder_goes(encoder: EncoderPools, slot: BufferSlot)
    ensures
        buffers_of(encoder).contains(slot) <==> {
            ||| encoder.staging_free.all().contains(slot)
            ||| encoder.staging_live@.contains(slot)
            ||| encoder.gather_free.all().contains(slot)
            ||| encoder.gather_live@.contains(slot)
            ||| encoder.readback_free.all().contains(slot)
            ||| encoder.readback_live == Some(slot)
            ||| encoder.readback_multi_live@.contains(slot)
        },
        buffers_of(encoder).len() == encoder.staging_free.all().len() + encoder.staging_live@.len()
            + encoder.gather_free.all().len() + encoder.gather_live@.len()
            + encoder.readback_free.all().len() + encoder.readback_multi_live@.len() + if
            encoder.readback_live is Some {
            1int
        } else {
            0
        },
{
    broadcast use vstd::seq_lib::group_seq_properties;

    let a = encoder.staging_free.all();
    let b = encoder.staging_live@;
    let c = encoder.gather_free.all();
    let d = encoder.gather_live@;
    let e = encoder.readback_free.all();
    let f = optional_buffer(encoder.readback_live);
    let g = encoder.readback_multi_live@;
    lemma_in_either(a, b, slot);
    lemma_in_either(a + b, c, slot);
    lemma_in_either(a + b + c, d, slot);
    lemma_in_either(a + b + c + d, e, slot);
    lemma_in_either(a + b + c + d + e, f, slot);
    lemma_in_either(a + b + c + d + e + f, g, slot);
    if let Some(held) = encoder.readback_live {
        assert(f[0] == held);
    }
}

proof fn lemma_in_either<A>(a: Seq<A>, b: Seq<A>, x: A)
    ensures
        (a + b).contains(x) <==> a.contains(x) || b.contains(x),
{
    let both = a + b;
    if both.contains(x) {
        let i = choose|i: int| 0 <= i < both.len() && both[i] == x;
        if i < a.len() {
            assert(a[i] == x);
        } else {
            assert(b[i - a.len()] == x);
        }
    }
    if a.contains(x) {
        let i = choose|i: int| 0 <= i < a.len() && a[i] == x;
        assert(both[i] == x);
    }
    if b.contains(x) {
        let i = choose|i: int| 0 <= i < b.len() && b[i] == x;
        assert(both[a.len() + i] == x);
    }
}

/// The buried objects, the lent buffers, the cached images and those of residents each go
/// once, in their order.
pub proof fn law_lists_are_let_go_of_in_order(
    handles: Seq<DeferredHandle>,
    graveyard: Seq<(RecordingPoint, DeferredHandle)>,
    leased: Seq<LeasedReadback>,
    entries: Seq<CachedImage>,
    residents: Seq<ResidentStorage>,
    k: int,
)
    ensures
        deferred_releases(handles).len() == handles.len(),
        0 <= k < handles.len() ==> deferred_releases(handles)[k] == NativeRelease::Deferred(
            handles[k],
        ),
        buried(graveyard).len() == graveyard.len(),
        0 <= k < graveyard.len() ==> buried(graveyard)[k] == graveyard[k].1,
        lent(leased).len() == leased.len(),
        0 <= k < leased.len() ==> lent(leased)[k] == leased[k].slot,
        cached_slots(entries).len() == entries.len(),
        0 <= k < entries.len() ==> cached_slots(entries)[k] == entries[k].slot,
        resident_slots(residents).len() == residents.len(),
        0 <= k < residents.len() ==> resident_slots(residents)[k] == residents[k].slot,
{
}

/// Everything with texels goes: the framebuffers that others' attachments carry first, then
/// every list of sampled images, storage images and targets.
pub proof fn law_everything_with_texels_goes(pools: ResourcePools)
    ensures
        image_releases(pools).len() == pools.shared.ad_hoc_framebuffers@.len()
            + sampled_image_releases(pools).len() + storage_image_releases(pools).len()
            + target_image_releases(pools).len(),
        sampled_image_releases(pools).len() == 2 * (pools.shared.sampled_free.entries().len()
            + pools.shared.attachment_snapshot_free.entries().len()
            + pools.encoder.sampled_live@.len() + pools.encoder.attachment_snapshot_live@.len()
            + pools.shared.sampled_cache@.len()) + free_target_releases(
            values_of(pools.shared.target_free.entries()),
        ).len(),
        storage_image_releases(pools).len() == storage_releases(
            values_of(pools.shared.storage_image_free.entries()),
        ).len() + storage_releases(pools.encoder.storage_image_live@).len() + storage_releases(
            resident_slots(pools.shared.compute_storage_registry@),
        ).len() + heap_releases(pools.shared.heap_placement_memory@).len(),
        target_image_releases(pools).len() == target_releases(pools.shared.targets@).len()
            + resident_releases(pools.shared.registry@).len() + if pools.shared.multisample_target
            is Some {
            3int
        } else {
            0
        },
{
    lemma_two_each(values_of(pools.shared.sampled_free.entries()));
    lemma_two_each(values_of(pools.shared.attachment_snapshot_free.entries()));
    lemma_two_each(pools.encoder.sampled_live@);
    lemma_two_each(pools.encoder.attachment_snapshot_live@);
    lemma_two_each(cached_slots(pools.shared.sampled_cache@));
}

proof fn lemma_two_each(slots: Seq<SampledSlot>)
    ensures
        sampled_releases(slots).len() == 2 * slots.len(),
    decreases slots.len(),
{
    if slots.len() > 0 {
        lemma_two_each(slots.drop_last());
    }
}

/// What everything rested on goes last: the memory, every fence, every descriptor set, the
/// kernel where there is one, the arena, and the command pool where there is one.
pub proof fn law_the_ring_goes_last(pools: ResourcePools, k: int)
    ensures
        ({
            let out = ring_releases(pools);
            let fences = pools.encoder.slots@.len();
            let used = pools.encoder.scatter_dsets@.len();
            let free = pools.encoder.scatter_dset_free@.len();
            &&& out.len() == 4 + fences + used + free + (if pools.shared.scatter is Some {
                1int
            } else {
                0
            }) + (if pools.encoder.cmd_pool != CommandPool(0) {
                1int
            } else {
                0
            })
            &&& out[0] is GuestImports
            &&& out[1] is ImageBlocks
            &&& out[2] is BufferBlocks
            &&& 0 <= k < fences ==> out[3 + k] == NativeRelease::Fence(
                pools.encoder.slots@[k].fence,
            )
            &&& 0 <= k < used ==> out[3 + fences + k] == NativeRelease::Descriptors(
                pools.encoder.scatter_dsets@[k],
            )
            &&& 0 <= k < free ==> out[3 + fences + used + k] == NativeRelease::Descriptors(
                pools.encoder.scatter_dset_free@[k],
            )
            &&& pools.shared.scatter matches Some(kernel) ==> out[3 + fences + used + free as int]
                == NativeRelease::Scatter(kernel)
            &&& pools.encoder.cmd_pool != CommandPool(0) ==> out.last()
                == NativeRelease::CommandPool(pools.encoder.cmd_pool)
            &&& pools.encoder.cmd_pool == CommandPool(0) ==> out.last() is Arena
        }),
{
}

/// Lent buffers are waited for while some are out and the deadline has not passed, and what
/// is told when it has is how many are out.
pub proof fn law_lent_buffers_are_waited_for_until_the_deadline(outstanding: usize, waited_ms: u64)
    ensures
        waiting_for(outstanding, waited_ms) is Over <==> outstanding == 0,
        waiting_for(outstanding, waited_ms) is Again <==> outstanding > 0 && waited_ms
            < LEASE_QUIESCE_MS,
        waiting_for(outstanding, waited_ms) matches LeaseWait::Expired(expired) ==> {
            &&& expired.outstanding == outstanding
            &&& expired.waited_ms == LEASE_QUIESCE_MS
            &&& waited_ms >= LEASE_QUIESCE_MS
        },
{
}

/// Every failed wait is told, with what the driver said, and no other.
pub proof fn law_every_failed_wait_is_told(
    waited: Seq<Result<(), VkResult>>,
    next: Result<(), VkResult>,
)
    ensures
        failures(Seq::<Result<(), VkResult>>::empty()).len() == 0,
        next is Ok ==> failures(waited.push(next)) == failures(waited),
        next matches Err(error) ==> failures(waited.push(next)) == failures(waited).push(
            VkCall { op: VkOp::PoolsWaitFencesDestroy, result: error },
        ),
{
    assert(waited.push(next).drop_last() =~= waited);
}

/// Letting go of the buffers empties every list of them, with everything buried, whatever it
/// waits for; images that are used again stay with their free lists until they go too.
pub proof fn law_letting_go_of_buffers_leaves_none(
    before: ResourcePools,
    after: ResourcePools,
    out: Seq<NativeRelease>,
    size: u64,
)
    requires
        buffers_released(before, after, out),
    ensures
        after.shared.graveyard@.len() == 0,
        after.encoder.staging_free.kept(size).len() == 0,
        after.encoder.gather_free.kept(size).len() == 0,
        after.encoder.readback_free.kept(size).len() == 0,
        after.encoder.staging_live@.len() == 0,
        after.encoder.gather_live@.len() == 0,
        after.encoder.readback_live is None,
        after.encoder.readback_multi_live@.len() == 0,
        after.encoder.readback_leased == before.encoder.readback_leased,
        after.encoder.sampled_live == before.encoder.sampled_live,
        after.encoder.slots == before.encoder.slots,
        out.len() == destroyed_in(buried(before.shared.graveyard@)).len() + buffers_of(
            before.encoder,
        ).len(),
        after.shared.sampled_free.entries().len() == before.shared.sampled_free.entries().len()
            + sampled_in(buried(before.shared.graveyard@)).len(),
        after.shared.target_free.entries().len() == before.shared.target_free.entries().len()
            + targets_in(buried(before.shared.graveyard@)).len(),
{
}

/// Letting go of the rest releases every lent buffer, every image and what they rested on,
/// and leaves no list with anything in it.
pub proof fn law_letting_go_of_the_rest_leaves_nothing(
    before: ResourcePools,
    after: ResourcePools,
    returned: Seq<u64>,
    out: Seq<NativeRelease>,
)
    requires
        rest_released(before, after, returned, out),
    ensures
        out.len() == before.encoder.readback_leased@.len() + image_releases(before).len()
            + ring_releases(before).len(),
        after.encoder.readback_leased@.len() == 0,
        after.encoder.sampled_live@.len() == 0,
        after.encoder.attachment_snapshot_live@.len() == 0,
        after.encoder.storage_image_live@.len() == 0,
        after.encoder.slots@.len() == 0,
        after.encoder.scatter_dsets@.len() == 0,
        after.encoder.scatter_dset_free@.len() == 0,
        after.encoder.cur == 0,
        after.encoder.in_flight == 0,
        after.encoder.cmd_pool == CommandPool(0),
        !after.encoder.initialized,
        after.shared.ad_hoc_framebuffers@.len() == 0,
        after.shared.sampled_free.entries().len() == 0,
        after.shared.attachment_snapshot_free.entries().len() == 0,
        after.shared.target_free.entries().len() == 0,
        after.shared.storage_image_free.entries().len() == 0,
        after.shared.sampled_cache@.len() == 0,
        after.shared.compute_storage_registry@.len() == 0,
        after.shared.heap_placement_memory@.len() == 0,
        after.shared.targets@.len() == 0,
        after.shared.multisample_target is None,
        after.shared.registry@.len() == 0,
        after.shared.scatter is None,
        !after.shared.scatter_refused,
{
    crate::pools::readback::law_a_lent_buffer_comes_back_once(
        before.encoder.readback_leased@,
        returned,
    );
}

/// A buffer that may be there is released exactly where it is.
pub proof fn law_a_buffer_that_is_there_is_released(slot: Option<BufferSlot>, k: int)
    ensures
        slot is None ==> optional_buffer(slot).len() == 0,
        slot matches Some(buffer) ==> optional_buffer(slot).len() == 1 && optional_buffer(slot)[0]
            == buffer,
{
}

/// Giving everything up begins with the work under way and then recovers every slot in turn.
pub proof fn law_every_slot_is_recovered_in_turn(
    steps: Seq<ResourcePools>,
    released: Seq<Option<Released>>,
    i: int,
)
    requires
        recovers_all(steps, released),
        0 <= i < released.len(),
    ensures
        steps.len() == released.len() + 1,
        released[i] is Some <==> steps[i].encoder.slots@[i].submission is SealedWaitingCommit,
        released[i] is None ==> steps[i + 1] == steps[i],
        i < steps[i].encoder.slots@.len() ==> steps[i + 1].encoder.slots@.len()
            == steps[i].encoder.slots@.len(),
        steps[i].encoder.slots@[i].submission matches SlotSubmission::SealedWaitingCommit(sealed)
            ==> (released[i] matches Some(given) ==> given.tokens
            == sealed.cleanup.visibility.guest_write_tokens && given.free_sets
            == sealed.cleanup.encoder.dsets),
{
    assert(recovers(steps[i], steps[i + 1], i, released[i]));
}

/// Giving everything up aborts the work under way and recovers each slot once: what was held
/// for the guest is let go, nothing is recorded any more, and there are as many slots as
/// before.
pub proof fn law_giving_everything_up_leaves_nothing_under_way(
    before: ResourcePools,
    after: ResourcePools,
    aborted: AbortedWork,
    recovered: Seq<Option<Released>>,
)
    requires
        given_up_all(before, after, aborted, recovered),
    ensures
        aborted.unpin_residents == before.encoder.resident_pins_live,
        aborted.unpin_compute_residents == before.encoder.compute_write_pins_live,
        after.encoder.recording is None,
        after.encoder.open_batch is None,
        after.encoder.resident_pins_live@.len() == 0,
        after.encoder.compute_write_pins_live@.len() == 0,
{
    let steps = choose|steps: Seq<ResourcePools>| #[trigger]
        recovers_all(steps, recovered) && began(before, steps[0], aborted) && steps.last() == after;
    lemma_recovering_records_nothing(steps, recovered, recovered.len() as int);
}

proof fn lemma_recovering_records_nothing(
    steps: Seq<ResourcePools>,
    released: Seq<Option<Released>>,
    k: int,
)
    requires
        recovers_all(steps, released),
        0 <= k <= released.len(),
        steps[0].encoder.recording is None,
        steps[0].encoder.open_batch is None,
        steps[0].encoder.resident_pins_live@.len() == 0,
        steps[0].encoder.compute_write_pins_live@.len() == 0,
    ensures
        steps[k].encoder.recording is None,
        steps[k].encoder.open_batch is None,
        steps[k].encoder.resident_pins_live@.len() == 0,
        steps[k].encoder.compute_write_pins_live@.len() == 0,
    decreases k,
{
    if k > 0 {
        lemma_recovering_records_nothing(steps, released, k - 1);
        assert(recovers(steps[k - 1], steps[k - 1 + 1], k - 1, released[k - 1]));
    }
}

/// Work that is aborted gives its tokens back in order, each once, and its point is the only
/// one that ends.
pub proof fn law_aborted_work_ends_its_own_point(
    before: ResourcePools,
    after: ResourcePools,
    aborted: AbortedWork,
    i: int,
    j: int,
    p: int,
)
    requires
        began(before, after, aborted),
    ensures
        0 <= i < j < aborted.tokens@.len() ==> aborted.tokens@[i].session.0
            <= aborted.tokens@[j].session.0 && (aborted.tokens@[i].session.0
            == aborted.tokens@[j].session.0 ==> aborted.tokens@[i].serial
            <= aborted.tokens@[j].serial),
        aborted.tokens@.len() == before.encoder.guest_write_tokens_live@.dom().len(),
        after.encoder.guest_write_tokens_live@.dom() == Set::<Set<u64>>::empty(),
        before.shared.retirement@.is_terminal(p) ==> after.shared.retirement@.is_terminal(p),
        after.shared.retirement@.is_terminal(p) && !before.shared.retirement@.is_terminal(p) ==> (
        before.encoder.recording matches Some(lease) && p == lease@),
        after.shared.graveyard == before.shared.graveyard,
        after.shared.targets == before.shared.targets,
        after.encoder.slots == before.encoder.slots,
        after.encoder.staging_live == before.encoder.staging_live,
        after.encoder.open_pass is None,
        after.encoder.last_pass is None,
        after.encoder.cb_guest_visibility.cb is None,
        !after.encoder.cb_guest_visibility.host_visible,
        !after.encoder.cb_guest_visibility.gpu_write_since_barrier,
        after.encoder.cb_graphics@.pipeline is None,
        after.encoder.cb_graphics@.cb is None,
{
    crate::pools::entry::law_every_live_token_is_listed_once(
        before.encoder.guest_write_tokens_live@,
        aborted.tokens@,
        Set::empty(),
        0,
    );
    if 0 <= i < j < aborted.tokens@.len() {
        crate::pools::entry::law_tokens_in_order_rise(aborted.tokens@, i, j);
    }
    assert(forall|q: int|
        after.shared.retirement@.is_terminal(q) == (before.shared.retirement@.is_terminal(q) || (
        before.encoder.recording matches Some(lease) && q == lease@)));
}

/// A slot that is recovered is the host's again and times nothing; its buffer, its fence and
/// every other slot stay.
pub proof fn law_a_recovered_slot_is_the_hosts(
    before: ResourcePools,
    after: ResourcePools,
    index: int,
    released: Option<Released>,
    other: int,
)
    requires
        recovers(before, after, index, released),
        before.encoder.slots@[index].submission is SealedWaitingCommit,
        0 <= index < before.encoder.slots@.len(),
        0 <= other < before.encoder.slots@.len(),
    ensures
        ({
            let slot = after.encoder.slots@[index];
            let was = before.encoder.slots@[index];
            &&& slot.submission is HostOwned
            &&& slot.span is Idle
            &&& !slot.readback_span_armed
            &&& slot.pass_spans == 0
            &&& slot.cmd_buf == was.cmd_buf
            &&& slot.fence == was.fence
            &&& slot.pending == was.pending
            &&& slot.retirement == was.retirement
        }),
        after.encoder.slots@.len() == before.encoder.slots@.len(),
        other != index ==> after.encoder.slots@[other] == before.encoder.slots@[other],
        after.encoder.staging_live == before.encoder.staging_live,
        after.encoder.readback_leased == before.encoder.readback_leased,
        after.encoder.recording == before.encoder.recording,
{
}

} // verus!
