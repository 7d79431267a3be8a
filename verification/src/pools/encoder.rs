//! What one recording context owns: its ring of command buffers, the buffers
//! they read and write, and what the command buffer under way remembers.

use crate::pools::buckets::BucketPool;
use crate::pools::graphics::{CbGraphicsState, GraphicsView};
use crate::pools::keyed::{Keyed, KeyedMap};
use crate::pools::limits::{BATCH_MAX_DRAWS, STAGING_BUCKET_BINS};
use crate::pools::memo::{
    forgot, lemma_forgot_one_more, noted, BindKey, BoundBuffer, CbBind, CbBufferMemo, GuestPages, Remembered, SampledCopy,
    SampledGuestId, SampledGuestKey, SampledMemo,
};
use crate::pools::slots::{
    BufferSlot, CmdSlot, ComputeStorageResidencyKey, DescriptorRef, GuestWriteToken, SampledSlot,
    StorageImageSlot, SubmissionIdentity, TargetIdentity,
};
use crate::pools::visibility::{CbGuestVisibility, ImportedGuestVisibility};
use crate::retirement::RecordingLease;
use crate::types::{DrawError, EngineFacadeDecline};
use crate::vk::{
    CommandBuffer, CommandPool, DescriptorSet, Fence, Framebuffer, Image, QueryPool,
};
use vstd::prelude::*;

verus! {

/// What a draw renders into.
#[derive(Clone, Copy, Debug, PartialEq, Eq, Structural)]
pub struct BatchTarget {
    /// What the target is to the guest.
    pub identity: TargetIdentity,
    /// Texels per row.
    pub width: u32,
    /// Rows.
    pub height: u32,
    /// Whether blue comes first.
    pub bgra: bool,
}

/// The completion stamp that a recording carries.
#[derive(Clone, Copy, Debug, PartialEq, Eq, Structural)]
pub struct RecordingStampId(pub u64);

/// A command buffer that takes draw after draw before it is submitted.
#[derive(Debug)]
pub struct OpenBatch {
    /// The command buffer.
    pub cb: CommandBuffer,
    /// The fence of its submission.
    pub fence: Fence,
    /// Its completion stamp.
    pub stamp_recording: Option<RecordingStampId>,
    /// What its first draw renders into.
    pub target: BatchTarget,
    /// How many draws it holds.
    pub draws: u64,
    /// The descriptor sets that they use.
    pub dsets: Vec<DescriptorRef>,
}

/// Whether a draw fits the open batch.
#[derive(Clone, Copy, Debug, PartialEq, Eq, Structural)]
pub enum BatchFit {
    /// There is none.
    NoBatch,
    /// It has no room.
    Full,
    /// It renders into another target.
    OtherTarget,
    /// It does.
    Open(CommandBuffer, Fence),
}

/// What two render passes must share for one to continue the other's
/// framebuffers and pipelines.
#[derive(Clone, Copy, Debug, PartialEq, Eq, Structural)]
pub struct PassCompatibility(pub u64);

/// One respect in which two render passes are not compatible.
#[derive(Clone, Copy, Debug, PartialEq, Eq, Structural)]
pub struct CompatibilityField(pub u32);

/// The size of a render area.
#[derive(Clone, Copy, Debug, PartialEq, Eq, Structural)]
pub struct Area {
    /// Texels per row.
    pub width: u32,
    /// Rows.
    pub height: u32,
}

/// What identifies a render pass instance.
#[derive(Clone, Copy, Debug, PartialEq, Eq, Structural)]
pub struct PassEcho {
    /// The command buffer.
    pub cb: CommandBuffer,
    /// The shape of the pass.
    pub compatibility: PassCompatibility,
    /// The framebuffer.
    pub fb: Framebuffer,
    /// The image that the guest named.
    pub target_image: Image,
    /// The render area.
    pub area: Area,
}

/// A readback buffer that is lent out.
#[derive(Clone, Copy, Debug, PartialEq, Eq, Structural)]
pub struct LeasedReadback {
    /// What the holder gives back.
    pub token: u64,
    /// The buffer.
    pub slot: BufferSlot,
}

/// What one recording context owns.
#[derive(Debug)]
pub struct EncoderPools {
    /// Upload buffers that no command buffer reads.
    pub staging_free: BucketPool,
    /// Upload buffers of the command buffer under way.
    pub staging_live: Vec<BufferSlot>,
    /// Gather buffers that no command buffer uses.
    pub gather_free: BucketPool,
    /// Gather buffers of the command buffer under way.
    pub gather_live: Vec<BufferSlot>,
    /// Sampled images of the command buffer under way.
    pub sampled_live: Vec<SampledSlot>,
    /// Attachment snapshots of the command buffer under way.
    pub attachment_snapshot_live: Vec<SampledSlot>,
    /// Storage images of the command buffer under way.
    pub storage_image_live: Vec<StorageImageSlot>,
    /// The binds that the command buffer under way has served.
    pub cb_bound_buffers: CbBufferMemo,
    /// The binds whose gather is not recorded yet.
    pub cb_gather_owed: Vec<BindKey>,
    /// The sampled copies that the command buffer under way has made.
    pub cb_sampled_guest: SampledMemo,
    /// The graphics state that the command buffer under way carries.
    pub cb_graphics: CbGraphicsState,
    /// What the command buffer under way has made visible.
    pub cb_guest_visibility: CbGuestVisibility,
    /// Upload buffers used again.
    pub staging_hits: u64,
    /// Upload buffers made.
    pub staging_misses: u64,
    /// Upload buffers made, by size.
    pub staging_miss_bins: Vec<u64>,
    /// The microseconds that making them took, by size.
    pub staging_miss_us_bins: Vec<u64>,
    /// Upload buffers made up to the last maintenance pass.
    pub settled_staging_mark: u64,
    /// Readback buffers that no one reads.
    pub readback_free: BucketPool,
    /// The readback buffer of the command buffer under way.
    pub readback_live: Option<BufferSlot>,
    /// Its further readback buffers.
    pub readback_multi_live: Vec<BufferSlot>,
    /// Readback buffers that are lent out.
    pub readback_leased: Vec<LeasedReadback>,
    /// Where the command buffers come from.
    pub cmd_pool: CommandPool,
    /// Whether the ring was made.
    pub initialized: bool,
    /// Descriptor sets of guest gathers of the command buffer under way.
    pub scatter_dsets: Vec<DescriptorRef>,
    /// Descriptor sets of guest gathers that no command buffer uses.
    pub scatter_dset_free: Vec<DescriptorRef>,
    /// The ring.
    pub slots: Vec<CmdSlot>,
    /// The place in the ring that is recorded into.
    pub cur: usize,
    /// How many command buffers of the ring are submitted.
    pub in_flight: usize,
    /// The place of the recording under way in the recording order.
    pub recording: Option<RecordingLease>,
    /// The submission that the encoder works for.
    pub active_submission: Option<SubmissionIdentity>,
    /// The batch under way.
    pub open_batch: Option<OpenBatch>,
    /// The most draws that a batch takes.
    pub batch_max_draws: u64,
    /// The render pass that the last draw used.
    pub last_pass: Option<PassEcho>,
    /// The render pass that is open.
    pub open_pass: Option<PassEcho>,
    /// Where passes are timed.
    pub pass_probe: Option<QueryPool>,
    /// The place of the open pass among the timed ones.
    pub pass_open_index: Option<u32>,
    /// Whether guest memory is read by work that is not known to be done.
    pub guest_reads_in_flight: bool,
    /// The guest pages that the command buffer under way writes.
    pub guest_write_tokens_live: KeyedMap<GuestPages, GuestWriteToken>,
    /// The residents that the command buffer under way pins.
    pub resident_pins_live: Vec<TargetIdentity>,
    /// The compute residents that the command buffer under way pins.
    pub compute_write_pins_live: Vec<ComputeStorageResidencyKey>,
}

/// How many slots of the ring are submitted.
pub open spec fn pending_count(slots: Seq<CmdSlot>) -> nat
    decreases slots.len(),
{
    if slots.len() == 0 {
        0
    } else {
        pending_count(slots.drop_last()) + if slots.last().pending is Some {
            1nat
        } else {
            0nat
        }
    }
}

/// Replacing one slot moves the count by that slot alone.
pub proof fn lemma_pending_update(slots: Seq<CmdSlot>, at: int, slot: CmdSlot)
    requires
        0 <= at < slots.len(),
    ensures
        pending_count(slots.update(at, slot)) - (if slot.pending is Some {
            1int
        } else {
            0
        }) == pending_count(slots) - (if slots[at].pending is Some {
            1int
        } else {
            0
        }),
        slots[at].pending is Some ==> pending_count(slots) >= 1,
        pending_count(slots) <= slots.len(),
    decreases slots.len(),
{
    let next = slots.update(at, slot);
    lemma_pending_bound(slots);
    if at == slots.len() - 1 {
        assert(next.drop_last() =~= slots.drop_last());
    } else {
        assert(next.drop_last() =~= slots.drop_last().update(at, slot));
        lemma_pending_update(slots.drop_last(), at, slot);
    }
}

/// No more slots are submitted than there are.
pub proof fn lemma_pending_bound(slots: Seq<CmdSlot>)
    ensures
        pending_count(slots) <= slots.len(),
    decreases slots.len(),
{
    if slots.len() > 0 {
        lemma_pending_bound(slots.drop_last());
    }
}

/// A slot that owes cleanup holds a recording point, and one that is being
/// handed to the queue owes none yet.
pub open spec fn slot_wf(slot: CmdSlot) -> bool {
    &&& slot.pending is Some <==> slot.retirement is Some
    &&& slot.submission is SealedWaitingCommit ==> slot.pending is None
}

/// The host may record into the slot.
pub open spec fn recordable(slot: CmdSlot) -> bool {
    slot.pending is None && slot.retirement is None && slot.submission is HostOwned
}

impl EncoderPools {
    /// The lists and maps are well formed.
    pub open spec fn pools_wf(self) -> bool {
        &&& self.staging_free.wf()
        &&& self.gather_free.wf()
        &&& self.readback_free.wf()
        &&& self.cb_bound_buffers.wf()
        &&& self.cb_sampled_guest.wf()
        &&& self.guest_write_tokens_live.wf()
        &&& self.staging_miss_bins@.len() == STAGING_BUCKET_BINS
        &&& self.staging_miss_us_bins@.len() == STAGING_BUCKET_BINS
    }

    /// The ring is well formed: its place is in it, the submitted slots are
    /// counted, and whoever records does so into a slot that owes nothing.
    pub open spec fn ring_wf(self) -> bool {
        &&& self.slots@.len() > 0 ==> self.cur < self.slots@.len()
        &&& self.in_flight == pending_count(self.slots@)
        &&& forall|i: int| 0 <= i < self.slots@.len() ==> slot_wf(#[trigger] self.slots@[i])
        &&& self.recording is Some ==> self.slots@.len() > 0 && recordable(
            self.slots@[self.cur as int],
        )
        &&& self.open_batch is Some ==> self.recording is Some
    }

    /// The encoder is well formed.
    pub open spec fn wf(self) -> bool {
        self.pools_wf() && self.ring_wf()
    }

    /// The place in the ring is in the ring.
    pub open spec fn has_slot(self) -> bool {
        self.cur < self.slots@.len()
    }

    /// The slot that is recorded into.
    pub open spec fn cur_slot(self) -> CmdSlot {
        self.slots@[self.cur as int]
    }

    /// Nothing was made, recorded or counted yet.
    pub open spec fn is_fresh(self) -> bool {
        &&& forall|size: u64| #[trigger] self.staging_free.kept(size).len() == 0
        &&& forall|size: u64| #[trigger] self.gather_free.kept(size).len() == 0
        &&& forall|size: u64| #[trigger] self.readback_free.kept(size).len() == 0
        &&& self.staging_live@.len() == 0
        &&& self.gather_live@.len() == 0
        &&& self.sampled_live@.len() == 0
        &&& self.attachment_snapshot_live@.len() == 0
        &&& self.storage_image_live@.len() == 0
        &&& self.cb_bound_buffers.is_empty()
        &&& self.cb_gather_owed@.len() == 0
        &&& self.cb_sampled_guest@ == Map::<SampledGuestId, SampledCopy>::empty()
        &&& self.cb_graphics@ == GraphicsView::nothing(None)
        &&& self.cb_guest_visibility == CbGuestVisibility::nothing()
        &&& self.staging_hits == 0
        &&& self.staging_misses == 0
        &&& self.staging_miss_bins@ == Seq::new(STAGING_BUCKET_BINS as nat, |i: int| 0u64)
        &&& self.staging_miss_us_bins@ == Seq::new(STAGING_BUCKET_BINS as nat, |i: int| 0u64)
        &&& self.settled_staging_mark == 0
        &&& self.readback_live is None
        &&& self.readback_multi_live@.len() == 0
        &&& self.readback_leased@.len() == 0
        &&& self.cmd_pool == CommandPool(0)
        &&& !self.initialized
        &&& self.scatter_dsets@.len() == 0
        &&& self.scatter_dset_free@.len() == 0
        &&& self.slots@.len() == 0
        &&& self.cur == 0
        &&& self.in_flight == 0
        &&& self.recording is None
        &&& self.active_submission is None
        &&& self.open_batch is None
        &&& self.batch_max_draws == BATCH_MAX_DRAWS
        &&& self.last_pass is None
        &&& self.open_pass is None
        &&& self.pass_probe is None
        &&& self.pass_open_index is None
        &&& !self.guest_reads_in_flight
        &&& self.guest_write_tokens_live@ == Map::<Set<u64>, GuestWriteToken>::empty()
        &&& self.resident_pins_live@.len() == 0
        &&& self.compute_write_pins_live@.len() == 0
    }

    /// An encoder that has made nothing yet.
    pub fn new() -> (encoder: EncoderPools)
        ensures
            encoder.wf(),
            encoder.is_fresh(),
    {
        let encoder = EncoderPools {
            staging_free: BucketPool::new(),
            staging_live: Vec::new(),
            gather_free: BucketPool::new(),
            gather_live: Vec::new(),
            sampled_live: Vec::new(),
            attachment_snapshot_live: Vec::new(),
            storage_image_live: Vec::new(),
            cb_bound_buffers: CbBufferMemo::new(),
            cb_gather_owed: Vec::new(),
            cb_sampled_guest: KeyedMap::new(),
            cb_graphics: CbGraphicsState::new(),
            cb_guest_visibility: CbGuestVisibility::new(),
            staging_hits: 0,
            staging_misses: 0,
            staging_miss_bins: zeros(STAGING_BUCKET_BINS),
            staging_miss_us_bins: zeros(STAGING_BUCKET_BINS),
            settled_staging_mark: 0,
            readback_free: BucketPool::new(),
            readback_live: None,
            readback_multi_live: Vec::new(),
            readback_leased: Vec::new(),
            cmd_pool: CommandPool(0),
            initialized: false,
            scatter_dsets: Vec::new(),
            scatter_dset_free: Vec::new(),
            slots: Vec::new(),
            cur: 0,
            in_flight: 0,
            recording: None,
            active_submission: None,
            open_batch: None,
            batch_max_draws: BATCH_MAX_DRAWS,
            last_pass: None,
            open_pass: None,
            pass_probe: None,
            pass_open_index: None,
            guest_reads_in_flight: false,
            guest_write_tokens_live: KeyedMap::new(),
            resident_pins_live: Vec::new(),
            compute_write_pins_live: Vec::new(),
        };
        encoder
    }

    /// Claim the encoder for one submission. The draws of one submission all
    /// claim it; another submission is refused until the first has closed. A
    /// call outside any submission claims nothing.
    pub fn enter_submission(&mut self, incoming: SubmissionIdentity) -> (entered: Result<
        (),
        DrawError,
    >)
        ensures
            old(self).wf() ==> final(self).wf(),
            *final(self) == (EncoderPools {
                active_submission: final(self).active_submission,
                ..*old(self)
            }),
            match old(self).active_submission {
                Some(active) if incoming.id != 0 && active != incoming => {
                    &&& entered == Err::<(), DrawError>(
                        DrawError::Facade(
                            EngineFacadeDecline::EncoderSubmissionOverlap { active, incoming },
                        ),
                    )
                    &&& final(self).active_submission == old(self).active_submission
                },
                _ => {
                    &&& entered is Ok
                    &&& final(self).active_submission == if incoming.id == 0 {
                        old(self).active_submission
                    } else {
                        Some(incoming)
                    }
                },
            },
    {
        if incoming.id == 0 {
            return Ok(());
        }
        match self.active_submission {
            None => {
                self.active_submission = Some(incoming);
                Ok(())
            },
            Some(active) => if active == incoming {
                Ok(())
            } else {
                Err(
                    DrawError::Facade(
                        EngineFacadeDecline::EncoderSubmissionOverlap { active, incoming },
                    ),
                )
            },
        }
    }

    /// Whether `closing` owns the encoder. An encoder that no submission owns
    /// has nothing to release; one that another owns is a mistake.
    pub fn submission_is_closing(&self, closing: SubmissionIdentity) -> (closes: Result<
        bool,
        DrawError,
    >)
        ensures
            closes == if closing.id == 0 {
                Ok::<bool, DrawError>(false)
            } else {
                match self.active_submission {
                    None => Ok(false),
                    Some(active) => if active == closing {
                        Ok(true)
                    } else {
                        Err(
                            DrawError::Facade(
                                EngineFacadeDecline::EncoderSubmissionCloseMismatch {
                                    active,
                                    closing,
                                },
                            ),
                        )
                    },
                }
            },
    {
        if closing.id == 0 {
            return Ok(false);
        }
        match self.active_submission {
            None => Ok(false),
            Some(active) => if active == closing {
                Ok(true)
            } else {
                Err(
                    DrawError::Facade(
                        EngineFacadeDecline::EncoderSubmissionCloseMismatch { active, closing },
                    ),
                )
            },
        }
    }

    /// Let go of the submission that owns the encoder.
    pub fn release_submission(&mut self, closing: SubmissionIdentity)
        requires
            old(self).active_submission == Some(closing),
        ensures
            old(self).wf() ==> final(self).wf(),
            *final(self) == (EncoderPools { active_submission: None, ..*old(self) }),
    {
        self.active_submission = None;
    }

    /// Let go of the submission once its command buffer is handed off.
    pub fn close_submission(&mut self, identity: SubmissionIdentity) -> (closed: Result<
        (),
        DrawError,
    >)
        ensures
            old(self).wf() ==> final(self).wf(),
            *final(self) == (EncoderPools {
                active_submission: final(self).active_submission,
                ..*old(self)
            }),
            match old(self).active_submission {
                Some(active) if identity.id != 0 && active != identity => {
                    &&& closed == Err::<(), DrawError>(
                        DrawError::Facade(
                            EngineFacadeDecline::EncoderSubmissionCloseMismatch {
                                active,
                                closing: identity,
                            },
                        ),
                    )
                    &&& final(self).active_submission == old(self).active_submission
                },
                _ => {
                    &&& closed is Ok
                    &&& final(self).active_submission == if identity.id == 0 {
                        old(self).active_submission
                    } else {
                        None
                    }
                },
            },
    {
        match self.submission_is_closing(identity) {
            Err(error) => Err(error),
            Ok(false) => Ok(()),
            Ok(true) => {
                self.release_submission(identity);
                Ok(())
            },
        }
    }

    /// Set how many draws a batch takes. No snapshot may be live.
    pub fn configure_batch_capacity(&mut self, draws: u64)
        requires
            old(self).attachment_snapshot_live@.len() == 0,
        ensures
            old(self).wf() ==> final(self).wf(),
            *final(self) == (EncoderPools { batch_max_draws: draws, ..*old(self) }),
    {
        self.batch_max_draws = draws;
    }

    /// Note that the command buffer under way reads guest memory. Says what is to
    /// be published: that a read is outstanding.
    pub fn note_guest_read_recorded(&mut self) -> (outstanding: bool)
        ensures
            outstanding,
            old(self).wf() ==> final(self).wf(),
            *final(self) == (EncoderPools { guest_reads_in_flight: true, ..*old(self) }),
    {
        self.guest_reads_in_flight = true;
        true
    }

    /// Take a gather buffer of exactly `bucket` bytes that no command buffer
    /// uses, and hold it for the command buffer under way.
    pub fn take_free_gather(&mut self, bucket: u64) -> (taken: Option<BufferSlot>)
        requires
            old(self).gather_free.wf(),
        ensures
            old(self).wf() ==> final(self).wf(),
            final(self).gather_free.wf(),
            *final(self) == (EncoderPools {
                gather_free: final(self).gather_free,
                gather_live: final(self).gather_live,
                ..*old(self)
            }),
            match taken {
                Some(slot) => {
                    &&& old(self).gather_free.kept(bucket).len() > 0
                    &&& slot == old(self).gather_free.kept(bucket).last()
                    &&& final(self).gather_live@ == old(self).gather_live@.push(slot)
                    &&& forall|size: u64| #[trigger]
                        final(self).gather_free.kept(size) == if size == bucket {
                            old(self).gather_free.kept(bucket).drop_last()
                        } else {
                            old(self).gather_free.kept(size)
                        }
                },
                None => {
                    &&& old(self).gather_free.kept(bucket).len() == 0
                    &&& final(self).gather_live == old(self).gather_live
                    &&& forall|size: u64| #[trigger]
                        final(self).gather_free.kept(size) == old(self).gather_free.kept(size)
                },
            },
    {
        match self.gather_free.take(bucket) {
            Some(slot) => {
                self.gather_live.push(slot);
                Some(slot)
            },
            None => None,
        }
    }

    /// Hold a new gather buffer for the command buffer under way.
    pub fn hold_guest_gather(&mut self, slot: BufferSlot)
        ensures
            old(self).wf() ==> final(self).wf(),
            *final(self) == (EncoderPools {
                gather_live: final(self).gather_live,
                ..*old(self)
            }),
            final(self).gather_live@ == old(self).gather_live@.push(slot),
    {
        self.gather_live.push(slot);
    }

    /// Take a descriptor set of a retired guest gather.
    pub fn take_free_scatter_dset(&mut self) -> (taken: Option<DescriptorRef>)
        ensures
            old(self).wf() ==> final(self).wf(),
            *final(self) == (EncoderPools {
                scatter_dset_free: final(self).scatter_dset_free,
                ..*old(self)
            }),
            match taken {
                Some(set) => {
                    &&& old(self).scatter_dset_free@.len() > 0
                    &&& set == old(self).scatter_dset_free@.last()
                    &&& final(self).scatter_dset_free@ == old(self).scatter_dset_free@.drop_last()
                },
                None => {
                    &&& old(self).scatter_dset_free@.len() == 0
                    &&& final(self).scatter_dset_free@ == old(self).scatter_dset_free@
                },
            },
    {
        self.scatter_dset_free.pop()
    }

    /// Keep the descriptor sets of a retired guest gather for the next one.
    pub fn recycle_scatter_dsets(&mut self, sets: &mut Vec<DescriptorRef>)
        ensures
            old(self).wf() ==> final(self).wf(),
            *final(self) == (EncoderPools {
                scatter_dset_free: final(self).scatter_dset_free,
                ..*old(self)
            }),
            final(self).scatter_dset_free@ == old(self).scatter_dset_free@ + old(sets)@,
            final(sets)@.len() == 0,
    {
        self.scatter_dset_free.append(sets);
    }

    /// Hold a descriptor set of a guest gather for the command buffer under way:
    /// the youngest retired one, or else a new one. `allocate` makes it; it is
    /// asked only where none is free.
    pub fn alloc_scatter_descriptor_set<F: FnOnce() -> Result<DescriptorRef, DrawError>>(
        &mut self,
        allocate: F,
    ) -> (set: Result<DescriptorSet, DrawError>)
        requires
            old(self).scatter_dset_free@.len() == 0 ==> allocate.requires(()),
        ensures
            old(self).wf() ==> final(self).wf(),
            *final(self) == (EncoderPools {
                scatter_dset_free: final(self).scatter_dset_free,
                scatter_dsets: final(self).scatter_dsets,
                ..*old(self)
            }),
            old(self).scatter_dset_free@.len() > 0 ==> {
                let held = old(self).scatter_dset_free@.last();
                &&& set == Ok::<DescriptorSet, DrawError>(held.set)
                &&& final(self).scatter_dsets@ == old(self).scatter_dsets@.push(held)
                &&& final(self).scatter_dset_free@ == old(self).scatter_dset_free@.drop_last()
            },
            old(self).scatter_dset_free@.len() == 0 ==> exists|
                made: Result<DescriptorRef, DrawError>,
            | #[trigger] allocate.ensures((), made) && match made {
                Ok(held) => {
                    &&& set == Ok::<DescriptorSet, DrawError>(held.set)
                    &&& final(self).scatter_dsets@ == old(self).scatter_dsets@.push(held)
                    &&& final(self).scatter_dset_free@.len() == 0
                },
                Err(error) => {
                    &&& set == Err::<DescriptorSet, DrawError>(error)
                    &&& final(self).scatter_dsets == old(self).scatter_dsets
                    &&& final(self).scatter_dset_free@.len() == 0
                },
            },
    {
        let held: DescriptorRef = match self.take_free_scatter_dset() {
            Some(recycled) => recycled,
            None => {
                let made = allocate();
                match made {
                    Ok(fresh) => fresh,
                    Err(error) => return Err(error),
                }
            },
        };
        self.scatter_dsets.push(held);
        Ok(held.set)
    }

    /// What serves the bind under `key` in the command buffer under way.
    pub fn cb_bound_buffer(&self, key: BindKey) -> (bound: Option<BoundBuffer>)
        requires
            self.cb_bound_buffers.wf(),
        ensures
            bound == self.cb_bound_buffers.lookup(key),
    {
        self.cb_bound_buffers.get(key)
    }

    /// Remember what serves a bind.
    pub fn note_cb_bound_buffer(&mut self, bind: CbBind, bound: BoundBuffer)
        requires
            old(self).cb_bound_buffers.wf(),
        ensures
            old(self).wf() ==> final(self).wf(),
            *final(self) == (EncoderPools {
                cb_bound_buffers: final(self).cb_bound_buffers,
                ..*old(self)
            }),
            final(self).cb_bound_buffers.wf(),
            final(self).cb_bound_buffers.lookup(bind.key) == Some(bound),
            forall|key: BindKey|
                key != bind.key ==> #[trigger] final(self).cb_bound_buffers.lookup(key) == old(
                    self,
                ).cb_bound_buffers.lookup(key),
            noted(
                old(self).cb_bound_buffers,
                final(self).cb_bound_buffers,
                bind.key,
                Remembered { bound, allocation: bind.allocation },
            ),
    {
        self.cb_bound_buffers.note(bind, bound);
    }

    /// The sampled copy of the same guest memory that the command buffer under
    /// way has made, if it has.
    pub fn cb_sampled_guest(&self, key: &SampledGuestKey) -> (slot: Option<SampledSlot>)
        requires
            self.cb_sampled_guest.wf(),
        ensures
            slot == if self.cb_sampled_guest@.dom().contains(key.id()) {
                Some(self.cb_sampled_guest@[key.id()].slot)
            } else {
                None
            },
    {
        match self.cb_sampled_guest.get(key) {
            Some(copy) => Some(copy.slot.handles()),
            None => None,
        }
    }

    /// Remember a sampled copy of guest memory.
    pub fn note_cb_sampled_guest(
        &mut self,
        key: SampledGuestKey,
        pages: Option<GuestPages>,
        image: &SampledSlot,
    )
        requires
            old(self).cb_sampled_guest.wf(),
        ensures
            old(self).wf() ==> final(self).wf(),
            *final(self) == (EncoderPools {
                cb_sampled_guest: final(self).cb_sampled_guest,
                ..*old(self)
            }),
            final(self).cb_sampled_guest.wf(),
            final(self).cb_sampled_guest@ == old(self).cb_sampled_guest@.insert(
                key.id(),
                (SampledCopy { slot: *image, pages }),
            ),
    {
        let copy = SampledCopy { slot: image.handles(), pages };
        self.cb_sampled_guest.insert(key, copy);
    }

    /// Note that the gather that fills a bind is not recorded yet.
    pub fn note_cb_bind_owes_gather(&mut self, key: BindKey)
        ensures
            old(self).wf() ==> final(self).wf(),
            *final(self) == (EncoderPools {
                cb_gather_owed: final(self).cb_gather_owed,
                ..*old(self)
            }),
            final(self).cb_gather_owed@ == old(self).cb_gather_owed@.push(key),
    {
        self.cb_gather_owed.push(key);
    }

    /// Note that every owed gather is recorded.
    pub fn note_cb_gathers_recorded(&mut self)
        ensures
            old(self).wf() ==> final(self).wf(),
            *final(self) == (EncoderPools {
                cb_gather_owed: final(self).cb_gather_owed,
                ..*old(self)
            }),
            final(self).cb_gather_owed@.len() == 0,
    {
        self.cb_gather_owed.clear();
    }

    /// Forget the binds whose gather will not be recorded. Says how many were
    /// owed one.
    pub fn discard_cb_binds_owed_a_gather(&mut self) -> (owed: usize)
        requires
            old(self).cb_bound_buffers.wf(),
        ensures
            old(self).wf() ==> final(self).wf(),
            *final(self) == (EncoderPools {
                cb_gather_owed: final(self).cb_gather_owed,
                cb_bound_buffers: final(self).cb_bound_buffers,
                ..*old(self)
            }),
            owed == old(self).cb_gather_owed@.len(),
            final(self).cb_gather_owed@.len() == 0,
            final(self).cb_bound_buffers.wf(),
            forall|key: BindKey| #[trigger]
                final(self).cb_bound_buffers.lookup(key) == if old(
                    self,
                ).cb_gather_owed@.contains(key) {
                    None
                } else {
                    old(self).cb_bound_buffers.lookup(key)
                },
            forgot(
                old(self).cb_bound_buffers,
                final(self).cb_bound_buffers,
                old(self).cb_gather_owed@,
            ),
    {
        let owed: usize = self.cb_gather_owed.len();
        let mut keys: Vec<BindKey> = Vec::new();
        std::mem::swap(&mut keys, &mut self.cb_gather_owed);
        proof {
            let none = keys@.take(0).to_set();
            assert(none =~= Set::<BindKey>::empty());
            let memo = self.cb_bound_buffers;
            assert(memo.aliases@ =~= memo.aliases@.remove_keys(none));
            assert(memo.immutable@ =~= memo.immutable@.remove_keys(none));
            assert(memo.guest_snapshots@ =~= memo.guest_snapshots@.remove_keys(none));
        }
        let mut k: usize = 0;
        while k < keys.len()
            invariant
                k <= keys@.len(),
                keys@ == old(self).cb_gather_owed@,
                old(self).cb_bound_buffers.wf(),
                self.cb_gather_owed@.len() == 0,
                self.cb_bound_buffers.wf(),
                *self == (EncoderPools {
                    cb_gather_owed: self.cb_gather_owed,
                    cb_bound_buffers: self.cb_bound_buffers,
                    ..*old(self)
                }),
                forall|key: BindKey| #[trigger]
                    self.cb_bound_buffers.lookup(key) == if keys@.take(k as int).contains(key) {
                        None
                    } else {
                        old(self).cb_bound_buffers.lookup(key)
                    },
                forgot(old(self).cb_bound_buffers, self.cb_bound_buffers, keys@.take(k as int)),
            decreases keys@.len() - k,
        {
            let ghost before = self.cb_bound_buffers;
            let ghost this = keys@[k as int];
            self.cb_bound_buffers.forget(keys[k]);
            proof {
                let done = keys@.take(k as int);
                let next = keys@.take(k + 1);
                assert(next =~= done.push(this));
                lemma_forgot_one_more(
                    old(self).cb_bound_buffers,
                    before,
                    self.cb_bound_buffers,
                    done,
                    this,
                );
                assert forall|key: BindKey| #[trigger]
                    self.cb_bound_buffers.lookup(key) == if next.contains(key) {
                        None
                    } else {
                        old(self).cb_bound_buffers.lookup(key)
                    } by {
                    assert(self.cb_bound_buffers.lookup(key) == if key == this {
                        None
                    } else {
                        before.lookup(key)
                    });
                    if key == this {
                        assert(next[k as int] == key);
                    } else if done.contains(key) {
                        let i = choose|i: int| 0 <= i < done.len() && done[i] == key;
                        assert(next[i] == key);
                    } else if next.contains(key) {
                        let i = choose|i: int| 0 <= i < next.len() && next[i] == key;
                        assert(done[i] == key);
                    }
                }
            }
            k += 1;
        }
        assert(keys@.take(k as int) =~= keys@);
        owed
    }

    /// The command buffer and fence of the open batch.
    pub fn batch_open_recording(&self) -> (open: Option<(CommandBuffer, Fence)>)
        ensures
            open == match self.open_batch {
                Some(batch) => Some((batch.cb, batch.fence)),
                None => None,
            },
    {
        match &self.open_batch {
            Some(batch) => Some((batch.cb, batch.fence)),
            None => None,
        }
    }

    /// The completion stamp of the open batch.
    pub fn batch_stamp_recording(&self) -> (stamp: Option<RecordingStampId>)
        ensures
            stamp == match self.open_batch {
                Some(batch) => batch.stamp_recording,
                None => None,
            },
    {
        match &self.open_batch {
            Some(batch) => batch.stamp_recording,
            None => None,
        }
    }

    /// Whether a draw into `target` fits the open batch. A full batch takes no
    /// more; where batches are narrowed, one takes one target only.
    pub fn batch_fit(&self, target: &BatchTarget, narrow_to_target: bool) -> (fit: BatchFit)
        ensures
            fit == match self.open_batch {
                None => BatchFit::NoBatch,
                Some(batch) => if batch.draws >= self.batch_max_draws {
                    BatchFit::Full
                } else if narrow_to_target && batch.target != *target {
                    BatchFit::OtherTarget
                } else {
                    BatchFit::Open(batch.cb, batch.fence)
                },
            },
    {
        match &self.open_batch {
            None => BatchFit::NoBatch,
            Some(batch) => {
                if batch.draws >= self.batch_max_draws {
                    return BatchFit::Full;
                }
                if narrow_to_target && batch.target != *target {
                    return BatchFit::OtherTarget;
                }
                BatchFit::Open(batch.cb, batch.fence)
            },
        }
    }

    /// Whether the open batch renders into `target`.
    pub fn batch_target_is(&self, target: &BatchTarget) -> (same: Option<bool>)
        ensures
            same == match self.open_batch {
                None => None,
                Some(batch) => Some(batch.target == *target),
            },
    {
        match &self.open_batch {
            None => None,
            Some(batch) => Some(batch.target == *target),
        }
    }

    /// The dependency on guest memory that the next imported read in `cb` owes.
    pub fn imported_guest_barrier<F: FnOnce() -> ImportedGuestVisibility>(
        &mut self,
        cb: CommandBuffer,
        classify: F,
    ) -> (owed: Option<ImportedGuestVisibility>)
        requires
            !old(self).cb_guest_visibility.of(cb).covered() ==> classify.requires(()),
        ensures
            old(self).wf() ==> final(self).wf(),
            *final(self) == (EncoderPools {
                cb_guest_visibility: final(self).cb_guest_visibility,
                ..*old(self)
            }),
            ({
                let known = old(self).cb_guest_visibility.of(cb);
                &&& known.covered() ==> owed is None && final(self).cb_guest_visibility == known
                &&& !known.covered() ==> exists|visibility: ImportedGuestVisibility| #[trigger]
                    classify.ensures((), visibility) && if known.owes(visibility) {
                        owed == Some(visibility) && final(self).cb_guest_visibility == known.after(
                            visibility,
                        )
                    } else {
                        owed is None && final(self).cb_guest_visibility == known
                    }
            }),
    {
        self.cb_guest_visibility.barrier(cb, classify)
    }
}

/// `n` zeros.
fn zeros(n: usize) -> (zeros: Vec<u64>)
    ensures
        zeros@ == Seq::new(n as nat, |i: int| 0u64),
{
    let mut zeros: Vec<u64> = Vec::new();
    while zeros.len() < n
        invariant
            zeros@.len() <= n,
            forall|i: int| 0 <= i < zeros@.len() ==> zeros@[i] == 0u64,
        decreases n - zeros@.len(),
    {
        zeros.push(0);
    }
    assert(zeros@ =~= Seq::new(n as nat, |i: int| 0u64));
    zeros
}

/// Every submitted slot of the ring is counted, and no other.
pub proof fn law_submitted_slots_are_counted(slots: Seq<CmdSlot>, slot: CmdSlot)
    ensures
        pending_count(Seq::<CmdSlot>::empty()) == 0,
        pending_count(slots.push(slot)) == pending_count(slots) + if slot.pending is Some {
            1int
        } else {
            0
        },
{
    assert(slots.push(slot).drop_last() =~= slots);
}

/// A slot may be recorded into exactly where it owes nothing and the host owns it;
/// then it is not submitted.
pub proof fn law_a_recordable_slot_is_the_hosts(slot: CmdSlot)
    ensures
        recordable(slot) <==> slot.pending is None && slot.retirement is None
            && slot.submission is HostOwned,
        slot_wf(slot) ==> (slot.pending is Some <==> slot.retirement is Some),
        slot_wf(slot) && slot.submission is SealedWaitingCommit ==> slot.pending is None,
        recordable(slot) ==> slot_wf(slot),
{
}

/// In a well-formed ring the current slot is in it, the submitted ones are counted,
/// and a recording has a slot of its own that is not submitted.
pub proof fn law_a_ring_knows_its_submissions(encoder: EncoderPools)
    requires
        encoder.wf(),
    ensures
        encoder.slots@.len() > 0 ==> encoder.cur < encoder.slots@.len(),
        encoder.in_flight == pending_count(encoder.slots@),
        encoder.in_flight <= encoder.slots@.len(),
        encoder.recording is Some ==> encoder.has_slot() && encoder.cur_slot().pending is None
            && encoder.cur_slot() == encoder.slots@[encoder.cur as int],
        encoder.open_batch is Some ==> encoder.recording is Some,
        encoder.has_slot() <==> encoder.cur < encoder.slots@.len(),
{
    lemma_pending_bound(encoder.slots@);
}

/// A fresh encoder holds nothing: no object of the driver, no recording, nothing owed and
/// nothing counted.
pub proof fn law_a_fresh_encoder_holds_nothing(encoder: EncoderPools, size: u64)
    requires
        encoder.is_fresh(),
    ensures
        encoder.staging_free.kept(size).len() == 0,
        encoder.gather_free.kept(size).len() == 0,
        encoder.readback_free.kept(size).len() == 0,
        encoder.staging_live@.len() == 0,
        encoder.gather_live@.len() == 0,
        encoder.sampled_live@.len() == 0,
        encoder.attachment_snapshot_live@.len() == 0,
        encoder.storage_image_live@.len() == 0,
        encoder.readback_live is None,
        encoder.readback_multi_live@.len() == 0,
        encoder.readback_leased@.len() == 0,
        encoder.scatter_dsets@.len() == 0,
        encoder.scatter_dset_free@.len() == 0,
        encoder.slots@.len() == 0,
        encoder.in_flight == 0,
        encoder.cur == 0,
        encoder.recording is None,
        encoder.active_submission is None,
        encoder.open_batch is None,
        encoder.last_pass is None,
        encoder.open_pass is None,
        encoder.pass_probe is None,
        encoder.pass_open_index is None,
        encoder.cmd_pool.0 == 0,
        !encoder.initialized,
        !encoder.guest_reads_in_flight,
        !encoder.cb_guest_visibility.host_visible,
        encoder.cb_guest_visibility.cb is None,
        encoder.cb_graphics@.pipeline is None,
        encoder.cb_bound_buffers.is_empty(),
        encoder.cb_gather_owed@.len() == 0,
        encoder.resident_pins_live@.len() == 0,
        encoder.compute_write_pins_live@.len() == 0,
        encoder.staging_hits == 0,
        encoder.staging_misses == 0,
        encoder.settled_staging_mark == 0,
        encoder.batch_max_draws == BATCH_MAX_DRAWS,
{
}

} // verus!
