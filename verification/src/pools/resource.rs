//! An encoder together with what it shares, and the ways in which a command
//! buffer ends: its fence signals, or the queue refuses it.

use crate::pools::buckets::in_bucket;
use crate::pools::encoder::{
    lemma_pending_bound, lemma_pending_update, recordable, slot_wf, EncoderPools,
};
use crate::pools::entry::{lifted, lists_tokens, readback_of, seals};
use crate::pools::free_pool::{FreePool, PoolKey};
use crate::pools::pass::{lemma_ring_kept, SpanRead};
use crate::pools::sampled_cache::{
    emptied, offered, still_exact, Admission, CachedImage, LiveOwners,
};
use crate::pools::shared::{
    destroyed_in, disposed_sampled, keyed_sampled, keyed_storage, ready, recycle_all_sampled,
    recycle_all_storage, sampled_in, targets_in, took_back, waiting, SharedPools,
};
use crate::pools::slots::{
    CmdSlot, ComputeStorageResidencyKey, DeferredHandle, DescriptorRef, EncoderCleanup,
    GuestWriteToken, PendingGpuCleanup, SampledRetain, SampledSlot, SealedEntry, SharedCleanup,
    SharedRetirement, SlotSpan, SlotSubmission, StorageImageSlot, TargetIdentity,
};
use crate::queue_owner::PendingQueueSubmit;
use crate::retirement::Order;
use vstd::prelude::*;

verus! {

/// An encoder with what it shares.
pub struct ResourcePools {
    /// What the encoder owns.
    pub encoder: EncoderPools,
    /// What it shares.
    pub shared: SharedPools,
}

/// What is to be done outside once a command buffer has ended.
#[derive(Debug)]
pub struct Released {
    /// The guest writes that are over.
    pub tokens: Vec<GuestWriteToken>,
    /// The residents to unpin.
    pub unpin_residents: Vec<TargetIdentity>,
    /// The compute residents to unpin.
    pub unpin_compute_residents: Vec<ComputeStorageResidencyKey>,
    /// The descriptor sets to free.
    pub free_sets: Vec<DescriptorRef>,
    /// The objects to destroy.
    pub destroy: Vec<DeferredHandle>,
}

/// A ring slot whose fence has signalled, taken apart.
#[derive(Debug)]
pub struct RetiredSlot {
    /// The timed region to read.
    pub span: Option<SpanRead>,
    /// Whether to read the readback region.
    pub readback: bool,
    /// What is to be done outside.
    pub released: Released,
}

/// The recording point that a slot holds.
pub open spec fn held_point(slot: CmdSlot) -> Option<u64> {
    match slot.retirement {
        Some(point) => Some(point@),
        None => match slot.submission {
            SlotSubmission::SealedWaitingCommit(sealed) => Some(sealed.recording@),
            _ => None,
        },
    }
}

/// The encoder does not hold the point `point`.
pub open spec fn unheld(encoder: EncoderPools, point: u64) -> bool {
    &&& encoder.recording matches Some(lease) ==> lease@ != point
    &&& forall|i: int|
        0 <= i < encoder.slots@.len() ==> held_point(#[trigger] encoder.slots@[i]) != Some(point)
}

/// Every point that the encoder holds is live, and it holds none twice.
pub open spec fn points_wf(encoder: EncoderPools, order: Order) -> bool {
    &&& encoder.recording matches Some(lease) ==> order.is_live(lease@ as int)
    &&& forall|i: int|
        0 <= i < encoder.slots@.len() ==> (held_point(#[trigger] encoder.slots@[i]) matches Some(
            point,
        ) ==> order.is_live(point as int))
    &&& forall|i: int, j: int|
        0 <= i < j < encoder.slots@.len() ==> (held_point(#[trigger] encoder.slots@[i]) is Some
            ==> held_point(encoder.slots@[i]) != held_point(#[trigger] encoder.slots@[j]))
    &&& forall|i: int|
        0 <= i < encoder.slots@.len() ==> (encoder.recording matches Some(lease) ==> held_point(
            #[trigger] encoder.slots@[i],
        ) != Some(lease@))
}

/// What one ended command buffer does to what is shared: its images are kept for
/// reuse, its point is over, and whatever waited for that leaves the graveyard.
pub open spec fn settled(
    before: SharedPools,
    after: SharedPools,
    sampled: Seq<SampledSlot>,
    snapshots: Seq<SampledSlot>,
    storage: Seq<StorageImageSlot>,
    point: u64,
    destroy: Seq<DeferredHandle>,
) -> bool {
    let handles = ready(before.graveyard@, after.retirement@.prefix());
    &&& after == (SharedPools {
        retirement: after.retirement,
        graveyard: after.graveyard,
        sampled_free: after.sampled_free,
        attachment_snapshot_free: after.attachment_snapshot_free,
        storage_image_free: after.storage_image_free,
        target_free: after.target_free,
        ..before
    })
    &&& after.retirement@.issued() == before.retirement@.issued()
    &&& after.retirement@.prefix() >= before.retirement@.prefix()
    &&& forall|p: int|
        after.retirement@.is_terminal(p) == (before.retirement@.is_terminal(p) || p == point)
    &&& took_back(
        before.sampled_free,
        after.sampled_free,
        keyed_sampled(sampled) + sampled_in(handles),
    )
    &&& took_back(
        before.attachment_snapshot_free,
        after.attachment_snapshot_free,
        keyed_sampled(snapshots),
    )
    &&& took_back(before.storage_image_free, after.storage_image_free, keyed_storage(storage))
    &&& took_back(before.target_free, after.target_free, targets_in(handles))
    &&& after.graveyard@ == waiting(before.graveyard@, after.retirement@.prefix())
    &&& destroy == destroyed_in(handles)
}

/// The images among `admissions`.
pub open spec fn admission_slots(admissions: Seq<(SampledSlot, SampledRetain)>) -> Seq<SampledSlot> {
    admissions.map_values(|pair: (SampledSlot, SampledRetain)| pair.0)
}

/// The cache after each of `admissions` was offered to it in turn, and the
/// images that it did not keep.
pub open spec fn offered_all(
    entries: Seq<CachedImage>,
    admissions: Seq<(SampledSlot, SampledRetain)>,
    live: LiveOwners,
    now_ms: u64,
) -> (Seq<CachedImage>, Seq<SampledSlot>)
    decreases admissions.len(),
{
    if admissions.len() == 0 {
        (entries, Seq::empty())
    } else {
        let (cached, declined) = offered_all(entries, admissions.drop_last(), live, now_ms);
        let (slot, retain) = admissions.last();
        let (admission, next) = offered(cached, slot, retain, live, now_ms);
        (
            next,
            if admission is Kept {
                declined
            } else {
                declined.push(slot)
            },
        )
    }
}

/// How each of `admissions` fared that was offered to the cache in turn.
pub open spec fn admitted_all(
    entries: Seq<CachedImage>,
    admissions: Seq<(SampledSlot, SampledRetain)>,
    live: LiveOwners,
    now_ms: u64,
) -> Seq<Admission>
    decreases admissions.len(),
{
    if admissions.len() == 0 {
        Seq::empty()
    } else {
        let cached = offered_all(entries, admissions.drop_last(), live, now_ms).0;
        let (slot, retain) = admissions.last();
        admitted_all(entries, admissions.drop_last(), live, now_ms).push(
            offered(cached, slot, retain, live, now_ms).0,
        )
    }
}

/// How many of `outcomes` are `outcome`.
pub open spec fn times(outcomes: Seq<Admission>, outcome: Admission) -> nat
    decreases outcomes.len(),
{
    if outcomes.len() == 0 {
        0
    } else {
        times(outcomes.drop_last(), outcome) + if outcomes.last() == outcome {
            1nat
        } else {
            0nat
        }
    }
}

/// Every image offered to the cache has one outcome: it is kept, a duplicate, or
/// no live resource asked for it. The cache grows by those kept, and the others
/// are the recording's again.
pub proof fn law_every_admission_is_counted_by_its_outcome(
    entries: Seq<CachedImage>,
    admissions: Seq<(SampledSlot, SampledRetain)>,
    live: LiveOwners,
    now_ms: u64,
)
    ensures
        ({
            let outcomes = admitted_all(entries, admissions, live, now_ms);
            let (cached, declined) = offered_all(entries, admissions, live, now_ms);
            &&& outcomes.len() == admissions.len()
            &&& times(outcomes, Admission::Kept) + times(outcomes, Admission::Duplicate) + times(
                outcomes,
                Admission::NoLifetime,
            ) == admissions.len()
            &&& cached.len() == entries.len() + times(outcomes, Admission::Kept)
            &&& declined.len() == times(outcomes, Admission::Duplicate) + times(
                outcomes,
                Admission::NoLifetime,
            )
        }),
    decreases admissions.len(),
{
    if admissions.len() > 0 {
        law_every_admission_is_counted_by_its_outcome(
            entries,
            admissions.drop_last(),
            live,
            now_ms,
        );
        let outcomes = admitted_all(entries, admissions, live, now_ms);
        assert(outcomes.drop_last() =~= admitted_all(
            entries,
            admissions.drop_last(),
            live,
            now_ms,
        ));
    }
}

proof fn lemma_took_twice<K: PoolKey, V>(
    first: FreePool<K, V>,
    second: FreePool<K, V>,
    third: FreePool<K, V>,
    x: Seq<(K, V)>,
    y: Seq<(K, V)>,
)
    requires
        took_back(first, second, x),
        took_back(second, third, y),
    ensures
        took_back(first, third, x + y),
{
    assert(third.entries() =~= first.entries() + (x + y));
}

/// The points that an encoder holds stay live while the order only makes another
/// point terminal.
pub(crate) proof fn lemma_points_kept(encoder: EncoderPools, before: Order, after: Order, point: u64)
    requires
        points_wf(encoder, before),
        unheld(encoder, point),
        after.issued() == before.issued(),
        forall|p: int| after.is_terminal(p) == (before.is_terminal(p) || p == point),
    ensures
        points_wf(encoder, after),
{
    assert forall|i: int| 0 <= i < encoder.slots@.len() implies (held_point(
        #[trigger] encoder.slots@[i],
    ) matches Some(held) ==> after.is_live(held as int)) by {}
}

impl SharedPools {
    /// Keep the images of an ended command buffer for reuse. What it pinned is
    /// given back to be unpinned.
    pub fn drain_shared_cleanup(&mut self, pending: SharedCleanup) -> (unpin: (
        Vec<TargetIdentity>,
        Vec<ComputeStorageResidencyKey>,
    ))
        ensures
            unpin.0 == pending.unpin_residents,
            unpin.1 == pending.unpin_compute_residents,
            *final(self) == (SharedPools {
                sampled_free: final(self).sampled_free,
                attachment_snapshot_free: final(self).attachment_snapshot_free,
                storage_image_free: final(self).storage_image_free,
                ..*old(self)
            }),
            took_back(
                old(self).sampled_free,
                final(self).sampled_free,
                keyed_sampled(pending.sampled@),
            ),
            took_back(
                old(self).attachment_snapshot_free,
                final(self).attachment_snapshot_free,
                keyed_sampled(pending.attachment_snapshots@),
            ),
            took_back(
                old(self).storage_image_free,
                final(self).storage_image_free,
                keyed_storage(pending.storage_images@),
            ),
            old(self).wf() ==> final(self).wf(),
    {
        let SharedCleanup {
            sampled,
            attachment_snapshots,
            storage_images,
            unpin_residents,
            unpin_compute_residents,
        } = pending;
        recycle_all_sampled(&mut self.sampled_free, &sampled);
        recycle_all_sampled(&mut self.attachment_snapshot_free, &attachment_snapshots);
        recycle_all_storage(&mut self.storage_image_free, &storage_images);
        (unpin_residents, unpin_compute_residents)
    }
}

impl ResourcePools {
    /// Both halves are well formed, and the encoder's points are live.
    pub open spec fn wf(self) -> bool {
        &&& self.encoder.wf()
        &&& self.shared.wf()
        &&& points_wf(self.encoder, self.shared.retirement@)
    }

    /// The point is live, and no one else holds it.
    pub open spec fn owns(self, point: u64) -> bool {
        self.shared.retirement@.is_live(point as int) && unheld(self.encoder, point)
    }

    /// Nothing was made yet.
    pub fn new() -> (pools: ResourcePools)
        ensures
            pools.wf(),
            pools.encoder.is_fresh(),
            pools.shared.is_fresh(),
    {
        ResourcePools { encoder: EncoderPools::new(), shared: SharedPools::new() }
    }

    /// The encoder's half.
    pub fn encoder(&self) -> (encoder: &EncoderPools)
        ensures
            *encoder == self.encoder,
    {
        &self.encoder
    }

    /// How many draws a batch takes.
    pub fn batch_capacity(&self) -> (draws: u64)
        ensures
            draws == self.encoder.batch_max_draws,
    {
        self.encoder.batch_max_draws
    }

    /// Apply the shared half of a command buffer whose fence has signalled.
    pub fn apply_shared_retirement(&mut self, shared: SharedRetirement) -> (released: Released)
        requires
            old(self).wf(),
            old(self).owns(shared.retirement@),
        ensures
            final(self).wf(),
            final(self).encoder == old(self).encoder,
            settled(
                old(self).shared,
                final(self).shared,
                shared.cleanup.sampled@,
                shared.cleanup.attachment_snapshots@,
                shared.cleanup.storage_images@,
                shared.retirement@,
                released.destroy@,
            ),
            released.tokens == shared.visibility.guest_write_tokens,
            released.unpin_residents == shared.cleanup.unpin_residents,
            released.unpin_compute_residents == shared.cleanup.unpin_compute_residents,
            released.free_sets@.len() == 0,
    {
        let SharedRetirement { visibility, cleanup, retirement } = shared;
        let ghost before = self.shared;
        let ghost point = retirement@;
        let ghost sampled = cleanup.sampled@;
        let (unpin_residents, unpin_compute_residents) = self.shared.drain_shared_cleanup(cleanup);
        let ghost drained = self.shared;
        retirement.retire(&mut self.shared.retirement);
        proof {
            lemma_points_kept(self.encoder, before.retirement@, self.shared.retirement@, point);
        }
        let destroy = self.shared.release_ready_graveyard();
        proof {
            let handles = ready(before.graveyard@, self.shared.retirement@.prefix());
            lemma_took_twice(
                before.sampled_free,
                drained.sampled_free,
                self.shared.sampled_free,
                keyed_sampled(sampled),
                sampled_in(handles),
            );
        }
        Released {
            tokens: visibility.guest_write_tokens,
            unpin_residents,
            unpin_compute_residents,
            free_sets: Vec::new(),
            destroy,
        }
    }
}

/// The free lists after the encoder's half of an ended command buffer was taken
/// back.
pub open spec fn reclaimed(before: EncoderPools, after: EncoderPools, cleanup: EncoderCleanup) -> bool {
    &&& after.scatter_dset_free@ == before.scatter_dset_free@ + cleanup.scatter_dsets@
    &&& forall|size: u64| #[trigger]
        after.staging_free.kept(size) == before.staging_free.kept(size) + in_bucket(
            cleanup.staging@,
            size,
        )
    &&& forall|size: u64| #[trigger]
        after.gather_free.kept(size) == before.gather_free.kept(size) + in_bucket(
            cleanup.gather@,
            size,
        )
    &&& forall|size: u64| #[trigger]
        after.readback_free.kept(size) == before.readback_free.kept(size) + in_bucket(
            cleanup.readback@,
            size,
        )
}

/// A slot after its fence signalled: it owes nothing, and what was timed of it
/// is to be timed anew.
pub open spec fn retired_slot(before: CmdSlot, timed: bool, readback_timed: bool) -> CmdSlot {
    CmdSlot {
        pending: None,
        retirement: None,
        span: if timed {
            SlotSpan::Idle
        } else {
            before.span
        },
        pass_spans: if timed && before.span is Sealed {
            0
        } else {
            before.pass_spans
        },
        readback_span_armed: before.readback_span_armed && !readback_timed,
        ..before
    }
}

/// What taking the slot `index` back does once its fence has signalled.
pub open spec fn slot_retired(
    before: ResourcePools,
    after: ResourcePools,
    index: int,
    timed: bool,
    readback_timed: bool,
    retired: RetiredSlot,
) -> bool {
    let slot = before.encoder.slots@[index];
    let cleanup = slot.pending->0;
    &&& retired.span == match slot.span {
        SlotSpan::Sealed { kind, draws } if timed => Some(
            SpanRead { kind, draws, passes: slot.pass_spans },
        ),
        _ => None,
    }
    &&& retired.readback == (readback_timed && slot.readback_span_armed)
    &&& retired.released.tokens == cleanup.visibility.guest_write_tokens
    &&& retired.released.unpin_residents == cleanup.shared.unpin_residents
    &&& retired.released.unpin_compute_residents == cleanup.shared.unpin_compute_residents
    &&& retired.released.free_sets == cleanup.encoder.dsets
    &&& settled(
        before.shared,
        after.shared,
        cleanup.shared.sampled@,
        cleanup.shared.attachment_snapshots@,
        cleanup.shared.storage_images@,
        slot.retirement->0@,
        retired.released.destroy@,
    )
    &&& after.encoder == (EncoderPools {
        slots: after.encoder.slots,
        in_flight: (before.encoder.in_flight - 1) as usize,
        scatter_dset_free: after.encoder.scatter_dset_free,
        staging_free: after.encoder.staging_free,
        gather_free: after.encoder.gather_free,
        readback_free: after.encoder.readback_free,
        ..before.encoder
    })
    &&& after.encoder.slots@ == before.encoder.slots@.update(
        index,
        retired_slot(slot, timed, readback_timed),
    )
    &&& reclaimed(before.encoder, after.encoder, cleanup.encoder)
}

/// What taking a command buffer apart does that no queue accepted: everything
/// goes back to where it came from, its point is over, and its slot is timed
/// anew.
pub open spec fn taken_apart(
    before: ResourcePools,
    after: ResourcePools,
    slot: int,
    sealed: SealedEntry,
    released: Released,
) -> bool {
    &&& settled(
        before.shared,
        after.shared,
        sealed.cleanup.shared.sampled@ + admission_slots(sealed.admissions@),
        sealed.cleanup.shared.attachment_snapshots@,
        sealed.cleanup.shared.storage_images@,
        sealed.recording@,
        released.destroy@,
    )
    &&& released.tokens == sealed.cleanup.visibility.guest_write_tokens
    &&& released.unpin_residents == sealed.cleanup.shared.unpin_residents
    &&& released.unpin_compute_residents == sealed.cleanup.shared.unpin_compute_residents
    &&& released.free_sets == sealed.cleanup.encoder.dsets
    &&& after.encoder == (EncoderPools {
        slots: after.encoder.slots,
        scatter_dset_free: after.encoder.scatter_dset_free,
        staging_free: after.encoder.staging_free,
        gather_free: after.encoder.gather_free,
        readback_free: after.encoder.readback_free,
        ..before.encoder
    })
    &&& after.encoder.slots@ == before.encoder.slots@.update(
        slot,
        (CmdSlot {
            span: SlotSpan::Idle,
            readback_span_armed: false,
            pass_spans: 0,
            ..before.encoder.slots@[slot]
        }),
    )
    &&& reclaimed(before.encoder, after.encoder, sealed.cleanup.encoder)
}

/// What dropping every cached image does.
pub open spec fn cache_discarded(
    before: ResourcePools,
    after: ResourcePools,
    destroy: Seq<DeferredHandle>,
) -> bool {
    &&& after.encoder == before.encoder
    &&& after.shared.sampled_cache@.len() == 0
    &&& before.shared.sampled_cache.exact() ==> after.shared.sampled_cache.exact()
    &&& disposed_sampled(
        (SharedPools { sampled_cache: after.shared.sampled_cache, ..before.shared }),
        after.shared,
        emptied(before.shared.sampled_cache@),
        destroy,
    )
}

impl ResourcePools {
    /// Take a slot apart whose fence has signalled and was reset. `timed` and
    /// `readback_timed` say what the device times. A slot that owes nothing
    /// gives nothing.
    pub fn retire_signaled(&mut self, index: usize, timed: bool, readback_timed: bool) -> (retired:
        Option<RetiredSlot>)
        requires
            old(self).wf(),
            index < old(self).encoder.slots@.len(),
        ensures
            final(self).wf(),
            ({
                let before = old(self).encoder.slots@[index as int];
                match before.pending {
                    None => retired is None && *final(self) == *old(self),
                    Some(_) => retired matches Some(retired) && slot_retired(
                        *old(self),
                        *final(self),
                        index as int,
                        timed,
                        readback_timed,
                        retired,
                    ),
                }
            }),
    {
        if self.encoder.slots[index].pending.is_none() {
            return None;
        }
        let ghost before = self.encoder;
        proof {
            assert(slot_wf(before.slots@[index as int]));
            lemma_pending_update(
                before.slots@,
                index as int,
                before.slots@[index as int],
            );
        }
        let span = self.encoder.gpu_span_read(timed, index);
        let readback = self.encoder.readback_span_read(readback_timed, index);
        assert(slot_wf(self.encoder.slots@[index as int]));
        let entry = match self.encoder.take_completed_entry(index) {
            Some(entry) => entry,
            None => return None,
        };
        let (cleanup, shared) = entry.split();
        let free_sets = self.encoder.reclaim_retired_entry(cleanup);
        proof {
            let slot = self.encoder.slots@[index as int];
            assert(self.encoder.slots@ =~= before.slots@.update(index as int, slot));
            lemma_slot_let_go(before, self.encoder, index as int, self.shared.retirement@);
        }
        let mut released = self.apply_shared_retirement(shared);
        released.free_sets = free_sets;
        Some(RetiredSlot { span, readback, released })
    }

    /// Take apart a command buffer that no queue accepted. Everything goes back
    /// at once to where it came from, and its point is over.
    pub fn abort_sealed_entry(&mut self, slot: usize, sealed: SealedEntry) -> (released: Released)
        requires
            old(self).wf(),
            slot < old(self).encoder.slots@.len(),
            old(self).owns(sealed.recording@),
        ensures
            final(self).wf(),
            taken_apart(*old(self), *final(self), slot as int, sealed, released),
    {
        let SealedEntry { recording, cleanup, admissions, .. } = sealed;
        let ghost before = self.shared;
        let ghost point = recording@;
        let ghost encoder_before = self.encoder;
        recording.cancel(&mut self.shared.retirement);
        proof {
            lemma_points_kept(self.encoder, before.retirement@, self.shared.retirement@, point);
        }
        let PendingGpuCleanup { encoder, visibility, shared } = cleanup;
        let free_sets = self.encoder.reclaim_retired_entry(encoder);
        let mut shared = shared;
        let ghost given = shared.sampled@;
        let mut k: usize = 0;
        while k < admissions.len()
            invariant
                k <= admissions@.len(),
                shared == (SharedCleanup { sampled: shared.sampled, ..cleanup.shared }),
                shared.sampled@ == given + admission_slots(admissions@).take(k as int),
            decreases admissions@.len() - k,
        {
            shared.sampled.push(admissions[k].0);
            k += 1;
            assert(shared.sampled@ =~= given + admission_slots(admissions@).take(k as int));
        }
        assert(admission_slots(admissions@).take(k as int) =~= admission_slots(admissions@));
        let ghost sampled = shared.sampled@;
        let (unpin_residents, unpin_compute_residents) = self.shared.drain_shared_cleanup(shared);
        let ghost drained = self.shared;
        self.encoder.slots[slot].span = SlotSpan::Idle;
        self.encoder.slots[slot].readback_span_armed = false;
        self.encoder.slots[slot].pass_spans = 0;
        proof {
            lemma_ring_kept(encoder_before, self.encoder, slot as int);
            lemma_points_by_slot(
                encoder_before,
                self.encoder,
                slot as int,
                self.shared.retirement@,
            );
        }
        let destroy = self.shared.release_ready_graveyard();
        proof {
            let handles = ready(before.graveyard@, self.shared.retirement@.prefix());
            lemma_took_twice(
                before.sampled_free,
                drained.sampled_free,
                self.shared.sampled_free,
                keyed_sampled(sampled),
                sampled_in(handles),
            );
        }
        Released {
            tokens: visibility.guest_write_tokens,
            unpin_residents,
            unpin_compute_residents,
            free_sets,
            destroy,
        }
    }

    /// Whether the command buffer under way owns what a declined cache entry
    /// goes back to: it is submitted, or it is a batch.
    pub fn current_entry_owns_cleanup(&self) -> (owns: bool)
        ensures
            owns <==> (self.encoder.has_slot() && self.encoder.cur_slot().pending is Some)
                || self.encoder.open_batch is Some,
    {
        (self.encoder.cur < self.encoder.slots.len()
            && self.encoder.slots[self.encoder.cur].pending.is_some())
            || self.encoder.open_batch.is_some()
    }

    /// Offer the images that a recorded command buffer fills to the cache, and say
    /// how each fared. The ones that it does not keep are the next recording's to
    /// recycle.
    pub fn offer_recorded_sampled(
        &mut self,
        admissions: Vec<(SampledSlot, SampledRetain)>,
        live: &LiveOwners,
    ) -> (outcomes: Vec<Admission>)
        requires
            admissions@.len() == 0 || (old(self).encoder.has_slot() && old(
                self,
            ).encoder.cur_slot().pending is Some) || old(self).encoder.open_batch is Some,
        ensures
            final(self).encoder == (EncoderPools {
                sampled_live: final(self).encoder.sampled_live,
                ..old(self).encoder
            }),
            final(self).shared == (SharedPools {
                sampled_cache: final(self).shared.sampled_cache,
                ..old(self).shared
            }),
            ({
                let (cached, declined) = offered_all(
                    old(self).shared.sampled_cache@,
                    admissions@,
                    *live,
                    old(self).shared.idle_clock_ms,
                );
                &&& final(self).shared.sampled_cache@ == cached
                &&& still_exact(old(self).shared.sampled_cache, final(self).shared.sampled_cache)
                &&& final(self).encoder.sampled_live@ == old(self).encoder.sampled_live@ + declined
            }),
            outcomes@ == admitted_all(
                old(self).shared.sampled_cache@,
                admissions@,
                *live,
                old(self).shared.idle_clock_ms,
            ),
            old(self).wf() ==> final(self).wf(),
    {
        let ghost all = admissions@;
        let mut outcomes: Vec<Admission> = Vec::new();
        let mut admissions = admissions;
        let ghost mut done: int = 0;
        proof {
            assert(all.take(0) =~= Seq::empty());
            assert(admissions@ =~= all.skip(0));
            assert(self.encoder.sampled_live@ =~= self.encoder.sampled_live@ + offered_all(
                self.shared.sampled_cache@,
                all.take(0),
                *live,
                self.shared.idle_clock_ms,
            ).1);
        }
        while admissions.len() > 0
            invariant
                0 <= done <= all.len(),
                admissions@ == all.skip(done),
                self.encoder == (EncoderPools {
                    sampled_live: self.encoder.sampled_live,
                    ..old(self).encoder
                }),
                self.shared == (SharedPools {
                    sampled_cache: self.shared.sampled_cache,
                    ..old(self).shared
                }),
                ({
                    let (cached, declined) = offered_all(
                        old(self).shared.sampled_cache@,
                        all.take(done),
                        *live,
                        old(self).shared.idle_clock_ms,
                    );
                    &&& self.shared.sampled_cache@ == cached
                    &&& still_exact(old(self).shared.sampled_cache, self.shared.sampled_cache)
                    &&& self.encoder.sampled_live@ == old(self).encoder.sampled_live@ + declined
                }),
                outcomes@ == admitted_all(
                    old(self).shared.sampled_cache@,
                    all.take(done),
                    *live,
                    old(self).shared.idle_clock_ms,
                ),
            decreases admissions@.len(),
        {
            let (slot, retain) = admissions.remove(0);
            proof {
                assert(all[done] == (slot, retain));
                assert(all.take(done + 1).drop_last() =~= all.take(done));
                assert(admissions@ =~= all.skip(done + 1));
            }
            let ghost before = self.encoder.sampled_live@;
            let now: u64 = self.shared.idle_clock_ms;
            let admission = self.shared.sampled_cache.offer(slot, retain, live, now);
            if admission != Admission::Kept {
                self.encoder.sampled_live.push(slot);
                assert(self.encoder.sampled_live@ =~= before.push(slot));
            }
            outcomes.push(admission);
            proof {
                let (cached, declined) = offered_all(
                    old(self).shared.sampled_cache@,
                    all.take(done + 1),
                    *live,
                    old(self).shared.idle_clock_ms,
                );
                assert(self.encoder.sampled_live@ =~= old(self).encoder.sampled_live@ + declined);
                done = done + 1;
            }
        }
        assert(all.take(done) =~= all);
        outcomes
    }

    /// Park a submitted command buffer on its slot, and then offer the images it
    /// fills to the cache. Says how each fared.
    pub fn finish_entry_async(
        &mut self,
        sealed: SealedEntry,
        submit_return: Option<PendingQueueSubmit>,
        live: &LiveOwners,
    ) -> (outcomes: Vec<Admission>)
        requires
            old(self).wf(),
            old(self).encoder.has_slot(),
            recordable(old(self).encoder.cur_slot()),
            old(self).encoder.recording is None,
            old(self).owns(sealed.recording@),
        ensures
            final(self).wf(),
            final(self).encoder == (EncoderPools {
                slots: final(self).encoder.slots,
                in_flight: (old(self).encoder.in_flight + 1) as usize,
                sampled_live: final(self).encoder.sampled_live,
                ..old(self).encoder
            }),
            final(self).encoder.slots@.len() == old(self).encoder.slots@.len(),
            forall|i: int|
                0 <= i < old(self).encoder.slots@.len() && i != old(self).encoder.cur ==> final(self).encoder.slots@[i] == old(self).encoder.slots@[i],
            ({
                let slot = final(self).encoder.cur_slot();
                &&& slot.retirement matches Some(point) && point@ == sealed.recording@
                &&& slot == (CmdSlot {
                    retirement: slot.retirement,
                    pending: Some(sealed.cleanup),
                    submission: match submit_return {
                        Some(receipt) => SlotSubmission::QueueOwned(receipt),
                        None => SlotSubmission::HostOwned,
                    },
                    ..old(self).encoder.cur_slot()
                })
            }),
            final(self).shared == (SharedPools {
                sampled_cache: final(self).shared.sampled_cache,
                ..old(self).shared
            }),
            ({
                let (cached, declined) = offered_all(
                    old(self).shared.sampled_cache@,
                    sealed.admissions@,
                    *live,
                    old(self).shared.idle_clock_ms,
                );
                &&& final(self).shared.sampled_cache@ == cached
                &&& still_exact(old(self).shared.sampled_cache, final(self).shared.sampled_cache)
                &&& final(self).encoder.sampled_live@ == old(self).encoder.sampled_live@ + declined
            }),
            outcomes@ == admitted_all(
                old(self).shared.sampled_cache@,
                sealed.admissions@,
                *live,
                old(self).shared.idle_clock_ms,
            ),
    {
        let ghost before = self.encoder;
        let ghost point = sealed.recording@;
        let ring: usize = self.encoder.slots.len();
        assert(before.in_flight < ring) by {
            lemma_not_all_pending(before.slots@, before.cur as int);
        }
        let admissions = self.encoder.park_submitted_entry(sealed, submit_return);
        proof {
            lemma_slot_taken_up(
                before,
                self.encoder,
                before.cur as int,
                point,
                self.shared.retirement@,
            );
        }
        self.offer_recorded_sampled(admissions, live)
    }

    /// Drop every cached image: some of them were to be filled by a command
    /// buffer that never ran.
    pub fn discard_sampled_cache(&mut self) -> (destroy: Vec<DeferredHandle>)
        requires
            old(self).wf(),
        ensures
            final(self).wf(),
            cache_discarded(*old(self), *final(self), destroy@),
    {
        let slots = self.shared.sampled_cache.take_whole_sampled_cache();
        self.shared.dispose_sampled(slots)
    }
}

/// One slot of an encoder that owes nothing is not counted among the submitted
/// ones.
proof fn lemma_not_all_pending(slots: Seq<CmdSlot>, at: int)
    requires
        0 <= at < slots.len(),
        slots[at].pending is None,
    ensures
        crate::pools::encoder::pending_count(slots) < slots.len(),
    decreases slots.len(),
{
    lemma_pending_bound(slots.drop_last());
    if at < slots.len() - 1 {
        lemma_not_all_pending(slots.drop_last(), at);
    }
}

/// A change of one slot that leaves its point keeps the points well formed.
pub(crate) proof fn lemma_points_by_slot(before: EncoderPools, after: EncoderPools, at: int, order: Order)
    requires
        points_wf(before, order),
        0 <= at < before.slots@.len(),
        after.slots@.len() == before.slots@.len(),
        forall|i: int|
            0 <= i < before.slots@.len() && i != at ==> after.slots@[i] == before.slots@[i],
        held_point(after.slots@[at]) == held_point(before.slots@[at]),
        after.recording == before.recording,
    ensures
        points_wf(after, order),
{
    assert forall|i: int| 0 <= i < after.slots@.len() implies held_point(
        #[trigger] after.slots@[i],
    ) == held_point(before.slots@[i]) by {}
    assert forall|i: int, j: int| 0 <= i < j < after.slots@.len() implies (held_point(
        #[trigger] after.slots@[i],
    ) is Some ==> held_point(after.slots@[i]) != held_point(#[trigger] after.slots@[j])) by {
        assert(held_point(before.slots@[i]) == held_point(after.slots@[i]));
        assert(held_point(before.slots@[j]) == held_point(after.slots@[j]));
    }
}

/// A slot that lets go of its point leaves the others, and no one holds the
/// point.
pub(crate) proof fn lemma_slot_let_go(before: EncoderPools, after: EncoderPools, at: int, order: Order)
    requires
        points_wf(before, order),
        0 <= at < before.slots@.len(),
        held_point(before.slots@[at]) is Some,
        after.slots@.len() == before.slots@.len(),
        forall|i: int|
            0 <= i < before.slots@.len() && i != at ==> after.slots@[i] == before.slots@[i],
        held_point(after.slots@[at]) is None,
        after.recording == before.recording,
    ensures
        points_wf(after, order),
        unheld(after, held_point(before.slots@[at])->0),
        order.is_live(held_point(before.slots@[at])->0 as int),
{
    let point = held_point(before.slots@[at])->0;
    assert forall|i: int| 0 <= i < after.slots@.len() implies held_point(
        #[trigger] after.slots@[i],
    ) != Some(point) by {
        if i < at {
            assert(held_point(before.slots@[i]) is Some ==> held_point(before.slots@[i])
                != held_point(before.slots@[at]));
        } else if i > at {
            assert(held_point(before.slots@[at]) != held_point(before.slots@[i]));
        }
    }
    assert forall|i: int, j: int| 0 <= i < j < after.slots@.len() implies (held_point(
        #[trigger] after.slots@[i],
    ) is Some ==> held_point(after.slots@[i]) != held_point(#[trigger] after.slots@[j])) by {
        if i != at && j != at {
            assert(after.slots@[i] == before.slots@[i]);
            assert(after.slots@[j] == before.slots@[j]);
        }
    }
    assert forall|i: int| 0 <= i < after.slots@.len() implies (held_point(
        #[trigger] after.slots@[i],
    ) matches Some(held) ==> order.is_live(held as int)) by {
        if i != at {
            assert(after.slots@[i] == before.slots@[i]);
        }
    }
}

/// A slot takes up a live point that no one held.
pub(crate) proof fn lemma_slot_taken_up(
    before: EncoderPools,
    after: EncoderPools,
    at: int,
    point: u64,
    order: Order,
)
    requires
        points_wf(before, order),
        0 <= at < before.slots@.len(),
        unheld(before, point),
        order.is_live(point as int),
        after.slots@.len() == before.slots@.len(),
        forall|i: int|
            0 <= i < before.slots@.len() && i != at ==> after.slots@[i] == before.slots@[i],
        held_point(after.slots@[at]) == Some(point),
        after.recording == before.recording,
    ensures
        points_wf(after, order),
{
    assert forall|i: int, j: int| 0 <= i < j < after.slots@.len() implies (held_point(
        #[trigger] after.slots@[i],
    ) is Some ==> held_point(after.slots@[i]) != held_point(#[trigger] after.slots@[j])) by {
        if i == at {
            assert(held_point(before.slots@[j]) != Some(point));
        } else if j == at {
            assert(held_point(before.slots@[i]) != Some(point));
        } else {
            assert(after.slots@[i] == before.slots@[i]);
            assert(after.slots@[j] == before.slots@[j]);
        }
    }
    assert forall|i: int| 0 <= i < after.slots@.len() implies (held_point(
        #[trigger] after.slots@[i],
    ) matches Some(held) ==> order.is_live(held as int)) by {
        if i != at {
            assert(after.slots@[i] == before.slots@[i]);
        }
    }
    assert forall|i: int| 0 <= i < after.slots@.len() implies (after.recording matches Some(lease)
        ==> held_point(#[trigger] after.slots@[i]) != Some(lease@)) by {
        if i != at {
            assert(after.slots@[i] == before.slots@[i]);
        }
    }
}

/// Everything that a recording holds when it is sealed comes back when its slot
/// is taken back, each to where it came from: the descriptor sets and the pins
/// to the outside, the buffers to the free lists of the encoder, and the images
/// that the cache was not offered to the free lists that are shared.
pub proof fn law_what_a_recording_holds_comes_back(
    recorded: EncoderPools,
    dsets: Vec<DescriptorRef>,
    retains: Seq<SampledRetain>,
    sealed: SealedEntry,
    before: ResourcePools,
    after: ResourcePools,
    index: int,
    timed: bool,
    readback_timed: bool,
    retired: RetiredSlot,
)
    requires
        seals(recorded, dsets, retains, sealed),
        before.encoder.slots@[index].pending == Some(sealed.cleanup),
        before.encoder.slots@[index].retirement matches Some(point) && point@
            == sealed.recording@,
        slot_retired(before, after, index, timed, readback_timed, retired),
    ensures
        recorded.recording == Some(sealed.recording),
        after.shared.retirement@.is_terminal(recorded.recording->0@ as int),
        retired.released.free_sets == dsets,
        retired.released.unpin_residents == recorded.resident_pins_live,
        retired.released.unpin_compute_residents == recorded.compute_write_pins_live,
        lists_tokens(recorded.guest_write_tokens_live@, retired.released.tokens@),
        after.encoder.scatter_dset_free@ == before.encoder.scatter_dset_free@
            + recorded.scatter_dsets@,
        forall|size: u64| #[trigger]
            after.encoder.staging_free.kept(size) == before.encoder.staging_free.kept(size)
                + in_bucket(recorded.staging_live@, size),
        forall|size: u64| #[trigger]
            after.encoder.gather_free.kept(size) == before.encoder.gather_free.kept(size)
                + in_bucket(recorded.gather_live@, size),
        forall|size: u64| #[trigger]
            after.encoder.readback_free.kept(size) == before.encoder.readback_free.kept(size)
                + in_bucket(readback_of(recorded.readback_live, recorded.readback_multi_live@), size),
        took_back(
            before.shared.sampled_free,
            after.shared.sampled_free,
            keyed_sampled(lifted(recorded.sampled_live@, retains).0) + sampled_in(
                ready(before.shared.graveyard@, after.shared.retirement@.prefix()),
            ),
        ),
        took_back(
            before.shared.attachment_snapshot_free,
            after.shared.attachment_snapshot_free,
            keyed_sampled(recorded.attachment_snapshot_live@),
        ),
        took_back(
            before.shared.storage_image_free,
            after.shared.storage_image_free,
            keyed_storage(recorded.storage_image_live@),
        ),
{
}

/// A slot holds the point of what it submitted or is handing over, and else none.
pub proof fn law_a_slot_holds_the_point_of_its_work(slot: CmdSlot)
    ensures
        slot.retirement matches Some(point) ==> held_point(slot) == Some(point@),
        slot.retirement is None ==> (slot.submission matches SlotSubmission::SealedWaitingCommit(
            sealed,
        ) ==> held_point(slot) == Some(sealed.recording@)),
        slot.retirement is None && !(slot.submission is SealedWaitingCommit) ==> held_point(
            slot,
        ) is None,
{
}

/// Every point that an encoder holds is live, and each is held in one place.
pub proof fn law_points_are_held_in_one_place(pools: ResourcePools, i: int, j: int, point: u64)
    requires
        pools.wf(),
        0 <= i < pools.encoder.slots@.len(),
        0 <= j < pools.encoder.slots@.len(),
        held_point(pools.encoder.slots@[i]) == Some(point),
    ensures
        pools.shared.retirement@.is_live(point as int),
        held_point(pools.encoder.slots@[j]) == Some(point) ==> i == j,
        pools.encoder.recording matches Some(lease) ==> lease@ != point,
        !pools.owns(point),
{
}

/// When a command buffer is over its point is, and no other becomes so; its images
/// are kept for reuse behind the others, and what nothing can name any more leaves the
/// graveyard.
pub proof fn law_an_ended_command_buffer_gives_its_images_back(
    before: SharedPools,
    after: SharedPools,
    sampled: Seq<SampledSlot>,
    snapshots: Seq<SampledSlot>,
    storage: Seq<StorageImageSlot>,
    point: u64,
    destroy: Seq<DeferredHandle>,
    k: int,
)
    requires
        settled(before, after, sampled, snapshots, storage, point, destroy),
    ensures
        after.retirement@.is_terminal(point as int),
        after.retirement@.issued() == before.retirement@.issued(),
        forall|p: int|
            p != point ==> (#[trigger] after.retirement@.is_terminal(p)
                <==> before.retirement@.is_terminal(p)),
        0 <= k < sampled.len() ==> after.sampled_free.entries()[before.sampled_free.entries().len()
            + k] == (sampled[k].shape, sampled[k]),
        0 <= k < snapshots.len()
            ==> after.attachment_snapshot_free.entries()[before.attachment_snapshot_free.entries().len()
            + k] == (snapshots[k].shape, snapshots[k]),
        0 <= k < storage.len()
            ==> after.storage_image_free.entries()[before.storage_image_free.entries().len() + k]
            == (storage[k].key, storage[k]),
        after.attachment_snapshot_free.entries().len()
            == before.attachment_snapshot_free.entries().len() + snapshots.len(),
        after.storage_image_free.entries().len() == before.storage_image_free.entries().len()
            + storage.len(),
        after.graveyard@ == waiting(before.graveyard@, after.retirement@.prefix()),
        after.targets == before.targets,
        after.registry == before.registry,
        after.sampled_cache == before.sampled_cache,
        after.multisample_target == before.multisample_target,
        after.scatter == before.scatter,
{
}

/// Images are offered to the cache one after the other: each to what the ones before
/// it left there, and each that is not kept is given back in its order.
pub proof fn law_offers_follow_each_other(
    entries: Seq<CachedImage>,
    admissions: Seq<(SampledSlot, SampledRetain)>,
    next: (SampledSlot, SampledRetain),
    live: LiveOwners,
    now_ms: u64,
)
    ensures
        ({
            let (cached, declined) = offered_all(entries, admissions, live, now_ms);
            let (fared, after) = offered(cached, next.0, next.1, live, now_ms);
            &&& offered_all(entries, admissions.push(next), live, now_ms).0 == after
            &&& offered_all(entries, admissions.push(next), live, now_ms).1 == if fared is Kept {
                declined
            } else {
                declined.push(next.0)
            }
            &&& admitted_all(entries, admissions.push(next), live, now_ms) == admitted_all(
                entries,
                admissions,
                live,
                now_ms,
            ).push(fared)
        }),
        offered_all(entries, Seq::empty(), live, now_ms) == (entries, Seq::<SampledSlot>::empty()),
        admitted_all(entries, Seq::empty(), live, now_ms).len() == 0,
{
    assert(admissions.push(next).drop_last() =~= admissions);
    assert(admissions.push(next).last() == next);
}

/// An outcome is counted as often as it occurs.
pub proof fn law_outcomes_are_counted(
    outcomes: Seq<Admission>,
    next: Admission,
    outcome: Admission,
)
    ensures
        times(Seq::<Admission>::empty(), outcome) == 0,
        times(outcomes.push(next), outcome) == times(outcomes, outcome) + if next == outcome {
            1int
        } else {
            0
        },
{
    assert(outcomes.push(next).drop_last() =~= outcomes);
}

/// The images of what was to be offered come in its order.
pub proof fn law_admitted_images_come_in_order(
    admissions: Seq<(SampledSlot, SampledRetain)>,
    k: int,
)
    requires
        0 <= k < admissions.len(),
    ensures
        admission_slots(admissions).len() == admissions.len(),
        admission_slots(admissions)[k] == admissions[k].0,
{
}

/// A slot whose fence signalled owes nothing and keeps its command buffer and fence;
/// what was timed of it is read once and timed anew.
pub proof fn law_a_retired_slot_owes_nothing(slot: CmdSlot, timed: bool, readback_timed: bool)
    ensures
        ({
            let after = retired_slot(slot, timed, readback_timed);
            &&& after.pending is None
            &&& after.retirement is None
            &&& after.cmd_buf == slot.cmd_buf
            &&& after.fence == slot.fence
            &&& after.submission == slot.submission
            &&& timed ==> after.span is Idle
            &&& !timed ==> after.span == slot.span && after.pass_spans == slot.pass_spans
            &&& timed && slot.span is Sealed ==> after.pass_spans == 0
            &&& readback_timed ==> !after.readback_span_armed
            &&& !readback_timed ==> after.readback_span_armed == slot.readback_span_armed
        }),
{
}

/// Taking a slot back frees it and no other: one fewer is submitted, its point is over,
/// everything it held is released, and a time is read only where it was sealed and is
/// timed.
pub proof fn law_taking_a_slot_back_releases_all_it_held(
    before: ResourcePools,
    after: ResourcePools,
    index: int,
    timed: bool,
    readback_timed: bool,
    retired: RetiredSlot,
    other: int,
)
    requires
        before.wf(),
        0 <= index < before.encoder.slots@.len(),
        before.encoder.slots@[index].pending is Some,
        slot_retired(before, after, index, timed, readback_timed, retired),
    ensures
        after.encoder.slots@.len() == before.encoder.slots@.len(),
        after.encoder.slots@[index].pending is None,
        after.encoder.slots@[index].retirement is None,
        after.encoder.slots@[index].fence == before.encoder.slots@[index].fence,
        0 <= other < before.encoder.slots@.len() && other != index ==> after.encoder.slots@[other]
            == before.encoder.slots@[other],
        after.encoder.in_flight + 1 == before.encoder.in_flight,
        after.encoder.cur == before.encoder.cur,
        after.encoder.recording == before.encoder.recording,
        after.encoder.open_batch == before.encoder.open_batch,
        after.shared.retirement@.is_terminal(
            before.encoder.slots@[index].retirement->0@ as int,
        ),
        ({
            let held = before.encoder.slots@[index].pending->0;
            &&& retired.released.tokens@ == held.visibility.guest_write_tokens@
            &&& retired.released.unpin_residents@ == held.shared.unpin_residents@
            &&& retired.released.unpin_compute_residents@ == held.shared.unpin_compute_residents@
            &&& retired.released.free_sets@ == held.encoder.dsets@
            &&& after.encoder.scatter_dset_free@ == before.encoder.scatter_dset_free@
                + held.encoder.scatter_dsets@
            &&& forall|size: u64| #[trigger]
                after.encoder.staging_free.kept(size) == before.encoder.staging_free.kept(size)
                    + in_bucket(held.encoder.staging@, size)
            &&& forall|size: u64| #[trigger]
                after.encoder.gather_free.kept(size) == before.encoder.gather_free.kept(size)
                    + in_bucket(held.encoder.gather@, size)
            &&& forall|size: u64| #[trigger]
                after.encoder.readback_free.kept(size) == before.encoder.readback_free.kept(size)
                    + in_bucket(held.encoder.readback@, size)
        }),
        retired.span is Some <==> timed && before.encoder.slots@[index].span is Sealed,
        retired.span matches Some(read) ==> {
            &&& before.encoder.slots@[index].span == (SlotSpan::Sealed {
                kind: read.kind,
                draws: read.draws,
            })
            &&& read.passes == before.encoder.slots@[index].pass_spans
        },
        retired.readback <==> readback_timed && before.encoder.slots@[index].readback_span_armed,
{
    crate::pools::encoder::lemma_pending_update(
        before.encoder.slots@,
        index,
        before.encoder.slots@[index],
    );
}

/// A package that no queue accepted is taken apart: its point is over, everything in it
/// goes back, with the images that the cache was to be offered, and its slot is timed
/// anew. Nothing becomes or stays submitted by it.
pub proof fn law_a_refused_package_goes_back_whole(
    before: ResourcePools,
    after: ResourcePools,
    slot: int,
    sealed: SealedEntry,
    released: Released,
    other: int,
)
    requires
        0 <= slot < before.encoder.slots@.len(),
        taken_apart(before, after, slot, sealed, released),
    ensures
        after.shared.retirement@.is_terminal(sealed.recording@ as int),
        released.tokens@ == sealed.cleanup.visibility.guest_write_tokens@,
        released.unpin_residents@ == sealed.cleanup.shared.unpin_residents@,
        released.unpin_compute_residents@ == sealed.cleanup.shared.unpin_compute_residents@,
        released.free_sets@ == sealed.cleanup.encoder.dsets@,
        after.encoder.scatter_dset_free@ == before.encoder.scatter_dset_free@
            + sealed.cleanup.encoder.scatter_dsets@,
        forall|size: u64| #[trigger]
            after.encoder.staging_free.kept(size) == before.encoder.staging_free.kept(size)
                + in_bucket(sealed.cleanup.encoder.staging@, size),
        forall|size: u64| #[trigger]
            after.encoder.gather_free.kept(size) == before.encoder.gather_free.kept(size)
                + in_bucket(sealed.cleanup.encoder.gather@, size),
        forall|size: u64| #[trigger]
            after.encoder.readback_free.kept(size) == before.encoder.readback_free.kept(size)
                + in_bucket(sealed.cleanup.encoder.readback@, size),
        after.shared.sampled_free.entries().len() >= before.shared.sampled_free.entries().len()
            + sealed.cleanup.shared.sampled@.len() + sealed.admissions@.len(),
        after.shared.attachment_snapshot_free.entries().len()
            == before.shared.attachment_snapshot_free.entries().len()
            + sealed.cleanup.shared.attachment_snapshots@.len(),
        after.shared.storage_image_free.entries().len()
            == before.shared.storage_image_free.entries().len()
            + sealed.cleanup.shared.storage_images@.len(),
        after.encoder.slots@.len() == before.encoder.slots@.len(),
        after.encoder.slots@[slot].span is Idle,
        !after.encoder.slots@[slot].readback_span_armed,
        after.encoder.slots@[slot].pass_spans == 0,
        after.encoder.slots@[slot].pending == before.encoder.slots@[slot].pending,
        after.encoder.slots@[slot].submission == before.encoder.slots@[slot].submission,
        0 <= other < before.encoder.slots@.len() && other != slot ==> after.encoder.slots@[other]
            == before.encoder.slots@[other],
        after.encoder.in_flight == before.encoder.in_flight,
        after.encoder.cur == before.encoder.cur,
{
}

/// Dropping the cache leaves it empty, and its images are used again or wait for the
/// recordings that may name them.
pub proof fn law_a_dropped_cache_gives_its_images_up(
    before: ResourcePools,
    after: ResourcePools,
    destroy: Seq<DeferredHandle>,
)
    requires
        cache_discarded(before, after, destroy),
    ensures
        after.encoder == before.encoder,
        after.shared.sampled_cache@.len() == 0,
        before.shared.sampled_cache.bytes == crate::pools::sampled_cache::total_len(
            before.shared.sampled_cache@,
        ) ==> after.shared.sampled_cache.bytes == 0,
        after.shared.retirement == before.shared.retirement,
        after.shared.targets == before.shared.targets,
        before.shared.sampled_cache@.len() > 0 && before.shared.retirement@.prefix()
            < before.shared.retirement@.issued() ==> after.shared.graveyard@.len() == waiting(
            before.shared.graveyard@,
            before.shared.retirement@.prefix(),
        ).len() + before.shared.sampled_cache@.len(),
{
    crate::pools::sampled_cache::law_emptying_gives_up_every_image(before.shared.sampled_cache@);
}

} // verus!
