//! The life of one command buffer: sealed when its recording ends, staged for
//! the queue, parked on its ring slot until its fence signals, and taken apart
//! between its encoder and the shared registries.

use crate::pools::buckets::in_bucket;
use crate::pools::encoder::{lemma_pending_update, recordable, slot_wf, EncoderPools};
use crate::pools::fence::{wait_counted, wait_error, wait_failure, EngineCounters};
use crate::pools::free_pool::values_of;
use crate::pools::keyed::{ids_distinct, map_of, Keyed, KeyedMap};
use crate::pools::memo::{CbBufferMemo, GuestPages, MemoCounts, SampledCopy, SampledGuestId};
use crate::pools::slots::{
    BufferSlot, CmdSlot, DescriptorRef, EncoderCleanup, GuestWriteToken, PendingGpuCleanup,
    RetiredEntry, SampledRetain, SampledSlot, SealedEntry, SharedCleanup, SlotSubmission,
    VisibilityCleanup,
};
use crate::queue_owner::{receipt_outcome, PendingQueueSubmit, ReceiptState};
use crate::retirement::RecordingLease;
use crate::types::{DeviceLostOp, DrawError};
use crate::vk::{device_lost, Image, VkResult};
use vstd::prelude::*;

verus! {

/// A queue's answer to a staged command buffer, with the command buffer.
#[derive(Debug)]
pub enum SealedCommit<T, E> {
    /// The queue took it.
    Accepted {
        /// The command buffer.
        sealed: SealedEntry,
        /// What the queue said.
        committed: T,
    },
    /// The queue refused it.
    Rejected {
        /// The command buffer.
        sealed: SealedEntry,
        /// Why.
        error: E,
    },
}

/// Take a list, and leave an empty one.
pub(crate) fn taken<T>(list: &mut Vec<T>) -> (all: Vec<T>)
    ensures
        all == *old(list),
        final(list)@ == Seq::<T>::empty(),
{
    let mut all: Vec<T> = Vec::new();
    std::mem::swap(&mut all, list);
    all
}

/// The first slot that holds `image`.
pub open spec fn first_with(slots: Seq<SampledSlot>, image: Image) -> Option<int> {
    if exists|i: int| is_first_with(slots, image, i) {
        Some(choose|i: int| is_first_with(slots, image, i))
    } else {
        None
    }
}

/// The slot at `i` holds `image`, and none before it does.
pub open spec fn is_first_with(slots: Seq<SampledSlot>, image: Image, i: int) -> bool {
    &&& 0 <= i < slots.len()
    &&& slots[i].image == image
    &&& forall|j: int| 0 <= j < i ==> (#[trigger] slots[j]).image != image
}

/// What stays of `slots` and what is lifted out of them when each of `retains`
/// in turn lifts the first slot that holds its image. One that finds none lifts
/// nothing.
pub open spec fn lifted(slots: Seq<SampledSlot>, retains: Seq<SampledRetain>) -> (
    Seq<SampledSlot>,
    Seq<(SampledSlot, SampledRetain)>,
)
    decreases retains.len(),
{
    if retains.len() == 0 {
        (slots, Seq::empty())
    } else {
        let (rest, out) = lifted(slots, retains.drop_last());
        let retain = retains.last();
        match first_with(rest, retain.image) {
            Some(i) => (rest.remove(i), out.push((rest[i], retain))),
            None => (rest, out),
        }
    }
}

/// Where the first slot that holds `image` is.
fn find_image(slots: &Vec<SampledSlot>, image: Image) -> (found: Option<usize>)
    ensures
        match found {
            Some(i) => first_with(slots@, image) == Some(i as int) && is_first_with(
                slots@,
                image,
                i as int,
            ),
            None => first_with(slots@, image) is None,
        },
{
    let mut i: usize = 0;
    while i < slots.len()
        invariant
            i <= slots@.len(),
            forall|j: int| 0 <= j < i ==> (#[trigger] slots@[j]).image != image,
        decreases slots@.len() - i,
    {
        if slots[i].image == image {
            proof {
                assert(is_first_with(slots@, image, i as int));
                let k = choose|k: int| is_first_with(slots@, image, k);
                assert(is_first_with(slots@, image, k));
                assert(k == i) by {
                    if k < i {
                        assert(slots@[k].image != image);
                    }
                    if i < k {
                        assert(slots@[i as int].image != image);
                    }
                }
            }
            return Some(i);
        }
        i += 1;
    }
    assert(first_with(slots@, image) is None) by {
        if exists|k: int| is_first_with(slots@, image, k) {
            let k = choose|k: int| is_first_with(slots@, image, k);
            assert(slots@[k].image != image);
        }
    }
    None
}

/// Lift the images named by `retains` out of `slots`, each with what names it.
/// A retained image becomes a cache entry and must not be recycled as well.
pub fn take_retained_slots(slots: &mut Vec<SampledSlot>, retains: Vec<SampledRetain>) -> (out: Vec<
    (SampledSlot, SampledRetain),
>)
    ensures
        (final(slots)@, out@) == lifted(old(slots)@, retains@),
{
    let ghost all = retains@;
    let mut retains = retains;
    let mut out: Vec<(SampledSlot, SampledRetain)> = Vec::new();
    let ghost mut done: int = 0;
    assert(all.take(0) =~= Seq::empty());
    assert(retains@ =~= all.skip(0));
    while retains.len() > 0
        invariant
            0 <= done <= all.len(),
            retains@ == all.skip(done),
            (slots@, out@) == lifted(old(slots)@, all.take(done)),
        decreases retains@.len(),
    {
        let retain = retains.remove(0);
        proof {
            assert(retain == all[done]);
            assert(all.take(done + 1).drop_last() =~= all.take(done));
            assert(retains@ =~= all.skip(done + 1));
        }
        let ghost rest = slots@;
        match find_image(slots, retain.image) {
            Some(i) => {
                let slot = slots.remove(i);
                assert(slot == rest[i as int]);
                out.push((slot, retain));
            },
            None => {},
        }
        proof {
            done = done + 1;
        }
    }
    assert(all.take(done) =~= all);
    out
}

/// The images that were lifted out, in order.
pub open spec fn lifted_slots(out: Seq<(SampledSlot, SampledRetain)>) -> Seq<SampledSlot> {
    out.map_values(|pair: (SampledSlot, SampledRetain)| pair.0)
}

/// Nothing is lost and nothing is counted twice: what stays and what is lifted
/// out are together what was there.
pub proof fn law_lifting_keeps_every_image(slots: Seq<SampledSlot>, retains: Seq<SampledRetain>)
    ensures
        lifted(slots, retains).0.to_multiset().add(
            lifted_slots(lifted(slots, retains).1).to_multiset(),
        ) == slots.to_multiset(),
    decreases retains.len(),
{
    broadcast use vstd::seq_lib::group_to_multiset_ensures;
    broadcast use vstd::multiset::group_multiset_axioms;

    if retains.len() == 0 {
        assert(lifted_slots(Seq::empty()) =~= Seq::empty());
        assert(lifted(slots, retains).0.to_multiset().add(
            lifted_slots(lifted(slots, retains).1).to_multiset(),
        ) =~= slots.to_multiset());
    } else {
        law_lifting_keeps_every_image(slots, retains.drop_last());
        let (rest, out) = lifted(slots, retains.drop_last());
        let retain = retains.last();
        if let Some(i) = first_with(rest, retain.image) {
            assert(is_first_with(rest, retain.image, i));
            let pair = (rest[i], retain);
            assert(lifted_slots(out.push(pair)) =~= lifted_slots(out).push(rest[i]));
            assert(rest.to_multiset().contains(rest[i])) by {
                rest.to_multiset_ensures();
                assert(rest.contains(rest[i]));
            }
            assert(rest.remove(i).to_multiset().add(
                lifted_slots(out.push(pair)).to_multiset(),
            ) =~= rest.to_multiset().add(lifted_slots(out).to_multiset()));
        }
    }
}

/// Where no image stands twice, none that was lifted out is left to be
/// recycled.
pub proof fn law_a_retained_image_is_not_recycled(
    slots: Seq<SampledSlot>,
    retains: Seq<SampledRetain>,
    k: int,
)
    requires
        forall|i: int, j: int|
            0 <= i < j < slots.len() ==> (#[trigger] slots[i]).image != (#[trigger] slots[j]).image,
        0 <= k < lifted(slots, retains).0.len(),
    ensures
        forall|n: int|
            0 <= n < retains.len() ==> (#[trigger] retains[n]).image != lifted(
                slots,
                retains,
            ).0[k].image,
{
    lemma_lifted_apart(slots, retains);
}

proof fn lemma_lifted_apart(slots: Seq<SampledSlot>, retains: Seq<SampledRetain>)
    requires
        forall|i: int, j: int|
            0 <= i < j < slots.len() ==> (#[trigger] slots[i]).image != (#[trigger] slots[j]).image,
    ensures
        forall|i: int, j: int|
            0 <= i < j < lifted(slots, retains).0.len() ==> (#[trigger] lifted(
                slots,
                retains,
            ).0[i]).image != (#[trigger] lifted(slots, retains).0[j]).image,
        forall|n: int, k: int|
            0 <= n < retains.len() && 0 <= k < lifted(slots, retains).0.len() ==> (
            #[trigger] retains[n]).image != (#[trigger] lifted(slots, retains).0[k]).image,
    decreases retains.len(),
{
    if retains.len() > 0 {
        let before = retains.drop_last();
        lemma_lifted_apart(slots, before);
        let rest = lifted(slots, before).0;
        let retain = retains.last();
        let after = lifted(slots, retains).0;
        match first_with(rest, retain.image) {
            Some(i) => {
                assert(is_first_with(rest, retain.image, i));
                assert forall|a: int, b: int| 0 <= a < b < after.len() implies (
                #[trigger] after[a]).image != (#[trigger] after[b]).image by {
                    let x = if a < i { a } else { a + 1 };
                    let y = if b < i { b } else { b + 1 };
                    assert(after[a] == rest[x]);
                    assert(after[b] == rest[y]);
                }
                assert forall|n: int, k: int|
                    0 <= n < retains.len() && 0 <= k < after.len() implies (
                #[trigger] retains[n]).image != (#[trigger] after[k]).image by {
                    let x = if k < i { k } else { k + 1 };
                    assert(after[k] == rest[x]);
                    if n < before.len() {
                        assert(retains[n] == before[n]);
                    } else if x < i {
                        assert(rest[x].image != rest[i].image);
                    } else {
                        assert(rest[i].image != rest[x].image);
                    }
                }
            },
            None => {
                assert forall|n: int, k: int|
                    0 <= n < retains.len() && 0 <= k < after.len() implies (
                #[trigger] retains[n]).image != (#[trigger] after[k]).image by {
                    if n < before.len() {
                        assert(retains[n] == before[n]);
                    } else if after[k].image == retain.image {
                        lemma_some_first(rest, retain.image, k);
                    }
                }
            },
        }
    }
}

proof fn lemma_some_first(slots: Seq<SampledSlot>, image: Image, k: int)
    requires
        0 <= k < slots.len(),
        slots[k].image == image,
    ensures
        first_with(slots, image) is Some,
    decreases k,
{
    if exists|j: int| 0 <= j < k && (#[trigger] slots[j]).image == image {
        let j = choose|j: int| 0 <= j < k && (#[trigger] slots[j]).image == image;
        lemma_some_first(slots, image, j);
    } else {
        assert(is_first_with(slots, image, k));
    }
}

/// The token `a` comes no later than `b`: by session, then by number.
pub open spec fn token_le(a: GuestWriteToken, b: GuestWriteToken) -> bool {
    a.session.0 < b.session.0 || (a.session.0 == b.session.0 && a.serial <= b.serial)
}

/// The tokens are in order.
pub open spec fn in_token_order(tokens: Seq<GuestWriteToken>) -> bool {
    forall|i: int, j: int|
        0 <= i < j < tokens.len() ==> token_le(#[trigger] tokens[i], #[trigger] tokens[j])
}

/// The tokens are those of `live`, each as often as it stands there.
pub open spec fn lists_tokens(
    live: Map<Set<u64>, GuestWriteToken>,
    tokens: Seq<GuestWriteToken>,
) -> bool {
    exists|entries: Seq<(GuestPages, GuestWriteToken)>| #[trigger]
        ids_distinct(entries) && map_of(entries) == live && tokens.to_multiset() == values_of(
            entries,
        ).to_multiset()
}

/// Put a token in its place among tokens that are in order.
fn insert_token(tokens: &mut Vec<GuestWriteToken>, token: GuestWriteToken)
    requires
        in_token_order(old(tokens)@),
    ensures
        in_token_order(final(tokens)@),
        final(tokens)@.to_multiset() == old(tokens)@.to_multiset().insert(token),
{
    let mut at: usize = 0;
    while at < tokens.len() && (tokens[at].session.0 < token.session.0 || (tokens[at].session.0
        == token.session.0 && tokens[at].serial <= token.serial))
        invariant
            at <= tokens@.len(),
            tokens@ == old(tokens)@,
            forall|i: int| 0 <= i < at ==> token_le(#[trigger] tokens@[i], token),
        decreases tokens@.len() - at,
    {
        at += 1;
    }
    proof {
        broadcast use vstd::seq_lib::group_to_multiset_ensures;

        let next = tokens@.insert(at as int, token);
        assert forall|i: int, j: int| 0 <= i < j < next.len() implies token_le(
            #[trigger] next[i],
            #[trigger] next[j],
        ) by {
            let x = if i < at { i } else { i - 1 };
            let y = if j < at { j } else { j - 1 };
            if i < at && j != at {
                assert(next[i] == tokens@[x] && next[j] == tokens@[y]);
            } else if i == at {
                assert(next[j] == tokens@[y]);
                if y > at {
                    assert(token_le(tokens@[at as int], tokens@[y]));
                }
            } else if i > at {
                assert(next[i] == tokens@[x] && next[j] == tokens@[y]);
            }
        }
    }
    tokens.insert(at, token);
}

/// The tokens of a map, in order. The map is empty afterwards.
pub(crate) fn drain_tokens(live: &mut KeyedMap<GuestPages, GuestWriteToken>) -> (tokens: Vec<GuestWriteToken>)
    requires
        old(live).wf(),
    ensures
        final(live).wf(),
        final(live)@ == Map::<Set<u64>, GuestWriteToken>::empty(),
        in_token_order(tokens@),
        lists_tokens(old(live)@, tokens@),
{
    let entries: Vec<(GuestPages, GuestWriteToken)> = live.take_entries();
    let mut tokens: Vec<GuestWriteToken> = Vec::new();
    let ghost values = values_of(entries@);
    let mut k: usize = 0;
    assert(values.take(0) =~= Seq::empty());
    while k < entries.len()
        invariant
            k <= entries@.len(),
            values == values_of(entries@),
            in_token_order(tokens@),
            tokens@.to_multiset() == values.take(k as int).to_multiset(),
        decreases entries@.len() - k,
    {
        insert_token(&mut tokens, entries[k].1);
        proof {
            broadcast use vstd::seq_lib::group_to_multiset_ensures;

            assert(values.take(k + 1) =~= values.take(k as int).push(values[k as int]));
        }
        k += 1;
    }
    assert(values.take(k as int) =~= values);
    assert(ids_distinct(entries@));
    tokens
}

/// The readback buffers of a recording: the first, then the others.
pub open spec fn readback_of(live: Option<BufferSlot>, others: Seq<BufferSlot>) -> Seq<BufferSlot> {
    match live {
        Some(slot) => seq![slot] + others,
        None => others,
    }
}

/// What a recording holds, taken over from `encoder` with the descriptor sets
/// `dsets` and without the images that `retains` lifts out.
pub open spec fn seals(
    encoder: EncoderPools,
    dsets: Vec<DescriptorRef>,
    retains: Seq<SampledRetain>,
    sealed: SealedEntry,
) -> bool {
    &&& encoder.recording == Some(sealed.recording)
    &&& sealed.cleanup.encoder.dsets == dsets
    &&& sealed.cleanup.encoder.scatter_dsets == encoder.scatter_dsets
    &&& sealed.cleanup.encoder.staging == encoder.staging_live
    &&& sealed.cleanup.encoder.gather == encoder.gather_live
    &&& sealed.cleanup.encoder.readback@ == readback_of(
        encoder.readback_live,
        encoder.readback_multi_live@,
    )
    &&& in_token_order(sealed.cleanup.visibility.guest_write_tokens@)
    &&& lists_tokens(
        encoder.guest_write_tokens_live@,
        sealed.cleanup.visibility.guest_write_tokens@,
    )
    &&& (sealed.cleanup.shared.sampled@, sealed.admissions@) == lifted(
        encoder.sampled_live@,
        retains,
    )
    &&& sealed.cleanup.shared.attachment_snapshots == encoder.attachment_snapshot_live
    &&& sealed.cleanup.shared.storage_images == encoder.storage_image_live
    &&& sealed.cleanup.shared.unpin_residents == encoder.resident_pins_live
    &&& sealed.cleanup.shared.unpin_compute_residents == encoder.compute_write_pins_live
    &&& encoder.cb_bound_buffers.counted_by(sealed.forgotten.binds)
    &&& sealed.forgotten.sampled == encoder.cb_sampled_guest@.dom().len()
}

/// The encoder holds nothing of a recording.
pub open spec fn holds_nothing_live(encoder: EncoderPools) -> bool {
    &&& encoder.recording is None
    &&& encoder.cb_bound_buffers.is_empty()
    &&& encoder.cb_gather_owed@.len() == 0
    &&& encoder.cb_sampled_guest@ == Map::<SampledGuestId, SampledCopy>::empty()
    &&& encoder.readback_live is None
    &&& encoder.readback_multi_live@.len() == 0
    &&& encoder.sampled_live@.len() == 0
    &&& encoder.scatter_dsets@.len() == 0
    &&& encoder.staging_live@.len() == 0
    &&& encoder.gather_live@.len() == 0
    &&& encoder.guest_write_tokens_live@ == Map::<Set<u64>, GuestWriteToken>::empty()
    &&& encoder.attachment_snapshot_live@.len() == 0
    &&& encoder.storage_image_live@.len() == 0
    &&& encoder.resident_pins_live@.len() == 0
    &&& encoder.compute_write_pins_live@.len() == 0
}

/// Of two encoders, everything that no recording holds is the same.
pub open spec fn same_but_live(a: EncoderPools, b: EncoderPools) -> bool {
    b == (EncoderPools {
        recording: b.recording,
        cb_bound_buffers: b.cb_bound_buffers,
        cb_gather_owed: b.cb_gather_owed,
        cb_sampled_guest: b.cb_sampled_guest,
        readback_live: b.readback_live,
        readback_multi_live: b.readback_multi_live,
        sampled_live: b.sampled_live,
        scatter_dsets: b.scatter_dsets,
        staging_live: b.staging_live,
        gather_live: b.gather_live,
        guest_write_tokens_live: b.guest_write_tokens_live,
        attachment_snapshot_live: b.attachment_snapshot_live,
        storage_image_live: b.storage_image_live,
        resident_pins_live: b.resident_pins_live,
        compute_write_pins_live: b.compute_write_pins_live,
        ..a
    })
}

/// What a wait for the driver's return from a submission tells, given what the
/// receipt gave where the queue still owned the slot.
pub open spec fn submit_return(submission: SlotSubmission, received: Option<Result<(), VkResult>>) -> Result<
    (),
    VkResult,
> {
    match submission {
        SlotSubmission::HostOwned => Ok(()),
        SlotSubmission::SealedWaitingCommit(_) => Ok(()),
        SlotSubmission::QueueOwned(_) => match received {
            Some(result) => result,
            None => Err(device_lost()),
        },
        SlotSubmission::Failed(error) => Err(error),
    }
}

impl EncoderPools {
    /// Install the recording point of the command buffer about to record.
    pub fn begin_recording(&mut self, lease: RecordingLease)
        requires
            old(self).recording is None,
        ensures
            *final(self) == (EncoderPools { recording: Some(lease), ..*old(self) }),
            old(self).wf() && old(self).has_slot() && recordable(old(self).cur_slot())
                ==> final(self).wf(),
    {
        self.recording = Some(lease);
    }

    /// Transfer everything that the recording under way holds into one package.
    /// The images named by `retains` are lifted out: they become cache entries. What
    /// was remembered of its binds is forgotten and counted.
    pub fn seal_entry(&mut self, dsets: Vec<DescriptorRef>, retains: Vec<SampledRetain>) -> (sealed:
        SealedEntry)
        requires
            old(self).recording is Some,
            old(self).guest_write_tokens_live.wf(),
            old(self).cb_bound_buffers.wf(),
            old(self).cb_sampled_guest.wf(),
        ensures
            seals(*old(self), dsets, retains@, sealed),
            holds_nothing_live(*final(self)),
            same_but_live(*old(self), *final(self)),
            old(self).wf() && old(self).open_batch is None ==> final(self).wf(),
    {
        let forgotten = MemoCounts {
            binds: self.cb_bound_buffers.counts(),
            sampled: self.cb_sampled_guest.len(),
        };
        self.cb_bound_buffers = CbBufferMemo::new();
        self.cb_gather_owed.clear();
        self.cb_sampled_guest.clear();
        let mut readback: Vec<BufferSlot> = Vec::new();
        let mut first: Option<BufferSlot> = None;
        std::mem::swap(&mut first, &mut self.readback_live);
        if let Some(slot) = first {
            readback.push(slot);
        }
        readback.append(&mut self.readback_multi_live);
        assert(readback@ =~= readback_of(old(self).readback_live, old(self).readback_multi_live@));
        let mut sampled: Vec<SampledSlot> = taken(&mut self.sampled_live);
        let admissions = take_retained_slots(&mut sampled, retains);
        let mut recording: Option<RecordingLease> = None;
        std::mem::swap(&mut recording, &mut self.recording);
        let scatter_dsets = taken(&mut self.scatter_dsets);
        let staging = taken(&mut self.staging_live);
        let gather = taken(&mut self.gather_live);
        let guest_write_tokens = drain_tokens(&mut self.guest_write_tokens_live);
        let attachment_snapshots = taken(&mut self.attachment_snapshot_live);
        let storage_images = taken(&mut self.storage_image_live);
        let unpin_residents = taken(&mut self.resident_pins_live);
        let unpin_compute_residents = taken(&mut self.compute_write_pins_live);
        SealedEntry {
            recording: recording.unwrap(),
            cleanup: PendingGpuCleanup {
                encoder: EncoderCleanup { dsets, scatter_dsets, staging, gather, readback },
                visibility: VisibilityCleanup { guest_write_tokens },
                shared: SharedCleanup {
                    sampled,
                    attachment_snapshots,
                    storage_images,
                    unpin_residents,
                    unpin_compute_residents,
                },
            },
            admissions,
            forgotten,
        }
    }

    /// Put an ended recording on its slot before a queue can accept its command
    /// buffer.
    pub fn stage_sealed_entry(&mut self, sealed: SealedEntry)
        requires
            old(self).has_slot(),
            recordable(old(self).cur_slot()),
        ensures
            *final(self) == (EncoderPools { slots: final(self).slots, ..*old(self) }),
            final(self).slots@ == old(self).slots@.update(
                old(self).cur as int,
                (CmdSlot {
                    submission: SlotSubmission::SealedWaitingCommit(sealed),
                    ..old(self).cur_slot()
                }),
            ),
            old(self).wf() && old(self).recording is None ==> final(self).wf(),
    {
        let at: usize = self.cur;
        self.slots[at].submission = SlotSubmission::SealedWaitingCommit(sealed);
        proof {
            lemma_pending_update(old(self).slots@, at as int, self.slots@[at as int]);
        }
    }

    /// Take the ended recording back from its slot.
    pub fn take_staged_entry(&mut self) -> (sealed: SealedEntry)
        requires
            old(self).has_slot(),
            old(self).cur_slot().submission is SealedWaitingCommit,
        ensures
            old(self).cur_slot().submission == SlotSubmission::SealedWaitingCommit(sealed),
            *final(self) == (EncoderPools { slots: final(self).slots, ..*old(self) }),
            final(self).slots@ == old(self).slots@.update(
                old(self).cur as int,
                (CmdSlot { submission: SlotSubmission::HostOwned, ..old(self).cur_slot() }),
            ),
            old(self).wf() ==> final(self).wf() && recordable(final(self).cur_slot()),
    {
        let at: usize = self.cur;
        let mut submission = SlotSubmission::HostOwned;
        std::mem::swap(&mut submission, &mut self.slots[at].submission);
        proof {
            lemma_pending_update(old(self).slots@, at as int, self.slots@[at as int]);
            if old(self).wf() {
                assert(slot_wf(old(self).slots@[at as int]));
                assert forall|i: int| 0 <= i < self.slots@.len() implies slot_wf(
                    #[trigger] self.slots@[i],
                ) by {
                    assert(slot_wf(old(self).slots@[i]));
                }
            }
        }
        match submission {
            SlotSubmission::SealedWaitingCommit(sealed) => sealed,
            SlotSubmission::HostOwned | SlotSubmission::QueueOwned(_)
            | SlotSubmission::Failed(_) => {
                assert(false);
                vstd::pervasive::unreached()
            },
        }
    }

    /// Pair the queue's answer with the very recording that was staged.
    pub fn resolve_staged_commit<T, E>(&mut self, result: Result<T, E>) -> (commit: SealedCommit<
        T,
        E,
    >)
        requires
            old(self).has_slot(),
            old(self).cur_slot().submission is SealedWaitingCommit,
        ensures
            match (result, commit) {
                (Ok(value), SealedCommit::Accepted { sealed, committed }) => committed == value
                    && old(self).cur_slot().submission == SlotSubmission::SealedWaitingCommit(
                    sealed,
                ),
                (Err(value), SealedCommit::Rejected { sealed, error }) => error == value && old(
                    self,
                ).cur_slot().submission == SlotSubmission::SealedWaitingCommit(sealed),
                _ => false,
            },
            *final(self) == (EncoderPools { slots: final(self).slots, ..*old(self) }),
            final(self).slots@ == old(self).slots@.update(
                old(self).cur as int,
                (CmdSlot { submission: SlotSubmission::HostOwned, ..old(self).cur_slot() }),
            ),
            old(self).wf() ==> final(self).wf() && recordable(final(self).cur_slot()),
    {
        let sealed = self.take_staged_entry();
        match result {
            Ok(committed) => SealedCommit::Accepted { sealed, committed },
            Err(error) => SealedCommit::Rejected { sealed, error },
        }
    }

    /// Park a submitted command buffer on its slot. What it fills that becomes
    /// cache entries is given back.
    pub fn park_submitted_entry(
        &mut self,
        sealed: SealedEntry,
        submit_return: Option<PendingQueueSubmit>,
    ) -> (admissions: Vec<(SampledSlot, SampledRetain)>)
        requires
            old(self).has_slot(),
            recordable(old(self).cur_slot()),
            old(self).in_flight < usize::MAX,
        ensures
            admissions == sealed.admissions,
            *final(self) == (EncoderPools {
                slots: final(self).slots,
                in_flight: (old(self).in_flight + 1) as usize,
                ..*old(self)
            }),
            final(self).slots@.len() == old(self).slots@.len(),
            forall|i: int|
                0 <= i < old(self).slots@.len() && i != old(self).cur ==> final(self).slots@[i]
                    == old(self).slots@[i],
            ({
                let slot = final(self).slots@[old(self).cur as int];
                &&& slot.retirement matches Some(point) && point@ == sealed.recording@
                &&& slot == (CmdSlot {
                    retirement: slot.retirement,
                    pending: Some(sealed.cleanup),
                    submission: match submit_return {
                        Some(receipt) => SlotSubmission::QueueOwned(receipt),
                        None => SlotSubmission::HostOwned,
                    },
                    ..old(self).cur_slot()
                })
            }),
            old(self).wf() && old(self).recording is None ==> final(self).wf(),
    {
        let SealedEntry { recording, cleanup, admissions, .. } = sealed;
        let at: usize = self.cur;
        let retirement = recording.submitted();
        self.slots[at].retirement = Some(retirement);
        self.slots[at].pending = Some(cleanup);
        self.slots[at].submission = match submit_return {
            Some(receipt) => SlotSubmission::QueueOwned(receipt),
            None => SlotSubmission::HostOwned,
        };
        self.in_flight = self.in_flight + 1;
        proof {
            let slot = self.slots@[at as int];
            lemma_pending_update(old(self).slots@, at as int, slot);
            assert(self.slots@ =~= old(self).slots@.update(at as int, slot));
            if old(self).wf() {
                assert forall|i: int| 0 <= i < self.slots@.len() implies slot_wf(
                    #[trigger] self.slots@[i],
                ) by {
                    assert(slot_wf(old(self).slots@[i]));
                }
            }
        }
        admissions
    }

    /// Take back a slot whose driver call has returned. `received` is what its
    /// receipt gave, where the queue owned the slot; nothing means that the
    /// queue's owner is gone. The GPU may still be at work: the fence tells.
    pub fn await_submit_return(
        &mut self,
        counters: &mut EngineCounters,
        index: usize,
        received: Option<Result<(), VkResult>>,
        op: DeviceLostOp,
    ) -> (returned: Result<(), DrawError>)
        requires
            index < old(self).slots@.len(),
            !(old(self).slots@[index as int].submission is SealedWaitingCommit),
        ensures
            ({
                let before = old(self).slots@[index as int];
                match submit_return(before.submission, received) {
                    Ok(_) => {
                        &&& returned is Ok
                        &&& *final(counters) == *old(counters)
                        &&& final(self).slots@ == old(self).slots@.update(
                            index as int,
                            (CmdSlot { submission: SlotSubmission::HostOwned, ..before }),
                        )
                    },
                    Err(error) => {
                        &&& returned == Err::<(), DrawError>(wait_failure(error, op))
                        &&& *final(counters) == wait_counted(*old(counters), error)
                        &&& final(self).slots@ == old(self).slots@.update(
                            index as int,
                            (CmdSlot { submission: SlotSubmission::Failed(error), ..before }),
                        )
                    },
                }
            }),
            *final(self) == (EncoderPools { slots: final(self).slots, ..*old(self) }),
            old(self).wf() && (old(self).recording is Some ==> index != old(self).cur)
                ==> final(self).wf(),
    {
        let mut submission = SlotSubmission::HostOwned;
        std::mem::swap(&mut submission, &mut self.slots[index].submission);
        let result: Result<(), VkResult> = match submission {
            SlotSubmission::HostOwned => Ok(()),
            SlotSubmission::SealedWaitingCommit(_) => Ok(()),
            SlotSubmission::QueueOwned(receipt) => receipt.wait(received),
            SlotSubmission::Failed(error) => Err(error),
        };
        if let Err(error) = result {
            self.slots[index].submission = SlotSubmission::Failed(error);
        }
        proof {
            let slot = self.slots@[index as int];
            lemma_pending_update(old(self).slots@, index as int, slot);
            assert(self.slots@ =~= old(self).slots@.update(index as int, slot));
            if old(self).wf() {
                assert forall|i: int| 0 <= i < self.slots@.len() implies slot_wf(
                    #[trigger] self.slots@[i],
                ) by {
                    assert(slot_wf(old(self).slots@[i]));
                }
            }
        }
        match result {
            Ok(()) => Ok(()),
            Err(error) => Err(wait_error(counters, error, op)),
        }
    }

    /// Take back a slot whose driver call has returned, without waiting.
    /// `false` means that its fence is not the host's to ask yet. `polled` is
    /// what its receipt holds.
    pub fn try_take_submit_return(
        &mut self,
        counters: &mut EngineCounters,
        index: usize,
        polled: ReceiptState,
    ) -> (returned: Result<bool, DrawError>)
        requires
            index < old(self).slots@.len(),
        ensures
            ({
                let before = old(self).slots@[index as int];
                let outcome = match before.submission {
                    SlotSubmission::HostOwned => Some(Ok::<(), VkResult>(())),
                    SlotSubmission::SealedWaitingCommit(_) => None,
                    SlotSubmission::QueueOwned(_) => receipt_outcome(polled),
                    SlotSubmission::Failed(error) => Some(Err(error)),
                };
                match outcome {
                    None => {
                        &&& returned == Ok::<bool, DrawError>(false)
                        &&& *final(self) == *old(self)
                        &&& *final(counters) == *old(counters)
                    },
                    Some(Ok(_)) => {
                        &&& returned == Ok::<bool, DrawError>(true)
                        &&& *final(counters) == *old(counters)
                        &&& final(self).slots@ == old(self).slots@.update(
                            index as int,
                            (CmdSlot { submission: SlotSubmission::HostOwned, ..before }),
                        )
                    },
                    Some(Err(error)) => {
                        &&& returned == Err::<bool, DrawError>(wait_failure(error, DeviceLostOp::PoolsFenceStatusBeginEntry))
                        &&& *final(counters) == wait_counted(*old(counters), error)
                        &&& final(self).slots@ == old(self).slots@.update(
                            index as int,
                            (CmdSlot { submission: SlotSubmission::Failed(error), ..before }),
                        )
                    },
                }
            }),
            *final(self) == (EncoderPools { slots: final(self).slots, ..*old(self) }),
            old(self).wf() && (old(self).recording is Some ==> index != old(self).cur)
                ==> final(self).wf(),
    {
        let result: Result<(), VkResult> = match &self.slots[index].submission {
            SlotSubmission::HostOwned => {
                assert(self.slots@ =~= self.slots@.update(
                    index as int,
                    (CmdSlot {
                        submission: SlotSubmission::HostOwned,
                        ..self.slots@[index as int]
                    }),
                ));
                return Ok(true);
            },
            SlotSubmission::SealedWaitingCommit(_) => return Ok(false),
            SlotSubmission::QueueOwned(receipt) => match receipt.try_complete(polled) {
                None => return Ok(false),
                Some(result) => result,
            },
            SlotSubmission::Failed(error) => Err(*error),
        };
        self.slots[index].submission = match result {
            Ok(()) => SlotSubmission::HostOwned,
            Err(error) => SlotSubmission::Failed(error),
        };
        proof {
            let slot = self.slots@[index as int];
            lemma_pending_update(old(self).slots@, index as int, slot);
            assert(self.slots@ =~= old(self).slots@.update(index as int, slot));
            if old(self).wf() {
                assert forall|i: int| 0 <= i < self.slots@.len() implies slot_wf(
                    #[trigger] self.slots@[i],
                ) by {
                    assert(slot_wf(old(self).slots@[i]));
                }
            }
        }
        match result {
            Ok(()) => Ok(true),
            Err(error) => Err(wait_error(counters, error, DeviceLostOp::PoolsFenceStatusBeginEntry)),
        }
    }

    /// Take a slot whose fence has signalled off the ring. A slot that owes
    /// nothing gives nothing.
    pub fn take_completed_entry(&mut self, index: usize) -> (retired: Option<RetiredEntry>)
        requires
            index < old(self).slots@.len() ==> slot_wf(old(self).slots@[index as int]),
        ensures
            match retired {
                Some(entry) => {
                    let before = old(self).slots@[index as int];
                    &&& index < old(self).slots@.len()
                    &&& before.pending == Some(entry.cleanup)
                    &&& before.retirement == Some(entry.retirement)
                    &&& *final(self) == (EncoderPools {
                        slots: final(self).slots,
                        in_flight: final(self).in_flight,
                        ..*old(self)
                    })
                    &&& final(self).in_flight == if old(self).in_flight == 0 {
                        0
                    } else {
                        old(self).in_flight - 1
                    }
                    &&& final(self).slots@ == old(self).slots@.update(
                        index as int,
                        (CmdSlot { pending: None, retirement: None, ..before }),
                    )
                },
                None => {
                    &&& index >= old(self).slots@.len() || old(
                        self,
                    ).slots@[index as int].pending is None
                    &&& *final(self) == *old(self)
                },
            },
            old(self).wf() ==> final(self).wf(),
    {
        if index >= self.slots.len() {
            return None;
        }
        if self.slots[index].pending.is_none() {
            return None;
        }
        let mut pending: Option<PendingGpuCleanup> = None;
        std::mem::swap(&mut pending, &mut self.slots[index].pending);
        self.in_flight = self.in_flight.saturating_sub(1);
        let mut retirement = None;
        std::mem::swap(&mut retirement, &mut self.slots[index].retirement);
        proof {
            let slot = self.slots@[index as int];
            lemma_pending_update(old(self).slots@, index as int, slot);
            assert(self.slots@ =~= old(self).slots@.update(index as int, slot));
            if old(self).wf() {
                assert forall|i: int| 0 <= i < self.slots@.len() implies slot_wf(
                    #[trigger] self.slots@[i],
                ) by {
                    assert(slot_wf(old(self).slots@[i]));
                }
            }
        }
        Some(RetiredEntry { cleanup: pending.unwrap(), retirement: retirement.unwrap() })
    }

    /// Keep the buffers and gather sets of a finished command buffer for the
    /// next one. The other descriptor sets are given back to be freed.
    pub fn reclaim_retired_entry(&mut self, encoder: EncoderCleanup) -> (free: Vec<DescriptorRef>)
        requires
            old(self).staging_free.wf(),
            old(self).gather_free.wf(),
            old(self).readback_free.wf(),
        ensures
            free == encoder.dsets,
            *final(self) == (EncoderPools {
                scatter_dset_free: final(self).scatter_dset_free,
                staging_free: final(self).staging_free,
                gather_free: final(self).gather_free,
                readback_free: final(self).readback_free,
                ..*old(self)
            }),
            final(self).scatter_dset_free@ == old(self).scatter_dset_free@
                + encoder.scatter_dsets@,
            final(self).staging_free.wf(),
            final(self).gather_free.wf(),
            final(self).readback_free.wf(),
            forall|size: u64| #[trigger]
                final(self).staging_free.kept(size) == old(self).staging_free.kept(size)
                    + in_bucket(encoder.staging@, size),
            forall|size: u64| #[trigger]
                final(self).gather_free.kept(size) == old(self).gather_free.kept(size) + in_bucket(
                    encoder.gather@,
                    size,
                ),
            forall|size: u64| #[trigger]
                final(self).readback_free.kept(size) == old(self).readback_free.kept(size)
                    + in_bucket(encoder.readback@, size),
            old(self).wf() ==> final(self).wf(),
    {
        let EncoderCleanup { dsets, scatter_dsets, staging, gather, readback } = encoder;
        let mut scatter_dsets = scatter_dsets;
        self.recycle_scatter_dsets(&mut scatter_dsets);
        self.staging_free.put_all(staging);
        self.gather_free.put_all(gather);
        self.readback_free.put_all(readback);
        dsets
    }
}

/// An image is lifted out by a resource that retains that image and no other, and
/// where a resource's image is there it is lifted.
pub proof fn law_a_lifted_image_is_the_retained_one(
    slots: Seq<SampledSlot>,
    retains: Seq<SampledRetain>,
    k: int,
)
    requires
        0 <= k < lifted(slots, retains).1.len(),
    ensures
        ({
            let (slot, retain) = lifted(slots, retains).1[k];
            &&& slot.image == retain.image
            &&& retains.contains(retain)
        }),
        lifted(slots, retains).1.len() <= retains.len(),
    decreases retains.len(),
{
    if retains.len() > 0 {
        let front = retains.drop_last();
        let (rest, out) = lifted(slots, front);
        let retain = retains.last();
        lemma_lifts_no_more_than_asked(slots, front);
        if k < out.len() {
            law_a_lifted_image_is_the_retained_one(slots, front, k);
            assert(lifted(slots, retains).1[k] == out[k]);
            let n = choose|n: int| 0 <= n < front.len() && front[n] == out[k].1;
            assert(retains[n] == out[k].1);
        } else {
            let i = first_with(rest, retain.image)->0;
            assert(is_first_with(rest, retain.image, i));
            assert(retains[retains.len() - 1] == retain);
        }
    }
}

proof fn lemma_lifts_no_more_than_asked(slots: Seq<SampledSlot>, retains: Seq<SampledRetain>)
    ensures
        lifted(slots, retains).1.len() <= retains.len(),
    decreases retains.len(),
{
    if retains.len() > 0 {
        lemma_lifts_no_more_than_asked(slots, retains.drop_last());
    }
}

/// One resource lifts the first slot that holds its image, and none where no slot
/// does.
pub proof fn law_a_resource_lifts_its_image(
    slots: Seq<SampledSlot>,
    retain: SampledRetain,
    at: int,
)
    ensures
        (0 <= at < slots.len() && slots[at].image == retain.image && forall|j: int|
            0 <= j < at ==> (#[trigger] slots[j]).image != retain.image) ==> lifted(
            slots,
            seq![retain],
        ) == (slots.remove(at), seq![(slots[at], retain)]),
        (forall|j: int| 0 <= j < slots.len() ==> (#[trigger] slots[j]).image != retain.image)
            ==> lifted(slots, seq![retain]) == (slots, Seq::<(SampledSlot, SampledRetain)>::empty()),
        lifted(slots, Seq::<SampledRetain>::empty()) == (
            slots,
            Seq::<(SampledSlot, SampledRetain)>::empty(),
        ),
{
    let one = seq![retain];
    assert(one.drop_last() =~= Seq::<SampledRetain>::empty());
    assert(one.last() == retain);
    assert(lifted(slots, one.drop_last()) == (
        slots,
        Seq::<(SampledSlot, SampledRetain)>::empty(),
    ));
    if 0 <= at < slots.len() && slots[at].image == retain.image && (forall|j: int|
        0 <= j < at ==> (#[trigger] slots[j]).image != retain.image) {
        assert(is_first_with(slots, retain.image, at));
        let i = first_with(slots, retain.image)->0;
        assert(is_first_with(slots, retain.image, i));
        assert(i == at);
        assert(Seq::<(SampledSlot, SampledRetain)>::empty().push((slots[at], retain)) =~= seq![
            (slots[at], retain),
        ]);
    }
}

/// Tokens are ordered by session and then by number, and any two are ordered.
pub proof fn law_tokens_are_ordered(a: GuestWriteToken, b: GuestWriteToken, c: GuestWriteToken)
    ensures
        token_le(a, b) || token_le(b, a),
        token_le(a, b) && token_le(b, a) ==> a.session.0 == b.session.0 && a.serial == b.serial,
        token_le(a, b) && token_le(b, c) ==> token_le(a, c),
        a.session.0 < b.session.0 ==> token_le(a, b) && !token_le(b, a),
        a.session.0 == b.session.0 && a.serial < b.serial ==> token_le(a, b) && !token_le(b, a),
{
}

/// A recording gives up its first readback buffer and then the others, each once.
pub proof fn law_readback_buffers_come_first_to_last(
    live: Option<BufferSlot>,
    others: Seq<BufferSlot>,
    k: int,
)
    requires
        0 <= k < others.len(),
    ensures
        live is None ==> readback_of(live, others) == others,
        live matches Some(slot) ==> {
            &&& readback_of(live, others).len() == others.len() + 1
            &&& readback_of(live, others)[0] == slot
            &&& readback_of(live, others)[k + 1] == others[k]
        },
{
}

/// Everything that a recording holds goes into its package, each thing to where it
/// is cleaned up: nothing is dropped and nothing goes twice.
pub proof fn law_a_package_holds_what_was_recorded(
    encoder: EncoderPools,
    dsets: Vec<DescriptorRef>,
    sealed: SealedEntry,
)
    requires
        seals(encoder, dsets, seq![], sealed),
    ensures
        encoder.recording == Some(sealed.recording),
        sealed.cleanup.encoder.dsets@ == dsets@,
        sealed.cleanup.encoder.scatter_dsets@ == encoder.scatter_dsets@,
        sealed.cleanup.encoder.staging@ == encoder.staging_live@,
        sealed.cleanup.encoder.gather@ == encoder.gather_live@,
        encoder.readback_live is None ==> sealed.cleanup.encoder.readback@
            == encoder.readback_multi_live@,
        encoder.readback_live matches Some(slot) ==> sealed.cleanup.encoder.readback@ == seq![slot]
            + encoder.readback_multi_live@,
        sealed.cleanup.shared.sampled@ == encoder.sampled_live@,
        sealed.admissions@.len() == 0,
        sealed.cleanup.shared.attachment_snapshots@ == encoder.attachment_snapshot_live@,
        sealed.cleanup.shared.storage_images@ == encoder.storage_image_live@,
        sealed.cleanup.shared.unpin_residents@ == encoder.resident_pins_live@,
        sealed.cleanup.shared.unpin_compute_residents@ == encoder.compute_write_pins_live@,
        sealed.forgotten.sampled == encoder.cb_sampled_guest@.dom().len(),
        sealed.forgotten.binds.aliases == encoder.cb_bound_buffers.aliases@.dom().len(),
        sealed.forgotten.binds.immutable == encoder.cb_bound_buffers.immutable@.dom().len(),
        sealed.forgotten.binds.copies == encoder.cb_bound_buffers.guest_snapshots@.dom().len(),
{
}

/// Nothing of a recording is left behind, and nothing else is touched: the ring, the
/// free lists and the batch stay.
pub proof fn law_sealing_takes_all_of_a_recording_and_no_more(
    before: EncoderPools,
    after: EncoderPools,
)
    requires
        holds_nothing_live(after),
        same_but_live(before, after),
    ensures
        after.recording is None,
        after.sampled_live@.len() == 0,
        after.staging_live@.len() == 0,
        after.gather_live@.len() == 0,
        after.readback_live is None,
        after.readback_multi_live@.len() == 0,
        after.scatter_dsets@.len() == 0,
        after.attachment_snapshot_live@.len() == 0,
        after.storage_image_live@.len() == 0,
        after.resident_pins_live@.len() == 0,
        after.compute_write_pins_live@.len() == 0,
        after.cb_gather_owed@.len() == 0,
        forall|key: crate::pools::memo::BindKey| #[trigger]
            after.cb_bound_buffers.lookup(key) is None,
        after.guest_write_tokens_live@.dom() == Set::<Set<u64>>::empty(),
        after.cb_sampled_guest@.dom() == Set::<SampledGuestId>::empty(),
        after.slots == before.slots,
        after.cur == before.cur,
        after.in_flight == before.in_flight,
        after.staging_free == before.staging_free,
        after.gather_free == before.gather_free,
        after.readback_free == before.readback_free,
        after.readback_leased == before.readback_leased,
        after.scatter_dset_free == before.scatter_dset_free,
        after.open_batch == before.open_batch,
        after.open_pass == before.open_pass,
        after.last_pass == before.last_pass,
        after.cb_graphics == before.cb_graphics,
        after.cb_guest_visibility == before.cb_guest_visibility,
        after.guest_reads_in_flight == before.guest_reads_in_flight,
        after.active_submission == before.active_submission,
        after.initialized == before.initialized,
        after.cmd_pool == before.cmd_pool,
{
}

/// What a submission came to: the driver's own return where the queue told it, a
/// lost device where the queue is gone, and nothing to wait for where the host
/// still owns the slot.
pub proof fn law_a_submission_tells_the_drivers_return(
    submission: SlotSubmission,
    received: Option<Result<(), VkResult>>,
)
    ensures
        submission is HostOwned || submission is SealedWaitingCommit ==> submit_return(
            submission,
            received,
        ) is Ok,
        submission is QueueOwned && received is Some ==> submit_return(submission, received)
            == received->0,
        submission is QueueOwned && received is None ==> submit_return(submission, received)
            == Err::<(), VkResult>(VkResult(-4i32)),
        submission matches SlotSubmission::Failed(error) ==> submit_return(submission, received)
            == Err::<(), VkResult>(error),
{
}

/// The image that is found is the first of its kind in the list, and one is found where there
/// is one.
pub proof fn law_the_first_image_is_found(slots: Seq<SampledSlot>, image: Image, k: int)
    ensures
        first_with(slots, image) matches Some(i) ==> {
            &&& 0 <= i < slots.len()
            &&& slots[i].image == image
            &&& 0 <= k < i ==> slots[k].image != image
        },
        0 <= k < slots.len() && slots[k].image == image ==> first_with(slots, image) is Some,
    decreases k,
{
    if 0 <= k < slots.len() && slots[k].image == image {
        if forall|j: int| 0 <= j < k ==> (#[trigger] slots[j]).image != image {
            assert(is_first_with(slots, image, k));
        } else {
            let j = choose|j: int| 0 <= j < k && (#[trigger] slots[j]).image == image;
            law_the_first_image_is_found(slots, image, j);
        }
    }
    if exists|i: int| is_first_with(slots, image, i) {
        let i = choose|i: int| is_first_with(slots, image, i);
        assert(is_first_with(slots, image, i));
    }
}

/// Tokens in order stand by session and number.
pub proof fn law_tokens_in_order_rise(tokens: Seq<GuestWriteToken>, i: int, j: int)
    requires
        in_token_order(tokens),
        0 <= i < j < tokens.len(),
    ensures
        tokens[i].session.0 <= tokens[j].session.0,
        tokens[i].session.0 == tokens[j].session.0 ==> tokens[i].serial <= tokens[j].serial,
{
    assert(token_le(tokens[i], tokens[j]));
}

/// Every live token is listed, no other one is, and each is listed once.
pub proof fn law_every_live_token_is_listed_once(
    live: Map<Set<u64>, GuestWriteToken>,
    tokens: Seq<GuestWriteToken>,
    pages: Set<u64>,
    i: int,
)
    requires
        lists_tokens(live, tokens),
    ensures
        live.dom().finite(),
        tokens.len() == live.dom().len(),
        live.dom().contains(pages) ==> tokens.contains(live[pages]),
        0 <= i < tokens.len() ==> exists|p: Set<u64>| #[trigger]
            live.dom().contains(p) && live[p] == tokens[i],
{
    let entries = choose|entries: Seq<(GuestPages, GuestWriteToken)>| #[trigger]
        ids_distinct(entries) && map_of(entries) == live && tokens.to_multiset() == values_of(
            entries,
        ).to_multiset();
    let values = values_of(entries);
    crate::pools::keyed::lemma_map_of(entries);
    tokens.to_multiset_ensures();
    values.to_multiset_ensures();
    assert(tokens.len() == values.len());
    if live.dom().contains(pages) {
        assert(crate::pools::keyed::holds_id(entries, pages));
        let k = choose|k: int| 0 <= k < entries.len() && (#[trigger] entries[k]).0.id() == pages;
        assert(values[k] == live[pages]);
        assert(values.contains(live[pages]));
        assert(values.to_multiset().count(live[pages]) > 0);
        assert(tokens.contains(live[pages]));
    }
    if 0 <= i < tokens.len() {
        assert(tokens.contains(tokens[i]));
        assert(tokens.to_multiset().count(tokens[i]) > 0);
        assert(values.contains(tokens[i]));
        let k = choose|k: int| 0 <= k < values.len() && values[k] == tokens[i];
        assert(crate::pools::keyed::holds_id(entries, entries[k].0.id()));
        assert(live.dom().contains(entries[k].0.id()));
    }
}

} // verus!
