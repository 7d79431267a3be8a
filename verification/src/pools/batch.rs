//! Claiming a command buffer of the ring, filling it with draws, and handing it
//! to the queue.

use crate::pools::encoder::{
    recordable, slot_wf, BatchTarget, EncoderPools, OpenBatch, RecordingStampId,
};
use crate::pools::entry::{
    holds_nothing_live, lifted, same_but_live, seals, take_retained_slots, SealedCommit,
};
use crate::pools::fence::{count, counted, EngineCounters};
use crate::pools::graphics::GraphicsView;
use crate::pools::making::call_failed;
use crate::pools::memo::MemoCounts;
use crate::pools::pass::{PassEnd, PassStamp};
use crate::pools::resource::{
    cache_discarded, held_point, lemma_points_kept, lemma_slot_let_go, lemma_slot_taken_up,
    admitted_all, offered_all, points_wf, taken_apart, unheld, Released, ResourcePools,
};
use crate::pools::sampled_cache::{still_exact, Admission, LiveOwners};
use crate::pools::shared::{
    destroyed_in, ready, sampled_in, targets_in, took_back, waiting, SharedPools,
};
use crate::pools::slots::{
    CmdSlot, DeferredHandle, DescriptorRef, SampledRetain, SealedEntry, SlotSpan, SlotSubmission,
    SpanKind, SubmissionIdentity,
};
use crate::pools::visibility::CbGuestVisibility;
use crate::queue_owner::PendingQueueSubmit;
use crate::retirement::Order;
use crate::types::{DrawError, VkCall, VkOp};
use crate::vk::{CommandBuffer, Fence, QueryPool, VkResult};
use vstd::prelude::*;

verus! {

/// A batch that is to be submitted, taken off the encoder.
#[derive(Debug)]
pub struct FlushPlan {
    /// Its command buffer.
    pub cb: CommandBuffer,
    /// The fence of its submission.
    pub fence: Fence,
    /// Its completion stamp.
    pub stamp_recording: Option<RecordingStampId>,
    /// How many draws it holds.
    pub draws: u64,
    /// The descriptor sets that they use.
    pub dsets: Vec<DescriptorRef>,
    /// The render pass to end first.
    pub pass_end: Option<PassEnd>,
    /// Whether to write the second stamp of its timed region.
    pub stamp_span: bool,
}

/// A batch that did not reach the queue.
#[derive(Debug)]
pub struct FlushFailure {
    /// Why.
    pub error: DrawError,
    /// What is to be done outside for its command buffer.
    pub released: Released,
    /// The objects that leave with the cache.
    pub destroy: Vec<DeferredHandle>,
    /// What its command buffer remembered of its binds, and forgot.
    pub forgotten: MemoCounts,
}

/// The slot `step` places on in a ring of `len`.
pub open spec fn ring_place(cur: int, step: int, len: int) -> int {
    (cur + step) % len
}

/// The slot `step` places on in a ring of `len`.
fn ring_index(cur: usize, step: usize, len: usize) -> (index: usize)
    requires
        cur < len,
        step <= len,
    ensures
        index == ring_place(cur as int, step as int, len as int),
        index < len,
{
    if step < len - cur {
        proof {
            vstd::arithmetic::div_mod::lemma_small_mod((cur + step) as nat, len as nat);
        }
        cur + step
    } else {
        let index: usize = step - (len - cur);
        proof {
            vstd::arithmetic::div_mod::lemma_mod_add_multiples_vanish(index as int, len as int);
            vstd::arithmetic::div_mod::lemma_small_mod(index as nat, len as nat);
        }
        index
    }
}

/// What letting go of an unsubmitted recording does to what is shared.
pub open spec fn abandoned(
    before: ResourcePools,
    after: SharedPools,
    destroy: Seq<DeferredHandle>,
) -> bool {
    let order = before.shared.retirement@;
    let handles = ready(before.shared.graveyard@, after.retirement@.prefix());
    &&& after == (SharedPools {
        retirement: after.retirement,
        graveyard: after.graveyard,
        sampled_free: after.sampled_free,
        target_free: after.target_free,
        ..before.shared
    })
    &&& after.retirement@.issued() == order.issued()
    &&& forall|p: int|
        after.retirement@.is_terminal(p) == (order.is_terminal(p)
            || (before.encoder.recording matches Some(lease) && p == lease@))
    &&& took_back(before.shared.sampled_free, after.sampled_free, sampled_in(handles))
    &&& took_back(before.shared.target_free, after.target_free, targets_in(handles))
    &&& after.graveyard@ == waiting(before.shared.graveyard@, after.retirement@.prefix())
    &&& destroy == destroyed_in(handles)
}

/// What is left of the pools where the package `sealed` of the slot `slot` did
/// not reach the queue: it is taken apart, and then the cache is dropped, for
/// images that it was to fill stand there.
pub open spec fn flush_failed(
    before: ResourcePools,
    after: ResourcePools,
    slot: int,
    sealed: SealedEntry,
    failure: FlushFailure,
) -> bool {
    &&& failure.forgotten == sealed.forgotten
    &&& exists|apart: ResourcePools|
        #![trigger taken_apart(before, apart, slot, sealed, failure.released)]
        taken_apart(before, apart, slot, sealed, failure.released) && cache_discarded(
            apart,
            after,
            failure.destroy@,
        )
}

/// The encoder whose recording became the package `sealed`.
pub open spec fn sealed_off(
    before: EncoderPools,
    after: EncoderPools,
    dsets: Vec<DescriptorRef>,
    sealed: SealedEntry,
) -> bool {
    &&& seals(before, dsets, seq![], sealed)
    &&& holds_nothing_live(after)
    &&& same_but_live(before, after)
}

/// The encoder whose current slot hands back the package that waited there.
pub open spec fn unstaged(before: EncoderPools, after: EncoderPools) -> bool {
    &&& after == (EncoderPools { slots: after.slots, ..before })
    &&& after.slots@ == before.slots@.update(
        before.cur as int,
        (CmdSlot { submission: SlotSubmission::HostOwned, ..before.cur_slot() }),
    )
}

/// What beginning to claim a slot does: the recording under way is given up, and
/// nothing is known of its command buffer any more.
pub open spec fn entry_started(
    before: ResourcePools,
    after: ResourcePools,
    destroy: Seq<DeferredHandle>,
) -> bool {
    &&& abandoned(before, after.shared, destroy)
    &&& after.encoder == (EncoderPools {
        recording: None,
        last_pass: None,
        cb_graphics: after.encoder.cb_graphics,
        cb_guest_visibility: CbGuestVisibility::nothing(),
        ..before.encoder
    })
    &&& after.encoder.cb_graphics@ == GraphicsView::nothing(None)
}

/// What claiming the slot `next` does: a recording begins there, where there is
/// a point left for it.
pub open spec fn slot_claimed(
    before: ResourcePools,
    after: ResourcePools,
    next: usize,
    claimed: Result<(CommandBuffer, Fence), DrawError>,
) -> bool {
    let order = before.shared.retirement@;
    let slot = before.encoder.slots@[next as int];
    &&& match claimed {
        Ok(given) => {
            &&& order.issued() < u64::MAX
            &&& given == (slot.cmd_buf, slot.fence)
            &&& after.encoder.recording matches Some(lease) && lease@ == order.issued() + 1
            &&& after.shared.retirement@.issued() == order.issued() + 1
            &&& after.encoder == (EncoderPools {
                cur: next,
                recording: after.encoder.recording,
                ..before.encoder
            })
        },
        Err(error) => {
            &&& error is RecordingSequenceExhausted
            &&& order.issued() == u64::MAX
            &&& after.encoder == (EncoderPools { cur: next, ..before.encoder })
            &&& after.shared == before.shared
        },
    }
    &&& after.shared == (SharedPools { retirement: after.shared.retirement, ..before.shared })
    &&& after.shared.retirement@.prefix() == order.prefix()
    &&& forall|p: int| after.shared.retirement@.is_terminal(p) == order.is_terminal(p)
}

impl ResourcePools {
    /// Begin to claim a slot of the ring. The batch was submitted before. A
    /// recording that was never submitted is given up, and nothing is known of
    /// its command buffer any more.
    pub fn start_entry(&mut self) -> (destroy: Vec<DeferredHandle>)
        requires
            old(self).wf(),
            old(self).encoder.open_batch is None,
            old(self).encoder.open_pass is None,
            old(self).encoder.pass_open_index is None,
        ensures
            final(self).wf(),
            entry_started(*old(self), *final(self), destroy@),
    {
        let mut recording = None;
        std::mem::swap(&mut recording, &mut self.encoder.recording);
        proof {
            if let Some(lease) = old(self).encoder.recording {
                lemma_recording_let_go(
                    old(self).encoder,
                    self.encoder,
                    self.shared.retirement@,
                );
            }
        }
        match recording {
            Some(lease) => {
                let ghost before = self.shared.retirement@;
                let ghost point = lease@;
                lease.cancel(&mut self.shared.retirement);
                proof {
                    lemma_points_kept(self.encoder, before, self.shared.retirement@, point);
                }
            },
            None => {},
        }
        let destroy = self.shared.release_ready_graveyard();
        self.encoder.forget_pass_echo();
        destroy
    }

    /// The next slot of the ring that is submitted, from `step` places on: its
    /// distance and its place. Slots are looked at in the order in which they
    /// were submitted, so that none is taken back before an older one.
    pub fn next_to_reap(&self, step: usize) -> (next: Option<(usize, usize)>)
        requires
            self.encoder.has_slot(),
            1 <= step,
        ensures
            ({
                let n = self.encoder.slots@.len() as int;
                let cur = self.encoder.cur as int;
                match next {
                    Some((at, index)) => {
                        &&& step <= at <= n
                        &&& index == ring_place(cur, at as int, n)
                        &&& index < n
                        &&& self.encoder.slots@[index as int].pending is Some
                        &&& forall|k: int|
                            step <= k < at ==> self.encoder.slots@[#[trigger] ring_place(
                                cur,
                                k,
                                n,
                            )].pending is None
                    },
                    None => forall|k: int|
                        step <= k <= n ==> self.encoder.slots@[#[trigger] ring_place(
                            cur,
                            k,
                            n,
                        )].pending is None,
                }
            }),
    {
        let n: usize = self.encoder.slots.len();
        let cur: usize = self.encoder.cur;
        let mut at: usize = step;
        while at <= n
            invariant
                n == self.encoder.slots@.len(),
                cur == self.encoder.cur,
                cur < n,
                step <= at,
                forall|k: int|
                    step <= k < at ==> self.encoder.slots@[#[trigger] ring_place(
                        cur as int,
                        k,
                        n as int,
                    )].pending is None,
            decreases n + 1 - at,
        {
            let index: usize = ring_index(cur, at, n);
            if self.encoder.slots[index].pending.is_some() {
                return Some((at, index));
            }
            if at == n {
                return None;
            }
            at += 1;
        }
        None
    }

    /// The slot that the next entry takes, and whether it is still submitted.
    pub fn next_slot(&self) -> (next: (usize, bool))
        requires
            self.encoder.has_slot(),
        ensures
            next.0 == ring_place(self.encoder.cur as int, 1, self.encoder.slots@.len() as int),
            next.0 < self.encoder.slots@.len(),
            next.1 == (self.encoder.slots@[next.0 as int].pending is Some),
    {
        let next: usize = ring_index(self.encoder.cur, 1, self.encoder.slots.len());
        (next, self.encoder.slots[next].pending.is_some())
    }

    /// Move on to the slot `next` and begin a recording there: its command
    /// buffer and fence, ready for use. There may be no recording point left.
    pub fn claim_slot(&mut self, next: usize) -> (claimed: Result<(CommandBuffer, Fence), DrawError>)
        requires
            old(self).wf(),
            next < old(self).encoder.slots@.len(),
            recordable(old(self).encoder.slots@[next as int]),
            old(self).encoder.recording is None,
        ensures
            final(self).wf(),
            slot_claimed(*old(self), *final(self), next, claimed),
    {
        self.encoder.cur = next;
        let ghost before = self.shared.retirement@;
        match self.shared.checkout_recording() {
            Err(_) => Err(DrawError::RecordingSequenceExhausted),
            Ok(lease) => {
                proof {
                    lemma_new_point(self.encoder, before, self.shared.retirement@, lease@);
                }
                self.encoder.begin_recording(lease);
                Ok((self.encoder.slots[next].cmd_buf, self.encoder.slots[next].fence))
            },
        }
    }

    /// Count an entry that had to wait for its slot.
    pub fn note_ring_block(counters: &mut EngineCounters, still_running: bool)
        ensures
            *final(counters) == (EngineCounters {
                ring_retire_blocks: if still_running {
                    counted(old(counters).ring_retire_blocks, 1)
                } else {
                    old(counters).ring_retire_blocks
                },
                ..*old(counters)
            }),
    {
        if still_running {
            count(&mut counters.ring_retire_blocks, 1);
        }
    }

    /// The submitted slot that `fence` belongs to.
    pub fn entry_of_fence(&self, fence: Fence) -> (found: Option<usize>)
        ensures
            match found {
                Some(i) => {
                    &&& i < self.encoder.slots@.len()
                    &&& self.encoder.slots@[i as int].fence == fence
                    &&& self.encoder.slots@[i as int].pending is Some
                    &&& forall|j: int|
                        0 <= j < i ==> !((#[trigger] self.encoder.slots@[j]).fence == fence
                            && self.encoder.slots@[j].pending is Some)
                },
                None => forall|j: int|
                    0 <= j < self.encoder.slots@.len() ==> !((
                    #[trigger] self.encoder.slots@[j]).fence == fence
                        && self.encoder.slots@[j].pending is Some),
            },
    {
        let mut i: usize = 0;
        while i < self.encoder.slots.len()
            invariant
                i <= self.encoder.slots@.len(),
                forall|j: int|
                    0 <= j < i ==> !((#[trigger] self.encoder.slots@[j]).fence == fence
                        && self.encoder.slots@[j].pending is Some),
            decreases self.encoder.slots@.len() - i,
        {
            if self.encoder.slots[i].fence == fence && self.encoder.slots[i].pending.is_some() {
                return Some(i);
            }
            i += 1;
        }
        None
    }

    /// Record that a draw was recorded into the batch: it opens the batch on its
    /// slot, or joins the one that is open. The images that it fills are offered
    /// to the cache at once, for the next draw of the batch. Says whether the
    /// batch was opened, which is to be published, and how each image fared.
    pub fn batch_append(
        &mut self,
        counters: &mut EngineCounters,
        slot: (CommandBuffer, Fence),
        target: BatchTarget,
        dset: Option<DescriptorRef>,
        retains: Vec<SampledRetain>,
        stamp_recording: Option<RecordingStampId>,
        live: &LiveOwners,
    ) -> (appended: (bool, Vec<Admission>))
        requires
            old(self).wf(),
            old(self).encoder.recording is Some,
            old(self).encoder.open_batch matches Some(batch) ==> batch.cb == slot.0 && batch.draws
                < u64::MAX,
        ensures
            final(self).wf(),
            appended.0 == (old(self).encoder.open_batch is None),
            ({
                let more = match dset {
                    Some(set) => seq![set],
                    None => seq![],
                };
                let batch = final(self).encoder.open_batch->0;
                &&& final(self).encoder.open_batch is Some
                &&& match old(self).encoder.open_batch {
                    Some(before) => {
                        &&& batch == (OpenBatch {
                            draws: (before.draws + 1) as u64,
                            dsets: batch.dsets,
                            ..before
                        })
                        &&& batch.dsets@ == before.dsets@ + more
                        &&& *final(counters) == (EngineCounters {
                            batch_joins: counted(old(counters).batch_joins, 1),
                            ..*old(counters)
                        })
                    },
                    None => {
                        &&& batch.cb == slot.0
                        &&& batch.fence == slot.1
                        &&& batch.stamp_recording == stamp_recording
                        &&& batch.target == target
                        &&& batch.draws == 1
                        &&& batch.dsets@ == more
                        &&& *final(counters) == (EngineCounters {
                            batch_opens: counted(old(counters).batch_opens, 1),
                            ..*old(counters)
                        })
                    },
                }
            }),
            final(self).encoder == (EncoderPools {
                open_batch: final(self).encoder.open_batch,
                sampled_live: final(self).encoder.sampled_live,
                ..old(self).encoder
            }),
            final(self).shared == (SharedPools {
                sampled_cache: final(self).shared.sampled_cache,
                ..old(self).shared
            }),
            ({
                let (rest, out) = lifted(old(self).encoder.sampled_live@, retains@);
                let (cached, declined) = offered_all(
                    old(self).shared.sampled_cache@,
                    out,
                    *live,
                    old(self).shared.idle_clock_ms,
                );
                &&& final(self).shared.sampled_cache@ == cached
                &&& still_exact(old(self).shared.sampled_cache, final(self).shared.sampled_cache)
                &&& final(self).encoder.sampled_live@ == rest + declined
                &&& appended.1@ == admitted_all(
                    old(self).shared.sampled_cache@,
                    out,
                    *live,
                    old(self).shared.idle_clock_ms,
                )
            }),
    {
        let mut open: Option<OpenBatch> = None;
        std::mem::swap(&mut open, &mut self.encoder.open_batch);
        let opened: bool;
        let batch: OpenBatch = match open {
            Some(batch) => {
                let mut batch = batch;
                batch.draws = batch.draws + 1;
                if let Some(set) = dset {
                    batch.dsets.push(set);
                }
                count(&mut counters.batch_joins, 1);
                opened = false;
                batch
            },
            None => {
                let mut dsets: Vec<DescriptorRef> = Vec::new();
                if let Some(set) = dset {
                    dsets.push(set);
                }
                count(&mut counters.batch_opens, 1);
                opened = true;
                OpenBatch {
                    cb: slot.0,
                    fence: slot.1,
                    stamp_recording,
                    target,
                    draws: 1,
                    dsets,
                }
            },
        };
        proof {
            let more = match dset {
                Some(set) => seq![set],
                None => seq![],
            };
            assert(batch.dsets@ =~= match old(self).encoder.open_batch {
                Some(before) => before.dsets@ + more,
                None => more,
            });
        }
        self.encoder.open_batch = Some(batch);
        let admissions = take_retained_slots(&mut self.encoder.sampled_live, retains);
        let outcomes = self.offer_recorded_sampled(admissions, live);
        (opened, outcomes)
    }

    /// Let go of a batch that will not be submitted. That no batch is open is to
    /// be published.
    pub fn discard_open_batch(&mut self)
        ensures
            final(self).shared == old(self).shared,
            final(self).encoder == (EncoderPools { open_batch: None, ..old(self).encoder }),
            old(self).wf() ==> final(self).wf(),
    {
        self.encoder.open_batch = None;
    }

    /// Take the open batch off the encoder to submit it. Its pass is closed, its
    /// timed region ends, and nothing is known of its command buffer any more.
    /// That no batch is open is to be published.
    pub fn flush_begin(&mut self, counters: &mut EngineCounters, probe: Option<QueryPool>) -> (plan:
        Option<FlushPlan>)
        requires
            old(self).wf(),
            old(self).encoder.open_batch is Some ==> {
                &&& old(self).encoder.open_pass matches Some(open) ==> open.cb == old(
                    self,
                ).encoder.open_batch->0.cb
                &&& old(self).encoder.open_pass is None ==> old(
                    self,
                ).encoder.pass_open_index is None
                &&& old(self).encoder.pass_open_index matches Some(index) ==> index < u32::MAX
                &&& probe is Some && old(self).encoder.cur_slot().span == SlotSpan::Armed(
                    SpanKind::Other,
                ) ==> old(self).encoder.open_batch->0.draws == 0
            },
        ensures
            final(self).wf(),
            final(self).shared == old(self).shared,
            final(self).encoder.open_batch is None,
            match old(self).encoder.open_batch {
                None => plan is None && *final(self) == *old(self) && *final(counters) == *old(
                    counters,
                ),
                Some(batch) => {
                    let stamp = match (
                        old(self).encoder.pass_probe,
                        old(self).encoder.pass_open_index,
                    ) {
                        (Some(pool), Some(index)) => Some(
                            PassStamp { pool, slot: old(self).encoder.cur, index },
                        ),
                        _ => None,
                    };
                    let slot = old(self).encoder.cur_slot();
                    let timed = old(self).encoder.open_pass is Some && stamp is Some;
                    &&& plan is Some
                    &&& plan->0 == (FlushPlan {
                        cb: batch.cb,
                        fence: batch.fence,
                        stamp_recording: batch.stamp_recording,
                        draws: batch.draws,
                        dsets: batch.dsets,
                        pass_end: match old(self).encoder.open_pass {
                            Some(_) => Some(PassEnd { cb: batch.cb, stamp }),
                            None => None,
                        },
                        stamp_span: probe is Some && slot.span is Armed,
                    })
                    &&& *final(counters) == (EngineCounters {
                        batch_flushes: counted(old(counters).batch_flushes, 1),
                        batch_flush_draws: counted(old(counters).batch_flush_draws, batch.draws),
                        ..*old(counters)
                    })
                    &&& final(self).encoder == (EncoderPools {
                        open_batch: None,
                        open_pass: None,
                        pass_open_index: None,
                        last_pass: None,
                        cb_graphics: final(self).encoder.cb_graphics,
                        cb_guest_visibility: CbGuestVisibility::nothing(),
                        slots: final(self).encoder.slots,
                        ..old(self).encoder
                    })
                    &&& final(self).encoder.cb_graphics@ == GraphicsView::nothing(None)
                    &&& final(self).encoder.slots@ == old(self).encoder.slots@.update(
                        old(self).encoder.cur as int,
                        (CmdSlot {
                            pass_spans: if timed {
                                (stamp->0.index + 1) as u32
                            } else {
                                slot.pass_spans
                            },
                            span: match slot.span {
                                SlotSpan::Armed(kind) if probe is Some => SlotSpan::Sealed {
                                    kind,
                                    draws: batch.draws,
                                },
                                other => other,
                            },
                            ..slot
                        }),
                    )
                },
            },
    {
        let mut open: Option<OpenBatch> = None;
        std::mem::swap(&mut open, &mut self.encoder.open_batch);
        let batch: OpenBatch = match open {
            Some(batch) => batch,
            None => return None,
        };
        let ghost at = self.encoder.cur as int;
        let pass_end = self.encoder.close_open_pass(batch.cb);
        self.encoder.forget_pass_echo();
        count(&mut counters.batch_flushes, 1);
        count(&mut counters.batch_flush_draws, batch.draws);
        let slot: usize = self.encoder.cur;
        let stamp_span = self.encoder.gpu_span_seal(probe, slot, batch.draws);
        proof {
            assert(self.encoder.slots@ =~= old(self).encoder.slots@.update(
                at,
                self.encoder.slots@[at],
            ));
            crate::pools::resource::lemma_points_by_slot(
                old(self).encoder,
                self.encoder,
                at,
                self.shared.retirement@,
            );
        }
        Some(
            FlushPlan {
                cb: batch.cb,
                fence: batch.fence,
                stamp_recording: batch.stamp_recording,
                draws: batch.draws,
                dsets: batch.dsets,
                pass_end,
                stamp_span,
            },
        )
    }

    /// The driver answered the call that ends the batch's command buffer. What
    /// it holds becomes one package, staged on its slot for the queue. Where the
    /// driver refused, the package goes back, and the cache with it: images that
    /// the batch was to fill stand in it.
    pub fn flush_ended(&mut self, dsets: Vec<DescriptorRef>, end: Result<(), VkResult>) -> (ended:
        Result<(), FlushFailure>)
        requires
            old(self).wf(),
            old(self).encoder.recording is Some,
            old(self).encoder.open_batch is None,
        ensures
            final(self).wf(),
            final(self).encoder.recording is None,
            match end {
                Ok(_) => {
                    &&& ended is Ok
                    &&& final(self).shared == old(self).shared
                    &&& final(self).encoder.has_slot()
                    &&& final(self).encoder.cur_slot().submission is SealedWaitingCommit
                    &&& seals(
                        old(self).encoder,
                        dsets,
                        seq![],
                        final(self).encoder.cur_slot().submission->SealedWaitingCommit_0,
                    )
                    &&& holds_nothing_live(final(self).encoder)
                    &&& same_but_live(
                        old(self).encoder,
                        (EncoderPools { slots: old(self).encoder.slots, ..final(self).encoder }),
                    )
                    &&& final(self).encoder.slots@ == old(self).encoder.slots@.update(
                        old(self).encoder.cur as int,
                        (CmdSlot {
                            submission: final(self).encoder.cur_slot().submission,
                            ..old(self).encoder.cur_slot()
                        }),
                    )
                },
                Err(result) => {
                    &&& ended is Err
                    &&& ended->Err_0.error == call_failed(VkOp::PoolsEndCbBatch, result)
                    &&& exists|sealed: SealedEntry, rest: EncoderPools|
                        #![trigger sealed_off(old(self).encoder, rest, dsets, sealed)]
                        sealed_off(old(self).encoder, rest, dsets, sealed) && flush_failed(
                            (ResourcePools { encoder: rest, shared: old(self).shared }),
                            *final(self),
                            old(self).encoder.cur as int,
                            sealed,
                            ended->Err_0,
                        )
                },
            },
    {
        let ghost before = self.encoder;
        let slot: usize = self.encoder.cur;
        let sealed = self.encoder.seal_entry(dsets, Vec::new());
        proof {
            lemma_recording_let_go(before, self.encoder, self.shared.retirement@);
        }
        match end {
            Err(result) => {
                let ghost whole = *self;
                let forgotten = sealed.forgotten;
                let released = self.abort_sealed_entry(slot, sealed);
                let ghost apart = *self;
                let destroy = self.discard_sampled_cache();
                let failure = FlushFailure {
                    error: DrawError::VkCall(VkCall::new(VkOp::PoolsEndCbBatch, result)),
                    released,
                    destroy,
                    forgotten,
                };
                proof {
                    assert(taken_apart(whole, apart, slot as int, sealed, failure.released));
                    assert(flush_failed(whole, *self, slot as int, sealed, failure));
                    assert(sealed_off(before, whole.encoder, dsets, sealed));
                }
                Err(failure)
            },
            Ok(()) => {
                let ghost middle = self.encoder;
                let ghost point = sealed.recording@;
                self.encoder.stage_sealed_entry(sealed);
                proof {
                    lemma_slot_taken_up(
                        middle,
                        self.encoder,
                        slot as int,
                        point,
                        self.shared.retirement@,
                    );
                }
                Ok(())
            },
        }
    }

    /// The queue answered the batch that was staged. What it took is parked on
    /// its slot with `receipt`, and the images it fills are offered to the cache;
    /// what it refused goes back, and the cache with it.
    pub fn flush_submitted(
        &mut self,
        submit: Result<Option<PendingQueueSubmit>, DrawError>,
        live: &LiveOwners,
    ) -> (flushed: Result<Vec<Admission>, FlushFailure>)
        requires
            old(self).wf(),
            old(self).encoder.recording is None,
            old(self).encoder.has_slot(),
            old(self).encoder.cur_slot().submission is SealedWaitingCommit,
        ensures
            final(self).wf(),
            ({
                let slot = old(self).encoder.cur_slot();
                let sealed = slot.submission->SealedWaitingCommit_0;
                match submit {
                    Ok(receipt) => {
                        let after = final(self).encoder.cur_slot();
                        let (cached, declined) = offered_all(
                            old(self).shared.sampled_cache@,
                            sealed.admissions@,
                            *live,
                            old(self).shared.idle_clock_ms,
                        );
                        &&& flushed matches Ok(outcomes) && outcomes@ == admitted_all(
                            old(self).shared.sampled_cache@,
                            sealed.admissions@,
                            *live,
                            old(self).shared.idle_clock_ms,
                        )
                        &&& final(self).encoder == (EncoderPools {
                            slots: final(self).encoder.slots,
                            in_flight: (old(self).encoder.in_flight + 1) as usize,
                            sampled_live: final(self).encoder.sampled_live,
                            ..old(self).encoder
                        })
                        &&& after.retirement matches Some(point) && point@ == sealed.recording@
                        &&& after == (CmdSlot {
                            retirement: after.retirement,
                            pending: Some(sealed.cleanup),
                            submission: match receipt {
                                Some(receipt) => SlotSubmission::QueueOwned(receipt),
                                None => SlotSubmission::HostOwned,
                            },
                            ..slot
                        })
                        &&& final(self).encoder.slots@ == old(self).encoder.slots@.update(
                            old(self).encoder.cur as int,
                            after,
                        )
                        &&& final(self).shared == (SharedPools {
                            sampled_cache: final(self).shared.sampled_cache,
                            ..old(self).shared
                        })
                        &&& final(self).shared.sampled_cache@ == cached
                        &&& still_exact(
                            old(self).shared.sampled_cache,
                            final(self).shared.sampled_cache,
                        )
                        &&& final(self).encoder.sampled_live@ == old(self).encoder.sampled_live@
                            + declined
                    },
                    Err(error) => {
                        &&& flushed is Err
                        &&& flushed->Err_0.error == error
                        &&& exists|rest: EncoderPools|
                            #![trigger unstaged(old(self).encoder, rest)]
                            unstaged(old(self).encoder, rest) && flush_failed(
                                (ResourcePools { encoder: rest, shared: old(self).shared }),
                                *final(self),
                                old(self).encoder.cur as int,
                                sealed,
                                flushed->Err_0,
                            )
                        &&& recordable(final(self).encoder.cur_slot())
                    },
                }
            }),
    {
        let ghost before = self.encoder;
        let slot: usize = self.encoder.cur;
        assert(slot_wf(before.slots@[slot as int]));
        let commit = self.encoder.resolve_staged_commit(submit);
        proof {
            lemma_slot_let_go(before, self.encoder, slot as int, self.shared.retirement@);
        }
        match commit {
            SealedCommit::Accepted { sealed, committed } => {
                let outcomes = self.finish_entry_async(sealed, committed, live);
                assert(self.encoder.slots@ =~= before.slots@.update(
                    slot as int,
                    self.encoder.slots@[slot as int],
                ));
                Ok(outcomes)
            },
            SealedCommit::Rejected { sealed, error } => {
                let ghost whole = *self;
                let forgotten = sealed.forgotten;
                let released = self.abort_sealed_entry(slot, sealed);
                let ghost apart = *self;
                let destroy = self.discard_sampled_cache();
                let failure = FlushFailure { error, released, destroy, forgotten };
                proof {
                    assert(taken_apart(whole, apart, slot as int, sealed, failure.released));
                    assert(flush_failed(whole, *self, slot as int, sealed, failure));
                    assert(unstaged(before, whole.encoder));
                }
                Err(failure)
            },
        }
    }

    /// Let go of a submission whose batch was flushed, whatever came of it: it
    /// cannot be submitted again, and the next one must not be refused for it.
    pub fn close_submission(
        &mut self,
        identity: SubmissionIdentity,
        flushed: Result<(), DrawError>,
    ) -> (closed: Result<(), DrawError>)
        requires
            old(self).encoder.active_submission == Some(identity),
        ensures
            closed == flushed,
            final(self).shared == old(self).shared,
            final(self).encoder == (EncoderPools { active_submission: None, ..old(self).encoder }),
            old(self).wf() ==> final(self).wf(),
    {
        self.encoder.release_submission(identity);
        flushed
    }
}

/// An encoder that lets go of the recording under way: no one holds its point.
pub(crate) proof fn lemma_recording_let_go(before: EncoderPools, after: EncoderPools, order: Order)
    requires
        points_wf(before, order),
        before.recording is Some,
        after.slots == before.slots,
        after.recording is None,
    ensures
        points_wf(after, order),
        unheld(after, before.recording->0@),
        order.is_live(before.recording->0@ as int),
{
    let point = before.recording->0@;
    assert forall|i: int| 0 <= i < after.slots@.len() implies held_point(
        #[trigger] after.slots@[i],
    ) != Some(point) by {
        assert(held_point(before.slots@[i]) != Some(point));
    }
}

/// A point that was just issued is held by no one.
proof fn lemma_new_point(encoder: EncoderPools, before: Order, after: Order, point: u64)
    requires
        points_wf(encoder, before),
        encoder.recording is None,
        point == before.issued() + 1,
        after.issued() == point,
        after.is_live(point as int),
        forall|p: int| after.is_terminal(p) == before.is_terminal(p),
    ensures
        points_wf(encoder, after),
        unheld(encoder, point),
        forall|i: int|
            0 <= i < encoder.slots@.len() ==> held_point(#[trigger] encoder.slots@[i]) != Some(
                point,
            ),
{
    assert forall|i: int| 0 <= i < encoder.slots@.len() implies held_point(
        #[trigger] encoder.slots@[i],
    ) != Some(point) by {
        if held_point(encoder.slots@[i]) is Some {
            assert(before.is_live(held_point(encoder.slots@[i])->0 as int));
        }
    }
    assert forall|i: int| 0 <= i < encoder.slots@.len() implies (held_point(
        #[trigger] encoder.slots@[i],
    ) matches Some(held) ==> after.is_live(held as int)) by {
        if held_point(encoder.slots@[i]) is Some {
            assert(before.is_live(held_point(encoder.slots@[i])->0 as int));
        }
    }
}

/// The ring is gone round slot by slot: a step stays in it, the step of its whole
/// length comes back, and two places less than a round apart differ.
pub proof fn law_the_ring_is_gone_round(cur: int, step: int, other: int, len: int)
    requires
        0 <= cur < len,
        0 <= step,
        0 <= other,
    ensures
        0 <= ring_place(cur, step, len) < len,
        ring_place(cur, 0, len) == cur,
        ring_place(cur, len, len) == cur,
        cur + step < len ==> ring_place(cur, step, len) == cur + step,
        len <= cur + step < 2 * len ==> ring_place(cur, step, len) == cur + step - len,
        step < len && other < len && step != other ==> ring_place(cur, step, len) != ring_place(
            cur,
            other,
            len,
        ),
{
    vstd::arithmetic::div_mod::lemma_mod_bound(cur + step, len);
    vstd::arithmetic::div_mod::lemma_small_mod(cur as nat, len as nat);
    lemma_ring_wraps(cur, step, len);
    lemma_ring_wraps(cur, other, len);
    lemma_ring_wraps(cur, len, len);
}

proof fn lemma_ring_wraps(cur: int, step: int, len: int)
    requires
        0 <= cur < len,
        0 <= step,
    ensures
        cur + step < len ==> (cur + step) % len == cur + step,
        len <= cur + step < 2 * len ==> (cur + step) % len == cur + step - len,
{
    if cur + step < len {
        vstd::arithmetic::div_mod::lemma_small_mod((cur + step) as nat, len as nat);
    } else if cur + step < 2 * len {
        vstd::arithmetic::div_mod::lemma_mod_sub_multiples_vanish(cur + step, len);
        vstd::arithmetic::div_mod::lemma_small_mod((cur + step - len) as nat, len as nat);
    }
}

/// Beginning to claim a slot gives the recording under way up: its point is over,
/// and nothing is known of its command buffer. The ring stays as it is.
pub proof fn law_a_started_entry_forgets_the_last_recording(
    before: ResourcePools,
    after: ResourcePools,
    destroy: Seq<DeferredHandle>,
)
    requires
        entry_started(before, after, destroy),
    ensures
        after.encoder.recording is None,
        after.encoder.last_pass is None,
        after.encoder.slots == before.encoder.slots,
        after.encoder.cur == before.encoder.cur,
        after.encoder.in_flight == before.encoder.in_flight,
        after.encoder.open_batch == before.encoder.open_batch,
        after.encoder.staging_live == before.encoder.staging_live,
        after.encoder.cb_guest_visibility.cb is None,
        !after.encoder.cb_guest_visibility.host_visible,
        !after.encoder.cb_guest_visibility.gpu_write_since_barrier,
        after.encoder.cb_graphics.pipeline is None,
        after.encoder.cb_graphics.cb is None,
        after.encoder.cb_graphics.vertex_bindings@.len() == 0,
        after.shared.retirement@.issued() == before.shared.retirement@.issued(),
        before.encoder.recording matches Some(lease) ==> after.shared.retirement@.is_terminal(
            lease@ as int,
        ),
        forall|p: int|
            before.shared.retirement@.is_terminal(p) ==> #[trigger] after.shared.retirement@.is_terminal(p),
        after.shared.targets == before.shared.targets,
        after.shared.sampled_cache == before.shared.sampled_cache,
{
    if let Some(lease) = before.encoder.recording {
        let p = lease@ as int;
        assert(forall|q: int|
            after.shared.retirement@.is_terminal(q) == (before.shared.retirement@.is_terminal(q)
                || (before.encoder.recording matches Some(held) && q == held@)));
        assert(after.shared.retirement@.is_terminal(p) == (before.shared.retirement@.is_terminal(p)
            || (before.encoder.recording matches Some(held) && p == held@)));
    }
    assert(after.encoder.cb_graphics@.pipeline is None);
    assert(after.encoder.cb_graphics@.cb is None);
    assert(after.encoder.cb_graphics@.vertex_bindings.len() == 0);
}

/// A claimed slot is the one asked for: its command buffer and fence are given out,
/// and a recording begins there at the next point. Where no point is left nothing is
/// recorded.
pub proof fn law_a_claimed_slot_begins_the_next_recording(
    before: ResourcePools,
    after: ResourcePools,
    next: usize,
    claimed: Result<(CommandBuffer, Fence), DrawError>,
)
    requires
        slot_claimed(before, after, next, claimed),
    ensures
        claimed is Ok <==> before.shared.retirement@.issued() < u64::MAX,
        after.encoder.cur == next,
        after.encoder.slots == before.encoder.slots,
        after.encoder.in_flight == before.encoder.in_flight,
        after.shared.graveyard == before.shared.graveyard,
        after.shared.retirement@.prefix() == before.shared.retirement@.prefix(),
        claimed matches Ok(given) ==> {
            &&& given.0 == before.encoder.slots@[next as int].cmd_buf
            &&& given.1 == before.encoder.slots@[next as int].fence
            &&& after.encoder.recording matches Some(lease) && lease@
                == before.shared.retirement@.issued() + 1
            &&& after.shared.retirement@.issued() == before.shared.retirement@.issued() + 1
        },
        claimed matches Err(error) ==> error is RecordingSequenceExhausted
            && after.encoder.recording == before.encoder.recording && after.shared == before.shared,
{
}

/// A slot that hands its package back is the host's again, and the others stay.
pub proof fn law_an_unstaged_slot_is_the_hosts(before: EncoderPools, after: EncoderPools, other: int)
    requires
        before.has_slot(),
        unstaged(before, after),
    ensures
        after.slots@.len() == before.slots@.len(),
        after.slots@[before.cur as int].submission is HostOwned,
        after.slots@[before.cur as int].pending == before.slots@[before.cur as int].pending,
        after.slots@[before.cur as int].cmd_buf == before.slots@[before.cur as int].cmd_buf,
        after.slots@[before.cur as int].fence == before.slots@[before.cur as int].fence,
        0 <= other < before.slots@.len() && other != before.cur ==> after.slots@[other]
            == before.slots@[other],
        after.cur == before.cur,
        after.in_flight == before.in_flight,
{
}

/// Giving an entry up ends the point it was recorded under and no other, and gives back what
/// was waiting for nothing but that.
pub proof fn law_an_abandoned_entry_ends_its_own_point(
    before: ResourcePools,
    after: SharedPools,
    destroy: Seq<DeferredHandle>,
    p: int,
)
    requires
        abandoned(before, after, destroy),
    ensures
        after.retirement@.issued() == before.shared.retirement@.issued(),
        before.shared.retirement@.is_terminal(p) ==> after.retirement@.is_terminal(p),
        before.encoder.recording is None ==> (after.retirement@.is_terminal(p)
            <==> before.shared.retirement@.is_terminal(p)),
        before.encoder.recording matches Some(lease) ==> {
            &&& after.retirement@.is_terminal(lease@ as int)
            &&& p != lease@ ==> (after.retirement@.is_terminal(p)
                <==> before.shared.retirement@.is_terminal(p))
        },
        after.graveyard@ == waiting(before.shared.graveyard@, after.retirement@.prefix()),
        destroy == destroyed_in(ready(before.shared.graveyard@, after.retirement@.prefix())),
        after.sampled_free.entries() == before.shared.sampled_free.entries() + sampled_in(
            ready(before.shared.graveyard@, after.retirement@.prefix()),
        ),
        after.target_free.entries() == before.shared.target_free.entries() + targets_in(
            ready(before.shared.graveyard@, after.retirement@.prefix()),
        ),
        after.targets == before.shared.targets,
        after.registry == before.shared.registry,
        after.sampled_cache == before.shared.sampled_cache,
        after.storage_image_free == before.shared.storage_image_free,
        after.attachment_snapshot_free == before.shared.attachment_snapshot_free,
{
    assert(forall|q: int|
        after.retirement@.is_terminal(q) == (before.shared.retirement@.is_terminal(q)
            || (before.encoder.recording matches Some(lease) && q == lease@)));
    if let Some(lease) = before.encoder.recording {
        assert(after.retirement@.is_terminal(lease@ as int));
    }
}

/// An entry that is sealed off takes everything live with it, once, and leaves the encoder
/// ready for the next recording.
pub proof fn law_a_sealed_entry_takes_everything_live(
    before: EncoderPools,
    after: EncoderPools,
    dsets: Vec<DescriptorRef>,
    sealed: SealedEntry,
)
    requires
        sealed_off(before, after, dsets, sealed),
    ensures
        before.recording == Some(sealed.recording),
        after.recording is None,
        sealed.cleanup.encoder.dsets == dsets,
        sealed.cleanup.encoder.staging == before.staging_live,
        after.staging_live@.len() == 0,
        sealed.cleanup.encoder.gather == before.gather_live,
        after.gather_live@.len() == 0,
        sealed.cleanup.encoder.scatter_dsets == before.scatter_dsets,
        after.scatter_dsets@.len() == 0,
        sealed.cleanup.shared.attachment_snapshots == before.attachment_snapshot_live,
        after.attachment_snapshot_live@.len() == 0,
        sealed.cleanup.shared.storage_images == before.storage_image_live,
        after.storage_image_live@.len() == 0,
        sealed.cleanup.shared.unpin_residents == before.resident_pins_live,
        after.resident_pins_live@.len() == 0,
        sealed.cleanup.shared.unpin_compute_residents == before.compute_write_pins_live,
        after.compute_write_pins_live@.len() == 0,
        sealed.cleanup.shared.sampled@ == before.sampled_live@,
        sealed.admissions@.len() == 0,
        after.sampled_live@.len() == 0,
        after.guest_write_tokens_live@.dom() == Set::<Set<u64>>::empty(),
        after.cb_gather_owed@.len() == 0,
        after.readback_live is None,
        after.readback_multi_live@.len() == 0,
        after.slots == before.slots,
        after.cur == before.cur,
        after.in_flight == before.in_flight,
        after.open_batch == before.open_batch,
        after.staging_free == before.staging_free,
        after.readback_leased == before.readback_leased,
{
    reveal_with_fuel(lifted, 1);
}

/// Where a flush fails, what the entry held goes back and the cache is emptied behind it; the
/// encoder keeps nothing of the entry but its slot.
pub proof fn law_a_failed_flush_gives_everything_back(
    before: ResourcePools,
    after: ResourcePools,
    slot: int,
    sealed: SealedEntry,
    failure: FlushFailure,
)
    requires
        flush_failed(before, after, slot, sealed, failure),
    ensures
        failure.forgotten == sealed.forgotten,
        failure.released.tokens == sealed.cleanup.visibility.guest_write_tokens,
        failure.released.unpin_residents == sealed.cleanup.shared.unpin_residents,
        failure.released.unpin_compute_residents == sealed.cleanup.shared.unpin_compute_residents,
        failure.released.free_sets == sealed.cleanup.encoder.dsets,
        after.shared.sampled_cache@.len() == 0,
        after.encoder.scatter_dset_free@ == before.encoder.scatter_dset_free@
            + sealed.cleanup.encoder.scatter_dsets@,
        after.encoder.recording == before.encoder.recording,
        0 <= slot < before.encoder.slots@.len() ==> after.encoder.slots@.len()
            == before.encoder.slots@.len(),
        0 <= slot < before.encoder.slots@.len() ==> after.encoder.slots@[slot] == (CmdSlot {
            span: SlotSpan::Idle,
            readback_span_armed: false,
            pass_spans: 0,
            ..before.encoder.slots@[slot]
        }),
{
}

} // verus!
