//! Going round the ring: taking slots back and claiming the next one, one
//! answer of the driver at a time.

use crate::pools::batch::{entry_started, ring_place, slot_claimed};
use crate::pools::encoder::{recordable, slot_wf, EncoderPools};
use crate::pools::entry::submit_return;
use crate::pools::fence::{
    counted, fence_wait, wait_counted, wait_error, wait_failure, EngineCounters, FenceTurn,
    FenceWait, FenceWaiter,
};
use crate::pools::making::call_failed;
use crate::pools::resource::{lemma_points_by_slot, slot_retired, ResourcePools, RetiredSlot};
use crate::pools::shared::graveyard_released;
use crate::pools::slots::{CmdSlot, DeferredHandle, SlotSubmission};
use crate::queue_owner::{receipt_outcome, ReceiptState};
use crate::types::{DeviceLostOp, DrawError, VkCall, VkOp};
use crate::vk::{CommandBuffer, Fence, VkResult};
use vstd::prelude::*;

verus! {

/// What the device times.
#[derive(Clone, Copy, Debug)]
pub struct Timing {
    /// Whether command buffers are timed.
    pub timed: bool,
    /// Whether copies to the host are timed.
    pub readback_timed: bool,
}

/// How far a slot is taken back.
#[derive(Clone, Copy, Debug, PartialEq, Eq, Structural)]
pub enum RetireStage {
    /// Nothing was done.
    Start,
    /// The driver's return from the submission is awaited.
    Receipt,
    /// Whether the queue has failed is asked.
    Queue {
        /// The fence was reported late.
        reported: bool,
    },
    /// The fence is awaited.
    Fence {
        /// The fence was reported late.
        reported: bool,
    },
    /// The fence is reset.
    Reset,
    /// The slot is the host's again, or it could not be taken back.
    Over,
}

/// What came of the last action.
#[derive(Clone, Copy, Debug)]
pub enum RetireEvent {
    /// There was none.
    Nothing,
    /// What the slot's receipt gave, where the queue owned the slot. Nothing
    /// means that the queue's owner is gone.
    Receipt(Option<Result<(), VkResult>>),
    /// The queue's first failure.
    Queue(Option<VkResult>),
    /// How the wait for the fence ended.
    Waited(Result<(), VkResult>),
    /// How resetting the fence ended.
    Reset(Result<(), VkResult>),
}

/// What is to be done next.
#[derive(Debug)]
pub enum RetireAction {
    /// Wait for the slot's receipt, where the queue owns the slot.
    Receive,
    /// Look whether the queue has failed.
    AskQueue {
        /// Report first that the fence is late.
        late: bool,
    },
    /// Wait for the fence.
    Wait(Fence),
    /// Reset the fence.
    Reset(Fence),
    /// Nothing: the slot is the host's. What it held is given back, where it
    /// was submitted.
    Retired(Option<RetiredSlot>),
    /// Nothing: the slot stays as it is.
    Fail(DrawError),
}

/// The event is the one that the stage awaits.
pub open spec fn retire_awaits(stage: RetireStage, event: RetireEvent) -> bool {
    match stage {
        RetireStage::Start => event is Nothing,
        RetireStage::Receipt => event is Receipt,
        RetireStage::Queue { .. } => event is Queue,
        RetireStage::Fence { .. } => event is Waited,
        RetireStage::Reset => event is Reset,
        RetireStage::Over => false,
    }
}

/// What holds of the slot `index` when `stage` is reached.
pub open spec fn retire_reached(pools: ResourcePools, index: int, stage: RetireStage) -> bool {
    let slot = pools.encoder.slots@[index];
    &&& pools.wf()
    &&& 0 <= index < pools.encoder.slots@.len()
    &&& !(stage is Start) && !(stage is Over) ==> slot.pending is Some
    &&& stage is Queue || stage is Fence || stage is Reset ==> slot.submission is HostOwned
}

/// The counters after the queue's failure was asked for.
pub open spec fn queue_counted(counters: EngineCounters, queue: Option<VkResult>) -> EngineCounters {
    match queue {
        Some(error) => wait_counted(counters, error),
        None => counters,
    }
}

/// The counters after a wait for a fence.
pub open spec fn fence_counted(
    counters: EngineCounters,
    waited: Result<(), VkResult>,
) -> EngineCounters {
    if fence_wait(waited) is Pending {
        EngineCounters { fence_timeouts: counted(counters.fence_timeouts, 1), ..counters }
    } else {
        counters
    }
}

/// The pools after the receipt of the slot `index` was taken.
pub open spec fn receipt_kept(
    before: ResourcePools,
    after: ResourcePools,
    index: int,
    returned: Result<(), VkResult>,
) -> bool {
    &&& after.shared == before.shared
    &&& after.encoder == (EncoderPools { slots: after.encoder.slots, ..before.encoder })
    &&& after.encoder.slots@ == before.encoder.slots@.update(
        index,
        (CmdSlot {
            submission: match returned {
                Ok(_) => SlotSubmission::HostOwned,
                Err(error) => SlotSubmission::Failed(error),
            },
            ..before.encoder.slots@[index]
        }),
    )
}

/// The counters after the receipt of a slot was taken.
pub open spec fn receipt_counted(
    counters: EngineCounters,
    returned: Result<(), VkResult>,
) -> EngineCounters {
    match returned {
        Ok(_) => counters,
        Err(error) => wait_counted(counters, error),
    }
}

/// One step of taking the slot `index` back.
pub open spec fn retire_step(
    before: (ResourcePools, EngineCounters),
    after: (ResourcePools, EngineCounters),
    index: int,
    stage: RetireStage,
    event: RetireEvent,
    timing: Timing,
    step: (RetireStage, RetireAction),
) -> bool {
    let slot = before.0.encoder.slots@[index];
    match (stage, event) {
        (RetireStage::Start, _) => {
            &&& after == before
            &&& step == if slot.pending is Some {
                (RetireStage::Receipt, RetireAction::Receive)
            } else {
                (RetireStage::Over, RetireAction::Retired(None))
            }
        },
        (RetireStage::Receipt, RetireEvent::Receipt(received)) => {
            let returned = submit_return(slot.submission, received);
            &&& receipt_kept(before.0, after.0, index, returned)
            &&& after.1 == receipt_counted(before.1, returned)
            &&& step == match returned {
                Ok(_) => (
                    RetireStage::Queue { reported: false },
                    RetireAction::AskQueue { late: false },
                ),
                Err(error) => (
                    RetireStage::Over,
                    RetireAction::Fail(wait_failure(error, DeviceLostOp::PoolsWaitFencesRetire)),
                ),
            }
        },
        (RetireStage::Queue { reported }, RetireEvent::Queue(queue)) => {
            &&& after.0 == before.0
            &&& after.1 == queue_counted(before.1, queue)
            &&& step == match queue {
                Some(error) => (
                    RetireStage::Over,
                    RetireAction::Fail(wait_failure(error, DeviceLostOp::PoolsWaitFencesRetire)),
                ),
                None => (RetireStage::Fence { reported }, RetireAction::Wait(slot.fence)),
            }
        },
        (RetireStage::Fence { reported }, RetireEvent::Waited(waited)) => {
            &&& after.0 == before.0
            &&& after.1 == fence_counted(before.1, waited)
            &&& step == match fence_wait(waited) {
                FenceWait::Signaled => (RetireStage::Reset, RetireAction::Reset(slot.fence)),
                FenceWait::Pending => (
                    RetireStage::Queue { reported: true },
                    RetireAction::AskQueue { late: !reported },
                ),
                FenceWait::Failed(error) => (
                    RetireStage::Over,
                    RetireAction::Fail(wait_failure(error, DeviceLostOp::PoolsWaitFencesRetire)),
                ),
            }
        },
        (RetireStage::Reset, RetireEvent::Reset(reset)) => {
            &&& after.1 == before.1
            &&& step.0 == RetireStage::Over
            &&& match reset {
                Ok(_) => step.1 matches RetireAction::Retired(Some(retired)) && slot_retired(
                    before.0,
                    after.0,
                    index,
                    timing.timed,
                    timing.readback_timed,
                    retired,
                ),
                Err(error) => step.1 == RetireAction::Fail(call_failed(VkOp::PoolsResetFencesRetire, error))
                    && after.0 == before.0,
            }
        },
        _ => false,
    }
}

impl ResourcePools {
    /// Take back the slot `index`, one step after the other: the driver returns
    /// from its submission, its fence signals and is reset, and what it held goes
    /// back. A slot that could not be taken back is tried again by whoever wants
    /// it next.
    pub fn retire_slot(
        &mut self,
        counters: &mut EngineCounters,
        index: usize,
        stage: RetireStage,
        event: RetireEvent,
        timing: Timing,
    ) -> (step: (RetireStage, RetireAction))
        requires
            retire_reached(*old(self), index as int, stage),
            retire_awaits(stage, event),
        ensures
            retire_reached(*final(self), index as int, step.0),
            retire_step(
                (*old(self), *old(counters)),
                (*final(self), *final(counters)),
                index as int,
                stage,
                event,
                timing,
                step,
            ),
    {
        match (stage, event) {
            (RetireStage::Start, _) => {
                if self.encoder.slots[index].pending.is_some() {
                    (RetireStage::Receipt, RetireAction::Receive)
                } else {
                    (RetireStage::Over, RetireAction::Retired(None))
                }
            },
            (RetireStage::Receipt, RetireEvent::Receipt(received)) => {
                match self.take_back(counters, index, received, DeviceLostOp::PoolsWaitFencesRetire) {
                    Ok(()) => (
                        RetireStage::Queue { reported: false },
                        RetireAction::AskQueue { late: false },
                    ),
                    Err(error) => (RetireStage::Over, RetireAction::Fail(error)),
                }
            },
            (RetireStage::Queue { reported }, RetireEvent::Queue(queue)) => {
                match queue {
                    Some(error) => (
                        RetireStage::Over,
                        RetireAction::Fail(wait_error(counters, error, DeviceLostOp::PoolsWaitFencesRetire)),
                    ),
                    None => (
                        RetireStage::Fence { reported },
                        RetireAction::Wait(self.encoder.slots[index].fence),
                    ),
                }
            },
            (RetireStage::Fence { reported }, RetireEvent::Waited(waited)) => {
                let mut waiter = FenceWaiter { reported };
                match waiter.waited(counters, waited, DeviceLostOp::PoolsWaitFencesRetire) {
                    FenceTurn::Signaled => (
                        RetireStage::Reset,
                        RetireAction::Reset(self.encoder.slots[index].fence),
                    ),
                    FenceTurn::WaitAgain { report } => (
                        RetireStage::Queue { reported: true },
                        RetireAction::AskQueue { late: report },
                    ),
                    FenceTurn::Failed(error) => (RetireStage::Over, RetireAction::Fail(error)),
                }
            },
            (RetireStage::Reset, RetireEvent::Reset(reset)) => {
                match reset {
                    Err(error) => (
                        RetireStage::Over,
                        RetireAction::Fail(DrawError::VkCall(VkCall::new(VkOp::PoolsResetFencesRetire, error))),
                    ),
                    Ok(()) => {
                        let retired = self.retire_signaled(index, timing.timed, timing.readback_timed);
                        (RetireStage::Over, RetireAction::Retired(retired))
                    },
                }
            },
            _ => (RetireStage::Over, RetireAction::Retired(None)),
        }
    }

    /// Take the receipt of a submitted slot.
    fn take_back(
        &mut self,
        counters: &mut EngineCounters,
        index: usize,
        received: Option<Result<(), VkResult>>,
        op: DeviceLostOp,
    ) -> (returned: Result<(), DrawError>)
        requires
            old(self).wf(),
            index < old(self).encoder.slots@.len(),
            old(self).encoder.slots@[index as int].pending is Some,
        ensures
            final(self).wf(),
            ({
                let outcome = submit_return(
                    old(self).encoder.slots@[index as int].submission,
                    received,
                );
                &&& receipt_kept(*old(self), *final(self), index as int, outcome)
                &&& *final(counters) == receipt_counted(*old(counters), outcome)
                &&& match outcome {
                    Ok(_) => returned is Ok,
                    Err(error) => returned == Err::<(), DrawError>(wait_failure(error, op)),
                }
            }),
    {
        let ghost before = self.encoder;
        assert(slot_wf(before.slots@[index as int]));
        let returned = self.encoder.await_submit_return(counters, index, received, op);
        proof {
            lemma_points_by_slot(before, self.encoder, index as int, self.shared.retirement@);
        }
        returned
    }
}

/// How far a slot is claimed.
#[derive(Clone, Copy, Debug, PartialEq, Eq, Structural)]
pub enum EntryStage {
    /// The batch was submitted, or that failed.
    Start,
    /// The slots up to `done` places on were looked at.
    Look {
        /// How many places.
        done: usize,
    },
    /// The receipt of a submitted slot is polled.
    Poll {
        /// How many places on it is.
        at: usize,
        /// Where it is.
        index: usize,
    },
    /// Whether its fence is signalled is asked.
    Status {
        /// How many places on it is.
        at: usize,
        /// Where it is.
        index: usize,
    },
    /// It is taken back.
    Reap {
        /// How many places on it is.
        at: usize,
        /// Where it is.
        index: usize,
        /// How far.
        retire: RetireStage,
    },
    /// The receipt of the slot to claim is awaited.
    Receipt {
        /// Where it is.
        next: usize,
    },
    /// Whether it still runs is asked.
    Running {
        /// Where it is.
        next: usize,
    },
    /// It is taken back.
    Retire {
        /// Where it is.
        next: usize,
        /// Whether it still ran.
        still_running: bool,
        /// How far.
        retire: RetireStage,
    },
    /// It is free.
    Claim {
        /// Where it is.
        next: usize,
        /// Whether it still ran.
        still_running: bool,
    },
    /// It is claimed, or it could not be.
    Over,
}

/// What came of the last action.
#[derive(Debug)]
pub enum EntryEvent {
    /// Whether the batch was submitted, where there was one.
    Flushed(Result<(), DrawError>),
    /// Nothing.
    Nothing,
    /// What a poll of the receipt found, where the queue owned the slot.
    Polled(ReceiptState),
    /// Whether the fence is signalled.
    Status(Result<bool, VkResult>),
    /// What the receipt gave, where the queue owned the slot.
    Received(Option<Result<(), VkResult>>),
    /// What came of an action on the way to taking a slot back.
    Retire(RetireEvent),
}

/// What is to be done next.
#[derive(Debug)]
pub enum EntryAction {
    /// Destroy these objects.
    Destroy(Vec<DeferredHandle>),
    /// Poll the receipt of this slot, where the queue owns it.
    Poll(usize),
    /// Ask whether this fence is signalled.
    AskStatus(Fence),
    /// Wait for the receipt of this slot, where the queue owns it.
    Receive(usize),
    /// This, to take this slot back.
    Retire(usize, RetireAction),
    /// Record into this command buffer, and submit it with this fence.
    Claimed(CommandBuffer, Fence),
    /// Nothing: there is no slot.
    Fail(DrawError),
}

/// A slot that owes nothing is the host's to record into.
pub open spec fn ring_ready(encoder: EncoderPools) -> bool {
    forall|i: int|
        0 <= i < encoder.slots@.len() ==> ((#[trigger] encoder.slots@[i]).pending is None
            ==> recordable(encoder.slots@[i]))
}

/// The event is the one that the stage awaits.
pub open spec fn entry_awaits(stage: EntryStage, event: EntryEvent) -> bool {
    match stage {
        EntryStage::Start => event is Flushed,
        EntryStage::Look { .. } => event is Nothing,
        EntryStage::Poll { .. } => event is Polled,
        EntryStage::Status { .. } => event is Status,
        EntryStage::Reap { retire, .. } => event matches EntryEvent::Retire(inner)
            && retire_awaits(retire, inner),
        EntryStage::Receipt { .. } => event is Received,
        EntryStage::Running { .. } => event is Status,
        EntryStage::Retire { retire, .. } => event matches EntryEvent::Retire(inner)
            && retire_awaits(retire, inner),
        EntryStage::Claim { .. } => event is Nothing,
        EntryStage::Over => false,
    }
}

/// `index` is `at` places on in the ring, and no further than once round.
pub open spec fn placed(encoder: EncoderPools, at: usize, index: usize) -> bool {
    let n = encoder.slots@.len() as int;
    &&& 1 <= at <= n
    &&& index == ring_place(encoder.cur as int, at as int, n)
    &&& index < n
}

/// The slot `at` places on is submitted.
pub open spec fn submitted_at(encoder: EncoderPools, at: int) -> bool {
    encoder.slots@[ring_place(encoder.cur as int, at, encoder.slots@.len() as int)].pending is Some
}

/// No slot less than `at` places on is submitted.
pub open spec fn none_older(encoder: EncoderPools, at: int) -> bool {
    forall|k: int| 1 <= k < at ==> !#[trigger] submitted_at(encoder, k)
}

/// What holds when `stage` is reached. A slot is taken back only once every
/// older one is.
pub open spec fn entry_reached(pools: ResourcePools, stage: EntryStage) -> bool {
    let encoder = pools.encoder;
    &&& pools.wf()
    &&& ring_ready(encoder)
    &&& encoder.has_slot()
    &&& !(stage is Start) && !(stage is Over) ==> encoder.recording is None
        && encoder.open_batch is None
    &&& match stage {
        EntryStage::Look { done } => none_older(encoder, done + 1),
        EntryStage::Poll { at, index } => placed(encoder, at, index) && none_older(
            encoder,
            at as int,
        ) && encoder.slots@[index as int].pending is Some,
        EntryStage::Status { at, index } => placed(encoder, at, index) && none_older(
            encoder,
            at as int,
        ) && encoder.slots@[index as int].pending is Some
            && encoder.slots@[index as int].submission is HostOwned,
        EntryStage::Reap { at, index, retire } => placed(encoder, at, index) && none_older(
            encoder,
            at as int,
        ) && retire_reached(pools, index as int, retire),
        EntryStage::Receipt { next } => placed(encoder, 1, next)
            && encoder.slots@[next as int].pending is Some,
        EntryStage::Running { next } => placed(encoder, 1, next)
            && encoder.slots@[next as int].pending is Some
            && encoder.slots@[next as int].submission is HostOwned,
        EntryStage::Retire { next, retire, .. } => placed(encoder, 1, next)
            && retire_reached(pools, next as int, retire),
        EntryStage::Claim { next, .. } => placed(encoder, 1, next)
            && encoder.slots@[next as int].pending is None,
        _ => true,
    }
}

/// What claiming the free slot `next` comes to.
pub open spec fn claim_outcome(
    before: ResourcePools,
    after: ResourcePools,
    next: usize,
    step: (EntryStage, EntryAction),
) -> bool {
    &&& step.0 == EntryStage::Over
    &&& match step.1 {
        EntryAction::Claimed(cb, fence) => slot_claimed(before, after, next, Ok((cb, fence))),
        EntryAction::Fail(error) => slot_claimed(before, after, next, Err(error)),
        _ => false,
    }
}

/// What comes once no more slots are reaped: the next slot is claimed, or taken
/// back first where it is submitted.
pub open spec fn moved_on(
    before: ResourcePools,
    after: ResourcePools,
    step: (EntryStage, EntryAction),
) -> bool {
    let encoder = before.encoder;
    let next = ring_place(encoder.cur as int, 1, encoder.slots@.len() as int) as usize;
    if submitted_at(encoder, 1) {
        after == before && step == (EntryStage::Receipt { next }, EntryAction::Receive(next))
    } else {
        claim_outcome(before, after, next, step)
    }
}

/// What looking past the first `done` places leads to: the first submitted slot
/// there is polled.
pub open spec fn looked(
    before: ResourcePools,
    after: ResourcePools,
    done: usize,
    step: (EntryStage, EntryAction),
) -> bool {
    let encoder = before.encoder;
    let n = encoder.slots@.len() as int;
    match step.0 {
        EntryStage::Poll { at, index } => {
            &&& done < at
            &&& placed(encoder, at, index)
            &&& submitted_at(encoder, at as int)
            &&& forall|k: int| done < k < at ==> !#[trigger] submitted_at(encoder, k)
            &&& step.1 == EntryAction::Poll(index)
            &&& after == before
        },
        _ => {
            &&& forall|k: int| done < k <= n ==> !#[trigger] submitted_at(encoder, k)
            &&& moved_on(before, after, step)
        },
    }
}

/// What a poll of the receipt of a slot tells.
pub open spec fn polled_return(submission: SlotSubmission, polled: ReceiptState) -> Option<
    Result<(), VkResult>,
> {
    match submission {
        SlotSubmission::HostOwned => Some(Ok(())),
        SlotSubmission::SealedWaitingCommit(_) => None,
        SlotSubmission::QueueOwned(_) => receipt_outcome(polled),
        SlotSubmission::Failed(error) => Some(Err(error)),
    }
}

/// What a step of taking a slot back comes to: `go_on` is the stage once it is
/// the host's, and `again` the stage while it is not.
pub open spec fn retire_passed(
    inner: (RetireStage, RetireAction),
    index: usize,
    go_on: EntryStage,
    again: EntryStage,
    step: (EntryStage, EntryAction),
) -> bool {
    match inner.1 {
        RetireAction::Fail(error) => step == (EntryStage::Over, EntryAction::Fail(error)),
        RetireAction::Retired(_) => step == (go_on, EntryAction::Retire(index, inner.1)),
        _ => step == (again, EntryAction::Retire(index, inner.1)),
    }
}

/// One step of claiming a slot.
pub open spec fn entry_step(
    before: (ResourcePools, EngineCounters),
    after: (ResourcePools, EngineCounters),
    stage: EntryStage,
    event: EntryEvent,
    timing: Timing,
    step: (EntryStage, EntryAction),
) -> bool {
    let slots = before.0.encoder.slots@;
    match (stage, event) {
        (EntryStage::Start, EntryEvent::Flushed(flushed)) => {
            &&& after.1 == before.1
            &&& match flushed {
                Err(error) => after.0 == before.0 && step == (
                    EntryStage::Over,
                    EntryAction::Fail(error),
                ),
                Ok(_) => step.0 == EntryStage::Look { done: 0 } && (step.1 matches EntryAction::Destroy(
                    destroy,
                ) && entry_started(before.0, after.0, destroy@)),
            }
        },
        (EntryStage::Look { done }, EntryEvent::Nothing) => after.1 == before.1 && looked(
            before.0,
            after.0,
            done,
            step,
        ),
        (EntryStage::Poll { at, index }, EntryEvent::Polled(polled)) => match polled_return(
            slots[index as int].submission,
            polled,
        ) {
            None => after.1 == before.1 && moved_on(before.0, after.0, step),
            Some(returned) => {
                &&& receipt_kept(before.0, after.0, index as int, returned)
                &&& after.1 == receipt_counted(before.1, returned)
                &&& step == match returned {
                    Ok(_) => (
                        EntryStage::Status { at, index },
                        EntryAction::AskStatus(slots[index as int].fence),
                    ),
                    Err(error) => (
                        EntryStage::Over,
                        EntryAction::Fail(wait_failure(error, DeviceLostOp::PoolsFenceStatusBeginEntry)),
                    ),
                }
            },
        },
        (EntryStage::Status { at, index }, EntryEvent::Status(status)) => match status {
            Err(error) => {
                &&& after.0 == before.0
                &&& after.1 == wait_counted(before.1, error)
                &&& step == (EntryStage::Over, EntryAction::Fail(wait_failure(error, DeviceLostOp::PoolsFenceStatusBeginEntry)))
            },
            Ok(signaled) => after.1 == before.1 && if signaled {
                after.0 == before.0 && step == (
                    EntryStage::Reap { at, index, retire: RetireStage::Receipt },
                    EntryAction::Retire(index, RetireAction::Receive),
                )
            } else {
                moved_on(before.0, after.0, step)
            },
        },
        (EntryStage::Reap { at, index, retire }, EntryEvent::Retire(event)) => exists|
            inner: (RetireStage, RetireAction),
        |
            #![trigger retire_step(before, after, index as int, retire, event, timing, inner)]
            retire_step(before, after, index as int, retire, event, timing, inner)
                && retire_passed(
                inner,
                index,
                EntryStage::Look { done: at },
                EntryStage::Reap { at, index, retire: inner.0 },
                step,
            ),
        (EntryStage::Receipt { next }, EntryEvent::Received(received)) => {
            let returned = submit_return(slots[next as int].submission, received);
            &&& receipt_kept(before.0, after.0, next as int, returned)
            &&& after.1 == receipt_counted(before.1, returned)
            &&& step == match returned {
                Ok(_) => (
                    EntryStage::Running { next },
                    EntryAction::AskStatus(slots[next as int].fence),
                ),
                Err(error) => (
                    EntryStage::Over,
                    EntryAction::Fail(wait_failure(error, DeviceLostOp::PoolsWaitFencesRetire)),
                ),
            }
        },
        (EntryStage::Running { next }, EntryEvent::Status(status)) => {
            &&& after.0 == before.0
            &&& match status {
                Err(error) => after.1 == wait_counted(before.1, error) && step == (
                    EntryStage::Over,
                    EntryAction::Fail(wait_failure(error, DeviceLostOp::PoolsFenceStatusBeginEntry)),
                ),
                Ok(signaled) => after.1 == before.1 && step == (
                    EntryStage::Retire {
                        next,
                        still_running: !signaled,
                        retire: RetireStage::Receipt,
                    },
                    EntryAction::Retire(next, RetireAction::Receive),
                ),
            }
        },
        (EntryStage::Retire { next, still_running, retire }, EntryEvent::Retire(event)) => exists|
            inner: (RetireStage, RetireAction),
        |
            #![trigger retire_step(before, after, next as int, retire, event, timing, inner)]
            retire_step(before, after, next as int, retire, event, timing, inner)
                && retire_passed(
                inner,
                next,
                EntryStage::Claim { next, still_running },
                EntryStage::Retire { next, still_running, retire: inner.0 },
                step,
            ),
        (EntryStage::Claim { next, still_running }, EntryEvent::Nothing) => {
            &&& after.1 == (EngineCounters {
                ring_retire_blocks: if still_running {
                    counted(before.1.ring_retire_blocks, 1)
                } else {
                    before.1.ring_retire_blocks
                },
                ..before.1
            })
            &&& claim_outcome(before.0, after.0, next, step)
        },
        _ => false,
    }
}

/// A ring of which one submitted slot changed hands is as ready as before.
proof fn lemma_ready_after_receipt(
    before: ResourcePools,
    after: ResourcePools,
    index: int,
    returned: Result<(), VkResult>,
)
    requires
        ring_ready(before.encoder),
        0 <= index < before.encoder.slots@.len(),
        before.encoder.slots@[index].pending is Some,
        receipt_kept(before, after, index, returned),
    ensures
        ring_ready(after.encoder),
        forall|at: int| none_older(before.encoder, at) ==> #[trigger] none_older(after.encoder, at),
{
    assert forall|at: int| none_older(before.encoder, at) implies #[trigger] none_older(
        after.encoder,
        at,
    ) by {
        lemma_none_older(before.encoder, after.encoder, at);
    }
    assert forall|i: int|
        0 <= i < after.encoder.slots@.len() && (
        #[trigger] after.encoder.slots@[i]).pending is None implies recordable(
        after.encoder.slots@[i],
    ) by {
        assert(i != index);
        assert(after.encoder.slots@[i] == before.encoder.slots@[i]);
    }
}

/// Slots that are given back leave no older slot submitted.
proof fn lemma_none_older(before: EncoderPools, after: EncoderPools, at: int)
    requires
        none_older(before, at),
        before.slots@.len() > 0,
        after.cur == before.cur,
        after.slots@.len() == before.slots@.len(),
        forall|i: int|
            0 <= i < after.slots@.len() ==> ((#[trigger] after.slots@[i]).pending is Some
                ==> before.slots@[i].pending is Some),
    ensures
        none_older(after, at),
{
    assert forall|k: int| 1 <= k < at implies !#[trigger] submitted_at(after, k) by {
        assert(!submitted_at(before, k));
        let i = ring_place(before.cur as int, k, before.slots@.len() as int);
        assert(0 <= i < before.slots@.len());
        assert(after.slots@[i].pending is Some ==> before.slots@[i].pending is Some);
    }
}

/// A ring of which one slot is being taken back is as ready as before.
proof fn lemma_ready_after_retire(
    before: (ResourcePools, EngineCounters),
    after: (ResourcePools, EngineCounters),
    index: int,
    stage: RetireStage,
    event: RetireEvent,
    timing: Timing,
    step: (RetireStage, RetireAction),
)
    requires
        ring_ready(before.0.encoder),
        retire_reached(before.0, index, stage),
        retire_reached(after.0, index, step.0),
        retire_awaits(stage, event),
        retire_step(before, after, index, stage, event, timing, step),
    ensures
        ring_ready(after.0.encoder),
        after.0.encoder.slots@.len() == before.0.encoder.slots@.len(),
        after.0.encoder.cur == before.0.encoder.cur,
        after.0.encoder.recording == before.0.encoder.recording,
        after.0.encoder.open_batch == before.0.encoder.open_batch,
        step.1 is Retired ==> after.0.encoder.slots@[index].pending is None,
        step.1 is Retired || step.1 is Fail <==> step.0 is Over,
        forall|at: int| none_older(before.0.encoder, at) ==> #[trigger] none_older(after.0.encoder, at),
{
    assert forall|i: int| 0 <= i < after.0.encoder.slots@.len() implies ((
    #[trigger] after.0.encoder.slots@[i]).pending is Some
        ==> before.0.encoder.slots@[i].pending is Some) by {}
    assert forall|at: int| none_older(before.0.encoder, at) implies #[trigger] none_older(
        after.0.encoder,
        at,
    ) by {
        lemma_none_older(before.0.encoder, after.0.encoder, at);
    }
    match (stage, event) {
        (RetireStage::Receipt, RetireEvent::Receipt(received)) => {
            lemma_ready_after_receipt(
                before.0,
                after.0,
                index,
                submit_return(before.0.encoder.slots@[index].submission, received),
            );
        },
        (RetireStage::Reset, RetireEvent::Reset(Ok(_))) => {
            assert forall|i: int|
                0 <= i < after.0.encoder.slots@.len() && (
                #[trigger] after.0.encoder.slots@[i]).pending is None implies recordable(
                after.0.encoder.slots@[i],
            ) by {
                if i != index {
                    assert(after.0.encoder.slots@[i] == before.0.encoder.slots@[i]);
                }
            }
        },
        _ => {},
    }
}

impl ResourcePools {
    /// Claim the slot `next`, which owes nothing.
    fn claim_free(&mut self, next: usize) -> (step: (EntryStage, EntryAction))
        requires
            old(self).wf(),
            ring_ready(old(self).encoder),
            old(self).encoder.recording is None,
            next < old(self).encoder.slots@.len(),
            old(self).encoder.slots@[next as int].pending is None,
        ensures
            final(self).wf(),
            claim_outcome(*old(self), *final(self), next, step),
            ring_ready(final(self).encoder),
            final(self).encoder.has_slot(),
    {
        assert(recordable(self.encoder.slots@[next as int]));
        match self.claim_slot(next) {
            Ok((cb, fence)) => (EntryStage::Over, EntryAction::Claimed(cb, fence)),
            Err(error) => (EntryStage::Over, EntryAction::Fail(error)),
        }
    }

    /// Go on to the next slot: reaping is over.
    fn move_on(&mut self) -> (step: (EntryStage, EntryAction))
        requires
            old(self).wf(),
            ring_ready(old(self).encoder),
            old(self).encoder.has_slot(),
            old(self).encoder.recording is None,
            old(self).encoder.open_batch is None,
        ensures
            entry_reached(*final(self), step.0),
            moved_on(*old(self), *final(self), step),
            !(step.0 is Poll),
    {
        let (next, submitted) = self.next_slot();
        if submitted {
            (EntryStage::Receipt { next }, EntryAction::Receive(next))
        } else {
            self.claim_free(next)
        }
    }

    /// Start a new entry: claim the next slot of the ring, one step after the
    /// other. The oldest slots whose fences have signalled are taken back first,
    /// and no slot is before an older one. Where the next slot is submitted
    /// still, that is waited out.
    pub fn begin_entry(
        &mut self,
        counters: &mut EngineCounters,
        stage: EntryStage,
        event: EntryEvent,
        timing: Timing,
    ) -> (step: (EntryStage, EntryAction))
        requires
            entry_reached(*old(self), stage),
            entry_awaits(stage, event),
            (event matches EntryEvent::Flushed(flushed) && flushed is Ok) ==> {
                &&& old(self).encoder.open_batch is None
                &&& old(self).encoder.open_pass is None
                &&& old(self).encoder.pass_open_index is None
            },
        ensures
            entry_reached(*final(self), step.0),
            entry_step(
                (*old(self), *old(counters)),
                (*final(self), *final(counters)),
                stage,
                event,
                timing,
                step,
            ),
    {
        match (stage, event) {
            (EntryStage::Start, EntryEvent::Flushed(flushed)) => {
                match flushed {
                    Err(error) => (EntryStage::Over, EntryAction::Fail(error)),
                    Ok(()) => {
                        let destroy = self.start_entry();
                        (EntryStage::Look { done: 0 }, EntryAction::Destroy(destroy))
                    },
                }
            },
            (EntryStage::Look { done }, EntryEvent::Nothing) => {
                let ghost before = *self;
                let n: usize = self.encoder.slots.len();
                if done < n {
                    if let Some((at, index)) = self.next_to_reap(done + 1) {
                        proof {
                            assert forall|k: int| done < k < at implies !#[trigger] submitted_at(
                                before.encoder,
                                k,
                            ) by {
                                assert(before.encoder.slots@[ring_place(
                                    before.encoder.cur as int,
                                    k,
                                    n as int,
                                )].pending is None);
                            }
                        }
                        assert(none_older(self.encoder, at as int));
                        return (EntryStage::Poll { at, index }, EntryAction::Poll(index));
                    }
                }
                proof {
                    assert forall|k: int| done < k <= n implies !#[trigger] submitted_at(
                        before.encoder,
                        k,
                    ) by {
                        assert(before.encoder.slots@[ring_place(
                            before.encoder.cur as int,
                            k,
                            n as int,
                        )].pending is None);
                    }
                }
                self.move_on()
            },
            (EntryStage::Poll { at, index }, EntryEvent::Polled(polled)) => {
                let ghost before = *self;
                assert(slot_wf(before.encoder.slots@[index as int]));
                let fence: Fence = self.encoder.slots[index].fence;
                let returned = self.encoder.try_take_submit_return(
                    counters,
                    index,
                    polled,
                );
                proof {
                    lemma_points_by_slot(
                        before.encoder,
                        self.encoder,
                        index as int,
                        self.shared.retirement@,
                    );
                }
                match returned {
                    Ok(true) => {
                        proof {
                            lemma_ready_after_receipt(before, *self, index as int, Ok(()));
                        }
                        (EntryStage::Status { at, index }, EntryAction::AskStatus(fence))
                    },
                    Ok(false) => self.move_on(),
                    Err(error) => {
                        proof {
                            let outcome = polled_return(
                                before.encoder.slots@[index as int].submission,
                                polled,
                            );
                            lemma_ready_after_receipt(before, *self, index as int, outcome->0);
                        }
                        (EntryStage::Over, EntryAction::Fail(error))
                    },
                }
            },
            (EntryStage::Status { at, index }, EntryEvent::Status(status)) => {
                match status {
                    Err(error) => (
                        EntryStage::Over,
                        EntryAction::Fail(wait_error(counters, error, DeviceLostOp::PoolsFenceStatusBeginEntry)),
                    ),
                    Ok(true) => (
                        EntryStage::Reap { at, index, retire: RetireStage::Receipt },
                        EntryAction::Retire(index, RetireAction::Receive),
                    ),
                    Ok(false) => self.move_on(),
                }
            },
            (EntryStage::Reap { at, index, retire }, EntryEvent::Retire(event)) => {
                let ghost before = (*self, *counters);
                let (to, action) = self.retire_slot(counters, index, retire, event, timing);
                proof {
                    lemma_ready_after_retire(
                        before,
                        (*self, *counters),
                        index as int,
                        retire,
                        event,
                        timing,
                        (to, action),
                    );
                    assert(retire_step(
                        before,
                        (*self, *counters),
                        index as int,
                        retire,
                        event,
                        timing,
                        (to, action),
                    ));
                }
                proof {
                    assert(none_older(self.encoder, at as int));
                    if action is Retired {
                        assert(!submitted_at(self.encoder, at as int));
                        assert(none_older(self.encoder, at + 1));
                    }
                }
                match action {
                    RetireAction::Fail(error) => (EntryStage::Over, EntryAction::Fail(error)),
                    RetireAction::Retired(retired) => (
                        EntryStage::Look { done: at },
                        EntryAction::Retire(index, RetireAction::Retired(retired)),
                    ),
                    other => (
                        EntryStage::Reap { at, index, retire: to },
                        EntryAction::Retire(index, other),
                    ),
                }
            },
            (EntryStage::Receipt { next }, EntryEvent::Received(received)) => {
                let ghost before = *self;
                let fence: Fence = self.encoder.slots[next].fence;
                let returned = self.take_back(counters, next, received, DeviceLostOp::PoolsWaitFencesRetire);
                proof {
                    lemma_ready_after_receipt(
                        before,
                        *self,
                        next as int,
                        submit_return(before.encoder.slots@[next as int].submission, received),
                    );
                }
                match returned {
                    Ok(()) => (EntryStage::Running { next }, EntryAction::AskStatus(fence)),
                    Err(error) => (EntryStage::Over, EntryAction::Fail(error)),
                }
            },
            (EntryStage::Running { next }, EntryEvent::Status(status)) => {
                match status {
                    Err(error) => (
                        EntryStage::Over,
                        EntryAction::Fail(wait_error(counters, error, DeviceLostOp::PoolsFenceStatusBeginEntry)),
                    ),
                    Ok(signaled) => (
                        EntryStage::Retire {
                            next,
                            still_running: !signaled,
                            retire: RetireStage::Receipt,
                        },
                        EntryAction::Retire(next, RetireAction::Receive),
                    ),
                }
            },
            (EntryStage::Retire { next, still_running, retire }, EntryEvent::Retire(event)) => {
                let ghost before = (*self, *counters);
                let (to, action) = self.retire_slot(counters, next, retire, event, timing);
                proof {
                    lemma_ready_after_retire(
                        before,
                        (*self, *counters),
                        next as int,
                        retire,
                        event,
                        timing,
                        (to, action),
                    );
                    assert(retire_step(
                        before,
                        (*self, *counters),
                        next as int,
                        retire,
                        event,
                        timing,
                        (to, action),
                    ));
                }
                match action {
                    RetireAction::Fail(error) => (EntryStage::Over, EntryAction::Fail(error)),
                    RetireAction::Retired(retired) => (
                        EntryStage::Claim { next, still_running },
                        EntryAction::Retire(next, RetireAction::Retired(retired)),
                    ),
                    other => (
                        EntryStage::Retire { next, still_running, retire: to },
                        EntryAction::Retire(next, other),
                    ),
                }
            },
            (EntryStage::Claim { next, still_running }, EntryEvent::Nothing) => {
                Self::note_ring_block(counters, still_running);
                self.claim_free(next)
            },
            _ => (EntryStage::Over, EntryAction::Poll(0)),
        }
    }
}

/// However far a slot is taken back on the way to a new entry, every older slot
/// was taken back before.
pub proof fn law_no_slot_is_taken_back_before_an_older_one(
    pools: ResourcePools,
    at: usize,
    index: usize,
    retire: RetireStage,
    k: int,
)
    requires
        entry_reached(pools, EntryStage::Reap { at, index, retire }),
        1 <= k < at,
    ensures
        !submitted_at(pools.encoder, k),
{
}

/// How far everything submitted is taken back.
#[derive(Clone, Copy, Debug, PartialEq, Eq, Structural)]
pub enum RetireAllStage {
    /// The batch was submitted, or that failed.
    Start,
    /// The slots before this one were taken back.
    Next {
        /// How many.
        done: usize,
    },
    /// This slot is taken back.
    Slot {
        /// Where it is.
        index: usize,
        /// How far.
        retire: RetireStage,
    },
    /// All are, or one could not be.
    Over,
}

/// What came of the last action.
#[derive(Debug)]
pub enum RetireAllEvent {
    /// Whether the batch was submitted, where there was one.
    Flushed(Result<(), DrawError>),
    /// Nothing.
    Nothing,
    /// What came of an action on the way to taking a slot back.
    Retire(RetireEvent),
}

/// What is to be done next.
#[derive(Debug)]
pub enum RetireAllAction {
    /// Nothing yet.
    Go,
    /// This, to take this slot back.
    Retire(usize, RetireAction),
    /// Destroy these objects: nothing is submitted.
    Done(Vec<DeferredHandle>),
    /// Nothing: a slot stays as it is.
    Fail(DrawError),
}

/// The event is the one that the stage awaits.
pub open spec fn retire_all_awaits(stage: RetireAllStage, event: RetireAllEvent) -> bool {
    match stage {
        RetireAllStage::Start => event is Flushed,
        RetireAllStage::Next { .. } => event is Nothing,
        RetireAllStage::Slot { retire, .. } => event matches RetireAllEvent::Retire(inner)
            && retire_awaits(retire, inner),
        RetireAllStage::Over => false,
    }
}

/// None of the first `done` slots is submitted.
pub open spec fn none_before(encoder: EncoderPools, done: int) -> bool {
    forall|i: int|
        0 <= i < done && i < encoder.slots@.len() ==> (#[trigger] encoder.slots@[i]).pending is None
}

/// What holds when `stage` is reached.
pub open spec fn retire_all_reached(pools: ResourcePools, stage: RetireAllStage) -> bool {
    &&& pools.wf()
    &&& match stage {
        RetireAllStage::Next { done } => done <= pools.encoder.slots@.len() && none_before(
            pools.encoder,
            done as int,
        ),
        RetireAllStage::Slot { index, retire } => retire_reached(pools, index as int, retire)
            && none_before(pools.encoder, index as int),
        _ => true,
    }
}

/// What a step of taking the slot `index` back comes to.
pub open spec fn retire_all_passed(
    inner: (RetireStage, RetireAction),
    index: usize,
    step: (RetireAllStage, RetireAllAction),
) -> bool {
    match inner.1 {
        RetireAction::Fail(error) => step == (RetireAllStage::Over, RetireAllAction::Fail(error)),
        RetireAction::Retired(_) => step == (
            RetireAllStage::Next { done: (index + 1) as usize },
            RetireAllAction::Retire(index, inner.1),
        ),
        _ => step == (
            RetireAllStage::Slot { index, retire: inner.0 },
            RetireAllAction::Retire(index, inner.1),
        ),
    }
}

/// One step of taking everything submitted back.
pub open spec fn retire_all_step(
    before: (ResourcePools, EngineCounters),
    after: (ResourcePools, EngineCounters),
    stage: RetireAllStage,
    event: RetireAllEvent,
    timing: Timing,
    step: (RetireAllStage, RetireAllAction),
) -> bool {
    match (stage, event) {
        (RetireAllStage::Start, RetireAllEvent::Flushed(flushed)) => {
            &&& after == before
            &&& step == match flushed {
                Ok(_) => (RetireAllStage::Next { done: 0 }, RetireAllAction::Go),
                Err(error) => (RetireAllStage::Over, RetireAllAction::Fail(error)),
            }
        },
        (RetireAllStage::Next { done }, RetireAllEvent::Nothing) => if done
            < before.0.encoder.slots@.len() {
            after == before && retire_all_passed(
                if before.0.encoder.slots@[done as int].pending is Some {
                    (RetireStage::Receipt, RetireAction::Receive)
                } else {
                    (RetireStage::Over, RetireAction::Retired(None))
                },
                done,
                step,
            )
        } else {
            &&& after.1 == before.1
            &&& after.0.encoder == before.0.encoder
            &&& step.0 == RetireAllStage::Over
            &&& step.1 matches RetireAllAction::Done(destroy) && graveyard_released(
                before.0.shared,
                after.0.shared,
                destroy@,
            )
        },
        (RetireAllStage::Slot { index, retire }, RetireAllEvent::Retire(event)) => exists|
            inner: (RetireStage, RetireAction),
        |
            #![trigger retire_step(before, after, index as int, retire, event, timing, inner)]
            retire_step(before, after, index as int, retire, event, timing, inner)
                && retire_all_passed(inner, index, step),
        _ => false,
    }
}

impl ResourcePools {
    /// Wait for everything submitted and take it back, one step after the other.
    /// The batch was submitted before. What waited for that leaves the graveyard.
    pub fn retire_all(
        &mut self,
        counters: &mut EngineCounters,
        stage: RetireAllStage,
        event: RetireAllEvent,
        timing: Timing,
    ) -> (step: (RetireAllStage, RetireAllAction))
        requires
            retire_all_reached(*old(self), stage),
            retire_all_awaits(stage, event),
        ensures
            retire_all_reached(*final(self), step.0),
            retire_all_step(
                (*old(self), *old(counters)),
                (*final(self), *final(counters)),
                stage,
                event,
                timing,
                step,
            ),
            step.1 is Done ==> none_before(
                final(self).encoder,
                final(self).encoder.slots@.len() as int,
            ),
    {
        match (stage, event) {
            (RetireAllStage::Start, RetireAllEvent::Flushed(flushed)) => {
                match flushed {
                    Ok(()) => (RetireAllStage::Next { done: 0 }, RetireAllAction::Go),
                    Err(error) => (RetireAllStage::Over, RetireAllAction::Fail(error)),
                }
            },
            (RetireAllStage::Next { done }, RetireAllEvent::Nothing) => {
                if done < self.encoder.slots.len() {
                    if self.encoder.slots[done].pending.is_some() {
                        (
                            RetireAllStage::Slot { index: done, retire: RetireStage::Receipt },
                            RetireAllAction::Retire(done, RetireAction::Receive),
                        )
                    } else {
                        (
                            RetireAllStage::Next { done: done + 1 },
                            RetireAllAction::Retire(done, RetireAction::Retired(None)),
                        )
                    }
                } else {
                    let destroy = self.shared.release_ready_graveyard();
                    (RetireAllStage::Over, RetireAllAction::Done(destroy))
                }
            },
            (RetireAllStage::Slot { index, retire }, RetireAllEvent::Retire(event)) => {
                let ghost before = (*self, *counters);
                let ring: usize = self.encoder.slots.len();
                assert(index < ring);
                let (to, action) = self.retire_slot(counters, index, retire, event, timing);
                proof {
                    assert(retire_step(
                        before,
                        (*self, *counters),
                        index as int,
                        retire,
                        event,
                        timing,
                        (to, action),
                    ));
                    assert forall|i: int| 0 <= i < index implies (
                    #[trigger] self.encoder.slots@[i]).pending is None by {
                        assert(before.0.encoder.slots@[i].pending is None);
                    }
                }
                match action {
                    RetireAction::Fail(error) => (
                        RetireAllStage::Over,
                        RetireAllAction::Fail(error),
                    ),
                    RetireAction::Retired(retired) => (
                        RetireAllStage::Next { done: index + 1 },
                        RetireAllAction::Retire(index, RetireAction::Retired(retired)),
                    ),
                    other => (
                        RetireAllStage::Slot { index, retire: to },
                        RetireAllAction::Retire(index, other),
                    ),
                }
            },
            _ => (RetireAllStage::Over, RetireAllAction::Go),
        }
    }
}

/// How far one submitted fence is waited for.
#[derive(Clone, Copy, Debug, PartialEq, Eq, Structural)]
pub enum FenceStage {
    /// Nothing was done.
    Start,
    /// The driver's return from the submission is awaited.
    Receipt {
        /// The slot of the fence.
        index: usize,
    },
    /// Whether the queue has failed is asked.
    Queue {
        /// The fence was reported late.
        reported: bool,
    },
    /// The fence is awaited.
    Fence {
        /// The fence was reported late.
        reported: bool,
    },
    /// It is signalled, or it cannot be waited for.
    Over,
}

/// What is to be done next.
#[derive(Debug)]
pub enum FenceAction {
    /// Wait for the receipt of this slot, where the queue owns it.
    Receive(usize),
    /// Look whether the queue has failed.
    AskQueue {
        /// Report first that the fence is late.
        late: bool,
    },
    /// Wait for the fence.
    Wait(Fence),
    /// Nothing: the fence is signalled. Its slot stays submitted.
    Signaled,
    /// Nothing: the fence cannot be waited for.
    Fail(DrawError),
}

/// The event is the one that the stage awaits.
pub open spec fn fence_awaits(stage: FenceStage, event: RetireEvent) -> bool {
    match stage {
        FenceStage::Start => event is Nothing,
        FenceStage::Receipt { .. } => event is Receipt,
        FenceStage::Queue { .. } => event is Queue,
        FenceStage::Fence { .. } => event is Waited,
        FenceStage::Over => false,
    }
}

/// What holds when `stage` is reached.
pub open spec fn fence_reached(pools: ResourcePools, stage: FenceStage) -> bool {
    &&& pools.wf()
    &&& stage matches FenceStage::Receipt { index } ==> index < pools.encoder.slots@.len()
        && pools.encoder.slots@[index as int].pending is Some
}

/// The slot `i` is submitted with `fence`.
pub open spec fn submitted_with(encoder: EncoderPools, i: int, fence: Fence) -> bool {
    encoder.slots@[i].fence == fence && encoder.slots@[i].pending is Some
}

/// One step of waiting for `fence`.
pub open spec fn fence_step(
    before: (ResourcePools, EngineCounters),
    after: (ResourcePools, EngineCounters),
    fence: Fence,
    stage: FenceStage,
    event: RetireEvent,
    step: (FenceStage, FenceAction),
) -> bool {
    let encoder = before.0.encoder;
    match (stage, event) {
        (FenceStage::Start, _) => {
            &&& after == before
            &&& match step.0 {
                FenceStage::Receipt { index } => {
                    &&& index < encoder.slots@.len()
                    &&& submitted_with(encoder, index as int, fence)
                    &&& forall|i: int| 0 <= i < index ==> !#[trigger] submitted_with(encoder, i, fence)
                    &&& step.1 == FenceAction::Receive(index)
                },
                other => {
                    &&& forall|i: int|
                        0 <= i < encoder.slots@.len() ==> !#[trigger] submitted_with(encoder, i, fence)
                    &&& other == FenceStage::Queue { reported: false }
                    &&& step.1 == FenceAction::AskQueue { late: false }
                },
            }
        },
        (FenceStage::Receipt { index }, RetireEvent::Receipt(received)) => {
            let returned = submit_return(encoder.slots@[index as int].submission, received);
            &&& receipt_kept(before.0, after.0, index as int, returned)
            &&& after.1 == receipt_counted(before.1, returned)
            &&& step == match returned {
                Ok(_) => (
                    FenceStage::Queue { reported: false },
                    FenceAction::AskQueue { late: false },
                ),
                Err(error) => (FenceStage::Over, FenceAction::Fail(wait_failure(error, DeviceLostOp::PoolsWaitFencesEntry))),
            }
        },
        (FenceStage::Queue { reported }, RetireEvent::Queue(queue)) => {
            &&& after.0 == before.0
            &&& after.1 == queue_counted(before.1, queue)
            &&& step == match queue {
                Some(error) => (FenceStage::Over, FenceAction::Fail(wait_failure(error, DeviceLostOp::PoolsWaitFencesEntry))),
                None => (FenceStage::Fence { reported }, FenceAction::Wait(fence)),
            }
        },
        (FenceStage::Fence { reported }, RetireEvent::Waited(waited)) => {
            &&& after.0 == before.0
            &&& after.1 == fence_counted(before.1, waited)
            &&& step == match fence_wait(waited) {
                FenceWait::Signaled => (FenceStage::Over, FenceAction::Signaled),
                FenceWait::Pending => (
                    FenceStage::Queue { reported: true },
                    FenceAction::AskQueue { late: !reported },
                ),
                FenceWait::Failed(error) => (
                    FenceStage::Over,
                    FenceAction::Fail(wait_failure(error, DeviceLostOp::PoolsWaitFencesEntry)),
                ),
            }
        },
        _ => false,
    }
}

impl ResourcePools {
    /// Wait for one submitted fence, one step after the other. No slot is taken
    /// back: whoever waits needs this one command buffer to be done, and no
    /// other.
    pub fn wait_entry_fence(
        &mut self,
        counters: &mut EngineCounters,
        fence: Fence,
        stage: FenceStage,
        event: RetireEvent,
    ) -> (step: (FenceStage, FenceAction))
        requires
            fence_reached(*old(self), stage),
            fence_awaits(stage, event),
        ensures
            fence_reached(*final(self), step.0),
            fence_step(
                (*old(self), *old(counters)),
                (*final(self), *final(counters)),
                fence,
                stage,
                event,
                step,
            ),
    {
        match (stage, event) {
            (FenceStage::Start, _) => {
                match self.entry_of_fence(fence) {
                    Some(index) => (FenceStage::Receipt { index }, FenceAction::Receive(index)),
                    None => (
                        FenceStage::Queue { reported: false },
                        FenceAction::AskQueue { late: false },
                    ),
                }
            },
            (FenceStage::Receipt { index }, RetireEvent::Receipt(received)) => {
                match self.take_back(counters, index, received, DeviceLostOp::PoolsWaitFencesEntry) {
                    Ok(()) => (
                        FenceStage::Queue { reported: false },
                        FenceAction::AskQueue { late: false },
                    ),
                    Err(error) => (FenceStage::Over, FenceAction::Fail(error)),
                }
            },
            (FenceStage::Queue { reported }, RetireEvent::Queue(queue)) => {
                match queue {
                    Some(error) => (
                        FenceStage::Over,
                        FenceAction::Fail(wait_error(counters, error, DeviceLostOp::PoolsWaitFencesEntry)),
                    ),
                    None => (FenceStage::Fence { reported }, FenceAction::Wait(fence)),
                }
            },
            (FenceStage::Fence { reported }, RetireEvent::Waited(waited)) => {
                let mut waiter = FenceWaiter { reported };
                match waiter.waited(counters, waited, DeviceLostOp::PoolsWaitFencesEntry) {
                    FenceTurn::Signaled => (FenceStage::Over, FenceAction::Signaled),
                    FenceTurn::WaitAgain { report } => (
                        FenceStage::Queue { reported: true },
                        FenceAction::AskQueue { late: report },
                    ),
                    FenceTurn::Failed(error) => (FenceStage::Over, FenceAction::Fail(error)),
                }
            },
            _ => (FenceStage::Over, FenceAction::Signaled),
        }
    }
}

/// A slot is taken back only once its fence was reset, which is asked for only once the
/// fence was signalled; its fence is waited for only where the queue has not failed; and
/// a failure ends it with what the driver said.
pub proof fn law_a_slot_is_taken_back_only_after_its_fence(
    before: (ResourcePools, EngineCounters),
    after: (ResourcePools, EngineCounters),
    index: int,
    stage: RetireStage,
    event: RetireEvent,
    timing: Timing,
    step: (RetireStage, RetireAction),
)
    requires
        retire_step(before, after, index, stage, event, timing, step),
    ensures
        (step.1 matches RetireAction::Retired(Some(_))) ==> stage is Reset && step.0 is Over
            && (event matches RetireEvent::Reset(Ok(_))),
        (step.1 matches RetireAction::Retired(None)) ==> stage is Start
            && before.0.encoder.slots@[index].pending is None && after == before,
        step.1 matches RetireAction::Reset(fence) ==> stage is Fence
            && (event matches RetireEvent::Waited(Ok(_))) && fence
            == before.0.encoder.slots@[index].fence && step.0 is Reset,
        step.1 matches RetireAction::Wait(fence) ==> stage is Queue && event
            == RetireEvent::Queue(None) && fence == before.0.encoder.slots@[index].fence
            && step.0 is Fence,
        step.1 is Receive ==> stage is Start && before.0.encoder.slots@[index].pending is Some
            && step.0 is Receipt,
        step.1 is Fail ==> step.0 is Over && !(stage is Start),
        event matches RetireEvent::Queue(Some(error)) ==> (stage is Queue ==> step.1
            == RetireAction::Fail(wait_failure(error, DeviceLostOp::PoolsWaitFencesRetire))),
        event matches RetireEvent::Reset(Err(error)) ==> (stage is Reset ==> (
        step.1 matches RetireAction::Fail(DrawError::VkCall(call)) && call.result == error && call.op
            == VkOp::PoolsResetFencesRetire)),
        stage is Start && before.0.encoder.slots@[index].pending is Some ==> step.1 is Receive,
        stage is Fence && (event matches RetireEvent::Waited(Ok(_))) ==> step.1 is Reset,
        stage is Queue && event == RetireEvent::Queue(None) ==> step.1 is Wait,
        stage is Reset && (event matches RetireEvent::Reset(Ok(_))) ==> step.1 is Retired,
{
}

/// A late fence is reported once and waited for again, and only while the queue has not
/// failed; nothing else of a slot changes for it.
pub proof fn law_a_late_fence_is_reported_once(
    before: (ResourcePools, EngineCounters),
    after: (ResourcePools, EngineCounters),
    index: int,
    reported: bool,
    waited: Result<(), VkResult>,
    timing: Timing,
    step: (RetireStage, RetireAction),
)
    requires
        retire_step(
            before,
            after,
            index,
            RetireStage::Fence { reported },
            RetireEvent::Waited(waited),
            timing,
            step,
        ),
    ensures
        after.0 == before.0,
        waited == Err::<(), VkResult>(VkResult(2i32)) ==> step == (
            RetireStage::Queue { reported: true },
            RetireAction::AskQueue { late: !reported },
        ) && after.1.fence_timeouts == before.1.fence_timeouts.wrapping_add(1),
        waited is Ok ==> after.1 == before.1,
        (waited is Err && waited->Err_0.0 != 2) ==> step.1 is Fail && step.0 is Over,
{
}

/// A receipt makes the slot the host's, or failed with what the queue told; a queue that
/// is gone is a lost device. Only that slot changes.
pub proof fn law_a_receipt_is_kept_in_its_slot(
    before: ResourcePools,
    after: ResourcePools,
    index: int,
    returned: Result<(), VkResult>,
    other: int,
)
    requires
        0 <= index < before.encoder.slots@.len(),
        receipt_kept(before, after, index, returned),
    ensures
        after.shared == before.shared,
        after.encoder.slots@.len() == before.encoder.slots@.len(),
        returned is Ok ==> after.encoder.slots@[index].submission is HostOwned,
        returned matches Err(error) ==> after.encoder.slots@[index].submission
            == SlotSubmission::Failed(error),
        after.encoder.slots@[index].pending == before.encoder.slots@[index].pending,
        after.encoder.slots@[index].retirement == before.encoder.slots@[index].retirement,
        after.encoder.slots@[index].fence == before.encoder.slots@[index].fence,
        0 <= other < before.encoder.slots@.len() && other != index ==> after.encoder.slots@[other]
            == before.encoder.slots@[other],
        after.encoder.in_flight == before.encoder.in_flight,
        after.encoder.cur == before.encoder.cur,
{
}

/// Only a timeout counts, on whichever way it comes, and a receipt that is fine counts
/// nothing.
pub proof fn law_only_timeouts_are_counted(
    counters: EngineCounters,
    error: VkResult,
    waited: Result<(), VkResult>,
)
    ensures
        queue_counted(counters, None) == counters,
        receipt_counted(counters, Ok(())) == counters,
        fence_counted(counters, Ok(())) == counters,
        queue_counted(counters, Some(error)).fence_timeouts == if error.0 == 2 {
            counters.fence_timeouts.wrapping_add(1)
        } else {
            counters.fence_timeouts
        },
        receipt_counted(counters, Err(error)) == queue_counted(counters, Some(error)),
        fence_counted(counters, waited).fence_timeouts == if waited is Err && waited->Err_0.0 == 2 {
            counters.fence_timeouts.wrapping_add(1)
        } else {
            counters.fence_timeouts
        },
{
}

/// The places of the ring are counted from the current slot on, once round.
pub proof fn law_places_are_counted_from_the_current_slot(
    encoder: EncoderPools,
    at: usize,
    index: usize,
    k: int,
)
    requires
        encoder.has_slot(),
    ensures
        placed(encoder, at, index) <==> 1 <= at <= encoder.slots@.len() && index == (encoder.cur
            + at) % encoder.slots@.len() as int,
        submitted_at(encoder, k) <==> encoder.slots@[(encoder.cur + k)
            % encoder.slots@.len() as int].pending is Some,
        none_older(encoder, k) <==> forall|j: int|
            1 <= j < k ==> !#[trigger] submitted_at(encoder, j),
{
    let n = encoder.slots@.len() as int;
    vstd::arithmetic::div_mod::lemma_mod_bound(encoder.cur + at, n);
}

/// A slot is claimed only where it is not submitted: directly where the next one is
/// free, else once that one was taken back. It is always the next one.
pub proof fn law_only_the_next_free_slot_is_claimed(
    before: ResourcePools,
    after: ResourcePools,
    step: (EntryStage, EntryAction),
)
    requires
        before.encoder.has_slot(),
        moved_on(before, after, step),
    ensures
        ({
            let n = before.encoder.slots@.len() as int;
            let next = (before.encoder.cur + 1) % n;
            let slot = before.encoder.slots@[next];
            &&& slot.pending is Some ==> {
                &&& after == before
                &&& step.0 matches EntryStage::Receipt { next: wanted } && wanted == next
                &&& step.1 matches EntryAction::Receive(wanted) && wanted == next
            }
            &&& slot.pending is None ==> {
                &&& step.0 is Over
                &&& after.encoder.cur == next
                &&& step.1 matches EntryAction::Claimed(cb, fence) ==> {
                    &&& cb == slot.cmd_buf
                    &&& fence == slot.fence
                    &&& after.encoder.recording is Some
                }
                &&& !(step.1 is Claimed) ==> (step.1 matches EntryAction::Fail(error)
                    && error is RecordingSequenceExhausted)
            }
        }),
{
    let n = before.encoder.slots@.len() as int;
    assert(n == before.encoder.slots.len());
    vstd::arithmetic::div_mod::lemma_mod_bound(before.encoder.cur + 1, n);
}

/// The first submitted slot behind those looked at is polled, and where none is
/// submitted no slot is.
pub proof fn law_the_oldest_submitted_slot_is_polled(
    before: ResourcePools,
    after: ResourcePools,
    done: usize,
    step: (EntryStage, EntryAction),
    k: int,
)
    requires
        before.encoder.has_slot(),
        looked(before, after, done, step),
    ensures
        step.0 matches EntryStage::Poll { at, index } ==> {
            &&& done < at <= before.encoder.slots@.len()
            &&& index == (before.encoder.cur + at) % before.encoder.slots@.len() as int
            &&& before.encoder.slots@[index as int].pending is Some
            &&& step.1 == EntryAction::Poll(index)
            &&& after == before
            &&& done < k < at ==> before.encoder.slots@[(before.encoder.cur + k)
                % before.encoder.slots@.len() as int].pending is None
        },
        !(step.0 is Poll) && done < k <= before.encoder.slots@.len()
            ==> before.encoder.slots@[(before.encoder.cur + k)
            % before.encoder.slots@.len() as int].pending is None,
{
    if let EntryStage::Poll { at, index } = step.0 {
        assert(submitted_at(before.encoder, at as int));
        if done < k < at {
            assert(!submitted_at(before.encoder, k));
        }
    } else if done < k <= before.encoder.slots@.len() {
        assert(!submitted_at(before.encoder, k));
    }
}

/// A poll tells what the queue told: nothing while the slot is being handed over or the
/// queue still owns it, and else whether the submission went through.
pub proof fn law_a_poll_tells_what_the_queue_told(
    submission: SlotSubmission,
    polled: ReceiptState,
)
    ensures
        submission is HostOwned ==> polled_return(submission, polled) == Some(
            Ok::<(), VkResult>(()),
        ),
        submission is SealedWaitingCommit ==> polled_return(submission, polled) is None,
        submission matches SlotSubmission::Failed(error) ==> polled_return(submission, polled)
            == Some(Err::<(), VkResult>(error)),
        submission is QueueOwned ==> {
            &&& polled is Empty ==> polled_return(submission, polled) is None
            &&& polled matches ReceiptState::Returned(result) ==> polled_return(submission, polled)
                == Some(result)
            &&& polled is Disconnected ==> polled_return(submission, polled) == Some(
                Err::<(), VkResult>(VkResult(-4i32)),
            )
        },
{
}

/// The way to a new entry: a failed flush ends it; an unsignalled or unreturned slot is
/// left alone; a signalled one is taken back; and the slot that is needed is waited for.
pub proof fn law_an_entry_takes_back_only_what_is_over(
    before: (ResourcePools, EngineCounters),
    after: (ResourcePools, EngineCounters),
    stage: EntryStage,
    event: EntryEvent,
    timing: Timing,
    step: (EntryStage, EntryAction),
)
    requires
        entry_step(before, after, stage, event, timing, step),
    ensures
        stage is Start ==> {
            &&& event matches EntryEvent::Flushed(Err(error)) ==> step == (
                EntryStage::Over,
                EntryAction::Fail(error),
            ) && after == before
            &&& event matches EntryEvent::Flushed(Ok(_)) ==> step.0 == (EntryStage::Look { done: 0 })
                && step.1 is Destroy && after.0.encoder.recording is None
        },
        stage matches EntryStage::Status { at, index } ==> {
            &&& event == EntryEvent::Status(Ok(true)) ==> after == before && step == (
                EntryStage::Reap { at, index, retire: RetireStage::Receipt },
                EntryAction::Retire(index, RetireAction::Receive),
            )
            &&& event == EntryEvent::Status(Ok(false)) ==> moved_on(before.0, after.0, step)
            &&& event matches EntryEvent::Status(Err(error)) ==> step.1 == EntryAction::Fail(
                wait_failure(error, DeviceLostOp::PoolsFenceStatusBeginEntry),
            )
        },
        stage matches EntryStage::Running { next } ==> (event matches EntryEvent::Status(
            Ok(signaled),
        ) ==> step == (
            EntryStage::Retire {
                next,
                still_running: !signaled,
                retire: RetireStage::Receipt,
            },
            EntryAction::Retire(next, RetireAction::Receive),
        ) && after == before),
        stage matches EntryStage::Claim { next, still_running } ==> {
            &&& after.1.ring_retire_blocks == if still_running {
                before.1.ring_retire_blocks.wrapping_add(1)
            } else {
                before.1.ring_retire_blocks
            }
            &&& after.0.encoder.cur == next
        },
        step.1 is Claimed ==> after.0.encoder.recording is Some && step.0 is Over,
{
}

/// Taking everything back goes from slot to slot: one that is not submitted is passed
/// over, one that is is taken back before the next, and a failure ends it.
pub proof fn law_everything_is_taken_back_in_turn(
    before: (ResourcePools, EngineCounters),
    after: (ResourcePools, EngineCounters),
    stage: RetireAllStage,
    event: RetireAllEvent,
    timing: Timing,
    step: (RetireAllStage, RetireAllAction),
)
    requires
        retire_all_step(before, after, stage, event, timing, step),
    ensures
        stage is Start ==> {
            &&& after == before
            &&& event matches RetireAllEvent::Flushed(Err(error)) ==> step == (
                RetireAllStage::Over,
                RetireAllAction::Fail(error),
            )
            &&& event matches RetireAllEvent::Flushed(Ok(_)) ==> step.0 == (
            RetireAllStage::Next { done: 0 })
        },
        stage matches RetireAllStage::Next { done } ==> {
            &&& done < before.0.encoder.slots@.len() ==> {
                &&& after == before
                &&& before.0.encoder.slots@[done as int].pending is Some ==> step == (
                    RetireAllStage::Slot { index: done, retire: RetireStage::Receipt },
                    RetireAllAction::Retire(done, RetireAction::Receive),
                )
                &&& before.0.encoder.slots@[done as int].pending is None ==> step.0 == (
                RetireAllStage::Next { done: (done + 1) as usize })
            }
            &&& done >= before.0.encoder.slots@.len() ==> step.0 is Over && step.1 is Done
                && after.0.encoder == before.0.encoder
        },
        stage is Slot ==> step.1 is Fail || step.1 is Retire,
        step.1 is Done ==> stage is Next,
{
}

/// Where a fence is waited for, the slot that was submitted with it gives its receipt
/// first; where no slot was, the fence is asked for alone. It is over only when the fence
/// signalled or something failed.
pub proof fn law_a_fence_is_over_when_it_signalled(
    before: (ResourcePools, EngineCounters),
    after: (ResourcePools, EngineCounters),
    fence: Fence,
    stage: FenceStage,
    event: RetireEvent,
    step: (FenceStage, FenceAction),
    i: int,
)
    requires
        fence_step(before, after, fence, stage, event, step),
    ensures
        step.1 is Signaled <==> stage is Fence && (event matches RetireEvent::Waited(Ok(_))),
        step.1 matches FenceAction::Wait(waited) ==> waited == fence && stage is Queue && event
            == RetireEvent::Queue(None),
        step.1 matches FenceAction::Receive(index) ==> {
            &&& stage is Start
            &&& index < before.0.encoder.slots@.len()
            &&& before.0.encoder.slots@[index as int].fence == fence
            &&& before.0.encoder.slots@[index as int].pending is Some
            &&& 0 <= i < index ==> !(before.0.encoder.slots@[i].fence == fence
                && before.0.encoder.slots@[i].pending is Some)
        },
        stage is Start && !(step.1 is Receive) && 0 <= i < before.0.encoder.slots@.len() ==> !(
        before.0.encoder.slots@[i].fence == fence && before.0.encoder.slots@[i].pending is Some),
        step.0 is Over <==> step.1 is Signaled || step.1 is Fail,
        event matches RetireEvent::Queue(Some(error)) ==> (stage is Queue ==> step.1
            == FenceAction::Fail(wait_failure(error, DeviceLostOp::PoolsWaitFencesEntry))),
        stage is Fence && event == RetireEvent::Waited(Err(VkResult(2i32))) ==> step.0 == (
        FenceStage::Queue { reported: true }),
        after.0.shared == before.0.shared,
        after.0.encoder.in_flight == before.0.encoder.in_flight,
{
    if stage is Start {
        if let FenceStage::Receipt { index } = step.0 {
            assert(submitted_with(before.0.encoder, index as int, fence));
            if 0 <= i < index {
                assert(!submitted_with(before.0.encoder, i, fence));
            }
        } else if 0 <= i < before.0.encoder.slots@.len() {
            assert(!submitted_with(before.0.encoder, i, fence));
        }
    }
}

/// While everything is taken back, a slot is left behind exactly when it has been taken back,
/// and then the one after it is next; a failure ends it. When all are done only the graveyard
/// changes.
pub proof fn law_a_slot_is_left_when_it_is_taken_back(
    before: (ResourcePools, EngineCounters),
    after: (ResourcePools, EngineCounters),
    stage: RetireAllStage,
    event: RetireAllEvent,
    timing: Timing,
    step: (RetireAllStage, RetireAllAction),
)
    requires
        retire_all_step(before, after, stage, event, timing, step),
    ensures
        step.1 is Fail ==> step.0 is Over,
        stage matches RetireAllStage::Slot { index, .. } ==> (step.1 matches RetireAllAction::Retire(
            at,
            action,
        ) ==> {
            &&& at == index
            &&& action is Retired ==> step.0 == (RetireAllStage::Next {
                done: (index + 1) as usize,
            })
            &&& !(action is Retired) ==> (step.0 matches RetireAllStage::Slot { index: same, .. }
                && same == index)
        }),
        step.1 is Done ==> {
            &&& after.1 == before.1
            &&& after.0.encoder == before.0.encoder
            &&& after.0.shared.targets == before.0.shared.targets
            &&& after.0.shared.registry == before.0.shared.registry
            &&& after.0.shared.sampled_cache == before.0.shared.sampled_cache
        },
{
}

/// While room is made for an entry, a slot is left exactly when it has been taken back: one
/// that was reaped is looked past, the one that is needed is claimed.
pub proof fn law_an_entry_goes_on_when_a_slot_is_taken_back(
    before: (ResourcePools, EngineCounters),
    after: (ResourcePools, EngineCounters),
    stage: EntryStage,
    event: EntryEvent,
    timing: Timing,
    step: (EntryStage, EntryAction),
)
    requires
        entry_step(before, after, stage, event, timing, step),
    ensures
        stage matches EntryStage::Reap { at, index, .. } ==> {
            &&& step.1 is Fail ==> step.0 is Over
            &&& step.1 matches EntryAction::Retire(slot, action) ==> {
                &&& slot == index
                &&& action is Retired ==> step.0 == (EntryStage::Look { done: at })
                &&& !(action is Retired) ==> (step.0 matches EntryStage::Reap {
                    at: same_at,
                    index: same,
                    ..
                } && same_at == at && same == index)
            }
        },
        stage matches EntryStage::Retire { next, still_running, .. } ==> {
            &&& step.1 is Fail ==> step.0 is Over
            &&& step.1 matches EntryAction::Retire(slot, action) ==> {
                &&& slot == next
                &&& action is Retired ==> step.0 == (EntryStage::Claim { next, still_running })
                &&& !(action is Retired) ==> (step.0 matches EntryStage::Retire {
                    next: same,
                    still_running: still,
                    ..
                } && same == next && still == still_running)
            }
        },
        stage is Look || stage is Claim ==> after.1.fence_timeouts == before.1.fence_timeouts,
{
}

/// Whatever comes back, no counter but that of timeouts moves, and that one only for a
/// timeout.
pub proof fn law_waiting_counts_nothing_but_timeouts(
    before: (ResourcePools, EngineCounters),
    after: (ResourcePools, EngineCounters),
    fence: Fence,
    stage: FenceStage,
    event: RetireEvent,
    step: (FenceStage, FenceAction),
)
    requires
        fence_step(before, after, fence, stage, event, step),
    ensures
        after.1 == (EngineCounters { fence_timeouts: after.1.fence_timeouts, ..before.1 }),
        event matches RetireEvent::Queue(Some(error)) ==> (stage is Queue ==> after.1.fence_timeouts
            == if error.0 == 2 {
            before.1.fence_timeouts.wrapping_add(1)
        } else {
            before.1.fence_timeouts
        }),
        event == RetireEvent::Queue(None) ==> after == before,
        event matches RetireEvent::Waited(Ok(_)) ==> after == before,
        event matches RetireEvent::Waited(Err(error)) ==> (stage is Fence
            ==> after.1.fence_timeouts == if error.0 == 2 {
            before.1.fence_timeouts.wrapping_add(1)
        } else {
            before.1.fence_timeouts
        }),
        stage is Start ==> after == before,
        stage is Queue || stage is Fence ==> after.0 == before.0,
{
}

/// Taking one slot back moves no counter but that of timeouts, and leaves the pools as they
/// are until its fence is reset.
pub proof fn law_a_slot_waits_without_changing_the_pools(
    before: (ResourcePools, EngineCounters),
    after: (ResourcePools, EngineCounters),
    index: int,
    stage: RetireStage,
    event: RetireEvent,
    timing: Timing,
    step: (RetireStage, RetireAction),
)
    requires
        retire_step(before, after, index, stage, event, timing, step),
    ensures
        after.1 == (EngineCounters { fence_timeouts: after.1.fence_timeouts, ..before.1 }),
        stage is Reset ==> after.1 == before.1,
        stage is Start ==> after == before,
        stage is Queue || stage is Fence ==> after.0 == before.0,
        stage is Reset && !(event matches RetireEvent::Reset(Ok(_))) ==> after.0 == before.0,
        stage is Receipt ==> after.0.shared == before.0.shared,
        event matches RetireEvent::Waited(Err(error)) ==> (stage is Fence
            ==> after.1.fence_timeouts == if error.0 == 2 {
            before.1.fence_timeouts.wrapping_add(1)
        } else {
            before.1.fence_timeouts
        }),
        event matches RetireEvent::Queue(Some(error)) ==> (stage is Queue ==> after.1.fence_timeouts
            == if error.0 == 2 {
            before.1.fence_timeouts.wrapping_add(1)
        } else {
            before.1.fence_timeouts
        }),
        event matches RetireEvent::Queue(None) ==> after == before,
        event matches RetireEvent::Waited(Ok(_)) ==> after == before,
        step.1 is Fail ==> step.0 is Over,
        step.1 matches RetireAction::Wait(fence) ==> fence == before.0.encoder.slots@[index].fence,
        step.1 matches RetireAction::Reset(fence) ==> fence == before.0.encoder.slots@[index].fence,
{
}

/// While room is made for an entry, no counter moves but that of timeouts, for a timeout, and
/// that of blocked rings, when a slot is claimed that was still running.
pub proof fn law_making_room_counts_timeouts_and_blocks(
    before: (ResourcePools, EngineCounters),
    after: (ResourcePools, EngineCounters),
    stage: EntryStage,
    event: EntryEvent,
    timing: Timing,
    step: (EntryStage, EntryAction),
)
    requires
        entry_step(before, after, stage, event, timing, step),
    ensures
        after.1 == (EngineCounters {
            fence_timeouts: after.1.fence_timeouts,
            ring_retire_blocks: after.1.ring_retire_blocks,
            ..before.1
        }),
        !(stage is Claim) ==> after.1.ring_retire_blocks == before.1.ring_retire_blocks,
        event matches EntryEvent::Status(Err(error)) ==> after.1.fence_timeouts == if error.0 == 2 {
            before.1.fence_timeouts.wrapping_add(1)
        } else {
            before.1.fence_timeouts
        },
        event matches EntryEvent::Status(Ok(_)) ==> after.1 == before.1,
        stage is Start || stage is Look ==> after.1 == before.1,
{
    if let EntryStage::Reap { index, retire, .. } = stage {
        if let EntryEvent::Retire(inner_event) = event {
            let inner = choose|inner: (RetireStage, RetireAction)| #[trigger]
                retire_step(before, after, index as int, retire, inner_event, timing, inner);
            law_a_slot_waits_without_changing_the_pools(
                before,
                after,
                index as int,
                retire,
                inner_event,
                timing,
                inner,
            );
        }
    }
    if let EntryStage::Retire { next, retire, .. } = stage {
        if let EntryEvent::Retire(inner_event) = event {
            let inner = choose|inner: (RetireStage, RetireAction)| #[trigger]
                retire_step(before, after, next as int, retire, inner_event, timing, inner);
            law_a_slot_waits_without_changing_the_pools(
                before,
                after,
                next as int,
                retire,
                inner_event,
                timing,
                inner,
            );
        }
    }
}

} // verus!
