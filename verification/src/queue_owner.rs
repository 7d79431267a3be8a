//! The one owner of the device queue: what it submits, what it answers, and
//! how the first failure stops everything after it.
//!
//! The owner's thread takes one request at a time. [`QueueOwner::next_action`]
//! says what the request asks of the driver; the `finish` functions turn the
//! driver's word into the answer.

use crate::stamp_completion::{StampCompletion, StampView};
use crate::text::{append_text, owned};
use crate::vk::{
    device_lost, show_vk_result, vk_result_text, CommandBuffer, Fence, PipelineStageFlags,
    Semaphore, Swapchain, VkResult, ERROR_DEVICE_LOST,
};
use vstd::prelude::*;

verus! {

/// A wait for one value of a timeline semaphore.
#[derive(Clone, Copy, Debug, PartialEq, Eq, Structural)]
pub struct TimelineWait {
    /// The timeline semaphore.
    pub semaphore: Semaphore,
    /// The value waited for.
    pub value: u64,
    /// The stage that waits.
    pub stage: PipelineStageFlags,
}

impl TimelineWait {
    /// A wait of `stage` for `value`.
    pub fn new(semaphore: Semaphore, value: u64, stage: PipelineStageFlags) -> (wait: TimelineWait)
        ensures
            wait == (TimelineWait { semaphore, value, stage }),
    {
        TimelineWait { semaphore, value, stage }
    }
}

/// The parallel arrays of one submission.
#[derive(Debug)]
pub struct SemaphoreSubmitOperands {
    /// The semaphores waited for.
    pub wait_semaphores: Vec<Semaphore>,
    /// The stage that waits for each.
    pub wait_stages: Vec<PipelineStageFlags>,
    /// The timeline value waited for; zero for a binary semaphore.
    pub wait_values: Vec<u64>,
    /// The semaphores signalled.
    pub signal_semaphores: Vec<Semaphore>,
    /// The timeline value signalled; zero for a binary semaphore.
    pub signal_values: Vec<u64>,
    /// Whether any of them is a timeline semaphore.
    pub has_timeline: bool,
}

/// A submission may not wait for the value it signals, nor for a later one.
pub open spec fn waits_only_for_the_past(
    wait: Option<TimelineWait>,
    signal: Option<(Semaphore, u64)>,
) -> bool {
    match (wait, signal) {
        (Some(wait), Some(signal)) => wait.semaphore != signal.0 || wait.value < signal.1,
        _ => true,
    }
}

impl SemaphoreSubmitOperands {
    /// The operands that the given waits and signals ask for: the binary ones in
    /// their order, then the timeline one.
    pub open spec fn carries(
        self,
        binary_waits: Seq<Semaphore>,
        binary_wait_stages: Seq<PipelineStageFlags>,
        binary_signals: Seq<Semaphore>,
        timeline_wait: Option<TimelineWait>,
        timeline_signal: Option<(Semaphore, u64)>,
    ) -> bool {
        &&& self.wait_semaphores@ == binary_waits + match timeline_wait {
            Some(wait) => seq![wait.semaphore],
            None => Seq::empty(),
        }
        &&& self.wait_stages@ == binary_wait_stages + match timeline_wait {
            Some(wait) => seq![wait.stage],
            None => Seq::empty(),
        }
        &&& self.wait_values@ == Seq::new(binary_waits.len(), |k: int| 0u64) + match timeline_wait {
            Some(wait) => seq![wait.value],
            None => Seq::empty(),
        }
        &&& self.signal_semaphores@ == binary_signals + match timeline_signal {
            Some(signal) => seq![signal.0],
            None => Seq::empty(),
        }
        &&& self.signal_values@ == Seq::new(binary_signals.len(), |k: int| 0u64)
            + match timeline_signal {
            Some(signal) => seq![signal.1],
            None => Seq::empty(),
        }
        &&& self.has_timeline == (timeline_wait is Some || timeline_signal is Some)
    }
}

/// Every index of the wait arrays speaks of one semaphore, and so does every
/// index of the signal arrays.
pub proof fn law_operands_stay_aligned(
    operands: SemaphoreSubmitOperands,
    binary_waits: Seq<Semaphore>,
    binary_wait_stages: Seq<PipelineStageFlags>,
    binary_signals: Seq<Semaphore>,
    timeline_wait: Option<TimelineWait>,
    timeline_signal: Option<(Semaphore, u64)>,
)
    requires
        binary_waits.len() == binary_wait_stages.len(),
        operands.carries(
            binary_waits,
            binary_wait_stages,
            binary_signals,
            timeline_wait,
            timeline_signal,
        ),
    ensures
        operands.wait_semaphores@.len() == operands.wait_stages@.len(),
        operands.wait_semaphores@.len() == operands.wait_values@.len(),
        operands.signal_semaphores@.len() == operands.signal_values@.len(),
        !operands.has_timeline ==> (forall|k: int|
            0 <= k < operands.wait_values@.len() ==> operands.wait_values@[k] == 0),
        !operands.has_timeline ==> (forall|k: int|
            0 <= k < operands.signal_values@.len() ==> operands.signal_values@[k] == 0),
{
}

fn copied<T: Copy>(items: &[T]) -> (copy: Vec<T>)
    ensures
        copy@ == items@,
{
    let mut copy: Vec<T> = Vec::new();
    let mut k: usize = 0;
    while k < items.len()
        invariant
            k <= items@.len(),
            copy@ == items@.take(k as int),
        decreases items@.len() - k,
    {
        copy.push(items[k]);
        k += 1;
        assert(copy@ =~= items@.take(k as int));
    }
    assert(items@.take(k as int) =~= items@);
    copy
}

fn zeros(count: usize) -> (values: Vec<u64>)
    ensures
        values@ == Seq::new(count as nat, |k: int| 0u64),
{
    let mut values: Vec<u64> = Vec::new();
    let mut k: usize = 0;
    while k < count
        invariant
            k <= count,
            values@ == Seq::new(k as nat, |k: int| 0u64),
        decreases count - k,
    {
        values.push(0);
        k += 1;
        assert(values@ =~= Seq::new(k as nat, |k: int| 0u64));
    }
    values
}

/// Lay out the semaphore arrays of one submission.
pub fn semaphore_submit_operands(
    binary_waits: &[Semaphore],
    binary_wait_stages: &[PipelineStageFlags],
    binary_signals: &[Semaphore],
    timeline_wait: Option<TimelineWait>,
    timeline_signal: Option<(Semaphore, u64)>,
) -> (operands: SemaphoreSubmitOperands)
    requires
        binary_waits@.len() == binary_wait_stages@.len(),
        waits_only_for_the_past(timeline_wait, timeline_signal),
    ensures
        operands.carries(
            binary_waits@,
            binary_wait_stages@,
            binary_signals@,
            timeline_wait,
            timeline_signal,
        ),
{
    let mut wait_semaphores: Vec<Semaphore> = copied(binary_waits);
    let mut wait_stages: Vec<PipelineStageFlags> = copied(binary_wait_stages);
    let mut wait_values: Vec<u64> = zeros(binary_waits.len());
    if let Some(wait) = timeline_wait {
        wait_semaphores.push(wait.semaphore);
        wait_stages.push(wait.stage);
        wait_values.push(wait.value);
    }
    let mut signal_semaphores: Vec<Semaphore> = copied(binary_signals);
    let mut signal_values: Vec<u64> = zeros(binary_signals.len());
    if let Some(signal) = timeline_signal {
        signal_semaphores.push(signal.0);
        signal_values.push(signal.1);
    }
    let operands = SemaphoreSubmitOperands {
        wait_semaphores,
        wait_stages,
        wait_values,
        signal_semaphores,
        signal_values,
        has_timeline: timeline_wait.is_some() || timeline_signal.is_some(),
    };
    proof {
        let waits = Seq::new(binary_waits@.len(), |k: int| 0u64);
        let signals = Seq::new(binary_signals@.len(), |k: int| 0u64);
        if timeline_wait is Some {
            let wait = timeline_wait->0;
            assert(operands.wait_semaphores@ =~= binary_waits@ + seq![wait.semaphore]);
            assert(operands.wait_stages@ =~= binary_wait_stages@ + seq![wait.stage]);
            assert(operands.wait_values@ =~= waits + seq![wait.value]);
        } else {
            assert(operands.wait_semaphores@ =~= binary_waits@ + Seq::<Semaphore>::empty());
            assert(operands.wait_stages@ =~= binary_wait_stages@ + Seq::<
                PipelineStageFlags,
            >::empty());
            assert(operands.wait_values@ =~= waits + Seq::<u64>::empty());
        }
        if timeline_signal is Some {
            let signal = timeline_signal->0;
            assert(operands.signal_semaphores@ =~= binary_signals@ + seq![signal.0]);
            assert(operands.signal_values@ =~= signals + seq![signal.1]);
        } else {
            assert(operands.signal_semaphores@ =~= binary_signals@ + Seq::<Semaphore>::empty());
            assert(operands.signal_values@ =~= signals + Seq::<u64>::empty());
        }
    }
    operands
}

/// A submission that its caller has handed over.
#[derive(Debug)]
pub struct OwnedSubmit {
    /// The command buffers, in execution order.
    pub command_buffers: Vec<CommandBuffer>,
    /// The binary semaphores waited for.
    pub wait_semaphores: Vec<Semaphore>,
    /// The stage that waits for each.
    pub wait_stages: Vec<PipelineStageFlags>,
    /// The binary semaphores signalled.
    pub signal_semaphores: Vec<Semaphore>,
    /// The fence signalled on completion.
    pub fence: Fence,
    /// A timeline value to wait for.
    pub timeline_wait: Option<TimelineWait>,
    /// The timeline value signalled.
    pub timeline: Option<(Semaphore, u64)>,
    /// Whether the caller went on without waiting for the driver.
    pub is_async: bool,
}

impl OwnedSubmit {
    /// A submission the driver can be given.
    pub open spec fn wf(self) -> bool {
        &&& self.wait_semaphores@.len() == self.wait_stages@.len()
        &&& waits_only_for_the_past(self.timeline_wait, self.timeline)
    }
}

/// What a caller asks of the queue owner.
#[derive(Debug)]
pub enum Request {
    /// Submit work.
    Submit {
        /// The work.
        submit: OwnedSubmit,
        /// Whether the caller waits for the outcome.
        reply: bool,
        /// Whether the caller holds a receipt for the driver's return.
        async_reply: bool,
    },
    /// Submit work and present an image behind it.
    PresentTransaction {
        /// The work.
        submit: OwnedSubmit,
        /// The semaphore the present waits for.
        wait: Semaphore,
        /// The swapchain.
        swapchain: Swapchain,
        /// The image.
        image_index: u32,
    },
    /// Wait until the queue is idle.
    WaitIdle,
    /// Answer once everything ahead of it was handled.
    Barrier,
    /// Leave.
    Stop,
}

/// The driver call that one submission becomes.
#[derive(Debug)]
pub struct SubmitCall {
    /// The command buffers.
    pub command_buffers: Vec<CommandBuffer>,
    /// The semaphores.
    pub operands: SemaphoreSubmitOperands,
    /// The fence.
    pub fence: Fence,
}

impl SubmitCall {
    /// The call carries exactly the submission.
    pub open spec fn is_of(self, submit: OwnedSubmit) -> bool {
        &&& self.command_buffers@ == submit.command_buffers@
        &&& self.fence == submit.fence
        &&& self.operands.carries(
            submit.wait_semaphores@,
            submit.wait_stages@,
            submit.signal_semaphores@,
            submit.timeline_wait,
            submit.timeline,
        )
    }
}

/// What the owner's thread does with a request.
#[derive(Debug)]
pub enum QueueAction {
    /// Call the driver and report what it said.
    Submit(SubmitCall),
    /// Do not call the driver; the request fails with the latched failure.
    Refuse(VkResult),
    /// Wait until the queue is idle and report what the driver said.
    WaitIdle,
    /// Answer with success.
    Acknowledge,
    /// Leave the thread.
    Stop,
}

/// What goes back to the caller of a submission.
#[derive(Debug)]
pub struct SubmitAnswer {
    /// The outcome for a caller that holds a receipt.
    pub receipt: Option<Result<(), VkResult>>,
    /// The outcome for a caller that waits.
    pub reply: Option<Result<(), VkResult>>,
    /// The timeline value that the driver accepted, to be published.
    pub published: Option<u64>,
    /// The line that reports a failure latched by this submission.
    pub latched: Option<String>,
}

/// The first failure of the queue; later ones do not displace it.
#[derive(Debug)]
pub struct FailureLatch {
    failure: Option<VkResult>,
}

impl View for FailureLatch {
    type V = Option<VkResult>;

    closed spec fn view(&self) -> Option<VkResult> {
        self.failure
    }
}

/// The line that reports the failure that stopped the queue, whose code is shown
/// as `shown`.
pub open spec fn latched_line_text(shown: Seq<char>) -> Seq<char> {
    "vk_queue_async_submit_failed reason=vk_queue_async_submit_failed result="@ + shown
}

/// The line that reports the failure that stopped the queue.
pub open spec fn latched_text(result: VkResult) -> Seq<char> {
    latched_line_text(vk_result_text(result.0))
}

/// The line that reports the failure that stopped the queue, whose code is shown
/// as `shown`.
pub fn latched_line(shown: &str) -> (line: String)
    ensures
        line@ == latched_line_text(shown@),
{
    let mut line = owned(
        "vk_queue_async_submit_failed reason=vk_queue_async_submit_failed result=",
    );
    append_text(&mut line, shown);
    line
}

impl FailureLatch {
    /// A latch that holds nothing.
    pub fn new() -> (latch: FailureLatch)
        ensures
            latch@ is None,
    {
        FailureLatch { failure: None }
    }

    /// The first failure, if there was one.
    pub fn get(&self) -> (failure: Option<VkResult>)
        ensures
            failure == self@,
    {
        self.failure
    }

    /// Hold `result` unless a failure is held already. Gives the line to report
    /// when it is the first; the device then counts as lost.
    pub fn set(&mut self, result: VkResult) -> (line: Option<String>)
        ensures
            match line {
                Some(line) => old(self)@ is None && final(self)@ == Some(result) && line@
                    == latched_text(result),
                None => old(self)@ is Some && final(self)@ == old(self)@,
            },
    {
        if self.failure.is_none() {
            self.failure = Some(result);
            let shown = show_vk_result(result.0);
            Some(latched_line(shown.as_str()))
        } else {
            None
        }
    }
}

/// What the queue owner counts. Every counter wraps.
#[derive(Clone, Copy, Debug, PartialEq, Eq, Structural)]
pub struct QueueStats {
    /// Submissions whose callers did not wait.
    pub async_submits: u64,
    /// Microseconds they spent queued.
    pub async_queue_us: u64,
    /// Microseconds they spent in the driver.
    pub async_driver_us: u64,
    /// Present transactions.
    pub present_transactions: u64,
    /// Microseconds they spent queued.
    pub present_queue_us: u64,
    /// Microseconds they spent in the driver.
    pub present_driver_us: u64,
}

/// A receipt for the driver's return from one submission.
#[derive(Clone, Copy, Debug, PartialEq, Eq, Structural)]
pub struct PendingQueueSubmit(pub u64);

/// What polling a receipt found.
#[derive(Clone, Copy, Debug)]
pub enum ReceiptState {
    /// The driver returned.
    Returned(Result<(), VkResult>),
    /// The driver has not returned.
    Empty,
    /// The queue owner is gone.
    Disconnected,
}

/// The outcome a receipt tells, if it tells one. An owner that is gone cannot
/// look successful.
pub open spec fn receipt_outcome(state: ReceiptState) -> Option<Result<(), VkResult>> {
    match state {
        ReceiptState::Returned(result) => Some(result),
        ReceiptState::Empty => None,
        ReceiptState::Disconnected => Some(Err(device_lost())),
    }
}

impl PendingQueueSubmit {
    /// What a poll of the receipt tells.
    pub fn try_complete(&self, state: ReceiptState) -> (outcome: Option<Result<(), VkResult>>)
        ensures
            outcome == receipt_outcome(state),
    {
        match state {
            ReceiptState::Returned(result) => Some(result),
            ReceiptState::Empty => None,
            ReceiptState::Disconnected => Some(Err(VkResult(ERROR_DEVICE_LOST))),
        }
    }

    /// What waiting for the receipt gave; nothing when the owner is gone.
    pub fn wait(self, received: Option<Result<(), VkResult>>) -> (outcome: Result<(), VkResult>)
        ensures
            outcome == match received {
                Some(result) => result,
                None => Err(device_lost()),
            },
    {
        received_or_lost(received)
    }
}

/// A reply, or the lost device when its sender is gone.
pub fn received_or_lost<T>(received: Option<Result<T, VkResult>>) -> (outcome: Result<T, VkResult>)
    ensures
        outcome == match received {
            Some(result) => result,
            None => Err(device_lost()),
        },
{
    match received {
        Some(result) => result,
        None => Err(VkResult(ERROR_DEVICE_LOST)),
    }
}

/// The queue owner.
#[derive(Debug)]
pub struct QueueOwner {
    failure: FailureLatch,
    stats: QueueStats,
}

/// What a queue owner holds.
pub struct QueueView {
    /// The first failure.
    pub failure: Option<VkResult>,
    /// The counters.
    pub stats: QueueStats,
}

impl View for QueueOwner {
    type V = QueueView;

    closed spec fn view(&self) -> QueueView {
        QueueView { failure: self.failure@, stats: self.stats }
    }
}

/// The counters after one submission.
pub open spec fn stats_after_submit(
    stats: QueueStats,
    is_async: bool,
    queue_us: u64,
    driver_us: u64,
) -> QueueStats {
    if is_async {
        QueueStats {
            async_submits: stats.async_submits.wrapping_add(1),
            async_queue_us: stats.async_queue_us.wrapping_add(queue_us),
            async_driver_us: stats.async_driver_us.wrapping_add(driver_us),
            ..stats
        }
    } else {
        stats
    }
}

/// The latch after a submission: only one whose caller does not wait latches.
pub open spec fn failure_after_submit(
    failure: Option<VkResult>,
    reply: bool,
    result: Result<(), VkResult>,
) -> Option<VkResult> {
    match (failure, result) {
        (None, Err(error)) => if reply {
            None
        } else {
            Some(error)
        },
        _ => failure,
    }
}

/// The line to report is there exactly where the first failure was latched, and
/// it tells of that failure.
pub open spec fn tells_of_the_first(
    before: Option<VkResult>,
    after: Option<VkResult>,
    latched: Option<String>,
) -> bool {
    &&& latched is Some <==> before is None && after is Some
    &&& latched matches Some(line) ==> line@ == latched_text(after->0)
}

impl QueueOwner {
    /// An owner that has done nothing.
    pub fn new() -> (owner: QueueOwner)
        ensures
            owner@.failure is None,
            owner@.stats == (QueueStats {
                async_submits: 0,
                async_queue_us: 0,
                async_driver_us: 0,
                present_transactions: 0,
                present_queue_us: 0,
                present_driver_us: 0,
            }),
    {
        QueueOwner {
            failure: FailureLatch::new(),
            stats: QueueStats {
                async_submits: 0,
                async_queue_us: 0,
                async_driver_us: 0,
                present_transactions: 0,
                present_queue_us: 0,
                present_driver_us: 0,
            },
        }
    }

    /// The first failure, if there was one.
    pub fn failure(&self) -> (failure: Option<VkResult>)
        ensures
            failure == self@.failure,
    {
        self.failure.get()
    }

    /// The counters.
    pub fn stats(&self) -> (stats: QueueStats)
        ensures
            stats == self@.stats,
    {
        self.stats
    }

    /// The request of a caller that waits for the driver, or the failure that
    /// stopped the queue.
    pub fn submit_sync(
        &self,
        command_buffers: &[CommandBuffer],
        fence: Fence,
        timeline_wait: Option<TimelineWait>,
        timeline: Option<(Semaphore, u64)>,
    ) -> (request: Result<Request, VkResult>)
        ensures
            match request {
                Ok(request) => self@.failure is None && (request matches Request::Submit {
                    submit,
                    reply,
                    async_reply,
                } && reply && !async_reply && plain_submit(
                    submit,
                    command_buffers@,
                    fence,
                    timeline_wait,
                    timeline,
                    false,
                )),
                Err(failure) => self@.failure == Some(failure),
            },
    {
        if let Some(failure) = self.failure.get() {
            return Err(failure);
        }
        Ok(
            Request::Submit {
                submit: OwnedSubmit {
                    command_buffers: copied(command_buffers),
                    wait_semaphores: Vec::new(),
                    wait_stages: Vec::new(),
                    signal_semaphores: Vec::new(),
                    fence,
                    timeline_wait,
                    timeline,
                    is_async: false,
                },
                reply: true,
                async_reply: false,
            },
        )
    }

    /// The request of a caller that goes on with a receipt, or the failure that
    /// stopped the queue.
    pub fn submit_async(
        &self,
        command_buffers: &[CommandBuffer],
        fence: Fence,
        timeline_wait: Option<TimelineWait>,
        timeline: Option<(Semaphore, u64)>,
    ) -> (request: Result<Request, VkResult>)
        ensures
            match request {
                Ok(request) => self@.failure is None && (request matches Request::Submit {
                    submit,
                    reply,
                    async_reply,
                } && !reply && async_reply && plain_submit(
                    submit,
                    command_buffers@,
                    fence,
                    timeline_wait,
                    timeline,
                    true,
                )),
                Err(failure) => self@.failure == Some(failure),
            },
    {
        if let Some(failure) = self.failure.get() {
            return Err(failure);
        }
        Ok(
            Request::Submit {
                submit: OwnedSubmit {
                    command_buffers: copied(command_buffers),
                    wait_semaphores: Vec::new(),
                    wait_stages: Vec::new(),
                    signal_semaphores: Vec::new(),
                    fence,
                    timeline_wait,
                    timeline,
                    is_async: true,
                },
                reply: false,
                async_reply: true,
            },
        )
    }

    /// Close the handoff of an asynchronous submission. Only a request that the
    /// owner took publishes its timeline value as queued.
    pub fn handed_off(
        &self,
        sent: bool,
        timeline: Option<(Semaphore, u64)>,
        stamps: &mut StampCompletion,
    ) -> (result: Result<(), VkResult>)
        requires
            old(stamps).wf(),
        ensures
            final(stamps).wf(),
            !sent ==> result == Err::<(), VkResult>(device_lost()) && final(stamps)@ == old(stamps)@,
            sent ==> result is Ok && final(stamps)@ == match timeline {
                Some(timeline) => StampView {
                    latest_queued: if timeline.1 > old(stamps)@.latest_queued {
                        timeline.1
                    } else {
                        old(stamps)@.latest_queued
                    },
                    ..old(stamps)@
                },
                None => old(stamps)@,
            },
    {
        if !sent {
            return Err(VkResult(ERROR_DEVICE_LOST));
        }
        if let Some(timeline) = timeline {
            stamps.queued(timeline.1);
        }
        Ok(())
    }

    /// The request that presents an image behind a submission, or the failure
    /// that stopped the queue.
    pub fn enqueue_present(
        &self,
        submit: OwnedSubmit,
        wait: Semaphore,
        swapchain: Swapchain,
        image_index: u32,
    ) -> (request: Result<Request, VkResult>)
        ensures
            request == match self@.failure {
                Some(failure) => Err(failure),
                None => Ok(
                    Request::PresentTransaction {
                        submit: OwnedSubmit {
                            timeline_wait: None,
                            timeline: None,
                            is_async: false,
                            ..submit
                        },
                        wait,
                        swapchain,
                        image_index,
                    },
                ),
            },
    {
        if let Some(failure) = self.failure.get() {
            return Err(failure);
        }
        Ok(
            Request::PresentTransaction {
                submit: OwnedSubmit {
                    timeline_wait: None,
                    timeline: None,
                    is_async: false,
                    ..submit
                },
                wait,
                swapchain,
                image_index,
            },
        )
    }

    /// The request that waits for an idle queue. It reaches the owner even
    /// after a failure: what the driver still runs must end first.
    pub fn wait_idle(&self) -> (request: Request)
        ensures
            request is WaitIdle,
    {
        Request::WaitIdle
    }

    /// The request that answers once everything ahead of it was handled.
    pub fn barrier(&self) -> (request: Request)
        ensures
            request is Barrier,
    {
        Request::Barrier
    }

    /// What the owner's thread does with `request`. Once a failure is latched
    /// no submission reaches the driver.
    pub fn next_action(&self, request: &Request) -> (action: QueueAction)
        requires
            match *request {
                Request::Submit { submit, .. } => submit.wf(),
                Request::PresentTransaction { submit, .. } => submit.wf(),
                _ => true,
            },
        ensures
            match *request {
                Request::Submit { submit, .. } => self.submission_action(submit, action),
                Request::PresentTransaction { submit, .. } => self.submission_action(
                    submit,
                    action,
                ),
                Request::WaitIdle => action is WaitIdle,
                Request::Barrier => action is Acknowledge,
                Request::Stop => action is Stop,
            },
    {
        match request {
            Request::Submit { submit, .. } => self.submit_action(submit),
            Request::PresentTransaction { submit, .. } => self.submit_action(submit),
            Request::WaitIdle => QueueAction::WaitIdle,
            Request::Barrier => QueueAction::Acknowledge,
            Request::Stop => QueueAction::Stop,
        }
    }

    /// A submission is refused with the latched failure, or reaches the driver
    /// as it is.
    pub open spec fn submission_action(self, submit: OwnedSubmit, action: QueueAction) -> bool {
        match self@.failure {
            Some(failure) => action == QueueAction::Refuse(failure),
            None => action matches QueueAction::Submit(call) && call.is_of(submit),
        }
    }

    fn submit_action(&self, submit: &OwnedSubmit) -> (action: QueueAction)
        requires
            submit.wf(),
        ensures
            self.submission_action(*submit, action),
    {
        if let Some(failure) = self.failure.get() {
            return QueueAction::Refuse(failure);
        }
        let operands = semaphore_submit_operands(
            submit.wait_semaphores.as_slice(),
            submit.wait_stages.as_slice(),
            submit.signal_semaphores.as_slice(),
            submit.timeline_wait,
            submit.timeline,
        );
        QueueAction::Submit(
            SubmitCall {
                command_buffers: copied(submit.command_buffers.as_slice()),
                operands,
                fence: submit.fence,
            },
        )
    }

    /// Turn the outcome of a submission into its answer. `result` is what the
    /// driver said, or the failure the action refused it with.
    pub fn finish_submit(
        &mut self,
        submit: &OwnedSubmit,
        reply: bool,
        async_reply: bool,
        result: Result<(), VkResult>,
        queue_us: u64,
        driver_us: u64,
    ) -> (answer: SubmitAnswer)
        ensures
            final(self)@.stats == stats_after_submit(
                old(self)@.stats,
                submit.is_async,
                queue_us,
                driver_us,
            ),
            final(self)@.failure == failure_after_submit(old(self)@.failure, reply, result),
            answer.receipt == if async_reply {
                Some(result)
            } else {
                None
            },
            answer.reply == if reply {
                Some(result)
            } else {
                None
            },
            answer.published == match (result, submit.timeline) {
                (Ok(_), Some(timeline)) => Some(timeline.1),
                _ => None,
            },
            tells_of_the_first(old(self)@.failure, final(self)@.failure, answer.latched),
    {
        if submit.is_async {
            self.stats.async_submits = self.stats.async_submits.wrapping_add(1);
            self.stats.async_queue_us = self.stats.async_queue_us.wrapping_add(queue_us);
            self.stats.async_driver_us = self.stats.async_driver_us.wrapping_add(driver_us);
        }
        let mut latched: Option<String> = None;
        if !reply {
            if let Err(error) = result {
                latched = self.failure.set(error);
            }
        }
        let published: Option<u64> = match result {
            Ok(()) => match submit.timeline {
                Some(timeline) => Some(timeline.1),
                None => None,
            },
            Err(_) => None,
        };
        SubmitAnswer {
            receipt: if async_reply {
                Some(result)
            } else {
                None
            },
            reply: if reply {
                Some(result)
            } else {
                None
            },
            published,
            latched,
        }
    }

    /// Whether the image may be presented after its submission; the failure to
    /// answer with otherwise.
    /// A failure that stops the queue comes with the line to report, and the
    /// device counts as lost.
    pub fn present_submitted(&mut self, result: Result<(), VkResult>) -> (told: (
        Result<(), VkResult>,
        Option<String>,
    ))
        ensures
            final(self)@.stats == old(self)@.stats,
            match old(self)@.failure {
                Some(failure) => told.0 == Err::<(), VkResult>(failure) && final(self)@.failure
                    == old(self)@.failure,
                None => told.0 == result && final(self)@.failure == match result {
                    Ok(_) => None,
                    Err(error) => Some(error),
                },
            },
            tells_of_the_first(old(self)@.failure, final(self)@.failure, told.1),
    {
        if let Some(failure) = self.failure.get() {
            return (Err(failure), None);
        }
        let mut latched: Option<String> = None;
        if let Err(error) = result {
            latched = self.failure.set(error);
        }
        (result, latched)
    }

    /// Turn the outcome of a present into its answer. Only a lost device stops
    /// the queue; an outdated swapchain does not. A loss that stops the queue
    /// comes with the line to report, and the device counts as lost.
    pub fn present_returned(&mut self, result: Result<bool, VkResult>) -> (told: (
        Result<bool, VkResult>,
        Option<String>,
    ))
        ensures
            told.0 == result,
            final(self)@.stats == old(self)@.stats,
            final(self)@.failure == if old(self)@.failure is None && result == Err::<
                bool,
                VkResult,
            >(device_lost()) {
                Some(device_lost())
            } else {
                old(self)@.failure
            },
            tells_of_the_first(old(self)@.failure, final(self)@.failure, told.1),
    {
        let mut latched: Option<String> = None;
        if let Err(error) = result {
            if error.0 == ERROR_DEVICE_LOST {
                latched = self.failure.set(VkResult(ERROR_DEVICE_LOST));
            }
        }
        (result, latched)
    }

    /// Count one present transaction.
    pub fn note_present(&mut self, queue_us: u64, driver_us: u64)
        ensures
            final(self)@.failure == old(self)@.failure,
            final(self)@.stats == (QueueStats {
                present_transactions: old(self)@.stats.present_transactions.wrapping_add(1),
                present_queue_us: old(self)@.stats.present_queue_us.wrapping_add(queue_us),
                present_driver_us: old(self)@.stats.present_driver_us.wrapping_add(driver_us),
                ..old(self)@.stats
            }),
    {
        self.stats.present_transactions = self.stats.present_transactions.wrapping_add(1);
        self.stats.present_queue_us = self.stats.present_queue_us.wrapping_add(queue_us);
        self.stats.present_driver_us = self.stats.present_driver_us.wrapping_add(driver_us);
    }

    /// Turn the driver's word on an idle wait into its answer: its own error
    /// first, then the latched failure.
    pub fn finish_wait_idle(&self, waited: Result<(), VkResult>) -> (answer: Result<(), VkResult>)
        ensures
            answer == match waited {
                Err(error) => Err::<(), VkResult>(error),
                Ok(_) => match self@.failure {
                    Some(failure) => Err(failure),
                    None => Ok(()),
                },
            },
    {
        match waited {
            Err(error) => Err(error),
            Ok(()) => match self.failure.get() {
                Some(failure) => Err(failure),
                None => Ok(()),
            },
        }
    }
}

/// Submit and present as one transaction. A latched failure calls neither
/// closure; a failed submission latches and skips the present: `submit` need not
/// be callable behind a latched failure, nor `present` behind a failed submission. A failure that
/// stops the queue comes with the line to report, and the device counts as lost.
pub fn complete_present_transaction<
    S: FnOnce() -> Result<(), VkResult>,
    P: FnOnce() -> Result<bool, VkResult>,
>(owner: &mut QueueOwner, submit: S, present: P) -> (told: (Result<bool, VkResult>, Option<String>))
    requires
        old(owner)@.failure is None ==> submit.requires(()),
        (old(owner)@.failure is None && exists|submitted: Result<(), VkResult>| #[trigger]
            submit.ensures((), submitted) && submitted is Ok) ==> present.requires(()),
    ensures
        final(owner)@.stats == old(owner)@.stats,
        old(owner)@.failure matches Some(failure) ==> told.0 == Err::<bool, VkResult>(failure)
            && final(owner)@.failure == old(owner)@.failure,
        old(owner)@.failure is None ==> exists|submitted: Result<(), VkResult>| #[trigger]
            submit.ensures((), submitted) && match submitted {
                Err(error) => told.0 == Err::<bool, VkResult>(error) && final(owner)@.failure
                    == Some(error),
                Ok(_) => present.ensures((), told.0) && final(owner)@.failure == if told.0 == Err::<
                    bool,
                    VkResult,
                >(device_lost()) {
                    Some(device_lost())
                } else {
                    None
                },
            },
        tells_of_the_first(old(owner)@.failure, final(owner)@.failure, told.1),
{
    if let Some(failure) = owner.failure() {
        return (Err(failure), None);
    }
    let submitted = submit();
    let (go, latched) = owner.present_submitted(submitted);
    if let Err(error) = go {
        return (Err(error), latched);
    }
    let presented = present();
    owner.present_returned(presented)
}

/// A submission without binary semaphores.
pub open spec fn plain_submit(
    submit: OwnedSubmit,
    command_buffers: Seq<CommandBuffer>,
    fence: Fence,
    timeline_wait: Option<TimelineWait>,
    timeline: Option<(Semaphore, u64)>,
    is_async: bool,
) -> bool {
    &&& submit.command_buffers@ == command_buffers
    &&& submit.wait_semaphores@ == Seq::<Semaphore>::empty()
    &&& submit.wait_stages@ == Seq::<PipelineStageFlags>::empty()
    &&& submit.signal_semaphores@ == Seq::<Semaphore>::empty()
    &&& submit.fence == fence
    &&& submit.timeline_wait == timeline_wait
    &&& submit.timeline == timeline
    &&& submit.is_async == is_async
}

/// The first failure is sticky: whatever a later submission comes to, the
/// owner goes on answering with the failure it latched.
pub proof fn law_first_failure_is_sticky(
    failure: VkResult,
    reply: bool,
    result: Result<(), VkResult>,
)
    ensures
        failure_after_submit(Some(failure), reply, result) == Some(failure),
{
}

/// A failure whose caller waits for it is told to that caller alone; one whose
/// caller went on stops the queue.
pub proof fn law_only_unwaited_failures_latch(reply: bool, error: VkResult)
    ensures
        failure_after_submit(None, reply, Err(error)) == if reply {
            None
        } else {
            Some(error)
        },
        failure_after_submit(None, reply, Ok(())) is None,
{
}

/// A submission may wait for a value of its own timeline only where it signals a later one.
pub proof fn law_a_submission_waits_only_for_earlier_values(
    wait: Option<TimelineWait>,
    signal: Option<(Semaphore, u64)>,
)
    ensures
        wait is None || signal is None ==> waits_only_for_the_past(wait, signal),
        wait matches Some(waited) ==> (signal matches Some(signaled) ==> {
            &&& waited.semaphore == signaled.0 ==> (waits_only_for_the_past(wait, signal)
                <==> waited.value < signaled.1)
            &&& waited.semaphore != signaled.0 ==> waits_only_for_the_past(wait, signal)
        }),
{
}

/// The driver is told each binary semaphore with its own stage and no value, in order, and
/// behind them the timeline with its value.
pub proof fn law_operands_tell_every_semaphore(
    operands: SemaphoreSubmitOperands,
    binary_waits: Seq<Semaphore>,
    binary_wait_stages: Seq<PipelineStageFlags>,
    binary_signals: Seq<Semaphore>,
    timeline_wait: Option<TimelineWait>,
    timeline_signal: Option<(Semaphore, u64)>,
    k: int,
)
    requires
        binary_waits.len() == binary_wait_stages.len(),
        operands.carries(
            binary_waits,
            binary_wait_stages,
            binary_signals,
            timeline_wait,
            timeline_signal,
        ),
    ensures
        0 <= k < binary_waits.len() ==> {
            &&& operands.wait_semaphores@[k] == binary_waits[k]
            &&& operands.wait_stages@[k] == binary_wait_stages[k]
            &&& operands.wait_values@[k] == 0
        },
        0 <= k < binary_signals.len() ==> operands.signal_semaphores@[k] == binary_signals[k]
            && operands.signal_values@[k] == 0,
        operands.wait_semaphores@.len() == binary_waits.len() + if timeline_wait is Some {
            1int
        } else {
            0
        },
        operands.signal_semaphores@.len() == binary_signals.len() + if timeline_signal is Some {
            1int
        } else {
            0
        },
        timeline_wait matches Some(wait) ==> {
            &&& operands.wait_semaphores@.last() == wait.semaphore
            &&& operands.wait_stages@.last() == wait.stage
            &&& operands.wait_values@.last() == wait.value
        },
        timeline_signal matches Some(signal) ==> operands.signal_semaphores@.last() == signal.0
            && operands.signal_values@.last() == signal.1,
        operands.has_timeline <==> timeline_wait is Some || timeline_signal is Some,
{
}

/// The driver is called with the submission as it is: its command buffers in order, its fence
/// and its semaphores.
pub proof fn law_a_call_is_its_submission(call: SubmitCall, submit: OwnedSubmit)
    requires
        call.is_of(submit),
    ensures
        call.command_buffers@ == submit.command_buffers@,
        call.fence == submit.fence,
        call.operands.has_timeline <==> submit.timeline_wait is Some || submit.timeline is Some,
        submit.timeline matches Some(signal) ==> call.operands.signal_semaphores@.last() == signal.0
            && call.operands.signal_values@.last() == signal.1,
        submit.wait_semaphores@ == call.operands.wait_semaphores@.take(
            submit.wait_semaphores@.len() as int,
        ),
        submit.signal_semaphores@ == call.operands.signal_semaphores@.take(
            submit.signal_semaphores@.len() as int,
        ),
{
    assert(submit.wait_semaphores@ =~= call.operands.wait_semaphores@.take(
        submit.wait_semaphores@.len() as int,
    ));
    assert(submit.signal_semaphores@ =~= call.operands.signal_semaphores@.take(
        submit.signal_semaphores@.len() as int,
    ));
}

/// A receipt tells what came back, nothing while nothing did, and a lost device where the
/// owner is gone.
pub proof fn law_a_receipt_never_looks_better_than_it_is(state: ReceiptState)
    ensures
        state is Empty <==> receipt_outcome(state) is None,
        state matches ReceiptState::Returned(result) ==> receipt_outcome(state) == Some(result),
        state is Disconnected ==> receipt_outcome(state) == Some(
            Err::<(), VkResult>(VkResult(-4i32)),
        ),
{
}

/// Only asynchronous submissions are counted, each once and with its own times.
pub proof fn law_asynchronous_submissions_are_counted(
    stats: QueueStats,
    queue_us: u64,
    driver_us: u64,
)
    ensures
        stats_after_submit(stats, false, queue_us, driver_us) == stats,
        ({
            let after = stats_after_submit(stats, true, queue_us, driver_us);
            &&& after.async_submits == stats.async_submits.wrapping_add(1)
            &&& after.async_queue_us == stats.async_queue_us.wrapping_add(queue_us)
            &&& after.async_driver_us == stats.async_driver_us.wrapping_add(driver_us)
            &&& after.present_transactions == stats.present_transactions
            &&& after.present_queue_us == stats.present_queue_us
            &&& after.present_driver_us == stats.present_driver_us
        }),
{
}

/// The failure that stopped the queue is told once, when it is latched.
pub proof fn law_a_latched_failure_is_told_once(
    before: Option<VkResult>,
    after: Option<VkResult>,
    latched: Option<String>,
)
    requires
        tells_of_the_first(before, after, latched),
    ensures
        before is Some ==> latched is None,
        after is None ==> latched is None,
        before is None && after is Some ==> latched is Some,
        latched matches Some(line) ==> (after matches Some(result) ==> line@ == latched_line_text(
            vk_result_text(result.0),
        )),
{
}

/// A stopped queue refuses every submission with the failure that stopped it, and a healthy
/// one hands each to the driver.
pub proof fn law_a_stopped_queue_refuses_everything(
    owner: QueueOwner,
    submit: OwnedSubmit,
    action: QueueAction,
)
    requires
        owner.submission_action(submit, action),
    ensures
        owner@.failure matches Some(failure) ==> action == QueueAction::Refuse(failure),
        owner@.failure is None ==> (action matches QueueAction::Submit(call)
            && call.command_buffers@ == submit.command_buffers@ && call.fence == submit.fence),
{
}

/// A plain submission carries its command buffers, fence and timeline points and no binary
/// semaphore.
pub proof fn law_a_plain_submission_has_no_binary_semaphores(
    submit: OwnedSubmit,
    command_buffers: Seq<CommandBuffer>,
    fence: Fence,
    timeline_wait: Option<TimelineWait>,
    timeline: Option<(Semaphore, u64)>,
    is_async: bool,
)
    requires
        plain_submit(submit, command_buffers, fence, timeline_wait, timeline, is_async),
    ensures
        submit.command_buffers@ == command_buffers,
        submit.fence == fence,
        submit.timeline_wait == timeline_wait,
        submit.timeline == timeline,
        submit.is_async == is_async,
        submit.wait_semaphores@.len() == 0,
        submit.wait_stages@.len() == 0,
        submit.signal_semaphores@.len() == 0,
        waits_only_for_the_past(timeline_wait, timeline) ==> submit.wf(),
{
}

/// What is told of a stopped queue ends with the driver's word.
pub proof fn law_a_stopped_queue_tells_the_drivers_word(result: VkResult)
    ensures
        latched_text(result).skip(
            "vk_queue_async_submit_failed reason=vk_queue_async_submit_failed result="@.len() as int,
        ) == vk_result_text(result.0),
{
    let head = "vk_queue_async_submit_failed reason=vk_queue_async_submit_failed result="@;
    assert((head + vk_result_text(result.0)).skip(head.len() as int) =~= vk_result_text(result.0));
}

} // verus!
