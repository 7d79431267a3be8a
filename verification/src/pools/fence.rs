//! Waiting for fences, and what the pools count while they work.

use crate::pools::created::{CreateCounts, CreateSite};
use crate::types::{DeviceLostDecline, DeviceLostOp, DrawError, VkCall};
use crate::vk::{VkResult, ERROR_DEVICE_LOST, TIMEOUT};
use vstd::prelude::*;

verus! {

/// What the pools count. Every count goes on from zero after the largest
/// number.
#[derive(Debug)]
pub struct EngineCounters {
    /// Waits that ended without their fence.
    pub fence_timeouts: u64,
    /// Draws that joined an open batch.
    pub batch_joins: u64,
    /// Batches opened.
    pub batch_opens: u64,
    /// Batches submitted.
    pub batch_flushes: u64,
    /// Draws of the batches submitted.
    pub batch_flush_draws: u64,
    /// Entries that had to wait for a slot of the ring.
    pub ring_retire_blocks: u64,
    /// Sampled images found in the cache.
    pub sampled_cache_hits: u64,
    /// The bytes that were not uploaded for it.
    pub sampled_cache_hit_bytes: u64,
    /// Sampled images not found in the cache.
    pub sampled_cache_misses: u64,
    /// Blocks added to a descriptor arena.
    pub desc_pool_grow: u64,
    /// Pipelines that were bound already.
    pub dynstate_pipeline_held: u64,
    /// Viewports that were set already.
    pub dynstate_viewport_held: u64,
    /// Scissors that were set already.
    pub dynstate_scissor_held: u64,
    /// Stencil references that were set already.
    pub dynstate_stencil_held: u64,
    /// Depth biases that were set already.
    pub dynstate_depth_bias_held: u64,
    /// Blend constants that were set already.
    pub dynstate_blend_constants_held: u64,
    /// Descriptors that were pushed already.
    pub descriptor_push_held: u64,
    /// Vertex buffers asked for.
    pub vertex_buffer_bind_slots: u64,
    /// Vertex buffers that were bound already.
    pub vertex_buffer_bind_held: u64,
    /// Vertex buffers bound.
    pub vertex_buffer_bind_emitted: u64,
    /// The calls that bound them.
    pub vertex_buffer_bind_calls: u64,
    /// Microseconds in closing batches.
    pub batch_flush_close_us: u64,
    /// Microseconds in ending their command buffers.
    pub batch_flush_end_us: u64,
    /// Microseconds in handing them to the queue.
    pub batch_flush_submit_us: u64,
    /// Microseconds in parking them on their slots.
    pub batch_flush_finish_us: u64,
    /// The objects made.
    pub created: CreateCounts,
    /// Memory allocated for one object alone.
    pub allocations: u64,
}

/// A part of submitting a batch.
#[derive(Clone, Copy, Debug, PartialEq, Eq, Structural)]
pub enum FlushPart {
    /// Its pass is closed and its timed region ends.
    Close,
    /// Its command buffer is ended.
    End,
    /// It is handed to the queue.
    Submit,
    /// It is parked on its slot.
    Finish,
}

impl EngineCounters {
    /// Nothing counted yet.
    pub fn new() -> (counters: EngineCounters)
        ensures
            counters == (EngineCounters {
                fence_timeouts: 0,
                batch_joins: 0,
                batch_opens: 0,
                batch_flushes: 0,
                batch_flush_draws: 0,
                ring_retire_blocks: 0,
                sampled_cache_hits: 0,
                sampled_cache_hit_bytes: 0,
                sampled_cache_misses: 0,
                desc_pool_grow: 0,
                dynstate_pipeline_held: 0,
                dynstate_viewport_held: 0,
                dynstate_scissor_held: 0,
                dynstate_stencil_held: 0,
                dynstate_depth_bias_held: 0,
                dynstate_blend_constants_held: 0,
                descriptor_push_held: 0,
                vertex_buffer_bind_slots: 0,
                vertex_buffer_bind_held: 0,
                vertex_buffer_bind_emitted: 0,
                vertex_buffer_bind_calls: 0,
                batch_flush_close_us: 0,
                batch_flush_end_us: 0,
                batch_flush_submit_us: 0,
                batch_flush_finish_us: 0,
                created: CreateCounts::zero(),
                allocations: 0,
            }),
    {
        EngineCounters {
            fence_timeouts: 0,
            batch_joins: 0,
            batch_opens: 0,
            batch_flushes: 0,
            batch_flush_draws: 0,
            ring_retire_blocks: 0,
            sampled_cache_hits: 0,
            sampled_cache_hit_bytes: 0,
            sampled_cache_misses: 0,
            desc_pool_grow: 0,
            dynstate_pipeline_held: 0,
            dynstate_viewport_held: 0,
            dynstate_scissor_held: 0,
            dynstate_stencil_held: 0,
            dynstate_depth_bias_held: 0,
            dynstate_blend_constants_held: 0,
            descriptor_push_held: 0,
            vertex_buffer_bind_slots: 0,
            vertex_buffer_bind_held: 0,
            vertex_buffer_bind_emitted: 0,
            vertex_buffer_bind_calls: 0,
            batch_flush_close_us: 0,
            batch_flush_end_us: 0,
            batch_flush_submit_us: 0,
            batch_flush_finish_us: 0,
            created: CreateCounts::new(),
            allocations: 0,
        }
    }

    /// The counters after the driver was asked for an object for `site`: it
    /// counts where it was made.
    pub open spec fn after_create(self, site: CreateSite, made: bool) -> EngineCounters {
        if made {
            EngineCounters { created: self.created.after(site), ..self }
        } else {
            self
        }
    }

    /// Count an object that was made.
    pub fn note_create(&mut self, site: CreateSite)
        ensures
            *final(self) == old(self).after_create(site, true),
    {
        self.created.note(site);
    }

    /// Count the `us` microseconds that a part of submitting a batch took.
    pub fn note_flush_us(&mut self, part: FlushPart, us: u64)
        ensures
            *final(self) == match part {
                FlushPart::Close => EngineCounters {
                    batch_flush_close_us: counted(old(self).batch_flush_close_us, us),
                    ..*old(self)
                },
                FlushPart::End => EngineCounters {
                    batch_flush_end_us: counted(old(self).batch_flush_end_us, us),
                    ..*old(self)
                },
                FlushPart::Submit => EngineCounters {
                    batch_flush_submit_us: counted(old(self).batch_flush_submit_us, us),
                    ..*old(self)
                },
                FlushPart::Finish => EngineCounters {
                    batch_flush_finish_us: counted(old(self).batch_flush_finish_us, us),
                    ..*old(self)
                },
            },
    {
        match part {
            FlushPart::Close => count(&mut self.batch_flush_close_us, us),
            FlushPart::End => count(&mut self.batch_flush_end_us, us),
            FlushPart::Submit => count(&mut self.batch_flush_submit_us, us),
            FlushPart::Finish => count(&mut self.batch_flush_finish_us, us),
        }
    }

    /// Count an allocation for one object alone.
    pub fn note_alloc(&mut self)
        ensures
            *final(self) == (EngineCounters {
                allocations: counted(old(self).allocations, 1),
                ..*old(self)
            }),
    {
        count(&mut self.allocations, 1);
    }
}

/// `count` after `more` were counted.
pub open spec fn counted(count: u64, more: u64) -> u64 {
    if count + more > u64::MAX {
        (count + more - u64::MAX - 1) as u64
    } else {
        (count + more) as u64
    }
}

/// Count `more`.
pub fn count(counter: &mut u64, more: u64)
    ensures
        *final(counter) == counted(*old(counter), more),
{
    *counter = counter.wrapping_add(more);
}

/// What one wait for a fence found.
#[derive(Clone, Copy, Debug, PartialEq, Eq, Structural)]
pub enum FenceWait {
    /// The fence is signalled.
    Signaled,
    /// It is not yet.
    Pending,
    /// The wait failed.
    Failed(VkResult),
}

/// What the driver's answer to a wait means.
pub open spec fn fence_wait(result: Result<(), VkResult>) -> FenceWait {
    match result {
        Ok(_) => FenceWait::Signaled,
        Err(error) => if error.0 == TIMEOUT {
            FenceWait::Pending
        } else {
            FenceWait::Failed(error)
        },
    }
}

/// What the driver's answer to a wait means. A timeout says only that the fence
/// is not signalled yet.
pub fn classify_fence_wait(result: Result<(), VkResult>) -> (wait: FenceWait)
    ensures
        wait == fence_wait(result),
{
    match result {
        Ok(()) => FenceWait::Signaled,
        Err(error) => if error.0 == TIMEOUT {
            FenceWait::Pending
        } else {
            FenceWait::Failed(error)
        },
    }
}

/// The error that a failed wait amounts to.
pub open spec fn wait_failure(e: VkResult, op: DeviceLostOp) -> DrawError {
    if e.0 == TIMEOUT {
        DrawError::FenceTimeout
    } else if e.0 == ERROR_DEVICE_LOST {
        DrawError::DeviceLost(DeviceLostDecline::Driver { op, result: e })
    } else {
        DrawError::VkCall(VkCall { op: op.call(), result: e })
    }
}

/// The counters after a failed wait: a timeout is counted.
pub open spec fn wait_counted(counters: EngineCounters, e: VkResult) -> EngineCounters {
    EngineCounters {
        fence_timeouts: if e.0 == TIMEOUT {
            counted(counters.fence_timeouts, 1)
        } else {
            counters.fence_timeouts
        },
        ..counters
    }
}

/// The error that a failed wait amounts to.
pub fn wait_error(counters: &mut EngineCounters, e: VkResult, op: DeviceLostOp) -> (error:
    DrawError)
    ensures
        error == wait_failure(e, op),
        *final(counters) == wait_counted(*old(counters), e),
{
    if e.0 == TIMEOUT {
        count(&mut counters.fence_timeouts, 1);
        DrawError::FenceTimeout
    } else if e.0 == ERROR_DEVICE_LOST {
        DrawError::DeviceLost(DeviceLostDecline::Driver { op, result: e })
    } else {
        DrawError::VkCall(VkCall::new(op.vk_op(), e))
    }
}

/// What to do after one wait for a fence.
#[derive(Debug)]
pub enum FenceTurn {
    /// Stop: the fence is signalled.
    Signaled,
    /// Wait again.
    WaitAgain {
        /// Report first that the fence is late.
        report: bool,
    },
    /// Stop: the fence cannot be waited for.
    Failed(DrawError),
}

/// A wait for one submitted fence.
///
/// The interval of a wait is there to look at the queue now and then. That it
/// runs out means nothing: the fence alone says when the work is done. The
/// first time it is reported, and every time it is counted.
#[derive(Debug)]
pub struct FenceWaiter {
    /// The fence was reported late.
    pub reported: bool,
}

impl FenceWaiter {
    /// A wait that has not begun.
    pub fn new() -> (waiter: FenceWaiter)
        ensures
            !waiter.reported,
    {
        FenceWaiter { reported: false }
    }

    /// Whether to wait at all: not on a queue that failed.
    pub fn check_queue(
        &self,
        counters: &mut EngineCounters,
        queue_failure: Option<VkResult>,
        op: DeviceLostOp,
    ) -> (checked: Result<(), DrawError>)
        ensures
            match queue_failure {
                Some(error) => checked == Err::<(), DrawError>(wait_failure(error, op))
                    && *final(counters) == wait_counted(*old(counters), error),
                None => checked is Ok && *final(counters) == *old(counters),
            },
    {
        match queue_failure {
            Some(error) => Err(wait_error(counters, error, op)),
            None => Ok(()),
        }
    }

    /// What to do after a wait that the driver answered with `result`.
    pub fn waited(
        &mut self,
        counters: &mut EngineCounters,
        result: Result<(), VkResult>,
        op: DeviceLostOp,
    ) -> (turn: FenceTurn)
        ensures
            match fence_wait(result) {
                FenceWait::Signaled => {
                    &&& turn is Signaled
                    &&& *final(self) == *old(self)
                    &&& *final(counters) == *old(counters)
                },
                FenceWait::Pending => {
                    &&& turn == (FenceTurn::WaitAgain { report: !old(self).reported })
                    &&& final(self).reported
                    &&& *final(counters) == (EngineCounters {
                        fence_timeouts: counted(old(counters).fence_timeouts, 1),
                        ..*old(counters)
                    })
                },
                FenceWait::Failed(error) => {
                    &&& turn == FenceTurn::Failed(wait_failure(error, op))
                    &&& *final(self) == *old(self)
                    &&& *final(counters) == *old(counters)
                },
            },
    {
        match classify_fence_wait(result) {
            FenceWait::Signaled => FenceTurn::Signaled,
            FenceWait::Pending => {
                count(&mut counters.fence_timeouts, 1);
                let report = !self.reported;
                self.reported = true;
                FenceTurn::WaitAgain { report }
            },
            FenceWait::Failed(error) => FenceTurn::Failed(wait_error(counters, error, op)),
        }
    }
}

/// However long a fence takes, waiting for it never fails for that alone.
pub proof fn law_a_late_fence_stays_pending(result: Result<(), VkResult>)
    ensures
        fence_wait(result) is Failed <==> (result matches Err(error) && error.0 != TIMEOUT),
        result == Err::<(), VkResult>(VkResult(TIMEOUT)) ==> fence_wait(result) is Pending,
{
}

/// A counter counts on modulo its 64 bits.
pub proof fn law_a_counter_counts_modulo_its_width(count: u64, more: u64)
    ensures
        counted(count, more) as int == (count + more) % 0x1_0000_0000_0000_0000,
        counted(count, more) == count.wrapping_add(more),
{
}

/// A fence that answers is signalled, one that is late is waited for again, and
/// any other answer fails with what the driver said.
pub proof fn law_an_answer_to_a_wait_means_one_thing(result: Result<(), VkResult>)
    ensures
        fence_wait(result) is Signaled <==> result is Ok,
        fence_wait(result) is Pending <==> (result matches Err(error) && error.0 == 2),
        result matches Err(error) ==> (error.0 != 2 ==> fence_wait(result) == FenceWait::Failed(
            error,
        )),
{
}

/// A failed wait is told as what it is: a timeout as one, a lost device under
/// the name of its loss, and everything else as the call that failed, each with
/// the driver's own answer. Only a timeout is counted as one.
pub proof fn law_a_failed_wait_tells_what_failed(
    counters: EngineCounters,
    e: VkResult,
    op: DeviceLostOp,
)
    ensures
        wait_failure(e, op) is FenceTimeout <==> e.0 == 2,
        wait_failure(e, op) is DeviceLost <==> e.0 == -4,
        wait_failure(e, op) matches DrawError::DeviceLost(decline) ==> decline == (
        DeviceLostDecline::Driver { op, result: e }),
        e.0 != 2 && e.0 != -4 ==> wait_failure(e, op) == DrawError::VkCall(
            VkCall { op: op.call(), result: e },
        ),
        wait_counted(counters, e) == if e.0 == 2 {
            EngineCounters {
                fence_timeouts: counters.fence_timeouts.wrapping_add(1),
                ..counters
            }
        } else {
            counters
        },
{
}

/// An object counts where it was made, and a refusal counts nothing.
pub proof fn law_only_what_was_made_counts(counters: EngineCounters, site: CreateSite)
    ensures
        counters.after_create(site, false) == counters,
        counters.after_create(site, true).created == counters.created.after(site),
        counters.after_create(site, true) == (EngineCounters {
            created: counters.after_create(site, true).created,
            ..counters
        }),
{
}

} // verus!
