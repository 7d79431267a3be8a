//! Whole command buffers: made, recorded, submitted, retired and taken down.

use reims_vgpu_vulkan::pools::batch::FlushPlan;
use reims_vgpu_vulkan::pools::encoder::{
    Area, BatchTarget, PassCompatibility, PassEcho, RecordingStampId,
};
use reims_vgpu_vulkan::pools::fence::{EngineCounters, FenceTurn, FenceWaiter, FlushPart};
use reims_vgpu_vulkan::pools::guest_debt::GuestWriteSource;
use reims_vgpu_vulkan::pools::limits::{
    IDLE_MAINTENANCE_START_MS, IDLE_RECYCLE_TRIM_PER_PASS, MAINTENANCE_INTERVAL_MS, PASS_SPANS,
    RING_DEPTH, SETTLED_PASSES_FOR_BUFFER_TRIM,
};
use reims_vgpu_vulkan::pools::making::{RingBuild, Unmake};
use reims_vgpu_vulkan::pools::memo::GuestPages;
use reims_vgpu_vulkan::pools::pass::{PassBegin, PassEnd, PassStamp, SpanRead};
use reims_vgpu_vulkan::pools::readback::{Acquired, LeaseTokens, ReadbackLeaseReturns};
use reims_vgpu_vulkan::pools::resource::ResourcePools;
use reims_vgpu_vulkan::pools::sampled_cache::{Admission, LiveOwners};
use reims_vgpu_vulkan::pools::shared::{ParentRetire, ScatterPipeline};
use reims_vgpu_vulkan::pools::slots::{
    BufferBacking, BufferSlot, DeferredHandle, DescriptorRef, FreeTargetImage, GuestWriteToken,
    ImportId, SampledKey, SampledRetain, SampledSlot, SlotSpan, SlotSubmission, SpanKind,
    SubmissionIdentity, Swizzle, TargetIdentity, TargetRecycleKey,
};
use reims_vgpu_vulkan::pools::teardown::{
    lease_wait, LeaseWait, NativeRelease, ReadbackLeaseQuiesceExpired, TeardownAction,
    TeardownEvent, TeardownStage, LEASE_QUIESCE_MS,
};
use reims_vgpu_vulkan::queue_owner::{PendingQueueSubmit, ReceiptState};
use reims_vgpu_vulkan::stamp_completion::SessionId;
use reims_vgpu_vulkan::types::{DeviceLostDecline, DeviceLostOp, DrawError, VkCall, VkOp};
use reims_vgpu_vulkan::vk::{
    Buffer, CommandBuffer, CommandPool, DescriptorPool, DescriptorSet, DeviceMemory, Fence, Format,
    Framebuffer, Image, ImageView, Pipeline, PipelineLayout, QueryPool, VkResult,
    ERROR_DEVICE_LOST, ERROR_OUT_OF_DEVICE_MEMORY, TIMEOUT,
};

const WAIT: DeviceLostOp = DeviceLostOp::PoolsWaitFencesRetire;

fn live(owners: &[u64]) -> LiveOwners {
    LiveOwners {
        alive: owners.to_vec(),
    }
}

/// Pools with a ring of four command buffers, 10 to 13, and fences, 20 to 23.
fn ringed() -> ResourcePools {
    let mut counters = EngineCounters::new();
    let mut pools = ResourcePools::new();
    let depth = pools.encoder.ensure_init(8).unwrap();
    assert_eq!(depth, RING_DEPTH);
    let pool = RingBuild::pool_created(&mut counters, Ok(CommandPool(5))).unwrap();
    let buffers = (0..depth as u64).map(|i| CommandBuffer(10 + i)).collect();
    let mut build = RingBuild::buffers_allocated(pool, Ok(buffers))
        .unwrap()
        .arena_created(&mut counters, Ok(()))
        .unwrap();
    let mut next = 20;
    while build.needs_fence() {
        build = build
            .fence_created(&mut counters, Ok(Fence(next)))
            .unwrap();
        next += 1;
    }
    pools.encoder.install_ring(build);
    assert_eq!(counters.created.command_pools, 1);
    assert_eq!(counters.created.descriptor_pools, 1);
    assert_eq!(counters.created.fences, RING_DEPTH as u64);
    pools
}

fn sampled(image: u64) -> SampledSlot {
    SampledSlot {
        image: Image(image),
        memory: DeviceMemory(image),
        view: ImageView(image),
        shape: SampledKey {
            width: 4,
            height: 4,
            mip_levels: 1,
            layers: 1,
            volume: false,
            cube: false,
            arrayed: false,
            one_dim: false,
            format: Format(44),
            swizzle: Swizzle(0),
        },
    }
}

fn target_image(image: u64) -> FreeTargetImage {
    FreeTargetImage {
        image: Image(image),
        memory: DeviceMemory(image),
        view: ImageView(image),
        shape: TargetRecycleKey {
            width: 8,
            height: 8,
            sample_count: 1,
            format: Format(37),
        },
    }
}

fn retain(image: u64, content: &[u8]) -> SampledRetain {
    SampledRetain {
        image: Image(image),
        content: content.to_vec(),
        content_hash: 99,
        resource_lifetime: Some(1),
    }
}

fn buffer(raw: u64, size: u64) -> BufferSlot {
    BufferSlot {
        buffer: Buffer(raw),
        memory: DeviceMemory(raw),
        size,
        mapped: 0x1000 * raw,
        backing: BufferBacking::Dedicated,
        coherent: true,
        cached: true,
    }
}

fn dset(raw: u64) -> DescriptorRef {
    DescriptorRef {
        set: DescriptorSet(raw),
        pool: DescriptorPool(1),
    }
}

fn target(slot: u64) -> BatchTarget {
    BatchTarget {
        identity: TargetIdentity::Anonymous { slot },
        width: 8,
        height: 8,
        bgra: false,
    }
}

fn echo(cb: CommandBuffer) -> PassEcho {
    PassEcho {
        cb,
        compatibility: PassCompatibility(1),
        fb: Framebuffer(2),
        target_image: Image(3),
        area: Area {
            width: 8,
            height: 8,
        },
    }
}

fn token(serial: u64) -> GuestWriteToken {
    GuestWriteToken {
        session: SessionId(0),
        serial,
    }
}

/// Claim the next slot of the ring.
fn claim(pools: &mut ResourcePools) -> (CommandBuffer, Fence) {
    assert!(pools.start_entry().is_empty());
    let (next, pending) = pools.next_slot();
    assert!(!pending);
    pools.claim_slot(next).unwrap()
}

/// One batch of one draw on the next slot, taken off the encoder.
fn one_draw(pools: &mut ResourcePools, counters: &mut EngineCounters) -> FlushPlan {
    let slot = claim(pools);
    let (opened, outcomes) = pools.batch_append(
        counters,
        slot,
        target(0),
        Some(dset(7)),
        Vec::new(),
        None,
        &live(&[1]),
    );
    assert!(opened);
    assert!(outcomes.is_empty());
    pools.flush_begin(counters, None).unwrap()
}

#[test]
fn the_ring_is_made_once() {
    let mut pools = ringed();
    assert!(pools.encoder.initialized);
    assert_eq!(pools.encoder.cmd_pool, CommandPool(5));
    assert_eq!(pools.encoder.batch_max_draws, 8);
    assert_eq!(pools.batch_capacity(), 8);
    assert_eq!(pools.encoder.slots.len(), RING_DEPTH);
    assert_eq!(pools.encoder.slots[3].cmd_buf, CommandBuffer(13));
    assert_eq!(pools.encoder.slots[3].fence, Fence(23));
    assert_eq!(pools.encoder.ensure_init(2), None);
    assert_eq!(pools.encoder.batch_max_draws, 8);
}

#[test]
fn a_ring_that_fails_is_released_backwards() {
    let mut counters = EngineCounters::new();
    let refused =
        RingBuild::pool_created(&mut counters, Err(VkResult(-1))).unwrap_err();
    assert!(refused.release.is_empty());
    assert_eq!(
        refused.error,
        DrawError::VkCall(VkCall::new(VkOp::PoolsCreateCommandPool, VkResult(-1)))
    );
    let refused =
        RingBuild::buffers_allocated(CommandPool(5), Err(VkResult(-1))).unwrap_err();
    assert_eq!(
        refused.release,
        vec![Unmake::DestroyCommandPool(CommandPool(5))]
    );
    let build = RingBuild::buffers_allocated(
        CommandPool(5),
        Ok(vec![CommandBuffer(1), CommandBuffer(2), CommandBuffer(3)]),
    )
    .unwrap();
    let build = build.fence_created(&mut counters, Ok(Fence(20))).unwrap();
    let build = build.fence_created(&mut counters, Ok(Fence(21))).unwrap();
    let refused = build
        .fence_created(&mut counters, Err(VkResult(-2)))
       .unwrap_err();
    assert_eq!(
        refused.release,
        vec![
            Unmake::DestroyFence(Fence(20)),
            Unmake::DestroyFence(Fence(21)),
            Unmake::DestroyArena,
            Unmake::DestroyCommandPool(CommandPool(5)),
        ]
    );
    let build =
        RingBuild::buffers_allocated(CommandPool(5), Ok(vec![CommandBuffer(1)])).unwrap();
    let refused = build
        .arena_created(&mut counters, Err(DrawError::FenceTimeout))
        .unwrap_err();
    assert_eq!(refused.error, DrawError::FenceTimeout);
    assert_eq!(
        refused.release,
        vec![Unmake::DestroyCommandPool(CommandPool(5))]
    );
    let made = counters.created;
    assert_eq!(
        (made.command_pools, made.descriptor_pools, made.fences),
        (0, 0, 2),
        "only what was made counts"
    );
}

#[test]
fn a_batch_runs_from_its_first_draw_to_its_fence() {
    let mut counters = EngineCounters::new();
    let mut pools = ringed();
    let slot = claim(&mut pools);
    assert_eq!(slot, (CommandBuffer(11), Fence(21)));

    pools.encoder.sampled_live.push(sampled(1));
    pools.encoder.sampled_live.push(sampled(2));
    pools.encoder.hold_staging(buffer(1, 64));
    let (opened, outcomes) = pools.batch_append(
        &mut counters,
        slot,
        target(0),
        Some(dset(7)),
        vec![retain(1, &[1, 2, 3, 4])],
        None,
        &live(&[1]),
    );
    assert!(opened);
    assert_eq!(outcomes, vec![Admission::Kept]);
    assert_eq!(
        pools.shared.sampled_cache.len(),
        1,
        "the next draw of the batch may use the filled image at once"
    );
    assert_eq!(pools.encoder.sampled_live, vec![sampled(2)]);
    let (opened, outcomes) = pools.batch_append(
        &mut counters,
        slot,
        target(1),
        Some(dset(8)),
        vec![retain(2, &[1, 2, 3, 4])],
        None,
        &live(&[1]),
    );
    assert!(!opened);
    assert_eq!(outcomes, vec![Admission::Duplicate]);
    assert_eq!(
        pools.encoder.sampled_live,
        vec![sampled(2)],
        "an image whose bytes are cached already stays the recording's own"
    );

    pools.encoder.note_pass_opened(echo(slot.0));
    let plan = pools.flush_begin(&mut counters, None).unwrap();
    assert_eq!((plan.cb, plan.fence, plan.draws), (slot.0, slot.1, 2));
    assert_eq!(plan.dsets, vec![dset(7), dset(8)]);
    assert!(!plan.stamp_span);
    assert!(pools.encoder.open_batch.is_none());
    assert!(pools.flush_begin(&mut counters, None).is_none());

    pools.flush_ended(plan.dsets, Ok(())).unwrap();
    let outcomes = pools
        .flush_submitted(Ok(Some(PendingQueueSubmit(1))), &live(&[1]))
        .unwrap();
    assert!(outcomes.is_empty(), "a batch offers its images draw by draw");
    assert_eq!(pools.encoder.in_flight, 1);
    assert_eq!(pools.entry_of_fence(Fence(21)), Some(1));
    assert_eq!(pools.entry_of_fence(Fence(20)), None);
    assert_eq!(
        (
            counters.batch_opens,
            counters.batch_joins,
            counters.batch_flushes,
            counters.batch_flush_draws
        ),
        (1, 1, 1, 2)
    );

    assert_eq!(
        pools.encoder.try_take_submit_return(
            &mut counters,
            1,
            ReceiptState::Returned(Ok(()))
        ),
        Ok(true)
    );
    let retired = pools.retire_signaled(1, false, false).unwrap();
    assert_eq!(retired.released.free_sets, vec![dset(7), dset(8)]);
    assert_eq!(pools.encoder.in_flight, 0);
    assert_eq!(pools.shared.sampled_free.len(), 1);
    assert_eq!(pools.encoder.staging_free.count_for(64), 1);
    assert!(pools.retire_signaled(1, false, false).is_none());
}

#[test]
fn a_batch_that_cannot_be_ended_takes_the_cache_with_it() {
    let mut counters = EngineCounters::new();
    let mut pools = ringed();
    let slot = claim(&mut pools);
    pools.encoder.sampled_live.push(sampled(1));
    pools.batch_append(
        &mut counters,
        slot,
        target(0),
        None,
        vec![retain(1, &[5])],
        None,
        &live(&[1]),
    );
    let plan = pools.flush_begin(&mut counters, None).unwrap();
    let failure = pools
        .flush_ended(plan.dsets, Err(VkResult(ERROR_OUT_OF_DEVICE_MEMORY)))
        .unwrap_err();
    assert_eq!(
        failure.error,
        DrawError::VkCall(VkCall::new(VkOp::PoolsEndCbBatch, VkResult(ERROR_OUT_OF_DEVICE_MEMORY)))
    );
    assert!(failure.destroy.is_empty());
    assert_eq!(pools.shared.sampled_cache.len(), 0);
    assert_eq!(
        pools.shared.sampled_free.len(),
        1,
        "the image itself is kept for reuse"
    );
    assert!(pools.encoder.recording.is_none());
}

#[test]
fn a_batch_that_the_queue_refuses_gives_everything_back() {
    let mut counters = EngineCounters::new();
    let mut pools = ringed();
    let plan = one_draw(&mut pools, &mut counters);
    pools.encoder.note_guest_write_pages_recorded(
        GuestWriteSource::RingEntry,
        GuestPages::new(&[4]).unwrap(),
        Some(token(9)),
        false,
    );
    pools.flush_ended(plan.dsets, Ok(())).unwrap();
    assert!(matches!(
        pools.encoder.slots[1].submission,
        SlotSubmission::SealedWaitingCommit(_)
    ));
    let failure = pools
        .flush_submitted(Err(DrawError::FenceTimeout), &live(&[]))
        .unwrap_err();
    assert_eq!(failure.error, DrawError::FenceTimeout);
    assert_eq!(failure.released.tokens, vec![token(9)]);
    assert_eq!(failure.released.free_sets, vec![dset(7)]);
    assert_eq!(pools.encoder.in_flight, 0);
    let point = pools.shared.retirement.latest().unwrap();
    assert!(pools.shared.retirement.retired(point));
}

#[test]
fn an_entry_reaps_the_oldest_slots_first() {
    let mut counters = EngineCounters::new();
    let mut pools = ringed();
    for _ in 0..RING_DEPTH {
        let plan = one_draw(&mut pools, &mut counters);
        pools.flush_ended(plan.dsets, Ok(())).unwrap();
        pools.flush_submitted(Ok(None), &live(&[])).unwrap();
    }
    assert_eq!(pools.encoder.in_flight, RING_DEPTH);
    assert_eq!(pools.encoder.cur, 0);
    assert_eq!(pools.next_to_reap(1), Some((1, 1)));
    assert_eq!(pools.next_to_reap(2), Some((2, 2)));
    assert_eq!(pools.next_to_reap(4), Some((4, 0)));
    assert_eq!(pools.next_to_reap(5), None);
    assert_eq!(pools.next_slot(), (1, true));
    ResourcePools::note_ring_block(&mut counters, false);
    assert_eq!(counters.ring_retire_blocks, 0);
    ResourcePools::note_ring_block(&mut counters, true);
    assert_eq!(counters.ring_retire_blocks, 1);
    pools.retire_signaled(1, false, false).unwrap();
    assert_eq!(pools.next_slot(), (1, false));
    assert_eq!(pools.next_to_reap(1), Some((2, 2)));
}

#[test]
fn a_recording_that_was_never_submitted_is_over_when_the_next_begins() {
    let mut pools = ringed();
    claim(&mut pools);
    let first = pools.shared.retirement.latest().unwrap();
    assert!(pools
        .shared
        .dispose(DeferredHandle::Framebuffer(Framebuffer(4)))
        .is_empty());
    assert_eq!(
        pools.start_entry(),
        vec![DeferredHandle::Framebuffer(Framebuffer(4))]
    );
    assert!(pools.shared.retirement.retired(first));
    let (next, _) = pools.next_slot();
    pools.claim_slot(next).unwrap();
    assert!(!pools
        .shared
        .retirement
        .retired(pools.shared.retirement.latest().unwrap()));
}

#[test]
fn a_submission_is_let_go_whatever_came_of_its_batch() {
    let mut pools = ringed();
    let one = SubmissionIdentity { id: 1, task: 2 };
    pools.encoder.enter_submission(one).unwrap();
    assert_eq!(
        pools.close_submission(one, Err(DrawError::FenceTimeout)),
        Err(DrawError::FenceTimeout)
    );
    assert_eq!(pools.encoder.active_submission, None);
    let two = SubmissionIdentity { id: 3, task: 2 };
    pools.encoder.enter_submission(two).unwrap();
    assert!(pools.encoder.close_submission(one).is_err());
    assert_eq!(pools.encoder.close_submission(two), Ok(()));
    assert_eq!(pools.encoder.active_submission, None);
}

#[test]
fn a_lost_receipt_is_a_lost_device() {
    let mut counters = EngineCounters::new();
    let mut pools = ringed();
    let plan = one_draw(&mut pools, &mut counters);
    pools.flush_ended(plan.dsets, Ok(())).unwrap();
    pools
        .flush_submitted(Ok(Some(PendingQueueSubmit(3))), &live(&[]))
        .unwrap();
    let lost = DrawError::DeviceLost(DeviceLostDecline::Driver {
        op: WAIT,
        result: VkResult(ERROR_DEVICE_LOST),
    });
    assert_eq!(
        pools.encoder.await_submit_return(&mut counters, 1, None, WAIT),
        Err(lost)
    );
    assert!(matches!(
        pools.encoder.slots[1].submission,
        SlotSubmission::Failed(VkResult(ERROR_DEVICE_LOST))
    ));
}

#[test]
fn a_late_fence_is_reported_once_and_stays_pending() {
    let mut counters = EngineCounters::new();
    let mut waiter = FenceWaiter::new();
    assert_eq!(waiter.check_queue(&mut counters, None, WAIT), Ok(()));
    assert!(matches!(
        waiter.waited(&mut counters, Err(VkResult(TIMEOUT)), WAIT),
        FenceTurn::WaitAgain { report: true }
    ));
    assert!(matches!(
        waiter.waited(&mut counters, Err(VkResult(TIMEOUT)), WAIT),
        FenceTurn::WaitAgain { report: false }
    ));
    assert!(matches!(
        waiter.waited(&mut counters, Ok(()), WAIT),
        FenceTurn::Signaled
    ));
    assert!(matches!(
        waiter.waited(
            &mut counters,
            Err(VkResult(ERROR_OUT_OF_DEVICE_MEMORY)),
            WAIT
        ),
        FenceTurn::Failed(DrawError::VkCall(_))
    ));
    assert!(waiter
        .check_queue(&mut counters, Some(VkResult(ERROR_DEVICE_LOST)), WAIT)
        .is_err());
}

#[test]
fn a_timed_batch_is_stamped_at_both_ends() {
    let mut counters = EngineCounters::new();
    let mut pools = ringed();
    let probe = Some(QueryPool(6));
    let slot = claim(&mut pools);
    let reset = VkOp::Named("reset");
    let begin = VkOp::Named("begin");
    assert_eq!(
        pools.encoder.begin_slot_recording(
            (reset, Err(VkResult(-1))),
            (begin, Ok(())),
            probe,
            SpanKind::Draw
        ),
        Err(DrawError::VkCall(VkCall::new(reset, VkResult(-1))))
    );
    assert_eq!(
        pools.encoder.begin_slot_recording(
            (reset, Ok(())),
            (begin, Err(VkResult(-1))),
            probe,
            SpanKind::Draw
        ),
        Err(DrawError::VkCall(VkCall::new(begin, VkResult(-1))))
    );
    let arm = pools
        .encoder
        .begin_slot_recording((reset, Ok(())), (begin, Ok(())), probe, SpanKind::Draw)
        .unwrap()
        .unwrap();
    assert_eq!((arm.pool, arm.slot, arm.unread), (QueryPool(6), 1, false));
    pools.batch_append(
        &mut counters,
        slot,
        target(0),
        None,
        Vec::new(),
        None,
        &live(&[]),
    );
    let stamp = PassStamp {
        pool: QueryPool(6),
        slot: 1,
        index: 0,
    };
    assert_eq!(
        pools.encoder.gpu_span_pass_begin(true, probe),
        PassBegin::Stamp(stamp)
    );
    pools.encoder.note_pass_opened(echo(slot.0));
    pools.encoder.open_pass = Some(echo(slot.0));
    let plan = pools.flush_begin(&mut counters, probe).unwrap();
    assert_eq!(
        plan.pass_end,
        Some(PassEnd {
            cb: slot.0,
            stamp: Some(stamp)
        })
    );
    assert!(plan.stamp_span);
    assert_eq!(
        pools.encoder.slots[1].span,
        SlotSpan::Sealed {
            kind: SpanKind::Draw,
            draws: 1
        }
    );
    pools.flush_ended(plan.dsets, Ok(())).unwrap();
    pools.flush_submitted(Ok(None), &live(&[])).unwrap();
    let retired = pools.retire_signaled(1, true, false).unwrap();
    assert_eq!(
        retired.span,
        Some(SpanRead {
            kind: SpanKind::Draw,
            draws: 1,
            passes: 1
        })
    );
    assert_eq!(pools.encoder.slots[1].span, SlotSpan::Idle);
}

#[test]
fn the_passes_of_one_command_buffer_fill_their_region() {
    let mut pools = ringed();
    let slot = claim(&mut pools);
    let probe = Some(QueryPool(6));
    assert_eq!(
        pools.encoder.gpu_span_pass_begin(false, probe),
        PassBegin::Untimed
    );
    pools.encoder.gpu_span_arm(probe, SpanKind::Draw);
    for index in 0..PASS_SPANS {
        assert!(matches!(
            pools.encoder.gpu_span_pass_begin(true, probe),
            PassBegin::Stamp(stamp) if stamp.index == index
        ));
        pools.encoder.open_pass = Some(echo(slot.0));
        pools.encoder.close_open_pass(slot.0).unwrap();
    }
    assert_eq!(
        pools.encoder.gpu_span_pass_begin(true, probe),
        PassBegin::RegionFull
    );
}

#[test]
fn a_readback_region_is_read_where_it_was_armed() {
    let mut pools = ringed();
    assert!(!pools.encoder.readback_span_arm(false));
    assert!(!pools.encoder.readback_span_mark(true));
    assert!(pools.encoder.readback_span_arm(true));
    assert!(pools.encoder.readback_span_mark(true));
    assert!(!pools.encoder.readback_span_mark(false));
    assert!(pools.encoder.readback_span_read(true, 0));
    assert!(!pools.encoder.readback_span_read(true, 0));
}

#[test]
fn maintenance_waits_for_quiet_and_then_for_its_interval() {
    let mut pools = ResourcePools::new();
    assert!(!pools
        .shared
        .plan_idle_maintenance(IDLE_MAINTENANCE_START_MS - 1));
    assert!(pools.shared.plan_idle_maintenance(IDLE_MAINTENANCE_START_MS));
    assert!(!pools
        .shared
        .plan_idle_maintenance(IDLE_MAINTENANCE_START_MS + MAINTENANCE_INTERVAL_MS - 1));
    assert!(pools
        .shared
        .plan_idle_maintenance(IDLE_MAINTENANCE_START_MS + MAINTENANCE_INTERVAL_MS));
}

#[test]
fn maintenance_trims_a_few_images_a_pass_and_buffers_once_settled() {
    let mut pools = ResourcePools::new();
    for i in 0..20 {
        pools
            .shared
            .destroy_or_recycle(vec![DeferredHandle::RecycleSampled(sampled(i))]);
    }
    pools.encoder.staging_free.put(64, buffer(1, 64));
    pools.encoder.staging_free.put(4096, buffer(2, 4096));
    assert!(pools
        .start_maintenance(IDLE_MAINTENANCE_START_MS, &live(&[]))
        .is_some());
    let trim = pools.finish_maintenance();
    assert_eq!(trim.trimmed, IDLE_RECYCLE_TRIM_PER_PASS);
    assert_eq!(trim.destroy.len(), IDLE_RECYCLE_TRIM_PER_PASS);
    assert!(trim.release.is_empty(), "the traffic has not settled yet");
    assert!(!trim.settled);
    assert_eq!(
        pools.shared.sampled_free.len(),
        20 - IDLE_RECYCLE_TRIM_PER_PASS
    );
    let mut passes = 1;
    let mut released = Vec::new();
    while released.is_empty() {
        released = pools.finish_maintenance().release;
        passes += 1;
    }
    assert_eq!(passes, SETTLED_PASSES_FOR_BUFFER_TRIM);
    assert_eq!(released[0], buffer(2, 4096), "the largest goes first");
    assert!(pools
        .start_maintenance(IDLE_MAINTENANCE_START_MS, &live(&[]))
        .is_none());
}

#[test]
fn pressure_takes_from_every_free_list() {
    let mut pools = ResourcePools::new();
    pools
        .shared
        .destroy_or_recycle(vec![DeferredHandle::RecycleSampled(sampled(1))]);
    pools
        .shared
        .destroy_or_recycle(vec![DeferredHandle::RecycleTarget(target_image(2))]);
    pools.encoder.staging_free.put(64, buffer(3, 64));
    pools.encoder.gather_free.put(64, buffer(4, 64));
    pools.encoder.readback_free.put(64, buffer(5, 64));
    let trim = pools.trim_recycle_pools(16, false);
    assert_eq!(trim.trimmed, 2);
    assert!(trim.release.is_empty());
    let trim = pools.trim_recycle_pools(16, true);
    assert_eq!(trim.destroy.len(), 0);
    assert_eq!(trim.release.len(), 3);
}

#[test]
fn an_import_waits_for_the_objects_on_it() {
    let mut pools = ringed();
    claim(&mut pools);
    let import = ImportId(4);
    assert!(pools
        .shared
        .retire_guest_import(import, ParentRetire::Ready)
        .is_empty());
    assert_eq!(pools.shared.graveyard.len(), 1);
    let destroy = pools.start_entry();
    assert_eq!(destroy.len(), 1);
    assert!(matches!(destroy[0], DeferredHandle::GuestAllocation(id) if id == import));
    assert!(pools.shared.take_completed_guest_imports().is_empty());
}

#[test]
fn the_scatter_pipeline_is_made_once_or_never() {
    let mut pools = ResourcePools::new();
    assert_eq!(pools.shared.scatter_pipeline(), (None, true));
    let made = ScatterPipeline {
        pipeline: Pipeline(1),
        layout: PipelineLayout(2),
    };
    pools.shared.scatter_made(Some(made));
    assert_eq!(pools.shared.scatter_pipeline(), (Some(made), false));
    let mut pools = ResourcePools::new();
    pools.shared.scatter_made(None);
    assert_eq!(pools.shared.scatter_pipeline(), (None, false));
}

#[test]
fn aborted_work_gives_back_what_it_pinned() {
    let mut pools = ringed();
    claim(&mut pools);
    let identity = TargetIdentity::Anonymous { slot: 3 };
    assert!(pools.encoder.pin_resident_for_entry(identity, true));
    assert!(!pools.encoder.pin_resident_for_entry(identity, false));
    pools.encoder.note_guest_write_pages_recorded(
        GuestWriteSource::ImportedBuffer,
        GuestPages::new(&[1]).unwrap(),
        Some(token(1)),
        false,
    );
    let aborted = pools.abort_recorded_guest_work();
    assert_eq!(aborted.tokens, vec![token(1)]);
    assert_eq!(aborted.unpin_residents, vec![identity]);
    assert!(aborted.unpin_compute_residents.is_empty());
    assert!(pools.encoder.resident_pins_live.is_empty());
    pools.encoder.note_guest_read_recorded();
    assert_eq!(
        pools
            .encoder
            .quiesce_guest_reads(Err(DrawError::FenceTimeout)),
        Err(DrawError::FenceTimeout)
    );
    assert!(pools.encoder.has_guest_read_debt());
    assert_eq!(pools.encoder.quiesce_guest_reads(Ok(())), Ok(Some(false)));
    assert_eq!(pools.encoder.quiesce_guest_reads(Ok(())), Ok(None));
    assert!(!pools.encoder.has_guest_read_debt());
}

#[test]
fn the_parts_of_submitting_a_batch_are_timed_apart() {
    let mut counters = EngineCounters::new();
    counters.note_flush_us(FlushPart::Close, 3);
    counters.note_flush_us(FlushPart::End, 5);
    counters.note_flush_us(FlushPart::Submit, 7);
    counters.note_flush_us(FlushPart::Finish, 11);
    counters.note_flush_us(FlushPart::End, 1);
    assert_eq!(
        (
            counters.batch_flush_close_us,
            counters.batch_flush_end_us,
            counters.batch_flush_submit_us,
            counters.batch_flush_finish_us,
        ),
        (3, 6, 7, 11)
    );
}

#[test]
fn every_admission_is_counted_by_its_outcome() {
    let mut counters = EngineCounters::new();
    let mut pools = ringed();
    let slot = claim(&mut pools);
    for image in 1..5 {
        pools.encoder.sampled_live.push(sampled(image));
    }
    let (_, outcomes) = pools.batch_append(
        &mut counters,
        slot,
        target(0),
        None,
        vec![
            retain(1, &[1, 2, 3, 4]),
            retain(2, &[1, 2, 3, 4]),
            retain(3, &[5, 6, 7, 8]),
        ],
        None,
        &live(&[1]),
    );
    assert_eq!(
        outcomes,
        vec![Admission::Kept, Admission::Duplicate, Admission::Kept]
    );
    let (_, dead) = pools.batch_append(
        &mut counters,
        slot,
        target(0),
        None,
        vec![retain(4, &[9, 9, 9, 9])],
        None,
        &live(&[]),
    );
    assert_eq!(dead, vec![Admission::NoLifetime]);
    assert_eq!(pools.shared.sampled_cache.len(), 2);
    assert_eq!(pools.encoder.sampled_live, vec![sampled(2), sampled(4)]);
    let routes: Vec<&str> = outcomes.iter().chain(&dead).map(|o| o.route()).collect();
    assert_eq!(
        routes,
        vec![
            "sampled_admit_kept",
            "sampled_admit_duplicate",
            "sampled_admit_kept",
            "sampled_admit_no_lifetime",
        ]
    );
}

#[test]
fn what_a_reset_and_a_census_count() {
    let mut pools = ResourcePools::new();
    pools.encoder.sampled_live.push(sampled(1));
    pools
        .shared
        .destroy_or_recycle(vec![DeferredHandle::RecycleSampled(sampled(2))]);
    pools
        .shared
        .destroy_or_recycle(vec![DeferredHandle::RecycleTarget(target_image(3))]);
    assert_eq!(pools.guest_reset_counts(), (0, 0, 2, 0));
    assert_eq!(
        pools.host_ram_import_census((1, 2, 3)),
        (1, 2, 3, 0, 0, 2)
    );
}

#[test]
fn leases_are_waited_for_up_to_their_deadline() {
    assert_eq!(lease_wait(0, 0), LeaseWait::Over);
    assert_eq!(lease_wait(0, LEASE_QUIESCE_MS), LeaseWait::Over);
    assert_eq!(lease_wait(2, LEASE_QUIESCE_MS - 1), LeaseWait::Again);
    let expired = ReadbackLeaseQuiesceExpired {
        outstanding: 2,
        waited_ms: LEASE_QUIESCE_MS,
    };
    assert_eq!(lease_wait(2, LEASE_QUIESCE_MS), LeaseWait::Expired(expired));
    assert_eq!(
        expired.fields(),
        vec![
            ("outstanding", "2".to_string()),
            ("waited_ms", "500".to_string()),
        ]
    );
}

#[test]
fn a_teardown_goes_through_its_stages_and_leaves_nothing() {
    let mut counters = EngineCounters::new();
    let mut pools = ringed();
    let plan = one_draw(&mut pools, &mut counters);
    pools.flush_ended(plan.dsets, Ok(())).unwrap();
    pools
        .flush_submitted(Ok(Some(PendingQueueSubmit(1))), &live(&[]))
        .unwrap();
    let slot = claim(&mut pools);
    pools.batch_append(
        &mut counters,
        slot,
        target(0),
        None,
        Vec::new(),
        None,
        &live(&[]),
    );
    pools.encoder.hold_staging(buffer(1, 64));
    assert_eq!(
        pools.encoder.acquire_readback(64, &Vec::new()),
        Acquired::Make { bucket: 64 }
    );
    pools.encoder.hold_readback(buffer(2, 64));
    pools
        .encoder
        .lease_readback(&mut LeaseTokens { next: 5 }, &mut ReadbackLeaseReturns::new())
        .unwrap();
    pools
        .shared
        .destroy_or_recycle(vec![DeferredHandle::RecycleTarget(target_image(3))]);

    let mut stage = TeardownStage::Start;
    let mut event = TeardownEvent::Nothing;
    let mut released = Vec::new();
    let mut reported = Vec::new();
    let mut leases = 0;
    loop {
        let (next, action) = pools.destroy_all(stage, event);
        stage = next;
        event = match action {
            TeardownAction::GiveUp { recovered, .. } => {
                assert_eq!(recovered.len(), RING_DEPTH);
                TeardownEvent::Receipt(None)
            }
            TeardownAction::Report(report) => {
                reported.extend(report);
                TeardownEvent::Receipt(None)
            }
            TeardownAction::Wait(fences) => {
                assert!(
                    fences.is_empty(),
                    "a submission that the queue lost signals no fence"
                );
                TeardownEvent::Waited(Vec::new())
            }
            TeardownAction::Release {
                reports, objects, ..
            } => {
                reported.extend(reports);
                released.extend(objects);
                match stage {
                    TeardownStage::Leases => TeardownEvent::Lent {
                        outstanding: 1,
                        waited_ms: 0,
                    },
                    _ => TeardownEvent::Nothing,
                }
            }
            TeardownAction::Leases(LeaseWait::Again) => {
                leases += 1;
                TeardownEvent::Lent {
                    outstanding: 0,
                    waited_ms: 7,
                }
            }
            TeardownAction::Leases(_) => TeardownEvent::Returned(vec![5]),
            TeardownAction::Done => break,
        };
    }
    assert_eq!(leases, 1);
    assert_eq!(
        reported,
        vec![VkCall::new(VkOp::PoolsWaitFencesDestroy, VkResult(ERROR_DEVICE_LOST))]
    );
    assert!(pools.encoder.slots.is_empty());
    assert!(!pools.encoder.initialized);
    assert_eq!(pools.encoder.in_flight, 0);
    assert!(released.contains(&NativeRelease::Buffer(buffer(1, 64))));
    assert!(
        released.contains(&NativeRelease::Buffer(buffer(2, 64))),
        "a buffer that its reader gave back goes too"
    );
    assert_eq!(pools.encoder.readback_free.count_for(64), 0);
    assert!(released.contains(&NativeRelease::Image(Image(3))));
    let fences: Vec<NativeRelease> = (20..24).map(|i| NativeRelease::Fence(Fence(i))).collect();
    for fence in fences {
        assert!(released.contains(&fence));
    }
    assert_eq!(
        released.last(),
        Some(&NativeRelease::CommandPool(CommandPool(5)))
    );
}

#[test]
fn an_open_batch_knows_its_target_and_its_stamp() {
    let mut counters = EngineCounters::new();
    let mut pools = ringed();
    assert_eq!(pools.encoder.batch_target_is(&target(0)), None);
    assert_eq!(pools.encoder.batch_stamp_recording(), None);
    let slot = claim(&mut pools);
    pools.batch_append(
        &mut counters,
        slot,
        target(0),
        None,
        Vec::new(),
        Some(RecordingStampId(4)),
        &live(&[]),
    );
    assert_eq!(pools.encoder.batch_target_is(&target(0)), Some(true));
    assert_eq!(pools.encoder.batch_target_is(&target(1)), Some(false));
    assert_eq!(
        pools.encoder.batch_stamp_recording(),
        Some(RecordingStampId(4))
    );
    pools.discard_open_batch();
    assert!(pools.encoder.open_batch.is_none());
    assert!(pools.flush_begin(&mut counters, None).is_none());
    assert_eq!(counters.batch_flushes, 0);
}

#[test]
fn a_standing_pass_is_echoed_until_it_is_closed() {
    let mut pools = ringed();
    let slot = claim(&mut pools);
    let standing = echo(slot.0);
    assert!(!pools.encoder.pass_echoes(&standing));
    pools.encoder.note_pass_opened(standing);
    assert!(pools.encoder.pass_echoes(&standing));
    assert!(pools.encoder.open_pass_echoes(&standing));
    assert!(!pools.encoder.pass_echoes(&echo(CommandBuffer(99))));
    pools.encoder.close_open_pass(slot.0);
    assert!(pools.encoder.pass_echoes(&standing));
    assert!(!pools.encoder.open_pass_echoes(&standing));
}

#[test]
fn a_submission_of_its_own_is_timed_as_one_draw() {
    let probe = Some(QueryPool(3));
    let mut pools = ringed();
    claim(&mut pools);
    assert!(!pools.encoder.gpu_span_seal_current(probe));
    pools.encoder.gpu_span_arm(probe, SpanKind::Draw);
    assert!(!pools.encoder.gpu_span_seal_current(None));
    assert!(pools.encoder.gpu_span_seal_current(probe));
    let cur = pools.encoder.cur;
    assert_eq!(
        pools.encoder.slots[cur].span,
        SlotSpan::Sealed {
            kind: SpanKind::Draw,
            draws: 1
        }
    );
    pools.encoder.gpu_span_arm(probe, SpanKind::Other);
    assert!(pools.encoder.gpu_span_seal_current(probe));
    assert_eq!(
        pools.encoder.slots[cur].span,
        SlotSpan::Sealed {
            kind: SpanKind::Other,
            draws: 0
        }
    );
}

#[test]
fn a_retired_gather_set_serves_before_a_new_one_is_made() {
    let mut pools = ringed();
    let made = pools
        .encoder
        .alloc_scatter_descriptor_set(|| Ok(dset(1)))
        .unwrap();
    assert_eq!(made, DescriptorSet(1));
    let refused = pools
        .encoder
        .alloc_scatter_descriptor_set(|| Err(DrawError::FenceTimeout));
    assert_eq!(refused, Err(DrawError::FenceTimeout));
    assert_eq!(pools.encoder.scatter_dsets, vec![dset(1)]);
    let mut retired = vec![dset(2), dset(3)];
    pools.encoder.recycle_scatter_dsets(&mut retired);
    let reused = pools
        .encoder
        .alloc_scatter_descriptor_set(|| panic!("a free set was there"));
    assert_eq!(reused, Ok(DescriptorSet(3)));
    assert_eq!(pools.encoder.scatter_dsets, vec![dset(1), dset(3)]);
    assert_eq!(pools.encoder.scatter_dset_free, vec![dset(2)]);
}
