//! Going round the ring against a driver that answers as it is told.

use reims_vgpu_vulkan::pools::encoder::BatchTarget;
use reims_vgpu_vulkan::pools::fence::EngineCounters;
use reims_vgpu_vulkan::pools::making::RingBuild;
use reims_vgpu_vulkan::pools::resource::ResourcePools;
use reims_vgpu_vulkan::pools::ring::{
    EntryAction, EntryEvent, EntryStage, FenceAction, FenceStage, RetireAction,
    RetireAllAction, RetireAllEvent, RetireAllStage, RetireEvent, RetireStage,
    Timing,
};
use reims_vgpu_vulkan::pools::sampled_cache::LiveOwners;
use reims_vgpu_vulkan::pools::slots::{DeferredHandle, SlotSubmission, TargetIdentity};
use reims_vgpu_vulkan::queue_owner::{PendingQueueSubmit, ReceiptState};
use reims_vgpu_vulkan::types::{DeviceLostDecline, DeviceLostOp, DrawError, VkCall, VkOp};
use reims_vgpu_vulkan::vk::{
    CommandBuffer, CommandPool, Fence, Framebuffer, VkResult, ERROR_DEVICE_LOST, TIMEOUT,
};

const TIMING: Timing = Timing {
    timed: false,
    readback_timed: false,
};

fn lost(op: DeviceLostOp) -> DrawError {
    DrawError::DeviceLost(DeviceLostDecline::Driver {
        op,
        result: VkResult(ERROR_DEVICE_LOST),
    })
}

/// A driver: which fences are signalled, and how many waits pass before each
/// other one is.
struct Driver {
    signaled: Vec<u64>,
    late: usize,
    waits: Vec<u64>,
    resets: Vec<u64>,
    reports: usize,
    queue: Option<VkResult>,
    destroyed: Vec<DeferredHandle>,
}

impl Driver {
    fn new() -> Driver {
        Driver {
            signaled: Vec::new(),
            late: 0,
            waits: Vec::new(),
            resets: Vec::new(),
            reports: 0,
            queue: None,
            destroyed: Vec::new(),
        }
    }

    fn ask_queue(&mut self, late: bool) -> RetireEvent {
        if late {
            self.reports += 1;
        }
        RetireEvent::Queue(self.queue)
    }

    fn wait(&mut self, fence: Fence) -> RetireEvent {
        self.waits.push(fence.0);
        if self.signaled.contains(&fence.0) {
            RetireEvent::Waited(Ok(()))
        } else if self.late > 0 {
            self.late -= 1;
            RetireEvent::Waited(Err(VkResult(TIMEOUT)))
        } else {
            self.signaled.push(fence.0);
            RetireEvent::Waited(Ok(()))
        }
    }

    fn retire(&mut self, action: RetireAction) -> RetireEvent {
        match action {
            RetireAction::Receive => RetireEvent::Receipt(Some(Ok(()))),
            RetireAction::AskQueue { late } => self.ask_queue(late),
            RetireAction::Wait(fence) => self.wait(fence),
            RetireAction::Reset(fence) => {
                self.resets.push(fence.0);
                self.signaled.retain(|other| *other != fence.0);
                RetireEvent::Reset(Ok(()))
            }
            RetireAction::Retired(retired) => {
                if let Some(retired) = retired {
                    self.destroyed.extend(retired.released.destroy);
                }
                RetireEvent::Nothing
            }
            RetireAction::Fail(error) => panic!("{error:?}"),
        }
    }

    fn begin_entry(
        &mut self,
        pools: &mut ResourcePools,
        counters: &mut EngineCounters,
    ) -> Result<(CommandBuffer, Fence), DrawError> {
        let mut stage = EntryStage::Start;
        let mut event = EntryEvent::Flushed(Ok(()));
        loop {
            let (next, action) = pools.begin_entry(counters, stage, event, TIMING);
            stage = next;
            event = match action {
                EntryAction::Destroy(objects) => {
                    self.destroyed.extend(objects);
                    EntryEvent::Nothing
                }
                EntryAction::Poll(_) => EntryEvent::Polled(ReceiptState::Returned(Ok(()))),
                EntryAction::AskStatus(fence) => {
                    EntryEvent::Status(Ok(self.signaled.contains(&fence.0)))
                }
                EntryAction::Receive(_) => EntryEvent::Received(Some(Ok(()))),
                EntryAction::Retire(_, action) => match self.retire(action) {
                    RetireEvent::Nothing => EntryEvent::Nothing,
                    other => EntryEvent::Retire(other),
                },
                EntryAction::Claimed(cb, fence) => return Ok((cb, fence)),
                EntryAction::Fail(error) => return Err(error),
            };
        }
    }
}

/// A ring of three command buffers, 10 to 12, with the fences 20 to 22.
fn ringed() -> ResourcePools {
    let mut pools = ResourcePools::new();
    pools.encoder.ensure_init(8);
    let mut build = RingBuild::buffers_allocated(
        CommandPool(5),
        Ok(vec![CommandBuffer(10), CommandBuffer(11), CommandBuffer(12)]),
    )
    .unwrap();
    for fence in 20..23 {
        build = build
            .fence_created(&mut EngineCounters::new(), Ok(Fence(fence)))
            .unwrap();
    }
    pools.encoder.install_ring(build);
    pools
}

/// Submit one draw on the slot that was claimed.
fn submit(pools: &mut ResourcePools, counters: &mut EngineCounters, slot: (CommandBuffer, Fence)) {
    let live = LiveOwners { alive: Vec::new() };
    let target = BatchTarget {
        identity: TargetIdentity::Anonymous { slot: 0 },
        width: 8,
        height: 8,
        bgra: false,
    };
    pools.batch_append(counters, slot, target, None, Vec::new(), None, &live);
    let plan = pools.flush_begin(counters, None).unwrap();
    pools
        .flush_ended(plan.dsets, Ok(()))
        .unwrap();
    pools
        .flush_submitted(Ok(Some(PendingQueueSubmit(1))), &live)
        .unwrap();
}

#[test]
fn the_ring_goes_round_and_blocks_only_when_it_is_full() {
    let mut pools = ringed();
    let mut counters = EngineCounters::new();
    let mut driver = Driver::new();
    for expected in [11, 12, 10] {
        let slot = driver.begin_entry(&mut pools, &mut counters).unwrap();
        assert_eq!(slot.0, CommandBuffer(expected));
        submit(&mut pools, &mut counters, slot);
    }
    assert_eq!(pools.encoder.in_flight, 3);
    assert!(driver.waits.is_empty());

    driver.late = 2;
    let slot = driver.begin_entry(&mut pools, &mut counters).unwrap();
    assert_eq!(slot, (CommandBuffer(11), Fence(21)));
    assert_eq!(driver.waits, vec![21, 21, 21]);
    assert_eq!(driver.resets, vec![21]);
    assert_eq!(driver.reports, 1, "a late fence is reported once");
    assert_eq!(counters.fence_timeouts, 2);
    assert_eq!(counters.ring_retire_blocks, 1);
    assert_eq!(pools.encoder.in_flight, 2);
}

#[test]
fn signalled_slots_are_reaped_up_to_the_first_that_is_not() {
    let mut pools = ringed();
    let mut counters = EngineCounters::new();
    let mut driver = Driver::new();
    for _ in 0..3 {
        let slot = driver.begin_entry(&mut pools, &mut counters).unwrap();
        submit(&mut pools, &mut counters, slot);
    }
    // The oldest is in slot 1, then 2, then 0. The youngest is done, the one
    // before it is not.
    driver.signaled = vec![21, 20];
    let slot = driver.begin_entry(&mut pools, &mut counters).unwrap();
    assert_eq!(slot.0, CommandBuffer(11));
    assert_eq!(driver.resets, vec![21], "no slot before an older one");
    assert_eq!(pools.encoder.in_flight, 2);
    assert_eq!(counters.ring_retire_blocks, 0);
}

#[test]
fn a_failed_flush_claims_nothing() {
    let mut pools = ringed();
    let mut counters = EngineCounters::new();
    let (stage, action) = pools.begin_entry(
        &mut counters,
        EntryStage::Start,
        EntryEvent::Flushed(Err(DrawError::FenceTimeout)),
        TIMING,
    );
    assert_eq!(stage, EntryStage::Over);
    assert!(matches!(
        action,
        EntryAction::Fail(DrawError::FenceTimeout)
    ));
    assert_eq!(pools.encoder.cur, 0);
}

#[test]
fn an_unsubmitted_recording_lets_the_graveyard_go() {
    let mut pools = ringed();
    let mut counters = EngineCounters::new();
    let mut driver = Driver::new();
    driver.begin_entry(&mut pools, &mut counters).unwrap();
    pools
        .shared
        .dispose(DeferredHandle::Framebuffer(Framebuffer(9)));
    driver.begin_entry(&mut pools, &mut counters).unwrap();
    assert_eq!(
        driver.destroyed,
        vec![DeferredHandle::Framebuffer(Framebuffer(9))]
    );
}

#[test]
fn a_slot_whose_submission_was_refused_fails_whoever_wants_it() {
    let mut pools = ringed();
    let mut counters = EngineCounters::new();
    let mut driver = Driver::new();
    let slot = driver.begin_entry(&mut pools, &mut counters).unwrap();
    submit(&mut pools, &mut counters, slot);
    let (stage, _) = pools.begin_entry(
        &mut counters,
        EntryStage::Start,
        EntryEvent::Flushed(Ok(())),
        TIMING,
    );
    let (stage, action) = pools.begin_entry(&mut counters, stage, EntryEvent::Nothing, TIMING);
    assert!(matches!(action, EntryAction::Poll(1)));
    let (stage, action) = pools.begin_entry(
        &mut counters,
        stage,
        EntryEvent::Polled(ReceiptState::Disconnected),
        TIMING,
    );
    assert_eq!(stage, EntryStage::Over);
    match action {
        EntryAction::Fail(error) => assert_eq!(error, lost(DeviceLostOp::PoolsFenceStatusBeginEntry)),
        other => panic!("{other:?}"),
    }
    assert!(matches!(
        pools.encoder.slots[1].submission,
        SlotSubmission::Failed(VkResult(ERROR_DEVICE_LOST))
    ));
}

#[test]
fn a_slot_is_taken_back_step_by_step() {
    let mut pools = ringed();
    let mut counters = EngineCounters::new();
    let mut driver = Driver::new();
    let slot = driver.begin_entry(&mut pools, &mut counters).unwrap();
    submit(&mut pools, &mut counters, slot);
    let (stage, action) = pools.retire_slot(
        &mut counters,
        0,
        RetireStage::Start,
        RetireEvent::Nothing,
        TIMING,
    );
    assert_eq!(stage, RetireStage::Over);
    assert!(matches!(action, RetireAction::Retired(None)));

    let mut stage = RetireStage::Queue { reported: false };
    pools
        .encoder
        .await_submit_return(&mut counters, 1, Some(Ok(())), DeviceLostOp::PoolsWaitFencesRetire)
        .unwrap();
    let (next, action) = pools.retire_slot(
        &mut counters,
        1,
        stage,
        RetireEvent::Queue(Some(VkResult(ERROR_DEVICE_LOST))),
        TIMING,
    );
    assert_eq!(next, RetireStage::Over);
    match action {
        RetireAction::Fail(error) => assert_eq!(error, lost(DeviceLostOp::PoolsWaitFencesRetire)),
        other => panic!("{other:?}"),
    }
    assert_eq!(pools.encoder.in_flight, 1, "it stays submitted");

    let answers = [
        RetireEvent::Queue(None),
        RetireEvent::Waited(Ok(())),
        RetireEvent::Reset(Err(VkResult(-1))),
    ];
    let mut last = RetireAction::Receive;
    for event in answers {
        let (next, action) = pools.retire_slot(&mut counters, 1, stage, event, TIMING);
        stage = next;
        last = action;
    }
    match last {
        RetireAction::Fail(error) => assert_eq!(
            error,
            DrawError::VkCall(VkCall::new(VkOp::PoolsResetFencesRetire, VkResult(-1)))
        ),
        other => panic!("{other:?}"),
    }
    assert_eq!(pools.encoder.in_flight, 1);
    let (_, action) = pools.retire_slot(
        &mut counters,
        1,
        RetireStage::Reset,
        RetireEvent::Reset(Ok(())),
        TIMING,
    );
    assert!(matches!(action, RetireAction::Retired(Some(_))));
    assert_eq!(pools.encoder.in_flight, 0);
}

#[test]
fn quiescing_takes_every_slot_back() {
    let mut pools = ringed();
    let mut counters = EngineCounters::new();
    let mut driver = Driver::new();
    for _ in 0..2 {
        let slot = driver.begin_entry(&mut pools, &mut counters).unwrap();
        submit(&mut pools, &mut counters, slot);
    }
    pools
        .shared
        .dispose(DeferredHandle::Framebuffer(Framebuffer(9)));
    let mut stage = RetireAllStage::Start;
    let mut event = RetireAllEvent::Flushed(Ok(()));
    let swept = loop {
        let (next, action) = pools.retire_all(&mut counters, stage, event, TIMING);
        stage = next;
        event = match action {
            RetireAllAction::Go => RetireAllEvent::Nothing,
            RetireAllAction::Retire(_, action) => match driver.retire(action) {
                RetireEvent::Nothing => RetireAllEvent::Nothing,
                other => RetireAllEvent::Retire(other),
            },
            RetireAllAction::Done(swept) => break swept,
            RetireAllAction::Fail(error) => panic!("{error:?}"),
        };
    };
    assert_eq!(pools.encoder.in_flight, 0);
    assert_eq!(driver.resets, vec![21, 22]);
    assert!(swept.is_empty());
    assert_eq!(
        driver.destroyed,
        vec![DeferredHandle::Framebuffer(Framebuffer(9))],
        "what waited for the last of them went with it"
    );
    let (stage, action) = pools.retire_all(
        &mut counters,
        RetireAllStage::Start,
        RetireAllEvent::Flushed(Err(DrawError::FenceTimeout)),
        TIMING,
    );
    assert_eq!(stage, RetireAllStage::Over);
    assert!(matches!(action, RetireAllAction::Fail(_)));
}

#[test]
fn waiting_for_one_fence_leaves_its_slot_submitted() {
    let mut pools = ringed();
    let mut counters = EngineCounters::new();
    let mut driver = Driver::new();
    let slot = driver.begin_entry(&mut pools, &mut counters).unwrap();
    submit(&mut pools, &mut counters, slot);
    driver.late = 1;
    let mut stage = FenceStage::Start;
    let mut event = RetireEvent::Nothing;
    loop {
        let (next, action) =
            pools.wait_entry_fence(&mut counters, Fence(21), stage, event);
        stage = next;
        event = match action {
            FenceAction::Receive(index) => {
                assert_eq!(index, 1);
                RetireEvent::Receipt(Some(Ok(())))
            }
            FenceAction::AskQueue { late } => driver.ask_queue(late),
            FenceAction::Wait(fence) => driver.wait(fence),
            FenceAction::Signaled => break,
            FenceAction::Fail(error) => panic!("{error:?}"),
        };
    }
    assert_eq!(driver.waits, vec![21, 21]);
    assert_eq!(driver.reports, 1);
    assert_eq!(pools.encoder.in_flight, 1);

    let (stage, action) = pools.wait_entry_fence(
        &mut counters,
        Fence(77),
        FenceStage::Start,
        RetireEvent::Nothing,
    );
    assert_eq!(stage, FenceStage::Queue { reported: false });
    assert!(matches!(action, FenceAction::AskQueue { late: false }));
    let (_, action) = pools.wait_entry_fence(
        &mut counters,
        Fence(77),
        stage,
        RetireEvent::Queue(Some(VkResult(ERROR_DEVICE_LOST))),
    );
    match action {
        FenceAction::Fail(error) => {
            assert_eq!(error, lost(DeviceLostOp::PoolsWaitFencesEntry))
        }
        other => panic!("{other:?}"),
    }
}
