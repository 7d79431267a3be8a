//! The one owner of the device queue.

use reims_vgpu_vulkan::queue_owner::{
    complete_present_transaction, latched_line, received_or_lost, semaphore_submit_operands, FailureLatch,
    PendingQueueSubmit, QueueAction, QueueOwner, ReceiptState, Request, TimelineWait,
};
use reims_vgpu_vulkan::stamp_completion::StampCompletion;
use reims_vgpu_vulkan::vk::{
    CommandBuffer, Fence, PipelineStageFlags, Semaphore, VkResult, ERROR_DEVICE_LOST,
    ERROR_OUT_OF_DEVICE_MEMORY,
};

fn stage(flags: ash::vk::PipelineStageFlags) -> PipelineStageFlags {
    PipelineStageFlags(flags.as_raw())
}

#[test]
fn mixed_binary_and_timeline_operands_keep_every_index_aligned() {
    let binary_waits = [Semaphore(1), Semaphore(2)];
    let binary_stages = [
        stage(ash::vk::PipelineStageFlags::TRANSFER),
        stage(ash::vk::PipelineStageFlags::FRAGMENT_SHADER),
    ];
    let binary_signals = [Semaphore(3)];
    let timeline = Semaphore(4);
    let operands = semaphore_submit_operands(
        &binary_waits,
        &binary_stages,
        &binary_signals,
        Some(TimelineWait::new(
            timeline,
            7,
            stage(ash::vk::PipelineStageFlags::COMPUTE_SHADER),
        )),
        Some((timeline, 8)),
    );

    assert_eq!(
        operands.wait_semaphores,
        vec![binary_waits[0], binary_waits[1], timeline]
    );
    assert_eq!(
        operands.wait_stages,
        vec![
            binary_stages[0],
            binary_stages[1],
            stage(ash::vk::PipelineStageFlags::COMPUTE_SHADER),
        ]
    );
    assert_eq!(operands.wait_values, vec![0, 0, 7]);
    assert_eq!(
        operands.signal_semaphores,
        vec![binary_signals[0], timeline]
    );
    assert_eq!(operands.signal_values, vec![0, 8]);
    assert!(operands.has_timeline);
}

#[test]
fn signal_only_and_plain_submissions_preserve_the_existing_shapes() {
    let timeline = Semaphore(9);
    let signal = semaphore_submit_operands(&[], &[], &[], None, Some((timeline, 11)));
    assert!(signal.wait_semaphores.is_empty());
    assert!(signal.wait_stages.is_empty());
    assert!(signal.wait_values.is_empty());
    assert_eq!(signal.signal_semaphores, vec![timeline]);
    assert_eq!(signal.signal_values, vec![11]);
    assert!(signal.has_timeline);

    let plain = semaphore_submit_operands(&[], &[], &[], None, None);
    assert!(plain.wait_semaphores.is_empty());
    assert!(plain.wait_values.is_empty());
    assert!(plain.signal_semaphores.is_empty());
    assert!(plain.signal_values.is_empty());
    assert!(!plain.has_timeline);
}

#[test]
fn first_async_failure_is_sticky() {
    let mut latch = FailureLatch::new();
    let first = latch.set(VkResult(ERROR_OUT_OF_DEVICE_MEMORY));
    let second = latch.set(VkResult(ERROR_DEVICE_LOST));
    assert_eq!(latch.get(), Some(VkResult(ERROR_OUT_OF_DEVICE_MEMORY)));
    assert_eq!(
        first.as_deref(),
        Some(
            "vk_queue_async_submit_failed reason=vk_queue_async_submit_failed \
             result=ERROR_OUT_OF_DEVICE_MEMORY"
        )
    );
    assert_eq!(second, None);
}

#[test]
fn async_handoff_separates_queue_acceptance_from_driver_return() {
    let owner = QueueOwner::new();
    let mut stamps = StampCompletion::new(Semaphore(3), 32);
    let request = owner
        .submit_async(
            &[CommandBuffer(1)],
            Fence(2),
            None,
            Some((Semaphore(3), 7)),
        )
        .expect("owner accepted submission");
    assert_eq!(
        owner.handed_off(true, Some((Semaphore(3), 7)), &mut stamps),
        Ok(())
    );
    assert_eq!(stamps.latest_queued(), Some((Semaphore(3), 7)));

    let Request::Submit {
        submit,
        reply,
        async_reply,
    } = request
    else {
        panic!("async handoff queued a non-submit request");
    };
    assert!(!reply);
    assert!(async_reply, "async submit carries its return receipt");
    assert_eq!(submit.timeline.map(|point| point.1), Some(7));

    let pending = PendingQueueSubmit(1);
    assert!(pending.try_complete(ReceiptState::Empty).is_none());
    assert_eq!(
        pending.try_complete(ReceiptState::Returned(Ok(()))),
        Some(Ok(()))
    );
}

#[test]
fn failed_async_handoff_does_not_publish_its_point() {
    let owner = QueueOwner::new();
    let mut stamps = StampCompletion::new(Semaphore(3), 32);
    let request = owner.submit_async(
        &[CommandBuffer(1)],
        Fence(2),
        None,
        Some((Semaphore(3), 7)),
    );
    assert!(request.is_ok());
    assert_eq!(
        owner.handed_off(false, Some((Semaphore(3), 7)), &mut stamps),
        Err(VkResult(ERROR_DEVICE_LOST))
    );
    assert_eq!(stamps.latest_queued(), None);
}

#[test]
fn a_pending_display_transaction_returns_its_exact_completion() {
    assert_eq!(received_or_lost(Some(Ok(true))), Ok(true));
}

#[test]
fn a_lost_display_transaction_owner_cannot_look_successful() {
    assert_eq!(
        received_or_lost::<bool>(None),
        Err(VkResult(ERROR_DEVICE_LOST))
    );
    assert_eq!(
        PendingQueueSubmit(1).try_complete(ReceiptState::Disconnected),
        Some(Err(VkResult(ERROR_DEVICE_LOST)))
    );
    assert_eq!(
        PendingQueueSubmit(1).wait(None),
        Err(VkResult(ERROR_DEVICE_LOST))
    );
}

#[test]
fn a_display_submission_failure_skips_present_and_stops_later_queue_work() {
    let mut owner = QueueOwner::new();
    let presented = std::cell::Cell::new(false);

    let (result, latched) = complete_present_transaction(
        &mut owner,
        || Err(VkResult(ERROR_OUT_OF_DEVICE_MEMORY)),
        || {
            presented.set(true);
            Ok(false)
        },
    );

    assert_eq!(result, Err(VkResult(ERROR_OUT_OF_DEVICE_MEMORY)));
    assert!(!presented.get());
    assert_eq!(owner.failure(), Some(VkResult(ERROR_OUT_OF_DEVICE_MEMORY)));
    assert_eq!(
        latched,
        Some(latched_line("ERROR_OUT_OF_DEVICE_MEMORY")),
        "the device counts as lost"
    );
    assert_eq!(
        owner
            .submit_async(&[CommandBuffer(1)], Fence(2), None, None)
            .err(),
        Some(VkResult(ERROR_OUT_OF_DEVICE_MEMORY))
    );
}

#[test]
fn an_out_of_date_display_transaction_does_not_poison_the_queue() {
    let out_of_date = VkResult(ash::vk::Result::ERROR_OUT_OF_DATE_KHR.as_raw());
    let mut owner = QueueOwner::new();
    let (result, latched) =
        complete_present_transaction(&mut owner, || Ok(()), || Err(out_of_date));

    assert_eq!(result, Err(out_of_date));
    assert_eq!(owner.failure(), None);
    assert_eq!(latched, None);
}

#[test]
fn device_loss_during_present_stops_later_queue_work() {
    let mut owner = QueueOwner::new();
    let (result, latched) = complete_present_transaction(
        &mut owner,
        || Ok(()),
        || Err(VkResult(ERROR_DEVICE_LOST)),
    );

    assert_eq!(result, Err(VkResult(ERROR_DEVICE_LOST)));
    assert_eq!(owner.failure(), Some(VkResult(ERROR_DEVICE_LOST)));
    assert_eq!(
        latched,
        Some(latched_line("ERROR_DEVICE_LOST")),
        "the device counts as lost"
    );
    let (again, latched) = complete_present_transaction(
        &mut owner,
        || panic!("a stopped queue submits nothing"),
        || panic!("a stopped queue presents nothing"),
    );
    assert_eq!(again, Err(VkResult(ERROR_DEVICE_LOST)));
    assert_eq!(latched, None, "only the first failure is reported");
}

#[test]
fn a_failure_nobody_waits_for_stops_the_queue() {
    let mut owner = QueueOwner::new();
    let Ok(Request::Submit { submit, .. }) =
        owner.submit_sync(&[CommandBuffer(1)], Fence(2), None, None)
    else {
        panic!("a sync submission is a submission");
    };
    let answer = owner.finish_submit(&submit, true, false, Err(VkResult(-3)), 1, 2);
    assert_eq!(answer.reply, Some(Err(VkResult(-3))));
    assert_eq!(answer.receipt, None);
    assert_eq!(owner.failure(), None, "its caller was told");

    let Ok(Request::Submit { submit, .. }) =
        owner.submit_async(&[CommandBuffer(1)], Fence(2), None, Some((Semaphore(3), 9)))
    else {
        panic!("an async submission is a submission");
    };
    let answer = owner.finish_submit(&submit, false, true, Ok(()), 1, 2);
    assert_eq!(answer.receipt, Some(Ok(())));
    assert_eq!(answer.published, Some(9));
    let answer = owner.finish_submit(&submit, false, true, Err(VkResult(-4)), 1, 2);
    assert_eq!(answer.published, None);
    assert!(answer.latched.is_some());
    assert_eq!(owner.failure(), Some(VkResult(-4)));
    assert_eq!(owner.stats().async_submits, 2);
    assert_eq!(owner.stats().async_driver_us, 4);

    let request = Request::Submit {
        submit,
        reply: false,
        async_reply: true,
    };
    assert!(matches!(
        owner.next_action(&request),
        QueueAction::Refuse(VkResult(-4))
    ));
    assert!(matches!(
        owner.next_action(&owner.wait_idle()),
        QueueAction::WaitIdle
    ));
    assert!(matches!(
        owner.next_action(&owner.barrier()),
        QueueAction::Acknowledge
    ));
    assert!(matches!(owner.next_action(&Request::Stop), QueueAction::Stop));
}

#[test]
fn a_submission_reaches_the_driver_whole() {
    let owner = QueueOwner::new();
    let request = owner
        .submit_async(
            &[CommandBuffer(1), CommandBuffer(2)],
            Fence(5),
            Some(TimelineWait::new(Semaphore(3), 6, PipelineStageFlags(1))),
            Some((Semaphore(3), 7)),
        )
        .unwrap();
    let QueueAction::Submit(call) = owner.next_action(&request) else {
        panic!("a healthy queue submits");
    };
    assert_eq!(call.command_buffers, vec![CommandBuffer(1), CommandBuffer(2)]);
    assert_eq!(call.fence, Fence(5));
    assert_eq!(call.operands.wait_values, vec![6]);
    assert_eq!(call.operands.signal_values, vec![7]);
}

#[test]
fn a_latched_failure_is_reported_by_its_name() {
    assert_eq!(
        latched_line("ERROR_DEVICE_LOST"),
        "vk_queue_async_submit_failed reason=vk_queue_async_submit_failed \
         result=ERROR_DEVICE_LOST"
    );
    let mut latch = FailureLatch::new();
    assert_eq!(
        latch.set(VkResult(ERROR_DEVICE_LOST)),
        Some(latched_line("ERROR_DEVICE_LOST"))
    );
    assert_eq!(latch.set(VkResult(-2)), None);
    assert_eq!(latch.get(), Some(VkResult(ERROR_DEVICE_LOST)));
}
