//! Completion stamps and the submissions they wait for.

use reims_vgpu_vulkan::stamp_completion::{
    announce, classify_wait, fifo_has_pending_stamp, fifo_has_unsubmitted_stamp,
    note_publish_latency, out_of_range_line, wait_failed_line, Announcement, CompletionPoint, CompletionWait,
    PendingQueue, PublishOutcome, RunStep, SessionId, StampAdmission, StampCompletion, Waiting,
    WaitOutcome, FIFO_PENDING_STAMP_CAPACITY,
};
use reims_vgpu_vulkan::vk::{Semaphore, VkResult, ERROR_DEVICE_LOST, TIMEOUT};

fn waiting(index: u32, stamp: u32) -> Waiting {
    Waiting {
        session: SessionId(1),
        point: CompletionPoint::Submitted(u64::from(stamp) + 1),
        index,
        word: 0x1000,
        stamp,
        queued_at_us: 0,
    }
}

fn deferred(index: u32, stamp: u32, submission: u64) -> Waiting {
    Waiting {
        point: CompletionPoint::NextSubmission(submission),
        ..waiting(index, stamp)
    }
}

fn points(queue: &PendingQueue) -> Vec<CompletionPoint> {
    queue.entries().iter().map(|waiting| waiting.point).collect()
}

fn unsubmitted(queue: &PendingQueue, session: SessionId, index: u32) -> bool {
    fifo_has_unsubmitted_stamp(&queue.session_state(session).expect("a known session"), index)
}

#[test]
fn pending_capacity_is_per_fifo_and_fifo_order_is_preserved() {
    let mut queue = PendingQueue::new();
    for stamp in 0..FIFO_PENDING_STAMP_CAPACITY as u32 {
        queue.push(waiting(0, stamp));
    }
    let session = SessionId(1);
    assert!(queue.is_full(session, 0));
    assert!(!queue.is_full(session, 1));
    queue.push(waiting(1, 0xfeed));

    for stamp in 0..FIFO_PENDING_STAMP_CAPACITY as u32 {
        let entry = queue.pop_front().expect("root completion");
        assert_eq!((entry.index, entry.stamp), (0, stamp));
    }
    assert!(!queue.has_pending(session, 0));
    assert!(queue.has_pending(session, 1));
    let child = queue.pop_front().expect("child completion");
    assert_eq!((child.index, child.stamp), (1, 0xfeed));
    assert!(!queue.has_pending(session, 1));
}

#[test]
fn identical_fifo_ordinals_in_two_sessions_have_independent_pressure_and_projection() {
    let first = SessionId(1);
    let second = SessionId(2);
    let mut queue = PendingQueue::new();
    for stamp in 0..FIFO_PENDING_STAMP_CAPACITY as u32 {
        let mut entry = deferred(0, stamp, 7);
        entry.session = first;
        queue.push(entry);
    }
    let mut other = deferred(0, 0xfeed, 9);
    other.session = second;
    queue.push(other);
    queue.republish_unsubmitted();

    assert!(queue.is_full(first, 0));
    assert!(!queue.is_full(second, 0));
    assert!(unsubmitted(&queue, first, 0));
    assert!(unsubmitted(&queue, second, 0));

    assert_eq!(queue.bind_submission(7), FIFO_PENDING_STAMP_CAPACITY);
    assert!(!unsubmitted(&queue, first, 0));
    assert!(unsubmitted(&queue, second, 0));
}

#[test]
fn a_completion_announces_only_through_its_own_session_hook() {
    let first = SessionId(1);
    let second = SessionId(2);
    let mut owner = StampCompletion::new(Semaphore(1), 32);
    owner.install_announce(first);
    owner.install_announce(second);
    assert_eq!(
        owner.wait_for_stamp(first, 2, 0, 0x1000, 1, 0),
        StampAdmission::Queued
    );
    let RunStep::Wait { entry, timeline } = owner.next_step() else {
        panic!("a submitted stamp is waited for");
    };
    assert_eq!((entry.session, timeline), (first, 2));
    let outcome = owner.published(true);

    let mut counts = [0, 0];
    if let PublishOutcome::Announce(Announcement::Hook(0)) = outcome {
        counts[(entry.session.0 - 1) as usize] += 1;
    }
    assert_eq!(counts, [1, 0]);
}

#[test]
fn the_unsubmitted_projection_survives_a_partial_bind() {
    let mut queue = PendingQueue::new();
    let session = SessionId(1);
    queue.push(deferred(1, 0x10, 7));
    queue.push(deferred(1, 0x11, 9));
    queue.push(deferred(2, 0x20, 9));
    queue.republish_unsubmitted();
    assert!(unsubmitted(&queue, session, 1));
    assert!(unsubmitted(&queue, session, 2));

    assert_eq!(queue.bind_submission(7), 1);
    assert!(
        unsubmitted(&queue, session, 1),
        "FIFO 1 still has a stamp on batch 9, so its batch must still be \
         submittable on demand"
    );
    assert!(unsubmitted(&queue, session, 2));

    assert_eq!(queue.bind_submission(9), 2);
    assert!(
        !unsubmitted(&queue, session, 1),
        "with everything in flight there is nothing left to submit early"
    );
    assert!(!unsubmitted(&queue, session, 2));
}

#[test]
fn reservations_are_monotonic_and_handoff_is_published_separately() {
    let mut owner = StampCompletion::new(Semaphore(1), 32);
    for n in 1u64..=100 {
        assert_eq!(owner.next_submission(), n);
        assert_eq!(
            owner.reserve_submission().1,
            n,
            "the point recorded into an open-batch stamp is exactly the point subsequently reserved"
        );
    }
    assert_eq!(owner.latest_queued(), None);
}

#[test]
fn queued_point_orders_a_stamp_before_driver_submission() {
    let mut owner = StampCompletion::new(Semaphore(1), 32);
    assert_eq!(owner.reserve_submission(), (Semaphore(1), 1));

    owner.queued(1);

    assert_eq!(owner.latest_queued(), Some((Semaphore(1), 1)));
}

#[test]
fn no_reservation_can_collide_with_the_semaphores_initial_value() {
    let mut owner = StampCompletion::new(Semaphore(1), 32);
    assert_eq!(owner.reserve_submission().1, 1);
}

#[test]
fn only_a_completed_wait_may_publish_and_retire_its_entry() {
    assert_eq!(classify_wait(Ok(()), false), CompletionWait::Completed);
    assert_eq!(
        classify_wait(Err(VkResult(TIMEOUT)), false),
        CompletionWait::Retry,
        "a diagnostic timeout retains the exact submission association"
    );
    assert_eq!(
        classify_wait(Err(VkResult(ERROR_DEVICE_LOST)), false),
        CompletionWait::Failed(VkResult(ERROR_DEVICE_LOST))
    );
    assert_eq!(
        classify_wait(Ok(()), true),
        CompletionWait::Stopping,
        "the host signal used for teardown is not guest completion"
    );
}

#[test]
fn an_open_batch_stamp_binds_only_when_submission_succeeds() {
    let session = SessionId(1);
    let mut owner = StampCompletion::new(Semaphore(1), 32);
    for _ in 0..10 {
        owner.reserve_submission();
    }
    assert_eq!(
        owner.wait_for_stamp(session, 7, 0, 0x1000, 1, 0),
        StampAdmission::Queued
    );
    assert!(owner.queue_for_next_submission(session, 0, 0x1000, 2, 0));
    assert!(owner.queue_for_next_submission(session, 1, 0x1000, 3, 0));

    owner.queued(11);
    assert_eq!(owner.latest_queued(), Some((Semaphore(1), 11)));
    assert_eq!(
        points(owner.pending()),
        vec![
            CompletionPoint::Submitted(7),
            CompletionPoint::NextSubmission(11),
            CompletionPoint::NextSubmission(11),
        ]
    );

    assert!(owner.submitted(11));

    assert_eq!(
        points(owner.pending()),
        vec![
            CompletionPoint::Submitted(7),
            CompletionPoint::Submitted(11),
            CompletionPoint::Submitted(11),
        ]
    );
}

#[test]
fn delayed_submission_binds_only_its_own_open_batch_stamps() {
    let session = SessionId(1);
    let mut owner = StampCompletion::new(Semaphore(1), 32);
    assert!(owner.queue_for_next_submission(session, 0, 0x1000, 1, 0));
    assert_eq!(owner.reserve_submission().1, 1);
    assert!(owner.queue_for_next_submission(session, 0, 0x1000, 2, 0));

    assert!(owner.submitted(1));

    assert_eq!(
        points(owner.pending()),
        vec![
            CompletionPoint::Submitted(1),
            CompletionPoint::NextSubmission(2),
        ]
    );
}

#[test]
fn every_submission_binds_exactly_its_stamps_across_batches_and_fifos() {
    const BATCHES: u64 = 8;
    const FIFOS: u32 = 4;
    let mut queue = PendingQueue::new();
    let mut owners = Vec::new();

    queue.push(waiting(FIFOS, 0xf000));
    owners.push(None);
    for batch in 1..=BATCHES {
        for fifo in 0..FIFOS {
            queue.push(deferred(fifo, (batch as u32) * 16 + fifo, batch));
            owners.push(Some(batch));
        }
    }
    let fifo_levels = queue.levels().clone();
    assert_eq!(fifo_levels.len(), FIFOS as usize + 1);

    for submitted in 1..=BATCHES {
        assert_eq!(
            queue.bind_submission(submitted),
            FIFOS as usize,
            "one notification binds every FIFO stamp in its batch and no other"
        );
        for (waiting, owner) in queue.entries().iter().zip(&owners) {
            let expected = match owner {
                None => CompletionPoint::Submitted(0xf001),
                Some(batch) if *batch <= submitted => CompletionPoint::Submitted(*batch),
                Some(batch) => CompletionPoint::NextSubmission(*batch),
            };
            assert_eq!(waiting.point, expected, "owner={owner:?} after={submitted}");
        }
        assert_eq!(
            queue.bind_submission(submitted),
            0,
            "a duplicate driver-success notification is idempotent"
        );
        assert_eq!(
            *queue.levels(),
            fifo_levels,
            "binding changes state, never FIFO occupancy"
        );
    }
}

#[test]
fn out_of_order_notifications_still_cannot_cross_batch_ownership() {
    let mut queue = PendingQueue::new();
    queue.push(deferred(0, 1, 1));
    queue.push(deferred(0, 2, 2));
    queue.push(deferred(0, 3, 3));

    assert_eq!(queue.bind_submission(2), 1);
    assert_eq!(
        points(&queue),
        vec![
            CompletionPoint::NextSubmission(1),
            CompletionPoint::Submitted(2),
            CompletionPoint::NextSubmission(3),
        ]
    );
    assert_eq!(queue.bind_submission(1), 1);
    assert_eq!(queue.bind_submission(3), 1);
    assert!(queue
        .entries()
        .iter()
        .all(|waiting| matches!(waiting.point, CompletionPoint::Submitted(_))));
}

#[test]
fn queue_worker_return_cannot_claim_a_stamp_recorded_during_its_driver_call() {
    let session = SessionId(1);
    let mut owner = StampCompletion::new(Semaphore(1), 32);
    assert!(owner.queue_for_next_submission(session, 0, 0x1000, 1, 0));
    let (_, first) = owner.reserve_submission();
    assert_eq!(first, 1);
    owner.queued(first);
    // The driver call of the first submission is under way.
    assert!(owner.queue_for_next_submission(session, 1, 0x1000, 2, 0));
    assert!(owner.submitted(first));

    assert_eq!(
        points(owner.pending()),
        vec![
            CompletionPoint::Submitted(1),
            CompletionPoint::NextSubmission(2),
        ]
    );
}

#[test]
fn a_session_is_listed_once() {
    let mut queue = PendingQueue::new();
    for stamp in 0..3 {
        queue.push(waiting(stamp, stamp));
        let mut other = waiting(stamp, stamp);
        other.session = SessionId(2);
        queue.push(other);
    }
    assert_eq!(queue.session_position(SessionId(1)), Some(0));
    assert_eq!(queue.session_position(SessionId(2)), Some(1));
    assert_eq!(queue.session_state(SessionId(2)).unwrap().session, SessionId(2));
    assert!(queue.session_state(SessionId(3)).is_none());
    assert_eq!(queue.levels().len(), 6);
    assert!(queue.levels().iter().all(|level| level.count == 1));
}

#[test]
fn a_stamp_goes_from_its_fifo_to_its_guest() {
    let session = SessionId(4);
    let mut owner = StampCompletion::new(Semaphore(1), 2);
    owner.install_announce(session);
    assert_eq!(
        owner.wait_for_stamp(session, 1, 2, 0x1000, 1, 0),
        StampAdmission::OutOfRange
    );
    assert_eq!(
        out_of_range_line(2, 2),
        "stamp_fifo_out_of_range reason=stamp_fifo_out_of_range index=2 max_channels=2"
    );
    assert!(matches!(owner.next_step(), RunStep::Park));

    assert!(owner.queue_for_next_submission(session, 1, 0x1000, 5, 0));
    let state = owner.session_state(session).unwrap();
    assert!(fifo_has_pending_stamp(&state, 1));
    assert!(fifo_has_unsubmitted_stamp(&state, 1));
    assert!(!fifo_has_pending_stamp(&state, 0));
    assert!(owner.wait_for_fifo_idle(session, 1));
    assert!(!owner.wait_for_fifo_idle(session, 0));
    assert!(
        matches!(owner.next_step(), RunStep::Park),
        "its submission has not happened"
    );

    assert!(owner.submitted(1));
    assert!(!owner.submitted(1), "nothing is left to wake for");
    let state = owner.session_state(session).unwrap();
    assert!(!fifo_has_unsubmitted_stamp(&state, 1));
    let RunStep::Wait { entry, timeline } = owner.next_step() else {
        panic!("its submission has happened");
    };
    assert_eq!((entry.stamp, timeline), (5, 1));
    assert!(matches!(
        owner.wait_returned(entry, timeline, Ok(()), true),
        WaitOutcome::Publish
    ));
    match owner.wait_returned(entry, timeline, Err(VkResult(TIMEOUT)), true) {
        WaitOutcome::Retry(Some(line)) => {
            assert!(line.starts_with("stamp_wait_timeout reason=stamp_wait_timeout index=1 value=1"))
        }
        _ => panic!("a late submission is waited for again"),
    }
    assert!(matches!(
        owner.wait_returned(entry, timeline, Err(VkResult(TIMEOUT)), false),
        WaitOutcome::Retry(None)
    ));
    match owner.wait_returned(entry, timeline, Err(VkResult(ERROR_DEVICE_LOST)), true) {
        WaitOutcome::Fail(line) => assert!(line.contains("err=ERROR_DEVICE_LOST")),
        _ => panic!("a failed wait is final"),
    }
    match owner.published(false) {
        PublishOutcome::Withheld(line) => assert!(line.contains("value=0x5")),
        PublishOutcome::Announce(_) => panic!("the word was not stored"),
    }
    assert!(owner.wait_for_fifo_idle(session, 1), "the stamp is still there");
    assert!(matches!(
        owner.published(true),
        PublishOutcome::Announce(Announcement::Hook(1))
    ));
    assert!(!owner.wait_for_fifo_idle(session, 1));
    let state = owner.session_state(session).unwrap();
    assert!(!fifo_has_pending_stamp(&state, 1));
}

#[test]
fn a_full_fifo_takes_no_more_and_teardown_takes_nothing() {
    let session = SessionId(1);
    let mut owner = StampCompletion::new(Semaphore(1), 4);
    for stamp in 0..FIFO_PENDING_STAMP_CAPACITY as u32 {
        assert!(owner.queue_for_next_submission(session, 0, 0x1000, stamp, 0));
    }
    assert!(!owner.queue_for_next_submission(session, 0, 0x1000, 99, 0));
    assert_eq!(
        owner.wait_for_stamp(session, 1, 0, 0x1000, 99, 0),
        StampAdmission::Wait
    );
    assert_eq!(owner.stop(), 1);
    assert_eq!(
        owner.wait_for_stamp(session, 1, 1, 0x1000, 99, 0),
        StampAdmission::Stopping
    );
    assert!(!owner.queue_for_next_submission(session, 1, 0x1000, 99, 0));
    assert!(!owner.wait_for_fifo_idle(session, 0));
    assert!(matches!(owner.next_step(), RunStep::Exit));
    owner.release();
    let state = owner.session_state(session).unwrap();
    assert!(!fifo_has_pending_stamp(&state, 0));
    assert!(!fifo_has_unsubmitted_stamp(&state, 0));
}

#[test]
fn a_session_without_a_hook_is_reported() {
    match announce(false, 3) {
        Announcement::Missing(line) => {
            assert!(line.starts_with("stamp_announce_no_hook reason=stamp_announce_no_hook index=3"))
        }
        Announcement::Hook(_) => panic!("there is no hook"),
    }
    assert!(matches!(announce(true, 3), Announcement::Hook(3)));
}

#[test]
fn each_publish_latency_has_its_band() {
    let bands = [
        (99, "stamp_publish_lt100us"),
        (100, "stamp_publish_lt1ms"),
        (999, "stamp_publish_lt1ms"),
        (1_000, "stamp_publish_lt4ms"),
        (4_000, "stamp_publish_lt16ms"),
        (16_000, "stamp_publish_lt64ms"),
        (64_000, "stamp_publish_lt500ms"),
        (499_999, "stamp_publish_lt500ms"),
        (500_000, "stamp_publish_ge500ms"),
    ];
    for (us, band) in bands {
        assert_eq!(note_publish_latency(us), band, "{us}");
    }
}

#[test]
fn a_full_fifo_leaves_the_others_their_room_and_its_own_order() {
    let session = SessionId(4);
    let mut owner = StampCompletion::new(Semaphore(1), 2);
    owner.install_announce(session);
    for stamp in 0..32 {
        assert_eq!(
            owner.wait_for_stamp(session, 1, 0, 0x1000, stamp, 0),
            StampAdmission::Queued
        );
    }
    assert_eq!(
        owner.wait_for_stamp(session, 1, 0, 0x1000, 32, 0),
        StampAdmission::Wait
    );
    assert_eq!(
        owner.wait_for_stamp(session, 1, 1, 0x2000, 7, 0),
        StampAdmission::Queued
    );
    for expected in 0..32 {
        match owner.next_step() {
            RunStep::Wait { entry, .. } => {
                assert_eq!((entry.index, entry.stamp), (0, expected));
            }
            other => panic!("{other:?}"),
        }
        assert!(matches!(
            owner.published(true),
            PublishOutcome::Announce(Announcement::Hook(0))
        ));
    }
    let state = owner.session_state(session).unwrap();
    assert!(!fifo_has_pending_stamp(&state, 0));
    assert!(fifo_has_pending_stamp(&state, 1));
}

#[test]
fn a_failed_wait_is_reported_by_its_name() {
    assert_eq!(
        wait_failed_line(3, 7, "ERROR_DEVICE_LOST"),
        "stamp_wait_failed reason=stamp_wait_failed index=3 value=7 err=ERROR_DEVICE_LOST \
         (the completion remains unpublished)"
    );
}
