//! The recording order.

use reims_vgpu_vulkan::retirement::RetirementOrder;

#[test]
fn completion_advances_only_over_a_contiguous_prefix() {
    let mut order = RetirementOrder::new();
    let first = order.reserve().unwrap().submitted();
    let second = order.reserve().unwrap().submitted();
    let captured = order.latest().unwrap();

    second.retire(&mut order);
    assert!(
        !order.retired(captured),
        "the earlier recording is still live"
    );
    first.retire(&mut order);
    assert!(order.retired(captured));
}

#[test]
fn abandoned_recording_cancels_its_point() {
    let mut order = RetirementOrder::new();
    let lease = order.reserve().unwrap();
    let point = order.latest().unwrap();

    lease.cancel(&mut order);
    assert!(order.retired(point));
}

#[test]
fn later_recording_does_not_extend_an_earlier_capture() {
    let mut order = RetirementOrder::new();
    let first = order.reserve().unwrap().submitted();
    let captured = first.point();
    let later = order.reserve().unwrap().submitted();
    let later_point = later.point();

    first.retire(&mut order);
    assert!(order.retired(captured));
    assert!(!order.retired(later_point));
    later.retire(&mut order);
}

#[test]
fn cancellation_closes_a_hole_before_a_later_completion() {
    let mut order = RetirementOrder::new();
    let abandoned = order.reserve().unwrap();
    let later = order.reserve().unwrap().submitted();
    let captured = later.point();

    later.retire(&mut order);
    assert!(!order.retired(captured));
    abandoned.cancel(&mut order);
    assert!(order.retired(captured));
}

#[test]
fn points_are_issued_in_order_from_one() {
    let mut order = RetirementOrder::new();
    assert!(order.latest().is_none());
    let first = order.reserve().unwrap().submitted();
    let second = order.reserve().unwrap().submitted();
    assert_eq!(first.point().0, 1);
    assert_eq!(second.point().0, 2);
    assert_eq!(order.latest().map(|point| point.0), Some(2));
    second.retire(&mut order);
    first.retire(&mut order);
    let point = order.latest().unwrap();
    assert!(order.retired(point), "completion in any order ends alike");
}
