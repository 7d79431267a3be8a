//! What is reported of a wait that outlasts its deadline.

use reims_vgpu_vulkan::late::{
    fence_delayed_lines, late_stamp_lines, DelayedFence, HangTrail,
};
use reims_vgpu_vulkan::pools::limits::FENCE_TIMEOUT_NS;

fn text(text: &str) -> Option<String> {
    Some(text.to_string())
}

#[test]
fn a_late_stamp_tells_the_submission_it_waits_for() {
    let trail = HangTrail {
        submission: Some((2, "draws=3".to_string())),
        outstanding: text("outstanding=1"),
        trail: text("trail=[a b]"),
        pipeline_firsts: text("firsts=[7]"),
    };
    assert_eq!(
        late_stamp_lines(5, 41, &trail),
        vec![
            "stamp_wait_timeout_submission reason=stamp_wait_timeout index=5 value=41 slot=2 \
             held=[draws=3]",
            "stamp_wait_timeout_queue reason=stamp_wait_timeout index=5 value=41 outstanding=1",
            "stamp_wait_timeout_trail reason=stamp_wait_timeout index=5 value=41 trail=[a b]",
            "stamp_wait_timeout_pipes reason=stamp_wait_timeout index=5 value=41 firsts=[7]",
        ]
    );
}

#[test]
fn a_late_stamp_without_a_record_says_so() {
    let trail = HangTrail {
        submission: None,
        outstanding: None,
        trail: None,
        pipeline_firsts: text("firsts=[]"),
    };
    assert_eq!(
        late_stamp_lines(0, 7, &trail),
        vec![
            "stamp_wait_timeout_submission reason=stamp_wait_timeout index=0 value=7 held=none \
             (no live submission-ring entry carries this timeline point)",
            "stamp_wait_timeout_pipes reason=stamp_wait_timeout index=0 value=7 firsts=[]",
        ]
    );
}

#[test]
fn a_late_fence_tells_what_its_slot_holds() {
    let deadline = FENCE_TIMEOUT_NS;
    assert_eq!(
        fence_delayed_lines(DelayedFence::Retiring(3), &text("draws=1"), &text("rest=2")),
        vec![
            format!(
                "vk_engine_fence_delayed reason=vk_engine_fence_delayed slot=3 \
                 deadline_ns={deadline} held=draws=1"
            ),
            "vk_engine_fence_delayed_queue reason=vk_engine_fence_delayed rest=2".to_string(),
        ]
    );
    assert_eq!(
        fence_delayed_lines(DelayedFence::Retiring(0), &None, &None),
        vec![format!(
            "vk_engine_fence_delayed reason=vk_engine_fence_delayed slot=0 \
             deadline_ns={deadline} held=none (this slot's work was never recorded)"
        )]
    );
    assert_eq!(
        fence_delayed_lines(DelayedFence::Awaited(None), &None, &None),
        vec![format!(
            "vk_engine_fence_delayed reason=vk_engine_fence_delayed slot=unknown \
             deadline_ns={deadline} held=none"
        )]
    );
    assert_eq!(
        fence_delayed_lines(DelayedFence::Awaited(Some(4)), &text("x"), &None),
        vec![format!(
            "vk_engine_fence_delayed reason=vk_engine_fence_delayed slot=4 \
             deadline_ns={deadline} held=x"
        )]
    );
}
