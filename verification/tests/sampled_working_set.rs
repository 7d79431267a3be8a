//! The windows of sampled content that binds ask for.

use reims_vgpu_vulkan::pools::slots::{SampledKey, Swizzle};
use reims_vgpu_vulkan::sampled_working_set::{
    census, note_wanted, SampledContentIdentity, Window, CAPACITY,
};
use reims_vgpu_vulkan::vk::Format;

fn key() -> SampledKey {
    SampledKey {
        width: 8,
        height: 8,
        mip_levels: 1,
        layers: 1,
        volume: false,
        cube: false,
        arrayed: false,
        one_dim: false,
        format: Format(ash::vk::Format::R8G8B8A8_UNORM.as_raw()),
        swizzle: Swizzle(0),
    }
}

fn id(key: u64, generation: u64) -> Option<SampledContentIdentity> {
    Some(SampledContentIdentity { key, generation })
}

#[test]
fn asking_for_one_window_repeatedly_wants_one_window() {
    let mut w = Window::new();
    for _ in 0..1000 {
        w.want(key(), id(7, 1), 2 << 20);
    }
    let line = w.take().expect("a bind happened");
    assert!(line.contains("distinct=1"), "{line}");
    assert!(line.contains("mib=2.0"), "{line}");
}

#[test]
fn a_new_generation_of_one_resource_is_a_second_window() {
    let mut w = Window::new();
    w.want(key(), id(7, 1), 1 << 20);
    w.want(key(), id(7, 2), 1 << 20);
    let line = w.take().expect("a bind happened");
    assert!(line.contains("distinct=2"), "{line}");
    assert!(line.contains("mib=2.0"), "{line}");
}

#[test]
fn a_bind_with_no_identity_is_counted_apart_from_the_set() {
    let mut w = Window::new();
    w.want(key(), None, 4 << 20);
    let line = w.take().expect("a bind happened");
    assert!(line.contains("distinct=0"), "{line}");
    assert!(line.contains("no_identity=1"), "{line}");
    assert!(line.contains("mib=0.0"), "{line}");
}

#[test]
fn taking_a_window_clears_it() {
    let mut w = Window::new();
    w.want(key(), id(1, 1), 1 << 20);
    assert!(w.take().is_some());
    assert!(w.take().is_none());
}

#[test]
fn a_full_window_reports_that_its_count_is_a_floor() {
    let mut w = Window::new();
    for i in 0..CAPACITY as u64 {
        w.want(key(), id(i, 0), 0);
    }
    w.want(key(), id(u64::MAX, 0), 0);
    let line = w.take().expect("a bind happened");
    assert!(line.contains(&format!("distinct={CAPACITY}")), "{line}");
    assert!(line.contains("dropped=1"), "{line}");
}

#[test]
fn a_census_reads_the_window_it_clears() {
    let mut w = Window::new();
    assert!(census(&mut w).is_none());
    note_wanted(&mut w, key(), id(1, 1), 3 << 19);
    note_wanted(&mut w, key(), id(2, 1), 1);
    let line = census(&mut w).expect("a bind happened");
    assert!(line.contains("distinct=2"), "{line}");
    assert!(line.contains("mib=1.5"), "{line}");
    assert!(census(&mut w).is_none());
}

#[test]
fn each_census_tells_of_its_own_window_alone() {
    let mut w = Window::new();
    note_wanted(&mut w, key(), id(1, 1), 4 << 20);
    note_wanted(&mut w, key(), None, 0);
    let first = census(&mut w).unwrap();
    assert!(first.contains("distinct=1"), "{first}");
    assert!(first.contains("no_identity=1"), "{first}");
    note_wanted(&mut w, key(), id(1, 1), 1 << 20);
    note_wanted(&mut w, key(), id(2, 1), 1 << 20);
    note_wanted(&mut w, key(), id(2, 1), 1 << 20);
    let second = census(&mut w).unwrap();
    assert!(second.contains("distinct=2"), "{second}");
    assert!(second.contains("no_identity=0"), "{second}");
    assert!(second.contains("mib=2.0"), "{second}");
    assert_eq!(census(&mut w), None);
}

#[test]
fn the_size_is_shown_as_a_floating_point_number_would_be() {
    for bytes in [
        0usize,
        1,
        52_428,
        52_429,
        157_286,
        157_287,
        1 << 20,
        (1 << 20) + 52_428,
        (1 << 30) + 12_345,
        usize::MAX >> 10,
    ] {
        let mut w = Window::new();
        w.want(key(), id(1, 1), bytes);
        let line = w.take().unwrap();
        let expected = format!("mib={:.1}", bytes as f64 / f64::from(1u32 << 20));
        assert!(line.contains(&expected), "{line} {expected}");
    }
}
