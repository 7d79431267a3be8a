//! What is kept for reuse, and when it may be used again.

use reims_vgpu_vulkan::format::{
    StorageImageFormat, TexelLayout, FORMAT_B8G8R8A8_UNORM, FORMAT_R8G8B8A8_UNORM,
};
use reims_vgpu_vulkan::pools::buckets::buffer_bucket;
use reims_vgpu_vulkan::pools::encoder::{
    Area, BatchFit, BatchTarget, CompatibilityField, EncoderPools, OpenBatch, PassCompatibility,
    PassEcho,
};
use reims_vgpu_vulkan::pools::entry::SealedCommit;
use reims_vgpu_vulkan::pools::fence::{classify_fence_wait, EngineCounters, FenceWait};
use reims_vgpu_vulkan::pools::free_pool::FreePool;
use reims_vgpu_vulkan::pools::guest_debt::GuestWriteSource;
use reims_vgpu_vulkan::pools::limits::{
    batch_default_draws, target_pool_depth_band, MemoryTopology, BATCH_MAX_DRAWS,
    DISCRETE_BATCH_MAX_DRAWS, TARGET_POOL_MAX_ENTRIES,
};
use reims_vgpu_vulkan::pools::memo::{
    BindCounts, BindKey, BoundBuffer, CbBind, CbBindAllocation, GuestPages, GuestRun, MemoCounts,
    SampledGuestKey, SnapshotInvalidation, StoreInvalidation, WriteInvalidation,
};
use reims_vgpu_vulkan::pools::pass::PassEchoField;
use reims_vgpu_vulkan::pools::resource::ResourcePools;
use reims_vgpu_vulkan::pools::sampled_cache::{LiveOwners, ResidentSampledSlot};
use reims_vgpu_vulkan::pools::slots::{
    BufferBacking, BufferSlot, CmdSlot, ComputeStorageResidencyKey, DeferredHandle, DescriptorRef,
    EncoderCleanup, FreeTargetImage, GuestWriteToken, PendingGpuCleanup, SampledKey, SampledRetain,
    SampledSlot, SealedEntry, SharedCleanup, SlotSpan, SlotSubmission, StorageImageBacking,
    StorageImageKey, StorageImageSlot, SubmissionIdentity, Swizzle, TargetIdentity,
    TargetRecycleKey, VisibilityCleanup,
};
use reims_vgpu_vulkan::pools::swizzle::exchange_rb_into;
use reims_vgpu_vulkan::pools::targets::RESIDENT_RGBA_FORMAT;
use reims_vgpu_vulkan::pools::visibility::ImportedGuestVisibility;
use reims_vgpu_vulkan::queue_owner::{PendingQueueSubmit, ReceiptState};
use reims_vgpu_vulkan::sampled_working_set::Window;
use reims_vgpu_vulkan::stamp_completion::SessionId;
use reims_vgpu_vulkan::types::{DrawError, EngineFacadeDecline};
use reims_vgpu_vulkan::vk::{
    Buffer, CommandBuffer, DescriptorPool, DescriptorSet, DeviceMemory, Fence, Format, Framebuffer,
    Image, ImageView, VkResult, ERROR_DEVICE_LOST, ERROR_OUT_OF_DEVICE_MEMORY, TIMEOUT,
};
use std::collections::VecDeque;
use std::sync::Arc;

const SCANOUT_FORMAT: i32 = FORMAT_B8G8R8A8_UNORM;

fn write_token(serial: u64) -> GuestWriteToken {
    GuestWriteToken {
        session: SessionId(0),
        serial,
    }
}

fn null_slot(w: u32, h: u32) -> SampledSlot {
    SampledSlot {
        image: Image(0),
        memory: DeviceMemory(0),
        view: ImageView(0),
        shape: SampledKey {
            width: w,
            height: h,
            mip_levels: 1,
            layers: 1,
            volume: false,
            cube: false,
            arrayed: false,
            one_dim: false,
            format: Format(FORMAT_B8G8R8A8_UNORM),
            swizzle: Swizzle(0),
        },
    }
}

fn guest_runs(slot: &SampledSlot, host_ptr: u64, source_offset: u64) -> SampledGuestKey {
    SampledGuestKey {
        shape: slot.key(),
        runs: vec![GuestRun { host_ptr, len: 64 }],
        source_offset,
        total_len: 64,
        row_length_texels: 4,
    }
}

#[test]
fn a_diagnostic_fence_deadline_keeps_the_submission_pending() {
    assert_eq!(
        classify_fence_wait(Err(VkResult(TIMEOUT))),
        FenceWait::Pending
    );
    assert_eq!(classify_fence_wait(Ok(())), FenceWait::Signaled);
    assert_eq!(
        classify_fence_wait(Err(VkResult(ERROR_DEVICE_LOST))),
        FenceWait::Failed(VkResult(ERROR_DEVICE_LOST))
    );
}

/// A sealed entry of its own recording.
fn seal_test_entry(
    pools: &mut ResourcePools,
    dsets: Vec<DescriptorRef>,
    retains: Vec<SampledRetain>,
) -> SealedEntry {
    let lease = pools.shared.checkout_recording().unwrap();
    pools.encoder.begin_recording(lease);
    pools.encoder.seal_entry(dsets, retains)
}

#[test]
fn a_rejected_commit_returns_the_exact_sealed_cleanup() {
    let mut pools = ResourcePools::new();
    pools.encoder.slots.push(idle_slot());
    let set = DescriptorRef {
        set: DescriptorSet(11),
        pool: DescriptorPool(12),
    };
    let sealed = seal_test_entry(&mut pools, vec![set], Vec::new());
    pools.encoder.stage_sealed_entry(sealed);
    assert!(matches!(
        pools.encoder.slots[0].submission,
        SlotSubmission::SealedWaitingCommit(_)
    ));
    let (sealed, error) = match pools.encoder.resolve_staged_commit(Err::<(), _>(17)) {
        SealedCommit::Accepted { .. } => panic!("the rejected commit was accepted"),
        SealedCommit::Rejected { sealed, error } => (sealed, error),
    };

    assert_eq!(error, 17);
    assert_eq!(sealed.cleanup.encoder.dsets.len(), 1);
    assert_eq!(sealed.cleanup.encoder.dsets[0].set, set.set);
    assert_eq!(sealed.cleanup.encoder.dsets[0].pool, set.pool);
}

/// One echo; a shape change brings a new framebuffer with it.
fn echo(image: u64, variation: bool) -> PassEcho {
    PassEcho {
        cb: CommandBuffer(0),
        compatibility: PassCompatibility(u64::from(variation)),
        fb: Framebuffer(image * 2 + u64::from(variation)),
        target_image: Image(image),
        area: Area {
            width: 1920,
            height: 1080,
        },
    }
}

#[test]
fn passdiff_compat_means_one_image_described_two_ways() {
    let mut pools = ResourcePools::new();
    let shape = Some(CompatibilityField(1));
    pools.encoder.note_pass_opened(echo(1, false));
    assert!(
        matches!(
            pools.encoder.pass_echo_delta(&echo(1, true), shape),
            Some(PassEchoField::Compatibility(_))
        ),
        "the same image with a different declared shape is the defect this \
         bucket exists to count, despite the framebuffer the shape brings"
    );
    assert_eq!(
        pools.encoder.pass_echo_delta(&echo(2, true), shape),
        Some(PassEchoField::Target),
        "a break where the image also moved is the guest changing target, \
         however the shape differs alongside it"
    );
    assert_eq!(
        pools.encoder.pass_echo_delta(&echo(2, false), None),
        Some(PassEchoField::Target),
        "and at an identical shape too"
    );
    assert_eq!(
        pools.encoder.pass_echo_delta(&echo(1, false), None),
        None,
        "an identical echo continues the standing pass"
    );
}

#[test]
fn each_band_covers_its_quarter_of_the_cap() {
    let q = TARGET_POOL_MAX_ENTRIES / 4;
    assert_eq!(target_pool_depth_band(0), "target_pool_depth_q1");
    assert_eq!(target_pool_depth_band(q - 1), "target_pool_depth_q1");
    assert_eq!(target_pool_depth_band(q), "target_pool_depth_q2");
    assert_eq!(target_pool_depth_band(q * 2 - 1), "target_pool_depth_q2");
    assert_eq!(target_pool_depth_band(q * 2), "target_pool_depth_q3");
    assert_eq!(target_pool_depth_band(q * 3 - 1), "target_pool_depth_q3");
    assert_eq!(target_pool_depth_band(q * 3), "target_pool_depth_q4");
}

#[test]
fn the_band_at_the_cap_is_the_top_one() {
    assert_eq!(
        target_pool_depth_band(TARGET_POOL_MAX_ENTRIES),
        "target_pool_depth_q4"
    );
    assert_eq!(
        target_pool_depth_band(TARGET_POOL_MAX_ENTRIES - 1),
        "target_pool_depth_q4"
    );
    assert_eq!(
        target_pool_depth_band(TARGET_POOL_MAX_ENTRIES * 4),
        "target_pool_depth_q4"
    );
}

#[test]
fn sampled_guest_reuse_is_exact_and_ends_at_the_next_guest_operation() {
    let mut pools = ResourcePools::new();
    let slot = null_slot(4, 4);

    assert!(pools
        .encoder
        .cb_sampled_guest(&guest_runs(&slot, 0x1000, 0))
        .is_none());
    pools
        .encoder
        .note_cb_sampled_guest(guest_runs(&slot, 0x1000, 0), None, &slot);
    assert!(
        pools
            .encoder
            .cb_sampled_guest(&guest_runs(&slot, 0x1000, 0))
            .is_some(),
        "the checked storage sequence, not a per-draw Vec allocation, is the identity"
    );

    assert!(
        pools
            .encoder
            .cb_sampled_guest(&guest_runs(&slot, 0x1000, 4))
            .is_none(),
        "a different guest byte window must record its own upload"
    );

    pools.encoder.begin_guest_operation(CommandBuffer(1));
    assert!(
        pools
            .encoder
            .cb_sampled_guest(&guest_runs(&slot, 0x1000, 0))
            .is_none(),
        "guest CPU writes are unobservable, so reuse ends at the operation boundary"
    );
}

#[test]
fn sampled_guest_write_invalidation_is_page_exact() {
    let mut pools = ResourcePools::new();
    let slot = null_slot(4, 4);
    pools.encoder.note_cb_sampled_guest(
        guest_runs(&slot, 0x1000, 0),
        GuestPages::new(&[11]),
        &slot,
    );
    pools.encoder.note_cb_sampled_guest(
        guest_runs(&slot, 0x2000, 0),
        GuestPages::new(&[22]),
        &slot,
    );

    let written = GuestPages::new(&[11]).unwrap();
    pools.encoder.forget_cb_sampled_guest_pages(&written);

    assert!(pools
        .encoder
        .cb_sampled_guest(&guest_runs(&slot, 0x1000, 0))
        .is_none());
    assert!(pools
        .encoder
        .cb_sampled_guest(&guest_runs(&slot, 0x2000, 0))
        .is_some());
}

fn guest_bind(host_ptr: u64) -> CbBind {
    CbBind {
        key: BindKey {
            address: host_ptr,
            offset: 0,
            len: 64,
        },
        allocation: CbBindAllocation::GuestRuns(Arc::new(vec![GuestRun { host_ptr, len: 64 }])),
    }
}

fn bytes_bind(bytes: Vec<u8>) -> CbBind {
    let len = bytes.len() as u64;
    let allocation = Arc::new(bytes);
    CbBind {
        key: BindKey {
            address: Arc::as_ptr(&allocation) as usize as u64,
            offset: 0,
            len,
        },
        allocation: CbBindAllocation::Bytes(allocation),
    }
}

#[test]
fn a_guest_store_keeps_alias_bindings_and_discards_copied_snapshots() {
    let mut pools = ResourcePools::new();
    let alias = guest_bind(0x1000);
    let copy = guest_bind(0x2000);
    let alias_bound = BoundBuffer {
        buffer: Buffer(0),
        offset: 0,
        guest_import: true,
    };
    let copy_bound = BoundBuffer {
        guest_import: false,
        ..alias_bound
    };
    pools
        .encoder
        .note_cb_bound_buffer(alias.clone(), alias_bound);
    pools.encoder.note_cb_bound_buffer(copy.clone(), copy_bound);

    pools.encoder.forget_cb_bound_buffer_copies();

    assert!(
        pools.encoder.cb_bound_buffer(alias.key).is_some(),
        "the binding still names the same live guest allocation after its bytes change"
    );
    assert!(
        pools.encoder.cb_bound_buffer(copy.key).is_none(),
        "a copied snapshot predating the Store is stale"
    );
}

#[test]
fn what_a_write_makes_stale_is_counted() {
    let mut pools = ResourcePools::new();
    let slot = null_slot(4, 4);
    let bound = BoundBuffer {
        buffer: Buffer(0),
        offset: 0,
        guest_import: true,
    };
    let copied = BoundBuffer {
        guest_import: false,
        ..bound
    };
    pools.encoder.note_cb_bound_buffer(guest_bind(0x1000), bound);
    pools.encoder.note_cb_bound_buffer(guest_bind(0x2000), copied);
    pools.encoder.note_cb_bound_buffer(guest_bind(0x3000), copied);
    for (host_ptr, pages) in [
        (0x1000, GuestPages::new(&[11])),
        (0x2000, GuestPages::new(&[22])),
        (0x3000, GuestPages::new(&[33])),
        (0x4000, None),
    ] {
        pools
            .encoder
            .note_cb_sampled_guest(guest_runs(&slot, host_ptr, 0), pages, &slot);
    }
    let counts = pools.encoder.note_guest_write_pages_recorded(
        GuestWriteSource::ImportedBuffer,
        GuestPages::new(&[11]).unwrap(),
        None,
        false,
    );
    assert_eq!(
        counts,
        StoreInvalidation {
            copies: 2,
            aliases: 1,
            sampled: WriteInvalidation {
                overlap: 1,
                unknown: 1,
                disjoint: 2,
            },
        }
    );
    pools.encoder.note_cb_bound_buffer(guest_bind(0x5000), copied);
    let first = pools
        .encoder
        .enter_render_encoder_record(CommandBuffer(1), false);
    assert_eq!(
        first,
        Some(SnapshotInvalidation {
            copies: 1,
            aliases: 1,
            sampled: 2,
        })
    );
    assert_eq!(
        pools
            .encoder
            .enter_render_encoder_record(CommandBuffer(1), true),
        None
    );
    assert_eq!(
        pools.encoder.begin_guest_operation(CommandBuffer(1)),
        SnapshotInvalidation {
            copies: 0,
            aliases: 1,
            sampled: 0,
        }
    );
}

#[test]
fn an_ended_command_buffer_tells_what_it_forgot() {
    let mut pools = ResourcePools::new();
    let slot = null_slot(4, 4);
    let bound = BoundBuffer {
        buffer: Buffer(0),
        offset: 0,
        guest_import: true,
    };
    let copied = BoundBuffer {
        guest_import: false,
        ..bound
    };
    let remember = |encoder: &mut EncoderPools| {
        encoder.note_cb_bound_buffer(guest_bind(0x1000), bound);
        encoder.note_cb_bound_buffer(guest_bind(0x2000), copied);
        encoder.note_cb_bound_buffer(guest_bind(0x3000), copied);
        encoder.note_cb_bound_buffer(bytes_bind(vec![7; 64]), copied);
    };
    let binds = BindCounts {
        aliases: 1,
        immutable: 1,
        copies: 2,
    };
    remember(&mut pools.encoder);
    pools
        .encoder
        .note_cb_sampled_guest(guest_runs(&slot, 0x1000, 0), None, &slot);
    let sealed = seal_test_entry(&mut pools, Vec::new(), Vec::new());
    assert_eq!(sealed.forgotten, MemoCounts { binds, sampled: 1 });
    remember(&mut pools.encoder);
    assert_eq!(pools.encoder.recycle_staging(), binds);
    assert_eq!(
        pools.encoder.recycle_staging(),
        BindCounts {
            aliases: 0,
            immutable: 0,
            copies: 0,
        }
    );
}

#[test]
fn forgetting_every_bind_counts_each_of_them() {
    let mut pools = ResourcePools::new();
    let alias = guest_bind(0x1000);
    let copy = guest_bind(0x2000);
    let bound = BoundBuffer {
        buffer: Buffer(0),
        offset: 0,
        guest_import: true,
    };
    pools.encoder.note_cb_bound_buffer(alias.clone(), bound);
    pools.encoder.note_cb_bound_buffer(
        copy.clone(),
        BoundBuffer {
            guest_import: false,
            ..bound
        },
    );
    pools.encoder.note_cb_bind_owes_gather(copy.key);
    assert_eq!(pools.encoder.forget_cb_bound_buffers(), 2);
    assert!(pools.encoder.cb_bound_buffer(alias.key).is_none());
    assert!(pools.encoder.cb_bound_buffer(copy.key).is_none());
    assert_eq!(pools.encoder.discard_cb_binds_owed_a_gather(), 0);
}

#[test]
fn a_guest_operation_keeps_live_aliases_and_immutable_copies_only() {
    let mut pools = ResourcePools::new();
    let snapshot = guest_bind(0x1000);
    let alias = guest_bind(0x2000);
    let stable = bytes_bind(vec![7; 64]);
    let copied = BoundBuffer {
        buffer: Buffer(0),
        offset: 0,
        guest_import: false,
    };
    pools.encoder.note_cb_bound_buffer(snapshot.clone(), copied);
    pools.encoder.note_cb_bound_buffer(stable.clone(), copied);
    pools.encoder.note_cb_bound_buffer(
        alias.clone(),
        BoundBuffer {
            guest_import: true,
            ..copied
        },
    );

    pools.encoder.begin_guest_operation(CommandBuffer(1));

    assert!(pools.encoder.cb_bound_buffer(alias.key).is_some());
    assert!(pools.encoder.cb_bound_buffer(stable.key).is_some());
    assert!(
        pools.encoder.cb_bound_buffer(snapshot.key).is_none(),
        "a copied guest window is not a versioned source"
    );
}

fn live(owners: &[u64]) -> LiveOwners {
    LiveOwners {
        alive: owners.to_vec(),
    }
}

#[test]
fn a_discarded_cache_leaves_no_entry_and_no_bytes() {
    let mut pools = ResourcePools::new();
    for i in 0..3u32 {
        pools.shared.sampled_cache.entries.push(ResidentSampledSlot {
            slot: null_slot(16 + i, 16),
            fingerprint: u128::from(i),
            content: Some(vec![i as u8; 4096]),
            content_len: 4096,
            owners: vec![1],
            last_touch_ms: 0,
        });
        pools.shared.sampled_cache.bytes += 4096;
    }

    let taken = pools.shared.sampled_cache.take_whole_sampled_cache();

    assert_eq!(taken.len(), 3, "every entry is handed back for disposal");
    assert_eq!(
        pools.shared.sampled_cache.bytes, 0,
        "the byte accounting follows the entries out"
    );
    assert_eq!(
        pools.shared.sampled_cache.take_whole_sampled_cache().len(),
        0,
        "discarding an empty cache is a no-op, not a second sweep"
    );
}

#[test]
fn a_bind_whose_gather_was_never_recorded_does_not_outlive_the_draw() {
    let mut pools = ResourcePools::new();
    let bound = |n: u64| BoundBuffer {
        buffer: Buffer(0),
        offset: n,
        guest_import: false,
    };

    let filled = bytes_bind(vec![1u8; 64]);
    let owed = bytes_bind(vec![2u8; 128]);
    pools.encoder.note_cb_bound_buffer(filled.clone(), bound(1));
    pools.encoder.note_cb_bound_buffer(owed.clone(), bound(2));
    pools.encoder.note_cb_bind_owes_gather(owed.key);

    assert_eq!(
        pools.encoder.discard_cb_binds_owed_a_gather(),
        1,
        "exactly the unfilled bind is forgotten"
    );
    assert!(
        pools.encoder.cb_bound_buffer(owed.key).is_none(),
        "binding this would hand the shader the recycled slot's previous tenant"
    );
    assert!(
        pools.encoder.cb_bound_buffer(filled.key).is_some(),
        "a bind published by a draw that completed is still correct"
    );
    assert_eq!(
        pools.encoder.discard_cb_binds_owed_a_gather(),
        0,
        "the list is drained, so a second abandon cannot remove an unrelated \
         bind the next command buffer published at the same address"
    );

    pools.encoder.note_cb_bound_buffer(owed.clone(), bound(3));
    pools.encoder.note_cb_bind_owes_gather(owed.key);
    pools.encoder.note_cb_gathers_recorded();
    assert_eq!(pools.encoder.discard_cb_binds_owed_a_gather(), 0);
    assert!(
        pools.encoder.cb_bound_buffer(owed.key).is_some(),
        "a gather that reached the command buffer leaves a bind the rest of \
         that command buffer may reuse"
    );
}

#[test]
fn forgetting_a_bind_leaves_the_others_in_their_class() {
    let mut pools = ResourcePools::new();
    let copied = BoundBuffer {
        buffer: Buffer(0),
        offset: 0,
        guest_import: false,
    };
    let snapshot = guest_bind(0x1000);
    let alias = guest_bind(0x2000);
    let stable = bytes_bind(vec![7; 64]);
    let owed = bytes_bind(vec![2u8; 128]);
    pools.encoder.note_cb_bound_buffer(snapshot.clone(), copied);
    pools.encoder.note_cb_bound_buffer(stable.clone(), copied);
    pools.encoder.note_cb_bound_buffer(owed.clone(), copied);
    pools.encoder.note_cb_bound_buffer(
        alias.clone(),
        BoundBuffer {
            guest_import: true,
            ..copied
        },
    );
    pools.encoder.note_cb_bind_owes_gather(owed.key);
    assert_eq!(pools.encoder.discard_cb_binds_owed_a_gather(), 1);
    assert!(pools.encoder.cb_bound_buffer(snapshot.key).is_some());

    pools.encoder.begin_guest_operation(CommandBuffer(1));
    assert!(pools.encoder.cb_bound_buffer(alias.key).is_some());
    assert!(pools.encoder.cb_bound_buffer(stable.key).is_some());
    assert!(pools.encoder.cb_bound_buffer(snapshot.key).is_none());
    assert!(pools.encoder.cb_bound_buffer(owed.key).is_none());
}

/// A digest of bytes.
fn content_hash(bytes: &[u8]) -> u128 {
    bytes
        .iter()
        .fold(7, |hash: u128, byte| hash.wrapping_mul(31).wrapping_add(u128::from(*byte)))
}

fn find(pools: &mut ResourcePools, counters: &mut EngineCounters, key: SampledKey, content: &[u8]) -> Option<SampledSlot> {
    let mut window = Window::new();
    pools.find_cached_sampled(
        &mut window,
        counters,
        key,
        content,
        content_hash(content),
        None,
        Some(1),
        &live(&[1]),
    )
}

#[test]
fn a_collided_digest_over_different_bytes_is_not_a_sampled_hit() {
    let mut pools = ResourcePools::new();
    let mut counters = EngineCounters::new();

    let retained: Vec<u8> = (0..64u8).collect();
    let incoming: Vec<u8> = (0..64u8).map(|b| b ^ 0x5a).collect();
    assert_ne!(retained, incoming, "the two blobs must differ");

    let slot = null_slot(8, 8);
    let key = slot.key();
    pools.shared.sampled_cache.entries.push(ResidentSampledSlot {
        slot,
        fingerprint: content_hash(&incoming),
        content: Some(retained.clone()),
        content_len: retained.len() as u64,
        owners: vec![1],
        last_touch_ms: 0,
    });

    assert!(
        find(&mut pools, &mut counters, key, &incoming).is_none(),
        "equal digests over different bytes must not bind the retained image"
    );
    assert!(
        find(&mut pools, &mut counters, key, &retained).is_none(),
        "the retained bytes do not hash to the digest they were filed under, \
         so they are not a hit either"
    );
    assert_eq!(counters.sampled_cache_misses, 2);
}

#[test]
fn the_same_bytes_under_their_own_digest_are_a_sampled_hit() {
    let mut pools = ResourcePools::new();
    let mut counters = EngineCounters::new();

    let content: Vec<u8> = (0..64u8).map(|b| b.wrapping_mul(7)).collect();
    let slot = null_slot(8, 8);
    let key = slot.key();
    pools.shared.sampled_cache.entries.push(ResidentSampledSlot {
        slot,
        fingerprint: content_hash(&content),
        content: Some(content.clone()),
        content_len: content.len() as u64,
        owners: vec![1],
        last_touch_ms: 0,
    });

    let copy = content.clone();
    assert!(
        find(&mut pools, &mut counters, key, &copy).is_some(),
        "identical content must still hit, or the compare has cost a real reuse"
    );
    assert_eq!(counters.sampled_cache_hits, 1);
    assert_eq!(counters.sampled_cache_hit_bytes, 64);
}

fn null_storage_slot(w: u32, h: u32) -> StorageImageSlot {
    StorageImageSlot {
        image: Image(0),
        backing: StorageImageBacking::Dedicated(DeviceMemory(0)),
        view: ImageView(0),
        key: StorageImageKey {
            width: w,
            height: h,
            format: StorageImageFormat::Rgba8Unorm,
            sampled_only: false,
        },
    }
}

fn recycle_sampled(pools: &mut ResourcePools, slot: SampledSlot) {
    pools
        .shared
        .destroy_or_recycle(vec![DeferredHandle::RecycleSampled(slot)]);
}

fn recycle_target(pools: &mut ResourcePools, image: FreeTargetImage) {
    pools
        .shared
        .destroy_or_recycle(vec![DeferredHandle::RecycleTarget(image)]);
}

#[test]
fn every_recycle_pool_retains_the_active_working_set() {
    let mut pools = ResourcePools::new();
    for i in 0..104 {
        recycle_sampled(&mut pools, null_slot(16, 16 + i));
        recycle_target(&mut pools, null_target(16, 16 + i, SCANOUT_FORMAT));
        let slot = null_storage_slot(16, 16 + i);
        pools.shared.storage_image_free.recycle(slot.key, slot);
    }
    assert_eq!(pools.shared.sampled_free.len(), 104);
    assert_eq!(pools.shared.target_free.len(), 104);
    assert_eq!(pools.shared.storage_image_free.len(), 104);
}

#[test]
fn pop_any_pool_entry_drains_all_buckets() {
    let key = |id: u32| TargetRecycleKey {
        width: id,
        height: 1,
        sample_count: 1,
        format: Format(SCANOUT_FORMAT),
    };
    let mut pool: FreePool<TargetRecycleKey, u32> = FreePool::new();
    pool.recycle(key(1), 10);
    pool.recycle(key(1), 11);
    pool.recycle(key(2), 20);
    let mut popped = Vec::new();
    while let Some(v) = pool.pop_any() {
        popped.push(v);
    }
    popped.sort_unstable();
    assert_eq!(popped, vec![10, 11, 20]);
    assert_eq!(pool.len(), 0, "emptied buckets are removed");
}

#[test]
fn evicted_sampled_slots_recycle_for_the_whole_active_working_set() {
    let mut pools = ResourcePools::new();
    let hd = null_slot(1920, 1080).key();
    for i in 0..100 {
        recycle_sampled(&mut pools, null_slot(1920, 1080));
        assert_eq!(pools.shared.sampled_free.count_for(&hd), i + 1);
    }
    assert_eq!(pools.shared.sampled_free.count_for(&hd), 100);
    let small = null_slot(64, 64).key();
    recycle_sampled(&mut pools, null_slot(64, 64));
    assert_eq!(pools.shared.sampled_free.count_for(&small), 1);
}

#[test]
fn sampled_cache_entries_follow_resource_lifetime_not_age() {
    let mut pools = ResourcePools::new();
    let push = |pools: &mut ResourcePools, w: u32, h: u32, touch: u64, len: u64| {
        pools.shared.sampled_cache.bytes += len;
        pools.shared.sampled_cache.entries.push(ResidentSampledSlot {
            slot: null_slot(w, h),
            fingerprint: (u128::from(w) << 64) | u128::from(h),
            content: None,
            content_len: len,
            owners: vec![1],
            last_touch_ms: touch,
        });
    };
    push(&mut pools, 1920, 1080, 1_000, 8_000_000);
    push(&mut pools, 1280, 720, 1_500, 4_000_000);
    push(&mut pools, 640, 480, 9_000, 1_000_000);
    assert_eq!(pools.shared.sampled_cache.len(), 3);
    assert_eq!(pools.shared.sampled_cache.bytes, 13_000_000);

    assert!(pools.shared.plan_idle_maintenance(10_000));
    let gone = pools
        .shared
        .sampled_cache
        .take_released_sampled_entries(&live(&[1]));
    assert_eq!(gone.len(), 0);
    assert_eq!(pools.shared.sampled_cache.len(), 3);
    assert_eq!(pools.shared.sampled_cache.bytes, 13_000_000);

    assert_eq!(
        pools
            .shared
            .sampled_cache
            .take_released_sampled_entries(&live(&[]))
            .len(),
        3,
        "resource deletion, not age or a chosen capacity, ends retention"
    );
    assert_eq!(pools.shared.sampled_cache.len(), 0);
    assert_eq!(pools.shared.sampled_cache.bytes, 0);
}

#[test]
fn recycle_stats_count_every_admission_and_no_capacity_drops() {
    let mut pools = ResourcePools::new();
    let stats = pools.shared.recycle_stats();
    assert_eq!(
        (stats.hits, stats.allocs, stats.admits, stats.cap_drops),
        (0, 0, 0, 0)
    );

    for _ in 0..100 {
        recycle_sampled(&mut pools, null_slot(1920, 1080));
    }
    recycle_sampled(&mut pools, null_slot(64, 64));

    let stats = pools.shared.recycle_stats();
    assert_eq!(stats.hits, 0, "no acquires happened");
    assert_eq!(stats.allocs, 0, "no acquires happened");
    assert_eq!(stats.admits, 101);
    assert_eq!(stats.cap_drops, 0);
}

fn null_target(w: u32, h: u32, format: i32) -> FreeTargetImage {
    FreeTargetImage {
        image: Image(0),
        memory: DeviceMemory(0),
        view: ImageView(0),
        shape: TargetRecycleKey {
            width: w,
            height: h,
            sample_count: 1,
            format: Format(format),
        },
    }
}

#[test]
fn displaced_targets_recycle_for_the_whole_active_working_set() {
    let mut pools = ResourcePools::new();
    let key = null_target(1920, 1080, SCANOUT_FORMAT).key();

    for i in 0..100 {
        recycle_target(&mut pools, null_target(1920, 1080, SCANOUT_FORMAT));
        assert_eq!(pools.shared.target_free.count_for(&key), i + 1);
    }
    assert_eq!(pools.shared.target_free.count_for(&key), 100);

    assert_eq!(RESIDENT_RGBA_FORMAT, FORMAT_R8G8B8A8_UNORM);
    let rgba = null_target(1920, 1080, RESIDENT_RGBA_FORMAT).key();
    recycle_target(&mut pools, null_target(1920, 1080, RESIDENT_RGBA_FORMAT));
    assert_eq!(pools.shared.target_free.count_for(&rgba), 1);
}

#[test]
fn recycled_target_is_reused_across_generation_bumps() {
    let mut pools = ResourcePools::new();
    let fmt = Format(SCANOUT_FORMAT);

    assert!(pools.shared.take_free_target(1920, 1080, 1, fmt).is_none());
    recycle_target(&mut pools, null_target(1920, 1080, SCANOUT_FORMAT));

    for f in 0..8 {
        assert!(
            pools.shared.take_free_target(1920, 1080, 1, fmt).is_some(),
            "frame {f} must reuse the recycled image"
        );
        recycle_target(&mut pools, null_target(1920, 1080, SCANOUT_FORMAT));
    }

    let stats = pools.shared.target_recycle_stats();
    assert_eq!(
        stats.hits, 8,
        "8 steady frames each reused a recycled image"
    );
    assert_eq!(stats.allocs, 1, "only the cold first frame allocated");
}

/// A ring slot that owes cleanup, with null handles.
fn pending_slot() -> CmdSlot {
    CmdSlot {
        cmd_buf: CommandBuffer(0),
        fence: Fence(0),
        pending: Some(PendingGpuCleanup {
            encoder: EncoderCleanup {
                dsets: Vec::new(),
                scatter_dsets: Vec::new(),
                staging: Vec::new(),
                gather: Vec::new(),
                readback: Vec::new(),
            },
            visibility: VisibilityCleanup {
                guest_write_tokens: Vec::new(),
            },
            shared: SharedCleanup {
                sampled: Vec::new(),
                attachment_snapshots: Vec::new(),
                storage_images: Vec::new(),
                unpin_residents: Vec::new(),
                unpin_compute_residents: Vec::new(),
            },
        }),
        submission: SlotSubmission::HostOwned,
        retirement: None,
        span: SlotSpan::Idle,
        readback_span_armed: false,
        pass_spans: 0,
    }
}

fn idle_slot() -> CmdSlot {
    CmdSlot::idle(CommandBuffer(0), Fence(0))
}

#[test]
fn extracting_a_completed_encoder_entry_does_not_acknowledge_shared_retirement() {
    let mut pools = ResourcePools::new();
    let submitted = pools.shared.retirement.reserve().unwrap().submitted();
    let captured = pools.shared.retirement.latest().unwrap();
    let mut slot = pending_slot();
    slot.retirement = Some(submitted);
    pools.encoder.slots.push(slot);
    pools.encoder.in_flight = 1;

    let retired = pools.encoder.take_completed_entry(0).expect("pending slot");
    assert!(pools.encoder.slots[0].pending.is_none());
    assert_eq!(pools.encoder.in_flight, 0);
    assert!(
        !pools.shared.retirement.retired(captured),
        "encoder extraction is not shared-state acknowledgement"
    );

    let (encoder, shared) = retired.split();
    assert!(encoder.dsets.is_empty());
    assert!(shared.cleanup.sampled.is_empty());
    assert!(
        !pools.shared.retirement.retired(captured),
        "splitting the encoder return cannot acknowledge shared state"
    );
    shared.retirement.retire(&mut pools.shared.retirement);
    assert!(pools.shared.retirement.retired(captured));
}

#[test]
fn recording_checkout_and_checkin_transfer_one_global_order_point() {
    let mut pools = ResourcePools::new();
    pools.encoder.slots.push(idle_slot());
    let lease = pools.shared.checkout_recording().unwrap();
    let captured = pools.shared.retirement.latest().unwrap();

    pools.encoder.begin_recording(lease);
    let sealed = pools.encoder.seal_entry(Vec::new(), Vec::new());
    assert!(
        pools.encoder.recording.is_none(),
        "sealing must move the exact lifetime out of mutable encoder state"
    );
    let admissions = pools.encoder.park_submitted_entry(sealed, None);
    assert!(admissions.is_empty());
    assert!(pools.encoder.recording.is_none());
    assert!(pools.encoder.slots[0].pending.is_some());
    assert!(pools.encoder.slots[0].retirement.is_some());
    assert_eq!(pools.encoder.in_flight, 1);
    assert!(!pools.shared.retirement.retired(captured));

    let retired = pools.encoder.take_completed_entry(0).unwrap();
    retired.retirement.retire(&mut pools.shared.retirement);
    assert!(pools.shared.retirement.retired(captured));
}

#[test]
fn sealed_recording_cancellation_cannot_cancel_a_later_recording() {
    let mut pools = ResourcePools::new();

    let sealed = seal_test_entry(&mut pools, Vec::new(), Vec::new());
    let first = pools.shared.retirement.latest().unwrap();

    let lease = pools.shared.checkout_recording().unwrap();
    pools.encoder.begin_recording(lease);
    let later = pools.shared.retirement.latest().unwrap();
    sealed.recording.cancel(&mut pools.shared.retirement);

    assert!(
        pools.shared.retirement.retired(first),
        "the sealed package owns its cancellation"
    );
    assert!(
        !pools.shared.retirement.retired(later),
        "dropping an earlier sealed package must not cancel a later encoder recording"
    );
    pools
        .encoder
        .recording
        .take()
        .unwrap()
        .cancel(&mut pools.shared.retirement);
    assert!(pools.shared.retirement.retired(later));
}

#[test]
fn opportunistic_retirement_never_polls_a_queue_owned_fence() {
    let mut counters = EngineCounters::new();
    let mut pools = ResourcePools::new();
    let mut slot = pending_slot();
    slot.submission = SlotSubmission::QueueOwned(PendingQueueSubmit(1));
    pools.encoder.slots.push(slot);

    assert_eq!(
        pools
            .encoder
            .try_take_submit_return(&mut counters, 0, ReceiptState::Empty),
        Ok(false)
    );
    assert!(matches!(
        pools.encoder.slots[0].submission,
        SlotSubmission::QueueOwned(_)
    ));

    assert_eq!(
        pools.encoder.try_take_submit_return(
            &mut counters,
            0,
            ReceiptState::Returned(Ok(()))
        ),
        Ok(true)
    );
    assert!(matches!(
        pools.encoder.slots[0].submission,
        SlotSubmission::HostOwned
    ));
}

#[test]
fn rejected_async_submit_never_becomes_a_waitable_fence() {
    let mut counters = EngineCounters::new();
    let mut pools = ResourcePools::new();
    let mut slot = pending_slot();
    slot.submission = SlotSubmission::QueueOwned(PendingQueueSubmit(1));
    pools.encoder.slots.push(slot);

    assert!(pools
        .encoder
        .try_take_submit_return(
            &mut counters,
            0,
            ReceiptState::Returned(Err(VkResult(ERROR_OUT_OF_DEVICE_MEMORY)))
        )
        .is_err());
    assert!(matches!(
        pools.encoder.slots[0].submission,
        SlotSubmission::Failed(VkResult(ERROR_OUT_OF_DEVICE_MEMORY))
    ));
}

#[test]
fn a_stamp_waits_for_guest_reads_only_when_one_was_recorded() {
    let mut pools = ResourcePools::new();
    assert_eq!(
        pools.encoder.quiesce_guest_reads(Ok(())),
        Ok(None),
        "nothing is outstanding, so nothing is published"
    );
    assert!(
        !pools.encoder.has_guest_read_debt(),
        "a device that has recorded nothing owes no wait; this is every \
         packet on a host with no host-pointer import"
    );

    assert!(
        pools.encoder.note_guest_read_recorded(),
        "a read-only packet still needs its completion stamp queued behind the GPU read"
    );
    assert!(pools.encoder.has_guest_read_debt());
    assert!(!pools.encoder.settle_guest_read_debt());
    assert!(
        !pools.encoder.has_guest_read_debt(),
        "one recorded read is one wait, not a wait at every stamp after it"
    );

    pools.encoder.note_guest_read_recorded();
    pools.encoder.note_guest_read_recorded();
    assert!(pools.encoder.has_guest_read_debt());
    pools.encoder.settle_guest_read_debt();
    assert!(!pools.encoder.has_guest_read_debt());
}

#[test]
fn a_remembered_bind_does_not_survive_either_slot_lifetime_end() {
    let bind = bytes_bind(vec![7u8; 4096]);
    let bound = BoundBuffer {
        buffer: Buffer(0),
        offset: 0,
        guest_import: false,
    };
    for what in ["a seal", "a staging recycle"] {
        let mut pools = ResourcePools::new();
        pools.encoder.note_cb_bound_buffer(bind.clone(), bound);
        assert!(
            pools.encoder.cb_bound_buffer(bind.key).is_some(),
            "a bind must be reusable before {what}"
        );
        if what == "a seal" {
            let sealed = seal_test_entry(&mut pools, Vec::new(), Vec::new());
            sealed.recording.cancel(&mut pools.shared.retirement);
        } else {
            pools.encoder.recycle_staging();
        }
        assert!(
            pools.encoder.cb_bound_buffer(bind.key).is_none(),
            "a bind remembered across {what} names a slot no longer this command buffer's"
        );
    }
}

#[test]
fn a_remembered_bind_holds_the_allocation_its_key_names() {
    let mut pools = ResourcePools::new();
    let bound = BoundBuffer {
        buffer: Buffer(0),
        offset: 0,
        guest_import: false,
    };

    let bind = bytes_bind(vec![3u8; 256]);
    let CbBindAllocation::Bytes(strong) = &bind.allocation else {
        unreachable!("bytes are the immutable arm")
    };
    let watch = Arc::downgrade(strong);

    pools.encoder.note_cb_bound_buffer(bind, bound);

    assert!(
        watch.upgrade().is_some(),
        "the map dropped the allocation its key is the address of"
    );

    pools.encoder.recycle_staging();
    assert!(
        watch.upgrade().is_none(),
        "a cleared map still holds a bind's bytes"
    );
}

fn surface(id: u32, generation: u64) -> TargetIdentity {
    TargetIdentity::Surface {
        id,
        width: 16,
        height: 16,
        generation,
        format: TexelLayout::Bgra8,
    }
}

/// Record a write with a page set of its own for each token.
fn note_guest_write_recorded(
    pools: &mut ResourcePools,
    source: GuestWriteSource,
    token: Option<GuestWriteToken>,
    pinned: bool,
) {
    match token {
        Some(token) => {
            pools.encoder.note_guest_write_pages_recorded(
                source,
                GuestPages::new(&[token.serial]).unwrap(),
                Some(token),
                pinned,
            );
        }
        None => pools.encoder.note_guest_write_source(source, pinned),
    }
}

#[test]
fn a_submission_seal_takes_exactly_the_guest_write_tokens_recorded_into_it() {
    let mut pools = ResourcePools::new();
    let identity = surface(1, 0);
    note_guest_write_recorded(
        &mut pools,
        GuestWriteSource::ResidentTarget(identity),
        Some(write_token(11)),
        false,
    );
    note_guest_write_recorded(
        &mut pools,
        GuestWriteSource::ResidentTarget(identity),
        Some(write_token(12)),
        false,
    );
    let cleanup = seal_test_entry(&mut pools, Vec::new(), Vec::new()).cleanup;
    assert_eq!(pools.encoder.guest_write_tokens_live.len(), 0);
    assert_eq!(
        cleanup.visibility.guest_write_tokens,
        vec![write_token(11), write_token(12)]
    );
}

#[test]
fn repeated_writes_to_one_page_set_share_the_command_buffers_retirement() {
    let pages = || GuestPages::new(&[0x1000, 0x2000]).expect("non-empty page set");
    let mut pools = ResourcePools::new();
    let mut serial = 0;
    for _ in 0..2 {
        let token = if pools.encoder.guest_write_needs_token(&pages()) {
            serial += 1;
            Some(write_token(serial))
        } else {
            None
        };
        pools.encoder.note_guest_write_pages_recorded(
            GuestWriteSource::ImportedBuffer,
            pages(),
            token,
            false,
        );
    }

    assert_eq!(
        pools.encoder.guest_write_tokens_live.len(),
        1,
        "one command buffer has one fence and therefore one lifetime for this page set"
    );
    let cleanup = seal_test_entry(&mut pools, Vec::new(), Vec::new()).cleanup;
    assert_eq!(cleanup.visibility.guest_write_tokens.len(), 1);
    assert_eq!(serial, 1);
}

#[test]
fn a_submitted_writeback_holds_its_residents_pin_until_its_slot_retires() {
    let mut pools = ResourcePools::new();
    let identity = surface(7, 3);
    let mut pin_count = 0;

    note_guest_write_recorded(
        &mut pools,
        GuestWriteSource::ResidentTarget(identity),
        None,
        true,
    );
    pin_count += 1;
    assert_eq!(
        pools.encoder.resident_pins_live.len(),
        pin_count,
        "the submitted copy must hold the image against reclaim"
    );

    note_guest_write_recorded(
        &mut pools,
        GuestWriteSource::ResidentTarget(identity),
        None,
        true,
    );
    pin_count += 1;
    assert_eq!(pools.encoder.resident_pins_live.len(), 2);

    let mut cleanup = seal_test_entry(&mut pools, Vec::new(), Vec::new()).cleanup;
    assert!(pools.encoder.resident_pins_live.is_empty());
    for held in cleanup.shared.unpin_residents.drain(..) {
        assert_eq!(held, identity);
        pin_count -= 1;
    }
    assert_eq!(
        pin_count, 0,
        "every pin the ledger took is released exactly once"
    );
    assert!(
        cleanup.shared.unpin_residents.is_empty(),
        "a retired pin must not be released a second time"
    );
}

#[test]
fn a_ring_owned_writeback_records_the_debt_without_pinning_anything() {
    let mut pools = ResourcePools::new();
    note_guest_write_recorded(
        &mut pools,
        GuestWriteSource::RingEntry,
        Some(write_token(21)),
        true,
    );
    assert!(
        pools.encoder.compute_write_pins_live.is_empty(),
        "a ring-owned source pins no resident"
    );
    assert!(
        pools.encoder.resident_pins_live.is_empty(),
        "and leaves the ledger nothing to release"
    );
    let cleanup = seal_test_entry(&mut pools, Vec::new(), Vec::new()).cleanup;
    assert_eq!(
        cleanup.visibility.guest_write_tokens,
        vec![write_token(21)],
        "the write's visibility token follows the ring-owned image to its fence"
    );
    assert!(
        cleanup.shared.unpin_residents.is_empty(),
        "so its submission carries no unpin either"
    );
}

#[test]
fn a_compute_resident_writeback_pins_in_its_own_registry_until_the_slot_retires() {
    let mut pools = ResourcePools::new();
    let id = ComputeStorageResidencyKey(1);

    note_guest_write_recorded(
        &mut pools,
        GuestWriteSource::ResidentStorage(id),
        None,
        true,
    );
    assert_eq!(
        pools.encoder.compute_write_pins_live,
        vec![id],
        "and the ledger records the pin it actually took"
    );
    assert!(pools.encoder.resident_pins_live.is_empty());

    let cleanup = seal_test_entry(&mut pools, Vec::new(), Vec::new()).cleanup;
    assert!(
        pools.encoder.compute_write_pins_live.is_empty(),
        "sealing hands the pin to the slot rather than copying it"
    );
    assert_eq!(cleanup.shared.unpin_compute_residents, vec![id]);

    let (residents, compute) = pools.shared.drain_shared_cleanup(cleanup.shared);
    assert!(residents.is_empty());
    assert_eq!(compute, vec![id], "and the fence is what ends the hold");
}

#[test]
fn a_compute_writeback_against_an_unregistered_identity_records_no_pin() {
    let mut pools = ResourcePools::new();
    let absent = ComputeStorageResidencyKey(77);

    note_guest_write_recorded(
        &mut pools,
        GuestWriteSource::ResidentStorage(absent),
        None,
        false,
    );
    assert!(pools.encoder.compute_write_pins_live.is_empty());
    assert!(seal_test_entry(&mut pools, Vec::new(), Vec::new())
        .cleanup
        .shared
        .unpin_compute_residents
        .is_empty());
}

#[test]
fn a_writeback_retirement_does_not_release_another_holders_pin() {
    let mut pools = ResourcePools::new();
    let identity = surface(9, 1);
    // The window pins for its present blit and still holds it.
    let mut pin_count = 1;

    note_guest_write_recorded(
        &mut pools,
        GuestWriteSource::ResidentTarget(identity),
        None,
        true,
    );
    pin_count += 1;
    assert_eq!(pin_count, 2);

    let mut cleanup = seal_test_entry(&mut pools, Vec::new(), Vec::new()).cleanup;
    for _ in cleanup.shared.unpin_residents.drain(..) {
        pin_count -= 1;
    }
    assert_eq!(
        pin_count, 1,
        "the window is still reading this image and must still hold it"
    );
}

#[test]
fn a_writeback_on_an_unpinnable_resident_queues_no_release() {
    let mut pools = ResourcePools::new();
    let identity = surface(11, 0);
    note_guest_write_recorded(
        &mut pools,
        GuestWriteSource::ResidentTarget(identity),
        Some(write_token(31)),
        false,
    );
    assert!(
        pools.encoder.resident_pins_live.is_empty(),
        "no pin was taken, so none may be released"
    );
    assert_eq!(pools.encoder.guest_write_tokens_live.len(), 1);
}

#[test]
fn a_disposed_handle_waits_on_the_recordings_open_when_it_was_disposed_and_no_others() {
    let mut pools = ResourcePools::new();
    let first = pools.shared.retirement.reserve().unwrap().submitted();
    let second = pools.shared.retirement.reserve().unwrap().submitted();
    let waiting = pools.shared.retirement.latest().unwrap();
    pools
        .shared
        .graveyard
        .push((waiting, DeferredHandle::Framebuffer(Framebuffer(0))));

    let later = pools.shared.retirement.reserve().unwrap().submitted();
    later.retire(&mut pools.shared.retirement);
    assert!(
        pools.shared.take_released_graveyard().is_empty(),
        "later completion says nothing about a handle removed before it began"
    );
    first.retire(&mut pools.shared.retirement);
    assert!(
        pools.shared.take_released_graveyard().is_empty(),
        "the second recording could still be reading it"
    );
    second.retire(&mut pools.shared.retirement);
    assert_eq!(
        pools.shared.take_released_graveyard().len(),
        1,
        "the captured prefix retired: the handle is free"
    );
    assert!(pools.shared.graveyard.is_empty());
}

fn open_batch(target: BatchTarget, draws: u64) -> OpenBatch {
    OpenBatch {
        cb: CommandBuffer(0),
        fence: Fence(0),
        stamp_recording: None,
        target,
        draws,
        dsets: Vec::new(),
    }
}

fn anonymous(slot: u64) -> BatchTarget {
    BatchTarget {
        identity: TargetIdentity::Anonymous { slot },
        width: 16,
        height: 16,
        bgra: false,
    }
}

#[test]
fn batch_ownership_publishes_and_clears_the_tail_gate() {
    let mut counters = EngineCounters::new();
    let mut pools = ResourcePools::new();
    pools.encoder.slots.push(idle_slot());
    let lease = pools.shared.checkout_recording().unwrap();
    pools.encoder.begin_recording(lease);
    assert!(pools.encoder.batch_open_recording().is_none());
    let (opened, outcomes) = pools.batch_append(
        &mut counters,
        (CommandBuffer(0), Fence(0)),
        anonymous(0),
        None,
        Vec::new(),
        None,
        &LiveOwners { alive: Vec::new() },
    );
    assert!(opened, "that a batch is open is published");
    assert!(outcomes.is_empty());
    assert!(pools.encoder.batch_open_recording().is_some());
    let plan = pools.flush_begin(&mut counters, None).expect("an open batch");
    assert_eq!(plan.draws, 1);
    assert!(pools.encoder.batch_open_recording().is_none());
}

#[test]
fn the_open_batch_slot_counts_as_open_even_though_it_owes_no_cleanup() {
    let mut pools = ResourcePools::new();
    pools.encoder.slots = (0..4).map(|_| idle_slot()).collect();
    pools.encoder.cur = 3;
    assert!(!pools.current_entry_owns_cleanup(), "idle ring, no batch");

    pools.encoder.open_batch = Some(open_batch(anonymous(0), 1));
    assert!(
        pools.current_entry_owns_cleanup(),
        "the batch owns its cleanup"
    );
}

#[test]
fn only_the_narrowed_arm_asks_what_the_open_batch_was_drawing_into() {
    let mut pools = ResourcePools::new();
    pools.encoder.slots = (0..4).map(|_| idle_slot()).collect();

    assert!(
        matches!(
            pools.encoder().batch_fit(&anonymous(0), false),
            BatchFit::NoBatch
        ),
        "nothing recording"
    );

    pools.encoder.open_batch = Some(open_batch(anonymous(0), 1));
    assert!(
        matches!(
            pools.encoder().batch_fit(&anonymous(0), true),
            BatchFit::Open(..)
        ),
        "its own target fits on either arm"
    );
    assert!(
        matches!(
            pools.encoder().batch_fit(&anonymous(1), true),
            BatchFit::OtherTarget
        ),
        "the narrowed arm refuses a second surface"
    );
    assert!(
        matches!(
            pools.encoder().batch_fit(&anonymous(1), false),
            BatchFit::Open(..)
        ),
        "the default arm admits it — every draw opens and ends its own pass"
    );

    pools.encoder.open_batch.as_mut().expect("open").draws = BATCH_MAX_DRAWS;
    for narrow in [false, true] {
        assert!(
            matches!(
                pools.encoder().batch_fit(&anonymous(0), narrow),
                BatchFit::Full
            ),
            "narrow={narrow}"
        );
    }
}

#[test]
fn a_ring_that_never_goes_idle_still_drains_the_graveyard() {
    let mut pools = ResourcePools::new();
    let depth = 4;
    let mut submitted = VecDeque::new();

    let mut released = 0;
    let mut peak = 0;
    for step in 0..64 {
        let point = pools.shared.retirement.reserve().unwrap().submitted();
        let waiting = pools.shared.retirement.latest().unwrap();
        submitted.push_back(point);
        pools
            .shared
            .graveyard
            .push((waiting, DeferredHandle::Framebuffer(Framebuffer(0))));
        peak = peak.max(pools.shared.graveyard.len());

        if submitted.len() == depth {
            submitted
                .pop_front()
                .unwrap()
                .retire(&mut pools.shared.retirement);
            released += pools.shared.take_released_graveyard().len();
        }
        assert!(!submitted.is_empty(), "step {step}: work remains in flight");
    }

    assert_eq!(
        released,
        64 - (depth - 1),
        "everything outside the live submission window was released"
    );
    assert!(
        peak <= depth,
        "outstanding population is bounded by the ring depth, got {peak}"
    );
}

#[test]
fn whole_pixels_swap_red_and_blue_and_leave_green_and_alpha() {
    let src = [1u8, 2, 3, 4, 250, 251, 252, 253];
    let mut dst = [0u8; 8];
    exchange_rb_into(&src, &mut dst);
    assert_eq!(dst, [3, 2, 1, 4, 252, 251, 250, 253]);
}

#[test]
fn exchanging_twice_is_the_identity() {
    let src: Vec<u8> = (0u8..=255).collect();
    let mut once = vec![0u8; src.len()];
    let mut twice = vec![0u8; src.len()];
    exchange_rb_into(&src, &mut once);
    exchange_rb_into(&once, &mut twice);
    assert_eq!(twice, src);
}

#[test]
fn a_trailing_partial_pixel_is_copied_through() {
    let src = [9u8, 8, 7, 6, 5, 4];
    let mut dst = [0u8; 6];
    exchange_rb_into(&src, &mut dst);
    assert_eq!(dst, [7, 8, 9, 6, 5, 4]);
}

#[test]
fn a_short_destination_bounds_the_copy() {
    let src = [1u8, 2, 3, 4, 5, 6, 7, 8];
    let mut dst = [0u8; 4];
    exchange_rb_into(&src, &mut dst);
    assert_eq!(dst, [3, 2, 1, 4]);
}

fn identity(id: u64, task: u32) -> SubmissionIdentity {
    SubmissionIdentity { id, task }
}

#[test]
fn one_submission_may_reenter_but_another_cannot_overlap_it() {
    let mut encoder = EncoderPools::new();
    let first = identity(1, 7);
    let second = identity(2, 7);
    encoder.enter_submission(first).unwrap();
    encoder.enter_submission(first).unwrap();
    assert_eq!(
        encoder.enter_submission(second),
        Err(DrawError::Facade(
            EngineFacadeDecline::EncoderSubmissionOverlap {
                active: first,
                incoming: second,
            }
        ))
    );
}

#[test]
fn only_the_active_identity_can_close_and_release_the_encoder() {
    let mut encoder = EncoderPools::new();
    let first = identity(3, 8);
    let other = identity(4, 9);
    assert!(!encoder.submission_is_closing(first).unwrap());
    encoder.enter_submission(first).unwrap();
    assert_eq!(
        encoder.submission_is_closing(other),
        Err(DrawError::Facade(
            EngineFacadeDecline::EncoderSubmissionCloseMismatch {
                active: first,
                closing: other,
            }
        ))
    );
    assert!(encoder.submission_is_closing(first).unwrap());
    encoder.release_submission(first);
    encoder.enter_submission(other).unwrap();
}

#[test]
fn standalone_calls_occupy_no_product_submission() {
    let mut encoder = EncoderPools::new();
    let standalone = identity(0, 0);
    encoder.enter_submission(standalone).unwrap();
    assert_eq!(encoder.active_submission, None);
    assert!(!encoder.submission_is_closing(standalone).unwrap());
}

fn slot(raw: u64, size: u64) -> BufferSlot {
    BufferSlot {
        buffer: Buffer(raw),
        memory: DeviceMemory(raw),
        size,
        mapped: 0,
        backing: BufferBacking::Dedicated,
        coherent: false,
        cached: false,
    }
}

#[test]
fn a_second_acquire_cannot_name_the_first_ones_buffer() {
    let mut pools = ResourcePools::new();
    let bucket = buffer_bucket(4096);
    pools.encoder.gather_free.put(bucket, slot(1, bucket));
    pools.encoder.gather_free.put(bucket, slot(2, bucket));

    let first = pools.encoder.take_free_gather(bucket).expect("a free slot");
    let second = pools
        .encoder
        .take_free_gather(bucket)
        .expect("a second free slot");

    assert_ne!(
        first.buffer, second.buffer,
        "two live gather slots must not be one buffer"
    );
    assert_eq!(
        pools.encoder.gather_live.len(),
        2,
        "both must be recorded live"
    );
}

#[test]
fn an_acquired_slot_is_no_longer_free() {
    let mut pools = ResourcePools::new();
    let bucket = buffer_bucket(4096);
    pools.encoder.gather_free.put(bucket, slot(7, bucket));

    let taken = pools.encoder.take_free_gather(bucket).expect("a free slot");
    assert_eq!(taken.buffer, Buffer(7));
    assert!(
        pools.encoder.take_free_gather(bucket).is_none(),
        "the only slot was handed out; the list must be empty"
    );
    assert!(
        !pools.encoder.gather_live.is_empty(),
        "and the live list is what keeps it alive until its fence retires"
    );
}

fn pair(raw: u64) -> DescriptorRef {
    DescriptorRef {
        set: DescriptorSet(raw),
        pool: DescriptorPool(1),
    }
}

#[test]
fn two_takes_with_no_retire_between_them_give_two_sets() {
    let mut encoder = EncoderPools::new();
    encoder.recycle_scatter_dsets(&mut vec![pair(1), pair(2)]);
    let first = encoder.take_free_scatter_dset().expect("two were recycled");
    let second = encoder.take_free_scatter_dset().expect("two were recycled");
    assert_ne!(first.set, second.set);
    assert!(
        encoder.take_free_scatter_dset().is_none(),
        "the list held exactly what was recycled into it"
    );
}

#[test]
fn a_retired_set_is_handed_out_again() {
    let mut encoder = EncoderPools::new();
    encoder.recycle_scatter_dsets(&mut vec![pair(7)]);
    let taken = encoder.take_free_scatter_dset().expect("one was recycled");
    assert_eq!(taken.set, DescriptorSet(7));
    assert!(encoder.take_free_scatter_dset().is_none());
    encoder.recycle_scatter_dsets(&mut vec![taken]);
    assert_eq!(
        encoder
            .take_free_scatter_dset()
            .expect("it was recycled again")
            .set,
        DescriptorSet(7)
    );
}

#[test]
fn a_fresh_pool_has_nothing_to_hand_out() {
    let mut encoder = EncoderPools::new();
    assert!(encoder.take_free_scatter_dset().is_none());
}

#[test]
fn recycling_takes_the_sets_out_of_the_entry_that_owed_them() {
    let mut encoder = EncoderPools::new();
    let mut owed = vec![pair(3), pair(4)];
    encoder.recycle_scatter_dsets(&mut owed);
    assert!(owed.is_empty());
    encoder.recycle_scatter_dsets(&mut owed);
    assert!(encoder.take_free_scatter_dset().is_some());
    assert!(encoder.take_free_scatter_dset().is_some());
    assert!(encoder.take_free_scatter_dset().is_none());
}

fn batch_target() -> BatchTarget {
    BatchTarget {
        identity: TargetIdentity::Surface {
            id: 56,
            width: 1024,
            height: 768,
            generation: 1,
            format: TexelLayout::Bgra8,
        },
        width: 1024,
        height: 768,
        bgra: true,
    }
}

#[test]
fn a_batch_fills_at_the_pools_cap_and_not_at_the_compiled_constant() {
    let target = batch_target();
    let mut pools = ResourcePools::new();
    pools.encoder.batch_max_draws = 4;
    pools.encoder.open_batch = Some(open_batch(target, 3));
    assert!(matches!(
        pools.encoder().batch_fit(&target, false),
        BatchFit::Open(..)
    ));
    if let Some(b) = pools.encoder.open_batch.as_mut() {
        b.draws = 4;
    }
    assert!(matches!(
        pools.encoder().batch_fit(&target, false),
        BatchFit::Full
    ));
}

#[test]
fn a_pool_that_was_told_nothing_carries_the_compiled_cap() {
    assert_eq!(
        ResourcePools::new().encoder.batch_max_draws,
        BATCH_MAX_DRAWS,
        "a device-free pool carries enough capacity for either topology"
    );
}

#[test]
fn encoder_initialization_is_not_shared_state() {
    let mut first = EncoderPools::new();
    let second = EncoderPools::new();

    first.initialized = true;
    assert!(first.initialized);
    assert!(!second.initialized);
}

#[test]
fn batch_defaults_follow_structural_memory_topology() {
    assert_eq!(
        batch_default_draws(MemoryTopology::Discrete),
        DISCRETE_BATCH_MAX_DRAWS
    );
    assert_eq!(
        batch_default_draws(MemoryTopology::Unified),
        BATCH_MAX_DRAWS
    );
    assert!(
        batch_default_draws(MemoryTopology::Discrete)
            < batch_default_draws(MemoryTopology::Unified)
    );
}

#[test]
fn configuring_one_encoder_does_not_configure_another() {
    let mut first = EncoderPools::new();
    let second = EncoderPools::new();
    first.configure_batch_capacity(DISCRETE_BATCH_MAX_DRAWS);

    assert_eq!(first.batch_max_draws, DISCRETE_BATCH_MAX_DRAWS);
    assert_eq!(second.batch_max_draws, BATCH_MAX_DRAWS);
}

#[test]
fn one_host_dependency_covers_one_guest_operation_until_a_gpu_write() {
    let mut pools = ResourcePools::new();
    let cb = CommandBuffer(1);

    pools.encoder.begin_guest_operation(cb);
    assert_eq!(
        pools
            .encoder
            .imported_guest_barrier(cb, || ImportedGuestVisibility::HostOnly),
        Some(ImportedGuestVisibility::HostOnly)
    );
    assert_eq!(
        pools
            .encoder
            .imported_guest_barrier(cb, || { panic!("visibility is already established") }),
        None
    );

    pools.encoder.note_cb_guest_write();
    assert_eq!(
        pools
            .encoder
            .imported_guest_barrier(cb, || ImportedGuestVisibility::HostOnly),
        None,
        "a disjoint GPU write does not invalidate host visibility"
    );
    assert_eq!(
        pools
            .encoder
            .imported_guest_barrier(cb, || ImportedGuestVisibility::GpuOverlap),
        Some(ImportedGuestVisibility::GpuOverlap)
    );
    assert_eq!(
        pools
            .encoder
            .imported_guest_barrier(cb, || { panic!("GPU visibility is already established") }),
        None
    );

    pools.encoder.begin_guest_operation(cb);
    assert_eq!(
        pools
            .encoder
            .imported_guest_barrier(cb, || ImportedGuestVisibility::HostOnly),
        Some(ImportedGuestVisibility::HostOnly),
        "a later guest operation may follow an unobserved guest CPU write"
    );
}

#[test]
fn an_operation_boundary_preserves_unconsumed_gpu_write_debt() {
    let mut pools = ResourcePools::new();
    let cb = CommandBuffer(1);

    pools.encoder.begin_guest_operation(cb);
    pools.encoder.note_cb_guest_write();
    pools.encoder.begin_guest_operation(cb);
    assert_eq!(
        pools
            .encoder
            .imported_guest_barrier(cb, || ImportedGuestVisibility::GpuOverlap),
        Some(ImportedGuestVisibility::GpuOverlap)
    );
}

#[test]
fn a_new_command_buffer_owes_its_own_host_dependency() {
    let mut pools = ResourcePools::new();
    let first = CommandBuffer(1);
    let second = CommandBuffer(2);

    pools.encoder.begin_guest_operation(first);
    assert!(pools
        .encoder
        .imported_guest_barrier(first, || ImportedGuestVisibility::HostOnly)
        .is_some());
    assert!(pools
        .encoder
        .imported_guest_barrier(first, || { panic!("visibility is already established") })
        .is_none());
    pools.encoder.begin_guest_operation(second);
    assert!(pools
        .encoder
        .imported_guest_barrier(second, || ImportedGuestVisibility::HostOnly)
        .is_some());
}

#[test]
fn render_encoder_continuations_share_visibility_only_in_one_command_buffer() {
    let mut pools = ResourcePools::new();
    let first = CommandBuffer(1);
    let second = CommandBuffer(2);

    pools.encoder.enter_render_encoder_record(first, false);
    assert_eq!(
        pools
            .encoder
            .imported_guest_barrier(first, || ImportedGuestVisibility::HostOnly),
        Some(ImportedGuestVisibility::HostOnly)
    );

    pools.encoder.enter_render_encoder_record(first, true);
    assert_eq!(
        pools.encoder.imported_guest_barrier(first, || {
            panic!("a draw call is not a host publication boundary")
        }),
        None
    );

    pools.encoder.enter_render_encoder_record(second, true);
    assert_eq!(
        pools
            .encoder
            .imported_guest_barrier(second, || ImportedGuestVisibility::HostOnly),
        Some(ImportedGuestVisibility::HostOnly),
        "a continuation moved by an explicit boundary owes visibility in its new CB"
    );
}
