//! Making buffers and the ring of an encoder, one driver call after the other.
//!
//! Each step takes what the driver answered and gives the next state. Where an
//! answer is a refusal, the step gives the error and what was made before, in
//! the order in which it is to be released. Nothing else is left behind.

use crate::pools::created::CreateSite;
use crate::pools::encoder::EncoderPools;
use crate::pools::fence::{count, counted, EngineCounters};
use crate::pools::limits::RING_DEPTH;
use crate::pools::readback::MappedMemoryKind;
use crate::pools::slots::{BufferBacking, BufferSlot, CmdSlot};
use crate::reason::DrawReason;
use crate::text::{append_decimal, append_text, decimal, owned};
use crate::types::{DrawError, VkCall, VkOp};
use crate::vk::{
    Buffer, CommandBuffer, CommandPool, DeviceMemory, Fence, Image, ImageView, VkResult,
};
use vstd::prelude::*;

verus! {

/// Something made for a resource that could not be finished.
#[derive(Clone, Copy, Debug, PartialEq, Eq, Structural)]
pub enum Unmake {
    /// Free an allocation.
    FreeMemory(DeviceMemory),
    /// Destroy a buffer.
    DestroyBuffer(Buffer),
    /// Give back a range of a shared block.
    ReleaseRange(SlabRange),
    /// Destroy a view.
    DestroyView(ImageView),
    /// Destroy an image.
    DestroyImage(Image),
    /// Give back the range that an image is bound to.
    FreeImageRange(Image),
    /// Destroy a fence.
    DestroyFence(Fence),
    /// Destroy the descriptor arena.
    DestroyArena,
    /// Destroy a command pool.
    DestroyCommandPool(CommandPool),
}

/// A range of a shared block of memory.
#[derive(Clone, Copy, Debug, PartialEq, Eq, Structural)]
pub struct SlabRange {
    /// The block's allocation.
    pub memory: DeviceMemory,
    /// The block.
    pub block: u64,
    /// Where the range begins.
    pub offset: u64,
    /// The host address of the range, or zero.
    pub mapped: u64,
}

/// Why a resource could not be made, and what to release, in order.
#[derive(Debug)]
pub struct BuildFailure {
    /// Why.
    pub error: DrawError,
    /// What was made before.
    pub release: Vec<Unmake>,
}

impl BuildFailure {
    /// The failure is `error`, and `release` is what was made before.
    pub open spec fn is(self, error: DrawError, release: Seq<Unmake>) -> bool {
        self.error == error && self.release@ =~= release
    }
}

/// The error of a refused driver call.
pub open spec fn call_failed(op: VkOp, result: VkResult) -> DrawError {
    DrawError::VkCall(VkCall { op, result })
}

/// `TRANSFER_SRC`, as its bit of `VkBufferUsageFlags`.
pub const TRANSFER_SRC: u32 = 0x01;

/// `TRANSFER_DST`.
pub const TRANSFER_DST: u32 = 0x02;

/// `STORAGE_BUFFER`.
pub const STORAGE_BUFFER: u32 = 0x20;

/// `INDEX_BUFFER`.
pub const INDEX_BUFFER: u32 = 0x40;

/// `VERTEX_BUFFER`.
pub const VERTEX_BUFFER: u32 = 0x80;

/// What a readback buffer is made for. Every user of one copies to it; that a
/// shader may write it too keeps one pool for all.
pub fn readback_usage() -> (usage: u32)
    ensures
        usage == TRANSFER_DST | STORAGE_BUFFER,
{
    TRANSFER_DST | STORAGE_BUFFER
}

/// What an upload or gather buffer is made for: `usage`, and everything that
/// another user of the same size could want.
pub fn shared_usage(usage: u32) -> (all: u32)
    ensures
        all == usage | TRANSFER_SRC | TRANSFER_DST | VERTEX_BUFFER | INDEX_BUFFER | STORAGE_BUFFER,
{
    usage | TRANSFER_SRC | TRANSFER_DST | VERTEX_BUFFER | INDEX_BUFFER | STORAGE_BUFFER
}

/// Which readback buffer of a command buffer one is.
#[derive(Clone, Copy, Debug, PartialEq, Eq, Structural)]
pub enum ReadbackPurpose {
    /// The first.
    Primary,
    /// A further one.
    Extra,
}

impl ReadbackPurpose {
    /// The call that makes the buffer.
    pub open spec fn creates(self) -> VkOp {
        match self {
            ReadbackPurpose::Primary => VkOp::PoolsCreateReadback,
            ReadbackPurpose::Extra => VkOp::PoolsCreateReadbackExtra,
        }
    }

    /// The call that makes the buffer.
    pub fn create_op(self) -> (op: VkOp)
        ensures
            op == self.creates(),
    {
        match self {
            ReadbackPurpose::Primary => VkOp::PoolsCreateReadback,
            ReadbackPurpose::Extra => VkOp::PoolsCreateReadbackExtra,
        }
    }

    /// The call that allocates its memory.
    pub open spec fn allocates(self) -> VkOp {
        match self {
            ReadbackPurpose::Primary => VkOp::PoolsAllocReadback,
            ReadbackPurpose::Extra => VkOp::PoolsAllocReadbackExtra,
        }
    }

    /// The call that allocates its memory.
    pub fn allocate_op(self) -> (op: VkOp)
        ensures
            op == self.allocates(),
    {
        match self {
            ReadbackPurpose::Primary => VkOp::PoolsAllocReadback,
            ReadbackPurpose::Extra => VkOp::PoolsAllocReadbackExtra,
        }
    }

    /// The call that binds it to its memory.
    pub open spec fn binds(self) -> VkOp {
        match self {
            ReadbackPurpose::Primary => VkOp::PoolsBindReadback,
            ReadbackPurpose::Extra => VkOp::PoolsBindReadbackExtra,
        }
    }

    /// The call that binds it to its memory.
    pub fn bind_op(self) -> (op: VkOp)
        ensures
            op == self.binds(),
    {
        match self {
            ReadbackPurpose::Primary => VkOp::PoolsBindReadback,
            ReadbackPurpose::Extra => VkOp::PoolsBindReadbackExtra,
        }
    }

    /// The call that maps it.
    pub open spec fn maps(self) -> VkOp {
        match self {
            ReadbackPurpose::Primary => VkOp::PoolsMapReadback,
            ReadbackPurpose::Extra => VkOp::PoolsMapReadbackExtra,
        }
    }

    /// The call that maps it.
    pub fn map_op(self) -> (op: VkOp)
        ensures
            op == self.maps(),
    {
        match self {
            ReadbackPurpose::Primary => VkOp::PoolsMapReadback,
            ReadbackPurpose::Extra => VkOp::PoolsMapReadbackExtra,
        }
    }
}

/// A readback buffer under way: the buffer is made.
#[derive(Clone, Copy, Debug)]
pub struct ReadbackBuild {
    /// Its size.
    pub bucket: u64,
    /// Which one it is.
    pub purpose: ReadbackPurpose,
    /// The buffer.
    pub buffer: Buffer,
}

impl ReadbackBuild {
    /// The driver answered the call that makes the buffer.
    pub fn created(
        counters: &mut EngineCounters,
        bucket: u64,
        purpose: ReadbackPurpose,
        result: Result<Buffer, VkResult>,
    ) -> (step: Result<ReadbackBuild, BuildFailure>)
        ensures
            *final(counters) == old(counters).after_create(CreateSite::ReadbackBuffer, result is Ok),
            match (result, step) {
                (Ok(made), Ok(build)) => build == (ReadbackBuild { bucket, purpose, buffer: made }),
                (Err(e), Err(failure)) => failure.is(call_failed(purpose.creates(), e), seq![]),
                _ => false,
            },
    {
        match result {
            Ok(buffer) => {
                counters.note_create(CreateSite::ReadbackBuffer);
                Ok(ReadbackBuild { bucket, purpose, buffer })
            },
            Err(e) => Err(
                BuildFailure {
                    error: DrawError::VkCall(VkCall::new(purpose.create_op(), e)),
                    release: Vec::new(),
                },
            ),
        }
    }

    /// A memory type was looked for among `memory_type_bits`.
    pub fn typed(&self, found: Option<u32>, memory_type_bits: u32) -> (step: Result<
        u32,
        BuildFailure,
    >)
        ensures
            match (found, step) {
                (Some(index), Ok(memory_type)) => memory_type == index,
                (None, Err(failure)) => failure.is(
                    DrawError::Unsupported(
                        DrawReason::NoHostVisibleMemoryForReadback { memory_type_bits },
                    ),
                    seq![Unmake::DestroyBuffer(self.buffer)],
                ),
                _ => false,
            },
    {
        match found {
            Some(index) => Ok(index),
            None => Err(
                BuildFailure {
                    error: DrawError::Unsupported(
                        DrawReason::NoHostVisibleMemoryForReadback { memory_type_bits },
                    ),
                    release: vec![Unmake::DestroyBuffer(self.buffer)],
                },
            ),
        }
    }

    /// The driver answered the call that allocates the memory.
    pub fn allocated(&self, counters: &mut EngineCounters, result: Result<DeviceMemory, VkResult>) -> (step:
        Result<DeviceMemory, BuildFailure>)
        ensures
            *final(counters) == (EngineCounters {
                allocations: if result is Ok {
                    counted(old(counters).allocations, 1)
                } else {
                    old(counters).allocations
                },
                ..*old(counters)
            }),
            match (result, step) {
                (Ok(made), Ok(memory)) => memory == made,
                (Err(e), Err(failure)) => failure.is(
                    call_failed(self.purpose.allocates(), e),
                    seq![Unmake::DestroyBuffer(self.buffer)],
                ),
                _ => false,
            },
    {
        match result {
            Ok(memory) => {
                counters.note_alloc();
                Ok(memory)
            },
            Err(e) => Err(
                BuildFailure {
                    error: DrawError::VkCall(VkCall::new(self.purpose.allocate_op(), e)),
                    release: vec![Unmake::DestroyBuffer(self.buffer)],
                },
            ),
        }
    }

    /// The driver answered the call that binds the memory. The memory goes
    /// before the buffer.
    pub fn bound(&self, memory: DeviceMemory, result: Result<(), VkResult>) -> (step: Result<
        (),
        BuildFailure,
    >)
        ensures
            match (result, step) {
                (Ok(_), Ok(_)) => true,
                (Err(e), Err(failure)) => failure.is(
                    call_failed(self.purpose.binds(), e),
                    seq![Unmake::FreeMemory(memory), Unmake::DestroyBuffer(self.buffer)],
                ),
                _ => false,
            },
    {
        match result {
            Ok(()) => Ok(()),
            Err(e) => Err(
                BuildFailure {
                    error: DrawError::VkCall(VkCall::new(self.purpose.bind_op(), e)),
                    release: vec![Unmake::FreeMemory(memory), Unmake::DestroyBuffer(self.buffer)],
                },
            ),
        }
    }

    /// The driver answered the call that maps the memory, for as long as the
    /// buffer lives. A buffer that is bound goes before its memory.
    pub fn mapped(
        self,
        memory: DeviceMemory,
        kind: MappedMemoryKind,
        result: Result<u64, VkResult>,
    ) -> (step: Result<BufferSlot, BuildFailure>)
        ensures
            match (result, step) {
                (Ok(address), Ok(slot)) => slot == (BufferSlot {
                    buffer: self.buffer,
                    memory,
                    size: self.bucket,
                    mapped: address,
                    backing: BufferBacking::Dedicated,
                    coherent: kind.coherent,
                    cached: kind.cached,
                }),
                (Err(e), Err(failure)) => failure.is(
                    call_failed(self.purpose.maps(), e),
                    seq![Unmake::DestroyBuffer(self.buffer), Unmake::FreeMemory(memory)],
                ),
                _ => false,
            },
    {
        match result {
            Ok(address) => Ok(
                BufferSlot {
                    buffer: self.buffer,
                    memory,
                    size: self.bucket,
                    mapped: address,
                    backing: BufferBacking::Dedicated,
                    coherent: kind.coherent,
                    cached: kind.cached,
                },
            ),
            Err(e) => Err(
                BuildFailure {
                    error: DrawError::VkCall(VkCall::new(self.purpose.map_op(), e)),
                    release: vec![Unmake::DestroyBuffer(self.buffer), Unmake::FreeMemory(memory)],
                },
            ),
        }
    }
}

/// The call that makes an upload buffer or a gather buffer.
pub open spec fn slab_create(upload: bool) -> VkOp {
    if upload {
        VkOp::PoolsCreateStaging
    } else {
        VkOp::PoolsCreateGuestGather
    }
}

fn slab_create_op(upload: bool) -> (op: VkOp)
    ensures
        op == slab_create(upload),
{
    if upload {
        VkOp::PoolsCreateStaging
    } else {
        VkOp::PoolsCreateGuestGather
    }
}

/// The call that binds an upload buffer or a gather buffer to its range.
pub open spec fn slab_bind(upload: bool) -> VkOp {
    if upload {
        VkOp::PoolsBindStaging
    } else {
        VkOp::PoolsBindGuestGather
    }
}

fn slab_bind_op(upload: bool) -> (op: VkOp)
    ensures
        op == slab_bind(upload),
{
    if upload {
        VkOp::PoolsBindStaging
    } else {
        VkOp::PoolsBindGuestGather
    }
}

/// An upload or gather buffer under way: the buffer is made. Its memory is a
/// range of a shared block.
#[derive(Clone, Copy, Debug)]
pub struct SlabBuild {
    /// Its size.
    pub bucket: u64,
    /// Whether it is an upload buffer.
    pub upload: bool,
    /// The buffer.
    pub buffer: Buffer,
}

impl SlabBuild {
    /// The driver answered the call that makes the buffer: an upload buffer or a
    /// gather buffer.
    pub fn created(
        counters: &mut EngineCounters,
        upload: bool,
        bucket: u64,
        result: Result<Buffer, VkResult>,
    ) -> (step: Result<SlabBuild, BuildFailure>)
        ensures
            *final(counters) == old(counters).after_create(
                if upload {
                    CreateSite::StagingBuffer
                } else {
                    CreateSite::GatherBuffer
                },
                result is Ok,
            ),
            match (result, step) {
                (Ok(made), Ok(build)) => build == (SlabBuild { bucket, upload, buffer: made }),
                (Err(e), Err(failure)) => failure.is(call_failed(slab_create(upload), e), seq![]),
                _ => false,
            },
    {
        match result {
            Ok(buffer) => {
                counters.note_create(
                    if upload {
                        CreateSite::StagingBuffer
                    } else {
                        CreateSite::GatherBuffer
                    },
                );
                Ok(SlabBuild { bucket, upload, buffer })
            },
            Err(e) => Err(
                BuildFailure {
                    error: DrawError::VkCall(VkCall::new(slab_create_op(upload), e)),
                    release: Vec::new(),
                },
            ),
        }
    }

    /// A memory type for uploads was looked for among `memory_type_bits`. A
    /// gather buffer needs none of its own.
    pub fn typed_for_staging(&self, found: Option<u32>, memory_type_bits: u32) -> (step: Result<
        u32,
        BuildFailure,
    >)
        ensures
            match (found, step) {
                (Some(index), Ok(memory_type)) => memory_type == index,
                (None, Err(failure)) => failure.is(
                    DrawError::Unsupported(
                        DrawReason::NoHostVisibleMemoryForStaging { memory_type_bits },
                    ),
                    seq![Unmake::DestroyBuffer(self.buffer)],
                ),
                _ => false,
            },
    {
        match found {
            Some(index) => Ok(index),
            None => Err(
                BuildFailure {
                    error: DrawError::Unsupported(
                        DrawReason::NoHostVisibleMemoryForStaging { memory_type_bits },
                    ),
                    release: vec![Unmake::DestroyBuffer(self.buffer)],
                },
            ),
        }
    }

    /// A range was asked of the shared blocks.
    pub fn ranged(&self, result: Result<SlabRange, DrawError>) -> (step: Result<
        SlabRange,
        BuildFailure,
    >)
        ensures
            match (result, step) {
                (Ok(given), Ok(range)) => range == given,
                (Err(error), Err(failure)) => failure.is(
                    error,
                    seq![Unmake::DestroyBuffer(self.buffer)],
                ),
                _ => false,
            },
    {
        match result {
            Ok(range) => Ok(range),
            Err(error) => Err(
                BuildFailure { error, release: vec![Unmake::DestroyBuffer(self.buffer)] },
            ),
        }
    }

    /// The driver answered the call that binds the range. `host` says how the
    /// host reads the buffer, where it is an upload buffer; a gather buffer is
    /// the device's alone.
    pub fn bound(self, range: SlabRange, host: Option<MappedMemoryKind>, result: Result<(), VkResult>) -> (step:
        Result<BufferSlot, BuildFailure>)
        ensures
            match (result, step) {
                (Ok(_), Ok(slot)) => slot == (BufferSlot {
                    buffer: self.buffer,
                    memory: range.memory,
                    size: self.bucket,
                    mapped: if host is Some {
                        range.mapped
                    } else {
                        0
                    },
                    backing: BufferBacking::Slab { block: range.block, offset: range.offset },
                    coherent: host is Some,
                    cached: host matches Some(kind) && kind.cached,
                }),
                (Err(e), Err(failure)) => failure.is(
                    call_failed(slab_bind(self.upload), e),
                    seq![Unmake::ReleaseRange(range), Unmake::DestroyBuffer(self.buffer)],
                ),
                _ => false,
            },
    {
        match result {
            Ok(()) => {
                let (mapped, coherent, cached): (u64, bool, bool) = match host {
                    Some(kind) => (range.mapped, true, kind.cached),
                    None => (0, false, false),
                };
                Ok(
                    BufferSlot {
                        buffer: self.buffer,
                        memory: range.memory,
                        size: self.bucket,
                        mapped,
                        backing: BufferBacking::Slab { block: range.block, offset: range.offset },
                        coherent,
                        cached,
                    },
                )
            },
            Err(e) => Err(
                BuildFailure {
                    error: DrawError::VkCall(VkCall::new(slab_bind_op(self.upload), e)),
                    release: vec![Unmake::ReleaseRange(range), Unmake::DestroyBuffer(self.buffer)],
                },
            ),
        }
    }
}

/// The line that reports a new block of a descriptor arena.
pub open spec fn arena_grow_text(blocks: nat, block_max_sets: nat) -> Seq<char> {
    "desc_arena_grow blocks="@ + decimal(blocks) + " block_max_sets="@ + decimal(block_max_sets)
        + " cause=pool_exhausted"@
}

/// A descriptor set was allocated. Where the arena `grew` for it, to `blocks`
/// blocks of `block_max_sets` sets each, that is counted and reported.
pub fn descriptor_set_allocated(
    counters: &mut EngineCounters,
    grew: bool,
    blocks: u64,
    block_max_sets: u64,
) -> (line: Option<String>)
    ensures
        *final(counters) == (EngineCounters {
            desc_pool_grow: if grew {
                counted(old(counters).desc_pool_grow, 1)
            } else {
                old(counters).desc_pool_grow
            },
            ..*old(counters)
        }),
        line is Some == grew,
        line matches Some(text) ==> text@ == arena_grow_text(blocks as nat, block_max_sets as nat),
{
    if !grew {
        return None;
    }
    count(&mut counters.desc_pool_grow, 1);
    let mut line = owned("desc_arena_grow blocks=");
    append_decimal(&mut line, blocks);
    append_text(&mut line, " block_max_sets=");
    append_decimal(&mut line, block_max_sets);
    append_text(&mut line, " cause=pool_exhausted");
    Some(line)
}

/// The ring of an encoder under way: the command pool and the command buffers
/// are made, and a fence for each of the first of them.
#[derive(Debug)]
pub struct RingBuild {
    /// The command pool.
    pub cmd_pool: CommandPool,
    /// The command buffers.
    pub cmd_bufs: Vec<CommandBuffer>,
    /// The fences made so far.
    pub fences: Vec<Fence>,
}

/// What is to be released of a ring: its fences in the order they were made,
/// the arena and the command pool.
pub open spec fn ring_release(fences: Seq<Fence>, cmd_pool: CommandPool) -> Seq<Unmake> {
    fences.map_values(|fence: Fence| Unmake::DestroyFence(fence)) + seq![
        Unmake::DestroyArena,
        Unmake::DestroyCommandPool(cmd_pool),
    ]
}

impl RingBuild {
    /// There is no more than one fence to a command buffer.
    pub open spec fn wf(self) -> bool {
        self.fences@.len() <= self.cmd_bufs@.len()
    }

    /// The driver answered the call that makes the command pool.
    pub fn pool_created(
        counters: &mut EngineCounters,
        result: Result<CommandPool, VkResult>,
    ) -> (step: Result<CommandPool, BuildFailure>)
        ensures
            *final(counters) == old(counters).after_create(CreateSite::CommandPool, result is Ok),
            match (result, step) {
                (Ok(made), Ok(cmd_pool)) => cmd_pool == made,
                (Err(e), Err(failure)) => failure.is(call_failed(VkOp::PoolsCreateCommandPool, e), seq![]),
                _ => false,
            },
    {
        match result {
            Ok(cmd_pool) => {
                counters.note_create(CreateSite::CommandPool);
                Ok(cmd_pool)
            },
            Err(e) => Err(
                BuildFailure {
                    error: DrawError::VkCall(VkCall::new(VkOp::PoolsCreateCommandPool, e)),
                    release: Vec::new(),
                },
            ),
        }
    }

    /// The driver answered the call that allocates the command buffers.
    pub fn buffers_allocated(
        cmd_pool: CommandPool,
        result: Result<Vec<CommandBuffer>, VkResult>,
    ) -> (step: Result<RingBuild, BuildFailure>)
        ensures
            match (result, step) {
                (Ok(made), Ok(build)) => {
                    &&& build.cmd_pool == cmd_pool
                    &&& build.cmd_bufs == made
                    &&& build.fences@.len() == 0
                    &&& build.wf()
                },
                (Err(e), Err(failure)) => failure.is(
                    call_failed(VkOp::PoolsAllocCommandBuffers, e),
                    seq![Unmake::DestroyCommandPool(cmd_pool)],
                ),
                _ => false,
            },
    {
        match result {
            Ok(cmd_bufs) => Ok(RingBuild { cmd_pool, cmd_bufs, fences: Vec::new() }),
            Err(e) => Err(
                BuildFailure {
                    error: DrawError::VkCall(VkCall::new(VkOp::PoolsAllocCommandBuffers, e)),
                    release: vec![Unmake::DestroyCommandPool(cmd_pool)],
                },
            ),
        }
    }

    /// The first block of the descriptor arena was asked for.
    pub fn arena_created(self, counters: &mut EngineCounters, result: Result<(), DrawError>) -> (step:
        Result<RingBuild, BuildFailure>)
        ensures
            *final(counters) == old(counters).after_create(CreateSite::DescriptorPool, result is Ok),
            match (result, step) {
                (Ok(_), Ok(build)) => build == self,
                (Err(error), Err(failure)) => failure.is(
                    error,
                    seq![Unmake::DestroyCommandPool(self.cmd_pool)],
                ),
                _ => false,
            },
    {
        match result {
            Ok(()) => {
                counters.note_create(CreateSite::DescriptorPool);
                Ok(self)
            },
            Err(error) => Err(
                BuildFailure { error, release: vec![Unmake::DestroyCommandPool(self.cmd_pool)] },
            ),
        }
    }

    /// Whether a command buffer still lacks its fence.
    pub fn needs_fence(&self) -> (needs: bool)
        ensures
            needs == (self.fences@.len() < self.cmd_bufs@.len()),
    {
        self.fences.len() < self.cmd_bufs.len()
    }

    /// The driver answered the call that makes the next fence.
    pub fn fence_created(self, counters: &mut EngineCounters, result: Result<Fence, VkResult>) -> (step:
        Result<RingBuild, BuildFailure>)
        requires
            self.fences@.len() < self.cmd_bufs@.len(),
        ensures
            *final(counters) == old(counters).after_create(CreateSite::Fence, result is Ok),
            match (result, step) {
                (Ok(made), Ok(build)) => {
                    &&& build.cmd_pool == self.cmd_pool
                    &&& build.cmd_bufs == self.cmd_bufs
                    &&& build.fences@ == self.fences@.push(made)
                    &&& build.wf()
                },
                (Err(e), Err(failure)) => failure.is(
                    call_failed(VkOp::PoolsCreateFence, e),
                    ring_release(self.fences@, self.cmd_pool),
                ),
                _ => false,
            },
    {
        let mut build = self;
        match result {
            Ok(fence) => {
                counters.note_create(CreateSite::Fence);
                build.fences.push(fence);
                Ok(build)
            },
            Err(e) => {
                let mut release: Vec<Unmake> = Vec::new();
                let mut k: usize = 0;
                while k < build.fences.len()
                    invariant
                        k <= build.fences@.len(),
                        release@ == build.fences@.take(k as int).map_values(
                            |fence: Fence| Unmake::DestroyFence(fence),
                        ),
                    decreases build.fences@.len() - k,
                {
                    release.push(Unmake::DestroyFence(build.fences[k]));
                    k += 1;
                    assert(release@ =~= build.fences@.take(k as int).map_values(
                        |fence: Fence| Unmake::DestroyFence(fence),
                    ));
                }
                assert(build.fences@.take(k as int) =~= build.fences@);
                release.push(Unmake::DestroyArena);
                release.push(Unmake::DestroyCommandPool(build.cmd_pool));
                assert(release@ =~= ring_release(build.fences@, build.cmd_pool));
                Err(
                    BuildFailure {
                        error: DrawError::VkCall(VkCall::new(VkOp::PoolsCreateFence, e)),
                        release,
                    },
                )
            },
        }
    }
}

impl EncoderPools {
    /// Whether the ring is still to be made. Where it is, the encoder's batches
    /// take `batch_max_draws` draws from now on. The ring has
    /// [`RING_DEPTH`] command buffers.
    pub fn ensure_init(&mut self, batch_max_draws: u64) -> (make: Option<usize>)
        requires
            !old(self).initialized ==> old(self).attachment_snapshot_live@.len() == 0,
        ensures
            old(self).initialized ==> make is None && *final(self) == *old(self),
            !old(self).initialized ==> make == Some(RING_DEPTH) && *final(self) == (EncoderPools {
                batch_max_draws,
                ..*old(self)
            }),
            old(self).wf() ==> final(self).wf(),
    {
        if self.initialized {
            return None;
        }
        self.configure_batch_capacity(batch_max_draws);
        Some(RING_DEPTH)
    }

    /// Install a ring that is made. Every slot owes nothing.
    pub fn install_ring(&mut self, build: RingBuild)
        requires
            !old(self).initialized,
            old(self).slots@.len() == 0,
            old(self).recording is None,
            old(self).open_batch is None,
            build.fences@.len() == build.cmd_bufs@.len(),
        ensures
            *final(self) == (EncoderPools {
                cmd_pool: build.cmd_pool,
                slots: final(self).slots,
                cur: 0,
                in_flight: 0,
                initialized: true,
                ..*old(self)
            }),
            final(self).slots@.len() == build.cmd_bufs@.len(),
            forall|i: int|
                0 <= i < final(self).slots@.len() ==> (#[trigger] final(self).slots@[i]).is_idle(
                    build.cmd_bufs@[i],
                    build.fences@[i],
                ),
            old(self).wf() ==> final(self).wf(),
    {
        let mut slots: Vec<CmdSlot> = Vec::new();
        while slots.len() < build.cmd_bufs.len()
            invariant
                slots@.len() <= build.cmd_bufs@.len(),
                build.fences@.len() == build.cmd_bufs@.len(),
                forall|i: int|
                    0 <= i < slots@.len() ==> (#[trigger] slots@[i]).is_idle(
                        build.cmd_bufs@[i],
                        build.fences@[i],
                    ),
            decreases build.cmd_bufs@.len() - slots@.len(),
        {
            let at: usize = slots.len();
            slots.push(CmdSlot::idle(build.cmd_bufs[at], build.fences[at]));
        }
        self.cmd_pool = build.cmd_pool;
        self.slots = slots;
        self.cur = 0;
        self.in_flight = 0;
        self.initialized = true;
        proof {
            lemma_idle_ring(self.slots@);
        }
    }
}

proof fn lemma_idle_ring(slots: Seq<CmdSlot>)
    requires
        forall|i: int| 0 <= i < slots.len() ==> (#[trigger] slots[i]).pending is None,
    ensures
        crate::pools::encoder::pending_count(slots) == 0,
    decreases slots.len(),
{
    if slots.len() > 0 {
        lemma_idle_ring(slots.drop_last());
    }
}

/// A refused call is told as that call with the driver's own answer.
pub proof fn law_a_refused_call_tells_itself(op: VkOp, result: VkResult)
    ensures
        call_failed(op, result) matches DrawError::VkCall(call) && call.op == op && call.result
            == result,
{
}

/// A failure tells its error and what was made before it, no less and no more.
pub proof fn law_a_failed_making_releases_what_was_made(
    failure: BuildFailure,
    error: DrawError,
    release: Seq<Unmake>,
)
    ensures
        failure.is(error, release) <==> failure.error == error && failure.release@ == release,
{
}

/// Each step of making a buffer fails under a name of its own, and the names tell which
/// buffer it is.
pub proof fn law_each_buffer_has_its_own_calls(upload: bool)
    ensures
        ReadbackPurpose::Primary.creates() is PoolsCreateReadback,
        ReadbackPurpose::Primary.allocates() is PoolsAllocReadback,
        ReadbackPurpose::Primary.binds() is PoolsBindReadback,
        ReadbackPurpose::Primary.maps() is PoolsMapReadback,
        ReadbackPurpose::Extra.creates() is PoolsCreateReadbackExtra,
        ReadbackPurpose::Extra.allocates() is PoolsAllocReadbackExtra,
        ReadbackPurpose::Extra.binds() is PoolsBindReadbackExtra,
        ReadbackPurpose::Extra.maps() is PoolsMapReadbackExtra,
        slab_create(upload) is PoolsCreateStaging <==> upload,
        slab_create(upload) is PoolsCreateGuestGather <==> !upload,
        slab_bind(upload) is PoolsBindStaging <==> upload,
        slab_bind(upload) is PoolsBindGuestGather <==> !upload,
{
}

/// Of a ring that fails every fence is released, then the arena, and the command pool
/// last.
pub proof fn law_a_failed_ring_is_released_whole(fences: Seq<Fence>, cmd_pool: CommandPool, k: int)
    ensures
        ring_release(fences, cmd_pool).len() == fences.len() + 2,
        0 <= k < fences.len() ==> ring_release(fences, cmd_pool)[k] == Unmake::DestroyFence(
            fences[k],
        ),
        ring_release(fences, cmd_pool)[fences.len() as int] == Unmake::DestroyArena,
        ring_release(fences, cmd_pool).last() == Unmake::DestroyCommandPool(cmd_pool),
{
}

} // verus!
