//! The values that move through the pools.

use crate::format::{StorageImageFormat, TexelLayout};
use crate::pools::free_pool::PoolKey;
use crate::pools::memo::MemoCounts;
use crate::queue_owner::PendingQueueSubmit;
use crate::retirement::{RecordingLease, SubmittedPoint};
use crate::stamp_completion::SessionId;
use crate::vk::{
    Buffer, CommandBuffer, DescriptorPool, DescriptorSet, DeviceMemory, Fence, Format, Framebuffer,
    Image, ImageView, VkResult,
};
use vstd::prelude::*;

verus! {

/// Where the memory of a buffer comes from.
#[derive(Clone, Copy, Debug, PartialEq, Eq, Structural)]
pub enum BufferBacking {
    /// An allocation of its own.
    Dedicated,
    /// A range of a shared block.
    Slab {
        /// The block.
        block: u64,
        /// Where the range begins.
        offset: u64,
    },
}

/// A pooled buffer.
#[derive(Clone, Copy, Debug, PartialEq, Eq, Structural)]
pub struct BufferSlot {
    /// The buffer.
    pub buffer: Buffer,
    /// Its memory.
    pub memory: DeviceMemory,
    /// Its size.
    pub size: u64,
    /// The host address of its mapping, or zero.
    pub mapped: u64,
    /// Where its memory comes from.
    pub backing: BufferBacking,
    /// Whether host accesses need no flush.
    pub coherent: bool,
    /// Whether host reads are cached.
    pub cached: bool,
}

/// A descriptor set with the pool that it came from.
#[derive(Clone, Copy, Debug, PartialEq, Eq, Structural)]
pub struct DescriptorRef {
    /// The set.
    pub set: DescriptorSet,
    /// The pool.
    pub pool: DescriptorPool,
}

/// The component mapping of a view, packed.
#[derive(Clone, Copy, Debug, PartialEq, Eq, Structural)]
pub struct Swizzle(pub u32);

/// What two sampled images must share for one to stand in for the other.
#[derive(Clone, Copy, Debug, PartialEq, Eq, Structural)]
pub struct SampledKey {
    /// Texels per row.
    pub width: u32,
    /// Rows.
    pub height: u32,
    /// Mip levels.
    pub mip_levels: u32,
    /// Layers, or planes of a volume.
    pub layers: u32,
    /// Whether it is a volume.
    pub volume: bool,
    /// Whether it is a cube.
    pub cube: bool,
    /// Whether it is an array.
    pub arrayed: bool,
    /// Whether it has one dimension.
    pub one_dim: bool,
    /// Its format.
    pub format: Format,
    /// Its component mapping.
    pub swizzle: Swizzle,
}

/// A pooled sampled image.
#[derive(Clone, Copy, Debug, PartialEq, Eq, Structural)]
pub struct SampledSlot {
    /// The image.
    pub image: Image,
    /// Its memory.
    pub memory: DeviceMemory,
    /// Its view.
    pub view: ImageView,
    /// What it is.
    pub shape: SampledKey,
}

impl SampledSlot {
    /// What it is.
    pub fn key(&self) -> (key: SampledKey)
        ensures
            key == self.shape,
    {
        self.shape
    }

    /// The same handles once more.
    pub fn handles(&self) -> (slot: SampledSlot)
        ensures
            slot == *self,
    {
        *self
    }
}

/// A sampled image that is about to become a cache entry.
#[derive(Debug)]
pub struct SampledRetain {
    /// The image.
    pub image: Image,
    /// The bytes it holds.
    pub content: Vec<u8>,
    /// The digest of the bytes.
    pub content_hash: u128,
    /// The resource that keeps the entry alive, if there is one.
    pub resource_lifetime: Option<u64>,
}

/// Where the memory of a storage image comes from.
#[derive(Clone, Copy, Debug, PartialEq, Eq, Structural)]
pub enum StorageImageBacking {
    /// An allocation of its own.
    Dedicated(DeviceMemory),
    /// A place in a heap that owns the image too.
    HeapPlacement {
        /// The heap.
        heap: u64,
    },
}

/// What two storage images must share for one to stand in for the other.
#[derive(Clone, Copy, Debug, PartialEq, Eq, Structural)]
pub struct StorageImageKey {
    /// Texels per row.
    pub width: u32,
    /// Rows.
    pub height: u32,
    /// Its format.
    pub format: StorageImageFormat,
    /// Whether it is sampled and never written.
    pub sampled_only: bool,
}

/// A pooled storage image.
#[derive(Clone, Copy, Debug, PartialEq, Eq, Structural)]
pub struct StorageImageSlot {
    /// The image.
    pub image: Image,
    /// Where its memory comes from.
    pub backing: StorageImageBacking,
    /// Its view.
    pub view: ImageView,
    /// What it is.
    pub key: StorageImageKey,
}

/// What two target images must share for one to stand in for the other.
#[derive(Clone, Copy, Debug, PartialEq, Eq, Structural)]
pub struct TargetRecycleKey {
    /// Texels per row.
    pub width: u32,
    /// Rows.
    pub height: u32,
    /// Samples per texel.
    pub sample_count: u32,
    /// Its format.
    pub format: Format,
}

/// A target image without an owner.
#[derive(Clone, Copy, Debug, PartialEq, Eq, Structural)]
pub struct FreeTargetImage {
    /// The image.
    pub image: Image,
    /// Its memory.
    pub memory: DeviceMemory,
    /// Its view.
    pub view: ImageView,
    /// What it is.
    pub shape: TargetRecycleKey,
}

impl FreeTargetImage {
    /// What it is.
    pub fn key(&self) -> (key: TargetRecycleKey)
        ensures
            key == self.shape,
    {
        self.shape
    }
}

impl PoolKey for SampledKey {
    fn same(&self, other: &Self) -> (same: bool) {
        *self == *other
    }
}

impl PoolKey for StorageImageKey {
    fn same(&self, other: &Self) -> (same: bool) {
        *self == *other
    }
}

impl PoolKey for TargetRecycleKey {
    fn same(&self, other: &Self) -> (same: bool) {
        *self == *other
    }
}

/// What a render target is to the guest.
#[derive(Clone, Copy, Debug, PartialEq, Eq, Structural)]
pub enum TargetIdentity {
    /// A surface of the guest.
    Surface {
        /// Its identifier.
        id: u32,
        /// Texels per row.
        width: u32,
        /// Rows.
        height: u32,
        /// How often its storage was replaced.
        generation: u64,
        /// Its texels.
        format: TexelLayout,
    },
    /// A texture of the guest.
    Texture {
        /// Its reference.
        ref_: u32,
        /// Texels per row.
        width: u32,
        /// Rows.
        height: u32,
        /// How often its storage was replaced.
        generation: u64,
        /// Whether it holds stencil values.
        stencil: bool,
    },
    /// A range of guest memory.
    Gva {
        /// Its address.
        gva: u64,
        /// Texels per row.
        width: u32,
        /// Rows.
        height: u32,
        /// How often its storage was replaced.
        generation: u64,
        /// Its texels.
        format: TexelLayout,
    },
    /// A target without a name.
    Anonymous {
        /// Its place.
        slot: u64,
    },
}

/// What a compute-storage resident is to the guest.
#[derive(Clone, Copy, Debug, PartialEq, Eq, Structural)]
pub struct ComputeStorageResidencyKey(pub u64);

/// An allocation of the guest that was imported.
#[derive(Clone, Copy, Debug, PartialEq, Eq, Structural)]
pub struct ImportId(pub u64);

/// One outstanding write to guest pages.
#[derive(Clone, Copy, Debug, PartialEq, Eq, Structural)]
pub struct GuestWriteToken {
    /// The session.
    pub session: SessionId,
    /// Its number in the session.
    pub serial: u64,
}

/// One submission of the guest.
#[derive(Clone, Copy, Debug, PartialEq, Eq, Structural)]
pub struct SubmissionIdentity {
    /// Its number; zero for a call outside any submission.
    pub id: u64,
    /// The task it belongs to.
    pub task: u32,
}

/// A native object that may still be named by a recording.
#[derive(Clone, Copy, Debug, PartialEq, Eq, Structural)]
pub enum DeferredHandle {
    /// A sampled image that can be used again.
    RecycleSampled(SampledSlot),
    /// A target image that can be used again.
    RecycleTarget(FreeTargetImage),
    /// A framebuffer.
    Framebuffer(Framebuffer),
    /// An image with its view and memory.
    Image {
        /// The image.
        image: Image,
        /// Its view.
        view: ImageView,
        /// Its memory.
        memory: DeviceMemory,
    },
    /// A storage image.
    StorageImage(StorageImageSlot),
    /// An imported allocation.
    GuestAllocation(ImportId),
    /// The end of an imported allocation whose images still live.
    GuestAllocationBarrier(ImportId),
}

/// What a command buffer holds of its own encoder.
#[derive(Debug)]
pub struct EncoderCleanup {
    /// Descriptor sets.
    pub dsets: Vec<DescriptorRef>,
    /// Descriptor sets of guest gathers.
    pub scatter_dsets: Vec<DescriptorRef>,
    /// Upload buffers.
    pub staging: Vec<BufferSlot>,
    /// Gather buffers.
    pub gather: Vec<BufferSlot>,
    /// Readback buffers.
    pub readback: Vec<BufferSlot>,
}

/// What a command buffer owes the guest's memory.
#[derive(Debug)]
pub struct VisibilityCleanup {
    /// The writes it performs, in order.
    pub guest_write_tokens: Vec<GuestWriteToken>,
}

/// What a command buffer holds of the shared registries.
#[derive(Debug)]
pub struct SharedCleanup {
    /// Sampled images that nothing retained.
    pub sampled: Vec<SampledSlot>,
    /// Snapshots of attachments.
    pub attachment_snapshots: Vec<SampledSlot>,
    /// Storage images.
    pub storage_images: Vec<StorageImageSlot>,
    /// Residents to unpin.
    pub unpin_residents: Vec<TargetIdentity>,
    /// Compute residents to unpin.
    pub unpin_compute_residents: Vec<ComputeStorageResidencyKey>,
}

/// Everything that a submitted command buffer holds until its fence signals.
#[derive(Debug)]
pub struct PendingGpuCleanup {
    /// Of its encoder.
    pub encoder: EncoderCleanup,
    /// Of the guest's memory.
    pub visibility: VisibilityCleanup,
    /// Of the shared registries.
    pub shared: SharedCleanup,
}

/// A recording that ended and has not reached the queue.
#[derive(Debug)]
pub struct SealedEntry {
    /// Its place in the recording order.
    pub recording: RecordingLease,
    /// What it holds.
    pub cleanup: PendingGpuCleanup,
    /// The images it fills that become cache entries.
    pub admissions: Vec<(SampledSlot, SampledRetain)>,
    /// What it remembered of its binds, and forgot when it ended.
    pub forgotten: MemoCounts,
}

/// A command buffer whose fence has signalled.
#[derive(Debug)]
pub struct RetiredEntry {
    /// What it held.
    pub cleanup: PendingGpuCleanup,
    /// Its place in the recording order.
    pub retirement: SubmittedPoint,
}

/// The shared half of a command buffer whose fence has signalled.
#[derive(Debug)]
pub struct SharedRetirement {
    /// What it owed the guest's memory.
    pub visibility: VisibilityCleanup,
    /// What it held of the shared registries.
    pub cleanup: SharedCleanup,
    /// Its place in the recording order.
    pub retirement: SubmittedPoint,
}

impl RetiredEntry {
    /// Separate the fence-complete resources by their next owner, without
    /// acknowledging the shared recording point.
    pub fn split(self) -> (parts: (EncoderCleanup, SharedRetirement))
        ensures
            parts.0 == self.cleanup.encoder,
            parts.1.visibility == self.cleanup.visibility,
            parts.1.cleanup == self.cleanup.shared,
            parts.1.retirement == self.retirement,
    {
        let RetiredEntry { cleanup, retirement } = self;
        let PendingGpuCleanup { encoder, visibility, shared } = cleanup;
        (encoder, SharedRetirement { visibility, cleanup: shared, retirement })
    }
}

/// Who may touch the command buffer of a ring slot.
#[derive(Debug)]
pub enum SlotSubmission {
    /// The host.
    HostOwned,
    /// The host, which is handing it to the queue.
    SealedWaitingCommit(SealedEntry),
    /// The queue, until the driver returns.
    QueueOwned(PendingQueueSubmit),
    /// No one: the queue failed.
    Failed(VkResult),
}

/// What a timed region measures.
#[derive(Clone, Copy, Debug, PartialEq, Eq, Structural)]
pub enum SpanKind {
    /// Draws.
    Draw,
    /// Anything else.
    Other,
}

/// The timed region of a ring slot.
#[derive(Clone, Copy, Debug, PartialEq, Eq, Structural)]
pub enum SlotSpan {
    /// None.
    Idle,
    /// Begun.
    Armed(SpanKind),
    /// Begun and ended.
    Sealed {
        /// What it measures.
        kind: SpanKind,
        /// How many draws it holds.
        draws: u64,
    },
}

/// One command buffer of the ring.
#[derive(Debug)]
pub struct CmdSlot {
    /// The command buffer.
    pub cmd_buf: CommandBuffer,
    /// The fence of its submissions.
    pub fence: Fence,
    /// What its submission holds.
    pub pending: Option<PendingGpuCleanup>,
    /// Who may touch it.
    pub submission: SlotSubmission,
    /// The place of its submission in the recording order.
    pub retirement: Option<SubmittedPoint>,
    /// Its timed region.
    pub span: SlotSpan,
    /// Whether its readback region was begun.
    pub readback_span_armed: bool,
    /// How many timed passes it holds.
    pub pass_spans: u32,
}

impl CmdSlot {
    /// A slot that owes nothing.
    pub open spec fn is_idle(self, cmd_buf: CommandBuffer, fence: Fence) -> bool {
        &&& self.cmd_buf == cmd_buf
        &&& self.fence == fence
        &&& self.pending is None
        &&& self.submission is HostOwned
        &&& self.retirement is None
        &&& self.span is Idle
        &&& !self.readback_span_armed
        &&& self.pass_spans == 0
    }

    /// A slot that owes nothing.
    pub fn idle(cmd_buf: CommandBuffer, fence: Fence) -> (slot: CmdSlot)
        ensures
            slot.is_idle(cmd_buf, fence),
    {
        CmdSlot {
            cmd_buf,
            fence,
            pending: None,
            submission: SlotSubmission::HostOwned,
            retirement: None,
            span: SlotSpan::Idle,
            readback_span_armed: false,
            pass_spans: 0,
        }
    }
}

/// A slot that owes nothing has its command buffer and fence and nothing else:
/// nothing to clean up, no point, no submission and no time.
pub proof fn law_an_idle_slot_owes_nothing(slot: CmdSlot, cmd_buf: CommandBuffer, fence: Fence)
    ensures
        slot.is_idle(cmd_buf, fence) <==> {
            &&& slot.cmd_buf == cmd_buf
            &&& slot.fence == fence
            &&& slot.pending is None
            &&& slot.submission is HostOwned
            &&& slot.retirement is None
            &&& slot.span is Idle
            &&& !slot.readback_span_armed
            &&& slot.pass_spans == 0
        },
{
}

} // verus!
