//! What a draw or a dispatch can answer with, and the keys under which sampler
//! and blend state is remembered.

use crate::decline::{copy_fields, fields_line, fields_text, line_of, Decline};
use crate::pools::slots::SubmissionIdentity;
use crate::reason::{DrawReason, TargetReadDecline};
use crate::text::{append_text, decimal, decimal_text, owned};
use crate::vk::{show_vk_result, vk_result_text, VkResult};
use crate::vk::{ERROR_OUT_OF_DEVICE_MEMORY, ERROR_OUT_OF_HOST_MEMORY};
use vstd::prelude::*;

verus! {

/// A call into the driver: which one it is, and what it is for.
#[derive(Clone, Copy, Debug, PartialEq, Eq)]
pub enum VkOp {
    /// Making the command pool of an encoder.
    PoolsCreateCommandPool,
    /// Allocating its command buffers.
    PoolsAllocCommandBuffers,
    /// Making the fence of a command buffer.
    PoolsCreateFence,
    /// Making an upload buffer.
    PoolsCreateStaging,
    /// Binding an upload buffer to its range.
    PoolsBindStaging,
    /// Making a gather buffer.
    PoolsCreateGuestGather,
    /// Binding a gather buffer to its range.
    PoolsBindGuestGather,
    /// Making a readback buffer.
    PoolsCreateReadback,
    /// Allocating its memory.
    PoolsAllocReadback,
    /// Binding it to its memory.
    PoolsBindReadback,
    /// Mapping it.
    PoolsMapReadback,
    /// Making a further readback buffer.
    PoolsCreateReadbackExtra,
    /// Allocating its memory.
    PoolsAllocReadbackExtra,
    /// Binding it to its memory.
    PoolsBindReadbackExtra,
    /// Mapping it.
    PoolsMapReadbackExtra,
    /// Making the image of a target.
    PoolsCreateTargetImage,
    /// Binding it to its range.
    PoolsBindTarget,
    /// Making its view.
    PoolsCreateTargetView,
    /// Making its framebuffer.
    PoolsCreateFramebuffer,
    /// Making a sampled image.
    PoolsCreateSampledImage,
    /// Binding it to its range.
    PoolsBindSampled,
    /// Making its view.
    PoolsCreateSampledView,
    /// Ending the command buffer of a batch.
    PoolsEndCbBatch,
    /// Submitting a batch.
    PoolsSubmitBatch,
    /// Asking for the fence of a slot when one is claimed.
    PoolsFenceStatusBeginEntry,
    /// Waiting for a slot that is taken back.
    PoolsWaitFencesRetire,
    /// Resetting the fence of a slot that is taken back.
    PoolsResetFencesRetire,
    /// Waiting for one submission alone.
    PoolsWaitFencesEntry,
    /// Waiting for a slot when everything is taken down.
    PoolsWaitFencesDestroy,
    /// A call that another part of the device makes, by its name.
    Named(&'static str),
}

impl VkOp {
    /// The name under which a failure of the call is reported.
    pub open spec fn slug_text(self) -> Seq<char> {
        match self {
            VkOp::PoolsCreateCommandPool => "pools_create_command_pool"@,
            VkOp::PoolsAllocCommandBuffers => "pools_alloc_command_buffers"@,
            VkOp::PoolsCreateFence => "pools_create_fence"@,
            VkOp::PoolsCreateStaging => "pools_create_staging"@,
            VkOp::PoolsBindStaging => "pools_bind_staging"@,
            VkOp::PoolsCreateGuestGather => "pools_create_guest_gather"@,
            VkOp::PoolsBindGuestGather => "pools_bind_guest_gather"@,
            VkOp::PoolsCreateReadback => "pools_create_readback"@,
            VkOp::PoolsAllocReadback => "pools_alloc_readback"@,
            VkOp::PoolsBindReadback => "pools_bind_readback"@,
            VkOp::PoolsMapReadback => "pools_map_readback"@,
            VkOp::PoolsCreateReadbackExtra => "pools_create_readback_extra"@,
            VkOp::PoolsAllocReadbackExtra => "pools_alloc_readback_extra"@,
            VkOp::PoolsBindReadbackExtra => "pools_bind_readback_extra"@,
            VkOp::PoolsMapReadbackExtra => "pools_map_readback_extra"@,
            VkOp::PoolsCreateTargetImage => "pools_create_target_image"@,
            VkOp::PoolsBindTarget => "pools_bind_target"@,
            VkOp::PoolsCreateTargetView => "pools_create_target_view"@,
            VkOp::PoolsCreateFramebuffer => "pools_create_framebuffer"@,
            VkOp::PoolsCreateSampledImage => "pools_create_sampled_image"@,
            VkOp::PoolsBindSampled => "pools_bind_sampled"@,
            VkOp::PoolsCreateSampledView => "pools_create_sampled_view"@,
            VkOp::PoolsEndCbBatch => "pools_end_cb_batch"@,
            VkOp::PoolsSubmitBatch => "pools_submit_batch"@,
            VkOp::PoolsFenceStatusBeginEntry => "pools_fence_status_begin_entry"@,
            VkOp::PoolsWaitFencesRetire => "pools_wait_fences_retire"@,
            VkOp::PoolsResetFencesRetire => "pools_reset_fences_retire"@,
            VkOp::PoolsWaitFencesEntry => "pools_wait_fences_entry"@,
            VkOp::PoolsWaitFencesDestroy => "pools_wait_fences_destroy"@,
            VkOp::Named(slug) => slug@,
        }
    }

    /// The name under which a failure of the call is reported.
    pub fn slug(self) -> (slug: &'static str)
        ensures
            slug@ == self.slug_text(),
    {
        match self {
            VkOp::PoolsCreateCommandPool => "pools_create_command_pool",
            VkOp::PoolsAllocCommandBuffers => "pools_alloc_command_buffers",
            VkOp::PoolsCreateFence => "pools_create_fence",
            VkOp::PoolsCreateStaging => "pools_create_staging",
            VkOp::PoolsBindStaging => "pools_bind_staging",
            VkOp::PoolsCreateGuestGather => "pools_create_guest_gather",
            VkOp::PoolsBindGuestGather => "pools_bind_guest_gather",
            VkOp::PoolsCreateReadback => "pools_create_readback",
            VkOp::PoolsAllocReadback => "pools_alloc_readback",
            VkOp::PoolsBindReadback => "pools_bind_readback",
            VkOp::PoolsMapReadback => "pools_map_readback",
            VkOp::PoolsCreateReadbackExtra => "pools_create_readback_extra",
            VkOp::PoolsAllocReadbackExtra => "pools_alloc_readback_extra",
            VkOp::PoolsBindReadbackExtra => "pools_bind_readback_extra",
            VkOp::PoolsMapReadbackExtra => "pools_map_readback_extra",
            VkOp::PoolsCreateTargetImage => "pools_create_target_image",
            VkOp::PoolsBindTarget => "pools_bind_target",
            VkOp::PoolsCreateTargetView => "pools_create_target_view",
            VkOp::PoolsCreateFramebuffer => "pools_create_framebuffer",
            VkOp::PoolsCreateSampledImage => "pools_create_sampled_image",
            VkOp::PoolsBindSampled => "pools_bind_sampled",
            VkOp::PoolsCreateSampledView => "pools_create_sampled_view",
            VkOp::PoolsEndCbBatch => "pools_end_cb_batch",
            VkOp::PoolsSubmitBatch => "pools_submit_batch",
            VkOp::PoolsFenceStatusBeginEntry => "pools_fence_status_begin_entry",
            VkOp::PoolsWaitFencesRetire => "pools_wait_fences_retire",
            VkOp::PoolsResetFencesRetire => "pools_reset_fences_retire",
            VkOp::PoolsWaitFencesEntry => "pools_wait_fences_entry",
            VkOp::PoolsWaitFencesDestroy => "pools_wait_fences_destroy",
            VkOp::Named(slug) => slug,
        }
    }
}

/// A driver call that failed.
#[derive(Clone, Copy, Debug, PartialEq, Eq)]
pub struct VkCall {
    /// The call.
    pub op: VkOp,
    /// What it returned.
    pub result: VkResult,
}

impl VkCall {
    /// The failure of `op` with `result`.
    pub fn new(op: VkOp, result: VkResult) -> (call: VkCall)
        ensures
            call == (VkCall { op, result }),
    {
        VkCall { op, result }
    }
}

/// A driver call that a lost device can answer.
#[derive(Clone, Copy, Debug, PartialEq, Eq)]
pub enum DeviceLostOp {
    /// Asking for the fence of a slot when one is claimed.
    PoolsFenceStatusBeginEntry,
    /// Submitting a batch.
    PoolsSubmitBatch,
    /// Waiting for one submission alone.
    PoolsWaitFencesEntry,
    /// Waiting for a slot that is taken back.
    PoolsWaitFencesRetire,
    /// A call that another part of the device makes.
    Named {
        /// The name under which the loss is reported.
        slug: &'static str,
        /// The call itself.
        vk_op: VkOp,
    },
}

impl DeviceLostOp {
    /// The name under which the loss is reported.
    pub open spec fn slug_text(self) -> Seq<char> {
        match self {
            DeviceLostOp::PoolsFenceStatusBeginEntry => "device_lost_pools_fence_status_begin_entry"@,
            DeviceLostOp::PoolsSubmitBatch => "device_lost_pools_submit_batch"@,
            DeviceLostOp::PoolsWaitFencesEntry => "device_lost_pools_wait_fences_entry"@,
            DeviceLostOp::PoolsWaitFencesRetire => "device_lost_pools_wait_fences_retire"@,
            DeviceLostOp::Named { slug, .. } => slug@,
        }
    }

    /// The call itself.
    pub open spec fn call(self) -> VkOp {
        match self {
            DeviceLostOp::PoolsFenceStatusBeginEntry => VkOp::PoolsFenceStatusBeginEntry,
            DeviceLostOp::PoolsSubmitBatch => VkOp::PoolsSubmitBatch,
            DeviceLostOp::PoolsWaitFencesEntry => VkOp::PoolsWaitFencesEntry,
            DeviceLostOp::PoolsWaitFencesRetire => VkOp::PoolsWaitFencesRetire,
            DeviceLostOp::Named { vk_op, .. } => vk_op,
        }
    }

    /// The name under which the loss is reported.
    pub fn slug(self) -> (slug: &'static str)
        ensures
            slug@ == self.slug_text(),
    {
        match self {
            DeviceLostOp::PoolsFenceStatusBeginEntry => "device_lost_pools_fence_status_begin_entry",
            DeviceLostOp::PoolsSubmitBatch => "device_lost_pools_submit_batch",
            DeviceLostOp::PoolsWaitFencesEntry => "device_lost_pools_wait_fences_entry",
            DeviceLostOp::PoolsWaitFencesRetire => "device_lost_pools_wait_fences_retire",
            DeviceLostOp::Named { slug, .. } => slug,
        }
    }

    /// The call itself.
    pub fn vk_op(self) -> (op: VkOp)
        ensures
            op == self.call(),
    {
        match self {
            DeviceLostOp::PoolsFenceStatusBeginEntry => VkOp::PoolsFenceStatusBeginEntry,
            DeviceLostOp::PoolsSubmitBatch => VkOp::PoolsSubmitBatch,
            DeviceLostOp::PoolsWaitFencesEntry => VkOp::PoolsWaitFencesEntry,
            DeviceLostOp::PoolsWaitFencesRetire => VkOp::PoolsWaitFencesRetire,
            DeviceLostOp::Named { vk_op, .. } => vk_op,
        }
    }
}

/// How the device was lost.
#[derive(Debug, PartialEq, Eq)]
pub enum DeviceLostDecline {
    /// The driver said so.
    Driver {
        op: DeviceLostOp,
        result: VkResult,
    },
    /// It was found lost elsewhere.
    Latched(Decline),
}

/// Why the device could not be set up.
#[derive(Debug, PartialEq, Eq)]
pub struct InitDecline {
    /// The refusal.
    pub decline: Decline,
    /// What the driver returned, where it was asked.
    pub vk_result: Option<VkResult>,
}

/// Why an encoder refused to take work.
#[derive(Debug, PartialEq, Eq)]
pub enum EngineFacadeDecline {
    /// A submission opened while another was open.
    EncoderSubmissionOverlap {
        active: SubmissionIdentity,
        incoming: SubmissionIdentity,
    },
    /// A submission closed that is not the open one.
    EncoderSubmissionCloseMismatch {
        active: SubmissionIdentity,
        closing: SubmissionIdentity,
    },
    /// Another refusal.
    Worded(Decline),
}

/// What a draw answers with when it makes no image.
#[derive(Debug, PartialEq, Eq)]
pub enum DrawError {
    /// The device could not be set up.
    Init(InitDecline),
    /// The device cannot do what the draw asks.
    Unsupported(DrawReason),
    /// The encoder refused the work.
    Facade(EngineFacadeDecline),
    /// The draw could not be prepared.
    DrawPreparation(Decline),
    /// The draw is malformed.
    DrawValidation(Decline),
    /// The draw could not be recorded.
    DrawExecution(Decline),
    /// The dispatch is malformed.
    ComputeValidation(Decline),
    /// The dispatch could not be recorded.
    ComputeExecution(Decline),
    /// A resident target could not be read.
    TargetRead(TargetReadDecline),
    /// The guest's pages could not be written.
    GuestPageWrite(Decline),
    /// A driver call failed.
    VkCall(VkCall),
    /// No slab could take the resource.
    Slab(Decline),
    /// A fence was not signalled in time.
    FenceTimeout,
    /// There is no recording point left to give.
    RecordingSequenceExhausted,
    /// The device is lost.
    DeviceLost(DeviceLostDecline),
}

/// A dispatch answers as a draw does.
pub type ComputeError = DrawError;

/// The left, top, width and height of a presented rectangle.
pub type PresentRect = (u32, u32, u32, u32);

impl EngineFacadeDecline {
    /// The name of the refusal.
    pub open spec fn slug_text(self) -> Seq<char> {
        match self {
            EngineFacadeDecline::EncoderSubmissionOverlap { .. } => "encoder_submission_overlap"@,
            EngineFacadeDecline::EncoderSubmissionCloseMismatch { .. } =>
                "encoder_submission_close_mismatch"@,
            EngineFacadeDecline::Worded(decline) => decline.slug@,
        }
    }

    /// The values that bear on the refusal.
    pub open spec fn fields_spec(self) -> Seq<(Seq<char>, Seq<char>)> {
        match self {
            EngineFacadeDecline::EncoderSubmissionOverlap { active, incoming } => seq![
                ("active"@, decimal(active.id as nat)),
                ("active_task"@, decimal(active.task as nat)),
                ("incoming"@, decimal(incoming.id as nat)),
                ("incoming_task"@, decimal(incoming.task as nat)),
            ],
            EngineFacadeDecline::EncoderSubmissionCloseMismatch { active, closing } => seq![
                ("active"@, decimal(active.id as nat)),
                ("active_task"@, decimal(active.task as nat)),
                ("closing"@, decimal(closing.id as nat)),
                ("closing_task"@, decimal(closing.task as nat)),
            ],
            EngineFacadeDecline::Worded(decline) => decline.text(),
        }
    }

    /// The name of the refusal.
    pub fn slug(&self) -> (slug: &'static str)
        ensures
            slug@ == self.slug_text(),
    {
        match self {
            EngineFacadeDecline::EncoderSubmissionOverlap { .. } => "encoder_submission_overlap",
            EngineFacadeDecline::EncoderSubmissionCloseMismatch { .. } =>
                "encoder_submission_close_mismatch",
            EngineFacadeDecline::Worded(decline) => decline.slug,
        }
    }

    /// The values that bear on the refusal.
    pub fn fields(&self) -> (fields: Vec<(&'static str, String)>)
        ensures
            fields_text(fields@) == self.fields_spec(),
    {
        let fields: Vec<(&'static str, String)> = match self {
            EngineFacadeDecline::EncoderSubmissionOverlap { active, incoming } => vec![
                ("active", decimal_text(active.id)),
                ("active_task", decimal_text(active.task as u64)),
                ("incoming", decimal_text(incoming.id)),
                ("incoming_task", decimal_text(incoming.task as u64)),
            ],
            EngineFacadeDecline::EncoderSubmissionCloseMismatch { active, closing } => vec![
                ("active", decimal_text(active.id)),
                ("active_task", decimal_text(active.task as u64)),
                ("closing", decimal_text(closing.id)),
                ("closing_task", decimal_text(closing.task as u64)),
            ],
            EngineFacadeDecline::Worded(decline) => copy_fields(&decline.fields),
        };
        assert(fields_text(fields@) =~= self.fields_spec());
        fields
    }
}

impl DeviceLostDecline {
    /// The name of the loss.
    pub open spec fn slug_text(self) -> Seq<char> {
        match self {
            DeviceLostDecline::Driver { op, .. } => op.slug_text(),
            DeviceLostDecline::Latched(decline) => decline.slug@,
        }
    }

    /// The values that bear on the loss.
    pub open spec fn fields_spec(self) -> Seq<(Seq<char>, Seq<char>)> {
        match self {
            DeviceLostDecline::Driver { result, .. } => seq![("result"@, vk_result_text(result.0))],
            DeviceLostDecline::Latched(decline) => decline.text(),
        }
    }

    /// The name of the loss.
    pub fn slug(&self) -> (slug: &'static str)
        ensures
            slug@ == self.slug_text(),
    {
        match self {
            DeviceLostDecline::Driver { op, .. } => op.slug(),
            DeviceLostDecline::Latched(decline) => decline.slug,
        }
    }

    /// The values that bear on the loss.
    pub fn fields(&self) -> (fields: Vec<(&'static str, String)>)
        ensures
            fields_text(fields@) == self.fields_spec(),
    {
        let fields: Vec<(&'static str, String)> = match self {
            DeviceLostDecline::Driver { result, .. } => vec![("result", show_vk_result(result.0))],
            DeviceLostDecline::Latched(decline) => copy_fields(&decline.fields),
        };
        assert(fields_text(fields@) =~= self.fields_spec());
        fields
    }
}

impl DrawError {
    /// The result code that the driver gave, where it was a driver call that
    /// failed.
    pub open spec fn driver_result(self) -> Option<VkResult> {
        match self {
            DrawError::VkCall(call) => Some(call.result),
            DrawError::Init(d) => d.vk_result,
            _ => None,
        }
    }

    /// The driver ran out of memory, the device's or the host's.
    pub open spec fn is_out_of_memory(self) -> bool {
        self.driver_result() == Some(VkResult(ERROR_OUT_OF_DEVICE_MEMORY)) || self.driver_result()
            == Some(VkResult(ERROR_OUT_OF_HOST_MEMORY))
    }

    /// Whether the driver ran out of memory.
    pub fn out_of_memory(&self) -> (out: bool)
        ensures
            out == self.is_out_of_memory(),
    {
        let result: Option<VkResult> = match self {
            DrawError::VkCall(call) => Some(call.result),
            DrawError::Init(d) => d.vk_result,
            _ => None,
        };
        match result {
            Some(code) => code.0 == ERROR_OUT_OF_DEVICE_MEMORY || code.0
                == ERROR_OUT_OF_HOST_MEMORY,
            None => false,
        }
    }

    /// The name of the error.
    pub open spec fn slug_text(self) -> Seq<char> {
        match self {
            DrawError::Init(d) => d.decline.slug@,
            DrawError::Unsupported(d) => d.slug_text(),
            DrawError::Facade(d) => d.slug_text(),
            DrawError::DrawPreparation(d) => d.slug@,
            DrawError::DrawValidation(d) => d.slug@,
            DrawError::DrawExecution(d) => d.slug@,
            DrawError::ComputeValidation(d) => d.slug@,
            DrawError::ComputeExecution(d) => d.slug@,
            DrawError::TargetRead(d) => d.slug_text(),
            DrawError::GuestPageWrite(d) => d.slug@,
            DrawError::VkCall(call) => call.op.slug_text(),
            DrawError::Slab(d) => d.slug@,
            DrawError::FenceTimeout => "vk_engine_fence_timeout"@,
            DrawError::RecordingSequenceExhausted => "vk_engine_recording_sequence_exhausted"@,
            DrawError::DeviceLost(d) => d.slug_text(),
        }
    }

    /// The values that bear on the error.
    pub open spec fn fields_spec(self) -> Seq<(Seq<char>, Seq<char>)> {
        match self {
            DrawError::Init(d) => d.decline.text(),
            DrawError::Unsupported(_) => seq![],
            DrawError::Facade(d) => d.fields_spec(),
            DrawError::DrawPreparation(d) => d.text(),
            DrawError::DrawValidation(d) => d.text(),
            DrawError::DrawExecution(d) => d.text(),
            DrawError::ComputeValidation(d) => d.text(),
            DrawError::ComputeExecution(d) => d.text(),
            DrawError::TargetRead(d) => d.fields_spec(),
            DrawError::GuestPageWrite(d) => d.text(),
            DrawError::VkCall(call) => seq![("result"@, vk_result_text(call.result.0))],
            DrawError::Slab(d) => d.text(),
            DrawError::FenceTimeout => seq![],
            DrawError::RecordingSequenceExhausted => seq![],
            DrawError::DeviceLost(d) => d.fields_spec(),
        }
    }

    /// The bit patterns of the numbers that the line shows, in order.
    pub open spec fn numbers_spec(self) -> Seq<u32> {
        match self {
            DrawError::Unsupported(reason) => reason.numbers_spec(),
            _ => seq![],
        }
    }

    /// The line that reports the error: what was under way, and why it stopped.
    pub open spec fn line_text(self, numbers: Seq<Seq<char>>) -> Seq<char> {
        match self {
            DrawError::Init(d) => "vk_engine_init: "@ + d.decline.line@,
            DrawError::Unsupported(reason) => "vk_engine_unsupported: "@ + reason.line_text(numbers),
            DrawError::Facade(d) => "vk_engine_facade: "@ + (match d {
                EngineFacadeDecline::Worded(decline) => decline.line@,
                _ => fields_line(d.slug_text(), d.fields_spec()),
            }),
            DrawError::DrawPreparation(d) => "vk_engine_draw_preparation: "@ + d.line@,
            DrawError::DrawValidation(d) => "vk_engine_draw_validation: "@ + d.line@,
            DrawError::DrawExecution(d) => "vk_engine_draw_execution: "@ + d.line@,
            DrawError::ComputeValidation(d) => "vk_engine_compute_validation: "@ + d.line@,
            DrawError::ComputeExecution(d) => "vk_engine_compute_execution: "@ + d.line@,
            DrawError::TargetRead(d) => "vk_engine_target_read: "@ + ("reason="@ + d.slug_text()),
            DrawError::GuestPageWrite(d) => "vk_engine_guest_page_write: "@ + d.line@,
            DrawError::VkCall(_) => "vk_engine_vk: "@ + fields_line(
                self.slug_text(),
                self.fields_spec(),
            ),
            DrawError::Slab(d) => "vk_engine_slab: "@ + d.line@,
            DrawError::FenceTimeout => "vk_engine_fence_timeout"@,
            DrawError::RecordingSequenceExhausted => "vk_engine_recording_sequence_exhausted"@,
            DrawError::DeviceLost(d) => "vk_engine_device_lost: "@ + (match d {
                DeviceLostDecline::Latched(decline) => decline.line@,
                _ => fields_line(d.slug_text(), d.fields_spec()),
            }),
        }
    }

    /// The name of the error.
    pub fn slug(&self) -> (slug: &'static str)
        ensures
            slug@ == self.slug_text(),
    {
        match self {
            DrawError::Init(d) => d.decline.slug,
            DrawError::Unsupported(d) => d.slug(),
            DrawError::Facade(d) => d.slug(),
            DrawError::DrawPreparation(d) => d.slug,
            DrawError::DrawValidation(d) => d.slug,
            DrawError::DrawExecution(d) => d.slug,
            DrawError::ComputeValidation(d) => d.slug,
            DrawError::ComputeExecution(d) => d.slug,
            DrawError::TargetRead(d) => d.slug(),
            DrawError::GuestPageWrite(d) => d.slug,
            DrawError::VkCall(call) => call.op.slug(),
            DrawError::Slab(d) => d.slug,
            DrawError::FenceTimeout => "vk_engine_fence_timeout",
            DrawError::RecordingSequenceExhausted => "vk_engine_recording_sequence_exhausted",
            DrawError::DeviceLost(d) => d.slug(),
        }
    }

    /// The values that bear on the error.
    pub fn fields(&self) -> (fields: Vec<(&'static str, String)>)
        ensures
            fields_text(fields@) == self.fields_spec(),
    {
        let fields: Vec<(&'static str, String)> = match self {
            DrawError::Init(d) => copy_fields(&d.decline.fields),
            DrawError::Unsupported(d) => d.fields(),
            DrawError::Facade(d) => d.fields(),
            DrawError::DrawPreparation(d) => copy_fields(&d.fields),
            DrawError::DrawValidation(d) => copy_fields(&d.fields),
            DrawError::DrawExecution(d) => copy_fields(&d.fields),
            DrawError::ComputeValidation(d) => copy_fields(&d.fields),
            DrawError::ComputeExecution(d) => copy_fields(&d.fields),
            DrawError::TargetRead(d) => d.fields(),
            DrawError::GuestPageWrite(d) => copy_fields(&d.fields),
            DrawError::VkCall(call) => vec![("result", show_vk_result(call.result.0))],
            DrawError::Slab(d) => copy_fields(&d.fields),
            DrawError::FenceTimeout => Vec::new(),
            DrawError::RecordingSequenceExhausted => Vec::new(),
            DrawError::DeviceLost(d) => d.fields(),
        };
        assert(fields_text(fields@) =~= self.fields_spec());
        fields
    }

    /// The bit patterns of the numbers that the line shows, in order.
    pub fn numbers(&self) -> (bits: Vec<u32>)
        ensures
            bits@ == self.numbers_spec(),
    {
        match self {
            DrawError::Unsupported(reason) => reason.numbers(),
            _ => Vec::new(),
        }
    }

    /// The line that reports the error. `numbers` is the decimal text of each
    /// number that it shows.
    pub fn line(&self, numbers: &[String]) -> (line: String)
        requires
            numbers@.len() == self.numbers_spec().len(),
        ensures
            line@ == self.line_text(numbers@.map_values(|text: String| text@)),
    {
        let mut line = owned(match self {
            DrawError::Init(_) => "vk_engine_init: ",
            DrawError::Unsupported(_) => "vk_engine_unsupported: ",
            DrawError::Facade(_) => "vk_engine_facade: ",
            DrawError::DrawPreparation(_) => "vk_engine_draw_preparation: ",
            DrawError::DrawValidation(_) => "vk_engine_draw_validation: ",
            DrawError::DrawExecution(_) => "vk_engine_draw_execution: ",
            DrawError::ComputeValidation(_) => "vk_engine_compute_validation: ",
            DrawError::ComputeExecution(_) => "vk_engine_compute_execution: ",
            DrawError::TargetRead(_) => "vk_engine_target_read: ",
            DrawError::GuestPageWrite(_) => "vk_engine_guest_page_write: ",
            DrawError::VkCall(_) => "vk_engine_vk: ",
            DrawError::Slab(_) => "vk_engine_slab: ",
            DrawError::FenceTimeout => "vk_engine_fence_timeout",
            DrawError::RecordingSequenceExhausted => "vk_engine_recording_sequence_exhausted",
            DrawError::DeviceLost(_) => "vk_engine_device_lost: ",
        });
        match self {
            DrawError::Init(d) => append_text(&mut line, d.decline.line.as_str()),
            DrawError::Unsupported(reason) => {
                let tail = reason.line(numbers);
                append_text(&mut line, tail.as_str());
            },
            DrawError::Facade(d) => match d {
                EngineFacadeDecline::Worded(decline) => append_text(&mut line, decline.line.as_str()),
                _ => {
                    let tail = line_of(d.slug(), &d.fields());
                    append_text(&mut line, tail.as_str());
                },
            },
            DrawError::DrawPreparation(d) => append_text(&mut line, d.line.as_str()),
            DrawError::DrawValidation(d) => append_text(&mut line, d.line.as_str()),
            DrawError::DrawExecution(d) => append_text(&mut line, d.line.as_str()),
            DrawError::ComputeValidation(d) => append_text(&mut line, d.line.as_str()),
            DrawError::ComputeExecution(d) => append_text(&mut line, d.line.as_str()),
            DrawError::TargetRead(d) => {
                let tail = d.line();
                append_text(&mut line, tail.as_str());
            },
            DrawError::GuestPageWrite(d) => append_text(&mut line, d.line.as_str()),
            DrawError::VkCall(_) => {
                let tail = line_of(self.slug(), &self.fields());
                append_text(&mut line, tail.as_str());
            },
            DrawError::Slab(d) => append_text(&mut line, d.line.as_str()),
            DrawError::FenceTimeout => {},
            DrawError::RecordingSequenceExhausted => {},
            DrawError::DeviceLost(d) => match d {
                DeviceLostDecline::Latched(decline) => append_text(&mut line, decline.line.as_str()),
                _ => {
                    let tail = line_of(d.slug(), &d.fields());
                    append_text(&mut line, tail.as_str());
                },
            },
        }
        line
    }
}

/// How a texel is chosen between its neighbours.
#[derive(Clone, Copy, Debug, PartialEq, Eq, Structural)]
pub enum SamplerFilter {
    Nearest,
    Linear,
}

/// How a mip level is chosen.
#[derive(Clone, Copy, Debug, PartialEq, Eq, Structural)]
pub enum SamplerMipFilter {
    NotMipmapped,
    Nearest,
    Linear,
}

/// What lies outside the image.
#[derive(Clone, Copy, Debug, PartialEq, Eq, Structural)]
pub enum SamplerAddressMode {
    ClampToEdge,
    MirrorClampToEdge,
    Repeat,
    MirrorRepeat,
    ClampToZero,
    ClampToBorderColor,
}

/// The colour beyond the border.
#[derive(Clone, Copy, Debug, PartialEq, Eq, Structural)]
pub enum SamplerBorderColor {
    TransparentBlack,
    OpaqueBlack,
    OpaqueWhite,
}

/// The comparison that a sampler makes.
#[derive(Clone, Copy, Debug, PartialEq, Eq, Structural)]
pub enum SamplerCompareFunction {
    Never,
    Less,
    Equal,
    LessEqual,
    Greater,
    NotEqual,
    GreaterEqual,
    Always,
}

/// A sampler as a draw binds it. The LOD clamps are bit patterns of
/// single-precision numbers.
#[derive(Clone, Copy, Debug, PartialEq, Eq, Structural)]
pub struct SamplerResource {
    /// Where the sampler is bound.
    pub binding: u32,
    pub min_filter: SamplerFilter,
    pub mag_filter: SamplerFilter,
    pub mip_filter: SamplerMipFilter,
    pub address_mode_u: SamplerAddressMode,
    pub address_mode_v: SamplerAddressMode,
    pub address_mode_w: SamplerAddressMode,
    pub border_color: SamplerBorderColor,
    pub compare_function: SamplerCompareFunction,
    pub lod_min: u32,
    pub lod_max: u32,
    pub max_anisotropy: u32,
    pub unnormalized_coordinates: bool,
}

/// The state of a sampler apart from where it is bound.
#[derive(Clone, Copy, Debug, PartialEq, Eq, Structural)]
pub struct SamplerStateKey {
    pub min_filter: SamplerFilter,
    pub mag_filter: SamplerFilter,
    pub mip_filter: SamplerMipFilter,
    pub address_mode_u: SamplerAddressMode,
    pub address_mode_v: SamplerAddressMode,
    pub address_mode_w: SamplerAddressMode,
    pub border_color: SamplerBorderColor,
    pub compare_function: SamplerCompareFunction,
    pub lod_min: u32,
    pub lod_max: u32,
    pub max_anisotropy: u32,
    pub unnormalized_coordinates: bool,
}

/// Zero, as the bit pattern of a single-precision number.
pub const LOD_ZERO: u32 = 0;

/// The state of a sampler apart from where it is bound.
pub open spec fn state_of(sampler: SamplerResource) -> SamplerStateKey {
    SamplerStateKey {
        min_filter: sampler.min_filter,
        mag_filter: sampler.mag_filter,
        mip_filter: sampler.mip_filter,
        address_mode_u: sampler.address_mode_u,
        address_mode_v: sampler.address_mode_v,
        address_mode_w: sampler.address_mode_w,
        border_color: sampler.border_color,
        compare_function: sampler.compare_function,
        lod_min: sampler.lod_min,
        lod_max: sampler.lod_max,
        max_anisotropy: sampler.max_anisotropy,
        unnormalized_coordinates: sampler.unnormalized_coordinates,
    }
}

/// The state of a sampler apart from where it is bound.
pub fn sampler_state_key(sampler: &SamplerResource) -> (key: SamplerStateKey)
    ensures
        key == state_of(*sampler),
{
    SamplerStateKey {
        min_filter: sampler.min_filter,
        mag_filter: sampler.mag_filter,
        mip_filter: sampler.mip_filter,
        address_mode_u: sampler.address_mode_u,
        address_mode_v: sampler.address_mode_v,
        address_mode_w: sampler.address_mode_w,
        border_color: sampler.border_color,
        compare_function: sampler.compare_function,
        lod_min: sampler.lod_min,
        lod_max: sampler.lod_max,
        max_anisotropy: sampler.max_anisotropy,
        unnormalized_coordinates: sampler.unnormalized_coordinates,
    }
}

/// The address mode stays at the edge or beyond it, and never wraps.
pub open spec fn clamps(mode: SamplerAddressMode) -> bool {
    mode is ClampToEdge || mode is ClampToZero || mode is ClampToBorderColor
}

/// Why a sampler in pixel coordinates cannot be kept, if it cannot. The first
/// cause in this order is the one reported.
pub open spec fn pixel_refusal(key: SamplerStateKey) -> Option<DrawReason> {
    if key.min_filter != key.mag_filter {
        Some(DrawReason::SamplerPixelMixedFilters)
    } else if !(key.mip_filter is NotMipmapped) {
        Some(DrawReason::SamplerPixelMipmapped)
    } else if !clamps(key.address_mode_u) || !clamps(key.address_mode_v) {
        Some(DrawReason::SamplerPixelAddressMode)
    } else if key.max_anisotropy != 1 {
        Some(DrawReason::SamplerPixelAnisotropy)
    } else if !(key.compare_function is Never) {
        Some(DrawReason::SamplerUnnormalizedCompare)
    } else {
        None
    }
}

/// The state that the device is given for `key`.
///
/// In normalised coordinates every state stands as it is. In pixel coordinates
/// there is one mip level, so the LOD clamps have no meaning and become zero,
/// and whatever the device cannot do there is refused.
pub open spec fn effective(key: SamplerStateKey) -> Result<SamplerStateKey, DrawReason> {
    if !key.unnormalized_coordinates {
        Ok(key)
    } else {
        match pixel_refusal(key) {
            Some(reason) => Err(reason),
            None => Ok(SamplerStateKey { lod_min: LOD_ZERO, lod_max: LOD_ZERO, ..key }),
        }
    }
}

/// The state that the device is given for a sampler.
pub fn effective_sampler_state(sampler: &SamplerResource) -> (state: Result<
    SamplerStateKey,
    DrawReason,
>)
    ensures
        state == effective(state_of(*sampler)),
{
    effective_sampler_state_key(sampler_state_key(sampler))
}

/// Whether the address mode never wraps.
fn clamps_exec(mode: SamplerAddressMode) -> (clamped: bool)
    ensures
        clamped == clamps(mode),
{
    matches!(
        mode,
        SamplerAddressMode::ClampToEdge | SamplerAddressMode::ClampToZero
            | SamplerAddressMode::ClampToBorderColor
    )
}

/// The state that the device is given for the sampler state `key`.
pub fn effective_sampler_state_key(key: SamplerStateKey) -> (state: Result<
    SamplerStateKey,
    DrawReason,
>)
    ensures
        state == effective(key),
{
    if !key.unnormalized_coordinates {
        return Ok(key);
    }
    if key.min_filter != key.mag_filter {
        return Err(DrawReason::SamplerPixelMixedFilters);
    }
    if key.mip_filter != SamplerMipFilter::NotMipmapped {
        return Err(DrawReason::SamplerPixelMipmapped);
    }
    if !clamps_exec(key.address_mode_u) || !clamps_exec(key.address_mode_v) {
        return Err(DrawReason::SamplerPixelAddressMode);
    }
    if key.max_anisotropy != 1 {
        return Err(DrawReason::SamplerPixelAnisotropy);
    }
    if key.compare_function != SamplerCompareFunction::Never {
        return Err(DrawReason::SamplerUnnormalizedCompare);
    }
    Ok(SamplerStateKey { lod_min: LOD_ZERO, lod_max: LOD_ZERO, ..key })
}

/// Two samplers that differ only in where they are bound have one state.
pub proof fn law_binding_is_no_part_of_the_state(a: SamplerResource, b: SamplerResource)
    ensures
        state_of(a) == state_of(b) <==> a == (SamplerResource { binding: a.binding, ..b }),
{
}

/// What the device is given differs from what was asked in nothing but the LOD
/// clamps of a sampler in pixel coordinates.
pub proof fn law_only_idle_lod_clamps_change(key: SamplerStateKey)
    requires
        effective(key) is Ok,
    ensures
        (SamplerStateKey {
            lod_min: key.lod_min,
            lod_max: key.lod_max,
            ..effective(key)->Ok_0
        }) == key,
        !key.unnormalized_coordinates ==> effective(key)->Ok_0 == key,
        effective(effective(key)->Ok_0) == effective(key),
{
}

/// What a blend multiplies a colour by.
#[derive(Clone, Copy, Debug, PartialEq, Eq, Structural)]
pub enum BlendFactor {
    Zero,
    One,
    SourceColor,
    OneMinusSourceColor,
    SourceAlpha,
    OneMinusSourceAlpha,
    DestinationColor,
    OneMinusDestinationColor,
    DestinationAlpha,
    OneMinusDestinationAlpha,
    SourceAlphaSaturated,
    BlendColor,
    OneMinusBlendColor,
    BlendAlpha,
    OneMinusBlendAlpha,
    Source1Color,
    OneMinusSource1Color,
    Source1Alpha,
    OneMinusSource1Alpha,
}

impl BlendFactor {
    /// The factor reads the blend constants.
    pub open spec fn reads_constant(self) -> bool {
        self is BlendColor || self is OneMinusBlendColor || self is BlendAlpha
            || self is OneMinusBlendAlpha
    }

    /// Whether the factor reads the blend constants.
    pub fn uses_blend_constant(self) -> (uses: bool)
        ensures
            uses == self.reads_constant(),
    {
        matches!(
            self,
            BlendFactor::BlendColor | BlendFactor::OneMinusBlendColor | BlendFactor::BlendAlpha
                | BlendFactor::OneMinusBlendAlpha
        )
    }
}

/// How a blend combines its two sides.
#[derive(Clone, Copy, Debug, PartialEq, Eq, Structural)]
pub enum BlendOp {
    Add,
    Subtract,
    ReverseSubtract,
    Min,
    Max,
}

/// The blend state of an attachment as a draw gives it.
#[derive(Clone, Copy, Debug, PartialEq, Eq, Structural)]
pub struct BlendStateResource {
    pub src_color: BlendFactor,
    pub dst_color: BlendFactor,
    pub color_op: BlendOp,
    pub src_alpha: BlendFactor,
    pub dst_alpha: BlendFactor,
    pub alpha_op: BlendOp,
}

/// The part of the blend state that a pipeline holds.
#[derive(Clone, Copy, Debug, PartialEq, Eq, Structural)]
pub struct BlendKey {
    pub src_color: BlendFactor,
    pub dst_color: BlendFactor,
    pub color_op: BlendOp,
    pub src_alpha: BlendFactor,
    pub dst_alpha: BlendFactor,
    pub alpha_op: BlendOp,
}

impl BlendKey {
    /// Whether any of the four factors reads the blend constants.
    pub fn uses_constants(self) -> (uses: bool)
        ensures
            uses <==> (self.src_color.reads_constant() || self.dst_color.reads_constant()
                || self.src_alpha.reads_constant() || self.dst_alpha.reads_constant()),
    {
        self.src_color.uses_blend_constant() || self.dst_color.uses_blend_constant()
            || self.src_alpha.uses_blend_constant() || self.dst_alpha.uses_blend_constant()
    }
}

/// The part of the blend state that a pipeline holds.
pub fn blend_key(blend: &BlendStateResource) -> (key: BlendKey)
    ensures
        key == (BlendKey {
            src_color: blend.src_color,
            dst_color: blend.dst_color,
            color_op: blend.color_op,
            src_alpha: blend.src_alpha,
            dst_alpha: blend.dst_alpha,
            alpha_op: blend.alpha_op,
        }),
{
    BlendKey {
        src_color: blend.src_color,
        dst_color: blend.dst_color,
        color_op: blend.color_op,
        src_alpha: blend.src_alpha,
        dst_alpha: blend.dst_alpha,
        alpha_op: blend.alpha_op,
    }
}

/// The call that lost the device is the one that was made.
pub proof fn law_a_lost_call_is_the_call_made(slug: &'static str, vk_op: VkOp)
    ensures
        DeviceLostOp::PoolsFenceStatusBeginEntry.call() is PoolsFenceStatusBeginEntry,
        DeviceLostOp::PoolsSubmitBatch.call() is PoolsSubmitBatch,
        DeviceLostOp::PoolsWaitFencesEntry.call() is PoolsWaitFencesEntry,
        DeviceLostOp::PoolsWaitFencesRetire.call() is PoolsWaitFencesRetire,
        (DeviceLostOp::Named { slug, vk_op }).call() == vk_op,
{
}

/// Only an error of a driver call has the driver's result, and it is out of memory exactly
/// where the driver said so, of the host's or of the device's.
pub proof fn law_out_of_memory_is_the_drivers_word(error: DrawError)
    ensures
        error matches DrawError::VkCall(call) ==> error.driver_result() == Some(call.result),
        error matches DrawError::Init(d) ==> error.driver_result() == d.vk_result,
        !(error is VkCall) && !(error is Init) ==> error.driver_result() is None
            && !error.is_out_of_memory(),
        error.is_out_of_memory() <==> (error.driver_result() matches Some(result) && (result.0 == -1
            || result.0 == -2)),
{
}

/// A sampler in pixel coordinates is kept exactly where it has one filter, no mip levels, no
/// wrapping, no anisotropy and no comparison; what is told is something it has.
pub proof fn law_a_pixel_sampler_is_refused_for_what_it_has(key: SamplerStateKey)
    ensures
        pixel_refusal(key) is None <==> {
            &&& key.min_filter == key.mag_filter
            &&& key.mip_filter is NotMipmapped
            &&& key.address_mode_u is ClampToEdge || key.address_mode_u is ClampToZero
                || key.address_mode_u is ClampToBorderColor
            &&& key.address_mode_v is ClampToEdge || key.address_mode_v is ClampToZero
                || key.address_mode_v is ClampToBorderColor
            &&& key.max_anisotropy == 1
            &&& key.compare_function is Never
        },
        match pixel_refusal(key) {
            None => true,
            Some(DrawReason::SamplerPixelMixedFilters) => key.min_filter != key.mag_filter,
            Some(DrawReason::SamplerPixelMipmapped) => !(key.mip_filter is NotMipmapped),
            Some(DrawReason::SamplerPixelAddressMode) => !clamps(key.address_mode_u) || !clamps(
                key.address_mode_v,
            ),
            Some(DrawReason::SamplerPixelAnisotropy) => key.max_anisotropy != 1,
            Some(DrawReason::SamplerUnnormalizedCompare) => !(key.compare_function is Never),
            _ => false,
        },
        effective(key) is Ok <==> !key.unnormalized_coordinates || pixel_refusal(key) is None,
        effective(key) matches Err(reason) ==> pixel_refusal(key) == Some(reason),
        key.unnormalized_coordinates ==> (effective(key) matches Ok(given) ==> given.lod_min
            == LOD_ZERO && given.lod_max == LOD_ZERO),
{
}

/// An address mode that clamps is one of the three that never wrap.
pub proof fn law_clamping_never_wraps(mode: SamplerAddressMode)
    ensures
        clamps(mode) <==> mode is ClampToEdge || mode is ClampToZero || mode is ClampToBorderColor,
{
}

/// A blend factor reads the constants exactly where it is made of them.
pub proof fn law_constant_factors_read_the_constants(factor: BlendFactor)
    ensures
        factor.reads_constant() <==> factor is BlendColor || factor is OneMinusBlendColor
            || factor is BlendAlpha || factor is OneMinusBlendAlpha,
{
}

/// The state of a sampler is its filters, its address modes by axis, its border, its
/// comparison, its levels and its coordinates, each as it is.
pub proof fn law_a_samplers_state_is_its_own(sampler: SamplerResource)
    ensures
        ({
            let key = state_of(sampler);
            &&& key.min_filter == sampler.min_filter
            &&& key.mag_filter == sampler.mag_filter
            &&& key.mip_filter == sampler.mip_filter
            &&& key.address_mode_u == sampler.address_mode_u
            &&& key.address_mode_v == sampler.address_mode_v
            &&& key.address_mode_w == sampler.address_mode_w
            &&& key.border_color == sampler.border_color
            &&& key.compare_function == sampler.compare_function
            &&& key.lod_min == sampler.lod_min
            &&& key.lod_max == sampler.lod_max
            &&& key.max_anisotropy == sampler.max_anisotropy
            &&& key.unnormalized_coordinates == sampler.unnormalized_coordinates
        }),
{
}

/// A call that lost the device is told by its own word behind that of the loss.
pub proof fn law_a_loss_is_told_with_its_call(op: DeviceLostOp)
    ensures
        op matches DeviceLostOp::Named { slug, .. } ==> op.slug_text() == slug@,
        !(op is Named) ==> op.slug_text() == "device_lost_"@ + op.call().slug_text(),
{
    reveal_strlit("device_lost_");
    if op is PoolsFenceStatusBeginEntry {
        reveal_strlit("device_lost_pools_fence_status_begin_entry");
        reveal_strlit("pools_fence_status_begin_entry");
        assert(op.slug_text() =~= "device_lost_"@ + op.call().slug_text());
    }
    if op is PoolsSubmitBatch {
        reveal_strlit("device_lost_pools_submit_batch");
        reveal_strlit("pools_submit_batch");
        assert(op.slug_text() =~= "device_lost_"@ + op.call().slug_text());
    }
    if op is PoolsWaitFencesEntry {
        reveal_strlit("device_lost_pools_wait_fences_entry");
        reveal_strlit("pools_wait_fences_entry");
        assert(op.slug_text() =~= "device_lost_"@ + op.call().slug_text());
    }
    if op is PoolsWaitFencesRetire {
        reveal_strlit("device_lost_pools_wait_fences_retire");
        reveal_strlit("pools_wait_fences_retire");
        assert(op.slug_text() =~= "device_lost_"@ + op.call().slug_text());
    }
}

/// A line names what was under way and then tells why it stopped, as the one who refused
/// told it.
pub proof fn law_a_line_names_what_was_under_way(error: DrawError, numbers: Seq<Seq<char>>)
    ensures
        match error {
            DrawError::Init(d) => error.line_text(numbers) == "vk_engine_init: "@ + d.decline.line@
                && error.slug_text() == d.decline.slug@,
            DrawError::Unsupported(d) => error.line_text(numbers) == "vk_engine_unsupported: "@
                + d.line_text(numbers) && error.slug_text() == d.slug_text(),
            DrawError::Facade(EngineFacadeDecline::Worded(d)) => error.line_text(numbers)
                == "vk_engine_facade: "@ + d.line@ && error.slug_text() == d.slug@,
            DrawError::Facade(d) => error.line_text(numbers) == "vk_engine_facade: "@ + fields_line(
                d.slug_text(),
                d.fields_spec(),
            ) && error.slug_text() == d.slug_text(),
            DrawError::DrawPreparation(d) => error.line_text(numbers)
                == "vk_engine_draw_preparation: "@ + d.line@ && error.slug_text() == d.slug@,
            DrawError::DrawValidation(d) => error.line_text(numbers)
                == "vk_engine_draw_validation: "@ + d.line@ && error.slug_text() == d.slug@,
            DrawError::DrawExecution(d) => error.line_text(numbers)
                == "vk_engine_draw_execution: "@ + d.line@ && error.slug_text() == d.slug@,
            DrawError::ComputeValidation(d) => error.line_text(numbers)
                == "vk_engine_compute_validation: "@ + d.line@ && error.slug_text() == d.slug@,
            DrawError::ComputeExecution(d) => error.line_text(numbers)
                == "vk_engine_compute_execution: "@ + d.line@ && error.slug_text() == d.slug@,
            DrawError::TargetRead(d) => error.line_text(numbers) == "vk_engine_target_read: "@ + (
            "reason="@ + d.slug_text()) && error.slug_text() == d.slug_text(),
            DrawError::GuestPageWrite(d) => error.line_text(numbers)
                == "vk_engine_guest_page_write: "@ + d.line@ && error.slug_text() == d.slug@,
            DrawError::VkCall(call) => error.line_text(numbers) == "vk_engine_vk: "@ + fields_line(
                call.op.slug_text(),
                error.fields_spec(),
            ) && error.slug_text() == call.op.slug_text(),
            DrawError::Slab(d) => error.line_text(numbers) == "vk_engine_slab: "@ + d.line@
                && error.slug_text() == d.slug@,
            DrawError::FenceTimeout => error.line_text(numbers) == "vk_engine_fence_timeout"@
                && error.slug_text() == "vk_engine_fence_timeout"@,
            DrawError::RecordingSequenceExhausted => error.line_text(numbers)
                == "vk_engine_recording_sequence_exhausted"@ && error.slug_text()
                == "vk_engine_recording_sequence_exhausted"@,
            DrawError::DeviceLost(DeviceLostDecline::Latched(d)) => error.line_text(numbers)
                == "vk_engine_device_lost: "@ + d.line@ && error.slug_text() == d.slug@,
            DrawError::DeviceLost(d) => error.line_text(numbers) == "vk_engine_device_lost: "@
                + fields_line(d.slug_text(), d.fields_spec()) && error.slug_text() == d.slug_text(),
        },
{
}

/// A refused encoder tells both recordings, and which way they clashed.
pub proof fn law_a_clash_of_recordings_has_its_word(decline: EngineFacadeDecline)
    ensures
        decline is EncoderSubmissionOverlap ==> decline.slug_text()
            == "encoder_submission_overlap"@,
        decline is EncoderSubmissionCloseMismatch ==> decline.slug_text()
            == "encoder_submission_close_mismatch"@,
        decline matches EngineFacadeDecline::Worded(worded) ==> decline.slug_text() == worded.slug@,
{
}

/// Every call of the driver is told by its own word.
pub proof fn law_every_call_has_its_word(call: VkOp)
    ensures
        call is PoolsCreateCommandPool ==> call.slug_text() == "pools_create_command_pool"@,
        call is PoolsAllocCommandBuffers ==> call.slug_text() == "pools_alloc_command_buffers"@,
        call is PoolsCreateFence ==> call.slug_text() == "pools_create_fence"@,
        call is PoolsCreateStaging ==> call.slug_text() == "pools_create_staging"@,
        call is PoolsBindStaging ==> call.slug_text() == "pools_bind_staging"@,
        call is PoolsCreateGuestGather ==> call.slug_text() == "pools_create_guest_gather"@,
        call is PoolsBindGuestGather ==> call.slug_text() == "pools_bind_guest_gather"@,
        call is PoolsCreateReadback ==> call.slug_text() == "pools_create_readback"@,
        call is PoolsAllocReadback ==> call.slug_text() == "pools_alloc_readback"@,
        call is PoolsBindReadback ==> call.slug_text() == "pools_bind_readback"@,
        call is PoolsMapReadback ==> call.slug_text() == "pools_map_readback"@,
        call is PoolsCreateReadbackExtra ==> call.slug_text() == "pools_create_readback_extra"@,
        call is PoolsAllocReadbackExtra ==> call.slug_text() == "pools_alloc_readback_extra"@,
        call is PoolsBindReadbackExtra ==> call.slug_text() == "pools_bind_readback_extra"@,
        call is PoolsMapReadbackExtra ==> call.slug_text() == "pools_map_readback_extra"@,
        call is PoolsCreateTargetImage ==> call.slug_text() == "pools_create_target_image"@,
        call is PoolsBindTarget ==> call.slug_text() == "pools_bind_target"@,
        call is PoolsCreateTargetView ==> call.slug_text() == "pools_create_target_view"@,
        call is PoolsCreateFramebuffer ==> call.slug_text() == "pools_create_framebuffer"@,
        call is PoolsCreateSampledImage ==> call.slug_text() == "pools_create_sampled_image"@,
        call is PoolsBindSampled ==> call.slug_text() == "pools_bind_sampled"@,
        call is PoolsCreateSampledView ==> call.slug_text() == "pools_create_sampled_view"@,
        call is PoolsEndCbBatch ==> call.slug_text() == "pools_end_cb_batch"@,
        call is PoolsSubmitBatch ==> call.slug_text() == "pools_submit_batch"@,
        call is PoolsFenceStatusBeginEntry ==> call.slug_text()
            == "pools_fence_status_begin_entry"@,
        call is PoolsWaitFencesRetire ==> call.slug_text() == "pools_wait_fences_retire"@,
        call is PoolsResetFencesRetire ==> call.slug_text() == "pools_reset_fences_retire"@,
        call is PoolsWaitFencesEntry ==> call.slug_text() == "pools_wait_fences_entry"@,
        call is PoolsWaitFencesDestroy ==> call.slug_text() == "pools_wait_fences_destroy"@,
{
}

/// Every error is told by its own word.
pub proof fn law_every_error_has_its_word(error: DrawError)
    ensures
        error is FenceTimeout ==> error.slug_text() == "vk_engine_fence_timeout"@,
        error is RecordingSequenceExhausted ==> error.slug_text()
            == "vk_engine_recording_sequence_exhausted"@,
{
}

} // verus!
