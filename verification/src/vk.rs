//! Raw values of the Vulkan objects and codes that the policy carries around.
//!
//! A handle is the 64-bit value the driver gave out; zero is the null handle.

use vstd::prelude::*;

verus! {

/// A command buffer.
#[derive(Clone, Copy, Debug, PartialEq, Eq, Structural)]
pub struct CommandBuffer(pub u64);

/// A fence.
#[derive(Clone, Copy, Debug, PartialEq, Eq, Structural)]
pub struct Fence(pub u64);

/// A semaphore.
#[derive(Clone, Copy, Debug, PartialEq, Eq, Structural)]
pub struct Semaphore(pub u64);

/// A buffer.
#[derive(Clone, Copy, Debug, PartialEq, Eq, Structural)]
pub struct Buffer(pub u64);

/// An allocation of device memory.
#[derive(Clone, Copy, Debug, PartialEq, Eq, Structural)]
pub struct DeviceMemory(pub u64);

/// An image.
#[derive(Clone, Copy, Debug, PartialEq, Eq, Structural)]
pub struct Image(pub u64);

/// A view of an image.
#[derive(Clone, Copy, Debug, PartialEq, Eq, Structural)]
pub struct ImageView(pub u64);

/// A framebuffer.
#[derive(Clone, Copy, Debug, PartialEq, Eq, Structural)]
pub struct Framebuffer(pub u64);

/// A render pass.
#[derive(Clone, Copy, Debug, PartialEq, Eq, Structural)]
pub struct RenderPass(pub u64);

/// A descriptor set.
#[derive(Clone, Copy, Debug, PartialEq, Eq, Structural)]
pub struct DescriptorSet(pub u64);

/// A descriptor pool.
#[derive(Clone, Copy, Debug, PartialEq, Eq, Structural)]
pub struct DescriptorPool(pub u64);

/// A pipeline.
#[derive(Clone, Copy, Debug, PartialEq, Eq, Structural)]
pub struct Pipeline(pub u64);

/// A pipeline layout.
#[derive(Clone, Copy, Debug, PartialEq, Eq, Structural)]
pub struct PipelineLayout(pub u64);

/// A command pool.
#[derive(Clone, Copy, Debug, PartialEq, Eq, Structural)]
pub struct CommandPool(pub u64);

/// A query pool.
#[derive(Clone, Copy, Debug, PartialEq, Eq, Structural)]
pub struct QueryPool(pub u64);

/// A swapchain.
#[derive(Clone, Copy, Debug, PartialEq, Eq, Structural)]
pub struct Swapchain(pub u64);

/// A set of pipeline stages, as the bits of `VkPipelineStageFlags`.
#[derive(Clone, Copy, Debug, PartialEq, Eq, Structural)]
pub struct PipelineStageFlags(pub u32);

/// A texel format, as its `VkFormat` value.
#[derive(Clone, Copy, Debug, PartialEq, Eq, Structural)]
pub struct Format(pub i32);

/// A Vulkan result code.
#[derive(Clone, Copy, Debug, PartialEq, Eq, Structural)]
pub struct VkResult(pub i32);

/// `VK_TIMEOUT`.
pub const TIMEOUT: i32 = 2;

/// `VK_ERROR_OUT_OF_HOST_MEMORY`.
pub const ERROR_OUT_OF_HOST_MEMORY: i32 = -1;

/// `VK_ERROR_OUT_OF_DEVICE_MEMORY`.
pub const ERROR_OUT_OF_DEVICE_MEMORY: i32 = -2;

/// `VK_ERROR_DEVICE_LOST`.
pub const ERROR_DEVICE_LOST: i32 = -4;

/// `VK_ERROR_FORMAT_NOT_SUPPORTED`.
pub const ERROR_FORMAT_NOT_SUPPORTED: i32 = -11;

/// The result that stands for a lost device.
pub open spec fn device_lost() -> VkResult {
    VkResult(ERROR_DEVICE_LOST)
}

/// The text by which the `ash` crate shows a result code.
pub uninterp spec fn vk_result_text(raw: i32) -> Seq<char>;

/// `<ash::vk::Result as Debug>::fmt`, reached through `format!("{:?}")` on
/// `ash::vk::Result::from_raw`.
///
/// The text is a table over the raw code alone: a name for each known code and
/// the number for every other. The contract only gives it a name.
#[verifier::external_body]
pub(crate) fn show_vk_result(raw: i32) -> (text: String)
    ensures
        text@ == vk_result_text(raw),
{
    format!("{:?}", ash::vk::Result::from_raw(raw))
}

/// The text by which the `ash` crate shows a texel format.
pub uninterp spec fn vk_format_text(raw: i32) -> Seq<char>;

/// `<ash::vk::Format as Debug>::fmt`, reached through `format!("{:?}")` on
/// `ash::vk::Format::from_raw`.
///
/// The text is a table over the raw value alone: a name for each known format
/// and the number for every other. The contract only gives it a name.
#[verifier::external_body]
pub(crate) fn show_vk_format(raw: i32) -> (text: String)
    ensures
        text@ == vk_format_text(raw),
{
    format!("{:?}", ash::vk::Format::from_raw(raw))
}

/// A lost device is the driver's own code for it.
pub proof fn law_a_lost_device_has_its_code()
    ensures
        device_lost().0 == -4,
{
}

} // verus!
