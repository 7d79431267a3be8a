//! Verified policy of a Vulkan GPU backend: recording order, queue ownership,
//! completion stamps, resource pools, image import planning and the text of
//! every refusal.
//!
//! Vulkan itself is called elsewhere. Every function here works on plain
//! values, so the whole of its behaviour can be stated and proved.

pub mod decline;
pub mod format;
pub mod late;
pub mod linear_image_import;
pub mod pools;
pub mod queue_owner;
pub mod reason;
pub mod reason_line;
pub mod retirement;
pub mod sampled_working_set;
pub mod scatter_shader;
pub mod stamp_completion;
pub mod text;
pub mod types;
pub mod vk;
