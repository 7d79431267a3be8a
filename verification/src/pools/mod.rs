//! The resource pools: what a recording holds, what a fence gives back, and
//! what is kept for the next use.
//!
//! An encoder owns its ring of command buffers and the buffers they read; the
//! registries and free lists that several encoders use are shared. The two
//! halves meet in [`resource::ResourcePools`].

pub mod batch;
pub mod buckets;
pub mod created;
pub mod encoder;
pub mod entry;
pub mod fence;
pub mod free_pool;
pub mod graphics;
pub mod guest_debt;
pub mod keyed;
pub mod limits;
pub mod maintenance;
pub mod making;
pub mod memo;
pub mod pass;
pub mod readback;
pub mod resource;
pub mod ring;
pub mod sampled_cache;
pub mod shared;
pub mod slots;
pub mod staging;
pub mod swizzle;
pub mod targets;
pub mod teardown;
pub mod visibility;
