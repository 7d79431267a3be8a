//! How many native objects were made, by what they are for.

use crate::pools::fence::{count, counted};
use vstd::prelude::*;

verus! {

/// What an object is made for.
#[derive(Clone, Copy, Debug, PartialEq, Eq, Structural)]
pub enum CreateSite {
    /// The command pool of an encoder.
    CommandPool,
    /// A block of a descriptor arena.
    DescriptorPool,
    /// The fence of a command buffer.
    Fence,
    /// An upload buffer.
    StagingBuffer,
    /// A gather buffer.
    GatherBuffer,
    /// A readback buffer.
    ReadbackBuffer,
    /// The image of a target.
    TargetImage,
    /// The view of a target.
    TargetImageView,
    /// The framebuffer of a target.
    TargetFramebuffer,
    /// A sampled image.
    SampledImage,
    /// The view of a sampled image.
    SampledImageView,
}

/// How many objects were made for each purpose. Every counter wraps.
#[derive(Clone, Copy, Debug, PartialEq, Eq, Structural)]
pub struct CreateCounts {
    /// Command pools.
    pub command_pools: u64,
    /// Blocks of descriptor arenas.
    pub descriptor_pools: u64,
    /// Fences.
    pub fences: u64,
    /// Upload buffers.
    pub staging_buffers: u64,
    /// Gather buffers.
    pub gather_buffers: u64,
    /// Readback buffers.
    pub readback_buffers: u64,
    /// Images of targets.
    pub target_images: u64,
    /// Views of targets.
    pub target_image_views: u64,
    /// Framebuffers of targets.
    pub target_framebuffers: u64,
    /// Sampled images.
    pub sampled_images: u64,
    /// Views of sampled images.
    pub sampled_image_views: u64,
}

impl CreateCounts {
    /// Nothing was made.
    pub open spec fn zero() -> CreateCounts {
        CreateCounts {
            command_pools: 0,
            descriptor_pools: 0,
            fences: 0,
            staging_buffers: 0,
            gather_buffers: 0,
            readback_buffers: 0,
            target_images: 0,
            target_image_views: 0,
            target_framebuffers: 0,
            sampled_images: 0,
            sampled_image_views: 0,
        }
    }

    /// The counts after one more was made for `site`.
    pub open spec fn after(self, site: CreateSite) -> CreateCounts {
        match site {
            CreateSite::CommandPool => CreateCounts {
                command_pools: counted(self.command_pools, 1),
                ..self
            },
            CreateSite::DescriptorPool => CreateCounts {
                descriptor_pools: counted(self.descriptor_pools, 1),
                ..self
            },
            CreateSite::Fence => CreateCounts { fences: counted(self.fences, 1), ..self },
            CreateSite::StagingBuffer => CreateCounts {
                staging_buffers: counted(self.staging_buffers, 1),
                ..self
            },
            CreateSite::GatherBuffer => CreateCounts {
                gather_buffers: counted(self.gather_buffers, 1),
                ..self
            },
            CreateSite::ReadbackBuffer => CreateCounts {
                readback_buffers: counted(self.readback_buffers, 1),
                ..self
            },
            CreateSite::TargetImage => CreateCounts {
                target_images: counted(self.target_images, 1),
                ..self
            },
            CreateSite::TargetImageView => CreateCounts {
                target_image_views: counted(self.target_image_views, 1),
                ..self
            },
            CreateSite::TargetFramebuffer => CreateCounts {
                target_framebuffers: counted(self.target_framebuffers, 1),
                ..self
            },
            CreateSite::SampledImage => CreateCounts {
                sampled_images: counted(self.sampled_images, 1),
                ..self
            },
            CreateSite::SampledImageView => CreateCounts {
                sampled_image_views: counted(self.sampled_image_views, 1),
                ..self
            },
        }
    }

    /// Nothing was made.
    pub fn new() -> (counts: CreateCounts)
        ensures
            counts == CreateCounts::zero(),
    {
        CreateCounts {
            command_pools: 0,
            descriptor_pools: 0,
            fences: 0,
            staging_buffers: 0,
            gather_buffers: 0,
            readback_buffers: 0,
            target_images: 0,
            target_image_views: 0,
            target_framebuffers: 0,
            sampled_images: 0,
            sampled_image_views: 0,
        }
    }

    /// One was made for `site`.
    pub fn note(&mut self, site: CreateSite)
        ensures
            *final(self) == old(self).after(site),
    {
        match site {
            CreateSite::CommandPool => count(&mut self.command_pools, 1),
            CreateSite::DescriptorPool => count(&mut self.descriptor_pools, 1),
            CreateSite::Fence => count(&mut self.fences, 1),
            CreateSite::StagingBuffer => count(&mut self.staging_buffers, 1),
            CreateSite::GatherBuffer => count(&mut self.gather_buffers, 1),
            CreateSite::ReadbackBuffer => count(&mut self.readback_buffers, 1),
            CreateSite::TargetImage => count(&mut self.target_images, 1),
            CreateSite::TargetImageView => count(&mut self.target_image_views, 1),
            CreateSite::TargetFramebuffer => count(&mut self.target_framebuffers, 1),
            CreateSite::SampledImage => count(&mut self.sampled_images, 1),
            CreateSite::SampledImageView => count(&mut self.sampled_image_views, 1),
        }
    }
}

impl CreateCounts {
    /// How many objects were made for `site`.
    pub open spec fn made_for(self, site: CreateSite) -> u64 {
        match site {
            CreateSite::CommandPool => self.command_pools,
            CreateSite::DescriptorPool => self.descriptor_pools,
            CreateSite::Fence => self.fences,
            CreateSite::StagingBuffer => self.staging_buffers,
            CreateSite::GatherBuffer => self.gather_buffers,
            CreateSite::ReadbackBuffer => self.readback_buffers,
            CreateSite::TargetImage => self.target_images,
            CreateSite::TargetImageView => self.target_image_views,
            CreateSite::TargetFramebuffer => self.target_framebuffers,
            CreateSite::SampledImage => self.sampled_images,
            CreateSite::SampledImageView => self.sampled_image_views,
        }
    }
}

/// An object is counted once, for what it was made for.
pub proof fn law_an_object_counts_for_its_site(
    counts: CreateCounts,
    site: CreateSite,
    other: CreateSite,
)
    ensures
        counts.after(site).made_for(other) == if other == site {
            counted(counts.made_for(other), 1)
        } else {
            counts.made_for(other)
        },
        CreateCounts::zero().made_for(other) == 0,
{
    match site {
        CreateSite::CommandPool => {},
        CreateSite::DescriptorPool => {},
        CreateSite::Fence => {},
        CreateSite::StagingBuffer => {},
        CreateSite::GatherBuffer => {},
        CreateSite::ReadbackBuffer => {},
        CreateSite::TargetImage => {},
        CreateSite::TargetImageView => {},
        CreateSite::TargetFramebuffer => {},
        CreateSite::SampledImage => {},
        CreateSite::SampledImageView => {},
    }
}

} // verus!
