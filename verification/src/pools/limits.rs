//! The bounds that the pools keep to.

use vstd::prelude::*;

verus! {

/// The most draws that one command buffer takes.
pub const BATCH_MAX_DRAWS: u64 = 32;

/// The most draws that one command buffer takes on a device with memory of its
/// own.
pub const DISCRETE_BATCH_MAX_DRAWS: u64 = 8;

/// How many command buffers the ring of an encoder has.
pub const RING_DEPTH: usize = 4;

/// The most scratch targets that are kept.
pub const TARGET_POOL_MAX_ENTRIES: usize = 64;

/// How many sizes of upload buffers are told apart.
pub const STAGING_BUCKET_BINS: usize = 32;

/// How many new upload buffers there are to a report.
pub const STAGING_MISS_EMIT_EVERY: u64 = 256;

/// How many maintenance passes in a row must find nothing new before buffers
/// are given up.
pub const SETTLED_PASSES_FOR_BUFFER_TRIM: u32 = 3;

/// How long after the start the first maintenance pass may run, in
/// milliseconds.
pub const IDLE_MAINTENANCE_START_MS: u64 = 5_000;

/// The least time between two maintenance passes, in milliseconds.
pub const MAINTENANCE_INTERVAL_MS: u64 = 1_000;

/// The most that one maintenance pass gives up of each pool.
pub const IDLE_RECYCLE_TRIM_PER_PASS: usize = 8;

/// How long one wait for a fence lasts before it is looked at again, in
/// nanoseconds.
pub const FENCE_TIMEOUT_NS: u64 = 5_000_000_000;

/// How many passes of one command buffer are timed.
pub const PASS_SPANS: u32 = 62;

/// How the device's memory lies to the host's.
#[derive(Clone, Copy, Debug, PartialEq, Eq, Structural)]
pub enum MemoryTopology {
    /// The device has memory of its own.
    Discrete,
    /// The device shares the host's.
    Unified,
}

impl MemoryTopology {
    /// The name of the topology.
    pub open spec fn slug_text(self) -> Seq<char> {
        match self {
            MemoryTopology::Discrete => "discrete"@,
            MemoryTopology::Unified => "unified"@,
        }
    }

    /// The name of the topology.
    pub fn slug(self) -> (slug: &'static str)
        ensures
            slug@ == self.slug_text(),
    {
        match self {
            MemoryTopology::Discrete => "discrete",
            MemoryTopology::Unified => "unified",
        }
    }
}

/// The most draws that one command buffer takes where nothing else is asked
/// for.
pub fn batch_default_draws(topology: MemoryTopology) -> (draws: u64)
    ensures
        draws == match topology {
            MemoryTopology::Discrete => DISCRETE_BATCH_MAX_DRAWS,
            MemoryTopology::Unified => BATCH_MAX_DRAWS,
        },
{
    match topology {
        MemoryTopology::Discrete => DISCRETE_BATCH_MAX_DRAWS,
        MemoryTopology::Unified => BATCH_MAX_DRAWS,
    }
}

/// A device that shares the host's memory keeps more of a command buffer
/// together.
pub proof fn law_unified_memory_batches_more()
    ensures
        DISCRETE_BATCH_MAX_DRAWS < BATCH_MAX_DRAWS,
{
}

/// Which quarter of its bound a pool of `len` scratch targets fills, from zero.
pub open spec fn depth_quarter(len: nat) -> int {
    let quarter = TARGET_POOL_MAX_ENTRIES as int / 4;
    if len < quarter {
        0
    } else if len < 2 * quarter {
        1
    } else if len < 3 * quarter {
        2
    } else {
        3
    }
}

/// Which quarter of its bound a pool of `len` scratch targets fills, by name.
pub open spec fn depth_band_text(len: nat) -> Seq<char> {
    if depth_quarter(len) == 0 {
        "target_pool_depth_q1"@
    } else if depth_quarter(len) == 1 {
        "target_pool_depth_q2"@
    } else if depth_quarter(len) == 2 {
        "target_pool_depth_q3"@
    } else {
        "target_pool_depth_q4"@
    }
}

/// Which quarter of its bound a pool of `len` scratch targets fills, by name.
pub fn target_pool_depth_band(len: usize) -> (band: &'static str)
    ensures
        band@ == depth_band_text(len as nat),
{
    let quarter: usize = TARGET_POOL_MAX_ENTRIES / 4;
    if len < quarter {
        "target_pool_depth_q1"
    } else if len < quarter * 2 {
        "target_pool_depth_q2"
    } else if len < quarter * 3 {
        "target_pool_depth_q3"
    } else {
        "target_pool_depth_q4"
    }
}

/// A pool at its bound is in the top quarter, and so is one just below it.
pub proof fn law_the_bound_is_in_the_top_quarter(len: nat)
    requires
        len + 1 >= TARGET_POOL_MAX_ENTRIES,
    ensures
        depth_quarter(len) == 3,
{
}

/// The quarters of the bound are equally wide and follow each other; what does
/// not divide falls to the last.
pub proof fn law_quarters_are_equally_wide(len: nat)
    ensures
        0 <= depth_quarter(len) <= 3,
        depth_quarter(len) * (TARGET_POOL_MAX_ENTRIES as int / 4) <= len,
        depth_quarter(len) < 3 ==> len < (depth_quarter(len) + 1) * (
        TARGET_POOL_MAX_ENTRIES as int / 4),
{
    let quarter = TARGET_POOL_MAX_ENTRIES as int / 4;
    assert(0 * quarter == 0);
    assert(1 * quarter == quarter);
}

/// Two pools share the name of a quarter exactly where they are in the same one.
pub proof fn law_each_quarter_has_its_name(a: nat, b: nat)
    ensures
        depth_band_text(a) == depth_band_text(b) <==> depth_quarter(a) == depth_quarter(b),
        depth_band_text(a)[19] as int - '1' as int == depth_quarter(a),
{
    reveal_strlit("target_pool_depth_q1");
    reveal_strlit("target_pool_depth_q2");
    reveal_strlit("target_pool_depth_q3");
    reveal_strlit("target_pool_depth_q4");
    let x = depth_band_text(a);
    let y = depth_band_text(b);
    if x == y {
        assert(x[19] == y[19]);
    }
}

/// Every memory topology is told by its own word.
pub proof fn law_every_topology_has_its_word(topology: MemoryTopology)
    ensures
        topology is Discrete ==> topology.slug_text() == "discrete"@,
        topology is Unified ==> topology.slug_text() == "unified"@,
{
}

} // verus!
