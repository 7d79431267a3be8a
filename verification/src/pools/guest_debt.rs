//! What the command buffer under way owes the guest: the memory it reads and
//! writes, the residents it pins, and the sampled images it asks for.

use crate::pools::batch::lemma_recording_let_go;
use crate::pools::encoder::EncoderPools;
use crate::pools::entry::{drain_tokens, in_token_order, lists_tokens, taken};
use crate::pools::fence::{count, counted, EngineCounters};
use crate::pools::free_pool::FreePool;
use crate::pools::keyed::Keyed;
use crate::pools::memo::{
    invalidated, outlives, BindKey, GuestPages, Remembered, SampledCopy, SampledGuestId,
    StoreInvalidation,
};
use crate::pools::resource::{lemma_points_kept, ResourcePools};
use crate::pools::sampled_cache::{looked_up, LiveOwners};
use crate::pools::shared::{keyed_sampled, SharedPools};
use crate::pools::slots::{
    ComputeStorageResidencyKey, GuestWriteToken, SampledKey, SampledSlot, TargetIdentity,
};
use crate::pools::visibility::CbGuestVisibility;
use crate::types::DrawError;
use crate::sampled_working_set::{asked_for, note_wanted, SampledContentIdentity, Window};
use vstd::prelude::*;

verus! {

/// Where a write to guest memory comes from.
#[derive(Clone, Copy, Debug, PartialEq, Eq, Structural)]
pub enum GuestWriteSource {
    /// A target resident, which is pinned until the write is done.
    ResidentTarget(TargetIdentity),
    /// A compute resident, which is pinned until the write is done.
    ResidentStorage(ComputeStorageResidencyKey),
    /// An imported buffer, which outlives the write anyway.
    ImportedBuffer,
    /// An image that the command buffer holds anyway.
    RingEntry,
}

/// The target residents that are pinned after a write from `source` was
/// recorded.
pub open spec fn pins_after(
    pins: Seq<TargetIdentity>,
    source: GuestWriteSource,
    pinned: bool,
) -> Seq<TargetIdentity> {
    match source {
        GuestWriteSource::ResidentTarget(identity) if pinned => pins.push(identity),
        _ => pins,
    }
}

/// The compute residents that are pinned after a write from `source` was
/// recorded.
pub open spec fn compute_pins_after(
    pins: Seq<ComputeStorageResidencyKey>,
    source: GuestWriteSource,
    pinned: bool,
) -> Seq<ComputeStorageResidencyKey> {
    match source {
        GuestWriteSource::ResidentStorage(identity) if pinned => pins.push(identity),
        _ => pins,
    }
}

/// What is to be done outside for a recording that was given up.
#[derive(Debug)]
pub struct AbortedWork {
    /// The guest writes that will not happen, in order.
    pub tokens: Vec<GuestWriteToken>,
    /// The residents to unpin.
    pub unpin_residents: Vec<TargetIdentity>,
    /// The compute residents to unpin.
    pub unpin_compute_residents: Vec<ComputeStorageResidencyKey>,
}

impl EncoderPools {
    /// Whether work that is not known to be done reads guest memory.
    pub fn has_guest_read_debt(&self) -> (debt: bool)
        ensures
            debt == self.guest_reads_in_flight,
    {
        self.guest_reads_in_flight
    }

    /// Every read of guest memory is known to be done. Says what is to be
    /// published: that no read is outstanding.
    pub fn settle_guest_read_debt(&mut self) -> (outstanding: bool)
        ensures
            !outstanding,
            *final(self) == (EncoderPools { guest_reads_in_flight: false, ..*old(self) }),
            old(self).wf() ==> final(self).wf(),
    {
        self.guest_reads_in_flight = false;
        false
    }

    /// Wait until nothing reads guest memory any more. Without a debt there is
    /// nothing to wait for; else `retired` is how the wait for the whole ring
    /// ended, and a wait that failed leaves the debt. Says what is to be
    /// published, where the debt was settled: that no read is outstanding.
    pub fn quiesce_guest_reads(&mut self, retired: Result<(), DrawError>) -> (quiet: Result<
        Option<bool>,
        DrawError,
    >)
        ensures
            !old(self).guest_reads_in_flight ==> quiet == Ok::<Option<bool>, DrawError>(None)
                && *final(self) == *old(self),
            old(self).guest_reads_in_flight ==> {
                &&& match retired {
                    Ok(_) => quiet == Ok::<Option<bool>, DrawError>(Some(false)),
                    Err(error) => quiet == Err::<Option<bool>, DrawError>(error),
                }
                &&& *final(self) == (EncoderPools {
                    guest_reads_in_flight: retired is Err,
                    ..*old(self)
                })
            },
            old(self).wf() ==> final(self).wf(),
    {
        if !self.has_guest_read_debt() {
            return Ok(None);
        }
        match retired {
            Ok(_) => Ok(Some(self.settle_guest_read_debt())),
            Err(error) => Err(error),
        }
    }

    /// Whether a write to `pages` needs a token of its own.
    pub fn guest_write_needs_token(&self, pages: &GuestPages) -> (needs: bool)
        requires
            self.guest_write_tokens_live.wf(),
        ensures
            needs == !self.guest_write_tokens_live@.dom().contains(pages.id()),
    {
        !self.guest_write_tokens_live.contains_key(pages)
    }

    /// Note that the command buffer under way writes the guest's `pages`. What it
    /// copied from guest memory before may be stale; what names guest memory
    /// itself is not. `token` was armed for the pages, where none was live;
    /// `pinned` says whether the source could be pinned. Says how many copies may
    /// be stale and how many cannot.
    pub fn note_guest_write_pages_recorded(
        &mut self,
        source: GuestWriteSource,
        pages: GuestPages,
        token: Option<GuestWriteToken>,
        pinned: bool,
    ) -> (counts: StoreInvalidation)
        requires
            old(self).pools_wf(),
        ensures
            counts.copies == old(self).cb_bound_buffers.guest_snapshots@.dom().len(),
            counts.aliases == old(self).cb_bound_buffers.aliases@.dom().len(),
            invalidated(
                old(self).cb_sampled_guest@,
                final(self).cb_sampled_guest@,
                counts.sampled,
            ),
            *final(self) == (EncoderPools {
                cb_guest_visibility: CbGuestVisibility {
                    gpu_write_since_barrier: true,
                    ..old(self).cb_guest_visibility
                },
                cb_bound_buffers: final(self).cb_bound_buffers,
                cb_sampled_guest: final(self).cb_sampled_guest,
                guest_write_tokens_live: final(self).guest_write_tokens_live,
                resident_pins_live: final(self).resident_pins_live,
                compute_write_pins_live: final(self).compute_write_pins_live,
                ..*old(self)
            }),
            final(self).pools_wf(),
            old(self).wf() ==> final(self).wf(),
            final(self).cb_bound_buffers.aliases == old(self).cb_bound_buffers.aliases,
            final(self).cb_bound_buffers.immutable == old(self).cb_bound_buffers.immutable,
            final(self).cb_bound_buffers.guest_snapshots@ == Map::<BindKey, Remembered>::empty(),
            forall|id: SampledGuestId| #[trigger]
                final(self).cb_sampled_guest@.dom().contains(id) <==> old(
                    self,
                ).cb_sampled_guest@.dom().contains(id) && outlives(
                    old(self).cb_sampled_guest@[id],
                    pages@,
                ),
            forall|id: SampledGuestId| #[trigger]
                final(self).cb_sampled_guest@.dom().contains(id) ==> final(self).cb_sampled_guest@[id] == old(self).cb_sampled_guest@[id],
            final(self).guest_write_tokens_live@ == match token {
                Some(token) if !old(self).guest_write_tokens_live@.dom().contains(pages.id()) =>
                    old(self).guest_write_tokens_live@.insert(pages.id(), token),
                _ => old(self).guest_write_tokens_live@,
            },
            final(self).resident_pins_live@ == pins_after(
                old(self).resident_pins_live@,
                source,
                pinned,
            ),
            final(self).compute_write_pins_live@ == compute_pins_after(
                old(self).compute_write_pins_live@,
                source,
                pinned,
            ),
    {
        self.note_cb_guest_write();
        let (copies, aliases) = self.forget_cb_bound_buffer_copies();
        let sampled = self.forget_cb_sampled_guest_pages(&pages);
        if !self.guest_write_tokens_live.contains_key(&pages) {
            if let Some(token) = token {
                self.guest_write_tokens_live.insert(pages, token);
            }
        }
        self.note_guest_write_source(source, pinned);
        StoreInvalidation { copies, aliases, sampled }
    }

    /// Note what a write to guest memory comes from. `pinned` says whether it
    /// could be pinned.
    pub fn note_guest_write_source(&mut self, source: GuestWriteSource, pinned: bool)
        ensures
            *final(self) == (EncoderPools {
                resident_pins_live: final(self).resident_pins_live,
                compute_write_pins_live: final(self).compute_write_pins_live,
                ..*old(self)
            }),
            final(self).resident_pins_live@ == pins_after(
                old(self).resident_pins_live@,
                source,
                pinned,
            ),
            final(self).compute_write_pins_live@ == compute_pins_after(
                old(self).compute_write_pins_live@,
                source,
                pinned,
            ),
            old(self).wf() ==> final(self).wf(),
    {
        match source {
            GuestWriteSource::ResidentTarget(identity) => {
                let _ = self.pin_resident_for_entry(identity, pinned);
            },
            GuestWriteSource::ResidentStorage(identity) => {
                if pinned {
                    self.compute_write_pins_live.push(identity);
                }
            },
            GuestWriteSource::ImportedBuffer => {},
            GuestWriteSource::RingEntry => {},
        }
    }

    /// Hold a resident until the fence of the command buffer under way, where it
    /// could be pinned.
    pub fn pin_resident_for_entry(&mut self, identity: TargetIdentity, pinned: bool) -> (held: bool)
        ensures
            held == pinned,
            *final(self) == (EncoderPools {
                resident_pins_live: final(self).resident_pins_live,
                ..*old(self)
            }),
            final(self).resident_pins_live@ == if pinned {
                old(self).resident_pins_live@.push(identity)
            } else {
                old(self).resident_pins_live@
            },
            old(self).wf() ==> final(self).wf(),
    {
        if !pinned {
            return false;
        }
        self.resident_pins_live.push(identity);
        true
    }
}

/// What looking for a sampled image counts.
pub open spec fn lookup_counted(
    counters: EngineCounters,
    found: bool,
    bytes: u64,
) -> EngineCounters {
    if found {
        EngineCounters {
            sampled_cache_hits: counted(counters.sampled_cache_hits, 1),
            sampled_cache_hit_bytes: counted(counters.sampled_cache_hit_bytes, bytes),
            ..counters
        }
    } else {
        EngineCounters {
            sampled_cache_misses: counted(counters.sampled_cache_misses, 1),
            ..counters
        }
    }
}

impl ResourcePools {
    /// Give up what the recording under way owes the guest: it will not be
    /// submitted, so no fence will ever pay it.
    pub fn abort_recorded_guest_work(&mut self) -> (aborted: AbortedWork)
        requires
            old(self).wf(),
        ensures
            old(self).encoder.open_batch is None ==> final(self).wf(),
            final(self).encoder.pools_wf(),
            final(self).shared.wf(),
            in_token_order(aborted.tokens@),
            lists_tokens(old(self).encoder.guest_write_tokens_live@, aborted.tokens@),
            aborted.unpin_residents == old(self).encoder.resident_pins_live,
            aborted.unpin_compute_residents == old(self).encoder.compute_write_pins_live,
            final(self).encoder == (EncoderPools {
                recording: None,
                guest_write_tokens_live: final(self).encoder.guest_write_tokens_live,
                resident_pins_live: final(self).encoder.resident_pins_live,
                compute_write_pins_live: final(self).encoder.compute_write_pins_live,
                ..old(self).encoder
            }),
            final(self).encoder.guest_write_tokens_live@ == Map::<
                Set<u64>,
                GuestWriteToken,
            >::empty(),
            final(self).encoder.resident_pins_live@.len() == 0,
            final(self).encoder.compute_write_pins_live@.len() == 0,
            final(self).shared == (SharedPools {
                retirement: final(self).shared.retirement,
                ..old(self).shared
            }),
            final(self).shared.retirement@.issued() == old(self).shared.retirement@.issued(),
            forall|p: int|
                final(self).shared.retirement@.is_terminal(p) == (old(
                    self,
                ).shared.retirement@.is_terminal(p) || (old(
                    self,
                ).encoder.recording matches Some(lease) && p == lease@)),
    {
        let mut recording = None;
        std::mem::swap(&mut recording, &mut self.encoder.recording);
        proof {
            if old(self).encoder.recording is Some {
                lemma_recording_let_go(
                    old(self).encoder,
                    self.encoder,
                    self.shared.retirement@,
                );
            }
        }
        match recording {
            Some(lease) => {
                let ghost before = self.shared.retirement@;
                let ghost point = lease@;
                lease.cancel(&mut self.shared.retirement);
                proof {
                    lemma_points_kept(self.encoder, before, self.shared.retirement@, point);
                }
            },
            None => {},
        }
        let tokens = drain_tokens(&mut self.encoder.guest_write_tokens_live);
        let unpin_residents = taken(&mut self.encoder.resident_pins_live);
        let unpin_compute_residents = taken(&mut self.encoder.compute_write_pins_live);
        AbortedWork { tokens, unpin_residents, unpin_compute_residents }
    }

    /// The cached image of shape `key` filled from `content`. That it was asked
    /// for is noted first, whatever the cache holds.
    pub fn find_cached_sampled(
        &mut self,
        window: &mut Window,
        counters: &mut EngineCounters,
        key: SampledKey,
        content: &[u8],
        content_hash: u128,
        identity: Option<SampledContentIdentity>,
        resource_lifetime: Option<u64>,
        live: &LiveOwners,
    ) -> (found: Option<SampledSlot>)
        requires
            old(window).wf(),
            old(window).no_identity < u64::MAX,
            old(window).dropped < u64::MAX,
        ensures
            final(window).wf(),
            asked_for(*old(window), *final(window), key, identity, content@.len() as usize),
            ({
                let (slot, cached) = looked_up(
                    old(self).shared.sampled_cache@,
                    key,
                    content@,
                    content_hash,
                    resource_lifetime,
                    *live,
                    old(self).shared.idle_clock_ms,
                );
                &&& found == slot
                &&& final(self).shared.sampled_cache@ == cached
                &&& old(self).shared.sampled_cache.exact()
                    ==> final(self).shared.sampled_cache.exact()
                &&& *final(counters) == lookup_counted(
                    *old(counters),
                    slot is Some,
                    content@.len() as u64,
                )
            }),
            final(self).encoder == old(self).encoder,
            final(self).shared == (SharedPools {
                sampled_cache: final(self).shared.sampled_cache,
                ..old(self).shared
            }),
            old(self).wf() ==> final(self).wf(),
    {
        note_wanted(window, key, identity, content.len());
        let now: u64 = self.shared.idle_clock_ms;
        let found = self.shared.sampled_cache.find_cached_sampled(
            key,
            content,
            content_hash,
            resource_lifetime,
            live,
            now,
        );
        if found.is_some() {
            count(&mut counters.sampled_cache_hits, 1);
            count(&mut counters.sampled_cache_hit_bytes, content.len() as u64);
        } else {
            count(&mut counters.sampled_cache_misses, 1);
        }
        found
    }

    /// Keep the sampled images and attachment snapshots of an abandoned recording
    /// for the next. No copy may be found under one of them any more.
    pub fn recycle_sampled(&mut self)
        ensures
            final(self).encoder == (EncoderPools {
                cb_sampled_guest: final(self).encoder.cb_sampled_guest,
                sampled_live: final(self).encoder.sampled_live,
                attachment_snapshot_live: final(self).encoder.attachment_snapshot_live,
                ..old(self).encoder
            }),
            final(self).encoder.cb_sampled_guest.wf(),
            final(self).encoder.cb_sampled_guest@ == Map::<SampledGuestId, SampledCopy>::empty(),
            final(self).encoder.sampled_live@.len() == 0,
            final(self).encoder.attachment_snapshot_live@.len() == 0,
            final(self).shared == (SharedPools {
                sampled_free: final(self).shared.sampled_free,
                attachment_snapshot_free: final(self).shared.attachment_snapshot_free,
                ..old(self).shared
            }),
            final(self).shared.sampled_free.entries() == old(self).shared.sampled_free.entries()
                + keyed_sampled(old(self).encoder.sampled_live@),
            final(self).shared.sampled_free.counted() == old(self).shared.sampled_free.counted(),
            final(self).shared.attachment_snapshot_free.entries() == old(
                self,
            ).shared.attachment_snapshot_free.entries() + keyed_sampled(
                old(self).encoder.attachment_snapshot_live@,
            ),
            final(self).shared.attachment_snapshot_free.counted() == old(
                self,
            ).shared.attachment_snapshot_free.counted(),
            old(self).wf() ==> final(self).wf(),
    {
        self.encoder.cb_sampled_guest.clear();
        let sampled = taken(&mut self.encoder.sampled_live);
        push_all_uncapped(&mut self.shared.sampled_free, &sampled);
        let snapshots = taken(&mut self.encoder.attachment_snapshot_live);
        push_all_uncapped(&mut self.shared.attachment_snapshot_free, &snapshots);
    }

    /// How many residents, scratch targets, sampled images and storage images
    /// there are.
    pub fn guest_reset_counts(&self) -> (counts: (usize, usize, usize, usize))
        requires
            self.encoder.sampled_live@.len() + self.shared.sampled_free.entries().len()
                + self.shared.sampled_cache@.len() + self.encoder.attachment_snapshot_live@.len()
                + self.shared.attachment_snapshot_free.entries().len() <= usize::MAX,
            self.encoder.storage_image_live@.len() + self.shared.storage_image_free.entries().len()
                + self.shared.compute_storage_registry@.len() <= usize::MAX,
        ensures
            counts.0 == self.shared.registry@.len(),
            counts.1 == self.shared.targets@.len(),
            counts.2 == self.encoder.sampled_live@.len() + self.shared.sampled_free.entries().len()
                + self.shared.sampled_cache@.len() + self.encoder.attachment_snapshot_live@.len()
                + self.shared.attachment_snapshot_free.entries().len(),
            counts.3 == self.encoder.storage_image_live@.len()
                + self.shared.storage_image_free.entries().len()
                + self.shared.compute_storage_registry@.len(),
    {
        let sampled: usize = self.encoder.sampled_live.len() + self.shared.sampled_free.len()
            + self.shared.sampled_cache.len() + self.encoder.attachment_snapshot_live.len()
            + self.shared.attachment_snapshot_free.len();
        let storage: usize = self.encoder.storage_image_live.len()
            + self.shared.storage_image_free.len() + self.shared.compute_storage_registry.len();
        (self.shared.registry.len(), self.shared.targets.len(), sampled, storage)
    }

    /// How much guest memory is imported, and how many images wait for reuse.
    /// `imports` is how many blocks and aliases are imported, and how many bytes.
    pub fn host_ram_import_census(&self, imports: (usize, usize, u64)) -> (census: (
        usize,
        usize,
        u64,
        usize,
        usize,
        usize,
    ))
        requires
            self.shared.sampled_free.entries().len()
                + self.shared.attachment_snapshot_free.entries().len()
                + self.shared.target_free.entries().len()
                + self.shared.storage_image_free.entries().len() <= usize::MAX,
        ensures
            census.0 == imports.0,
            census.1 == imports.1,
            census.2 == imports.2,
            census.3 == 0,
            census.4 == 0,
            census.5 == self.shared.sampled_free.entries().len()
                + self.shared.attachment_snapshot_free.entries().len()
                + self.shared.target_free.entries().len()
                + self.shared.storage_image_free.entries().len(),
    {
        let recycled_images: usize = self.shared.sampled_free.len()
            + self.shared.attachment_snapshot_free.len() + self.shared.target_free.len()
            + self.shared.storage_image_free.len();
        (imports.0, imports.1, imports.2, 0, 0, recycled_images)
    }
}

/// Keep sampled images in `pool` without counting them.
fn push_all_uncapped(pool: &mut FreePool<SampledKey, SampledSlot>, slots: &Vec<SampledSlot>)
    ensures
        final(pool).entries() == old(pool).entries() + keyed_sampled(slots@),
        final(pool).counted() == old(pool).counted(),
{
    let mut k: usize = 0;
    assert(pool.entries() =~= pool.entries() + keyed_sampled(slots@).take(0));
    while k < slots.len()
        invariant
            k <= slots@.len(),
            pool.entries() == old(pool).entries() + keyed_sampled(slots@).take(k as int),
            pool.counted() == old(pool).counted(),
        decreases slots@.len() - k,
    {
        let slot: SampledSlot = slots[k];
        pool.push_uncapped(slot.key(), slot);
        k += 1;
        assert(pool.entries() =~= old(pool).entries() + keyed_sampled(slots@).take(k as int));
    }
    assert(keyed_sampled(slots@).take(k as int) =~= keyed_sampled(slots@));
}

/// A resident is pinned exactly where it will be unpinned: what a write pins is
/// on the list that its command buffer gives back.
pub proof fn law_every_pin_is_given_back(
    pins: Seq<TargetIdentity>,
    source: GuestWriteSource,
    pinned: bool,
)
    ensures
        pins_after(pins, source, pinned).len() == pins.len() + if source is ResidentTarget
            && pinned {
            1int
        } else {
            0
        },
        forall|i: int| 0 <= i < pins.len() ==> pins_after(pins, source, pinned)[i] == pins[i],
{
}

/// A write pins the resident it writes, of its own sort, where that is asked for,
/// and no other.
pub proof fn law_a_write_pins_what_it_writes(
    targets: Seq<TargetIdentity>,
    computes: Seq<ComputeStorageResidencyKey>,
    source: GuestWriteSource,
    pinned: bool,
)
    ensures
        !pinned ==> pins_after(targets, source, pinned) == targets && compute_pins_after(
            computes,
            source,
            pinned,
        ) == computes,
        source matches GuestWriteSource::ResidentTarget(identity) ==> compute_pins_after(
            computes,
            source,
            pinned,
        ) == computes && (pinned ==> pins_after(targets, source, pinned) == targets.push(identity)),
        source matches GuestWriteSource::ResidentStorage(identity) ==> pins_after(
            targets,
            source,
            pinned,
        ) == targets && (pinned ==> compute_pins_after(computes, source, pinned) == computes.push(
            identity,
        )),
        !(source is ResidentTarget) && !(source is ResidentStorage) ==> pins_after(
            targets,
            source,
            pinned,
        ) == targets && compute_pins_after(computes, source, pinned) == computes,
{
}

/// A look counts as a hit with its bytes or as a miss, never as both.
pub proof fn law_a_look_is_a_hit_or_a_miss(counters: EngineCounters, found: bool, bytes: u64)
    ensures
        ({
            let after = lookup_counted(counters, found, bytes);
            &&& after == (EngineCounters {
                sampled_cache_hits: after.sampled_cache_hits,
                sampled_cache_hit_bytes: after.sampled_cache_hit_bytes,
                sampled_cache_misses: after.sampled_cache_misses,
                ..counters
            })
            &&& after.sampled_cache_hits == if found {
                counters.sampled_cache_hits.wrapping_add(1)
            } else {
                counters.sampled_cache_hits
            }
            &&& after.sampled_cache_hit_bytes == if found {
                counters.sampled_cache_hit_bytes.wrapping_add(bytes)
            } else {
                counters.sampled_cache_hit_bytes
            }
            &&& after.sampled_cache_misses == if found {
                counters.sampled_cache_misses
            } else {
                counters.sampled_cache_misses.wrapping_add(1)
            }
        }),
{
}

} // verus!
