//! Sampled images kept under the exact bytes they were filled from.
//!
//! A digest proposes an entry and the bytes decide. An entry lives as long as
//! some resource of the guest that asked for it does.

use crate::pools::slots::{SampledKey, SampledRetain, SampledSlot};
use vstd::prelude::*;

verus! {

/// The resources of the guest that are alive.
#[derive(Debug)]
pub struct LiveOwners {
    /// Their lifetimes.
    pub alive: Vec<u64>,
}

impl LiveOwners {
    /// The resource is alive.
    pub open spec fn has(self, owner: u64) -> bool {
        self.alive@.contains(owner)
    }

    /// Whether the resource is alive.
    pub fn is_live(&self, owner: u64) -> (live: bool)
        ensures
            live == self.has(owner),
    {
        holds(&self.alive, owner)
    }
}

fn holds(list: &Vec<u64>, value: u64) -> (held: bool)
    ensures
        held == list@.contains(value),
{
    let mut k: usize = 0;
    while k < list.len()
        invariant
            k <= list@.len(),
            forall|j: int| 0 <= j < k ==> #[trigger] list@[j] != value,
        decreases list@.len() - k,
    {
        if list[k] == value {
            assert(list@[k as int] == value);
            return true;
        }
        k += 1;
    }
    false
}

/// One cached image.
#[derive(Debug)]
pub struct ResidentSampledSlot {
    /// The image.
    pub slot: SampledSlot,
    /// The digest of its bytes.
    pub fingerprint: u128,
    /// Its bytes.
    pub content: Option<Vec<u8>>,
    /// How many they are.
    pub content_len: u64,
    /// The resources that asked for it.
    pub owners: Vec<u64>,
    /// When it was last asked for.
    pub last_touch_ms: u64,
}

/// What a cached image is, as a value.
#[verifier::ext_equal]
pub struct CachedImage {
    /// The image.
    pub slot: SampledSlot,
    /// The digest of its bytes.
    pub fingerprint: u128,
    /// Its bytes.
    pub content: Option<Seq<u8>>,
    /// How many they are.
    pub content_len: u64,
    /// The resources that asked for it.
    pub owners: Seq<u64>,
    /// When it was last asked for.
    pub last_touch_ms: u64,
}

impl View for ResidentSampledSlot {
    type V = CachedImage;

    open spec fn view(&self) -> CachedImage {
        CachedImage {
            slot: self.slot,
            fingerprint: self.fingerprint,
            content: match self.content {
                Some(bytes) => Some(bytes@),
                None => None,
            },
            content_len: self.content_len,
            owners: self.owners@,
            last_touch_ms: self.last_touch_ms,
        }
    }
}

impl CachedImage {
    /// Some resource that asked for the image is alive.
    pub open spec fn owned(self, live: LiveOwners) -> bool {
        exists|k: int| 0 <= k < self.owners.len() && live.has(#[trigger] self.owners[k])
    }

    /// The entry holds an image of shape `key` filled from `content`.
    pub open spec fn matches(self, key: SampledKey, content: Seq<u8>, hash: u128) -> bool {
        &&& self.slot.shape == key
        &&& self.fingerprint == hash
        &&& self.content == Some(content)
    }
}

impl ResidentSampledSlot {
    /// Whether some resource that asked for the image is alive.
    pub fn has_live_owner(&self, live: &LiveOwners) -> (owned: bool)
        ensures
            owned == self@.owned(*live),
    {
        let mut k: usize = 0;
        while k < self.owners.len()
            invariant
                k <= self.owners@.len(),
                forall|j: int| 0 <= j < k ==> !live.has(#[trigger] self.owners@[j]),
            decreases self.owners@.len() - k,
        {
            if live.is_live(self.owners[k]) {
                assert(live.has(self@.owners[k as int]));
                return true;
            }
            k += 1;
        }
        false
    }

    /// Whether the entry holds an image of shape `key` filled from `content`.
    fn is_match(&self, key: SampledKey, content: &[u8], hash: u128) -> (same: bool)
        ensures
            same == self@.matches(key, content@, hash),
    {
        if !(self.slot.shape == key && self.fingerprint == hash) {
            return false;
        }
        match &self.content {
            Some(held) => same_bytes(held.as_slice(), content),
            None => false,
        }
    }

    /// Note that a resource asked for the image.
    pub fn retain_owner(&mut self, owner: u64)
        ensures
            final(self)@ == (CachedImage {
                owners: with_owner(old(self).owners@, owner),
                ..old(self)@
            }),
    {
        if !holds(&self.owners, owner) {
            self.owners.push(owner);
        }
    }
}

/// The resources that asked for an image after `owner` did too.
pub open spec fn with_owner(owners: Seq<u64>, owner: u64) -> Seq<u64> {
    if owners.contains(owner) {
        owners
    } else {
        owners.push(owner)
    }
}

fn same_bytes(a: &[u8], b: &[u8]) -> (same: bool)
    ensures
        same == (a@ == b@),
{
    if a.len() != b.len() {
        assert(a@.len() != b@.len());
        return false;
    }
    let mut k: usize = 0;
    while k < a.len()
        invariant
            k <= a@.len(),
            a@.len() == b@.len(),
            forall|j: int| 0 <= j < k ==> #[trigger] a@[j] == b@[j],
        decreases a@.len() - k,
    {
        if a[k] != b[k] {
            assert(a@[k as int] != b@[k as int]);
            return false;
        }
        k += 1;
    }
    assert(a@ =~= b@);
    true
}

/// The entry at `i` is the first that is owned and holds `content` in the shape
/// `key`.
pub open spec fn is_hit(
    entries: Seq<CachedImage>,
    key: SampledKey,
    content: Seq<u8>,
    hash: u128,
    live: LiveOwners,
    i: int,
) -> bool {
    &&& 0 <= i < entries.len()
    &&& entries[i].owned(live) && entries[i].matches(key, content, hash)
    &&& forall|j: int|
        0 <= j < i ==> !((#[trigger] entries[j]).owned(live) && entries[j].matches(
            key,
            content,
            hash,
        ))
}

/// Where the first entry is that is owned and holds `content` in the shape
/// `key`.
pub open spec fn hit(
    entries: Seq<CachedImage>,
    key: SampledKey,
    content: Seq<u8>,
    hash: u128,
    live: LiveOwners,
) -> Option<int> {
    if exists|i: int| is_hit(entries, key, content, hash, live, i) {
        Some(choose|i: int| is_hit(entries, key, content, hash, live, i))
    } else {
        None
    }
}

/// What a look for `content` in the shape `key` finds, and the entries
/// afterwards. A live resource that finds an image keeps it alive from now on;
/// one that is not alive finds nothing.
pub open spec fn looked_up(
    entries: Seq<CachedImage>,
    key: SampledKey,
    content: Seq<u8>,
    hash: u128,
    owner: Option<u64>,
    live: LiveOwners,
    now_ms: u64,
) -> (Option<SampledSlot>, Seq<CachedImage>) {
    match (hit(entries, key, content, hash, live), owner) {
        (Some(i), Some(owner)) if live.has(owner) => (
            Some(entries[i].slot),
            entries.update(
                i,
                CachedImage {
                    owners: with_owner(entries[i].owners, owner),
                    last_touch_ms: now_ms,
                    ..entries[i]
                },
            ),
        ),
        _ => (None, entries),
    }
}

/// How an image fares that is offered to the cache, and the entries afterwards.
/// It becomes an entry where a live resource asked for it and no entry holds the
/// same bytes.
pub open spec fn offered(
    entries: Seq<CachedImage>,
    slot: SampledSlot,
    retain: SampledRetain,
    live: LiveOwners,
    now_ms: u64,
) -> (Admission, Seq<CachedImage>) {
    match retain.resource_lifetime {
        Some(owner) if live.has(owner) => match hit(
            entries,
            slot.shape,
            retain.content@,
            retain.content_hash,
            live,
        ) {
            Some(i) => (
                Admission::Duplicate,
                entries.update(
                    i,
                    CachedImage { owners: with_owner(entries[i].owners, owner), ..entries[i] },
                ),
            ),
            None => (
                Admission::Kept,
                entries.push(
                    CachedImage {
                        slot,
                        fingerprint: retain.content_hash,
                        content: Some(retain.content@),
                        content_len: retain.content@.len() as u64,
                        owners: seq![owner],
                        last_touch_ms: now_ms,
                    },
                ),
            ),
        },
        _ => (Admission::NoLifetime, entries),
    }
}

/// The entries without the one at `i`, whose place the last takes.
pub open spec fn without(entries: Seq<CachedImage>, i: int) -> Seq<CachedImage> {
    entries.update(i, entries.last()).drop_last()
}

/// The entry at `i` is the first that no resource owns.
pub open spec fn is_first_dead(entries: Seq<CachedImage>, live: LiveOwners, i: int) -> bool {
    &&& 0 <= i < entries.len()
    &&& !entries[i].owned(live)
    &&& forall|j: int| 0 <= j < i ==> (#[trigger] entries[j]).owned(live)
}

/// What stays and which images go when every entry that no resource owns is
/// taken out, the first one first.
pub open spec fn released(entries: Seq<CachedImage>, live: LiveOwners) -> (
    Seq<CachedImage>,
    Seq<SampledSlot>,
)
    decreases entries.len(),
{
    if exists|i: int| is_first_dead(entries, live, i) {
        let i = choose|i: int| is_first_dead(entries, live, i);
        if 0 <= i < entries.len() {
            let (kept, out) = released(without(entries, i), live);
            (kept, seq![entries[i].slot] + out)
        } else {
            (entries, Seq::empty())
        }
    } else {
        (entries, Seq::empty())
    }
}

/// The images that go when the first entry is taken out until none is left.
pub open spec fn emptied(entries: Seq<CachedImage>) -> Seq<SampledSlot>
    decreases entries.len(),
{
    if entries.len() == 0 {
        Seq::empty()
    } else {
        seq![entries[0].slot] + emptied(without(entries, 0))
    }
}

/// How many bytes the entries were filled from.
pub open spec fn total_len(entries: Seq<CachedImage>) -> nat
    decreases entries.len(),
{
    if entries.len() == 0 {
        0
    } else {
        total_len(entries.drop_last()) + entries.last().content_len as nat
    }
}

/// A byte count that was exact still is, unless there are too many bytes to
/// count.
pub open spec fn still_exact(before: SampledCache, after: SampledCache) -> bool {
    before.exact() && total_len(after@) <= u64::MAX ==> after.exact()
}

proof fn lemma_total_update(entries: Seq<CachedImage>, i: int, entry: CachedImage)
    requires
        0 <= i < entries.len(),
    ensures
        total_len(entries.update(i, entry)) == total_len(entries) - entries[i].content_len
            + entry.content_len,
    decreases entries.len(),
{
    let next = entries.update(i, entry);
    if i == entries.len() - 1 {
        assert(next.drop_last() =~= entries.drop_last());
    } else {
        assert(next.drop_last() =~= entries.drop_last().update(i, entry));
        lemma_total_update(entries.drop_last(), i, entry);
    }
}

proof fn lemma_total_without(entries: Seq<CachedImage>, i: int)
    requires
        0 <= i < entries.len(),
    ensures
        total_len(without(entries, i)) == total_len(entries) - entries[i].content_len,
{
    lemma_total_update(entries, i, entries.last());
    let moved = entries.update(i, entries.last());
    if i == entries.len() - 1 {
        assert(moved =~= entries);
    }
    assert(moved.last() == entries.last());
}

proof fn lemma_hit_is_first(
    entries: Seq<CachedImage>,
    key: SampledKey,
    content: Seq<u8>,
    hash: u128,
    live: LiveOwners,
    i: int,
)
    requires
        is_hit(entries, key, content, hash, live, i),
    ensures
        hit(entries, key, content, hash, live) == Some(i),
{
    let k = choose|k: int| is_hit(entries, key, content, hash, live, k);
    assert(is_hit(entries, key, content, hash, live, k));
    if k < i {
        assert(entries[k].owned(live) && entries[k].matches(key, content, hash));
    }
    if i < k {
        assert(entries[i].owned(live) && entries[i].matches(key, content, hash));
    }
}

/// How an image fared that was offered to the cache.
#[derive(Clone, Copy, Debug, PartialEq, Eq, Structural)]
pub enum Admission {
    /// It is an entry now.
    Kept,
    /// Another entry holds the same.
    Duplicate,
    /// No live resource asked for it.
    NoLifetime,
}

impl Admission {
    /// What the outcome is counted under.
    pub open spec fn route_text(self) -> Seq<char> {
        match self {
            Admission::Kept => "sampled_admit_kept"@,
            Admission::Duplicate => "sampled_admit_duplicate"@,
            Admission::NoLifetime => "sampled_admit_no_lifetime"@,
        }
    }

    /// What the outcome is counted under.
    pub fn route(&self) -> (route: &'static str)
        ensures
            route@ == self.route_text(),
    {
        match self {
            Admission::Kept => "sampled_admit_kept",
            Admission::Duplicate => "sampled_admit_duplicate",
            Admission::NoLifetime => "sampled_admit_no_lifetime",
        }
    }
}

/// Sampled images kept under their bytes.
#[derive(Debug)]
pub struct SampledCache {
    /// The entries.
    pub entries: Vec<ResidentSampledSlot>,
    /// How many bytes they were filled from.
    pub bytes: u64,
}

/// The difference, or zero.
pub open spec fn less(a: u64, b: u64) -> u64 {
    if a < b {
        0
    } else {
        (a - b) as u64
    }
}

impl View for SampledCache {
    type V = Seq<CachedImage>;

    open spec fn view(&self) -> Seq<CachedImage> {
        self.entries@.map_values(|entry: ResidentSampledSlot| entry@)
    }
}

impl SampledCache {
    /// The byte count is exact.
    pub open spec fn exact(self) -> bool {
        self.bytes == total_len(self@)
    }

    /// An empty cache.
    pub fn new() -> (cache: SampledCache)
        ensures
            cache@ == Seq::<CachedImage>::empty(),
            cache.bytes == 0,
            cache.exact(),
    {
        let cache = SampledCache { entries: Vec::new(), bytes: 0 };
        assert(cache@ =~= Seq::<CachedImage>::empty());
        cache
    }

    /// How many images are cached.
    pub fn len(&self) -> (len: usize)
        ensures
            len == self@.len(),
    {
        self.entries.len()
    }

    /// Where the first owned entry is that holds `content` in the shape `key`.
    fn position(&self, key: SampledKey, content: &[u8], hash: u128, live: &LiveOwners) -> (found:
        Option<usize>)
        ensures
            match found {
                Some(i) => i < self.entries@.len() && hit(self@, key, content@, hash, *live)
                    == Some(i as int),
                None => hit(self@, key, content@, hash, *live) is None,
            },
    {
        let mut i: usize = 0;
        while i < self.entries.len()
            invariant
                i <= self.entries@.len(),
                forall|j: int|
                    0 <= j < i ==> !((#[trigger] self@[j]).owned(*live) && self@[j].matches(
                        key,
                        content@,
                        hash,
                    )),
            decreases self.entries@.len() - i,
        {
            if self.entries[i].has_live_owner(live) && self.entries[i].is_match(key, content, hash) {
                proof {
                    assert(self@[i as int] == self.entries@[i as int]@);
                    lemma_hit_is_first(self@, key, content@, hash, *live, i as int);
                }
                return Some(i);
            }
            assert(self@[i as int] == self.entries@[i as int]@);
            i += 1;
        }
        proof {
            if exists|k: int| is_hit(self@, key, content@, hash, *live, k) {
                let k = choose|k: int| is_hit(self@, key, content@, hash, *live, k);
                assert(self@[k].owned(*live) && self@[k].matches(key, content@, hash));
            }
        }
        None
    }

    /// The cached image of shape `key` filled from `content`, asked for by the
    /// resource `owner`. The bytes decide, not the digest.
    pub fn find_cached_sampled(
        &mut self,
        key: SampledKey,
        content: &[u8],
        hash: u128,
        owner: Option<u64>,
        live: &LiveOwners,
        now_ms: u64,
    ) -> (found: Option<SampledSlot>)
        ensures
            (found, final(self)@) == looked_up(
                old(self)@,
                key,
                content@,
                hash,
                owner,
                *live,
                now_ms,
            ),
            final(self).bytes == old(self).bytes,
            old(self).exact() ==> final(self).exact(),
    {
        let index: usize = match self.position(key, content, hash, live) {
            Some(index) => index,
            None => return None,
        };
        let owner: u64 = match owner {
            Some(owner) => owner,
            None => return None,
        };
        if !live.is_live(owner) {
            return None;
        }
        self.entries[index].retain_owner(owner);
        self.entries[index].last_touch_ms = now_ms;
        proof {
            let after = self.entries@[index as int]@;
            assert(self@ =~= old(self)@.update(index as int, after));
            lemma_total_update(old(self)@, index as int, after);
        }
        Some(self.entries[index].slot.handles())
    }

    /// Offer an image to the cache.
    pub fn offer(
        &mut self,
        slot: SampledSlot,
        retain: SampledRetain,
        live: &LiveOwners,
        now_ms: u64,
    ) -> (admission: Admission)
        ensures
            (admission, final(self)@) == offered(old(self)@, slot, retain, *live, now_ms),
            final(self).bytes == if admission is Kept {
                crate::pools::staging::saturated(old(self).bytes, retain.content@.len() as u64)
            } else {
                old(self).bytes
            },
            total_len(final(self)@) >= total_len(old(self)@),
            still_exact(*old(self), *final(self)),
    {
        let owner: u64 = match retain.resource_lifetime {
            Some(owner) => owner,
            None => return Admission::NoLifetime,
        };
        if !live.is_live(owner) {
            return Admission::NoLifetime;
        }
        let content_len: u64 = retain.content.len() as u64;
        match self.position(slot.shape, retain.content.as_slice(), retain.content_hash, live) {
            Some(index) => {
                self.entries[index].retain_owner(owner);
                proof {
                    let after = self.entries@[index as int]@;
                    assert(self@ =~= old(self)@.update(index as int, after));
                    lemma_total_update(old(self)@, index as int, after);
                }
                Admission::Duplicate
            },
            None => {
                self.bytes = self.bytes.saturating_add(content_len);
                let mut owners: Vec<u64> = Vec::new();
                owners.push(owner);
                self.entries.push(
                    ResidentSampledSlot {
                        slot,
                        fingerprint: retain.content_hash,
                        content: Some(retain.content),
                        content_len,
                        owners,
                        last_touch_ms: now_ms,
                    },
                );
                proof {
                    let entry = self.entries@.last()@;
                    assert(entry.owners =~= seq![owner]);
                    assert(self@ =~= old(self)@.push(entry));
                    assert(self@.drop_last() =~= old(self)@);
                }
                Admission::Kept
            },
        }
    }

    /// Take the entry at `index` out. The last takes its place.
    pub fn remove_sampled_entry(&mut self, index: usize) -> (slot: SampledSlot)
        requires
            index < old(self)@.len(),
        ensures
            slot == old(self)@[index as int].slot,
            final(self)@ == without(old(self)@, index as int),
            final(self).bytes == less(old(self).bytes, old(self)@[index as int].content_len),
            old(self).exact() ==> final(self).exact(),
    {
        proof {
            lemma_total_without(self@, index as int);
        }
        let evicted = self.entries.swap_remove(index);
        self.bytes = self.bytes.saturating_sub(evicted.content_len);
        assert(self@ =~= without(old(self)@, index as int));
        evicted.slot
    }

    /// Take out every entry that no resource owns any more.
    pub fn take_released_sampled_entries(&mut self, live: &LiveOwners) -> (out: Vec<SampledSlot>)
        ensures
            (final(self)@, out@) == released(old(self)@, *live),
            old(self).exact() ==> final(self).exact(),
    {
        let mut out: Vec<SampledSlot> = Vec::new();
        let mut i: usize = 0;
        assert(released(self@, *live).1 =~= out@ + released(self@, *live).1);
        while i < self.entries.len()
            invariant
                i <= self.entries@.len(),
                forall|j: int| 0 <= j < i ==> (#[trigger] self@[j]).owned(*live),
                released(old(self)@, *live) == (
                    released(self@, *live).0,
                    out@ + released(self@, *live).1,
                ),
                old(self).exact() ==> self.exact(),
            decreases self.entries@.len() - i,
        {
            assert(self@[i as int] == self.entries@[i as int]@);
            if self.entries[i].has_live_owner(live) {
                i += 1;
            } else {
                let ghost before = self@;
                proof {
                    assert(is_first_dead(before, *live, i as int));
                    let k = choose|k: int| is_first_dead(before, *live, k);
                    assert(is_first_dead(before, *live, k));
                    if k < i {
                        assert(before[k].owned(*live));
                    }
                    if i < k {
                        assert(before[i as int].owned(*live));
                    }
                }
                let ghost so_far = out@;
                out.push(self.remove_sampled_entry(i));
                proof {
                    let rest = released(self@, *live);
                    assert(so_far + (seq![before[i as int].slot] + rest.1) =~= out@ + rest.1);
                    assert forall|j: int| 0 <= j < i implies (#[trigger] self@[j]).owned(*live) by {
                        assert(before[j].owned(*live));
                    }
                }
            }
        }
        proof {
            assert(!(exists|k: int| is_first_dead(self@, *live, k))) by {
                if exists|k: int| is_first_dead(self@, *live, k) {
                    let k = choose|k: int| is_first_dead(self@, *live, k);
                    assert(self@[k].owned(*live));
                }
            }
            assert(out@ + Seq::<SampledSlot>::empty() =~= out@);
        }
        out
    }

    /// Empty the cache, the oldest entry first.
    pub fn drain(&mut self) -> (out: Vec<SampledSlot>)
        ensures
            final(self)@.len() == 0,
            final(self).exact(),
            out@ == old(self)@.map_values(|entry: CachedImage| entry.slot),
    {
        let mut entries: Vec<ResidentSampledSlot> = Vec::new();
        std::mem::swap(&mut entries, &mut self.entries);
        self.bytes = 0;
        let mut out: Vec<SampledSlot> = Vec::new();
        let mut k: usize = 0;
        while k < entries.len()
            invariant
                k <= entries@.len(),
                out@.len() == k,
                forall|i: int| 0 <= i < k ==> out@[i] == entries@[i].slot,
            decreases entries@.len() - k,
        {
            out.push(entries[k].slot);
            k += 1;
        }
        out
    }

    /// Take every entry out.
    pub fn take_whole_sampled_cache(&mut self) -> (out: Vec<SampledSlot>)
        ensures
            final(self)@.len() == 0,
            out@ == emptied(old(self)@),
            old(self).exact() ==> final(self).exact(),
    {
        let mut out: Vec<SampledSlot> = Vec::new();
        assert(emptied(self@) =~= out@ + emptied(self@));
        while self.entries.len() > 0
            invariant
                emptied(old(self)@) == out@ + emptied(self@),
                old(self).exact() ==> self.exact(),
            decreases self.entries@.len(),
        {
            let ghost before = self@;
            let ghost so_far = out@;
            out.push(self.remove_sampled_entry(0));
            assert(so_far + (seq![before[0].slot] + emptied(self@)) =~= out@ + emptied(self@));
        }
        assert(out@ + Seq::<SampledSlot>::empty() =~= out@);
        out
    }
}

/// Whoever finds an image finds the exact bytes it asked for: two contents with
/// one digest never answer for each other.
pub proof fn law_a_hit_holds_the_bytes_asked_for(
    entries: Seq<CachedImage>,
    key: SampledKey,
    content: Seq<u8>,
    hash: u128,
    owner: Option<u64>,
    live: LiveOwners,
    now_ms: u64,
)
    requires
        looked_up(entries, key, content, hash, owner, live, now_ms).0 is Some,
    ensures
        exists|i: int|
            0 <= i < entries.len() && (#[trigger] entries[i]).content == Some(content)
                && entries[i].slot.shape == key && looked_up(
                entries,
                key,
                content,
                hash,
                owner,
                live,
                now_ms,
            ).0 == Some(entries[i].slot),
{
    let i = hit(entries, key, content, hash, live)->0;
    assert(is_hit(entries, key, content, hash, live, i));
}

/// What was kept is found: a live resource that asks for the same bytes in the
/// same shape is given the image.
pub proof fn law_what_was_kept_is_found(
    entries: Seq<CachedImage>,
    slot: SampledSlot,
    retain: SampledRetain,
    live: LiveOwners,
    now_ms: u64,
)
    requires
        offered(entries, slot, retain, live, now_ms).0 is Kept,
    ensures
        looked_up(
            offered(entries, slot, retain, live, now_ms).1,
            slot.shape,
            retain.content@,
            retain.content_hash,
            retain.resource_lifetime,
            live,
            now_ms,
        ).0 == Some(slot),
{
    let after = offered(entries, slot, retain, live, now_ms).1;
    let i = entries.len() as int;
    let owner = retain.resource_lifetime->0;
    assert(after[i].owners[0] == owner);
    assert(after[i].owned(live));
    assert forall|j: int| 0 <= j < i implies !((#[trigger] after[j]).owned(live)
        && after[j].matches(slot.shape, retain.content@, retain.content_hash)) by {
        assert(after[j] == entries[j]);
        if entries[j].owned(live) && entries[j].matches(
            slot.shape,
            retain.content@,
            retain.content_hash,
        ) {
            lemma_some_hit(entries, slot.shape, retain.content@, retain.content_hash, live, j);
        }
    }
    assert(is_hit(after, slot.shape, retain.content@, retain.content_hash, live, i));
    lemma_hit_is_first(after, slot.shape, retain.content@, retain.content_hash, live, i);
}

proof fn lemma_some_hit(
    entries: Seq<CachedImage>,
    key: SampledKey,
    content: Seq<u8>,
    hash: u128,
    live: LiveOwners,
    k: int,
)
    requires
        0 <= k < entries.len(),
        entries[k].owned(live) && entries[k].matches(key, content, hash),
    ensures
        hit(entries, key, content, hash, live) is Some,
    decreases k,
{
    if exists|j: int|
        0 <= j < k && (#[trigger] entries[j]).owned(live) && entries[j].matches(key, content, hash) {
        let j = choose|j: int|
            0 <= j < k && (#[trigger] entries[j]).owned(live) && entries[j].matches(
                key,
                content,
                hash,
            );
        lemma_some_hit(entries, key, content, hash, live, j);
    } else {
        assert(is_hit(entries, key, content, hash, live, k));
    }
}

/// After the entries without an owner are taken out, every entry has one, and
/// no owned entry went.
pub proof fn law_only_ownerless_entries_go(entries: Seq<CachedImage>, live: LiveOwners)
    ensures
        forall|k: int|
            0 <= k < released(entries, live).0.len() ==> (#[trigger] released(
                entries,
                live,
            ).0[k]).owned(live),
        forall|entry: CachedImage|
            entries.contains(entry) && entry.owned(live) ==> #[trigger] released(
                entries,
                live,
            ).0.contains(entry),
        released(entries, live).0.len() + released(entries, live).1.len() == entries.len(),
    decreases entries.len(),
{
    if exists|i: int| is_first_dead(entries, live, i) {
        let i = choose|i: int| is_first_dead(entries, live, i);
        assert(is_first_dead(entries, live, i));
        let rest = without(entries, i);
        law_only_ownerless_entries_go(rest, live);
        assert forall|entry: CachedImage|
            entries.contains(entry) && entry.owned(live) implies #[trigger] released(
            entries,
            live,
        ).0.contains(entry) by {
            let k = choose|k: int| 0 <= k < entries.len() && entries[k] == entry;
            assert(k != i);
            if k == entries.len() - 1 {
                assert(rest[i] == entry);
            } else {
                assert(rest[k] == entry);
            }
            assert(rest.contains(entry));
            assert(released(rest, live).0.contains(entry));
        }
    } else {
        assert forall|k: int| 0 <= k < entries.len() implies (#[trigger] entries[k]).owned(live) by {
            if !entries[k].owned(live) {
                lemma_some_dead(entries, live, k);
            }
        }
    }
}

proof fn lemma_some_dead(entries: Seq<CachedImage>, live: LiveOwners, k: int)
    requires
        0 <= k < entries.len(),
        !entries[k].owned(live),
    ensures
        exists|i: int| is_first_dead(entries, live, i),
    decreases k,
{
    if exists|j: int| 0 <= j < k && !(#[trigger] entries[j]).owned(live) {
        let j = choose|j: int| 0 <= j < k && !(#[trigger] entries[j]).owned(live);
        lemma_some_dead(entries, live, j);
    } else {
        assert(is_first_dead(entries, live, k));
    }
}

/// A look finds an image exactly where a live resource asks and some entry that a
/// live resource owns was filled from the same bytes in the same shape. The
/// finder owns the entry from then on; its image, its bytes and every other entry
/// stay.
pub proof fn law_a_look_finds_what_an_owned_entry_holds(
    entries: Seq<CachedImage>,
    key: SampledKey,
    content: Seq<u8>,
    hash: u128,
    owner: Option<u64>,
    live: LiveOwners,
    now_ms: u64,
)
    ensures
        ({
            let (found, after) = looked_up(entries, key, content, hash, owner, live, now_ms);
            &&& found is Some <==> {
                &&& owner matches Some(asker) && live.alive@.contains(asker)
                &&& exists|i: int|
                    0 <= i < entries.len() && (#[trigger] entries[i]).owned(live)
                        && entries[i].slot.shape == key && entries[i].fingerprint == hash
                        && entries[i].content == Some(content)
            }
            &&& found is None ==> after == entries
            &&& found matches Some(slot) ==> {
                &&& after.len() == entries.len()
                &&& exists|i: int|
                    0 <= i < entries.len() && (#[trigger] entries[i]).slot == slot
                        && after[i].owners.contains(owner->0) && after[i].last_touch_ms == now_ms
                        && after[i].slot == slot && after[i].content == entries[i].content
                        && after[i].fingerprint == entries[i].fingerprint && after[i].content_len
                        == entries[i].content_len && forall|j: int|
                        0 <= j < entries.len() && j != i ==> #[trigger] after[j] == entries[j]
            }
        }),
{
    let (found, after) = looked_up(entries, key, content, hash, owner, live, now_ms);
    if exists|i: int|
        0 <= i < entries.len() && (#[trigger] entries[i]).owned(live) && entries[i].slot.shape
            == key && entries[i].fingerprint == hash && entries[i].content == Some(content) {
        let i = choose|i: int|
            0 <= i < entries.len() && (#[trigger] entries[i]).owned(live) && entries[i].slot.shape
                == key && entries[i].fingerprint == hash && entries[i].content == Some(content);
        assert(entries[i].matches(key, content, hash));
        lemma_some_hit(entries, key, content, hash, live, i);
    }
    if let Some(slot) = found {
        let i = hit(entries, key, content, hash, live)->0;
        assert(is_hit(entries, key, content, hash, live, i));
        law_an_owner_is_added_once(entries[i].owners, owner->0);
        assert(entries[i].slot == slot);
    }
}

/// A resource that asks for an image is among its owners, once, and the others
/// stay.
pub proof fn law_an_owner_is_added_once(owners: Seq<u64>, owner: u64)
    ensures
        with_owner(owners, owner).contains(owner),
        forall|other: u64|
            other != owner ==> (#[trigger] with_owner(owners, owner).contains(other)
                <==> owners.contains(other)),
        owners.no_duplicates() ==> with_owner(owners, owner).no_duplicates(),
        owners.contains(owner) ==> with_owner(owners, owner) == owners,
{
    let after = with_owner(owners, owner);
    if !owners.contains(owner) {
        assert(after[owners.len() as int] == owner);
        assert forall|other: u64| other != owner implies (#[trigger] after.contains(other)
            <==> owners.contains(other)) by {
            if owners.contains(other) {
                let k = choose|k: int| 0 <= k < owners.len() && owners[k] == other;
                assert(after[k] == other);
            }
            if after.contains(other) {
                let k = choose|k: int| 0 <= k < after.len() && after[k] == other;
                assert(owners[k] == other);
            }
        }
    }
}

/// An entry is owned while one of the resources that asked for it is alive.
pub proof fn law_an_entry_is_owned_by_the_living(entry: CachedImage, live: LiveOwners)
    ensures
        entry.owned(live) <==> exists|k: int|
            0 <= k < entry.owners.len() && live.alive@.contains(#[trigger] entry.owners[k]),
{
    if entry.owned(live) {
        let k = choose|k: int| 0 <= k < entry.owners.len() && live.has(#[trigger] entry.owners[k]);
        assert(live.alive@.contains(entry.owners[k]));
    }
    if exists|k: int|
        0 <= k < entry.owners.len() && live.alive@.contains(#[trigger] entry.owners[k]) {
        let k = choose|k: int|
            0 <= k < entry.owners.len() && live.alive@.contains(#[trigger] entry.owners[k]);
        assert(live.has(entry.owners[k]));
    }
}

/// An image that is offered is kept exactly where a live resource asked for it and
/// no owned entry holds the same bytes in the same shape: its entry tells what it
/// was filled from, for whom and when. One whose bytes are held makes its asker an
/// owner, and one that nobody alive asked for changes nothing.
pub proof fn law_an_offered_image_is_kept_once(
    entries: Seq<CachedImage>,
    slot: SampledSlot,
    retain: SampledRetain,
    live: LiveOwners,
    now_ms: u64,
)
    ensures
        ({
            let (admission, after) = offered(entries, slot, retain, live, now_ms);
            let asked = retain.resource_lifetime matches Some(owner) && live.alive@.contains(owner);
            let held = exists|i: int|
                0 <= i < entries.len() && (#[trigger] entries[i]).owned(live)
                    && entries[i].slot.shape == slot.shape && entries[i].fingerprint
                    == retain.content_hash && entries[i].content == Some(retain.content@);
            &&& admission is NoLifetime <==> !asked
            &&& admission is Duplicate <==> asked && held
            &&& admission is Kept <==> asked && !held
            &&& admission is NoLifetime ==> after == entries
            &&& admission is Kept ==> {
                &&& after.len() == entries.len() + 1
                &&& forall|j: int| 0 <= j < entries.len() ==> #[trigger] after[j] == entries[j]
                &&& after.last().slot == slot
                &&& after.last().fingerprint == retain.content_hash
                &&& after.last().content == Some(retain.content@)
                &&& after.last().content_len == retain.content@.len() as u64
                &&& after.last().owners == seq![retain.resource_lifetime->0]
                &&& after.last().last_touch_ms == now_ms
            }
            &&& admission is Duplicate ==> {
                &&& after.len() == entries.len()
                &&& exists|i: int|
                    0 <= i < entries.len() && after[i].owners.contains(
                        retain.resource_lifetime->0,
                    ) && (#[trigger] entries[i]).content == Some(retain.content@) && after[i].slot
                        == entries[i].slot && forall|j: int|
                        0 <= j < entries.len() && j != i ==> #[trigger] after[j] == entries[j]
            }
        }),
{
    let (admission, after) = offered(entries, slot, retain, live, now_ms);
    let key = slot.shape;
    let content = retain.content@;
    let hash = retain.content_hash;
    if exists|i: int|
        0 <= i < entries.len() && (#[trigger] entries[i]).owned(live) && entries[i].slot.shape
            == key && entries[i].fingerprint == hash && entries[i].content == Some(content) {
        let i = choose|i: int|
            0 <= i < entries.len() && (#[trigger] entries[i]).owned(live) && entries[i].slot.shape
                == key && entries[i].fingerprint == hash && entries[i].content == Some(content);
        assert(entries[i].matches(key, content, hash));
        lemma_some_hit(entries, key, content, hash, live, i);
    }
    if admission is Duplicate {
        let i = hit(entries, key, content, hash, live)->0;
        assert(is_hit(entries, key, content, hash, live, i));
        law_an_owner_is_added_once(entries[i].owners, retain.resource_lifetime->0);
        assert(entries[i].content == Some(content));
    }
}

/// What goes is the image of an entry that nobody alive owns, and nothing goes
/// while every entry is owned.
pub proof fn law_what_is_released_was_owned_by_nobody(entries: Seq<CachedImage>, live: LiveOwners)
    ensures
        forall|k: int|
            0 <= k < released(entries, live).1.len() ==> exists|i: int|
                0 <= i < entries.len() && !(#[trigger] entries[i]).owned(live) && entries[i].slot
                    == #[trigger] released(entries, live).1[k],
        forall|k: int|
            0 <= k < released(entries, live).0.len() ==> entries.contains(
                #[trigger] released(entries, live).0[k],
            ),
        (forall|i: int| 0 <= i < entries.len() ==> (#[trigger] entries[i]).owned(live))
            ==> released(entries, live).0 == entries,
    decreases entries.len(),
{
    if exists|i: int| is_first_dead(entries, live, i) {
        let i = choose|i: int| is_first_dead(entries, live, i);
        assert(is_first_dead(entries, live, i));
        let rest = without(entries, i);
        law_what_is_released_was_owned_by_nobody(rest, live);
        law_taking_an_entry_out_keeps_the_others(entries, i);
        let (kept, out) = released(rest, live);
        let all = released(entries, live).1;
        assert(all =~= seq![entries[i].slot] + out);
        assert forall|k: int| 0 <= k < all.len() implies exists|n: int|
            0 <= n < entries.len() && !(#[trigger] entries[n]).owned(live) && entries[n].slot
                == #[trigger] all[k] by {
            if k == 0 {
                assert(!entries[i].owned(live) && entries[i].slot == all[0]);
            } else {
                assert(all[k] == out[k - 1]);
                let n = choose|n: int|
                    0 <= n < rest.len() && !(#[trigger] rest[n]).owned(live) && rest[n].slot
                        == out[k - 1];
                assert(entries.contains(rest[n]));
                let m = choose|m: int| 0 <= m < entries.len() && entries[m] == rest[n];
                assert(!entries[m].owned(live) && entries[m].slot == all[k]);
            }
        }
        assert forall|k: int| 0 <= k < kept.len() implies entries.contains(#[trigger] kept[k]) by {
            assert(rest.contains(kept[k]));
            let n = choose|n: int| 0 <= n < rest.len() && rest[n] == kept[k];
            assert(entries.contains(rest[n]));
        }
    } else {
        assert forall|k: int| 0 <= k < entries.len() implies entries.contains(
            #[trigger] released(entries, live).0[k],
        ) by {
            assert(entries[k] == released(entries, live).0[k]);
        }
    }
}

/// Taking one entry out leaves every other one.
pub proof fn law_taking_an_entry_out_keeps_the_others(entries: Seq<CachedImage>, i: int)
    requires
        0 <= i < entries.len(),
    ensures
        without(entries, i).len() == entries.len() - 1,
        forall|k: int|
            0 <= k < without(entries, i).len() ==> entries.contains(
                #[trigger] without(entries, i)[k],
            ),
        forall|j: int|
            0 <= j < entries.len() && j != i ==> without(entries, i).contains(
                #[trigger] entries[j],
            ),
{
    let rest = without(entries, i);
    assert forall|k: int| 0 <= k < rest.len() implies entries.contains(#[trigger] rest[k]) by {
        if k == i {
            assert(rest[k] == entries[entries.len() - 1]);
        } else {
            assert(rest[k] == entries[k]);
        }
    }
    assert forall|j: int| 0 <= j < entries.len() && j != i implies rest.contains(
        #[trigger] entries[j],
    ) by {
        if j == entries.len() - 1 {
            assert(rest[i] == entries[j]);
        } else {
            assert(rest[j] == entries[j]);
        }
    }
}

/// Emptying the cache gives up the image of every entry, and as many as there were.
pub proof fn law_emptying_gives_up_every_image(entries: Seq<CachedImage>)
    ensures
        emptied(entries).len() == entries.len(),
        forall|i: int|
            0 <= i < entries.len() ==> emptied(entries).contains((#[trigger] entries[i]).slot),
    decreases entries.len(),
{
    if entries.len() > 0 {
        let rest = without(entries, 0);
        law_emptying_gives_up_every_image(rest);
        law_taking_an_entry_out_keeps_the_others(entries, 0);
        let all = emptied(entries);
        assert(all =~= seq![entries[0].slot] + emptied(rest));
        assert forall|i: int| 0 <= i < entries.len() implies all.contains(
            (#[trigger] entries[i]).slot,
        ) by {
            if i == 0 {
                assert(all[0] == entries[0].slot);
            } else {
                assert(rest.contains(entries[i]));
                let n = choose|n: int| 0 <= n < rest.len() && rest[n] == entries[i];
                assert(emptied(rest).contains(rest[n].slot));
                let m = choose|m: int|
                    0 <= m < emptied(rest).len() && emptied(rest)[m] == rest[n].slot;
                assert(all[m + 1] == entries[i].slot);
            }
        }
    }
}

/// The bytes of a cache are those of its entries together.
pub proof fn law_an_entry_adds_its_bytes(entries: Seq<CachedImage>, entry: CachedImage)
    ensures
        total_len(Seq::<CachedImage>::empty()) == 0,
        total_len(entries.push(entry)) == total_len(entries) + entry.content_len,
        forall|a: u64, b: u64| #[trigger] less(a, b) == if a >= b {
            a - b
        } else {
            0
        },
{
    assert(entries.push(entry).drop_last() =~= entries);
}

/// Each outcome of an admission is counted under a name of its own.
pub proof fn law_each_admission_has_its_own_route(a: Admission, b: Admission)
    ensures
        a.route_text() == b.route_text() <==> a == b,
{
    reveal_strlit("sampled_admit_kept");
    reveal_strlit("sampled_admit_duplicate");
    reveal_strlit("sampled_admit_no_lifetime");
    if a.route_text() == b.route_text() {
        assert(a.route_text().len() == b.route_text().len());
    }
}

/// Of the entries that no resource owns the first goes first, the last entry takes its place,
/// and the rest goes as it would have gone from there.
pub proof fn law_the_first_ownerless_entry_goes_first(
    entries: Seq<CachedImage>,
    live: LiveOwners,
    i: int,
)
    requires
        0 <= i < entries.len(),
        !entries[i].owned(live),
        forall|j: int| 0 <= j < i ==> (#[trigger] entries[j]).owned(live),
    ensures
        released(entries, live).1.len() > 0,
        released(entries, live).1[0] == entries[i].slot,
        released(entries, live).0 == released(
            entries.update(i, entries.last()).drop_last(),
            live,
        ).0,
        released(entries, live).1.drop_first() == released(
            entries.update(i, entries.last()).drop_last(),
            live,
        ).1,
{
    assert(is_first_dead(entries, live, i));
    let found = choose|k: int| is_first_dead(entries, live, k);
    assert(is_first_dead(entries, live, found));
    if found < i {
        assert(entries[found].owned(live));
    }
    if i < found {
        assert(entries[i].owned(live));
    }
    assert(found == i);
    let rest = released(without(entries, i), live);
    assert((seq![entries[i].slot] + rest.1).drop_first() =~= rest.1);
}

} // verus!
