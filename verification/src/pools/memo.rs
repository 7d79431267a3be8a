//! What a command buffer remembers of the binds it has already served.

use crate::pools::keyed::{holds_id, ids_distinct, map_of, Keyed, KeyedMap};
use crate::pools::slots::{SampledKey, SampledSlot};
use crate::vk::Buffer;
use std::sync::Arc;
use vstd::prelude::*;

verus! {

/// What names the content of a bind: an allocation and a range of it.
#[derive(Clone, Copy, Debug, PartialEq, Eq, Structural)]
pub struct BindKey {
    /// The address of the allocation that holds the content.
    pub address: u64,
    /// Where the content begins.
    pub offset: u64,
    /// Its length.
    pub len: u64,
}

impl Keyed for BindKey {
    type Id = BindKey;

    open spec fn id(&self) -> BindKey {
        *self
    }

    fn same(&self, other: &Self) -> (same: bool) {
        *self == *other
    }
}

/// A run of guest memory.
#[derive(Clone, Copy, Debug, PartialEq, Eq, Structural)]
pub struct GuestRun {
    /// Its host address.
    pub host_ptr: u64,
    /// Its length.
    pub len: u64,
}

/// What a bind's content lives in. Whoever remembers the bind holds it, so its
/// address is not given to another allocation meanwhile.
#[derive(Clone, Debug)]
pub enum CbBindAllocation {
    /// Bytes that nothing changes.
    Bytes(Arc<Vec<u8>>),
    /// Guest memory.
    GuestRuns(Arc<Vec<GuestRun>>),
}

/// A bind with the allocation that its key names.
#[derive(Clone, Debug)]
pub struct CbBind {
    /// What names it.
    pub key: BindKey,
    /// What holds its content.
    pub allocation: CbBindAllocation,
}

/// The buffer that serves a bind.
#[derive(Clone, Copy, Debug, PartialEq, Eq, Structural)]
pub struct BoundBuffer {
    /// The buffer.
    pub buffer: Buffer,
    /// Where the content begins in it.
    pub offset: u64,
    /// Whether it is the guest's own memory.
    pub guest_import: bool,
}

/// A remembered bind.
#[derive(Debug)]
pub struct Remembered {
    /// What serves it.
    pub bound: BoundBuffer,
    /// What its key names.
    pub allocation: CbBindAllocation,
}

/// The binds that a command buffer has served, by how long they stay valid.
#[derive(Debug)]
pub struct CbBufferMemo {
    /// Served by the guest's own memory: valid whatever is written.
    pub aliases: KeyedMap<BindKey, Remembered>,
    /// Copies of bytes that nothing changes.
    pub immutable: KeyedMap<BindKey, Remembered>,
    /// Copies of guest memory: valid until it may have changed.
    pub guest_snapshots: KeyedMap<BindKey, Remembered>,
}

/// Which map of a memo a bind belongs to.
pub enum MemoClass {
    /// `aliases`.
    Alias,
    /// `immutable`.
    Immutable,
    /// `guest_snapshots`.
    Snapshot,
}

/// Which map of a memo a bind belongs to.
pub open spec fn class_of(allocation: CbBindAllocation, bound: BoundBuffer) -> MemoClass {
    if bound.guest_import {
        MemoClass::Alias
    } else if allocation is Bytes {
        MemoClass::Immutable
    } else {
        MemoClass::Snapshot
    }
}

/// `after` remembers `held` under `key` in the map of its class and in no other,
/// and everything else as `before` does.
pub open spec fn noted(
    before: CbBufferMemo,
    after: CbBufferMemo,
    key: BindKey,
    held: Remembered,
) -> bool {
    let class = class_of(held.allocation, held.bound);
    &&& after.aliases@ == if class is Alias {
        before.aliases@.insert(key, held)
    } else {
        before.aliases@.remove(key)
    }
    &&& after.immutable@ == if class is Immutable {
        before.immutable@.insert(key, held)
    } else {
        before.immutable@.remove(key)
    }
    &&& after.guest_snapshots@ == if class is Snapshot {
        before.guest_snapshots@.insert(key, held)
    } else {
        before.guest_snapshots@.remove(key)
    }
}

/// `after` remembers in each map what `before` does, without `keys`.
pub open spec fn forgot(before: CbBufferMemo, after: CbBufferMemo, keys: Seq<BindKey>) -> bool {
    &&& after.aliases@ == before.aliases@.remove_keys(keys.to_set())
    &&& after.immutable@ == before.immutable@.remove_keys(keys.to_set())
    &&& after.guest_snapshots@ == before.guest_snapshots@.remove_keys(keys.to_set())
}

/// Forgetting one more key is forgetting it of what is left.
pub(crate) proof fn lemma_forgot_one_more(
    before: CbBufferMemo,
    middle: CbBufferMemo,
    after: CbBufferMemo,
    keys: Seq<BindKey>,
    key: BindKey,
)
    requires
        forgot(before, middle, keys),
        after.aliases@ == middle.aliases@.remove(key),
        after.immutable@ == middle.immutable@.remove(key),
        after.guest_snapshots@ == middle.guest_snapshots@.remove(key),
    ensures
        forgot(before, after, keys.push(key)),
{
    let all = keys.push(key).to_set();
    assert forall|k: BindKey| #[trigger] all.contains(k) <==> keys.to_set().contains(k) || k
        == key by {
        if keys.to_set().contains(k) {
            let i = choose|i: int| 0 <= i < keys.len() && keys[i] == k;
            assert(keys.push(key)[i] == k);
        }
        if k == key {
            assert(keys.push(key)[keys.len() as int] == k);
        }
        if all.contains(k) {
            let i = choose|i: int| 0 <= i < keys.push(key).len() && keys.push(key)[i] == k;
            if i < keys.len() {
                assert(keys[i] == k);
                assert(keys.contains(k));
            }
        }
    }
    assert(after.aliases@ =~= before.aliases@.remove_keys(all));
    assert(after.immutable@ =~= before.immutable@.remove_keys(all));
    assert(after.guest_snapshots@ =~= before.guest_snapshots@.remove_keys(all));
}

impl CbBufferMemo {
    /// `counts` tells how many binds of each sort are remembered.
    pub open spec fn counted_by(self, counts: BindCounts) -> bool {
        &&& counts.aliases == self.aliases@.dom().len()
        &&& counts.immutable == self.immutable@.dom().len()
        &&& counts.copies == self.guest_snapshots@.dom().len()
    }

    /// How many binds of each sort are remembered.
    pub fn counts(&self) -> (counts: BindCounts)
        requires
            self.wf(),
        ensures
            self.counted_by(counts),
    {
        BindCounts {
            aliases: self.aliases.len(),
            immutable: self.immutable.len(),
            copies: self.guest_snapshots.len(),
        }
    }

    /// The maps are well formed and no bind is in two of them.
    pub open spec fn wf(self) -> bool {
        &&& self.aliases.wf()
        &&& self.immutable.wf()
        &&& self.guest_snapshots.wf()
        &&& self.aliases@.dom().disjoint(self.immutable@.dom())
        &&& self.aliases@.dom().disjoint(self.guest_snapshots@.dom())
        &&& self.immutable@.dom().disjoint(self.guest_snapshots@.dom())
    }

    /// What serves the bind under `key`, if it is remembered.
    pub open spec fn lookup(self, key: BindKey) -> Option<BoundBuffer> {
        if self.aliases@.dom().contains(key) {
            Some(self.aliases@[key].bound)
        } else if self.immutable@.dom().contains(key) {
            Some(self.immutable@[key].bound)
        } else if self.guest_snapshots@.dom().contains(key) {
            Some(self.guest_snapshots@[key].bound)
        } else {
            None
        }
    }

    /// Nothing is remembered.
    pub open spec fn is_empty(self) -> bool {
        &&& self.aliases@ == Map::<BindKey, Remembered>::empty()
        &&& self.immutable@ == Map::<BindKey, Remembered>::empty()
        &&& self.guest_snapshots@ == Map::<BindKey, Remembered>::empty()
    }

    /// A memo that remembers nothing.
    pub fn new() -> (memo: CbBufferMemo)
        ensures
            memo.wf(),
            memo.is_empty(),
    {
        CbBufferMemo {
            aliases: KeyedMap::new(),
            immutable: KeyedMap::new(),
            guest_snapshots: KeyedMap::new(),
        }
    }

    /// What serves the bind under `key`, if it is remembered.
    pub fn get(&self, key: BindKey) -> (bound: Option<BoundBuffer>)
        requires
            self.wf(),
        ensures
            bound == self.lookup(key),
    {
        if let Some(held) = self.aliases.get(&key) {
            return Some(held.bound);
        }
        if let Some(held) = self.immutable.get(&key) {
            return Some(held.bound);
        }
        match self.guest_snapshots.get(&key) {
            Some(held) => Some(held.bound),
            None => None,
        }
    }

    /// Forget the bind under `key`.
    pub fn forget(&mut self, key: BindKey)
        requires
            old(self).wf(),
        ensures
            final(self).wf(),
            final(self).aliases@ == old(self).aliases@.remove(key),
            final(self).immutable@ == old(self).immutable@.remove(key),
            final(self).guest_snapshots@ == old(self).guest_snapshots@.remove(key),
    {
        let _ = self.aliases.remove(&key);
        let _ = self.immutable.remove(&key);
        let _ = self.guest_snapshots.remove(&key);
    }

    /// Remember what serves `bind`, in place of what did.
    pub fn note(&mut self, bind: CbBind, bound: BoundBuffer)
        requires
            old(self).wf(),
        ensures
            final(self).wf(),
            noted(
                *old(self),
                *final(self),
                bind.key,
                Remembered { bound, allocation: bind.allocation },
            ),
    {
        let key: BindKey = bind.key;
        self.forget(key);
        let is_bytes = match &bind.allocation {
            CbBindAllocation::Bytes(_) => true,
            CbBindAllocation::GuestRuns(_) => false,
        };
        let held = Remembered { bound, allocation: bind.allocation };
        if bound.guest_import {
            self.aliases.insert(key, held);
            assert(self.aliases@ =~= old(self).aliases@.insert(key, held));
        } else if is_bytes {
            self.immutable.insert(key, held);
            assert(self.immutable@ =~= old(self).immutable@.insert(key, held));
        } else {
            self.guest_snapshots.insert(key, held);
            assert(self.guest_snapshots@ =~= old(self).guest_snapshots@.insert(key, held));
        }
    }

    /// Forget the copies of guest memory. Says how many were forgotten and how
    /// many aliases stay.
    pub fn forget_copies(&mut self) -> (counts: (usize, usize))
        requires
            old(self).wf(),
        ensures
            final(self).wf(),
            final(self).aliases == old(self).aliases,
            final(self).immutable == old(self).immutable,
            final(self).guest_snapshots@ == Map::<BindKey, Remembered>::empty(),
            counts.0 == old(self).guest_snapshots@.dom().len(),
            counts.1 == old(self).aliases@.dom().len(),
    {
        let invalidated: usize = self.guest_snapshots.len();
        let retained: usize = self.aliases.len();
        self.guest_snapshots.clear();
        (invalidated, retained)
    }

    /// How many binds are remembered, where that is a number.
    pub open spec fn size(self) -> nat {
        self.aliases@.dom().len() + self.immutable@.dom().len() + self.guest_snapshots@.dom().len()
    }
}

/// A store by the guest keeps every alias and every copy of immutable bytes,
/// and forgets exactly the copies of guest memory.
pub proof fn law_store_keeps_aliases_and_immutable_copies(
    before: CbBufferMemo,
    after: CbBufferMemo,
    key: BindKey,
)
    requires
        before.wf(),
        after.aliases == before.aliases,
        after.immutable == before.immutable,
        after.guest_snapshots@ == Map::<BindKey, Remembered>::empty(),
    ensures
        after.lookup(key) == if before.guest_snapshots@.dom().contains(key) {
            None
        } else {
            before.lookup(key)
        },
{
}

/// What was just remembered is what is found.
pub proof fn law_remembered_bind_is_found(
    before: CbBufferMemo,
    after: CbBufferMemo,
    bind: CbBind,
    bound: BoundBuffer,
    other: BindKey,
)
    requires
        before.wf(),
        ({
            let key = bind.key;
            let held = Remembered { bound, allocation: bind.allocation };
            let class = class_of(bind.allocation, bound);
            &&& after.aliases@ == if class is Alias {
                before.aliases@.insert(key, held)
            } else {
                before.aliases@.remove(key)
            }
            &&& after.immutable@ == if class is Immutable {
                before.immutable@.insert(key, held)
            } else {
                before.immutable@.remove(key)
            }
            &&& after.guest_snapshots@ == if class is Snapshot {
                before.guest_snapshots@.insert(key, held)
            } else {
                before.guest_snapshots@.remove(key)
            }
        }),
    ensures
        after.lookup(bind.key) == Some(bound),
        other != bind.key ==> after.lookup(other) == before.lookup(other),
{
}

/// A set of guest pages.
#[derive(Debug)]
pub struct GuestPages {
    pages: Vec<u64>,
}

impl View for GuestPages {
    type V = Set<u64>;

    closed spec fn view(&self) -> Set<u64> {
        self.pages@.to_set()
    }
}

fn holds_page(pages: &Vec<u64>, page: u64) -> (held: bool)
    ensures
        held == pages@.contains(page),
{
    let mut k: usize = 0;
    while k < pages.len()
        invariant
            k <= pages@.len(),
            forall|j: int| 0 <= j < k ==> #[trigger] pages@[j] != page,
        decreases pages@.len() - k,
    {
        if pages[k] == page {
            assert(pages@[k as int] == page);
            return true;
        }
        k += 1;
    }
    false
}

impl GuestPages {
    /// The set of `pages`, unless there are none.
    pub fn new(pages: &[u64]) -> (set: Option<GuestPages>)
        ensures
            match set {
                Some(set) => pages@.len() > 0 && set@ == pages@.to_set(),
                None => pages@.len() == 0,
            },
    {
        if pages.len() == 0 {
            return None;
        }
        let mut copy: Vec<u64> = Vec::new();
        let mut k: usize = 0;
        while k < pages.len()
            invariant
                k <= pages@.len(),
                copy@ == pages@.take(k as int),
            decreases pages@.len() - k,
        {
            copy.push(pages[k]);
            k += 1;
            assert(copy@ =~= pages@.take(k as int));
        }
        assert(copy@ =~= pages@);
        Some(GuestPages { pages: copy })
    }

    /// Whether the two sets share a page.
    pub fn overlaps(&self, other: &GuestPages) -> (overlap: bool)
        ensures
            overlap == !self@.disjoint(other@),
    {
        let mut k: usize = 0;
        while k < self.pages.len()
            invariant
                k <= self.pages@.len(),
                forall|j: int|
                    0 <= j < k ==> !other.pages@.contains(#[trigger] self.pages@[j]),
            decreases self.pages@.len() - k,
        {
            if holds_page(&other.pages, self.pages[k]) {
                assert(self@.contains(self.pages@[k as int]));
                assert(other@.contains(self.pages@[k as int]));
                return true;
            }
            k += 1;
        }
        assert(self@.disjoint(other@)) by {
            assert forall|page: u64| !(#[trigger] self@.contains(page) && other@.contains(page)) by {
                if self@.contains(page) && other@.contains(page) {
                    let j = choose|j: int| 0 <= j < self.pages@.len() && self.pages@[j] == page;
                    assert(!other.pages@.contains(self.pages@[j]));
                }
            }
        }
        false
    }

    fn within(&self, other: &GuestPages) -> (within: bool)
        ensures
            within == self@.subset_of(other@),
    {
        let mut k: usize = 0;
        while k < self.pages.len()
            invariant
                k <= self.pages@.len(),
                forall|j: int| 0 <= j < k ==> other.pages@.contains(#[trigger] self.pages@[j]),
            decreases self.pages@.len() - k,
        {
            if !holds_page(&other.pages, self.pages[k]) {
                assert(self@.contains(self.pages@[k as int]));
                assert(!other@.contains(self.pages@[k as int]));
                return false;
            }
            k += 1;
        }
        assert forall|page: u64| #[trigger] self@.contains(page) implies other@.contains(page) by {
            let j = choose|j: int| 0 <= j < self.pages@.len() && self.pages@[j] == page;
            assert(other.pages@.contains(self.pages@[j]));
        }
        true
    }

    /// The same set once more.
    pub fn copy(&self) -> (copy: GuestPages)
        ensures
            copy@ == self@,
    {
        let mut pages: Vec<u64> = Vec::new();
        let mut k: usize = 0;
        while k < self.pages.len()
            invariant
                k <= self.pages@.len(),
                pages@ == self.pages@.take(k as int),
            decreases self.pages@.len() - k,
        {
            pages.push(self.pages[k]);
            k += 1;
            assert(pages@ =~= self.pages@.take(k as int));
        }
        assert(pages@ =~= self.pages@);
        GuestPages { pages }
    }
}

impl Keyed for GuestPages {
    type Id = Set<u64>;

    open spec fn id(&self) -> Set<u64> {
        self@
    }

    fn same(&self, other: &Self) -> (same: bool) {
        let same = self.within(other) && other.within(self);
        assert(same ==> self@ =~= other@);
        same
    }
}

/// What names a sampled copy of guest memory: the shape and the memory, not the
/// list that names the memory.
#[derive(Debug)]
pub struct SampledGuestKey {
    /// The shape.
    pub shape: SampledKey,
    /// The memory.
    pub runs: Vec<GuestRun>,
    /// Where the content begins in it.
    pub source_offset: u64,
    /// The length of the content.
    pub total_len: u64,
    /// Texels from one row to the next.
    pub row_length_texels: u32,
}

/// What a sampled copy of guest memory is a copy of.
#[verifier::ext_equal]
pub struct SampledGuestId {
    /// The shape.
    pub shape: SampledKey,
    /// The memory.
    pub runs: Seq<GuestRun>,
    /// Where the content begins in it.
    pub source_offset: u64,
    /// The length of the content.
    pub total_len: u64,
    /// Texels from one row to the next.
    pub row_length_texels: u32,
}

impl Keyed for SampledGuestKey {
    type Id = SampledGuestId;

    open spec fn id(&self) -> SampledGuestId {
        SampledGuestId {
            shape: self.shape,
            runs: self.runs@,
            source_offset: self.source_offset,
            total_len: self.total_len,
            row_length_texels: self.row_length_texels,
        }
    }

    fn same(&self, other: &Self) -> (same: bool) {
        if !(self.shape == other.shape && self.source_offset == other.source_offset
            && self.total_len == other.total_len && self.row_length_texels
            == other.row_length_texels) {
            return false;
        }
        if self.runs.len() != other.runs.len() {
            assert(self.runs@.len() != other.runs@.len());
            return false;
        }
        let mut k: usize = 0;
        while k < self.runs.len()
            invariant
                k <= self.runs@.len(),
                self.runs@.len() == other.runs@.len(),
                forall|j: int| 0 <= j < k ==> #[trigger] self.runs@[j] == other.runs@[j],
            decreases self.runs@.len() - k,
        {
            if !(self.runs[k] == other.runs[k]) {
                assert(self.runs@[k as int] != other.runs@[k as int]);
                return false;
            }
            k += 1;
        }
        assert(self.runs@ =~= other.runs@);
        true
    }
}

/// A remembered sampled copy with the pages it was copied from, where they are
/// known.
#[derive(Debug)]
pub struct SampledCopy {
    /// The image.
    pub slot: SampledSlot,
    /// The pages.
    pub pages: Option<GuestPages>,
}

/// The sampled copies that a command buffer has made.
pub type SampledMemo = KeyedMap<SampledGuestKey, SampledCopy>;

/// How many copies a write invalidated and kept.
#[derive(Clone, Copy, Debug, PartialEq, Eq, Structural)]
pub struct WriteInvalidation {
    /// Invalidated: they share a page with the write.
    pub overlap: u64,
    /// Invalidated: their pages are not known.
    pub unknown: u64,
    /// Kept: they share no page with the write.
    pub disjoint: u64,
}

/// How many binds of each sort were remembered.
#[derive(Clone, Copy, Debug, PartialEq, Eq, Structural)]
pub struct BindCounts {
    /// Those that name guest memory itself.
    pub aliases: usize,
    /// Those of bytes that nothing changes.
    pub immutable: usize,
    /// Those of copies of guest memory.
    pub copies: usize,
}

/// What a command buffer remembered when it ended.
#[derive(Clone, Copy, Debug, PartialEq, Eq, Structural)]
pub struct MemoCounts {
    /// The binds.
    pub binds: BindCounts,
    /// The sampled copies.
    pub sampled: usize,
}

/// How many copies of guest memory the processors of the guest may have made
/// stale.
#[derive(Clone, Copy, Debug, PartialEq, Eq, Structural)]
pub struct SnapshotInvalidation {
    /// The binds that were copies: forgotten.
    pub copies: usize,
    /// The binds that name the memory itself: kept.
    pub aliases: usize,
    /// The sampled copies: forgotten.
    pub sampled: usize,
}

/// How many copies of guest memory a recorded write may have made stale.
#[derive(Clone, Copy, Debug, PartialEq, Eq, Structural)]
pub struct StoreInvalidation {
    /// The binds that were copies: forgotten.
    pub copies: usize,
    /// The binds that name the memory itself: kept.
    pub aliases: usize,
    /// The sampled copies.
    pub sampled: WriteInvalidation,
}

/// Whether a copy outlives a write to `written`: only one that is known to
/// share no page does.
pub open spec fn outlives(copy: SampledCopy, written: Set<u64>) -> bool {
    copy.pages matches Some(pages) && pages@.disjoint(written)
}

/// The copies whose pages are not known.
pub open spec fn unplaced(memo: Map<SampledGuestId, SampledCopy>) -> Set<SampledGuestId> {
    memo.dom().filter(|id: SampledGuestId| memo[id].pages is None)
}

/// What a write to `written` does to the copies in `before`, of which `after` are
/// left.
pub open spec fn invalidated(
    before: Map<SampledGuestId, SampledCopy>,
    after: Map<SampledGuestId, SampledCopy>,
    counts: WriteInvalidation,
) -> bool {
    &&& counts.overlap + counts.unknown + counts.disjoint == before.dom().len()
    &&& counts.unknown == unplaced(before).len()
    &&& counts.disjoint == after.dom().len()
}

/// Forget the copies that a write to `written` may have changed. A copy whose
/// pages are not known cannot prove that it shares none.
pub fn forget_written(memo: &mut SampledMemo, written: &GuestPages) -> (counts: WriteInvalidation)
    requires
        old(memo).wf(),
    ensures
        final(memo).wf(),
        forall|id: SampledGuestId| #[trigger]
            final(memo)@.dom().contains(id) <==> old(memo)@.dom().contains(id) && outlives(
                old(memo)@[id],
                written@,
            ),
        forall|id: SampledGuestId| #[trigger]
            final(memo)@.dom().contains(id) ==> final(memo)@[id] == old(memo)@[id],
        invalidated(old(memo)@, final(memo)@, counts),
{
    let ghost before = memo@;
    let total: usize = memo.len();
    let mut counts = WriteInvalidation { overlap: 0, unknown: 0, disjoint: 0 };
    let mut entries: Vec<(SampledGuestKey, SampledCopy)> = memo.take_entries();
    let ghost all = entries@;
    proof {
        SampledMemo::lemma_spelled(all);
        lemma_entry_count(all);
    }
    assert(all.len() == total);
    let ghost mut lost: Set<SampledGuestId> = Set::empty();
    while entries.len() > 0
        invariant
            memo.wf(),
            ids_distinct(all),
            map_of(all) == before,
            all.len() <= usize::MAX,
            entries@.len() <= all.len(),
            entries@ == all.take(entries@.len() as int),
            counts.overlap + counts.unknown + counts.disjoint == all.len() - entries@.len(),
            memo@.dom().finite(),
            counts.disjoint == memo@.dom().len(),
            lost.finite(),
            counts.unknown == lost.len(),
            forall|id: SampledGuestId| #[trigger]
                lost.contains(id) <==> exists|k: int|
                    entries@.len() <= k < all.len() && (#[trigger] all[k]).0.id() == id
                        && all[k].1.pages is None,
            forall|id: SampledGuestId| #[trigger]
                memo@.dom().contains(id) <==> exists|k: int|
                    entries@.len() <= k < all.len() && (#[trigger] all[k]).0.id() == id
                        && outlives(all[k].1, written@),
            forall|id: SampledGuestId| #[trigger]
                memo@.dom().contains(id) ==> before.dom().contains(id) && memo@[id] == before[id],
            forall|id: SampledGuestId| #[trigger] before.dom().contains(id) <==> holds_id(all, id),
            forall|k: int| 0 <= k < all.len() ==> before[(#[trigger] all[k]).0.id()] == all[k].1,
        decreases entries@.len(),
    {
        let ghost held = memo@;
        let ghost at: int = entries@.len() - 1;
        assert(entries@[at] == all[at]);
        let last = entries.pop();
        assert(entries@ =~= all.take(at));
        if let Some(entry) = last {
            assert(entry == all[at]);
            let ghost id = entry.0.id();
            assert(holds_id(all, id));
            assert(!held.dom().contains(id)) by {
                if held.dom().contains(id) {
                    let k = choose|k: int|
                        at < k < all.len() && (#[trigger] all[k]).0.id() == id && outlives(
                            all[k].1,
                            written@,
                        );
                    assert(all[at].0.id() != all[k].0.id());
                }
            }
            let ghost was_lost = lost;
            assert(!was_lost.contains(id)) by {
                if was_lost.contains(id) {
                    let k = choose|k: int|
                        at < k < all.len() && (#[trigger] all[k]).0.id() == id
                            && all[k].1.pages is None;
                    assert(all[at].0.id() != all[k].0.id());
                }
            }
            let keep = match &entry.1.pages {
                Some(pages) => {
                    if pages.overlaps(written) {
                        counts.overlap = counts.overlap + 1;
                        false
                    } else {
                        counts.disjoint = counts.disjoint + 1;
                        true
                    }
                },
                None => {
                    counts.unknown = counts.unknown + 1;
                    proof {
                        lost = lost.insert(id);
                    }
                    false
                },
            };
            assert forall|other: SampledGuestId| #[trigger]
                lost.contains(other) <==> exists|k: int|
                    at <= k < all.len() && (#[trigger] all[k]).0.id() == other
                        && all[k].1.pages is None by {
                if lost.contains(other) {
                    if was_lost.contains(other) {
                        let k = choose|k: int|
                            at < k < all.len() && (#[trigger] all[k]).0.id() == other
                                && all[k].1.pages is None;
                        assert(all[k].0.id() == other);
                    } else {
                        assert(all[at].0.id() == other);
                    }
                }
                if exists|k: int|
                    at <= k < all.len() && (#[trigger] all[k]).0.id() == other
                        && all[k].1.pages is None {
                    let k = choose|k: int|
                        at <= k < all.len() && (#[trigger] all[k]).0.id() == other
                            && all[k].1.pages is None;
                    if k > at {
                        assert(was_lost.contains(other));
                    }
                }
            }
            assert(keep == outlives(entry.1, written@));
            if keep {
                memo.insert(entry.0, entry.1);
            }
            assert forall|other: SampledGuestId| #[trigger]
                memo@.dom().contains(other) <==> exists|k: int|
                    at <= k < all.len() && (#[trigger] all[k]).0.id() == other && outlives(
                        all[k].1,
                        written@,
                    ) by {
                if memo@.dom().contains(other) {
                    if held.dom().contains(other) {
                        let k = choose|k: int|
                            at < k < all.len() && (#[trigger] all[k]).0.id() == other && outlives(
                                all[k].1,
                                written@,
                            );
                        assert(all[k].0.id() == other);
                    } else {
                        assert(all[at].0.id() == other);
                    }
                }
                if exists|k: int|
                    at <= k < all.len() && (#[trigger] all[k]).0.id() == other && outlives(
                        all[k].1,
                        written@,
                    ) {
                    let k = choose|k: int|
                        at <= k < all.len() && (#[trigger] all[k]).0.id() == other && outlives(
                            all[k].1,
                            written@,
                        );
                    if k > at {
                        assert(held.dom().contains(other));
                    }
                }
            }
        }
    }
    proof {
        assert forall|id: SampledGuestId| #[trigger]
            memo@.dom().contains(id) <==> before.dom().contains(id) && outlives(
                before[id],
                written@,
            ) by {
            if before.dom().contains(id) && outlives(before[id], written@) {
                let k = choose|k: int| 0 <= k < all.len() && (#[trigger] all[k]).0.id() == id;
                assert(before[all[k].0.id()] == all[k].1);
            }
            if memo@.dom().contains(id) {
                let k = choose|k: int|
                    0 <= k < all.len() && (#[trigger] all[k]).0.id() == id && outlives(
                        all[k].1,
                        written@,
                    );
                assert(before[all[k].0.id()] == all[k].1);
            }
        }
        assert(lost =~= unplaced(before)) by {
            assert forall|id: SampledGuestId| #[trigger]
                lost.contains(id) <==> unplaced(before).contains(id) by {
                if lost.contains(id) {
                    let k = choose|k: int|
                        0 <= k < all.len() && (#[trigger] all[k]).0.id() == id
                            && all[k].1.pages is None;
                    assert(holds_id(all, id));
                    assert(before[all[k].0.id()] == all[k].1);
                }
                if unplaced(before).contains(id) {
                    assert(holds_id(all, id));
                    let k = choose|k: int| 0 <= k < all.len() && (#[trigger] all[k]).0.id() == id;
                    assert(before[all[k].0.id()] == all[k].1);
                }
            }
        }
    }
    counts
}

proof fn lemma_entry_count(entries: Seq<(SampledGuestKey, SampledCopy)>)
    requires
        ids_distinct(entries),
    ensures
        map_of(entries).dom().len() == entries.len(),
{
    SampledMemo::lemma_counted(entries);
}

/// A bind that names guest memory itself is an alias; one of bytes that nobody
/// writes is immutable; a copy of guest memory is a snapshot.
pub proof fn law_binds_are_told_apart_by_what_may_change_them(
    allocation: CbBindAllocation,
    bound: BoundBuffer,
)
    ensures
        class_of(allocation, bound) is Alias <==> bound.guest_import,
        class_of(allocation, bound) is Immutable <==> !bound.guest_import && allocation is Bytes,
        class_of(allocation, bound) is Snapshot <==> !bound.guest_import && !(allocation is Bytes),
{
}

/// A bind that is noted is found, in its class and in no other, and every other
/// bind stays as it was in its own.
pub proof fn law_a_noted_bind_is_in_its_class_alone(
    before: CbBufferMemo,
    after: CbBufferMemo,
    key: BindKey,
    held: Remembered,
    other: BindKey,
)
    requires
        noted(before, after, key, held),
    ensures
        after.aliases@.dom().contains(key) <==> held.bound.guest_import,
        after.immutable@.dom().contains(key) <==> !held.bound.guest_import
            && held.allocation is Bytes,
        after.guest_snapshots@.dom().contains(key) <==> !held.bound.guest_import && !(
        held.allocation is Bytes),
        after.lookup(key) == Some(held.bound),
        other != key ==> {
            &&& after.aliases@.dom().contains(other) <==> before.aliases@.dom().contains(other)
            &&& after.immutable@.dom().contains(other) <==> before.immutable@.dom().contains(other)
            &&& after.guest_snapshots@.dom().contains(other)
                <==> before.guest_snapshots@.dom().contains(other)
            &&& after.lookup(other) == before.lookup(other)
        },
{
}

/// A bind that is forgotten is found nowhere, and every other stays in its class.
pub proof fn law_a_forgotten_bind_is_nowhere(
    before: CbBufferMemo,
    after: CbBufferMemo,
    keys: Seq<BindKey>,
    key: BindKey,
)
    requires
        forgot(before, after, keys),
    ensures
        keys.contains(key) ==> after.lookup(key) is None && !after.aliases@.dom().contains(key)
            && !after.immutable@.dom().contains(key) && !after.guest_snapshots@.dom().contains(key),
        !keys.contains(key) ==> {
            &&& after.lookup(key) == before.lookup(key)
            &&& after.aliases@.dom().contains(key) <==> before.aliases@.dom().contains(key)
            &&& after.immutable@.dom().contains(key) <==> before.immutable@.dom().contains(key)
            &&& after.guest_snapshots@.dom().contains(key)
                <==> before.guest_snapshots@.dom().contains(key)
        },
{
}

/// Whatever is looked for is found in the class that remembers it.
pub proof fn law_a_bind_is_found_in_any_class(memo: CbBufferMemo, key: BindKey)
    requires
        memo.wf(),
    ensures
        memo.aliases@.dom().contains(key) ==> memo.lookup(key) == Some(memo.aliases@[key].bound),
        memo.immutable@.dom().contains(key) ==> memo.lookup(key) == Some(
            memo.immutable@[key].bound,
        ),
        memo.guest_snapshots@.dom().contains(key) ==> memo.lookup(key) == Some(
            memo.guest_snapshots@[key].bound,
        ),
        memo.lookup(key) is Some <==> memo.aliases@.dom().contains(key)
            || memo.immutable@.dom().contains(key) || memo.guest_snapshots@.dom().contains(key),
        memo.is_empty() ==> memo.lookup(key) is None && memo.size() == 0,
{
}

/// A copy outlives a write exactly where it is known which pages it was made from
/// and none of them was written.
pub proof fn law_a_copy_outlives_writes_to_other_pages(copy: SampledCopy, written: Set<u64>)
    ensures
        outlives(copy, written) <==> copy.pages is Some && forall|page: u64|
            copy.pages->0@.contains(page) ==> !(#[trigger] written.contains(page)),
{
}

/// Every copy is counted once: as gone with its pages, as gone because its pages
/// are not known, or as left.
pub proof fn law_every_copy_is_counted_once(
    before: Map<SampledGuestId, SampledCopy>,
    after: Map<SampledGuestId, SampledCopy>,
    counts: WriteInvalidation,
)
    requires
        invalidated(before, after, counts),
    ensures
        counts.overlap + counts.unknown + counts.disjoint == before.dom().len(),
        counts.disjoint == after.dom().len(),
        counts.unknown == before.dom().filter(
            |id: SampledGuestId| before[id].pages is None,
        ).len(),
{
    assert(before.dom().filter(|id: SampledGuestId| before[id].pages is None) =~= unplaced(before));
}

/// Two sampled copies stand for the same only where everything that decides the
/// copied texels is the same.
pub proof fn law_equal_copies_have_equal_sources(a: SampledGuestKey, b: SampledGuestKey)
    requires
        a.id() == b.id(),
    ensures
        a.shape == b.shape,
        a.runs@ == b.runs@,
        a.source_offset == b.source_offset,
        a.total_len == b.total_len,
        a.row_length_texels == b.row_length_texels,
{
}

/// Two binds stand for the same only where their address, offset and length are
/// the same, and two sets of pages only where they hold the same pages.
pub proof fn law_equal_binds_are_the_same_bytes(
    a: BindKey,
    b: BindKey,
    pages: GuestPages,
    others: GuestPages,
)
    ensures
        a.id() == b.id() <==> a.address == b.address && a.offset == b.offset && a.len == b.len,
        pages.id() == others.id() <==> pages@ == others@,
{
}

/// What is forgotten is told by class, each with its own number.
pub proof fn law_forgotten_bindings_are_told_by_class(memo: CbBufferMemo, counts: BindCounts)
    requires
        memo.counted_by(counts),
    ensures
        counts.aliases == memo.aliases@.dom().len(),
        counts.immutable == memo.immutable@.dom().len(),
        counts.copies == memo.guest_snapshots@.dom().len(),
        memo.is_empty() ==> counts.aliases == 0 && counts.immutable == 0 && counts.copies == 0,
{
}

} // verus!
