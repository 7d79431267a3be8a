//! Upload buffers and gather buffers: acquired by size, counted by size, and
//! filled from guest memory.

use crate::pools::buckets::in_bucket;
use crate::pools::encoder::EncoderPools;
use crate::pools::entry::taken;
use crate::pools::limits::{STAGING_BUCKET_BINS, STAGING_MISS_EMIT_EVERY};
use crate::pools::memo::{
    forget_written, invalidated, outlives, BindCounts, CbBufferMemo, GuestPages, GuestRun, Remembered, SampledCopy,
    SampledGuestId, SnapshotInvalidation, WriteInvalidation, BindKey,
};
use crate::pools::readback::{bucket_for, request_bucket, Acquired, LEAST_BUFFER};
use crate::pools::slots::BufferSlot;
use crate::pools::swizzle::{exchange_rb_into, exchanged};
use crate::text::{append_decimal, append_text, decimal, owned};
use vstd::arithmetic::power2::{lemma2_to64, lemma_pow2_unfold, pow2};
use vstd::prelude::*;
use vstd::std_specs::bits::u64_trailing_zeros;

verus! {

/// `count` after one more, at most the largest number.
pub open spec fn saturated(count: u64, more: u64) -> u64 {
    if count + more > u64::MAX {
        u64::MAX
    } else {
        (count + more) as u64
    }
}

/// The bin that buffers of `size` bytes are counted in.
pub open spec fn bin_of(size: u64) -> int {
    if u64_trailing_zeros(size) < STAGING_BUCKET_BINS {
        u64_trailing_zeros(size) as int
    } else {
        STAGING_BUCKET_BINS - 1
    }
}

/// How many buffers the sizes of `shape` have.
pub open spec fn shape_slots(shape: Seq<(u64, nat)>) -> nat
    decreases shape.len(),
{
    if shape.len() == 0 {
        0
    } else {
        shape_slots(shape.drop_last()) + shape.last().1
    }
}

/// How many bytes the buffers of one size have, at most the largest number.
pub open spec fn size_bytes(size: u64, count: nat) -> nat {
    if size * count > u64::MAX {
        u64::MAX as nat
    } else {
        (size * count) as nat
    }
}

/// How many bytes the buffers of `shape` have.
pub open spec fn shape_bytes(shape: Seq<(u64, nat)>) -> nat
    decreases shape.len(),
{
    if shape.len() == 0 {
        0
    } else {
        shape_bytes(shape.drop_last()) + size_bytes(shape.last().0, shape.last().1)
    }
}

/// How many buffers of `shape` are counted in bin `i`.
pub open spec fn shape_bin(shape: Seq<(u64, nat)>, i: int) -> nat
    decreases shape.len(),
{
    if shape.len() == 0 {
        0
    } else {
        shape_bin(shape.drop_last(), i) + if bin_of(shape.last().0) == i {
            shape.last().1
        } else {
            0
        }
    }
}

/// The first `k` bins that count something, each as its size and the number
/// shown for it, with commas between.
pub open spec fn bins_upto(counts: Seq<u64>, shown: Seq<u64>, k: int) -> Seq<char>
    decreases k,
{
    if k <= 0 {
        Seq::empty()
    } else {
        let before = bins_upto(counts, shown, k - 1);
        if counts[k - 1] == 0 {
            before
        } else {
            (if before.len() == 0 {
                before
            } else {
                before + ","@
            }) + decimal(pow2((k - 1) as nat)) + ":"@ + decimal(shown[k - 1] as nat)
        }
    }
}

/// The bins that count something, or a dash.
pub open spec fn bins_text(counts: Seq<u64>) -> Seq<char> {
    let text = bins_upto(counts, counts, counts.len() as int);
    if text.len() == 0 {
        "-"@
    } else {
        text
    }
}

/// The mean of each bin that counts something.
pub open spec fn means(counts: Seq<u64>, sums: Seq<u64>) -> Seq<u64> {
    Seq::new(
        counts.len(),
        |i: int|
            if counts[i] == 0 {
                0
            } else {
                sums[i] / counts[i]
            },
    )
}

/// The line that reports the upload buffers of an encoder.
pub open spec fn staging_line(
    encoder: EncoderPools,
    shape: Seq<(u64, nat)>,
    free_bins: Seq<u64>,
) -> Seq<char> {
    "staging_pool hits="@ + decimal(encoder.staging_hits as nat) + " misses="@ + decimal(
        encoder.staging_misses as nat,
    ) + " live="@ + decimal(encoder.staging_live@.len()) + " free_slots="@ + decimal(
        shape_slots(shape),
    ) + " free_mb="@ + decimal(shape_bytes(shape) / 0x10_0000) + " miss_bins="@ + bins_text(
        encoder.staging_miss_bins@,
    ) + " miss_us_bins="@ + bins_upto(
        encoder.staging_miss_bins@,
        means(encoder.staging_miss_bins@, encoder.staging_miss_us_bins@),
        encoder.staging_miss_bins@.len() as int,
    ) + " free_bins="@ + bins_text(free_bins)
}

/// `free_bins` counts the buffers of `shape` by size.
pub open spec fn counts_bins(shape: Seq<(u64, nat)>, free_bins: Seq<u64>) -> bool {
    &&& free_bins.len() == STAGING_BUCKET_BINS
    &&& forall|i: int|
        0 <= i < STAGING_BUCKET_BINS ==> #[trigger] free_bins[i] == shape_bin(shape, i)
}

/// Append the bins that count something to `out`. Says whether any did.
fn append_bins(out: &mut String, counts: &Vec<u64>, shown: &Vec<u64>)
    requires
        counts@.len() == shown@.len(),
        counts@.len() <= STAGING_BUCKET_BINS,
    ensures
        final(out)@ == old(out)@ + bins_upto(counts@, shown@, counts@.len() as int),
{
    let mut text = String::new();
    let mut empty = true;
    let mut power: u64 = 1;
    let mut k: usize = 0;
    proof {
        lemma2_to64();
    }
    assert(text@ =~= bins_upto(counts@, shown@, 0));
    while k < counts.len()
        invariant
            k <= counts@.len(),
            counts@.len() == shown@.len(),
            counts@.len() <= STAGING_BUCKET_BINS,
            power == pow2(k as nat),
            power <= 0x1_0000_0000,
            k < 32 ==> power <= 0x8000_0000,
            text@ == bins_upto(counts@, shown@, k as int),
            empty == (text@.len() == 0),
        decreases counts@.len() - k,
    {
        if counts[k] != 0 {
            if !empty {
                append_text(&mut text, ",");
            }
            append_decimal(&mut text, power);
            append_text(&mut text, ":");
            append_decimal(&mut text, shown[k]);
            proof {
                lemma_decimal_not_empty(power as nat);
                assert(text@ =~= bins_upto(counts@, shown@, k + 1));
            }
            empty = false;
        }
        proof {
            lemma_pow2_unfold((k + 1) as nat);
            lemma_small_powers((k + 1) as nat);
        }
        power = power * 2;
        k += 1;
    }
    append_text(out, text.as_str());
}

proof fn lemma_small_powers(k: nat)
    ensures
        k <= 32 ==> pow2(k) <= 0x1_0000_0000,
        k < 32 ==> pow2(k) <= 0x8000_0000,
{
    lemma2_to64();
}

proof fn lemma_decimal_not_empty(value: nat)
    ensures
        decimal(value).len() > 0,
    decreases value,
{
    if value >= 10 {
        lemma_decimal_not_empty(value / 10);
    }
}

/// Append the bins that count something to `out`, or a dash.
fn append_bins_or_dash(out: &mut String, counts: &Vec<u64>)
    requires
        counts@.len() <= STAGING_BUCKET_BINS,
    ensures
        final(out)@ == old(out)@ + bins_text(counts@),
{
    let mut text = String::new();
    append_bins(&mut text, counts, counts);
    assert(text@ =~= bins_upto(counts@, counts@, counts@.len() as int));
    let mut any = false;
    let mut k: usize = 0;
    while k < counts.len()
        invariant
            k <= counts@.len(),
            any == (bins_upto(counts@, counts@, k as int).len() > 0),
        decreases counts@.len() - k,
    {
        if counts[k] != 0 {
            any = true;
            proof {
                lemma_decimal_not_empty(pow2(k as nat));
            }
        }
        k += 1;
    }
    if any {
        append_text(out, text.as_str());
    } else {
        append_text(out, "-");
    }
}

/// A run of guest memory to copy, and where to.
#[derive(Clone, Copy, Debug, PartialEq, Eq, Structural)]
pub struct RunCopy {
    /// The host address to copy from.
    pub from: u64,
    /// The place in the buffer to copy to.
    pub to: u64,
    /// How many bytes.
    pub len: u64,
}

/// How to fill a buffer from guest memory.
#[derive(Debug)]
pub struct RunCopyPlan {
    /// The copies, one after the other.
    pub copies: Vec<RunCopy>,
    /// Where zeros begin.
    pub zero_from: u64,
    /// How many there are.
    pub zero_len: u64,
}

/// How many bytes the runs have.
pub open spec fn runs_len(runs: Seq<GuestRun>) -> nat
    decreases runs.len(),
{
    if runs.len() == 0 {
        0
    } else {
        runs_len(runs.drop_last()) + runs.last().len as nat
    }
}

/// The host address of the byte `at` of the runs, one run after the other.
pub open spec fn run_address(runs: Seq<GuestRun>, at: int) -> int
    decreases runs.len(),
{
    if runs.len() == 0 {
        0
    } else if at >= runs_len(runs.drop_last()) {
        runs.last().host_ptr + (at - runs_len(runs.drop_last()))
    } else {
        run_address(runs.drop_last(), at)
    }
}

/// The copies fill `0..end` without a gap, and each byte comes from its place in
/// the runs, `offset` bytes on.
pub open spec fn copies_fill(
    copies: Seq<RunCopy>,
    runs: Seq<GuestRun>,
    offset: int,
    end: int,
) -> bool
    decreases copies.len(),
{
    if copies.len() == 0 {
        end == 0
    } else {
        let last = copies.last();
        &&& last.len > 0
        &&& last.to + last.len == end
        &&& forall|i: int|
            0 <= i < last.len ==> #[trigger] run_address(runs, offset + last.to + i) == last.from
                + i
        &&& copies_fill(copies.drop_last(), runs, offset, last.to as int)
    }
}

/// How much of `total` the runs fill from `offset` on.
pub open spec fn filled(runs: Seq<GuestRun>, offset: int, total: int) -> int {
    let there = runs_len(runs) - offset;
    if there <= 0 {
        0
    } else if there < total {
        there
    } else {
        total
    }
}

/// How many bytes of a buffer are written for `len` bytes of content.
pub open spec fn span_of(len: u64) -> u64 {
    if len < LEAST_BUFFER {
        LEAST_BUFFER
    } else {
        len
    }
}

proof fn lemma_runs_prefix(runs: Seq<GuestRun>, k: int, at: int)
    requires
        0 <= k < runs.len(),
        0 <= at,
        runs_len(runs.take(k)) <= at < runs_len(runs.take(k + 1)),
    ensures
        run_address(runs, at) == runs[k].host_ptr + (at - runs_len(runs.take(k))),
        runs_len(runs.take(k + 1)) == runs_len(runs.take(k)) + runs[k].len,
        runs_len(runs.take(k + 1)) <= runs_len(runs),
    decreases runs.len(),
{
    assert(runs.take(k + 1).drop_last() =~= runs.take(k));
    if k == runs.len() - 1 {
        assert(runs.take(k + 1) =~= runs);
        assert(runs.drop_last() =~= runs.take(k));
    } else {
        let rest = runs.drop_last();
        assert(rest.take(k) =~= runs.take(k));
        assert(rest.take(k + 1) =~= runs.take(k + 1));
        lemma_runs_prefix(rest, k, at);
    }
}

proof fn lemma_runs_grow(runs: Seq<GuestRun>, k: int)
    requires
        0 <= k <= runs.len(),
    ensures
        runs_len(runs.take(k)) <= runs_len(runs),
    decreases runs.len(),
{
    if k == runs.len() {
        assert(runs.take(k) =~= runs);
    } else {
        assert(runs.drop_last().take(k) =~= runs.take(k));
        lemma_runs_grow(runs.drop_last(), k);
    }
}

/// How to fill a buffer with `total_len` bytes of guest memory that begin
/// `source_offset` bytes into `runs`. Where the runs end early, and up to the
/// least size of a buffer, zeros follow.
pub fn write_staging_from_runs(runs: &Vec<GuestRun>, source_offset: u64, total_len: u64) -> (plan:
    RunCopyPlan)
    requires
        forall|i: int|
            0 <= i < runs@.len() ==> (#[trigger] runs@[i]).host_ptr + runs@[i].len <= u64::MAX,
    ensures
        copies_fill(
            plan.copies@,
            runs@,
            source_offset as int,
            filled(runs@, source_offset as int, total_len as int),
        ),
        plan.zero_from == filled(runs@, source_offset as int, total_len as int),
        plan.zero_from + plan.zero_len == span_of(total_len),
{
    let size: u64 = if total_len < LEAST_BUFFER {
        LEAST_BUFFER
    } else {
        total_len
    };
    let mut copies: Vec<RunCopy> = Vec::new();
    let mut off: u64 = 0;
    let mut skip: u64 = source_offset;
    let mut k: usize = 0;
    assert(runs@.take(0) =~= Seq::empty());
    while k < runs.len() && off < total_len
        invariant
            k <= runs@.len(),
            off <= total_len,
            forall|i: int|
                0 <= i < runs@.len() ==> (#[trigger] runs@[i]).host_ptr + runs@[i].len <= u64::MAX,
            copies_fill(copies@, runs@, source_offset as int, off as int),
            off == filled(runs@.take(k as int), source_offset as int, total_len as int),
            off > 0 ==> skip == 0,
            off == 0 && total_len > 0 ==> skip == source_offset - runs_len(runs@.take(k as int)),
            total_len == 0 ==> off == 0,
        decreases runs@.len() - k,
    {
        let run: GuestRun = runs[k];
        let ghost done = runs_len(runs@.take(k as int));
        proof {
            assert(runs@.take(k + 1).drop_last() =~= runs@.take(k as int));
            lemma_runs_grow(runs@, k + 1);
        }
        if skip >= run.len {
            skip = skip - run.len;
        } else {
            let within: u64 = skip;
            skip = 0;
            let available: u64 = run.len - within;
            let room: u64 = total_len - off;
            let n: u64 = if available < room {
                available
            } else {
                room
            };
            let copy = RunCopy { from: run.host_ptr + within, to: off, len: n };
            let ghost before = copies@;
            copies.push(copy);
            proof {
                assert(copies@.drop_last() =~= before);
                assert(source_offset + off == done + within);
                assert forall|i: int| 0 <= i < n implies #[trigger] run_address(
                    runs@,
                    source_offset + off + i,
                ) == copy.from + i by {
                    lemma_runs_prefix(runs@, k as int, source_offset + off + i);
                }
            }
            off = off + n;
        }
        k += 1;
    }
    proof {
        lemma_runs_grow(runs@, k as int);
        if k == runs@.len() {
            assert(runs@.take(k as int) =~= runs@);
        }
    }
    RunCopyPlan { copies, zero_from: off, zero_len: size - off }
}

/// What a mapped buffer holds after `bytes` were written over `before`: zeros
/// where there are no bytes, and else the bytes and what lies behind them.
pub open spec fn staged(bytes: Seq<u8>, before: Seq<u8>) -> Seq<u8> {
    if bytes.len() == 0 {
        Seq::new(before.len(), |i: int| 0u8)
    } else {
        bytes + before.skip(bytes.len() as int)
    }
}

/// Write zeros over a mapped buffer.
fn write_zeros(mapped: &mut [u8])
    ensures
        final(mapped)@ == Seq::new(old(mapped)@.len(), |i: int| 0u8),
{
    let mut i: usize = 0;
    while i < mapped.len()
        invariant
            i <= mapped@.len(),
            mapped@.len() == old(mapped)@.len(),
            forall|k: int| 0 <= k < i ==> mapped@[k] == 0u8,
        decreases mapped@.len() - i,
    {
        mapped[i] = 0;
        i += 1;
    }
    assert(mapped@ =~= Seq::new(old(mapped)@.len(), |k: int| 0u8));
}

/// Write `bytes` to a mapped buffer. A buffer for nothing is filled with zeros,
/// so that whoever binds it reads something defined.
pub fn write_staging(bytes: &[u8], mapped: &mut [u8])
    requires
        old(mapped)@.len() == span_of(bytes@.len() as u64),
        bytes@.len() <= u64::MAX,
    ensures
        final(mapped)@ == staged(bytes@, old(mapped)@),
{
    if bytes.len() == 0 {
        write_zeros(mapped);
        return;
    }
    let mut i: usize = 0;
    while i < bytes.len()
        invariant
            i <= bytes@.len(),
            bytes@.len() <= mapped@.len(),
            mapped@.len() == old(mapped)@.len(),
            forall|k: int| 0 <= k < i ==> mapped@[k] == bytes@[k],
            forall|k: int| i <= k < mapped@.len() ==> mapped@[k] == old(mapped)@[k],
        decreases bytes@.len() - i,
    {
        mapped[i] = bytes[i];
        i += 1;
    }
    assert(mapped@ =~= staged(bytes@, old(mapped)@));
}

/// Write `rgba` to a mapped buffer with red and blue exchanged.
pub fn write_staging_swap_rb(rgba: &[u8], mapped: &mut [u8])
    requires
        old(mapped)@.len() == span_of(rgba@.len() as u64),
        rgba@.len() <= u64::MAX,
    ensures
        final(mapped)@ == staged(exchanged(rgba@), old(mapped)@),
{
    if rgba.len() == 0 {
        write_zeros(mapped);
        return;
    }
    exchange_rb_into(rgba, mapped);
    assert(rgba@.take(rgba@.len() as int) =~= rgba@);
}

/// `counts` tells how many copies of guest memory `before` remembers, and how
/// many binds name the memory itself.
pub open spec fn snapshots_counted(before: EncoderPools, counts: SnapshotInvalidation) -> bool {
    &&& counts.copies == before.cb_bound_buffers.guest_snapshots@.dom().len()
    &&& counts.aliases == before.cb_bound_buffers.aliases@.dom().len()
    &&& counts.sampled == before.cb_sampled_guest@.dom().len()
}

impl EncoderPools {
    /// Count an upload buffer that was used again.
    pub fn note_staging_hit(&mut self)
        ensures
            *final(self) == (EncoderPools {
                staging_hits: saturated(old(self).staging_hits, 1),
                ..*old(self)
            }),
            old(self).wf() ==> final(self).wf(),
    {
        self.staging_hits = self.staging_hits.saturating_add(1);
    }

    /// Count an upload buffer of `bucket` bytes that took `us` microseconds to
    /// make. Every so often there is a line to report.
    pub fn note_staging_miss(&mut self, bucket: u64, us: u64) -> (line: Option<String>)
        requires
            old(self).staging_miss_bins@.len() == STAGING_BUCKET_BINS,
            old(self).staging_miss_us_bins@.len() == STAGING_BUCKET_BINS,
            shape_slots(old(self).staging_free.shape()) <= usize::MAX,
            shape_bytes(old(self).staging_free.shape()) <= u64::MAX,
        ensures
            *final(self) == (EncoderPools {
                staging_misses: saturated(old(self).staging_misses, 1),
                staging_miss_bins: final(self).staging_miss_bins,
                staging_miss_us_bins: final(self).staging_miss_us_bins,
                ..*old(self)
            }),
            ({
                let bin = bin_of(bucket);
                &&& final(self).staging_miss_bins@ == old(self).staging_miss_bins@.update(
                    bin,
                    saturated(old(self).staging_miss_bins@[bin], 1),
                )
                &&& final(self).staging_miss_us_bins@ == old(self).staging_miss_us_bins@.update(
                    bin,
                    saturated(old(self).staging_miss_us_bins@[bin], us),
                )
            }),
            match line {
                Some(line) => {
                    &&& final(self).staging_misses % STAGING_MISS_EMIT_EVERY == 0
                    &&& exists|free_bins: Seq<u64>|
                        #![trigger counts_bins(old(self).staging_free.shape(), free_bins)]
                        counts_bins(old(self).staging_free.shape(), free_bins) && line@
                            == staging_line(*final(self), old(self).staging_free.shape(), free_bins)
                },
                None => final(self).staging_misses % STAGING_MISS_EMIT_EVERY != 0,
            },
            old(self).wf() ==> final(self).wf(),
    {
        self.staging_misses = self.staging_misses.saturating_add(1);
        let bin: usize = bin_index(bucket);
        let misses: u64 = self.staging_miss_bins[bin].saturating_add(1);
        self.staging_miss_bins[bin] = misses;
        let spent: u64 = self.staging_miss_us_bins[bin].saturating_add(us);
        self.staging_miss_us_bins[bin] = spent;
        if self.staging_misses % STAGING_MISS_EMIT_EVERY != 0 {
            return None;
        }
        Some(self.staging_report())
    }

    /// The line that reports the upload buffers.
    fn staging_report(&self) -> (line: String)
        requires
            self.staging_miss_bins@.len() == STAGING_BUCKET_BINS,
            self.staging_miss_us_bins@.len() == STAGING_BUCKET_BINS,
            shape_slots(self.staging_free.shape()) <= usize::MAX,
            shape_bytes(self.staging_free.shape()) <= u64::MAX,
        ensures
            exists|free_bins: Seq<u64>|
                #![trigger counts_bins(self.staging_free.shape(), free_bins)]
                counts_bins(self.staging_free.shape(), free_bins) && line@ == staging_line(
                    *self,
                    self.staging_free.shape(),
                    free_bins,
                ),
    {
        let counts: Vec<(u64, usize)> = self.staging_free.census();
        let ghost shape = self.staging_free.shape();
        let (free_slots, free_bytes, free_bins) = free_totals(&counts, Ghost(shape));
        let mut means_us: Vec<u64> = Vec::new();
        while means_us.len() < self.staging_miss_bins.len()
            invariant
                means_us@.len() <= self.staging_miss_bins@.len(),
                self.staging_miss_bins@.len() == STAGING_BUCKET_BINS,
                self.staging_miss_us_bins@.len() == STAGING_BUCKET_BINS,
                forall|i: int|
                    0 <= i < means_us@.len() ==> means_us@[i] == means(
                        self.staging_miss_bins@,
                        self.staging_miss_us_bins@,
                    )[i],
            decreases self.staging_miss_bins@.len() - means_us@.len(),
        {
            let at: usize = means_us.len();
            let n: u64 = self.staging_miss_bins[at];
            let mean: u64 = if n == 0 {
                0
            } else {
                self.staging_miss_us_bins[at] / n
            };
            means_us.push(mean);
        }
        assert(means_us@ =~= means(self.staging_miss_bins@, self.staging_miss_us_bins@));
        let mut line = owned("staging_pool hits=");
        append_decimal(&mut line, self.staging_hits);
        append_text(&mut line, " misses=");
        append_decimal(&mut line, self.staging_misses);
        append_text(&mut line, " live=");
        append_decimal(&mut line, self.staging_live.len() as u64);
        append_text(&mut line, " free_slots=");
        append_decimal(&mut line, free_slots as u64);
        append_text(&mut line, " free_mb=");
        append_decimal(&mut line, free_bytes / 0x10_0000);
        append_text(&mut line, " miss_bins=");
        append_bins_or_dash(&mut line, &self.staging_miss_bins);
        append_text(&mut line, " miss_us_bins=");
        append_bins(&mut line, &self.staging_miss_bins, &means_us);
        append_text(&mut line, " free_bins=");
        append_bins_or_dash(&mut line, &free_bins);
        assert(counts_bins(shape, free_bins@));
        assert(line@ =~= staging_line(*self, shape, free_bins@));
        line
    }

    /// An upload buffer for the command buffer under way.
    pub fn acquire_staging(&mut self, size: u64) -> (acquired: Acquired)
        requires
            old(self).staging_free.wf(),
        ensures
            *final(self) == (EncoderPools {
                staging_free: final(self).staging_free,
                staging_live: final(self).staging_live,
                staging_hits: final(self).staging_hits,
                ..*old(self)
            }),
            final(self).staging_free.wf(),
            old(self).wf() ==> final(self).wf(),
            ({
                let bucket = request_bucket(size);
                let free = old(self).staging_free.kept(bucket);
                match acquired {
                    Acquired::Reused(slot) => {
                        &&& free.len() > 0
                        &&& slot == free.last()
                        &&& final(self).staging_live@ == old(self).staging_live@.push(slot)
                        &&& final(self).staging_hits == saturated(old(self).staging_hits, 1)
                        &&& forall|other: u64| #[trigger]
                            final(self).staging_free.kept(other) == if other == bucket {
                                free.drop_last()
                            } else {
                                old(self).staging_free.kept(other)
                            }
                    },
                    Acquired::Make { bucket: made } => {
                        &&& made == bucket
                        &&& free.len() == 0
                        &&& final(self).staging_live == old(self).staging_live
                        &&& final(self).staging_hits == old(self).staging_hits
                        &&& forall|other: u64| #[trigger]
                            final(self).staging_free.kept(other) == old(self).staging_free.kept(
                                other,
                            )
                    },
                }
            }),
    {
        let bucket: u64 = bucket_for(size);
        match self.staging_free.take(bucket) {
            Some(slot) => {
                self.note_staging_hit();
                self.staging_live.push(slot);
                Acquired::Reused(slot)
            },
            None => Acquired::Make { bucket },
        }
    }

    /// Hold a new upload buffer for the command buffer under way.
    pub fn hold_staging(&mut self, slot: BufferSlot)
        ensures
            *final(self) == (EncoderPools {
                staging_live: final(self).staging_live,
                ..*old(self)
            }),
            final(self).staging_live@ == old(self).staging_live@.push(slot),
            old(self).wf() ==> final(self).wf(),
    {
        self.staging_live.push(slot);
    }

    /// A gather buffer for the command buffer under way.
    pub fn acquire_guest_gather(&mut self, size: u64) -> (acquired: Acquired)
        requires
            old(self).gather_free.wf(),
        ensures
            *final(self) == (EncoderPools {
                gather_free: final(self).gather_free,
                gather_live: final(self).gather_live,
                ..*old(self)
            }),
            final(self).gather_free.wf(),
            old(self).wf() ==> final(self).wf(),
            ({
                let bucket = request_bucket(size);
                let free = old(self).gather_free.kept(bucket);
                match acquired {
                    Acquired::Reused(slot) => {
                        &&& free.len() > 0
                        &&& slot == free.last()
                        &&& final(self).gather_live@ == old(self).gather_live@.push(slot)
                        &&& forall|other: u64| #[trigger]
                            final(self).gather_free.kept(other) == if other == bucket {
                                free.drop_last()
                            } else {
                                old(self).gather_free.kept(other)
                            }
                    },
                    Acquired::Make { bucket: made } => {
                        &&& made == bucket
                        &&& free.len() == 0
                        &&& final(self).gather_live == old(self).gather_live
                        &&& forall|other: u64| #[trigger]
                            final(self).gather_free.kept(other) == old(self).gather_free.kept(other)
                    },
                }
            }),
    {
        let bucket: u64 = bucket_for(size);
        match self.take_free_gather(bucket) {
            Some(slot) => Acquired::Reused(slot),
            None => Acquired::Make { bucket },
        }
    }

    /// Forget the copies of guest memory among the binds, and keep the direct
    /// aliases and the bytes that nothing changes. Says how many were forgotten
    /// and how many aliases stay.
    pub fn forget_cb_bound_buffer_copies(&mut self) -> (counts: (usize, usize))
        requires
            old(self).cb_bound_buffers.wf(),
        ensures
            *final(self) == (EncoderPools {
                cb_bound_buffers: final(self).cb_bound_buffers,
                ..*old(self)
            }),
            final(self).cb_bound_buffers.wf(),
            final(self).cb_bound_buffers.aliases == old(self).cb_bound_buffers.aliases,
            final(self).cb_bound_buffers.immutable == old(self).cb_bound_buffers.immutable,
            final(self).cb_bound_buffers.guest_snapshots@ == Map::<BindKey, Remembered>::empty(),
            counts.0 == old(self).cb_bound_buffers.guest_snapshots@.dom().len(),
            counts.1 == old(self).cb_bound_buffers.aliases@.dom().len(),
            old(self).wf() ==> final(self).wf(),
    {
        self.cb_bound_buffers.forget_copies()
    }

    /// Forget every copy of guest memory: the guest's processors may have
    /// written since it was made. Says how many there were, and how many binds
    /// name the memory itself.
    pub fn forget_cb_guest_cpu_snapshots(&mut self) -> (counts: SnapshotInvalidation)
        requires
            old(self).cb_bound_buffers.wf(),
            old(self).cb_sampled_guest.wf(),
        ensures
            snapshots_counted(*old(self), counts),
            *final(self) == (EncoderPools {
                cb_bound_buffers: final(self).cb_bound_buffers,
                cb_sampled_guest: final(self).cb_sampled_guest,
                ..*old(self)
            }),
            final(self).cb_bound_buffers.wf(),
            final(self).cb_bound_buffers.aliases == old(self).cb_bound_buffers.aliases,
            final(self).cb_bound_buffers.immutable == old(self).cb_bound_buffers.immutable,
            final(self).cb_bound_buffers.guest_snapshots@ == Map::<BindKey, Remembered>::empty(),
            final(self).cb_sampled_guest.wf(),
            final(self).cb_sampled_guest@ == Map::<SampledGuestId, SampledCopy>::empty(),
            old(self).wf() ==> final(self).wf(),
    {
        let (copies, aliases) = self.forget_cb_bound_buffer_copies();
        let sampled: usize = self.cb_sampled_guest.len();
        self.cb_sampled_guest.clear();
        SnapshotInvalidation { copies, aliases, sampled }
    }

    /// Forget every bind and every gather that one is owed. Says how many binds
    /// there were.
    pub fn forget_cb_bound_buffers(&mut self) -> (forgotten: usize)
        requires
            old(self).cb_bound_buffers.wf(),
            old(self).cb_bound_buffers.size() <= usize::MAX,
        ensures
            *final(self) == (EncoderPools {
                cb_bound_buffers: final(self).cb_bound_buffers,
                cb_gather_owed: final(self).cb_gather_owed,
                ..*old(self)
            }),
            forgotten == old(self).cb_bound_buffers.size(),
            final(self).cb_bound_buffers.wf(),
            final(self).cb_bound_buffers.is_empty(),
            final(self).cb_gather_owed@.len() == 0,
            old(self).wf() ==> final(self).wf(),
    {
        let forgotten: usize = self.cb_bound_buffers.aliases.len()
            + self.cb_bound_buffers.immutable.len() + self.cb_bound_buffers.guest_snapshots.len();
        self.cb_bound_buffers = CbBufferMemo::new();
        self.cb_gather_owed.clear();
        forgotten
    }

    /// Forget the sampled copies that a write to `written` may have changed.
    pub fn forget_cb_sampled_guest_pages(&mut self, written: &GuestPages) -> (counts:
        WriteInvalidation)
        requires
            old(self).cb_sampled_guest.wf(),
        ensures
            *final(self) == (EncoderPools {
                cb_sampled_guest: final(self).cb_sampled_guest,
                ..*old(self)
            }),
            final(self).cb_sampled_guest.wf(),
            forall|id: SampledGuestId| #[trigger]
                final(self).cb_sampled_guest@.dom().contains(id) <==> old(
                    self,
                ).cb_sampled_guest@.dom().contains(id) && outlives(
                    old(self).cb_sampled_guest@[id],
                    written@,
                ),
            forall|id: SampledGuestId| #[trigger]
                final(self).cb_sampled_guest@.dom().contains(id) ==> final(self).cb_sampled_guest@[id] == old(self).cb_sampled_guest@[id],
            invalidated(old(self).cb_sampled_guest@, final(self).cb_sampled_guest@, counts),
            old(self).wf() ==> final(self).wf(),
    {
        forget_written(&mut self.cb_sampled_guest, written)
    }

    /// Keep the upload buffers of an abandoned recording for the next. No bind
    /// may name one of them any more. Says how many binds were forgotten.
    pub fn recycle_staging(&mut self) -> (forgotten: BindCounts)
        requires
            old(self).staging_free.wf(),
            old(self).cb_bound_buffers.wf(),
        ensures
            old(self).cb_bound_buffers.counted_by(forgotten),
            *final(self) == (EncoderPools {
                cb_bound_buffers: final(self).cb_bound_buffers,
                cb_gather_owed: final(self).cb_gather_owed,
                staging_live: final(self).staging_live,
                staging_free: final(self).staging_free,
                ..*old(self)
            }),
            final(self).cb_bound_buffers.wf(),
            final(self).cb_bound_buffers.is_empty(),
            final(self).cb_gather_owed@.len() == 0,
            final(self).staging_live@.len() == 0,
            final(self).staging_free.wf(),
            forall|size: u64| #[trigger]
                final(self).staging_free.kept(size) == old(self).staging_free.kept(size)
                    + in_bucket(old(self).staging_live@, size),
            old(self).wf() ==> final(self).wf(),
    {
        let forgotten = self.cb_bound_buffers.counts();
        self.cb_bound_buffers = CbBufferMemo::new();
        self.cb_gather_owed.clear();
        let slots = taken(&mut self.staging_live);
        self.staging_free.put_all(slots);
        forgotten
    }

    /// Begin one operation of the guest recorded into `cb`. What the guest wrote
    /// since the last one is to be made visible again, and no copy of its memory
    /// may be used again. Says how many there were.
    pub fn begin_guest_operation(&mut self, cb: crate::vk::CommandBuffer) -> (counts:
        SnapshotInvalidation)
        requires
            old(self).cb_bound_buffers.wf(),
            old(self).cb_sampled_guest.wf(),
        ensures
            snapshots_counted(*old(self), counts),
            *final(self) == (EncoderPools {
                cb_bound_buffers: final(self).cb_bound_buffers,
                cb_sampled_guest: final(self).cb_sampled_guest,
                cb_guest_visibility: crate::pools::visibility::CbGuestVisibility {
                    host_visible: false,
                    ..old(self).cb_guest_visibility.of(cb)
                },
                ..*old(self)
            }),
            final(self).cb_bound_buffers.wf(),
            final(self).cb_bound_buffers.aliases == old(self).cb_bound_buffers.aliases,
            final(self).cb_bound_buffers.immutable == old(self).cb_bound_buffers.immutable,
            final(self).cb_bound_buffers.guest_snapshots@ == Map::<BindKey, Remembered>::empty(),
            final(self).cb_sampled_guest.wf(),
            final(self).cb_sampled_guest@ == Map::<SampledGuestId, SampledCopy>::empty(),
            old(self).wf() ==> final(self).wf(),
    {
        self.cb_guest_visibility.begin_operation(cb);
        self.forget_cb_guest_cpu_snapshots()
    }

    /// Enter one draw of a render encoder. Only the first draw, and the first in
    /// another command buffer, begins an operation and says how many copies it
    /// forgot.
    pub fn enter_render_encoder_record(
        &mut self,
        cb: crate::vk::CommandBuffer,
        continues_render_encoder: bool,
    ) -> (begun: Option<SnapshotInvalidation>)
        requires
            old(self).cb_bound_buffers.wf(),
            old(self).cb_sampled_guest.wf(),
        ensures
            old(self).wf() ==> final(self).wf(),
            continues_render_encoder && old(self).cb_guest_visibility.cb == Some(cb)
                ==> *final(self) == *old(self) && begun is None,
            !(continues_render_encoder && old(self).cb_guest_visibility.cb == Some(cb)) ==> {
                &&& begun matches Some(counts) && snapshots_counted(*old(self), counts)
                &&& *final(self) == (EncoderPools {
                    cb_bound_buffers: final(self).cb_bound_buffers,
                    cb_sampled_guest: final(self).cb_sampled_guest,
                    cb_guest_visibility: crate::pools::visibility::CbGuestVisibility {
                        host_visible: false,
                        ..old(self).cb_guest_visibility.of(cb)
                    },
                    ..*old(self)
                })
                &&& final(self).cb_bound_buffers.wf()
                &&& final(self).cb_bound_buffers.aliases == old(self).cb_bound_buffers.aliases
                &&& final(self).cb_bound_buffers.immutable == old(self).cb_bound_buffers.immutable
                &&& final(self).cb_bound_buffers.guest_snapshots@ == Map::<
                    BindKey,
                    Remembered,
                >::empty()
                &&& final(self).cb_sampled_guest.wf()
                &&& final(self).cb_sampled_guest@ == Map::<SampledGuestId, SampledCopy>::empty()
            },
    {
        if self.cb_guest_visibility.begins_operation(cb, continues_render_encoder) {
            Some(self.begin_guest_operation(cb))
        } else {
            None
        }
    }

    /// Note that the command buffer under way wrote guest memory.
    pub fn note_cb_guest_write(&mut self)
        ensures
            *final(self) == (EncoderPools {
                cb_guest_visibility: crate::pools::visibility::CbGuestVisibility {
                    gpu_write_since_barrier: true,
                    ..old(self).cb_guest_visibility
                },
                ..*old(self)
            }),
            old(self).wf() ==> final(self).wf(),
    {
        self.cb_guest_visibility.note_write();
    }
}

/// The bin that buffers of `size` bytes are counted in.
fn bin_index(size: u64) -> (bin: usize)
    ensures
        bin == bin_of(size),
        bin < STAGING_BUCKET_BINS,
{
    let zeros: u32 = size.trailing_zeros();
    if (zeros as usize) < STAGING_BUCKET_BINS {
        zeros as usize
    } else {
        STAGING_BUCKET_BINS - 1
    }
}

proof fn lemma_bin_within(shape: Seq<(u64, nat)>, i: int)
    ensures
        shape_bin(shape, i) <= shape_slots(shape),
    decreases shape.len(),
{
    if shape.len() > 0 {
        lemma_bin_within(shape.drop_last(), i);
    }
}

proof fn lemma_shape_part(shape: Seq<(u64, nat)>, k: int)
    requires
        0 <= k <= shape.len(),
    ensures
        shape_slots(shape.take(k)) <= shape_slots(shape),
        shape_bytes(shape.take(k)) <= shape_bytes(shape),
    decreases shape.len(),
{
    if k == shape.len() {
        assert(shape.take(k) =~= shape);
    } else {
        assert(shape.drop_last().take(k) =~= shape.take(k));
        lemma_shape_part(shape.drop_last(), k);
    }
}

/// How many buffers and bytes the counted sizes have, and how many buffers each
/// bin.
fn free_totals(counts: &Vec<(u64, usize)>, Ghost(shape): Ghost<Seq<(u64, nat)>>) -> (totals: (
    usize,
    u64,
    Vec<u64>,
))
    requires
        shape == counts@.map_values(|count: (u64, usize)| (count.0, count.1 as nat)),
        shape_slots(shape) <= usize::MAX,
        shape_bytes(shape) <= u64::MAX,
    ensures
        totals.0 == shape_slots(shape),
        totals.1 == shape_bytes(shape),
        counts_bins(shape, totals.2@),
{
    let mut slots: usize = 0;
    let mut bytes: u64 = 0;
    let mut bins: Vec<u64> = Vec::new();
    while bins.len() < STAGING_BUCKET_BINS
        invariant
            bins@.len() <= STAGING_BUCKET_BINS,
            forall|i: int| 0 <= i < bins@.len() ==> bins@[i] == 0,
        decreases STAGING_BUCKET_BINS - bins@.len(),
    {
        bins.push(0);
    }
    let mut k: usize = 0;
    assert(shape.take(0) =~= Seq::empty());
    while k < counts.len()
        invariant
            k <= counts@.len(),
            shape == counts@.map_values(|count: (u64, usize)| (count.0, count.1 as nat)),
            shape_slots(shape) <= usize::MAX,
            shape_bytes(shape) <= u64::MAX,
            slots == shape_slots(shape.take(k as int)),
            bytes == shape_bytes(shape.take(k as int)),
            counts_bins(shape.take(k as int), bins@),
        decreases counts@.len() - k,
    {
        let size: u64 = counts[k].0;
        let n: usize = counts[k].1;
        let ghost done = shape.take(k as int);
        let ghost next = shape.take(k + 1);
        let bin: usize = bin_index(size);
        proof {
            assert(next.drop_last() =~= done);
            assert(next.last() == (size, n as nat));
            lemma_shape_part(shape, k + 1);
            lemma_bin_within(next, bin as int);
            assert(bins@[bin as int] == shape_bin(done, bin as int));
        }
        slots = slots + n;
        let held: u64 = match size.checked_mul(n as u64) {
            Some(held) => held,
            None => u64::MAX,
        };
        bytes = bytes + held;
        let filled: u64 = bins[bin] + n as u64;
        let ghost before = bins@;
        bins[bin] = filled;
        proof {
            assert forall|i: int| 0 <= i < STAGING_BUCKET_BINS implies #[trigger] bins@[i]
                == shape_bin(next, i) by {
                assert(before[i] == shape_bin(done, i));
            }
        }
        k += 1;
    }
    assert(shape.take(k as int) =~= shape);
    (slots, bytes, bins)
}

/// A buffer whose size is its own bucket goes back to the very list that serves
/// requests of that size.
pub proof fn law_a_returned_buffer_serves_its_size(slots: Seq<BufferSlot>, slot: BufferSlot)
    requires
        slots.contains(slot),
    ensures
        in_bucket(slots, crate::pools::buckets::bucket_of(slot.size)).contains(slot),
{
    let size = crate::pools::buckets::bucket_of(slot.size);
    let keep = |held: BufferSlot| crate::pools::buckets::bucket_of(held.size) == size;
    assert(keep(slot));
    let i = choose|i: int| 0 <= i < slots.len() && slots[i] == slot;
    slots.lemma_filter_contains(keep, i);
}

/// A count that saturates is the sum, or the largest number where the sum is past
/// it.
pub proof fn law_a_saturated_count_is_the_sum_or_the_largest(count: u64, more: u64)
    ensures
        saturated(count, more) <= count + more,
        saturated(count, more) == count + more || saturated(count, more) == u64::MAX,
        saturated(count, more) >= count,
        count + more <= u64::MAX ==> saturated(count, more) == count + more,
{
}

/// What is written over a mapped buffer is the content, byte for byte from its
/// beginning; what lies behind it stays. No content clears the buffer.
pub proof fn law_content_lies_at_the_beginning_of_its_buffer(bytes: Seq<u8>, before: Seq<u8>, i: int)
    requires
        bytes.len() <= before.len(),
        0 <= i < before.len(),
    ensures
        staged(bytes, before).len() == before.len(),
        i < bytes.len() ==> staged(bytes, before)[i] == bytes[i],
        0 < bytes.len() <= i ==> staged(bytes, before)[i] == before[i],
        bytes.len() == 0 ==> staged(bytes, before)[i] == 0,
{
}

/// A buffer is written as far as its content goes, and at least as far as the
/// least that a buffer has.
pub proof fn law_a_buffer_is_written_as_far_as_its_content(len: u64)
    ensures
        span_of(len) >= len,
        span_of(len) >= LEAST_BUFFER,
        span_of(len) == len || span_of(len) == LEAST_BUFFER,
{
}

/// The runs fill no more than is asked for and no more than they have, and one of
/// the two is what they fill.
pub proof fn law_runs_fill_what_they_have(runs: Seq<GuestRun>, offset: int, total: int)
    requires
        0 <= offset,
        0 <= total,
    ensures
        0 <= filled(runs, offset, total) <= total,
        offset <= runs_len(runs) ==> offset + filled(runs, offset, total) <= runs_len(runs),
        offset > runs_len(runs) ==> filled(runs, offset, total) == 0,
        offset <= runs_len(runs) ==> filled(runs, offset, total) == total || offset + filled(
            runs,
            offset,
            total,
        ) == runs_len(runs),
{
}

/// The runs lie one after the other: byte `j` of a run comes right after all the
/// bytes of the runs before it, and it lies `j` past the run's own address.
pub proof fn law_runs_lie_one_after_the_other(runs: Seq<GuestRun>, r: int, j: int)
    requires
        0 <= r < runs.len(),
        0 <= j < runs[r].len,
    ensures
        run_address(runs, runs_len(runs.take(r)) + j) == runs[r].host_ptr + j,
        runs_len(runs.take(r)) + runs[r].len <= runs_len(runs),
        runs_len(Seq::<GuestRun>::empty()) == 0,
    decreases runs.len(),
{
    let front = runs.drop_last();
    if r == runs.len() - 1 {
        assert(runs.take(r) =~= front);
    } else {
        law_runs_lie_one_after_the_other(front, r, j);
        assert(front.take(r) =~= runs.take(r));
        assert(front[r] == runs[r]);
    }
}

/// The copies reach every byte of what they fill once, in order, and each byte
/// comes from its own place in the runs.
pub proof fn law_copies_reach_every_byte_once(
    copies: Seq<RunCopy>,
    runs: Seq<GuestRun>,
    offset: int,
    end: int,
    at: int,
)
    requires
        copies_fill(copies, runs, offset, end),
    ensures
        end >= 0,
        0 <= at < end ==> exists|k: int|
            0 <= k < copies.len() && (#[trigger] copies[k]).to <= at < copies[k].to + copies[k].len
                && run_address(runs, offset + at) == copies[k].from + (at - copies[k].to),
        forall|k: int|
            0 <= k < copies.len() ==> 0 <= (#[trigger] copies[k]).to && copies[k].len > 0
                && copies[k].to + copies[k].len <= end,
        forall|i: int, j: int|
            0 <= i < j < copies.len() ==> (#[trigger] copies[i]).to + copies[i].len <= (
            #[trigger] copies[j]).to,
    decreases copies.len(),
{
    if copies.len() > 0 {
        let last = copies.last();
        let front = copies.drop_last();
        law_copies_reach_every_byte_once(front, runs, offset, last.to as int, at);
        assert(copies[copies.len() - 1] == last);
        assert forall|k: int| 0 <= k < front.len() implies #[trigger] copies[k] == front[k] by {}
        if 0 <= at < last.to {
            let k = choose|k: int|
                0 <= k < front.len() && (#[trigger] front[k]).to <= at < front[k].to + front[k].len
                    && run_address(runs, offset + at) == front[k].from + (at - front[k].to);
            assert(copies[k] == front[k]);
        } else if last.to <= at < end {
            let i = at - last.to;
            assert(run_address(runs, offset + last.to + i) == last.from + i);
            assert(offset + last.to + i == offset + at);
        }
        assert forall|i: int, j: int| 0 <= i < j < copies.len() implies (#[trigger] copies[i]).to
            + copies[i].len <= (#[trigger] copies[j]).to by {
            assert(copies[i] == front[i]);
            if j < front.len() {
                assert(copies[j] == front[j]);
            }
        }
    }
}

/// One more size adds its buffers and their bytes to the totals, and its buffers to
/// the one bin of its size.
pub proof fn law_one_more_size_adds_its_buffers(
    shape: Seq<(u64, nat)>,
    size: u64,
    count: nat,
    bin: int,
)
    ensures
        shape_slots(Seq::<(u64, nat)>::empty()) == 0,
        shape_bytes(Seq::<(u64, nat)>::empty()) == 0,
        shape_bin(Seq::<(u64, nat)>::empty(), bin) == 0,
        shape_slots(shape.push((size, count))) == shape_slots(shape) + count,
        size * count <= u64::MAX ==> shape_bytes(shape.push((size, count))) == shape_bytes(shape)
            + size * count,
        shape_bytes(shape.push((size, count))) <= shape_bytes(shape) + u64::MAX,
        shape_bin(shape.push((size, count)), bin) == shape_bin(shape, bin) + if bin_of(size) == bin {
            count as int
        } else {
            0
        },
        0 <= bin_of(size) < STAGING_BUCKET_BINS,
{
    let more = shape.push((size, count));
    assert(more.drop_last() =~= shape);
    assert(more.last() == (size, count));
    assert(0 <= size * count) by (nonlinear_arith);
}

/// A mean is the whole part of the sum over the count, and nothing where nothing
/// was counted.
pub proof fn law_a_mean_is_the_sum_over_the_count(counts: Seq<u64>, sums: Seq<u64>, i: int)
    requires
        0 <= i < counts.len(),
        counts.len() == sums.len(),
    ensures
        means(counts, sums).len() == counts.len(),
        counts[i] == 0 ==> means(counts, sums)[i] == 0,
        counts[i] > 0 ==> means(counts, sums)[i] * counts[i] <= sums[i] < (means(counts, sums)[i]
            + 1) * counts[i],
{
    if counts[i] > 0 {
        let sum = sums[i] as int;
        let count = counts[i] as int;
        assert(sum / count * count <= sum < (sum / count + 1) * count) by (nonlinear_arith)
            requires
                count > 0,
                sum >= 0,
        ;
    }
}

/// What a guest store forgets is counted by its sort.
pub proof fn law_forgotten_copies_are_counted(before: EncoderPools, counts: SnapshotInvalidation)
    requires
        snapshots_counted(before, counts),
    ensures
        counts.copies == before.cb_bound_buffers.guest_snapshots@.dom().len(),
        counts.aliases == before.cb_bound_buffers.aliases@.dom().len(),
        counts.sampled == before.cb_sampled_guest@.dom().len(),
{
}

/// One more class adds its size and its number behind what is told of the smaller ones, and
/// nothing where it has no buffer.
pub proof fn law_a_class_without_buffers_is_not_told(counts: Seq<u64>, shown: Seq<u64>, k: nat)
    requires
        k < counts.len(),
        k < shown.len(),
    ensures
        bins_upto(counts, shown, 0) == Seq::<char>::empty(),
        counts[k as int] == 0 ==> bins_upto(counts, shown, k as int + 1) == bins_upto(
            counts,
            shown,
            k as int,
        ),
        counts[k as int] > 0 ==> {
            let before = bins_upto(counts, shown, k as int);
            let told = decimal(pow2(k)) + ":"@ + decimal(shown[k as int] as nat);
            &&& before.len() == 0 ==> bins_upto(counts, shown, k as int + 1) == told
            &&& before.len() > 0 ==> bins_upto(counts, shown, k as int + 1) == before + ","@ + told
        },
{
    let before = bins_upto(counts, shown, k as int);
    assert(bins_upto(counts, shown, k as int + 1) == if counts[k as int] == 0 {
        before
    } else {
        (if before.len() == 0 {
            before
        } else {
            before + ","@
        }) + decimal(pow2(k)) + ":"@ + decimal(shown[k as int] as nat)
    });
    if counts[k as int] > 0 {
        if before.len() == 0 {
            assert(before + decimal(pow2(k)) + ":"@ + decimal(shown[k as int] as nat) =~= decimal(
                pow2(k),
            ) + ":"@ + decimal(shown[k as int] as nat));
        } else {
            assert(before + ","@ + decimal(pow2(k)) + ":"@ + decimal(shown[k as int] as nat)
                =~= before + ","@ + (decimal(pow2(k)) + ":"@ + decimal(shown[k as int] as nat)));
        }
    }
}

/// The buffers of one size occupy their number of times it, as far as that can be told.
pub proof fn law_buffers_occupy_their_size(size: u64, count: nat)
    ensures
        size_bytes(size, count) <= size * count,
        size_bytes(size, count) <= 0xFFFF_FFFF_FFFF_FFFF,
        size_bytes(size, count) == size * count || size_bytes(size, count) == 0xFFFF_FFFF_FFFF_FFFF,
{
    assert(size * count >= 0) by (nonlinear_arith);
}

/// The classes tell of every kept buffer in the class of its size.
pub proof fn law_kept_buffers_are_told_in_their_class(
    shape: Seq<(u64, nat)>,
    free_bins: Seq<u64>,
    i: int,
)
    requires
        counts_bins(shape, free_bins),
        0 <= i < STAGING_BUCKET_BINS,
    ensures
        free_bins.len() == STAGING_BUCKET_BINS,
        free_bins[i] == shape_bin(shape, i),
        shape_bin(shape, i) <= shape_slots(shape),
{
    lemma_a_class_is_part_of_all(shape, i);
}

proof fn lemma_a_class_is_part_of_all(shape: Seq<(u64, nat)>, i: int)
    ensures
        shape_bin(shape, i) <= shape_slots(shape),
    decreases shape.len(),
{
    if shape.len() > 0 {
        lemma_a_class_is_part_of_all(shape.drop_last(), i);
    }
}

/// The class of a size is its lowest bit, and the last class has all whose lowest bit is
/// higher.
pub proof fn law_the_class_of_a_size_is_its_lowest_bit(size: u64, bit: u64)
    requires
        bit < 64,
        (size >> bit) & 1u64 == 1u64,
        forall|lower: u64| lower < bit ==> #[trigger] (size >> lower) & 1u64 == 0u64,
    ensures
        bit < 32 ==> bin_of(size) == bit,
        bit >= 32 ==> bin_of(size) == 31,
{
    let zeros = u64_trailing_zeros(size) as u64;
    assert(zeros <= 64);
    if zeros < bit {
        assert((size >> zeros) & 1u64 == 0u64);
    }
    if bit < zeros {
        assert((size >> bit) & 1u64 == 0u64);
    }
    assert(zeros == bit);
}

} // verus!
