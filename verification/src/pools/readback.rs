//! Readback buffers: acquired for a copy, lent out to be read where they lie,
//! and taken back.

use crate::pools::buckets::{bucket_of, buffer_bucket, in_bucket};
use crate::pools::encoder::{EncoderPools, LeasedReadback};
use crate::pools::entry::{readback_of, taken};
use crate::pools::limits::MemoryTopology;
use crate::pools::slots::BufferSlot;
use crate::decline::fields_text;
use crate::text::{append_decimal, append_flag, append_text, decimal, decimal_text, flag, flag_text};
use crate::text::{hexadecimal, hexadecimal_text, owned};
use vstd::prelude::*;

verus! {

/// A buffer of the size asked for, or what to make.
#[derive(Clone, Copy, Debug, PartialEq, Eq, Structural)]
pub enum Acquired {
    /// A buffer that was free.
    Reused(BufferSlot),
    /// None is free: make one of so many bytes.
    Make {
        /// Its size.
        bucket: u64,
    },
}

/// A readback buffer lent out to be read where it lies.
#[derive(Clone, Copy, Debug, PartialEq, Eq, Structural)]
pub struct ReadbackLease {
    /// What the holder gives back.
    pub token: u64,
    /// Where to read.
    pub ptr: u64,
    /// How far.
    pub slot_size: u64,
}

/// The tokens of leases. Every encoder of a process draws from one of these.
#[derive(Debug, PartialEq, Eq)]
pub struct LeaseTokens {
    /// The token of the next lease.
    pub next: u64,
}

impl LeaseTokens {
    /// No token was drawn yet.
    pub fn new() -> (tokens: LeaseTokens)
        ensures
            tokens.next == 1,
    {
        LeaseTokens { next: 1 }
    }
}

/// What the holders of an encoder's leases and the encoder share.
#[derive(Debug, PartialEq, Eq)]
pub struct ReadbackLeaseReturns {
    /// How many buffers are in a holder's hands.
    pub outstanding: usize,
    /// The tokens given back that the encoder did not take in yet.
    pub returned: Vec<u64>,
}

impl ReadbackLeaseReturns {
    /// Nothing is lent out.
    pub fn new() -> (ledger: ReadbackLeaseReturns)
        ensures
            ledger.outstanding == 0,
            ledger.returned@.len() == 0,
    {
        ReadbackLeaseReturns { outstanding: 0, returned: Vec::new() }
    }

    /// A holder is done with the buffer under `token`.
    pub fn give_back(&mut self, token: u64)
        requires
            old(self).outstanding > 0,
        ensures
            final(self).outstanding == old(self).outstanding - 1,
            final(self).returned@ == old(self).returned@.push(token),
    {
        self.outstanding = self.outstanding - 1;
        self.returned.push(token);
    }

    /// The tokens given back since the last call.
    pub fn take_returned(&mut self) -> (tokens: Vec<u64>)
        ensures
            tokens@ == old(self).returned@,
            final(self).returned@.len() == 0,
            final(self).outstanding == old(self).outstanding,
    {
        taken(&mut self.returned)
    }
}

/// Every lease has a token that was drawn, and no two have the same.
pub open spec fn drawn_apart(leased: Seq<LeasedReadback>, tokens: LeaseTokens) -> bool {
    &&& forall|i: int| 0 <= i < leased.len() ==> (#[trigger] leased[i]).token < tokens.next
    &&& forall|i: int, j: int|
        0 <= i < j < leased.len() ==> (#[trigger] leased[i]).token != (#[trigger] leased[j]).token
}

/// A buffer is lent out under `token`.
pub open spec fn lent_under(leased: Seq<LeasedReadback>, token: u64) -> bool {
    exists|i: int| is_first_lease(leased, token, i)
}

/// No two of `tokens` are the same, and each is that of a lease.
pub open spec fn returns_of(leased: Seq<LeasedReadback>, tokens: Seq<u64>) -> bool {
    &&& forall|i: int, j: int| 0 <= i < j < tokens.len() ==> tokens[i] != tokens[j]
    &&& forall|k: int| 0 <= k < tokens.len() ==> lent_under(leased, #[trigger] tokens[k])
}

/// The least that a buffer is made for.
pub const LEAST_BUFFER: u64 = 4;

/// The bucket that serves a request of `size` bytes.
pub open spec fn request_bucket(size: u64) -> u64 {
    bucket_of(
        if size < LEAST_BUFFER {
            LEAST_BUFFER
        } else {
            size
        },
    )
}

/// The bucket that serves a request of `size` bytes.
pub fn bucket_for(size: u64) -> (bucket: u64)
    ensures
        bucket == request_bucket(size),
        size <= bucket,
{
    buffer_bucket(
        if size < LEAST_BUFFER {
            LEAST_BUFFER
        } else {
            size
        },
    )
}

/// The first lease under `token`.
pub open spec fn is_first_lease(leased: Seq<LeasedReadback>, token: u64, i: int) -> bool {
    &&& 0 <= i < leased.len()
    &&& leased[i].token == token
    &&& forall|j: int| 0 <= j < i ==> (#[trigger] leased[j]).token != token
}

/// What is still lent out and what came back when the holders of `tokens`, in
/// turn, gave back their buffers. A token that no lease has gives nothing.
pub open spec fn given_back(leased: Seq<LeasedReadback>, tokens: Seq<u64>) -> (
    Seq<LeasedReadback>,
    Seq<BufferSlot>,
)
    decreases tokens.len(),
{
    if tokens.len() == 0 {
        (leased, Seq::empty())
    } else {
        let (rest, back) = given_back(leased, tokens.drop_last());
        let token = tokens.last();
        if exists|i: int| is_first_lease(rest, token, i) {
            let i = choose|i: int| is_first_lease(rest, token, i);
            (rest.remove(i), back.push(rest[i].slot))
        } else {
            (rest, back)
        }
    }
}

/// Where the first lease under `token` is.
fn find_lease(leased: &Vec<LeasedReadback>, token: u64) -> (found: Option<usize>)
    ensures
        match found {
            Some(i) => is_first_lease(leased@, token, i as int) && (choose|k: int|
                is_first_lease(leased@, token, k)) == i,
            None => forall|k: int| !is_first_lease(leased@, token, k),
        },
{
    let mut i: usize = 0;
    while i < leased.len()
        invariant
            i <= leased@.len(),
            forall|j: int| 0 <= j < i ==> (#[trigger] leased@[j]).token != token,
        decreases leased@.len() - i,
    {
        if leased[i].token == token {
            proof {
                assert(is_first_lease(leased@, token, i as int));
                let k = choose|k: int| is_first_lease(leased@, token, k);
                assert(is_first_lease(leased@, token, k));
                if k < i {
                    assert(leased@[k].token != token);
                }
                if i < k {
                    assert(leased@[i as int].token != token);
                }
            }
            return Some(i);
        }
        i += 1;
    }
    assert forall|k: int| !is_first_lease(leased@, token, k) by {
        if is_first_lease(leased@, token, k) {
            assert(leased@[k].token != token);
        }
    }
    None
}

impl EncoderPools {
    /// A readback buffer for the command buffer under way. Buffers whose holders
    /// gave back `returned` are free again first.
    pub fn acquire_readback(&mut self, size: u64, returned: &Vec<u64>) -> (acquired: Acquired)
        requires
            old(self).readback_free.wf(),
        ensures
            *final(self) == (EncoderPools {
                readback_leased: final(self).readback_leased,
                readback_free: final(self).readback_free,
                readback_live: final(self).readback_live,
                ..*old(self)
            }),
            final(self).readback_free.wf(),
            old(self).wf() ==> final(self).wf(),
            final(self).readback_leased@ == given_back(old(self).readback_leased@, returned@).0,
            ({
                let bucket = request_bucket(size);
                let back = given_back(old(self).readback_leased@, returned@).1;
                let free = old(self).readback_free.kept(bucket) + in_bucket(back, bucket);
                match acquired {
                    Acquired::Reused(slot) => {
                        &&& free.len() > 0
                        &&& slot == free.last()
                        &&& final(self).readback_live == Some(slot)
                        &&& forall|other: u64| #[trigger]
                            final(self).readback_free.kept(other) == if other == bucket {
                                free.drop_last()
                            } else {
                                old(self).readback_free.kept(other) + in_bucket(back, other)
                            }
                    },
                    Acquired::Make { bucket: made } => {
                        &&& made == bucket
                        &&& free.len() == 0
                        &&& final(self).readback_live == old(self).readback_live
                        &&& forall|other: u64| #[trigger]
                            final(self).readback_free.kept(other) == old(self).readback_free.kept(
                                other,
                            ) + in_bucket(back, other)
                    },
                }
            }),
    {
        self.reclaim_returned_readback_leases(returned);
        let bucket: u64 = bucket_for(size);
        match self.readback_free.take(bucket) {
            Some(slot) => {
                self.readback_live = Some(slot);
                Acquired::Reused(slot)
            },
            None => Acquired::Make { bucket },
        }
    }

    /// Hold a new readback buffer for the command buffer under way.
    pub fn hold_readback(&mut self, slot: BufferSlot)
        ensures
            *final(self) == (EncoderPools { readback_live: Some(slot), ..*old(self) }),
            old(self).wf() ==> final(self).wf(),
    {
        self.readback_live = Some(slot);
    }

    /// A further readback buffer, beside the first.
    pub fn acquire_readback_extra(&mut self, size: u64) -> (acquired: Acquired)
        requires
            old(self).readback_free.wf(),
        ensures
            *final(self) == (EncoderPools {
                readback_free: final(self).readback_free,
                readback_multi_live: final(self).readback_multi_live,
                ..*old(self)
            }),
            final(self).readback_free.wf(),
            old(self).wf() ==> final(self).wf(),
            ({
                let bucket = request_bucket(size);
                let free = old(self).readback_free.kept(bucket);
                match acquired {
                    Acquired::Reused(slot) => {
                        &&& free.len() > 0
                        &&& slot == free.last()
                        &&& final(self).readback_multi_live@ == old(
                            self,
                        ).readback_multi_live@.push(slot)
                        &&& forall|other: u64| #[trigger]
                            final(self).readback_free.kept(other) == if other == bucket {
                                free.drop_last()
                            } else {
                                old(self).readback_free.kept(other)
                            }
                    },
                    Acquired::Make { bucket: made } => {
                        &&& made == bucket
                        &&& free.len() == 0
                        &&& final(self).readback_multi_live == old(self).readback_multi_live
                        &&& forall|other: u64| #[trigger]
                            final(self).readback_free.kept(other) == old(
                                self,
                            ).readback_free.kept(other)
                    },
                }
            }),
    {
        let bucket: u64 = bucket_for(size);
        match self.readback_free.take(bucket) {
            Some(slot) => {
                self.readback_multi_live.push(slot);
                Acquired::Reused(slot)
            },
            None => Acquired::Make { bucket },
        }
    }

    /// Hold a new further readback buffer.
    pub fn hold_readback_extra(&mut self, slot: BufferSlot)
        ensures
            *final(self) == (EncoderPools {
                readback_multi_live: final(self).readback_multi_live,
                ..*old(self)
            }),
            final(self).readback_multi_live@ == old(self).readback_multi_live@.push(slot),
            old(self).wf() ==> final(self).wf(),
    {
        self.readback_multi_live.push(slot);
    }

    /// Lend out the readback buffer of the command buffer under way, under a
    /// token that no lease had before. One that is not mapped, or that the host
    /// would read uncached, is not lent out: it is copied from instead.
    pub fn lease_readback(
        &mut self,
        tokens: &mut LeaseTokens,
        ledger: &mut ReadbackLeaseReturns,
    ) -> (lease: Option<ReadbackLease>)
        requires
            drawn_apart(old(self).readback_leased@, *old(tokens)),
            old(tokens).next < u64::MAX,
            old(ledger).outstanding < usize::MAX,
        ensures
            *final(self) == (EncoderPools {
                readback_live: final(self).readback_live,
                readback_leased: final(self).readback_leased,
                ..*old(self)
            }),
            match old(self).readback_live {
                Some(slot) if slot.mapped != 0 && slot.cached => {
                    let token = old(tokens).next;
                    &&& lease == Some(
                        ReadbackLease { token, ptr: slot.mapped, slot_size: slot.size },
                    )
                    &&& forall|i: int|
                        0 <= i < old(self).readback_leased@.len() ==> (#[trigger] old(
                            self,
                        ).readback_leased@[i]).token != token
                    &&& final(self).readback_live is None
                    &&& final(self).readback_leased@ == old(self).readback_leased@.push(
                        LeasedReadback { token, slot },
                    )
                    &&& final(tokens).next == token + 1
                    &&& final(ledger).outstanding == old(ledger).outstanding + 1
                },
                _ => {
                    &&& lease is None
                    &&& final(self).readback_live == old(self).readback_live
                    &&& final(self).readback_leased == old(self).readback_leased
                    &&& final(tokens).next == old(tokens).next
                    &&& final(ledger).outstanding == old(ledger).outstanding
                },
            },
            final(ledger).returned == old(ledger).returned,
            drawn_apart(final(self).readback_leased@, *final(tokens)),
            old(self).wf() ==> final(self).wf(),
    {
        let slot: BufferSlot = match self.readback_live {
            Some(slot) => slot,
            None => return None,
        };
        if slot.mapped == 0 || !slot.cached {
            return None;
        }
        let token: u64 = tokens.next;
        tokens.next = token + 1;
        ledger.outstanding = ledger.outstanding + 1;
        self.readback_live = None;
        self.readback_leased.push(LeasedReadback { token, slot });
        Some(ReadbackLease { token, ptr: slot.mapped, slot_size: slot.size })
    }

    /// Take the buffers out of the leases whose holders gave back `returned`.
    pub(crate) fn take_returned_leases(&mut self, returned: &Vec<u64>) -> (back: Vec<BufferSlot>)
        ensures
            *final(self) == (EncoderPools {
                readback_leased: final(self).readback_leased,
                ..*old(self)
            }),
            (final(self).readback_leased@, back@) == given_back(
                old(self).readback_leased@,
                returned@,
            ),
            old(self).wf() ==> final(self).wf(),
    {
        let mut back: Vec<BufferSlot> = Vec::new();
        let mut k: usize = 0;
        assert(returned@.take(0) =~= Seq::empty());
        while k < returned.len()
            invariant
                k <= returned@.len(),
                *self == (EncoderPools {
                    readback_leased: self.readback_leased,
                    ..*old(self)
                }),
                (self.readback_leased@, back@) == given_back(
                    old(self).readback_leased@,
                    returned@.take(k as int),
                ),
            decreases returned@.len() - k,
        {
            let ghost rest = self.readback_leased@;
            proof {
                assert(returned@.take(k + 1).drop_last() =~= returned@.take(k as int));
            }
            match find_lease(&self.readback_leased, returned[k]) {
                Some(at) => {
                    let lease = self.readback_leased.remove(at);
                    assert(lease == rest[at as int]);
                    back.push(lease.slot);
                },
                None => {},
            }
            k += 1;
        }
        assert(returned@.take(k as int) =~= returned@);
        back
    }

    /// Take back every buffer whose holder gave back its token.
    pub fn reclaim_returned_readback_leases(&mut self, returned: &Vec<u64>)
        requires
            old(self).readback_free.wf(),
        ensures
            *final(self) == (EncoderPools {
                readback_leased: final(self).readback_leased,
                readback_free: final(self).readback_free,
                ..*old(self)
            }),
            final(self).readback_free.wf(),
            final(self).readback_leased@ == given_back(old(self).readback_leased@, returned@).0,
            forall|size: u64| #[trigger]
                final(self).readback_free.kept(size) == old(self).readback_free.kept(size)
                    + in_bucket(given_back(old(self).readback_leased@, returned@).1, size),
            old(self).wf() ==> final(self).wf(),
    {
        let back = self.take_returned_leases(returned);
        self.readback_free.put_all(back);
    }

    /// Keep the readback buffers of an abandoned recording for the next.
    pub fn recycle_readback(&mut self)
        requires
            old(self).readback_free.wf(),
        ensures
            *final(self) == (EncoderPools {
                readback_live: None,
                readback_multi_live: final(self).readback_multi_live,
                readback_free: final(self).readback_free,
                ..*old(self)
            }),
            final(self).readback_multi_live@.len() == 0,
            final(self).readback_free.wf(),
            forall|size: u64| #[trigger]
                final(self).readback_free.kept(size) == old(self).readback_free.kept(size)
                    + in_bucket(
                    readback_of(old(self).readback_live, old(self).readback_multi_live@),
                    size,
                ),
            old(self).wf() ==> final(self).wf(),
    {
        let mut slots: Vec<BufferSlot> = Vec::new();
        if let Some(slot) = self.readback_live {
            slots.push(slot);
        }
        self.readback_live = None;
        let mut others = taken(&mut self.readback_multi_live);
        slots.append(&mut others);
        assert(slots@ =~= readback_of(old(self).readback_live, old(self).readback_multi_live@));
        self.readback_free.put_all(slots);
    }
}

/// While a buffer is lent out it is in no list that a copy could take it from:
/// what is lent out leaves the recording, and what comes back leaves the leases.
pub proof fn law_a_lent_buffer_comes_back_once(leased: Seq<LeasedReadback>, tokens: Seq<u64>)
    ensures
        given_back(leased, tokens).0.len() + given_back(leased, tokens).1.len() == leased.len(),
    decreases tokens.len(),
{
    if tokens.len() > 0 {
        law_a_lent_buffer_comes_back_once(leased, tokens.drop_last());
        let rest = given_back(leased, tokens.drop_last()).0;
        let token = tokens.last();
        if exists|i: int| is_first_lease(rest, token, i) {
            let i = choose|i: int| is_first_lease(rest, token, i);
            assert(is_first_lease(rest, token, i));
        }
    }
}

/// The tokens of what is lent out differ pairwise, and stay so when buffers come
/// back.
pub proof fn law_lent_tokens_stay_apart(
    leased: Seq<LeasedReadback>,
    drawn: LeaseTokens,
    tokens: Seq<u64>,
)
    requires
        drawn_apart(leased, drawn),
    ensures
        drawn_apart(given_back(leased, tokens).0, drawn),
    decreases tokens.len(),
{
    if tokens.len() > 0 {
        law_lent_tokens_stay_apart(leased, drawn, tokens.drop_last());
    }
}

/// Holders that give back what they hold, each once, free one buffer each, and
/// what they do not hold stays lent out.
pub proof fn law_each_return_frees_one_buffer(
    leased: Seq<LeasedReadback>,
    drawn: LeaseTokens,
    tokens: Seq<u64>,
)
    requires
        drawn_apart(leased, drawn),
        returns_of(leased, tokens),
    ensures
        given_back(leased, tokens).1.len() == tokens.len(),
        given_back(leased, tokens).0.len() == leased.len() - tokens.len(),
        forall|i: int|
            0 <= i < leased.len() && !tokens.contains((#[trigger] leased[i]).token)
                ==> given_back(leased, tokens).0.contains(leased[i]),
    decreases tokens.len(),
{
    law_a_lent_buffer_comes_back_once(leased, tokens);
    if tokens.len() > 0 {
        let fewer = tokens.drop_last();
        let token = tokens.last();
        law_each_return_frees_one_buffer(leased, drawn, fewer);
        law_lent_tokens_stay_apart(leased, drawn, fewer);
        let rest = given_back(leased, fewer).0;
        assert(lent_under(leased, tokens[tokens.len() - 1]));
        let at = choose|i: int| is_first_lease(leased, token, i);
        assert(is_first_lease(leased, token, at));
        assert(!fewer.contains(token)) by {
            if fewer.contains(token) {
                let k = choose|k: int| 0 <= k < fewer.len() && fewer[k] == token;
                assert(tokens[k] == tokens[tokens.len() - 1]);
            }
        }
        assert(rest.contains(leased[at]));
        let there = choose|i: int| 0 <= i < rest.len() && rest[i] == leased[at];
        assert(is_first_lease(rest, token, there));
        let gone = choose|i: int| is_first_lease(rest, token, i);
        assert(is_first_lease(rest, token, gone));
        assert forall|i: int|
            0 <= i < leased.len() && !tokens.contains((#[trigger] leased[i]).token) implies rest.remove(
            gone,
        ).contains(leased[i]) by {
            assert(!fewer.contains(leased[i].token)) by {
                if fewer.contains(leased[i].token) {
                    let k = choose|k: int| 0 <= k < fewer.len() && fewer[k] == leased[i].token;
                    assert(tokens[k] == leased[i].token);
                }
            }
            assert(rest.contains(leased[i]));
            let k = choose|k: int| 0 <= k < rest.len() && rest[k] == leased[i];
            assert(leased[i].token != token);
            if k < gone {
                assert(rest.remove(gone)[k] == leased[i]);
            } else {
                assert(rest.remove(gone)[k - 1] == leased[i]);
            }
        }
    }
}

/// How a memory type is mapped.
#[derive(Clone, Copy, Debug, PartialEq, Eq, Structural)]
pub struct MappedMemoryKind {
    /// Host accesses need no flush.
    pub coherent: bool,
    /// Host reads are cached.
    pub cached: bool,
}

/// A readback buffer that the host reads uncached: every readback works, and
/// every one is slow.
#[derive(Clone, Copy, Debug, PartialEq, Eq, Structural)]
pub struct ReadbackMemoryDegrade {
    /// The memory type that was taken.
    pub memory_type: u32,
    /// The memory types that were to be had.
    pub type_bits: u32,
}

impl ReadbackMemoryDegrade {
    /// The name of the report.
    pub fn slug(&self) -> (slug: &'static str)
        ensures
            slug@ == "readback_memory_not_cached"@,
    {
        "readback_memory_not_cached"
    }

    /// The values that bear on it.
    pub open spec fn fields_spec(self) -> Seq<(Seq<char>, Seq<char>)> {
        seq![
            ("memory_type"@, decimal(self.memory_type as nat)),
            ("type_bits"@, hexadecimal(self.type_bits as nat)),
        ]
    }

    /// The values that bear on it.
    pub fn fields(&self) -> (fields: Vec<(&'static str, String)>)
        ensures
            fields_text(fields@) == self.fields_spec(),
    {
        let fields: Vec<(&'static str, String)> = vec![
            ("memory_type", decimal_text(self.memory_type as u64)),
            ("type_bits", hexadecimal_text(self.type_bits as u64)),
        ];
        assert(fields_text(fields@) =~= self.fields_spec());
        fields
    }
}

/// What to report of the memory that a readback buffer landed in.
#[derive(Debug)]
pub enum ReadbackMemoryNote {
    /// Nothing: the type was reported before.
    Silent,
    /// A line: the type is cached.
    Cached(String),
    /// A degradation, with further values.
    Degraded(ReadbackMemoryDegrade, Vec<(&'static str, String)>),
}

/// The line that reports a cached memory type.
pub open spec fn cached_line(
    memory_type: u32,
    kind: MappedMemoryKind,
    topology: MemoryTopology,
) -> Seq<char> {
    "readback_memory type="@ + decimal(memory_type as nat) + " cached=1 coherent="@ + flag(
        kind.coherent,
    ) + " topology="@ + topology.slug_text()
}

/// What to report of the memory that a readback buffer landed in, once for each
/// memory type. Both outcomes are reported, so that silence means neither.
pub fn note_readback_memory(
    first_sight: bool,
    memory_type: u32,
    type_bits: u32,
    kind: MappedMemoryKind,
    topology: MemoryTopology,
) -> (note: ReadbackMemoryNote)
    ensures
        match note {
            ReadbackMemoryNote::Silent => !first_sight,
            ReadbackMemoryNote::Cached(line) => first_sight && kind.cached && line@ == cached_line(
                memory_type,
                kind,
                topology,
            ),
            ReadbackMemoryNote::Degraded(degrade, fields) => {
                &&& first_sight && !kind.cached
                &&& degrade == (ReadbackMemoryDegrade { memory_type, type_bits })
                &&& fields_text(fields@) == seq![
                    ("coherent"@, flag(kind.coherent)),
                    ("topology"@, topology.slug_text()),
                ]
            },
        },
{
    if !first_sight {
        return ReadbackMemoryNote::Silent;
    }
    if kind.cached {
        let mut line = owned("readback_memory type=");
        append_decimal(&mut line, memory_type as u64);
        append_text(&mut line, " cached=1 coherent=");
        append_flag(&mut line, kind.coherent);
        append_text(&mut line, " topology=");
        append_text(&mut line, topology.slug());
        ReadbackMemoryNote::Cached(line)
    } else {
        let fields: Vec<(&'static str, String)> = vec![
            ("coherent", flag_text(kind.coherent)),
            ("topology", owned(topology.slug())),
        ];
        assert(fields_text(fields@) =~= seq![
            ("coherent"@, flag(kind.coherent)),
            ("topology"@, topology.slug_text()),
        ]);
        ReadbackMemoryNote::Degraded(ReadbackMemoryDegrade { memory_type, type_bits }, fields)
    }
}

/// A request is served by a bucket that holds it and the least that a buffer has,
/// and requests of one size are served by one bucket.
pub proof fn law_a_request_fits_its_bucket(size: u64)
    ensures
        size <= LEAST_BUFFER ==> request_bucket(size) == bucket_of(LEAST_BUFFER),
        size >= LEAST_BUFFER ==> request_bucket(size) == bucket_of(size),
{
}

/// A holder gives back the buffer it holds: the lease under its token ends and
/// that lease's buffer comes back. A token that no lease has changes nothing.
pub proof fn law_a_token_gives_back_its_own_buffer(
    leased: Seq<LeasedReadback>,
    drawn: LeaseTokens,
    at: int,
    token: u64,
)
    requires
        drawn_apart(leased, drawn),
    ensures
        0 <= at < leased.len() && leased[at].token == token ==> given_back(leased, seq![token]) == (
            leased.remove(at),
            seq![leased[at].slot],
        ),
        (forall|i: int| 0 <= i < leased.len() ==> (#[trigger] leased[i]).token != token)
            ==> given_back(leased, seq![token]) == (leased, Seq::<BufferSlot>::empty()),
        given_back(leased, Seq::<u64>::empty()) == (leased, Seq::<BufferSlot>::empty()),
{
    let one = seq![token];
    assert(one.drop_last() =~= Seq::<u64>::empty());
    assert(one.last() == token);
    assert(given_back(leased, one.drop_last()) == (leased, Seq::<BufferSlot>::empty()));
    if 0 <= at < leased.len() && leased[at].token == token {
        assert(is_first_lease(leased, token, at));
        let i = choose|i: int| is_first_lease(leased, token, i);
        assert(is_first_lease(leased, token, i));
        assert(i == at);
        assert(Seq::<BufferSlot>::empty().push(leased[at].slot) =~= seq![leased[at].slot]);
    }
}

/// Giving back in turn is giving back one after the other.
pub proof fn law_returns_follow_each_other(leased: Seq<LeasedReadback>, tokens: Seq<u64>, next: u64)
    ensures
        given_back(leased, tokens.push(next)).0 == given_back(
            given_back(leased, tokens).0,
            seq![next],
        ).0,
        given_back(leased, tokens.push(next)).1 == given_back(leased, tokens).1 + given_back(
            given_back(leased, tokens).0,
            seq![next],
        ).1,
{
    let all = tokens.push(next);
    assert(all.drop_last() =~= tokens);
    let rest = given_back(leased, tokens).0;
    let back = given_back(leased, tokens).1;
    let one = seq![next];
    assert(one.drop_last() =~= Seq::<u64>::empty());
    assert(one.last() == next);
    assert(given_back(rest, one.drop_last()) == (rest, Seq::<BufferSlot>::empty()));
    if exists|i: int| is_first_lease(rest, next, i) {
        let i = choose|i: int| is_first_lease(rest, next, i);
        assert(back.push(rest[i].slot) =~= back + Seq::<BufferSlot>::empty().push(rest[i].slot));
    } else {
        assert(back + Seq::<BufferSlot>::empty() =~= back);
    }
}

/// Leases are apart where each has a token drawn before and no two share one.
pub proof fn law_leases_are_told_apart_by_their_tokens(
    leased: Seq<LeasedReadback>,
    drawn: LeaseTokens,
    i: int,
    j: int,
)
    requires
        drawn_apart(leased, drawn),
        0 <= i < leased.len(),
        0 <= j < leased.len(),
    ensures
        leased[i].token < drawn.next,
        leased[i].token == leased[j].token ==> i == j,
        lent_under(leased, leased[i].token),
{
    assert(is_first_lease(leased, leased[i].token, i));
}

/// A token finds one lease: the first that has it, wherever one does.
pub proof fn law_a_token_finds_its_first_lease(
    leased: Seq<LeasedReadback>,
    token: u64,
    i: int,
    j: int,
)
    ensures
        is_first_lease(leased, token, i) && is_first_lease(leased, token, j) ==> i == j,
        is_first_lease(leased, token, i) ==> leased[i].token == token,
        0 <= j < leased.len() && leased[j].token == token && is_first_lease(leased, token, i) ==> i
            <= j,
        0 <= j < leased.len() && leased[j].token == token ==> lent_under(leased, token),
        lent_under(leased, token) ==> exists|k: int|
            0 <= k < leased.len() && (#[trigger] leased[k]).token == token,
    decreases j,
{
    if 0 <= j < leased.len() && leased[j].token == token {
        if forall|k: int| 0 <= k < j ==> (#[trigger] leased[k]).token != token {
            assert(is_first_lease(leased, token, j));
        } else {
            let k = choose|k: int| 0 <= k < j && (#[trigger] leased[k]).token == token;
            law_a_token_finds_its_first_lease(leased, token, i, k);
        }
    }
    if lent_under(leased, token) {
        let k = choose|k: int| is_first_lease(leased, token, k);
        assert(leased[k].token == token);
    }
}

} // verus!
