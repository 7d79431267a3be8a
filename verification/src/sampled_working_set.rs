//! How many distinct sampled windows the workload wants live at once.
//!
//! Every sampled bind names a key and the identity of the content it reads,
//! before any cache is consulted. The distinct pairs of one census second are
//! the working set, and what they would occupy stands beside their number.
//!
//! A bind that names no identity could hit no cache of any size, so it is
//! counted apart.

use crate::pools::slots::SampledKey;
use crate::text::{append_decimal, append_text, decimal, owned};
use vstd::prelude::*;

verus! {

/// The content that a sampled bind reads.
#[derive(Clone, Copy, Debug, PartialEq, Eq, Structural)]
pub struct SampledContentIdentity {
    /// The resource.
    pub key: u64,
    /// Which of its contents.
    pub generation: u64,
}

/// One window that was asked for, and the bytes it would occupy.
#[derive(Clone, Copy, Debug, PartialEq, Eq, Structural)]
pub struct Wanted {
    /// The image.
    pub key: SampledKey,
    /// Its content.
    pub identity: SampledContentIdentity,
    /// The length of the content.
    pub bytes: usize,
}

/// What one census second asked for.
#[derive(Debug)]
pub struct Window {
    /// The distinct windows, in the order in which they were first asked for.
    pub wanted: Vec<Wanted>,
    /// The binds that named no identity.
    pub no_identity: u64,
    /// How often a new window was refused because the set was full. Unless it
    /// is zero, the number of windows is a floor and not a count.
    pub dropped: u64,
}

/// The most distinct windows that one census second tracks.
pub const CAPACITY: usize = 8192;

/// The two entries are one window.
pub open spec fn same_window(a: Wanted, b: Wanted) -> bool {
    a.key == b.key && a.identity == b.identity
}

/// Some entry is the window of `asked`.
pub open spec fn is_wanted(wanted: Seq<Wanted>, asked: Wanted) -> bool {
    exists|i: int| 0 <= i < wanted.len() && same_window(#[trigger] wanted[i], asked)
}

/// The set after `asked` was asked for: the entry of the same window takes its
/// bytes, and a new window joins at the end.
pub open spec fn wanting(wanted: Seq<Wanted>, asked: Wanted) -> Seq<Wanted> {
    if is_wanted(wanted, asked) {
        wanted.map_values(|entry: Wanted| if same_window(entry, asked) { asked } else { entry })
    } else {
        wanted.push(asked)
    }
}

/// What all the windows would occupy together.
pub open spec fn total_bytes(wanted: Seq<Wanted>) -> nat
    decreases wanted.len(),
{
    if wanted.len() == 0 {
        0
    } else {
        total_bytes(wanted.drop_last()) + wanted.last().bytes as nat
    }
}

/// `n / d` to the nearest whole number, and to the even one of two that are
/// equally near.
pub open spec fn nearest(n: nat, d: nat) -> nat
    recommends
        d > 0,
{
    let whole = n / d;
    let rest = n % d;
    if 2 * rest > d || (2 * rest == d && whole % 2 == 1) {
        whole + 1
    } else {
        whole
    }
}

/// Below this every whole number has a double of its own.
pub const EXACT_DOUBLES: u64 = 0x20_0000_0000_0000;

/// The distance between the doubles around `n`, or one where it is smaller.
pub open spec fn spacing(n: nat) -> nat
    decreases n,
{
    if n < EXACT_DOUBLES {
        1
    } else {
        2 * spacing(n / 2)
    }
}

/// The double nearest to `n`.
pub open spec fn nearest_double(n: nat) -> nat {
    nearest(n, spacing(n)) * spacing(n)
}

/// The bytes in one MiB.
pub const MIB: u64 = 0x10_0000;

/// The tenths of a MiB that `bytes` is shown as.
pub open spec fn mib_tenths(bytes: nat) -> nat {
    nearest(10 * nearest_double(bytes), MIB as nat)
}

/// `bytes` in MiB, with one digit behind the point.
pub open spec fn mib_text(bytes: nat) -> Seq<char> {
    decimal(mib_tenths(bytes) / 10) + "."@ + decimal(mib_tenths(bytes) % 10)
}

/// The census line.
pub open spec fn census_text(
    wanted: Seq<Wanted>,
    no_identity: u64,
    dropped: u64,
) -> Seq<char> {
    "sampled_working_set distinct="@ + decimal(wanted.len()) + " mib="@ + mib_text(
        total_bytes(wanted),
    ) + " no_identity="@ + decimal(no_identity as nat) + " dropped="@ + decimal(dropped as nat)
        + " (distinct (key, identity) windows this census second asked for, and what holding all of them would cost; a per-window set, not a high-water — do not sum across windows)"@
}

/// What asking for a window does. A bind that names no identity is counted
/// apart, and a new window that finds the set full is only counted.
pub open spec fn asked_for(
    before: Window,
    after: Window,
    key: SampledKey,
    identity: Option<SampledContentIdentity>,
    bytes: usize,
) -> bool {
    match identity {
        None => {
            &&& after.no_identity == before.no_identity + 1
            &&& after.wanted == before.wanted
            &&& after.dropped == before.dropped
        },
        Some(identity) => {
            let asked = Wanted { key, identity, bytes };
            &&& after.no_identity == before.no_identity
            &&& if !is_wanted(before.wanted@, asked) && before.wanted@.len() >= CAPACITY {
                &&& after.wanted == before.wanted
                &&& after.dropped == before.dropped + 1
            } else {
                &&& after.wanted@ == wanting(before.wanted@, asked)
                &&& after.dropped == before.dropped
            }
        },
    }
}

impl Window {
    /// No window stands twice in the set, and the set is within its bound.
    pub open spec fn wf(self) -> bool {
        &&& self.wanted@.len() <= CAPACITY
        &&& forall|i: int, j: int|
            0 <= i < j < self.wanted@.len() ==> !same_window(
                #[trigger] self.wanted@[i],
                #[trigger] self.wanted@[j],
            )
    }

    /// Nothing was asked for.
    pub open spec fn is_clear(self) -> bool {
        self.wanted@.len() == 0 && self.no_identity == 0 && self.dropped == 0
    }

    /// A census second in which nothing was asked for yet.
    pub fn new() -> (window: Window)
        ensures
            window.wf(),
            window.is_clear(),
    {
        Window { wanted: Vec::new(), no_identity: 0, dropped: 0 }
    }

    /// Record that a bind asked for a window.
    pub fn want(
        &mut self,
        key: SampledKey,
        identity: Option<SampledContentIdentity>,
        bytes: usize,
    )
        requires
            old(self).wf(),
            old(self).no_identity < u64::MAX,
            old(self).dropped < u64::MAX,
        ensures
            final(self).wf(),
            asked_for(*old(self), *final(self), key, identity, bytes),
    {
        let identity = match identity {
            Some(identity) => identity,
            None => {
                self.no_identity = self.no_identity + 1;
                return;
            },
        };
        let asked = Wanted { key, identity, bytes };
        let mut at: usize = 0;
        while at < self.wanted.len()
            invariant
                *self == *old(self),
                at <= self.wanted@.len(),
                asked == (Wanted { key, identity, bytes }),
                forall|i: int| 0 <= i < at ==> !same_window(#[trigger] self.wanted@[i], asked),
            ensures
                *self == *old(self),
                at <= self.wanted@.len(),
                forall|i: int| 0 <= i < at ==> !same_window(#[trigger] self.wanted@[i], asked),
                at < self.wanted@.len() ==> same_window(self.wanted@[at as int], asked),
            decreases self.wanted@.len() - at,
        {
            if self.wanted[at].key == key && self.wanted[at].identity == identity {
                break;
            }
            at += 1;
        }
        if at == self.wanted.len() {
            assert(!is_wanted(old(self).wanted@, asked));
            if self.wanted.len() >= CAPACITY {
                self.dropped = self.dropped + 1;
                return;
            }
            self.wanted.push(asked);
        } else {
            assert(is_wanted(old(self).wanted@, asked));
            self.wanted[at] = asked;
            assert(self.wanted@ =~= wanting(old(self).wanted@, asked));
        }
    }

    /// The census line, or nothing where no bind happened. The window is clear
    /// afterwards: this is the set of one second and no high-water mark.
    pub fn take(&mut self) -> (line: Option<String>)
        requires
            old(self).wf(),
            total_bytes(old(self).wanted@) <= usize::MAX,
        ensures
            final(self).wf(),
            if old(self).wanted@.len() == 0 && old(self).no_identity == 0 {
                line is None && *final(self) == *old(self)
            } else {
                &&& line matches Some(line)
                &&& line@ == census_text(
                    old(self).wanted@,
                    old(self).no_identity,
                    old(self).dropped,
                )
                &&& final(self).is_clear()
            },
    {
        if self.wanted.len() == 0 && self.no_identity == 0 {
            return None;
        }
        let mut bytes: usize = 0;
        let mut k: usize = 0;
        assert(self.wanted@.take(0) =~= Seq::empty());
        while k < self.wanted.len()
            invariant
                *self == *old(self),
                k <= self.wanted@.len(),
                bytes == total_bytes(self.wanted@.take(k as int)),
                total_bytes(self.wanted@) <= usize::MAX,
            decreases self.wanted@.len() - k,
        {
            proof {
                let next = self.wanted@.take(k + 1);
                assert(next.drop_last() =~= self.wanted@.take(k as int));
                lemma_part_is_no_more(self.wanted@, k + 1);
            }
            bytes = bytes + self.wanted[k].bytes;
            k += 1;
        }
        assert(self.wanted@.take(k as int) =~= self.wanted@);
        let mut line = owned("sampled_working_set distinct=");
        append_decimal(&mut line, self.wanted.len() as u64);
        append_text(&mut line, " mib=");
        append_mib(&mut line, bytes as u64);
        append_text(&mut line, " no_identity=");
        append_decimal(&mut line, self.no_identity);
        append_text(&mut line, " dropped=");
        append_decimal(&mut line, self.dropped);
        append_text(
            &mut line,
            " (distinct (key, identity) windows this census second asked for, and what holding all of them would cost; a per-window set, not a high-water — do not sum across windows)",
        );
        assert(line@ =~= census_text(self.wanted@, self.no_identity, self.dropped));
        *self = Window::new();
        Some(line)
    }
}

/// The first `k` windows occupy no more than all of them.
proof fn lemma_part_is_no_more(wanted: Seq<Wanted>, k: int)
    requires
        0 <= k <= wanted.len(),
    ensures
        total_bytes(wanted.take(k)) <= total_bytes(wanted),
    decreases wanted.len(),
{
    if k < wanted.len() {
        assert(wanted.drop_last().take(k) =~= wanted.take(k));
        lemma_part_is_no_more(wanted.drop_last(), k);
    } else {
        assert(wanted.take(k) =~= wanted);
    }
}

/// `n / d` to the nearest whole number.
fn nearest_exec(n: u128, d: u128) -> (quotient: u128)
    requires
        d > 0,
        d <= 0x1_0000_0000,
        n <= 0x10_0000_0000_0000_0000_0000,
    ensures
        quotient == nearest(n as nat, d as nat),
        quotient <= n / d + 1,
{
    let whole: u128 = n / d;
    let rest: u128 = n % d;
    proof {
        assert(whole <= n) by (nonlinear_arith)
            requires
                whole == n / d,
                d > 0,
        ;
    }
    if 2 * rest > d || (2 * rest == d && whole % 2 == 1) {
        whole + 1
    } else {
        whole
    }
}

/// What halving costs: the spacing of `n` is that of `n / 2` twice over, and a
/// 64-bit number is never further than that from its doubles.
proof fn lemma_spacing(n: nat)
    requires
        n <= u64::MAX,
    ensures
        1 <= spacing(n) <= 2048,
{
    reveal_with_fuel(spacing, 13);
    assert(n < 0x1_0000_0000_0000_0000);
}

/// The distance between the doubles around `n`.
fn spacing_exec(n: u64) -> (gap: u64)
    ensures
        gap == spacing(n as nat),
        1 <= gap <= 2048,
    decreases n,
{
    proof {
        lemma_spacing(n as nat);
    }
    if n < EXACT_DOUBLES {
        1
    } else {
        let half = spacing_exec(n / 2);
        proof {
            lemma_spacing((n / 2) as nat);
        }
        2 * half
    }
}

/// Append `bytes` in MiB, with one digit behind the point.
fn append_mib(out: &mut String, bytes: u64)
    ensures
        final(out)@ == old(out)@ + mib_text(bytes as nat),
{
    let gap: u64 = spacing_exec(bytes);
    let units: u128 = nearest_exec(bytes as u128, gap as u128);
    proof {
        assert(bytes / gap <= bytes) by (nonlinear_arith)
            requires
                gap >= 1,
        ;
        assert(units * gap <= 0x1_0000_0000_0000_0000 * 2048) by (nonlinear_arith)
            requires
                0 <= units <= 0x1_0000_0000_0000_0000,
                0 <= gap <= 2048,
        ;
    }
    let double: u128 = units * (gap as u128);
    assert(double == nearest_double(bytes as nat));
    let tenths: u128 = nearest_exec(10 * double, MIB as u128);
    assert(tenths == mib_tenths(bytes as nat));
    append_decimal(out, (tenths / 10) as u64);
    append_text(out, ".");
    append_decimal(out, (tenths % 10) as u64);
    assert(out@ =~= old(out)@ + mib_text(bytes as nat));
}

/// Record that a sampled bind wanted a window, before any cache is consulted.
pub fn note_wanted(
    window: &mut Window,
    key: SampledKey,
    identity: Option<SampledContentIdentity>,
    bytes: usize,
)
    requires
        old(window).wf(),
        old(window).no_identity < u64::MAX,
        old(window).dropped < u64::MAX,
    ensures
        final(window).wf(),
        asked_for(*old(window), *final(window), key, identity, bytes),
{
    window.want(key, identity, bytes);
}

/// What a census of `window` tells.
pub open spec fn census_of(window: Window) -> Option<Seq<char>> {
    if window.wanted@.len() == 0 && window.no_identity == 0 {
        None
    } else {
        Some(census_text(window.wanted@, window.no_identity, window.dropped))
    }
}

/// Drain the window's set into a census line.
pub fn census(window: &mut Window) -> (line: Option<String>)
    requires
        old(window).wf(),
        total_bytes(old(window).wanted@) <= usize::MAX,
    ensures
        final(window).wf(),
        match line {
            Some(line) => census_of(*old(window)) == Some(line@) && final(window).is_clear(),
            None => census_of(*old(window)) is None && *final(window) == *old(window),
        },
{
    window.take()
}

/// Asking for one window again wants nothing more: only the last length given
/// for it counts.
pub proof fn law_asking_again_wants_one_window(wanted: Seq<Wanted>, first: Wanted, again: Wanted)
    requires
        same_window(first, again),
    ensures
        wanting(wanting(wanted, first), again) == wanting(wanted, again),
        wanting(wanting(wanted, first), again).len() == wanting(wanted, first).len(),
{
    let once = wanting(wanted, first);
    if is_wanted(wanted, first) {
        let i = choose|i: int| 0 <= i < wanted.len() && same_window(#[trigger] wanted[i], first);
        assert(same_window(once[i], again));
        assert(same_window(wanted[i], again));
    } else {
        assert(same_window(once[wanted.len() as int], again));
        assert(!is_wanted(wanted, again)) by {
            if is_wanted(wanted, again) {
                let i = choose|i: int|
                    0 <= i < wanted.len() && same_window(#[trigger] wanted[i], again);
                assert(same_window(wanted[i], first));
            }
        }
    }
    assert(is_wanted(once, again));
    assert(wanting(once, again) =~= wanting(wanted, again));
}

/// Two contents of one resource are two windows.
pub proof fn law_a_new_generation_is_a_second_window(
    wanted: Seq<Wanted>,
    asked: Wanted,
    generation: u64,
    bytes: usize,
)
    requires
        generation != asked.identity.generation,
        !is_wanted(
            wanted,
            (Wanted {
                identity: SampledContentIdentity { key: asked.identity.key, generation },
                bytes,
                ..asked
            }),
        ),
    ensures
        wanting(
            wanting(wanted, asked),
            (Wanted {
                identity: SampledContentIdentity { key: asked.identity.key, generation },
                bytes,
                ..asked
            }),
        ).len() == wanting(wanted, asked).len() + 1,
{
    let next = Wanted {
        identity: SampledContentIdentity { key: asked.identity.key, generation },
        bytes,
        ..asked
    };
    let once = wanting(wanted, asked);
    if is_wanted(once, next) {
        let i = choose|i: int| 0 <= i < once.len() && same_window(#[trigger] once[i], next);
        assert(i < wanted.len());
        assert(same_window(wanted[i], next));
    }
}

/// A number of bytes below two to the fifty-third is shown to the nearest
/// tenth of a MiB.
pub proof fn law_mib_is_the_nearest_tenth(bytes: nat)
    requires
        bytes < EXACT_DOUBLES,
    ensures
        -(MIB as int) <= 2 * (mib_tenths(bytes) * MIB - 10 * bytes) <= MIB,
{
    assert(spacing(bytes) == 1);
    assert(nearest_double(bytes) == bytes);
    let n = 10 * bytes;
    assert(n == MIB * (n / (MIB as nat)) + n % (MIB as nat)) by (nonlinear_arith);
}

/// One bind that wanted a window.
#[derive(Clone, Copy, Debug, PartialEq, Eq, Structural)]
pub struct Bind {
    /// The image.
    pub key: SampledKey,
    /// Its content, where the bind names one.
    pub identity: Option<SampledContentIdentity>,
    /// The length of the content.
    pub bytes: usize,
}

/// What a run of binds comes to.
pub struct Tally {
    /// The distinct windows, in the order in which they were first asked for.
    pub wanted: Seq<Wanted>,
    /// The binds that named no identity.
    pub no_identity: nat,
    /// How often a new window found the set full.
    pub dropped: nat,
}

/// What `binds` come to, one after the other, from nothing.
pub open spec fn tally(binds: Seq<Bind>) -> Tally
    decreases binds.len(),
{
    if binds.len() == 0 {
        Tally { wanted: Seq::empty(), no_identity: 0, dropped: 0 }
    } else {
        let before = tally(binds.drop_last());
        let bind = binds.last();
        match bind.identity {
            None => Tally { no_identity: before.no_identity + 1, ..before },
            Some(identity) => {
                let asked = Wanted { key: bind.key, identity, bytes: bind.bytes };
                if !is_wanted(before.wanted, asked) && before.wanted.len() >= CAPACITY {
                    Tally { dropped: before.dropped + 1, ..before }
                } else {
                    Tally { wanted: wanting(before.wanted, asked), ..before }
                }
            },
        }
    }
}

/// `run` is a window from one census on, and what it is after each of `binds` was
/// noted.
pub open spec fn notes(run: Seq<Window>, binds: Seq<Bind>) -> bool {
    &&& run.len() == binds.len() + 1
    &&& run[0].is_clear()
    &&& forall|i: int|
        0 <= i < binds.len() ==> asked_for(
            #[trigger] run[i],
            run[i + 1],
            binds[i].key,
            binds[i].identity,
            binds[i].bytes,
        )
}

/// A window holds exactly what was noted since it was clear.
proof fn lemma_a_window_holds_its_tally(run: Seq<Window>, binds: Seq<Bind>)
    requires
        notes(run, binds),
    ensures
        run.last().wanted@ == tally(binds).wanted,
        run.last().no_identity == tally(binds).no_identity,
        run.last().dropped == tally(binds).dropped,
        binds.len() > 0 ==> tally(binds).wanted.len() > 0 || tally(binds).no_identity > 0,
    decreases binds.len(),
{
    if binds.len() == 0 {
        assert(run.last().wanted@ =~= tally(binds).wanted);
    } else {
        let earlier = run.drop_last();
        let fewer = binds.drop_last();
        assert(notes(earlier, fewer)) by {
            assert forall|i: int| 0 <= i < fewer.len() implies asked_for(
                #[trigger] earlier[i],
                earlier[i + 1],
                fewer[i].key,
                fewer[i].identity,
                fewer[i].bytes,
            ) by {
                assert(earlier[i] == run[i]);
                assert(earlier[i + 1] == run[i + 1]);
            }
        }
        lemma_a_window_holds_its_tally(earlier, fewer);
        let at = binds.len() - 1;
        let bind = binds[at];
        assert(earlier.last() == run[at]);
        assert(run.last() == run[at + 1]);
        assert(asked_for(run[at], run[at + 1], bind.key, bind.identity, bind.bytes));
        if let Some(identity) = bind.identity {
            let asked = Wanted { key: bind.key, identity, bytes: bind.bytes };
            assert(is_wanted(run[at].wanted@, asked) ==> run[at].wanted@.len() > 0);
        }
    }
}

/// A census tells exactly what was noted since the last one, and nothing where
/// nothing was noted. Its window is drained: one more census tells nothing.
pub proof fn law_a_census_tells_what_was_noted_since_the_last(
    run: Seq<Window>,
    binds: Seq<Bind>,
    after: Window,
)
    requires
        notes(run, binds),
        census_of(run.last()) is Some ==> after.is_clear(),
        census_of(run.last()) is None ==> after == run.last(),
    ensures
        binds.len() == 0 ==> census_of(run.last()) is None,
        binds.len() > 0 ==> census_of(run.last()) == Some(
            census_text(
                tally(binds).wanted,
                tally(binds).no_identity as u64,
                tally(binds).dropped as u64,
            ),
        ),
        census_of(after) is None,
        after.is_clear(),
{
    lemma_a_window_holds_its_tally(run, binds);
}

/// Two entries are one window exactly where they have one shape and one content, whatever
/// they weigh.
pub proof fn law_a_window_is_a_shape_and_a_content(a: Wanted, b: Wanted)
    ensures
        same_window(a, b) <==> a.key == b.key && a.identity.key == b.identity.key
            && a.identity.generation == b.identity.generation,
{
}

/// A window that is asked for is in the set afterwards with the bytes it was asked with, and
/// every other window stays with its own.
pub proof fn law_a_window_asked_for_is_in_the_set(
    wanted: Seq<Wanted>,
    asked: Wanted,
    k: int,
)
    ensures
        exists|i: int|
            0 <= i < wanting(wanted, asked).len() && #[trigger] wanting(wanted, asked)[i] == asked,
        0 <= k < wanted.len() && !(wanted[k].key == asked.key && wanted[k].identity
            == asked.identity) ==> wanting(wanted, asked)[k] == wanted[k],
        wanting(wanted, asked).len() == wanted.len() + if is_wanted(wanted, asked) {
            0int
        } else {
            1
        },
        is_wanted(wanted, asked) <==> exists|i: int|
            0 <= i < wanted.len() && (#[trigger] wanted[i]).key == asked.key && wanted[i].identity
                == asked.identity,
{
    let after = wanting(wanted, asked);
    if is_wanted(wanted, asked) {
        let i = choose|i: int| 0 <= i < wanted.len() && same_window(#[trigger] wanted[i], asked);
        assert(after[i] == asked);
        assert(wanted[i].key == asked.key && wanted[i].identity == asked.identity);
    } else {
        assert(after[wanted.len() as int] == asked);
        assert forall|i: int| 0 <= i < wanted.len() implies !((#[trigger] wanted[i]).key
            == asked.key && wanted[i].identity == asked.identity) by {
            assert(!same_window(wanted[i], asked));
        }
    }
}

/// What windows would occupy together is the sum of their bytes.
pub proof fn law_windows_add_their_bytes(wanted: Seq<Wanted>, one: Wanted)
    ensures
        total_bytes(Seq::<Wanted>::empty()) == 0,
        total_bytes(wanted.push(one)) == total_bytes(wanted) + one.bytes,
{
    assert(wanted.push(one).drop_last() =~= wanted);
}

/// Every bind is noted once: as a bind without identity, in the set, or as dropped where the
/// set is full and does not have it.
pub proof fn law_every_bind_is_noted_once(
    before: Window,
    after: Window,
    key: SampledKey,
    identity: Option<SampledContentIdentity>,
    bytes: usize,
)
    requires
        before.wf(),
        asked_for(before, after, key, identity, bytes),
    ensures
        after.no_identity == before.no_identity + if identity is None {
            1int
        } else {
            0
        },
        identity is None ==> after.wanted@ == before.wanted@ && after.dropped == before.dropped,
        identity matches Some(content) ==> {
            let known = exists|i: int|
                0 <= i < before.wanted@.len() && (#[trigger] before.wanted@[i]).key == key
                    && before.wanted@[i].identity == content;
            &&& after.dropped == before.dropped + if !known && before.wanted@.len() >= CAPACITY {
                1int
            } else {
                0
            }
            &&& !known && before.wanted@.len() >= CAPACITY ==> after.wanted@ == before.wanted@
            &&& known || before.wanted@.len() < CAPACITY ==> exists|i: int|
                0 <= i < after.wanted@.len() && #[trigger] after.wanted@[i] == (Wanted {
                    key,
                    identity: content,
                    bytes,
                })
            &&& known ==> after.wanted@.len() == before.wanted@.len()
            &&& !known && before.wanted@.len() < CAPACITY ==> after.wanted@.len()
                == before.wanted@.len() + 1
        },
{
    if let Some(content) = identity {
        law_a_window_asked_for_is_in_the_set(
            before.wanted@,
            Wanted { key, identity: content, bytes },
            0,
        );
    }
}

/// A quotient to the nearest whole number is off by half at most, and halves go to the even
/// number.
pub proof fn law_the_nearest_is_off_by_half_at_most(n: nat, d: nat)
    requires
        d > 0,
    ensures
        -(d as int) <= 2 * (nearest(n, d) * d - n) <= d,
        2 * (nearest(n, d) * d - n) == d || 2 * (nearest(n, d) * d - n) == -(d as int) ==> nearest(
            n,
            d,
        ) % 2 == 0,
{
    let whole = n / d;
    let rest = n % d;
    vstd::arithmetic::div_mod::lemma_fundamental_div_mod(n as int, d as int);
    assert(d * whole == whole * d) by (nonlinear_arith);
    assert((whole + 1) * d == whole * d + d) by (nonlinear_arith);
    vstd::arithmetic::div_mod::lemma_mod_bound(n as int, d as int);
    assert(n == whole * d + rest);
    let near = nearest(n, d);
    if near == whole + 1 {
        assert(near * d == whole * d + d);
    } else {
        assert(near == whole);
        assert(near * d == whole * d);
    }
}

/// A census has something to tell where a window was wanted or a bind had no identity.
pub proof fn law_a_census_is_silent_when_nothing_was_asked(window: Window)
    ensures
        census_of(window) is None <==> window.wanted@.len() == 0 && window.no_identity == 0,
        window.is_clear() ==> census_of(window) is None,
        window.is_clear() <==> window.wanted@.len() == 0 && window.no_identity == 0
            && window.dropped == 0,
{
}

/// The text of a size is its whole mebibytes, a point and one digit of tenths.
pub proof fn law_a_size_is_told_to_a_tenth(bytes: nat)
    ensures
        ({
            let text = mib_text(bytes);
            let n = text.len() as int;
            &&& n >= 3
            &&& text[n - 2] == '.'
            &&& crate::text::digits_value(text.take(n - 2), 10) * 10 + crate::text::digits_value(text.skip(n - 1), 10)
                == mib_tenths(bytes)
        }),
{
    let tenths = mib_tenths(bytes);
    let whole = decimal(tenths / 10);
    let part = decimal(tenths % 10);
    let text = mib_text(bytes);
    reveal_strlit(".");
    crate::text::law_decimal_reads_back(tenths / 10);
    crate::text::law_decimal_reads_back(tenths % 10);
    crate::text::law_numbers_are_written_without_leading_zeros(tenths / 10);
    assert(part.len() == 1);
    assert(text.len() == whole.len() + 2);
    assert(text.take(text.len() - 2) =~= whole);
    assert(text.skip(text.len() - 1) =~= part);
}

/// Between two numbers that doubles hold there is the gap of their size, and the nearest
/// double is off by half of it at most.
pub proof fn law_a_double_is_off_by_half_its_gap(n: nat)
    ensures
        n < EXACT_DOUBLES ==> nearest_double(n) == n,
        spacing(n) >= 1,
        -(spacing(n) as int) <= 2 * (nearest_double(n) - n) <= spacing(n),
        n >= EXACT_DOUBLES ==> spacing(n) * EXACT_DOUBLES <= 2 * n && 2 * n < 4 * spacing(n)
            * EXACT_DOUBLES,
    decreases n,
{
    if n >= EXACT_DOUBLES {
        law_a_double_is_off_by_half_its_gap(n / 2);
        assert(spacing(n) == 2 * spacing(n / 2));
    }
    law_the_nearest_is_off_by_half_at_most(n, spacing(n));
    if n < EXACT_DOUBLES {
        assert(spacing(n) == 1);
    }
}

/// A double holds every whole number below two to the power of its significant bits, and a
/// mebibyte is a kibibyte of kibibytes.
pub proof fn law_the_measures_are_powers_of_two()
    ensures
        EXACT_DOUBLES == vstd::arithmetic::power2::pow2(53),
        MIB == 1024 * 1024,
        CAPACITY == 8 * 1024,
{
    vstd::arithmetic::power2::lemma2_to64();
    vstd::arithmetic::power2::lemma2_to64_rest();
}

} // verus!
