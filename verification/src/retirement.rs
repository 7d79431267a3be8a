//! Ordered lifetime points for native objects shared by recording encoders.
//!
//! A native handle removed from a shared registry can still be named by work
//! that began before the removal. Recording therefore reserves a point before
//! it reads shared state. Submitted work retires that point after its fence;
//! abandoned recording cancels it. Since queue commit follows point order, a
//! handle captured at point N is safe when every point through N is terminal.

use std::collections::BTreeSet;
use vstd::prelude::*;

verus! {

broadcast use vstd::std_specs::btree::group_btree_axioms;

/// One position in the recording order. Points count up from one.
#[derive(Clone, Copy, Debug, PartialEq, Eq, Structural)]
pub struct RecordingPoint(pub u64);

/// The recording sequence has issued its last point.
#[derive(Clone, Copy, Debug, PartialEq, Eq, Structural)]
pub struct RecordingSequenceExhausted;

/// Which points have been issued, and which of them are terminal.
///
/// `retired_through` counts the terminal points that form an unbroken prefix;
/// `terminal` holds the terminal points past the first gap.
pub struct Order {
    latest: u64,
    retired_through: u64,
    terminal: BTreeSet<u64>,
}

impl Order {
    /// The last point issued, or zero.
    pub closed spec fn issued(self) -> u64 {
        self.latest
    }

    /// The end of the unbroken terminal prefix, or zero.
    pub closed spec fn prefix(self) -> u64 {
        self.retired_through
    }

    /// Whether `point` was issued and has been retired or cancelled.
    pub closed spec fn is_terminal(self, point: int) -> bool {
        ||| 1 <= point <= self.retired_through
        ||| 0 <= point <= u64::MAX && self.terminal@.contains(point as u64)
    }

    /// The prefix is maximal and every terminal point was issued.
    pub closed spec fn wf(self) -> bool {
        &&& self.retired_through <= self.latest
        &&& forall|held: u64| #[trigger]
            self.terminal@.contains(held) ==> self.retired_through + 1 < held <= self.latest
    }

    /// Whether `point` was issued and is not terminal yet.
    pub open spec fn is_live(self, point: int) -> bool {
        1 <= point <= self.issued() && !self.is_terminal(point)
    }

    /// An order that has issued nothing.
    pub fn new() -> (order: Order)
        ensures
            order.wf(),
            order.issued() == 0,
            order.prefix() == 0,
            forall|point: int| !order.is_terminal(point),
    {
        Order { latest: 0, retired_through: 0, terminal: BTreeSet::new() }
    }

    /// Issue the next point, or refuse once the counter is spent.
    pub fn reserve(&mut self) -> (result: Result<RecordingPoint, RecordingSequenceExhausted>)
        requires
            old(self).wf(),
        ensures
            final(self).wf(),
            final(self).prefix() == old(self).prefix(),
            forall|point: int| final(self).is_terminal(point) == old(self).is_terminal(point),
            match result {
                Ok(point) => old(self).issued() < u64::MAX && point.0 == old(self).issued() + 1
                    && final(self).issued() == point.0,
                Err(_) => old(self).issued() == u64::MAX && *final(self) == *old(self),
            },
    {
        match self.latest.checked_add(1) {
            Some(latest) => {
                self.latest = latest;
                Ok(RecordingPoint(latest))
            },
            None => Err(RecordingSequenceExhausted),
        }
    }

    /// Mark one live point terminal and advance the prefix as far as it goes.
    pub fn terminal(&mut self, point: RecordingPoint)
        requires
            old(self).wf(),
            old(self).is_live(point.0 as int),
        ensures
            final(self).wf(),
            final(self).issued() == old(self).issued(),
            final(self).prefix() >= old(self).prefix(),
            forall|p: int|
                final(self).is_terminal(p) == (old(self).is_terminal(p) || p == point.0),
    {
        let ghost before = *self;
        assert(!self.terminal@.contains(point.0));
        self.terminal.insert(point.0);
        assert(forall|p: int|
            self.is_terminal(p) == (before.is_terminal(p) || p == point.0));
        loop
            invariant
                self.latest == before.latest,
                before.retired_through <= self.retired_through <= self.latest,
                forall|held: u64| #[trigger]
                    self.terminal@.contains(held) ==> self.retired_through < held <= self.latest,
                forall|p: int| self.is_terminal(p) == (before.is_terminal(p) || p == point.0),
            ensures
                self.latest == before.latest,
                before.retired_through <= self.retired_through,
                self.wf(),
                forall|p: int| self.is_terminal(p) == (before.is_terminal(p) || p == point.0),
            decreases u64::MAX - self.retired_through,
        {
            let ghost step = *self;
            match self.retired_through.checked_add(1) {
                None => {
                    break;
                },
                Some(next) => {
                    if !self.terminal.remove(&next) {
                        break;
                    }
                    self.retired_through = next;
                    assert(forall|p: int| self.is_terminal(p) == step.is_terminal(p));
                },
            }
        }
    }

    /// The last point issued, if any was.
    pub fn latest(&self) -> (point: Option<RecordingPoint>)
        ensures
            match point {
                Some(point) => self.issued() != 0 && point.0 == self.issued(),
                None => self.issued() == 0,
            },
    {
        if self.latest != 0 {
            Some(RecordingPoint(self.latest))
        } else {
            None
        }
    }

    /// Whether every point through `point` is terminal.
    pub fn retired(&self, point: RecordingPoint) -> (retired: bool)
        requires
            self.wf(),
        ensures
            retired == (point.0 <= self.prefix()),
            retired == (forall|q: int| 1 <= q <= point.0 ==> #[trigger] self.is_terminal(q)),
    {
        proof {
            law_retired_means_whole_prefix(*self, point.0);
        }
        point.0 <= self.retired_through
    }
}

/// A handle captured at `point` is free exactly when every recording point
/// through it is terminal.
pub proof fn law_retired_means_whole_prefix(order: Order, point: u64)
    requires
        order.wf(),
    ensures
        point <= order.prefix() <==> (forall|q: int|
            1 <= q <= point ==> #[trigger] order.is_terminal(q)),
{
    if point > order.prefix() {
        let gap = order.retired_through + 1;
        assert(!order.is_terminal(gap));
        assert(1 <= gap <= point);
    }
}

/// What an order answers depends only on which points were issued and which
/// are terminal, never on the sequence in which they became terminal.
pub proof fn law_order_of_completion_is_irrelevant(a: Order, b: Order)
    requires
        a.wf(),
        b.wf(),
        a.issued() == b.issued(),
        forall|p: int| a.is_terminal(p) == b.is_terminal(p),
    ensures
        a.prefix() == b.prefix(),
        forall|p: int| a.is_live(p) == b.is_live(p),
{
    law_retired_means_whole_prefix(a, a.prefix());
    law_retired_means_whole_prefix(b, b.prefix());
    law_retired_means_whole_prefix(a, b.prefix());
    law_retired_means_whole_prefix(b, a.prefix());
}

/// A point reserved later never becomes part of an earlier capture: issuing it
/// leaves every earlier answer as it was.
pub proof fn law_later_recording_does_not_extend_a_capture(
    before: Order,
    after: Order,
    captured: u64,
)
    requires
        before.wf(),
        after.wf(),
        captured <= before.issued(),
        after.issued() == before.issued() + 1,
        forall|p: int| after.is_terminal(p) == before.is_terminal(p),
    ensures
        captured <= after.prefix() <==> captured <= before.prefix(),
{
    law_retired_means_whole_prefix(before, captured);
    law_retired_means_whole_prefix(after, captured);
}

/// Session-wide order shared by every encoder that records against one set of
/// native registries.
pub struct RetirementOrder {
    order: Order,
}

impl View for RetirementOrder {
    type V = Order;

    closed spec fn view(&self) -> Order {
        self.order
    }
}

impl RetirementOrder {
    /// An order that has issued nothing.
    pub fn new() -> (order: RetirementOrder)
        ensures
            order@.wf(),
            order@.issued() == 0,
            order@.prefix() == 0,
            forall|point: int| !order@.is_terminal(point),
    {
        RetirementOrder { order: Order::new() }
    }

    /// Issue the next point as a lease on one recording.
    pub fn reserve(&mut self) -> (result: Result<RecordingLease, RecordingSequenceExhausted>)
        requires
            old(self)@.wf(),
        ensures
            final(self)@.wf(),
            final(self)@.prefix() == old(self)@.prefix(),
            forall|point: int| final(self)@.is_terminal(point) == old(self)@.is_terminal(point),
            match result {
                Ok(lease) => old(self)@.issued() < u64::MAX && lease@ == old(self)@.issued() + 1
                    && final(self)@.issued() == lease@ && final(self)@.is_live(lease@ as int),
                Err(_) => old(self)@.issued() == u64::MAX && *final(self) == *old(self),
            },
    {
        let ghost before = self.order;
        match self.order.reserve() {
            Ok(point) => {
                proof {
                    lemma_unissued_is_not_terminal(before, point.0 as int);
                }
                Ok(RecordingLease { point })
            },
            Err(refusal) => Err(refusal),
        }
    }

    /// The last point issued, if any was.
    pub fn latest(&self) -> (point: Option<RecordingPoint>)
        ensures
            match point {
                Some(point) => self@.issued() != 0 && point.0 == self@.issued(),
                None => self@.issued() == 0,
            },
    {
        self.order.latest()
    }

    /// Whether every point through `point` is terminal.
    pub fn retired(&self, point: RecordingPoint) -> (retired: bool)
        requires
            self@.wf(),
        ensures
            retired == (point.0 <= self@.prefix()),
            retired == (forall|q: int| 1 <= q <= point.0 ==> #[trigger] self@.is_terminal(q)),
    {
        self.order.retired(point)
    }

    fn terminal(&mut self, point: RecordingPoint)
        requires
            old(self)@.wf(),
            old(self)@.is_live(point.0 as int),
        ensures
            final(self)@.wf(),
            final(self)@.issued() == old(self)@.issued(),
            final(self)@.prefix() >= old(self)@.prefix(),
            forall|p: int|
                final(self)@.is_terminal(p) == (old(self)@.is_terminal(p) || p == point.0),
    {
        self.order.terminal(point);
    }
}

/// The terminal prefix ends no later than the last point issued.
pub proof fn lemma_prefix_within(order: Order)
    requires
        order.wf(),
    ensures
        order.prefix() <= order.issued(),
{
}

/// No terminal point lies past the last one issued.
proof fn lemma_unissued_is_not_terminal(order: Order, point: int)
    requires
        order.wf(),
        point > order.issued(),
    ensures
        !order.is_terminal(point),
{
}

/// A command buffer that may already name shared objects but has not reached
/// the queue. It is given up either by [`RecordingLease::submitted`] or by
/// [`RecordingLease::cancel`], so an error return cannot strand a hole in the
/// retirement order.
#[derive(Debug)]
pub struct RecordingLease {
    point: RecordingPoint,
}

impl View for RecordingLease {
    type V = u64;

    closed spec fn view(&self) -> u64 {
        self.point.0
    }
}

impl RecordingLease {
    /// The queue accepted the command buffer: its fence now owns the point.
    pub fn submitted(self) -> (point: SubmittedPoint)
        ensures
            point@ == self@,
    {
        SubmittedPoint { point: self.point }
    }

    /// The recording was abandoned: its point is terminal at once.
    pub fn cancel(self, order: &mut RetirementOrder)
        requires
            old(order)@.wf(),
            old(order)@.is_live(self@ as int),
        ensures
            final(order)@.wf(),
            final(order)@.issued() == old(order)@.issued(),
            final(order)@.prefix() >= old(order)@.prefix(),
            forall|p: int|
                final(order)@.is_terminal(p) == (old(order)@.is_terminal(p) || p == self@),
    {
        order.terminal(self.point);
    }
}

/// A recording point owned by exactly one submitted command buffer. Letting go
/// of it does not claim GPU completion; its fence must explicitly retire it.
#[must_use]
#[derive(Debug)]
pub struct SubmittedPoint {
    point: RecordingPoint,
}

impl View for SubmittedPoint {
    type V = u64;

    closed spec fn view(&self) -> u64 {
        self.point.0
    }
}

impl SubmittedPoint {
    /// The fence signalled: the point is terminal.
    pub fn retire(self, order: &mut RetirementOrder)
        requires
            old(order)@.wf(),
            old(order)@.is_live(self@ as int),
        ensures
            final(order)@.wf(),
            final(order)@.issued() == old(order)@.issued(),
            final(order)@.prefix() >= old(order)@.prefix(),
            forall|p: int|
                final(order)@.is_terminal(p) == (old(order)@.is_terminal(p) || p == self@),
    {
        order.terminal(self.point);
    }

    /// The point itself.
    pub fn point(&self) -> (point: RecordingPoint)
        ensures
            point.0 == self@,
    {
        self.point
    }
}

} // verus!
