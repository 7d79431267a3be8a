//! Completion stamps: which queued stamp waits for which submission, and when
//! its word may be published.
//!
//! A stamp enters the queue either behind a submission that has already
//! happened or behind the next one. It leaves from the front, once the timeline
//! semaphore has reached its submission and its word has been stored.

use crate::text::{append_decimal, append_hexadecimal, append_text, decimal, hexadecimal, owned};
use crate::vk::{show_vk_result, vk_result_text, Semaphore, VkResult, TIMEOUT};
use vstd::prelude::*;

verus! {

/// How many stamps one FIFO of one session may have pending.
pub const FIFO_PENDING_STAMP_CAPACITY: usize = 32;

/// One guest session.
#[derive(Clone, Copy, Debug, PartialEq, Eq, Structural)]
pub struct SessionId(pub u64);

/// The submission a stamp waits for.
#[derive(Clone, Copy, Debug, PartialEq, Eq, Structural)]
pub enum CompletionPoint {
    /// The submission with this timeline value, which has not happened yet.
    NextSubmission(u64),
    /// The submission with this timeline value, which the driver accepted.
    Submitted(u64),
}

/// One pending stamp.
#[derive(Clone, Copy, Debug, PartialEq, Eq, Structural)]
pub struct Waiting {
    /// The session the stamp belongs to.
    pub session: SessionId,
    /// What it waits for.
    pub point: CompletionPoint,
    /// Its FIFO.
    pub index: u32,
    /// The guest word to publish it in.
    pub word: u64,
    /// The value to publish.
    pub stamp: u32,
    /// When it was queued, in microseconds of the host clock.
    pub queued_at_us: u64,
}

/// What one session publishes about its FIFOs.
#[derive(Clone, Copy, Debug, PartialEq, Eq, Structural)]
pub struct SessionState {
    /// The session.
    pub session: SessionId,
    /// One bit per FIFO that has a stamp pending.
    pub pending_fifo_mask: u32,
    /// One bit per FIFO that has a stamp waiting for a later submission.
    pub unsubmitted_fifo_mask: u32,
    /// Whether a hook that raises the session's interrupt is installed.
    pub announce_installed: bool,
}

/// Whether `mask` has the bit of FIFO `index`.
pub open spec fn mask_has(mask: u32, index: u32) -> bool {
    index < 32 && mask & (1u32 << index) != 0
}

proof fn lemma_mask_set(mask: u32, i: u32, j: u32)
    by (bit_vector)
    requires
        i < 32,
        j < 32,
    ensures
        ((mask | (1u32 << i)) & (1u32 << j) != 0) == (mask & (1u32 << j) != 0 || i == j),
{
}

proof fn lemma_mask_clear(mask: u32, i: u32, j: u32)
    by (bit_vector)
    requires
        i < 32,
        j < 32,
    ensures
        ((mask & !(1u32 << i)) & (1u32 << j) != 0) == (mask & (1u32 << j) != 0 && i != j),
{
}

proof fn lemma_mask_empty(j: u32)
    by (bit_vector)
    ensures
        0u32 & (1u32 << j) == 0,
{
}

/// Whether FIFO `index` has a stamp pending.
pub fn fifo_has_pending_stamp(state: &SessionState, index: u32) -> (pending: bool)
    ensures
        pending == mask_has(state.pending_fifo_mask, index),
{
    index < 32 && state.pending_fifo_mask & (1u32 << index) != 0
}

/// Whether FIFO `index` has a stamp waiting for a submission that has not
/// happened.
pub fn fifo_has_unsubmitted_stamp(state: &SessionState, index: u32) -> (unsubmitted: bool)
    ensures
        unsubmitted == mask_has(state.unsubmitted_fifo_mask, index),
{
    index < 32 && state.unsubmitted_fifo_mask & (1u32 << index) != 0
}

/// A session about which nothing has been published.
pub open spec fn fresh_session(session: SessionId) -> SessionState {
    SessionState {
        session,
        pending_fifo_mask: 0,
        unsubmitted_fifo_mask: 0,
        announce_installed: false,
    }
}

/// How many of `waiting` belong to FIFO `index` of `session`.
pub open spec fn fifo_count(waiting: Seq<Waiting>, session: SessionId, index: u32) -> nat
    decreases waiting.len(),
{
    if waiting.len() == 0 {
        0
    } else {
        fifo_count(waiting.drop_last(), session, index) + if waiting.last().session == session
            && waiting.last().index == index {
            1nat
        } else {
            0nat
        }
    }
}

/// No FIFO has more stamps among `waiting` than it may have.
pub open spec fn capacity_kept(waiting: Seq<Waiting>) -> bool {
    forall|session: SessionId, index: u32| #[trigger]
        fifo_count(waiting, session, index) <= FIFO_PENDING_STAMP_CAPACITY
}

/// Whether a stamp of FIFO `index` of `session` waits for a later submission.
pub open spec fn has_unsubmitted(waiting: Seq<Waiting>, session: SessionId, index: u32) -> bool {
    exists|k: int|
        0 <= k < waiting.len() && (#[trigger] waiting[k]).session == session && waiting[k].index
            == index && waiting[k].point is NextSubmission
}

/// Whether any of `waiting` belongs to `session`.
pub open spec fn occurs(waiting: Seq<Waiting>, session: SessionId) -> bool {
    exists|k: int| 0 <= k < waiting.len() && (#[trigger] waiting[k]).session == session
}

/// `waiting` once submission `timeline` has happened.
pub open spec fn bound(waiting: Waiting, timeline: u64) -> Waiting {
    if waiting.point == CompletionPoint::NextSubmission(timeline) {
        Waiting { point: CompletionPoint::Submitted(timeline), ..waiting }
    } else {
        waiting
    }
}

/// Every entry once submission `timeline` has happened.
pub open spec fn all_bound(waiting: Seq<Waiting>, timeline: u64) -> Seq<Waiting> {
    Seq::new(waiting.len(), |k: int| bound(waiting[k], timeline))
}

/// How many of `waiting` wait for submission `timeline`.
pub open spec fn owed_to(waiting: Seq<Waiting>, timeline: u64) -> nat
    decreases waiting.len(),
{
    if waiting.len() == 0 {
        0
    } else {
        owed_to(waiting.drop_last(), timeline) + if waiting.last().point
            == CompletionPoint::NextSubmission(timeline) {
            1nat
        } else {
            0nat
        }
    }
}

/// The pending mask of `state` says exactly which FIFOs have a stamp pending.
pub open spec fn pending_exact(waiting: Seq<Waiting>, state: SessionState) -> bool {
    forall|index: u32|
        index < 32 ==> (#[trigger] mask_has(state.pending_fifo_mask, index) <==> fifo_count(
            waiting,
            state.session,
            index,
        ) > 0)
}

/// The unsubmitted mask of `state` says exactly which FIFOs have a stamp
/// waiting for a later submission.
pub open spec fn unsubmitted_exact(waiting: Seq<Waiting>, state: SessionState) -> bool {
    forall|index: u32|
        index < 32 ==> (#[trigger] mask_has(state.unsubmitted_fifo_mask, index)
            <==> has_unsubmitted(waiting, state.session, index))
}

proof fn lemma_count_front(waiting: Seq<Waiting>, session: SessionId, index: u32)
    requires
        waiting.len() > 0,
    ensures
        fifo_count(waiting, session, index) == fifo_count(waiting.drop_first(), session, index)
            + if waiting[0].session == session && waiting[0].index == index {
            1nat
        } else {
            0nat
        },
    decreases waiting.len(),
{
    if waiting.len() > 1 {
        lemma_count_front(waiting.drop_last(), session, index);
        assert(waiting.drop_last().drop_first() =~= waiting.drop_first().drop_last());
        assert(waiting.drop_first().last() == waiting.last());
    } else {
        assert(waiting.drop_last() =~= Seq::<Waiting>::empty());
        assert(waiting.drop_first() =~= Seq::<Waiting>::empty());
    }
}

proof fn lemma_count_bounded(waiting: Seq<Waiting>, session: SessionId, index: u32)
    ensures
        fifo_count(waiting, session, index) <= waiting.len(),
    decreases waiting.len(),
{
    if waiting.len() > 0 {
        lemma_count_bounded(waiting.drop_last(), session, index);
    }
}

proof fn lemma_count_member(waiting: Seq<Waiting>, k: int)
    requires
        0 <= k < waiting.len(),
    ensures
        fifo_count(waiting, waiting[k].session, waiting[k].index) > 0,
    decreases waiting.len(),
{
    if k < waiting.len() - 1 {
        lemma_count_member(waiting.drop_last(), k);
    }
}

proof fn lemma_count_witness(waiting: Seq<Waiting>, session: SessionId, index: u32)
    requires
        fifo_count(waiting, session, index) > 0,
    ensures
        exists|k: int|
            0 <= k < waiting.len() && (#[trigger] waiting[k]).session == session
                && waiting[k].index == index,
    decreases waiting.len(),
{
    if waiting.last().session == session && waiting.last().index == index {
        assert(waiting[waiting.len() - 1].session == session);
    } else {
        lemma_count_witness(waiting.drop_last(), session, index);
        let k = choose|k: int|
            0 <= k < waiting.drop_last().len() && (#[trigger] waiting.drop_last()[k]).session
                == session && waiting.drop_last()[k].index == index;
        assert(waiting[k].session == session);
    }
}

/// Binding a submission changes what stamps wait for, never how many stamps a
/// FIFO has pending.
pub proof fn law_binding_keeps_occupancy(
    waiting: Seq<Waiting>,
    timeline: u64,
    session: SessionId,
    index: u32,
)
    ensures
        fifo_count(all_bound(waiting, timeline), session, index) == fifo_count(
            waiting,
            session,
            index,
        ),
    decreases waiting.len(),
{
    if waiting.len() > 0 {
        law_binding_keeps_occupancy(waiting.drop_last(), timeline, session, index);
        assert(all_bound(waiting, timeline).drop_last() =~= all_bound(
            waiting.drop_last(),
            timeline,
        ));
    }
}

/// The stamps of FIFO `index` of `session` among `waiting`, in their order.
pub open spec fn fifo_stamps(waiting: Seq<Waiting>, session: SessionId, index: u32) -> Seq<u32>
    decreases waiting.len(),
{
    if waiting.len() == 0 {
        Seq::empty()
    } else {
        let before = fifo_stamps(waiting.drop_last(), session, index);
        if waiting.last().session == session && waiting.last().index == index {
            before.push(waiting.last().stamp)
        } else {
            before
        }
    }
}

proof fn lemma_stamps_front(waiting: Seq<Waiting>, session: SessionId, index: u32)
    requires
        waiting.len() > 0,
    ensures
        fifo_stamps(waiting, session, index) == if waiting[0].session == session && waiting[0].index
            == index {
            seq![waiting[0].stamp]
        } else {
            seq![]
        } + fifo_stamps(waiting.drop_first(), session, index),
    decreases waiting.len(),
{
    if waiting.len() > 1 {
        lemma_stamps_front(waiting.drop_last(), session, index);
        assert(waiting.drop_last().drop_first() =~= waiting.drop_first().drop_last());
        assert(waiting.drop_first().last() == waiting.last());
    } else {
        assert(waiting.drop_last() =~= Seq::<Waiting>::empty());
        assert(waiting.drop_first() =~= Seq::<Waiting>::empty());
    }
    assert(fifo_stamps(waiting, session, index) =~= if waiting[0].session == session
        && waiting[0].index == index {
        seq![waiting[0].stamp]
    } else {
        seq![]
    } + fifo_stamps(waiting.drop_first(), session, index));
}

/// The stamps of one FIFO leave in the order in which they came: a new one goes
/// behind the others, the submissions to which they are bound leave their
/// order, and what is taken off the queue is the oldest of its FIFO.
pub proof fn law_stamps_leave_in_the_order_they_came(
    waiting: Seq<Waiting>,
    entry: Waiting,
    timeline: u64,
    session: SessionId,
    index: u32,
)
    ensures
        fifo_stamps(waiting.push(entry), session, index) == if entry.session == session
            && entry.index == index {
            fifo_stamps(waiting, session, index).push(entry.stamp)
        } else {
            fifo_stamps(waiting, session, index)
        },
        fifo_stamps(all_bound(waiting, timeline), session, index) == fifo_stamps(
            waiting,
            session,
            index,
        ),
        waiting.len() > 0 ==> fifo_stamps(waiting, session, index) == if waiting[0].session
            == session && waiting[0].index == index {
            seq![waiting[0].stamp]
        } else {
            seq![]
        } + fifo_stamps(waiting.drop_first(), session, index),
{
    assert(waiting.push(entry).drop_last() =~= waiting);
    lemma_stamps_bound(waiting, timeline, session, index);
    if waiting.len() > 0 {
        lemma_stamps_front(waiting, session, index);
    }
}

proof fn lemma_stamps_bound(waiting: Seq<Waiting>, timeline: u64, session: SessionId, index: u32)
    ensures
        fifo_stamps(all_bound(waiting, timeline), session, index) == fifo_stamps(
            waiting,
            session,
            index,
        ),
    decreases waiting.len(),
{
    if waiting.len() > 0 {
        lemma_stamps_bound(waiting.drop_last(), timeline, session, index);
        assert(all_bound(waiting, timeline).drop_last() =~= all_bound(
            waiting.drop_last(),
            timeline,
        ));
    }
}

/// A repeated notification for one submission binds nothing.
pub proof fn law_binding_is_idempotent(waiting: Seq<Waiting>, timeline: u64)
    ensures
        all_bound(all_bound(waiting, timeline), timeline) == all_bound(waiting, timeline),
        owed_to(all_bound(waiting, timeline), timeline) == 0,
    decreases waiting.len(),
{
    assert(all_bound(all_bound(waiting, timeline), timeline) =~= all_bound(waiting, timeline));
    if waiting.len() > 0 {
        law_binding_is_idempotent(waiting.drop_last(), timeline);
        assert(all_bound(waiting, timeline).drop_last() =~= all_bound(
            waiting.drop_last(),
            timeline,
        ));
    }
}

/// The order in which two submissions are reported does not matter, and
/// neither binds a stamp of the other.
pub proof fn law_bindings_commute(waiting: Seq<Waiting>, a: u64, b: u64)
    ensures
        all_bound(all_bound(waiting, a), b) == all_bound(all_bound(waiting, b), a),
        a != b ==> owed_to(all_bound(waiting, a), b) == owed_to(waiting, b),
    decreases waiting.len(),
{
    assert(all_bound(all_bound(waiting, a), b) =~= all_bound(all_bound(waiting, b), a));
    if waiting.len() > 0 {
        law_bindings_commute(waiting.drop_last(), a, b);
        assert(all_bound(waiting, a).drop_last() =~= all_bound(waiting.drop_last(), a));
    }
}

/// How many stamps one FIFO has pending.
#[derive(Clone, Copy, Debug, PartialEq, Eq, Structural)]
pub struct FifoLevel {
    /// The session.
    pub session: SessionId,
    /// The FIFO.
    pub index: u32,
    /// Its pending stamps; never zero in a queue.
    pub count: usize,
}

/// The pending stamps of every session, in the order they were queued.
pub struct PendingQueue {
    waiting: Vec<Waiting>,
    per_fifo: Vec<FifoLevel>,
    sessions: Vec<SessionState>,
}

/// What a pending queue holds.
#[verifier::ext_equal]
pub struct PendingView {
    /// The pending stamps, oldest first.
    pub waiting: Seq<Waiting>,
    /// The sessions that ever queued a stamp.
    pub sessions: Seq<SessionState>,
}

impl View for PendingQueue {
    type V = PendingView;

    closed spec fn view(&self) -> PendingView {
        PendingView { waiting: self.waiting@, sessions: self.sessions@ }
    }
}

/// Whether `sessions` lists `session`.
pub open spec fn listed(sessions: Seq<SessionState>, session: SessionId) -> bool {
    exists|k: int| 0 <= k < sessions.len() && (#[trigger] sessions[k]).session == session
}

/// No session is listed twice.
pub open spec fn listed_once(sessions: Seq<SessionState>) -> bool {
    forall|a: int, b: int|
        0 <= a < b < sessions.len() ==> (#[trigger] sessions[a]).session != (
        #[trigger] sessions[b]).session
}

/// `sessions` with `session` added at the end unless it is there already.
pub open spec fn with_session(sessions: Seq<SessionState>, session: SessionId) -> Seq<SessionState> {
    if listed(sessions, session) {
        sessions
    } else {
        sessions.push(fresh_session(session))
    }
}

impl PendingQueue {
    /// The levels count the stamps and every stamp's session is listed.
    pub closed spec fn wf(self) -> bool {
        &&& forall|a: int, b: int|
            0 <= a < b < self.per_fifo@.len() ==> {
                ||| (#[trigger] self.per_fifo@[a]).session != (#[trigger] self.per_fifo@[b]).session
                ||| self.per_fifo@[a].index != self.per_fifo@[b].index
            }
        &&& forall|k: int|
            0 <= k < self.per_fifo@.len() ==> (#[trigger] self.per_fifo@[k]).count > 0
                && self.per_fifo@[k].count == fifo_count(
                self.waiting@,
                self.per_fifo@[k].session,
                self.per_fifo@[k].index,
            )
        &&& forall|session: SessionId, index: u32|
            #[trigger] fifo_count(self.waiting@, session, index) > 0 ==> self.has_level(
                session,
                index,
            )
        &&& forall|a: int, b: int|
            0 <= a < b < self.sessions@.len() ==> (#[trigger] self.sessions@[a]).session != (
            #[trigger] self.sessions@[b]).session
        &&& forall|k: int|
            0 <= k < self.waiting@.len() ==> listed(
                self.sessions@,
                (#[trigger] self.waiting@[k]).session,
            )
    }

    closed spec fn has_level(self, session: SessionId, index: u32) -> bool {
        exists|k: int|
            0 <= k < self.per_fifo@.len() && (#[trigger] self.per_fifo@[k]).session == session
                && self.per_fifo@[k].index == index
    }

    /// A queue with nothing pending.
    pub fn new() -> (queue: PendingQueue)
        ensures
            queue.wf(),
            queue@.waiting == Seq::<Waiting>::empty(),
            queue@.sessions == Seq::<SessionState>::empty(),
    {
        PendingQueue { waiting: Vec::new(), per_fifo: Vec::new(), sessions: Vec::new() }
    }

    fn level(&self, session: SessionId, index: u32) -> (found: Option<usize>)
        ensures
            match found {
                Some(k) => k < self.per_fifo@.len() && self.per_fifo@[k as int].session == session
                    && self.per_fifo@[k as int].index == index,
                None => !self.has_level(session, index),
            },
    {
        let mut k: usize = 0;
        while k < self.per_fifo.len()
            invariant
                k <= self.per_fifo@.len(),
                forall|j: int|
                    0 <= j < k ==> (#[trigger] self.per_fifo@[j]).session != session
                        || self.per_fifo@[j].index != index,
            decreases self.per_fifo@.len() - k,
        {
            if self.per_fifo[k].session == session && self.per_fifo[k].index == index {
                return Some(k);
            }
            k += 1;
        }
        None
    }

    /// Where `session` is listed.
    pub fn session_position(&self, session: SessionId) -> (found: Option<usize>)
        ensures
            match found {
                Some(k) => k < self@.sessions.len() && self@.sessions[k as int].session == session,
                None => !listed(self@.sessions, session),
            },
    {
        let mut k: usize = 0;
        while k < self.sessions.len()
            invariant
                k <= self.sessions@.len(),
                forall|j: int| 0 <= j < k ==> (#[trigger] self.sessions@[j]).session != session,
            decreases self.sessions@.len() - k,
        {
            if self.sessions[k].session == session {
                return Some(k);
            }
            k += 1;
        }
        None
    }

    /// What `session` publishes, if it is listed.
    pub fn session_state(&self, session: SessionId) -> (state: Option<SessionState>)
        ensures
            match state {
                Some(state) => self@.sessions.contains(state) && state.session == session,
                None => !listed(self@.sessions, session),
            },
    {
        match self.session_position(session) {
            Some(k) => {
                assert(self.sessions@[k as int] == self@.sessions[k as int]);
                Some(self.sessions[k])
            },
            None => None,
        }
    }

    /// A well-formed queue lists each session once: the state that
    /// [`session_state`](Self::session_state) finds is the only one of its session.
    pub proof fn sessions_are_listed_once(&self)
        requires
            self.wf(),
        ensures
            listed_once(self@.sessions),
    {
    }

    /// The session of every pending stamp is listed.
    pub proof fn pending_sessions_are_listed(&self)
        requires
            self.wf(),
        ensures
            forall|k: int|
                0 <= k < self@.waiting.len() ==> listed(
                    self@.sessions,
                    (#[trigger] self@.waiting[k]).session,
                ),
    {
    }

    /// How many stamps each FIFO has pending. A FIFO with none is not listed.
    pub fn levels(&self) -> (levels: &Vec<FifoLevel>)
        requires
            self.wf(),
        ensures
            forall|k: int|
                0 <= k < levels@.len() ==> (#[trigger] levels@[k]).count > 0 && levels@[k].count
                    == fifo_count(self@.waiting, levels@[k].session, levels@[k].index),
            forall|a: int, b: int|
                0 <= a < b < levels@.len() ==> (#[trigger] levels@[a]).session != (
                #[trigger] levels@[b]).session || levels@[a].index != levels@[b].index,
            forall|session: SessionId, index: u32| #[trigger]
                fifo_count(self@.waiting, session, index) > 0 ==> exists|k: int|
                    0 <= k < levels@.len() && (#[trigger] levels@[k]).session == session
                        && levels@[k].index == index,
    {
        &self.per_fifo
    }

    /// The pending stamps, oldest first.
    pub fn entries(&self) -> (entries: &Vec<Waiting>)
        ensures
            entries@ == self@.waiting,
    {
        &self.waiting
    }

    /// Whether FIFO `index` of `session` can take no more stamps.
    pub fn is_full(&self, session: SessionId, index: u32) -> (full: bool)
        requires
            self.wf(),
        ensures
            full == (fifo_count(self@.waiting, session, index) == FIFO_PENDING_STAMP_CAPACITY),
    {
        match self.level(session, index) {
            Some(k) => self.per_fifo[k].count == FIFO_PENDING_STAMP_CAPACITY,
            None => false,
        }
    }

    /// Whether FIFO `index` of `session` has a stamp pending.
    pub fn has_pending(&self, session: SessionId, index: u32) -> (pending: bool)
        requires
            self.wf(),
        ensures
            pending == (fifo_count(self@.waiting, session, index) > 0),
    {
        match self.level(session, index) {
            Some(k) => {
                assert(self.per_fifo@[k as int].count > 0);
                true
            },
            None => false,
        }
    }

    /// Queue one stamp behind all others.
    pub fn push(&mut self, waiting: Waiting)
        requires
            old(self).wf(),
            old(self)@.waiting.len() < usize::MAX,
        ensures
            final(self).wf(),
            final(self)@.waiting == old(self)@.waiting.push(waiting),
            final(self)@.sessions == with_session(old(self)@.sessions, waiting.session),
    {
        let ghost before = *self;
        proof {
            lemma_count_bounded(before.waiting@, waiting.session, waiting.index);
        }
        match self.level(waiting.session, waiting.index) {
            Some(k) => {
                let level: FifoLevel = self.per_fifo[k];
                self.per_fifo[k] = FifoLevel { count: level.count + 1, ..level };
            },
            None => {
                self.per_fifo.push(
                    FifoLevel { session: waiting.session, index: waiting.index, count: 1 },
                );
            },
        }
        if self.session_position(waiting.session).is_none() {
            self.sessions.push(
                SessionState {
                    session: waiting.session,
                    pending_fifo_mask: 0,
                    unsubmitted_fifo_mask: 0,
                    announce_installed: false,
                },
            );
        }
        self.waiting.push(waiting);
        proof {
            assert(self.waiting@.drop_last() =~= before.waiting@);
            assert forall|session: SessionId, index: u32|
                #[trigger] fifo_count(self.waiting@, session, index) > 0 implies self.has_level(
                session,
                index,
            ) by {
                if session == waiting.session && index == waiting.index {
                    if before.has_level(session, index) {
                        let k = choose|k: int|
                            0 <= k < before.per_fifo@.len() && (
                            #[trigger] before.per_fifo@[k]).session == session
                                && before.per_fifo@[k].index == index;
                        assert(self.per_fifo@[k].session == session);
                    } else {
                        assert(self.per_fifo@.last().session == session);
                    }
                } else {
                    assert(fifo_count(before.waiting@, session, index) > 0);
                    let k = choose|k: int|
                        0 <= k < before.per_fifo@.len() && (
                        #[trigger] before.per_fifo@[k]).session == session
                            && before.per_fifo@[k].index == index;
                    assert(self.per_fifo@[k].session == session);
                }
            }
            assert forall|k: int| 0 <= k < self.waiting@.len() implies listed(
                self.sessions@,
                (#[trigger] self.waiting@[k]).session,
            ) by {
                if k < before.waiting@.len() {
                    assert(listed(before.sessions@, before.waiting@[k].session));
                    let j = choose|j: int|
                        0 <= j < before.sessions@.len() && (#[trigger] before.sessions@[j]).session
                            == before.waiting@[k].session;
                    assert(self.sessions@[j].session == before.waiting@[k].session);
                } else {
                    if listed(before.sessions@, waiting.session) {
                        let j = choose|j: int|
                            0 <= j < before.sessions@.len() && (
                            #[trigger] before.sessions@[j]).session == waiting.session;
                        assert(self.sessions@[j].session == waiting.session);
                    } else {
                        assert(self.sessions@.last().session == waiting.session);
                    }
                }
            }
            assert forall|k: int| 0 <= k < self.per_fifo@.len() implies (
            #[trigger] self.per_fifo@[k]).count > 0 && self.per_fifo@[k].count == fifo_count(
                self.waiting@,
                self.per_fifo@[k].session,
                self.per_fifo@[k].index,
            ) by {
                if k < before.per_fifo@.len() {
                    assert(before.per_fifo@[k].count > 0);
                }
            }
        }
    }

    /// Take the oldest stamp.
    pub fn pop_front(&mut self) -> (front: Option<Waiting>)
        requires
            old(self).wf(),
        ensures
            final(self).wf(),
            final(self)@.sessions == old(self)@.sessions,
            match front {
                Some(front) => old(self)@.waiting.len() > 0 && front == old(self)@.waiting[0]
                    && final(self)@.waiting == old(self)@.waiting.drop_first(),
                None => old(self)@.waiting.len() == 0 && final(self)@ == old(self)@,
            },
    {
        if self.waiting.len() == 0 {
            return None;
        }
        let ghost before = *self;
        let front: Waiting = self.waiting.remove(0);
        proof {
            assert(self.waiting@ =~= before.waiting@.drop_first());
            lemma_count_member(before.waiting@, 0);
            assert forall|session: SessionId, index: u32|
                #[trigger] fifo_count(before.waiting@, session, index) == fifo_count(
                    self.waiting@,
                    session,
                    index,
                ) + if front.session == session && front.index == index {
                    1nat
                } else {
                    0nat
                } by {
                lemma_count_front(before.waiting@, session, index);
            }
        }
        match self.level(front.session, front.index) {
            Some(k) => {
                let level: FifoLevel = self.per_fifo[k];
                assert(before.per_fifo@[k as int] == level);
                if level.count == 1 {
                    self.per_fifo.remove(k);
                } else {
                    self.per_fifo[k] = FifoLevel { count: level.count - 1, ..level };
                }
                proof {
                    assert forall|session: SessionId, index: u32|
                        #[trigger] fifo_count(
                            self.waiting@,
                            session,
                            index,
                        ) > 0 implies self.has_level(session, index) by {
                        assert(fifo_count(before.waiting@, session, index) > 0);
                        let j = choose|j: int|
                            0 <= j < before.per_fifo@.len() && (
                            #[trigger] before.per_fifo@[j]).session == session
                                && before.per_fifo@[j].index == index;
                        if level.count == 1 {
                            assert(j != k);
                            if j < k {
                                assert(self.per_fifo@[j] == before.per_fifo@[j]);
                            } else {
                                assert(self.per_fifo@[j - 1] == before.per_fifo@[j]);
                            }
                        } else {
                            assert(self.per_fifo@[j].session == session);
                        }
                    }
                    assert forall|j: int| 0 <= j < self.per_fifo@.len() implies (
                    #[trigger] self.per_fifo@[j]).count > 0 && self.per_fifo@[j].count
                        == fifo_count(
                        self.waiting@,
                        self.per_fifo@[j].session,
                        self.per_fifo@[j].index,
                    ) by {
                        let i = if level.count == 1 && j >= k {
                            j + 1
                        } else {
                            j
                        };
                        assert(before.per_fifo@[i].count > 0);
                        assert(fifo_count(
                            before.waiting@,
                            before.per_fifo@[i].session,
                            before.per_fifo@[i].index,
                        ) == before.per_fifo@[i].count);
                        if i != k {
                            assert(before.per_fifo@[i].session != before.per_fifo@[k as int].session
                                || before.per_fifo@[i].index != before.per_fifo@[k as int].index);
                        }
                    }
                }
            },
            None => {
                assert(fifo_count(before.waiting@, front.session, front.index) > 0);
                assert(before.has_level(front.session, front.index));
            },
        }
        proof {
            assert forall|k: int| 0 <= k < self.waiting@.len() implies listed(
                self.sessions@,
                (#[trigger] self.waiting@[k]).session,
            ) by {
                assert(self.waiting@[k] == before.waiting@[k + 1]);
            }
        }
        Some(front)
    }

    /// Every stamp that waits for submission `timeline` now waits behind it.
    /// Says how many did.
    pub fn bind_submission(&mut self, timeline: u64) -> (promoted: usize)
        requires
            old(self).wf(),
        ensures
            final(self).wf(),
            promoted == owed_to(old(self)@.waiting, timeline),
            final(self)@.waiting == all_bound(old(self)@.waiting, timeline),
            republished(final(self)@.waiting, old(self)@.sessions, final(self)@.sessions),
    {
        let ghost before = *self;
        let mut promoted: usize = 0;
        let mut k: usize = 0;
        while k < self.waiting.len()
            invariant
                k <= self.waiting@.len(),
                self.waiting@.len() == before.waiting@.len(),
                self.per_fifo == before.per_fifo,
                self.sessions == before.sessions,
                promoted <= k,
                promoted == owed_to(before.waiting@.take(k as int), timeline),
                forall|j: int|
                    0 <= j < k ==> #[trigger] self.waiting@[j] == bound(
                        before.waiting@[j],
                        timeline,
                    ),
                forall|j: int|
                    k <= j < self.waiting@.len() ==> #[trigger] self.waiting@[j]
                        == before.waiting@[j],
            decreases self.waiting@.len() - k,
        {
            assert(before.waiting@.take(k + 1).drop_last() =~= before.waiting@.take(k as int));
            let entry: Waiting = self.waiting[k];
            if entry.point == CompletionPoint::NextSubmission(timeline) {
                self.waiting[k] = Waiting { point: CompletionPoint::Submitted(timeline), ..entry };
                promoted += 1;
            }
            k += 1;
        }
        proof {
            assert(before.waiting@.take(k as int) =~= before.waiting@);
            assert(self.waiting@ =~= all_bound(before.waiting@, timeline));
            assert forall|session: SessionId, index: u32|
                #[trigger] fifo_count(self.waiting@, session, index) == fifo_count(
                    before.waiting@,
                    session,
                    index,
                ) by {
                law_binding_keeps_occupancy(before.waiting@, timeline, session, index);
            }
            assert forall|session: SessionId, index: u32|
                #[trigger] fifo_count(self.waiting@, session, index) > 0 implies self.has_level(
                session,
                index,
            ) by {
                assert(before.has_level(session, index));
            }
            assert forall|j: int| 0 <= j < self.waiting@.len() implies listed(
                self.sessions@,
                (#[trigger] self.waiting@[j]).session,
            ) by {
                assert(self.waiting@[j].session == before.waiting@[j].session);
            }
        }
        self.republish_unsubmitted();
        promoted
    }

    /// Recompute the unsubmitted mask of every session that has a stamp pending.
    pub fn republish_unsubmitted(&mut self)
        requires
            old(self).wf(),
        ensures
            final(self).wf(),
            final(self)@.waiting == old(self)@.waiting,
            republished(old(self)@.waiting, old(self)@.sessions, final(self)@.sessions),
    {
        let ghost before = *self;
        let mut k: usize = 0;
        while k < self.sessions.len()
            invariant
                k <= self.sessions@.len(),
                self.sessions@.len() == before.sessions@.len(),
                self.waiting == before.waiting,
                self.per_fifo == before.per_fifo,
                before.wf(),
                forall|j: int|
                    0 <= j < k ==> state_republished(
                        before.waiting@,
                        before.sessions@[j],
                        #[trigger] self.sessions@[j],
                    ),
                forall|j: int|
                    k <= j < self.sessions@.len() ==> #[trigger] self.sessions@[j]
                        == before.sessions@[j],
            decreases self.sessions@.len() - k,
        {
            let state: SessionState = self.sessions[k];
            assert(state == before.sessions@[k as int]);
            if let Some(mask) = self.unsubmitted_mask(state.session) {
                self.sessions[k] = SessionState { unsubmitted_fifo_mask: mask, ..state };
            }
            k += 1;
        }
        proof {
            assert forall|j: int| 0 <= j < self.sessions@.len() implies (
            #[trigger] self.sessions@[j]).session == before.sessions@[j].session by {
                assert(state_republished(before.waiting@, before.sessions@[j], self.sessions@[j]));
            }
            assert forall|j: int| 0 <= j < self.waiting@.len() implies listed(
                self.sessions@,
                (#[trigger] self.waiting@[j]).session,
            ) by {
                assert(listed(before.sessions@, before.waiting@[j].session));
                let i = choose|i: int|
                    0 <= i < before.sessions@.len() && (#[trigger] before.sessions@[i]).session
                        == before.waiting@[j].session;
                assert(self.sessions@[i].session == before.waiting@[j].session);
            }
            assert forall|session: SessionId, index: u32|
                #[trigger] fifo_count(self.waiting@, session, index) > 0 implies self.has_level(
                session,
                index,
            ) by {
                assert(before.has_level(session, index));
            }
        }
    }

    fn unsubmitted_mask(&self, session: SessionId) -> (mask: Option<u32>)
        ensures
            match mask {
                Some(mask) => occurs(self.waiting@, session) && forall|index: u32|
                    index < 32 ==> (#[trigger] mask_has(mask, index) <==> has_unsubmitted(
                        self.waiting@,
                        session,
                        index,
                    )),
                None => !occurs(self.waiting@, session),
            },
    {
        let mut mask: u32 = 0;
        let mut seen = false;
        let mut k: usize = 0;
        proof {
            assert forall|index: u32| index < 32 implies !#[trigger] mask_has(0, index) by {
                lemma_mask_empty(index);
            }
        }
        while k < self.waiting.len()
            invariant
                k <= self.waiting@.len(),
                seen == occurs(self.waiting@.take(k as int), session),
                forall|index: u32|
                    index < 32 ==> (#[trigger] mask_has(mask, index) <==> has_unsubmitted(
                        self.waiting@.take(k as int),
                        session,
                        index,
                    )),
            decreases self.waiting@.len() - k,
        {
            let ghost prior = self.waiting@.take(k as int);
            let ghost next = self.waiting@.take(k + 1);
            let entry: Waiting = self.waiting[k];
            assert(next =~= prior.push(entry));
            assert(next[k as int] == entry);
            assert forall|j: int| 0 <= j < prior.len() implies next[j] == #[trigger] prior[j] by {}
            proof {
                lemma_unsubmitted_push(prior, entry, session);
                lemma_occurs_push(prior, entry, session);
            }
            if entry.session == session {
                seen = true;
                let deferred = match entry.point {
                    CompletionPoint::NextSubmission(_) => true,
                    CompletionPoint::Submitted(_) => false,
                };
                if deferred && entry.index < 32 {
                    let ghost old_mask = mask;
                    mask = mask | (1u32 << entry.index);
                    assert forall|index: u32| index < 32 implies (#[trigger] mask_has(mask, index)
                        <==> (mask_has(old_mask, index) || index == entry.index)) by {
                        lemma_mask_set(old_mask, entry.index, index);
                    }
                }
            }
            k += 1;
        }
        assert(self.waiting@.take(k as int) =~= self.waiting@);
        if seen {
            Some(mask)
        } else {
            None
        }
    }
}

impl PendingQueue {
    /// Set the bit of FIFO `index` in the pending mask of `session`, and in its
    /// unsubmitted mask where `unsubmitted` says so.
    fn mark(&mut self, session: SessionId, index: u32, unsubmitted: bool)
        requires
            old(self).wf(),
            listed(old(self)@.sessions, session),
            index < 32,
        ensures
            final(self).wf(),
            final(self)@.waiting == old(self)@.waiting,
            final(self)@.sessions.len() == old(self)@.sessions.len(),
            forall|k: int|
                0 <= k < old(self)@.sessions.len() ==> #[trigger] final(self)@.sessions[k] == if old(
                    self,
                )@.sessions[k].session == session {
                    marked(old(self)@.sessions[k], index, unsubmitted)
                } else {
                    old(self)@.sessions[k]
                },
    {
        let ghost before = *self;
        if let Some(k) = self.session_position(session) {
            let state: SessionState = self.sessions[k];
            let pending: u32 = state.pending_fifo_mask | (1u32 << index);
            let deferred: u32 = if unsubmitted {
                state.unsubmitted_fifo_mask | (1u32 << index)
            } else {
                state.unsubmitted_fifo_mask
            };
            self.sessions[k] = SessionState {
                pending_fifo_mask: pending,
                unsubmitted_fifo_mask: deferred,
                ..state
            };
        }
        proof {
            lemma_wf_keeps(before, *self);
        }
    }

    /// Clear the bit of FIFO `index` in the pending mask of `session`.
    fn clear_pending(&mut self, session: SessionId, index: u32)
        requires
            old(self).wf(),
            index < 32,
        ensures
            final(self).wf(),
            final(self)@.waiting == old(self)@.waiting,
            final(self)@.sessions.len() == old(self)@.sessions.len(),
            forall|k: int|
                0 <= k < old(self)@.sessions.len() ==> #[trigger] final(self)@.sessions[k] == if old(
                    self,
                )@.sessions[k].session == session {
                    SessionState {
                        pending_fifo_mask: old(self)@.sessions[k].pending_fifo_mask & !(1u32
                            << index),
                        ..old(self)@.sessions[k]
                    }
                } else {
                    old(self)@.sessions[k]
                },
    {
        let ghost before = *self;
        if let Some(k) = self.session_position(session) {
            let state: SessionState = self.sessions[k];
            self.sessions[k] = SessionState {
                pending_fifo_mask: state.pending_fifo_mask & !(1u32 << index),
                ..state
            };
        }
        proof {
            lemma_wf_keeps(before, *self);
        }
    }

    /// Install the hook that raises the interrupt of `session`.
    pub fn install_announce(&mut self, session: SessionId)
        requires
            old(self).wf(),
        ensures
            final(self).wf(),
            final(self)@.waiting == old(self)@.waiting,
            final(self)@.sessions.len() == with_session(old(self)@.sessions, session).len(),
            forall|k: int|
                0 <= k < final(self)@.sessions.len() ==> #[trigger] final(self)@.sessions[k] == {
                    let state = with_session(old(self)@.sessions, session)[k];
                    SessionState {
                        announce_installed: state.announce_installed || state.session == session,
                        ..state
                    }
                },
    {
        let ghost before = *self;
        match self.session_position(session) {
            Some(k) => {
                let state: SessionState = self.sessions[k];
                self.sessions[k] = SessionState { announce_installed: true, ..state };
                proof {
                    assert(listed(before.sessions@, session)) by {
                        assert(before.sessions@[k as int].session == session);
                    }
                    lemma_wf_keeps(before, *self);
                }
            },
            None => {
                self.sessions.push(
                    SessionState {
                        session,
                        pending_fifo_mask: 0,
                        unsubmitted_fifo_mask: 0,
                        announce_installed: true,
                    },
                );
                proof {
                    lemma_wf_keeps(before, *self);
                }
            },
        }
    }

    /// Blank both masks of every session that has a stamp pending.
    fn blank_masks(&mut self)
        requires
            old(self).wf(),
        ensures
            final(self).wf(),
            final(self)@.waiting == old(self)@.waiting,
            final(self)@.sessions.len() == old(self)@.sessions.len(),
            forall|k: int|
                0 <= k < old(self)@.sessions.len() ==> #[trigger] final(self)@.sessions[k]
                    == blanked(old(self)@.waiting, old(self)@.sessions[k]),
    {
        let ghost before = *self;
        let mut k: usize = 0;
        while k < self.sessions.len()
            invariant
                k <= self.sessions@.len(),
                self.sessions@.len() == before.sessions@.len(),
                self.waiting == before.waiting,
                self.per_fifo == before.per_fifo,
                forall|j: int|
                    0 <= j < k ==> #[trigger] self.sessions@[j] == blanked(
                        before.waiting@,
                        before.sessions@[j],
                    ),
                forall|j: int|
                    k <= j < self.sessions@.len() ==> #[trigger] self.sessions@[j]
                        == before.sessions@[j],
            decreases self.sessions@.len() - k,
        {
            let state: SessionState = self.sessions[k];
            assert(state == before.sessions@[k as int]);
            if self.unsubmitted_mask(state.session).is_some() {
                self.sessions[k] = SessionState {
                    pending_fifo_mask: 0,
                    unsubmitted_fifo_mask: 0,
                    ..state
                };
            }
            k += 1;
        }
        proof {
            lemma_wf_keeps(before, *self);
        }
    }
}

/// A session's state with the bits of one more stamp.
pub open spec fn marked(state: SessionState, index: u32, unsubmitted: bool) -> SessionState {
    SessionState {
        pending_fifo_mask: state.pending_fifo_mask | (1u32 << index),
        unsubmitted_fifo_mask: if unsubmitted {
            state.unsubmitted_fifo_mask | (1u32 << index)
        } else {
            state.unsubmitted_fifo_mask
        },
        ..state
    }
}

/// A session's state once the stamp `front` was taken off the queue, where
/// `waiting` is what is left.
pub open spec fn unmarked(state: SessionState, front: Waiting, waiting: Seq<Waiting>) -> SessionState {
    if state.session == front.session && fifo_count(waiting, front.session, front.index) == 0 {
        SessionState {
            pending_fifo_mask: state.pending_fifo_mask & !(1u32 << front.index),
            ..state
        }
    } else {
        state
    }
}

/// A session's state once its pending stamps have been given up.
pub open spec fn blanked(waiting: Seq<Waiting>, state: SessionState) -> SessionState {
    if occurs(waiting, state.session) {
        SessionState { pending_fifo_mask: 0, unsubmitted_fifo_mask: 0, ..state }
    } else {
        state
    }
}

/// A queue stays well formed when only session states change, or a session is
/// added behind the others.
proof fn lemma_wf_keeps(before: PendingQueue, after: PendingQueue)
    requires
        before.wf(),
        after.waiting == before.waiting,
        after.per_fifo == before.per_fifo,
        after.sessions@.len() >= before.sessions@.len(),
        forall|k: int|
            0 <= k < before.sessions@.len() ==> (#[trigger] after.sessions@[k]).session
                == before.sessions@[k].session,
        after.sessions@.len() == before.sessions@.len() || (after.sessions@.len()
            == before.sessions@.len() + 1 && !listed(
            before.sessions@,
            after.sessions@.last().session,
        )),
    ensures
        after.wf(),
{
    assert forall|session: SessionId, index: u32|
        #[trigger] fifo_count(after.waiting@, session, index) > 0 implies after.has_level(
        session,
        index,
    ) by {
        assert(before.has_level(session, index));
    }
    assert forall|k: int| 0 <= k < after.waiting@.len() implies listed(
        after.sessions@,
        (#[trigger] after.waiting@[k]).session,
    ) by {
        assert(listed(before.sessions@, before.waiting@[k].session));
        let j = choose|j: int|
            0 <= j < before.sessions@.len() && (#[trigger] before.sessions@[j]).session
                == before.waiting@[k].session;
        assert(after.sessions@[j].session == before.waiting@[k].session);
    }
    assert forall|a: int, b: int| 0 <= a < b < after.sessions@.len() implies (
    #[trigger] after.sessions@[a]).session != (#[trigger] after.sessions@[b]).session by {
        assert(after.sessions@[a].session == before.sessions@[a].session);
        if b < before.sessions@.len() {
            assert(after.sessions@[b].session == before.sessions@[b].session);
        }
    }
}

/// What republishing leaves of one session's state.
pub open spec fn state_republished(
    waiting: Seq<Waiting>,
    before: SessionState,
    after: SessionState,
) -> bool {
    &&& after.session == before.session
    &&& after.pending_fifo_mask == before.pending_fifo_mask
    &&& after.announce_installed == before.announce_installed
    &&& occurs(waiting, before.session) ==> unsubmitted_exact(waiting, after)
    &&& !occurs(waiting, before.session) ==> after == before
}

/// What republishing leaves of every session's state.
pub open spec fn republished(
    waiting: Seq<Waiting>,
    before: Seq<SessionState>,
    after: Seq<SessionState>,
) -> bool {
    &&& after.len() == before.len()
    &&& forall|k: int|
        0 <= k < before.len() ==> state_republished(waiting, before[k], #[trigger] after[k])
}

proof fn lemma_unsubmitted_push(prior: Seq<Waiting>, entry: Waiting, session: SessionId)
    ensures
        forall|index: u32|
            #[trigger] has_unsubmitted(prior.push(entry), session, index) <==> (has_unsubmitted(
                prior,
                session,
                index,
            ) || (entry.session == session && entry.index == index
                && entry.point is NextSubmission)),
{
    assert forall|index: u32|
        #[trigger] has_unsubmitted(prior.push(entry), session, index) <==> (has_unsubmitted(
            prior,
            session,
            index,
        ) || (entry.session == session && entry.index == index && entry.point is NextSubmission)) by {
        let next = prior.push(entry);
        if has_unsubmitted(prior, session, index) {
            let k = choose|k: int|
                0 <= k < prior.len() && (#[trigger] prior[k]).session == session && prior[k].index
                    == index && prior[k].point is NextSubmission;
            assert(next[k] == prior[k]);
        }
        if entry.session == session && entry.index == index && entry.point is NextSubmission {
            assert(next[prior.len() as int] == entry);
        }
        if has_unsubmitted(next, session, index) {
            let k = choose|k: int|
                0 <= k < next.len() && (#[trigger] next[k]).session == session && next[k].index
                    == index && next[k].point is NextSubmission;
            if k < prior.len() {
                assert(prior[k] == next[k]);
            }
        }
    }
}

proof fn lemma_occurs_push(prior: Seq<Waiting>, entry: Waiting, session: SessionId)
    ensures
        occurs(prior.push(entry), session) <==> (occurs(prior, session) || entry.session
            == session),
{
    let next = prior.push(entry);
    if occurs(prior, session) {
        let k = choose|k: int| 0 <= k < prior.len() && (#[trigger] prior[k]).session == session;
        assert(next[k] == prior[k]);
    }
    if entry.session == session {
        assert(next[prior.len() as int] == entry);
    }
    if occurs(next, session) {
        let k = choose|k: int| 0 <= k < next.len() && (#[trigger] next[k]).session == session;
        if k < prior.len() {
            assert(prior[k] == next[k]);
        }
    }
}

/// What a wait on the timeline semaphore came to.
#[derive(Clone, Copy, Debug, PartialEq, Eq, Structural)]
pub enum CompletionWait {
    /// The submission executed.
    Completed,
    /// It has not executed yet.
    Retry,
    /// The wait failed.
    Failed(VkResult),
    /// The owner is being torn down; nothing may be concluded.
    Stopping,
}

/// Only a wait that succeeded outside teardown is a completion.
pub fn classify_wait(result: Result<(), VkResult>, stopping: bool) -> (wait: CompletionWait)
    ensures
        wait == if stopping {
            CompletionWait::Stopping
        } else {
            match result {
                Ok(_) => CompletionWait::Completed,
                Err(error) => if error.0 == TIMEOUT {
                    CompletionWait::Retry
                } else {
                    CompletionWait::Failed(error)
                },
            }
        },
{
    if stopping {
        return CompletionWait::Stopping;
    }
    match result {
        Ok(()) => CompletionWait::Completed,
        Err(error) => if error.0 == TIMEOUT {
            CompletionWait::Retry
        } else {
            CompletionWait::Failed(error)
        },
    }
}

/// The band of one publish latency.
pub open spec fn publish_band(us: u64) -> Seq<char> {
    if us < 100 {
        "stamp_publish_lt100us"@
    } else if us < 1_000 {
        "stamp_publish_lt1ms"@
    } else if us < 4_000 {
        "stamp_publish_lt4ms"@
    } else if us < 16_000 {
        "stamp_publish_lt16ms"@
    } else if us < 64_000 {
        "stamp_publish_lt64ms"@
    } else if us < 500_000 {
        "stamp_publish_lt500ms"@
    } else {
        "stamp_publish_ge500ms"@
    }
}

/// The census route that a publish after `us` microseconds is counted under.
pub fn note_publish_latency(us: u64) -> (route: &'static str)
    ensures
        route@ == publish_band(us),
{
    if us < 100 {
        "stamp_publish_lt100us"
    } else if us < 1_000 {
        "stamp_publish_lt1ms"
    } else if us < 4_000 {
        "stamp_publish_lt4ms"
    } else if us < 16_000 {
        "stamp_publish_lt16ms"
    } else if us < 64_000 {
        "stamp_publish_lt64ms"
    } else if us < 500_000 {
        "stamp_publish_lt500ms"
    } else {
        "stamp_publish_ge500ms"
    }
}

/// The line for a stamp whose FIFO does not exist.
pub open spec fn out_of_range_text(index: u32, max_channels: u32) -> Seq<char> {
    "stamp_fifo_out_of_range reason=stamp_fifo_out_of_range index="@ + decimal(index as nat)
        + " max_channels="@ + decimal(max_channels as nat)
}

/// The line for a stamp whose FIFO does not exist.
pub fn out_of_range_line(index: u32, max_channels: u32) -> (line: String)
    ensures
        line@ == out_of_range_text(index, max_channels),
{
    let mut line = owned("stamp_fifo_out_of_range reason=stamp_fifo_out_of_range index=");
    append_decimal(&mut line, index as u64);
    append_text(&mut line, " max_channels=");
    append_decimal(&mut line, max_channels as u64);
    line
}

/// The line for a completed stamp whose session has no hook.
pub open spec fn no_hook_text(index: u32) -> Seq<char> {
    "stamp_announce_no_hook reason=stamp_announce_no_hook index="@ + decimal(index as nat)
        + " (a stamp completed with no device bound to raise its interrupt; the guest waiting on it will sleep to its one-second deadline)"@
}

/// The line for a wait that outlasted the fence deadline.
pub open spec fn timeout_text(index: u32, timeline: u64) -> Seq<char> {
    "stamp_wait_timeout reason=stamp_wait_timeout index="@ + decimal(index as nat) + " value="@
        + decimal(timeline as nat)
        + " (the submission carrying this stamp's word has not executed within the fence deadline; its completion remains pending)"@
}

/// The line for a wait that failed with an error that is shown as `shown`.
pub open spec fn wait_failed_line_text(index: u32, timeline: u64, shown: Seq<char>) -> Seq<char> {
    "stamp_wait_failed reason=stamp_wait_failed index="@ + decimal(index as nat) + " value="@
        + decimal(timeline as nat) + " err="@ + shown + " (the completion remains unpublished)"@
}

/// The line for a wait that failed.
pub open spec fn wait_failed_text(index: u32, timeline: u64, error: VkResult) -> Seq<char> {
    wait_failed_line_text(index, timeline, vk_result_text(error.0))
}

/// The line for a wait that failed with an error that is shown as `shown`.
pub fn wait_failed_line(index: u32, timeline: u64, shown: &str) -> (line: String)
    ensures
        line@ == wait_failed_line_text(index, timeline, shown@),
{
    let mut line = owned("stamp_wait_failed reason=stamp_wait_failed index=");
    append_decimal(&mut line, index as u64);
    append_text(&mut line, " value=");
    append_decimal(&mut line, timeline);
    append_text(&mut line, " err=");
    append_text(&mut line, shown);
    append_text(&mut line, " (the completion remains unpublished)");
    line
}

/// The line for a completed stamp whose word could not be stored.
pub open spec fn store_failed_text(index: u32, stamp: u32) -> Seq<char> {
    "stamp_cpu_store_failed reason=stamp_cpu_store_failed index="@ + decimal(index as nat)
        + " value="@ + hexadecimal(stamp as nat)
        + " (the completed queue point could not publish its checked shared word; its interrupt was withheld)"@
}

/// How a completed stamp reaches its session.
pub enum Announcement {
    /// Raise the interrupt of this FIFO.
    Hook(u32),
    /// No hook is installed; report this line.
    Missing(String),
}

/// Announce FIFO `index` through the hook of its session, if one is installed.
pub fn announce(hook_installed: bool, index: u32) -> (announcement: Announcement)
    ensures
        match announcement {
            Announcement::Hook(raised) => hook_installed && raised == index,
            Announcement::Missing(line) => !hook_installed && line@ == no_hook_text(index),
        },
{
    if hook_installed {
        Announcement::Hook(index)
    } else {
        let mut line = owned("stamp_announce_no_hook reason=stamp_announce_no_hook index=");
        append_decimal(&mut line, index as u64);
        append_text(
            &mut line,
            " (a stamp completed with no device bound to raise its interrupt; the guest waiting on it will sleep to its one-second deadline)",
        );
        Announcement::Missing(line)
    }
}

/// What became of a request to queue a stamp.
#[derive(Clone, Copy, Debug, PartialEq, Eq, Structural)]
pub enum StampAdmission {
    /// The FIFO does not exist.
    OutOfRange,
    /// The FIFO is full: wait for a stamp to leave and ask again.
    Wait,
    /// The owner is being torn down.
    Stopping,
    /// The stamp is queued.
    Queued,
}

/// What the completion thread does next.
#[derive(Clone, Copy, Debug, PartialEq, Eq, Structural)]
pub enum RunStep {
    /// Leave: the owner is being torn down.
    Exit,
    /// Nothing at the front can complete yet: sleep until woken.
    Park,
    /// Wait for the timeline semaphore to reach the submission of the entry.
    Wait {
        /// The oldest stamp.
        entry: Waiting,
        /// Its submission.
        timeline: u64,
    },
}

/// What the completion thread does with the outcome of a wait.
pub enum WaitOutcome {
    /// Store the stamp's word.
    Publish,
    /// Wait again, after reporting the line if there is one.
    Retry(Option<String>),
    /// Report the line and leave; the device is lost.
    Fail(String),
    /// Leave.
    Exit,
}

/// What the completion thread does once the store was tried.
pub enum PublishOutcome {
    /// The stamp is retired; announce it.
    Announce(Announcement),
    /// The word was not stored: report the line and leave.
    Withheld(String),
}

/// The state of the completion owner.
pub struct StampCompletion {
    queue: PendingQueue,
    semaphore: Semaphore,
    max_channels: u32,
    stopping: bool,
    next_value: u64,
    latest_queued: u64,
}

/// What a completion owner holds.
#[verifier::ext_equal]
pub struct StampView {
    /// The queue.
    pub pending: PendingView,
    /// The timeline semaphore.
    pub semaphore: Semaphore,
    /// How many FIFOs a session has.
    pub max_channels: u32,
    /// Whether teardown has begun.
    pub stopping: bool,
    /// The last submission value reserved.
    pub next_value: u64,
    /// The highest submission value handed to the queue, or zero.
    pub latest_queued: u64,
}

impl View for StampCompletion {
    type V = StampView;

    closed spec fn view(&self) -> StampView {
        StampView {
            pending: self.queue@,
            semaphore: self.semaphore,
            max_channels: self.max_channels,
            stopping: self.stopping,
            next_value: self.next_value,
            latest_queued: self.latest_queued,
        }
    }
}

/// Every session's masks say exactly what the queue holds.
pub open spec fn masks_exact(pending: PendingView) -> bool {
    forall|k: int|
        0 <= k < pending.sessions.len() ==> pending_exact(
            pending.waiting,
            #[trigger] pending.sessions[k],
        ) && unsubmitted_exact(pending.waiting, pending.sessions[k])
}

/// The entry that a stamp queued now becomes.
pub open spec fn queued_entry(
    session: SessionId,
    point: CompletionPoint,
    index: u32,
    word: u64,
    stamp: u32,
    now_us: u64,
) -> Waiting {
    Waiting { session, point, index, word, stamp, queued_at_us: now_us }
}

impl StampCompletion {
    /// Every FIFO keeps to its capacity, and until teardown the masks of every
    /// session are exact.
    pub closed spec fn wf(self) -> bool {
        &&& self.queue.wf()
        &&& capacity_kept(self.queue@.waiting)
        &&& self.max_channels <= 32
        &&& forall|k: int|
            0 <= k < self.queue@.waiting.len() ==> (#[trigger] self.queue@.waiting[k]).index
                < self.max_channels
        &&& !self.stopping ==> masks_exact(self.queue@)
    }

    /// No FIFO ever has more stamps pending than its capacity, whatever the
    /// others have.
    pub proof fn capacity_is_kept(&self)
        requires
            self.wf(),
        ensures
            capacity_kept(self@.pending.waiting),
    {
    }

    /// A well-formed owner lists each session once.
    pub proof fn sessions_are_listed_once(&self)
        requires
            self.wf(),
        ensures
            listed_once(self@.pending.sessions),
    {
        self.queue.sessions_are_listed_once();
    }

    /// A mask has a bit for every FIFO, every pending stamp has a FIFO, and its
    /// session is listed.
    pub proof fn pending_stamps_have_their_place(&self)
        requires
            self.wf(),
        ensures
            self@.max_channels <= 32,
            forall|k: int|
                0 <= k < self@.pending.waiting.len() ==> {
                    &&& (#[trigger] self@.pending.waiting[k]).index < self@.max_channels
                    &&& listed(self@.pending.sessions, self@.pending.waiting[k].session)
                },
    {
        self.queue.pending_sessions_are_listed();
    }

    /// What a well-formed owner promises before teardown: the masks are exact.
    pub proof fn masks_are_exact(&self)
        requires
            self.wf(),
            !self@.stopping,
        ensures
            masks_exact(self@.pending),
    {
    }

    /// An owner with nothing pending.
    pub fn new(semaphore: Semaphore, max_channels: u32) -> (owner: StampCompletion)
        requires
            max_channels <= 32,
        ensures
            owner.wf(),
            owner@.pending.waiting == Seq::<Waiting>::empty(),
            owner@.pending.sessions == Seq::<SessionState>::empty(),
            owner@.semaphore == semaphore,
            owner@.max_channels == max_channels,
            !owner@.stopping,
            owner@.next_value == 0,
            owner@.latest_queued == 0,
    {
        StampCompletion {
            queue: PendingQueue::new(),
            semaphore,
            max_channels,
            stopping: false,
            next_value: 0,
            latest_queued: 0,
        }
    }

    /// The value the next reservation will give.
    pub fn next_submission(&self) -> (value: u64)
        requires
            self@.next_value < u64::MAX,
        ensures
            value == self@.next_value + 1,
    {
        self.next_value + 1
    }

    /// Whether a submission value is left to reserve.
    pub fn has_value_left(&self) -> (left: bool)
        ensures
            left == (self@.next_value < u64::MAX),
    {
        self.next_value < u64::MAX
    }

    /// Reserve the next submission value. The first is one, so none collides
    /// with the semaphore's initial value.
    pub fn reserve_submission(&mut self) -> (reserved: (Semaphore, u64))
        requires
            old(self).wf(),
            old(self)@.next_value < u64::MAX,
        ensures
            final(self).wf(),
            reserved.0 == old(self)@.semaphore,
            reserved.1 == old(self)@.next_value + 1,
            final(self)@ == (StampView { next_value: reserved.1, ..old(self)@ }),
    {
        self.next_value = self.next_value + 1;
        (self.semaphore, self.next_value)
    }

    /// The highest submission handed to the queue, if any was.
    pub fn latest_queued(&self) -> (latest: Option<(Semaphore, u64)>)
        ensures
            latest == if self@.latest_queued != 0 {
                Some((self@.semaphore, self@.latest_queued))
            } else {
                None
            },
    {
        if self.latest_queued != 0 {
            Some((self.semaphore, self.latest_queued))
        } else {
            None
        }
    }

    /// The queue accepted the handoff of submission `value`.
    pub fn queued(&mut self, value: u64)
        requires
            old(self).wf(),
        ensures
            final(self).wf(),
            final(self)@ == (StampView {
                latest_queued: if value > old(self)@.latest_queued {
                    value
                } else {
                    old(self)@.latest_queued
                },
                ..old(self)@
            }),
    {
        if value > self.latest_queued {
            self.latest_queued = value;
        }
    }

    /// The driver accepted submission `value`: its stamps now wait behind it.
    /// Says whether anyone must be woken.
    pub fn submitted(&mut self, value: u64) -> (wake: bool)
        requires
            old(self).wf(),
        ensures
            final(self).wf(),
            wake == (owed_to(old(self)@.pending.waiting, value) != 0),
            final(self)@.pending.waiting == all_bound(old(self)@.pending.waiting, value),
            republished(
                final(self)@.pending.waiting,
                old(self)@.pending.sessions,
                final(self)@.pending.sessions,
            ),
            final(self)@ == (StampView {
                pending: final(self)@.pending,
                latest_queued: if value > old(self)@.latest_queued {
                    value
                } else {
                    old(self)@.latest_queued
                },
                ..old(self)@
            }),
    {
        let ghost before = *self;
        self.queued(value);
        let promoted: usize = self.queue.bind_submission(value);
        proof {
            let waiting = self.queue@.waiting;
            let prior = before.queue@.waiting;
            assert forall|k: int| 0 <= k < waiting.len() implies (#[trigger] waiting[k]).index
                < self.max_channels && waiting[k].session == prior[k].session by {
                assert(waiting[k] == bound(prior[k], value));
                assert(prior[k].index < before.max_channels);
            }
            assert forall|session: SessionId, index: u32| #[trigger]
                fifo_count(waiting, session, index) <= FIFO_PENDING_STAMP_CAPACITY by {
                law_binding_keeps_occupancy(prior, value, session, index);
            }
            if !self.stopping {
                assert forall|k: int| 0 <= k < self.queue@.sessions.len() implies pending_exact(
                    waiting,
                    #[trigger] self.queue@.sessions[k],
                ) && unsubmitted_exact(waiting, self.queue@.sessions[k]) by {
                    let state = self.queue@.sessions[k];
                    let old_state = before.queue@.sessions[k];
                    assert(state_republished(waiting, old_state, state));
                    assert forall|index: u32| index < 32 implies (#[trigger] mask_has(
                        state.pending_fifo_mask,
                        index,
                    ) <==> fifo_count(waiting, state.session, index) > 0) by {
                        law_binding_keeps_occupancy(prior, value, state.session, index);
                        assert(mask_has(old_state.pending_fifo_mask, index) <==> fifo_count(
                            prior,
                            old_state.session,
                            index,
                        ) > 0);
                    }
                    if !occurs(waiting, state.session) {
                        assert forall|index: u32| index < 32 implies (#[trigger] mask_has(
                            state.unsubmitted_fifo_mask,
                            index,
                        ) <==> has_unsubmitted(waiting, state.session, index)) by {
                            if mask_has(old_state.unsubmitted_fifo_mask, index) {
                                assert(has_unsubmitted(prior, state.session, index));
                                let j = choose|j: int|
                                    0 <= j < prior.len() && (#[trigger] prior[j]).session
                                        == state.session && prior[j].index == index
                                        && prior[j].point is NextSubmission;
                                assert(waiting[j].session == state.session);
                            }
                        }
                    }
                }
            }
        }
        promoted != 0
    }

    fn enqueue(&mut self, entry: Waiting, unsubmitted: bool)
        requires
            old(self).wf(),
            !old(self)@.stopping,
            entry.index < old(self)@.max_channels,
            unsubmitted == (entry.point is NextSubmission),
            old(self)@.pending.waiting.len() < usize::MAX,
            fifo_count(old(self)@.pending.waiting, entry.session, entry.index)
                != FIFO_PENDING_STAMP_CAPACITY,
        ensures
            final(self).wf(),
            final(self)@.pending.waiting == old(self)@.pending.waiting.push(entry),
            sessions_marked(
                with_session(old(self)@.pending.sessions, entry.session),
                final(self)@.pending.sessions,
                entry,
                unsubmitted,
            ),
            final(self)@ == (StampView { pending: final(self)@.pending, ..old(self)@ }),
    {
        let ghost before = *self;
        self.queue.push(entry);
        let ghost middle = self.queue@;
        assert(listed(middle.sessions, entry.session)) by {
            if listed(before.queue@.sessions, entry.session) {
            } else {
                assert(middle.sessions.last().session == entry.session);
            }
        }
        self.queue.mark(entry.session, entry.index, unsubmitted);
        proof {
            let waiting = self.queue@.waiting;
            let prior = before.queue@.waiting;
            assert forall|k: int| 0 <= k < waiting.len() implies (#[trigger] waiting[k]).index
                < self.max_channels by {
                if k < prior.len() {
                    assert(prior[k].index < self.max_channels);
                }
            }
            assert(waiting.drop_last() =~= prior);
            assert forall|session: SessionId, index: u32| #[trigger]
                fifo_count(waiting, session, index) <= FIFO_PENDING_STAMP_CAPACITY by {
                assert(fifo_count(prior, session, index) <= FIFO_PENDING_STAMP_CAPACITY);
            }
            assert forall|k: int| 0 <= k < self.queue@.sessions.len() implies pending_exact(
                waiting,
                #[trigger] self.queue@.sessions[k],
            ) && unsubmitted_exact(waiting, self.queue@.sessions[k]) by {
                let state = self.queue@.sessions[k];
                let fresh = k >= before.queue@.sessions.len();
                let old_state = middle.sessions[k];
                lemma_unsubmitted_push(prior, entry, state.session);
                assert forall|index: u32|
                    #![trigger mask_has(state.pending_fifo_mask, index)]
                    #![trigger mask_has(state.unsubmitted_fifo_mask, index)]
                    index < 32 implies (mask_has(state.pending_fifo_mask, index) <==> fifo_count(waiting, state.session, index) > 0) && (mask_has(
                    state.unsubmitted_fifo_mask,
                    index,
                ) <==> has_unsubmitted(waiting, state.session, index)) by {
                    lemma_mask_set(old_state.pending_fifo_mask, entry.index, index);
                    lemma_mask_set(old_state.unsubmitted_fifo_mask, entry.index, index);
                    if fresh {
                        lemma_mask_empty(index);
                        lemma_unlisted_has_nothing(before.queue, state.session, index);
                    } else {
                        assert(before.queue@.sessions[k] == old_state);
                        assert(mask_has(old_state.pending_fifo_mask, index) <==> fifo_count(
                            prior,
                            old_state.session,
                            index,
                        ) > 0);
                        assert(mask_has(old_state.unsubmitted_fifo_mask, index)
                            <==> has_unsubmitted(prior, old_state.session, index));
                    }
                }
            }
        }
    }

    /// Queue a stamp behind submission `timeline`, which has been reserved.
    pub fn wait_for_stamp(
        &mut self,
        session: SessionId,
        timeline: u64,
        index: u32,
        word: u64,
        stamp: u32,
        now_us: u64,
    ) -> (admission: StampAdmission)
        requires
            old(self).wf(),
            old(self)@.pending.waiting.len() < usize::MAX,
        ensures
            final(self).wf(),
            admission == if index >= old(self)@.max_channels {
                StampAdmission::OutOfRange
            } else if old(self)@.stopping {
                StampAdmission::Stopping
            } else if fifo_count(old(self)@.pending.waiting, session, index)
                == FIFO_PENDING_STAMP_CAPACITY {
                StampAdmission::Wait
            } else {
                StampAdmission::Queued
            },
            admission != StampAdmission::Queued ==> final(self)@ == old(self)@,
            admission == StampAdmission::Queued ==> {
                let entry = queued_entry(
                    session,
                    CompletionPoint::Submitted(timeline),
                    index,
                    word,
                    stamp,
                    now_us,
                );
                &&& final(self)@.pending.waiting == old(self)@.pending.waiting.push(entry)
                &&& sessions_marked(
                    with_session(old(self)@.pending.sessions, session),
                    final(self)@.pending.sessions,
                    entry,
                    false,
                )
                &&& final(self)@ == (StampView { pending: final(self)@.pending, ..old(self)@ })
            },
    {
        if index >= self.max_channels {
            return StampAdmission::OutOfRange;
        }
        if self.stopping {
            return StampAdmission::Stopping;
        }
        if self.queue.is_full(session, index) {
            return StampAdmission::Wait;
        }
        let entry = Waiting {
            session,
            point: CompletionPoint::Submitted(timeline),
            index,
            word,
            stamp,
            queued_at_us: now_us,
        };
        self.enqueue(entry, false);
        StampAdmission::Queued
    }

    /// Queue a stamp behind the next submission. Refused for a FIFO that does
    /// not exist or is full, and during teardown.
    pub fn queue_for_next_submission(
        &mut self,
        session: SessionId,
        index: u32,
        word: u64,
        stamp: u32,
        now_us: u64,
    ) -> (queued: bool)
        requires
            old(self).wf(),
            old(self)@.next_value < u64::MAX,
            old(self)@.pending.waiting.len() < usize::MAX,
        ensures
            final(self).wf(),
            queued == (index < old(self)@.max_channels && !old(self)@.stopping && fifo_count(
                old(self)@.pending.waiting,
                session,
                index,
            ) != FIFO_PENDING_STAMP_CAPACITY),
            !queued ==> final(self)@ == old(self)@,
            queued ==> {
                let entry = queued_entry(
                    session,
                    CompletionPoint::NextSubmission((old(self)@.next_value + 1) as u64),
                    index,
                    word,
                    stamp,
                    now_us,
                );
                &&& final(self)@.pending.waiting == old(self)@.pending.waiting.push(entry)
                &&& sessions_marked(
                    with_session(old(self)@.pending.sessions, session),
                    final(self)@.pending.sessions,
                    entry,
                    true,
                )
                &&& final(self)@ == (StampView { pending: final(self)@.pending, ..old(self)@ })
            },
    {
        if index >= self.max_channels {
            return false;
        }
        if self.queue.is_full(session, index) || self.stopping {
            return false;
        }
        let target: u64 = self.next_submission();
        let entry = Waiting {
            session,
            point: CompletionPoint::NextSubmission(target),
            index,
            word,
            stamp,
            queued_at_us: now_us,
        };
        self.enqueue(entry, true);
        true
    }

    /// Whether a caller that wants FIFO `index` of `session` idle must go on
    /// waiting.
    pub fn wait_for_fifo_idle(&self, session: SessionId, index: u32) -> (wait: bool)
        requires
            self.wf(),
        ensures
            wait == (index < self@.max_channels && !self@.stopping && fifo_count(
                self@.pending.waiting,
                session,
                index,
            ) > 0),
    {
        index < self.max_channels && self.queue.has_pending(session, index) && !self.stopping
    }

    /// What is pending.
    pub fn pending(&self) -> (queue: &PendingQueue)
        ensures
            queue@ == self@.pending,
            self.wf() ==> queue.wf(),
    {
        &self.queue
    }

    /// What `session` publishes about its FIFOs, if it ever queued a stamp.
    pub fn session_state(&self, session: SessionId) -> (state: Option<SessionState>)
        ensures
            match state {
                Some(state) => self@.pending.sessions.contains(state) && state.session == session,
                None => !listed(self@.pending.sessions, session),
            },
    {
        self.queue.session_state(session)
    }

    /// Install the hook that raises the interrupt of `session`.
    pub fn install_announce(&mut self, session: SessionId)
        requires
            old(self).wf(),
        ensures
            final(self).wf(),
            final(self)@.pending.waiting == old(self)@.pending.waiting,
            final(self)@.pending.sessions.len() == with_session(
                old(self)@.pending.sessions,
                session,
            ).len(),
            forall|k: int|
                0 <= k < final(self)@.pending.sessions.len()
                    ==> #[trigger] final(self)@.pending.sessions[k] == {
                    let state = with_session(old(self)@.pending.sessions, session)[k];
                    SessionState {
                        announce_installed: state.announce_installed || state.session == session,
                        ..state
                    }
                },
            final(self)@ == (StampView { pending: final(self)@.pending, ..old(self)@ }),
    {
        let ghost before = *self;
        self.queue.install_announce(session);
        proof {
            let waiting = self.queue@.waiting;
            if !self.stopping {
                assert forall|k: int| 0 <= k < self.queue@.sessions.len() implies pending_exact(
                    waiting,
                    #[trigger] self.queue@.sessions[k],
                ) && unsubmitted_exact(waiting, self.queue@.sessions[k]) by {
                    let state = self.queue@.sessions[k];
                    if k < before.queue@.sessions.len() {
                        let old_state = before.queue@.sessions[k];
                        assert(pending_exact(waiting, old_state));
                        assert(unsubmitted_exact(waiting, old_state));
                        assert forall|index: u32|
                    #![trigger mask_has(state.pending_fifo_mask, index)]
                    #![trigger mask_has(state.unsubmitted_fifo_mask, index)]
                    index < 32 implies (mask_has(state.pending_fifo_mask, index) <==> fifo_count(waiting, state.session, index) > 0) && (mask_has(
                            state.unsubmitted_fifo_mask,
                            index,
                        ) <==> has_unsubmitted(waiting, state.session, index)) by {
                            assert(mask_has(old_state.pending_fifo_mask, index) || !mask_has(
                                old_state.pending_fifo_mask,
                                index,
                            ));
                            assert(mask_has(old_state.unsubmitted_fifo_mask, index) || !mask_has(
                                old_state.unsubmitted_fifo_mask,
                                index,
                            ));
                        }
                    } else {
                        assert forall|index: u32|
                    #![trigger mask_has(state.pending_fifo_mask, index)]
                    #![trigger mask_has(state.unsubmitted_fifo_mask, index)]
                    index < 32 implies (mask_has(state.pending_fifo_mask, index) <==> fifo_count(waiting, state.session, index) > 0) && (mask_has(
                            state.unsubmitted_fifo_mask,
                            index,
                        ) <==> has_unsubmitted(waiting, state.session, index)) by {
                            lemma_mask_empty(index);
                            lemma_unlisted_has_nothing(before.queue, state.session, index);
                        }
                    }
                }
            }
        }
    }

    /// Begin teardown. Gives the timeline value to signal, which lies past
    /// every submission, so that the completion thread wakes.
    pub fn stop(&mut self) -> (past_everything: u64)
        requires
            old(self).wf(),
            old(self)@.next_value < u64::MAX,
        ensures
            final(self).wf(),
            past_everything == old(self)@.next_value + 1,
            final(self)@ == (StampView { stopping: true, ..old(self)@ }),
    {
        self.stopping = true;
        self.next_value + 1
    }

    /// Finish teardown once the completion thread has left: no session
    /// publishes a stamp that will never complete.
    pub fn release(&mut self)
        requires
            old(self).wf(),
            old(self)@.stopping,
        ensures
            final(self).wf(),
            final(self)@.pending.waiting == old(self)@.pending.waiting,
            final(self)@.pending.sessions.len() == old(self)@.pending.sessions.len(),
            forall|k: int|
                0 <= k < old(self)@.pending.sessions.len()
                    ==> #[trigger] final(self)@.pending.sessions[k] == blanked(
                    old(self)@.pending.waiting,
                    old(self)@.pending.sessions[k],
                ),
            final(self)@ == (StampView { pending: final(self)@.pending, ..old(self)@ }),
    {
        self.queue.blank_masks();
    }

    /// What the completion thread does next.
    pub fn next_step(&self) -> (step: RunStep)
        ensures
            step == if self@.stopping {
                RunStep::Exit
            } else if self@.pending.waiting.len() > 0 {
                match self@.pending.waiting[0].point {
                    CompletionPoint::Submitted(timeline) => RunStep::Wait {
                        entry: self@.pending.waiting[0],
                        timeline,
                    },
                    CompletionPoint::NextSubmission(_) => RunStep::Park,
                }
            } else {
                RunStep::Park
            },
    {
        if self.stopping {
            return RunStep::Exit;
        }
        if self.queue.waiting.len() == 0 {
            return RunStep::Park;
        }
        let entry: Waiting = self.queue.waiting[0];
        match entry.point {
            CompletionPoint::Submitted(timeline) => RunStep::Wait { entry, timeline },
            CompletionPoint::NextSubmission(_) => RunStep::Park,
        }
    }

    /// What a wait for the submission of `entry` leads to. `first_sight` says
    /// that no earlier timeout of this submission was reported.
    pub fn wait_returned(
        &self,
        entry: Waiting,
        timeline: u64,
        result: Result<(), VkResult>,
        first_sight: bool,
    ) -> (outcome: WaitOutcome)
        ensures
            match outcome {
                WaitOutcome::Publish => !self@.stopping && result is Ok,
                WaitOutcome::Retry(None) => !self@.stopping && result == Err::<(), VkResult>(
                    VkResult(TIMEOUT),
                ) && !first_sight,
                WaitOutcome::Retry(Some(line)) => !self@.stopping && result == Err::<(), VkResult>(
                    VkResult(TIMEOUT),
                ) && first_sight && line@ == timeout_text(entry.index, timeline),
                WaitOutcome::Fail(line) => !self@.stopping && (result matches Err(error)
                    && error.0 != TIMEOUT && line@ == wait_failed_text(
                    entry.index,
                    timeline,
                    error,
                )),
                WaitOutcome::Exit => self@.stopping,
            },
    {
        match classify_wait(result, self.stopping) {
            CompletionWait::Completed => WaitOutcome::Publish,
            CompletionWait::Retry => {
                if first_sight {
                    let mut line = owned("stamp_wait_timeout reason=stamp_wait_timeout index=");
                    append_decimal(&mut line, entry.index as u64);
                    append_text(&mut line, " value=");
                    append_decimal(&mut line, timeline);
                    append_text(
                        &mut line,
                        " (the submission carrying this stamp's word has not executed within the fence deadline; its completion remains pending)",
                    );
                    WaitOutcome::Retry(Some(line))
                } else {
                    WaitOutcome::Retry(None)
                }
            },
            CompletionWait::Failed(error) => {
                let shown = show_vk_result(error.0);
                let line = wait_failed_line(entry.index, timeline, shown.as_str());
                WaitOutcome::Fail(line)
            },
            CompletionWait::Stopping => WaitOutcome::Exit,
        }
    }

    /// Retire the stamp at the front once its word was stored. A word that was
    /// not stored leaves the stamp queued and its interrupt withheld.
    pub fn published(&mut self, stored: bool) -> (outcome: PublishOutcome)
        requires
            old(self).wf(),
            old(self)@.pending.waiting.len() > 0,
            old(self)@.pending.waiting[0].point is Submitted,
        ensures
            final(self).wf(),
            !stored ==> final(self)@ == old(self)@ && (outcome matches PublishOutcome::Withheld(
                line,
            ) && line@ == store_failed_text(
                old(self)@.pending.waiting[0].index,
                old(self)@.pending.waiting[0].stamp,
            )),
            stored ==> {
                let front = old(self)@.pending.waiting[0];
                &&& final(self)@.pending.waiting == old(self)@.pending.waiting.drop_first()
                &&& final(self)@ == (StampView { pending: final(self)@.pending, ..old(self)@ })
                &&& final(self)@.pending.sessions.len() == old(self)@.pending.sessions.len()
                &&& forall|k: int|
                    0 <= k < old(self)@.pending.sessions.len()
                        ==> #[trigger] final(self)@.pending.sessions[k] == unmarked(
                        old(self)@.pending.sessions[k],
                        front,
                        old(self)@.pending.waiting.drop_first(),
                    )
                &&& exists|state: SessionState|
                    old(self)@.pending.sessions.contains(state) && state.session == front.session
                        && announced(outcome, #[trigger] state.announce_installed, front.index)
            },
    {
        let ghost before = *self;
        let entry: Waiting = self.queue.waiting[0];
        assert(entry.index < self.max_channels);
        if !stored {
            let mut line = owned("stamp_cpu_store_failed reason=stamp_cpu_store_failed index=");
            append_decimal(&mut line, entry.index as u64);
            append_text(&mut line, " value=");
            append_hexadecimal(&mut line, entry.stamp as u64);
            append_text(
                &mut line,
                " (the completed queue point could not publish its checked shared word; its interrupt was withheld)",
            );
            return PublishOutcome::Withheld(line);
        }
        let state = self.queue.session_state(entry.session);
        let _ = self.queue.pop_front();
        if !self.queue.has_pending(entry.session, entry.index) {
            self.queue.clear_pending(entry.session, entry.index);
        }
        proof {
            let waiting = self.queue@.waiting;
            let prior = before.queue@.waiting;
            assert forall|k: int| 0 <= k < waiting.len() implies (#[trigger] waiting[k]).index
                < self.max_channels by {
                assert(waiting[k] == prior[k + 1]);
                assert(prior[k + 1].index < self.max_channels);
            }
            assert forall|session: SessionId, index: u32| #[trigger]
                fifo_count(waiting, session, index) <= FIFO_PENDING_STAMP_CAPACITY by {
                lemma_count_front(prior, session, index);
                assert(fifo_count(prior, session, index) <= FIFO_PENDING_STAMP_CAPACITY);
            }
            if !self.stopping {
                assert forall|k: int| 0 <= k < self.queue@.sessions.len() implies pending_exact(
                    waiting,
                    #[trigger] self.queue@.sessions[k],
                ) && unsubmitted_exact(waiting, self.queue@.sessions[k]) by {
                    let after = self.queue@.sessions[k];
                    let old_state = before.queue@.sessions[k];
                    assert(pending_exact(prior, old_state));
                    assert(unsubmitted_exact(prior, old_state));
                    assert forall|index: u32|
                        #![trigger mask_has(after.pending_fifo_mask, index)]
                        #![trigger mask_has(after.unsubmitted_fifo_mask, index)]
                        index < 32 implies (mask_has(after.pending_fifo_mask, index) <==> fifo_count(waiting, after.session, index) > 0) && (mask_has(
                        after.unsubmitted_fifo_mask,
                        index,
                    ) <==> has_unsubmitted(waiting, after.session, index)) by {
                        lemma_count_front(prior, after.session, index);
                        lemma_unsubmitted_drop_submitted(prior, after.session, index);
                        lemma_mask_clear(old_state.pending_fifo_mask, entry.index, index);
                        assert(mask_has(old_state.pending_fifo_mask, index) <==> fifo_count(
                            prior,
                            after.session,
                            index,
                        ) > 0);
                        assert(mask_has(old_state.unsubmitted_fifo_mask, index) <==> has_unsubmitted(
                            prior,
                            after.session,
                            index,
                        ));
                    }
                }
            }
        }
        match state {
            Some(state) => {
                let announcement = announce(state.announce_installed, entry.index);
                let outcome = PublishOutcome::Announce(announcement);
                assert(announced(outcome, state.announce_installed, entry.index));
                outcome
            },
            None => {
                assert(listed(before.queue@.sessions, before.queue.waiting@[0].session));
                PublishOutcome::Announce(Announcement::Hook(entry.index))
            },
        }
    }
}

/// Whether `outcome` announces FIFO `index` of a session whose hook is
/// installed as told.
pub open spec fn announced(outcome: PublishOutcome, hook_installed: bool, index: u32) -> bool {
    outcome matches PublishOutcome::Announce(announcement) && match announcement {
        Announcement::Hook(raised) => hook_installed && raised == index,
        Announcement::Missing(line) => !hook_installed && line@ == no_hook_text(index),
    }
}

/// What queueing one stamp does to the sessions' states.
pub open spec fn sessions_marked(
    before: Seq<SessionState>,
    after: Seq<SessionState>,
    entry: Waiting,
    unsubmitted: bool,
) -> bool {
    &&& after.len() == before.len()
    &&& forall|k: int|
        0 <= k < before.len() ==> #[trigger] after[k] == if before[k].session == entry.session {
            marked(before[k], entry.index, unsubmitted)
        } else {
            before[k]
        }
}

proof fn lemma_unlisted_has_nothing(queue: PendingQueue, session: SessionId, index: u32)
    requires
        queue.wf(),
        !listed(queue.sessions@, session),
    ensures
        fifo_count(queue.waiting@, session, index) == 0,
        !has_unsubmitted(queue.waiting@, session, index),
{
    if fifo_count(queue.waiting@, session, index) > 0 {
        lemma_count_witness(queue.waiting@, session, index);
        let k = choose|k: int|
            0 <= k < queue.waiting@.len() && (#[trigger] queue.waiting@[k]).session == session
                && queue.waiting@[k].index == index;
        assert(listed(queue.sessions@, queue.waiting@[k].session));
    }
    if has_unsubmitted(queue.waiting@, session, index) {
        let k = choose|k: int|
            0 <= k < queue.waiting@.len() && (#[trigger] queue.waiting@[k]).session == session
                && queue.waiting@[k].index == index && queue.waiting@[k].point is NextSubmission;
        assert(listed(queue.sessions@, queue.waiting@[k].session));
    }
}

proof fn lemma_unsubmitted_drop_submitted(waiting: Seq<Waiting>, session: SessionId, index: u32)
    requires
        waiting.len() > 0,
        waiting[0].point is Submitted,
    ensures
        has_unsubmitted(waiting.drop_first(), session, index) <==> has_unsubmitted(
            waiting,
            session,
            index,
        ),
{
    let rest = waiting.drop_first();
    if has_unsubmitted(waiting, session, index) {
        let k = choose|k: int|
            0 <= k < waiting.len() && (#[trigger] waiting[k]).session == session
                && waiting[k].index == index && waiting[k].point is NextSubmission;
        assert(rest[k - 1] == waiting[k]);
    }
    if has_unsubmitted(rest, session, index) {
        let k = choose|k: int|
            0 <= k < rest.len() && (#[trigger] rest[k]).session == session && rest[k].index
                == index && rest[k].point is NextSubmission;
        assert(waiting[k + 1] == rest[k]);
    }
}

/// A mask has a FIFO where the bit of its number is set.
pub proof fn law_a_mask_has_a_fifo_by_its_bit(mask: u32, index: u32)
    ensures
        mask_has(mask, index) <==> index < 32 && (mask >> index) % 2 == 1,
        !mask_has(0, index),
{
    if index < 32 {
        assert((mask & (1u32 << index) != 0) == ((mask >> index) % 2 == 1)) by (bit_vector)
            requires
                index < 32,
        ;
        assert(0u32 & (1u32 << index) == 0) by (bit_vector);
    }
}

/// Queueing a stamp sets the bit of its FIFO and no other: as pending, and as unsubmitted
/// only where it waits for a later submission.
pub proof fn law_queueing_marks_its_own_fifo(
    state: SessionState,
    index: u32,
    unsubmitted: bool,
    other: u32,
)
    requires
        index < 32,
        other < 32,
    ensures
        ({
            let after = marked(state, index, unsubmitted);
            &&& after.session == state.session
            &&& after.announce_installed == state.announce_installed
            &&& mask_has(after.pending_fifo_mask, index)
            &&& unsubmitted ==> mask_has(after.unsubmitted_fifo_mask, index)
            &&& other != index ==> {
                &&& mask_has(after.pending_fifo_mask, other) <==> mask_has(
                    state.pending_fifo_mask,
                    other,
                )
                &&& mask_has(after.unsubmitted_fifo_mask, other) <==> mask_has(
                    state.unsubmitted_fifo_mask,
                    other,
                )
            }
            &&& !unsubmitted ==> after.unsubmitted_fifo_mask == state.unsubmitted_fifo_mask
        }),
{
    let pending = state.pending_fifo_mask;
    let waits = state.unsubmitted_fifo_mask;
    assert((pending | (1u32 << index)) & (1u32 << index) != 0) by (bit_vector)
        requires
            index < 32,
    ;
    assert((waits | (1u32 << index)) & (1u32 << index) != 0) by (bit_vector)
        requires
            index < 32,
    ;
    if other != index {
        assert((pending | (1u32 << index)) & (1u32 << other) == pending & (1u32 << other))
            by (bit_vector)
            requires
                index < 32,
                other < 32,
                other != index,
        ;
        assert((waits | (1u32 << index)) & (1u32 << other) == waits & (1u32 << other))
            by (bit_vector)
            requires
                index < 32,
                other < 32,
                other != index,
        ;
    }
}

/// Taking a stamp off the queue clears the bit of its FIFO exactly where that was the last
/// one pending there, and no other bit.
pub proof fn law_the_last_stamp_clears_its_fifo(
    state: SessionState,
    front: Waiting,
    waiting: Seq<Waiting>,
    other: u32,
)
    requires
        front.index < 32,
        other < 32,
    ensures
        ({
            let after = unmarked(state, front, waiting);
            let last = state.session == front.session && fifo_count(
                waiting,
                front.session,
                front.index,
            ) == 0;
            &&& last ==> !mask_has(after.pending_fifo_mask, front.index)
            &&& !last ==> after == state
            &&& other != front.index ==> (mask_has(after.pending_fifo_mask, other) <==> mask_has(
                state.pending_fifo_mask,
                other,
            ))
            &&& after.unsubmitted_fifo_mask == state.unsubmitted_fifo_mask
            &&& after.session == state.session
            &&& after.announce_installed == state.announce_installed
        }),
{
    let mask = state.pending_fifo_mask;
    let index = front.index;
    assert((mask & !(1u32 << index)) & (1u32 << index) == 0) by (bit_vector)
        requires
            index < 32,
    ;
    if other != index {
        assert((mask & !(1u32 << index)) & (1u32 << other) == mask & (1u32 << other))
            by (bit_vector)
            requires
                index < 32,
                other < 32,
                other != index,
        ;
    }
}

/// Giving up what is pending clears the masks of the sessions that have something pending,
/// and nothing else of them.
pub proof fn law_giving_up_clears_the_sessions_that_waited(
    waiting: Seq<Waiting>,
    state: SessionState,
)
    ensures
        blanked(waiting, state).session == state.session,
        blanked(waiting, state).announce_installed == state.announce_installed,
        (exists|k: int| 0 <= k < waiting.len() && (#[trigger] waiting[k]).session == state.session)
            ==> blanked(waiting, state).pending_fifo_mask == 0 && blanked(
            waiting,
            state,
        ).unsubmitted_fifo_mask == 0,
        (forall|k: int| 0 <= k < waiting.len() ==> (#[trigger] waiting[k]).session != state.session)
            ==> blanked(waiting, state) == state,
{
}

/// A submission binds the stamps that wait for it: what they publish, where and for whom
/// stays, and every other stamp waits on.
pub proof fn law_a_submission_binds_its_own_stamps(waiting: Waiting, timeline: u64)
    ensures
        ({
            let after = bound(waiting, timeline);
            &&& after.session == waiting.session
            &&& after.index == waiting.index
            &&& after.word == waiting.word
            &&& after.stamp == waiting.stamp
            &&& after.queued_at_us == waiting.queued_at_us
            &&& waiting.point == CompletionPoint::NextSubmission(timeline) ==> after.point
                == CompletionPoint::Submitted(timeline)
            &&& waiting.point != CompletionPoint::NextSubmission(timeline) ==> after.point
                == waiting.point
        }),
{
}

/// Every stamp is bound where it stands, and those that were owed are counted.
pub proof fn law_bound_stamps_keep_their_places(
    waiting: Seq<Waiting>,
    entry: Waiting,
    timeline: u64,
    k: int,
)
    ensures
        all_bound(waiting, timeline).len() == waiting.len(),
        0 <= k < waiting.len() ==> all_bound(waiting, timeline)[k] == bound(waiting[k], timeline),
        owed_to(Seq::<Waiting>::empty(), timeline) == 0,
        owed_to(waiting.push(entry), timeline) == owed_to(waiting, timeline) + if entry.point
            == CompletionPoint::NextSubmission(timeline) {
            1int
        } else {
            0
        },
{
    assert(waiting.push(entry).drop_last() =~= waiting);
}

/// A stamp counts in its own FIFO of its own session.
pub proof fn law_a_stamp_counts_in_its_own_fifo(
    waiting: Seq<Waiting>,
    entry: Waiting,
    session: SessionId,
    index: u32,
)
    ensures
        fifo_count(Seq::<Waiting>::empty(), session, index) == 0,
        fifo_count(waiting.push(entry), session, index) == fifo_count(waiting, session, index) + if
            entry.session == session && entry.index == index {
            1int
        } else {
            0
        },
        has_unsubmitted(waiting, session, index) ==> fifo_count(waiting, session, index) > 0,
        has_unsubmitted(waiting.push(entry), session, index) <==> has_unsubmitted(
            waiting,
            session,
            index,
        ) || (entry.session == session && entry.index == index && entry.point is NextSubmission),
        occurs(waiting.push(entry), session) <==> occurs(waiting, session) || entry.session
            == session,
        capacity_kept(waiting) ==> fifo_count(waiting, session, index)
            <= FIFO_PENDING_STAMP_CAPACITY,
{
    let more = waiting.push(entry);
    assert(more.drop_last() =~= waiting);
    assert(more[waiting.len() as int] == entry);
    assert forall|k: int| 0 <= k < waiting.len() implies #[trigger] more[k] == waiting[k] by {}
    if has_unsubmitted(waiting, session, index) {
        let k = choose|k: int|
            0 <= k < waiting.len() && (#[trigger] waiting[k]).session == session
                && waiting[k].index == index && waiting[k].point is NextSubmission;
        assert(more[k] == waiting[k]);
        lemma_one_is_counted(waiting, session, index, k);
    }
    if has_unsubmitted(more, session, index) {
        let k = choose|k: int|
            0 <= k < more.len() && (#[trigger] more[k]).session == session && more[k].index
                == index && more[k].point is NextSubmission;
        if k < waiting.len() {
            assert(waiting[k] == more[k]);
        }
    }
    if occurs(waiting, session) {
        let k = choose|k: int| 0 <= k < waiting.len() && (#[trigger] waiting[k]).session == session;
        assert(more[k] == waiting[k]);
    }
    if occurs(more, session) {
        let k = choose|k: int| 0 <= k < more.len() && (#[trigger] more[k]).session == session;
        if k < waiting.len() {
            assert(waiting[k] == more[k]);
        }
    }
}

proof fn lemma_one_is_counted(waiting: Seq<Waiting>, session: SessionId, index: u32, k: int)
    requires
        0 <= k < waiting.len(),
        waiting[k].session == session,
        waiting[k].index == index,
    ensures
        fifo_count(waiting, session, index) > 0,
    decreases waiting.len(),
{
    if k < waiting.len() - 1 {
        assert(waiting.drop_last()[k] == waiting[k]);
        lemma_one_is_counted(waiting.drop_last(), session, index, k);
    }
}

/// A session that is new is listed once, with nothing published of it; one that is listed
/// stays as it is.
pub proof fn law_a_session_is_listed_when_it_is_met(
    sessions: Seq<SessionState>,
    session: SessionId,
)
    ensures
        listed(with_session(sessions, session), session),
        listed(sessions, session) ==> with_session(sessions, session) == sessions,
        !listed(sessions, session) ==> {
            &&& with_session(sessions, session).len() == sessions.len() + 1
            &&& with_session(sessions, session).last().session == session
            &&& with_session(sessions, session).last().pending_fifo_mask == 0
            &&& with_session(sessions, session).last().unsubmitted_fifo_mask == 0
            &&& !with_session(sessions, session).last().announce_installed
        },
        forall|k: int|
            0 <= k < sessions.len() ==> #[trigger] with_session(sessions, session)[k]
                == sessions[k],
        listed_once(sessions) ==> listed_once(with_session(sessions, session)),
{
    let after = with_session(sessions, session);
    if !listed(sessions, session) {
        assert(after[sessions.len() as int].session == session);
        assert forall|k: int| 0 <= k < sessions.len() implies #[trigger] after[k]
            == sessions[k] by {}
        if listed_once(sessions) {
            assert forall|a: int, b: int| 0 <= a < b < after.len() implies (
            #[trigger] after[a]).session != (#[trigger] after[b]).session by {
                assert(after[a] == sessions[a]);
            }
        }
    }
}

/// Publishing anew what waits makes the unsubmitted mask of each waiting session exact and
/// leaves everything else that was published.
pub proof fn law_republishing_makes_the_masks_exact(
    waiting: Seq<Waiting>,
    before: Seq<SessionState>,
    after: Seq<SessionState>,
    k: int,
    index: u32,
)
    requires
        republished(waiting, before, after),
        0 <= k < before.len(),
        index < 32,
    ensures
        after.len() == before.len(),
        after[k].session == before[k].session,
        after[k].pending_fifo_mask == before[k].pending_fifo_mask,
        after[k].announce_installed == before[k].announce_installed,
        occurs(waiting, before[k].session) ==> (mask_has(after[k].unsubmitted_fifo_mask, index)
            <==> exists|n: int|
            0 <= n < waiting.len() && (#[trigger] waiting[n]).session == before[k].session
                && waiting[n].index == index && waiting[n].point is NextSubmission),
        !occurs(waiting, before[k].session) ==> after[k] == before[k],
{
    assert(state_republished(waiting, before[k], after[k]));
    if occurs(waiting, before[k].session) {
        assert(mask_has(after[k].unsubmitted_fifo_mask, index) <==> has_unsubmitted(
            waiting,
            after[k].session,
            index,
        ));
    }
}

/// Masks that are exact tell of every FIFO whether a stamp is pending there, and whether one
/// waits for a later submission.
pub proof fn law_exact_masks_tell_what_is_pending(pending: PendingView, k: int, index: u32)
    requires
        masks_exact(pending),
        0 <= k < pending.sessions.len(),
        index < 32,
    ensures
        mask_has(pending.sessions[k].pending_fifo_mask, index) <==> fifo_count(
            pending.waiting,
            pending.sessions[k].session,
            index,
        ) > 0,
        mask_has(pending.sessions[k].unsubmitted_fifo_mask, index) <==> exists|n: int|
            0 <= n < pending.waiting.len() && (#[trigger] pending.waiting[n]).session
                == pending.sessions[k].session && pending.waiting[n].index == index
                && pending.waiting[n].point is NextSubmission,
{
    let state = pending.sessions[k];
    assert(mask_has(state.pending_fifo_mask, index) <==> fifo_count(
        pending.waiting,
        state.session,
        index,
    ) > 0);
    assert(mask_has(state.unsubmitted_fifo_mask, index) <==> has_unsubmitted(
        pending.waiting,
        state.session,
        index,
    ));
}

/// What a queued stamp publishes, where, for whom and behind which submission is what was
/// asked for.
pub proof fn law_a_queued_stamp_is_the_one_asked_for(
    session: SessionId,
    point: CompletionPoint,
    index: u32,
    word: u64,
    stamp: u32,
    now_us: u64,
)
    ensures
        ({
            let entry = queued_entry(session, point, index, word, stamp, now_us);
            &&& entry.session == session
            &&& entry.point == point
            &&& entry.index == index
            &&& entry.word == word
            &&& entry.stamp == stamp
            &&& entry.queued_at_us == now_us
        }),
{
}

/// A published stamp raises the interrupt of its own FIFO where a hook is installed, and is
/// reported where none is.
pub proof fn law_a_published_stamp_is_announced(
    outcome: PublishOutcome,
    hook_installed: bool,
    index: u32,
)
    requires
        announced(outcome, hook_installed, index),
    ensures
        outcome matches PublishOutcome::Announce(announcement) && if hook_installed {
            announcement == Announcement::Hook(index)
        } else {
            announcement is Missing
        },
{
}

/// Queueing a stamp marks the state of its session and of no other.
pub proof fn law_only_the_session_of_a_stamp_is_marked(
    before: Seq<SessionState>,
    after: Seq<SessionState>,
    entry: Waiting,
    unsubmitted: bool,
    k: int,
)
    requires
        sessions_marked(before, after, entry, unsubmitted),
        0 <= k < before.len(),
        entry.index < 32,
    ensures
        after.len() == before.len(),
        after[k].session == before[k].session,
        before[k].session != entry.session ==> after[k] == before[k],
        before[k].session == entry.session ==> mask_has(after[k].pending_fifo_mask, entry.index),
        before[k].session == entry.session && unsubmitted ==> mask_has(
            after[k].unsubmitted_fifo_mask,
            entry.index,
        ),
        after[k].announce_installed == before[k].announce_installed,
{
    assert(after[k] == if before[k].session == entry.session {
        marked(before[k], entry.index, unsubmitted)
    } else {
        before[k]
    });
    law_queueing_marks_its_own_fifo(before[k], entry.index, unsubmitted, entry.index);
}

/// Two latencies are in one band exactly where no limit of a band lies between them.
pub proof fn law_bands_part_at_their_limits(a: u64, b: u64)
    ensures
        publish_band(a) == publish_band(b) <==> {
            &&& a < 100 <==> b < 100
            &&& a < 1_000 <==> b < 1_000
            &&& a < 4_000 <==> b < 4_000
            &&& a < 16_000 <==> b < 16_000
            &&& a < 64_000 <==> b < 64_000
            &&& a < 500_000 <==> b < 500_000
        },
{
    reveal_strlit("stamp_publish_lt100us");
    reveal_strlit("stamp_publish_lt1ms");
    reveal_strlit("stamp_publish_lt4ms");
    reveal_strlit("stamp_publish_lt16ms");
    reveal_strlit("stamp_publish_lt64ms");
    reveal_strlit("stamp_publish_lt500ms");
    reveal_strlit("stamp_publish_ge500ms");
    let x = publish_band(a);
    let y = publish_band(b);
    if x == y {
        assert(x.len() == y.len());
        assert(x[14] == y[14]);
        assert(x[16] == y[16]);
    }
}

/// A line about a stamp names its event twice, then its FIFO.
pub proof fn law_lines_name_their_event_and_fifo(
    index: u32,
    max_channels: u32,
    timeline: u64,
    stamp: u32,
    error: VkResult,
)
    ensures
        ({
            let fifo = decimal(index as nat);
            let value = fifo + " value="@ + decimal(timeline as nat);
            let out = "stamp_fifo_out_of_range reason=stamp_fifo_out_of_range index="@;
            let hook = "stamp_announce_no_hook reason=stamp_announce_no_hook index="@;
            let late = "stamp_wait_timeout reason=stamp_wait_timeout index="@;
            let wait = "stamp_wait_failed reason=stamp_wait_failed index="@;
            let store = "stamp_cpu_store_failed reason=stamp_cpu_store_failed index="@;
            &&& out_of_range_text(index, max_channels) == out + fifo + " max_channels="@ + decimal(
                max_channels as nat,
            )
            &&& no_hook_text(index).take((hook + fifo).len() as int) == hook + fifo
            &&& timeout_text(index, timeline).take((late + value).len() as int) == late + value
            &&& wait_failed_text(index, timeline, error).take(
                (wait + value + " err="@ + vk_result_text(error.0)).len() as int,
            ) == wait + value + " err="@ + vk_result_text(error.0)
            &&& store_failed_text(index, stamp).take(
                (store + fifo + " value="@ + hexadecimal(stamp as nat)).len() as int,
            ) == store + fifo + " value="@ + hexadecimal(stamp as nat)
        }),
{
    let fifo = decimal(index as nat);
    let value = fifo + " value="@ + decimal(timeline as nat);
    let hook = "stamp_announce_no_hook reason=stamp_announce_no_hook index="@;
    let late = "stamp_wait_timeout reason=stamp_wait_timeout index="@;
    let wait = "stamp_wait_failed reason=stamp_wait_failed index="@;
    let store = "stamp_cpu_store_failed reason=stamp_cpu_store_failed index="@;
    let failed = wait + value + " err="@ + vk_result_text(error.0);
    let stored = store + fifo + " value="@ + hexadecimal(stamp as nat);
    assert(no_hook_text(index).take((hook + fifo).len() as int) =~= hook + fifo);
    assert(timeout_text(index, timeline).take((late + value).len() as int) =~= late + value);
    assert(wait_failed_text(index, timeline, error).take(failed.len() as int) =~= failed);
    assert(store_failed_text(index, stamp).take(stored.len() as int) =~= stored);
}

} // verus!
