//! Which render pass stands in the command buffer under way, and which regions
//! of it are timed.

use crate::pools::encoder::{
    lemma_pending_update, slot_wf, CompatibilityField, EncoderPools, PassEcho,
};
use crate::pools::graphics::GraphicsView;
use crate::pools::limits::PASS_SPANS;
use crate::pools::making::call_failed;
use crate::pools::slots::{CmdSlot, SlotSpan, SpanKind};
use crate::pools::visibility::CbGuestVisibility;
use crate::types::{DrawError, VkCall, VkOp};
use crate::vk::{CommandBuffer, QueryPool, VkResult};
use vstd::prelude::*;

verus! {

/// What kept a draw from continuing the pass before it.
#[derive(Clone, Copy, Debug, PartialEq, Eq, Structural)]
pub enum PassEchoField {
    /// There was none.
    Nothing,
    /// It stands in another command buffer.
    Cb,
    /// The guest renders into another image.
    Target,
    /// The same image is described otherwise.
    Compatibility(CompatibilityField),
    /// The framebuffer is another.
    Framebuffer,
    /// The render area is another.
    Area,
}

/// What keeps `echo` from continuing `last`. The target is asked first: that
/// the guest renders elsewhere is its own doing, while one image described in
/// two ways is not. `difference` is how the two shapes differ, if they do.
pub open spec fn echo_delta(
    last: Option<PassEcho>,
    echo: PassEcho,
    difference: Option<CompatibilityField>,
) -> Option<PassEchoField> {
    match last {
        None => Some(PassEchoField::Nothing),
        Some(last) => if last.cb != echo.cb {
            Some(PassEchoField::Cb)
        } else if last.target_image != echo.target_image {
            Some(PassEchoField::Target)
        } else if let Some(field) = difference {
            Some(PassEchoField::Compatibility(field))
        } else if last.fb != echo.fb {
            Some(PassEchoField::Framebuffer)
        } else if last.area != echo.area {
            Some(PassEchoField::Area)
        } else {
            None
        },
    }
}

/// `difference` is named exactly where the last pass and `echo` differ in shape.
pub open spec fn tells_shapes_apart(
    last: Option<PassEcho>,
    echo: PassEcho,
    difference: Option<CompatibilityField>,
) -> bool {
    last matches Some(last) ==> (difference is None <==> last.compatibility == echo.compatibility)
}

/// A render pass to end, and the stamp to write inside it first.
#[derive(Clone, Copy, Debug, PartialEq, Eq, Structural)]
pub struct PassEnd {
    /// The command buffer that holds it.
    pub cb: CommandBuffer,
    /// Where to write its second stamp, if it is timed.
    pub stamp: Option<PassStamp>,
}

/// The timed pass of a command buffer.
#[derive(Clone, Copy, Debug, PartialEq, Eq, Structural)]
pub struct PassStamp {
    /// Where passes are timed.
    pub pool: QueryPool,
    /// The slot of the ring.
    pub slot: usize,
    /// Its place among the timed passes of the slot.
    pub index: u32,
}

/// What to write when a pass begins.
#[derive(Clone, Copy, Debug, PartialEq, Eq, Structural)]
pub enum PassBegin {
    /// Nothing.
    Untimed,
    /// Nothing: the slot holds as many timed passes as it can.
    RegionFull,
    /// The first stamp of a pass.
    Stamp(PassStamp),
}

/// The first stamp of a timed command buffer.
#[derive(Clone, Copy, Debug, PartialEq, Eq, Structural)]
pub struct SpanArm {
    /// Where to write it.
    pub pool: QueryPool,
    /// The slot of the ring.
    pub slot: usize,
    /// The slot held a span that no one read.
    pub unread: bool,
}

/// A timed command buffer whose stamps can be read.
#[derive(Clone, Copy, Debug, PartialEq, Eq, Structural)]
pub struct SpanRead {
    /// What it measures.
    pub kind: SpanKind,
    /// How many draws it holds.
    pub draws: u64,
    /// How many timed passes it holds.
    pub passes: u32,
}

/// What beginning to time a command buffer does.
pub open spec fn span_armed(
    before: EncoderPools,
    after: EncoderPools,
    probe: Option<QueryPool>,
    kind: SpanKind,
    arm: Option<SpanArm>,
) -> bool {
    match probe {
        None => arm is None && after == before,
        Some(pool) => {
            &&& arm == Some(
                SpanArm { pool, slot: before.cur, unread: !(before.cur_slot().span is Idle) },
            )
            &&& after == (EncoderPools {
                pass_open_index: None,
                pass_probe: Some(pool),
                slots: after.slots,
                ..before
            })
            &&& after.slots@ == before.slots@.update(
                before.cur as int,
                CmdSlot { span: SlotSpan::Armed(kind), pass_spans: 0, ..before.cur_slot() },
            )
        },
    }
}

impl EncoderPools {
    /// Whether a draw would continue the pass that the last draw used.
    pub fn pass_echoes(&self, echo: &PassEcho) -> (echoes: bool)
        ensures
            echoes <==> self.last_pass == Some(*echo),
    {
        match &self.last_pass {
            Some(last) => *last == *echo,
            None => false,
        }
    }

    /// What keeps a draw from continuing the pass that the last draw used: nothing
    /// exactly where [`pass_echoes`](Self::pass_echoes) says that it continues.
    /// `difference` is how the two shapes differ, if they do.
    pub fn pass_echo_delta(&self, echo: &PassEcho, difference: Option<CompatibilityField>) -> (delta:
        Option<PassEchoField>)
        requires
            tells_shapes_apart(self.last_pass, *echo, difference),
        ensures
            delta == echo_delta(self.last_pass, *echo, difference),
            delta is None <==> self.last_pass == Some(*echo),
            delta == Some(PassEchoField::Nothing) <==> self.last_pass is None,
            delta matches Some(PassEchoField::Compatibility(_)) ==> {
                &&& self.last_pass->0.cb == echo.cb
                &&& self.last_pass->0.target_image == echo.target_image
            },
    {
        let last = match &self.last_pass {
            Some(last) => last,
            None => return Some(PassEchoField::Nothing),
        };
        if last.cb != echo.cb {
            return Some(PassEchoField::Cb);
        }
        if last.target_image != echo.target_image {
            return Some(PassEchoField::Target);
        }
        if let Some(field) = difference {
            return Some(PassEchoField::Compatibility(field));
        }
        if last.fb != echo.fb {
            return Some(PassEchoField::Framebuffer);
        }
        if last.area != echo.area {
            return Some(PassEchoField::Area);
        }
        None
    }

    /// Note the pass that a draw just began.
    pub fn note_pass_opened(&mut self, echo: PassEcho)
        ensures
            old(self).wf() ==> final(self).wf(),
            *final(self) == (EncoderPools {
                last_pass: Some(echo),
                open_pass: Some(echo),
                ..*old(self)
            }),
    {
        self.last_pass = Some(echo);
        self.open_pass = Some(echo);
    }

    /// Whether `echo` is the pass that is open.
    pub fn open_pass_echoes(&self, echo: &PassEcho) -> (echoes: bool)
        ensures
            echoes <==> self.open_pass == Some(*echo),
    {
        match &self.open_pass {
            Some(open) => *open == *echo,
            None => false,
        }
    }

    /// Close the open pass, if there is one. It has to be in `cb`.
    pub fn close_open_pass(&mut self, cb: CommandBuffer) -> (end: Option<PassEnd>)
        requires
            old(self).open_pass matches Some(open) ==> open.cb == cb,
            old(self).open_pass is Some && old(self).pass_probe is Some && old(
                self,
            ).pass_open_index is Some ==> old(self).has_slot() && old(self).pass_open_index->0
                < u32::MAX,
        ensures
            final(self).open_pass is None,
            match old(self).open_pass {
                None => end is None && *final(self) == *old(self),
                Some(_) => {
                    let stamp = match (old(self).pass_probe, old(self).pass_open_index) {
                        (Some(pool), Some(index)) => Some(
                            PassStamp { pool, slot: old(self).cur, index },
                        ),
                        _ => None,
                    };
                    &&& end == Some(PassEnd { cb, stamp })
                    &&& *final(self) == (EncoderPools {
                        open_pass: None,
                        pass_open_index: None,
                        slots: final(self).slots,
                        ..*old(self)
                    })
                    &&& final(self).slots@ == match stamp {
                        Some(stamp) => old(self).slots@.update(
                            old(self).cur as int,
                            (CmdSlot {
                                pass_spans: (stamp.index + 1) as u32,
                                ..old(self).cur_slot()
                            }),
                        ),
                        None => old(self).slots@,
                    }
                },
            },
            old(self).wf() ==> final(self).wf(),
    {
        let open: PassEcho = match self.open_pass {
            Some(open) => open,
            None => return None,
        };
        self.open_pass = None;
        let index: Option<u32> = self.pass_open_index;
        self.pass_open_index = None;
        let stamp: Option<PassStamp> = match (self.pass_probe, index) {
            (Some(pool), Some(index)) => {
                let slot: usize = self.cur;
                self.slots[slot].pass_spans = index + 1;
                proof {
                    lemma_ring_kept(*old(self), *self, slot as int);
                }
                Some(PassStamp { pool, slot, index })
            },
            _ => None,
        };
        Some(PassEnd { cb: open.cb, stamp })
    }

    /// Forget what is known of the command buffer that was recorded: the pass
    /// it used last, the graphics state it carried and what it made visible. No
    /// pass may be open.
    pub fn forget_pass_echo(&mut self)
        requires
            old(self).open_pass is None,
            old(self).pass_open_index is None,
        ensures
            old(self).wf() ==> final(self).wf(),
            *final(self) == (EncoderPools {
                last_pass: None,
                cb_graphics: final(self).cb_graphics,
                cb_guest_visibility: CbGuestVisibility::nothing(),
                ..*old(self)
            }),
            final(self).cb_graphics@ == GraphicsView::nothing(None),
    {
        self.forget_recorded();
    }

    /// The state of [`forget_pass_echo`](Self::forget_pass_echo), also where a
    /// pass was open in a command buffer that is given up.
    pub(crate) fn forget_recorded(&mut self)
        ensures
            old(self).wf() ==> final(self).wf(),
            *final(self) == (EncoderPools {
                last_pass: None,
                cb_graphics: final(self).cb_graphics,
                cb_guest_visibility: CbGuestVisibility::nothing(),
                ..*old(self)
            }),
            final(self).cb_graphics@ == GraphicsView::nothing(None),
    {
        self.last_pass = None;
        self.cb_graphics.forget();
        self.cb_guest_visibility = CbGuestVisibility::new();
    }

    /// The driver answered the calls that reset and begin the command buffer; the
    /// second is made where the first succeeded. A command buffer that was begun
    /// is timed where the device can.
    pub fn begin_slot_recording(
        &mut self,
        reset: (VkOp, Result<(), VkResult>),
        begin: (VkOp, Result<(), VkResult>),
        probe: Option<QueryPool>,
        kind: SpanKind,
    ) -> (begun: Result<Option<SpanArm>, DrawError>)
        requires
            probe is Some ==> old(self).has_slot(),
        ensures
            match (reset.1, begin.1) {
                (Err(e), _) => begun == Err::<Option<SpanArm>, DrawError>(call_failed(reset.0, e))
                    && *final(self) == *old(self),
                (Ok(_), Err(e)) => begun == Err::<Option<SpanArm>, DrawError>(
                    call_failed(begin.0, e),
                ) && *final(self) == *old(self),
                (Ok(_), Ok(_)) => begun matches Ok(arm) && span_armed(
                    *old(self),
                    *final(self),
                    probe,
                    kind,
                    arm,
                ),
            },
            old(self).wf() ==> final(self).wf(),
    {
        if let Err(e) = reset.1 {
            return Err(DrawError::VkCall(VkCall::new(reset.0, e)));
        }
        if let Err(e) = begin.1 {
            return Err(DrawError::VkCall(VkCall::new(begin.0, e)));
        }
        Ok(self.gpu_span_arm(probe, kind))
    }

    /// Begin to time the command buffer that was just begun, where the device
    /// can.
    pub fn gpu_span_arm(&mut self, probe: Option<QueryPool>, kind: SpanKind) -> (arm: Option<
        SpanArm,
    >)
        requires
            probe is Some ==> old(self).has_slot(),
        ensures
            span_armed(*old(self), *final(self), probe, kind, arm),
            old(self).wf() ==> final(self).wf(),
    {
        let pool: QueryPool = match probe {
            Some(pool) => pool,
            None => return None,
        };
        let slot: usize = self.cur;
        let unread = self.slots[slot].span != SlotSpan::Idle;
        self.slots[slot].span = SlotSpan::Armed(kind);
        self.slots[slot].pass_spans = 0;
        self.pass_open_index = None;
        self.pass_probe = Some(pool);
        proof {
            lemma_ring_kept(*old(self), *self, slot as int);
        }
        Some(SpanArm { pool, slot, unread })
    }

    /// End the timed region of `slot`, just before its command buffer ends. Says
    /// whether to write the second stamp.
    pub fn gpu_span_seal(&mut self, probe: Option<QueryPool>, slot: usize, draws: u64) -> (stamp:
        bool)
        requires
            probe is Some ==> slot < old(self).slots@.len(),
            probe is Some && old(self).slots@[slot as int].span == SlotSpan::Armed(SpanKind::Other)
                ==> draws == 0,
        ensures
            stamp <==> probe is Some && old(self).slots@[slot as int].span is Armed,
            !stamp ==> *final(self) == *old(self),
            stamp ==> {
                let before = old(self).slots@[slot as int];
                &&& *final(self) == (EncoderPools { slots: final(self).slots, ..*old(self) })
                &&& final(self).slots@ == old(self).slots@.update(
                    slot as int,
                    (CmdSlot {
                        span: SlotSpan::Sealed { kind: before.span->Armed_0, draws },
                        ..before
                    }),
                )
            },
            old(self).wf() ==> final(self).wf(),
    {
        if probe.is_none() {
            return false;
        }
        let kind: SpanKind = match self.slots[slot].span {
            SlotSpan::Armed(kind) => kind,
            _ => return false,
        };
        self.slots[slot].span = SlotSpan::Sealed { kind, draws };
        proof {
            lemma_ring_kept(*old(self), *self, slot as int);
        }
        true
    }

    /// End the timed region of the slot under way for a submission of its own: a
    /// draw counts as one.
    pub fn gpu_span_seal_current(&mut self, probe: Option<QueryPool>) -> (stamp: bool)
        requires
            old(self).has_slot(),
        ensures
            stamp <==> probe is Some && old(self).cur_slot().span is Armed,
            !stamp ==> *final(self) == *old(self),
            stamp ==> {
                let kind = old(self).cur_slot().span->Armed_0;
                &&& *final(self) == (EncoderPools { slots: final(self).slots, ..*old(self) })
                &&& final(self).slots@ == old(self).slots@.update(
                    old(self).cur as int,
                    (CmdSlot {
                        span: SlotSpan::Sealed {
                            kind,
                            draws: if kind is Draw {
                                1
                            } else {
                                0
                            },
                        },
                        ..old(self).cur_slot()
                    }),
                )
            },
            old(self).wf() ==> final(self).wf(),
    {
        let slot: usize = self.cur;
        let draws: u64 = match self.slots[slot].span {
            SlotSpan::Armed(SpanKind::Draw) => 1,
            _ => 0,
        };
        self.gpu_span_seal(probe, slot, draws)
    }

    /// Begin to time the pass that was just begun, where passes are timed.
    pub fn gpu_span_pass_begin(&mut self, enabled: bool, probe: Option<QueryPool>) -> (begin:
        PassBegin)
        requires
            enabled && probe is Some ==> old(self).has_slot(),
        ensures
            ({
                let slot = old(self).cur_slot();
                begin == match probe {
                    Some(pool) => if !enabled || !(slot.span is Armed) {
                        PassBegin::Untimed
                    } else if slot.pass_spans >= PASS_SPANS {
                        PassBegin::RegionFull
                    } else {
                        PassBegin::Stamp(
                            PassStamp { pool, slot: old(self).cur, index: slot.pass_spans },
                        )
                    },
                    None => PassBegin::Untimed,
                }
            }),
            *final(self) == match begin {
                PassBegin::Stamp(stamp) => (EncoderPools {
                    pass_open_index: Some(stamp.index),
                    ..*old(self)
                }),
                _ => *old(self),
            },
            old(self).wf() ==> final(self).wf(),
    {
        if !enabled {
            return PassBegin::Untimed;
        }
        let pool: QueryPool = match probe {
            Some(pool) => pool,
            None => return PassBegin::Untimed,
        };
        let slot: usize = self.cur;
        match self.slots[slot].span {
            SlotSpan::Armed(_) => {},
            _ => return PassBegin::Untimed,
        }
        let index: u32 = self.slots[slot].pass_spans;
        if index >= PASS_SPANS {
            return PassBegin::RegionFull;
        }
        self.pass_open_index = Some(index);
        PassBegin::Stamp(PassStamp { pool, slot, index })
    }

    /// What to read of the timed region of a slot whose fence has signalled. The
    /// region is idle afterwards, read or not.
    pub fn gpu_span_read(&mut self, timed: bool, slot: usize) -> (read: Option<SpanRead>)
        requires
            timed ==> slot < old(self).slots@.len(),
        ensures
            ({
                let before = old(self).slots@[slot as int];
                match before.span {
                    SlotSpan::Sealed { kind, draws } if timed => {
                        &&& read == Some(SpanRead { kind, draws, passes: before.pass_spans })
                        &&& final(self).slots@ == old(self).slots@.update(
                            slot as int,
                            (CmdSlot { span: SlotSpan::Idle, pass_spans: 0, ..before }),
                        )
                    },
                    _ => {
                        &&& read is None
                        &&& final(self).slots@ == if timed {
                            old(self).slots@.update(
                                slot as int,
                                (CmdSlot { span: SlotSpan::Idle, ..before }),
                            )
                        } else {
                            old(self).slots@
                        }
                    },
                }
            }),
            *final(self) == (EncoderPools { slots: final(self).slots, ..*old(self) }),
            old(self).wf() ==> final(self).wf(),
    {
        if !timed {
            return None;
        }
        let span: SlotSpan = self.slots[slot].span;
        self.slots[slot].span = SlotSpan::Idle;
        match span {
            SlotSpan::Sealed { kind, draws } => {
                let passes: u32 = self.slots[slot].pass_spans;
                self.slots[slot].pass_spans = 0;
                proof {
                    lemma_ring_kept(*old(self), *self, slot as int);
                }
                Some(SpanRead { kind, draws, passes })
            },
            _ => {
                proof {
                    lemma_ring_kept(*old(self), *self, slot as int);
                }
                None
            },
        }
    }

    /// Begin to time the readback of the slot under way. Says whether to write
    /// the first stamp.
    pub fn readback_span_arm(&mut self, timed: bool) -> (stamp: bool)
        requires
            timed ==> old(self).has_slot(),
        ensures
            stamp == timed,
            *final(self) == (EncoderPools { slots: final(self).slots, ..*old(self) }),
            final(self).slots@ == if timed {
                old(self).slots@.update(
                    old(self).cur as int,
                    (CmdSlot { readback_span_armed: true, ..old(self).cur_slot() }),
                )
            } else {
                old(self).slots@
            },
            old(self).wf() ==> final(self).wf(),
    {
        if !timed {
            return false;
        }
        let slot: usize = self.cur;
        self.slots[slot].readback_span_armed = true;
        proof {
            lemma_ring_kept(*old(self), *self, slot as int);
        }
        true
    }

    /// Whether to write a later stamp of the readback under way. One that was
    /// not begun stays quiet.
    pub fn readback_span_mark(&self, timed: bool) -> (stamp: bool)
        requires
            timed ==> self.has_slot(),
        ensures
            stamp <==> timed && self.cur_slot().readback_span_armed,
    {
        timed && self.slots[self.cur].readback_span_armed
    }

    /// Whether to read the readback region of a slot whose fence has signalled.
    /// The region is idle afterwards.
    pub fn readback_span_read(&mut self, timed: bool, slot: usize) -> (read: bool)
        requires
            timed ==> slot < old(self).slots@.len(),
        ensures
            read <==> timed && old(self).slots@[slot as int].readback_span_armed,
            *final(self) == (EncoderPools { slots: final(self).slots, ..*old(self) }),
            final(self).slots@ == if timed {
                old(self).slots@.update(
                    slot as int,
                    (CmdSlot { readback_span_armed: false, ..old(self).slots@[slot as int] }),
                )
            } else {
                old(self).slots@
            },
            old(self).wf() ==> final(self).wf(),
    {
        if !timed {
            return false;
        }
        let read = self.slots[slot].readback_span_armed;
        self.slots[slot].readback_span_armed = false;
        proof {
            lemma_ring_kept(*old(self), *self, slot as int);
        }
        read
    }
}

/// A change of one slot that touches neither what it owes nor who owns it keeps
/// the ring well formed.
pub(crate) proof fn lemma_ring_kept(before: EncoderPools, after: EncoderPools, at: int)
    requires
        0 <= at < before.slots@.len(),
        after.slots@.len() == before.slots@.len(),
        forall|i: int|
            0 <= i < before.slots@.len() && i != at ==> after.slots@[i] == before.slots@[i],
        after.slots@[at].pending == before.slots@[at].pending,
        after.slots@[at].retirement == before.slots@[at].retirement,
        after.slots@[at].submission == before.slots@[at].submission,
        after.cur == before.cur,
        after.in_flight == before.in_flight,
        after.recording == before.recording,
        after.open_batch == before.open_batch,
    ensures
        after.slots@ == before.slots@.update(at, after.slots@[at]),
        before.ring_wf() ==> after.ring_wf(),
{
    let slot = after.slots@[at];
    assert(after.slots@ =~= before.slots@.update(at, slot));
    lemma_pending_update(before.slots@, at, slot);
    if before.ring_wf() {
        assert forall|i: int| 0 <= i < after.slots@.len() implies slot_wf(
            #[trigger] after.slots@[i],
        ) by {
            assert(slot_wf(before.slots@[i]));
        }
    }
}

/// What keeps a draw from continuing the last pass is named exactly when
/// something does: the two questions cannot disagree.
pub proof fn law_delta_is_named_iff_the_pass_differs(
    last: Option<PassEcho>,
    echo: PassEcho,
    difference: Option<CompatibilityField>,
)
    requires
        tells_shapes_apart(last, echo, difference),
    ensures
        echo_delta(last, echo, difference) is None <==> last == Some(echo),
{
}

/// The shape is blamed only where the guest renders on into the same image.
pub proof fn law_a_shape_is_blamed_only_for_one_image(
    last: PassEcho,
    echo: PassEcho,
    difference: Option<CompatibilityField>,
)
    ensures
        echo_delta(Some(last), echo, difference) matches Some(PassEchoField::Compatibility(_))
            ==> last.target_image == echo.target_image && last.cb == echo.cb,
        last.cb == echo.cb && last.target_image == echo.target_image && difference is Some
            ==> echo_delta(Some(last), echo, difference) is Some && echo_delta(
            Some(last),
            echo,
            difference,
        )->0 == PassEchoField::Compatibility(difference->0),
{
}

/// Where a draw cannot continue the last pass, the first thing that differs is
/// named: the command buffer, the image, the shape, the framebuffer, the area.
pub proof fn law_the_first_difference_is_named(
    last: PassEcho,
    echo: PassEcho,
    difference: Option<CompatibilityField>,
)
    ensures
        ({
            let delta = echo_delta(Some(last), echo, difference);
            let on_one_image = last.cb == echo.cb && last.target_image == echo.target_image;
            &&& delta == Some(PassEchoField::Cb) <==> last.cb != echo.cb
            &&& delta == Some(PassEchoField::Target) <==> last.cb == echo.cb && last.target_image
                != echo.target_image
            &&& (delta matches Some(PassEchoField::Compatibility(_))) <==> on_one_image
                && difference is Some
            &&& delta == Some(PassEchoField::Framebuffer) <==> on_one_image && difference is None
                && last.fb != echo.fb
            &&& delta == Some(PassEchoField::Area) <==> on_one_image && difference is None
                && last.fb == echo.fb && last.area != echo.area
            &&& delta != Some(PassEchoField::Nothing)
        }),
        echo_delta(None, echo, difference) == Some(PassEchoField::Nothing),
{
}

/// Timing a command buffer begins in the slot that is recorded into and in no
/// other, counts its passes anew, and says whether an older time there was
/// never read.
pub proof fn law_a_span_is_armed_in_the_current_slot(
    before: EncoderPools,
    after: EncoderPools,
    pool: QueryPool,
    kind: SpanKind,
    arm: Option<SpanArm>,
    other: int,
)
    requires
        before.has_slot(),
        span_armed(before, after, Some(pool), kind, arm),
    ensures
        arm matches Some(armed) && armed.pool == pool && armed.slot == before.cur && (armed.unread
            <==> !(before.slots@[before.cur as int].span is Idle)),
        after.cur == before.cur,
        after.pass_open_index is None,
        after.pass_probe == Some(pool),
        after.slots@.len() == before.slots@.len(),
        after.slots@[after.cur as int].span == SlotSpan::Armed(kind),
        after.slots@[after.cur as int].pass_spans == 0,
        after.slots@[after.cur as int].pending == before.slots@[before.cur as int].pending,
        after.slots@[after.cur as int].submission == before.slots@[before.cur as int].submission,
        0 <= other < before.slots@.len() && other != before.cur ==> after.slots@[other]
            == before.slots@[other],
{
}

/// Without a probe nothing is timed and nothing changes.
pub proof fn law_no_span_is_armed_without_a_probe(
    before: EncoderPools,
    after: EncoderPools,
    kind: SpanKind,
    arm: Option<SpanArm>,
)
    requires
        span_armed(before, after, None, kind, arm),
    ensures
        arm is None,
        after == before,
{
}

} // verus!
