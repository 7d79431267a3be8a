//! Which memory dependency on imported guest pages a command buffer still
//! owes.

use crate::vk::CommandBuffer;
use vstd::prelude::*;

verus! {

/// What an imported read depends on.
#[derive(Clone, Copy, Debug, PartialEq, Eq, Structural)]
pub enum ImportedGuestVisibility {
    /// Writes of the guest's processors.
    HostOnly,
    /// Those, and writes that the GPU made to the same pages.
    GpuOverlap,
}

impl ImportedGuestVisibility {
    /// Whether writes of the GPU are among them.
    pub open spec fn gpu(self) -> bool {
        self is GpuOverlap
    }

    /// Whether writes of the GPU are among them.
    pub fn includes_gpu_writes(self) -> (gpu: bool)
        ensures
            gpu == self.gpu(),
    {
        match self {
            ImportedGuestVisibility::HostOnly => false,
            ImportedGuestVisibility::GpuOverlap => true,
        }
    }
}

/// What one command buffer has already made visible.
#[derive(Clone, Copy, Debug, PartialEq, Eq, Structural)]
pub struct CbGuestVisibility {
    /// The command buffer.
    pub cb: Option<CommandBuffer>,
    /// Whether the guest's writes are visible in this operation.
    pub host_visible: bool,
    /// Whether the GPU wrote guest pages since its writes were made visible.
    pub gpu_write_since_barrier: bool,
}

impl CbGuestVisibility {
    /// Nothing is known.
    pub open spec fn nothing() -> CbGuestVisibility {
        CbGuestVisibility { cb: None, host_visible: false, gpu_write_since_barrier: false }
    }

    /// What is known of `cb`: nothing, where it is not the one remembered.
    pub open spec fn of(self, cb: CommandBuffer) -> CbGuestVisibility {
        if self.cb == Some(cb) {
            self
        } else {
            CbGuestVisibility {
                cb: Some(cb),
                host_visible: false,
                gpu_write_since_barrier: false,
            }
        }
    }

    /// No dependency is owed, whatever the read is.
    pub open spec fn covered(self) -> bool {
        self.host_visible && !self.gpu_write_since_barrier
    }

    /// A dependency is owed for a read that depends as told.
    pub open spec fn owes(self, visibility: ImportedGuestVisibility) -> bool {
        !self.host_visible || (visibility.gpu() && self.gpu_write_since_barrier)
    }

    /// What is known once an owed dependency was recorded.
    pub open spec fn after(self, visibility: ImportedGuestVisibility) -> CbGuestVisibility {
        CbGuestVisibility {
            host_visible: true,
            gpu_write_since_barrier: self.gpu_write_since_barrier && !visibility.gpu(),
            ..self
        }
    }

    /// Nothing is known.
    pub fn new() -> (state: CbGuestVisibility)
        ensures
            state == Self::nothing(),
    {
        CbGuestVisibility { cb: None, host_visible: false, gpu_write_since_barrier: false }
    }

    fn follow(&mut self, cb: CommandBuffer)
        ensures
            *final(self) == old(self).of(cb),
    {
        let same = match self.cb {
            Some(held) => held == cb,
            None => false,
        };
        if !same {
            *self = CbGuestVisibility {
                cb: Some(cb),
                host_visible: false,
                gpu_write_since_barrier: false,
            };
        }
    }

    /// The dependency that the next imported read in `cb` owes, if it owes one.
    /// `classify` says what the read depends on; it is asked only where that
    /// matters.
    pub fn barrier<F: FnOnce() -> ImportedGuestVisibility>(
        &mut self,
        cb: CommandBuffer,
        classify: F,
    ) -> (owed: Option<ImportedGuestVisibility>)
        requires
            !old(self).of(cb).covered() ==> classify.requires(()),
        ensures
            old(self).of(cb).covered() ==> owed is None && *final(self) == old(self).of(cb),
            !old(self).of(cb).covered() ==> exists|visibility: ImportedGuestVisibility| #[trigger]
                classify.ensures((), visibility) && if old(self).of(cb).owes(visibility) {
                    owed == Some(visibility) && *final(self) == old(self).of(cb).after(visibility)
                } else {
                    owed is None && *final(self) == old(self).of(cb)
                },
    {
        self.follow(cb);
        if self.host_visible && !self.gpu_write_since_barrier {
            return None;
        }
        let visibility = classify();
        let gpu = visibility.includes_gpu_writes();
        if !self.host_visible || (gpu && self.gpu_write_since_barrier) {
            self.host_visible = true;
            if gpu {
                self.gpu_write_since_barrier = false;
            }
            Some(visibility)
        } else {
            None
        }
    }

    /// Begin one operation of the guest in `cb`: the guest may have written
    /// since, so its writes are to be made visible again. Writes of the GPU
    /// stay owed.
    pub fn begin_operation(&mut self, cb: CommandBuffer)
        ensures
            *final(self) == (CbGuestVisibility { host_visible: false, ..old(self).of(cb) }),
    {
        self.follow(cb);
        self.host_visible = false;
    }

    /// Whether a record of a render encoder begins an operation: the first one
    /// does, and so does one that moved to another command buffer.
    pub fn begins_operation(&self, cb: CommandBuffer, continues_render_encoder: bool) -> (begins:
        bool)
        ensures
            begins == (!continues_render_encoder || self.cb != Some(cb)),
    {
        let same = match self.cb {
            Some(held) => held == cb,
            None => false,
        };
        !continues_render_encoder || !same
    }

    /// The GPU wrote guest pages.
    pub fn note_write(&mut self)
        ensures
            *final(self) == (CbGuestVisibility { gpu_write_since_barrier: true, ..*old(self) }),
    {
        self.gpu_write_since_barrier = true;
    }
}

/// One dependency covers one operation: until the GPU writes or an operation
/// begins, no later read in the command buffer owes another.
pub proof fn law_one_dependency_covers_an_operation(
    state: CbGuestVisibility,
    cb: CommandBuffer,
    first: ImportedGuestVisibility,
)
    requires
        state.of(cb).owes(first),
        !state.of(cb).gpu_write_since_barrier || first.gpu(),
    ensures
        state.of(cb).after(first).of(cb).covered(),
{
}

/// An operation boundary makes the guest's writes owed again and forgets no
/// write of the GPU.
pub proof fn law_operation_boundary_keeps_gpu_debt(
    state: CbGuestVisibility,
    visibility: ImportedGuestVisibility,
)
    ensures
        ({
            let begun = CbGuestVisibility { host_visible: false, ..state };
            &&& begun.owes(visibility)
            &&& begun.gpu_write_since_barrier == state.gpu_write_since_barrier
        }),
{
}

/// A GPU write to other pages leaves a read that depends on the guest alone
/// covered, and makes one that depends on the GPU owe.
pub proof fn law_disjoint_gpu_write_keeps_host_visibility(state: CbGuestVisibility)
    requires
        state.host_visible,
    ensures
        ({
            let written = CbGuestVisibility { gpu_write_since_barrier: true, ..state };
            &&& !written.owes(ImportedGuestVisibility::HostOnly)
            &&& written.owes(ImportedGuestVisibility::GpuOverlap)
        }),
{
}

/// A dependency pays for what it covers and for nothing else: every one makes
/// the guest's writes visible, and only one that covers the GPU's writes ends
/// their debt.
pub proof fn law_a_dependency_pays_only_for_what_it_covers(state: CbGuestVisibility)
    ensures
        state.after(ImportedGuestVisibility::HostOnly) == (CbGuestVisibility {
            cb: state.cb,
            host_visible: true,
            gpu_write_since_barrier: state.gpu_write_since_barrier,
        }),
        state.after(ImportedGuestVisibility::GpuOverlap) == (CbGuestVisibility {
            cb: state.cb,
            host_visible: true,
            gpu_write_since_barrier: false,
        }),
        state.gpu_write_since_barrier ==> state.after(ImportedGuestVisibility::HostOnly).owes(
            ImportedGuestVisibility::GpuOverlap,
        ),
{
}

/// A read of what the guest alone wrote owes a dependency until the guest's
/// writes are visible; one of what the GPU wrote owes it until those are too. A
/// command buffer is covered where neither read would owe one.
pub proof fn law_a_read_owes_what_is_not_visible(state: CbGuestVisibility)
    ensures
        state.owes(ImportedGuestVisibility::HostOnly) <==> !state.host_visible,
        state.owes(ImportedGuestVisibility::GpuOverlap) <==> !state.host_visible
            || state.gpu_write_since_barrier,
        state.covered() <==> state.host_visible && !state.gpu_write_since_barrier,
        state.covered() <==> !state.owes(ImportedGuestVisibility::HostOnly) && !state.owes(
            ImportedGuestVisibility::GpuOverlap,
        ),
{
}

/// What is known of one command buffer says nothing of another: there the
/// guest's writes are still to be made visible, and the GPU wrote nothing yet.
pub proof fn law_command_buffers_owe_apart(
    state: CbGuestVisibility,
    cb: CommandBuffer,
    visibility: ImportedGuestVisibility,
)
    ensures
        state.of(cb).cb == Some(cb),
        state.cb == Some(cb) ==> state.of(cb) == state,
        state.cb != Some(cb) ==> state.of(cb).owes(visibility) && !state.of(
            cb,
        ).gpu_write_since_barrier,
        CbGuestVisibility::nothing().of(cb).owes(visibility),
        CbGuestVisibility::nothing().cb is None,
{
}

/// What happens in one command buffer.
pub enum GuestStep {
    /// An operation of the guest begins.
    Operation,
    /// The GPU writes guest pages.
    Write,
    /// Imported pages are read that depend as told.
    Read(ImportedGuestVisibility),
}

/// What is known after a step in the command buffer that is followed.
pub open spec fn after_step(state: CbGuestVisibility, step: GuestStep) -> CbGuestVisibility {
    match step {
        GuestStep::Operation => CbGuestVisibility { host_visible: false, ..state },
        GuestStep::Write => CbGuestVisibility { gpu_write_since_barrier: true, ..state },
        GuestStep::Read(visibility) => if state.owes(visibility) {
            state.after(visibility)
        } else {
            state
        },
    }
}

/// What is known after a run of steps.
pub open spec fn after_steps(state: CbGuestVisibility, steps: Seq<GuestStep>) -> CbGuestVisibility
    decreases steps.len(),
{
    if steps.len() == 0 {
        state
    } else {
        after_step(after_steps(state, steps.drop_last()), steps.last())
    }
}

/// Once the GPU has written, the next read of what it wrote is given a
/// dependency, whatever other reads and operations lie between.
pub proof fn law_every_gpu_write_is_made_visible_before_it_is_read(
    state: CbGuestVisibility,
    between: Seq<GuestStep>,
)
    requires
        forall|k: int|
            0 <= k < between.len() ==> #[trigger] between[k] != GuestStep::Read(
                ImportedGuestVisibility::GpuOverlap,
            ),
    ensures
        ({
            let written = after_step(state, GuestStep::Write);
            let reached = after_steps(written, between);
            &&& reached.owes(ImportedGuestVisibility::GpuOverlap)
            &&& !after_step(
                reached,
                GuestStep::Read(ImportedGuestVisibility::GpuOverlap),
            ).owes(ImportedGuestVisibility::GpuOverlap)
        }),
{
    lemma_gpu_debt_stays(after_step(state, GuestStep::Write), between);
}

proof fn lemma_gpu_debt_stays(state: CbGuestVisibility, steps: Seq<GuestStep>)
    requires
        state.gpu_write_since_barrier,
        forall|k: int|
            0 <= k < steps.len() ==> #[trigger] steps[k] != GuestStep::Read(
                ImportedGuestVisibility::GpuOverlap,
            ),
    ensures
        after_steps(state, steps).gpu_write_since_barrier,
    decreases steps.len(),
{
    if steps.len() > 0 {
        assert(steps.last() == steps[steps.len() - 1]);
        assert forall|k: int| 0 <= k < steps.drop_last().len() implies #[trigger] steps.drop_last()[k]
            != GuestStep::Read(ImportedGuestVisibility::GpuOverlap) by {
            assert(steps.drop_last()[k] == steps[k]);
        }
        lemma_gpu_debt_stays(state, steps.drop_last());
    }
}

/// Every operation has the guest's writes made visible once: its first read is
/// given a dependency, and no later read of them is until another operation
/// begins.
pub proof fn law_the_guests_writes_are_made_visible_once_an_operation(
    state: CbGuestVisibility,
    first: ImportedGuestVisibility,
    later: Seq<GuestStep>,
)
    requires
        forall|k: int| 0 <= k < later.len() ==> !(#[trigger] later[k] is Operation),
    ensures
        ({
            let begun = after_step(state, GuestStep::Operation);
            &&& begun.owes(first)
            &&& !after_steps(after_step(begun, GuestStep::Read(first)), later).owes(
                ImportedGuestVisibility::HostOnly,
            )
        }),
{
    let read = after_step(after_step(state, GuestStep::Operation), GuestStep::Read(first));
    lemma_host_visibility_stays(read, later);
}

proof fn lemma_host_visibility_stays(state: CbGuestVisibility, steps: Seq<GuestStep>)
    requires
        state.host_visible,
        forall|k: int| 0 <= k < steps.len() ==> !(#[trigger] steps[k] is Operation),
    ensures
        after_steps(state, steps).host_visible,
    decreases steps.len(),
{
    if steps.len() > 0 {
        assert(steps.last() == steps[steps.len() - 1]);
        assert forall|k: int| 0 <= k < steps.drop_last().len() implies !(
        #[trigger] steps.drop_last()[k] is Operation) by {
            assert(steps.drop_last()[k] == steps[k]);
        }
        lemma_host_visibility_stays(state, steps.drop_last());
    }
}

/// Where nothing was recorded, nothing is visible and nothing was written: the first read owes
/// a barrier, and one of the host's writes alone pays for it.
pub proof fn law_nothing_recorded_owes_the_first_barrier(first: ImportedGuestVisibility)
    ensures
        CbGuestVisibility::nothing().cb is None,
        !CbGuestVisibility::nothing().host_visible,
        !CbGuestVisibility::nothing().gpu_write_since_barrier,
        CbGuestVisibility::nothing().owes(first),
        !CbGuestVisibility::nothing().after(ImportedGuestVisibility::HostOnly).owes(first),
{
}

} // verus!
