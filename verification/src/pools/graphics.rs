//! The graphics state that a recording command buffer already carries, so that
//! a draw records only what changes it.

use crate::pools::fence::{count, counted, EngineCounters};
use crate::pools::memo::BoundBuffer;
use crate::vk::{Buffer, CommandBuffer, Pipeline, PipelineLayout};
use vstd::prelude::*;

verus! {

/// A viewport, as the bits of its six numbers.
#[derive(Clone, Copy, Debug, PartialEq, Eq, Structural)]
pub struct Viewport {
    /// Left edge.
    pub x: u32,
    /// Top edge.
    pub y: u32,
    /// Width.
    pub width: u32,
    /// Height.
    pub height: u32,
    /// Near depth.
    pub min_depth: u32,
    /// Far depth.
    pub max_depth: u32,
}

/// A rectangle of texels.
#[derive(Clone, Copy, Debug, PartialEq, Eq, Structural)]
pub struct Rect2D {
    /// Left edge.
    pub x: i32,
    /// Top edge.
    pub y: i32,
    /// Width.
    pub width: u32,
    /// Height.
    pub height: u32,
}

/// A depth bias, as the bits of its three numbers.
#[derive(Clone, Copy, Debug, PartialEq, Eq, Structural)]
pub struct DepthBias {
    /// The constant factor.
    pub constant_factor: u32,
    /// The slope factor.
    pub slope_factor: u32,
    /// The clamp.
    pub clamp: u32,
}

/// Blend constants, as the bits of the four numbers.
#[derive(Clone, Copy, Debug, PartialEq, Eq, Structural)]
pub struct BlendConstants {
    /// Red.
    pub r: u32,
    /// Green.
    pub g: u32,
    /// Blue.
    pub b: u32,
    /// Alpha.
    pub a: u32,
}

/// A pushed descriptor, normalised to words.
#[derive(Clone, Copy, Debug, PartialEq, Eq, Structural)]
pub struct PushDescriptorBinding {
    /// The binding.
    pub binding: u32,
    /// Its descriptor type.
    pub kind: u32,
    /// The object.
    pub handle: u64,
    /// Where its range begins, or its layout.
    pub offset: u64,
    /// The length of its range, or its sampler.
    pub range: u64,
}

/// A bound vertex buffer.
#[derive(Clone, Copy, Debug, PartialEq, Eq, Structural)]
pub struct VertexBufferBinding {
    /// The binding.
    pub binding: u32,
    /// The buffer.
    pub buffer: Buffer,
    /// Where its data begin.
    pub offset: u64,
}

/// Vertex buffers at consecutive bindings, to be bound by one call.
#[derive(Debug)]
pub struct VertexRun {
    /// The first binding.
    pub first_binding: u32,
    /// The buffers.
    pub buffers: Vec<Buffer>,
    /// Where the data of each begin.
    pub offsets: Vec<u64>,
}

/// The state that a command buffer carries.
#[derive(Debug)]
pub struct CbGraphicsState {
    /// The command buffer.
    pub cb: Option<CommandBuffer>,
    /// The pipeline.
    pub pipeline: Option<Pipeline>,
    /// Its layout.
    pub pipeline_layout: Option<PipelineLayout>,
    /// The viewports.
    pub viewports: Vec<Viewport>,
    /// The scissors.
    pub scissors: Vec<Rect2D>,
    /// The stencil references, front and back.
    pub stencil: Option<(u32, u32)>,
    /// The depth bias.
    pub depth_bias: Option<DepthBias>,
    /// The blend constants.
    pub blend_constants: Option<BlendConstants>,
    /// The layout that descriptors were pushed for.
    pub push_layout: Option<PipelineLayout>,
    /// The pushed descriptors.
    pub push_bindings: Vec<PushDescriptorBinding>,
    /// The vertex buffers.
    pub vertex_bindings: Vec<VertexBufferBinding>,
    /// Where the next draw builds its viewports.
    pub vp_scratch: Vec<Viewport>,
    /// Where the next draw builds its scissors.
    pub sc_scratch: Vec<Rect2D>,
    /// Where the next draw builds its pushed descriptors.
    pub push_scratch: Vec<PushDescriptorBinding>,
}

/// What is carried, without the scratch.
#[verifier::ext_equal]
pub struct GraphicsView {
    /// The command buffer.
    pub cb: Option<CommandBuffer>,
    /// The pipeline.
    pub pipeline: Option<Pipeline>,
    /// Its layout.
    pub pipeline_layout: Option<PipelineLayout>,
    /// The viewports.
    pub viewports: Seq<Viewport>,
    /// The scissors.
    pub scissors: Seq<Rect2D>,
    /// The stencil references.
    pub stencil: Option<(u32, u32)>,
    /// The depth bias.
    pub depth_bias: Option<DepthBias>,
    /// The blend constants.
    pub blend_constants: Option<BlendConstants>,
    /// The layout that descriptors were pushed for.
    pub push_layout: Option<PipelineLayout>,
    /// The pushed descriptors.
    pub push_bindings: Seq<PushDescriptorBinding>,
    /// The vertex buffers.
    pub vertex_bindings: Seq<VertexBufferBinding>,
}

impl View for CbGraphicsState {
    type V = GraphicsView;

    open spec fn view(&self) -> GraphicsView {
        GraphicsView {
            cb: self.cb,
            pipeline: self.pipeline,
            pipeline_layout: self.pipeline_layout,
            viewports: self.viewports@,
            scissors: self.scissors@,
            stencil: self.stencil,
            depth_bias: self.depth_bias,
            blend_constants: self.blend_constants,
            push_layout: self.push_layout,
            push_bindings: self.push_bindings@,
            vertex_bindings: self.vertex_bindings@,
        }
    }
}

impl GraphicsView {
    /// Nothing is carried, in `cb`.
    pub open spec fn nothing(cb: Option<CommandBuffer>) -> GraphicsView {
        GraphicsView {
            cb,
            pipeline: None,
            pipeline_layout: None,
            viewports: Seq::empty(),
            scissors: Seq::empty(),
            stencil: None,
            depth_bias: None,
            blend_constants: None,
            push_layout: None,
            push_bindings: Seq::empty(),
            vertex_bindings: Seq::empty(),
        }
    }

    /// What is carried in `cb`: nothing, where it is not the one remembered.
    pub open spec fn of(self, cb: CommandBuffer) -> GraphicsView {
        if self.cb == Some(cb) {
            self
        } else {
            Self::nothing(Some(cb))
        }
    }

    /// What is carried once another pipeline was bound: the dynamic state is
    /// no longer known, and pushed descriptors survive only in the same layout.
    pub open spec fn with_pipeline(self, pipeline: Pipeline, layout: PipelineLayout) -> GraphicsView {
        GraphicsView {
            pipeline: Some(pipeline),
            pipeline_layout: Some(layout),
            viewports: Seq::empty(),
            scissors: Seq::empty(),
            stencil: None,
            depth_bias: None,
            blend_constants: None,
            push_layout: if self.pipeline_layout == Some(layout) {
                self.push_layout
            } else {
                None
            },
            push_bindings: if self.pipeline_layout == Some(layout) {
                self.push_bindings
            } else {
                Seq::empty()
            },
            ..self
        }
    }
}

fn same_viewports(a: &Vec<Viewport>, b: &Vec<Viewport>) -> (same: bool)
    ensures
        same == (a@ == b@),
{
    if a.len() != b.len() {
        return false;
    }
    let mut k: usize = 0;
    while k < a.len()
        invariant
            a@.len() == b@.len(),
            k <= a@.len(),
            forall|j: int| 0 <= j < k ==> #[trigger] a@[j] == b@[j],
        decreases a@.len() - k,
    {
        if !(a[k] == b[k]) {
            assert(a@[k as int] != b@[k as int]);
            return false;
        }
        k += 1;
    }
    assert(a@ =~= b@);
    true
}

fn same_scissors(a: &Vec<Rect2D>, b: &Vec<Rect2D>) -> (same: bool)
    ensures
        same == (a@ == b@),
{
    if a.len() != b.len() {
        return false;
    }
    let mut k: usize = 0;
    while k < a.len()
        invariant
            a@.len() == b@.len(),
            k <= a@.len(),
            forall|j: int| 0 <= j < k ==> #[trigger] a@[j] == b@[j],
        decreases a@.len() - k,
    {
        if !(a[k] == b[k]) {
            assert(a@[k as int] != b@[k as int]);
            return false;
        }
        k += 1;
    }
    assert(a@ =~= b@);
    true
}

fn same_pushes(a: &Vec<PushDescriptorBinding>, b: &Vec<PushDescriptorBinding>) -> (same: bool)
    ensures
        same == (a@ == b@),
{
    if a.len() != b.len() {
        return false;
    }
    let mut k: usize = 0;
    while k < a.len()
        invariant
            a@.len() == b@.len(),
            k <= a@.len(),
            forall|j: int| 0 <= j < k ==> #[trigger] a@[j] == b@[j],
        decreases a@.len() - k,
    {
        if !(a[k] == b[k]) {
            assert(a@[k as int] != b@[k as int]);
            return false;
        }
        k += 1;
    }
    assert(a@ =~= b@);
    true
}

/// The vertex buffers that a draw asks for.
pub open spec fn requested_bindings(requested: Seq<(u32, BoundBuffer)>) -> Seq<VertexBufferBinding> {
    Seq::new(
        requested.len(),
        |k: int|
            VertexBufferBinding {
                binding: requested[k].0,
                buffer: requested[k].1.buffer,
                offset: requested[k].1.offset,
            },
    )
}

/// `bindings[start..end]` have consecutive binding numbers.
pub open spec fn consecutive(bindings: Seq<VertexBufferBinding>, start: int, end: int) -> bool {
    forall|j: int, k: int|
        start <= j <= k < end ==> (#[trigger] bindings[k]).binding == (
        #[trigger] bindings[j]).binding + (k - j)
}

/// The longest stretch of consecutive bindings from `start` ends at `end`.
pub open spec fn is_run(bindings: Seq<VertexBufferBinding>, start: int, end: int) -> bool {
    &&& 0 <= start < end <= bindings.len()
    &&& consecutive(bindings, start, end)
    &&& end < bindings.len() ==> bindings[end].binding != bindings[end - 1].binding + 1
}

fn vertex_binding_run_end(bindings: &Vec<VertexBufferBinding>, start: usize) -> (end: usize)
    requires
        start < bindings@.len(),
    ensures
        is_run(bindings@, start as int, end as int),
{
    let len: usize = bindings.len();
    let mut end: usize = start + 1;
    while end < len && bindings[end - 1].binding < u32::MAX && bindings[end].binding
        == bindings[end - 1].binding + 1
        invariant
            len == bindings@.len(),
            start < end <= bindings@.len(),
            consecutive(bindings@, start as int, end as int),
        decreases bindings@.len() - end,
    {
        end += 1;
    }
    end
}

/// The run binds `bindings[start..end]`.
pub open spec fn run_binds(
    run: VertexRun,
    bindings: Seq<VertexBufferBinding>,
    start: int,
    end: int,
) -> bool {
    &&& 0 <= start < end <= bindings.len()
    &&& run.first_binding == bindings[start].binding
    &&& run.buffers@ == Seq::new((end - start) as nat, |k: int| bindings[start + k].buffer)
    &&& run.offsets@ == Seq::new((end - start) as nat, |k: int| bindings[start + k].offset)
}

/// The runs bind `bindings` from `start` on, each as long as it can be.
pub open spec fn runs_bind(
    runs: Seq<VertexRun>,
    bindings: Seq<VertexBufferBinding>,
    start: int,
) -> bool
    decreases runs.len(),
{
    if runs.len() == 0 {
        start == bindings.len()
    } else {
        let end = start + runs[0].buffers@.len();
        &&& is_run(bindings, start, end)
        &&& run_binds(runs[0], bindings, start, end)
        &&& runs_bind(runs.drop_first(), bindings, end)
    }
}

impl CbGraphicsState {
    /// Nothing is carried.
    pub fn new() -> (state: CbGraphicsState)
        ensures
            state@ == GraphicsView::nothing(None),
            state.vp_scratch@ == Seq::<Viewport>::empty(),
            state.sc_scratch@ == Seq::<Rect2D>::empty(),
            state.push_scratch@ == Seq::<PushDescriptorBinding>::empty(),
    {
        CbGraphicsState {
            cb: None,
            pipeline: None,
            pipeline_layout: None,
            viewports: Vec::new(),
            scissors: Vec::new(),
            stencil: None,
            depth_bias: None,
            blend_constants: None,
            push_layout: None,
            push_bindings: Vec::new(),
            vertex_bindings: Vec::new(),
            vp_scratch: Vec::new(),
            sc_scratch: Vec::new(),
            push_scratch: Vec::new(),
        }
    }

    fn blank(&mut self, cb: Option<CommandBuffer>)
        ensures
            final(self)@ == GraphicsView::nothing(cb),
            final(self).vp_scratch == old(self).vp_scratch,
            final(self).sc_scratch == old(self).sc_scratch,
            final(self).push_scratch == old(self).push_scratch,
    {
        self.cb = cb;
        self.pipeline = None;
        self.pipeline_layout = None;
        self.viewports.clear();
        self.scissors.clear();
        self.stencil = None;
        self.depth_bias = None;
        self.blend_constants = None;
        self.push_layout = None;
        self.push_bindings.clear();
        self.vertex_bindings.clear();
    }

    /// Forget everything.
    pub fn forget(&mut self)
        ensures
            final(self)@ == GraphicsView::nothing(None),
            final(self).vp_scratch == old(self).vp_scratch,
            final(self).sc_scratch == old(self).sc_scratch,
            final(self).push_scratch == old(self).push_scratch,
    {
        self.blank(None);
    }

    /// Bind a pipeline in `cb`. Says whether the call has to be recorded.
    pub fn bind_graphics_pipeline(
        &mut self,
        counters: &mut EngineCounters,
        cb: CommandBuffer,
        pipeline: Pipeline,
        pipeline_layout: PipelineLayout,
    ) -> (record: bool)
        ensures
            record == (old(self)@.of(cb).pipeline != Some(pipeline)),
            final(self)@ == if record {
                old(self)@.of(cb).with_pipeline(pipeline, pipeline_layout)
            } else {
                old(self)@.of(cb)
            },
            final(self).cb == Some(cb),
            final(self).pipeline == Some(pipeline),
            record ==> {
                &&& final(self).pipeline_layout == Some(pipeline_layout)
                &&& final(self).viewports@.len() == 0
                &&& final(self).scissors@.len() == 0
                &&& final(self).stencil is None
                &&& final(self).depth_bias is None
                &&& final(self).blend_constants is None
            },
            old(self).cb != Some(cb) ==> {
                &&& record
                &&& final(self).push_layout is None
                &&& final(self).push_bindings@.len() == 0
                &&& final(self).vertex_bindings@.len() == 0
            },
            *final(counters) == (EngineCounters {
                dynstate_pipeline_held: if record {
                    old(counters).dynstate_pipeline_held
                } else {
                    counted(old(counters).dynstate_pipeline_held, 1)
                },
                ..*old(counters)
            }),
            final(self).vp_scratch == old(self).vp_scratch,
            final(self).sc_scratch == old(self).sc_scratch,
            final(self).push_scratch == old(self).push_scratch,
    {
        let same = match self.cb {
            Some(held) => held == cb,
            None => false,
        };
        if !same {
            self.blank(Some(cb));
        }
        if let Some(held) = self.pipeline {
            if held == pipeline {
                count(&mut counters.dynstate_pipeline_held, 1);
                return false;
            }
        }
        self.pipeline = Some(pipeline);
        let same_layout = match self.pipeline_layout {
            Some(held) => held == pipeline_layout,
            None => false,
        };
        if !same_layout {
            self.pipeline_layout = Some(pipeline_layout);
            self.push_layout = None;
            self.push_bindings.clear();
        }
        self.viewports.clear();
        self.scissors.clear();
        self.stencil = None;
        self.depth_bias = None;
        self.blend_constants = None;
        true
    }

    /// Begin the lists of viewports and scissors of a draw.
    pub fn dynamic_scratch(&mut self)
        ensures
            final(self)@ == old(self)@,
            final(self).vp_scratch@ == Seq::<Viewport>::empty(),
            final(self).sc_scratch@ == Seq::<Rect2D>::empty(),
            final(self).push_scratch == old(self).push_scratch,
    {
        self.vp_scratch.clear();
        self.sc_scratch.clear();
    }

    /// Carry the viewports and scissors in the scratch. Says which of the two
    /// have to be recorded.
    pub fn set_dynamic_viewport_scissor(&mut self, counters: &mut EngineCounters) -> (record: (
        bool,
        bool,
    ))
        ensures
            record.0 == (old(self).vp_scratch@ != old(self).viewports@),
            record.1 == (old(self).sc_scratch@ != old(self).scissors@),
            final(self)@ == (GraphicsView {
                viewports: old(self).vp_scratch@,
                scissors: old(self).sc_scratch@,
                ..old(self)@
            }),
            *final(counters) == (EngineCounters {
                dynstate_viewport_held: if record.0 {
                    old(counters).dynstate_viewport_held
                } else {
                    counted(old(counters).dynstate_viewport_held, 1)
                },
                dynstate_scissor_held: if record.1 {
                    old(counters).dynstate_scissor_held
                } else {
                    counted(old(counters).dynstate_scissor_held, 1)
                },
                ..*old(counters)
            }),
            final(self).push_scratch == old(self).push_scratch,
    {
        let viewports = !same_viewports(&self.vp_scratch, &self.viewports);
        if viewports {
            std::mem::swap(&mut self.viewports, &mut self.vp_scratch);
        } else {
            count(&mut counters.dynstate_viewport_held, 1);
        }
        let scissors = !same_scissors(&self.sc_scratch, &self.scissors);
        if scissors {
            std::mem::swap(&mut self.scissors, &mut self.sc_scratch);
        } else {
            count(&mut counters.dynstate_scissor_held, 1);
        }
        (viewports, scissors)
    }

    /// The scissors that are carried: those of the draw being recorded.
    pub fn bound_scissors(&self) -> (scissors: &Vec<Rect2D>)
        ensures
            scissors@ == self@.scissors,
    {
        &self.scissors
    }

    /// Carry the vertex buffers of a draw. Gives the calls to record: none
    /// where they are carried already, else the longest runs of consecutive
    /// bindings in their order.
    pub fn bind_vertex_buffers(
        &mut self,
        counters: &mut EngineCounters,
        requested: &[(u32, BoundBuffer)],
    ) -> (calls: Option<Vec<VertexRun>>)
        ensures
            final(self)@ == (GraphicsView {
                vertex_bindings: requested_bindings(requested@),
                ..old(self)@
            }),
            final(self).vp_scratch == old(self).vp_scratch,
            final(self).sc_scratch == old(self).sc_scratch,
            final(self).push_scratch == old(self).push_scratch,
            match calls {
                None => old(self)@.vertex_bindings == requested_bindings(requested@),
                Some(runs) => old(self)@.vertex_bindings != requested_bindings(requested@)
                    && runs_bind(runs@, requested_bindings(requested@), 0),
            },
            ({
                let asked = requested@.len() as u64;
                *final(counters) == match calls {
                    None => (EngineCounters {
                        vertex_buffer_bind_slots: counted(
                            old(counters).vertex_buffer_bind_slots,
                            asked,
                        ),
                        vertex_buffer_bind_held: counted(
                            old(counters).vertex_buffer_bind_held,
                            asked,
                        ),
                        ..*old(counters)
                    }),
                    Some(runs) => (EngineCounters {
                        vertex_buffer_bind_slots: counted(
                            old(counters).vertex_buffer_bind_slots,
                            asked,
                        ),
                        vertex_buffer_bind_emitted: counted(
                            old(counters).vertex_buffer_bind_emitted,
                            asked,
                        ),
                        vertex_buffer_bind_calls: counted(
                            old(counters).vertex_buffer_bind_calls,
                            runs@.len() as u64,
                        ),
                        ..*old(counters)
                    }),
                }
            }),
    {
        count(&mut counters.vertex_buffer_bind_slots, requested.len() as u64);
        let mut wanted: Vec<VertexBufferBinding> = Vec::new();
        let mut k: usize = 0;
        while k < requested.len()
            invariant
                k <= requested@.len(),
                wanted@ == requested_bindings(requested@).take(k as int),
            decreases requested@.len() - k,
        {
            let entry: (u32, BoundBuffer) = requested[k];
            wanted.push(
                VertexBufferBinding {
                    binding: entry.0,
                    buffer: entry.1.buffer,
                    offset: entry.1.offset,
                },
            );
            k += 1;
            assert(wanted@ =~= requested_bindings(requested@).take(k as int));
        }
        assert(wanted@ =~= requested_bindings(requested@));
        if same_bindings(&wanted, &self.vertex_bindings) {
            count(&mut counters.vertex_buffer_bind_held, requested.len() as u64);
            return None;
        }
        self.vertex_bindings = wanted;
        count(&mut counters.vertex_buffer_bind_emitted, self.vertex_bindings.len() as u64);
        let mut runs: Vec<VertexRun> = Vec::new();
        let ghost all = self.vertex_bindings@;
        let mut start: usize = 0;
        proof {
            lemma_prefix_start(all);
        }
        while start < self.vertex_bindings.len()
            invariant
                all == self.vertex_bindings@,
                start <= all.len(),
                prefix_binds(runs@, all, start as int),
            decreases all.len() - start,
        {
            let end: usize = vertex_binding_run_end(&self.vertex_bindings, start);
            let mut buffers: Vec<Buffer> = Vec::new();
            let mut offsets: Vec<u64> = Vec::new();
            let mut j: usize = start;
            while j < end
                invariant
                    all == self.vertex_bindings@,
                    start <= j <= end <= all.len(),
                    buffers@ == Seq::new((j - start) as nat, |k: int| all[start + k].buffer),
                    offsets@ == Seq::new((j - start) as nat, |k: int| all[start + k].offset),
                decreases end - j,
            {
                buffers.push(self.vertex_bindings[j].buffer);
                offsets.push(self.vertex_bindings[j].offset);
                j += 1;
                assert(buffers@ =~= Seq::new((j - start) as nat, |k: int| all[start + k].buffer));
                assert(offsets@ =~= Seq::new((j - start) as nat, |k: int| all[start + k].offset));
            }
            let ghost before = runs@;
            let run = VertexRun {
                first_binding: self.vertex_bindings[start].binding,
                buffers,
                offsets,
            };
            let ghost added = run;
            runs.push(run);
            proof {
                assert(runs@ =~= before.push(added));
                lemma_prefix_push(before, added, all, start as int, end as int);
            }
            start = end;
        }
        proof {
            lemma_prefix_all(runs@, all);
        }
        count(&mut counters.vertex_buffer_bind_calls, runs.len() as u64);
        Some(runs)
    }

    /// Begin the list of pushed descriptors of a draw.
    pub fn push_descriptor_scratch(&mut self)
        ensures
            final(self)@ == old(self)@,
            final(self).push_scratch@ == Seq::<PushDescriptorBinding>::empty(),
            final(self).vp_scratch == old(self).vp_scratch,
            final(self).sc_scratch == old(self).sc_scratch,
    {
        self.push_scratch.clear();
    }

    /// Carry the pushed descriptors in the scratch. Says whether they have to
    /// be recorded.
    pub fn push_descriptors_changed(
        &mut self,
        counters: &mut EngineCounters,
        layout: PipelineLayout,
    ) -> (changed: bool)
        ensures
            changed == !(old(self).push_layout == Some(layout) && old(self).push_scratch@ == old(
                self,
            ).push_bindings@),
            final(self)@ == (GraphicsView {
                push_layout: Some(layout),
                push_bindings: old(self).push_scratch@,
                ..old(self)@
            }),
            *final(counters) == (EngineCounters {
                descriptor_push_held: if changed {
                    old(counters).descriptor_push_held
                } else {
                    counted(old(counters).descriptor_push_held, 1)
                },
                ..*old(counters)
            }),
            final(self).vp_scratch == old(self).vp_scratch,
            final(self).sc_scratch == old(self).sc_scratch,
    {
        let same_layout = match self.push_layout {
            Some(held) => held == layout,
            None => false,
        };
        if same_layout && same_pushes(&self.push_scratch, &self.push_bindings) {
            count(&mut counters.descriptor_push_held, 1);
            false
        } else {
            self.push_layout = Some(layout);
            std::mem::swap(&mut self.push_bindings, &mut self.push_scratch);
            true
        }
    }

    /// Carry the stencil references. Says whether they have to be recorded.
    pub fn set_dynamic_stencil_reference(
        &mut self,
        counters: &mut EngineCounters,
        front: u32,
        back: u32,
    ) -> (record: bool)
        ensures
            record == (old(self).stencil != Some((front, back))),
            *final(self) == (CbGraphicsState { stencil: Some((front, back)), ..*old(self) }),
            *final(counters) == (EngineCounters {
                dynstate_stencil_held: if record {
                    old(counters).dynstate_stencil_held
                } else {
                    counted(old(counters).dynstate_stencil_held, 1)
                },
                ..*old(counters)
            }),
    {
        if let Some(held) = self.stencil {
            if held.0 == front && held.1 == back {
                count(&mut counters.dynstate_stencil_held, 1);
                return false;
            }
        }
        self.stencil = Some((front, back));
        true
    }

    /// Carry the depth bias. Says whether it has to be recorded.
    pub fn set_dynamic_depth_bias(
        &mut self,
        counters: &mut EngineCounters,
        bias: DepthBias,
    ) -> (record: bool)
        ensures
            record == (old(self).depth_bias != Some(bias)),
            *final(self) == (CbGraphicsState { depth_bias: Some(bias), ..*old(self) }),
            *final(counters) == (EngineCounters {
                dynstate_depth_bias_held: if record {
                    old(counters).dynstate_depth_bias_held
                } else {
                    counted(old(counters).dynstate_depth_bias_held, 1)
                },
                ..*old(counters)
            }),
    {
        if let Some(held) = self.depth_bias {
            if held == bias {
                count(&mut counters.dynstate_depth_bias_held, 1);
                return false;
            }
        }
        self.depth_bias = Some(bias);
        true
    }

    /// Carry the blend constants. Says whether they have to be recorded.
    pub fn set_dynamic_blend_constants(
        &mut self,
        counters: &mut EngineCounters,
        constants: BlendConstants,
    ) -> (record: bool)
        ensures
            record == (old(self).blend_constants != Some(constants)),
            *final(self) == (CbGraphicsState { blend_constants: Some(constants), ..*old(self) }),
            *final(counters) == (EngineCounters {
                dynstate_blend_constants_held: if record {
                    old(counters).dynstate_blend_constants_held
                } else {
                    counted(old(counters).dynstate_blend_constants_held, 1)
                },
                ..*old(counters)
            }),
    {
        if let Some(held) = self.blend_constants {
            if held == constants {
                count(&mut counters.dynstate_blend_constants_held, 1);
                return false;
            }
        }
        self.blend_constants = Some(constants);
        true
    }
}

fn same_bindings(a: &Vec<VertexBufferBinding>, b: &Vec<VertexBufferBinding>) -> (same: bool)
    ensures
        same == (a@ == b@),
{
    if a.len() != b.len() {
        return false;
    }
    let mut k: usize = 0;
    while k < a.len()
        invariant
            a@.len() == b@.len(),
            k <= a@.len(),
            forall|j: int| 0 <= j < k ==> #[trigger] a@[j] == b@[j],
        decreases a@.len() - k,
    {
        if !(a[k] == b[k]) {
            assert(a@[k as int] != b@[k as int]);
            return false;
        }
        k += 1;
    }
    assert(a@ =~= b@);
    true
}

/// The runs bind `bindings[..end]`, each as long as it can be.
spec fn prefix_binds(runs: Seq<VertexRun>, bindings: Seq<VertexBufferBinding>, end: int) -> bool
    decreases runs.len(),
{
    if runs.len() == 0 {
        end == 0
    } else {
        let start = end - runs.last().buffers@.len();
        &&& is_run(bindings, start, end)
        &&& run_binds(runs.last(), bindings, start, end)
        &&& prefix_binds(runs.drop_last(), bindings, start)
    }
}

proof fn lemma_prefix_start(bindings: Seq<VertexBufferBinding>)
    ensures
        prefix_binds(Seq::<VertexRun>::empty(), bindings, 0),
{
}

proof fn lemma_prefix_push(
    runs: Seq<VertexRun>,
    run: VertexRun,
    bindings: Seq<VertexBufferBinding>,
    start: int,
    end: int,
)
    requires
        prefix_binds(runs, bindings, start),
        is_run(bindings, start, end),
        run_binds(run, bindings, start, end),
    ensures
        prefix_binds(runs.push(run), bindings, end),
{
    assert(runs.push(run).drop_last() =~= runs);
}

/// Runs that bind a prefix, followed by runs that bind the rest, bind all.
proof fn lemma_prefix_then_rest(
    front: Seq<VertexRun>,
    rest: Seq<VertexRun>,
    bindings: Seq<VertexBufferBinding>,
    at: int,
)
    requires
        prefix_binds(front, bindings, at),
        runs_bind(rest, bindings, at),
    ensures
        runs_bind(front + rest, bindings, 0),
    decreases front.len(),
{
    if front.len() == 0 {
        assert(front + rest =~= rest);
    } else {
        let last = front.last();
        let start = at - last.buffers@.len();
        let longer = seq![last] + rest;
        assert(longer.drop_first() =~= rest);
        assert(runs_bind(longer, bindings, start));
        lemma_prefix_then_rest(front.drop_last(), longer, bindings, start);
        assert(front.drop_last() + longer =~= front + rest);
    }
}

proof fn lemma_prefix_all(runs: Seq<VertexRun>, bindings: Seq<VertexBufferBinding>)
    requires
        prefix_binds(runs, bindings, bindings.len() as int),
    ensures
        runs_bind(runs, bindings, 0),
{
    assert(runs_bind(Seq::<VertexRun>::empty(), bindings, bindings.len() as int));
    lemma_prefix_then_rest(runs, Seq::empty(), bindings, bindings.len() as int);
    assert(runs + Seq::<VertexRun>::empty() =~= runs);
}

/// A command buffer handle that was reset carries nothing of its last user.
pub proof fn law_recycled_handle_carries_nothing(state: GraphicsView, cb: CommandBuffer)
    requires
        state.cb != Some(cb),
    ensures
        state.of(cb) == GraphicsView::nothing(Some(cb)),
{
}

/// Another pipeline may have replaced any dynamic state, so none of it is known
/// once the pipeline is bound: whatever a draw sets next is recorded. What was
/// pushed survives only in the layout it was pushed for, and vertex buffers
/// stay bound.
pub proof fn law_another_pipeline_leaves_no_dynamic_state(
    state: GraphicsView,
    pipeline: Pipeline,
    layout: PipelineLayout,
)
    ensures
        ({
            let bound = state.with_pipeline(pipeline, layout);
            &&& bound.cb == state.cb
            &&& bound.pipeline == Some(pipeline)
            &&& bound.pipeline_layout == Some(layout)
            &&& bound.viewports.len() == 0
            &&& bound.scissors.len() == 0
            &&& bound.stencil is None
            &&& bound.depth_bias is None
            &&& bound.blend_constants is None
            &&& bound.vertex_bindings == state.vertex_bindings
            &&& state.pipeline_layout == Some(layout) ==> bound.push_layout == state.push_layout
                && bound.push_bindings == state.push_bindings
            &&& state.pipeline_layout != Some(layout) ==> bound.push_layout is None
                && bound.push_bindings.len() == 0
        }),
{
}

/// Where nothing is carried, whatever a draw asks for differs from it.
pub proof fn law_nothing_is_carried_in_a_fresh_buffer(cb: Option<CommandBuffer>)
    ensures
        ({
            let fresh = GraphicsView::nothing(cb);
            &&& fresh.cb == cb
            &&& fresh.pipeline is None
            &&& fresh.pipeline_layout is None
            &&& fresh.viewports.len() == 0
            &&& fresh.scissors.len() == 0
            &&& fresh.stencil is None
            &&& fresh.depth_bias is None
            &&& fresh.blend_constants is None
            &&& fresh.push_layout is None
            &&& fresh.push_bindings.len() == 0
            &&& fresh.vertex_bindings.len() == 0
        }),
{
}

/// A command buffer carries on what was recorded into it.
pub proof fn law_a_followed_buffer_keeps_its_state(state: GraphicsView, cb: CommandBuffer)
    ensures
        state.of(cb).cb == Some(cb),
        state.cb == Some(cb) ==> state.of(cb) == state,
        state.cb != Some(cb) ==> state.of(cb).pipeline is None && state.of(
            cb,
        ).vertex_bindings.len() == 0,
{
}

/// A vertex buffer is carried for each one asked for, in the same order, at its
/// binding and with its offset.
pub proof fn law_vertex_buffers_are_carried_as_asked(requested: Seq<(u32, BoundBuffer)>, k: int)
    requires
        0 <= k < requested.len(),
    ensures
        requested_bindings(requested).len() == requested.len(),
        requested_bindings(requested)[k].binding == requested[k].0,
        requested_bindings(requested)[k].buffer == requested[k].1.buffer,
        requested_bindings(requested)[k].offset == requested[k].1.offset,
{
}

/// How many vertex buffers the first `count` runs bind.
pub open spec fn bound_by_first(runs: Seq<VertexRun>, count: int) -> int
    decreases count,
{
    if count <= 0 {
        0
    } else {
        bound_by_first(runs, count - 1) + runs[count - 1].buffers@.len()
    }
}

/// The runs bind every vertex buffer once and nothing else: the buffer and
/// offset of each go to the binding it was asked for at. No two neighbouring
/// runs could have been one.
pub proof fn law_runs_bind_every_vertex_buffer_once(
    runs: Seq<VertexRun>,
    bindings: Seq<VertexBufferBinding>,
    at: int,
)
    requires
        runs_bind(runs, bindings, 0),
        0 <= at < runs.len(),
    ensures
        bound_by_first(runs, runs.len() as int) == bindings.len(),
        runs[at].buffers@.len() > 0,
        runs[at].offsets@.len() == runs[at].buffers@.len(),
        bound_by_first(runs, at) + runs[at].buffers@.len() <= bindings.len(),
        forall|j: int|
            #![trigger runs[at].buffers@[j]]
            0 <= j < runs[at].buffers@.len() ==> {
                let one = bindings[bound_by_first(runs, at) + j];
                &&& one.binding == runs[at].first_binding + j
                &&& one.buffer == runs[at].buffers@[j]
                &&& one.offset == runs[at].offsets@[j]
            },
        at + 1 < runs.len() ==> runs[at + 1].first_binding != runs[at].first_binding
            + runs[at].buffers@.len(),
{
    lemma_runs_reach(runs, bindings, 0);
    lemma_runs_from(runs, bindings, at);
    let start = bound_by_first(runs, at);
    let end = start + runs[at].buffers@.len();
    assert(runs.skip(at)[0] == runs[at]);
    assert(is_run(bindings, start, end) && run_binds(runs[at], bindings, start, end));
    lemma_run_binds_its_stretch(runs[at], bindings, start, end);
    if at + 1 < runs.len() {
        lemma_runs_from(runs, bindings, at + 1);
        assert(runs.skip(at + 1)[0] == runs[at + 1]);
        assert(bound_by_first(runs, at + 1) == end);
        assert(runs[at + 1].first_binding == bindings[end].binding);
        assert(bindings[end - 1].binding == bindings[start].binding + (end - 1 - start));
    }
}

proof fn lemma_run_binds_its_stretch(
    run: VertexRun,
    bindings: Seq<VertexBufferBinding>,
    start: int,
    end: int,
)
    requires
        is_run(bindings, start, end),
        run_binds(run, bindings, start, end),
    ensures
        run.buffers@.len() == end - start,
        run.offsets@.len() == end - start,
        forall|j: int|
            #![trigger run.buffers@[j]]
            0 <= j < run.buffers@.len() ==> {
                let one = bindings[start + j];
                &&& one.binding == run.first_binding + j
                &&& one.buffer == run.buffers@[j]
                &&& one.offset == run.offsets@[j]
            },
{
    assert forall|j: int|
        #![trigger run.buffers@[j]]
        0 <= j < run.buffers@.len() implies ({
        let one = bindings[start + j];
        &&& one.binding == run.first_binding + j
        &&& one.buffer == run.buffers@[j]
        &&& one.offset == run.offsets@[j]
    }) by {
        assert(bindings[start + j].binding == bindings[start].binding + j);
    }
}

proof fn lemma_runs_reach(runs: Seq<VertexRun>, bindings: Seq<VertexBufferBinding>, start: int)
    requires
        runs_bind(runs, bindings, start),
    ensures
        start + bound_by_first(runs, runs.len() as int) == bindings.len(),
    decreases runs.len(),
{
    if runs.len() > 0 {
        let end = start + runs[0].buffers@.len();
        lemma_runs_reach(runs.drop_first(), bindings, end);
        lemma_bound_by_rest(runs, runs.len() as int);
    }
}

proof fn lemma_bound_by_rest(runs: Seq<VertexRun>, count: int)
    requires
        0 < count <= runs.len(),
    ensures
        bound_by_first(runs, count) == runs[0].buffers@.len() + bound_by_first(
            runs.drop_first(),
            count - 1,
        ),
    decreases count,
{
    if count > 1 {
        lemma_bound_by_rest(runs, count - 1);
        assert(runs.drop_first()[count - 2] == runs[count - 1]);
    } else {
        assert(bound_by_first(runs, 0) == 0);
        assert(bound_by_first(runs.drop_first(), 0) == 0);
    }
}

proof fn lemma_runs_from(runs: Seq<VertexRun>, bindings: Seq<VertexBufferBinding>, at: int)
    requires
        runs_bind(runs, bindings, 0),
        0 <= at <= runs.len(),
    ensures
        runs_bind(runs.skip(at), bindings, bound_by_first(runs, at)),
    decreases at,
{
    if at == 0 {
        assert(runs.skip(0) =~= runs);
    } else {
        lemma_runs_from(runs, bindings, at - 1);
        let before = runs.skip(at - 1);
        assert(before.drop_first() =~= runs.skip(at));
        assert(before[0] == runs[at - 1]);
    }
}

} // verus!
