//! The command dispatcher: applies draw commands in order, keeps the render
//! target cache and the matrix table up to date, and says for each command
//! what the GPU has to do.

use crate::cache::{
    distinct_addresses,
    has_address,
    position_of,
    with_target,
    RenderTarget,
    TargetCache,
    TextureSize,
};
use crate::command::{DrawEntry, RenderCommand, RenderPass, Viewport, NO_TARGET};
use crate::matrix::{
    identity,
    identity_matrix,
    is_zero_matrix,
    pack_matrices,
    packed_words,
    written,
    Matrix,
    MatrixTable,
    MvpPacked,
    MATRIX_SLOTS,
    MATRIX_STRIDE,
};
use crate::vertex::{pack_vertices, vertex_words, INDEX_CAPACITY, VERTEX_CAPACITY};
use std::collections::VecDeque;
use vstd::prelude::*;

verus! {

/// One of the three buffers that commands write.
#[derive(Clone, Copy, Debug, PartialEq, Eq)]
pub enum BufferKind {
    Vertex,
    Index,
    Matrix,
}

/// Why a render pass was not drawn.
#[derive(Clone, Copy, Debug, PartialEq, Eq)]
pub enum PassSkip {
    /// No cached color target has the pass's address.
    NoColorTarget,
    /// A write of this frame was rejected, so the frame is not drawn.
    FrameRejected,
}

/// One indexed draw: the byte offset at which the matrix table is bound, and
/// the indices `[first_index, end_index)`.
#[derive(Clone, Copy, Debug, PartialEq, Eq)]
pub struct DrawCall {
    pub matrix_offset: u32,
    pub first_index: u32,
    pub end_index: u32,
}

/// The depth target of a pass, by its index in the depth cache. Where
/// `clear` is set, depth is cleared to the far value, else kept.
#[derive(Clone, Copy, Debug, PartialEq, Eq)]
pub struct DepthAttachment {
    pub index: usize,
    pub clear: bool,
}

/// A render pass, ready to be encoded.
#[derive(Clone, Debug, PartialEq, Eq)]
pub struct PassPlan {
    /// Index of the color target in the color cache.
    pub color_index: usize,
    /// The color to clear to; `None` keeps what the target holds.
    pub clear_color: Option<[u32; 4]>,
    /// The depth target. With one the depth-testing pipeline draws, without
    /// one the pipeline that knows no depth.
    pub depth: Option<DepthAttachment>,
    /// The viewport in force.
    pub viewport: Option<Viewport>,
    /// The draws, in the order of the pass's draw list.
    pub draws: Vec<DrawCall>,
    /// How many entries of the draw list were left out as invalid.
    pub failed_draws: usize,
}

/// What a `PassPlan` holds.
pub struct PassPlanView {
    pub color_index: usize,
    pub clear_color: Option<[u32; 4]>,
    pub depth: Option<DepthAttachment>,
    pub viewport: Option<Viewport>,
    pub draws: Seq<DrawCall>,
    pub failed_draws: usize,
}

impl View for PassPlan {
    type V = PassPlanView;

    open spec fn view(&self) -> PassPlanView {
        PassPlanView {
            color_index: self.color_index,
            clear_color: self.clear_color,
            depth: self.depth,
            viewport: self.viewport,
            draws: self.draws@,
            failed_draws: self.failed_draws,
        }
    }
}

/// What the GPU side has to do for one command.
#[derive(Clone, Debug, PartialEq, Eq)]
pub enum Effect {
    /// Nothing: the command only changed the dispatcher's state, or changed
    /// nothing at all.
    Nothing,
    /// Create the color target that the cache now holds at `index`.
    CreateColorTarget { index: usize, target: RenderTarget },
    /// Create the depth target that the cache now holds at `index`.
    CreateDepthTarget { index: usize, target: RenderTarget },
    /// Overwrite the vertex buffer from its start with these words.
    WriteVertices(Vec<u32>),
    /// Overwrite the index buffer from its start with these indices.
    WriteIndices(Vec<u16>),
    /// Overwrite the matrix table from slot 0 with these words.
    WriteMatrices(Vec<u32>),
    /// A write was larger than its buffer and was dropped.
    WriteRejected(BufferKind),
    /// Encode and submit this render pass.
    Draw(PassPlan),
    /// A render pass was dropped.
    PassSkipped(PassSkip),
    /// The frame is complete: notify whoever raises the frame interrupt.
    FrameComplete,
}

/// What an `Effect` holds.
pub enum EffectView {
    Nothing,
    CreateColorTarget { index: usize, target: RenderTarget },
    CreateDepthTarget { index: usize, target: RenderTarget },
    WriteVertices(Seq<u32>),
    WriteIndices(Seq<u16>),
    WriteMatrices(Seq<u32>),
    WriteRejected(BufferKind),
    Draw(PassPlanView),
    PassSkipped(PassSkip),
    FrameComplete,
}

impl View for Effect {
    type V = EffectView;

    open spec fn view(&self) -> EffectView {
        match *self {
            Effect::Nothing => EffectView::Nothing,
            Effect::CreateColorTarget { index, target } => EffectView::CreateColorTarget {
                index,
                target,
            },
            Effect::CreateDepthTarget { index, target } => EffectView::CreateDepthTarget {
                index,
                target,
            },
            Effect::WriteVertices(words) => EffectView::WriteVertices(words@),
            Effect::WriteIndices(indices) => EffectView::WriteIndices(indices@),
            Effect::WriteMatrices(words) => EffectView::WriteMatrices(words@),
            Effect::WriteRejected(buffer) => EffectView::WriteRejected(buffer),
            Effect::Draw(plan) => EffectView::Draw(plan@),
            Effect::PassSkipped(why) => EffectView::PassSkipped(why),
            Effect::FrameComplete => EffectView::FrameComplete,
        }
    }
}

/// The views of a run of effects.
pub open spec fn effect_views(effects: Seq<Effect>) -> Seq<EffectView> {
    Seq::new(effects.len(), |i: int| effects[i]@)
}

/// The dispatcher's state.
pub struct DispatcherView {
    /// The color targets in creation order.
    pub colors: Seq<RenderTarget>,
    /// The depth targets in creation order.
    pub depths: Seq<RenderTarget>,
    /// The viewport of the last viewport command of this frame.
    pub viewport: Option<Viewport>,
    /// The model-view transform of this frame.
    pub modelview: Matrix,
    /// The projection of this frame.
    pub projection: Matrix,
    /// The transform in each slot of the matrix table.
    pub matrices: Seq<Matrix>,
    /// A write of this frame was rejected.
    pub rejected: bool,
}

impl DispatcherView {
    /// No address is cached twice and the table has all its slots.
    pub open spec fn wf(self) -> bool {
        &&& distinct_addresses(self.colors)
        &&& distinct_addresses(self.depths)
        &&& self.matrices.len() == MATRIX_SLOTS
    }
}

/// A draw entry can be drawn: its matrix slot is in the table and its
/// indices lie within the index buffer.
pub open spec fn entry_valid(entry: DrawEntry) -> bool {
    &&& entry.matrix_index < MATRIX_SLOTS
    &&& entry.start_index + entry.num_indices <= INDEX_CAPACITY
}

/// The draw that a valid entry stands for.
pub open spec fn draw_call(entry: DrawEntry) -> DrawCall {
    DrawCall {
        matrix_offset: (entry.matrix_index * MATRIX_STRIDE) as u32,
        first_index: entry.start_index,
        end_index: (entry.start_index + entry.num_indices) as u32,
    }
}

/// The draws of a draw list: one for each valid entry, in the list's order.
pub open spec fn planned_draws(entries: Seq<DrawEntry>) -> Seq<DrawCall>
    decreases entries.len(),
{
    if entries.len() == 0 {
        Seq::empty()
    } else {
        let before = planned_draws(entries.drop_last());
        if entry_valid(entries.last()) {
            before.push(draw_call(entries.last()))
        } else {
            before
        }
    }
}

/// The address that a pass names, or `NO_TARGET`.
pub open spec fn named_target(buffer: Option<u32>) -> u32 {
    match buffer {
        Some(address) => address,
        None => NO_TARGET,
    }
}

/// What a render pass comes to in `state`.
pub open spec fn pass_effect(state: DispatcherView, pass: RenderPass) -> EffectView {
    let color = named_target(pass.color_buffer);
    let depth = named_target(pass.depth_buffer);
    if state.rejected {
        EffectView::PassSkipped(PassSkip::FrameRejected)
    } else if !has_address(state.colors, color) {
        EffectView::PassSkipped(PassSkip::NoColorTarget)
    } else {
        EffectView::Draw(
            PassPlanView {
                color_index: position_of(state.colors, color) as usize,
                clear_color: pass.clear_color,
                depth: if has_address(state.depths, depth) {
                    Some(
                        DepthAttachment {
                            index: position_of(state.depths, depth) as usize,
                            clear: pass.clear_depth,
                        },
                    )
                } else {
                    None
                },
                viewport: state.viewport,
                draws: planned_draws(pass.draw_list@),
                failed_draws: (pass.draw_list@.len() - planned_draws(
                    pass.draw_list@,
                ).len()) as usize,
            },
        )
    }
}

/// The state after `command` and what the GPU has to do for it. `surface` is
/// the size of the display surface when the command is applied.
pub open spec fn step(state: DispatcherView, command: RenderCommand, surface: TextureSize) -> (
    DispatcherView,
    EffectView,
) {
    match command {
        RenderCommand::DefineColorImage { framebuffer_address } => {
            let target = RenderTarget {
                address: framebuffer_address,
                width: surface.width,
                height: surface.height,
            };
            (
                DispatcherView { colors: with_target(state.colors, target), ..state },
                if has_address(state.colors, framebuffer_address) {
                    EffectView::Nothing
                } else {
                    EffectView::CreateColorTarget { index: state.colors.len() as usize, target }
                },
            )
        },
        RenderCommand::DefineDepthImage { framebuffer_address } => {
            let target = RenderTarget {
                address: framebuffer_address,
                width: surface.width,
                height: surface.height,
            };
            (
                DispatcherView { depths: with_target(state.depths, target), ..state },
                if has_address(state.depths, framebuffer_address) {
                    EffectView::Nothing
                } else {
                    EffectView::CreateDepthTarget { index: state.depths.len() as usize, target }
                },
            )
        },
        RenderCommand::Viewport(viewport) => (
            DispatcherView { viewport: Some(viewport), ..state },
            EffectView::Nothing,
        ),
        RenderCommand::VertexData(vertices) => {
            if vertices@.len() <= VERTEX_CAPACITY {
                (state, EffectView::WriteVertices(vertex_words(vertices@)))
            } else {
                (
                    DispatcherView { rejected: true, ..state },
                    EffectView::WriteRejected(BufferKind::Vertex),
                )
            }
        },
        RenderCommand::IndexData(indices) => {
            if indices@.len() <= INDEX_CAPACITY {
                (state, EffectView::WriteIndices(indices@))
            } else {
                (
                    DispatcherView { rejected: true, ..state },
                    EffectView::WriteRejected(BufferKind::Index),
                )
            }
        },
        RenderCommand::MatrixData(matrices) => {
            if matrices@.len() <= MATRIX_SLOTS {
                (
                    DispatcherView { matrices: written(state.matrices, 0, matrices@), ..state },
                    EffectView::WriteMatrices(packed_words(matrices@)),
                )
            } else {
                (
                    DispatcherView { rejected: true, ..state },
                    EffectView::WriteRejected(BufferKind::Matrix),
                )
            }
        },
        RenderCommand::RenderPass(pass) => (state, pass_effect(state, pass)),
        RenderCommand::Sync => (
            DispatcherView {
                viewport: None,
                modelview: identity(),
                projection: identity(),
                rejected: false,
                ..state
            },
            EffectView::FrameComplete,
        ),
        RenderCommand::Noop => (state, EffectView::Nothing),
    }
}

/// The state after a run of commands, and their effects in order.
pub open spec fn run(state: DispatcherView, commands: Seq<RenderCommand>, surface: TextureSize) -> (
    DispatcherView,
    Seq<EffectView>,
)
    decreases commands.len(),
{
    if commands.len() == 0 {
        (state, Seq::empty())
    } else {
        let (before, effects) = run(state, commands.drop_last(), surface);
        let (after, effect) = step(before, commands.last(), surface);
        (after, effects.push(effect))
    }
}

/// The number of queued commands that one tick takes: all up to and with the
/// first `Sync`, or all there are if none is queued.
pub open spec fn frame_len(commands: Seq<RenderCommand>) -> nat
    decreases commands.len(),
{
    if commands.len() == 0 {
        0
    } else if commands[0] is Sync {
        1
    } else {
        1 + frame_len(commands.skip(1))
    }
}

/// A draw list never plans more draws than it has entries.
pub proof fn lemma_planned_draws_len(entries: Seq<DrawEntry>)
    ensures
        planned_draws(entries).len() <= entries.len(),
    decreases entries.len(),
{
    if entries.len() > 0 {
        lemma_planned_draws_len(entries.drop_last());
    }
}

/// Where no command among the first `k` is a `Sync`, a tick takes them all,
/// and then what it takes of the rest.
pub proof fn lemma_frame_len_skip(commands: Seq<RenderCommand>, k: nat)
    requires
        k <= commands.len(),
        forall|i: int| 0 <= i < k ==> !(#[trigger] commands[i] is Sync),
    ensures
        frame_len(commands) == k + frame_len(commands.skip(k as int)),
    decreases k,
{
    if k == 0 {
        assert(commands.skip(0) =~= commands);
    } else {
        let rest = commands.skip(1);
        assert forall|i: int| 0 <= i < k - 1 implies !(#[trigger] rest[i] is Sync) by {
            assert(rest[i] == commands[i + 1]);
        }
        lemma_frame_len_skip(rest, (k - 1) as nat);
        assert(rest.skip(k - 1) =~= commands.skip(k as int));
    }
}

/// Whether the dispatcher knows every command that the next tick takes off
/// `queue`.
pub fn frame_recognized(queue: &VecDeque<RenderCommand>) -> (known: bool)
    ensures
        known == (forall|i: int|
            0 <= i < frame_len(queue@) ==> (#[trigger] queue@[i]).recognized()),
{
    let mut i: usize = 0;
    while i < queue.len()
        invariant
            i <= queue@.len(),
            forall|k: int| 0 <= k < i ==> !(#[trigger] queue@[k] is Sync),
            forall|k: int| 0 <= k < i ==> (#[trigger] queue@[k]).recognized(),
        decreases queue@.len() - i,
    {
        proof {
            lemma_frame_len_skip(queue@, i as nat);
        }
        let command = &queue[i];
        if !command.is_recognized() {
            assert(!queue@[i as int].recognized());
            return false;
        }
        if command.is_sync() {
            return true;
        }
        i += 1;
    }
    proof {
        lemma_frame_len_skip(queue@, i as nat);
    }
    true
}

/// The command dispatcher.
pub struct Dispatcher {
    color_targets: TargetCache,
    depth_targets: TargetCache,
    viewport: Option<Viewport>,
    modelview: Matrix,
    projection: Matrix,
    matrices: MatrixTable,
    frame_rejected: bool,
}

impl View for Dispatcher {
    type V = DispatcherView;

    closed spec fn view(&self) -> DispatcherView {
        DispatcherView {
            colors: self.color_targets@,
            depths: self.depth_targets@,
            viewport: self.viewport,
            modelview: self.modelview,
            projection: self.projection,
            matrices: self.matrices@,
            rejected: self.frame_rejected,
        }
    }
}

impl Dispatcher {
    /// The caches and the matrix table are well-formed.
    pub closed spec fn wf(&self) -> bool {
        &&& self.color_targets.wf()
        &&& self.depth_targets.wf()
        &&& self.matrices.wf()
    }

    /// A well-formed dispatcher has a well-formed state.
    pub proof fn lemma_wf(&self)
        requires
            self.wf(),
        ensures
            self@.wf(),
    {
        self.matrices.lemma_len();
    }

    /// A dispatcher with empty caches, no viewport, identity transforms and
    /// a zeroed matrix table.
    pub fn new() -> (dispatcher: Dispatcher)
        ensures
            dispatcher.wf(),
            dispatcher@.wf(),
            dispatcher@.colors.len() == 0,
            dispatcher@.depths.len() == 0,
            dispatcher@.viewport is None,
            dispatcher@.modelview == identity(),
            dispatcher@.projection == identity(),
            forall|i: int| 0 <= i < MATRIX_SLOTS ==> is_zero_matrix(#[trigger] dispatcher@.matrices[i]),
            !dispatcher@.rejected,
    {
        Dispatcher {
            color_targets: TargetCache::new(),
            depth_targets: TargetCache::new(),
            viewport: None,
            modelview: identity_matrix(),
            projection: identity_matrix(),
            matrices: MatrixTable::new(),
            frame_rejected: false,
        }
    }

    /// The cache of color targets.
    pub fn color_targets(&self) -> (cache: &TargetCache)
        requires
            self.wf(),
        ensures
            cache@ == self@.colors,
            cache.wf(),
    {
        &self.color_targets
    }

    /// The cache of depth targets.
    pub fn depth_targets(&self) -> (cache: &TargetCache)
        requires
            self.wf(),
        ensures
            cache@ == self@.depths,
            cache.wf(),
    {
        &self.depth_targets
    }

    /// The matrix table.
    pub fn matrices(&self) -> (table: &MatrixTable)
        requires
            self.wf(),
        ensures
            table@ == self@.matrices,
            table.wf(),
    {
        &self.matrices
    }

    /// The viewport in force.
    pub fn viewport(&self) -> (viewport: Option<Viewport>)
        ensures
            viewport == self@.viewport,
    {
        self.viewport
    }

    /// The model-view transform of this frame.
    pub fn modelview(&self) -> (transform: Matrix)
        ensures
            transform == self@.modelview,
    {
        self.modelview
    }

    /// The projection of this frame.
    pub fn projection(&self) -> (transform: Matrix)
        ensures
            transform == self@.projection,
    {
        self.projection
    }

    /// Whether a write of this frame was rejected.
    pub fn frame_rejected(&self) -> (rejected: bool)
        ensures
            rejected == self@.rejected,
    {
        self.frame_rejected
    }

    /// Puts the state that lasts for one frame back to its start: no
    /// viewport, identity transforms.
    fn reset_render_state(&mut self)
        requires
            old(self).wf(),
        ensures
            final(self).wf(),
            final(self)@ == (DispatcherView {
                viewport: None,
                modelview: identity(),
                projection: identity(),
                ..old(self)@
            }),
    {
        self.viewport = None;
        self.modelview = identity_matrix();
        self.projection = identity_matrix();
    }

    /// Plans the draws of a draw list and counts the entries left out.
    fn plan_draws(entries: &Vec<DrawEntry>) -> (planned: (Vec<DrawCall>, usize))
        ensures
            planned.0@ == planned_draws(entries@),
            planned.1 == entries@.len() - planned_draws(entries@).len(),
    {
        let mut draws: Vec<DrawCall> = Vec::new();
        let mut failed: usize = 0;
        let mut i: usize = 0;
        assert(entries@.take(0) =~= Seq::<DrawEntry>::empty());
        while i < entries.len()
            invariant
                i <= entries@.len(),
                draws@ == planned_draws(entries@.take(i as int)),
                failed + draws@.len() == i,
            decreases entries@.len() - i,
        {
            let entry = entries[i];
            proof {
                assert(entries@.take(i + 1).drop_last() =~= entries@.take(i as int));
                assert(entries@.take(i + 1).last() == entry);
            }
            if entry.matrix_index < MATRIX_SLOTS as u32 && entry.start_index <= INDEX_CAPACITY as u32
                && entry.num_indices <= INDEX_CAPACITY as u32 - entry.start_index {
                draws.push(
                    DrawCall {
                        matrix_offset: MvpPacked::offset_of(entry.matrix_index as usize),
                        first_index: entry.start_index,
                        end_index: entry.start_index + entry.num_indices,
                    },
                );
            } else {
                failed += 1;
            }
            i += 1;
        }
        assert(entries@.take(i as int) =~= entries@);
        (draws, failed)
    }

    /// Resolves the targets of a render pass and plans its draws.
    fn plan_pass(&self, pass: RenderPass) -> (effect: Effect)
        requires
            self.wf(),
        ensures
            effect@ == pass_effect(self@, pass),
    {
        if self.frame_rejected {
            return Effect::PassSkipped(PassSkip::FrameRejected);
        }
        let color = match pass.color_buffer {
            Some(address) => address,
            None => NO_TARGET,
        };
        let depth = match pass.depth_buffer {
            Some(address) => address,
            None => NO_TARGET,
        };
        let color_index = match self.color_targets.lookup(color) {
            Some(index) => index,
            None => {
                return Effect::PassSkipped(PassSkip::NoColorTarget);
            },
        };
        let depth_attachment = match self.depth_targets.lookup(depth) {
            Some(index) => Some(DepthAttachment { index, clear: pass.clear_depth }),
            None => None,
        };
        let (draws, failed_draws) = Self::plan_draws(&pass.draw_list);
        Effect::Draw(
            PassPlan {
                color_index,
                clear_color: pass.clear_color,
                depth: depth_attachment,
                viewport: self.viewport,
                draws,
                failed_draws,
            },
        )
    }

    /// Applies one command and says what the GPU has to do for it. `surface`
    /// is the size of the display surface now; a target that the command
    /// creates gets this size.
    pub fn apply(&mut self, command: RenderCommand, surface: TextureSize) -> (effect: Effect)
        requires
            old(self).wf(),
            command.recognized(),
        ensures
            final(self).wf(),
            (final(self)@, effect@) == step(old(self)@, command, surface),
    {
        match command {
            RenderCommand::DefineColorImage { framebuffer_address } => {
                let (index, created) = self.color_targets.get_or_create(
                    framebuffer_address,
                    surface.width,
                    surface.height,
                );
                if created {
                    Effect::CreateColorTarget {
                        index,
                        target: RenderTarget {
                            address: framebuffer_address,
                            width: surface.width,
                            height: surface.height,
                        },
                    }
                } else {
                    Effect::Nothing
                }
            },
            RenderCommand::DefineDepthImage { framebuffer_address } => {
                let (index, created) = self.depth_targets.get_or_create(
                    framebuffer_address,
                    surface.width,
                    surface.height,
                );
                if created {
                    Effect::CreateDepthTarget {
                        index,
                        target: RenderTarget {
                            address: framebuffer_address,
                            width: surface.width,
                            height: surface.height,
                        },
                    }
                } else {
                    Effect::Nothing
                }
            },
            RenderCommand::Viewport(viewport) => {
                self.viewport = Some(viewport);
                Effect::Nothing
            },
            RenderCommand::VertexData(vertices) => {
                if vertices.len() <= VERTEX_CAPACITY {
                    Effect::WriteVertices(pack_vertices(vertices.as_slice()))
                } else {
                    self.frame_rejected = true;
                    Effect::WriteRejected(BufferKind::Vertex)
                }
            },
            RenderCommand::IndexData(indices) => {
                if indices.len() <= INDEX_CAPACITY {
                    Effect::WriteIndices(indices)
                } else {
                    self.frame_rejected = true;
                    Effect::WriteRejected(BufferKind::Index)
                }
            },
            RenderCommand::MatrixData(matrices) => {
                match self.matrices.write(0, matrices.as_slice()) {
                    Ok(()) => Effect::WriteMatrices(pack_matrices(matrices.as_slice())),
                    Err(_) => {
                        self.frame_rejected = true;
                        Effect::WriteRejected(BufferKind::Matrix)
                    },
                }
            },
            RenderCommand::RenderPass(pass) => self.plan_pass(pass),
            RenderCommand::Sync => {
                self.reset_render_state();
                self.frame_rejected = false;
                Effect::FrameComplete
            },
            RenderCommand::Noop => Effect::Nothing,
        }
    }

    /// One render tick: takes commands off the front of `queue` and applies
    /// them in order until the queue is empty or a `Sync` was applied.
    /// Commands behind the `Sync` stay queued for the next tick.
    pub fn tick(&mut self, queue: &mut VecDeque<RenderCommand>, surface: TextureSize) -> (effects:
        Vec<Effect>)
        requires
            old(self).wf(),
            forall|i: int|
                0 <= i < frame_len(old(queue)@) ==> (#[trigger] old(queue)@[i]).recognized(),
        ensures
            final(self).wf(),
            frame_len(old(queue)@) <= old(queue)@.len(),
            final(queue)@ == old(queue)@.skip(frame_len(old(queue)@) as int),
            (final(self)@, effect_views(effects@)) == run(
                old(self)@,
                old(queue)@.take(frame_len(old(queue)@) as int),
                surface,
            ),
    {
        let ghost all = queue@;
        let ghost start = self@;
        let ghost mut taken: nat = 0;
        let mut effects: Vec<Effect> = Vec::new();
        let mut done = false;
        proof {
            assert(all.skip(0) =~= all);
            assert(all.take(0) =~= Seq::<RenderCommand>::empty());
            assert(effect_views(effects@) =~= Seq::<EffectView>::empty());
        }
        while !done
            invariant
                self.wf(),
                taken <= all.len(),
                queue@ == all.skip(taken as int),
                forall|i: int| 0 <= i < frame_len(all) ==> (#[trigger] all[i]).recognized(),
                !done ==> forall|i: int| 0 <= i < taken ==> !(#[trigger] all[i] is Sync),
                done ==> taken == frame_len(all),
                (self@, effect_views(effects@)) == run(start, all.take(taken as int), surface),
            decreases
                    if done {
                        0
                    } else {
                        1 + queue@.len()
                    },
        {
            proof {
                lemma_frame_len_skip(all, taken);
            }
            match queue.pop_front() {
                None => {
                    done = true;
                },
                Some(command) => {
                    let ends_frame = command.is_sync();
                    proof {
                        assert(command == all[taken as int]);
                        assert(all.take((taken + 1) as int).drop_last() =~= all.take(taken as int));
                        assert(all.take((taken + 1) as int).last() == command);
                        assert(queue@ =~= all.skip((taken + 1) as int));
                    }
                    let ghost before = effect_views(effects@);
                    let effect = self.apply(command, surface);
                    effects.push(effect);
                    proof {
                        assert(effect_views(effects@) =~= before.push(effect@));
                        taken = taken + 1;
                    }
                    if ends_frame {
                        done = true;
                    }
                },
            }
        }
        effects
    }
}

} // verus!
