//! What holds of the dispatcher's state and effects over whole runs of
//! commands.

use crate::cache::{
    holds_once,
    lemma_define_idempotent,
    lemma_with_target,
    RenderTarget,
    TextureSize,
};
use crate::command::{DrawEntry, RenderCommand, RenderPass};
use crate::dispatch::{
    draw_call,
    entry_valid,
    frame_len,
    named_target,
    pass_effect,
    planned_draws,
    run,
    step,
    DispatcherView,
    EffectView,
};
use crate::matrix::{
    packed_words,
    Matrix,
    MATRIX_BUFFER_BYTES,
    MATRIX_SLOTS,
    MATRIX_STRIDE,
    PAYLOAD_WORDS,
    SLOT_WORDS,
};
use crate::vertex::{INDEX_BUFFER_BYTES, INDEX_CAPACITY, VERTEX_BUFFER_BYTES};
use vstd::prelude::*;

verus! {

/// Every command leaves the state well-formed.
pub proof fn lemma_step_wf(state: DispatcherView, command: RenderCommand, surface: TextureSize)
    requires
        state.wf(),
    ensures
        step(state, command, surface).0.wf(),
{
    let target = RenderTarget { address: 0, width: surface.width, height: surface.height };
    match command {
        RenderCommand::DefineColorImage { framebuffer_address } => {
            lemma_with_target(state.colors, RenderTarget { address: framebuffer_address, ..target });
        },
        RenderCommand::DefineDepthImage { framebuffer_address } => {
            lemma_with_target(state.depths, RenderTarget { address: framebuffer_address, ..target });
        },
        _ => {},
    }
}

/// A command never removes, moves or changes a cached target: a target,
/// once created, keeps its index and its size.
pub proof fn lemma_step_keeps_targets(
    state: DispatcherView,
    command: RenderCommand,
    surface: TextureSize,
)
    requires
        state.wf(),
    ensures
        ({
            let after = step(state, command, surface).0;
            &&& state.colors.len() <= after.colors.len()
            &&& state.depths.len() <= after.depths.len()
            &&& forall|i: int| 0 <= i < state.colors.len() ==> after.colors[i] == state.colors[i]
            &&& forall|i: int| 0 <= i < state.depths.len() ==> after.depths[i] == state.depths[i]
        }),
{
    let target = RenderTarget { address: 0, width: surface.width, height: surface.height };
    match command {
        RenderCommand::DefineColorImage { framebuffer_address } => {
            lemma_with_target(state.colors, RenderTarget { address: framebuffer_address, ..target });
        },
        RenderCommand::DefineDepthImage { framebuffer_address } => {
            lemma_with_target(state.depths, RenderTarget { address: framebuffer_address, ..target });
        },
        _ => {},
    }
}

/// The same holds of any run of commands, and the run leaves the state
/// well-formed and has one effect for each command.
pub proof fn lemma_run_keeps_targets(
    state: DispatcherView,
    commands: Seq<RenderCommand>,
    surface: TextureSize,
)
    requires
        state.wf(),
    ensures
        ({
            let (after, effects) = run(state, commands, surface);
            &&& after.wf()
            &&& effects.len() == commands.len()
            &&& state.colors.len() <= after.colors.len()
            &&& state.depths.len() <= after.depths.len()
            &&& forall|i: int| 0 <= i < state.colors.len() ==> after.colors[i] == state.colors[i]
            &&& forall|i: int| 0 <= i < state.depths.len() ==> after.depths[i] == state.depths[i]
        }),
    decreases commands.len(),
{
    if commands.len() > 0 {
        lemma_run_keeps_targets(state, commands.drop_last(), surface);
        let before = run(state, commands.drop_last(), surface).0;
        lemma_step_wf(before, commands.last(), surface);
        lemma_step_keeps_targets(before, commands.last(), surface);
    }
}

/// Defining a color image twice creates one target: the second command
/// changes nothing and asks nothing of the GPU, whatever the surface's size
/// is by then, and the cache holds the address once.
pub proof fn lemma_define_color_idempotent(
    state: DispatcherView,
    address: u32,
    first_surface: TextureSize,
    second_surface: TextureSize,
)
    requires
        state.wf(),
    ensures
        ({
            let command = RenderCommand::DefineColorImage { framebuffer_address: address };
            let once = step(state, command, first_surface).0;
            &&& step(once, command, second_surface) == (once, EffectView::Nothing)
            &&& holds_once(once.colors, address)
        }),
{
    lemma_define_idempotent(
        state.colors,
        RenderTarget { address, width: first_surface.width, height: first_surface.height },
        RenderTarget { address, width: second_surface.width, height: second_surface.height },
    );
    lemma_with_target(
        state.colors,
        RenderTarget { address, width: first_surface.width, height: first_surface.height },
    );
}

/// Defining a depth image twice creates one target.
pub proof fn lemma_define_depth_idempotent(
    state: DispatcherView,
    address: u32,
    first_surface: TextureSize,
    second_surface: TextureSize,
)
    requires
        state.wf(),
    ensures
        ({
            let command = RenderCommand::DefineDepthImage { framebuffer_address: address };
            let once = step(state, command, first_surface).0;
            &&& step(once, command, second_surface) == (once, EffectView::Nothing)
            &&& holds_once(once.depths, address)
        }),
{
    lemma_define_idempotent(
        state.depths,
        RenderTarget { address, width: first_surface.width, height: first_surface.height },
        RenderTarget { address, width: second_surface.width, height: second_surface.height },
    );
    lemma_with_target(
        state.depths,
        RenderTarget { address, width: first_surface.width, height: first_surface.height },
    );
}

/// Matrices that fit the table come back as they went in: after a
/// `MatrixData` command slot `i` holds the `i`-th matrix, the slots behind
/// the last matrix keep what they held, and in the words handed to the GPU
/// the payload of matrix `i` starts at byte `i * MATRIX_STRIDE`.
pub proof fn lemma_matrix_round_trip(
    state: DispatcherView,
    matrices: Vec<Matrix>,
    surface: TextureSize,
    i: int,
)
    requires
        state.wf(),
        matrices@.len() <= MATRIX_SLOTS,
        0 <= i < MATRIX_SLOTS,
    ensures
        ({
            let (after, effect) = step(state, RenderCommand::MatrixData(matrices), surface);
            &&& after.wf()
            &&& i < matrices@.len() ==> after.matrices[i] == matrices@[i]
            &&& i >= matrices@.len() ==> after.matrices[i] == state.matrices[i]
            &&& effect == EffectView::WriteMatrices(packed_words(matrices@))
            &&& packed_words(matrices@).len() * 4 == matrices@.len() * MATRIX_STRIDE
            &&& i < matrices@.len() ==> forall|j: int|
                0 <= j < PAYLOAD_WORDS ==> #[trigger] packed_words(matrices@)[i * SLOT_WORDS + j]
                    == matrices@[i][j / 4][j % 4]
        }),
{
    if i < matrices@.len() {
        assert forall|j: int| 0 <= j < PAYLOAD_WORDS implies #[trigger] packed_words(
            matrices@,
        )[i * SLOT_WORDS + j] == matrices@[i][j / 4][j % 4] by {
            let k = i * SLOT_WORDS + j;
            assert(k / 64 == i);
            assert(k % 64 == j);
        }
    }
}

/// Where every entry of a draw list is valid, the pass draws each entry, in
/// order, with the matrix table bound at `matrix_index * MATRIX_STRIDE`.
pub proof fn lemma_valid_list_drawn(entries: Seq<DrawEntry>)
    requires
        forall|i: int| 0 <= i < entries.len() ==> entry_valid(#[trigger] entries[i]),
    ensures
        planned_draws(entries).len() == entries.len(),
        forall|i: int|
            0 <= i < entries.len() ==> {
                let draw = #[trigger] planned_draws(entries)[i];
                &&& draw.matrix_offset == entries[i].matrix_index * MATRIX_STRIDE
                &&& draw.first_index == entries[i].start_index
                &&& draw.end_index == entries[i].start_index + entries[i].num_indices
            },
    decreases entries.len(),
{
    if entries.len() > 0 {
        let front = entries.drop_last();
        assert forall|i: int| 0 <= i < front.len() implies entry_valid(#[trigger] front[i]) by {
            assert(front[i] == entries[i]);
        }
        lemma_valid_list_drawn(front);
        assert(entry_valid(entries.last()));
        assert forall|i: int| 0 <= i < entries.len() implies {
            let draw = #[trigger] planned_draws(entries)[i];
            &&& draw.matrix_offset == entries[i].matrix_index * MATRIX_STRIDE
            &&& draw.first_index == entries[i].start_index
            &&& draw.end_index == entries[i].start_index + entries[i].num_indices
        } by {
            if i < front.len() {
                assert(planned_draws(entries)[i] == planned_draws(front)[i]);
                assert(front[i] == entries[i]);
            } else {
                assert(planned_draws(entries)[i] == draw_call(entries.last()));
            }
        }
    }
}

/// Every draw of a pass binds a whole slot of the matrix table and draws
/// indices that lie within the index buffer.
pub proof fn lemma_planned_draws_in_range(entries: Seq<DrawEntry>, k: int)
    requires
        0 <= k < planned_draws(entries).len(),
    ensures
        ({
            let draw = planned_draws(entries)[k];
            &&& draw.matrix_offset % (MATRIX_STRIDE as u32) == 0
            &&& draw.matrix_offset + MATRIX_STRIDE <= MATRIX_BUFFER_BYTES
            &&& draw.first_index <= draw.end_index <= INDEX_CAPACITY
        }),
    decreases entries.len(),
{
    if entries.len() > 0 {
        let front = planned_draws(entries.drop_last());
        if k < front.len() {
            lemma_planned_draws_in_range(entries.drop_last(), k);
        } else {
            let entry = entries.last();
            assert(planned_draws(entries)[k] == draw_call(entry));
            assert((entry.matrix_index * 256) % 256 == 0) by (nonlinear_arith);
        }
    }
}

/// The targets of a render pass that is drawn exist: their indices lie
/// within the caches, and the targets there have the addresses that the pass
/// names.
pub proof fn lemma_pass_targets_exist(state: DispatcherView, pass: RenderPass)
    requires
        state.colors.len() <= usize::MAX,
        state.depths.len() <= usize::MAX,
    ensures
        pass_effect(state, pass) matches EffectView::Draw(plan) ==> {
            &&& plan.color_index < state.colors.len()
            &&& state.colors[plan.color_index as int].address == named_target(pass.color_buffer)
            &&& plan.depth matches Some(depth) ==> {
                &&& depth.index < state.depths.len()
                &&& state.depths[depth.index as int].address == named_target(pass.depth_buffer)
                &&& depth.clear == pass.clear_depth
            }
        },
{
}

/// A buffer write that the dispatcher asks for fits its buffer.
pub proof fn lemma_writes_fit(state: DispatcherView, command: RenderCommand, surface: TextureSize)
    ensures
        match step(state, command, surface).1 {
            EffectView::WriteVertices(words) => 4 * words.len() <= VERTEX_BUFFER_BYTES,
            EffectView::WriteIndices(indices) => 2 * indices.len() <= INDEX_BUFFER_BYTES,
            EffectView::WriteMatrices(words) => 4 * words.len() <= MATRIX_BUFFER_BYTES,
            _ => true,
        },
{
}

/// A command that is rejected, and a render pass, whether drawn or skipped,
/// leave the caches, the viewport, the transforms and the matrix table as
/// they were.
pub proof fn lemma_rejection_keeps_state(
    state: DispatcherView,
    command: RenderCommand,
    surface: TextureSize,
)
    ensures
        ({
            let (after, effect) = step(state, command, surface);
            &&& effect is WriteRejected ==> after == (DispatcherView { rejected: true, ..state })
            &&& (effect is PassSkipped || effect is Draw) ==> after == state
        }),
{
}

/// A tick stops at the first `Sync`: it takes no command behind it, and
/// among the commands it takes only the last can be a `Sync`.
pub proof fn lemma_frame_ends_at_sync(commands: Seq<RenderCommand>)
    ensures
        frame_len(commands) <= commands.len(),
        forall|i: int| 0 <= i < frame_len(commands) - 1 ==> !(#[trigger] commands[i] is Sync),
        frame_len(commands) < commands.len() ==> commands[frame_len(commands) - 1] is Sync,
        commands.len() > 0 ==> frame_len(commands) > 0,
    decreases commands.len(),
{
    if commands.len() > 0 && !(commands[0] is Sync) {
        let rest = commands.skip(1);
        lemma_frame_ends_at_sync(rest);
        assert forall|i: int| 0 <= i < frame_len(commands) - 1 implies !(
        #[trigger] commands[i] is Sync) by {
            if i > 0 {
                assert(commands[i] == rest[i - 1]);
            }
        }
        if frame_len(commands) < commands.len() {
            assert(commands[frame_len(commands) - 1] == rest[frame_len(rest) - 1]);
        }
    }
}

/// The effects of a run name the end of a frame exactly where the run has a
/// `Sync`.
pub proof fn lemma_frame_complete_marks_sync(
    state: DispatcherView,
    commands: Seq<RenderCommand>,
    surface: TextureSize,
)
    ensures
        run(state, commands, surface).1.len() == commands.len(),
        forall|i: int|
            0 <= i < commands.len() ==> ((#[trigger] run(state, commands, surface).1[i])
                is FrameComplete <==> commands[i] is Sync),
    decreases commands.len(),
{
    if commands.len() > 0 {
        let front = commands.drop_last();
        lemma_frame_complete_marks_sync(state, front, surface);
        let effects = run(state, commands, surface).1;
        let before = run(state, front, surface);
        assert forall|i: int| 0 <= i < commands.len() implies ((#[trigger] effects[i])
            is FrameComplete <==> commands[i] is Sync) by {
            if i < front.len() {
                assert(effects[i] == before.1[i]);
                assert(front[i] == commands[i]);
            } else {
                assert(effects[i] == step(before.0, commands.last(), surface).1);
            }
        }
    }
}

/// A tick's effects name the end of a frame at most once, and then last.
pub proof fn lemma_tick_completes_once(
    state: DispatcherView,
    queue: Seq<RenderCommand>,
    surface: TextureSize,
)
    ensures
        ({
            let taken = queue.take(frame_len(queue) as int);
            let effects = run(state, taken, surface).1;
            &&& frame_len(queue) <= queue.len()
            &&& effects.len() == frame_len(queue)
            &&& forall|i: int|
                0 <= i < effects.len() - 1 ==> !(#[trigger] effects[i] is FrameComplete)
            &&& frame_len(queue) < queue.len() ==> effects.last() is FrameComplete
        }),
{
    lemma_frame_ends_at_sync(queue);
    let taken = queue.take(frame_len(queue) as int);
    lemma_frame_complete_marks_sync(state, taken, surface);
    let effects = run(state, taken, surface).1;
    assert forall|i: int| 0 <= i < effects.len() - 1 implies !(#[trigger] effects[i]
        is FrameComplete) by {
        assert(taken[i] == queue[i]);
    }
    if frame_len(queue) < queue.len() {
        assert(taken[frame_len(queue) - 1] == queue[frame_len(queue) - 1]);
    }
}

} // verus!
