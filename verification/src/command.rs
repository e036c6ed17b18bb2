//! The draw commands that the dispatcher consumes.

use crate::matrix::Matrix;
use crate::vertex::Vertex;
use vstd::prelude::*;

verus! {

/// The address that stands for a target which a render pass does not name.
pub const NO_TARGET: u32 = 0xFFFF_FFFF;

/// One indexed draw of a render pass: a run of indices and the slot of the
/// transform that applies to it.
#[derive(Clone, Copy, Debug, PartialEq, Eq)]
pub struct DrawEntry {
    pub start_index: u32,
    pub num_indices: u32,
    pub matrix_index: u32,
}

/// A viewport rectangle. Each field is the bit pattern of a 32-bit float.
#[derive(Clone, Copy, Debug, PartialEq, Eq)]
pub struct Viewport {
    pub x: u32,
    pub y: u32,
    pub w: u32,
    pub h: u32,
}

/// A render pass: its targets, what is cleared, and its draws in order.
#[derive(Clone, Debug, PartialEq, Eq)]
pub struct RenderPass {
    /// Address of the color target; `None` stands for `NO_TARGET`.
    pub color_buffer: Option<u32>,
    /// Address of the depth target; `None` stands for `NO_TARGET`.
    pub depth_buffer: Option<u32>,
    /// The color to clear to, as the bit patterns of four 32-bit floats;
    /// `None` keeps what the target holds.
    pub clear_color: Option<[u32; 4]>,
    /// Whether depth is cleared to the far value.
    pub clear_depth: bool,
    pub draw_list: Vec<DrawEntry>,
}

/// A draw command as the producer queues it.
#[derive(Clone, Debug, PartialEq, Eq)]
pub enum RenderCommand {
    DefineColorImage { framebuffer_address: u32 },
    DefineDepthImage { framebuffer_address: u32 },
    Viewport(Viewport),
    VertexData(Vec<Vertex>),
    IndexData(Vec<u16>),
    MatrixData(Vec<Matrix>),
    RenderPass(RenderPass),
    Sync,
    Noop,
}

impl RenderCommand {
    /// The dispatcher knows what to do with the command. The producer never
    /// queues one of which this is false.
    pub open spec fn recognized(self) -> bool {
        !(self is Noop)
    }

    /// Whether the dispatcher knows what to do with the command.
    pub fn is_recognized(&self) -> (known: bool)
        ensures
            known == self.recognized(),
    {
        match self {
            RenderCommand::Noop => false,
            _ => true,
        }
    }

    /// Whether the command ends a frame.
    pub fn is_sync(&self) -> (sync: bool)
        ensures
            sync == (*self is Sync),
    {
        match self {
            RenderCommand::Sync => true,
            _ => false,
        }
    }
}

} // verus!
