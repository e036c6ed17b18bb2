//! Verified core of a renderer for an emulated display processor.
//!
//! A command producer queues pre-decoded draw commands. This library decides
//! what they come to: it keeps the cache of render targets and the table of
//! transform matrices, plans each render pass draw by draw, and picks what
//! is shown on the screen, decoding a frame straight out of emulated memory
//! where no render target matches the video output. It touches no GPU. What
//! the GPU has to do comes back as plain values, an [`dispatch::Effect`] for
//! each command and a [`present::Presentation`] for each frame, and the
//! caller carries it out.
//!
//! Floats pass through as their bit patterns: the library moves them and
//! never computes with them.
//!
//! - [`dispatch`]: the command dispatcher and its frame protocol
//! - [`dispatch_lemmas`]: what holds over whole runs of commands
//! - [`cache`]: the render target cache
//! - [`matrix`]: the matrix uniform table
//! - [`vertex`]: vertex layout and buffer sizes
//! - [`command`]: the draw commands
//! - [`view`]: the view selector
//! - [`present`]: what is put on the screen
//! - [`decode`]: the raw framebuffer decoder
//! - [`texture`]: texture content and its layout for a copy
//! - [`upload`]: the bytes of a buffer write
//! - [`rdp`]: the display processor's register window

pub mod cache;
pub mod command;
pub mod decode;
pub mod dispatch;
pub mod dispatch_lemmas;
pub mod matrix;
pub mod present;
pub mod rdp;
pub mod texture;
pub mod upload;
pub mod vertex;
pub mod view;
