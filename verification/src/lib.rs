//! A text console that renders a byte stream into a cell grid.
//!
//! The grid is a row-major surface of two-byte cells (character code, then
//! display attribute). [`FrameBufferWriter`] tracks a cursor over it, wraps
//! lines, expands tabs, scrolls when the last row overflows and understands a
//! two-byte escape protocol that switches the active attribute.
//!
//! Every operation is specified against [`Console`], the mathematical model of
//! the writer's state, and proved to follow it.

pub mod console;
pub mod error;
pub mod laws;
pub mod writer;

pub use console::Console;
pub use error::GeometryError;
pub use writer::FrameBufferWriter;
