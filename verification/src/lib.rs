//! A library that paints styled, Unicode-correct text onto a bounded
//! character grid and serializes the grid to a terminal control-code
//! stream, emitting only the escape sequences needed to move between
//! consecutive cell styles.
//!
//! Content flows as a tree of styled segments into a cursor-driven
//! [`canvas::RenderBufferCanvas`] backed by a paged
//! [`buffer::StaticRenderBuffer`]; the driver in [`sink`] pages the
//! buffer over the document, linearizes the committed cells, and a sink
//! diff-encodes the style transitions through a writer capability.

pub mod buffer;
pub mod canvas;
pub mod delta;
pub mod ellipsis;
pub mod position;
pub mod sink;
pub mod static_grapheme;
pub mod style;
pub mod support;
pub mod text;
pub mod theme;
pub mod unicode;
pub mod writer;
