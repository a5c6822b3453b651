//! An immediate-mode widget layer for a grid of clickable buttons driving a
//! small calculator state machine.
//!
//! The library holds the verified core: shape rasterization and hit-test
//! geometry, the redraw driver that turns a pointer position into an ordered
//! sequence of action tags, and the arithmetic backend that consumes those
//! tags.  All surface I/O (drawing the computed pixel sets, querying the
//! pointer, the event loop) is left to the embedding program, which hands the
//! library plain values and receives plain values back.

pub mod geometry;
pub mod logic;
