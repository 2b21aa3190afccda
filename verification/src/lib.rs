//! Escape-time fractal rendering core.
//!
//! The library holds the deterministic, integer-valued part of a Julia-set
//! style renderer: gradient lookup-table construction, iteration-count to
//! pixel compositing, variant selection, and assembly of the RGBA output
//! buffer. The floating-point orbit iteration and coordinate mapping are
//! supplied by the host, which hands per-pixel iteration counts and alpha
//! bytes to [`frame::render_frame`].

pub mod color;
pub mod gradient;
pub mod pixel;
pub mod frame;
