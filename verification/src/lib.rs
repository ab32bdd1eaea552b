//! Engine for a terminal "digital rain" animation: falling columns of
//! glyphs that fade from a bright head, occasionally glitch or flicker,
//! and may leave a "stuck" glyph behind when they finish falling.
//!
//! The crate holds the verified core: the configuration store, the color
//! scheme, the per-column drop state machine, the stuck-glyph table and
//! the frame engine. Drawing to a real terminal, input polling and signal
//! handling are left to the embedding program, which feeds events and
//! timestamps in and carries render commands out.

pub mod charset;
pub mod colors;
pub mod config;
pub mod drops;
pub mod engine;
pub mod render;
pub mod rng;
pub mod stuck;
