//! Core engine of a terminal media browser: a paginated content cache over
//! catalog records, an out-of-order download reassembly pipeline, and a grid
//! layout engine that maps terminal geometry to pixel coordinates and an
//! artist-interleaved presentation order.

pub mod layout;
pub mod text;
pub mod digits;
pub mod names;
pub mod record;
pub mod rawpage;
pub mod cache;
pub mod pipeline;
pub mod colors;
pub mod config;
pub mod files;
pub mod keyseqs;
