//! One-time initialisation and bounded text buffers for environments without
//! an operating system.
//!
//! - [`StaticCell`]: a slot that accepts exactly one value and is read-only
//!   afterwards.
//! - [`Buffer`]: a byte sink for text that grows by powers of two up to a
//!   fixed ceiling and never writes part of a fragment.
//! - [`BitFlags`]: a set of flags packed into one byte.
//! - [`PrintWrapper`]: a sink that accepts and discards text.

pub mod buffer;
pub mod cell;
pub mod flags;
pub mod sink;

pub use buffer::{
    format_into, lemma_growth_boundary, lemma_next_pow2_within_max, lemma_reset_reuses_storage,
    next_pow2, pow2_reaching, Buffer, BufferState, WriteError, DEFAULT_BUFFER_SIZE,
    MAX_BUFFER_SIZE,
};
pub use cell::{attempts, lemma_exactly_one_init, lemma_filled_cell_stable, StaticCell};
pub use flags::BitFlags;
pub use sink::PrintWrapper;
