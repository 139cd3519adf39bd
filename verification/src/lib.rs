//! Conversion between a compact binary encoding of piano music and the
//! intermediate representation that normalises notation into it.
//!
//! `ir` holds the notation model, the duration arithmetic and the per-measure
//! voice bookkeeping; `bin_format` holds the bit-exact record codec.

pub mod arith;
pub mod bin_format;
pub mod error;
pub mod ir;
pub mod text;
