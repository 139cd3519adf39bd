//! The binary format: a header of eight bytes and one record of four bytes
//! for each element.

pub mod bin_decoder;
pub mod bin_encoder;
pub mod bin_to_ir;
pub mod header;
pub mod ir_to_bin;
pub mod layout;
pub mod stream;

pub use bin_decoder::{decode, MusicDecoder};
pub use bin_encoder::{encode, MusicEncoder};
pub use bin_to_ir::bin_to_ir;
pub use ir_to_bin::ir_to_bin;
pub use layout::MUSIC_ELEMENT_LENGTH;
