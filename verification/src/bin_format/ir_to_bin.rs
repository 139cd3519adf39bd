use super::bin_encoder::encode;
use super::stream::encoded;
use crate::ir::musical_part::MusicalPart;
use vstd::prelude::*;

verus! {

/// The stream of a part: the header, then one record for each element.
pub fn ir_to_bin(complete_part: &MusicalPart) -> (bytes: Vec<u8>)
    requires
        4 * complete_part@.elems.len() <= u32::MAX,
    ensures
        bytes@ == encoded(complete_part@.elems),
{
    encode(complete_part.inner())
}

/// Whether the stream of a part can be written: its records take no more
/// bytes than the header can declare.
pub fn fits_in_stream(complete_part: &MusicalPart) -> (fits: bool)
    ensures
        fits == (4 * complete_part@.elems.len() <= u32::MAX),
{
    complete_part.len() <= 0x3fff_ffff
}

} // verus!
