use super::bin_decoder::decode;
use super::stream::decoded;
use crate::arith::is_lcm_of;
use crate::error::{Error, Result};
use crate::ir::divisions::{lcm_fits, note_multiples, voices_of};
use crate::ir::musical_part::MusicalPart;
use vstd::prelude::*;

verus! {

/// The part that a stream holds. Its id is `P1`, its resolution the least
/// common multiple of the denominators of its notes, and its voices those
/// of its notes.
///
/// A stream that does not decode is refused with the error of decoding; a
/// stream for whose notes no resolution of 32 bits is fine enough is
/// refused as unrepresentable.
pub fn bin_to_ir(bytes: &[u8]) -> (r: Result<MusicalPart>)
    ensures
        match r {
            Ok(part) => decoded(bytes@) is Ok && part.wf() && part@.elems == decoded(bytes@)->Ok_0.1
                && part@.part_str == "P1"@ && part@.voices == voices_of(part@.elems)
                && part@.divisions is Some && is_lcm_of(
                note_multiples(part@.elems),
                part@.divisions->Some_0 as nat,
            ),
            Err(e) => match decoded(bytes@) {
                Err(d) => e == d,
                Ok((_, elements)) => e == Error::UnrepresentableDuration && !lcm_fits(
                    note_multiples(elements),
                ),
            },
        },
{
    match decode(bytes) {
        Ok((_, parsed_elems)) => MusicalPart::new_from_elems("P1", parsed_elems),
        Err(e) => Err(e),
    }
}

} // verus!
