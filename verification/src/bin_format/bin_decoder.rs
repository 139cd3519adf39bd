use super::header::MusicBinHeader;
use super::layout::{
    element_of_word, field, measure_init_of_word, measure_meta_of_word, note_of_word, tag_of_word,
    tuplet_of_word, word_of_bytes, MusicTagIdentifiers,
};
use super::stream::{
    decoded, elements_of, has_unknown_record, le_u32_at, magic, parsed, records_of, word_at,
};
use crate::error::{Error, Result};
use crate::ir::elements::{
    MeasureInitializer, MeasureMetaData, MusicElement, NoteData, TupletData,
};
use crate::ir::notation::{
    Arpeggiate, Articulation, BeatType, Beats, Chord, DalSegno, Ending, KeySignature,
    MeasureStartEnd, NoteConnection, PhraseDynamics, RhythmType, SlurConnection, SpecialNote,
    Trill, TupletActual, TupletNormal, TupletNumber, TupletStartStop, Voice,
};
use crate::ir::pitch::NumericPitchRest;
use crate::ir::tempo::Tempo;
use vstd::prelude::*;

verus! {

/// Puts four bytes together to a record.
pub fn word_from_bytes(b0: u8, b1: u8, b2: u8, b3: u8) -> (word: u32)
    ensures
        word == word_of_bytes(b0, b1, b2, b3),
{
    b0 as u32 * 0x100_0000 + b1 as u32 * 0x1_0000 + b2 as u32 * 0x100 + b3 as u32
}

/// Reads one field of a record.
fn take_bits(word: u32, unit: u32, size: u32) -> (value: u8)
    requires
        0 < unit,
        0 < size <= 256,
    ensures
        value == field(word, unit as int, size as int),
        value < size,
{
    reveal(field);
    ((word / unit) % size) as u8
}

/// Reads the tag of a record. Each of the four numbers is a tag.
pub fn parse_id(word: u32) -> (id: MusicTagIdentifiers)
    ensures
        Some(id) == MusicTagIdentifiers::of_numeric(tag_of_word(word)),
{
    match MusicTagIdentifiers::from_numeric(take_bits(word, 0x4000_0000, 4)) {
        Ok(id) => id,
        Err(_) => MusicTagIdentifiers::Tuplet,
    }
}

/// Reads the fields of a measure initializer.
pub fn parse_measure_init(word: u32) -> (r: Result<MusicElement>)
    ensures
        r == match measure_init_of_word(word) {
            Some(m) => Ok::<MusicElement, Error>(MusicElement::MeasureInit(m)),
            None => Err::<MusicElement, Error>(Error::UnknownTag),
        },
{
    let beats = Beats::from_numeric(take_bits(word, 0x800_0000, 8));
    let beat_type = BeatType::from_numeric(take_bits(word, 0x200_0000, 4));
    let key_sig = KeySignature::from_numeric(take_bits(word, 0x20_0000, 16));
    let tempo = Tempo::new_from_raw(take_bits(word, 0x4000, 128));
    proof {
        tempo.lemma_of_raw();
    }
    match (beats, beat_type, key_sig) {
        (Ok(beats), Ok(beat_type), Ok(key_sig)) => Ok(
            MusicElement::MeasureInit(MeasureInitializer { beats, beat_type, key_sig, tempo }),
        ),
        _ => Err(Error::UnknownTag),
    }
}

/// Reads the fields of a measure boundary.
pub fn parse_measure_meta(word: u32) -> (r: Result<MusicElement>)
    ensures
        r == match measure_meta_of_word(word) {
            Some(m) => Ok::<MusicElement, Error>(MusicElement::MeasureMeta(m)),
            None => Err::<MusicElement, Error>(Error::UnknownTag),
        },
{
    let start_end = MeasureStartEnd::from_numeric(take_bits(word, 0x1000_0000, 4));
    let ending = Ending::from_numeric(take_bits(word, 0x400_0000, 4));
    let dal_segno = DalSegno::from_numeric(take_bits(word, 0x80_0000, 8));
    match (start_end, ending, dal_segno) {
        (Ok(start_end), Ok(ending), Ok(dal_segno)) => Ok(
            MusicElement::MeasureMeta(MeasureMetaData { start_end, ending, dal_segno }),
        ),
        _ => Err(Error::UnknownTag),
    }
}

/// Reads the fields of a note or rest.
pub fn parse_note_data_rest(word: u32) -> (r: Result<MusicElement>)
    ensures
        r == match note_of_word(word) {
            Some(n) => Ok::<MusicElement, Error>(MusicElement::NoteRest(n)),
            None => Err::<MusicElement, Error>(Error::UnknownTag),
        },
{
    let note_rest = NumericPitchRest::from_numeric(take_bits(word, 0x80_0000, 128));
    let phrase_dynamics = PhraseDynamics::from_numeric(take_bits(word, 0x8_0000, 16));
    let rhythm_value = RhythmType::from_numeric(take_bits(word, 0x1_0000, 8));
    let dotted: bool = take_bits(word, 0x8000, 2) != 0;
    let arpeggiate = Arpeggiate::from_numeric(take_bits(word, 0x4000, 2));
    let special_note = SpecialNote::from_numeric(take_bits(word, 0x1000, 4));
    let articulation = Articulation::from_numeric(take_bits(word, 0x200, 8));
    let trill = Trill::from_numeric(take_bits(word, 0x80, 4));
    let ties = NoteConnection::from_numeric(take_bits(word, 0x20, 4));
    let chord = Chord::from_numeric(take_bits(word, 0x10, 2));
    let slur = SlurConnection::from_numeric(take_bits(word, 0x4, 4));
    let voice = Voice::from_numeric(take_bits(word, 1, 4));
    match (note_rest, phrase_dynamics, rhythm_value, arpeggiate, special_note, articulation) {
        (
            Ok(note_rest),
            Ok(phrase_dynamics),
            Ok(note_type),
            Ok(arpeggiate),
            Ok(special_note),
            Ok(articulation),
        ) => match (trill, ties, chord, slur, voice) {
            (Ok(trill), Ok(ties), Ok(chord), Ok(slur), Ok(voice)) => Ok(
                MusicElement::NoteRest(
                    NoteData {
                        note_rest,
                        phrase_dynamics,
                        note_type,
                        dotted,
                        arpeggiate,
                        special_note,
                        articulation,
                        trill,
                        ties,
                        chord,
                        slur,
                        voice,
                    },
                ),
            ),
            _ => Err(Error::UnknownTag),
        },
        _ => Err(Error::UnknownTag),
    }
}

/// Reads the fields of a tuplet marker.
pub fn parse_tuplet_data(word: u32) -> (r: Result<MusicElement>)
    ensures
        r == match tuplet_of_word(word) {
            Some(t) => Ok::<MusicElement, Error>(MusicElement::Tuplet(t)),
            None => Err::<MusicElement, Error>(Error::UnknownTag),
        },
{
    let start_stop = TupletStartStop::from_numeric(take_bits(word, 0x1000_0000, 4));
    let tuplet_number = TupletNumber::from_numeric(take_bits(word, 0x200_0000, 8));
    let actual_notes = TupletActual::from_numeric(take_bits(word, 0x20_0000, 16));
    let normal_notes = TupletNormal::from_numeric(take_bits(word, 0x2_0000, 16));
    let dotted: bool = take_bits(word, 0x1_0000, 2) != 0;
    match (start_stop, tuplet_number, actual_notes, normal_notes) {
        (Ok(start_stop), Ok(tuplet_number), Ok(actual_notes), Ok(normal_notes)) => Ok(
            MusicElement::Tuplet(
                TupletData { start_stop, tuplet_number, actual_notes, normal_notes, dotted },
            ),
        ),
        _ => Err(Error::UnknownTag),
    }
}

/// Reads the element that a record holds.
pub fn parse_word(word: u32) -> (r: Result<MusicElement>)
    ensures
        r == match element_of_word(word) {
            Some(e) => Ok::<MusicElement, Error>(e),
            None => Err::<MusicElement, Error>(Error::UnknownTag),
        },
{
    match parse_id(word) {
        MusicTagIdentifiers::MeasureInitializer => parse_measure_init(word),
        MusicTagIdentifiers::MeasureMetaData => parse_measure_meta(word),
        MusicTagIdentifiers::NoteData => parse_note_data_rest(word),
        MusicTagIdentifiers::Tuplet => parse_tuplet_data(word),
    }
}

/// Reads the element at the start of `input`. Fewer than four bytes are no
/// record.
pub fn music_element(input: &[u8]) -> (r: Result<MusicElement>)
    ensures
        r == if input@.len() < 4 {
            Err::<MusicElement, Error>(Error::Truncated)
        } else {
            match element_of_word(word_at(input@, 0)) {
                Some(e) => Ok::<MusicElement, Error>(e),
                None => Err::<MusicElement, Error>(Error::UnknownTag),
            }
        },
{
    if input.len() < 4 {
        return Err(Error::Truncated);
    }
    parse_word(word_from_bytes(input[0], input[1], input[2], input[3]))
}

/// Reads the header at the start of `input`.
pub fn header_parser(input: &[u8]) -> (r: Result<MusicBinHeader>)
    ensures
        input@.len() < 8 ==> r == Err::<MusicBinHeader, Error>(Error::Truncated),
        input@.len() >= 8 && input@.subrange(0, 4) != magic() ==> r == Err::<MusicBinHeader, Error>(
            Error::MalformedHeader,
        ),
        input@.len() >= 8 && input@.subrange(0, 4) == magic() ==> (r matches Ok(h) && h.length()
            == le_u32_at(input@, 4) && h.identifier() == magic()),
{
    if input.len() < 8 {
        return Err(Error::Truncated);
    }
    if input[0] != 0x4d || input[1] != 0x75 || input[2] != 0x42 || input[3] != 0x69 {
        assert(input@.subrange(0, 4) != magic()) by {
            let s = input@.subrange(0, 4);
            assert(s[0] == input@[0] && s[1] == input@[1] && s[2] == input@[2] && s[3] == input@[3]);
        }
        return Err(Error::MalformedHeader);
    }
    assert(input@.subrange(0, 4) =~= magic());
    let length: u32 = input[4] as u32 + input[5] as u32 * 0x100 + input[6] as u32 * 0x1_0000
        + input[7] as u32 * 0x100_0000;
    Ok(MusicBinHeader::new(length as usize))
}

/// Reads the records that `input` holds from `start` to its end.
pub fn parse_records(input: &[u8], start: usize) -> (r: Result<Vec<MusicElement>>)
    requires
        start <= input@.len(),
    ensures
        match r {
            Ok(elements) => records_of(input@.skip(start as int)) == Ok::<Seq<MusicElement>, Error>(
                elements@,
            ),
            Err(e) => records_of(input@.skip(start as int)) == Err::<Seq<MusicElement>, Error>(e),
        },
{
    let ghost body = input@.skip(start as int);
    let count: usize = (input.len() - start) / 4;
    let mut elements: Vec<MusicElement> = Vec::new();
    let mut i: usize = 0;
    while i < count
        invariant
            start <= input@.len(),
            body == input@.skip(start as int),
            count == body.len() / 4,
            body.len() == input@.len() - start,
            input@.len() <= usize::MAX,
            i <= count,
            elements@.len() == i,
            forall|k: int|
                0 <= k < i ==> (#[trigger] element_of_word(word_at(body, 4 * k))) == Some(
                    elements@[k],
                ),
        decreases count - i,
    {
        let at: usize = start + 4 * i;
        let word = word_from_bytes(input[at], input[at + 1], input[at + 2], input[at + 3]);
        assert(word == word_at(body, 4 * i));
        match parse_word(word) {
            Ok(element) => {
                elements.push(element);
            },
            Err(e) => {
                assert(has_unknown_record(body)) by {
                    assert(element_of_word(word_at(body, 4 * (i as int))) is None);
                }
                return Err(e);
            },
        }
        i = i + 1;
    }
    assert(!has_unknown_record(body));
    if (input.len() - start) % 4 != 0 {
        return Err(Error::Truncated);
    }
    assert(elements@ =~= elements_of(body));
    Ok(elements)
}

/// Reads the header and the records of a stream, without holding the
/// declared length against the records.
pub fn parse_music_bin(input: &[u8]) -> (r: Result<(MusicBinHeader, Vec<MusicElement>)>)
    ensures
        match r {
            Ok((header, elements)) => parsed(input@) == Ok::<(u32, Seq<MusicElement>), Error>(
                (header.length() as u32, elements@),
            ) && header.length() <= u32::MAX && header.identifier() == magic(),
            Err(e) => parsed(input@) == Err::<(u32, Seq<MusicElement>), Error>(e),
        },
{
    let header = match header_parser(input) {
        Ok(header) => header,
        Err(e) => {
            return Err(e);
        },
    };
    match parse_records(input, 8) {
        Ok(elements) => Ok((header, elements)),
        Err(e) => Err(e),
    }
}

/// Decodes a stream: the header and the elements.
///
/// The stream is refused as `Truncated` where it ends inside the header or
/// inside a record, as `MalformedHeader` where it does not start with the
/// magic number or declares another length than its records have, and as
/// `UnknownTag` where a record holds a field value that its enumeration
/// does not define.
pub fn decode(bytes: &[u8]) -> (r: Result<(MusicBinHeader, Vec<MusicElement>)>)
    ensures
        match r {
            Ok((header, elements)) => decoded(bytes@) == Ok::<(u32, Seq<MusicElement>), Error>(
                (header.length() as u32, elements@),
            ) && header.length() == 4 * elements@.len() && header.identifier() == magic(),
            Err(e) => decoded(bytes@) == Err::<(u32, Seq<MusicElement>), Error>(e),
        },
{
    match parse_music_bin(bytes) {
        Ok((header, elements)) => {
            if header.get_length() / 4 != elements.len() || header.get_length() % 4 != 0 {
                Err(Error::MalformedHeader)
            } else {
                Ok((header, elements))
            }
        },
        Err(e) => Err(e),
    }
}

/// Holds the bytes of a stream while they arrive and decodes them.
pub struct MusicDecoder {
    data: Vec<u8>,
}

impl MusicDecoder {
    /// The bytes received so far.
    pub closed spec fn view(&self) -> Seq<u8> {
        self.data@
    }

    /// A decoder that has received no bytes.
    pub fn new() -> (d: MusicDecoder)
        ensures
            d@ == Seq::<u8>::empty(),
    {
        MusicDecoder { data: Vec::new() }
    }

    /// Forgets the bytes received.
    pub fn clear_data(&mut self)
        ensures
            final(self)@ == Seq::<u8>::empty(),
    {
        self.data.clear();
    }

    /// Takes more bytes of the stream.
    pub fn raw_read(&mut self, bytes: &[u8])
        ensures
            final(self)@ == old(self)@ + bytes@,
    {
        self.data.extend_from_slice(bytes);
    }

    /// Reads the element at the start of the bytes, which here are records
    /// without a header.
    pub fn parse_element(&self) -> (r: Result<MusicElement>)
        ensures
            r == if self@.len() < 4 {
                Err::<MusicElement, Error>(Error::Truncated)
            } else {
                match element_of_word(word_at(self@, 0)) {
                    Some(e) => Ok::<MusicElement, Error>(e),
                    None => Err::<MusicElement, Error>(Error::UnknownTag),
                }
            },
    {
        music_element(self.data.as_slice())
    }

    /// Decodes the bytes as a whole stream and gives its elements.
    pub fn parse_data(&self) -> (r: Result<Vec<MusicElement>>)
        ensures
            match r {
                Ok(elements) => decoded(self@) == Ok::<(u32, Seq<MusicElement>), Error>(
                    ((4 * elements@.len()) as u32, elements@),
                ),
                Err(e) => decoded(self@) == Err::<(u32, Seq<MusicElement>), Error>(e),
            },
    {
        match decode(self.data.as_slice()) {
            Ok((_, elements)) => Ok(elements),
            Err(e) => Err(e),
        }
    }
}

} // verus!
