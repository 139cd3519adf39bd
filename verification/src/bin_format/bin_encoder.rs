use super::header::MusicBinHeader;
use super::layout::{
    bit, byte_of_word, word_of_element, word_of_measure_init, word_of_measure_meta, word_of_note,
    word_of_tuplet, MusicTagIdentifiers,
};
use super::stream::{encoded, header_bytes, records_bytes};
use crate::ir::elements::{
    MeasureInitializer, MeasureMetaData, MusicElement, NoteData, TupletData,
};
use vstd::prelude::*;

verus! {

/// The four bytes of a record, the top byte first.
pub open spec fn word_bytes(word: u32) -> Seq<u8> {
    seq![
        byte_of_word(word, 0),
        byte_of_word(word, 1),
        byte_of_word(word, 2),
        byte_of_word(word, 3),
    ]
}

/// The records of a sequence end with the record of its last element.
pub proof fn lemma_records_push(elements: Seq<MusicElement>, element: MusicElement)
    ensures
        records_bytes(elements.push(element)) == records_bytes(elements) + word_bytes(
            word_of_element(element),
        ),
{
    let longer = elements.push(element);
    let left = records_bytes(longer);
    let right = records_bytes(elements) + word_bytes(word_of_element(element));
    assert(left.len() == right.len());
    assert forall|j: int| 0 <= j < left.len() implies left[j] == right[j] by {
        if j < 4 * elements.len() {
            assert(longer[j / 4] == elements[j / 4]);
        } else {
            assert(j / 4 == elements.len());
            assert(longer[j / 4] == element);
        }
    }
    assert(left =~= right);
}

fn flag(b: bool) -> (v: u32)
    ensures
        v == bit(b),
{
    if b {
        1
    } else {
        0
    }
}

/// Packs a measure initializer into its record.
pub fn measure_init_word(m: MeasureInitializer) -> (word: u32)
    ensures
        word == word_of_measure_init(m),
{
    let tag: u32 = MusicTagIdentifiers::MeasureInitializer.to_numeric() as u32;
    let beats: u32 = m.beats.to_numeric() as u32;
    let beat_type: u32 = m.beat_type.to_numeric() as u32;
    let key_sig: u32 = m.key_sig.to_numeric() as u32;
    let tempo: u32 = m.tempo.get_raw() as u32;
    proof {
        m.beats.lemma_numeric_inverse(0);
        m.beat_type.lemma_numeric_inverse(0);
        m.key_sig.lemma_numeric_inverse(0);
    }
    tag * 0x4000_0000 + beats * 0x800_0000 + beat_type * 0x200_0000 + key_sig * 0x20_0000 + tempo
        * 0x4000
}

/// Packs a measure boundary into its record.
pub fn measure_meta_word(m: MeasureMetaData) -> (word: u32)
    ensures
        word == word_of_measure_meta(m),
{
    let tag: u32 = MusicTagIdentifiers::MeasureMetaData.to_numeric() as u32;
    let start_end: u32 = m.start_end.to_numeric() as u32;
    let ending: u32 = m.ending.to_numeric() as u32;
    let dal_segno: u32 = m.dal_segno.to_numeric() as u32;
    proof {
        m.start_end.lemma_numeric_inverse(0);
        m.ending.lemma_numeric_inverse(0);
        m.dal_segno.lemma_numeric_inverse(0);
    }
    tag * 0x4000_0000 + start_end * 0x1000_0000 + ending * 0x400_0000 + dal_segno * 0x80_0000
}

/// Packs a note or rest into its record. Of a pitch only the lowest seven
/// bits are kept.
pub fn note_word(n: NoteData) -> (word: u32)
    ensures
        word == word_of_note(n),
{
    let tag: u32 = MusicTagIdentifiers::NoteData.to_numeric() as u32;
    let note: u32 = (n.note_rest.get_numeric_value() % 128) as u32;
    let phrase_dynamics: u32 = n.phrase_dynamics.to_numeric() as u32;
    let rhythm_value: u32 = n.note_type.to_numeric() as u32;
    let dotted: u32 = flag(n.dotted);
    let arpeggiate: u32 = n.arpeggiate.to_numeric() as u32;
    let special_note: u32 = n.special_note.to_numeric() as u32;
    let articulation: u32 = n.articulation.to_numeric() as u32;
    let trill: u32 = n.trill.to_numeric() as u32;
    let ties: u32 = n.ties.to_numeric() as u32;
    let chord: u32 = n.chord.to_numeric() as u32;
    let slur: u32 = n.slur.to_numeric() as u32;
    let voice: u32 = n.voice.to_numeric() as u32;
    proof {
        n.phrase_dynamics.lemma_numeric_inverse(0);
        n.note_type.lemma_numeric_inverse(0);
        n.arpeggiate.lemma_numeric_inverse(0);
        n.special_note.lemma_numeric_inverse(0);
        n.articulation.lemma_numeric_inverse(0);
        n.trill.lemma_numeric_inverse(0);
        n.ties.lemma_numeric_inverse(0);
        n.chord.lemma_numeric_inverse(0);
        n.slur.lemma_numeric_inverse(0);
        n.voice.lemma_numeric_inverse(0);
    }
    tag * 0x4000_0000 + note * 0x80_0000 + phrase_dynamics * 0x8_0000 + rhythm_value * 0x1_0000
        + dotted * 0x8000 + arpeggiate * 0x4000 + special_note * 0x1000 + articulation * 0x200
        + trill * 0x80 + ties * 0x20 + chord * 0x10 + slur * 0x4 + voice
}

/// Packs a tuplet marker into its record. Of the number of notes played
/// only the lowest four bits are kept.
pub fn tuplet_word(t: TupletData) -> (word: u32)
    ensures
        word == word_of_tuplet(t),
{
    let tag: u32 = MusicTagIdentifiers::Tuplet.to_numeric() as u32;
    let start_stop: u32 = t.start_stop.to_numeric() as u32;
    let tuplet_number: u32 = t.tuplet_number.to_numeric() as u32;
    let actual_notes: u32 = (t.actual_notes.to_numeric() % 16) as u32;
    let normal_notes: u32 = t.normal_notes.to_numeric() as u32;
    let dotted: u32 = flag(t.dotted);
    proof {
        t.start_stop.lemma_numeric_inverse(0);
        t.tuplet_number.lemma_numeric_inverse(0);
        t.normal_notes.lemma_numeric_inverse(0);
    }
    tag * 0x4000_0000 + start_stop * 0x1000_0000 + tuplet_number * 0x200_0000 + actual_notes
        * 0x20_0000 + normal_notes * 0x2_0000 + dotted * 0x1_0000
}

/// Packs an element into its record.
pub fn element_word(element: MusicElement) -> (word: u32)
    ensures
        word == word_of_element(element),
{
    match element {
        MusicElement::MeasureInit(m) => measure_init_word(m),
        MusicElement::MeasureMeta(m) => measure_meta_word(m),
        MusicElement::NoteRest(n) => note_word(n),
        MusicElement::Tuplet(t) => tuplet_word(t),
    }
}

/// Collects the bytes of a stream, in the order in which they are written.
pub struct MusicEncoder {
    w: Vec<u8>,
}

impl MusicEncoder {
    /// The bytes written so far.
    pub closed spec fn view(&self) -> Seq<u8> {
        self.w@
    }

    /// An encoder that has written nothing.
    pub fn new() -> (e: MusicEncoder)
        ensures
            e@ == Seq::<u8>::empty(),
    {
        MusicEncoder { w: Vec::new() }
    }

    fn write_chunk(&mut self, word: u32)
        ensures
            final(self)@ == old(self)@ + word_bytes(word),
    {
        self.w.push((word / 0x100_0000) as u8);
        self.w.push((word / 0x1_0000 % 0x100) as u8);
        self.w.push((word / 0x100 % 0x100) as u8);
        self.w.push((word % 0x100) as u8);
        assert(self.w@ =~= old(self).w@ + word_bytes(word));
    }

    /// Writes the header of a stream whose records take `length` bytes.
    pub fn create_header(&mut self, length: usize)
        requires
            length <= u32::MAX,
        ensures
            final(self)@ == old(self)@ + header_bytes(length as u32),
    {
        let hdr = MusicBinHeader::new(length);
        let mut bytes = hdr.to_bytes();
        self.w.append(&mut bytes);
    }

    /// Writes the record of a measure initializer.
    pub fn insert_measure_initializer(&mut self, measure_init: MeasureInitializer)
        ensures
            final(self)@ == old(self)@ + word_bytes(word_of_measure_init(measure_init)),
    {
        self.write_chunk(measure_init_word(measure_init));
    }

    /// Writes the record of a measure boundary.
    pub fn insert_measure_metadata(&mut self, measure_meta: MeasureMetaData)
        ensures
            final(self)@ == old(self)@ + word_bytes(word_of_measure_meta(measure_meta)),
    {
        self.write_chunk(measure_meta_word(measure_meta));
    }

    /// Writes the record of a note or rest.
    pub fn insert_note_data(&mut self, note_data: NoteData)
        ensures
            final(self)@ == old(self)@ + word_bytes(word_of_note(note_data)),
    {
        self.write_chunk(note_word(note_data));
    }

    /// Writes the record of a tuplet marker.
    pub fn insert_tuplet_data(&mut self, tuplet_data: TupletData)
        ensures
            final(self)@ == old(self)@ + word_bytes(word_of_tuplet(tuplet_data)),
    {
        self.write_chunk(tuplet_word(tuplet_data));
    }

    /// Writes the record of an element.
    pub fn insert_element(&mut self, element: MusicElement)
        ensures
            final(self)@ == old(self)@ + word_bytes(word_of_element(element)),
    {
        match element {
            MusicElement::MeasureInit(m) => self.insert_measure_initializer(m),
            MusicElement::MeasureMeta(m) => self.insert_measure_metadata(m),
            MusicElement::NoteRest(n) => self.insert_note_data(n),
            MusicElement::Tuplet(t) => self.insert_tuplet_data(t),
        }
    }

    /// Hands out the bytes written.
    pub fn into_bytes(self) -> (bytes: Vec<u8>)
        ensures
            bytes@ == self@,
    {
        self.w
    }
}

/// Encodes a sequence of elements as a stream: the header, then one record
/// for each element.
pub fn encode(elements: &Vec<MusicElement>) -> (bytes: Vec<u8>)
    requires
        4 * elements@.len() <= u32::MAX,
    ensures
        bytes@ == encoded(elements@),
{
    let mut encoder = MusicEncoder::new();
    encoder.create_header(elements.len() * 4);
    let mut i: usize = 0;
    assert(records_bytes(elements@.take(0)) =~= Seq::<u8>::empty());
    while i < elements.len()
        invariant
            i <= elements@.len(),
            4 * elements@.len() <= u32::MAX,
            encoder@ == header_bytes((4 * elements@.len()) as u32) + records_bytes(
                elements@.take(i as int),
            ),
        decreases elements@.len() - i,
    {
        proof {
            lemma_records_push(elements@.take(i as int), elements@[i as int]);
            assert(elements@.take(i as int).push(elements@[i as int]) =~= elements@.take(i + 1));
        }
        encoder.insert_element(elements[i]);
        i = i + 1;
    }
    assert(elements@.take(i as int) =~= elements@);
    encoder.into_bytes()
}

} // verus!
