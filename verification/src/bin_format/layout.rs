use crate::error::{Error, Result};
use crate::ir::elements::{
    MeasureInitializer, MeasureMetaData, MusicElement, NoteData, TupletData,
};
use crate::ir::notation::{
    Arpeggiate, Articulation, BeatType, Beats, Chord, DalSegno, Ending, KeySignature,
    MeasureStartEnd, NoteConnection, PhraseDynamics, RhythmType, SlurConnection, SpecialNote,
    Trill, TupletActual, TupletNormal, TupletNumber, TupletStartStop, Voice,
};
use crate::ir::pitch::NumericPitchRest;
use crate::ir::tempo::Tempo;
use vstd::prelude::*;

verus! {

/// The number of bytes of one record.
pub const MUSIC_ELEMENT_LENGTH: usize = 4;

/// The first two bits of a record, which say what the other thirty hold.
#[derive(Clone, Copy, PartialEq, Eq, Debug, Hash, Structural)]
pub enum MusicTagIdentifiers {
    MeasureInitializer,
    MeasureMetaData,
    NoteData,
    Tuplet,
}

impl MusicTagIdentifiers {
    /// The number that stands for the tag in a record.
    pub open spec fn numeric(self) -> u8 {
        match self {
            MusicTagIdentifiers::MeasureInitializer => 0,
            MusicTagIdentifiers::MeasureMetaData => 1,
            MusicTagIdentifiers::NoteData => 2,
            MusicTagIdentifiers::Tuplet => 3,
        }
    }

    /// The tag that a number stands for, if there is one.
    pub open spec fn of_numeric(raw: u8) -> Option<MusicTagIdentifiers> {
        match raw {
            0 => Some(MusicTagIdentifiers::MeasureInitializer),
            1 => Some(MusicTagIdentifiers::MeasureMetaData),
            2 => Some(MusicTagIdentifiers::NoteData),
            3 => Some(MusicTagIdentifiers::Tuplet),
            _ => None,
        }
    }

    /// The tag of an element.
    pub open spec fn of_element(element: MusicElement) -> MusicTagIdentifiers {
        match element {
            MusicElement::MeasureInit(_) => MusicTagIdentifiers::MeasureInitializer,
            MusicElement::MeasureMeta(_) => MusicTagIdentifiers::MeasureMetaData,
            MusicElement::NoteRest(_) => MusicTagIdentifiers::NoteData,
            MusicElement::Tuplet(_) => MusicTagIdentifiers::Tuplet,
        }
    }

    /// The number that stands for the value.
    pub fn to_numeric(self) -> (raw: u8)
        ensures
            raw == self.numeric(),
            raw < 4,
    {
        match self {
            MusicTagIdentifiers::MeasureInitializer => 0,
            MusicTagIdentifiers::MeasureMetaData => 1,
            MusicTagIdentifiers::NoteData => 2,
            MusicTagIdentifiers::Tuplet => 3,
        }
    }

    /// The value that a number stands for; `UnknownTag` where it stands for
    /// none.
    pub fn from_numeric(raw: u8) -> (r: Result<MusicTagIdentifiers>)
        ensures
            r == match Self::of_numeric(raw) {
                Some(v) => Ok::<MusicTagIdentifiers, Error>(v),
                None => Err::<MusicTagIdentifiers, Error>(Error::UnknownTag),
            },
    {
        match raw {
            0 => Ok(MusicTagIdentifiers::MeasureInitializer),
            1 => Ok(MusicTagIdentifiers::MeasureMetaData),
            2 => Ok(MusicTagIdentifiers::NoteData),
            3 => Ok(MusicTagIdentifiers::Tuplet),
            _ => Err(Error::UnknownTag),
        }
    }
}

/// The record whose bytes are `b0` to `b3`, read as one number with `b0` on
/// top. Bit 0 of a record is the top bit of that number.
pub open spec fn word_of_bytes(b0: u8, b1: u8, b2: u8, b3: u8) -> u32 {
    (b0 as int * 0x100_0000 + b1 as int * 0x1_0000 + b2 as int * 0x100 + b3 as int) as u32
}

/// The byte at place `i` (0 to 3) of a record.
pub open spec fn byte_of_word(word: u32, i: int) -> u8 {
    if i == 0 {
        (word / 0x100_0000) as u8
    } else if i == 1 {
        (word / 0x1_0000 % 0x100) as u8
    } else if i == 2 {
        (word / 0x100 % 0x100) as u8
    } else {
        (word % 0x100) as u8
    }
}

/// The field of a record that ends `unit` above the lowest bit and has
/// `size` values: `unit` and `size` are powers of two.
#[verifier::opaque]
pub open spec fn field(word: u32, unit: int, size: int) -> u8 {
    (word as int / unit % size) as u8
}

/// The tag number of a record: bits 0 and 1.
pub open spec fn tag_of_word(word: u32) -> u8 {
    field(word, 0x4000_0000, 4)
}

/// The record of a measure initializer: the tag 0, then beats (3 bits), beat
/// type (2), key (4), tempo (7) and 14 bits that are left clear.
pub open spec fn word_of_measure_init(m: MeasureInitializer) -> u32 {
    (m.beats.numeric() as int * 0x800_0000 + m.beat_type.numeric() as int * 0x200_0000
        + m.key_sig.numeric() as int * 0x20_0000 + (m.tempo.raw() as int % 128) * 0x4000) as u32
}

/// The record of a measure boundary: the tag 1, then the kind of boundary (2
/// bits), the ending (2), the navigation marker (3) and 23 bits that are
/// left clear.
pub open spec fn word_of_measure_meta(m: MeasureMetaData) -> u32 {
    (0x4000_0000 + m.start_end.numeric() as int * 0x1000_0000 + m.ending.numeric() as int
        * 0x400_0000 + m.dal_segno.numeric() as int * 0x80_0000) as u32
}

/// 1 for `true`, 0 for `false`.
pub open spec fn bit(b: bool) -> int {
    if b {
        1
    } else {
        0
    }
}

/// The record of a note or rest: the tag 2, then pitch (7 bits), dynamics
/// (4), rhythm type (3), dot (1), arpeggio (1), special note (2),
/// articulation (3), trill (2), tie (2), chord (1), slur (2) and voice (2).
pub open spec fn word_of_note(n: NoteData) -> u32 {
    (0x8000_0000 + (n.note_rest.numeric() as int % 128) * 0x80_0000
        + n.phrase_dynamics.numeric() as int * 0x8_0000 + n.note_type.numeric() as int * 0x1_0000
        + bit(n.dotted) * 0x8000 + n.arpeggiate.numeric() as int * 0x4000
        + n.special_note.numeric() as int * 0x1000 + n.articulation.numeric() as int * 0x200
        + n.trill.numeric() as int * 0x80 + n.ties.numeric() as int * 0x20 + n.chord.numeric() as int
        * 0x10 + n.slur.numeric() as int * 0x4 + n.voice.numeric() as int) as u32
}

/// The record of a tuplet marker: the tag 3, then start or stop (2 bits),
/// the tuplet's number (3), the notes played (4), the notes whose time they
/// take (4), the dot (1) and 16 bits that are left clear.
pub open spec fn word_of_tuplet(t: TupletData) -> u32 {
    (0xC000_0000 + t.start_stop.numeric() as int * 0x1000_0000 + t.tuplet_number.numeric() as int
        * 0x200_0000 + (t.actual_notes.numeric() as int % 16) * 0x20_0000
        + t.normal_notes.numeric() as int * 0x2_0000 + bit(t.dotted) * 0x1_0000) as u32
}

/// The record of an element.
pub open spec fn word_of_element(element: MusicElement) -> u32 {
    match element {
        MusicElement::MeasureInit(m) => word_of_measure_init(m),
        MusicElement::MeasureMeta(m) => word_of_measure_meta(m),
        MusicElement::NoteRest(n) => word_of_note(n),
        MusicElement::Tuplet(t) => word_of_tuplet(t),
    }
}

/// The measure initializer that a record holds behind its tag, if each
/// field holds a number that its enumeration defines.
pub open spec fn measure_init_of_word(word: u32) -> Option<MeasureInitializer> {
    let beats = Beats::of_numeric(field(word, 0x800_0000, 8));
    let beat_type = BeatType::of_numeric(field(word, 0x200_0000, 4));
    let key_sig = KeySignature::of_numeric(field(word, 0x20_0000, 16));
    if beats is Some && beat_type is Some && key_sig is Some {
        Some(
            MeasureInitializer {
                beats: beats->Some_0,
                beat_type: beat_type->Some_0,
                key_sig: key_sig->Some_0,
                tempo: Tempo::of_raw(field(word, 0x4000, 128)),
            },
        )
    } else {
        None
    }
}

/// The measure boundary that a record holds behind its tag, if each field
/// holds a number that its enumeration defines.
pub open spec fn measure_meta_of_word(word: u32) -> Option<MeasureMetaData> {
    let start_end = MeasureStartEnd::of_numeric(field(word, 0x1000_0000, 4));
    let ending = Ending::of_numeric(field(word, 0x400_0000, 4));
    let dal_segno = DalSegno::of_numeric(field(word, 0x80_0000, 8));
    if start_end is Some && ending is Some && dal_segno is Some {
        Some(
            MeasureMetaData {
                start_end: start_end->Some_0,
                ending: ending->Some_0,
                dal_segno: dal_segno->Some_0,
            },
        )
    } else {
        None
    }
}

/// The note or rest that a record holds behind its tag, if each field holds
/// a number that its enumeration defines.
pub open spec fn note_of_word(word: u32) -> Option<NoteData> {
    let note_rest = NumericPitchRest::of_numeric(field(word, 0x80_0000, 128));
    let phrase_dynamics = PhraseDynamics::of_numeric(field(word, 0x8_0000, 16));
    let note_type = RhythmType::of_numeric(field(word, 0x1_0000, 8));
    let arpeggiate = Arpeggiate::of_numeric(field(word, 0x4000, 2));
    let special_note = SpecialNote::of_numeric(field(word, 0x1000, 4));
    let articulation = Articulation::of_numeric(field(word, 0x200, 8));
    let trill = Trill::of_numeric(field(word, 0x80, 4));
    let ties = NoteConnection::of_numeric(field(word, 0x20, 4));
    let chord = Chord::of_numeric(field(word, 0x10, 2));
    let slur = SlurConnection::of_numeric(field(word, 0x4, 4));
    let voice = Voice::of_numeric(field(word, 1, 4));
    if note_rest is Some && phrase_dynamics is Some && note_type is Some && arpeggiate is Some
        && special_note is Some && articulation is Some && trill is Some && ties is Some
        && chord is Some && slur is Some && voice is Some {
        Some(
            NoteData {
                note_rest: note_rest->Some_0,
                phrase_dynamics: phrase_dynamics->Some_0,
                note_type: note_type->Some_0,
                dotted: field(word, 0x8000, 2) != 0,
                arpeggiate: arpeggiate->Some_0,
                special_note: special_note->Some_0,
                articulation: articulation->Some_0,
                trill: trill->Some_0,
                ties: ties->Some_0,
                chord: chord->Some_0,
                slur: slur->Some_0,
                voice: voice->Some_0,
            },
        )
    } else {
        None
    }
}

/// The tuplet marker that a record holds behind its tag, if each field
/// holds a number that its enumeration defines.
pub open spec fn tuplet_of_word(word: u32) -> Option<TupletData> {
    let start_stop = TupletStartStop::of_numeric(field(word, 0x1000_0000, 4));
    let tuplet_number = TupletNumber::of_numeric(field(word, 0x200_0000, 8));
    let actual_notes = TupletActual::of_numeric(field(word, 0x20_0000, 16));
    let normal_notes = TupletNormal::of_numeric(field(word, 0x2_0000, 16));
    if start_stop is Some && tuplet_number is Some && actual_notes is Some && normal_notes is Some {
        Some(
            TupletData {
                start_stop: start_stop->Some_0,
                tuplet_number: tuplet_number->Some_0,
                actual_notes: actual_notes->Some_0,
                normal_notes: normal_notes->Some_0,
                dotted: field(word, 0x1_0000, 2) != 0,
            },
        )
    } else {
        None
    }
}

/// The element that a record holds, if each field holds a number that its
/// enumeration defines.
pub open spec fn element_of_word(word: u32) -> Option<MusicElement> {
    match MusicTagIdentifiers::of_numeric(tag_of_word(word)) {
        Some(MusicTagIdentifiers::MeasureInitializer) => match measure_init_of_word(word) {
            Some(m) => Some(MusicElement::MeasureInit(m)),
            None => None,
        },
        Some(MusicTagIdentifiers::MeasureMetaData) => match measure_meta_of_word(word) {
            Some(m) => Some(MusicElement::MeasureMeta(m)),
            None => None,
        },
        Some(MusicTagIdentifiers::NoteData) => match note_of_word(word) {
            Some(n) => Some(MusicElement::NoteRest(n)),
            None => None,
        },
        Some(MusicTagIdentifiers::Tuplet) => match tuplet_of_word(word) {
            Some(t) => Some(MusicElement::Tuplet(t)),
            None => None,
        },
        None => None,
    }
}

/// The bits of a record that no field uses.
pub open spec fn reserved_of_word(word: u32) -> int {
    match MusicTagIdentifiers::of_numeric(tag_of_word(word)) {
        Some(MusicTagIdentifiers::MeasureInitializer) => word as int % 0x4000,
        Some(MusicTagIdentifiers::MeasureMetaData) => word as int % 0x80_0000,
        Some(MusicTagIdentifiers::NoteData) => 0,
        Some(MusicTagIdentifiers::Tuplet) => word as int % 0x1_0000,
        None => 0,
    }
}

/// Whether each field of an element holds a value that its place in the
/// record has room for: a pitch from C0 to C8 or a rest, a tempo of seven
/// bits, and a tuplet of at most 21 notes.
pub open spec fn encodable(element: MusicElement) -> bool {
    match element {
        MusicElement::MeasureInit(m) => m.tempo.wf(),
        MusicElement::MeasureMeta(_) => true,
        MusicElement::NoteRest(n) => n.note_rest.wf(),
        MusicElement::Tuplet(t) => t.actual_notes != TupletActual::TwentyFive,
    }
}

proof fn lemma_pack_measure_init(a: u32, b: u32, c: u32, d: u32)
    requires
        a < 8,
        b < 4,
        c < 16,
        d < 128,
    ensures
        ({
            let w = (a * 0x800_0000 + b * 0x200_0000 + c * 0x20_0000 + d * 0x4000) as u32;
            &&& w == a * 0x800_0000 + b * 0x200_0000 + c * 0x20_0000 + d * 0x4000
            &&& tag_of_word(w) == 0
            &&& field(w, 0x800_0000, 8) == a
            &&& field(w, 0x200_0000, 4) == b
            &&& field(w, 0x20_0000, 16) == c
            &&& field(w, 0x4000, 128) == d
            &&& w as int % 0x4000 == 0
        }),
{
    reveal(field);
    let w = (a * 0x800_0000 + b * 0x200_0000 + c * 0x20_0000 + d * 0x4000) as u32;
    assert(a * 0x800_0000 + b * 0x200_0000 + c * 0x20_0000 + d * 0x4000 < 0x4000_0000);
    assert(w / 0x4000_0000 % 4 == 0 && w / 0x800_0000 % 8 == a && w / 0x200_0000 % 4 == b && w
        / 0x20_0000 % 16 == c && w / 0x4000 % 128 == d && w % 0x4000 == 0) by (bit_vector)
        requires
            w == a * 0x800_0000 + b * 0x200_0000 + c * 0x20_0000 + d * 0x4000,
            a < 8,
            b < 4,
            c < 16,
            d < 128,
    ;
}

proof fn lemma_pack_measure_meta(a: u32, b: u32, c: u32)
    requires
        a < 4,
        b < 4,
        c < 8,
    ensures
        ({
            let w = (0x4000_0000 + a * 0x1000_0000 + b * 0x400_0000 + c * 0x80_0000) as u32;
            &&& w == 0x4000_0000 + a * 0x1000_0000 + b * 0x400_0000 + c * 0x80_0000
            &&& tag_of_word(w) == 1
            &&& field(w, 0x1000_0000, 4) == a
            &&& field(w, 0x400_0000, 4) == b
            &&& field(w, 0x80_0000, 8) == c
            &&& w as int % 0x80_0000 == 0
        }),
{
    reveal(field);
    let w = (0x4000_0000 + a * 0x1000_0000 + b * 0x400_0000 + c * 0x80_0000) as u32;
    assert(0x4000_0000 + a * 0x1000_0000 + b * 0x400_0000 + c * 0x80_0000 < 0x8000_0000);
    assert(w / 0x4000_0000 % 4 == 1 && w / 0x1000_0000 % 4 == a && w / 0x400_0000 % 4 == b && w
        / 0x80_0000 % 8 == c && w % 0x80_0000 == 0) by (bit_vector)
        requires
            w == 0x4000_0000 + a * 0x1000_0000 + b * 0x400_0000 + c * 0x80_0000,
            a < 4,
            b < 4,
            c < 8,
    ;
}

proof fn lemma_pack_tuplet(a: u32, b: u32, c: u32, d: u32, e: u32)
    requires
        a < 4,
        b < 8,
        c < 16,
        d < 16,
        e < 2,
    ensures
        ({
            let w = (0xC000_0000 + a * 0x1000_0000 + b * 0x200_0000 + c * 0x20_0000 + d * 0x2_0000
                + e * 0x1_0000) as u32;
            &&& w == 0xC000_0000 + a * 0x1000_0000 + b * 0x200_0000 + c * 0x20_0000 + d * 0x2_0000
                + e * 0x1_0000
            &&& tag_of_word(w) == 3
            &&& field(w, 0x1000_0000, 4) == a
            &&& field(w, 0x200_0000, 8) == b
            &&& field(w, 0x20_0000, 16) == c
            &&& field(w, 0x2_0000, 16) == d
            &&& field(w, 0x1_0000, 2) == e
            &&& w as int % 0x1_0000 == 0
        }),
{
    reveal(field);
    let w = (0xC000_0000 + a * 0x1000_0000 + b * 0x200_0000 + c * 0x20_0000 + d * 0x2_0000 + e
        * 0x1_0000) as u32;
    assert(0xC000_0000 + a * 0x1000_0000 + b * 0x200_0000 + c * 0x20_0000 + d * 0x2_0000 + e
        * 0x1_0000 < 0x1_0000_0000);
    assert(w / 0x4000_0000 % 4 == 3 && w / 0x1000_0000 % 4 == a && w / 0x200_0000 % 8 == b && w
        / 0x20_0000 % 16 == c && w / 0x2_0000 % 16 == d && w / 0x1_0000 % 2 == e && w % 0x1_0000
        == 0) by (bit_vector)
        requires
            w == 0xC000_0000 + a * 0x1000_0000 + b * 0x200_0000 + c * 0x20_0000 + d * 0x2_0000 + e
                * 0x1_0000,
            a < 4,
            b < 8,
            c < 16,
            d < 16,
            e < 2,
    ;
}

proof fn lemma_pack_note(
    a: u32,
    b: u32,
    c: u32,
    d: u32,
    e: u32,
    f: u32,
    g: u32,
    h: u32,
    i: u32,
    j: u32,
    k: u32,
    l: u32,
)
    requires
        a < 128,
        b < 16,
        c < 8,
        d < 2,
        e < 2,
        f < 4,
        g < 8,
        h < 4,
        i < 4,
        j < 2,
        k < 4,
        l < 4,
    ensures
        ({
            let w = (0x8000_0000 + a * 0x80_0000 + b * 0x8_0000 + c * 0x1_0000 + d * 0x8000 + e
                * 0x4000 + f * 0x1000 + g * 0x200 + h * 0x80 + i * 0x20 + j * 0x10 + k * 0x4
                + l) as u32;
            &&& w == 0x8000_0000 + a * 0x80_0000 + b * 0x8_0000 + c * 0x1_0000 + d * 0x8000 + e
                * 0x4000 + f * 0x1000 + g * 0x200 + h * 0x80 + i * 0x20 + j * 0x10 + k * 0x4 + l
            &&& tag_of_word(w) == 2
            &&& field(w, 0x80_0000, 128) == a
            &&& field(w, 0x8_0000, 16) == b
            &&& field(w, 0x1_0000, 8) == c
            &&& field(w, 0x8000, 2) == d
            &&& field(w, 0x4000, 2) == e
            &&& field(w, 0x1000, 4) == f
            &&& field(w, 0x200, 8) == g
            &&& field(w, 0x80, 4) == h
            &&& field(w, 0x20, 4) == i
            &&& field(w, 0x10, 2) == j
            &&& field(w, 0x4, 4) == k
            &&& field(w, 1, 4) == l
        }),
{
    reveal(field);
    let w = (0x8000_0000 + a * 0x80_0000 + b * 0x8_0000 + c * 0x1_0000 + d * 0x8000 + e * 0x4000
        + f * 0x1000 + g * 0x200 + h * 0x80 + i * 0x20 + j * 0x10 + k * 0x4 + l) as u32;
    assert(0x8000_0000 + a * 0x80_0000 + b * 0x8_0000 + c * 0x1_0000 + d * 0x8000 + e * 0x4000 + f
        * 0x1000 + g * 0x200 + h * 0x80 + i * 0x20 + j * 0x10 + k * 0x4 + l < 0xC000_0000);
    assert(w / 0x4000_0000 % 4 == 2 && w / 0x80_0000 % 128 == a && w / 0x8_0000 % 16 == b && w
        / 0x1_0000 % 8 == c && w / 0x8000 % 2 == d && w / 0x4000 % 2 == e && w / 0x1000 % 4 == f
        && w / 0x200 % 8 == g && w / 0x80 % 4 == h && w / 0x20 % 4 == i && w / 0x10 % 2 == j && w
        / 0x4 % 4 == k && w / 1 % 4 == l) by (bit_vector)
        requires
            w == 0x8000_0000 + a * 0x80_0000 + b * 0x8_0000 + c * 0x1_0000 + d * 0x8000 + e
                * 0x4000 + f * 0x1000 + g * 0x200 + h * 0x80 + i * 0x20 + j * 0x10 + k * 0x4 + l,
            a < 128,
            b < 16,
            c < 8,
            d < 2,
            e < 2,
            f < 4,
            g < 8,
            h < 4,
            i < 4,
            j < 2,
            k < 4,
            l < 4,
    ;
}

/// A record is the sum of its fields, each at its place.
proof fn lemma_unpack(w: u32)
    ensures
        tag_of_word(w) == 0 ==> w == field(w, 0x800_0000, 8) * 0x800_0000 + field(w, 0x200_0000, 4)
            * 0x200_0000 + field(w, 0x20_0000, 16) * 0x20_0000 + field(w, 0x4000, 128) * 0x4000 + w
            % 0x4000,
        tag_of_word(w) == 1 ==> w == 0x4000_0000 + field(w, 0x1000_0000, 4) * 0x1000_0000 + field(
            w,
            0x400_0000,
            4,
        ) * 0x400_0000 + field(w, 0x80_0000, 8) * 0x80_0000 + w % 0x80_0000,
        tag_of_word(w) == 2 ==> w == 0x8000_0000 + field(w, 0x80_0000, 128) * 0x80_0000 + field(
            w,
            0x8_0000,
            16,
        ) * 0x8_0000 + field(w, 0x1_0000, 8) * 0x1_0000 + field(w, 0x8000, 2) * 0x8000 + field(
            w,
            0x4000,
            2,
        ) * 0x4000 + field(w, 0x1000, 4) * 0x1000 + field(w, 0x200, 8) * 0x200 + field(w, 0x80, 4)
            * 0x80 + field(w, 0x20, 4) * 0x20 + field(w, 0x10, 2) * 0x10 + field(w, 0x4, 4) * 0x4
            + field(w, 1, 4),
        tag_of_word(w) == 3 ==> w == 0xC000_0000 + field(w, 0x1000_0000, 4) * 0x1000_0000 + field(
            w,
            0x200_0000,
            8,
        ) * 0x200_0000 + field(w, 0x20_0000, 16) * 0x20_0000 + field(w, 0x2_0000, 16) * 0x2_0000
            + field(w, 0x1_0000, 2) * 0x1_0000 + w % 0x1_0000,
        tag_of_word(w) < 4,
{
    reveal(field);
    assert(w / 0x4000_0000 % 4 < 4) by (bit_vector);
    assert(w / 0x4000_0000 % 4 == 0 ==> w == (w / 0x800_0000 % 8) * 0x800_0000 + (w / 0x200_0000
        % 4) * 0x200_0000 + (w / 0x20_0000 % 16) * 0x20_0000 + (w / 0x4000 % 128) * 0x4000 + w
        % 0x4000) by (bit_vector);
    assert(w / 0x4000_0000 % 4 == 1 ==> w == 0x4000_0000 + (w / 0x1000_0000 % 4) * 0x1000_0000 + (w
        / 0x400_0000 % 4) * 0x400_0000 + (w / 0x80_0000 % 8) * 0x80_0000 + w % 0x80_0000)
        by (bit_vector);
    assert(w / 0x4000_0000 % 4 == 2 ==> w == 0x8000_0000 + (w / 0x80_0000 % 128) * 0x80_0000 + (w
        / 0x8_0000 % 16) * 0x8_0000 + (w / 0x1_0000 % 8) * 0x1_0000 + (w / 0x8000 % 2) * 0x8000 + (
    w / 0x4000 % 2) * 0x4000 + (w / 0x1000 % 4) * 0x1000 + (w / 0x200 % 8) * 0x200 + (w / 0x80 % 4)
        * 0x80 + (w / 0x20 % 4) * 0x20 + (w / 0x10 % 2) * 0x10 + (w / 0x4 % 4) * 0x4 + (w / 1 % 4))
        by (bit_vector);
    assert(w / 0x4000_0000 % 4 == 3 ==> w == 0xC000_0000 + (w / 0x1000_0000 % 4) * 0x1000_0000 + (w
        / 0x200_0000 % 8) * 0x200_0000 + (w / 0x20_0000 % 16) * 0x20_0000 + (w / 0x2_0000 % 16)
        * 0x2_0000 + (w / 0x1_0000 % 2) * 0x1_0000 + w % 0x1_0000) by (bit_vector);
}

proof fn lemma_measure_init_round_trip(m: MeasureInitializer)
    requires
        m.tempo.wf(),
    ensures
        tag_of_word(word_of_measure_init(m)) == 0,
        measure_init_of_word(word_of_measure_init(m)) == Some(m),
        word_of_measure_init(m) as int % 0x4000 == 0,
{
    m.tempo.lemma_of_raw();
    m.beats.lemma_numeric_inverse(0);
    m.beat_type.lemma_numeric_inverse(0);
    m.key_sig.lemma_numeric_inverse(0);
    lemma_pack_measure_init(
        m.beats.numeric() as u32,
        m.beat_type.numeric() as u32,
        m.key_sig.numeric() as u32,
        m.tempo.raw() as u32,
    );
}

proof fn lemma_measure_meta_round_trip(m: MeasureMetaData)
    ensures
        tag_of_word(word_of_measure_meta(m)) == 1,
        measure_meta_of_word(word_of_measure_meta(m)) == Some(m),
        word_of_measure_meta(m) as int % 0x80_0000 == 0,
{
    m.start_end.lemma_numeric_inverse(0);
    m.ending.lemma_numeric_inverse(0);
    m.dal_segno.lemma_numeric_inverse(0);
    lemma_pack_measure_meta(
        m.start_end.numeric() as u32,
        m.ending.numeric() as u32,
        m.dal_segno.numeric() as u32,
    );
}

#[verifier::rlimit(40)]
proof fn lemma_note_round_trip(n: NoteData)
    requires
        n.note_rest.wf(),
    ensures
        tag_of_word(word_of_note(n)) == 2,
        note_of_word(word_of_note(n)) == Some(n),
{
    let a = n.note_rest.numeric() as u32;
    let b = n.phrase_dynamics.numeric() as u32;
    let c = n.note_type.numeric() as u32;
    let d = bit(n.dotted) as u32;
    let e = n.arpeggiate.numeric() as u32;
    let f = n.special_note.numeric() as u32;
    let g = n.articulation.numeric() as u32;
    let h = n.trill.numeric() as u32;
    let i = n.ties.numeric() as u32;
    let j = n.chord.numeric() as u32;
    let k = n.slur.numeric() as u32;
    let l = n.voice.numeric() as u32;
    n.phrase_dynamics.lemma_numeric_inverse(0);
    n.note_type.lemma_numeric_inverse(0);
    n.arpeggiate.lemma_numeric_inverse(0);
    n.special_note.lemma_numeric_inverse(0);
    n.articulation.lemma_numeric_inverse(0);
    n.trill.lemma_numeric_inverse(0);
    n.ties.lemma_numeric_inverse(0);
    n.chord.lemma_numeric_inverse(0);
    n.slur.lemma_numeric_inverse(0);
    n.voice.lemma_numeric_inverse(0);
    assert(a < 128 && a as int % 128 == a);
    lemma_pack_note(a, b, c, d, e, f, g, h, i, j, k, l);
    let w = word_of_note(n);
    assert(w == (0x8000_0000 + a * 0x80_0000 + b * 0x8_0000 + c * 0x1_0000 + d * 0x8000 + e * 0x4000
        + f * 0x1000 + g * 0x200 + h * 0x80 + i * 0x20 + j * 0x10 + k * 0x4 + l) as u32);
    assert(NumericPitchRest::of_numeric(field(w, 0x80_0000, 128)) == Some(n.note_rest));
    assert((field(w, 0x8000, 2) != 0) == n.dotted);
}

proof fn lemma_tuplet_round_trip(t: TupletData)
    requires
        t.actual_notes != TupletActual::TwentyFive,
    ensures
        tag_of_word(word_of_tuplet(t)) == 3,
        tuplet_of_word(word_of_tuplet(t)) == Some(t),
        word_of_tuplet(t) as int % 0x1_0000 == 0,
{
    t.start_stop.lemma_numeric_inverse(0);
    t.tuplet_number.lemma_numeric_inverse(0);
    t.actual_notes.lemma_numeric_inverse(0);
    t.normal_notes.lemma_numeric_inverse(0);
    lemma_pack_tuplet(
        t.start_stop.numeric() as u32,
        t.tuplet_number.numeric() as u32,
        t.actual_notes.numeric() as u32,
        t.normal_notes.numeric() as u32,
        bit(t.dotted) as u32,
    );
}

/// Writing an element that its record has room for and reading the record
/// gives the element, and the record's unused bits are clear.
pub proof fn lemma_element_round_trip(element: MusicElement)
    requires
        encodable(element),
    ensures
        element_of_word(word_of_element(element)) == Some(element),
        reserved_of_word(word_of_element(element)) == 0,
{
    match element {
        MusicElement::MeasureInit(m) => lemma_measure_init_round_trip(m),
        MusicElement::MeasureMeta(m) => lemma_measure_meta_round_trip(m),
        MusicElement::NoteRest(n) => lemma_note_round_trip(n),
        MusicElement::Tuplet(t) => lemma_tuplet_round_trip(t),
    }
}

proof fn lemma_measure_init_word(word: u32)
    requires
        tag_of_word(word) == 0,
        measure_init_of_word(word) is Some,
        word as int % 0x4000 == 0,
    ensures
        word_of_measure_init(measure_init_of_word(word)->Some_0) == word,
        measure_init_of_word(word)->Some_0.tempo.wf(),
{
    lemma_unpack(word);
    let m = measure_init_of_word(word)->Some_0;
    m.tempo.lemma_of_raw();
    m.beats.lemma_numeric_inverse(field(word, 0x800_0000, 8));
    m.beat_type.lemma_numeric_inverse(field(word, 0x200_0000, 4));
    m.key_sig.lemma_numeric_inverse(field(word, 0x20_0000, 16));
    assert(field(word, 0x4000, 128) < 128) by {
        reveal(field);
    }
}

proof fn lemma_measure_meta_word(word: u32)
    requires
        tag_of_word(word) == 1,
        measure_meta_of_word(word) is Some,
        word as int % 0x80_0000 == 0,
    ensures
        word_of_measure_meta(measure_meta_of_word(word)->Some_0) == word,
{
    lemma_unpack(word);
    let m = measure_meta_of_word(word)->Some_0;
    m.start_end.lemma_numeric_inverse(field(word, 0x1000_0000, 4));
    m.ending.lemma_numeric_inverse(field(word, 0x400_0000, 4));
    m.dal_segno.lemma_numeric_inverse(field(word, 0x80_0000, 8));
}

proof fn lemma_note_word(word: u32)
    requires
        tag_of_word(word) == 2,
        note_of_word(word) is Some,
    ensures
        word_of_note(note_of_word(word)->Some_0) == word,
        note_of_word(word)->Some_0.note_rest.wf(),
{
    lemma_unpack(word);
    let n = note_of_word(word)->Some_0;
    n.phrase_dynamics.lemma_numeric_inverse(field(word, 0x8_0000, 16));
    n.note_type.lemma_numeric_inverse(field(word, 0x1_0000, 8));
    n.arpeggiate.lemma_numeric_inverse(field(word, 0x4000, 2));
    n.special_note.lemma_numeric_inverse(field(word, 0x1000, 4));
    n.articulation.lemma_numeric_inverse(field(word, 0x200, 8));
    n.trill.lemma_numeric_inverse(field(word, 0x80, 4));
    n.ties.lemma_numeric_inverse(field(word, 0x20, 4));
    n.chord.lemma_numeric_inverse(field(word, 0x10, 2));
    n.slur.lemma_numeric_inverse(field(word, 0x4, 4));
    n.voice.lemma_numeric_inverse(field(word, 1, 4));
    assert(field(word, 0x8000, 2) < 2) by {
        reveal(field);
    }
}

proof fn lemma_tuplet_word(word: u32)
    requires
        tag_of_word(word) == 3,
        tuplet_of_word(word) is Some,
        word as int % 0x1_0000 == 0,
    ensures
        word_of_tuplet(tuplet_of_word(word)->Some_0) == word,
        tuplet_of_word(word)->Some_0.actual_notes != TupletActual::TwentyFive,
{
    lemma_unpack(word);
    let t = tuplet_of_word(word)->Some_0;
    t.start_stop.lemma_numeric_inverse(field(word, 0x1000_0000, 4));
    t.tuplet_number.lemma_numeric_inverse(field(word, 0x200_0000, 8));
    t.actual_notes.lemma_numeric_inverse(field(word, 0x20_0000, 16));
    t.normal_notes.lemma_numeric_inverse(field(word, 0x2_0000, 16));
    assert(field(word, 0x1_0000, 2) < 2 && field(word, 0x20_0000, 16) < 16) by {
        reveal(field);
    }
}

/// Reading a record whose unused bits are clear and writing the element
/// gives the record.
pub proof fn lemma_word_round_trip(word: u32)
    requires
        element_of_word(word) is Some,
        reserved_of_word(word) == 0,
    ensures
        word_of_element(element_of_word(word)->Some_0) == word,
        encodable(element_of_word(word)->Some_0),
{
    lemma_unpack(word);
    if tag_of_word(word) == 0 {
        lemma_measure_init_word(word);
    } else if tag_of_word(word) == 1 {
        lemma_measure_meta_word(word);
    } else if tag_of_word(word) == 2 {
        lemma_note_word(word);
    } else {
        lemma_tuplet_word(word);
    }
}

} // verus!
