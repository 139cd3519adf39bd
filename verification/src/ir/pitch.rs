use crate::error::{Error, Result};
use vstd::prelude::*;

verus! {

/// A rest, or a pitch counted in semitones from C0.
///
/// `Pitch(1)` is C0, the lowest note of the format, and `Pitch(97)` is C8, the
/// highest. The number is the MIDI note number less 11.
#[derive(Clone, Copy, PartialEq, Eq, Debug, Hash, Structural)]
pub enum NumericPitchRest {
    Rest,
    Pitch(u8),
}

/// Another name for [`NumericPitchRest`].
pub type NoteRestValue = NumericPitchRest;

/// The twelve steps of the chromatic scale.
#[derive(Clone, Copy, PartialEq, Eq, Debug, Hash, Structural)]
pub enum Note {
    NoteC,
    NoteCsharp,
    NoteD,
    NoteDsharp,
    NoteE,
    NoteF,
    NoteFsharp,
    NoteG,
    NoteGsharp,
    NoteA,
    NoteAsharp,
    NoteB,
}

/// The octaves that the format covers.
#[derive(Clone, Copy, PartialEq, Eq, Debug, Hash, Structural)]
pub enum Octave {
    Octave0,
    Octave1,
    Octave2,
    Octave3,
    Octave4,
    Octave5,
    Octave6,
    Octave7,
    Octave8,
}

/// An accidental.
#[derive(Clone, Copy, PartialEq, Eq, Debug, Hash, Structural)]
pub enum Alter {
    Flat,
    Natural,
    Sharp,
    DoubleSharp,
}

impl Note {
    /// The pitch number of the step in octave 4.
    pub open spec fn numeric(self) -> u8 {
        match self {
            Note::NoteC => 49,
            Note::NoteCsharp => 50,
            Note::NoteD => 51,
            Note::NoteDsharp => 52,
            Note::NoteE => 53,
            Note::NoteF => 54,
            Note::NoteFsharp => 55,
            Note::NoteG => 56,
            Note::NoteGsharp => 57,
            Note::NoteA => 58,
            Note::NoteAsharp => 59,
            Note::NoteB => 60,
        }
    }

    /// The step with a given pitch number in octave 4.
    pub open spec fn of_numeric(raw: u8) -> Option<Note> {
        match raw {
            49 => Some(Note::NoteC),
            50 => Some(Note::NoteCsharp),
            51 => Some(Note::NoteD),
            52 => Some(Note::NoteDsharp),
            53 => Some(Note::NoteE),
            54 => Some(Note::NoteF),
            55 => Some(Note::NoteFsharp),
            56 => Some(Note::NoteG),
            57 => Some(Note::NoteGsharp),
            58 => Some(Note::NoteA),
            59 => Some(Note::NoteAsharp),
            60 => Some(Note::NoteB),
            _ => None,
        }
    }

    /// The natural step below, and the accidental that leads back.
    pub open spec fn note_alter(self) -> (Note, Alter) {
        match self {
            Note::NoteC => (Note::NoteC, Alter::Natural),
            Note::NoteCsharp => (Note::NoteC, Alter::Sharp),
            Note::NoteD => (Note::NoteD, Alter::Natural),
            Note::NoteDsharp => (Note::NoteD, Alter::Sharp),
            Note::NoteE => (Note::NoteE, Alter::Natural),
            Note::NoteF => (Note::NoteF, Alter::Natural),
            Note::NoteFsharp => (Note::NoteF, Alter::Sharp),
            Note::NoteG => (Note::NoteG, Alter::Natural),
            Note::NoteGsharp => (Note::NoteG, Alter::Sharp),
            Note::NoteA => (Note::NoteA, Alter::Natural),
            Note::NoteAsharp => (Note::NoteA, Alter::Sharp),
            Note::NoteB => (Note::NoteB, Alter::Natural),
        }
    }

    /// The number that stands for the value.
    pub fn to_numeric(self) -> (raw: u8)
        ensures
            raw == self.numeric(),
            49 <= raw <= 60,
    {
        match self {
            Note::NoteC => 49,
            Note::NoteCsharp => 50,
            Note::NoteD => 51,
            Note::NoteDsharp => 52,
            Note::NoteE => 53,
            Note::NoteF => 54,
            Note::NoteFsharp => 55,
            Note::NoteG => 56,
            Note::NoteGsharp => 57,
            Note::NoteA => 58,
            Note::NoteAsharp => 59,
            Note::NoteB => 60,
        }
    }

    /// The value that a number stands for; `UnknownTag` where it stands for
    /// none.
    pub fn from_numeric(raw: u8) -> (r: Result<Note>)
        ensures
            r == match Self::of_numeric(raw) {
                Some(v) => Ok::<Note, Error>(v),
                None => Err::<Note, Error>(Error::UnknownTag),
            },
    {
        match raw {
            49 => Ok(Note::NoteC),
            50 => Ok(Note::NoteCsharp),
            51 => Ok(Note::NoteD),
            52 => Ok(Note::NoteDsharp),
            53 => Ok(Note::NoteE),
            54 => Ok(Note::NoteF),
            55 => Ok(Note::NoteFsharp),
            56 => Ok(Note::NoteG),
            57 => Ok(Note::NoteGsharp),
            58 => Ok(Note::NoteA),
            59 => Ok(Note::NoteAsharp),
            60 => Ok(Note::NoteB),
            _ => Err(Error::UnknownTag),
        }
    }

    /// The natural step below, and the accidental that leads back.
    pub fn get_note_alter_tuple(self) -> (r: (Note, Alter))
        ensures
            r == self.note_alter(),
            r.0.numeric() + r.1.numeric() == self.numeric(),
    {
        match self {
            Note::NoteC => (Note::NoteC, Alter::Natural),
            Note::NoteCsharp => (Note::NoteC, Alter::Sharp),
            Note::NoteD => (Note::NoteD, Alter::Natural),
            Note::NoteDsharp => (Note::NoteD, Alter::Sharp),
            Note::NoteE => (Note::NoteE, Alter::Natural),
            Note::NoteF => (Note::NoteF, Alter::Natural),
            Note::NoteFsharp => (Note::NoteF, Alter::Sharp),
            Note::NoteG => (Note::NoteG, Alter::Natural),
            Note::NoteGsharp => (Note::NoteG, Alter::Sharp),
            Note::NoteA => (Note::NoteA, Alter::Natural),
            Note::NoteAsharp => (Note::NoteA, Alter::Sharp),
            Note::NoteB => (Note::NoteB, Alter::Natural),
        }
    }
}

impl Octave {
    /// The number of the octave.
    pub open spec fn numeric(self) -> u8 {
        match self {
            Octave::Octave0 => 0,
            Octave::Octave1 => 1,
            Octave::Octave2 => 2,
            Octave::Octave3 => 3,
            Octave::Octave4 => 4,
            Octave::Octave5 => 5,
            Octave::Octave6 => 6,
            Octave::Octave7 => 7,
            Octave::Octave8 => 8,
        }
    }

    /// The octave with a given number.
    pub open spec fn of_numeric(raw: u8) -> Option<Octave> {
        match raw {
            0 => Some(Octave::Octave0),
            1 => Some(Octave::Octave1),
            2 => Some(Octave::Octave2),
            3 => Some(Octave::Octave3),
            4 => Some(Octave::Octave4),
            5 => Some(Octave::Octave5),
            6 => Some(Octave::Octave6),
            7 => Some(Octave::Octave7),
            8 => Some(Octave::Octave8),
            _ => None,
        }
    }

    /// The number that stands for the value.
    pub fn to_numeric(self) -> (raw: u8)
        ensures
            raw == self.numeric(),
            raw <= 8,
    {
        match self {
            Octave::Octave0 => 0,
            Octave::Octave1 => 1,
            Octave::Octave2 => 2,
            Octave::Octave3 => 3,
            Octave::Octave4 => 4,
            Octave::Octave5 => 5,
            Octave::Octave6 => 6,
            Octave::Octave7 => 7,
            Octave::Octave8 => 8,
        }
    }

    /// The value that a number stands for; `UnknownTag` where it stands for
    /// none.
    pub fn from_numeric(raw: u8) -> (r: Result<Octave>)
        ensures
            r == match Self::of_numeric(raw) {
                Some(v) => Ok::<Octave, Error>(v),
                None => Err::<Octave, Error>(Error::UnknownTag),
            },
    {
        match raw {
            0 => Ok(Octave::Octave0),
            1 => Ok(Octave::Octave1),
            2 => Ok(Octave::Octave2),
            3 => Ok(Octave::Octave3),
            4 => Ok(Octave::Octave4),
            5 => Ok(Octave::Octave5),
            6 => Ok(Octave::Octave6),
            7 => Ok(Octave::Octave7),
            8 => Ok(Octave::Octave8),
            _ => Err(Error::UnknownTag),
        }
    }
}

impl Alter {
    /// By how many semitones the accidental raises a note.
    pub open spec fn numeric(self) -> int {
        match self {
            Alter::Flat => -1,
            Alter::Natural => 0,
            Alter::Sharp => 1,
            Alter::DoubleSharp => 2,
        }
    }

    /// The number that stands for the value.
    pub fn to_numeric(self) -> (raw: i8)
        ensures
            raw == self.numeric(),
    {
        match self {
            Alter::Flat => -1,
            Alter::Natural => 0,
            Alter::Sharp => 1,
            Alter::DoubleSharp => 2,
        }
    }
}

impl NumericPitchRest {
    /// The highest pitch, C8.
    pub const MAX_NOTE_VALUE: u8 = 97;

    /// The lowest pitch, C0.
    pub const MIN_NOTE_VALUE: u8 = 1;

    /// The number that stands for a rest.
    pub const REST_VALUE: u8 = 0;

    /// What a pitch lies below its MIDI note number.
    pub const MIDI_NOTE_OFFSET: u8 = 11;

    /// Whether the value is a rest or a pitch from C0 to C8.
    pub open spec fn wf(self) -> bool {
        match self {
            NumericPitchRest::Rest => true,
            NumericPitchRest::Pitch(v) => 1 <= v <= 97,
        }
    }

    /// The number that stands for the value: 0 for a rest, else the pitch.
    pub open spec fn numeric(self) -> u8 {
        match self {
            NumericPitchRest::Rest => 0,
            NumericPitchRest::Pitch(v) => v,
        }
    }

    /// The value that a number stands for, whatever the number.
    pub open spec fn of_any_numeric(note_val: u8) -> NumericPitchRest {
        if note_val == 0 {
            NumericPitchRest::Rest
        } else {
            NumericPitchRest::Pitch(note_val)
        }
    }

    /// The value that a number stands for, if it is a rest or a pitch from C0
    /// to C8.
    pub open spec fn of_numeric(raw: u8) -> Option<NumericPitchRest> {
        if raw <= 97 {
            Some(Self::of_any_numeric(raw))
        } else {
            None
        }
    }

    /// The pitch number of a step with an accidental in an octave.
    pub open spec fn composite(note: Note, alter: Alter, octave: Octave) -> int {
        note.numeric() + alter.numeric() + (octave.numeric() - 4) * 12
    }

    /// The step, accidental and octave that a pitch number is written as:
    /// sharps only, and no octave above the eighth.
    pub open spec fn decomposed(self) -> Option<(Note, Alter, Octave)> {
        match self {
            NumericPitchRest::Rest => None,
            NumericPitchRest::Pitch(v) => if 1 <= v <= 108 {
                let octave = (v - 1) / 12;
                let step = Note::of_numeric((v - (octave - 4) * 12) as u8)->Some_0;
                Some((step.note_alter().0, step.note_alter().1, Octave::of_numeric(octave as u8)->Some_0))
            } else {
                None
            },
        }
    }

    /// The value that a number stands for, whatever the number.
    pub fn new_from_numeric(note_val: u8) -> (p: NumericPitchRest)
        ensures
            p == Self::of_any_numeric(note_val),
            p.numeric() == note_val,
    {
        if note_val == 0 {
            NumericPitchRest::Rest
        } else {
            NumericPitchRest::Pitch(note_val)
        }
    }

    /// Reads a value from its number and refuses what lies above C8.
    pub fn from_numeric(raw: u8) -> (r: Result<NumericPitchRest>)
        ensures
            r == match Self::of_numeric(raw) {
                Some(v) => Ok::<NumericPitchRest, Error>(v),
                None => Err::<NumericPitchRest, Error>(Error::UnknownTag),
            },
    {
        if raw > Self::MAX_NOTE_VALUE {
            Err(Error::UnknownTag)
        } else {
            Ok(Self::new_from_numeric(raw))
        }
    }

    /// Encodes a step, an accidental and an octave as a pitch. The supported
    /// range is C0 to C8.
    pub fn derive_numeric_note(note: Note, alter: Alter, octave: Octave) -> (r: Result<
        NumericPitchRest,
    >)
        ensures
            1 <= Self::composite(note, alter, octave) <= 97 ==> r == Ok::<NumericPitchRest, Error>(
                NumericPitchRest::Pitch(Self::composite(note, alter, octave) as u8),
            ),
            !(1 <= Self::composite(note, alter, octave) <= 97) ==> r == Err::<
                NumericPitchRest,
                Error,
            >(Error::OutofBounds),
    {
        let numeric_note: i16 = note.to_numeric() as i16 + alter.to_numeric() as i16 + (
        octave.to_numeric() as i16 - 4) * 12;
        if numeric_note < 1 || numeric_note > 97 {
            Err(Error::OutofBounds)
        } else {
            Ok(NumericPitchRest::Pitch(numeric_note as u8))
        }
    }

    /// Splits a pitch into a step, an accidental and an octave.
    pub fn decode_composite_note(self) -> (r: Option<(Note, Alter, Octave)>)
        ensures
            r == self.decomposed(),
            self.wf() && self != NumericPitchRest::Rest ==> r is Some,
    {
        match self {
            NumericPitchRest::Rest => None,
            NumericPitchRest::Pitch(v) => {
                if v < 1 || v > 108 {
                    return None;
                }
                let oct_u8: u8 = (v - 1) / 12;
                let note_numeric: i16 = v as i16 - (oct_u8 as i16 - 4) * 12;
                match (Octave::from_numeric(oct_u8), Note::from_numeric(note_numeric as u8)) {
                    (Ok(octave), Ok(note)) => {
                        let (somenote, somealter) = note.get_note_alter_tuple();
                        Some((somenote, somealter, octave))
                    },
                    _ => None,
                }
            },
        }
    }

    /// Putting the parts of a pitch together again gives the pitch.
    pub proof fn lemma_decompose_then_derive(self)
        requires
            self.decomposed() is Some,
        ensures
            ({
                let (note, alter, octave) = self.decomposed()->Some_0;
                self == NumericPitchRest::Pitch(Self::composite(note, alter, octave) as u8)
            }),
    {
    }

    /// The number that stands for the value: 0 for a rest, else the pitch.
    pub fn get_numeric_value(self) -> (raw: u8)
        ensures
            raw == self.numeric(),
    {
        match self {
            NumericPitchRest::Rest => NumericPitchRest::REST_VALUE,
            NumericPitchRest::Pitch(v) => v,
        }
    }

    /// The MIDI note number of a pitch, where it fits in a byte.
    pub fn get_midi_numeric_pitch_value(self) -> (r: Option<u8>)
        ensures
            r == match self {
                NumericPitchRest::Rest => None::<u8>,
                NumericPitchRest::Pitch(v) => if v + 11 <= 255 {
                    Some((v + 11) as u8)
                } else {
                    None
                },
            },
    {
        match self {
            NumericPitchRest::Rest => None,
            NumericPitchRest::Pitch(v) => v.checked_add(Self::MIDI_NOTE_OFFSET),
        }
    }
}

impl Default for NumericPitchRest {
    fn default() -> (p: NumericPitchRest)
        ensures
            p == NumericPitchRest::Rest,
    {
        NumericPitchRest::Rest
    }
}

} // verus!
