use crate::error::{Error, Result};
use vstd::prelude::*;

verus! {

/// The key of a measure, named by its major and its relative minor key.
#[derive(Clone, Copy, PartialEq, Eq, Debug, Hash, Structural)]
pub enum KeySignature {
    CMajorAminor,
    GMajorEminor,
    DMajorBminor,
    AMajorFsminor,
    EMajorCsminor,
    BMajorGsminor,
    GbMajorEbminor,
    DbMajorBbminor,
    AbMajorFminor,
    EbMajorCminor,
    BbMajorGminor,
    FMajorDminor,
}

impl KeySignature {
    /// The number that stands for the value in a record.
    pub open spec fn numeric(self) -> u8 {
        match self {
            KeySignature::CMajorAminor => 0,
            KeySignature::GMajorEminor => 1,
            KeySignature::DMajorBminor => 2,
            KeySignature::AMajorFsminor => 3,
            KeySignature::EMajorCsminor => 4,
            KeySignature::BMajorGsminor => 5,
            KeySignature::GbMajorEbminor => 6,
            KeySignature::DbMajorBbminor => 7,
            KeySignature::AbMajorFminor => 8,
            KeySignature::EbMajorCminor => 9,
            KeySignature::BbMajorGminor => 10,
            KeySignature::FMajorDminor => 11,
        }
    }

    /// The value that a number stands for, if there is one.
    pub open spec fn of_numeric(raw: u8) -> Option<KeySignature> {
        match raw {
            0 => Some(KeySignature::CMajorAminor),
            1 => Some(KeySignature::GMajorEminor),
            2 => Some(KeySignature::DMajorBminor),
            3 => Some(KeySignature::AMajorFsminor),
            4 => Some(KeySignature::EMajorCsminor),
            5 => Some(KeySignature::BMajorGsminor),
            6 => Some(KeySignature::GbMajorEbminor),
            7 => Some(KeySignature::DbMajorBbminor),
            8 => Some(KeySignature::AbMajorFminor),
            9 => Some(KeySignature::EbMajorCminor),
            10 => Some(KeySignature::BbMajorGminor),
            11 => Some(KeySignature::FMajorDminor),
            _ => None,
        }
    }

    /// The two directions undo each other, and no number reaches 12.
    pub proof fn lemma_numeric_inverse(self, raw: u8)
        ensures
            Self::of_numeric(self.numeric()) == Some(self),
            self.numeric() < 12,
            Self::of_numeric(raw) == Some(self) <==> self.numeric() == raw,
            Self::of_numeric(raw) is Some <==> raw < 12,
    {
    }

    /// The number that stands for the value.
    pub fn to_numeric(self) -> (raw: u8)
        ensures
            raw == self.numeric(),
    {
        match self {
            KeySignature::CMajorAminor => 0,
            KeySignature::GMajorEminor => 1,
            KeySignature::DMajorBminor => 2,
            KeySignature::AMajorFsminor => 3,
            KeySignature::EMajorCsminor => 4,
            KeySignature::BMajorGsminor => 5,
            KeySignature::GbMajorEbminor => 6,
            KeySignature::DbMajorBbminor => 7,
            KeySignature::AbMajorFminor => 8,
            KeySignature::EbMajorCminor => 9,
            KeySignature::BbMajorGminor => 10,
            KeySignature::FMajorDminor => 11,
        }
    }

    /// The value that a number stands for; `UnknownTag` where it stands for
    /// none.
    pub fn from_numeric(raw: u8) -> (r: Result<KeySignature>)
        ensures
            r == match Self::of_numeric(raw) {
                Some(v) => Ok::<KeySignature, Error>(v),
                None => Err::<KeySignature, Error>(Error::UnknownTag),
            },
    {
        match raw {
            0 => Ok(KeySignature::CMajorAminor),
            1 => Ok(KeySignature::GMajorEminor),
            2 => Ok(KeySignature::DMajorBminor),
            3 => Ok(KeySignature::AMajorFsminor),
            4 => Ok(KeySignature::EMajorCsminor),
            5 => Ok(KeySignature::BMajorGsminor),
            6 => Ok(KeySignature::GbMajorEbminor),
            7 => Ok(KeySignature::DbMajorBbminor),
            8 => Ok(KeySignature::AbMajorFminor),
            9 => Ok(KeySignature::EbMajorCminor),
            10 => Ok(KeySignature::BbMajorGminor),
            11 => Ok(KeySignature::FMajorDminor),
            _ => Err(Error::UnknownTag),
        }
    }
}

impl Default for KeySignature {
    fn default() -> (r: KeySignature)
        ensures
            r == KeySignature::CMajorAminor,
    {
        KeySignature::CMajorAminor
    }
}

/// Whether a tie starts or ends on a note.
#[derive(Clone, Copy, PartialEq, Eq, Debug, Hash, Structural)]
pub enum NoteConnection {
    NoTie,
    StartTie,
    EndTie,
}

impl NoteConnection {
    /// The number that stands for the value in a record.
    pub open spec fn numeric(self) -> u8 {
        match self {
            NoteConnection::NoTie => 0,
            NoteConnection::StartTie => 1,
            NoteConnection::EndTie => 2,
        }
    }

    /// The value that a number stands for, if there is one.
    pub open spec fn of_numeric(raw: u8) -> Option<NoteConnection> {
        match raw {
            0 => Some(NoteConnection::NoTie),
            1 => Some(NoteConnection::StartTie),
            2 => Some(NoteConnection::EndTie),
            _ => None,
        }
    }

    /// The two directions undo each other, and no number reaches 3.
    pub proof fn lemma_numeric_inverse(self, raw: u8)
        ensures
            Self::of_numeric(self.numeric()) == Some(self),
            self.numeric() < 3,
            Self::of_numeric(raw) == Some(self) <==> self.numeric() == raw,
            Self::of_numeric(raw) is Some <==> raw < 3,
    {
    }

    /// The number that stands for the value.
    pub fn to_numeric(self) -> (raw: u8)
        ensures
            raw == self.numeric(),
    {
        match self {
            NoteConnection::NoTie => 0,
            NoteConnection::StartTie => 1,
            NoteConnection::EndTie => 2,
        }
    }

    /// The value that a number stands for; `UnknownTag` where it stands for
    /// none.
    pub fn from_numeric(raw: u8) -> (r: Result<NoteConnection>)
        ensures
            r == match Self::of_numeric(raw) {
                Some(v) => Ok::<NoteConnection, Error>(v),
                None => Err::<NoteConnection, Error>(Error::UnknownTag),
            },
    {
        match raw {
            0 => Ok(NoteConnection::NoTie),
            1 => Ok(NoteConnection::StartTie),
            2 => Ok(NoteConnection::EndTie),
            _ => Err(Error::UnknownTag),
        }
    }
}

impl Default for NoteConnection {
    fn default() -> (r: NoteConnection)
        ensures
            r == NoteConnection::NoTie,
    {
        NoteConnection::NoTie
    }
}

/// Whether a slur starts or ends on a note.
#[derive(Clone, Copy, PartialEq, Eq, Debug, Hash, Structural)]
pub enum SlurConnection {
    NoSlur,
    StartSlur,
    EndSlur,
}

impl SlurConnection {
    /// The number that stands for the value in a record.
    pub open spec fn numeric(self) -> u8 {
        match self {
            SlurConnection::NoSlur => 0,
            SlurConnection::StartSlur => 1,
            SlurConnection::EndSlur => 2,
        }
    }

    /// The value that a number stands for, if there is one.
    pub open spec fn of_numeric(raw: u8) -> Option<SlurConnection> {
        match raw {
            0 => Some(SlurConnection::NoSlur),
            1 => Some(SlurConnection::StartSlur),
            2 => Some(SlurConnection::EndSlur),
            _ => None,
        }
    }

    /// The two directions undo each other, and no number reaches 3.
    pub proof fn lemma_numeric_inverse(self, raw: u8)
        ensures
            Self::of_numeric(self.numeric()) == Some(self),
            self.numeric() < 3,
            Self::of_numeric(raw) == Some(self) <==> self.numeric() == raw,
            Self::of_numeric(raw) is Some <==> raw < 3,
    {
    }

    /// The number that stands for the value.
    pub fn to_numeric(self) -> (raw: u8)
        ensures
            raw == self.numeric(),
    {
        match self {
            SlurConnection::NoSlur => 0,
            SlurConnection::StartSlur => 1,
            SlurConnection::EndSlur => 2,
        }
    }

    /// The value that a number stands for; `UnknownTag` where it stands for
    /// none.
    pub fn from_numeric(raw: u8) -> (r: Result<SlurConnection>)
        ensures
            r == match Self::of_numeric(raw) {
                Some(v) => Ok::<SlurConnection, Error>(v),
                None => Err::<SlurConnection, Error>(Error::UnknownTag),
            },
    {
        match raw {
            0 => Ok(SlurConnection::NoSlur),
            1 => Ok(SlurConnection::StartSlur),
            2 => Ok(SlurConnection::EndSlur),
            _ => Err(Error::UnknownTag),
        }
    }
}

impl Default for SlurConnection {
    fn default() -> (r: SlurConnection)
        ensures
            r == SlurConnection::NoSlur,
    {
        SlurConnection::NoSlur
    }
}

/// The four kinds of measure boundary.
#[derive(Clone, Copy, PartialEq, Eq, Debug, Hash, Structural)]
pub enum MeasureStartEnd {
    MeasureStart,
    MeasureEnd,
    RepeatStart,
    RepeatEnd,
}

impl MeasureStartEnd {
    /// The number that stands for the value in a record.
    pub open spec fn numeric(self) -> u8 {
        match self {
            MeasureStartEnd::MeasureStart => 0,
            MeasureStartEnd::MeasureEnd => 1,
            MeasureStartEnd::RepeatStart => 2,
            MeasureStartEnd::RepeatEnd => 3,
        }
    }

    /// The value that a number stands for, if there is one.
    pub open spec fn of_numeric(raw: u8) -> Option<MeasureStartEnd> {
        match raw {
            0 => Some(MeasureStartEnd::MeasureStart),
            1 => Some(MeasureStartEnd::MeasureEnd),
            2 => Some(MeasureStartEnd::RepeatStart),
            3 => Some(MeasureStartEnd::RepeatEnd),
            _ => None,
        }
    }

    /// The two directions undo each other, and no number reaches 4.
    pub proof fn lemma_numeric_inverse(self, raw: u8)
        ensures
            Self::of_numeric(self.numeric()) == Some(self),
            self.numeric() < 4,
            Self::of_numeric(raw) == Some(self) <==> self.numeric() == raw,
            Self::of_numeric(raw) is Some <==> raw < 4,
    {
    }

    /// The number that stands for the value.
    pub fn to_numeric(self) -> (raw: u8)
        ensures
            raw == self.numeric(),
    {
        match self {
            MeasureStartEnd::MeasureStart => 0,
            MeasureStartEnd::MeasureEnd => 1,
            MeasureStartEnd::RepeatStart => 2,
            MeasureStartEnd::RepeatEnd => 3,
        }
    }

    /// The value that a number stands for; `UnknownTag` where it stands for
    /// none.
    pub fn from_numeric(raw: u8) -> (r: Result<MeasureStartEnd>)
        ensures
            r == match Self::of_numeric(raw) {
                Some(v) => Ok::<MeasureStartEnd, Error>(v),
                None => Err::<MeasureStartEnd, Error>(Error::UnknownTag),
            },
    {
        match raw {
            0 => Ok(MeasureStartEnd::MeasureStart),
            1 => Ok(MeasureStartEnd::MeasureEnd),
            2 => Ok(MeasureStartEnd::RepeatStart),
            3 => Ok(MeasureStartEnd::RepeatEnd),
            _ => Err(Error::UnknownTag),
        }
    }
}

impl Default for MeasureStartEnd {
    fn default() -> (r: MeasureStartEnd)
        ensures
            r == MeasureStartEnd::MeasureStart,
    {
        MeasureStartEnd::MeasureStart
    }
}

/// How a note is attacked. A strong accent is what is also called marcato.
#[derive(Clone, Copy, PartialEq, Eq, Debug, Hash, Structural)]
pub enum Articulation {
    NoArticulation,
    Accent,
    StrongAccent,
    Staccato,
    Staccatissimo,
    Tenuto,
    DetachedLegato,
    Stress,
}

impl Articulation {
    /// The number that stands for the value in a record.
    pub open spec fn numeric(self) -> u8 {
        match self {
            Articulation::NoArticulation => 0,
            Articulation::Accent => 1,
            Articulation::StrongAccent => 2,
            Articulation::Staccato => 3,
            Articulation::Staccatissimo => 4,
            Articulation::Tenuto => 5,
            Articulation::DetachedLegato => 6,
            Articulation::Stress => 7,
        }
    }

    /// The value that a number stands for, if there is one.
    pub open spec fn of_numeric(raw: u8) -> Option<Articulation> {
        match raw {
            0 => Some(Articulation::NoArticulation),
            1 => Some(Articulation::Accent),
            2 => Some(Articulation::StrongAccent),
            3 => Some(Articulation::Staccato),
            4 => Some(Articulation::Staccatissimo),
            5 => Some(Articulation::Tenuto),
            6 => Some(Articulation::DetachedLegato),
            7 => Some(Articulation::Stress),
            _ => None,
        }
    }

    /// The two directions undo each other, and no number reaches 8.
    pub proof fn lemma_numeric_inverse(self, raw: u8)
        ensures
            Self::of_numeric(self.numeric()) == Some(self),
            self.numeric() < 8,
            Self::of_numeric(raw) == Some(self) <==> self.numeric() == raw,
            Self::of_numeric(raw) is Some <==> raw < 8,
    {
    }

    /// The number that stands for the value.
    pub fn to_numeric(self) -> (raw: u8)
        ensures
            raw == self.numeric(),
    {
        match self {
            Articulation::NoArticulation => 0,
            Articulation::Accent => 1,
            Articulation::StrongAccent => 2,
            Articulation::Staccato => 3,
            Articulation::Staccatissimo => 4,
            Articulation::Tenuto => 5,
            Articulation::DetachedLegato => 6,
            Articulation::Stress => 7,
        }
    }

    /// The value that a number stands for; `UnknownTag` where it stands for
    /// none.
    pub fn from_numeric(raw: u8) -> (r: Result<Articulation>)
        ensures
            r == match Self::of_numeric(raw) {
                Some(v) => Ok::<Articulation, Error>(v),
                None => Err::<Articulation, Error>(Error::UnknownTag),
            },
    {
        match raw {
            0 => Ok(Articulation::NoArticulation),
            1 => Ok(Articulation::Accent),
            2 => Ok(Articulation::StrongAccent),
            3 => Ok(Articulation::Staccato),
            4 => Ok(Articulation::Staccatissimo),
            5 => Ok(Articulation::Tenuto),
            6 => Ok(Articulation::DetachedLegato),
            7 => Ok(Articulation::Stress),
            _ => Err(Error::UnknownTag),
        }
    }
}

impl Default for Articulation {
    fn default() -> (r: Articulation)
        ensures
            r == Articulation::NoArticulation,
    {
        Articulation::NoArticulation
    }
}

/// Whether a chord is played as an arpeggio.
#[derive(Clone, Copy, PartialEq, Eq, Debug, Hash, Structural)]
pub enum Arpeggiate {
    NoArpeggiation,
    Arpeggiate,
}

impl Arpeggiate {
    /// The number that stands for the value in a record.
    pub open spec fn numeric(self) -> u8 {
        match self {
            Arpeggiate::NoArpeggiation => 0,
            Arpeggiate::Arpeggiate => 1,
        }
    }

    /// The value that a number stands for, if there is one.
    pub open spec fn of_numeric(raw: u8) -> Option<Arpeggiate> {
        match raw {
            0 => Some(Arpeggiate::NoArpeggiation),
            1 => Some(Arpeggiate::Arpeggiate),
            _ => None,
        }
    }

    /// The two directions undo each other, and no number reaches 2.
    pub proof fn lemma_numeric_inverse(self, raw: u8)
        ensures
            Self::of_numeric(self.numeric()) == Some(self),
            self.numeric() < 2,
            Self::of_numeric(raw) == Some(self) <==> self.numeric() == raw,
            Self::of_numeric(raw) is Some <==> raw < 2,
    {
    }

    /// The number that stands for the value.
    pub fn to_numeric(self) -> (raw: u8)
        ensures
            raw == self.numeric(),
    {
        match self {
            Arpeggiate::NoArpeggiation => 0,
            Arpeggiate::Arpeggiate => 1,
        }
    }

    /// The value that a number stands for; `UnknownTag` where it stands for
    /// none.
    pub fn from_numeric(raw: u8) -> (r: Result<Arpeggiate>)
        ensures
            r == match Self::of_numeric(raw) {
                Some(v) => Ok::<Arpeggiate, Error>(v),
                None => Err::<Arpeggiate, Error>(Error::UnknownTag),
            },
    {
        match raw {
            0 => Ok(Arpeggiate::NoArpeggiation),
            1 => Ok(Arpeggiate::Arpeggiate),
            _ => Err(Error::UnknownTag),
        }
    }
}

impl Default for Arpeggiate {
    fn default() -> (r: Arpeggiate)
        ensures
            r == Arpeggiate::NoArpeggiation,
    {
        Arpeggiate::NoArpeggiation
    }
}

/// Whether a note sounds together with the note before it.
#[derive(Clone, Copy, PartialEq, Eq, Debug, Hash, Structural)]
pub enum Chord {
    NoChord,
    Chord,
}

impl Chord {
    /// The number that stands for the value in a record.
    pub open spec fn numeric(self) -> u8 {
        match self {
            Chord::NoChord => 0,
            Chord::Chord => 1,
        }
    }

    /// The value that a number stands for, if there is one.
    pub open spec fn of_numeric(raw: u8) -> Option<Chord> {
        match raw {
            0 => Some(Chord::NoChord),
            1 => Some(Chord::Chord),
            _ => None,
        }
    }

    /// The two directions undo each other, and no number reaches 2.
    pub proof fn lemma_numeric_inverse(self, raw: u8)
        ensures
            Self::of_numeric(self.numeric()) == Some(self),
            self.numeric() < 2,
            Self::of_numeric(raw) == Some(self) <==> self.numeric() == raw,
            Self::of_numeric(raw) is Some <==> raw < 2,
    {
    }

    /// The number that stands for the value.
    pub fn to_numeric(self) -> (raw: u8)
        ensures
            raw == self.numeric(),
    {
        match self {
            Chord::NoChord => 0,
            Chord::Chord => 1,
        }
    }

    /// The value that a number stands for; `UnknownTag` where it stands for
    /// none.
    pub fn from_numeric(raw: u8) -> (r: Result<Chord>)
        ensures
            r == match Self::of_numeric(raw) {
                Some(v) => Ok::<Chord, Error>(v),
                None => Err::<Chord, Error>(Error::UnknownTag),
            },
    {
        match raw {
            0 => Ok(Chord::NoChord),
            1 => Ok(Chord::Chord),
            _ => Err(Error::UnknownTag),
        }
    }
}

impl Default for Chord {
    fn default() -> (r: Chord)
        ensures
            r == Chord::NoChord,
    {
        Chord::NoChord
    }
}

/// Tells nested tuplets apart.
#[derive(Clone, Copy, PartialEq, Eq, Debug, Hash, Structural)]
pub enum TupletNumber {
    One,
    Two,
    Three,
    Four,
}

impl TupletNumber {
    /// The number that stands for the value in a record.
    pub open spec fn numeric(self) -> u8 {
        match self {
            TupletNumber::One => 0,
            TupletNumber::Two => 1,
            TupletNumber::Three => 2,
            TupletNumber::Four => 3,
        }
    }

    /// The value that a number stands for, if there is one.
    pub open spec fn of_numeric(raw: u8) -> Option<TupletNumber> {
        match raw {
            0 => Some(TupletNumber::One),
            1 => Some(TupletNumber::Two),
            2 => Some(TupletNumber::Three),
            3 => Some(TupletNumber::Four),
            _ => None,
        }
    }

    /// The two directions undo each other, and no number reaches 4.
    pub proof fn lemma_numeric_inverse(self, raw: u8)
        ensures
            Self::of_numeric(self.numeric()) == Some(self),
            self.numeric() < 4,
            Self::of_numeric(raw) == Some(self) <==> self.numeric() == raw,
            Self::of_numeric(raw) is Some <==> raw < 4,
    {
    }

    /// The number that stands for the value.
    pub fn to_numeric(self) -> (raw: u8)
        ensures
            raw == self.numeric(),
    {
        match self {
            TupletNumber::One => 0,
            TupletNumber::Two => 1,
            TupletNumber::Three => 2,
            TupletNumber::Four => 3,
        }
    }

    /// The value that a number stands for; `UnknownTag` where it stands for
    /// none.
    pub fn from_numeric(raw: u8) -> (r: Result<TupletNumber>)
        ensures
            r == match Self::of_numeric(raw) {
                Some(v) => Ok::<TupletNumber, Error>(v),
                None => Err::<TupletNumber, Error>(Error::UnknownTag),
            },
    {
        match raw {
            0 => Ok(TupletNumber::One),
            1 => Ok(TupletNumber::Two),
            2 => Ok(TupletNumber::Three),
            3 => Ok(TupletNumber::Four),
            _ => Err(Error::UnknownTag),
        }
    }
}

impl Default for TupletNumber {
    fn default() -> (r: TupletNumber)
        ensures
            r == TupletNumber::One,
    {
        TupletNumber::One
    }
}

/// Whether a tuplet marker opens or closes a tuplet.
#[derive(Clone, Copy, PartialEq, Eq, Debug, Hash, Structural)]
pub enum TupletStartStop {
    NoTuplet,
    TupletStart,
    TupletStop,
}

impl TupletStartStop {
    /// The number that stands for the value in a record.
    pub open spec fn numeric(self) -> u8 {
        match self {
            TupletStartStop::NoTuplet => 0,
            TupletStartStop::TupletStart => 1,
            TupletStartStop::TupletStop => 2,
        }
    }

    /// The value that a number stands for, if there is one.
    pub open spec fn of_numeric(raw: u8) -> Option<TupletStartStop> {
        match raw {
            0 => Some(TupletStartStop::NoTuplet),
            1 => Some(TupletStartStop::TupletStart),
            2 => Some(TupletStartStop::TupletStop),
            _ => None,
        }
    }

    /// The two directions undo each other, and no number reaches 3.
    pub proof fn lemma_numeric_inverse(self, raw: u8)
        ensures
            Self::of_numeric(self.numeric()) == Some(self),
            self.numeric() < 3,
            Self::of_numeric(raw) == Some(self) <==> self.numeric() == raw,
            Self::of_numeric(raw) is Some <==> raw < 3,
    {
    }

    /// The number that stands for the value.
    pub fn to_numeric(self) -> (raw: u8)
        ensures
            raw == self.numeric(),
    {
        match self {
            TupletStartStop::NoTuplet => 0,
            TupletStartStop::TupletStart => 1,
            TupletStartStop::TupletStop => 2,
        }
    }

    /// The value that a number stands for; `UnknownTag` where it stands for
    /// none.
    pub fn from_numeric(raw: u8) -> (r: Result<TupletStartStop>)
        ensures
            r == match Self::of_numeric(raw) {
                Some(v) => Ok::<TupletStartStop, Error>(v),
                None => Err::<TupletStartStop, Error>(Error::UnknownTag),
            },
    {
        match raw {
            0 => Ok(TupletStartStop::NoTuplet),
            1 => Ok(TupletStartStop::TupletStart),
            2 => Ok(TupletStartStop::TupletStop),
            _ => Err(Error::UnknownTag),
        }
    }
}

impl Default for TupletStartStop {
    fn default() -> (r: TupletStartStop)
        ensures
            r == TupletStartStop::NoTuplet,
    {
        TupletStartStop::NoTuplet
    }
}

/// How many notes a tuplet plays.
#[derive(Clone, Copy, PartialEq, Eq, Debug, Hash, Structural)]
pub enum TupletActual {
    Two,
    Three,
    Four,
    Five,
    Six,
    Seven,
    Eight,
    Nine,
    Ten,
    Eleven,
    Thirteen,
    Fifteen,
    Sixteen,
    Seventeen,
    Eighteen,
    TwentyOne,
    TwentyFive,
}

impl TupletActual {
    /// The number that stands for the value in a record.
    pub open spec fn numeric(self) -> u8 {
        match self {
            TupletActual::Two => 0,
            TupletActual::Three => 1,
            TupletActual::Four => 2,
            TupletActual::Five => 3,
            TupletActual::Six => 4,
            TupletActual::Seven => 5,
            TupletActual::Eight => 6,
            TupletActual::Nine => 7,
            TupletActual::Ten => 8,
            TupletActual::Eleven => 9,
            TupletActual::Thirteen => 10,
            TupletActual::Fifteen => 11,
            TupletActual::Sixteen => 12,
            TupletActual::Seventeen => 13,
            TupletActual::Eighteen => 14,
            TupletActual::TwentyOne => 15,
            TupletActual::TwentyFive => 16,
        }
    }

    /// The value that a number stands for, if there is one.
    pub open spec fn of_numeric(raw: u8) -> Option<TupletActual> {
        match raw {
            0 => Some(TupletActual::Two),
            1 => Some(TupletActual::Three),
            2 => Some(TupletActual::Four),
            3 => Some(TupletActual::Five),
            4 => Some(TupletActual::Six),
            5 => Some(TupletActual::Seven),
            6 => Some(TupletActual::Eight),
            7 => Some(TupletActual::Nine),
            8 => Some(TupletActual::Ten),
            9 => Some(TupletActual::Eleven),
            10 => Some(TupletActual::Thirteen),
            11 => Some(TupletActual::Fifteen),
            12 => Some(TupletActual::Sixteen),
            13 => Some(TupletActual::Seventeen),
            14 => Some(TupletActual::Eighteen),
            15 => Some(TupletActual::TwentyOne),
            16 => Some(TupletActual::TwentyFive),
            _ => None,
        }
    }

    /// The two directions undo each other, and no number reaches 17.
    pub proof fn lemma_numeric_inverse(self, raw: u8)
        ensures
            Self::of_numeric(self.numeric()) == Some(self),
            self.numeric() < 17,
            Self::of_numeric(raw) == Some(self) <==> self.numeric() == raw,
            Self::of_numeric(raw) is Some <==> raw < 17,
    {
    }

    /// The number that stands for the value.
    pub fn to_numeric(self) -> (raw: u8)
        ensures
            raw == self.numeric(),
    {
        match self {
            TupletActual::Two => 0,
            TupletActual::Three => 1,
            TupletActual::Four => 2,
            TupletActual::Five => 3,
            TupletActual::Six => 4,
            TupletActual::Seven => 5,
            TupletActual::Eight => 6,
            TupletActual::Nine => 7,
            TupletActual::Ten => 8,
            TupletActual::Eleven => 9,
            TupletActual::Thirteen => 10,
            TupletActual::Fifteen => 11,
            TupletActual::Sixteen => 12,
            TupletActual::Seventeen => 13,
            TupletActual::Eighteen => 14,
            TupletActual::TwentyOne => 15,
            TupletActual::TwentyFive => 16,
        }
    }

    /// The value that a number stands for; `UnknownTag` where it stands for
    /// none.
    pub fn from_numeric(raw: u8) -> (r: Result<TupletActual>)
        ensures
            r == match Self::of_numeric(raw) {
                Some(v) => Ok::<TupletActual, Error>(v),
                None => Err::<TupletActual, Error>(Error::UnknownTag),
            },
    {
        match raw {
            0 => Ok(TupletActual::Two),
            1 => Ok(TupletActual::Three),
            2 => Ok(TupletActual::Four),
            3 => Ok(TupletActual::Five),
            4 => Ok(TupletActual::Six),
            5 => Ok(TupletActual::Seven),
            6 => Ok(TupletActual::Eight),
            7 => Ok(TupletActual::Nine),
            8 => Ok(TupletActual::Ten),
            9 => Ok(TupletActual::Eleven),
            10 => Ok(TupletActual::Thirteen),
            11 => Ok(TupletActual::Fifteen),
            12 => Ok(TupletActual::Sixteen),
            13 => Ok(TupletActual::Seventeen),
            14 => Ok(TupletActual::Eighteen),
            15 => Ok(TupletActual::TwentyOne),
            16 => Ok(TupletActual::TwentyFive),
            _ => Err(Error::UnknownTag),
        }
    }
}

impl Default for TupletActual {
    fn default() -> (r: TupletActual)
        ensures
            r == TupletActual::Two,
    {
        TupletActual::Two
    }
}

/// In the time of how many notes a tuplet is played.
#[derive(Clone, Copy, PartialEq, Eq, Debug, Hash, Structural)]
pub enum TupletNormal {
    One,
    Two,
    Three,
    Four,
    Six,
    Eight,
    Nine,
    Twelve,
    Sixteen,
}

impl TupletNormal {
    /// The number that stands for the value in a record.
    pub open spec fn numeric(self) -> u8 {
        match self {
            TupletNormal::One => 0,
            TupletNormal::Two => 1,
            TupletNormal::Three => 2,
            TupletNormal::Four => 3,
            TupletNormal::Six => 4,
            TupletNormal::Eight => 5,
            TupletNormal::Nine => 6,
            TupletNormal::Twelve => 7,
            TupletNormal::Sixteen => 8,
        }
    }

    /// The value that a number stands for, if there is one.
    pub open spec fn of_numeric(raw: u8) -> Option<TupletNormal> {
        match raw {
            0 => Some(TupletNormal::One),
            1 => Some(TupletNormal::Two),
            2 => Some(TupletNormal::Three),
            3 => Some(TupletNormal::Four),
            4 => Some(TupletNormal::Six),
            5 => Some(TupletNormal::Eight),
            6 => Some(TupletNormal::Nine),
            7 => Some(TupletNormal::Twelve),
            8 => Some(TupletNormal::Sixteen),
            _ => None,
        }
    }

    /// The two directions undo each other, and no number reaches 9.
    pub proof fn lemma_numeric_inverse(self, raw: u8)
        ensures
            Self::of_numeric(self.numeric()) == Some(self),
            self.numeric() < 9,
            Self::of_numeric(raw) == Some(self) <==> self.numeric() == raw,
            Self::of_numeric(raw) is Some <==> raw < 9,
    {
    }

    /// The number that stands for the value.
    pub fn to_numeric(self) -> (raw: u8)
        ensures
            raw == self.numeric(),
    {
        match self {
            TupletNormal::One => 0,
            TupletNormal::Two => 1,
            TupletNormal::Three => 2,
            TupletNormal::Four => 3,
            TupletNormal::Six => 4,
            TupletNormal::Eight => 5,
            TupletNormal::Nine => 6,
            TupletNormal::Twelve => 7,
            TupletNormal::Sixteen => 8,
        }
    }

    /// The value that a number stands for; `UnknownTag` where it stands for
    /// none.
    pub fn from_numeric(raw: u8) -> (r: Result<TupletNormal>)
        ensures
            r == match Self::of_numeric(raw) {
                Some(v) => Ok::<TupletNormal, Error>(v),
                None => Err::<TupletNormal, Error>(Error::UnknownTag),
            },
    {
        match raw {
            0 => Ok(TupletNormal::One),
            1 => Ok(TupletNormal::Two),
            2 => Ok(TupletNormal::Three),
            3 => Ok(TupletNormal::Four),
            4 => Ok(TupletNormal::Six),
            5 => Ok(TupletNormal::Eight),
            6 => Ok(TupletNormal::Nine),
            7 => Ok(TupletNormal::Twelve),
            8 => Ok(TupletNormal::Sixteen),
            _ => Err(Error::UnknownTag),
        }
    }
}

impl Default for TupletNormal {
    fn default() -> (r: TupletNormal)
        ensures
            r == TupletNormal::One,
    {
        TupletNormal::One
    }
}

/// Grace notes and fermatas.
#[derive(Clone, Copy, PartialEq, Eq, Debug, Hash, Structural)]
pub enum SpecialNote {
    NoSpecial,
    Acciatura,
    Appogiatura,
    Fermata,
}

impl SpecialNote {
    /// The number that stands for the value in a record.
    pub open spec fn numeric(self) -> u8 {
        match self {
            SpecialNote::NoSpecial => 0,
            SpecialNote::Acciatura => 1,
            SpecialNote::Appogiatura => 2,
            SpecialNote::Fermata => 3,
        }
    }

    /// The value that a number stands for, if there is one.
    pub open spec fn of_numeric(raw: u8) -> Option<SpecialNote> {
        match raw {
            0 => Some(SpecialNote::NoSpecial),
            1 => Some(SpecialNote::Acciatura),
            2 => Some(SpecialNote::Appogiatura),
            3 => Some(SpecialNote::Fermata),
            _ => None,
        }
    }

    /// The two directions undo each other, and no number reaches 4.
    pub proof fn lemma_numeric_inverse(self, raw: u8)
        ensures
            Self::of_numeric(self.numeric()) == Some(self),
            self.numeric() < 4,
            Self::of_numeric(raw) == Some(self) <==> self.numeric() == raw,
            Self::of_numeric(raw) is Some <==> raw < 4,
    {
    }

    /// The number that stands for the value.
    pub fn to_numeric(self) -> (raw: u8)
        ensures
            raw == self.numeric(),
    {
        match self {
            SpecialNote::NoSpecial => 0,
            SpecialNote::Acciatura => 1,
            SpecialNote::Appogiatura => 2,
            SpecialNote::Fermata => 3,
        }
    }

    /// The value that a number stands for; `UnknownTag` where it stands for
    /// none.
    pub fn from_numeric(raw: u8) -> (r: Result<SpecialNote>)
        ensures
            r == match Self::of_numeric(raw) {
                Some(v) => Ok::<SpecialNote, Error>(v),
                None => Err::<SpecialNote, Error>(Error::UnknownTag),
            },
    {
        match raw {
            0 => Ok(SpecialNote::NoSpecial),
            1 => Ok(SpecialNote::Acciatura),
            2 => Ok(SpecialNote::Appogiatura),
            3 => Ok(SpecialNote::Fermata),
            _ => Err(Error::UnknownTag),
        }
    }
}

impl Default for SpecialNote {
    fn default() -> (r: SpecialNote)
        ensures
            r == SpecialNote::NoSpecial,
    {
        SpecialNote::NoSpecial
    }
}

/// The dynamic marking in force at a note.
///
/// The markings from forte to fortississimo are written as 13 to 15; the
/// number 12 stands for no marking and is refused when read.
#[derive(Clone, Copy, PartialEq, Eq, Debug, Hash, Structural)]
pub enum PhraseDynamics {
    NoDynamics,
    Sforzando,
    Fortepiano,
    Crescendo,
    Diminuendo,
    Niente,
    Rinforzando,
    Pianississimo,
    Pianissimo,
    Piano,
    MezzoPiano,
    MezzoForte,
    Forte,
    Fortissimo,
    Fortississimo,
}

impl PhraseDynamics {
    /// The number that stands for the value in a record.
    pub open spec fn numeric(self) -> u8 {
        match self {
            PhraseDynamics::NoDynamics => 0,
            PhraseDynamics::Sforzando => 1,
            PhraseDynamics::Fortepiano => 2,
            PhraseDynamics::Crescendo => 3,
            PhraseDynamics::Diminuendo => 4,
            PhraseDynamics::Niente => 5,
            PhraseDynamics::Rinforzando => 6,
            PhraseDynamics::Pianississimo => 7,
            PhraseDynamics::Pianissimo => 8,
            PhraseDynamics::Piano => 9,
            PhraseDynamics::MezzoPiano => 10,
            PhraseDynamics::MezzoForte => 11,
            PhraseDynamics::Forte => 13,
            PhraseDynamics::Fortissimo => 14,
            PhraseDynamics::Fortississimo => 15,
        }
    }

    /// The value that a number stands for, if there is one.
    pub open spec fn of_numeric(raw: u8) -> Option<PhraseDynamics> {
        match raw {
            0 => Some(PhraseDynamics::NoDynamics),
            1 => Some(PhraseDynamics::Sforzando),
            2 => Some(PhraseDynamics::Fortepiano),
            3 => Some(PhraseDynamics::Crescendo),
            4 => Some(PhraseDynamics::Diminuendo),
            5 => Some(PhraseDynamics::Niente),
            6 => Some(PhraseDynamics::Rinforzando),
            7 => Some(PhraseDynamics::Pianississimo),
            8 => Some(PhraseDynamics::Pianissimo),
            9 => Some(PhraseDynamics::Piano),
            10 => Some(PhraseDynamics::MezzoPiano),
            11 => Some(PhraseDynamics::MezzoForte),
            13 => Some(PhraseDynamics::Forte),
            14 => Some(PhraseDynamics::Fortissimo),
            15 => Some(PhraseDynamics::Fortississimo),
            _ => None,
        }
    }

    /// The two directions undo each other, and the numbers are those below
    /// 16 but for 12.
    pub proof fn lemma_numeric_inverse(self, raw: u8)
        ensures
            Self::of_numeric(self.numeric()) == Some(self),
            self.numeric() < 16,
            self.numeric() != 12,
            Self::of_numeric(raw) == Some(self) <==> self.numeric() == raw,
            Self::of_numeric(raw) is Some <==> raw < 16 && raw != 12,
    {
    }

    /// The number that stands for the value.
    pub fn to_numeric(self) -> (raw: u8)
        ensures
            raw == self.numeric(),
    {
        match self {
            PhraseDynamics::NoDynamics => 0,
            PhraseDynamics::Sforzando => 1,
            PhraseDynamics::Fortepiano => 2,
            PhraseDynamics::Crescendo => 3,
            PhraseDynamics::Diminuendo => 4,
            PhraseDynamics::Niente => 5,
            PhraseDynamics::Rinforzando => 6,
            PhraseDynamics::Pianississimo => 7,
            PhraseDynamics::Pianissimo => 8,
            PhraseDynamics::Piano => 9,
            PhraseDynamics::MezzoPiano => 10,
            PhraseDynamics::MezzoForte => 11,
            PhraseDynamics::Forte => 13,
            PhraseDynamics::Fortissimo => 14,
            PhraseDynamics::Fortississimo => 15,
        }
    }

    /// The value that a number stands for; `UnknownTag` where it stands for
    /// none.
    pub fn from_numeric(raw: u8) -> (r: Result<PhraseDynamics>)
        ensures
            r == match Self::of_numeric(raw) {
                Some(v) => Ok::<PhraseDynamics, Error>(v),
                None => Err::<PhraseDynamics, Error>(Error::UnknownTag),
            },
    {
        match raw {
            0 => Ok(PhraseDynamics::NoDynamics),
            1 => Ok(PhraseDynamics::Sforzando),
            2 => Ok(PhraseDynamics::Fortepiano),
            3 => Ok(PhraseDynamics::Crescendo),
            4 => Ok(PhraseDynamics::Diminuendo),
            5 => Ok(PhraseDynamics::Niente),
            6 => Ok(PhraseDynamics::Rinforzando),
            7 => Ok(PhraseDynamics::Pianississimo),
            8 => Ok(PhraseDynamics::Pianissimo),
            9 => Ok(PhraseDynamics::Piano),
            10 => Ok(PhraseDynamics::MezzoPiano),
            11 => Ok(PhraseDynamics::MezzoForte),
            13 => Ok(PhraseDynamics::Forte),
            14 => Ok(PhraseDynamics::Fortissimo),
            15 => Ok(PhraseDynamics::Fortississimo),
            _ => Err(Error::UnknownTag),
        }
    }
}

impl Default for PhraseDynamics {
    fn default() -> (r: PhraseDynamics)
        ensures
            r == PhraseDynamics::NoDynamics,
    {
        PhraseDynamics::NoDynamics
    }
}

/// The number of an alternate ending.
#[derive(Clone, Copy, PartialEq, Eq, Debug, Hash, Structural)]
pub enum Ending {
    NoEnding,
    One,
    Two,
    Three,
}

impl Ending {
    /// The number that stands for the value in a record.
    pub open spec fn numeric(self) -> u8 {
        match self {
            Ending::NoEnding => 0,
            Ending::One => 1,
            Ending::Two => 2,
            Ending::Three => 3,
        }
    }

    /// The value that a number stands for, if there is one.
    pub open spec fn of_numeric(raw: u8) -> Option<Ending> {
        match raw {
            0 => Some(Ending::NoEnding),
            1 => Some(Ending::One),
            2 => Some(Ending::Two),
            3 => Some(Ending::Three),
            _ => None,
        }
    }

    /// The two directions undo each other, and no number reaches 4.
    pub proof fn lemma_numeric_inverse(self, raw: u8)
        ensures
            Self::of_numeric(self.numeric()) == Some(self),
            self.numeric() < 4,
            Self::of_numeric(raw) == Some(self) <==> self.numeric() == raw,
            Self::of_numeric(raw) is Some <==> raw < 4,
    {
    }

    /// The number that stands for the value.
    pub fn to_numeric(self) -> (raw: u8)
        ensures
            raw == self.numeric(),
    {
        match self {
            Ending::NoEnding => 0,
            Ending::One => 1,
            Ending::Two => 2,
            Ending::Three => 3,
        }
    }

    /// The value that a number stands for; `UnknownTag` where it stands for
    /// none.
    pub fn from_numeric(raw: u8) -> (r: Result<Ending>)
        ensures
            r == match Self::of_numeric(raw) {
                Some(v) => Ok::<Ending, Error>(v),
                None => Err::<Ending, Error>(Error::UnknownTag),
            },
    {
        match raw {
            0 => Ok(Ending::NoEnding),
            1 => Ok(Ending::One),
            2 => Ok(Ending::Two),
            3 => Ok(Ending::Three),
            _ => Err(Error::UnknownTag),
        }
    }
}

impl Default for Ending {
    fn default() -> (r: Ending)
        ensures
            r == Ending::NoEnding,
    {
        Ending::NoEnding
    }
}

/// The kind of trill on a note.
#[derive(Clone, Copy, PartialEq, Eq, Debug, Hash, Structural)]
pub enum Trill {
    NoTrill,
    Diatonic,
    Chromatic,
}

impl Trill {
    /// The number that stands for the value in a record.
    pub open spec fn numeric(self) -> u8 {
        match self {
            Trill::NoTrill => 0,
            Trill::Diatonic => 1,
            Trill::Chromatic => 2,
        }
    }

    /// The value that a number stands for, if there is one.
    pub open spec fn of_numeric(raw: u8) -> Option<Trill> {
        match raw {
            0 => Some(Trill::NoTrill),
            1 => Some(Trill::Diatonic),
            2 => Some(Trill::Chromatic),
            _ => None,
        }
    }

    /// The two directions undo each other, and no number reaches 3.
    pub proof fn lemma_numeric_inverse(self, raw: u8)
        ensures
            Self::of_numeric(self.numeric()) == Some(self),
            self.numeric() < 3,
            Self::of_numeric(raw) == Some(self) <==> self.numeric() == raw,
            Self::of_numeric(raw) is Some <==> raw < 3,
    {
    }

    /// The number that stands for the value.
    pub fn to_numeric(self) -> (raw: u8)
        ensures
            raw == self.numeric(),
    {
        match self {
            Trill::NoTrill => 0,
            Trill::Diatonic => 1,
            Trill::Chromatic => 2,
        }
    }

    /// The value that a number stands for; `UnknownTag` where it stands for
    /// none.
    pub fn from_numeric(raw: u8) -> (r: Result<Trill>)
        ensures
            r == match Self::of_numeric(raw) {
                Some(v) => Ok::<Trill, Error>(v),
                None => Err::<Trill, Error>(Error::UnknownTag),
            },
    {
        match raw {
            0 => Ok(Trill::NoTrill),
            1 => Ok(Trill::Diatonic),
            2 => Ok(Trill::Chromatic),
            _ => Err(Error::UnknownTag),
        }
    }
}

impl Default for Trill {
    fn default() -> (r: Trill)
        ensures
            r == Trill::NoTrill,
    {
        Trill::NoTrill
    }
}

/// The Italian word for a range of tempos.
#[derive(Clone, Copy, PartialEq, Eq, Debug, Hash, Structural)]
pub enum DescriptiveTempo {
    Larghissimo,
    Grave,
    Lento,
    Largo,
    Adagio,
    Adagietto,
    Andante,
    Moderato,
    Allegretto,
    Allegro,
    Vivace,
    Presto,
    Prestissimo,
}

impl DescriptiveTempo {
    /// The number that stands for the value in a record.
    pub open spec fn numeric(self) -> u8 {
        match self {
            DescriptiveTempo::Larghissimo => 0,
            DescriptiveTempo::Grave => 1,
            DescriptiveTempo::Lento => 2,
            DescriptiveTempo::Largo => 3,
            DescriptiveTempo::Adagio => 4,
            DescriptiveTempo::Adagietto => 5,
            DescriptiveTempo::Andante => 6,
            DescriptiveTempo::Moderato => 7,
            DescriptiveTempo::Allegretto => 8,
            DescriptiveTempo::Allegro => 9,
            DescriptiveTempo::Vivace => 10,
            DescriptiveTempo::Presto => 11,
            DescriptiveTempo::Prestissimo => 12,
        }
    }

    /// The value that a number stands for, if there is one.
    pub open spec fn of_numeric(raw: u8) -> Option<DescriptiveTempo> {
        match raw {
            0 => Some(DescriptiveTempo::Larghissimo),
            1 => Some(DescriptiveTempo::Grave),
            2 => Some(DescriptiveTempo::Lento),
            3 => Some(DescriptiveTempo::Largo),
            4 => Some(DescriptiveTempo::Adagio),
            5 => Some(DescriptiveTempo::Adagietto),
            6 => Some(DescriptiveTempo::Andante),
            7 => Some(DescriptiveTempo::Moderato),
            8 => Some(DescriptiveTempo::Allegretto),
            9 => Some(DescriptiveTempo::Allegro),
            10 => Some(DescriptiveTempo::Vivace),
            11 => Some(DescriptiveTempo::Presto),
            12 => Some(DescriptiveTempo::Prestissimo),
            _ => None,
        }
    }

    /// The two directions undo each other, and no number reaches 13.
    pub proof fn lemma_numeric_inverse(self, raw: u8)
        ensures
            Self::of_numeric(self.numeric()) == Some(self),
            self.numeric() < 13,
            Self::of_numeric(raw) == Some(self) <==> self.numeric() == raw,
            Self::of_numeric(raw) is Some <==> raw < 13,
    {
    }

    /// The number that stands for the value.
    pub fn to_numeric(self) -> (raw: u8)
        ensures
            raw == self.numeric(),
    {
        match self {
            DescriptiveTempo::Larghissimo => 0,
            DescriptiveTempo::Grave => 1,
            DescriptiveTempo::Lento => 2,
            DescriptiveTempo::Largo => 3,
            DescriptiveTempo::Adagio => 4,
            DescriptiveTempo::Adagietto => 5,
            DescriptiveTempo::Andante => 6,
            DescriptiveTempo::Moderato => 7,
            DescriptiveTempo::Allegretto => 8,
            DescriptiveTempo::Allegro => 9,
            DescriptiveTempo::Vivace => 10,
            DescriptiveTempo::Presto => 11,
            DescriptiveTempo::Prestissimo => 12,
        }
    }

    /// The value that a number stands for; `UnknownTag` where it stands for
    /// none.
    pub fn from_numeric(raw: u8) -> (r: Result<DescriptiveTempo>)
        ensures
            r == match Self::of_numeric(raw) {
                Some(v) => Ok::<DescriptiveTempo, Error>(v),
                None => Err::<DescriptiveTempo, Error>(Error::UnknownTag),
            },
    {
        match raw {
            0 => Ok(DescriptiveTempo::Larghissimo),
            1 => Ok(DescriptiveTempo::Grave),
            2 => Ok(DescriptiveTempo::Lento),
            3 => Ok(DescriptiveTempo::Largo),
            4 => Ok(DescriptiveTempo::Adagio),
            5 => Ok(DescriptiveTempo::Adagietto),
            6 => Ok(DescriptiveTempo::Andante),
            7 => Ok(DescriptiveTempo::Moderato),
            8 => Ok(DescriptiveTempo::Allegretto),
            9 => Ok(DescriptiveTempo::Allegro),
            10 => Ok(DescriptiveTempo::Vivace),
            11 => Ok(DescriptiveTempo::Presto),
            12 => Ok(DescriptiveTempo::Prestissimo),
            _ => Err(Error::UnknownTag),
        }
    }
}

impl Default for DescriptiveTempo {
    fn default() -> (r: DescriptiveTempo)
        ensures
            r == DescriptiveTempo::Allegro,
    {
        DescriptiveTempo::Allegro
    }
}

/// Repeat navigation attached to a measure boundary.
#[derive(Clone, Copy, PartialEq, Eq, Debug, Hash, Structural)]
pub enum DalSegno {
    NoMarker,
    SegnoMarker,
    CodaMarker,
    DaSegno,
    DaCapo,
    DaCapoalSegno,
    DaCapoAlCoda,
    DaCapoAlFine,
}

impl DalSegno {
    /// The number that stands for the value in a record.
    pub open spec fn numeric(self) -> u8 {
        match self {
            DalSegno::NoMarker => 0,
            DalSegno::SegnoMarker => 1,
            DalSegno::CodaMarker => 2,
            DalSegno::DaSegno => 3,
            DalSegno::DaCapo => 4,
            DalSegno::DaCapoalSegno => 5,
            DalSegno::DaCapoAlCoda => 6,
            DalSegno::DaCapoAlFine => 7,
        }
    }

    /// The value that a number stands for, if there is one.
    pub open spec fn of_numeric(raw: u8) -> Option<DalSegno> {
        match raw {
            0 => Some(DalSegno::NoMarker),
            1 => Some(DalSegno::SegnoMarker),
            2 => Some(DalSegno::CodaMarker),
            3 => Some(DalSegno::DaSegno),
            4 => Some(DalSegno::DaCapo),
            5 => Some(DalSegno::DaCapoalSegno),
            6 => Some(DalSegno::DaCapoAlCoda),
            7 => Some(DalSegno::DaCapoAlFine),
            _ => None,
        }
    }

    /// The two directions undo each other, and no number reaches 8.
    pub proof fn lemma_numeric_inverse(self, raw: u8)
        ensures
            Self::of_numeric(self.numeric()) == Some(self),
            self.numeric() < 8,
            Self::of_numeric(raw) == Some(self) <==> self.numeric() == raw,
            Self::of_numeric(raw) is Some <==> raw < 8,
    {
    }

    /// The number that stands for the value.
    pub fn to_numeric(self) -> (raw: u8)
        ensures
            raw == self.numeric(),
    {
        match self {
            DalSegno::NoMarker => 0,
            DalSegno::SegnoMarker => 1,
            DalSegno::CodaMarker => 2,
            DalSegno::DaSegno => 3,
            DalSegno::DaCapo => 4,
            DalSegno::DaCapoalSegno => 5,
            DalSegno::DaCapoAlCoda => 6,
            DalSegno::DaCapoAlFine => 7,
        }
    }

    /// The value that a number stands for; `UnknownTag` where it stands for
    /// none.
    pub fn from_numeric(raw: u8) -> (r: Result<DalSegno>)
        ensures
            r == match Self::of_numeric(raw) {
                Some(v) => Ok::<DalSegno, Error>(v),
                None => Err::<DalSegno, Error>(Error::UnknownTag),
            },
    {
        match raw {
            0 => Ok(DalSegno::NoMarker),
            1 => Ok(DalSegno::SegnoMarker),
            2 => Ok(DalSegno::CodaMarker),
            3 => Ok(DalSegno::DaSegno),
            4 => Ok(DalSegno::DaCapo),
            5 => Ok(DalSegno::DaCapoalSegno),
            6 => Ok(DalSegno::DaCapoAlCoda),
            7 => Ok(DalSegno::DaCapoAlFine),
            _ => Err(Error::UnknownTag),
        }
    }
}

impl Default for DalSegno {
    fn default() -> (r: DalSegno)
        ensures
            r == DalSegno::NoMarker,
    {
        DalSegno::NoMarker
    }
}

/// The written length of a note, from the 128th note to the whole note.
#[derive(Clone, Copy, PartialEq, Eq, Debug, Hash, Structural)]
pub enum RhythmType {
    SemiHemiDemiSemiQuaver,
    HemiDemiSemiQuaver,
    DemiSemiQuaver,
    SemiQuaver,
    Quaver,
    Crochet,
    Minim,
    SemiBreve,
}

impl RhythmType {
    /// The number that stands for the value in a record.
    pub open spec fn numeric(self) -> u8 {
        match self {
            RhythmType::SemiHemiDemiSemiQuaver => 0,
            RhythmType::HemiDemiSemiQuaver => 1,
            RhythmType::DemiSemiQuaver => 2,
            RhythmType::SemiQuaver => 3,
            RhythmType::Quaver => 4,
            RhythmType::Crochet => 5,
            RhythmType::Minim => 6,
            RhythmType::SemiBreve => 7,
        }
    }

    /// The value that a number stands for, if there is one.
    pub open spec fn of_numeric(raw: u8) -> Option<RhythmType> {
        match raw {
            0 => Some(RhythmType::SemiHemiDemiSemiQuaver),
            1 => Some(RhythmType::HemiDemiSemiQuaver),
            2 => Some(RhythmType::DemiSemiQuaver),
            3 => Some(RhythmType::SemiQuaver),
            4 => Some(RhythmType::Quaver),
            5 => Some(RhythmType::Crochet),
            6 => Some(RhythmType::Minim),
            7 => Some(RhythmType::SemiBreve),
            _ => None,
        }
    }

    /// The two directions undo each other, and no number reaches 8.
    pub proof fn lemma_numeric_inverse(self, raw: u8)
        ensures
            Self::of_numeric(self.numeric()) == Some(self),
            self.numeric() < 8,
            Self::of_numeric(raw) == Some(self) <==> self.numeric() == raw,
            Self::of_numeric(raw) is Some <==> raw < 8,
    {
    }

    /// The number that stands for the value.
    pub fn to_numeric(self) -> (raw: u8)
        ensures
            raw == self.numeric(),
    {
        match self {
            RhythmType::SemiHemiDemiSemiQuaver => 0,
            RhythmType::HemiDemiSemiQuaver => 1,
            RhythmType::DemiSemiQuaver => 2,
            RhythmType::SemiQuaver => 3,
            RhythmType::Quaver => 4,
            RhythmType::Crochet => 5,
            RhythmType::Minim => 6,
            RhythmType::SemiBreve => 7,
        }
    }

    /// The value that a number stands for; `UnknownTag` where it stands for
    /// none.
    pub fn from_numeric(raw: u8) -> (r: Result<RhythmType>)
        ensures
            r == match Self::of_numeric(raw) {
                Some(v) => Ok::<RhythmType, Error>(v),
                None => Err::<RhythmType, Error>(Error::UnknownTag),
            },
    {
        match raw {
            0 => Ok(RhythmType::SemiHemiDemiSemiQuaver),
            1 => Ok(RhythmType::HemiDemiSemiQuaver),
            2 => Ok(RhythmType::DemiSemiQuaver),
            3 => Ok(RhythmType::SemiQuaver),
            4 => Ok(RhythmType::Quaver),
            5 => Ok(RhythmType::Crochet),
            6 => Ok(RhythmType::Minim),
            7 => Ok(RhythmType::SemiBreve),
            _ => Err(Error::UnknownTag),
        }
    }
}

impl Default for RhythmType {
    fn default() -> (r: RhythmType)
        ensures
            r == RhythmType::Crochet,
    {
        RhythmType::Crochet
    }
}

/// The upper number of a time signature.
#[derive(Clone, Copy, PartialEq, Eq, Debug, Hash, Structural)]
pub enum Beats {
    Two,
    Three,
    Four,
    Five,
    Six,
    Nine,
    Twelve,
}

impl Beats {
    /// The number that stands for the value in a record.
    pub open spec fn numeric(self) -> u8 {
        match self {
            Beats::Two => 0,
            Beats::Three => 1,
            Beats::Four => 2,
            Beats::Five => 3,
            Beats::Six => 4,
            Beats::Nine => 5,
            Beats::Twelve => 6,
        }
    }

    /// The value that a number stands for, if there is one.
    pub open spec fn of_numeric(raw: u8) -> Option<Beats> {
        match raw {
            0 => Some(Beats::Two),
            1 => Some(Beats::Three),
            2 => Some(Beats::Four),
            3 => Some(Beats::Five),
            4 => Some(Beats::Six),
            5 => Some(Beats::Nine),
            6 => Some(Beats::Twelve),
            _ => None,
        }
    }

    /// The two directions undo each other, and no number reaches 7.
    pub proof fn lemma_numeric_inverse(self, raw: u8)
        ensures
            Self::of_numeric(self.numeric()) == Some(self),
            self.numeric() < 7,
            Self::of_numeric(raw) == Some(self) <==> self.numeric() == raw,
            Self::of_numeric(raw) is Some <==> raw < 7,
    {
    }

    /// The number that stands for the value.
    pub fn to_numeric(self) -> (raw: u8)
        ensures
            raw == self.numeric(),
    {
        match self {
            Beats::Two => 0,
            Beats::Three => 1,
            Beats::Four => 2,
            Beats::Five => 3,
            Beats::Six => 4,
            Beats::Nine => 5,
            Beats::Twelve => 6,
        }
    }

    /// The value that a number stands for; `UnknownTag` where it stands for
    /// none.
    pub fn from_numeric(raw: u8) -> (r: Result<Beats>)
        ensures
            r == match Self::of_numeric(raw) {
                Some(v) => Ok::<Beats, Error>(v),
                None => Err::<Beats, Error>(Error::UnknownTag),
            },
    {
        match raw {
            0 => Ok(Beats::Two),
            1 => Ok(Beats::Three),
            2 => Ok(Beats::Four),
            3 => Ok(Beats::Five),
            4 => Ok(Beats::Six),
            5 => Ok(Beats::Nine),
            6 => Ok(Beats::Twelve),
            _ => Err(Error::UnknownTag),
        }
    }
}

impl Default for Beats {
    fn default() -> (r: Beats)
        ensures
            r == Beats::Four,
    {
        Beats::Four
    }
}

/// The staff a voice is written on.
#[derive(Clone, Copy, PartialEq, Eq, Debug, Hash, Structural)]
pub enum Staff {
    TrebleClef,
    BassClef,
}

impl Staff {
    /// The number that stands for the value in a record.
    pub open spec fn numeric(self) -> u8 {
        match self {
            Staff::TrebleClef => 1,
            Staff::BassClef => 2,
        }
    }

    /// The value that a number stands for, if there is one.
    pub open spec fn of_numeric(raw: u8) -> Option<Staff> {
        match raw {
            1 => Some(Staff::TrebleClef),
            2 => Some(Staff::BassClef),
            _ => None,
        }
    }

    /// The two directions undo each other, and no number reaches 3.
    pub proof fn lemma_numeric_inverse(self, raw: u8)
        ensures
            Self::of_numeric(self.numeric()) == Some(self),
            1 <= self.numeric() < 3,
            Self::of_numeric(raw) == Some(self) <==> self.numeric() == raw,
            Self::of_numeric(raw) is Some <==> 1 <= raw < 3,
    {
    }

    /// The number that stands for the value.
    pub fn to_numeric(self) -> (raw: u8)
        ensures
            raw == self.numeric(),
    {
        match self {
            Staff::TrebleClef => 1,
            Staff::BassClef => 2,
        }
    }

    /// The value that a number stands for; `UnknownTag` where it stands for
    /// none.
    pub fn from_numeric(raw: u8) -> (r: Result<Staff>)
        ensures
            r == match Self::of_numeric(raw) {
                Some(v) => Ok::<Staff, Error>(v),
                None => Err::<Staff, Error>(Error::UnknownTag),
            },
    {
        match raw {
            1 => Ok(Staff::TrebleClef),
            2 => Ok(Staff::BassClef),
            _ => Err(Error::UnknownTag),
        }
    }
}

impl Default for Staff {
    fn default() -> (r: Staff)
        ensures
            r == Staff::TrebleClef,
    {
        Staff::TrebleClef
    }
}

/// One of the four melodic lines of a part.
#[derive(Clone, Copy, PartialEq, Eq, Debug, Hash, Structural)]
pub enum Voice {
    One,
    Two,
    Three,
    Four,
}

impl Voice {
    /// The number that stands for the value in a record.
    pub open spec fn numeric(self) -> u8 {
        match self {
            Voice::One => 0,
            Voice::Two => 1,
            Voice::Three => 2,
            Voice::Four => 3,
        }
    }

    /// The value that a number stands for, if there is one.
    pub open spec fn of_numeric(raw: u8) -> Option<Voice> {
        match raw {
            0 => Some(Voice::One),
            1 => Some(Voice::Two),
            2 => Some(Voice::Three),
            3 => Some(Voice::Four),
            _ => None,
        }
    }

    /// The two directions undo each other, and no number reaches 4.
    pub proof fn lemma_numeric_inverse(self, raw: u8)
        ensures
            Self::of_numeric(self.numeric()) == Some(self),
            self.numeric() < 4,
            Self::of_numeric(raw) == Some(self) <==> self.numeric() == raw,
            Self::of_numeric(raw) is Some <==> raw < 4,
    {
    }

    /// The number that stands for the value.
    pub fn to_numeric(self) -> (raw: u8)
        ensures
            raw == self.numeric(),
    {
        match self {
            Voice::One => 0,
            Voice::Two => 1,
            Voice::Three => 2,
            Voice::Four => 3,
        }
    }

    /// The value that a number stands for; `UnknownTag` where it stands for
    /// none.
    pub fn from_numeric(raw: u8) -> (r: Result<Voice>)
        ensures
            r == match Self::of_numeric(raw) {
                Some(v) => Ok::<Voice, Error>(v),
                None => Err::<Voice, Error>(Error::UnknownTag),
            },
    {
        match raw {
            0 => Ok(Voice::One),
            1 => Ok(Voice::Two),
            2 => Ok(Voice::Three),
            3 => Ok(Voice::Four),
            _ => Err(Error::UnknownTag),
        }
    }
}

impl Default for Voice {
    fn default() -> (r: Voice)
        ensures
            r == Voice::One,
    {
        Voice::One
    }
}

/// The lower number of a time signature.
#[derive(Clone, Copy, PartialEq, Eq, Debug, Hash, Structural)]
pub enum BeatType {
    Two,
    Four,
    Eight,
    Sixteen,
}

impl BeatType {
    /// The number that stands for the value in a record.
    pub open spec fn numeric(self) -> u8 {
        match self {
            BeatType::Two => 0,
            BeatType::Four => 1,
            BeatType::Eight => 2,
            BeatType::Sixteen => 3,
        }
    }

    /// The value that a number stands for, if there is one.
    pub open spec fn of_numeric(raw: u8) -> Option<BeatType> {
        match raw {
            0 => Some(BeatType::Two),
            1 => Some(BeatType::Four),
            2 => Some(BeatType::Eight),
            3 => Some(BeatType::Sixteen),
            _ => None,
        }
    }

    /// The two directions undo each other, and no number reaches 4.
    pub proof fn lemma_numeric_inverse(self, raw: u8)
        ensures
            Self::of_numeric(self.numeric()) == Some(self),
            self.numeric() < 4,
            Self::of_numeric(raw) == Some(self) <==> self.numeric() == raw,
            Self::of_numeric(raw) is Some <==> raw < 4,
    {
    }

    /// The number that stands for the value.
    pub fn to_numeric(self) -> (raw: u8)
        ensures
            raw == self.numeric(),
    {
        match self {
            BeatType::Two => 0,
            BeatType::Four => 1,
            BeatType::Eight => 2,
            BeatType::Sixteen => 3,
        }
    }

    /// The value that a number stands for; `UnknownTag` where it stands for
    /// none.
    pub fn from_numeric(raw: u8) -> (r: Result<BeatType>)
        ensures
            r == match Self::of_numeric(raw) {
                Some(v) => Ok::<BeatType, Error>(v),
                None => Err::<BeatType, Error>(Error::UnknownTag),
            },
    {
        match raw {
            0 => Ok(BeatType::Two),
            1 => Ok(BeatType::Four),
            2 => Ok(BeatType::Eight),
            3 => Ok(BeatType::Sixteen),
            _ => Err(Error::UnknownTag),
        }
    }
}

impl Default for BeatType {
    fn default() -> (r: BeatType)
        ensures
            r == BeatType::Four,
    {
        BeatType::Four
    }
}

} // verus!
