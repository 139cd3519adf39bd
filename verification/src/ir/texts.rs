//! The texts that notation values are written and read as.

use super::notation::{
    Articulation, BeatType, Beats, DescriptiveTempo, Ending, KeySignature, NoteConnection,
    PhraseDynamics, RhythmType, SlurConnection, SpecialNote, TupletActual, TupletNormal,
    TupletNumber,
};
use super::notation::Voice;
use super::pitch::{Alter, Note, Octave};
use crate::error::{Error, Result};
use crate::text::same_text;
use vstd::prelude::*;
use vstd::string::*;

verus! {

impl KeySignature {
    /// The text of the value: the number of sharps, or of flats with a minus sign.
    pub open spec fn text(self) -> Seq<char> {
        match self {
            KeySignature::DbMajorBbminor => "-5"@,
            KeySignature::AbMajorFminor => "-4"@,
            KeySignature::EbMajorCminor => "-3"@,
            KeySignature::BbMajorGminor => "-2"@,
            KeySignature::FMajorDminor => "-1"@,
            KeySignature::CMajorAminor => "0"@,
            KeySignature::GMajorEminor => "1"@,
            KeySignature::DMajorBminor => "2"@,
            KeySignature::AMajorFsminor => "3"@,
            KeySignature::EMajorCsminor => "4"@,
            KeySignature::BMajorGsminor => "5"@,
            KeySignature::GbMajorEbminor => "6"@,
        }
    }

    /// Writes the value as text.
    pub fn to_string(&self) -> (s: String)
        ensures
            s@ == self.text(),
    {
        match self {
            KeySignature::DbMajorBbminor => String::from_str("-5"),
            KeySignature::AbMajorFminor => String::from_str("-4"),
            KeySignature::EbMajorCminor => String::from_str("-3"),
            KeySignature::BbMajorGminor => String::from_str("-2"),
            KeySignature::FMajorDminor => String::from_str("-1"),
            KeySignature::CMajorAminor => String::from_str("0"),
            KeySignature::GMajorEminor => String::from_str("1"),
            KeySignature::DMajorBminor => String::from_str("2"),
            KeySignature::AMajorFsminor => String::from_str("3"),
            KeySignature::EMajorCsminor => String::from_str("4"),
            KeySignature::BMajorGsminor => String::from_str("5"),
            KeySignature::GbMajorEbminor => String::from_str("6"),
        }
    }

    /// The value that a text stands for: a number of sharps or flats from -7 to 7.
    pub open spec fn of_text(input: Seq<char>) -> Option<KeySignature> {
        if input == "-7"@ {
            Some(KeySignature::BMajorGsminor)
        } else if input == "-6"@ {
            Some(KeySignature::GbMajorEbminor)
        } else if input == "-5"@ {
            Some(KeySignature::DbMajorBbminor)
        } else if input == "-4"@ {
            Some(KeySignature::AbMajorFminor)
        } else if input == "-3"@ {
            Some(KeySignature::EbMajorCminor)
        } else if input == "-2"@ {
            Some(KeySignature::BbMajorGminor)
        } else if input == "-1"@ {
            Some(KeySignature::FMajorDminor)
        } else if input == "0"@ {
            Some(KeySignature::CMajorAminor)
        } else if input == "1"@ {
            Some(KeySignature::GMajorEminor)
        } else if input == "2"@ {
            Some(KeySignature::DMajorBminor)
        } else if input == "3"@ {
            Some(KeySignature::AMajorFsminor)
        } else if input == "4"@ {
            Some(KeySignature::EMajorCsminor)
        } else if input == "5"@ {
            Some(KeySignature::BMajorGsminor)
        } else if input == "6"@ {
            Some(KeySignature::GbMajorEbminor)
        } else if input == "7"@ {
            Some(KeySignature::DbMajorBbminor)
        } else {
            None
        }
    }

    /// Reads the value from its text.
    pub fn from_str(input: &str) -> (r: Result<KeySignature>)
        ensures
            r == match Self::of_text(input@) {
                Some(v) => Ok::<KeySignature, Error>(v),
                None => Err::<KeySignature, Error>(Error::Unit),
            },
    {
        if same_text(input, "-7") {
            Ok(KeySignature::BMajorGsminor)
        } else if same_text(input, "-6") {
            Ok(KeySignature::GbMajorEbminor)
        } else if same_text(input, "-5") {
            Ok(KeySignature::DbMajorBbminor)
        } else if same_text(input, "-4") {
            Ok(KeySignature::AbMajorFminor)
        } else if same_text(input, "-3") {
            Ok(KeySignature::EbMajorCminor)
        } else if same_text(input, "-2") {
            Ok(KeySignature::BbMajorGminor)
        } else if same_text(input, "-1") {
            Ok(KeySignature::FMajorDminor)
        } else if same_text(input, "0") {
            Ok(KeySignature::CMajorAminor)
        } else if same_text(input, "1") {
            Ok(KeySignature::GMajorEminor)
        } else if same_text(input, "2") {
            Ok(KeySignature::DMajorBminor)
        } else if same_text(input, "3") {
            Ok(KeySignature::AMajorFsminor)
        } else if same_text(input, "4") {
            Ok(KeySignature::EMajorCsminor)
        } else if same_text(input, "5") {
            Ok(KeySignature::BMajorGsminor)
        } else if same_text(input, "6") {
            Ok(KeySignature::GbMajorEbminor)
        } else if same_text(input, "7") {
            Ok(KeySignature::DbMajorBbminor)
        } else {
            Err(Error::Unit)
        }
    }
}

impl NoteConnection {
    /// The value that a text stands for: `start` or `stop`.
    pub open spec fn of_text(input: Seq<char>) -> Option<NoteConnection> {
        if input == "start"@ {
            Some(NoteConnection::StartTie)
        } else if input == "stop"@ {
            Some(NoteConnection::EndTie)
        } else {
            None
        }
    }

    /// Reads the value from its text.
    pub fn from_str(input: &str) -> (r: Result<NoteConnection>)
        ensures
            r == match Self::of_text(input@) {
                Some(v) => Ok::<NoteConnection, Error>(v),
                None => Err::<NoteConnection, Error>(Error::Parse),
            },
    {
        if same_text(input, "start") {
            Ok(NoteConnection::StartTie)
        } else if same_text(input, "stop") {
            Ok(NoteConnection::EndTie)
        } else {
            Err(Error::Parse)
        }
    }
}

impl SlurConnection {
    /// The value that a text stands for: `start` or `stop`.
    pub open spec fn of_text(input: Seq<char>) -> Option<SlurConnection> {
        if input == "start"@ {
            Some(SlurConnection::StartSlur)
        } else if input == "stop"@ {
            Some(SlurConnection::EndSlur)
        } else {
            None
        }
    }

    /// Reads the value from its text.
    pub fn from_str(input: &str) -> (r: Result<SlurConnection>)
        ensures
            r == match Self::of_text(input@) {
                Some(v) => Ok::<SlurConnection, Error>(v),
                None => Err::<SlurConnection, Error>(Error::Parse),
            },
    {
        if same_text(input, "start") {
            Ok(SlurConnection::StartSlur)
        } else if same_text(input, "stop") {
            Ok(SlurConnection::EndSlur)
        } else {
            Err(Error::Parse)
        }
    }
}

impl Articulation {
    /// The text of the value: the name of the articulation, empty for none.
    pub open spec fn text(self) -> Seq<char> {
        match self {
            Articulation::NoArticulation => ""@,
            Articulation::Accent => "accent"@,
            Articulation::StrongAccent => "strong-accent"@,
            Articulation::Staccato => "staccato"@,
            Articulation::Staccatissimo => "staccatissimo"@,
            Articulation::Tenuto => "tenuto"@,
            Articulation::DetachedLegato => "detached-legato"@,
            Articulation::Stress => "stress"@,
        }
    }

    /// Writes the value as text.
    pub fn to_string(&self) -> (s: String)
        ensures
            s@ == self.text(),
    {
        match self {
            Articulation::NoArticulation => String::from_str(""),
            Articulation::Accent => String::from_str("accent"),
            Articulation::StrongAccent => String::from_str("strong-accent"),
            Articulation::Staccato => String::from_str("staccato"),
            Articulation::Staccatissimo => String::from_str("staccatissimo"),
            Articulation::Tenuto => String::from_str("tenuto"),
            Articulation::DetachedLegato => String::from_str("detached-legato"),
            Articulation::Stress => String::from_str("stress"),
        }
    }

    /// The value that a text stands for: the name of an articulation; any other text stands for none.
    pub open spec fn of_text(input: Seq<char>) -> Option<Articulation> {
        if input == "accent"@ {
            Some(Articulation::Accent)
        } else if input == "strong-accent"@ {
            Some(Articulation::StrongAccent)
        } else if input == "staccato"@ {
            Some(Articulation::Staccato)
        } else if input == "tenuto"@ {
            Some(Articulation::Tenuto)
        } else if input == "detached-legato"@ {
            Some(Articulation::DetachedLegato)
        } else if input == "staccatissimo"@ {
            Some(Articulation::Staccatissimo)
        } else if input == "spiccato"@ {
            Some(Articulation::Staccatissimo)
        } else if input == "stress"@ {
            Some(Articulation::Stress)
        } else {
            Some(Articulation::NoArticulation)
        }
    }

    /// Reads the value from its text.
    pub fn from_str(input: &str) -> (r: Result<Articulation>)
        ensures
            r == Ok::<Articulation, Error>(Self::of_text(input@)->Some_0),
    {
        if same_text(input, "accent") {
            Ok(Articulation::Accent)
        } else if same_text(input, "strong-accent") {
            Ok(Articulation::StrongAccent)
        } else if same_text(input, "staccato") {
            Ok(Articulation::Staccato)
        } else if same_text(input, "tenuto") {
            Ok(Articulation::Tenuto)
        } else if same_text(input, "detached-legato") {
            Ok(Articulation::DetachedLegato)
        } else if same_text(input, "staccatissimo") {
            Ok(Articulation::Staccatissimo)
        } else if same_text(input, "spiccato") {
            Ok(Articulation::Staccatissimo)
        } else if same_text(input, "stress") {
            Ok(Articulation::Stress)
        } else {
            Ok(Articulation::NoArticulation)
        }
    }
}

impl TupletNumber {
    /// The text of the value: the number.
    pub open spec fn text(self) -> Seq<char> {
        match self {
            TupletNumber::One => "1"@,
            TupletNumber::Two => "2"@,
            TupletNumber::Three => "3"@,
            TupletNumber::Four => "4"@,
        }
    }

    /// Writes the value as text.
    pub fn to_string(&self) -> (s: String)
        ensures
            s@ == self.text(),
    {
        match self {
            TupletNumber::One => String::from_str("1"),
            TupletNumber::Two => String::from_str("2"),
            TupletNumber::Three => String::from_str("3"),
            TupletNumber::Four => String::from_str("4"),
        }
    }
}

impl TupletActual {
    /// The text of the value: the number of notes.
    pub open spec fn text(self) -> Seq<char> {
        match self {
            TupletActual::Two => "2"@,
            TupletActual::Three => "3"@,
            TupletActual::Four => "4"@,
            TupletActual::Five => "5"@,
            TupletActual::Six => "6"@,
            TupletActual::Seven => "7"@,
            TupletActual::Eight => "8"@,
            TupletActual::Nine => "9"@,
            TupletActual::Ten => "10"@,
            TupletActual::Eleven => "11"@,
            TupletActual::Thirteen => "13"@,
            TupletActual::Fifteen => "15"@,
            TupletActual::Sixteen => "16"@,
            TupletActual::Seventeen => "17"@,
            TupletActual::Eighteen => "18"@,
            TupletActual::TwentyOne => "21"@,
            TupletActual::TwentyFive => "25"@,
        }
    }

    /// Writes the value as text.
    pub fn to_string(&self) -> (s: String)
        ensures
            s@ == self.text(),
    {
        match self {
            TupletActual::Two => String::from_str("2"),
            TupletActual::Three => String::from_str("3"),
            TupletActual::Four => String::from_str("4"),
            TupletActual::Five => String::from_str("5"),
            TupletActual::Six => String::from_str("6"),
            TupletActual::Seven => String::from_str("7"),
            TupletActual::Eight => String::from_str("8"),
            TupletActual::Nine => String::from_str("9"),
            TupletActual::Ten => String::from_str("10"),
            TupletActual::Eleven => String::from_str("11"),
            TupletActual::Thirteen => String::from_str("13"),
            TupletActual::Fifteen => String::from_str("15"),
            TupletActual::Sixteen => String::from_str("16"),
            TupletActual::Seventeen => String::from_str("17"),
            TupletActual::Eighteen => String::from_str("18"),
            TupletActual::TwentyOne => String::from_str("21"),
            TupletActual::TwentyFive => String::from_str("25"),
        }
    }

    /// The value that a text stands for: a number of notes that the format has.
    pub open spec fn of_text(input: Seq<char>) -> Option<TupletActual> {
        if input == "2"@ {
            Some(TupletActual::Two)
        } else if input == "3"@ {
            Some(TupletActual::Three)
        } else if input == "4"@ {
            Some(TupletActual::Four)
        } else if input == "5"@ {
            Some(TupletActual::Five)
        } else if input == "6"@ {
            Some(TupletActual::Six)
        } else if input == "7"@ {
            Some(TupletActual::Seven)
        } else if input == "8"@ {
            Some(TupletActual::Eight)
        } else if input == "9"@ {
            Some(TupletActual::Nine)
        } else if input == "10"@ {
            Some(TupletActual::Ten)
        } else if input == "11"@ {
            Some(TupletActual::Eleven)
        } else if input == "13"@ {
            Some(TupletActual::Thirteen)
        } else if input == "15"@ {
            Some(TupletActual::Fifteen)
        } else if input == "16"@ {
            Some(TupletActual::Sixteen)
        } else if input == "17"@ {
            Some(TupletActual::Seventeen)
        } else if input == "18"@ {
            Some(TupletActual::Eighteen)
        } else if input == "21"@ {
            Some(TupletActual::TwentyOne)
        } else if input == "25"@ {
            Some(TupletActual::TwentyFive)
        } else {
            None
        }
    }

    /// Reads the value from its text.
    pub fn from_str(input: &str) -> (r: Result<TupletActual>)
        ensures
            r == match Self::of_text(input@) {
                Some(v) => Ok::<TupletActual, Error>(v),
                None => Err::<TupletActual, Error>(Error::Unit),
            },
    {
        if same_text(input, "2") {
            Ok(TupletActual::Two)
        } else if same_text(input, "3") {
            Ok(TupletActual::Three)
        } else if same_text(input, "4") {
            Ok(TupletActual::Four)
        } else if same_text(input, "5") {
            Ok(TupletActual::Five)
        } else if same_text(input, "6") {
            Ok(TupletActual::Six)
        } else if same_text(input, "7") {
            Ok(TupletActual::Seven)
        } else if same_text(input, "8") {
            Ok(TupletActual::Eight)
        } else if same_text(input, "9") {
            Ok(TupletActual::Nine)
        } else if same_text(input, "10") {
            Ok(TupletActual::Ten)
        } else if same_text(input, "11") {
            Ok(TupletActual::Eleven)
        } else if same_text(input, "13") {
            Ok(TupletActual::Thirteen)
        } else if same_text(input, "15") {
            Ok(TupletActual::Fifteen)
        } else if same_text(input, "16") {
            Ok(TupletActual::Sixteen)
        } else if same_text(input, "17") {
            Ok(TupletActual::Seventeen)
        } else if same_text(input, "18") {
            Ok(TupletActual::Eighteen)
        } else if same_text(input, "21") {
            Ok(TupletActual::TwentyOne)
        } else if same_text(input, "25") {
            Ok(TupletActual::TwentyFive)
        } else {
            Err(Error::Unit)
        }
    }
}

impl TupletNormal {
    /// The text of the value: the number of notes.
    pub open spec fn text(self) -> Seq<char> {
        match self {
            TupletNormal::One => "1"@,
            TupletNormal::Two => "2"@,
            TupletNormal::Three => "3"@,
            TupletNormal::Four => "4"@,
            TupletNormal::Six => "6"@,
            TupletNormal::Eight => "8"@,
            TupletNormal::Nine => "9"@,
            TupletNormal::Twelve => "12"@,
            TupletNormal::Sixteen => "16"@,
        }
    }

    /// Writes the value as text.
    pub fn to_string(&self) -> (s: String)
        ensures
            s@ == self.text(),
    {
        match self {
            TupletNormal::One => String::from_str("1"),
            TupletNormal::Two => String::from_str("2"),
            TupletNormal::Three => String::from_str("3"),
            TupletNormal::Four => String::from_str("4"),
            TupletNormal::Six => String::from_str("6"),
            TupletNormal::Eight => String::from_str("8"),
            TupletNormal::Nine => String::from_str("9"),
            TupletNormal::Twelve => String::from_str("12"),
            TupletNormal::Sixteen => String::from_str("16"),
        }
    }

    /// The value that a text stands for: a number of notes that the format has.
    pub open spec fn of_text(input: Seq<char>) -> Option<TupletNormal> {
        if input == "1"@ {
            Some(TupletNormal::One)
        } else if input == "2"@ {
            Some(TupletNormal::Two)
        } else if input == "3"@ {
            Some(TupletNormal::Three)
        } else if input == "4"@ {
            Some(TupletNormal::Four)
        } else if input == "6"@ {
            Some(TupletNormal::Six)
        } else if input == "8"@ {
            Some(TupletNormal::Eight)
        } else if input == "9"@ {
            Some(TupletNormal::Nine)
        } else if input == "12"@ {
            Some(TupletNormal::Twelve)
        } else if input == "16"@ {
            Some(TupletNormal::Sixteen)
        } else {
            None
        }
    }

    /// Reads the value from its text.
    pub fn from_str(input: &str) -> (r: Result<TupletNormal>)
        ensures
            r == match Self::of_text(input@) {
                Some(v) => Ok::<TupletNormal, Error>(v),
                None => Err::<TupletNormal, Error>(Error::Unit),
            },
    {
        if same_text(input, "1") {
            Ok(TupletNormal::One)
        } else if same_text(input, "2") {
            Ok(TupletNormal::Two)
        } else if same_text(input, "3") {
            Ok(TupletNormal::Three)
        } else if same_text(input, "4") {
            Ok(TupletNormal::Four)
        } else if same_text(input, "6") {
            Ok(TupletNormal::Six)
        } else if same_text(input, "8") {
            Ok(TupletNormal::Eight)
        } else if same_text(input, "9") {
            Ok(TupletNormal::Nine)
        } else if same_text(input, "12") {
            Ok(TupletNormal::Twelve)
        } else if same_text(input, "16") {
            Ok(TupletNormal::Sixteen)
        } else {
            Err(Error::Unit)
        }
    }
}

impl SpecialNote {
    /// The text of the value: whether a grace note is slashed: `yes`, `no`, or empty for no grace note.
    pub open spec fn text(self) -> Seq<char> {
        match self {
            SpecialNote::NoSpecial => ""@,
            SpecialNote::Acciatura => "yes"@,
            SpecialNote::Appogiatura => "no"@,
            SpecialNote::Fermata => ""@,
        }
    }

    /// Writes the value as text.
    pub fn to_string(&self) -> (s: String)
        ensures
            s@ == self.text(),
    {
        match self {
            SpecialNote::NoSpecial => String::from_str(""),
            SpecialNote::Acciatura => String::from_str("yes"),
            SpecialNote::Appogiatura => String::from_str("no"),
            SpecialNote::Fermata => String::from_str(""),
        }
    }

    /// The value that a text stands for: `yes` for a slashed grace note or `no` for one without a slash.
    pub open spec fn of_text(input: Seq<char>) -> Option<SpecialNote> {
        if input == "yes"@ {
            Some(SpecialNote::Acciatura)
        } else if input == "no"@ {
            Some(SpecialNote::Appogiatura)
        } else {
            None
        }
    }

    /// Reads the value from its text.
    pub fn from_str(input: &str) -> (r: Result<SpecialNote>)
        ensures
            r == match Self::of_text(input@) {
                Some(v) => Ok::<SpecialNote, Error>(v),
                None => Err::<SpecialNote, Error>(Error::Parse),
            },
    {
        if same_text(input, "yes") {
            Ok(SpecialNote::Acciatura)
        } else if same_text(input, "no") {
            Ok(SpecialNote::Appogiatura)
        } else {
            Err(Error::Parse)
        }
    }
}

impl PhraseDynamics {
    /// The value that a text stands for: a dynamic marking from `ppp` to `fff`, or `sf`, `sfz` or `fz`.
    pub open spec fn of_text(input: Seq<char>) -> Option<PhraseDynamics> {
        if input == "ppp"@ {
            Some(PhraseDynamics::Pianississimo)
        } else if input == "pp"@ {
            Some(PhraseDynamics::Pianissimo)
        } else if input == "p"@ {
            Some(PhraseDynamics::Piano)
        } else if input == "mp"@ {
            Some(PhraseDynamics::MezzoPiano)
        } else if input == "mf"@ {
            Some(PhraseDynamics::MezzoForte)
        } else if input == "f"@ {
            Some(PhraseDynamics::Forte)
        } else if input == "ff"@ {
            Some(PhraseDynamics::Fortissimo)
        } else if input == "fff"@ {
            Some(PhraseDynamics::Fortississimo)
        } else if input == "sf"@ {
            Some(PhraseDynamics::Sforzando)
        } else if input == "sfz"@ {
            Some(PhraseDynamics::Sforzando)
        } else if input == "fz"@ {
            Some(PhraseDynamics::Sforzando)
        } else {
            None
        }
    }

    /// Reads the value from its text.
    pub fn from_str(input: &str) -> (r: Result<PhraseDynamics>)
        ensures
            r == match Self::of_text(input@) {
                Some(v) => Ok::<PhraseDynamics, Error>(v),
                None => Err::<PhraseDynamics, Error>(Error::Parse),
            },
    {
        if same_text(input, "ppp") {
            Ok(PhraseDynamics::Pianississimo)
        } else if same_text(input, "pp") {
            Ok(PhraseDynamics::Pianissimo)
        } else if same_text(input, "p") {
            Ok(PhraseDynamics::Piano)
        } else if same_text(input, "mp") {
            Ok(PhraseDynamics::MezzoPiano)
        } else if same_text(input, "mf") {
            Ok(PhraseDynamics::MezzoForte)
        } else if same_text(input, "f") {
            Ok(PhraseDynamics::Forte)
        } else if same_text(input, "ff") {
            Ok(PhraseDynamics::Fortissimo)
        } else if same_text(input, "fff") {
            Ok(PhraseDynamics::Fortississimo)
        } else if same_text(input, "sf") {
            Ok(PhraseDynamics::Sforzando)
        } else if same_text(input, "sfz") {
            Ok(PhraseDynamics::Sforzando)
        } else if same_text(input, "fz") {
            Ok(PhraseDynamics::Sforzando)
        } else {
            Err(Error::Parse)
        }
    }
}

impl Ending {
    /// The text of the value: the number of the ending, empty for none.
    pub open spec fn text(self) -> Seq<char> {
        match self {
            Ending::NoEnding => ""@,
            Ending::One => "1"@,
            Ending::Two => "2"@,
            Ending::Three => "3"@,
        }
    }

    /// Writes the value as text.
    pub fn to_string(&self) -> (s: String)
        ensures
            s@ == self.text(),
    {
        match self {
            Ending::NoEnding => String::from_str(""),
            Ending::One => String::from_str("1"),
            Ending::Two => String::from_str("2"),
            Ending::Three => String::from_str("3"),
        }
    }

    /// The value that a text stands for: the number of an ending from 1 to 3, or nothing.
    pub open spec fn of_text(input: Seq<char>) -> Option<Ending> {
        if input == ""@ {
            Some(Ending::NoEnding)
        } else if input == "1"@ {
            Some(Ending::One)
        } else if input == "2"@ {
            Some(Ending::Two)
        } else if input == "3"@ {
            Some(Ending::Three)
        } else {
            None
        }
    }

    /// Reads the value from its text.
    pub fn from_str(input: &str) -> (r: Result<Ending>)
        ensures
            r == match Self::of_text(input@) {
                Some(v) => Ok::<Ending, Error>(v),
                None => Err::<Ending, Error>(Error::Unit),
            },
    {
        if same_text(input, "") {
            Ok(Ending::NoEnding)
        } else if same_text(input, "1") {
            Ok(Ending::One)
        } else if same_text(input, "2") {
            Ok(Ending::Two)
        } else if same_text(input, "3") {
            Ok(Ending::Three)
        } else {
            Err(Error::Unit)
        }
    }
}

impl DescriptiveTempo {
    /// The text of the value: the Italian word.
    pub open spec fn text(self) -> Seq<char> {
        match self {
            DescriptiveTempo::Larghissimo => "Larghissimo"@,
            DescriptiveTempo::Grave => "Grave"@,
            DescriptiveTempo::Lento => "Lento"@,
            DescriptiveTempo::Largo => "Largo"@,
            DescriptiveTempo::Adagio => "Adagio"@,
            DescriptiveTempo::Adagietto => "Adagietto"@,
            DescriptiveTempo::Andante => "Andante"@,
            DescriptiveTempo::Moderato => "Moderato"@,
            DescriptiveTempo::Allegretto => "Allegretto"@,
            DescriptiveTempo::Allegro => "Allegro"@,
            DescriptiveTempo::Vivace => "Vivace"@,
            DescriptiveTempo::Presto => "Presto"@,
            DescriptiveTempo::Prestissimo => "Prestissimo"@,
        }
    }

    /// Writes the value as text.
    pub fn to_string(&self) -> (s: String)
        ensures
            s@ == self.text(),
    {
        match self {
            DescriptiveTempo::Larghissimo => String::from_str("Larghissimo"),
            DescriptiveTempo::Grave => String::from_str("Grave"),
            DescriptiveTempo::Lento => String::from_str("Lento"),
            DescriptiveTempo::Largo => String::from_str("Largo"),
            DescriptiveTempo::Adagio => String::from_str("Adagio"),
            DescriptiveTempo::Adagietto => String::from_str("Adagietto"),
            DescriptiveTempo::Andante => String::from_str("Andante"),
            DescriptiveTempo::Moderato => String::from_str("Moderato"),
            DescriptiveTempo::Allegretto => String::from_str("Allegretto"),
            DescriptiveTempo::Allegro => String::from_str("Allegro"),
            DescriptiveTempo::Vivace => String::from_str("Vivace"),
            DescriptiveTempo::Presto => String::from_str("Presto"),
            DescriptiveTempo::Prestissimo => String::from_str("Prestissimo"),
        }
    }
}

impl RhythmType {
    /// The text of the value: the name of the note type, from `128th` to `whole`.
    pub open spec fn text(self) -> Seq<char> {
        match self {
            RhythmType::SemiHemiDemiSemiQuaver => "128th"@,
            RhythmType::HemiDemiSemiQuaver => "64th"@,
            RhythmType::DemiSemiQuaver => "32nd"@,
            RhythmType::SemiQuaver => "16th"@,
            RhythmType::Quaver => "eighth"@,
            RhythmType::Crochet => "quarter"@,
            RhythmType::Minim => "half"@,
            RhythmType::SemiBreve => "whole"@,
        }
    }

    /// Writes the note type as text.
    pub fn get_type_string(&self) -> (s: String)
        ensures
            s@ == self.text(),
    {
        match self {
            RhythmType::SemiHemiDemiSemiQuaver => String::from_str("128th"),
            RhythmType::HemiDemiSemiQuaver => String::from_str("64th"),
            RhythmType::DemiSemiQuaver => String::from_str("32nd"),
            RhythmType::SemiQuaver => String::from_str("16th"),
            RhythmType::Quaver => String::from_str("eighth"),
            RhythmType::Crochet => String::from_str("quarter"),
            RhythmType::Minim => String::from_str("half"),
            RhythmType::SemiBreve => String::from_str("whole"),
        }
    }

    /// The value that a text stands for: the name of a note type; `breve` stands for the whole note.
    pub open spec fn of_text(input: Seq<char>) -> Option<RhythmType> {
        if input == "breve"@ {
            Some(RhythmType::SemiBreve)
        } else if input == "whole"@ {
            Some(RhythmType::SemiBreve)
        } else if input == "half"@ {
            Some(RhythmType::Minim)
        } else if input == "quarter"@ {
            Some(RhythmType::Crochet)
        } else if input == "eighth"@ {
            Some(RhythmType::Quaver)
        } else if input == "16th"@ {
            Some(RhythmType::SemiQuaver)
        } else if input == "32nd"@ {
            Some(RhythmType::DemiSemiQuaver)
        } else if input == "64th"@ {
            Some(RhythmType::HemiDemiSemiQuaver)
        } else if input == "128th"@ {
            Some(RhythmType::SemiHemiDemiSemiQuaver)
        } else {
            None
        }
    }

    /// Reads the value from its text.
    pub fn from_str(input: &str) -> (r: Result<RhythmType>)
        ensures
            r == match Self::of_text(input@) {
                Some(v) => Ok::<RhythmType, Error>(v),
                None => Err::<RhythmType, Error>(Error::Parse),
            },
    {
        if same_text(input, "breve") {
            Ok(RhythmType::SemiBreve)
        } else if same_text(input, "whole") {
            Ok(RhythmType::SemiBreve)
        } else if same_text(input, "half") {
            Ok(RhythmType::Minim)
        } else if same_text(input, "quarter") {
            Ok(RhythmType::Crochet)
        } else if same_text(input, "eighth") {
            Ok(RhythmType::Quaver)
        } else if same_text(input, "16th") {
            Ok(RhythmType::SemiQuaver)
        } else if same_text(input, "32nd") {
            Ok(RhythmType::DemiSemiQuaver)
        } else if same_text(input, "64th") {
            Ok(RhythmType::HemiDemiSemiQuaver)
        } else if same_text(input, "128th") {
            Ok(RhythmType::SemiHemiDemiSemiQuaver)
        } else {
            Err(Error::Parse)
        }
    }
}

impl Beats {
    /// The text of the value: the number of beats.
    pub open spec fn text(self) -> Seq<char> {
        match self {
            Beats::Two => "2"@,
            Beats::Three => "3"@,
            Beats::Four => "4"@,
            Beats::Five => "5"@,
            Beats::Six => "6"@,
            Beats::Nine => "9"@,
            Beats::Twelve => "12"@,
        }
    }

    /// Writes the value as text.
    pub fn to_string(&self) -> (s: String)
        ensures
            s@ == self.text(),
    {
        match self {
            Beats::Two => String::from_str("2"),
            Beats::Three => String::from_str("3"),
            Beats::Four => String::from_str("4"),
            Beats::Five => String::from_str("5"),
            Beats::Six => String::from_str("6"),
            Beats::Nine => String::from_str("9"),
            Beats::Twelve => String::from_str("12"),
        }
    }

    /// The value that a text stands for: a number of beats that the format has.
    pub open spec fn of_text(input: Seq<char>) -> Option<Beats> {
        if input == "2"@ {
            Some(Beats::Two)
        } else if input == "3"@ {
            Some(Beats::Three)
        } else if input == "4"@ {
            Some(Beats::Four)
        } else if input == "5"@ {
            Some(Beats::Five)
        } else if input == "6"@ {
            Some(Beats::Six)
        } else if input == "9"@ {
            Some(Beats::Nine)
        } else if input == "12"@ {
            Some(Beats::Twelve)
        } else {
            None
        }
    }

    /// Reads the value from its text.
    pub fn from_str(input: &str) -> (r: Result<Beats>)
        ensures
            r == match Self::of_text(input@) {
                Some(v) => Ok::<Beats, Error>(v),
                None => Err::<Beats, Error>(Error::Parse),
            },
    {
        if same_text(input, "2") {
            Ok(Beats::Two)
        } else if same_text(input, "3") {
            Ok(Beats::Three)
        } else if same_text(input, "4") {
            Ok(Beats::Four)
        } else if same_text(input, "5") {
            Ok(Beats::Five)
        } else if same_text(input, "6") {
            Ok(Beats::Six)
        } else if same_text(input, "9") {
            Ok(Beats::Nine)
        } else if same_text(input, "12") {
            Ok(Beats::Twelve)
        } else {
            Err(Error::Parse)
        }
    }
}

impl BeatType {
    /// The text of the value: the note value of a beat.
    pub open spec fn text(self) -> Seq<char> {
        match self {
            BeatType::Two => "2"@,
            BeatType::Four => "4"@,
            BeatType::Eight => "8"@,
            BeatType::Sixteen => "16"@,
        }
    }

    /// Writes the value as text.
    pub fn to_string(&self) -> (s: String)
        ensures
            s@ == self.text(),
    {
        match self {
            BeatType::Two => String::from_str("2"),
            BeatType::Four => String::from_str("4"),
            BeatType::Eight => String::from_str("8"),
            BeatType::Sixteen => String::from_str("16"),
        }
    }

    /// The value that a text stands for: a note value of a beat that the format has.
    pub open spec fn of_text(input: Seq<char>) -> Option<BeatType> {
        if input == "2"@ {
            Some(BeatType::Two)
        } else if input == "4"@ {
            Some(BeatType::Four)
        } else if input == "8"@ {
            Some(BeatType::Eight)
        } else if input == "16"@ {
            Some(BeatType::Sixteen)
        } else {
            None
        }
    }

    /// Reads the value from its text.
    pub fn from_str(input: &str) -> (r: Result<BeatType>)
        ensures
            r == match Self::of_text(input@) {
                Some(v) => Ok::<BeatType, Error>(v),
                None => Err::<BeatType, Error>(Error::Parse),
            },
    {
        if same_text(input, "2") {
            Ok(BeatType::Two)
        } else if same_text(input, "4") {
            Ok(BeatType::Four)
        } else if same_text(input, "8") {
            Ok(BeatType::Eight)
        } else if same_text(input, "16") {
            Ok(BeatType::Sixteen)
        } else {
            Err(Error::Parse)
        }
    }
}

impl Note {
    /// The text of the value: the letter of the step, with `#` for a sharp.
    pub open spec fn text(self) -> Seq<char> {
        match self {
            Note::NoteC => "C"@,
            Note::NoteCsharp => "C#"@,
            Note::NoteD => "D"@,
            Note::NoteDsharp => "D#"@,
            Note::NoteE => "E"@,
            Note::NoteF => "F"@,
            Note::NoteFsharp => "F#"@,
            Note::NoteG => "G"@,
            Note::NoteGsharp => "G#"@,
            Note::NoteA => "A"@,
            Note::NoteAsharp => "A#"@,
            Note::NoteB => "B"@,
        }
    }

    /// Writes the value as text.
    pub fn to_string(&self) -> (s: String)
        ensures
            s@ == self.text(),
    {
        match self {
            Note::NoteC => String::from_str("C"),
            Note::NoteCsharp => String::from_str("C#"),
            Note::NoteD => String::from_str("D"),
            Note::NoteDsharp => String::from_str("D#"),
            Note::NoteE => String::from_str("E"),
            Note::NoteF => String::from_str("F"),
            Note::NoteFsharp => String::from_str("F#"),
            Note::NoteG => String::from_str("G"),
            Note::NoteGsharp => String::from_str("G#"),
            Note::NoteA => String::from_str("A"),
            Note::NoteAsharp => String::from_str("A#"),
            Note::NoteB => String::from_str("B"),
        }
    }

    /// The value that a text stands for: the letter of a natural step.
    pub open spec fn of_text(input: Seq<char>) -> Option<Note> {
        if input == "C"@ {
            Some(Note::NoteC)
        } else if input == "D"@ {
            Some(Note::NoteD)
        } else if input == "E"@ {
            Some(Note::NoteE)
        } else if input == "F"@ {
            Some(Note::NoteF)
        } else if input == "G"@ {
            Some(Note::NoteG)
        } else if input == "A"@ {
            Some(Note::NoteA)
        } else if input == "B"@ {
            Some(Note::NoteB)
        } else {
            None
        }
    }

    /// Reads the value from its text.
    pub fn from_str(input: &str) -> (r: Result<Note>)
        ensures
            r == match Self::of_text(input@) {
                Some(v) => Ok::<Note, Error>(v),
                None => Err::<Note, Error>(Error::Unit),
            },
    {
        if same_text(input, "C") {
            Ok(Note::NoteC)
        } else if same_text(input, "D") {
            Ok(Note::NoteD)
        } else if same_text(input, "E") {
            Ok(Note::NoteE)
        } else if same_text(input, "F") {
            Ok(Note::NoteF)
        } else if same_text(input, "G") {
            Ok(Note::NoteG)
        } else if same_text(input, "A") {
            Ok(Note::NoteA)
        } else if same_text(input, "B") {
            Ok(Note::NoteB)
        } else {
            Err(Error::Unit)
        }
    }
}

impl Alter {
    /// The text of the value: the number of semitones.
    pub open spec fn text(self) -> Seq<char> {
        match self {
            Alter::Flat => "-1"@,
            Alter::Natural => "0"@,
            Alter::Sharp => "1"@,
            Alter::DoubleSharp => "2"@,
        }
    }

    /// Writes the value as text.
    pub fn to_string(&self) -> (s: String)
        ensures
            s@ == self.text(),
    {
        match self {
            Alter::Flat => String::from_str("-1"),
            Alter::Natural => String::from_str("0"),
            Alter::Sharp => String::from_str("1"),
            Alter::DoubleSharp => String::from_str("2"),
        }
    }

    /// The value that a text stands for: a number of semitones from -1 to 2.
    pub open spec fn of_text(input: Seq<char>) -> Option<Alter> {
        if input == "-1"@ {
            Some(Alter::Flat)
        } else if input == "0"@ {
            Some(Alter::Natural)
        } else if input == "1"@ {
            Some(Alter::Sharp)
        } else if input == "2"@ {
            Some(Alter::DoubleSharp)
        } else {
            None
        }
    }

    /// Reads the value from its text.
    pub fn from_str(input: &str) -> (r: Result<Alter>)
        ensures
            r == match Self::of_text(input@) {
                Some(v) => Ok::<Alter, Error>(v),
                None => Err::<Alter, Error>(Error::Unit),
            },
    {
        if same_text(input, "-1") {
            Ok(Alter::Flat)
        } else if same_text(input, "0") {
            Ok(Alter::Natural)
        } else if same_text(input, "1") {
            Ok(Alter::Sharp)
        } else if same_text(input, "2") {
            Ok(Alter::DoubleSharp)
        } else {
            Err(Error::Unit)
        }
    }
}

impl Octave {
    /// The value that a text stands for: the number of an octave from 0 to 8.
    pub open spec fn of_text(input: Seq<char>) -> Option<Octave> {
        if input == "0"@ {
            Some(Octave::Octave0)
        } else if input == "1"@ {
            Some(Octave::Octave1)
        } else if input == "2"@ {
            Some(Octave::Octave2)
        } else if input == "3"@ {
            Some(Octave::Octave3)
        } else if input == "4"@ {
            Some(Octave::Octave4)
        } else if input == "5"@ {
            Some(Octave::Octave5)
        } else if input == "6"@ {
            Some(Octave::Octave6)
        } else if input == "7"@ {
            Some(Octave::Octave7)
        } else if input == "8"@ {
            Some(Octave::Octave8)
        } else {
            None
        }
    }

    /// Reads the value from its text.
    pub fn from_str(input: &str) -> (r: Result<Octave>)
        ensures
            r == match Self::of_text(input@) {
                Some(v) => Ok::<Octave, Error>(v),
                None => Err::<Octave, Error>(Error::Unit),
            },
    {
        if same_text(input, "0") {
            Ok(Octave::Octave0)
        } else if same_text(input, "1") {
            Ok(Octave::Octave1)
        } else if same_text(input, "2") {
            Ok(Octave::Octave2)
        } else if same_text(input, "3") {
            Ok(Octave::Octave3)
        } else if same_text(input, "4") {
            Ok(Octave::Octave4)
        } else if same_text(input, "5") {
            Ok(Octave::Octave5)
        } else if same_text(input, "6") {
            Ok(Octave::Octave6)
        } else if same_text(input, "7") {
            Ok(Octave::Octave7)
        } else if same_text(input, "8") {
            Ok(Octave::Octave8)
        } else {
            Err(Error::Unit)
        }
    }
}

/// A dynamic marking as notation writes it.
#[derive(Clone, Copy, PartialEq, Eq, Debug, Hash, Structural)]
pub enum DynamicsValue {
    Ppp,
    Pp,
    P,
    F,
    Ff,
    Fff,
    Mp,
    Mf,
    Sf,
    Rf,
    N,
}

impl DynamicsValue {
    /// The marking that notation writes for the dynamics of a note: none
    /// for no dynamics, `p` for what notation has no marking for.
    pub open spec fn of_dynamics(dynamics: PhraseDynamics) -> Option<DynamicsValue> {
        match dynamics {
            PhraseDynamics::NoDynamics => None,
            PhraseDynamics::Pianississimo => Some(DynamicsValue::Ppp),
            PhraseDynamics::Pianissimo => Some(DynamicsValue::Pp),
            PhraseDynamics::Piano => Some(DynamicsValue::P),
            PhraseDynamics::Forte => Some(DynamicsValue::F),
            PhraseDynamics::Fortissimo => Some(DynamicsValue::Ff),
            PhraseDynamics::Fortississimo => Some(DynamicsValue::Fff),
            PhraseDynamics::MezzoPiano => Some(DynamicsValue::Mp),
            PhraseDynamics::MezzoForte => Some(DynamicsValue::Mf),
            _ => Some(DynamicsValue::P),
        }
    }

    /// The marking that notation writes for the dynamics of a note.
    pub fn from_dynamics(dynamics: PhraseDynamics) -> (r: Option<DynamicsValue>)
        ensures
            r == Self::of_dynamics(dynamics),
    {
        match dynamics {
            PhraseDynamics::NoDynamics => None,
            PhraseDynamics::Pianississimo => Some(DynamicsValue::Ppp),
            PhraseDynamics::Pianissimo => Some(DynamicsValue::Pp),
            PhraseDynamics::Piano => Some(DynamicsValue::P),
            PhraseDynamics::Forte => Some(DynamicsValue::F),
            PhraseDynamics::Fortissimo => Some(DynamicsValue::Ff),
            PhraseDynamics::Fortississimo => Some(DynamicsValue::Fff),
            PhraseDynamics::MezzoPiano => Some(DynamicsValue::Mp),
            PhraseDynamics::MezzoForte => Some(DynamicsValue::Mf),
            _ => Some(DynamicsValue::P),
        }
    }
}

/// Whether a voice is written on the upper staff: the first voice of up to
/// two, the first two of more.
pub open spec fn on_upper_staff(voice: Voice, num_voices: usize) -> bool {
    if num_voices < 3 {
        voice == Voice::One
    } else {
        voice == Voice::One || voice == Voice::Two
    }
}

/// The number of the staff that a voice is written on: `1` for the upper
/// staff, `2` for the lower.
pub fn get_staff(voice: Voice, num_voices: usize) -> (staff: String)
    ensures
        staff@ == if on_upper_staff(voice, num_voices) {
            "1"@
        } else {
            "2"@
        },
{
    if num_voices < 3 {
        if voice == Voice::One {
            String::from_str("1")
        } else {
            String::from_str("2")
        }
    } else if voice == Voice::One || voice == Voice::Two {
        String::from_str("1")
    } else {
        String::from_str("2")
    }
}

} // verus!
