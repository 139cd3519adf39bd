use super::notation::{
    Arpeggiate, Articulation, BeatType, Beats, Chord, DalSegno, Ending, KeySignature,
    MeasureStartEnd, NoteConnection, PhraseDynamics, RhythmType, SlurConnection, SpecialNote,
    Trill, TupletActual, TupletNormal, TupletNumber, TupletStartStop, Voice,
};
use super::pitch::NumericPitchRest;
use super::tempo::Tempo;
use crate::error::{Error, Result};
use vstd::prelude::*;

verus! {

/// The ratio of a tuplet: `actual_notes` notes in the time of `normal_notes`.
#[derive(Clone, Copy, PartialEq, Eq, Debug, Hash, Structural)]
pub struct TimeModification {
    pub actual_notes: TupletActual,
    pub normal_notes: TupletNormal,
}

impl TimeModification {
    /// The ratio of `actual_notes` notes in the time of `normal_notes`.
    pub fn new(actual_notes: TupletActual, normal_notes: TupletNormal) -> (t: TimeModification)
        ensures
            t.actual_notes == actual_notes,
            t.normal_notes == normal_notes,
    {
        TimeModification { actual_notes, normal_notes }
    }

    /// The number of notes that the tuplet plays.
    pub fn get_actual(&self) -> (actual: TupletActual)
        ensures
            actual == self.actual_notes,
    {
        self.actual_notes
    }

    /// The number of notes whose time the tuplet takes.
    pub fn get_normal(&self) -> (normal: TupletNormal)
        ensures
            normal == self.normal_notes,
    {
        self.normal_notes
    }
}

/// The ratio that the two numbers of a tuplet, given as texts, stand for.
/// A number that the format has no value for is refused.
pub fn convert_time_modification(actual_notes: &str, normal_notes: &str) -> (r: Result<
    TimeModification,
>)
    ensures
        r == match (TupletActual::of_text(actual_notes@), TupletNormal::of_text(normal_notes@)) {
            (Some(actual), Some(normal)) => Ok::<TimeModification, Error>(
                TimeModification { actual_notes: actual, normal_notes: normal },
            ),
            _ => Err::<TimeModification, Error>(Error::Unit),
        },
{
    match (TupletActual::from_str(actual_notes), TupletNormal::from_str(normal_notes)) {
        (Ok(actual), Ok(normal)) => Ok(TimeModification::new(actual, normal)),
        _ => Err(Error::Unit),
    }
}

impl Default for TimeModification {
    fn default() -> (t: TimeModification)
        ensures
            t.actual_notes == TupletActual::Two,
            t.normal_notes == TupletNormal::One,
    {
        TimeModification { actual_notes: TupletActual::Two, normal_notes: TupletNormal::One }
    }
}

/// Whether a tuplet marker carries a dot.
pub type TupletDotted = bool;

/// Whether a note carries a dot.
pub type IsDotted = bool;

/// A tuplet boundary marker.
#[derive(Clone, Copy, PartialEq, Eq, Debug, Hash, Structural)]
pub struct TupletData {
    pub start_stop: TupletStartStop,
    pub tuplet_number: TupletNumber,
    pub actual_notes: TupletActual,
    pub normal_notes: TupletNormal,
    pub dotted: TupletDotted,
}

impl TupletData {
    /// The ratio that is in force after this marker: the marker's own ratio
    /// after a start, none after a stop or an empty marker.
    pub open spec fn time_modification(self) -> Option<TimeModification> {
        match self.start_stop {
            TupletStartStop::TupletStart => Some(
                TimeModification {
                    actual_notes: self.actual_notes,
                    normal_notes: self.normal_notes,
                },
            ),
            TupletStartStop::NoTuplet => None,
            TupletStartStop::TupletStop => None,
        }
    }

    /// The ratio that is in force after this marker.
    pub fn to_time_modification(self) -> (t: Option<TimeModification>)
        ensures
            t == self.time_modification(),
    {
        match self.start_stop {
            TupletStartStop::TupletStart => Some(
                TimeModification::new(self.actual_notes, self.normal_notes),
            ),
            TupletStartStop::NoTuplet => None,
            TupletStartStop::TupletStop => None,
        }
    }
}

impl Default for TupletData {
    fn default() -> (t: TupletData)
        ensures
            t == (TupletData {
                start_stop: TupletStartStop::NoTuplet,
                tuplet_number: TupletNumber::One,
                actual_notes: TupletActual::Two,
                normal_notes: TupletNormal::One,
                dotted: false,
            }),
    {
        TupletData {
            start_stop: TupletStartStop::NoTuplet,
            tuplet_number: TupletNumber::One,
            actual_notes: TupletActual::Two,
            normal_notes: TupletNormal::One,
            dotted: false,
        }
    }
}

/// Time signature, key and tempo, written whenever one of them changes.
#[derive(Clone, Copy, PartialEq, Eq, Debug, Hash, Structural)]
pub struct MeasureInitializer {
    pub beats: Beats,
    pub beat_type: BeatType,
    pub key_sig: KeySignature,
    pub tempo: Tempo,
}

impl Default for MeasureInitializer {
    fn default() -> (m: MeasureInitializer)
        ensures
            m.beats == Beats::Four,
            m.beat_type == BeatType::Four,
            m.key_sig == KeySignature::CMajorAminor,
            m.tempo.raw() == 50,
    {
        MeasureInitializer {
            beats: Beats::Four,
            beat_type: BeatType::Four,
            key_sig: KeySignature::CMajorAminor,
            tempo: Tempo::default(),
        }
    }
}

/// The start or the end of a measure.
#[derive(Clone, Copy, PartialEq, Eq, Debug, Hash, Structural)]
pub struct MeasureMetaData {
    pub start_end: MeasureStartEnd,
    pub ending: Ending,
    pub dal_segno: DalSegno,
}

impl MeasureMetaData {
    /// A measure boundary without ending and navigation marker.
    pub fn new(measure_type: MeasureStartEnd) -> (m: MeasureMetaData)
        ensures
            m == (MeasureMetaData {
                start_end: measure_type,
                ending: Ending::NoEnding,
                dal_segno: DalSegno::NoMarker,
            }),
    {
        MeasureMetaData {
            start_end: measure_type,
            ending: Ending::NoEnding,
            dal_segno: DalSegno::NoMarker,
        }
    }
}

impl Default for MeasureMetaData {
    fn default() -> (m: MeasureMetaData)
        ensures
            m == (MeasureMetaData {
                start_end: MeasureStartEnd::MeasureStart,
                ending: Ending::NoEnding,
                dal_segno: DalSegno::NoMarker,
            }),
    {
        MeasureMetaData::new(MeasureStartEnd::MeasureStart)
    }
}

/// A note or a rest.
#[derive(Clone, Copy, PartialEq, Eq, Debug, Hash, Structural)]
pub struct NoteData {
    pub note_rest: NumericPitchRest,
    pub phrase_dynamics: PhraseDynamics,
    pub note_type: RhythmType,
    pub dotted: bool,
    pub arpeggiate: Arpeggiate,
    pub special_note: SpecialNote,
    pub articulation: Articulation,
    pub trill: Trill,
    pub ties: NoteConnection,
    pub chord: Chord,
    pub slur: SlurConnection,
    pub voice: Voice,
}

impl NoteData {
    /// A rest with nothing attached to it.
    pub open spec fn default_rest(note_type: RhythmType, dotted: IsDotted, voice: Voice) -> NoteData {
        NoteData {
            note_rest: NumericPitchRest::Rest,
            phrase_dynamics: PhraseDynamics::NoDynamics,
            note_type,
            dotted,
            arpeggiate: Arpeggiate::NoArpeggiation,
            special_note: SpecialNote::NoSpecial,
            articulation: Articulation::NoArticulation,
            trill: Trill::NoTrill,
            ties: NoteConnection::NoTie,
            chord: Chord::NoChord,
            slur: SlurConnection::NoSlur,
            voice,
        }
    }

    /// A rest of the given type and voice with nothing attached to it.
    pub fn new_default_rest(note_type: RhythmType, dotted: IsDotted, voice: Voice) -> (n: NoteData)
        ensures
            n == Self::default_rest(note_type, dotted, voice),
    {
        NoteData {
            note_rest: NumericPitchRest::Rest,
            phrase_dynamics: PhraseDynamics::NoDynamics,
            note_type,
            dotted,
            arpeggiate: Arpeggiate::NoArpeggiation,
            special_note: SpecialNote::NoSpecial,
            articulation: Articulation::NoArticulation,
            trill: Trill::NoTrill,
            ties: NoteConnection::NoTie,
            chord: Chord::NoChord,
            slur: SlurConnection::NoSlur,
            voice,
        }
    }
}

impl Default for NoteData {
    fn default() -> (n: NoteData)
        ensures
            n == NoteData::default_rest(RhythmType::Crochet, false, Voice::One),
    {
        NoteData::new_default_rest(RhythmType::Crochet, false, Voice::One)
    }
}

/// One record of a part.
#[derive(Clone, Copy, PartialEq, Eq, Debug, Hash, Structural)]
pub enum MusicElement {
    MeasureInit(MeasureInitializer),
    MeasureMeta(MeasureMetaData),
    NoteRest(NoteData),
    Tuplet(TupletData),
}

} // verus!
