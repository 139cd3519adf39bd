use super::elements::{IsDotted, NoteData, TimeModification};
use super::notation::{RhythmType, SpecialNote};
use super::pitch::NumericPitchRest;
use crate::arith::{divides, reduced_denominator, reduced_denominator_of};
use crate::text::{decimal, decimal_string};
use vstd::prelude::*;

verus! {

/// Another name for [`RhythmType`].
pub type NoteType = RhythmType;

/// The numerator of the factor that a dot and a tuplet put on a duration: 3
/// for a dot, times the number of notes whose time the tuplet takes.
pub open spec fn scale_numerator(dotted: bool, time_mod: Option<TimeModification>) -> nat {
    (if dotted {
        3nat
    } else {
        1nat
    }) * (match time_mod {
        Some(t) => t.normal_notes.count(),
        None => 1nat,
    })
}

/// The denominator of the factor that a dot and a tuplet put on a duration:
/// 2 for a dot, times the number of notes that the tuplet plays.
pub open spec fn scale_denominator(dotted: bool, time_mod: Option<TimeModification>) -> nat {
    (if dotted {
        2nat
    } else {
        1nat
    }) * (match time_mod {
        Some(t) => t.actual_notes.count(),
        None => 1nat,
    })
}

impl RhythmType {
    /// How many notes of the type fill a whole note.
    pub open spec fn per_whole(self) -> nat {
        match self {
            RhythmType::SemiBreve => 1,
            RhythmType::Minim => 2,
            RhythmType::Crochet => 4,
            RhythmType::Quaver => 8,
            RhythmType::SemiQuaver => 16,
            RhythmType::DemiSemiQuaver => 32,
            RhythmType::HemiDemiSemiQuaver => 64,
            RhythmType::SemiHemiDemiSemiQuaver => 128,
        }
    }

    /// The MIDI ticks of a note of the type, at 960 ticks to the quarter.
    pub open spec fn midi_ticks(self) -> nat {
        match self {
            RhythmType::SemiBreve => 3840,
            RhythmType::Minim => 1920,
            RhythmType::Crochet => 960,
            RhythmType::Quaver => 480,
            RhythmType::SemiQuaver => 240,
            RhythmType::DemiSemiQuaver => 120,
            RhythmType::HemiDemiSemiQuaver => 60,
            RhythmType::SemiHemiDemiSemiQuaver => 30,
        }
    }

    /// The ticks of an undotted note of the type outside a tuplet, at
    /// `divisions` ticks to the quarter: halves are rounded down.
    pub open spec fn base_ticks(self, divisions: nat) -> nat {
        match self {
            RhythmType::SemiBreve => divisions * 4,
            RhythmType::Minim => divisions * 2,
            RhythmType::Crochet => divisions,
            RhythmType::Quaver => divisions / 2,
            RhythmType::SemiQuaver => divisions / 4,
            RhythmType::DemiSemiQuaver => divisions / 8,
            RhythmType::HemiDemiSemiQuaver => divisions / 16,
            RhythmType::SemiHemiDemiSemiQuaver => divisions / 32,
        }
    }
}

impl NoteData {
    /// How many whole notes fill a whole note.
    pub const SEMIBREVE_DENOMINATOR: u32 = 1;

    /// How many half notes fill a whole note.
    pub const MINIM_DENOMINATOR: u32 = 2;

    /// How many quarter notes fill a whole note.
    pub const CROCHET_DENOMINATOR: u32 = 4;

    /// How many eighth notes fill a whole note.
    pub const QUAVER_DENOMINATOR: u32 = 8;

    /// How many 16th notes fill a whole note.
    pub const SEMI_QUAVER_DENOMINATOR: u32 = 16;

    /// How many 32nd notes fill a whole note.
    pub const DEMI_SEMI_QUAVER_DENOMINATOR: u32 = 32;

    /// How many 64th notes fill a whole note.
    pub const HEMI_DEMI_SEMI_QUAVER_DENOMINATOR: u32 = 64;

    /// How many 128th notes fill a whole note.
    pub const SEMI_HEMI_DEMI_SEMI_QUAVER_DENOMINATOR: u32 = 128;

    /// A dot multiplies a duration by 3 and divides it by this.
    pub const IS_DOTTED_DENOMINATOR: u32 = 2;

    /// A dot multiplies a duration by this and divides it by 2.
    pub const IS_DOTTED_NUMERATOR: u32 = 3;

    /// MIDI ticks to the quarter note.
    pub const MIDI_TICKS_CROCHET: u32 = 960;

    /// The duration in ticks, at `divisions` ticks to the quarter note.
    ///
    /// A grace note or fermata takes no time. Else the note type gives a
    /// number of quarters, a dot multiplies by 3/2 and a tuplet by the notes
    /// whose time it takes over the notes it plays; every division rounds
    /// down. A whole rest fills a measure of `beats` notes of type
    /// `beat_type`, a whole note always four quarters.
    pub open spec fn duration_ticks(
        self,
        divisions: nat,
        beats: nat,
        beat_type: nat,
        time_mod: Option<TimeModification>,
    ) -> nat {
        let numerator = scale_numerator(self.dotted, time_mod);
        let denominator = scale_denominator(self.dotted, time_mod);
        if self.special_note != SpecialNote::NoSpecial {
            0
        } else {
            match self.note_type {
                RhythmType::SemiHemiDemiSemiQuaver => divisions * numerator / 32 / denominator,
                RhythmType::HemiDemiSemiQuaver => divisions * numerator / 16 / denominator,
                RhythmType::DemiSemiQuaver => divisions * numerator / 8 / denominator,
                RhythmType::SemiQuaver => divisions * numerator / 4 / denominator,
                RhythmType::Quaver => divisions * numerator / 2 / denominator,
                RhythmType::Crochet => divisions * numerator / denominator,
                RhythmType::Minim => divisions * 2 * numerator / denominator,
                RhythmType::SemiBreve => if self.note_rest == NumericPitchRest::Rest {
                    divisions * numerator * beats * 4 / beat_type / denominator
                } else {
                    divisions * 4 * numerator / denominator
                },
            }
        }
    }

    /// Whether the duration follows the meter: the note is a whole rest, and
    /// no grace note or fermata.
    pub open spec fn follows_meter(self) -> bool {
        &&& self.special_note == SpecialNote::NoSpecial
        &&& self.note_type == RhythmType::SemiBreve
        &&& self.note_rest == NumericPitchRest::Rest
    }

    /// The duration in MIDI ticks, at 960 ticks to the quarter note.
    pub open spec fn midi_duration(self, time_mod: Option<TimeModification>) -> nat {
        if self.special_note != SpecialNote::NoSpecial {
            0
        } else {
            self.note_type.midi_ticks() * scale_numerator(self.dotted, time_mod) / scale_denominator(
                self.dotted,
                time_mod,
            )
        }
    }

    /// The length of the note as a fraction of a quarter note, as written:
    /// four quarters to the whole note over the notes of the type that fill
    /// a whole note, times the factor of dot and tuplet. Numerator first.
    pub open spec fn quarter_fraction(self, time_mod: Option<TimeModification>) -> (nat, nat) {
        (
            4 * scale_numerator(self.dotted, time_mod),
            self.note_type.per_whole() * scale_denominator(self.dotted, time_mod),
        )
    }

    /// The denominator, in lowest terms, of the note's length as a fraction
    /// of a quarter note: the least number of ticks to the quarter note at
    /// which the note is a whole number of ticks. None for a grace note or
    /// fermata.
    pub open spec fn note_multiple(self, time_mod: Option<TimeModification>) -> Option<nat> {
        if self.special_note != SpecialNote::NoSpecial {
            None
        } else {
            Some(
                reduced_denominator_of(
                    self.quarter_fraction(time_mod).0,
                    self.quarter_fraction(time_mod).1,
                ),
            )
        }
    }

    fn scale(dotted: bool, time_mods: Option<TimeModification>) -> (r: (u32, u32))
        ensures
            r.0 == scale_numerator(dotted, time_mods),
            r.1 == scale_denominator(dotted, time_mods),
            1 <= r.0 <= 48,
            1 <= r.1 <= 50,
    {
        let mut numerator: u32 = 1;
        let mut denominator: u32 = 1;
        if dotted {
            numerator = Self::IS_DOTTED_NUMERATOR;
            denominator = Self::IS_DOTTED_DENOMINATOR;
        }
        if let Some(val) = time_mods {
            numerator = numerator * val.normal_notes.as_u32();
            denominator = denominator * val.actual_notes.as_u32();
        }
        (numerator, denominator)
    }

    /// The denominator, in lowest terms, of the note's length as a fraction
    /// of a quarter note, for finding the resolution at which every note is
    /// a whole number of ticks.
    pub fn get_note_multiple(&self, time_mods: Option<TimeModification>) -> (r: Option<u32>)
        ensures
            r matches Some(d) ==> self.note_multiple(time_mods) == Some(d as nat) && d > 0,
            r is None <==> self.special_note != SpecialNote::NoSpecial,
    {
        if self.special_note != SpecialNote::NoSpecial {
            return None;
        }
        let per_whole: u32 = match self.note_type {
            RhythmType::SemiBreve => Self::SEMIBREVE_DENOMINATOR,
            RhythmType::Minim => Self::MINIM_DENOMINATOR,
            RhythmType::Crochet => Self::CROCHET_DENOMINATOR,
            RhythmType::Quaver => Self::QUAVER_DENOMINATOR,
            RhythmType::SemiQuaver => Self::SEMI_QUAVER_DENOMINATOR,
            RhythmType::DemiSemiQuaver => Self::DEMI_SEMI_QUAVER_DENOMINATOR,
            RhythmType::HemiDemiSemiQuaver => Self::HEMI_DEMI_SEMI_QUAVER_DENOMINATOR,
            RhythmType::SemiHemiDemiSemiQuaver => Self::SEMI_HEMI_DEMI_SEMI_QUAVER_DENOMINATOR,
        };
        let (numer, scale_denom) = Self::scale(self.dotted, time_mods);
        assert(per_whole * scale_denom <= 128 * 50 && per_whole * scale_denom >= 1)
            by (nonlinear_arith)
            requires
                1 <= per_whole <= 128,
                1 <= scale_denom <= 50,
        ;
        let denom: u32 = per_whole * scale_denom;
        let numer: u32 = 4 * numer;
        let r = reduced_denominator(numer, denom);
        proof {
            crate::arith::lemma_reduced_denominator_unique(
                numer as nat,
                denom as nat,
                r->Some_0 as nat,
            );
        }
        r
    }

    /// The duration in MIDI ticks, at 960 ticks to the quarter note.
    pub fn get_duration_in_midi_ticks(&self, time_mods: Option<TimeModification>) -> (ticks: u32)
        ensures
            ticks == self.midi_duration(time_mods),
    {
        if self.special_note != SpecialNote::NoSpecial {
            return 0;
        }
        let (numerator, denominator) = Self::scale(self.dotted, time_mods);
        let whole: u32 = match self.note_type {
            RhythmType::SemiBreve => Self::MIDI_TICKS_CROCHET * 4,
            RhythmType::Minim => Self::MIDI_TICKS_CROCHET * 2,
            RhythmType::Crochet => Self::MIDI_TICKS_CROCHET,
            RhythmType::Quaver => Self::MIDI_TICKS_CROCHET / 2,
            RhythmType::SemiQuaver => Self::MIDI_TICKS_CROCHET / 4,
            RhythmType::DemiSemiQuaver => Self::MIDI_TICKS_CROCHET / 8,
            RhythmType::HemiDemiSemiQuaver => Self::MIDI_TICKS_CROCHET / 16,
            RhythmType::SemiHemiDemiSemiQuaver => Self::MIDI_TICKS_CROCHET / 32,
        };
        assert(whole * numerator <= 3840 * 48) by (nonlinear_arith)
            requires
                whole <= 3840,
                numerator <= 48,
        ;
        whole * numerator / denominator
    }

    /// The duration in ticks as a wide number, for every resolution and
    /// every meter.
    pub fn duration_wide(
        &self,
        divisions: u32,
        beats: u32,
        beat_type: u32,
        time_mods: Option<TimeModification>,
    ) -> (ticks: u128)
        requires
            self.follows_meter() ==> beat_type > 0,
        ensures
            ticks == self.duration_ticks(divisions as nat, beats as nat, beat_type as nat, time_mods),
    {
        if self.special_note != SpecialNote::NoSpecial {
            return 0;
        }
        let (numerator, denominator) = Self::scale(self.dotted, time_mods);
        assert(divisions * numerator <= 0xffff_ffff * 48) by (nonlinear_arith)
            requires
                divisions <= 0xffff_ffff,
                numerator <= 48,
        ;
        let scaled: u128 = divisions as u128 * numerator as u128;
        assert(divisions as nat * 2 * numerator as nat == (divisions as nat * numerator as nat) * 2
            && divisions as nat * 4 * numerator as nat == (divisions as nat * numerator as nat)
            * 4) by (nonlinear_arith);
        match self.note_type {
            RhythmType::SemiHemiDemiSemiQuaver => scaled / 32 / denominator as u128,
            RhythmType::HemiDemiSemiQuaver => scaled / 16 / denominator as u128,
            RhythmType::DemiSemiQuaver => scaled / 8 / denominator as u128,
            RhythmType::SemiQuaver => scaled / 4 / denominator as u128,
            RhythmType::Quaver => scaled / 2 / denominator as u128,
            RhythmType::Crochet => scaled / denominator as u128,
            RhythmType::Minim => scaled * 2 / denominator as u128,
            RhythmType::SemiBreve => {
                if self.note_rest == NumericPitchRest::Rest {
                    assert(scaled * beats <= 0xffff_ffff * 48 * 0xffff_ffff) by (nonlinear_arith)
                        requires
                            scaled <= 0xffff_ffff * 48,
                            beats <= 0xffff_ffff,
                    ;
                    scaled * beats as u128 * 4 / beat_type as u128 / denominator as u128
                } else {
                    scaled * 4 / denominator as u128
                }
            },
        }
    }

    /// The duration in ticks, where it fits in 32 bits; none for a whole rest
    /// in a meter whose beat type is 0.
    pub fn checked_duration_numeric(
        &self,
        divisions: u32,
        beats: u32,
        beat_type: u32,
        time_mods: Option<TimeModification>,
    ) -> (r: Option<u32>)
        ensures
            r == if (self.follows_meter() ==> beat_type > 0) && self.duration_ticks(
                divisions as nat,
                beats as nat,
                beat_type as nat,
                time_mods,
            ) <= u32::MAX {
                Some(
                    self.duration_ticks(
                        divisions as nat,
                        beats as nat,
                        beat_type as nat,
                        time_mods,
                    ) as u32,
                )
            } else {
                None
            },
    {
        if beat_type == 0 && self.special_note == SpecialNote::NoSpecial && self.note_type
            == RhythmType::SemiBreve && self.note_rest == NumericPitchRest::Rest {
            return None;
        }
        let ticks = self.duration_wide(divisions, beats, beat_type, time_mods);
        if ticks > u32::MAX as u128 {
            None
        } else {
            Some(ticks as u32)
        }
    }

    /// The duration in ticks, at `divisions` ticks to the quarter note, in a
    /// measure of `beats` notes of type `beat_type`.
    pub fn get_duration_numeric(
        &self,
        divisions: u32,
        beats: u32,
        beat_type: u32,
        time_mods: Option<TimeModification>,
    ) -> (ticks: u32)
        requires
            self.follows_meter() ==> beat_type > 0,
            self.duration_ticks(divisions as nat, beats as nat, beat_type as nat, time_mods)
                <= u32::MAX,
        ensures
            ticks == self.duration_ticks(divisions as nat, beats as nat, beat_type as nat, time_mods),
    {
        self.duration_wide(divisions, beats, beat_type, time_mods) as u32
    }
}

impl NoteData {
    /// The duration in ticks, in decimal digits.
    pub fn get_duration_string(
        &self,
        divisions: u32,
        beats: u32,
        beat_type: u32,
        time_mod: Option<TimeModification>,
    ) -> (s: String)
        requires
            self.follows_meter() ==> beat_type > 0,
            self.duration_ticks(divisions as nat, beats as nat, beat_type as nat, time_mod)
                <= u32::MAX,
        ensures
            s@ == decimal(
                self.duration_ticks(divisions as nat, beats as nat, beat_type as nat, time_mod),
            ),
    {
        decimal_string(self.get_duration_numeric(divisions, beats, beat_type, time_mod))
    }
}

} // verus!
