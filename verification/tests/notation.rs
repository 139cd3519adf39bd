use music2bin::error::Error;
use music2bin::ir::elements::{
    convert_time_modification, MeasureMetaData, NoteData, TimeModification, TupletData,
};
use music2bin::ir::notation::{
    Articulation, BeatType, Beats, DalSegno, DescriptiveTempo, Ending, KeySignature,
    MeasureStartEnd, PhraseDynamics, RhythmType, Staff, TupletActual, TupletNormal,
    TupletNumber, TupletStartStop, Voice,
};
use music2bin::ir::pitch::{Alter, Note, NumericPitchRest, Octave};
use music2bin::ir::tempo::Tempo;
use music2bin::ir::texts::{get_staff, DynamicsValue};

#[test]
fn test_tempo_into() {
    let value: Tempo = 30.into();
    assert_eq!(value.get_raw(), 5);
}

#[test]
fn test_encode_note() {
    let mut note = Note::NoteC;
    let mut alter = Alter::Natural;
    let mut octave = Octave::Octave0;

    assert_eq!(
        NumericPitchRest::derive_numeric_note(note, alter, octave),
        Ok(NumericPitchRest::Pitch(1))
    );

    alter = Alter::Sharp;
    assert_eq!(
        NumericPitchRest::derive_numeric_note(note, alter, octave),
        Ok(NumericPitchRest::Pitch(2))
    );

    alter = Alter::Natural;
    octave = Octave::Octave8;
    assert_eq!(
        NumericPitchRest::derive_numeric_note(note, alter, octave),
        Ok(NumericPitchRest::Pitch(97))
    );

    alter = Alter::Flat;
    assert_eq!(
        NumericPitchRest::derive_numeric_note(note, alter, octave),
        Ok(NumericPitchRest::Pitch(96))
    );

    note = Note::NoteD;
    alter = Alter::Natural;
    octave = Octave::Octave8;
    assert_eq!(
        NumericPitchRest::derive_numeric_note(note, alter, octave),
        Err(Error::OutofBounds)
    );
    note = Note::NoteC;
    alter = Alter::Sharp;
    octave = Octave::Octave8;
    assert_eq!(
        NumericPitchRest::derive_numeric_note(note, alter, octave),
        Err(Error::OutofBounds)
    );
    note = Note::NoteC;
    alter = Alter::Flat;
    octave = Octave::Octave0;
    assert_eq!(
        NumericPitchRest::derive_numeric_note(note, alter, octave),
        Err(Error::OutofBounds)
    );
}

#[test]
fn tempo_round_trips_every_raw_value() {
    for raw in 0u8..=127 {
        let tempo = Tempo::new_from_raw(raw);
        assert_eq!(tempo.get_actual(), raw as i32 * 2 + 20);
        assert_eq!(Tempo::new(tempo.get_actual()).get_raw(), raw);
    }
}

#[test]
fn tempo_actual_never_falls_as_raw_rises() {
    let mut last = Tempo::new_from_raw(0).get_actual();
    for raw in 1u8..=127 {
        let actual = Tempo::new_from_raw(raw).get_actual();
        assert!(last <= actual);
        last = actual;
    }
}

#[test]
fn tempo_is_brought_into_range() {
    assert_eq!(Tempo::new(10).get_raw(), 0);
    assert_eq!(Tempo::new(20).get_raw(), 0);
    assert_eq!(Tempo::new(21).get_raw(), 0);
    assert_eq!(Tempo::new(274).get_raw(), 127);
    assert_eq!(Tempo::new(1000).get_raw(), 127);
    assert_eq!(Tempo::new(-5).get_actual(), 20);
    assert_eq!(Tempo::new_from_raw(200).get_raw(), 127);
    assert_eq!(Tempo::default().get_actual(), 120);
    assert_eq!(Tempo::default().get_raw(), 50);
}

#[test]
fn tempo_reads_and_writes_decimal_text() {
    assert_eq!(Tempo::from_str("120"), Ok(Tempo::new(120)));
    assert_eq!(Tempo::from_str("120").unwrap().get_raw(), 50);
    assert_eq!(Tempo::from_str("-3").unwrap().get_raw(), 0);
    assert_eq!(Tempo::from_str("fast"), Err(Error::Parse));
    assert_eq!(Tempo::from_str(""), Err(Error::Parse));
    assert_eq!(Tempo::new(121).to_string(), "120");
    assert_eq!(Tempo::new(20).to_string(), "20");
    assert_eq!(Tempo::new(274).to_string(), "274");
}

#[test]
fn descriptive_tempo_follows_the_thresholds() {
    assert_eq!(DescriptiveTempo::from_real(24), DescriptiveTempo::Larghissimo);
    assert_eq!(DescriptiveTempo::from_real(25), DescriptiveTempo::Grave);
    assert_eq!(DescriptiveTempo::from_real(120), DescriptiveTempo::Allegretto);
    assert_eq!(DescriptiveTempo::from_real(121), DescriptiveTempo::Allegro);
    assert_eq!(DescriptiveTempo::from_real(201), DescriptiveTempo::Prestissimo);
    assert_eq!(Tempo::default().to_descriptive(), DescriptiveTempo::Allegretto);
    assert_eq!(DescriptiveTempo::from_str("100"), Ok(DescriptiveTempo::Allegretto));
    assert_eq!(
        DescriptiveTempo::from_str("4000000000"),
        Ok(DescriptiveTempo::Prestissimo)
    );
    assert_eq!(DescriptiveTempo::from_str("-1"), Err(Error::Parse));
    assert_eq!(DescriptiveTempo::Vivace.to_string(), "Vivace");
    assert_eq!(DescriptiveTempo::default(), DescriptiveTempo::Allegro);
}

#[test]
fn numbers_of_enumerations_round_trip() {
    for raw in 0u8..=255 {
        match KeySignature::from_numeric(raw) {
            Ok(v) => {
                assert!(raw < 12);
                assert_eq!(v.to_numeric(), raw);
            }
            Err(e) => {
                assert!(raw >= 12);
                assert_eq!(e, Error::UnknownTag);
            }
        }
        match Beats::from_numeric(raw) {
            Ok(v) => assert_eq!(v.to_numeric(), raw),
            Err(e) => {
                assert!(raw >= 7);
                assert_eq!(e, Error::UnknownTag);
            }
        }
        match TupletActual::from_numeric(raw) {
            Ok(v) => assert_eq!(v.to_numeric(), raw),
            Err(_) => assert!(raw >= 17),
        }
        match PhraseDynamics::from_numeric(raw) {
            Ok(v) => assert_eq!(v.to_numeric(), raw),
            Err(_) => assert!(raw == 12 || raw >= 16),
        }
    }
    assert_eq!(Beats::from_numeric(2), Ok(Beats::Four));
    assert_eq!(BeatType::from_numeric(1), Ok(BeatType::Four));
    assert_eq!(PhraseDynamics::from_numeric(13), Ok(PhraseDynamics::Forte));
    assert_eq!(PhraseDynamics::Forte.to_numeric(), 13);
    assert_eq!(PhraseDynamics::Fortississimo.to_numeric(), 15);
    assert_eq!(PhraseDynamics::MezzoForte.to_numeric(), 11);
    assert_eq!(PhraseDynamics::from_numeric(12), Err(Error::UnknownTag));
    assert_eq!(Articulation::from_numeric(2), Ok(Articulation::StrongAccent));
    assert_eq!(DalSegno::from_numeric(4), Ok(DalSegno::DaCapo));
    assert_eq!(RhythmType::from_numeric(7), Ok(RhythmType::SemiBreve));
    assert_eq!(Staff::from_numeric(1), Ok(Staff::TrebleClef));
    assert_eq!(Staff::from_numeric(0), Err(Error::UnknownTag));
    assert_eq!(Staff::BassClef.to_numeric(), 2);
    assert_eq!(Voice::from_numeric(4), Err(Error::UnknownTag));
}

#[test]
fn defaults_are_those_of_a_plain_measure() {
    assert_eq!(Beats::default(), Beats::Four);
    assert_eq!(BeatType::default(), BeatType::Four);
    assert_eq!(KeySignature::default(), KeySignature::CMajorAminor);
    assert_eq!(RhythmType::default(), RhythmType::Crochet);
    assert_eq!(Voice::default(), Voice::One);
    assert_eq!(NumericPitchRest::default(), NumericPitchRest::Rest);
    let meta = MeasureMetaData::new(MeasureStartEnd::RepeatEnd);
    assert_eq!(meta.start_end, MeasureStartEnd::RepeatEnd);
    assert_eq!(meta.ending, Ending::NoEnding);
    assert_eq!(meta.dal_segno, DalSegno::NoMarker);
    let rest = NoteData::new_default_rest(RhythmType::Minim, true, Voice::Three);
    assert_eq!(rest.note_rest, NumericPitchRest::Rest);
    assert_eq!(rest.note_type, RhythmType::Minim);
    assert!(rest.dotted);
    assert_eq!(rest.voice, Voice::Three);
    assert_eq!(rest.phrase_dynamics, PhraseDynamics::NoDynamics);
    assert_eq!(NoteData::default().note_type, RhythmType::Crochet);
}

#[test]
fn voices_follow_each_other_in_a_ring() {
    assert_eq!(Voice::One.next(), Voice::Two);
    assert_eq!(Voice::Two.next(), Voice::Three);
    assert_eq!(Voice::Three.next(), Voice::Four);
    assert_eq!(Voice::Four.next(), Voice::One);
}

#[test]
fn tuplet_counts_round_trip() {
    assert_eq!(TupletActual::Seven.as_u32(), 7);
    assert_eq!(TupletActual::TwentyFive.as_u32(), 25);
    assert_eq!(TupletActual::from_u32(21), Ok(TupletActual::TwentyOne));
    assert_eq!(TupletActual::from_u32(12), Err(Error::Unit));
    assert_eq!(TupletNormal::Twelve.as_u32(), 12);
    assert_eq!(TupletNormal::from_u32(9), Ok(TupletNormal::Nine));
    assert_eq!(TupletNormal::from_u32(5), Err(Error::Unit));
    assert_eq!(u32::from(Beats::Twelve), 12);
    assert_eq!(u32::from(BeatType::Sixteen), 16);
    assert_eq!(Beats::Nine.as_u32(), 9);
    assert_eq!(BeatType::Two.as_u32(), 2);
    let t = TimeModification::new(TupletActual::Three, TupletNormal::Two);
    assert_eq!(t.get_actual(), TupletActual::Three);
    assert_eq!(t.get_normal(), TupletNormal::Two);
}

#[test]
fn tuplet_markers_set_the_ratio_in_force() {
    let mut marker = TupletData {
        start_stop: TupletStartStop::TupletStart,
        tuplet_number: TupletNumber::One,
        actual_notes: TupletActual::Five,
        normal_notes: TupletNormal::Four,
        dotted: false,
    };
    assert_eq!(
        marker.to_time_modification(),
        Some(TimeModification::new(TupletActual::Five, TupletNormal::Four))
    );
    marker.start_stop = TupletStartStop::TupletStop;
    assert_eq!(marker.to_time_modification(), None);
    marker.start_stop = TupletStartStop::NoTuplet;
    assert_eq!(marker.to_time_modification(), None);
    assert_eq!(
        convert_time_modification("3", "2"),
        Ok(TimeModification::new(TupletActual::Three, TupletNormal::Two))
    );
    assert_eq!(convert_time_modification("12", "2"), Err(Error::Unit));
    assert_eq!(convert_time_modification("3", "5"), Err(Error::Unit));
}

#[test]
fn pitches_split_into_step_accidental_and_octave() {
    assert_eq!(
        NumericPitchRest::Pitch(1).decode_composite_note(),
        Some((Note::NoteC, Alter::Natural, Octave::Octave0))
    );
    assert_eq!(
        NumericPitchRest::Pitch(2).decode_composite_note(),
        Some((Note::NoteC, Alter::Sharp, Octave::Octave0))
    );
    assert_eq!(
        NumericPitchRest::Pitch(97).decode_composite_note(),
        Some((Note::NoteC, Alter::Natural, Octave::Octave8))
    );
    assert_eq!(
        NumericPitchRest::Pitch(58).decode_composite_note(),
        Some((Note::NoteA, Alter::Natural, Octave::Octave4))
    );
    assert_eq!(NumericPitchRest::Rest.decode_composite_note(), None);
    assert_eq!(NumericPitchRest::Pitch(0).decode_composite_note(), None);
    assert_eq!(NumericPitchRest::Pitch(109).decode_composite_note(), None);
    for v in 1u8..=97 {
        let (note, alter, octave) = NumericPitchRest::Pitch(v).decode_composite_note().unwrap();
        assert_eq!(
            NumericPitchRest::derive_numeric_note(note, alter, octave),
            Ok(NumericPitchRest::Pitch(v))
        );
    }
}

#[test]
fn pitch_numbers_read_and_write() {
    assert_eq!(NumericPitchRest::new_from_numeric(0), NumericPitchRest::Rest);
    assert_eq!(NumericPitchRest::new_from_numeric(65), NumericPitchRest::Pitch(65));
    assert_eq!(NumericPitchRest::from_numeric(97), Ok(NumericPitchRest::Pitch(97)));
    assert_eq!(NumericPitchRest::from_numeric(98), Err(Error::UnknownTag));
    assert_eq!(NumericPitchRest::Pitch(65).get_numeric_value(), 65);
    assert_eq!(NumericPitchRest::Rest.get_numeric_value(), 0);
    assert_eq!(NumericPitchRest::Pitch(1).get_midi_numeric_pitch_value(), Some(12));
    assert_eq!(NumericPitchRest::Pitch(97).get_midi_numeric_pitch_value(), Some(108));
    assert_eq!(NumericPitchRest::Pitch(250).get_midi_numeric_pitch_value(), None);
    assert_eq!(NumericPitchRest::Rest.get_midi_numeric_pitch_value(), None);
    assert_eq!(Note::NoteFsharp.get_note_alter_tuple(), (Note::NoteF, Alter::Sharp));
    assert_eq!(Note::NoteB.to_numeric(), 60);
    assert_eq!(Note::from_numeric(49), Ok(Note::NoteC));
    assert_eq!(Note::from_numeric(61), Err(Error::UnknownTag));
    assert_eq!(Octave::from_numeric(9), Err(Error::UnknownTag));
    assert_eq!(Alter::DoubleSharp.to_numeric(), 2);
    assert_eq!(Alter::Flat.to_numeric(), -1);
}

#[test]
fn texts_of_notation_values() {
    assert_eq!(KeySignature::from_str("-7"), Ok(KeySignature::BMajorGsminor));
    assert_eq!(KeySignature::from_str("2"), Ok(KeySignature::DMajorBminor));
    assert_eq!(KeySignature::from_str("8"), Err(Error::Unit));
    assert_eq!(KeySignature::FMajorDminor.to_string(), "-1");
    assert_eq!(KeySignature::GbMajorEbminor.to_string(), "6");
    assert_eq!(RhythmType::from_str("breve"), Ok(RhythmType::SemiBreve));
    assert_eq!(RhythmType::from_str("16th"), Ok(RhythmType::SemiQuaver));
    assert_eq!(RhythmType::from_str("long"), Err(Error::Parse));
    assert_eq!(RhythmType::Quaver.get_type_string(), "eighth");
    assert_eq!(RhythmType::SemiHemiDemiSemiQuaver.get_type_string(), "128th");
    assert_eq!(Articulation::from_str("spiccato"), Ok(Articulation::Staccatissimo));
    assert_eq!(Articulation::from_str("anything"), Ok(Articulation::NoArticulation));
    assert_eq!(Articulation::DetachedLegato.to_string(), "detached-legato");
    assert_eq!(Articulation::NoArticulation.to_string(), "");
    assert_eq!(PhraseDynamics::from_str("sfz"), Ok(PhraseDynamics::Sforzando));
    assert_eq!(PhraseDynamics::from_str("mf"), Ok(PhraseDynamics::MezzoForte));
    assert_eq!(PhraseDynamics::from_str("loud"), Err(Error::Parse));
    assert_eq!(Ending::from_str(""), Ok(Ending::NoEnding));
    assert_eq!(Ending::from_str("4"), Err(Error::Unit));
    assert_eq!(Ending::Two.to_string(), "2");
    assert_eq!(Beats::from_str("12"), Ok(Beats::Twelve));
    assert_eq!(Beats::from_str("7"), Err(Error::Parse));
    assert_eq!(Beats::Nine.to_string(), "9");
    assert_eq!(BeatType::from_str("16"), Ok(BeatType::Sixteen));
    assert_eq!(BeatType::Eight.to_string(), "8");
    assert_eq!(TupletActual::from_str("25"), Ok(TupletActual::TwentyFive));
    assert_eq!(TupletActual::from_str("12"), Err(Error::Unit));
    assert_eq!(TupletActual::Thirteen.to_string(), "13");
    assert_eq!(TupletNormal::from_str("6"), Ok(TupletNormal::Six));
    assert_eq!(TupletNormal::Sixteen.to_string(), "16");
    assert_eq!(TupletNumber::Three.to_string(), "3");
    assert_eq!(Note::from_str("G"), Ok(Note::NoteG));
    assert_eq!(Note::from_str("H"), Err(Error::Unit));
    assert_eq!(Note::NoteAsharp.to_string(), "A#");
    assert_eq!(Alter::from_str("-1"), Ok(Alter::Flat));
    assert_eq!(Alter::from_str("3"), Err(Error::Unit));
    assert_eq!(Alter::DoubleSharp.to_string(), "2");
    assert_eq!(Octave::from_str("8"), Ok(Octave::Octave8));
    assert_eq!(Octave::from_str("9"), Err(Error::Unit));
    assert_eq!(Error::OutofBounds.to_string(), "Data Out of Bounds");
}

#[test]
fn staves_and_dynamics_for_writing() {
    assert_eq!(get_staff(Voice::One, 2), "1");
    assert_eq!(get_staff(Voice::Two, 2), "2");
    assert_eq!(get_staff(Voice::Two, 3), "1");
    assert_eq!(get_staff(Voice::Three, 4), "2");
    assert_eq!(DynamicsValue::from_dynamics(PhraseDynamics::NoDynamics), None);
    assert_eq!(
        DynamicsValue::from_dynamics(PhraseDynamics::Forte),
        Some(DynamicsValue::F)
    );
    assert_eq!(
        DynamicsValue::from_dynamics(PhraseDynamics::Crescendo),
        Some(DynamicsValue::P)
    );
}
