use music2bin::ir::divisions::{calc_divisions_voices, checked_divisions_voices, DivisionsVec};
use music2bin::ir::elements::{MusicElement, NoteData, TimeModification, TupletData};
use music2bin::ir::notation::{
    Chord, RhythmType, SpecialNote, TupletActual, TupletNormal, TupletNumber, TupletStartStop,
    Voice,
};
use music2bin::ir::pitch::NumericPitchRest;
use music2bin::text::{compare_text, decimal_string, same_text, TextOrder};

fn note(note_type: RhythmType, dotted: bool) -> NoteData {
    NoteData {
        note_rest: NumericPitchRest::Pitch(49),
        ..NoteData::new_default_rest(note_type, dotted, Voice::One)
    }
}

fn all_types() -> Vec<RhythmType> {
    vec![
        RhythmType::SemiHemiDemiSemiQuaver,
        RhythmType::HemiDemiSemiQuaver,
        RhythmType::DemiSemiQuaver,
        RhythmType::SemiQuaver,
        RhythmType::Quaver,
        RhythmType::Crochet,
        RhythmType::Minim,
        RhythmType::SemiBreve,
    ]
}

#[test]
fn test_from_numeric_duration() {
    let result = NoteData::from_numeric_duration(36, 24);
    assert_eq!(result, Some((RhythmType::Crochet, true, None)));

    let result = NoteData::from_numeric_duration(1440, 480);
    assert_eq!(result, Some((RhythmType::Minim, true, None)));

    let result = NoteData::from_numeric_duration(1920, 480);
    assert_eq!(result, Some((RhythmType::SemiBreve, false, None)));

    let result = NoteData::from_numeric_duration(720, 480);
    assert_eq!(result, Some((RhythmType::Crochet, true, None)));

    let result = NoteData::from_numeric_duration(96, 336);
    assert_eq!(
        result,
        Some((
            RhythmType::Quaver,
            false,
            Some(TimeModification {
                actual_notes: TupletActual::Seven,
                normal_notes: TupletNormal::Four
            })
        ))
    );

    let result = NoteData::from_numeric_duration(112, 336);
    assert_eq!(
        result,
        Some((
            RhythmType::Quaver,
            false,
            Some(TimeModification {
                actual_notes: TupletActual::Three,
                normal_notes: TupletNormal::Two
            })
        ))
    );
}

#[test]
fn durations_without_a_note_type_are_refused() {
    assert_eq!(NoteData::from_numeric_duration(7, 480), None);
    assert_eq!(NoteData::from_numeric_duration(0, 480), None);
    assert_eq!(NoteData::from_numeric_duration(4000000000, 1), None);
}

#[test]
fn the_first_tuplet_that_fits_is_taken() {
    assert_eq!(
        NoteData::from_numeric_duration(5, 480),
        Some((
            RhythmType::SemiHemiDemiSemiQuaver,
            false,
            Some(TimeModification::new(TupletActual::Six, TupletNormal::Two))
        ))
    );
    assert_eq!(
        NoteData::from_numeric_duration(160, 480),
        Some((
            RhythmType::Quaver,
            false,
            Some(TimeModification::new(TupletActual::Three, TupletNormal::Two))
        ))
    );
}

#[test]
fn durations_in_ticks_have_their_exact_values() {
    assert_eq!(note(RhythmType::Crochet, false).get_duration_numeric(480, 4, 4, None), 480);
    assert_eq!(note(RhythmType::Quaver, true).get_duration_numeric(480, 4, 4, None), 360);
    assert_eq!(note(RhythmType::SemiBreve, false).get_duration_numeric(480, 3, 4, None), 1920);
    assert_eq!(note(RhythmType::SemiBreve, true).get_duration_numeric(480, 3, 4, None), 2880);
    assert_eq!(note(RhythmType::SemiHemiDemiSemiQuaver, false).get_duration_numeric(480, 4, 4, None), 15);
    assert_eq!(note(RhythmType::SemiHemiDemiSemiQuaver, true).get_duration_numeric(480, 4, 4, None), 22);
    let triplet = Some(TimeModification::new(TupletActual::Three, TupletNormal::Two));
    assert_eq!(note(RhythmType::Quaver, false).get_duration_numeric(480, 4, 4, triplet), 160);
    assert_eq!(note(RhythmType::Minim, false).get_duration_numeric(480, 4, 4, triplet), 640);
    let grace = NoteData {
        special_note: SpecialNote::Acciatura,
        ..note(RhythmType::Quaver, false)
    };
    assert_eq!(grace.get_duration_numeric(480, 4, 4, None), 0);
    assert_eq!(note(RhythmType::Quaver, true).get_duration_string(480, 4, 4, None), "360");
}

#[test]
fn a_whole_rest_fills_the_measure() {
    let rest = NoteData::new_default_rest(RhythmType::SemiBreve, false, Voice::One);
    assert_eq!(rest.get_duration_numeric(480, 4, 4, None), 1920);
    assert_eq!(rest.get_duration_numeric(480, 3, 4, None), 1440);
    assert_eq!(rest.get_duration_numeric(480, 6, 8, None), 1440);
    assert_eq!(rest.get_duration_numeric(480, 2, 2, None), 1920);
    assert_eq!(rest.get_duration_numeric(480, 12, 8, None), 2880);
    let half_rest = NoteData::new_default_rest(RhythmType::Minim, false, Voice::One);
    assert_eq!(half_rest.get_duration_numeric(480, 3, 4, None), 960);
}

#[test]
fn durations_that_do_not_fit_are_not_given() {
    let whole = note(RhythmType::SemiBreve, false);
    assert_eq!(whole.checked_duration_numeric(4000000000, 4, 4, None), None);
    assert_eq!(whole.checked_duration_numeric(480, 4, 0, None), Some(1920));
    let whole_rest = NoteData::new_default_rest(RhythmType::SemiBreve, false, Voice::One);
    assert_eq!(whole_rest.checked_duration_numeric(480, 4, 0, None), None);
    assert_eq!(whole_rest.checked_duration_numeric(480, 3, 4, None), Some(1440));
    assert_eq!(whole.checked_duration_numeric(480, 4, 4, None), Some(1920));
    assert_eq!(whole.duration_wide(4000000000, 4, 4, None), 16000000000);
}

#[test]
fn midi_ticks_have_their_exact_values() {
    assert_eq!(note(RhythmType::Crochet, false).get_duration_in_midi_ticks(None), 960);
    assert_eq!(note(RhythmType::SemiBreve, true).get_duration_in_midi_ticks(None), 5760);
    assert_eq!(note(RhythmType::SemiHemiDemiSemiQuaver, false).get_duration_in_midi_ticks(None), 30);
    let quintuplet = Some(TimeModification::new(TupletActual::Five, TupletNormal::Four));
    assert_eq!(note(RhythmType::Quaver, false).get_duration_in_midi_ticks(quintuplet), 384);
    let grace = NoteData {
        special_note: SpecialNote::Appogiatura,
        ..note(RhythmType::Quaver, false)
    };
    assert_eq!(grace.get_duration_in_midi_ticks(None), 0);
}

#[test]
fn the_search_gives_back_every_plain_note() {
    for quarter in [32u32, 96, 480, 960] {
        for note_type in all_types() {
            for dotted in [false, true] {
                let n = note(note_type, dotted);
                let ticks = n.get_duration_numeric(quarter, 4, 4, None);
                assert_eq!(
                    NoteData::from_numeric_duration(ticks, quarter),
                    Some((note_type, dotted || ticks == 1, None)),
                    "{:?} dotted {} at {}",
                    note_type,
                    dotted,
                    quarter
                );
            }
        }
    }
}

#[test]
fn what_the_search_finds_lasts_as_long_as_asked() {
    for ticks in 1u32..=2000 {
        if let Some((note_type, dotted, time_mod)) = NoteData::from_numeric_duration(ticks, 480) {
            assert_eq!(
                note(note_type, dotted).get_duration_numeric(480, 4, 4, time_mod),
                ticks
            );
        }
    }
}

#[test]
fn a_note_of_one_tick_comes_back_dotted() {
    assert_eq!(
        NoteData::from_numeric_duration(1, 1),
        Some((RhythmType::Crochet, true, None))
    );
    assert_eq!(
        NoteData::from_numeric_duration(1, 2),
        Some((RhythmType::Quaver, true, None))
    );
}

#[test]
fn note_multiples_are_reduced_denominators() {
    assert_eq!(note(RhythmType::Crochet, false).get_note_multiple(None), Some(1));
    assert_eq!(note(RhythmType::Crochet, true).get_note_multiple(None), Some(2));
    assert_eq!(note(RhythmType::SemiBreve, false).get_note_multiple(None), Some(1));
    assert_eq!(note(RhythmType::SemiBreve, true).get_note_multiple(None), Some(1));
    assert_eq!(note(RhythmType::Quaver, false).get_note_multiple(None), Some(2));
    assert_eq!(note(RhythmType::Quaver, true).get_note_multiple(None), Some(4));
    assert_eq!(
        note(RhythmType::SemiHemiDemiSemiQuaver, false).get_note_multiple(None),
        Some(32)
    );
    let triplet = Some(TimeModification::new(TupletActual::Three, TupletNormal::Two));
    assert_eq!(note(RhythmType::Quaver, false).get_note_multiple(triplet), Some(3));
    assert_eq!(note(RhythmType::Crochet, false).get_note_multiple(triplet), Some(3));
    let sextuplet = Some(TimeModification::new(TupletActual::Six, TupletNormal::Four));
    assert_eq!(note(RhythmType::SemiQuaver, false).get_note_multiple(sextuplet), Some(6));
    assert_eq!(note(RhythmType::SemiQuaver, true).get_note_multiple(sextuplet), Some(4));
    let grace = NoteData {
        special_note: SpecialNote::Fermata,
        ..note(RhythmType::Quaver, false)
    };
    assert_eq!(grace.get_note_multiple(None), None);
}

#[test]
fn divisions_vec_keeps_each_number_once() {
    let mut v = DivisionsVec::new();
    v.add(4);
    v.add(0);
    v.add(6);
    v.add(4);
    assert_eq!(v.inner(), &vec![4, 6]);
    assert!(v.contains(6));
    assert!(!v.contains(0));
    assert_eq!(v.find_lcm(), 12);
    assert_eq!(v.checked_find_lcm(), Some(12));
    v.add(9);
    assert_eq!(v.find_lcm(), 36);
    assert_eq!(DivisionsVec::new().find_lcm(), 1);
}

#[test]
fn a_least_common_multiple_that_does_not_fit_is_not_given() {
    let mut v = DivisionsVec::new();
    v.add(65536);
    v.add(65537);
    assert_eq!(v.checked_find_lcm(), None);
    let mut w = DivisionsVec::new();
    w.add(65536);
    w.add(65535);
    assert_eq!(w.checked_find_lcm(), Some(4294901760));
}

#[test]
fn divisions_make_every_note_a_whole_number_of_ticks() {
    let triplet = TupletData {
        start_stop: TupletStartStop::TupletStart,
        tuplet_number: TupletNumber::One,
        actual_notes: TupletActual::Three,
        normal_notes: TupletNormal::Two,
        dotted: false,
    };
    let stop = TupletData {
        start_stop: TupletStartStop::TupletStop,
        ..triplet
    };
    let second_voice = NoteData {
        voice: Voice::Two,
        ..note(RhythmType::SemiQuaver, true)
    };
    let chord_note = NoteData {
        chord: Chord::Chord,
        ..note(RhythmType::SemiHemiDemiSemiQuaver, false)
    };
    let elems = vec![
        MusicElement::NoteRest(note(RhythmType::Crochet, false)),
        MusicElement::Tuplet(triplet),
        MusicElement::NoteRest(note(RhythmType::Quaver, false)),
        MusicElement::Tuplet(stop),
        MusicElement::NoteRest(second_voice),
        MusicElement::NoteRest(chord_note),
    ];
    assert_eq!(checked_divisions_voices(&elems), Some((24, 2)));
    for (element, ticks) in elems.iter().zip([24u32, 0, 8, 0, 9, 0]) {
        if let MusicElement::NoteRest(n) = element {
            if n.chord == Chord::NoChord {
                let time_mod = if ticks == 8 {
                    triplet.to_time_modification()
                } else {
                    None
                };
                assert_eq!(n.get_duration_numeric(24, 4, 4, time_mod), ticks);
            }
        }
    }
    assert_eq!(calc_divisions_voices(elems), (24, 2));
    assert_eq!(calc_divisions_voices(vec![]), (1, 0));
    let quarters = vec![
        MusicElement::NoteRest(NoteData::default()),
        MusicElement::NoteRest(note(RhythmType::Minim, false)),
    ];
    assert_eq!(calc_divisions_voices(quarters), (1, 1));
}

#[test]
fn texts_compare_as_in_a_dictionary() {
    assert_eq!(compare_text("P1", "P2"), TextOrder::Before);
    assert_eq!(compare_text("P2", "P1"), TextOrder::After);
    assert_eq!(compare_text("P1", "P1"), TextOrder::Same);
    assert_eq!(compare_text("P1", "P10"), TextOrder::Before);
    assert_eq!(compare_text("", "a"), TextOrder::Before);
    assert_eq!(compare_text("b", "abc"), TextOrder::After);
    assert!(same_text("part", "part"));
    assert!(!same_text("part", "parts"));
}

#[test]
fn numbers_are_written_in_decimal() {
    assert_eq!(decimal_string(0), "0");
    assert_eq!(decimal_string(7), "7");
    assert_eq!(decimal_string(10), "10");
    assert_eq!(decimal_string(1920), "1920");
    assert_eq!(decimal_string(4294967295), "4294967295");
}
