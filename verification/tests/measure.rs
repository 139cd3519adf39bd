use music2bin::error::Error;
use music2bin::ir::elements::{
    MeasureInitializer, MeasureMetaData, MusicElement, NoteData, TupletData,
};
use music2bin::ir::measure_checker::MeasureChecker;
use music2bin::ir::musical_part::MusicalPart;
use music2bin::ir::notation::{
    BeatType, Beats, Chord, MeasureStartEnd, RhythmType, SpecialNote, TupletActual,
    TupletNormal, TupletNumber, TupletStartStop, Voice,
};
use music2bin::ir::part_map::PartMap;
use music2bin::ir::pitch::NumericPitchRest;
use music2bin::ir::voices::{has_voice, insert_voice, remove_voice, voice_count, voice_rank};
use std::collections::BTreeSet;

fn note(note_type: RhythmType, dotted: bool, voice: Voice) -> MusicElement {
    MusicElement::NoteRest(NoteData {
        note_rest: NumericPitchRest::Pitch(49),
        ..NoteData::new_default_rest(note_type, dotted, voice)
    })
}

fn rest(note_type: RhythmType, dotted: bool, voice: Voice) -> MusicElement {
    MusicElement::NoteRest(NoteData::new_default_rest(note_type, dotted, voice))
}

fn checker(quarter: u32, forward: usize) -> MeasureChecker {
    MeasureChecker::new(quarter, &MeasureInitializer::default(), "P1", 3, forward)
}

fn voices(numbers: &[u8]) -> BTreeSet<u8> {
    numbers.iter().copied().collect()
}

fn length(measure: &[MusicElement], voice: Voice, quarter: u32) -> u32 {
    let mut total = 0;
    let mut time_mod = None;
    for e in measure {
        match e {
            MusicElement::Tuplet(t) => time_mod = t.to_time_modification(),
            MusicElement::NoteRest(n) => {
                if n.voice == voice
                    && n.chord == Chord::NoChord
                    && n.special_note == SpecialNote::NoSpecial
                {
                    total += n.get_duration_numeric(quarter, 4, 4, time_mod);
                }
            }
            _ => {}
        }
    }
    total
}

#[test]
fn a_new_checker_is_empty() {
    let mut c = checker(480, 0);
    assert_eq!(c.quarter_division(), 480);
    assert_eq!(c.measure_idx(), 3);
    assert!(c.as_inner().is_empty());
    c.push_elem(note(RhythmType::Crochet, false, Voice::One));
    assert_eq!(c.as_inner().len(), 1);
}

#[test]
fn a_backup_that_reaches_too_short_gets_a_rest() {
    let mut c = checker(480, 0);
    c.push_elem(note(RhythmType::Crochet, false, Voice::One));
    c.push_elem(note(RhythmType::Quaver, false, Voice::One));
    assert_eq!(c.conform_backup_placeholder_rests(480), Ok(()));
    assert_eq!(
        c.as_inner().clone(),
        vec![
            note(RhythmType::Crochet, false, Voice::One),
            note(RhythmType::Quaver, false, Voice::One),
            rest(RhythmType::Quaver, false, Voice::Two),
        ]
    );
}

#[test]
fn a_backup_that_reaches_far_enough_changes_nothing() {
    let mut c = checker(480, 0);
    c.push_elem(note(RhythmType::Crochet, false, Voice::One));
    assert_eq!(c.conform_backup_placeholder_rests(480), Ok(()));
    assert_eq!(c.as_inner().len(), 1);
    c.push_elem(note(RhythmType::Crochet, false, Voice::Two));
    assert_eq!(c.conform_backup_placeholder_rests(1920), Ok(()));
    assert_eq!(c.as_inner().len(), 2);
}

#[test]
fn only_the_elements_since_the_last_backup_count() {
    let mut c = checker(480, 0);
    c.push_elem(note(RhythmType::Minim, false, Voice::One));
    assert_eq!(c.conform_backup_placeholder_rests(960), Ok(()));
    c.push_elem(note(RhythmType::Crochet, true, Voice::Two));
    assert_eq!(c.conform_backup_placeholder_rests(480), Ok(()));
    assert_eq!(
        c.as_inner().clone(),
        vec![
            note(RhythmType::Minim, false, Voice::One),
            note(RhythmType::Crochet, true, Voice::Two),
            rest(RhythmType::Quaver, false, Voice::Three),
        ]
    );
}

#[test]
fn ticks_skipped_forward_come_off_the_backup() {
    let mut c = checker(480, 240);
    c.push_elem(note(RhythmType::Crochet, false, Voice::Four));
    assert_eq!(c.conform_backup_placeholder_rests(480), Ok(()));
    assert_eq!(
        c.as_inner().clone(),
        vec![
            note(RhythmType::Crochet, false, Voice::Four),
            rest(RhythmType::Quaver, false, Voice::One),
        ]
    );
    let mut d = checker(480, 600);
    d.push_elem(note(RhythmType::Crochet, false, Voice::One));
    assert_eq!(d.conform_backup_placeholder_rests(480), Ok(()));
    assert_eq!(d.as_inner().len(), 2);
    assert_eq!(d.as_inner()[1], rest(RhythmType::Crochet, false, Voice::Two));
}

#[test]
fn chord_notes_and_tuplets_count_as_they_sound() {
    let triplet = TupletData {
        start_stop: TupletStartStop::TupletStart,
        tuplet_number: TupletNumber::One,
        actual_notes: TupletActual::Three,
        normal_notes: TupletNormal::Two,
        dotted: false,
    };
    let mut c = checker(480, 0);
    c.push_elem(MusicElement::Tuplet(triplet));
    c.push_elem(note(RhythmType::Quaver, false, Voice::One));
    c.push_elem(note(RhythmType::Quaver, false, Voice::One));
    c.push_elem(note(RhythmType::Quaver, false, Voice::One));
    c.push_elem(MusicElement::Tuplet(TupletData {
        start_stop: TupletStartStop::TupletStop,
        ..triplet
    }));
    let chord = NoteData {
        chord: Chord::Chord,
        note_rest: NumericPitchRest::Pitch(53),
        ..NoteData::new_default_rest(RhythmType::Quaver, false, Voice::One)
    };
    c.push_elem(MusicElement::NoteRest(chord));
    assert_eq!(c.conform_backup_placeholder_rests(480), Ok(()));
    assert_eq!(c.as_inner().len(), 6);
    c.push_elem(note(RhythmType::Crochet, false, Voice::Two));
    assert_eq!(c.conform_backup_placeholder_rests(240), Ok(()));
    assert_eq!(c.as_inner().len(), 8);
    assert_eq!(c.as_inner()[7], rest(RhythmType::Quaver, false, Voice::Three));
}

#[test]
fn a_difference_without_a_note_type_is_unrepresentable() {
    let mut c = checker(480, 0);
    c.push_elem(note(RhythmType::SemiHemiDemiSemiQuaver, false, Voice::One));
    assert_eq!(
        c.conform_backup_placeholder_rests(8),
        Err(Error::UnrepresentableDuration)
    );
    assert_eq!(c.as_inner().len(), 1);
    assert_eq!(c.conform_backup_placeholder_rests(15), Ok(()));
}

#[test]
fn short_voices_are_filled_up() {
    let mut c = checker(480, 0);
    c.push_elem(note(RhythmType::Crochet, false, Voice::One));
    c.push_elem(note(RhythmType::Crochet, false, Voice::One));
    c.push_elem(note(RhythmType::Crochet, false, Voice::Two));
    assert_eq!(c.remove_incomplete_voices(&voices(&[1, 2])), Ok(()));
    let measure = c.as_inner().clone();
    assert_eq!(
        measure,
        vec![
            rest(RhythmType::Crochet, false, Voice::Two),
            note(RhythmType::Crochet, false, Voice::One),
            note(RhythmType::Crochet, false, Voice::One),
            note(RhythmType::Crochet, false, Voice::Two),
        ]
    );
    assert_eq!(length(&measure, Voice::One, 480), 960);
    assert_eq!(length(&measure, Voice::Two, 480), 960);
}

#[test]
fn rests_go_to_the_places_recorded_for_their_voices() {
    let mut c = checker(480, 0);
    c.push_elem(note(RhythmType::SemiBreve, false, Voice::One));
    c.push_elem(note(RhythmType::Minim, false, Voice::Two));
    c.push_elem(note(RhythmType::Crochet, false, Voice::Two));
    c.push_elem(note(RhythmType::Minim, true, Voice::Three));
    c.push_elem(note(RhythmType::Minim, false, Voice::Four));
    assert_eq!(c.remove_incomplete_voices(&voices(&[1, 2, 3, 4])), Ok(()));
    let measure = c.as_inner().clone();
    assert_eq!(
        measure,
        vec![
            rest(RhythmType::Minim, false, Voice::Four),
            note(RhythmType::SemiBreve, false, Voice::One),
            note(RhythmType::Minim, false, Voice::Two),
            rest(RhythmType::Crochet, false, Voice::Two),
            rest(RhythmType::Crochet, false, Voice::Three),
            note(RhythmType::Crochet, false, Voice::Two),
            note(RhythmType::Minim, true, Voice::Three),
            note(RhythmType::Minim, false, Voice::Four),
        ]
    );
    for voice in [Voice::One, Voice::Two, Voice::Three, Voice::Four] {
        assert_eq!(length(&measure, voice, 480), 1920);
    }
}

#[test]
fn empty_and_full_voices_are_left_alone() {
    let mut c = checker(480, 0);
    c.push_elem(note(RhythmType::Minim, false, Voice::One));
    c.push_elem(note(RhythmType::Minim, false, Voice::Two));
    c.push_elem(note(RhythmType::SemiBreve, false, Voice::Three));
    assert_eq!(c.remove_incomplete_voices(&voices(&[1, 2, 3, 4])), Ok(()));
    assert_eq!(c.as_inner().len(), 3);
    let mut d = checker(480, 0);
    d.push_elem(note(RhythmType::Minim, false, Voice::One));
    d.push_elem(note(RhythmType::Crochet, false, Voice::Two));
    assert_eq!(d.remove_incomplete_voices(&voices(&[1])), Ok(()));
    assert_eq!(d.as_inner().len(), 2);
}

#[test]
fn more_than_four_voices_are_refused() {
    let mut c = checker(480, 0);
    c.push_elem(note(RhythmType::Minim, false, Voice::One));
    assert_eq!(
        c.remove_incomplete_voices(&voices(&[1, 2, 3, 4, 5])),
        Err(Error::TooManyVoices)
    );
    assert_eq!(c.as_inner().len(), 1);
}

#[test]
fn a_shortfall_without_a_note_type_is_unrepresentable() {
    let mut c = checker(480, 0);
    c.push_elem(note(RhythmType::Crochet, false, Voice::One));
    c.push_elem(note(RhythmType::Crochet, false, Voice::Two));
    c.push_elem(note(RhythmType::SemiHemiDemiSemiQuaver, true, Voice::One));
    c.push_elem(note(RhythmType::SemiHemiDemiSemiQuaver, false, Voice::Two));
    assert_eq!(
        c.remove_incomplete_voices(&voices(&[1, 2])),
        Err(Error::UnrepresentableDuration)
    );
    assert_eq!(c.as_inner().len(), 4);
}

#[test]
fn voice_sets_count_and_rank() {
    let mut set = BTreeSet::new();
    insert_voice(&mut set, 5);
    insert_voice(&mut set, 1);
    insert_voice(&mut set, 3);
    insert_voice(&mut set, 3);
    assert_eq!(voice_count(&set), 3);
    assert!(has_voice(&set, 3));
    assert!(!has_voice(&set, 2));
    assert_eq!(voice_rank(&set, 1), 0);
    assert_eq!(voice_rank(&set, 3), 1);
    assert_eq!(voice_rank(&set, 5), 2);
    remove_voice(&mut set, 1);
    assert_eq!(voice_rank(&set, 5), 1);
}

#[test]
fn a_fifth_voice_is_refused() {
    let mut part = MusicalPart::new("P1");
    assert_eq!(part.insert_new_voice(1), Ok(0));
    assert_eq!(part.insert_new_voice(5), Ok(1));
    assert_eq!(part.insert_new_voice(2), Ok(1));
    assert_eq!(part.insert_new_voice(3), Ok(2));
    assert_eq!(part.insert_new_voice(5), Ok(3));
    assert_eq!(part.get_num_voices(), 4);
    assert_eq!(part.insert_new_voice(6), Err(Error::TooManyVoices));
    assert_eq!(part.insert_new_voice(0), Err(Error::TooManyVoices));
    assert_eq!(part.get_num_voices(), 4);
    assert_eq!(part.insert_new_voice(1), Ok(0));
}

#[test]
fn a_part_is_put_together_measure_by_measure() {
    let mut part = MusicalPart::new("P1");
    assert!(part.is_empty());
    assert_eq!(part.get_cur_init_measure(), MeasureInitializer::default());
    assert_eq!(part.get_cur_init_measure_idx(), None);
    assert!(!part.has_measure());
    part.set_initial_divisions(480);
    assert_eq!(part.get_initial_divisions(), Some(480));
    let init = MeasureInitializer {
        beats: Beats::Three,
        beat_type: BeatType::Four,
        ..MeasureInitializer::default()
    };
    part.push_init_measure(init);
    assert_eq!(part.get_cur_init_measure_idx(), Some(0));
    assert_eq!(part.get_cur_init_measure(), init);
    assert_eq!(part.insert_new_voice(1), Ok(0));
    assert_eq!(part.insert_new_voice(2), Ok(1));
    part.push_meta_start(MeasureMetaData::new(MeasureStartEnd::MeasureStart), 0, 7);
    assert!(part.has_measure());
    assert_eq!(part.get_measure_idx(), 7);
    assert_eq!(part.get_cur_quarter_divisions(), 480);
    part.push_measure_elem(note(RhythmType::Minim, true, Voice::One));
    assert_eq!(part.update_backup_duration(1440), Ok(()));
    part.push_measure_elem(rest(RhythmType::SemiBreve, false, Voice::Two));
    assert_eq!(part.len(), 2);
    assert_eq!(part.push_meta_end(MeasureMetaData::new(MeasureStartEnd::MeasureEnd)), Ok(()));
    assert_eq!(
        part.inner(),
        &vec![
            MusicElement::MeasureInit(init),
            MusicElement::MeasureMeta(MeasureMetaData::new(MeasureStartEnd::MeasureStart)),
            note(RhythmType::Minim, true, Voice::One),
            rest(RhythmType::SemiBreve, false, Voice::Two),
            MusicElement::MeasureMeta(MeasureMetaData::new(MeasureStartEnd::MeasureEnd)),
        ]
    );
    assert_eq!(part.len(), 5);
}

#[test]
fn an_initializer_is_written_only_when_it_changes() {
    let mut part = MusicalPart::new("P1");
    let common = MeasureInitializer::default();
    assert!(part.update_init_measure(common));
    assert!(!part.update_init_measure(common));
    part.push(rest(RhythmType::SemiBreve, false, Voice::One));
    assert!(!part.update_init_measure(common));
    let waltz = MeasureInitializer {
        beats: Beats::Three,
        ..common
    };
    assert!(part.update_init_measure(waltz));
    assert_eq!(part.get_cur_init_measure_idx(), Some(2));
    assert_eq!(part.get_cur_init_measure(), waltz);
    assert!(part.update_init_measure(common));
    assert_eq!(part.len(), 4);
    assert_eq!(MusicalPart::default(), MusicalPart::new(""));
    assert_eq!(PartMap::default(), PartMap::new());
    assert_eq!(part.clone(), part);
}

#[test]
fn closing_a_measure_fills_up_its_voices() {
    let mut part = MusicalPart::new("P1");
    part.set_initial_divisions(480);
    part.push_init_measure(MeasureInitializer::default());
    part.insert_new_voice(1).unwrap();
    part.insert_new_voice(2).unwrap();
    part.push_meta_start(MeasureMetaData::new(MeasureStartEnd::RepeatStart), 0, 0);
    part.push_measure_elem(note(RhythmType::SemiBreve, false, Voice::One));
    part.push_measure_elem(note(RhythmType::Minim, false, Voice::Two));
    assert_eq!(part.update_backup_duration(960), Ok(()));
    assert_eq!(part.push_meta_end(MeasureMetaData::new(MeasureStartEnd::RepeatEnd)), Ok(()));
    let elems = part.inner();
    assert_eq!(elems.len(), 7);
    assert_eq!(elems[3], rest(RhythmType::Minim, false, Voice::Two));
    assert_eq!(elems[5], rest(RhythmType::SemiBreve, false, Voice::Three));
    assert_eq!(length(&elems[2..6], Voice::Two, 480), 1920);
}

#[test]
fn elements_given_at_once_set_divisions_and_voices() {
    let elems = vec![
        note(RhythmType::Quaver, true, Voice::One),
        note(RhythmType::Crochet, false, Voice::Three),
    ];
    let mut part = MusicalPart::new_from_elems("P7", elems).unwrap();
    assert_eq!(part.get_initial_divisions(), Some(4));
    assert_eq!(part.get_num_voices(), 2);
    assert_eq!(part.insert_new_voice(2), Ok(1));
    part.push(note(RhythmType::SemiQuaver, true, Voice::Four));
    let mut more = vec![note(RhythmType::Crochet, false, Voice::One)];
    part.append(&mut more);
    assert!(more.is_empty());
    assert_eq!(part.update_divisions_voices(), Ok(()));
    assert_eq!(part.get_initial_divisions(), Some(8));
    assert_eq!(part.get_num_voices(), 3);
    assert_eq!(part.insert_new_voice(9), Ok(3));
    assert_eq!(part.insert_new_voice(1), Err(Error::TooManyVoices));
    part.push(note(RhythmType::Crochet, false, Voice::Two));
    assert_eq!(part.update_divisions_voices(), Err(Error::TooManyVoices));
    let mut crowded = MusicalPart::new("P8");
    for v in [10, 11, 12, 13] {
        crowded.insert_new_voice(v).unwrap();
    }
    crowded.push(note(RhythmType::Crochet, false, Voice::One));
    assert_eq!(crowded.update_divisions_voices(), Err(Error::TooManyVoices));
}

#[test]
fn the_finest_notes_ask_for_a_resolution_of_32_bits() {
    let mut elems = vec![];
    for (actual, dotted) in [
        (TupletActual::Sixteen, true),
        (TupletActual::TwentyFive, false),
        (TupletActual::TwentyOne, false),
        (TupletActual::Seventeen, false),
        (TupletActual::Thirteen, false),
        (TupletActual::Eleven, false),
        (TupletActual::Nine, false),
    ] {
        elems.push(MusicElement::Tuplet(TupletData {
            start_stop: TupletStartStop::TupletStart,
            tuplet_number: TupletNumber::One,
            actual_notes: actual,
            normal_notes: TupletNormal::One,
            dotted: false,
        }));
        elems.push(note(RhythmType::SemiHemiDemiSemiQuaver, dotted, Voice::One));
    }
    let first: Vec<MusicElement> = elems[..4].to_vec();
    assert_eq!(
        MusicalPart::new_from_elems("P1", first)
            .unwrap()
            .get_initial_divisions(),
        Some(25600)
    );
    assert_eq!(
        MusicalPart::new_from_elems("P1", elems)
            .unwrap()
            .get_initial_divisions(),
        Some(3920716800)
    );
}

#[test]
fn part_ids_are_reserved_filled_and_removed() {
    let mut map = PartMap::new();
    assert_eq!(map.add_part_id("P2"), Ok(()));
    assert_eq!(map.add_part_id("P10"), Ok(()));
    assert_eq!(map.add_part_id("P1"), Ok(()));
    assert_eq!(map.add_part_id("P2"), Err(Error::ItemExists));
    assert_eq!(map.keys(), vec!["P1", "P10", "P2"]);
    assert_eq!(map.num_part_ids(), 3);
    assert_eq!(map.num_parts(), 0);
    assert_eq!(map.get_removed_parts(), 3);
    assert!(map.get_part(0).is_none());
    assert_eq!(map.push_part("P2", MusicalPart::new("P2")), Ok(()));
    assert_eq!(map.push_part("P3", MusicalPart::new("P3")), Ok(()));
    assert_eq!(
        map.push_part("P2", MusicalPart::new("again")).err(),
        Some(Error::ItemExists)
    );
    assert_eq!(map.num_parts(), 2);
    assert_eq!(map.num_part_ids(), 4);
    assert_eq!(map.get_removed_parts(), 2);
    assert_eq!(
        map.get_part_ids(),
        vec![
            ("P1".to_string(), None),
            ("P10".to_string(), None),
            ("P2".to_string(), Some(0)),
            ("P3".to_string(), Some(1)),
        ]
    );
    assert!(map.get_part(1).is_some());
    assert!(map.get_part(2).is_none());
    map.remove_part("P2");
    assert_eq!(map.get_removed_parts(), 3);
    assert_eq!(map.num_parts(), 2);
    assert!(map.get_part(0).is_some());
    map.remove_part("P9");
    assert_eq!(map.num_part_ids(), 5);
    map.combine_parts();
    map.insert_part_id("P1", Some(1));
    assert_eq!(map.get_removed_parts(), 3);
    assert_eq!(map.push_part("P2", MusicalPart::new("P2")), Ok(()));
    assert_eq!(map.get_part_ids()[2], ("P2".to_string(), Some(2)));
}
