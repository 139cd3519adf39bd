use music2bin::bin_format::bin_decoder::{
    decode, header_parser, music_element, parse_id, parse_measure_init, parse_measure_meta,
    parse_music_bin, parse_note_data_rest, parse_records, parse_tuplet_data, parse_word,
    word_from_bytes, MusicDecoder,
};
use music2bin::bin_format::bin_encoder::{
    element_word, encode, measure_init_word, measure_meta_word, note_word, tuplet_word,
    MusicEncoder,
};
use music2bin::bin_format::bin_to_ir::bin_to_ir;
use music2bin::bin_format::header::MusicBinHeader;
use music2bin::bin_format::ir_to_bin::{fits_in_stream, ir_to_bin};
use music2bin::bin_format::layout::{MusicTagIdentifiers, MUSIC_ELEMENT_LENGTH};
use music2bin::error::Error;
use music2bin::ir::elements::{
    MeasureInitializer, MeasureMetaData, MusicElement, NoteData, TupletData,
};
use music2bin::ir::musical_part::MusicalPart;
use music2bin::ir::notation::{
    Arpeggiate, Articulation, BeatType, Beats, Chord, DalSegno, Ending, KeySignature,
    MeasureStartEnd, NoteConnection, PhraseDynamics, RhythmType, SlurConnection, SpecialNote,
    Trill, TupletActual, TupletNormal, TupletNumber, TupletStartStop, Voice,
};
use music2bin::ir::pitch::NumericPitchRest;
use music2bin::ir::tempo::Tempo;

fn sample_note() -> NoteData {
    NoteData {
        note_rest: NumericPitchRest::Pitch(65),
        phrase_dynamics: PhraseDynamics::Forte,
        note_type: RhythmType::SemiBreve,
        dotted: true,
        arpeggiate: Arpeggiate::NoArpeggiation,
        special_note: SpecialNote::NoSpecial,
        articulation: Articulation::StrongAccent,
        trill: Trill::NoTrill,
        ties: NoteConnection::NoTie,
        chord: Chord::NoChord,
        slur: SlurConnection::NoSlur,
        voice: Voice::Two,
    }
}

fn busy_note() -> NoteData {
    NoteData {
        note_rest: NumericPitchRest::Pitch(97),
        phrase_dynamics: PhraseDynamics::Fortississimo,
        note_type: RhythmType::SemiHemiDemiSemiQuaver,
        dotted: false,
        arpeggiate: Arpeggiate::Arpeggiate,
        special_note: SpecialNote::Fermata,
        articulation: Articulation::Stress,
        trill: Trill::Chromatic,
        ties: NoteConnection::EndTie,
        chord: Chord::Chord,
        slur: SlurConnection::EndSlur,
        voice: Voice::Four,
    }
}

fn sample_init() -> MeasureInitializer {
    MeasureInitializer {
        beats: Beats::Four,
        beat_type: BeatType::Four,
        key_sig: KeySignature::CMajorAminor,
        tempo: Tempo::default(),
    }
}

fn sample_meta() -> MeasureMetaData {
    MeasureMetaData {
        start_end: MeasureStartEnd::MeasureStart,
        ending: Ending::Three,
        dal_segno: DalSegno::DaCapo,
    }
}

fn sample_tuplet() -> TupletData {
    TupletData {
        start_stop: TupletStartStop::TupletStart,
        tuplet_number: TupletNumber::One,
        actual_notes: TupletActual::Three,
        normal_notes: TupletNormal::Two,
        dotted: false,
    }
}

fn sample_elements() -> Vec<MusicElement> {
    vec![
        MusicElement::MeasureInit(sample_init()),
        MusicElement::MeasureMeta(sample_meta()),
        MusicElement::Tuplet(sample_tuplet()),
        MusicElement::NoteRest(sample_note()),
        MusicElement::NoteRest(busy_note()),
        MusicElement::NoteRest(NoteData::default()),
        MusicElement::MeasureMeta(MeasureMetaData::new(MeasureStartEnd::RepeatEnd)),
    ]
}

fn sample_stream() -> Vec<u8> {
    vec![
        0x4d, 0x75, 0x42, 0x69, 0x10, 0x00, 0x00, 0x00, 0x12, 0x0c, 0x80, 0x00, 0x4e, 0x00, 0x00,
        0x00, 0xd0, 0x22, 0x00, 0x00, 0xa0, 0xef, 0x84, 0x01,
    ]
}

#[test]
fn records_have_their_exact_bytes() {
    assert_eq!(measure_init_word(sample_init()), 0x120c8000);
    assert_eq!(measure_meta_word(sample_meta()), 0x4e000000);
    assert_eq!(tuplet_word(sample_tuplet()), 0xd0220000);
    assert_eq!(note_word(sample_note()), 0xa0ef8401);
    assert_eq!(note_word(busy_note()), 0xb0f87f5b);
    assert_eq!(element_word(MusicElement::NoteRest(NoteData::default())), 0x80050000);
    assert_eq!(word_from_bytes(0xa0, 0xef, 0x84, 0x01), 0xa0ef8401);
    assert_eq!(MUSIC_ELEMENT_LENGTH, 4);
}

#[test]
fn a_stream_is_the_header_and_the_records() {
    let elements = vec![
        MusicElement::MeasureInit(sample_init()),
        MusicElement::MeasureMeta(sample_meta()),
        MusicElement::Tuplet(sample_tuplet()),
        MusicElement::NoteRest(sample_note()),
    ];
    assert_eq!(encode(&elements), sample_stream());
    assert_eq!(encode(&vec![]), vec![0x4d, 0x75, 0x42, 0x69, 0, 0, 0, 0]);
}

#[test]
fn the_encoder_writes_in_the_order_of_the_calls() {
    let mut encoder = MusicEncoder::new();
    encoder.create_header(16);
    encoder.insert_measure_initializer(sample_init());
    encoder.insert_measure_metadata(sample_meta());
    encoder.insert_tuplet_data(sample_tuplet());
    encoder.insert_note_data(sample_note());
    assert_eq!(encoder.into_bytes(), sample_stream());
    let mut single = MusicEncoder::new();
    single.insert_element(MusicElement::MeasureMeta(sample_meta()));
    assert_eq!(single.into_bytes(), vec![0x4e, 0x00, 0x00, 0x00]);
}

#[test]
fn encode_then_decode_gives_the_elements() {
    let elements = sample_elements();
    let bytes = encode(&elements);
    let (header, decoded) = decode(&bytes).unwrap();
    assert_eq!(decoded, elements);
    assert_eq!(header.get_length(), 4 * elements.len());
    assert_eq!(header.get_chunk_length(), elements.len());
    assert_eq!(header.get_identifier(), MusicBinHeader::MUSICBIN_MAGIC_NUMBER);
}

#[test]
fn decode_then_encode_gives_the_bytes() {
    let bytes = sample_stream();
    let (header, elements) = decode(&bytes).unwrap();
    assert_eq!(header.get_length(), 16);
    assert_eq!(elements.len(), 4);
    assert_eq!(encode(&elements), bytes);
}

#[test]
fn every_value_of_every_field_round_trips() {
    for raw in 0u8..=97 {
        let n = NoteData {
            note_rest: NumericPitchRest::new_from_numeric(raw),
            ..sample_note()
        };
        assert_eq!(parse_word(note_word(n)), Ok(MusicElement::NoteRest(n)));
    }
    for raw in (0u8..12).chain(13..16) {
        let n = NoteData {
            phrase_dynamics: PhraseDynamics::from_numeric(raw).unwrap(),
            articulation: Articulation::from_numeric(raw % 8).unwrap(),
            note_type: RhythmType::from_numeric(raw % 8).unwrap(),
            voice: Voice::from_numeric(raw % 4).unwrap(),
            dotted: raw % 2 == 0,
            ..busy_note()
        };
        assert_eq!(parse_word(note_word(n)), Ok(MusicElement::NoteRest(n)));
    }
    for raw in 0u8..=127 {
        let m = MeasureInitializer {
            beats: Beats::from_numeric(raw % 7).unwrap(),
            beat_type: BeatType::from_numeric(raw % 4).unwrap(),
            key_sig: KeySignature::from_numeric(raw % 12).unwrap(),
            tempo: Tempo::new_from_raw(raw),
        };
        assert_eq!(parse_word(measure_init_word(m)), Ok(MusicElement::MeasureInit(m)));
    }
    for raw in 0u8..16 {
        let t = TupletData {
            start_stop: TupletStartStop::from_numeric(raw % 3).unwrap(),
            tuplet_number: TupletNumber::from_numeric(raw % 4).unwrap(),
            actual_notes: TupletActual::from_numeric(raw).unwrap(),
            normal_notes: TupletNormal::from_numeric(raw % 9).unwrap(),
            dotted: raw % 2 == 1,
        };
        assert_eq!(parse_word(tuplet_word(t)), Ok(MusicElement::Tuplet(t)));
    }
    for raw in 0u8..8 {
        let m = MeasureMetaData {
            start_end: MeasureStartEnd::from_numeric(raw % 4).unwrap(),
            ending: Ending::from_numeric(raw % 4).unwrap(),
            dal_segno: DalSegno::from_numeric(raw).unwrap(),
        };
        assert_eq!(parse_word(measure_meta_word(m)), Ok(MusicElement::MeasureMeta(m)));
    }
}

#[test]
fn values_without_room_lose_their_top_bits() {
    let wide = TupletData {
        actual_notes: TupletActual::TwentyFive,
        ..sample_tuplet()
    };
    let narrow = TupletData {
        actual_notes: TupletActual::Two,
        ..sample_tuplet()
    };
    assert_eq!(tuplet_word(wide), tuplet_word(narrow));
    let high = NoteData {
        note_rest: NumericPitchRest::Pitch(193),
        ..sample_note()
    };
    assert_eq!(note_word(high), note_word(sample_note()));
}

#[test]
fn a_bad_magic_number_is_a_malformed_header() {
    let mut bytes = sample_stream();
    bytes[3] = 0x68;
    assert_eq!(decode(&bytes), Err(Error::MalformedHeader));
    assert_eq!(header_parser(&bytes), Err(Error::MalformedHeader));
}

#[test]
fn a_wrong_length_is_a_malformed_header() {
    let mut bytes = sample_stream();
    bytes[4] = 0x0c;
    assert_eq!(decode(&bytes), Err(Error::MalformedHeader));
    bytes[4] = 0x11;
    assert_eq!(decode(&bytes), Err(Error::MalformedHeader));
    bytes[4] = 0x10;
    bytes[7] = 0x01;
    assert_eq!(decode(&bytes), Err(Error::MalformedHeader));
    let (header, elements) = parse_music_bin(&bytes).unwrap();
    assert_eq!(header.get_length(), 0x01000010);
    assert_eq!(elements.len(), 4);
}

#[test]
fn a_stream_that_ends_early_is_truncated() {
    let bytes = sample_stream();
    assert_eq!(decode(&bytes[..7]), Err(Error::Truncated));
    assert_eq!(decode(&[]), Err(Error::Truncated));
    assert_eq!(decode(&bytes[..23]), Err(Error::Truncated));
    assert_eq!(decode(&bytes[..9]), Err(Error::Truncated));
    assert_eq!(header_parser(&bytes[..5]), Err(Error::Truncated));
    assert_eq!(music_element(&bytes[8..10]), Err(Error::Truncated));
    assert_eq!(music_element(&[]), Err(Error::Truncated));
}

#[test]
fn a_field_value_out_of_range_is_an_unknown_tag() {
    assert_eq!(parse_measure_init(0x38000000), Err(Error::UnknownTag));
    assert_eq!(parse_measure_init(0x01800000), Err(Error::UnknownTag));
    assert_eq!(parse_measure_meta(0x40000000 | (3 << 26)), Ok(MusicElement::MeasureMeta(MeasureMetaData {
        start_end: MeasureStartEnd::MeasureStart,
        ending: Ending::Three,
        dal_segno: DalSegno::NoMarker,
    })));
    assert_eq!(parse_note_data_rest(0x80000000 | (98 << 23)), Err(Error::UnknownTag));
    assert_eq!(parse_note_data_rest(0x80000000 | (12 << 19)), Err(Error::UnknownTag));
    assert_eq!(parse_note_data_rest(0x80000000 | (3 << 7)), Err(Error::UnknownTag));
    assert_eq!(parse_note_data_rest(0x80000000 | (3 << 5)), Err(Error::UnknownTag));
    assert_eq!(parse_note_data_rest(0x80000000 | (3 << 2)), Err(Error::UnknownTag));
    assert_eq!(parse_tuplet_data(0xc0000000 | (3 << 28)), Err(Error::UnknownTag));
    assert_eq!(parse_tuplet_data(0xc0000000 | (4 << 25)), Err(Error::UnknownTag));
    assert_eq!(parse_tuplet_data(0xc0000000 | (9 << 17)), Err(Error::UnknownTag));
    let mut bytes = sample_stream();
    bytes[8] = 0x38;
    assert_eq!(decode(&bytes), Err(Error::UnknownTag));
    assert_eq!(decode(&bytes[..23]), Err(Error::UnknownTag));
    assert_eq!(parse_records(&bytes, 8), Err(Error::UnknownTag));
    assert_eq!(parse_records(&bytes, 12).map(|e| e.len()), Ok(3));
}

#[test]
fn the_first_two_bits_are_the_tag() {
    assert_eq!(parse_id(0x120c8000), MusicTagIdentifiers::MeasureInitializer);
    assert_eq!(parse_id(0x4e000000), MusicTagIdentifiers::MeasureMetaData);
    assert_eq!(parse_id(0xa0ef8401), MusicTagIdentifiers::NoteData);
    assert_eq!(parse_id(0xd0220000), MusicTagIdentifiers::Tuplet);
    assert_eq!(MusicTagIdentifiers::Tuplet.to_numeric(), 3);
    assert_eq!(MusicTagIdentifiers::from_numeric(2), Ok(MusicTagIdentifiers::NoteData));
    assert_eq!(MusicTagIdentifiers::from_numeric(4), Err(Error::UnknownTag));
}

#[test]
fn unused_bits_are_passed_over_when_reading() {
    assert_eq!(
        parse_word(0x4e000001),
        Ok(MusicElement::MeasureMeta(sample_meta()))
    );
    assert_eq!(
        parse_word(0x120c8000 | 0x3fff),
        Ok(MusicElement::MeasureInit(sample_init()))
    );
    assert_eq!(measure_meta_word(sample_meta()), 0x4e000000);
}

#[test]
fn the_decoder_collects_bytes() {
    let bytes = sample_stream();
    let mut decoder = MusicDecoder::new();
    decoder.raw_read(&bytes[..10]);
    assert_eq!(decoder.parse_data(), Err(Error::Truncated));
    decoder.raw_read(&bytes[10..]);
    let elements = decoder.parse_data().unwrap();
    assert_eq!(elements.len(), 4);
    assert_eq!(elements[3], MusicElement::NoteRest(sample_note()));
    decoder.clear_data();
    assert_eq!(decoder.parse_data(), Err(Error::Truncated));
    decoder.raw_read(&bytes[20..]);
    assert_eq!(decoder.parse_element(), Ok(MusicElement::NoteRest(sample_note())));
}

#[test]
fn headers_hold_a_length() {
    let mut header = MusicBinHeader::new(40);
    assert_eq!(header.get_chunk_length(), 10);
    header.set_length(8);
    assert_eq!(header.get_chunk_length(), 2);
    assert_eq!(header.get_length(), 8);
    assert_eq!(header.to_bytes(), vec![0x4d, 0x75, 0x42, 0x69, 8, 0, 0, 0]);
    header.set_length(0x01020304);
    assert_eq!(header.to_bytes(), vec![0x4d, 0x75, 0x42, 0x69, 4, 3, 2, 1]);
}

#[test]
fn a_part_goes_to_bytes_and_back() {
    let part = MusicalPart::new_from_elems("P1", sample_elements()).unwrap();
    assert!(fits_in_stream(&part));
    let bytes = ir_to_bin(&part);
    assert_eq!(bytes.len(), 8 + 4 * 7);
    let back = bin_to_ir(&bytes).unwrap();
    assert_eq!(back.inner(), part.inner());
    assert_eq!(back.get_initial_divisions(), part.get_initial_divisions());
    assert_eq!(back.get_initial_divisions(), Some(3));
    assert_eq!(back.get_num_voices(), 3);
    assert_eq!(bin_to_ir(&bytes[..9]).err(), Some(Error::Truncated));
}
