use music2bin::bin_format::bin_decoder::MusicDecoder;
use music2bin::error::Error;
use music2bin::ir::elements::{MeasureInitializer, MeasureMetaData, MusicElement, NoteData};
use music2bin::ir::notation::{
    Arpeggiate, Articulation, BeatType, Beats, Chord, DalSegno, Ending, KeySignature,
    MeasureStartEnd, NoteConnection, PhraseDynamics, RhythmType, SlurConnection, SpecialNote,
    Trill, Voice,
};
use music2bin::ir::pitch::NumericPitchRest;
use music2bin::ir::tempo::Tempo;

#[test]
fn bin_decoder_test_music_note_data_rest_parse() {
    let mut music_dec = MusicDecoder::new();
    let note_rest_data: &[u8] = &[0xa0, 0xef, 0x84, 0x01];
    music_dec.raw_read(note_rest_data);
    let elem = music_dec.parse_element();

    assert_eq!(
        elem,
        Ok(MusicElement::NoteRest(NoteData {
            note_rest: NumericPitchRest::new_from_numeric(65),
            phrase_dynamics: PhraseDynamics::Forte,
            note_type: RhythmType::SemiBreve,
            dotted: true,
            arpeggiate: Arpeggiate::NoArpeggiation,
            special_note: SpecialNote::NoSpecial,
            articulation: Articulation::StrongAccent,
            trill: Trill::NoTrill,
            ties: NoteConnection::NoTie,
            chord: Chord::NoChord,
            slur: SlurConnection::NoSlur,
            voice: Voice::Two,
        }))
    );
}

#[test]
fn bin_decoder_test_music_meta_parse() {
    let mut music_dec = MusicDecoder::new();
    let measure_meta_data: &[u8] = &[0x4e, 0x00, 0x00, 0x00];
    music_dec.raw_read(measure_meta_data);
    let elem = music_dec.parse_element();

    assert_eq!(
        elem,
        Ok(MusicElement::MeasureMeta(MeasureMetaData {
            start_end: MeasureStartEnd::MeasureStart,
            ending: Ending::Three,
            dal_segno: DalSegno::DaCapo
        }))
    );
}

#[test]
fn bin_decoder_test_music_init_parse() {
    let mut music_dec = MusicDecoder::new();
    let music_init_data: &[u8] = &[0x12, 0x0c, 0x80, 0x00];
    music_dec.raw_read(music_init_data);

    let elem = music_dec.parse_element();

    assert_eq!(
        elem,
        Ok(MusicElement::MeasureInit(MeasureInitializer {
            beats: Beats::Four,
            beat_type: BeatType::Four,
            key_sig: KeySignature::CMajorAminor,
            tempo: Tempo::default(),
        }))
    );
}

#[test]
fn parse_element_needs_four_bytes() {
    let mut music_dec = MusicDecoder::new();
    music_dec.raw_read(&[0x4e, 0x00, 0x00]);
    assert_eq!(music_dec.parse_element(), Err(Error::Truncated));
}
