use super::divisions::{lcm_fits, note_multiples, scan_divisions_voices, voices_of};
use super::elements::{MeasureInitializer, MeasureMetaData, MusicElement};
use super::measure_checker::{correction, last_voice, MeasureChecker, MeasureCheckerView};
use super::notation::PhraseDynamics;
use super::voices::{has_voice, insert_voice, rank_in, remove_voice, voice_count, voice_rank};
use crate::arith::is_lcm_of;
use crate::error::{Error, Result};
use std::collections::BTreeSet;
use vstd::prelude::*;
use vstd::string::*;

verus! {

/// The number of a voice as the notation gives it.
pub type VoiceIdx = u8;

/// The place of an element in a part.
pub type MeasureIdx = usize;

/// What a part holds.
pub struct MusicalPartView {
    /// The elements of the measures that are closed, and the start of the
    /// measure that is open.
    pub elems: Seq<MusicElement>,
    /// Ticks to the quarter note.
    pub divisions: Option<u32>,
    /// The measure that is open, or that was closed last.
    pub measure_checker: Option<MeasureCheckerView>,
    /// The id of the part.
    pub part_str: Seq<char>,
    /// The numbers of the voices of the part.
    pub voices: Set<u8>,
    /// Where in `elems` the last measure initializer stands.
    pub cur_init_measure_idx: Option<MeasureIdx>,
    /// The dynamics that wait for the next note.
    pub cur_phrase_dyn: Option<PhraseDynamics>,
}

impl MusicalPartView {
    /// The measure initializer in force: the one whose place is kept, the
    /// default one where no place is kept.
    pub open spec fn cur_init_measure(self) -> MeasureInitializer {
        match self.cur_init_measure_idx {
            Some(idx) => if idx < self.elems.len() {
                match self.elems[idx as int] {
                    MusicElement::MeasureInit(m) => m,
                    _ => default_initializer(),
                }
            } else {
                default_initializer()
            },
            None => default_initializer(),
        }
    }
}

/// Four quarters to the measure, C major, 120 beats per minute.
pub open spec fn default_initializer() -> MeasureInitializer {
    MeasureInitializer {
        beats: super::notation::Beats::Four,
        beat_type: super::notation::BeatType::Four,
        key_sig: super::notation::KeySignature::CMajorAminor,
        tempo: super::tempo::Tempo::of_raw(50),
    }
}

/// One part of a piece: its elements in order, its resolution and its
/// voices.
#[derive(Clone, Debug, PartialEq, Eq)]
pub struct MusicalPart {
    elems: Vec<MusicElement>,
    divisions: Option<u32>,
    measure_checker: Option<MeasureChecker>,
    part_str: String,
    voices: BTreeSet<VoiceIdx>,
    cur_init_measure_idx: Option<MeasureIdx>,
    pub cur_phrase_dyn: Option<PhraseDynamics>,
}

/// What an optional measure checker holds.
pub open spec fn checker_view(checker: Option<MeasureChecker>) -> Option<MeasureCheckerView> {
    match checker {
        Some(c) => Some(c@),
        None => None,
    }
}

impl View for MusicalPart {
    type V = MusicalPartView;

    closed spec fn view(&self) -> MusicalPartView {
        MusicalPartView {
            elems: self.elems@,
            divisions: self.divisions,
            measure_checker: checker_view(self.measure_checker),
            part_str: self.part_str@,
            voices: self.voices@,
            cur_init_measure_idx: self.cur_init_measure_idx,
            cur_phrase_dyn: self.cur_phrase_dyn,
        }
    }
}

impl Default for MusicalPart {
    fn default() -> (part: MusicalPart)
        ensures
            part.wf(),
            part@ == (MusicalPartView {
                elems: Seq::<MusicElement>::empty(),
                divisions: None,
                measure_checker: None,
                part_str: Seq::<char>::empty(),
                voices: Set::<u8>::empty(),
                cur_init_measure_idx: None,
                cur_phrase_dyn: None,
            }),
    {
        MusicalPart {
            elems: Vec::new(),
            divisions: None,
            measure_checker: None,
            part_str: String::new(),
            voices: BTreeSet::new(),
            cur_init_measure_idx: None,
            cur_phrase_dyn: None,
        }
    }
}

impl MusicalPart {
    /// A part has at most this many voices.
    pub const MAX_SUPPORTED_VOICES: usize = 4;

    /// Whether the part has at most four voices, the place kept for the
    /// measure initializer holds one, and the open measure counts no more
    /// elements than it has.
    pub open spec fn wf(&self) -> bool {
        &&& self@.voices.finite()
        &&& self@.voices.len() <= 4
        &&& match self@.cur_init_measure_idx {
            Some(idx) => idx < self@.elems.len() && self@.elems[idx as int] is MeasureInit,
            None => true,
        }
        &&& match self@.measure_checker {
            Some(c) => c.elems_since_backup <= c.measure.len(),
            None => true,
        }
    }

    /// A part of given elements, with the resolution and the voices that
    /// the elements ask for. The elements are refused where no resolution of
    /// 32 bits makes every note a whole number of ticks.
    pub fn new_from_elems(part_str: &str, elems: Vec<MusicElement>) -> (r: Result<MusicalPart>)
        ensures
            match r {
                Ok(part) => part.wf() && part@.elems == elems@ && part@.measure_checker is None
                    && part@.part_str == part_str@ && part@.voices == voices_of(elems@)
                    && part@.cur_init_measure_idx is None && part@.cur_phrase_dyn is None
                    && part@.divisions is Some && is_lcm_of(
                    note_multiples(elems@),
                    part@.divisions->Some_0 as nat,
                ),
                Err(e) => e == Error::UnrepresentableDuration && !lcm_fits(note_multiples(elems@)),
            },
    {
        let mut temp_mpart = MusicalPart {
            elems,
            divisions: None,
            measure_checker: None,
            part_str: String::from_str(part_str),
            voices: BTreeSet::new(),
            cur_init_measure_idx: None,
            cur_phrase_dyn: None,
        };
        proof {
            super::divisions::lemma_voices_bounded(elems@);
            assert(Set::<u8>::empty().union(voices_of(elems@)) =~= voices_of(elems@));
        }
        match temp_mpart.update_divisions_voices() {
            Ok(()) => Ok(temp_mpart),
            Err(e) => Err(e),
        }
    }

    /// An empty part with the id given.
    pub fn new(part_str: &str) -> (part: MusicalPart)
        ensures
            part.wf(),
            part@ == (MusicalPartView {
                elems: Seq::<MusicElement>::empty(),
                divisions: None,
                measure_checker: None,
                part_str: part_str@,
                voices: Set::<u8>::empty(),
                cur_init_measure_idx: None,
                cur_phrase_dyn: None,
            }),
    {
        MusicalPart {
            elems: Vec::new(),
            divisions: None,
            measure_checker: None,
            part_str: String::from_str(part_str),
            voices: BTreeSet::new(),
            cur_init_measure_idx: None,
            cur_phrase_dyn: None,
        }
    }

    /// The number of elements of the part.
    pub fn len(&self) -> (n: usize)
        ensures
            n == self@.elems.len(),
    {
        self.elems.len()
    }

    /// Whether the part holds no element.
    pub fn is_empty(&self) -> (b: bool)
        ensures
            b == (self@.elems.len() == 0),
    {
        self.elems.len() == 0
    }

    /// The elements of the part.
    pub fn inner(&self) -> (elems: &Vec<MusicElement>)
        ensures
            elems@ == self@.elems,
    {
        &self.elems
    }

    /// Sets the ticks to the quarter note.
    pub fn set_initial_divisions(&mut self, divisions: u32)
        ensures
            final(self)@ == (MusicalPartView { divisions: Some(divisions), ..old(self)@ }),
    {
        self.divisions = Some(divisions);
    }

    /// Ticks to the quarter note, once they are known.
    pub fn get_initial_divisions(&self) -> (divisions: Option<u32>)
        ensures
            divisions == self@.divisions,
    {
        self.divisions
    }

    /// The number of voices of the part.
    pub fn get_num_voices(&self) -> (n: usize)
        ensures
            n == self@.voices.len(),
    {
        voice_count(&self.voices)
    }

    /// Admits a voice and says at which place it stands among the voices of
    /// the part, counted from 0 in the order of their numbers. A fifth voice
    /// is refused and the part stays as it is.
    pub fn insert_new_voice(&mut self, voice_num: VoiceIdx) -> (r: Result<usize>)
        requires
            old(self).wf(),
        ensures
            final(self).wf(),
            if old(self)@.voices.contains(voice_num) || old(self)@.voices.len() < 4 {
                &&& r == Ok::<usize, Error>(
                    rank_in(old(self)@.voices.insert(voice_num), voice_num) as usize,
                )
                &&& final(self)@ == (MusicalPartView {
                    voices: old(self)@.voices.insert(voice_num),
                    ..old(self)@
                })
            } else {
                &&& r == Err::<usize, Error>(Error::TooManyVoices)
                &&& final(self)@ == old(self)@
            },
    {
        insert_voice(&mut self.voices, voice_num);
        if voice_count(&self.voices) > MeasureChecker::MAX_SUPPORTED_VOICES {
            remove_voice(&mut self.voices, voice_num);
            assert(self.voices@ =~= old(self).voices@);
            Err(Error::TooManyVoices)
        } else {
            Ok(voice_rank(&self.voices, voice_num))
        }
    }

    /// Puts an element at the end of the part.
    pub fn push(&mut self, elem: MusicElement)
        ensures
            final(self)@ == (MusicalPartView { elems: old(self)@.elems.push(elem), ..old(self)@ }),
            old(self).wf() ==> final(self).wf(),
    {
        self.elems.push(elem);
    }

    /// Moves elements to the end of the part.
    pub fn append(&mut self, elem: &mut Vec<MusicElement>)
        ensures
            final(self)@ == (MusicalPartView {
                elems: old(self)@.elems + old(elem)@,
                ..old(self)@
            }),
            final(elem)@ == Seq::<MusicElement>::empty(),
            old(self).wf() ==> final(self).wf(),
    {
        self.elems.append(elem);
    }

    /// The measure initializer in force, the default one where the part has
    /// none.
    pub fn get_cur_init_measure(&self) -> (m: MeasureInitializer)
        ensures
            m == self@.cur_init_measure(),
    {
        let fallback = MeasureInitializer::default();
        proof {
            fallback.tempo.lemma_of_raw();
        }
        match self.cur_init_measure_idx {
            None => fallback,
            Some(idx) => {
                if idx < self.elems.len() {
                    if let MusicElement::MeasureInit(measure_init) = self.elems[idx] {
                        measure_init
                    } else {
                        fallback
                    }
                } else {
                    fallback
                }
            },
        }
    }

    /// Where in the part the last measure initializer stands.
    pub fn get_cur_init_measure_idx(&self) -> (idx: Option<usize>)
        ensures
            idx == self@.cur_init_measure_idx,
    {
        self.cur_init_measure_idx
    }

    /// Puts a measure initializer at the end of the part and keeps its
    /// place.
    pub fn push_init_measure(&mut self, init_measure: MeasureInitializer)
        requires
            old(self).wf(),
        ensures
            final(self).wf(),
            final(self)@ == (MusicalPartView {
                elems: old(self)@.elems.push(MusicElement::MeasureInit(init_measure)),
                cur_init_measure_idx: Some(old(self)@.elems.len() as usize),
                ..old(self)@
            }),
            final(self)@.cur_init_measure() == init_measure,
    {
        self.elems.push(MusicElement::MeasureInit(init_measure));
        self.cur_init_measure_idx = Some(self.elems.len() - 1);
    }

    /// Puts a measure initializer at the end of the part if the part has
    /// none yet or has another one in force, and says whether it did: an
    /// initializer is written only where time signature, key or tempo
    /// change.
    pub fn update_init_measure(&mut self, init_measure: MeasureInitializer) -> (pushed: bool)
        requires
            old(self).wf(),
        ensures
            final(self).wf(),
            pushed == (old(self)@.cur_init_measure_idx is None || init_measure != old(
                self,
            )@.cur_init_measure()),
            final(self)@ == if pushed {
                MusicalPartView {
                    elems: old(self)@.elems.push(MusicElement::MeasureInit(init_measure)),
                    cur_init_measure_idx: Some(old(self)@.elems.len() as usize),
                    ..old(self)@
                }
            } else {
                old(self)@
            },
            final(self)@.cur_init_measure() == init_measure,
    {
        if self.cur_init_measure_idx.is_none() || init_measure != self.get_cur_init_measure() {
            self.push_init_measure(init_measure);
            true
        } else {
            false
        }
    }

    /// Opens a measure: a new measure checker with the meter of the measure
    /// initializer in force, and the start of the measure at the end of the
    /// part.
    pub fn push_meta_start(
        &mut self,
        meta_start: MeasureMetaData,
        forward_duration: usize,
        xml_measure_idx: usize,
    )
        requires
            old(self).wf(),
            old(self)@.cur_init_measure_idx is Some,
            old(self)@.divisions is Some,
        ensures
            final(self).wf(),
            final(self)@ == (MusicalPartView {
                elems: old(self)@.elems.push(MusicElement::MeasureMeta(meta_start)),
                measure_checker: Some(
                    MeasureCheckerView {
                        measure: Seq::<MusicElement>::empty(),
                        elems_since_backup: 0,
                        quarter_division: old(self)@.divisions->Some_0,
                        beats: old(self)@.cur_init_measure().beats,
                        beat_type: old(self)@.cur_init_measure().beat_type,
                        part_str: old(self)@.part_str,
                        measure_idx: xml_measure_idx,
                        forward_duration,
                    },
                ),
                ..old(self)@
            }),
    {
        let cur_init_measure = self.get_cur_init_measure();
        let divisions = match self.divisions {
            Some(d) => d,
            None => 0,
        };
        self.measure_checker = Some(
            MeasureChecker::new(
                divisions,
                &cur_init_measure,
                self.part_str.as_str(),
                xml_measure_idx,
                forward_duration,
            ),
        );
        self.elems.push(MusicElement::MeasureMeta(meta_start));
    }

    /// Hands an element to the open measure.
    pub fn push_measure_elem(&mut self, measure_elem: MusicElement)
        requires
            old(self).wf(),
            old(self)@.measure_checker is Some,
        ensures
            final(self).wf(),
            final(self)@ == (MusicalPartView {
                measure_checker: Some(
                    MeasureCheckerView {
                        measure: old(self)@.measure_checker->Some_0.measure.push(measure_elem),
                        elems_since_backup: old(self)@.measure_checker->Some_0.elems_since_backup
                            + 1,
                        ..old(self)@.measure_checker->Some_0
                    },
                ),
                ..old(self)@
            }),
    {
        match &mut self.measure_checker {
            Some(measure_checker) => {
                measure_checker.push_elem(measure_elem);
            },
            None => {},
        }
    }

    /// Tells the open measure of a backup: see
    /// `MeasureChecker::conform_backup_placeholder_rests`.
    pub fn update_backup_duration(&mut self, duration_val: usize) -> (r: Result<()>)
        requires
            old(self).wf(),
            old(self)@.measure_checker is Some,
        ensures
            final(self).wf(),
            ({
                let before = old(self)@.measure_checker->Some_0;
                let target = before.backup_target(duration_val);
                let ticks = before.ticks_since_backup();
                let voice = last_voice(before.since_backup()).next_voice();
                let fix = correction((ticks - target) as nat, before.quarter_division as nat, voice);
                if ticks <= target {
                    r is Ok && final(self)@ == (MusicalPartView {
                        measure_checker: Some(
                            MeasureCheckerView { elems_since_backup: 0, ..before },
                        ),
                        ..old(self)@
                    })
                } else if fix is Some {
                    r is Ok && final(self)@ == (MusicalPartView {
                        measure_checker: Some(
                            MeasureCheckerView {
                                measure: before.measure.push(fix->Some_0),
                                elems_since_backup: 0,
                                ..before
                            },
                        ),
                        ..old(self)@
                    })
                } else {
                    r == Err::<(), Error>(Error::UnrepresentableDuration) && final(self)@ == old(
                        self,
                    )@
                }
            }),
    {
        match &mut self.measure_checker {
            Some(measure_checker) => measure_checker.conform_backup_placeholder_rests(duration_val),
            None => Ok(()),
        }
    }

    /// Closes the open measure: its voices are made equally long, its
    /// elements move to the end of the part and the end of the measure
    /// follows them. Where a voice cannot be made as long as the first, the
    /// part stays as it is.
    pub fn push_meta_end(&mut self, meta_end: MeasureMetaData) -> (r: Result<()>)
        requires
            old(self).wf(),
            old(self)@.measure_checker is Some,
        ensures
            final(self).wf(),
            ({
                let before = old(self)@.measure_checker->Some_0;
                match before.equalized(old(self)@.voices.len() as int) {
                    Some(measure) => r is Ok && final(self)@ == (MusicalPartView {
                        elems: (old(self)@.elems + measure).push(MusicElement::MeasureMeta(meta_end)),
                        measure_checker: Some(
                            MeasureCheckerView {
                                measure: Seq::<MusicElement>::empty(),
                                elems_since_backup: 0,
                                ..before
                            },
                        ),
                        ..old(self)@
                    }),
                    None => r == Err::<(), Error>(Error::UnrepresentableDuration) && final(self)@
                        == old(self)@,
                }
            }),
    {
        match &mut self.measure_checker {
            Some(measure_checker) => {
                match measure_checker.remove_incomplete_voices(&self.voices) {
                    Ok(()) => {},
                    Err(e) => {
                        return Err(e);
                    },
                }
                self.elems.append(measure_checker.as_inner());
                measure_checker.restart();
                self.elems.push(MusicElement::MeasureMeta(meta_end));
                Ok(())
            },
            None => Ok(()),
        }
    }

    /// The number of the open measure.
    pub fn get_measure_idx(&self) -> (idx: usize)
        requires
            self@.measure_checker is Some,
        ensures
            idx == self@.measure_checker->Some_0.measure_idx,
    {
        match &self.measure_checker {
            Some(measure_checker) => measure_checker.measure_idx(),
            None => 0,
        }
    }

    /// Ticks to the quarter note in the open measure.
    pub fn get_cur_quarter_divisions(&self) -> (quarter: u32)
        requires
            self@.measure_checker is Some,
        ensures
            quarter == self@.measure_checker->Some_0.quarter_division,
    {
        match &self.measure_checker {
            Some(measure_checker) => measure_checker.quarter_division(),
            None => 0,
        }
    }

    /// Whether a measure was opened.
    pub fn has_measure(&self) -> (b: bool)
        ensures
            b == self@.measure_checker is Some,
    {
        self.measure_checker.is_some()
    }

    /// Finds the resolution and the voices that the elements ask for.
    ///
    /// The voices of the elements join the voices of the part. More than
    /// four voices are refused, and so are elements for which no resolution
    /// of 32 bits makes every note a whole number of ticks. Else the
    /// resolution becomes the least common multiple of the denominators that
    /// the notes have as fractions of a quarter note.
    pub fn update_divisions_voices(&mut self) -> (r: Result<()>)
        requires
            old(self)@.voices.finite(),
        ensures
            ({
                let voices = old(self)@.voices.union(voices_of(old(self)@.elems));
                let multiples = note_multiples(old(self)@.elems);
                if voices.len() > 4 {
                    r == Err::<(), Error>(Error::TooManyVoices) && final(self)@ == (MusicalPartView {
                        voices,
                        ..old(self)@
                    })
                } else if !lcm_fits(multiples) {
                    r == Err::<(), Error>(Error::UnrepresentableDuration) && final(self)@ == (
                    MusicalPartView { voices, ..old(self)@ })
                } else {
                    r is Ok && final(self)@.divisions is Some && is_lcm_of(
                        multiples,
                        final(self)@.divisions->Some_0 as nat,
                    ) && final(self)@ == (MusicalPartView {
                        voices,
                        divisions: final(self)@.divisions,
                        ..old(self)@
                    })
                }
            }),
            old(self).wf() && r is Ok ==> final(self).wf(),
    {
        let (integers_v, found) = scan_divisions_voices(&self.elems);
        let ghost before = self.voices@;
        let mut c: u8 = 0;
        while c < 4
            invariant
                c <= 4,
                before.finite(),
                found@ == voices_of(self.elems@),
                self.voices@ == before.union(found@.filter(|x: u8| x < c)),
                self.elems@ == old(self).elems@,
                self.divisions == old(self).divisions,
                checker_view(self.measure_checker) == checker_view(old(self).measure_checker),
                self.part_str@ == old(self).part_str@,
                self.cur_init_measure_idx == old(self).cur_init_measure_idx,
                self.cur_phrase_dyn == old(self).cur_phrase_dyn,
            decreases 4 - c,
        {
            if has_voice(&found, c) {
                insert_voice(&mut self.voices, c);
            }
            proof {
                let next = (c + 1) as u8;
                assert(before.union(found@.filter(|x: u8| x < next)) =~= if found@.contains(c) {
                    before.union(found@.filter(|x: u8| x < c)).insert(c)
                } else {
                    before.union(found@.filter(|x: u8| x < c))
                });
            }
            c = c + 1;
        }
        proof {
            super::divisions::lemma_voices_bounded(self.elems@);
            assert forall|v: u8| found@.contains(v) implies v < 4 by {
                let i = choose|i: int|
                    0 <= i < self.elems@.len() && (
                    #[trigger] self.elems@[i] matches MusicElement::NoteRest(n) && n.voice.numeric()
                        == v);
            }
            assert(found@.filter(|x: u8| x < 4u8) =~= found@);
        }
        if voice_count(&self.voices) > MusicalPart::MAX_SUPPORTED_VOICES {
            return Err(Error::TooManyVoices);
        }
        match integers_v.checked_find_lcm() {
            Some(divisions) => {
                self.divisions = Some(divisions);
                Ok(())
            },
            None => Err(Error::UnrepresentableDuration),
        }
    }
}

} // verus!
