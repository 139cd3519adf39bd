use super::elements::{MeasureInitializer, MusicElement, NoteData, TimeModification};
use super::notation::{BeatType, Beats, Chord, SpecialNote, Voice};
use super::rhythm::inferred_duration;
use super::voices::voice_count;
use crate::error::{Error, Result};
use std::collections::BTreeSet;
use vstd::prelude::*;
use vstd::string::*;

verus! {

/// The tuplet ratio in force after a run of elements: that of the last
/// tuplet marker, and none where there is no marker or the last one closes
/// a tuplet.
pub open spec fn time_mod_after(s: Seq<MusicElement>) -> Option<TimeModification>
    decreases s.len(),
{
    if s.len() == 0 {
        None
    } else {
        match s.last() {
            MusicElement::Tuplet(t) => t.time_modification(),
            _ => time_mod_after(s.drop_last()),
        }
    }
}

/// The voice of the last note or rest in a run of elements; the first voice
/// where there is none.
pub open spec fn last_voice(s: Seq<MusicElement>) -> Voice
    decreases s.len(),
{
    if s.len() == 0 {
        Voice::One
    } else {
        match s.last() {
            MusicElement::NoteRest(n) => n.voice,
            _ => last_voice(s.drop_last()),
        }
    }
}

/// The ticks that an element adds to the time since a backup: the duration
/// of a note or rest that is no chord note, nothing for anything else.
pub open spec fn counted_ticks(
    e: MusicElement,
    time_mod: Option<TimeModification>,
    quarter: nat,
    beats: Beats,
    beat_type: BeatType,
) -> nat {
    match e {
        MusicElement::NoteRest(n) => if n.chord == Chord::NoChord {
            n.duration_ticks(quarter, beats.count(), beat_type.count(), time_mod)
        } else {
            0
        },
        _ => 0,
    }
}

/// The ticks of a run of elements, each note under the tuplet ratio that
/// the markers before it in the run put in force.
pub open spec fn tally(s: Seq<MusicElement>, quarter: nat, beats: Beats, beat_type: BeatType) -> nat
    decreases s.len(),
{
    if s.len() == 0 {
        0
    } else {
        tally(s.drop_last(), quarter, beats, beat_type) + counted_ticks(
            s.last(),
            time_mod_after(s.drop_last()),
            quarter,
            beats,
            beat_type,
        )
    }
}

/// The ticks that an element adds to the length of a voice: the duration of
/// a note or rest of that voice that is no chord note and no grace note.
pub open spec fn voice_ticks(
    e: MusicElement,
    voice: Voice,
    time_mod: Option<TimeModification>,
    quarter: nat,
    beats: Beats,
    beat_type: BeatType,
) -> nat {
    match e {
        MusicElement::NoteRest(n) => if n.voice == voice && n.chord == Chord::NoChord
            && n.special_note == SpecialNote::NoSpecial {
            n.duration_ticks(quarter, beats.count(), beat_type.count(), time_mod)
        } else {
            0
        },
        _ => 0,
    }
}

/// The length of a voice in a run of elements, in ticks.
pub open spec fn voice_tally(
    s: Seq<MusicElement>,
    voice: Voice,
    quarter: nat,
    beats: Beats,
    beat_type: BeatType,
) -> nat
    decreases s.len(),
{
    if s.len() == 0 {
        0
    } else {
        voice_tally(s.drop_last(), voice, quarter, beats, beat_type) + voice_ticks(
            s.last(),
            voice,
            time_mod_after(s.drop_last()),
            quarter,
            beats,
            beat_type,
        )
    }
}

/// The place recorded for a voice: each time a note of a higher voice
/// follows a note of the voice, the place just before that last note of the
/// voice. 0 where no higher voice follows.
pub open spec fn recorded_index(s: Seq<MusicElement>, voice: Voice) -> nat
    decreases s.len(),
{
    if s.len() == 0 {
        0
    } else {
        let front = s.drop_last();
        match s.last() {
            MusicElement::NoteRest(n) => if n.voice.numeric() > last_voice(front).numeric()
                && last_voice(front) == voice {
                if front.len() >= 1 {
                    (front.len() - 1) as nat
                } else {
                    0
                }
            } else {
                recorded_index(front, voice)
            },
            _ => recorded_index(front, voice),
        }
    }
}

/// The rest that makes up for `missing` ticks in a voice: of the type and
/// with the dot that the ticks stand for, a tuplet being left aside. None
/// where the ticks stand for no note type.
pub open spec fn correction(missing: nat, quarter: nat, voice: Voice) -> Option<MusicElement> {
    if missing > u32::MAX {
        None
    } else {
        match inferred_duration(missing, quarter) {
            Some((note_type, dotted, _)) => Some(
                MusicElement::NoteRest(NoteData::default_rest(note_type, dotted, voice)),
            ),
            None => None,
        }
    }
}

/// The voice with a given number, the first voice being 0.
pub open spec fn voice_at(index: int) -> Voice {
    Voice::of_numeric(index as u8)->Some_0
}

/// Whether a voice is shorter than the first voice without being empty.
pub open spec fn falls_short(
    given: Seq<MusicElement>,
    voice: Voice,
    quarter: nat,
    beats: Beats,
    beat_type: BeatType,
) -> bool {
    let length = voice_tally(given, voice, quarter, beats, beat_type);
    length != 0 && length < voice_tally(given, Voice::One, quarter, beats, beat_type)
}

/// The ticks by which a voice is shorter than the first voice.
pub open spec fn shortfall(
    given: Seq<MusicElement>,
    voice: Voice,
    quarter: nat,
    beats: Beats,
    beat_type: BeatType,
) -> nat {
    (voice_tally(given, Voice::One, quarter, beats, beat_type) - voice_tally(
        given,
        voice,
        quarter,
        beats,
        beat_type,
    )) as nat
}

/// The measure after the voices numbered `from` up to `count` have been
/// made as long as the first voice. `given` is the measure as it was and
/// `current` the measure as it stands: for each of the voices that falls
/// short in `given`, the rest for its shortfall is put into `current` at the
/// place recorded for the voice in `given`. None where a shortfall stands
/// for no note type.
pub open spec fn equalized(
    given: Seq<MusicElement>,
    current: Seq<MusicElement>,
    from: int,
    count: int,
    quarter: nat,
    beats: Beats,
    beat_type: BeatType,
) -> Option<Seq<MusicElement>>
    decreases count - from,
{
    if from >= count {
        Some(current)
    } else if falls_short(given, voice_at(from), quarter, beats, beat_type) {
        match correction(
            shortfall(given, voice_at(from), quarter, beats, beat_type),
            quarter,
            voice_at(from),
        ) {
            Some(rest) => equalized(
                given,
                current.insert(recorded_index(given, voice_at(from)) as int, rest),
                from + 1,
                count,
                quarter,
                beats,
                beat_type,
            ),
            None => None,
        }
    } else {
        equalized(given, current, from + 1, count, quarter, beats, beat_type)
    }
}

/// What a measure checker holds.
pub struct MeasureCheckerView {
    /// The elements of the measure so far.
    pub measure: Seq<MusicElement>,
    /// How many of them came after the last backup.
    pub elems_since_backup: nat,
    /// Ticks to the quarter note.
    pub quarter_division: u32,
    pub beats: Beats,
    pub beat_type: BeatType,
    /// The id of the part that the measure belongs to.
    pub part_str: Seq<char>,
    /// The number of the measure in its part.
    pub measure_idx: usize,
    /// Ticks that the measure skips forward at its start.
    pub forward_duration: usize,
}

impl MeasureCheckerView {
    /// The elements that came after the last backup.
    pub open spec fn since_backup(self) -> Seq<MusicElement> {
        self.measure.skip(self.measure.len() - self.elems_since_backup)
    }

    /// The ticks of the notes and rests that came after the last backup.
    pub open spec fn ticks_since_backup(self) -> nat {
        tally(self.since_backup(), self.quarter_division as nat, self.beats, self.beat_type)
    }

    /// The ticks that a backup of `backup_duration` reaches back once the
    /// ticks skipped forward are taken off.
    pub open spec fn backup_target(self, backup_duration: usize) -> nat {
        if backup_duration >= self.forward_duration {
            (backup_duration - self.forward_duration) as nat
        } else {
            0
        }
    }

    /// The measure with every voice up to `count` made as long as the
    /// first.
    pub open spec fn equalized(self, count: int) -> Option<Seq<MusicElement>> {
        equalized(
            self.measure,
            self.measure,
            0,
            count,
            self.quarter_division as nat,
            self.beats,
            self.beat_type,
        )
    }
}

/// Collects the elements of one measure and keeps its voices equally long.
///
/// A backup says how far the notes since the last backup reach. Where they
/// reach further, a rest takes up the difference. At the end of the measure,
/// every voice that is shorter than the first gets a rest for what it lacks.
#[derive(Clone, Debug, PartialEq, Eq)]
pub struct MeasureChecker {
    measure: Vec<MusicElement>,
    elems_since_backup: usize,
    quarter_division: u32,
    beats: Beats,
    beat_type: BeatType,
    part_str: String,
    measure_idx: usize,
    forward_duration: usize,
}

impl View for MeasureChecker {
    type V = MeasureCheckerView;

    closed spec fn view(&self) -> MeasureCheckerView {
        MeasureCheckerView {
            measure: self.measure@,
            elems_since_backup: self.elems_since_backup as nat,
            quarter_division: self.quarter_division,
            beats: self.beats,
            beat_type: self.beat_type,
            part_str: self.part_str@,
            measure_idx: self.measure_idx,
            forward_duration: self.forward_duration,
        }
    }
}

/// `take(i + 1)` is `take(i)` and one element more.
proof fn lemma_take_step(s: Seq<MusicElement>, i: int)
    requires
        0 <= i < s.len(),
    ensures
        s.take(i + 1).drop_last() == s.take(i),
        s.take(i + 1).last() == s[i],
        s.take(i + 1).len() == i + 1,
{
    assert(s.take(i + 1).drop_last() =~= s.take(i));
}

/// No duration is longer than the longest dotted whole rest in a tuplet.
proof fn lemma_duration_bound(
    n: NoteData,
    quarter: nat,
    beats: Beats,
    beat_type: BeatType,
    time_mod: Option<TimeModification>,
)
    ensures
        n.duration_ticks(quarter, beats.count(), beat_type.count(), time_mod) <= quarter * 2304,
{
    let numerator = super::duration::scale_numerator(n.dotted, time_mod);
    let denominator = super::duration::scale_denominator(n.dotted, time_mod);
    if time_mod is Some {
        time_mod->Some_0.normal_notes.lemma_count_inverse(0);
        time_mod->Some_0.actual_notes.lemma_count_inverse(0);
    }
    let b = beats.count();
    let t = beat_type.count();
    assert(1 <= numerator <= 48 && 1 <= denominator <= 50 && 2 <= b <= 12 && 2 <= t <= 16)
        by (nonlinear_arith)
        requires
            numerator == (if n.dotted {
                3nat
            } else {
                1nat
            }) * (match time_mod {
                Some(t) => t.normal_notes.count(),
                None => 1nat,
            }),
            denominator == (if n.dotted {
                2nat
            } else {
                1nat
            }) * (match time_mod {
                Some(t) => t.actual_notes.count(),
                None => 1nat,
            }),
            time_mod is Some ==> 1 <= time_mod->Some_0.normal_notes.count() <= 16 && 2
                <= time_mod->Some_0.actual_notes.count() <= 25,
            2 <= b <= 12,
            2 <= t <= 16,
    ;
    assert(forall|x: int, d: int| 0 <= x && 1 <= d ==> 0 <= #[trigger] (x / d) <= x)
        by (nonlinear_arith);
    assert(quarter * numerator <= quarter * 48 && quarter * 2 * numerator <= quarter * 96 && quarter
        * 4 * numerator <= quarter * 192 && quarter * numerator * b * 4 <= quarter * 2304)
        by (nonlinear_arith)
        requires
            numerator <= 48,
            b <= 12,
    ;
}

impl MeasureChecker {
    /// A part has at most this many voices.
    pub const MAX_SUPPORTED_VOICES: usize = 4;

    /// Whether no more elements are counted since the last backup than the
    /// measure holds.
    pub open spec fn wf(&self) -> bool {
        self@.elems_since_backup <= self@.measure.len()
    }

    /// An empty measure with the resolution and the meter given.
    pub fn new(
        quarter_division: u32,
        measure_init: &MeasureInitializer,
        part_str: &str,
        measure_idx: usize,
        forward_duration: usize,
    ) -> (checker: MeasureChecker)
        ensures
            checker@ == (MeasureCheckerView {
                measure: Seq::<MusicElement>::empty(),
                elems_since_backup: 0,
                quarter_division,
                beats: measure_init.beats,
                beat_type: measure_init.beat_type,
                part_str: part_str@,
                measure_idx,
                forward_duration,
            }),
            checker.wf(),
    {
        MeasureChecker {
            measure: Vec::new(),
            elems_since_backup: 0,
            quarter_division,
            beats: measure_init.beats,
            beat_type: measure_init.beat_type,
            part_str: String::from_str(part_str),
            measure_idx,
            forward_duration,
        }
    }

    /// Takes the next element of the measure.
    pub fn push_elem(&mut self, elem: MusicElement)
        requires
            old(self).wf(),
        ensures
            final(self)@ == (MeasureCheckerView {
                measure: old(self)@.measure.push(elem),
                elems_since_backup: old(self)@.elems_since_backup + 1,
                ..old(self)@
            }),
            final(self).wf(),
    {
        self.measure.push(elem);
        let held: usize = self.measure.len();
        assert(self.elems_since_backup < held);
        self.elems_since_backup = self.elems_since_backup + 1;
    }

    /// Ticks to the quarter note.
    pub fn quarter_division(&self) -> (quarter: u32)
        ensures
            quarter == self@.quarter_division,
    {
        self.quarter_division
    }

    /// The number of the measure in its part.
    pub fn measure_idx(&self) -> (idx: usize)
        ensures
            idx == self@.measure_idx,
    {
        self.measure_idx
    }

    /// The ticks of the elements from `start` on, and the voice of the last
    /// note among them.
    fn duration_since(&self, start: usize) -> (r: (u128, Voice))
        requires
            start <= self@.measure.len(),
        ensures
            r.0 == tally(
                self@.measure.skip(start as int),
                self@.quarter_division as nat,
                self@.beats,
                self@.beat_type,
            ),
            r.1 == last_voice(self@.measure.skip(start as int)),
    {
        let ghost run = self.measure@.skip(start as int);
        let ghost quarter = self.quarter_division as nat;
        let mut time_mod: Option<TimeModification> = None;
        let mut current_voice = Voice::One;
        let mut sum: u128 = 0;
        let mut i: usize = start;
        while i < self.measure.len()
            invariant
                start <= i <= self.measure@.len(),
                run == self.measure@.skip(start as int),
                quarter == self.quarter_division,
                time_mod == time_mod_after(run.take(i - start)),
                current_voice == last_voice(run.take(i - start)),
                sum == tally(run.take(i - start), quarter, self.beats, self.beat_type),
                sum <= (i - start) * (quarter * 2304),
            decreases self.measure@.len() - i,
        {
            let element = self.measure[i];
            proof {
                lemma_take_step(run, i - start);
                assert(run[i - start] == self.measure@[i as int]);
                assert((i - start) * (quarter * 2304) + quarter * 2304 == (i + 1 - start) * (quarter
                    * 2304)) by (nonlinear_arith);
                assert((i + 1 - start) * (quarter * 2304) <= 0xffff_ffff_ffff_ffff * (0xffff_ffff
                    * 2304)) by (nonlinear_arith)
                    requires
                        0 <= i + 1 - start <= 0xffff_ffff_ffff_ffff,
                        quarter <= 0xffff_ffff,
                ;
            }
            match element {
                MusicElement::NoteRest(n) => {
                    current_voice = n.voice;
                    if n.chord == Chord::NoChord {
                        proof {
                            lemma_duration_bound(n, quarter, self.beats, self.beat_type, time_mod);
                        }
                        let ticks = n.duration_wide(
                            self.quarter_division,
                            self.beats.as_u32(),
                            self.beat_type.as_u32(),
                            time_mod,
                        );
                        sum = sum + ticks;
                    }
                },
                MusicElement::Tuplet(t) => {
                    time_mod = t.to_time_modification();
                },
                _ => {},
            }
            i = i + 1;
        }
        assert(run.take(i - start) =~= run);
        (sum, current_voice)
    }

    /// Holds the ticks since the last backup against the ticks that the
    /// backup reaches back, once the ticks skipped forward are taken off.
    ///
    /// Where the notes since the last backup last longer, a rest for the
    /// difference is put at the end, in the voice after that of the last
    /// note. A new count of elements starts. Where the difference stands for
    /// no note type, nothing changes and the difference is reported as
    /// unrepresentable.
    pub fn conform_backup_placeholder_rests(&mut self, backup_duration: usize) -> (r: Result<()>)
        requires
            old(self).wf(),
        ensures
            final(self).wf(),
            ({
                let before = old(self)@;
                let target = before.backup_target(backup_duration);
                let ticks = before.ticks_since_backup();
                let voice = last_voice(before.since_backup()).next_voice();
                if ticks <= target {
                    r is Ok && final(self)@ == (MeasureCheckerView {
                        elems_since_backup: 0,
                        ..before
                    })
                } else {
                    match correction(
                        (ticks - target) as nat,
                        before.quarter_division as nat,
                        voice,
                    ) {
                        Some(rest) => r is Ok && final(self)@ == (MeasureCheckerView {
                            measure: before.measure.push(rest),
                            elems_since_backup: 0,
                            ..before
                        }),
                        None => r == Err::<(), Error>(Error::UnrepresentableDuration) && final(self)@ == before,
                    }
                }
            }),
    {
        let target: usize = if backup_duration >= self.forward_duration {
            backup_duration - self.forward_duration
        } else {
            0
        };
        let last_backup_idx: usize = self.measure.len() - self.elems_since_backup;
        let (duration_since_backup, current_voice) = self.duration_since(last_backup_idx);
        if duration_since_backup > target as u128 {
            let discrepancy: u128 = duration_since_backup - target as u128;
            if discrepancy > u32::MAX as u128 {
                return Err(Error::UnrepresentableDuration);
            }
            match NoteData::from_numeric_duration(discrepancy as u32, self.quarter_division) {
                Some((duration, is_dotted, _)) => {
                    self.measure.push(
                        MusicElement::NoteRest(
                            NoteData::new_default_rest(duration, is_dotted, current_voice.next()),
                        ),
                    );
                },
                None => {
                    return Err(Error::UnrepresentableDuration);
                },
            }
        }
        self.clear_elems_since_backup();
        Ok(())
    }

    /// Starts a new count of the elements since the last backup.
    pub fn clear_elems_since_backup(&mut self)
        ensures
            final(self)@ == (MeasureCheckerView { elems_since_backup: 0, ..old(self)@ }),
            final(self).wf(),
    {
        self.elems_since_backup = 0;
    }

    /// Starts a new count once the elements were moved away.
    pub(crate) fn restart(&mut self)
        ensures
            final(self)@ == (MeasureCheckerView { elems_since_backup: 0, ..old(self)@ }),
    {
        self.elems_since_backup = 0;
    }

    /// Hands out the elements of the measure, to be read, changed or moved
    /// away.
    pub fn as_inner(&mut self) -> (inner: &mut Vec<MusicElement>)
        ensures
            inner@ == old(self)@.measure,
            final(self)@ == (MeasureCheckerView { measure: final(inner)@, ..old(self)@ }),
    {
        &mut self.measure
    }

    /// The length of each of the four voices, and the place recorded for
    /// each.
    fn voice_lengths(&self) -> (r: (Vec<u128>, Vec<usize>))
        ensures
            r.0@.len() == 4,
            r.1@.len() == 4,
            forall|v: int|
                0 <= v < 4 ==> r.0@[v] == voice_tally(
                    self@.measure,
                    #[trigger] voice_at(v),
                    self@.quarter_division as nat,
                    self@.beats,
                    self@.beat_type,
                ),
            forall|v: int|
                0 <= v < 4 ==> r.1@[v] == recorded_index(self@.measure, #[trigger] voice_at(v)),
            forall|v: int| 0 <= v < 4 ==> r.1@[v] <= self@.measure.len(),
    {
        let ghost s = self.measure@;
        let ghost quarter = self.quarter_division as nat;
        let mut voice_durations: Vec<u128> = vec![0, 0, 0, 0];
        let mut voice_last_idx: Vec<usize> = vec![0, 0, 0, 0];
        let mut time_mod: Option<TimeModification> = None;
        let mut prev_voice: usize = 0;
        let mut idx: usize = 0;
        proof {
            Voice::One.lemma_numeric_inverse(0);
        }
        while idx < self.measure.len()
            invariant
                idx <= self.measure@.len(),
                s == self.measure@,
                quarter == self.quarter_division,
                voice_durations@.len() == 4,
                voice_last_idx@.len() == 4,
                prev_voice < 4,
                prev_voice == last_voice(s.take(idx as int)).numeric(),
                time_mod == time_mod_after(s.take(idx as int)),
                forall|v: int|
                    0 <= v < 4 ==> voice_durations@[v] == voice_tally(
                        s.take(idx as int),
                        #[trigger] voice_at(v),
                        quarter,
                        self.beats,
                        self.beat_type,
                    ),
                forall|v: int| 0 <= v < 4 ==> voice_durations@[v] <= idx * (quarter * 2304),
                forall|v: int|
                    0 <= v < 4 ==> voice_last_idx@[v] == recorded_index(
                        s.take(idx as int),
                        #[trigger] voice_at(v),
                    ),
                forall|v: int| 0 <= v < 4 ==> voice_last_idx@[v] <= idx,
            decreases self.measure@.len() - idx,
        {
            let elem = self.measure[idx];
            let ghost before = s.take(idx as int);
            let ghost after = s.take(idx + 1);
            proof {
                lemma_take_step(s, idx as int);
                assert(idx * (quarter * 2304) + quarter * 2304 == (idx + 1) * (quarter * 2304))
                    by (nonlinear_arith);
                assert((idx + 1) * (quarter * 2304) <= 0xffff_ffff_ffff_ffff * (0xffff_ffff * 2304))
                    by (nonlinear_arith)
                    requires
                        0 <= idx + 1 <= 0xffff_ffff_ffff_ffff,
                        quarter <= 0xffff_ffff,
                ;
                assert forall|v: int| 0 <= v < 4 implies (#[trigger] voice_at(v)).numeric() == v by {
                    Voice::One.lemma_numeric_inverse(v as u8);
                    voice_at(v).lemma_numeric_inverse(v as u8);
                }
            }
            match elem {
                MusicElement::Tuplet(t) => {
                    time_mod = t.to_time_modification();
                },
                MusicElement::NoteRest(n) => {
                    let voice: usize = n.voice.to_numeric() as usize;
                    proof {
                        n.voice.lemma_numeric_inverse(voice as u8);
                        lemma_duration_bound(n, quarter, self.beats, self.beat_type, time_mod);
                    }
                    if n.chord == Chord::NoChord && n.special_note == SpecialNote::NoSpecial {
                        let ticks = n.duration_wide(
                            self.quarter_division,
                            self.beats.as_u32(),
                            self.beat_type.as_u32(),
                            time_mod,
                        );
                        let longer: u128 = voice_durations[voice] + ticks;
                        voice_durations.set(voice, longer);
                    }
                    if voice > prev_voice {
                        let place: usize = if idx > 0 {
                            idx - 1
                        } else {
                            0
                        };
                        voice_last_idx.set(prev_voice, place);
                    }
                    prev_voice = voice;
                },
                _ => {},
            }
            idx = idx + 1;
        }
        assert(s.take(idx as int) =~= s);
        (voice_durations, voice_last_idx)
    }

    /// Makes every voice as long as the first.
    ///
    /// `voices` holds the voices of the part, and their number says how many
    /// voices are looked at, from the first on. To each of them that is
    /// neither empty nor as long as the first voice, a rest for what it lacks
    /// is added, at the place recorded for the voice. Where a difference
    /// stands for no note type, nothing changes and the difference is
    /// reported as unrepresentable; more than four voices are refused.
    pub fn remove_incomplete_voices(&mut self, voices: &BTreeSet<u8>) -> (r: Result<()>)
        ensures
            ({
                let before = old(self)@;
                if voices@.len() > 4 {
                    r == Err::<(), Error>(Error::TooManyVoices) && final(self)@ == before
                } else {
                    match before.equalized(voices@.len() as int) {
                        Some(measure) => r is Ok && final(self)@ == (MeasureCheckerView {
                            measure,
                            ..before
                        }),
                        None => r == Err::<(), Error>(Error::UnrepresentableDuration) && final(self)@ == before,
                    }
                }
            }),
            old(self).wf() && r is Ok ==> final(self).wf(),
    {
        let count: usize = voice_count(voices);
        if count > Self::MAX_SUPPORTED_VOICES {
            return Err(Error::TooManyVoices);
        }
        let ghost given = self.measure@;
        let ghost quarter = self.quarter_division as nat;
        let (voice_durations, voice_last_idx) = self.voice_lengths();
        let first_voice_duration: u128 = voice_durations[0];
        let mut measure: Vec<MusicElement> = Vec::new();
        let mut k: usize = 0;
        while k < self.measure.len()
            invariant
                k <= self.measure@.len(),
                given == self.measure@,
                measure@ == given.take(k as int),
            decreases self.measure@.len() - k,
        {
            measure.push(self.measure[k]);
            proof {
                assert(given.take(k as int).push(given[k as int]) =~= given.take(k + 1));
            }
            k = k + 1;
        }
        assert(measure@ =~= given);
        proof {
            Voice::One.lemma_numeric_inverse(0);
        }
        let mut voice_idx: usize = 0;
        while voice_idx < count
            invariant
                voice_idx <= count <= 4,
                count == voices@.len(),
                self@ == old(self)@,
                given == self.measure@,
                quarter == self.quarter_division,
                given.len() <= measure@.len() <= given.len() + voice_idx,
                voice_durations@.len() == 4,
                voice_last_idx@.len() == 4,
                first_voice_duration == voice_durations@[0],
                voice_at(0) == Voice::One,
                forall|v: int|
                    0 <= v < 4 ==> voice_durations@[v] == voice_tally(
                        given,
                        #[trigger] voice_at(v),
                        quarter,
                        self.beats,
                        self.beat_type,
                    ),
                forall|v: int|
                    0 <= v < 4 ==> voice_last_idx@[v] == recorded_index(
                        given,
                        #[trigger] voice_at(v),
                    ),
                forall|v: int| 0 <= v < 4 ==> voice_last_idx@[v] <= given.len(),
                equalized(
                    given,
                    given,
                    0,
                    count as int,
                    quarter,
                    self.beats,
                    self.beat_type,
                ) == equalized(
                    given,
                    measure@,
                    voice_idx as int,
                    count as int,
                    quarter,
                    self.beats,
                    self.beat_type,
                ),
            decreases count - voice_idx,
        {
            let length: u128 = voice_durations[voice_idx];
            assert(length == voice_tally(
                given,
                voice_at(voice_idx as int),
                quarter,
                self.beats,
                self.beat_type,
            ));
            if length != 0 && length < first_voice_duration {
                let discrepancy: u128 = first_voice_duration - length;
                if discrepancy > u32::MAX as u128 {
                    return Err(Error::UnrepresentableDuration);
                }
                let voice = match Voice::from_numeric(voice_idx as u8) {
                    Ok(voice) => voice,
                    Err(_) => {
                        proof {
                            Voice::One.lemma_numeric_inverse(voice_idx as u8);
                        }
                        Voice::One
                    },
                };
                match NoteData::from_numeric_duration(discrepancy as u32, self.quarter_division) {
                    Some((duration, is_dotted, _)) => {
                        measure.insert(
                            voice_last_idx[voice_idx],
                            MusicElement::NoteRest(
                                NoteData::new_default_rest(duration, is_dotted, voice),
                            ),
                        );
                    },
                    None => {
                        return Err(Error::UnrepresentableDuration);
                    },
                }
            }
            voice_idx = voice_idx + 1;
        }
        self.measure = measure;
        Ok(())
    }
}

impl Voice {
    /// The voice after this one, the first voice coming after the fourth.
    pub open spec fn next_voice(self) -> Voice {
        match self {
            Voice::One => Voice::Two,
            Voice::Two => Voice::Three,
            Voice::Three => Voice::Four,
            Voice::Four => Voice::One,
        }
    }

    /// The voice after this one, the first voice coming after the fourth.
    pub fn next(&self) -> (voice: Voice)
        ensures
            voice == self.next_voice(),
    {
        match self {
            Voice::One => Voice::Two,
            Voice::Two => Voice::Three,
            Voice::Three => Voice::Four,
            Voice::Four => Voice::One,
        }
    }
}

} // verus!
