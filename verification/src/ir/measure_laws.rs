//! What making the voices of a measure equally long achieves.

use super::duration_laws::{lemma_exact_everywhere, lemma_inferred_duration_sound};
use super::elements::{MusicElement, NoteData, TimeModification};
use super::measure_checker::{
    correction, equalized, falls_short, recorded_index, shortfall, time_mod_after, voice_at,
    voice_tally, voice_ticks,
};
use super::notation::{BeatType, Beats, RhythmType, Voice};
use super::rhythm::inferred_duration;
use vstd::prelude::*;

verus! {

/// Putting in a note or rest leaves the tuplet ratio at the end as it was.
pub proof fn lemma_time_mod_insert(s: Seq<MusicElement>, i: int, e: MusicElement)
    requires
        0 <= i <= s.len(),
        e is NoteRest,
    ensures
        time_mod_after(s.insert(i, e)) == time_mod_after(s),
    decreases s.len(),
{
    let longer = s.insert(i, e);
    if i == s.len() {
        assert(longer.drop_last() =~= s);
    } else {
        assert(longer.drop_last() =~= s.drop_last().insert(i, e));
        assert(longer.last() == s.last());
        lemma_time_mod_insert(s.drop_last(), i, e);
    }
}

/// Putting in a note or rest makes its voice longer by the ticks that it
/// lasts at its place, and leaves the other voices as long as they were.
pub proof fn lemma_voice_tally_insert(
    s: Seq<MusicElement>,
    i: int,
    e: MusicElement,
    voice: Voice,
    quarter: nat,
    beats: Beats,
    beat_type: BeatType,
)
    requires
        0 <= i <= s.len(),
        e is NoteRest,
    ensures
        voice_tally(s.insert(i, e), voice, quarter, beats, beat_type) == voice_tally(
            s,
            voice,
            quarter,
            beats,
            beat_type,
        ) + voice_ticks(e, voice, time_mod_after(s.take(i)), quarter, beats, beat_type),
    decreases s.len(),
{
    let longer = s.insert(i, e);
    if i == s.len() {
        assert(longer.drop_last() =~= s);
        assert(s.take(i) =~= s);
    } else {
        assert(longer.drop_last() =~= s.drop_last().insert(i, e));
        assert(longer.last() == s.last());
        assert(s.drop_last().take(i) =~= s.take(i));
        lemma_time_mod_insert(s.drop_last(), i, e);
        lemma_voice_tally_insert(s.drop_last(), i, e, voice, quarter, beats, beat_type);
    }
}

/// The place recorded for a voice lies inside the measure.
pub proof fn lemma_recorded_index_bound(s: Seq<MusicElement>, voice: Voice)
    ensures
        recorded_index(s, voice) <= s.len(),
    decreases s.len(),
{
    if s.len() > 0 {
        lemma_recorded_index_bound(s.drop_last(), voice);
    }
}

/// Whether each rest that equalizing puts in lasts, at its place, as long
/// as its voice falls short: the condition under which the voices come out
/// equally long. `current` is the measure as it stands when the voice
/// numbered `from` is looked at.
pub open spec fn corrections_fill(
    given: Seq<MusicElement>,
    current: Seq<MusicElement>,
    from: int,
    count: int,
    quarter: nat,
    beats: Beats,
    beat_type: BeatType,
) -> bool
    decreases count - from,
{
    if from >= count {
        true
    } else if falls_short(given, voice_at(from), quarter, beats, beat_type) {
        let missing = shortfall(given, voice_at(from), quarter, beats, beat_type);
        let place = recorded_index(given, voice_at(from)) as int;
        match correction(missing, quarter, voice_at(from)) {
            Some(rest) => {
                &&& voice_ticks(
                    rest,
                    voice_at(from),
                    time_mod_after(current.take(place)),
                    quarter,
                    beats,
                    beat_type,
                ) == missing
                &&& corrections_fill(
                    given,
                    current.insert(place, rest),
                    from + 1,
                    count,
                    quarter,
                    beats,
                    beat_type,
                )
            },
            None => true,
        }
    } else {
        corrections_fill(given, current, from + 1, count, quarter, beats, beat_type)
    }
}

/// The voices are the four that the numbers 0 to 3 stand for.
proof fn lemma_voice_numbers(voice: Voice)
    ensures
        voice_at(voice.numeric() as int) == voice,
        0 <= voice.numeric() < 4,
        forall|v: int| 0 <= v < 4 ==> (#[trigger] voice_at(v)).numeric() == v,
        voice_at(0) == Voice::One,
{
    voice.lemma_numeric_inverse(0);
    assert forall|v: int| 0 <= v < 4 implies (#[trigger] voice_at(v)).numeric() == v by {
        Voice::One.lemma_numeric_inverse(v as u8);
        voice_at(v).lemma_numeric_inverse(v as u8);
    }
}

/// How long each voice is after the voices numbered `from` up to `count`
/// were looked at: as long as before, and longer by what it fell short if
/// it is one of them and fell short.
proof fn lemma_equalized_tallies(
    given: Seq<MusicElement>,
    current: Seq<MusicElement>,
    from: int,
    count: int,
    quarter: nat,
    beats: Beats,
    beat_type: BeatType,
    voice: Voice,
)
    requires
        0 <= from <= count <= 4,
        given.len() <= current.len(),
        equalized(given, current, from, count, quarter, beats, beat_type) is Some,
        corrections_fill(given, current, from, count, quarter, beats, beat_type),
    ensures
        voice_tally(
            equalized(given, current, from, count, quarter, beats, beat_type)->Some_0,
            voice,
            quarter,
            beats,
            beat_type,
        ) == voice_tally(current, voice, quarter, beats, beat_type) + if from <= voice.numeric()
            < count && falls_short(given, voice, quarter, beats, beat_type) {
            shortfall(given, voice, quarter, beats, beat_type)
        } else {
            0
        },
    decreases count - from,
{
    lemma_voice_numbers(voice);
    if from >= count {
    } else if falls_short(given, voice_at(from), quarter, beats, beat_type) {
        let missing = shortfall(given, voice_at(from), quarter, beats, beat_type);
        let place = recorded_index(given, voice_at(from)) as int;
        let rest = correction(missing, quarter, voice_at(from))->Some_0;
        lemma_recorded_index_bound(given, voice_at(from));
        lemma_voice_tally_insert(current, place, rest, voice, quarter, beats, beat_type);
        lemma_equalized_tallies(
            given,
            current.insert(place, rest),
            from + 1,
            count,
            quarter,
            beats,
            beat_type,
            voice,
        );
    } else {
        lemma_equalized_tallies(
            given,
            current,
            from + 1,
            count,
            quarter,
            beats,
            beat_type,
            voice,
        );
    }
}

/// After the voices were made equally long, every voice that is looked at
/// and is not empty is as long as the first.
///
/// This holds of a measure in which no voice is longer than the first, and
/// where each rest that is put in lasts, at its place, as long as its voice
/// falls short.
pub proof fn lemma_voices_equalized(
    given: Seq<MusicElement>,
    count: int,
    quarter: nat,
    beats: Beats,
    beat_type: BeatType,
    voice: Voice,
)
    requires
        0 <= count <= 4,
        equalized(given, given, 0, count, quarter, beats, beat_type) is Some,
        corrections_fill(given, given, 0, count, quarter, beats, beat_type),
        forall|v: int|
            0 <= v < count ==> voice_tally(given, #[trigger] voice_at(v), quarter, beats, beat_type)
                <= voice_tally(given, Voice::One, quarter, beats, beat_type),
        voice.numeric() < count,
    ensures
        ({
            let measure = equalized(given, given, 0, count, quarter, beats, beat_type)->Some_0;
            let length = voice_tally(measure, voice, quarter, beats, beat_type);
            length != 0 ==> length == voice_tally(measure, Voice::One, quarter, beats, beat_type)
        }),
{
    lemma_voice_numbers(voice);
    lemma_equalized_tallies(given, given, 0, count, quarter, beats, beat_type, voice);
    lemma_equalized_tallies(given, given, 0, count, quarter, beats, beat_type, Voice::One);
    assert(voice_tally(given, voice_at(voice.numeric() as int), quarter, beats, beat_type)
        <= voice_tally(given, Voice::One, quarter, beats, beat_type));
}

/// A rest lasts as long as its voice falls short where no tuplet is in
/// force at its place, the resolution is a multiple of 32, the ticks that
/// are missing stand for a note type without a tuplet, and a whole rest, if
/// it is one, fills four quarters in the meter of the measure.
pub proof fn lemma_rest_fills(
    missing: nat,
    quarter: nat,
    voice: Voice,
    beats: Beats,
    beat_type: BeatType,
)
    requires
        quarter % 32 == 0,
        correction(missing, quarter, voice) is Some,
        inferred_duration(missing, quarter)->Some_0.2 is None,
        inferred_duration(missing, quarter)->Some_0.0 == RhythmType::SemiBreve ==> beats.count()
            == beat_type.count(),
    ensures
        voice_ticks(
            correction(missing, quarter, voice)->Some_0,
            voice,
            None,
            quarter,
            beats,
            beat_type,
        ) == missing,
{
    let found = inferred_duration(missing, quarter)->Some_0;
    let rest = NoteData::default_rest(found.0, found.1, voice);
    let pitched = NoteData { note_rest: super::pitch::NumericPitchRest::Pitch(1), ..rest };
    lemma_exact_everywhere(quarter, super::rhythm::search_down(quarter, 5, missing).1);
    lemma_inferred_duration_sound(missing, quarter, pitched, beats.count(), beat_type.count());
    let numerator = super::duration::scale_numerator(rest.dotted, None);
    let b = beats.count();
    if found.0 == RhythmType::SemiBreve {
        assert(quarter * numerator * b * 4 / b == quarter * 4 * numerator) by (nonlinear_arith)
            requires
                b >= 2,
        ;
    }
}

/// Whether a run of elements holds no tuplet marker.
pub open spec fn tuplet_free(s: Seq<MusicElement>) -> bool {
    forall|i: int| 0 <= i < s.len() ==> !(#[trigger] s[i] is Tuplet)
}

/// Whether each voice up to `count` that falls short lacks a number of
/// ticks that stands for a note type without a tuplet, and for a whole rest
/// only in a meter in which a whole rest lasts four quarters.
pub open spec fn shortfalls_plain(
    given: Seq<MusicElement>,
    count: int,
    quarter: nat,
    beats: Beats,
    beat_type: BeatType,
) -> bool {
    forall|v: int|
        0 <= v < count && falls_short(given, #[trigger] voice_at(v), quarter, beats, beat_type) ==> {
            let missing = shortfall(given, voice_at(v), quarter, beats, beat_type);
            &&& correction(missing, quarter, voice_at(v)) is Some
            &&& inferred_duration(missing, quarter)->Some_0.2 is None
            &&& inferred_duration(missing, quarter)->Some_0.0 == RhythmType::SemiBreve
                ==> beats.count() == beat_type.count()
        }
}

/// Where there is no tuplet marker, no tuplet ratio is in force.
proof fn lemma_tuplet_free_time_mod(s: Seq<MusicElement>)
    requires
        tuplet_free(s),
    ensures
        time_mod_after(s) is None,
    decreases s.len(),
{
    if s.len() > 0 {
        assert(!(s[s.len() - 1] is Tuplet));
        assert forall|i: int| 0 <= i < s.drop_last().len() implies !(
        #[trigger] s.drop_last()[i] is Tuplet) by {
            assert(s.drop_last()[i] == s[i]);
        }
        lemma_tuplet_free_time_mod(s.drop_last());
    }
}

/// In a measure without tuplet markers, at a resolution that is a multiple
/// of 32, every rest that is put in lasts as long as its voice falls short,
/// if what the voices lack stands for plain note types.
proof fn lemma_plain_corrections_fill(
    given: Seq<MusicElement>,
    current: Seq<MusicElement>,
    from: int,
    count: int,
    quarter: nat,
    beats: Beats,
    beat_type: BeatType,
)
    requires
        0 <= from <= count <= 4,
        given.len() <= current.len(),
        quarter % 32 == 0,
        tuplet_free(current),
        shortfalls_plain(given, count, quarter, beats, beat_type),
    ensures
        corrections_fill(given, current, from, count, quarter, beats, beat_type),
    decreases count - from,
{
    if from >= count {
    } else if falls_short(given, voice_at(from), quarter, beats, beat_type) {
        let missing = shortfall(given, voice_at(from), quarter, beats, beat_type);
        let place = recorded_index(given, voice_at(from)) as int;
        let rest = correction(missing, quarter, voice_at(from))->Some_0;
        lemma_recorded_index_bound(given, voice_at(from));
        assert forall|i: int| 0 <= i < current.take(place).len() implies !(
        #[trigger] current.take(place)[i] is Tuplet) by {
            assert(current.take(place)[i] == current[i]);
        }
        lemma_tuplet_free_time_mod(current.take(place));
        lemma_rest_fills(missing, quarter, voice_at(from), beats, beat_type);
        let next = current.insert(place, rest);
        assert forall|i: int| 0 <= i < next.len() implies !(#[trigger] next[i] is Tuplet) by {
            if i < place {
                assert(next[i] == current[i]);
            } else if i > place {
                assert(next[i] == current[i - 1]);
            }
        }
        lemma_plain_corrections_fill(given, next, from + 1, count, quarter, beats, beat_type);
    } else {
        lemma_plain_corrections_fill(given, current, from + 1, count, quarter, beats, beat_type);
    }
}

/// A measure without tuplets comes out with equally long voices.
///
/// Take a measure without tuplet markers, at a resolution that is a multiple
/// of 32, in which no voice is longer than the first and each voice that
/// falls short lacks a number of ticks that stands for a plain note type.
/// After the voices were made equally long, every voice that is looked at
/// and is not empty is as long as the first.
pub proof fn lemma_plain_voices_equalized(
    given: Seq<MusicElement>,
    count: int,
    quarter: nat,
    beats: Beats,
    beat_type: BeatType,
    voice: Voice,
)
    requires
        0 <= count <= 4,
        quarter % 32 == 0,
        tuplet_free(given),
        shortfalls_plain(given, count, quarter, beats, beat_type),
        forall|v: int|
            0 <= v < count ==> voice_tally(given, #[trigger] voice_at(v), quarter, beats, beat_type)
                <= voice_tally(given, Voice::One, quarter, beats, beat_type),
        voice.numeric() < count,
    ensures
        equalized(given, given, 0, count, quarter, beats, beat_type) is Some,
        ({
            let measure = equalized(given, given, 0, count, quarter, beats, beat_type)->Some_0;
            let length = voice_tally(measure, voice, quarter, beats, beat_type);
            length != 0 ==> length == voice_tally(measure, Voice::One, quarter, beats, beat_type)
        }),
{
    lemma_plain_corrections_fill(given, given, 0, count, quarter, beats, beat_type);
    lemma_plain_equalized_is_some(given, given, 0, count, quarter, beats, beat_type);
    lemma_voices_equalized(given, count, quarter, beats, beat_type, voice);
}

/// Where what the voices lack stands for note types, the voices can be made
/// equally long.
proof fn lemma_plain_equalized_is_some(
    given: Seq<MusicElement>,
    current: Seq<MusicElement>,
    from: int,
    count: int,
    quarter: nat,
    beats: Beats,
    beat_type: BeatType,
)
    requires
        0 <= from <= count,
        shortfalls_plain(given, count, quarter, beats, beat_type),
    ensures
        equalized(given, current, from, count, quarter, beats, beat_type) is Some,
    decreases count - from,
{
    if from >= count {
    } else if falls_short(given, voice_at(from), quarter, beats, beat_type) {
        let missing = shortfall(given, voice_at(from), quarter, beats, beat_type);
        let place = recorded_index(given, voice_at(from)) as int;
        let rest = correction(missing, quarter, voice_at(from))->Some_0;
        lemma_plain_equalized_is_some(
            given,
            current.insert(place, rest),
            from + 1,
            count,
            quarter,
            beats,
            beat_type,
        );
    } else {
        lemma_plain_equalized_is_some(given, current, from + 1, count, quarter, beats, beat_type);
    }
}

/// Making the voices equally long only puts rests in: no more than one for
/// each voice that is looked at, and none for the first voice or a voice
/// without notes.
pub proof fn lemma_equalized_length(
    given: Seq<MusicElement>,
    current: Seq<MusicElement>,
    from: int,
    count: int,
    quarter: nat,
    beats: Beats,
    beat_type: BeatType,
)
    requires
        0 <= from <= count,
        given.len() <= current.len(),
        equalized(given, current, from, count, quarter, beats, beat_type) is Some,
    ensures
        current.len() <= equalized(given, current, from, count, quarter, beats, beat_type)->Some_0.len()
            <= current.len() + (count - from),
        !falls_short(given, Voice::One, quarter, beats, beat_type),
        forall|v: Voice|
            voice_tally(given, v, quarter, beats, beat_type) == 0 ==> !falls_short(
                given,
                v,
                quarter,
                beats,
                beat_type,
            ),
    decreases count - from,
{
    if from >= count {
    } else if falls_short(given, voice_at(from), quarter, beats, beat_type) {
        let missing = shortfall(given, voice_at(from), quarter, beats, beat_type);
        let place = recorded_index(given, voice_at(from)) as int;
        let rest = correction(missing, quarter, voice_at(from))->Some_0;
        lemma_recorded_index_bound(given, voice_at(from));
        lemma_equalized_length(
            given,
            current.insert(place, rest),
            from + 1,
            count,
            quarter,
            beats,
            beat_type,
        );
    } else {
        lemma_equalized_length(given, current, from + 1, count, quarter, beats, beat_type);
    }
}

} // verus!
