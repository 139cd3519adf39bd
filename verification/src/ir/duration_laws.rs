//! How finding the note type of a duration and finding the duration of a
//! note type undo each other.

use super::duration::{scale_denominator, scale_numerator};
use super::elements::{NoteData, TimeModification};
use super::notation::{RhythmType, SpecialNote, TupletActual, TupletNormal};
use super::pitch::NumericPitchRest;
use super::rhythm::{
    dotted_of, first_ratio, has_ratio, inferred_duration, is_first_ratio, ratio_matches,
    search_down, search_up, tried_first, type_at,
};
use vstd::prelude::*;

verus! {

/// Whether the duration of the note does not depend on the meter: it is no
/// whole rest.
pub open spec fn meter_free(n: NoteData) -> bool {
    n.note_type != RhythmType::SemiBreve || n.note_rest != NumericPitchRest::Rest
}

/// Whether halving from the quarter note down to the note type with the
/// number `level` cuts nothing off, the 128th note being 0 and the quarter
/// note 5. From the quarter note up nothing is ever cut off.
pub open spec fn halves_exactly(quarter: nat, level: int) -> bool {
    if level == 0 {
        quarter % 32 == 0
    } else if level == 1 {
        quarter % 16 == 0
    } else if level == 2 {
        quarter % 8 == 0
    } else if level == 3 {
        quarter % 4 == 0
    } else if level == 4 {
        quarter % 2 == 0
    } else {
        true
    }
}

/// Whether a note of the type, with or without a dot, is a whole number of
/// ticks at `quarter` ticks to the quarter note, no half being cut off on
/// the way from the quarter to the note.
pub open spec fn reachable(note_type: RhythmType, dotted: bool, quarter: nat) -> bool {
    &&& quarter > 0
    &&& halves_exactly(quarter, note_type.numeric() as int)
    &&& dotted ==> note_type.base_ticks(quarter) % 2 == 0
}

/// The ticks of a note type by the number of the type, halves being rounded
/// down.
pub open spec fn level_ticks(quarter: nat, level: int) -> nat {
    if level == 0 {
        quarter / 32
    } else if level == 1 {
        quarter / 16
    } else if level == 2 {
        quarter / 8
    } else if level == 3 {
        quarter / 4
    } else if level == 4 {
        quarter / 2
    } else if level == 5 {
        quarter
    } else if level == 6 {
        quarter * 2
    } else {
        quarter * 4
    }
}

/// The type at which stepping down stops for a number of ticks between
/// half the length and the length of the type `target`: the type below
/// `target`, but none below the shortest or above the quarter note.
pub open spec fn stop_level(target: int) -> int {
    if target == 0 {
        0
    } else if target >= 6 {
        5
    } else {
        target - 1
    }
}

proof fn lemma_level_ticks(quarter: nat, level: int)
    requires
        0 <= level <= 7,
    ensures
        level_ticks(quarter, level) == type_at(level).base_ticks(quarter),
        type_at(level).numeric() == level,
{
    RhythmType::Crochet.lemma_numeric_inverse(level as u8);
    type_at(level).lemma_numeric_inverse(level as u8);
}

/// At a resolution that is a multiple of 32, halving cuts nothing off down
/// to any note type.
pub proof fn lemma_exact_everywhere(quarter: nat, level: int)
    requires
        quarter % 32 == 0,
    ensures
        halves_exactly(quarter, level),
{
    assert(quarter == 32 * (quarter / 32));
}

/// Where halving down to a note type cuts nothing off, it cuts nothing off
/// on the way to the next longer type.
proof fn lemma_exact_above(quarter: nat, level: int)
    requires
        0 <= level,
        halves_exactly(quarter, level),
    ensures
        halves_exactly(quarter, level + 1),
{
    if level == 0 {
        assert(quarter == 32 * (quarter / 32));
    } else if level == 1 {
        assert(quarter == 16 * (quarter / 16));
    } else if level == 2 {
        assert(quarter == 8 * (quarter / 8));
    } else if level == 3 {
        assert(quarter == 4 * (quarter / 4));
    }
}

/// Where halving down to a note type cuts nothing off, it cuts nothing off
/// down to any longer type.
proof fn lemma_exact_from(quarter: nat, low: int, level: int)
    requires
        0 <= low <= level,
        halves_exactly(quarter, low),
    ensures
        halves_exactly(quarter, level),
    decreases level - low,
{
    if low < level {
        lemma_exact_above(quarter, low);
        lemma_exact_from(quarter, low + 1, level);
    }
}

/// One note type up, the length doubles, where halving down to the shorter
/// type cuts nothing off; and the shorter type is one tick long at least.
proof fn lemma_double(quarter: nat, level: int)
    requires
        0 <= level < 7,
        halves_exactly(quarter, level),
    ensures
        level_ticks(quarter, level + 1) == 2 * level_ticks(quarter, level),
        quarter > 0 ==> level_ticks(quarter, level) >= 1,
{
    if level == 0 {
        assert(quarter == 32 * (quarter / 32));
    } else if level == 1 {
        assert(quarter == 16 * (quarter / 16));
    } else if level == 2 {
        assert(quarter == 8 * (quarter / 8));
    } else if level == 3 {
        assert(quarter == 4 * (quarter / 4));
    } else if level == 4 {
        assert(quarter == 2 * (quarter / 2));
    }
}

/// From `target` up to `j`, each note type is twice as long as the one
/// below it, and none is shorter than `target` or than one tick.
proof fn lemma_level_step(quarter: nat, target: int, j: int)
    requires
        0 <= target < j <= 7,
        quarter > 0,
        halves_exactly(quarter, target),
    ensures
        halves_exactly(quarter, j - 1),
        level_ticks(quarter, j) == 2 * level_ticks(quarter, j - 1),
        level_ticks(quarter, j - 1) >= level_ticks(quarter, target),
        level_ticks(quarter, target) >= 1,
    decreases j,
{
    if j - 1 > target {
        lemma_level_step(quarter, target, j - 1);
        lemma_exact_above(quarter, j - 2);
    }
    lemma_double(quarter, j - 1);
    lemma_double(quarter, target);
}

/// Stepping down ends at the type it starts from or below it, and below it
/// where it takes a step.
proof fn lemma_search_down_level(base: nat, level: int, ticks: nat)
    requires
        0 <= level,
    ensures
        0 <= search_down(base, level, ticks).1 <= level,
        base > ticks && level > 0 ==> search_down(base, level, ticks).1 <= level - 1,
    decreases level,
{
    if base > ticks && level > 0 {
        lemma_search_down_level(base / 2, level - 1, ticks);
    }
}

/// Stepping down from a note type, where halving cuts nothing off down to
/// the type at which the steps end, passes through the lengths of the note
/// types.
proof fn lemma_search_down_exact(quarter: nat, base: nat, level: int, ticks: nat)
    requires
        0 <= level <= 5,
        base == level_ticks(quarter, level),
        halves_exactly(quarter, search_down(base, level, ticks).1),
    ensures
        ({
            let r = search_down(base, level, ticks);
            &&& 0 <= r.1 <= level
            &&& r.0 == level_ticks(quarter, r.1)
            &&& r.2 ==> dotted_of(r.0) == ticks
        }),
    decreases level,
{
    if base > ticks && level > 0 {
        lemma_search_down_level(base, level, ticks);
        lemma_exact_from(quarter, search_down(base, level, ticks).1, level - 1);
        lemma_double(quarter, level - 1);
        if dotted_of(base / 2) != ticks {
            lemma_search_down_exact(quarter, base / 2, level - 1, ticks);
        }
    }
}

/// Stepping up from a note type down to which halving cuts nothing off
/// passes through the lengths of the note types.
proof fn lemma_search_up_exact(quarter: nat, base: nat, level: int, ticks: nat)
    requires
        0 <= level <= 7,
        base == level_ticks(quarter, level),
        halves_exactly(quarter, level),
    ensures
        ({
            let r = search_up(base, level, ticks);
            &&& level <= r.1 <= 7
            &&& r.0 == level_ticks(quarter, r.1)
            &&& r.2 ==> dotted_of(r.0) == ticks
        }),
    decreases 7 - level,
{
    if base < ticks && level < 7 {
        lemma_double(quarter, level);
        lemma_exact_above(quarter, level);
        if dotted_of(base * 2) != ticks {
            lemma_search_up_exact(quarter, base * 2, level + 1, ticks);
        }
    }
}

/// A multiple of `k`, times a factor, divided by `k`, is what the multiple
/// holds of `k`, times the factor.
proof fn lemma_scaled(quarter: nat, k: nat, m: nat, factor: nat)
    requires
        k > 0,
        quarter == k * m,
    ensures
        quarter * factor / k == m * factor,
{
    assert(quarter * factor == k * (m * factor)) by (nonlinear_arith)
        requires
            quarter == k * m,
    ;
    vstd::arithmetic::div_mod::lemma_div_multiples_vanish((m * factor) as int, k as int);
}

/// The length of a note type times a factor, where halving down to the type
/// cuts nothing off, as the duration of a note computes it.
proof fn lemma_scaled_type(note_type: RhythmType, quarter: nat, factor: nat)
    requires
        halves_exactly(quarter, note_type.numeric() as int),
    ensures
        note_type.base_ticks(quarter) * factor == match note_type {
            RhythmType::SemiHemiDemiSemiQuaver => quarter * factor / 32,
            RhythmType::HemiDemiSemiQuaver => quarter * factor / 16,
            RhythmType::DemiSemiQuaver => quarter * factor / 8,
            RhythmType::SemiQuaver => quarter * factor / 4,
            RhythmType::Quaver => quarter * factor / 2,
            RhythmType::Crochet => quarter * factor,
            RhythmType::Minim => quarter * 2 * factor,
            RhythmType::SemiBreve => quarter * 4 * factor,
        },
{
    assert(quarter * 2 * factor == (quarter * 2) * factor && quarter * 4 * factor == (quarter * 4)
        * factor) by (nonlinear_arith);
    match note_type {
        RhythmType::SemiHemiDemiSemiQuaver => lemma_scaled(quarter, 32, quarter / 32, factor),
        RhythmType::HemiDemiSemiQuaver => lemma_scaled(quarter, 16, quarter / 16, factor),
        RhythmType::DemiSemiQuaver => lemma_scaled(quarter, 8, quarter / 8, factor),
        RhythmType::SemiQuaver => lemma_scaled(quarter, 4, quarter / 4, factor),
        RhythmType::Quaver => lemma_scaled(quarter, 2, quarter / 2, factor),
        RhythmType::Crochet => {},
        RhythmType::Minim => {},
        RhythmType::SemiBreve => {},
    }
}

/// Where halving down to the note type cuts nothing off, a note outside a
/// tuplet lasts as long as its type, and half as long again with a dot.
proof fn lemma_plain_duration(n: NoteData, quarter: nat, beats: nat, beat_type: nat)
    requires
        halves_exactly(quarter, n.note_type.numeric() as int),
        n.special_note == SpecialNote::NoSpecial,
        meter_free(n),
    ensures
        n.duration_ticks(quarter, beats, beat_type, None) == if n.dotted {
            dotted_of(n.note_type.base_ticks(quarter))
        } else {
            n.note_type.base_ticks(quarter)
        },
{
    let factor: nat = if n.dotted {
        3
    } else {
        1
    };
    assert(scale_numerator(n.dotted, None) == factor);
    assert(scale_denominator(n.dotted, None) == if n.dotted {
        2nat
    } else {
        1nat
    });
    lemma_scaled_type(n.note_type, quarter, factor);
}

/// Where halving down to the note type cuts nothing off, an undotted note
/// in a tuplet that turns the length of its type into `ticks` lasts `ticks`.
proof fn lemma_tuplet_duration(
    n: NoteData,
    quarter: nat,
    beats: nat,
    beat_type: nat,
    t: TimeModification,
    ticks: nat,
)
    requires
        halves_exactly(quarter, n.note_type.numeric() as int),
        n.special_note == SpecialNote::NoSpecial,
        meter_free(n),
        !n.dotted,
        n.note_type.base_ticks(quarter) * t.normal_notes.count() == ticks * t.actual_notes.count(),
    ensures
        n.duration_ticks(quarter, beats, beat_type, Some(t)) == ticks,
{
    let nn = t.normal_notes.count();
    let an = t.actual_notes.count();
    t.normal_notes.lemma_count_inverse(0);
    t.actual_notes.lemma_count_inverse(0);
    assert(scale_numerator(false, Some(t)) == nn);
    assert(scale_denominator(false, Some(t)) == an);
    lemma_scaled_type(n.note_type, quarter, nn);
    vstd::arithmetic::div_mod::lemma_div_multiples_vanish(ticks as int, an as int);
    assert(ticks * an == an * ticks) by (nonlinear_arith);
}

/// Where a tuplet matches, one of them is the first.
pub proof fn lemma_first_exists(base: nat, ticks: nat, normal: nat, actual: nat)
    requires
        ratio_matches(base, ticks, normal, actual),
    ensures
        exists|p: (nat, nat)| is_first_ratio(base, ticks, p.0, p.1),
    decreases normal * 32 + actual,
{
    TupletActual::Two.lemma_count_inverse(actual);
    TupletNormal::One.lemma_count_inverse(normal);
    if exists|n: nat, a: nat| ratio_matches(base, ticks, n, a) && !tried_first(normal, actual, n, a) {
        let (n, a) = choose|n: nat, a: nat|
            ratio_matches(base, ticks, n, a) && !tried_first(normal, actual, n, a);
        TupletActual::Two.lemma_count_inverse(a);
        TupletNormal::One.lemma_count_inverse(n);
        lemma_first_exists(base, ticks, n, a);
    } else {
        assert(is_first_ratio(base, ticks, (normal, actual).0, (normal, actual).1));
    }
}

/// What the search finds lasts as long as what was asked for.
///
/// Let halving cut nothing off down to the note type at which the search
/// ends its steps down, as it does down to every type at a resolution that
/// is a multiple of 32. Then a note with the type, the dot and the tuplet
/// that stand for a number of ticks lasts that many ticks, if it is no whole
/// rest.
pub proof fn lemma_inferred_duration_sound(
    ticks: nat,
    quarter: nat,
    n: NoteData,
    beats: nat,
    beat_type: nat,
)
    requires
        halves_exactly(quarter, search_down(quarter, 5, ticks).1),
        inferred_duration(ticks, quarter) is Some,
        n.note_type == inferred_duration(ticks, quarter)->Some_0.0,
        n.dotted == inferred_duration(ticks, quarter)->Some_0.1,
        n.special_note == SpecialNote::NoSpecial,
        meter_free(n),
    ensures
        n.duration_ticks(quarter, beats, beat_type, inferred_duration(ticks, quarter)->Some_0.2)
            == ticks,
{
    lemma_level_ticks(quarter, 5);
    if dotted_of(quarter) == ticks {
        lemma_plain_duration(n, quarter, beats, beat_type);
    } else {
        let down = search_down(quarter, 5, ticks);
        lemma_search_down_exact(quarter, quarter, 5, ticks);
        lemma_level_ticks(quarter, down.1);
        if down.2 {
            lemma_plain_duration(n, quarter, beats, beat_type);
        } else {
            let up = search_up(down.0, down.1, ticks);
            lemma_search_up_exact(quarter, down.0, down.1, ticks);
            lemma_level_ticks(quarter, up.1);
            lemma_exact_from(quarter, down.1, up.1);
            if up.2 || up.0 == ticks {
                lemma_plain_duration(n, quarter, beats, beat_type);
            } else {
                assert(has_ratio(up.0, ticks));
                let p = first_ratio(up.0, ticks);
                let witness = choose|w0: nat, w1: nat| ratio_matches(up.0, ticks, w0, w1);
                lemma_first_exists(up.0, ticks, witness.0, witness.1);
                assert(is_first_ratio(up.0, ticks, p.0, p.1));
                let t = inferred_duration(ticks, quarter)->Some_0.2->Some_0;
                t.normal_notes.lemma_count_inverse(p.0);
                t.actual_notes.lemma_count_inverse(p.1);
                lemma_tuplet_duration(n, quarter, beats, beat_type, t, ticks);
            }
        }
    }
}

/// Stepping down from the type `j` to a plain or dotted note of the type
/// `target` ends at `target`: on the way there with a dotted length found,
/// if the note is dotted or one tick long; else without.
proof fn lemma_search_down_to(quarter: nat, target: int, j: int, ticks: nat, dotted: bool)
    requires
        0 <= target <= j <= 5,
        quarter > 0,
        halves_exactly(quarter, target),
        dotted ==> level_ticks(quarter, target) % 2 == 0,
        ticks == if dotted {
            dotted_of(level_ticks(quarter, target))
        } else {
            level_ticks(quarter, target)
        },
    ensures
        search_down(level_ticks(quarter, j), j, ticks) == (
            level_ticks(quarter, target),
            target,
            j > target && (dotted || ticks == 1),
        ),
    decreases j - target,
{
    if j > target {
        lemma_level_step(quarter, target, j);
        if j - 1 > target {
            lemma_level_step(quarter, target, j - 1);
        }
        lemma_search_down_to(quarter, target, j - 1, ticks, dotted);
    }
}

/// Stepping up from the type `j` to a plain or dotted note of the longer
/// type `target` ends at `target`, with a dotted length found if the note
/// is dotted.
proof fn lemma_search_up_to(quarter: nat, target: int, j: int, ticks: nat, dotted: bool)
    requires
        5 <= j <= target <= 7,
        j < target || !dotted,
        quarter > 0,
        ticks == if dotted {
            dotted_of(level_ticks(quarter, target))
        } else {
            level_ticks(quarter, target)
        },
    ensures
        search_up(level_ticks(quarter, j), j, ticks) == (
            level_ticks(quarter, target),
            target,
            j < target && dotted,
        ),
    decreases target - j,
{
    if j < target {
        lemma_level_step(quarter, j, target);
        lemma_double(quarter, j);
    }
    if j + 1 < target || (j < target && !dotted) {
        lemma_search_up_to(quarter, target, j + 1, ticks, dotted);
    }
}

/// The search finds a plain or dotted note of any type, if the note is a
/// whole number of ticks; a note of one tick comes back dotted.
proof fn lemma_find_level(quarter: nat, target: int, dotted: bool)
    requires
        0 <= target <= 7,
        quarter > 0,
        halves_exactly(quarter, target),
        dotted ==> level_ticks(quarter, target) % 2 == 0,
    ensures
        ({
            let base = level_ticks(quarter, target);
            let ticks = if dotted {
                dotted_of(base)
            } else {
                base
            };
            inferred_duration(ticks, quarter) == Some(
                (type_at(target), dotted || ticks == 1, None::<TimeModification>),
            )
        }),
{
    let base = level_ticks(quarter, target);
    let ticks = if dotted {
        dotted_of(base)
    } else {
        base
    };
    lemma_level_ticks(quarter, 5);
    if target < 5 {
        lemma_level_step(quarter, target, 5);
        lemma_search_down_to(quarter, target, 5, ticks, dotted);
    } else if target == 5 {
        lemma_search_down_to(quarter, target, 5, ticks, dotted);
    } else {
        lemma_search_up_to(quarter, target, 5, ticks, dotted);
    }
}

/// What the search finds for the duration of a note is the note.
///
/// Take a note outside a tuplet that is a whole number of ticks at `quarter`
/// ticks to the quarter note, and is no whole rest. The search gives back
/// its type without a tuplet, and its dot; only a note of one tick comes
/// back dotted whether it was or not, as a dotted note of one tick lasts one
/// tick too.
pub proof fn lemma_duration_inverse(n: NoteData, quarter: nat, beats: nat, beat_type: nat)
    requires
        reachable(n.note_type, n.dotted, quarter),
        n.special_note == SpecialNote::NoSpecial,
        meter_free(n),
    ensures
        ({
            let ticks = n.duration_ticks(quarter, beats, beat_type, None);
            inferred_duration(ticks, quarter) == Some(
                (n.note_type, n.dotted || ticks == 1, None::<TimeModification>),
            )
        }),
{
    lemma_plain_duration(n, quarter, beats, beat_type);
    let level = n.note_type.numeric() as int;
    n.note_type.lemma_numeric_inverse(level as u8);
    lemma_level_ticks(quarter, level);
    lemma_find_level(quarter, level, n.dotted);
}

/// Stepping down from the type `j` for a number of ticks between half the
/// length and the length of the type `target` finds a dotted length or
/// stops at the stop level, and never goes below that.
proof fn lemma_tuplet_down(quarter: nat, target: int, j: int, ticks: nat)
    requires
        quarter > 0,
        0 <= target <= 7,
        stop_level(target) <= j <= 5,
        halves_exactly(quarter, stop_level(target)),
        level_ticks(quarter, target) < 2 * ticks,
        ticks < level_ticks(quarter, target),
    ensures
        ({
            let r = search_down(level_ticks(quarter, j), j, ticks);
            &&& r.1 >= stop_level(target)
            &&& r.2 || r == (level_ticks(quarter, stop_level(target)), stop_level(target), false)
        }),
    decreases j,
{
    lemma_exact_from(quarter, stop_level(target), j);
    if j > stop_level(target) {
        lemma_exact_from(quarter, stop_level(target), target);
        if j > target {
            lemma_level_step(quarter, target, j);
        }
        lemma_exact_from(quarter, stop_level(target), j - 1);
        lemma_double(quarter, j - 1);
        lemma_tuplet_down(quarter, target, j - 1, ticks);
    } else if j < target {
        lemma_level_step(quarter, j, target);
        lemma_double(quarter, j);
    }
}

/// Stepping up from the type `j` for such a number of ticks finds a dotted
/// length or stops at `target`.
proof fn lemma_tuplet_up(quarter: nat, target: int, j: int, ticks: nat)
    requires
        quarter > 0,
        0 <= j <= target <= 7,
        halves_exactly(quarter, j),
        level_ticks(quarter, target) < 2 * ticks,
        ticks < level_ticks(quarter, target),
    ensures
        ({
            let r = search_up(level_ticks(quarter, j), j, ticks);
            r.2 || r == (level_ticks(quarter, target), target, false)
        }),
    decreases target - j,
{
    if j < target {
        lemma_level_step(quarter, j, target);
        lemma_double(quarter, j);
        lemma_exact_above(quarter, j);
        lemma_tuplet_up(quarter, target, j + 1, ticks);
    }
}

/// The search finds something for a number of ticks between half the length
/// and the length of a note type, if a tuplet turns the one into the other.
proof fn lemma_find_tuplet_level(quarter: nat, target: int, ticks: nat)
    requires
        quarter > 0,
        0 <= target <= 7,
        halves_exactly(quarter, stop_level(target)),
        level_ticks(quarter, target) < 2 * ticks,
        ticks < level_ticks(quarter, target),
        has_ratio(level_ticks(quarter, target), ticks),
    ensures
        inferred_duration(ticks, quarter) is Some,
        search_down(quarter, 5, ticks).1 >= stop_level(target),
{
    lemma_tuplet_down(quarter, target, 5, ticks);
    lemma_tuplet_up(quarter, target, stop_level(target), ticks);
}

/// A note in a tuplet is found again.
///
/// Take an undotted note in a tuplet that the format can write and that
/// plays more notes than it takes the time of, but fewer than twice as
/// many; let the note be a whole number of ticks and no whole rest, and let
/// halving cut nothing off down to the note type below that of the note,
/// which is as far as the search steps down. Then the search finds a note
/// type for the duration, and what it finds lasts as long as the note.
pub proof fn lemma_tuplet_duration_found(
    n: NoteData,
    t: TimeModification,
    quarter: nat,
    beats: nat,
    beat_type: nat,
)
    requires
        quarter > 0,
        halves_exactly(quarter, stop_level(n.note_type.numeric() as int)),
        n.special_note == SpecialNote::NoSpecial,
        meter_free(n),
        !n.dotted,
        2 <= t.normal_notes.count() < t.actual_notes.count() < 2 * t.normal_notes.count(),
        (n.note_type.base_ticks(quarter) * t.normal_notes.count()) % t.actual_notes.count() == 0,
    ensures
        inferred_duration(n.duration_ticks(quarter, beats, beat_type, Some(t)), quarter) is Some,
        ({
            let ticks = n.duration_ticks(quarter, beats, beat_type, Some(t));
            let found = inferred_duration(ticks, quarter)->Some_0;
            let again = NoteData { note_type: found.0, dotted: found.1, ..n };
            meter_free(again) ==> again.duration_ticks(quarter, beats, beat_type, found.2) == ticks
        }),
{
    let level = n.note_type.numeric() as int;
    n.note_type.lemma_numeric_inverse(level as u8);
    lemma_level_ticks(quarter, level);
    lemma_exact_from(quarter, stop_level(level), level);
    let base = n.note_type.base_ticks(quarter);
    let normal = t.normal_notes.count();
    let actual = t.actual_notes.count();
    t.normal_notes.lemma_count_inverse(0);
    t.actual_notes.lemma_count_inverse(0);
    let ticks = base * normal / actual;
    vstd::arithmetic::div_mod::lemma_fundamental_div_mod((base * normal) as int, actual as int);
    assert(base * normal == ticks * actual) by (nonlinear_arith)
        requires
            base * normal == actual * ticks,
    ;
    lemma_tuplet_duration(n, quarter, beats, beat_type, t, ticks);
    assert(base >= 1) by {
        if level < 7 {
            lemma_double(quarter, level);
        }
    }
    assert(ticks < base && base < 2 * ticks) by (nonlinear_arith)
        requires
            base * normal == ticks * actual,
            normal < actual < 2 * normal,
            base >= 1,
            normal >= 2,
    ;
    assert(ratio_matches(base, ticks, normal, actual));
    assert(has_ratio(base, ticks));
    lemma_find_tuplet_level(quarter, level, ticks);
    let found = inferred_duration(ticks, quarter)->Some_0;
    let again = NoteData { note_type: found.0, dotted: found.1, ..n };
    if meter_free(again) {
        lemma_exact_from(quarter, stop_level(level), search_down(quarter, 5, ticks).1);
        lemma_inferred_duration_sound(ticks, quarter, again, beats, beat_type);
    }
}

} // verus!
