use super::elements::{IsDotted, NoteData, TimeModification};
use super::notation::{RhythmType, TupletActual, TupletNormal};
use vstd::prelude::*;

verus! {

/// The ticks of a dotted note whose undotted length is `base`: half as much
/// again, rounded down.
pub open spec fn dotted_of(base: nat) -> nat {
    3 * base / 2
}

/// Steps from a note type down to shorter ones, halving `base` each time,
/// while `base` is longer than `ticks` and a shorter type exists. Stops at the
/// first type whose dotted length is `ticks`. Gives the length and the type
/// number reached, and whether the stop was at a dotted length.
pub open spec fn search_down(base: nat, level: int, ticks: nat) -> (nat, int, bool)
    decreases level,
{
    if base > ticks && level > 0 {
        if dotted_of(base / 2) == ticks {
            (base / 2, level - 1, true)
        } else {
            search_down(base / 2, level - 1, ticks)
        }
    } else {
        (base, level, false)
    }
}

/// Steps from a note type up to longer ones, doubling `base` each time, while
/// `base` is shorter than `ticks` and a longer type exists. Stops at the first
/// type whose dotted length is `ticks`. Gives the length and the type number
/// reached, and whether the stop was at a dotted length.
pub open spec fn search_up(base: nat, level: int, ticks: nat) -> (nat, int, bool)
    decreases 7 - level,
{
    if base < ticks && level < 7 {
        if dotted_of(base * 2) == ticks {
            (base * 2, level + 1, true)
        } else {
            search_up(base * 2, level + 1, ticks)
        }
    } else {
        (base, level, false)
    }
}

/// Whether a tuplet of `actual` notes in the time of `normal` turns a note of
/// `base` ticks into one of `ticks`, and the format can write the tuplet.
pub open spec fn ratio_matches(base: nat, ticks: nat, normal: nat, actual: nat) -> bool {
    &&& normal >= 2
    &&& TupletNormal::of_count(normal) is Some
    &&& TupletActual::of_count(actual) is Some
    &&& base * normal == ticks * actual
}

/// The order in which tuplets are tried: by `normal`, then by `actual`.
pub open spec fn tried_first(normal: nat, actual: nat, other_normal: nat, other_actual: nat) -> bool {
    normal < other_normal || (normal == other_normal && actual <= other_actual)
}

/// Whether the tuplet is the first one tried that matches.
pub open spec fn is_first_ratio(base: nat, ticks: nat, normal: nat, actual: nat) -> bool {
    &&& ratio_matches(base, ticks, normal, actual)
    &&& forall|n: nat, a: nat| #[trigger]
        ratio_matches(base, ticks, n, a) ==> tried_first(normal, actual, n, a)
}

/// Whether some tuplet matches.
pub open spec fn has_ratio(base: nat, ticks: nat) -> bool {
    exists|n: nat, a: nat| ratio_matches(base, ticks, n, a)
}

/// The first tuplet tried that matches, as `(normal, actual)`.
pub open spec fn first_ratio(base: nat, ticks: nat) -> (nat, nat) {
    choose|p: (nat, nat)| is_first_ratio(base, ticks, p.0, p.1)
}

/// The note type with a given number, the 128th note being 0 and the whole
/// note 7.
pub open spec fn type_at(level: int) -> RhythmType {
    RhythmType::of_numeric(level as u8)->Some_0
}

/// What a length of `base` ticks at a note type gives for `ticks`, once no
/// dotted length was found: the plain type where the lengths agree; else
/// the type inside the first tuplet that matches; else nothing.
pub open spec fn plain_or_tuplet(base: nat, level: int, ticks: nat) -> Option<
    (RhythmType, IsDotted, Option<TimeModification>),
> {
    if base == ticks {
        Some((type_at(level), false, None))
    } else if has_ratio(base, ticks) {
        let p = first_ratio(base, ticks);
        Some(
            (
                type_at(level),
                false,
                Some(
                    TimeModification {
                        actual_notes: TupletActual::of_count(p.1)->Some_0,
                        normal_notes: TupletNormal::of_count(p.0)->Some_0,
                    },
                ),
            ),
        )
    } else {
        None
    }
}

/// The note type, dot and tuplet that a number of ticks stands for, at
/// `quarter` ticks to the quarter note.
///
/// The dotted quarter is tried first. Then the search steps from the quarter
/// to shorter types while they are too long, and from there to longer types
/// while they are too short, and takes the first dotted length that agrees.
/// Where none does, the type reached is taken plain if its length agrees, or
/// inside the first tuplet that makes it agree. Else there is no answer.
pub open spec fn inferred_duration(ticks: nat, quarter: nat) -> Option<
    (RhythmType, IsDotted, Option<TimeModification>),
> {
    if dotted_of(quarter) == ticks {
        Some((RhythmType::Crochet, true, None))
    } else {
        let down = search_down(quarter, 5, ticks);
        if down.2 {
            Some((type_at(down.1), true, None))
        } else {
            let up = search_up(down.0, down.1, ticks);
            if up.2 {
                Some((type_at(up.1), true, None))
            } else {
                plain_or_tuplet(up.0, up.1, ticks)
            }
        }
    }
}

/// There is one first tuplet.
pub proof fn lemma_first_ratio_unique(base: nat, ticks: nat, normal: nat, actual: nat)
    requires
        is_first_ratio(base, ticks, normal, actual),
    ensures
        has_ratio(base, ticks),
        first_ratio(base, ticks) == (normal, actual),
{
    let p = first_ratio(base, ticks);
    assert(is_first_ratio(base, ticks, (normal, actual).0, (normal, actual).1));
    assert(is_first_ratio(base, ticks, p.0, p.1));
    assert(ratio_matches(base, ticks, p.0, p.1));
    assert(tried_first(normal, actual, p.0, p.1));
    assert(tried_first(p.0, p.1, normal, actual));
}

fn type_of_level(level: u8) -> (t: RhythmType)
    requires
        level <= 7,
    ensures
        t == type_at(level as int),
        t.numeric() == level,
{
    proof {
        RhythmType::Crochet.lemma_numeric_inverse(level);
    }
    match RhythmType::from_numeric(level) {
        Ok(t) => {
            proof {
                t.lemma_numeric_inverse(level);
            }
            t
        },
        Err(_) => RhythmType::Crochet,
    }
}

fn is_dotted(base: u64, duration: u32) -> (b: bool)
    requires
        base <= 0x2_0000_0000,
    ensures
        b == (dotted_of(base as nat) == duration),
{
    (3 * base) / 2 == duration as u64
}

/// Looks for the first tuplet that turns `base` ticks into `ticks`.
fn find_ratio(base: u64, ticks: u32) -> (r: Option<TimeModification>)
    requires
        base <= 0x2_0000_0000,
    ensures
        match r {
            Some(t) => is_first_ratio(
                base as nat,
                ticks as nat,
                t.normal_notes.count(),
                t.actual_notes.count(),
            ),
            None => !has_ratio(base as nat, ticks as nat),
        },
{
    let mut nn: u32 = 2;
    while nn <= 16
        invariant
            2 <= nn <= 17,
            base <= 0x2_0000_0000,
            forall|n: nat, a: nat| n < nn ==> !#[trigger] ratio_matches(base as nat, ticks as nat, n, a),
        decreases 17 - nn,
    {
        if let Ok(normal) = TupletNormal::from_u32(nn) {
            let mut an: u32 = 2;
            while an <= 25
                invariant
                    2 <= an <= 26,
                    2 <= nn <= 16,
                    base <= 0x2_0000_0000,
                    TupletNormal::of_count(nn as nat) == Some(normal),
                    forall|n: nat, a: nat|
                        n < nn ==> !#[trigger] ratio_matches(base as nat, ticks as nat, n, a),
                    forall|a: nat| a < an ==> !#[trigger] ratio_matches(base as nat, ticks as nat, nn as nat, a),
                decreases 26 - an,
            {
                if let Ok(actual) = TupletActual::from_u32(an) {
                    assert(base * nn <= 0x2_0000_0000 * 16 && ticks * an <= 0xffff_ffff * 25)
                        by (nonlinear_arith)
                        requires
                            base <= 0x2_0000_0000,
                            nn <= 16,
                            ticks <= 0xffff_ffff,
                            an <= 25,
                    ;
                    if base * nn as u64 == ticks as u64 * an as u64 {
                        proof {
                            normal.lemma_count_inverse(nn as nat);
                            actual.lemma_count_inverse(an as nat);
                            assert(ratio_matches(base as nat, ticks as nat, nn as nat, an as nat));
                        }
                        return Some(TimeModification::new(actual, normal));
                    }
                }
                an = an + 1;
            }
            proof {
                assert forall|a: nat| !#[trigger] ratio_matches(
                    base as nat,
                    ticks as nat,
                    nn as nat,
                    a,
                ) by {
                    TupletActual::Two.lemma_count_inverse(a);
                }
            }
        }
        nn = nn + 1;
    }
    proof {
        assert forall|n: nat, a: nat| !#[trigger] ratio_matches(base as nat, ticks as nat, n, a) by {
            TupletNormal::One.lemma_count_inverse(n);
        }
    }
    None
}

impl NoteData {
    /// Finds the note type, dot and tuplet that a duration in ticks stands
    /// for, at `quarter_division` ticks to the quarter note.
    pub fn from_numeric_duration(numeric_duration: u32, quarter_division: u32) -> (r: Option<
        (RhythmType, IsDotted, Option<TimeModification>),
    >)
        ensures
            r == inferred_duration(numeric_duration as nat, quarter_division as nat),
    {
        let ghost ticks = numeric_duration as nat;
        let mut base_duration: u64 = quarter_division as u64;
        let mut level: u8 = 5;
        if is_dotted(base_duration, numeric_duration) {
            return Some((RhythmType::Crochet, true, None));
        }
        while base_duration > numeric_duration as u64 && level > 0
            invariant
                level <= 5,
                base_duration <= 0xffff_ffff,
                ticks == numeric_duration,
                dotted_of(quarter_division as nat) != ticks,
                search_down(quarter_division as nat, 5, ticks) == search_down(
                    base_duration as nat,
                    level as int,
                    ticks,
                ),
            decreases level,
        {
            base_duration = base_duration / 2;
            level = level - 1;
            if is_dotted(base_duration, numeric_duration) {
                return Some((type_of_level(level), true, None));
            }
        }
        let ghost down = search_down(quarter_division as nat, 5, ticks);
        assert(down == (base_duration as nat, level as int, false));
        while base_duration < numeric_duration as u64 && level < 7
            invariant
                level <= 7,
                base_duration <= 0x1_ffff_fffe,
                ticks == numeric_duration,
                dotted_of(quarter_division as nat) != ticks,
                down == search_down(quarter_division as nat, 5, ticks),
                !down.2,
                search_up(down.0, down.1, ticks) == search_up(
                    base_duration as nat,
                    level as int,
                    ticks,
                ),
            decreases 7 - level,
        {
            base_duration = base_duration * 2;
            level = level + 1;
            if is_dotted(base_duration, numeric_duration) {
                return Some((type_of_level(level), true, None));
            }
        }
        assert(search_up(down.0, down.1, ticks) == (base_duration as nat, level as int, false));
        let note_type = type_of_level(level);
        if base_duration == numeric_duration as u64 {
            return Some((note_type, false, None));
        }
        match find_ratio(base_duration, numeric_duration) {
            Some(t) => {
                proof {
                    lemma_first_ratio_unique(
                        base_duration as nat,
                        ticks,
                        t.normal_notes.count(),
                        t.actual_notes.count(),
                    );
                    t.normal_notes.lemma_count_inverse(0);
                    t.actual_notes.lemma_count_inverse(0);
                }
                Some((note_type, false, Some(t)))
            },
            None => None,
        }
    }
}

} // verus!
