use super::elements::{MusicElement, NoteData, TimeModification};
use super::notation::RhythmType;
use super::duration::{scale_denominator, scale_numerator};
use super::duration_laws::meter_free;
use super::measure_checker::time_mod_after;
use super::notation::Chord;
use super::voices::{insert_voice, voice_count};
use crate::arith::{
    is_common_multiple, is_lcm_of, lcm_wide, lemma_lcm_of_empty, lemma_lcm_of_insert,
    lemma_lcm_of_monotonic,
};
use std::collections::BTreeSet;
use vstd::prelude::*;

verus! {

/// The numbers of a sequence, as a set.
pub open spec fn members_of(s: Seq<u32>) -> Set<nat> {
    Set::new(|d: nat| exists|i: int| 0 <= i < s.len() && #[trigger] s[i] == d)
}

/// Whether a set of numbers has a least common multiple of 32 bits.
pub open spec fn lcm_fits(members: Set<nat>) -> bool {
    exists|m: nat| m <= u32::MAX && #[trigger] is_lcm_of(members, m)
}

/// The length of the element at `i` as a fraction of a quarter note, by its
/// denominator in lowest terms: for notes and rests that are neither chord
/// notes nor grace notes, under the tuplet ratio in force at their place.
pub open spec fn multiple_at(s: Seq<MusicElement>, i: int) -> Option<nat> {
    match s[i] {
        MusicElement::NoteRest(n) => if n.chord == Chord::NoChord {
            n.note_multiple(time_mod_after(s.take(i)))
        } else {
            None
        },
        _ => None,
    }
}

/// The denominators of all the notes and rests of a sequence.
pub open spec fn note_multiples(s: Seq<MusicElement>) -> Set<nat> {
    Set::new(|d: nat| exists|i: int| 0 <= i < s.len() && #[trigger] multiple_at(s, i) == Some(d))
}

/// The numbers of the voices that have a note or rest in a sequence.
pub open spec fn voices_of(s: Seq<MusicElement>) -> Set<u8> {
    Set::new(
        |v: u8|
            exists|i: int|
                0 <= i < s.len() && (#[trigger] s[i] matches MusicElement::NoteRest(n)
                    && n.voice.numeric() == v),
    )
}

/// A list of numbers without 0 and without repetition, of which the least
/// common multiple is wanted.
#[derive(Clone, Debug, PartialEq, Eq)]
pub struct DivisionsVec {
    inner: Vec<u32>,
}

impl View for DivisionsVec {
    type V = Seq<u32>;

    closed spec fn view(&self) -> Seq<u32> {
        self.inner@
    }
}

proof fn lemma_members_push(s: Seq<u32>, value: u32)
    ensures
        members_of(s.push(value)) == members_of(s).insert(value as nat),
{
    let longer = s.push(value);
    assert forall|d: nat| members_of(longer).contains(d) == members_of(s).insert(
        value as nat,
    ).contains(d) by {
        if members_of(longer).contains(d) {
            let i = choose|i: int| 0 <= i < longer.len() && #[trigger] longer[i] == d;
            if i < s.len() {
                assert(s[i] == d);
            }
        }
        if members_of(s).contains(d) {
            let i = choose|i: int| 0 <= i < s.len() && #[trigger] s[i] == d;
            assert(longer[i] == d);
        }
        if d == value {
            assert(longer[s.len() as int] == d);
        }
    }
    assert(members_of(longer) =~= members_of(s).insert(value as nat));
}

proof fn lemma_members_take(s: Seq<u32>, i: int)
    requires
        0 <= i < s.len(),
    ensures
        members_of(s.take(i + 1)) == members_of(s.take(i)).insert(s[i] as nat),
        members_of(s.take(i)).subset_of(members_of(s)),
        members_of(s.take(i + 1)).subset_of(members_of(s)),
{
    assert(s.take(i + 1) =~= s.take(i).push(s[i]));
    lemma_members_push(s.take(i), s[i]);
    assert forall|d: nat| members_of(s.take(i + 1)).contains(d) implies members_of(s).contains(
        d,
    ) by {
        let j = choose|j: int| 0 <= j < s.take(i + 1).len() && #[trigger] s.take(i + 1)[j] == d;
        assert(s[j] == d);
    }
    assert forall|d: nat| members_of(s.take(i)).contains(d) implies members_of(s).contains(d) by {
        let j = choose|j: int| 0 <= j < s.take(i).len() && #[trigger] s.take(i)[j] == d;
        assert(s[j] == d);
    }
}

impl DivisionsVec {
    /// Whether the list holds no 0 and nothing twice.
    pub open spec fn wf(&self) -> bool {
        &&& forall|i: int| 0 <= i < self@.len() ==> self@[i] != 0
        &&& forall|i: int, j: int| 0 <= i < j < self@.len() ==> self@[i] != self@[j]
    }

    /// The numbers of the list, as a set.
    pub open spec fn members(&self) -> Set<nat> {
        members_of(self@)
    }

    /// The empty list.
    pub fn new() -> (v: DivisionsVec)
        ensures
            v@ == Seq::<u32>::empty(),
            v.wf(),
    {
        DivisionsVec { inner: Vec::new() }
    }

    /// Whether the list holds a number.
    pub fn contains(&self, value: u32) -> (found: bool)
        ensures
            found == self@.contains(value),
    {
        let mut i: usize = 0;
        while i < self.inner.len()
            invariant
                i <= self.inner@.len(),
                forall|j: int| 0 <= j < i ==> self.inner@[j] != value,
            decreases self.inner@.len() - i,
        {
            if self.inner[i] == value {
                return true;
            }
            i = i + 1;
        }
        false
    }

    /// Adds a number to the end of the list, unless it is 0 or in the list.
    pub fn add(&mut self, value: u32)
        requires
            old(self).wf(),
        ensures
            final(self).wf(),
            final(self)@ == if value != 0 && !old(self)@.contains(value) {
                old(self)@.push(value)
            } else {
                old(self)@
            },
            final(self).members() == if value != 0 {
                old(self).members().insert(value as nat)
            } else {
                old(self).members()
            },
    {
        proof {
            lemma_members_push(self@, value);
            if self@.contains(value) {
                let i = choose|i: int| 0 <= i < self@.len() && self@[i] == value;
                assert(self@[i] == value as nat);
                assert(self.members().contains(value as nat));
                assert(self.members().insert(value as nat) =~= self.members());
            }
        }
        if value != 0 && !self.contains(value) {
            self.inner.push(value);
        }
    }

    /// The least common multiple of the numbers in the list, 1 for the
    /// empty list; none where it does not fit in 32 bits.
    pub fn checked_find_lcm(&self) -> (r: Option<u32>)
        requires
            self.wf(),
        ensures
            match r {
                Some(m) => is_lcm_of(self.members(), m as nat),
                None => !lcm_fits(self.members()),
            },
    {
        let mut acc: u32 = 1;
        let mut i: usize = 0;
        proof {
            lemma_lcm_of_empty();
            assert(members_of(self@.take(0)) =~= Set::<nat>::empty());
        }
        while i < self.inner.len()
            invariant
                i <= self.inner@.len(),
                self.wf(),
                is_lcm_of(members_of(self@.take(i as int)), acc as nat),
            decreases self.inner@.len() - i,
        {
            let n = self.inner[i];
            let next = lcm_wide(acc, n);
            proof {
                lemma_members_take(self@, i as int);
                lemma_lcm_of_insert(
                    members_of(self@.take(i as int)),
                    acc as nat,
                    n as nat,
                    next as nat,
                );
            }
            if next > u32::MAX as u64 {
                proof {
                    assert forall|m: nat| #[trigger]
                        is_lcm_of(self.members(), m) implies m > u32::MAX by {
                        lemma_lcm_of_monotonic(
                            members_of(self@.take(i + 1)),
                            self.members(),
                            next as nat,
                            m,
                        );
                    }
                }
                return None;
            }
            acc = next as u32;
            i = i + 1;
        }
        assert(self@.take(i as int) =~= self@);
        Some(acc)
    }

    /// The least common multiple of the numbers in the list, 1 for the
    /// empty list.
    pub fn find_lcm(&mut self) -> (m: u32)
        requires
            old(self).wf(),
            lcm_fits(old(self).members()),
        ensures
            is_lcm_of(final(self).members(), m as nat),
            final(self)@ == old(self)@,
    {
        match self.checked_find_lcm() {
            Some(m) => m,
            None => 1,
        }
    }

    /// The numbers in the order in which they were added.
    pub fn inner(&self) -> (v: &Vec<u32>)
        ensures
            v@ == self@,
    {
        &self.inner
    }
}

proof fn lemma_multiple_at_take(s: Seq<MusicElement>, k: int, i: int)
    requires
        0 <= i < k <= s.len(),
    ensures
        multiple_at(s.take(k), i) == multiple_at(s, i),
{
    assert(s.take(k).take(i) =~= s.take(i));
}

proof fn lemma_note_multiples_step(s: Seq<MusicElement>, k: int)
    requires
        0 <= k < s.len(),
    ensures
        note_multiples(s.take(k + 1)) == match multiple_at(s, k) {
            Some(d) => note_multiples(s.take(k)).insert(d),
            None => note_multiples(s.take(k)),
        },
{
    let short = s.take(k);
    let long = s.take(k + 1);
    let target = match multiple_at(s, k) {
        Some(d) => note_multiples(short).insert(d),
        None => note_multiples(short),
    };
    assert forall|d: nat| note_multiples(long).contains(d) == target.contains(d) by {
        if note_multiples(long).contains(d) {
            let i = choose|i: int| 0 <= i < long.len() && #[trigger] multiple_at(long, i) == Some(d);
            lemma_multiple_at_take(s, k + 1, i);
            if i < k {
                lemma_multiple_at_take(s, k, i);
                assert(multiple_at(short, i) == Some(d));
            }
        }
        if note_multiples(short).contains(d) {
            let i = choose|i: int|
                0 <= i < short.len() && #[trigger] multiple_at(short, i) == Some(d);
            lemma_multiple_at_take(s, k, i);
            lemma_multiple_at_take(s, k + 1, i);
            assert(multiple_at(long, i) == Some(d));
        }
        if multiple_at(s, k) == Some(d) {
            lemma_multiple_at_take(s, k + 1, k);
            assert(multiple_at(long, k) == Some(d));
        }
    }
    assert(note_multiples(long) =~= target);
}

proof fn lemma_voices_step(s: Seq<MusicElement>, k: int)
    requires
        0 <= k < s.len(),
    ensures
        voices_of(s.take(k + 1)) == match s[k] {
            MusicElement::NoteRest(n) => voices_of(s.take(k)).insert(n.voice.numeric()),
            _ => voices_of(s.take(k)),
        },
{
    let short = s.take(k);
    let long = s.take(k + 1);
    let target = match s[k] {
        MusicElement::NoteRest(n) => voices_of(short).insert(n.voice.numeric()),
        _ => voices_of(short),
    };
    assert forall|v: u8| voices_of(long).contains(v) == target.contains(v) by {
        if voices_of(long).contains(v) {
            let i = choose|i: int|
                0 <= i < long.len() && (#[trigger] long[i] matches MusicElement::NoteRest(n)
                    && n.voice.numeric() == v);
            if i < k {
                assert(short[i] == long[i]);
            }
        }
        if voices_of(short).contains(v) {
            let i = choose|i: int|
                0 <= i < short.len() && (#[trigger] short[i] matches MusicElement::NoteRest(n)
                    && n.voice.numeric() == v);
            assert(long[i] == short[i]);
        }
        if s[k] matches MusicElement::NoteRest(n) && n.voice.numeric() == v {
            assert(long[k] == s[k]);
        }
    }
    assert(voices_of(long) =~= target);
}

/// Goes through the elements once and collects the denominators of the
/// notes and the numbers of the voices.
pub fn scan_divisions_voices(elements: &Vec<MusicElement>) -> (r: (DivisionsVec, BTreeSet<u8>))
    ensures
        r.0.wf(),
        r.0.members() == note_multiples(elements@),
        r.1@ == voices_of(elements@),
        r.1@.finite(),
        r.1@.len() <= 4,
{
    let mut voices: BTreeSet<u8> = BTreeSet::new();
    let mut integers_v = DivisionsVec::new();
    let mut time_mod: Option<TimeModification> = None;
    let mut i: usize = 0;
    let ghost s = elements@;
    proof {
        assert(note_multiples(s.take(0)) =~= Set::<nat>::empty());
        assert(voices_of(s.take(0)) =~= Set::<u8>::empty());
        assert(integers_v.members() =~= Set::<nat>::empty());
    }
    while i < elements.len()
        invariant
            i <= elements@.len(),
            s == elements@,
            integers_v.wf(),
            integers_v.members() == note_multiples(s.take(i as int)),
            voices@ == voices_of(s.take(i as int)),
            time_mod == time_mod_after(s.take(i as int)),
        decreases elements@.len() - i,
    {
        proof {
            lemma_note_multiples_step(s, i as int);
            lemma_voices_step(s, i as int);
            assert(s.take(i + 1).drop_last() =~= s.take(i as int));
        }
        match elements[i] {
            MusicElement::Tuplet(t) => {
                time_mod = t.to_time_modification();
            },
            MusicElement::NoteRest(n) => {
                insert_voice(&mut voices, n.voice.to_numeric());
                if n.chord == Chord::NoChord {
                    match n.get_note_multiple(time_mod) {
                        Some(d) => integers_v.add(d),
                        None => integers_v.add(0),
                    }
                }
            },
            _ => {},
        }
        i = i + 1;
    }
    proof {
        assert(s.take(i as int) =~= s);
        lemma_voices_bounded(s);
    }
    (integers_v, voices)
}

/// A sequence has at most four voices, since there are no more.
pub proof fn lemma_voices_bounded(s: Seq<MusicElement>)
    ensures
        voices_of(s).finite(),
        voices_of(s).len() <= 4,
{
    let all: Set<u8> = set![0u8, 1u8, 2u8, 3u8];
    assert forall|v: u8| voices_of(s).contains(v) implies all.contains(v) by {
        let i = choose|i: int|
            0 <= i < s.len() && (#[trigger] s[i] matches MusicElement::NoteRest(n)
                && n.voice.numeric() == v);
    }
    assert(voices_of(s).subset_of(all));
    vstd::set_lib::lemma_len_subset(voices_of(s), all);
    assert(all.len() == 4) by {
        assert(all =~= Set::<u8>::empty().insert(0u8).insert(1u8).insert(2u8).insert(3u8));
    }
}

/// The resolution at which every note of the sequence is a whole number of
/// ticks, and the number of its voices.
///
/// The resolution is the least common multiple of the denominators that
/// the notes and rests have as fractions of a quarter note, chord notes and
/// grace notes left out: the least resolution at which each of them is a
/// whole number of ticks, 1 where there is none.
pub fn calc_divisions_voices(music_elems_v: Vec<MusicElement>) -> (r: (u32, usize))
    requires
        lcm_fits(note_multiples(music_elems_v@)),
    ensures
        is_lcm_of(note_multiples(music_elems_v@), r.0 as nat),
        r.1 == voices_of(music_elems_v@).len(),
{
    let (mut integers_v, voices) = scan_divisions_voices(&music_elems_v);
    (integers_v.find_lcm(), voice_count(&voices))
}

/// The resolution and the number of voices as `calc_divisions_voices` gives
/// them; none where the resolution does not fit in 32 bits.
pub fn checked_divisions_voices(music_elems_v: &Vec<MusicElement>) -> (r: Option<(u32, usize)>)
    ensures
        match r {
            Some((divisions, voices)) => is_lcm_of(note_multiples(music_elems_v@), divisions as nat)
                && voices == voices_of(music_elems_v@).len(),
            None => !lcm_fits(note_multiples(music_elems_v@)),
        },
{
    let (integers_v, voices) = scan_divisions_voices(music_elems_v);
    match integers_v.checked_find_lcm() {
        Some(divisions) => Some((divisions, voice_count(&voices))),
        None => None,
    }
}

/// Dividing a multiple of `k * den` first by `k` and then by `den` rounds
/// nothing away.
proof fn lemma_two_divisions(y: nat, k: nat, den: nat, t: nat)
    requires
        k > 0,
        den > 0,
        y == k * (den * t),
    ensures
        y / k / den == t,
{
    vstd::arithmetic::div_mod::lemma_div_multiples_vanish((den * t) as int, k as int);
    vstd::arithmetic::div_mod::lemma_div_multiples_vanish(t as int, den as int);
}

/// Where four times the resolution times the factor of dot and tuplet is a
/// multiple of what the note type and the factor divide by, the duration in
/// ticks is the quotient.
proof fn lemma_exact_ticks(
    n: NoteData,
    time_mod: Option<TimeModification>,
    divisions: nat,
    beats: nat,
    beat_type: nat,
    t: nat,
)
    requires
        n.special_note == super::notation::SpecialNote::NoSpecial,
        meter_free(n),
        scale_denominator(n.dotted, time_mod) > 0,
        divisions * n.quarter_fraction(time_mod).0 == n.quarter_fraction(time_mod).1 * t,
    ensures
        n.duration_ticks(divisions, beats, beat_type, time_mod) == t,
{
    let numerator = scale_numerator(n.dotted, time_mod);
    let den = scale_denominator(n.dotted, time_mod);
    let c = n.note_type.per_whole();
    let y = divisions * numerator;
    let z = den * t;
    assert(4 * y == c * z && divisions * 2 * numerator == 2 * y && divisions * 4 * numerator == 4
        * y) by (nonlinear_arith)
        requires
            divisions * (4 * numerator) == (c * den) * t,
            y == divisions * numerator,
            z == den * t,
    ;
    match n.note_type {
        RhythmType::SemiHemiDemiSemiQuaver => lemma_two_divisions(y, 32, den, t),
        RhythmType::HemiDemiSemiQuaver => lemma_two_divisions(y, 16, den, t),
        RhythmType::DemiSemiQuaver => lemma_two_divisions(y, 8, den, t),
        RhythmType::SemiQuaver => lemma_two_divisions(y, 4, den, t),
        RhythmType::Quaver => lemma_two_divisions(y, 2, den, t),
        RhythmType::Crochet => lemma_two_divisions(y, 1, den, t),
        RhythmType::Minim => lemma_two_divisions(2 * y, 1, den, t),
        RhythmType::SemiBreve => lemma_two_divisions(4 * y, 1, den, t),
    }
}

/// At the resolution that is the least common multiple of the denominators,
/// every note and rest that counts is a whole number of ticks: the
/// resolution times the note's length as a fraction of a quarter note is a
/// whole number. For all but whole rests, whose length follows the meter,
/// the duration in ticks is that number, nothing being rounded away.
pub proof fn lemma_divisions_exact(
    s: Seq<MusicElement>,
    i: int,
    divisions: nat,
    beats: nat,
    beat_type: nat,
)
    requires
        is_lcm_of(note_multiples(s), divisions),
        0 <= i < s.len(),
        multiple_at(s, i) is Some,
    ensures
        ({
            let n = s[i]->NoteRest_0;
            let time_mod = time_mod_after(s.take(i));
            let fraction = n.quarter_fraction(time_mod);
            &&& fraction.1 > 0
            &&& (divisions * fraction.0) % fraction.1 == 0
            &&& meter_free(n) ==> n.duration_ticks(divisions, beats, beat_type, time_mod)
                * fraction.1 == divisions * fraction.0
        }),
{
    let n = s[i]->NoteRest_0;
    let time_mod = time_mod_after(s.take(i));
    let den = scale_denominator(n.dotted, time_mod);
    let c = n.note_type.per_whole();
    let numer = n.quarter_fraction(time_mod).0;
    let denom = n.quarter_fraction(time_mod).1;
    if time_mod is Some {
        time_mod->Some_0.actual_notes.lemma_count_inverse(0);
    }
    assert(denom > 0 && den > 0) by (nonlinear_arith)
        requires
            denom == c * den,
            c >= 1,
            den == (if n.dotted {
                2nat
            } else {
                1nat
            }) * (match time_mod {
                Some(t) => t.actual_notes.count(),
                None => 1nat,
            }),
            time_mod is Some ==> time_mod->Some_0.actual_notes.count() >= 2,
    ;
    let d = multiple_at(s, i)->Some_0;
    assert(note_multiples(s).contains(d));
    assert(crate::arith::divides(d, divisions));
    crate::arith::lemma_multiple_of_reduced(numer, denom, divisions);
    let x = divisions * numer;
    let t = x / denom;
    vstd::arithmetic::div_mod::lemma_fundamental_div_mod(x as int, denom as int);
    if meter_free(n) {
        lemma_exact_ticks(n, time_mod, divisions, beats, beat_type, t);
        assert(t * denom == denom * t) by (nonlinear_arith);
    }
}

} // verus!
