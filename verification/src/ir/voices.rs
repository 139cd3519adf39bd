use std::collections::BTreeSet;
use vstd::prelude::*;

verus! {

/// The number of voices in a set.
pub fn voice_count(voices: &BTreeSet<u8>) -> (count: usize)
    ensures
        count == voices@.len(),
{
    broadcast use vstd::std_specs::btree::group_btree_axioms;
    broadcast use vstd::laws_cmp::group_laws_cmp;

    voices.len()
}

/// Puts a voice number into a set.
pub fn insert_voice(voices: &mut BTreeSet<u8>, voice: u8)
    ensures
        final(voices)@ == old(voices)@.insert(voice),
{
    broadcast use vstd::std_specs::btree::group_btree_axioms;
    broadcast use vstd::laws_cmp::group_laws_cmp;

    voices.insert(voice);
}

/// Takes a voice number out of a set.
pub fn remove_voice(voices: &mut BTreeSet<u8>, voice: u8)
    ensures
        final(voices)@ == old(voices)@.remove(voice),
{
    broadcast use vstd::std_specs::btree::group_btree_axioms;
    broadcast use vstd::laws_cmp::group_laws_cmp;

    voices.remove(&voice);
}

/// Whether a set holds a voice number.
pub fn has_voice(voices: &BTreeSet<u8>, voice: u8) -> (found: bool)
    ensures
        found == voices@.contains(voice),
{
    broadcast use vstd::std_specs::btree::group_btree_axioms;
    broadcast use vstd::laws_cmp::group_laws_cmp;

    voices.contains(&voice)
}

/// How many voices of a set have a lower number than `voice`: the place of
/// `voice` among them, counted from 0.
pub open spec fn rank_in(voices: Set<u8>, voice: u8) -> nat {
    voices.filter(|x: u8| x < voice).len()
}

proof fn lemma_rank_step(voices: Set<u8>, c: u8)
    requires
        voices.finite(),
        c < 255,
    ensures
        rank_in(voices, (c + 1) as u8) == rank_in(voices, c) + if voices.contains(c) {
            1nat
        } else {
            0nat
        },
        rank_in(voices, c) <= c,
        rank_in(voices, 0) == 0,
    decreases c,
{
    let below = voices.filter(|x: u8| x < c);
    let next = voices.filter(|x: u8| x < (c + 1) as u8);
    vstd::set_lib::lemma_len_subset(below, voices);
    assert(voices.filter(|x: u8| x < 0u8) =~= Set::<u8>::empty());
    if voices.contains(c) {
        assert(next =~= below.insert(c));
    } else {
        assert(next =~= below);
    }
    if c > 0 {
        lemma_rank_step(voices, (c - 1) as u8);
    }
}

/// The place of `voice` among the voices of a set, counted from 0.
pub fn voice_rank(voices: &BTreeSet<u8>, voice: u8) -> (rank: usize)
    requires
        voices@.finite(),
    ensures
        rank == rank_in(voices@, voice),
{
    let mut rank: usize = 0;
    let mut c: u8 = 0;
    proof {
        if voice > 0 {
            lemma_rank_step(voices@, 0);
        } else {
            assert(voices@.filter(|x: u8| x < 0u8) =~= Set::<u8>::empty());
        }
    }
    while c < voice
        invariant
            c <= voice,
            voices@.finite(),
            rank == rank_in(voices@, c),
            rank <= c,
        decreases voice - c,
    {
        proof {
            lemma_rank_step(voices@, c);
        }
        if has_voice(voices, c) {
            rank = rank + 1;
        }
        c = c + 1;
    }
    rank
}

} // verus!
