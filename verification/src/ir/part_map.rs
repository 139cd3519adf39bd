use super::musical_part::{MusicalPart, MusicalPartView};
use crate::error::{Error, Result};
use crate::text::{
    compare_text, lemma_lex_irreflexive, lemma_lex_transitive, lex_less, TextOrder,
};
use vstd::prelude::*;
use vstd::string::*;

verus! {

/// What a part map holds.
pub struct PartMapView {
    /// For each part id, the place of the part in `parts`; no place for an
    /// id that is reserved or whose part was removed.
    pub part_ids: Map<Seq<char>, Option<usize>>,
    /// The parts in the order in which they were pushed.
    pub parts: Seq<Option<MusicalPartView>>,
}

impl PartMapView {
    /// The ids that are reserved or whose part was removed.
    pub open spec fn removed(self) -> Set<Seq<char>> {
        Set::new(|k: Seq<char>| self.part_ids.contains_key(k) && self.part_ids[k] is None)
    }
}

/// The parts of a score by their ids.
///
/// An id is reserved first, gets its part later, and can lose it again: the
/// part stays where it is and only the id forgets its place, so that the
/// places of the other parts stay as they are.
#[derive(Clone, Debug, PartialEq, Eq)]
pub struct PartMap {
    ids: Vec<String>,
    idxs: Vec<Option<usize>>,
    parts: Vec<Option<MusicalPart>>,
}

/// What an optional part holds.
pub open spec fn part_view(part: Option<MusicalPart>) -> Option<MusicalPartView> {
    match part {
        Some(p) => Some(p@),
        None => None,
    }
}

impl View for PartMap {
    type V = PartMapView;

    closed spec fn view(&self) -> PartMapView {
        PartMapView {
            part_ids: Map::new(
                |k: Seq<char>| self.keys_in_order().contains(k),
                |k: Seq<char>| self.idxs@[self.keys_in_order().index_of(k)],
            ),
            parts: Seq::new(self.parts@.len(), |i: int| part_view(self.parts@[i])),
        }
    }
}

impl Default for PartMap {
    fn default() -> (map: PartMap)
        ensures
            map.wf(),
            map@.part_ids == Map::<Seq<char>, Option<usize>>::empty(),
            map@.parts == Seq::<Option<MusicalPartView>>::empty(),
    {
        PartMap::new()
    }
}

impl PartMap {
    /// A part has at most this many voices.
    pub const MAX_SUPPORTED_VOICES: usize = 4;

    /// The ids in the order of a dictionary.
    pub closed spec fn keys_in_order(&self) -> Seq<Seq<char>> {
        Seq::new(self.ids@.len(), |i: int| self.ids@[i]@)
    }

    /// Whether the ids are kept in order, each once, each with its place.
    pub closed spec fn wf(&self) -> bool {
        &&& self.ids@.len() == self.idxs@.len()
        &&& forall|i: int, j: int|
            0 <= i < j < self.ids@.len() ==> lex_less(
                #[trigger] self.keys_in_order()[i],
                #[trigger] self.keys_in_order()[j],
            )
    }

    /// The ids in order are the ids of the map, each once and each before
    /// those that come after it in a dictionary.
    pub proof fn lemma_keys_in_order(&self)
        requires
            self.wf(),
        ensures
            forall|k: Seq<char>| self.keys_in_order().contains(k) <==> self@.part_ids.contains_key(k),
            forall|i: int, j: int|
                0 <= i < j < self.keys_in_order().len() ==> lex_less(
                    #[trigger] self.keys_in_order()[i],
                    #[trigger] self.keys_in_order()[j],
                ),
            self.keys_in_order().no_duplicates(),
            self@.part_ids.dom().finite(),
            self@.part_ids.dom().len() == self.keys_in_order().len(),
    {
        let keys = self.keys_in_order();
        assert forall|i: int, j: int| 0 <= i < keys.len() && 0 <= j < keys.len() && i != j implies keys[i]
            != keys[j] by {
            lemma_lex_irreflexive(keys[i]);
            if i < j {
                assert(lex_less(keys[i], keys[j]));
            } else {
                assert(lex_less(keys[j], keys[i]));
            }
        }
        assert(self@.part_ids.dom() =~= keys.to_set());
        keys.unique_seq_to_set();
        vstd::seq_lib::seq_to_set_is_finite(keys);
    }

    proof fn lemma_lookup(&self, i: int)
        requires
            self.wf(),
            0 <= i < self.ids@.len(),
        ensures
            self@.part_ids.contains_key(self.keys_in_order()[i]),
            self@.part_ids[self.keys_in_order()[i]] == self.idxs@[i],
            self.keys_in_order().index_of(self.keys_in_order()[i]) == i,
    {
        self.lemma_keys_in_order();
        let keys = self.keys_in_order();
        let j = keys.index_of(keys[i]);
        assert(keys.contains(keys[i]));
        assert(0 <= j < keys.len() && keys[j] == keys[i]);
    }

    /// A map without ids and parts.
    pub fn new() -> (map: PartMap)
        ensures
            map.wf(),
            map@.part_ids == Map::<Seq<char>, Option<usize>>::empty(),
            map@.parts == Seq::<Option<MusicalPartView>>::empty(),
    {
        let map = PartMap { ids: Vec::new(), idxs: Vec::new(), parts: Vec::new() };
        assert(map@.part_ids =~= Map::<Seq<char>, Option<usize>>::empty());
        assert(map@.parts =~= Seq::<Option<MusicalPartView>>::empty());
        map
    }

    /// Looks for an id: whether it is there, and the place where it stands
    /// or would have to stand.
    fn locate(&self, key: &str) -> (r: (bool, usize))
        requires
            self.wf(),
        ensures
            r.1 <= self.ids@.len(),
            r.0 ==> r.1 < self.ids@.len() && self.keys_in_order()[r.1 as int] == key@,
            !r.0 ==> !self.keys_in_order().contains(key@),
            forall|j: int| 0 <= j < r.1 ==> lex_less(#[trigger] self.keys_in_order()[j], key@),
            !r.0 ==> forall|j: int|
                r.1 <= j < self.ids@.len() ==> lex_less(key@, #[trigger] self.keys_in_order()[j]),
    {
        let ghost keys = self.keys_in_order();
        let mut i: usize = 0;
        while i < self.ids.len()
            invariant
                i <= self.ids@.len(),
                self.wf(),
                keys == self.keys_in_order(),
                forall|j: int| 0 <= j < i ==> lex_less(#[trigger] keys[j], key@),
            decreases self.ids@.len() - i,
        {
            match compare_text(self.ids[i].as_str(), key) {
                TextOrder::Before => {},
                TextOrder::Same => {
                    return (true, i);
                },
                TextOrder::After => {
                    proof {
                        assert(lex_less(key@, keys[i as int]));
                        assert forall|j: int| i <= j < self.ids@.len() implies lex_less(
                            key@,
                            #[trigger] keys[j],
                        ) by {
                            if j > i {
                                assert(lex_less(keys[i as int], keys[j]));
                                lemma_lex_transitive(key@, keys[i as int], keys[j]);
                            }
                        }
                        assert forall|j: int| 0 <= j < keys.len() implies keys[j] != key@ by {
                            lemma_lex_irreflexive(key@);
                        }
                    }
                    return (false, i);
                },
            }
            i = i + 1;
        }
        proof {
            assert forall|j: int| 0 <= j < keys.len() implies keys[j] != key@ by {
                lemma_lex_irreflexive(key@);
            }
        }
        (false, i)
    }

    /// The number of ids that are reserved or whose part was removed.
    pub fn get_removed_parts(&self) -> (count: usize)
        requires
            self.wf(),
        ensures
            count == self@.removed().len(),
    {
        let ghost keys = self.keys_in_order();
        let mut count: usize = 0;
        let mut i: usize = 0;
        proof {
            self.lemma_keys_in_order();
            assert(Set::new(
                |k: Seq<char>| exists|j: int| 0 <= j < 0 && keys[j] == k && self.idxs@[j] is None,
            ) =~= Set::<Seq<char>>::empty());
        }
        while i < self.idxs.len()
            invariant
                i <= self.idxs@.len(),
                self.wf(),
                keys == self.keys_in_order(),
                keys.no_duplicates(),
                count <= i,
                Set::new(
                    |k: Seq<char>| exists|j: int| 0 <= j < i && keys[j] == k && self.idxs@[j] is None,
                ).finite(),
                count == Set::new(
                    |k: Seq<char>| exists|j: int| 0 <= j < i && keys[j] == k && self.idxs@[j] is None,
                ).len(),
            decreases self.idxs@.len() - i,
        {
            let ghost seen = Set::new(
                |k: Seq<char>| exists|j: int| 0 <= j < i && keys[j] == k && self.idxs@[j] is None,
            );
            let ghost next = Set::new(
                |k: Seq<char>|
                    exists|j: int| 0 <= j < i + 1 && keys[j] == k && self.idxs@[j] is None,
            );
            if self.idxs[i].is_none() {
                proof {
                    assert(!seen.contains(keys[i as int]));
                    assert(next =~= seen.insert(keys[i as int]));
                }
                count = count + 1;
            } else {
                proof {
                    assert(next =~= seen);
                }
            }
            i = i + 1;
        }
        proof {
            let seen = Set::new(
                |k: Seq<char>| exists|j: int| 0 <= j < i && keys[j] == k && self.idxs@[j] is None,
            );
            assert forall|k: Seq<char>| seen.contains(k) == self@.removed().contains(k) by {
                if seen.contains(k) {
                    let j = choose|j: int| 0 <= j < i && keys[j] == k && self.idxs@[j] is None;
                    self.lemma_lookup(j);
                }
                if self@.removed().contains(k) {
                    let j = keys.index_of(k);
                    assert(keys.contains(k));
                    self.lemma_lookup(j);
                }
            }
            assert(seen =~= self@.removed());
        }
        count
    }

    /// The ids in the order of a dictionary.
    pub fn keys(&self) -> (keys: Vec<String>)
        ensures
            keys@.len() == self.keys_in_order().len(),
            forall|i: int| 0 <= i < keys@.len() ==> (#[trigger] keys@[i])@ == self.keys_in_order()[i],
    {
        let mut keys: Vec<String> = Vec::new();
        let mut i: usize = 0;
        while i < self.ids.len()
            invariant
                i <= self.ids@.len(),
                keys@.len() == i,
                forall|j: int| 0 <= j < i ==> (#[trigger] keys@[j])@ == self.keys_in_order()[j],
            decreases self.ids@.len() - i,
        {
            keys.push(self.ids[i].clone());
            i = i + 1;
        }
        keys
    }

    /// The ids in the order of a dictionary, each with the place of its
    /// part.
    pub fn get_part_ids(&self) -> (entries: Vec<(String, Option<usize>)>)
        requires
            self.wf(),
        ensures
            entries@.len() == self.keys_in_order().len(),
            forall|i: int|
                0 <= i < entries@.len() ==> (#[trigger] entries@[i]).0@ == self.keys_in_order()[i]
                    && entries@[i].1 == self@.part_ids[self.keys_in_order()[i]],
    {
        let mut entries: Vec<(String, Option<usize>)> = Vec::new();
        let mut i: usize = 0;
        while i < self.ids.len()
            invariant
                i <= self.ids@.len(),
                self.wf(),
                entries@.len() == i,
                forall|j: int|
                    0 <= j < i ==> (#[trigger] entries@[j]).0@ == self.keys_in_order()[j]
                        && entries@[j].1 == self@.part_ids[self.keys_in_order()[j]],
            decreases self.ids@.len() - i,
        {
            proof {
                self.lemma_lookup(i as int);
            }
            entries.push((self.ids[i].clone(), self.idxs[i]));
            i = i + 1;
        }
        entries
    }

    /// The number of ids.
    pub fn num_part_ids(&self) -> (count: usize)
        requires
            self.wf(),
        ensures
            count == self@.part_ids.dom().len(),
    {
        proof {
            self.lemma_keys_in_order();
        }
        self.ids.len()
    }

    /// The number of parts, those included whose ids have forgotten them.
    pub fn num_parts(&self) -> (count: usize)
        ensures
            count == self@.parts.len(),
    {
        self.parts.len()
    }

    /// The part at a place, if the place holds one.
    pub fn get_part(&self, idx: usize) -> (part: Option<&MusicalPart>)
        ensures
            match part {
                Some(p) => idx < self@.parts.len() && self@.parts[idx as int] == Some(p@),
                None => idx >= self@.parts.len() || self@.parts[idx as int] is None,
            },
    {
        if idx < self.parts.len() {
            self.parts[idx].as_ref()
        } else {
            None
        }
    }

    /// Makes an id forget its part. An id that is not there is reserved.
    pub fn remove_part(&mut self, part_key: &str)
        requires
            old(self).wf(),
        ensures
            final(self).wf(),
            final(self)@.part_ids == old(self)@.part_ids.insert(part_key@, None),
            final(self)@.parts == old(self)@.parts,
    {
        self.insert_part_id(part_key, None);
    }

    /// Combining parts is not on offer yet: the map stays as it is.
    pub fn combine_parts(&mut self)
        ensures
            final(self)@ == old(self)@,
            old(self).wf() ==> final(self).wf(),
    {
    }

    /// Gives an id a place, or no place.
    pub fn insert_part_id(&mut self, part_key: &str, val: Option<usize>)
        requires
            old(self).wf(),
        ensures
            final(self).wf(),
            final(self)@.part_ids == old(self)@.part_ids.insert(part_key@, val),
            final(self)@.parts == old(self)@.parts,
    {
        let (found, pos) = self.locate(part_key);
        let ghost old_keys = self.keys_in_order();
        let ghost old_idxs = self.idxs@;
        if found {
            self.idxs.set(pos, val);
            proof {
                assert(self.keys_in_order() =~= old_keys);
                assert forall|k: Seq<char>| #[trigger]
                    self@.part_ids.contains_key(k) implies self@.part_ids[k] == old(
                    self,
                )@.part_ids.insert(part_key@, val)[k] by {
                    let j = old_keys.index_of(k);
                    assert(old_keys.contains(k));
                    self.lemma_lookup(j);
                    old(self).lemma_lookup(j);
                    old(self).lemma_lookup(pos as int);
                }
                assert(self@.part_ids =~= old(self)@.part_ids.insert(part_key@, val));
            }
        } else {
            self.ids.insert(pos, String::from_str(part_key));
            self.idxs.insert(pos, val);
            proof {
                let keys = self.keys_in_order();
                assert(keys =~= old_keys.insert(pos as int, part_key@));
                assert forall|i: int, j: int| 0 <= i < j < keys.len() implies lex_less(
                    #[trigger] keys[i],
                    #[trigger] keys[j],
                ) by {
                    if i < pos && j > pos {
                        assert(keys[i] == old_keys[i] && keys[j] == old_keys[j - 1]);
                    } else if i < pos && j < pos {
                        assert(keys[i] == old_keys[i] && keys[j] == old_keys[j]);
                    } else if i > pos {
                        assert(keys[i] == old_keys[i - 1] && keys[j] == old_keys[j - 1]);
                    } else if i == pos {
                        assert(keys[j] == old_keys[j - 1]);
                    } else {
                        assert(keys[i] == old_keys[i]);
                    }
                }
                assert(self.wf());
                assert forall|k: Seq<char>|
                    self@.part_ids.contains_key(k) == old(self)@.part_ids.insert(
                        part_key@,
                        val,
                    ).contains_key(k) by {
                    if self@.part_ids.contains_key(k) {
                        let j = keys.index_of(k);
                        assert(keys.contains(k));
                        if j < pos {
                            assert(old_keys[j] == k);
                        } else if j > pos {
                            assert(old_keys[j - 1] == k);
                        }
                    }
                    if old(self)@.part_ids.contains_key(k) {
                        let j = old_keys.index_of(k);
                        assert(old_keys.contains(k));
                        if j < pos {
                            assert(keys[j] == k);
                        } else {
                            assert(keys[j + 1] == k);
                        }
                    }
                    if k == part_key@ {
                        assert(keys[pos as int] == k);
                    }
                }
                assert forall|k: Seq<char>| #[trigger]
                    self@.part_ids.contains_key(k) implies self@.part_ids[k] == old(
                    self,
                )@.part_ids.insert(part_key@, val)[k] by {
                    let j = keys.index_of(k);
                    assert(keys.contains(k));
                    self.lemma_lookup(j);
                    if j < pos {
                        old(self).lemma_lookup(j);
                    } else if j > pos {
                        old(self).lemma_lookup(j - 1);
                    }
                }
                assert(self@.part_ids =~= old(self)@.part_ids.insert(part_key@, val));
            }
        }
        assert(self@.parts =~= old(self)@.parts);
    }

    /// Gives a part to an id: the part goes to the end of the parts and the
    /// id keeps its place. An id that has a part already keeps it, and the
    /// new part is refused.
    pub fn push_part(&mut self, part_key: &str, part: MusicalPart) -> (r: Result<()>)
        requires
            old(self).wf(),
        ensures
            final(self).wf(),
            if old(self)@.part_ids.contains_key(part_key@) && old(self)@.part_ids[part_key@]
                is Some {
                &&& r == Err::<(), Error>(Error::ItemExists)
                &&& final(self)@ == old(self)@
            } else {
                &&& r is Ok
                &&& final(self)@.parts == old(self)@.parts.push(Some(part@))
                &&& final(self)@.part_ids == old(self)@.part_ids.insert(
                    part_key@,
                    Some(old(self)@.parts.len() as usize),
                )
            },
    {
        let (found, pos) = self.locate(part_key);
        proof {
            if found {
                self.lemma_lookup(pos as int);
            } else {
                self.lemma_keys_in_order();
            }
        }
        if found && self.idxs[pos].is_some() {
            return Err(Error::ItemExists);
        }
        self.parts.push(Some(part));
        assert(self@.parts =~= old(self)@.parts.push(Some(part@)));
        assert(self@.part_ids =~= old(self)@.part_ids);
        let place: usize = self.parts.len() - 1;
        let ghost pushed = self@.parts;
        self.insert_part_id(part_key, Some(place));
        Ok(())
    }

    /// Reserves an id. An id that is there already is refused.
    pub fn add_part_id(&mut self, id: &str) -> (r: Result<()>)
        requires
            old(self).wf(),
        ensures
            final(self).wf(),
            if old(self)@.part_ids.contains_key(id@) {
                &&& r == Err::<(), Error>(Error::ItemExists)
                &&& final(self)@ == old(self)@
            } else {
                &&& r is Ok
                &&& final(self)@.part_ids == old(self)@.part_ids.insert(id@, None)
                &&& final(self)@.parts == old(self)@.parts
            },
    {
        let (found, pos) = self.locate(id);
        proof {
            if found {
                self.lemma_lookup(pos as int);
            } else {
                self.lemma_keys_in_order();
            }
        }
        if found {
            Err(Error::ItemExists)
        } else {
            self.insert_part_id(id, None);
            Ok(())
        }
    }
}

} // verus!
