//! Stored rotation flags in memory: a finite map from identifier to flag.

use vstd::prelude::*;
use crate::text::same_text;

verus! {

/// The map that a list of identifier and flag pairs stands for; of two pairs
/// with one identifier the later counts.
pub open spec fn pairs_map(pairs: Seq<(String, bool)>) -> Map<Seq<char>, bool>
    decreases pairs.len(),
{
    if pairs.len() == 0 {
        Map::empty()
    } else {
        pairs_map(pairs.drop_last()).insert(pairs.last().0@, pairs.last().1)
    }
}

/// No identifier heads two pairs.
pub open spec fn distinct_keys(pairs: Seq<(String, bool)>) -> bool {
    forall|i: int, j: int|
        0 <= i < j < pairs.len() ==> (#[trigger] pairs[i]).0@ != (#[trigger] pairs[j]).0@
}

/// `pairs_map` holds exactly the identifiers that head a pair, and where no
/// identifier heads two pairs it gives each the flag of its pair.
pub proof fn lemma_pairs_map(pairs: Seq<(String, bool)>)
    ensures
        forall|k: Seq<char>| #[trigger]
            pairs_map(pairs).contains_key(k) <==> exists|i: int|
                0 <= i < pairs.len() && (#[trigger] pairs[i]).0@ == k,
        distinct_keys(pairs) ==> forall|i: int|
            0 <= i < pairs.len() ==> pairs_map(pairs)[(#[trigger] pairs[i]).0@] == pairs[i].1,
        pairs_map(pairs).dom().finite(),
        distinct_keys(pairs) ==> pairs_map(pairs).len() == pairs.len(),
    decreases pairs.len(),
{
    if pairs.len() > 0 {
        let front = pairs.drop_last();
        let last = pairs.last();
        lemma_pairs_map(front);
        assert forall|k: Seq<char>| #[trigger]
            pairs_map(pairs).contains_key(k) <==> exists|i: int|
                0 <= i < pairs.len() && (#[trigger] pairs[i]).0@ == k by {
            if pairs_map(pairs).contains_key(k) {
                if k == last.0@ {
                    assert(pairs[pairs.len() - 1].0@ == k);
                } else {
                    assert(pairs_map(front).contains_key(k));
                    let i = choose|i: int| 0 <= i < front.len() && (#[trigger] front[i]).0@ == k;
                    assert(pairs[i].0@ == k);
                }
            }
            if exists|i: int| 0 <= i < pairs.len() && (#[trigger] pairs[i]).0@ == k {
                let i = choose|i: int| 0 <= i < pairs.len() && (#[trigger] pairs[i]).0@ == k;
                if i < front.len() {
                    assert(front[i].0@ == k);
                }
            }
        }
        if distinct_keys(pairs) {
            assert forall|i: int, j: int| 0 <= i < j < front.len() implies (#[trigger] front[i]).0@
                != (#[trigger] front[j]).0@ by {
                assert(pairs[i].0@ != pairs[j].0@);
            }
            assert forall|i: int| 0 <= i < pairs.len() implies pairs_map(pairs)[(
            #[trigger] pairs[i]).0@] == pairs[i].1 by {
                if i < front.len() {
                    assert(pairs[i].0@ != pairs[pairs.len() - 1].0@);
                    assert(front[i] == pairs[i]);
                }
            }
            if pairs_map(front).contains_key(last.0@) {
                let i = choose|i: int| 0 <= i < front.len() && (#[trigger] front[i]).0@ == last.0@;
                assert(pairs[i].0@ != pairs[pairs.len() - 1].0@);
            }
            assert(pairs_map(pairs).dom() =~= pairs_map(front).dom().insert(last.0@));
        }
    }
}

/// Rotation flags by device identifier.
///
/// An identifier that is not in the map stands for a device that takes part
/// in the rotation: new devices join it without being asked for.
///
/// The flags are kept as a list of pairs in which no identifier occurs
/// twice. A hash map keyed by `String` would not do: Verus has no model of
/// how strings hash, so nothing could be proved of a lookup in it.
#[derive(Debug)]
pub struct SavedStates {
    entries: Vec<(String, bool)>,
}

impl View for SavedStates {
    type V = Map<Seq<char>, bool>;

    closed spec fn view(&self) -> Map<Seq<char>, bool> {
        pairs_map(self.entries@)
    }
}

impl SavedStates {
    #[verifier::type_invariant]
    spec fn no_identifier_twice(self) -> bool {
        distinct_keys(self.entries@)
    }

    /// No flags at all.
    pub fn new() -> (states: Self)
        ensures
            states@ == Map::<Seq<char>, bool>::empty(),
    {
        SavedStates { entries: Vec::new() }
    }

    /// The number of identifiers that have a flag.
    pub fn len(&self) -> (n: usize)
        ensures
            n == self@.len(),
            self@.dom().finite(),
    {
        proof {
            use_type_invariant(self);
            lemma_pairs_map(self.entries@);
        }
        self.entries.len()
    }

    /// Whether no identifier has a flag.
    pub fn is_empty(&self) -> (empty: bool)
        ensures
            empty == (self@ == Map::<Seq<char>, bool>::empty()),
    {
        proof {
            use_type_invariant(self);
            lemma_pairs_map(self.entries@);
            if self.entries@.len() > 0 {
                assert(self@.contains_key(self.entries@[0].0@));
            } else {
                assert(self@ =~= Map::<Seq<char>, bool>::empty());
            }
        }
        self.entries.len() == 0
    }

    /// Where the pair of `id` stands.
    fn place_of(&self, id: &str) -> (found: Option<usize>)
        ensures
            match found {
                Some(i) => i < self.entries.len() && self.entries[i as int].0@ == id@,
                None => forall|j: int| 0 <= j < self.entries.len() ==> self.entries[j].0@ != id@,
            },
    {
        let mut i: usize = 0;
        while i < self.entries.len()
            invariant
                i <= self.entries.len(),
                forall|j: int| 0 <= j < i ==> self.entries[j].0@ != id@,
            decreases self.entries.len() - i,
        {
            if same_text(self.entries[i].0.as_str(), id) {
                return Some(i);
            }
            i = i + 1;
        }
        None
    }

    /// The flag stored for `id`, if one is.
    pub fn get(&self, id: &str) -> (flag: Option<bool>)
        ensures
            flag == (if self@.contains_key(id@) {
                Some(self@[id@])
            } else {
                None
            }),
    {
        proof {
            use_type_invariant(self);
            lemma_pairs_map(self.entries@);
        }
        match self.place_of(id) {
            Some(i) => {
                assert(self.entries@[i as int].0@ == id@);
                Some(self.entries[i].1)
            },
            None => None,
        }
    }

    /// Whether a flag is stored for `id`.
    pub fn contains_key(&self, id: &str) -> (stored: bool)
        ensures
            stored == self@.contains_key(id@),
    {
        self.get(id).is_some()
    }

    /// Stores `selectable` for `id`, in place of what was stored for it before.
    pub fn insert(&mut self, id: String, selectable: bool)
        ensures
            final(self)@ == old(self)@.insert(id@, selectable),
    {
        proof {
            use_type_invariant(&*self);
        }
        let found = self.place_of(id.as_str());
        let mut entries: Vec<(String, bool)> = Vec::new();
        std::mem::swap(&mut entries, &mut self.entries);
        let ghost before = entries@;
        match found {
            Some(i) => {
                entries[i].1 = selectable;
                proof {
                    lemma_replace_flag(before, entries@, i as int, selectable);
                }
            },
            None => {
                entries.push((id, selectable));
                assert(entries@.drop_last() =~= before);
            },
        }
        self.entries = entries;
    }

    /// The flags that the given pairs hold; of two pairs with one identifier
    /// the later counts.
    pub fn from_pairs(pairs: &Vec<(String, bool)>) -> (states: Self)
        ensures
            states@ == pairs_map(pairs@),
    {
        let mut states = SavedStates::new();
        let mut i: usize = 0;
        while i < pairs.len()
            invariant
                i <= pairs.len(),
                states@ == pairs_map(pairs@.take(i as int)),
            decreases pairs.len() - i,
        {
            proof {
                assert(pairs@.take(i + 1).drop_last() =~= pairs@.take(i as int));
            }
            states.insert(pairs[i].0.clone(), pairs[i].1);
            i = i + 1;
        }
        assert(pairs@.take(pairs.len() as int) =~= pairs@);
        states
    }

    /// The stored flags as pairs, each identifier once.
    pub fn pairs(&self) -> (pairs: &Vec<(String, bool)>)
        ensures
            distinct_keys(pairs@),
            pairs_map(pairs@) == self@,
    {
        proof {
            use_type_invariant(self);
        }
        &self.entries
    }
}

/// Replacing the flag of one pair replaces the flag of its identifier.
proof fn lemma_replace_flag(
    before: Seq<(String, bool)>,
    after: Seq<(String, bool)>,
    i: int,
    selectable: bool,
)
    requires
        distinct_keys(before),
        0 <= i < before.len(),
        after.len() == before.len(),
        after[i].0 == before[i].0,
        after[i].1 == selectable,
        forall|j: int| 0 <= j < before.len() && j != i ==> after[j] == before[j],
    ensures
        distinct_keys(after),
        pairs_map(after) == pairs_map(before).insert(before[i].0@, selectable),
{
    assert forall|a: int, b: int| 0 <= a < b < after.len() implies (#[trigger] after[a]).0@ != (
    #[trigger] after[b]).0@ by {
        assert(before[a].0@ != before[b].0@);
    }
    lemma_pairs_map(before);
    lemma_pairs_map(after);
    let left = pairs_map(after);
    let right = pairs_map(before).insert(before[i].0@, selectable);
    assert forall|k: Seq<char>| left.contains_key(k) <==> right.contains_key(k) by {
        if left.contains_key(k) {
            let j = choose|j: int| 0 <= j < after.len() && (#[trigger] after[j]).0@ == k;
            assert(before[j].0@ == k);
        }
        if right.contains_key(k) && k != before[i].0@ {
            let j = choose|j: int| 0 <= j < before.len() && (#[trigger] before[j]).0@ == k;
            assert(after[j].0@ == k);
        }
        if k == before[i].0@ {
            assert(after[i].0@ == k);
        }
    }
    assert forall|k: Seq<char>| left.contains_key(k) implies left[k] == right[k] by {
        let j = choose|j: int| 0 <= j < after.len() && (#[trigger] after[j]).0@ == k;
        assert(left[after[j].0@] == after[j].1);
        if j != i {
            assert(before[j].0@ != before[i].0@);
            assert(pairs_map(before)[before[j].0@] == before[j].1);
        }
    }
    assert(left =~= right);
}

} // verus!
