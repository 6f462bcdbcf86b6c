//! An insertion-ordered map from strings to strings, used for custom headers
//! and URL query parameters.

use vstd::prelude::*;
use crate::text::owned;

verus! {

/// Whether some entry of `pairs` has the key `key`.
pub open spec fn has_key(pairs: Seq<(Seq<char>, Seq<char>)>, key: Seq<char>) -> bool {
    exists|i: int| 0 <= i < pairs.len() && (#[trigger] pairs[i]).0 == key
}

/// No key occurs in two entries of `pairs`.
pub open spec fn keys_distinct(pairs: Seq<(Seq<char>, Seq<char>)>) -> bool {
    forall|i: int, j: int|
        0 <= i < pairs.len() && 0 <= j < pairs.len() && i != j ==> (#[trigger] pairs[i]).0
            != (#[trigger] pairs[j]).0
}

/// `pairs` after setting `key` to `value`: the entry with that key keeps its
/// place and takes the new value; a new key is appended at the end.
pub open spec fn insert_pair(pairs: Seq<(Seq<char>, Seq<char>)>, key: Seq<char>, value: Seq<char>) -> Seq<
    (Seq<char>, Seq<char>),
> {
    if has_key(pairs, key) {
        Seq::new(pairs.len(), |i: int| if pairs[i].0 == key { (key, value) } else { pairs[i] })
    } else {
        pairs.push((key, value))
    }
}

/// `pairs` after inserting each entry of `added`, in order.
pub open spec fn insert_pairs(pairs: Seq<(Seq<char>, Seq<char>)>, added: Seq<(Seq<char>, Seq<char>)>) -> Seq<
    (Seq<char>, Seq<char>),
>
    decreases added.len(),
{
    if added.len() == 0 {
        pairs
    } else {
        insert_pair(insert_pairs(pairs, added.drop_last()), added.last().0, added.last().1)
    }
}

/// The map that `pairs` describes (the first entry wins for a repeated key).
pub open spec fn pairs_map(pairs: Seq<(Seq<char>, Seq<char>)>) -> Map<Seq<char>, Seq<char>> {
    Map::new(
        |k: Seq<char>| has_key(pairs, k),
        |k: Seq<char>| pairs[choose|i: int| 0 <= i < pairs.len() && (#[trigger] pairs[i]).0 == k].1,
    )
}

/// The map that `pairs` describes read as a list of assignments: for a
/// repeated key the last entry wins.
pub open spec fn assignments_map(pairs: Seq<(Seq<char>, Seq<char>)>) -> Map<Seq<char>, Seq<char>>
    decreases pairs.len(),
{
    if pairs.len() == 0 {
        Map::empty()
    } else {
        assignments_map(pairs.drop_last()).insert(pairs.last().0, pairs.last().1)
    }
}

/// The view of a list of owned string pairs.
pub open spec fn pairs_view(pairs: Seq<(String, String)>) -> Seq<(Seq<char>, Seq<char>)> {
    pairs.map_values(|e: (String, String)| (e.0@, e.1@))
}

/// Setting a key in a map without repeated keys gives a map without repeated
/// keys, whose map is the old one with that key set.
pub proof fn lemma_insert_pair(pairs: Seq<(Seq<char>, Seq<char>)>, key: Seq<char>, value: Seq<char>)
    requires
        keys_distinct(pairs),
    ensures
        keys_distinct(insert_pair(pairs, key, value)),
        pairs_map(insert_pair(pairs, key, value)) == pairs_map(pairs).insert(key, value),
{
    let after = insert_pair(pairs, key, value);
    if has_key(pairs, key) {
        assert forall|i: int, j: int|
            0 <= i < after.len() && 0 <= j < after.len() && i != j implies (#[trigger] after[i]).0
            != (#[trigger] after[j]).0 by {
            assert(after[i].0 == pairs[i].0);
            assert(after[j].0 == pairs[j].0);
        }
        assert forall|k: Seq<char>| has_key(after, k) <==> has_key(pairs, k) by {
            if has_key(after, k) {
                let i = choose|i: int| 0 <= i < after.len() && (#[trigger] after[i]).0 == k;
                assert(pairs[i].0 == k);
            }
            if has_key(pairs, k) {
                let i = choose|i: int| 0 <= i < pairs.len() && (#[trigger] pairs[i]).0 == k;
                assert(after[i].0 == k);
            }
        }
        assert(pairs_map(after) =~= pairs_map(pairs).insert(key, value));
    } else {
        assert forall|k: Seq<char>| has_key(after, k) <==> (has_key(pairs, k) || k == key) by {
            if has_key(pairs, k) {
                let i = choose|i: int| 0 <= i < pairs.len() && (#[trigger] pairs[i]).0 == k;
                assert(after[i] == pairs[i]);
            }
            if k == key {
                assert(after[pairs.len() as int].0 == k);
            }
        }
        assert forall|k: Seq<char>| #[trigger] has_key(pairs, k) implies pairs_map(after)[k]
            == pairs_map(pairs)[k] by {
            let i = choose|i: int| 0 <= i < after.len() && (#[trigger] after[i]).0 == k;
            let j = choose|j: int| 0 <= j < pairs.len() && (#[trigger] pairs[j]).0 == k;
            assert(after[j] == pairs[j]);
            if i == pairs.len() {
                assert(false);
            }
        }
        assert(has_key(after, key));
        assert(pairs_map(after)[key] == value) by {
            let i = choose|i: int| 0 <= i < after.len() && (#[trigger] after[i]).0 == key;
            if i < pairs.len() {
                assert(after[i] == pairs[i]);
            }
        }
        assert(pairs_map(after) =~= pairs_map(pairs).insert(key, value));
    }
}

/// Inserting a list of entries into a map without repeated keys merges it
/// into that map: the new entries override existing keys, and among the new
/// entries the last one for a key wins.
pub proof fn lemma_insert_pairs(pairs: Seq<(Seq<char>, Seq<char>)>, added: Seq<(Seq<char>, Seq<char>)>)
    requires
        keys_distinct(pairs),
    ensures
        keys_distinct(insert_pairs(pairs, added)),
        pairs_map(insert_pairs(pairs, added)) == pairs_map(pairs).union_prefer_right(
            assignments_map(added),
        ),
    decreases added.len(),
{
    if added.len() > 0 {
        let front = added.drop_last();
        lemma_insert_pairs(pairs, front);
        lemma_insert_pair(insert_pairs(pairs, front), added.last().0, added.last().1);
        assert(pairs_map(pairs).union_prefer_right(assignments_map(front)).insert(
            added.last().0,
            added.last().1,
        ) =~= pairs_map(pairs).union_prefer_right(assignments_map(added)));
    }
}

/// A copy of a list of string pairs.
pub(crate) fn copy_pairs(pairs: &Vec<(String, String)>) -> (res: Vec<(String, String)>)
    ensures
        pairs_view(res@) == pairs_view(pairs@),
{
    let mut res: Vec<(String, String)> = Vec::new();
    let mut i: usize = 0;
    while i < pairs.len()
        invariant
            i <= pairs@.len(),
            res@.len() == i,
            pairs_view(res@) == pairs_view(pairs@).take(i as int),
        decreases pairs@.len() - i,
    {
        let ghost before = res@;
        res.push((owned(pairs[i].0.as_str()), owned(pairs[i].1.as_str())));
        assert(res@ == before.push(res@[i as int]));
        assert(pairs_view(res@) =~= pairs_view(before).push(pairs_view(pairs@)[i as int]));
        assert(pairs_view(res@) =~= pairs_view(pairs@).take(i + 1));
        i += 1;
    }
    assert(pairs_view(pairs@).take(pairs@.len() as int) =~= pairs_view(pairs@));
    res
}

/// Strings paired with strings, in insertion order, with no key twice.
#[derive(Debug)]
pub struct StringMap {
    entries: Vec<(String, String)>,
}

impl View for StringMap {
    type V = Seq<(Seq<char>, Seq<char>)>;

    /// The entries, in insertion order.
    closed spec fn view(&self) -> Seq<(Seq<char>, Seq<char>)> {
        self.entries@.map_values(|e: (String, String)| (e.0@, e.1@))
    }
}

impl StringMap {
    /// No key occurs twice (the type's invariant).
    #[verifier::type_invariant]
    spec fn no_repeated_key(&self) -> bool {
        keys_distinct(self@)
    }

    /// The entries as a map from key to value.
    pub open spec fn map(&self) -> Map<Seq<char>, Seq<char>> {
        pairs_map(self@)
    }

    /// An empty map.
    pub fn new() -> (res: Self)
        ensures
            res@ == Seq::<(Seq<char>, Seq<char>)>::empty(),
    {
        let res = StringMap { entries: Vec::new() };
        assert(res@ =~= Seq::<(Seq<char>, Seq<char>)>::empty());
        res
    }

    /// The number of entries.
    pub fn len(&self) -> (n: usize)
        ensures
            n == self@.len(),
    {
        self.entries.len()
    }

    /// Whether there is no entry.
    pub fn is_empty(&self) -> (b: bool)
        ensures
            b == (self@.len() == 0),
    {
        self.entries.len() == 0
    }

    /// The entries, in insertion order.
    pub fn entries(&self) -> (res: &Vec<(String, String)>)
        ensures
            res@.map_values(|e: (String, String)| (e.0@, e.1@)) == self@,
    {
        &self.entries
    }

    /// The position of the entry with key `key`, if there is one.
    fn position(&self, key: &String) -> (res: Option<usize>)
        ensures
            res matches Some(i) ==> i < self@.len() && self@[i as int].0 == key@,
            res is None ==> !has_key(self@, key@),
    {
        let mut i: usize = 0;
        while i < self.entries.len()
            invariant
                i <= self.entries@.len(),
                forall|j: int| 0 <= j < i ==> (#[trigger] self@[j]).0 != key@,
            decreases self.entries@.len() - i,
        {
            if self.entries[i].0 == *key {
                return Some(i);
            }
            assert(self@[i as int].0 == self.entries@[i as int].0@);
            i += 1;
        }
        None
    }

    /// Whether some entry has the key `key`.
    pub fn contains_key(&self, key: &str) -> (b: bool)
        ensures
            b == has_key(self@, key@),
    {
        self.position(&owned(key)).is_some()
    }

    /// The value of the entry with key `key`.
    pub fn get(&self, key: &str) -> (res: Option<&String>)
        ensures
            res is Some <==> has_key(self@, key@),
            res matches Some(v) ==> self.map()[key@] == v@,
    {
        proof {
            use_type_invariant(self);
        }
        match self.position(&owned(key)) {
            Some(i) => {
                let ghost k = key@;
                proof {
                    let j = choose|j: int| 0 <= j < self@.len() && (#[trigger] self@[j]).0 == k;
                    assert(j == i);
                }
                Some(&self.entries[i].1)
            },
            None => None,
        }
    }

    /// Sets each key of `added` to its value, in order.
    pub fn extend(&mut self, added: &Vec<(String, String)>)
        ensures
            final(self)@ == insert_pairs(old(self)@, pairs_view(added@)),
    {
        let ghost start = self@;
        let mut i: usize = 0;
        while i < added.len()
            invariant
                i <= added@.len(),
                self@ == insert_pairs(start, pairs_view(added@).take(i as int)),
            decreases added@.len() - i,
        {
            self.insert(added[i].0.as_str(), added[i].1.as_str());
            proof {
                assert(pairs_view(added@).take(i + 1).drop_last() =~= pairs_view(added@).take(
                    i as int,
                ));
            }
            i += 1;
        }
        proof {
            assert(pairs_view(added@).take(added@.len() as int) =~= pairs_view(added@));
        }
    }

    /// Sets `key` to `value`: an existing entry keeps its place and takes the
    /// new value, a new key is appended.
    pub fn insert(&mut self, key: &str, value: &str)
        ensures
            final(self)@ == insert_pair(old(self)@, key@, value@),
    {
        proof {
            use_type_invariant(&*self);
        }
        let k = owned(key);
        let v = owned(value);
        let ghost before = self@;
        let found = self.position(&k);
        let mut entries: Vec<(String, String)> = Vec::new();
        std::mem::swap(&mut entries, &mut self.entries);
        match found {
            Some(i) => {
                entries.set(i, (k, v));
            },
            None => {
                entries.push((k, v));
            },
        }
        proof {
            let after = entries@.map_values(|e: (String, String)| (e.0@, e.1@));
            assert(after =~= insert_pair(before, key@, value@));
        }
        self.entries = entries;
    }
}

impl Clone for StringMap {
    /// A map with the same entries.
    fn clone(&self) -> (res: Self)
        ensures
            res@ == self@,
    {
        proof {
            use_type_invariant(self);
        }
        StringMap { entries: copy_pairs(&self.entries) }
    }
}

} // verus!
