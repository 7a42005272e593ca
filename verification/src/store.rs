use vstd::prelude::*;

verus! {

/// The map that a sequence of pairs stands for: a later pair overrides an
/// earlier one with the same key.
pub open spec fn pairs_map(pairs: Seq<(Seq<char>, Seq<char>)>) -> Map<Seq<char>, Seq<char>>
    decreases pairs.len(),
{
    if pairs.len() == 0 {
        Map::empty()
    } else {
        pairs_map(pairs.drop_last()).insert(pairs.last().0, pairs.last().1)
    }
}

/// No key stands at two places.
pub open spec fn distinct_keys(pairs: Seq<(Seq<char>, Seq<char>)>) -> bool {
    forall|i: int, j: int|
        0 <= i < pairs.len() && 0 <= j < pairs.len() && #[trigger] pairs[i].0 == #[trigger] pairs[j].0
            ==> i == j
}

/// The pairs of strings as pairs of character sequences.
pub open spec fn pairs_view(entries: Seq<(String, String)>) -> Seq<(Seq<char>, Seq<char>)> {
    Seq::new(entries.len(), |i: int| (entries[i].0@, entries[i].1@))
}

/// A key is in the map exactly if some pair holds it.
pub proof fn lemma_pairs_map_dom(pairs: Seq<(Seq<char>, Seq<char>)>, key: Seq<char>)
    ensures
        pairs_map(pairs).dom().contains(key) <==> exists|i: int|
            0 <= i < pairs.len() && #[trigger] pairs[i].0 == key,
    decreases pairs.len(),
{
    if pairs.len() > 0 {
        let front = pairs.drop_last();
        lemma_pairs_map_dom(front, key);
        if pairs_map(pairs).dom().contains(key) {
            if pairs.last().0 == key {
                assert(pairs[pairs.len() - 1].0 == key);
            } else {
                let i = choose|i: int| 0 <= i < front.len() && #[trigger] front[i].0 == key;
                assert(pairs[i].0 == key);
            }
        }
        if exists|i: int| 0 <= i < pairs.len() && #[trigger] pairs[i].0 == key {
            let i = choose|i: int| 0 <= i < pairs.len() && #[trigger] pairs[i].0 == key;
            if i < pairs.len() - 1 {
                assert(front[i].0 == key);
            }
        }
    }
}

/// Where no key stands twice, each pair's key maps to that pair's value.
pub proof fn lemma_pairs_map_value(pairs: Seq<(Seq<char>, Seq<char>)>, i: int)
    requires
        distinct_keys(pairs),
        0 <= i < pairs.len(),
    ensures
        pairs_map(pairs).dom().contains(pairs[i].0),
        pairs_map(pairs)[pairs[i].0] == pairs[i].1,
    decreases pairs.len(),
{
    let front = pairs.drop_last();
    if i < pairs.len() - 1 {
        assert(distinct_keys(front)) by {
            assert forall|a: int, b: int|
                0 <= a < front.len() && 0 <= b < front.len() && #[trigger] front[a].0
                    == #[trigger] front[b].0 implies a == b by {
                assert(pairs[a].0 == pairs[b].0);
            }
        }
        assert(front[i] == pairs[i]);
        lemma_pairs_map_value(front, i);
        assert(pairs[pairs.len() - 1].0 != pairs[i].0);
    }
}

/// The record of the paths that were made in target trees: each managed target
/// path with the package path it was made for.
pub struct Store {
    entries: Vec<(String, String)>,
}

impl View for Store {
    type V = Map<Seq<char>, Seq<char>>;

    closed spec fn view(&self) -> Map<Seq<char>, Seq<char>> {
        pairs_map(pairs_view(self.entries@))
    }
}

impl Store {
    /// The managed paths in the order in which they are kept.
    pub closed spec fn pairs(&self) -> Seq<(Seq<char>, Seq<char>)> {
        pairs_view(self.entries@)
    }

    /// Every target path is kept once, and the map is the one its pairs stand for.
    pub closed spec fn wf(&self) -> bool {
        distinct_keys(pairs_view(self.entries@))
    }

    /// The store is the map that its pairs stand for, and none of their keys
    /// comes twice.
    pub proof fn lemma_pairs(&self)
        requires
            self.wf(),
        ensures
            self@ == pairs_map(self.pairs()),
            distinct_keys(self.pairs()),
    {
    }

    /// Each pair's key maps to that pair's value.
    pub proof fn lemma_pair_value(&self, i: int)
        requires
            self.wf(),
            0 <= i < self.pairs().len(),
        ensures
            self@.dom().contains(self.pairs()[i].0),
            self@[self.pairs()[i].0] == self.pairs()[i].1,
    {
        lemma_pairs_map_value(self.pairs(), i);
    }

    /// An empty store.
    pub fn new() -> (store: Store)
        ensures
            store.wf(),
            store@ == Map::<Seq<char>, Seq<char>>::empty(),
            store.pairs().len() == 0,
    {
        Store { entries: Vec::new() }
    }

    /// The number of managed paths.
    pub fn len(&self) -> (n: usize)
        requires
            self.wf(),
        ensures
            n == self.pairs().len(),
    {
        self.entries.len()
    }

    /// The place of `target` among the pairs.
    fn position(&self, target: &String) -> (found: Option<usize>)
        ensures
            match found {
                Some(i) => i < self.pairs().len() && self.pairs()[i as int].0 == target@,
                None => forall|i: int| 0 <= i < self.pairs().len() ==> (#[trigger] self.pairs()[i]).0 != target@,
            },
    {
        let mut i: usize = 0;
        while i < self.entries.len()
            invariant
                i <= self.entries.len(),
                forall|j: int| 0 <= j < i ==> (#[trigger] self.pairs()[j]).0 != target@,
            decreases self.entries.len() - i,
        {
            if self.entries[i].0 == *target {
                return Some(i);
            }
            i += 1;
        }
        None
    }

    /// Whether `target` is a managed path.
    pub fn contains_key(&self, target: &String) -> (found: bool)
        requires
            self.wf(),
        ensures
            found == self@.dom().contains(target@),
    {
        proof {
            lemma_pairs_map_dom(self.pairs(), target@);
        }
        self.position(target).is_some()
    }

    /// The package path that `target` was made for.
    pub fn get(&self, target: &String) -> (source: Option<&String>)
        requires
            self.wf(),
        ensures
            match source {
                Some(s) => self@.dom().contains(target@) && self@[target@] == s@,
                None => !self@.dom().contains(target@),
            },
    {
        proof {
            lemma_pairs_map_dom(self.pairs(), target@);
        }
        match self.position(target) {
            Some(i) => {
                proof {
                    lemma_pairs_map_value(self.pairs(), i as int);
                }
                Some(&self.entries[i].1)
            },
            None => None,
        }
    }

    /// Records that `target` was made for `source`, in place of what was
    /// recorded for `target` before.
    pub fn insert(&mut self, target: String, source: String)
        requires
            old(self).wf(),
        ensures
            final(self).wf(),
            final(self)@ == old(self)@.insert(target@, source@),
    {
        let ghost before = self.pairs();
        match self.position(&target) {
            Some(i) => {
                self.entries.set(i, (target, source));
                proof {
                    let after = self.pairs();
                    assert(after =~= before.update(i as int, (target@, source@)));
                    lemma_pairs_replaced(before, i as int, source@);
                }
            },
            None => {
                self.entries.push((target, source));
                proof {
                    let after = self.pairs();
                    assert(after =~= before.push((target@, source@)));
                    assert(after.drop_last() =~= before);
                }
            },
        }
    }

    /// Retires `target`. Says whether it was a managed path.
    pub fn remove(&mut self, target: &String) -> (was_managed: bool)
        requires
            old(self).wf(),
        ensures
            final(self).wf(),
            final(self)@ == old(self)@.remove(target@),
            was_managed == old(self)@.dom().contains(target@),
    {
        let ghost before = self.pairs();
        proof {
            lemma_pairs_map_dom(before, target@);
        }
        match self.position(target) {
            Some(i) => {
                self.entries.remove(i);
                proof {
                    let after = self.pairs();
                    assert(after =~= before.remove(i as int));
                    lemma_pairs_removed(before, i as int);
                }
                true
            },
            None => {
                assert(self@ =~= self@.remove(target@));
                false
            },
        }
    }

    /// The store that a list of pairs stands for, each a target path with the
    /// package path it was made for. Where a target path comes twice, the
    /// later pair counts.
    pub fn from_pairs(pairs: Vec<(String, String)>) -> (store: Store)
        ensures
            store.wf(),
            store@ == pairs_map(pairs_view(pairs@)),
    {
        let mut store = Store::new();
        let mut i: usize = 0;
        while i < pairs.len()
            invariant
                i <= pairs.len(),
                store.wf(),
                store@ == pairs_map(pairs_view(pairs@).take(i as int)),
            decreases pairs.len() - i,
        {
            proof {
                assert(pairs_view(pairs@).take(i + 1).drop_last() =~= pairs_view(pairs@).take(i as int));
            }
            store.insert(pairs[i].0.clone(), pairs[i].1.clone());
            i += 1;
        }
        assert(pairs_view(pairs@).take(i as int) =~= pairs_view(pairs@));
        store
    }

    /// The managed paths as a list of pairs, in the order in which they are
    /// kept: what `from_pairs` makes the same store of.
    pub fn to_pairs(&self) -> (pairs: Vec<(String, String)>)
        requires
            self.wf(),
        ensures
            pairs_view(pairs@) == self.pairs(),
            pairs_map(pairs_view(pairs@)) == self@,
            distinct_keys(pairs_view(pairs@)),
    {
        let mut pairs: Vec<(String, String)> = Vec::new();
        let mut i: usize = 0;
        while i < self.entries.len()
            invariant
                i <= self.entries.len(),
                pairs@.len() == i,
                forall|j: int| 0 <= j < i ==> (#[trigger] pairs@[j]).0@ == self.entries@[j].0@ && pairs@[j].1@ == self.entries@[j].1@,
            decreases self.entries.len() - i,
        {
            pairs.push((self.entries[i].0.clone(), self.entries[i].1.clone()));
            i += 1;
        }
        assert(pairs_view(pairs@) =~= self.pairs());
        pairs
    }

    /// The managed target paths, in the order in which they are kept.
    pub fn keys(&self) -> (keys: Vec<String>)
        requires
            self.wf(),
        ensures
            keys@.len() == self.pairs().len(),
            forall|i: int| 0 <= i < keys@.len() ==> (#[trigger] keys@[i])@ == self.pairs()[i].0,
            forall|i: int| 0 <= i < keys@.len() ==> self@.dom().contains((#[trigger] keys@[i])@),
            forall|k: Seq<char>| self@.dom().contains(k) ==> exists|i: int| 0 <= i < keys@.len() && (#[trigger] keys@[i])@ == k,
            forall|i: int, j: int| 0 <= i < j < keys@.len() ==> (#[trigger] keys@[i])@ != (#[trigger] keys@[j])@,
    {
        let mut keys: Vec<String> = Vec::new();
        let mut i: usize = 0;
        while i < self.entries.len()
            invariant
                i <= self.entries.len(),
                keys@.len() == i,
                forall|j: int| 0 <= j < i ==> (#[trigger] keys@[j])@ == self.pairs()[j].0,
            decreases self.entries.len() - i,
        {
            keys.push(self.entries[i].0.clone());
            i += 1;
        }
        proof {
            let pairs = self.pairs();
            assert forall|j: int| 0 <= j < keys@.len() implies self@.dom().contains((#[trigger] keys@[j])@) by {
                lemma_pairs_map_value(pairs, j);
            }
            assert forall|k: Seq<char>| self@.dom().contains(k) implies exists|j: int| 0 <= j < keys@.len() && (#[trigger] keys@[j])@ == k by {
                lemma_pairs_map_dom(pairs, k);
                let j = choose|j: int| 0 <= j < pairs.len() && #[trigger] pairs[j].0 == k;
                assert(keys@[j]@ == k);
            }
            assert forall|a: int, b: int| 0 <= a < b < keys@.len() implies (#[trigger] keys@[a])@ != (#[trigger] keys@[b])@ by {
                assert(pairs[a].0 == keys@[a]@);
                assert(pairs[b].0 == keys@[b]@);
            }
        }
        keys
    }
}

/// Replacing the value of the pair at `i` is inserting under that pair's key.
proof fn lemma_pairs_replaced(pairs: Seq<(Seq<char>, Seq<char>)>, i: int, value: Seq<char>)
    requires
        distinct_keys(pairs),
        0 <= i < pairs.len(),
    ensures
        distinct_keys(pairs.update(i, (pairs[i].0, value))),
        pairs_map(pairs.update(i, (pairs[i].0, value))) == pairs_map(pairs).insert(pairs[i].0, value),
{
    let key = pairs[i].0;
    let after = pairs.update(i, (key, value));
    assert(distinct_keys(after)) by {
        assert forall|a: int, b: int|
            0 <= a < after.len() && 0 <= b < after.len() && #[trigger] after[a].0 == #[trigger] after[b].0 implies a == b by {
            assert(pairs[a].0 == pairs[b].0);
        }
    }
    assert forall|k: Seq<char>| pairs_map(after).dom().contains(k) <==> pairs_map(pairs).insert(key, value).dom().contains(k) by {
        lemma_pairs_map_dom(pairs, k);
        lemma_pairs_map_dom(after, k);
        if exists|j: int| 0 <= j < pairs.len() && #[trigger] pairs[j].0 == k {
            let j = choose|j: int| 0 <= j < pairs.len() && #[trigger] pairs[j].0 == k;
            assert(after[j].0 == k);
        }
        if exists|j: int| 0 <= j < after.len() && #[trigger] after[j].0 == k {
            let j = choose|j: int| 0 <= j < after.len() && #[trigger] after[j].0 == k;
            assert(pairs[j].0 == k);
        }
        if k == key {
            assert(after[i].0 == k);
        }
    }
    assert forall|k: Seq<char>| pairs_map(after).dom().contains(k) implies #[trigger] pairs_map(after)[k] == pairs_map(pairs).insert(key, value)[k] by {
        lemma_pairs_map_dom(after, k);
        let j = choose|j: int| 0 <= j < after.len() && #[trigger] after[j].0 == k;
        lemma_pairs_map_value(after, j);
        lemma_pairs_map_value(pairs, j);
        if j != i {
            assert(pairs[j].0 != pairs[i].0);
        }
    }
    assert(pairs_map(after) =~= pairs_map(pairs).insert(key, value));
}

/// Taking out the pair at `i` is removing that pair's key.
proof fn lemma_pairs_removed(pairs: Seq<(Seq<char>, Seq<char>)>, i: int)
    requires
        distinct_keys(pairs),
        0 <= i < pairs.len(),
    ensures
        distinct_keys(pairs.remove(i)),
        pairs_map(pairs.remove(i)) == pairs_map(pairs).remove(pairs[i].0),
{
    let key = pairs[i].0;
    let after = pairs.remove(i);
    assert(distinct_keys(after)) by {
        assert forall|a: int, b: int|
            0 <= a < after.len() && 0 <= b < after.len() && #[trigger] after[a].0 == #[trigger] after[b].0 implies a == b by {
            let a0 = if a < i { a } else { a + 1 };
            let b0 = if b < i { b } else { b + 1 };
            assert(pairs[a0].0 == pairs[b0].0);
        }
    }
    assert forall|k: Seq<char>| pairs_map(after).dom().contains(k) <==> pairs_map(pairs).remove(key).dom().contains(k) by {
        lemma_pairs_map_dom(pairs, k);
        lemma_pairs_map_dom(after, k);
        if exists|j: int| 0 <= j < after.len() && #[trigger] after[j].0 == k {
            let j = choose|j: int| 0 <= j < after.len() && #[trigger] after[j].0 == k;
            let j0 = if j < i { j } else { j + 1 };
            assert(pairs[j0].0 == k);
            assert(pairs[j0].0 == pairs[i].0 ==> j0 == i);
        }
        if k != key && exists|j: int| 0 <= j < pairs.len() && #[trigger] pairs[j].0 == k {
            let j = choose|j: int| 0 <= j < pairs.len() && #[trigger] pairs[j].0 == k;
            let j1 = if j < i { j } else { j - 1 };
            assert(after[j1].0 == k);
        }
    }
    assert forall|k: Seq<char>| pairs_map(after).dom().contains(k) implies #[trigger] pairs_map(after)[k] == pairs_map(pairs).remove(key)[k] by {
        lemma_pairs_map_dom(after, k);
        let j = choose|j: int| 0 <= j < after.len() && #[trigger] after[j].0 == k;
        let j0 = if j < i { j } else { j + 1 };
        lemma_pairs_map_value(after, j);
        lemma_pairs_map_value(pairs, j0);
    }
    assert(pairs_map(after) =~= pairs_map(pairs).remove(key));
}

} // verus!
