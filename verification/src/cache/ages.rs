//! The oldest file of each static range.

use vstd::prelude::*;

verus! {

/// A list of ranges and ages as characters and numbers.
pub open spec fn pairs_of(v: Seq<(String, u64)>) -> Seq<(Seq<char>, u64)> {
    Seq::new(v.len(), |i: int| (v[i].0@, v[i].1))
}

/// The map that a list makes, where the last entry of a range counts.
pub open spec fn map_of(p: Seq<(Seq<char>, u64)>) -> Map<Seq<char>, u64>
    decreases p.len(),
{
    if p.len() == 0 {
        Map::empty()
    } else {
        map_of(p.drop_last()).insert(p.last().0, p.last().1)
    }
}

/// No range stands twice in the list.
pub open spec fn distinct(p: Seq<(Seq<char>, u64)>) -> bool {
    forall|i: int, j: int| 0 <= i < j < p.len() ==> (#[trigger] p[i]).0 != (#[trigger] p[j]).0
}

pub proof fn lemma_map_of(p: Seq<(Seq<char>, u64)>)
    requires
        distinct(p),
    ensures
        forall|i: int| 0 <= i < p.len() ==> map_of(p).contains_pair((#[trigger] p[i]).0, p[i].1),
        forall|k: Seq<char>| #[trigger]
            map_of(p).contains_key(k) ==> exists|i: int| 0 <= i < p.len() && (#[trigger] p[i]).0 == k,
    decreases p.len(),
{
    if p.len() > 0 {
        let q = p.drop_last();
        assert forall|i: int, j: int| 0 <= i < j < q.len() implies (#[trigger] q[i]).0 != (
        #[trigger] q[j]).0 by {
            assert(p[i].0 != p[j].0);
        }
        lemma_map_of(q);
        assert forall|i: int| 0 <= i < p.len() implies map_of(p).contains_pair(
            (#[trigger] p[i]).0,
            p[i].1,
        ) by {
            if i < q.len() {
                assert(q[i] == p[i]);
                assert(p[i].0 != p[p.len() - 1].0);
            }
        }
        assert forall|k: Seq<char>| #[trigger] map_of(p).contains_key(k) implies exists|i: int|
            0 <= i < p.len() && (#[trigger] p[i]).0 == k by {
            if k == p.last().0 {
                assert(p[p.len() - 1].0 == k);
            } else {
                assert(map_of(q).contains_key(k));
                let i = choose|i: int| 0 <= i < q.len() && (#[trigger] q[i]).0 == k;
                assert(p[i].0 == k);
            }
        }
    }
}

/// Two lists without a range twice that hold the same entries make the same map.
pub proof fn lemma_same_map(p: Seq<(Seq<char>, u64)>, m: Map<Seq<char>, u64>)
    requires
        distinct(p),
        forall|i: int| 0 <= i < p.len() ==> m.contains_pair((#[trigger] p[i]).0, p[i].1),
        forall|k: Seq<char>| #[trigger]
            m.contains_key(k) ==> exists|i: int| 0 <= i < p.len() && (#[trigger] p[i]).0 == k,
    ensures
        map_of(p) == m,
{
    lemma_map_of(p);
    assert forall|k: Seq<char>| #[trigger] map_of(p).contains_key(k) <==> m.contains_key(k) by {
        if map_of(p).contains_key(k) {
            let i = choose|i: int| 0 <= i < p.len() && (#[trigger] p[i]).0 == k;
            assert(m.contains_pair(p[i].0, p[i].1));
        }
        if m.contains_key(k) {
            let i = choose|i: int| 0 <= i < p.len() && (#[trigger] p[i]).0 == k;
            assert(map_of(p).contains_pair(p[i].0, p[i].1));
        }
    }
    assert forall|k: Seq<char>| #[trigger] map_of(p).contains_key(k) implies map_of(p)[k] == m[k] by {
        let i = choose|i: int| 0 <= i < p.len() && (#[trigger] p[i]).0 == k;
        assert(m.contains_pair(p[i].0, p[i].1));
        assert(map_of(p).contains_pair(p[i].0, p[i].1));
    }
    assert(map_of(p) =~= m);
}

/// The oldest last-modified time, in milliseconds, of the files of each static range.
#[derive(Debug)]
pub struct RangeAges {
    entries: Vec<(String, u64)>,
}

impl View for RangeAges {
    type V = Map<Seq<char>, u64>;

    closed spec fn view(&self) -> Map<Seq<char>, u64> {
        map_of(self.pairs())
    }
}

impl RangeAges {
    #[verifier::type_invariant]
    closed spec fn inv(&self) -> bool {
        distinct(self.pairs())
    }

    /// The entries in the order in which they are kept.
    pub closed spec fn pairs(&self) -> Seq<(Seq<char>, u64)> {
        pairs_of(self.entries@)
    }

    pub fn new() -> (r: Self)
        ensures
            r@ == Map::<Seq<char>, u64>::empty(),
            r.pairs() == Seq::<(Seq<char>, u64)>::empty(),
    {
        let r = RangeAges { entries: Vec::new() };
        assert(r.pairs() =~= Seq::empty());
        r
    }

    /// The entries, no range twice.
    pub fn entries(&self) -> (r: &Vec<(String, u64)>)
        ensures
            pairs_of(r@) == self.pairs(),
            distinct(self.pairs()),
            map_of(self.pairs()) == self@,
    {
        proof {
            use_type_invariant(self);
        }
        &self.entries
    }

    pub fn len(&self) -> (r: usize)
        ensures
            r == self.pairs().len(),
    {
        self.entries.len()
    }

    fn position(&self, range: &str) -> (r: Option<usize>)
        ensures
            match r {
                Some(i) => i < self.pairs().len() && self.pairs()[i as int].0 == range@
                    && self@.contains_pair(range@, self.pairs()[i as int].1),
                None => !self@.contains_key(range@) && forall|j: int|
                    0 <= j < self.pairs().len() ==> (#[trigger] self.pairs()[j]).0 != range@,
            },
    {
        proof {
            use_type_invariant(self);
            lemma_map_of(self.pairs());
        }
        let mut i: usize = 0;
        while i < self.entries.len()
            invariant
                i <= self.entries.len(),
                distinct(self.pairs()),
                forall|j: int| 0 <= j < i ==> (#[trigger] self.pairs()[j]).0 != range@,
            decreases self.entries.len() - i,
        {
            if crate::text::str_eq(self.entries[i].0.as_str(), range) {
                proof {
                    lemma_map_of(self.pairs());
                    assert(self.pairs()[i as int].0 == range@);
                }
                return Some(i);
            }
            i += 1;
        }
        None
    }

    pub fn get(&self, range: &str) -> (r: Option<u64>)
        ensures
            match r {
                Some(age) => self@.contains_pair(range@, age),
                None => !self@.contains_key(range@),
            },
    {
        match self.position(range) {
            Some(i) => Some(self.entries[i].1),
            None => None,
        }
    }

    /// Sets the age of a range; returns the age that it had.
    pub fn insert(&mut self, range: &str, age: u64) -> (r: Option<u64>)
        ensures
            final(self)@ == old(self)@.insert(range@, age),
            match r {
                Some(before) => old(self)@.contains_pair(range@, before),
                None => !old(self)@.contains_key(range@) && final(self).pairs() == old(
                    self,
                ).pairs().push((range@, age)),
            },
    {
        proof {
            use_type_invariant(&*self);
        }
        let ghost before = self.pairs();
        let ghost m = self@.insert(range@, age);
        proof {
            lemma_map_of(before);
        }
        match self.position(range) {
            Some(i) => {
                let mut entries: Vec<(String, u64)> = Vec::new();
                std::mem::swap(&mut entries, &mut self.entries);
                let was: u64 = entries[i].1;
                entries.set(i, (String::from_str(range), age));
                let ghost after = pairs_of(entries@);
                proof {
                    assert(after =~= before.update(i as int, (range@, age)));
                    assert forall|a: int, b: int| 0 <= a < b < after.len() implies (
                    #[trigger] after[a]).0 != (#[trigger] after[b]).0 by {
                        assert(before[a].0 != before[b].0);
                    }
                    assert forall|j: int| 0 <= j < after.len() implies m.contains_pair(
                        (#[trigger] after[j]).0,
                        after[j].1,
                    ) by {
                        if j != i {
                            assert(before[j] == after[j]);
                            if j < i {
                                assert(before[j].0 != before[i as int].0);
                            } else {
                                assert(before[i as int].0 != before[j].0);
                            }
                        }
                    }
                    assert forall|k: Seq<char>| #[trigger] m.contains_key(k) implies exists|j: int|
                        0 <= j < after.len() && (#[trigger] after[j]).0 == k by {
                        if k == range@ {
                            assert(after[i as int].0 == k);
                        } else {
                            let j = choose|j: int| 0 <= j < before.len() && (#[trigger] before[j]).0 == k;
                            assert(after[j].0 == k);
                        }
                    }
                    lemma_same_map(after, m);
                }
                self.entries = entries;
                Some(was)
            },
            None => {
                let mut entries: Vec<(String, u64)> = Vec::new();
                std::mem::swap(&mut entries, &mut self.entries);
                entries.push((String::from_str(range), age));
                let ghost after = pairs_of(entries@);
                proof {
                    assert(after =~= before.push((range@, age)));
                    assert(after.drop_last() =~= before);
                    assert forall|a: int, b: int| 0 <= a < b < after.len() implies (
                    #[trigger] after[a]).0 != (#[trigger] after[b]).0 by {
                        assert(before[a].0 != range@);
                        if b < before.len() {
                            assert(before[a].0 != before[b].0);
                        }
                    }
                }
                self.entries = entries;
                None
            },
        }
    }

    /// Takes a range out; returns the age that it had.
    pub fn remove(&mut self, range: &str) -> (r: Option<u64>)
        ensures
            final(self)@ == old(self)@.remove(range@),
            match r {
                Some(before) => old(self)@.contains_pair(range@, before),
                None => !old(self)@.contains_key(range@),
            },
    {
        proof {
            use_type_invariant(&*self);
        }
        let ghost before = self.pairs();
        let ghost m = self@.remove(range@);
        proof {
            lemma_map_of(before);
        }
        match self.position(range) {
            Some(i) => {
                let mut entries: Vec<(String, u64)> = Vec::new();
                std::mem::swap(&mut entries, &mut self.entries);
                let gone = entries.remove(i);
                let ghost after = pairs_of(entries@);
                proof {
                    assert(after =~= before.remove(i as int));
                    assert forall|a: int, b: int| 0 <= a < b < after.len() implies (
                    #[trigger] after[a]).0 != (#[trigger] after[b]).0 by {
                        let a2 = if a < i { a } else { a + 1 };
                        let b2 = if b < i { b } else { b + 1 };
                        assert(before[a2].0 != before[b2].0);
                    }
                    assert forall|j: int| 0 <= j < after.len() implies m.contains_pair(
                        (#[trigger] after[j]).0,
                        after[j].1,
                    ) by {
                        let j2 = if j < i { j } else { j + 1 };
                        assert(before[j2] == after[j]);
                        if j2 < i {
                            assert(before[j2].0 != before[i as int].0);
                        } else {
                            assert(before[i as int].0 != before[j2].0);
                        }
                    }
                    assert forall|k: Seq<char>| #[trigger] m.contains_key(k) implies exists|j: int|
                        0 <= j < after.len() && (#[trigger] after[j]).0 == k by {
                        let j = choose|j: int| 0 <= j < before.len() && (#[trigger] before[j]).0 == k;
                        let j2 = if j < i { j } else { j - 1 };
                        assert(after[j2].0 == k);
                    }
                    lemma_same_map(after, m);
                }
                self.entries = entries;
                Some(gone.1)
            },
            None => {
                assert(m =~= self@);
                None
            },
        }
    }

    /// A range with the smallest age, where there is any.
    pub fn oldest(&self) -> (r: Option<(String, u64)>)
        ensures
            match r {
                Some((range, age)) => self@.contains_pair(range@, age) && forall|k: Seq<char>|
                    #[trigger]
                    self@.contains_key(k) ==> age <= self@[k],
                None => self@ == Map::<Seq<char>, u64>::empty(),
            },
    {
        proof {
            use_type_invariant(self);
            lemma_map_of(self.pairs());
        }
        if self.entries.len() == 0 {
            return None;
        }
        let mut best: usize = 0;
        let mut i: usize = 1;
        while i < self.entries.len()
            invariant
                i <= self.entries.len(),
                best < self.entries.len(),
                forall|j: int|
                    0 <= j < i ==> self.entries@[best as int].1 <= (#[trigger] self.pairs()[j]).1,
            decreases self.entries.len() - i,
        {
            if self.entries[i].1 < self.entries[best].1 {
                best = i;
            }
            i += 1;
        }
        proof {
            assert(self.pairs()[best as int].1 == self.entries@[best as int].1);
            assert forall|k: Seq<char>| #[trigger] self@.contains_key(k) implies self.entries@[best as int].1
                <= self@[k] by {
                let j = choose|j: int| 0 <= j < self.pairs().len() && (#[trigger] self.pairs()[j]).0 == k;
                assert(self@.contains_pair(self.pairs()[j].0, self.pairs()[j].1));
            }
        }
        Some((self.entries[best].0.clone(), self.entries[best].1))
    }

    /// The ages that a list gives, where the last entry of a range counts.
    pub fn from_pairs(list: &Vec<(String, u64)>) -> (r: Self)
        ensures
            r@ == map_of(pairs_of(list@)),
            distinct(pairs_of(list@)) ==> r.pairs() == pairs_of(list@),
    {
        let mut out = RangeAges::new();
        let ghost all = pairs_of(list@);
        let mut i: usize = 0;
        assert(all.take(0) =~= Seq::empty());
        while i < list.len()
            invariant
                i <= list.len(),
                all == pairs_of(list@),
                out@ == map_of(all.take(i as int)),
                distinct(all) ==> out.pairs() == all.take(i as int),
            decreases list.len() - i,
        {
            assert(all.take(i + 1).drop_last() =~= all.take(i as int));
            assert(all.take(i + 1).last() == (list@[i as int].0@, list@[i as int].1));
            proof {
                if distinct(all) {
                    let t = all.take(i as int);
                    assert forall|a: int, b: int| 0 <= a < b < t.len() implies (#[trigger] t[a]).0 != (
                    #[trigger] t[b]).0 by {
                        assert(all[a].0 != all[b].0);
                    }
                    lemma_map_of(t);
                    if map_of(t).contains_key(all[i as int].0) {
                        let j = choose|j: int| 0 <= j < t.len() && (#[trigger] t[j]).0 == all[i as int].0;
                        assert(all[j].0 != all[i as int].0);
                    }
                }
            }
            let _ = out.insert(list[i].0.as_str(), list[i].1);
            assert(all.take(i + 1) =~= all.take(i as int).push(all[i as int]));
            i += 1;
        }
        assert(all.take(i as int) =~= all);
        out
    }
}

impl Clone for RangeAges {
    fn clone(&self) -> (r: Self)
        ensures
            r@ == self@,
            r.pairs() == self.pairs(),
    {
        RangeAges::from_pairs(self.entries())
    }
}

} // verus!
