use vstd::prelude::*;

use crate::search::{summary_hit, summary_matches};
use crate::text::all_white_space;

verus! {

/// A mapping from file path to summary text, one entry per path.
pub struct Index {
    entries: Vec<(String, String)>,
    model: Ghost<Map<Seq<char>, Seq<char>>>,
}

impl View for Index {
    type V = Map<Seq<char>, Seq<char>>;

    closed spec fn view(&self) -> Map<Seq<char>, Seq<char>> {
        self.model@
    }
}

impl Index {
    /// The paths in storage order.
    pub closed spec fn key_at(&self, i: int) -> Seq<char> {
        self.entries@[i].0@
    }

    pub closed spec fn stored(&self) -> nat {
        self.entries@.len()
    }

    /// Keys are distinct, the entries are exactly the mapping, and no
    /// summary is empty.
    pub closed spec fn wf(&self) -> bool {
        &&& forall|i: int, j: int|
            0 <= i < j < self.entries@.len() ==> #[trigger] self.entries@[i].0@
                != #[trigger] self.entries@[j].0@
        &&& forall|i: int|
            0 <= i < self.entries@.len() ==> self.model@.contains_key(
                #[trigger] self.entries@[i].0@,
            ) && self.model@[self.entries@[i].0@] == self.entries@[i].1@
        &&& forall|k: Seq<char>|
            #[trigger] self.model@.contains_key(k) ==> exists|i: int|
                0 <= i < self.entries@.len() && #[trigger] self.entries@[i].0@ == k
        &&& forall|k: Seq<char>| #[trigger] self.model@.contains_key(k) ==> self.model@[k].len() > 0
    }

    pub fn new() -> (r: Index)
        ensures
            r.wf(),
            r@ == Map::<Seq<char>, Seq<char>>::empty(),
    {
        Index { entries: Vec::new(), model: Ghost(Map::empty()) }
    }

    /// Sets the summary of `path`, replacing any earlier one.
    pub fn insert(&mut self, path: String, summary: String)
        requires
            old(self).wf(),
            summary@.len() > 0,
        ensures
            final(self).wf(),
            final(self)@ == old(self)@.insert(path@, summary@),
    {
        let n = self.entries.len();
        let mut i: usize = 0;
        while i < n
            invariant
                n == self.entries@.len(),
                i <= n,
                self.wf(),
                self == old(self),
                summary@.len() > 0,
                forall|t: int| 0 <= t < i ==> #[trigger] self.entries@[t].0@ != path@,
            decreases n - i,
        {
            if self.entries[i].0 == path {
                let ghost k = path@;
                let ghost m = self.model@.insert(k, summary@);
                self.entries.set(i, (path, summary));
                self.model = Ghost(m);
                assert forall|t: int| 0 <= t < n implies #[trigger] self.entries@[t].0@ == old(
                    self,
                ).entries@[t].0@ by {}
                assert forall|t: int|
                    0 <= t < n implies self.model@.contains_key(#[trigger] self.entries@[t].0@)
                        && self.model@[self.entries@[t].0@] == self.entries@[t].1@ by {
                    if t != i {
                        assert(old(self).entries@[t].0@ != old(self).entries@[i as int].0@);
                    }
                }
                assert forall|a: int, b: int|
                    0 <= a < b < n implies #[trigger] self.entries@[a].0@
                        != #[trigger] self.entries@[b].0@ by {
                    assert(old(self).entries@[a].0@ != old(self).entries@[b].0@);
                }
                assert forall|k2: Seq<char>| #[trigger] self.model@.contains_key(k2) implies self.model@[k2].len() > 0 by {
                    if k2 != k {
                        assert(old(self).model@.contains_key(k2));
                    }
                }
                assert forall|k2: Seq<char>| #[trigger] self.model@.contains_key(k2) implies exists|
                    t: int,
                |
                    0 <= t < self.entries@.len() && #[trigger] self.entries@[t].0@ == k2 by {
                    if k2 != k {
                        let t = choose|t: int|
                            0 <= t < old(self).entries@.len() && #[trigger] old(
                                self,
                            ).entries@[t].0@ == k2;
                        assert(self.entries@[t].0@ == k2);
                    } else {
                        assert(self.entries@[i as int].0@ == k2);
                    }
                }
                return;
            }
            i = i + 1;
        }
        let ghost k = path@;
        let ghost m = self.model@.insert(k, summary@);
        self.entries.push((path, summary));
        self.model = Ghost(m);
        assert forall|k2: Seq<char>| #[trigger] self.model@.contains_key(k2) implies exists|t: int|
            0 <= t < self.entries@.len() && #[trigger] self.entries@[t].0@ == k2 by {
            if k2 != k {
                let t = choose|t: int|
                    0 <= t < old(self).entries@.len() && #[trigger] old(self).entries@[t].0@
                        == k2;
                assert(self.entries@[t].0@ == k2);
            } else {
                assert(self.entries@[n as int].0@ == k2);
            }
        }
    }

    /// The number of paths.
    pub fn len(&self) -> (r: usize)
        requires
            self.wf(),
        ensures
            r == self@.len(),
    {
        proof {
            self.lemma_len();
        }
        self.entries.len()
    }

    /// A well-formed index maps finitely many paths, each to a non-empty summary.
    pub proof fn lemma_finite_nonempty(&self)
        requires
            self.wf(),
        ensures
            self@.dom().finite(),
            forall|k: Seq<char>| #[trigger] self@.contains_key(k) ==> self@[k].len() > 0,
    {
        self.lemma_len();
    }

    proof fn lemma_len(&self)
        requires
            self.wf(),
        ensures
            self@.len() == self.entries@.len(),
            self@.dom().finite(),
        decreases self.entries@.len(),
    {
        let keys = Seq::new(self.entries@.len(), |i: int| self.entries@[i].0@);
        assert(keys.no_duplicates());
        assert(self@.dom() =~= keys.to_set()) by {
            assert forall|k: Seq<char>| self@.dom().contains(k) implies keys.to_set().contains(k) by {
                let t = choose|t: int| 0 <= t < self.entries@.len() && #[trigger] self.entries@[t].0@ == k;
                assert(keys[t] == k);
            }
        }
        keys.unique_seq_to_set();
        vstd::seq_lib::seq_to_set_is_finite(keys);
    }

    /// The summary of `path`, if it has one.
    pub fn get(&self, path: &str) -> (r: Option<String>)
        requires
            self.wf(),
        ensures
            r matches Some(s) ==> self@.contains_key(path@) && s@ == self@[path@],
            r is None ==> !self@.contains_key(path@),
    {
        let p = String::from_str(path);
        let n = self.entries.len();
        let mut i: usize = 0;
        while i < n
            invariant
                n == self.entries@.len(),
                i <= n,
                p@ == path@,
                self.wf(),
                forall|t: int| 0 <= t < i ==> #[trigger] self.entries@[t].0@ != path@,
            decreases n - i,
        {
            if self.entries[i].0 == p {
                return Some(self.entries[i].1.clone());
            }
            i = i + 1;
        }
        None
    }

    /// Every (path, summary) pair, each path once.
    pub fn pairs(&self) -> (r: Vec<(String, String)>)
        requires
            self.wf(),
        ensures
            forall|i: int|
                0 <= i < r@.len() ==> self@.contains_key(#[trigger] r@[i].0@) && self@[r@[i].0@]
                    == r@[i].1@,
            forall|k: Seq<char>|
                #[trigger] self@.contains_key(k) ==> exists|i: int|
                    0 <= i < r@.len() && #[trigger] r@[i].0@ == k,
            forall|i: int, j: int|
                0 <= i < j < r@.len() ==> #[trigger] r@[i].0@ != #[trigger] r@[j].0@,
    {
        let mut r: Vec<(String, String)> = Vec::new();
        let n = self.entries.len();
        let mut i: usize = 0;
        while i < n
            invariant
                n == self.entries@.len(),
                i <= n,
                r@.len() == i,
                forall|t: int|
                    0 <= t < i ==> #[trigger] r@[t].0@ == self.entries@[t].0@ && r@[t].1@
                        == self.entries@[t].1@,
            decreases n - i,
        {
            let k = self.entries[i].0.clone();
            let v = self.entries[i].1.clone();
            r.push((k, v));
            i = i + 1;
        }
        assert forall|k: Seq<char>| #[trigger] self@.contains_key(k) implies exists|i: int|
            0 <= i < r@.len() && #[trigger] r@[i].0@ == k by {
            let t = choose|t: int| 0 <= t < self.entries@.len() && #[trigger] self.entries@[t].0@ == k;
            assert(r@[t].0@ == k);
        }
        assert forall|i: int, j: int| 0 <= i < j < r@.len() implies #[trigger] r@[i].0@ != #[trigger] r@[j].0@ by {
            assert(self.entries@[i].0@ != self.entries@[j].0@);
        }
        r
    }
}

/// Recording a path twice leaves a single entry for it, holding the summary
/// recorded last; the other entries are those of the first mapping.
pub proof fn lemma_last_write_wins(
    before: Map<Seq<char>, Seq<char>>,
    path: Seq<char>,
    first: Seq<char>,
    second: Seq<char>,
)
    ensures
        before.insert(path, first).insert(path, second) == before.insert(path, second),
        before.insert(path, first).insert(path, second)[path] == second,
        before.insert(path, first).insert(path, second).dom() == before.dom().insert(path),
{
    assert(before.insert(path, first).insert(path, second) =~= before.insert(path, second));
}

/// Every (path, summary) pair of `index` whose summary is hit by `query`,
/// each path once.
pub fn search_index(index: &Index, query: &str) -> (r: Vec<(String, String)>)
    requires
        index.wf(),
    ensures
        forall|i: int|
            0 <= i < r@.len() ==> index@.contains_key(#[trigger] r@[i].0@) && index@[r@[i].0@]
                == r@[i].1@ && summary_hit(r@[i].1@, query@),
        forall|k: Seq<char>|
            #[trigger] index@.contains_key(k) && summary_hit(index@[k], query@) ==> exists|i: int|
                0 <= i < r@.len() && #[trigger] r@[i].0@ == k,
        forall|i: int, j: int| 0 <= i < j < r@.len() ==> #[trigger] r@[i].0@ != #[trigger] r@[j].0@,
        all_white_space(query@) ==> r@.len() == 0,
{
    let all = index.pairs();
    let mut r: Vec<(String, String)> = Vec::new();
    let ghost mut picked: Seq<int> = Seq::empty();
    let n = all.len();
    let mut i: usize = 0;
    while i < n
        invariant
            n == all@.len(),
            i <= n,
            picked.len() == r@.len(),
            all_white_space(query@) ==> r@.len() == 0,
            forall|t: int| 0 <= t < picked.len() ==> 0 <= #[trigger] picked[t] < i,
            forall|t: int, u: int| 0 <= t < u < picked.len() ==> #[trigger] picked[t] < #[trigger] picked[u],
            forall|t: int|
                0 <= t < r@.len() ==> #[trigger] r@[t].0@ == all@[picked[t]].0@ && r@[t].1@
                    == all@[picked[t]].1@ && summary_hit(r@[t].1@, query@),
            forall|j: int|
                0 <= j < i && summary_hit(#[trigger] all@[j].1@, query@) ==> exists|t: int|
                    0 <= t < picked.len() && picked[t] == j,
        decreases n - i,
    {
        if summary_matches(all[i].1.as_str(), query) {
            let k = all[i].0.clone();
            let v = all[i].1.clone();
            r.push((k, v));
            proof {
                let ghost before = picked;
                picked = picked.push(i as int);
                assert(picked[picked.len() - 1] == i);
                assert forall|j: int|
                    0 <= j < i + 1 && summary_hit(#[trigger] all@[j].1@, query@) implies exists|
                    t: int,
                | 0 <= t < picked.len() && picked[t] == j by {
                    if j < i {
                        let t = choose|t: int| 0 <= t < before.len() && before[t] == j;
                        assert(picked[t] == j);
                    } else {
                        assert(picked[picked.len() - 1] == j);
                    }
                }
            }
        }
        i = i + 1;
    }
    assert forall|k: Seq<char>|
        #[trigger] index@.contains_key(k) && summary_hit(index@[k], query@) implies exists|i: int|
        0 <= i < r@.len() && #[trigger] r@[i].0@ == k by {
        let j = choose|j: int| 0 <= j < all@.len() && #[trigger] all@[j].0@ == k;
        assert(summary_hit(all@[j].1@, query@));
        let t = choose|t: int| 0 <= t < picked.len() && picked[t] == j;
        assert(r@[t].0@ == k);
    }
    assert forall|i: int, j: int| 0 <= i < j < r@.len() implies #[trigger] r@[i].0@ != #[trigger] r@[j].0@ by {
        assert(picked[i] < picked[j]);
        assert(all@[picked[i]].0@ != all@[picked[j]].0@);
    }
    assert forall|t: int| 0 <= t < r@.len() implies index@.contains_key(#[trigger] r@[t].0@) && index@[r@[t].0@]
                == r@[t].1@ && summary_hit(r@[t].1@, query@) by {
        assert(index@.contains_key(all@[picked[t]].0@));
    }
    r
}

} // verus!
