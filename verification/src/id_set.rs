//! Small sets of identifiers.

use vstd::prelude::*;
use crate::text::{list_contains, same, texts};

verus! {

/// A set of texts, kept as a list in which none occurs twice.
#[derive(Debug)]
pub struct IdSet {
    ids: Vec<String>,
}

impl View for IdSet {
    type V = Set<Seq<char>>;

    /// The texts.
    closed spec fn view(&self) -> Set<Seq<char>> {
        texts(self.ids@).to_set()
    }
}

impl IdSet {
    /// No text occurs twice.
    pub closed spec fn wf(self) -> bool {
        texts(self.ids@).no_duplicates()
    }

    /// The set without elements.
    pub fn new() -> (s: IdSet)
        ensures
            s.wf(),
            s@ == Set::<Seq<char>>::empty(),
    {
        let s = IdSet { ids: Vec::new() };
        assert(s@ =~= Set::<Seq<char>>::empty());
        s
    }

    /// Whether a text is in the set.
    pub fn contains(&self, id: &str) -> (found: bool)
        ensures
            found == self@.contains(id@),
    {
        list_contains(&self.ids, id)
    }

    /// Whether the set has no elements.
    pub fn is_empty(&self) -> (empty: bool)
        ensures
            empty == (self@ == Set::<Seq<char>>::empty()),
    {
        let n: usize = self.ids.len();
        proof {
            if n == 0 {
                assert(self@ =~= Set::<Seq<char>>::empty());
            } else {
                assert(texts(self.ids@)[0] == self.ids@[0]@);
                assert(self@.contains(self.ids@[0]@));
            }
        }
        n == 0
    }

    /// Puts a text into the set.
    pub fn insert(&mut self, id: &str)
        requires
            old(self).wf(),
        ensures
            final(self).wf(),
            final(self)@ == old(self)@.insert(id@),
    {
        let ghost before = texts(self.ids@);
        if self.contains(id) {
            assert(self@ =~= old(self)@.insert(id@));
        } else {
            self.ids.push(id.to_owned());
            proof {
                let after = texts(self.ids@);
                assert(after =~= before.push(id@));
                assert(!before.contains(id@));
                assert forall|x: Seq<char>| after.contains(x) == (before.contains(x) || x == id@) by {
                    if before.contains(x) {
                        let i = choose|i: int| 0 <= i < before.len() && before[i] == x;
                        assert(after[i] == x);
                    }
                    if x == id@ {
                        assert(after[before.len() as int] == x);
                    }
                }
                assert(self@ =~= old(self)@.insert(id@));
            }
        }
    }

    /// Takes a text out of the set.
    pub fn remove(&mut self, id: &str)
        requires
            old(self).wf(),
        ensures
            final(self).wf(),
            final(self)@ == old(self)@.remove(id@),
    {
        let kept = self.without(id);
        self.ids = kept;
    }

    /// The elements other than one, each once.
    pub fn without(&self, id: &str) -> (kept: Vec<String>)
        requires
            self.wf(),
        ensures
            texts(kept@).no_duplicates(),
            texts(kept@).to_set() == self@.remove(id@),
    {
        let mut kept: Vec<String> = Vec::new();
        let mut i: usize = 0;
        while i < self.ids.len()
            invariant
                i <= self.ids.len(),
                self.wf(),
                texts(kept@).no_duplicates(),
                forall|x: Seq<char>| #[trigger]
                    texts(kept@).contains(x) <==> x != id@ && exists|j: int|
                        0 <= j < i && #[trigger] texts(self.ids@)[j] == x,
            decreases self.ids.len() - i,
        {
            let ghost before = texts(kept@);
            if !same(self.ids[i].as_str(), id) {
                kept.push(self.ids[i].clone());
                proof {
                    let x = self.ids@[i as int]@;
                    let after = texts(kept@);
                    assert(texts(self.ids@)[i as int] == x);
                    assert(after =~= before.push(x));
                    assert(!before.contains(x)) by {
                        if before.contains(x) {
                            let j = choose|j: int| 0 <= j < i && texts(self.ids@)[j] == x;
                            assert(texts(self.ids@)[j] == texts(self.ids@)[i as int]);
                        }
                    }
                    assert forall|y: Seq<char>| #[trigger] after.contains(y) <==> y != id@
                        && exists|j: int| 0 <= j < i + 1 && #[trigger] texts(self.ids@)[j] == y by {
                        if after.contains(y) {
                            if y != x {
                                let k = choose|k: int| 0 <= k < after.len() && after[k] == y;
                                assert(before[k] == y);
                                assert(before.contains(y));
                            }
                        } else {
                            if before.contains(y) {
                                let k = choose|k: int| 0 <= k < before.len() && before[k] == y;
                                assert(after[k] == y);
                            }
                            assert(after[before.len() as int] == x);
                        }
                    }
                }
            }
            i = i + 1;
        }
        proof {
            let all = texts(self.ids@);
            assert forall|x: Seq<char>| texts(kept@).to_set().contains(x) == self@.remove(
                id@,
            ).contains(x) by {
                if all.contains(x) {
                    let j = choose|j: int| 0 <= j < all.len() && all[j] == x;
                    assert(all[j] == x);
                }
                assert(texts(kept@).contains(x) <==> x != id@ && exists|j: int|
                    0 <= j < all.len() && #[trigger] all[j] == x);
            }
            assert(texts(kept@).to_set() =~= self@.remove(id@));
        }
        kept
    }
}

} // verus!
