//! A map from identifiers to display names.

use vstd::prelude::*;

verus! {

/// The map that a list of (key, name) insertions leaves: a later insertion
/// of a key replaces an earlier one.
pub open spec fn entries_map(s: Seq<(String, String)>) -> Map<Seq<char>, Seq<char>>
    decreases s.len(),
{
    if s.len() == 0 {
        Map::empty()
    } else {
        entries_map(s.drop_last()).insert(s.last().0@, s.last().1@)
    }
}

/// Identifiers mapped to the best-known display names.
pub struct NameMap {
    entries: Vec<(String, String)>,
}

impl View for NameMap {
    type V = Map<Seq<char>, Seq<char>>;

    closed spec fn view(&self) -> Map<Seq<char>, Seq<char>> {
        entries_map(self.entries@)
    }
}

/// With no insertion of `k` from position `i` on, the map of the whole list
/// agrees on `k` with the map of its first `i` insertions.
proof fn lemma_untouched_tail(s: Seq<(String, String)>, i: int, k: Seq<char>)
    requires
        0 <= i <= s.len(),
        forall|j: int| i <= j < s.len() ==> (#[trigger] s[j]).0@ != k,
    ensures
        entries_map(s).contains_key(k) == entries_map(s.subrange(0, i)).contains_key(k),
        entries_map(s).contains_key(k) ==> entries_map(s)[k] == entries_map(s.subrange(0, i))[k],
    decreases s.len() - i,
{
    if i < s.len() {
        let t = s.drop_last();
        assert(t.subrange(0, i) == s.subrange(0, i));
        assert(s.last() == s[s.len() - 1]);
        lemma_untouched_tail(t, i, k);
    } else {
        assert(s.subrange(0, i) == s);
    }
}

impl NameMap {
    /// An empty map.
    pub fn new() -> (r: NameMap)
        ensures
            r@ == Map::<Seq<char>, Seq<char>>::empty(),
    {
        NameMap { entries: Vec::new() }
    }

    /// Map `k` to `v`, replacing what `k` was mapped to.
    pub fn insert(&mut self, k: String, v: String)
        ensures
            final(self)@ == old(self)@.insert(k@, v@),
    {
        let ghost before = self.entries@;
        self.entries.push((k, v));
        proof {
            assert(self.entries@.drop_last() == before);
        }
    }

    /// The name `k` is mapped to.
    pub fn get(&self, k: &String) -> (r: Option<String>)
        ensures
            match r {
                Some(v) => self@.contains_key(k@) && self@[k@] == v@,
                None => !self@.contains_key(k@),
            },
    {
        let mut i: usize = self.entries.len();
        while i > 0
            invariant
                i <= self.entries@.len(),
                forall|j: int| i <= j < self.entries@.len() ==> (#[trigger] self.entries@[j]).0@ != k@,
            decreases i,
        {
            if self.entries[i - 1].0 == *k {
                proof {
                    let s = self.entries@;
                    lemma_untouched_tail(s, i as int, k@);
                    let p = s.subrange(0, i as int);
                    assert(p.drop_last() == s.subrange(0, i - 1));
                    assert(p.last() == s[i - 1]);
                }
                return Some(self.entries[i - 1].1.clone());
            }
            i = i - 1;
        }
        proof {
            lemma_untouched_tail(self.entries@, 0, k@);
            assert(self.entries@.subrange(0, 0) == Seq::<(String, String)>::empty());
        }
        None
    }
}

} // verus!
