//! The binding map: named string values produced by generators and read by
//! template resolution. One `ItemData` holds one binding set or one
//! accumulated context; its mathematical view is a `Map` from key
//! characters to value characters.

use vstd::map::*;
use vstd::prelude::*;

use crate::text::str_eq;

verus! {

/// Association pairs with no repeated key.
pub open spec fn wf_pairs(s: Seq<(String, String)>) -> bool {
    forall|i: int, j: int|
        0 <= i < j < s.len() ==> (#[trigger] s[i]).0@ != (#[trigger] s[j]).0@
}

/// The map that a pair list denotes; later pairs win.
pub open spec fn pairs_map(s: Seq<(String, String)>) -> Map<Seq<char>, Seq<char>>
    decreases s.len(),
{
    if s.len() == 0 {
        Map::empty()
    } else {
        pairs_map(s.drop_last()).insert(s.last().0@, s.last().1@)
    }
}

/// A mapping from variable names to string values, with unique keys.
pub struct ItemData {
    pub pairs: Vec<(String, String)>,
}

impl View for ItemData {
    type V = Map<Seq<char>, Seq<char>>;

    open spec fn view(&self) -> Map<Seq<char>, Seq<char>> {
        pairs_map(self.pairs@)
    }
}

pub proof fn lemma_pairs_map_contains(s: Seq<(String, String)>, k: Seq<char>)
    ensures
        pairs_map(s).contains_key(k) <==> exists|i: int|
            0 <= i < s.len() && (#[trigger] s[i]).0@ == k,
    decreases s.len(),
{
    if s.len() == 0 {
    } else {
        lemma_pairs_map_contains(s.drop_last(), k);
        if s.last().0@ == k {
            assert(s[s.len() - 1].0@ == k);
        } else {
            if pairs_map(s).contains_key(k) {
                let i = choose|i: int| 0 <= i < s.drop_last().len() && (#[trigger] s.drop_last()[i]).0@ == k;
                assert(s[i].0@ == k);
            }
            if exists|i: int| 0 <= i < s.len() && (#[trigger] s[i]).0@ == k {
                let i = choose|i: int| 0 <= i < s.len() && (#[trigger] s[i]).0@ == k;
                assert(i < s.len() - 1);
                assert(s.drop_last()[i].0@ == k);
            }
        }
    }
}

pub proof fn lemma_pairs_map_index(s: Seq<(String, String)>, i: int)
    requires
        wf_pairs(s),
        0 <= i < s.len(),
    ensures
        pairs_map(s).contains_key(s[i].0@),
        pairs_map(s)[s[i].0@] == s[i].1@,
    decreases s.len(),
{
    if i == s.len() - 1 {
    } else {
        assert(s[i].0@ != s[s.len() - 1].0@);
        assert(s.drop_last()[i] == s[i]);
        lemma_pairs_map_index(s.drop_last(), i);
    }
}

pub proof fn lemma_pairs_map_congruent(a: Seq<(String, String)>, b: Seq<(String, String)>)
    requires
        a.len() == b.len(),
        forall|i: int|
            0 <= i < a.len() ==> (#[trigger] a[i]).0@ == (#[trigger] b[i]).0@ && a[i].1@ == b[i].1@,
    ensures
        pairs_map(a) == pairs_map(b),
    decreases a.len(),
{
    if a.len() == 0 {
        assert(pairs_map(a) =~= pairs_map(b));
    } else {
        assert(forall|i: int|
            0 <= i < a.drop_last().len() ==> (#[trigger] a.drop_last()[i]).0@ == (
            #[trigger] b.drop_last()[i]).0@ && a.drop_last()[i].1@ == b.drop_last()[i].1@);
        lemma_pairs_map_congruent(a.drop_last(), b.drop_last());
        assert(a[a.len() - 1].0@ == b[b.len() - 1].0@);
        assert(a[a.len() - 1].1@ == b[b.len() - 1].1@);
    }
}

impl ItemData {
    /// Unique keys.
    pub open spec fn wf(&self) -> bool {
        wf_pairs(self.pairs@)
    }

    /// The empty binding set.
    pub fn new() -> (r: ItemData)
        ensures
            r@ == Map::<Seq<char>, Seq<char>>::empty(),
            r.wf(),
            r.pairs@.len() == 0,
    {
        ItemData { pairs: Vec::new() }
    }

    /// A binding set holding one pair.
    pub fn from_pair(k: String, v: String) -> (r: ItemData)
        ensures
            r@ == Map::<Seq<char>, Seq<char>>::empty().insert(k@, v@),
            r.wf(),
    {
        let mut pairs: Vec<(String, String)> = Vec::new();
        pairs.push((k, v));
        let r = ItemData { pairs };
        proof {
            assert(r.pairs@.drop_last() =~= Seq::<(String, String)>::empty());
            assert(pairs_map(r.pairs@.drop_last()) =~= Map::<Seq<char>, Seq<char>>::empty());
            assert(r@ =~= Map::<Seq<char>, Seq<char>>::empty().insert(k@, v@));
        }
        r
    }

    /// Number of pairs held.
    pub fn count(&self) -> (r: usize)
        ensures
            r == self.pairs@.len(),
    {
        self.pairs.len()
    }

    /// Look a name up.
    pub fn get<'a>(&'a self, k: &str) -> (r: Option<&'a String>)
        requires
            self.wf(),
        ensures
            match r {
                Some(v) => self@.contains_key(k@) && v@ == self@[k@],
                None => !self@.contains_key(k@),
            },
    {
        let n = self.pairs.len();
        let mut i: usize = 0;
        while i < n
            invariant
                0 <= i <= n,
                n == self.pairs@.len(),
                self.wf(),
                forall|t: int| 0 <= t < i ==> (#[trigger] self.pairs@[t]).0@ != k@,
            decreases n - i,
        {
            if str_eq(self.pairs[i].0.as_str(), k) {
                proof {
                    lemma_pairs_map_index(self.pairs@, i as int);
                }
                return Some(&self.pairs[i].1);
            }
            i = i + 1;
        }
        proof {
            lemma_pairs_map_contains(self.pairs@, k@);
        }
        None
    }

    /// Bind a name to a value, replacing any earlier binding of it.
    pub fn insert_pair(&mut self, k: String, v: String)
        requires
            old(self).wf(),
        ensures
            final(self).wf(),
            final(self)@ == old(self)@.insert(k@, v@),
    {
        let n = self.pairs.len();
        let mut i: usize = 0;
        while i < n
            invariant
                0 <= i <= n,
                n == self.pairs@.len(),
                self == old(self),
                self.wf(),
                forall|t: int| 0 <= t < i ==> (#[trigger] self.pairs@[t]).0@ != k@,
            decreases n - i,
        {
            if str_eq(self.pairs[i].0.as_str(), k.as_str()) {
                let ghost before = self.pairs@;
                self.pairs[i] = (k, v);
                proof {
                    lemma_pairs_map_replace(before, self.pairs@, i as int);
                }
                return ;
            }
            i = i + 1;
        }
        self.pairs.push((k, v));
        proof {
            assert(self.pairs@.drop_last() =~= old(self).pairs@);
            assert(forall|t: int|
                0 <= t < old(self).pairs@.len() ==> (#[trigger] old(self).pairs@[t]).0@ != k@);
            assert(forall|t: int|
                0 <= t < self.pairs@.len() - 1 ==> (#[trigger] self.pairs@[t]).0@ != k@);
        }
    }

    /// Merge another binding set into this one; the other side wins on a
    /// shared name, as the context update at each iterator step demands.
    pub fn extend_with(&mut self, other: &ItemData)
        requires
            old(self).wf(),
            other.wf(),
        ensures
            final(self).wf(),
            final(self)@ == old(self)@.union_prefer_right(other@),
    {
        let n = other.pairs.len();
        let ghost m0 = self@;
        let mut i: usize = 0;
        while i < n
            invariant
                0 <= i <= n,
                n == other.pairs@.len(),
                self.wf(),
                other.wf(),
                self@ == m0.union_prefer_right(pairs_map(other.pairs@.take(i as int))),
            decreases n - i,
        {
            let k = other.pairs[i].0.clone();
            let v = other.pairs[i].1.clone();
            self.insert_pair(k, v);
            proof {
                assert(other.pairs@.take(i + 1).drop_last() =~= other.pairs@.take(i as int));
                let small = pairs_map(other.pairs@.take(i as int));
                let big = pairs_map(other.pairs@.take(i + 1));
                assert(big == small.insert(other.pairs@[i as int].0@, other.pairs@[i as int].1@));
                assert(self@ =~= m0.union_prefer_right(big));
            }
            i = i + 1;
        }
        proof {
            assert(other.pairs@.take(n as int) =~= other.pairs@);
        }
    }

    /// Decide well-formedness at run time: no key occurs twice.
    pub fn check_unique(&self) -> (r: bool)
        ensures
            r == self.wf(),
    {
        let n = self.pairs.len();
        let mut i: usize = 0;
        while i < n
            invariant
                0 <= i <= n,
                n == self.pairs@.len(),
                forall|a: int, b: int|
                    0 <= a < b < self.pairs@.len() && a < i ==> (#[trigger] self.pairs@[a]).0@ != (
                    #[trigger] self.pairs@[b]).0@,
            decreases n - i,
        {
            let mut j: usize = i + 1;
            while j < n
                invariant
                    i < j <= n,
                    i < n,
                    n == self.pairs@.len(),
                    forall|b: int|
                        i < b < j ==> (#[trigger] self.pairs@[b]).0@ != self.pairs@[i as int].0@,
                decreases n - j,
            {
                if str_eq(self.pairs[i].0.as_str(), self.pairs[j].0.as_str()) {
                    return false;
                }
                j = j + 1;
            }
            i = i + 1;
        }
        true
    }

    /// An independent copy with the same bindings.
    pub fn duplicate(&self) -> (r: ItemData)
        ensures
            r@ == self@,
            r.wf() == self.wf(),
            r.pairs@.len() == self.pairs@.len(),
            forall|i: int|
                0 <= i < self.pairs@.len() ==> (#[trigger] r.pairs@[i]).0@ == (
                #[trigger] self.pairs@[i]).0@ && r.pairs@[i].1@ == self.pairs@[i].1@,
    {
        let n = self.pairs.len();
        let mut pairs: Vec<(String, String)> = Vec::new();
        let mut i: usize = 0;
        while i < n
            invariant
                0 <= i <= n,
                n == self.pairs@.len(),
                pairs@.len() == i,
                forall|t: int|
                    0 <= t < i ==> (#[trigger] pairs@[t]).0@ == (#[trigger] self.pairs@[t]).0@
                        && pairs@[t].1@ == self.pairs@[t].1@,
            decreases n - i,
        {
            pairs.push((self.pairs[i].0.clone(), self.pairs[i].1.clone()));
            i = i + 1;
        }
        let r = ItemData { pairs };
        proof {
            lemma_pairs_map_congruent(r.pairs@, self.pairs@);
            assert(forall|t: int|
                0 <= t < r.pairs@.len() ==> (#[trigger] r.pairs@[t]).0@ == self.pairs@[t].0@);
            if r.wf() {
                assert forall|i: int, j: int|
                    0 <= i < j < self.pairs@.len() implies (#[trigger] self.pairs@[i]).0@ != (
                #[trigger] self.pairs@[j]).0@ by {
                    assert(r.pairs@[i].0@ != r.pairs@[j].0@);
                }
            }
            if self.wf() {
                assert forall|i: int, j: int|
                    0 <= i < j < r.pairs@.len() implies (#[trigger] r.pairs@[i]).0@ != (
                #[trigger] r.pairs@[j]).0@ by {
                    assert(self.pairs@[i].0@ != self.pairs@[j].0@);
                }
            }
            assert(r.wf() == self.wf());
        }
        r
    }
}

proof fn lemma_pairs_map_replace(s: Seq<(String, String)>, s2: Seq<(String, String)>, i: int)
    requires
        wf_pairs(s),
        0 <= i < s.len(),
        s2.len() == s.len(),
        s2[i].0@ == s[i].0@,
        forall|t: int| 0 <= t < s.len() && t != i ==> s2[t] == s[t],
    ensures
        wf_pairs(s2),
        pairs_map(s2) == pairs_map(s).insert(s2[i].0@, s2[i].1@),
    decreases s.len(),
{
    assert(forall|t: int| 0 <= t < s2.len() ==> (#[trigger] s2[t]).0@ == s[t].0@);
    let k = s2[i].0@;
    let v = s2[i].1@;
    if i == s.len() - 1 {
        assert(s2.drop_last() =~= s.drop_last());
        assert(pairs_map(s2) == pairs_map(s.drop_last()).insert(k, v));
        assert(pairs_map(s.drop_last()).insert(k, s.last().1@).insert(k, v) =~= pairs_map(
            s.drop_last(),
        ).insert(k, v));
    } else {
        assert(s2.drop_last() =~= s.drop_last().update(i, s2[i]));
        lemma_pairs_map_replace(s.drop_last(), s2.drop_last(), i);
        assert(pairs_map(s2.drop_last()) == pairs_map(s.drop_last()).insert(k, v));
        assert(s2.last() == s.last());
        assert(s.last().0@ != k);
        assert(pairs_map(s.drop_last()).insert(k, v).insert(s.last().0@, s.last().1@)
            =~= pairs_map(s.drop_last()).insert(s.last().0@, s.last().1@).insert(k, v));
    }
}

} // verus!
