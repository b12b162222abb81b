//! Columns of field elements: a lookup table's columns, the query column,
//! and the sorted columns derived from them.

use crate::field::{clone_scalars, scalar_values, BlsScalar};
use vstd::prelude::*;
use vstd::relations::{sorted_by, total_ordering};
use vstd::seq_lib::{lemma_multiset_commutative, lemma_sorted_unique, to_multiset_build, to_multiset_insert};

verus! {

/// The order of the canonical representatives.
pub open spec fn leq() -> spec_fn(int, int) -> bool {
    |a: int, b: int| a <= b
}

/// No value stands before a smaller one.
pub open spec fn is_sorted(s: Seq<int>) -> bool {
    forall|i: int, j: int| 0 <= i < j < s.len() ==> s[i] <= s[j]
}

/// The values of `s` in ascending order.
pub open spec fn sorted(s: Seq<int>) -> Seq<int> {
    s.sort_by(leq())
}

/// What stands in for a missing row when `s` is made longer: its last
/// value, so that no value enters that was not there; zero when `s` is
/// empty.
pub open spec fn filler(s: Seq<int>) -> int {
    if s.len() == 0 {
        0
    } else {
        s.last()
    }
}

/// `s` made at least `n` long by repeating [`filler`].
pub open spec fn padded(s: Seq<int>, n: nat) -> Seq<int> {
    if n <= s.len() {
        s
    } else {
        s + Seq::new((n - s.len()) as nat, |i: int| filler(s))
    }
}

/// The two halves of `s`, which share the middle value: the first runs up
/// to and including position `s.len() / 2`, the second starts there. Both
/// are empty when `s` is.
pub open spec fn halves_of(s: Seq<int>) -> (Seq<int>, Seq<int>) {
    if s.len() == 0 {
        (s, s)
    } else {
        (
            s.subrange(0, (s.len() / 2 + 1) as int),
            s.subrange((s.len() / 2) as int, s.len() as int),
        )
    }
}

/// The order of the representatives is a total order.
pub proof fn lemma_leq_total()
    ensures
        total_ordering(leq()),
{
}

/// `sorted(s)` is sorted and holds the values of `s`, each as often as `s`
/// does.
pub proof fn lemma_sorted_properties(s: Seq<int>)
    ensures
        is_sorted(sorted(s)),
        sorted(s).to_multiset() == s.to_multiset(),
        sorted(s).len() == s.len(),
{
    lemma_leq_total();
    s.lemma_sort_by_ensures(leq());
    let r = sorted(s);
    assert forall|i: int, j: int| 0 <= i < j < r.len() implies r[i] <= r[j] by {
        assert(leq()(r[i], r[j]));
    }
    vstd::seq_lib::to_multiset_len(s);
    vstd::seq_lib::to_multiset_len(r);
}

/// A sorted sequence with the values of `s` is `sorted(s)`.
pub proof fn lemma_sorted_unique_for(r: Seq<int>, s: Seq<int>)
    requires
        is_sorted(r),
        r.to_multiset() == s.to_multiset(),
    ensures
        r == sorted(s),
{
    lemma_leq_total();
    lemma_sorted_properties(s);
    let t = sorted(s);
    assert(sorted_by(r, leq()));
    assert(sorted_by(t, leq())) by {
        assert forall|i: int, j: int| 0 <= i < j < t.len() implies #[trigger] leq()(t[i], t[j]) by {
            assert(t[i] <= t[j]);
        }
    }
    lemma_sorted_unique(r, t, leq());
}

/// An ordered sequence of field elements. The order is significant: the
/// position of a value is the row it belongs to.
#[derive(Debug, PartialEq, Eq)]
pub struct MultiSet {
    /// The elements, in row order.
    pub elements: Vec<BlsScalar>,
}

impl View for MultiSet {
    type V = Seq<int>;

    open spec fn view(&self) -> Seq<int> {
        scalar_values(self.elements@)
    }
}

impl Clone for MultiSet {
    fn clone(&self) -> (r: Self)
        ensures
            r.elements@ == self.elements@,
            r@ == self@,
    {
        MultiSet { elements: clone_scalars(&self.elements) }
    }
}

impl MultiSet {
    /// The empty multiset.
    pub fn new() -> (r: Self)
        ensures
            r@ == Seq::<int>::empty(),
    {
        let r = MultiSet { elements: Vec::new() };
        assert(r@ =~= Seq::<int>::empty());
        r
    }

    /// The number of elements.
    pub fn len(&self) -> (r: usize)
        ensures
            r == self@.len(),
    {
        self.elements.len()
    }

    /// Whether there is no element.
    pub fn is_empty(&self) -> (r: bool)
        ensures
            r == (self@.len() == 0),
    {
        self.elements.len() == 0
    }

    /// The element of row `index`, if there is such a row.
    pub fn get(&self, index: usize) -> (r: Option<BlsScalar>)
        ensures
            r is Some <==> index < self@.len(),
            r matches Some(x) ==> x@ == self@[index as int] && x == self.elements@[index as int],
    {
        if index < self.elements.len() {
            Some(self.elements[index])
        } else {
            None
        }
    }

    /// The elements, in row order.
    pub fn to_vec(&self) -> (r: Vec<BlsScalar>)
        ensures
            r@ == self.elements@,
            scalar_values(r@) == self@,
    {
        clone_scalars(&self.elements)
    }

    /// Appends `value` as the last row.
    pub fn push(&mut self, value: BlsScalar)
        ensures
            final(self)@ == old(self)@.push(value@),
            final(self).elements@ == old(self).elements@.push(value),
    {
        self.elements.push(value);
        assert(self@ =~= old(self)@.push(value@));
    }

    /// Makes the multiset at least `n` long by repeating its last element,
    /// or zero if it has none. A multiset that is long enough stays as it
    /// is.
    pub fn pad(&mut self, n: usize)
        ensures
            final(self)@ == padded(old(self)@, n as nat),
    {
        let len: usize = self.elements.len();
        if n <= len {
            return ;
        }
        let fill = if len == 0 {
            BlsScalar::zero()
        } else {
            self.elements[len - 1]
        };
        let ghost before = self@;
        let mut i: usize = len;
        while i < n
            invariant
                len <= i <= n,
                len < n,
                before.len() == len,
                fill@ == filler(before),
                self.elements@.len() == i,
                self@ =~= before + Seq::new((i - len) as nat, |k: int| filler(before)),
            decreases n - i,
        {
            let ghost prev = self@;
            self.elements.push(fill);
            proof {
                assert(self@ =~= prev.push(fill@));
            }
            i = i + 1;
        }
    }

    /// Whether `value` stands in some row.
    pub fn contains(&self, value: BlsScalar) -> (r: bool)
        ensures
            r == self@.contains(value@),
    {
        let mut i: usize = 0;
        while i < self.elements.len()
            invariant
                0 <= i <= self.elements@.len(),
                forall|k: int| 0 <= k < i ==> self@[k] != value@,
            decreases self.elements@.len() - i,
        {
            if self.elements[i].equals(&value) {
                assert(self@[i as int] == value@);
                return true;
            }
            i = i + 1;
        }
        false
    }

    /// Whether every value of `query` stands in some row of this multiset.
    pub fn contains_all(&self, query: &MultiSet) -> (r: bool)
        ensures
            r == (forall|k: int| 0 <= k < query@.len() ==> self@.contains(#[trigger] query@[k])),
    {
        let mut i: usize = 0;
        while i < query.elements.len()
            invariant
                0 <= i <= query.elements@.len(),
                forall|k: int| 0 <= k < i ==> self@.contains(#[trigger] query@[k]),
            decreases query.elements@.len() - i,
        {
            if !self.contains(query.elements[i]) {
                assert(!self@.contains(query@[i as int]));
                return false;
            }
            i = i + 1;
        }
        true
    }

    /// This multiset followed by `other`.
    pub fn concat(&self, other: &MultiSet) -> (r: MultiSet)
        ensures
            r@ == self@ + other@,
            r.elements@ == self.elements@ + other.elements@,
    {
        let mut elements = clone_scalars(&self.elements);
        let mut i: usize = 0;
        while i < other.elements.len()
            invariant
                0 <= i <= other.elements@.len(),
                elements@ == self.elements@ + other.elements@.subrange(0, i as int),
            decreases other.elements@.len() - i,
        {
            elements.push(other.elements[i]);
            i = i + 1;
        }
        let r = MultiSet { elements };
        proof {
            assert(r.elements@ =~= self.elements@ + other.elements@);
            assert(r@ =~= self@ + other@);
        }
        r
    }

    /// The elements in ascending order of their representatives.
    pub fn sort(&self) -> (r: MultiSet)
        ensures
            r@ == sorted(self@),
    {
        let mut out: Vec<BlsScalar> = Vec::new();
        let mut i: usize = 0;
        proof {
            assert(self@.subrange(0, 0) =~= scalar_values(out@));
        }
        while i < self.elements.len()
            invariant
                0 <= i <= self.elements@.len(),
                out@.len() == i,
                is_sorted(scalar_values(out@)),
                scalar_values(out@).to_multiset() == self@.subrange(0, i as int).to_multiset(),
            decreases self.elements@.len() - i,
        {
            let x: BlsScalar = self.elements[i];
            let ghost before = scalar_values(out@);
            let mut p: usize = 0;
            while p < out.len() && !x.less_than(&out[p])
                invariant
                    0 <= p <= out@.len(),
                    before == scalar_values(out@),
                    forall|k: int| 0 <= k < p ==> before[k] <= x@,
                decreases out@.len() - p,
            {
                p = p + 1;
            }
            out.insert(p, x);
            proof {
                let after = scalar_values(out@);
                assert(after =~= before.insert(p as int, x@));
                to_multiset_insert(before, p as int, x@);
                let prefix = self@.subrange(0, i as int);
                assert(self@.subrange(0, i + 1) =~= prefix.push(x@));
                to_multiset_build(prefix, x@);
                assert forall|a: int, b: int| 0 <= a < b < after.len() implies after[a] <= after[b] by {
                    if b < p {
                        assert(after[a] == before[a] && after[b] == before[b]);
                    } else if b == p {
                        assert(after[a] == before[a]);
                    } else if a < p {
                        assert(after[a] == before[a] && after[b] == before[b - 1]);
                        assert(before[p as int] <= before[b - 1] || p as int == b - 1);
                    } else if a == p {
                        assert(after[b] == before[b - 1]);
                        assert(before[p as int] <= before[b - 1] || p as int == b - 1);
                    } else {
                        assert(after[a] == before[a - 1] && after[b] == before[b - 1]);
                    }
                }
            }
            i = i + 1;
        }
        let r = MultiSet { elements: out };
        proof {
            assert(self@.subrange(0, i as int) =~= self@);
            lemma_sorted_unique_for(r@, self@);
        }
        r
    }

    /// Splits the multiset into two halves that share the middle element.
    pub fn halve(&self) -> (r: (MultiSet, MultiSet))
        ensures
            (r.0@, r.1@) == halves_of(self@),
    {
        let len: usize = self.elements.len();
        let mut first: Vec<BlsScalar> = Vec::new();
        let mut second: Vec<BlsScalar> = Vec::new();
        if len > 0 {
            let mid: usize = len / 2;
            let mut i: usize = 0;
            while i <= mid
                invariant
                    0 <= i <= mid + 1,
                    mid < len,
                    len == self.elements@.len(),
                    first@ == self.elements@.subrange(0, i as int),
                decreases mid + 1 - i,
            {
                first.push(self.elements[i]);
                i = i + 1;
            }
            let mut j: usize = mid;
            while j < len
                invariant
                    mid <= j <= len,
                    len == self.elements@.len(),
                    second@ == self.elements@.subrange(mid as int, j as int),
                decreases len - j,
            {
                second.push(self.elements[j]);
                j = j + 1;
            }
        }
        let h1 = MultiSet { elements: first };
        let h2 = MultiSet { elements: second };
        proof {
            if len == 0 {
                assert(h1@ =~= self@);
                assert(h2@ =~= self@);
            } else {
                assert(h1@ =~= self@.subrange(0, (len / 2 + 1) as int));
                assert(h2@ =~= self@.subrange((len / 2) as int, len as int));
            }
        }
        (h1, h2)
    }

    /// Sorts the values of the query `f` together with the values of this
    /// table, and splits the result into the two halves that the sorted
    /// difference check runs over. Whether every value of `f` is in the
    /// table is not looked at: see [`MultiSet::contains_all`].
    pub fn combine_split(&self, f: &MultiSet) -> (r: (MultiSet, MultiSet))
        ensures
            (r.0@, r.1@) == halves_of(sorted(f@ + self@)),
    {
        let combined = f.concat(self);
        let s = combined.sort();
        s.halve()
    }
}

/// The halves of the sorted concatenation of a query `q` and a table `t`
/// overlap in one value: the first half ends with the value that the second
/// begins with. The first half followed by the rest of the second holds the
/// values of `q` and of `t`, each as often as the two together do; so the
/// two halves together hold them too, and the shared value once more.
pub proof fn lemma_split_invariant(q: Seq<int>, t: Seq<int>)
    ensures
        ({
            let (h1, h2) = halves_of(sorted(q + t));
            &&& q.len() + t.len() > 0 ==> h1.len() > 0 && h2.len() > 0 && h1.last() == h2.first()
            &&& q.len() + t.len() > 0 ==> (h1 + h2.drop_first()).to_multiset() == q.to_multiset().add(
                t.to_multiset(),
            )
            &&& q.len() + t.len() > 0 ==> h1.to_multiset().add(h2.to_multiset())
                == q.to_multiset().add(t.to_multiset()).insert(h2.first())
            &&& q.len() + t.len() == 0 ==> h1.len() == 0 && h2.len() == 0
            &&& is_sorted(h1)
            &&& is_sorted(h2)
        }),
{
    broadcast use vstd::multiset::group_multiset_axioms;

    let s = sorted(q + t);
    lemma_sorted_properties(q + t);
    lemma_multiset_commutative(q, t);
    let (h1, h2) = halves_of(s);
    if s.len() > 0 {
        let mid = (s.len() / 2) as int;
        assert(h1 + h2.drop_first() =~= s);
        assert(h2 =~= h2.drop_first().insert(0, s[mid]));
        lemma_multiset_commutative(h1, h2.drop_first());
        to_multiset_insert(h2.drop_first(), 0, s[mid]);
        assert(h1.to_multiset().add(h2.to_multiset()) =~= q.to_multiset().add(
            t.to_multiset(),
        ).insert(h2.first()));
    }
}

} // verus!
