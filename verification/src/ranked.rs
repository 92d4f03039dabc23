//! Sets of small plain values, kept in the order of their ranks.

use vstd::prelude::*;

verus! {

/// A value with a rank: a number that tells it from every other value of
/// its type, and by which a set orders its members.
pub trait Ranked: Copy {
    spec fn rank(self) -> int;

    fn rank_of(&self) -> (r: u64)
        ensures
            r == self.rank(),
    ;

    proof fn lemma_rank_tells_apart(a: Self, b: Self)
        requires
            a.rank() == b.rank(),
        ensures
            a == b,
    ;
}

impl Ranked for u32 {
    open spec fn rank(self) -> int {
        self as int
    }

    fn rank_of(&self) -> (r: u64) {
        *self as u64
    }

    proof fn lemma_rank_tells_apart(a: Self, b: Self) {
    }
}

impl Ranked for u64 {
    open spec fn rank(self) -> int {
        self as int
    }

    fn rank_of(&self) -> (r: u64) {
        *self
    }

    proof fn lemma_rank_tells_apart(a: Self, b: Self) {
    }
}

/// Whether each item has a lower rank than all that follow it.
pub open spec fn rising<T: Ranked>(items: Seq<T>) -> bool {
    forall|i: int, j: int|
        0 <= i < j < items.len() ==> (#[trigger] items[i]).rank() < (#[trigger] items[j]).rank()
}

/// A set of ranked values.
#[derive(Debug, PartialEq, Eq)]
pub struct RankSet<T: Ranked> {
    items: Vec<T>,
}

impl<T: Ranked> View for RankSet<T> {
    type V = Set<T>;

    closed spec fn view(&self) -> Set<T> {
        self.items@.to_set()
    }
}

impl<T: Ranked> RankSet<T> {
    /// The members in the order of their ranks.
    pub closed spec fn items(&self) -> Seq<T> {
        self.items@
    }

    #[verifier::type_invariant]
    spec fn inv(&self) -> bool {
        rising(self.items@)
    }

    /// How the members in their order relate to the set.
    pub open spec fn listed(&self) -> bool {
        &&& rising(self.items())
        &&& self.items().no_duplicates()
        &&& self@ == self.items().to_set()
        &&& self@.finite()
        &&& self@.len() == self.items().len()
    }

    proof fn lemma_listed(&self)
        requires
            self.inv(),
        ensures
            self.listed(),
    {
        self.items@.unique_seq_to_set();
        vstd::seq_lib::seq_to_set_is_finite(self.items@);
    }

    pub fn new() -> (r: Self)
        ensures
            r@ == Set::<T>::empty(),
            r.items().len() == 0,
    {
        let r = RankSet { items: Vec::new() };
        assert(r@ =~= Set::<T>::empty());
        r
    }

    pub fn len(&self) -> (n: usize)
        ensures
            n == self@.len(),
            n == self.items().len(),
            self.listed(),
    {
        proof {
            use_type_invariant(self);
            self.lemma_listed();
        }
        self.items.len()
    }

    pub fn is_empty(&self) -> (r: bool)
        ensures
            r == (self@ == Set::<T>::empty()),
            r == (self.items().len() == 0),
            self.listed(),
    {
        proof {
            use_type_invariant(self);
            self.lemma_listed();
            if self.items.len() == 0 {
                assert(self@ =~= Set::<T>::empty());
            } else {
                assert(self@.contains(self.items@[0]));
            }
        }
        self.items.len() == 0
    }

    /// The member in place `i`.
    pub fn item(&self, i: usize) -> (r: T)
        requires
            i < self.items().len(),
        ensures
            r == self.items()[i as int],
    {
        self.items[i]
    }

    /// The member of the lowest rank.
    pub fn first(&self) -> (r: Option<T>)
        ensures
            r is Some <==> self.items().len() > 0,
            r matches Some(x) ==> x == self.items()[0],
    {
        if self.items.len() > 0 {
            Some(self.items[0])
        } else {
            None
        }
    }

    /// The first place whose member has at least the rank `rank`.
    fn locate(&self, rank: u64) -> (pos: usize)
        ensures
            pos <= self.items().len(),
            forall|i: int| 0 <= i < pos ==> (#[trigger] self.items()[i]).rank() < rank,
            forall|i: int|
                pos <= i < self.items().len() ==> (#[trigger] self.items()[i]).rank() >= rank,
    {
        proof {
            use_type_invariant(self);
        }
        let mut pos: usize = 0;
        while pos < self.items.len() && self.items[pos].rank_of() < rank
            invariant
                pos <= self.items.len(),
                rising(self.items@),
                forall|i: int| 0 <= i < pos ==> (#[trigger] self.items@[i]).rank() < rank,
            decreases self.items.len() - pos,
        {
            pos += 1;
        }
        assert forall|i: int| pos <= i < self.items().len() implies (
        #[trigger] self.items()[i]).rank() >= rank by {
            if i > pos {
                assert(self.items@[pos as int].rank() < self.items@[i].rank());
            }
        }
        pos
    }

    pub fn contains(&self, x: &T) -> (r: bool)
        ensures
            r == self@.contains(*x),
    {
        let rank = x.rank_of();
        let pos = self.locate(rank);
        proof {
            use_type_invariant(self);
        }
        if pos < self.items.len() && self.items[pos].rank_of() == rank {
            proof {
                T::lemma_rank_tells_apart(self.items@[pos as int], *x);
                assert(self.items@.contains(*x));
            }
            true
        } else {
            proof {
                if self.items@.contains(*x) {
                    let i = self.items@.index_of(*x);
                    assert(self.items@[i] == *x);
                    if i > pos {
                        assert(self.items@[pos as int].rank() < self.items@[i].rank());
                    }
                }
            }
            false
        }
    }

    /// Puts `x` into the set; tells whether it was new.
    pub fn insert(&mut self, x: T) -> (r: bool)
        ensures
            final(self)@ == old(self)@.insert(x),
            r == !old(self)@.contains(x),
    {
        let rank = x.rank_of();
        let pos = self.locate(rank);
        proof {
            use_type_invariant(&*self);
        }
        let ghost before = self.items@;
        if pos < self.items.len() && self.items[pos].rank_of() == rank {
            proof {
                T::lemma_rank_tells_apart(before[pos as int], x);
                assert(before.contains(x));
                assert(before.to_set().insert(x) =~= before.to_set());
            }
            false
        } else {
            let mut items: Vec<T> = Vec::new();
            core::mem::swap(&mut self.items, &mut items);
            items.insert(pos, x);
            proof {
                let after = items@;
                assert forall|i: int, j: int| 0 <= i < j < after.len() implies (
                #[trigger] after[i]).rank() < (#[trigger] after[j]).rank() by {
                    if j < pos {
                        assert(after[i] == before[i] && after[j] == before[j]);
                    } else if j == pos {
                        assert(after[i] == before[i]);
                    } else if i < pos {
                        assert(after[i] == before[i] && after[j] == before[j - 1]);
                    } else if i == pos {
                        assert(after[j] == before[j - 1]);
                    } else {
                        assert(after[i] == before[i - 1] && after[j] == before[j - 1]);
                    }
                }
                if before.contains(x) {
                    let i = before.index_of(x);
                    assert(before[i] == x);
                    if i > pos {
                        assert(before[pos as int].rank() < before[i].rank());
                    }
                }
                assert forall|y: T| after.to_set().contains(y) == before.to_set().insert(
                    x,
                ).contains(y) by {
                    if before.contains(y) {
                        let i = before.index_of(y);
                        assert(before[i] == y);
                        if i < pos {
                            assert(after[i] == y);
                        } else {
                            assert(after[i + 1] == y);
                        }
                    }
                    if after.contains(y) {
                        let j = after.index_of(y);
                        assert(after[j] == y);
                        if j < pos {
                            assert(before[j] == y);
                        } else if j > pos {
                            assert(before[j - 1] == y);
                        }
                    }
                    assert(after[pos as int] == x);
                }
                assert(after.to_set() =~= before.to_set().insert(x));
            }
            core::mem::swap(&mut self.items, &mut items);
            true
        }
    }

    /// Puts every member of `other` into the set.
    pub fn extend(&mut self, other: &RankSet<T>)
        ensures
            final(self)@ == old(self)@.union(other@),
    {
        let n = other.len();
        let mut i: usize = 0;
        while i < n
            invariant
                i <= n,
                n == other.items().len(),
                other.listed(),
                self@ == old(self)@.union(other.items().subrange(0, i as int).to_set()),
            decreases n - i,
        {
            self.insert(other.item(i));
            proof {
                let a = other.items().subrange(0, i as int);
                let b = other.items().subrange(0, i + 1);
                assert(b =~= a.push(other.items()[i as int]));
                assert forall|y: T| b.to_set().contains(y) == a.to_set().insert(
                    other.items()[i as int],
                ).contains(y) by {
                    if a.contains(y) {
                        let k = a.index_of(y);
                        assert(b[k] == y);
                    }
                    if b.contains(y) {
                        let k = b.index_of(y);
                        assert(b[k] == y);
                        if k < i {
                            assert(a[k] == y);
                        }
                    }
                    assert(b[i as int] == other.items()[i as int]);
                }
                assert(self@ =~= old(self)@.union(b.to_set()));
            }
            i += 1;
        }
        assert(other.items().subrange(0, n as int) =~= other.items());
    }
}

impl<T: Ranked> Clone for RankSet<T> {
    fn clone(&self) -> (r: Self)
        ensures
            r@ == self@,
            r.items() == self.items(),
    {
        proof {
            use_type_invariant(self);
        }
        let mut items: Vec<T> = Vec::new();
        let mut i: usize = 0;
        while i < self.items.len()
            invariant
                i <= self.items.len(),
                items@ == self.items@.subrange(0, i as int),
            decreases self.items.len() - i,
        {
            items.push(self.items[i]);
            assert(items@ =~= self.items@.subrange(0, i + 1));
            i += 1;
        }
        assert(items@ =~= self.items@);
        RankSet { items }
    }
}

} // verus!
