//! Sorting by a number, where equals keep the order in which they came.

use vstd::prelude::*;

verus! {

/// What can be sorted.
pub trait Ranked: Sized {
    spec fn rank(self) -> int;

    fn is_after(&self, other: &Self) -> (r: bool)
        ensures
            r == (self.rank() > other.rank()),
    ;
}

/// Where an item of rank `rank` goes in a sorted list: behind all that rank no higher.
pub open spec fn place_after<T: Ranked>(s: Seq<T>, rank: int) -> int
    decreases s.len(),
{
    if s.len() == 0 {
        0
    } else if s.last().rank() > rank {
        place_after(s.drop_last(), rank)
    } else {
        s.len() as int
    }
}

/// `s`, in the order of rank.
pub open spec fn sorted<T: Ranked>(s: Seq<T>) -> Seq<T>
    decreases s.len(),
{
    if s.len() == 0 {
        Seq::empty()
    } else {
        let rest = sorted(s.drop_last());
        rest.insert(place_after(rest, s.last().rank()), s.last())
    }
}

pub open spec fn in_order<T: Ranked>(s: Seq<T>) -> bool {
    forall|i: int, j: int|
        0 <= i < j < s.len() ==> (#[trigger] s[i]).rank() <= (#[trigger] s[j]).rank()
}

proof fn lemma_place_after<T: Ranked>(s: Seq<T>, rank: int)
    ensures
        0 <= place_after(s, rank) <= s.len(),
        forall|i: int| place_after(s, rank) <= i < s.len() ==> (#[trigger] s[i]).rank() > rank,
        place_after(s, rank) > 0 ==> s[place_after(s, rank) - 1].rank() <= rank,
    decreases s.len(),
{
    if s.len() > 0 && s.last().rank() > rank {
        let short = s.drop_last();
        lemma_place_after(short, rank);
        assert forall|i: int| place_after(s, rank) <= i < s.len() implies (
        #[trigger] s[i]).rank() > rank by {
            if i < short.len() {
                assert(short[i] == s[i]);
            }
        }
    }
}

/// A sorted list holds the same items, as often, and in order.
pub proof fn law_sorted<T: Ranked>(s: Seq<T>)
    ensures
        in_order(sorted(s)),
        sorted(s).len() == s.len(),
        sorted(s).to_multiset() == s.to_multiset(),
    decreases s.len(),
{
    broadcast use vstd::seq_lib::group_to_multiset_ensures;

    if s.len() > 0 {
        let rest = sorted(s.drop_last());
        let x = s.last();
        law_sorted(s.drop_last());
        lemma_place_after(rest, x.rank());
        let p = place_after(rest, x.rank());
        let r = rest.insert(p, x);
        assert forall|i: int, j: int| 0 <= i < j < r.len() implies (#[trigger] r[i]).rank() <= (
        #[trigger] r[j]).rank() by {
            if i < p && j == p {
                assert(r[i] == rest[i]);
                assert(rest[i].rank() <= rest[p - 1].rank());
            } else if i == p && j > p {
                assert(r[j] == rest[j - 1]);
            } else if i < p && j > p {
                assert(r[i] == rest[i] && r[j] == rest[j - 1]);
            } else if i < p && j < p {
                assert(r[i] == rest[i] && r[j] == rest[j]);
            } else {
                assert(r[i] == rest[i - 1] && r[j] == rest[j - 1]);
            }
        }
        assert(s.drop_last().push(x) =~= s);
        vstd::seq_lib::to_multiset_insert(rest, p, x);
    } else {
        assert(s =~= Seq::<T>::empty());
    }
}

/// The items of rank `rank`, in order.
pub open spec fn of_rank<T: Ranked>(s: Seq<T>, rank: int) -> Seq<T>
    decreases s.len(),
{
    if s.len() == 0 {
        Seq::empty()
    } else {
        let before = of_rank(s.drop_last(), rank);
        if s.last().rank() == rank {
            before.push(s.last())
        } else {
            before
        }
    }
}

proof fn lemma_of_rank_inserted<T: Ranked>(s: Seq<T>, x: T, rank: int)
    requires
        in_order(s),
    ensures
        of_rank(s.insert(place_after(s, x.rank()), x), rank) == (if x.rank() == rank {
            of_rank(s, rank).push(x)
        } else {
            of_rank(s, rank)
        }),
    decreases s.len(),
{
    let p = place_after(s, x.rank());
    let r = s.insert(p, x);
    lemma_place_after(s, x.rank());
    if p == s.len() {
        assert(r.drop_last() =~= s);
    } else {
        let short = s.drop_last();
        assert forall|i: int, j: int| 0 <= i < j < short.len() implies (
        #[trigger] short[i]).rank() <= (#[trigger] short[j]).rank() by {
            assert(short[i] == s[i] && short[j] == s[j]);
        }
        lemma_of_rank_inserted(short, x, rank);
        assert(r.drop_last() =~= short.insert(p, x));
        assert(r.last() == s.last());
    }
}

/// Items of one rank stay in the order in which they came.
pub proof fn law_sorting_is_stable<T: Ranked>(s: Seq<T>, rank: int)
    ensures
        of_rank(sorted(s), rank) == of_rank(s, rank),
    decreases s.len(),
{
    if s.len() > 0 {
        law_sorted(s.drop_last());
        law_sorting_is_stable(s.drop_last(), rank);
        lemma_of_rank_inserted(sorted(s.drop_last()), s.last(), rank);
    }
}

/// Puts one more item into a sorted list.
pub fn insert_ranked<T: Ranked>(v: &mut Vec<T>, x: T)
    ensures
        final(v)@ == old(v)@.insert(place_after(old(v)@, x.rank()), x),
{
    let mut i: usize = v.len();
    assert(v@.take(i as int) =~= v@);
    while i > 0 && v[i - 1].is_after(&x)
        invariant
            i <= v@.len(),
            place_after(v@, x.rank()) == place_after(v@.take(i as int), x.rank()),
        decreases i,
    {
        assert(v@.take(i as int).drop_last() =~= v@.take(i - 1));
        i -= 1;
    }
    v.insert(i, x);
}

/// Sorting loses nothing and makes nothing up: each item is in the sorted list, and each of that is
/// one of the items.
pub proof fn law_sorted_has_the_same_items<T: Ranked>(s: Seq<T>)
    ensures
        sorted(s).len() == s.len(),
        forall|i: int| 0 <= i < s.len() ==> sorted(s).contains(#[trigger] s[i]),
        forall|j: int| 0 <= j < sorted(s).len() ==> s.contains(#[trigger] sorted(s)[j]),
{
    broadcast use vstd::seq_lib::group_to_multiset_ensures;

    law_sorted(s);
    assert forall|i: int| 0 <= i < s.len() implies sorted(s).contains(#[trigger] s[i]) by {
        assert(s.contains(s[i]));
        assert(s.to_multiset().count(s[i]) > 0);
    }
    assert forall|j: int| 0 <= j < sorted(s).len() implies s.contains(#[trigger] sorted(s)[j]) by {
        assert(sorted(s).contains(sorted(s)[j]));
        assert(sorted(s).to_multiset().count(sorted(s)[j]) > 0);
    }
}

/// Where an item is in the sorted list.
pub proof fn lemma_sorted_place<T: Ranked>(s: Seq<T>, i: int) -> (j: int)
    requires
        0 <= i < s.len(),
    ensures
        0 <= j < sorted(s).len(),
        sorted(s)[j] == s[i],
{
    law_sorted_has_the_same_items(s);
    assert(sorted(s).contains(s[i]));
    choose|j: int| 0 <= j < sorted(s).len() && sorted(s)[j] == s[i]
}

/// Where an item of the sorted list was before.
pub proof fn lemma_sorted_source<T: Ranked>(s: Seq<T>, j: int) -> (i: int)
    requires
        0 <= j < sorted(s).len(),
    ensures
        0 <= i < s.len(),
        s[i] == sorted(s)[j],
{
    law_sorted_has_the_same_items(s);
    assert(s.contains(sorted(s)[j]));
    choose|i: int| 0 <= i < s.len() && s[i] == sorted(s)[j]
}

} // verus!
