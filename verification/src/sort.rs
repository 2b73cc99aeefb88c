//! Sorting by a total order.

use vstd::prelude::*;
use vstd::relations::{sorted_by, total_ordering};

use crate::primitives::Address;

verus! {

/// A type with a total order on its values.
pub trait Ordered: Sized {
    spec fn le(self, other: Self) -> bool;

    fn at_most(&self, other: &Self) -> (res: bool)
        ensures
            res == self.le(*other),
    ;

    proof fn is_total_order()
        ensures
            forall|a: Self| #[trigger] a.le(a),
            forall|a: Self, b: Self| #[trigger] a.le(b) || b.le(a),
            forall|a: Self, b: Self| #[trigger] a.le(b) && #[trigger] b.le(a) ==> a == b,
            forall|a: Self, b: Self, c: Self| #[trigger] a.le(b) && #[trigger] b.le(c) ==> a.le(c),
    ;
}

/// The order of a type, as a relation.
pub open spec fn order_of<T: Ordered>() -> spec_fn(T, T) -> bool {
    |a: T, b: T| a.le(b)
}

/// The order of a type is total.
pub proof fn lemma_order<T: Ordered>()
    ensures
        total_ordering(order_of::<T>()),
{
    T::is_total_order();
}

impl Ordered for u64 {
    open spec fn le(self, other: u64) -> bool {
        self <= other
    }

    fn at_most(&self, other: &u64) -> (res: bool) {
        *self <= *other
    }

    proof fn is_total_order() {
    }
}

impl Ordered for Address {
    /// Addresses are ordered by their bytes, from the first to the last.
    open spec fn le(self, other: Address) -> bool {
        self.hi < other.hi || (self.hi == other.hi && self.lo <= other.lo)
    }

    fn at_most(&self, other: &Address) -> (res: bool) {
        self.hi < other.hi || (self.hi == other.hi && self.lo <= other.lo)
    }

    proof fn is_total_order() {
    }
}

impl Ordered for (u64, u64, u64, u64) {
    /// Tuples are ordered by the first component in which they differ.
    open spec fn le(self, other: (u64, u64, u64, u64)) -> bool {
        ||| self.0 < other.0
        ||| self.0 == other.0 && self.1 < other.1
        ||| self.0 == other.0 && self.1 == other.1 && self.2 < other.2
        ||| self.0 == other.0 && self.1 == other.1 && self.2 == other.2 && self.3 <= other.3
    }

    fn at_most(&self, other: &(u64, u64, u64, u64)) -> (res: bool) {
        if self.0 != other.0 {
            self.0 < other.0
        } else if self.1 != other.1 {
            self.1 < other.1
        } else if self.2 != other.2 {
            self.2 < other.2
        } else {
            self.3 <= other.3
        }
    }

    proof fn is_total_order() {
    }
}

/// How many of the sorted items are not above the new one.
fn position<T: Ordered>(sorted: &Vec<T>, item: &T) -> (pos: usize)
    requires
        sorted_by(sorted@, order_of::<T>()),
    ensures
        pos <= sorted@.len(),
        forall|i: int| 0 <= i < pos ==> (#[trigger] sorted@[i]).le(*item),
        forall|i: int| pos <= i < sorted@.len() ==> item.le(#[trigger] sorted@[i]),
{
    proof {
        lemma_order::<T>();
    }
    let ghost leq = order_of::<T>();
    let mut low: usize = 0;
    let mut high: usize = sorted.len();
    while low < high
        invariant
            low <= high <= sorted@.len(),
            leq == order_of::<T>(),
            total_ordering(leq),
            sorted_by(sorted@, leq),
            forall|i: int| 0 <= i < low ==> (#[trigger] sorted@[i]).le(*item),
            forall|i: int| high <= i < sorted@.len() ==> item.le(#[trigger] sorted@[i]),
        decreases high - low,
    {
        let mid: usize = low + (high - low) / 2;
        if sorted[mid].at_most(item) {
            proof {
                assert forall|i: int| 0 <= i < mid + 1 implies (#[trigger] sorted@[i]).le(
                    *item,
                ) by {
                    if i < mid {
                        assert(leq(sorted@[i], sorted@[mid as int]));
                        assert(leq(sorted@[mid as int], *item));
                    }
                }
            }
            low = mid + 1;
        } else {
            proof {
                assert(leq(sorted@[mid as int], *item) || leq(*item, sorted@[mid as int]));
                assert forall|i: int| mid <= i < sorted@.len() implies item.le(
                    #[trigger] sorted@[i],
                ) by {
                    if i > mid {
                        assert(leq(sorted@[mid as int], sorted@[i]));
                        assert(leq(*item, sorted@[mid as int]));
                    }
                }
            }
            high = mid;
        }
    }
    low
}

/// The same items in ascending order.
pub fn sort<T: Ordered>(items: Vec<T>) -> (res: Vec<T>)
    ensures
        res@ == items@.sort_by(order_of::<T>()),
{
    broadcast use vstd::seq_lib::group_to_multiset_ensures;

    let ghost all = items@;
    let ghost leq = order_of::<T>();
    let mut rest = items;
    let mut res: Vec<T> = Vec::with_capacity(rest.len());
    proof {
        assert(res@.to_multiset() =~= vstd::multiset::Multiset::<T>::empty());
        assert(all.to_multiset() =~= rest@.to_multiset().add(res@.to_multiset()));
    }
    while rest.len() > 0
        invariant
            leq == order_of::<T>(),
            sorted_by(res@, leq),
            all.to_multiset() == rest@.to_multiset().add(res@.to_multiset()),
        decreases rest.len(),
    {
        let ghost rest_before = rest@;
        let ghost res_before = res@;
        match rest.pop() {
            Some(item) => {
                let pos: usize = position(&res, &item);
                res.insert(pos, item);
                proof {
                    assert(rest@ =~= rest_before.remove(rest_before.len() - 1));
                    assert(res@ =~= res_before.insert(pos as int, item));
                    assert(rest_before[rest_before.len() - 1] == item);
                    vstd::seq_lib::to_multiset_contains(rest_before, item);
                    vstd::seq_lib::to_multiset_remove(rest_before, rest_before.len() - 1);
                    vstd::seq_lib::to_multiset_insert(res_before, pos as int, item);
                    assert(all.to_multiset() =~= rest@.to_multiset().add(res@.to_multiset()));
                    lemma_order::<T>();
                    assert forall|i: int, j: int| 0 <= i < j < res@.len() implies #[trigger] leq(
                        res@[i],
                        res@[j],
                    ) by {
                        if i < pos && j < pos {
                            assert(leq(res_before[i], res_before[j]));
                        } else if i < pos && j > pos {
                            assert(leq(res_before[i], res_before[j - 1]));
                        } else if i > pos {
                            assert(leq(res_before[i - 1], res_before[j - 1]));
                        }
                    }
                }
            },
            None => {},
        }
    }
    proof {
        assert(rest@ =~= Seq::<T>::empty());
        assert(res@.to_multiset() =~= all.to_multiset());
        lemma_order::<T>();
        all.lemma_sort_by_ensures(leq);
        vstd::seq_lib::lemma_sorted_unique(res@, all.sort_by(leq), leq);
    }
    res
}

/// The members of the set in ascending order, each once.
pub open spec fn sorted_members<T: Ordered>(members: Set<T>) -> Seq<T> {
    members.to_sorted_seq(order_of::<T>())
}

proof fn lemma_members_once<T>(members: Set<T>)
    requires
        members.finite(),
    ensures
        members.to_seq().no_duplicates(),
        members.to_seq().to_set() == members,
        members.to_seq().len() == members.len(),
    decreases members.len(),
{
    members.lemma_to_seq_to_set_id();
    if members.len() > 0 {
        let x = members.choose();
        let rest = members.remove(x);
        lemma_members_once(rest);
        assert(rest.to_seq().to_set().contains(x) == rest.contains(x));
        assert(!rest.to_seq().contains(x));
        let listing = members.to_seq();
        assert(listing =~= seq![x] + rest.to_seq());
        assert forall|i: int, j: int|
            0 <= i < listing.len() && 0 <= j < listing.len() && i != j implies listing[i]
            != listing[j] by {
            if i == 0 {
                assert(rest.to_seq().contains(listing[j])) by {
                    assert(rest.to_seq()[j - 1] == listing[j]);
                }
            } else if j == 0 {
                assert(rest.to_seq().contains(listing[i])) by {
                    assert(rest.to_seq()[i - 1] == listing[i]);
                }
            } else {
                assert(listing[i] == rest.to_seq()[i - 1]);
                assert(listing[j] == rest.to_seq()[j - 1]);
            }
        }
    }
}

/// Two listings of the same members, each without repetition, hold the same
/// items equally often.
proof fn lemma_same_members<T>(a: Seq<T>, b: Seq<T>)
    requires
        a.no_duplicates(),
        b.no_duplicates(),
        a.to_set() == b.to_set(),
    ensures
        a.to_multiset() == b.to_multiset(),
{
    broadcast use vstd::seq_lib::group_to_multiset_ensures;

    a.lemma_multiset_has_no_duplicates();
    b.lemma_multiset_has_no_duplicates();
    assert forall|x: T| a.to_multiset().count(x) == b.to_multiset().count(x) by {
        assert(a.contains(x) == a.to_set().contains(x));
        assert(b.contains(x) == b.to_set().contains(x));
        vstd::seq_lib::to_multiset_contains(a, x);
        vstd::seq_lib::to_multiset_contains(b, x);
        if a.contains(x) {
            assert(a.to_multiset().contains(x));
            assert(b.to_multiset().contains(x));
        }
    }
    assert(a.to_multiset() =~= b.to_multiset());
}

/// Puts a listing of the set's members in ascending order.
pub fn sort_members<T: Ordered>(listing: Vec<T>) -> (res: Vec<T>)
    requires
        listing@.no_duplicates(),
    ensures
        res@ == sorted_members(listing@.to_set()),
{
    let ghost items = listing@;
    let res = sort(listing);
    proof {
        let members = items.to_set();
        let leq = order_of::<T>();
        vstd::seq_lib::seq_to_set_is_finite(items);
        lemma_members_once(members);
        lemma_same_members(items, members.to_seq());
        lemma_order::<T>();
        items.lemma_sort_by_ensures(leq);
        members.to_seq().lemma_sort_by_ensures(leq);
        vstd::seq_lib::lemma_sorted_unique(items.sort_by(leq), sorted_members(members), leq);
    }
    res
}

/// The listing of a finite set names its members and nothing else, each once
/// and in ascending order; no other sequence does.
pub proof fn sorted_members_is_the_ascending_listing<T: Ordered>(members: Set<T>, listing: Seq<T>)
    requires
        members.finite(),
    ensures
        listing == sorted_members(members) <==> {
            &&& listing.no_duplicates()
            &&& listing.to_set() == members
            &&& forall|i: int, j: int|
                0 <= i < j < listing.len() ==> (#[trigger] listing[i]).le(#[trigger] listing[j])
        },
{
    broadcast use vstd::seq_lib::group_to_multiset_ensures;

    let leq = order_of::<T>();
    let sorted = sorted_members(members);
    let raw = members.to_seq();
    lemma_order::<T>();
    lemma_members_once(members);
    raw.lemma_sort_by_ensures(leq);
    raw.lemma_multiset_has_no_duplicates();
    sorted.lemma_multiset_has_no_duplicates_conv();
    assert forall|x: T| sorted.to_set().contains(x) == members.contains(x) by {
        vstd::seq_lib::to_multiset_contains(sorted, x);
        vstd::seq_lib::to_multiset_contains(raw, x);
        assert(raw.contains(x) == raw.to_set().contains(x));
        assert(sorted.contains(x) == sorted.to_set().contains(x));
    }
    assert(sorted.to_set() =~= members);
    assert forall|i: int, j: int| 0 <= i < j < sorted.len() implies (#[trigger] sorted[i]).le(
        #[trigger] sorted[j],
    ) by {
        assert(leq(sorted[i], sorted[j]));
    }
    if listing.no_duplicates() && listing.to_set() == members && (forall|i: int, j: int|
        0 <= i < j < listing.len() ==> (#[trigger] listing[i]).le(#[trigger] listing[j])) {
        lemma_same_members(listing, sorted);
        assert(sorted_by(listing, leq)) by {
            assert forall|i: int, j: int| 0 <= i < j < listing.len() implies #[trigger] leq(
                listing[i],
                listing[j],
            ) by {
                assert(listing[i].le(listing[j]));
            }
        }
        vstd::seq_lib::lemma_sorted_unique(listing, sorted, leq);
    }
}

/// Numbers are ordered by size, addresses as the 160-bit numbers that their
/// bytes stand for, and tuples by the first component in which they differ.
pub proof fn orders_are_the_usual_ones(
    m: u64,
    n: u64,
    a: Address,
    b: Address,
    s: (u64, u64, u64, u64),
    t: (u64, u64, u64, u64),
)
    ensures
        order_of::<u64>()(m, n) <==> m <= n,
        order_of::<Address>()(a, b) <==> a.hi * 0x1_0000_0000_0000_0000_0000_0000_0000_0000 + a.lo
            <= b.hi * 0x1_0000_0000_0000_0000_0000_0000_0000_0000 + b.lo,
        s.0 != t.0 ==> (order_of::<(u64, u64, u64, u64)>()(s, t) <==> s.0 < t.0),
        s.0 == t.0 && s.1 != t.1 ==> (order_of::<(u64, u64, u64, u64)>()(s, t) <==> s.1 < t.1),
        s.0 == t.0 && s.1 == t.1 && s.2 != t.2 ==> (order_of::<(u64, u64, u64, u64)>()(s, t)
            <==> s.2 < t.2),
        s.0 == t.0 && s.1 == t.1 && s.2 == t.2 ==> (order_of::<(u64, u64, u64, u64)>()(s, t)
            <==> s.3 <= t.3),
{
}

} // verus!
