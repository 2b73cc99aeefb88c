//! Bounded per-block histories, oldest entry first.

use std::collections::VecDeque;

use vstd::prelude::*;

use crate::primitives::Duplicate;
use crate::state::RECEIPTS_HISTORY_DEPTH;

verus! {

/// An entry that belongs to a block.
pub trait PerBlock: Duplicate {
    /// The block of the entry with this model.
    spec fn block_of(model: Self::V) -> u64;

    fn block_number(&self) -> (block: u64)
        ensures
            block == Self::block_of(self.deep_view()),
    ;
}

/// The history after an entry was added: where it would grow beyond its
/// depth, the oldest entries leave.
pub open spec fn pushed<M>(history: Seq<M>, entry: M) -> Seq<M> {
    if history.len() < RECEIPTS_HISTORY_DEPTH {
        history.push(entry)
    } else {
        history.skip(history.len() - RECEIPTS_HISTORY_DEPTH + 1).push(entry)
    }
}

/// The oldest entry of the block.
pub open spec fn lookup<T: PerBlock>(history: Seq<T::V>, block: u64) -> Option<T::V>
    decreases history.len(),
{
    if history.len() == 0 {
        None
    } else if T::block_of(history.first()) == block {
        Some(history.first())
    } else {
        lookup::<T>(history.drop_first(), block)
    }
}

/// The entries of the blocks before the given one.
pub open spec fn before<T: PerBlock>(history: Seq<T::V>, from_block: u64) -> Seq<T::V> {
    history.filter(|entry: T::V| T::block_of(entry) < from_block)
}

/// The entries of the blocks up to and including the given one.
pub open spec fn up_to<T: PerBlock>(history: Seq<T::V>, cutoff: u64) -> Seq<T::V> {
    history.filter(|entry: T::V| T::block_of(entry) <= cutoff)
}

/// What is found is an entry of the block, and no earlier entry is; nothing
/// is found exactly when no entry is of the block.
pub proof fn lookup_finds_oldest<T: PerBlock>(history: Seq<T::V>, block: u64)
    ensures
        lookup::<T>(history, block) is None <==> forall|i: int|
            0 <= i < history.len() ==> T::block_of(#[trigger] history[i]) != block,
        lookup::<T>(history, block) is Some ==> exists|i: int|
            {
                &&& 0 <= i < history.len()
                &&& lookup::<T>(history, block) == Some(#[trigger] history[i])
                &&& T::block_of(history[i]) == block
                &&& forall|j: int| 0 <= j < i ==> T::block_of(#[trigger] history[j]) != block
            },
    decreases history.len(),
{
    if history.len() > 0 && T::block_of(history.first()) != block {
        let rest = history.drop_first();
        lookup_finds_oldest::<T>(rest, block);
        assert forall|i: int|
            (forall|j: int| 0 <= j < rest.len() ==> T::block_of(#[trigger] rest[j]) != block) && 0
                <= i < history.len() implies T::block_of(#[trigger] history[i]) != block by {
            if i > 0 {
                assert(rest[i - 1] == history[i]);
            }
        }
        if lookup::<T>(history, block) is Some {
            let i = choose|i: int|
                {
                    &&& 0 <= i < rest.len()
                    &&& lookup::<T>(rest, block) == Some(#[trigger] rest[i])
                    &&& T::block_of(rest[i]) == block
                    &&& forall|j: int| 0 <= j < i ==> T::block_of(#[trigger] rest[j]) != block
                };
            assert(history[i + 1] == rest[i]);
            assert forall|j: int| 0 <= j < i + 1 implies T::block_of(#[trigger] history[j])
                != block by {
                if j > 0 {
                    assert(rest[j - 1] == history[j]);
                }
            }
        } else {
            assert forall|j: int| 0 <= j < rest.len() implies T::block_of(#[trigger] rest[j])
                != block by {}
        }
    }
}

/// Adding an entry never takes a history beyond its depth.
pub proof fn pushed_stays_bounded<M>(history: Seq<M>, entry: M)
    ensures
        pushed(history, entry).len() <= RECEIPTS_HISTORY_DEPTH,
        pushed(history, entry).last() == entry,
{
}

/// Once an entry of a new block has been added, a lookup of its block gives it
/// back.
pub proof fn pushed_is_found<T: PerBlock>(history: Seq<T::V>, entry: T::V)
    requires
        forall|i: int|
            0 <= i < history.len() ==> T::block_of(#[trigger] history[i]) != T::block_of(entry),
    ensures
        lookup::<T>(pushed(history, entry), T::block_of(entry)) == Some(entry),
{
    let grown = pushed(history, entry);
    let block = T::block_of(entry);
    lookup_finds_oldest::<T>(grown, block);
    assert(grown.last() == entry);
    assert forall|i: int| 0 <= i < grown.len() - 1 implies T::block_of(#[trigger] grown[i])
        != block by {
        if history.len() >= RECEIPTS_HISTORY_DEPTH {
            assert(grown[i] == history[i + history.len() - RECEIPTS_HISTORY_DEPTH + 1]);
        } else {
            assert(grown[i] == history[i]);
        }
    }
    assert(grown[grown.len() - 1] == entry);
}

/// Dropping the later blocks leaves a lookup of the others as it was, and
/// makes the dropped ones unknown.
pub proof fn truncation_keeps_the_rest<T: PerBlock>(history: Seq<T::V>, from_block: u64, block: u64)
    ensures
        lookup::<T>(before::<T>(history, from_block), block) == (if block < from_block {
            lookup::<T>(history, block)
        } else {
            None
        }),
{
    lookup_of_filtered::<T>(history, |b: u64| b < from_block, block);
    let by_block = |b: u64| b < from_block;
    assert((|entry: T::V| by_block(T::block_of(entry))) =~= (|entry: T::V|
        T::block_of(entry) < from_block));
}

/// Keeping the blocks up to a cutoff leaves a lookup of those as it was, and
/// makes the others unknown.
pub proof fn cutoff_keeps_the_rest<T: PerBlock>(history: Seq<T::V>, cutoff: u64, block: u64)
    ensures
        lookup::<T>(up_to::<T>(history, cutoff), block) == (if block <= cutoff {
            lookup::<T>(history, block)
        } else {
            None
        }),
{
    lookup_of_filtered::<T>(history, |b: u64| b <= cutoff, block);
    let by_block = |b: u64| b <= cutoff;
    assert((|entry: T::V| by_block(T::block_of(entry))) =~= (|entry: T::V|
        T::block_of(entry) <= cutoff));
}

/// A filter by block number leaves a lookup of the kept blocks as it was.
proof fn lookup_of_filtered<T: PerBlock>(
    history: Seq<T::V>,
    keep: spec_fn(u64) -> bool,
    block: u64,
)
    ensures
        lookup::<T>(history.filter(|entry: T::V| keep(T::block_of(entry))), block) == (if keep(
            block,
        ) {
            lookup::<T>(history, block)
        } else {
            None
        }),
    decreases history.len(),
{
    let pred = |entry: T::V| keep(T::block_of(entry));
    reveal_with_fuel(Seq::filter, 2);
    if history.len() > 0 {
        let rest = history.drop_first();
        lookup_of_filtered::<T>(rest, keep, block);
        assert(history =~= seq![history.first()] + rest);
        Seq::filter_distributes_over_add(seq![history.first()], rest, pred);
        let head = seq![history.first()];
        assert(head.drop_last() =~= Seq::<T::V>::empty());
        assert(head.filter(pred) =~= if pred(history.first()) {
            head
        } else {
            Seq::<T::V>::empty()
        });
        if pred(history.first()) {
            assert(history.filter(pred).drop_first() =~= rest.filter(pred));
        } else {
            assert(history.filter(pred) =~= rest.filter(pred));
        }
    }
}

/// The position of the oldest entry of the block.
pub fn find<T: PerBlock>(history: &VecDeque<T>, block: u64) -> (found: Option<usize>)
    ensures
        found is Some == lookup::<T>(history.deep_view(), block) is Some,
        found matches Some(i) ==> {
            &&& i < history@.len()
            &&& lookup::<T>(history.deep_view(), block) == Some(history@[i as int].deep_view())
        },
{
    let ghost model = history.deep_view();
    let mut i: usize = 0;
    assert(model.skip(0) =~= model);
    while i < history.len()
        invariant
            i <= history@.len(),
            model == history.deep_view(),
            lookup::<T>(model, block) == lookup::<T>(model.skip(i as int), block),
        decreases history.len() - i,
    {
        let ghost rest = model.skip(i as int);
        assert(rest.first() == history@[i as int].deep_view());
        if history[i].block_number() == block {
            return Some(i);
        }
        assert(rest.drop_first() =~= model.skip(i + 1));
        i += 1;
    }
    None
}

/// Adds an entry, dropping the oldest ones where the history is full.
pub fn push<T: PerBlock>(history: &mut VecDeque<T>, entry: T)
    ensures
        final(history).deep_view() == pushed(old(history).deep_view(), entry.deep_view()),
{
    let ghost start = history@;
    while history.len() >= RECEIPTS_HISTORY_DEPTH
        invariant
            history@.len() <= start.len(),
            history@ == start.skip(start.len() - history@.len()),
            start.len() < RECEIPTS_HISTORY_DEPTH ==> history@ == start,
            start.len() >= RECEIPTS_HISTORY_DEPTH ==> history@.len() >= RECEIPTS_HISTORY_DEPTH - 1,
        decreases history.len(),
    {
        let _ = history.pop_front();
        assert(history@ =~= start.skip(start.len() - history@.len()));
    }
    history.push_back(entry);
    assert(history.deep_view() =~= pushed(old(history).deep_view(), entry.deep_view()));
}

/// Keeps only the entries of the blocks before the given one.
pub fn truncate<T: PerBlock>(history: &mut VecDeque<T>, from_block: u64)
    ensures
        final(history).deep_view() == before::<T>(old(history).deep_view(), from_block),
{
    let ghost model = history.deep_view();
    let ghost pred = |entry: T::V| T::block_of(entry) < from_block;
    let len: usize = history.len();
    let ghost start = history@;
    let mut kept: VecDeque<T> = VecDeque::new();
    let mut i: usize = 0;
    proof {
        reveal(Seq::filter);
        assert(model.take(0) =~= Seq::<T::V>::empty());
        assert(kept.deep_view() =~= model.take(0).filter(pred));
    }
    while i < len
        invariant
            i <= len,
            len == start.len(),
            model.len() == len,
            forall|j: int| 0 <= j < len ==> #[trigger] model[j] == start[j].deep_view(),
            history@ == start.skip(i as int),
            pred == (|entry: T::V| T::block_of(entry) < from_block),
            kept.deep_view() == model.take(i as int).filter(pred),
        decreases len - i,
    {
        match history.pop_front() {
            Some(entry) => {
                let ghost longer = model.take(i + 1);
                let ghost before_push = kept.deep_view();
                assert(history@ =~= start.skip(i + 1));
                assert(longer.drop_last() =~= model.take(i as int));
                assert(longer.last() == entry.deep_view());
                proof {
                    reveal(Seq::filter);
                }
                if entry.block_number() < from_block {
                    kept.push_back(entry);
                    assert(kept.deep_view() =~= before_push.push(entry.deep_view()));
                }
            },
            None => {},
        }
        i += 1;
    }
    assert(model.take(len as int) =~= model);
    *history = kept;
}

/// A copy of the entries of the blocks up to and including the given one.
pub fn copy_up_to<T: PerBlock>(history: &VecDeque<T>, cutoff: u64) -> (kept: VecDeque<T>)
    ensures
        kept.deep_view() == up_to::<T>(history.deep_view(), cutoff),
{
    let ghost model = history.deep_view();
    let ghost pred = |entry: T::V| T::block_of(entry) <= cutoff;
    let mut kept: VecDeque<T> = VecDeque::new();
    let mut i: usize = 0;
    proof {
        reveal(Seq::filter);
        assert(model.take(0) =~= Seq::<T::V>::empty());
        assert(kept.deep_view() =~= model.take(0).filter(pred));
    }
    while i < history.len()
        invariant
            i <= history@.len(),
            model == history.deep_view(),
            pred == (|entry: T::V| T::block_of(entry) <= cutoff),
            kept.deep_view() == model.take(i as int).filter(pred),
        decreases history.len() - i,
    {
        let ghost longer = model.take(i + 1);
        let ghost before_push = kept.deep_view();
        let entry = &history[i];
        assert(longer.drop_last() =~= model.take(i as int));
        assert(longer.last() == entry.deep_view());
        proof {
            reveal(Seq::filter);
        }
        if entry.block_number() <= cutoff {
            let copy = entry.duplicate();
            kept.push_back(copy);
            assert(kept.deep_view() =~= before_push.push(copy.deep_view()));
        }
        i += 1;
    }
    assert(model.take(history@.len() as int) =~= model);
    kept
}

/// A copy of the whole history.
pub fn copy_all<T: PerBlock>(history: &VecDeque<T>) -> (copy: VecDeque<T>)
    ensures
        copy.deep_view() == history.deep_view(),
{
    let mut copy: VecDeque<T> = VecDeque::new();
    let mut i: usize = 0;
    while i < history.len()
        invariant
            i <= history@.len(),
            copy@.len() == i,
            forall|j: int|
                0 <= j < i ==> (#[trigger] copy@[j]).deep_view() == history@[j].deep_view(),
        decreases history.len() - i,
    {
        copy.push_back(history[i].duplicate());
        i += 1;
    }
    assert(copy.deep_view() =~= history.deep_view());
    copy
}

/// A history holds the latest 64 entries: an added entry is the last one, and
/// the entries before it are those that were there, from the oldest on or, where
/// there were 64 or more, the latest 63 of them.
pub proof fn latest_entries_stay<M>(history: Seq<M>, entry: M, i: int)
    ensures
        pushed(history, entry)[pushed(history, entry).len() - 1] == entry,
        history.len() < 64 ==> {
            &&& pushed(history, entry).len() == history.len() + 1
            &&& 0 <= i < history.len() ==> pushed(history, entry)[i] == history[i]
        },
        history.len() >= 64 ==> {
            &&& pushed(history, entry).len() == 64
            &&& 0 <= i < 63 ==> pushed(history, entry)[i] == history[history.len() - 63 + i]
        },
{
}

/// What stays before a block, or up to one, is a listing of exactly the entries
/// of those blocks.
pub proof fn cutoffs_go_by_the_block<T: PerBlock>(history: Seq<T::V>, entry: T::V, block: u64)
    ensures
        before::<T>(history, block).contains(entry) <==> history.contains(entry) && T::block_of(
            entry,
        ) < block,
        up_to::<T>(history, block).contains(entry) <==> history.contains(entry) && T::block_of(
            entry,
        ) <= block,
        block < u64::MAX ==> up_to::<T>(history, block) == before::<T>(history, (block + 1) as u64),
        before::<T>(history, block).len() <= history.len(),
        up_to::<T>(history, block).len() <= history.len(),
{
    broadcast use Seq::lemma_filter_len;

    let earlier = |held: T::V| T::block_of(held) < block;
    let not_later = |held: T::V| T::block_of(held) <= block;
    lemma_filter_members(history, earlier, entry);
    lemma_filter_members(history, not_later, entry);
    if block < u64::MAX {
        let next = (block + 1) as u64;
        assert((|held: T::V| T::block_of(held) <= block) =~= (|held: T::V| T::block_of(held)
            < next));
    }
}

proof fn lemma_filter_members<M>(history: Seq<M>, pred: spec_fn(M) -> bool, entry: M)
    ensures
        history.filter(pred).contains(entry) <==> history.contains(entry) && pred(entry),
    decreases history.len(),
{
    reveal(Seq::filter);
    if history.len() > 0 {
        let shorter = history.drop_last();
        let last = history.last();
        lemma_filter_members(shorter, pred, entry);
        let kept = history.filter(pred);
        let so_far = shorter.filter(pred);
        if so_far.contains(entry) {
            let i = choose|i: int| 0 <= i < so_far.len() && so_far[i] == entry;
            assert(kept[i] == entry);
        }
        if pred(last) {
            assert(kept[so_far.len() as int] == last);
        }
        if kept.contains(entry) {
            let i = choose|i: int| 0 <= i < kept.len() && kept[i] == entry;
            if i < so_far.len() {
                assert(so_far[i] == entry);
            }
        }
        if shorter.contains(entry) {
            let i = choose|i: int| 0 <= i < shorter.len() && shorter[i] == entry;
            assert(history[i] == entry);
        }
        if history.contains(entry) {
            let i = choose|i: int| 0 <= i < history.len() && history[i] == entry;
            if i < shorter.len() {
                assert(shorter[i] == entry);
            }
        }
        assert(history[history.len() - 1] == last);
    }
}

} // verus!
