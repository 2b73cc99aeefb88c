//! Caches that are filled by fetching what is missing.

use std::collections::VecDeque;

use vstd::prelude::*;

use crate::primitives::Duplicate;
use crate::table::{Table, TableKey};

verus! {

/// The value under the key, if it is there.
pub fn cached<K: TableKey, V: Duplicate>(cache: &Table<K, V>, key: &K) -> (value: Option<V>)
    ensures
        value.deep_view() == (if cache@.contains_key(*key) {
            Some(cache@[*key])
        } else {
            None
        }),
{
    match cache.get(key) {
        Some(held) => Some(held.duplicate()),
        None => None,
    }
}

/// Puts what was fetched under the key and gives it out. A fetch that failed
/// leaves the cache alone.
pub fn cached_fetch<K: TableKey, V: Duplicate, E>(
    cache: &mut Table<K, V>,
    key: K,
    fetched: Result<V, E>,
) -> (res: Result<V, E>)
    ensures
        match fetched {
            Ok(value) => {
                &&& final(cache)@ == old(cache)@.insert(key, value.deep_view())
                &&& res matches Ok(given)
                &&& given.deep_view() == value.deep_view()
            },
            Err(error) => final(cache)@ == old(cache)@ && res == Err::<V, E>(error),
        },
{
    match fetched {
        Ok(value) => {
            cache.insert(key, value.duplicate());
            Ok(value)
        },
        Err(error) => Err(error),
    }
}

/// The keys that are not known, each once, in the order in which they are
/// listed.
pub open spec fn missing<K>(keys: Seq<K>, known: Set<K>) -> Seq<K>
    decreases keys.len(),
{
    if keys.len() == 0 {
        Seq::empty()
    } else if known.contains(keys.first()) {
        missing(keys.drop_first(), known)
    } else {
        seq![keys.first()] + missing(keys.drop_first(), known.insert(keys.first()))
    }
}

/// The keys from the first one on that is not known.
pub open spec fn skip_known<K>(keys: Seq<K>, known: Set<K>) -> Seq<K>
    decreases keys.len(),
{
    if keys.len() > 0 && known.contains(keys.first()) {
        skip_known(keys.drop_first(), known)
    } else {
        keys
    }
}

/// The fetching of whatever is missing of a list of keys.
pub struct Discovery<K: TableKey, V: Duplicate> {
    rest: VecDeque<K>,
    found: Vec<V>,
}

/// The model of a `Discovery`.
#[verifier::ext_equal]
pub struct DiscoveryView<K, M> {
    /// The keys that have not been looked at yet.
    pub rest: Seq<K>,
    /// What has been fetched, in order.
    pub found: Seq<M>,
}

impl<K: TableKey, V: Duplicate> View for Discovery<K, V> {
    type V = DiscoveryView<K, V::V>;

    closed spec fn view(&self) -> DiscoveryView<K, V::V> {
        DiscoveryView { rest: self.rest@, found: self.found.deep_view() }
    }
}

impl<K: TableKey, V: Duplicate> Discovery<K, V> {
    pub fn new(keys: &Vec<K>) -> (discovery: Discovery<K, V>)
        ensures
            discovery@ == (DiscoveryView { rest: keys@, found: Seq::<V::V>::empty() }),
    {
        let mut rest: VecDeque<K> = VecDeque::new();
        let mut i: usize = 0;
        while i < keys.len()
            invariant
                i <= keys@.len(),
                rest@ == keys@.take(i as int),
            decreases keys.len() - i,
        {
            rest.push_back(keys[i].copied());
            assert(rest@ =~= keys@.take(i + 1));
            i += 1;
        }
        let discovery = Discovery { rest, found: Vec::new() };
        assert(discovery@.rest =~= keys@);
        assert(discovery@.found =~= Seq::<V::V>::empty());
        discovery
    }

    /// The next key that the cache does not hold; those before it are passed
    /// over.
    pub fn next_missing(&mut self, cache: &Table<K, V>) -> (key: Option<K>)
        ensures
            ({
                let left = skip_known(old(self)@.rest, cache@.dom());
                if left.len() > 0 {
                    &&& key == Some(left.first())
                    &&& final(self)@ == (DiscoveryView { rest: left.drop_first(), ..old(self)@ })
                } else {
                    &&& key is None
                    &&& final(self)@ == (DiscoveryView { rest: left, ..old(self)@ })
                }
            }),
    {
        let ghost start = self@;
        let ghost known = cache@.dom();
        while self.rest.len() > 0
            invariant
                start == old(self)@,
                known == cache@.dom(),
                self@.found == start.found,
                skip_known(start.rest, known) == skip_known(self@.rest, known),
            decreases self.rest.len(),
        {
            let ghost rest = self@.rest;
            if let Some(key) = self.rest.pop_front() {
                assert(rest.first() == key);
                assert(self@.rest =~= rest.drop_first());
                if !cache.contains_key(&key) {
                    return Some(key);
                }
            }
        }
        None
    }

    /// Puts what was fetched under the key. A fetch that failed ends the
    /// discovery with its error.
    pub fn cached_discover<E>(
        &mut self,
        cache: &mut Table<K, V>,
        key: K,
        fetched: Result<V, E>,
    ) -> (res: Result<(), E>)
        ensures
            match fetched {
                Ok(value) => {
                    &&& final(cache)@ == old(cache)@.insert(key, value.deep_view())
                    &&& final(self)@ == (DiscoveryView {
                        found: old(self)@.found.push(value.deep_view()),
                        ..old(self)@
                    })
                    &&& res is Ok
                },
                Err(error) => {
                    &&& final(cache)@ == old(cache)@
                    &&& final(self)@ == old(self)@
                    &&& res == Err::<(), E>(error)
                },
            },
    {
        let ghost start = self@;
        match cached_fetch(cache, key, fetched) {
            Ok(value) => {
                self.found.push(value);
                assert(self@.found =~= start.found.push(value.deep_view()));
                Ok(())
            },
            Err(error) => Err(error),
        }
    }

    /// What was fetched, in the order of the keys. Values that were known
    /// before are not among it.
    pub fn into_found(self) -> (found: Vec<V>)
        ensures
            found.deep_view() == self@.found,
    {
        self.found
    }
}

/// Each step of a discovery takes the first of the missing keys and leaves the
/// others.
pub proof fn first_unknown_key_is_the_first_missing<K>(keys: Seq<K>, known: Set<K>)
    ensures
        ({
            let left = skip_known(keys, known);
            missing(keys, known) == (if left.len() > 0 {
                seq![left.first()] + missing(left.drop_first(), known.insert(left.first()))
            } else {
                Seq::<K>::empty()
            })
        }),
    decreases keys.len(),
{
    if keys.len() > 0 && known.contains(keys.first()) {
        first_unknown_key_is_the_first_missing(keys.drop_first(), known);
    }
}

/// What a discovery gives and what the cache holds in the end, where `fetched`
/// is what comes of the fetch of each key and nobody else writes to the cache.
/// It goes from one missing key to the next until none is left or a fetch fails.
pub open spec fn discovered<K, M, E>(
    keys: Seq<K>,
    cache: Map<K, M>,
    fetched: spec_fn(K) -> Result<M, E>,
) -> (Result<Seq<M>, E>, Map<K, M>)
    decreases keys.len(),
{
    proof {
        lemma_skip_known_shrinks(keys, cache.dom());
    }
    let left = skip_known(keys, cache.dom());
    if left.len() == 0 {
        (Ok(Seq::empty()), cache)
    } else {
        match fetched(left.first()) {
            Ok(value) => {
                let rest = discovered(
                    left.drop_first(),
                    cache.insert(left.first(), value),
                    fetched,
                );
                match rest.0 {
                    Ok(found) => (Ok(seq![value] + found), rest.1),
                    Err(error) => (Err(error), rest.1),
                }
            },
            Err(error) => (Err(error), cache),
        }
    }
}

/// Passing over known keys leaves no more keys than there were.
pub proof fn lemma_skip_known_shrinks<K>(keys: Seq<K>, known: Set<K>)
    ensures
        skip_known(keys, known).len() <= keys.len(),
    decreases keys.len(),
{
    if keys.len() > 0 && known.contains(keys.first()) {
        lemma_skip_known_shrinks(keys.drop_first(), known);
    }
}

/// The value that the fetch of a key brings.
pub open spec fn brought<K, M, E>(fetched: spec_fn(K) -> Result<M, E>) -> spec_fn(K) -> M {
    |key: K| fetched(key)->Ok_0
}

/// The cache with the values of these keys beside what was there.
pub open spec fn with_fetched<K, M, E>(
    cache: Map<K, M>,
    keys: Seq<K>,
    fetched: spec_fn(K) -> Result<M, E>,
) -> Map<K, M> {
    cache.union_prefer_right(Map::new(|key: K| keys.contains(key), brought(fetched)))
}

/// A discovery in which every fetch succeeds gives what it fetched for the
/// missing keys, in their order, and leaves it in the cache beside what was
/// there.
pub proof fn discovery_fetches_what_is_missing<K, M, E>(
    keys: Seq<K>,
    cache: Map<K, M>,
    fetched: spec_fn(K) -> Result<M, E>,
)
    requires
        forall|i: int|
            0 <= i < missing(keys, cache.dom()).len() ==> fetched(
                #[trigger] missing(keys, cache.dom())[i],
            ) is Ok,
    ensures
        discovered(keys, cache, fetched) == (
            Ok::<Seq<M>, E>(missing(keys, cache.dom()).map_values(brought(fetched))),
            with_fetched(cache, missing(keys, cache.dom()), fetched),
        ),
{
    let wanted = missing(keys, cache.dom());
    lemma_discovered(keys, cache, fetched, wanted.len() as int);
    assert(wanted.take(wanted.len() as int) =~= wanted);
}

/// A discovery in which the fetch of a missing key is the first to fail gives
/// its error. The values of the missing keys before it are in the cache beside
/// what was there, and nothing else is.
pub proof fn discovery_ends_with_the_first_error<K, M, E>(
    keys: Seq<K>,
    cache: Map<K, M>,
    fetched: spec_fn(K) -> Result<M, E>,
    j: int,
)
    requires
        0 <= j < missing(keys, cache.dom()).len(),
        forall|i: int|
            0 <= i < j ==> fetched(#[trigger] missing(keys, cache.dom())[i]) is Ok,
        fetched(missing(keys, cache.dom())[j]) is Err,
    ensures
        discovered(keys, cache, fetched) == (
            Err::<Seq<M>, E>(fetched(missing(keys, cache.dom())[j])->Err_0),
            with_fetched(cache, missing(keys, cache.dom()).take(j), fetched),
        ),
{
    lemma_discovered(keys, cache, fetched, j);
}

/// A discovery whose first `n` fetches succeed, and no more.
proof fn lemma_discovered<K, M, E>(
    keys: Seq<K>,
    cache: Map<K, M>,
    fetched: spec_fn(K) -> Result<M, E>,
    n: int,
)
    requires
        0 <= n <= missing(keys, cache.dom()).len(),
        forall|i: int|
            0 <= i < n ==> fetched(#[trigger] missing(keys, cache.dom())[i]) is Ok,
        n < missing(keys, cache.dom()).len() ==> fetched(missing(keys, cache.dom())[n]) is Err,
    ensures
        discovered(keys, cache, fetched).0 == (if n < missing(keys, cache.dom()).len() {
            Err::<Seq<M>, E>(fetched(missing(keys, cache.dom())[n])->Err_0)
        } else {
            Ok::<Seq<M>, E>(missing(keys, cache.dom()).map_values(brought(fetched)))
        }),
        discovered(keys, cache, fetched).1 == with_fetched(
            cache,
            missing(keys, cache.dom()).take(n),
            fetched,
        ),
    decreases keys.len(),
{
    let wanted = missing(keys, cache.dom());
    let left = skip_known(keys, cache.dom());
    let result = discovered(keys, cache, fetched);
    lemma_skip_known_shrinks(keys, cache.dom());
    first_unknown_key_is_the_first_missing(keys, cache.dom());
    if n == 0 {
        assert(result.1 =~= with_fetched(cache, wanted.take(0), fetched));
        if left.len() == 0 {
            assert(wanted.map_values(brought(fetched)) =~= Seq::<M>::empty());
        } else {
            assert(wanted[0] == left.first());
        }
    } else {
        let first = left.first();
        assert(wanted[0] == first);
        let value = fetched(first)->Ok_0;
        let fuller = cache.insert(first, value);
        assert(fuller.dom() =~= cache.dom().insert(first));
        let tail = missing(left.drop_first(), fuller.dom());
        assert(wanted =~= seq![first] + tail);
        assert forall|i: int| 0 <= i < n - 1 implies fetched(#[trigger] tail[i]) is Ok by {
            assert(tail[i] == wanted[i + 1]);
        }
        if n < wanted.len() {
            assert(tail[n - 1] == wanted[n]);
        }
        lemma_discovered(left.drop_first(), fuller, fetched, n - 1);
        if n == wanted.len() {
            assert(seq![value] + tail.map_values(brought(fetched)) =~= wanted.map_values(
                brought(fetched),
            ));
        }
        let sooner = wanted.take(n);
        let later = tail.take(n - 1);
        assert forall|key: K| sooner.contains(key) == (key == first || later.contains(key)) by {
            if later.contains(key) {
                let i = choose|i: int| 0 <= i < later.len() && later[i] == key;
                assert(sooner[i + 1] == key);
            }
            if sooner.contains(key) {
                let i = choose|i: int| 0 <= i < sooner.len() && sooner[i] == key;
                if i > 0 {
                    assert(later[i - 1] == key);
                }
            }
            assert(sooner[0] == first);
        }
        assert(result.1 =~= with_fetched(cache, sooner, fetched));
    }
}

/// Only what is missing is fetched, and nothing twice.
pub proof fn missing_keys_are_unknown_and_distinct<K>(keys: Seq<K>, known: Set<K>)
    ensures
        missing(keys, known).no_duplicates(),
        missing(keys, known).to_set() == keys.to_set().difference(known),
    decreases keys.len(),
{
    if keys.len() == 0 {
        assert(missing(keys, known).to_set() =~= keys.to_set().difference(known));
    } else {
        let first = keys.first();
        let rest = keys.drop_first();
        assert(keys =~= seq![first] + rest);
        assert forall|key: K| keys.to_set().contains(key) == (key == first
            || rest.to_set().contains(key)) by {
            if rest.contains(key) {
                let i = choose|i: int| 0 <= i < rest.len() && rest[i] == key;
                assert(keys[i + 1] == key);
            }
            if keys.contains(key) {
                let i = choose|i: int| 0 <= i < keys.len() && keys[i] == key;
                if i > 0 {
                    assert(rest[i - 1] == key);
                }
            }
            assert(keys[0] == first);
        }
        if known.contains(first) {
            missing_keys_are_unknown_and_distinct(rest, known);
        } else {
            let tail = missing(rest, known.insert(first));
            missing_keys_are_unknown_and_distinct(rest, known.insert(first));
            let all = missing(keys, known);
            assert(all =~= seq![first] + tail);
            assert(!tail.to_set().contains(first));
            assert(!tail.contains(first));
            assert forall|i: int, j: int|
                0 <= i < all.len() && 0 <= j < all.len() && i != j implies all[i] != all[j] by {
                if i == 0 {
                    assert(all[j] == tail[j - 1]);
                    assert(tail.contains(all[j]));
                } else if j == 0 {
                    assert(all[i] == tail[i - 1]);
                    assert(tail.contains(all[i]));
                } else {
                    assert(all[i] == tail[i - 1]);
                    assert(all[j] == tail[j - 1]);
                }
            }
            assert forall|key: K| all.to_set().contains(key) == (key == first
                || tail.to_set().contains(key)) by {
                if tail.contains(key) {
                    let i = choose|i: int| 0 <= i < tail.len() && tail[i] == key;
                    assert(all[i + 1] == key);
                }
                if all.contains(key) {
                    let i = choose|i: int| 0 <= i < all.len() && all[i] == key;
                    if i > 0 {
                        assert(tail[i - 1] == key);
                    }
                }
                assert(all[0] == first);
            }
        }
        assert(missing(keys, known).to_set() =~= keys.to_set().difference(known));
    }
}

/// What is left once known keys have been passed over is the list from some
/// place on: all keys before that place are known, and the one at it, if there
/// is one, is not.
pub proof fn only_known_keys_are_passed_over<K>(keys: Seq<K>, known: Set<K>)
    ensures
        ({
            let left = skip_known(keys, known);
            &&& left == keys.skip(keys.len() - left.len())
            &&& left.len() <= keys.len()
            &&& forall|i: int|
                0 <= i < keys.len() - left.len() ==> known.contains(#[trigger] keys[i])
            &&& left.len() > 0 ==> !known.contains(left[0])
        }),
    decreases keys.len(),
{
    let left = skip_known(keys, known);
    if keys.len() > 0 && known.contains(keys.first()) {
        let rest = keys.drop_first();
        only_known_keys_are_passed_over(rest, known);
        assert(left =~= keys.skip(keys.len() - left.len()));
        assert forall|i: int| 0 <= i < keys.len() - left.len() implies known.contains(
            #[trigger] keys[i],
        ) by {
            if i > 0 {
                assert(rest[i - 1] == keys[i]);
            }
        }
    } else {
        assert(left =~= keys.skip(0));
    }
}

/// Missing keys are fetched in the order in which they are first listed: each
/// stands in the list at a place before which no listed key is fetched later.
pub proof fn missing_keys_keep_their_order<K>(keys: Seq<K>, known: Set<K>, i: int, j: int)
    requires
        0 <= i < j < missing(keys, known).len(),
    ensures
        exists|m: int|
            {
                &&& 0 <= m < keys.len()
                &&& #[trigger] keys[m] == missing(keys, known)[i]
                &&& forall|n: int|
                    0 <= n < m ==> #[trigger] keys[n] != missing(keys, known)[i] && keys[n]
                        != missing(keys, known)[j]
            },
    decreases keys.len(),
{
    let first = keys.first();
    let rest = keys.drop_first();
    let all = missing(keys, known);
    missing_keys_are_unknown_and_distinct(keys, known);
    if known.contains(first) {
        missing_keys_keep_their_order(rest, known, i, j);
        let m = choose|m: int|
            {
                &&& 0 <= m < rest.len()
                &&& #[trigger] rest[m] == missing(rest, known)[i]
                &&& forall|n: int|
                    0 <= n < m ==> #[trigger] rest[n] != missing(rest, known)[i] && rest[n]
                        != missing(rest, known)[j]
            };
        lemma_missing_is_unknown(keys, known, i);
        lemma_missing_is_unknown(keys, known, j);
        assert(keys[m + 1] == all[i]);
        assert forall|n: int| 0 <= n < m + 1 implies #[trigger] keys[n] != all[i] && keys[n]
            != all[j] by {
            if n > 0 {
                assert(rest[n - 1] == keys[n]);
            }
        }
    } else if i == 0 {
        assert(keys[0] == all[i]);
    } else {
        let fuller = known.insert(first);
        let tail = missing(rest, fuller);
        missing_keys_keep_their_order(rest, fuller, i - 1, j - 1);
        let m = choose|m: int|
            {
                &&& 0 <= m < rest.len()
                &&& #[trigger] rest[m] == tail[i - 1]
                &&& forall|n: int|
                    0 <= n < m ==> #[trigger] rest[n] != tail[i - 1] && rest[n] != tail[j - 1]
            };
        assert(all[i] == tail[i - 1] && all[j] == tail[j - 1]);
        assert(all[0] == first);
        assert(keys[m + 1] == all[i]);
        assert forall|n: int| 0 <= n < m + 1 implies #[trigger] keys[n] != all[i] && keys[n]
            != all[j] by {
            if n > 0 {
                assert(rest[n - 1] == keys[n]);
            }
        }
    }
}

proof fn lemma_missing_is_unknown<K>(keys: Seq<K>, known: Set<K>, i: int)
    requires
        0 <= i < missing(keys, known).len(),
    ensures
        !known.contains(missing(keys, known)[i]),
{
    missing_keys_are_unknown_and_distinct(keys, known);
    assert(missing(keys, known).to_set().contains(missing(keys, known)[i]));
}

/// What is cached is given as it is; what was fetched is given as it is and is
/// cached under its key; a fetch that failed changes nothing and gives its
/// error.
pub proof fn cache_gives_back_what_was_fetched<K: TableKey, V: Duplicate, E>(
    cache: &mut Table<K, V>,
    key: K,
    value: V,
    given: Result<V, E>,
    later: Table<K, V>,
    found: Option<V>,
    other: &mut Table<K, V>,
    error: E,
    failed: Result<V, E>,
)
    requires
        call_ensures(cached_fetch::<K, V, E>, (cache, key, Ok(value)), given),
        later@ == final(cache)@,
        call_ensures(cached::<K, V>, (&later, &key), found),
        call_ensures(cached_fetch::<K, V, E>, (other, key, Err(error)), failed),
    ensures
        given matches Ok(same) && same.deep_view() == value.deep_view(),
        found matches Some(held) && held.deep_view() == value.deep_view(),
        forall|k: K|
            k != key ==> (#[trigger] final(cache)@.contains_key(k)) == old(cache)@.contains_key(k)
                && final(cache)@[k] == old(cache)@[k],
        failed == Err::<V, E>(error),
        final(other)@ == old(other)@,
{
}

/// A discovery goes on from where it stands to the first key that the cache does
/// not hold, and notes what was fetched for it after what it found before.
pub proof fn discovery_goes_from_key_to_key<K: TableKey, V: Duplicate, E>(
    keys: Vec<K>,
    made: Discovery<K, V>,
    discovery: &mut Discovery<K, V>,
    cache: Table<K, V>,
    next: Option<K>,
    later: &mut Discovery<K, V>,
    grown: &mut Table<K, V>,
    key: K,
    value: V,
    res: Result<(), E>,
)
    requires
        call_ensures(Discovery::<K, V>::new, (&keys,), made),
        call_ensures(Discovery::<K, V>::next_missing, (discovery, &cache), next),
        call_ensures(
            Discovery::<K, V>::cached_discover::<E>,
            (later, grown, key, Ok(value)),
            res,
        ),
    ensures
        made@.rest == keys@ && made@.found.len() == 0,
        next matches Some(first) ==> {
            let rest = old(discovery)@.rest;
            let at = rest.len() - final(discovery)@.rest.len() - 1;
            &&& 0 <= at < rest.len()
            &&& rest[at] == first
            &&& !cache@.contains_key(first)
            &&& forall|i: int| 0 <= i < at ==> cache@.contains_key(#[trigger] rest[i])
            &&& final(discovery)@.rest == rest.skip(at + 1)
        },
        next is None ==> forall|i: int|
            0 <= i < old(discovery)@.rest.len() ==> cache@.contains_key(
                #[trigger] old(discovery)@.rest[i],
            ),
        final(discovery)@.found == old(discovery)@.found,
        res is Ok,
        final(later)@.found == old(later)@.found.push(value.deep_view()),
        final(later)@.rest == old(later)@.rest,
        final(grown)@ == old(grown)@.insert(key, value.deep_view()),
{
    let rest = old(discovery)@.rest;
    let known = cache@.dom();
    only_known_keys_are_passed_over(rest, known);
    let left = skip_known(rest, known);
    if left.len() > 0 {
        let at = rest.len() - left.len();
        assert(left.drop_first() =~= rest.skip(at + 1));
    }
}

/// What a discovery found is given out in the order in which it was found.
pub proof fn discovery_gives_out_what_it_found<K: TableKey, V: Duplicate, E>(
    discovery: Discovery<K, V>,
    found: Vec<V>,
    later: &mut Discovery<K, V>,
    cache: &mut Table<K, V>,
    key: K,
    error: E,
    res: Result<(), E>,
)
    requires
        call_ensures(Discovery::<K, V>::into_found, (discovery,), found),
        call_ensures(
            Discovery::<K, V>::cached_discover::<E>,
            (later, cache, key, Err(error)),
            res,
        ),
    ensures
        found.deep_view() == discovery@.found,
        res == Err::<(), E>(error),
        final(cache)@ == old(cache)@,
        final(later)@ == old(later)@,
{
}

} // verus!
