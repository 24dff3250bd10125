//! The window policy: how long a batch of a given size may keep accumulating.

use std::collections::BTreeMap;
use vstd::prelude::*;
use vstd::std_specs::btree::increasing_seq;
use vstd::std_specs::cmp::OrdSpec;
use vstd::std_specs::iter::IteratorSpec;

verus! {

/// `k` is the smallest threshold of `windows` that is at least `size`.
pub open spec fn is_selected(windows: Map<u64, u64>, size: int, k: u64) -> bool {
    &&& windows.contains_key(k)
    &&& size <= k
    &&& forall|j: u64| #[trigger] windows.contains_key(j) && size <= j ==> k <= j
}

/// The window, in milliseconds, of a batch that holds `size` items: the value
/// at the smallest threshold that is at least `size`, or `default_window`
/// where every threshold is smaller.
pub open spec fn window_of(windows: Map<u64, u64>, default_window: u64, size: int) -> u64 {
    if exists|k: u64| is_selected(windows, size, k) {
        windows[choose|k: u64| is_selected(windows, size, k)]
    } else {
        default_window
    }
}

/// The window is that of the smallest threshold that reaches the size, and
/// the default where none does.
pub proof fn lemma_window_of(windows: Map<u64, u64>, default_window: u64, size: int)
    ensures
        forall|k: u64|
            is_selected(windows, size, k) ==> window_of(windows, default_window, size)
                == windows[k],
        (forall|k: u64| #[trigger] windows.contains_key(k) ==> k < size) ==> window_of(
            windows,
            default_window,
            size,
        ) == default_window,
{
    assert forall|k: u64| is_selected(windows, size, k) implies window_of(
        windows,
        default_window,
        size,
    ) == windows[k] by {
        let chosen = choose|c: u64| is_selected(windows, size, c);
        assert(chosen == k);
    }
}

/// In an increasing sequence of thresholds, an earlier one is the smaller.
proof fn lemma_increasing(keys: Seq<u64>)
    requires
        increasing_seq(keys),
    ensures
        forall|i: int, j: int| 0 <= i < j < keys.len() ==> keys[i] < keys[j],
{
    broadcast use vstd::laws_cmp::group_laws_cmp;
    broadcast use vstd::std_specs::btree::axiom_increasing_seq_meaning;

    assert forall|i: int, j: int| 0 <= i < j < keys.len() implies keys[i] < keys[j] by {
        assert(keys[i].cmp_spec(&keys[j]) is Less);
    }
}

/// Thresholds are `u64`, whose order is the order of the numbers.
pub(crate) proof fn lemma_thresholds_are_ordered()
    ensures
        vstd::std_specs::btree::key_obeys_cmp_spec::<u64>(),
        vstd::laws_cmp::obeys_cmp::<u64>(),
{
    broadcast use vstd::laws_cmp::group_laws_cmp;
    broadcast use vstd::std_specs::btree::axiom_key_obeys_cmp_spec_meaning;
}

/// What an ordered walk over `windows` yields: every entry of the map, each
/// once, by increasing threshold.
spec fn walks(entries: Seq<(&u64, &u64)>, windows: Map<u64, u64>) -> bool {
    &&& forall|i: int, j: int| 0 <= i < j < entries.len() ==> *entries[i].0 < *entries[j].0
    &&& forall|i: int|
        0 <= i < entries.len() ==> windows.contains_key(*(#[trigger] entries[i]).0)
            && windows[*entries[i].0] == *entries[i].1
    &&& forall|k: u64| #[trigger] windows.contains_key(k) ==> entries.contains((&k, &windows[k]))
}

/// The first entry of the walk whose threshold reaches `size` is the selected one.
proof fn lemma_first_reaching(
    entries: Seq<(&u64, &u64)>,
    windows: Map<u64, u64>,
    default_window: u64,
    size: int,
    at: int,
)
    requires
        walks(entries, windows),
        0 <= at < entries.len(),
        forall|i: int| 0 <= i < at ==> *(#[trigger] entries[i]).0 < size,
        size <= *entries[at].0,
    ensures
        window_of(windows, default_window, size) == *entries[at].1,
{
    let k = *entries[at].0;
    assert forall|j: u64| #[trigger] windows.contains_key(j) && size <= j implies k <= j by {
        let m = choose|m: int| 0 <= m < entries.len() && entries[m] == (&j, &windows[j]);
        assert(entries[m].0 == j);
        assert(m >= at);
    }
    assert(is_selected(windows, size, k));
    let chosen = choose|c: u64| is_selected(windows, size, c);
    assert(chosen == k);
}

/// Where no entry of the walk reaches `size`, the default window applies.
proof fn lemma_none_reaching(
    entries: Seq<(&u64, &u64)>,
    windows: Map<u64, u64>,
    default_window: u64,
    size: int,
)
    requires
        walks(entries, windows),
        forall|i: int| 0 <= i < entries.len() ==> *(#[trigger] entries[i]).0 < size,
    ensures
        window_of(windows, default_window, size) == default_window,
{
    assert forall|k: u64| !is_selected(windows, size, k) by {
        if windows.contains_key(k) {
            let m = choose|m: int| 0 <= m < entries.len() && entries[m] == (&k, &windows[k]);
            assert(entries[m].0 == k);
        }
    }
}

/// How long the batch may still accumulate at `now`, where it began at
/// `start` and its window is `window`, all in milliseconds: the time from
/// `now` to the deadline `start + window`, and nothing once the deadline has
/// passed.
pub open spec fn remaining_at(start: u64, window: u64, now: u64) -> u64 {
    let left = start + window - now;
    if left <= 0 {
        0
    } else if left >= u64::MAX {
        u64::MAX
    } else {
        left as u64
    }
}

/// Computes [`remaining_at`].
pub fn remaining(start: u64, window: u64, now: u64) -> (left: u64)
    ensures
        left == remaining_at(start, window, now),
{
    if now >= start {
        let elapsed = now - start;
        if elapsed >= window {
            0
        } else {
            window - elapsed
        }
    } else {
        let ahead = start - now;
        if ahead > u64::MAX - window {
            u64::MAX
        } else {
            window + ahead
        }
    }
}

/// The window, in milliseconds, that `windows` and `default_window` give to a
/// batch of `size` items.
pub fn lookup(windows: &BTreeMap<u64, u64>, default_window: u64, size: usize) -> (window: u64)
    ensures
        window == window_of(windows@, default_window, size as int),
{
    proof {
        lemma_thresholds_are_ordered();
        broadcast use vstd::std_specs::btree::group_btree_axioms;
    }
    let iter = windows.iter();
    let ghost entries = iter.remaining();
    proof {
        lemma_increasing(entries.map_values(|kv: (&u64, &u64)| *kv.0));
        assert forall|i: int, j: int| 0 <= i < j < entries.len() implies *entries[i].0
            < *entries[j].0 by {
            let keys = entries.map_values(|kv: (&u64, &u64)| *kv.0);
            assert(keys[i] < keys[j]);
        }
        assert(walks(entries, windows@));
    }
    for kv in it: iter
        invariant
            it.seq() == entries,
            walks(entries, windows@),
            forall|i: int| 0 <= i < it.index() ==> *(#[trigger] entries[i]).0 < size,
    {
        if *kv.0 >= size as u64 {
            proof {
                lemma_first_reaching(entries, windows@, default_window, size as int, it.index());
            }
            return *kv.1;
        }
    }
    proof {
        lemma_none_reaching(entries, windows@, default_window, size as int);
    }
    default_window
}

} // verus!
