//! The model of a time window: what it means for a sequence of timestamped
//! entries to be in order, which entries a new timestamp pushes out of the
//! window, and the laws that the buffer's operations obey in consequence.

use core::time::Duration;
use vstd::prelude::*;
use crate::time::{nanos, saturating_diff};

verus! {

/// Timestamps strictly increase from the front of `s` to its back.
pub open spec fn ascending<T>(s: Seq<(Duration, T)>) -> bool {
    forall|i: int, j: int| 0 <= i < j < s.len() ==> nanos(s[i].0) < nanos(s[j].0)
}

/// A push at `timestamp` is accepted: `s` is empty, or `timestamp` lies
/// strictly after its newest entry.
pub open spec fn admits<T>(s: Seq<(Duration, T)>, timestamp: Duration) -> bool {
    s.len() > 0 ==> nanos(s.last().0) < nanos(timestamp)
}

/// The age of an entry stamped `stamp` once the newest timestamp is `latest`.
pub open spec fn age(stamp: Duration, latest: Duration) -> nat {
    saturating_diff(latest, stamp)
}

/// An entry stamped `stamp` is still inside the window that `limit` opens
/// behind `latest`: its age does not exceed the limit.
pub open spec fn in_window(stamp: Duration, latest: Duration, limit: Duration) -> bool {
    age(stamp, latest) <= nanos(limit)
}

/// Every entry of `s` is inside the window.
pub open spec fn all_in_window<T>(s: Seq<(Duration, T)>, latest: Duration, limit: Duration) -> bool {
    forall|i: int| 0 <= i < s.len() ==> in_window((#[trigger] s[i]).0, latest, limit)
}

/// Every entry of `s` has fallen out of the window.
pub open spec fn none_in_window<T>(
    s: Seq<(Duration, T)>,
    latest: Duration,
    limit: Duration,
) -> bool {
    forall|i: int| 0 <= i < s.len() ==> !in_window((#[trigger] s[i]).0, latest, limit)
}

/// `full` falls apart into `evicted`, a prefix of entries that are all out of
/// the window, and `kept`, the rest, which are all inside it.
///
/// The last two lines restate the two window conditions for the entries next
/// to the cut, where a proof about given entries looks first.
pub open spec fn splits<T>(
    full: Seq<(Duration, T)>,
    evicted: Seq<(Duration, T)>,
    kept: Seq<(Duration, T)>,
    latest: Duration,
    limit: Duration,
) -> bool {
    let cut = evicted.len() as int;
    &&& cut <= full.len()
    &&& evicted == full.take(cut)
    &&& kept == full.skip(cut)
    &&& none_in_window(evicted, latest, limit)
    &&& all_in_window(kept, latest, limit)
    &&& cut > 0 ==> !in_window(full[cut - 1].0, latest, limit)
    &&& cut < full.len() ==> in_window(full[cut].0, latest, limit)
}

/// The entries of `full` that are out of the window, in order.
pub open spec fn expired<T>(full: Seq<(Duration, T)>, latest: Duration, limit: Duration) -> Seq<
    (Duration, T),
> {
    full.filter(|e: (Duration, T)| !in_window(e.0, latest, limit))
}

/// The entries of `full` that are inside the window, in order.
pub open spec fn retained<T>(full: Seq<(Duration, T)>, latest: Duration, limit: Duration) -> Seq<
    (Duration, T),
> {
    full.filter(|e: (Duration, T)| in_window(e.0, latest, limit))
}

/// Draining `before` hands out `out` and leaves `after`: everything goes out,
/// in order, and nothing stays.
pub open spec fn drains<T>(
    before: Seq<(Duration, T)>,
    out: Seq<(Duration, T)>,
    after: Seq<(Duration, T)>,
) -> bool {
    out == before && after == Seq::<(Duration, T)>::empty()
}

/// The time between the oldest and the newest entry of `s`, where it has any.
pub open spec fn span<T>(s: Seq<(Duration, T)>) -> Option<int> {
    if s.len() == 0 {
        None
    } else {
        Some(nanos(s.last().0) - nanos(s.first().0))
    }
}

/// The time between the oldest and the newest entry of `s`, zero where it has
/// none.
pub open spec fn span_or_zero<T>(s: Seq<(Duration, T)>) -> int {
    match span(s) {
        Some(n) => n,
        None => 0,
    }
}

/// How far `reference` lies behind the newest entry of `s`, where `s` has an
/// entry and `reference` is not earlier than it.
pub open spec fn lag<T>(s: Seq<(Duration, T)>, reference: Duration) -> Option<int> {
    if s.len() > 0 && nanos(s.last().0) <= nanos(reference) {
        Some(nanos(reference) - nanos(s.last().0))
    } else {
        None
    }
}

/// The entry at the front of `s`, where it has any.
pub open spec fn oldest<T>(s: Seq<(Duration, T)>) -> Option<(Duration, T)> {
    if s.len() == 0 {
        None
    } else {
        Some(s.first())
    }
}

/// The entry at the back of `s`, where it has any.
pub open spec fn newest<T>(s: Seq<(Duration, T)>) -> Option<(Duration, T)> {
    if s.len() == 0 {
        None
    } else {
        Some(s.last())
    }
}

/// The timestamps of `s`, in order.
pub open spec fn stamps<T>(s: Seq<(Duration, T)>) -> Seq<Duration> {
    s.map_values(|e: (Duration, T)| e.0)
}

/// The values of `s`, in order.
pub open spec fn values<T>(s: Seq<(Duration, T)>) -> Seq<T> {
    s.map_values(|e: (Duration, T)| e.1)
}

/// An entry is inside the window exactly when its timestamp is not before
/// the cutoff, which is `latest` less `limit`, or zero where `limit` is the
/// longer of the two.
pub proof fn lemma_in_window_by_cutoff(stamp: Duration, latest: Duration, limit: Duration)
    ensures
        in_window(stamp, latest, limit) <==> nanos(stamp) >= saturating_diff(latest, limit),
{
}

/// An accepted push keeps the order: whatever the split of the extended
/// sequence, what is kept is ascending, is not empty, and ends in the entry
/// that was pushed.
pub proof fn lemma_accepted_push_keeps_order<T>(
    s: Seq<(Duration, T)>,
    timestamp: Duration,
    item: T,
    limit: Duration,
    evicted: Seq<(Duration, T)>,
    kept: Seq<(Duration, T)>,
)
    requires
        ascending(s),
        admits(s, timestamp),
        splits(s.push((timestamp, item)), evicted, kept, timestamp, limit),
    ensures
        ascending(s.push((timestamp, item))),
        ascending(kept),
        kept.len() > 0,
        kept.last() == (timestamp, item),
{
    let full = s.push((timestamp, item));
    assert forall|i: int, j: int| 0 <= i < j < full.len() implies nanos(full[i].0) < nanos(
        full[j].0,
    ) by {
        if j < s.len() {
            assert(full[i] == s[i] && full[j] == s[j]);
        } else {
            assert(full[i] == s[i] && s.last() == s[s.len() - 1]);
            if i < s.len() - 1 {
                assert(nanos(s[i].0) < nanos(s[s.len() - 1].0));
            }
        }
    }
    let cut = evicted.len() as int;
    if cut == full.len() {
        assert(evicted[cut - 1] == full[cut - 1]);
        assert(!in_window(timestamp, timestamp, limit));
    }
    assert forall|i: int, j: int| 0 <= i < j < kept.len() implies nanos(kept[i].0) < nanos(
        kept[j].0,
    ) by {
        assert(kept[i] == full[cut + i] && kept[j] == full[cut + j]);
    }
}

/// Once a push at `first` has been accepted, a push at a timestamp that is
/// not strictly after `first` is not.
pub proof fn lemma_stale_timestamp_not_admitted<T>(
    s: Seq<(Duration, T)>,
    first: Duration,
    item: T,
    limit: Duration,
    evicted: Seq<(Duration, T)>,
    kept: Seq<(Duration, T)>,
    second: Duration,
)
    requires
        ascending(s),
        admits(s, first),
        splits(s.push((first, item)), evicted, kept, first, limit),
        nanos(second) <= nanos(first),
    ensures
        !admits(kept, second),
{
    lemma_accepted_push_keeps_order(s, first, item, limit, evicted, kept);
}

/// After a split at `latest`, the newest timestamp less the timestamp of any
/// entry that is kept does not exceed the limit.
pub proof fn lemma_kept_within_limit<T>(
    full: Seq<(Duration, T)>,
    evicted: Seq<(Duration, T)>,
    kept: Seq<(Duration, T)>,
    latest: Duration,
    limit: Duration,
)
    requires
        splits(full, evicted, kept, latest, limit),
    ensures
        forall|i: int|
            0 <= i < kept.len() ==> saturating_diff(latest, (#[trigger] kept[i]).0) <= nanos(limit),
        forall|i: int|
            0 <= i < kept.len() ==> nanos(latest) - nanos((#[trigger] kept[i]).0) <= nanos(limit),
{
    assert forall|i: int| 0 <= i < kept.len() implies saturating_diff(
        latest,
        (#[trigger] kept[i]).0,
    ) <= nanos(limit) by {
        assert(in_window(kept[i].0, latest, limit));
    }
}

proof fn lemma_filter_all<A>(s: Seq<A>, pred: spec_fn(A) -> bool)
    requires
        forall|i: int| 0 <= i < s.len() ==> pred(#[trigger] s[i]),
    ensures
        s.filter(pred) == s,
    decreases s.len(),
{
    reveal(Seq::filter);
    if s.len() > 0 {
        lemma_filter_all(s.drop_last(), pred);
        assert(s.drop_last().push(s.last()) == s);
    }
}

proof fn lemma_filter_none<A>(s: Seq<A>, pred: spec_fn(A) -> bool)
    requires
        forall|i: int| 0 <= i < s.len() ==> !pred(#[trigger] s[i]),
    ensures
        s.filter(pred) == Seq::<A>::empty(),
    decreases s.len(),
{
    reveal(Seq::filter);
    if s.len() > 0 {
        lemma_filter_none(s.drop_last(), pred);
    }
}

/// What a split evicts is exactly the entries that are out of the window, the
/// oldest first, and what it keeps is exactly the entries that are inside it.
pub proof fn lemma_evicted_exactly_expired<T>(
    full: Seq<(Duration, T)>,
    evicted: Seq<(Duration, T)>,
    kept: Seq<(Duration, T)>,
    latest: Duration,
    limit: Duration,
)
    requires
        splits(full, evicted, kept, latest, limit),
    ensures
        evicted == expired(full, latest, limit),
        kept == retained(full, latest, limit),
{
    let out = |e: (Duration, T)| !in_window(e.0, latest, limit);
    let inside = |e: (Duration, T)| in_window(e.0, latest, limit);
    assert(full == evicted + kept);
    Seq::filter_distributes_over_add(evicted, kept, out);
    Seq::filter_distributes_over_add(evicted, kept, inside);
    lemma_filter_all(evicted, out);
    lemma_filter_none(kept, out);
    lemma_filter_none(evicted, inside);
    lemma_filter_all(kept, inside);
}

/// No entry that a split evicts is among the entries that it keeps.
pub proof fn lemma_evicted_not_kept<T>(
    full: Seq<(Duration, T)>,
    evicted: Seq<(Duration, T)>,
    kept: Seq<(Duration, T)>,
    latest: Duration,
    limit: Duration,
)
    requires
        splits(full, evicted, kept, latest, limit),
    ensures
        forall|i: int| 0 <= i < evicted.len() ==> !kept.contains(#[trigger] evicted[i]),
{
    assert forall|i: int| 0 <= i < evicted.len() implies !kept.contains(#[trigger] evicted[i]) by {
        if kept.contains(evicted[i]) {
            let j = choose|j: int| 0 <= j < kept.len() && kept[j] == evicted[i];
            assert(in_window(kept[j].0, latest, limit));
        }
    }
}

/// A sequence splits in one way only.
pub proof fn lemma_split_unique<T>(
    full: Seq<(Duration, T)>,
    evicted: Seq<(Duration, T)>,
    kept: Seq<(Duration, T)>,
    other_evicted: Seq<(Duration, T)>,
    other_kept: Seq<(Duration, T)>,
    latest: Duration,
    limit: Duration,
)
    requires
        splits(full, evicted, kept, latest, limit),
        splits(full, other_evicted, other_kept, latest, limit),
    ensures
        evicted == other_evicted,
        kept == other_kept,
{
    lemma_evicted_exactly_expired(full, evicted, kept, latest, limit);
    lemma_evicted_exactly_expired(full, other_evicted, other_kept, latest, limit);
}

/// Where the entry before `cut` is out of the window and the entry at `cut`
/// is inside it, an ascending sequence splits at `cut`.
pub proof fn lemma_split_at<T>(
    full: Seq<(Duration, T)>,
    cut: int,
    latest: Duration,
    limit: Duration,
)
    requires
        ascending(full),
        0 <= cut <= full.len(),
        cut > 0 ==> !in_window(full[cut - 1].0, latest, limit),
        cut < full.len() ==> in_window(full[cut].0, latest, limit),
    ensures
        splits(full, full.take(cut), full.skip(cut), latest, limit),
{
    assert forall|i: int| 0 <= i < cut implies !in_window(
        (#[trigger] full.take(cut)[i]).0,
        latest,
        limit,
    ) by {
        assert(nanos(full[i].0) <= nanos(full[cut - 1].0));
    }
    assert forall|i: int| 0 <= i < full.len() - cut implies in_window(
        (#[trigger] full.skip(cut)[i]).0,
        latest,
        limit,
    ) by {
        assert(nanos(full[cut].0) <= nanos(full[cut + i].0));
    }
}

/// An empty sequence has no span, a span of zero where zero stands for none,
/// no oldest and no newest entry, no lag behind any reference, and no length.
pub proof fn lemma_empty<T>(s: Seq<(Duration, T)>, reference: Duration)
    requires
        s.len() == 0,
    ensures
        span(s) is None,
        span_or_zero(s) == 0,
        oldest(s) is None,
        newest(s) is None,
        lag(s, reference) is None,
        s == Seq::<(Duration, T)>::empty(),
{
}

/// Draining empties, and draining what a drain has left hands out nothing.
pub proof fn lemma_drain_twice<T>(
    before: Seq<(Duration, T)>,
    first: Seq<(Duration, T)>,
    between: Seq<(Duration, T)>,
    second: Seq<(Duration, T)>,
    after: Seq<(Duration, T)>,
)
    requires
        drains(before, first, between),
        drains(between, second, after),
    ensures
        first == before,
        between.len() == 0,
        second.len() == 0,
        after.len() == 0,
{
}

} // verus!
