//! The buffer: a double-ended queue of timestamped entries whose timestamps
//! strictly increase, with a limit on how old an entry may be after a push.

use core::time::Duration;
use std::collections::vec_deque::Iter;
use std::collections::VecDeque;
use vstd::prelude::*;
use vstd::std_specs::iter::IteratorSpec;
use crate::builder::TimeVecBuilder;
use crate::time::{nanos, precedes, zero};
use crate::window::{
    admits, ascending, drains, in_window, lag, newest, oldest, span, span_or_zero, splits, stamps,
    values,
};

verus! {

/// A timestamp and the value recorded at it.
pub type TimeVecItem<T> = (Duration, T);

/// Timestamped values in strictly ascending time order, the oldest at the
/// front. A push drops from the front whatever has grown older than `limit`
/// relative to the pushed timestamp.
#[derive(Debug)]
pub struct TimeVec<T> {
    /// The greatest age an entry may have after a push.
    pub limit: Duration,
    buffer: VecDeque<TimeVecItem<T>>,
}

impl<T> View for TimeVec<T> {
    type V = Seq<(Duration, T)>;

    /// The entries, oldest first.
    closed spec fn view(&self) -> Seq<(Duration, T)> {
        self.buffer@
    }
}

impl<T: Clone> Clone for TimeVec<T> {
    /// A buffer with the same limit and the same timestamps, holding a clone
    /// of each value.
    fn clone(&self) -> (tv: Self)
        ensures
            tv.limit() == self.limit(),
            stamps(tv@) == stamps(self@),
            forall|i: int| 0 <= i < self@.len() ==> cloned((#[trigger] self@[i]).1, tv@[i].1),
    {
        proof {
            use_type_invariant(self);
        }
        let n = self.buffer.len();
        let mut buffer: VecDeque<(Duration, T)> = VecDeque::with_capacity(n);
        let mut i: usize = 0;
        while i < n
            invariant
                i <= n == self.buffer@.len(),
                buffer@.len() == i,
                forall|j: int| 0 <= j < i ==> (#[trigger] buffer@[j]).0 == self.buffer@[j].0,
                forall|j: int| 0 <= j < i ==> cloned((#[trigger] self.buffer@[j]).1, buffer@[j].1),
            decreases n - i,
        {
            let entry = &self.buffer[i];
            buffer.push_back((entry.0, entry.1.clone()));
            i += 1;
        }
        assert(stamps(buffer@) == stamps(self.buffer@));
        Self { limit: self.limit, buffer }
    }
}

/// The number of leading entries of `buffer` that lie strictly before
/// `cutoff`, found by bisection.
fn partition_point<T>(buffer: &VecDeque<(Duration, T)>, cutoff: Duration) -> (k: usize)
    requires
        ascending(buffer@),
    ensures
        k <= buffer@.len(),
        forall|i: int| 0 <= i < k ==> nanos((#[trigger] buffer@[i]).0) < nanos(cutoff),
        forall|i: int| k <= i < buffer@.len() ==> nanos((#[trigger] buffer@[i]).0) >= nanos(cutoff),
{
    let mut lo: usize = 0;
    let mut hi: usize = buffer.len();
    while lo < hi
        invariant
            lo <= hi <= buffer@.len(),
            ascending(buffer@),
            forall|i: int| 0 <= i < lo ==> nanos((#[trigger] buffer@[i]).0) < nanos(cutoff),
            forall|i: int| hi <= i < buffer@.len() ==> nanos((#[trigger] buffer@[i]).0) >= nanos(cutoff),
        decreases hi - lo,
    {
        let mid = lo + (hi - lo) / 2;
        if precedes(buffer[mid].0, cutoff) {
            lo = mid + 1;
        } else {
            hi = mid;
        }
    }
    lo
}

/// Removes the first `k` entries of `buffer` and hands them back in order.
fn drain_front<T>(buffer: &mut VecDeque<(Duration, T)>, k: usize) -> (out: Vec<(Duration, T)>)
    requires
        k <= old(buffer)@.len(),
    ensures
        out@ == old(buffer)@.take(k as int),
        final(buffer)@ == old(buffer)@.skip(k as int),
{
    let mut out: Vec<(Duration, T)> = Vec::new();
    while out.len() < k
        invariant
            out@.len() <= k <= old(buffer)@.len(),
            out@ == old(buffer)@.take(out@.len() as int),
            buffer@ == old(buffer)@.skip(out@.len() as int),
        decreases k - out@.len(),
    {
        let entry = buffer.pop_front().unwrap();
        out.push(entry);
    }
    out
}

impl<T> TimeVec<T> {
    /// The limit, as contracts speak of it.
    pub closed spec fn spec_limit(&self) -> Duration {
        self.limit
    }

    /// The greatest age an entry may have after a push.
    #[verifier::when_used_as_spec(spec_limit)]
    pub fn limit(&self) -> (limit: Duration)
        ensures
            limit == self.spec_limit(),
    {
        self.limit
    }

    /// Changes the limit. No entry leaves on that account: the new limit
    /// takes effect with the next push.
    pub fn set_limit(&mut self, limit: Duration)
        ensures
            final(self).limit() == limit,
            final(self)@ == old(self)@,
    {
        proof {
            use_type_invariant(&*self);
        }
        self.limit = limit;
    }

    #[verifier::type_invariant]
    spec fn ordered(self) -> bool {
        ascending(self.buffer@)
    }

    /// An empty buffer with the given limit and room for `capacity` entries.
    pub fn new(limit: Duration, capacity: usize) -> (tv: Self)
        ensures
            tv@ == Seq::<(Duration, T)>::empty(),
            tv.limit() == limit,
    {
        Self { limit, buffer: VecDeque::with_capacity(capacity) }
    }

    /// An empty buffer with the given limit and nothing reserved.
    pub(crate) fn unreserved(limit: Duration) -> (tv: Self)
        ensures
            tv@ == Seq::<(Duration, T)>::empty(),
            tv.limit() == limit,
    {
        Self { limit, buffer: VecDeque::new() }
    }

    /// A builder with nothing set.
    pub fn builder() -> (b: TimeVecBuilder<T>)
        ensures
            b.spec_limit() is None,
            b.spec_capacity() is None,
    {
        TimeVecBuilder::<T>::default()
    }

    /// Whether `value` lies strictly after the newest entry.
    fn check_timestamp(&self, value: Duration) -> (ok: bool)
        ensures
            ok == admits(self@, value),
    {
        let n = self.buffer.len();
        if n == 0 {
            true
        } else {
            precedes(self.buffer[n - 1].0, value)
        }
    }

    /// Moves the entries out, leaving the buffer empty.
    fn take_buffer(&mut self) -> (buffer: VecDeque<(Duration, T)>)
        ensures
            buffer@ == old(self)@,
            ascending(buffer@),
            final(self)@ == Seq::<(Duration, T)>::empty(),
            final(self).limit() == old(self).limit(),
    {
        proof {
            use_type_invariant(&*self);
        }
        let mut buffer = VecDeque::new();
        core::mem::swap(&mut buffer, &mut self.buffer);
        buffer
    }

    /// Appends `item` at `timestamp` and evicts what has fallen out of the
    /// window, oldest first. A timestamp that does not lie strictly after the
    /// newest entry is rejected with `None`, and nothing changes.
    pub fn push(&mut self, timestamp: Duration, item: T) -> (evicted: Option<Vec<TimeVecItem<T>>>)
        ensures
            final(self).limit() == old(self).limit(),
            ascending(final(self)@),
            evicted is Some <==> admits(old(self)@, timestamp),
            evicted is None ==> final(self)@ == old(self)@,
            evicted matches Some(out) ==> splits(
                old(self)@.push((timestamp, item)),
                out@,
                final(self)@,
                timestamp,
                old(self).limit(),
            ),
    {
        proof {
            use_type_invariant(&*self);
        }
        if !self.check_timestamp(timestamp) {
            return None;
        }
        let limit = self.limit;
        let cutoff = timestamp.saturating_sub(limit);
        let mut buffer = self.take_buffer();
        buffer.push_back((timestamp, item));
        let ghost full = buffer@;
        let k = partition_point(&buffer, cutoff);
        let out = drain_front(&mut buffer, k);
        proof {
            assert(out@ + buffer@ == full);
            assert forall|i: int| 0 <= i < out@.len() implies !in_window(
                (#[trigger] out@[i]).0,
                timestamp,
                limit,
            ) by {
                assert(out@[i] == full[i]);
            }
            assert forall|i: int| 0 <= i < buffer@.len() implies in_window(
                (#[trigger] buffer@[i]).0,
                timestamp,
                limit,
            ) by {
                assert(buffer@[i] == full[k + i]);
            }
        }
        self.buffer = buffer;
        Some(out)
    }

    /// The time between the oldest and the newest entry, or `None` for an
    /// empty buffer.
    pub fn checked_duration(&self) -> (r: Option<Duration>)
        ensures
            ascending(self@),
            match r {
                Some(d) => span(self@) == Some(nanos(d) as int),
                None => span(self@) is None,
            },
    {
        proof {
            use_type_invariant(self);
        }
        let n = self.buffer.len();
        if n == 0 {
            None
        } else {
            self.buffer[n - 1].0.checked_sub(self.buffer[0].0)
        }
    }

    /// The time between the oldest and the newest entry, zero for an empty
    /// buffer.
    pub fn duration(&self) -> (d: Duration)
        ensures
            nanos(d) == span_or_zero(self@),
    {
        match self.checked_duration() {
            Some(d) => d,
            None => zero(),
        }
    }

    /// Removes the oldest entry and returns it; `None` for an empty buffer.
    pub fn pop_front(&mut self) -> (r: Option<TimeVecItem<T>>)
        ensures
            r == oldest(old(self)@),
            final(self)@ == if r is Some { old(self)@.drop_first() } else { old(self)@ },
            final(self).limit() == old(self).limit(),
            ascending(final(self)@),
    {
        let mut buffer = self.take_buffer();
        let r = buffer.pop_front();
        self.buffer = buffer;
        r
    }

    /// Removes the newest entry and returns it; `None` for an empty buffer.
    pub fn pop_back(&mut self) -> (r: Option<TimeVecItem<T>>)
        ensures
            r == newest(old(self)@),
            final(self)@ == if r is Some { old(self)@.drop_last() } else { old(self)@ },
            final(self).limit() == old(self).limit(),
            ascending(final(self)@),
    {
        let mut buffer = self.take_buffer();
        let r = buffer.pop_back();
        self.buffer = buffer;
        r
    }

    /// How far `duration` lies behind the newest entry; `None` for an empty
    /// buffer and for a `duration` earlier than the newest entry.
    pub fn duration_from_back(&self, duration: &Duration) -> (r: Option<Duration>)
        ensures
            match r {
                Some(d) => lag(self@, *duration) == Some(nanos(d) as int),
                None => lag(self@, *duration) is None,
            },
    {
        let n = self.buffer.len();
        if n == 0 {
            None
        } else {
            duration.checked_sub(self.buffer[n - 1].0)
        }
    }

    /// Discards every entry.
    pub fn clear(&mut self)
        ensures
            final(self)@ == Seq::<(Duration, T)>::empty(),
            final(self).limit() == old(self).limit(),
    {
        let mut buffer = self.take_buffer();
        buffer.clear();
        self.buffer = buffer;
    }

    /// The number of entries.
    pub fn len(&self) -> (n: usize)
        ensures
            n == self@.len(),
    {
        self.buffer.len()
    }

    /// Whether the buffer holds no entry.
    pub fn is_empty(&self) -> (b: bool)
        ensures
            b == (self@.len() == 0),
    {
        self.buffer.len() == 0
    }

    /// The entries, oldest first.
    pub fn iter<'a>(&'a self) -> (it: Iter<'a, TimeVecItem<T>>)
        ensures
            ascending(self@),
            it.remaining() == self@.as_ref(),
            it.decrease() is Some,
            it.initial_value_relation(&it),
    {
        proof {
            use_type_invariant(self);
        }
        self.buffer.iter()
    }

    /// The values, oldest first.
    pub fn iter_data<'a>(&'a self) -> (out: Vec<&'a T>)
        ensures
            ascending(self@),
            out@ == values(self@).as_ref(),
    {
        proof {
            use_type_invariant(self);
        }
        let mut out: Vec<&'a T> = Vec::new();
        for entry in it: self.buffer.iter()
            invariant
                out@ == values(self@.take(it.index())).as_ref(),
        {
            out.push(&entry.1);
        }
        out
    }

    /// The timestamps, oldest first.
    pub fn iter_time<'a>(&'a self) -> (out: Vec<&'a Duration>)
        ensures
            ascending(self@),
            out@ == stamps(self@).as_ref(),
    {
        proof {
            use_type_invariant(self);
        }
        let mut out: Vec<&'a Duration> = Vec::new();
        for entry in it: self.buffer.iter()
            invariant
                out@ == stamps(self@.take(it.index())).as_ref(),
        {
            out.push(&entry.0);
        }
        out
    }

    /// Removes every entry and returns them, oldest first.
    pub fn drain(&mut self) -> (out: Vec<TimeVecItem<T>>)
        ensures
            drains(old(self)@, out@, final(self)@),
            final(self).limit() == old(self).limit(),
    {
        let mut buffer = self.take_buffer();
        let n = buffer.len();
        let out = drain_front(&mut buffer, n);
        assert(out@ == old(self)@ && buffer@ == Seq::<(Duration, T)>::empty());
        self.buffer = buffer;
        out
    }
}

} // verus!
