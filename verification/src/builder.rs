//! Assembling a buffer from optional settings.

use core::marker::PhantomData;
use core::time::Duration;
use vstd::prelude::*;
use crate::buffer::TimeVec;
use crate::time::{nanos, zero};

verus! {

/// The settings a buffer can be built from, each of them optional.
#[derive(Copy, Debug)]
pub struct TimeVecBuilder<T> {
    /// The window length; zero where none is given.
    pub limit: Option<Duration>,
    /// How many entries to reserve room for.
    pub capacity: Option<usize>,
    _item: PhantomData<T>,
}

impl<T: Clone> Clone for TimeVecBuilder<T> {
    fn clone(&self) -> (b: Self)
        ensures
            b.spec_limit() == self.spec_limit(),
            b.spec_capacity() == self.spec_capacity(),
    {
        Self { limit: self.limit, capacity: self.capacity, _item: PhantomData }
    }
}

impl<T> Default for TimeVecBuilder<T> {
    fn default() -> (b: Self)
        ensures
            b.spec_limit() is None,
            b.spec_capacity() is None,
    {
        Self { limit: None, capacity: None, _item: PhantomData }
    }
}

impl<T> TimeVecBuilder<T> {
    /// The window length, as contracts speak of it.
    pub closed spec fn spec_limit(&self) -> Option<Duration> {
        self.limit
    }

    /// The capacity, as contracts speak of it.
    pub closed spec fn spec_capacity(&self) -> Option<usize> {
        self.capacity
    }

    /// Sets the window length.
    pub fn with_limit(self, value: Duration) -> (b: Self)
        ensures
            b.spec_limit() == Some(value),
            b.spec_capacity() == self.spec_capacity(),
    {
        let mut b = self;
        b.limit = Some(value);
        b
    }

    /// Sets the window length in whole seconds.
    pub fn with_limit_secs(self, value: u64) -> (b: Self)
        ensures
            b.spec_limit() matches Some(d) && nanos(d) == value * 1_000_000_000,
            b.spec_capacity() == self.spec_capacity(),
    {
        self.with_limit(Duration::from_secs(value))
    }

    /// Sets the window length in whole microseconds.
    pub fn with_limit_micros(self, value: u64) -> (b: Self)
        ensures
            b.spec_limit() matches Some(d) && nanos(d) == value * 1_000,
            b.spec_capacity() == self.spec_capacity(),
    {
        self.with_limit(Duration::from_micros(value))
    }

    /// Sets the window length in whole milliseconds.
    pub fn with_limit_millis(self, value: u64) -> (b: Self)
        ensures
            b.spec_limit() matches Some(d) && nanos(d) == value * 1_000_000,
            b.spec_capacity() == self.spec_capacity(),
    {
        self.with_limit(Duration::from_millis(value))
    }

    /// Sets the window length in nanoseconds.
    pub fn with_limit_nanos(self, value: u64) -> (b: Self)
        ensures
            b.spec_limit() matches Some(d) && nanos(d) == value,
            b.spec_capacity() == self.spec_capacity(),
    {
        self.with_limit(Duration::from_nanos(value))
    }

    /// Sets how many entries to reserve room for.
    pub fn with_capacity(self, value: usize) -> (b: Self)
        ensures
            b.spec_limit() == self.spec_limit(),
            b.spec_capacity() == Some(value),
    {
        let mut b = self;
        b.capacity = Some(value);
        b
    }

    /// The empty buffer that the settings describe.
    pub fn build(self) -> (tv: TimeVec<T>)
        ensures
            tv@ == Seq::<(Duration, T)>::empty(),
            match self.spec_limit() {
                Some(d) => tv.limit() == d,
                None => nanos(tv.limit()) == 0,
            },
    {
        let limit = match self.limit {
            Some(d) => d,
            None => zero(),
        };
        match self.capacity {
            Some(value) => TimeVec::new(limit, value),
            None => TimeVec::unreserved(limit),
        }
    }
}

} // verus!
