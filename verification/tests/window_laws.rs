use std::time::Duration;
use timevec::TimeVec;

fn filled(limit: Duration, stamps: &[u64]) -> TimeVec<u64> {
    let mut tv = TimeVec::new(limit, stamps.len());
    for &t in stamps {
        tv.push(Duration::from_nanos(t), t * 10);
    }
    tv
}

fn held(tv: &TimeVec<u64>) -> Vec<(Duration, u64)> {
    tv.iter().copied().collect()
}

#[test]
fn rejected_push_leaves_length_and_contents() {
    let mut tv = filled(Duration::from_nanos(100), &[10, 20, 30]);
    let before = held(&tv);
    for t in [0u64, 10, 29, 30] {
        assert_eq!(tv.push(Duration::from_nanos(t), 999), None);
        assert_eq!(tv.len(), 3);
        assert_eq!(held(&tv), before);
    }
    assert_eq!(tv.limit, Duration::from_nanos(100));
}

#[test]
fn timestamps_stay_strictly_ascending() {
    let mut tv = TimeVec::<u64>::new(Duration::from_nanos(50), 0);
    for t in [5u64, 3, 5, 9, 9, 40, 39, 41, 100, 1, 160, 160, 161] {
        tv.push(Duration::from_nanos(t), t);
        let stamps = tv.iter_time();
        for pair in stamps.windows(2) {
            assert!(pair[0] < pair[1]);
        }
    }
    assert_eq!(
        held(&tv),
        vec![(Duration::from_nanos(160), 160), (Duration::from_nanos(161), 161)]
    );
}

#[test]
fn every_kept_entry_is_within_the_limit() {
    let limit = Duration::from_nanos(7);
    let mut tv = TimeVec::<u64>::new(limit, 0);
    for t in [1u64, 2, 4, 8, 9, 15, 16, 17, 30, 37, 38, 45, 100] {
        let latest = Duration::from_nanos(t);
        assert!(tv.push(latest, t).is_some());
        for stamp in tv.iter_time() {
            assert!(latest.saturating_sub(*stamp) <= limit);
        }
    }
    assert_eq!(held(&tv), vec![(Duration::from_nanos(100), 100)]);
}

#[test]
fn limit_longer_than_the_latest_timestamp_evicts_nothing() {
    let mut tv = TimeVec::<u64>::new(Duration::from_secs(5), 0);
    assert_eq!(tv.push(Duration::from_secs(1), 1), Some(vec![]));
    assert_eq!(tv.push(Duration::from_secs(2), 2), Some(vec![]));
    assert_eq!(tv.push(Duration::from_secs(4), 4), Some(vec![]));
    assert_eq!(tv.len(), 3);
    assert_eq!(tv.push(Duration::from_secs(5), 5), Some(vec![]));
    assert_eq!(tv.push(Duration::from_secs(6), 6), Some(vec![]));
    assert_eq!(
        tv.push(Duration::from_secs(7), 7),
        Some(vec![(Duration::from_secs(1), 1)])
    );
    assert_eq!(tv.len(), 5);
}

#[test]
fn evicted_are_exactly_the_expired_oldest_first() {
    let mut tv = filled(Duration::from_nanos(1000), &[10, 20, 30, 40, 50]);
    tv.limit = Duration::from_nanos(25);
    assert_eq!(tv.len(), 5);

    let evicted = tv.push(Duration::from_nanos(60), 600);
    assert_eq!(
        evicted,
        Some(vec![
            (Duration::from_nanos(10), 100),
            (Duration::from_nanos(20), 200),
            (Duration::from_nanos(30), 300),
        ])
    );
    assert_eq!(
        held(&tv),
        vec![
            (Duration::from_nanos(40), 400),
            (Duration::from_nanos(50), 500),
            (Duration::from_nanos(60), 600),
        ]
    );
}

#[test]
fn entry_on_the_cutoff_stays_and_the_one_before_goes() {
    let mut tv = filled(Duration::from_nanos(10), &[89, 90, 91]);
    let evicted = tv.push(Duration::from_nanos(100), 0);
    assert_eq!(evicted, Some(vec![(Duration::from_nanos(89), 890)]));
    assert_eq!(tv.pop_front(), Some((Duration::from_nanos(90), 900)));
}

#[test]
fn a_far_later_push_evicts_everything_before_it() {
    let mut tv = filled(Duration::from_nanos(3), &[1, 2, 3, 4]);
    let evicted = tv.push(Duration::from_secs(1), 5);
    assert_eq!(
        evicted,
        Some(vec![
            (Duration::from_nanos(1), 10),
            (Duration::from_nanos(2), 20),
            (Duration::from_nanos(3), 30),
            (Duration::from_nanos(4), 40),
        ])
    );
    assert_eq!(held(&tv), vec![(Duration::from_secs(1), 5)]);
}

#[test]
fn eviction_finds_the_boundary_in_a_long_buffer() {
    let mut tv = TimeVec::<u64>::new(Duration::from_nanos(10_000), 0);
    for t in 0..1000u64 {
        assert_eq!(tv.push(Duration::from_nanos(t * 3), t), Some(vec![]));
    }
    tv.limit = Duration::from_nanos(1000);
    let evicted = tv.push(Duration::from_nanos(3001), 1000).unwrap();
    // the cutoff is 2001: stamps 0, 3, ..., 1998 go, 2001 stays
    assert_eq!(evicted.len(), 667);
    assert_eq!(evicted[0], (Duration::ZERO, 0));
    assert_eq!(evicted[666], (Duration::from_nanos(1998), 666));
    assert_eq!(tv.len(), 334);
    assert_eq!(tv.iter().next(), Some(&(Duration::from_nanos(2001), 667)));
}

#[test]
fn changing_the_limit_evicts_nothing_until_the_next_push() {
    let mut tv = filled(Duration::from_nanos(100), &[10, 20, 30]);
    tv.set_limit(Duration::from_nanos(5));
    assert_eq!(tv.limit(), Duration::from_nanos(5));
    assert_eq!(tv.limit, Duration::from_nanos(5));
    assert_eq!(tv.len(), 3);
    assert_eq!(tv.checked_duration(), Some(Duration::from_nanos(20)));

    assert_eq!(
        tv.push(Duration::from_nanos(31), 0),
        Some(vec![
            (Duration::from_nanos(10), 100),
            (Duration::from_nanos(20), 200),
        ])
    );
    assert_eq!(tv.len(), 2);
}

#[test]
fn empty_buffer_yields_nothing() {
    let mut tv = TimeVec::<u64>::new(Duration::from_secs(1), 8);
    assert_eq!(tv.checked_duration(), None);
    assert_eq!(tv.duration(), Duration::ZERO);
    assert_eq!(tv.pop_front(), None);
    assert_eq!(tv.pop_back(), None);
    assert_eq!(tv.len(), 0);
    assert!(tv.is_empty());
    assert_eq!(tv.duration_from_back(&Duration::from_secs(9)), None);
    assert_eq!(tv.iter().len(), 0);
    assert!(tv.iter_data().is_empty());
    assert!(tv.iter_time().is_empty());
    assert_eq!(tv.limit, Duration::from_secs(1));
}

#[test]
fn buffer_emptied_by_pops_behaves_as_empty() {
    let mut tv = filled(Duration::from_nanos(100), &[1, 2]);
    assert_eq!(tv.pop_back(), Some((Duration::from_nanos(2), 20)));
    assert_eq!(tv.pop_front(), Some((Duration::from_nanos(1), 10)));
    assert_eq!(tv.checked_duration(), None);
    assert_eq!(tv.duration(), Duration::ZERO);
    assert_eq!(tv.pop_front(), None);
    assert_eq!(tv.pop_back(), None);
    assert_eq!(tv.len(), 0);
    // with nothing left, any timestamp is accepted again
    assert_eq!(tv.push(Duration::ZERO, 0), Some(vec![]));
}

#[test]
fn drain_empties_and_a_second_drain_yields_nothing() {
    let mut tv = filled(Duration::from_nanos(100), &[1, 2, 3]);
    let first = tv.drain();
    assert_eq!(
        first,
        vec![
            (Duration::from_nanos(1), 10),
            (Duration::from_nanos(2), 20),
            (Duration::from_nanos(3), 30),
        ]
    );
    assert!(tv.is_empty());
    assert_eq!(tv.len(), 0);
    let second = tv.drain();
    assert!(second.is_empty());
    assert!(tv.is_empty());
    assert_eq!(tv.limit, Duration::from_nanos(100));
}
