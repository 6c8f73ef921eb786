use desk::admission::{
    admit_or_busy, bounded_max_inflight, grant, or_busy, permits, record_latency, release, stats,
    try_admit, Counters,
};
use desk::refusal::Refusal;

#[test]
fn max_inflight_is_bounded_by_the_semaphore_limit() {
    assert_eq!(bounded_max_inflight(None), 64);
    assert_eq!(bounded_max_inflight(Some("0")), 64);
    assert_eq!(bounded_max_inflight(Some("17")), 17);
    assert_eq!(
        bounded_max_inflight(Some(&usize::MAX.to_string())),
        tokio::sync::Semaphore::MAX_PERMITS
    );
}

#[test]
fn a_ceiling_that_names_no_count_is_the_default() {
    for raw in ["", "+", "-3", " 17", "17 ", "1e3", "many", "99999999999999999999999"] {
        assert_eq!(bounded_max_inflight(Some(raw)), 64, "{raw:?}");
    }
    assert_eq!(bounded_max_inflight(Some("+17")), 17);
    assert_eq!(bounded_max_inflight(Some("0001")), 1);
}

#[test]
fn every_ceiling_makes_a_pool() {
    for raw in [None, Some("1"), Some("x"), Some("18446744073709551615")] {
        let limit = bounded_max_inflight(raw);
        assert!(limit > 0);
        assert_eq!(permits(limit).available_permits(), limit);
    }
}

#[test]
fn past_the_ceiling_requests_are_shed() {
    let pool = permits(2);
    let mut counters = Counters::new();
    let first = try_admit(&pool, &mut counters);
    let second = try_admit(&pool, &mut counters);
    assert!(first.is_some() && second.is_some());
    assert!(try_admit(&pool, &mut counters).is_none());
    assert_eq!(stats(&counters), (2, 2, 1, 0));
    drop(first);
    release(&mut counters);
    assert_eq!(stats(&counters), (1, 2, 1, 0));
    assert!(try_admit(&pool, &mut counters).is_some());
    assert_eq!(stats(&counters), (2, 3, 1, 0));
}

#[test]
fn a_shed_request_is_told_that_the_desk_is_busy() {
    let pool = permits(0);
    let mut counters = Counters::new();
    match admit_or_busy(&pool, &mut counters) {
        Ok(_) => panic!("an empty pool gave a permit"),
        Err(refusal) => {
            assert_eq!(refusal, Refusal::Busy(2));
            assert_eq!(refusal.status(), 503);
        }
    }
    assert_eq!(counters.shed, 1);
    let pool = permits(1);
    assert!(admit_or_busy(&pool, &mut counters).is_ok());
    assert_eq!(counters.served, 1);
}

#[test]
fn a_release_undoes_an_admission() {
    let mut counters = Counters { inflight: 5, served: 9, shed: 2, latency_us: 7 };
    let pool = permits(1);
    assert!(grant(pool.try_acquire().ok(), &mut counters).is_some());
    release(&mut counters);
    assert_eq!(counters, Counters { inflight: 5, served: 10, shed: 2, latency_us: 7 });
    assert!(grant(None, &mut counters).is_none());
    assert_eq!(counters, Counters { inflight: 5, served: 10, shed: 3, latency_us: 7 });
}

#[test]
fn counters_wrap_round() {
    let mut counters =
        Counters { inflight: i64::MAX, served: u64::MAX, shed: u64::MAX, latency_us: 0 };
    let pool = permits(1);
    assert!(grant(pool.try_acquire().ok(), &mut counters).is_some());
    assert!(grant(None, &mut counters).is_none());
    assert_eq!(stats(&counters), (i64::MIN, 0, 0, 0));
    release(&mut counters);
    assert_eq!(counters.inflight, i64::MAX);
}

#[test]
fn latency_is_smoothed() {
    let mut counters = Counters::new();
    record_latency(&mut counters, 8000);
    assert_eq!(counters.latency_us, 8000);
    record_latency(&mut counters, 16000);
    assert_eq!(counters.latency_us, 9000);
    record_latency(&mut counters, 0);
    assert_eq!(counters.latency_us, 7875);
    assert_eq!(stats(&counters), (0, 0, 0, 7));
    record_latency(&mut counters, u64::MAX);
    assert_eq!(counters.latency_us, 7875 - 984 + u64::MAX / 8);
}

#[test]
fn a_permit_is_handed_on_or_the_desk_is_busy() {
    let pool = permits(1);
    let mut counters = Counters::new();
    let permit = try_admit(&pool, &mut counters);
    assert!(or_busy(permit).is_ok());
    match or_busy(None) {
        Ok(_) => panic!("a permit came from nowhere"),
        Err(refusal) => assert_eq!(refusal, Refusal::Busy(2)),
    }
}

#[test]
fn counters_count_a_history() {
    let pool = permits(3);
    let mut counters = Counters::new();
    let mut held = Vec::new();
    for step in 0..12 {
        match try_admit(&pool, &mut counters) {
            Some(permit) => held.push(permit),
            None => {
                held.clear();
                for _ in 0..3 {
                    release(&mut counters);
                }
            }
        }
        record_latency(&mut counters, 1000 * step);
        let (inflight, ..) = stats(&counters);
        assert_eq!(inflight, held.len() as i64);
        assert!((0..=3).contains(&inflight));
    }
    // samples of 0, 1000, .. 11000 microseconds, smoothed in order
    assert_eq!(counters.latency_us, 5844);
    assert_eq!(stats(&counters), (0, 9, 3, 5));
    assert_eq!(stats(&counters), stats(&counters));
    assert_eq!(counters.served, 9);
    assert_eq!(counters.shed, 3);
    assert_eq!(counters.inflight, 0);
}

#[test]
fn a_permit_is_from_the_pool_that_was_asked() {
    let (pool, other) = (permits(2), permits(2));
    let mut counters = Counters::new();
    let permit = try_admit(&pool, &mut counters);
    assert!(permit.is_some());
    assert_eq!((pool.available_permits(), other.available_permits()), (1, 2));
    drop(permit);
    assert_eq!((pool.available_permits(), other.available_permits()), (2, 2));
}
