use lantern_backend::metrics::{bucket_seconds, Metrics};

fn sample(reqs: i32) -> Metrics {
    Metrics { mem: 10, upload: 0, reqs, errs: 0, conns: 2, events: 0, p50: 1, p95: 2, p99: 3 }
}

#[test]
fn default_metrics_are_zero_and_empty() {
    let m = Metrics::default();
    assert_eq!(m, Metrics { mem: 0, upload: 0, reqs: 0, errs: 0, conns: 0, events: 0, p50: 0, p95: 0, p99: 0 });
    assert!(m.is_empty());
}

#[test]
fn metrics_with_requests_are_not_empty() {
    assert!(!sample(5).is_empty());
    // memory, connections and percentiles are not summed, so they do not count
    assert!(sample(0).is_empty());
}

#[test]
fn acquire_records_new_quanta() {
    let mut last = Metrics::default();
    let m = sample(3);
    assert_eq!(Metrics::acquire(&mut last, m), Some(m));
    assert_eq!(last, m);
}

#[test]
fn acquire_skips_repeated_idle_quanta() {
    let mut last = Metrics::default();
    let idle = sample(0);
    // first idle quanta differs from the last one, so it is recorded
    assert_eq!(Metrics::acquire(&mut last, idle), Some(idle));
    // the same idle quanta again is skipped
    assert_eq!(Metrics::acquire(&mut last, idle), None);
    assert_eq!(last, idle);
}

#[test]
fn acquire_repeats_busy_quanta() {
    let mut last = Metrics::default();
    let busy = sample(7);
    assert_eq!(Metrics::acquire(&mut last, busy), Some(busy));
    assert_eq!(Metrics::acquire(&mut last, busy), Some(busy));
}

#[test]
fn bucket_seconds_floor_and_scale() {
    assert_eq!(bucket_seconds(None), 300);
    assert_eq!(bucket_seconds(Some(1)), 300);
    assert_eq!(bucket_seconds(Some(5)), 300);
    assert_eq!(bucket_seconds(Some(6)), 360);
    assert_eq!(bucket_seconds(Some(60)), 3600);
}
