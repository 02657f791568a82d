use vstd::prelude::*;

verus! {

/// A single set of metrics recorded for a single quanta
#[derive(Debug, Clone, Copy, PartialEq, Eq, Structural)]
pub struct Metrics {
    pub mem: i64,
    pub upload: i64,
    pub reqs: i32,
    pub errs: i32,
    pub conns: i32,
    pub events: i32,
    pub p50: i16,
    pub p95: i16,
    pub p99: i16,
}

/// The all-zero metrics record.
pub open spec fn zero_metrics() -> Metrics {
    Metrics { mem: 0, upload: 0, reqs: 0, errs: 0, conns: 0, events: 0, p50: 0, p95: 0, p99: 0 }
}

/// Whether the fields that are summed when aggregating are all zero.
pub open spec fn metrics_empty(m: Metrics) -> bool {
    m.upload == 0 && m.reqs == 0 && m.errs == 0 && m.events == 0
}

/// Whether `acquire` skips the quanta `m` after `last`: nothing was summed in it, and it
/// repeats the last one recorded.
pub open spec fn skips(last: Metrics, m: Metrics) -> bool {
    metrics_empty(m) && last == m
}

impl Metrics {
    pub fn default() -> (m: Self)
        ensures
            m == zero_metrics(),
    {
        Metrics { mem: 0, upload: 0, reqs: 0, errs: 0, conns: 0, events: 0, p50: 0, p95: 0, p99: 0 }
    }

    /// Check fields that are summed up when aggregating for zeroes
    pub fn is_empty(&self) -> (b: bool)
        ensures
            b == metrics_empty(*self),
    {
        self.upload == 0 && self.reqs == 0 && self.errs == 0 && self.events == 0
    }

    /// Records `new_metrics` as the latest quanta. A quanta whose summed fields are all zero
    /// and that repeats the last recorded one is skipped (`None`, nothing recorded);
    /// any other is recorded in `last` and returned.
    pub fn acquire(last: &mut Metrics, new_metrics: Metrics) -> (res: Option<Metrics>)
        ensures
            skips(*old(last), new_metrics) ==> (res is None && *final(last) == *old(last)),
            !skips(*old(last), new_metrics) ==> (res == Some(new_metrics) && *final(last) == new_metrics),
    {
        if new_metrics.is_empty() && *last == new_metrics {
            return None;
        }
        *last = new_metrics;
        Some(new_metrics)
    }
}

/// After any quanta is acquired it is the last one recorded, so the same empty quanta
/// acquired again is skipped: runs of idle quanta are recorded once.
pub proof fn lemma_idle_recorded_once(last: Metrics, m: Metrics)
    requires
        metrics_empty(m),
    ensures
        skips(if skips(last, m) { last } else { m }, m),
{
}

/// The width in seconds of the buckets that stored metrics are averaged over: the
/// requested resolution in minutes (read as a signed 64-bit integer), at least five minutes.
pub fn bucket_seconds(resolution: Option<u64>) -> (seconds: i64)
    requires
        (resolution matches Some(r) && r > 5) ==> i64::MIN <= 60 * (resolution->0 as i64) <= i64::MAX,
    ensures
        seconds == 60 * match resolution {
            Some(r) => if r > 5 {
                r as i64
            } else {
                5i64
            },
            None => 5i64,
        },
{
    let minutes: i64 = match resolution {
        Some(r) => if r > 5 {
            r as i64
        } else {
            5
        },
        None => 5,
    };
    60 * minutes
}

} // verus!
