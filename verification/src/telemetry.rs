//! Counters that measure the daemon's effectiveness. The surrounding
//! process serializes and ships them at shutdown; the library only counts.

use vstd::prelude::*;

verus! {

/// A single monotonic-in-intent counter. Incrementing wraps on overflow,
/// as the original fetch-and-add would.
pub struct Metric(pub usize);

impl Metric {
    pub fn new() -> (r: Metric)
        ensures
            r.0 == 0,
    {
        Metric(0)
    }

    pub fn incr(&mut self)
        ensures
            final(self).0 == if old(self).0 == usize::MAX {
                0usize
            } else {
                (old(self).0 + 1) as usize
            },
    {
        if self.0 == usize::MAX {
            self.0 = 0;
        } else {
            self.0 = self.0 + 1;
        }
    }

    pub fn set(&mut self, val: usize)
        ensures
            final(self).0 == val,
    {
        self.0 = val;
    }
}

/// The value of a counter after one increment.
pub open spec fn spec_incr(m: Metric) -> Metric {
    Metric(
        if m.0 == usize::MAX {
            0usize
        } else {
            (m.0 + 1) as usize
        },
    )
}

/// The counters the daemon keeps while serving and uploading.
pub struct TelemetryReport {
    pub narinfos_served: Metric,
    pub narinfos_sent_upstream: Metric,
    pub narinfos_negative_cache_hits: Metric,
    pub narinfos_negative_cache_misses: Metric,
    pub narinfos_uploaded: Metric,
    pub nars_served: Metric,
    pub nars_sent_upstream: Metric,
    pub nars_uploaded: Metric,
    pub num_original_paths: Metric,
    pub num_final_paths: Metric,
    pub num_new_paths: Metric,
    pub tripped_429: bool,
}

impl TelemetryReport {
    pub fn new() -> (r: TelemetryReport)
        ensures
            r.narinfos_served.0 == 0,
            r.narinfos_sent_upstream.0 == 0,
            r.narinfos_negative_cache_hits.0 == 0,
            r.narinfos_negative_cache_misses.0 == 0,
            r.narinfos_uploaded.0 == 0,
            r.nars_served.0 == 0,
            r.nars_sent_upstream.0 == 0,
            r.nars_uploaded.0 == 0,
            r.num_original_paths.0 == 0,
            r.num_final_paths.0 == 0,
            r.num_new_paths.0 == 0,
            !r.tripped_429,
    {
        TelemetryReport {
            narinfos_served: Metric::new(),
            narinfos_sent_upstream: Metric::new(),
            narinfos_negative_cache_hits: Metric::new(),
            narinfos_negative_cache_misses: Metric::new(),
            narinfos_uploaded: Metric::new(),
            nars_served: Metric::new(),
            nars_sent_upstream: Metric::new(),
            nars_uploaded: Metric::new(),
            num_original_paths: Metric::new(),
            num_final_paths: Metric::new(),
            num_new_paths: Metric::new(),
            tripped_429: false,
        }
    }
}

} // verus!
