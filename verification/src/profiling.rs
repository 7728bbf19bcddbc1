//! Performance profiling: per-operation timing records, bounded
//! history, per-category aggregation, and bottleneck detection.

use vstd::prelude::*;

use crate::platform::{fresh_id, now_micros};

verus! {

/// What kind of operation a timing record covers.
#[derive(Debug, Clone, Copy, PartialEq, Eq, Structural)]
pub enum PerformanceCategory {
    TransactionProcessing,
    MarketProbabilityCalculation,
    RiskAssessment,
    BlockchainInteraction,
    DatabaseQuery,
    CacheOperation,
    NetworkCommunication,
    ConfigurationLoad,
}

/// One timing record.
#[derive(Debug, Clone, Copy)]
pub struct PerformanceMetric {
    pub id: u128,
    pub category: PerformanceCategory,
    /// When tracking started, microseconds since the Unix epoch.
    pub start_us: i64,
    /// When tracking stopped, if it has.
    pub end_us: Option<i64>,
    /// The measured duration in microseconds, if tracking stopped.
    pub duration_us: Option<u64>,
}

/// Aggregate over one category's finished records.
#[derive(Debug, Clone, Copy)]
pub struct CategoryPerformance {
    pub total_operations: usize,
    pub total_duration_us: u128,
    pub max_duration_us: u64,
}

impl Default for CategoryPerformance {
    fn default() -> (r: Self)
        ensures
            r.total_operations == 0,
            r.total_duration_us == 0,
            r.max_duration_us == 0,
    {
        CategoryPerformance { total_operations: 0, total_duration_us: 0, max_duration_us: 0 }
    }
}

/// One aggregated line of a performance report.
#[derive(Debug, Clone, Copy)]
pub struct CategoryPerformanceReport {
    pub category: PerformanceCategory,
    pub stats: CategoryPerformance,
}

/// A category whose operations average over the bottleneck threshold.
#[derive(Debug, Clone, Copy)]
pub struct PerformanceBottleneck {
    pub category: PerformanceCategory,
    pub average_duration_us: u64,
}

/// A full performance report.
#[derive(Debug, Clone)]
pub struct PerformanceReport {
    /// When the report was generated, microseconds since the epoch.
    pub timestamp_us: i64,
    pub categories: Vec<CategoryPerformanceReport>,
    pub bottlenecks: Vec<PerformanceBottleneck>,
}

/// Operations averaging over a tenth of a second flag a bottleneck.
pub const BOTTLENECK_THRESHOLD_US: u64 = 100_000;

/// Count of finished records of one category.
pub open spec fn cat_count(h: Seq<PerformanceMetric>, c: PerformanceCategory) -> int
    decreases h.len(),
{
    if h.len() == 0 {
        0
    } else {
        cat_count(h.drop_last(), c) + if h.last().category == c && h.last().duration_us is Some {
            1int
        } else {
            0int
        }
    }
}

/// Total duration of finished records of one category.
pub open spec fn cat_total(h: Seq<PerformanceMetric>, c: PerformanceCategory) -> int
    decreases h.len(),
{
    if h.len() == 0 {
        0
    } else {
        cat_total(h.drop_last(), c) + if h.last().category == c && h.last().duration_us is Some {
            h.last().duration_us->0 as int
        } else {
            0int
        }
    }
}

/// Longest duration among finished records of one category.
pub open spec fn cat_max(h: Seq<PerformanceMetric>, c: PerformanceCategory) -> int
    decreases h.len(),
{
    if h.len() == 0 {
        0
    } else {
        let m = cat_max(h.drop_last(), c);
        if h.last().category == c && h.last().duration_us is Some && h.last().duration_us->0 > m {
            h.last().duration_us->0 as int
        } else {
            m
        }
    }
}

/// Index of the first active record with this id, or -1.
pub open spec fn metric_index(s: Seq<PerformanceMetric>, id: u128) -> int
    decreases s.len(),
{
    if s.len() == 0 {
        -1
    } else if s[0].id == id {
        0
    } else {
        let r = metric_index(s.drop_first(), id);
        if r < 0 {
            -1
        } else {
            r + 1
        }
    }
}

proof fn lemma_metric_index_found(s: Seq<PerformanceMetric>, id: u128, i: int)
    requires
        0 <= i < s.len(),
        forall|k: int| 0 <= k < i ==> (#[trigger] s[k].id) != id,
        s[i].id == id,
    ensures
        metric_index(s, id) == i,
    decreases i,
{
    if i > 0 {
        lemma_metric_index_found(s.drop_first(), id, i - 1);
    }
}

proof fn lemma_metric_index_missing(s: Seq<PerformanceMetric>, id: u128)
    requires
        forall|k: int| 0 <= k < s.len() ==> (#[trigger] s[k].id) != id,
    ensures
        metric_index(s, id) == -1,
    decreases s.len(),
{
    if s.len() > 0 {
        lemma_metric_index_missing(s.drop_first(), id);
    }
}

/// Tracks running operations and keeps a bounded history of finished
/// ones.
pub struct PerformanceProfiler {
    pub active_metrics: Vec<PerformanceMetric>,
    pub performance_history: Vec<PerformanceMetric>,
    pub max_history_size: usize,
    /// Share of operations to profile, a ratio in [0, 1] raw form.
    pub sampling_rate: crate::fixed::Decimal,
}

impl PerformanceProfiler {
    /// Creates a profiler; the sampling rate is clamped into [0, 1].
    pub fn new(sampling_rate: crate::fixed::Decimal, max_history_size: usize) -> (r: Self)
        ensures
            r.active_metrics@.len() == 0,
            r.performance_history@.len() == 0,
            r.max_history_size == max_history_size,
            0 <= r.sampling_rate@ <= crate::fixed::UNIT,
            sampling_rate@ < 0 ==> r.sampling_rate@ == 0,
            sampling_rate@ > crate::fixed::UNIT ==> r.sampling_rate@ == crate::fixed::UNIT,
            0 <= sampling_rate@ <= crate::fixed::UNIT ==> r.sampling_rate == sampling_rate,
    {
        let raw = sampling_rate.mantissa();
        let clamped = if raw < 0 {
            crate::fixed::Decimal { raw: 0 }
        } else if raw > crate::fixed::UNIT {
            crate::fixed::Decimal { raw: crate::fixed::UNIT }
        } else {
            sampling_rate
        };
        PerformanceProfiler {
            active_metrics: Vec::new(),
            performance_history: Vec::new(),
            max_history_size,
            sampling_rate: clamped,
        }
    }

    /// Starts tracking an operation under the given id at the given
    /// clock reading.
    pub fn start_tracking_at(
        &mut self,
        category: PerformanceCategory,
        id: u128,
        start_us: i64,
    ) -> (r: u128)
        ensures
            r == id,
            final(self).active_metrics@ == old(self).active_metrics@.push(
                PerformanceMetric {
                    id,
                    category,
                    start_us,
                    end_us: None,
                    duration_us: None,
                },
            ),
            final(self).performance_history@ == old(self).performance_history@,
            final(self).max_history_size == old(self).max_history_size,
            final(self).sampling_rate == old(self).sampling_rate,
    {
        self.active_metrics.push(
            PerformanceMetric { id, category, start_us, end_us: None, duration_us: None },
        );
        id
    }

    /// Starts tracking an operation under a fresh random id at the
    /// current clock; both are outside the caller's control.
    pub fn start_tracking(&mut self, category: PerformanceCategory) -> (r: u128)
        ensures
            final(self).active_metrics@.len() == old(self).active_metrics@.len() + 1,
            final(self).active_metrics@.last().id == r,
            final(self).active_metrics@.last().category == category,
            final(self).active_metrics@.last().duration_us is None,
            final(self).performance_history@ == old(self).performance_history@,
    {
        let id = fresh_id();
        let start = now_micros();
        self.start_tracking_at(category, id, start)
    }

    /// Stops tracking the given operation at the given clock reading:
    /// the record moves from the active list into the history (bounded
    /// by `max_history_size`), with its duration measured in
    /// microseconds, clamped below at zero.
    #[verifier::loop_isolation(false)]
    pub fn stop_tracking_at(&mut self, metric_id: u128, end_us: i64)
        ensures
            final(self).max_history_size == old(self).max_history_size,
            final(self).sampling_rate == old(self).sampling_rate,
            metric_index(old(self).active_metrics@, metric_id) < 0 ==> final(self).active_metrics@
                == old(self).active_metrics@ && final(self).performance_history@
                == old(self).performance_history@,
            metric_index(old(self).active_metrics@, metric_id) >= 0 ==> {
                &&& final(self).active_metrics@ == old(self).active_metrics@.remove(
                    metric_index(old(self).active_metrics@, metric_id),
                )
                &&& final(self).performance_history@.len() > 0
                &&& ({
                    let rec = final(self).performance_history@.last();
                    let prev = old(self).active_metrics@[metric_index(
                        old(self).active_metrics@,
                        metric_id,
                    )];
                    &&& rec.id == metric_id
                    &&& rec.category == prev.category
                    &&& rec.end_us == Some(end_us)
                    &&& rec.duration_us == Some(
                        (if end_us >= prev.start_us {
                            (end_us - prev.start_us) as u64
                        } else {
                            0u64
                        }),
                    )
                })
            },
    {
        let ghost pre = self.active_metrics@;
        let mut i: usize = 0;
        while i < self.active_metrics.len()
            invariant
                i <= self.active_metrics@.len(),
                forall|k: int| 0 <= k < i ==> (#[trigger] self.active_metrics@[k].id)
                    != metric_id,
                *self == *old(self),
            decreases self.active_metrics@.len() - i,
        {
            if self.active_metrics[i].id == metric_id {
                proof {
                    lemma_metric_index_found(pre, metric_id, i as int);
                }
                let mut rec = self.active_metrics.remove(i);
                let delta: i128 = (end_us as i128) - (rec.start_us as i128);
                let dur: u64 = if delta >= 0 && delta <= u64::MAX as i128 {
                    delta as u64
                } else if delta < 0 {
                    0
                } else {
                    u64::MAX
                };
                proof {
                    assert(end_us - rec.start_us <= u64::MAX) by {
                        assert(end_us <= 0x7fff_ffff_ffff_ffff);
                        assert(rec.start_us >= -0x8000_0000_0000_0000);
                    }
                }
                rec.end_us = Some(end_us);
                rec.duration_us = Some(dur);
                if self.performance_history.len() >= self.max_history_size
                    && self.performance_history.len() > 0 {
                    self.performance_history.remove(0);
                }
                self.performance_history.push(rec);
                return ;
            }
            i = i + 1;
        }
        proof {
            lemma_metric_index_missing(pre, metric_id);
        }
    }

    /// Stops tracking at the current clock reading, which is outside
    /// the caller's control.
    pub fn stop_tracking(&mut self, metric_id: u128)
        ensures
            final(self).max_history_size == old(self).max_history_size,
            final(self).sampling_rate == old(self).sampling_rate,
            metric_index(old(self).active_metrics@, metric_id) < 0 ==> final(self).active_metrics@
                == old(self).active_metrics@ && final(self).performance_history@
                == old(self).performance_history@,
            metric_index(old(self).active_metrics@, metric_id) >= 0
                ==> final(self).active_metrics@ == old(self).active_metrics@.remove(
                metric_index(old(self).active_metrics@, metric_id),
            ) && final(self).performance_history@.len() > 0
                && final(self).performance_history@.last().id == metric_id,
    {
        let end = now_micros();
        self.stop_tracking_at(metric_id, end);
    }

    /// The finished records whose duration exceeds the bottleneck
    /// threshold — the first ten of them in history order.
    #[verifier::loop_isolation(false)]
    pub fn analyze_performance_bottlenecks(&self) -> (r: Vec<PerformanceMetric>)
        ensures
            r@.len() <= 10,
            forall|i: int|
                0 <= i < r@.len() ==> (#[trigger] r@[i]).duration_us is Some && r@[
                    i].duration_us->0 > BOTTLENECK_THRESHOLD_US,
    {
        let mut out: Vec<PerformanceMetric> = Vec::new();
        let mut i: usize = 0;
        while i < self.performance_history.len()
            invariant
                i <= self.performance_history@.len(),
                out@.len() <= 10,
                forall|k: int|
                    0 <= k < out@.len() ==> (#[trigger] out@[k]).duration_us is Some && out@[
                        k].duration_us->0 > BOTTLENECK_THRESHOLD_US,
            decreases self.performance_history@.len() - i,
        {
            if out.len() >= 10 {
                return out;
            }
            let m = self.performance_history[i];
            match m.duration_us {
                Some(d) => {
                    if d > BOTTLENECK_THRESHOLD_US {
                        out.push(m);
                    }
                },
                None => {},
            }
            i = i + 1;
        }
        out
    }

    /// Aggregates the history per category: one report line per
    /// category that has finished operations, with its exact count,
    /// total, and maximum duration.
    #[verifier::loop_isolation(false)]
    pub fn generate_performance_report_at(&self, now_us: i64) -> (r: PerformanceReport)
        ensures
            r.timestamp_us == now_us,
            forall|i: int|
                0 <= i < r.categories@.len() ==> {
                    let line = #[trigger] r.categories@[i];
                    &&& line.stats.total_operations == cat_count(
                        self.performance_history@,
                        line.category,
                    )
                    &&& line.stats.total_duration_us == cat_total(
                        self.performance_history@,
                        line.category,
                    )
                    &&& line.stats.max_duration_us == cat_max(
                        self.performance_history@,
                        line.category,
                    )
                    &&& line.stats.total_operations > 0
                },
    {
        let mut categories: Vec<CategoryPerformanceReport> = Vec::new();
        let all = category_list();
        let mut c: usize = 0;
        while c < all.len()
            invariant
                c <= all@.len(),
                forall|i: int|
                    0 <= i < categories@.len() ==> {
                        let line = #[trigger] categories@[i];
                        &&& line.stats.total_operations == cat_count(
                            self.performance_history@,
                            line.category,
                        )
                        &&& line.stats.total_duration_us == cat_total(
                            self.performance_history@,
                            line.category,
                        )
                        &&& line.stats.max_duration_us == cat_max(
                            self.performance_history@,
                            line.category,
                        )
                        &&& line.stats.total_operations > 0
                    },
            decreases all@.len() - c,
        {
            let cat = all[c];
            let stats = self.aggregate_category(cat);
            if stats.total_operations > 0 {
                categories.push(CategoryPerformanceReport { category: cat, stats });
            }
            c = c + 1;
        }
        PerformanceReport {
            timestamp_us: now_us,
            categories,
            bottlenecks: self.analyze_performance_bottlenecks_report(),
        }
    }

    /// Aggregates the history for one category.
    #[verifier::loop_isolation(false)]
    fn aggregate_category(&self, cat: PerformanceCategory) -> (r: CategoryPerformance)
        ensures
            r.total_operations == cat_count(self.performance_history@, cat),
            r.total_duration_us == cat_total(self.performance_history@, cat),
            r.max_duration_us == cat_max(self.performance_history@, cat),
    {
        let ghost h = self.performance_history@;
        let mut count: usize = 0;
        let mut total: u128 = 0;
        let mut maxd: u64 = 0;
        let mut i: usize = 0;
        proof {
            assert(h.take(0) =~= Seq::<PerformanceMetric>::empty());
        }
        while i < self.performance_history.len()
            invariant
                i <= h.len(),
                count as int == cat_count(h.take(i as int), cat),
                total as int == cat_total(h.take(i as int), cat),
                maxd as int == cat_max(h.take(i as int), cat),
                count <= i,
                total as int <= (i as int) * 0xffff_ffff_ffff_ffff,
            decreases h.len() - i,
        {
            proof {
                assert(h.take(i as int + 1).drop_last() =~= h.take(i as int));
                assert(h.take(i as int + 1).last() == h[i as int]);
                assert((i as int) * 0xffff_ffff_ffff_ffff + 0xffff_ffff_ffff_ffff == (i as int
                    + 1) * 0xffff_ffff_ffff_ffff) by (nonlinear_arith);
                assert((i as int + 1) * 0xffff_ffff_ffff_ffff <= 0x1_0000_0000_0000_0000
                    * 0xffff_ffff_ffff_ffff) by (nonlinear_arith)
                    requires
                        i as int + 1 <= 0x1_0000_0000_0000_0000,
                ;
            }
            let m = self.performance_history[i];
            if m.category == cat {
                match m.duration_us {
                    Some(d) => {
                        count = count + 1;
                        total = total + (d as u128);
                        if d > maxd {
                            maxd = d;
                        }
                    },
                    None => {},
                }
            }
            i = i + 1;
        }
        proof {
            assert(h.take(h.len() as int) =~= h);
        }
        CategoryPerformance { total_operations: count, total_duration_us: total, max_duration_us: maxd }
    }

    /// The categories whose finished operations average over the
    /// bottleneck threshold.
    #[verifier::loop_isolation(false)]
    fn analyze_performance_bottlenecks_report(&self) -> (r: Vec<PerformanceBottleneck>)
        ensures
            forall|i: int|
                0 <= i < r@.len() ==> (#[trigger] r@[i]).average_duration_us
                    > BOTTLENECK_THRESHOLD_US,
    {
        let mut out: Vec<PerformanceBottleneck> = Vec::new();
        let all = category_list();
        let mut c: usize = 0;
        while c < all.len()
            invariant
                c <= all@.len(),
                forall|i: int|
                    0 <= i < out@.len() ==> (#[trigger] out@[i]).average_duration_us
                        > BOTTLENECK_THRESHOLD_US,
            decreases all@.len() - c,
        {
            let cat = all[c];
            let stats = self.aggregate_category(cat);
            if stats.total_operations > 0 {
                let avg = stats.total_duration_us / (stats.total_operations as u128);
                proof {
                    vstd::arithmetic::div_mod::lemma_div_nonincreasing(
                        stats.total_duration_us as int,
                        stats.total_operations as int,
                    );
                }
                if avg > BOTTLENECK_THRESHOLD_US as u128 && avg <= u64::MAX as u128 {
                    out.push(
                        PerformanceBottleneck { category: cat, average_duration_us: avg as u64 },
                    );
                }
            }
            c = c + 1;
        }
        out
    }

    /// A full report at the current clock reading, which is outside
    /// the caller's control.
    pub fn generate_performance_report(&self) -> (r: PerformanceReport)
        ensures
            forall|i: int|
                0 <= i < r.categories@.len() ==> (#[trigger] r.categories@[i]).stats.total_operations
                    == cat_count(self.performance_history@, r.categories@[i].category),
    {
        let now = now_micros();
        self.generate_performance_report_at(now)
    }
}

/// Every category, in declaration order.
fn category_list() -> (r: Vec<PerformanceCategory>)
    ensures
        r@.len() == 8,
{
    let mut all: Vec<PerformanceCategory> = Vec::new();
    all.push(PerformanceCategory::TransactionProcessing);
    all.push(PerformanceCategory::MarketProbabilityCalculation);
    all.push(PerformanceCategory::RiskAssessment);
    all.push(PerformanceCategory::BlockchainInteraction);
    all.push(PerformanceCategory::DatabaseQuery);
    all.push(PerformanceCategory::CacheOperation);
    all.push(PerformanceCategory::NetworkCommunication);
    all.push(PerformanceCategory::ConfigurationLoad);
    all
}

} // verus!
