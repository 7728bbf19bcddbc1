//! Tests for the performance profiler.

use bnbmarket_lmsr::profiling::{PerformanceCategory, PerformanceProfiler};
use bnbmarket_lmsr::Decimal;

#[test]
fn tracked_operations_aggregate_per_category() {
    let mut profiler = PerformanceProfiler::new(Decimal::new(1, 0), 100);

    // Two transaction operations and one risk assessment, with fixed
    // clock readings (microseconds).
    profiler.start_tracking_at(PerformanceCategory::TransactionProcessing, 1, 1_000);
    profiler.stop_tracking_at(1, 51_000); // 50 ms
    profiler.start_tracking_at(PerformanceCategory::TransactionProcessing, 2, 60_000);
    profiler.stop_tracking_at(2, 90_000); // 30 ms
    profiler.start_tracking_at(PerformanceCategory::RiskAssessment, 3, 100_000);
    profiler.stop_tracking_at(3, 350_000); // 250 ms

    assert_eq!(profiler.active_metrics.len(), 0);
    assert_eq!(profiler.performance_history.len(), 3);

    let report = profiler.generate_performance_report_at(400_000);
    assert_eq!(report.timestamp_us, 400_000);
    assert_eq!(report.categories.len(), 2);
    for line in report.categories.iter() {
        match line.category {
            PerformanceCategory::TransactionProcessing => {
                assert_eq!(line.stats.total_operations, 2);
                assert_eq!(line.stats.total_duration_us, 80_000);
                assert_eq!(line.stats.max_duration_us, 50_000);
            }
            PerformanceCategory::RiskAssessment => {
                assert_eq!(line.stats.total_operations, 1);
                assert_eq!(line.stats.total_duration_us, 250_000);
                assert_eq!(line.stats.max_duration_us, 250_000);
            }
            _ => panic!("unexpected category in the report"),
        }
    }

    // Only the risk assessment averages over the 100 ms threshold.
    assert_eq!(report.bottlenecks.len(), 1);
    assert!(matches!(report.bottlenecks[0].category, PerformanceCategory::RiskAssessment));
    assert_eq!(report.bottlenecks[0].average_duration_us, 250_000);
}

#[test]
fn slow_operations_surface_as_bottlenecks() {
    let mut profiler = PerformanceProfiler::new(Decimal::new(1, 0), 100);
    profiler.start_tracking_at(PerformanceCategory::DatabaseQuery, 10, 0);
    profiler.stop_tracking_at(10, 150_000); // 150 ms: a bottleneck
    profiler.start_tracking_at(PerformanceCategory::CacheOperation, 11, 0);
    profiler.stop_tracking_at(11, 5_000); // 5 ms: fine

    let slow = profiler.analyze_performance_bottlenecks();
    assert_eq!(slow.len(), 1);
    assert_eq!(slow[0].id, 10);
    assert_eq!(slow[0].duration_us, Some(150_000));
}

#[test]
fn history_stays_within_its_bound() {
    let mut profiler = PerformanceProfiler::new(Decimal::new(1, 0), 2);
    for i in 0..5u128 {
        profiler.start_tracking_at(PerformanceCategory::NetworkCommunication, i, 0);
        profiler.stop_tracking_at(i, 1_000);
    }
    assert_eq!(profiler.performance_history.len(), 2);
}

#[test]
fn sampling_rate_is_clamped() {
    let too_high = PerformanceProfiler::new(Decimal::new(7, 0), 10);
    assert_eq!(too_high.sampling_rate.mantissa(), Decimal::one().mantissa());
    let negative = PerformanceProfiler::new(Decimal::new(-3, 0), 10);
    assert_eq!(negative.sampling_rate.mantissa(), 0);
}

#[test]
fn stopping_an_unknown_id_changes_nothing() {
    let mut profiler = PerformanceProfiler::new(Decimal::new(1, 0), 10);
    profiler.start_tracking_at(PerformanceCategory::ConfigurationLoad, 5, 0);
    profiler.stop_tracking_at(99, 1_000);
    assert_eq!(profiler.active_metrics.len(), 1);
    assert_eq!(profiler.performance_history.len(), 0);
}
