//! Tests for the continuous monitoring dashboard.

use bnbmarket_lmsr::logging::{SecurityEvent, SecurityEventSeverity, SecurityEventType};
use bnbmarket_lmsr::monitoring::{ContinuousMonitoringDashboard, Market};
use bnbmarket_lmsr::safety::RiskLevel;

#[test]
fn test_continuous_monitoring_dashboard() {
    let mut dashboard = ContinuousMonitoringDashboard::new();

    // Simulate adding markets and tracking activities
    let test_market = Market {
        id: "test_market".to_string(),
        total_volume: 1000,
        total_bets: 0,
    };

    dashboard.update_market_health(&test_market);

    let test_address: String = "0x1234567890123456789012345678901234567890".to_string();

    dashboard.track_user_activity(test_address, 100, chrono::Utc::now().timestamp());

    let report = dashboard.generate_security_dashboard_report();

    assert!(report.global_metrics.active_markets > 0);
}

#[test]
fn global_metrics_aggregate_market_volumes() {
    let mut dashboard = ContinuousMonitoringDashboard::new();
    let markets = vec![
        Market { id: "a".to_string(), total_volume: 300, total_bets: 2 },
        Market { id: "b".to_string(), total_volume: 700, total_bets: 5 },
    ];
    dashboard.update_global_metrics(&markets);
    assert_eq!(dashboard.global_metrics.total_market_volume, 1000);
    assert_eq!(dashboard.global_metrics.active_markets, 2);
    // No tracked health or events: the global risk stays low.
    assert!(matches!(dashboard.global_metrics.security_risk_level, RiskLevel::Low));
}

#[test]
fn severe_events_raise_the_global_risk() {
    let mut dashboard = ContinuousMonitoringDashboard::new();
    dashboard.security_events.push(SecurityEvent {
        timestamp: 1_700_000_000,
        event_type: SecurityEventType::MarketManipulationDetected,
        user_address: None,
        transaction_hash: None,
        severity: SecurityEventSeverity::Critical,
        details: None,
    });
    // One critical event: mean severity 1.0, classified critical.
    let level = dashboard.calculate_global_risk_level();
    assert!(matches!(level, RiskLevel::Critical));
}

#[test]
fn repeated_health_updates_do_not_duplicate_markets() {
    let mut dashboard = ContinuousMonitoringDashboard::new();
    let market = Market { id: "m".to_string(), total_volume: 10, total_bets: 1 };
    dashboard.update_market_health(&market);
    let updated = Market { id: "m".to_string(), total_volume: 25, total_bets: 2 };
    dashboard.update_market_health(&updated);
    assert_eq!(dashboard.market_health.len(), 1);
    assert_eq!(dashboard.market_health[0].current_volume, 25);
    assert_eq!(dashboard.global_metrics.active_markets, 1);
}

#[test]
fn user_activity_accumulates_per_address() {
    let mut dashboard = ContinuousMonitoringDashboard::new();
    let addr = "0xabcdefabcdefabcdefabcdefabcdefabcdefabcd".to_string();
    dashboard.track_user_activity(addr.clone(), 40, 100);
    dashboard.track_user_activity(addr.clone(), 60, 200);
    assert_eq!(dashboard.user_profiles.len(), 1);
    assert_eq!(dashboard.user_profiles[0].total_bets, 2);
    assert_eq!(dashboard.user_profiles[0].total_volume, 100);
    assert_eq!(dashboard.user_profiles[0].last_activity, 200);
}
