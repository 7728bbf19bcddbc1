//! Tests for the security manager: event logging and automatic
//! blacklisting.

use bnbmarket_lmsr::security::{
    SecurityEvent, SecurityEventType, SecurityManager, SecurityThreatLevel,
};

#[test]
fn test_security_event_logging() {
    let mut security_manager = SecurityManager::new();

    let login_event = SecurityEvent {
        id: uuid::Uuid::new_v4().as_u128(),
        timestamp: chrono::Utc::now().timestamp(),
        event_type: SecurityEventType::LoginFailure,
        threat_level: SecurityThreatLevel::Medium,
        source_ip: Some("192.168.1.100".to_string()),
        user_id: Some("user123".to_string()),
        details: Some("Multiple failed login attempts".to_string()),
    };

    security_manager.log_security_event(login_event);

    // Check event was logged
    assert_eq!(security_manager.event_log.len(), 1);

    // A medium event does not blacklist anyone; raise a high one.
    assert!(!security_manager.is_ip_blacklisted("192.168.1.100"));
    let breach_event = SecurityEvent {
        id: uuid::Uuid::new_v4().as_u128(),
        timestamp: chrono::Utc::now().timestamp(),
        event_type: SecurityEventType::UnauthorizedAccessAttempt,
        threat_level: SecurityThreatLevel::High,
        source_ip: Some("192.168.1.100".to_string()),
        user_id: Some("user123".to_string()),
        details: Some("Multiple failed login attempts".to_string()),
    };
    security_manager.log_security_event(breach_event);

    // Check blacklisting
    assert!(security_manager.is_ip_blacklisted("192.168.1.100"));
    assert!(security_manager.is_user_blacklisted("user123"));
}

#[test]
fn low_events_never_blacklist() {
    let mut manager = SecurityManager::new();
    let event = SecurityEvent {
        id: 7,
        timestamp: 1_700_000_000,
        event_type: SecurityEventType::LoginAttempt,
        threat_level: SecurityThreatLevel::Low,
        source_ip: Some("10.0.0.1".to_string()),
        user_id: Some("alice".to_string()),
        details: None,
    };
    manager.log_security_event(event);
    assert_eq!(manager.event_log.len(), 1);
    assert!(!manager.is_ip_blacklisted("10.0.0.1"));
    assert!(!manager.is_user_blacklisted("alice"));
}

#[test]
fn recent_events_come_newest_first() {
    let mut manager = SecurityManager::new();
    for i in 0..5i64 {
        manager.log_security_event(SecurityEvent {
            id: i as u128,
            timestamp: i,
            event_type: SecurityEventType::TransactionInitiated,
            threat_level: SecurityThreatLevel::Low,
            source_ip: None,
            user_id: None,
            details: None,
        });
    }
    let recent = manager.get_recent_events(3);
    assert_eq!(recent.len(), 3);
    assert_eq!(recent[0].id, 4);
    assert_eq!(recent[1].id, 3);
    assert_eq!(recent[2].id, 2);
}

#[test]
fn default_thresholds_cover_three_event_types() {
    let thresholds = SecurityManager::default_threat_thresholds();
    assert_eq!(thresholds.len(), 3);
    assert!(matches!(thresholds[0].0, SecurityEventType::LoginFailure));
    assert!(matches!(thresholds[0].1, SecurityThreatLevel::Medium));
    assert!(matches!(thresholds[1].0, SecurityEventType::UnauthorizedAccessAttempt));
    assert!(matches!(thresholds[1].1, SecurityThreatLevel::High));
    assert!(matches!(thresholds[2].0, SecurityEventType::SuspiciousBehaviorDetected));
    assert!(matches!(thresholds[2].1, SecurityThreatLevel::Critical));
}
