//! Tests for the incident response manager.

use bnbmarket_lmsr::incidents::{
    IncidentResponseManager, IncidentSeverity, IncidentStatus, IncidentType, ResponseAction,
};

#[test]
fn test_incident_recording_and_response() {
    let mut incident_manager = IncidentResponseManager::new();

    // Record a suspicious transaction incident
    let incident_id = incident_manager.record_incident(
        IncidentType::SuspiciousTransaction,
        IncidentSeverity::High,
        Some("user123".to_string()),
        Some("192.168.1.100".to_string()),
        Some("Multiple rapid transactions detected".to_string()),
    );

    // Retrieve incident details
    let incident = incident_manager.get_incident_details(incident_id);
    assert!(incident.is_some());

    // Execute response actions
    incident_manager.execute_response_actions(incident_id);

    // Check recent incidents
    let recent_incidents = incident_manager.get_recent_incidents(10);
    assert!(!recent_incidents.is_empty());
}

#[test]
fn second_strike_fires_the_suspicious_transaction_rule() {
    let mut manager = IncidentResponseManager::new();
    let first = manager.record_incident_at(
        IncidentType::SuspiciousTransaction,
        IncidentSeverity::Medium,
        Some("mallory".to_string()),
        None,
        None,
        1,
        1_700_000_000,
    );
    let first_record = manager.get_incident_details(first).unwrap();
    // Below the threshold of two strikes: no actions yet.
    assert!(first_record.response_actions.is_empty());

    let second = manager.record_incident_at(
        IncidentType::SuspiciousTransaction,
        IncidentSeverity::High,
        Some("mallory".to_string()),
        None,
        None,
        2,
        1_700_000_100,
    );
    let second_record = manager.get_incident_details(second).unwrap();
    assert_eq!(
        second_record.response_actions,
        vec![
            ResponseAction::FreezeMarket,
            ResponseAction::RequireAdditionalVerification,
            ResponseAction::InitiateForensicAnalysis,
        ]
    );
}

#[test]
fn untyped_incidents_carry_no_actions() {
    let mut manager = IncidentResponseManager::new();
    // No rule covers configuration changes.
    let id = manager.record_incident_at(
        IncidentType::ConfigurationChange,
        IncidentSeverity::Low,
        None,
        None,
        None,
        9,
        1_700_000_000,
    );
    let record = manager.get_incident_details(id).unwrap();
    assert!(record.response_actions.is_empty());
    assert!(matches!(record.status, IncidentStatus::Detected));
}

#[test]
fn executing_actions_mitigates_the_incident() {
    let mut manager = IncidentResponseManager::new();
    let id = manager.record_incident_at(
        IncidentType::UnauthorizedAccess,
        IncidentSeverity::Critical,
        Some("eve".to_string()),
        Some("10.1.1.1".to_string()),
        None,
        42,
        1_700_000_000,
    );
    manager.execute_response_actions(id);
    let record = manager.get_incident_details(id).unwrap();
    assert!(matches!(record.status, IncidentStatus::Mitigated));
}
