//! Tests for the security self-testing scenarios.

use bnbmarket_lmsr::pentest::{
    is_market_probability_compromised, test_endpoint_disclosure, AttackType, DefenseResult,
    SecurityTestRunner,
};
use bnbmarket_lmsr::safety::{MarketSafetyConfig, MarketSafetyManager};

#[test]
fn stock_scenarios_cover_the_three_attacks() {
    let runner = SecurityTestRunner::new();
    assert_eq!(runner.scenarios.len(), 3);
    assert!(matches!(runner.scenarios[0].attack_type, AttackType::RapidBetting));
    assert!(matches!(
        runner.scenarios[0].expected_defense_result,
        DefenseResult::Throttled
    ));
    assert_eq!(runner.scenarios[0].payload, vec![1, 2, 3]);
    assert!(matches!(runner.scenarios[1].attack_type, AttackType::VolumeManipulation));
    assert!(matches!(runner.scenarios[1].expected_defense_result, DefenseResult::Blocked));
    assert_eq!(runner.scenarios[1].payload, vec![4, 5, 6]);
    assert!(matches!(runner.scenarios[2].attack_type, AttackType::AddressFlooding));
    assert!(matches!(runner.scenarios[2].expected_defense_result, DefenseResult::Logged));
    assert_eq!(runner.scenarios[2].payload, vec![7, 8, 9]);
}

#[test]
fn attack_addresses_come_in_the_requested_number() {
    let runner = SecurityTestRunner::new();
    let addresses = runner.generate_attack_addresses(5);
    assert_eq!(addresses.len(), 5);
    for a in addresses.iter() {
        assert_eq!(a.len(), 42);
        assert!(a.starts_with("0x"));
    }
}

#[test]
fn penetration_run_completes_and_blocks_the_manipulator() {
    let runner = SecurityTestRunner::new();
    runner.run_penetration_tests();

    // The volume manipulation scenario, replayed on an inspectable
    // manager, blacklists the manipulator.
    let mut manager = MarketSafetyManager::new(MarketSafetyConfig::default());
    runner.simulate_volume_manipulation(&mut manager);
    let manipulator = "0x1234567890123456789012345678901234567890".to_string();
    assert!(manager.is_address_blacklisted(&manipulator));
}

#[test]
fn simulated_probes_report_no_vulnerabilities() {
    assert!(!is_market_probability_compromised());
    assert!(test_endpoint_disclosure("/user/balance").is_ok());
    assert!(test_endpoint_disclosure("/market/sensitive-data").is_ok());
    assert!(test_endpoint_disclosure("/admin/configuration").is_ok());
}
