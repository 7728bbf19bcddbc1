//! Tests for the market safety manager: risk assessment of single
//! bets, limits, and address blacklisting.

use bnbmarket_lmsr::safety::{
    BetRiskProfile, MarketSafetyConfig, MarketSafetyManager, RiskLevel,
};

#[test]
fn test_market_safety_risk_assessment() {
    let mut safety_manager = MarketSafetyManager::new(MarketSafetyConfig::default());

    let test_address: String = "0x742d35Cc6A0de1234567890abcdef1234567890".to_string();

    let bet = BetRiskProfile {
        bet_amount: 5000,          // 5000 BNB
        market_volume: 50_000,     // 50,000 BNB
        timestamp: chrono::Utc::now().timestamp(),
        user_address: test_address,
        market_id: "market_1".to_string(),
    };

    let risk_level = safety_manager.assess_bet_risk(bet).expect("Risk assessment failed");

    assert!(matches!(risk_level, RiskLevel::Low | RiskLevel::Medium));
}

#[test]
fn test_address_blacklisting() {
    let mut safety_manager = MarketSafetyManager::new(MarketSafetyConfig::default());

    let test_address: String = "0x742d35Cc6A0de1234567890abcdef1234567890".to_string();

    // Blacklist address
    safety_manager.blacklist_address(test_address.clone());

    // Verify blacklist
    assert!(safety_manager.is_address_blacklisted(&test_address));
}

#[test]
fn oversized_bet_is_critical_and_blacklists_the_bettor() {
    let mut manager = MarketSafetyManager::new(MarketSafetyConfig::default());
    let whale: String = "0x1111111111111111111111111111111111111111".to_string();

    // One bet takes 50% of a 10% limit market: critical.
    let bet = BetRiskProfile {
        bet_amount: 5_000,
        market_volume: 10_000,
        timestamp: chrono::Utc::now().timestamp(),
        user_address: whale.clone(),
        market_id: "m".to_string(),
    };
    let level = manager.assess_bet_risk(bet).expect("assessment should succeed");
    assert_eq!(level, RiskLevel::Critical);
    assert!(manager.is_address_blacklisted(&whale));

    // A blacklisted bettor is rejected outright afterwards.
    let follow_up = BetRiskProfile {
        bet_amount: 1,
        market_volume: 10_000,
        timestamp: chrono::Utc::now().timestamp(),
        user_address: whale.clone(),
        market_id: "m".to_string(),
    };
    assert!(manager.assess_bet_risk(follow_up).is_err());
}

#[test]
fn oversized_market_volume_is_rejected() {
    let mut manager = MarketSafetyManager::new(MarketSafetyConfig::default());
    let bet = BetRiskProfile {
        bet_amount: 10,
        market_volume: 2_000_000, // above the 1M limit
        timestamp: chrono::Utc::now().timestamp(),
        user_address: "0x2222222222222222222222222222222222222222".to_string(),
        market_id: "m".to_string(),
    };
    assert!(manager.assess_bet_risk(bet).is_err());
}

#[test]
fn rapid_betting_escalates_the_risk_level() {
    let mut manager = MarketSafetyManager::new(MarketSafetyConfig::default());
    let now = chrono::Utc::now().timestamp();
    let mut last = RiskLevel::Low;
    for i in 0..12 {
        let bet = BetRiskProfile {
            bet_amount: 10,
            market_volume: 10_000,
            timestamp: now,
            user_address: format!("0x{:040x}", i),
            market_id: "burst".to_string(),
        };
        last = manager.assess_bet_risk_at(bet, now).expect("assessment should succeed");
    }
    // With eleven earlier bets inside the window, the twelfth is critical.
    assert_eq!(last, RiskLevel::Critical);
}

#[test]
fn unknown_market_has_no_risk_report() {
    let manager = MarketSafetyManager::new(MarketSafetyConfig::default());
    assert!(manager.generate_market_risk_report(&"nowhere".to_string()).is_none());
}
