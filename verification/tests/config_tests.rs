//! Tests for configuration parsing and validation.

use bnbmarket_lmsr::config::{
    log_level_from_str, network_from_str, BlockchainNetwork, LogLevel, SystemConfiguration,
};
use bnbmarket_lmsr::Decimal;

#[test]
fn environment_overrides_parse_as_documented() {
    assert!(matches!(log_level_from_str("debug"), LogLevel::Debug));
    assert!(matches!(log_level_from_str("info"), LogLevel::Info));
    assert!(matches!(log_level_from_str("warn"), LogLevel::Warn));
    assert!(matches!(log_level_from_str("error"), LogLevel::Error));
    assert!(matches!(log_level_from_str("critical"), LogLevel::Critical));
    assert!(matches!(log_level_from_str("chatty"), LogLevel::Info));

    assert!(matches!(network_from_str("bsc"), BlockchainNetwork::BinanceSmartChain));
    assert!(matches!(network_from_str("eth"), BlockchainNetwork::Ethereum));
    assert!(matches!(network_from_str("polygon"), BlockchainNetwork::Polygon));
    assert!(matches!(network_from_str("testnet"), BlockchainNetwork::Local));
}

#[test]
fn test_configuration_validation() {
    let config = SystemConfiguration::defaults();

    // Perform validation
    assert!(config.validate().is_ok());
}

#[test]
fn broken_configurations_are_rejected() {
    let mut config = SystemConfiguration::defaults();
    config.market.min_bet_amount = Decimal::zero();
    assert!(config.validate().is_err());

    let mut config = SystemConfiguration::defaults();
    config.market.max_bet_amount = Decimal::new(1, 2); // below the minimum bet
    assert!(config.validate().is_err());

    let mut config = SystemConfiguration::defaults();
    config.security.max_login_attempts = 0;
    assert!(config.validate().is_err());
}

#[test]
fn defaults_match_their_documentation() {
    let config = SystemConfiguration::defaults();
    assert!(matches!(config.security.log_level, LogLevel::Info));
    assert_eq!(config.security.max_login_attempts, 5);
    assert!(matches!(config.blockchain.network, BlockchainNetwork::BinanceSmartChain));
    assert_eq!(config.blockchain.chain_id, 56);
    assert_eq!(config.market.min_bet_amount.mantissa(), Decimal::one().mantissa());
}
