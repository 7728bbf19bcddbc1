//! System configuration: typed settings, their defaults, the pure
//! parsing of environment overrides, and validation.  Reading the
//! actual environment is I/O and stays outside this core.

use vstd::prelude::*;

use crate::fixed::Decimal;
use crate::platform::str_eq;

verus! {

/// Logging verbosity.
#[derive(Debug, Clone, Copy, PartialEq, Eq, Structural)]
pub enum LogLevel {
    Debug,
    Info,
    Warn,
    Error,
    Critical,
}

/// The chain the system talks to.
#[derive(Debug, Clone, Copy, PartialEq, Eq, Structural)]
pub enum BlockchainNetwork {
    BinanceSmartChain,
    Ethereum,
    Polygon,
    Local,
}

/// Security-related settings.
#[derive(Debug, Clone)]
pub struct SecurityConfig {
    pub log_level: LogLevel,
    pub security_event_retention_days: u32,
    pub max_login_attempts: u8,
    pub session_timeout_minutes: u64,
    pub max_transaction_amount: Decimal,
    pub daily_transaction_limit: Decimal,
}

/// Performance-related settings.
#[derive(Debug, Clone)]
pub struct PerformanceConfig {
    pub max_concurrent_transactions: usize,
    pub transaction_queue_size: usize,
    pub profiling_sample_rate: Decimal,
}

/// Market-related settings.
#[derive(Debug, Clone)]
pub struct MarketConfig {
    pub max_market_volume: Decimal,
    pub min_bet_amount: Decimal,
    pub max_bet_amount: Decimal,
    pub market_creation_fee: Decimal,
}

/// Blockchain connection settings.
#[derive(Debug, Clone)]
pub struct BlockchainConfig {
    pub network: BlockchainNetwork,
    pub rpc_endpoint: String,
    pub chain_id: u64,
}

/// The whole system configuration.
#[derive(Debug, Clone)]
pub struct SystemConfiguration {
    pub security: SecurityConfig,
    pub performance: PerformanceConfig,
    pub market: MarketConfig,
    pub blockchain: BlockchainConfig,
}

/// Maps an environment override (already lowercased by the caller at
/// the I/O boundary) to a log level; anything unrecognized is `Info`.
pub fn log_level_from_str(level: &str) -> (r: LogLevel)
    ensures
        r == (if level@ == "debug"@ {
            LogLevel::Debug
        } else if level@ == "info"@ {
            LogLevel::Info
        } else if level@ == "warn"@ {
            LogLevel::Warn
        } else if level@ == "error"@ {
            LogLevel::Error
        } else if level@ == "critical"@ {
            LogLevel::Critical
        } else {
            LogLevel::Info
        }),
{
    if str_eq(level, "debug") {
        LogLevel::Debug
    } else if str_eq(level, "info") {
        LogLevel::Info
    } else if str_eq(level, "warn") {
        LogLevel::Warn
    } else if str_eq(level, "error") {
        LogLevel::Error
    } else if str_eq(level, "critical") {
        LogLevel::Critical
    } else {
        LogLevel::Info
    }
}

/// Maps an environment override (already lowercased by the caller) to
/// a network; anything unrecognized is the local chain.
pub fn network_from_str(network: &str) -> (r: BlockchainNetwork)
    ensures
        r == (if network@ == "bsc"@ {
            BlockchainNetwork::BinanceSmartChain
        } else if network@ == "eth"@ {
            BlockchainNetwork::Ethereum
        } else if network@ == "polygon"@ {
            BlockchainNetwork::Polygon
        } else {
            BlockchainNetwork::Local
        }),
{
    if str_eq(network, "bsc") {
        BlockchainNetwork::BinanceSmartChain
    } else if str_eq(network, "eth") {
        BlockchainNetwork::Ethereum
    } else if str_eq(network, "polygon") {
        BlockchainNetwork::Polygon
    } else {
        BlockchainNetwork::Local
    }
}

impl SystemConfiguration {
    /// The built-in defaults every unset environment override falls
    /// back to.
    pub fn defaults() -> (r: Self)
        ensures
            r.security.log_level == LogLevel::Info,
            r.security.security_event_retention_days == 30,
            r.security.max_login_attempts == 5,
            r.security.session_timeout_minutes == 60,
            r.performance.max_concurrent_transactions == 100,
            r.performance.transaction_queue_size == 1000,
            r.market.min_bet_amount@ < r.market.max_bet_amount@,
            r.market.min_bet_amount@ > 0,
            r.blockchain.network == BlockchainNetwork::BinanceSmartChain,
            r.blockchain.chain_id == 56,
            r.validate_spec(),
    {
        proof {
            reveal_with_fuel(crate::fixed::spec_pow10, 13);
        }
        SystemConfiguration {
            security: SecurityConfig {
                log_level: LogLevel::Info,
                security_event_retention_days: 30,
                max_login_attempts: 5,
                session_timeout_minutes: 60,
                max_transaction_amount: Decimal::new(10_000, 0),
                daily_transaction_limit: Decimal::new(50_000, 0),
            },
            performance: PerformanceConfig {
                max_concurrent_transactions: 100,
                transaction_queue_size: 1000,
                profiling_sample_rate: Decimal::new(1, 1),
            },
            market: MarketConfig {
                max_market_volume: Decimal::new(1_000_000, 0),
                min_bet_amount: Decimal::new(1, 0),
                max_bet_amount: Decimal::new(10_000, 0),
                market_creation_fee: Decimal::new(50, 0),
            },
            blockchain: BlockchainConfig {
                network: BlockchainNetwork::BinanceSmartChain,
                rpc_endpoint: "https://bsc-dataseed.binance.org/".to_owned(),
                chain_id: 56,
            },
        }
    }

    /// Exactly when `validate` accepts a configuration.
    pub open spec fn validate_spec(&self) -> bool {
        &&& self.market.min_bet_amount@ > 0
        &&& self.market.max_bet_amount@ > self.market.min_bet_amount@
        &&& self.security.max_login_attempts != 0
    }

    /// Checks the configuration: the minimum bet must be positive,
    /// the maximum bet above the minimum, and at least one login
    /// attempt allowed.
    pub fn validate(&self) -> (r: Result<(), String>)
        ensures
            r is Ok <==> self.validate_spec(),
    {
        if self.market.min_bet_amount.mantissa() <= 0 {
            return Err("Minimum bet amount must be positive".to_owned());
        }
        if self.market.max_bet_amount.mantissa() <= self.market.min_bet_amount.mantissa() {
            return Err("Maximum bet amount must be greater than minimum bet amount".to_owned());
        }
        if self.security.max_login_attempts == 0 {
            return Err("Max login attempts must be greater than zero".to_owned());
        }
        Ok(())
    }
}

} // verus!
