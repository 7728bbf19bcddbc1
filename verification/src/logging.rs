//! Security event logging: an in-memory, size-bounded event store.
//! Delivery of alerts to external channels is I/O and stays outside
//! this core.

use vstd::prelude::*;

use crate::platform::now_seconds;

verus! {

/// What kind of event the logger records.
#[derive(Debug, Clone, Copy, PartialEq, Eq, Structural)]
pub enum SecurityEventType {
    LoginAttempt,
    LoginSuccess,
    LoginFailure,
    PasswordReset,
    TransactionInitiated,
    TransactionBlocked,
    SuspiciousTransactionDetected,
    RiskThresholdExceeded,
    ComplianceViolation,
    GeographicalRestriction,
    UnauthorizedAccessAttempt,
    IPWhitelistModification,
    CriticalSystemChange,
    MarketManipulationDetected,
    AnomalousBettingPattern,
    LiquidityRiskDetected,
}

/// How grave a logged event is.
#[derive(Debug, Clone, Copy, PartialEq, Eq, Structural, PartialOrd, Ord)]
pub enum SecurityEventSeverity {
    Low,
    Medium,
    High,
    Critical,
}

/// One logged security event.
#[derive(Debug)]
pub struct SecurityEvent {
    /// Unix timestamp in seconds.
    pub timestamp: i64,
    pub event_type: SecurityEventType,
    /// The account involved, as a hex-encoded address.
    pub user_address: Option<String>,
    /// The transaction involved, as a hex-encoded hash.
    pub transaction_hash: Option<String>,
    pub severity: SecurityEventSeverity,
    pub details: Option<String>,
}

/// Copies an optional string, keeping its exact value.
fn copy_opt_string(o: &Option<String>) -> (r: Option<String>)
    ensures
        r == *o,
{
    match o {
        Some(s) => Some(s.clone()),
        None => None,
    }
}

/// Copies a logged event, keeping its exact value.
pub(crate) fn duplicate_event(e: &SecurityEvent) -> (r: SecurityEvent)
    ensures
        r == *e,
{
    SecurityEvent {
        timestamp: e.timestamp,
        event_type: e.event_type,
        user_address: copy_opt_string(&e.user_address),
        transaction_hash: copy_opt_string(&e.transaction_hash),
        severity: e.severity,
        details: copy_opt_string(&e.details),
    }
}

/// An in-memory event store, trimmed to its most recent half once it
/// exceeds ten thousand events.
pub struct SecurityLogger {
    pub event_store: Vec<SecurityEvent>,
}

impl SecurityLogger {
    pub fn new() -> (r: Self)
        ensures
            r.event_store@.len() == 0,
    {
        SecurityLogger { event_store: Vec::new() }
    }

    /// Appends one event; once the store exceeds 10000 events, only
    /// the most recent 5000 are kept.  (Alert delivery to external
    /// channels is left to the caller at the I/O boundary.)
    pub fn log_security_event(&mut self, event: SecurityEvent)
        ensures
            ({
                let grown = old(self).event_store@.push(event);
                final(self).event_store@ == if grown.len() > 10000 {
                    grown.subrange(grown.len() - 5000, grown.len() as int)
                } else {
                    grown
                }
            }),
    {
        self.event_store.push(event);
        if self.event_store.len() > 10000 {
            let keep = self.event_store.split_off(self.event_store.len() - 5000);
            self.event_store = keep;
        }
    }

    /// The most recent events, newest first, at most `limit` of them.
    #[verifier::loop_isolation(false)]
    pub fn get_recent_events(&self, limit: usize) -> (r: Vec<SecurityEvent>)
        ensures
            r@.len() == if limit < self.event_store@.len() {
                limit as int
            } else {
                self.event_store@.len() as int
            },
            forall|i: int|
                0 <= i < r@.len() ==> #[trigger] r@[i] == self.event_store@[
                    self.event_store@.len() - 1 - i],
    {
        let mut out: Vec<SecurityEvent> = Vec::new();
        let n = self.event_store.len();
        let count = if limit < n {
            limit
        } else {
            n
        };
        let mut i: usize = 0;
        while i < count
            invariant
                i <= count,
                count <= n,
                n == self.event_store@.len(),
                out@.len() == i,
                forall|k: int| 0 <= k < i ==> #[trigger] out@[k] == self.event_store@[n - 1 - k],
            decreases count - i,
        {
            let e = duplicate_event(&self.event_store[n - 1 - i]);
            out.push(e);
            i = i + 1;
        }
        out
    }
}

/// Builds a security event stamped with the current wall clock.  The
/// clock's reading is outside the caller's control; every other field
/// is exactly as given.
pub fn create_security_event(
    event_type: SecurityEventType,
    user_address: Option<String>,
    severity: SecurityEventSeverity,
    details: Option<String>,
) -> (r: SecurityEvent)
    ensures
        r.event_type == event_type,
        r.user_address == user_address,
        r.transaction_hash is None,
        r.severity == severity,
        r.details == details,
{
    SecurityEvent {
        timestamp: now_seconds(),
        event_type,
        user_address,
        transaction_hash: None,
        severity,
        details,
    }
}

} // verus!
