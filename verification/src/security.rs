//! Security event logging with automatic threat response: severe
//! events blacklist their source IP and user.

use vstd::prelude::*;

use crate::safety::contains_str;

verus! {

/// How grave a security event is.
#[derive(Debug, Clone, Copy, PartialEq, Eq, Structural)]
pub enum SecurityThreatLevel {
    Low,
    Medium,
    High,
    Critical,
}

/// What kind of event was observed.
#[derive(Debug, Clone, Copy, PartialEq, Eq, Structural)]
pub enum SecurityEventType {
    LoginAttempt,
    LoginSuccess,
    LoginFailure,
    TransactionInitiated,
    TransactionBlocked,
    SuspiciousBehaviorDetected,
    UnauthorizedAccessAttempt,
    SystemConfigurationChange,
    CriticalSecurityEvent,
}

/// One observed security event.
#[derive(Debug, Clone)]
pub struct SecurityEvent {
    /// A 128-bit identifier, usually freshly drawn.
    pub id: u128,
    /// Unix timestamp of the observation, in seconds.
    pub timestamp: i64,
    pub event_type: SecurityEventType,
    pub threat_level: SecurityThreatLevel,
    pub source_ip: Option<String>,
    pub user_id: Option<String>,
    pub details: Option<String>,
}

/// Whether an event's threat level triggers automatic responses.
pub open spec fn is_severe(level: SecurityThreatLevel) -> bool {
    level is High || level is Critical
}

/// What one blacklist looks like after an event was evaluated: grown
/// by the event's key when the event is severe, carries a key, and the
/// key is new.
pub open spec fn blacklist_after(
    pre: Seq<String>,
    severe: bool,
    key: Option<String>,
) -> Seq<String> {
    if severe && key is Some && !contains_str(pre, key->0@) {
        pre.push(key->0)
    } else {
        pre
    }
}

/// Records security events, keeps the log bounded, and blacklists the
/// sources of severe events.
pub struct SecurityManager {
    /// Baseline threat levels per event type.
    pub threat_thresholds: Vec<(SecurityEventType, SecurityThreatLevel)>,
    pub ip_blacklist: Vec<String>,
    pub user_blacklist: Vec<String>,
    /// The retained events, oldest first.
    pub event_log: Vec<SecurityEvent>,
    /// How many events the log retains before evicting the oldest.
    pub max_event_log_size: usize,
}

impl SecurityManager {
    pub fn new() -> (r: Self)
        ensures
            r.threat_thresholds@.len() == 3,
            r.ip_blacklist@.len() == 0,
            r.user_blacklist@.len() == 0,
            r.event_log@.len() == 0,
            r.max_event_log_size == 1000,
    {
        SecurityManager {
            threat_thresholds: Self::default_threat_thresholds(),
            ip_blacklist: Vec::new(),
            user_blacklist: Vec::new(),
            event_log: Vec::new(),
            max_event_log_size: 1000,
        }
    }

    /// The default baseline: failed logins are medium, unauthorized
    /// access is high, suspicious behavior is critical.
    pub fn default_threat_thresholds() -> (r: Vec<(SecurityEventType, SecurityThreatLevel)>)
        ensures
            r@.len() == 3,
            r@[0] == (SecurityEventType::LoginFailure, SecurityThreatLevel::Medium),
            r@[1] == (
                SecurityEventType::UnauthorizedAccessAttempt,
                SecurityThreatLevel::High,
            ),
            r@[2] == (
                SecurityEventType::SuspiciousBehaviorDetected,
                SecurityThreatLevel::Critical,
            ),
    {
        let mut thresholds: Vec<(SecurityEventType, SecurityThreatLevel)> = Vec::new();
        thresholds.push((SecurityEventType::LoginFailure, SecurityThreatLevel::Medium));
        thresholds.push(
            (SecurityEventType::UnauthorizedAccessAttempt, SecurityThreatLevel::High),
        );
        thresholds.push(
            (SecurityEventType::SuspiciousBehaviorDetected, SecurityThreatLevel::Critical),
        );
        thresholds
    }

    /// Records one event: the log keeps at most `max_event_log_size`
    /// entries by evicting the oldest, and a severe event blacklists
    /// its source IP and user.  (Alert delivery to external channels
    /// is left to the caller at the I/O boundary.)
    pub fn log_security_event(&mut self, event: SecurityEvent)
        ensures
            final(self).event_log@ == (if old(self).event_log@.len() >= old(
                self,
            ).max_event_log_size && old(self).event_log@.len() > 0 {
                old(self).event_log@.drop_first()
            } else {
                old(self).event_log@
            }).push(event),
            final(self).ip_blacklist@ == blacklist_after(
                old(self).ip_blacklist@,
                is_severe(event.threat_level),
                event.source_ip,
            ),
            final(self).user_blacklist@ == blacklist_after(
                old(self).user_blacklist@,
                is_severe(event.threat_level),
                event.user_id,
            ),
            final(self).threat_thresholds@ == old(self).threat_thresholds@,
            final(self).max_event_log_size == old(self).max_event_log_size,
    {
        if self.event_log.len() >= self.max_event_log_size && self.event_log.len() > 0 {
            self.event_log.remove(0);
            proof {
                assert(self.event_log@ =~= old(self).event_log@.drop_first());
            }
        }
        self.evaluate_threat(&event);
        self.event_log.push(event);
    }

    /// Automatic threat response: high and critical events blacklist
    /// their source IP and user.
    fn evaluate_threat(&mut self, event: &SecurityEvent)
        ensures
            final(self).ip_blacklist@ == blacklist_after(
                old(self).ip_blacklist@,
                is_severe(event.threat_level),
                event.source_ip,
            ),
            final(self).user_blacklist@ == blacklist_after(
                old(self).user_blacklist@,
                is_severe(event.threat_level),
                event.user_id,
            ),
            final(self).event_log@ == old(self).event_log@,
            final(self).threat_thresholds@ == old(self).threat_thresholds@,
            final(self).max_event_log_size == old(self).max_event_log_size,
    {
        let severe = match event.threat_level {
            SecurityThreatLevel::High => true,
            SecurityThreatLevel::Critical => true,
            _ => false,
        };
        if severe {
            match &event.source_ip {
                Some(ip) => {
                    if !self.is_ip_blacklisted_string(ip) {
                        let ghost pre = self.ip_blacklist@;
                        self.ip_blacklist.push(ip.clone());
                        proof {
                            assert(self.ip_blacklist@ == pre.push(event.source_ip->0));
                        }
                    }
                },
                None => {},
            }
            match &event.user_id {
                Some(user) => {
                    if !self.is_user_blacklisted_string(user) {
                        let ghost pre = self.user_blacklist@;
                        self.user_blacklist.push(user.clone());
                        proof {
                            assert(self.user_blacklist@ == pre.push(event.user_id->0));
                        }
                    }
                },
                None => {},
            }
        }
    }

    /// Whether the IP is blacklisted, compared character for character.
    #[verifier::loop_isolation(false)]
    pub fn is_ip_blacklisted_string(&self, ip: &String) -> (r: bool)
        ensures
            r == contains_str(self.ip_blacklist@, ip@),
    {
        let mut i: usize = 0;
        while i < self.ip_blacklist.len()
            invariant
                i <= self.ip_blacklist@.len(),
                forall|k: int| 0 <= k < i ==> (#[trigger] self.ip_blacklist@[k]@) != ip@,
            decreases self.ip_blacklist@.len() - i,
        {
            if self.ip_blacklist[i].eq(ip) {
                return true;
            }
            i = i + 1;
        }
        false
    }

    /// Whether the IP (given as a slice) is blacklisted.
    #[verifier::loop_isolation(false)]
    pub fn is_ip_blacklisted(&self, ip: &str) -> (r: bool)
        ensures
            r == contains_str(self.ip_blacklist@, ip@),
    {
        let mut i: usize = 0;
        while i < self.ip_blacklist.len()
            invariant
                i <= self.ip_blacklist@.len(),
                forall|k: int| 0 <= k < i ==> (#[trigger] self.ip_blacklist@[k]@) != ip@,
            decreases self.ip_blacklist@.len() - i,
        {
            if crate::platform::str_eq(self.ip_blacklist[i].as_str(), ip) {
                return true;
            }
            i = i + 1;
        }
        false
    }

    /// Whether the user is blacklisted, compared character for
    /// character.
    #[verifier::loop_isolation(false)]
    pub fn is_user_blacklisted_string(&self, user_id: &String) -> (r: bool)
        ensures
            r == contains_str(self.user_blacklist@, user_id@),
    {
        let mut i: usize = 0;
        while i < self.user_blacklist.len()
            invariant
                i <= self.user_blacklist@.len(),
                forall|k: int| 0 <= k < i ==> (#[trigger] self.user_blacklist@[k]@) != user_id@,
            decreases self.user_blacklist@.len() - i,
        {
            if self.user_blacklist[i].eq(user_id) {
                return true;
            }
            i = i + 1;
        }
        false
    }

    /// Whether the user (given as a slice) is blacklisted.
    #[verifier::loop_isolation(false)]
    pub fn is_user_blacklisted(&self, user_id: &str) -> (r: bool)
        ensures
            r == contains_str(self.user_blacklist@, user_id@),
    {
        let mut i: usize = 0;
        while i < self.user_blacklist.len()
            invariant
                i <= self.user_blacklist@.len(),
                forall|k: int| 0 <= k < i ==> (#[trigger] self.user_blacklist@[k]@) != user_id@,
            decreases self.user_blacklist@.len() - i,
        {
            if crate::platform::str_eq(self.user_blacklist[i].as_str(), user_id) {
                return true;
            }
            i = i + 1;
        }
        false
    }

    /// The most recent events, newest first, at most `limit` of them.
    #[verifier::loop_isolation(false)]
    pub fn get_recent_events(&self, limit: usize) -> (r: Vec<SecurityEvent>)
        ensures
            r@.len() == if limit < self.event_log@.len() {
                limit as int
            } else {
                self.event_log@.len() as int
            },
            forall|i: int|
                0 <= i < r@.len() ==> #[trigger] r@[i] == self.event_log@[
                    self.event_log@.len() - 1 - i],
    {
        let mut out: Vec<SecurityEvent> = Vec::new();
        let n = self.event_log.len();
        let count = if limit < n {
            limit
        } else {
            n
        };
        let mut i: usize = 0;
        while i < count
            invariant
                i <= count,
                count <= n,
                n == self.event_log@.len(),
                out@.len() == i,
                forall|k: int|
                    0 <= k < i ==> #[trigger] out@[k] == self.event_log@[n - 1 - k],
            decreases count - i,
        {
            let e = duplicate_event(&self.event_log[n - 1 - i]);
            out.push(e);
            i = i + 1;
        }
        out
    }
}

/// Copies an optional string, keeping its exact value.
fn clone_opt_string(o: &Option<String>) -> (r: Option<String>)
    ensures
        r == *o,
{
    match o {
        Some(s) => Some(s.clone()),
        None => None,
    }
}

/// Copies a security event field by field, keeping its exact value.
fn duplicate_event(e: &SecurityEvent) -> (r: SecurityEvent)
    ensures
        r == *e,
{
    SecurityEvent {
        id: e.id,
        timestamp: e.timestamp,
        event_type: e.event_type,
        threat_level: e.threat_level,
        source_ip: clone_opt_string(&e.source_ip),
        user_id: clone_opt_string(&e.user_id),
        details: clone_opt_string(&e.details),
    }
}

} // verus!
