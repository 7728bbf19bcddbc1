//! Continuous monitoring: global market metrics, per-market health,
//! user activity tracking, and a security dashboard report.

use vstd::prelude::*;
use vstd::seq_lib::*;

use crate::fixed::{Decimal, UNIT};
use crate::safety::RiskLevel;
use crate::logging::{duplicate_event, SecurityEvent, SecurityEventSeverity};

verus! {

/// Aggregated metrics over all markets.
#[derive(Debug, Clone, Copy)]
pub struct GlobalMarketMetrics {
    pub total_market_volume: u128,
    pub active_markets: usize,
    pub total_users: usize,
    pub security_risk_level: RiskLevel,
}

/// A snapshot of one market as the dashboard receives it: its key,
/// total volume in whole currency units, and how many bets it holds.
#[derive(Debug, Clone)]
pub struct Market {
    pub id: String,
    pub total_volume: u64,
    pub total_bets: usize,
}

/// Health indicators of one market.
#[derive(Debug, Clone)]
pub struct MarketHealthIndicators {
    pub market_id: String,
    pub current_volume: u64,
    pub total_bets: usize,
    pub liquidity_ratio: Decimal,
    pub manipulation_risk: Decimal,
}

/// Activity profile of one user.
#[derive(Debug, Clone)]
pub struct UserActivityProfile {
    pub address: String,
    pub total_bets: u64,
    pub total_volume: u128,
    /// Unix timestamp of the last activity, in seconds.
    pub last_activity: i64,
    pub risk_score: Decimal,
}

/// Summary risk indicators across all markets.
#[derive(Debug, Clone, Copy)]
pub struct GlobalRiskIndicators {
    pub total_markets: usize,
    pub markets_at_risk: usize,
    pub highest_risk_level: RiskLevel,
}

/// Everything the dashboard shows at one moment.
#[derive(Debug)]
pub struct SecurityDashboardReport {
    pub global_metrics: GlobalMarketMetrics,
    pub market_health: Vec<MarketHealthIndicators>,
    pub recent_security_events: Vec<SecurityEvent>,
    pub high_risk_users: Vec<UserActivityProfile>,
}

/// Risk weight of one event severity, in raw fixed-point form:
/// 0.25, 0.5, 0.75 or 1.
pub open spec fn severity_weight(s: SecurityEventSeverity) -> int {
    match s {
        SecurityEventSeverity::Low => UNIT as int / 4,
        SecurityEventSeverity::Medium => UNIT as int / 2,
        SecurityEventSeverity::High => 3 * (UNIT as int) / 4,
        SecurityEventSeverity::Critical => UNIT as int,
    }
}

/// Sum of the risk weights of a list of events.
pub open spec fn severity_sum(events: Seq<SecurityEvent>) -> int
    decreases events.len(),
{
    if events.len() == 0 {
        0
    } else {
        severity_sum(events.drop_last()) + severity_weight(events.last().severity)
    }
}

/// How many health entries flag a manipulation risk above 0.7.
pub open spec fn high_risk_market_count(health: Seq<MarketHealthIndicators>) -> int
    decreases health.len(),
{
    if health.len() == 0 {
        0
    } else {
        high_risk_market_count(health.drop_last()) + if health.last().manipulation_risk@ > 7 * (
        UNIT as int) / 10 {
            1int
        } else {
            0int
        }
    }
}

/// Whether a user profile counts as high risk.
pub open spec fn is_high_risk(u: UserActivityProfile) -> bool {
    u.risk_score@ > 7 * (UNIT as int) / 10
}

/// The combined risk score the dashboard classifies: the share of
/// high-risk markets plus the mean event severity, in raw form.
pub open spec fn global_risk_score(
    health: Seq<MarketHealthIndicators>,
    events: Seq<SecurityEvent>,
) -> int {
    let hlen: int = if health.len() == 0 {
        1
    } else {
        health.len() as int
    };
    let elen: int = if events.len() == 0 {
        1
    } else {
        events.len() as int
    };
    (high_risk_market_count(health) * UNIT) / hlen + severity_sum(events) / elen
}

/// The risk level a combined score maps to: below 0.2 low, below 0.5
/// medium, below 0.8 high, otherwise critical.
pub open spec fn classify_global_risk(score: int) -> RiskLevel {
    if score < UNIT as int / 5 {
        RiskLevel::Low
    } else if score < UNIT as int / 2 {
        RiskLevel::Medium
    } else if score < 4 * (UNIT as int) / 5 {
        RiskLevel::High
    } else {
        RiskLevel::Critical
    }
}

/// Copies a user profile, keeping its exact value.
fn duplicate_profile(p: &UserActivityProfile) -> (r: UserActivityProfile)
    ensures
        r == *p,
{
    UserActivityProfile {
        address: p.address.clone(),
        total_bets: p.total_bets,
        total_volume: p.total_volume,
        last_activity: p.last_activity,
        risk_score: p.risk_score,
    }
}

/// Copies a health entry, keeping its exact value.
fn duplicate_health(h: &MarketHealthIndicators) -> (r: MarketHealthIndicators)
    ensures
        r == *h,
{
    MarketHealthIndicators {
        market_id: h.market_id.clone(),
        current_volume: h.current_volume,
        total_bets: h.total_bets,
        liquidity_ratio: h.liquidity_ratio,
        manipulation_risk: h.manipulation_risk,
    }
}

/// Aggregates market health, user activity, and security events into
/// dashboard metrics.
pub struct ContinuousMonitoringDashboard {
    pub global_metrics: GlobalMarketMetrics,
    /// Market keys of the tracked health entries.
    pub market_keys: Vec<String>,
    /// Health entries, parallel to the keys.
    pub market_health: Vec<MarketHealthIndicators>,
    pub security_events: Vec<SecurityEvent>,
    /// User keys of the tracked activity profiles.
    pub user_keys: Vec<String>,
    /// Activity profiles, parallel to the keys.
    pub user_profiles: Vec<UserActivityProfile>,
}

impl ContinuousMonitoringDashboard {
    /// Key and value lists stay parallel, and each key mirrors the
    /// identity stored in its entry.
    pub open spec fn wf(&self) -> bool {
        &&& self.market_keys@.len() == self.market_health@.len()
        &&& self.user_keys@.len() == self.user_profiles@.len()
        &&& forall|i: int|
            0 <= i < self.market_keys@.len() ==> (#[trigger] self.market_keys@[i]@)
                == self.market_health@[i].market_id@
        &&& forall|i: int|
            0 <= i < self.user_keys@.len() ==> (#[trigger] self.user_keys@[i]@)
                == self.user_profiles@[i].address@
    }

    pub fn new() -> (r: Self)
        ensures
            r.wf(),
            r.market_keys@.len() == 0,
            r.security_events@.len() == 0,
            r.user_keys@.len() == 0,
            r.global_metrics.total_market_volume == 0,
            r.global_metrics.active_markets == 0,
            r.global_metrics.total_users == 0,
            r.global_metrics.security_risk_level == RiskLevel::Low,
    {
        ContinuousMonitoringDashboard {
            global_metrics: GlobalMarketMetrics {
                total_market_volume: 0,
                active_markets: 0,
                total_users: 0,
                security_risk_level: RiskLevel::Low,
            },
            market_keys: Vec::new(),
            market_health: Vec::new(),
            security_events: Vec::new(),
            user_keys: Vec::new(),
            user_profiles: Vec::new(),
        }
    }

    /// Sum of the given markets' volumes.
    pub closed spec fn volume_sum(markets: Seq<Market>) -> int
        decreases markets.len(),
    {
        if markets.len() == 0 {
            0
        } else {
            Self::volume_sum(markets.drop_last()) + markets.last().total_volume
        }
    }

    /// Recomputes the global metrics from the given markets and the
    /// tracked state.
    #[verifier::loop_isolation(false)]
    pub fn update_global_metrics(&mut self, markets: &Vec<Market>)
        requires
            old(self).wf(),
        ensures
            final(self).wf(),
            final(self).global_metrics.total_market_volume == Self::volume_sum(markets@),
            final(self).global_metrics.active_markets == markets@.len(),
            final(self).global_metrics.total_users == old(self).user_keys@.len(),
            final(self).global_metrics.security_risk_level == classify_global_risk(
                global_risk_score(old(self).market_health@, old(self).security_events@),
            ),
            final(self).market_health@ == old(self).market_health@,
            final(self).market_keys@ == old(self).market_keys@,
            final(self).security_events@ == old(self).security_events@,
            final(self).user_keys@ == old(self).user_keys@,
            final(self).user_profiles@ == old(self).user_profiles@,
    {
        let mut total: u128 = 0;
        let mut i: usize = 0;
        while i < markets.len()
            invariant
                i <= markets@.len(),
                total as int == Self::volume_sum(markets@.take(i as int)),
                total as int <= (i as int) * 0xffff_ffff_ffff_ffff,
            decreases markets@.len() - i,
        {
            proof {
                assert(markets@.take(i as int + 1).drop_last() =~= markets@.take(i as int));
                assert(markets@.take(i as int + 1).last() == markets@[i as int]);
                assert((i as int) * 0xffff_ffff_ffff_ffff + 0xffff_ffff_ffff_ffff == (i as int
                    + 1) * 0xffff_ffff_ffff_ffff) by (nonlinear_arith);
                assert((i as int + 1) * 0xffff_ffff_ffff_ffff <= 0x1_0000_0000_0000_0000
                    * 0xffff_ffff_ffff_ffff) by (nonlinear_arith)
                    requires
                        i as int + 1 <= 0x1_0000_0000_0000_0000,
                ;
            }
            total = total + (markets[i].total_volume as u128);
            i = i + 1;
        }
        proof {
            assert(markets@.take(markets@.len() as int) =~= markets@);
        }
        let risk = self.calculate_global_risk_level();
        self.global_metrics = GlobalMarketMetrics {
            total_market_volume: total,
            active_markets: markets.len(),
            total_users: self.user_keys.len(),
            security_risk_level: risk,
        };
    }

    /// Inserts or refreshes the health entry of one market, with the
    /// placeholder liquidity and manipulation estimates, and refreshes
    /// the active-market count.
    #[verifier::loop_isolation(false)]
    pub fn update_market_health(&mut self, market: &Market)
        requires
            old(self).wf(),
        ensures
            final(self).wf(),
            final(self).market_keys@.len() >= old(self).market_keys@.len(),
            final(self).market_keys@.len() <= old(self).market_keys@.len() + 1,
            final(self).market_health@.len() == final(self).market_keys@.len(),
            final(self).security_events@ == old(self).security_events@,
            final(self).user_keys@ == old(self).user_keys@,
            final(self).user_profiles@ == old(self).user_profiles@,
            final(self).global_metrics.active_markets == final(self).market_keys@.len(),
            final(self).global_metrics.total_market_volume == old(
                self,
            ).global_metrics.total_market_volume,
            final(self).global_metrics.total_users == old(self).global_metrics.total_users,
            final(self).global_metrics.security_risk_level == old(
                self,
            ).global_metrics.security_risk_level,
            exists|i: int|
                0 <= i < final(self).market_health@.len() && {
                    let h = #[trigger] final(self).market_health@[i];
                    &&& h.market_id@ == market.id@
                    &&& h.current_volume == market.total_volume
                    &&& h.total_bets == market.total_bets
                    &&& h.liquidity_ratio == calculate_liquidity_ratio(market)
                    &&& h.manipulation_risk == calculate_manipulation_risk(market)
                },
    {
        let entry = MarketHealthIndicators {
            market_id: market.id.clone(),
            current_volume: market.total_volume,
            total_bets: market.total_bets,
            liquidity_ratio: calculate_liquidity_ratio_exec(market),
            manipulation_risk: calculate_manipulation_risk_exec(market),
        };
        let mut i: usize = 0;
        while i < self.market_keys.len()
            invariant
                old(self).wf(),
                *self == *old(self),
                i <= self.market_keys@.len(),
            decreases self.market_keys@.len() - i,
        {
            if self.market_keys[i].eq(&market.id) {
                let ghost pre_health = self.market_health@;
                let ghost the_entry = entry;
                self.market_health.remove(i);
                self.market_health.insert(i, entry);
                self.global_metrics.active_markets = self.market_keys.len();
                proof {
                    assert(self.market_health@ =~= pre_health.update(i as int, the_entry));
                    assert(final(self).market_health@[i as int].market_id@ == market.id@);
                }
                return ;
            }
            i = i + 1;
        }
        self.market_keys.push(market.id.clone());
        self.market_health.push(entry);
        self.global_metrics.active_markets = self.market_keys.len();
        proof {
            let last = final(self).market_health@.len() - 1;
            assert(final(self).market_health@[last].market_id@ == market.id@);
        }
    }

    /// Records one bet by one user: the profile's counters grow, the
    /// last-activity stamp moves to `now`, and the risk score is
    /// re-estimated.
    #[verifier::loop_isolation(false)]
    pub fn track_user_activity(&mut self, address: String, amount: u64, now: i64)
        requires
            old(self).wf(),
        ensures
            final(self).wf(),
            final(self).user_keys@.len() >= old(self).user_keys@.len(),
            final(self).user_keys@.len() <= old(self).user_keys@.len() + 1,
            final(self).market_keys@ == old(self).market_keys@,
            final(self).market_health@ == old(self).market_health@,
            final(self).security_events@ == old(self).security_events@,
            final(self).global_metrics == old(self).global_metrics,
            exists|i: int|
                0 <= i < final(self).user_profiles@.len() && {
                    let p = #[trigger] final(self).user_profiles@[i];
                    &&& p.address@ == address@
                    &&& p.last_activity == now
                    &&& p.total_bets >= 1
                },
    {
        let mut i: usize = 0;
        while i < self.user_keys.len()
            invariant
                old(self).wf(),
                *self == *old(self),
                i <= self.user_keys@.len(),
            decreases self.user_keys@.len() - i,
        {
            if self.user_keys[i].eq(&address) {
                let ghost pre_profiles = self.user_profiles@;
                let mut p = self.user_profiles.remove(i);
                if p.total_bets < u64::MAX {
                    p.total_bets = p.total_bets + 1;
                }
                if p.total_volume <= u128::MAX - (amount as u128) {
                    p.total_volume = p.total_volume + (amount as u128);
                }
                p.last_activity = now;
                p.risk_score = calculate_user_risk_score_exec(&p);
                self.user_profiles.insert(i, p);
                proof {
                    assert(self.user_profiles@ =~= pre_profiles.update(
                        i as int,
                        self.user_profiles@[i as int],
                    ));
                    assert(self.user_keys@[i as int]@ == pre_profiles[i as int].address@);
                    assert(final(self).user_profiles@[i as int].address@ == address@);
                }
                return ;
            }
            i = i + 1;
        }
        let profile = UserActivityProfile {
            address,
            total_bets: 1,
            total_volume: amount as u128,
            last_activity: now,
            risk_score: Decimal { raw: 500_000_000_000 },
        };
        self.user_keys.push(profile.address.clone());
        self.user_profiles.push(profile);
        proof {
            let last = final(self).user_profiles@.len() - 1;
            assert(final(self).user_profiles@[last].last_activity == now);
        }
    }

    /// Classifies the combined risk of the tracked markets and events.
    #[verifier::loop_isolation(false)]
    pub fn calculate_global_risk_level(&self) -> (r: RiskLevel)
        ensures
            r == classify_global_risk(
                global_risk_score(self.market_health@, self.security_events@),
            ),
    {
        let ghost health = self.market_health@;
        let ghost events = self.security_events@;
        let mut high: u64 = 0;
        let mut i: usize = 0;
        proof {
            assert(health.take(0) =~= Seq::<MarketHealthIndicators>::empty());
        }
        while i < self.market_health.len()
            invariant
                i <= health.len(),
                high as int == high_risk_market_count(health.take(i as int)),
                high <= i,
            decreases health.len() - i,
        {
            proof {
                assert(health.take(i as int + 1).drop_last() =~= health.take(i as int));
                assert(health.take(i as int + 1).last() == health[i as int]);
            }
            if self.market_health[i].manipulation_risk.mantissa() > 700_000_000_000 {
                high = high + 1;
            }
            i = i + 1;
        }
        proof {
            assert(health.take(health.len() as int) =~= health);
        }

        let mut sev: u128 = 0;
        let mut j: usize = 0;
        proof {
            assert(events.take(0) =~= Seq::<SecurityEvent>::empty());
        }
        while j < self.security_events.len()
            invariant
                j <= events.len(),
                sev as int == severity_sum(events.take(j as int)),
                sev as int <= (j as int) * UNIT,
            decreases events.len() - j,
        {
            proof {
                assert(events.take(j as int + 1).drop_last() =~= events.take(j as int));
                assert(events.take(j as int + 1).last() == events[j as int]);
                assert((j as int) * UNIT + UNIT == (j as int + 1) * UNIT) by (nonlinear_arith);
                assert((j as int + 1) * UNIT <= 0x1_0000_0000_0000_0000 * UNIT)
                    by (nonlinear_arith)
                    requires
                        j as int + 1 <= 0x1_0000_0000_0000_0000,
                ;
            }
            let w: u128 = match self.security_events[j].severity {
                SecurityEventSeverity::Low => (UNIT as u128) / 4,
                SecurityEventSeverity::Medium => (UNIT as u128) / 2,
                SecurityEventSeverity::High => 3 * (UNIT as u128) / 4,
                SecurityEventSeverity::Critical => UNIT as u128,
            };
            sev = sev + w;
            j = j + 1;
        }
        proof {
            assert(events.take(events.len() as int) =~= events);
        }

        let hlen: u128 = if self.market_health.len() == 0 {
            1
        } else {
            self.market_health.len() as u128
        };
        let elen: u128 = if self.security_events.len() == 0 {
            1
        } else {
            self.security_events.len() as u128
        };
        proof {
            vstd::arithmetic::div_mod::lemma_div_pos_is_pos(
                high_risk_market_count(health) * UNIT,
                hlen as int,
            );
            assert(high_risk_market_count(health) * UNIT >= 0) by (nonlinear_arith)
                requires
                    high_risk_market_count(health) >= 0,
            ;
        }
        let score = (high as u128) * (UNIT as u128) / hlen + sev / elen;
        if score < (UNIT as u128) / 5 {
            RiskLevel::Low
        } else if score < (UNIT as u128) / 2 {
            RiskLevel::Medium
        } else if score < 4 * (UNIT as u128) / 5 {
            RiskLevel::High
        } else {
            RiskLevel::Critical
        }
    }

    /// A full dashboard snapshot: the global metrics, every health
    /// entry, every retained security event, and the high-risk users.
    #[verifier::loop_isolation(false)]
    pub fn generate_security_dashboard_report(&self) -> (r: SecurityDashboardReport)
        ensures
            r.global_metrics == self.global_metrics,
            r.market_health@ == self.market_health@,
            r.recent_security_events@ == self.security_events@,
            r.high_risk_users@ == self.user_profiles@.filter(|u: UserActivityProfile| is_high_risk(u)),
    {
        let mut health: Vec<MarketHealthIndicators> = Vec::new();
        let mut i: usize = 0;
        while i < self.market_health.len()
            invariant
                i <= self.market_health@.len(),
                health@ == self.market_health@.take(i as int),
            decreases self.market_health@.len() - i,
        {
            health.push(duplicate_health(&self.market_health[i]));
            proof {
                assert(health@ =~= self.market_health@.take(i as int + 1));
            }
            i = i + 1;
        }
        proof {
            assert(self.market_health@.take(self.market_health@.len() as int)
                =~= self.market_health@);
        }

        let mut events: Vec<SecurityEvent> = Vec::new();
        let mut j: usize = 0;
        while j < self.security_events.len()
            invariant
                j <= self.security_events@.len(),
                events@ == self.security_events@.take(j as int),
            decreases self.security_events@.len() - j,
        {
            events.push(duplicate_event(&self.security_events[j]));
            proof {
                assert(events@ =~= self.security_events@.take(j as int + 1));
            }
            j = j + 1;
        }
        proof {
            assert(self.security_events@.take(self.security_events@.len() as int)
                =~= self.security_events@);
        }

        SecurityDashboardReport {
            global_metrics: self.global_metrics,
            market_health: health,
            recent_security_events: events,
            high_risk_users: self.identify_high_risk_users(),
        }
    }

    /// The profiles whose risk score exceeds 0.7.
    #[verifier::loop_isolation(false)]
    pub fn identify_high_risk_users(&self) -> (r: Vec<UserActivityProfile>)
        ensures
            r@ == self.user_profiles@.filter(|u: UserActivityProfile| is_high_risk(u)),
    {
        let ghost pred = |u: UserActivityProfile| is_high_risk(u);
        let mut out: Vec<UserActivityProfile> = Vec::new();
        let mut i: usize = 0;
        proof {
            reveal_with_fuel(Seq::filter, 1);
            assert(self.user_profiles@.take(0) =~= Seq::<UserActivityProfile>::empty());
        }
        while i < self.user_profiles.len()
            invariant
                i <= self.user_profiles@.len(),
                out@ == self.user_profiles@.take(i as int).filter(pred),
            decreases self.user_profiles@.len() - i,
        {
            proof {
                reveal_with_fuel(Seq::filter, 2);
                assert(self.user_profiles@.take(i as int + 1).drop_last()
                    =~= self.user_profiles@.take(i as int));
                assert(self.user_profiles@.take(i as int + 1).last() == self.user_profiles@[
                    i as int]);
            }
            if self.user_profiles[i].risk_score.mantissa() > 700_000_000_000 {
                out.push(duplicate_profile(&self.user_profiles[i]));
                proof {
                    assert(out@ =~= self.user_profiles@.take(i as int + 1).filter(pred));
                }
            } else {
                proof {
                    assert(out@ =~= self.user_profiles@.take(i as int + 1).filter(pred));
                }
            }
            i = i + 1;
        }
        proof {
            assert(self.user_profiles@.take(self.user_profiles@.len() as int)
                =~= self.user_profiles@);
        }
        out
    }
}

/// Placeholder liquidity-ratio estimate for one market.
pub open spec fn calculate_liquidity_ratio(market: &Market) -> Decimal {
    Decimal { raw: 500_000_000_000 }
}

/// Exec twin of `calculate_liquidity_ratio`.
fn calculate_liquidity_ratio_exec(market: &Market) -> (r: Decimal)
    ensures
        r == calculate_liquidity_ratio(market),
{
    Decimal { raw: 500_000_000_000 }
}

/// Placeholder manipulation-risk estimate for one market.
pub open spec fn calculate_manipulation_risk(market: &Market) -> Decimal {
    Decimal { raw: 300_000_000_000 }
}

/// Exec twin of `calculate_manipulation_risk`.
fn calculate_manipulation_risk_exec(market: &Market) -> (r: Decimal)
    ensures
        r == calculate_manipulation_risk(market),
{
    Decimal { raw: 300_000_000_000 }
}

/// Placeholder user risk score.
fn calculate_user_risk_score_exec(profile: &UserActivityProfile) -> (r: Decimal)
    ensures
        r@ == 500_000_000_000,
{
    Decimal { raw: 500_000_000_000 }
}

} // verus!
