//! Market safety checks over raw bet events: address blacklisting,
//! volume and single-bet-ratio limits, and rapid-betting detection.
//!
//! This layer examines raw bet ratios independently of the pricing
//! core and does not consume its outputs.

use vstd::prelude::*;

use crate::fixed::{Decimal, UNIT};
use crate::platform::now_seconds;

verus! {

/// Whether some string in the list holds exactly these characters.
pub open spec fn contains_str(l: Seq<String>, s: Seq<char>) -> bool {
    exists|i: int| 0 <= i < l.len() && #[trigger] l[i]@ == s
}

/// Limits the safety manager enforces on incoming bets.
#[derive(Debug, Clone)]
pub struct MarketSafetyConfig {
    /// Largest market volume accepted, in whole currency units.
    pub max_market_volume: Decimal,
    /// Largest share of a market's volume one bet may take; a ratio
    /// in [0, 1].
    pub max_single_bet_ratio: Decimal,
    /// Smallest liquidity share considered healthy; a ratio in [0, 1].
    pub min_liquidity_threshold: Decimal,
    /// How far back, in seconds, rapid-betting detection looks.
    pub manipulation_detection_window: u64,
}

impl MarketSafetyConfig {
    /// Ratios are shares in [0, 1]; the volume limit is non-negative.
    pub open spec fn wf(&self) -> bool {
        &&& 0 <= self.max_market_volume@
        &&& 0 <= self.max_single_bet_ratio@ <= UNIT
        &&& 0 <= self.min_liquidity_threshold@ <= UNIT
    }
}

impl Default for MarketSafetyConfig {
    /// One million units of volume, a 10% single-bet ratio, a 5%
    /// liquidity floor, and a five-minute detection window.
    fn default() -> (r: Self)
        ensures
            r.wf(),
            r.max_market_volume@ == 1_000_000 * UNIT,
            r.max_single_bet_ratio@ == UNIT / 10,
            r.min_liquidity_threshold@ == UNIT / 20,
            r.manipulation_detection_window == 300,
    {
        proof {
            reveal_with_fuel(crate::fixed::spec_pow10, 13);
        }
        MarketSafetyConfig {
            max_market_volume: Decimal::new(1_000_000, 0),
            max_single_bet_ratio: Decimal::new(1, 1),
            min_liquidity_threshold: Decimal::new(5, 2),
            manipulation_detection_window: 300,
        }
    }
}

/// One bet event as the safety layer sees it: plain amounts in whole
/// currency units, a Unix timestamp, and the bettor's address.
#[derive(Debug, Clone)]
pub struct BetRiskProfile {
    pub bet_amount: u64,
    pub market_volume: u64,
    pub timestamp: i64,
    pub user_address: String,
    pub market_id: String,
}

/// How risky one bet event looks.
#[derive(Debug, Clone, Copy, PartialEq, Eq, Structural)]
pub enum RiskLevel {
    Low,
    Medium,
    High,
    Critical,
}

/// A per-market risk report.
#[derive(Debug, Clone)]
pub struct MarketRiskAssessment {
    pub market_id: String,
    pub risk_level: RiskLevel,
    pub risk_factors: Vec<String>,
    pub recommended_action: String,
}

/// Whether a bet's market volume exceeds the configured limit.
pub open spec fn volume_exceeded(cfg: MarketSafetyConfig, bet: BetRiskProfile) -> bool {
    bet.market_volume * UNIT > cfg.max_market_volume@
}

/// Whether a bet takes more than the allowed share of its market's
/// volume (`amount / volume > ratio`, compared exactly in integers).
pub open spec fn ratio_exceeded(cfg: MarketSafetyConfig, bet: BetRiskProfile) -> bool {
    bet.bet_amount * UNIT > bet.market_volume * cfg.max_single_bet_ratio@
}

/// The risk level assigned to a count of recent bets on one market.
pub open spec fn classify_rapid(count: int) -> RiskLevel {
    if count <= 2 {
        RiskLevel::Low
    } else if count <= 5 {
        RiskLevel::Medium
    } else if count <= 10 {
        RiskLevel::High
    } else {
        RiskLevel::Critical
    }
}

/// How many bets of a history fall within the detection window ending
/// at `now`.
pub open spec fn count_recent(h: Seq<BetRiskProfile>, now: int, window: int) -> int
    decreases h.len(),
{
    if h.len() == 0 {
        0
    } else {
        count_recent(h.drop_last(), now, window) + if now - h.last().timestamp < window {
            1int
        } else {
            0int
        }
    }
}

/// Index of the first list entry whose key holds exactly these
/// characters, or -1.
pub open spec fn market_index(ids: Seq<String>, id: Seq<char>) -> int
    decreases ids.len(),
{
    if ids.len() == 0 {
        -1
    } else if ids[0]@ == id {
        0
    } else {
        let r = market_index(ids.drop_first(), id);
        if r < 0 {
            -1
        } else {
            r + 1
        }
    }
}

/// The first match found by a left-to-right scan is `market_index`.
proof fn lemma_market_index_found(ids: Seq<String>, id: Seq<char>, i: int)
    requires
        0 <= i < ids.len(),
        forall|k: int| 0 <= k < i ==> (#[trigger] ids[k]@) != id,
        ids[i]@ == id,
    ensures
        market_index(ids, id) == i,
    decreases i,
{
    if i > 0 {
        lemma_market_index_found(ids.drop_first(), id, i - 1);
    }
}

/// A scan with no match means `market_index` is -1.
proof fn lemma_market_index_missing(ids: Seq<String>, id: Seq<char>)
    requires
        forall|k: int| 0 <= k < ids.len() ==> (#[trigger] ids[k]@) != id,
    ensures
        market_index(ids, id) == -1,
    decreases ids.len(),
{
    if ids.len() > 0 {
        lemma_market_index_missing(ids.drop_first(), id);
    }
}

/// How one transaction fared against the safety checks.
#[derive(Debug, Clone)]
pub struct MarketSafetyAssessment {
    pub is_safe: bool,
    pub risk_level: RiskLevel,
    pub details: String,
}

/// Tracks bet histories per market, enforces the safety limits, and
/// maintains the address blacklist.
pub struct MarketSafetyManager {
    pub config: MarketSafetyConfig,
    /// Market keys, one per tracked market.
    pub market_ids: Vec<String>,
    /// The bet history of each tracked market, parallel to the keys.
    pub market_histories: Vec<Vec<BetRiskProfile>>,
    pub blacklisted_addresses: Vec<String>,
}

/// The bet history the manager holds for one market (empty when the
/// market is not tracked yet).
pub open spec fn history_for(m: MarketSafetyManager, id: Seq<char>) -> Seq<BetRiskProfile> {
    let i = market_index(m.market_ids@, id);
    if 0 <= i < m.market_histories@.len() {
        m.market_histories@[i]@
    } else {
        Seq::empty()
    }
}

/// Everything `assess_bet_risk` promises, for the clock reading `now`
/// it ran with.
pub open spec fn assess_post(
    pre: MarketSafetyManager,
    post: MarketSafetyManager,
    bet: BetRiskProfile,
    now: int,
    r: Result<RiskLevel, String>,
) -> bool {
    let black = contains_str(pre.blacklisted_addresses@, bet.user_address@);
    &&& post.config == pre.config
    &&& (r is Err <==> black || (!black && volume_exceeded(pre.config, bet)))
    &&& black ==> post.market_ids@ == pre.market_ids@ && post.market_histories@
        == pre.market_histories@ && post.blacklisted_addresses@ == pre.blacklisted_addresses@
    &&& !black && !volume_exceeded(pre.config, bet) && ratio_exceeded(pre.config, bet) ==> (
    r matches Ok(RiskLevel::Critical) && contains_str(
        post.blacklisted_addresses@,
        bet.user_address@,
    ))
    &&& !black && !volume_exceeded(pre.config, bet) && !ratio_exceeded(pre.config, bet) ==> {
        let count = count_recent(
            history_for(pre, bet.market_id@),
            now,
            pre.config.manipulation_detection_window as int,
        );
        &&& (r matches Ok(level) && level == classify_rapid(count))
        &&& post.blacklisted_addresses@ == pre.blacklisted_addresses@
        &&& {
            let h = history_for(pre, bet.market_id@).push(bet);
            history_for(post, bet.market_id@) == if h.len() > 100 {
                h.drop_first()
            } else {
                h
            }
        }
    }
}

impl MarketSafetyManager {
    /// The key and history lists stay parallel, and the configured
    /// limits stay well-formed.
    pub open spec fn wf(&self) -> bool {
        &&& self.config.wf()
        &&& self.market_ids@.len() == self.market_histories@.len()
    }

    pub fn new(config: MarketSafetyConfig) -> (r: Self)
        requires
            config.wf(),
        ensures
            r.wf(),
            r.config == config,
            r.market_ids@.len() == 0,
            r.blacklisted_addresses@.len() == 0,
    {
        MarketSafetyManager {
            config,
            market_ids: Vec::new(),
            market_histories: Vec::new(),
            blacklisted_addresses: Vec::new(),
        }
    }

    /// Whether the address has been blacklisted.
    #[verifier::loop_isolation(false)]
    pub fn is_address_blacklisted(&self, address: &String) -> (r: bool)
        ensures
            r == contains_str(self.blacklisted_addresses@, address@),
    {
        let mut i: usize = 0;
        while i < self.blacklisted_addresses.len()
            invariant
                i <= self.blacklisted_addresses@.len(),
                forall|k: int|
                    0 <= k < i ==> (#[trigger] self.blacklisted_addresses@[k]@) != address@,
            decreases self.blacklisted_addresses@.len() - i,
        {
            if self.blacklisted_addresses[i].eq(address) {
                return true;
            }
            i = i + 1;
        }
        false
    }

    /// Blacklists the address if it is not already listed.
    pub fn blacklist_address(&mut self, address: String)
        ensures
            final(self).config == old(self).config,
            final(self).market_ids@ == old(self).market_ids@,
            final(self).market_histories@ == old(self).market_histories@,
            final(self).blacklisted_addresses@ == if contains_str(
                old(self).blacklisted_addresses@,
                address@,
            ) {
                old(self).blacklisted_addresses@
            } else {
                old(self).blacklisted_addresses@.push(address)
            },
            contains_str(final(self).blacklisted_addresses@, address@),
    {
        if !self.is_address_blacklisted(&address) {
            let ghost pre = self.blacklisted_addresses@;
            self.blacklisted_addresses.push(address);
            proof {
                assert(final(self).blacklisted_addresses@[pre.len() as int]@ == address@);
            }
        }
    }

    /// Assesses one bet at the given clock reading: blacklisted
    /// bettors are rejected, oversized markets are rejected, an
    /// oversized bet is critical and blacklists its bettor, and
    /// otherwise the rapid-betting count of the bet's market decides.
    #[verifier::loop_isolation(false)]
    pub fn assess_bet_risk_at(&mut self, bet: BetRiskProfile, now: i64) -> (r: Result<
        RiskLevel,
        String,
    >)
        requires
            old(self).wf(),
        ensures
            final(self).wf(),
            assess_post(*old(self), *final(self), bet, now as int, r),
    {
        if self.is_address_blacklisted(&bet.user_address) {
            return Err("User address is blacklisted".to_owned());
        }

        // Find or create this market's bet history.
        let ghost pre = *self;
        let mut idx: usize = 0;
        let mut found = false;
        while idx < self.market_ids.len() && !found
            invariant
                idx <= self.market_ids@.len(),
                forall|k: int| 0 <= k < idx ==> (#[trigger] self.market_ids@[k]@) != bet.market_id@,
                found ==> idx < self.market_ids@.len() && self.market_ids@[idx as int]@
                    == bet.market_id@,
                *self == pre,
            decreases self.market_ids@.len() - idx + (if found { 0int } else { 1int }),
        {
            if self.market_ids[idx].eq(&bet.market_id) {
                found = true;
            } else {
                idx = idx + 1;
            }
        }
        proof {
            if found {
                lemma_market_index_found(self.market_ids@, bet.market_id@, idx as int);
            } else {
                lemma_market_index_missing(self.market_ids@, bet.market_id@);
            }
        }
        if !found {
            self.market_ids.push(bet.market_id.clone());
            self.market_histories.push(Vec::new());
            proof {
                lemma_market_index_found(self.market_ids@, bet.market_id@, idx as int);
                assert(self.market_histories@[idx as int]@ =~= Seq::<BetRiskProfile>::empty());
                assert(history_for(*self, bet.market_id@) =~= history_for(pre, bet.market_id@));
            }
        }
        let ghost entered = *self;
        assert(history_for(entered, bet.market_id@) == history_for(pre, bet.market_id@));
        assert(market_index(self.market_ids@, bet.market_id@) == idx as int);

        // Volume limit.
        if (bet.market_volume as u128) * (UNIT as u128) > (self.config.max_market_volume.mantissa()
            as u128) {
            return Err("Market volume exceeds maximum allowed".to_owned());
        }
        assert(!volume_exceeded(pre.config, bet));

        // Single-bet ratio limit: amount / volume > ratio, compared as
        // amount * UNIT > volume * ratio.
        assert(self.config == old(self).config);
        assert(0 <= self.config.max_single_bet_ratio@ <= UNIT);
        let ratio_raw = self.config.max_single_bet_ratio.mantissa();
        proof {
            assert((bet.market_volume as int) * (ratio_raw as int) <= 0x1_0000_0000_0000_0000
                * UNIT) by (nonlinear_arith)
                requires
                    0 <= bet.market_volume as int <= 0x1_0000_0000_0000_0000,
                    0 <= ratio_raw as int <= UNIT,
            ;
        }
        if (bet.bet_amount as u128) * (UNIT as u128) > (bet.market_volume as u128) * (
        ratio_raw as u128) {
            self.blacklist_address(bet.user_address.clone());
            proof {
                assert(self.market_ids@ == entered.market_ids@);
                assert(history_for(*self, bet.market_id@) == history_for(
                    entered,
                    bet.market_id@,
                ));
            }
            return Ok(RiskLevel::Critical);
        }
        assert(!ratio_exceeded(pre.config, bet));

        // Rapid-betting detection over this market's recent history.
        let window = self.config.manipulation_detection_window;
        let ghost hist_pre = history_for(pre, bet.market_id@);
        let history = &self.market_histories[idx];
        assert(history@ == hist_pre);
        let mut recent: u64 = 0;
        let mut i: usize = 0;
        while i < history.len()
            invariant
                i <= history@.len(),
                recent as int == count_recent(hist_pre.take(i as int), now as int, window as int),
                recent <= i,
            decreases history@.len() - i,
        {
            proof {
                assert(hist_pre.take(i as int + 1).drop_last() =~= hist_pre.take(i as int));
                assert(hist_pre.take(i as int + 1).last() == hist_pre[i as int]);
            }
            if (now as i128) - (history[i].timestamp as i128) < (window as i128) {
                recent = recent + 1;
            }
            i = i + 1;
        }
        proof {
            assert(hist_pre.take(history@.len() as int) =~= hist_pre);
        }
        let risk_level = if recent <= 2 {
            RiskLevel::Low
        } else if recent <= 5 {
            RiskLevel::Medium
        } else if recent <= 10 {
            RiskLevel::High
        } else {
            RiskLevel::Critical
        };

        // Record the bet, trimming the history to its last 100 events.
        let mut h = self.market_histories.remove(idx);
        h.push(bet);
        if h.len() > 100 {
            h.remove(0);
        }
        self.market_histories.insert(idx, h);
        proof {
            assert(self.market_histories@ =~= entered.market_histories@.update(
                idx as int,
                self.market_histories@[idx as int],
            ));
            assert(market_index(self.market_ids@, bet.market_id@) == idx as int);
        }

        Ok(risk_level)
    }

    /// Assesses one bet against the current wall clock.  The clock's
    /// reading is outside the caller's control, so the contract holds
    /// for some reading.
    pub fn assess_bet_risk(&mut self, bet: BetRiskProfile) -> (r: Result<RiskLevel, String>)
        requires
            old(self).wf(),
        ensures
            final(self).wf(),
            exists|t: int| assess_post(*old(self), *final(self), bet, t, r),
    {
        let now = now_seconds();
        let r = self.assess_bet_risk_at(bet, now);
        proof {
            assert(assess_post(*old(self), *self, bet, now as int, r));
        }
        r
    }

    /// A per-market risk report; `None` for a market never seen.
    #[verifier::loop_isolation(false)]
    pub fn generate_market_risk_report(&self, market_id: &String) -> (r: Option<
        MarketRiskAssessment,
    >)
        ensures
            r is Some <==> market_index(self.market_ids@, market_id@) >= 0,
            r is Some ==> r->0.risk_level == RiskLevel::Low && r->0.market_id@ == market_id@,
    {
        let mut idx: usize = 0;
        let mut found = false;
        while idx < self.market_ids.len() && !found
            invariant
                idx <= self.market_ids@.len(),
                forall|k: int| 0 <= k < idx ==> (#[trigger] self.market_ids@[k]@) != market_id@,
                found ==> idx < self.market_ids@.len() && self.market_ids@[idx as int]@
                    == market_id@,
            decreases self.market_ids@.len() - idx + (if found { 0int } else { 1int }),
        {
            if self.market_ids[idx].eq(market_id) {
                found = true;
            } else {
                idx = idx + 1;
            }
        }
        proof {
            if found {
                lemma_market_index_found(self.market_ids@, market_id@, idx as int);
            } else {
                lemma_market_index_missing(self.market_ids@, market_id@);
            }
        }
        if !found {
            return None;
        }
        Some(
            MarketRiskAssessment {
                market_id: market_id.clone(),
                risk_level: RiskLevel::Low,
                risk_factors: Vec::new(),
                recommended_action: "MONITOR".to_owned(),
            },
        )
    }
}

} // verus!
