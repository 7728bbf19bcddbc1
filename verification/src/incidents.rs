//! Incident response: records security incidents, tracks repeated
//! offenders, and derives automatic response actions from per-type
//! rules.

use vstd::prelude::*;

use crate::platform::{fresh_id, now_seconds};

verus! {

/// What kind of incident was detected.
#[derive(Debug, Clone, Copy, PartialEq, Eq, Structural, Hash)]
pub enum IncidentType {
    UnauthorizedAccess,
    SuspiciousTransaction,
    PotentialMarketManipulation,
    ConfigurationChange,
    SystemResourceExhaustion,
}

/// How grave an incident is.
#[derive(Debug, Clone, Copy, PartialEq, Eq, Structural)]
pub enum IncidentSeverity {
    Low,
    Medium,
    High,
    Critical,
}

/// An automatic response the system may take.
#[derive(Debug, Clone, Copy, PartialEq, Eq, Structural)]
pub enum ResponseAction {
    BlockUser,
    FreezeMarket,
    TriggerSystemWide2FA,
    RequireAdditionalVerification,
    NotifySecurityTeam,
    TemporarilyDisableFeatures,
    LockAccount,
    InitiateForensicAnalysis,
}

/// Where an incident stands in its lifecycle.
#[derive(Debug, Clone, Copy, PartialEq, Eq, Structural)]
pub enum IncidentStatus {
    Detected,
    Investigating,
    Mitigated,
    Escalated,
    Resolved,
}

/// One recorded incident.
#[derive(Debug)]
pub struct IncidentRecord {
    pub id: u128,
    pub incident_type: IncidentType,
    pub severity: IncidentSeverity,
    /// Unix timestamp in seconds.
    pub timestamp: i64,
    pub user_id: Option<String>,
    pub source_ip: Option<String>,
    pub details: Option<String>,
    pub response_actions: Vec<ResponseAction>,
    pub status: IncidentStatus,
}

/// The automatic response configured for one incident type.
#[derive(Debug)]
pub struct ResponseRuleSet {
    /// How many incidents a user may accumulate before the actions
    /// fire.
    pub severity_threshold: usize,
    pub actions: Vec<ResponseAction>,
    /// Cooldown before the rule may fire again, in seconds.
    pub cooldown_seconds: u64,
}

/// A declarative rule pairing an incident type with the threshold and
/// actions of its automatic response.
#[derive(Debug)]
pub struct IncidentResponseRule {
    pub incident_type: IncidentType,
    pub severity_threshold: u8,
    pub required_actions: Vec<ResponseAction>,
}

/// Index of the first rule for this incident type, or -1.
pub open spec fn rule_index(rules: Seq<(IncidentType, ResponseRuleSet)>, ty: IncidentType) -> int
    decreases rules.len(),
{
    if rules.len() == 0 {
        -1
    } else if rules[0].0 == ty {
        0
    } else {
        let r = rule_index(rules.drop_first(), ty);
        if r < 0 {
            -1
        } else {
            r + 1
        }
    }
}

/// Index of the first counter entry for this key, or -1.
pub open spec fn count_index(counts: Seq<(String, usize)>, key: Seq<char>) -> int
    decreases counts.len(),
{
    if counts.len() == 0 {
        -1
    } else if counts[0].0@ == key {
        0
    } else {
        let r = count_index(counts.drop_first(), key);
        if r < 0 {
            -1
        } else {
            r + 1
        }
    }
}

/// How many incidents the manager has counted against this key.
pub open spec fn count_value(counts: Seq<(String, usize)>, key: Seq<char>) -> int {
    let i = count_index(counts, key);
    if i >= 0 {
        counts[i].1 as int
    } else {
        0
    }
}

/// The user key an incident is counted under: the user id, or the
/// empty string when none was reported.
pub open spec fn user_key(user_id: Option<String>) -> Seq<char> {
    match user_id {
        Some(u) => u@,
        None => Seq::empty(),
    }
}

proof fn lemma_rule_index_found(rules: Seq<(IncidentType, ResponseRuleSet)>, ty: IncidentType, i: int)
    requires
        0 <= i < rules.len(),
        forall|k: int| 0 <= k < i ==> (#[trigger] rules[k].0) != ty,
        rules[i].0 == ty,
    ensures
        rule_index(rules, ty) == i,
    decreases i,
{
    if i > 0 {
        lemma_rule_index_found(rules.drop_first(), ty, i - 1);
    }
}

proof fn lemma_rule_index_missing(rules: Seq<(IncidentType, ResponseRuleSet)>, ty: IncidentType)
    requires
        forall|k: int| 0 <= k < rules.len() ==> (#[trigger] rules[k].0) != ty,
    ensures
        rule_index(rules, ty) == -1,
    decreases rules.len(),
{
    if rules.len() > 0 {
        lemma_rule_index_missing(rules.drop_first(), ty);
    }
}

proof fn lemma_count_index_found(counts: Seq<(String, usize)>, key: Seq<char>, i: int)
    requires
        0 <= i < counts.len(),
        forall|k: int| 0 <= k < i ==> (#[trigger] counts[k].0@) != key,
        counts[i].0@ == key,
    ensures
        count_index(counts, key) == i,
    decreases i,
{
    if i > 0 {
        lemma_count_index_found(counts.drop_first(), key, i - 1);
    }
}

proof fn lemma_count_index_missing(counts: Seq<(String, usize)>, key: Seq<char>)
    requires
        forall|k: int| 0 <= k < counts.len() ==> (#[trigger] counts[k].0@) != key,
    ensures
        count_index(counts, key) == -1,
    decreases counts.len(),
{
    if counts.len() > 0 {
        lemma_count_index_missing(counts.drop_first(), key);
    }
}

/// Index of the first incident with this id, or -1.
pub open spec fn incident_index(s: Seq<IncidentRecord>, id: u128) -> int
    decreases s.len(),
{
    if s.len() == 0 {
        -1
    } else if s[0].id == id {
        0
    } else {
        let r = incident_index(s.drop_first(), id);
        if r < 0 {
            -1
        } else {
            r + 1
        }
    }
}

proof fn lemma_incident_index_found(s: Seq<IncidentRecord>, id: u128, i: int)
    requires
        0 <= i < s.len(),
        forall|k: int| 0 <= k < i ==> (#[trigger] s[k].id) != id,
        s[i].id == id,
    ensures
        incident_index(s, id) == i,
    decreases i,
{
    if i > 0 {
        lemma_incident_index_found(s.drop_first(), id, i - 1);
    }
}

proof fn lemma_incident_index_missing(s: Seq<IncidentRecord>, id: u128)
    requires
        forall|k: int| 0 <= k < s.len() ==> (#[trigger] s[k].id) != id,
    ensures
        incident_index(s, id) == -1,
    decreases s.len(),
{
    if s.len() > 0 {
        lemma_incident_index_missing(s.drop_first(), id);
    }
}

/// What `record_incident_at` promises of the new record and the
/// strike counters.
pub open spec fn recorded_post(
    pre: IncidentResponseManager,
    post: IncidentResponseManager,
    incident_type: IncidentType,
    severity: IncidentSeverity,
    user_id: Option<String>,
    source_ip: Option<String>,
    details: Option<String>,
    id: u128,
    now: int,
) -> bool {
    let rec = post.incident_history@.last();
    let rules = pre.response_rules@;
    let counts = pre.user_incident_count@;
    let ri = rule_index(rules, incident_type);
    &&& rec.id == id
    &&& rec.incident_type == incident_type
    &&& rec.severity == severity
    &&& rec.timestamp == now
    &&& rec.user_id == user_id
    &&& rec.source_ip == source_ip
    &&& rec.details == details
    &&& rec.status is Detected
    &&& (ri < 0 ==> rec.response_actions@.len() == 0 && post.user_incident_count@ == counts)
    &&& (ri >= 0 ==> {
        let newcount = count_value(counts, user_key(user_id)) + 1;
        &&& count_value(post.user_incident_count@, user_key(user_id)) == newcount
        &&& rec.response_actions@ == (if newcount >= rules[ri].1.severity_threshold {
            rules[ri].1.actions@
        } else {
            Seq::<ResponseAction>::empty()
        })
    })
}

/// Two incident records agree on every field (the action list by its
/// contents).
pub open spec fn record_matches(a: IncidentRecord, b: IncidentRecord) -> bool {
    &&& a.id == b.id
    &&& a.incident_type == b.incident_type
    &&& a.severity == b.severity
    &&& a.timestamp == b.timestamp
    &&& a.user_id == b.user_id
    &&& a.source_ip == b.source_ip
    &&& a.details == b.details
    &&& a.response_actions@ == b.response_actions@
    &&& a.status == b.status
}

/// Copies an action list element by element.
#[verifier::loop_isolation(false)]
fn copy_actions(v: &Vec<ResponseAction>) -> (r: Vec<ResponseAction>)
    ensures
        r@ == v@,
{
    let mut out: Vec<ResponseAction> = Vec::new();
    let mut i: usize = 0;
    while i < v.len()
        invariant
            i <= v@.len(),
            out@ == v@.take(i as int),
        decreases v@.len() - i,
    {
        out.push(v[i]);
        proof {
            assert(out@ =~= v@.take(i as int + 1));
        }
        i = i + 1;
    }
    proof {
        assert(v@.take(v@.len() as int) =~= v@);
    }
    out
}

/// Copies an optional string, keeping its exact value.
fn copy_opt_string(o: &Option<String>) -> (r: Option<String>)
    ensures
        r == *o,
{
    match o {
        Some(s) => Some(s.clone()),
        None => None,
    }
}

/// Copies an incident record field by field.
fn duplicate_record(e: &IncidentRecord) -> (r: IncidentRecord)
    ensures
        record_matches(r, *e),
{
    IncidentRecord {
        id: e.id,
        incident_type: e.incident_type,
        severity: e.severity,
        timestamp: e.timestamp,
        user_id: copy_opt_string(&e.user_id),
        source_ip: copy_opt_string(&e.source_ip),
        details: copy_opt_string(&e.details),
        response_actions: copy_actions(&e.response_actions),
        status: e.status,
    }
}

/// What `execute_response_actions` promises of the active list: the
/// incident with the given id, if any, is mitigated in place.
pub open spec fn mitigated_post(
    pre: Seq<IncidentRecord>,
    post: Seq<IncidentRecord>,
    incident_id: u128,
) -> bool {
    let idx = incident_index(pre, incident_id);
    &&& (idx < 0 ==> post == pre)
    &&& (idx >= 0 ==> {
        &&& forall|k: int| 0 <= k < pre.len() && k != idx ==> #[trigger] post[k] == pre[k]
        &&& post[idx].status is Mitigated
        &&& post[idx].id == pre[idx].id
    })
}

/// Records incidents, tracks repeat offenders, and derives response
/// actions.  (Action delivery — notifying teams, blocking accounts —
/// happens at the I/O boundary; this core only decides and records.)
pub struct IncidentResponseManager {
    /// Incidents still being handled, in arrival order.
    pub active_incidents: Vec<IncidentRecord>,
    /// Every incident ever recorded, in arrival order.
    pub incident_history: Vec<IncidentRecord>,
    /// Automatic response rules, one per incident type at most.
    pub response_rules: Vec<(IncidentType, ResponseRuleSet)>,
    /// How many incidents each user key has accumulated.
    pub user_incident_count: Vec<(String, usize)>,
}

impl IncidentResponseManager {
    pub fn new() -> (r: Self)
        ensures
            r.active_incidents@.len() == 0,
            r.incident_history@.len() == 0,
            r.user_incident_count@.len() == 0,
            r.response_rules@.len() == 2,
            r.response_rules@[0].0 == IncidentType::UnauthorizedAccess,
            r.response_rules@[0].1.severity_threshold == 3,
            r.response_rules@[1].0 == IncidentType::SuspiciousTransaction,
            r.response_rules@[1].1.severity_threshold == 2,
    {
        IncidentResponseManager {
            active_incidents: Vec::new(),
            incident_history: Vec::new(),
            response_rules: Self::default_response_rules(),
            user_incident_count: Vec::new(),
        }
    }

    /// The default rules: unauthorized access fires after three
    /// strikes, suspicious transactions after two.
    pub fn default_response_rules() -> (r: Vec<(IncidentType, ResponseRuleSet)>)
        ensures
            r@.len() == 2,
            r@[0].0 == IncidentType::UnauthorizedAccess,
            r@[0].1.severity_threshold == 3,
            r@[0].1.actions@ == seq![
                ResponseAction::BlockUser,
                ResponseAction::TriggerSystemWide2FA,
                ResponseAction::NotifySecurityTeam,
            ],
            r@[1].0 == IncidentType::SuspiciousTransaction,
            r@[1].1.severity_threshold == 2,
            r@[1].1.actions@ == seq![
                ResponseAction::FreezeMarket,
                ResponseAction::RequireAdditionalVerification,
                ResponseAction::InitiateForensicAnalysis,
            ],
    {
        let mut unauthorized: Vec<ResponseAction> = Vec::new();
        unauthorized.push(ResponseAction::BlockUser);
        unauthorized.push(ResponseAction::TriggerSystemWide2FA);
        unauthorized.push(ResponseAction::NotifySecurityTeam);
        let mut suspicious: Vec<ResponseAction> = Vec::new();
        suspicious.push(ResponseAction::FreezeMarket);
        suspicious.push(ResponseAction::RequireAdditionalVerification);
        suspicious.push(ResponseAction::InitiateForensicAnalysis);
        let mut rules: Vec<(IncidentType, ResponseRuleSet)> = Vec::new();
        rules.push(
            (
                IncidentType::UnauthorizedAccess,
                ResponseRuleSet {
                    severity_threshold: 3,
                    actions: unauthorized,
                    cooldown_seconds: 24 * 3600,
                },
            ),
        );
        rules.push(
            (
                IncidentType::SuspiciousTransaction,
                ResponseRuleSet {
                    severity_threshold: 2,
                    actions: suspicious,
                    cooldown_seconds: 12 * 3600,
                },
            ),
        );
        proof {
            assert(rules@[0].1.actions@ =~= seq![
                ResponseAction::BlockUser,
                ResponseAction::TriggerSystemWide2FA,
                ResponseAction::NotifySecurityTeam,
            ]);
            assert(rules@[1].1.actions@ =~= seq![
                ResponseAction::FreezeMarket,
                ResponseAction::RequireAdditionalVerification,
                ResponseAction::InitiateForensicAnalysis,
            ]);
        }
        rules
    }

    /// Records one incident under the given fresh id and clock
    /// reading, and returns the id.  If a rule covers the incident
    /// type, the user's strike count grows by one, and reaching the
    /// rule's threshold attaches its actions to the record.
    #[verifier::loop_isolation(false)]
    pub fn record_incident_at(
        &mut self,
        incident_type: IncidentType,
        severity: IncidentSeverity,
        user_id: Option<String>,
        source_ip: Option<String>,
        details: Option<String>,
        id: u128,
        now: i64,
    ) -> (r: u128)
        requires
            count_value(old(self).user_incident_count@, user_key(user_id)) < usize::MAX,
        ensures
            r == id,
            final(self).response_rules@ == old(self).response_rules@,
            final(self).active_incidents@.len() == old(self).active_incidents@.len() + 1,
            final(self).incident_history@.len() == old(self).incident_history@.len() + 1,
            forall|i: int|
                0 <= i < old(self).active_incidents@.len()
                    ==> #[trigger] final(self).active_incidents@[i]
                    == old(self).active_incidents@[i],
            forall|i: int|
                0 <= i < old(self).incident_history@.len()
                    ==> #[trigger] final(self).incident_history@[i]
                    == old(self).incident_history@[i],
            record_matches(
                final(self).active_incidents@.last(),
                final(self).incident_history@.last(),
            ),
            recorded_post(
                *old(self),
                *final(self),
                incident_type,
                severity,
                user_id,
                source_ip,
                details,
                id,
                now as int,
            ),
    {
        let ghost rules0 = self.response_rules@;
        let ghost counts0 = self.user_incident_count@;

        // Find the rule covering this incident type.
        let mut ri: usize = 0;
        let mut rule_found = false;
        while ri < self.response_rules.len() && !rule_found
            invariant
                ri <= self.response_rules@.len(),
                forall|k: int| 0 <= k < ri ==> (#[trigger] self.response_rules@[k].0)
                    != incident_type,
                rule_found ==> ri < self.response_rules@.len() && self.response_rules@[
                    ri as int].0 == incident_type,
                *self == *old(self),
            decreases self.response_rules@.len() - ri + (if rule_found { 0int } else { 1int }),
        {
            if self.response_rules[ri].0 == incident_type {
                rule_found = true;
            } else {
                ri = ri + 1;
            }
        }
        proof {
            if rule_found {
                lemma_rule_index_found(rules0, incident_type, ri as int);
            } else {
                lemma_rule_index_missing(rules0, incident_type);
            }
        }

        let mut response_actions: Vec<ResponseAction> = Vec::new();
        if rule_found {
            // One more strike for this user key.
            let key = match &user_id {
                Some(u) => u.clone(),
                None => String::new(),
            };
            assert(key@ == user_key(user_id));
            let mut ci: usize = 0;
            let mut count_found = false;
            while ci < self.user_incident_count.len() && !count_found
                invariant
                    ci <= self.user_incident_count@.len(),
                    forall|k: int| 0 <= k < ci ==> (#[trigger] self.user_incident_count@[k].0@)
                        != key@,
                    count_found ==> ci < self.user_incident_count@.len()
                        && self.user_incident_count@[ci as int].0@ == key@,
                    *self == *old(self),
                decreases self.user_incident_count@.len() - ci + (if count_found {
                    0int
                } else {
                    1int
                }),
            {
                if self.user_incident_count[ci].0.eq(&key) {
                    count_found = true;
                } else {
                    ci = ci + 1;
                }
            }
            let newcount: usize;
            if count_found {
                proof {
                    lemma_count_index_found(counts0, key@, ci as int);
                }
                let old_count = self.user_incident_count[ci].1;
                newcount = old_count + 1;
                let mut entry = self.user_incident_count.remove(ci);
                entry.1 = newcount;
                self.user_incident_count.insert(ci, entry);
                proof {
                    assert forall|k: int|
                        0 <= k < ci implies (#[trigger] self.user_incident_count@[k].0@)
                        != key@ by {
                        assert(self.user_incident_count@[k] == counts0[k]);
                    }
                    lemma_count_index_found(self.user_incident_count@, key@, ci as int);
                }
            } else {
                proof {
                    lemma_count_index_missing(counts0, key@);
                }
                newcount = 1;
                let ghost pre_counts = self.user_incident_count@;
                self.user_incident_count.push((key, 1));
                proof {
                    assert forall|k: int|
                        0 <= k < ci implies (#[trigger] self.user_incident_count@[k].0@)
                        != user_key(user_id) by {
                        assert(self.user_incident_count@[k] == counts0[k]);
                    }
                    assert(self.user_incident_count@[ci as int].0@ == user_key(user_id));
                    lemma_count_index_found(self.user_incident_count@, user_key(user_id), ci as int);
                }
            }
            if newcount >= self.response_rules[ri].1.severity_threshold {
                response_actions = copy_actions(&self.response_rules[ri].1.actions);
            }
        }

        proof {
            if response_actions@.len() == 0 {
                assert(response_actions@ =~= Seq::<ResponseAction>::empty());
            }
        }
        let incident = IncidentRecord {
            id,
            incident_type,
            severity,
            timestamp: now,
            user_id,
            source_ip,
            details,
            response_actions,
            status: IncidentStatus::Detected,
        };
        let duplicate = duplicate_record(&incident);
        self.active_incidents.push(incident);
        self.incident_history.push(duplicate);
        id
    }

    /// Records one incident with a fresh random identifier and the
    /// current wall clock; both are outside the caller's control, so
    /// the contract holds for some identifier and clock reading.
    pub fn record_incident(
        &mut self,
        incident_type: IncidentType,
        severity: IncidentSeverity,
        user_id: Option<String>,
        source_ip: Option<String>,
        details: Option<String>,
    ) -> (r: u128)
        requires
            count_value(old(self).user_incident_count@, user_key(user_id)) < usize::MAX,
        ensures
            final(self).active_incidents@.len() == old(self).active_incidents@.len() + 1,
            final(self).incident_history@.len() == old(self).incident_history@.len() + 1,
            final(self).active_incidents@.last().id == r,
            final(self).incident_history@.last().id == r,
            final(self).incident_history@.last().incident_type == incident_type,
            final(self).incident_history@.last().severity == severity,
            final(self).incident_history@.last().status is Detected,
    {
        let id = fresh_id();
        let now = now_seconds();
        self.record_incident_at(incident_type, severity, user_id, source_ip, details, id, now)
    }

    /// Looks up an active incident by id.
    #[verifier::loop_isolation(false)]
    pub fn get_incident_details(&self, incident_id: u128) -> (r: Option<IncidentRecord>)
        ensures
            r is Some <==> incident_index(self.active_incidents@, incident_id) >= 0,
            r is Some ==> record_matches(
                r->0,
                self.active_incidents@[incident_index(self.active_incidents@, incident_id)],
            ),
    {
        let mut i: usize = 0;
        while i < self.active_incidents.len()
            invariant
                i <= self.active_incidents@.len(),
                forall|k: int| 0 <= k < i ==> (#[trigger] self.active_incidents@[k].id)
                    != incident_id,
            decreases self.active_incidents@.len() - i,
        {
            if self.active_incidents[i].id == incident_id {
                proof {
                    lemma_incident_index_found(self.active_incidents@, incident_id, i as int);
                }
                return Some(duplicate_record(&self.active_incidents[i]));
            }
            i = i + 1;
        }
        proof {
            lemma_incident_index_missing(self.active_incidents@, incident_id);
        }
        None
    }

    /// Marks an active incident as mitigated.  Delivering its response
    /// actions to the outside world is the caller's task at the I/O
    /// boundary.
    #[verifier::loop_isolation(false)]
    pub fn execute_response_actions(&mut self, incident_id: u128)
        ensures
            final(self).incident_history@ == old(self).incident_history@,
            final(self).response_rules@ == old(self).response_rules@,
            final(self).user_incident_count@ == old(self).user_incident_count@,
            final(self).active_incidents@.len() == old(self).active_incidents@.len(),
            mitigated_post(old(self).active_incidents@, final(self).active_incidents@, incident_id),
    {
        let ghost pre = self.active_incidents@;
        let mut i: usize = 0;
        while i < self.active_incidents.len()
            invariant
                i <= self.active_incidents@.len(),
                forall|k: int| 0 <= k < i ==> (#[trigger] self.active_incidents@[k].id)
                    != incident_id,
                *self == *old(self),
            decreases self.active_incidents@.len() - i,
        {
            if self.active_incidents[i].id == incident_id {
                proof {
                    lemma_incident_index_found(pre, incident_id, i as int);
                }
                let mut rec = self.active_incidents.remove(i);
                rec.status = IncidentStatus::Mitigated;
                self.active_incidents.insert(i, rec);
                proof {
                    assert(final(self).active_incidents@ =~= pre.update(
                        i as int,
                        final(self).active_incidents@[i as int],
                    ));
                }
                return ;
            }
            i = i + 1;
        }
        proof {
            lemma_incident_index_missing(pre, incident_id);
        }
    }

    /// The most recent incidents, newest first, at most `limit`.
    #[verifier::loop_isolation(false)]
    pub fn get_recent_incidents(&self, limit: usize) -> (r: Vec<IncidentRecord>)
        ensures
            r@.len() == if limit < self.incident_history@.len() {
                limit as int
            } else {
                self.incident_history@.len() as int
            },
            forall|i: int|
                0 <= i < r@.len() ==> record_matches(
                    #[trigger] r@[i],
                    self.incident_history@[self.incident_history@.len() - 1 - i],
                ),
    {
        let mut out: Vec<IncidentRecord> = Vec::new();
        let n = self.incident_history.len();
        let count = if limit < n {
            limit
        } else {
            n
        };
        let mut i: usize = 0;
        while i < count
            invariant
                i <= count,
                count <= n,
                n == self.incident_history@.len(),
                out@.len() == i,
                forall|k: int|
                    0 <= k < i ==> record_matches(
                        #[trigger] out@[k],
                        self.incident_history@[n - 1 - k],
                    ),
            decreases count - i,
        {
            let e = duplicate_record(&self.incident_history[n - 1 - i]);
            out.push(e);
            i = i + 1;
        }
        out
    }
}

} // verus!
