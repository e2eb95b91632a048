//! Scheduled cleanup rules and the cycle that decides which of them run.
use vstd::prelude::*;

verus! {

/// A scheduled cleanup of a channel.
pub struct JanitorRule {
    pub id: String,
    pub channel_id: String,
    pub max_age_days: u32,
    pub interval_hours: u32,
    /// Seconds since the epoch of the last run, if it ever ran.
    pub last_run: Option<i64>,
    pub enabled: bool,
}

/// The background service that runs the rules.
pub struct Janitor;

/// How often the service wakes up, in seconds.
pub const CYCLE_SECONDS: u64 = 3600;

/// The vault entry that holds the rules.
pub const RULES_KEY: &'static str = "janitor_rules";

/// When a rule last ran (0 when it never did).
pub open spec fn last_run_of(rule: JanitorRule) -> int {
    match rule.last_run {
        Some(t) => t as int,
        None => 0,
    }
}

/// Whether a rule is due at a time: it is enabled and its interval has
/// passed since it last ran.
pub open spec fn rule_due(rule: JanitorRule, now: i64) -> bool {
    rule.enabled && now - last_run_of(rule) >= rule.interval_hours * 3600
}

/// A rule after it ran at a time: the same rule, last run then.
pub open spec fn ran_at(before: JanitorRule, after: JanitorRule, now: i64) -> bool {
    &&& after.id == before.id
    &&& after.channel_id == before.channel_id
    &&& after.max_age_days == before.max_age_days
    &&& after.interval_hours == before.interval_hours
    &&& after.enabled == before.enabled
    &&& after.last_run == Some(now)
}

/// What a cycle at a time does to one rule: a due rule runs, others stay.
pub open spec fn cycle_step(before: JanitorRule, after: JanitorRule, now: i64) -> bool {
    if rule_due(before, now) {
        ran_at(before, after, now)
    } else {
        after == before
    }
}

impl Janitor {
    /// Whether a rule is due at a time.
    pub fn is_due(rule: &JanitorRule, now: i64) -> (r: bool)
        ensures
            r == rule_due(*rule, now),
    {
        if !rule.enabled {
            return false;
        }
        let last: i64 = match rule.last_run {
            Some(t) => t,
            None => 0,
        };
        let elapsed: i128 = now as i128 - last as i128;
        let interval: i128 = rule.interval_hours as i128 * 3600;
        elapsed >= interval
    }

    /// One maintenance cycle at a time: every due rule runs and records the
    /// time; the others are left as they are. Returns whether any rule ran.
    pub fn run_cycle(rules: &mut Vec<JanitorRule>, now: i64) -> (updated: bool)
        ensures
            final(rules)@.len() == old(rules)@.len(),
            forall|i: int| 0 <= i < old(rules)@.len() ==> cycle_step(
                #[trigger] old(rules)@[i],
                final(rules)@[i],
                now,
            ),
            updated == exists|i: int| 0 <= i < old(rules)@.len() && rule_due(#[trigger] old(rules)@[i], now),
    {
        let ghost start = rules@;
        let mut updated = false;
        let mut i: usize = 0;
        while i < rules.len()
            invariant
                rules@.len() == start.len(),
                i <= start.len(),
                forall|k: int| 0 <= k < i ==> cycle_step(#[trigger] start[k], rules@[k], now),
                forall|k: int| i <= k < start.len() ==> #[trigger] rules@[k] == start[k],
                updated == exists|k: int| 0 <= k < i && rule_due(#[trigger] start[k], now),
            decreases start.len() - i,
        {
            if Self::is_due(&rules[i], now) {
                let rule = &mut rules[i];
                rule.last_run = Some(now);
                updated = true;
            }
            proof {
                assert(cycle_step(start[i as int], rules@[i as int], now));
            }
            i += 1;
        }
        updated
    }
}

/// A second cycle at the same time runs nothing, when every enabled rule
/// waits a positive number of hours between runs.
pub proof fn lemma_cycle_settles(
    before: Seq<JanitorRule>,
    after: Seq<JanitorRule>,
    now: i64,
)
    requires
        after.len() == before.len(),
        forall|i: int| 0 <= i < before.len() ==> cycle_step(#[trigger] before[i], after[i], now),
        forall|i: int| 0 <= i < before.len() && (#[trigger] before[i]).enabled ==> before[i].interval_hours > 0,
    ensures
        forall|i: int| 0 <= i < after.len() ==> !rule_due(#[trigger] after[i], now),
{
    assert forall|i: int| 0 <= i < after.len() implies !rule_due(#[trigger] after[i], now) by {
        assert(cycle_step(before[i], after[i], now));
        if rule_due(before[i], now) {
            assert(last_run_of(after[i]) == now);
        } else {
            assert(after[i] == before[i]);
        }
    }
}

} // verus!
