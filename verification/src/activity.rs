//! The activity reconciler's decisions: when a roster refresh is due, and
//! which stored users to mark active or inactive against a roster snapshot.
//! The reconciler only gates leaderboard visibility; it never touches totals,
//! log entries or tier badges.

use chrono::Utc;
use vstd::prelude::*;

verus! {

/// Seconds that must pass between two roster refreshes: two hours.
pub const USER_ACTIVE_STATUS_REFRESH_INTERVAL: i64 = 7200;

/// The singleton bookkeeping row: when the roster was last reconciled.
pub struct Metadata {
    pub last_active_status_refresh: Option<i64>,
}

impl Metadata {
    pub fn new() -> (r: Metadata)
        ensures
            r.last_active_status_refresh is None,
    {
        Metadata { last_active_status_refresh: None }
    }

    pub fn get_last_active_status_refresh(&self) -> (r: Option<i64>)
        ensures
            r == self.last_active_status_refresh,
    {
        self.last_active_status_refresh
    }

    pub fn set_last_active_status_refresh(&mut self, time: i64)
        ensures
            final(self).last_active_status_refresh == Some(time),
    {
        self.last_active_status_refresh = Some(time);
    }
}

/// Whether a refresh is due at `now`: the roster was never reconciled, or
/// more than the refresh interval has elapsed since it was.
pub open spec fn spec_should_refresh(last: Option<i64>, now: int) -> bool {
    match last {
        None => true,
        Some(l) => now - l > USER_ACTIVE_STATUS_REFRESH_INTERVAL,
    }
}

pub fn should_refresh_active_users(last: Option<i64>, now: i64) -> (r: bool)
    ensures
        r == spec_should_refresh(last, now as int),
{
    match last {
        None => true,
        Some(l) => (now as i128) - (l as i128) > USER_ACTIVE_STATUS_REFRESH_INTERVAL as i128,
    }
}

/// Relies on chrono's `Utc::now` and `DateTime::timestamp`: the current time
/// as Unix seconds. Nothing is assumed of the value.
#[verifier::external_body]
fn current_unix_time() -> i64 {
    Utc::now().timestamp()
}

/// Reads the clock and decides whether the roster refresh is due; returns
/// the decision together with the timestamp it was made against, so the
/// caller can persist that same timestamp after reconciling.
pub fn refresh_due(last: Option<i64>) -> (r: (bool, i64))
    ensures
        r.0 == spec_should_refresh(last, r.1 as int),
{
    let now = current_unix_time();
    let due = should_refresh_active_users(last, now);
    (due, now)
}

fn contains_u64(v: &Vec<u64>, x: u64) -> (r: bool)
    ensures
        r == v@.contains(x),
{
    let n = v.len();
    let mut i: usize = 0;
    while i < n
        invariant
            0 <= i <= n,
            n == v@.len(),
            forall|j: int| 0 <= j < i ==> v@[j] != x,
        decreases n - i,
    {
        if v[i] == x {
            return true;
        }
        i = i + 1;
    }
    false
}

/// The active-flag updates for one page of stored users against a roster
/// snapshot: each user is to be marked active exactly when the roster holds
/// them.
pub fn plan_active_status_updates(user_ids: &Vec<u64>, roster: &Vec<u64>) -> (r: Vec<(u64, bool)>)
    ensures
        r@.len() == user_ids@.len(),
        forall|i: int|
            0 <= i < r@.len() ==> (#[trigger] r@[i]).0 == user_ids@[i] && r@[i].1
                == roster@.contains(user_ids@[i]),
{
    let n = user_ids.len();
    let mut r: Vec<(u64, bool)> = Vec::new();
    let mut i: usize = 0;
    while i < n
        invariant
            0 <= i <= n,
            n == user_ids@.len(),
            r@.len() == i,
            forall|j: int|
                0 <= j < i ==> (#[trigger] r@[j]).0 == user_ids@[j] && r@[j].1 == roster@.contains(
                    user_ids@[j],
                ),
        decreases n - i,
    {
        let id = user_ids[i];
        let active = contains_u64(roster, id);
        r.push((id, active));
        i = i + 1;
    }
    r
}

} // verus!
