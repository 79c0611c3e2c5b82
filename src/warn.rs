//! The warn tracker: a per-user counter over a sliding time window that
//! escalates to removal once the count passes the threshold.

use vstd::prelude::*;

verus! {

/// The stored warn state of one user in one group: when the current window
/// began (seconds since the epoch) and how many warnings it holds.
#[derive(Clone, Copy, Debug, PartialEq, Eq, Structural)]
pub struct WarnMark {
    pub first_ts: i64,
    pub count: u32,
}

/// What a warning leads to.
#[derive(Clone, Copy, Debug, PartialEq, Eq, Structural)]
pub enum WarnOutcome {
    /// The user is warned; the mark to store.
    Warned(WarnMark),
    /// The count passed the threshold: the user is removed and the mark deleted.
    Kicked,
}

/// The window of a stored mark has run out at `now`.
pub open spec fn window_elapsed(first_ts: i64, now: i64, window_minutes: u64) -> bool {
    now - first_ts > window_minutes * 60
}

/// The mark that a new warning at `now` counts from: the stored one while
/// its window lasts, else a fresh one that starts now with no warnings.
pub open spec fn live_mark(mark: Option<WarnMark>, now: i64, window_minutes: u64) -> WarnMark {
    match mark {
        Some(m) if !window_elapsed(m.first_ts, now, window_minutes) => m,
        _ => WarnMark { first_ts: now, count: 0 },
    }
}

/// One warning at `now`: the count goes up by one; past `max_count` the user
/// is removed.
pub open spec fn warn_next(
    mark: Option<WarnMark>,
    now: i64,
    window_minutes: u64,
    max_count: u32,
) -> WarnOutcome {
    let m = live_mark(mark, now, window_minutes);
    if m.count + 1 > max_count {
        WarnOutcome::Kicked
    } else {
        WarnOutcome::Warned(WarnMark { first_ts: m.first_ts, count: (m.count + 1) as u32 })
    }
}

/// Apply one warning at time `now` to the stored mark, if any.
pub fn warn_step(mark: Option<WarnMark>, now: i64, window_minutes: u64, max_count: u32) -> (r:
    WarnOutcome)
    ensures
        r == warn_next(mark, now, window_minutes, max_count),
{
    let window: i128 = window_minutes as i128 * 60;
    let m = match mark {
        Some(m) => {
            if now as i128 - m.first_ts as i128 > window {
                WarnMark { first_ts: now, count: 0 }
            } else {
                m
            }
        },
        None => WarnMark { first_ts: now, count: 0 },
    };
    if m.count >= max_count {
        WarnOutcome::Kicked
    } else {
        WarnOutcome::Warned(WarnMark { first_ts: m.first_ts, count: m.count + 1 })
    }
}

/// Relies on `chrono::Utc::now` and `DateTime::timestamp`: the current time
/// in whole seconds since the epoch. Nothing is promised of its value.
#[verifier::external_body]
fn now_seconds() -> (r: i64) {
    chrono::Utc::now().timestamp()
}

/// Apply one warning now. Returns the time read from the clock and the
/// outcome at that time.
pub fn record_warning(mark: Option<WarnMark>, window_minutes: u64, max_count: u32) -> (r: (
    i64,
    WarnOutcome,
))
    ensures
        r.1 == warn_next(mark, r.0, window_minutes, max_count),
{
    let now = now_seconds();
    (now, warn_step(mark, now, window_minutes, max_count))
}

/// A warning that arrives after the window has run out counts as the first
/// of a new window, whatever the stored count was.
pub proof fn lemma_expired_window_restarts(
    m: WarnMark,
    now: i64,
    window_minutes: u64,
    max_count: u32,
)
    requires
        window_elapsed(m.first_ts, now, window_minutes),
        max_count >= 1,
    ensures
        warn_next(Some(m), now, window_minutes, max_count) == WarnOutcome::Warned(
            WarnMark { first_ts: now, count: 1 },
        ),
{
}

/// With a threshold of three, warnings at `t0 <= t1 <= t2 <= t3` that all
/// fall within the window that starts at `t0` leave the user warned with
/// counts 1, 2 and 3, and the fourth removes the user.
pub proof fn lemma_three_warnings_then_removal(
    t0: i64,
    t1: i64,
    t2: i64,
    t3: i64,
    window_minutes: u64,
)
    requires
        t0 <= t1 <= t2 <= t3,
        t3 - t0 <= window_minutes * 60,
    ensures
        warn_next(None, t0, window_minutes, 3) == WarnOutcome::Warned(
            WarnMark { first_ts: t0, count: 1 },
        ),
        warn_next(Some(WarnMark { first_ts: t0, count: 1 }), t1, window_minutes, 3)
            == WarnOutcome::Warned(WarnMark { first_ts: t0, count: 2 }),
        warn_next(Some(WarnMark { first_ts: t0, count: 2 }), t2, window_minutes, 3)
            == WarnOutcome::Warned(WarnMark { first_ts: t0, count: 3 }),
        warn_next(Some(WarnMark { first_ts: t0, count: 3 }), t3, window_minutes, 3)
            == WarnOutcome::Kicked,
{
}

} // verus!
