//! Admission rules for the mining entry point: a shared counter store with a
//! configured window and limit, and an in-process fallback whose window and
//! threshold are fixed. The two are not reconciled; a client may see either
//! policy depending on which store answered.

use vstd::prelude::*;

verus! {

/// Window of the in-process fallback counter, in milliseconds.
pub const FALLBACK_WINDOW_MS: u64 = 60000;

/// The fallback lets through at most this many requests per window.
pub const FALLBACK_LIMIT: u64 = 10;

/// Window of the shared store when none is configured, in seconds.
pub const DEFAULT_RATE_WINDOW_SECS: u64 = 60;

/// Limit of the shared store when none is configured.
pub const DEFAULT_RATE_LIMIT: u32 = 10;

/// The fallback counter of one client.
#[derive(Debug, Clone, Copy, PartialEq, Eq, Structural)]
pub struct RateWindow {
    /// Requests counted since the window opened.
    pub count: u64,
    /// When the window opened, in milliseconds on a monotonic clock.
    pub window_start_ms: u64,
}

/// What the shared store's counter asks of the caller.
#[derive(Debug, Clone, Copy, PartialEq, Eq, Structural)]
pub struct PrimaryDecision {
    /// The request may proceed.
    pub allow: bool,
    /// This increment opened the window: the key's expiry must be set.
    pub set_expiry: bool,
}

/// The fallback's new counter and verdict for a request at `now_ms`, given
/// the client's counter so far (`None` for a client not seen before).
pub open spec fn fallback_outcome(entry: Option<RateWindow>, now_ms: u64) -> (RateWindow, bool) {
    let e = match entry {
        Some(e) => e,
        None => RateWindow { count: 0, window_start_ms: now_ms },
    };
    let elapsed = if now_ms >= e.window_start_ms {
        now_ms - e.window_start_ms
    } else {
        0
    };
    if elapsed > FALLBACK_WINDOW_MS {
        (RateWindow { count: 1, window_start_ms: now_ms }, true)
    } else {
        (
            RateWindow {
                count: if e.count < u64::MAX {
                    (e.count + 1) as u64
                } else {
                    e.count
                },
                window_start_ms: e.window_start_ms,
            },
            e.count < FALLBACK_LIMIT,
        )
    }
}

/// One step of the in-process fallback: an expired window restarts with
/// this request counted and let through; otherwise the request is counted and
/// let through while the count including it is at most `FALLBACK_LIMIT`.
pub fn fallback_in_memory(entry: Option<RateWindow>, now_ms: u64) -> (r: (RateWindow, bool))
    ensures
        r == fallback_outcome(entry, now_ms),
{
    let e = match entry {
        Some(e) => e,
        None => RateWindow { count: 0, window_start_ms: now_ms },
    };
    let elapsed: u64 = if now_ms >= e.window_start_ms {
        now_ms - e.window_start_ms
    } else {
        0
    };
    if elapsed > FALLBACK_WINDOW_MS {
        return (RateWindow { count: 1, window_start_ms: now_ms }, true);
    }
    let count: u64 = if e.count < u64::MAX {
        e.count + 1
    } else {
        e.count
    };
    (RateWindow { count, window_start_ms: e.window_start_ms }, e.count < FALLBACK_LIMIT)
}

/// The verdict of the shared store on a counter that has just been
/// incremented to `count`: let it through while it does not exceed `limit`, and set
/// the window's expiry on the increment that took it from 0 to 1.
pub fn primary_decision(count: u32, limit: u32) -> (r: PrimaryDecision)
    ensures
        r.allow == (count <= limit),
        r.set_expiry == (count == 1),
{
    PrimaryDecision { allow: count <= limit, set_expiry: count == 1 }
}

} // verus!
