//! Reconnect backoff policy for the database listener: capped exponential
//! delays, starting at 100 ms and doubling up to a 10 s ceiling.

use vstd::prelude::*;

verus! {

/// First delay after a connection loss, in milliseconds.
pub const BACKOFF_START_MS: u64 = 100;

/// Largest delay ever waited between reconnect attempts, in milliseconds.
pub const BACKOFF_CAP_MS: u64 = 10_000;

/// The delay to wait after the next failed reconnect attempt: twice the
/// current delay, capped at `BACKOFF_CAP_MS`.
pub fn next_backoff_ms(current_ms: u64) -> (r: u64)
    requires
        BACKOFF_START_MS <= current_ms <= BACKOFF_CAP_MS,
    ensures
        r == if 2 * current_ms <= BACKOFF_CAP_MS { 2 * current_ms } else { BACKOFF_CAP_MS as int },
        BACKOFF_START_MS <= r <= BACKOFF_CAP_MS,
        r >= current_ms,
{
    if current_ms <= BACKOFF_CAP_MS / 2 {
        2 * current_ms
    } else {
        BACKOFF_CAP_MS
    }
}

/// Starting from the initial delay, the delay reaches the cap after at most
/// seven doublings; so the listener is retrying at the full 10 s period a
/// bounded number of attempts after any connection loss.
pub proof fn lemma_backoff_reaches_cap()
    ensures
        backoff_iter(7) == BACKOFF_CAP_MS,
{
    reveal_with_fuel(backoff_iter, 8);
}

/// The delay after `n` failed reconnect attempts.
pub open spec fn backoff_iter(n: nat) -> int
    decreases n,
{
    if n == 0 {
        BACKOFF_START_MS as int
    } else {
        let prev = backoff_iter((n - 1) as nat);
        if 2 * prev <= BACKOFF_CAP_MS { 2 * prev } else { BACKOFF_CAP_MS as int }
    }
}

} // verus!
