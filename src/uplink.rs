//! The media worker's uplink to the signaling server: registration on
//! connect and the reconnection schedule.

use vstd::prelude::*;
use crate::signaling_msgs::{SignalingMessage, SignalingView};

verus! {

/// Delay before the first reconnection attempt.
pub const INITIAL_BACKOFF_MS: u64 = 1000;

/// Longest delay between reconnection attempts.
pub const MAX_BACKOFF_MS: u64 = 30000;

/// Largest jitter, in thousandths of the delay, either way.
pub const MAX_JITTER_PERMILLE: i64 = 200;

/// The delay before attempt `attempt` (from zero) without jitter: doubling
/// from the initial delay up to the cap.
pub open spec fn backoff_base(attempt: nat) -> int
    decreases attempt,
{
    if attempt == 0 {
        INITIAL_BACKOFF_MS as int
    } else {
        let prev = 2 * backoff_base((attempt - 1) as nat);
        if prev < MAX_BACKOFF_MS {
            prev
        } else {
            MAX_BACKOFF_MS as int
        }
    }
}

proof fn lemma_backoff_bounds(attempt: nat)
    ensures
        INITIAL_BACKOFF_MS <= backoff_base(attempt) <= MAX_BACKOFF_MS,
    decreases attempt,
{
    if attempt > 0 {
        lemma_backoff_bounds((attempt - 1) as nat);
    }
}

/// The delay in milliseconds before reconnection attempt `attempt`, with
/// `jitter_permille` thousandths of it added (negative: taken away).
pub fn reconnect_delay_ms(attempt: u32, jitter_permille: i64) -> (r: u64)
    requires
        -MAX_JITTER_PERMILLE <= jitter_permille <= MAX_JITTER_PERMILLE,
    ensures
        r == if jitter_permille >= 0 {
            backoff_base(attempt as nat) + backoff_base(attempt as nat) * jitter_permille / 1000
        } else {
            backoff_base(attempt as nat) - backoff_base(attempt as nat) * (-jitter_permille) / 1000
        },
{
    let mut base: u64 = INITIAL_BACKOFF_MS;
    let mut k: u32 = 0;
    while k < attempt
        invariant
            k <= attempt,
            base == backoff_base(k as nat),
        decreases attempt - k,
    {
        proof {
            lemma_backoff_bounds(k as nat);
        }
        base = if 2 * base < MAX_BACKOFF_MS {
            2 * base
        } else {
            MAX_BACKOFF_MS
        };
        k = k + 1;
    }
    proof {
        lemma_backoff_bounds(attempt as nat);
    }
    let j: u64 = if jitter_permille >= 0 {
        jitter_permille as u64
    } else {
        (-jitter_permille) as u64
    };
    assert(base * j <= 30000 * 200) by (nonlinear_arith)
        requires base <= 30000, j <= 200;
    assert(base * j / 1000 <= base) by (nonlinear_arith)
        requires j <= 200;
    if jitter_permille >= 0 {
        base + base * j / 1000
    } else {
        base - base * j / 1000
    }
}

/// The registration a worker sends when its uplink connects.
pub fn register_message(server_id: &String) -> (r: SignalingMessage)
    ensures
        r@ == (SignalingView::ServerRegister { server_id: server_id@ }),
{
    SignalingMessage::ServerRegister { server_id: server_id.clone() }
}

/// Whether a frame from the signaling server acknowledges the registration
/// of `server_id`.
pub fn is_registration_ack(msg: &SignalingMessage, server_id: &String) -> (r: bool)
    ensures
        r == (msg@ == (SignalingView::ServerRegistered { server_id: server_id@ })),
{
    match msg {
        SignalingMessage::ServerRegistered { server_id: s } => s.eq(server_id),
        _ => false,
    }
}

} // verus!
