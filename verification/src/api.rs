//! The read-only status surface: the snapshot it serves, the request and
//! response shapes, and the share key shown in the desktop window.

use vstd::prelude::*;

verus! {

/// What the agent reports about itself. The counters mirror the executor's,
/// which only ever grow.
pub struct NodeStatus {
    pub connected: bool,
    pub orchestrator_url: Option<String>,
    pub current_jobs: u32,
    pub total_jobs_completed: u64,
    pub total_earnings_cents: u64,
    pub uptime_seconds: u64,
}

/// The snapshot served while the agent runs: field for field what the
/// session and executor hold at that moment.
pub fn status_snapshot(connected: bool, orchestrator_url: Option<String>, current_jobs: u32,
    total_jobs_completed: u64, total_earnings_cents: u64, uptime_seconds: u64)
    -> (s: NodeStatus)
    ensures
        s.connected == connected,
        s.orchestrator_url == orchestrator_url,
        s.current_jobs == current_jobs,
        s.total_jobs_completed == total_jobs_completed,
        s.total_earnings_cents == total_earnings_cents,
        s.uptime_seconds == uptime_seconds,
{
    NodeStatus {
        connected,
        orchestrator_url,
        current_jobs,
        total_jobs_completed,
        total_earnings_cents,
        uptime_seconds,
    }
}

pub struct HealthResponse {
    pub status: String,
    pub version: String,
    pub mode: String,
}

/// The health reply: always healthy on a running agent, with the build's
/// version and mode.
pub fn health_response(version: &str, mode: &str) -> (r: HealthResponse)
    ensures
        r.status@ == "healthy"@,
        r.version@ == version@,
        r.mode@ == mode@,
{
    HealthResponse {
        status: String::from_str("healthy"),
        version: version.to_owned(),
        mode: mode.to_owned(),
    }
}

pub struct ErrorResponse {
    pub error: String,
}

pub struct PullModelRequest {
    pub name: String,
}

pub struct DeleteModelRequest {
    pub name: String,
}

pub struct AddContentRequest {
    pub content: String,
}

pub struct GpuRentRequest {
    pub offer_id: u64,
    pub image: Option<String>,
    pub disk: Option<u64>,
}

// ---------------------------------------------------------------------------
// Share key
// ---------------------------------------------------------------------------

/// The eight characters a seed produces: five bits each, drawn from a
/// fixed 32-letter alphabet.
pub open spec fn share_key_of(seed: u64) -> Seq<char> {
    Seq::new(8, |i: int| ("ABCDEFGHJKLMNPQRSTUVWXYZ23456789"@)[
        ((seed >> ((i * 5) as u64)) & 0x1f) as int])
}

/// Derives the eight-character share key a seed produces. The seed itself
/// comes from the surrounding program's clock and hasher.
#[verifier::loop_isolation(false)]
pub fn generate_share_key(seed: u64) -> (key: String)
    ensures
        key@ == share_key_of(seed),
        key@.len() == 8,
{
    let alphabet = "ABCDEFGHJKLMNPQRSTUVWXYZ23456789";
    proof {
        reveal_strlit("ABCDEFGHJKLMNPQRSTUVWXYZ23456789");
        assert(alphabet@.len() == 32);
    }
    let mut key = String::new();
    let mut i: u64 = 0;
    while i < 8
        invariant
            0 <= i <= 8,
            alphabet@ == "ABCDEFGHJKLMNPQRSTUVWXYZ23456789"@,
            alphabet@.len() == 32,
            key@.len() == i,
            forall|k: int| 0 <= k < i ==> key@[k] == share_key_of(seed)[k],
        decreases 8 - i,
    {
        let idx = ((seed >> (i * 5)) & 0x1f) as usize;
        proof {
            assert((seed >> (i * 5)) & 0x1f < 32) by (bit_vector);
        }
        let c = alphabet.get_char(idx);
        crate::text::push_char(&mut key, c);
        i = i + 1;
    }
    proof {
        assert(key@ =~= share_key_of(seed));
    }
    key
}

} // verus!
