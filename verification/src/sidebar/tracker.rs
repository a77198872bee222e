use vstd::prelude::*;

use crate::text::copy_of;

verus! {

/// Usage tracking for rate limits and turns. The utilization is carried as the bit pattern of a
/// double.
#[derive(Debug)]
pub struct UsageTracker {
    /// Current rate limit utilization.
    pub utilization_bits: u64,
    /// Rate limit status: "normal", "warning", "limited".
    pub status: String,
    /// Unix timestamp when rate limit resets.
    pub resets_at: Option<i64>,
    /// Number of completed turns.
    pub turn_count: u32,
    /// Current context window usage in tokens.
    pub context_tokens: u64,
}

impl UsageTracker {
    pub fn new() -> (tracker: UsageTracker)
        ensures
            tracker.utilization_bits == 0,
            tracker.status@ == "normal"@,
            tracker.resets_at is None,
            tracker.turn_count == 0,
            tracker.context_tokens == 0,
    {
        UsageTracker {
            utilization_bits: 0,
            status: copy_of("normal"),
            resets_at: None,
            turn_count: 0,
            context_tokens: 0,
        }
    }

    pub fn record_rate_limit(&mut self, utilization_bits: u64, status: String, resets_at: i64)
        ensures
            *final(self) == (UsageTracker {
                utilization_bits,
                status,
                resets_at: Some(resets_at),
                ..*old(self)
            }),
    {
        self.utilization_bits = utilization_bits;
        self.status = status;
        self.resets_at = Some(resets_at);
    }

    pub fn record_turn(&mut self)
        requires
            old(self).turn_count < u32::MAX,
        ensures
            *final(self) == (UsageTracker {
                turn_count: (old(self).turn_count + 1) as u32,
                ..*old(self)
            }),
    {
        self.turn_count = self.turn_count + 1;
    }

    pub fn update_context(&mut self, tokens: u64)
        ensures
            *final(self) == (UsageTracker { context_tokens: tokens, ..*old(self) }),
    {
        self.context_tokens = tokens;
    }
}

impl Default for UsageTracker {
    fn default() -> (tracker: UsageTracker)
        ensures
            tracker.utilization_bits == 0,
            tracker.status@ == "normal"@,
            tracker.resets_at is None,
            tracker.turn_count == 0,
            tracker.context_tokens == 0,
    {
        UsageTracker::new()
    }
}

} // verus!
