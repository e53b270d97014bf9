//! Stop reasons and token counts as Anthropic reports them.

use crate::json::{Json, JsonView};
use crate::text::same;
use crate::types::{StopReason, Usage};
use vstd::prelude::*;

verus! {

/// What Anthropic's name of a stop reason means.
pub open spec fn stop_reason(s: Seq<char>) -> StopReason {
    if s == "end_turn"@ {
        StopReason::EndTurn
    } else if s == "max_tokens"@ {
        StopReason::MaxTokens
    } else if s == "stop_sequence"@ {
        StopReason::StopSequence
    } else if s == "tool_use"@ {
        StopReason::ToolUse
    } else {
        StopReason::Other
    }
}

/// Maps Anthropic's name of a stop reason.
pub fn map_stop_reason(s: &str) -> (r: StopReason)
    ensures
        r == stop_reason(s@),
{
    if same(s, "end_turn") {
        StopReason::EndTurn
    } else if same(s, "max_tokens") {
        StopReason::MaxTokens
    } else if same(s, "stop_sequence") {
        StopReason::StopSequence
    } else if same(s, "tool_use") {
        StopReason::ToolUse
    } else {
        StopReason::Other
    }
}

/// The sum, or the largest number where it does not fit.
pub open spec fn capped(n: int) -> u64 {
    if n > u64::MAX {
        u64::MAX
    } else {
        n as u64
    }
}

/// The thinking tokens, under either of the names that are in use.
pub open spec fn thinking_tokens(u: JsonView) -> u64 {
    let field = match u.get("thinking_tokens"@) {
        Some(v) => Some(v),
        None => u.get("output_thinking_tokens"@),
    };
    match JsonView::or_null(field).as_u64() {
        Some(n) => n,
        None => 0,
    }
}

/// The token counts of a `usage` object. Anthropic counts the fresh, the cached
/// and the newly cached input apart; their sum is the whole input.
pub open spec fn usage_of(u: JsonView) -> Usage {
    let fresh = u.u64_or_zero("input_tokens"@);
    let cached = u.u64_or_zero("cache_read_input_tokens"@);
    let created = u.u64_or_zero("cache_creation_input_tokens"@);
    Usage {
        input_tokens: capped(fresh + cached + created),
        output_tokens: u.u64_or_zero("output_tokens"@),
        cached_input_tokens: cached,
        cache_creation_tokens: created,
        thinking_tokens: thinking_tokens(u),
    }
}

/// Reads the token counts of a `usage` object.
pub fn parse_usage(u: &Json) -> (r: Usage)
    ensures
        r == usage_of(u@),
{
    let fresh: u64 = u.u64_or_zero("input_tokens");
    let cached: u64 = u.u64_or_zero("cache_read_input_tokens");
    let created: u64 = u.u64_or_zero("cache_creation_input_tokens");
    let thinking: u64 = match u.get("thinking_tokens") {
        Some(v) => match v.as_u64() {
            Some(n) => n,
            None => 0,
        },
        None => u.u64_or_zero("output_thinking_tokens"),
    };
    Usage {
        input_tokens: fresh.saturating_add(cached).saturating_add(created),
        output_tokens: u.u64_or_zero("output_tokens"),
        cached_input_tokens: cached,
        cache_creation_tokens: created,
        thinking_tokens: thinking,
    }
}

/// The cached and the newly cached tokens are part of the input: each of them, and both
/// together where their sum can be held.
pub proof fn law_usage_input_covers_cache(u: JsonView)
    ensures
        usage_of(u).input_tokens >= usage_of(u).cached_input_tokens,
        usage_of(u).input_tokens >= usage_of(u).cache_creation_tokens,
        usage_of(u).cached_input_tokens + usage_of(u).cache_creation_tokens <= u64::MAX
            ==> usage_of(u).cached_input_tokens + usage_of(u).cache_creation_tokens
            <= usage_of(u).input_tokens,
{
}

} // verus!
