//! Process-wide read-only configuration: the fixed system prompt, the
//! fallback instruction that pads a too-short instruction list, and the
//! default reasoning budget.

use vstd::prelude::*;

verus! {

/// The instruction that must always stand first in the `system` list.
pub const SYSTEM_PROMPT_TEXT: &'static str =
    "You are an expert coding assistant operating inside a developer tool.";

/// The instruction appended when the `system` list would otherwise hold
/// fewer than two entries.
pub const SYSTEM_FALLBACK_TEXT: &'static str =
    "Follow the user's instructions carefully and answer precisely.";

/// The reasoning budget requested when the caller's `max_tokens` does not
/// constrain it further.
pub const DEFAULT_THINKING_BUDGET: u64 = 16000;

} // verus!
