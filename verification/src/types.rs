//! The data model: the parsed hook payload, display segments, and themes.

use vstd::prelude::*;

verus! {

/// The model description carried in the hook payload.
pub struct ModelInfo {
    pub id: Option<String>,
    pub display_name: Option<String>,
}

/// Token counters carried in the hook payload's context-window record.
pub struct CurrentUsage {
    pub input_tokens: Option<i64>,
    pub output_tokens: Option<i64>,
    pub cache_creation_input_tokens: Option<i64>,
    pub cache_read_input_tokens: Option<i64>,
}

/// The context-window record of the hook payload.
pub struct ContextWindow {
    pub context_window_size: Option<i64>,
    pub total_input_tokens: Option<i64>,
    pub remaining_percentage: Option<i64>,
    pub current_usage: Option<CurrentUsage>,
}

/// The session snapshot delivered on standard input, after parsing.
pub struct HookInput {
    pub session_id: Option<String>,
    pub model: ModelInfo,
    pub version: Option<String>,
    pub cwd: Option<String>,
    pub exceeds_200k_tokens: Option<bool>,
    pub context_window: Option<ContextWindow>,
}

/// One colored, padded text unit of a rendered line.
pub struct Segment {
    pub text: String,
    pub fg: u8,
    pub bg: u8,
}

/// The mathematical value of a segment: its characters and its color pair.
pub struct SegmentView {
    pub text: Seq<char>,
    pub fg: u8,
    pub bg: u8,
}

impl View for Segment {
    type V = SegmentView;

    open spec fn view(&self) -> SegmentView {
        SegmentView { text: self.text@, fg: self.fg, bg: self.bg }
    }
}

/// An 8-bit palette foreground/background pair for one semantic role.
#[derive(Clone, Copy, Debug, PartialEq, Eq, Structural)]
pub struct ColorPair {
    pub fg: u8,
    pub bg: u8,
}

/// A color theme: one color pair for each of the six semantic roles.
#[derive(Clone, Copy, Debug, PartialEq, Eq, Structural)]
pub struct Theme {
    pub model: ColorPair,
    pub version: ColorPair,
    pub branch: ColorPair,
    pub ctx_good: ColorPair,
    pub ctx_warn: ColorPair,
    pub ctx_bad: ColorPair,
}

/// The remaining context percentage named by the payload, before clamping;
/// absent fields default to 100.
pub open spec fn spec_remaining_percentage(h: HookInput) -> int {
    match h.context_window {
        Some(cw) => match cw.remaining_percentage {
            Some(p) => p as int,
            None => 100,
        },
        None => 100,
    }
}

pub open spec fn spec_clamp_0_100(n: int) -> int {
    if n < 0 {
        0
    } else if n > 100 {
        100
    } else {
        n
    }
}

/// The context percentage shown for a payload: its remaining percentage,
/// clamped to `0..=100`.
pub fn calculate_context_percent(hook: &HookInput) -> (r: i32)
    ensures
        r as int == spec_clamp_0_100(spec_remaining_percentage(*hook)),
{
    let remaining: i64 = match &hook.context_window {
        Some(cw) => match cw.remaining_percentage {
            Some(p) => p,
            None => 100,
        },
        None => 100,
    };
    if remaining < 0 {
        0
    } else if remaining > 100 {
        100
    } else {
        remaining as i32
    }
}

} // verus!
