//! The state of the usage view.
use crate::counts::Counted;
use crate::identity::{ModelDriftPair, ModelUsage};
use crate::latency::LatencyStats;
use crate::latency_series::ConversationDepthStats;
use crate::records::{CacheHitRateByModel, TruncationRateByModel};
use crate::tables::{ErrorTypeBreakdown, TokenUsageSummary};
use crate::tools::{HourOfDayBucket, ToolApprovalStats, ToolUsage};
use crate::usage::NamedUsage;
use vstd::prelude::*;

verus! {

/// The tokens of all calls, of each model and of each system.
pub struct TokenUsageResponse {
    pub summary: TokenUsageSummary,
    pub by_model: Vec<ModelUsage>,
    pub by_system: Vec<NamedUsage>,
}

/// The calls and the tokens of one kind of context.
pub struct ContextTypeSplit {
    pub context: String,
    pub calls: usize,
    pub input_tokens: u64,
    pub output_tokens: u64,
}

/// An error message of a tool and how often it came.
pub struct ToolErrorEntry {
    pub tool_name: String,
    pub error_message: String,
    pub count: usize,
}

/// What the usage view shows.
pub struct UsageState {
    pub token_usage: Option<TokenUsageResponse>,
    pub latency_stats: Vec<LatencyStats>,
    pub truncation_rate: Vec<TruncationRateByModel>,
    pub cache_hit_rate: Vec<CacheHitRateByModel>,
    pub conversation_depth: Option<ConversationDepthStats>,
    pub tool_usage: Vec<ToolUsage>,
    pub error_types: Vec<ErrorTypeBreakdown>,
    pub model_drift: Vec<ModelDriftPair>,
    pub tool_approvals: Option<ToolApprovalStats>,
    pub stop_reasons: Vec<Counted>,
    pub context_split: Vec<ContextTypeSplit>,
    pub tool_errors: Vec<ToolErrorEntry>,
    pub hour_of_day: Vec<HourOfDayBucket>,
    pub error: Option<String>,
    pub is_loading: bool,
}

impl Default for UsageState {
    fn default() -> (s: UsageState)
        ensures
            s.token_usage is None,
            s.latency_stats@.len() == 0,
            s.truncation_rate@.len() == 0,
            s.cache_hit_rate@.len() == 0,
            s.conversation_depth is None,
            s.tool_usage@.len() == 0,
            s.error_types@.len() == 0,
            s.model_drift@.len() == 0,
            s.tool_approvals is None,
            s.stop_reasons@.len() == 0,
            s.context_split@.len() == 0,
            s.tool_errors@.len() == 0,
            s.hour_of_day@.len() == 0,
            s.error is None,
            !s.is_loading,
    {
        UsageState {
            token_usage: None,
            latency_stats: Vec::new(),
            truncation_rate: Vec::new(),
            cache_hit_rate: Vec::new(),
            conversation_depth: None,
            tool_usage: Vec::new(),
            error_types: Vec::new(),
            model_drift: Vec::new(),
            tool_approvals: None,
            stop_reasons: Vec::new(),
            context_split: Vec::new(),
            tool_errors: Vec::new(),
            hour_of_day: Vec::new(),
            error: None,
            is_loading: false,
        }
    }
}

impl UsageState {
    /// Shows an error. Loading is over then; what was loaded stays.
    pub fn set_error(&mut self, msg: String)
        ensures
            *final(self) == (UsageState { error: Some(msg), is_loading: false, ..*old(self) }),
    {
        self.error = Some(msg);
        self.is_loading = false;
    }

    /// Shows no error any more. Everything else stays.
    pub fn clear_error(&mut self)
        ensures
            *final(self) == (UsageState { error: None, ..*old(self) }),
    {
        self.error = None;
    }
}

} // verus!
