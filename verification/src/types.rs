//! Typed API request and response shapes of the IronProse REST API, as plain
//! data. Shapes whose fields hold floating-point numbers are read through the
//! views of the output modules instead.
use vstd::prelude::*;
use crate::json::Json;

verus! {

// ── Request types ──────────────────────────────────────────────

/// Parameters of an `analyze` request.
#[derive(Debug)]
pub struct AnalyzeParams {
    /// The text to analyze.
    pub text: String,
    /// Language locale: `en-us`, `en-gb` or `en-any`.
    pub locale: Option<String>,
    /// Only run these rules.
    pub rules: Option<Vec<String>>,
    /// Minimum severity: `error`, `warning`, `information` or `hint`.
    pub severity_min: Option<String>,
    /// Only return scores.
    pub score_only: Option<bool>,
    /// Per-request analyzer configuration overrides.
    pub config: Option<Json>,
}

/// Parameters of a `compare` request.
#[derive(Debug)]
pub struct CompareParams {
    pub original: String,
    pub revised: String,
    pub locale: Option<String>,
    pub config: Option<Json>,
}

/// Parameters of a `rate` request: feedback on one diagnostic.
#[derive(Debug)]
pub struct RateParams {
    /// The rule (analyzer) that produced the diagnostic.
    pub rule: String,
    /// `helpful`, `not_helpful` or `false_positive`.
    pub rating: String,
    pub context: Option<String>,
    /// The diagnostic's id from the analyze response.
    pub diagnostic_id: Option<String>,
    pub input_text: Option<String>,
    pub message: Option<String>,
    pub severity: Option<String>,
    pub start_line: Option<i32>,
    pub start_char: Option<i32>,
    pub end_line: Option<i32>,
    pub end_char: Option<i32>,
}

// ── Response types ─────────────────────────────────────────────

/// The reply to a `rate` request.
#[derive(Debug)]
pub struct RateResult {
    pub status: String,
    pub message: String,
}

/// The reply to a `list_rules` request.
#[derive(Debug)]
pub struct ListRulesResult {
    pub rules: Vec<RuleInfo>,
    pub total: u64,
}

/// The reply to an `entitlement` request.
#[derive(Debug)]
pub struct EntitlementResult {
    pub tier: String,
    pub valid: bool,
}

/// The body of an error reply.
#[derive(Debug)]
pub struct ErrorBody {
    pub error: String,
}

/// One analysis rule and its category.
#[derive(Debug)]
pub struct RuleInfo {
    pub name: String,
    pub category: String,
}

} // verus!
