//! The rule-set data model: operating mode, keyword lists, regex pattern
//! rules, whitelist contexts and output flags. A configuration is plain,
//! already-merged data; resolving it from files is the caller's business.
//!
//! All severities, scores and thresholds in this crate are fixed-point
//! values in thousandths: `1000` stands for a severity of one, `300` for
//! three tenths, and so on.

use vstd::prelude::*;

verus! {

/// The operating mode; it only selects the decision threshold.
#[derive(Clone, Copy, Debug, PartialEq, Eq, Structural)]
pub enum FilterMode {
    Strict,
    Moderate,
    Loose,
}

impl Default for FilterMode {
    fn default() -> (r: Self)
        ensures
            r == FilterMode::Moderate,
    {
        FilterMode::Moderate
    }
}

/// The decision threshold of a mode, in thousandths.
pub open spec fn threshold_of(mode: FilterMode) -> int {
    match mode {
        FilterMode::Strict => 300,
        FilterMode::Moderate => 600,
        FilterMode::Loose => 800,
    }
}

/// What a matching pattern rule asks for. Both variants contribute to the
/// score in the same way; the distinction is kept as configuration data.
#[derive(Clone, Copy, Debug, PartialEq, Eq, Structural)]
pub enum PatternAction {
    Block,
    Warn,
}

impl Default for PatternAction {
    fn default() -> (r: Self)
        ensures
            r == PatternAction::Block,
    {
        PatternAction::Block
    }
}

/// The two keyword lists: `banned` is a hard signal, `warning` a soft one.
#[derive(Clone, Debug)]
pub struct KeywordRules {
    pub banned: Vec<String>,
    pub warning: Vec<String>,
}

/// A regular-expression rule with a label and a severity in thousandths.
/// A missing name defaults to the pattern source itself.
#[derive(Clone, Debug)]
pub struct PatternRule {
    pub pattern: String,
    pub name: Option<String>,
    pub severity: u32,
    pub action: PatternAction,
}

/// Whitelist rules. A text matching any `contexts` regex is unconditionally
/// safe. `domains` is accepted as configuration but never consulted by
/// evaluation; it is a reserved field.
#[derive(Clone, Debug)]
pub struct WhitelistRules {
    pub contexts: Vec<String>,
    pub domains: Vec<String>,
}

/// The full rule set handed to the filter.
#[derive(Clone, Debug)]
pub struct FilterRules {
    pub keywords: KeywordRules,
    pub patterns: Vec<PatternRule>,
    pub whitelist: WhitelistRules,
}

/// A resolved configuration: the rule set, the mode and the output flags.
#[derive(Clone, Debug)]
pub struct FilterConfig {
    pub mode: FilterMode,
    pub filter_replacement: bool,
    pub log_blocked: bool,
    pub rules: FilterRules,
}

} // verus!
