//! The mathematical model of evaluation: what a compiled rule set is, and
//! what verdict a text gets, stated over sequences and integers. Every
//! quantity is in thousandths (a severity of `300` means three tenths).

use vstd::prelude::*;
use crate::config::{threshold_of, FilterMode, PatternRule};
use crate::outside::{ac_builds, keyword_hits, lower_of, regex_compiles, regex_match};
use crate::text::{is_substring, join_with, redact_spec};

verus! {

/// A compiled pattern rule: source, label and severity in thousandths.
pub ghost struct PatView {
    pub pattern: Seq<char>,
    pub name: Seq<char>,
    pub severity: u32,
}

/// A compiled rule set, as evaluation sees it: the pattern and whitelist
/// lists hold only the rules whose regexes compile.
pub ghost struct RulesView {
    pub banned: Seq<Seq<char>>,
    pub warning: Seq<Seq<char>>,
    pub patterns: Seq<PatView>,
    pub whitelist: Seq<Seq<char>>,
    pub mode: FilterMode,
    pub filter_replacement: bool,
}

/// `x`, capped at `cap`.
pub open spec fn capped(x: int, cap: int) -> int {
    if x < cap {
        x
    } else {
        cap
    }
}

/// The compiled form of one pattern rule; a missing name defaults to the
/// pattern source.
pub open spec fn pat_view(p: PatternRule) -> PatView {
    PatView {
        pattern: p.pattern@,
        name: match p.name {
            Some(n) => n@,
            None => p.pattern@,
        },
        severity: p.severity,
    }
}

/// The pattern rules whose regexes compile, in order; the rest are dropped.
pub open spec fn compiled_patterns(ps: Seq<PatternRule>) -> Seq<PatView>
    decreases ps.len(),
{
    if ps.len() == 0 {
        Seq::empty()
    } else {
        compiled_patterns(ps.drop_last()) + if regex_compiles(ps.last().pattern@) {
            seq![pat_view(ps.last())]
        } else {
            Seq::empty()
        }
    }
}

/// The whitelist contexts whose regexes compile, in order.
pub open spec fn compiled_contexts(cs: Seq<String>) -> Seq<Seq<char>>
    decreases cs.len(),
{
    if cs.len() == 0 {
        Seq::empty()
    } else {
        compiled_contexts(cs.drop_last()) + if regex_compiles(cs.last()@) {
            seq![cs.last()@]
        } else {
            Seq::empty()
        }
    }
}

/// The banned keywords that take part in matching: the non-empty ones, in
/// order. An empty keyword is dropped at compilation — it occurs in every
/// text, nothing of it could be masked, and the matcher's iterator would
/// step an empty match through the middle of a character.
pub open spec fn kept_banned(bs: Seq<String>) -> Seq<Seq<char>>
    decreases bs.len(),
{
    if bs.len() == 0 {
        Seq::empty()
    } else {
        kept_banned(bs.drop_last()) + if bs.last()@.len() > 0 {
            seq![bs.last()@]
        } else {
            Seq::empty()
        }
    }
}

/// What compiling a configuration yields: the warning list as it is, the
/// non-empty banned keywords, and only the pattern rules and whitelist
/// contexts whose regexes compile.
pub open spec fn spec_compile(config: crate::config::FilterConfig) -> RulesView {
    RulesView {
        banned: kept_banned(config.rules.keywords.banned@),
        warning: crate::text::str_views(config.rules.keywords.warning@),
        patterns: compiled_patterns(config.rules.patterns@),
        whitelist: compiled_contexts(config.rules.whitelist.contexts@),
        mode: config.mode,
        filter_replacement: config.filter_replacement,
    }
}

/// Some whitelist context matches the text: the verdict is then safe
/// unconditionally.
pub open spec fn spec_whitelisted(rv: RulesView, text: Seq<char>) -> bool {
    exists|i: int| 0 <= i < rv.whitelist.len() && regex_match(#[trigger] rv.whitelist[i], text)
}

/// The banned-keyword occurrences found in the text: none when the banned
/// list is empty (there is no matcher then), or when no matcher could be
/// built from it.
pub open spec fn spec_hits(rv: RulesView, text: Seq<char>) -> Seq<Seq<char>> {
    if rv.banned.len() > 0 && ac_builds(rv.banned) {
        keyword_hits(rv.banned, text)
    } else {
        Seq::empty()
    }
}

/// The severity of `n` banned-keyword matches: three tenths per match,
/// capped at one.
pub open spec fn spec_kw_severity(n: int) -> int {
    capped(300 * n, 1000)
}

/// How many warning keywords occur in the text (a keyword listed twice
/// counts twice).
pub open spec fn warn_count(warning: Seq<Seq<char>>, text: Seq<char>) -> int
    decreases warning.len(),
{
    if warning.len() == 0 {
        0
    } else {
        warn_count(warning.drop_last(), text) + if is_substring(warning.last(), text) {
            1int
        } else {
            0int
        }
    }
}

/// The raw warning score: one fifth per occurring list entry, capped at
/// one. This is what the warning scan reports; evaluation halves it.
pub open spec fn spec_warn_raw(warning: Seq<Seq<char>>, text: Seq<char>) -> int {
    capped(200 * warn_count(warning, text), 1000)
}

/// The warning keywords' contribution to the total score: the raw score
/// halved — a tenth per hit, capped at one half.
pub open spec fn spec_warn_contrib(warning: Seq<Seq<char>>, text: Seq<char>) -> int {
    capped(100 * warn_count(warning, text), 500)
}

/// The raw warning score is exactly twice the contribution that enters the
/// total: halving it loses nothing to rounding.
pub proof fn lemma_warn_raw_halves(warning: Seq<Seq<char>>, text: Seq<char>)
    ensures
        spec_warn_raw(warning, text) == 2 * spec_warn_contrib(warning, text),
{
    let wc = warn_count(warning, text);
    if 100 * wc < 500 {
        assert(capped(100 * wc, 500) == 100 * wc);
        assert(capped(200 * wc, 1000) == 200 * wc);
    } else {
        assert(capped(100 * wc, 500) == 500);
        assert(capped(200 * wc, 1000) == 1000);
    }
}

/// The summed severity of the pattern rules that match the text.
pub open spec fn pat_total(ps: Seq<PatView>, text: Seq<char>) -> int
    decreases ps.len(),
{
    if ps.len() == 0 {
        0
    } else {
        pat_total(ps.drop_last(), text) + if regex_match(ps.last().pattern, text) {
            ps.last().severity as int
        } else {
            0
        }
    }
}

/// The strongest severity among the pattern rules that match the text.
pub open spec fn pat_max(ps: Seq<PatView>, text: Seq<char>) -> int
    decreases ps.len(),
{
    if ps.len() == 0 {
        0
    } else {
        let rest = pat_max(ps.drop_last(), text);
        let here = if regex_match(ps.last().pattern, text) {
            ps.last().severity as int
        } else {
            0
        };
        if here > rest {
            here
        } else {
            rest
        }
    }
}

/// The labels of the pattern rules that match the text, in rule order.
pub open spec fn fired_labels(ps: Seq<PatView>, text: Seq<char>) -> Seq<Seq<char>>
    decreases ps.len(),
{
    if ps.len() == 0 {
        Seq::empty()
    } else {
        fired_labels(ps.drop_last(), text) + if regex_match(ps.last().pattern, text) {
            seq!["pattern: "@ + ps.last().name]
        } else {
            Seq::empty()
        }
    }
}

/// The three words of some row of the built-in dangerous-combination table
/// all occur in the lowercased text.
pub open spec fn spec_combo(text: Seq<char>) -> bool {
    let lo = lower_of(text);
    ||| (is_substring("how"@, lo) && is_substring("make"@, lo) && is_substring("bomb"@, lo))
    ||| (is_substring("how"@, lo) && is_substring("hack"@, lo) && is_substring("system"@, lo))
    ||| (is_substring("ignore"@, lo) && is_substring("previous"@, lo) && is_substring(
        "instructions"@,
        lo,
    ))
    ||| (is_substring("bypass"@, lo) && is_substring("safety"@, lo) && is_substring(
        "filter"@,
        lo,
    ))
}

/// The strongest single signal: banned keywords, pattern rules and the
/// combination heuristic feed it; warning keywords never do.
pub open spec fn spec_max_severity(rv: RulesView, text: Seq<char>) -> int {
    let kw = spec_kw_severity(spec_hits(rv, text).len() as int);
    let pm = pat_max(rv.patterns, text);
    let cm: int = if spec_combo(text) {
        800
    } else {
        0
    };
    let a = if kw > pm {
        kw
    } else {
        pm
    };
    if cm > a {
        cm
    } else {
        a
    }
}

/// The additive accumulation across all fired signals.
pub open spec fn spec_total(rv: RulesView, text: Seq<char>) -> int {
    spec_kw_severity(spec_hits(rv, text).len() as int) + pat_total(rv.patterns, text)
        + spec_warn_contrib(rv.warning, text) + if spec_combo(text) {
        800int
    } else {
        0int
    }
}

/// The verdict. A whitelisted text is safe no matter what; any other text
/// is safe exactly when the strongest signal stays under the mode's
/// threshold and the accumulated score stays under twice that threshold.
pub open spec fn spec_safe(rv: RulesView, text: Seq<char>) -> bool {
    spec_whitelisted(rv, text) || (spec_max_severity(rv, text) < threshold_of(rv.mode)
        && spec_total(rv, text) < 2 * threshold_of(rv.mode))
}

/// The reported confidence-in-safety, in thousandths: one minus the
/// strongest signal (capped at one); one for a whitelisted text.
pub open spec fn spec_score(rv: RulesView, text: Seq<char>) -> int {
    if spec_whitelisted(rv, text) {
        1000
    } else {
        1000 - capped(spec_max_severity(rv, text), 1000)
    }
}

/// One label per fired signal: the matched banned keywords, then the
/// matching pattern rules, then at most one combination label. Empty for a
/// whitelisted text.
pub open spec fn spec_matched(rv: RulesView, text: Seq<char>) -> Seq<Seq<char>> {
    if spec_whitelisted(rv, text) {
        Seq::empty()
    } else {
        spec_hits(rv, text).map_values(|h: Seq<char>| "keyword: "@ + h) + fired_labels(
            rv.patterns,
            text,
        ) + if spec_combo(text) {
            seq!["dangerous_combination"@]
        } else {
            Seq::empty()
        }
    }
}

/// The reported reason: named for a whitelisted text, composed from the
/// matched labels for a blocked one, absent otherwise.
pub open spec fn spec_reason(rv: RulesView, text: Seq<char>) -> Option<Seq<char>> {
    if spec_whitelisted(rv, text) {
        Some("Content matches whitelist"@)
    } else if !spec_safe(rv, text) {
        if spec_matched(rv, text).len() == 0 {
            Some("Content violates filter rules"@)
        } else {
            Some("Content blocked due to: "@ + join_with(spec_matched(rv, text), ", "@))
        }
    } else {
        None
    }
}

/// The redacted copy: present exactly for a blocked text under the
/// replacement flag, with every banned-keyword occurrence masked.
pub open spec fn spec_filtered(rv: RulesView, text: Seq<char>) -> Option<Seq<char>> {
    if !spec_safe(rv, text) && rv.filter_replacement {
        Some(redact_spec(text, spec_hits(rv, text)))
    } else {
        None
    }
}

/// The character-sequence views of an optional string.
pub open spec fn opt_view(o: Option<String>) -> Option<Seq<char>> {
    match o {
        Some(s) => Some(s@),
        None => None,
    }
}

} // verus!
