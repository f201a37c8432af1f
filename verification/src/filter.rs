//! The filter engine: compiling a configuration into matchers, and the
//! evaluation of one text into a verdict.

use vstd::prelude::*;
use crate::config::{threshold_of, FilterConfig, FilterMode};
use crate::model::{
    capped, compiled_contexts, compiled_patterns, kept_banned, opt_view, pat_max, pat_total,
    pat_view, fired_labels, spec_combo, spec_compile, spec_filtered, spec_hits, spec_kw_severity,
    lemma_warn_raw_halves, spec_matched, spec_max_severity, spec_reason, spec_safe, spec_score,
    spec_total, spec_warn_contrib, spec_warn_raw, spec_whitelisted, warn_count, PatView,
    RulesView,
};
use crate::outside::{
    ac_builds, ac_patterns, ac_standard, build_matcher, find_matches, lowercase, regex_compiles,
    regex_find, regex_match, regex_ok,
};
use crate::text::{contains_sub, join_strings, join_with, redact, redact_spec, str_views};

verus! {

/// One evaluation's verdict. `score` is a confidence-in-safety figure in
/// thousandths; `filtered_content` is present only for a blocked text under
/// the replacement flag; `reason` only for a whitelisted or blocked text.
#[derive(Clone, Debug)]
pub struct FilterResult {
    pub safe: bool,
    pub score: u32,
    pub filtered_content: Option<String>,
    pub reason: Option<String>,
    pub matched_rules: Vec<String>,
}

/// A pattern rule whose regex compiled, with its resolved label.
struct StoredPattern {
    pattern: String,
    name: String,
    severity: u32,
}

spec fn stored_view(p: StoredPattern) -> PatView {
    PatView { pattern: p.pattern@, name: p.name@, severity: p.severity }
}

spec fn stored_views(ps: Seq<StoredPattern>) -> Seq<PatView> {
    ps.map_values(|p: StoredPattern| stored_view(p))
}

/// The compiled filter: the warning list as given, the non-empty banned
/// keywords with the matcher built from them, and only the pattern rules
/// and whitelist contexts whose regexes compiled.
pub struct ContentFilter {
    mode: FilterMode,
    filter_replacement: bool,
    banned: Vec<String>,
    warning: Vec<String>,
    matcher: Option<aho_corasick::AhoCorasick>,
    patterns: Vec<StoredPattern>,
    whitelist: Vec<String>,
}

impl View for ContentFilter {
    type V = RulesView;

    closed spec fn view(&self) -> RulesView {
        RulesView {
            banned: str_views(self.banned@),
            warning: str_views(self.warning@),
            patterns: stored_views(self.patterns@),
            whitelist: str_views(self.whitelist@),
            mode: self.mode,
            filter_replacement: self.filter_replacement,
        }
    }
}

/// `a + b`, capped at 2000: enough headroom, since verdicts only compare
/// the total against at most twice the largest threshold.
fn add_capped(a: u32, b: u32) -> (r: u32)
    requires
        a <= 2000,
    ensures
        r as int == capped(a + b, 2000),
        r <= 2000,
{
    if b >= 2000 {
        2000
    } else if a + b >= 2000 {
        2000
    } else {
        a + b
    }
}

/// The severity of `count` banned-keyword matches: three tenths per match,
/// capped at one — one match scores 300, four or more score 1000.
pub fn get_keyword_severity(count: usize) -> (r: u32)
    ensures
        r as int == spec_kw_severity(count as int),
        r <= 1000,
{
    if count >= 4 {
        1000
    } else {
        300 * (count as u32)
    }
}

impl ContentFilter {
    #[verifier::type_invariant]
    spec fn wf(&self) -> bool {
        &&& (self.matcher is Some) <==> (self.banned@.len() > 0 && ac_builds(
            str_views(self.banned@),
        ))
        &&& (self.matcher matches Some(m) ==> ac_patterns(m) == str_views(self.banned@)
            && ac_standard(m))
        &&& (forall|i: int| 0 <= i < self.banned@.len() ==> (#[trigger] self.banned@[i]@).len() > 0)
        &&& (forall|i: int|
            0 <= i < self.patterns@.len() ==> regex_compiles(
                #[trigger] self.patterns@[i].pattern@,
            ))
        &&& (forall|i: int|
            0 <= i < self.whitelist@.len() ==> regex_compiles(#[trigger] self.whitelist@[i]@))
    }

    /// Compiles a configuration. Pattern rules and whitelist contexts whose
    /// regexes do not compile are dropped silently, and so are empty banned
    /// keywords; an empty banned list means no keyword matcher at all.
    /// Compilation never fails.
    pub fn new(config: FilterConfig) -> (r: ContentFilter)
        ensures
            r@ == spec_compile(config),
    {
        let FilterConfig { mode, filter_replacement, log_blocked: _, rules } = config;
        let warning = rules.keywords.warning;

        let src_banned = rules.keywords.banned;
        let mut banned: Vec<String> = Vec::new();
        proof {
            assert(src_banned@.take(0) =~= Seq::<String>::empty());
            assert(str_views(banned@) =~= kept_banned(src_banned@.take(0)));
        }
        let mut b: usize = 0;
        while b < src_banned.len()
            invariant
                0 <= b <= src_banned@.len(),
                str_views(banned@) == kept_banned(src_banned@.take(b as int)),
                forall|j: int| 0 <= j < banned@.len() ==> (#[trigger] banned@[j]@).len() > 0,
            decreases src_banned@.len() - b,
        {
            let ghost btaken = src_banned@.take(b as int);
            proof {
                assert(src_banned@.take(b + 1).drop_last() =~= btaken);
                assert(src_banned@.take(b + 1).last() == src_banned@[b as int]);
            }
            let s = &src_banned[b];
            if s.as_str().unicode_len() > 0 {
                banned.push(s.clone());
                proof {
                    assert(str_views(banned@) =~= kept_banned(btaken) + seq![
                        src_banned@[b as int]@,
                    ]);
                }
            } else {
                proof {
                    assert(kept_banned(src_banned@.take(b + 1)) =~= kept_banned(btaken));
                }
            }
            b = b + 1;
        }
        proof {
            assert(src_banned@.take(src_banned@.len() as int) =~= src_banned@);
        }

        let matcher = if banned.len() > 0 {
            build_matcher(&banned)
        } else {
            None
        };

        let src_patterns = rules.patterns;
        let mut patterns: Vec<StoredPattern> = Vec::new();
        proof {
            assert(src_patterns@.take(0) =~= Seq::<crate::config::PatternRule>::empty());
            assert(stored_views(patterns@) =~= compiled_patterns(src_patterns@.take(0)));
        }
        let mut i: usize = 0;
        while i < src_patterns.len()
            invariant
                0 <= i <= src_patterns@.len(),
                stored_views(patterns@) == compiled_patterns(src_patterns@.take(i as int)),
                forall|j: int|
                    0 <= j < patterns@.len() ==> regex_compiles(
                        #[trigger] patterns@[j].pattern@,
                    ),
            decreases src_patterns@.len() - i,
        {
            let ghost taken = src_patterns@.take(i as int);
            proof {
                assert(src_patterns@.take(i + 1).drop_last() =~= taken);
                assert(src_patterns@.take(i + 1).last() == src_patterns@[i as int]);
            }
            let p = &src_patterns[i];
            if regex_ok(p.pattern.as_str()) {
                let name = match &p.name {
                    Some(n) => n.clone(),
                    None => p.pattern.clone(),
                };
                let entry = StoredPattern { pattern: p.pattern.clone(), name, severity: p.severity };
                proof {
                    assert(stored_view(entry) == pat_view(src_patterns@[i as int]));
                }
                patterns.push(entry);
                proof {
                    assert(stored_views(patterns@) =~= compiled_patterns(taken) + seq![
                        pat_view(src_patterns@[i as int]),
                    ]);
                }
            } else {
                proof {
                    assert(compiled_patterns(src_patterns@.take(i + 1)) =~= compiled_patterns(
                        taken,
                    ));
                }
            }
            i = i + 1;
        }
        proof {
            assert(src_patterns@.take(src_patterns@.len() as int) =~= src_patterns@);
        }

        let src_contexts = rules.whitelist.contexts;
        let mut whitelist: Vec<String> = Vec::new();
        proof {
            assert(src_contexts@.take(0) =~= Seq::<String>::empty());
            assert(str_views(whitelist@) =~= compiled_contexts(src_contexts@.take(0)));
        }
        let mut k: usize = 0;
        while k < src_contexts.len()
            invariant
                0 <= k <= src_contexts@.len(),
                str_views(whitelist@) == compiled_contexts(src_contexts@.take(k as int)),
                forall|j: int|
                    0 <= j < whitelist@.len() ==> regex_compiles(#[trigger] whitelist@[j]@),
            decreases src_contexts@.len() - k,
        {
            let ghost ctaken = src_contexts@.take(k as int);
            proof {
                assert(src_contexts@.take(k + 1).drop_last() =~= ctaken);
                assert(src_contexts@.take(k + 1).last() == src_contexts@[k as int]);
            }
            let c = &src_contexts[k];
            if regex_ok(c.as_str()) {
                whitelist.push(c.clone());
                proof {
                    assert(str_views(whitelist@) =~= compiled_contexts(ctaken) + seq![
                        src_contexts@[k as int]@,
                    ]);
                }
            } else {
                proof {
                    assert(compiled_contexts(src_contexts@.take(k + 1)) =~= compiled_contexts(
                        ctaken,
                    ));
                }
            }
            k = k + 1;
        }
        proof {
            assert(src_contexts@.take(src_contexts@.len() as int) =~= src_contexts@);
        }

        ContentFilter { mode, filter_replacement, banned, warning, matcher, patterns, whitelist }
    }

    /// Some whitelist context matches the text.
    fn is_whitelisted(&self, text: &str) -> (r: bool)
        requires
            forall|i: int|
                0 <= i < self.whitelist@.len() ==> regex_compiles(
                    #[trigger] self.whitelist@[i]@,
                ),
        ensures
            r == spec_whitelisted(self@, text@),
    {
        let mut i: usize = 0;
        while i < self.whitelist.len()
            invariant
                0 <= i <= self.whitelist@.len(),
                forall|j: int|
                    0 <= j < self.whitelist@.len() ==> regex_compiles(
                        #[trigger] self.whitelist@[j]@,
                    ),
                forall|j: int| 0 <= j < i ==> !regex_match(#[trigger] self@.whitelist[j], text@),
            decreases self.whitelist@.len() - i,
        {
            if regex_find(self.whitelist[i].as_str(), text) {
                proof {
                    assert(regex_match(self@.whitelist[i as int], text@));
                }
                return true;
            }
            i = i + 1;
        }
        false
    }

    /// The raw warning score, in thousandths: one fifth per occurring list
    /// entry, capped at one. An entry counts once however often it occurs
    /// in the text; an entry listed twice counts twice. Evaluation halves
    /// this score before adding it to the total.
    pub fn check_warning_keywords(&self, text: &str) -> (r: u32)
        ensures
            r as int == spec_warn_raw(self@.warning, text@),
            r <= 1000,
    {
        let mut count: usize = 0;
        proof {
            assert(self@.warning.take(0) =~= Seq::<Seq<char>>::empty());
        }
        let mut i: usize = 0;
        while i < self.warning.len()
            invariant
                0 <= i <= self.warning@.len(),
                self@.warning == str_views(self.warning@),
                count as int == warn_count(self@.warning.take(i as int), text@),
                count <= i,
            decreases self.warning@.len() - i,
        {
            proof {
                assert(self@.warning.take(i + 1).drop_last() =~= self@.warning.take(i as int));
                assert(self@.warning.take(i + 1).last() == self.warning@[i as int]@);
            }
            if contains_sub(text, self.warning[i].as_str()) {
                count = count + 1;
            }
            i = i + 1;
        }
        proof {
            assert(self@.warning.take(self.warning@.len() as int) =~= self@.warning);
        }
        if count >= 5 {
            1000
        } else {
            200 * (count as u32)
        }
    }

    /// Whether some row of the built-in dangerous-combination table is fully
    /// present in the lowercased text.
    fn check_dangerous_combinations(&self, text: &str) -> (r: bool)
        ensures
            r == spec_combo(text@),
    {
        let lowered = lowercase(text);
        let lo = lowered.as_str();
        if contains_sub(lo, "how") && contains_sub(lo, "make") && contains_sub(lo, "bomb") {
            return true;
        }
        if contains_sub(lo, "how") && contains_sub(lo, "hack") && contains_sub(lo, "system") {
            return true;
        }
        if contains_sub(lo, "ignore") && contains_sub(lo, "previous") && contains_sub(
            lo,
            "instructions",
        ) {
            return true;
        }
        if contains_sub(lo, "bypass") && contains_sub(lo, "safety") && contains_sub(
            lo,
            "filter",
        ) {
            return true;
        }
        false
    }

    /// The mode's decision threshold, in thousandths.
    fn get_threshold(&self) -> (r: u32)
        ensures
            r as int == threshold_of(self@.mode),
    {
        match self.mode {
            FilterMode::Strict => 300,
            FilterMode::Moderate => 600,
            FilterMode::Loose => 800,
        }
    }

    /// The redacted copy of the text: every occurrence of every matched
    /// banned keyword masked by `*`, one pass per matched keyword, in
    /// reported order.
    fn filter_text(&self, text: &str, hits: &Vec<String>) -> (r: String)
        ensures
            r@ == redact_spec(text@, str_views(hits@)),
    {
        redact(text, hits)
    }

    /// The reason string of a blocked verdict.
    fn get_block_reason(&self, matched_rules: &Vec<String>) -> (r: String)
        ensures
            r@ == if str_views(matched_rules@).len() == 0 {
                "Content violates filter rules"@
            } else {
                "Content blocked due to: "@ + join_with(str_views(matched_rules@), ", "@)
            },
    {
        if matched_rules.len() == 0 {
            String::from_str("Content violates filter rules")
        } else {
            let joined = join_strings(matched_rules, ", ");
            String::from_str("Content blocked due to: ").concat(joined.as_str())
        }
    }

    /// Evaluates one text against the compiled rules and returns the
    /// verdict described by the evaluation model; it never fails and
    /// mutates nothing.
    pub fn check(&self, text: &str) -> (res: FilterResult)
        ensures
            res.safe == spec_safe(self@, text@),
            res.score as int == spec_score(self@, text@),
            str_views(res.matched_rules@) == spec_matched(self@, text@),
            opt_view(res.reason) == spec_reason(self@, text@),
            opt_view(res.filtered_content) == spec_filtered(self@, text@),
    {
        proof {
            use_type_invariant(self);
        }
        if self.is_whitelisted(text) {
            let empty_rules: Vec<String> = Vec::new();
            proof {
                assert(str_views(empty_rules@) =~= Seq::<Seq<char>>::empty());
            }
            return FilterResult {
                safe: true,
                score: 1000,
                filtered_content: None,
                reason: Some(String::from_str("Content matches whitelist")),
                matched_rules: empty_rules,
            };
        }

        let mut matched_rules: Vec<String> = Vec::new();

        // Banned-keyword scan.
        let hits: Vec<String> = match &self.matcher {
            Some(m) => {
                proof {
                    assert forall|j: int| 0 <= j < ac_patterns(*m).len() implies (
                    #[trigger] ac_patterns(*m)[j]).len() > 0 by {
                        assert(ac_patterns(*m)[j] == self.banned@[j]@);
                    }
                }
                find_matches(m, text)
            },
            None => Vec::new(),
        };
        proof {
            assert(str_views(hits@) =~= spec_hits(self@, text@));
        }
        let kw_sev = get_keyword_severity(hits.len());
        let mut total: u32 = add_capped(0, kw_sev);
        let mut max_sev: u32 = kw_sev;

        let ghost kw_labels = spec_hits(self@, text@).map_values(|h: Seq<char>| "keyword: "@ + h);
        let mut i: usize = 0;
        while i < hits.len()
            invariant
                0 <= i <= hits@.len(),
                matched_rules@.len() == i,
                forall|j: int|
                    0 <= j < i ==> #[trigger] matched_rules@[j]@ == "keyword: "@ + hits@[j]@,
            decreases hits@.len() - i,
        {
            let label = String::from_str("keyword: ").concat(hits[i].as_str());
            matched_rules.push(label);
            i = i + 1;
        }
        proof {
            assert(str_views(matched_rules@) =~= kw_labels);
        }

        // Pattern scan.
        let ghost kw = spec_kw_severity(spec_hits(self@, text@).len() as int);
        proof {
            assert(self@.patterns.take(0) =~= Seq::<PatView>::empty());
            assert(str_views(matched_rules@) =~= kw_labels + fired_labels(
                self@.patterns.take(0),
                text@,
            ));
        }
        let mut pi: usize = 0;
        while pi < self.patterns.len()
            invariant
                0 <= pi <= self.patterns@.len(),
                self@.patterns == stored_views(self.patterns@),
                forall|j: int|
                    0 <= j < self.patterns@.len() ==> regex_compiles(
                        #[trigger] self.patterns@[j].pattern@,
                    ),
                kw == spec_kw_severity(spec_hits(self@, text@).len() as int),
                0 <= kw <= 1000,
                total <= 2000,
                total as int == capped(kw + pat_total(self@.patterns.take(pi as int), text@), 2000),
                max_sev as int == if kw > pat_max(self@.patterns.take(pi as int), text@) {
                    kw
                } else {
                    pat_max(self@.patterns.take(pi as int), text@)
                },
                str_views(matched_rules@) == kw_labels + fired_labels(
                    self@.patterns.take(pi as int),
                    text@,
                ),
            decreases self.patterns@.len() - pi,
        {
            let ghost ptaken = self@.patterns.take(pi as int);
            proof {
                assert(self@.patterns.take(pi + 1).drop_last() =~= ptaken);
                assert(self@.patterns.take(pi + 1).last() == self@.patterns[pi as int]);
                assert(self@.patterns[pi as int] == stored_view(self.patterns@[pi as int]));
            }
            let p = &self.patterns[pi];
            if regex_find(p.pattern.as_str(), text) {
                total = add_capped(total, p.severity);
                if p.severity > max_sev {
                    max_sev = p.severity;
                }
                let label = String::from_str("pattern: ").concat(p.name.as_str());
                let ghost old_rules = matched_rules@;
                matched_rules.push(label);
                proof {
                    assert(label@ == "pattern: "@ + self@.patterns[pi as int].name);
                    assert(str_views(matched_rules@) =~= str_views(old_rules).push(label@));
                    assert(str_views(matched_rules@) =~= kw_labels + (fired_labels(ptaken, text@)
                        + seq!["pattern: "@ + self@.patterns[pi as int].name]));
                }
            } else {
                proof {
                    assert(fired_labels(self@.patterns.take(pi + 1), text@) =~= fired_labels(
                        ptaken,
                        text@,
                    ));
                }
            }
            pi = pi + 1;
        }
        proof {
            assert(self@.patterns.take(self.patterns@.len() as int) =~= self@.patterns);
        }

        // Warning keywords: the raw score is halved, then raises the total
        // but never the severity.
        let warn_raw = self.check_warning_keywords(text);
        let warn_contrib = warn_raw / 2;
        proof {
            lemma_warn_raw_halves(self@.warning, text@);
            assert(warn_contrib as int == spec_warn_contrib(self@.warning, text@));
        }
        total = add_capped(total, warn_contrib);

        // Dangerous-combination heuristic.
        let ghost before_combo = str_views(matched_rules@);
        if self.check_dangerous_combinations(text) {
            total = add_capped(total, 800);
            if 800 > max_sev {
                max_sev = 800;
            }
            matched_rules.push(String::from_str("dangerous_combination"));
            proof {
                assert(str_views(matched_rules@) =~= before_combo + seq![
                    "dangerous_combination"@,
                ]);
            }
        } else {
            proof {
                assert(before_combo + Seq::<Seq<char>>::empty() =~= before_combo);
            }
        }
        proof {
            assert(str_views(matched_rules@) =~= spec_matched(self@, text@));
            assert(max_sev as int == spec_max_severity(self@, text@));
            assert(total as int == capped(spec_total(self@, text@), 2000));
        }

        // Threshold decision.
        let threshold = self.get_threshold();
        let safe = max_sev < threshold && total < 2 * threshold;
        proof {
            assert(safe == spec_safe(self@, text@));
        }

        // Score, redaction, reason.
        let score = 1000 - (if max_sev > 1000 {
            1000
        } else {
            max_sev
        });
        let filtered_content = if !safe && self.filter_replacement {
            Some(self.filter_text(text, &hits))
        } else {
            None
        };
        let reason = if !safe {
            Some(self.get_block_reason(&matched_rules))
        } else {
            None
        };
        FilterResult { safe, score, filtered_content, reason, matched_rules }
    }
}

} // verus!
