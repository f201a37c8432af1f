//! The general laws of evaluation, stated and proved over the model.

use vstd::prelude::*;
use crate::config::threshold_of;
use crate::outside::regex_match;
use crate::text::{occurs_at, redact_spec, replace_all};
use crate::model::{
    capped, fired_labels, lemma_warn_raw_halves, spec_combo, spec_hits, spec_kw_severity,
    spec_matched, spec_max_severity, spec_safe, spec_score, spec_warn_contrib, spec_warn_raw,
    spec_whitelisted, PatView, RulesView,
};

verus! {

/// How often `x` occurs in `s`.
pub open spec fn count_eq(s: Seq<Seq<char>>, x: Seq<char>) -> int
    decreases s.len(),
{
    if s.len() == 0 {
        0int
    } else {
        count_eq(s.drop_last(), x) + if s.last() == x {
            1int
        } else {
            0int
        }
    }
}

proof fn lemma_count_concat(a: Seq<Seq<char>>, b: Seq<Seq<char>>, x: Seq<char>)
    ensures
        count_eq(a + b, x) == count_eq(a, x) + count_eq(b, x),
    decreases b.len(),
{
    if b.len() == 0 {
        assert(a + b =~= a);
    } else {
        assert((a + b).drop_last() =~= a + b.drop_last());
        assert((a + b).last() == b.last());
        lemma_count_concat(a, b.drop_last(), x);
    }
}

proof fn lemma_count_zero(s: Seq<Seq<char>>, x: Seq<char>)
    requires
        forall|j: int| 0 <= j < s.len() ==> #[trigger] s[j] != x,
    ensures
        count_eq(s, x) == 0,
    decreases s.len(),
{
    if s.len() > 0 {
        lemma_count_zero(s.drop_last(), x);
    }
}

proof fn lemma_fired_labels_prefixed(ps: Seq<PatView>, text: Seq<char>)
    ensures
        forall|j: int|
            0 <= j < fired_labels(ps, text).len() ==> (#[trigger] fired_labels(ps, text)[j]).len()
                > 0 && fired_labels(ps, text)[j][0] == "pattern: "@[0],
    decreases ps.len(),
{
    reveal_strlit("pattern: ");
    if ps.len() > 0 {
        lemma_fired_labels_prefixed(ps.drop_last(), text);
        let rest = fired_labels(ps.drop_last(), text);
        let whole = fired_labels(ps, text);
        assert forall|j: int| 0 <= j < whole.len() implies (#[trigger] whole[j]).len() > 0
            && whole[j][0] == "pattern: "@[0] by {
            if j < rest.len() {
                assert(whole[j] == rest[j]);
            } else {
                assert(whole[j] == "pattern: "@ + ps.last().name);
            }
        }
    }
}

/// A whitelisted text is unconditionally safe: full confidence, no matched
/// rules, whatever the other rules would have said.
pub proof fn lemma_whitelist_overrides(rv: RulesView, text: Seq<char>)
    requires
        spec_whitelisted(rv, text),
    ensures
        spec_safe(rv, text),
        spec_score(rv, text) == 1000,
        spec_matched(rv, text) == Seq::<Seq<char>>::empty(),
{
}

/// Verdicts are monotone across modes: with the same rules and text, if a
/// stricter mode (a lower threshold) calls the text safe, every looser mode
/// calls it safe too.
pub proof fn lemma_mode_monotonic(rv1: RulesView, rv2: RulesView, text: Seq<char>)
    requires
        rv1.banned == rv2.banned,
        rv1.warning == rv2.warning,
        rv1.patterns == rv2.patterns,
        rv1.whitelist == rv2.whitelist,
        threshold_of(rv1.mode) <= threshold_of(rv2.mode),
        spec_safe(rv1, text),
    ensures
        spec_safe(rv2, text),
{
}

/// The severity of `n` banned-keyword matches is `0.3 n`, capped at one:
/// a single match scores three tenths, four or more max out.
pub proof fn lemma_banned_severity(n: int)
    requires
        n >= 0,
    ensures
        spec_kw_severity(n) == capped(300 * n, 1000),
        n == 1 ==> spec_kw_severity(n) == 300,
        n >= 4 ==> spec_kw_severity(n) == 1000,
{
}

/// The warning-keyword contribution is the raw per-keyword accumulation
/// (one fifth per hit, capped at one) halved exactly, and it never feeds
/// the maximal severity: two rule sets differing only in their warning
/// lists see the same severity and report the same score.
pub proof fn lemma_warning_halved(rv1: RulesView, rv2: RulesView, text: Seq<char>)
    requires
        rv1.banned == rv2.banned,
        rv1.patterns == rv2.patterns,
        rv1.whitelist == rv2.whitelist,
        rv1.mode == rv2.mode,
    ensures
        spec_warn_raw(rv1.warning, text) == 2 * spec_warn_contrib(rv1.warning, text),
        spec_max_severity(rv1, text) == spec_max_severity(rv2, text),
        spec_score(rv1, text) == spec_score(rv2, text),
{
    lemma_warn_raw_halves(rv1.warning, text);
    assert(spec_hits(rv1, text) == spec_hits(rv2, text));
    assert(spec_max_severity(rv1, text) == spec_max_severity(rv2, text));
    assert(spec_whitelisted(rv1, text) == spec_whitelisted(rv2, text)) by {
        if spec_whitelisted(rv1, text) {
            let i = choose|i: int|
                0 <= i < rv1.whitelist.len() && regex_match(#[trigger] rv1.whitelist[i], text);
            assert(regex_match(rv2.whitelist[i], text));
        }
        if spec_whitelisted(rv2, text) {
            let i = choose|i: int|
                0 <= i < rv2.whitelist.len() && regex_match(#[trigger] rv2.whitelist[i], text);
            assert(regex_match(rv1.whitelist[i], text));
        }
    }
}

/// One masking pass preserves the text's length, and every character it
/// changes becomes the mask character.
pub proof fn lemma_replace_all_shape(hay: Seq<char>, needle: Seq<char>)
    ensures
        replace_all(hay, needle).len() == hay.len(),
        forall|i: int|
            0 <= i < hay.len() ==> #[trigger] replace_all(hay, needle)[i] == hay[i]
                || replace_all(hay, needle)[i] == '*',
    decreases hay.len(),
{
    let n = needle.len() as int;
    let out = replace_all(hay, needle);
    if needle.len() == 0 || hay.len() < needle.len() {
    } else if hay.subrange(0, n) == needle {
        lemma_replace_all_shape(hay.skip(n), needle);
        assert forall|i: int| 0 <= i < hay.len() implies #[trigger] out[i] == hay[i] || out[i]
            == '*' by {
            if i >= n {
                assert(out[i] == replace_all(hay.skip(n), needle)[i - n]);
                assert(hay.skip(n)[i - n] == hay[i]);
            }
        }
    } else {
        lemma_replace_all_shape(hay.skip(1), needle);
        assert forall|i: int| 0 <= i < hay.len() implies #[trigger] out[i] == hay[i] || out[i]
            == '*' by {
            if i >= 1 {
                assert(out[i] == replace_all(hay.skip(1), needle)[i - 1]);
                assert(hay.skip(1)[i - 1] == hay[i]);
            }
        }
    }
}

/// One masking pass changes a character only inside an occurrence of that
/// pass's needle; everything outside every occurrence is carried over
/// unchanged. This is a property of a single pass: a later pass's needle
/// may itself contain the mask character and match spans an earlier pass
/// wrote, so it does not lift to the passes' composition.
pub proof fn lemma_replace_all_masks_within(hay: Seq<char>, needle: Seq<char>)
    ensures
        forall|i: int|
            0 <= i < hay.len() && #[trigger] replace_all(hay, needle)[i] != hay[i]
                ==> exists|q: int| occurs_at(hay, needle, q) && q <= i < q + needle.len(),
    decreases hay.len(),
{
    let n = needle.len() as int;
    let out = replace_all(hay, needle);
    if needle.len() == 0 || hay.len() < needle.len() {
    } else if hay.subrange(0, n) == needle {
        lemma_replace_all_masks_within(hay.skip(n), needle);
        lemma_replace_all_shape(hay.skip(n), needle);
        assert forall|i: int| 0 <= i < hay.len() && #[trigger] out[i] != hay[i] implies exists|
            q: int,
        | occurs_at(hay, needle, q) && q <= i < q + needle.len() by {
            if i < n {
                assert(occurs_at(hay, needle, 0));
                assert(occurs_at(hay, needle, 0) && 0 <= i < 0 + needle.len());
            } else {
                assert(out[i] == replace_all(hay.skip(n), needle)[i - n]);
                assert(hay.skip(n)[i - n] == hay[i]);
                let q = choose|q: int|
                    occurs_at(hay.skip(n), needle, q) && q <= i - n < q + needle.len();
                assert(hay.skip(n).subrange(q, q + n) =~= hay.subrange(q + n, q + n + n));
                assert(occurs_at(hay, needle, q + n) && q + n <= i < q + n + needle.len());
            }
        }
    } else {
        lemma_replace_all_masks_within(hay.skip(1), needle);
        lemma_replace_all_shape(hay.skip(1), needle);
        assert forall|i: int| 0 <= i < hay.len() && #[trigger] out[i] != hay[i] implies exists|
            q: int,
        | occurs_at(hay, needle, q) && q <= i < q + needle.len() by {
            assert(out[0] == hay[0]);
            assert(out[i] == replace_all(hay.skip(1), needle)[i - 1]);
            assert(hay.skip(1)[i - 1] == hay[i]);
            let q = choose|q: int|
                occurs_at(hay.skip(1), needle, q) && q <= i - 1 < q + needle.len();
            assert(hay.skip(1).subrange(q, q + n) =~= hay.subrange(q + 1, q + 1 + n));
            assert(occurs_at(hay, needle, q + 1) && q + 1 <= i < q + 1 + needle.len());
        }
    }
}

/// Redaction preserves the text's length — so every masked span keeps the
/// length it replaced — and every character it changes becomes the mask
/// character; unmatched characters are carried over unchanged.
pub proof fn lemma_redact_shape(text: Seq<char>, hits: Seq<Seq<char>>)
    ensures
        redact_spec(text, hits).len() == text.len(),
        forall|i: int|
            0 <= i < text.len() ==> #[trigger] redact_spec(text, hits)[i] == text[i]
                || redact_spec(text, hits)[i] == '*',
    decreases hits.len(),
{
    if hits.len() > 0 {
        let pass = replace_all(text, hits[0]);
        lemma_replace_all_shape(text, hits[0]);
        lemma_redact_shape(pass, hits.skip(1));
        assert forall|i: int| 0 <= i < text.len() implies #[trigger] redact_spec(text, hits)[i]
            == text[i] || redact_spec(text, hits)[i] == '*' by {
            assert(redact_spec(text, hits)[i] == redact_spec(pass, hits.skip(1))[i]);
            assert(pass[i] == text[i] || pass[i] == '*');
        }
    }
}

/// The combination label appears at most once among the matched rules,
/// however many table rows the text satisfies: keyword and pattern labels
/// carry their own prefixes and can never spell it.
pub proof fn lemma_combo_label_once(rv: RulesView, text: Seq<char>)
    ensures
        count_eq(spec_matched(rv, text), "dangerous_combination"@) <= 1,
{
    let label = "dangerous_combination"@;
    reveal_strlit("dangerous_combination");
    reveal_strlit("keyword: ");
    reveal_strlit("pattern: ");
    if spec_whitelisted(rv, text) {
        assert(count_eq(spec_matched(rv, text), label) == 0);
    } else {
        let kw_part = spec_hits(rv, text).map_values(|h: Seq<char>| "keyword: "@ + h);
        let pat_part = fired_labels(rv.patterns, text);
        let combo_part: Seq<Seq<char>> = if spec_combo(text) {
            seq![label]
        } else {
            Seq::empty()
        };
        assert forall|j: int| 0 <= j < kw_part.len() implies #[trigger] kw_part[j] != label by {
            assert(kw_part[j][0] == "keyword: "@[0]);
        }
        lemma_count_zero(kw_part, label);
        lemma_fired_labels_prefixed(rv.patterns, text);
        assert forall|j: int| 0 <= j < pat_part.len() implies #[trigger] pat_part[j] != label by {
            assert(pat_part[j][0] == "pattern: "@[0]);
        }
        lemma_count_zero(pat_part, label);
        assert(count_eq(combo_part, label) <= 1) by {
            if spec_combo(text) {
                assert(combo_part.drop_last() =~= Seq::<Seq<char>>::empty());
                assert(count_eq(Seq::<Seq<char>>::empty(), label) == 0);
                assert(count_eq(combo_part, label) == 1);
            } else {
                assert(count_eq(combo_part, label) == 0);
            }
        }
        lemma_count_concat(kw_part + pat_part, combo_part, label);
        lemma_count_concat(kw_part, pat_part, label);
        assert(spec_matched(rv, text) == (kw_part + pat_part) + combo_part);
    }
}

} // verus!
