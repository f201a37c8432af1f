//! The trusted boundary to the regex and aho-corasick crates and to
//! Unicode lowercasing. Everything here is believed, not proved: each
//! wrapper's contract states only what the called crate's source and
//! documentation plainly promise, and results that are functions of the
//! arguments alone but too large to write down are given uninterpreted
//! names.

use vstd::prelude::*;
use crate::text::{is_substring, str_views, valid_hit_spans};

verus! {

/// Whether a regular-expression source compiles; `regex::Regex::new`
/// accepts or rejects a pattern by its source alone.
pub uninterp spec fn regex_compiles(pattern: Seq<char>) -> bool;

/// Whether a compiled regular expression matches anywhere in a text:
/// the result of `regex::Regex::is_match`, a function of the pattern
/// source and the text alone.
pub uninterp spec fn regex_match(pattern: Seq<char>, text: Seq<char>) -> bool;

/// Whether `aho_corasick::AhoCorasick::new` accepts a pattern list; it
/// fails only by the pattern list alone (when the automaton would exceed
/// its internal limits).
pub uninterp spec fn ac_builds(patterns: Seq<Seq<char>>) -> bool;

/// The pattern list a built Aho-Corasick automaton holds.
pub uninterp spec fn ac_patterns(m: aho_corasick::AhoCorasick) -> Seq<Seq<char>>;

/// Whether an automaton was built with the default configuration (the
/// standard match kind). The search wrapper's clauses hold only of such
/// automatons: one built with leftmost semantics reports differently.
pub uninterp spec fn ac_standard(m: aho_corasick::AhoCorasick) -> bool;

/// The substrings reported by `aho_corasick::AhoCorasick::find_iter`, in
/// reported order: a function of the pattern list and the text alone.
pub uninterp spec fn keyword_hits(patterns: Seq<Seq<char>>, text: Seq<char>) -> Seq<Seq<char>>;

/// The Unicode lowercasing of a text: the result of `str::to_lowercase`,
/// a function of the characters alone.
pub uninterp spec fn lower_of(s: Seq<char>) -> Seq<char>;

#[verifier::external_type_specification]
#[verifier::external_body]
pub struct ExAhoCorasick(aho_corasick::AhoCorasick);

/// Relies on `regex::Regex::new`: whether a pattern source compiles.
#[verifier::external_body]
pub(crate) fn regex_ok(pattern: &str) -> (r: bool)
    ensures
        r == regex_compiles(pattern@),
{
    regex::Regex::new(pattern).is_ok()
}

/// Relies on `regex::Regex::new` and `regex::Regex::is_match`: whether a
/// compilable pattern matches anywhere in the text. The `Err` arm is
/// unreachable under the precondition.
#[verifier::external_body]
pub(crate) fn regex_find(pattern: &str, text: &str) -> (r: bool)
    requires
        regex_compiles(pattern@),
    ensures
        r == regex_match(pattern@, text@),
{
    match regex::Regex::new(pattern) {
        Ok(re) => re.is_match(text),
        Err(_) => false,
    }
}

/// Relies on `aho_corasick::AhoCorasick::new`: building the multi-pattern
/// matcher succeeds or fails by the pattern list alone, and a built
/// automaton holds exactly that pattern list.
#[verifier::external_body]
pub(crate) fn build_matcher(patterns: &Vec<String>) -> (r: Option<aho_corasick::AhoCorasick>)
    ensures
        r is Some <==> ac_builds(str_views(patterns@)),
        (match r {
            Some(m) => ac_patterns(m) == str_views(patterns@) && ac_standard(m),
            None => true,
        }),
{
    aho_corasick::AhoCorasick::new(patterns).ok()
}

/// Relies on `aho_corasick::AhoCorasick::find_iter` under the default
/// standard match kind: it reports the non-overlapping occurrences of the
/// patterns left to right; every reported span holds one of the patterns,
/// nothing is reported exactly when no pattern occurs in the text, and no
/// pattern occurrence is skipped over. Empty patterns are excluded by the
/// precondition: the iterator would advance an empty match by single bytes
/// and report spans off character boundaries, where slicing panics; with
/// non-empty patterns every reported span sits on character boundaries.
#[verifier::external_body]
pub(crate) fn find_matches(m: &aho_corasick::AhoCorasick, text: &str) -> (r: Vec<String>)
    requires
        ac_standard(*m),
        forall|j: int| 0 <= j < ac_patterns(*m).len() ==> (#[trigger] ac_patterns(*m)[j]).len()
            > 0,
    ensures
        str_views(r@) == keyword_hits(ac_patterns(*m), text@),
        forall|i: int|
            0 <= i < r@.len() ==> ac_patterns(*m).contains(#[trigger] r@[i]@) && is_substring(
                r@[i]@,
                text@,
            ),
        (r@.len() == 0 <==> (forall|j: int|
            0 <= j < ac_patterns(*m).len() ==> !is_substring(
                #[trigger] ac_patterns(*m)[j],
                text@,
            ))),
        exists|starts: Seq<int>| valid_hit_spans(ac_patterns(*m), text@, str_views(r@), starts),
{
    let mut out = Vec::new();
    for mat in m.find_iter(text) {
        out.push(text[mat.start()..mat.end()].to_string());
    }
    out
}

/// Relies on `str::to_lowercase`: the result depends on the characters
/// alone.
#[verifier::external_body]
pub(crate) fn lowercase(s: &str) -> (r: String)
    ensures
        r@ == lower_of(s@),
{
    s.to_lowercase()
}

} // verus!
