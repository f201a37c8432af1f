//! Verified text primitives: substring search, masking replacement and
//! joining, over `&str` and `String` with `Seq<char>` views.

use vstd::prelude::*;

verus! {

/// `needle` occurs in `hay` at position `at`. Positions and lengths are
/// measured in characters throughout this crate.
pub open spec fn occurs_at(hay: Seq<char>, needle: Seq<char>, at: int) -> bool {
    0 <= at && at + needle.len() <= hay.len() && hay.subrange(at, at + needle.len()) == needle
}

/// The reported hits stand at `starts`: each hit occurs there, the spans
/// are disjoint and ordered left to right, and every occurrence of every
/// non-empty pattern overlaps some reported span.
pub open spec fn valid_hit_spans(
    patterns: Seq<Seq<char>>,
    text: Seq<char>,
    hits: Seq<Seq<char>>,
    starts: Seq<int>,
) -> bool {
    &&& starts.len() == hits.len()
    &&& (forall|i: int| 0 <= i < hits.len() ==> occurs_at(text, hits[i], #[trigger] starts[i]))
    &&& (forall|i: int|
        0 <= i < hits.len() - 1 ==> #[trigger] starts[i] + hits[i].len() <= starts[i + 1])
    &&& (forall|p: Seq<char>, q: int|
        patterns.contains(p) && p.len() > 0 && #[trigger] occurs_at(text, p, q) ==> exists|
            i: int,
        |
            0 <= i < hits.len() && #[trigger] starts[i] < q + p.len() && q < starts[i]
                + hits[i].len())
}

/// `needle` occurs somewhere in `hay`.
pub open spec fn is_substring(needle: Seq<char>, hay: Seq<char>) -> bool {
    exists|i: int|
        0 <= i && i + needle.len() <= hay.len() && #[trigger] hay.subrange(
            i,
            i + needle.len(),
        ) == needle
}

/// `needle` occurs in `hay` at position `at`.
fn match_at(hay: &str, at: usize, needle: &str) -> (r: bool)
    requires
        at + needle@.len() <= hay@.len(),
        hay@.len() <= usize::MAX,
    ensures
        r == (hay@.subrange(at as int, at + needle@.len()) == needle@),
{
    let n = needle.unicode_len();
    let mut k: usize = 0;
    while k < n
        invariant
            n == needle@.len(),
            at + n <= hay@.len(),
            hay@.len() <= usize::MAX,
            0 <= k <= n,
            forall|m: int| 0 <= m < k ==> hay@[at + m] == needle@[m],
        decreases n - k,
    {
        if hay.get_char(at + k) != needle.get_char(k) {
            proof {
                assert(hay@.subrange(at as int, at + n)[k as int] == hay@[at + k]);
            }
            return false;
        }
        k = k + 1;
    }
    proof {
        assert(hay@.subrange(at as int, at + n) =~= needle@);
    }
    true
}

/// Substring search: returns whether `needle` occurs in `hay`.
pub fn contains_sub(hay: &str, needle: &str) -> (r: bool)
    ensures
        r == is_substring(needle@, hay@),
{
    let h = hay.unicode_len();
    let n = needle.unicode_len();
    if n == 0 {
        proof {
            assert(hay@.subrange(0, 0 + needle@.len() as int) =~= needle@);
            assert(is_substring(needle@, hay@));
        }
        return true;
    }
    if n > h {
        return false;
    }
    let mut i: usize = 0;
    while i <= h - n
        invariant
            h == hay@.len(),
            n == needle@.len(),
            1 <= n <= h,
            0 <= i <= h - n + 1,
            forall|j: int|
                0 <= j < i ==> #[trigger] hay@.subrange(j, j + needle@.len()) != needle@,
        decreases h - i,
    {
        if match_at(hay, i, needle) {
            proof {
                assert(0 <= i as int && i as int + needle@.len() <= hay@.len()
                    && hay@.subrange(i as int, i as int + needle@.len()) == needle@);
                assert(is_substring(needle@, hay@));
            }
            return true;
        }
        i = i + 1;
    }
    false
}

/// A run of `n` mask characters.
pub open spec fn stars(n: nat) -> Seq<char> {
    Seq::new(n, |i: int| '*')
}

/// Every non-overlapping occurrence of `needle` in `hay`, left to right,
/// replaced by a run of `*` of the same length; an empty `needle` leaves
/// `hay` unchanged. The mask run is measured in characters — a deliberate
/// choice: a masked span keeps its character count, so for a keyword
/// beyond ASCII the byte count of the copy may shrink.
pub open spec fn replace_all(hay: Seq<char>, needle: Seq<char>) -> Seq<char>
    decreases hay.len(),
{
    if needle.len() == 0 {
        hay
    } else if hay.len() < needle.len() {
        hay
    } else if hay.subrange(0, needle.len() as int) == needle {
        stars(needle.len()) + replace_all(hay.skip(needle.len() as int), needle)
    } else {
        seq![hay[0]] + replace_all(hay.skip(1), needle)
    }
}

/// Executable form of `replace_all`.
pub fn replace_masked(text: &str, needle: &str) -> (r: String)
    ensures
        r@ == replace_all(text@, needle@),
{
    let h = text.unicode_len();
    let n = needle.unicode_len();
    if n == 0 {
        return String::from_str(text);
    }
    let mut out = String::new();
    proof {
        assert(text@.skip(0) =~= text@);
        assert(Seq::<char>::empty() + replace_all(text@, needle@) =~= replace_all(
            text@,
            needle@,
        ));
    }
    let mut i: usize = 0;
    while i < h
        invariant
            h == text@.len(),
            n == needle@.len(),
            n >= 1,
            0 <= i <= h,
            out@ + replace_all(text@.skip(i as int), needle@) == replace_all(text@, needle@),
        decreases h - i,
    {
        let ghost rest = text@.skip(i as int);
        if n <= h - i && match_at(text, i, needle) {
            proof {
                assert(rest.subrange(0, n as int) =~= text@.subrange(i as int, i + n));
                assert(rest.skip(n as int) =~= text@.skip(i + n));
                assert(replace_all(rest, needle@) == stars(n as nat) + replace_all(
                    rest.skip(n as int),
                    needle@,
                ));
            }
            let ghost out0 = out@;
            proof {
                assert(out0 + stars(0) =~= out0);
            }
            let mut k: usize = 0;
            while k < n
                invariant
                    0 <= k <= n,
                    out@ == out0 + stars(k as nat),
                decreases n - k,
            {
                out.append("*");
                proof {
                    reveal_strlit("*");
                    assert(out@ =~= out0 + stars((k + 1) as nat));
                }
                k = k + 1;
            }
            proof {
                assert((out0 + stars(n as nat)) + replace_all(text@.skip(i + n), needle@)
                    =~= out0 + (stars(n as nat) + replace_all(text@.skip(i + n), needle@)));
            }
            i = i + n;
        } else {
            let ghost out0 = out@;
            proof {
                assert(rest.skip(1) =~= text@.skip(i + 1));
                assert(seq![rest[0]] =~= text@.subrange(i as int, i + 1));
                if n <= h - i {
                    assert(rest.subrange(0, n as int) =~= text@.subrange(i as int, i + n));
                    assert(replace_all(rest, needle@) == seq![rest[0]] + replace_all(
                        rest.skip(1),
                        needle@,
                    ));
                } else {
                    assert(replace_all(rest, needle@) == rest);
                    assert(replace_all(text@.skip(i + 1), needle@) == text@.skip(i + 1));
                    assert(rest =~= seq![rest[0]] + rest.skip(1));
                }
                assert((out0 + seq![rest[0]]) + replace_all(text@.skip(i + 1), needle@) =~= out0
                    + (seq![rest[0]] + replace_all(text@.skip(i + 1), needle@)));
            }
            out.append(text.substring_char(i, i + 1));
            i = i + 1;
        }
    }
    proof {
        assert(text@.skip(h as int) =~= Seq::<char>::empty());
        assert(out@ + Seq::<char>::empty() =~= out@);
    }
    out
}

/// Successive masking passes, one per matched keyword, in order.
pub open spec fn redact_spec(text: Seq<char>, hits: Seq<Seq<char>>) -> Seq<char>
    decreases hits.len(),
{
    if hits.len() == 0 {
        text
    } else {
        redact_spec(replace_all(text, hits[0]), hits.skip(1))
    }
}

/// The character sequences of a list of strings.
pub open spec fn str_views(v: Seq<String>) -> Seq<Seq<char>> {
    v.map_values(|s: String| s@)
}

/// Executable form of `redact_spec`: masks every occurrence of every matched
/// keyword in `text`.
pub fn redact(text: &str, hits: &Vec<String>) -> (r: String)
    ensures
        r@ == redact_spec(text@, str_views(hits@)),
{
    let mut cur = String::from_str(text);
    proof {
        assert(str_views(hits@).skip(0) =~= str_views(hits@));
    }
    let mut i: usize = 0;
    while i < hits.len()
        invariant
            0 <= i <= hits@.len(),
            redact_spec(cur@, str_views(hits@).skip(i as int)) == redact_spec(
                text@,
                str_views(hits@),
            ),
        decreases hits@.len() - i,
    {
        let ghost pre = str_views(hits@).skip(i as int);
        proof {
            assert(pre[0] == hits@[i as int]@);
            assert(pre.skip(1) =~= str_views(hits@).skip(i + 1));
        }
        cur = replace_masked(cur.as_str(), hits[i].as_str());
        i = i + 1;
    }
    proof {
        assert(str_views(hits@).skip(hits@.len() as int) =~= Seq::<Seq<char>>::empty());
    }
    cur
}

/// The items joined with the separator between neighbours.
pub open spec fn join_with(items: Seq<Seq<char>>, sep: Seq<char>) -> Seq<char>
    decreases items.len(),
{
    if items.len() == 0 {
        Seq::empty()
    } else if items.len() == 1 {
        items[0]
    } else {
        items[0] + sep + join_with(items.skip(1), sep)
    }
}

proof fn lemma_join_push(items: Seq<Seq<char>>, x: Seq<char>, sep: Seq<char>)
    ensures
        join_with(items.push(x), sep) == if items.len() == 0 {
            x
        } else {
            join_with(items, sep) + sep + x
        },
    decreases items.len(),
{
    if items.len() == 0 {
        assert(join_with(items.push(x), sep) == items.push(x)[0]);
    } else if items.len() == 1 {
        assert(items.push(x).skip(1) =~= seq![x]);
        assert(join_with(seq![x], sep) == x);
        assert(join_with(items.push(x), sep) == items[0] + sep + x);
    } else {
        assert(items.push(x).skip(1) =~= items.skip(1).push(x));
        lemma_join_push(items.skip(1), x, sep);
        assert(items[0] + sep + (join_with(items.skip(1), sep) + sep + x) =~= (items[0] + sep
            + join_with(items.skip(1), sep)) + sep + x);
    }
}

/// Executable form of `join_with`.
pub fn join_strings(items: &Vec<String>, sep: &str) -> (r: String)
    ensures
        r@ == join_with(str_views(items@), sep@),
{
    let mut acc = String::new();
    let mut i: usize = 0;
    while i < items.len()
        invariant
            0 <= i <= items@.len(),
            acc@ == join_with(str_views(items@).take(i as int), sep@),
        decreases items@.len() - i,
    {
        proof {
            lemma_join_push(str_views(items@).take(i as int), items@[i as int]@, sep@);
            assert(str_views(items@).take(i as int).push(items@[i as int]@) =~= str_views(
                items@,
            ).take(i + 1));
        }
        if i > 0 {
            acc.append(sep);
        }
        acc.append(items[i].as_str());
        i = i + 1;
    }
    proof {
        assert(str_views(items@).take(items@.len() as int) =~= str_views(items@));
    }
    acc
}

} // verus!
