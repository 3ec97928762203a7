//! Word wrapping of one line of text into fragments of bounded width.
use vstd::prelude::*;
use vstd::string::*;
use crate::text::{
    back_spaces, chars_of, is_whitespace, is_ws, lemma_back_ws, lemma_skip_ws, lemma_trim, skip_spaces,
    skip_ws, trim,
};

verus! {

/// Longest fragment that a cut produces for a wrap width `w`.
pub open spec fn line_limit(w: nat) -> int {
    if w >= 2 {
        w - 1
    } else {
        1
    }
}

/// Largest `j` with `a < j < e` and `t[j]` whitespace, or `a` when there is none.
pub open spec fn last_break(t: Seq<char>, a: int, e: int) -> int
    decreases e - a,
{
    if e <= a + 1 {
        a
    } else if is_ws(t[e - 1]) {
        e - 1
    } else {
        last_break(t, a, e - 1)
    }
}

/// Where a line starting at `a` that must end before `e` is cut: at the last
/// whitespace after `a`, or at `e` when the line holds a single long word.
pub open spec fn cut_at(t: Seq<char>, a: int, e: int) -> int {
    let j = last_break(t, a, e);
    if j > a {
        j
    } else {
        e
    }
}

pub proof fn lemma_last_break(t: Seq<char>, a: int, e: int)
    requires
        0 <= a < e <= t.len(),
    ensures
        a <= last_break(t, a, e) < e,
        last_break(t, a, e) > a ==> is_ws(t[last_break(t, a, e)]),
        forall|k: int| last_break(t, a, e) < k < e ==> !is_ws(#[trigger] t[k]),
    decreases e - a,
{
    if e > a + 1 && !is_ws(t[e - 1]) {
        lemma_last_break(t, a, e - 1);
    }
}

/// The fragments of the trimmed text `t` from index `a` on.
pub open spec fn wrap_from(t: Seq<char>, a: int, w: nat) -> Seq<Seq<char>>
    decreases t.len() - a,
{
    if a < 0 || t.len() - a <= line_limit(w) {
        seq![t.subrange(a, t.len() as int)]
    } else {
        let p = cut_at(t, a, a + line_limit(w));
        proof {
            lemma_last_break(t, a, a + line_limit(w));
            lemma_skip_ws(t, p);
        }
        seq![t.subrange(a, p)] + wrap_from(t, skip_ws(t, p), w)
    }
}

/// The whitespace dropped at each cut of `wrap_from(t, a, w)`.
pub open spec fn wrap_gaps_from(t: Seq<char>, a: int, w: nat) -> Seq<Seq<char>>
    decreases t.len() - a,
{
    if a < 0 || t.len() - a <= line_limit(w) {
        Seq::empty()
    } else {
        let p = cut_at(t, a, a + line_limit(w));
        proof {
            lemma_last_break(t, a, a + line_limit(w));
            lemma_skip_ws(t, p);
        }
        seq![t.subrange(p, skip_ws(t, p))] + wrap_gaps_from(t, skip_ws(t, p), w)
    }
}

/// The fragments that `s` wraps into at width `w`.
pub open spec fn wrap_spec(s: Seq<char>, w: nat) -> Seq<Seq<char>> {
    wrap_from(trim(s), 0, w)
}

/// The whitespace runs between consecutive fragments of `wrap_spec(s, w)`.
pub open spec fn wrap_gaps(s: Seq<char>, w: nat) -> Seq<Seq<char>> {
    wrap_gaps_from(trim(s), 0, w)
}

/// The text of each string.
pub open spec fn lines_view(v: Seq<String>) -> Seq<Seq<char>> {
    v.map_values(|x: String| x@)
}

/// Fragments with the given separators between them.
pub open spec fn weave(frags: Seq<Seq<char>>, gaps: Seq<Seq<char>>) -> Seq<char>
    decreases frags.len(),
{
    if frags.len() == 0 {
        Seq::empty()
    } else if frags.len() == 1 {
        frags[0]
    } else {
        frags[0] + gaps[0] + weave(frags.drop_first(), gaps.drop_first())
    }
}

/// Fragments joined by single spaces.
pub open spec fn join_spaced(frags: Seq<Seq<char>>) -> Seq<char>
    decreases frags.len(),
{
    if frags.len() == 0 {
        Seq::empty()
    } else if frags.len() == 1 {
        frags[0]
    } else {
        frags[0] + seq![' '] + join_spaced(frags.drop_first())
    }
}

/// Every whitespace character is a space followed by a non-whitespace character.
pub open spec fn single_spaced(t: Seq<char>) -> bool {
    forall|k: int|
        0 <= k < t.len() && is_ws(#[trigger] t[k]) ==> t[k] == ' ' && k + 1 < t.len() && !is_ws(
            t[k + 1],
        )
}

/// Some character of `t[i..j]` is whitespace.
pub open spec fn has_break(t: Seq<char>, i: int, j: int) -> bool {
    exists|k: int| i <= k < j && is_ws(#[trigger] t[k])
}

/// No run of non-whitespace characters is `w` or more long.
pub open spec fn words_fit(t: Seq<char>, w: nat) -> bool {
    forall|i: int| 0 <= i && i + w <= t.len() ==> #[trigger] has_break(t, i, i + w)
}

/// Position of the cut for a line `t[a..]` that must end before `e`.
fn find_cut(t: &Vec<char>, a: usize, e: usize) -> (r: usize)
    requires
        a < e < t@.len(),
    ensures
        r == cut_at(t@, a as int, e as int),
{
    let mut j = e;
    while j > a + 1 && !is_whitespace(t[j - 1])
        invariant
            a < j <= e < t@.len(),
            last_break(t@, a as int, j as int) == last_break(t@, a as int, e as int),
        decreases j,
    {
        j -= 1;
    }
    if j > a + 1 {
        j - 1
    } else {
        e
    }
}

/// Breaks `s`, trimmed, into fragments of at most `max_length - 1` characters
/// (one character when `max_length` is 1). A line is cut at its last
/// whitespace before the limit, or, holding a single longer word, at the
/// limit itself; whitespace at a cut is dropped. Empty text gives one empty
/// fragment.
pub fn word_wrap(s: &str, max_length: usize) -> (r: Vec<String>)
    requires
        max_length >= 1,
    ensures
        lines_view(r@) == wrap_spec(s@, max_length as nat),
{
    let ghost w = max_length as nat;
    let cs = chars_of(s);
    let start = skip_spaces(&cs, 0);
    let end = back_spaces(&cs, cs.len());
    proof {
        lemma_trim(s@);
        lemma_back_ws(s@, s@.len() as int);
    }
    let mut res: Vec<String> = Vec::new();
    if start >= end {
        res.push(String::new());
        assert(trim(s@).subrange(0, 0) =~= Seq::<char>::empty());
        assert(lines_view(res@) =~= wrap_spec(s@, w));
        return res;
    }
    let ts = s.substring_char(start, end);
    let t = chars_of(ts);
    let n = t.len();
    let limit: usize = if max_length >= 2 {
        max_length - 1
    } else {
        1
    };
    let mut a: usize = 0;
    assert(lines_view(res@) + wrap_from(t@, 0, w) =~= wrap_spec(s@, w));
    while n - a > limit
        invariant
            t@ == ts@,
            ts@ == trim(s@),
            n == t@.len(),
            a <= n,
            limit == line_limit(w),
            lines_view(res@) + wrap_from(t@, a as int, w) == wrap_spec(s@, w),
        decreases n - a,
    {
        let p = find_cut(&t, a, a + limit);
        proof {
            lemma_last_break(t@, a as int, (a + limit) as int);
        }
        let ghost before = res@;
        res.push(String::from_str(ts.substring_char(a, p)));
        let next = skip_spaces(&t, p);
        proof {
            lemma_skip_ws(t@, p as int);
            assert(wrap_from(t@, a as int, w) == seq![t@.subrange(a as int, p as int)] + wrap_from(
                t@,
                next as int,
                w,
            ));
            assert(lines_view(res@) =~= lines_view(before) + seq![t@.subrange(a as int, p as int)]);
        }
        a = next;
    }
    let ghost before = res@;
    res.push(String::from_str(ts.substring_char(a, n)));
    assert(wrap_from(t@, a as int, w) == seq![t@.subrange(a as int, n as int)]);
    assert(lines_view(res@) =~= lines_view(before) + wrap_from(t@, a as int, w));
    res
}

proof fn lemma_wrap_from(t: Seq<char>, a: int, w: nat)
    requires
        0 <= a <= t.len(),
    ensures
        wrap_from(t, a, w).len() >= 1,
        wrap_gaps_from(t, a, w).len() + 1 == wrap_from(t, a, w).len(),
        forall|i: int|
            0 <= i < wrap_from(t, a, w).len() ==> (#[trigger] wrap_from(t, a, w)[i]).len()
                <= line_limit(w),
        forall|i: int|
            0 <= i < wrap_gaps_from(t, a, w).len() ==> forall|k: int|
                0 <= k < (#[trigger] wrap_gaps_from(t, a, w)[i]).len() ==> is_ws(
                    wrap_gaps_from(t, a, w)[i][k],
                ),
        forall|i: int|
            0 <= i < wrap_gaps_from(t, a, w).len() && (#[trigger] wrap_gaps_from(t, a, w)[i]).len()
                == 0 ==> wrap_from(t, a, w)[i].len() == line_limit(w),
        weave(wrap_from(t, a, w), wrap_gaps_from(t, a, w)) == t.subrange(a, t.len() as int),
    decreases t.len() - a,
{
    let frags = wrap_from(t, a, w);
    let gaps = wrap_gaps_from(t, a, w);
    if t.len() - a > line_limit(w) {
        let e = a + line_limit(w);
        let p = cut_at(t, a, e);
        lemma_last_break(t, a, e);
        lemma_skip_ws(t, p);
        let q = skip_ws(t, p);
        lemma_wrap_from(t, q, w);
        let rest = wrap_from(t, q, w);
        let rgaps = wrap_gaps_from(t, q, w);
        assert(frags == seq![t.subrange(a, p)] + rest);
        assert(gaps == seq![t.subrange(p, q)] + rgaps);
        assert(frags.drop_first() =~= rest);
        assert(gaps.drop_first() =~= rgaps);
        assert forall|i: int| 0 <= i < frags.len() implies (#[trigger] frags[i]).len()
            <= line_limit(w) by {
            if i > 0 {
                assert(frags[i] == rest[i - 1]);
            }
        }
        assert forall|i: int| 0 <= i < gaps.len() implies forall|k: int|
            0 <= k < (#[trigger] gaps[i]).len() ==> is_ws(gaps[i][k]) by {
            if i > 0 {
                assert(gaps[i] == rgaps[i - 1]);
            } else {
                assert forall|k: int| 0 <= k < gaps[0].len() implies is_ws(gaps[0][k]) by {
                    assert(gaps[0][k] == t[p + k]);
                }
            }
        }
        assert forall|i: int| 0 <= i < gaps.len() && (#[trigger] gaps[i]).len() == 0 implies frags[i].len()
            == line_limit(w) by {
            if i > 0 {
                assert(gaps[i] == rgaps[i - 1]);
                assert(frags[i] == rest[i - 1]);
            } else if last_break(t, a, e) > a {
                assert(q > p);
            }
        }
        assert(weave(frags, gaps) == t.subrange(a, p) + t.subrange(p, q) + weave(rest, rgaps));
        assert(weave(frags, gaps) =~= t.subrange(a, t.len() as int));
    } else {
        assert(weave(frags, gaps) == t.subrange(a, t.len() as int));
    }
}

/// No fragment is longer than `max(w - 1, 1)` characters (so none exceeds
/// `w`); rejoining the fragments with the whitespace runs dropped between
/// them gives back the trimmed text exactly; and a cut that drops no
/// whitespace, which splits a word too long for one line, leaves a fragment
/// of exactly `w - 1` characters.
pub proof fn lemma_wrap_reassembles(s: Seq<char>, w: nat)
    requires
        w >= 1,
    ensures
        wrap_spec(s, w).len() >= 1,
        wrap_gaps(s, w).len() + 1 == wrap_spec(s, w).len(),
        forall|i: int|
            0 <= i < wrap_spec(s, w).len() ==> (#[trigger] wrap_spec(s, w)[i]).len() <= line_limit(
                w,
            ),
        forall|i: int, k: int|
            0 <= i < wrap_gaps(s, w).len() && 0 <= k < wrap_gaps(s, w)[i].len() ==> is_ws(
                #[trigger] wrap_gaps(s, w)[i][k],
            ),
        forall|i: int|
            0 <= i < wrap_gaps(s, w).len() && (#[trigger] wrap_gaps(s, w)[i]).len() == 0
                ==> wrap_spec(s, w)[i].len() == line_limit(w),
        weave(wrap_spec(s, w), wrap_gaps(s, w)) == trim(s),
{
    lemma_wrap_from(trim(s), 0, w);
    assert(trim(s).subrange(0, trim(s).len() as int) =~= trim(s));
    let gaps = wrap_gaps(s, w);
    assert forall|i: int, k: int|
        0 <= i < gaps.len() && 0 <= k < gaps[i].len() implies is_ws(#[trigger] gaps[i][k]) by {
        assert(0 <= k < gaps[i].len());
    }
}

proof fn lemma_wrap_from_spaced(t: Seq<char>, a: int, w: nat)
    requires
        w >= 2,
        0 <= a <= t.len(),
        a < t.len() ==> !is_ws(t[a]),
        single_spaced(t),
        words_fit(t, w),
    ensures
        join_spaced(wrap_from(t, a, w)) == t.subrange(a, t.len() as int),
    decreases t.len() - a,
{
    let frags = wrap_from(t, a, w);
    if t.len() - a > line_limit(w) {
        let e = a + line_limit(w);
        let p = cut_at(t, a, e);
        lemma_last_break(t, a, e);
        if last_break(t, a, e) == a {
            assert(has_break(t, a, a + w));
            let k = choose|k: int| a <= k < a + w && is_ws(t[k]);
            assert(k == e);
        }
        assert(t[p] == ' ' && p + 1 < t.len() && !is_ws(t[p + 1]));
        assert(skip_ws(t, p + 1) == p + 1);
        let q = skip_ws(t, p);
        assert(q == p + 1);
        lemma_wrap_from_spaced(t, q, w);
        lemma_wrap_from(t, q, w);
        let rest = wrap_from(t, q, w);
        assert(frags == seq![t.subrange(a, p)] + rest);
        assert(frags.drop_first() =~= rest);
        assert(join_spaced(frags) == t.subrange(a, p) + seq![' '] + join_spaced(rest));
        assert(join_spaced(frags) =~= t.subrange(a, t.len() as int));
    }
}

/// For text whose whitespace is single spaces between words, none of them `w`
/// or more characters long, the fragments joined with single spaces give back
/// the trimmed text.
pub proof fn lemma_wrap_rejoins(s: Seq<char>, w: nat)
    requires
        w >= 2,
        single_spaced(trim(s)),
        words_fit(trim(s), w),
    ensures
        join_spaced(wrap_spec(s, w)) == trim(s),
{
    lemma_trim(s);
    lemma_wrap_from_spaced(trim(s), 0, w);
    assert(trim(s).subrange(0, trim(s).len() as int) =~= trim(s));
}

/// Empty text wraps into a single empty fragment.
pub proof fn lemma_wrap_empty(w: nat)
    requires
        w >= 1,
    ensures
        wrap_spec(Seq::empty(), w) == seq![Seq::<char>::empty()],
{
    lemma_trim(Seq::empty());
    assert(trim(Seq::empty()).subrange(0, 0) =~= Seq::<char>::empty());
}

} // verus!
