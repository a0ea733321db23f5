use vstd::prelude::*;
use vstd::utf8::encode_utf8;
use crate::sort::{sort_by, sort_spec};
use crate::text::{
    byte_offset, byte_offsets, chars_of, string_from_chars, trim, trim_chars, slice_chars, eq_ic, eq_ic_exec, ascii_lower, ascii_lower_seq,
};

verus! {

/// Orders ranges by their start.
pub open spec fn start_le(a: (usize, usize), b: (usize, usize)) -> bool {
    a.0 <= b.0
}

/// Ranges taken in order, each one that starts inside (or right at the end
/// of) the last kept range extending it.
pub open spec fn merge_fold(s: Seq<(usize, usize)>) -> Seq<(usize, usize)>
    decreases s.len(),
{
    if s.len() == 0 {
        Seq::empty()
    } else {
        let m = merge_fold(s.drop_last());
        let x = s.last();
        if m.len() > 0 && x.0 <= m.last().1 {
            let last = m.last();
            m.update(m.len() - 1, (last.0, if last.1 < x.1 { x.1 } else { last.1 }))
        } else {
            m.push(x)
        }
    }
}

/// Ranges sorted by start (stably), then merged where they overlap or touch.
pub open spec fn merge_spec(ranges: Seq<(usize, usize)>) -> Seq<(usize, usize)> {
    merge_fold(sort_spec(ranges, |a: (usize, usize), b: (usize, usize)| start_le(a, b)))
}

fn start_le_exec(a: (usize, usize), b: (usize, usize)) -> (res: bool)
    ensures
        res == start_le(a, b),
{
    a.0 <= b.0
}

/// Sorts byte ranges by start and merges those that overlap or touch.
pub fn merge_byte_ranges(ranges: Vec<(usize, usize)>) -> (r: Vec<(usize, usize)>)
    ensures
        r@ == merge_spec(ranges@),
{
    let sorted = sort_by(
        &ranges,
        start_le_exec,
        Ghost(|a: (usize, usize), b: (usize, usize)| start_le(a, b)),
    );
    let mut merged: Vec<(usize, usize)> = Vec::new();
    let mut i: usize = 0;
    assert(sorted@.take(0) =~= Seq::<(usize, usize)>::empty());
    while i < sorted.len()
        invariant
            i <= sorted.len(),
            merged@ == merge_fold(sorted@.take(i as int)),
        decreases sorted.len() - i,
    {
        let (start, end) = sorted[i];
        assert(sorted@.take(i + 1).drop_last() =~= sorted@.take(i as int));
        let n = merged.len();
        if n > 0 && start <= merged[n - 1].1 {
            let (ls, le) = merged[n - 1];
            let ne = if le < end {
                end
            } else {
                le
            };
            merged.set(n - 1, (ls, ne));
        } else {
            merged.push((start, end));
        }
        i = i + 1;
    }
    assert(sorted@.take(sorted.len() as int) =~= sorted@);
    merged
}

/// Each range well formed.
pub open spec fn ranges_wf(s: Seq<(usize, usize)>) -> bool {
    forall|i: int| 0 <= i < s.len() ==> (#[trigger] s[i]).0 <= s[i].1
}

/// Each range well formed and ending before the next one starts.
pub open spec fn ranges_separated(s: Seq<(usize, usize)>) -> bool {
    &&& ranges_wf(s)
    &&& forall|i: int, j: int| 0 <= i < j < s.len() ==> (#[trigger] s[i]).1 < (#[trigger] s[j]).0
}

proof fn lemma_merge_fold_separated(s: Seq<(usize, usize)>)
    requires
        ranges_wf(s),
    ensures
        ranges_separated(merge_fold(s)),
    decreases s.len(),
{
    if s.len() > 0 {
        let s0 = s.drop_last();
        assert(ranges_wf(s0)) by {
            assert forall|i: int| 0 <= i < s0.len() implies (#[trigger] s0[i]).0 <= s0[i].1 by {
                assert(s0[i] == s[i]);
            }
        }
        lemma_merge_fold_separated(s0);
        let m = merge_fold(s0);
        let r = merge_fold(s);
        let x = s.last();
        assert(x.0 <= x.1);
        if m.len() > 0 && x.0 <= m.last().1 {
            assert forall|i: int, j: int| 0 <= i < j < r.len() implies (#[trigger] r[i]).1 < (
            #[trigger] r[j]).0 by {
                assert(r[i] == m[i]);
                if j < r.len() - 1 {
                    assert(r[j] == m[j]);
                } else {
                    assert(r[j].0 == m[j].0);
                }
            }
        } else {
            assert forall|i: int, j: int| 0 <= i < j < r.len() implies (#[trigger] r[i]).1 < (
            #[trigger] r[j]).0 by {
                if j == r.len() - 1 && i < j - 1 {
                    assert(m[i].1 < m[j - 1].0);
                }
            }
        }
    }
}

/// Merged ranges are well formed and strictly apart, for well formed input.
pub proof fn lemma_merge_separated(ranges: Seq<(usize, usize)>)
    requires
        ranges_wf(ranges),
    ensures
        ranges_separated(merge_spec(ranges)),
{
    let le = |a: (usize, usize), b: (usize, usize)| start_le(a, b);
    let s = sort_spec(ranges, le);
    crate::sort::lemma_sort_multiset(ranges, le);
    assert(ranges_wf(s)) by {
        assert forall|i: int| 0 <= i < s.len() implies (#[trigger] s[i]).0 <= s[i].1 by {
            broadcast use vstd::seq_lib::group_to_multiset_ensures;
            assert(s.contains(s[i]));
            assert(s.to_multiset().count(s[i]) > 0);
            assert(ranges.to_multiset().count(s[i]) > 0);
            assert(ranges.contains(s[i]));
            let q = choose|q: int| 0 <= q < ranges.len() && ranges[q] == s[i];
            assert(ranges[q].0 <= ranges[q].1);
        }
    }
    lemma_merge_fold_separated(s);
}


/// Position `p` lies in one of the half-open ranges.
pub open spec fn covers(s: Seq<(usize, usize)>, p: int) -> bool {
    exists|i: int| 0 <= i < s.len() && #[trigger] s[i].0 <= p && p < s[i].1
}

/// The ranges in order of their starts.
pub open spec fn starts_sorted(s: Seq<(usize, usize)>) -> bool {
    forall|i: int, j: int| 0 <= i < j < s.len() ==> (#[trigger] s[i]).0 <= (#[trigger] s[j]).0
}

proof fn lemma_start_le_total()
    ensures
        crate::sort::total_preorder(|a: (usize, usize), b: (usize, usize)| start_le(a, b)),
{
}

proof fn lemma_fold_last_start(s: Seq<(usize, usize)>)
    requires
        starts_sorted(s),
        s.len() > 0,
    ensures
        merge_fold(s).len() > 0,
        merge_fold(s).last().0 <= s.last().0,
    decreases s.len(),
{
    let s0 = s.drop_last();
    if s0.len() > 0 {
        assert(starts_sorted(s0)) by {
            assert forall|i: int, j: int| 0 <= i < j < s0.len() implies (#[trigger] s0[i]).0 <= (#[trigger] s0[j]).0 by {
                assert(s0[i] == s[i] && s0[j] == s[j]);
            }
        }
        lemma_fold_last_start(s0);
        assert(s[s.len() - 2].0 <= s[s.len() - 1].0);
        assert(s0.last() == s[s.len() - 2]);
    }
    let m = merge_fold(s0);
    let x = s.last();
    if m.len() > 0 && x.0 <= m.last().1 {
        let l = m.last();
        let r = m.update(m.len() - 1, (l.0, if l.1 < x.1 { x.1 } else { l.1 }));
        assert(merge_fold(s) == r);
        assert(r.last().0 == l.0);
    } else {
        assert(merge_fold(s) == m.push(x));
    }
}

proof fn lemma_fold_covers(s: Seq<(usize, usize)>, p: int)
    requires
        starts_sorted(s),
    ensures
        covers(merge_fold(s), p) <==> covers(s, p),
    decreases s.len(),
{
    if s.len() > 0 {
        let s0 = s.drop_last();
        let x = s.last();
        assert(starts_sorted(s0)) by {
            assert forall|i: int, j: int| 0 <= i < j < s0.len() implies (#[trigger] s0[i]).0 <= (#[trigger] s0[j]).0 by {
                assert(s0[i] == s[i] && s0[j] == s[j]);
            }
        }
        lemma_fold_covers(s0, p);
        let m = merge_fold(s0);
        let r = merge_fold(s);
        assert(covers(s, p) <==> covers(s0, p) || (x.0 <= p && p < x.1)) by {
            if covers(s, p) {
                let i = choose|i: int| 0 <= i < s.len() && #[trigger] s[i].0 <= p && p < s[i].1;
                if i < s0.len() {
                    assert(s0[i] == s[i]);
                }
            }
            if covers(s0, p) {
                let i = choose|i: int| 0 <= i < s0.len() && #[trigger] s0[i].0 <= p && p < s0[i].1;
                assert(s[i] == s0[i]);
            }
            if x.0 <= p && p < x.1 {
                assert(s[s.len() - 1] == x);
            }
        }
        if m.len() > 0 && x.0 <= m.last().1 {
            lemma_fold_last_start(s0);
            assert(s[s.len() - 2].0 <= x.0);
            let k = m.len() - 1;
            let l = m.last();
            assert(covers(r, p) <==> covers(m, p) || (x.0 <= p && p < x.1)) by {
                if covers(r, p) {
                    let i = choose|i: int| 0 <= i < r.len() && #[trigger] r[i].0 <= p && p < r[i].1;
                    if i < k {
                        assert(m[i] == r[i]);
                    } else if p < l.1 {
                        assert(m[k].0 <= p && p < m[k].1);
                    }
                }
                if covers(m, p) {
                    let i = choose|i: int| 0 <= i < m.len() && #[trigger] m[i].0 <= p && p < m[i].1;
                    if i < k {
                        assert(r[i] == m[i]);
                    } else {
                        assert(r[k].0 <= p && p < r[k].1);
                    }
                }
                if x.0 <= p && p < x.1 {
                    assert(r[k].0 <= p && p < r[k].1);
                }
            }
        } else {
            assert(r == m.push(x));
            assert(covers(r, p) <==> covers(m, p) || (x.0 <= p && p < x.1)) by {
                if covers(r, p) {
                    let i = choose|i: int| 0 <= i < r.len() && #[trigger] r[i].0 <= p && p < r[i].1;
                    if i < m.len() {
                        assert(m[i] == r[i]);
                    }
                }
                if covers(m, p) {
                    let i = choose|i: int| 0 <= i < m.len() && #[trigger] m[i].0 <= p && p < m[i].1;
                    assert(r[i] == m[i]);
                }
                if x.0 <= p && p < x.1 {
                    assert(r[m.len() as int] == x);
                }
            }
        }
    }
}

proof fn lemma_sort_covers(ranges: Seq<(usize, usize)>, p: int)
    ensures
        covers(sort_spec(ranges, |a: (usize, usize), b: (usize, usize)| start_le(a, b)), p) <==> covers(ranges, p),
{
    broadcast use vstd::seq_lib::group_to_multiset_ensures;
    let le = |a: (usize, usize), b: (usize, usize)| start_le(a, b);
    let s = sort_spec(ranges, le);
    crate::sort::lemma_sort_multiset(ranges, le);
    if covers(s, p) {
        let i = choose|i: int| 0 <= i < s.len() && #[trigger] s[i].0 <= p && p < s[i].1;
        assert(s.contains(s[i]));
        assert(ranges.to_multiset().count(s[i]) > 0);
        assert(ranges.contains(s[i]));
        let q = choose|q: int| 0 <= q < ranges.len() && ranges[q] == s[i];
        assert(ranges[q].0 <= p && p < ranges[q].1);
    }
    if covers(ranges, p) {
        let i = choose|i: int| 0 <= i < ranges.len() && #[trigger] ranges[i].0 <= p && p < ranges[i].1;
        assert(ranges.contains(ranges[i]));
        assert(s.to_multiset().count(ranges[i]) > 0);
        assert(s.contains(ranges[i]));
        let q = choose|q: int| 0 <= q < s.len() && s[q] == ranges[i];
        assert(s[q].0 <= p && p < s[q].1);
    }
}

proof fn lemma_sort_of_sorted(s: Seq<(usize, usize)>)
    requires
        starts_sorted(s),
    ensures
        sort_spec(s, |a: (usize, usize), b: (usize, usize)| start_le(a, b)) == s,
    decreases s.len(),
{
    if s.len() > 0 {
        let s0 = s.drop_last();
        assert(starts_sorted(s0)) by {
            assert forall|i: int, j: int| 0 <= i < j < s0.len() implies (#[trigger] s0[i]).0 <= (#[trigger] s0[j]).0 by {
                assert(s0[i] == s[i] && s0[j] == s[j]);
            }
        }
        lemma_sort_of_sorted(s0);
        if s0.len() > 0 {
            assert(s[s.len() - 2].0 <= s[s.len() - 1].0);
        }
        assert(s0.push(s.last()) =~= s);
    }
}

proof fn lemma_fold_of_separated(m: Seq<(usize, usize)>)
    requires
        ranges_separated(m),
    ensures
        merge_fold(m) == m,
    decreases m.len(),
{
    if m.len() > 0 {
        let m0 = m.drop_last();
        assert(ranges_separated(m0)) by {
            assert forall|i: int| 0 <= i < m0.len() implies (#[trigger] m0[i]).0 <= m0[i].1 by {
                assert(m0[i] == m[i]);
            }
            assert forall|i: int, j: int| 0 <= i < j < m0.len() implies (#[trigger] m0[i]).1 < (#[trigger] m0[j]).0 by {
                assert(m0[i] == m[i] && m0[j] == m[j]);
            }
        }
        lemma_fold_of_separated(m0);
        if m0.len() > 0 {
            assert(m[m.len() - 2].1 < m[m.len() - 1].0);
        }
        assert(m0.push(m.last()) =~= m);
    }
}

/// Merging keeps exactly the positions the ranges cover, leaves ranges that
/// are well formed and strictly apart (overlapping and touching ranges
/// joined), and merging the result again changes nothing; for well formed
/// input.
pub proof fn lemma_merge_law(ranges: Seq<(usize, usize)>)
    requires
        ranges_wf(ranges),
    ensures
        ranges_separated(merge_spec(ranges)),
        forall|p: int| covers(merge_spec(ranges), p) <==> covers(ranges, p),
        merge_spec(merge_spec(ranges)) == merge_spec(ranges),
{
    let le = |a: (usize, usize), b: (usize, usize)| start_le(a, b);
    let s = sort_spec(ranges, le);
    lemma_start_le_total();
    crate::sort::lemma_sort_sorted(ranges, le);
    assert(starts_sorted(s)) by {
        assert forall|i: int, j: int| 0 <= i < j < s.len() implies (#[trigger] s[i]).0 <= (#[trigger] s[j]).0 by {
            assert(le(s[i], s[j]));
        }
    }
    assert forall|p: int| covers(merge_spec(ranges), p) <==> covers(ranges, p) by {
        lemma_fold_covers(s, p);
        lemma_sort_covers(ranges, p);
    }
    lemma_merge_separated(ranges);
    let m = merge_spec(ranges);
    assert(starts_sorted(m)) by {
        assert forall|i: int, j: int| 0 <= i < j < m.len() implies (#[trigger] m[i]).0 <= (#[trigger] m[j]).0 by {
            assert(m[i].0 <= m[i].1 && m[i].1 < m[j].0);
        }
    }
    lemma_sort_of_sorted(m);
    lemma_fold_of_separated(m);
}

/// Where a fuzzy match stands after `n` chars of the candidate: query chars
/// matched so far, index of the last matched char (-1 for none), score, and
/// the matched char indices.
pub struct FuzzyState {
    pub q: int,
    pub last: int,
    pub score: int,
    pub matched: Seq<int>,
}

/// A separator after which a match counts as the start of a word.
pub open spec fn is_word_sep(c: char) -> bool {
    c == '/' || c == '_' || c == '-' || c == ' '
}

/// Points for matching candidate char `i` when the last match was `last`.
pub open spec fn match_points(cand: Seq<char>, i: int, last: int) -> int {
    5 + (if i == 0 || is_word_sep(cand[i - 1]) { 8int } else { 0int }) + (if last >= 0 && i == last
        + 1 { 12int } else { 0int })
}

/// Greedy left-to-right matching of the query chars, ignoring ASCII case.
pub open spec fn fuzzy_state(cand: Seq<char>, query: Seq<char>, n: int) -> FuzzyState
    decreases n,
{
    if n <= 0 {
        FuzzyState { q: 0, last: -1, score: 0, matched: Seq::empty() }
    } else {
        let st = fuzzy_state(cand, query, n - 1);
        let i = n - 1;
        if 0 <= st.q < query.len() && eq_ic(cand[i], query[st.q]) {
            FuzzyState {
                q: st.q + 1,
                last: i,
                score: st.score + match_points(cand, i, st.last),
                matched: st.matched.push(i),
            }
        } else {
            st
        }
    }
}

/// The byte range of each matched char.
pub open spec fn char_byte_ranges(cand: Seq<char>, idx: Seq<int>) -> Seq<(usize, usize)> {
    idx.map_values(|i: int| (byte_offset(cand, i) as usize, byte_offset(cand, i + 1) as usize))
}

/// Fuzzy score of `cand` for `query` and its merged byte ranges, or `None`
/// when the query chars do not all occur in order.
pub open spec fn fuzzy_spec(cand: Seq<char>, query: Seq<char>) -> Option<(int, Seq<(usize, usize)>)> {
    if query.len() == 0 {
        Some((0, Seq::empty()))
    } else {
        let st = fuzzy_state(cand, query, cand.len() as int);
        if st.q != query.len() {
            None
        } else {
            Some((st.score - cand.len(), merge_spec(char_byte_ranges(cand, st.matched))))
        }
    }
}

proof fn lemma_fuzzy_bounds(cand: Seq<char>, query: Seq<char>, n: int)
    requires
        0 <= n <= cand.len(),
    ensures
        0 <= fuzzy_state(cand, query, n).q <= n,
        fuzzy_state(cand, query, n).q <= query.len(),
        0 <= fuzzy_state(cand, query, n).score <= 25 * n,
        -1 <= fuzzy_state(cand, query, n).last < n,
        fuzzy_state(cand, query, n).matched.len() == fuzzy_state(cand, query, n).q,
        forall|k: int| 0 <= k < fuzzy_state(cand, query, n).matched.len() ==> 0 <= #[trigger] fuzzy_state(cand, query, n).matched[k] < n,
    decreases n,
{
    if n > 0 {
        lemma_fuzzy_bounds(cand, query, n - 1);
    }
}

/// Fuzzy match of `candidate` against `query`: each query char in order,
/// ASCII case ignored, taking the first fitting char each time. Scores 5
/// per matched char, 8 more at the start of a word, 12 more right after the
/// previous match, less the candidate's length in chars; gives the matched
/// chars as merged byte ranges.
pub fn fuzzy_score_and_ranges(candidate: &str, query: &str) -> (r: Option<(i64, Vec<(usize, usize)>)>)
    requires
        candidate@.len() <= 0x1_0000_0000_0000,
        encode_utf8(candidate@).len() <= usize::MAX,
    ensures
        match r {
            Some(p) => fuzzy_spec(candidate@, query@) == Some((p.0 as int, p.1@)),
            None => fuzzy_spec(candidate@, query@).is_none(),
        },
{
    let query_chars = chars_of(query);
    if query_chars.len() == 0 {
        return Some((0, Vec::new()));
    }
    let cand_chars = chars_of(candidate);
    let mut q_idx: usize = 0;
    let mut last_match: i64 = -1;
    let mut score: i64 = 0;
    let mut matched: Vec<usize> = Vec::new();
    let mut c_idx: usize = 0;
    while c_idx < cand_chars.len()
        invariant
            c_idx <= cand_chars.len(),
            cand_chars@ == candidate@,
            query_chars@ == query@,
            cand_chars.len() <= 0x1_0000_0000_0000,
            ({
                let st = fuzzy_state(candidate@, query@, c_idx as int);
                &&& st.q == q_idx
                &&& st.last == last_match
                &&& st.score == score
                &&& st.matched.len() == matched@.len()
                &&& forall|k: int| 0 <= k < matched@.len() ==> st.matched[k] == #[trigger] matched@[k] as int
            }),
        decreases cand_chars.len() - c_idx,
    {
        proof {
            lemma_fuzzy_bounds(candidate@, query@, c_idx as int);
        }
        if q_idx < query_chars.len() && eq_ic_exec(cand_chars[c_idx], query_chars[q_idx]) {
            let mut pts: i64 = 5;
            if c_idx == 0 || cand_chars[c_idx - 1] == '/' || cand_chars[c_idx - 1] == '_'
                || cand_chars[c_idx - 1] == '-' || cand_chars[c_idx - 1] == ' ' {
                pts = pts + 8;
            }
            if last_match >= 0 && c_idx as i64 == last_match + 1 {
                pts = pts + 12;
            }
            score = score + pts;
            last_match = c_idx as i64;
            matched.push(c_idx);
            q_idx = q_idx + 1;
        }
        c_idx = c_idx + 1;
    }
    proof {
        lemma_fuzzy_bounds(candidate@, query@, cand_chars.len() as int);
    }
    if q_idx != query_chars.len() {
        return None;
    }
    let offs = byte_offsets(&cand_chars);
    let mut ranges: Vec<(usize, usize)> = Vec::new();
    let mut k: usize = 0;
    let ghost st = fuzzy_state(candidate@, query@, cand_chars.len() as int);
    while k < matched.len()
        invariant
            k <= matched.len(),
            offs@.len() == cand_chars@.len() + 1,
            forall|i: int| 0 <= i <= cand_chars@.len() ==> #[trigger] offs@[i] == byte_offset(cand_chars@, i),
            cand_chars@ == candidate@,
            st == fuzzy_state(candidate@, query@, cand_chars.len() as int),
            st.matched.len() == matched@.len(),
            forall|j: int| 0 <= j < matched@.len() ==> st.matched[j] == #[trigger] matched@[j] as int,
            forall|j: int| 0 <= j < st.matched.len() ==> 0 <= #[trigger] st.matched[j] < cand_chars@.len(),
            ranges@ == char_byte_ranges(candidate@, st.matched.take(k as int)),
        decreases matched.len() - k,
    {
        let idx = matched[k];
        assert(st.matched[k as int] == idx as int);
        ranges.push((offs[idx], offs[idx + 1]));
        assert(st.matched.take(k + 1) =~= st.matched.take(k as int).push(idx as int));
        assert(char_byte_ranges(candidate@, st.matched.take(k + 1)) =~= char_byte_ranges(candidate@, st.matched.take(k as int)).push((byte_offset(candidate@, idx as int) as usize, byte_offset(candidate@, idx + 1) as usize)));
        k = k + 1;
    }
    assert(st.matched.take(matched.len() as int) =~= st.matched);
    let merged = merge_byte_ranges(ranges);
    Some((score - cand_chars.len() as i64, merged))
}


/// `query` occurs at char `i` of `text`, ASCII case ignored.
pub open spec fn matches_at(text: Seq<char>, query: Seq<char>, i: int) -> bool {
    forall|j: int| 0 <= j < query.len() ==> eq_ic(#[trigger] text[i + j], query[j])
}

/// Non-overlapping occurrences of `query` from char `i` on, left to right,
/// as char ranges.
pub open spec fn literal_from(text: Seq<char>, query: Seq<char>, i: int) -> Seq<(int, int)>
    decreases text.len() - i,
{
    if query.len() == 0 || i < 0 || i + query.len() > text.len() {
        Seq::empty()
    } else if matches_at(text, query, i) {
        seq![(i, i + query.len())] + literal_from(text, query, i + query.len())
    } else {
        literal_from(text, query, i + 1)
    }
}

/// Char ranges as byte ranges.
pub open spec fn to_byte_ranges(text: Seq<char>, rs: Seq<(int, int)>) -> Seq<(usize, usize)> {
    rs.map_values(|r: (int, int)| (byte_offset(text, r.0) as usize, byte_offset(text, r.1) as usize))
}

/// Byte ranges of the non-overlapping occurrences of `needle` in `text`,
/// left to right, ASCII case ignored; none for an empty needle.
pub fn literal_match_ranges_ascii(text: &str, needle: &str) -> (r: Vec<(usize, usize)>)
    requires
        encode_utf8(text@).len() <= usize::MAX,
    ensures
        r@ == to_byte_ranges(text@, literal_from(text@, needle@, 0)),
{
    let q = chars_of(needle);
    if q.len() == 0 {
        return Vec::new();
    }
    let t = chars_of(text);
    if q.len() > t.len() {
        return Vec::new();
    }
    let offs = byte_offsets(&t);
    let mut out: Vec<(usize, usize)> = Vec::new();
    let ghost mut done: Seq<(int, int)> = Seq::empty();
    let mut i: usize = 0;
    while q.len() <= t.len() - i
        invariant
            q@ == needle@,
            t@ == text@,
            q.len() > 0,
            i <= t.len(),
            offs@.len() == t@.len() + 1,
            forall|k: int| 0 <= k <= t@.len() ==> #[trigger] offs@[k] == byte_offset(t@, k),
            literal_from(t@, q@, 0) == done + literal_from(t@, q@, i as int),
            out@ == to_byte_ranges(t@, done),
        decreases t.len() - i,
    {
        let mut matched = true;
        let mut j: usize = 0;
        while j < q.len()
            invariant
                i + q.len() <= t.len(),
                j <= q.len(),
                matched == (forall|k: int| 0 <= k < j ==> eq_ic(#[trigger] t@[i + k], q@[k])),
            decreases q.len() - j,
        {
            if !eq_ic_exec(t[i + j], q[j]) {
                matched = false;
            }
            j = j + 1;
        }
        if matched {
            let end_idx = i + q.len();
            proof {
                assert(matches_at(t@, q@, i as int));
                done = done.push((i as int, end_idx as int));
                assert(seq![(i as int, end_idx as int)] + literal_from(t@, q@, end_idx as int) == literal_from(t@, q@, i as int));
                assert(done + literal_from(t@, q@, end_idx as int) =~= done.drop_last() + literal_from(t@, q@, i as int));
            }
            out.push((offs[i], offs[end_idx]));
            assert(to_byte_ranges(t@, done) =~= to_byte_ranges(t@, done.drop_last()).push((byte_offset(t@, i as int) as usize, byte_offset(t@, end_idx as int) as usize)));
            i = end_idx;
        } else {
            proof {
                if matches_at(t@, q@, i as int) {
                    let k = choose|k: int| 0 <= k < q.len() && !eq_ic(t@[i + k], q@[k]);
                    assert(eq_ic(t@[i + k], q@[k]));
                }
            }
            i = i + 1;
        }
    }
    assert(done + literal_from(t@, q@, i as int) =~= done);
    out
}

/// Last index of `c` in `s`, or -1.
pub open spec fn rfind_char(s: Seq<char>, c: char) -> int
    decreases s.len(),
{
    if s.len() == 0 {
        -1
    } else if s.last() == c {
        s.len() - 1
    } else {
        rfind_char(s.drop_last(), c)
    }
}

/// Every char of `s` is `c`.
pub open spec fn all_are(s: Seq<char>, c: char) -> bool {
    forall|i: int| 0 <= i < s.len() ==> #[trigger] s[i] == c
}

/// How a search query asks for a regex, as the pattern and whether it
/// ignores case: `re:PATTERN` (ignoring case), `//` (empty, ignoring case),
/// or `/PATTERN/` with only `i` flags after it (ignoring case when there is
/// one); `None` for a plain query.
pub open spec fn regex_query_spec(query: Seq<char>) -> Option<(Seq<char>, bool)> {
    let t = trim(query);
    if t.len() >= 3 && t[0] == 'r' && t[1] == 'e' && t[2] == ':' {
        Some((trim(t.skip(3)), true))
    } else if t.len() > 0 && t[0] == '/' {
        let closing = rfind_char(t, '/');
        if closing > 0 {
            let pattern = t.subrange(1, closing);
            if pattern.len() == 0 {
                Some((Seq::empty(), true))
            } else {
                let flags = t.skip(closing + 1);
                if all_are(flags, 'i') {
                    Some((pattern, flags.contains('i')))
                } else {
                    None
                }
            }
        } else {
            None
        }
    } else {
        None
    }
}

pub proof fn lemma_rfind_spec(s: Seq<char>, c: char, j: int)
    requires
        -1 <= j < s.len(),
        forall|k: int| j < k < s.len() ==> #[trigger] s[k] != c,
        j >= 0 ==> s[j] == c,
    ensures
        rfind_char(s, c) == j,
    decreases s.len(),
{
    if s.len() > 0 && j < s.len() - 1 {
        lemma_rfind_spec(s.drop_last(), c, j);
    }
}

/// Reads a regex request out of a search query (see [`regex_query_spec`]).
pub fn parse_regex_query(query: &str) -> (r: Option<(String, bool)>)
    ensures
        match r {
            Some(p) => regex_query_spec(query@) == Some((p.0@, p.1)),
            None => regex_query_spec(query@).is_none(),
        },
{
    let q = chars_of(query);
    let t = trim_chars(&q);
    if t.len() >= 3 && t[0] == 'r' && t[1] == 'e' && t[2] == ':' {
        let rest = slice_chars(&t, 3, t.len());
        assert(rest@ =~= t@.skip(3));
        let pat = trim_chars(&rest);
        return Some((string_from_chars(pat.as_slice()), true));
    }
    if t.len() > 0 && t[0] == '/' {
        let mut closing: usize = t.len() - 1;
        while closing > 0 && t[closing] != '/'
            invariant
                closing < t.len(),
                forall|k: int| closing < k < t.len() ==> #[trigger] t@[k] != '/',
            decreases closing,
        {
            closing = closing - 1;
        }
        proof {
            lemma_rfind_spec(t@, '/', closing as int);
        }
        if closing > 0 {
            let pattern = slice_chars(&t, 1, closing);
            if pattern.len() == 0 {
                return Some((string_from_chars(pattern.as_slice()), true));
            }
            let flags = slice_chars(&t, closing + 1, t.len());
            assert(flags@ =~= t@.skip(closing + 1));
            let mut all_i = true;
            let mut has_i = false;
            let mut k: usize = 0;
            while k < flags.len()
                invariant
                    k <= flags.len(),
                    all_i == all_are(flags@.take(k as int), 'i'),
                    has_i == flags@.take(k as int).contains('i'),
                decreases flags.len() - k,
            {
                proof {
                    crate::text::lemma_take_push_contains(flags@, k as int);
                }
                if flags[k] != 'i' {
                    all_i = false;
                } else {
                    has_i = true;
                }
                assert(all_are(flags@.take(k + 1), 'i') == (all_are(flags@.take(k as int), 'i') && flags@[k as int] == 'i')) by {
                    let a = flags@.take(k as int);
                    let b = flags@.take(k + 1);
                    if all_are(b, 'i') {
                        assert(b[k as int] == 'i');
                        assert forall|x: int| 0 <= x < a.len() implies #[trigger] a[x] == 'i' by {
                            assert(b[x] == 'i');
                        }
                    }
                    if all_are(a, 'i') && flags@[k as int] == 'i' {
                        assert forall|x: int| 0 <= x < b.len() implies #[trigger] b[x] == 'i' by {
                            if x < k {
                                assert(a[x] == 'i');
                            }
                        }
                    }
                }
                k = k + 1;
            }
            assert(flags@.take(flags.len() as int) =~= flags@);
            if all_i {
                return Some((string_from_chars(pattern.as_slice()), has_i));
            }
        }
    }
    None
}


/// `char::to_ascii_lowercase` is idempotent, so comparing ignoring ASCII
/// case does not see the case of either side.
proof fn lemma_eq_ic_lower_right(a: char, b: char)
    ensures
        eq_ic(a, b) == eq_ic(a, ascii_lower(b)),
{
    if 'A' <= b <= 'Z' {
        assert(('a' as u32) <= ((b as u32) + 32) <= ('z' as u32));
        assert((((b as u32) + 32) as char) as u32 == (b as u32) + 32);
    }
}

proof fn lemma_fuzzy_state_query_case(cand: Seq<char>, query: Seq<char>, n: int)
    ensures
        fuzzy_state(cand, query, n) == fuzzy_state(cand, ascii_lower_seq(query), n),
    decreases n,
{
    if n > 0 {
        lemma_fuzzy_state_query_case(cand, query, n - 1);
        let st = fuzzy_state(cand, query, n - 1);
        if 0 <= st.q < query.len() {
            lemma_eq_ic_lower_right(cand[n - 1], query[st.q]);
        }
    }
}

proof fn lemma_fuzzy_state_cand_case(cand: Seq<char>, query: Seq<char>, n: int)
    requires
        0 <= n <= cand.len(),
    ensures
        fuzzy_state(cand, query, n).q == fuzzy_state(ascii_lower_seq(cand), query, n).q,
        fuzzy_state(cand, query, n).matched == fuzzy_state(ascii_lower_seq(cand), query, n).matched,
    decreases n,
{
    if n > 0 {
        lemma_fuzzy_state_cand_case(cand, query, n - 1);
        let st = fuzzy_state(cand, query, n - 1);
        if 0 <= st.q < query.len() {
            lemma_eq_ic_lower_right(query[st.q], cand[n - 1]);
            assert(ascii_lower_seq(cand)[n - 1] == ascii_lower(cand[n - 1]));
        }
    }
}

proof fn lemma_fuzzy_state_self(cand: Seq<char>, n: int)
    requires
        0 <= n <= cand.len(),
    ensures
        fuzzy_state(cand, cand, n).q == n,
    decreases n,
{
    if n > 0 {
        lemma_fuzzy_state_self(cand, n - 1);
    }
}

/// Fuzzy matching ignores ASCII case in the query: a query gives the same
/// match, score and ranges as its lowercase form; and every name matches
/// itself as a query. Whether a name matches does not depend on the
/// ASCII case of the name either.
pub proof fn lemma_fuzzy_query_case_insensitive(cand: Seq<char>, query: Seq<char>)
    ensures
        fuzzy_spec(cand, query) == fuzzy_spec(cand, ascii_lower_seq(query)),
        fuzzy_spec(cand, cand) is Some,
        fuzzy_spec(cand, query) is Some == fuzzy_spec(ascii_lower_seq(cand), query) is Some,
{
    lemma_fuzzy_state_cand_case(cand, query, cand.len() as int);
    lemma_fuzzy_state_query_case(cand, query, cand.len() as int);
    lemma_fuzzy_state_self(cand, cand.len() as int);
}

} // verus!
