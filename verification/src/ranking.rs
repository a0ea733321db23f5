use vstd::prelude::*;
use vstd::utf8::encode_utf8;
use regex::{Regex, RegexBuilder};
use crate::search::{fuzzy_score_and_ranges, fuzzy_spec, merge_byte_ranges, merge_spec, parse_regex_query, regex_query_spec};
use crate::sort::{
    lemma_insert_at, lemma_sort_multiset, lemma_sort_sorted, order_int, sort_spec, then_order, total_preorder,
};
use crate::text::{chars_eq, chars_of, lemma_order_seq, lemma_order_seq_trans, lex_less, order_seq};

verus! {

#[verifier::external_type_specification]
#[verifier::external_body]
pub struct ExRegex(Regex);

/// Whether the `regex` crate accepts `pattern` (with case folding when
/// `case_insensitive`) under its default limits.
pub uninterp spec fn regex_compiles(pattern: Seq<char>, case_insensitive: bool) -> bool;

/// The byte ranges of the successive non-overlapping matches that the
/// `regex` crate finds for `pattern` in `text`.
pub uninterp spec fn regex_match_ranges(pattern: Seq<char>, case_insensitive: bool, text: Seq<char>) -> Seq<(usize, usize)>;

/// A compiled search regex, with the pattern text and case flag it was
/// built from.
pub struct SearchRegex {
    re: Regex,
    pattern: Ghost<Seq<char>>,
    case_insensitive: Ghost<bool>,
}

impl SearchRegex {
    /// The pattern the regex was built from.
    pub closed spec fn pattern(&self) -> Seq<char> {
        self.pattern@
    }

    /// Whether the regex ignores case.
    pub closed spec fn ignores_case(&self) -> bool {
        self.case_insensitive@
    }
}

/// `RegexBuilder::new(pattern).case_insensitive(case_insensitive).build()`:
/// the regex when the crate accepts the pattern. Whether it does is named,
/// not stated.
#[verifier::external_body]
fn build_regex(pattern: &str, case_insensitive: bool) -> (r: Option<SearchRegex>)
    ensures
        r.is_some() == regex_compiles(pattern@, case_insensitive),
        r matches Some(re) ==> re.pattern() == pattern@ && re.ignores_case() == case_insensitive,
{
    match RegexBuilder::new(pattern).case_insensitive(case_insensitive).build() {
        Ok(re) => Some(SearchRegex { re, pattern: Ghost(pattern@), case_insensitive: Ghost(case_insensitive) }),
        Err(_) => None,
    }
}

/// `Regex::find_iter` on `text`, each match as its start and end byte
/// offsets; the crate guarantees `start <= end`, within the text.
#[verifier::external_body]
fn regex_find_ranges(re: &SearchRegex, text: &str) -> (r: Vec<(usize, usize)>)
    ensures
        r@ == regex_match_ranges(re.pattern(), re.ignores_case(), text@),
        forall|k: int| 0 <= k < r@.len() ==> (#[trigger] r@[k]).0 <= r@[k].1 <= encode_utf8(text@).len(),
{
    let mut out: Vec<(usize, usize)> = Vec::new();
    for m in re.re.find_iter(text) {
        out.push((m.start(), m.end()));
    }
    out
}

/// What a search query asks for.
pub enum SearchQuery {
    /// A plain query: fuzzy file names, literal text in files.
    Plain,
    /// A regex that compiled.
    Regex(SearchRegex),
    /// A regex request whose pattern the crate refused.
    InvalidRegex,
}

/// Reads a search query: a regex request (see [`regex_query_spec`]) is
/// compiled, and is invalid when the crate refuses its pattern.
pub fn search_query_from_input(query: &str) -> (r: SearchQuery)
    ensures
        match regex_query_spec(query@) {
            None => r is Plain,
            Some(p) => match r {
                SearchQuery::Regex(re) => regex_compiles(p.0, p.1) && re.pattern() == p.0
                    && re.ignores_case() == p.1,
                SearchQuery::InvalidRegex => !regex_compiles(p.0, p.1),
                SearchQuery::Plain => false,
            },
        },
{
    match parse_regex_query(query) {
        None => SearchQuery::Plain,
        Some((pattern, ci)) => match build_regex(pattern.as_str(), ci) {
            Some(re) => SearchQuery::Regex(re),
            None => SearchQuery::InvalidRegex,
        },
    }
}

/// The merged byte ranges of a regex's matches in `text`.
pub fn regex_match_ranges_in(re: &SearchRegex, text: &str) -> (r: Vec<(usize, usize)>)
    ensures
        r@ == merge_spec(regex_match_ranges(re.pattern(), re.ignores_case(), text@)),
{
    merge_byte_ranges(regex_find_ranges(re, text))
}

/// How a matched file name is ranked: lower `primary` first, then fewer
/// chars, then fewer bytes, then the name in text order.
pub struct HitKeyView {
    pub primary: int,
    pub chars: int,
    pub bytes: int,
    pub name: Seq<char>,
}

/// A matched candidate: its index, the merged byte ranges of the match, and
/// its rank.
pub struct ScoredHitView {
    pub candidate: usize,
    pub ranges: Seq<(usize, usize)>,
    pub key: HitKeyView,
}

/// Three-way comparison of ranks.
pub open spec fn hit_key_order(a: HitKeyView, b: HitKeyView) -> int {
    then_order(
        order_int(a.primary, b.primary),
        then_order(order_int(a.chars, b.chars), then_order(order_int(a.bytes, b.bytes), order_seq(a.name, b.name))),
    )
}

/// Hit `a` may stay before hit `b`.
pub open spec fn hit_le(a: ScoredHitView, b: ScoredHitView) -> bool {
    hit_key_order(a.key, b.key) != 1
}

/// The candidates that a regex matched, in candidate order: ranked first by
/// where the first match starts, then by length in chars and in bytes, then
/// by name. `matches[i]`: the raw match ranges in candidate `i`.
pub open spec fn regex_scored_hits(cands: Seq<Seq<char>>, matches: Seq<Seq<(usize, usize)>>) -> Seq<ScoredHitView>
    decreases matches.len(),
{
    if matches.len() == 0 {
        Seq::empty()
    } else {
        let i = matches.len() - 1;
        let rest = regex_scored_hits(cands, matches.drop_last());
        let rs = merge_spec(matches[i]);
        if rs.len() > 0 {
            rest.push(ScoredHitView {
                candidate: i as usize,
                ranges: rs,
                key: HitKeyView {
                    primary: rs[0].0 as int,
                    chars: cands[i].len() as int,
                    bytes: encode_utf8(cands[i]).len() as int,
                    name: cands[i],
                },
            })
        } else {
            rest
        }
    }
}

/// The candidates that fuzzy-match `query`, in candidate order: ranked by
/// score (highest first), then by length in chars, then by name.
/// `fuzzy[i]`: the fuzzy result for candidate `i`.
pub open spec fn fuzzy_scored_hits(cands: Seq<Seq<char>>, fuzzy: Seq<Option<(int, Seq<(usize, usize)>)>>) -> Seq<ScoredHitView>
    decreases fuzzy.len(),
{
    if fuzzy.len() == 0 {
        Seq::empty()
    } else {
        let i = fuzzy.len() - 1;
        let rest = fuzzy_scored_hits(cands, fuzzy.drop_last());
        match fuzzy[i] {
            Some(p) => rest.push(ScoredHitView {
                candidate: i as usize,
                ranges: p.1,
                key: HitKeyView { primary: -p.0, chars: cands[i].len() as int, bytes: 0, name: cands[i] },
            }),
            None => rest,
        }
    }
}

/// The hits in rank order: a stable sort.
pub open spec fn rank_order(hits: Seq<ScoredHitView>) -> Seq<ScoredHitView> {
    sort_spec(hits, |a: ScoredHitView, b: ScoredHitView| hit_le(a, b))
}

/// The hits in rank order, as candidate index and ranges.
pub open spec fn ranked(hits: Seq<ScoredHitView>) -> Seq<(usize, Seq<(usize, usize)>)> {
    rank_order(hits).map_values(
        |h: ScoredHitView| (h.candidate, h.ranges),
    )
}

/// A file name that matched: the candidate's index and the byte ranges to
/// highlight.
pub struct FilenameHit {
    pub candidate: usize,
    pub ranges: Vec<(usize, usize)>,
}

impl FilenameHit {
    pub open spec fn view(&self) -> (usize, Seq<(usize, usize)>) {
        (self.candidate, self.ranges@)
    }
}

/// The views of a list of hits.
pub open spec fn hit_views(v: Seq<FilenameHit>) -> Seq<(usize, Seq<(usize, usize)>)> {
    v.map_values(|h: FilenameHit| h.view())
}

struct ScoredHit {
    candidate: usize,
    ranges: Vec<(usize, usize)>,
    primary: i128,
    chars: usize,
    bytes: usize,
    name: Vec<char>,
}

impl ScoredHit {
    spec fn view(&self) -> ScoredHitView {
        ScoredHitView {
            candidate: self.candidate,
            ranges: self.ranges@,
            key: HitKeyView {
                primary: self.primary as int,
                chars: self.chars as int,
                bytes: self.bytes as int,
                name: self.name@,
            },
        }
    }
}

spec fn scored_views(v: Seq<ScoredHit>) -> Seq<ScoredHitView> {
    v.map_values(|h: ScoredHit| h.view())
}

fn order_i128(a: i128, b: i128) -> (r: i8)
    ensures
        r as int == order_int(a as int, b as int),
{
    if a < b {
        -1
    } else if a == b {
        0
    } else {
        1
    }
}

fn order_usize(a: usize, b: usize) -> (r: i8)
    ensures
        r as int == order_int(a as int, b as int),
{
    if a < b {
        -1
    } else if a == b {
        0
    } else {
        1
    }
}

fn hit_order(a: &ScoredHit, b: &ScoredHit) -> (r: i8)
    ensures
        r as int == hit_key_order(a.view().key, b.view().key),
{
    let c = order_i128(a.primary, b.primary);
    if c != 0 {
        return c;
    }
    let c = order_usize(a.chars, b.chars);
    if c != 0 {
        return c;
    }
    let c = order_usize(a.bytes, b.bytes);
    if c != 0 {
        return c;
    }
    if chars_eq(a.name.as_slice(), b.name.as_slice()) {
        0
    } else if lex_less(a.name.as_slice(), b.name.as_slice()) {
        -1
    } else {
        1
    }
}

fn copy_ranges(v: &Vec<(usize, usize)>) -> (r: Vec<(usize, usize)>)
    ensures
        r@ == v@,
{
    let mut r: Vec<(usize, usize)> = Vec::new();
    let mut q: usize = 0;
    while q < v.len()
        invariant
            q <= v.len(),
            r@ == v@.take(q as int),
        decreases v.len() - q,
    {
        r.push(v[q]);
        assert(v@.take(q + 1) =~= v@.take(q as int).push(v@[q as int]));
        q = q + 1;
    }
    assert(v@.take(v.len() as int) =~= v@);
    r
}

/// Stable insertion sort of scored hits by rank, then the hits as
/// candidate and ranges.
fn sort_scored(hits: Vec<ScoredHit>) -> (r: Vec<FilenameHit>)
    ensures
        hit_views(r@) == ranked(scored_views(hits@)),
{
    let ghost le = |a: ScoredHitView, b: ScoredHitView| hit_le(a, b);
    let ghost src = scored_views(hits@);
    let mut hits = hits;
    let mut sorted: Vec<ScoredHit> = Vec::new();
    let ghost mut taken: Seq<ScoredHitView> = Seq::empty();
    while hits.len() > 0
        invariant
            src == taken + scored_views(hits@),
            scored_views(sorted@) == sort_spec(taken, le),
            le == (|a: ScoredHitView, b: ScoredHitView| hit_le(a, b)),
        decreases hits.len(),
    {
        let ghost rest0 = hits@;
        let h = hits.remove(0);
        proof {
            assert(scored_views(rest0) =~= seq![h.view()] + scored_views(hits@));
        }
        let mut j = sorted.len();
        while j > 0 && hit_order(&sorted[j - 1], &h) == 1
            invariant
                j <= sorted.len(),
                le == (|a: ScoredHitView, b: ScoredHitView| hit_le(a, b)),
                forall|k: int| j <= k < sorted@.len() ==> !le(#[trigger] scored_views(sorted@)[k], h.view()),
            decreases j,
        {
            j = j - 1;
        }
        proof {
            lemma_insert_at(scored_views(sorted@), h.view(), le, j as int);
            assert(taken.push(h.view()).drop_last() =~= taken);
        }
        let ghost before = sorted@;
        sorted.insert(j, h);
        proof {
            assert(scored_views(sorted@) =~= scored_views(before).insert(j as int, h.view()));
            taken = taken.push(h.view());
            assert(src =~= taken + scored_views(hits@));
        }
    }
    assert(taken =~= src);
    let mut out: Vec<FilenameHit> = Vec::new();
    let mut k: usize = 0;
    while k < sorted.len()
        invariant
            k <= sorted.len(),
            out@.len() == k,
            forall|i: int| 0 <= i < k ==> (#[trigger] out@[i]).candidate == sorted@[i].candidate
                && out@[i].ranges@ == sorted@[i].ranges@,
        decreases sorted.len() - k,
    {
        let rs = copy_ranges(&sorted[k].ranges);
        out.push(FilenameHit { candidate: sorted[k].candidate, ranges: rs });
        k = k + 1;
    }
    assert(hit_views(out@) =~= scored_views(sorted@).map_values(
        |h: ScoredHitView| (h.candidate, h.ranges),
    ));
    out
}

/// The views of the candidate names.
pub open spec fn name_views(v: Seq<String>) -> Seq<Seq<char>> {
    v.map_values(|s: String| s@)
}

/// The views of per-candidate match ranges.
pub open spec fn range_views(v: Seq<Vec<(usize, usize)>>) -> Seq<Seq<(usize, usize)>> {
    v.map_values(|r: Vec<(usize, usize)>| r@)
}

fn byte_len(s: &str) -> (n: usize)
    ensures
        n == encode_utf8(s@).len(),
{
    s.as_bytes().len()
}

/// Ranks the candidates that a regex matched, given each candidate's raw
/// match ranges (see [`regex_scored_hits`]).
pub fn rank_regex_filename_hits(candidates: &Vec<String>, matches: &Vec<Vec<(usize, usize)>>) -> (r: Vec<FilenameHit>)
    requires
        matches.len() == candidates.len(),
    ensures
        hit_views(r@) == ranked(regex_scored_hits(name_views(candidates@), range_views(matches@))),
{
    let ghost cands = name_views(candidates@);
    let ghost ms = range_views(matches@);
    let mut hits: Vec<ScoredHit> = Vec::new();
    let mut i: usize = 0;
    while i < matches.len()
        invariant
            i <= matches.len(),
            matches.len() == candidates.len(),
            cands == name_views(candidates@),
            ms == range_views(matches@),
            scored_views(hits@) == regex_scored_hits(cands, ms.take(i as int)),
        decreases matches.len() - i,
    {
        let rs = merge_byte_ranges(copy_ranges(&matches[i]));
        proof {
            assert(ms.take(i + 1).drop_last() =~= ms.take(i as int));
            assert(ms.take(i + 1)[i as int] == matches@[i as int]@);
        }
        if rs.len() > 0 {
            let name = chars_of(candidates[i].as_str());
            let h = ScoredHit {
                candidate: i,
                primary: rs[0].0 as i128,
                chars: name.len(),
                bytes: byte_len(candidates[i].as_str()),
                name,
                ranges: rs,
            };
            hits.push(h);
            proof {
                assert(scored_views(hits@) =~= scored_views(hits@.drop_last()).push(h.view()));
            }
        }
        i = i + 1;
    }
    assert(ms.take(matches.len() as int) =~= ms);
    sort_scored(hits)
}

/// The file names that a regex matches, ranked (see [`regex_scored_hits`]).
pub fn filename_hits_for_regex(candidates: &Vec<String>, re: &SearchRegex) -> (r: Vec<FilenameHit>)
    ensures
        hit_views(r@) == ranked(regex_scored_hits(
            name_views(candidates@),
            Seq::new(candidates@.len(), |i: int| regex_match_ranges(re.pattern(), re.ignores_case(), candidates@[i]@)),
        )),
{
    let mut matches: Vec<Vec<(usize, usize)>> = Vec::new();
    let mut i: usize = 0;
    while i < candidates.len()
        invariant
            i <= candidates.len(),
            matches@.len() == i,
            forall|k: int| 0 <= k < i ==> (#[trigger] matches@[k])@ == regex_match_ranges(re.pattern(), re.ignores_case(), candidates@[k]@),
        decreases candidates.len() - i,
    {
        matches.push(regex_find_ranges(re, candidates[i].as_str()));
        i = i + 1;
    }
    assert(range_views(matches@) =~= Seq::new(candidates@.len(), |i: int| regex_match_ranges(re.pattern(), re.ignores_case(), candidates@[i]@)));
    rank_regex_filename_hits(candidates, &matches)
}

/// Ranks the candidates that fuzzy-match `query` (see [`fuzzy_scored_hits`]).
pub fn rank_fuzzy_filename_hits(candidates: &Vec<String>, query: &str) -> (r: Vec<FilenameHit>)
    requires
        forall|i: int| 0 <= i < candidates@.len() ==> (#[trigger] candidates@[i])@.len() <= 0x1_0000_0000_0000,
    ensures
        hit_views(r@) == ranked(fuzzy_scored_hits(
            name_views(candidates@),
            Seq::new(candidates@.len(), |i: int| fuzzy_spec(candidates@[i]@, query@)),
        )),
{
    let ghost cands = name_views(candidates@);
    let ghost fz = Seq::new(candidates@.len(), |i: int| fuzzy_spec(candidates@[i]@, query@));
    let mut hits: Vec<ScoredHit> = Vec::new();
    let mut i: usize = 0;
    while i < candidates.len()
        invariant
            i <= candidates.len(),
            cands == name_views(candidates@),
            fz == Seq::new(candidates@.len(), |i: int| fuzzy_spec(candidates@[i]@, query@)),
            forall|i: int| 0 <= i < candidates@.len() ==> (#[trigger] candidates@[i])@.len() <= 0x1_0000_0000_0000,
            scored_views(hits@) == fuzzy_scored_hits(cands, fz.take(i as int)),
        decreases candidates.len() - i,
    {
        let _ = byte_len(candidates[i].as_str());
        let res = fuzzy_score_and_ranges(candidates[i].as_str(), query);
        proof {
            assert(fz.take(i + 1).drop_last() =~= fz.take(i as int));
            assert(fz.take(i + 1)[i as int] == fuzzy_spec(candidates@[i as int]@, query@));
        }
        match res {
            Some((score, ranges)) => {
                let name = chars_of(candidates[i].as_str());
                let h = ScoredHit {
                    candidate: i,
                    primary: -(score as i128),
                    chars: name.len(),
                    bytes: 0,
                    name,
                    ranges,
                };
                hits.push(h);
                proof {
                    assert(scored_views(hits@) =~= scored_views(hits@.drop_last()).push(h.view()));
                }
            },
            None => {},
        }
        i = i + 1;
    }
    assert(fz.take(candidates.len() as int) =~= fz);
    sort_scored(hits)
}

/// The ranked file-name hits of a search: by the regex when there is one,
/// else fuzzy by `query`.
pub fn refresh_internal_search_filename_results(
    candidates: &Vec<String>,
    query: &str,
    regex: Option<&SearchRegex>,
) -> (r: Vec<FilenameHit>)
    requires
        forall|i: int| 0 <= i < candidates@.len() ==> (#[trigger] candidates@[i])@.len() <= 0x1_0000_0000_0000,
    ensures
        match regex {
            Some(re) => hit_views(r@) == ranked(regex_scored_hits(
                name_views(candidates@),
                Seq::new(candidates@.len(), |i: int| regex_match_ranges(re.pattern(), re.ignores_case(), candidates@[i]@)),
            )),
            None => hit_views(r@) == ranked(fuzzy_scored_hits(
                name_views(candidates@),
                Seq::new(candidates@.len(), |i: int| fuzzy_spec(candidates@[i]@, query@)),
            )),
        },
{
    match regex {
        Some(re) => filename_hits_for_regex(candidates, re),
        None => rank_fuzzy_filename_hits(candidates, query),
    }
}

proof fn lemma_hit_le_total_preorder()
    ensures
        total_preorder(|a: ScoredHitView, b: ScoredHitView| hit_le(a, b)),
{
    let le = |a: ScoredHitView, b: ScoredHitView| hit_le(a, b);
    assert forall|a: ScoredHitView, b: ScoredHitView| #[trigger] le(a, b) || le(b, a) by {
        lemma_order_seq(a.key.name, b.key.name);
    }
    assert forall|a: ScoredHitView, b: ScoredHitView, c: ScoredHitView| #[trigger] le(a, b) && #[trigger] le(b, c) implies le(a, c) by {
        let (x, y, z) = (a.key.name, b.key.name, c.key.name);
        lemma_order_seq(x, y);
        lemma_order_seq(y, z);
        lemma_order_seq(x, z);
        if order_seq(x, y) != 1 && order_seq(y, z) != 1 {
            lemma_order_seq_trans(x, y, z);
        }
    }
}

/// Ranking keeps every hit and leaves no hit ranked after a later one.
pub proof fn lemma_ranking_sorted(hits: Seq<ScoredHitView>)
    ensures
        rank_order(hits).to_multiset() == hits.to_multiset(),
        forall|i: int, j: int|
            0 <= i < j < hits.len() ==> hit_key_order(
                (#[trigger] rank_order(hits)[i]).key,
                (#[trigger] rank_order(hits)[j]).key,
            ) != 1,
{
    let le = |a: ScoredHitView, b: ScoredHitView| hit_le(a, b);
    lemma_sort_multiset(hits, le);
    lemma_hit_le_total_preorder();
    lemma_sort_sorted(hits, le);
    let s = sort_spec(hits, le);
    assert forall|i: int, j: int| 0 <= i < j < hits.len() implies hit_key_order(
        (#[trigger] s[i]).key,
        (#[trigger] s[j]).key,
    ) != 1 by {
        assert(le(s[i], s[j]));
    }
}

} // verus!
