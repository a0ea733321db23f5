use vstd::prelude::*;
use crate::ranking::{regex_match_ranges, regex_match_ranges_in, SearchRegex};
use crate::search::{literal_from, literal_match_ranges_ascii, merge_spec, to_byte_ranges};
use crate::fmt::{decimal_spec, decimal_string, limit_from_setting, limit_from_setting_spec};
use crate::text::{chars_of, concat_str, join_spec, join_strings, lines_chars, lines_spec, string_from_chars, views};

verus! {

/// How file contents are searched.
pub enum ContentPattern {
    /// Matches of a compiled regex.
    Regex(SearchRegex),
    /// Occurrences of a literal text, ASCII case ignored.
    Literal(String),
}

/// The pattern as values.
pub enum PatternView {
    Regex(Seq<char>, bool),
    Literal(Seq<char>),
}

impl ContentPattern {
    pub open spec fn view(&self) -> PatternView {
        match self {
            ContentPattern::Regex(re) => PatternView::Regex(re.pattern(), re.ignores_case()),
            ContentPattern::Literal(q) => PatternView::Literal(q@),
        }
    }
}

/// The byte ranges to highlight in a line.
pub open spec fn line_ranges_spec(p: PatternView, line: Seq<char>) -> Seq<(usize, usize)> {
    match p {
        PatternView::Regex(pat, ci) => merge_spec(regex_match_ranges(pat, ci, line)),
        PatternView::Literal(q) => to_byte_ranges(line, literal_from(line, q, 0)),
    }
}

/// The byte ranges to highlight in a line.
pub fn line_match_ranges(p: &ContentPattern, line: &str) -> (r: Vec<(usize, usize)>)
    ensures
        r@ == line_ranges_spec(p.view(), line@),
{
    match p {
        ContentPattern::Regex(re) => regex_match_ranges_in(re, line),
        ContentPattern::Literal(q) => {
            let _ = line.as_bytes().len();
            literal_match_ranges_ascii(line, q.as_str())
        },
    }
}

/// A line of a file that matched.
pub struct ContentHit {
    pub candidate: usize,
    pub line_number: usize,
    pub line_text: String,
    pub ranges: Vec<(usize, usize)>,
}

/// A matching line as values.
pub struct ContentHitView {
    pub candidate: usize,
    pub line_number: int,
    pub line: Seq<char>,
    pub ranges: Seq<(usize, usize)>,
}

impl ContentHit {
    pub open spec fn view(&self) -> ContentHitView {
        ContentHitView {
            candidate: self.candidate,
            line_number: self.line_number as int,
            line: self.line_text@,
            ranges: self.ranges@,
        }
    }
}

/// The views of a list of content hits.
pub open spec fn content_views(v: Seq<ContentHit>) -> Seq<ContentHitView> {
    v.map_values(|h: ContentHit| h.view())
}

/// Every line of candidate `cand` that the pattern matches, in order, with
/// its 1-based line number. `lines`: the file's lines.
pub open spec fn file_hits_spec(cand: usize, lines: Seq<Seq<char>>, p: PatternView) -> Seq<ContentHitView>
    decreases lines.len(),
{
    if lines.len() == 0 {
        Seq::empty()
    } else {
        let k = lines.len() - 1;
        let rest = file_hits_spec(cand, lines.drop_last(), p);
        let rs = line_ranges_spec(p, lines[k]);
        if rs.len() > 0 {
            rest.push(ContentHitView { candidate: cand, line_number: k + 1, line: lines[k], ranges: rs })
        } else {
            rest
        }
    }
}

/// The limits of a content search.
#[derive(Clone, Copy, PartialEq, Eq, Structural, Debug)]
pub struct InternalSearchContentLimits {
    pub max_files: usize,
    pub max_hits: usize,
    pub max_file_bytes: usize,
}

/// A content search over candidate files, one file at a time: the caller
/// asks for the next candidate, reads it, and hands back what it found.
pub struct ContentSearch {
    pattern: ContentPattern,
    limits: InternalSearchContentLimits,
    candidates: usize,
    next: usize,
    results: Vec<ContentHit>,
    large_files_skipped: usize,
    files_limit_hit: bool,
    hits_limit_hit: bool,
}

/// Where a content search stands.
pub struct ContentSearchView {
    pub pattern: PatternView,
    pub limits: InternalSearchContentLimits,
    pub candidates: int,
    pub next: int,
    pub results: Seq<ContentHitView>,
    pub large_files_skipped: int,
    pub files_limit_hit: bool,
    pub hits_limit_hit: bool,
}

/// How many more hits a file may add before the search is capped (at least
/// one: a hit is taken before the cap is checked).
pub open spec fn room_spec(limits: InternalSearchContentLimits, taken: int) -> int {
    if limits.max_hits > taken {
        limits.max_hits - taken
    } else {
        1
    }
}

/// The search after a file's lines were searched.
pub open spec fn after_text_spec(s: ContentSearchView, lines: Seq<Seq<char>>) -> ContentSearchView {
    let all = file_hits_spec(s.next as usize, lines, s.pattern);
    let room = room_spec(s.limits, s.results.len() as int);
    ContentSearchView {
        next: s.next + 1,
        results: s.results + all.take(if all.len() < room { all.len() as int } else { room }),
        hits_limit_hit: all.len() >= room,
        ..s
    }
}

impl ContentSearch {
    pub closed spec fn view(&self) -> ContentSearchView {
        ContentSearchView {
            pattern: self.pattern.view(),
            limits: self.limits,
            candidates: self.candidates as int,
            next: self.next as int,
            results: content_views(self.results@),
            large_files_skipped: self.large_files_skipped as int,
            files_limit_hit: self.files_limit_hit,
            hits_limit_hit: self.hits_limit_hit,
        }
    }

    /// A search is well formed: it has not passed the last candidate, and
    /// holds no more hits than its cap allows.
    pub closed spec fn wf(&self) -> bool {
        &&& self.next <= self.candidates
        &&& self.results@.len() <= (if self.limits.max_hits > 0 { self.limits.max_hits as int } else { 1 })
        &&& !self.hits_limit_hit ==> self.results@.len() < self.limits.max_hits || self.results@.len() == 0
        &&& self.large_files_skipped <= self.next
    }

    /// A search of `candidates` files with `pattern` under `limits`.
    pub fn new(pattern: ContentPattern, limits: InternalSearchContentLimits, candidates: usize) -> (s: Self)
        ensures
            s.wf(),
            s.view() == (ContentSearchView {
                pattern: pattern.view(),
                limits,
                candidates: candidates as int,
                next: 0,
                results: Seq::empty(),
                large_files_skipped: 0,
                files_limit_hit: false,
                hits_limit_hit: false,
            }),
    {
        let s = ContentSearch {
            pattern,
            limits,
            candidates,
            next: 0,
            results: Vec::new(),
            large_files_skipped: 0,
            files_limit_hit: false,
            hits_limit_hit: false,
        };
        assert(content_views(s.results@) =~= Seq::empty());
        s
    }

    /// The candidate to read next, or `None` when the search is over: all
    /// candidates were seen, the hits are capped, or the next candidate is
    /// past the file limit (which marks the file limit as hit).
    pub fn next_candidate(&mut self) -> (r: Option<usize>)
        requires
            old(self).wf(),
        ensures
            final(self).wf(),
            ({
                let s = old(self)@;
                if s.hits_limit_hit || s.next >= s.candidates {
                    r is None && final(self)@ == s
                } else if s.next >= s.limits.max_files {
                    r is None && final(self)@ == (ContentSearchView { files_limit_hit: true, ..s })
                } else {
                    r == Some(s.next as usize) && final(self)@ == s
                }
            }),
    {
        if self.hits_limit_hit || self.next >= self.candidates {
            return None;
        }
        if self.next >= self.limits.max_files {
            self.files_limit_hit = true;
            return None;
        }
        Some(self.next)
    }

    /// Whether a file of `len` bytes is small enough to search.
    pub fn accepts_size(&self, len: u64) -> (r: bool)
        ensures
            r == (len as int <= self@.limits.max_file_bytes as int),
    {
        len as u128 <= self.limits.max_file_bytes as u128
    }

    /// The current candidate cannot be searched (not a readable text file).
    pub fn skip_file(&mut self)
        requires
            old(self).wf(),
            old(self)@.next < old(self)@.candidates,
            old(self)@.next < old(self)@.limits.max_files,
        ensures
            final(self).wf(),
            final(self)@ == (ContentSearchView { next: old(self)@.next + 1, ..old(self)@ }),
    {
        self.next = self.next + 1;
    }

    /// The current candidate is larger than the file size limit.
    pub fn skip_large_file(&mut self)
        requires
            old(self).wf(),
            old(self)@.next < old(self)@.candidates,
            old(self)@.next < old(self)@.limits.max_files,
        ensures
            final(self).wf(),
            final(self)@ == (ContentSearchView {
                next: old(self)@.next + 1,
                large_files_skipped: old(self)@.large_files_skipped + 1,
                ..old(self)@
            }),
    {
        self.next = self.next + 1;
        self.large_files_skipped = self.large_files_skipped + 1;
    }

    /// Searches the text of the current candidate, line by line, until the
    /// hits are capped.
    pub fn feed_text(&mut self, text: &str)
        requires
            old(self).wf(),
            old(self)@.next < old(self)@.candidates,
            old(self)@.next < old(self)@.limits.max_files,
            !old(self)@.hits_limit_hit,
        ensures
            final(self).wf(),
            final(self)@ == after_text_spec(old(self)@, lines_spec(text@)),
    {
        let ghost s0 = self@;
        let ghost lines_v = lines_spec(text@);
        let lines = lines_chars(&chars_of(text));
        let ghost all = file_hits_spec(self.next, lines_v, s0.pattern);
        let ghost room = room_spec(self.limits, self.results@.len() as int);
        let ghost base = self.results@;
        let cand = self.next;
        let mut k: usize = 0;
        let mut taken: usize = 0;
        let mut capped = false;
        while k < lines.len() && !capped
            invariant
                k <= lines.len(),
                views(lines@) == lines_v,
                cand == s0.next,
                s0 == old(self)@,
                s0.next < s0.candidates,
                self.next as int == s0.next,
                self.candidates as int == s0.candidates,
                self.large_files_skipped as int == s0.large_files_skipped,
                self.files_limit_hit == s0.files_limit_hit,
                s0.pattern == self.pattern.view(),
                self.limits == s0.limits,
                room == room_spec(s0.limits, base.len() as int),
                room >= 1,
                base.len() < s0.limits.max_hits || base.len() == 0,
                taken <= room,
                file_hits_spec(cand, lines_v.take(k as int), s0.pattern).len() == taken,
                content_views(self.results@) == content_views(base) + file_hits_spec(cand, lines_v.take(k as int), s0.pattern),
                capped == (taken >= room),
            decreases lines.len() - k,
        {
            let line = string_from_chars(lines[k].as_slice());
            let rs = line_match_ranges(&self.pattern, line.as_str());
            proof {
                assert(lines_v.take(k + 1).drop_last() =~= lines_v.take(k as int));
                assert(lines_v.take(k + 1)[k as int] == lines@[k as int]@);
            }
            if rs.len() > 0 {
                let ghost before = self.results@;
                let h = ContentHit { candidate: cand, line_number: k + 1, line_text: line, ranges: rs };
                self.results.push(h);
                assert(content_views(self.results@) =~= content_views(before).push(h.view()));
                taken = taken + 1;
                if self.results.len() >= self.limits.max_hits {
                    capped = true;
                }
            }
            k = k + 1;
        }
        proof {
            let took = if all.len() < room { all.len() as int } else { room };
            if capped {
                lemma_file_hits_prefix(cand, lines_v, k as int, s0.pattern);
                assert(file_hits_spec(cand, lines_v.take(k as int), s0.pattern) =~= all.take(room));
            } else {
                assert(lines_v.take(k as int) =~= lines_v);
            }
        }
        self.hits_limit_hit = capped;
        self.next = self.next + 1;
        assert(self@.results =~= after_text_spec(s0, lines_v).results);
    }

    /// The hits found, and how the search ended.
    pub fn finish(self) -> (r: (Vec<ContentHit>, ContentSearchSummary))
        ensures
            content_views(r.0@) == self@.results,
            r.1 == (ContentSearchSummary {
                scanned_candidates: self@.candidates as usize,
                files_limit_hit: self@.files_limit_hit,
                large_files_skipped: self@.large_files_skipped as usize,
                hits_limit_hit: self@.hits_limit_hit,
            }),
    {
        let summary = ContentSearchSummary {
            scanned_candidates: self.candidates,
            files_limit_hit: self.files_limit_hit,
            large_files_skipped: self.large_files_skipped,
            hits_limit_hit: self.hits_limit_hit,
        };
        (self.results, summary)
    }
}

/// How a content search ended.
#[derive(Clone, Copy, PartialEq, Eq, Structural, Debug)]
pub struct ContentSearchSummary {
    pub scanned_candidates: usize,
    pub files_limit_hit: bool,
    pub large_files_skipped: usize,
    pub hits_limit_hit: bool,
}

proof fn lemma_file_hits_prefix(cand: usize, lines: Seq<Seq<char>>, k: int, p: PatternView)
    requires
        0 <= k <= lines.len(),
    ensures
        file_hits_spec(cand, lines.take(k), p) == file_hits_spec(cand, lines, p).take(
            file_hits_spec(cand, lines.take(k), p).len() as int,
        ),
        file_hits_spec(cand, lines.take(k), p).len() <= file_hits_spec(cand, lines, p).len(),
    decreases lines.len(),
{
    if k == lines.len() {
        assert(lines.take(k) =~= lines);
        assert(file_hits_spec(cand, lines, p).take(file_hits_spec(cand, lines, p).len() as int) =~= file_hits_spec(cand, lines, p));
    } else {
        lemma_file_hits_prefix(cand, lines.drop_last(), k, p);
        assert(lines.drop_last().take(k) =~= lines.take(k));
        let a = file_hits_spec(cand, lines.drop_last(), p);
        let b = file_hits_spec(cand, lines, p);
        let t = file_hits_spec(cand, lines.take(k), p);
        assert(t =~= b.take(t.len() as int));
    }
}

/// A setting's text as an optional view.
pub open spec fn opt_view(v: Option<&str>) -> Option<Seq<char>> {
    match v {
        Some(s) => Some(s@),
        None => None,
    }
}

/// The content-search limits: at most 20000 files, 2000 hits and 2 MiB per
/// file, each replaced by its setting when that holds a positive number.
pub fn internal_search_content_limits(
    max_files: Option<&str>,
    max_hits: Option<&str>,
    max_file_bytes: Option<&str>,
) -> (r: InternalSearchContentLimits)
    ensures
        r.max_files == limit_from_setting_spec(opt_view(max_files), 20_000),
        r.max_hits == limit_from_setting_spec(opt_view(max_hits), 2_000),
        r.max_file_bytes == limit_from_setting_spec(opt_view(max_file_bytes), 2097152),
{
    InternalSearchContentLimits {
        max_files: limit_from_setting(max_files, 20_000),
        max_hits: limit_from_setting(max_hits, 2_000),
        max_file_bytes: limit_from_setting(max_file_bytes, 2 * 1024 * 1024),
    }
}

/// `a * b`, or `usize::MAX` when that does not fit.
pub open spec fn sat_mul(a: int, b: int) -> int {
    if a * b > usize::MAX {
        usize::MAX as int
    } else {
        a * b
    }
}

/// A limit stepped up or down: row 0 (files) by 500, row 1 (hits) by 100,
/// any other row (file size) by 256 KiB, ten times that when `fast`; up
/// saturates, down stops at 100 files, 50 hits or 64 KiB.
pub open spec fn stepped_limit(current: usize, row: usize, increase: bool, fast: bool) -> usize {
    let factor: int = if fast { 10 } else { 1 };
    let base: int = if row == 0 { 500 } else if row == 1 { 100 } else { 262144 };
    let step = sat_mul(base, factor);
    let floor: int = if row == 0 { 100 } else if row == 1 { 50 } else { 65536 };
    if increase {
        if current + step > usize::MAX { usize::MAX } else { (current + step) as usize }
    } else {
        let down: int = if current >= step { current - step } else { 0 };
        if down < floor { floor as usize } else { down as usize }
    }
}

/// The limits with the one on row `row` stepped (see [`stepped_limit`]).
pub open spec fn adjusted_limits_spec(
    l: InternalSearchContentLimits,
    row: usize,
    increase: bool,
    fast: bool,
) -> InternalSearchContentLimits {
    if row == 0 {
        InternalSearchContentLimits { max_files: stepped_limit(l.max_files, row, increase, fast), ..l }
    } else if row == 1 {
        InternalSearchContentLimits { max_hits: stepped_limit(l.max_hits, row, increase, fast), ..l }
    } else {
        InternalSearchContentLimits { max_file_bytes: stepped_limit(l.max_file_bytes, row, increase, fast), ..l }
    }
}

/// Steps the limit on row `row` of the limits menu up or down.
pub fn adjust_internal_search_content_limit(
    limits: &mut InternalSearchContentLimits,
    row: usize,
    increase: bool,
    fast: bool,
)
    ensures
        *final(limits) == adjusted_limits_spec(*old(limits), row, increase, fast),
{
    let factor: usize = if fast { 10 } else { 1 };
    let (current, base, floor) = if row == 0 {
        (limits.max_files, 500usize, 100usize)
    } else if row == 1 {
        (limits.max_hits, 100usize, 50usize)
    } else {
        (limits.max_file_bytes, 256usize * 1024, 64usize * 1024)
    };
    let step = base * factor;
    let new_value = if increase {
        current.saturating_add(step)
    } else {
        let down = current.saturating_sub(step);
        if down < floor { floor } else { down }
    };
    if row == 0 {
        limits.max_files = new_value;
    } else if row == 1 {
        limits.max_hits = new_value;
    } else {
        limits.max_file_bytes = new_value;
    }
}

/// The note under the content results that tells which limits cut the
/// search short, or `None` when none did. `file_size_label`: the file size
/// limit as shown to the user.
pub open spec fn limit_note_spec(
    limits: InternalSearchContentLimits,
    summary: ContentSearchSummary,
    file_size_label: Seq<char>,
) -> Option<Seq<char>> {
    let p1: Seq<Seq<char>> = if summary.files_limit_hit {
        seq!["scanned first "@ + decimal_spec(limits.max_files as nat) + " files"@]
    } else {
        seq![]
    };
    let p2: Seq<Seq<char>> = if summary.hits_limit_hit {
        p1.push("capped at "@ + decimal_spec(limits.max_hits as nat) + " matches"@)
    } else {
        p1
    };
    let p3: Seq<Seq<char>> = if summary.large_files_skipped > 0 {
        p2.push("skipped "@ + decimal_spec(summary.large_files_skipped as nat) + " file(s) > "@ + file_size_label)
    } else {
        p2
    };
    if p3.len() == 0 {
        None
    } else {
        Some("Limits: "@ + join_spec(p3, "; "@) + " (candidates: "@ + decimal_spec(summary.scanned_candidates as nat) + ")"@)
    }
}

fn cat3(a: &str, b: &str, c: &str) -> (r: String)
    ensures
        r@ == a@ + b@ + c@,
{
    let ab = concat_str(a, b);
    concat_str(ab.as_str(), c)
}

/// The limits note of a finished content search (see [`limit_note_spec`]).
pub fn build_internal_search_limit_note(
    limits: InternalSearchContentLimits,
    summary: ContentSearchSummary,
    file_size_label: &str,
) -> (r: Option<String>)
    ensures
        match r {
            Some(s) => limit_note_spec(limits, summary, file_size_label@) == Some(s@),
            None => limit_note_spec(limits, summary, file_size_label@).is_none(),
        },
{
    proof {
        reveal_strlit("scanned first ");
        reveal_strlit(" files");
        reveal_strlit("capped at ");
        reveal_strlit(" matches");
        reveal_strlit("skipped ");
        reveal_strlit(" file(s) > ");
        reveal_strlit("Limits: ");
        reveal_strlit("; ");
        reveal_strlit(" (candidates: ");
        reveal_strlit(")");
    }
    let mut parts: Vec<String> = Vec::new();
    if summary.files_limit_hit {
        let n = decimal_string(limits.max_files as u64);
        parts.push(cat3("scanned first ", n.as_str(), " files"));
    }
    if summary.hits_limit_hit {
        let n = decimal_string(limits.max_hits as u64);
        parts.push(cat3("capped at ", n.as_str(), " matches"));
    }
    if summary.large_files_skipped > 0 {
        let n = decimal_string(summary.large_files_skipped as u64);
        let head = cat3("skipped ", n.as_str(), " file(s) > ");
        parts.push(concat_str(head.as_str(), file_size_label));
    }
    let ghost pv = parts@.map_values(|p: String| p@);
    let ghost spec_parts = {
        let p1: Seq<Seq<char>> = if summary.files_limit_hit {
            seq!["scanned first "@ + decimal_spec(limits.max_files as nat) + " files"@]
        } else {
            seq![]
        };
        let p2: Seq<Seq<char>> = if summary.hits_limit_hit {
            p1.push("capped at "@ + decimal_spec(limits.max_hits as nat) + " matches"@)
        } else {
            p1
        };
        if summary.large_files_skipped > 0 {
            p2.push("skipped "@ + decimal_spec(summary.large_files_skipped as nat) + " file(s) > "@ + file_size_label@)
        } else {
            p2
        }
    };
    assert(pv =~= spec_parts);
    if parts.len() == 0 {
        return None;
    }
    let joined = join_strings(&parts, "; ");
    let n = decimal_string(summary.scanned_candidates as u64);
    let head = cat3("Limits: ", joined.as_str(), " (candidates: ");
    Some(cat3(head.as_str(), n.as_str(), ")"))
}

/// The rows above the results in the search overlay: one while candidates
/// are still being gathered or were cut short; in content search, the
/// limits summary, then the limits editor (four rows) or its hint (one),
/// one while the content search runs, and one for a limit note.
pub open spec fn search_header_rows_spec(
    candidates_pending_or_truncated: bool,
    content_scope: bool,
    limits_menu_open: bool,
    content_pending: bool,
    has_limit_note: bool,
) -> nat {
    (if candidates_pending_or_truncated { 1nat } else { 0nat }) + if content_scope {
        1 + (if limits_menu_open { 4nat } else { 1nat }) + (if content_pending { 1nat } else { 0nat })
            + (if has_limit_note { 1nat } else { 0nat })
    } else {
        0nat
    }
}

/// The rows above the results in the search overlay (see
/// [`search_header_rows_spec`]).
pub fn internal_search_header_rows(
    candidates_pending: bool,
    candidates_truncated: bool,
    content_scope: bool,
    limits_menu_open: bool,
    content_pending: bool,
    has_limit_note: bool,
) -> (r: usize)
    ensures
        r == search_header_rows_spec(
            candidates_pending || candidates_truncated,
            content_scope,
            limits_menu_open,
            content_pending,
            has_limit_note,
        ),
{
    let mut rows: usize = 0;
    if candidates_pending || candidates_truncated {
        rows = rows + 1;
    }
    if content_scope {
        rows = rows + 1;
        if limits_menu_open {
            rows = rows + 4;
        } else {
            rows = rows + 1;
        }
        if content_pending {
            rows = rows + 1;
        }
        if has_limit_note {
            rows = rows + 1;
        }
    }
    rows
}

} // verus!
