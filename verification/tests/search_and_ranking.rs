use sbrs_core::content::{
    adjust_internal_search_content_limit, build_internal_search_limit_note, internal_search_content_limits,
    ContentPattern, ContentSearch, ContentSearchSummary, InternalSearchContentLimits,
};
use sbrs_core::ranking::{
    filename_hits_for_regex, rank_fuzzy_filename_hits, rank_regex_filename_hits,
    refresh_internal_search_filename_results, regex_match_ranges_in, search_query_from_input, SearchQuery,
};
use sbrs_core::search::{fuzzy_score_and_ranges, literal_match_ranges_ascii, merge_byte_ranges, parse_regex_query};
use sbrs_core::walk::{CandidateWalk, DirItem};

fn names(v: &[&str]) -> Vec<String> {
    v.iter().map(|s| s.to_string()).collect()
}

#[test]
fn fuzzy_scores_word_starts_and_runs() {
    assert_eq!(fuzzy_score_and_ranges("src/main.rs", "mrs"), Some((24, vec![(4, 5), (9, 11)])));
    assert_eq!(fuzzy_score_and_ranges("abc", ""), Some((0, vec![])));
    assert_eq!(fuzzy_score_and_ranges("abc", "d"), None);
    assert_eq!(fuzzy_score_and_ranges("ABC", "abc"), Some((47 - 3, vec![(0, 3)])));
}

#[test]
fn merge_sorts_and_joins_touching_ranges() {
    assert_eq!(merge_byte_ranges(vec![(5, 7), (1, 3), (2, 4), (7, 8)]), vec![(1, 4), (5, 8)]);
    assert_eq!(merge_byte_ranges(vec![]), vec![]);
}

#[test]
fn literal_matches_ignore_ascii_case_and_use_byte_offsets() {
    assert_eq!(literal_match_ranges_ascii("Hello hello", "HELLO"), vec![(0, 5), (6, 11)]);
    assert_eq!(literal_match_ranges_ascii("éa éA", "a"), vec![(2, 3), (6, 7)]);
    assert_eq!(literal_match_ranges_ascii("aaa", "aa"), vec![(0, 2)]);
    assert_eq!(literal_match_ranges_ascii("abc", ""), vec![]);
}

#[test]
fn regex_query_forms() {
    assert_eq!(parse_regex_query("re: foo "), Some(("foo".to_string(), true)));
    assert_eq!(parse_regex_query("/ab/i"), Some(("ab".to_string(), true)));
    assert_eq!(parse_regex_query("/ab/"), Some(("ab".to_string(), false)));
    assert_eq!(parse_regex_query("/ab/x"), None);
    assert_eq!(parse_regex_query("//"), Some((String::new(), true)));
    assert_eq!(parse_regex_query("/abc"), None);
    assert_eq!(parse_regex_query("abc"), None);
}

#[test]
fn search_query_compiles_or_reports_invalid() {
    assert!(matches!(search_query_from_input("plain"), SearchQuery::Plain));
    assert!(matches!(search_query_from_input("/a(/"), SearchQuery::InvalidRegex));
    match search_query_from_input("re:ab+") {
        SearchQuery::Regex(re) => {
            assert_eq!(regex_match_ranges_in(&re, "xABBy ab"), vec![(1, 4), (6, 8)]);
        }
        _ => panic!("expected a regex"),
    }
}

#[test]
fn regex_filename_hits_rank_by_first_match() {
    let cands = names(&["src/lib.rs", "README.md", "lib/mod.rs", "docs/lib.md"]);
    let re = match search_query_from_input("re:lib") {
        SearchQuery::Regex(re) => re,
        _ => panic!("expected a regex"),
    };
    let hits = filename_hits_for_regex(&cands, &re);
    let order: Vec<usize> = hits.iter().map(|h| h.candidate).collect();
    assert_eq!(order, vec![2, 0, 3]);
    assert_eq!(hits[0].ranges, vec![(0, 3)]);
    assert_eq!(hits[1].ranges, vec![(4, 7)]);
    assert_eq!(hits[2].ranges, vec![(5, 8)]);
}

#[test]
fn regex_ranking_breaks_ties_by_length_then_name() {
    let cands = names(&["bb", "a", "ab", "c"]);
    let matches = vec![vec![(0, 1)], vec![(0, 1)], vec![(0, 1)], vec![]];
    let hits = rank_regex_filename_hits(&cands, &matches);
    let order: Vec<usize> = hits.iter().map(|h| h.candidate).collect();
    assert_eq!(order, vec![1, 2, 0]);
}

#[test]
fn fuzzy_filename_hits_rank_by_score() {
    let cands = names(&["a_b_c", "xyz", "abc"]);
    let hits = rank_fuzzy_filename_hits(&cands, "abc");
    let order: Vec<usize> = hits.iter().map(|h| h.candidate).collect();
    assert_eq!(order, vec![2, 0]);
    let same = refresh_internal_search_filename_results(&cands, "abc", None);
    assert_eq!(same.iter().map(|h| h.candidate).collect::<Vec<_>>(), vec![2, 0]);
}

fn limits(files: usize, hits: usize, bytes: usize) -> InternalSearchContentLimits {
    InternalSearchContentLimits { max_files: files, max_hits: hits, max_file_bytes: bytes }
}

#[test]
fn content_search_reads_files_until_the_file_limit() {
    let mut s = ContentSearch::new(ContentPattern::Literal("foo".to_string()), limits(2, 10, 100), 3);
    assert_eq!(s.next_candidate(), Some(0));
    assert!(s.accepts_size(100));
    s.feed_text("a foo\nbar\nFOO x");
    assert_eq!(s.next_candidate(), Some(1));
    assert!(!s.accepts_size(1000));
    s.skip_large_file();
    assert_eq!(s.next_candidate(), None);
    let (hits, summary) = s.finish();
    assert_eq!(hits.len(), 2);
    assert_eq!((hits[0].candidate, hits[0].line_number, hits[0].line_text.as_str()), (0, 1, "a foo"));
    assert_eq!(hits[0].ranges, vec![(2, 5)]);
    assert_eq!((hits[1].line_number, hits[1].ranges.clone()), (3, vec![(0, 3)]));
    assert_eq!(
        summary,
        ContentSearchSummary { scanned_candidates: 3, files_limit_hit: true, large_files_skipped: 1, hits_limit_hit: false }
    );
    let note = build_internal_search_limit_note(limits(2, 10, 100), summary, "100 B");
    assert_eq!(note, Some("Limits: scanned first 2 files; skipped 1 file(s) > 100 B (candidates: 3)".to_string()));
}

#[test]
fn content_search_stops_at_the_hit_cap() {
    let mut s = ContentSearch::new(ContentPattern::Literal("foo".to_string()), limits(10, 1, 100), 2);
    assert_eq!(s.next_candidate(), Some(0));
    s.feed_text("foo\nfoo");
    assert_eq!(s.next_candidate(), None);
    let (hits, summary) = s.finish();
    assert_eq!(hits.len(), 1);
    assert!(summary.hits_limit_hit);
    assert!(!summary.files_limit_hit);
    let note = build_internal_search_limit_note(limits(10, 1, 100), summary, "100 B");
    assert_eq!(note, Some("Limits: capped at 1 matches (candidates: 2)".to_string()));
}

#[test]
fn content_search_with_a_regex() {
    let re = match search_query_from_input("/b+/") {
        SearchQuery::Regex(re) => re,
        _ => panic!("expected a regex"),
    };
    let mut s = ContentSearch::new(ContentPattern::Regex(re), limits(10, 10, 100), 1);
    assert_eq!(s.next_candidate(), Some(0));
    s.skip_file();
    assert_eq!(s.next_candidate(), None);
    let (hits, summary) = s.finish();
    assert!(hits.is_empty());
    assert_eq!(build_internal_search_limit_note(limits(10, 10, 100), summary, "100 B"), None);
}

#[test]
fn content_limits_from_settings_and_steps() {
    let l = internal_search_content_limits(Some(" 500 "), Some("0"), None);
    assert_eq!(l, limits(500, 2000, 2 * 1024 * 1024));
    let mut m = limits(20_000, 2_000, 2_097_152);
    adjust_internal_search_content_limit(&mut m, 0, true, true);
    assert_eq!(m.max_files, 25_000);
    adjust_internal_search_content_limit(&mut m, 1, false, false);
    assert_eq!(m.max_hits, 1_900);
    adjust_internal_search_content_limit(&mut m, 2, false, false);
    assert_eq!(m.max_file_bytes, 1_835_008);
    let mut small = limits(150, 60, 70_000);
    adjust_internal_search_content_limit(&mut small, 1, false, false);
    adjust_internal_search_content_limit(&mut small, 0, false, false);
    adjust_internal_search_content_limit(&mut small, 2, false, false);
    assert_eq!(small, limits(100, 50, 65_536));
}

fn item(name: &str, is_dir: bool) -> DirItem {
    DirItem { name: name.to_string(), is_dir, is_file: !is_dir }
}

#[test]
fn candidate_walk_collects_sorted_files() {
    let mut walk = CandidateWalk::new(10);
    assert_eq!(walk.next_dir(), Some(String::new()));
    walk.on_listing("", &vec![item(".git", true), item("src", true), item("b.txt", false), item("a.txt", false)]);
    assert_eq!(walk.next_dir(), Some("src".to_string()));
    walk.on_listing("src", &vec![item("main.rs", false), item(".hidden.rs", false)]);
    assert_eq!(walk.next_dir(), None);
    assert_eq!(walk.finish(), vec!["a.txt".to_string(), "b.txt".to_string(), "src/main.rs".to_string()]);
}

#[test]
fn candidate_walk_stops_at_the_cap() {
    let mut walk = CandidateWalk::new(2);
    assert_eq!(walk.next_dir(), Some(String::new()));
    walk.on_listing("", &vec![item("c.txt", false), item("sub", true), item("a.txt", false), item("b.txt", false)]);
    assert_eq!(walk.next_dir(), None);
    assert_eq!(walk.finish(), vec!["a.txt".to_string(), "c.txt".to_string()]);

    let mut none = CandidateWalk::new(0);
    assert_eq!(none.next_dir(), Some(String::new()));
    none.on_listing("", &vec![item("z.txt", false), item("y.txt", false)]);
    assert_eq!(none.next_dir(), None);
    assert_eq!(none.finish(), vec!["z.txt".to_string()]);
}
