use sbrs_core::columns::{
    date_column, display_leaf_size, entry_name_style, identity_column, meta_identity_widths, pad_left, pad_right,
    perms_column, selected_total_size_status, size_column, NameColor, NameStyle,
};
use sbrs_core::content::internal_search_header_rows;
use sbrs_core::entries::{sort_entries_by_mode, EntryFacts, SortMode};
use sbrs_core::selection::{
    delta_compare_pair, delta_compared_status, kept_marks, kept_selection, note_targets, position_of_name,
    restored_selection, target_rows,
};

fn s(v: &[&str]) -> Vec<String> {
    v.iter().map(|x| x.to_string()).collect()
}

fn entry(name: &str, is_dir: bool) -> EntryFacts {
    EntryFacts { name: name.to_string(), is_dir, len: 0, modified: 0, folder_size: None }
}

#[test]
fn selection_is_restored_within_the_listing() {
    assert_eq!(restored_selection(Some(5), 3), Some(2));
    assert_eq!(restored_selection(Some(1), 3), Some(1));
    assert_eq!(restored_selection(None, 3), Some(0));
    assert_eq!(restored_selection(Some(1), 0), None);
}

#[test]
fn first_row_with_a_name() {
    let names = s(&["a", "b", "a"]);
    assert_eq!(position_of_name(&names, "a"), Some(0));
    assert_eq!(position_of_name(&names, "b"), Some(1));
    assert_eq!(position_of_name(&names, "c"), None);
}

#[test]
fn resorting_keeps_the_selected_entry() {
    let entries = vec![entry("b", false), entry("a", true), entry("c", false)];
    let order = sort_entries_by_mode(&entries, SortMode::NameAsc, false);
    assert_eq!(order, vec![1, 0, 2]);
    let new_selected = kept_selection(&order, 0);
    assert_eq!(new_selected, 1);
    assert_eq!(entries[order[new_selected]].name, "b");
    assert_eq!(kept_selection(&order, 9), 2);
    assert_eq!(kept_selection(&Vec::new(), 4), 0);
}

#[test]
fn resorting_keeps_the_marked_entries() {
    let entries = vec![entry("b", false), entry("a", true), entry("c", false)];
    let order = sort_entries_by_mode(&entries, SortMode::NameDesc, false);
    assert_eq!(order, vec![1, 2, 0]);
    let marks = kept_marks(&order, &vec![0, 2]);
    assert_eq!(marks, vec![1, 2]);
    let mut marked_names: Vec<&str> = marks.iter().map(|j| entries[order[*j]].name.as_str()).collect();
    marked_names.sort();
    assert_eq!(marked_names, vec!["b", "c"]);
}

#[test]
fn rows_acted_on() {
    assert_eq!(target_rows(3, &vec![], 1), vec![1]);
    assert_eq!(target_rows(3, &vec![], 5), Vec::<usize>::new());
    assert_eq!(target_rows(3, &vec![2, 0, 2, 7], 1), vec![0, 2]);
    assert_eq!(note_targets(&s(&["b", "a", "b"]), &vec![0, 1, 2], 0), s(&["a", "b"]));
    assert_eq!(note_targets(&s(&["b", "a"]), &vec![], 1), s(&["a"]));
    assert_eq!(note_targets(&s(&["b", "a"]), &vec![], 4), Vec::<String>::new());
}

#[test]
fn name_styles() {
    let blue_bold = NameStyle { color: NameColor::Rgb(100, 160, 240), bold: true, dim: false };
    assert_eq!(entry_name_style("src", true, false, Some(0o755), true, None), blue_bold);
    assert_eq!(
        entry_name_style(".git", true, false, Some(0o755), true, None),
        NameStyle { dim: true, ..blue_bold }
    );
    assert_eq!(
        entry_name_style("run.sh", false, false, Some(0o744), true, Some((1, 2, 3))),
        NameStyle { color: NameColor::Rgb(120, 220, 120), bold: false, dim: false }
    );
    assert_eq!(
        entry_name_style("link", false, true, Some(0o644), true, None),
        NameStyle { color: NameColor::Rgb(100, 220, 220), bold: false, dim: false }
    );
    assert_eq!(
        entry_name_style("secret.AGE", false, false, Some(0o600), true, Some((1, 2, 3))),
        NameStyle { color: NameColor::Rgb(230, 190, 90), bold: false, dim: false }
    );
    assert_eq!(
        entry_name_style("main.rs", false, false, Some(0o644), true, Some((1, 2, 3))),
        NameStyle { color: NameColor::Rgb(1, 2, 3), bold: false, dim: false }
    );
    assert_eq!(
        entry_name_style("main.rs", false, false, None, false, Some((1, 2, 3))),
        NameStyle { color: NameColor::White, bold: false, dim: false }
    );
}

#[test]
fn listing_columns() {
    assert_eq!(pad_right("ab", 4), "ab  ");
    assert_eq!(pad_left("ab", 4), "  ab");
    assert_eq!(pad_left("abcde", 4), "abcde");
    assert_eq!(perms_column(Some(0o755), true), "drwxr-xr-x ");
    assert_eq!(perms_column(None, false), "---------- ");
    assert_eq!(identity_column(None, Some(1000)), "1000");
    assert_eq!(identity_column(Some("root".to_string()), Some(0)), "root");
    assert_eq!(identity_column(Some("root".to_string()), None), "-");
    assert_eq!(size_column(Some("1.2K")), "  1.2K");
    assert_eq!(size_column(None), "     -");
    assert_eq!(date_column(Some("2024-01-01 10:00")), "2024-01-01 10:00");
    assert_eq!(date_column(None), " ".repeat(16));
    assert_eq!(display_leaf_size(8), 4096);
    assert_eq!(display_leaf_size(u64::MAX), u64::MAX);
}

#[test]
fn identity_widths_are_capped() {
    assert_eq!(meta_identity_widths(&s(&["staff", "wheel"]), &s(&["a-very-long-owner-name-x"])), (5, 20));
    assert_eq!(meta_identity_widths(&s(&["a-very-long-group-name"]), &s(&["é"])), (16, 1));
    assert_eq!(meta_identity_widths(&Vec::new(), &Vec::new()), (1, 1));
}

#[test]
fn marked_entries_status() {
    assert_eq!(selected_total_size_status(0, true, false, 0, None), None);
    assert_eq!(selected_total_size_status(1, true, false, 0, Some("4K")), Some("selected: 1 item".to_string()));
    assert_eq!(selected_total_size_status(3, false, true, 9, Some("4K")), Some("selected: 3 items".to_string()));
    assert_eq!(
        selected_total_size_status(3, true, true, 5, None),
        Some("selected: 5 items | total size: scanning...".to_string())
    );
    assert_eq!(
        selected_total_size_status(3, true, false, 2, Some("10K")),
        Some("selected: 3 items | total size: 10K".to_string())
    );
    assert_eq!(selected_total_size_status(3, true, false, 7, None), Some("selected: 3 items".to_string()));
}

#[test]
fn search_header_rows() {
    assert_eq!(internal_search_header_rows(true, false, true, true, true, true), 8);
    assert_eq!(internal_search_header_rows(false, false, false, true, true, true), 0);
    assert_eq!(internal_search_header_rows(false, true, true, false, false, false), 3);
}

#[test]
fn delta_compare_checks() {
    let dirs = vec![false, false, true];
    assert_eq!(delta_compare_pair(false, &vec![0], 1, &dirs), Err("delta not found in PATH"));
    assert_eq!(
        delta_compare_pair(true, &vec![], 1, &dirs),
        Err("mark exactly one file, then move cursor to another file and press C")
    );
    assert_eq!(
        delta_compare_pair(true, &vec![0, 1], 1, &dirs),
        Err("mark exactly one file, then move cursor to another file and press C")
    );
    assert_eq!(delta_compare_pair(true, &vec![7], 1, &dirs), Err("marked file not found"));
    assert_eq!(delta_compare_pair(true, &vec![0], 9, &dirs), Err("cursor file not found"));
    assert_eq!(delta_compare_pair(true, &vec![1], 1, &dirs), Err("choose a different cursor file to compare"));
    assert_eq!(delta_compare_pair(true, &vec![0], 2, &dirs), Err("delta compare works on files only"));
    assert_eq!(delta_compare_pair(true, &vec![1], 0, &dirs), Ok((1, 0)));
    assert_eq!(delta_compared_status("a.txt", "b.txt"), "delta compared: a.txt vs b.txt");
}
