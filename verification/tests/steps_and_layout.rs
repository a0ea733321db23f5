use sbrs_core::archive::FreeNameSearch;
use sbrs_core::columns::{entry_size_bytes, size_column};
use sbrs_core::filetypes::age_preview_status;
use sbrs_core::git::{after_commit_push, git_commit_and_push_steps, StepAction, StepRun};
use sbrs_core::integration::install::{
    finish_integration_install, install_start, install_start_status, InstallStart, PendingInstall,
};
use sbrs_core::integration::settings::{integration_active, IntegrationSettings};
use sbrs_core::meta::create_entries_outcome;
use sbrs_core::overlay::{
    clickable_key_in, main_list_click_in, overlay_anchor_in, scrollbar_area_of, tab_close_click_in,
    table_and_list_in, Area, LastClick, OverlayClick, OverlayState, OverlayView,
};
use sbrs_core::preview::{image_preview_lines, preview_failure, preview_footer, PreviewKind};
use sbrs_core::search::merge_byte_ranges;

fn area(x: u16, y: u16, width: u16, height: u16) -> Area {
    Area { x, y, width, height }
}

fn state() -> OverlayState {
    OverlayState {
        search_results_len: 5,
        search_selected: 0,
        search_header_rows: 0,
        search_regex_error: false,
        bookmarks_len: 10,
        bookmark_selected: 0,
        integrations_len: 3,
        integration_selected: 0,
        remote_entries_len: 2,
        ssh_picker_selection: 0,
        sort_options_len: 7,
        sort_menu_selected: 0,
    }
}

#[test]
fn overlay_clicks_from_given_bodies() {
    let o = area(0, 0, 100, 30);
    let body = area(1, 1, 98, 20);
    let mut st = state();
    assert_eq!(clickable_key_in(OverlayView::Bookmarks, 5, 3, area(0, 0, 120, 40), o, body, &mut st), OverlayClick::Enter);
    assert_eq!(st.bookmark_selected, 1);
    let before = st;
    assert_eq!(clickable_key_in(OverlayView::Bookmarks, 5, 1, area(0, 0, 120, 40), o, body, &mut st), OverlayClick::Ignored);
    assert_eq!(st, before);
    assert_eq!(clickable_key_in(OverlayView::Integrations, 5, 2, area(0, 0, 120, 40), o, body, &mut st), OverlayClick::Toggle);
    assert_eq!(st.integration_selected, 0);
    let mut huge = OverlayState { bookmarks_len: usize::MAX, search_header_rows: usize::MAX, ..state() };
    assert_eq!(clickable_key_in(OverlayView::Bookmarks, 5, 21, area(0, 0, 120, 40), o, body, &mut huge), OverlayClick::Ignored);
    assert_eq!(clickable_key_in(OverlayView::InternalSearch, 5, 1, area(0, 0, 120, 40), o, body, &mut huge), OverlayClick::Ignored);
    let mut wrapped = OverlayState { search_header_rows: 65536, search_selected: 3, ..state() };
    assert_eq!(clickable_key_in(OverlayView::InternalSearch, 5, 1, area(0, 0, 120, 40), o, body, &mut wrapped), OverlayClick::Enter);
    assert_eq!(wrapped.search_selected, 3);
}

#[test]
fn layouts_from_given_rows() {
    assert_eq!(overlay_anchor_in(area(0, 0, 120, 38)), area(10, 3, 100, 31));
    let p = table_and_list_in(area(0, 0, 120, 38), area(0, 0, 0, 0), true, false, 100);
    assert_eq!(p, Some((area(0, 2, 120, 36), area(0, 2, 119, 36))));
    assert_eq!(scrollbar_area_of(p), Some(area(119, 2, 1, 36)));
    assert_eq!(table_and_list_in(area(0, 0, 120, 38), area(0, 0, 0, 0), false, false, 100), None);
    let q = table_and_list_in(area(0, 0, 120, 39), area(0, 1, 40, 38), true, true, 3);
    assert_eq!(q, Some((area(1, 2, 38, 36), area(1, 2, 38, 36))));
    assert_eq!(scrollbar_area_of(q), None);
    let last = Some(LastClick { index: 4, same_dir: true, elapsed_ms: 100 });
    assert_eq!(main_list_click_in(area(0, 2, 119, 36), 3, 6, 0, 10, last), Some((4, true)));
    assert_eq!(main_list_click_in(area(0, 2, 119, 36), 3, 30, 0, 10, last), None);
    assert!(tab_close_click_in(true, area(10, 3, 100, 31), 108, 3));
    assert!(!tab_close_click_in(false, area(10, 3, 100, 31), 108, 3));
}

#[test]
fn commit_push_runs_in_order_and_stops_at_a_failure() {
    let steps = git_commit_and_push_steps("msg", false);
    let (mut run, a) = StepRun::start(&steps);
    assert!(matches!(a, StepAction::Run(0)));
    assert!(matches!(run.on_result(&steps, true), StepAction::Run(1)));
    match run.on_result(&steps, false) {
        StepAction::Finished(Some(f)) => assert_eq!(f, "git commit failed"),
        _ => panic!("the run stops at the failed commit"),
    }
    assert!(matches!(run.on_result(&steps, true), StepAction::Finished(Some(_))));

    let (mut ok_run, _) = StepRun::start(&steps);
    assert!(matches!(ok_run.on_result(&steps, true), StepAction::Run(1)));
    assert!(matches!(ok_run.on_result(&steps, true), StepAction::Run(2)));
    assert!(matches!(ok_run.on_result(&steps, true), StepAction::Finished(None)));

    assert_eq!(after_commit_push(None, false, Some('t')), ("edit tag and press Enter to create+push (Esc=cancel)".to_string(), true));
    assert_eq!(after_commit_push(None, true, Some('x')), ("amend commit pushed with -f".to_string(), false));
    assert_eq!(after_commit_push(None, false, None), ("commit pushed".to_string(), false));
    assert_eq!(after_commit_push(Some("git push failed".to_string()), false, Some('T')), ("git push failed".to_string(), false));
}

#[test]
fn free_names_are_tried_in_order() {
    let (mut search, first) = FreeNameSearch::new("photos", "");
    assert_eq!(first, "photos");
    assert_eq!(search.on_taken(), "photos-2");
    assert_eq!(search.on_taken(), "photos-3");
    let (mut zips, first) = FreeNameSearch::new("archive", ".zip");
    assert_eq!(first, "archive.zip");
    assert_eq!(zips.on_taken(), "archive-2.zip");
}

#[test]
fn integration_install_start_and_finish() {
    let none = PendingInstall { key: None, package: None, brew_path: None };
    let s = install_start(&none, Some("/usr/local/bin/brew".to_string()));
    assert!(matches!(s, InstallStart::NoKey));
    assert_eq!(install_start_status(&s), Some("no pending integration install".to_string()));
    let no_pkg = PendingInstall { key: Some("bat".to_string()), package: None, brew_path: None };
    assert_eq!(install_start_status(&install_start(&no_pkg, None)), Some("no pending integration package".to_string()));
    let mut pending = PendingInstall { key: Some("bat".to_string()), package: Some("bat".to_string()), brew_path: None };
    let s = install_start(&pending, None);
    assert_eq!(install_start_status(&s), Some("brew not found; setup instructions shown".to_string()));
    match install_start(&pending, Some("/opt/homebrew/bin/brew".to_string())) {
        InstallStart::Run { key, package, brew } => {
            assert_eq!((key.as_str(), package.as_str(), brew.as_str()), ("bat", "bat", "/opt/homebrew/bin/brew"));
        }
        _ => panic!("the install runs"),
    }
    let mut settings = IntegrationSettings::new();
    settings.set_integration_enabled("bat", false);
    let (status, view) = finish_integration_install(&mut pending, &mut settings, "bat", "bat", None);
    assert_eq!(status, "installed bat with brew");
    assert_eq!(view, OverlayView::Integrations);
    assert!(pending.key.is_none() && pending.package.is_none() && pending.brew_path.is_none());
    assert!(integration_active(&settings, "bat", true));
    let mut again = PendingInstall { key: Some("rg".to_string()), package: Some("ripgrep".to_string()), brew_path: None };
    settings.set_integration_enabled("rg", false);
    let (status, _) = finish_integration_install(&mut again, &mut settings, "rg", "ripgrep", Some("install ripgrep".to_string()));
    assert_eq!(status, "brew install failed: install ripgrep");
    assert!(!integration_active(&settings, "rg", true));
}

#[test]
fn entry_sizes_and_creation_outcomes() {
    assert_eq!(entry_size_bytes(None), None);
    assert_eq!(entry_size_bytes(Some((true, 8))), None);
    assert_eq!(entry_size_bytes(Some((false, 8))), Some(4096));
    assert_eq!(size_column(None), "     -");
    assert_eq!(create_entries_outcome(&Vec::new(), 0, 0, None), ("name cannot be empty".to_string(), false));
    let specs = vec![("a".to_string(), false), ("b".to_string(), true)];
    assert_eq!(create_entries_outcome(&specs, 2, 0, None), ("created 2 item(s)".to_string(), true));
    assert_eq!(
        create_entries_outcome(&specs, 0, 2, Some("target already exists".to_string())),
        ("target already exists".to_string(), false)
    );
}

#[test]
fn preview_messages_and_footers() {
    assert_eq!(preview_failure(PreviewKind::Missing), Some("[file not found]".to_string()));
    assert_eq!(preview_failure(PreviewKind::Text), None);
    assert_eq!(preview_footer(PreviewKind::Text, Some("1.2K")), Some("Size: 1.2K".to_string()));
    assert_eq!(preview_footer(PreviewKind::Folder, Some("3M")), Some("Total: 3M".to_string()));
    assert_eq!(preview_footer(PreviewKind::Folder, None), None);
    assert_eq!(preview_footer(PreviewKind::Missing, Some("1")), None);
    assert_eq!(image_preview_lines(true, false), vec!["[svg could not be rendered]".to_string()]);
    assert_eq!(image_preview_lines(false, false), vec!["[image could not be decoded]".to_string()]);
    assert!(image_preview_lines(false, true).is_empty());
    assert_eq!(age_preview_status(false, None), Some("failed to prepare temporary file".to_string()));
    assert_eq!(age_preview_status(true, Some("bad passphrase")), Some("decrypt failed: bad passphrase".to_string()));
    assert_eq!(age_preview_status(true, None), None);
}

#[test]
fn merging_twice_changes_nothing() {
    let once = merge_byte_ranges(vec![(5, 7), (0, 2), (2, 3), (6, 9), (12, 12)]);
    assert_eq!(once, vec![(0, 3), (5, 9), (12, 12)]);
    assert_eq!(merge_byte_ranges(once.clone()), once);
}
