use sbrs_core::dialogs::{
    handle_confirm_delete_key, handle_confirm_extract_key, handle_confirm_integration_install_key,
    handle_ok_cancel_focus_key, DeleteDialog, DialogOutcome, Key,
};
use sbrs_core::entries::{sort_entries_by_mode, sort_mode_at, sort_mode_index, EntryFacts, SortMode};
use sbrs_core::nav::{
    clamp_selection, contracted_level, expanded_level, handle_mouse_scroll, is_double_tap, move_selection_delta,
    scroll_main_list_from_scrollbar_row, ScrollState, ScrollView,
};
use sbrs_core::overlay::{
    clickable_key_from_tabbed_row, handle_main_list_click, handle_tab_close_click, inner_with_borders,
    main_table_and_list_areas, primary_content_area, tab_overlay_anchor, Area, LastClick, OverlayClick,
    OverlayState, OverlayView,
};

#[test]
fn selection_moves_stay_on_the_list() {
    assert_eq!(move_selection_delta(5, 10, 3), 8);
    assert_eq!(move_selection_delta(8, 10, 3), 9);
    assert_eq!(move_selection_delta(1, 10, -3), 0);
    assert_eq!(move_selection_delta(4, 0, 5), 4);
    assert_eq!(clamp_selection(9, 5), 4);
    assert_eq!(clamp_selection(2, 5), 2);
    assert_eq!(clamp_selection(3, 0), 0);
}

#[test]
fn scrollbar_drag_picks_a_row() {
    assert_eq!(scroll_main_list_from_scrollbar_row(2, 10, 7, 0, 100), Some(50));
    assert_eq!(scroll_main_list_from_scrollbar_row(2, 10, 0, 0, 100), Some(0));
    assert_eq!(scroll_main_list_from_scrollbar_row(2, 10, 40, 0, 100), Some(90));
    assert_eq!(scroll_main_list_from_scrollbar_row(2, 10, 7, 0, 5), None);
    assert_eq!(scroll_main_list_from_scrollbar_row(2, 0, 7, 0, 100), None);
}

fn scroll_state() -> ScrollState {
    ScrollState {
        selected_index: 8,
        entries_len: 10,
        help_scroll_offset: 5,
        help_max_offset: 6,
        limits_menu_open: false,
        limits_selected: 2,
        search_selected: 0,
        search_results_len: 3,
        bookmark_selected: 9,
        bookmarks_len: 10,
        integration_selected: 0,
        integration_count: 3,
        sort_menu_selected: 0,
        sort_options_len: 7,
        ssh_picker_selection: 0,
        remote_entries_len: 0,
        delete_scroll_offset: 1,
        delete_max_offset: 20,
    }
}

#[test]
fn mouse_wheel_moves_each_view() {
    let mut s = scroll_state();
    handle_mouse_scroll(ScrollView::Browsing, false, &mut s);
    assert_eq!(s.selected_index, 9);
    handle_mouse_scroll(ScrollView::Help, false, &mut s);
    assert_eq!(s.help_scroll_offset, 6);
    handle_mouse_scroll(ScrollView::InternalSearch, false, &mut s);
    assert_eq!(s.search_selected, 1);
    handle_mouse_scroll(ScrollView::Bookmarks, false, &mut s);
    assert_eq!(s.bookmark_selected, 9);
    handle_mouse_scroll(ScrollView::SshPicker, false, &mut s);
    assert_eq!(s.ssh_picker_selection, 0);
    handle_mouse_scroll(ScrollView::ConfirmDelete, true, &mut s);
    assert_eq!(s.delete_scroll_offset, 0);
    s.limits_menu_open = true;
    handle_mouse_scroll(ScrollView::InternalSearch, false, &mut s);
    assert_eq!(s.limits_selected, 2);
    assert_eq!(s.search_selected, 1);
}

#[test]
fn double_tap_and_tree_levels() {
    assert!(is_double_tap(Some(('l', 100)), 'l'));
    assert!(!is_double_tap(Some(('l', 400)), 'l'));
    assert!(!is_double_tap(Some(('h', 10)), 'l'));
    assert!(!is_double_tap(None, 'l'));
    assert_eq!(expanded_level(1, 0, 5), 2);
    assert_eq!(expanded_level(4, 3, 5), 5);
    assert_eq!(contracted_level(3, 1), Some(2));
    assert_eq!(contracted_level(1, 1), None);
    assert_eq!(contracted_level(2, 0), Some(1));
}

#[test]
fn ok_cancel_focus_keys() {
    let mut f = 1u8;
    assert!(handle_ok_cancel_focus_key(Key::Char('h'), &mut f, true));
    assert_eq!(f, 0);
    assert!(!handle_ok_cancel_focus_key(Key::Char('l'), &mut f, false));
    assert_eq!(f, 0);
    assert!(handle_ok_cancel_focus_key(Key::Tab, &mut f, true));
    assert_eq!(f, 1);
    assert!(handle_ok_cancel_focus_key(Key::Left, &mut f, false));
    assert_eq!(f, 0);
}

#[test]
fn delete_dialog_keys() {
    let mut d = DeleteDialog { focus: 0, scroll_offset: 3, max_offset: 5 };
    assert_eq!(handle_confirm_delete_key(Key::Down, &mut d), DialogOutcome::Stay);
    assert_eq!(d.scroll_offset, 4);
    handle_confirm_delete_key(Key::PageDown, &mut d);
    assert_eq!(d.scroll_offset, 5);
    handle_confirm_delete_key(Key::PageUp, &mut d);
    assert_eq!(d.scroll_offset, 0);
    assert_eq!(handle_confirm_delete_key(Key::Enter, &mut d), DialogOutcome::Confirm);
    handle_confirm_delete_key(Key::Right, &mut d);
    assert_eq!(handle_confirm_delete_key(Key::Enter, &mut d), DialogOutcome::Cancel);
    assert_eq!(handle_confirm_delete_key(Key::Char('y'), &mut d), DialogOutcome::Confirm);
    assert_eq!(handle_confirm_delete_key(Key::Esc, &mut d), DialogOutcome::Cancel);
    assert_eq!(handle_confirm_delete_key(Key::Char('q'), &mut d), DialogOutcome::Stay);
}

#[test]
fn install_and_extract_dialog_keys() {
    let mut f = 1u8;
    assert_eq!(handle_confirm_integration_install_key(Key::Char('y'), &mut f), DialogOutcome::Confirm);
    assert_eq!(f, 0);
    assert_eq!(handle_confirm_integration_install_key(Key::Char('l'), &mut f), DialogOutcome::Stay);
    assert_eq!(f, 1);
    assert_eq!(handle_confirm_integration_install_key(Key::Enter, &mut f), DialogOutcome::Cancel);
    f = 0;
    assert_eq!(handle_confirm_integration_install_key(Key::Enter, &mut f), DialogOutcome::Confirm);
    assert_eq!(handle_confirm_integration_install_key(Key::Char('n'), &mut f), DialogOutcome::Cancel);
    assert_eq!(f, 1);
    assert_eq!(handle_confirm_extract_key(Key::Char('y')), DialogOutcome::Confirm);
    assert_eq!(handle_confirm_extract_key(Key::Esc), DialogOutcome::Cancel);
    assert_eq!(handle_confirm_extract_key(Key::Char('x')), DialogOutcome::Stay);
}

fn entry(name: &str, is_dir: bool, len: u64, modified: u64) -> EntryFacts {
    EntryFacts { name: name.to_string(), is_dir, len, modified, folder_size: None }
}

#[test]
fn listing_puts_folders_first_then_the_chosen_order() {
    let es = vec![
        entry("b.txt", false, 10, 3),
        entry("Zeta", true, 0, 1),
        entry("a.rs", false, 30, 2),
        entry("alpha", true, 0, 5),
        entry("C.txt", false, 20, 9),
    ];
    assert_eq!(sort_entries_by_mode(&es, SortMode::NameAsc, false), vec![3, 1, 2, 0, 4]);
    assert_eq!(sort_entries_by_mode(&es, SortMode::NameDesc, false), vec![1, 3, 4, 0, 2]);
    assert_eq!(sort_entries_by_mode(&es, SortMode::ExtensionAsc, false), vec![3, 1, 2, 0, 4]);
    assert_eq!(sort_entries_by_mode(&es, SortMode::SizeDesc, false), vec![3, 1, 2, 4, 0]);
    assert_eq!(sort_entries_by_mode(&es, SortMode::ModifiedNewest, false), vec![3, 1, 4, 0, 2]);
    assert_eq!(sort_entries_by_mode(&es, SortMode::ModifiedOldest, false), vec![1, 3, 2, 0, 4]);
}

#[test]
fn sort_menu_positions() {
    assert_eq!(SortMode::SizeAsc.label(), "Size (Small-Large)");
    assert_eq!(sort_mode_index(SortMode::ModifiedOldest), 6);
    assert_eq!(sort_mode_at(2), Some(SortMode::ExtensionAsc));
    assert_eq!(sort_mode_at(7), None);
}

fn screen() -> Area {
    Area { x: 0, y: 0, width: 120, height: 40 }
}

#[test]
fn overlay_geometry() {
    let c = primary_content_area(screen());
    assert_eq!(c, Area { x: 0, y: 0, width: 120, height: 38 });
    let o = tab_overlay_anchor(screen());
    assert_eq!(o, Area { x: 10, y: 3, width: 100, height: 31 });
    assert_eq!(inner_with_borders(o), Area { x: 11, y: 4, width: 98, height: 29 });
    assert_eq!(inner_with_borders(Area { x: 0, y: 0, width: 1, height: 1 }), Area { x: 1, y: 1, width: 0, height: 0 });
}

fn overlay_state() -> OverlayState {
    OverlayState {
        search_results_len: 5,
        search_selected: 0,
        search_header_rows: 0,
        search_regex_error: false,
        bookmarks_len: 10,
        bookmark_selected: 0,
        integrations_len: 3,
        integration_selected: 0,
        remote_entries_len: 2,
        ssh_picker_selection: 0,
        sort_options_len: 7,
        sort_menu_selected: 0,
    }
}

#[test]
fn overlay_row_clicks_select_items() {
    let mut st = overlay_state();
    assert_eq!(clickable_key_from_tabbed_row(OverlayView::SortMenu, 20, 7, screen(), &mut st), OverlayClick::Enter);
    assert_eq!(st.sort_menu_selected, 2);
    assert_eq!(clickable_key_from_tabbed_row(OverlayView::SortMenu, 20, 4, screen(), &mut st), OverlayClick::Ignored);
    assert_eq!(clickable_key_from_tabbed_row(OverlayView::Bookmarks, 20, 5, screen(), &mut st), OverlayClick::Enter);
    assert_eq!(st.bookmark_selected, 0);
    assert_eq!(clickable_key_from_tabbed_row(OverlayView::Integrations, 20, 7, screen(), &mut st), OverlayClick::Toggle);
    assert_eq!(st.integration_selected, 2);
    assert_eq!(clickable_key_from_tabbed_row(OverlayView::SshPicker, 20, 8, screen(), &mut st), OverlayClick::Ignored);
    assert_eq!(clickable_key_from_tabbed_row(OverlayView::InternalSearch, 20, 8, screen(), &mut st), OverlayClick::Enter);
    assert_eq!(st.search_selected, 1);
    assert_eq!(clickable_key_from_tabbed_row(OverlayView::Other, 20, 8, screen(), &mut st), OverlayClick::Ignored);
}

#[test]
fn listing_click_and_close_mark() {
    let areas = main_table_and_list_areas(screen(), true, false, 100).unwrap();
    assert_eq!(areas.0, Area { x: 0, y: 2, width: 120, height: 36 });
    assert_eq!(areas.1, Area { x: 0, y: 2, width: 119, height: 36 });
    assert_eq!(main_table_and_list_areas(screen(), false, false, 100), None);
    assert_eq!(handle_main_list_click(screen(), true, false, 100, 5, 4, 10, None), Some((12, false)));
    let last = LastClick { index: 12, same_dir: true, elapsed_ms: 100 };
    assert_eq!(handle_main_list_click(screen(), true, false, 100, 5, 4, 10, Some(last)), Some((12, true)));
    assert_eq!(handle_main_list_click(screen(), true, false, 11, 5, 4, 10, None), None);
    assert!(handle_tab_close_click(true, screen(), 108, 3));
    assert!(!handle_tab_close_click(true, screen(), 107, 3));
    assert!(!handle_tab_close_click(false, screen(), 108, 3));
}
