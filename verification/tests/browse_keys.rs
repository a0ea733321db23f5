use sbrs_core::browse::{
    handle_edit_key, scrollbar_grab, EditOutcome, BrowseKey, BrowserState, DragState, KeyInput, MouseAction, MouseInput, Panel, PanelAction,
    PanelState, SearchAction, SearchKeyState, UiAction,
};
use sbrs_core::content::InternalSearchContentLimits;
use sbrs_core::columns::{build_entry_row, EntryMeta, NameColor};
use sbrs_core::input::InputLine;
use sbrs_core::entries::{refresh_listing, EntryFacts, SortMode};
use sbrs_core::overlay::Area;
use sbrs_core::paths::resolve_input_path;

fn state(len: usize, selected: usize) -> BrowserState {
    BrowserState {
        selected,
        marked: vec![false; len],
        show_hidden: false,
        folder_sizes: false,
        preview_enabled: false,
        preview_scroll: 0,
        page_size: 10,
    }
}

fn key(c: char) -> KeyInput {
    KeyInput { key: BrowseKey::Char(c), ctrl: false, repeat: 1 }
}

fn ctrl(c: char) -> KeyInput {
    KeyInput { key: BrowseKey::Char(c), ctrl: true, repeat: 1 }
}

fn plain(k: BrowseKey) -> KeyInput {
    KeyInput { key: k, ctrl: false, repeat: 1 }
}

#[test]
fn space_marks_and_moves_down() {
    let mut s = state(3, 1);
    assert_eq!(s.handle_key(key(' ')), UiAction::ScanMarkedSizes);
    assert_eq!(s.marked, vec![false, true, false]);
    assert_eq!(s.selected, 2);
    assert_eq!(s.handle_key(key(' ')), UiAction::ScanMarkedSizes);
    assert_eq!(s.marked, vec![false, true, true]);
    assert_eq!(s.selected, 2);
    let mut empty = state(0, 0);
    assert_eq!(empty.handle_key(key(' ')), UiAction::Nothing);
}

#[test]
fn star_marks_all_then_clears() {
    let mut s = state(3, 0);
    s.marked[1] = true;
    assert_eq!(s.handle_key(key('*')), UiAction::ScanMarkedSizes);
    assert_eq!(s.marked, vec![true, true, true]);
    assert_eq!(s.handle_key(key('*')), UiAction::ScanMarkedSizes);
    assert_eq!(s.marked, vec![false, false, false]);
}

#[test]
fn s_toggles_folder_sizes_and_ctrl_s_opens_sort_menu() {
    let mut s = state(2, 0);
    assert_eq!(s.handle_key(key('s')), UiAction::FolderSizesChanged);
    assert!(s.folder_sizes);
    assert_eq!(s.handle_key(key('s')), UiAction::FolderSizesChanged);
    assert!(!s.folder_sizes);
    assert_eq!(s.handle_key(ctrl('s')), UiAction::OpenSortMenu);
    assert!(!s.folder_sizes);
}

#[test]
fn digits_jump_to_bookmarks_and_dot_toggles_hidden() {
    let mut s = state(2, 0);
    assert_eq!(s.handle_key(key('3')), UiAction::JumpToBookmark(3));
    assert_eq!(s.handle_key(key('0')), UiAction::JumpToBookmark(0));
    assert_eq!(s.handle_key(key('.')), UiAction::HiddenChanged);
    assert!(s.show_hidden);
}

#[test]
fn quit_keys_and_other_commands() {
    let mut s = state(2, 0);
    assert_eq!(s.handle_key(key('q')), UiAction::Quit);
    assert_eq!(s.handle_key(plain(BrowseKey::Esc)), UiAction::Quit);
    assert_eq!(s.handle_key(ctrl('c')), UiAction::CopyPathsToSystemClipboard);
    assert_eq!(s.handle_key(key('c')), UiAction::CopyToClipboard);
    assert_eq!(s.handle_key(plain(BrowseKey::F(5))), UiAction::CopyToClipboard);
    assert_eq!(s.handle_key(key('v')), UiAction::BeginPaste);
    assert_eq!(s.handle_key(key('m')), UiAction::BeginMove);
    assert_eq!(s.handle_key(key('N')), UiAction::BeginNewFolder);
    assert_eq!(s.handle_key(plain(BrowseKey::Tab)), UiAction::BeginPathEdit);
    assert_eq!(s.handle_key(plain(BrowseKey::Left)), UiAction::LeaveOrParent);
    assert_eq!(s.handle_key(plain(BrowseKey::Enter)), UiAction::OpenSelected);
    assert_eq!(s.handle_key(key('?')), UiAction::Nothing);
}

#[test]
fn entry_actions_need_an_entry() {
    let mut s = state(0, 0);
    assert_eq!(s.handle_key(key('d')), UiAction::Nothing);
    assert_eq!(s.handle_key(plain(BrowseKey::Enter)), UiAction::Nothing);
    assert_eq!(s.handle_key(key('e')), UiAction::Nothing);
    let mut t = state(1, 0);
    assert_eq!(t.handle_key(plain(BrowseKey::Delete)), UiAction::ConfirmDelete);
    assert_eq!(t.handle_key(plain(BrowseKey::F(4))), UiAction::EditSelected);
}

#[test]
fn arrows_pages_home_end_move_selection() {
    let mut s = state(30, 5);
    assert_eq!(s.handle_key(KeyInput { key: BrowseKey::Down, ctrl: false, repeat: 3 }), UiAction::Nothing);
    assert_eq!(s.selected, 8);
    s.handle_key(KeyInput { key: BrowseKey::Up, ctrl: false, repeat: 20 });
    assert_eq!(s.selected, 0);
    s.handle_key(plain(BrowseKey::PageDown));
    assert_eq!(s.selected, 10);
    s.handle_key(plain(BrowseKey::End));
    assert_eq!(s.selected, 29);
    s.handle_key(plain(BrowseKey::PageDown));
    assert_eq!(s.selected, 29);
    s.handle_key(plain(BrowseKey::PageUp));
    assert_eq!(s.selected, 19);
    s.handle_key(plain(BrowseKey::Home));
    assert_eq!(s.selected, 0);
    s.preview_enabled = true;
    s.handle_key(plain(BrowseKey::PageDown));
    assert_eq!(s.preview_scroll, 8);
    assert_eq!(s.selected, 0);
    s.handle_key(plain(BrowseKey::PageUp));
    s.handle_key(plain(BrowseKey::PageUp));
    assert_eq!(s.preview_scroll, 0);
}

#[test]
fn rename_picks_single_mark_or_bulk() {
    let mut s = state(4, 0);
    s.marked[2] = true;
    assert_eq!(s.handle_key(key('r')), UiAction::BeginRename(2));
    assert_eq!(s.selected, 2);
    s.marked[3] = true;
    assert_eq!(s.handle_key(plain(BrowseKey::F(2))), UiAction::BulkRename);
    let mut t = state(4, 1);
    assert_eq!(t.handle_key(key('r')), UiAction::BeginRename(1));
}

#[test]
fn mouse_right_click_goes_back_only_where_left_does() {
    let mut d = DragState { dragging: true, grab_offset: 2 };
    assert_eq!(d.handle_mouse(MouseInput::RightDown, 0, 0, true, None, 0, 0), MouseAction::PressLeft);
    assert!(!d.dragging);
    assert_eq!(d.handle_mouse(MouseInput::RightDown, 0, 0, false, None, 0, 0), MouseAction::Nothing);
    assert_eq!(d.handle_mouse(MouseInput::ScrollUp, 0, 0, true, None, 0, 0), MouseAction::Scroll(true));
}

#[test]
fn scrollbar_press_grabs_thumb_and_drags() {
    let sb = Area { x: 79, y: 2, width: 1, height: 10 };
    // 20 rows, 10 shown from row 4: the thumb is 5 high at rows 2..7.
    assert_eq!(scrollbar_grab(sb, 5, 20, 4), Some(1));
    assert_eq!(scrollbar_grab(sb, 11, 20, 4), Some(2));
    assert_eq!(scrollbar_grab(sb, 5, 10, 0), None);
    let mut d = DragState { dragging: false, grab_offset: 0 };
    assert_eq!(d.handle_mouse(MouseInput::LeftDown, 79, 5, true, Some(sb), 20, 4), MouseAction::DragScrollbar(1));
    assert!(d.dragging);
    assert_eq!(d.handle_mouse(MouseInput::LeftDrag, 79, 9, true, Some(sb), 20, 4), MouseAction::DragScrollbar(1));
    assert_eq!(d.handle_mouse(MouseInput::LeftUp, 79, 9, true, Some(sb), 20, 4), MouseAction::Nothing);
    assert!(!d.dragging);
    assert_eq!(d.handle_mouse(MouseInput::LeftDrag, 79, 9, true, Some(sb), 20, 4), MouseAction::Nothing);
    assert_eq!(d.handle_mouse(MouseInput::LeftDown, 10, 5, true, Some(sb), 20, 4), MouseAction::ClickScreen);
}

#[test]
fn entry_row_columns() {
    let meta = EntryMeta { is_dir: false, mode: 0o100644, uid: 1000, gid: 1000, blocks: 8 };
    let r = build_entry_row(
        ".hidden", false, Some(meta), Some("alice".to_string()), None, Some("4K"), Some("2024-01-01 10:00"),
        Some(1704103200), false, None,
    );
    assert_eq!(r.raw_name, ".hidden");
    assert_eq!(r.perms_col, "-rw-r--r-- ");
    assert_eq!(r.owner_name, "alice");
    assert_eq!(r.group_name, "1000");
    assert_eq!(r.size_col, "    4K");
    assert_eq!(r.size_bytes, Some(4096));
    assert_eq!(r.date_col, "2024-01-01 10:00");
    assert_eq!(r.modified_unix, Some(1704103200));
    assert_eq!(r.name_style.color, NameColor::White);
    assert!(r.name_style.dim);
    let dir = EntryMeta { is_dir: true, mode: 0o40755, uid: 0, gid: 0, blocks: 8 };
    let d = build_entry_row("src", false, Some(dir), None, None, Some("4K"), None, None, false, None);
    assert_eq!(d.size_col, "     -");
    assert_eq!(d.size_bytes, None);
    assert_eq!(d.date_col, "                ");
    assert_eq!(d.perms_col, "drwxr-xr-x ");
    assert!(d.name_style.bold);
    let u = build_entry_row("gone", false, None, None, None, None, None, None, false, None);
    assert_eq!(u.perms_col, "---------- ");
    assert_eq!(u.owner_name, "-");
    assert_eq!(u.group_name, "-");
}

fn facts(name: &str, is_dir: bool) -> EntryFacts {
    EntryFacts { name: name.to_string(), is_dir, len: 1, modified: 0, folder_size: None }
}

#[test]
fn refresh_hides_dot_entries_and_clamps_selection() {
    let entries = vec![facts("b.txt", false), facts(".cfg", false), facts("a", true)];
    let (rows, sel) = refresh_listing(&entries, SortMode::NameAsc, false, false, 5);
    assert_eq!(rows, vec![2, 0]);
    assert_eq!(sel, 1);
    let (all, sel2) = refresh_listing(&entries, SortMode::NameAsc, false, true, 1);
    assert_eq!(all.len(), 3);
    assert_eq!(all[0], 2);
    assert_eq!(sel2, 1);
    let (none, sel3) = refresh_listing(&Vec::new(), SortMode::NameAsc, false, false, 4);
    assert!(none.is_empty());
    assert_eq!(sel3, 0);
}

#[test]
fn relative_paths_join_with_one_separator() {
    assert_eq!(resolve_input_path("rel", None, "/"), "/rel");
    assert_eq!(resolve_input_path("x/y", None, ""), "x/y");
    assert_eq!(resolve_input_path("~/a", Some("/home/u/"), "/cwd"), "/home/u/a");
}

fn panel(p: Panel) -> PanelState {
    PanelState {
        panel: p,
        help_scroll: 4,
        help_max: 12,
        bookmark_selected: 0,
        bookmarks_len: 10,
        remote_selected: 0,
        remotes_len: 2,
        sort_selected: 0,
        sort_options_len: 7,
        current_sort_index: 3,
        integration_selected: 2,
        integration_count: 5,
    }
}

#[test]
fn tab_and_backtab_cycle_the_panels() {
    let mut p = panel(Panel::Bookmarks);
    assert_eq!(p.handle_panel_key(BrowseKey::Tab), PanelAction::Switched(Panel::RemotePicker));
    assert_eq!(p.handle_panel_key(BrowseKey::Tab), PanelAction::Switched(Panel::SortMenu));
    assert_eq!(p.sort_selected, 3);
    assert_eq!(p.handle_panel_key(BrowseKey::Tab), PanelAction::Switched(Panel::Integrations));
    assert_eq!(p.integration_selected, 0);
    assert_eq!(p.handle_panel_key(BrowseKey::Tab), PanelAction::Switched(Panel::Help));
    assert_eq!(p.help_scroll, 0);
    assert_eq!(p.handle_panel_key(BrowseKey::Tab), PanelAction::OpenSearch);
    assert_eq!(p.handle_panel_key(BrowseKey::BackTab), PanelAction::Switched(Panel::Integrations));
    assert_eq!(p.handle_panel_key(BrowseKey::BackTab), PanelAction::Switched(Panel::SortMenu));
    assert_eq!(p.handle_panel_key(BrowseKey::BackTab), PanelAction::Switched(Panel::RemotePicker));
    assert_eq!(p.handle_panel_key(BrowseKey::BackTab), PanelAction::Switched(Panel::Bookmarks));
    assert_eq!(p.handle_panel_key(BrowseKey::BackTab), PanelAction::OpenSearch);
}

#[test]
fn help_scrolls_within_its_lines() {
    let mut p = panel(Panel::Help);
    p.handle_panel_key(BrowseKey::PageDown);
    assert_eq!(p.help_scroll, 12);
    p.handle_panel_key(BrowseKey::Down);
    assert_eq!(p.help_scroll, 12);
    p.handle_panel_key(BrowseKey::PageUp);
    assert_eq!(p.help_scroll, 2);
    p.handle_panel_key(BrowseKey::Up);
    assert_eq!(p.help_scroll, 1);
    p.handle_panel_key(BrowseKey::End);
    assert_eq!(p.help_scroll, 12);
    p.handle_panel_key(BrowseKey::Home);
    assert_eq!(p.help_scroll, 0);
    assert_eq!(p.handle_panel_key(BrowseKey::Char('h')), PanelAction::Close);
}

#[test]
fn panel_rows_act_on_selection() {
    let mut s = panel(Panel::SortMenu);
    s.handle_panel_key(BrowseKey::Down);
    s.handle_panel_key(BrowseKey::Down);
    assert_eq!(s.handle_panel_key(BrowseKey::Enter), PanelAction::CommitSort(2));
    assert_eq!(s.handle_panel_key(BrowseKey::Left), PanelAction::Close);
    let mut i = panel(Panel::Integrations);
    assert_eq!(i.handle_panel_key(BrowseKey::Char(' ')), PanelAction::ToggleIntegration(1));
    i.handle_panel_key(BrowseKey::Up);
    i.handle_panel_key(BrowseKey::Up);
    assert_eq!(i.handle_panel_key(BrowseKey::Char(' ')), PanelAction::ToggleAllIntegrations);
    assert_eq!(i.handle_panel_key(BrowseKey::Enter), PanelAction::InstallIntegration(0));
    let mut r = panel(Panel::RemotePicker);
    r.handle_panel_key(BrowseKey::Down);
    r.handle_panel_key(BrowseKey::Down);
    assert_eq!(r.remote_selected, 1);
    assert_eq!(r.handle_panel_key(BrowseKey::Enter), PanelAction::ConnectRemote(1));
    assert_eq!(r.handle_panel_key(BrowseKey::Char('u')), PanelAction::UnmountRemote(1));
    let mut b = panel(Panel::Bookmarks);
    assert_eq!(b.handle_panel_key(BrowseKey::Char('7')), PanelAction::EnterBookmark(7));
    b.handle_panel_key(BrowseKey::Down);
    assert_eq!(b.handle_panel_key(BrowseKey::Right), PanelAction::EnterBookmark(1));
    assert_eq!(b.handle_panel_key(BrowseKey::Char('b')), PanelAction::Close);
}

#[test]
fn prompt_keys_edit_submit_and_cancel() {
    let mut line = InputLine::new("ab");
    assert_eq!(handle_edit_key(&mut line, BrowseKey::Left, false, false, false), EditOutcome::Edited);
    assert_eq!(handle_edit_key(&mut line, BrowseKey::Char('x'), false, false, false), EditOutcome::Edited);
    assert_eq!(line.text(), "axb");
    assert_eq!(line.cursor(), 2);
    assert_eq!(handle_edit_key(&mut line, BrowseKey::Backspace, false, false, false), EditOutcome::Edited);
    assert_eq!(line.text(), "ab");
    assert_eq!(handle_edit_key(&mut line, BrowseKey::Char('y'), true, false, true), EditOutcome::Ignored);
    assert_eq!(line.text(), "ab");
    assert_eq!(handle_edit_key(&mut line, BrowseKey::End, false, false, false), EditOutcome::Edited);
    assert_eq!(handle_edit_key(&mut line, BrowseKey::Right, false, false, false), EditOutcome::Edited);
    assert_eq!(line.cursor(), 2);
    assert_eq!(handle_edit_key(&mut line, BrowseKey::Tab, false, false, false), EditOutcome::Ignored);
    assert_eq!(handle_edit_key(&mut line, BrowseKey::Tab, false, true, false), EditOutcome::Submit);
    assert_eq!(handle_edit_key(&mut line, BrowseKey::Enter, false, false, false), EditOutcome::Submit);
    assert_eq!(handle_edit_key(&mut line, BrowseKey::Esc, false, false, false), EditOutcome::Cancel);
}

fn search_state() -> SearchKeyState {
    SearchKeyState {
        content_scope: true,
        limits_menu_open: false,
        limits_selected: 0,
        limits: InternalSearchContentLimits { max_files: 20_000, max_hits: 2_000, max_file_bytes: 2_097_152 },
        selected: 0,
        results_len: 3,
    }
}

#[test]
fn search_keys_edit_query_and_pick_results() {
    let mut s = search_state();
    let mut q = InputLine::new("fo");
    assert_eq!(s.handle_search_key(&mut q, BrowseKey::Char('o'), false, false, false), SearchAction::Refresh);
    assert_eq!(q.text(), "foo");
    assert_eq!(s.handle_search_key(&mut q, BrowseKey::Char('x'), true, true, false), SearchAction::Nothing);
    assert_eq!(q.text(), "foo");
    assert_eq!(s.handle_search_key(&mut q, BrowseKey::Char('t'), true, true, false), SearchAction::ToggleScope);
    s.handle_search_key(&mut q, BrowseKey::PageDown, false, false, false);
    assert_eq!(s.selected, 2);
    s.handle_search_key(&mut q, BrowseKey::Up, false, false, false);
    assert_eq!(s.selected, 1);
    assert_eq!(s.handle_search_key(&mut q, BrowseKey::Backspace, false, false, false), SearchAction::Refresh);
    assert_eq!(q.text(), "fo");
    assert_eq!(s.handle_search_key(&mut q, BrowseKey::Enter, false, false, false), SearchAction::OpenSelected);
    assert_eq!(s.handle_search_key(&mut q, BrowseKey::Tab, false, false, false), SearchAction::ToBookmarks);
    assert_eq!(s.handle_search_key(&mut q, BrowseKey::BackTab, false, false, false), SearchAction::ToHelp);
    assert_eq!(s.handle_search_key(&mut q, BrowseKey::Esc, false, false, false), SearchAction::Close);
}

#[test]
fn limits_menu_steps_limits() {
    let mut s = search_state();
    let mut q = InputLine::new("x");
    assert_eq!(s.handle_search_key(&mut q, BrowseKey::Char('l'), true, true, false), SearchAction::Nothing);
    assert!(s.limits_menu_open);
    assert_eq!(s.handle_search_key(&mut q, BrowseKey::Right, false, false, false), SearchAction::Refresh);
    assert_eq!(s.limits.max_files, 20_500);
    assert_eq!(s.handle_search_key(&mut q, BrowseKey::Left, false, false, true), SearchAction::Refresh);
    assert_eq!(s.limits.max_files, 15_500);
    s.handle_search_key(&mut q, BrowseKey::Down, false, false, false);
    assert_eq!(s.handle_search_key(&mut q, BrowseKey::Char('-'), false, false, false), SearchAction::Refresh);
    assert_eq!(s.limits.max_hits, 1_900);
    assert_eq!(s.handle_search_key(&mut q, BrowseKey::Char('z'), false, false, false), SearchAction::Nothing);
    assert_eq!(q.text(), "x");
    assert_eq!(s.handle_search_key(&mut q, BrowseKey::Char('r'), false, false, false), SearchAction::ResetLimits);
    assert_eq!(s.handle_search_key(&mut q, BrowseKey::Esc, false, false, false), SearchAction::Nothing);
    assert!(!s.limits_menu_open);
    let mut names = search_state();
    names.content_scope = false;
    names.handle_search_key(&mut q, BrowseKey::Char('l'), true, true, false);
    assert!(!names.limits_menu_open);
}
