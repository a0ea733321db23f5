use vstd::prelude::*;

verus! {

/// A selection kept on a list of `len` items: the last item when it was
/// past the end, 0 for an empty list.
pub open spec fn clamp_selection_spec(selected: usize, len: usize) -> usize {
    if len == 0 {
        0
    } else if selected < len {
        selected
    } else {
        (len - 1) as usize
    }
}

/// A selection kept on a list of `len` items (see [`clamp_selection_spec`]).
pub fn clamp_selection(selected: usize, len: usize) -> (r: usize)
    ensures
        r == clamp_selection_spec(selected, len),
        len > 0 ==> r < len,
{
    if len == 0 {
        0
    } else if selected < len {
        selected
    } else {
        len - 1
    }
}

/// The selection moved by `delta` rows, kept within a list of `len` items.
pub open spec fn moved_selection_spec(selected: usize, len: usize, delta: int) -> usize {
    let t = selected + delta;
    if t < 0 {
        0
    } else if t > len - 1 {
        (len - 1) as usize
    } else {
        t as usize
    }
}

/// Moves the selection of the listing by `delta` rows, staying on the list;
/// an empty list keeps its selection.
pub fn move_selection_delta(selected: usize, len: usize, delta: isize) -> (r: usize)
    requires
        selected <= isize::MAX,
        len <= isize::MAX,
    ensures
        len == 0 ==> r == selected,
        len > 0 ==> r == moved_selection_spec(selected, len, delta as int),
        len > 0 ==> r < len,
{
    if len == 0 {
        return selected;
    }
    let max_idx = (len - 1) as isize;
    let cur = selected as isize;
    let t: isize = if delta > 0 {
        if cur > isize::MAX - delta { isize::MAX } else { cur + delta }
    } else {
        cur + delta
    };
    if t < 0 {
        0
    } else if t > max_idx {
        max_idx as usize
    } else {
        t as usize
    }
}

/// One step of a list selection: up by `step` (not past 0), or down by
/// `step` (not past `max`).
pub open spec fn stepped_spec(v: usize, up: bool, step: usize, max: usize) -> usize {
    if up {
        if v >= step { (v - step) as usize } else { 0 }
    } else {
        let d = v + step;
        if d < max { d as usize } else { max }
    }
}

fn stepped(v: usize, up: bool, step: usize, max: usize) -> (r: usize)
    requires
        up || v + step <= usize::MAX,
    ensures
        r == stepped_spec(v, up, step, max),
{
    if up {
        v.saturating_sub(step)
    } else {
        let d = v + step;
        if d < max { d } else { max }
    }
}

/// The views that scroll with the mouse wheel.
#[derive(Clone, Copy, PartialEq, Eq, Structural, Debug)]
pub enum ScrollView {
    Browsing,
    Help,
    InternalSearch,
    Bookmarks,
    Integrations,
    SortMenu,
    SshPicker,
    ConfirmDelete,
    Other,
}

/// What the mouse wheel moves: the selections and offsets of each view,
/// with the sizes that bound them.
#[derive(Clone, Copy, PartialEq, Eq, Structural, Debug)]
pub struct ScrollState {
    pub selected_index: usize,
    pub entries_len: usize,
    pub help_scroll_offset: usize,
    pub help_max_offset: usize,
    pub limits_menu_open: bool,
    pub limits_selected: usize,
    pub search_selected: usize,
    pub search_results_len: usize,
    pub bookmark_selected: usize,
    pub bookmarks_len: usize,
    pub integration_selected: usize,
    pub integration_count: usize,
    pub sort_menu_selected: usize,
    pub sort_options_len: usize,
    pub ssh_picker_selection: usize,
    pub remote_entries_len: usize,
    pub delete_scroll_offset: usize,
    pub delete_max_offset: usize,
}

/// `n - 1`, or 0 for 0.
pub open spec fn last_index(n: usize) -> usize {
    if n > 0 { (n - 1) as usize } else { 0 }
}

/// The state after one turn of the mouse wheel in `view`: the listing
/// moves 3 rows, help and the delete dialog scroll 3 lines, and the lists
/// move one item, each staying in range.
pub open spec fn mouse_scroll_spec(view: ScrollView, up: bool, s: ScrollState) -> ScrollState {
    match view {
        ScrollView::Browsing => if s.entries_len == 0 {
            s
        } else {
            ScrollState {
                selected_index: moved_selection_spec(s.selected_index, s.entries_len, if up { -3 } else { 3 }),
                ..s
            }
        },
        ScrollView::Help => ScrollState {
            help_scroll_offset: stepped_spec(s.help_scroll_offset, up, 3, s.help_max_offset),
            ..s
        },
        ScrollView::InternalSearch => if s.limits_menu_open {
            ScrollState { limits_selected: stepped_spec(s.limits_selected, up, 1, 2), ..s }
        } else if s.search_results_len > 0 {
            ScrollState {
                search_selected: stepped_spec(s.search_selected, up, 1, last_index(s.search_results_len)),
                ..s
            }
        } else {
            s
        },
        ScrollView::Bookmarks => ScrollState {
            bookmark_selected: stepped_spec(s.bookmark_selected, up, 1, last_index(s.bookmarks_len)),
            ..s
        },
        ScrollView::Integrations => ScrollState {
            integration_selected: stepped_spec(s.integration_selected, up, 1, last_index(s.integration_count)),
            ..s
        },
        ScrollView::SortMenu => ScrollState {
            sort_menu_selected: stepped_spec(s.sort_menu_selected, up, 1, last_index(s.sort_options_len)),
            ..s
        },
        ScrollView::SshPicker => ScrollState {
            ssh_picker_selection: stepped_spec(s.ssh_picker_selection, up, 1, last_index(s.remote_entries_len)),
            ..s
        },
        ScrollView::ConfirmDelete => ScrollState {
            delete_scroll_offset: stepped_spec(s.delete_scroll_offset, up, 3, s.delete_max_offset),
            ..s
        },
        ScrollView::Other => s,
    }
}

/// No selection or offset is at the very top of its range.
pub open spec fn scroll_state_in_range(s: ScrollState) -> bool {
    &&& s.selected_index <= isize::MAX
    &&& s.entries_len <= isize::MAX
    &&& s.help_scroll_offset < usize::MAX - 3
    &&& s.limits_selected < usize::MAX
    &&& s.search_selected < usize::MAX
    &&& s.bookmark_selected < usize::MAX
    &&& s.integration_selected < usize::MAX
    &&& s.sort_menu_selected < usize::MAX
    &&& s.ssh_picker_selection < usize::MAX
    &&& s.delete_scroll_offset < usize::MAX - 3
}

/// One turn of the mouse wheel (see [`mouse_scroll_spec`]).
pub fn handle_mouse_scroll(view: ScrollView, up: bool, s: &mut ScrollState)
    requires
        scroll_state_in_range(*old(s)),
    ensures
        *final(s) == mouse_scroll_spec(view, up, *old(s)),
{
    match view {
        ScrollView::Browsing => {
            if s.entries_len > 0 {
                s.selected_index = move_selection_delta(s.selected_index, s.entries_len, if up { -3 } else { 3 });
            }
        },
        ScrollView::Help => {
            s.help_scroll_offset = stepped(s.help_scroll_offset, up, 3, s.help_max_offset);
        },
        ScrollView::InternalSearch => {
            if s.limits_menu_open {
                s.limits_selected = stepped(s.limits_selected, up, 1, 2);
            } else if s.search_results_len > 0 {
                s.search_selected = stepped(s.search_selected, up, 1, s.search_results_len - 1);
            }
        },
        ScrollView::Bookmarks => {
            let m = if s.bookmarks_len > 0 { s.bookmarks_len - 1 } else { 0 };
            s.bookmark_selected = stepped(s.bookmark_selected, up, 1, m);
        },
        ScrollView::Integrations => {
            let m = if s.integration_count > 0 { s.integration_count - 1 } else { 0 };
            s.integration_selected = stepped(s.integration_selected, up, 1, m);
        },
        ScrollView::SortMenu => {
            let m = if s.sort_options_len > 0 { s.sort_options_len - 1 } else { 0 };
            s.sort_menu_selected = stepped(s.sort_menu_selected, up, 1, m);
        },
        ScrollView::SshPicker => {
            let m = if s.remote_entries_len > 0 { s.remote_entries_len - 1 } else { 0 };
            s.ssh_picker_selection = stepped(s.ssh_picker_selection, up, 1, m);
        },
        ScrollView::ConfirmDelete => {
            s.delete_scroll_offset = stepped(s.delete_scroll_offset, up, 3, s.delete_max_offset);
        },
        ScrollView::Other => {},
    }
}

/// The listing row that dragging the scrollbar thumb to `row` selects, or
/// `None` when there is nothing to scroll. The track is `track_y` and
/// `track_h` rows; `grab_offset`: where in the thumb it was grabbed.
pub open spec fn scrollbar_target_spec(track_y: u16, track_h: u16, row: u16, grab_offset: u16, entries_len: usize) -> Option<usize> {
    let th = track_h as int;
    let total = entries_len as int;
    if th == 0 || total == 0 {
        None
    } else {
        let visible = th;
        let max_scroll = if total > visible { total - visible } else { 0 };
        if max_scroll == 0 {
            None
        } else {
            let raw_thumb = (visible * th + (total - 1)) / total;
            let thumb_h = if raw_thumb < 1 { 1 } else if raw_thumb > th { th } else { raw_thumb };
            let scroll_space = th - thumb_h;
            if scroll_space == 0 {
                None
            } else {
                let row_rel = if row >= track_y { row - track_y } else { 0 };
                let lifted = if row_rel >= grab_offset { row_rel - grab_offset } else { 0 };
                let thumb_top = if lifted < scroll_space { lifted } else { scroll_space };
                let target = (thumb_top * max_scroll + scroll_space / 2) / scroll_space;
                Some((if target < total - 1 { target } else { total - 1 }) as usize)
            }
        }
    }
}

/// The listing row that dragging the scrollbar thumb selects (see
/// [`scrollbar_target_spec`]).
pub fn scroll_main_list_from_scrollbar_row(
    track_y: u16,
    track_h: u16,
    row: u16,
    grab_offset: u16,
    entries_len: usize,
) -> (r: Option<usize>)
    requires
        entries_len <= 0x1_0000_0000_0000,
    ensures
        r == scrollbar_target_spec(track_y, track_h, row, grab_offset, entries_len),
        r matches Some(i) ==> i < entries_len,
{
    if track_h == 0 || entries_len == 0 {
        return None;
    }
    let th = track_h as u128;
    let visible = th;
    let total = entries_len as u128;
    let max_scroll: u128 = if total > visible { total - visible } else { 0 };
    if max_scroll == 0 {
        return None;
    }
    assert(visible * th <= 65535 * 65535) by (nonlinear_arith)
        requires
            visible <= 65535,
            th <= 65535,
    ;
    let raw_thumb = (visible * th + (total - 1)) / total;
    let thumb_h = if raw_thumb < 1 { 1 } else if raw_thumb > th { th } else { raw_thumb };
    let scroll_space = th - thumb_h;
    if scroll_space == 0 {
        return None;
    }
    let row_rel: u128 = if row >= track_y { (row - track_y) as u128 } else { 0 };
    let lifted: u128 = if row_rel >= grab_offset as u128 { row_rel - grab_offset as u128 } else { 0 };
    let thumb_top = if lifted < scroll_space { lifted } else { scroll_space };
    assert(thumb_top * max_scroll <= 65535 * 0x1_0000_0000_0000) by (nonlinear_arith)
        requires
            thumb_top <= 65535,
            max_scroll <= 0x1_0000_0000_0000,
    ;
    let target = (thumb_top * max_scroll + scroll_space / 2) / scroll_space;
    let idx = if target < total - 1 { target } else { total - 1 };
    Some(idx as usize)
}

/// A second tap of the same key within 320 ms is a double tap.
pub open spec fn is_double_tap_spec(last: Option<(char, u64)>, key: char) -> bool {
    match last {
        Some(p) => p.0 == key && p.1 <= 320,
        None => false,
    }
}

/// Whether a tree key was tapped twice: `last` holds the previous tap's key
/// and the milliseconds since it.
pub fn is_double_tap(last: Option<(char, u64)>, key: char) -> (r: bool)
    ensures
        r == is_double_tap_spec(last, key),
{
    match last {
        Some((k, ms)) => k == key && ms <= 320,
        None => false,
    }
}

/// A folder's tree depth expanded by `levels` (at least 1), up to the
/// deepest level it has.
pub open spec fn expanded_level_spec(current: usize, levels: usize, max_expand: usize) -> usize {
    let step: int = if levels > 0 { levels as int } else { 1 };
    let up: int = if current + step > usize::MAX { usize::MAX as int } else { current + step };
    (if up < max_expand { up } else { max_expand as int }) as usize
}

/// A folder's tree depth expanded (see [`expanded_level_spec`]).
pub fn expanded_level(current: usize, levels: usize, max_expand: usize) -> (r: usize)
    ensures
        r == expanded_level_spec(current, levels, max_expand),
        r <= max_expand,
{
    let step = if levels > 0 { levels } else { 1 };
    let up = current.saturating_add(step);
    if up < max_expand { up } else { max_expand }
}

/// A folder's tree depth contracted by `levels` (at least 1); `None` once
/// it is back to 0 (no longer expanded).
pub fn contracted_level(current: usize, levels: usize) -> (r: Option<usize>)
    ensures
        ({
            let step: int = if levels > 0 { levels as int } else { 1 };
            let next: int = if current >= step { current - step } else { 0 };
            if next == 0 { r is None } else { r == Some(next as usize) }
        }),
{
    let step = if levels > 0 { levels } else { 1 };
    let next = current.saturating_sub(step);
    if next == 0 { None } else { Some(next) }
}

} // verus!
