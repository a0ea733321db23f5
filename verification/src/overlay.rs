use vstd::prelude::*;
use ratatui::layout::{Constraint, Direction, Layout, Rect};

verus! {

/// A rectangle of terminal cells.
#[derive(Clone, Copy, PartialEq, Eq, Structural, Debug)]
pub struct Area {
    pub x: u16,
    pub y: u16,
    pub width: u16,
    pub height: u16,
}

/// A size a layout row asks for.
#[derive(Clone, Copy, PartialEq, Eq, Structural, Debug)]
pub enum LayoutConstraint {
    /// Exactly this many cells.
    Length(u16),
    /// At least this many cells.
    Min(u16),
    /// This share of the area, in percent.
    Percentage(u16),
}

/// A row that a vertical split of `area` can give: at the area's column and
/// as wide, starting and ending within the area's rows, ending no later
/// than the last cell row.
pub open spec fn row_of(area: Area, r: Area) -> bool {
    &&& r.x == area.x && r.width == area.width
    &&& area.y <= r.y && r.y + r.height <= area.y + area.height
    &&& r.y + r.height <= u16::MAX
}

/// A column that a horizontal split of `area` can give: at the area's row
/// and as high, starting and ending within the area's columns, ending no
/// later than the last cell column.
pub open spec fn column_of(area: Area, c: Area) -> bool {
    &&& c.y == area.y && c.height == area.height
    &&& area.x <= c.x && c.x + c.width <= area.x + area.width
    &&& c.x + c.width <= u16::MAX
}

/// `rows` is what a vertical split of `area` by `constraints` can give: one
/// row per constraint, each a row of the area (see [`row_of`]).
pub open spec fn split_rows(area: Area, constraints: Seq<LayoutConstraint>, rows: Seq<Area>) -> bool {
    rows.len() == constraints.len() && forall|i: int| 0 <= i < rows.len() ==> row_of(area, #[trigger] rows[i])
}

/// `cols` is what a horizontal split of `area` by `constraints` can give:
/// one column per constraint, each a column of the area (see
/// [`column_of`]).
pub open spec fn split_cols(area: Area, constraints: Seq<LayoutConstraint>, cols: Seq<Area>) -> bool {
    cols.len() == constraints.len() && forall|i: int| 0 <= i < cols.len() ==> column_of(area, #[trigger] cols[i])
}

/// The constraints of the screen: the content above two status lines.
pub open spec fn screen_constraints() -> Seq<LayoutConstraint> {
    seq![LayoutConstraint::Min(3), LayoutConstraint::Length(2)]
}

/// `Layout::default().direction(Direction::Vertical).constraints(..).split(area)`:
/// one row per constraint, each at the area's column and as wide, and
/// within the area's rows: the crate's required constraints keep every
/// row's start and end between the area's top and bottom, and it writes
/// each row from them, converted to `u16`. Where within the area each row
/// lies, and how high it is, the crate's constraint solver decides from
/// constraints that are not required, walking hash maps seeded per
/// process; that is not stated. The solver cannot refuse the required
/// constraints, which are consistent, so the call does not panic.
#[verifier::external_body]
fn split_vertical(area: Area, constraints: &Vec<LayoutConstraint>) -> (r: Vec<Area>)
    ensures
        split_rows(area, constraints@, r@),
{
    let mut cs: Vec<Constraint> = Vec::new();
    for c in constraints.iter() {
        cs.push(match c {
            LayoutConstraint::Length(n) => Constraint::Length(*n),
            LayoutConstraint::Min(n) => Constraint::Min(*n),
            LayoutConstraint::Percentage(n) => Constraint::Percentage(*n),
        });
    }
    let rect = Rect { x: area.x, y: area.y, width: area.width, height: area.height };
    let rects = Layout::default().direction(Direction::Vertical).constraints(cs).split(rect);
    let mut out: Vec<Area> = Vec::new();
    for r in rects.iter() {
        out.push(Area { x: r.x, y: r.y, width: r.width, height: r.height });
    }
    out
}

/// `Layout::default().direction(Direction::Horizontal).constraints(..).split(area)`:
/// one column per constraint, each at the area's row and as high, and
/// within the area's columns. Where within the area each column lies, and
/// how wide it is, is not stated (see [`split_vertical`]).
#[verifier::external_body]
fn split_horizontal(area: Area, constraints: &Vec<LayoutConstraint>) -> (r: Vec<Area>)
    ensures
        split_cols(area, constraints@, r@),
{
    let mut cs: Vec<Constraint> = Vec::new();
    for c in constraints.iter() {
        cs.push(match c {
            LayoutConstraint::Length(n) => Constraint::Length(*n),
            LayoutConstraint::Min(n) => Constraint::Min(*n),
            LayoutConstraint::Percentage(n) => Constraint::Percentage(*n),
        });
    }
    let rect = Rect { x: area.x, y: area.y, width: area.width, height: area.height };
    let rects = Layout::default().direction(Direction::Horizontal).constraints(cs).split(rect);
    let mut out: Vec<Area> = Vec::new();
    for r in rects.iter() {
        out.push(Area { x: r.x, y: r.y, width: r.width, height: r.height });
    }
    out
}

/// The rows of the screen `area`: the content above two status lines (see
/// [`screen_constraints`]).
fn screen_rows(area: Area) -> (r: Vec<Area>)
    ensures
        split_rows(area, screen_constraints(), r@),
{
    let mut cs: Vec<LayoutConstraint> = Vec::new();
    cs.push(LayoutConstraint::Min(3));
    cs.push(LayoutConstraint::Length(2));
    assert(cs@ =~= screen_constraints());
    split_vertical(area, &cs)
}

/// The screen without the two status lines at the bottom: the first row of
/// a `Min(3)`, `Length(2)` split (see [`screen_constraints`]).
pub fn primary_content_area(area: Area) -> (r: Area)
    ensures
        exists|rows: Seq<Area>| #[trigger] split_rows(area, screen_constraints(), rows) && r == rows[0],
        row_of(area, r),
{
    let rows = screen_rows(area);
    assert(split_rows(area, screen_constraints(), rows@) && rows[0] == rows@[0]);
    rows[0]
}

/// `v` kept within `lo ..= hi` as `max(lo).min(hi)` does.
pub open spec fn max_min(v: int, lo: int, hi: int) -> int {
    let a = if v > lo { v } else { lo };
    if a < hi { a } else { hi }
}

/// Where the tabbed overlay sits in the content area `a`: five sixths of it
/// (at least 50 columns and 12 rows, at most all of it), centred.
pub open spec fn anchor_in_spec(a: Area) -> Area {
    let w = max_min(a.width * 5 / 6, 50, a.width as int);
    let h = max_min(a.height * 5 / 6, 12, a.height as int);
    Area {
        x: (a.x + (a.width - w) / 2) as u16,
        y: (a.y + (a.height - h) / 2) as u16,
        width: w as u16,
        height: h as u16,
    }
}

/// Where the tabbed overlay sits in a content area (see [`anchor_in_spec`]).
pub fn overlay_anchor_in(content: Area) -> (r: Area)
    requires
        content.x + content.width <= u16::MAX,
        content.y + content.height <= u16::MAX,
    ensures
        r == anchor_in_spec(content),
        r.x == content.x + (content.width - r.width) / 2,
        r.width <= content.width,
{
    let a = content;
    let w5 = (a.width as u32) * 5 / 6;
    let wa = if w5 > 50 { w5 } else { 50 };
    let w = if wa < a.width as u32 { wa } else { a.width as u32 };
    let h5 = (a.height as u32) * 5 / 6;
    let ha = if h5 > 12 { h5 } else { 12 };
    let h = if ha < a.height as u32 { ha } else { a.height as u32 };
    let ww = w as u16;
    let hh = h as u16;
    let x = a.x + (a.width - ww) / 2;
    let y = a.y + (a.height - hh) / 2;
    Area { x, y, width: ww, height: hh }
}

/// Where the tabbed overlay sits on the screen `area`: placed in the
/// content area that the layout gives (see [`anchor_in_spec`]).
pub fn tab_overlay_anchor(area: Area) -> (r: Area)
    requires
        area.x + area.width <= u16::MAX,
    ensures
        exists|rows: Seq<Area>| #[trigger] split_rows(area, screen_constraints(), rows) && r == anchor_in_spec(rows[0]),
        r.x == area.x + (area.width - r.width) / 2,
        r.width <= area.width,
{
    let rows = screen_rows(area);
    let r = overlay_anchor_in(rows[0]);
    assert(split_rows(area, screen_constraints(), rows@) && r == anchor_in_spec(rows@[0]));
    r
}

/// An area shrunk by its one-cell border.
pub open spec fn inner_spec(a: Area) -> Area {
    Area {
        x: if a.x < u16::MAX { (a.x + 1) as u16 } else { a.x },
        y: if a.y < u16::MAX { (a.y + 1) as u16 } else { a.y },
        width: if a.width >= 2 { (a.width - 2) as u16 } else { 0 },
        height: if a.height >= 2 { (a.height - 2) as u16 } else { 0 },
    }
}

/// An area shrunk by its one-cell border (see [`inner_spec`]).
pub fn inner_with_borders(a: Area) -> (r: Area)
    ensures
        r == inner_spec(a),
{
    Area {
        x: a.x.saturating_add(1),
        y: a.y.saturating_add(1),
        width: a.width.saturating_sub(2),
        height: a.height.saturating_sub(2),
    }
}

/// (`column`, `row`) lies in the area.
pub open spec fn inside(a: Area, column: u16, row: u16) -> bool {
    a.y <= row < a.y + a.height && a.x <= column < a.x + a.width
}

fn is_inside(a: Area, column: u16, row: u16) -> (r: bool)
    ensures
        r == inside(a, column, row),
{
    (row as u32) >= (a.y as u32) && (row as u32) < (a.y as u32) + (a.height as u32)
        && (column as u32) >= (a.x as u32) && (column as u32) < (a.x as u32) + (a.width as u32)
}

/// The overlays whose rows can be clicked.
#[derive(Clone, Copy, PartialEq, Eq, Structural, Debug)]
pub enum OverlayView {
    InternalSearch,
    Bookmarks,
    Integrations,
    SshPicker,
    SortMenu,
    Other,
}

/// What a click on an overlay row does.
#[derive(Clone, Copy, PartialEq, Eq, Structural, Debug)]
pub enum OverlayClick {
    /// Nothing.
    Ignored,
    /// Select the row, then act as Enter.
    Enter,
    /// Select the row, then act as Space (toggle).
    Toggle,
}

/// The lists the overlays show and their selections.
#[derive(Clone, Copy, PartialEq, Eq, Structural, Debug)]
pub struct OverlayState {
    pub search_results_len: usize,
    pub search_selected: usize,
    pub search_header_rows: usize,
    pub search_regex_error: bool,
    pub bookmarks_len: usize,
    pub bookmark_selected: usize,
    pub integrations_len: usize,
    pub integration_selected: usize,
    pub remote_entries_len: usize,
    pub ssh_picker_selection: usize,
    pub sort_options_len: usize,
    pub sort_menu_selected: usize,
}

/// The item a click on a list popup's body selects: the item on the clicked
/// line (line 0 is the title) after `scroll` lines, if any.
pub open spec fn list_click_in(body: Area, column: u16, row: u16, len: int, scroll: int) -> Option<int> {
    if !inside(body, column, row) {
        None
    } else {
        let line = scroll + (row - body.y);
        if 1 <= line <= len { Some(line - 1) } else { None }
    }
}

/// The result a click on the search results `body` selects, if any: the
/// results are shown below the header rows (and the regex error; their
/// count taken as a `u16`, saturating at the last row), scrolled so the
/// selection is visible.
pub open spec fn search_click_in(body: Area, column: u16, row: u16, st: OverlayState) -> Option<int> {
    if st.search_results_len == 0 || !inside(body, column, row) {
        None
    } else {
        let regex_rows: int = if st.search_regex_error { 1 } else { 0 };
        let visible = body.height as int;
        let max_rows = if visible - st.search_header_rows > 1 { visible - st.search_header_rows } else { 1 };
        let offset = if st.search_selected >= max_rows { st.search_selected + 1 - max_rows } else { 0 };
        let start = body.y + (st.search_header_rows + regex_rows) % 65536;
        let start_y = if start > u16::MAX { u16::MAX as int } else { start };
        if row < start_y {
            None
        } else {
            let clicked = row - start_y;
            let left = if st.search_results_len > offset { st.search_results_len - offset } else { 0 };
            let rendered = if left < max_rows { left } else { max_rows };
            if clicked >= rendered { None } else { Some(offset + clicked) }
        }
    }
}

/// The popups of the list overlays, placed at the overlay's corner `o` on
/// the screen `area`.
pub open spec fn popup_in(view: OverlayView, area: Area, o: Area, st: OverlayState) -> Area {
    match view {
        OverlayView::Bookmarks => Area {
            x: o.x,
            y: o.y,
            width: max_min(area.width * 2 / 3, 50, o.width as int) as u16,
            height: max_min(1 + st.bookmarks_len + 4 + 4, 17, o.height as int) as u16,
        },
        OverlayView::Integrations => Area {
            x: o.x,
            y: o.y,
            width: max_min(area.width * 5 / 6, 70, o.width as int) as u16,
            height: (if st.integrations_len + 5 < o.height { st.integrations_len + 5 } else { o.height as int }) as u16,
        },
        OverlayView::SshPicker => Area {
            x: o.x,
            y: o.y,
            width: (if max_min(area.width * 2 / 3, 60, area.width as int) < o.width {
                max_min(area.width * 2 / 3, 60, area.width as int)
            } else {
                o.width as int
            }) as u16,
            height: max_min(1 + st.remote_entries_len + 4, 8, o.height as int) as u16,
        },
        _ => Area {
            x: o.x,
            y: o.y,
            width: o.width,
            height: max_min(1 + st.sort_options_len + 4, 10, o.height as int) as u16,
        },
    }
}

/// The scroll of the integrations list that keeps its selection visible.
pub open spec fn integrations_scroll(body: Area, selected: int) -> int {
    let visible = body.height as int;
    let line = selected + 1;
    if line + 1 <= visible { 0 } else { line + 1 - visible }
}

/// The rows of the search overlay's inside: the query, the results and
/// the footer.
pub open spec fn search_body_constraints() -> Seq<LayoutConstraint> {
    seq![LayoutConstraint::Length(3), LayoutConstraint::Min(1), LayoutConstraint::Length(2)]
}

/// The rows of a list popup's inside: the list and the footer.
pub open spec fn list_body_constraints() -> Seq<LayoutConstraint> {
    seq![LayoutConstraint::Min(1), LayoutConstraint::Length(2)]
}

/// `brows` is what the layout can give the inside of the open overlay
/// (`o`: the overlay): a split of the search overlay's inside, or of a
/// list popup's inside; nothing is split for any other view.
pub open spec fn body_split(view: OverlayView, area: Area, o: Area, st: OverlayState, brows: Seq<Area>) -> bool {
    match view {
        OverlayView::InternalSearch => split_rows(inner_spec(o), search_body_constraints(), brows),
        OverlayView::Other => true,
        _ => split_rows(inner_spec(popup_in(view, area, o, st)), list_body_constraints(), brows),
    }
}

/// The body of the open overlay from the rows of its inside: the middle
/// row of the search overlay, the first row of a list popup, the overlay
/// itself otherwise.
pub open spec fn body_of(view: OverlayView, o: Area, brows: Seq<Area>) -> Area {
    match view {
        OverlayView::InternalSearch => brows[1],
        OverlayView::Other => o,
        _ => brows[0],
    }
}

/// What a click on the open overlay does, and the selection it leaves,
/// given the overlay `o` and its body: search results and list items are
/// selected and opened (Enter); an integration is selected and toggled
/// (Space); a click that hits nothing leaves the state as it was.
pub open spec fn overlay_click_in(view: OverlayView, area: Area, o: Area, body: Area, column: u16, row: u16, st: OverlayState) -> (OverlayClick, OverlayState) {
    match view {
        OverlayView::InternalSearch => match search_click_in(body, column, row, st) {
            Some(i) => (OverlayClick::Enter, OverlayState { search_selected: i as usize, ..st }),
            None => (OverlayClick::Ignored, st),
        },
        OverlayView::Bookmarks => if st.bookmarks_len == 0 {
            (OverlayClick::Ignored, st)
        } else {
            match list_click_in(body, column, row, st.bookmarks_len as int, 0) {
                Some(i) => (OverlayClick::Enter, OverlayState { bookmark_selected: i as usize, ..st }),
                None => (OverlayClick::Ignored, st),
            }
        },
        OverlayView::Integrations => if st.integrations_len == 0 {
            (OverlayClick::Ignored, st)
        } else {
            match list_click_in(body, column, row, st.integrations_len as int, integrations_scroll(body, st.integration_selected as int)) {
                Some(i) => (OverlayClick::Toggle, OverlayState { integration_selected: i as usize, ..st }),
                None => (OverlayClick::Ignored, st),
            }
        },
        OverlayView::SshPicker => if st.remote_entries_len == 0 {
            (OverlayClick::Ignored, st)
        } else {
            match list_click_in(body, column, row, st.remote_entries_len as int, 0) {
                Some(i) => (OverlayClick::Enter, OverlayState { ssh_picker_selection: i as usize, ..st }),
                None => (OverlayClick::Ignored, st),
            }
        },
        OverlayView::SortMenu => if st.sort_options_len == 0 {
            (OverlayClick::Ignored, st)
        } else {
            match list_click_in(body, column, row, st.sort_options_len as int, 0) {
                Some(i) => (OverlayClick::Enter, OverlayState { sort_menu_selected: i as usize, ..st }),
                None => (OverlayClick::Ignored, st),
            }
        },
        OverlayView::Other => (OverlayClick::Ignored, st),
    }
}

fn list_click_exec(body: Area, column: u16, row: u16, len: usize, scroll: u128) -> (r: Option<usize>)
    requires
        scroll <= usize::MAX as u128 + 2,
    ensures
        match r {
            Some(i) => list_click_in(body, column, row, len as int, scroll as int) == Some(i as int),
            None => list_click_in(body, column, row, len as int, scroll as int) is None,
        },
{
    if !is_inside(body, column, row) {
        return None;
    }
    let line: u128 = scroll + (row - body.y) as u128;
    if line >= 1 && line <= len as u128 {
        Some((line - 1) as usize)
    } else {
        None
    }
}

fn max_min_u32(v: u32, lo: u32, hi: u32) -> (r: u32)
    ensures
        r == max_min(v as int, lo as int, hi as int),
{
    let a = if v > lo { v } else { lo };
    if a < hi { a } else { hi }
}

fn max_min_u128(v: u128, lo: u128, hi: u128) -> (r: u128)
    ensures
        r == max_min(v as int, lo as int, hi as int),
{
    let a = if v > lo { v } else { lo };
    if a < hi { a } else { hi }
}

fn popup_in_exec(view: OverlayView, area: Area, o: Area, st: &OverlayState) -> (r: Area)
    ensures
        r == popup_in(view, area, o, *st),
{
    match view {
        OverlayView::Bookmarks => {
            let w = max_min_u32((area.width as u32) * 2 / 3, 50, o.width as u32);
            let h = max_min_u128(st.bookmarks_len as u128 + 9, 17, o.height as u128);
            Area { x: o.x, y: o.y, width: w as u16, height: h as u16 }
        },
        OverlayView::Integrations => {
            let w = max_min_u32((area.width as u32) * 5 / 6, 70, o.width as u32);
            let h5 = st.integrations_len as u128 + 5;
            let h = if h5 < o.height as u128 { h5 } else { o.height as u128 };
            Area { x: o.x, y: o.y, width: w as u16, height: h as u16 }
        },
        OverlayView::SshPicker => {
            let sw = max_min_u32((area.width as u32) * 2 / 3, 60, area.width as u32);
            let w = if sw < o.width as u32 { sw } else { o.width as u32 };
            let h = max_min_u128(st.remote_entries_len as u128 + 5, 8, o.height as u128);
            Area { x: o.x, y: o.y, width: w as u16, height: h as u16 }
        },
        _ => {
            let h = max_min_u128(st.sort_options_len as u128 + 5, 10, o.height as u128);
            Area { x: o.x, y: o.y, width: o.width, height: h as u16 }
        },
    }
}

/// What a click on the open overlay does given the overlay and the body
/// the layout gave it (see [`overlay_click_in`]); the selection it makes is
/// written into `st`.
pub fn clickable_key_in(view: OverlayView, column: u16, row: u16, area: Area, o: Area, body: Area, st: &mut OverlayState) -> (r: OverlayClick)
    ensures
        (r, *final(st)) == overlay_click_in(view, area, o, body, column, row, *old(st)),
{
    match view {
        OverlayView::InternalSearch => {
            if st.search_results_len == 0 || !is_inside(body, column, row) {
                return OverlayClick::Ignored;
            }
            let regex_rows: u128 = if st.search_regex_error { 1 } else { 0 };
            let visible = body.height as usize;
            let h = st.search_header_rows;
            let max_rows = if visible > h && visible - h > 1 { visible - h } else { 1 };
            let offset = if st.search_selected >= max_rows { st.search_selected - max_rows + 1 } else { 0 };
            let skip: u128 = (h as u128 + regex_rows) % 65536;
            let start: u128 = body.y as u128 + skip;
            let start_y: u16 = if start > 65535 { 65535 } else { start as u16 };
            if row < start_y {
                return OverlayClick::Ignored;
            }
            let clicked = (row - start_y) as usize;
            let left = if st.search_results_len > offset { st.search_results_len - offset } else { 0 };
            let rendered = if left < max_rows { left } else { max_rows };
            if clicked >= rendered {
                return OverlayClick::Ignored;
            }
            st.search_selected = offset + clicked;
            OverlayClick::Enter
        },
        OverlayView::Bookmarks => {
            if st.bookmarks_len == 0 {
                return OverlayClick::Ignored;
            }
            match list_click_exec(body, column, row, st.bookmarks_len, 0) {
                Some(i) => {
                    st.bookmark_selected = i;
                    OverlayClick::Enter
                },
                None => OverlayClick::Ignored,
            }
        },
        OverlayView::Integrations => {
            if st.integrations_len == 0 {
                return OverlayClick::Ignored;
            }
            let visible = body.height as u128;
            let line = st.integration_selected as u128 + 1;
            let scroll = if line + 1 <= visible { 0 } else { line + 1 - visible };
            match list_click_exec(body, column, row, st.integrations_len, scroll) {
                Some(i) => {
                    st.integration_selected = i;
                    OverlayClick::Toggle
                },
                None => OverlayClick::Ignored,
            }
        },
        OverlayView::SshPicker => {
            if st.remote_entries_len == 0 {
                return OverlayClick::Ignored;
            }
            match list_click_exec(body, column, row, st.remote_entries_len, 0) {
                Some(i) => {
                    st.ssh_picker_selection = i;
                    OverlayClick::Enter
                },
                None => OverlayClick::Ignored,
            }
        },
        OverlayView::SortMenu => {
            if st.sort_options_len == 0 {
                return OverlayClick::Ignored;
            }
            match list_click_exec(body, column, row, st.sort_options_len, 0) {
                Some(i) => {
                    st.sort_menu_selected = i;
                    OverlayClick::Enter
                },
                None => OverlayClick::Ignored,
            }
        },
        OverlayView::Other => OverlayClick::Ignored,
    }
}

/// What a click on the open overlay does on the screen `area` (see
/// [`overlay_click_in`]), with the overlay placed in the content area the
/// layout gives and the body the layout gives it; the selection it makes is
/// written into `st`.
pub fn clickable_key_from_tabbed_row(view: OverlayView, column: u16, row: u16, area: Area, st: &mut OverlayState) -> (r: OverlayClick)
    requires
        area.x + area.width <= u16::MAX,
    ensures
        exists|rows: Seq<Area>, brows: Seq<Area>|
            #![trigger split_rows(area, screen_constraints(), rows), body_split(view, area, anchor_in_spec(rows[0]), *old(st), brows)]
            split_rows(area, screen_constraints(), rows)
                && body_split(view, area, anchor_in_spec(rows[0]), *old(st), brows)
                && (r, *final(st)) == overlay_click_in(
                    view, area, anchor_in_spec(rows[0]), body_of(view, anchor_in_spec(rows[0]), brows), column, row, *old(st),
                ),
{
    let ghost st0 = *st;
    let rows = screen_rows(area);
    let o = overlay_anchor_in(rows[0]);
    let ghost mut brows: Seq<Area> = Seq::empty();
    let body = match view {
        OverlayView::InternalSearch => {
            let inner = inner_with_borders(o);
            let mut cs: Vec<LayoutConstraint> = Vec::new();
            cs.push(LayoutConstraint::Length(3));
            cs.push(LayoutConstraint::Min(1));
            cs.push(LayoutConstraint::Length(2));
            assert(cs@ =~= search_body_constraints());
            let b = split_vertical(inner, &cs);
            proof { brows = b@; }
            b[1]
        },
        OverlayView::Other => o,
        _ => {
            let popup = popup_in_exec(view, area, o, st);
            let inner = inner_with_borders(popup);
            let mut cs: Vec<LayoutConstraint> = Vec::new();
            cs.push(LayoutConstraint::Min(1));
            cs.push(LayoutConstraint::Length(2));
            assert(cs@ =~= list_body_constraints());
            let b = split_vertical(inner, &cs);
            proof { brows = b@; }
            b[0]
        },
    };
    assert(split_rows(area, screen_constraints(), rows@) && body_split(view, area, anchor_in_spec(rows@[0]), st0, brows)
        && body == body_of(view, anchor_in_spec(rows@[0]), brows));
    clickable_key_in(view, column, row, area, o, body, st)
}

/// The rows of the listing below the header rows (two, or one with the
/// preview shown) within the first layout row `c0`.
pub open spec fn content_below_header(c0: Area, preview: bool) -> Area {
    let reserved: int = if preview { 1 } else { 2 };
    Area {
        x: c0.x,
        y: (if c0.y + reserved > u16::MAX { u16::MAX as int } else { c0.y + reserved }) as u16,
        width: c0.width,
        height: (if c0.height >= reserved { c0.height - reserved } else { 0 }) as u16,
    }
}

/// The listing's table and the part of it the rows use (less the
/// scrollbar column when one is drawn), in the browsing view, from the
/// first layout row `c0` (above the footer) and, with the preview shown,
/// the left layout column `col0` of the content (a third, inside its
/// border); `None` outside browsing or when nothing fits.
pub open spec fn table_and_list_in_spec(c0: Area, col0: Area, browsing: bool, preview: bool, entries_len: usize) -> Option<(Area, Area)> {
    if !browsing {
        None
    } else {
        let table = if preview { inner_spec(col0) } else { content_below_header(c0, preview) };
        if table.height == 0 || table.width == 0 {
            None
        } else {
            let scrollbar = table.width > 2 && entries_len > table.height;
            let list = if scrollbar { Area { width: (table.width - 1) as u16, ..table } } else { table };
            Some((table, list))
        }
    }
}

/// The listing's table and list from the layout's rows (see
/// [`table_and_list_in_spec`]).
pub fn table_and_list_in(c0: Area, col0: Area, browsing: bool, preview: bool, entries_len: usize) -> (r: Option<(Area, Area)>)
    ensures
        r == table_and_list_in_spec(c0, col0, browsing, preview, entries_len),
        r matches Some(p) ==> p.1.x == p.0.x && p.1.width <= p.0.width,
{
    if !browsing {
        return None;
    }
    let reserved: u16 = if preview { 1 } else { 2 };
    let table = if preview {
        inner_with_borders(col0)
    } else {
        Area {
            x: c0.x,
            y: c0.y.saturating_add(reserved),
            width: c0.width,
            height: c0.height.saturating_sub(reserved),
        }
    };
    if table.height == 0 || table.width == 0 {
        return None;
    }
    let scrollbar = table.width > 2 && entries_len > table.height as usize;
    let list = if scrollbar { Area { width: table.width - 1, ..table } } else { table };
    Some((table, list))
}

/// The rows of the browsing screen: the listing above its footer (one
/// line with the preview shown, two without).
pub open spec fn listing_constraints(preview: bool) -> Seq<LayoutConstraint> {
    seq![LayoutConstraint::Min(3), LayoutConstraint::Length(if preview { 1u16 } else { 2u16 })]
}

/// The columns of the listing with the preview shown: a third for the
/// list, the rest for the preview.
pub open spec fn preview_constraints() -> Seq<LayoutConstraint> {
    seq![LayoutConstraint::Percentage(33), LayoutConstraint::Percentage(67)]
}

/// A table and list the listing can have on the screen `area`: none
/// outside browsing; in browsing, from the first row of a split of `area`
/// by [`listing_constraints`] and, with the preview shown, the first
/// column of a split of what lies below the header by
/// [`preview_constraints`].
pub open spec fn possible_table_and_list(area: Area, browsing: bool, preview: bool, entries_len: usize, p: Option<(Area, Area)>) -> bool {
    if !browsing {
        p is None
    } else {
        exists|rows: Seq<Area>, cols: Seq<Area>|
            #![trigger split_rows(area, listing_constraints(preview), rows), split_cols(content_below_header(rows[0], preview), preview_constraints(), cols)]
            split_rows(area, listing_constraints(preview), rows)
                && split_cols(content_below_header(rows[0], preview), preview_constraints(), cols)
                && p == table_and_list_in_spec(rows[0], cols[0], browsing, preview, entries_len)
    }
}

/// The listing's table and list areas on the screen `area` (see
/// [`table_and_list_in_spec`]).
pub fn main_table_and_list_areas(area: Area, browsing: bool, preview: bool, entries_len: usize) -> (r: Option<(Area, Area)>)
    requires
        area.x + area.width <= u16::MAX,
    ensures
        possible_table_and_list(area, browsing, preview, entries_len, r),
        r matches Some(p) ==> p.0.x + p.0.width <= u16::MAX && p.1.x == p.0.x && p.1.width <= p.0.width,
{
    if !browsing {
        return None;
    }
    let footer: u16 = if preview { 1 } else { 2 };
    let mut cs: Vec<LayoutConstraint> = Vec::new();
    cs.push(LayoutConstraint::Min(3));
    cs.push(LayoutConstraint::Length(footer));
    assert(cs@ =~= listing_constraints(preview));
    let chunks = split_vertical(area, &cs);
    let c0 = chunks[0];
    let reserved: u16 = if preview { 1 } else { 2 };
    let content = Area {
        x: c0.x,
        y: c0.y.saturating_add(reserved),
        width: c0.width,
        height: c0.height.saturating_sub(reserved),
    };
    assert(content == content_below_header(c0, preview));
    let mut hs: Vec<LayoutConstraint> = Vec::new();
    hs.push(LayoutConstraint::Percentage(33));
    hs.push(LayoutConstraint::Percentage(67));
    assert(hs@ =~= preview_constraints());
    let cols = split_horizontal(content, &hs);
    let col0 = cols[0];
    let r = table_and_list_in(c0, col0, browsing, preview, entries_len);
    assert(split_rows(area, listing_constraints(preview), chunks@)
        && split_cols(content_below_header(chunks@[0], preview), preview_constraints(), cols@)
        && r == table_and_list_in_spec(chunks@[0], cols@[0], browsing, preview, entries_len));
    r
}

/// The scrollbar column right of the list, when the list leaves one.
pub open spec fn scrollbar_of(p: Option<(Area, Area)>) -> Option<Area> {
    match p {
        Some(p) => if p.1.width >= p.0.width || p.1.height == 0 {
            None
        } else {
            Some(Area { x: (p.1.x + p.1.width) as u16, y: p.1.y, width: 1, height: p.1.height })
        },
        None => None,
    }
}

/// The scrollbar column right of a table's list (see [`scrollbar_of`]).
pub fn scrollbar_area_of(p: Option<(Area, Area)>) -> (r: Option<Area>)
    requires
        p matches Some(q) ==> q.1.x == q.0.x && q.0.x + q.0.width <= u16::MAX,
    ensures
        r == scrollbar_of(p),
{
    let (table, list) = match p {
        Some(q) => q,
        None => return None,
    };
    if list.width >= table.width || list.height == 0 {
        return None;
    }
    Some(Area { x: list.x + list.width, y: list.y, width: 1, height: list.height })
}

/// The scrollbar column right of the listing on the screen `area` (see
/// [`scrollbar_of`]).
pub fn main_table_scrollbar_area(area: Area, browsing: bool, preview: bool, entries_len: usize) -> (r: Option<Area>)
    requires
        area.x + area.width <= u16::MAX,
    ensures
        exists|p: Option<(Area, Area)>| #[trigger] possible_table_and_list(area, browsing, preview, entries_len, p)
            && r == scrollbar_of(p),
{
    let p = main_table_and_list_areas(area, browsing, preview, entries_len);
    let r = scrollbar_area_of(p);
    assert(possible_table_and_list(area, browsing, preview, entries_len, p) && r == scrollbar_of(p));
    r
}

/// The previous click on the listing: which row, whether it was in the
/// same directory, and how long ago.
#[derive(Clone, Copy, PartialEq, Eq, Structural, Debug)]
pub struct LastClick {
    pub index: usize,
    pub same_dir: bool,
    pub elapsed_ms: u64,
}

/// The listing row a click selects, and whether it is a double click (the
/// same row of the same directory within 320 ms): `offset` is the first row
/// shown.
pub open spec fn list_click_spec(list: Area, column: u16, row: u16, offset: usize, entries_len: usize, last: Option<LastClick>) -> Option<(usize, bool)> {
    if list.width == 0 || list.height == 0 || !inside(list, column, row) {
        None
    } else {
        let t = offset + (row - list.y);
        let target = if t > usize::MAX { usize::MAX as int } else { t };
        if target >= entries_len {
            None
        } else {
            Some((target as usize, match last {
                Some(l) => l.index == target && l.same_dir && l.elapsed_ms <= 320,
                None => false,
            }))
        }
    }
}

/// The listing row a click on `list` selects (see [`list_click_spec`]).
pub fn main_list_click_in(list: Area, column: u16, row: u16, offset: usize, entries_len: usize, last: Option<LastClick>) -> (r: Option<(usize, bool)>)
    ensures
        r == list_click_spec(list, column, row, offset, entries_len, last),
{
    if list.width == 0 || list.height == 0 || !is_inside(list, column, row) {
        return None;
    }
    let target = offset.saturating_add((row - list.y) as usize);
    if target >= entries_len {
        return None;
    }
    let double = match last {
        Some(l) => l.index == target && l.same_dir && l.elapsed_ms <= 320,
        None => false,
    };
    Some((target, double))
}

/// The listing row a click on the screen `area` selects (see
/// [`list_click_spec`]), in the list the layout gives.
pub fn handle_main_list_click(
    area: Area,
    browsing: bool,
    preview: bool,
    entries_len: usize,
    column: u16,
    row: u16,
    offset: usize,
    last: Option<LastClick>,
) -> (r: Option<(usize, bool)>)
    requires
        area.x + area.width <= u16::MAX,
    ensures
        exists|p: Option<(Area, Area)>| #[trigger] possible_table_and_list(area, browsing, preview, entries_len, p)
            && r == match p {
                Some(q) => list_click_spec(q.1, column, row, offset, entries_len, last),
                None => None,
            },
{
    let p = main_table_and_list_areas(area, browsing, preview, entries_len);
    let r = match p {
        Some(q) => main_list_click_in(q.1, column, row, offset, entries_len, last),
        None => None,
    };
    assert(possible_table_and_list(area, browsing, preview, entries_len, p));
    r
}

/// A click on the close mark (the cell two from the right on the top
/// border) of the tabbed overlay `o`, while one is open.
pub open spec fn close_click_in(tabbed_open: bool, o: Area, column: u16, row: u16) -> bool {
    let cx: int = o.x + (if o.width >= 2 { o.width - 2 } else { 0 });
    tabbed_open && row == o.y && cx <= column < cx + 1
}

/// A click on the close mark of the tabbed overlay `o` (see
/// [`close_click_in`]).
pub fn tab_close_click_in(tabbed_open: bool, o: Area, column: u16, row: u16) -> (r: bool)
    requires
        o.x + o.width <= u16::MAX,
    ensures
        r == close_click_in(tabbed_open, o, column, row),
{
    if !tabbed_open {
        return false;
    }
    let cx = o.x + o.width.saturating_sub(2);
    row == o.y && column >= cx && (column as u32) < (cx as u32) + 1
}

/// A click on the close mark of the tabbed overlay on the screen `area`
/// (see [`close_click_in`]), with the overlay placed in the content area
/// the layout gives.
pub fn handle_tab_close_click(tabbed_open: bool, area: Area, column: u16, row: u16) -> (r: bool)
    requires
        area.x + area.width <= u16::MAX,
    ensures
        exists|rows: Seq<Area>| #[trigger] split_rows(area, screen_constraints(), rows)
            && r == close_click_in(tabbed_open, anchor_in_spec(rows[0]), column, row),
{
    let rows = screen_rows(area);
    let o = overlay_anchor_in(rows[0]);
    let r = tab_close_click_in(tabbed_open, o, column, row);
    assert(split_rows(area, screen_constraints(), rows@) && r == close_click_in(tabbed_open, anchor_in_spec(rows@[0]), column, row));
    r
}

} // verus!
