use vstd::prelude::*;
use crate::nav::moved_selection_spec;
use crate::overlay::{inside, Area};
use crate::content::{adjust_internal_search_content_limit, adjusted_limits_spec, InternalSearchContentLimits};
use crate::input::{backspace_spec, clamp, delete_spec, insert_spec, move_left_spec, InputLine};

verus! {

/// A key of the browsing view.
#[derive(Clone, Copy, PartialEq, Eq, Structural, Debug)]
pub enum BrowseKey {
    Char(char),
    Esc,
    Enter,
    Tab,
    BackTab,
    Backspace,
    Delete,
    Insert,
    Left,
    Right,
    Up,
    Down,
    PageUp,
    PageDown,
    Home,
    End,
    /// A function key, by its number.
    F(u8),
    Other,
}

/// A key press: the key, whether Ctrl was held, and how many presses of
/// it arrived together (the arrows move by that many rows).
#[derive(Clone, Copy, PartialEq, Eq, Structural, Debug)]
pub struct KeyInput {
    pub key: BrowseKey,
    pub ctrl: bool,
    pub repeat: usize,
}

/// What the program does after a key in the browsing view, beyond the
/// change of the browsing state itself.
#[derive(Clone, Copy, PartialEq, Eq, Structural, Debug)]
pub enum UiAction {
    /// Nothing more.
    Nothing,
    Quit,
    TogglePreviewMode,
    BeginCommand,
    ShowHelp,
    ShowGitLog,
    BeginPathEdit,
    /// The marks changed: measure the marked entries again.
    ScanMarkedSizes,
    CopyPathsToSystemClipboard,
    BeginNoteEdit,
    DropToShell,
    /// Put the marked entries, or else the selected one, on the clipboard.
    CopyToClipboard,
    BeginPaste,
    BeginMove,
    EditSystemClipboard,
    ConfirmDelete,
    ToggleExecutable,
    ToggleAgeProtection,
    OpenSortMenu,
    /// Folder sizes were switched on or off.
    FolderSizesChanged,
    ExpandTree,
    CollapseTree,
    CompareWithDelta,
    OpenWithDefaultApp,
    OpenTodo,
    OpenSplitPager,
    OpenSplitEditor,
    ViewInPager,
    BeginNewFile,
    BeginNewFolder,
    ArchiveFlow,
    GoHome,
    ShowBookmarks,
    ShowIntegrations,
    ShowRemotePicker,
    JumpToBookmark(u8),
    /// Hidden entries were switched on or off: list the folder again.
    HiddenChanged,
    /// Rename the marked entries together.
    BulkRename,
    /// Rename this entry (now the selected one).
    BeginRename(usize),
    /// Leave a mounted view, or go to the parent folder.
    LeaveOrParent,
    OpenSelected,
    ContentSearch,
    GitCommitFlow,
    FuzzyFind,
    EditSelected,
}

/// The state of the browsing view that keys change: the selected row, one
/// mark per listed entry, and the view's switches.
#[derive(Clone, Debug)]
pub struct BrowserState {
    pub selected: usize,
    pub marked: Vec<bool>,
    pub show_hidden: bool,
    pub folder_sizes: bool,
    pub preview_enabled: bool,
    pub preview_scroll: usize,
    pub page_size: usize,
}

/// [`BrowserState`] with the marks as a sequence.
#[verifier::ext_equal]
pub struct BrowserView {
    pub selected: usize,
    pub marked: Seq<bool>,
    pub show_hidden: bool,
    pub folder_sizes: bool,
    pub preview_enabled: bool,
    pub preview_scroll: usize,
    pub page_size: usize,
}

impl View for BrowserState {
    type V = BrowserView;

    open spec fn view(&self) -> BrowserView {
        BrowserView {
            selected: self.selected,
            marked: self.marked@,
            show_hidden: self.show_hidden,
            folder_sizes: self.folder_sizes,
            preview_enabled: self.preview_enabled,
            preview_scroll: self.preview_scroll,
            page_size: self.page_size,
        }
    }
}

/// A browsing state is well formed when the selection is on the list (or
/// the list is empty).
pub open spec fn browser_wf(s: BrowserView) -> bool {
    s.marked.len() == 0 || s.selected < s.marked.len()
}

/// How many entries are marked.
pub open spec fn mark_count(m: Seq<bool>) -> nat
    decreases m.len(),
{
    if m.len() == 0 {
        0
    } else {
        mark_count(m.drop_last()) + (if m.last() { 1nat } else { 0nat })
    }
}

/// The first marked entry, or -1 when none is.
pub open spec fn first_marked(m: Seq<bool>) -> int
    decreases m.len(),
{
    if m.len() == 0 {
        -1
    } else {
        let f = first_marked(m.drop_last());
        if f >= 0 {
            f
        } else if m.last() {
            m.len() - 1
        } else {
            -1
        }
    }
}

/// Every entry is marked.
pub open spec fn all_marked(m: Seq<bool>) -> bool {
    forall|i: int| 0 <= i < m.len() ==> #[trigger] m[i]
}

/// The state with the selection moved to `sel`.
pub open spec fn with_selected(s: BrowserView, sel: usize) -> BrowserView {
    BrowserView { selected: sel, ..s }
}

/// Space: the selected entry's mark flips and the selection moves one row
/// down unless on the last row; nothing happens on an empty list.
pub open spec fn toggle_mark_step(s: BrowserView) -> (BrowserView, UiAction) {
    let n = s.marked.len();
    if n == 0 {
        (s, UiAction::Nothing)
    } else {
        let m = s.marked.update(s.selected as int, !s.marked[s.selected as int]);
        let sel = if s.selected + 1 < n { (s.selected + 1) as usize } else { s.selected };
        (BrowserView { marked: m, selected: sel, ..s }, UiAction::ScanMarkedSizes)
    }
}

/// `*`: with every entry marked, the marks are cleared; otherwise every
/// entry is marked; nothing happens on an empty list.
pub open spec fn toggle_all_step(s: BrowserView) -> (BrowserView, UiAction) {
    let n = s.marked.len();
    if n == 0 {
        (s, UiAction::Nothing)
    } else {
        let m = Seq::new(n, |i: int| !all_marked(s.marked));
        (BrowserView { marked: m, ..s }, UiAction::ScanMarkedSizes)
    }
}

/// F2 or `r`: with two or more marks, a rename of the marked entries;
/// otherwise the one marked entry, or else the selected one, is selected
/// and renamed; nothing happens when that entry is not on the list.
pub open spec fn rename_step(s: BrowserView) -> (BrowserView, UiAction) {
    let n = s.marked.len();
    let c = mark_count(s.marked);
    if c > 1 {
        (s, UiAction::BulkRename)
    } else {
        let t: int = if c == 1 { first_marked(s.marked) } else { s.selected as int };
        if 0 <= t < n {
            (with_selected(s, t as usize), UiAction::BeginRename(t as usize))
        } else {
            (s, UiAction::Nothing)
        }
    }
}

/// The arrows: the selection moves by `repeat` rows, staying on the list.
pub open spec fn arrow_step(s: BrowserView, up: bool, repeat: usize) -> BrowserView {
    let n = s.marked.len();
    if n == 0 {
        s
    } else {
        with_selected(s, moved_selection_spec(s.selected, n as usize, if up { -(repeat as int) } else { repeat as int }))
    }
}

/// Page Up: the preview scrolls up eight lines when shown, else the
/// selection moves up a page (not past the first row).
pub open spec fn page_up_step(s: BrowserView) -> BrowserView {
    if s.preview_enabled {
        BrowserView { preview_scroll: (if s.preview_scroll >= 8 { s.preview_scroll - 8 } else { 0 }) as usize, ..s }
    } else {
        with_selected(s, (if s.selected >= s.page_size { s.selected - s.page_size } else { 0 }) as usize)
    }
}

/// Page Down: the preview scrolls down eight lines when shown, else the
/// selection moves down a page (not past the last row).
pub open spec fn page_down_step(s: BrowserView) -> BrowserView {
    let n = s.marked.len();
    if s.preview_enabled {
        BrowserView {
            preview_scroll: (if s.preview_scroll + 8 > usize::MAX { usize::MAX as int } else { s.preview_scroll + 8 }) as usize,
            ..s
        }
    } else if n == 0 {
        s
    } else {
        with_selected(s, (if s.selected + s.page_size < n - 1 { s.selected + s.page_size } else { n - 1 }) as usize)
    }
}

/// An action that needs an entry under the cursor: taken only when the
/// list is not empty.
pub open spec fn on_entry(s: BrowserView, a: UiAction) -> (BrowserView, UiAction) {
    if s.marked.len() > 0 { (s, a) } else { (s, UiAction::Nothing) }
}

/// What a key does in the browsing view: the next state and what the
/// program does next.
pub open spec fn key_step_spec(s: BrowserView, k: KeyInput) -> (BrowserView, UiAction) {
    match k.key {
        BrowseKey::Char(c) => {
            if c == 'q' {
                (s, UiAction::Quit)
            } else if c == '`' {
                (s, UiAction::TogglePreviewMode)
            } else if c == ';' {
                (s, UiAction::BeginCommand)
            } else if c == 'h' {
                (s, UiAction::ShowHelp)
            } else if c == 'H' {
                (s, UiAction::ShowGitLog)
            } else if c == ' ' {
                toggle_mark_step(s)
            } else if c == '*' {
                toggle_all_step(s)
            } else if c == 'c' && k.ctrl {
                (s, UiAction::CopyPathsToSystemClipboard)
            } else if c == 'n' && k.ctrl {
                (s, UiAction::BeginNoteEdit)
            } else if c == 'z' && k.ctrl {
                (s, UiAction::DropToShell)
            } else if c == 'c' {
                (s, UiAction::CopyToClipboard)
            } else if c == 'v' {
                (s, UiAction::BeginPaste)
            } else if c == 'm' {
                (s, UiAction::BeginMove)
            } else if c == 'e' && k.ctrl {
                (s, UiAction::EditSystemClipboard)
            } else if c == 'd' {
                on_entry(s, UiAction::ConfirmDelete)
            } else if c == 'x' {
                (s, UiAction::ToggleExecutable)
            } else if c == 'p' {
                on_entry(s, UiAction::ToggleAgeProtection)
            } else if c == 's' && k.ctrl {
                (s, UiAction::OpenSortMenu)
            } else if c == 's' {
                (BrowserView { folder_sizes: !s.folder_sizes, ..s }, UiAction::FolderSizesChanged)
            } else if c == '+' {
                (s, UiAction::ExpandTree)
            } else if c == '-' {
                (s, UiAction::CollapseTree)
            } else if c == 'C' {
                (s, UiAction::CompareWithDelta)
            } else if c == 'o' {
                (s, UiAction::OpenWithDefaultApp)
            } else if c == 't' {
                (s, UiAction::OpenTodo)
            } else if c == 'i' {
                (s, UiAction::OpenSplitPager)
            } else if c == 'E' {
                (s, UiAction::OpenSplitEditor)
            } else if c == 'l' {
                on_entry(s, UiAction::ViewInPager)
            } else if c == 'n' {
                (s, UiAction::BeginNewFile)
            } else if c == 'N' {
                (s, UiAction::BeginNewFolder)
            } else if c == 'Z' {
                (s, UiAction::ArchiveFlow)
            } else if c == '~' {
                (s, UiAction::GoHome)
            } else if c == 'b' {
                (s, UiAction::ShowBookmarks)
            } else if c == 'I' {
                (s, UiAction::ShowIntegrations)
            } else if c == 'S' {
                (s, UiAction::ShowRemotePicker)
            } else if '0' <= c <= '9' {
                (s, UiAction::JumpToBookmark((c as u32 - '0' as u32) as u8))
            } else if c == '.' {
                (BrowserView { show_hidden: !s.show_hidden, ..s }, UiAction::HiddenChanged)
            } else if c == 'r' {
                rename_step(s)
            } else if c == 'g' {
                (s, UiAction::ContentSearch)
            } else if c == 'G' {
                (s, UiAction::GitCommitFlow)
            } else if c == 'f' {
                (s, UiAction::FuzzyFind)
            } else if c == 'e' {
                on_entry(s, UiAction::EditSelected)
            } else {
                (s, UiAction::Nothing)
            }
        },
        BrowseKey::Esc => (s, UiAction::Quit),
        BrowseKey::Tab => (s, UiAction::BeginPathEdit),
        BrowseKey::Insert => toggle_mark_step(s),
        BrowseKey::F(n) => {
            if n == 5 {
                (s, UiAction::CopyToClipboard)
            } else if n == 2 {
                rename_step(s)
            } else if n == 4 {
                on_entry(s, UiAction::EditSelected)
            } else {
                (s, UiAction::Nothing)
            }
        },
        BrowseKey::Delete => on_entry(s, UiAction::ConfirmDelete),
        BrowseKey::Up => (arrow_step(s, true, k.repeat), UiAction::Nothing),
        BrowseKey::Down => (arrow_step(s, false, k.repeat), UiAction::Nothing),
        BrowseKey::PageUp => (page_up_step(s), UiAction::Nothing),
        BrowseKey::PageDown => (page_down_step(s), UiAction::Nothing),
        BrowseKey::Home => (with_selected(s, 0), UiAction::Nothing),
        BrowseKey::End => (if s.marked.len() > 0 { with_selected(s, (s.marked.len() - 1) as usize) } else { s }, UiAction::Nothing),
        BrowseKey::Left | BrowseKey::Backspace => (s, UiAction::LeaveOrParent),
        BrowseKey::Enter | BrowseKey::Right => on_entry(s, UiAction::OpenSelected),
        _ => (s, UiAction::Nothing),
    }
}

/// How many entries are marked, and the first marked one.
fn count_marks(m: &Vec<bool>) -> (r: (usize, Option<usize>))
    ensures
        r.0 == mark_count(m@),
        r.1 matches Some(f) ==> f == first_marked(m@),
        r.1 is None ==> first_marked(m@) == -1,
        r.0 <= m@.len(),
{
    let mut c: usize = 0;
    let mut first: Option<usize> = None;
    let mut i: usize = 0;
    while i < m.len()
        invariant
            i <= m@.len(),
            c == mark_count(m@.take(i as int)),
            c <= i,
            first matches Some(f) ==> f == first_marked(m@.take(i as int)),
            first is None ==> first_marked(m@.take(i as int)) == -1,
        decreases m.len() - i,
    {
        proof {
            assert(m@.take(i + 1).drop_last() =~= m@.take(i as int));
            assert(m@.take(i + 1).last() == m@[i as int]);
        }
        if m[i] {
            c = c + 1;
            if first.is_none() {
                first = Some(i);
            }
        }
        i = i + 1;
    }
    assert(m@.take(m@.len() as int) =~= m@);
    (c, first)
}

/// Whether every entry is marked.
fn every_marked(m: &Vec<bool>) -> (r: bool)
    ensures
        r == all_marked(m@),
{
    let mut i: usize = 0;
    while i < m.len()
        invariant
            i <= m@.len(),
            forall|j: int| 0 <= j < i ==> #[trigger] m@[j],
        decreases m.len() - i,
    {
        if !m[i] {
            return false;
        }
        i = i + 1;
    }
    true
}

/// The first marked entry lies before the end of the marks.
proof fn lemma_first_marked_below(m: Seq<bool>)
    ensures
        first_marked(m) < m.len(),
        first_marked(m) >= -1,
    decreases m.len(),
{
    if m.len() > 0 {
        lemma_first_marked_below(m.drop_last());
    }
}

impl BrowserState {
    /// Handles a key in the browsing view (see [`key_step_spec`]).
    pub fn handle_key(&mut self, k: KeyInput) -> (a: UiAction)
        requires
            browser_wf(old(self)@),
        ensures
            browser_wf(final(self)@),
            (final(self)@, a) == key_step_spec(old(self)@, k),
    {
        let n = self.marked.len();
        match k.key {
            BrowseKey::Char(c) => {
                if c == 'q' {
                    UiAction::Quit
                } else if c == '`' {
                    UiAction::TogglePreviewMode
                } else if c == ';' {
                    UiAction::BeginCommand
                } else if c == 'h' {
                    UiAction::ShowHelp
                } else if c == 'H' {
                    UiAction::ShowGitLog
                } else if c == ' ' {
                    self.toggle_mark()
                } else if c == '*' {
                    self.toggle_all()
                } else if c == 'c' && k.ctrl {
                    UiAction::CopyPathsToSystemClipboard
                } else if c == 'n' && k.ctrl {
                    UiAction::BeginNoteEdit
                } else if c == 'z' && k.ctrl {
                    UiAction::DropToShell
                } else if c == 'c' {
                    UiAction::CopyToClipboard
                } else if c == 'v' {
                    UiAction::BeginPaste
                } else if c == 'm' {
                    UiAction::BeginMove
                } else if c == 'e' && k.ctrl {
                    UiAction::EditSystemClipboard
                } else if c == 'd' {
                    if n > 0 { UiAction::ConfirmDelete } else { UiAction::Nothing }
                } else if c == 'x' {
                    UiAction::ToggleExecutable
                } else if c == 'p' {
                    if n > 0 { UiAction::ToggleAgeProtection } else { UiAction::Nothing }
                } else if c == 's' && k.ctrl {
                    UiAction::OpenSortMenu
                } else if c == 's' {
                    self.folder_sizes = !self.folder_sizes;
                    UiAction::FolderSizesChanged
                } else if c == '+' {
                    UiAction::ExpandTree
                } else if c == '-' {
                    UiAction::CollapseTree
                } else if c == 'C' {
                    UiAction::CompareWithDelta
                } else if c == 'o' {
                    UiAction::OpenWithDefaultApp
                } else if c == 't' {
                    UiAction::OpenTodo
                } else if c == 'i' {
                    UiAction::OpenSplitPager
                } else if c == 'E' {
                    UiAction::OpenSplitEditor
                } else if c == 'l' {
                    if n > 0 { UiAction::ViewInPager } else { UiAction::Nothing }
                } else if c == 'n' {
                    UiAction::BeginNewFile
                } else if c == 'N' {
                    UiAction::BeginNewFolder
                } else if c == 'Z' {
                    UiAction::ArchiveFlow
                } else if c == '~' {
                    UiAction::GoHome
                } else if c == 'b' {
                    UiAction::ShowBookmarks
                } else if c == 'I' {
                    UiAction::ShowIntegrations
                } else if c == 'S' {
                    UiAction::ShowRemotePicker
                } else if '0' <= c && c <= '9' {
                    UiAction::JumpToBookmark((c as u32 - '0' as u32) as u8)
                } else if c == '.' {
                    self.show_hidden = !self.show_hidden;
                    UiAction::HiddenChanged
                } else if c == 'r' {
                    self.rename()
                } else if c == 'g' {
                    UiAction::ContentSearch
                } else if c == 'G' {
                    UiAction::GitCommitFlow
                } else if c == 'f' {
                    UiAction::FuzzyFind
                } else if c == 'e' {
                    if n > 0 { UiAction::EditSelected } else { UiAction::Nothing }
                } else {
                    UiAction::Nothing
                }
            },
            BrowseKey::Esc => UiAction::Quit,
            BrowseKey::Tab => UiAction::BeginPathEdit,
            BrowseKey::Insert => self.toggle_mark(),
            BrowseKey::F(f) => {
                if f == 5 {
                    UiAction::CopyToClipboard
                } else if f == 2 {
                    self.rename()
                } else if f == 4 {
                    if n > 0 { UiAction::EditSelected } else { UiAction::Nothing }
                } else {
                    UiAction::Nothing
                }
            },
            BrowseKey::Delete => {
                if n > 0 { UiAction::ConfirmDelete } else { UiAction::Nothing }
            },
            BrowseKey::Up => {
                if n > 0 {
                    self.selected = self.selected.saturating_sub(k.repeat);
                }
                UiAction::Nothing
            },
            BrowseKey::Down => {
                if n > 0 {
                    let t = self.selected.saturating_add(k.repeat);
                    self.selected = if t > n - 1 { n - 1 } else { t };
                }
                UiAction::Nothing
            },
            BrowseKey::PageUp => {
                if self.preview_enabled {
                    self.preview_scroll = self.preview_scroll.saturating_sub(8);
                } else {
                    self.selected = self.selected.saturating_sub(self.page_size);
                }
                UiAction::Nothing
            },
            BrowseKey::PageDown => {
                if self.preview_enabled {
                    self.preview_scroll = self.preview_scroll.saturating_add(8);
                } else if n > 0 {
                    let t = self.selected.saturating_add(self.page_size);
                    self.selected = if t < n - 1 { t } else { n - 1 };
                }
                UiAction::Nothing
            },
            BrowseKey::Home => {
                self.selected = 0;
                UiAction::Nothing
            },
            BrowseKey::End => {
                if n > 0 {
                    self.selected = n - 1;
                }
                UiAction::Nothing
            },
            BrowseKey::Left | BrowseKey::Backspace => UiAction::LeaveOrParent,
            BrowseKey::Enter | BrowseKey::Right => {
                if n > 0 { UiAction::OpenSelected } else { UiAction::Nothing }
            },
            _ => UiAction::Nothing,
        }
    }

    /// Space (see [`toggle_mark_step`]).
    fn toggle_mark(&mut self) -> (a: UiAction)
        requires
            browser_wf(old(self)@),
        ensures
            browser_wf(final(self)@),
            (final(self)@, a) == toggle_mark_step(old(self)@),
    {
        let n = self.marked.len();
        if n == 0 {
            return UiAction::Nothing;
        }
        let i = self.selected;
        let v = !self.marked[i];
        self.marked.set(i, v);
        if i + 1 < n {
            self.selected = i + 1;
        }
        UiAction::ScanMarkedSizes
    }

    /// `*` (see [`toggle_all_step`]).
    fn toggle_all(&mut self) -> (a: UiAction)
        requires
            browser_wf(old(self)@),
        ensures
            browser_wf(final(self)@),
            (final(self)@, a) == toggle_all_step(old(self)@),
    {
        let n = self.marked.len();
        if n == 0 {
            return UiAction::Nothing;
        }
        let v = !every_marked(&self.marked);
        let mut m: Vec<bool> = Vec::new();
        let mut i: usize = 0;
        while i < n
            invariant
                i <= n,
                m@.len() == i,
                forall|j: int| 0 <= j < i ==> #[trigger] m@[j] == v,
            decreases n - i,
        {
            m.push(v);
            i = i + 1;
        }
        assert(m@ =~= Seq::new(n as nat, |j: int| v));
        self.marked = m;
        UiAction::ScanMarkedSizes
    }

    /// F2 or `r` (see [`rename_step`]).
    fn rename(&mut self) -> (a: UiAction)
        requires
            browser_wf(old(self)@),
        ensures
            browser_wf(final(self)@),
            (final(self)@, a) == rename_step(old(self)@),
    {
        let n = self.marked.len();
        let (c, first) = count_marks(&self.marked);
        proof { lemma_first_marked_below(self.marked@); }
        if c > 1 {
            return UiAction::BulkRename;
        }
        let t = if c == 1 {
            match first {
                Some(f) => f,
                None => return UiAction::Nothing,
            }
        } else {
            self.selected
        };
        if t < n {
            self.selected = t;
            UiAction::BeginRename(t)
        } else {
            UiAction::Nothing
        }
    }
}

/// A mouse event.
#[derive(Clone, Copy, PartialEq, Eq, Structural, Debug)]
pub enum MouseInput {
    ScrollUp,
    ScrollDown,
    RightDown,
    LeftDown,
    LeftDrag,
    LeftUp,
    Other,
}

/// Whether the listing's scrollbar is being dragged, and where on its
/// thumb it was grabbed.
#[derive(Clone, Copy, PartialEq, Eq, Structural, Debug)]
pub struct DragState {
    pub dragging: bool,
    pub grab_offset: u16,
}

/// What the program does after a mouse event.
#[derive(Clone, Copy, PartialEq, Eq, Structural, Debug)]
pub enum MouseAction {
    Nothing,
    /// Scroll the view under the mouse (up when `true`).
    Scroll(bool),
    /// Handle the event as a press of Left.
    PressLeft,
    /// Scroll the listing to the scrollbar row under the mouse, the thumb
    /// held at this offset.
    DragScrollbar(u16),
    /// Try the clickable parts of the screen in turn: the listing, the
    /// overlay's close mark and tabs, its rows, the dialogs' buttons.
    ClickScreen,
}

/// Where on the scrollbar's thumb a press on the row `row` of the
/// scrollbar `sb` grabs it, for a list of `total` rows shown from `offset`:
/// the offset into the thumb when pressed on it, else the thumb's middle;
/// `None` when the list does not scroll.
pub open spec fn scrollbar_grab_spec(sb: Area, row: u16, total: int, offset: int) -> Option<u16> {
    let track_h = sb.height as int;
    let visible: int = if sb.height >= 1 { sb.height as int } else { 1 };
    let max_scroll: int = if total > visible { total - visible } else { 0 };
    if track_h > 0 && max_scroll > 0 {
        let off: int = if offset < max_scroll { offset } else { max_scroll };
        let raw: int = (visible * track_h + (total - 1)) / total;
        let thumb_h: int = if raw < 1 { 1 } else if raw > track_h { track_h } else { raw };
        let thumb_y: int = (off * (track_h - thumb_h) + max_scroll / 2) / max_scroll;
        let row_rel: int = if row >= sb.y { row - sb.y } else { 0 };
        Some((if thumb_y <= row_rel < thumb_y + thumb_h { row_rel - thumb_y } else { thumb_h / 2 }) as u16)
    } else {
        None
    }
}

/// Where a press on the scrollbar grabs its thumb (see
/// [`scrollbar_grab_spec`]).
pub fn scrollbar_grab(sb: Area, row: u16, total: usize, offset: usize) -> (r: Option<u16>)
    ensures
        r == scrollbar_grab_spec(sb, row, total as int, offset as int),
{
    let track_h: u128 = sb.height as u128;
    let visible: u128 = if sb.height >= 1 { sb.height as u128 } else { 1 };
    let total_w: u128 = total as u128;
    let max_scroll: u128 = if total_w > visible { total_w - visible } else { 0 };
    if !(track_h > 0 && max_scroll > 0) {
        return None;
    }
    let offset_w: u128 = offset as u128;
    let off: u128 = if offset_w < max_scroll { offset_w } else { max_scroll };
    assert(visible * track_h <= 65535 * 65535) by (nonlinear_arith)
        requires visible <= 65535, track_h <= 65535;
    let raw: u128 = (visible * track_h + (total_w - 1)) / total_w;
    let thumb_h: u128 = if raw < 1 { 1 } else if raw > track_h { track_h } else { raw };
    let space: u128 = track_h - thumb_h;
    assert(off * space <= max_scroll * 65535) by (nonlinear_arith)
        requires off <= max_scroll, space <= 65535;
    assert(max_scroll * 65535 <= 0x1_0000_0000_0000_0000 * 65535) by (nonlinear_arith)
        requires max_scroll <= 0x1_0000_0000_0000_0000;
    let thumb_y: u128 = (off * space + max_scroll / 2) / max_scroll;
    let row_rel: u128 = if row >= sb.y { (row - sb.y) as u128 } else { 0 };
    let g: u128 = if thumb_y <= row_rel && row_rel < thumb_y + thumb_h { row_rel - thumb_y } else { thumb_h / 2 };
    Some(g as u16)
}

/// What a mouse event does: the wheel scrolls; a right press acts as Left
/// where the browsing view or the path editor is shown; a left press on
/// the listing's scrollbar `scrollbar` (when the list scrolls) grabs it and
/// scrolls to the row pressed, any other left press tries the clickable
/// parts of the screen; a drag moves a grabbed scrollbar; a release lets go
/// of it. `total` rows are listed, shown from `offset`.
pub open spec fn mouse_step_spec(
    d: DragState,
    ev: MouseInput,
    column: u16,
    row: u16,
    left_is_back: bool,
    scrollbar: Option<Area>,
    total: int,
    offset: int,
) -> (DragState, MouseAction) {
    match ev {
        MouseInput::ScrollUp => (d, MouseAction::Scroll(true)),
        MouseInput::ScrollDown => (d, MouseAction::Scroll(false)),
        MouseInput::RightDown => (
            DragState { dragging: false, ..d },
            if left_is_back { MouseAction::PressLeft } else { MouseAction::Nothing },
        ),
        MouseInput::LeftDown => match scrollbar {
            Some(sb) if inside(sb, column, row) && scrollbar_grab_spec(sb, row, total, offset) is Some => {
                let g = scrollbar_grab_spec(sb, row, total, offset)->0;
                (DragState { dragging: true, grab_offset: g }, MouseAction::DragScrollbar(g))
            },
            _ => (DragState { dragging: false, ..d }, MouseAction::ClickScreen),
        },
        MouseInput::LeftDrag => if d.dragging {
            (d, MouseAction::DragScrollbar(d.grab_offset))
        } else {
            (d, MouseAction::Nothing)
        },
        MouseInput::LeftUp => (DragState { dragging: false, ..d }, MouseAction::Nothing),
        MouseInput::Other => (d, MouseAction::Nothing),
    }
}

impl DragState {
    /// Handles a mouse event (see [`mouse_step_spec`]).
    pub fn handle_mouse(
        &mut self,
        ev: MouseInput,
        column: u16,
        row: u16,
        left_is_back: bool,
        scrollbar: Option<Area>,
        total: usize,
        offset: usize,
    ) -> (a: MouseAction)
        ensures
            (*final(self), a) == mouse_step_spec(*old(self), ev, column, row, left_is_back, scrollbar, total as int, offset as int),
    {
        match ev {
            MouseInput::ScrollUp => MouseAction::Scroll(true),
            MouseInput::ScrollDown => MouseAction::Scroll(false),
            MouseInput::RightDown => {
                self.dragging = false;
                if left_is_back { MouseAction::PressLeft } else { MouseAction::Nothing }
            },
            MouseInput::LeftDown => {
                if let Some(sb) = scrollbar {
                    let hit = (column as u32) >= (sb.x as u32) && (column as u32) < (sb.x as u32) + (sb.width as u32)
                        && (row as u32) >= (sb.y as u32) && (row as u32) < (sb.y as u32) + (sb.height as u32);
                    if hit {
                        if let Some(g) = scrollbar_grab(sb, row, total, offset) {
                            self.dragging = true;
                            self.grab_offset = g;
                            return MouseAction::DragScrollbar(g);
                        }
                    }
                }
                self.dragging = false;
                MouseAction::ClickScreen
            },
            MouseInput::LeftDrag => {
                if self.dragging { MouseAction::DragScrollbar(self.grab_offset) } else { MouseAction::Nothing }
            },
            MouseInput::LeftUp => {
                self.dragging = false;
                MouseAction::Nothing
            },
            MouseInput::Other => MouseAction::Nothing,
        }
    }
}


/// `s` (without Ctrl) and `.` switch folder sizes and hidden entries: a
/// second press of the same key gives back the state before the first.
pub proof fn lemma_switch_keys_undo(s: BrowserView, k: KeyInput)
    requires
        k.key == BrowseKey::Char('s') && !k.ctrl || k.key == BrowseKey::Char('.'),
    ensures
        key_step_spec(key_step_spec(s, k).0, k).0 == s,
{
}

/// `*` on a non-empty list leaves every entry marked alike: all marked,
/// unless all were marked before, then none.
pub proof fn lemma_toggle_all_uniform(s: BrowserView, k: KeyInput)
    requires
        k.key == BrowseKey::Char('*'),
        s.marked.len() > 0,
    ensures
        key_step_spec(s, k).0.marked.len() == s.marked.len(),
        forall|i: int| 0 <= i < s.marked.len() ==> #[trigger] key_step_spec(s, k).0.marked[i] == !all_marked(s.marked),
{
}

/// The navigation keys move the selection or the preview only: the marks
/// and the view's switches stay as they were, and the selection stays on
/// the list.
pub proof fn lemma_navigation_keeps_marks(s: BrowserView, k: KeyInput)
    requires
        browser_wf(s),
        k.key == BrowseKey::Up || k.key == BrowseKey::Down || k.key == BrowseKey::PageUp
            || k.key == BrowseKey::PageDown || k.key == BrowseKey::Home || k.key == BrowseKey::End,
    ensures
        key_step_spec(s, k).0.marked == s.marked,
        key_step_spec(s, k).0.show_hidden == s.show_hidden,
        key_step_spec(s, k).0.folder_sizes == s.folder_sizes,
        key_step_spec(s, k).1 == UiAction::Nothing,
        browser_wf(key_step_spec(s, k).0),
{
}


/// The tabbed panels that keys move between.
#[derive(Clone, Copy, PartialEq, Eq, Structural, Debug)]
pub enum Panel {
    Help,
    Bookmarks,
    RemotePicker,
    SortMenu,
    Integrations,
}

/// The state of the open panel: which one it is, and each panel's
/// selection or scroll with the size that bounds it.
#[derive(Clone, Copy, PartialEq, Eq, Structural, Debug)]
pub struct PanelState {
    pub panel: Panel,
    pub help_scroll: usize,
    pub help_max: usize,
    pub bookmark_selected: usize,
    pub bookmarks_len: usize,
    pub remote_selected: usize,
    pub remotes_len: usize,
    pub sort_selected: usize,
    pub sort_options_len: usize,
    /// The place of the listing's sort mode among the options.
    pub current_sort_index: usize,
    pub integration_selected: usize,
    pub integration_count: usize,
}

/// What the program does after a key in a panel.
#[derive(Clone, Copy, PartialEq, Eq, Structural, Debug)]
pub enum PanelAction {
    Nothing,
    /// Close the panel and go back to browsing.
    Close,
    /// Another panel is shown now: bring its contents up to date.
    Switched(Panel),
    /// Leave for the search panel.
    OpenSearch,
    ToggleAllIntegrations,
    /// Switch the integration at this place of the catalogue on or off.
    ToggleIntegration(usize),
    /// Ask to install the selected integration (the row given).
    InstallIntegration(usize),
    /// Sort the listing by the option at this place, and go back.
    CommitSort(usize),
    ConnectRemote(usize),
    UnmountRemote(usize),
    /// Go to this bookmark, and back to browsing.
    EnterBookmark(u8),
}

/// One row up, not past the first.
pub open spec fn row_up(v: usize) -> usize {
    if v > 0 { (v - 1) as usize } else { 0 }
}

/// `n` rows down, not past `max`.
pub open spec fn rows_down(v: usize, n: usize, max: usize) -> usize {
    if v + n <= max { (v + n) as usize } else { max }
}

/// The last row of a list of `len`, or 0.
pub open spec fn last_row(len: usize) -> usize {
    if len > 0 { (len - 1) as usize } else { 0 }
}

/// The panel Tab shows after `p`, or `None` for the search panel.
pub open spec fn next_panel(p: Panel) -> Option<Panel> {
    match p {
        Panel::Help => None,
        Panel::Bookmarks => Some(Panel::RemotePicker),
        Panel::RemotePicker => Some(Panel::SortMenu),
        Panel::SortMenu => Some(Panel::Integrations),
        Panel::Integrations => Some(Panel::Help),
    }
}

/// The panel Shift+Tab shows before `p`, or `None` for the search panel.
pub open spec fn previous_panel(p: Panel) -> Option<Panel> {
    match p {
        Panel::Help => Some(Panel::Integrations),
        Panel::Bookmarks => None,
        Panel::RemotePicker => Some(Panel::Bookmarks),
        Panel::SortMenu => Some(Panel::RemotePicker),
        Panel::Integrations => Some(Panel::SortMenu),
    }
}

/// The state on switching to panel `p`: help opens at its top, the sort
/// menu on the listing's sort mode, the integrations on their first row.
pub open spec fn switched_to(s: PanelState, p: Panel) -> PanelState {
    match p {
        Panel::Help => PanelState { panel: p, help_scroll: 0, ..s },
        Panel::SortMenu => PanelState { panel: p, sort_selected: s.current_sort_index, ..s },
        Panel::Integrations => PanelState { panel: p, integration_selected: 0, ..s },
        _ => PanelState { panel: p, ..s },
    }
}

/// Tab or Shift+Tab to the panel `target` (`None`: the search panel).
pub open spec fn tab_to(s: PanelState, target: Option<Panel>) -> (PanelState, PanelAction) {
    match target {
        Some(p) => (switched_to(s, p), PanelAction::Switched(p)),
        None => (s, PanelAction::OpenSearch),
    }
}

/// What a key does in the open panel: Tab and Shift+Tab move through the
/// panels; the arrows, Page Up/Down, Home and End scroll or select; Enter
/// (or Right) acts on the selected row; Esc and `q` close the panel (with
/// `h` in help, `I` in the integrations, `b` in the bookmarks, Left in the
/// sort menu); Space switches an integration (the first row: all of them);
/// `u` or Delete unmounts the selected remote; a digit picks a bookmark.
pub open spec fn panel_key_spec(s: PanelState, key: BrowseKey) -> (PanelState, PanelAction) {
    match key {
        BrowseKey::Tab => tab_to(s, next_panel(s.panel)),
        BrowseKey::BackTab => tab_to(s, previous_panel(s.panel)),
        _ => match s.panel {
            Panel::Help => help_key_spec(s, key),
            Panel::Integrations => integrations_key_spec(s, key),
            Panel::SortMenu => sort_menu_key_spec(s, key),
            Panel::RemotePicker => remote_key_spec(s, key),
            Panel::Bookmarks => bookmarks_key_spec(s, key),
        },
    }
}

/// A key in the help panel (see [`panel_key_spec`]).
pub open spec fn help_key_spec(s: PanelState, key: BrowseKey) -> (PanelState, PanelAction) {
    match key {
        BrowseKey::Esc => (s, PanelAction::Close),
        BrowseKey::Char(c) if c == 'h' || c == 'q' => (s, PanelAction::Close),
        BrowseKey::Up => (PanelState { help_scroll: row_up(s.help_scroll), ..s }, PanelAction::Nothing),
        BrowseKey::Down => (PanelState { help_scroll: rows_down(s.help_scroll, 1, s.help_max), ..s }, PanelAction::Nothing),
        BrowseKey::PageUp => (
            PanelState { help_scroll: (if s.help_scroll >= 10 { s.help_scroll - 10 } else { 0 }) as usize, ..s },
            PanelAction::Nothing,
        ),
        BrowseKey::PageDown => (PanelState { help_scroll: rows_down(s.help_scroll, 10, s.help_max), ..s }, PanelAction::Nothing),
        BrowseKey::Home => (PanelState { help_scroll: 0, ..s }, PanelAction::Nothing),
        BrowseKey::End => (PanelState { help_scroll: s.help_max, ..s }, PanelAction::Nothing),
        _ => (s, PanelAction::Nothing),
    }
}

/// A key in the integrations panel (see [`panel_key_spec`]).
pub open spec fn integrations_key_spec(s: PanelState, key: BrowseKey) -> (PanelState, PanelAction) {
    match key {
        BrowseKey::Esc => (s, PanelAction::Close),
        BrowseKey::Char(c) if c == 'I' || c == 'q' => (s, PanelAction::Close),
        BrowseKey::Char(c) if c == ' ' => (
            s,
            if s.integration_selected == 0 {
                PanelAction::ToggleAllIntegrations
            } else {
                PanelAction::ToggleIntegration((s.integration_selected - 1) as usize)
            },
        ),
        BrowseKey::Up => (PanelState { integration_selected: row_up(s.integration_selected), ..s }, PanelAction::Nothing),
        BrowseKey::Down => (
            PanelState { integration_selected: rows_down(s.integration_selected, 1, last_row(s.integration_count)), ..s },
            PanelAction::Nothing,
        ),
        BrowseKey::Enter => (s, PanelAction::InstallIntegration(s.integration_selected)),
        _ => (s, PanelAction::Nothing),
    }
}

/// A key in the sort menu (see [`panel_key_spec`]).
pub open spec fn sort_menu_key_spec(s: PanelState, key: BrowseKey) -> (PanelState, PanelAction) {
    match key {
        BrowseKey::Esc | BrowseKey::Left => (s, PanelAction::Close),
        BrowseKey::Char(c) if c == 'q' => (s, PanelAction::Close),
        BrowseKey::Up => (PanelState { sort_selected: row_up(s.sort_selected), ..s }, PanelAction::Nothing),
        BrowseKey::Down => (
            PanelState { sort_selected: rows_down(s.sort_selected, 1, last_row(s.sort_options_len)), ..s },
            PanelAction::Nothing,
        ),
        BrowseKey::Enter | BrowseKey::Right => (s, PanelAction::CommitSort(s.sort_selected)),
        _ => (s, PanelAction::Nothing),
    }
}

/// A key in the remote picker (see [`panel_key_spec`]).
pub open spec fn remote_key_spec(s: PanelState, key: BrowseKey) -> (PanelState, PanelAction) {
    match key {
        BrowseKey::Esc => (s, PanelAction::Close),
        BrowseKey::Char(c) => if c == 'q' {
            (s, PanelAction::Close)
        } else if c == 'u' && s.remote_selected < s.remotes_len {
            (s, PanelAction::UnmountRemote(s.remote_selected))
        } else {
            (s, PanelAction::Nothing)
        },
        BrowseKey::Up => (PanelState { remote_selected: row_up(s.remote_selected), ..s }, PanelAction::Nothing),
        BrowseKey::Down => (
            PanelState {
                remote_selected: if s.remotes_len > 0 && s.remote_selected < s.remotes_len - 1 {
                    (s.remote_selected + 1) as usize
                } else {
                    s.remote_selected
                },
                ..s
            },
            PanelAction::Nothing,
        ),
        BrowseKey::Enter | BrowseKey::Right => (
            s,
            if s.remote_selected < s.remotes_len { PanelAction::ConnectRemote(s.remote_selected) } else { PanelAction::Nothing },
        ),
        BrowseKey::Delete => (
            s,
            if s.remote_selected < s.remotes_len { PanelAction::UnmountRemote(s.remote_selected) } else { PanelAction::Nothing },
        ),
        _ => (s, PanelAction::Nothing),
    }
}

/// A key in the bookmarks panel (see [`panel_key_spec`]).
pub open spec fn bookmarks_key_spec(s: PanelState, key: BrowseKey) -> (PanelState, PanelAction) {
    match key {
        BrowseKey::Esc => (s, PanelAction::Close),
        BrowseKey::Char(c) => if c == 'b' || c == 'q' {
            (s, PanelAction::Close)
        } else if '0' <= c <= '9' {
            (s, PanelAction::EnterBookmark((c as u32 - '0' as u32) as u8))
        } else {
            (s, PanelAction::Nothing)
        },
        BrowseKey::Up => (PanelState { bookmark_selected: row_up(s.bookmark_selected), ..s }, PanelAction::Nothing),
        BrowseKey::Down => (
            PanelState { bookmark_selected: rows_down(s.bookmark_selected, 1, last_row(s.bookmarks_len)), ..s },
            PanelAction::Nothing,
        ),
        BrowseKey::Enter | BrowseKey::Right => (s, PanelAction::EnterBookmark((s.bookmark_selected % 256) as u8)),
        _ => (s, PanelAction::Nothing),
    }
}

/// Moves `v` `n` rows down, not past `max`.
fn down_by(v: usize, n: usize, max: usize) -> (r: usize)
    ensures
        r == rows_down(v, n, max),
{
    if v <= max && n <= max - v { v + n } else { max }
}

impl PanelState {
    /// Tab or Shift+Tab to `target` (see [`tab_to`]).
    fn tab_to(&mut self, target: Option<Panel>) -> (a: PanelAction)
        ensures
            (*final(self), a) == tab_to(*old(self), target),
    {
        match target {
            Some(p) => {
                self.panel = p;
                match p {
                    Panel::Help => self.help_scroll = 0,
                    Panel::SortMenu => self.sort_selected = self.current_sort_index,
                    Panel::Integrations => self.integration_selected = 0,
                    _ => {},
                }
                PanelAction::Switched(p)
            },
            None => PanelAction::OpenSearch,
        }
    }

    /// Handles a key in the open panel (see [`panel_key_spec`]).
    pub fn handle_panel_key(&mut self, key: BrowseKey) -> (a: PanelAction)
        ensures
            (*final(self), a) == panel_key_spec(*old(self), key),
    {
        if key == BrowseKey::Tab {
            let t = match self.panel {
                Panel::Help => None,
                Panel::Bookmarks => Some(Panel::RemotePicker),
                Panel::RemotePicker => Some(Panel::SortMenu),
                Panel::SortMenu => Some(Panel::Integrations),
                Panel::Integrations => Some(Panel::Help),
            };
            return self.tab_to(t);
        }
        if key == BrowseKey::BackTab {
            let t = match self.panel {
                Panel::Help => Some(Panel::Integrations),
                Panel::Bookmarks => None,
                Panel::RemotePicker => Some(Panel::Bookmarks),
                Panel::SortMenu => Some(Panel::RemotePicker),
                Panel::Integrations => Some(Panel::SortMenu),
            };
            return self.tab_to(t);
        }
        match self.panel {
            Panel::Help => self.help_key(key),
            Panel::Integrations => self.integrations_key(key),
            Panel::SortMenu => self.sort_menu_key(key),
            Panel::RemotePicker => self.remote_key(key),
            Panel::Bookmarks => self.bookmarks_key(key),
        }
    }

    fn help_key(&mut self, key: BrowseKey) -> (a: PanelAction)
        ensures
            (*final(self), a) == help_key_spec(*old(self), key),
    {
        match key {
            BrowseKey::Esc => PanelAction::Close,
            BrowseKey::Char(c) if c == 'h' || c == 'q' => PanelAction::Close,
            BrowseKey::Up => {
                self.help_scroll = self.help_scroll.saturating_sub(1);
                PanelAction::Nothing
            },
            BrowseKey::Down => {
                self.help_scroll = down_by(self.help_scroll, 1, self.help_max);
                PanelAction::Nothing
            },
            BrowseKey::PageUp => {
                self.help_scroll = self.help_scroll.saturating_sub(10);
                PanelAction::Nothing
            },
            BrowseKey::PageDown => {
                self.help_scroll = down_by(self.help_scroll, 10, self.help_max);
                PanelAction::Nothing
            },
            BrowseKey::Home => {
                self.help_scroll = 0;
                PanelAction::Nothing
            },
            BrowseKey::End => {
                self.help_scroll = self.help_max;
                PanelAction::Nothing
            },
            _ => PanelAction::Nothing,
        }
    }

    fn integrations_key(&mut self, key: BrowseKey) -> (a: PanelAction)
        ensures
            (*final(self), a) == integrations_key_spec(*old(self), key),
    {
        match key {
            BrowseKey::Esc => PanelAction::Close,
            BrowseKey::Char(c) if c == 'I' || c == 'q' => PanelAction::Close,
            BrowseKey::Char(c) if c == ' ' => {
                if self.integration_selected == 0 {
                    PanelAction::ToggleAllIntegrations
                } else {
                    PanelAction::ToggleIntegration(self.integration_selected - 1)
                }
            },
            BrowseKey::Up => {
                self.integration_selected = self.integration_selected.saturating_sub(1);
                PanelAction::Nothing
            },
            BrowseKey::Down => {
                self.integration_selected = down_by(self.integration_selected, 1, self.integration_count.saturating_sub(1));
                PanelAction::Nothing
            },
            BrowseKey::Enter => PanelAction::InstallIntegration(self.integration_selected),
            _ => PanelAction::Nothing,
        }
    }

    fn sort_menu_key(&mut self, key: BrowseKey) -> (a: PanelAction)
        ensures
            (*final(self), a) == sort_menu_key_spec(*old(self), key),
    {
        match key {
            BrowseKey::Esc | BrowseKey::Left => PanelAction::Close,
            BrowseKey::Char(c) if c == 'q' => PanelAction::Close,
            BrowseKey::Up => {
                self.sort_selected = self.sort_selected.saturating_sub(1);
                PanelAction::Nothing
            },
            BrowseKey::Down => {
                self.sort_selected = down_by(self.sort_selected, 1, self.sort_options_len.saturating_sub(1));
                PanelAction::Nothing
            },
            BrowseKey::Enter | BrowseKey::Right => PanelAction::CommitSort(self.sort_selected),
            _ => PanelAction::Nothing,
        }
    }

    fn remote_key(&mut self, key: BrowseKey) -> (a: PanelAction)
        ensures
            (*final(self), a) == remote_key_spec(*old(self), key),
    {
        match key {
            BrowseKey::Esc => PanelAction::Close,
            BrowseKey::Char(c) => {
                if c == 'q' {
                    PanelAction::Close
                } else if c == 'u' && self.remote_selected < self.remotes_len {
                    PanelAction::UnmountRemote(self.remote_selected)
                } else {
                    PanelAction::Nothing
                }
            },
            BrowseKey::Up => {
                self.remote_selected = self.remote_selected.saturating_sub(1);
                PanelAction::Nothing
            },
            BrowseKey::Down => {
                if self.remotes_len > 0 && self.remote_selected < self.remotes_len - 1 {
                    self.remote_selected = self.remote_selected + 1;
                }
                PanelAction::Nothing
            },
            BrowseKey::Enter | BrowseKey::Right => {
                if self.remote_selected < self.remotes_len {
                    PanelAction::ConnectRemote(self.remote_selected)
                } else {
                    PanelAction::Nothing
                }
            },
            BrowseKey::Delete => {
                if self.remote_selected < self.remotes_len {
                    PanelAction::UnmountRemote(self.remote_selected)
                } else {
                    PanelAction::Nothing
                }
            },
            _ => PanelAction::Nothing,
        }
    }

    fn bookmarks_key(&mut self, key: BrowseKey) -> (a: PanelAction)
        ensures
            (*final(self), a) == bookmarks_key_spec(*old(self), key),
    {
        match key {
            BrowseKey::Esc => PanelAction::Close,
            BrowseKey::Char(c) => {
                if c == 'b' || c == 'q' {
                    PanelAction::Close
                } else if '0' <= c && c <= '9' {
                    PanelAction::EnterBookmark((c as u32 - '0' as u32) as u8)
                } else {
                    PanelAction::Nothing
                }
            },
            BrowseKey::Up => {
                self.bookmark_selected = self.bookmark_selected.saturating_sub(1);
                PanelAction::Nothing
            },
            BrowseKey::Down => {
                self.bookmark_selected = down_by(self.bookmark_selected, 1, self.bookmarks_len.saturating_sub(1));
                PanelAction::Nothing
            },
            BrowseKey::Enter | BrowseKey::Right => PanelAction::EnterBookmark((self.bookmark_selected % 256) as u8),
            _ => PanelAction::Nothing,
        }
    }
}

/// Tab and Shift+Tab undo each other: where Tab leads from a panel to
/// another panel, Shift+Tab leads back to the first, and the reverse.
pub proof fn lemma_tab_cycle(p: Panel)
    ensures
        next_panel(p) matches Some(q) ==> previous_panel(q) == Some(p),
        previous_panel(p) matches Some(q) ==> next_panel(q) == Some(p),
{
}


/// What a key did in a text prompt.
#[derive(Clone, Copy, PartialEq, Eq, Structural, Debug)]
pub enum EditOutcome {
    /// The prompt is done: act on its text.
    Submit,
    /// The prompt is left without acting.
    Cancel,
    /// The text or the cursor may have changed.
    Edited,
    /// The key does nothing here.
    Ignored,
}

/// What a key does in a text prompt: Enter (and Tab where `tab_submits`)
/// submits, Esc cancels; Backspace, Delete, the arrows, Home and End edit
/// the text or move the cursor; a character is typed, unless `plain_only`
/// and Ctrl or Alt was held (`modified`).
pub open spec fn edit_key_spec(
    text: Seq<char>,
    cursor: int,
    key: BrowseKey,
    modified: bool,
    tab_submits: bool,
    plain_only: bool,
) -> (Seq<char>, int, EditOutcome) {
    match key {
        BrowseKey::Enter => (text, cursor, EditOutcome::Submit),
        BrowseKey::Tab => (text, cursor, if tab_submits { EditOutcome::Submit } else { EditOutcome::Ignored }),
        BrowseKey::Esc => (text, cursor, EditOutcome::Cancel),
        BrowseKey::Backspace => (backspace_spec(text, cursor).0, backspace_spec(text, cursor).1, EditOutcome::Edited),
        BrowseKey::Delete => (delete_spec(text, cursor).0, delete_spec(text, cursor).1, EditOutcome::Edited),
        BrowseKey::Left => (text, move_left_spec(cursor), EditOutcome::Edited),
        BrowseKey::Right => (text, clamp(cursor + 1, text.len() as int), EditOutcome::Edited),
        BrowseKey::Home => (text, 0, EditOutcome::Edited),
        BrowseKey::End => (text, text.len() as int, EditOutcome::Edited),
        BrowseKey::Char(c) => if plain_only && modified {
            (text, cursor, EditOutcome::Ignored)
        } else {
            (insert_spec(text, cursor, c).0, insert_spec(text, cursor, c).1, EditOutcome::Edited)
        },
        _ => (text, cursor, EditOutcome::Ignored),
    }
}

/// Handles a key in a text prompt (see [`edit_key_spec`]).
pub fn handle_edit_key(line: &mut InputLine, key: BrowseKey, modified: bool, tab_submits: bool, plain_only: bool) -> (r: EditOutcome)
    ensures
        (final(line).text_view(), final(line).cursor_view(), r) == edit_key_spec(
            old(line).text_view(),
            old(line).cursor_view(),
            key,
            modified,
            tab_submits,
            plain_only,
        ),
{
    match key {
        BrowseKey::Enter => EditOutcome::Submit,
        BrowseKey::Tab => if tab_submits { EditOutcome::Submit } else { EditOutcome::Ignored },
        BrowseKey::Esc => EditOutcome::Cancel,
        BrowseKey::Backspace => {
            line.backspace();
            EditOutcome::Edited
        },
        BrowseKey::Delete => {
            line.delete();
            EditOutcome::Edited
        },
        BrowseKey::Left => {
            line.move_left();
            EditOutcome::Edited
        },
        BrowseKey::Right => {
            if line.cursor() < line.text_len() {
                line.move_right();
            } else {
                line.move_end();
            }
            EditOutcome::Edited
        },
        BrowseKey::Home => {
            line.move_home();
            EditOutcome::Edited
        },
        BrowseKey::End => {
            line.move_end();
            EditOutcome::Edited
        },
        BrowseKey::Char(c) => {
            if plain_only && modified {
                EditOutcome::Ignored
            } else {
                line.insert_char(c);
                EditOutcome::Edited
            }
        },
        _ => EditOutcome::Ignored,
    }
}


/// The state of the search panel that keys change, beside its query: the
/// scope (names or content), the limits menu and its row, the limits, and
/// the selected result among `results_len`.
#[derive(Clone, Copy, PartialEq, Eq, Structural, Debug)]
pub struct SearchKeyState {
    pub content_scope: bool,
    pub limits_menu_open: bool,
    pub limits_selected: usize,
    pub limits: InternalSearchContentLimits,
    pub selected: usize,
    pub results_len: usize,
}

/// What the program does after a key in the search panel.
#[derive(Clone, Copy, PartialEq, Eq, Structural, Debug)]
pub enum SearchAction {
    Nothing,
    /// Stop searching and go back to browsing.
    Close,
    /// Stop searching and show help.
    ToHelp,
    /// Stop searching and show the bookmarks.
    ToBookmarks,
    /// Stop searching and go to the selected result.
    OpenSelected,
    /// Search again: the query or the limits changed.
    Refresh,
    /// Switch between searching names and contents.
    ToggleScope,
    /// Put the limits back to their settings.
    ResetLimits,
}

/// A key while the limits menu is open, if the menu takes it: Esc and
/// Enter close it, Up and Down choose a limit, Left, Right, `-`, `+` and
/// `=` step it (ten steps with Shift), `r` resets the limits, and the
/// editing keys and plain characters do nothing.
pub open spec fn limits_menu_key(s: SearchKeyState, key: BrowseKey, modified: bool, shift: bool) -> Option<(SearchKeyState, SearchAction)> {
    let stepped = |up: bool| Some((
        SearchKeyState { limits: adjusted_limits_spec(s.limits, s.limits_selected, up, shift), ..s },
        if s.content_scope { SearchAction::Refresh } else { SearchAction::Nothing },
    ));
    match key {
        BrowseKey::Esc | BrowseKey::Enter => Some((SearchKeyState { limits_menu_open: false, ..s }, SearchAction::Nothing)),
        BrowseKey::Up => Some((SearchKeyState { limits_selected: row_up(s.limits_selected), ..s }, SearchAction::Nothing)),
        BrowseKey::Down => Some((SearchKeyState { limits_selected: rows_down(s.limits_selected, 1, 2), ..s }, SearchAction::Nothing)),
        BrowseKey::Left => stepped(false),
        BrowseKey::Right => stepped(true),
        BrowseKey::Char(c) => if c == '-' {
            stepped(false)
        } else if c == '+' || c == '=' {
            stepped(true)
        } else if c == 'r' {
            Some((s, SearchAction::ResetLimits))
        } else if !modified {
            Some((s, SearchAction::Nothing))
        } else {
            None
        },
        BrowseKey::Backspace | BrowseKey::Delete | BrowseKey::PageUp | BrowseKey::PageDown | BrowseKey::Home
        | BrowseKey::End => Some((s, SearchAction::Nothing)),
        _ => None,
    }
}

/// What a key does in the search panel, to its state and to the query
/// (`text`, `cursor`): Ctrl+l opens or closes the limits menu of a content
/// search; with the menu open it takes the keys it knows (see
/// [`limits_menu_key`]); otherwise Esc, Shift+Tab and Tab leave the panel,
/// Enter opens the selected result, the arrows and Page Up/Down choose a
/// result, Ctrl+t switches the scope, and the editing keys and characters
/// (without Ctrl or Alt, `modified`) edit the query.
pub open spec fn search_key_spec(
    s: SearchKeyState,
    text: Seq<char>,
    cursor: int,
    key: BrowseKey,
    ctrl: bool,
    modified: bool,
    shift: bool,
) -> (SearchKeyState, Seq<char>, int, SearchAction) {
    if key == BrowseKey::Char('l') && ctrl {
        (SearchKeyState { limits_menu_open: if s.content_scope { !s.limits_menu_open } else { s.limits_menu_open }, ..s }, text, cursor, SearchAction::Nothing)
    } else if s.limits_menu_open && limits_menu_key(s, key, modified, shift) is Some {
        let r = limits_menu_key(s, key, modified, shift)->0;
        (r.0, text, cursor, r.1)
    } else {
        match key {
            BrowseKey::Esc => (s, text, cursor, SearchAction::Close),
            BrowseKey::BackTab => (s, text, cursor, SearchAction::ToHelp),
            BrowseKey::Tab => (s, text, cursor, SearchAction::ToBookmarks),
            BrowseKey::Enter => (s, text, cursor, SearchAction::OpenSelected),
            BrowseKey::Up => (SearchKeyState { selected: row_up(s.selected), ..s }, text, cursor, SearchAction::Nothing),
            BrowseKey::Down => (SearchKeyState { selected: rows_down(s.selected, 1, last_row(s.results_len)), ..s }, text, cursor, SearchAction::Nothing),
            BrowseKey::PageUp => (
                SearchKeyState { selected: (if s.selected >= 10 { s.selected - 10 } else { 0 }) as usize, ..s },
                text,
                cursor,
                SearchAction::Nothing,
            ),
            BrowseKey::PageDown => (SearchKeyState { selected: rows_down(s.selected, 10, last_row(s.results_len)), ..s }, text, cursor, SearchAction::Nothing),
            BrowseKey::Backspace => (s, backspace_spec(text, cursor).0, backspace_spec(text, cursor).1, SearchAction::Refresh),
            BrowseKey::Delete => (s, delete_spec(text, cursor).0, delete_spec(text, cursor).1, SearchAction::Refresh),
            BrowseKey::Left => (s, text, move_left_spec(cursor), SearchAction::Nothing),
            BrowseKey::Right => (s, text, clamp(cursor + 1, text.len() as int), SearchAction::Nothing),
            BrowseKey::Home => (s, text, 0, SearchAction::Nothing),
            BrowseKey::End => (s, text, text.len() as int, SearchAction::Nothing),
            BrowseKey::Char(c) => if c == 't' && ctrl {
                (s, text, cursor, SearchAction::ToggleScope)
            } else if !modified {
                (s, insert_spec(text, cursor, c).0, insert_spec(text, cursor, c).1, SearchAction::Refresh)
            } else {
                (s, text, cursor, SearchAction::Nothing)
            },
            _ => (s, text, cursor, SearchAction::Nothing),
        }
    }
}

impl SearchKeyState {
    /// A key while the limits menu is open (see [`limits_menu_key`]);
    /// `None` when the menu does not take it, the state then unchanged.
    fn limits_key(&mut self, key: BrowseKey, modified: bool, shift: bool) -> (r: Option<SearchAction>)
        ensures
            limits_menu_key(*old(self), key, modified, shift) matches Some(p) ==> r == Some(p.1) && *final(self) == p.0,
            limits_menu_key(*old(self), key, modified, shift) is None ==> r is None && *final(self) == *old(self),
    {
        let refresh = if self.content_scope { SearchAction::Refresh } else { SearchAction::Nothing };
        match key {
            BrowseKey::Esc | BrowseKey::Enter => {
                self.limits_menu_open = false;
                Some(SearchAction::Nothing)
            },
            BrowseKey::Up => {
                self.limits_selected = self.limits_selected.saturating_sub(1);
                Some(SearchAction::Nothing)
            },
            BrowseKey::Down => {
                self.limits_selected = down_by(self.limits_selected, 1, 2);
                Some(SearchAction::Nothing)
            },
            BrowseKey::Left => {
                adjust_internal_search_content_limit(&mut self.limits, self.limits_selected, false, shift);
                Some(refresh)
            },
            BrowseKey::Right => {
                adjust_internal_search_content_limit(&mut self.limits, self.limits_selected, true, shift);
                Some(refresh)
            },
            BrowseKey::Char(c) => {
                if c == '-' {
                    adjust_internal_search_content_limit(&mut self.limits, self.limits_selected, false, shift);
                    Some(refresh)
                } else if c == '+' || c == '=' {
                    adjust_internal_search_content_limit(&mut self.limits, self.limits_selected, true, shift);
                    Some(refresh)
                } else if c == 'r' {
                    Some(SearchAction::ResetLimits)
                } else if !modified {
                    Some(SearchAction::Nothing)
                } else {
                    None
                }
            },
            BrowseKey::Backspace | BrowseKey::Delete | BrowseKey::PageUp | BrowseKey::PageDown | BrowseKey::Home
            | BrowseKey::End => Some(SearchAction::Nothing),
            _ => None,
        }
    }

    /// Handles a key in the search panel (see [`search_key_spec`]).
    pub fn handle_search_key(&mut self, line: &mut InputLine, key: BrowseKey, ctrl: bool, modified: bool, shift: bool) -> (a: SearchAction)
        ensures
            (*final(self), final(line).text_view(), final(line).cursor_view(), a) == search_key_spec(
                *old(self),
                old(line).text_view(),
                old(line).cursor_view(),
                key,
                ctrl,
                modified,
                shift,
            ),
    {
        if key == BrowseKey::Char('l') && ctrl {
            if self.content_scope {
                self.limits_menu_open = !self.limits_menu_open;
            }
            return SearchAction::Nothing;
        }
        if self.limits_menu_open {
            if let Some(a) = self.limits_key(key, modified, shift) {
                return a;
            }
        }
        match key {
            BrowseKey::Esc => SearchAction::Close,
            BrowseKey::BackTab => SearchAction::ToHelp,
            BrowseKey::Tab => SearchAction::ToBookmarks,
            BrowseKey::Enter => SearchAction::OpenSelected,
            BrowseKey::Up => {
                self.selected = self.selected.saturating_sub(1);
                SearchAction::Nothing
            },
            BrowseKey::Down => {
                self.selected = down_by(self.selected, 1, self.results_len.saturating_sub(1));
                SearchAction::Nothing
            },
            BrowseKey::PageUp => {
                self.selected = self.selected.saturating_sub(10);
                SearchAction::Nothing
            },
            BrowseKey::PageDown => {
                self.selected = down_by(self.selected, 10, self.results_len.saturating_sub(1));
                SearchAction::Nothing
            },
            BrowseKey::Backspace => {
                line.backspace();
                SearchAction::Refresh
            },
            BrowseKey::Delete => {
                line.delete();
                SearchAction::Refresh
            },
            BrowseKey::Left => {
                line.move_left();
                SearchAction::Nothing
            },
            BrowseKey::Right => {
                if line.cursor() < line.text_len() {
                    line.move_right();
                } else {
                    line.move_end();
                }
                SearchAction::Nothing
            },
            BrowseKey::Home => {
                line.move_home();
                SearchAction::Nothing
            },
            BrowseKey::End => {
                line.move_end();
                SearchAction::Nothing
            },
            BrowseKey::Char(c) => {
                if c == 't' && ctrl {
                    SearchAction::ToggleScope
                } else if !modified {
                    line.insert_char(c);
                    SearchAction::Refresh
                } else {
                    SearchAction::Nothing
                }
            },
            _ => SearchAction::Nothing,
        }
    }
}

} // verus!
