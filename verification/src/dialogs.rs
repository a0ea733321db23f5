use vstd::prelude::*;

verus! {

/// The keys the dialogs tell apart.
#[derive(Clone, Copy, PartialEq, Eq, Structural, Debug)]
pub enum Key {
    Left,
    Right,
    Up,
    Down,
    PageUp,
    PageDown,
    Enter,
    Esc,
    Tab,
    Char(char),
    Other,
}

/// The button focus a key moves to in an OK/Cancel dialog (0: OK,
/// 1: Cancel), if the key moves it: the arrows always, and `h`, `l` and Tab
/// where the dialog takes them.
pub open spec fn focus_key_spec(key: Key, allow_hl_tab: bool) -> Option<u8> {
    match key {
        Key::Left => Some(0),
        Key::Right => Some(1),
        Key::Char(c) => if allow_hl_tab && c == 'h' {
            Some(0)
        } else if allow_hl_tab && c == 'l' {
            Some(1)
        } else {
            None
        },
        Key::Tab => if allow_hl_tab { Some(1) } else { None },
        _ => None,
    }
}

/// Moves the button focus for a key (see [`focus_key_spec`]); whether the
/// key was taken.
pub fn handle_ok_cancel_focus_key(key: Key, focus: &mut u8, allow_hl_tab: bool) -> (taken: bool)
    ensures
        match focus_key_spec(key, allow_hl_tab) {
            Some(f) => taken && *final(focus) == f,
            None => !taken && *final(focus) == *old(focus),
        },
{
    match key {
        Key::Left => {
            *focus = 0;
            true
        },
        Key::Right => {
            *focus = 1;
            true
        },
        Key::Char(c) => {
            if allow_hl_tab && c == 'h' {
                *focus = 0;
                true
            } else if allow_hl_tab && c == 'l' {
                *focus = 1;
                true
            } else {
                false
            }
        },
        Key::Tab => {
            if allow_hl_tab {
                *focus = 1;
                true
            } else {
                false
            }
        },
        _ => false,
    }
}

/// What a key does to a confirmation dialog.
#[derive(Clone, Copy, PartialEq, Eq, Structural, Debug)]
pub enum DialogOutcome {
    /// The dialog stays open.
    Stay,
    /// The action is confirmed.
    Confirm,
    /// The dialog is dismissed.
    Cancel,
}

/// The delete confirmation: its button focus and the scroll of its list of
/// targets.
#[derive(Clone, Copy, PartialEq, Eq, Structural, Debug)]
pub struct DeleteDialog {
    pub focus: u8,
    pub scroll_offset: usize,
    pub max_offset: usize,
}

/// `a + b`, but not past `max`.
pub open spec fn add_capped(a: usize, b: usize, max: usize) -> usize {
    if a + b < max { (a + b) as usize } else { max }
}

/// `a - b`, but not below 0.
pub open spec fn sub_floor(a: usize, b: usize) -> usize {
    if a >= b { (a - b) as usize } else { 0 }
}

/// A key in the delete confirmation: the arrows move the focus, Up/Down
/// and PageUp/PageDown scroll the list by 1 and 8, `y` (or Enter on OK)
/// confirms, `n`, Esc (or Enter on Cancel) dismisses.
pub open spec fn delete_key_spec(key: Key, d: DeleteDialog) -> (DeleteDialog, DialogOutcome) {
    match focus_key_spec(key, false) {
        Some(f) => (DeleteDialog { focus: f, ..d }, DialogOutcome::Stay),
        None => match key {
            Key::Up => (DeleteDialog { scroll_offset: sub_floor(d.scroll_offset, 1), ..d }, DialogOutcome::Stay),
            Key::Down => (DeleteDialog { scroll_offset: add_capped(d.scroll_offset, 1, d.max_offset), ..d }, DialogOutcome::Stay),
            Key::PageUp => (DeleteDialog { scroll_offset: sub_floor(d.scroll_offset, 8), ..d }, DialogOutcome::Stay),
            Key::PageDown => (DeleteDialog { scroll_offset: add_capped(d.scroll_offset, 8, d.max_offset), ..d }, DialogOutcome::Stay),
            Key::Enter => (d, if d.focus == 1 { DialogOutcome::Cancel } else { DialogOutcome::Confirm }),
            Key::Char(c) => if c == 'y' {
                (d, DialogOutcome::Confirm)
            } else if c == 'n' {
                (d, DialogOutcome::Cancel)
            } else {
                (d, DialogOutcome::Stay)
            },
            Key::Esc => (d, DialogOutcome::Cancel),
            _ => (d, DialogOutcome::Stay),
        },
    }
}

/// A key in the delete confirmation (see [`delete_key_spec`]).
pub fn handle_confirm_delete_key(key: Key, d: &mut DeleteDialog) -> (r: DialogOutcome)
    requires
        old(d).scroll_offset <= usize::MAX - 8,
    ensures
        (*final(d), r) == delete_key_spec(key, *old(d)),
{
    if handle_ok_cancel_focus_key(key, &mut d.focus, false) {
        return DialogOutcome::Stay;
    }
    match key {
        Key::Up => {
            d.scroll_offset = d.scroll_offset.saturating_sub(1);
            DialogOutcome::Stay
        },
        Key::Down => {
            let v = d.scroll_offset + 1;
            d.scroll_offset = if v < d.max_offset { v } else { d.max_offset };
            DialogOutcome::Stay
        },
        Key::PageUp => {
            d.scroll_offset = d.scroll_offset.saturating_sub(8);
            DialogOutcome::Stay
        },
        Key::PageDown => {
            let v = d.scroll_offset + 8;
            d.scroll_offset = if v < d.max_offset { v } else { d.max_offset };
            DialogOutcome::Stay
        },
        Key::Enter => {
            if d.focus == 1 {
                DialogOutcome::Cancel
            } else {
                DialogOutcome::Confirm
            }
        },
        Key::Char(c) => {
            if c == 'y' {
                DialogOutcome::Confirm
            } else if c == 'n' {
                DialogOutcome::Cancel
            } else {
                DialogOutcome::Stay
            }
        },
        Key::Esc => DialogOutcome::Cancel,
        _ => DialogOutcome::Stay,
    }
}

/// A key in the install confirmation: `h`/`l`/Tab and the arrows move the
/// focus; `y` confirms (focusing OK); Enter confirms on OK and dismisses on
/// Cancel; `n` and Esc dismiss. Dismissing puts the focus back on Cancel.
pub open spec fn install_key_spec(key: Key, focus: u8) -> (u8, DialogOutcome) {
    match focus_key_spec(key, true) {
        Some(f) => (f, DialogOutcome::Stay),
        None => match key {
            Key::Char(c) => if c == 'y' {
                (0, DialogOutcome::Confirm)
            } else if c == 'n' {
                (1, DialogOutcome::Cancel)
            } else {
                (focus, DialogOutcome::Stay)
            },
            Key::Esc => (1, DialogOutcome::Cancel),
            Key::Enter => if focus == 0 { (focus, DialogOutcome::Confirm) } else { (1, DialogOutcome::Cancel) },
            _ => (focus, DialogOutcome::Stay),
        },
    }
}

/// A key in the install confirmation (see [`install_key_spec`]).
pub fn handle_confirm_integration_install_key(key: Key, focus: &mut u8) -> (r: DialogOutcome)
    ensures
        (*final(focus), r) == install_key_spec(key, *old(focus)),
{
    if handle_ok_cancel_focus_key(key, focus, true) {
        return DialogOutcome::Stay;
    }
    match key {
        Key::Char(c) => {
            if c == 'y' {
                *focus = 0;
                DialogOutcome::Confirm
            } else if c == 'n' {
                *focus = 1;
                DialogOutcome::Cancel
            } else {
                DialogOutcome::Stay
            }
        },
        Key::Esc => {
            *focus = 1;
            DialogOutcome::Cancel
        },
        Key::Enter => {
            if *focus == 0 {
                DialogOutcome::Confirm
            } else {
                *focus = 1;
                DialogOutcome::Cancel
            }
        },
        _ => DialogOutcome::Stay,
    }
}

/// A key in the extract confirmation: `y` extracts, `n` and Esc dismiss.
pub fn handle_confirm_extract_key(key: Key) -> (r: DialogOutcome)
    ensures
        r == (match key {
            Key::Char(c) => if c == 'y' {
                DialogOutcome::Confirm
            } else if c == 'n' {
                DialogOutcome::Cancel
            } else {
                DialogOutcome::Stay
            },
            Key::Esc => DialogOutcome::Cancel,
            _ => DialogOutcome::Stay,
        }),
{
    match key {
        Key::Char(c) => {
            if c == 'y' {
                DialogOutcome::Confirm
            } else if c == 'n' {
                DialogOutcome::Cancel
            } else {
                DialogOutcome::Stay
            }
        },
        Key::Esc => DialogOutcome::Cancel,
        _ => DialogOutcome::Stay,
    }
}


/// Only `y`, or Enter with the focus on OK, confirms a delete; `n`, Esc,
/// and Enter on Cancel dismiss it; any other key leaves it open.
pub proof fn lemma_delete_confirm_only_by_yes(key: Key, d: DeleteDialog)
    ensures
        delete_key_spec(key, d).1 == DialogOutcome::Confirm ==> key == Key::Char('y') || (key == Key::Enter && d.focus != 1),
        key == Key::Char('y') ==> delete_key_spec(key, d).1 == DialogOutcome::Confirm,
        key == Key::Char('n') || key == Key::Esc ==> delete_key_spec(key, d).1 == DialogOutcome::Cancel,
        key == Key::Enter ==> delete_key_spec(key, d).1 == (if d.focus == 1 { DialogOutcome::Cancel } else { DialogOutcome::Confirm }),
        key != Key::Char('y') && key != Key::Char('n') && key != Key::Esc && key != Key::Enter
            ==> delete_key_spec(key, d).1 == DialogOutcome::Stay,
{
}

} // verus!
