use vstd::prelude::*;
use crate::filetypes::{has_ext_in, is_age_protected_file};
use crate::fmt::{decimal_spec, decimal_string};
use crate::meta::{owner_label, parse_permissions, permissions_spec};
use crate::text::{chars_of, concat_str, string_from_chars};

verus! {

/// The colour of an entry's name.
#[derive(Clone, Copy, PartialEq, Eq, Structural, Debug)]
pub enum NameColor {
    White,
    Rgb(u8, u8, u8),
}

/// How an entry's name is drawn: its colour, bold, dimmed.
#[derive(Clone, Copy, PartialEq, Eq, Structural, Debug)]
pub struct NameStyle {
    pub color: NameColor,
    pub bold: bool,
    pub dim: bool,
}

/// Whether a mode has an execute bit for anyone.
pub open spec fn any_exec(mode: u32) -> bool {
    mode & 0o111u32 != 0
}

/// How an entry's name is drawn: folders blue and bold; `.age` files gold;
/// other files in their icon's colour when Nerd Font icons are on (white
/// otherwise); symbolic links cyan and executable files green, whatever
/// they are otherwise; hidden names (starting with `.`) dimmed. `mode`: the
/// permission bits, when the entry could be read.
pub open spec fn name_style_spec(
    name: Seq<char>,
    is_dir: bool,
    is_symlink: bool,
    mode: Option<u32>,
    nerd_font: bool,
    icon_rgb: Option<(u8, u8, u8)>,
) -> NameStyle {
    let base = if is_dir {
        NameStyle { color: NameColor::Rgb(100, 160, 240), bold: true, dim: false }
    } else if has_ext_in(name, seq!["age"@]) {
        NameStyle { color: NameColor::Rgb(230, 190, 90), bold: false, dim: false }
    } else {
        NameStyle {
            color: match icon_rgb {
                Some(c) => if nerd_font { NameColor::Rgb(c.0, c.1, c.2) } else { NameColor::White },
                None => NameColor::White,
            },
            bold: false,
            dim: false,
        }
    };
    let linked = if is_symlink { NameStyle { color: NameColor::Rgb(100, 220, 220), bold: false, dim: false } } else { base };
    let exec = match mode {
        Some(m) => !is_dir && any_exec(m),
        None => false,
    };
    let styled = if exec { NameStyle { color: NameColor::Rgb(120, 220, 120), bold: false, dim: false } } else { linked };
    NameStyle { dim: name.len() > 0 && name[0] == '.', ..styled }
}

/// How an entry's name is drawn (see [`name_style_spec`]).
pub fn entry_name_style(
    name: &str,
    is_dir: bool,
    is_symlink: bool,
    mode: Option<u32>,
    nerd_font: bool,
    icon_rgb: Option<(u8, u8, u8)>,
) -> (r: NameStyle)
    ensures
        r == name_style_spec(name@, is_dir, is_symlink, mode, nerd_font, icon_rgb),
{
    let base = if is_dir {
        NameStyle { color: NameColor::Rgb(100, 160, 240), bold: true, dim: false }
    } else if is_age_protected_file(name) {
        NameStyle { color: NameColor::Rgb(230, 190, 90), bold: false, dim: false }
    } else {
        NameStyle {
            color: match icon_rgb {
                Some(c) => if nerd_font { NameColor::Rgb(c.0, c.1, c.2) } else { NameColor::White },
                None => NameColor::White,
            },
            bold: false,
            dim: false,
        }
    };
    let linked = if is_symlink { NameStyle { color: NameColor::Rgb(100, 220, 220), bold: false, dim: false } } else { base };
    let exec = match mode {
        Some(m) => !is_dir && m & 0o111u32 != 0,
        None => false,
    };
    let styled = if exec { NameStyle { color: NameColor::Rgb(120, 220, 120), bold: false, dim: false } } else { linked };
    let n = chars_of(name);
    let hidden = n.len() > 0 && n[0] == '.';
    NameStyle { dim: hidden, ..styled }
}

/// `s` followed by spaces up to `width` characters.
pub open spec fn pad_right_spec(s: Seq<char>, width: nat) -> Seq<char> {
    if s.len() < width { s + Seq::new((width - s.len()) as nat, |i: int| ' ') } else { s }
}

/// `s` preceded by spaces up to `width` characters.
pub open spec fn pad_left_spec(s: Seq<char>, width: nat) -> Seq<char> {
    if s.len() < width { Seq::new((width - s.len()) as nat, |i: int| ' ') + s } else { s }
}

fn spaces(n: usize) -> (r: Vec<char>)
    ensures
        r@ == Seq::new(n as nat, |i: int| ' '),
{
    let mut r: Vec<char> = Vec::new();
    while r.len() < n
        invariant
            r@.len() <= n,
            forall|i: int| 0 <= i < r@.len() ==> r@[i] == ' ',
        decreases n - r@.len(),
    {
        r.push(' ');
    }
    assert(r@ =~= Seq::new(n as nat, |i: int| ' '));
    r
}

/// `s` left-aligned in `width` characters (`format!("{:<width$}", s)`).
pub fn pad_right(s: &str, width: usize) -> (r: String)
    ensures
        r@ == pad_right_spec(s@, width as nat),
{
    let c = chars_of(s);
    if c.len() >= width {
        return string_from_chars(c.as_slice());
    }
    let pad = string_from_chars(spaces(width - c.len()).as_slice());
    concat_str(s, pad.as_str())
}

/// `s` right-aligned in `width` characters (`format!("{:>width$}", s)`).
pub fn pad_left(s: &str, width: usize) -> (r: String)
    ensures
        r@ == pad_left_spec(s@, width as nat),
{
    let c = chars_of(s);
    if c.len() >= width {
        return string_from_chars(c.as_slice());
    }
    let pad = string_from_chars(spaces(width - c.len()).as_slice());
    concat_str(pad.as_str(), s)
}

/// The permissions column: the `ls -l` text of the mode (dashes when the
/// entry could not be read), left-aligned in 11 characters.
pub open spec fn perms_column_spec(mode: Option<u32>, is_dir: bool) -> Seq<char> {
    pad_right_spec(
        match mode {
            Some(m) => permissions_spec(m, is_dir),
            None => "----------"@,
        },
        11,
    )
}

/// The permissions column (see [`perms_column_spec`]).
pub fn perms_column(mode: Option<u32>, is_dir: bool) -> (r: String)
    ensures
        r@ == perms_column_spec(mode, is_dir),
{
    let p = match mode {
        Some(m) => parse_permissions(m, is_dir),
        None => "----------".to_string(),
    };
    pad_right(p.as_str(), 11)
}

/// The owner or group column: the account's name, else its number; `-`
/// when the entry could not be read (`id` is `None`).
pub open spec fn identity_column_spec(name: Option<Seq<char>>, id: Option<u32>) -> Seq<char> {
    match id {
        Some(i) => match name {
            Some(n) => n,
            None => decimal_spec(i as nat),
        },
        None => "-"@,
    }
}

/// The owner or group column (see [`identity_column_spec`]).
pub fn identity_column(name: Option<String>, id: Option<u32>) -> (r: String)
    ensures
        r@ == identity_column_spec(
            match name {
                Some(n) => Some(n@),
                None => None,
            },
            id,
        ),
{
    match id {
        Some(i) => owner_label(name, i),
        None => "-".to_string(),
    }
}

/// The size column: the size text (`-` for folders and unread entries),
/// right-aligned in 6 characters.
pub open spec fn size_column_spec(label: Option<Seq<char>>) -> Seq<char> {
    pad_left_spec(
        match label {
            Some(l) => l,
            None => "-"@,
        },
        6,
    )
}

/// The size column (see [`size_column_spec`]).
pub fn size_column(label: Option<&str>) -> (r: String)
    ensures
        r@ == size_column_spec(
            match label {
                Some(l) => Some(l@),
                None => None,
            },
        ),
{
    match label {
        Some(l) => pad_left(l, 6),
        None => pad_left("-", 6),
    }
}

/// The date column: the modification time text (empty when unknown),
/// right-aligned in 16 characters.
pub open spec fn date_column_spec(date: Option<Seq<char>>) -> Seq<char> {
    pad_left_spec(
        match date {
            Some(d) => d,
            None => Seq::empty(),
        },
        16,
    )
}

/// The date column (see [`date_column_spec`]).
pub fn date_column(date: Option<&str>) -> (r: String)
    ensures
        r@ == date_column_spec(
            match date {
                Some(d) => Some(d@),
                None => None,
            },
        ),
{
    match date {
        Some(d) => pad_left(d, 16),
        None => {
            proof {
                reveal_strlit("");
            }
            pad_left("", 16)
        },
    }
}

/// The space a file takes on disk: its 512-byte blocks, saturating.
pub fn display_leaf_size(blocks: u64) -> (r: u64)
    ensures
        r == if blocks * 512 <= u64::MAX { (blocks * 512) as u64 } else { u64::MAX },
{
    if blocks <= u64::MAX / 512 {
        blocks * 512
    } else {
        u64::MAX
    }
}

/// The size an entry shows: none for a folder or an entry whose metadata
/// could not be read (`meta`: whether it is a folder, and its 512-byte
/// blocks); otherwise the space its blocks take, saturating.
pub open spec fn entry_size_spec(meta: Option<(bool, u64)>) -> Option<u64> {
    match meta {
        None => None,
        Some(m) => if m.0 {
            None
        } else {
            Some(if m.1 * 512 <= u64::MAX { (m.1 * 512) as u64 } else { u64::MAX })
        },
    }
}

/// The size an entry shows (see [`entry_size_spec`]); the size column then
/// shows `-` for none.
pub fn entry_size_bytes(meta: Option<(bool, u64)>) -> (r: Option<u64>)
    ensures
        r == entry_size_spec(meta),
{
    match meta {
        None => None,
        Some((is_dir, blocks)) => if is_dir {
            None
        } else {
            Some(display_leaf_size(blocks))
        },
    }
}

/// The widest of the names, in characters, and at least 1.
pub open spec fn widest_spec(names: Seq<Seq<char>>) -> nat
    decreases names.len(),
{
    if names.len() == 0 {
        1
    } else {
        let rest = widest_spec(names.drop_last());
        if names.last().len() > rest { names.last().len() } else { rest }
    }
}

fn widest(names: &Vec<String>) -> (r: usize)
    ensures
        r == widest_spec(names@.map_values(|s: String| s@)),
{
    let ghost v = names@.map_values(|s: String| s@);
    let mut w: usize = 1;
    let mut i: usize = 0;
    while i < names.len()
        invariant
            i <= names@.len(),
            v == names@.map_values(|s: String| s@),
            w == widest_spec(v.take(i as int)),
        decreases names.len() - i,
    {
        let n = chars_of(names[i].as_str()).len();
        assert(v.take(i + 1).drop_last() =~= v.take(i as int));
        assert(v.take(i + 1).last() == names@[i as int]@);
        if n > w {
            w = n;
        }
        i = i + 1;
    }
    assert(v.take(names@.len() as int) =~= v);
    w
}

/// The widths of the group and owner columns: the widest name of each
/// (at least 1), capped at 16 and 20.
pub fn meta_identity_widths(groups: &Vec<String>, owners: &Vec<String>) -> (r: (usize, usize))
    ensures
        r.0 == if widest_spec(groups@.map_values(|s: String| s@)) < 16 {
            widest_spec(groups@.map_values(|s: String| s@))
        } else {
            16
        },
        r.1 == if widest_spec(owners@.map_values(|s: String| s@)) < 20 {
            widest_spec(owners@.map_values(|s: String| s@))
        } else {
            20
        },
{
    let g = widest(groups);
    let o = widest(owners);
    (if g < 16 { g } else { 16 }, if o < 20 { o } else { 20 })
}

/// The status line for marked entries: how many are marked and, when
/// folder sizes are on and two or more are marked, their total size (or
/// that it is being scanned). `scanned`: how many items the size scan
/// counted; `total`: the total size's text once known.
pub open spec fn selected_total_status_spec(
    count: usize,
    sizes_on: bool,
    pending: bool,
    scanned: usize,
    total: Option<Seq<char>>,
) -> Option<Seq<char>> {
    if count == 0 {
        None
    } else {
        let noun = if count == 1 { "item"@ } else { "items"@ };
        let shown = if scanned > count { scanned } else { count };
        if !sizes_on || count < 2 {
            Some("selected: "@ + decimal_spec(count as nat) + " "@ + noun)
        } else if pending {
            Some("selected: "@ + decimal_spec(shown as nat) + " "@ + noun + " | total size: scanning..."@)
        } else {
            match total {
                Some(t) => Some("selected: "@ + decimal_spec(shown as nat) + " "@ + noun + " | total size: "@ + t),
                None => Some("selected: "@ + decimal_spec(count as nat) + " "@ + noun),
            }
        }
    }
}

/// The status line for marked entries (see [`selected_total_status_spec`]).
pub fn selected_total_size_status(
    count: usize,
    sizes_on: bool,
    pending: bool,
    scanned: usize,
    total: Option<&str>,
) -> (r: Option<String>)
    ensures
        (match r {
            Some(s) => Some(s@),
            None => None,
        }) == selected_total_status_spec(count, sizes_on, pending, scanned, match total {
            Some(t) => Some(t@),
            None => None,
        }),
{
    if count == 0 {
        return None;
    }
    let noun = if count == 1 { "item" } else { "items" };
    let shown = if scanned > count { scanned } else { count };
    let lead = concat_str(concat_str("selected: ", decimal_string(count as u64).as_str()).as_str(), " ");
    let lead_shown = concat_str(concat_str("selected: ", decimal_string(shown as u64).as_str()).as_str(), " ");
    if !sizes_on || count < 2 {
        return Some(concat_str(lead.as_str(), noun));
    }
    if pending {
        return Some(concat_str(concat_str(lead_shown.as_str(), noun).as_str(), " | total size: scanning..."));
    }
    match total {
        Some(t) => Some(concat_str(
            concat_str(concat_str(lead_shown.as_str(), noun).as_str(), " | total size: ").as_str(),
            t,
        )),
        None => Some(concat_str(lead.as_str(), noun)),
    }
}


/// What an entry's row shows of its metadata: whether it is a folder, its
/// permission bits, owner and group numbers, and 512-byte blocks.
#[derive(Clone, Copy, PartialEq, Eq, Structural, Debug)]
pub struct EntryMeta {
    pub is_dir: bool,
    pub mode: u32,
    pub uid: u32,
    pub gid: u32,
    pub blocks: u64,
}

/// The parts an entry's row in the listing is drawn from.
#[derive(Clone, Debug)]
pub struct EntryRow {
    pub raw_name: String,
    pub name_style: NameStyle,
    pub perms_col: String,
    pub owner_name: String,
    pub group_name: String,
    pub size_col: String,
    pub size_bytes: Option<u64>,
    pub date_col: String,
    pub modified_unix: Option<u64>,
}

/// [`EntryRow`] with its texts as sequences.
pub struct EntryRowView {
    pub raw_name: Seq<char>,
    pub name_style: NameStyle,
    pub perms_col: Seq<char>,
    pub owner_name: Seq<char>,
    pub group_name: Seq<char>,
    pub size_col: Seq<char>,
    pub size_bytes: Option<u64>,
    pub date_col: Seq<char>,
    pub modified_unix: Option<u64>,
}

impl View for EntryRow {
    type V = EntryRowView;

    open spec fn view(&self) -> EntryRowView {
        EntryRowView {
            raw_name: self.raw_name@,
            name_style: self.name_style,
            perms_col: self.perms_col@,
            owner_name: self.owner_name@,
            group_name: self.group_name@,
            size_col: self.size_col@,
            size_bytes: self.size_bytes,
            date_col: self.date_col@,
            modified_unix: self.modified_unix,
        }
    }
}

/// An optional text as an optional sequence.
pub open spec fn opt_view(s: Option<String>) -> Option<Seq<char>> {
    match s {
        Some(t) => Some(t@),
        None => None,
    }
}

/// An entry's row: its name and how it is drawn (see [`name_style_spec`]),
/// and its columns: permissions, owner and group (their account names,
/// else their numbers, `-` when unread), size (`size_label`, the size's
/// text, for a file; `-` otherwise), date (`date_label`, the modification
/// time's text) and the size and time themselves. `meta` is `None` when the
/// entry's metadata could not be read.
pub open spec fn entry_row_spec(
    name: Seq<char>,
    is_symlink: bool,
    meta: Option<EntryMeta>,
    owner: Option<Seq<char>>,
    group: Option<Seq<char>>,
    size_label: Option<Seq<char>>,
    date_label: Option<Seq<char>>,
    modified_unix: Option<u64>,
    nerd_font: bool,
    icon_rgb: Option<(u8, u8, u8)>,
) -> EntryRowView {
    let is_dir = meta matches Some(m) && m.is_dir;
    let size = entry_size_spec(match meta {
        Some(m) => Some((m.is_dir, m.blocks)),
        None => None,
    });
    EntryRowView {
        raw_name: name,
        name_style: name_style_spec(name, is_dir, is_symlink, match meta {
            Some(m) => Some(m.mode),
            None => None,
        }, nerd_font, icon_rgb),
        perms_col: perms_column_spec(match meta {
            Some(m) => Some(m.mode),
            None => None,
        }, is_dir),
        owner_name: identity_column_spec(owner, match meta {
            Some(m) => Some(m.uid),
            None => None,
        }),
        group_name: identity_column_spec(group, match meta {
            Some(m) => Some(m.gid),
            None => None,
        }),
        size_col: size_column_spec(if size is Some { size_label } else { None }),
        size_bytes: size,
        date_col: date_column_spec(date_label),
        modified_unix,
    }
}

/// Builds an entry's row (see [`entry_row_spec`]).
pub fn build_entry_row(
    name: &str,
    is_symlink: bool,
    meta: Option<EntryMeta>,
    owner: Option<String>,
    group: Option<String>,
    size_label: Option<&str>,
    date_label: Option<&str>,
    modified_unix: Option<u64>,
    nerd_font: bool,
    icon_rgb: Option<(u8, u8, u8)>,
) -> (r: EntryRow)
    ensures
        r@ == entry_row_spec(
            name@,
            is_symlink,
            meta,
            opt_view(owner),
            opt_view(group),
            match size_label {
                Some(l) => Some(l@),
                None => None,
            },
            match date_label {
                Some(d) => Some(d@),
                None => None,
            },
            modified_unix,
            nerd_font,
            icon_rgb,
        ),
{
    let is_dir = match meta {
        Some(m) => m.is_dir,
        None => false,
    };
    let mode = match meta {
        Some(m) => Some(m.mode),
        None => None,
    };
    let uid = match meta {
        Some(m) => Some(m.uid),
        None => None,
    };
    let gid = match meta {
        Some(m) => Some(m.gid),
        None => None,
    };
    let size = entry_size_bytes(match meta {
        Some(m) => Some((m.is_dir, m.blocks)),
        None => None,
    });
    let shown_label = match size {
        Some(_) => size_label,
        None => None,
    };
    EntryRow {
        raw_name: name.to_string(),
        name_style: entry_name_style(name, is_dir, is_symlink, mode, nerd_font, icon_rgb),
        perms_col: perms_column(mode, is_dir),
        owner_name: identity_column(owner, uid),
        group_name: identity_column(group, gid),
        size_col: size_column(shown_label),
        size_bytes: size,
        date_col: date_column(date_label),
        modified_unix,
    }
}

} // verus!
