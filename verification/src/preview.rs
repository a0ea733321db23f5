use vstd::prelude::*;
use crate::remote::{to_lowercase, unicode_lowercase};
use crate::sort::{lemma_insert_at, sort_spec};
use crate::text::{
    chars_eq, chars_of, concat_str, lex_less, lines_chars, lines_spec, order_seq, string_from_chars, trim,
    trim_chars, views,
};

verus! {

/// What the preview pane shows for a path.
#[derive(Clone, Copy, PartialEq, Eq, Structural, Debug)]
pub enum PreviewKind {
    Folder,
    Missing,
    Svg,
    Image,
    Binary,
    Text,
}

/// What the preview pane shows: a folder's listing, a note that the path
/// is gone, a rendered SVG (when SVG rendering is on) or image, a binary
/// note, else the text.
pub open spec fn preview_kind_spec(is_dir: bool, exists: bool, is_svg: bool, use_resvg: bool, is_image: bool, is_binary: bool) -> PreviewKind {
    if is_dir {
        PreviewKind::Folder
    } else if !exists {
        PreviewKind::Missing
    } else if is_svg && use_resvg {
        PreviewKind::Svg
    } else if is_image {
        PreviewKind::Image
    } else if is_binary {
        PreviewKind::Binary
    } else {
        PreviewKind::Text
    }
}

/// What the preview pane shows (see [`preview_kind_spec`]).
pub fn preview_kind(is_dir: bool, exists: bool, is_svg: bool, use_resvg: bool, is_image: bool, is_binary: bool) -> (r: PreviewKind)
    ensures
        r == preview_kind_spec(is_dir, exists, is_svg, use_resvg, is_image, is_binary),
{
    if is_dir {
        PreviewKind::Folder
    } else if !exists {
        PreviewKind::Missing
    } else if is_svg && use_resvg {
        PreviewKind::Svg
    } else if is_image {
        PreviewKind::Image
    } else if is_binary {
        PreviewKind::Binary
    } else {
        PreviewKind::Text
    }
}

/// The message of a preview that fails: `[file not found]` for a missing
/// path; no other kind fails.
pub fn preview_failure(kind: PreviewKind) -> (r: Option<String>)
    ensures
        kind == PreviewKind::Missing ==> (r matches Some(m) && m@ == "[file not found]"@),
        kind != PreviewKind::Missing ==> r is None,
{
    match kind {
        PreviewKind::Missing => Some("[file not found]".to_string()),
        _ => None,
    }
}

/// The footer under a preview: a folder's total size when it could be
/// computed (`Total: …`), a file's size (`Size: …`); `size`: the size as
/// text; none for a missing path.
pub open spec fn preview_footer_spec(kind: PreviewKind, size: Option<Seq<char>>) -> Option<Seq<char>> {
    match kind {
        PreviewKind::Missing => None,
        PreviewKind::Folder => match size {
            Some(t) => Some("Total: "@ + t),
            None => None,
        },
        _ => match size {
            Some(t) => Some("Size: "@ + t),
            None => None,
        },
    }
}

/// The footer under a preview (see [`preview_footer_spec`]).
pub fn preview_footer(kind: PreviewKind, size: Option<&str>) -> (r: Option<String>)
    ensures
        (match r {
            Some(f) => Some(f@),
            None => None,
        }) == preview_footer_spec(kind, match size {
            Some(t) => Some(t@),
            None => None,
        }),
{
    match kind {
        PreviewKind::Missing => None,
        PreviewKind::Folder => match size {
            Some(t) => Some(concat_str("Total: ", t)),
            None => None,
        },
        _ => match size {
            Some(t) => Some(concat_str("Size: ", t)),
            None => None,
        },
    }
}

/// The lines of an image or SVG preview: none when it could be decoded
/// (the picture is drawn instead), else a note that it could not.
pub fn image_preview_lines(is_svg: bool, decoded: bool) -> (r: Vec<String>)
    ensures
        decoded ==> r@.len() == 0,
        !decoded ==> r@.len() == 1 && r@[0]@ == (if is_svg { "[svg could not be rendered]"@ } else { "[image could not be decoded]"@ }),
{
    let mut v: Vec<String> = Vec::new();
    if !decoded {
        if is_svg {
            v.push("[svg could not be rendered]".to_string());
        } else {
            v.push("[image could not be decoded]".to_string());
        }
    }
    v
}

/// An entry of a previewed folder: its name, whether it is a folder, and
/// its icon glyph.
pub struct PreviewEntry {
    pub name: String,
    pub is_dir: bool,
    pub icon: String,
}

/// An entry as values.
pub open spec fn entry_view(e: PreviewEntry) -> (Seq<char>, bool, Seq<char>) {
    (e.name@, e.is_dir, e.icon@)
}

/// Entry `a` may stay before entry `b`: its lowercase name does not come
/// after.
pub open spec fn preview_entry_le(a: (Seq<char>, bool, Seq<char>), b: (Seq<char>, bool, Seq<char>)) -> bool {
    order_seq(unicode_lowercase(a.0), unicode_lowercase(b.0)) != 1
}

/// The line of one entry: its icon and a space (when icons are shown and
/// it has one), its name, and `/` after a folder.
pub open spec fn entry_line(e: (Seq<char>, bool, Seq<char>), show_icons: bool) -> Seq<char> {
    (if show_icons && e.2.len() > 0 { e.2 + " "@ } else { Seq::empty() }) + e.0 + (if e.1 { "/"@ } else { Seq::empty() })
}

/// The lines that preview a folder: its entries by lowercase name (a
/// stable sort), one line each, or `[empty folder]`.
pub open spec fn folder_preview_spec(entries: Seq<(Seq<char>, bool, Seq<char>)>, show_icons: bool) -> Seq<Seq<char>> {
    if entries.len() == 0 {
        seq!["[empty folder]"@]
    } else {
        sort_spec(entries, |a: (Seq<char>, bool, Seq<char>), b: (Seq<char>, bool, Seq<char>)| preview_entry_le(a, b))
            .map_values(|e: (Seq<char>, bool, Seq<char>)| entry_line(e, show_icons))
    }
}

fn order_chars(a: &Vec<char>, b: &Vec<char>) -> (r: i8)
    ensures
        r as int == order_seq(a@, b@),
{
    if chars_eq(a.as_slice(), b.as_slice()) {
        0
    } else if lex_less(a.as_slice(), b.as_slice()) {
        -1
    } else {
        1
    }
}

/// The lines that preview a folder (see [`folder_preview_spec`]).
pub fn folder_preview_lines(entries: Vec<PreviewEntry>, show_icons: bool) -> (r: Vec<String>)
    ensures
        r@.map_values(|s: String| s@) == folder_preview_spec(entries@.map_values(|e: PreviewEntry| entry_view(e)), show_icons),
{
    let ghost src = entries@.map_values(|e: PreviewEntry| entry_view(e));
    if entries.len() == 0 {
        let mut v: Vec<String> = Vec::new();
        v.push("[empty folder]".to_string());
        assert(v@.map_values(|s: String| s@) =~= seq!["[empty folder]"@]);
        return v;
    }
    let ghost le = |a: (Seq<char>, bool, Seq<char>), b: (Seq<char>, bool, Seq<char>)| preview_entry_le(a, b);
    let mut rest = entries;
    let mut sorted: Vec<(PreviewEntry, Vec<char>)> = Vec::new();
    let ghost mut taken: Seq<(Seq<char>, bool, Seq<char>)> = Seq::empty();
    while rest.len() > 0
        invariant
            src == taken + rest@.map_values(|e: PreviewEntry| entry_view(e)),
            sorted@.map_values(|p: (PreviewEntry, Vec<char>)| entry_view(p.0)) == sort_spec(taken, le),
            forall|k: int| 0 <= k < sorted@.len() ==> (#[trigger] sorted@[k]).1@ == unicode_lowercase(sorted@[k].0.name@),
            le == (|a: (Seq<char>, bool, Seq<char>), b: (Seq<char>, bool, Seq<char>)| preview_entry_le(a, b)),
        decreases rest.len(),
    {
        let ghost rest0 = rest@;
        let e = rest.remove(0);
        assert(rest0.map_values(|e: PreviewEntry| entry_view(e)) =~= seq![entry_view(e)] + rest@.map_values(|e: PreviewEntry| entry_view(e)));
        let key = chars_of(to_lowercase(e.name.as_str()).as_str());
        let ghost sv = sorted@.map_values(|p: (PreviewEntry, Vec<char>)| entry_view(p.0));
        let ghost ev = entry_view(e);
        let mut j = sorted.len();
        while j > 0 && order_chars(&sorted[j - 1].1, &key) == 1
            invariant
                j <= sorted.len(),
                sv == sorted@.map_values(|p: (PreviewEntry, Vec<char>)| entry_view(p.0)),
                forall|k: int| 0 <= k < sorted@.len() ==> (#[trigger] sorted@[k]).1@ == unicode_lowercase(sorted@[k].0.name@),
                key@ == unicode_lowercase(e.name@),
                ev == entry_view(e),
                le == (|a: (Seq<char>, bool, Seq<char>), b: (Seq<char>, bool, Seq<char>)| preview_entry_le(a, b)),
                forall|k: int| j <= k < sv.len() ==> !le(#[trigger] sv[k], ev),
            decreases j,
        {
            assert(sv[j - 1] == entry_view(sorted@[j - 1].0));
            j = j - 1;
        }
        proof {
            lemma_insert_at(sv, ev, le, j as int);
            assert(taken.push(ev).drop_last() =~= taken);
        }
        let ghost before = sorted@;
        sorted.insert(j, (e, key));
        proof {
            assert(sorted@.map_values(|p: (PreviewEntry, Vec<char>)| entry_view(p.0)) =~= sv.insert(j as int, ev));
            assert forall|k: int| 0 <= k < sorted@.len() implies (#[trigger] sorted@[k]).1@ == unicode_lowercase(sorted@[k].0.name@) by {
                if k < j {
                    assert(sorted@[k] == before[k]);
                } else if k > j {
                    assert(sorted@[k] == before[k - 1]);
                }
            }
            taken = taken.push(ev);
            assert(src =~= taken + rest@.map_values(|e: PreviewEntry| entry_view(e)));
        }
    }
    assert(taken =~= src);
    let ghost sorted_v = sorted@.map_values(|p: (PreviewEntry, Vec<char>)| entry_view(p.0));
    let mut out: Vec<String> = Vec::new();
    let mut k: usize = 0;
    while k < sorted.len()
        invariant
            k <= sorted.len(),
            sorted_v == sorted@.map_values(|p: (PreviewEntry, Vec<char>)| entry_view(p.0)),
            out@.len() == k,
            forall|i: int| 0 <= i < k ==> (#[trigger] out@[i])@ == entry_line(sorted_v[i], show_icons),
        decreases sorted.len() - k,
    {
        let e = &sorted[k].0;
        let icon_nonempty = chars_of(e.icon.as_str()).len() > 0;
        let prefix = if show_icons && icon_nonempty { concat_str(e.icon.as_str(), " ") } else { String::new() };
        let with_name = concat_str(prefix.as_str(), e.name.as_str());
        let line = if e.is_dir { concat_str(with_name.as_str(), "/") } else { with_name };
        proof {
            assert(sorted_v[k as int] == entry_view(sorted@[k as int].0));
            assert(line@ =~= entry_line(sorted_v[k as int], show_icons));
        }
        out.push(line);
        k = k + 1;
    }
    assert(out@.map_values(|s: String| s@) =~= sorted_v.map_values(|e: (Seq<char>, bool, Seq<char>)| entry_line(e, show_icons)));
    out
}

/// Files above this size (10 MiB) get a note that their preview is cut.
pub open spec fn large_file_bytes() -> u64 {
    10485760
}

/// At most the first 220 lines of a text.
pub open spec fn head_lines(text: Seq<char>) -> Seq<Seq<char>> {
    let ls = lines_spec(text);
    if ls.len() <= 220 { ls } else { ls.take(220) }
}

/// The lines shown before the raw text is read: the note for a large file,
/// then up to 220 lines of what `bat` printed when it ran and succeeded.
pub open spec fn preview_head_spec(size: u64, bat_output: Option<Seq<char>>) -> Seq<Seq<char>> {
    let note: Seq<Seq<char>> = if size > large_file_bytes() {
        seq!["[preview truncated: file larger than 10MB]"@]
    } else {
        seq![]
    };
    match bat_output {
        Some(t) => note + head_lines(t),
        None => note,
    }
}

/// The lines that preview a text file: those of [`preview_head_spec`];
/// when there are none, up to 220 lines of the raw text; when there are
/// still none, `[no preview output]`.
pub open spec fn text_preview_spec(size: u64, bat_output: Option<Seq<char>>, raw_text: Seq<char>) -> Seq<Seq<char>> {
    let head = preview_head_spec(size, bat_output);
    let lines = if head.len() == 0 { head_lines(raw_text) } else { head };
    if lines.len() == 0 { seq!["[no preview output]"@] } else { lines }
}

fn head_line_strings(text: &str) -> (r: Vec<String>)
    ensures
        r@.map_values(|s: String| s@) == head_lines(text@),
{
    let ls = lines_chars(&chars_of(text));
    let ghost lv = lines_spec(text@);
    let n = if ls.len() <= 220 { ls.len() } else { 220 };
    let mut out: Vec<String> = Vec::new();
    let mut i: usize = 0;
    while i < n
        invariant
            i <= n,
            n <= ls.len(),
            n == if ls.len() <= 220 { ls.len() } else { 220 },
            views(ls@) == lv,
            out@.map_values(|s: String| s@) == lv.take(i as int),
        decreases n - i,
    {
        let ghost before = out@.map_values(|s: String| s@);
        out.push(string_from_chars(ls[i].as_slice()));
        assert(out@.map_values(|s: String| s@) =~= before.push(ls@[i as int]@));
        assert(lv.take(i + 1) =~= lv.take(i as int).push(lv[i as int]));
        i = i + 1;
    }
    assert(lv.take(n as int) =~= head_lines(text@));
    out
}

/// Whether the raw text must be read: the head lines are empty (see
/// [`preview_head_spec`]).
pub fn raw_text_needed(size: u64, bat_output: Option<&str>) -> (r: bool)
    ensures
        r == (preview_head_spec(size, match bat_output {
            Some(t) => Some(t@),
            None => None,
        }).len() == 0),
{
    if size > 10485760 {
        return false;
    }
    match bat_output {
        Some(t) => head_line_strings(t).len() == 0,
        None => true,
    }
}

/// The lines that preview a text file (see [`text_preview_spec`]).
pub fn text_preview_lines(size: u64, bat_output: Option<&str>, raw_text: &str) -> (r: Vec<String>)
    ensures
        r@.map_values(|s: String| s@) == text_preview_spec(size, match bat_output {
            Some(t) => Some(t@),
            None => None,
        }, raw_text@),
{
    let mut lines: Vec<String> = Vec::new();
    if size > 10485760 {
        lines.push("[preview truncated: file larger than 10MB]".to_string());
    }
    let ghost note = lines@.map_values(|s: String| s@);
    match bat_output {
        Some(t) => {
            let more = head_line_strings(t);
            let mut i: usize = 0;
            while i < more.len()
                invariant
                    i <= more.len(),
                    lines@.map_values(|s: String| s@) == note + more@.map_values(|s: String| s@).take(i as int),
                decreases more.len() - i,
            {
                let ghost before = lines@.map_values(|s: String| s@);
                lines.push(more[i].clone());
                assert(lines@.map_values(|s: String| s@) =~= before.push(more@[i as int]@));
                assert(more@.map_values(|s: String| s@).take(i + 1) =~= more@.map_values(|s: String| s@).take(i as int).push(more@[i as int]@));
                i = i + 1;
            }
            assert(more@.map_values(|s: String| s@).take(more.len() as int) =~= more@.map_values(|s: String| s@));
        },
        None => {
            assert(note + Seq::<Seq<char>>::empty() =~= note);
        },
    }
    assert(lines@.map_values(|s: String| s@) =~= preview_head_spec(size, match bat_output {
        Some(t) => Some(t@),
        None => None,
    }));
    if lines.len() == 0 {
        lines = head_line_strings(raw_text);
    }
    if lines.len() == 0 {
        let mut v: Vec<String> = Vec::new();
        v.push("[no preview output]".to_string());
        assert(v@.map_values(|s: String| s@) =~= seq!["[no preview output]"@]);
        return v;
    }
    lines
}

/// The lines that preview a binary file: `[binary file]`, then what `file`
/// said of it (trimmed) when it said something.
pub fn binary_preview_lines(file_output: Option<&str>) -> (r: Vec<String>)
    ensures
        r@.map_values(|s: String| s@) == match file_output {
            Some(t) => if trim(t@).len() > 0 { seq!["[binary file]"@, trim(t@)] } else { seq!["[binary file]"@] },
            None => seq!["[binary file]"@],
        },
{
    let mut v: Vec<String> = Vec::new();
    v.push("[binary file]".to_string());
    match file_output {
        Some(t) => {
            let tr = trim_chars(&chars_of(t));
            if tr.len() > 0 {
                v.push(string_from_chars(tr.as_slice()));
            }
        },
        None => {},
    }
    assert(v@.map_values(|s: String| s@) =~= match file_output {
        Some(t) => if trim(t@).len() > 0 { seq!["[binary file]"@, trim(t@)] } else { seq!["[binary file]"@] },
        None => seq!["[binary file]"@],
    });
    v
}

/// Display settings read from the environment: Nerd Font glyphs when the
/// setting is `1`, icons unless it is `0`.
pub fn display_flags(nerd_font: Option<&str>, terminal_icons: Option<&str>) -> (r: (bool, bool))
    ensures
        r.0 == match nerd_font {
            Some(v) => v@ == "1"@,
            None => false,
        },
        r.1 == match terminal_icons {
            Some(v) => v@ != "0"@,
            None => true,
        },
{
    let nerd = match nerd_font {
        Some(v) => chars_eq(chars_of(v).as_slice(), chars_of("1").as_slice()),
        None => false,
    };
    let icons = match terminal_icons {
        Some(v) => !chars_eq(chars_of(v).as_slice(), chars_of("0").as_slice()),
        None => true,
    };
    (nerd, icons)
}

} // verus!
