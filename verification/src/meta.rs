use vstd::prelude::*;
use crate::fmt::{decimal_spec, decimal_string};
use crate::text::{chars_of, concat_str, lines_chars, lines_spec, slice_chars, string_from_chars, trim, trim_chars, views};

verus! {

/// The letter for permission bit `i` (8 down to 0): `r`, `w` or `x`.
pub open spec fn perm_letter(i: int) -> char {
    if i % 3 == 2 {
        'r'
    } else if i % 3 == 1 {
        'w'
    } else {
        'x'
    }
}

/// Bit `i` of `mode` is set.
pub open spec fn bit_set(mode: u32, i: int) -> bool {
    (mode >> (i as u32)) & 1 == 1
}

/// The `ls -l` permission text: `d` or `-`, then for the owner, group and
/// others `r`, `w`, `x` where the bit is set and `-` where it is not.
pub open spec fn permissions_spec(mode: u32, is_dir: bool) -> Seq<char> {
    seq![if is_dir { 'd' } else { '-' }] + Seq::new(9, |k: int| if bit_set(mode, 8 - k) { perm_letter(8 - k) } else { '-' })
}

/// The `ls -l` permission text of a mode (see [`permissions_spec`]).
pub fn parse_permissions(mode: u32, is_dir: bool) -> (r: String)
    ensures
        r@ == permissions_spec(mode, is_dir),
{
    let mut p: Vec<char> = Vec::new();
    p.push(if is_dir { 'd' } else { '-' });
    let mut k: u32 = 0;
    while k < 9
        invariant
            k <= 9,
            p@.len() == k + 1,
            p@[0] == (if is_dir { 'd' } else { '-' }),
            forall|j: int| 0 <= j < k ==> #[trigger] p@[j + 1] == (if bit_set(mode, 8 - j) { perm_letter(8 - j) } else { '-' }),
        decreases 9 - k,
    {
        let i: u32 = 8 - k;
        let set = (mode >> i) & 1 == 1;
        let letter = if i % 3 == 2 { 'r' } else if i % 3 == 1 { 'w' } else { 'x' };
        p.push(if set { letter } else { '-' });
        k = k + 1;
    }
    assert forall|idx: int| 1 <= idx < 10 implies p@[idx] == permissions_spec(mode, is_dir)[idx] by {
        assert(p@[(idx - 1) + 1] == (if bit_set(mode, 8 - (idx - 1)) { perm_letter(8 - (idx - 1)) } else { '-' }));
    }
    assert(p@ =~= permissions_spec(mode, is_dir));
    string_from_chars(p.as_slice())
}

/// The mode with the executable bits toggled: cleared when any is set,
/// else set for owner, group and others.
pub open spec fn toggled_exec_mode_spec(mode: u32) -> u32 {
    if mode & 0o111 != 0 {
        mode & !0o111u32
    } else {
        mode | 0o111
    }
}

/// The mode with the executable bits toggled (see [`toggled_exec_mode_spec`]).
pub fn toggled_exec_mode(mode: u32) -> (r: u32)
    ensures
        r == toggled_exec_mode_spec(mode),
{
    if mode & 0o111 != 0 {
        mode & !0o111u32
    } else {
        mode | 0o111
    }
}

/// Toggling leaves every bit but the executable ones as it was, and sets
/// the executable bits all alike: none when any was set, all when none was.
pub proof fn lemma_toggle_exec(mode: u32)
    ensures
        toggled_exec_mode_spec(mode) & !0o111u32 == mode & !0o111u32,
        mode & 0o111 != 0 ==> toggled_exec_mode_spec(mode) & 0o111 == 0,
        mode & 0o111 == 0 ==> toggled_exec_mode_spec(mode) & 0o111 == 0o111,
{
    assert((mode & !0o111u32) & !0o111u32 == mode & !0o111u32) by (bit_vector);
    assert((mode | 0o111) & !0o111u32 == mode & !0o111u32) by (bit_vector);
    assert((mode & !0o111u32) & 0o111 == 0) by (bit_vector);
    assert((mode | 0o111) & 0o111 == 0o111) by (bit_vector);
}

/// The status after toggling executable bits: how many files changed, and
/// what was skipped or failed.
pub open spec fn toggle_status_spec(changed: u64, skipped_dirs: u64, failed: u64) -> Seq<char> {
    if changed > 0 && failed == 0 && skipped_dirs == 0 {
        "toggled executable bit on "@ + decimal_spec(changed as nat) + " file(s)"@
    } else if changed > 0 {
        "toggled "@ + decimal_spec(changed as nat) + " file(s), skipped "@ + decimal_spec(skipped_dirs as nat)
            + " dir(s), "@ + decimal_spec(failed as nat) + " failed"@
    } else if skipped_dirs > 0 && failed == 0 {
        "no files changed (directories skipped)"@
    } else {
        "failed to toggle executable permissions"@
    }
}

/// The status after toggling executable bits (see [`toggle_status_spec`]).
pub fn toggle_exec_status(changed: u64, skipped_dirs: u64, failed: u64) -> (r: String)
    ensures
        r@ == toggle_status_spec(changed, skipped_dirs, failed),
{
    if changed > 0 && failed == 0 && skipped_dirs == 0 {
        let a = concat_str("toggled executable bit on ", decimal_string(changed).as_str());
        concat_str(a.as_str(), " file(s)")
    } else if changed > 0 {
        let a = concat_str("toggled ", decimal_string(changed).as_str());
        let b = concat_str(a.as_str(), " file(s), skipped ");
        let c = concat_str(b.as_str(), decimal_string(skipped_dirs).as_str());
        let d = concat_str(c.as_str(), " dir(s), ");
        let e = concat_str(d.as_str(), decimal_string(failed).as_str());
        concat_str(e.as_str(), " failed")
    } else if skipped_dirs > 0 && failed == 0 {
        "no files changed (directories skipped)".to_string()
    } else {
        "failed to toggle executable permissions".to_string()
    }
}

/// The name shown for an owner or group: its name, or its number.
pub fn owner_label(name: Option<String>, id: u32) -> (r: String)
    ensures
        r@ == match name {
            Some(n) => n@,
            None => decimal_spec(id as nat),
        },
{
    match name {
        Some(n) => n,
        None => decimal_string(id as u64),
    }
}

/// One line of the create prompt: trimmed; a leading `/` makes a folder
/// (the rest trimmed again), else `default_is_dir` decides; `None` for a
/// line without a name.
pub open spec fn create_line_spec(line: Seq<char>, default_is_dir: bool) -> Option<(Seq<char>, bool)> {
    let t = trim(line);
    let (name, is_dir) = if t.len() > 0 && t[0] == '/' {
        (trim(t.skip(1)), true)
    } else {
        (t, default_is_dir)
    };
    if name.len() == 0 {
        None
    } else {
        Some((name, is_dir))
    }
}

/// What the create prompt asks for, line by line.
pub open spec fn create_specs_spec(lines: Seq<Seq<char>>, default_is_dir: bool) -> Seq<(Seq<char>, bool)>
    decreases lines.len(),
{
    if lines.len() == 0 {
        Seq::empty()
    } else {
        let rest = create_specs_spec(lines.drop_last(), default_is_dir);
        match create_line_spec(lines.last(), default_is_dir) {
            Some(s) => rest.push(s),
            None => rest,
        }
    }
}

/// The items the create prompt asks for: a name and whether it is a folder,
/// per non-empty line (see [`create_line_spec`]).
pub fn parse_create_specs(input: &str, default_is_dir: bool) -> (r: Vec<(String, bool)>)
    ensures
        r@.map_values(|p: (String, bool)| (p.0@, p.1)) == create_specs_spec(lines_spec(input@), default_is_dir),
{
    let lines = lines_chars(&chars_of(input));
    let ghost lv = lines_spec(input@);
    let mut out: Vec<(String, bool)> = Vec::new();
    let mut i: usize = 0;
    assert(lv.take(0) =~= Seq::<Seq<char>>::empty());
    while i < lines.len()
        invariant
            i <= lines.len(),
            views(lines@) == lv,
            out@.map_values(|p: (String, bool)| (p.0@, p.1)) == create_specs_spec(lv.take(i as int), default_is_dir),
        decreases lines.len() - i,
    {
        assert(lv.take(i + 1).drop_last() =~= lv.take(i as int));
        assert(lv.take(i + 1).last() == lines@[i as int]@);
        let t = trim_chars(&lines[i]);
        let (name, is_dir) = if t.len() > 0 && t[0] == '/' {
            let rest = slice_chars(&t, 1, t.len());
            assert(rest@ =~= t@.skip(1));
            (trim_chars(&rest), true)
        } else {
            (t, default_is_dir)
        };
        if name.len() > 0 {
            let ghost before = out@.map_values(|p: (String, bool)| (p.0@, p.1));
            let s = string_from_chars(name.as_slice());
            out.push((s, is_dir));
            assert(out@.map_values(|p: (String, bool)| (p.0@, p.1)) =~= before.push((name@, is_dir)));
        }
        i = i + 1;
    }
    assert(lv.take(lines.len() as int) =~= lv);
    out
}

/// The status after creating items: the first error (or `create failed`)
/// when none was created, else how many were, and how many failed.
pub open spec fn create_status_spec(created: u64, failed: u64, first_error: Option<Seq<char>>) -> Seq<char> {
    if created == 0 {
        match first_error {
            Some(e) => e,
            None => "create failed"@,
        }
    } else if failed == 0 {
        "created "@ + decimal_spec(created as nat) + " item(s)"@
    } else {
        "created "@ + decimal_spec(created as nat) + " item(s), "@ + decimal_spec(failed as nat) + " failed"@
    }
}

/// The status after creating items (see [`create_status_spec`]).
pub fn create_entries_status(created: u64, failed: u64, first_error: Option<String>) -> (r: String)
    ensures
        r@ == create_status_spec(created, failed, match first_error {
            Some(e) => Some(e@),
            None => None,
        }),
{
    if created == 0 {
        match first_error {
            Some(e) => e,
            None => "create failed".to_string(),
        }
    } else if failed == 0 {
        let a = concat_str("created ", decimal_string(created).as_str());
        concat_str(a.as_str(), " item(s)")
    } else {
        let a = concat_str("created ", decimal_string(created).as_str());
        let b = concat_str(a.as_str(), " item(s), ");
        let c = concat_str(b.as_str(), decimal_string(failed).as_str());
        concat_str(c.as_str(), " failed")
    }
}

/// What follows an attempt to create the items of `specs` (as parsed by
/// [`parse_create_specs`]): with no item named, the status says a name is
/// needed and the editor stays open; otherwise the status of
/// [`create_status_spec`], and the listing is shown again once at least
/// one item was created (`true`).
pub fn create_entries_outcome(specs: &Vec<(String, bool)>, created: u64, failed: u64, first_error: Option<String>) -> (r: (String, bool))
    ensures
        specs@.len() == 0 ==> r.0@ == "name cannot be empty"@ && !r.1,
        specs@.len() > 0 ==> r.0@ == create_status_spec(created, failed, match first_error {
            Some(e) => Some(e@),
            None => None,
        }) && r.1 == (created > 0),
{
    if specs.len() == 0 {
        return ("name cannot be empty".to_string(), false);
    }
    (create_entries_status(created, failed, first_error), created > 0)
}

} // verus!
