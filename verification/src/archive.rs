use vstd::prelude::*;
use crate::filetypes::ArchiveKind;
use crate::fmt::{decimal_spec, decimal_string};
use crate::remote::{to_lowercase, unicode_lowercase};
use crate::search::rfind_char;
use crate::text::{chars_of, concat_str, slice_chars, string_from_chars, trim, trim_chars};

verus! {

/// `Path::file_stem` of a file name: the name before its last `.`, or the
/// whole name when it has no `.` after its first char (and for `..`).
pub open spec fn file_stem_spec(name: Seq<char>) -> Seq<char> {
    let d = rfind_char(name, '.');
    if name == ".."@ || d <= 0 {
        name
    } else {
        name.take(d)
    }
}

/// The stem of a file name (see [`file_stem_spec`]).
pub fn file_stem(name: &str) -> (r: String)
    ensures
        r@ == file_stem_spec(name@),
{
    proof {
        reveal_strlit("..");
    }
    let n = chars_of(name);
    if n.len() == 2 && n[0] == '.' && n[1] == '.' {
        assert(n@ =~= ".."@);
        return string_from_chars(n.as_slice());
    }
    assert(n@ != ".."@);
    if n.len() == 0 {
        proof { crate::search::lemma_rfind_spec(n@, '.', -1); }
        return string_from_chars(n.as_slice());
    }
    let mut d: usize = n.len() - 1;
    while d > 0 && n[d] != '.'
        invariant
            d < n.len(),
            forall|k: int| d < k < n.len() ==> #[trigger] n@[k] != '.',
        decreases d,
    {
        d = d - 1;
    }
    if n[d] == '.' {
        proof { crate::search::lemma_rfind_spec(n@, '.', d as int); }
    } else {
        proof { crate::search::lemma_rfind_spec(n@, '.', -1); }
    }
    if d == 0 {
        string_from_chars(n.as_slice())
    } else {
        let s = slice_chars(&n, 0, d);
        assert(s@ =~= n@.take(d as int));
        string_from_chars(s.as_slice())
    }
}

/// The folder name an archive is extracted into: its stem, or `extracted`
/// when it has none.
pub open spec fn extract_base_spec(file_name: Option<Seq<char>>) -> Seq<char> {
    match file_name {
        Some(n) => if file_stem_spec(n).len() > 0 { file_stem_spec(n) } else { "extracted"@ },
        None => "extracted"@,
    }
}

/// The folder name an archive is extracted into (see
/// [`extract_base_spec`]); `file_name`: the archive's file name.
pub fn extract_base(file_name: Option<&str>) -> (r: String)
    ensures
        r@ == extract_base_spec(match file_name {
            Some(n) => Some(n@),
            None => None,
        }),
{
    match file_name {
        Some(n) => {
            let s = file_stem(n);
            if chars_of(s.as_str()).len() > 0 {
                s
            } else {
                "extracted".to_string()
            }
        },
        None => "extracted".to_string(),
    }
}

/// The `n`-th name tried for a new item: `base` then `base-2`, `base-3`, …
/// (`n` counts from 1), with `ext` after it.
pub open spec fn numbered_name_spec(base: Seq<char>, n: u64, ext: Seq<char>) -> Seq<char> {
    if n <= 1 {
        base + ext
    } else {
        base + "-"@ + decimal_spec(n as nat) + ext
    }
}

/// The `n`-th name tried for a new item (see [`numbered_name_spec`]); the
/// caller tries them in turn until one is free.
pub fn numbered_name(base: &str, n: u64, ext: &str) -> (r: String)
    ensures
        r@ == numbered_name_spec(base@, n, ext@),
{
    if n <= 1 {
        concat_str(base, ext)
    } else {
        let a = concat_str(base, "-");
        let b = concat_str(a.as_str(), decimal_string(n).as_str());
        concat_str(b.as_str(), ext)
    }
}

/// The search for a free name: `base`, then `base-2`, `base-3`, … (each
/// with `ext`); the caller checks each candidate and reports it taken until
/// one is free, so the name kept is the first free one and never a taken
/// one.
pub struct FreeNameSearch {
    base: String,
    ext: String,
    n: u64,
}

impl FreeNameSearch {
    /// The base name searched from.
    pub closed spec fn base(&self) -> Seq<char> {
        self.base@
    }

    /// The extension added to each candidate.
    pub closed spec fn ext(&self) -> Seq<char> {
        self.ext@
    }

    /// How many candidates have been offered (the current one is the
    /// `n`-th).
    pub closed spec fn tried(&self) -> u64 {
        self.n
    }

    /// A search from `base` with `ext`, and its first candidate: `base`
    /// itself (with `ext`).
    pub fn new(base: &str, ext: &str) -> (r: (FreeNameSearch, String))
        ensures
            r.0.base() == base@,
            r.0.ext() == ext@,
            r.0.tried() == 1,
            r.1@ == numbered_name_spec(base@, 1, ext@),
    {
        let first = numbered_name(base, 1, ext);
        (FreeNameSearch { base: base.to_string(), ext: ext.to_string(), n: 1 }, first)
    }

    /// The current candidate is taken: the next one, numbered one higher.
    pub fn on_taken(&mut self) -> (r: String)
        requires
            old(self).tried() < u64::MAX,
        ensures
            final(self).base() == old(self).base(),
            final(self).ext() == old(self).ext(),
            final(self).tried() == old(self).tried() + 1,
            r@ == numbered_name_spec(old(self).base(), (old(self).tried() + 1) as u64, old(self).ext()),
    {
        self.n = self.n + 1;
        numbered_name(self.base.as_str(), self.n, self.ext.as_str())
    }
}

/// The name proposed for a new zip: the one target's file name, or
/// `archive` for several targets or a target without a name.
pub open spec fn zip_base_name_spec(names: Seq<Option<Seq<char>>>) -> Seq<char> {
    if names.len() == 1 {
        match names[0] {
            Some(n) => if n.len() > 0 { n } else { "archive"@ },
            None => "archive"@,
        }
    } else {
        "archive"@
    }
}

/// The name proposed for a new zip (see [`zip_base_name_spec`]);
/// `names[i]`: the file name of target `i`.
pub fn zip_base_name(names: &Vec<Option<String>>) -> (r: String)
    ensures
        r@ == zip_base_name_spec(names@.map_values(|o: Option<String>| match o {
            Some(s) => Some(s@),
            None => None,
        })),
{
    if names.len() == 1 {
        match &names[0] {
            Some(n) => {
                let c = chars_of(n.as_str());
                if c.len() > 0 {
                    return n.clone();
                }
            },
            None => {},
        }
    }
    "archive".to_string()
}

/// `s` ends with `suffix`.
pub open spec fn ends_with_spec(s: Seq<char>, suffix: Seq<char>) -> bool {
    suffix.len() <= s.len() && s.skip(s.len() - suffix.len()) == suffix
}

/// The archive name typed for a new zip: trimmed, with `.zip` added when
/// its lowercase form does not end so; empty names are refused.
pub open spec fn archive_name_spec(input: Seq<char>) -> Option<Seq<char>> {
    let t = trim(input);
    if t.len() == 0 {
        None
    } else if ends_with_spec(unicode_lowercase(t), ".zip"@) {
        Some(t)
    } else {
        Some(t + ".zip"@)
    }
}

fn chars_ends_with(s: &Vec<char>, suffix: &Vec<char>) -> (r: bool)
    ensures
        r == ends_with_spec(s@, suffix@),
{
    if suffix.len() > s.len() {
        return false;
    }
    let off = s.len() - suffix.len();
    let mut i: usize = 0;
    while i < suffix.len()
        invariant
            off + suffix.len() == s.len(),
            i <= suffix.len(),
            forall|k: int| 0 <= k < i ==> s@[off + k] == suffix@[k],
        decreases suffix.len() - i,
    {
        if s[off + i] != suffix[i] {
            assert(s@.skip(off as int)[i as int] != suffix@[i as int]);
            return false;
        }
        i = i + 1;
    }
    assert(s@.skip(off as int) =~= suffix@);
    true
}

/// The archive name typed for a new zip (see [`archive_name_spec`]); `None`
/// when it is empty.
pub fn archive_name_from_input(input: &str) -> (r: Option<String>)
    ensures
        match r {
            Some(s) => archive_name_spec(input@) == Some(s@),
            None => archive_name_spec(input@) is None,
        },
{
    let t = trim_chars(&chars_of(input));
    if t.len() == 0 {
        return None;
    }
    let ts = string_from_chars(t.as_slice());
    let lower = chars_of(to_lowercase(ts.as_str()).as_str());
    if chars_ends_with(&lower, &chars_of(".zip")) {
        Some(ts)
    } else {
        Some(concat_str(ts.as_str(), ".zip"))
    }
}

/// A command to run: the program and its arguments.
pub struct ToolCommand {
    pub program: String,
    pub args: Vec<String>,
}

/// A command as values.
pub open spec fn command_view(c: ToolCommand) -> (Seq<char>, Seq<Seq<char>>) {
    (c.program@, c.args@.map_values(|a: String| a@))
}

/// The command that extracts `archive` into `out_dir`: `unzip -q A -d D`,
/// `tar -xf A -C D`, the 7-Zip tool with `x -y -oD A`, or the RAR tool with
/// `x -o+ A D`; none when the kind is unknown or its tool is missing.
pub open spec fn extract_command_spec(
    kind: Option<ArchiveKind>,
    archive: Seq<char>,
    out_dir: Seq<char>,
    seven_zip: Option<Seq<char>>,
    rar: Option<Seq<char>>,
) -> Option<(Seq<char>, Seq<Seq<char>>)> {
    match kind {
        Some(ArchiveKind::Zip) => Some(("unzip"@, seq!["-q"@, archive, "-d"@, out_dir])),
        Some(ArchiveKind::Tar) => Some(("tar"@, seq!["-xf"@, archive, "-C"@, out_dir])),
        Some(ArchiveKind::SevenZip) => match seven_zip {
            Some(t) => Some((t, seq!["x"@, "-y"@, "-o"@ + out_dir, archive])),
            None => None,
        },
        Some(ArchiveKind::Rar) => match rar {
            Some(t) => Some((t, seq!["x"@, "-o+"@, archive, out_dir])),
            None => None,
        },
        None => None,
    }
}

fn args4(a: &str, b: &str, c: &str, d: &str) -> (r: Vec<String>)
    ensures
        r@.map_values(|x: String| x@) == seq![a@, b@, c@, d@],
{
    let mut v: Vec<String> = Vec::new();
    v.push(a.to_string());
    v.push(b.to_string());
    v.push(c.to_string());
    v.push(d.to_string());
    assert(v@.map_values(|x: String| x@) =~= seq![a@, b@, c@, d@]);
    v
}

/// The command that extracts an archive (see [`extract_command_spec`]).
pub fn extract_command(
    kind: Option<ArchiveKind>,
    archive: &str,
    out_dir: &str,
    seven_zip: Option<&str>,
    rar: Option<&str>,
) -> (r: Option<ToolCommand>)
    ensures
        match r {
            Some(c) => extract_command_spec(kind, archive@, out_dir@, match seven_zip {
                Some(t) => Some(t@),
                None => None,
            }, match rar {
                Some(t) => Some(t@),
                None => None,
            }) == Some(command_view(c)),
            None => extract_command_spec(kind, archive@, out_dir@, match seven_zip {
                Some(t) => Some(t@),
                None => None,
            }, match rar {
                Some(t) => Some(t@),
                None => None,
            }) is None,
        },
{
    match kind {
        Some(ArchiveKind::Zip) => Some(ToolCommand { program: "unzip".to_string(), args: args4("-q", archive, "-d", out_dir) }),
        Some(ArchiveKind::Tar) => Some(ToolCommand { program: "tar".to_string(), args: args4("-xf", archive, "-C", out_dir) }),
        Some(ArchiveKind::SevenZip) => match seven_zip {
            Some(t) => {
                let o = concat_str("-o", out_dir);
                Some(ToolCommand { program: t.to_string(), args: args4("x", "-y", o.as_str(), archive) })
            },
            None => None,
        },
        Some(ArchiveKind::Rar) => match rar {
            Some(t) => Some(ToolCommand { program: t.to_string(), args: args4("x", "-o+", archive, out_dir) }),
            None => None,
        },
        None => None,
    }
}

/// The command that lists an archive's contents: `unzip -l A` when zip is on
/// and `unzip` found, `tar -tvf A` when tar is in use, the 7-Zip or RAR tool
/// (when on and found) with `l A`; none otherwise.
pub open spec fn listing_command_spec(
    kind: Option<ArchiveKind>,
    archive: Seq<char>,
    unzip_usable: bool,
    tar_active: bool,
    seven_zip: Option<Seq<char>>,
    rar: Option<Seq<char>>,
) -> Option<(Seq<char>, Seq<Seq<char>>)> {
    match kind {
        Some(ArchiveKind::Zip) => if unzip_usable { Some(("unzip"@, seq!["-l"@, archive])) } else { None },
        Some(ArchiveKind::Tar) => if tar_active { Some(("tar"@, seq!["-tvf"@, archive])) } else { None },
        Some(ArchiveKind::SevenZip) => match seven_zip {
            Some(t) => Some((t, seq!["l"@, archive])),
            None => None,
        },
        Some(ArchiveKind::Rar) => match rar {
            Some(t) => Some((t, seq!["l"@, archive])),
            None => None,
        },
        None => None,
    }
}

fn args2(a: &str, b: &str) -> (r: Vec<String>)
    ensures
        r@.map_values(|x: String| x@) == seq![a@, b@],
{
    let mut v: Vec<String> = Vec::new();
    v.push(a.to_string());
    v.push(b.to_string());
    assert(v@.map_values(|x: String| x@) =~= seq![a@, b@]);
    v
}

/// The command that lists an archive (see [`listing_command_spec`]);
/// `seven_zip` and `rar`: the tool to use, when its integration is on and
/// one was found.
pub fn archive_listing_command(
    kind: Option<ArchiveKind>,
    archive: &str,
    unzip_usable: bool,
    tar_active: bool,
    seven_zip: Option<&str>,
    rar: Option<&str>,
) -> (r: Option<ToolCommand>)
    ensures
        (match r {
            Some(c) => Some(command_view(c)),
            None => None,
        }) == listing_command_spec(kind, archive@, unzip_usable, tar_active, match seven_zip {
            Some(t) => Some(t@),
            None => None,
        }, match rar {
            Some(t) => Some(t@),
            None => None,
        }),
{
    match kind {
        Some(ArchiveKind::Zip) => if unzip_usable {
            Some(ToolCommand { program: "unzip".to_string(), args: args2("-l", archive) })
        } else {
            None
        },
        Some(ArchiveKind::Tar) => if tar_active {
            Some(ToolCommand { program: "tar".to_string(), args: args2("-tvf", archive) })
        } else {
            None
        },
        Some(ArchiveKind::SevenZip) => match seven_zip {
            Some(t) => Some(ToolCommand { program: t.to_string(), args: args2("l", archive) }),
            None => None,
        },
        Some(ArchiveKind::Rar) => match rar {
            Some(t) => Some(ToolCommand { program: t.to_string(), args: args2("l", archive) }),
            None => None,
        },
        None => None,
    }
}

/// The status after an archive listing was shown (or could not be).
pub fn archive_listing_status(name: &str, tool_found: bool, shown: bool) -> (r: String)
    ensures
        r@ == if !tool_found {
            "no archive preview tool available for "@ + name@
        } else if shown {
            "previewed archive listing: "@ + name@
        } else {
            "failed to preview archive: "@ + name@
        },
{
    if !tool_found {
        concat_str("no archive preview tool available for ", name)
    } else if shown {
        concat_str("previewed archive listing: ", name)
    } else {
        concat_str("failed to preview archive: ", name)
    }
}

/// The status after extracting: how many archives were extracted, or how
/// many succeeded and failed.
pub fn extract_summary_status(ok: u64, failed: u64) -> (r: String)
    ensures
        r@ == if failed == 0 {
            "extracted "@ + decimal_spec(ok as nat) + " archive(s)"@
        } else {
            "extract finished: "@ + decimal_spec(ok as nat) + " ok, "@ + decimal_spec(failed as nat) + " failed"@
        },
{
    if failed == 0 {
        let a = concat_str("extracted ", decimal_string(ok).as_str());
        concat_str(a.as_str(), " archive(s)")
    } else {
        let a = concat_str("extract finished: ", decimal_string(ok).as_str());
        let b = concat_str(a.as_str(), " ok, ");
        let c = concat_str(b.as_str(), decimal_string(failed).as_str());
        concat_str(c.as_str(), " failed")
    }
}

/// The arguments of `zip` for a new archive: `-r`, its name, the items.
pub fn zip_command_args(archive_name: &str, item_names: &Vec<String>) -> (r: Vec<String>)
    ensures
        r@.map_values(|x: String| x@) == seq!["-r"@, archive_name@] + item_names@.map_values(|x: String| x@),
{
    let mut v: Vec<String> = Vec::new();
    v.push("-r".to_string());
    v.push(archive_name.to_string());
    let mut i: usize = 0;
    while i < item_names.len()
        invariant
            i <= item_names.len(),
            v@.map_values(|x: String| x@) == seq!["-r"@, archive_name@] + item_names@.take(i as int).map_values(|x: String| x@),
        decreases item_names.len() - i,
    {
        let ghost before = v@.map_values(|x: String| x@);
        v.push(item_names[i].clone());
        assert(v@.map_values(|x: String| x@) =~= before.push(item_names@[i as int]@));
        assert(item_names@.take(i + 1).map_values(|x: String| x@) =~= item_names@.take(i as int).map_values(|x: String| x@).push(item_names@[i as int]@));
        i = i + 1;
    }
    assert(item_names@.take(item_names.len() as int) =~= item_names@);
    v
}

/// What the zip key does with the selection.
#[derive(Clone, Copy, PartialEq, Eq, Structural, Debug)]
pub enum ZipActionPlan {
    /// An archive job is already running.
    Busy,
    /// Nothing is selected.
    NoSelection,
    /// Every target is an archive, but one cannot be extracted here.
    MissingExtractor,
    /// Every target is an archive: ask to extract them.
    ConfirmExtract,
    /// `zip` is off or not installed.
    ZipMissing,
    /// Ask for the name of a new zip of the targets.
    NameArchive,
}

/// What the zip key does: with only archives selected, extract them (if
/// each can be); otherwise zip the selection, if `zip` is there.
pub fn plan_zip_action(
    busy: bool,
    target_count: usize,
    all_archives: bool,
    all_extractable: bool,
    zip_available: bool,
) -> (r: ZipActionPlan)
    ensures
        r == if busy {
            ZipActionPlan::Busy
        } else if target_count == 0 {
            ZipActionPlan::NoSelection
        } else if all_archives {
            if all_extractable { ZipActionPlan::ConfirmExtract } else { ZipActionPlan::MissingExtractor }
        } else if !zip_available {
            ZipActionPlan::ZipMissing
        } else {
            ZipActionPlan::NameArchive
        },
{
    if busy {
        ZipActionPlan::Busy
    } else if target_count == 0 {
        ZipActionPlan::NoSelection
    } else if all_archives {
        if all_extractable { ZipActionPlan::ConfirmExtract } else { ZipActionPlan::MissingExtractor }
    } else if !zip_available {
        ZipActionPlan::ZipMissing
    } else {
        ZipActionPlan::NameArchive
    }
}

/// Whether an archive can be extracted here: zip needs `unzip` (and the zip
/// integration on), tar the active tar integration, 7-Zip and RAR their
/// tools (and their integrations on).
pub fn can_extract_archive(
    kind: Option<ArchiveKind>,
    zip_enabled: bool,
    unzip_found: bool,
    tar_active: bool,
    seven_zip_enabled: bool,
    seven_zip_found: bool,
    rar_enabled: bool,
    rar_found: bool,
) -> (r: bool)
    ensures
        r == match kind {
            Some(ArchiveKind::Zip) => zip_enabled && unzip_found,
            Some(ArchiveKind::Tar) => tar_active,
            Some(ArchiveKind::SevenZip) => seven_zip_enabled && seven_zip_found,
            Some(ArchiveKind::Rar) => rar_enabled && rar_found,
            None => false,
        },
{
    match kind {
        Some(ArchiveKind::Zip) => zip_enabled && unzip_found,
        Some(ArchiveKind::Tar) => tar_active,
        Some(ArchiveKind::SevenZip) => seven_zip_enabled && seven_zip_found,
        Some(ArchiveKind::Rar) => rar_enabled && rar_found,
        None => false,
    }
}

} // verus!
