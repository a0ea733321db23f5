use vstd::prelude::*;
use crate::text::{
    ascii_lower_chars, ascii_lower_seq, chars_eq, chars_of, concat_str, slice_chars,
    string_from_chars,
};

verus! {

/// `Path::extension` of a file name: the text after the last `'.'`, when
/// something comes before that dot.
pub open spec fn extension_spec(name: Seq<char>) -> Option<Seq<char>> {
    let d = crate::search::rfind_char(name, '.');
    if name == ".."@ || d <= 0 {
        None
    } else {
        Some(name.skip(d + 1))
    }
}

proof fn lemma_rfind_bounds(s: Seq<char>, c: char)
    ensures
        -1 <= crate::search::rfind_char(s, c) < s.len(),
    decreases s.len(),
{
    if s.len() > 0 {
        lemma_rfind_bounds(s.drop_last(), c);
    }
}

/// The extension of a file name.
pub fn extension_of(name: &Vec<char>) -> (r: Option<Vec<char>>)
    ensures
        match r {
            Some(e) => extension_spec(name@) == Some(e@),
            None => extension_spec(name@).is_none(),
        },
{
    let dd = chars_of("..");
    if chars_eq(name.as_slice(), dd.as_slice()) {
        return None;
    }
    if name.len() == 0 {
        return None;
    }
    let mut d: usize = name.len();
    while d > 0 && name[d - 1] != '.'
        invariant
            d <= name.len(),
            forall|k: int| d <= k < name.len() ==> #[trigger] name@[k] != '.',
        decreases d,
    {
        d = d - 1;
    }
    proof {
        crate::search::lemma_rfind_spec(name@, '.', d as int - 1);
    }
    if d <= 1 {
        return None;
    }
    let e = slice_chars(name, d, name.len());
    assert(e@ =~= name@.skip(d as int));
    Some(e)
}

/// Equal when ASCII case is ignored.
pub open spec fn eq_ic_seq(a: Seq<char>, b: Seq<char>) -> bool {
    ascii_lower_seq(a) == ascii_lower_seq(b)
}

/// `str::eq_ignore_ascii_case`.
pub fn eq_ic_chars(a: &Vec<char>, b: &Vec<char>) -> (r: bool)
    ensures
        r == eq_ic_seq(a@, b@),
{
    let x = ascii_lower_chars(a);
    let y = ascii_lower_chars(b);
    chars_eq(x.as_slice(), y.as_slice())
}

/// The name's extension matches one in `list`, ASCII case ignored.
pub open spec fn has_ext_in(name: Seq<char>, list: Seq<Seq<char>>) -> bool {
    match extension_spec(name) {
        Some(e) => exists|i: int| 0 <= i < list.len() && eq_ic_seq(e, #[trigger] list[i]),
        None => false,
    }
}

/// Whether the name's extension is in `list`, ASCII case ignored.
pub fn ext_in(name: &Vec<char>, list: &Vec<&'static str>) -> (r: bool)
    ensures
        r == has_ext_in(name@, list@.map_values(|x: &'static str| x@)),
{
    let ghost l = list@.map_values(|x: &'static str| x@);
    match extension_of(name) {
        None => false,
        Some(e) => {
            let mut i: usize = 0;
            while i < list.len()
                invariant
                    i <= list.len(),
                    l == list@.map_values(|x: &'static str| x@),
                    extension_spec(name@) == Some(e@),
                    forall|k: int| 0 <= k < i ==> !eq_ic_seq(e@, #[trigger] l[k]),
                decreases list.len() - i,
            {
                let x = chars_of(list[i]);
                if eq_ic_chars(&e, &x) {
                    assert(eq_ic_seq(e@, l[i as int]));
                    return true;
                }
                i = i + 1;
            }
            false
        },
    }
}

/// The zip based list.
pub open spec fn zip_based_spec() -> Seq<Seq<char>> {
    seq!["zip"@, "jar"@, "war"@, "ear"@, "apk"@, "xpi"@, "crx"@, "cbz"@, "epub"@, "ipa"@, "odt"@, "ods"@, "odp"@, "odg"@, "odf"@, "ott"@, "ots"@, "otp"@, "sxw"@, "sxc"@, "sxi"@, "docx"@, "xlsx"@, "pptx"@, "vsix"@, "nupkg"@, "kmz"@, "whl"@]
}

/// The zip based list.
pub fn zip_based_list() -> (r: Vec<&'static str>)
    ensures
        r@.map_values(|x: &'static str| x@) == zip_based_spec(),
{
    let mut v: Vec<&'static str> = Vec::new();
    v.push("zip");
    v.push("jar");
    v.push("war");
    v.push("ear");
    v.push("apk");
    v.push("xpi");
    v.push("crx");
    v.push("cbz");
    v.push("epub");
    v.push("ipa");
    v.push("odt");
    v.push("ods");
    v.push("odp");
    v.push("odg");
    v.push("odf");
    v.push("ott");
    v.push("ots");
    v.push("otp");
    v.push("sxw");
    v.push("sxc");
    v.push("sxi");
    v.push("docx");
    v.push("xlsx");
    v.push("pptx");
    v.push("vsix");
    v.push("nupkg");
    v.push("kmz");
    v.push("whl");
    assert(v@.map_values(|x: &'static str| x@) =~= zip_based_spec());
    v
}

/// The image list.
pub open spec fn image_spec() -> Seq<Seq<char>> {
    seq!["png"@, "jpg"@, "jpeg"@, "gif"@, "webp"@, "bmp"@, "tif"@, "tiff"@, "avif"@, "heic"@, "ico"@]
}

/// The image list.
pub fn image_list() -> (r: Vec<&'static str>)
    ensures
        r@.map_values(|x: &'static str| x@) == image_spec(),
{
    let mut v: Vec<&'static str> = Vec::new();
    v.push("png");
    v.push("jpg");
    v.push("jpeg");
    v.push("gif");
    v.push("webp");
    v.push("bmp");
    v.push("tif");
    v.push("tiff");
    v.push("avif");
    v.push("heic");
    v.push("ico");
    assert(v@.map_values(|x: &'static str| x@) =~= image_spec());
    v
}

/// The audio list.
pub open spec fn audio_spec() -> Seq<Seq<char>> {
    seq!["mp3"@, "flac"@, "wav"@, "ogg"@, "opus"@, "m4a"@, "aac"@, "wma"@, "aiff"@, "aif"@, "alac"@, "mid"@, "midi"@]
}

/// The audio list.
pub fn audio_list() -> (r: Vec<&'static str>)
    ensures
        r@.map_values(|x: &'static str| x@) == audio_spec(),
{
    let mut v: Vec<&'static str> = Vec::new();
    v.push("mp3");
    v.push("flac");
    v.push("wav");
    v.push("ogg");
    v.push("opus");
    v.push("m4a");
    v.push("aac");
    v.push("wma");
    v.push("aiff");
    v.push("aif");
    v.push("alac");
    v.push("mid");
    v.push("midi");
    assert(v@.map_values(|x: &'static str| x@) =~= audio_spec());
    v
}

/// The json list.
pub open spec fn json_spec() -> Seq<Seq<char>> {
    seq!["json"@, "jsonc"@, "jsonl"@, "ndjson"@, "geojson"@]
}

/// The json list.
pub fn json_list() -> (r: Vec<&'static str>)
    ensures
        r@.map_values(|x: &'static str| x@) == json_spec(),
{
    let mut v: Vec<&'static str> = Vec::new();
    v.push("json");
    v.push("jsonc");
    v.push("jsonl");
    v.push("ndjson");
    v.push("geojson");
    assert(v@.map_values(|x: &'static str| x@) =~= json_spec());
    v
}

/// The markdown list.
pub open spec fn markdown_spec() -> Seq<Seq<char>> {
    seq!["md"@, "markdown"@, "mdown"@, "mkd"@, "mkdn"@]
}

/// The markdown list.
pub fn markdown_list() -> (r: Vec<&'static str>)
    ensures
        r@.map_values(|x: &'static str| x@) == markdown_spec(),
{
    let mut v: Vec<&'static str> = Vec::new();
    v.push("md");
    v.push("markdown");
    v.push("mdown");
    v.push("mkd");
    v.push("mkdn");
    assert(v@.map_values(|x: &'static str| x@) =~= markdown_spec());
    v
}

/// The html list.
pub open spec fn html_spec() -> Seq<Seq<char>> {
    seq!["html"@, "htm"@, "xhtml"@]
}

/// The html list.
pub fn html_list() -> (r: Vec<&'static str>)
    ensures
        r@.map_values(|x: &'static str| x@) == html_spec(),
{
    let mut v: Vec<&'static str> = Vec::new();
    v.push("html");
    v.push("htm");
    v.push("xhtml");
    assert(v@.map_values(|x: &'static str| x@) =~= html_spec());
    v
}

/// The delimited list.
pub open spec fn delimited_spec() -> Seq<Seq<char>> {
    seq!["csv"@, "tsv"@, "tab"@, "psv"@, "dsv"@, "ssv"@]
}

/// The delimited list.
pub fn delimited_list() -> (r: Vec<&'static str>)
    ensures
        r@.map_values(|x: &'static str| x@) == delimited_spec(),
{
    let mut v: Vec<&'static str> = Vec::new();
    v.push("csv");
    v.push("tsv");
    v.push("tab");
    v.push("psv");
    v.push("dsv");
    v.push("ssv");
    assert(v@.map_values(|x: &'static str| x@) =~= delimited_spec());
    v
}

/// The tar suffixes list.
pub open spec fn tar_suffixes_spec() -> Seq<Seq<char>> {
    seq![".tar"@, ".tar.gz"@, ".tgz"@, ".tar.bz2"@, ".tbz"@, ".tbz2"@, ".tar.xz"@, ".txz"@, ".tar.zst"@, ".tzst"@]
}

/// The tar suffixes list.
pub fn tar_suffixes_list() -> (r: Vec<&'static str>)
    ensures
        r@.map_values(|x: &'static str| x@) == tar_suffixes_spec(),
{
    let mut v: Vec<&'static str> = Vec::new();
    v.push(".tar");
    v.push(".tar.gz");
    v.push(".tgz");
    v.push(".tar.bz2");
    v.push(".tbz");
    v.push(".tbz2");
    v.push(".tar.xz");
    v.push(".txz");
    v.push(".tar.zst");
    v.push(".tzst");
    assert(v@.map_values(|x: &'static str| x@) =~= tar_suffixes_spec());
    v
}


/// Whether the file name has a image extension.
pub fn is_image_file(name: &str) -> (r: bool)
    ensures
        r == has_ext_in(name@, image_spec()),
{
    let n = chars_of(name);
    ext_in(&n, &image_list())
}

/// Whether the file name has a audio extension.
pub fn is_audio_file(name: &str) -> (r: bool)
    ensures
        r == has_ext_in(name@, audio_spec()),
{
    let n = chars_of(name);
    ext_in(&n, &audio_list())
}

/// Whether the file name has a json extension.
pub fn is_json_file(name: &str) -> (r: bool)
    ensures
        r == has_ext_in(name@, json_spec()),
{
    let n = chars_of(name);
    ext_in(&n, &json_list())
}

/// Whether the file name has a markdown extension.
pub fn is_markdown_file(name: &str) -> (r: bool)
    ensures
        r == has_ext_in(name@, markdown_spec()),
{
    let n = chars_of(name);
    ext_in(&n, &markdown_list())
}

/// Whether the file name has a html extension.
pub fn is_html_file(name: &str) -> (r: bool)
    ensures
        r == has_ext_in(name@, html_spec()),
{
    let n = chars_of(name);
    ext_in(&n, &html_list())
}

/// Whether the file name has a delimited text extension.
pub fn is_delimited_text_file(name: &str) -> (r: bool)
    ensures
        r == has_ext_in(name@, delimited_spec()),
{
    let n = chars_of(name);
    ext_in(&n, &delimited_list())
}

/// Whether the file name has the extension `mmd`, ASCII case ignored.
pub fn is_mermaid_file(name: &str) -> (r: bool)
    ensures
        r == has_ext_in(name@, seq!["mmd"@]),
{
    let n = chars_of(name);
    let mut l: Vec<&'static str> = Vec::new();
    l.push("mmd");
    assert(l@.map_values(|x: &'static str| x@) =~= seq!["mmd"@]);
    ext_in(&n, &l)
}

/// Whether the file name has the extension `pdf`, ASCII case ignored.
pub fn is_pdf_file(name: &str) -> (r: bool)
    ensures
        r == has_ext_in(name@, seq!["pdf"@]),
{
    let n = chars_of(name);
    let mut l: Vec<&'static str> = Vec::new();
    l.push("pdf");
    assert(l@.map_values(|x: &'static str| x@) =~= seq!["pdf"@]);
    ext_in(&n, &l)
}

/// Whether the file name has the extension `cast`, ASCII case ignored.
pub fn is_cast_file(name: &str) -> (r: bool)
    ensures
        r == has_ext_in(name@, seq!["cast"@]),
{
    let n = chars_of(name);
    let mut l: Vec<&'static str> = Vec::new();
    l.push("cast");
    assert(l@.map_values(|x: &'static str| x@) =~= seq!["cast"@]);
    ext_in(&n, &l)
}

/// Whether the file name has the extension `age`, ASCII case ignored.
pub fn is_age_protected_file(name: &str) -> (r: bool)
    ensures
        r == has_ext_in(name@, seq!["age"@]),
{
    let n = chars_of(name);
    let mut l: Vec<&'static str> = Vec::new();
    l.push("age");
    assert(l@.map_values(|x: &'static str| x@) =~= seq!["age"@]);
    ext_in(&n, &l)
}

/// `s` ends with `suf`.
pub open spec fn ends_with(s: Seq<char>, suf: Seq<char>) -> bool {
    s.len() >= suf.len() && s.skip(s.len() - suf.len()) == suf
}

/// Whether `s` ends with `suf`.
pub fn ends_with_chars(s: &Vec<char>, suf: &Vec<char>) -> (r: bool)
    ensures
        r == ends_with(s@, suf@),
{
    if s.len() < suf.len() {
        return false;
    }
    let tail = slice_chars(s, s.len() - suf.len(), s.len());
    assert(tail@ =~= s@.skip(s.len() - suf.len()));
    chars_eq(tail.as_slice(), suf.as_slice())
}

/// The lower-case name ends with a tar suffix.
pub open spec fn tar_like_spec(name: Seq<char>) -> bool {
    exists|i: int| 0 <= i < tar_suffixes_spec().len() && ends_with(ascii_lower_seq(name), #[trigger] tar_suffixes_spec()[i])
}

/// Whether the lower-case name ends with a tar suffix.
pub fn is_tar_like(name: &Vec<char>) -> (r: bool)
    ensures
        r == tar_like_spec(name@),
{
    let lower = ascii_lower_chars(name);
    let l = tar_suffixes_list();
    let ghost ls = l@.map_values(|x: &'static str| x@);
    let mut i: usize = 0;
    while i < l.len()
        invariant
            i <= l.len(),
            ls == l@.map_values(|x: &'static str| x@),
            ls == tar_suffixes_spec(),
            lower@ == ascii_lower_seq(name@),
            forall|k: int| 0 <= k < i ==> !ends_with(lower@, #[trigger] ls[k]),
        decreases l.len() - i,
    {
        let suf = chars_of(l[i]);
        if ends_with_chars(&lower, &suf) {
            assert(ends_with(lower@, ls[i as int]));
            return true;
        }
        i = i + 1;
    }
    false
}

/// The archive families handled.
#[derive(Clone, Copy, PartialEq, Eq, Structural, Debug)]
pub enum ArchiveKind {
    Zip,
    Tar,
    SevenZip,
    Rar,
}

/// The first bytes of a file begin with a ZIP signature (local header, empty
/// archive, or spanned archive).
pub open spec fn zip_signature_spec(head: Seq<u8>) -> bool {
    head.len() >= 4 && head[0] == 0x50 && head[1] == 0x4B && ((head[2] == 0x03 && head[3] == 0x04)
        || (head[2] == 0x05 && head[3] == 0x06) || (head[2] == 0x07 && head[3] == 0x08))
}

/// Whether the bytes read from the start of a file (at most four) are a ZIP
/// signature.
pub fn has_zip_signature(head: &[u8]) -> (r: bool)
    ensures
        r == zip_signature_spec(head@),
{
    head.len() >= 4 && head[0] == 0x50 && head[1] == 0x4B && ((head[2] == 0x03 && head[3] == 0x04)
        || (head[2] == 0x05 && head[3] == 0x06) || (head[2] == 0x07 && head[3] == 0x08))
}

/// Whether a block read from a file holds a NUL byte.
pub fn is_binary_block(block: &[u8]) -> (r: bool)
    ensures
        r == block@.contains(0u8),
{
    let mut i: usize = 0;
    while i < block.len()
        invariant
            i <= block.len(),
            forall|k: int| 0 <= k < i ==> block@[k] != 0u8,
        decreases block.len() - i,
    {
        if block[i] == 0 {
            assert(block@[i as int] == 0u8);
            return true;
        }
        i = i + 1;
    }
    false
}

/// The archive kind of a file, from its name and whether its first bytes
/// are a ZIP signature.
pub open spec fn archive_kind_spec(name: Seq<char>, zip_signature: bool) -> Option<ArchiveKind> {
    let lower = ascii_lower_seq(name);
    if has_ext_in(name, zip_based_spec()) || zip_signature {
        Some(ArchiveKind::Zip)
    } else if tar_like_spec(name) {
        Some(ArchiveKind::Tar)
    } else if ends_with(lower, ".7z"@) {
        Some(ArchiveKind::SevenZip)
    } else if ends_with(lower, ".rar"@) {
        Some(ArchiveKind::Rar)
    } else {
        None
    }
}

/// The archive kind of a file.
pub fn archive_kind(name: &str, zip_signature: bool) -> (r: Option<ArchiveKind>)
    ensures
        r == archive_kind_spec(name@, zip_signature),
{
    let n = chars_of(name);
    if ext_in(&n, &zip_based_list()) || zip_signature {
        return Some(ArchiveKind::Zip);
    }
    if is_tar_like(&n) {
        return Some(ArchiveKind::Tar);
    }
    let lower = ascii_lower_chars(&n);
    if ends_with_chars(&lower, &chars_of(".7z")) {
        return Some(ArchiveKind::SevenZip);
    }
    if ends_with_chars(&lower, &chars_of(".rar")) {
        return Some(ArchiveKind::Rar);
    }
    None
}

/// Whether a file is an archive that can be listed or extracted.
pub fn is_supported_archive(name: &str, zip_signature: bool) -> (r: bool)
    ensures
        r == archive_kind_spec(name@, zip_signature).is_some(),
{
    archive_kind(name, zip_signature).is_some()
}

/// Whether a file is browsed with fuse-zip.
pub fn is_fuse_zip_archive(name: &str, zip_signature: bool) -> (r: bool)
    ensures
        r == (archive_kind_spec(name@, zip_signature) == Some(ArchiveKind::Zip)),
{
    match archive_kind(name, zip_signature) {
        Some(ArchiveKind::Zip) => true,
        _ => false,
    }
}

/// Whether a file is browsed with archivemount.
pub fn is_archivemount_archive(name: &str, zip_signature: bool) -> (r: bool)
    ensures
        r == (archive_kind_spec(name@, zip_signature) == Some(ArchiveKind::Zip)
            || archive_kind_spec(name@, zip_signature) == Some(ArchiveKind::Tar)),
{
    match archive_kind(name, zip_signature) {
        Some(ArchiveKind::Zip) => true,
        Some(ArchiveKind::Tar) => true,
        _ => false,
    }
}

/// The path that an age-protected copy of `path` gets.
pub fn age_protected_output_path(path: &str) -> (r: String)
    ensures
        r@ == path@ + ".age"@,
{
    concat_str(path, ".age")
}

/// The file name that decrypting a protected file gets: the name without
/// its extension, or with `.decrypted` added when it has none.
pub open spec fn age_plain_name_spec(name: Seq<char>) -> Seq<char> {
    match extension_spec(name) {
        Some(e) => name.take(name.len() - e.len() - 1),
        None => name + ".decrypted"@,
    }
}

/// The file name that decrypting a protected file gets.
pub fn age_plain_output_name(name: &str) -> (r: String)
    ensures
        r@ == age_plain_name_spec(name@),
{
    let n = chars_of(name);
    match extension_of(&n) {
        Some(e) => {
            proof {
                let d = crate::search::rfind_char(n@, '.');
                lemma_rfind_bounds(n@, '.');
                assert(e@.len() == n@.len() - d - 1);
            }
            let base = slice_chars(&n, 0, n.len() - e.len() - 1);
            assert(base@ =~= n@.take(n.len() - e.len() - 1));
            string_from_chars(base.as_slice())
        },
        None => concat_str(name, ".decrypted"),
    }
}


/// What a file is, as the viewers see it.
#[derive(Clone, Copy)]
pub struct FileFacts {
    pub image: bool,
    pub audio: bool,
    pub json: bool,
    pub markdown: bool,
    pub html: bool,
    pub mermaid: bool,
    pub pdf: bool,
    pub cast: bool,
    pub delimited: bool,
    pub archive: bool,
    pub binary: bool,
}

/// What a file is, from its name, whether it starts with a ZIP signature,
/// and whether its first block holds a NUL byte.
pub open spec fn facts_spec(name: Seq<char>, zip_signature: bool, binary: bool) -> FileFacts {
    FileFacts {
        image: has_ext_in(name, image_spec()),
        audio: has_ext_in(name, audio_spec()),
        json: has_ext_in(name, json_spec()),
        markdown: has_ext_in(name, markdown_spec()),
        html: has_ext_in(name, html_spec()),
        mermaid: has_ext_in(name, seq!["mmd"@]),
        pdf: has_ext_in(name, seq!["pdf"@]),
        cast: has_ext_in(name, seq!["cast"@]),
        delimited: has_ext_in(name, delimited_spec()),
        archive: archive_kind_spec(name, zip_signature).is_some(),
        binary,
    }
}

/// Classifies a file for the viewers.
pub fn classify_file(name: &str, zip_signature: bool, binary: bool) -> (f: FileFacts)
    ensures
        f == facts_spec(name@, zip_signature, binary),
{
    FileFacts {
        image: is_image_file(name),
        audio: is_audio_file(name),
        json: is_json_file(name),
        markdown: is_markdown_file(name),
        html: is_html_file(name),
        mermaid: is_mermaid_file(name),
        pdf: is_pdf_file(name),
        cast: is_cast_file(name),
        delimited: is_delimited_text_file(name),
        archive: is_supported_archive(name, zip_signature),
        binary,
    }
}

/// Which viewer tools can be used.
#[derive(Clone, Copy)]
pub struct ToolAvailability {
    pub viu: bool,
    pub chafa: bool,
    pub glow: bool,
    pub mmdflux: bool,
    pub links: bool,
    pub jnv: bool,
    pub csvlens: bool,
    pub sox: bool,
    pub asciinema: bool,
    pub pdftotext: bool,
    pub hexyl: bool,
    pub bat: bool,
}

/// The program a file is shown with.
#[derive(Clone, Copy, PartialEq, Eq, Structural, Debug)]
pub enum Viewer {
    Viu,
    Chafa,
    Glow,
    Mmdflux,
    Links,
    Jnv,
    Csvlens,
    AudioPlayer,
    Asciinema,
    ArchiveListing,
    Pdftotext,
    Hexyl,
    Bat,
    Pager,
    Cat,
}

/// The viewer for a decrypted protected file.
pub open spec fn protected_preview_viewer_spec(f: FileFacts, t: ToolAvailability) -> Viewer {
    if f.image && t.viu {
        Viewer::Viu
    } else if f.image && t.chafa {
        Viewer::Chafa
    } else if f.markdown && t.glow {
        Viewer::Glow
    } else if f.mermaid && t.mmdflux {
        Viewer::Mmdflux
    } else if f.html && t.links {
        Viewer::Links
    } else if f.json && t.jnv {
        Viewer::Jnv
    } else if f.delimited && t.csvlens {
        Viewer::Csvlens
    } else if f.audio && t.sox {
        Viewer::AudioPlayer
    } else if f.cast && t.asciinema {
        Viewer::Asciinema
    } else if f.archive {
        Viewer::ArchiveListing
    } else if f.pdf && t.pdftotext {
        Viewer::Pdftotext
    } else if f.binary && t.hexyl {
        Viewer::Hexyl
    } else if t.bat {
        Viewer::Bat
    } else {
        Viewer::Pager
    }
}

/// The viewer for a decrypted protected file (first match wins: images with
/// viu then chafa, Markdown, Mermaid, HTML, JSON, delimited text, audio,
/// recordings, archives, PDF, binary, bat, else the pager).
pub fn protected_preview_viewer(f: FileFacts, t: ToolAvailability) -> (v: Viewer)
    ensures
        v == protected_preview_viewer_spec(f, t),
{
    if f.image && t.viu {
        Viewer::Viu
    } else if f.image && t.chafa {
        Viewer::Chafa
    } else if f.markdown && t.glow {
        Viewer::Glow
    } else if f.mermaid && t.mmdflux {
        Viewer::Mmdflux
    } else if f.html && t.links {
        Viewer::Links
    } else if f.json && t.jnv {
        Viewer::Jnv
    } else if f.delimited && t.csvlens {
        Viewer::Csvlens
    } else if f.audio && t.sox {
        Viewer::AudioPlayer
    } else if f.cast && t.asciinema {
        Viewer::Asciinema
    } else if f.archive {
        Viewer::ArchiveListing
    } else if f.pdf && t.pdftotext {
        Viewer::Pdftotext
    } else if f.binary && t.hexyl {
        Viewer::Hexyl
    } else if t.bat {
        Viewer::Bat
    } else {
        Viewer::Pager
    }
}

/// The last resort of the view mode: bat, else the pager or `cat`.
pub open spec fn view_fallback_spec(t: ToolAvailability, use_pager: bool) -> Viewer {
    if t.bat {
        Viewer::Bat
    } else if use_pager {
        Viewer::Pager
    } else {
        Viewer::Cat
    }
}

/// The viewer of the view mode.
pub open spec fn view_mode_viewer_spec(f: FileFacts, t: ToolAvailability, use_pager: bool) -> Viewer {
    if f.image && t.viu {
        Viewer::Viu
    } else if f.image && t.chafa {
        Viewer::Chafa
    } else if f.markdown && t.glow {
        Viewer::Glow
    } else if f.mermaid && t.mmdflux {
        Viewer::Mmdflux
    } else if f.html && t.links {
        Viewer::Links
    } else if f.json && t.jnv {
        Viewer::Jnv
    } else if f.delimited && t.csvlens {
        Viewer::Csvlens
    } else if f.audio && t.sox {
        Viewer::AudioPlayer
    } else if f.pdf && t.pdftotext {
        Viewer::Pdftotext
    } else if f.cast && t.asciinema {
        Viewer::Asciinema
    } else if f.binary && t.hexyl {
        Viewer::Hexyl
    } else {
        view_fallback_spec(t, use_pager)
    }
}

/// The last resort of the view mode, also used when hexyl cannot start.
pub fn view_fallback(t: ToolAvailability, use_pager: bool) -> (v: Viewer)
    ensures
        v == view_fallback_spec(t, use_pager),
{
    if t.bat {
        Viewer::Bat
    } else if use_pager {
        Viewer::Pager
    } else {
        Viewer::Cat
    }
}

/// The viewer of the view mode (as [`protected_preview_viewer`], without the
/// archive listing, PDF before recordings, and `cat` when no pager is used).
pub fn view_mode_viewer(f: FileFacts, t: ToolAvailability, use_pager: bool) -> (v: Viewer)
    ensures
        v == view_mode_viewer_spec(f, t, use_pager),
{
    if f.image && t.viu {
        Viewer::Viu
    } else if f.image && t.chafa {
        Viewer::Chafa
    } else if f.markdown && t.glow {
        Viewer::Glow
    } else if f.mermaid && t.mmdflux {
        Viewer::Mmdflux
    } else if f.html && t.links {
        Viewer::Links
    } else if f.json && t.jnv {
        Viewer::Jnv
    } else if f.delimited && t.csvlens {
        Viewer::Csvlens
    } else if f.audio && t.sox {
        Viewer::AudioPlayer
    } else if f.pdf && t.pdftotext {
        Viewer::Pdftotext
    } else if f.cast && t.asciinema {
        Viewer::Asciinema
    } else if f.binary && t.hexyl {
        Viewer::Hexyl
    } else {
        view_fallback(t, use_pager)
    }
}

/// The status after previewing or editing a protected file, when it did
/// not go through: the temporary file could not be prepared, or decryption
/// failed (with `age`'s error); none otherwise.
pub fn age_preview_status(prepared: bool, decrypt_error: Option<&str>) -> (r: Option<String>)
    ensures
        !prepared ==> (r matches Some(m) && m@ == "failed to prepare temporary file"@),
        prepared ==> (match decrypt_error {
            Some(e) => r matches Some(m) && m@ == "decrypt failed: "@ + e@,
            None => r is None,
        }),
{
    if !prepared {
        return Some("failed to prepare temporary file".to_string());
    }
    match decrypt_error {
        Some(e) => Some(concat_str("decrypt failed: ", e)),
        None => None,
    }
}


/// Every name that ends in `.7z` or `.rar` (ASCII case ignored), and every
/// file with a ZIP signature, is an archive the program handles; a `.rar`
/// name that no earlier rule claims is a RAR archive, and a `.7z` one a 7z
/// archive.
pub proof fn lemma_archive_suffixes_supported(name: Seq<char>, zip_signature: bool)
    ensures
        ends_with(ascii_lower_seq(name), ".rar"@) ==> archive_kind_spec(name, zip_signature) is Some,
        ends_with(ascii_lower_seq(name), ".7z"@) ==> archive_kind_spec(name, zip_signature) is Some,
        zip_signature ==> archive_kind_spec(name, zip_signature) == Some(ArchiveKind::Zip),
        ends_with(ascii_lower_seq(name), ".rar"@) && !zip_signature && !has_ext_in(name, zip_based_spec())
            && !tar_like_spec(name) && !ends_with(ascii_lower_seq(name), ".7z"@)
            ==> archive_kind_spec(name, zip_signature) == Some(ArchiveKind::Rar),
        ends_with(ascii_lower_seq(name), ".7z"@) && !zip_signature && !has_ext_in(name, zip_based_spec())
            && !tar_like_spec(name) ==> archive_kind_spec(name, zip_signature) == Some(ArchiveKind::SevenZip),
{
}

} // verus!
