use vstd::prelude::*;
use crate::text::{chars_of, chars_eq};

verus! {

/// One optional or required outside tool: its key, what it is used for, its
/// group, and whether the program needs it.
#[derive(Clone)]
pub struct IntegrationSpec {
    pub key: &'static str,
    pub description: &'static str,
    pub category: &'static str,
    pub required: bool,
}

/// The fields of an integration as text.
pub open spec fn spec_fields(s: IntegrationSpec) -> (Seq<char>, Seq<char>, Seq<char>, bool) {
    (s.key@, s.description@, s.category@, s.required)
}

/// Every integration, in display order.
pub open spec fn catalog_spec() -> Seq<(Seq<char>, Seq<char>, Seq<char>, bool)> {
    seq![
        ("git"@, "branch & dirty status in header"@, "vcs"@, false),
        ("less"@, "view files (Enter fallback)"@, "viewer"@, true),
        ("$EDITOR"@, "edit files (e / F4)"@, "editor"@, true),
        ("bat"@, "syntax-highlighted view on Enter"@, "viewer"@, false),
        ("glow"@, "Markdown preview on Enter"@, "viewer"@, false),
        ("mmdflux"@, "Mermaid diagram preview on Enter (.mmd)"@, "viewer"@, false),
        ("links"@, "HTML preview on Enter"@, "viewer"@, false),
        ("pdftotext"@, "PDF text preview on Enter"@, "preview"@, false),
        ("asciinema"@, "terminal recording playback (.cast) on Enter (q/Esc to stop)"@, "preview"@, false),
        ("age"@, "password-protect/decrypt files (.age) with p/Enter/e"@, "security"@, false),
        ("jnv"@, "interactive JSON preview on Enter"@, "preview"@, false),
        ("csvlens"@, "interactive delimited preview (.csv/.tsv/.tab/.psv/.dsv/.ssv)"@, "preview"@, false),
        ("delta"@, "side-by-side colored compare (C: marked file vs cursor)"@, "diff"@, false),
        ("hexyl"@, "hex view for binary files on Enter"@, "preview"@, false),
        ("hexedit"@, "hex edit for binary files (e / F4)"@, "editor"@, false),
        ("vidir"@, "bulk rename when >1 marked (F2/r)"@, "rename"@, false),
        ("zip"@, "create/extract archives (Z)"@, "archive"@, false),
        ("tar"@, "extract tar/tar.gz/tar.xz/... archives"@, "archive"@, false),
        ("7z"@, "extract .7z archives"@, "archive"@, false),
        ("rar"@, "extract .rar archives"@, "archive"@, false),
        ("fuse-zip"@, "browse zip-based archives as folders"@, "archive"@, false),
        ("archivemount"@, "browse tar/zip archives as folders (Enter)"@, "archive"@, false),
        ("sox"@, "play audio files on Enter"@, "preview"@, false),
        ("viu"@, "image preview on Enter (preferred)"@, "preview"@, false),
        ("chafa"@, "image preview on Enter"@, "preview"@, false),
        ("sshfs"@, "mount SSH hosts via S picker"@, "network"@, false),
        ("rclone"@, "mount rclone remotes via S picker"@, "network"@, false),
        ("tmux"@, "split shell + less preview (i), editor (E)"@, "terminal"@, false),
        ("rg"@, "content search, fzf preview if avail (g)"@, "search"@, false),
        ("fzf"@, "fuzzy file search (f)"@, "search"@, false),
        ("wl-copy"@, "Wayland clipboard backend used by Ctrl+c full-path copy"@, "clipboard"@, false),
        ("xclip"@, "X11 clipboard backend used by Ctrl+c full-path copy"@, "clipboard"@, false),
        ("xsel"@, "X11 clipboard backend used by Ctrl+c full-path copy"@, "clipboard"@, false),
        ("pbcopy"@, "macOS clipboard backend used by Ctrl+c full-path copy"@, "clipboard"@, false)
    ]
}

/// Every integration, in display order.
pub fn integration_catalog() -> (r: Vec<IntegrationSpec>)
    ensures
        r@.len() == catalog_spec().len(),
        forall|i: int| 0 <= i < r@.len() ==> spec_fields(#[trigger] r@[i]) == catalog_spec()[i],
{
    let mut v: Vec<IntegrationSpec> = Vec::new();
    v.push(IntegrationSpec { key: "git", description: "branch & dirty status in header", category: "vcs", required: false });
    v.push(IntegrationSpec { key: "less", description: "view files (Enter fallback)", category: "viewer", required: true });
    v.push(IntegrationSpec { key: "$EDITOR", description: "edit files (e / F4)", category: "editor", required: true });
    v.push(IntegrationSpec { key: "bat", description: "syntax-highlighted view on Enter", category: "viewer", required: false });
    v.push(IntegrationSpec { key: "glow", description: "Markdown preview on Enter", category: "viewer", required: false });
    v.push(IntegrationSpec { key: "mmdflux", description: "Mermaid diagram preview on Enter (.mmd)", category: "viewer", required: false });
    v.push(IntegrationSpec { key: "links", description: "HTML preview on Enter", category: "viewer", required: false });
    v.push(IntegrationSpec { key: "pdftotext", description: "PDF text preview on Enter", category: "preview", required: false });
    v.push(IntegrationSpec { key: "asciinema", description: "terminal recording playback (.cast) on Enter (q/Esc to stop)", category: "preview", required: false });
    v.push(IntegrationSpec { key: "age", description: "password-protect/decrypt files (.age) with p/Enter/e", category: "security", required: false });
    v.push(IntegrationSpec { key: "jnv", description: "interactive JSON preview on Enter", category: "preview", required: false });
    v.push(IntegrationSpec { key: "csvlens", description: "interactive delimited preview (.csv/.tsv/.tab/.psv/.dsv/.ssv)", category: "preview", required: false });
    v.push(IntegrationSpec { key: "delta", description: "side-by-side colored compare (C: marked file vs cursor)", category: "diff", required: false });
    v.push(IntegrationSpec { key: "hexyl", description: "hex view for binary files on Enter", category: "preview", required: false });
    v.push(IntegrationSpec { key: "hexedit", description: "hex edit for binary files (e / F4)", category: "editor", required: false });
    v.push(IntegrationSpec { key: "vidir", description: "bulk rename when >1 marked (F2/r)", category: "rename", required: false });
    v.push(IntegrationSpec { key: "zip", description: "create/extract archives (Z)", category: "archive", required: false });
    v.push(IntegrationSpec { key: "tar", description: "extract tar/tar.gz/tar.xz/... archives", category: "archive", required: false });
    v.push(IntegrationSpec { key: "7z", description: "extract .7z archives", category: "archive", required: false });
    v.push(IntegrationSpec { key: "rar", description: "extract .rar archives", category: "archive", required: false });
    v.push(IntegrationSpec { key: "fuse-zip", description: "browse zip-based archives as folders", category: "archive", required: false });
    v.push(IntegrationSpec { key: "archivemount", description: "browse tar/zip archives as folders (Enter)", category: "archive", required: false });
    v.push(IntegrationSpec { key: "sox", description: "play audio files on Enter", category: "preview", required: false });
    v.push(IntegrationSpec { key: "viu", description: "image preview on Enter (preferred)", category: "preview", required: false });
    v.push(IntegrationSpec { key: "chafa", description: "image preview on Enter", category: "preview", required: false });
    v.push(IntegrationSpec { key: "sshfs", description: "mount SSH hosts via S picker", category: "network", required: false });
    v.push(IntegrationSpec { key: "rclone", description: "mount rclone remotes via S picker", category: "network", required: false });
    v.push(IntegrationSpec { key: "tmux", description: "split shell + less preview (i), editor (E)", category: "terminal", required: false });
    v.push(IntegrationSpec { key: "rg", description: "content search, fzf preview if avail (g)", category: "search", required: false });
    v.push(IntegrationSpec { key: "fzf", description: "fuzzy file search (f)", category: "search", required: false });
    v.push(IntegrationSpec { key: "wl-copy", description: "Wayland clipboard backend used by Ctrl+c full-path copy", category: "clipboard", required: false });
    v.push(IntegrationSpec { key: "xclip", description: "X11 clipboard backend used by Ctrl+c full-path copy", category: "clipboard", required: false });
    v.push(IntegrationSpec { key: "xsel", description: "X11 clipboard backend used by Ctrl+c full-path copy", category: "clipboard", required: false });
    v.push(IntegrationSpec { key: "pbcopy", description: "macOS clipboard backend used by Ctrl+c full-path copy", category: "clipboard", required: false });
    proof {
        assert(v@.len() == catalog_spec().len());
        assert forall|i: int| 0 <= i < v@.len() implies spec_fields(#[trigger] v@[i]) == catalog_spec()[i] by {
        }
    }
    v
}


/// Equality of two string slices.
pub fn str_eq(a: &str, b: &str) -> (r: bool)
    ensures
        r == (a@ == b@),
{
    let x = chars_of(a);
    let y = chars_of(b);
    chars_eq(x.as_slice(), y.as_slice())
}

/// The Homebrew package that provides an integration (`macos`: the build is
/// for macOS, where the FUSE tools come from other packages).
pub open spec fn brew_package_spec(key: Seq<char>, macos: bool) -> Option<Seq<char>> {
    if key == "__all_optional__"@ || key == "$EDITOR"@ || key == "less"@ || key == "pbcopy"@ {
        None
    } else if key == "git"@ {
        Some("git"@)
    } else if key == "bat"@ {
        Some("bat"@)
    } else if key == "glow"@ {
        Some("glow"@)
    } else if key == "mmdflux"@ {
        Some("kevinswiber/mmdflux/mmdflux"@)
    } else if key == "links"@ {
        Some("links"@)
    } else if key == "7z"@ {
        Some("p7zip"@)
    } else if key == "zip"@ {
        Some("zip"@)
    } else if key == "tar"@ {
        Some("gnu-tar"@)
    } else if key == "rar"@ {
        Some("rar"@)
    } else if key == "asciinema"@ {
        Some("asciinema"@)
    } else if key == "age"@ {
        Some("age"@)
    } else if key == "jnv"@ {
        Some("jnv"@)
    } else if key == "csvlens"@ {
        Some("csvlens"@)
    } else if key == "delta"@ {
        Some("git-delta"@)
    } else if key == "hexyl"@ {
        Some("hexyl"@)
    } else if key == "hexedit"@ {
        Some("hexedit"@)
    } else if key == "vidir"@ {
        Some("moreutils"@)
    } else if key == "fuse-zip"@ {
        Some(if macos { "fuse-zip-mac"@ } else { "fuse-zip"@ })
    } else if key == "archivemount"@ {
        Some(if macos { "gromgit/fuse/archivemount"@ } else { "archivemount"@ })
    } else if key == "sox"@ {
        Some("sox"@)
    } else if key == "viu"@ {
        Some("viu"@)
    } else if key == "chafa"@ {
        Some("chafa"@)
    } else if key == "sshfs"@ {
        Some("sshfs"@)
    } else if key == "rclone"@ {
        Some("rclone"@)
    } else if key == "tmux"@ {
        Some("tmux"@)
    } else if key == "rg"@ {
        Some("ripgrep"@)
    } else if key == "fzf"@ {
        Some("fzf"@)
    } else if key == "wl-copy"@ {
        Some("wl-clipboard"@)
    } else if key == "xclip"@ {
        Some("xclip"@)
    } else if key == "xsel"@ {
        Some("xsel"@)
    } else if key == "pdftotext"@ {
        Some("poppler"@)
    } else {
        None
    }
}

/// The Homebrew package that provides an integration, if it has one.
pub fn integration_brew_package(key: &str, macos: bool) -> (r: Option<&'static str>)
    ensures
        match r {
            Some(p) => brew_package_spec(key@, macos) == Some(p@),
            None => brew_package_spec(key@, macos).is_none(),
        },
{
    if str_eq(key, "__all_optional__") || str_eq(key, "$EDITOR") || str_eq(key, "less") || str_eq(key, "pbcopy") {
        None
    } else if str_eq(key, "git") {
        Some("git")
    } else if str_eq(key, "bat") {
        Some("bat")
    } else if str_eq(key, "glow") {
        Some("glow")
    } else if str_eq(key, "mmdflux") {
        Some("kevinswiber/mmdflux/mmdflux")
    } else if str_eq(key, "links") {
        Some("links")
    } else if str_eq(key, "7z") {
        Some("p7zip")
    } else if str_eq(key, "zip") {
        Some("zip")
    } else if str_eq(key, "tar") {
        Some("gnu-tar")
    } else if str_eq(key, "rar") {
        Some("rar")
    } else if str_eq(key, "asciinema") {
        Some("asciinema")
    } else if str_eq(key, "age") {
        Some("age")
    } else if str_eq(key, "jnv") {
        Some("jnv")
    } else if str_eq(key, "csvlens") {
        Some("csvlens")
    } else if str_eq(key, "delta") {
        Some("git-delta")
    } else if str_eq(key, "hexyl") {
        Some("hexyl")
    } else if str_eq(key, "hexedit") {
        Some("hexedit")
    } else if str_eq(key, "vidir") {
        Some("moreutils")
    } else if str_eq(key, "fuse-zip") {
        Some(if macos { "fuse-zip-mac" } else { "fuse-zip" })
    } else if str_eq(key, "archivemount") {
        Some(if macos { "gromgit/fuse/archivemount" } else { "archivemount" })
    } else if str_eq(key, "sox") {
        Some("sox")
    } else if str_eq(key, "viu") {
        Some("viu")
    } else if str_eq(key, "chafa") {
        Some("chafa")
    } else if str_eq(key, "sshfs") {
        Some("sshfs")
    } else if str_eq(key, "rclone") {
        Some("rclone")
    } else if str_eq(key, "tmux") {
        Some("tmux")
    } else if str_eq(key, "rg") {
        Some("ripgrep")
    } else if str_eq(key, "fzf") {
        Some("fzf")
    } else if str_eq(key, "wl-copy") {
        Some("wl-clipboard")
    } else if str_eq(key, "xclip") {
        Some("xclip")
    } else if str_eq(key, "xsel") {
        Some("xsel")
    } else if str_eq(key, "pdftotext") {
        Some("poppler")
    } else {
        None
    }
}

} // verus!
