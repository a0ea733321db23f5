use vstd::prelude::*;
use std::path::Path;
use crate::search::{lemma_rfind_spec, rfind_char};
use crate::text::{chars_of, concat_str, is_ws, slice_chars, string_from_chars, trim, trim_chars};

verus! {

/// How a path filter matches entry names.
#[derive(Clone, Copy, PartialEq, Eq, Structural, Debug)]
pub enum PathFilterMode {
    Prefix,
    Suffix,
    Contains,
}

/// A filter typed after a directory path: `^pat`, `pat$` or `~pat`.
pub struct PathInputFilter {
    pub mode: PathFilterMode,
    pub pattern: String,
}

/// The text a filter is written as.
pub open spec fn suffix_text_spec(mode: PathFilterMode, pattern: Seq<char>) -> Seq<char> {
    match mode {
        PathFilterMode::Prefix => seq!['^'] + pattern,
        PathFilterMode::Suffix => pattern.push('$'),
        PathFilterMode::Contains => seq!['~'] + pattern,
    }
}

/// A path with a filter written after it (`/` between them, but once only
/// after the root).
pub open spec fn with_suffix_spec(base: Seq<char>, suffix: Option<Seq<char>>) -> Seq<char> {
    match suffix {
        None => base,
        Some(s) => if base == seq!['/'] {
            seq!['/'] + s
        } else {
            base + seq!['/'] + s
        },
    }
}

/// Reads a path with a filter after its last `/` (the text trimmed): the
/// directory part (`/` for the root) and the filter; `None` when there is
/// no `/`, nothing after it, or no filter sign.
pub open spec fn parse_filter_spec(raw: Seq<char>) -> Option<(Seq<char>, PathFilterMode, Seq<char>)> {
    let t = trim(raw);
    let i = rfind_char(t, '/');
    if i < 0 {
        None
    } else {
        let tail = t.skip(i + 1);
        let base = if i == 0 { seq!['/'] } else { t.take(i) };
        if tail.len() == 0 {
            None
        } else if tail[0] == '^' {
            Some((base, PathFilterMode::Prefix, tail.skip(1)))
        } else if tail.last() == '$' {
            Some((base, PathFilterMode::Suffix, tail.drop_last()))
        } else if tail[0] == '~' {
            Some((base, PathFilterMode::Contains, tail.skip(1)))
        } else {
            None
        }
    }
}

/// The text of a filter, if there is one.
pub fn path_filter_suffix_text(filter: Option<&PathInputFilter>) -> (r: Option<String>)
    ensures
        match filter {
            None => r is None,
            Some(f) => r matches Some(s) && s@ == suffix_text_spec(f.mode, f.pattern@),
        },
{
    let f = match filter {
        None => return None,
        Some(f) => f,
    };
    let s = match f.mode {
        PathFilterMode::Prefix => concat_str("^", f.pattern.as_str()),
        PathFilterMode::Suffix => concat_str(f.pattern.as_str(), "$"),
        PathFilterMode::Contains => concat_str("~", f.pattern.as_str()),
    };
    proof {
        reveal_strlit("^");
        reveal_strlit("$");
        reveal_strlit("~");
        assert(seq!['^'] =~= "^"@);
        assert(seq!['~'] =~= "~"@);
        assert(f.pattern@.push('$') =~= f.pattern@ + "$"@);
    }
    Some(s)
}

/// A path with the filter text after it (see [`with_suffix_spec`]).
pub fn path_with_filter_suffix(base: String, suffix: Option<String>) -> (r: String)
    ensures
        r@ == with_suffix_spec(base@, match suffix {
            Some(s) => Some(s@),
            None => None,
        }),
{
    let suffix = match suffix {
        None => return base,
        Some(s) => s,
    };
    proof {
        reveal_strlit("/");
        assert(seq!['/'] =~= "/"@);
    }
    let b = chars_of(base.as_str());
    if b.len() == 1 && b[0] == '/' {
        assert(base@ =~= seq!['/']);
        concat_str("/", suffix.as_str())
    } else {
        assert(base@ != seq!['/']);
        let with_sep = concat_str(base.as_str(), "/");
        concat_str(with_sep.as_str(), suffix.as_str())
    }
}

/// Reads a path with a filter after it (see [`parse_filter_spec`]).
pub fn parse_path_filter_suffix(raw: &str) -> (r: Option<(String, PathInputFilter)>)
    ensures
        match r {
            None => parse_filter_spec(raw@) is None,
            Some(p) => parse_filter_spec(raw@) == Some((p.0@, p.1.mode, p.1.pattern@)),
        },
{
    let t = trim_chars(&chars_of(raw));
    if t.len() == 0 {
        proof { lemma_rfind_spec(t@, '/', -1); }
        return None;
    }
    let mut i: usize = t.len() - 1;
    while i > 0 && t[i] != '/'
        invariant
            i < t.len(),
            forall|k: int| i < k < t.len() ==> #[trigger] t@[k] != '/',
        decreases i,
    {
        i = i - 1;
    }
    if t[i] != '/' {
        proof { lemma_rfind_spec(t@, '/', -1); }
        return None;
    }
    proof { lemma_rfind_spec(t@, '/', i as int); }
    let tail = slice_chars(&t, i + 1, t.len());
    assert(tail@ =~= t@.skip(i + 1));
    let base: Vec<char> = if i == 0 {
        let mut v: Vec<char> = Vec::new();
        v.push('/');
        assert(v@ =~= seq!['/']);
        v
    } else {
        let v = slice_chars(&t, 0, i);
        assert(v@ =~= t@.take(i as int));
        v
    };
    if tail.len() == 0 {
        return None;
    }
    let base_s = string_from_chars(base.as_slice());
    if tail[0] == '^' {
        let p = slice_chars(&tail, 1, tail.len());
        assert(p@ =~= tail@.skip(1));
        return Some((base_s, PathInputFilter { mode: PathFilterMode::Prefix, pattern: string_from_chars(p.as_slice()) }));
    }
    if tail[tail.len() - 1] == '$' {
        let p = slice_chars(&tail, 0, tail.len() - 1);
        assert(p@ =~= tail@.drop_last());
        return Some((base_s, PathInputFilter { mode: PathFilterMode::Suffix, pattern: string_from_chars(p.as_slice()) }));
    }
    if tail[0] == '~' {
        let p = slice_chars(&tail, 1, tail.len());
        assert(p@ =~= tail@.skip(1));
        return Some((base_s, PathInputFilter { mode: PathFilterMode::Contains, pattern: string_from_chars(p.as_slice()) }));
    }
    None
}

proof fn lemma_trim_fixed(s: Seq<char>)
    requires
        s.len() > 0,
        !is_ws(s[0]),
        !is_ws(s.last()),
    ensures
        trim(s) == s,
{
    assert(crate::text::trim_start(s) == s);
    assert(crate::text::trim_end(s) == s);
}

/// A filter written after a path reads back as that path and filter, for a
/// non-empty path with no leading whitespace and a pattern with no `/`
/// whose text ends in no whitespace and does not read as another kind of
/// filter (a suffix pattern starting with `^`, a contains pattern ending in
/// `$`).
pub proof fn lemma_path_filter_roundtrip(base: Seq<char>, mode: PathFilterMode, pattern: Seq<char>)
    requires
        base.len() > 0,
        !is_ws(base[0]),
        !pattern.contains('/'),
        mode != PathFilterMode::Suffix && pattern.len() > 0 ==> !is_ws(pattern.last()),
        mode == PathFilterMode::Suffix && pattern.len() > 0 ==> pattern[0] != '^',
        mode == PathFilterMode::Contains && pattern.len() > 0 ==> pattern.last() != '$',
    ensures
        parse_filter_spec(with_suffix_spec(base, Some(suffix_text_spec(mode, pattern))))
            == Some((base, mode, pattern)),
{
    let sfx = suffix_text_spec(mode, pattern);
    let full = with_suffix_spec(base, Some(sfx));
    let i: int = if base == seq!['/'] { 0 } else { base.len() as int };
    assert(sfx.len() > 0);
    assert(!sfx.contains('/')) by {
        if sfx.contains('/') {
            let k = choose|k: int| 0 <= k < sfx.len() && sfx[k] == '/';
            match mode {
                PathFilterMode::Prefix => { assert(pattern[k - 1] == '/'); },
                PathFilterMode::Suffix => { assert(pattern[k] == '/'); },
                PathFilterMode::Contains => { assert(pattern[k - 1] == '/'); },
            }
        }
    }
    if base == seq!['/'] {
        assert(full =~= seq!['/'] + sfx);
    } else {
        assert(full =~= base + seq!['/'] + sfx);
    }
    assert(full[i] == '/');
    assert(full.skip(i + 1) =~= sfx);
    assert(!is_ws(full[0]));
    assert(full.last() == sfx.last());
    assert(!is_ws(sfx.last()));
    lemma_trim_fixed(full);
    assert forall|k: int| i < k < full.len() implies #[trigger] full[k] != '/' by {
        assert(full[k] == sfx[k - i - 1]);
    }
    lemma_rfind_spec(full, '/', i);
    if i != 0 {
        assert(full.take(i) =~= base);
    }
    match mode {
        PathFilterMode::Prefix => {
            assert(sfx.skip(1) =~= pattern);
        },
        PathFilterMode::Suffix => {
            assert(sfx.drop_last() =~= pattern);
            if pattern.len() == 0 {
                assert(sfx[0] == '$');
            } else {
                assert(sfx[0] == pattern[0]);
            }
        },
        PathFilterMode::Contains => {
            assert(sfx.skip(1) =~= pattern);
            if pattern.len() == 0 {
                assert(sfx.last() == '~');
            }
        },
    }
}

/// `Path::join` on Unix paths: an absolute `rel` replaces `base`; otherwise
/// `rel` follows `base`, after a `/` unless `base` is empty or already ends
/// in one.
pub open spec fn path_join(base: Seq<char>, rel: Seq<char>) -> Seq<char> {
    if rel.len() > 0 && rel[0] == '/' {
        rel
    } else if base.len() == 0 || base.last() == '/' {
        base + rel
    } else {
        base + seq!['/'] + rel
    }
}

/// `Path::strip_prefix`: what is left of `path` after the components of
/// `base`, or `None` when `base` is not a prefix of it.
pub uninterp spec fn path_strip_prefix(path: Seq<char>, base: Seq<char>) -> Option<Seq<char>>;

/// The number of components `Path::components` yields.
pub uninterp spec fn path_component_count(path: Seq<char>) -> nat;

/// `Path::new(base).join(rel)`, which on Unix is `PathBuf::push` on a
/// copy of `base`: an absolute `rel` replaces it, and a relative one is
/// appended after a separator when `base` is not empty and does not end in
/// one (see [`path_join`]). Both texts are UTF-8, so the joined path is too.
#[verifier::external_body]
pub(crate) fn join_path(base: &str, rel: &str) -> (r: String)
    ensures
        r@ == path_join(base@, rel@),
{
    Path::new(base).join(rel).to_string_lossy().into_owned()
}

/// `Path::new(path).strip_prefix(base)`, the rest as text.
#[verifier::external_body]
fn strip_path_prefix(path: &str, base: &str) -> (r: Option<String>)
    ensures
        match r {
            Some(s) => path_strip_prefix(path@, base@) == Some(s@),
            None => path_strip_prefix(path@, base@) is None,
        },
{
    match Path::new(path).strip_prefix(base) {
        Ok(rest) => Some(rest.to_string_lossy().into_owned()),
        Err(_) => None,
    }
}

/// `Path::new(path).components().count()`.
#[verifier::external_body]
fn component_count(path: &str) -> (r: usize)
    ensures
        r == path_component_count(path@),
{
    Path::new(path).components().count()
}

/// Where a typed path leads: the text trimmed; `~` and `~/rest` go under
/// `home` when it is known; an absolute path stands as it is; any other
/// path is joined to `current_dir`.
pub open spec fn resolve_input_path_spec(raw: Seq<char>, home: Option<Seq<char>>, current_dir: Seq<char>) -> Seq<char> {
    let t = trim(raw);
    if home is Some && t.len() >= 2 && t[0] == '~' && t[1] == '/' {
        path_join(home->0, t.skip(2))
    } else if home is Some && t == seq!['~'] {
        home->0
    } else if t.len() > 0 && t[0] == '/' {
        t
    } else {
        path_join(current_dir, t)
    }
}

/// An optional text as an optional view.
pub open spec fn opt_str_view(v: Option<&str>) -> Option<Seq<char>> {
    match v {
        Some(s) => Some(s@),
        None => None,
    }
}

/// Where a typed path leads (see [`resolve_input_path_spec`]).
pub fn resolve_input_path(raw: &str, home: Option<&str>, current_dir: &str) -> (r: String)
    ensures
        r@ == resolve_input_path_spec(raw@, opt_str_view(home), current_dir@),
{
    let t = trim_chars(&chars_of(raw));
    let ts = string_from_chars(t.as_slice());
    match home {
        Some(h) => {
            if t.len() >= 2 && t[0] == '~' && t[1] == '/' {
                let rest = slice_chars(&t, 2, t.len());
                assert(rest@ =~= t@.skip(2));
                return join_path(h, string_from_chars(rest.as_slice()).as_str());
            }
            if t.len() == 1 && t[0] == '~' {
                assert(t@ =~= seq!['~']);
                return string_from_chars(chars_of(h).as_slice());
            }
            assert(t@ != seq!['~']);
        },
        None => {},
    }
    if t.len() > 0 && t[0] == '/' {
        ts
    } else {
        join_path(current_dir, ts.as_str())
    }
}

/// A mounted remote: where it is mounted, the remote directory the mount
/// shows, and how the header names it.
pub struct RemoteMountView {
    pub mount_path: String,
    pub remote_root: String,
    pub remote_label: String,
}

/// The mount that `current_dir` lies in, with the most path components; of
/// equally deep ones, the last.
pub open spec fn current_mount_spec(current_dir: Seq<char>, mounts: Seq<Seq<char>>) -> Option<int>
    decreases mounts.len(),
{
    if mounts.len() == 0 {
        None
    } else {
        let k = mounts.len() - 1;
        let best = current_mount_spec(current_dir, mounts.drop_last());
        if path_strip_prefix(current_dir, mounts[k]) is Some {
            match best {
                Some(b) => if path_component_count(mounts[k]) >= path_component_count(mounts[b]) {
                    Some(k)
                } else {
                    Some(b)
                },
                None => Some(k),
            }
        } else {
            best
        }
    }
}

/// The mount paths as views.
pub open spec fn mount_paths(mounts: Seq<RemoteMountView>) -> Seq<Seq<char>> {
    mounts.map_values(|m: RemoteMountView| m.mount_path@)
}

proof fn lemma_current_mount_bound(current_dir: Seq<char>, mounts: Seq<Seq<char>>)
    ensures
        current_mount_spec(current_dir, mounts) matches Some(b) ==> 0 <= b < mounts.len(),
    decreases mounts.len(),
{
    if mounts.len() > 0 {
        lemma_current_mount_bound(current_dir, mounts.drop_last());
    }
}

/// The index of the mount that `current_dir` lies in (see
/// [`current_mount_spec`]).
pub fn current_remote_mount(current_dir: &str, mounts: &Vec<RemoteMountView>) -> (r: Option<usize>)
    ensures
        match r {
            Some(i) => current_mount_spec(current_dir@, mount_paths(mounts@)) == Some(i as int),
            None => current_mount_spec(current_dir@, mount_paths(mounts@)) is None,
        },
{
    let ghost ms = mount_paths(mounts@);
    let mut best: Option<usize> = None;
    let mut best_count: usize = 0;
    let mut i: usize = 0;
    while i < mounts.len()
        invariant
            i <= mounts.len(),
            ms == mount_paths(mounts@),
            match best {
                Some(b) => current_mount_spec(current_dir@, ms.take(i as int)) == Some(b as int)
                    && b < i && best_count == path_component_count(ms[b as int]),
                None => current_mount_spec(current_dir@, ms.take(i as int)) is None,
            },
        decreases mounts.len() - i,
    {
        assert(ms.take(i + 1).drop_last() =~= ms.take(i as int));
        assert(ms.take(i + 1)[i as int] == mounts@[i as int].mount_path@);
        let inside = strip_path_prefix(current_dir, mounts[i].mount_path.as_str()).is_some();
        if inside {
            let c = component_count(mounts[i].mount_path.as_str());
            match best {
                Some(b) => {
                    assert(ms.take(i + 1)[b as int] == ms[b as int]);
                    if c >= best_count {
                        best = Some(i);
                        best_count = c;
                    }
                },
                None => {
                    best = Some(i);
                    best_count = c;
                },
            }
        }
        i = i + 1;
    }
    assert(ms.take(mounts.len() as int) =~= ms);
    best
}

/// `s` starts with `p`.
pub open spec fn starts_with_spec(s: Seq<char>, p: Seq<char>) -> bool {
    p.len() <= s.len() && s.take(p.len() as int) == p
}

/// How the current directory is shown: inside a mount, the remote root with
/// the path below the mount after it; elsewhere, the home directory as `~`.
pub open spec fn display_path_spec(
    current_dir: Seq<char>,
    home: Option<Seq<char>>,
    mount: Option<(Seq<char>, Seq<char>)>,
) -> Seq<char> {
    match mount {
        None => match home {
            Some(h) => if current_dir == h {
                seq!['~']
            } else if starts_with_spec(current_dir, h.push('/')) {
                seq!['~', '/'] + current_dir.skip(h.len() + 1 as int)
            } else {
                current_dir
            },
            None => current_dir,
        },
        Some(m) => {
            let rel = match path_strip_prefix(current_dir, m.0) {
                Some(r) => r,
                None => Seq::empty(),
            };
            let root = m.1;
            if rel.len() == 0 {
                root
            } else if root == seq!['/'] {
                seq!['/'] + rel
            } else if root.len() > 0 && root.last() == '/' {
                root + rel
            } else {
                root + seq!['/'] + rel
            }
        },
    }
}

fn chars_starts_with(s: &Vec<char>, p: &Vec<char>) -> (r: bool)
    ensures
        r == starts_with_spec(s@, p@),
{
    if p.len() > s.len() {
        return false;
    }
    let mut i: usize = 0;
    while i < p.len()
        invariant
            p.len() <= s.len(),
            i <= p.len(),
            forall|k: int| 0 <= k < i ==> s@[k] == p@[k],
        decreases p.len() - i,
    {
        if s[i] != p[i] {
            assert(s@.take(p.len() as int)[i as int] != p@[i as int]);
            return false;
        }
        i = i + 1;
    }
    assert(s@.take(p.len() as int) =~= p@);
    true
}

/// Whether two paths name the same place component by component (as `==`
/// on `Path` does): stripping `b` from `a` leaves nothing.
pub open spec fn same_path(a: Seq<char>, b: Seq<char>) -> bool {
    path_strip_prefix(a, b) == Some(Seq::<char>::empty())
}

/// The mount that leaving `current_dir` returns from: the last one mounted
/// exactly there (not in a folder below it).
pub open spec fn mount_to_leave_spec(current_dir: Seq<char>, mounts: Seq<Seq<char>>) -> Option<int>
    decreases mounts.len(),
{
    if mounts.len() == 0 {
        None
    } else if same_path(current_dir, mounts.last()) {
        Some(mounts.len() - 1)
    } else {
        mount_to_leave_spec(current_dir, mounts.drop_last())
    }
}

/// The mount that leaving `current_dir` returns from (see
/// [`mount_to_leave_spec`]); `mounts`: the mount paths, oldest first.
pub fn mount_to_leave(current_dir: &str, mounts: &Vec<String>) -> (r: Option<usize>)
    ensures
        (match r {
            Some(i) => Some(i as int),
            None => None,
        }) == mount_to_leave_spec(current_dir@, mounts@.map_values(|m: String| m@)),
{
    let ghost ms = mounts@.map_values(|m: String| m@);
    let mut i: usize = mounts.len();
    assert(ms.take(i as int) =~= ms);
    while i > 0
        invariant
            i <= mounts@.len(),
            ms == mounts@.map_values(|m: String| m@),
            mount_to_leave_spec(current_dir@, ms) == mount_to_leave_spec(current_dir@, ms.take(i as int)),
        decreases i,
    {
        let k = i - 1;
        assert(ms.take(i as int).last() == mounts@[k as int]@);
        assert(ms.take(i as int).drop_last() =~= ms.take(k as int));
        let stripped = strip_path_prefix(current_dir, mounts[k].as_str());
        let here = match &stripped {
            Some(rest) => chars_of(rest.as_str()).len() == 0,
            None => false,
        };
        proof {
            match stripped {
                Some(rest) => {
                    if here {
                        assert(rest@ =~= Seq::<char>::empty());
                    }
                },
                None => {},
            }
        }
        if here {
            return Some(k);
        }
        i = k;
    }
    None
}

/// How the current directory is shown in the header (see
/// [`display_path_spec`]); `mount`: the mount path and remote root of the
/// mount it lies in.
pub fn current_dir_display_path(current_dir: &str, home: Option<&str>, mount: Option<(&str, &str)>) -> (r: String)
    ensures
        r@ == display_path_spec(current_dir@, opt_str_view(home), match mount {
            Some(m) => Some((m.0@, m.1@)),
            None => None,
        }),
{
    proof {
        reveal_strlit("~");
        reveal_strlit("~/");
        reveal_strlit("/");
        assert(seq!['~'] =~= "~"@);
        assert(seq!['~', '/'] =~= "~/"@);
        assert(seq!['/'] =~= "/"@);
    }
    match mount {
        None => {
            let cur = chars_of(current_dir);
            match home {
                Some(h) => {
                    let hc = chars_of(h);
                    if crate::text::chars_eq(cur.as_slice(), hc.as_slice()) {
                        return "~".to_string();
                    }
                    let mut hp = hc.clone();
                    hp.push('/');
                    if chars_starts_with(&cur, &hp) {
                        let rest = slice_chars(&cur, hp.len(), cur.len());
                        assert(rest@ =~= cur@.skip(h@.len() + 1 as int));
                        return concat_str("~/", string_from_chars(rest.as_slice()).as_str());
                    }
                    string_from_chars(cur.as_slice())
                },
                None => string_from_chars(cur.as_slice()),
            }
        },
        Some((mount_path, remote_root)) => {
            let rel = match strip_path_prefix(current_dir, mount_path) {
                Some(r) => r,
                None => String::new(),
            };
            let rc = chars_of(rel.as_str());
            let root = chars_of(remote_root);
            if rc.len() == 0 {
                return string_from_chars(root.as_slice());
            }
            if root.len() == 1 && root[0] == '/' {
                assert(root@ =~= seq!['/']);
                return concat_str("/", rel.as_str());
            }
            assert(root@ != seq!['/']);
            if root.len() > 0 && root[root.len() - 1] == '/' {
                return concat_str(remote_root, rel.as_str());
            }
            let with_sep = concat_str(remote_root, "/");
            concat_str(with_sep.as_str(), rel.as_str())
        },
    }
}

} // verus!
