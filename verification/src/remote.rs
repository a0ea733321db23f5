use vstd::prelude::*;
use crate::fmt::{parse_usize, parse_usize_spec};
use crate::sort::{lemma_insert_at, sort_spec};
use crate::text::order_seq;
use crate::text::{
    chars_eq, chars_of, lex_less, lines_chars, lines_spec, slice_chars,
    string_from_chars, trim, trim_chars, views, words, words_spec,
};

verus! {

/// `str::to_lowercase`: the Unicode lowercase of the text (mostly char by
/// char, but some chars depend on their neighbours, as a final capital
/// sigma does).
pub uninterp spec fn unicode_lowercase(s: Seq<char>) -> Seq<char>;

/// `str::to_lowercase`.
#[verifier::external_body]
pub(crate) fn to_lowercase(s: &str) -> (r: String)
    ensures
        r@ == unicode_lowercase(s@),
{
    s.to_lowercase()
}

/// `u8::is_ascii_whitespace` on a char: space, tab, line feed, form feed or
/// carriage return.
pub open spec fn is_ascii_ws(c: char) -> bool {
    c == ' ' || c == '\t' || c == '\n' || c == '\x0C' || c == '\r'
}

fn char_is_ascii_ws(c: char) -> (r: bool)
    ensures
        r == is_ascii_ws(c),
{
    c == ' ' || c == '\t' || c == '\n' || c == '\x0C' || c == '\r'
}

/// A host of the SSH client configuration.
pub struct SshHost {
    pub alias: String,
    pub hostname: String,
    pub user: Option<String>,
    pub port: Option<u16>,
    pub identity_file: Option<String>,
}

/// A host as values.
pub struct SshHostView {
    pub alias: Seq<char>,
    pub hostname: Seq<char>,
    pub user: Option<Seq<char>>,
    pub port: Option<u16>,
    pub identity_file: Option<Seq<char>>,
}

/// An optional string as an optional view.
pub open spec fn opt_string_view(v: Option<String>) -> Option<Seq<char>> {
    match v {
        Some(s) => Some(s@),
        None => None,
    }
}

impl SshHost {
    pub open spec fn view(&self) -> SshHostView {
        SshHostView {
            alias: self.alias@,
            hostname: self.hostname@,
            user: opt_string_view(self.user),
            port: self.port,
            identity_file: opt_string_view(self.identity_file),
        }
    }
}

/// The views of a list of hosts.
pub open spec fn host_views(v: Seq<SshHost>) -> Seq<SshHostView> {
    v.map_values(|h: SshHost| h.view())
}

/// A word that is no pattern (holds no `*` or `?`).
pub open spec fn is_plain_alias(w: Seq<char>) -> bool {
    !w.contains('*') && !w.contains('?')
}

/// The first word that is no pattern.
pub open spec fn first_plain_word(ws: Seq<Seq<char>>) -> Option<Seq<char>>
    decreases ws.len(),
{
    if ws.len() == 0 {
        None
    } else if is_plain_alias(ws[0]) {
        Some(ws[0])
    } else {
        first_plain_word(ws.drop_first())
    }
}

/// Index of the first char that ends a key (ASCII whitespace or `=`), or -1.
pub open spec fn key_end(t: Seq<char>) -> int
    decreases t.len(),
{
    if t.len() == 0 {
        -1
    } else {
        let k = key_end(t.drop_last());
        if k >= 0 {
            k
        } else if is_ascii_ws(t.last()) || t.last() == '=' {
            t.len() - 1
        } else {
            -1
        }
    }
}

/// Drops leading `=` and ASCII whitespace.
pub open spec fn skip_separators(s: Seq<char>) -> Seq<char>
    decreases s.len(),
{
    if s.len() > 0 && (s[0] == '=' || is_ascii_ws(s[0])) {
        skip_separators(s.drop_first())
    } else {
        s
    }
}

/// The key (as written) and value of a configuration line that is neither
/// empty nor a comment.
pub open spec fn key_value(t: Seq<char>) -> (Seq<char>, Seq<char>) {
    let p = key_end(t);
    if p >= 0 {
        (t.take(p), skip_separators(t.skip(p + 1)))
    } else {
        (t, Seq::empty())
    }
}

/// Where the reading of the configuration stands: the hosts done, and the
/// host being read.
pub struct SshConfigState {
    pub hosts: Seq<SshHostView>,
    pub current: Option<SshHostView>,
}

/// The hosts with `h` added unless its alias is a pattern.
pub open spec fn flush_host(hosts: Seq<SshHostView>, h: Option<SshHostView>) -> Seq<SshHostView> {
    match h {
        Some(x) => if is_plain_alias(x.alias) {
            hosts.push(x)
        } else {
            hosts
        },
        None => hosts,
    }
}

/// One line of the configuration read: `Host` starts a host named by its
/// first plain alias (none if it has none), `Match` ends the host, and
/// `HostName`, `User`, `Port` and `IdentityFile` (any case) set the current
/// host's fields; other lines change nothing.
pub open spec fn ssh_line_step(st: SshConfigState, line: Seq<char>) -> SshConfigState {
    let t = trim(line);
    if t.len() == 0 || t[0] == '#' {
        st
    } else {
        let kv = key_value(t);
        let key = unicode_lowercase(kv.0);
        let val = kv.1;
        if key == "host"@ || key == "match"@ {
            SshConfigState {
                hosts: flush_host(st.hosts, st.current),
                current: if key == "host"@ {
                    match first_plain_word(words_spec(val)) {
                        Some(a) => Some(SshHostView { alias: a, hostname: a, user: None, port: None, identity_file: None }),
                        None => None,
                    }
                } else {
                    None
                },
            }
        } else {
            match st.current {
                Some(h) => SshConfigState {
                    hosts: st.hosts,
                    current: Some(
                        if key == "hostname"@ {
                            SshHostView { hostname: val, ..h }
                        } else if key == "user"@ {
                            SshHostView { user: Some(val), ..h }
                        } else if key == "port"@ {
                            SshHostView { port: port_spec(val), ..h }
                        } else if key == "identityfile"@ {
                            SshHostView { identity_file: Some(val), ..h }
                        } else {
                            h
                        },
                    ),
                },
                None => st,
            }
        }
    }
}

/// `str::parse::<u16>`.
pub open spec fn port_spec(val: Seq<char>) -> Option<u16> {
    match parse_usize_spec(val) {
        Some(n) => if n <= 65535 { Some(n as u16) } else { None },
        None => None,
    }
}

/// The configuration read line by line.
pub open spec fn ssh_lines_fold(lines: Seq<Seq<char>>) -> SshConfigState
    decreases lines.len(),
{
    if lines.len() == 0 {
        SshConfigState { hosts: Seq::empty(), current: None }
    } else {
        ssh_line_step(ssh_lines_fold(lines.drop_last()), lines.last())
    }
}

/// The hosts an SSH client configuration names, in order.
pub open spec fn ssh_config_spec(content: Seq<char>) -> Seq<SshHostView> {
    let st = ssh_lines_fold(lines_spec(content));
    flush_host(st.hosts, st.current)
}

fn contains_char(s: &Vec<char>, c: char) -> (r: bool)
    ensures
        r == s@.contains(c),
{
    let mut i: usize = 0;
    while i < s.len()
        invariant
            i <= s.len(),
            forall|k: int| 0 <= k < i ==> s@[k] != c,
        decreases s.len() - i,
    {
        if s[i] == c {
            assert(s@[i as int] == c);
            return true;
        }
        i = i + 1;
    }
    false
}

fn plain_alias(w: &Vec<char>) -> (r: bool)
    ensures
        r == is_plain_alias(w@),
{
    !contains_char(w, '*') && !contains_char(w, '?')
}

fn first_plain(ws: &Vec<Vec<char>>) -> (r: Option<Vec<char>>)
    ensures
        match r {
            Some(w) => first_plain_word(views(ws@)) == Some(w@),
            None => first_plain_word(views(ws@)) is None,
        },
{
    let ghost v = views(ws@);
    let mut i: usize = 0;
    assert(v.skip(0) =~= v);
    while i < ws.len()
        invariant
            i <= ws.len(),
            v == views(ws@),
            first_plain_word(v) == first_plain_word(v.skip(i as int)),
        decreases ws.len() - i,
    {
        assert(v.skip(i as int)[0] == ws@[i as int]@);
        assert(v.skip(i as int).drop_first() =~= v.skip(i + 1));
        if plain_alias(&ws[i]) {
            return Some(ws[i].clone());
        }
        i = i + 1;
    }
    assert(v.skip(i as int) =~= Seq::<Seq<char>>::empty());
    None
}

fn key_value_exec(t: &Vec<char>) -> (r: (Vec<char>, Vec<char>))
    ensures
        (r.0@, r.1@) == key_value(t@),
{
    let mut p: usize = 0;
    while p < t.len() && !(char_is_ascii_ws(t[p]) || t[p] == '=')
        invariant
            p <= t.len(),
            key_end(t@.take(p as int)) == -1,
        decreases t.len() - p,
    {
        assert(t@.take(p + 1).drop_last() =~= t@.take(p as int));
        p = p + 1;
    }
    if p == t.len() {
        assert(t@.take(p as int) =~= t@);
        return (t.clone(), Vec::new());
    }
    assert(t@.take(p + 1).drop_last() =~= t@.take(p as int));
    proof { lemma_key_end_extend(t@, p as int); }
    let key = slice_chars(t, 0, p);
    let mut q = p + 1;
    while q < t.len() && (t[q] == '=' || char_is_ascii_ws(t[q]))
        invariant
            p < q <= t.len(),
            skip_separators(t@.skip(p + 1)) == skip_separators(t@.skip(q as int)),
        decreases t.len() - q,
    {
        assert(t@.skip(q as int).drop_first() =~= t@.skip(q + 1));
        q = q + 1;
    }
    let val = slice_chars(t, q, t.len());
    assert(val@ =~= t@.skip(q as int));
    assert(key@ =~= t@.take(p as int));
    (key, val)
}

proof fn lemma_key_end_extend(t: Seq<char>, p: int)
    requires
        0 <= p < t.len(),
        key_end(t.take(p)) == -1,
        key_end(t.take(p + 1)) == p,
    ensures
        key_end(t) == p,
    decreases t.len(),
{
    if t.len() > p + 1 {
        assert(t.drop_last().take(p) =~= t.take(p));
        assert(t.drop_last().take(p + 1) =~= t.take(p + 1));
        lemma_key_end_extend(t.drop_last(), p);
    } else {
        assert(t.take(p + 1) =~= t);
    }
}

fn str_is(s: &Vec<char>, lit: &str) -> (r: bool)
    ensures
        r == (s@ == lit@),
{
    chars_eq(s.as_slice(), chars_of(lit).as_slice())
}

fn host_named(a: &Vec<char>) -> (h: SshHost)
    ensures
        h.view() == (SshHostView { alias: a@, hostname: a@, user: None, port: None, identity_file: None }),
{
    SshHost {
        alias: string_from_chars(a.as_slice()),
        hostname: string_from_chars(a.as_slice()),
        user: None,
        port: None,
        identity_file: None,
    }
}

fn parse_port(val: &Vec<char>) -> (r: Option<u16>)
    ensures
        r == port_spec(val@),
{
    let s = string_from_chars(val.as_slice());
    match parse_usize(s.as_str()) {
        Some(n) => if n <= 65535 { Some(n as u16) } else { None },
        None => None,
    }
}

fn push_if_plain(hosts: &mut Vec<SshHost>, h: Option<SshHost>)
    ensures
        host_views(final(hosts)@) == flush_host(host_views(old(hosts)@), match h {
            Some(x) => Some(x.view()),
            None => None,
        }),
{
    match h {
        Some(x) => {
            let a = chars_of(x.alias.as_str());
            if plain_alias(&a) {
                let ghost before = host_views(hosts@);
                let ghost xv = x.view();
                hosts.push(x);
                assert(host_views(hosts@) =~= before.push(xv));
            }
        },
        None => {},
    }
}

/// The hosts an SSH client configuration names, in order (see
/// [`ssh_config_spec`]).
pub fn parse_ssh_config(content: &str) -> (r: Vec<SshHost>)
    ensures
        host_views(r@) == ssh_config_spec(content@),
{
    proof {
        reveal_strlit("host");
        reveal_strlit("match");
        reveal_strlit("hostname");
        reveal_strlit("user");
        reveal_strlit("port");
        reveal_strlit("identityfile");
    }
    let lines = lines_chars(&chars_of(content));
    let ghost lv = lines_spec(content@);
    let mut hosts: Vec<SshHost> = Vec::new();
    let mut current: Option<SshHost> = None;
    let mut i: usize = 0;
    assert(lv.take(0) =~= Seq::<Seq<char>>::empty());
    while i < lines.len()
        invariant
            i <= lines.len(),
            views(lines@) == lv,
            ({
                let st = ssh_lines_fold(lv.take(i as int));
                &&& host_views(hosts@) == st.hosts
                &&& match current {
                    Some(h) => st.current == Some(h.view()),
                    None => st.current is None,
                }
            }),
        decreases lines.len() - i,
    {
        assert(lv.take(i + 1).drop_last() =~= lv.take(i as int));
        assert(lv.take(i + 1).last() == lines@[i as int]@);
        let t = trim_chars(&lines[i]);
        if t.len() == 0 || t[0] == '#' {
            i = i + 1;
            continue;
        }
        let (raw_key, val) = key_value_exec(&t);
        let key_s = to_lowercase(string_from_chars(raw_key.as_slice()).as_str());
        let key = chars_of(key_s.as_str());
        let is_host = str_is(&key, "host");
        if is_host || str_is(&key, "match") {
            let done = current;
            current = None;
            push_if_plain(&mut hosts, done);
            if is_host {
                let ws = words(&val);
                match first_plain(&ws) {
                    Some(a) => {
                        current = Some(host_named(&a));
                    },
                    None => {},
                }
            }
        } else {
            match current {
                Some(mut h) => {
                    if str_is(&key, "hostname") {
                        h.hostname = string_from_chars(val.as_slice());
                    } else if str_is(&key, "user") {
                        h.user = Some(string_from_chars(val.as_slice()));
                    } else if str_is(&key, "port") {
                        h.port = parse_port(&val);
                    } else if str_is(&key, "identityfile") {
                        h.identity_file = Some(string_from_chars(val.as_slice()));
                    }
                    current = Some(h);
                },
                None => {},
            }
        }
        i = i + 1;
    }
    assert(lv.take(lines.len() as int) =~= lv);
    push_if_plain(&mut hosts, current);
    hosts
}

/// The remotes that `rclone listremotes --long` lists: for each line, the
/// text before the first `:` (trimmed) as the name and the rest (trimmed)
/// as the type, lines with an empty name left out.
pub open spec fn rclone_remotes_spec(output: Seq<char>) -> Seq<(Seq<char>, Seq<char>)> {
    rclone_lines(lines_spec(output))
}

/// Index of the first `:`, or -1.
pub open spec fn first_colon(s: Seq<char>) -> int
    decreases s.len(),
{
    if s.len() == 0 {
        -1
    } else {
        let k = first_colon(s.drop_last());
        if k >= 0 {
            k
        } else if s.last() == ':' {
            s.len() - 1
        } else {
            -1
        }
    }
}

/// The remotes named by lines of `rclone listremotes --long`.
pub open spec fn rclone_lines(lines: Seq<Seq<char>>) -> Seq<(Seq<char>, Seq<char>)>
    decreases lines.len(),
{
    if lines.len() == 0 {
        Seq::empty()
    } else {
        let rest = rclone_lines(lines.drop_last());
        let l = lines.last();
        let c = first_colon(l);
        let name = if c >= 0 { trim(l.take(c)) } else { trim(l) };
        let rtype = if c >= 0 { trim(l.skip(c + 1)) } else { Seq::empty() };
        if name.len() == 0 {
            rest
        } else {
            rest.push((name, rtype))
        }
    }
}

/// A remote's name and type.
pub struct RcloneRemote {
    pub name: String,
    pub rtype: String,
}

/// The views of a list of remotes.
pub open spec fn remote_views(v: Seq<RcloneRemote>) -> Seq<(Seq<char>, Seq<char>)> {
    v.map_values(|r: RcloneRemote| (r.name@, r.rtype@))
}

proof fn lemma_first_colon_extend(t: Seq<char>, p: int)
    requires
        0 <= p < t.len(),
        first_colon(t.take(p)) == -1,
        t[p] == ':',
    ensures
        first_colon(t) == p,
    decreases t.len(),
{
    if t.len() > p + 1 {
        assert(t.drop_last().take(p) =~= t.take(p));
        lemma_first_colon_extend(t.drop_last(), p);
    } else {
        assert(t.drop_last() =~= t.take(p));
    }
}

/// The remotes in the output of `rclone listremotes --long` (see
/// [`rclone_remotes_spec`]).
pub fn parse_rclone_remotes(output: &str) -> (r: Vec<RcloneRemote>)
    ensures
        remote_views(r@) == rclone_remotes_spec(output@),
{
    let lines = lines_chars(&chars_of(output));
    let ghost lv = lines_spec(output@);
    let mut out: Vec<RcloneRemote> = Vec::new();
    let mut i: usize = 0;
    assert(lv.take(0) =~= Seq::<Seq<char>>::empty());
    while i < lines.len()
        invariant
            i <= lines.len(),
            views(lines@) == lv,
            remote_views(out@) == rclone_lines(lv.take(i as int)),
        decreases lines.len() - i,
    {
        assert(lv.take(i + 1).drop_last() =~= lv.take(i as int));
        assert(lv.take(i + 1).last() == lines@[i as int]@);
        let l = &lines[i];
        let mut c: usize = 0;
        while c < l.len() && l[c] != ':'
            invariant
                c <= l.len(),
                first_colon(l@.take(c as int)) == -1,
            decreases l.len() - c,
        {
            assert(l@.take(c + 1).drop_last() =~= l@.take(c as int));
            c = c + 1;
        }
        let (name, rtype) = if c < l.len() {
            proof { lemma_first_colon_extend(l@, c as int); }
            let n = trim_chars(&slice_chars(l, 0, c));
            let t = trim_chars(&slice_chars(l, c + 1, l.len()));
            assert(l@.subrange(0, c as int) =~= l@.take(c as int));
            assert(l@.subrange(c + 1, l.len() as int) =~= l@.skip(c + 1));
            (n, t)
        } else {
            assert(l@.take(c as int) =~= l@);
            (trim_chars(l), Vec::new())
        };
        if name.len() > 0 {
            let rr = RcloneRemote {
                name: string_from_chars(name.as_slice()),
                rtype: string_from_chars(rtype.as_slice()),
            };
            let ghost before = remote_views(out@);
            out.push(rr);
            assert(remote_views(out@) =~= before.push((name@, rtype@)));
        }
        i = i + 1;
    }
    assert(lv.take(lines.len() as int) =~= lv);
    out
}

/// A place the remote picker offers.
pub enum RemoteEntry {
    Ssh(SshHost),
    Rclone { name: String, rtype: String },
    ArchiveMount { archive_name: String, mount_path: String },
    LocalMount { name: String, mount_path: String, source: String },
}

/// The name an entry is listed by.
pub open spec fn alias_spec(e: RemoteEntry) -> Seq<char> {
    match e {
        RemoteEntry::Ssh(h) => h.alias@,
        RemoteEntry::Rclone { name, .. } => name@,
        RemoteEntry::ArchiveMount { archive_name, .. } => archive_name@,
        RemoteEntry::LocalMount { name, .. } => name@,
    }
}

impl RemoteEntry {
    /// The name an entry is listed by.
    pub fn alias(&self) -> (r: &str)
        ensures
            r@ == alias_spec(*self),
    {
        match self {
            RemoteEntry::Ssh(h) => h.alias.as_str(),
            RemoteEntry::Rclone { name, .. } => name.as_str(),
            RemoteEntry::ArchiveMount { archive_name, .. } => archive_name.as_str(),
            RemoteEntry::LocalMount { name, .. } => name.as_str(),
        }
    }
}

/// A directory found under a mount root: the root's label, the
/// directory's name and its path.
pub struct FoundMount {
    pub source: String,
    pub child_name: String,
    pub path: String,
}

/// A local mount as values: name, path and source.
pub open spec fn found_view(f: FoundMount) -> (Seq<char>, Seq<char>, Seq<char>) {
    (f.source@ + seq![':'] + f.child_name@, f.path@, f.source@)
}

/// The found directories, each path kept at its first sighting.
pub open spec fn first_sightings(found: Seq<(Seq<char>, Seq<char>, Seq<char>)>) -> Seq<(Seq<char>, Seq<char>, Seq<char>)>
    decreases found.len(),
{
    if found.len() == 0 {
        Seq::empty()
    } else {
        let kept = first_sightings(found.drop_last());
        let f = found.last();
        if exists|k: int| 0 <= k < kept.len() && (#[trigger] kept[k]).1 == f.1 {
            kept
        } else {
            kept.push(f)
        }
    }
}

/// Mount `a` may stay before mount `b`: its name does not come after.
pub open spec fn mount_name_le(a: (Seq<char>, Seq<char>, Seq<char>), b: (Seq<char>, Seq<char>, Seq<char>)) -> bool {
    order_seq(a.0, b.0) != 1
}

/// The local mounts the picker lists: each found directory once (by path),
/// named `source:name`, in name order (stable).
pub open spec fn local_mounts_spec(found: Seq<FoundMount>) -> Seq<(Seq<char>, Seq<char>, Seq<char>)> {
    sort_spec(
        first_sightings(found.map_values(|f: FoundMount| found_view(f))),
        |a: (Seq<char>, Seq<char>, Seq<char>), b: (Seq<char>, Seq<char>, Seq<char>)| mount_name_le(a, b),
    )
}

/// A local mount entry as values (name, path, source).
pub open spec fn local_mount_view(e: RemoteEntry) -> (Seq<char>, Seq<char>, Seq<char>) {
    match e {
        RemoteEntry::LocalMount { name, mount_path, source } => (name@, mount_path@, source@),
        _ => (Seq::empty(), Seq::empty(), Seq::empty()),
    }
}

fn order_chars(a: &Vec<char>, b: &Vec<char>) -> (r: i8)
    ensures
        r as int == order_seq(a@, b@),
{
    if chars_eq(a.as_slice(), b.as_slice()) {
        0
    } else if lex_less(a.as_slice(), b.as_slice()) {
        -1
    } else {
        1
    }
}

/// The local mounts the picker lists (see [`local_mounts_spec`]).
pub fn parse_local_mount_dirs(found: &Vec<FoundMount>) -> (r: Vec<RemoteEntry>)
    ensures
        r@.map_values(|e: RemoteEntry| local_mount_view(e)) == local_mounts_spec(found@),
        forall|i: int| 0 <= i < r@.len() ==> r@[i] is LocalMount,
{
    let ghost fv = found@.map_values(|f: FoundMount| found_view(f));
    let ghost le = |a: (Seq<char>, Seq<char>, Seq<char>), b: (Seq<char>, Seq<char>, Seq<char>)| mount_name_le(a, b);
    // Keep first sightings, as (name, path, source) char vectors.
    let mut kept: Vec<(Vec<char>, Vec<char>, Vec<char>)> = Vec::new();
    let mut i: usize = 0;
    assert(fv.take(0) =~= Seq::<(Seq<char>, Seq<char>, Seq<char>)>::empty());
    while i < found.len()
        invariant
            i <= found.len(),
            fv == found@.map_values(|f: FoundMount| found_view(f)),
            kept@.map_values(|t: (Vec<char>, Vec<char>, Vec<char>)| (t.0@, t.1@, t.2@)) == first_sightings(fv.take(i as int)),
        decreases found.len() - i,
    {
        let ghost kv = kept@.map_values(|t: (Vec<char>, Vec<char>, Vec<char>)| (t.0@, t.1@, t.2@));
        assert(fv.take(i + 1).drop_last() =~= fv.take(i as int));
        let src = chars_of(found[i].source.as_str());
        let path = chars_of(found[i].path.as_str());
        let mut name = src.clone();
        name.push(':');
        let child = chars_of(found[i].child_name.as_str());
        let mut q: usize = 0;
        while q < child.len()
            invariant
                q <= child.len(),
                name@ == src@ + seq![':'] + child@.take(q as int),
            decreases child.len() - q,
        {
            name.push(child[q]);
            assert(child@.take(q + 1) =~= child@.take(q as int).push(child@[q as int]));
            q = q + 1;
        }
        assert(child@.take(child.len() as int) =~= child@);
        assert(fv.take(i + 1).last() == (name@, path@, src@));
        let mut seen = false;
        let mut k: usize = 0;
        while k < kept.len()
            invariant
                k <= kept.len(),
                kv == kept@.map_values(|t: (Vec<char>, Vec<char>, Vec<char>)| (t.0@, t.1@, t.2@)),
                seen == exists|j: int| 0 <= j < k && (#[trigger] kv[j]).1 == path@,
            decreases kept.len() - k,
        {
            if chars_eq(kept[k].1.as_slice(), path.as_slice()) {
                assert(kv[k as int].1 == path@);
                seen = true;
            }
            proof {
                if !seen {
                    assert forall|j: int| 0 <= j < k + 1 implies !((#[trigger] kv[j]).1 == path@) by {
                        if j == k {
                        }
                    }
                }
            }
            k = k + 1;
        }
        if !seen {
            let ghost t = (name@, path@, src@);
            kept.push((name, path, src));
            assert(kept@.map_values(|t: (Vec<char>, Vec<char>, Vec<char>)| (t.0@, t.1@, t.2@)) =~= kv.push(t));
        }
        i = i + 1;
    }
    assert(fv.take(found.len() as int) =~= fv);
    let ghost src_seq = kept@.map_values(|t: (Vec<char>, Vec<char>, Vec<char>)| (t.0@, t.1@, t.2@));
    // Stable insertion sort by name.
    let mut sorted: Vec<(Vec<char>, Vec<char>, Vec<char>)> = Vec::new();
    let ghost mut taken: Seq<(Seq<char>, Seq<char>, Seq<char>)> = Seq::empty();
    while kept.len() > 0
        invariant
            src_seq == taken + kept@.map_values(|t: (Vec<char>, Vec<char>, Vec<char>)| (t.0@, t.1@, t.2@)),
            sorted@.map_values(|t: (Vec<char>, Vec<char>, Vec<char>)| (t.0@, t.1@, t.2@)) == sort_spec(taken, le),
            le == (|a: (Seq<char>, Seq<char>, Seq<char>), b: (Seq<char>, Seq<char>, Seq<char>)| mount_name_le(a, b)),
        decreases kept.len(),
    {
        let ghost rest0 = kept@;
        let h = kept.remove(0);
        let ghost hv = (h.0@, h.1@, h.2@);
        assert(rest0.map_values(|t: (Vec<char>, Vec<char>, Vec<char>)| (t.0@, t.1@, t.2@)) =~= seq![hv] + kept@.map_values(|t: (Vec<char>, Vec<char>, Vec<char>)| (t.0@, t.1@, t.2@)));
        let ghost sv = sorted@.map_values(|t: (Vec<char>, Vec<char>, Vec<char>)| (t.0@, t.1@, t.2@));
        let mut j = sorted.len();
        while j > 0 && order_chars(&sorted[j - 1].0, &h.0) == 1
            invariant
                j <= sorted.len(),
                sv == sorted@.map_values(|t: (Vec<char>, Vec<char>, Vec<char>)| (t.0@, t.1@, t.2@)),
                le == (|a: (Seq<char>, Seq<char>, Seq<char>), b: (Seq<char>, Seq<char>, Seq<char>)| mount_name_le(a, b)),
                forall|k: int| j <= k < sv.len() ==> !le(#[trigger] sv[k], hv),
                hv == (h.0@, h.1@, h.2@),
            decreases j,
        {
            assert(sv[j - 1] == (sorted@[j - 1].0@, sorted@[j - 1].1@, sorted@[j - 1].2@));
            j = j - 1;
        }
        proof {
            lemma_insert_at(sv, hv, le, j as int);
            assert(taken.push(hv).drop_last() =~= taken);
        }
        sorted.insert(j, h);
        proof {
            assert(sorted@.map_values(|t: (Vec<char>, Vec<char>, Vec<char>)| (t.0@, t.1@, t.2@)) =~= sv.insert(j as int, hv));
            taken = taken.push(hv);
            assert(src_seq =~= taken + kept@.map_values(|t: (Vec<char>, Vec<char>, Vec<char>)| (t.0@, t.1@, t.2@)));
        }
    }
    assert(taken =~= src_seq);
    let ghost target = sorted@.map_values(|t: (Vec<char>, Vec<char>, Vec<char>)| (t.0@, t.1@, t.2@));
    let mut out: Vec<RemoteEntry> = Vec::new();
    let mut k: usize = 0;
    while k < sorted.len()
        invariant
            k <= sorted.len(),
            target == sorted@.map_values(|t: (Vec<char>, Vec<char>, Vec<char>)| (t.0@, t.1@, t.2@)),
            out@.len() == k,
            forall|i: int| 0 <= i < k ==> (#[trigger] out@[i]) is LocalMount && local_mount_view(out@[i]) == target[i],
        decreases sorted.len() - k,
    {
        let e = RemoteEntry::LocalMount {
            name: string_from_chars(sorted[k].0.as_slice()),
            mount_path: string_from_chars(sorted[k].1.as_slice()),
            source: string_from_chars(sorted[k].2.as_slice()),
        };
        out.push(e);
        k = k + 1;
    }
    assert(out@.map_values(|e: RemoteEntry| local_mount_view(e)) =~= target);
    out
}

} // verus!
